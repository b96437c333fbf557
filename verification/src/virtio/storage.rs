//! Choice of the storage device: VirtIO block device or SD card.
use vstd::prelude::*;
use super::block::RustVmmVirtIOBlock;
use super::error::{DiskError, DiskResult};
use crate::drivers::sdcard::device::{read_sdcard_blocks, write_sdcard_blocks, SdCardDevice};
use crate::drivers::sdcard::protocol::SpiInterface;

verus! {

/// Kind of storage device.
#[derive(Debug, Clone, Copy, PartialEq, Eq, Structural)]
pub enum StorageType {
    VirtIO,
    SdCard,
}

/// Which storage devices exist and which one is used.
pub struct StorageManager {
    pub active_device: Option<StorageType>,
    pub virtio_available: bool,
    pub sdcard_available: bool,
}

impl StorageManager {
    pub fn new() -> (m: Self)
        ensures
            m.active_device.is_none(),
            !m.virtio_available,
            !m.sdcard_available,
    {
        StorageManager { active_device: None, virtio_available: false, sdcard_available: false }
    }

    /// Records the devices found (an initialized VirtIO block device, an SD
    /// card of non-zero capacity) and picks the VirtIO device first.
    pub fn init(&mut self, virtio_initialized: bool, sdcard_capacity: u32) -> (r: DiskResult<()>)
        ensures
            final(self).virtio_available == (old(self).virtio_available || virtio_initialized),
            final(self).sdcard_available == (old(self).sdcard_available || sdcard_capacity > 0),
            final(self).virtio_available ==> final(self).active_device == Some(StorageType::VirtIO) && r.is_ok(),
            !final(self).virtio_available && final(self).sdcard_available
                ==> final(self).active_device == Some(StorageType::SdCard) && r.is_ok(),
            !final(self).virtio_available && !final(self).sdcard_available
                ==> r == Err::<(), DiskError>(DiskError::DeviceNotFound)
                    && final(self).active_device == old(self).active_device,
    {
        if virtio_initialized {
            self.virtio_available = true;
        }
        if sdcard_capacity > 0 {
            self.sdcard_available = true;
        }
        if self.virtio_available {
            self.active_device = Some(StorageType::VirtIO);
        } else if self.sdcard_available {
            self.active_device = Some(StorageType::SdCard);
        } else {
            return Err(DiskError::DeviceNotFound);
        }
        Ok(())
    }

    /// The device that reads and writes go to; none is `DeviceNotFound`.
    pub fn route(&self) -> (r: DiskResult<StorageType>)
        ensures
            match self.active_device {
                Some(t) => r == Ok::<StorageType, DiskError>(t),
                None => r == Err::<StorageType, DiskError>(DiskError::DeviceNotFound),
            },
    {
        match self.active_device {
            Some(t) => Ok(t),
            None => Err(DiskError::DeviceNotFound),
        }
    }

    /// The capacity in sectors of the active device, given the capacities of
    /// both devices; zero when no device is active.
    pub fn get_capacity(&self, virtio_capacity: u64, sdcard_capacity: u32) -> (c: u64)
        ensures
            self.active_device == Some(StorageType::VirtIO) ==> c == virtio_capacity,
            self.active_device == Some(StorageType::SdCard) ==> c == sdcard_capacity,
            self.active_device.is_none() ==> c == 0,
    {
        match self.active_device {
            Some(StorageType::VirtIO) => virtio_capacity,
            Some(StorageType::SdCard) => sdcard_capacity as u64,
            None => 0,
        }
    }

    pub fn get_active_device(&self) -> (d: Option<StorageType>)
        ensures
            d == self.active_device,
    {
        self.active_device
    }

    pub fn is_available(&self) -> (b: bool)
        ensures
            b == self.active_device.is_some(),
    {
        self.active_device.is_some()
    }

    /// Switches to a device that was found; an absent one is `DeviceNotFound`.
    pub fn switch_device(&mut self, device_type: StorageType) -> (r: DiskResult<()>)
        ensures
            final(self).virtio_available == old(self).virtio_available,
            final(self).sdcard_available == old(self).sdcard_available,
            r.is_ok() <==> (match device_type {
                StorageType::VirtIO => old(self).virtio_available,
                StorageType::SdCard => old(self).sdcard_available,
            }),
            r.is_ok() ==> final(self).active_device == Some(device_type),
            r.is_err() ==> r == Err::<(), DiskError>(DiskError::DeviceNotFound)
                && final(self).active_device == old(self).active_device,
    {
        match device_type {
            StorageType::VirtIO => {
                if self.virtio_available {
                    self.active_device = Some(StorageType::VirtIO);
                    Ok(())
                } else {
                    Err(DiskError::DeviceNotFound)
                }
            },
            StorageType::SdCard => {
                if self.sdcard_available {
                    self.active_device = Some(StorageType::SdCard);
                    Ok(())
                } else {
                    Err(DiskError::DeviceNotFound)
                }
            },
        }
    }
}

/// What a block transfer of the storage manager leaves to do: the sectors
/// of a VirtIO transfer (see `RustVmmVirtIOBlock::read_blocks`), or
/// nothing, the SD card having done it.
pub enum StorageTransfer {
    VirtIO(Vec<(u64, usize)>),
    Done,
}

impl StorageManager {
    /// Reads blocks from `start_block` into `buffer` on the active device:
    /// the VirtIO device's sectors are planned (`buffer` is filled as the
    /// plan is carried out), the SD card reads them at once, its errors
    /// becoming `ReadError`. No active device is `DeviceNotFound`.
    pub fn read_blocks<S: SpiInterface>(
        &self,
        virtio: &RustVmmVirtIOBlock,
        card: &mut Option<SdCardDevice<S>>,
        start_block: u32,
        buffer: &mut [u8],
    ) -> (r: DiskResult<StorageTransfer>)
        requires
            start_block + old(buffer)@.len() / 512 <= u32::MAX,
        ensures
            final(buffer)@.len() == old(buffer)@.len(),
            self.active_device.is_none() ==> r is Err && r->Err_0 == DiskError::DeviceNotFound
                && final(buffer)@ == old(buffer)@ && *final(card) == *old(card),
            self.active_device == Some(StorageType::VirtIO) ==> final(buffer)@ == old(buffer)@ && *final(card) == *old(card)
                && match (r, super::block::blocks_plan(*virtio, start_block as int, old(buffer)@.len() as int, true)) {
                    (Ok(StorageTransfer::VirtIO(v)), Ok(p)) => v@ == p,
                    (Err(e), Err(f)) => e == f,
                    _ => false,
                },
            self.active_device == Some(StorageType::SdCard) ==> {
                &&& r is Ok ==> (r matches Ok(StorageTransfer::Done))
                &&& r is Err ==> r->Err_0 == DiskError::ReadError
                &&& old(card).is_none() ==> r is Err
                &&& old(card).is_some() && old(buffer)@.len() % 512 != 0 ==> r is Err && final(buffer)@ == old(buffer)@
                &&& old(card).is_some() && old(buffer)@.len() == 0 ==> r is Ok
            },
    {
        match self.active_device {
            Some(StorageType::VirtIO) => {
                match virtio.read_blocks(start_block as u64, buffer.len()) {
                    Ok(v) => Ok(StorageTransfer::VirtIO(v)),
                    Err(e) => Err(e),
                }
            },
            Some(StorageType::SdCard) => {
                match read_sdcard_blocks(card, start_block, buffer) {
                    Ok(()) => Ok(StorageTransfer::Done),
                    Err(_) => Err(DiskError::ReadError),
                }
            },
            None => Err(DiskError::DeviceNotFound),
        }
    }

    /// Writes `buffer` to blocks from `start_block` on the active device:
    /// the VirtIO device's sectors are planned, the SD card writes them at
    /// once, its errors becoming `WriteError`. No active device is
    /// `DeviceNotFound`.
    pub fn write_blocks<S: SpiInterface>(
        &self,
        virtio: &RustVmmVirtIOBlock,
        card: &mut Option<SdCardDevice<S>>,
        start_block: u32,
        buffer: &[u8],
    ) -> (r: DiskResult<StorageTransfer>)
        requires
            start_block + buffer@.len() / 512 <= u32::MAX,
        ensures
            self.active_device.is_none() ==> r is Err && r->Err_0 == DiskError::DeviceNotFound && *final(card) == *old(card),
            self.active_device == Some(StorageType::VirtIO) ==> *final(card) == *old(card)
                && match (r, super::block::blocks_plan(*virtio, start_block as int, buffer@.len() as int, false)) {
                    (Ok(StorageTransfer::VirtIO(v)), Ok(p)) => v@ == p,
                    (Err(e), Err(f)) => e == f,
                    _ => false,
                },
            self.active_device == Some(StorageType::SdCard) ==> {
                &&& r is Ok ==> (r matches Ok(StorageTransfer::Done))
                &&& r is Err ==> r->Err_0 == DiskError::WriteError
                &&& old(card).is_none() ==> r is Err
                &&& old(card).is_some() && buffer@.len() % 512 != 0 ==> r is Err
                &&& old(card).is_some() && buffer@.len() == 0 ==> r is Ok
            },
    {
        match self.active_device {
            Some(StorageType::VirtIO) => {
                match virtio.write_blocks(start_block as u64, buffer.len()) {
                    Ok(v) => Ok(StorageTransfer::VirtIO(v)),
                    Err(e) => Err(e),
                }
            },
            Some(StorageType::SdCard) => {
                match write_sdcard_blocks(card, start_block, buffer) {
                    Ok(()) => Ok(StorageTransfer::Done),
                    Err(_) => Err(DiskError::WriteError),
                }
            },
            None => Err(DiskError::DeviceNotFound),
        }
    }
}

/// Detects the storage devices into `storage` (`StorageManager::init`).
pub fn init_storage(storage: &mut StorageManager, virtio_initialized: bool, sdcard_capacity: u32) -> (r: DiskResult<()>)
    ensures
        final(storage).virtio_available == (old(storage).virtio_available || virtio_initialized),
        final(storage).sdcard_available == (old(storage).sdcard_available || sdcard_capacity > 0),
        final(storage).virtio_available ==> final(storage).active_device == Some(StorageType::VirtIO) && r.is_ok(),
        !final(storage).virtio_available && final(storage).sdcard_available
            ==> final(storage).active_device == Some(StorageType::SdCard) && r.is_ok(),
        !final(storage).virtio_available && !final(storage).sdcard_available
            ==> r == Err::<(), DiskError>(DiskError::DeviceNotFound)
                && final(storage).active_device == old(storage).active_device,
{
    storage.init(virtio_initialized, sdcard_capacity)
}

/// The capacity of the active device of `storage`.
pub fn storage_get_capacity(storage: &StorageManager, virtio_capacity: u64, sdcard_capacity: u32) -> (c: u64)
    ensures
        storage.active_device == Some(StorageType::VirtIO) ==> c == virtio_capacity,
        storage.active_device == Some(StorageType::SdCard) ==> c == sdcard_capacity,
        storage.active_device.is_none() ==> c == 0,
{
    storage.get_capacity(virtio_capacity, sdcard_capacity)
}

pub fn storage_get_active_device(storage: &StorageManager) -> (d: Option<StorageType>)
    ensures
        d == storage.active_device,
{
    storage.get_active_device()
}

pub fn storage_is_available(storage: &StorageManager) -> (b: bool)
    ensures
        b == storage.active_device.is_some(),
{
    storage.is_available()
}

} // verus!
