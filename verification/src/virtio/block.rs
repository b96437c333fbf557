//! VirtIO block device: device discovery decisions, feature negotiation,
//! queue layout, and the descriptor chains of sector reads and writes.
use vstd::prelude::*;
use super::error::{DiskError, DiskResult};
use super::mmio::{
    align_up, spec_align_up, PAGE_SIZE, VIRTIO_MAGIC, VIRTIO_ID_BLOCK, VIRTIO_STATUS_ACKNOWLEDGE,
    VIRTIO_STATUS_DRIVER, VIRTIO_STATUS_DRIVER_OK, VIRTIO_STATUS_FEATURES_OK, VIRTQ_DESC_F_NEXT,
    VIRTQ_DESC_F_WRITE,
};
use super::queue::{is_pow2, ChainPlacement, VirtioQueue, VirtqDesc};

verus! {

/// Block request type: read.
pub const VIRTIO_BLK_T_IN: u32 = 0;
/// Block request type: write.
pub const VIRTIO_BLK_T_OUT: u32 = 1;
/// Block request type: flush.
pub const VIRTIO_BLK_T_FLUSH: u32 = 4;
/// Request status: success.
pub const VIRTIO_BLK_S_OK: u8 = 0;
/// Request status: I/O error.
pub const VIRTIO_BLK_S_IOERR: u8 = 1;
/// Request status: unsupported.
pub const VIRTIO_BLK_S_UNSUPP: u8 = 2;
/// Index of the request queue.
pub const VIRTIO_BLK_REQUEST_QUEUE_IDX: u16 = 0;
/// Size of a request header in bytes.
pub const VIRTIO_BLK_REQ_SIZE: u32 = 16;
/// Size of a sector in bytes.
pub const SECTOR_SIZE: usize = 512;
/// The MMIO addresses probed for VirtIO devices, in order.
pub const VIRTIO_MMIO_BASES: [usize; 8] = [
    0x10001000, 0x10002000, 0x10003000, 0x10004000, 0x10005000, 0x10006000, 0x10007000, 0x10008000,
];

/// Header of a block request.
#[derive(Debug, Clone, Copy, PartialEq, Eq, Structural)]
pub struct VirtioBlkReq {
    pub type_: u32,
    pub reserved: u32,
    pub sector: u64,
}

impl VirtioBlkReq {
    pub fn new_read(sector: u64) -> (r: Self)
        ensures
            r == (VirtioBlkReq { type_: VIRTIO_BLK_T_IN, reserved: 0, sector }),
    {
        VirtioBlkReq { type_: VIRTIO_BLK_T_IN, reserved: 0, sector }
    }

    pub fn new_write(sector: u64) -> (r: Self)
        ensures
            r == (VirtioBlkReq { type_: VIRTIO_BLK_T_OUT, reserved: 0, sector }),
    {
        VirtioBlkReq { type_: VIRTIO_BLK_T_OUT, reserved: 0, sector }
    }
}

/// The buffer area of block requests: a 16-byte request header, a 512-byte
/// data buffer and a status byte.
#[derive(Debug, Clone, Copy, PartialEq, Eq, Structural)]
pub struct VirtioBuffers {
    pub base_addr: usize,
    pub request_offset: usize,
    pub data_offset: usize,
    pub status_offset: usize,
}

impl VirtioBuffers {
    pub fn new(base_addr: usize) -> (b: Self)
        ensures
            b == (VirtioBuffers { base_addr, request_offset: 0, data_offset: 16, status_offset: 528 }),
    {
        VirtioBuffers { base_addr, request_offset: 0, data_offset: 16, status_offset: 528 }
    }

    /// Whether every buffer address fits in a machine word.
    pub open spec fn fits(&self) -> bool {
        self.base_addr + 528 <= usize::MAX
    }

    pub fn request_addr(&self) -> (a: usize)
        requires
            self.fits(),
            self.request_offset == 0,
        ensures
            a == self.base_addr,
    {
        self.base_addr + self.request_offset
    }

    pub fn data_addr(&self) -> (a: usize)
        requires
            self.fits(),
            self.data_offset == 16,
        ensures
            a == self.base_addr + 16,
    {
        self.base_addr + self.data_offset
    }

    pub fn status_addr(&self) -> (a: usize)
        requires
            self.fits(),
            self.status_offset == 528,
        ensures
            a == self.base_addr + 528,
    {
        self.base_addr + self.status_offset
    }
}

/// The three-descriptor chain of a sector request: header, data (written by
/// the device when `device_writes_data`), status byte (written by the device).
pub open spec fn request_chain(b: VirtioBuffers, device_writes_data: bool) -> Seq<VirtqDesc> {
    seq![
        VirtqDesc { addr: b.base_addr as u64, len: VIRTIO_BLK_REQ_SIZE, flags: VIRTQ_DESC_F_NEXT, next: 1 },
        VirtqDesc {
            addr: (b.base_addr + 16) as u64,
            len: 512,
            flags: if device_writes_data { (VIRTQ_DESC_F_WRITE | VIRTQ_DESC_F_NEXT) as u16 } else { VIRTQ_DESC_F_NEXT },
            next: 2,
        },
        VirtqDesc { addr: (b.base_addr + 528) as u64, len: 1, flags: VIRTQ_DESC_F_WRITE, next: 0 },
    ]
}

/// Builds the descriptor chain of a sector request.
pub fn build_request_chain(b: &VirtioBuffers, device_writes_data: bool) -> (c: Vec<VirtqDesc>)
    requires
        b.fits(),
        *b == VirtioBuffers::new_spec(b.base_addr),
    ensures
        c@ == request_chain(*b, device_writes_data),
{
    let data_flags: u16 = if device_writes_data { VIRTQ_DESC_F_WRITE | VIRTQ_DESC_F_NEXT } else { VIRTQ_DESC_F_NEXT };
    let mut c: Vec<VirtqDesc> = Vec::new();
    c.push(VirtqDesc { addr: b.request_addr() as u64, len: VIRTIO_BLK_REQ_SIZE, flags: VIRTQ_DESC_F_NEXT, next: 1 });
    c.push(VirtqDesc { addr: b.data_addr() as u64, len: 512, flags: data_flags, next: 2 });
    c.push(VirtqDesc { addr: b.status_addr() as u64, len: 1, flags: VIRTQ_DESC_F_WRITE, next: 0 });
    assert(c@ =~= request_chain(*b, device_writes_data));
    c
}

impl VirtioBuffers {
    pub open spec fn new_spec(base_addr: usize) -> VirtioBuffers {
        VirtioBuffers { base_addr, request_offset: 0, data_offset: 16, status_offset: 528 }
    }
}

/// What a probed MMIO slot is: not a block device, or a block device that is
/// legacy (version 1) or modern (version 2 and later).
pub open spec fn probe_result(magic: u32, version: u32, device_id: u32) -> Option<bool> {
    if magic != VIRTIO_MAGIC || device_id != VIRTIO_ID_BLOCK {
        None
    } else if version >= 2 {
        Some(false)
    } else if version == 1 {
        Some(true)
    } else {
        None
    }
}

/// Memory layout of a queue: total bytes and the offsets of the available
/// ring, the used ring and the request buffers from the descriptor table.
#[derive(Debug, Clone, Copy, PartialEq, Eq, Structural)]
pub struct QueueLayout {
    pub total_size: usize,
    pub avail_offset: usize,
    pub used_offset: usize,
    pub buffer_offset: usize,
}

/// The layout of a legacy queue of `n` entries: page-aligned used ring and
/// buffer area after the descriptor table and available ring.
pub open spec fn legacy_layout(n: int) -> QueueLayout {
    let desc = 16 * n;
    let avail = 6 + 2 * n;
    let used = 6 + 8 * n;
    let device_area = spec_align_up(desc + avail);
    let buffer_area = spec_align_up(device_area + used);
    QueueLayout {
        total_size: spec_align_up(buffer_area + 1024) as usize,
        avail_offset: desc as usize,
        used_offset: device_area as usize,
        buffer_offset: buffer_area as usize,
    }
}

/// The layout of a modern queue of `n` entries: rings packed after the
/// descriptor table, the used ring 4-byte aligned; buffers are separate.
pub open spec fn modern_layout(n: int) -> QueueLayout {
    let desc = 16 * n;
    let avail = 6 + 2 * n;
    QueueLayout {
        total_size: (desc + avail + 4 + 8 * n + 64) as usize,
        avail_offset: desc as usize,
        used_offset: ((desc + avail + 3) / 4 * 4) as usize,
        buffer_offset: 0,
    }
}

/// Computes the layout of a legacy queue of `n` entries.
pub fn legacy_queue_layout(n: u16) -> (l: QueueLayout)
    ensures
        l == legacy_layout(n as int),
{
    let nn = n as usize;
    let desc = 16 * nn;
    let avail = 6 + 2 * nn;
    let used = 6 + 8 * nn;
    let device_area = align_up(desc + avail);
    let buffer_area = align_up(device_area + used);
    let total = align_up(buffer_area + 1024);
    QueueLayout { total_size: total, avail_offset: desc, used_offset: device_area, buffer_offset: buffer_area }
}

/// Computes the layout of a modern queue of `n` entries.
pub fn modern_queue_layout(n: u16) -> (l: QueueLayout)
    ensures
        l == modern_layout(n as int),
{
    let nn = n as usize;
    let desc = 16 * nn;
    let avail = 6 + 2 * nn;
    let used_off = (desc + avail + 3) / 4 * 4;
    QueueLayout { total_size: desc + avail + 4 + 8 * nn + 64, avail_offset: desc, used_offset: used_off, buffer_offset: 0 }
}

/// The queue size the driver uses: at most 64 entries, at most what the
/// device offers.
pub open spec fn chosen_queue_size(max_queue_size: u32) -> u16 {
    if (max_queue_size as u16) < 64 { max_queue_size as u16 } else { 64 }
}

/// A VirtIO block device as the driver tracks it.
pub struct RustVmmVirtIOBlock {
    pub initialized: bool,
    pub capacity_sectors: u64,
    pub mmio_base: usize,
    pub queue: VirtioQueue,
    pub device_features: u64,
    pub driver_features: u64,
    pub is_legacy: bool,
}

impl RustVmmVirtIOBlock {
    pub fn new() -> (d: Self)
        ensures
            !d.initialized,
            d.capacity_sectors == 0,
            d.mmio_base == 0,
            d.queue.wf(),
            !d.queue.spec_ready(),
            d.queue.spec_size() == 0,
            d.device_features == 0,
            d.driver_features == 0,
            !d.is_legacy,
    {
        RustVmmVirtIOBlock {
            initialized: false,
            capacity_sectors: 0,
            mmio_base: 0,
            queue: VirtioQueue::new(),
            device_features: 0,
            driver_features: 0,
            is_legacy: false,
        }
    }

    /// Decides from the magic, version and device-id registers of the slot at
    /// `base` whether it holds a block device; a hit records the base and
    /// whether the device is legacy.
    pub fn probe_mmio_device(&mut self, base: usize, magic: u32, version: u32, device_id: u32) -> (found: bool)
        ensures
            found == probe_result(magic, version, device_id).is_some(),
            found ==> final(self).mmio_base == base
                && final(self).is_legacy == probe_result(magic, version, device_id).unwrap(),
            !found ==> final(self).mmio_base == old(self).mmio_base && final(self).is_legacy == old(self).is_legacy,
            final(self).initialized == old(self).initialized,
            final(self).capacity_sectors == old(self).capacity_sectors,
            final(self).queue == old(self).queue,
    {
        if magic != VIRTIO_MAGIC || device_id != VIRTIO_ID_BLOCK {
            return false;
        }
        if version >= 2 {
            self.is_legacy = false;
        } else if version == 1 {
            self.is_legacy = true;
        } else {
            return false;
        }
        self.mmio_base = base;
        true
    }

    /// Records the negotiated features and the capacity read from the device.
    /// A modern device must keep `FEATURES_OK` in its status after the driver
    /// sets it, else `VirtIOError`; the driver accepts no feature.
    pub fn init_device(&mut self, features_lo: u32, features_hi: u32, status_after_features: u32,
        capacity_lo: u32, capacity_hi: u32) -> (r: DiskResult<()>)
        ensures
            final(self).driver_features == 0,
            final(self).is_legacy == old(self).is_legacy,
            final(self).initialized == old(self).initialized,
            final(self).queue == old(self).queue,
            final(self).mmio_base == old(self).mmio_base,
            old(self).is_legacy ==> final(self).device_features == features_lo,
            !old(self).is_legacy ==> final(self).device_features == features_hi as int * 0x1_0000_0000 + features_lo,
            r.is_err() <==> (!old(self).is_legacy && status_after_features & VIRTIO_STATUS_FEATURES_OK == 0),
            r.is_err() ==> r == Err::<(), DiskError>(DiskError::VirtIOError),
            r.is_ok() ==> final(self).capacity_sectors == capacity_hi as int * 0x1_0000_0000 + capacity_lo,
    {
        self.driver_features = 0;
        if self.is_legacy {
            self.device_features = features_lo as u64;
        } else {
            self.device_features = (features_hi as u64) * 0x1_0000_0000 + features_lo as u64;
            if status_after_features & VIRTIO_STATUS_FEATURES_OK == 0 {
                return Err(DiskError::VirtIOError);
            }
        }
        self.capacity_sectors = (capacity_hi as u64) * 0x1_0000_0000 + capacity_lo as u64;
        Ok(())
    }

    /// The queue size to configure for a device offering `max_queue_size`
    /// entries: `min(64, max)`, which must be a power of two.
    pub fn choose_queue_size(max_queue_size: u32) -> (r: DiskResult<u16>)
        ensures
            match r {
                Ok(n) => n == chosen_queue_size(max_queue_size) && is_pow2(n as int),
                Err(e) => e == DiskError::VirtIOError && !is_pow2(chosen_queue_size(max_queue_size) as int),
            },
    {
        let m = max_queue_size as u16;
        let n: u16 = if m < 64 { m } else { 64 };
        if !super::queue::is_power_of_two_u16(n) {
            return Err(DiskError::VirtIOError);
        }
        Ok(n)
    }

    /// Sets the request queue up over memory at `desc_table_addr` laid out by
    /// `layout`, and marks it ready.
    pub fn setup_queue(&mut self, queue_size: u16, desc_table_addr: usize, layout: QueueLayout) -> (r: DiskResult<()>)
        requires
            old(self).queue.wf(),
            desc_table_addr + layout.avail_offset <= usize::MAX,
            desc_table_addr + layout.used_offset <= usize::MAX,
        ensures
            final(self).queue.wf(),
            final(self).initialized == old(self).initialized,
            final(self).capacity_sectors == old(self).capacity_sectors,
            r.is_ok() <==> is_pow2(queue_size as int),
            r.is_ok() ==> {
                &&& final(self).queue.spec_ready()
                &&& final(self).queue.spec_size() == queue_size
                &&& final(self).queue.spec_desc_table() == desc_table_addr
                &&& final(self).queue.spec_avail_ring() == desc_table_addr + layout.avail_offset
                &&& final(self).queue.spec_used_ring() == desc_table_addr + layout.used_offset
                &&& final(self).queue.spec_next_avail() == 0
                &&& final(self).queue.spec_last_used() == 0
            },
            r.is_err() ==> r == Err::<(), DiskError>(DiskError::InvalidParameter),
    {
        self.queue.init(queue_size, VIRTIO_BLK_REQUEST_QUEUE_IDX, desc_table_addr,
            desc_table_addr + layout.avail_offset, desc_table_addr + layout.used_offset)?;
        self.queue.set_ready(true);
        Ok(())
    }

    /// The status value that completes initialization.
    pub fn driver_ok_status(&self) -> (s: u32)
        ensures
            self.is_legacy ==> s == (VIRTIO_STATUS_ACKNOWLEDGE | VIRTIO_STATUS_DRIVER | VIRTIO_STATUS_DRIVER_OK),
            !self.is_legacy ==> s == (VIRTIO_STATUS_ACKNOWLEDGE | VIRTIO_STATUS_DRIVER
                | VIRTIO_STATUS_FEATURES_OK | VIRTIO_STATUS_DRIVER_OK),
    {
        if self.is_legacy {
            VIRTIO_STATUS_ACKNOWLEDGE | VIRTIO_STATUS_DRIVER | VIRTIO_STATUS_DRIVER_OK
        } else {
            VIRTIO_STATUS_ACKNOWLEDGE | VIRTIO_STATUS_DRIVER | VIRTIO_STATUS_FEATURES_OK | VIRTIO_STATUS_DRIVER_OK
        }
    }

    /// Marks the device as initialized.
    pub fn mark_initialized(&mut self)
        ensures
            final(self).initialized,
            final(self).capacity_sectors == old(self).capacity_sectors,
            final(self).queue == old(self).queue,
            final(self).mmio_base == old(self).mmio_base,
            final(self).is_legacy == old(self).is_legacy,
    {
        self.initialized = true;
    }

    /// Offers the read of `sector` to the device: the device must be
    /// initialized and the sector within its capacity; the request's three
    /// descriptors are placed in the queue and its head offered after
    /// available index `device_avail_idx`.
    pub fn read_sector(&mut self, sector: u64, buffers: &VirtioBuffers, device_avail_idx: u16) -> (r: DiskResult<ChainPlacement>)
        requires
            old(self).queue.wf(),
            buffers.fits(),
            *buffers == VirtioBuffers::new_spec(buffers.base_addr),
        ensures
            final(self).queue.wf(),
            final(self).initialized == old(self).initialized,
            final(self).capacity_sectors == old(self).capacity_sectors,
            !old(self).initialized ==> r == Err::<ChainPlacement, DiskError>(DiskError::NotInitialized),
            old(self).initialized && sector >= old(self).capacity_sectors
                ==> r == Err::<ChainPlacement, DiskError>(DiskError::InvalidSector),
            r.is_ok() ==> old(self).initialized && sector < old(self).capacity_sectors,
            r.is_ok() <==> (old(self).initialized && sector < old(self).capacity_sectors
                && old(self).queue.spec_ready() && old(self).queue.spec_size() >= 11),
            r matches Ok(p) ==> p.writes@.len() == 3 && p.head == old(self).queue.spec_next_avail()
                && p.avail_slot == device_avail_idx % old(self).queue.spec_size()
                && p.avail_idx == (device_avail_idx + 1) % 0x10000
                && forall|i: int| 0 <= i < 3 ==> (#[trigger] p.writes@[i]).1 == super::queue::placed_desc(
                    request_chain(*buffers, true)[i], p.head as int, old(self).queue.spec_size() as int, 3),
    {
        if !self.initialized {
            return Err(DiskError::NotInitialized);
        }
        if sector >= self.capacity_sectors {
            return Err(DiskError::InvalidSector);
        }
        let chain = build_request_chain(buffers, true);
        self.queue.add_descriptor_chain(chain.as_slice(), device_avail_idx)
    }

    /// Offers the write of a sector to the device: the device must be
    /// initialized; the request's three descriptors are placed in the queue
    /// and its head offered after available index `device_avail_idx`.
    pub fn write_sector(&mut self, sector: u64, buffers: &VirtioBuffers, device_avail_idx: u16) -> (r: DiskResult<ChainPlacement>)
        requires
            old(self).queue.wf(),
            buffers.fits(),
            *buffers == VirtioBuffers::new_spec(buffers.base_addr),
        ensures
            final(self).queue.wf(),
            final(self).initialized == old(self).initialized,
            final(self).capacity_sectors == old(self).capacity_sectors,
            !old(self).initialized ==> r == Err::<ChainPlacement, DiskError>(DiskError::NotInitialized),
            r.is_ok() <==> (old(self).initialized && old(self).queue.spec_ready()
                && old(self).queue.spec_size() >= 11),
            r matches Ok(p) ==> p.writes@.len() == 3 && p.head == old(self).queue.spec_next_avail()
                && p.avail_slot == device_avail_idx % old(self).queue.spec_size()
                && p.avail_idx == (device_avail_idx + 1) % 0x10000
                && forall|i: int| 0 <= i < 3 ==> (#[trigger] p.writes@[i]).1 == super::queue::placed_desc(
                    request_chain(*buffers, false)[i], p.head as int, old(self).queue.spec_size() as int, 3),
    {
        if !self.initialized {
            return Err(DiskError::NotInitialized);
        }
        let chain = build_request_chain(buffers, false);
        self.queue.add_descriptor_chain(chain.as_slice(), device_avail_idx)
    }

    /// The sectors a multi-sector read of `len` bytes from `start_sector`
    /// transfers, each with the offset of its bytes in the buffer (see
    /// `blocks_plan`); each is then read as `read_sector` offers it.
    pub fn read_blocks(&self, start_sector: u64, len: usize) -> (r: DiskResult<Vec<(u64, usize)>>)
        requires
            start_sector + len / 512 <= u64::MAX,
        ensures
            same_plan(r, blocks_plan(*self, start_sector as int, len as int, true)),
    {
        self.plan_blocks(start_sector, len, true)
    }

    /// The sectors a multi-sector write of `len` bytes from `start_sector`
    /// transfers (see `blocks_plan`); each is then written as `write_sector`
    /// offers it.
    pub fn write_blocks(&self, start_sector: u64, len: usize) -> (r: DiskResult<Vec<(u64, usize)>>)
        requires
            start_sector + len / 512 <= u64::MAX,
        ensures
            same_plan(r, blocks_plan(*self, start_sector as int, len as int, false)),
    {
        self.plan_blocks(start_sector, len, false)
    }

    fn plan_blocks(&self, start_sector: u64, len: usize, reading: bool) -> (r: DiskResult<Vec<(u64, usize)>>)
        requires
            start_sector + len / 512 <= u64::MAX,
        ensures
            same_plan(r, blocks_plan(*self, start_sector as int, len as int, reading)),
    {
        if len == 0 {
            return Ok(Vec::new());
        }
        if len % 512 != 0 {
            return Err(DiskError::BufferTooSmall);
        }
        if !self.initialized {
            return Err(DiskError::NotInitialized);
        }
        if reading && start_sector + (len / 512) as u64 > self.capacity_sectors {
            return Err(DiskError::InvalidSector);
        }
        let spans = block_spans(start_sector, len);
        match spans {
            Ok(v) => {
                proof {
                    assert(len % 512 == 0);
                    assert(v@.len() == len / 512);
                    assert(forall|i: int| 0 <= i < v@.len() ==> #[trigger] v@[i].0 == start_sector + i && v@[i].1 == 512 * i);
                    assert forall|i: int| 0 <= i < v@.len() implies #[trigger] v@[i] == ((start_sector + i) as u64, (512 * i) as usize) by {
                        assert(512 * i < len) by (nonlinear_arith) requires 0 <= i < len / 512, len > 0;
                        assert(v@[i].0 == start_sector + i);
                    }
                    assert(v@ =~= Seq::new((len / 512) as nat, |i: int| ((start_sector + i) as u64, (512 * i) as usize)));
                }
                Ok(v)
            },
            Err(e) => Err(e),
        }
    }

    /// One poll for the request headed by `head`: when the device's next
    /// completion (the used element `pending_used_slot` gives, whose id is
    /// `used_id`) is that request's, it is taken and the request's outcome
    /// is its status byte `status` (see `request_status`); otherwise the
    /// request is still pending (`None`) and nothing is taken.
    pub fn poll_request(&mut self, head: u16, device_used_idx: u16, used_id: u32, status: u8, is_read: bool) -> (r: Option<DiskResult<()>>)
        requires
            old(self).queue.wf(),
        ensures
            final(self).queue.wf(),
            final(self).initialized == old(self).initialized,
            final(self).capacity_sectors == old(self).capacity_sectors,
            final(self).mmio_base == old(self).mmio_base,
            final(self).queue.spec_size() == old(self).queue.spec_size(),
            final(self).queue.spec_next_avail() == old(self).queue.spec_next_avail(),
            final(self).queue.spec_ready() == old(self).queue.spec_ready(),
            ({
                let q = old(self).queue;
                let completed = q.spec_last_used() != device_used_idx && q.spec_size() > 0 && used_id as u16 == head;
                &&& !completed ==> r.is_none() && final(self).queue.spec_last_used() == q.spec_last_used()
                &&& completed ==> final(self).queue.spec_last_used() == (q.spec_last_used() + 1) % 0x10000
                    && r == Some(status_outcome(status, is_read))
            }),
    {
        match self.queue.wait_for_completion(head, device_used_idx, used_id) {
            Some(_) => Some(request_status(status, is_read)),
            None => None,
        }
    }

    pub fn is_initialized(&self) -> (b: bool)
        ensures
            b == self.initialized,
    {
        self.initialized
    }

    pub fn get_capacity(&self) -> (c: u64)
        ensures
            c == self.capacity_sectors,
    {
        self.capacity_sectors
    }
}

/// The sectors a transfer of `len` bytes from `start_sector` goes through,
/// each with the offset of its bytes: none for an empty buffer; a length
/// not a multiple of 512 is `BufferTooSmall`, an uninitialized device
/// `NotInitialized`, and a read past the device's capacity `InvalidSector`.
pub open spec fn blocks_plan(d: RustVmmVirtIOBlock, start_sector: int, len: int, reading: bool) -> DiskResult<Seq<(u64, usize)>> {
    if len == 0 {
        Ok(Seq::empty())
    } else if len % 512 != 0 {
        Err(DiskError::BufferTooSmall)
    } else if !d.initialized {
        Err(DiskError::NotInitialized)
    } else if reading && start_sector + len / 512 > d.capacity_sectors {
        Err(DiskError::InvalidSector)
    } else {
        Ok(Seq::new((len / 512) as nat, |i: int| ((start_sector + i) as u64, (512 * i) as usize)))
    }
}

/// `r` gives the plan `p`.
pub open spec fn same_plan(r: DiskResult<Vec<(u64, usize)>>, p: DiskResult<Seq<(u64, usize)>>) -> bool {
    match (r, p) {
        (Ok(v), Ok(s)) => v@ == s,
        (Err(e), Err(f)) => e == f,
        _ => false,
    }
}

/// The outcome of a completed request from its status byte: success for
/// `VIRTIO_BLK_S_OK`, else a read or write error.
pub open spec fn status_outcome(status: u8, is_read: bool) -> DiskResult<()> {
    if status == VIRTIO_BLK_S_OK {
        Ok(())
    } else if is_read {
        Err(DiskError::ReadError)
    } else {
        Err(DiskError::WriteError)
    }
}

/// The outcome of a completed request from its status byte.
pub fn request_status(status: u8, is_read: bool) -> (r: DiskResult<()>)
    ensures
        r == status_outcome(status, is_read),
        status == VIRTIO_BLK_S_OK ==> r.is_ok(),
        status != VIRTIO_BLK_S_OK && is_read ==> r == Err::<(), DiskError>(DiskError::ReadError),
        status != VIRTIO_BLK_S_OK && !is_read ==> r == Err::<(), DiskError>(DiskError::WriteError),
{
    if status == VIRTIO_BLK_S_OK {
        Ok(())
    } else if is_read {
        Err(DiskError::ReadError)
    } else {
        Err(DiskError::WriteError)
    }
}

/// The sectors of a multi-sector transfer of `len` bytes from `start_sector`:
/// sector `start_sector + i` goes with bytes `512 * i ..` of the buffer. An
/// empty buffer transfers nothing; a length not a multiple of 512 is refused.
pub fn block_spans(start_sector: u64, len: usize) -> (r: DiskResult<Vec<(u64, usize)>>)
    requires
        start_sector + len / 512 <= u64::MAX,
    ensures
        len % 512 != 0 ==> r == Err::<Vec<(u64, usize)>, DiskError>(DiskError::BufferTooSmall),
        len % 512 == 0 ==> (r matches Ok(v) && v@.len() == len / 512
            && forall|i: int| 0 <= i < v@.len() ==> #[trigger] v@[i].0 == start_sector + i && v@[i].1 == 512 * i),
{
    if len == 0 {
        return Ok(Vec::new());
    }
    if len % 512 != 0 {
        return Err(DiskError::BufferTooSmall);
    }
    let n = len / 512;
    let mut v: Vec<(u64, usize)> = Vec::new();
    let mut i: usize = 0;
    while i < n
        invariant
            n == len / 512,
            start_sector + n <= u64::MAX,
            0 <= i <= n,
            v@.len() == i,
            forall|k: int| 0 <= k < i ==> #[trigger] v@[k].0 == start_sector + k && v@[k].1 == 512 * k,
        decreases n - i,
    {
        assert(512 * i < len) by (nonlinear_arith) requires i < n, n == len / 512;
        v.push((start_sector + i as u64, 512 * i));
        i = i + 1;
    }
    Ok(v)
}

} // verus!
