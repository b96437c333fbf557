//! DMA memory of VirtIO devices, taken from the memory-mapping registry.
use vstd::prelude::*;
use super::error::{DiskError, DiskResult};
use crate::memory::mapping::{
    map_device_memory, map_virtual_memory, MappingError, MappingType, MemoryMappingManager,
    MemoryPermissions,
};

verus! {

/// Hands out DMA memory for VirtIO queues once initialised.
pub struct VirtioMemoryManager {
    pub initialized: bool,
}

impl VirtioMemoryManager {
    pub fn new() -> (m: Self)
        ensures
            !m.initialized,
    {
        VirtioMemoryManager { initialized: false }
    }

    pub fn init(&mut self) -> (r: DiskResult<()>)
        ensures
            final(self).initialized,
            r.is_ok(),
    {
        self.initialized = true;
        Ok(())
    }

    /// Maps `size` bytes of readable and writable memory named
    /// "VirtIO-Queue", which sits at its physical address; `physical` is what
    /// the allocator gave for the rounded-up size. Any refusal of the
    /// registry is a `VirtIOError`.
    pub fn allocate_queue_memory(
        &self,
        mapper: &mut MemoryMappingManager,
        size: usize,
        physical: Option<usize>,
    ) -> (r: DiskResult<usize>)
        requires
            old(mapper).map_virtual_allowed(size, physical),
        ensures
            final(mapper).wf(),
            !self.initialized ==> r == Err::<usize, DiskError>(DiskError::NotInitialized) && *final(mapper) == *old(mapper),
            self.initialized ==> exists|inner: Result<usize, MappingError>|
                old(mapper).map_virtual_result(
                    &*final(mapper),
                    size,
                    MemoryPermissions::of(true, true, false),
                    MappingType::Virtual,
                    "VirtIO-Queue",
                    physical,
                    inner,
                ) && (match inner {
                    Ok(a) => r == Ok::<usize, DiskError>(a),
                    Err(_) => r == Err::<usize, DiskError>(DiskError::VirtIOError),
                }),
    {
        if !self.initialized {
            return Err(DiskError::NotInitialized);
        }
        match map_virtual_memory(mapper, size, MemoryPermissions::read_write(), "VirtIO-Queue", physical) {
            Ok(addr) => Ok(addr),
            Err(_) => Err(DiskError::VirtIOError),
        }
    }
}

/// Initialises the VirtIO memory manager.
pub fn init_virtio_memory(manager: &mut VirtioMemoryManager) -> (r: DiskResult<()>)
    ensures
        final(manager).initialized,
        r.is_ok(),
{
    manager.init()
}

/// Queue memory from `manager` (`allocate_queue_memory`).
pub fn allocate_virtio_memory(
    manager: &VirtioMemoryManager,
    mapper: &mut MemoryMappingManager,
    size: usize,
    physical: Option<usize>,
) -> (r: DiskResult<usize>)
    requires
        old(mapper).map_virtual_allowed(size, physical),
    ensures
        final(mapper).wf(),
        !manager.initialized ==> r == Err::<usize, DiskError>(DiskError::NotInitialized) && *final(mapper) == *old(mapper),
        manager.initialized ==> exists|inner: Result<usize, MappingError>|
            old(mapper).map_virtual_result(
                &*final(mapper),
                size,
                MemoryPermissions::of(true, true, false),
                MappingType::Virtual,
                "VirtIO-Queue",
                physical,
                inner,
            ) && (match inner {
                Ok(a) => r == Ok::<usize, DiskError>(a),
                Err(_) => r == Err::<usize, DiskError>(DiskError::VirtIOError),
            }),
{
    manager.allocate_queue_memory(mapper, size, physical)
}

/// Registers the MMIO registers of a VirtIO device as device memory.
pub fn register_virtio_device(
    mapper: &mut MemoryMappingManager,
    base_addr: usize,
    size: usize,
    device_name: &str,
) -> (r: DiskResult<()>)
    requires
        old(mapper).map_memory_allowed(base_addr, size),
    ensures
        final(mapper).wf(),
        exists|inner: Result<usize, MappingError>|
            old(mapper).map_memory_result(
                &*final(mapper),
                base_addr,
                size,
                MemoryPermissions::of(true, true, false),
                MappingType::Device,
                device_name,
                inner,
            ) && (match inner {
                Ok(_) => r == Ok::<(), DiskError>(()),
                Err(_) => r == Err::<(), DiskError>(DiskError::VirtIOError),
            }),
{
    match map_device_memory(mapper, base_addr, size, device_name) {
        Ok(_) => Ok(()),
        Err(_) => Err(DiskError::VirtIOError),
    }
}

/// Device regions are never released; this always succeeds.
pub fn unregister_virtio_device(base_addr: usize, size: usize) -> (r: DiskResult<()>)
    ensures
        r.is_ok(),
{
    Ok(())
}

} // verus!
