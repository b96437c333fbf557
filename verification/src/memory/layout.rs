//! The kernel's memory layout: where the image, its stack and its heaps lie,
//! which regions of memory exist, and the checks the layout must pass.
use vstd::prelude::*;

verus! {

/// Most memory regions a layout records.
pub const MAX_REGIONS: usize = 8;
/// Guard gap after the kernel image, and below the stack.
pub const GUARD_SIZE: usize = 4096;
/// Size of the buddy allocator's heap.
pub const BUDDY_HEAP_SIZE: usize = 256 * 1024;
/// Size of the small-object heap.
pub const SMALL_HEAP_SIZE: usize = 64 * 1024;
/// Where the linker places the heap.
pub const LINKER_HEAP_START: usize = 0x80400000;
/// Where RAM lies on the QEMU `virt` machine when firmware reports none.
pub const FALLBACK_RAM_BASE: usize = 0x80000000;
pub const FALLBACK_RAM_SIZE: usize = 128 * 1024 * 1024;

/// What a region of memory may be used for.
#[derive(Debug, Clone, Copy, PartialEq, Eq, Structural)]
pub enum MemoryZone {
    DMA,
    Normal,
}

/// A region of physical memory.
#[derive(Debug, Clone, Copy, PartialEq, Eq, Structural)]
pub struct MemoryRegion {
    pub start: usize,
    pub size: usize,
    pub is_ram: bool,
    pub zone_type: MemoryZone,
}

/// Where the kernel lies in memory and how its heaps are arranged.
pub struct MemoryLayout {
    pub kernel_start: usize,
    pub kernel_end: usize,
    pub kernel_size: usize,
    pub stack_start: usize,
    pub stack_end: usize,
    pub stack_size: usize,
    pub total_kernel_footprint: usize,
    pub heap_start: usize,
    pub buddy_heap_start: usize,
    pub buddy_heap_size: usize,
    pub small_heap_start: usize,
    pub small_heap_size: usize,
    pub kernel_guard_size: usize,
    pub stack_guard_size: usize,
    pub regions: Vec<MemoryRegion>,
    pub heap_size: usize,
    pub available_memory: usize,
}

/// The regions a layout records when firmware reports RAM of `size` bytes
/// at `base`: the RAM (or the QEMU default when `size` is 0), then the
/// UART, CLINT and PLIC device windows.
pub open spec fn detected_regions(base: usize, size: usize) -> Seq<MemoryRegion> {
    seq![
        if size > 0 {
            MemoryRegion { start: base, size, is_ram: true, zone_type: MemoryZone::Normal }
        } else {
            MemoryRegion { start: FALLBACK_RAM_BASE, size: FALLBACK_RAM_SIZE, is_ram: true, zone_type: MemoryZone::Normal }
        },
        MemoryRegion { start: 0x10000000, size: 0x1000, is_ram: false, zone_type: MemoryZone::DMA },
        MemoryRegion { start: 0x02000000, size: 0x10000, is_ram: false, zone_type: MemoryZone::DMA },
        MemoryRegion { start: 0x0c000000, size: 0x400000, is_ram: false, zone_type: MemoryZone::DMA },
    ]
}

/// Why a layout was refused.
pub open spec fn layout_error(kernel_end: int, kernel_size: int, footprint: int) -> Option<&'static str> {
    if LINKER_HEAP_START <= kernel_end + GUARD_SIZE {
        Some("Linker heap overlaps with kernel space")
    } else if kernel_size > 32 * 1024 * 1024 {
        Some("Kernel size unreasonably large (>32MB)")
    } else if footprint > 64 * 1024 * 1024 {
        Some("Total kernel footprint too large (>64MB)")
    } else {
        None
    }
}

impl MemoryLayout {
    /// The layout of a kernel image spanning `kernel_start..kernel_end` with
    /// its stack at `stack_start..stack_end`, on a machine whose firmware
    /// reports `ram_size` bytes of RAM at `ram_base`: the heaps follow the
    /// image after a guard page, the buddy heap first.
    pub fn detect(
        kernel_start: usize,
        kernel_end: usize,
        stack_start: usize,
        stack_end: usize,
        ram_base: usize,
        ram_size: usize,
    ) -> (l: Self)
        requires
            kernel_start <= kernel_end,
            stack_start <= stack_end,
            (kernel_end - kernel_start) + (stack_end - stack_start) <= usize::MAX,
            kernel_end + GUARD_SIZE + BUDDY_HEAP_SIZE + SMALL_HEAP_SIZE <= usize::MAX,
        ensures
            l.kernel_start == kernel_start,
            l.kernel_end == kernel_end,
            l.kernel_size == kernel_end - kernel_start,
            l.stack_start == stack_start,
            l.stack_end == stack_end,
            l.stack_size == stack_end - stack_start,
            l.total_kernel_footprint == l.kernel_size + l.stack_size,
            l.kernel_guard_size == GUARD_SIZE,
            l.stack_guard_size == GUARD_SIZE,
            l.heap_start == kernel_end + GUARD_SIZE,
            l.buddy_heap_start == l.heap_start,
            l.buddy_heap_size == BUDDY_HEAP_SIZE,
            l.small_heap_start == l.buddy_heap_start + BUDDY_HEAP_SIZE,
            l.small_heap_size == SMALL_HEAP_SIZE,
            l.heap_size == BUDDY_HEAP_SIZE + SMALL_HEAP_SIZE,
            l.regions@ == detected_regions(ram_base, ram_size),
            l.available_memory == detected_regions(ram_base, ram_size)[0].size,
    {
        let kernel_size = kernel_end - kernel_start;
        let stack_size = stack_end - stack_start;
        let mut layout = MemoryLayout {
            kernel_start,
            kernel_end,
            kernel_size,
            stack_start,
            stack_end,
            stack_size,
            total_kernel_footprint: kernel_size + stack_size,
            heap_start: 0,
            buddy_heap_start: 0,
            buddy_heap_size: 0,
            small_heap_start: 0,
            small_heap_size: 0,
            kernel_guard_size: GUARD_SIZE,
            stack_guard_size: GUARD_SIZE,
            regions: Vec::new(),
            heap_size: 0,
            available_memory: 0,
        };
        if ram_size > 0 {
            layout.add_region(ram_base, ram_size, true, MemoryZone::Normal);
        } else {
            layout.add_region(FALLBACK_RAM_BASE, FALLBACK_RAM_SIZE, true, MemoryZone::Normal);
        }
        layout.add_region(0x10000000, 0x1000, false, MemoryZone::DMA);
        layout.add_region(0x02000000, 0x10000, false, MemoryZone::DMA);
        layout.add_region(0x0c000000, 0x400000, false, MemoryZone::DMA);
        let heap_start = kernel_end + layout.kernel_guard_size;
        layout.heap_start = heap_start;
        layout.buddy_heap_start = heap_start;
        layout.buddy_heap_size = BUDDY_HEAP_SIZE;
        layout.small_heap_start = layout.buddy_heap_start + layout.buddy_heap_size;
        layout.small_heap_size = SMALL_HEAP_SIZE;
        layout.heap_size = layout.buddy_heap_size + layout.small_heap_size;
        assert(layout.regions@ =~= detected_regions(ram_base, ram_size));
        layout
    }

    /// Records a region; a full table (`MAX_REGIONS` regions) is left as it
    /// is. RAM counts toward the memory available.
    pub fn add_region(&mut self, start: usize, size: usize, is_ram: bool, zone_type: MemoryZone)
        requires
            is_ram ==> old(self).available_memory + size <= usize::MAX,
        ensures
            old(self).regions@.len() >= MAX_REGIONS ==> final(self).regions@ == old(self).regions@
                && final(self).available_memory == old(self).available_memory,
            old(self).regions@.len() < MAX_REGIONS ==> {
                &&& final(self).regions@ == old(self).regions@.push(MemoryRegion { start, size, is_ram, zone_type })
                &&& final(self).available_memory == old(self).available_memory + if is_ram {
                    size
                } else {
                    0
                }
            },
            final(self).kernel_start == old(self).kernel_start,
            final(self).kernel_end == old(self).kernel_end,
            final(self).kernel_size == old(self).kernel_size,
            final(self).stack_start == old(self).stack_start,
            final(self).stack_end == old(self).stack_end,
            final(self).stack_size == old(self).stack_size,
            final(self).total_kernel_footprint == old(self).total_kernel_footprint,
            final(self).heap_start == old(self).heap_start,
            final(self).buddy_heap_start == old(self).buddy_heap_start,
            final(self).buddy_heap_size == old(self).buddy_heap_size,
            final(self).small_heap_start == old(self).small_heap_start,
            final(self).small_heap_size == old(self).small_heap_size,
            final(self).kernel_guard_size == old(self).kernel_guard_size,
            final(self).stack_guard_size == old(self).stack_guard_size,
            final(self).heap_size == old(self).heap_size,
    {
        if self.regions.len() >= MAX_REGIONS {
            return;
        }
        self.regions.push(MemoryRegion { start, size, is_ram, zone_type });
        if is_ram {
            self.available_memory = self.available_memory + size;
        }
    }

    /// Checks the layout: the linker's heap must start above the kernel and
    /// its guard page, the image must be at most 32 MiB and image and stack
    /// together at most 64 MiB.
    pub fn validate(&self) -> (r: Result<(), &'static str>)
        requires
            self.kernel_end + self.kernel_guard_size <= usize::MAX,
            self.kernel_guard_size == GUARD_SIZE,
        ensures
            match layout_error(self.kernel_end as int, self.kernel_size as int, self.total_kernel_footprint as int) {
                Some(e) => r == Err::<(), &'static str>(e),
                None => r is Ok,
            },
    {
        let kernel_end_with_guard = self.kernel_end + self.kernel_guard_size;
        if LINKER_HEAP_START <= kernel_end_with_guard {
            return Err("Linker heap overlaps with kernel space");
        }
        if self.kernel_size > 32 * 1024 * 1024 {
            return Err("Kernel size unreasonably large (>32MB)");
        }
        if self.total_kernel_footprint > 64 * 1024 * 1024 {
            return Err("Total kernel footprint too large (>64MB)");
        }
        Ok(())
    }
}

/// The buddy and small heap sizes for `available_memory` bytes: a 4 KiB
/// buddy heap and 128 KiB small heap below 1 MiB; above that a 16 KiB
/// buddy heap, and a small heap of 1 MiB below 8 MiB, 4 MiB below 64 MiB,
/// else 8 MiB.
pub fn calculate_heap_distribution(available_memory: usize) -> (r: (usize, usize))
    ensures
        r == (if available_memory < 1024 * 1024 {
            (4096usize, 131072usize)
        } else if available_memory < 8 * 1024 * 1024 {
            (16384usize, 1048576usize)
        } else if available_memory < 64 * 1024 * 1024 {
            (16384usize, 4194304usize)
        } else {
            (16384usize, 8388608usize)
        }),
{
    if available_memory < 1024 * 1024 {
        (4096, 128 * 1024)
    } else if available_memory < 8 * 1024 * 1024 {
        (16 * 1024, 1024 * 1024)
    } else if available_memory < 64 * 1024 * 1024 {
        (16 * 1024, 4 * 1024 * 1024)
    } else {
        (16 * 1024, 8 * 1024 * 1024)
    }
}

/// Where the kernel image starts and ends, and its size.
pub fn get_kernel_info(layout: &MemoryLayout) -> (r: (usize, usize, usize))
    ensures
        r == (layout.kernel_start, layout.kernel_end, layout.kernel_size),
{
    (layout.kernel_start, layout.kernel_end, layout.kernel_size)
}

} // verus!
