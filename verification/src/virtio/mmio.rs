//! VirtIO MMIO register offsets, identifiers and layout arithmetic.
use vstd::prelude::*;

verus! {

pub const VIRTIO_MMIO_MAGIC_VALUE: usize = 0x000;
pub const VIRTIO_MMIO_VERSION: usize = 0x004;
pub const VIRTIO_MMIO_DEVICE_ID: usize = 0x008;
pub const VIRTIO_MMIO_VENDOR_ID: usize = 0x00c;
pub const VIRTIO_MMIO_DEVICE_FEATURES: usize = 0x010;
pub const VIRTIO_MMIO_DEVICE_FEATURES_SEL: usize = 0x014;
pub const VIRTIO_MMIO_DRIVER_FEATURES: usize = 0x020;
pub const VIRTIO_MMIO_DRIVER_FEATURES_SEL: usize = 0x024;
pub const VIRTIO_MMIO_GUEST_PAGE_SIZE: usize = 0x028;
pub const VIRTIO_MMIO_QUEUE_SEL: usize = 0x030;
pub const VIRTIO_MMIO_QUEUE_NUM_MAX: usize = 0x034;
pub const VIRTIO_MMIO_QUEUE_NUM: usize = 0x038;
pub const VIRTIO_MMIO_QUEUE_ALIGN: usize = 0x03c;
pub const VIRTIO_MMIO_QUEUE_PFN: usize = 0x040;
pub const VIRTIO_MMIO_QUEUE_READY: usize = 0x044;
pub const VIRTIO_MMIO_QUEUE_NOTIFY: usize = 0x050;
pub const VIRTIO_MMIO_INTERRUPT_STATUS: usize = 0x060;
pub const VIRTIO_MMIO_INTERRUPT_ACK: usize = 0x064;
pub const VIRTIO_MMIO_STATUS: usize = 0x070;
pub const VIRTIO_MMIO_QUEUE_DESC_LOW: usize = 0x080;
pub const VIRTIO_MMIO_QUEUE_DESC_HIGH: usize = 0x084;
pub const VIRTIO_MMIO_QUEUE_DRIVER_LOW: usize = 0x090;
pub const VIRTIO_MMIO_QUEUE_DRIVER_HIGH: usize = 0x094;
pub const VIRTIO_MMIO_QUEUE_DEVICE_LOW: usize = 0x0a0;
pub const VIRTIO_MMIO_QUEUE_DEVICE_HIGH: usize = 0x0a4;
pub const VIRTIO_MMIO_CONFIG: usize = 0x100;

/// The value of the magic register of every VirtIO MMIO device ("virt").
pub const VIRTIO_MAGIC: u32 = 0x74726976;

pub const VIRTIO_ID_NET: u32 = 1;
pub const VIRTIO_ID_BLOCK: u32 = 2;
pub const VIRTIO_ID_CONSOLE: u32 = 3;
pub const VIRTIO_ID_GPU: u32 = 16;

pub const VIRTIO_STATUS_ACKNOWLEDGE: u32 = 1;
pub const VIRTIO_STATUS_DRIVER: u32 = 2;
pub const VIRTIO_STATUS_DRIVER_OK: u32 = 4;
pub const VIRTIO_STATUS_FEATURES_OK: u32 = 8;
pub const VIRTIO_STATUS_DEVICE_NEEDS_RESET: u32 = 64;
pub const VIRTIO_STATUS_FAILED: u32 = 128;

/// Page size of the VirtIO memory layout.
pub const PAGE_SIZE: usize = 4096;

pub const VIRTQ_DESC_F_NEXT: u16 = 1;
pub const VIRTQ_DESC_F_WRITE: u16 = 2;
pub const VIRTQ_DESC_F_INDIRECT: u16 = 4;

pub const VIRTIO_GPU_CMD_GET_DISPLAY_INFO: u32 = 0x0100;
pub const VIRTIO_GPU_CMD_RESOURCE_CREATE_2D: u32 = 0x0101;
pub const VIRTIO_GPU_CMD_RESOURCE_UNREF: u32 = 0x0102;
pub const VIRTIO_GPU_CMD_SET_SCANOUT: u32 = 0x0103;
pub const VIRTIO_GPU_CMD_RESOURCE_FLUSH: u32 = 0x0104;
pub const VIRTIO_GPU_CMD_TRANSFER_TO_HOST_2D: u32 = 0x0105;
pub const VIRTIO_GPU_CMD_RESOURCE_ATTACH_BACKING: u32 = 0x0106;
pub const VIRTIO_GPU_RESP_OK_NODATA: u32 = 0x1100;
pub const VIRTIO_GPU_RESP_OK_DISPLAY_INFO: u32 = 0x1101;
pub const VIRTIO_GPU_FORMAT_B8G8R8A8_UNORM: u32 = 1;

/// `size` rounded up to the next multiple of the page size.
pub open spec fn spec_align_up(size: int) -> int {
    ((size + PAGE_SIZE - 1) / PAGE_SIZE as int) * PAGE_SIZE
}

/// Rounds `size` up to the next page boundary.
pub fn align_up(size: usize) -> (r: usize)
    requires
        size + PAGE_SIZE - 1 <= usize::MAX,
    ensures
        r == spec_align_up(size as int),
        r % PAGE_SIZE == 0,
        size <= r < size + PAGE_SIZE,
{
    let q = (size + (PAGE_SIZE - 1)) / PAGE_SIZE;
    proof {
        assert(q * PAGE_SIZE <= size + PAGE_SIZE - 1) by (nonlinear_arith)
            requires q == (size + PAGE_SIZE - 1) / (PAGE_SIZE as int), PAGE_SIZE == 4096;
    }
    let r = q * PAGE_SIZE;
    proof {
        assert(r % PAGE_SIZE == 0 && size <= r && r < size + PAGE_SIZE) by (nonlinear_arith)
            requires q == (size + PAGE_SIZE - 1) / (PAGE_SIZE as int), r == q * PAGE_SIZE, PAGE_SIZE == 4096;
    }
    r
}

} // verus!
