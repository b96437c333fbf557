//! VirtIO GPU: control messages and the device state the driver tracks.
use vstd::prelude::*;
use super::error::{DiskError, DiskResult};
use super::mmio::{
    VIRTIO_GPU_CMD_GET_DISPLAY_INFO, VIRTIO_GPU_CMD_RESOURCE_ATTACH_BACKING,
    VIRTIO_GPU_CMD_RESOURCE_CREATE_2D, VIRTIO_GPU_CMD_RESOURCE_FLUSH, VIRTIO_GPU_CMD_SET_SCANOUT,
    VIRTIO_GPU_CMD_TRANSFER_TO_HOST_2D, VIRTIO_GPU_FORMAT_B8G8R8A8_UNORM, VIRTIO_GPU_RESP_OK_DISPLAY_INFO,
    VIRTIO_GPU_RESP_OK_NODATA, VIRTIO_ID_GPU, VIRTIO_MAGIC, VIRTIO_STATUS_FEATURES_OK, VIRTQ_DESC_F_NEXT,
    VIRTQ_DESC_F_WRITE,
};
use super::queue::{VirtioQueue, VirtqDesc};

verus! {

/// Width of the display the driver configures.
pub const GPU_WIDTH: u32 = 640;
/// Height of the display the driver configures.
pub const GPU_HEIGHT: u32 = 480;
/// Control queue index.
pub const VIRTIO_GPU_CONTROLQ: u16 = 0;
/// Cursor queue index.
pub const VIRTIO_GPU_CURSORQ: u16 = 1;

#[derive(Debug, Clone, Copy, PartialEq, Eq, Structural)]
pub struct VirtioGpuDisplayInfo {
    pub enabled: u32,
    pub x: u32,
    pub y: u32,
    pub width: u32,
    pub height: u32,
}

#[derive(Debug, Clone, Copy, PartialEq, Eq, Structural)]
pub struct VirtioGpuRect {
    pub x: u32,
    pub y: u32,
    pub width: u32,
    pub height: u32,
}

#[derive(Debug, Clone, Copy, PartialEq, Eq, Structural)]
pub struct VirtioGpuCtrlHdr {
    pub type_: u32,
    pub flags: u32,
    pub fence_id: u64,
    pub ctx_id: u32,
    pub padding: u32,
}

#[derive(Debug, Clone, Copy, PartialEq, Eq, Structural)]
pub struct VirtioGpuResourceCreate2d {
    pub hdr: VirtioGpuCtrlHdr,
    pub resource_id: u32,
    pub format: u32,
    pub width: u32,
    pub height: u32,
}

#[derive(Debug, Clone, Copy, PartialEq, Eq, Structural)]
pub struct VirtioGpuSetScanout {
    pub hdr: VirtioGpuCtrlHdr,
    pub r: VirtioGpuRect,
    pub scanout_id: u32,
    pub resource_id: u32,
}

#[derive(Debug, Clone, Copy, PartialEq, Eq, Structural)]
pub struct VirtioGpuResourceAttachBacking {
    pub hdr: VirtioGpuCtrlHdr,
    pub resource_id: u32,
    pub nr_entries: u32,
}

#[derive(Debug, Clone, Copy, PartialEq, Eq, Structural)]
pub struct VirtioGpuMemEntry {
    pub addr: u64,
    pub length: u32,
    pub padding: u32,
}

#[derive(Debug, Clone, Copy, PartialEq, Eq, Structural)]
pub struct VirtioGpuTransferToHost2d {
    pub hdr: VirtioGpuCtrlHdr,
    pub r: VirtioGpuRect,
    pub offset: u64,
    pub resource_id: u32,
    pub padding: u32,
}

#[derive(Debug, Clone, Copy, PartialEq, Eq, Structural)]
pub struct VirtioGpuResourceFlush {
    pub hdr: VirtioGpuCtrlHdr,
    pub r: VirtioGpuRect,
    pub resource_id: u32,
    pub padding: u32,
}

/// A control header of the given command type, with no fence or context.
pub open spec fn hdr_of(t: u32) -> VirtioGpuCtrlHdr {
    VirtioGpuCtrlHdr { type_: t, flags: 0, fence_id: 0, ctx_id: 0, padding: 0 }
}

/// The whole configured display.
pub open spec fn full_screen() -> VirtioGpuRect {
    VirtioGpuRect { x: 0, y: 0, width: GPU_WIDTH, height: GPU_HEIGHT }
}

/// Builds a control header of command type `t`.
pub fn ctrl_hdr(t: u32) -> (h: VirtioGpuCtrlHdr)
    ensures
        h == hdr_of(t),
{
    VirtioGpuCtrlHdr { type_: t, flags: 0, fence_id: 0, ctx_id: 0, padding: 0 }
}

fn full_screen_rect() -> (r: VirtioGpuRect)
    ensures
        r == full_screen(),
{
    VirtioGpuRect { x: 0, y: 0, width: GPU_WIDTH, height: GPU_HEIGHT }
}

/// The VirtIO GPU device.
pub struct VirtioGpu {
    pub initialized: bool,
    pub mmio_base: usize,
    pub control_queue: VirtioQueue,
    pub cursor_queue: VirtioQueue,
    pub display_info: Option<VirtioGpuDisplayInfo>,
    pub resource_id: u32,
    pub framebuffer_addr: usize,
    pub framebuffer_size: usize,
}

impl VirtioGpu {
    pub fn new() -> (g: Self)
        ensures
            !g.initialized,
            g.mmio_base == 0,
            g.control_queue.wf(),
            g.cursor_queue.wf(),
            g.display_info.is_none(),
            g.resource_id == 1,
            g.framebuffer_addr == 0,
            g.framebuffer_size == 0,
    {
        VirtioGpu {
            initialized: false,
            mmio_base: 0,
            control_queue: VirtioQueue::new(),
            cursor_queue: VirtioQueue::new(),
            display_info: None,
            resource_id: 1,
            framebuffer_addr: 0,
            framebuffer_size: 0,
        }
    }

    /// Whether the MMIO slot with these registers holds a GPU; a hit records
    /// its base address.
    pub fn probe_mmio_device(&mut self, base: usize, magic: u32, device_id: u32) -> (found: bool)
        ensures
            found == (magic == VIRTIO_MAGIC && device_id == VIRTIO_ID_GPU),
            found ==> final(self).mmio_base == base,
            !found ==> final(self).mmio_base == old(self).mmio_base,
            final(self).initialized == old(self).initialized,
    {
        if magic != VIRTIO_MAGIC || device_id != VIRTIO_ID_GPU {
            return false;
        }
        self.mmio_base = base;
        true
    }

    /// Records the framebuffer the device will scan out.
    pub fn set_framebuffer(&mut self, framebuffer_addr: usize, framebuffer_size: usize)
        ensures
            final(self).framebuffer_addr == framebuffer_addr,
            final(self).framebuffer_size == framebuffer_size,
            final(self).initialized == old(self).initialized,
            final(self).resource_id == old(self).resource_id,
    {
        self.framebuffer_addr = framebuffer_addr;
        self.framebuffer_size = framebuffer_size;
    }

    /// The display query; whatever the device answers, the driver uses a
    /// 640x480 display.
    pub fn get_display_info(&mut self) -> (cmd: VirtioGpuCtrlHdr)
        ensures
            cmd == hdr_of(VIRTIO_GPU_CMD_GET_DISPLAY_INFO),
            final(self).display_info == Some(VirtioGpuDisplayInfo { enabled: 1, x: 0, y: 0, width: GPU_WIDTH, height: GPU_HEIGHT }),
            final(self).initialized == old(self).initialized,
            final(self).resource_id == old(self).resource_id,
            final(self).framebuffer_addr == old(self).framebuffer_addr,
            final(self).framebuffer_size == old(self).framebuffer_size,
    {
        self.display_info = Some(VirtioGpuDisplayInfo { enabled: 1, x: 0, y: 0, width: GPU_WIDTH, height: GPU_HEIGHT });
        ctrl_hdr(VIRTIO_GPU_CMD_GET_DISPLAY_INFO)
    }

    /// The command creating the 2D resource (id 1, 640x480 B8G8R8A8).
    pub fn create_2d_resource(&mut self) -> (cmd: VirtioGpuResourceCreate2d)
        ensures
            final(self).resource_id == 1,
            cmd == (VirtioGpuResourceCreate2d {
                hdr: hdr_of(VIRTIO_GPU_CMD_RESOURCE_CREATE_2D),
                resource_id: 1,
                format: VIRTIO_GPU_FORMAT_B8G8R8A8_UNORM,
                width: GPU_WIDTH,
                height: GPU_HEIGHT,
            }),
            final(self).initialized == old(self).initialized,
            final(self).framebuffer_addr == old(self).framebuffer_addr,
            final(self).framebuffer_size == old(self).framebuffer_size,
    {
        self.resource_id = 1;
        VirtioGpuResourceCreate2d {
            hdr: ctrl_hdr(VIRTIO_GPU_CMD_RESOURCE_CREATE_2D),
            resource_id: self.resource_id,
            format: VIRTIO_GPU_FORMAT_B8G8R8A8_UNORM,
            width: GPU_WIDTH,
            height: GPU_HEIGHT,
        }
    }

    /// The command attaching the framebuffer as the resource's backing store,
    /// with its single memory entry.
    pub fn attach_backing_store(&self) -> (r: (VirtioGpuResourceAttachBacking, VirtioGpuMemEntry))
        ensures
            r.0 == (VirtioGpuResourceAttachBacking {
                hdr: hdr_of(VIRTIO_GPU_CMD_RESOURCE_ATTACH_BACKING),
                resource_id: self.resource_id,
                nr_entries: 1,
            }),
            r.1 == (VirtioGpuMemEntry {
                addr: self.framebuffer_addr as u64,
                length: self.framebuffer_size as u32,
                padding: 0,
            }),
    {
        (
            VirtioGpuResourceAttachBacking {
                hdr: ctrl_hdr(VIRTIO_GPU_CMD_RESOURCE_ATTACH_BACKING),
                resource_id: self.resource_id,
                nr_entries: 1,
            },
            VirtioGpuMemEntry {
                addr: self.framebuffer_addr as u64,
                length: self.framebuffer_size as u32,
                padding: 0,
            },
        )
    }

    /// The command showing the resource on scanout 0 over the whole display.
    pub fn set_scanout(&self) -> (cmd: VirtioGpuSetScanout)
        ensures
            cmd == (VirtioGpuSetScanout {
                hdr: hdr_of(VIRTIO_GPU_CMD_SET_SCANOUT),
                r: full_screen(),
                scanout_id: 0,
                resource_id: self.resource_id,
            }),
    {
        VirtioGpuSetScanout {
            hdr: ctrl_hdr(VIRTIO_GPU_CMD_SET_SCANOUT),
            r: full_screen_rect(),
            scanout_id: 0,
            resource_id: self.resource_id,
        }
    }

    /// The commands of a flush: transfer the whole framebuffer to the host,
    /// then flush the resource; refused before initialization.
    pub fn flush_framebuffer(&self) -> (r: DiskResult<(VirtioGpuTransferToHost2d, VirtioGpuResourceFlush)>)
        ensures
            !self.initialized ==> r == Err::<(VirtioGpuTransferToHost2d, VirtioGpuResourceFlush), DiskError>(DiskError::NotInitialized),
            self.initialized ==> r == Ok::<(VirtioGpuTransferToHost2d, VirtioGpuResourceFlush), DiskError>((
                VirtioGpuTransferToHost2d {
                    hdr: hdr_of(VIRTIO_GPU_CMD_TRANSFER_TO_HOST_2D),
                    r: full_screen(),
                    offset: 0,
                    resource_id: self.resource_id,
                    padding: 0,
                },
                VirtioGpuResourceFlush {
                    hdr: hdr_of(VIRTIO_GPU_CMD_RESOURCE_FLUSH),
                    r: full_screen(),
                    resource_id: self.resource_id,
                    padding: 0,
                },
            )),
    {
        if !self.initialized {
            return Err(DiskError::NotInitialized);
        }
        Ok((
            VirtioGpuTransferToHost2d {
                hdr: ctrl_hdr(VIRTIO_GPU_CMD_TRANSFER_TO_HOST_2D),
                r: full_screen_rect(),
                offset: 0,
                resource_id: self.resource_id,
                padding: 0,
            },
            VirtioGpuResourceFlush {
                hdr: ctrl_hdr(VIRTIO_GPU_CMD_RESOURCE_FLUSH),
                r: full_screen_rect(),
                resource_id: self.resource_id,
                padding: 0,
            },
        ))
    }

    /// Marks the device initialized.
    pub fn mark_initialized(&mut self)
        ensures
            final(self).initialized,
            final(self).resource_id == old(self).resource_id,
            final(self).framebuffer_addr == old(self).framebuffer_addr,
            final(self).framebuffer_size == old(self).framebuffer_size,
    {
        self.initialized = true;
    }

    pub fn is_initialized(&self) -> (b: bool)
        ensures
            b == self.initialized,
    {
        self.initialized
    }
}

/// Queue memory of the GPU control queue of `n` entries for a legacy
/// device: (used ring offset, total bytes); the used ring is page aligned.
pub fn gpu_legacy_queue_layout(n: u16) -> (r: (usize, usize))
    ensures
        r.0 == super::mmio::spec_align_up(16 * n + 6 + 2 * n),
        r.1 == r.0 + 6 + 8 * n,
{
    let nn = n as usize;
    let device_area = super::mmio::align_up(16 * nn + 6 + 2 * nn);
    (device_area, device_area + 6 + 8 * nn)
}

/// The outcome of a control command whose response starts with
/// `response_type`: the two OK responses succeed, anything else is a device
/// error.
pub fn command_outcome(response_type: u32) -> (r: DiskResult<()>)
    ensures
        r == (if response_type == VIRTIO_GPU_RESP_OK_NODATA || response_type == VIRTIO_GPU_RESP_OK_DISPLAY_INFO {
            Ok::<(), DiskError>(())
        } else {
            Err::<(), DiskError>(DiskError::VirtIOError)
        }),
{
    if response_type == VIRTIO_GPU_RESP_OK_NODATA || response_type == VIRTIO_GPU_RESP_OK_DISPLAY_INFO {
        Ok(())
    } else {
        Err(DiskError::VirtIOError)
    }
}

/// Whether the device kept FEATURES_OK in the status it reads back after
/// negotiation; a device that cleared it refused the features.
pub fn features_accepted(status: u32) -> (r: DiskResult<()>)
    ensures
        r == (if status & VIRTIO_STATUS_FEATURES_OK == 0 {
            Err::<(), DiskError>(DiskError::VirtIOError)
        } else {
            Ok::<(), DiskError>(())
        }),
{
    if status & VIRTIO_STATUS_FEATURES_OK == 0 {
        Err(DiskError::VirtIOError)
    } else {
        Ok(())
    }
}

/// The descriptor chain of a control command: the command, then the extra
/// data if any, each linked to the next, then the response buffer the device
/// writes.
pub open spec fn spec_command_chain(cmd: (u64, u32), data: Option<(u64, u32)>, resp: (u64, u32)) -> Seq<VirtqDesc> {
    match data {
        None => seq![
            VirtqDesc { addr: cmd.0, len: cmd.1, flags: VIRTQ_DESC_F_NEXT, next: 1 },
            VirtqDesc { addr: resp.0, len: resp.1, flags: VIRTQ_DESC_F_WRITE, next: 0 },
        ],
        Some(d) => seq![
            VirtqDesc { addr: cmd.0, len: cmd.1, flags: VIRTQ_DESC_F_NEXT, next: 1 },
            VirtqDesc { addr: d.0, len: d.1, flags: VIRTQ_DESC_F_NEXT, next: 2 },
            VirtqDesc { addr: resp.0, len: resp.1, flags: VIRTQ_DESC_F_WRITE, next: 0 },
        ],
    }
}

/// Builds the descriptor chain of a control command (see
/// `spec_command_chain`); each pair is a buffer's address and length.
pub fn command_chain(cmd: (u64, u32), data: Option<(u64, u32)>, resp: (u64, u32)) -> (c: Vec<VirtqDesc>)
    ensures
        c@ == spec_command_chain(cmd, data, resp),
{
    let mut c: Vec<VirtqDesc> = Vec::new();
    c.push(VirtqDesc { addr: cmd.0, len: cmd.1, flags: VIRTQ_DESC_F_NEXT, next: 1 });
    match data {
        None => {
            c.push(VirtqDesc { addr: resp.0, len: resp.1, flags: VIRTQ_DESC_F_WRITE, next: 0 });
        },
        Some(d) => {
            c.push(VirtqDesc { addr: d.0, len: d.1, flags: VIRTQ_DESC_F_NEXT, next: 2 });
            c.push(VirtqDesc { addr: resp.0, len: resp.1, flags: VIRTQ_DESC_F_WRITE, next: 0 });
        },
    }
    c
}

/// The four bytes of `w`, least significant first.
pub open spec fn word_le(w: u32) -> Seq<u8> {
    seq![w as u8, (w >> 8) as u8, (w >> 16) as u8, (w >> 24) as u8]
}

/// The bytes of a run of 32-bit words, each little-endian.
pub open spec fn words_le(ws: Seq<u32>) -> Seq<u8>
    decreases ws.len(),
{
    if ws.len() == 0 {
        Seq::empty()
    } else {
        words_le(ws.drop_last()) + word_le(ws.last())
    }
}

/// Lays `words` out in memory order, little-endian, as the device reads a
/// command.
pub fn words_to_bytes(words: &[u32]) -> (b: Vec<u8>)
    ensures
        b@ == words_le(words@),
{
    let mut b: Vec<u8> = Vec::new();
    let mut i: usize = 0;
    while i < words.len()
        invariant
            i <= words@.len(),
            b@ == words_le(words@.take(i as int)),
        decreases words@.len() - i,
    {
        let w = words[i];
        b.push(w as u8);
        b.push((w >> 8) as u8);
        b.push((w >> 16) as u8);
        b.push((w >> 24) as u8);
        proof {
            assert(words@.take(i as int + 1).drop_last() == words@.take(i as int));
        }
        i = i + 1;
    }
    proof {
        assert(words@.take(words@.len() as int) == words@);
    }
    b
}

/// A 64-bit field as the two words it occupies, low word first.
pub open spec fn u64_words(x: u64) -> Seq<u32> {
    seq![x as u32, (x >> 32) as u32]
}

/// The words of a control header, in its wire layout.
pub open spec fn hdr_words(h: VirtioGpuCtrlHdr) -> Seq<u32> {
    seq![h.type_, h.flags] + u64_words(h.fence_id) + seq![h.ctx_id, h.padding]
}

/// The words of a rectangle.
pub open spec fn rect_words(r: VirtioGpuRect) -> Seq<u32> {
    seq![r.x, r.y, r.width, r.height]
}

fn push_u64(v: &mut Vec<u32>, x: u64)
    ensures
        final(v)@ == old(v)@ + u64_words(x),
{
    v.push(x as u32);
    v.push((x >> 32) as u32);
}

fn push_hdr(v: &mut Vec<u32>, h: &VirtioGpuCtrlHdr)
    ensures
        final(v)@ == old(v)@ + hdr_words(*h),
{
    v.push(h.type_);
    v.push(h.flags);
    push_u64(v, h.fence_id);
    v.push(h.ctx_id);
    v.push(h.padding);
}

fn push_rect(v: &mut Vec<u32>, r: &VirtioGpuRect)
    ensures
        final(v)@ == old(v)@ + rect_words(*r),
{
    v.push(r.x);
    v.push(r.y);
    v.push(r.width);
    v.push(r.height);
}

impl VirtioGpuCtrlHdr {
    /// The header's words in wire order.
    pub fn words(&self) -> (w: Vec<u32>)
        ensures
            w@ == hdr_words(*self),
    {
        let mut w: Vec<u32> = Vec::new();
        push_hdr(&mut w, self);
        w
    }
}

impl VirtioGpuResourceCreate2d {
    /// The command's words in wire order.
    pub fn words(&self) -> (w: Vec<u32>)
        ensures
            w@ == hdr_words(self.hdr) + seq![self.resource_id, self.format, self.width, self.height],
    {
        let mut w: Vec<u32> = Vec::new();
        push_hdr(&mut w, &self.hdr);
        w.push(self.resource_id);
        w.push(self.format);
        w.push(self.width);
        w.push(self.height);
        w
    }
}

impl VirtioGpuSetScanout {
    /// The command's words in wire order.
    pub fn words(&self) -> (w: Vec<u32>)
        ensures
            w@ == hdr_words(self.hdr) + rect_words(self.r) + seq![self.scanout_id, self.resource_id],
    {
        let mut w: Vec<u32> = Vec::new();
        push_hdr(&mut w, &self.hdr);
        push_rect(&mut w, &self.r);
        w.push(self.scanout_id);
        w.push(self.resource_id);
        w
    }
}

impl VirtioGpuResourceAttachBacking {
    /// The command's words in wire order.
    pub fn words(&self) -> (w: Vec<u32>)
        ensures
            w@ == hdr_words(self.hdr) + seq![self.resource_id, self.nr_entries],
    {
        let mut w: Vec<u32> = Vec::new();
        push_hdr(&mut w, &self.hdr);
        w.push(self.resource_id);
        w.push(self.nr_entries);
        w
    }
}

impl VirtioGpuMemEntry {
    /// The entry's words in wire order.
    pub fn words(&self) -> (w: Vec<u32>)
        ensures
            w@ == u64_words(self.addr) + seq![self.length, self.padding],
    {
        let mut w: Vec<u32> = Vec::new();
        push_u64(&mut w, self.addr);
        w.push(self.length);
        w.push(self.padding);
        w
    }
}

impl VirtioGpuTransferToHost2d {
    /// The command's words in wire order.
    pub fn words(&self) -> (w: Vec<u32>)
        ensures
            w@ == hdr_words(self.hdr) + rect_words(self.r) + u64_words(self.offset) + seq![self.resource_id, self.padding],
    {
        let mut w: Vec<u32> = Vec::new();
        push_hdr(&mut w, &self.hdr);
        push_rect(&mut w, &self.r);
        push_u64(&mut w, self.offset);
        w.push(self.resource_id);
        w.push(self.padding);
        w
    }
}

impl VirtioGpuResourceFlush {
    /// The command's words in wire order.
    pub fn words(&self) -> (w: Vec<u32>)
        ensures
            w@ == hdr_words(self.hdr) + rect_words(self.r) + seq![self.resource_id, self.padding],
    {
        let mut w: Vec<u32> = Vec::new();
        push_hdr(&mut w, &self.hdr);
        push_rect(&mut w, &self.r);
        w.push(self.resource_id);
        w.push(self.padding);
        w
    }
}

} // verus!
