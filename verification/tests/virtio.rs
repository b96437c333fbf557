use elinos::memory::mapping::{find_memory_mapping, MappingType, MemoryMappingManager};
use elinos::virtio::block::{
    block_spans, build_request_chain, legacy_queue_layout, modern_queue_layout, request_status, RustVmmVirtIOBlock,
    VirtioBlkReq, VirtioBuffers, VIRTIO_BLK_T_IN, VIRTIO_BLK_T_OUT,
};
use elinos::virtio::error::DiskError;
use elinos::virtio::gpu::{
    command_chain, command_outcome, ctrl_hdr, features_accepted, gpu_legacy_queue_layout, words_to_bytes, VirtioGpu,
    VirtioGpuMemEntry, GPU_HEIGHT, GPU_WIDTH,
};
use elinos::virtio::memory::{
    allocate_virtio_memory, init_virtio_memory, register_virtio_device, unregister_virtio_device, VirtioMemoryManager,
};
use elinos::virtio::mmio::{
    align_up, VIRTIO_GPU_CMD_GET_DISPLAY_INFO, VIRTIO_GPU_CMD_RESOURCE_FLUSH, VIRTIO_GPU_CMD_SET_SCANOUT,
    VIRTIO_ID_BLOCK, VIRTIO_ID_GPU, VIRTIO_MAGIC, VIRTIO_STATUS_FEATURES_OK, VIRTQ_DESC_F_NEXT, VIRTQ_DESC_F_WRITE,
};
use elinos::virtio::queue::{VirtioQueue, VirtqDesc};
use elinos::virtio::storage::{
    init_storage, storage_get_active_device, storage_get_capacity, storage_is_available, StorageManager, StorageTransfer,
    StorageType,
};
use elinos::drivers::sdcard::device::SdCardDevice;
use elinos::drivers::sdcard::protocol::SpiInterface;
use elinos::drivers::spi::error::{SpiError, SpiResult};

/// A bus with no card on it.
struct NoCard;

impl SpiInterface for NoCard {
    fn transfer(&mut self, _tx: &[u8], _rx: &mut [u8]) -> SpiResult<()> {
        Err(SpiError::DeviceNotFound)
    }

    fn cs_active(&mut self) -> SpiResult<()> {
        Ok(())
    }

    fn cs_inactive(&mut self) -> SpiResult<()> {
        Ok(())
    }
}

fn ready_device(capacity: u32) -> RustVmmVirtIOBlock {
    let mut d = RustVmmVirtIOBlock::new();
    assert!(d.probe_mmio_device(0x1000_1000, VIRTIO_MAGIC, 2, VIRTIO_ID_BLOCK));
    d.init_device(0, 0, VIRTIO_STATUS_FEATURES_OK, capacity, 0).unwrap();
    let n = RustVmmVirtIOBlock::choose_queue_size(128).unwrap();
    let layout = modern_queue_layout(n);
    d.setup_queue(n, 0x8800_0000, layout).unwrap();
    d.mark_initialized();
    d
}

#[test]
fn probing_mmio_slots() {
    let mut d = RustVmmVirtIOBlock::new();
    assert!(!d.probe_mmio_device(0x1000_1000, 0, 2, VIRTIO_ID_BLOCK));
    assert!(!d.probe_mmio_device(0x1000_1000, VIRTIO_MAGIC, 2, VIRTIO_ID_GPU));
    assert!(!d.probe_mmio_device(0x1000_1000, VIRTIO_MAGIC, 0, VIRTIO_ID_BLOCK));
    assert_eq!(d.mmio_base, 0);
    assert!(d.probe_mmio_device(0x1000_2000, VIRTIO_MAGIC, 1, VIRTIO_ID_BLOCK));
    assert!(d.is_legacy);
    assert_eq!(d.mmio_base, 0x1000_2000);
    assert!(d.probe_mmio_device(0x1000_3000, VIRTIO_MAGIC, 2, VIRTIO_ID_BLOCK));
    assert!(!d.is_legacy);
}

#[test]
fn feature_negotiation_and_capacity() {
    let mut d = RustVmmVirtIOBlock::new();
    d.probe_mmio_device(0x1000_1000, VIRTIO_MAGIC, 2, VIRTIO_ID_BLOCK);
    assert_eq!(d.init_device(5, 1, 0, 100, 0), Err(DiskError::VirtIOError));
    assert_eq!(d.device_features, 0x1_0000_0005);
    assert_eq!(d.init_device(5, 1, VIRTIO_STATUS_FEATURES_OK, 100, 2), Ok(()));
    assert_eq!(d.get_capacity(), 0x2_0000_0064);
    assert_eq!(d.driver_features, 0);
    assert_eq!(d.driver_ok_status(), 1 | 2 | 8 | 4);
    let mut legacy = RustVmmVirtIOBlock::new();
    legacy.probe_mmio_device(0x1000_1000, VIRTIO_MAGIC, 1, VIRTIO_ID_BLOCK);
    assert_eq!(legacy.init_device(5, 1, 0, 64, 0), Ok(()));
    assert_eq!(legacy.device_features, 5);
    assert_eq!(legacy.driver_ok_status(), 1 | 2 | 4);
}

#[test]
fn queue_sizes() {
    assert_eq!(RustVmmVirtIOBlock::choose_queue_size(256), Ok(64));
    assert_eq!(RustVmmVirtIOBlock::choose_queue_size(16), Ok(16));
    assert_eq!(RustVmmVirtIOBlock::choose_queue_size(48), Err(DiskError::VirtIOError));
    assert_eq!(RustVmmVirtIOBlock::choose_queue_size(0), Err(DiskError::VirtIOError));
}

#[test]
fn queue_layouts() {
    let l = legacy_queue_layout(64);
    assert_eq!(l.avail_offset, 1024);
    assert_eq!(l.used_offset, 4096);
    assert_eq!(l.buffer_offset, 8192);
    assert_eq!(l.total_size, 12288);
    let m = modern_queue_layout(64);
    assert_eq!(m.avail_offset, 1024);
    assert_eq!(m.used_offset, 1160);
    assert_eq!(m.total_size, 1024 + 134 + 4 + 512 + 64);
    assert_eq!(gpu_legacy_queue_layout(64), (4096, 4096 + 6 + 512));
    assert_eq!(align_up(1), 4096);
    assert_eq!(align_up(4096), 4096);
}

#[test]
fn request_headers_and_chains() {
    assert_eq!(VirtioBlkReq::new_read(7), VirtioBlkReq { type_: VIRTIO_BLK_T_IN, reserved: 0, sector: 7 });
    assert_eq!(VirtioBlkReq::new_write(9).type_, VIRTIO_BLK_T_OUT);
    let b = VirtioBuffers::new(0x9000_0000);
    assert_eq!(b.request_addr(), 0x9000_0000);
    assert_eq!(b.data_addr(), 0x9000_0010);
    assert_eq!(b.status_addr(), 0x9000_0210);
    let c = build_request_chain(&b, true);
    assert_eq!(c.len(), 3);
    assert_eq!((c[0].addr, c[0].len, c[0].flags, c[0].next), (0x9000_0000, 16, VIRTQ_DESC_F_NEXT, 1));
    assert_eq!(c[1].flags, VIRTQ_DESC_F_WRITE | VIRTQ_DESC_F_NEXT);
    assert_eq!((c[2].addr, c[2].len, c[2].flags), (0x9000_0210, 1, VIRTQ_DESC_F_WRITE));
    assert!(c[1].has_next() && c[1].is_write_only());
    assert!(!c[2].has_next());
    let w = build_request_chain(&b, false);
    assert_eq!(w[1].flags, VIRTQ_DESC_F_NEXT);
}

#[test]
fn reading_and_writing_sectors() {
    let b = VirtioBuffers::new(0x9000_0000);
    let mut fresh = RustVmmVirtIOBlock::new();
    assert!(matches!(fresh.read_sector(0, &b, 0), Err(DiskError::NotInitialized)));
    assert!(matches!(fresh.write_sector(0, &b, 0), Err(DiskError::NotInitialized)));
    let mut d = ready_device(100);
    assert!(matches!(d.read_sector(100, &b, 0), Err(DiskError::InvalidSector)));
    let p = d.read_sector(5, &b, 0).unwrap();
    assert_eq!(p.head, 0);
    let slots: Vec<u16> = p.writes.iter().map(|w| w.0).collect();
    assert_eq!(slots, vec![0, 1, 2]);
    // Links inside the chain are made absolute in the table.
    assert_eq!(p.writes[0].1.next, 1);
    assert_eq!(p.writes[1].1.next, 2);
    let p = d.write_sector(6, &b, 0).unwrap();
    assert_eq!(p.head, 3);
    assert_eq!(p.writes[1].1.next, 5);
    assert_eq!(p.writes[1].1.flags, VIRTQ_DESC_F_NEXT);
    assert_eq!(d.read_sector(7, &b, 0).unwrap().head, 6);
    // The head goes into the available ring after the index given.
    let p = d.read_sector(8, &b, 17).unwrap();
    assert_eq!((p.avail_slot, p.avail_idx), (17, 18));
    let p = d.write_sector(9, &b, 0xffff).unwrap();
    assert_eq!((p.avail_slot, p.avail_idx), (0xffff % 64, 0));
}

#[test]
fn completions_and_transfers() {
    assert_eq!(request_status(0, true), Ok(()));
    assert_eq!(request_status(1, true), Err(DiskError::ReadError));
    assert_eq!(request_status(2, false), Err(DiskError::WriteError));
    assert_eq!(block_spans(10, 0), Ok(vec![]));
    assert_eq!(block_spans(10, 1536), Ok(vec![(10, 0), (11, 512), (12, 1024)]));
    assert_eq!(block_spans(10, 100), Err(DiskError::BufferTooSmall));
}

#[test]
fn used_ring_progress() {
    let mut q = VirtioQueue::new();
    assert_eq!(q.init(8, 0, 0x1000, 0x1080, 0x2000), Ok(()));
    assert_eq!(q.init(6, 0, 0x1000, 0x1080, 0x2000).is_err(), true);
    assert_eq!(q.size(), 8);
    assert_eq!(q.get_used_elem(0), None);
    assert_eq!(q.get_used_elem(2), Some(0));
    assert_eq!(q.get_used_elem(2), Some(1));
    assert_eq!(q.get_used_elem(2), None);
    assert_eq!(q.avail_ring_slot(9), (1, 10));
    // Slot 2 holds the completion of the chain headed by 4.
    assert_eq!(q.pending_used_slot(3), Some(2));
    assert_eq!(q.wait_for_completion(5, 3, 4), None);
    assert_eq!(q.pending_used_slot(3), Some(2));
    assert_eq!(q.wait_for_completion(4, 3, 0x1_0004), Some(2));
    assert_eq!(q.pending_used_slot(3), None);
    assert_eq!(q.wait_for_completion(4, 3, 4), None);
}

#[test]
fn gpu_commands() {
    let mut g = VirtioGpu::new();
    assert!(!g.probe_mmio_device(0x1000_8000, VIRTIO_MAGIC, VIRTIO_ID_BLOCK));
    assert!(g.probe_mmio_device(0x1000_8000, VIRTIO_MAGIC, VIRTIO_ID_GPU));
    assert_eq!(g.mmio_base, 0x1000_8000);
    assert_eq!(g.get_display_info(), ctrl_hdr(VIRTIO_GPU_CMD_GET_DISPLAY_INFO));
    let info = g.display_info.unwrap();
    assert_eq!((info.width, info.height), (GPU_WIDTH, GPU_HEIGHT));
    let c = g.create_2d_resource();
    assert_eq!((c.resource_id, c.width, c.height), (1, 640, 480));
    g.set_framebuffer(0x8100_0000, 640 * 480 * 4);
    let (attach, entry) = g.attach_backing_store();
    assert_eq!(attach.nr_entries, 1);
    assert_eq!((entry.addr, entry.length), (0x8100_0000, 1_228_800));
    let s = g.set_scanout();
    assert_eq!(s.hdr.type_, VIRTIO_GPU_CMD_SET_SCANOUT);
    assert_eq!((s.r.width, s.r.height, s.scanout_id), (640, 480, 0));
    assert!(g.flush_framebuffer().is_err());
    g.mark_initialized();
    let (transfer, flush) = g.flush_framebuffer().unwrap();
    assert_eq!(transfer.r.width, 640);
    assert_eq!(flush.hdr.type_, VIRTIO_GPU_CMD_RESOURCE_FLUSH);
}

#[test]
fn storage_device_choice() {
    let mut s = StorageManager::new();
    assert!(!storage_is_available(&s));
    assert_eq!(init_storage(&mut s, false, 0), Err(DiskError::DeviceNotFound));
    assert_eq!(init_storage(&mut s, false, 2048), Ok(()));
    assert_eq!(storage_get_active_device(&s), Some(StorageType::SdCard));
    assert_eq!(storage_get_capacity(&s, 100, 2048), 2048);
    assert_eq!(init_storage(&mut s, true, 0), Ok(()));
    assert_eq!(s.route(), Ok(StorageType::VirtIO));
    assert_eq!(storage_get_capacity(&s, 100, 2048), 100);
    assert_eq!(s.switch_device(StorageType::SdCard), Ok(()));
    let mut only_virtio = StorageManager::new();
    init_storage(&mut only_virtio, true, 0).unwrap();
    assert_eq!(only_virtio.switch_device(StorageType::SdCard), Err(DiskError::DeviceNotFound));
    assert_eq!(only_virtio.get_active_device(), Some(StorageType::VirtIO));
}

#[test]
fn dma_memory_for_queues() {
    let mut mapper = MemoryMappingManager::new();
    let mut mm = VirtioMemoryManager::new();
    assert_eq!(allocate_virtio_memory(&mm, &mut mapper, 0x2000, Some(0x8800_0000)), Err(DiskError::NotInitialized));
    assert_eq!(init_virtio_memory(&mut mm), Ok(()));
    let a = allocate_virtio_memory(&mm, &mut mapper, 0x2000, Some(0x8800_0000)).unwrap();
    // VirtIO memory is mapped at its physical address.
    assert_eq!(a, 0x8800_0000);
    let m = find_memory_mapping(&mapper, a).unwrap();
    assert_eq!(m.name.as_str(), "VirtIO-Queue");
    assert_eq!(m.physical_addr, Some(0x8800_0000));
    assert_eq!(allocate_virtio_memory(&mm, &mut mapper, 0x1000, None), Err(DiskError::VirtIOError));
    assert_eq!(register_virtio_device(&mut mapper, 0x1000_1000, 0x1000, "VirtIO-Block"), Ok(()));
    assert!(matches!(find_memory_mapping(&mapper, 0x1000_1800).unwrap().mapping_type, MappingType::Device));
    assert_eq!(register_virtio_device(&mut mapper, 0x1000_1000, 0x1000, "again"), Err(DiskError::VirtIOError));
    assert_eq!(unregister_virtio_device(0x1000_1000, 0x1000), Ok(()));
}

#[test]
fn multi_sector_transfers_are_planned() {
    let fresh = RustVmmVirtIOBlock::new();
    assert_eq!(fresh.read_blocks(0, 0), Ok(vec![]));
    assert_eq!(fresh.read_blocks(0, 100), Err(DiskError::BufferTooSmall));
    assert_eq!(fresh.read_blocks(0, 512), Err(DiskError::NotInitialized));
    let d = ready_device(100);
    assert_eq!(d.read_blocks(10, 1024), Ok(vec![(10, 0), (11, 512)]));
    assert_eq!(d.read_blocks(99, 1024), Err(DiskError::InvalidSector));
    assert_eq!(d.write_blocks(99, 1024), Ok(vec![(99, 0), (100, 512)]));
}

#[test]
fn polling_for_a_request() {
    let mut d = ready_device(100);
    let b = VirtioBuffers::new(0x9000_0000);
    let p = d.read_sector(5, &b, 0).unwrap();
    // Nothing posted yet; then another chain's completion, left in place.
    assert_eq!(d.poll_request(p.head, 0, p.head as u32, 0, true), None);
    assert_eq!(d.poll_request(p.head, 1, p.head as u32 + 3, 0, true), None);
    assert_eq!(d.queue.pending_used_slot(1), Some(0));
    // Its own completion, with the device's status.
    assert_eq!(d.poll_request(p.head, 1, p.head as u32, 0, true), Some(Ok(())));
    assert_eq!(d.queue.pending_used_slot(1), None);
    let p = d.write_sector(6, &b, 1).unwrap();
    assert_eq!(d.poll_request(p.head, 2, p.head as u32, 1, false), Some(Err(DiskError::WriteError)));
}

#[test]
fn storage_transfers_go_to_the_active_device() {
    let mut s = StorageManager::new();
    let d = ready_device(100);
    let mut card: Option<SdCardDevice<NoCard>> = None;
    let mut buf = [7u8; 1024];
    assert!(matches!(s.read_blocks(&d, &mut card, 0, &mut buf), Err(DiskError::DeviceNotFound)));
    assert_eq!(init_storage(&mut s, true, 0), Ok(()));
    match s.read_blocks(&d, &mut card, 4, &mut buf) {
        Ok(StorageTransfer::VirtIO(plan)) => assert_eq!(plan, vec![(4, 0), (5, 512)]),
        _ => panic!("expected a VirtIO plan"),
    }
    assert!(buf.iter().all(|&b| b == 7));
    assert!(matches!(s.write_blocks(&d, &mut card, 4, &[0u8; 100]), Err(DiskError::BufferTooSmall)));
    let mut t = StorageManager::new();
    assert_eq!(init_storage(&mut t, false, 2048), Ok(()));
    assert!(matches!(t.read_blocks(&d, &mut card, 0, &mut buf), Err(DiskError::ReadError)));
    let mut uninitialized = Some(SdCardDevice::new(NoCard));
    assert!(matches!(t.write_blocks(&d, &mut uninitialized, 0, &[1u8; 512]), Err(DiskError::WriteError)));
    assert!(matches!(t.write_blocks(&d, &mut uninitialized, 0, &[]), Ok(StorageTransfer::Done)));
}

#[test]
fn gpu_commands_are_laid_out_in_little_endian_words() {
    assert_eq!(ctrl_hdr(VIRTIO_GPU_CMD_GET_DISPLAY_INFO).words(), vec![0x0100, 0, 0, 0, 0, 0]);
    let entry = VirtioGpuMemEntry { addr: 0x1_0000_2000, length: 4096, padding: 0 };
    assert_eq!(entry.words(), vec![0x2000, 1, 4096, 0]);
    assert_eq!(words_to_bytes(&[0x1122_3344, 5]), vec![0x44, 0x33, 0x22, 0x11, 5, 0, 0, 0]);
    assert!(words_to_bytes(&[]).is_empty());

    let mut gpu = VirtioGpu::new();
    let create = gpu.create_2d_resource();
    assert_eq!(create.words(), vec![0x0101, 0, 0, 0, 0, 0, 1, 1, GPU_WIDTH, GPU_HEIGHT]);
    let scanout = gpu.set_scanout();
    assert_eq!(scanout.words(), vec![0x0103, 0, 0, 0, 0, 0, 0, 0, GPU_WIDTH, GPU_HEIGHT, 0, 1]);
    assert_eq!(words_to_bytes(&scanout.words()).len(), 48);
}

#[test]
fn gpu_command_chains_and_responses() {
    let plain = command_chain((0x1000, 24), None, (0x2000, 64));
    assert_eq!(
        plain,
        vec![
            VirtqDesc { addr: 0x1000, len: 24, flags: VIRTQ_DESC_F_NEXT, next: 1 },
            VirtqDesc { addr: 0x2000, len: 64, flags: VIRTQ_DESC_F_WRITE, next: 0 },
        ]
    );
    let with_data = command_chain((0x1000, 32), Some((0x1100, 16)), (0x2000, 64));
    assert_eq!(with_data.len(), 3);
    assert_eq!(with_data[1], VirtqDesc { addr: 0x1100, len: 16, flags: VIRTQ_DESC_F_NEXT, next: 2 });
    assert_eq!(with_data[2].flags, VIRTQ_DESC_F_WRITE);

    assert_eq!(command_outcome(0x1100), Ok(()));
    assert_eq!(command_outcome(0x1101), Ok(()));
    assert_eq!(command_outcome(0x1200), Err(DiskError::VirtIOError));
    assert_eq!(command_outcome(0), Err(DiskError::VirtIOError));
    assert_eq!(features_accepted(VIRTIO_STATUS_FEATURES_OK | 3), Ok(()));
    assert_eq!(features_accepted(3), Err(DiskError::VirtIOError));
}
