use elinos::memory::layout::{calculate_heap_distribution, get_kernel_info, MemoryLayout, MemoryZone};
use elinos::memory::mapping::{
    check_memory_access, get_mapping_stats, map_device_memory, map_physical_memory, MappingError, MappingType, MemoryMappingManager, MemoryPermissions, VIRTUAL_BASE,
};
use elinos::memory::slab::{find_size_class, slab_size_for, AllocStep, SlabAllocator, SlabError};

#[test]
fn test_size_class_selection() {
    let allocator = SlabAllocator::new();

    assert_eq!(allocator.find_size_class(1), Some(0)); // 8 bytes
    assert_eq!(allocator.find_size_class(8), Some(0)); // 8 bytes
    assert_eq!(allocator.find_size_class(9), Some(1)); // 16 bytes
    assert_eq!(allocator.find_size_class(32), Some(2)); // 32 bytes
    assert_eq!(allocator.find_size_class(4096), Some(9)); // 4096 bytes
    assert_eq!(allocator.find_size_class(8192), None); // Too large
}

#[test]
fn size_class_boundaries() {
    assert_eq!(find_size_class(0), Some(0));
    assert_eq!(find_size_class(64), Some(3));
    assert_eq!(find_size_class(65), Some(4));
    assert_eq!(find_size_class(4097), None);
}

#[test]
fn slab_sizes_per_class() {
    assert_eq!(slab_size_for(0), 4096);
    assert_eq!(slab_size_for(5), 4096);
    assert_eq!(slab_size_for(9), 32768);
}

#[test]
fn allocation_needs_a_slab_then_is_served_from_it() {
    let mut a = SlabAllocator::new();
    assert_eq!(a.allocate(64), AllocStep::NeedSlab(3, 4096));
    assert!(a.add_slab(3, 0x10000).is_ok());
    assert_eq!(a.allocate(64), AllocStep::Done(0x10000));
    assert_eq!(a.allocate(50), AllocStep::Done(0x10040));
    let st = a.get_stats();
    assert_eq!(st.total_allocations, 3);
    assert_eq!(st.slab_allocations, 1);
    assert_eq!(st.total_objects_allocated, 2);
    assert_eq!(st.total_objects_capacity, 64);
}

#[test]
fn free_undoes_allocate() {
    let mut a = SlabAllocator::new();
    a.add_slab(3, 0x20000).unwrap();
    let first = a.allocate(64);
    assert_eq!(first, AllocStep::Done(0x20000));
    assert!(a.deallocate(0x20000, 64));
    assert_eq!(a.get_stats().total_objects_allocated, 0);
    // The freed object is handed out again.
    assert_eq!(a.allocate(64), AllocStep::Done(0x20000));
}

#[test]
fn large_requests_bypass_slabs() {
    let mut a = SlabAllocator::new();
    assert_eq!(a.allocate(5000), AllocStep::Direct(5000));
    assert!(!a.deallocate(0x1234, 5000));
    assert_eq!(a.get_stats().total_deallocations, 1);
}

#[test]
fn class_slab_limit_is_out_of_memory() {
    let mut a = SlabAllocator::new();
    for k in 0..16usize {
        assert!(a.add_slab(3, 0x100000 + k * 0x1000).is_ok());
    }
    assert!(matches!(a.add_slab(3, 0x200000), Err(SlabError::OutOfMemory)));
}

#[test]
fn small_classes_hold_one_bitmap_of_objects() {
    // A page of 8-byte objects holds 64 of them, the width of the bitmap.
    let mut a = SlabAllocator::new();
    assert!(a.add_slab(0, 0x10000).is_ok());
    assert!(a.add_slab(1, 0x20000).is_ok());
    assert!(a.add_slab(4, 0x30000).is_ok());
    assert_eq!(a.get_stats().total_objects_capacity, 64 + 64 + 32);
    assert_eq!(a.allocate(8), AllocStep::Done(0x10000));
    assert_eq!(a.allocate(5), AllocStep::Done(0x10008));
    assert_eq!(a.allocate(16), AllocStep::Done(0x20000));
}

#[test]
fn device_mapping_is_recorded_with_its_name() {
    let mut m = MemoryMappingManager::new();
    let r = map_device_memory(&mut m, 0x1000_0000, 0x100, "UART");
    assert_eq!(r, Ok(0x1000_0000));
    let found = m.find_mapping(0x1000_0010).expect("mapped");
    assert_eq!(found.start_addr, 0x1000_0000);
    assert_eq!(found.size, 0x1000);
    assert_eq!(found.name.as_str(), "UART");
    assert!(matches!(found.mapping_type, MappingType::Device));
    assert_eq!(m.get_stats().device_mappings, 1);
    assert_eq!(m.get_stats().total_mapped_size, 0x1000);
}

#[test]
fn overlapping_and_empty_mappings_are_refused() {
    let mut m = MemoryMappingManager::new();
    let perms = MemoryPermissions::read_write();
    assert_eq!(m.map_memory(0x8000_0000, 0x2000, perms, MappingType::Physical, "ram"), Ok(0x8000_0000));
    assert_eq!(
        m.map_memory(0x8000_1000, 0x1000, perms, MappingType::Physical, "inside"),
        Err(MappingError::Overlap)
    );
    assert_eq!(m.map_memory(0x9000_0000, 0, perms, MappingType::Physical, "empty"), Err(MappingError::ZeroSize));
    assert_eq!(m.map_memory(0x8000_2000, 0x1000, perms, MappingType::Physical, "next"), Ok(0x8000_2000));
}

#[test]
fn unmapping_returns_the_region() {
    let mut m = MemoryMappingManager::new();
    let perms = MemoryPermissions::read_only();
    m.map_memory(0x5000_0000, 0x1000, perms, MappingType::Physical, "rom").unwrap();
    let gone = m.unmap_memory(0x5000_0000).unwrap();
    assert_eq!(gone.start_addr, 0x5000_0000);
    assert!(m.find_mapping(0x5000_0000).is_none());
    assert!(matches!(m.unmap_memory(0x5000_0000), Err(MappingError::NotFound)));
}

#[test]
fn access_checks_follow_permissions() {
    let mut m = MemoryMappingManager::new();
    m.map_memory(0x6000_0000, 0x2000, MemoryPermissions::read_only(), MappingType::Physical, "ro").unwrap();
    assert!(m.check_access(0x6000_0000, 0x2000, false, false));
    assert!(!m.check_access(0x6000_0000, 0x10, true, false));
    assert!(!m.check_access(0x6000_1000, 0x2000, false, false));
}

#[test]
fn mapping_requests_that_may_be_made() {
    let mut m = MemoryMappingManager::new();
    assert!(m.map_allowed(0x1000, 0x1000));
    assert!(m.map_allowed(0x1000, 0));
    assert!(!m.map_allowed(usize::MAX - 0x800, 0x1000));
    assert!(!m.map_allowed(0, usize::MAX - 100));
    m.map_memory(0x1000, 0x1000, MemoryPermissions::read_write(), MappingType::Physical, "a").unwrap();
    // An overlapping request may be made: it is refused with an error.
    assert!(m.map_allowed(0x1800, 0x10));
}

#[test]
fn access_checks_cover_every_byte() {
    let mut m = MemoryMappingManager::new();
    m.map_memory(0x1000, 0x1000, MemoryPermissions::read_write(), MappingType::Physical, "a").unwrap();
    // [0x2000, 0x2800) is not mapped.
    assert!(!m.check_access(0x1800, 0x1000, false, false));
    assert!(m.check_access(0x1000, 0x1000, true, false));
    assert!(!m.check_access(0x1000, 0x10, false, true));
    assert!(!m.check_access(0x1fff, 2, false, false));
    assert!(m.check_access(0x1fff, 1, false, false));
    assert!(m.check_access(0x9000, 0, true, true));
    // Adjacent regions together cover a range that crosses their border.
    m.map_memory(0x2000, 0x1000, MemoryPermissions::read_only(), MappingType::Physical, "b").unwrap();
    assert!(m.check_access(0x1800, 0x1000, false, false));
    assert!(!m.check_access(0x1800, 0x1000, true, false));
}

#[test]
fn virtual_mappings_take_the_lowest_free_range() {
    let mut m = MemoryMappingManager::new();
    let perms = MemoryPermissions::read_write();
    let a = m.map_virtual_memory(0x1800, perms, MappingType::Virtual, "buf", Some(0x9000_0000)).unwrap();
    assert_eq!(a, VIRTUAL_BASE);
    let b = m.map_virtual_memory(0x1000, perms, MappingType::Virtual, "buf2", Some(0x9001_0000)).unwrap();
    assert_eq!(b, VIRTUAL_BASE + 0x2000);
    assert_eq!(m.get_stats().virtual_mappings, 2);
    assert!(matches!(
        m.map_virtual_memory(0x1000, perms, MappingType::Virtual, "nomem", None),
        Err(MappingError::PhysicalAllocationFailed)
    ));
}

#[test]
fn layout_detection_places_heaps_after_the_kernel() {
    let l = MemoryLayout::detect(0x8020_0000, 0x8030_0000, 0x8030_0000, 0x8031_0000, 0x8000_0000, 256 * 1024 * 1024);
    assert_eq!(l.kernel_size, 0x10_0000);
    assert_eq!(l.stack_size, 0x1_0000);
    assert_eq!(l.total_kernel_footprint, 0x11_0000);
    assert_eq!(l.heap_start, 0x8030_1000);
    assert_eq!(l.small_heap_start, 0x8030_1000 + 256 * 1024);
    assert_eq!(l.heap_size, 320 * 1024);
    assert_eq!(l.regions.len(), 4);
    assert_eq!(l.regions[0].start, 0x8000_0000);
    assert_eq!(l.regions[0].zone_type, MemoryZone::Normal);
    assert_eq!(l.regions[1].zone_type, MemoryZone::DMA);
    assert_eq!(l.available_memory, 256 * 1024 * 1024);
    assert_eq!(get_kernel_info(&l), (0x8020_0000, 0x8030_0000, 0x10_0000));
    assert_eq!(l.validate(), Ok(()));
}

#[test]
fn layout_without_firmware_ram_uses_the_default() {
    let l = MemoryLayout::detect(0x8020_0000, 0x8021_0000, 0x8021_0000, 0x8022_0000, 0, 0);
    assert_eq!(l.regions[0].start, 0x8000_0000);
    assert_eq!(l.available_memory, 128 * 1024 * 1024);
}

#[test]
fn layout_validation_errors() {
    let l = MemoryLayout::detect(0x8020_0000, 0x803F_F000, 0x8040_0000, 0x8040_1000, 0x8000_0000, 0x1000);
    assert_eq!(l.validate(), Err("Linker heap overlaps with kernel space"));
    let l = MemoryLayout::detect(0x1000_0000, 0x3000_0000, 0x3000_0000, 0x3000_1000, 0x8000_0000, 0x1000);
    assert_eq!(l.validate(), Err("Kernel size unreasonably large (>32MB)"));
    let l = MemoryLayout::detect(0x1000_0000, 0x1100_0000, 0x2000_0000, 0x2400_0000, 0x8000_0000, 0x1000);
    assert_eq!(l.validate(), Err("Total kernel footprint too large (>64MB)"));
}

#[test]
fn full_region_table_ignores_more_regions() {
    let mut l = MemoryLayout::detect(0x8020_0000, 0x8021_0000, 0x8021_0000, 0x8022_0000, 0x8000_0000, 0x1000);
    for k in 0..4usize {
        l.add_region(0x9000_0000 + k * 0x1000, 0x1000, true, MemoryZone::Normal);
    }
    assert_eq!(l.regions.len(), 8);
    assert_eq!(l.available_memory, 5 * 0x1000);
    l.add_region(0xA000_0000, 0x1000, true, MemoryZone::Normal);
    assert_eq!(l.regions.len(), 8);
    assert_eq!(l.available_memory, 5 * 0x1000);
}

#[test]
fn heap_distribution_by_memory_size() {
    assert_eq!(calculate_heap_distribution(512 * 1024), (4096, 128 * 1024));
    assert_eq!(calculate_heap_distribution(4 * 1024 * 1024), (16 * 1024, 1024 * 1024));
    assert_eq!(calculate_heap_distribution(32 * 1024 * 1024), (16 * 1024, 4 * 1024 * 1024));
    assert_eq!(calculate_heap_distribution(1024 * 1024 * 1024), (16 * 1024, 8 * 1024 * 1024));
}

#[test]
fn unmap_after_map_restores_the_registry() {
    let mut m = MemoryMappingManager::new();
    let perms = MemoryPermissions::read_write();
    m.map_memory(0x7000_0000, 0x1000, perms, MappingType::Physical, "a").unwrap();
    let before = m.get_stats();
    m.map_memory(0x7100_0000, 0x1800, perms, MappingType::Device, "b").unwrap();
    let gone = m.unmap_memory(0x7100_0000).unwrap();
    assert_eq!(gone.size, 0x2000);
    assert_eq!(gone.name.as_str(), "b");
    let after = m.get_stats();
    assert_eq!(after.total_mappings, before.total_mappings);
    assert_eq!(after.total_mapped_size, before.total_mapped_size);
    assert_eq!(m.find_mapping(0x7000_0000).unwrap().start_addr, 0x7000_0000);
}

#[test]
fn overlong_region_names_are_stored_empty() {
    let mut m = MemoryMappingManager::new();
    let long = "n".repeat(65);
    m.map_memory(0x7200_0000, 0x1000, MemoryPermissions::read_only(), MappingType::Physical, &long).unwrap();
    assert_eq!(m.find_mapping(0x7200_0000).unwrap().name.as_str(), "");
}

#[test]
fn registry_wide_operations() {
    let mut m = MemoryMappingManager::new();
    let rx = MemoryPermissions::read_execute();
    assert_eq!(map_physical_memory(&mut m, 0x8020_0000, 0x3000, rx, "kernel"), Ok(0x8020_0000));
    assert!(check_memory_access(&m, 0x8020_1000, 0x100, false, true));
    assert!(!check_memory_access(&m, 0x8020_1000, 0x100, true, false));
    m.map_virtual_memory(0x1000, MemoryPermissions::read_write(), MappingType::Virtual, "buf", Some(0x9000_0000))
        .unwrap();
    let stats = get_mapping_stats(&m);
    assert_eq!((stats.total_mappings, stats.physical_mappings, stats.virtual_mappings), (2, 1, 1));
    assert_eq!(stats.total_mapped_size, 0x4000);
    // Clearing hands back the allocations the regions held.
    let freed = m.clear_all_mappings();
    assert_eq!(freed, vec![(0x9000_0000, 0x1000)]);
    assert_eq!(get_mapping_stats(&m).total_mappings, 0);
    let again = m.map_virtual_memory(0x1000, MemoryPermissions::read_write(), MappingType::Virtual, "b", Some(1)).unwrap();
    assert_eq!(again, VIRTUAL_BASE);
}

#[test]
fn permission_sets() {
    let w = MemoryPermissions::write_only();
    assert!(!w.read && w.write && !w.execute);
    let x = MemoryPermissions::execute_only();
    assert!(!x.read && !x.write && x.execute);
    let all = MemoryPermissions::read_write_execute();
    assert!(all.read && all.write && all.execute);
    let none = MemoryPermissions::none();
    assert!(!none.read && !none.write && !none.execute);
}
