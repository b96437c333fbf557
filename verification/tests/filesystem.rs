use elinos::filesystem::fat32::boot::Fat32Geometry;
use elinos::filesystem::fat32::dir::{encode_dir_entry, list_directory_cluster, ATTR_ARCHIVE, ATTR_DIRECTORY};
use elinos::filesystem::fat32::names::filename_to_fat_8_3;
use elinos::filesystem::fat32::table::{FatTable, FAT_EOC};
use elinos::filesystem::fat32::volume::Fat32FileSystem;
use elinos::filesystem::FilesystemError;

fn boot_sector() -> Vec<u8> {
    let mut b = vec![0u8; 512];
    b[11..13].copy_from_slice(&512u16.to_le_bytes());
    b[13] = 1; // sectors per cluster
    b[14..16].copy_from_slice(&32u16.to_le_bytes()); // reserved
    b[16] = 2; // FATs
    b[32..36].copy_from_slice(&4096u32.to_le_bytes()); // total sectors
    b[36..40].copy_from_slice(&8u32.to_le_bytes()); // sectors per FAT
    b[44..48].copy_from_slice(&2u32.to_le_bytes()); // root cluster
    b[48..50].copy_from_slice(&1u16.to_le_bytes()); // FS info sector
    b[510] = 0x55;
    b[511] = 0xAA;
    b
}

fn table() -> FatTable {
    let g = Fat32Geometry::from_boot_sector(&boot_sector()).unwrap();
    let mut entries = vec![0u32; g.total_data_clusters as usize + 2];
    entries[0] = 0x0FFF_FFF8;
    entries[1] = 0x0FFF_FFFF;
    entries[2] = FAT_EOC; // root directory
    FatTable::new(g, entries)
}

#[test]
fn names_in_8_3_form() {
    assert_eq!(&filename_to_fat_8_3("hello.txt").unwrap(), b"HELLO   TXT");
    assert_eq!(&filename_to_fat_8_3("README").unwrap(), b"README     ");
    assert_eq!(&filename_to_fat_8_3("a.b").unwrap(), b"A       B  ");
    assert_eq!(&filename_to_fat_8_3(".").unwrap(), b".          ");
    assert_eq!(&filename_to_fat_8_3("..").unwrap(), b"..         ");
}

#[test]
fn names_without_8_3_form() {
    assert_eq!(filename_to_fat_8_3(""), Err(FilesystemError::FilenameTooLong));
    assert_eq!(filename_to_fat_8_3("toolongname.txt"), Err(FilesystemError::FilenameTooLong));
    assert_eq!(filename_to_fat_8_3("a.text"), Err(FilesystemError::FilenameTooLong));
    assert_eq!(filename_to_fat_8_3("a.b.c"), Err(FilesystemError::FilenameTooLong));
    assert_eq!(filename_to_fat_8_3("a*b"), Err(FilesystemError::FilenameTooLong));
}

#[test]
fn boot_sector_geometry() {
    let g = Fat32Geometry::from_boot_sector(&boot_sector()).unwrap();
    assert_eq!(g.first_fat_sector, 32);
    assert_eq!(g.data_region_start_sector, 48);
    assert_eq!(g.total_data_clusters, 4048);
    assert_eq!(g.fs_info_sector_num, Some(1));
    assert_eq!(g.cluster_to_sector(2), 48);
    assert_eq!(g.cluster_to_sector(10), 56);
    assert_eq!(g.fat_entry_location(130), Ok((33, 8)));
}

#[test]
fn bad_boot_sectors() {
    let mut b = boot_sector();
    b[510] = 0;
    assert_eq!(Fat32Geometry::from_boot_sector(&b), Err(FilesystemError::InvalidBootSector));
    let mut b = boot_sector();
    b[13] = 3;
    assert_eq!(Fat32Geometry::from_boot_sector(&b), Err(FilesystemError::InvalidBootSector));
}

#[test]
fn allocation_links_the_chain() {
    let mut t = table();
    let a = t.allocate_cluster(None).unwrap();
    assert_eq!(a, 3);
    assert_eq!(t.read_fat_entry(3), Ok(FAT_EOC));
    let b = t.allocate_cluster(Some(a)).unwrap();
    assert_eq!(b, 4);
    assert_eq!(t.read_fat_entry(3), Ok(4));
    assert_eq!(t.read_fat_entry(4), Ok(FAT_EOC));
    assert_eq!(t.follow_links(3, 1), Ok(4));
    assert_eq!(t.last_of_chain(3), Ok(4));
    assert!(!t.take_dirty().is_empty());
}

#[test]
fn every_fat_write_lists_its_sector() {
    let mut t = table();
    let g = t.geometry();
    let first = g.first_fat_sector as u64;
    assert!(t.take_dirty().is_empty());
    // Entry 3 lies in the first FAT sector, entry 200 (byte 800) in the second.
    assert_eq!(t.write_fat_entry(3, 7), Ok(()));
    assert_eq!(t.write_fat_entry(200, FAT_EOC), Ok(()));
    assert_eq!(t.take_dirty(), vec![first, first + 1]);
    // A refused write lists nothing.
    assert!(t.write_fat_entry(u32::MAX, 1).is_err());
    assert!(t.take_dirty().is_empty());
}

#[test]
fn freeing_a_chain_clears_it() {
    let mut t = table();
    let a = t.allocate_cluster(None).unwrap();
    let b = t.allocate_cluster(Some(a)).unwrap();
    let c = t.allocate_cluster(Some(b)).unwrap();
    assert_eq!(t.free_cluster_chain(a), Ok(()));
    assert_eq!(t.read_fat_entry(a), Ok(0));
    assert_eq!(t.read_fat_entry(b), Ok(0));
    assert_eq!(t.read_fat_entry(c), Ok(0));
    assert_eq!(t.read_fat_entry(2), Ok(FAT_EOC));
    assert_eq!(t.free_cluster_chain(1), Err(FilesystemError::InvalidFAT));
    // Freed clusters are found again.
    assert_eq!(t.find_free_cluster(None), Ok(3));
}

#[test]
fn truncating_a_chain() {
    let mut t = table();
    let a = t.allocate_cluster(None).unwrap();
    let b = t.allocate_cluster(Some(a)).unwrap();
    let c = t.allocate_cluster(Some(b)).unwrap();
    // 3 clusters of 512 bytes hold 1500 bytes; keep 600 bytes = 2 clusters.
    let added = t.truncate_chain(a, 1500, 600).unwrap();
    assert!(added.is_empty());
    assert_eq!(t.read_fat_entry(b), Ok(FAT_EOC));
    assert_eq!(t.read_fat_entry(c), Ok(0));
    // Growing counts from the old size in whole clusters: 600 + 512 and
    // 1112 + 512 bytes, so two clusters are appended after the last.
    let added = t.truncate_chain(a, 600, 1500).unwrap();
    assert_eq!(added, vec![c, 6]);
    assert_eq!(t.read_fat_entry(b), Ok(c));
    assert_eq!(t.read_fat_entry(c), Ok(6));
    assert_eq!(t.read_fat_entry(6), Ok(FAT_EOC));
}

#[test]
fn directory_cluster_listing() {
    let mut cluster = vec![0u8; 512];
    cluster[0..32].copy_from_slice(&encode_dir_entry(b"HELLO   TXT", ATTR_ARCHIVE, 3, 100));
    let mut deleted = encode_dir_entry(b"OLD     TXT", ATTR_ARCHIVE, 5, 1);
    deleted[0] = 0xE5;
    cluster[32..64].copy_from_slice(&deleted);
    cluster[64..96].copy_from_slice(&encode_dir_entry(b"DOCS       ", ATTR_DIRECTORY, 4, 0));
    let recs = list_directory_cluster(&cluster, 512);
    assert_eq!(recs.len(), 2);
    assert_eq!(recs[0].name, b"HELLO.TXT".to_vec());
    assert_eq!(recs[0].size, 100);
    assert_eq!(recs[0].first_cluster, 3);
    assert!(!recs[0].is_directory);
    assert_eq!(recs[1].name, b"DOCS".to_vec());
    assert!(recs[1].is_directory);
}

#[test]
fn volume_mount_and_lookup() {
    let mut fs = Fat32FileSystem::new();
    assert!(!fs.is_initialized());
    fs.init(&boot_sector()).unwrap();
    assert!(fs.is_initialized());
    assert_eq!(fs.get_filesystem_info(), Some((0xAA55, 4096, 512)));
    let mut cluster = vec![0u8; 512];
    cluster[0..32].copy_from_slice(&encode_dir_entry(b"HELLO   TXT", ATTR_ARCHIVE, 3, 100));
    cluster[32..64].copy_from_slice(&encode_dir_entry(b"DOCS       ", ATTR_DIRECTORY, 4, 0));
    fs.mount(&cluster).unwrap();
    assert!(fs.is_mounted());
    assert!(fs.file_exists("HELLO.TXT"));
    // Names match exactly, case included.
    assert!(!fs.file_exists("hello.txt"));
    assert!(!fs.file_exists("missing"));
    assert_eq!(fs.get_file_size("HELLO.TXT"), Ok(100));
    assert_eq!(fs.get_file_size("nope"), Err(FilesystemError::FileNotFound));
    let listing = fs.list_directory("/").unwrap();
    assert_eq!(listing.len(), 2);
    assert!(listing[1].2);
    assert_eq!(fs.prepare_create_file("HELLO.TXT"), Err(FilesystemError::FileAlreadyExists));
    assert_eq!(fs.prepare_create_directory("DOCS"), Err(FilesystemError::FileAlreadyExists));
    assert_eq!(&fs.prepare_create_file("new.txt").unwrap(), b"NEW     TXT");
}
