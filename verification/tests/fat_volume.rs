use elinos::filesystem::fat32::boot::{Fat32Geometry, SECTOR_SIZE};
use elinos::filesystem::fat32::dir::{
    check_directory_cluster_empty, encode_dir_entry, find_free_slot, find_named_entry, mark_entry_deleted,
    read_entry_cluster, read_entry_name, update_entry, write_entry_at, EmptinessScan, NameScan, ATTR_ARCHIVE,
    ATTR_DIRECTORY,
};
use elinos::filesystem::fat32::names::{fat_name_of_bytes, fat_name_of_chars};
use elinos::filesystem::fat32::table::{FatTable, FAT_EOC};
use elinos::filesystem::fat32::volume::{
    check_found_directory, cluster_bytes, content_clusters, delete_directory_step, find_entry_step, free_slot_step, DeleteNext,
    DirWalk, copy_into, file_content, plan_write, WritePiece, must_read_cluster, next_directory_cluster,
    next_write_cluster, release_found_file, write_span, written_entry, Fat32FileSystem,
};
use elinos::filesystem::{FileEntry, FilesystemError};

fn boot_sector() -> Vec<u8> {
    let mut b = vec![0u8; 512];
    b[11..13].copy_from_slice(&512u16.to_le_bytes());
    b[13] = 1;
    b[14..16].copy_from_slice(&32u16.to_le_bytes());
    b[16] = 2;
    b[32..36].copy_from_slice(&4096u32.to_le_bytes());
    b[36..40].copy_from_slice(&8u32.to_le_bytes());
    b[44..48].copy_from_slice(&2u32.to_le_bytes());
    b[48..50].copy_from_slice(&1u16.to_le_bytes());
    b[510] = 0x55;
    b[511] = 0xAA;
    b
}

fn fresh_table() -> FatTable {
    let g = Fat32Geometry::from_boot_sector(&boot_sector()).unwrap();
    let mut entries = vec![0u32; g.total_data_clusters as usize + 2];
    entries[0] = 0x0FFF_FFF8;
    entries[1] = 0x0FFF_FFFF;
    entries[2] = FAT_EOC;
    FatTable::new(g, entries)
}

fn mounted(root: &[u8]) -> Fat32FileSystem {
    let mut fs = Fat32FileSystem::new();
    fs.init(&boot_sector()).unwrap();
    fs.mount(root).unwrap();
    fs
}

fn file(name: &[u8], size: usize, inode: u64) -> FileEntry {
    FileEntry { name: name.to_vec(), is_directory: false, size, inode }
}

#[test]
fn creating_a_file_makes_its_entry() {
    let mut fs = mounted(&vec![0u8; 512]);
    let mut t = fresh_table();
    let fat_name = fs.prepare_create_file("new.txt").unwrap();
    assert_eq!(&fat_name, b"NEW     TXT");
    let (entry, f) = fs.finish_create_file(&mut t, "new.txt", &fat_name).unwrap();
    assert_eq!(&entry[0..11], b"NEW     TXT");
    assert_eq!(entry[11], ATTR_ARCHIVE);
    assert_eq!(&entry[26..28], &3u16.to_le_bytes());
    assert_eq!(&entry[28..32], &[0, 0, 0, 0]);
    assert_eq!(f.name, b"new.txt".to_vec());
    assert_eq!(f.inode, 3);
    assert_eq!(f.size, 0);
    assert!(!f.is_directory);
    assert_eq!(t.read_fat_entry(3), Ok(FAT_EOC));
    fs.remember(f);
    assert!(fs.file_exists("new.txt"));
    assert_eq!(fs.prepare_create_file("new.txt"), Err(FilesystemError::FileAlreadyExists));
    fs.forget("new.txt");
    assert!(!fs.file_exists("new.txt"));
}

#[test]
fn creating_a_directory_makes_dot_entries() {
    let fs = mounted(&vec![0u8; 512]);
    let mut t = fresh_table();
    let fat_name = fs.prepare_create_directory("docs").unwrap();
    assert_eq!(&fat_name, b"DOCS       ");
    let d = fs.finish_create_directory(&mut t, "docs", &fat_name).unwrap();
    assert_eq!(d.cluster, 3);
    assert_eq!(&d.dot[0..11], b".          ");
    assert_eq!(d.dot[11], ATTR_DIRECTORY);
    assert_eq!(read_entry_cluster(&d.dot, 0), 3);
    assert_eq!(&d.dot_dot[0..11], b"..         ");
    assert_eq!(read_entry_cluster(&d.dot_dot, 0), 2);
    assert_eq!(&d.entry[0..11], b"DOCS       ");
    assert_eq!(read_entry_cluster(&d.entry, 0), 3);
    assert!(d.file.is_directory);
    assert_eq!(d.file.name, b"docs".to_vec());
}

#[test]
fn operations_on_an_unmounted_volume() {
    let fs = Fat32FileSystem::new();
    let mut t = fresh_table();
    let f = file(b"A.TXT", 10, 3);
    assert_eq!(fs.prepare_create_file("a.txt"), Err(FilesystemError::NotMounted));
    assert_eq!(fs.prepare_create_directory("d"), Err(FilesystemError::NotMounted));
    assert_eq!(fs.prepare_delete("a.txt"), Err(FilesystemError::NotMounted));
    assert!(matches!(fs.prepare_write(&mut t, &f, 0, 4), Err(FilesystemError::NotMounted)));
    assert!(matches!(fs.truncate_file(&mut t, &f, 0), Err(FilesystemError::NotMounted)));
    assert_eq!(fs.file_data_sector(&f), Err(FilesystemError::NotInitialized));
}

#[test]
fn entry_fields_read_back() {
    let e = encode_dir_entry(b"HELLO   TXT", ATTR_ARCHIVE, 0x12345, 100);
    assert_eq!(read_entry_name(&e, 0), b"HELLO.TXT".to_vec());
    assert_eq!(read_entry_cluster(&e, 0), 0x12345);
    assert_eq!(&e[20..22], &1u16.to_le_bytes());
    assert_eq!(&e[26..28], &0x2345u16.to_le_bytes());
    let e = encode_dir_entry(b"README     ", ATTR_ARCHIVE, 7, 0);
    assert_eq!(read_entry_name(&e, 0), b"README".to_vec());
}

#[test]
fn finding_entries_in_a_cluster() {
    let mut dir = vec![0u8; 512];
    write_entry_at(&mut dir, 0, &encode_dir_entry(b"HELLO   TXT", ATTR_ARCHIVE, 3, 600));
    write_entry_at(&mut dir, 32, &encode_dir_entry(b"DOCS       ", ATTR_DIRECTORY, 5, 0));
    assert_eq!(find_named_entry(&dir, 512, b"HELLO   TXT"), NameScan::Found(0));
    assert_eq!(find_named_entry(&dir, 512, b"DOCS       "), NameScan::Found(32));
    assert_eq!(find_named_entry(&dir, 512, b"OTHER   TXT"), NameScan::End);
    assert_eq!(find_free_slot(&dir, 512), Some(64));
    mark_entry_deleted(&mut dir, 0);
    assert_eq!(dir[0], 0xE5);
    assert_eq!(find_named_entry(&dir, 512, b"HELLO   TXT"), NameScan::End);
    assert_eq!(find_free_slot(&dir, 512), Some(0));
    // A cluster full of live entries neither ends the directory nor has room.
    let mut full = vec![0u8; 64];
    write_entry_at(&mut full, 0, &encode_dir_entry(b"A          ", ATTR_ARCHIVE, 3, 1));
    write_entry_at(&mut full, 32, &encode_dir_entry(b"B          ", ATTR_ARCHIVE, 4, 1));
    assert_eq!(find_named_entry(&full, 64, b"C          "), NameScan::NotHere);
    assert_eq!(find_free_slot(&full, 64), None);
}

#[test]
fn directory_emptiness() {
    let mut content = vec![0u8; 512];
    write_entry_at(&mut content, 0, &encode_dir_entry(b".          ", ATTR_DIRECTORY, 5, 0));
    write_entry_at(&mut content, 32, &encode_dir_entry(b"..         ", ATTR_DIRECTORY, 2, 0));
    assert_eq!(check_directory_cluster_empty(&content, 512), EmptinessScan::End);
    assert_eq!(check_directory_cluster_empty(&content, 64), EmptinessScan::Continue);
    write_entry_at(&mut content, 64, &encode_dir_entry(b"NOTE    TXT", ATTR_ARCHIVE, 6, 3));
    assert_eq!(check_directory_cluster_empty(&content, 512), EmptinessScan::Occupied(64));
    mark_entry_deleted(&mut content, 64);
    assert_eq!(check_directory_cluster_empty(&content, 512), EmptinessScan::End);
}

#[test]
fn updating_an_entry() {
    let mut dir = vec![0u8; 64];
    write_entry_at(&mut dir, 32, &encode_dir_entry(b"HELLO   TXT", ATTR_ARCHIVE, 3, 100));
    update_entry(&mut dir, 32, 250, None);
    assert_eq!(&dir[60..64], &250u32.to_le_bytes());
    assert_eq!(read_entry_cluster(&dir, 32), 3);
    update_entry(&mut dir, 32, 0, Some(0x10009));
    assert_eq!(read_entry_cluster(&dir, 32), 0x10009);
    assert_eq!(&dir[32..43], b"HELLO   TXT");
    assert_eq!(&dir[0..32], &[0u8; 32]);
}

#[test]
fn deleting_a_found_file_frees_its_chain() {
    let mut t = fresh_table();
    let a = t.allocate_cluster(None).unwrap();
    let b = t.allocate_cluster(Some(a)).unwrap();
    let mut dir = vec![0u8; 512];
    write_entry_at(&mut dir, 0, &encode_dir_entry(b"HELLO   TXT", ATTR_ARCHIVE, a, 600));
    write_entry_at(&mut dir, 32, &encode_dir_entry(b"DOCS       ", ATTR_DIRECTORY, 9, 0));
    write_entry_at(&mut dir, 64, &encode_dir_entry(b"EMPTY      ", ATTR_ARCHIVE, 0, 0));
    assert_eq!(release_found_file(&mut t, &dir, 32), Err(FilesystemError::IoError));
    assert_eq!(release_found_file(&mut t, &dir, 64), Ok(()));
    assert_eq!(release_found_file(&mut t, &dir, 0), Ok(()));
    assert_eq!(t.read_fat_entry(a), Ok(0));
    assert_eq!(t.read_fat_entry(b), Ok(0));
    assert_eq!(check_found_directory(&dir, 32), Ok(9));
    assert_eq!(check_found_directory(&dir, 0), Err(FilesystemError::IoError));
    let mut broken = vec![0u8; 32];
    write_entry_at(&mut broken, 0, &encode_dir_entry(b"BAD        ", ATTR_DIRECTORY, 1, 0));
    assert_eq!(check_found_directory(&broken, 0), Err(FilesystemError::CorruptedFilesystem));
}

#[test]
fn deletion_names() {
    let fs = mounted(&vec![0u8; 512]);
    assert_eq!(&fs.prepare_delete("old.txt").unwrap(), b"OLD     TXT");
    assert_eq!(fs.prepare_delete("much_too_long.txt"), Err(FilesystemError::FilenameTooLong));
}

#[test]
fn where_a_write_starts() {
    let fs = mounted(&vec![0u8; 512]);
    let mut t = fresh_table();
    let empty = file(b"NEW.TXT", 0, 0);
    assert!(matches!(fs.prepare_write(&mut t, &empty, 0, 0), Ok(None)));
    assert!(matches!(fs.prepare_write(&mut t, &empty, 5, 10), Err(FilesystemError::IoError)));
    let w = fs.prepare_write(&mut t, &empty, 0, 10).unwrap().unwrap();
    assert_eq!((w.start_cluster, w.current_cluster), (3, 3));
    assert_eq!(t.read_fat_entry(3), Ok(FAT_EOC));
    // A two-cluster file: appending continues in its last cluster.
    let a = t.allocate_cluster(None).unwrap();
    let b = t.allocate_cluster(Some(a)).unwrap();
    let two = file(b"TWO.TXT", 600, a as u64);
    let w = fs.prepare_write(&mut t, &two, 600, 10).unwrap().unwrap();
    assert_eq!((w.start_cluster, w.current_cluster), (a, b));
    let w = fs.prepare_write(&mut t, &two, 0, 10).unwrap().unwrap();
    assert_eq!((w.start_cluster, w.current_cluster), (a, a));
    assert!(matches!(fs.prepare_write(&mut t, &two, 100, 10), Err(FilesystemError::IoError)));
    // A file that fills its only cluster: an append starts in a new cluster
    // linked after it, and the file's bytes stay where they are.
    let c = t.allocate_cluster(None).unwrap();
    let full = file(b"FULL.TXT", 512, c as u64);
    let w = fs.prepare_write(&mut t, &full, 512, 10).unwrap().unwrap();
    assert_eq!(w.start_cluster, c);
    assert_ne!(w.current_cluster, c);
    assert_eq!(t.read_fat_entry(c), Ok(w.current_cluster));
    assert_eq!(t.read_fat_entry(w.current_cluster), Ok(FAT_EOC));
    let dir = FileEntry { name: b"DOCS".to_vec(), is_directory: true, size: 0, inode: 9 };
    assert!(matches!(fs.prepare_write(&mut t, &dir, 0, 10), Err(FilesystemError::IoError)));
}

#[test]
fn pieces_of_a_write() {
    assert_eq!(write_span(1000, 100, 512), (488, 24));
    assert_eq!(write_span(0, 1000, 512), (0, 512));
    assert_eq!(write_span(512, 10, 512), (0, 10));
    // A piece that starts inside a cluster reads it first.
    assert!(must_read_cluster(10, 5, 512, 0, 10));
    // So does one that stops short inside the file's data.
    assert!(must_read_cluster(0, 100, 512, 600, 0));
    assert!(!must_read_cluster(0, 100, 512, 0, 0));
    assert!(!must_read_cluster(0, 512, 512, 600, 0));
}

#[test]
fn the_next_cluster_of_a_write() {
    let mut t = fresh_table();
    let a = t.allocate_cluster(None).unwrap();
    let b = t.allocate_cluster(Some(a)).unwrap();
    assert_eq!(next_write_cluster(&mut t, a), Ok(b));
    let c = next_write_cluster(&mut t, b).unwrap();
    assert_eq!(c, 5);
    assert_eq!(t.read_fat_entry(b), Ok(c));
    assert_eq!(t.read_fat_entry(c), Ok(FAT_EOC));
    t.write_fat_entry(a, 1).unwrap();
    assert_eq!(next_write_cluster(&mut t, a), Err(FilesystemError::CorruptedFilesystem));
}

#[test]
fn the_next_cluster_of_a_directory() {
    let mut t = fresh_table();
    assert_eq!(next_directory_cluster(&t, 2), Ok(None));
    let a = t.allocate_cluster(Some(2)).unwrap();
    assert_eq!(next_directory_cluster(&t, 2), Ok(Some(a)));
    t.write_fat_entry(a, 0x0FFF_0000).unwrap();
    assert_eq!(next_directory_cluster(&t, a), Err(FilesystemError::CorruptedFilesystem));
    assert_eq!(next_directory_cluster(&t, 100_000), Err(FilesystemError::InvalidFAT));
}

#[test]
fn the_entry_after_a_write() {
    let f = file(b"LOG.TXT", 100, 3);
    let (name, size) = written_entry(&f, 100, 50).unwrap();
    assert_eq!(&name, b"LOG     TXT");
    assert_eq!(size, 150);
    assert_eq!(written_entry(&f, 0, 20).unwrap().1, 100);
    let bad = file(b"FAR.TOOLONG", 1, 3);
    assert_eq!(written_entry(&bad, 0, 1), Err(FilesystemError::FilenameTooLong));
}

#[test]
fn truncating_through_the_volume() {
    let fs = mounted(&vec![0u8; 512]);
    let mut t = fresh_table();
    let a = t.allocate_cluster(None).unwrap();
    let b = t.allocate_cluster(Some(a)).unwrap();
    let c = t.allocate_cluster(Some(b)).unwrap();
    let f = file(b"BIG.DAT", 1500, a as u64);
    let same = fs.truncate_file(&mut t, &f, 1500).unwrap();
    assert!(!same.update_entry);
    assert!(same.new_clusters.is_empty());
    let p = fs.truncate_file(&mut t, &f, 600).unwrap();
    assert!(p.update_entry);
    assert!(p.new_clusters.is_empty());
    assert_eq!(&p.entry_name, b"BIG     DAT");
    assert_eq!(p.new_size, 600);
    assert!(!p.clear_cluster);
    assert_eq!(t.read_fat_entry(b), Ok(FAT_EOC));
    assert_eq!(t.read_fat_entry(c), Ok(0));
    let small = file(b"BIG.DAT", 600, a as u64);
    let p = fs.truncate_file(&mut t, &small, 0).unwrap();
    assert!(p.clear_cluster);
    assert_eq!(p.new_size, 0);
    let dir = FileEntry { name: b"DOCS".to_vec(), is_directory: true, size: 0, inode: 9 };
    assert!(matches!(fs.truncate_file(&mut t, &dir, 0), Err(FilesystemError::IoError)));
}

#[test]
fn copying_content_out() {
    let mut buffer = [9u8; 5];
    assert_eq!(copy_into(&[1, 2, 3], &mut buffer), 3);
    assert_eq!(buffer, [1, 2, 3, 9, 9]);
    let mut small = [0u8; 2];
    assert_eq!(copy_into(&[4, 5, 6], &mut small), 2);
    assert_eq!(small, [4, 5]);
    let mut sector = vec![0u8; SECTOR_SIZE];
    sector[0..4].copy_from_slice(b"abcd");
    assert_eq!(file_content(&file(b"A.TXT", 3, 3), &sector), b"abc".to_vec());
    assert_eq!(file_content(&file(b"B.TXT", 5000, 3), &sector).len(), SECTOR_SIZE);
}

#[test]
fn walking_a_directory_chain() {
    let mut t = fresh_table();
    let a = t.allocate_cluster(None).unwrap();
    let b = t.allocate_cluster(Some(a)).unwrap();
    let mut full = vec![0u8; 512];
    for k in 0..16 {
        write_entry_at(&mut full, 32 * k, &encode_dir_entry(b"FILE    TXT", ATTR_ARCHIVE, 0, 0));
    }
    // A full cluster sends the walk on; the last one ends it.
    assert_eq!(free_slot_step(&t, a, &full), Ok(DirWalk::Scan(b)));
    assert_eq!(free_slot_step(&t, b, &full), Err(FilesystemError::FilesystemFull));
    assert_eq!(free_slot_step(&t, b, &vec![0u8; 512]), Ok(DirWalk::Found(0)));
    let mut named = vec![0u8; 512];
    write_entry_at(&mut named, 0, &encode_dir_entry(b"A       TXT", ATTR_ARCHIVE, 0, 1));
    write_entry_at(&mut named, 32, &encode_dir_entry(b"B       TXT", ATTR_ARCHIVE, 0, 1));
    write_entry_at(&mut named, 64, &encode_dir_entry(b"HELLO   TXT", ATTR_ARCHIVE, 0, 5));
    assert_eq!(find_entry_step(&t, a, &named, b"HELLO   TXT", FilesystemError::FileNotFound), Ok(DirWalk::Found(64)));
    // The directory's end before the name: missing.
    assert_eq!(find_entry_step(&t, a, &named, b"OTHER   TXT", FilesystemError::FileNotFound), Err(FilesystemError::FileNotFound));
    // A cluster without the name and without the end goes on.
    assert_eq!(find_entry_step(&t, a, &full, b"OTHER   TXT", FilesystemError::DirectoryNotFound), Ok(DirWalk::Scan(b)));
    assert_eq!(find_entry_step(&t, b, &full, b"OTHER   TXT", FilesystemError::DirectoryNotFound), Err(FilesystemError::DirectoryNotFound));
}

#[test]
fn deleting_a_directory_step_by_step() {
    let mut t = fresh_table();
    let a = t.allocate_cluster(None).unwrap();
    let b = t.allocate_cluster(Some(a)).unwrap();
    let mut parent = vec![0u8; 512];
    write_entry_at(&mut parent, 32, &encode_dir_entry(b"DOCS       ", ATTR_DIRECTORY, a, 0));
    let before = parent.clone();
    // A live entry refuses the deletion and changes nothing.
    let r = delete_directory_step(&mut t, &mut parent, 32, EmptinessScan::Occupied(64), None);
    assert_eq!(r, Err(FilesystemError::DirectoryNotEmpty));
    assert_eq!(parent, before);
    assert_eq!(t.read_fat_entry(a), Ok(b));
    // The directory goes on in cluster b.
    let r = delete_directory_step(&mut t, &mut parent, 32, EmptinessScan::Continue, Some(b));
    assert_eq!(r, Ok(DeleteNext::Scan(b)));
    assert_eq!(parent, before);
    // It ends empty: its chain is freed and its entry marked deleted.
    let r = delete_directory_step(&mut t, &mut parent, 32, EmptinessScan::End, None);
    assert_eq!(r, Ok(DeleteNext::Deleted));
    assert_eq!(parent[32], 0xE5);
    assert_eq!(parent[33..], before[33..]);
    assert_eq!((t.read_fat_entry(a), t.read_fat_entry(b)), (Ok(0), Ok(0)));
}

#[test]
fn a_write_in_pieces() {
    let mut t = fresh_table();
    let a = t.allocate_cluster(None).unwrap();
    // 1000 bytes appended at 700 to a file of 700 bytes in clusters a, b.
    let b = t.allocate_cluster(Some(a)).unwrap();
    let (plan, _, _) = plan_write(&mut t, b, 700, 1000, 700);
    let pieces = plan.unwrap();
    assert_eq!(pieces.len(), 3);
    assert_eq!(pieces[0], WritePiece { cluster: b, in_cluster: 188, data_start: 0, len: 324, read_first: true });
    let c = pieces[1].cluster;
    assert_eq!(t.read_fat_entry(b), Ok(c));
    assert_eq!(pieces[1], WritePiece { cluster: c, in_cluster: 0, data_start: 324, len: 512, read_first: false });
    let d = pieces[2].cluster;
    assert_eq!(t.read_fat_entry(c), Ok(d));
    assert_eq!(t.read_fat_entry(d), Ok(FAT_EOC));
    assert_eq!(pieces[2], WritePiece { cluster: d, in_cluster: 0, data_start: 836, len: 164, read_first: false });
    // Overwriting from the start of a long file reads a cluster it only partly covers.
    // A chain that cannot go on fails with the error of its next step.
    let (plan, _, _) = plan_write(&mut t, 0x0FFF_0000, 0, 1000, 0);
    assert_eq!(plan, Err(FilesystemError::InvalidFAT));
    let (plan, _, _) = plan_write(&mut t, a, 0, 600, 2000);
    let pieces = plan.unwrap();
    assert_eq!(pieces[0], WritePiece { cluster: a, in_cluster: 0, data_start: 0, len: 512, read_first: false });
    assert_eq!(pieces[1], WritePiece { cluster: b, in_cluster: 0, data_start: 512, len: 88, read_first: true });
}

#[test]
fn a_whole_file_is_read_along_its_chain() {
    let mut t = fresh_table();
    let a = t.allocate_cluster(None).unwrap();
    let b = t.allocate_cluster(Some(a)).unwrap();
    let c = t.allocate_cluster(Some(b)).unwrap();
    // 1100 bytes take three 512-byte clusters; 1024 take two.
    assert_eq!(content_clusters(&t, &file(b"BIG.TXT", 1100, a as u64)), Ok(vec![a, b, c]));
    assert_eq!(content_clusters(&t, &file(b"TWO.TXT", 1024, a as u64)), Ok(vec![a, b]));
    assert_eq!(content_clusters(&t, &file(b"NONE.TXT", 0, a as u64)), Ok(vec![]));
    assert_eq!(content_clusters(&t, &file(b"NEW.TXT", 10, 0)), Ok(vec![]));
    // A size beyond the chain breaks at its end.
    assert_eq!(content_clusters(&t, &file(b"LONG.TXT", 2000, a as u64)), Err(FilesystemError::CorruptedFilesystem));
    assert_eq!(t.chain_clusters(b, 2), Ok(vec![b, c]));
    let mut data = vec![1u8; 512];
    data.extend(vec![2u8; 512]);
    data.extend(vec![3u8; 512]);
    let content = file_content(&file(b"BIG.TXT", 1100, a as u64), &data);
    assert_eq!(content.len(), 1100);
    assert_eq!(content[511..513], [1, 2]);
    assert_eq!(content[1099], 3);
}

#[test]
fn the_listing_and_data_sector() {
    let mut root = vec![0u8; 512];
    write_entry_at(&mut root, 0, &encode_dir_entry(b"HELLO   TXT", ATTR_ARCHIVE, 3, 100));
    write_entry_at(&mut root, 32, &encode_dir_entry(b"DOCS       ", ATTR_DIRECTORY, 4, 0));
    let fs = mounted(&root);
    let listing = fs.list_files().unwrap();
    assert_eq!(listing, vec![(b"HELLO.TXT".to_vec(), 100), (b"DOCS".to_vec(), 0)]);
    let hello = fs.find_file("HELLO.TXT").unwrap();
    assert_eq!(hello.inode, 3);
    // 32 reserved sectors, two FATs of 8, one sector per cluster.
    assert_eq!(fs.file_data_sector(hello), Ok(49));
    assert_eq!(fs.find_file("DOCS").err(), Some(FilesystemError::FileNotFound));
    let g = fs.geometry().unwrap();
    assert_eq!(cluster_bytes(&g), 512);
    let mut fs2 = mounted(&vec![0u8; 512]);
    fs2.read_directory(&root).unwrap();
    assert_eq!(fs2.files().len(), 2);
}

#[test]
fn name_conversion_from_bytes_and_chars() {
    assert_eq!(&fat_name_of_bytes(b"a.b").unwrap(), b"A       B  ");
    assert_eq!(&fat_name_of_chars(&['k', 'e', 'r', 'n', 'e', 'l']).unwrap(), b"KERNEL     ");
    assert_eq!(fat_name_of_bytes(b"123456789"), Err(FilesystemError::FilenameTooLong));
}

#[test]
fn freeing_a_new_file_restores_the_table() {
    let mut t = fresh_table();
    t.allocate_cluster(None).unwrap();
    let before: Vec<u32> = (0..t.len()).map(|i| t.raw_entry(i)).collect();
    let c = t.allocate_cluster(None).unwrap();
    assert_eq!(t.raw_entry(c as usize), FAT_EOC);
    assert_eq!(t.free_cluster_chain(c), Ok(()));
    let after: Vec<u32> = (0..t.len()).map(|i| t.raw_entry(i)).collect();
    assert_eq!(before, after);
}

#[test]
fn a_created_file_is_listed_upper_cased() {
    let fs = mounted(&vec![0u8; 512]);
    let mut t = fresh_table();
    let fat_name = fs.prepare_create_file("notes.md").unwrap();
    let (entry, _) = fs.finish_create_file(&mut t, "notes.md", &fat_name).unwrap();
    let mut dir = vec![0u8; 512];
    write_entry_at(&mut dir, 0, &entry);
    assert_eq!(read_entry_name(&dir, 0), b"NOTES.MD".to_vec());
    let recs = elinos::filesystem::fat32::dir::list_directory_cluster(&dir, 512);
    assert_eq!(recs[0].name, b"NOTES.MD".to_vec());
}

#[test]
fn entries_are_duplicated_field_by_field() {
    let f = file(b"A.TXT", 12, 5);
    let d = f.duplicate();
    assert_eq!((d.name, d.size, d.inode, d.is_directory), (b"A.TXT".to_vec(), 12, 5, false));
}

#[test]
fn fat_entries_read_back_their_low_bits() {
    let mut t = fresh_table();
    assert_eq!(t.write_fat_entry(5, 0xF000_0009), Ok(()));
    assert_eq!(t.read_fat_entry(5), Ok(9));
    assert_eq!(t.read_fat_entry(6), Ok(0));
    assert_eq!(t.write_fat_entry(100_000, 1), Err(FilesystemError::InvalidFAT));
}

#[test]
fn the_entries_of_a_fat_sector() {
    let mut t = fresh_table();
    assert_eq!(t.write_fat_entry(200, 5), Ok(()));
    assert_eq!(t.take_dirty(), vec![33]);
    let second = t.sector_entries(33);
    assert_eq!(second.len(), 128);
    assert_eq!(second[200 - 128], 5);
    assert_eq!(second[0], t.raw_entry(128));
    let first = t.sector_entries(32);
    assert_eq!(&first[..3], &[0x0FFF_FFF8, 0x0FFF_FFFF, FAT_EOC]);
    assert!(t.sector_entries(31).is_empty());
    assert!(t.sector_entries(1_000_000).is_empty());
}
