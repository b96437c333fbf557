use elinos::filesystem::ext2::bitmap::{BitmapManager, PLACEHOLDER_BLOCK, PLACEHOLDER_INODE};
use elinos::filesystem::ext2::block::{append_block, BlockManager, DirectBlock, MAX_FILE_CONTENT};
use elinos::filesystem::ext2::structures::{
    dir_entry_at, extent_at, extent_header, Ext2Extent, Ext2Inode, EXT2_EXTENTS_FL, EXT2_EXT_MAGIC, S_IFDIR, S_IFREG,
};
use elinos::filesystem::FilesystemError;

fn file_inode() -> Ext2Inode {
    Ext2Inode::new(S_IFREG | 0o644, 0, 0, 1, 0)
}

#[test]
fn inode_kind_and_size() {
    let mut f = file_inode();
    assert!(f.is_regular_file());
    assert!(!f.is_directory());
    assert!(!f.uses_extents());
    assert_eq!(f.get_size(), 0);
    f.set_size(0x1_0000_0005);
    assert_eq!(f.i_size_lo, 5);
    assert_eq!(f.i_size_high, 1);
    assert_eq!(f.get_size(), 0x1_0000_0005);
    // Only the size words change.
    let mut g = Ext2Inode::new(S_IFREG | 0o600, 7, 8, 3, 0);
    g.i_block[4] = 77;
    let before = g;
    g.set_size(4096);
    assert_eq!((g.i_size_lo, g.i_size_high), (4096, 0));
    assert_eq!((g.i_mode, g.i_uid, g.i_gid, g.i_links_count, g.i_flags), (before.i_mode, 7, 8, 3, 0));
    assert_eq!((g.i_atime, g.i_ctime, g.i_mtime, g.i_dtime), (before.i_atime, before.i_ctime, before.i_mtime, before.i_dtime));
    assert_eq!((g.i_blocks_lo, g.i_osd1, g.i_generation, g.i_file_acl_lo), (before.i_blocks_lo, before.i_osd1, before.i_generation, before.i_file_acl_lo));
    assert_eq!(g.i_block, before.i_block);
    let d = Ext2Inode::new(S_IFDIR | 0o755, 0, 0, 2, EXT2_EXTENTS_FL);
    assert!(d.is_directory());
    assert!(d.uses_extents());
    assert_eq!(d.i_generation, 1);
}

#[test]
fn extent_fields() {
    let mut b = [0u32; 15];
    b[0] = (2 << 16) | EXT2_EXT_MAGIC as u32;
    b[1] = 4;
    b[3] = 0;
    b[4] = (1 << 16) | 8;
    b[5] = 500;
    let h = extent_header(&b);
    assert_eq!(h.eh_magic, EXT2_EXT_MAGIC);
    assert_eq!(h.eh_entries, 2);
    assert_eq!(h.eh_max, 4);
    assert_eq!(h.eh_depth, 0);
    let e = extent_at(&b, 0);
    assert_eq!(e.ee_len, 8);
    assert_eq!(e.ee_start_hi, 1);
    assert_eq!(e.get_start_block(), 0x1_0000_01F4);
    let mut e2 = Ext2Extent { ee_block: 3, ee_len: 2, ee_start_hi: 0, ee_start_lo: 0 };
    e2.set_start_block(0x2_0000_0007);
    assert_eq!((e2.ee_start_hi, e2.ee_start_lo), (2, 7));
    assert_eq!(e2.ee_block, 3);
}

#[test]
fn extent_tree_checks() {
    let bm = BlockManager::new();
    let mut f = file_inode();
    f.i_flags = EXT2_EXTENTS_FL;
    assert_eq!(bm.extent_count(&f), Err(FilesystemError::CorruptedFilesystem));
    f.i_block[0] = (3 << 16) | EXT2_EXT_MAGIC as u32;
    assert_eq!(bm.extent_count(&f), Ok(3));
    f.i_block[1] = 1 << 16;
    assert_eq!(bm.extent_count(&f), Err(FilesystemError::UnsupportedFilesystem));
}

#[test]
fn direct_blocks_while_reading() {
    let bm = BlockManager::new();
    let mut f = file_inode();
    f.i_block[0] = 40;
    f.i_block[1] = 2_000_000;
    f.i_block[2] = 41;
    assert_eq!(bm.direct_block(&f, 0), DirectBlock::Read(40));
    assert_eq!(bm.direct_block(&f, 1), DirectBlock::Skip);
    assert_eq!(bm.direct_block(&f, 2), DirectBlock::Read(41));
    assert_eq!(bm.direct_block(&f, 3), DirectBlock::End);
    assert_eq!(bm.free_inode_blocks(&f, |_| Ok(())), (vec![40, 2_000_000, 41], Ok(())));
}

#[test]
fn freeing_stops_at_the_first_error() {
    let bm = BlockManager::new();
    let mut f = file_inode();
    f.i_block[0] = 40;
    f.i_block[3] = 41;
    f.i_block[7] = 42;
    f.i_block[12] = 99; // indirect: never freed
    let refuse_41 = |b: u32| if b == 41 { Err(FilesystemError::DeviceError) } else { Ok(()) };
    assert_eq!(bm.free_inode_blocks(&f, refuse_41), (vec![40, 41], Err(FilesystemError::DeviceError)));
    let bitmap = BitmapManager::new();
    assert_eq!(bm.free_inode_blocks(&f, |b| bitmap.free_block(b)), (vec![40, 41, 42], Ok(())));
}

#[test]
fn how_much_to_read() {
    let bm = BlockManager::new();
    let mut f = file_inode();
    assert_eq!(bm.content_size(&f, 0, 1024), None);
    assert_eq!(bm.content_size(&f, 300, 1024), Some(300));
    // Size zero with a block allocated: one block is read.
    f.i_blocks_lo = 2;
    f.i_block[0] = 77;
    assert_eq!(bm.content_size(&f, 0, 1024), Some(1024));
}

#[test]
fn writes_and_truncation() {
    let bm = BlockManager::new();
    let mut f = file_inode();
    assert_eq!(bm.check_write(&f, 0, 0), Ok(false));
    assert_eq!(bm.check_write(&f, 4, 10), Err(FilesystemError::NotImplemented));
    assert_eq!(bm.check_write(&f, 0, 10), Ok(true));
    bm.record_write(&mut f, 123, 10);
    assert_eq!(f.i_block[0], 123);
    assert_eq!(f.get_size(), 10);
    assert_eq!(bm.truncate_file(&mut f, 4), Ok(()));
    assert_eq!(f.get_size(), 4);
    assert_eq!(f.i_block[0], 123);
    f.i_flags = EXT2_EXTENTS_FL;
    assert_eq!(bm.check_write(&f, 0, 10), Err(FilesystemError::NotImplemented));
}

#[test]
fn bitmap_requests() {
    let mut bm = BitmapManager::new();
    assert_eq!(bm.init(), Ok(()));
    assert_eq!(bm.allocate_block(), Ok(PLACEHOLDER_BLOCK));
    assert_eq!(bm.find_free_block(), Ok(Some(PLACEHOLDER_BLOCK)));
    assert_eq!(bm.allocate_inode_in_bitmap(), Ok(PLACEHOLDER_INODE));
    assert_eq!(bm.find_free_inode(), Ok(Some(PLACEHOLDER_INODE)));
    assert_eq!(bm.free_block(5), Ok(()));
    assert_eq!(bm.free_inode_in_bitmap(5), Ok(()));
}

#[test]
fn directory_entry_header() {
    let mut block = vec![0u8; 16];
    block[0..4].copy_from_slice(&11u32.to_le_bytes());
    block[4..6].copy_from_slice(&12u16.to_le_bytes());
    block[6] = 4;
    block[7] = 1;
    block[8..12].copy_from_slice(b"note");
    let d = dir_entry_at(&block, 0);
    assert_eq!(d.inode, 11);
    assert_eq!(d.rec_len, 12);
    assert_eq!(d.name_len, 4);
    assert_eq!(d.file_type, 1);
}

#[test]
fn blocks_of_an_extent_mapped_file() {
    let bm = BlockManager::new();
    let mut f = file_inode();
    f.i_flags = EXT2_EXTENTS_FL;
    f.i_block[0] = (2 << 16) | EXT2_EXT_MAGIC as u32;
    // Extent 0: three blocks from 100; extent 1: two blocks from 2^32 + 7.
    f.i_block[4] = 3;
    f.i_block[5] = 100;
    f.i_block[7] = (1 << 16) | 2;
    f.i_block[8] = 7;
    assert_eq!(bm.extent_read_blocks(&f), Ok(vec![100, 101, 102, 0x1_0000_0007, 0x1_0000_0008]));
    f.i_block[1] = 1 << 16;
    assert_eq!(bm.extent_read_blocks(&f), Err(FilesystemError::UnsupportedFilesystem));
    f.i_block[0] = 0;
    assert_eq!(bm.extent_read_blocks(&f), Err(FilesystemError::CorruptedFilesystem));
}

#[test]
fn content_is_taken_block_by_block() {
    let mut content = Vec::new();
    assert!(!append_block(&mut content, &[1u8; 1024], 1500));
    assert_eq!(content.len(), 1024);
    assert!(append_block(&mut content, &[2u8; 1024], 1500));
    assert_eq!(content.len(), 1500);
    assert_eq!(content[1023..1025], [1, 2]);
    let mut big = Vec::new();
    for _ in 0..7 {
        append_block(&mut big, &[3u8; 1024], 20_000);
    }
    assert!(append_block(&mut big, &[4u8; 1024], 20_000));
    assert_eq!(big.len(), MAX_FILE_CONTENT);
    assert!(append_block(&mut big, &[5u8; 1024], 20_000));
    assert_eq!(big.len(), MAX_FILE_CONTENT);
}
