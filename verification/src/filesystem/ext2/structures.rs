//! The ext2 on-disk records the driver reads: superblock, group descriptor,
//! inode, directory entry and extents.
use vstd::prelude::*;
use crate::elf::bytes::{le_u16, le_u32, read_le_u16, read_le_u32};

verus! {

pub const SECTOR_SIZE: usize = 512;
pub const EXT2_SUPERBLOCK_OFFSET: usize = 1024;
pub const EXT2_MAGIC: u16 = 0xEF53;
pub const EXT2_ROOT_INODE: u32 = 2;
pub const EXT2_FT_REG_FILE: u8 = 1;
pub const EXT2_FT_DIR: u8 = 2;
pub const EXT2_EXTENTS_FL: u32 = 0x0008_0000;
pub const EXT2_EXT_MAGIC: u16 = 0xF30A;
/// File-type bits of `i_mode`.
pub const S_IFMT: u16 = 0o170000;
pub const S_IFDIR: u16 = 0o040000;
pub const S_IFREG: u16 = 0o100000;

/// The superblock fields the driver uses.
#[derive(Debug, Clone, Copy, PartialEq, Eq, Structural)]
pub struct Ext2Superblock {
    pub s_inodes_count: u32,
    pub s_blocks_count_lo: u32,
    pub s_r_blocks_count_lo: u32,
    pub s_free_blocks_count_lo: u32,
    pub s_free_inodes_count: u32,
    pub s_first_data_block: u32,
    pub s_log_block_size: u32,
    pub s_log_cluster_size: u32,
    pub s_blocks_per_group: u32,
    pub s_clusters_per_group: u32,
    pub s_inodes_per_group: u32,
    pub s_mtime: u32,
    pub s_wtime: u32,
    pub s_mnt_count: u16,
    pub s_max_mnt_count: u16,
    pub s_magic: u16,
    pub s_state: u16,
    pub s_errors: u16,
    pub s_minor_rev_level: u16,
    pub s_lastcheck: u32,
    pub s_checkinterval: u32,
    pub s_creator_os: u32,
    pub s_rev_level: u32,
    pub s_def_resuid: u16,
    pub s_def_resgid: u16,
    pub s_first_ino: u32,
    pub s_inode_size: u16,
    pub s_block_group_nr: u16,
}

/// A block group descriptor.
#[derive(Debug, Clone, Copy, PartialEq, Eq, Structural)]
pub struct Ext2GroupDesc {
    pub bg_block_bitmap_lo: u32,
    pub bg_inode_bitmap_lo: u32,
    pub bg_inode_table_lo: u32,
    pub bg_free_blocks_count_lo: u16,
    pub bg_free_inodes_count_lo: u16,
    pub bg_used_dirs_count_lo: u16,
    pub bg_flags: u16,
}

/// An inode's fixed fields.
#[derive(Debug, Clone, Copy)]
pub struct Ext2Inode {
    pub i_mode: u16,
    pub i_uid: u16,
    pub i_size_lo: u32,
    pub i_atime: u32,
    pub i_ctime: u32,
    pub i_mtime: u32,
    pub i_dtime: u32,
    pub i_gid: u16,
    pub i_links_count: u16,
    pub i_blocks_lo: u32,
    pub i_flags: u32,
    pub i_osd1: u32,
    /// Block pointers, or an extent tree.
    pub i_block: [u32; 15],
    pub i_generation: u32,
    pub i_file_acl_lo: u32,
    pub i_size_high: u32,
}

/// The fixed part of a directory entry; the name follows it on disk.
#[derive(Debug, Clone, Copy, PartialEq, Eq, Structural)]
pub struct Ext2DirEntry {
    pub inode: u32,
    pub rec_len: u16,
    pub name_len: u8,
    pub file_type: u8,
}

/// The header of an extent node.
#[derive(Debug, Clone, Copy, PartialEq, Eq, Structural)]
pub struct Ext2ExtentHeader {
    pub eh_magic: u16,
    pub eh_entries: u16,
    pub eh_max: u16,
    pub eh_depth: u16,
    pub eh_generation: u32,
}

/// A leaf extent: `ee_len` blocks from logical block `ee_block`.
#[derive(Debug, Clone, Copy, PartialEq, Eq, Structural)]
pub struct Ext2Extent {
    pub ee_block: u32,
    pub ee_len: u16,
    pub ee_start_hi: u16,
    pub ee_start_lo: u32,
}

impl Ext2Inode {
    /// The size the inode records: high word and low word.
    pub open spec fn size(&self) -> int {
        self.i_size_high * 0x1_0000_0000 + self.i_size_lo
    }

    /// A fresh inode: no size, no blocks, generation 1, the given mode,
    /// owner, links and flags.
    pub fn new(mode: u16, uid: u16, gid: u16, links_count: u16, flags: u32) -> (i: Self)
        ensures
            i.i_mode == mode,
            i.i_uid == uid,
            i.i_gid == gid,
            i.i_links_count == links_count,
            i.i_flags == flags,
            i.i_size_lo == 0 && i.i_size_high == 0,
            i.i_atime == 0 && i.i_ctime == 0 && i.i_mtime == 0 && i.i_dtime == 0,
            i.i_blocks_lo == 0,
            i.i_osd1 == 0,
            forall|k: int| 0 <= k < 15 ==> i.i_block@[k] == 0,
            i.i_generation == 1,
            i.i_file_acl_lo == 0,
    {
        Ext2Inode {
            i_mode: mode,
            i_uid: uid,
            i_size_lo: 0,
            i_atime: 0,
            i_ctime: 0,
            i_mtime: 0,
            i_dtime: 0,
            i_gid: gid,
            i_links_count: links_count,
            i_blocks_lo: 0,
            i_flags: flags,
            i_osd1: 0,
            i_block: [0u32; 15],
            i_generation: 1,
            i_file_acl_lo: 0,
            i_size_high: 0,
        }
    }

    pub fn is_directory(&self) -> (b: bool)
        ensures
            b == (self.i_mode & S_IFMT == S_IFDIR),
    {
        (self.i_mode & S_IFMT) == S_IFDIR
    }

    pub fn is_regular_file(&self) -> (b: bool)
        ensures
            b == (self.i_mode & S_IFMT == S_IFREG),
    {
        (self.i_mode & S_IFMT) == S_IFREG
    }

    pub fn get_size(&self) -> (s: u64)
        ensures
            s == self.size(),
    {
        let hi = self.i_size_high as u64;
        let lo = self.i_size_lo as u64;
        assert((hi << 32) | lo == hi * 0x1_0000_0000 + lo) by (bit_vector)
            requires
                hi < 0x1_0000_0000,
                lo < 0x1_0000_0000,
        ;
        (hi << 32) | lo
    }

    /// Splits `size` into the low and high words; every other field stays.
    pub fn set_size(&mut self, size: u64)
        ensures
            final(self).size() == size,
            final(self).i_size_lo == size % 0x1_0000_0000,
            final(self).i_size_high == size / 0x1_0000_0000,
            *final(self) == (Ext2Inode { i_size_lo: final(self).i_size_lo, i_size_high: final(self).i_size_high, ..*old(self) }),
    {
        let lo = (size & 0xffff_ffff) as u32;
        let hi = (size >> 32) as u32;
        assert(hi * 0x1_0000_0000 + lo == size && lo == size % 0x1_0000_0000 && hi == size / 0x1_0000_0000) by (bit_vector)
            requires
                lo == (size & 0xffff_ffff) as u32,
                hi == (size >> 32) as u32,
        ;
        self.i_size_lo = lo;
        self.i_size_high = hi;
    }

    pub fn uses_extents(&self) -> (b: bool)
        ensures
            b == (self.i_flags & EXT2_EXTENTS_FL != 0),
    {
        (self.i_flags & EXT2_EXTENTS_FL) != 0
    }
}

impl Ext2Extent {
    /// The first physical block: high half-word and low word.
    pub open spec fn start_block(&self) -> int {
        self.ee_start_hi * 0x1_0000_0000 + self.ee_start_lo
    }

    pub fn get_start_block(&self) -> (b: u64)
        ensures
            b == self.start_block(),
    {
        let hi = self.ee_start_hi as u64;
        let lo = self.ee_start_lo as u64;
        assert((hi << 32) | lo == hi * 0x1_0000_0000 + lo) by (bit_vector)
            requires
                hi < 0x1_0000,
                lo < 0x1_0000_0000,
        ;
        (hi << 32) | lo
    }

    /// Stores `block`: its low word and the next 16 bits (the rest is lost).
    pub fn set_start_block(&mut self, block: u64)
        ensures
            final(self).start_block() == block % 0x1_0000_0000_0000,
            final(self).ee_block == old(self).ee_block,
            final(self).ee_len == old(self).ee_len,
    {
        let lo = (block & 0xffff_ffff) as u32;
        let hi = ((block >> 32) & 0xffff) as u16;
        assert(hi * 0x1_0000_0000 + lo == block % 0x1_0000_0000_0000) by (bit_vector)
            requires
                lo == (block & 0xffff_ffff) as u32,
                hi == ((block >> 32) & 0xffff) as u16,
        ;
        self.ee_start_lo = lo;
        self.ee_start_hi = hi;
    }
}

/// The extent header stored at the start of `i_block`.
pub fn extent_header(i_block: &[u32; 15]) -> (h: Ext2ExtentHeader)
    ensures
        h.eh_magic == i_block@[0] % 0x1_0000,
        h.eh_entries == i_block@[0] / 0x1_0000,
        h.eh_max == i_block@[1] % 0x1_0000,
        h.eh_depth == i_block@[1] / 0x1_0000,
        h.eh_generation == i_block@[2],
{
    let w0 = i_block[0];
    let w1 = i_block[1];
    Ext2ExtentHeader {
        eh_magic: (w0 % 0x1_0000) as u16,
        eh_entries: (w0 / 0x1_0000) as u16,
        eh_max: (w1 % 0x1_0000) as u16,
        eh_depth: (w1 / 0x1_0000) as u16,
        eh_generation: i_block[2],
    }
}

/// Leaf extent `i` after the header in `i_block` (three words each, from
/// word 3).
pub fn extent_at(i_block: &[u32; 15], i: usize) -> (e: Ext2Extent)
    requires
        i < 4,
    ensures
        e.ee_block == i_block@[3 + 3 * i],
        e.ee_len == i_block@[4 + 3 * i] % 0x1_0000,
        e.ee_start_hi == i_block@[4 + 3 * i] / 0x1_0000,
        e.ee_start_lo == i_block@[5 + 3 * i],
{
    let w = i_block[4 + 3 * i];
    Ext2Extent {
        ee_block: i_block[3 + 3 * i],
        ee_len: (w % 0x1_0000) as u16,
        ee_start_hi: (w / 0x1_0000) as u16,
        ee_start_lo: i_block[5 + 3 * i],
    }
}

/// The directory entry header at `off` of a directory block.
pub fn dir_entry_at(block: &[u8], off: usize) -> (d: Ext2DirEntry)
    requires
        off + 8 <= block@.len(),
    ensures
        d.inode == le_u32(block@, off as int),
        d.rec_len == le_u16(block@, off + 4),
        d.name_len == block@[off + 6],
        d.file_type == block@[off + 7],
{
    let _n = block.len();
    Ext2DirEntry {
        inode: read_le_u32(block, off),
        rec_len: read_le_u16(block, off + 4),
        name_len: block[off + 6],
        file_type: block[off + 7],
    }
}

} // verus!
