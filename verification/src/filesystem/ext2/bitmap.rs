//! Block and inode bitmap bookkeeping of ext2. The driver does not track
//! the bitmaps yet: every request is granted with a fixed block or inode.
use vstd::prelude::*;
use crate::filesystem::FilesystemResult;

verus! {

/// The block handed out for every block request.
pub const PLACEHOLDER_BLOCK: u32 = 100;
/// The inode handed out for every inode request.
pub const PLACEHOLDER_INODE: u32 = 12;

pub struct BitmapManager {}

impl BitmapManager {
    pub fn new() -> (b: Self) {
        BitmapManager {}
    }

    pub fn init(&mut self) -> (r: FilesystemResult<()>)
        ensures
            r is Ok,
    {
        Ok(())
    }

    pub fn find_free_block(&self) -> (r: FilesystemResult<Option<u32>>)
        ensures
            r == Ok::<Option<u32>, crate::filesystem::FilesystemError>(Some(PLACEHOLDER_BLOCK)),
    {
        Ok(Some(PLACEHOLDER_BLOCK))
    }

    pub fn allocate_block(&self) -> (r: FilesystemResult<u32>)
        ensures
            r == Ok::<u32, crate::filesystem::FilesystemError>(PLACEHOLDER_BLOCK),
    {
        Ok(PLACEHOLDER_BLOCK)
    }

    pub fn free_block(&self, block_num: u32) -> (r: FilesystemResult<()>)
        ensures
            r is Ok,
    {
        Ok(())
    }

    pub fn find_free_inode(&self) -> (r: FilesystemResult<Option<u32>>)
        ensures
            r == Ok::<Option<u32>, crate::filesystem::FilesystemError>(Some(PLACEHOLDER_INODE)),
    {
        Ok(Some(PLACEHOLDER_INODE))
    }

    pub fn allocate_inode_in_bitmap(&self) -> (r: FilesystemResult<u32>)
        ensures
            r == Ok::<u32, crate::filesystem::FilesystemError>(PLACEHOLDER_INODE),
    {
        Ok(PLACEHOLDER_INODE)
    }

    pub fn free_inode_in_bitmap(&self, inode_num: u32) -> (r: FilesystemResult<()>)
        ensures
            r is Ok,
    {
        Ok(())
    }
}

} // verus!
