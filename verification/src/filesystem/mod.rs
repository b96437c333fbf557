//! Filesystem metadata: the FAT32 and ext2 on-disk formats and the logic
//! that reads and changes them.
pub mod ext2;
pub mod fat32;

use vstd::prelude::*;

verus! {

/// Why a filesystem operation failed.
#[derive(Debug, Clone, Copy, PartialEq, Eq, Structural)]
pub enum FilesystemError {
    NotInitialized,
    NotMounted,
    DeviceError,
    IoError,
    InvalidBootSector,
    InvalidFAT,
    UnsupportedFilesystem,
    FileNotFound,
    DirectoryNotFound,
    FileAlreadyExists,
    DirectoryNotEmpty,
    IsADirectory,
    NotADirectory,
    FilenameTooLong,
    FilesystemFull,
    CorruptedFilesystem,
    NotImplemented,
    Other,
}

pub type FilesystemResult<T> = Result<T, FilesystemError>;

/// A file or directory as a filesystem lists it.
#[derive(Debug)]
pub struct FileEntry {
    /// The name's bytes (for FAT32, the 8.3 name with its dot).
    pub name: Vec<u8>,
    pub is_directory: bool,
    pub size: usize,
    /// Where the content starts: the first cluster on FAT32, the inode on ext2.
    pub inode: u64,
}

/// A copy of `v`.
pub fn copy_bytes(v: &[u8]) -> (r: Vec<u8>)
    ensures
        r@ == v@,
{
    let mut r: Vec<u8> = Vec::new();
    let mut i: usize = 0;
    while i < v.len()
        invariant
            i <= v@.len(),
            r@ == v@.take(i as int),
        decreases v@.len() - i,
    {
        r.push(v[i]);
        i = i + 1;
        assert(r@ =~= v@.take(i as int));
    }
    assert(r@ =~= v@);
    r
}

impl FileEntry {
    /// Whether `self` and `other` describe the same entry.
    pub open spec fn same_as(&self, other: &FileEntry) -> bool {
        &&& self.name@ == other.name@
        &&& self.is_directory == other.is_directory
        &&& self.size == other.size
        &&& self.inode == other.inode
    }

    pub fn duplicate(&self) -> (e: FileEntry)
        ensures
            e.same_as(self),
    {
        FileEntry { name: copy_bytes(self.name.as_slice()), is_directory: self.is_directory, size: self.size, inode: self.inode }
    }

    pub fn new_file(name: Vec<u8>, inode: u64, size: usize) -> (e: FileEntry)
        ensures
            e.name@ == name@,
            !e.is_directory,
            e.inode == inode,
            e.size == size,
    {
        FileEntry { name, is_directory: false, size, inode }
    }

    pub fn new_directory(name: Vec<u8>, inode: u64) -> (e: FileEntry)
        ensures
            e.name@ == name@,
            e.is_directory,
            e.inode == inode,
            e.size == 0,
    {
        FileEntry { name, is_directory: true, size: 0, inode }
    }
}

} // verus!
