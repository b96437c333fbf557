//! Block bookkeeping of ext2 files: which blocks hold a file's content,
//! which are released with it, and how a write changes its inode. Reading
//! and writing the blocks is the caller's part.
use vstd::prelude::*;
use super::structures::{extent_at, extent_header, Ext2Inode, EXT2_EXTENTS_FL, EXT2_EXT_MAGIC};
use crate::filesystem::{FilesystemError, FilesystemResult};

verus! {

/// Direct block pointers of an inode.
pub const DIRECT_BLOCKS: usize = 12;
/// Block numbers above this are taken as damaged and skipped.
pub const MAX_SANE_BLOCK: u32 = 1_000_000;

/// The non-zero direct block pointers of `b`, in order.
pub open spec fn used_direct_blocks(b: Seq<u32>) -> Seq<u32> {
    b.take(DIRECT_BLOCKS as int).filter(|x: u32| x != 0)
}

/// Filtering a prefix of `s` gives a prefix of the filtered longer prefix.
proof fn lemma_filter_prefix(s: Seq<u32>, i: int, n: int, f: spec_fn(u32) -> bool)
    requires
        0 <= i <= n <= s.len(),
    ensures
        s.take(i).filter(f).len() <= s.take(n).filter(f).len(),
        s.take(i).filter(f) == s.take(n).filter(f).take(s.take(i).filter(f).len() as int),
    decreases n - i,
{
    if i < n {
        lemma_filter_prefix(s, i, n - 1, f);
        assert(s.take(n).drop_last() =~= s.take(n - 1));
        reveal(Seq::filter);
        let a = s.take(n - 1).filter(f);
        let b = s.take(n).filter(f);
        if f(s[n - 1]) {
            assert(b == a.push(s[n - 1]));
        } else {
            assert(b == a);
        }
        assert(b.take(s.take(i).filter(f).len() as int) =~= a.take(s.take(i).filter(f).len() as int));
    } else {
        assert(s.take(n).filter(f).take(s.take(n).filter(f).len() as int) =~= s.take(n).filter(f));
    }
}

/// How many bytes of a file to read: its size, or one block when the size
/// is zero but a block is allocated; `None` for a truly empty file.
pub open spec fn content_size(inode: Ext2Inode, file_size: int, block_size: int) -> Option<int> {
    if file_size == 0 && inode.i_blocks_lo > 0 && inode.i_block@[0] != 0 {
        Some(block_size)
    } else if file_size == 0 {
        None
    } else {
        Some(file_size)
    }
}

/// Most bytes of a file's content read at once.
pub const MAX_FILE_CONTENT: usize = 8192;
/// Extents that fit after the header in an inode's block pointers.
pub const INLINE_EXTENTS: usize = 4;

/// First physical block of leaf extent `i` of `b`.
pub open spec fn extent_start(b: Seq<u32>, i: int) -> int {
    (b[4 + 3 * i] / 0x1_0000) as int * 0x1_0000_0000 + b[5 + 3 * i]
}

/// Number of blocks of leaf extent `i` of `b`.
pub open spec fn extent_len(b: Seq<u32>, i: int) -> int {
    (b[4 + 3 * i] % 0x1_0000) as int
}

/// The physical blocks of the first `n` leaf extents of `b`, extent after
/// extent, block after block.
pub open spec fn extent_blocks(b: Seq<u32>, n: int) -> Seq<u64>
    decreases n,
{
    if n <= 0 {
        Seq::empty()
    } else {
        extent_blocks(b, n - 1) + Seq::new(extent_len(b, n - 1) as nat, |j: int| (extent_start(b, n - 1) + j) as u64)
    }
}

/// What the `i`-th direct pointer means while reading a file.
#[derive(Debug, Clone, Copy, PartialEq, Eq, Structural)]
pub enum DirectBlock {
    /// The file's blocks end here.
    End,
    /// A damaged pointer, passed over.
    Skip,
    /// Read this block.
    Read(u32),
}

pub struct BlockManager {}

impl BlockManager {
    pub fn new() -> (b: Self) {
        BlockManager {}
    }

    pub fn init(&mut self) -> (r: FilesystemResult<()>)
        ensures
            r is Ok,
    {
        Ok(())
    }

    /// How many bytes reading `inode`'s content asks for (see `content_size`).
    pub fn content_size(&self, inode: &Ext2Inode, file_size: usize, block_size: usize) -> (r: Option<usize>)
        ensures
            r == match content_size(*inode, file_size as int, block_size as int) {
                Some(n) => Some(n as usize),
                None => None::<usize>,
            },
    {
        if file_size == 0 && inode.i_blocks_lo > 0 && inode.i_block[0] != 0 {
            Some(block_size)
        } else if file_size == 0 {
            None
        } else {
            Some(file_size)
        }
    }

    /// The `i`-th direct pointer as the reader treats it: zero ends the
    /// file, a pointer past `MAX_SANE_BLOCK` is skipped.
    pub fn direct_block(&self, inode: &Ext2Inode, i: usize) -> (r: DirectBlock)
        requires
            i < DIRECT_BLOCKS,
        ensures
            inode.i_block@[i as int] == 0 ==> r == DirectBlock::End,
            inode.i_block@[i as int] > MAX_SANE_BLOCK ==> r == DirectBlock::Skip,
            inode.i_block@[i as int] != 0 && inode.i_block@[i as int] <= MAX_SANE_BLOCK ==> r == DirectBlock::Read(inode.i_block@[i as int]),
    {
        let b = inode.i_block[i];
        if b == 0 {
            DirectBlock::End
        } else if b > MAX_SANE_BLOCK {
            DirectBlock::Skip
        } else {
            DirectBlock::Read(b)
        }
    }

    /// Checks that `inode`'s extent tree is one this driver reads: a valid
    /// header and leaves only; gives the number of extents.
    pub fn extent_count(&self, inode: &Ext2Inode) -> (r: FilesystemResult<u16>)
        ensures
            inode.i_block@[0] % 0x1_0000 != EXT2_EXT_MAGIC ==> r == Err::<u16, FilesystemError>(FilesystemError::CorruptedFilesystem),
            inode.i_block@[0] % 0x1_0000 == EXT2_EXT_MAGIC && inode.i_block@[1] / 0x1_0000 != 0
                ==> r == Err::<u16, FilesystemError>(FilesystemError::UnsupportedFilesystem),
            inode.i_block@[0] % 0x1_0000 == EXT2_EXT_MAGIC && inode.i_block@[1] / 0x1_0000 == 0
                ==> r == Ok::<u16, FilesystemError>((inode.i_block@[0] / 0x1_0000) as u16),
    {
        let header = extent_header(&inode.i_block);
        if header.eh_magic != EXT2_EXT_MAGIC {
            return Err(FilesystemError::CorruptedFilesystem);
        }
        if header.eh_depth != 0 {
            return Err(FilesystemError::UnsupportedFilesystem);
        }
        Ok(header.eh_entries)
    }

    /// The blocks that hold the content of an extent-mapped file, in file
    /// order: the extent tree must be valid and a single leaf (see
    /// `extent_count`); of its extents, those that fit in the inode are read.
    pub fn extent_read_blocks(&self, inode: &Ext2Inode) -> (r: FilesystemResult<Vec<u64>>)
        ensures
            inode.i_block@[0] % 0x1_0000 != EXT2_EXT_MAGIC ==> r == Err::<Vec<u64>, FilesystemError>(FilesystemError::CorruptedFilesystem),
            inode.i_block@[0] % 0x1_0000 == EXT2_EXT_MAGIC && inode.i_block@[1] / 0x1_0000 != 0
                ==> r == Err::<Vec<u64>, FilesystemError>(FilesystemError::UnsupportedFilesystem),
            inode.i_block@[0] % 0x1_0000 == EXT2_EXT_MAGIC && inode.i_block@[1] / 0x1_0000 == 0 ==> (r matches Ok(v)
                && v@ == extent_blocks(inode.i_block@, if inode.i_block@[0] / 0x1_0000 < INLINE_EXTENTS {
                    (inode.i_block@[0] / 0x1_0000) as int
                } else {
                    INLINE_EXTENTS as int
                })),
    {
        let entries = match self.extent_count(inode) {
            Ok(n) => n,
            Err(e) => {
                return Err(e);
            },
        };
        let n: usize = if (entries as usize) < INLINE_EXTENTS { entries as usize } else { INLINE_EXTENTS };
        let mut blocks: Vec<u64> = Vec::new();
        let mut i: usize = 0;
        while i < n
            invariant
                n <= INLINE_EXTENTS,
                inode.i_block@.len() == 15,
                i <= n,
                blocks@ == extent_blocks(inode.i_block@, i as int),
            decreases n - i,
        {
            let e = extent_at(&inode.i_block, i);
            let start = e.get_start_block();
            let len = e.ee_len;
            let ghost before = blocks@;
            let mut j: u16 = 0;
            while j < len
                invariant
                    len == extent_len(inode.i_block@, i as int),
                    start == extent_start(inode.i_block@, i as int),
                    start < 0x1_0000_0000_0000,
                    j <= len,
                    blocks@ == before + Seq::new(j as nat, |k: int| (extent_start(inode.i_block@, i as int) + k) as u64),
                decreases len - j,
            {
                blocks.push(start + j as u64);
                j = j + 1;
                assert(blocks@ =~= before + Seq::new(j as nat, |k: int| (extent_start(inode.i_block@, i as int) + k) as u64));
            }
            i = i + 1;
        }
        Ok(blocks)
    }

    /// Frees the blocks of `inode` with `free_block`: its non-zero direct
    /// pointers, in order (indirect blocks are not handled). The first error
    /// stops the walk and is answered. Gives the blocks handed to
    /// `free_block` and the outcome.
    pub fn free_inode_blocks<F: Fn(u32) -> FilesystemResult<()>>(&self, inode: &Ext2Inode, free_block: F) -> (r: (
        Vec<u32>,
        FilesystemResult<()>,
    ))
        requires
            forall|b: u32| free_block.requires((b,)),
        ensures
            ({
                let used = used_direct_blocks(inode.i_block@);
                let (tried, res) = r;
                &&& tried@.len() <= used.len()
                &&& tried@ == used.take(tried@.len() as int)
                &&& res is Ok ==> tried@ == used
                &&& forall|k: int| 0 <= k < tried@.len() && (res is Ok || k < tried@.len() - 1)
                    ==> call_ensures(free_block, (#[trigger] tried@[k],), Ok::<(), FilesystemError>(()))
                &&& res matches Err(e) ==> tried@.len() > 0 && call_ensures(
                    free_block,
                    (tried@.last(),),
                    Err::<(), FilesystemError>(e),
                )
            }),
    {
        let ghost f = |x: u32| x != 0;
        let ghost used = used_direct_blocks(inode.i_block@);
        let mut tried: Vec<u32> = Vec::new();
        let mut i: usize = 0;
        proof {
            reveal(Seq::filter);
        }
        while i < DIRECT_BLOCKS
            invariant
                i <= DIRECT_BLOCKS,
                inode.i_block@.len() == 15,
                f == (|x: u32| x != 0),
                used == inode.i_block@.take(DIRECT_BLOCKS as int).filter(f),
                forall|b: u32| free_block.requires((b,)),
                tried@ == inode.i_block@.take(i as int).filter(f),
                forall|k: int| 0 <= k < tried@.len() ==> call_ensures(free_block, (#[trigger] tried@[k],), Ok::<(), FilesystemError>(())),
            decreases DIRECT_BLOCKS - i,
        {
            let b = inode.i_block[i];
            proof {
                reveal(Seq::filter);
                assert(inode.i_block@.take(i + 1).drop_last() =~= inode.i_block@.take(i as int));
                assert(inode.i_block@.take(i + 1).last() == b);
            }
            if b != 0 {
                let ghost before = tried@;
                tried.push(b);
                let res = free_block(b);
                if let Err(e) = res {
                    proof {
                        lemma_filter_prefix(inode.i_block@, i as int + 1, DIRECT_BLOCKS as int, f);
                    }
                    return (tried, Err(e));
                }
                proof {
                    assert(res is Ok);
                    let u: () = res->Ok_0;
                    assert(u == ());
                    assert(res == Ok::<(), FilesystemError>(()));
                    assert forall|k: int| 0 <= k < tried@.len() implies call_ensures(
                        free_block,
                        (#[trigger] tried@[k],),
                        Ok::<(), FilesystemError>(()),
                    ) by {
                        if k < before.len() {
                            assert(tried@[k] == before[k]);
                        } else {
                            assert(tried@[k] == b);
                        }
                    }
                }
            }
            i = i + 1;
        }
        proof {
            assert(inode.i_block@.take(DIRECT_BLOCKS as int) =~= inode.i_block@.take(i as int));
        }
        (tried, Ok(()))
    }

    /// Sets the file's size to `new_size`; its blocks are kept.
    pub fn truncate_file(&self, inode: &mut Ext2Inode, new_size: u64) -> (r: FilesystemResult<()>)
        ensures
            r is Ok,
            final(inode).size() == new_size,
            final(inode).i_block == old(inode).i_block,
            final(inode).i_flags == old(inode).i_flags,
            final(inode).i_mode == old(inode).i_mode,
    {
        inode.set_size(new_size);
        Ok(())
    }

    /// Checks a write of `data_len` bytes at `offset` into `inode`: only
    /// writes at offset 0 of block-mapped files are supported. `Ok(false)`:
    /// nothing to write.
    pub fn check_write(&self, inode: &Ext2Inode, offset: u64, data_len: usize) -> (r: FilesystemResult<bool>)
        ensures
            data_len == 0 ==> r == Ok::<bool, FilesystemError>(false),
            data_len > 0 && offset != 0 ==> r == Err::<bool, FilesystemError>(FilesystemError::NotImplemented),
            data_len > 0 && offset == 0 && inode.i_flags & EXT2_EXTENTS_FL != 0 ==> r == Err::<bool, FilesystemError>(FilesystemError::NotImplemented),
            data_len > 0 && offset == 0 && inode.i_flags & EXT2_EXTENTS_FL == 0 ==> r == Ok::<bool, FilesystemError>(true),
    {
        if data_len == 0 {
            return Ok(false);
        }
        if offset != 0 {
            return Err(FilesystemError::NotImplemented);
        }
        if inode.uses_extents() {
            return Err(FilesystemError::NotImplemented);
        }
        Ok(true)
    }

    /// Records a write of `written` bytes into the file's first block
    /// `first_block` (newly allocated when it had none): the pointer is set
    /// and the size becomes the bytes written.
    pub fn record_write(&self, inode: &mut Ext2Inode, first_block: u32, written: usize)
        ensures
            final(inode).i_block@ == old(inode).i_block@.update(0, first_block),
            final(inode).size() == written,
            final(inode).i_flags == old(inode).i_flags,
            final(inode).i_mode == old(inode).i_mode,
    {
        inode.i_block[0] = first_block;
        inode.set_size(written as u64);
    }
}

/// Appends the part of a block read for a file to its content: no more than
/// the `wanted` bytes in all, nor more than `MAX_FILE_CONTENT`; gives
/// whether the content is complete (it holds `wanted` bytes or is full).
pub fn append_block(content: &mut Vec<u8>, block: &[u8], wanted: usize) -> (done: bool)
    requires
        old(content)@.len() <= wanted,
        old(content)@.len() <= MAX_FILE_CONTENT,
    ensures
        ({
            let have = old(content)@.len() as int;
            let room = if wanted < MAX_FILE_CONTENT { wanted - have } else { MAX_FILE_CONTENT - have };
            let k = if (block@.len() as int) < room { block@.len() as int } else { room };
            &&& final(content)@ == old(content)@ + block@.take(k)
            &&& done == (final(content)@.len() == wanted || final(content)@.len() == MAX_FILE_CONTENT)
        }),
{
    let limit = if wanted < MAX_FILE_CONTENT { wanted } else { MAX_FILE_CONTENT };
    let room = limit - content.len();
    let k = if block.len() < room { block.len() } else { room };
    let ghost before = content@;
    let mut i: usize = 0;
    while i < k
        invariant
            k <= block@.len(),
            i <= k,
            content@ == before + block@.take(i as int),
        decreases k - i,
    {
        content.push(block[i]);
        i = i + 1;
        assert(content@ =~= before + block@.take(i as int));
    }
    content.len() == wanted || content.len() == MAX_FILE_CONTENT
}

} // verus!
