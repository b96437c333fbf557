//! The file allocation table, held in memory: reading and writing entries,
//! finding and allocating free clusters, and freeing cluster chains.
use vstd::prelude::*;
use super::boot::{Fat32Geometry, SECTOR_SIZE};
use crate::filesystem::{FilesystemError, FilesystemResult};

verus! {

/// FAT32 entries use the low 28 bits.
pub const FAT_ENTRY_MASK: u32 = 0x0FFF_FFFF;
/// Entries from here up mark the end of a chain.
pub const FAT_EOC_MIN: u32 = 0x0FFF_FFF8;
/// The end-of-chain mark this driver writes.
pub const FAT_EOC: u32 = 0x0FFF_FFFF;
/// A cluster marked bad.
pub const FAT_BAD: u32 = 0x0FFF_FFF7;

/// The sector holding the FAT entry of `c`.
pub open spec fn entry_sector(g: Fat32Geometry, c: int) -> int {
    g.first_fat_sector + (c * 4) / (g.bytes_per_sector as int)
}

/// The entries that FAT sector `sector` holds (at or after the first FAT
/// sector), as a range `(first, end)` of entry indices of a table of `len`
/// entries: a sector holds `bytes_per_sector / 4` entries.
pub open spec fn sector_span(g: Fat32Geometry, len: int, sector: int) -> (int, int) {
    let first = (sector - g.first_fat_sector) * (g.bytes_per_sector as int) / 4;
    let end = first + (g.bytes_per_sector as int) / 4;
    (first, if end < len { end } else { len })
}

/// The FAT entry of cluster `c` as read from table `s`.
pub open spec fn fat_read(g: Fat32Geometry, s: Seq<u32>, c: int) -> FilesystemResult<u32> {
    if c >= g.total_data_clusters + 2 || entry_sector(g, c) >= g.first_fat_sector + g.sectors_per_fat {
        Err(FilesystemError::InvalidFAT)
    } else if g.bytes_per_sector != SECTOR_SIZE {
        Err(FilesystemError::DeviceError)
    } else {
        Ok(s[c] & FAT_ENTRY_MASK)
    }
}

/// Table `s` after writing `v` into the entry of cluster `c`, or why not.
pub open spec fn fat_write(g: Fat32Geometry, s: Seq<u32>, c: int, v: u32) -> FilesystemResult<Seq<u32>> {
    if c >= g.total_data_clusters + 2 || entry_sector(g, c) >= g.first_fat_sector + g.sectors_per_fat {
        Err(FilesystemError::InvalidFAT)
    } else if g.bytes_per_sector != SECTOR_SIZE {
        Err(FilesystemError::DeviceError)
    } else {
        Ok(s.update(c, v & FAT_ENTRY_MASK))
    }
}

/// Whether an entry value ends a chain when freeing it: end of chain, free,
/// or bad.
pub open spec fn ends_chain(v: u32) -> bool {
    v >= FAT_EOC_MIN || v == 0 || v == FAT_BAD
}

/// Whether `v` names a data cluster of the volume.
pub open spec fn is_data_cluster(g: Fat32Geometry, v: int) -> bool {
    2 <= v < g.total_data_clusters + 2
}

/// Number of non-zero entries of `s`.
pub open spec fn count_used(s: Seq<u32>) -> nat
    decreases s.len(),
{
    if s.len() == 0 {
        0
    } else {
        count_used(s.drop_last()) + if s.last() != 0 { 1nat } else { 0nat }
    }
}

proof fn lemma_count_used_bound(s: Seq<u32>)
    ensures
        count_used(s) <= s.len(),
    decreases s.len(),
{
    if s.len() > 0 {
        lemma_count_used_bound(s.drop_last());
    }
}

proof fn lemma_count_used_clear(s: Seq<u32>, i: int)
    requires
        0 <= i < s.len(),
        s[i] != 0,
    ensures
        count_used(s.update(i, 0)) + 1 == count_used(s),
    decreases s.len(),
{
    if i < s.len() - 1 {
        assert(s.update(i, 0).drop_last() == s.drop_last().update(i, 0));
        lemma_count_used_clear(s.drop_last(), i);
    } else {
        assert(s.update(i, 0).drop_last() == s.drop_last());
    }
}

/// Freeing the chain that starts at `c` in table `s`, with `fuel` steps at
/// most: each cluster is read, set free, and followed until an entry ends
/// the chain. A link out of the volume is corruption.
pub open spec fn free_chain(g: Fat32Geometry, s: Seq<u32>, c: int, fuel: nat) -> (FilesystemResult<()>, Seq<u32>)
    decreases fuel,
{
    if fuel == 0 {
        (Ok(()), s)
    } else {
        match fat_read(g, s, c) {
            Err(e) => (Err(e), s),
            Ok(next) => {
                let s2 = s.update(c, 0);
                if ends_chain(next) {
                    (Ok(()), s2)
                } else if !is_data_cluster(g, next as int) {
                    (Err(FilesystemError::CorruptedFilesystem), s2)
                } else {
                    free_chain(g, s2, next as int, (fuel - 1) as nat)
                }
            },
        }
    }
}

/// The first cluster of `[c, hi)` whose entry is free, scanning upwards; a
/// failed read on the way ends the scan.
pub open spec fn scan_free(g: Fat32Geometry, s: Seq<u32>, c: int, hi: int) -> FilesystemResult<Option<u32>>
    decreases hi - c,
{
    if c >= hi {
        Ok(None)
    } else {
        match fat_read(g, s, c) {
            Err(e) => Err(e),
            Ok(v) => if v == 0 {
                Ok(Some(c as u32))
            } else {
                scan_free(g, s, c + 1, hi)
            },
        }
    }
}

/// Where the search for a free cluster starts: the hint, but at least 2.
pub open spec fn search_start(hint: Option<u32>) -> int {
    match hint {
        Some(h) => if h < 2 { 2 } else { h as int },
        None => 2,
    }
}

/// The cluster `find_free_cluster` gives for `hint`: the first free one from
/// the hint (at least 2) to the end, then, for a hint above 2, from 2 up to it.
pub open spec fn find_free(g: Fat32Geometry, s: Seq<u32>, hint: Option<u32>) -> FilesystemResult<u32> {
    let start = search_start(hint);
    let end: int = g.total_data_clusters + 2;
    match scan_free(g, s, start, end) {
        Err(e) => Err(e),
        Ok(Some(c)) => Ok(c),
        Ok(None) => if hint is Some && start > 2 {
            match scan_free(g, s, 2, start) {
                Err(e) => Err(e),
                Ok(Some(c)) => Ok(c),
                Ok(None) => Err(FilesystemError::FilesystemFull),
            }
        } else {
            Err(FilesystemError::FilesystemFull)
        },
    }
}

/// Allocating a cluster after `prev` (if any): the cluster `find_free` gives
/// is marked end of chain, then `prev` is linked to it. Gives the result and
/// the table after.
pub open spec fn allocate(g: Fat32Geometry, s: Seq<u32>, prev: Option<u32>) -> (FilesystemResult<u32>, Seq<u32>) {
    match find_free(g, s, prev) {
        Err(e) => (Err(e), s),
        Ok(c) => match fat_write(g, s, c as int, FAT_EOC) {
            Err(e) => (Err(e), s),
            Ok(s1) => match prev {
                None => (Ok(c), s1),
                Some(p) => match fat_write(g, s1, p as int, c) {
                    Err(e) => (Err(e), s1),
                    Ok(s2) => (Ok(c), s2),
                },
            },
        },
    }
}

proof fn lemma_scan_free_found(g: Fat32Geometry, s: Seq<u32>, lo: int, hi: int)
    requires
        0 <= lo,
        hi <= u32::MAX,
        scan_free(g, s, lo, hi) matches Ok(Some(c)),
    ensures
        scan_free(g, s, lo, hi) matches Ok(Some(c)) && lo <= c < hi && fat_read(g, s, c as int) == Ok::<u32, FilesystemError>(0),
    decreases hi - lo,
{
    if lo < hi {
        match fat_read(g, s, lo) {
            Err(e) => {},
            Ok(v) => {
                if v != 0 {
                    lemma_scan_free_found(g, s, lo + 1, hi);
                }
            },
        }
    }
}

/// Allocation takes a cluster that was free and makes it the end of the
/// chain; with a previous cluster, that one now links to it; no other
/// entry changes. (A FAT32 entry keeps 28 bits, so the link reads back as
/// the cluster number on any volume of fewer than 2^28 clusters.)
pub proof fn law_allocate_links(g: Fat32Geometry, s: Seq<u32>, prev: Option<u32>)
    requires
        s.len() >= g.total_data_clusters + 2,
        (g.total_data_clusters + 2) * 4 <= u32::MAX,
        allocate(g, s, prev).0 is Ok,
        prev matches Some(p) ==> fat_read(g, s, p as int) matches Ok(v) && v != 0,
    ensures
        ({
            let (r, s2) = allocate(g, s, prev);
            let c = r->Ok_0;
            &&& is_data_cluster(g, c as int)
            &&& fat_read(g, s, c as int) == Ok::<u32, FilesystemError>(0)
            &&& fat_read(g, s2, c as int) == Ok::<u32, FilesystemError>(FAT_EOC)
            &&& prev matches Some(p) ==> p != c && fat_read(g, s2, p as int) == Ok::<u32, FilesystemError>(
                c & FAT_ENTRY_MASK,
            )
            &&& s2.len() == s.len()
            &&& forall|i: int| 0 <= i < s.len() && i != c && (prev is None || i != prev->0) ==> s2[i] == s[i]
        }),
{
    let start = search_start(prev);
    let end: int = g.total_data_clusters + 2;
    let c = find_free(g, s, prev)->Ok_0;
    match scan_free(g, s, start, end) {
        Ok(Some(x)) => {
            lemma_scan_free_found(g, s, start, end);
        },
        _ => {
            lemma_scan_free_found(g, s, 2, start);
        },
    }
    assert(fat_read(g, s, c as int) == Ok::<u32, FilesystemError>(0));
    let v: u32 = FAT_EOC;
    assert((v & FAT_ENTRY_MASK) & FAT_ENTRY_MASK == FAT_EOC) by (bit_vector)
        requires
            v == FAT_EOC,
    ;
    assert((c & FAT_ENTRY_MASK) & FAT_ENTRY_MASK == c & FAT_ENTRY_MASK) by (bit_vector);
}

/// The table `free_cluster_chain` leaves, and what it returns.
pub open spec fn free_cluster_chain_result(g: Fat32Geometry, s: Seq<u32>, start: u32) -> (FilesystemResult<()>, Seq<u32>) {
    if !is_data_cluster(g, start as int) {
        (Err(FilesystemError::InvalidFAT), s)
    } else {
        free_chain(g, s, start as int, (s.len() + 1) as nat)
    }
}

/// A FAT entry reads back what was written into it (its low 28 bits), and
/// writing one entry leaves every other entry as it was.
pub proof fn law_fat_read_after_write(g: Fat32Geometry, s: Seq<u32>, c: int, v: u32)
    requires
        s.len() >= g.total_data_clusters + 2,
        0 <= c,
        fat_write(g, s, c, v) is Ok,
    ensures
        fat_read(g, fat_write(g, s, c, v)->Ok_0, c) == Ok::<u32, FilesystemError>(v & FAT_ENTRY_MASK),
        forall|i: int| 0 <= i < s.len() && i != c ==> #[trigger] fat_read(g, fat_write(g, s, c, v)->Ok_0, i) == fat_read(g, s, i),
{
    assert((v & FAT_ENTRY_MASK) & FAT_ENTRY_MASK == v & FAT_ENTRY_MASK) by (bit_vector);
}

/// Freeing the chain of a cluster just allocated without a predecessor (the
/// first cluster of a new file or directory) succeeds, and afterwards every
/// entry of the table reads as it did before the allocation.
pub proof fn law_free_undoes_allocate(g: Fat32Geometry, s: Seq<u32>)
    requires
        s.len() >= g.total_data_clusters + 2,
        (g.total_data_clusters + 2) * 4 <= u32::MAX,
        allocate(g, s, None).0 is Ok,
    ensures
        ({
            let (r, s2) = allocate(g, s, None);
            let (fr, s3) = free_cluster_chain_result(g, s2, r->Ok_0);
            &&& fr is Ok
            &&& s3.len() == s.len()
            &&& forall|i: int| 0 <= i < s.len() ==> #[trigger] fat_read(g, s3, i) == fat_read(g, s, i)
        }),
{
    law_allocate_links(g, s, None);
    let (r, s2) = allocate(g, s, None);
    let c = r->Ok_0;
    assert(s2 == s.update(c as int, FAT_EOC & FAT_ENTRY_MASK));
    let s3 = s2.update(c as int, 0);
    assert(free_cluster_chain_result(g, s2, c) == (Ok::<(), FilesystemError>(()), s3));
    assert forall|i: int| 0 <= i < s.len() implies #[trigger] fat_read(g, s3, i) == fat_read(g, s, i) by {
        if i == c {
            assert(0u32 & FAT_ENTRY_MASK == 0) by (bit_vector);
        }
    }
}

/// Whether table `t2` is table `t1` after a change to entries only.
pub open spec fn same_volume(t1: &FatTable, t2: &FatTable) -> bool {
    &&& t2.wf()
    &&& t2.geom() == t1.geom()
    &&& t2@.len() == t1@.len()
}

/// The cluster reached from `c` by following `k` links, each of which must
/// lead to a data cluster.
pub open spec fn follow(g: Fat32Geometry, s: Seq<u32>, c: int, k: nat) -> FilesystemResult<u32>
    decreases k,
{
    if k == 0 {
        Ok(c as u32)
    } else {
        match fat_read(g, s, c) {
            Err(e) => Err(e),
            Ok(v) => if v >= FAT_EOC_MIN || !is_data_cluster(g, v as int) {
                Err(FilesystemError::CorruptedFilesystem)
            } else {
                follow(g, s, v as int, (k - 1) as nat)
            },
        }
    }
}

/// Following `k + 1` links is following `k` and then one more.
pub proof fn lemma_follow_step(g: Fat32Geometry, s: Seq<u32>, c: int, k: nat)
    requires
        0 <= c <= u32::MAX,
    ensures
        follow(g, s, c, k + 1) == match follow(g, s, c, k) {
            Ok(x) => follow(g, s, x as int, 1),
            Err(e) => Err(e),
        },
    decreases k,
{
    if k > 0 {
        match fat_read(g, s, c) {
            Ok(v) => {
                if !(v >= FAT_EOC_MIN || !is_data_cluster(g, v as int)) {
                    lemma_follow_step(g, s, v as int, (k - 1) as nat);
                }
            },
            Err(_) => {},
        }
    }
}

/// The last cluster of the chain through `c`, found within `fuel` links; a
/// longer chain can only loop and is corrupt.
pub open spec fn chain_last(g: Fat32Geometry, s: Seq<u32>, c: int, fuel: nat) -> FilesystemResult<u32>
    decreases fuel,
{
    match fat_read(g, s, c) {
        Err(e) => Err(e),
        Ok(v) => if v >= FAT_EOC_MIN {
            Ok(c as u32)
        } else if !is_data_cluster(g, v as int) || fuel == 0 {
            Err(FilesystemError::CorruptedFilesystem)
        } else {
            chain_last(g, s, v as int, (fuel - 1) as nat)
        },
    }
}

/// Appending a cluster after `c` while `size` is below `target`, each one
/// counting `bpc` bytes; gives the clusters added after `added`.
pub open spec fn grow(
    g: Fat32Geometry,
    s: Seq<u32>,
    c: u32,
    size: int,
    target: int,
    bpc: int,
    added: Seq<u32>,
) -> (FilesystemResult<Seq<u32>>, Seq<u32>)
    decreases (if target > size { target - size } else { 0 }) when bpc > 0
{
    if size >= target {
        (Ok(added), s)
    } else {
        let (r, s1) = allocate(g, s, Some(c));
        match r {
            Err(e) => (Err(e), s1),
            Ok(n) => grow(g, s1, n, size + bpc, target, bpc, added.push(n)),
        }
    }
}

/// Cutting the chain from `start` down to the clusters `new_size` bytes
/// need: the last one kept ends the chain and the rest is freed.
pub open spec fn shrink(g: Fat32Geometry, s: Seq<u32>, start: u32, new_size: int) -> (FilesystemResult<()>, Seq<u32>) {
    let bpc = g.cluster_bytes();
    if new_size == 0 {
        free_cluster_chain_result(g, s, start)
    } else {
        let needed = (new_size + bpc - 1) / bpc;
        match follow(g, s, start as int, (needed - 1) as nat) {
            Err(e) => (Err(e), s),
            Ok(last) => match fat_read(g, s, last as int) {
                Err(e) => (Err(e), s),
                Ok(next) => match fat_write(g, s, last as int, FAT_EOC) {
                    Err(e) => (Err(e), s),
                    Ok(s1) => if next < FAT_EOC_MIN && next >= 2 {
                        free_cluster_chain_result(g, s1, next)
                    } else {
                        (Ok(()), s1)
                    },
                },
            },
        }
    }
}

/// Growing the chain from `start`, which holds `size` bytes, towards
/// `new_size`: clusters are appended after its last one.
pub open spec fn expand(g: Fat32Geometry, s: Seq<u32>, start: u32, size: int, new_size: int) -> (FilesystemResult<Seq<u32>>, Seq<u32>) {
    if size > 0 {
        match chain_last(g, s, start as int, s.len()) {
            Err(e) => (Err(e), s),
            Ok(last) => grow(g, s, last, size, new_size, g.cluster_bytes(), Seq::empty()),
        }
    } else {
        grow(g, s, start, size, new_size, g.cluster_bytes(), Seq::empty())
    }
}

/// What truncating the file whose chain starts at `start` from `size` to
/// `new_size` bytes does to the FAT: the clusters it added, and the table.
pub open spec fn truncate_chain_result(g: Fat32Geometry, s: Seq<u32>, start: u32, size: u64, new_size: u64) -> (FilesystemResult<Seq<u32>>, Seq<u32>) {
    if new_size == size {
        (Ok(Seq::empty()), s)
    } else if start < 2 && size > 0 {
        (Err(FilesystemError::CorruptedFilesystem), s)
    } else if start < 2 {
        let (r, s1) = allocate(g, s, None);
        match r {
            Err(e) => (Err(e), s1),
            Ok(first) => {
                let (r2, s2) = expand(g, s1, first, 0, new_size as int);
                match r2 {
                    Err(e) => (Err(e), s2),
                    Ok(a) => (Ok(seq![first] + a), s2),
                }
            },
        }
    } else if new_size < size {
        let (r, s1) = shrink(g, s, start, new_size as int);
        match r {
            Err(e) => (Err(e), s1),
            Ok(_) => (Ok(Seq::empty()), s1),
        }
    } else {
        expand(g, s, start, size as int, new_size as int)
    }
}

/// The first FAT of a mounted volume, held in memory.
pub struct FatTable {
    geometry: Fat32Geometry,
    entries: Vec<u32>,
    /// Sectors of the FAT written since the entries were last stored.
    dirty: Vec<u64>,
    /// The entries as they were last stored (or read).
    saved: Ghost<Seq<u32>>,
}

impl FatTable {
    pub closed spec fn view(&self) -> Seq<u32> {
        self.entries@
    }

    pub closed spec fn geom(&self) -> Fat32Geometry {
        self.geometry
    }

    pub fn geometry(&self) -> (g: Fat32Geometry)
        ensures
            g == self.geom(),
    {
        self.geometry
    }

    /// Sectors written, in the order of the writes.
    pub closed spec fn dirty_sectors(&self) -> Seq<u64> {
        self.dirty@
    }

    /// The entries as they stand on disk: as read, or as last stored.
    pub closed spec fn saved(&self) -> Seq<u32> {
        self.saved@
    }

    /// Every entry that differs from its stored value lies in a sector of
    /// the dirty list.
    #[verifier::opaque]
    pub closed spec fn changes_listed(&self) -> bool {
        &&& self.saved().len() == self@.len()
        &&& forall|i: int| 0 <= i < self@.len() && #[trigger] self@[i] != self.saved()[i]
            ==> self.dirty_sectors().contains(entry_sector(self.geom(), i) as u64)
    }

    pub open spec fn wf(&self) -> bool {
        &&& self.changes_listed()
        &&& self@.len() >= self.geom().total_data_clusters + 2
        &&& self@.len() <= u32::MAX
        &&& (self.geom().total_data_clusters + 2) * 4 <= u32::MAX
        &&& self.geom().bytes_per_sector > 0
        &&& self.geom().first_fat_sector + self.geom().sectors_per_fat <= u64::MAX
        &&& self.geom().first_fat_sector + (self.geom().total_data_clusters + 2) * 4 <= u64::MAX
    }

    /// The table of geometry `geometry` whose entries were read from disk.
    pub fn new(geometry: Fat32Geometry, entries: Vec<u32>) -> (t: Self)
        requires
            entries@.len() >= geometry.total_data_clusters + 2,
            entries@.len() <= u32::MAX,
            (geometry.total_data_clusters + 2) * 4 <= u32::MAX,
            geometry.bytes_per_sector > 0,
            geometry.first_fat_sector + geometry.sectors_per_fat <= u64::MAX,
            geometry.first_fat_sector + (geometry.total_data_clusters + 2) * 4 <= u64::MAX,
        ensures
            t.wf(),
            t.geom() == geometry,
            t@ == entries@,
            t.saved() == entries@,
            t.dirty_sectors() == Seq::<u64>::empty(),
    {
        let ghost read = entries@;
        let t = FatTable { geometry, entries, dirty: Vec::new(), saved: Ghost(read) };
        proof {
            reveal(FatTable::changes_listed);
        }
        t
    }

    /// The stored value of entry `i`, top bits included.
    pub fn raw_entry(&self, i: usize) -> (v: u32)
        requires
            i < self@.len(),
        ensures
            v == self@[i as int],
    {
        self.entries[i]
    }

    pub fn len(&self) -> (n: usize)
        ensures
            n == self@.len(),
    {
        self.entries.len()
    }

    /// The entries held by FAT sector `sector`, in order (see
    /// `sector_span`), for the caller to store that sector; none for a
    /// sector before the FAT or past its entries.
    pub fn sector_entries(&self, sector: u64) -> (r: Vec<u32>)
        requires
            self.wf(),
        ensures
            sector < self.geom().first_fat_sector ==> r@.len() == 0,
            sector >= self.geom().first_fat_sector ==> ({
                let (first, end) = sector_span(self.geom(), self@.len() as int, sector as int);
                r@ == if first < end { self@.subrange(first, end) } else { Seq::<u32>::empty() }
            }),
    {
        let fs = self.geometry.first_fat_sector;
        if sector < fs {
            return Vec::new();
        }
        let rel = sector - fs;
        let bps = self.geometry.bytes_per_sector as u64;
        let per = bps / 4;
        let len = self.entries.len() as u64;
        if per == 0 || rel > 0xFFFF_FFFF {
            proof {
                if per > 0 {
                    assert(rel * bps / 4 >= rel) by (nonlinear_arith)
                        requires bps >= 4, rel >= 0;
                }
            }
            return Vec::new();
        }
        proof {
            assert(rel * bps <= 0xFFFF_FFFF * 0xFFFF) by (nonlinear_arith)
                requires rel <= 0xFFFF_FFFF, bps <= 0xFFFF;
        }
        let first = rel * bps / 4;
        let end0 = first + per;
        let end = if end0 < len { end0 } else { len };
        let mut r: Vec<u32> = Vec::new();
        if first >= end {
            return r;
        }
        let lo = first as usize;
        let hi = end as usize;
        let mut i: usize = lo;
        while i < hi
            invariant
                lo <= i <= hi,
                hi <= self.entries@.len(),
                lo == first,
                r@ == self.entries@.subrange(lo as int, i as int),
            decreases hi - i,
        {
            let ghost prev = r@;
            let v = self.entries[i];
            r.push(v);
            proof {
                assert(self.entries@.subrange(lo as int, i + 1) =~= prev.push(v));
            }
            i = i + 1;
        }
        proof {
            assert(self@ == self.entries@);
        }
        r
    }

    /// Hands out the sectors written since the last store, for the caller
    /// to store them now: every entry that differs from its stored value lies
    /// in one of them. Afterwards the entries count as stored.
    pub fn take_dirty(&mut self) -> (d: Vec<u64>)
        requires
            old(self).wf(),
        ensures
            final(self).wf(),
            d@ == old(self).dirty_sectors(),
            forall|i: int| 0 <= i < old(self)@.len() && #[trigger] old(self)@[i] != old(self).saved()[i]
                ==> d@.contains(entry_sector(old(self).geom(), i) as u64),
            final(self).dirty_sectors() == Seq::<u64>::empty(),
            final(self)@ == old(self)@,
            final(self).saved() == old(self)@,
            final(self).geom() == old(self).geom(),
    {
        proof {
            reveal(FatTable::changes_listed);
        }
        let mut d = Vec::new();
        std::mem::swap(&mut d, &mut self.dirty);
        self.saved = Ghost(self.entries@);
        proof {
            reveal(FatTable::changes_listed);
        }
        d
    }

    /// The entry of cluster `cluster`, without its reserved top bits.
    pub fn read_fat_entry(&self, cluster: u32) -> (r: FilesystemResult<u32>)
        requires
            self.wf(),
        ensures
            r == fat_read(self.geom(), self@, cluster as int),
    {
        if cluster >= self.geometry.total_data_clusters + 2 {
            return Err(FilesystemError::InvalidFAT);
        }
        match self.geometry.fat_entry_location(cluster) {
            Err(e) => Err(e),
            Ok(_) => {
                if self.geometry.bytes_per_sector as usize != SECTOR_SIZE {
                    return Err(FilesystemError::DeviceError);
                }
                Ok(self.entries[cluster as usize] & FAT_ENTRY_MASK)
            },
        }
    }

    /// Writes `value`, without its top bits, into the entry of `cluster`,
    /// and lists the sector that holds the entry as dirty.
    pub fn write_fat_entry(&mut self, cluster: u32, value: u32) -> (r: FilesystemResult<()>)
        requires
            old(self).wf(),
        ensures
            final(self).wf(),
            final(self).geom() == old(self).geom(),
            final(self).saved() == old(self).saved(),
            match fat_write(old(self).geom(), old(self)@, cluster as int, value) {
                Ok(s) => r is Ok && final(self)@ == s
                    && final(self).dirty_sectors() == old(self).dirty_sectors().push(
                        entry_sector(old(self).geom(), cluster as int) as u64),
                Err(e) => r == Err::<(), FilesystemError>(e) && final(self)@ == old(self)@
                    && final(self).dirty_sectors() == old(self).dirty_sectors(),
            },
    {
        proof {
            reveal(FatTable::changes_listed);
        }
        if cluster >= self.geometry.total_data_clusters + 2 {
            return Err(FilesystemError::InvalidFAT);
        }
        match self.geometry.fat_entry_location(cluster) {
            Err(e) => Err(e),
            Ok((sector, _)) => {
                if self.geometry.bytes_per_sector as usize != SECTOR_SIZE {
                    return Err(FilesystemError::DeviceError);
                }
                let ghost before = self.dirty@;
                self.entries.set(cluster as usize, value & FAT_ENTRY_MASK);
                self.dirty.push(sector);
                proof {
                    reveal(FatTable::changes_listed);
                    assert forall|i: int| 0 <= i < self@.len() && #[trigger] self@[i] != self.saved()[i]
                        implies self.dirty_sectors().contains(entry_sector(self.geom(), i) as u64) by {
                        if i == cluster as int {
                            assert(self.dirty@[before.len() as int] == sector);
                        } else {
                            assert(before.contains(entry_sector(self.geom(), i) as u64));
                            let k = choose|k: int| 0 <= k < before.len() && before[k] == entry_sector(self.geom(), i) as u64;
                            assert(self.dirty@[k] == before[k]);
                        }
                    }
                }
                Ok(())
            },
        }
    }
}

/// A table in order lists the sector of every entry changed since the last
/// store: storing the sectors that `take_dirty` hands out saves every change.
pub proof fn law_changes_are_listed(t: FatTable, i: int)
    requires
        t.wf(),
        0 <= i < t@.len(),
        t@[i] != t.saved()[i],
    ensures
        t.dirty_sectors().contains(entry_sector(t.geom(), i) as u64),
{
    reveal(FatTable::changes_listed);
}

impl FatTable {
    /// The first free cluster from `hint` (at least 2) to the end of the
    /// volume, and for a hint above 2 then from 2 up to the hint.
    pub fn find_free_cluster(&self, hint: Option<u32>) -> (r: FilesystemResult<u32>)
        requires
            self.wf(),
        ensures
            r == find_free(self.geom(), self@, hint),
    {
        let ghost g = self.geom();
        let ghost s = self@;
        let start: u32 = match hint {
            Some(h) => if h < 2 { 2 } else { h },
            None => 2,
        };
        let end: u32 = self.geometry.total_data_clusters + 2;
        let mut c = start;
        while c < end
            invariant
                self.wf(),
                g == self.geom(),
                s == self@,
                end == g.total_data_clusters + 2,
                start == search_start(hint),
                start <= c,
                c < end ==> scan_free(g, s, start as int, end as int) == scan_free(g, s, c as int, end as int),
                c >= end ==> scan_free(g, s, start as int, end as int) == Ok::<Option<u32>, FilesystemError>(None),
            decreases end - c,
        {
            match self.read_fat_entry(c) {
                Err(e) => {
                    return Err(e);
                },
                Ok(v) => {
                    if v == 0 {
                        return Ok(c);
                    }
                },
            }
            c = c + 1;
        }
        if hint.is_some() && start > 2 {
            let mut c2: u32 = 2;
            while c2 < start
                invariant
                    self.wf(),
                    g == self.geom(),
                    s == self@,
                    start == search_start(hint),
                    hint is Some,
                    scan_free(g, s, start as int, g.total_data_clusters + 2) == Ok::<Option<u32>, FilesystemError>(None),
                    2 <= c2,
                    c2 < start ==> scan_free(g, s, 2, start as int) == scan_free(g, s, c2 as int, start as int),
                    c2 >= start ==> scan_free(g, s, 2, start as int) == Ok::<Option<u32>, FilesystemError>(None),
                decreases start - c2,
            {
                match self.read_fat_entry(c2) {
                    Err(e) => {
                        return Err(e);
                    },
                    Ok(v) => {
                        if v == 0 {
                            return Ok(c2);
                        }
                    },
                }
                c2 = c2 + 1;
            }
        }
        Err(FilesystemError::FilesystemFull)
    }

    /// Takes a free cluster, marks it end of chain and links `prev` to it.
    pub fn allocate_cluster(&mut self, prev: Option<u32>) -> (r: FilesystemResult<u32>)
        requires
            old(self).wf(),
        ensures
            same_volume(&*old(self), &*final(self)),
            (r, final(self)@) == allocate(old(self).geom(), old(self)@, prev),
    {
        let new_cluster = match self.find_free_cluster(prev) {
            Ok(c) => c,
            Err(e) => {
                return Err(e);
            },
        };
        match self.write_fat_entry(new_cluster, FAT_EOC) {
            Ok(_) => {},
            Err(e) => {
                return Err(e);
            },
        }
        if let Some(p) = prev {
            match self.write_fat_entry(p, new_cluster) {
                Ok(_) => {},
                Err(e) => {
                    return Err(e);
                },
            }
        }
        Ok(new_cluster)
    }

    /// Frees the chain of clusters that starts at `start`.
    pub fn free_cluster_chain(&mut self, start: u32) -> (r: FilesystemResult<()>)
        requires
            old(self).wf(),
        ensures
            same_volume(&*old(self), &*final(self)),
            (r, final(self)@) == free_cluster_chain_result(old(self).geom(), old(self)@, start),
    {
        let ghost g = self.geom();
        let ghost s0 = self@;
        if start < 2 || start >= self.geometry.total_data_clusters + 2 {
            return Err(FilesystemError::InvalidFAT);
        }
        let ghost fuel0: nat = (s0.len() + 1) as nat;
        let ghost mut fuel: nat = fuel0;
        proof { lemma_count_used_bound(s0); }
        let mut current = start;
        loop
            invariant
                same_volume(&*old(self), &*self),
                g == self.geom(),
                s0 == old(self)@,
                fuel0 == s0.len() + 1,
                is_data_cluster(g, start as int),
                free_chain(g, s0, start as int, fuel0) == free_chain(g, self@, current as int, fuel),
                fuel >= count_used(self@) + 1,
            decreases count_used(self@),
        {
            let ghost s1 = self@;
            let next = match self.read_fat_entry(current) {
                Ok(v) => v,
                Err(e) => {
                    return Err(e);
                },
            };
            let ghost raw = s1[current as int];
            match self.write_fat_entry(current, 0) {
                Ok(_) => {},
                Err(e) => {
                    return Err(e);
                },
            }
            assert(0u32 & FAT_ENTRY_MASK == 0) by (bit_vector);
            assert(self@ == s1.update(current as int, 0));
            if next >= FAT_EOC_MIN || next == 0 || next == FAT_BAD {
                return Ok(());
            }
            if next < 2 || next >= self.geometry.total_data_clusters + 2 {
                return Err(FilesystemError::CorruptedFilesystem);
            }
            proof {
                assert(raw & FAT_ENTRY_MASK != 0 ==> raw != 0) by (bit_vector);
                lemma_count_used_clear(s1, current as int);
                fuel = (fuel - 1) as nat;
            }
            current = next;
        }
    }
}

impl FatTable {
    /// The cluster reached from `start` by following `k` links.
    pub fn follow_links(&self, start: u32, k: u64) -> (r: FilesystemResult<u32>)
        requires
            self.wf(),
        ensures
            r == follow(self.geom(), self@, start as int, k as nat),
    {
        let ghost g = self.geom();
        let ghost s = self@;
        let mut current = start;
        let mut left = k;
        while left > 0
            invariant
                self.wf(),
                g == self.geom(),
                s == self@,
                follow(g, s, start as int, k as nat) == follow(g, s, current as int, left as nat),
            decreases left,
        {
            let v = match self.read_fat_entry(current) {
                Ok(v) => v,
                Err(e) => {
                    return Err(e);
                },
            };
            if v >= FAT_EOC_MIN {
                return Err(FilesystemError::CorruptedFilesystem);
            }
            if v < 2 || v >= self.geometry.total_data_clusters + 2 {
                return Err(FilesystemError::CorruptedFilesystem);
            }
            current = v;
            left = left - 1;
        }
        Ok(current)
    }

    /// The first `count` clusters of the chain from `start`: `start` itself,
    /// then each reached by one more link (see `follow`); the first broken
    /// link is the error.
    pub fn chain_clusters(&self, start: u32, count: usize) -> (r: FilesystemResult<Vec<u32>>)
        requires
            self.wf(),
        ensures
            match r {
                Ok(v) => v@.len() == count && forall|k: int| 0 <= k < count ==> follow(self.geom(), self@, start as int, k as nat)
                    == Ok::<u32, FilesystemError>(#[trigger] v@[k]),
                Err(e) => exists|k: int| 0 < k < count && #[trigger] follow(self.geom(), self@, start as int, k as nat)
                    == Err::<u32, FilesystemError>(e),
            },
    {
        let mut v: Vec<u32> = Vec::new();
        if count == 0 {
            return Ok(v);
        }
        let mut current = start;
        v.push(current);
        while v.len() < count
            invariant
                self.wf(),
                1 <= v@.len() <= count,
                current == v@.last(),
                forall|k: int| 0 <= k < v@.len() ==> follow(self.geom(), self@, start as int, k as nat)
                    == Ok::<u32, FilesystemError>(#[trigger] v@[k]),
            decreases count - v@.len(),
        {
            let n = v.len();
            proof {
                lemma_follow_step(self.geom(), self@, start as int, (n - 1) as nat);
                assert(follow(self.geom(), self@, start as int, (n - 1) as nat) == Ok::<u32, FilesystemError>(v@[n - 1]));
            }
            let next = match self.follow_links(current, 1) {
                Ok(c) => c,
                Err(e) => {
                    proof {
                        assert(follow(self.geom(), self@, start as int, n as nat) == Err::<u32, FilesystemError>(e));
                    }
                    return Err(e);
                },
            };
            v.push(next);
            current = next;
            proof {
                assert forall|k: int| 0 <= k < v@.len() implies follow(self.geom(), self@, start as int, k as nat)
                    == Ok::<u32, FilesystemError>(#[trigger] v@[k]) by {
                    if k < n {
                        assert(v@[k] == v@.drop_last()[k]);
                    }
                }
            }
        }
        Ok(v)
    }

    /// The last cluster of the chain through `start`.
    pub fn last_of_chain(&self, start: u32) -> (r: FilesystemResult<u32>)
        requires
            self.wf(),
        ensures
            r == chain_last(self.geom(), self@, start as int, self@.len()),
    {
        let ghost g = self.geom();
        let ghost s = self@;
        let mut current = start;
        let mut fuel = self.entries.len();
        loop
            invariant
                self.wf(),
                g == self.geom(),
                s == self@,
                chain_last(g, s, start as int, s.len()) == chain_last(g, s, current as int, fuel as nat),
            decreases fuel,
        {
            let v = match self.read_fat_entry(current) {
                Ok(v) => v,
                Err(e) => {
                    return Err(e);
                },
            };
            if v >= FAT_EOC_MIN {
                return Ok(current);
            }
            if v < 2 || v >= self.geometry.total_data_clusters + 2 || fuel == 0 {
                return Err(FilesystemError::CorruptedFilesystem);
            }
            current = v;
            fuel = fuel - 1;
        }
    }

    /// Appends clusters after `last` while `size` is below `target`.
    fn grow_chain(&mut self, last: u32, size: u64, target: u64, added: &mut Vec<u32>) -> (r: FilesystemResult<()>)
        requires
            old(self).wf(),
            old(self).geom().cluster_bytes() > 0,
            target + old(self).geom().cluster_bytes() <= u64::MAX,
        ensures
            same_volume(&*old(self), &*final(self)),
            ({
                let (rs, s2) = grow(old(self).geom(), old(self)@, last, size as int, target as int, old(self).geom().cluster_bytes(), old(added)@);
                &&& final(self)@ == s2
                &&& match rs {
                    Ok(a) => r is Ok && final(added)@ == a,
                    Err(e) => r == Err::<(), FilesystemError>(e),
                }
            }),
    {
        let ghost g = self.geom();
        let ghost goal = grow(g, self@, last, size as int, target as int, g.cluster_bytes(), added@);
        let bpc = self.geometry.sectors_per_cluster as u64 * self.geometry.bytes_per_sector as u64;
        let mut current = last;
        let mut current_size = size;
        while current_size < target
            invariant
                same_volume(&*old(self), &*self),
                g == self.geom(),
                bpc == g.cluster_bytes(),
                bpc > 0,
                target + bpc <= u64::MAX,
                goal == grow(g, self@, current, current_size as int, target as int, bpc as int, added@),
                goal == grow(g, old(self)@, last, size as int, target as int, g.cluster_bytes(), old(added)@),
            decreases (if target > current_size { target - current_size } else { 0 }),
        {
            let ghost s_before = self@;
            let n = match self.allocate_cluster(Some(current)) {
                Ok(n) => n,
                Err(e) => {
                    assert(grow(g, s_before, current, current_size as int, target as int, bpc as int, added@) == (Err::<Seq<u32>, FilesystemError>(e), self@));
                    return Err(e);
                },
            };
            added.push(n);
            current = n;
            current_size = current_size + bpc;
        }
        Ok(())
    }

    /// The FAT side of truncating a file whose chain starts at `start` from
    /// `size` to `new_size` bytes: a shrink ends the chain after the clusters
    /// still needed and frees the rest; a growth appends clusters, one per
    /// cluster's worth of bytes, and gives them back so they can be zeroed.
    /// A file without clusters gets a first one.
    pub fn truncate_chain(&mut self, start: u32, size: u64, new_size: u64) -> (r: FilesystemResult<Vec<u32>>)
        requires
            old(self).wf(),
            old(self).geom().cluster_bytes() > 0,
            new_size + old(self).geom().cluster_bytes() <= u64::MAX,
        ensures
            same_volume(&*old(self), &*final(self)),
            ({
                let (rs, s2) = truncate_chain_result(old(self).geom(), old(self)@, start, size, new_size);
                &&& final(self)@ == s2
                &&& match rs {
                    Ok(a) => r matches Ok(v) && v@ == a,
                    Err(e) => r == Err::<Vec<u32>, FilesystemError>(e),
                }
            }),
    {
        let ghost g = self.geom();
        let bpc = self.geometry.sectors_per_cluster as u64 * self.geometry.bytes_per_sector as u64;
        let mut added: Vec<u32> = Vec::new();
        if new_size == size {
            return Ok(added);
        }
        if start < 2 && size > 0 {
            return Err(FilesystemError::CorruptedFilesystem);
        }
        if start < 2 {
            let first = match self.allocate_cluster(None) {
                Ok(c) => c,
                Err(e) => {
                    return Err(e);
                },
            };
            let mut rest: Vec<u32> = Vec::new();
            match self.grow_chain(first, 0, new_size, &mut rest) {
                Ok(_) => {},
                Err(e) => {
                    return Err(e);
                },
            }
            added.push(first);
            added.append(&mut rest);
            return Ok(added);
        }
        if new_size < size {
            if new_size == 0 {
                return match self.free_cluster_chain(start) {
                    Ok(_) => Ok(added),
                    Err(e) => Err(e),
                };
            }
            let needed = (new_size + bpc - 1) / bpc;
            proof {
                let x: int = (new_size + bpc - 1) as int;
                let d: int = bpc as int;
                assert(x / d >= 1) by (nonlinear_arith)
                    requires
                        x >= d,
                        d > 0,
                ;
            }
            let last = match self.follow_links(start, needed - 1) {
                Ok(c) => c,
                Err(e) => {
                    return Err(e);
                },
            };
            let next = match self.read_fat_entry(last) {
                Ok(v) => v,
                Err(e) => {
                    return Err(e);
                },
            };
            match self.write_fat_entry(last, FAT_EOC) {
                Ok(_) => {},
                Err(e) => {
                    return Err(e);
                },
            }
            if next < FAT_EOC_MIN && next >= 2 {
                match self.free_cluster_chain(next) {
                    Ok(_) => {},
                    Err(e) => {
                        return Err(e);
                    },
                }
            }
            return Ok(added);
        }
        let last = if size > 0 {
            match self.last_of_chain(start) {
                Ok(c) => c,
                Err(e) => {
                    return Err(e);
                },
            }
        } else {
            start
        };
        match self.grow_chain(last, size, new_size, &mut added) {
            Ok(_) => Ok(added),
            Err(e) => Err(e),
        }
    }
}

} // verus!
