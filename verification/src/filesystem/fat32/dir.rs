//! FAT32 directory clusters: 32-byte entries, read and written in a buffer
//! holding one cluster.
use vstd::prelude::*;
use crate::elf::bytes::{le_u16, le_u32, read_le_u16, read_le_u32};
use super::names::{base_part, dot_index, ext_part, fat_83, padded_upper, upper_byte, valid_83};

verus! {

pub const DIR_ENTRY_SIZE: usize = 32;
/// First name byte of an entry that ends the directory.
pub const ENTRY_END: u8 = 0x00;
/// First name byte of a deleted entry.
pub const ENTRY_DELETED: u8 = 0xE5;
pub const ATTR_READ_ONLY: u8 = 0x01;
pub const ATTR_SYSTEM: u8 = 0x04;
pub const ATTR_VOLUME_ID: u8 = 0x08;
pub const ATTR_LONG_NAME: u8 = 0x0F;
pub const ATTR_DIRECTORY: u8 = 0x10;
pub const ATTR_ARCHIVE: u8 = 0x20;

/// The first cluster an entry at `off` names: high half at 20, low at 26.
pub open spec fn entry_cluster(b: Seq<u8>, off: int) -> int {
    le_u16(b, off + 20) * 0x1_0000 + le_u16(b, off + 26)
}

/// Whether the entry at `off` is left out of a listing: deleted, a long-name
/// part, a volume label or a system entry.
pub open spec fn entry_skipped(b: Seq<u8>, off: int) -> bool {
    b[off] == ENTRY_DELETED || b[off + 11] == ATTR_LONG_NAME || b[off + 11] & ATTR_VOLUME_ID != 0
        || b[off + 11] & ATTR_SYSTEM != 0
}

/// The bytes of `s` before its first space or zero.
pub open spec fn trimmed(s: Seq<u8>) -> Seq<u8>
    decreases s.len(),
{
    if s.len() == 0 || s[0] == 0x20 || s[0] == 0 {
        Seq::empty()
    } else {
        seq![s[0]] + trimmed(s.drop_first())
    }
}

/// The name shown for the entry at `off`: the trimmed base, then a dot and
/// the trimmed extension when the extension is not blank.
pub open spec fn entry_name(b: Seq<u8>, off: int) -> Seq<u8> {
    let base = trimmed(b.subrange(off, off + 8));
    if b[off + 8] != 0x20 && b[off + 8] != 0 {
        base + seq![0x2eu8] + trimmed(b.subrange(off + 8, off + 11))
    } else {
        base
    }
}

/// One listed entry of a directory.
pub struct DirRecord {
    pub name: Vec<u8>,
    pub is_directory: bool,
    pub first_cluster: u32,
    pub size: u32,
}

/// Whether `r` is the record of the entry at `off`.
pub open spec fn record_of(r: DirRecord, b: Seq<u8>, off: int) -> bool {
    &&& r.name@ == entry_name(b, off)
    &&& r.is_directory == (b[off + 11] & ATTR_DIRECTORY != 0)
    &&& r.first_cluster == entry_cluster(b, off)
    &&& r.size == le_u32(b, off + 28)
}

/// The offsets of the entries listed from slot `k` on, of the `n` slots of
/// a cluster, up to the entry that ends the directory.
pub open spec fn listed_offsets(b: Seq<u8>, k: int, n: int) -> Seq<int>
    decreases n - k,
{
    if k >= n || b[32 * k] == ENTRY_END {
        Seq::empty()
    } else if entry_skipped(b, 32 * k) {
        listed_offsets(b, k + 1, n)
    } else {
        seq![32 * k] + listed_offsets(b, k + 1, n)
    }
}

/// The bytes of `s` before its first space or zero.
fn trim(s: &[u8], start: usize, len: usize) -> (r: Vec<u8>)
    requires
        start + len <= s@.len(),
    ensures
        r@ == trimmed(s@.subrange(start as int, start + len)),
{
    let _n = s.len();
    let mut r: Vec<u8> = Vec::new();
    let mut i: usize = 0;
    let ghost full = s@.subrange(start as int, start + len);
    assert(full.skip(0) =~= full);
    assert(r@ + trimmed(full) =~= trimmed(full));
    while i < len && s[start + i] != 0x20 && s[start + i] != 0
        invariant
            start + len <= s@.len(),
            _n == s@.len(),
            full == s@.subrange(start as int, start + len),
            i <= len,
            trimmed(full) == r@ + trimmed(full.skip(i as int)),
        decreases len - i,
    {
        let ghost rest = full.skip(i as int);
        assert(rest.drop_first() =~= full.skip(i + 1));
        r.push(s[start + i]);
        i = i + 1;
    }
    proof {
        let rest = full.skip(i as int);
        assert(trimmed(rest) == Seq::<u8>::empty());
        assert(r@ + Seq::<u8>::empty() =~= r@);
    }
    r
}

/// The name shown for the entry at `off`.
pub fn read_entry_name(b: &[u8], off: usize) -> (r: Vec<u8>)
    requires
        off + 32 <= b@.len(),
    ensures
        r@ == entry_name(b@, off as int),
{
    let _n = b.len();
    let mut name = trim(b, off, 8);
    if b[off + 8] != 0x20 && b[off + 8] != 0 {
        name.push(0x2e);
        let mut ext = trim(b, off + 8, 3);
        name.append(&mut ext);
    }
    name
}

/// The first cluster the entry at `off` names.
pub fn read_entry_cluster(b: &[u8], off: usize) -> (c: u32)
    requires
        off + 32 <= b@.len(),
    ensures
        c == entry_cluster(b@, off as int),
{
    let _n = b.len();
    let hi = read_le_u16(b, off + 20) as u32;
    let lo = read_le_u16(b, off + 26) as u32;
    assert((hi << 16) | lo == hi * 0x1_0000 + lo) by (bit_vector)
        requires
            hi < 0x1_0000,
            lo < 0x1_0000,
    ;
    (hi << 16) | lo
}

/// The entries a directory cluster lists, in order, up to the one that ends
/// the directory; deleted, long-name, volume and system entries are left out.
pub fn list_directory_cluster(b: &[u8], cluster_size: usize) -> (r: Vec<DirRecord>)
    requires
        cluster_size <= b@.len(),
    ensures
        r@.len() == listed_offsets(b@, 0, cluster_size as int / 32).len(),
        forall|i: int| 0 <= i < r@.len() ==> record_of(#[trigger] r@[i], b@, listed_offsets(b@, 0, cluster_size as int / 32)[i]),
{
    let ghost n = cluster_size as int / 32;
    let _len = b.len();
    let mut records: Vec<DirRecord> = Vec::new();
    let mut offset: usize = 0;
    let ghost mut seen: Seq<int> = Seq::empty();
    loop
        invariant
            cluster_size <= b@.len(),
            _len == b@.len(),
            n == cluster_size as int / 32,
            offset % 32 == 0,
            offset <= cluster_size,
            offset + 32 > cluster_size ==> offset / 32 >= n,
            offset + 32 <= cluster_size ==> offset / 32 < n,
            listed_offsets(b@, 0, n) == seen + listed_offsets(b@, offset as int / 32, n),
            records@.len() == seen.len(),
            forall|i: int| 0 <= i < records@.len() ==> record_of(#[trigger] records@[i], b@, seen[i]),
        ensures
            listed_offsets(b@, 0, n) == seen,
            records@.len() == seen.len(),
            forall|i: int| 0 <= i < records@.len() ==> record_of(#[trigger] records@[i], b@, seen[i]),
        decreases cluster_size - offset,
    {
        let ghost k = offset as int / 32;
        if cluster_size - offset < 32 {
            assert(listed_offsets(b@, k, n) == Seq::<int>::empty());
            assert(seen + Seq::<int>::empty() =~= seen);
            break;
        }
        assert(32 * k == offset);
        if b[offset] == ENTRY_END {
            assert(listed_offsets(b@, k, n) == Seq::<int>::empty());
            assert(seen + Seq::<int>::empty() =~= seen);
            break;
        }
        let attributes = b[offset + 11];
        if b[offset] == ENTRY_DELETED || attributes == ATTR_LONG_NAME || attributes & ATTR_VOLUME_ID != 0
            || attributes & ATTR_SYSTEM != 0 {
            offset = offset + 32;
            continue;
        }
        let name = read_entry_name(b, offset);
        let first_cluster = read_entry_cluster(b, offset);
        let size = read_le_u32(b, offset + 28);
        records.push(DirRecord { name, is_directory: attributes & ATTR_DIRECTORY != 0, first_cluster, size });
        proof {
            assert(seen.push(offset as int) + listed_offsets(b@, k + 1, n) =~= seen + listed_offsets(b@, k, n));
            seen = seen.push(offset as int);
        }
        offset = offset + 32;
    }
    records
}

/// The first slot of a cluster that is free for a new entry: unused (ends
/// the directory) or deleted.
pub open spec fn first_free_slot(b: Seq<u8>, k: int, n: int) -> Option<int>
    decreases n - k,
{
    if k >= n {
        None
    } else if b[32 * k] == ENTRY_END || b[32 * k] == ENTRY_DELETED {
        Some(32 * k)
    } else {
        first_free_slot(b, k + 1, n)
    }
}

/// The offset of the first free entry of a directory cluster, if any.
pub fn find_free_slot(b: &[u8], cluster_size: usize) -> (r: Option<usize>)
    requires
        cluster_size <= b@.len(),
    ensures
        r == (match first_free_slot(b@, 0, cluster_size as int / 32) {
            Some(o) => Some(o as usize),
            None => None::<usize>,
        }),
{
    let ghost n = cluster_size as int / 32;
    let _len = b.len();
    let mut offset: usize = 0;
    while cluster_size - offset >= 32
        invariant
            cluster_size <= b@.len(),
            _len == b@.len(),
            n == cluster_size as int / 32,
            offset % 32 == 0,
            offset <= cluster_size,
            offset + 32 > cluster_size ==> offset / 32 >= n,
            offset + 32 <= cluster_size ==> offset / 32 < n,
            first_free_slot(b@, 0, n) == first_free_slot(b@, offset as int / 32, n),
        decreases cluster_size - offset,
    {
        assert(32 * (offset as int / 32) == offset);
        if b[offset] == ENTRY_END || b[offset] == ENTRY_DELETED {
            return Some(offset);
        }
        offset = offset + 32;
    }
    None
}

/// What a search of one directory cluster for a name found.
#[derive(Debug, Clone, Copy, PartialEq, Eq, Structural)]
pub enum NameScan {
    /// The entry at this offset has the name.
    Found(usize),
    /// The directory ended before the name.
    End,
    /// The cluster does not have the name; the directory goes on.
    NotHere,
}

/// Searching the slots from `k` on for a live entry named `name`.
pub open spec fn scan_name(b: Seq<u8>, k: int, n: int, name: Seq<u8>) -> NameScan
    decreases n - k,
{
    if k >= n {
        NameScan::NotHere
    } else if b[32 * k] == ENTRY_END {
        NameScan::End
    } else if b[32 * k] != ENTRY_DELETED && b.subrange(32 * k, 32 * k + 11) == name {
        NameScan::Found((32 * k) as usize)
    } else {
        scan_name(b, k + 1, n, name)
    }
}

/// Searches a directory cluster for the live entry with 8.3 name `name`.
pub fn find_named_entry(b: &[u8], cluster_size: usize, name: &[u8; 11]) -> (r: NameScan)
    requires
        cluster_size <= b@.len(),
    ensures
        r == scan_name(b@, 0, cluster_size as int / 32, name@),
{
    let ghost n = cluster_size as int / 32;
    let _len = b.len();
    let mut offset: usize = 0;
    while cluster_size - offset >= 32
        invariant
            cluster_size <= b@.len(),
            _len == b@.len(),
            n == cluster_size as int / 32,
            offset % 32 == 0,
            offset <= cluster_size,
            offset + 32 > cluster_size ==> offset / 32 >= n,
            offset + 32 <= cluster_size ==> offset / 32 < n,
            scan_name(b@, 0, n, name@) == scan_name(b@, offset as int / 32, n, name@),
        decreases cluster_size - offset,
    {
        assert(32 * (offset as int / 32) == offset);
        if b[offset] == ENTRY_END {
            return NameScan::End;
        }
        if b[offset] != ENTRY_DELETED {
            let mut same = true;
            let mut j: usize = 0;
            while j < 11
                invariant
                    offset + 32 <= b@.len(),
                    _len == b@.len(),
                    j <= 11,
                    same == forall|q: int| 0 <= q < j ==> b@[offset + q] == name@[q],
                decreases 11 - j,
            {
                if b[offset + j] != name[j] {
                    same = false;
                }
                j = j + 1;
            }
            if same {
                assert(b@.subrange(offset as int, offset + 11) =~= name@);
                return NameScan::Found(offset);
            }
            assert(b@.subrange(offset as int, offset + 11) != name@) by {
                let q = choose|q: int| 0 <= q < 11 && b@[offset + q] != name@[q];
                assert(b@.subrange(offset as int, offset + 11)[q] == b@[offset + q]);
            }
        }
        offset = offset + 32;
    }
    NameScan::NotHere
}

/// What a check that a directory holds only "." and ".." found in a cluster.
#[derive(Debug, Clone, Copy, PartialEq, Eq, Structural)]
pub enum EmptinessScan {
    /// A live entry other than "." and ".." at this offset.
    Occupied(usize),
    /// The directory ended with nothing else in it.
    End,
    /// Nothing else in this cluster; the directory goes on.
    Continue,
}

/// The 8.3 names "." and "..".
pub open spec fn dot_name() -> Seq<u8> {
    seq![0x2eu8, 0x20, 0x20, 0x20, 0x20, 0x20, 0x20, 0x20, 0x20, 0x20, 0x20]
}

pub open spec fn dot_dot_name() -> Seq<u8> {
    seq![0x2eu8, 0x2e, 0x20, 0x20, 0x20, 0x20, 0x20, 0x20, 0x20, 0x20, 0x20]
}

/// Checking the slots from `k` on for a live entry other than "." and "..".
pub open spec fn scan_emptiness(b: Seq<u8>, k: int, n: int) -> EmptinessScan
    decreases n - k,
{
    if k >= n {
        EmptinessScan::Continue
    } else if b[32 * k] == ENTRY_END {
        EmptinessScan::End
    } else if b[32 * k] != ENTRY_DELETED && b.subrange(32 * k, 32 * k + 11) != dot_name()
        && b.subrange(32 * k, 32 * k + 11) != dot_dot_name() {
        EmptinessScan::Occupied((32 * k) as usize)
    } else {
        scan_emptiness(b, k + 1, n)
    }
}

fn name_at_is(b: &[u8], off: usize, name: &[u8; 11]) -> (r: bool)
    requires
        off + 11 <= b@.len(),
    ensures
        r == (b@.subrange(off as int, off + 11) == name@),
{
    let _len = b.len();
    let mut same = true;
    let mut j: usize = 0;
    while j < 11
        invariant
            off + 11 <= b@.len(),
            _len == b@.len(),
            j <= 11,
            same == forall|q: int| 0 <= q < j ==> b@[off + q] == name@[q],
        decreases 11 - j,
    {
        if b[off + j] != name[j] {
            same = false;
        }
        j = j + 1;
    }
    if same {
        assert(b@.subrange(off as int, off + 11) =~= name@);
    } else {
        assert(b@.subrange(off as int, off + 11) != name@) by {
            let q = choose|q: int| 0 <= q < 11 && b@[off + q] != name@[q];
            assert(b@.subrange(off as int, off + 11)[q] == b@[off + q]);
        }
    }
    same
}

/// Checks one cluster of a directory about to be deleted for entries other
/// than "." and "..".
pub fn check_directory_cluster_empty(b: &[u8], cluster_size: usize) -> (r: EmptinessScan)
    requires
        cluster_size <= b@.len(),
    ensures
        r == scan_emptiness(b@, 0, cluster_size as int / 32),
{
    let ghost n = cluster_size as int / 32;
    let _len = b.len();
    let dot: [u8; 11] = [0x2e, 0x20, 0x20, 0x20, 0x20, 0x20, 0x20, 0x20, 0x20, 0x20, 0x20];
    let dot_dot: [u8; 11] = [0x2e, 0x2e, 0x20, 0x20, 0x20, 0x20, 0x20, 0x20, 0x20, 0x20, 0x20];
    assert(dot@ == dot_name());
    assert(dot_dot@ == dot_dot_name());
    let mut offset: usize = 0;
    while cluster_size - offset >= 32
        invariant
            cluster_size <= b@.len(),
            _len == b@.len(),
            n == cluster_size as int / 32,
            dot@ == dot_name(),
            dot_dot@ == dot_dot_name(),
            offset % 32 == 0,
            offset <= cluster_size,
            offset + 32 > cluster_size ==> offset / 32 >= n,
            offset + 32 <= cluster_size ==> offset / 32 < n,
            scan_emptiness(b@, 0, n) == scan_emptiness(b@, offset as int / 32, n),
        decreases cluster_size - offset,
    {
        assert(32 * (offset as int / 32) == offset);
        let first = b[offset];
        if first == ENTRY_END {
            return EmptinessScan::End;
        }
        if first != ENTRY_DELETED {
            let is_dot = name_at_is(b, offset, &dot);
            let is_dot_dot = name_at_is(b, offset, &dot_dot);
            if !is_dot && !is_dot_dot {
                return EmptinessScan::Occupied(offset);
            }
        }
        offset = offset + 32;
    }
    EmptinessScan::Continue
}

/// Stores `x` little-endian at `off`, leaving the other bytes.
fn put_le_u16(v: &mut Vec<u8>, off: usize, x: u16)
    requires
        off + 2 <= old(v)@.len(),
    ensures
        final(v)@.len() == old(v)@.len(),
        le_u16(final(v)@, off as int) == x,
        forall|i: int| 0 <= i < old(v)@.len() && (i < off || i >= off + 2) ==> final(v)@[i] == old(v)@[i],
{
    let _n = v.len();
    let lo = (x & 0xff) as u8;
    let hi = (x >> 8) as u8;
    assert(lo + hi * 0x100 == x) by (bit_vector)
        requires
            lo == (x & 0xff) as u8,
            hi == (x >> 8) as u8,
    ;
    v.set(off, lo);
    v.set(off + 1, hi);
}

/// Stores `x` little-endian at `off`, leaving the other bytes.
fn put_le_u32(v: &mut Vec<u8>, off: usize, x: u32)
    requires
        off + 4 <= old(v)@.len(),
    ensures
        final(v)@.len() == old(v)@.len(),
        le_u32(final(v)@, off as int) == x,
        forall|i: int| 0 <= i < old(v)@.len() && (i < off || i >= off + 4) ==> final(v)@[i] == old(v)@[i],
{
    let _n = v.len();
    let lo = (x & 0xffff) as u16;
    let hi = (x >> 16) as u16;
    assert(lo + hi * 0x1_0000 == x) by (bit_vector)
        requires
            lo == (x & 0xffff) as u16,
            hi == (x >> 16) as u16,
    ;
    put_le_u16(v, off, lo);
    put_le_u16(v, off + 2, hi);
}

/// Whether `e` is the 32-byte entry with name `name`, attributes `attr`,
/// first cluster `cluster` and size `size`, every time and date zero.
pub open spec fn is_entry_for(e: Seq<u8>, name: Seq<u8>, attr: u8, cluster: u32, size: u32) -> bool {
    &&& e.len() == 32
    &&& e.subrange(0, 11) == name
    &&& e[11] == attr
    &&& forall|i: int| 12 <= i < 20 ==> e[i] == 0
    &&& forall|i: int| 22 <= i < 26 ==> e[i] == 0
    &&& le_u16(e, 20) == cluster / 0x1_0000
    &&& le_u16(e, 26) == cluster % 0x1_0000
    &&& le_u32(e, 28) == size
}

/// The directory entry for a file or directory named `name`.
pub fn encode_dir_entry(name: &[u8; 11], attributes: u8, first_cluster: u32, file_size: u32) -> (e: Vec<u8>)
    ensures
        is_entry_for(e@, name@, attributes, first_cluster, file_size),
{
    let mut e: Vec<u8> = Vec::new();
    let mut i: usize = 0;
    while i < 11
        invariant
            i <= 11,
            e@ == name@.take(i as int),
        decreases 11 - i,
    {
        e.push(name[i]);
        i = i + 1;
        assert(e@ =~= name@.take(i as int));
    }
    e.push(attributes);
    while e.len() < 32
        invariant
            12 <= e@.len() <= 32,
            e@.subrange(0, 11) == name@,
            e@[11] == attributes,
            forall|j: int| 12 <= j < e@.len() ==> e@[j] == 0,
        decreases 32 - e@.len(),
    {
        e.push(0);
    }
    let hi = (first_cluster >> 16) as u16;
    let lo = (first_cluster & 0xffff) as u16;
    assert(hi == first_cluster / 0x1_0000 && lo == first_cluster % 0x1_0000) by (bit_vector)
        requires
            hi == (first_cluster >> 16) as u16,
            lo == (first_cluster & 0xffff) as u16,
    ;
    put_le_u16(&mut e, 20, hi);
    put_le_u16(&mut e, 26, lo);
    put_le_u32(&mut e, 28, file_size);
    assert(e@.subrange(0, 11) =~= name@);
    e
}

/// Puts `entry` into the directory cluster `b` at `off`.
pub fn write_entry_at(b: &mut Vec<u8>, off: usize, entry: &[u8])
    requires
        off + 32 <= old(b)@.len(),
        entry@.len() == 32,
    ensures
        final(b)@ == old(b)@.subrange(0, off as int) + entry@ + old(b)@.subrange(off + 32, old(b)@.len() as int),
{
    let _n = b.len();
    let mut j: usize = 0;
    while j < 32
        invariant
            off + 32 <= b@.len(),
            _n == b@.len(),
            entry@.len() == 32,
            j <= 32,
            b@.len() == old(b)@.len(),
            forall|i: int| 0 <= i < b@.len() && (i < off || i >= off + j) ==> b@[i] == old(b)@[i],
            forall|i: int| off <= i < off + j ==> b@[i] == entry@[i - off],
        decreases 32 - j,
    {
        b.set(off + j, entry[j]);
        j = j + 1;
    }
    assert(b@ =~= old(b)@.subrange(0, off as int) + entry@ + old(b)@.subrange(off + 32, old(b)@.len() as int));
}

/// Marks the entry at `off` deleted.
pub fn mark_entry_deleted(b: &mut Vec<u8>, off: usize)
    requires
        off < old(b)@.len(),
    ensures
        final(b)@ == old(b)@.update(off as int, ENTRY_DELETED),
{
    b.set(off, ENTRY_DELETED);
}

/// Sets the size of the entry at `off`, and its first cluster when
/// `cluster` is given.
pub fn update_entry(b: &mut Vec<u8>, off: usize, size: u32, cluster: Option<u32>)
    requires
        off + 32 <= old(b)@.len(),
    ensures
        final(b)@.len() == old(b)@.len(),
        le_u32(final(b)@, off + 28) == size,
        cluster matches Some(c) ==> entry_cluster(final(b)@, off as int) == c,
        forall|i: int| 0 <= i < old(b)@.len() && (i < off + 20 || i >= off + 32 || (off + 22 <= i < off + 26) || (cluster is None && i < off + 28)) ==> final(b)@[i] == old(b)@[i],
{
    let _n = b.len();
    if let Some(c) = cluster {
        let hi = (c >> 16) as u16;
        let lo = (c & 0xffff) as u16;
        assert(hi * 0x1_0000 + lo == c) by (bit_vector)
            requires
                hi == (c >> 16) as u16,
                lo == (c & 0xffff) as u16,
        ;
        put_le_u16(b, off + 20, hi);
        put_le_u16(b, off + 26, lo);
    }
    put_le_u32(b, off + 28, size);
}

/// The bytes a name is listed as: each character upper-cased.
pub open spec fn upper_name(cs: Seq<char>) -> Seq<u8> {
    Seq::new(cs.len(), |i: int| upper_byte(cs[i]))
}

proof fn lemma_trimmed_padded(s: Seq<char>, k: int)
    requires
        s.len() <= k,
        forall|i: int| 0 <= i < s.len() ==> 0 < (s[i] as u32) < 128 && (s[i] as u32) != 0x20,
    ensures
        trimmed(padded_upper(s, k)) == upper_name(s),
    decreases s.len(),
{
    if s.len() == 0 {
        if k > 0 {
            assert(padded_upper(s, k)[0] == 0x20u8);
        }
        assert(upper_name(s) =~= Seq::<u8>::empty());
    } else {
        let c = s[0];
        let x = c as u32;
        if 'a' <= c && c <= 'z' {
            assert(97 <= x <= 122 ==> ((x - 32) as u8) != 0x20 && ((x - 32) as u8) != 0) by (bit_vector);
        } else {
            assert(x != 32 && x != 0 && x < 128 ==> (x as u8) != 0x20 && (x as u8) != 0) by (bit_vector);
        }
        assert(upper_byte(c) != 0x20 && upper_byte(c) != 0);
        assert(padded_upper(s, k).drop_first() =~= padded_upper(s.drop_first(), k - 1));
        lemma_trimmed_padded(s.drop_first(), k - 1);
        assert(upper_name(s) =~= seq![upper_byte(c)] + upper_name(s.drop_first()));
    }
}

/// A file or directory created under a name with an 8.3 form that holds no
/// space or NUL and does not end with a dot is listed under that name
/// upper-cased.
pub proof fn law_created_name_listed(cs: Seq<char>)
    requires
        valid_83(cs),
        cs.len() > 0,
        cs.last() != '.',
        forall|i: int| 0 <= i < cs.len() ==> (cs[i] as u32) != 0x20 && (cs[i] as u32) != 0,
    ensures
        fat_83(cs) matches Ok(n) && entry_name(n, 0) == upper_name(cs),
{
    let d = dot_index(cs);
    let base = base_part(cs);
    let ext = ext_part(cs);
    let has_dot = exists|i: int| 0 <= i < cs.len() && cs[i] == '.';
    if has_dot {
        assert(0 <= d < cs.len() && cs[d] == '.');
    }
    assert forall|i: int| 0 <= i < base.len() implies 0 < (base[i] as u32) < 128 && (base[i] as u32) != 0x20 by {
        assert(base[i] == cs[i]);
        if cs[i] == '.' {
            assert(has_dot);
            assert(cs[d] != '.');
        }
    }
    assert forall|i: int| 0 <= i < ext.len() implies 0 < (ext[i] as u32) < 128 && (ext[i] as u32) != 0x20 by {
        assert(has_dot);
        assert(ext[i] == cs[d + 1 + i]);
        if cs[d + 1 + i] == '.' {
            assert(cs[d + 1 + i] != '.');
        }
    }
    lemma_trimmed_padded(base, 8);
    lemma_trimmed_padded(ext, 3);
    assert(cs != seq!['.']) by {
        if cs == seq!['.'] {
            assert(cs.last() == '.');
        }
    }
    assert(cs != seq!['.', '.']) by {
        if cs == seq!['.', '.'] {
            assert(cs.last() == '.');
        }
    }
    let n = padded_upper(base, 8) + padded_upper(ext, 3);
    assert(fat_83(cs) == Ok::<Seq<u8>, crate::filesystem::FilesystemError>(n));
    assert(n.subrange(0, 8) =~= padded_upper(base, 8));
    assert(n.subrange(8, 11) =~= padded_upper(ext, 3));
    if ext.len() > 0 {
        assert(has_dot);
        assert(n[8] == upper_byte(ext[0]));
        assert(upper_byte(ext[0]) != 0x20 && upper_byte(ext[0]) != 0);
        assert(cs =~= base + seq!['.'] + ext);
        assert(upper_name(base) + seq![0x2eu8] + upper_name(ext) =~= upper_name(cs));
    } else {
        assert(!has_dot) by {
            if has_dot {
                assert(d + 1 == cs.len());
                assert(cs.last() == cs[d]);
            }
        }
        assert(n[8] == 0x20u8);
        assert(base =~= cs);
    }
}

} // verus!
