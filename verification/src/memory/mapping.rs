//! The registry of mapped memory regions.
//!
//! Every region is kept in a fixed-capacity `heapless` index map keyed by its
//! start address, in insertion order. Regions mapped through `map_memory` are
//! checked against all existing regions so that no two of them overlap.
use vstd::prelude::*;
use vstd::string::StringSliceAdditionalSpecFns;

verus! {

/// Size of a page; every region is a whole number of pages.
pub const PAGE_SIZE: usize = 4096;

/// Most regions the registry holds.
pub const MAX_MAPPINGS: usize = 64;

/// First address handed out for virtual mappings.
pub const VIRTUAL_BASE: usize = 0x4000_0000;

/// Above this address the search for a free virtual range gives up.
pub const VIRTUAL_LIMIT: usize = 0x8000_0000;

/// Access rights of a region.
#[derive(Debug, Clone, Copy, PartialEq, Eq, Structural)]
pub struct MemoryPermissions {
    pub read: bool,
    pub write: bool,
    pub execute: bool,
}

impl MemoryPermissions {
    pub open spec fn of(read: bool, write: bool, execute: bool) -> MemoryPermissions {
        MemoryPermissions { read, write, execute }
    }

    pub fn read_only() -> (p: Self)
        ensures
            p == Self::of(true, false, false),
    {
        MemoryPermissions { read: true, write: false, execute: false }
    }

    pub fn write_only() -> (p: Self)
        ensures
            p == Self::of(false, true, false),
    {
        MemoryPermissions { read: false, write: true, execute: false }
    }

    pub fn execute_only() -> (p: Self)
        ensures
            p == Self::of(false, false, true),
    {
        MemoryPermissions { read: false, write: false, execute: true }
    }

    pub fn read_write() -> (p: Self)
        ensures
            p == Self::of(true, true, false),
    {
        MemoryPermissions { read: true, write: true, execute: false }
    }

    pub fn read_execute() -> (p: Self)
        ensures
            p == Self::of(true, false, true),
    {
        MemoryPermissions { read: true, write: false, execute: true }
    }

    pub fn read_write_execute() -> (p: Self)
        ensures
            p == Self::of(true, true, true),
    {
        MemoryPermissions { read: true, write: true, execute: true }
    }

    pub fn none() -> (p: Self)
        ensures
            p == Self::of(false, false, false),
    {
        MemoryPermissions { read: false, write: false, execute: false }
    }

    /// An access that writes only where `write` is set and executes only
    /// where `execute` is set, to memory that is always readable.
    pub open spec fn allows(self, write: bool, execute: bool) -> bool {
        &&& self.read
        &&& write ==> self.write
        &&& execute ==> self.execute
    }
}

/// What kind of memory a region is.
#[derive(Debug, Clone, Copy, PartialEq, Eq, Structural)]
pub enum MappingType {
    /// Physical memory, accessed directly.
    Physical,
    /// Memory allocated for the mapping.
    Virtual,
    /// Device registers (MMIO).
    Device,
    Framebuffer,
    DmaBuffer,
}

/// The characters held by a region name.
pub uninterp spec fn name_chars(s: heapless::String<64>) -> Seq<char>;

/// A region name made from `name` (`heapless::String::try_from`); a name of
/// more than 64 bytes does not fit and gives the empty name.
#[verifier::external_body]
fn name_from_str(name: &str) -> (s: heapless::String<64>)
    ensures
        name.spec_bytes().len() <= 64 ==> name_chars(s) == name@,
        name.spec_bytes().len() > 64 ==> name_chars(s) == Seq::<char>::empty(),
{
    heapless::String::try_from(name).unwrap_or_default()
}

/// The name a region gets when it is mapped under `name`.
pub open spec fn stored_name(name: &str) -> Seq<char> {
    if name.spec_bytes().len() <= 64 {
        name@
    } else {
        Seq::empty()
    }
}

/// One mapped region.
#[derive(Debug)]
pub struct MemoryMapping {
    pub start_addr: usize,
    pub size: usize,
    pub permissions: MemoryPermissions,
    pub mapping_type: MappingType,
    pub name: heapless::String<64>,
    /// The memory allocated for the region, for mappings that allocate.
    pub physical_addr: Option<usize>,
}

impl MemoryMapping {
    /// One past the last address of the region.
    pub open spec fn end(self) -> int {
        self.start_addr + self.size
    }

    pub open spec fn contains(self, addr: int) -> bool {
        self.start_addr <= addr < self.end()
    }

    /// Whether the two regions share an address.
    pub open spec fn overlaps(self, other: MemoryMapping) -> bool {
        !(self.end() <= other.start_addr || other.end() <= self.start_addr)
    }

    pub fn end_addr(&self) -> (e: usize)
        requires
            self.end() <= usize::MAX,
        ensures
            e == self.end(),
    {
        self.start_addr + self.size
    }

    pub fn overlaps_with(&self, other: &MemoryMapping) -> (r: bool)
        requires
            self.end() <= usize::MAX,
            other.end() <= usize::MAX,
        ensures
            r == self.overlaps(*other),
    {
        !(self.end_addr() <= other.start_addr || other.end_addr() <= self.start_addr)
    }

    pub fn contains_address(&self, addr: usize) -> (r: bool)
        requires
            self.end() <= usize::MAX,
        ensures
            r == self.contains(addr as int),
    {
        addr >= self.start_addr && addr < self.end_addr()
    }
}

/// `size` rounded up to a whole number of pages.
pub open spec fn page_round(size: int) -> int {
    ((size + 4095) / 4096) * 4096
}

/// Rounds `size` up to a whole number of pages.
pub fn page_align(size: usize) -> (r: usize)
    requires
        size <= usize::MAX - 4095,
    ensures
        r == page_round(size as int),
        r % 4096 == 0,
        size <= r < size + 4096,
        size > 0 ==> r >= 4096,
{
    let t: usize = size + 4095;
    let r = t & !4095usize;
    assert(r == (t / 4096) * 4096 && r % 4096 == 0 && r <= t && t < r + 4096) by (bit_vector)
        requires
            r == t & !4095usize,
    ;
    r
}

/// The registry's storage: a `heapless::FnvIndexMap` from start address to
/// region, which keeps its entries in insertion order.
#[verifier::external_body]
pub struct MappingTable {
    map: heapless::FnvIndexMap<usize, MemoryMapping, 64>,
}

/// The entries of a table, in the map's order.
pub uninterp spec fn mapping_entries(t: MappingTable) -> Seq<(usize, MemoryMapping)>;

/// Whether some entry of `s` has key `key`.
pub open spec fn has_key(s: Seq<(usize, MemoryMapping)>, key: usize) -> bool {
    exists|i: int| 0 <= i < s.len() && s[i].0 == key
}

/// `s` after removing entry `i` by moving its last entry into its place.
pub open spec fn swap_removed<T>(s: Seq<T>, i: int) -> Seq<T> {
    if i == s.len() - 1 {
        s.drop_last()
    } else {
        s.update(i, s.last()).drop_last()
    }
}

/// An empty map (`FnvIndexMap::new`).
#[verifier::external_body]
fn table_new() -> (t: MappingTable)
    ensures
        mapping_entries(t) == Seq::<(usize, MemoryMapping)>::empty(),
{
    MappingTable { map: heapless::FnvIndexMap::new() }
}

/// Number of entries (`IndexMap::len`).
#[verifier::external_body]
fn table_len(t: &MappingTable) -> (n: usize)
    ensures
        n == mapping_entries(*t).len(),
{
    t.map.len()
}

/// `IndexMap::insert`: the value of a present key is replaced in place; a new
/// key is appended while fewer than 64 entries are held, and refused after.
#[verifier::external_body]
fn table_insert(t: &mut MappingTable, key: usize, value: MemoryMapping) -> (ok: bool)
    ensures
        forall|i: int|
            0 <= i < mapping_entries(*old(t)).len() && (#[trigger] mapping_entries(*old(t))[i]).0 == key
                ==> ok && mapping_entries(*final(t)) == mapping_entries(*old(t)).update(
                i,
                (key, value),
            ),
        !has_key(mapping_entries(*old(t)), key) && mapping_entries(*old(t)).len() < 64 ==> ok
            && mapping_entries(*final(t)) == mapping_entries(*old(t)).push((key, value)),
        !has_key(mapping_entries(*old(t)), key) && mapping_entries(*old(t)).len() >= 64 ==> !ok
            && mapping_entries(*final(t)) == mapping_entries(*old(t)),
{
    t.map.insert(key, value).is_ok()
}

/// `IndexMap::remove`: takes out the entry of `key`, moving the last entry
/// into its place.
#[verifier::external_body]
fn table_remove(t: &mut MappingTable, key: usize) -> (r: Option<MemoryMapping>)
    ensures
        !has_key(mapping_entries(*old(t)), key) ==> r is None && mapping_entries(*final(t))
            == mapping_entries(*old(t)),
        forall|i: int|
            0 <= i < mapping_entries(*old(t)).len() && (#[trigger] mapping_entries(*old(t))[i]).0 == key
                ==> r == Some(mapping_entries(*old(t))[i].1) && mapping_entries(*final(t))
                == swap_removed(mapping_entries(*old(t)), i),
{
    t.map.remove(&key)
}

/// The region of entry `i` (`IndexMap::values`, which follows the map's order).
#[verifier::external_body]
fn table_value(t: &MappingTable, i: usize) -> (m: &MemoryMapping)
    requires
        i < mapping_entries(*t).len(),
    ensures
        *m == mapping_entries(*t)[i as int].1,
{
    t.map.values().nth(i).unwrap()
}

/// Removes every entry (`IndexMap::clear`).
#[verifier::external_body]
fn table_clear(t: &mut MappingTable)
    ensures
        mapping_entries(*final(t)) == Seq::<(usize, MemoryMapping)>::empty(),
{
    t.map.clear()
}

impl MemoryMappingManager {
    /// What `unmap_memory(addr)` does, from registry `self` to registry
    /// `after`: no region starting at `addr` is `NotFound`; otherwise that
    /// region is handed back and removed, the last region taking its place.
    pub open spec fn unmap_result(&self, after: &Self, addr: usize, r: Result<MemoryMapping, MappingError>) -> bool {
        &&& (forall|i: int| 0 <= i < self.regions().len() ==> (#[trigger] self.regions()[i]).start_addr != addr)
            ==> r == Err::<MemoryMapping, MappingError>(MappingError::NotFound) && after.regions() == self.regions()
            && after.total_mapped() == self.total_mapped()
        &&& forall|i: int| 0 <= i < self.regions().len() && (#[trigger] self.regions()[i]).start_addr == addr
            ==> r == Ok::<MemoryMapping, MappingError>(self.regions()[i]) && after.regions() == swap_removed(
            self.regions(),
            i,
        ) && after.total_mapped() == self.total_mapped() - self.regions()[i].size
    }
}

/// Unmapping the region just mapped gives the registry back as it was
/// before: the same regions in the same order and the same total, and the
/// region handed back is the one mapped; unmapping it a second time finds
/// nothing and changes nothing.
pub proof fn law_unmap_undoes_map(
    m0: MemoryMappingManager,
    m1: MemoryMappingManager,
    m2: MemoryMappingManager,
    addr: usize,
    size: usize,
    permissions: MemoryPermissions,
    mapping_type: MappingType,
    name: &str,
    r: Result<MemoryMapping, MappingError>,
    m3: MemoryMappingManager,
    r2: Result<MemoryMapping, MappingError>,
)
    requires
        m0.wf(),
        m1.wf(),
        m0.regions().len() < MAX_MAPPINGS,
        m0.map_memory_result(&m1, addr, size, permissions, mapping_type, name, Ok(addr)),
        m1.unmap_result(&m2, addr, r),
        m2.unmap_result(&m3, addr, r2),
    ensures
        m2.regions() == m0.regions(),
        m2.total_mapped() == m0.total_mapped(),
        r2 == Err::<MemoryMapping, MappingError>(MappingError::NotFound),
        m3.regions() == m0.regions(),
        m3.total_mapped() == m0.total_mapped(),
        r matches Ok(m) && describes(m, addr as int, page_round(size as int), permissions, mapping_type, stored_name(name), None),
{
    let ms = m0.regions();
    let m1s = m1.regions();
    let last = m1s.len() - 1;
    assert(size > 0);
    assert(m1s.len() == ms.len() + 1);
    assert(m1s[last].start_addr == addr);
    let e = mapping_entries(m1.mappings);
    assert forall|k: int| 0 <= k < m1s.len() && k != last implies (#[trigger] m1s[k]).start_addr != addr by {
        assert(e[k].0 == e[k].1.start_addr);
        assert(e[last].0 == e[last].1.start_addr);
        assert(e[k].0 != e[last].0);
    }
    assert(m1s[last].start_addr == addr);
    assert(swap_removed(m1s, last) =~= ms);
    assert forall|i: int| 0 <= i < ms.len() implies (#[trigger] ms[i]).start_addr != addr by {
        assert(m1s[i] == ms[i]);
        assert(m1s[i].start_addr != addr);
    }
}

/// Sum of the sizes of `ms`.
pub open spec fn total_size(ms: Seq<MemoryMapping>) -> int
    decreases ms.len(),
{
    if ms.len() == 0 {
        0
    } else {
        total_size(ms.drop_last()) + ms.last().size
    }
}

proof fn lemma_total_size_update(ms: Seq<MemoryMapping>, i: int, m: MemoryMapping)
    requires
        0 <= i < ms.len(),
    ensures
        total_size(ms.update(i, m)) == total_size(ms) - ms[i].size + m.size,
    decreases ms.len(),
{
    if i < ms.len() - 1 {
        assert(ms.update(i, m).drop_last() == ms.drop_last().update(i, m));
        lemma_total_size_update(ms.drop_last(), i, m);
    } else {
        assert(ms.update(i, m).drop_last() == ms.drop_last());
    }
}

proof fn lemma_total_size_swap_removed(ms: Seq<MemoryMapping>, i: int)
    requires
        0 <= i < ms.len(),
    ensures
        total_size(swap_removed(ms, i)) == total_size(ms) - ms[i].size,
{
    if i < ms.len() - 1 {
        lemma_total_size_update(ms, i, ms.last());
        assert(ms.update(i, ms.last()).last() == ms.last());
    }
}

proof fn lemma_total_size_nonneg(ms: Seq<MemoryMapping>)
    ensures
        total_size(ms) >= 0,
    decreases ms.len(),
{
    if ms.len() > 0 {
        lemma_total_size_nonneg(ms.drop_last());
    }
}

proof fn lemma_total_size_ge(ms: Seq<MemoryMapping>, i: int)
    requires
        0 <= i < ms.len(),
    ensures
        total_size(ms) >= ms[i].size,
    decreases ms.len(),
{
    lemma_total_size_nonneg(ms.drop_last());
    if i < ms.len() - 1 {
        lemma_total_size_ge(ms.drop_last(), i);
    }
}

/// Why a mapping request was refused.
#[derive(Debug, Clone, Copy, PartialEq, Eq, Structural)]
pub enum MappingError {
    ZeroSize,
    Overlap,
    NotFound,
    PhysicalAllocationFailed,
    AddressSpaceExhausted,
}

/// The text of each mapping error.
pub open spec fn mapping_error_text(e: MappingError) -> Seq<char> {
    match e {
        MappingError::ZeroSize => "Cannot map zero-sized region"@,
        MappingError::Overlap => "Memory region overlaps with existing mapping"@,
        MappingError::NotFound => "Memory region not found"@,
        MappingError::PhysicalAllocationFailed => "Failed to allocate physical memory"@,
        MappingError::AddressSpaceExhausted => "Virtual address space exhausted"@,
    }
}

impl MappingError {
    pub fn message(&self) -> (s: &'static str)
        ensures
            s@ == mapping_error_text(*self),
    {
        match self {
            MappingError::ZeroSize => "Cannot map zero-sized region",
            MappingError::Overlap => "Memory region overlaps with existing mapping",
            MappingError::NotFound => "Memory region not found",
            MappingError::PhysicalAllocationFailed => "Failed to allocate physical memory",
            MappingError::AddressSpaceExhausted => "Virtual address space exhausted",
        }
    }
}

/// Counts of the registry's regions.
#[derive(Debug, Clone, Copy, PartialEq, Eq, Structural)]
pub struct MappingStats {
    pub total_mappings: usize,
    pub total_mapped_size: usize,
    /// Virtual and DMA buffer regions.
    pub virtual_mappings: usize,
    pub physical_mappings: usize,
    pub device_mappings: usize,
    pub framebuffer_mappings: usize,
}

/// Number of regions of `ms` of type `t`.
pub open spec fn count_type(ms: Seq<MemoryMapping>, t: MappingType) -> nat
    decreases ms.len(),
{
    if ms.len() == 0 {
        0
    } else {
        count_type(ms.drop_last(), t) + if ms.last().mapping_type == t {
            1nat
        } else {
            0nat
        }
    }
}

/// Whether `[c, c + size)` meets none of the regions of `ms`.
pub open spec fn range_free(ms: Seq<MemoryMapping>, c: int, size: int) -> bool {
    forall|i: int| 0 <= i < ms.len() ==> !(c < #[trigger] ms[i].end() && c + size > ms[i].start_addr)
}

/// The points the search for a free range may stop at: where it starts, and
/// the ends of regions after that.
pub open spec fn search_point(ms: Seq<MemoryMapping>, c0: int, c: int) -> bool {
    c == c0 || (c0 <= c && exists|i: int| 0 <= i < ms.len() && #[trigger] ms[i].end() == c)
}

/// `c` is the lowest search point from `c0` at which `size` bytes are free.
pub open spec fn lowest_free_point(ms: Seq<MemoryMapping>, c0: int, size: int, c: int) -> bool {
    &&& search_point(ms, c0, c)
    &&& range_free(ms, c, size)
    &&& forall|d: int| search_point(ms, c0, d) && range_free(ms, d, size) ==> c <= d
}

/// Whether no two regions of `ms` overlap.
pub open spec fn pairwise_disjoint(ms: Seq<MemoryMapping>) -> bool {
    forall|i: int, j: int| 0 <= i < ms.len() && 0 <= j < ms.len() && i != j ==> !ms[i].overlaps(ms[j])
}

/// Whether `a` is readable, and writable or executable as asked, in the first
/// region of `ms` that contains it.
pub open spec fn access_ok_at(ms: Seq<MemoryMapping>, a: int, write: bool, execute: bool) -> bool {
    exists|i: int|
        0 <= i < ms.len() && #[trigger] ms[i].contains(a) && (forall|k: int|
            0 <= k < i ==> !ms[k].contains(a)) && ms[i].permissions.allows(write, execute)
}

/// Every address of `[start, end)` may be accessed so (`access_ok_at`).
pub open spec fn range_access_ok(ms: Seq<MemoryMapping>, start: int, end: int, write: bool, execute: bool) -> bool {
    forall|a: int| start <= a < end ==> #[trigger] access_ok_at(ms, a, write, execute)
}

/// Addresses `a` and `b >= a` lie in the same regions when no region starts
/// in `(a, b]` and every region holding `a` reaches past `b`.
proof fn lemma_same_regions(ms: Seq<MemoryMapping>, a: int, b: int)
    requires
        a <= b,
        forall|j: int| 0 <= j < ms.len() && (#[trigger] ms[j]).contains(a) ==> b < ms[j].end(),
        forall|j: int| 0 <= j < ms.len() && (#[trigger] ms[j]).start_addr > a ==> b < ms[j].start_addr,
    ensures
        forall|j: int| 0 <= j < ms.len() ==> ((#[trigger] ms[j]).contains(a) <==> ms[j].contains(b)),
{
    assert forall|j: int| 0 <= j < ms.len() implies ((#[trigger] ms[j]).contains(a) <==> ms[j].contains(b)) by {
        if ms[j].contains(b) && !ms[j].contains(a) {
            assert(ms[j].start_addr > a);
        }
    }
}

/// Only one region is the first to contain an address.
proof fn lemma_first_containing_unique(ms: Seq<MemoryMapping>, a: int, i: int)
    requires
        first_containing(ms, a, i),
    ensures
        forall|j: int| first_containing(ms, a, j) ==> j == i,
{
    assert forall|j: int| first_containing(ms, a, j) implies j == i by {
        if j < i {
            assert(!ms[j].contains(a));
        } else if i < j {
            assert(!ms[i].contains(a));
        }
    }
}

/// The region registry.
pub struct MemoryMappingManager {
    mappings: MappingTable,
    next_virtual_addr: usize,
    total_mapped: usize,
}

impl MemoryMappingManager {
    /// The registered regions, in the registry's order.
    pub closed spec fn regions(&self) -> Seq<MemoryMapping> {
        mapping_entries(self.mappings).map_values(|e: (usize, MemoryMapping)| e.1)
    }

    /// Where the next search for a free virtual range starts.
    pub closed spec fn next_virtual(&self) -> usize {
        self.next_virtual_addr
    }

    /// The running total of mapped bytes.
    pub closed spec fn total_mapped(&self) -> usize {
        self.total_mapped
    }

    pub closed spec fn wf(&self) -> bool {
        let e = mapping_entries(self.mappings);
        &&& e.len() <= MAX_MAPPINGS
        &&& forall|i: int| 0 <= i < e.len() ==> #[trigger] e[i].0 == e[i].1.start_addr
        &&& forall|i: int| 0 <= i < e.len() ==> (#[trigger] e[i]).1.end() <= usize::MAX
        &&& forall|i: int| 0 <= i < e.len() ==> (#[trigger] e[i]).1.size > 0
        &&& forall|i: int, j: int| 0 <= i < j < e.len() ==> e[i].0 != e[j].0
        &&& self.total_mapped >= total_size(self.regions())
    }

    pub fn new() -> (m: Self)
        ensures
            m.wf(),
            m.regions() == Seq::<MemoryMapping>::empty(),
            m.next_virtual() == VIRTUAL_BASE,
            m.total_mapped() == 0,
    {
        let m = MemoryMappingManager { mappings: table_new(), next_virtual_addr: VIRTUAL_BASE, total_mapped: 0 };
        assert(m.regions() =~= Seq::<MemoryMapping>::empty());
        m
    }
}

/// Whether some region of `ms` shares an address with `[start, start + len)`.
pub open spec fn overlaps_any(ms: Seq<MemoryMapping>, start: int, len: int) -> bool {
    exists|i: int| 0 <= i < ms.len() && !(#[trigger] ms[i].end() <= start || start + len <= ms[i].start_addr)
}

/// `m` is the region `[start, start + size)` with the given attributes.
pub open spec fn describes(
    m: MemoryMapping,
    start: int,
    size: int,
    permissions: MemoryPermissions,
    mapping_type: MappingType,
    name: Seq<char>,
    physical: Option<usize>,
) -> bool {
    &&& m.start_addr == start
    &&& m.size == size
    &&& m.permissions == permissions
    &&& m.mapping_type == mapping_type
    &&& name_chars(m.name) == name
    &&& m.physical_addr == physical
}

impl MemoryMappingManager {
    /// The requests `map_memory` takes: the region and the new total must be
    /// representable.
    pub open spec fn map_memory_allowed(&self, addr: usize, size: usize) -> bool {
        &&& self.wf()
        &&& size <= usize::MAX - 4095
        &&& size > 0 ==> addr + page_round(size as int) <= usize::MAX
        &&& size > 0 && !overlaps_any(self.regions(), addr as int, page_round(size as int))
            ==> self.total_mapped() + page_round(size as int) <= usize::MAX
    }

    /// Whether `map_memory` (and so `map_framebuffer_memory`) may be asked
    /// to register `[addr, addr + size)`: `map_memory_allowed`, tested.
    pub fn map_allowed(&self, addr: usize, size: usize) -> (b: bool)
        requires
            self.wf(),
        ensures
            b == self.map_memory_allowed(addr, size),
    {
        if size > usize::MAX - 4095 {
            return false;
        }
        if size == 0 {
            return true;
        }
        let aligned = page_align(size);
        if addr > usize::MAX - aligned {
            return false;
        }
        match self.first_overlap(addr, aligned) {
            Some(j) => {
                proof {
                    let ms = self.regions();
                    assert(!(ms[j as int].end() <= addr || addr + aligned <= ms[j as int].start_addr));
                    assert(overlaps_any(ms, addr as int, aligned as int));
                }
                true
            },
            None => {
                proof {
                    let ms = self.regions();
                    if overlaps_any(ms, addr as int, aligned as int) {
                        let i = choose|i: int| 0 <= i < ms.len() && !(#[trigger] ms[i].end() <= addr as int
                            || addr as int + aligned as int <= ms[i].start_addr);
                        assert(!(ms[i].end() <= addr as int || addr as int + aligned as int <= ms[i].start_addr));
                    }
                }
                self.total_mapped <= usize::MAX - aligned
            },
        }
    }

    /// What `map_memory` does, from registry `self` to registry `after`.
    pub open spec fn map_memory_result(
        &self,
        after: &Self,
        addr: usize,
        size: usize,
        permissions: MemoryPermissions,
        mapping_type: MappingType,
        name: &str,
        r: Result<usize, MappingError>,
    ) -> bool {
        let ms = self.regions();
        let aligned = page_round(size as int);
        &&& size == 0 ==> r == Err::<usize, MappingError>(MappingError::ZeroSize)
        &&& size > 0 && overlaps_any(ms, addr as int, aligned) ==> r == Err::<usize, MappingError>(MappingError::Overlap)
        &&& r is Err ==> after.regions() == ms && after.total_mapped() == self.total_mapped()
        &&& size > 0 && !overlaps_any(ms, addr as int, aligned) ==> {
            &&& r == Ok::<usize, MappingError>(addr)
            &&& after.total_mapped() == self.total_mapped() + aligned
            &&& ms.len() < MAX_MAPPINGS ==> {
                &&& after.regions().len() == ms.len() + 1
                &&& after.regions().drop_last() =~= ms
                &&& describes(after.regions().last(), addr as int, aligned, permissions, mapping_type, stored_name(name), None)
            }
            &&& ms.len() >= MAX_MAPPINGS ==> after.regions() == ms
        }
        &&& after.next_virtual() == self.next_virtual()
        &&& pairwise_disjoint(ms) ==> pairwise_disjoint(after.regions())
    }
}

impl MemoryMappingManager {
    /// Registering `m` under its start address when no region starts there.
    proof fn lemma_push(&self, other: &Self, m: MemoryMapping)
        requires
            self.wf(),
            mapping_entries(other.mappings) == mapping_entries(self.mappings).push((m.start_addr, m)),
            !has_key(mapping_entries(self.mappings), m.start_addr),
            mapping_entries(self.mappings).len() < MAX_MAPPINGS,
            m.end() <= usize::MAX,
            m.size > 0,
            other.total_mapped >= self.total_mapped + m.size,
        ensures
            other.wf(),
            other.regions() == self.regions().push(m),
    {
        let e = mapping_entries(self.mappings);
        let e2 = mapping_entries(other.mappings);
        assert(other.regions() =~= self.regions().push(m));
        assert(other.regions().drop_last() =~= self.regions());
        assert forall|i: int, j: int| 0 <= i < j < e2.len() implies e2[i].0 != e2[j].0 by {
            if j == e.len() {
                assert(e[i].0 == e2[i].0);
            }
        }
    }

    /// Registers the region `[addr, addr + size)`, rounded up to whole pages,
    /// unless it is empty or overlaps a registered region. A region that
    /// would be the 65th is counted in the total but not kept.
    pub fn map_memory(
        &mut self,
        addr: usize,
        size: usize,
        permissions: MemoryPermissions,
        mapping_type: MappingType,
        name: &str,
    ) -> (r: Result<usize, MappingError>)
        requires
            old(self).map_memory_allowed(addr, size),
        ensures
            final(self).wf(),
            old(self).map_memory_result(&*final(self), addr, size, permissions, mapping_type, name, r),
    {
        if size == 0 {
            return Err(MappingError::ZeroSize);
        }
        let aligned_size = page_align(size);
        let new_mapping = MemoryMapping {
            start_addr: addr,
            size: aligned_size,
            permissions,
            mapping_type,
            name: name_from_str(name),
            physical_addr: None,
        };
        let ghost ms = self.regions();
        let ghost e = mapping_entries(self.mappings);
        let n = table_len(&self.mappings);
        let mut i: usize = 0;
        while i < n
            invariant
                self.wf(),
                ms == self.regions(),
                e == mapping_entries(self.mappings),
                n == e.len(),
                i <= n,
                new_mapping.start_addr == addr,
                new_mapping.size == aligned_size,
                aligned_size == page_round(size as int),
                addr + aligned_size <= usize::MAX,
                size > 0,
                forall|k: int| 0 <= k < i ==> (#[trigger] ms[k].end() <= addr || addr + aligned_size
                    <= ms[k].start_addr),
            decreases n - i,
        {
            let existing = table_value(&self.mappings, i);
            assert(ms[i as int] == e[i as int].1);
            if new_mapping.overlaps_with(existing) {
                assert(!(ms[i as int].end() <= addr || addr + aligned_size <= ms[i as int].start_addr));
                return Err(MappingError::Overlap);
            }
            i = i + 1;
        }
        assert(!overlaps_any(ms, addr as int, aligned_size as int)) by {
            assert forall|k: int| 0 <= k < ms.len() implies (#[trigger] ms[k].end() <= addr || addr
                + aligned_size <= ms[k].start_addr) by {}
        }
        assert(!has_key(e, addr)) by {
            if has_key(e, addr) {
                let k = choose|k: int| 0 <= k < e.len() && e[k].0 == addr;
                assert(ms[k] == e[k].1);
                assert(ms[k].end() <= addr || addr + aligned_size <= ms[k].start_addr);
            }
        }
        let ghost old_self = *self;
        let ghost m = new_mapping;
        let _ = table_insert(&mut self.mappings, addr, new_mapping);
        self.total_mapped = self.total_mapped + aligned_size;
        proof {
            if e.len() < MAX_MAPPINGS {
                old_self.lemma_push(self, m);
                let ms2 = self.regions();
                if pairwise_disjoint(ms) {
                    assert forall|a: int, b: int|
                        0 <= a < ms2.len() && 0 <= b < ms2.len() && a != b implies !ms2[a].overlaps(
                        ms2[b]) by {
                        if a == ms.len() {
                            assert(ms[b].end() <= addr || addr + aligned_size <= ms[b].start_addr);
                        } else if b == ms.len() {
                            assert(ms[a].end() <= addr || addr + aligned_size <= ms[a].start_addr);
                        } else {
                            assert(ms2[a] == ms[a] && ms2[b] == ms[b]);
                        }
                    }
                }
            } else {
                assert(self.regions() == old_self.regions());
            }
        }
        Ok(addr)
    }
}

/// Region `i` is the first region of `ms` that contains `a`.
pub open spec fn first_containing(ms: Seq<MemoryMapping>, a: int, i: int) -> bool {
    &&& 0 <= i < ms.len()
    &&& ms[i].contains(a)
    &&& forall|k: int| 0 <= k < i ==> !(#[trigger] ms[k]).contains(a)
}

/// After a region is mapped, every address inside it is found in that
/// region: no earlier region contains it, so the lookup (`find_mapping`)
/// gives the new one.
pub proof fn law_find_after_map(
    m0: MemoryMappingManager,
    m1: MemoryMappingManager,
    addr: usize,
    size: usize,
    permissions: MemoryPermissions,
    mapping_type: MappingType,
    name: &str,
    a: int,
)
    requires
        m0.regions().len() < MAX_MAPPINGS,
        m0.map_memory_result(&m1, addr, size, permissions, mapping_type, name, Ok(addr)),
        addr <= a < addr + page_round(size as int),
    ensures
        first_containing(m1.regions(), a, m0.regions().len() as int),
        describes(
            m1.regions()[m0.regions().len() as int],
            addr as int,
            page_round(size as int),
            permissions,
            mapping_type,
            stored_name(name),
            None,
        ),
{
    let ms = m0.regions();
    let ms1 = m1.regions();
    let aligned = page_round(size as int);
    assert(size > 0);
    assert(!overlaps_any(ms, addr as int, aligned));
    assert(ms1.last() == ms1[ms.len() as int]);
    assert forall|k: int| 0 <= k < ms.len() as int implies !(#[trigger] ms1[k]).contains(a) by {
        assert(ms1[k] == ms1.drop_last()[k]);
        assert(ms1[k] == ms[k]);
        assert(ms[k].end() <= addr || addr + aligned <= ms[k].start_addr);
    }
}

impl MemoryMappingManager {
    proof fn lemma_regions(&self, i: int)
        requires
            self.wf(),
            0 <= i < mapping_entries(self.mappings).len(),
        ensures
            self.regions().len() == mapping_entries(self.mappings).len(),
            self.regions()[i] == mapping_entries(self.mappings)[i].1,
            self.regions()[i].end() <= usize::MAX,
            self.regions()[i].size > 0,
    {
    }

    /// The first region that contains `addr`, if any.
    pub fn find_mapping(&self, addr: usize) -> (r: Option<&MemoryMapping>)
        requires
            self.wf(),
        ensures
            r is None ==> forall|i: int| 0 <= i < self.regions().len() ==> !(#[trigger] self.regions()[i]).contains(addr as int),
            r matches Some(m) ==> exists|i: int| first_containing(self.regions(), addr as int, i) && self.regions()[i] == *m,
    {
        let ghost ms = self.regions();
        let n = table_len(&self.mappings);
        let mut i: usize = 0;
        while i < n
            invariant
                self.wf(),
                ms == self.regions(),
                n == ms.len(),
                i <= n,
                forall|k: int| 0 <= k < i ==> !(#[trigger] ms[k]).contains(addr as int),
            decreases n - i,
        {
            proof { self.lemma_regions(i as int); }
            let mapping = table_value(&self.mappings, i);
            if mapping.contains_address(addr) {
                assert(first_containing(ms, addr as int, i as int));
                return Some(mapping);
            }
            i = i + 1;
        }
        None
    }

    /// The first region that meets `[c, c + size)`, if any.
    fn first_overlap(&self, c: usize, size: usize) -> (r: Option<usize>)
        requires
            self.wf(),
            c + size <= usize::MAX,
        ensures
            r is None ==> range_free(self.regions(), c as int, size as int),
            r matches Some(j) ==> j < self.regions().len() && c < self.regions()[j as int].end() && c
                + size > self.regions()[j as int].start_addr,
    {
        let ghost ms = self.regions();
        let n = table_len(&self.mappings);
        let mut i: usize = 0;
        while i < n
            invariant
                self.wf(),
                ms == self.regions(),
                n == ms.len(),
                i <= n,
                c + size <= usize::MAX,
                forall|k: int| 0 <= k < i ==> !(c < #[trigger] ms[k].end() && c + size > ms[k].start_addr),
            decreases n - i,
        {
            proof { self.lemma_regions(i as int); }
            let mapping = table_value(&self.mappings, i);
            if c < mapping.end_addr() && c + size > mapping.start_addr {
                return Some(i);
            }
            i = i + 1;
        }
        None
    }

    /// Finds the lowest free page-aligned search point for `size` bytes,
    /// starting at the next virtual address and jumping past each region in
    /// the way; gives up once a jump lands above `VIRTUAL_LIMIT`.
    fn find_free_virtual_address(&mut self, size: usize) -> (r: Result<usize, MappingError>)
        requires
            old(self).wf(),
            size > 0,
            size <= usize::MAX - VIRTUAL_LIMIT,
            old(self).next_virtual() + 4095 + size <= usize::MAX,
        ensures
            final(self).wf(),
            final(self).regions() == old(self).regions(),
            final(self).total_mapped() == old(self).total_mapped(),
            ({
                let ms = old(self).regions();
                let c0 = page_round(old(self).next_virtual() as int);
                &&& r matches Ok(c) ==> {
                    &&& lowest_free_point(ms, c0, size as int, c as int)
                    &&& (c == c0 || c <= VIRTUAL_LIMIT)
                    &&& final(self).next_virtual() == c + size
                }
                &&& r is Err ==> {
                    &&& r == Err::<usize, MappingError>(MappingError::AddressSpaceExhausted)
                    &&& !range_free(ms, c0, size as int)
                    &&& forall|d: int| search_point(ms, c0, d) && range_free(ms, d, size as int) ==> d > VIRTUAL_LIMIT
                    &&& final(self).next_virtual() == old(self).next_virtual()
                }
            }),
    {
        let ghost ms = self.regions();
        let candidate0 = page_align(self.next_virtual_addr);
        let ghost c0 = candidate0 as int;
        let mut candidate = candidate0;
        loop
            invariant
                self.wf(),
                ms == self.regions(),
                ms == old(self).regions(),
                self.next_virtual_addr == old(self).next_virtual_addr,
                self.total_mapped == old(self).total_mapped,
                c0 == page_round(old(self).next_virtual() as int),
                c0 + size <= usize::MAX,
                size > 0,
                size <= usize::MAX - VIRTUAL_LIMIT,
                search_point(ms, c0, candidate as int),
                candidate == c0 || candidate <= VIRTUAL_LIMIT,
                candidate == c0 || !range_free(ms, c0, size as int),
                forall|d: int| search_point(ms, c0, d) && range_free(ms, d, size as int) ==> candidate <= d,
            decreases usize::MAX - candidate,
        {
            match self.first_overlap(candidate, size) {
                None => {
                    self.next_virtual_addr = candidate + size;
                    return Ok(candidate);
                },
                Some(j) => {
                    proof { self.lemma_regions(j as int); }
                    let mapping = table_value(&self.mappings, j);
                    let next = mapping.start_addr + mapping.size;
                    assert forall|d: int| search_point(ms, c0, d) && range_free(ms, d, size as int) implies next <= d by {
                        if d < next {
                            assert(!(d < ms[j as int].end() && d + size > ms[j as int].start_addr));
                        }
                    }
                    assert(search_point(ms, c0, next as int));
                    candidate = next;
                    if candidate > VIRTUAL_LIMIT {
                        return Err(MappingError::AddressSpaceExhausted);
                    }
                },
            }
        }
    }
}

/// The mark of a name whose region is used for VirtIO DMA.
pub open spec fn virtio_tag() -> Seq<char> {
    seq!['V', 'i', 'r', 't', 'I', 'O']
}

/// Whether `t` occurs in `s` as a run of consecutive characters.
pub open spec fn contains_run(s: Seq<char>, t: Seq<char>) -> bool {
    exists|i: int| 0 <= i && i + t.len() <= s.len() && #[trigger] s.subrange(i, i + t.len()) == t
}

/// Whether `name` contains "VirtIO".
pub fn mentions_virtio(name: &str) -> (r: bool)
    ensures
        r == contains_run(name@, virtio_tag()),
{
    let tag: [char; 6] = ['V', 'i', 'r', 't', 'I', 'O'];
    assert(tag@ == virtio_tag());
    let n = name.unicode_len();
    if n < 6 {
        return false;
    }
    let mut i: usize = 0;
    while i <= n - 6
        invariant
            n == name@.len(),
            n >= 6,
            tag@ == virtio_tag(),
            forall|p: int| 0 <= p < i ==> #[trigger] name@.subrange(p, p + 6) != virtio_tag(),
        decreases n - i,
    {
        let mut j: usize = 0;
        let mut same = true;
        while j < 6
            invariant
                i <= n - 6,
                n == name@.len(),
                tag@ == virtio_tag(),
                j <= 6,
                same == forall|q: int| 0 <= q < j ==> name@[i + q] == virtio_tag()[q],
            decreases 6 - j,
        {
            if name.get_char(i + j) != tag[j] {
                same = false;
            }
            j = j + 1;
        }
        if same {
            assert(name@.subrange(i as int, i + 6) =~= virtio_tag());
            return true;
        }
        assert(name@.subrange(i as int, i + 6) != virtio_tag()) by {
            let q = choose|q: int| 0 <= q < 6 && name@[i + q] != virtio_tag()[q];
            assert(name@.subrange(i as int, i + 6)[q] == name@[i + q]);
        }
        i = i + 1;
    }
    assert forall|p: int| 0 <= p && p + virtio_tag().len() <= name@.len() implies #[trigger] name@.subrange(p, p + virtio_tag().len()) != virtio_tag() by {
        assert(name@.subrange(p, p + 6) != virtio_tag());
    }
    false
}

/// The allocations held by the regions of `ms`, as (address, size), in order.
pub open spec fn allocations(ms: Seq<MemoryMapping>) -> Seq<(usize, usize)>
    decreases ms.len(),
{
    if ms.len() == 0 {
        Seq::empty()
    } else {
        let rest = allocations(ms.drop_last());
        match ms.last().physical_addr {
            Some(p) => rest.push((p, ms.last().size)),
            None => rest,
        }
    }
}

impl MemoryMappingManager {
    /// The requests `map_virtual_memory` takes: the search, the region and
    /// the new total must stay representable.
    pub open spec fn map_virtual_allowed(&self, size: usize, physical: Option<usize>) -> bool {
        &&& self.wf()
        &&& size <= usize::MAX - VIRTUAL_LIMIT - 4095
        &&& self.next_virtual() + 4095 + page_round(size as int) <= usize::MAX
        &&& physical matches Some(p) ==> p + page_round(size as int) <= usize::MAX
            && self.total_mapped() + page_round(size as int) <= usize::MAX
    }

    /// What `map_virtual_memory` does, from registry `self` to registry
    /// `after`, given the allocation `physical`.
    pub open spec fn map_virtual_result(
        &self,
        after: &Self,
        size: usize,
        permissions: MemoryPermissions,
        mapping_type: MappingType,
        name: &str,
        physical: Option<usize>,
        r: Result<usize, MappingError>,
    ) -> bool {
        let ms = self.regions();
        let aligned = page_round(size as int);
        let c0 = page_round(self.next_virtual() as int);
        let v = after.next_virtual() - aligned;
        let unchanged = after.regions() == ms && after.total_mapped() == self.total_mapped();
        &&& size == 0 ==> r == Err::<usize, MappingError>(MappingError::ZeroSize) && unchanged
            && after.next_virtual() == self.next_virtual()
        &&& size > 0 && !range_free(ms, c0, aligned) && (forall|d: int|
            search_point(ms, c0, d) && range_free(ms, d, aligned) ==> d > VIRTUAL_LIMIT)
            ==> r == Err::<usize, MappingError>(MappingError::AddressSpaceExhausted) && unchanged
            && after.next_virtual() == self.next_virtual()
        &&& r != Err::<usize, MappingError>(MappingError::ZeroSize) && r != Err::<usize, MappingError>(
            MappingError::AddressSpaceExhausted,
        ) ==> {
            &&& lowest_free_point(ms, c0, aligned, v)
            &&& v == c0 || v <= VIRTUAL_LIMIT
            &&& physical is None ==> r == Err::<usize, MappingError>(MappingError::PhysicalAllocationFailed)
                && unchanged
            &&& physical matches Some(p) ==> {
                let mapped: usize = if contains_run(name@, virtio_tag()) {
                    p
                } else {
                    v as usize
                };
                &&& r == Ok::<usize, MappingError>(mapped)
                &&& after.total_mapped() == self.total_mapped() + aligned
                &&& forall|i: int| 0 <= i < ms.len() && (#[trigger] ms[i]).start_addr == mapped ==> {
                    &&& after.regions().len() == ms.len()
                    &&& after.regions() =~= ms.update(i, after.regions()[i])
                    &&& describes(after.regions()[i], mapped as int, aligned, permissions, mapping_type, stored_name(name), Some(p))
                }
                &&& (forall|i: int| 0 <= i < ms.len() ==> (#[trigger] ms[i]).start_addr != mapped) ==> {
                    &&& ms.len() < MAX_MAPPINGS ==> after.regions().len() == ms.len() + 1
                        && after.regions().drop_last() =~= ms
                        && describes(after.regions().last(), mapped as int, aligned, permissions, mapping_type, stored_name(name), Some(p))
                    &&& ms.len() >= MAX_MAPPINGS ==> after.regions() == ms
                }
            }
        }
        &&& !contains_run(name@, virtio_tag()) && pairwise_disjoint(ms) ==> pairwise_disjoint(after.regions())
    }
}

impl MemoryMappingManager {
    /// Registers `m` in place of the region that starts where it does, if
    /// any, and after the others otherwise.
    proof fn lemma_insert(&self, other: &Self, m: MemoryMapping, ok: bool)
        requires
            self.wf(),
            m.end() <= usize::MAX,
            m.size > 0,
            other.total_mapped >= self.total_mapped + m.size,
            ({
                let e = mapping_entries(self.mappings);
                let e2 = mapping_entries(other.mappings);
                &&& forall|i: int| 0 <= i < e.len() && (#[trigger] e[i]).0 == m.start_addr ==> ok && e2 == e.update(i, (m.start_addr, m))
                &&& !has_key(e, m.start_addr) && e.len() < 64 ==> ok && e2 == e.push((m.start_addr, m))
                &&& !has_key(e, m.start_addr) && e.len() >= 64 ==> !ok && e2 == e
            }),
        ensures
            other.wf(),
            forall|i: int| 0 <= i < self.regions().len() && (#[trigger] self.regions()[i]).start_addr == m.start_addr
                ==> other.regions() == self.regions().update(i, m),
            (forall|i: int| 0 <= i < self.regions().len() ==> (#[trigger] self.regions()[i]).start_addr != m.start_addr)
                ==> (self.regions().len() < MAX_MAPPINGS ==> other.regions() == self.regions().push(m))
                && (self.regions().len() >= MAX_MAPPINGS ==> other.regions() == self.regions()),
    {
        let e = mapping_entries(self.mappings);
        let e2 = mapping_entries(other.mappings);
        let ms = self.regions();
        if has_key(e, m.start_addr) {
            let i = choose|i: int| 0 <= i < e.len() && e[i].0 == m.start_addr;
            assert(e2 == e.update(i, (m.start_addr, m)));
            assert(other.regions() =~= ms.update(i, m));
            lemma_total_size_update(ms, i, m);
            lemma_total_size_ge(ms, i);
            assert forall|k: int| 0 <= k < ms.len() && (#[trigger] ms[k]).start_addr == m.start_addr implies other.regions()
                == ms.update(k, m) by {
                assert(e[k].0 == e[i].0);
            }
            assert forall|a: int, b: int| 0 <= a < b < e2.len() implies e2[a].0 != e2[b].0 by {
                assert(e[a].0 != e[b].0);
            }
            assert forall|k: int| 0 <= k < e2.len() implies #[trigger] e2[k].0 == e2[k].1.start_addr by {
                assert(e[k].0 == e[k].1.start_addr);
            }
        } else {
            if e.len() < 64 {
                self.lemma_push(other, m);
            } else {
                assert(other.regions() == ms);
            }
            assert forall|k: int| 0 <= k < ms.len() implies (#[trigger] ms[k]).start_addr != m.start_addr by {
                assert(e[k].0 == ms[k].start_addr);
            }
        }
    }

    /// Maps `size` bytes, rounded up to whole pages, of memory allocated for
    /// the purpose. `physical` is what the allocator gave for that many bytes
    /// (`None` when it had no room). The region is registered at the lowest
    /// free virtual address, or at the allocation itself when `name`
    /// contains "VirtIO", whose devices need the physical address.
    pub fn map_virtual_memory(
        &mut self,
        size: usize,
        permissions: MemoryPermissions,
        mapping_type: MappingType,
        name: &str,
        physical: Option<usize>,
    ) -> (r: Result<usize, MappingError>)
        requires
            old(self).map_virtual_allowed(size, physical),
        ensures
            final(self).wf(),
            old(self).map_virtual_result(&*final(self), size, permissions, mapping_type, name, physical, r),
    {
        if size == 0 {
            return Err(MappingError::ZeroSize);
        }
        let aligned_size = page_align(size);
        let virtual_addr = match self.find_free_virtual_address(aligned_size) {
            Ok(a) => a,
            Err(e) => {
                return Err(e);
            },
        };
        let physical_addr = match physical {
            Some(p) => p,
            None => {
                return Err(MappingError::PhysicalAllocationFailed);
            },
        };
        let to_physical = mentions_virtio(name);
        let mapped_addr = if to_physical { physical_addr } else { virtual_addr };
        let new_mapping = MemoryMapping {
            start_addr: mapped_addr,
            size: aligned_size,
            permissions,
            mapping_type,
            name: name_from_str(name),
            physical_addr: Some(physical_addr),
        };
        let ghost before = *self;
        let ghost m = new_mapping;
        let ghost ms = self.regions();
        proof {
            if !to_physical {
                assert forall|i: int| 0 <= i < ms.len() implies (#[trigger] ms[i]).start_addr != mapped_addr by {
                    assert(!(virtual_addr < ms[i].end() && virtual_addr + aligned_size > ms[i].start_addr));
                }
            }
        }
        let ok = table_insert(&mut self.mappings, mapped_addr, new_mapping);
        self.total_mapped = self.total_mapped + aligned_size;
        proof {
            before.lemma_insert(self, m, ok);
            let ms2 = self.regions();
            if !to_physical && pairwise_disjoint(ms) && ms.len() < MAX_MAPPINGS {
                assert forall|a: int, b: int|
                    0 <= a < ms2.len() && 0 <= b < ms2.len() && a != b implies !ms2[a].overlaps(ms2[b]) by {
                    if a == ms.len() {
                        assert(!(virtual_addr < ms[b].end() && virtual_addr + aligned_size > ms[b].start_addr));
                    } else if b == ms.len() {
                        assert(!(virtual_addr < ms[a].end() && virtual_addr + aligned_size > ms[a].start_addr));
                    } else {
                        assert(ms2[a] == ms[a] && ms2[b] == ms[b]);
                    }
                }
            }
        }
        Ok(mapped_addr)
    }
}

impl MemoryMappingManager {
    /// Removes the region that starts at `addr` and hands it back, so that
    /// the memory it was given can be freed.
    pub fn unmap_memory(&mut self, addr: usize) -> (r: Result<MemoryMapping, MappingError>)
        requires
            old(self).wf(),
        ensures
            final(self).wf(),
            final(self).next_virtual() == old(self).next_virtual(),
            old(self).unmap_result(&*final(self), addr, r),
    {
        let ghost before = *self;
        let ghost e = mapping_entries(self.mappings);
        let ghost ms = self.regions();
        match table_remove(&mut self.mappings, addr) {
            Some(mapping) => {
                proof {
                    let i = choose|i: int| 0 <= i < e.len() && e[i].0 == addr;
                    assert(e[i].0 == addr);
                    lemma_total_size_ge(ms, i);
                }
                self.total_mapped = self.total_mapped - mapping.size;
                proof {
                    let i = choose|i: int| 0 <= i < e.len() && e[i].0 == addr;
                    let e2 = mapping_entries(self.mappings);
                    assert(e2 == swap_removed(e, i));
                    assert(self.regions() =~= swap_removed(ms, i));
                    lemma_total_size_swap_removed(ms, i);
                    assert forall|k: int| 0 <= k < ms.len() && (#[trigger] ms[k]).start_addr == addr implies k == i by {
                        assert(e[k].0 == e[i].0);
                    }
                    assert forall|a: int, b: int| 0 <= a < b < e2.len() implies e2[a].0 != e2[b].0 by {
                        if a == i && i < e.len() - 1 {
                            assert(e[e.len() - 1].0 != e[b].0);
                        } else if b == i && i < e.len() - 1 {
                            assert(e[a].0 != e[e.len() - 1].0);
                        }
                    }
                    assert forall|k: int| 0 <= k < e2.len() implies #[trigger] e2[k].0 == e2[k].1.start_addr by {
                        if k == i {
                            assert(e[e.len() - 1].0 == e[e.len() - 1].1.start_addr);
                        } else {
                            assert(e[k].0 == e[k].1.start_addr);
                        }
                    }
                    assert forall|k: int| 0 <= k < e2.len() implies (#[trigger] e2[k]).1.end() <= usize::MAX && e2[k].1.size > 0 by {
                        if k == i {
                            assert(e[e.len() - 1].1.end() <= usize::MAX);
                        } else {
                            assert(e[k].1.end() <= usize::MAX);
                        }
                    }
                }
                Ok(mapping)
            },
            None => {
                proof {
                    assert forall|k: int| 0 <= k < ms.len() implies (#[trigger] ms[k]).start_addr != addr by {
                        assert(e[k].0 == ms[k].start_addr);
                    }
                }
                Err(MappingError::NotFound)
            },
        }
    }

    /// Whether every address of `[addr, addr + size)` lies in a region that
    /// is readable, and writable or executable where asked; the region of an
    /// address is the first one that contains it (see `find_mapping`). An
    /// empty range is allowed.
    pub fn check_access(&self, addr: usize, size: usize, write: bool, execute: bool) -> (r: bool)
        requires
            self.wf(),
            addr + size <= usize::MAX,
        ensures
            r == range_access_ok(self.regions(), addr as int, addr + size, write, execute),
    {
        let ghost ms = self.regions();
        let end_addr = addr + size;
        let mut cur = addr;
        while cur < end_addr
            invariant
                self.wf(),
                ms == self.regions(),
                end_addr == addr + size,
                end_addr <= usize::MAX,
                addr <= cur <= end_addr,
                forall|a: int| addr <= a < cur ==> #[trigger] access_ok_at(ms, a, write, execute),
            decreases end_addr - cur,
        {
            match self.find_mapping(cur) {
                Some(mapping) => {
                    if (write && !mapping.permissions.write) || (execute && !mapping.permissions.execute)
                        || !mapping.permissions.read {
                        proof {
                            let i = choose|i: int| first_containing(ms, cur as int, i) && ms[i] == *mapping;
                            lemma_first_containing_unique(ms, cur as int, i);
                            assert(!access_ok_at(ms, cur as int, write, execute));
                        }
                        return false;
                    }
                    proof {
                        let i = choose|i: int| first_containing(ms, cur as int, i) && ms[i] == *mapping;
                        assert(access_ok_at(ms, cur as int, write, execute));
                    }
                },
                None => {
                    proof {
                        assert(!access_ok_at(ms, cur as int, write, execute));
                    }
                    return false;
                },
            }
            let next = self.next_boundary(cur, end_addr);
            proof {
                assert forall|a: int| addr <= a < next implies #[trigger] access_ok_at(ms, a, write, execute) by {
                    if a >= cur {
                        lemma_same_regions(ms, cur as int, a);
                        let j = choose|j: int|
                            0 <= j < ms.len() && #[trigger] ms[j].contains(cur as int) && (forall|k: int|
                                0 <= k < j ==> !ms[k].contains(cur as int)) && ms[j].permissions.allows(write, execute);
                        assert(ms[j].contains(a));
                    }
                }
            }
            cur = next;
        }
        true
    }

    /// The end of the stretch from `cur` in which the same regions contain
    /// every address: the nearest region end or region start after `cur`,
    /// capped at `limit`.
    fn next_boundary(&self, cur: usize, limit: usize) -> (next: usize)
        requires
            self.wf(),
            cur < limit,
        ensures
            cur < next <= limit,
            forall|j: int| 0 <= j < self.regions().len() && (#[trigger] self.regions()[j]).contains(cur as int)
                ==> next <= self.regions()[j].end(),
            forall|j: int| 0 <= j < self.regions().len() && (#[trigger] self.regions()[j]).start_addr > cur
                ==> next <= self.regions()[j].start_addr,
    {
        let ghost ms = self.regions();
        let n = table_len(&self.mappings);
        let mut next = limit;
        let mut i: usize = 0;
        while i < n
            invariant
                self.wf(),
                ms == self.regions(),
                n == ms.len(),
                i <= n,
                cur < next <= limit,
                forall|j: int| 0 <= j < i && (#[trigger] ms[j]).contains(cur as int) ==> next <= ms[j].end(),
                forall|j: int| 0 <= j < i && (#[trigger] ms[j]).start_addr > cur ==> next <= ms[j].start_addr,
            decreases n - i,
        {
            proof { self.lemma_regions(i as int); }
            let m = table_value(&self.mappings, i);
            let m_end = m.start_addr + m.size;
            if m.start_addr <= cur && cur < m_end && m_end < next {
                next = m_end;
            }
            if m.start_addr > cur && m.start_addr < next {
                next = m.start_addr;
            }
            i = i + 1;
        }
        next
    }

    /// Counts of the registered regions by type, with the running total.
    pub fn get_stats(&self) -> (s: MappingStats)
        requires
            self.wf(),
        ensures
            s.total_mappings == self.regions().len(),
            s.total_mapped_size == self.total_mapped(),
            s.virtual_mappings == count_type(self.regions(), MappingType::Virtual) + count_type(self.regions(), MappingType::DmaBuffer),
            s.physical_mappings == count_type(self.regions(), MappingType::Physical),
            s.device_mappings == count_type(self.regions(), MappingType::Device),
            s.framebuffer_mappings == count_type(self.regions(), MappingType::Framebuffer),
    {
        let ghost ms = self.regions();
        let n = table_len(&self.mappings);
        let mut stats = MappingStats {
            total_mappings: n,
            total_mapped_size: self.total_mapped,
            virtual_mappings: 0,
            physical_mappings: 0,
            device_mappings: 0,
            framebuffer_mappings: 0,
        };
        let mut i: usize = 0;
        while i < n
            invariant
                self.wf(),
                ms == self.regions(),
                n == ms.len(),
                n <= MAX_MAPPINGS,
                i <= n,
                stats.total_mappings == n,
                stats.total_mapped_size == self.total_mapped(),
                stats.virtual_mappings == count_type(ms.take(i as int), MappingType::Virtual) + count_type(ms.take(i as int), MappingType::DmaBuffer),
                stats.physical_mappings == count_type(ms.take(i as int), MappingType::Physical),
                stats.device_mappings == count_type(ms.take(i as int), MappingType::Device),
                stats.framebuffer_mappings == count_type(ms.take(i as int), MappingType::Framebuffer),
                stats.virtual_mappings + stats.physical_mappings + stats.device_mappings + stats.framebuffer_mappings <= i,
            decreases n - i,
        {
            proof { self.lemma_regions(i as int); }
            let mapping = table_value(&self.mappings, i);
            assert(ms.take(i + 1).drop_last() =~= ms.take(i as int));
            match mapping.mapping_type {
                MappingType::Virtual => stats.virtual_mappings = stats.virtual_mappings + 1,
                MappingType::Physical => stats.physical_mappings = stats.physical_mappings + 1,
                MappingType::Device => stats.device_mappings = stats.device_mappings + 1,
                MappingType::Framebuffer => stats.framebuffer_mappings = stats.framebuffer_mappings + 1,
                MappingType::DmaBuffer => stats.virtual_mappings = stats.virtual_mappings + 1,
            }
            i = i + 1;
        }
        assert(ms.take(n as int) =~= ms);
        stats
    }

    /// The first 32 registered regions, in order.
    pub fn get_mappings(&self) -> (v: Vec<&MemoryMapping>)
        requires
            self.wf(),
        ensures
            v@.len() == if self.regions().len() < 32 { self.regions().len() } else { 32 },
            forall|i: int| 0 <= i < v@.len() ==> *v@[i] == self.regions()[i],
    {
        let ghost ms = self.regions();
        let n = table_len(&self.mappings);
        let mut result: Vec<&MemoryMapping> = Vec::new();
        let mut i: usize = 0;
        while i < n && i < 32
            invariant
                self.wf(),
                ms == self.regions(),
                n == ms.len(),
                i <= n,
                i <= 32,
                result@.len() == i,
                forall|k: int| 0 <= k < i ==> *result@[k] == ms[k],
            decreases n - i,
        {
            proof { self.lemma_regions(i as int); }
            result.push(table_value(&self.mappings, i));
            i = i + 1;
        }
        result
    }

    /// Forgets every region and starts the virtual addresses over; hands
    /// back the allocations the regions held, to be freed.
    pub fn clear_all_mappings(&mut self) -> (freed: Vec<(usize, usize)>)
        requires
            old(self).wf(),
        ensures
            final(self).wf(),
            freed@ == allocations(old(self).regions()),
            final(self).regions() == Seq::<MemoryMapping>::empty(),
            final(self).total_mapped() == 0,
            final(self).next_virtual() == VIRTUAL_BASE,
    {
        let ghost ms = self.regions();
        let n = table_len(&self.mappings);
        let mut freed: Vec<(usize, usize)> = Vec::new();
        let mut i: usize = 0;
        while i < n
            invariant
                self.wf(),
                ms == self.regions(),
                n == ms.len(),
                i <= n,
                freed@ == allocations(ms.take(i as int)),
            decreases n - i,
        {
            proof { self.lemma_regions(i as int); }
            let mapping = table_value(&self.mappings, i);
            assert(ms.take(i + 1).drop_last() =~= ms.take(i as int));
            if let Some(physical_addr) = mapping.physical_addr {
                freed.push((physical_addr, mapping.size));
            }
            i = i + 1;
        }
        assert(ms.take(n as int) =~= ms);
        table_clear(&mut self.mappings);
        self.total_mapped = 0;
        self.next_virtual_addr = VIRTUAL_BASE;
        assert(self.regions() =~= Seq::<MemoryMapping>::empty());
        freed
    }
}

/// Maps physical memory at its own address (`map_memory` with `Physical`).
pub fn map_physical_memory(
    mapper: &mut MemoryMappingManager,
    physical_addr: usize,
    size: usize,
    permissions: MemoryPermissions,
    name: &str,
) -> (r: Result<usize, MappingError>)
    requires
        old(mapper).map_memory_allowed(physical_addr, size),
    ensures
        final(mapper).wf(),
        old(mapper).map_memory_result(&*final(mapper), physical_addr, size, permissions, MappingType::Physical, name, r),
{
    mapper.map_memory(physical_addr, size, permissions, MappingType::Physical, name)
}

/// Maps device registers, readable and writable (`map_memory` with `Device`).
pub fn map_device_memory(
    mapper: &mut MemoryMappingManager,
    device_addr: usize,
    size: usize,
    name: &str,
) -> (r: Result<usize, MappingError>)
    requires
        old(mapper).map_memory_allowed(device_addr, size),
    ensures
        final(mapper).wf(),
        old(mapper).map_memory_result(&*final(mapper), device_addr, size, MemoryPermissions::of(true, true, false), MappingType::Device, name, r),
{
    mapper.map_memory(device_addr, size, MemoryPermissions::read_write(), MappingType::Device, name)
}

/// Maps newly allocated memory (`map_virtual_memory` with `Virtual`).
pub fn map_virtual_memory(
    mapper: &mut MemoryMappingManager,
    size: usize,
    permissions: MemoryPermissions,
    name: &str,
    physical: Option<usize>,
) -> (r: Result<usize, MappingError>)
    requires
        old(mapper).map_virtual_allowed(size, physical),
    ensures
        final(mapper).wf(),
        old(mapper).map_virtual_result(&*final(mapper), size, permissions, MappingType::Virtual, name, physical, r),
{
    mapper.map_virtual_memory(size, permissions, MappingType::Virtual, name, physical)
}

/// Maps a framebuffer, readable and writable (`map_memory` with `Framebuffer`).
pub fn map_framebuffer_memory(
    mapper: &mut MemoryMappingManager,
    physical_addr: usize,
    size: usize,
    name: &str,
) -> (r: Result<usize, MappingError>)
    requires
        old(mapper).map_memory_allowed(physical_addr, size),
    ensures
        final(mapper).wf(),
        old(mapper).map_memory_result(&*final(mapper), physical_addr, size, MemoryPermissions::of(true, true, false), MappingType::Framebuffer, name, r),
{
    mapper.map_memory(physical_addr, size, MemoryPermissions::read_write(), MappingType::Framebuffer, name)
}

/// Removes the region that starts at `addr`.
pub fn unmap_memory(mapper: &mut MemoryMappingManager, addr: usize) -> (r: Result<MemoryMapping, MappingError>)
    requires
        old(mapper).wf(),
    ensures
        final(mapper).wf(),
        final(mapper).next_virtual() == old(mapper).next_virtual(),
        old(mapper).unmap_result(&*final(mapper), addr, r),
{
    mapper.unmap_memory(addr)
}

/// Whether an access to `[addr, addr + size)` is allowed (`check_access`).
pub fn check_memory_access(mapper: &MemoryMappingManager, addr: usize, size: usize, write: bool, execute: bool) -> (r: bool)
    requires
        mapper.wf(),
        addr + size <= usize::MAX,
    ensures
        r == range_access_ok(mapper.regions(), addr as int, addr + size, write, execute),
{
    mapper.check_access(addr, size, write, execute)
}

/// The first region that contains `addr`, if any.
pub fn find_memory_mapping(mapper: &MemoryMappingManager, addr: usize) -> (r: Option<&MemoryMapping>)
    requires
        mapper.wf(),
    ensures
        r is None ==> forall|i: int| 0 <= i < mapper.regions().len() ==> !(#[trigger] mapper.regions()[i]).contains(addr as int),
        r matches Some(m) ==> exists|i: int| first_containing(mapper.regions(), addr as int, i) && mapper.regions()[i] == *m,
{
    mapper.find_mapping(addr)
}

/// Counts of the registered regions (`get_stats`).
pub fn get_mapping_stats(mapper: &MemoryMappingManager) -> (s: MappingStats)
    requires
        mapper.wf(),
    ensures
        s.total_mappings == mapper.regions().len(),
        s.total_mapped_size == mapper.total_mapped(),
        s.virtual_mappings == count_type(mapper.regions(), MappingType::Virtual) + count_type(mapper.regions(), MappingType::DmaBuffer),
        s.physical_mappings == count_type(mapper.regions(), MappingType::Physical),
        s.device_mappings == count_type(mapper.regions(), MappingType::Device),
        s.framebuffer_mappings == count_type(mapper.regions(), MappingType::Framebuffer),
{
    mapper.get_stats()
}

} // verus!
