//! The slab allocator's bookkeeping: size classes, slabs with an allocation
//! bitmap, and the choice of slab for each request. Memory for new slabs and
//! for requests no slab serves comes from the page allocator underneath,
//! which the caller drives.
use vstd::prelude::*;

verus! {

/// Number of size classes.
pub const NUM_SIZE_CLASSES: usize = 10;
/// Most slabs kept per size class.
pub const MAX_SLABS_PER_CLASS: usize = 16;
/// Most objects a slab tracks (one bit each).
pub const MAX_OBJECTS_PER_SLAB: usize = 64;

/// The object size of class `i`: 8, 16, ..., 4096 bytes.
pub open spec fn class_size(i: int) -> int {
    seq![8int, 16, 32, 64, 128, 256, 512, 1024, 2048, 4096][i]
}

/// The object size of size class `i`.
pub fn size_class(i: usize) -> (s: usize)
    requires
        i < NUM_SIZE_CLASSES,
    ensures
        s == class_size(i as int),
{
    let classes: [usize; 10] = [8, 16, 32, 64, 128, 256, 512, 1024, 2048, 4096];
    assert(classes@ =~= seq![8usize, 16, 32, 64, 128, 256, 512, 1024, 2048, 4096]);
    classes[i]
}

/// The smallest size class whose objects hold `size` bytes, if any.
pub fn find_size_class(size: usize) -> (r: Option<usize>)
    ensures
        r matches Some(i) ==> i < NUM_SIZE_CLASSES && class_size(i as int) >= size && forall|j: int|
            0 <= j < i ==> class_size(j) < size,
        r is None ==> forall|j: int| 0 <= j < NUM_SIZE_CLASSES ==> class_size(j) < size,
{
    let mut i: usize = 0;
    while i < NUM_SIZE_CLASSES
        invariant
            i <= NUM_SIZE_CLASSES,
            forall|j: int| 0 <= j < i ==> class_size(j) < size,
        decreases NUM_SIZE_CLASSES - i,
    {
        if size_class(i) >= size {
            return Some(i);
        }
        i = i + 1;
    }
    None
}

/// Whether bit `i` of `b` is set.
pub open spec fn bit_set(b: u64, i: int) -> bool {
    b & (1u64 << (i as u64)) != 0
}

/// Number of clear bits among the first `n` of `b`.
pub open spec fn clear_bits(b: u64, n: int) -> int
    decreases n,
{
    if n <= 0 {
        0
    } else {
        clear_bits(b, n - 1) + if bit_set(b, n - 1) { 0int } else { 1int }
    }
}

proof fn lemma_clear_bits_change(b: u64, b2: u64, i: int, n: int, set: bool)
    requires
        0 <= i < n <= 64,
        bit_set(b2, i) == set,
        bit_set(b, i) != set,
        forall|j: int| 0 <= j < 64 && j != i ==> bit_set(b2, j) == bit_set(b, j),
    ensures
        clear_bits(b2, n) == clear_bits(b, n) + if set { -1int } else { 1int },
    decreases n,
{
    if n - 1 > i {
        lemma_clear_bits_change(b, b2, i, n - 1, set);
    } else {
        lemma_clear_bits_same(b, b2, i);
    }
}

proof fn lemma_clear_bits_same(b: u64, b2: u64, n: int)
    requires
        0 <= n <= 64,
        forall|j: int| 0 <= j < n ==> bit_set(b2, j) == bit_set(b, j),
    ensures
        clear_bits(b2, n) == clear_bits(b, n),
    decreases n,
{
    if n > 0 {
        lemma_clear_bits_same(b, b2, n - 1);
    }
}

proof fn lemma_clear_bits_bounds(b: u64, n: int)
    requires
        0 <= n,
    ensures
        0 <= clear_bits(b, n) <= n,
    decreases n,
{
    if n > 0 {
        lemma_clear_bits_bounds(b, n - 1);
    }
}

/// With a clear bit among the first `n`, one of them is clear.
proof fn lemma_some_clear(b: u64, n: int)
    requires
        0 <= n,
        clear_bits(b, n) > 0,
    ensures
        exists|j: int| 0 <= j < n && !bit_set(b, j),
    decreases n,
{
    if n > 0 {
        if bit_set(b, n - 1) {
            lemma_some_clear(b, n - 1);
        }
    }
}

proof fn lemma_set_bit(b: u64, i: u64)
    requires
        i < 64,
    ensures
        bit_set(b | (1u64 << i), i as int),
        forall|j: int| 0 <= j < 64 && j != i ==> bit_set(b | (1u64 << i), j) == bit_set(b, j),
{
    assert(forall|j: u64| j < 64 && j != i ==> ((b | (1u64 << i)) & (1u64 << j) != 0) == (b & (1u64 << j) != 0)) by (bit_vector)
        requires
            i < 64,
    ;
    assert((b | (1u64 << i)) & (1u64 << i) != 0) by (bit_vector)
        requires
            i < 64,
    ;
    assert forall|j: int| 0 <= j < 64 && j != i implies bit_set(b | (1u64 << i), j) == bit_set(b, j) by {
        let jj = j as u64;
        assert(jj < 64 && jj != i);
    }
}

proof fn lemma_clear_bit(b: u64, i: u64)
    requires
        i < 64,
    ensures
        !bit_set(b & !(1u64 << i), i as int),
        forall|j: int| 0 <= j < 64 && j != i ==> bit_set(b & !(1u64 << i), j) == bit_set(b, j),
{
    assert(forall|j: u64| j < 64 && j != i ==> ((b & !(1u64 << i)) & (1u64 << j) != 0) == (b & (1u64 << j) != 0)) by (bit_vector)
        requires
            i < 64,
    ;
    assert((b & !(1u64 << i)) & (1u64 << i) == 0) by (bit_vector)
        requires
            i < 64,
    ;
    assert forall|j: int| 0 <= j < 64 && j != i implies bit_set(b & !(1u64 << i), j) == bit_set(b, j) by {
        let jj = j as u64;
        assert(jj < 64 && jj != i);
    }
}

/// A slab: `capacity` objects of `object_size` bytes from `base_addr`; a
/// set bit marks an allocated object.
#[derive(Debug, Clone, Copy, PartialEq, Eq, Structural)]
pub struct Slab {
    pub base_addr: usize,
    pub object_size: usize,
    pub capacity: usize,
    pub allocated_bitmap: u64,
    pub free_count: usize,
}

impl Slab {
    pub open spec fn wf(&self) -> bool {
        &&& 0 < self.capacity <= MAX_OBJECTS_PER_SLAB
        &&& self.object_size > 0
        &&& self.base_addr + self.capacity * self.object_size <= usize::MAX
        &&& self.free_count == clear_bits(self.allocated_bitmap, self.capacity as int)
    }

    /// One past the slab's last byte.
    pub open spec fn end(&self) -> int {
        self.base_addr + self.capacity * self.object_size
    }

    /// The first free object of the slab, if any.
    pub open spec fn first_free(&self) -> Option<int> {
        if exists|i: int| 0 <= i < self.capacity && !bit_set(self.allocated_bitmap, i) {
            Some(choose|i: int| 0 <= i < self.capacity && !bit_set(self.allocated_bitmap, i)
                && forall|j: int| 0 <= j < i ==> bit_set(self.allocated_bitmap, j))
        } else {
            None
        }
    }

    /// What taking an object does: from a full slab nothing; otherwise the
    /// first free object is marked and its address given.
    pub open spec fn alloc_step(s: Slab, s2: Slab, r: Option<usize>) -> bool {
        &&& s2.base_addr == s.base_addr
        &&& s2.object_size == s.object_size
        &&& s2.capacity == s.capacity
        &&& s.free_count == 0 ==> r is None && s2 == s
        &&& s.free_count > 0 ==> (s.first_free() matches Some(i) && {
            &&& r == Some((s.base_addr + i * s.object_size) as usize)
            &&& bit_set(s2.allocated_bitmap, i)
            &&& forall|j: int| 0 <= j < 64 && j != i ==> bit_set(s2.allocated_bitmap, j) == bit_set(s.allocated_bitmap, j)
            &&& s2.free_count == s.free_count - 1
        })
    }

    /// What giving back `addr` does: the object there is unmarked if the
    /// slab holds it and it is allocated; otherwise nothing changes.
    pub open spec fn free_step(s: Slab, s2: Slab, addr: int) -> bool {
        let i = (addr - s.base_addr) / (s.object_size as int);
        &&& s2.base_addr == s.base_addr
        &&& s2.object_size == s.object_size
        &&& s2.capacity == s.capacity
        &&& if s.base_addr <= addr < s.end() && bit_set(s.allocated_bitmap, i) {
            &&& !bit_set(s2.allocated_bitmap, i)
            &&& forall|j: int| 0 <= j < 64 && j != i ==> bit_set(s2.allocated_bitmap, j) == bit_set(s.allocated_bitmap, j)
            &&& s2.free_count == s.free_count + 1
        } else {
            s2 == s
        }
    }

    /// An empty slab of `capacity` objects of `object_size` bytes.
    pub fn new(base_addr: usize, object_size: usize, capacity: usize) -> (s: Self)
        requires
            0 < capacity <= MAX_OBJECTS_PER_SLAB,
            object_size > 0,
            base_addr + capacity * object_size <= usize::MAX,
        ensures
            s.wf(),
            s.base_addr == base_addr,
            s.object_size == object_size,
            s.capacity == capacity,
            s.allocated_bitmap == 0,
            s.free_count == capacity,
    {
        proof {
            assert forall|j: int| 0 <= j < 64 implies !bit_set(0u64, j) by {
                let jj = j as u64;
                assert(0u64 & (1u64 << jj) == 0) by (bit_vector);
            }
            lemma_all_clear(capacity as int);
        }
        Slab { base_addr, object_size, capacity, allocated_bitmap: 0, free_count: capacity }
    }

    /// Takes the first free object and gives its address.
    pub fn allocate_object(&mut self) -> (r: Option<usize>)
        requires
            old(self).wf(),
        ensures
            final(self).wf(),
            final(self).base_addr == old(self).base_addr,
            final(self).object_size == old(self).object_size,
            final(self).capacity == old(self).capacity,
            Slab::alloc_step(*old(self), *final(self), r),
    {
        if self.free_count == 0 {
            return None;
        }
        proof {
            lemma_some_clear(self.allocated_bitmap, self.capacity as int);
        }
        let mut i: usize = 0;
        while i < self.capacity
            invariant
                self.wf(),
                *self == *old(self),
                self.free_count > 0,
                i <= self.capacity,
                forall|j: int| 0 <= j < i ==> bit_set(self.allocated_bitmap, j),
                exists|j: int| 0 <= j < self.capacity && !bit_set(self.allocated_bitmap, j),
            decreases self.capacity - i,
        {
            if self.allocated_bitmap & (1u64 << (i as u64)) == 0 {
                let ghost old_bitmap = self.allocated_bitmap;
                proof {
                    lemma_set_bit(old_bitmap, i as u64);
                    lemma_clear_bits_change(old_bitmap, old_bitmap | (1u64 << (i as u64)), i as int, self.capacity as int, true);
                    let k = choose|k: int| 0 <= k < self.capacity && !bit_set(old_bitmap, k)
                        && forall|j: int| 0 <= j < k ==> bit_set(old_bitmap, j);
                    if k < i {
                        assert(bit_set(old_bitmap, k));
                    } else if i < k {
                        assert(!bit_set(old_bitmap, i as int));
                    }
                    assert(i * self.object_size <= self.capacity * self.object_size) by (nonlinear_arith)
                        requires
                            i < self.capacity,
                    ;
                }
                self.allocated_bitmap = self.allocated_bitmap | (1u64 << (i as u64));
                self.free_count = self.free_count - 1;
                return Some(self.base_addr + i * self.object_size);
            }
            i = i + 1;
        }
        None
    }

    /// Gives back the object at `addr`, if it lies in the slab and is
    /// allocated; anything else is left as it is.
    pub fn deallocate_object(&mut self, addr: usize)
        requires
            old(self).wf(),
        ensures
            final(self).wf(),
            final(self).base_addr == old(self).base_addr,
            final(self).object_size == old(self).object_size,
            final(self).capacity == old(self).capacity,
            Slab::free_step(*old(self), *final(self), addr as int),
    {
        if !self.owns_address(addr) {
            return;
        }
        let offset = addr - self.base_addr;
        let object_index = offset / self.object_size;
        proof {
            assert(object_index < self.capacity) by (nonlinear_arith)
                requires
                    offset < self.capacity * self.object_size,
                    object_index == offset / self.object_size,
                    self.object_size > 0,
            ;
        }
        if object_index < self.capacity {
            let mask = 1u64 << (object_index as u64);
            if self.allocated_bitmap & mask != 0 {
                let ghost old_bitmap = self.allocated_bitmap;
                proof {
                    lemma_clear_bit(old_bitmap, object_index as u64);
                    lemma_clear_bits_change(old_bitmap, old_bitmap & !mask, object_index as int, self.capacity as int, false);
                    lemma_clear_bits_bounds(old_bitmap, self.capacity as int);
                }
                self.allocated_bitmap = self.allocated_bitmap & !mask;
                self.free_count = self.free_count + 1;
            }
        }
    }

    /// Whether `addr` lies in the slab.
    pub fn owns_address(&self, addr: usize) -> (b: bool)
        requires
            self.wf(),
        ensures
            b == (self.base_addr <= addr < self.end()),
    {
        let slab_end = self.base_addr + self.capacity * self.object_size;
        addr >= self.base_addr && addr < slab_end
    }

    /// Whether no object of the slab is allocated.
    pub fn is_empty(&self) -> (b: bool)
        ensures
            b == (self.free_count == self.capacity),
    {
        self.free_count == self.capacity
    }
}

#[verifier::rlimit(80)]
#[verifier::spinoff_prover]
/// Giving back the object a slab just handed out leaves the slab as it was:
/// the same objects are marked and as many are free.
pub proof fn law_free_undoes_allocate(s0: Slab, s1: Slab, s2: Slab, addr: usize)
    requires
        s0.wf(),
        s0.free_count > 0,
        Slab::alloc_step(s0, s1, Some(addr)),
        Slab::free_step(s1, s2, addr as int),
    ensures
        forall|j: int| 0 <= j < 64 ==> bit_set(s2.allocated_bitmap, j) == bit_set(s0.allocated_bitmap, j),
        s2.free_count == s0.free_count,
{
    lemma_some_clear(s0.allocated_bitmap, s0.capacity as int);
    let i = s0.first_free()->0;
    assert(0 <= i < s0.capacity && !bit_set(s0.allocated_bitmap, i));
    let base = s0.base_addr as int;
    let size = s0.object_size as int;
    assert(i * size + size <= s0.capacity * size) by (nonlinear_arith)
        requires
            0 <= i < s0.capacity,
            size > 0,
    ;
    assert(addr == base + i * size);
    assert((addr - base) / size == i) by (nonlinear_arith)
        requires
            addr - base == i * size,
            size > 0,
            i >= 0,
    ;
    assert(base <= addr < s1.end());
}

proof fn lemma_all_clear(n: int)
    requires
        0 <= n <= 64,
        forall|j: int| 0 <= j < 64 ==> !bit_set(0u64, j),
    ensures
        clear_bits(0u64, n) == n,
    decreases n,
{
    if n > 0 {
        lemma_all_clear(n - 1);
    }
}

/// Bytes of a new slab for class `class`: a page for objects up to 256
/// bytes, else room for eight objects (at least a page).
pub open spec fn slab_bytes(class: int) -> int {
    if class_size(class) <= 256 {
        4096
    } else if class_size(class) * 8 > 4096 {
        class_size(class) * 8
    } else {
        4096
    }
}

/// Objects in a slab of `class`: as many as fit in `slab_bytes(class)`, at
/// most `MAX_OBJECTS_PER_SLAB`.
pub open spec fn slab_capacity(class: int) -> int {
    let fitting = slab_bytes(class) / class_size(class);
    if fitting > MAX_OBJECTS_PER_SLAB { MAX_OBJECTS_PER_SLAB as int } else { fitting }
}

pub fn slab_size_for(class: usize) -> (n: usize)
    requires
        class < NUM_SIZE_CLASSES,
    ensures
        n == slab_bytes(class as int),
        n <= 32768,
{
    let object_size = size_class(class);
    if object_size <= 256 {
        4096
    } else if object_size * 8 > 4096 {
        object_size * 8
    } else {
        4096
    }
}

/// Why a slab could not be added.
#[derive(Debug, Clone, Copy, PartialEq, Eq, Structural)]
pub enum SlabError {
    /// The class already has all its slabs.
    OutOfMemory,
}

/// What a small request needs next.
#[derive(Debug, Clone, Copy, PartialEq, Eq, Structural)]
pub enum AllocStep {
    /// Served from a slab at this address.
    Done(usize),
    /// Too large for any class: take this many bytes from the page allocator.
    Direct(usize),
    /// No slab of this class has room: a new slab of the given size is needed.
    NeedSlab(usize, usize),
}

/// Counts over all slabs.
#[derive(Debug, Clone, Copy, PartialEq, Eq, Structural)]
pub struct SlabStats {
    pub total_allocations: usize,
    pub total_deallocations: usize,
    pub slab_allocations: usize,
    pub total_slab_memory: usize,
    pub total_objects_allocated: usize,
    pub total_objects_capacity: usize,
}

/// Number of slabs of class `c` in `s`.
pub open spec fn class_count(s: Seq<(usize, Slab)>, c: int) -> nat
    decreases s.len(),
{
    if s.len() == 0 {
        0
    } else {
        class_count(s.drop_last(), c) + if s.last().0 == c { 1nat } else { 0nat }
    }
}

/// Sums over slabs: bytes, allocated objects, objects.
pub open spec fn slab_sums(s: Seq<(usize, Slab)>) -> (int, int, int)
    decreases s.len(),
{
    if s.len() == 0 {
        (0, 0, 0)
    } else {
        let (m, a, c) = slab_sums(s.drop_last());
        let x = s.last().1;
        (m + x.capacity * x.object_size, a + x.capacity - x.free_count, c + x.capacity)
    }
}

/// The slabs of all classes, each tagged with its class, oldest first.
pub struct SlabAllocator {
    slabs: Vec<(usize, Slab)>,
    total_allocations: usize,
    total_deallocations: usize,
    slab_allocations: usize,
}

impl SlabAllocator {
    pub closed spec fn slabs(&self) -> Seq<(usize, Slab)> {
        self.slabs@
    }

    pub closed spec fn counters(&self) -> (usize, usize, usize) {
        (self.total_allocations, self.total_deallocations, self.slab_allocations)
    }

    pub open spec fn wf(&self) -> bool {
        &&& self.slabs().len() <= NUM_SIZE_CLASSES * MAX_SLABS_PER_CLASS
        &&& forall|i: int| 0 <= i < self.slabs().len() ==> {
            let (c, x) = #[trigger] self.slabs()[i];
            &&& c < NUM_SIZE_CLASSES
            &&& x.wf()
            &&& x.object_size == class_size(c as int)
            &&& x.capacity * x.object_size <= 32768
        }
        &&& forall|c: int| 0 <= c < NUM_SIZE_CLASSES ==> class_count(self.slabs(), c) <= MAX_SLABS_PER_CLASS
    }

    pub fn new() -> (a: Self)
        ensures
            a.wf(),
            a.slabs() == Seq::<(usize, Slab)>::empty(),
            a.counters() == (0usize, 0usize, 0usize),
    {
        SlabAllocator { slabs: Vec::new(), total_allocations: 0, total_deallocations: 0, slab_allocations: 0 }
    }

    /// The smallest size class for `size` (see `find_size_class`).
    pub fn find_size_class(&self, size: usize) -> (r: Option<usize>)
        ensures
            r matches Some(i) ==> i < NUM_SIZE_CLASSES && class_size(i as int) >= size && forall|j: int|
                0 <= j < i ==> class_size(j) < size,
            r is None ==> forall|j: int| 0 <= j < NUM_SIZE_CLASSES ==> class_size(j) < size,
    {
        find_size_class(size)
    }

    /// Takes an object from the first slab of `class` with room.
    pub fn allocate_from_slab(&mut self, class: usize) -> (r: Option<usize>)
        requires
            old(self).wf(),
        ensures
            final(self).wf(),
            final(self).counters() == old(self).counters(),
            final(self).slabs().len() == old(self).slabs().len(),
            r is None ==> final(self).slabs() == old(self).slabs() && forall|i: int| 0 <= i < old(self).slabs().len()
                ==> (#[trigger] old(self).slabs()[i]).0 != class || old(self).slabs()[i].1.free_count == 0,
            r matches Some(a) ==> exists|i: int| 0 <= i < old(self).slabs().len() && {
                &&& (#[trigger] old(self).slabs()[i]).0 == class
                &&& old(self).slabs()[i].1.free_count > 0
                &&& (forall|k: int| 0 <= k < i ==> old(self).slabs()[k].0 != class || old(self).slabs()[k].1.free_count == 0)
                &&& final(self).slabs()[i].0 == class
                &&& Slab::alloc_step(old(self).slabs()[i].1, final(self).slabs()[i].1, Some(a))
                &&& forall|k: int| 0 <= k < old(self).slabs().len() && k != i ==> final(self).slabs()[k] == old(self).slabs()[k]
            },
    {
        let mut i: usize = 0;
        while i < self.slabs.len()
            invariant
                self.wf(),
                *self == *old(self),
                i <= self.slabs@.len(),
                forall|k: int| 0 <= k < i ==> self.slabs@[k].0 != class || self.slabs@[k].1.free_count == 0,
            decreases self.slabs@.len() - i,
        {
            let (c, slab) = self.slabs[i];
            if c == class && slab.free_count > 0 {
                let mut x = slab;
                assert(self.slabs()[i as int].1.wf());
                let r = x.allocate_object();
                let ghost before = self.slabs@;
                proof {
                    lemma_class_count_update(self.slabs@, i as int, (c, x));
                }
                self.slabs.set(i, (c, x));
                proof {
                    assert(self.slabs@ == before.update(i as int, (c, x)));
                    assert forall|cc: int| 0 <= cc < NUM_SIZE_CLASSES implies class_count(self.slabs(), cc) <= MAX_SLABS_PER_CLASS by {
                        assert(class_count(before.update(i as int, (c, x)), cc) == class_count(before, cc));
                    }
                    assert forall|k: int| 0 <= k < self.slabs().len() implies {
                        let (c2, x2) = #[trigger] self.slabs()[k];
                        &&& c2 < NUM_SIZE_CLASSES
                        &&& x2.wf()
                        &&& x2.object_size == class_size(c2 as int)
                        &&& x2.capacity * x2.object_size <= 32768
                    } by {
                        if k != i {
                            assert(self.slabs()[k] == before[k]);
                        }
                    }
                }
                return r;
            }
            i = i + 1;
        }
        None
    }

    /// Gives `addr` back to the first slab of `class` that holds it.
    pub fn deallocate_from_slab(&mut self, class: usize, addr: usize) -> (found: bool)
        requires
            old(self).wf(),
        ensures
            final(self).wf(),
            final(self).counters() == old(self).counters(),
            final(self).slabs().len() == old(self).slabs().len(),
            !found ==> final(self).slabs() == old(self).slabs() && forall|i: int| 0 <= i < old(self).slabs().len()
                ==> (#[trigger] old(self).slabs()[i]).0 != class || !(old(self).slabs()[i].1.base_addr <= addr < old(self).slabs()[i].1.end()),
            found ==> exists|i: int| 0 <= i < old(self).slabs().len() && {
                &&& (#[trigger] old(self).slabs()[i]).0 == class
                &&& old(self).slabs()[i].1.base_addr <= addr < old(self).slabs()[i].1.end()
                &&& (forall|k: int| 0 <= k < i ==> old(self).slabs()[k].0 != class || !(old(self).slabs()[k].1.base_addr <= addr < old(self).slabs()[k].1.end()))
                &&& final(self).slabs()[i].0 == class
                &&& Slab::free_step(old(self).slabs()[i].1, final(self).slabs()[i].1, addr as int)
                &&& forall|k: int| 0 <= k < old(self).slabs().len() && k != i ==> final(self).slabs()[k] == old(self).slabs()[k]
            },
    {
        let mut i: usize = 0;
        while i < self.slabs.len()
            invariant
                self.wf(),
                *self == *old(self),
                i <= self.slabs@.len(),
                forall|k: int| 0 <= k < i ==> self.slabs@[k].0 != class || !(self.slabs@[k].1.base_addr <= addr < self.slabs@[k].1.end()),
            decreases self.slabs@.len() - i,
        {
            let (c, slab) = self.slabs[i];
            assert(self.slabs()[i as int].1.wf());
            if c == class && slab.owns_address(addr) {
                let mut x = slab;
                x.deallocate_object(addr);
                let ghost before = self.slabs@;
                proof {
                    lemma_class_count_update(self.slabs@, i as int, (c, x));
                }
                self.slabs.set(i, (c, x));
                proof {
                    assert(self.slabs@ == before.update(i as int, (c, x)));
                    assert forall|cc: int| 0 <= cc < NUM_SIZE_CLASSES implies class_count(self.slabs(), cc) <= MAX_SLABS_PER_CLASS by {
                        assert(class_count(before.update(i as int, (c, x)), cc) == class_count(before, cc));
                    }
                    assert forall|k: int| 0 <= k < self.slabs().len() implies {
                        let (c2, x2) = #[trigger] self.slabs()[k];
                        &&& c2 < NUM_SIZE_CLASSES
                        &&& x2.wf()
                        &&& x2.object_size == class_size(c2 as int)
                        &&& x2.capacity * x2.object_size <= 32768
                    } by {
                        if k != i {
                            assert(self.slabs()[k] == before[k]);
                        }
                    }
                }
                return true;
            }
            i = i + 1;
        }
        false
    }

    /// Adds an empty slab of `class` whose memory starts at `base_addr` (the
    /// page allocator gave `slab_size_for(class)` bytes there). It holds as
    /// many objects as fit in that memory, at most 64 (the width of its
    /// bitmap; see `slab_capacity`). A class with all its slabs is refused.
    pub fn add_slab(&mut self, class: usize, base_addr: usize) -> (r: Result<(), SlabError>)
        requires
            old(self).wf(),
            class < NUM_SIZE_CLASSES,
            base_addr + slab_bytes(class as int) <= usize::MAX,
            old(self).counters().2 < usize::MAX,
        ensures
            final(self).wf(),
            ({
                let cap = slab_capacity(class as int);
                &&& class_count(old(self).slabs(), class as int) >= MAX_SLABS_PER_CLASS
                    ==> r == Err::<(), SlabError>(SlabError::OutOfMemory) && *final(self) == *old(self)
                &&& class_count(old(self).slabs(), class as int) < MAX_SLABS_PER_CLASS ==> {
                    &&& r is Ok
                    &&& final(self).slabs() == old(self).slabs().push((class, Slab {
                        base_addr,
                        object_size: class_size(class as int) as usize,
                        capacity: cap as usize,
                        allocated_bitmap: 0,
                        free_count: cap as usize,
                    }))
                    &&& final(self).counters() == (old(self).counters().0, old(self).counters().1, (old(self).counters().2 + 1) as usize)
                }
            }),
    {
        let object_size = size_class(class);
        let slab_size = slab_size_for(class);
        let fitting = slab_size / object_size;
        proof {
            assert(object_size >= 8 && slab_size >= object_size);
            assert(fitting >= 1) by (nonlinear_arith)
                requires
                    fitting == slab_size / object_size,
                    slab_size >= object_size,
                    object_size > 0,
            ;
            assert(fitting * object_size <= slab_size) by (nonlinear_arith)
                requires
                    fitting == slab_size / object_size,
                    object_size > 0,
            ;
        }
        let capacity = if fitting > MAX_OBJECTS_PER_SLAB { MAX_OBJECTS_PER_SLAB } else { fitting };
        let count = self.count_class(class);
        if count >= MAX_SLABS_PER_CLASS {
            return Err(SlabError::OutOfMemory);
        }
        proof {
            assert(capacity * object_size <= slab_size) by (nonlinear_arith)
                requires
                    capacity <= fitting,
                    fitting * object_size <= slab_size,
                    object_size > 0,
            ;
            lemma_count_sum(self.slabs@);
        }
        let slab = Slab::new(base_addr, object_size, capacity);
        let ghost before = self.slabs@;
        self.slabs.push((class, slab));
        proof {
            assert(self.slabs@.drop_last() =~= before);
            assert forall|c: int| 0 <= c < NUM_SIZE_CLASSES implies class_count(self.slabs(), c) <= MAX_SLABS_PER_CLASS by {
                assert(class_count(self.slabs@, c) == class_count(before, c) + if c == class { 1nat } else { 0nat });
            }
            assert forall|k: int| 0 <= k < self.slabs().len() implies {
                let (c2, x2) = #[trigger] self.slabs()[k];
                &&& c2 < NUM_SIZE_CLASSES
                &&& x2.wf()
                &&& x2.object_size == class_size(c2 as int)
                &&& x2.capacity * x2.object_size <= 32768
            } by {
                if k < before.len() {
                    assert(self.slabs()[k] == before[k]);
                }
            }
        }
        self.slab_allocations = self.slab_allocations + 1;
        Ok(())
    }

    /// Number of slabs of `class`.
    fn count_class(&self, class: usize) -> (n: usize)
        requires
            self.wf(),
        ensures
            n == class_count(self.slabs(), class as int),
    {
        let mut n: usize = 0;
        let mut i: usize = 0;
        while i < self.slabs.len()
            invariant
                self.wf(),
                i <= self.slabs@.len(),
                n == class_count(self.slabs@.take(i as int), class as int),
                n <= i,
            decreases self.slabs@.len() - i,
        {
            assert(self.slabs@.take(i + 1).drop_last() =~= self.slabs@.take(i as int));
            if self.slabs[i].0 == class {
                n = n + 1;
            }
            i = i + 1;
        }
        assert(self.slabs@.take(self.slabs@.len() as int) =~= self.slabs@);
        n
    }

    /// Starts a request for `size` bytes: too large for any class, it goes
    /// to the page allocator; otherwise a slab of its class serves it, or a
    /// new slab is needed.
    pub fn allocate(&mut self, size: usize) -> (r: AllocStep)
        requires
            old(self).wf(),
            old(self).counters().0 < usize::MAX,
        ensures
            final(self).wf(),
            final(self).counters() == ((old(self).counters().0 + 1) as usize, old(self).counters().1, old(self).counters().2),
            size > 4096 ==> r == AllocStep::Direct(size) && final(self).slabs() == old(self).slabs(),
            size <= 4096 ==> (find_class(size as int) matches Some(c) && {
                &&& r is Done || r == AllocStep::NeedSlab(c as usize, slab_bytes(c) as usize)
                &&& r == AllocStep::NeedSlab(c as usize, slab_bytes(c) as usize) ==> final(self).slabs() == old(self).slabs()
                    && forall|i: int| 0 <= i < old(self).slabs().len()
                        ==> (#[trigger] old(self).slabs()[i]).0 != c || old(self).slabs()[i].1.free_count == 0
                &&& r matches AllocStep::Done(a) ==> exists|i: int| 0 <= i < old(self).slabs().len() && {
                    &&& (#[trigger] old(self).slabs()[i]).0 == c
                    &&& Slab::alloc_step(old(self).slabs()[i].1, final(self).slabs()[i].1, Some(a))
                    &&& forall|k: int| 0 <= k < old(self).slabs().len() && k != i ==> final(self).slabs()[k] == old(self).slabs()[k]
                }
            }),
    {
        self.total_allocations = self.total_allocations + 1;
        if size > 4096 {
            return AllocStep::Direct(size);
        }
        let class = match find_size_class(size) {
            Some(c) => c,
            None => {
                assert(class_size(9) == 4096);
                return AllocStep::Direct(size);
            },
        };
        proof {
            lemma_find_class(size as int, class as int);
        }
        match self.allocate_from_slab(class) {
            Some(a) => AllocStep::Done(a),
            None => AllocStep::NeedSlab(class, slab_size_for(class)),
        }
    }

    /// Gives back `size` bytes at `addr`; `false` when no slab holds them
    /// and the page allocator takes them back.
    pub fn deallocate(&mut self, addr: usize, size: usize) -> (by_slab: bool)
        requires
            old(self).wf(),
            old(self).counters().1 < usize::MAX,
        ensures
            final(self).wf(),
            final(self).counters() == (old(self).counters().0, (old(self).counters().1 + 1) as usize, old(self).counters().2),
            size > 4096 ==> !by_slab && final(self).slabs() == old(self).slabs(),
            size <= 4096 ==> (find_class(size as int) matches Some(c) && {
                &&& !by_slab ==> final(self).slabs() == old(self).slabs()
                &&& by_slab ==> exists|i: int| 0 <= i < old(self).slabs().len() && {
                    &&& (#[trigger] old(self).slabs()[i]).0 == c
                    &&& old(self).slabs()[i].1.base_addr <= addr < old(self).slabs()[i].1.end()
                    &&& Slab::free_step(old(self).slabs()[i].1, final(self).slabs()[i].1, addr as int)
                    &&& forall|k: int| 0 <= k < old(self).slabs().len() && k != i ==> final(self).slabs()[k] == old(self).slabs()[k]
                }
            }),
    {
        self.total_deallocations = self.total_deallocations + 1;
        if size > 4096 {
            return false;
        }
        match find_size_class(size) {
            Some(class) => {
                proof {
                    lemma_find_class(size as int, class as int);
                }
                self.deallocate_from_slab(class, addr)
            },
            None => {
                assert(class_size(9) == 4096);
                false
            },
        }
    }

    /// Counters and sums over all slabs.
    pub fn get_stats(&self) -> (st: SlabStats)
        requires
            self.wf(),
        ensures
            st.total_allocations == self.counters().0,
            st.total_deallocations == self.counters().1,
            st.slab_allocations == self.counters().2,
            st.total_slab_memory == slab_sums(self.slabs()).0,
            st.total_objects_allocated == slab_sums(self.slabs()).1,
            st.total_objects_capacity == slab_sums(self.slabs()).2,
    {
        let mut memory: usize = 0;
        let mut allocated: usize = 0;
        let mut capacity: usize = 0;
        let mut i: usize = 0;
        while i < self.slabs.len()
            invariant
                self.wf(),
                i <= self.slabs@.len(),
                (memory as int, allocated as int, capacity as int) == slab_sums(self.slabs@.take(i as int)),
                memory <= 32768 * i,
                allocated <= 64 * i,
                capacity <= 64 * i,
            decreases self.slabs@.len() - i,
        {
            let (_, x) = self.slabs[i];
            assert(self.slabs@.take(i + 1).drop_last() =~= self.slabs@.take(i as int));
            assert(self.slabs()[i as int].1.wf());
            proof {
                lemma_clear_bits_bounds(x.allocated_bitmap, x.capacity as int);
            }
            memory = memory + x.capacity * x.object_size;
            allocated = allocated + (x.capacity - x.free_count);
            capacity = capacity + x.capacity;
            i = i + 1;
        }
        assert(self.slabs@.take(self.slabs@.len() as int) =~= self.slabs@);
        SlabStats {
            total_allocations: self.total_allocations,
            total_deallocations: self.total_deallocations,
            slab_allocations: self.slab_allocations,
            total_slab_memory: memory,
            total_objects_allocated: allocated,
            total_objects_capacity: capacity,
        }
    }
}

/// The class `find_size_class` picks for `size`.
pub open spec fn find_class(size: int) -> Option<int> {
    if exists|c: int| 0 <= c < NUM_SIZE_CLASSES && class_size(c) >= size {
        Some(choose|c: int| 0 <= c < NUM_SIZE_CLASSES && class_size(c) >= size && forall|j: int| 0 <= j < c ==> class_size(j) < size)
    } else {
        None
    }
}

proof fn lemma_find_class(size: int, c: int)
    requires
        0 <= c < NUM_SIZE_CLASSES,
        class_size(c) >= size,
        forall|j: int| 0 <= j < c ==> class_size(j) < size,
    ensures
        find_class(size) == Some(c),
{
    let d = choose|d: int| 0 <= d < NUM_SIZE_CLASSES && class_size(d) >= size && forall|j: int| 0 <= j < d ==> class_size(j) < size;
    assert(class_size(d) >= size);
    if d < c {
        assert(class_size(d) < size);
    } else if c < d {
        assert(class_size(c) < size);
    }
}

proof fn lemma_class_count_update(s: Seq<(usize, Slab)>, i: int, x: (usize, Slab))
    requires
        0 <= i < s.len(),
        x.0 == s[i].0,
    ensures
        forall|c: int| class_count(#[trigger] s.update(i, x), c) == class_count(s, c),
    decreases s.len(),
{
    assert forall|c: int| class_count(#[trigger] s.update(i, x), c) == class_count(s, c) by {
        lemma_class_count_update_one(s, i, x, c);
    }
}

proof fn lemma_class_count_update_one(s: Seq<(usize, Slab)>, i: int, x: (usize, Slab), c: int)
    requires
        0 <= i < s.len(),
        x.0 == s[i].0,
    ensures
        class_count(s.update(i, x), c) == class_count(s, c),
    decreases s.len(),
{
    if i < s.len() - 1 {
        assert(s.update(i, x).drop_last() =~= s.drop_last().update(i, x));
        lemma_class_count_update_one(s.drop_last(), i, x, c);
    } else {
        assert(s.update(i, x).drop_last() =~= s.drop_last());
    }
}

/// The sum of the class counts over all classes is the number of slabs.
proof fn lemma_count_sum(s: Seq<(usize, Slab)>)
    requires
        forall|i: int| 0 <= i < s.len() ==> (#[trigger] s[i]).0 < NUM_SIZE_CLASSES,
    ensures
        s.len() == class_count(s, 0) + class_count(s, 1) + class_count(s, 2) + class_count(s, 3) + class_count(s, 4)
            + class_count(s, 5) + class_count(s, 6) + class_count(s, 7) + class_count(s, 8) + class_count(s, 9),
    decreases s.len(),
{
    if s.len() > 0 {
        lemma_count_sum(s.drop_last());
    }
}

} // verus!
