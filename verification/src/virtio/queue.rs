//! VirtIO split virtqueue: descriptor table placement and ring index handling.
use vstd::prelude::*;
use super::error::{DiskError, DiskResult};
use super::mmio::{VIRTQ_DESC_F_NEXT, VIRTQ_DESC_F_WRITE};

verus! {

/// One descriptor table entry, in the layout of the VirtIO specification.
#[derive(Debug, Clone, Copy, PartialEq, Eq, Structural)]
pub struct VirtqDesc {
    /// Guest physical address of the buffer.
    pub addr: u64,
    /// Length of the buffer.
    pub len: u32,
    pub flags: u16,
    /// Index of the next descriptor when `flags` has `VIRTQ_DESC_F_NEXT`.
    pub next: u16,
}

impl VirtqDesc {
    pub fn new() -> (d: Self)
        ensures
            d == (VirtqDesc { addr: 0, len: 0, flags: 0, next: 0 }),
    {
        VirtqDesc { addr: 0, len: 0, flags: 0, next: 0 }
    }

    pub fn set(&mut self, addr: u64, len: u32, flags: u16, next: u16)
        ensures
            *final(self) == (VirtqDesc { addr, len, flags, next }),
    {
        self.addr = addr;
        self.len = len;
        self.flags = flags;
        self.next = next;
    }

    /// Whether the chain continues after this descriptor.
    pub fn has_next(&self) -> (b: bool)
        ensures
            b == (self.flags & VIRTQ_DESC_F_NEXT != 0),
    {
        (self.flags & VIRTQ_DESC_F_NEXT) != 0
    }

    /// Whether the device writes into this descriptor's buffer.
    pub fn is_write_only(&self) -> (b: bool)
        ensures
            b == (self.flags & VIRTQ_DESC_F_WRITE != 0),
    {
        (self.flags & VIRTQ_DESC_F_WRITE) != 0
    }
}

/// The available ring, where the driver offers descriptor chains.
pub struct VirtqAvail {
    pub flags: u16,
    /// Where the next offered chain will be written.
    pub idx: u16,
    pub ring: [u16; 256],
    pub used_event: u16,
}

impl VirtqAvail {
    pub fn new() -> (a: Self)
        ensures
            a.flags == 0,
            a.idx == 0,
            a.used_event == 0,
            forall|i: int| 0 <= i < 256 ==> #[trigger] a.ring@[i] == 0,
    {
        VirtqAvail { flags: 0, idx: 0, ring: [0u16; 256], used_event: 0 }
    }
}

/// An element of the used ring: which chain the device consumed, and how much
/// it wrote.
#[derive(Debug, Clone, Copy, PartialEq, Eq, Structural)]
pub struct VirtqUsedElem {
    pub id: u32,
    pub len: u32,
}

/// The used ring, where the device returns consumed chains.
pub struct VirtqUsed {
    pub flags: u16,
    pub idx: u16,
    pub ring: [VirtqUsedElem; 256],
    pub avail_event: u16,
}

impl VirtqUsed {
    pub fn new() -> (u: Self)
        ensures
            u.flags == 0,
            u.idx == 0,
            u.avail_event == 0,
            forall|i: int| 0 <= i < 256 ==> #[trigger] u.ring@[i] == (VirtqUsedElem { id: 0, len: 0 }),
    {
        VirtqUsed { flags: 0, idx: 0, ring: [VirtqUsedElem { id: 0, len: 0 }; 256], avail_event: 0 }
    }
}

/// Where a chain's descriptors go: the head index and, for each descriptor of
/// the chain in order, its table slot and the descriptor to store there; the
/// head is offered in entry `avail_slot` of the available ring, whose index
/// then becomes `avail_idx`.
pub struct ChainPlacement {
    pub head: u16,
    pub writes: Vec<(u16, VirtqDesc)>,
    pub avail_slot: u16,
    pub avail_idx: u16,
}

/// Whether `size` is a power of two.
pub open spec fn is_pow2(size: int) -> bool
    decreases size,
{
    if size <= 0 {
        false
    } else if size == 1 {
        true
    } else {
        size % 2 == 0 && is_pow2(size / 2)
    }
}

/// The descriptor that lands in the table for chain element `d` of a chain of
/// `len` descriptors placed from `head` in a table of `size` entries: a `next`
/// inside the chain is made absolute, one outside it is dropped.
pub open spec fn placed_desc(d: VirtqDesc, head: int, size: int, len: int) -> VirtqDesc {
    if d.flags & VIRTQ_DESC_F_NEXT != 0 {
        if (d.next as int) < len {
            VirtqDesc { next: ((head + d.next) % size) as u16, ..d }
        } else {
            VirtqDesc { flags: d.flags & !VIRTQ_DESC_F_NEXT, next: 0, ..d }
        }
    } else {
        d
    }
}

/// A VirtIO queue as the driver sees it.
#[derive(Debug)]
pub struct VirtioQueue {
    size: u16,
    pub ready: bool,
    desc_table: usize,
    avail_ring: usize,
    used_ring: usize,
    next_avail: u16,
    last_used_idx: u16,
    pub queue_index: u16,
}

impl VirtioQueue {
    /// Internal consistency: the next free descriptor lies inside the table.
    pub closed spec fn wf(&self) -> bool {
        ||| self.next_avail < self.size
        ||| (self.size == 0 && self.next_avail == 0)
    }

    pub closed spec fn spec_ready(&self) -> bool {
        self.ready
    }

    pub closed spec fn spec_queue_index(&self) -> u16 {
        self.queue_index
    }

    pub closed spec fn spec_size(&self) -> u16 {
        self.size
    }

    pub closed spec fn spec_next_avail(&self) -> u16 {
        self.next_avail
    }

    pub closed spec fn spec_last_used(&self) -> u16 {
        self.last_used_idx
    }

    pub closed spec fn spec_desc_table(&self) -> usize {
        self.desc_table
    }

    pub closed spec fn spec_avail_ring(&self) -> usize {
        self.avail_ring
    }

    pub closed spec fn spec_used_ring(&self) -> usize {
        self.used_ring
    }

    pub fn new() -> (q: Self)
        ensures
            q.wf(),
            q.spec_size() == 0,
            !q.spec_ready(),
            q.spec_queue_index() == 0,
            q.spec_next_avail() == 0,
            q.spec_last_used() == 0,
    {
        VirtioQueue {
            size: 0,
            ready: false,
            desc_table: 0,
            avail_ring: 0,
            used_ring: 0,
            next_avail: 0,
            last_used_idx: 0,
            queue_index: 0,
        }
    }

    pub fn set_ready(&mut self, ready: bool)
        ensures
            final(self).spec_ready() == ready,
            old(self).wf() ==> final(self).wf(),
            final(self).spec_desc_table() == old(self).spec_desc_table(),
            final(self).spec_avail_ring() == old(self).spec_avail_ring(),
            final(self).spec_used_ring() == old(self).spec_used_ring(),
            final(self).spec_size() == old(self).spec_size(),
            final(self).spec_next_avail() == old(self).spec_next_avail(),
            final(self).spec_last_used() == old(self).spec_last_used(),
            final(self).spec_queue_index() == old(self).spec_queue_index(),
    {
        self.ready = ready;
    }

    /// Sets the queue up over the given ring addresses. The size must be a
    /// power of two; the rings start empty and the queue is not yet ready.
    pub fn init(&mut self, size: u16, queue_idx: u16, desc_table: usize, avail_ring: usize, used_ring: usize) -> (r: DiskResult<()>)
        requires
            old(self).wf(),
        ensures
            final(self).wf(),
            match r {
                Ok(_) => {
                    &&& is_pow2(size as int)
                    &&& final(self).spec_size() == size
                    &&& final(self).spec_queue_index() == queue_idx
                    &&& final(self).spec_desc_table() == desc_table
                    &&& final(self).spec_avail_ring() == avail_ring
                    &&& final(self).spec_used_ring() == used_ring
                    &&& final(self).spec_next_avail() == 0
                    &&& final(self).spec_last_used() == 0
                    &&& !final(self).spec_ready()
                },
                Err(e) => e == DiskError::InvalidParameter && !is_pow2(size as int)
                    && *final(self) == *old(self),
            },
    {
        if !is_power_of_two_u16(size) {
            return Err(DiskError::InvalidParameter);
        }
        self.size = size;
        self.queue_index = queue_idx;
        self.desc_table = desc_table;
        self.avail_ring = avail_ring;
        self.used_ring = used_ring;
        self.next_avail = 0;
        self.last_used_idx = 0;
        self.ready = false;
        Ok(())
    }

    /// Places a descriptor chain in the table, after the previous chain, and
    /// returns where each descriptor goes and where the head is offered in
    /// the available ring, whose index is now `device_avail_idx`. The queue
    /// must be ready and the chain non-empty and no longer than the queue;
    /// eight slots are kept free.
    pub fn add_descriptor_chain(&mut self, chain: &[VirtqDesc], device_avail_idx: u16) -> (r: DiskResult<ChainPlacement>)
        requires
            old(self).wf(),
        ensures
            final(self).wf(),
            final(self).spec_size() == old(self).spec_size(),
            final(self).spec_ready() == old(self).spec_ready(),
            final(self).spec_queue_index() == old(self).spec_queue_index(),
            final(self).spec_last_used() == old(self).spec_last_used(),
            !old(self).spec_ready() ==> r == Err::<ChainPlacement, DiskError>(DiskError::QueueFull),
            old(self).spec_ready() && (chain@.len() == 0 || chain@.len() > old(self).spec_size())
                ==> r == Err::<ChainPlacement, DiskError>(DiskError::InvalidParameter),
            old(self).spec_ready() && 0 < chain@.len() <= old(self).spec_size() && chain@.len() + 8 > old(self).spec_size()
                ==> r == Err::<ChainPlacement, DiskError>(DiskError::QueueFull),
            r.is_err() ==> final(self).spec_next_avail() == old(self).spec_next_avail(),
            r.is_ok() <==> (old(self).spec_ready() && 0 < chain@.len() && chain@.len() + 8 <= old(self).spec_size()),
            r matches Ok(p) ==> {
                let size = old(self).spec_size() as int;
                let head = old(self).spec_next_avail() as int;
                &&& p.head == head
                &&& p.avail_slot == device_avail_idx as int % size
                &&& p.avail_idx == (device_avail_idx + 1) % 0x10000
                &&& p.writes@.len() == chain@.len()
                &&& forall|i: int| 0 <= i < chain@.len() ==> {
                        &&& (#[trigger] p.writes@[i]).0 == (head + i) % size
                        &&& p.writes@[i].1 == placed_desc(chain@[i], head, size, chain@.len() as int)
                    }
                &&& final(self).spec_next_avail() == (head + chain@.len()) % size
            },
    {
        if !self.ready {
            return Err(DiskError::QueueFull);
        }
        let n = chain.len();
        if n == 0 || n > self.size as usize {
            return Err(DiskError::InvalidParameter);
        }
        let available_space = if self.size >= 8 { self.size - 8 } else { 0 };
        if n as u16 > available_space {
            return Err(DiskError::QueueFull);
        }
        let head_index = self.next_avail;
        let size = self.size;
        let mut writes: Vec<(u16, VirtqDesc)> = Vec::new();
        let mut i: usize = 0;
        while i < n
            invariant
                n == chain@.len(),
                n + 8 <= size,
                head_index < size,
                0 <= i <= n,
                writes@.len() == i,
                forall|k: int| 0 <= k < i ==> {
                    &&& (#[trigger] writes@[k]).0 == (head_index + k) % (size as int)
                    &&& writes@[k].1 == placed_desc(chain@[k], head_index as int, size as int, n as int)
                },
            decreases n - i,
        {
            let slot = ((head_index as u32 + i as u32) % size as u32) as u16;
            let mut d = chain[i];
            if (d.flags & VIRTQ_DESC_F_NEXT) != 0 {
                let next_chain_idx = d.next as usize;
                if next_chain_idx < n {
                    d.next = ((head_index as u32 + next_chain_idx as u32) % size as u32) as u16;
                } else {
                    d.flags = d.flags & !VIRTQ_DESC_F_NEXT;
                    d.next = 0;
                }
            }
            writes.push((slot, d));
            i = i + 1;
        }
        self.next_avail = ((self.next_avail as u32 + n as u32) % self.size as u32) as u16;
        let (avail_slot, avail_idx) = self.avail_ring_slot(device_avail_idx);
        Ok(ChainPlacement { head: head_index, writes, avail_slot, avail_idx })
    }

    /// The available-ring slot for the next offered head and the new available
    /// index, given the index that the ring currently holds.
    pub fn avail_ring_slot(&self, device_avail_idx: u16) -> (r: (u16, u16))
        requires
            self.spec_size() > 0,
        ensures
            r.0 == device_avail_idx % self.spec_size(),
            r.1 == (device_avail_idx + 1) % 0x10000,
    {
        (device_avail_idx % self.size, device_avail_idx.wrapping_add(1))
    }

    /// Takes the next used element if the device has returned one: the slot of
    /// the used ring to read, or `None` when the device's used index equals
    /// the last one processed.
    pub fn get_used_elem(&mut self, device_used_idx: u16) -> (r: Option<u16>)
        requires
            old(self).wf(),
        ensures
            final(self).wf(),
            final(self).spec_size() == old(self).spec_size(),
            final(self).spec_next_avail() == old(self).spec_next_avail(),
            final(self).spec_ready() == old(self).spec_ready(),
            final(self).spec_queue_index() == old(self).spec_queue_index(),
            old(self).spec_last_used() == device_used_idx ==> r.is_none()
                && final(self).spec_last_used() == old(self).spec_last_used(),
            old(self).spec_last_used() != device_used_idx && old(self).spec_size() > 0 ==>
                r == Some((old(self).spec_last_used() % old(self).spec_size()) as u16)
                && final(self).spec_last_used() == (old(self).spec_last_used() + 1) % 0x10000,
            old(self).spec_last_used() != device_used_idx && old(self).spec_size() == 0 ==> r.is_none()
                && final(self).spec_last_used() == old(self).spec_last_used(),
    {
        if self.last_used_idx == device_used_idx {
            return None;
        }
        if self.size == 0 {
            return None;
        }
        let slot = self.last_used_idx % self.size;
        self.last_used_idx = self.last_used_idx.wrapping_add(1);
        Some(slot)
    }

    /// The used-ring slot of the next completion not yet taken, if the
    /// device has posted one (its used index is `device_used_idx`); nothing
    /// is consumed.
    pub fn pending_used_slot(&self, device_used_idx: u16) -> (r: Option<u16>)
        requires
            self.wf(),
        ensures
            self.spec_last_used() == device_used_idx || self.spec_size() == 0 ==> r.is_none(),
            self.spec_last_used() != device_used_idx && self.spec_size() > 0 ==>
                r == Some((self.spec_last_used() % self.spec_size()) as u16),
    {
        if self.last_used_idx == device_used_idx || self.size == 0 {
            None
        } else {
            Some(self.last_used_idx % self.size)
        }
    }

    /// Takes the next completion if it is that of the chain headed by
    /// `expected_head`. `used_id` is the `id` field of the used element in
    /// the slot that `pending_used_slot` gives. A completion of another chain
    /// is left in place for its own waiter, and `None` is answered.
    pub fn wait_for_completion(&mut self, expected_head: u16, device_used_idx: u16, used_id: u32) -> (r: Option<u16>)
        requires
            old(self).wf(),
        ensures
            final(self).wf(),
            final(self).spec_size() == old(self).spec_size(),
            final(self).spec_next_avail() == old(self).spec_next_avail(),
            final(self).spec_ready() == old(self).spec_ready(),
            final(self).spec_queue_index() == old(self).spec_queue_index(),
            old(self).spec_last_used() == device_used_idx || old(self).spec_size() == 0
                || used_id as u16 != expected_head ==> r.is_none() && final(self).spec_last_used() == old(self).spec_last_used(),
            old(self).spec_last_used() != device_used_idx && old(self).spec_size() > 0 && used_id as u16 == expected_head ==>
                r == Some((old(self).spec_last_used() % old(self).spec_size()) as u16)
                && final(self).spec_last_used() == (old(self).spec_last_used() + 1) % 0x10000,
    {
        if self.pending_used_slot(device_used_idx).is_none() {
            return None;
        }
        if used_id as u16 != expected_head {
            return None;
        }
        self.get_used_elem(device_used_idx)
    }

    pub fn is_ready(&self) -> (b: bool)
        ensures
            b == self.spec_ready(),
    {
        self.ready
    }

    pub fn size(&self) -> (s: u16)
        ensures
            s == self.spec_size(),
    {
        self.size
    }

    pub fn queue_index(&self) -> (i: u16)
        ensures
            i == self.spec_queue_index(),
    {
        self.queue_index
    }

    pub fn desc_table(&self) -> (a: usize)
        ensures
            a == self.spec_desc_table(),
    {
        self.desc_table
    }

    pub fn avail_ring(&self) -> (a: usize)
        ensures
            a == self.spec_avail_ring(),
    {
        self.avail_ring
    }

    pub fn used_ring(&self) -> (a: usize)
        ensures
            a == self.spec_used_ring(),
    {
        self.used_ring
    }
}

/// Whether `x` is a power of two.
pub fn is_power_of_two_u16(x: u16) -> (b: bool)
    ensures
        b == is_pow2(x as int),
{
    let mut v = x;
    if v == 0 {
        return false;
    }
    while v > 1
        invariant
            v >= 1,
            is_pow2(x as int) == is_pow2(v as int),
        decreases v,
    {
        if v % 2 != 0 {
            return false;
        }
        v = v / 2;
    }
    true
}

} // verus!
