//! The bounded buffer between the capture of samples and their decoding.
//!
//! Samples leave in the order in which they came. The buffer never makes the
//! capture wait: a sample that arrives at a full buffer takes the place of the
//! oldest one, which is handed back to the caller as dropped.

use vstd::prelude::*;

verus! {

/// The slot that holds item `i` of a buffer of `cap` slots whose oldest item
/// stands in slot `head`.
pub open spec fn slot_of(head: int, i: int, cap: int) -> int {
    if head + i < cap {
        head + i
    } else {
        head + i - cap
    }
}

/// A ring of samples with a fixed number of slots.
#[derive(Debug)]
pub struct SampleRing {
    slots: Vec<i16>,
    head: usize,
    count: usize,
}

impl SampleRing {
    /// The ring has a slot, the oldest item stands in one of the slots, and
    /// there are no more items than slots.
    pub closed spec fn wf(&self) -> bool {
        &&& self.slots.len() > 0
        &&& self.head < self.slots.len()
        &&& self.count <= self.slots.len()
    }

    /// The number of slots.
    pub closed spec fn spec_capacity(&self) -> nat {
        self.slots.len() as nat
    }

    /// The samples in the ring, oldest first.
    pub closed spec fn view(&self) -> Seq<i16> {
        Seq::new(
            self.count as nat,
            |i: int| self.slots@[slot_of(self.head as int, i, self.slots.len() as int)],
        )
    }

    /// An empty ring of `capacity` slots; a ring without slots is none.
    pub fn new(capacity: usize) -> (r: Option<SampleRing>)
        ensures
            capacity == 0 <==> r is None,
            r matches Some(ring) ==> ring.wf() && ring.spec_capacity() == capacity && ring@
                == Seq::<i16>::empty(),
    {
        if capacity == 0 {
            return None;
        }
        let mut slots: Vec<i16> = Vec::new();
        let mut i: usize = 0;
        while i < capacity
            invariant
                i <= capacity,
                slots.len() == i,
            decreases capacity - i,
        {
            slots.push(0);
            i += 1;
        }
        let ring = SampleRing { slots, head: 0, count: 0 };
        assert(ring@ =~= Seq::<i16>::empty());
        Some(ring)
    }

    /// The number of slots.
    pub fn capacity(&self) -> (r: usize)
        ensures
            r == self.spec_capacity(),
    {
        self.slots.len()
    }

    /// The number of samples in the ring.
    pub fn len(&self) -> (r: usize)
        requires
            self.wf(),
        ensures
            r == self@.len(),
            r <= self.spec_capacity(),
    {
        self.count
    }

    /// Takes in a sample. In a ring that is full the oldest sample makes room
    /// and is handed back.
    pub fn push(&mut self, sample: i16) -> (dropped: Option<i16>)
        requires
            old(self).wf(),
        ensures
            final(self).wf(),
            final(self).spec_capacity() == old(self).spec_capacity(),
            old(self)@.len() < old(self).spec_capacity() ==> dropped is None && final(self)@ == old(self)@.push(sample),
            old(self)@.len() == old(self).spec_capacity() ==> dropped == Some(old(self)@[0])
                && final(self)@ == old(self)@.drop_first().push(sample),
    {
        let cap: usize = self.slots.len();
        if self.count < cap {
            let at: usize = if self.count < cap - self.head {
                self.head + self.count
            } else {
                self.count - (cap - self.head)
            };
            self.slots[at] = sample;
            self.count += 1;
            assert(self@ =~= old(self)@.push(sample));
            None
        } else {
            let oldest: i16 = self.slots[self.head];
            self.slots[self.head] = sample;
            self.head = if self.head + 1 == cap { 0 } else { self.head + 1 };
            assert(self@ =~= old(self)@.drop_first().push(sample));
            Some(oldest)
        }
    }

    /// Hands out the oldest sample, if the ring holds one.
    pub fn pop(&mut self) -> (r: Option<i16>)
        requires
            old(self).wf(),
        ensures
            final(self).wf(),
            final(self).spec_capacity() == old(self).spec_capacity(),
            old(self)@.len() == 0 ==> r is None && final(self)@ == old(self)@,
            old(self)@.len() > 0 ==> r == Some(old(self)@[0]) && final(self)@ == old(self)@.drop_first(),
    {
        if self.count == 0 {
            assert(self@ =~= old(self)@);
            return None;
        }
        let cap: usize = self.slots.len();
        let oldest: i16 = self.slots[self.head];
        self.head = if self.head + 1 == cap { 0 } else { self.head + 1 };
        self.count -= 1;
        assert(self@ =~= old(self)@.drop_first());
        Some(oldest)
    }

    /// Discards all samples.
    pub fn clear(&mut self)
        requires
            old(self).wf(),
        ensures
            final(self).wf(),
            final(self).spec_capacity() == old(self).spec_capacity(),
            final(self)@ == Seq::<i16>::empty(),
    {
        self.count = 0;
        assert(self@ =~= Seq::<i16>::empty());
    }
}

} // verus!
