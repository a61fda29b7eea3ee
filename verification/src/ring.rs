//! The bounded ring that carries flow records from the packet classifier to
//! the event drain. The classifier never waits for room: a record that does
//! not fit is dropped.

use crate::event::IPV4_EVENT_LEN;
use std::collections::VecDeque;
use vstd::prelude::*;

verus! {

/// A first-in, first-out queue of flow records with a fixed capacity.
pub struct EventRing {
    records: VecDeque<[u8; 12]>,
    capacity: usize,
}

impl View for EventRing {
    type V = Seq<Seq<u8>>;

    /// The queued records, oldest first, each as its bytes.
    closed spec fn view(&self) -> Seq<Seq<u8>> {
        Seq::new(self.records@.len(), |i: int| self.records@[i]@)
    }
}

impl EventRing {
    /// The ring holds no more records than its capacity.
    pub closed spec fn wf(&self) -> bool {
        self.records@.len() <= self.capacity
    }

    /// The largest number of records that the ring can hold.
    pub closed spec fn capacity(&self) -> nat {
        self.capacity as nat
    }

    /// Every queued record has the length of a flow record.
    pub proof fn lemma_record_len(self, i: int)
        requires
            0 <= i < self@.len(),
        ensures
            self@[i].len() == IPV4_EVENT_LEN,
    {
    }

    /// An empty ring with room for `capacity` records.
    pub fn new(capacity: usize) -> (ring: EventRing)
        ensures
            ring.wf(),
            ring@ == Seq::<Seq<u8>>::empty(),
            ring.capacity() == capacity,
    {
        let ring = EventRing { records: VecDeque::new(), capacity };
        assert(ring@ =~= Seq::<Seq<u8>>::empty());
        ring
    }

    /// The number of queued records, never more than the capacity.
    pub fn len(&self) -> (n: usize)
        requires
            self.wf(),
        ensures
            n == self@.len(),
            n <= self.capacity(),
    {
        self.records.len()
    }

    /// Queues `record` where the ring has room and says whether it did. A full
    /// ring stays as it is.
    pub fn push(&mut self, record: [u8; 12]) -> (queued: bool)
        requires
            old(self).wf(),
        ensures
            final(self).wf(),
            final(self).capacity() == old(self).capacity(),
            queued == (old(self)@.len() < old(self).capacity()),
            final(self)@ == pushed(old(self)@, old(self).capacity(), record@),
    {
        if self.records.len() >= self.capacity {
            return false;
        }
        self.records.push_back(record);
        assert(self@ =~= old(self)@.push(record@));
        true
    }

    /// Takes the oldest record out of the ring, or nothing from an empty ring.
    pub fn next(&mut self) -> (r: Option<[u8; 12]>)
        requires
            old(self).wf(),
        ensures
            final(self).wf(),
            final(self).capacity() == old(self).capacity(),
            old(self)@.len() == 0 ==> r is None && final(self)@ == old(self)@,
            old(self)@.len() > 0 ==> r is Some && r->Some_0@ == old(self)@[0] && final(self)@
                == old(self)@.drop_first(),
    {
        let r = self.records.pop_front();
        assert(self@ =~= if old(self)@.len() == 0 {
            old(self)@
        } else {
            old(self)@.drop_first()
        });
        r
    }
}

/// The records of a ring of capacity `capacity` that held `records`, after an
/// attempt to queue `record`.
pub open spec fn pushed(records: Seq<Seq<u8>>, capacity: nat, record: Seq<u8>) -> Seq<Seq<u8>> {
    if records.len() < capacity {
        records.push(record)
    } else {
        records
    }
}

} // verus!
