//! The VIP membership table: the set of virtual addresses whose traffic is
//! watched. The reconciler is its only writer; the classifier only reads it.

use crate::error::Error;
use std::collections::HashMap;
use vstd::prelude::*;

verus! {

/// Number of addresses that a table made by [`VipTable::new`] can hold.
pub const VIP_TABLE_CAPACITY: usize = 1024;

/// The presence marker stored with every address in the table.
pub const VIP_PRESENT: u32 = 0;

/// One change of the table.
#[derive(Debug, Clone, Copy, PartialEq, Eq, Structural)]
pub enum TableOp {
    /// Leave the table as it is.
    Nothing,
    /// Add the address.
    Upsert(u32),
    /// Take the address out.
    Remove(u32),
}

/// Whether a table that holds the addresses `vips`, and at most `capacity` of
/// them, accepts `addr`: it holds the address already, or has room.
pub open spec fn upsert_fits(vips: Set<u32>, capacity: nat, addr: u32) -> bool {
    vips.contains(addr) || vips.len() < capacity
}

/// The addresses of a table that held `vips`, and holds at most `capacity`,
/// after the change `op`. A full table ignores a new address.
pub open spec fn table_after(vips: Set<u32>, capacity: nat, op: TableOp) -> Set<u32> {
    match op {
        TableOp::Nothing => vips,
        TableOp::Upsert(addr) => if upsert_fits(vips, capacity, addr) {
            vips.insert(addr)
        } else {
            vips
        },
        TableOp::Remove(addr) => vips.remove(addr),
    }
}

/// What a table that holds `vips`, and at most `capacity` addresses, answers
/// to the change `op`: only a new address is ever refused, and only by a full
/// table.
pub open spec fn table_answer(vips: Set<u32>, capacity: nat, op: TableOp) -> Result<(), Error> {
    match op {
        TableOp::Upsert(addr) => if upsert_fits(vips, capacity, addr) {
            Ok(())
        } else {
            Err(Error::VipTableFull(addr))
        },
        _ => Ok(()),
    }
}

/// A bounded set of watched IPv4 addresses, each a number in host order.
pub struct VipTable {
    entries: HashMap<u32, u32>,
    capacity: usize,
}

impl View for VipTable {
    type V = Set<u32>;

    /// The addresses in the table.
    closed spec fn view(&self) -> Set<u32> {
        self.entries@.dom()
    }
}

impl VipTable {
    /// The table holds finitely many addresses, and no more than its capacity.
    pub closed spec fn wf(&self) -> bool {
        &&& self.entries@.dom().finite()
        &&& self.entries@.dom().len() <= self.capacity
    }

    /// The largest number of addresses that the table can hold.
    pub closed spec fn capacity(&self) -> nat {
        self.capacity as nat
    }

    /// A table in order holds finitely many addresses, no more than its
    /// capacity.
    pub proof fn lemma_bounded(&self)
        requires
            self.wf(),
        ensures
            self@.finite(),
            self@.len() <= self.capacity(),
    {
    }

    /// An empty table of the default capacity.
    pub fn new() -> (t: VipTable)
        ensures
            t.wf(),
            t@ == Set::<u32>::empty(),
            t.capacity() == VIP_TABLE_CAPACITY,
    {
        VipTable::with_capacity(VIP_TABLE_CAPACITY)
    }

    /// An empty table that can hold up to `capacity` addresses.
    pub fn with_capacity(capacity: usize) -> (t: VipTable)
        ensures
            t.wf(),
            t@ == Set::<u32>::empty(),
            t.capacity() == capacity,
    {
        let t = VipTable { entries: HashMap::new(), capacity };
        assert(t.entries@.dom() =~= Set::<u32>::empty());
        t
    }

    /// The number of addresses in the table, never more than the capacity.
    pub fn len(&self) -> (n: usize)
        requires
            self.wf(),
        ensures
            self@.finite(),
            n == self@.len(),
            n <= self.capacity(),
    {
        self.entries.len()
    }

    /// Whether `addr` is in the table.
    pub fn contains(&self, addr: u32) -> (b: bool)
        ensures
            b == self@.contains(addr),
    {
        self.entries.contains_key(&addr)
    }

    /// Adds `addr`. Adding an address that is in the table changes nothing. A
    /// full table refuses a new address and keeps every address it has.
    pub fn upsert(&mut self, addr: u32) -> (r: Result<(), Error>)
        requires
            old(self).wf(),
        ensures
            final(self).wf(),
            final(self).capacity() == old(self).capacity(),
            final(self)@ == table_after(old(self)@, old(self).capacity(), TableOp::Upsert(addr)),
            r == table_answer(old(self)@, old(self).capacity(), TableOp::Upsert(addr)),
    {
        if !self.entries.contains_key(&addr) && self.entries.len() >= self.capacity {
            return Err(Error::VipTableFull(addr));
        }
        self.entries.insert(addr, VIP_PRESENT);
        assert(self.entries@.dom() =~= old(self).entries@.dom().insert(addr));
        Ok(())
    }

    /// Takes `addr` out. Removing an address that is not in the table changes
    /// nothing.
    pub fn remove(&mut self, addr: u32)
        requires
            old(self).wf(),
        ensures
            final(self).wf(),
            final(self).capacity() == old(self).capacity(),
            final(self)@ == table_after(old(self)@, old(self).capacity(), TableOp::Remove(addr)),
    {
        self.entries.remove(&addr);
        assert(self.entries@.dom() =~= old(self).entries@.dom().remove(addr));
    }

    /// Makes one change to the table, or refuses it and stays as it is.
    pub fn apply(&mut self, op: TableOp) -> (r: Result<(), Error>)
        requires
            old(self).wf(),
        ensures
            final(self).wf(),
            final(self).capacity() == old(self).capacity(),
            final(self)@ == table_after(old(self)@, old(self).capacity(), op),
            r == table_answer(old(self)@, old(self).capacity(), op),
    {
        match op {
            TableOp::Nothing => Ok(()),
            TableOp::Upsert(addr) => self.upsert(addr),
            TableOp::Remove(addr) => {
                self.remove(addr);
                Ok(())
            },
        }
    }
}

/// Adding an address twice leaves the table as adding it once does, whether
/// or not the table has room. Once added, the address is in the table and is
/// counted once.
pub proof fn lemma_upsert_idempotent(vips: Set<u32>, capacity: nat, addr: u32)
    requires
        vips.finite(),
    ensures
        ({
            let once = table_after(vips, capacity, TableOp::Upsert(addr));
            let twice = table_after(once, capacity, TableOp::Upsert(addr));
            &&& twice == once
            &&& table_answer(vips, capacity, TableOp::Upsert(addr)) is Ok ==> {
                &&& table_answer(once, capacity, TableOp::Upsert(addr)) is Ok
                &&& once.contains(addr)
                &&& once.len() == vips.remove(addr).len() + 1
            }
        }),
{
    assert(vips.insert(addr).insert(addr) =~= vips.insert(addr));
    assert(vips.insert(addr).remove(addr) =~= vips.remove(addr));
}

/// Removing an address that is not in the table leaves the table as it was,
/// and is no failure.
pub proof fn lemma_remove_absent(vips: Set<u32>, capacity: nat, addr: u32)
    requires
        !vips.contains(addr),
    ensures
        table_after(vips, capacity, TableOp::Remove(addr)) == vips,
        table_answer(vips, capacity, TableOp::Remove(addr)) is Ok,
{
    assert(vips.remove(addr) =~= vips);
}

/// Removing an address always takes it out, and removing it again changes
/// nothing more.
pub proof fn lemma_remove_idempotent(vips: Set<u32>, capacity: nat, addr: u32)
    ensures
        ({
            let once = table_after(vips, capacity, TableOp::Remove(addr));
            &&& !once.contains(addr)
            &&& table_after(once, capacity, TableOp::Remove(addr)) == once
        }),
{
    assert(vips.remove(addr).remove(addr) =~= vips.remove(addr));
}

} // verus!
