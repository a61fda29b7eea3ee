//! The reconciler: the single consumer of VIP lifecycle events. It keeps, for
//! every service it has seen added, the address last known for it, and turns
//! each event into at most one change of the VIP table.

use crate::error::Error;
use crate::vip_table::{table_after, table_answer, upsert_fits, TableOp, VipTable};
use crate::watcher::{IpAddress, LbView, VipEvent, VipEventView};
use vstd::pervasive::unreached;
use vstd::prelude::*;
use vstd::string::*;

verus! {

/// The last known address of one service.
struct CacheEntry {
    name: String,
    namespace: String,
    addr: IpAddress,
}

/// The service cache: name and namespace of each known service, with its
/// address.
pub struct Reconciler {
    services: Vec<CacheEntry>,
}

/// The name and the namespace under which an entry is kept.
pub open spec fn service_key(lb: LbView) -> (Seq<char>, Seq<char>) {
    (lb.name, lb.namespace)
}

spec fn entry_key(e: CacheEntry) -> (Seq<char>, Seq<char>) {
    (e.name@, e.namespace@)
}

spec fn keys_distinct(s: Seq<CacheEntry>) -> bool {
    forall|i: int, j: int|
        0 <= i < j < s.len() ==> entry_key(#[trigger] s[i]) != entry_key(#[trigger] s[j])
}

spec fn holds(s: Seq<CacheEntry>, k: (Seq<char>, Seq<char>)) -> bool {
    exists|i: int| 0 <= i < s.len() && entry_key(#[trigger] s[i]) == k
}

spec fn index_of(s: Seq<CacheEntry>, k: (Seq<char>, Seq<char>)) -> int {
    choose|i: int| 0 <= i < s.len() && entry_key(#[trigger] s[i]) == k
}

spec fn cache_of(s: Seq<CacheEntry>) -> Map<(Seq<char>, Seq<char>), IpAddress> {
    Map::new(
        |k: (Seq<char>, Seq<char>)| holds(s, k),
        |k: (Seq<char>, Seq<char>)| s[index_of(s, k)].addr,
    )
}

proof fn lemma_cache_at(s: Seq<CacheEntry>, i: int)
    requires
        keys_distinct(s),
        0 <= i < s.len(),
    ensures
        holds(s, entry_key(s[i])),
        index_of(s, entry_key(s[i])) == i,
        cache_of(s).contains_key(entry_key(s[i])),
        cache_of(s)[entry_key(s[i])] == s[i].addr,
{
    let k = entry_key(s[i]);
    let j = index_of(s, k);
    assert(0 <= j < s.len() && entry_key(s[j]) == k);
    if j < i {
        assert(entry_key(s[j]) != entry_key(s[i]));
    }
    if i < j {
        assert(entry_key(s[i]) != entry_key(s[j]));
    }
}

proof fn lemma_cache_push(s: Seq<CacheEntry>, e: CacheEntry)
    requires
        keys_distinct(s),
        !holds(s, entry_key(e)),
    ensures
        keys_distinct(s.push(e)),
        cache_of(s.push(e)) == cache_of(s).insert(entry_key(e), e.addr),
{
    let t = s.push(e);
    assert forall|i: int, j: int| 0 <= i < j < t.len() implies entry_key(#[trigger] t[i])
        != entry_key(#[trigger] t[j]) by {
        if j == s.len() {
            assert(t[i] == s[i]);
            if entry_key(s[i]) == entry_key(e) {
                assert(holds(s, entry_key(e)));
            }
        } else {
            assert(t[i] == s[i] && t[j] == s[j]);
        }
    }
    let m = cache_of(s).insert(entry_key(e), e.addr);
    assert forall|k: (Seq<char>, Seq<char>)| cache_of(t).contains_key(k) <==> m.contains_key(k) by {
        if holds(t, k) {
            let i = index_of(t, k);
            if i < s.len() {
                assert(t[i] == s[i]);
                assert(holds(s, k));
            }
        }
        if holds(s, k) {
            let i = index_of(s, k);
            assert(t[i] == s[i]);
            assert(holds(t, k));
        }
        if k == entry_key(e) {
            assert(t[s.len() as int] == e);
            assert(holds(t, k));
        }
    }
    assert forall|k: (Seq<char>, Seq<char>)| cache_of(t).contains_key(k) implies cache_of(t)[k]
        == m[k] by {
        let i = index_of(t, k);
        lemma_cache_at(t, i);
        if i < s.len() {
            assert(t[i] == s[i]);
            lemma_cache_at(s, i);
        }
    }
    assert(cache_of(t) =~= m);
}

proof fn lemma_cache_update(s: Seq<CacheEntry>, i: int, e: CacheEntry)
    requires
        keys_distinct(s),
        0 <= i < s.len(),
        entry_key(s[i]) == entry_key(e),
    ensures
        keys_distinct(s.update(i, e)),
        cache_of(s.update(i, e)) == cache_of(s).insert(entry_key(e), e.addr),
{
    let t = s.update(i, e);
    assert forall|a: int, b: int| 0 <= a < b < t.len() implies entry_key(#[trigger] t[a])
        != entry_key(#[trigger] t[b]) by {
        assert(entry_key(t[a]) == entry_key(s[a]));
        assert(entry_key(t[b]) == entry_key(s[b]));
    }
    let m = cache_of(s).insert(entry_key(e), e.addr);
    assert forall|k: (Seq<char>, Seq<char>)| cache_of(t).contains_key(k) <==> m.contains_key(k) by {
        if holds(t, k) {
            let j = index_of(t, k);
            assert(entry_key(t[j]) == entry_key(s[j]));
            assert(holds(s, k));
        }
        if holds(s, k) {
            let j = index_of(s, k);
            assert(entry_key(t[j]) == entry_key(s[j]));
            assert(holds(t, k));
        }
        if k == entry_key(e) {
            assert(t[i] == e);
            assert(holds(t, k));
        }
    }
    assert forall|k: (Seq<char>, Seq<char>)| cache_of(t).contains_key(k) implies cache_of(t)[k]
        == m[k] by {
        let j = index_of(t, k);
        lemma_cache_at(t, j);
        assert(entry_key(t[j]) == entry_key(s[j]));
        lemma_cache_at(s, j);
        lemma_cache_at(s, i);
    }
    assert(cache_of(t) =~= m);
}

proof fn lemma_cache_remove(s: Seq<CacheEntry>, i: int)
    requires
        keys_distinct(s),
        0 <= i < s.len(),
    ensures
        keys_distinct(s.remove(i)),
        cache_of(s.remove(i)) == cache_of(s).remove(entry_key(s[i])),
{
    let t = s.remove(i);
    let gone = entry_key(s[i]);
    assert forall|a: int| 0 <= a < t.len() implies #[trigger] t[a] == s[if a < i {
        a
    } else {
        a + 1
    }] by {}
    assert forall|a: int, b: int| 0 <= a < b < t.len() implies entry_key(#[trigger] t[a])
        != entry_key(#[trigger] t[b]) by {
        let a0 = if a < i {
            a
        } else {
            a + 1
        };
        let b0 = if b < i {
            b
        } else {
            b + 1
        };
        assert(t[a] == s[a0] && t[b] == s[b0]);
        assert(entry_key(s[a0]) != entry_key(s[b0]));
    }
    let m = cache_of(s).remove(gone);
    assert forall|k: (Seq<char>, Seq<char>)| cache_of(t).contains_key(k) <==> m.contains_key(k) by {
        if holds(t, k) {
            let a = index_of(t, k);
            let a0 = if a < i {
                a
            } else {
                a + 1
            };
            assert(t[a] == s[a0]);
            assert(holds(s, k));
            if a0 < i {
                assert(entry_key(s[a0]) != entry_key(s[i]));
            } else {
                assert(entry_key(s[i]) != entry_key(s[a0]));
            }
        }
        if holds(s, k) && k != gone {
            let a0 = index_of(s, k);
            let a = if a0 < i {
                a0
            } else {
                a0 - 1
            };
            assert(t[a] == s[a0]);
            assert(holds(t, k));
        }
    }
    assert forall|k: (Seq<char>, Seq<char>)| cache_of(t).contains_key(k) implies cache_of(t)[k]
        == m[k] by {
        let a = index_of(t, k);
        let a0 = if a < i {
            a
        } else {
            a + 1
        };
        lemma_cache_at(t, a);
        assert(t[a] == s[a0]);
        lemma_cache_at(s, a0);
    }
    assert(cache_of(t) =~= m);
}

/// The service cache after `event`: an `Add` overwrites the entry of its
/// service, a `Delete` takes it out.
pub open spec fn cache_after(
    cache: Map<(Seq<char>, Seq<char>), IpAddress>,
    event: VipEventView,
) -> Map<(Seq<char>, Seq<char>), IpAddress> {
    match event {
        VipEventView::Add(lb) => match lb.addr {
            Some(addr) => cache.insert(service_key(lb), addr),
            None => cache,
        },
        VipEventView::Delete(lb) => cache.remove(service_key(lb)),
    }
}

/// The change of the VIP table that `event` calls for: an `Add` adds its
/// address; a `Delete` removes the address that the cache holds for its
/// service, and nothing where the cache holds none. IPv6 addresses never
/// reach the table.
pub open spec fn table_op(
    cache: Map<(Seq<char>, Seq<char>), IpAddress>,
    event: VipEventView,
) -> TableOp {
    match event {
        VipEventView::Add(lb) => match lb.addr {
            Some(IpAddress::V4(addr)) => TableOp::Upsert(addr),
            _ => TableOp::Nothing,
        },
        VipEventView::Delete(lb) => if cache.contains_key(service_key(lb)) {
            match cache[service_key(lb)] {
                IpAddress::V4(addr) => TableOp::Remove(addr),
                IpAddress::V6(_) => TableOp::Nothing,
            }
        } else {
            TableOp::Nothing
        },
    }
}

impl View for Reconciler {
    type V = Map<(Seq<char>, Seq<char>), IpAddress>;

    /// The cache: the address kept under each name and namespace.
    closed spec fn view(&self) -> Map<(Seq<char>, Seq<char>), IpAddress> {
        cache_of(self.services@)
    }
}

impl Reconciler {
    /// No service is kept twice.
    pub closed spec fn wf(&self) -> bool {
        keys_distinct(self.services@)
    }

    /// A reconciler that knows no service.
    pub fn new() -> (r: Reconciler)
        ensures
            r.wf(),
            r@ == Map::<(Seq<char>, Seq<char>), IpAddress>::empty(),
    {
        let r = Reconciler { services: Vec::new() };
        assert(r@ =~= Map::<(Seq<char>, Seq<char>), IpAddress>::empty());
        r
    }

    fn find(&self, name: &String, namespace: &String) -> (r: Option<usize>)
        ensures
            match r {
                Some(i) => i < self.services@.len() && entry_key(self.services@[i as int]) == (
                    name@,
                    namespace@,
                ),
                None => !holds(self.services@, (name@, namespace@)),
            },
    {
        let mut i: usize = 0;
        while i < self.services.len()
            invariant
                i <= self.services@.len(),
                forall|j: int|
                    0 <= j < i ==> entry_key(#[trigger] self.services@[j]) != (name@, namespace@),
            decreases self.services@.len() - i,
        {
            if self.services[i].name == *name && self.services[i].namespace == *namespace {
                return Some(i);
            }
            i += 1;
        }
        None
    }

    /// The address kept for the service `name` in `namespace`, if any.
    pub fn get(&self, name: &str, namespace: &str) -> (r: Option<IpAddress>)
        requires
            self.wf(),
        ensures
            r == if self@.contains_key((name@, namespace@)) {
                Some(self@[(name@, namespace@)])
            } else {
                None
            },
    {
        let name = String::from_str(name);
        let namespace = String::from_str(namespace);
        match self.find(&name, &namespace) {
            Some(i) => {
                proof {
                    lemma_cache_at(self.services@, i as int);
                }
                Some(self.services[i].addr)
            },
            None => None,
        }
    }

    fn put(&mut self, name: String, namespace: String, addr: IpAddress)
        requires
            old(self).wf(),
        ensures
            final(self).wf(),
            final(self)@ == old(self)@.insert((name@, namespace@), addr),
    {
        let entry = CacheEntry { name, namespace, addr };
        match self.find(&entry.name, &entry.namespace) {
            Some(i) => {
                proof {
                    lemma_cache_update(self.services@, i as int, entry);
                }
                self.services[i] = entry;
            },
            None => {
                proof {
                    lemma_cache_push(self.services@, entry);
                }
                self.services.push(entry);
            },
        }
    }

    fn take(&mut self, name: &String, namespace: &String) -> (r: Option<IpAddress>)
        requires
            old(self).wf(),
        ensures
            final(self).wf(),
            final(self)@ == old(self)@.remove((name@, namespace@)),
            r == if old(self)@.contains_key((name@, namespace@)) {
                Some(old(self)@[(name@, namespace@)])
            } else {
                None
            },
    {
        match self.find(name, namespace) {
            Some(i) => {
                proof {
                    lemma_cache_at(self.services@, i as int);
                    lemma_cache_remove(self.services@, i as int);
                }
                let entry = self.services.remove(i);
                Some(entry.addr)
            },
            None => {
                assert(self@.remove((name@, namespace@)) =~= self@);
                None
            },
        }
    }

    /// Applies one event: brings the cache up to date, makes the change that
    /// the event calls for to `table`, and says which change that was. Where
    /// the table is full and refuses a new address, the cache is updated all
    /// the same and the refusal is returned. An `Add` must carry its address.
    pub fn apply(&mut self, event: VipEvent, table: &mut VipTable) -> (r: Result<TableOp, Error>)
        requires
            old(self).wf(),
            old(table).wf(),
            event matches VipEvent::Add(lb) ==> lb.addr is Some,
        ensures
            final(self).wf(),
            final(table).wf(),
            final(table).capacity() == old(table).capacity(),
            final(self)@ == cache_after(old(self)@, event@),
            final(table)@ == table_after(
                old(table)@,
                old(table).capacity(),
                table_op(old(self)@, event@),
            ),
            r == match table_answer(
                old(table)@,
                old(table).capacity(),
                table_op(old(self)@, event@),
            ) {
                Ok(_) => Ok::<TableOp, Error>(table_op(old(self)@, event@)),
                Err(e) => Err::<TableOp, Error>(e),
            },
    {
        let op = match event {
            VipEvent::Add(lb) => {
                let addr = match lb.addr {
                    Some(addr) => addr,
                    None => unreached(),
                };
                self.put(lb.name, lb.namespace, addr);
                match addr {
                    IpAddress::V4(addr_num) => TableOp::Upsert(addr_num),
                    IpAddress::V6(_) => TableOp::Nothing,
                }
            },
            VipEvent::Delete(lb) => {
                match self.take(&lb.name, &lb.namespace) {
                    Some(IpAddress::V4(addr_num)) => TableOp::Remove(addr_num),
                    Some(IpAddress::V6(_)) => TableOp::Nothing,
                    None => TableOp::Nothing,
                }
            },
        };
        match table.apply(op) {
            Ok(()) => Ok(op),
            Err(e) => Err(e),
        }
    }
}

/// The VIP table after a run of events, applied in order from the cache
/// `cache` and the table `vips`.
pub open spec fn table_after_all(
    cache: Map<(Seq<char>, Seq<char>), IpAddress>,
    vips: Set<u32>,
    capacity: nat,
    events: Seq<VipEventView>,
) -> Set<u32>
    decreases events.len(),
{
    if events.len() == 0 {
        vips
    } else {
        table_after_all(
            cache_after(cache, events[0]),
            table_after(vips, capacity, table_op(cache, events[0])),
            capacity,
            events.drop_first(),
        )
    }
}

/// The service cache after a run of events, applied in order.
pub open spec fn cache_after_all(
    cache: Map<(Seq<char>, Seq<char>), IpAddress>,
    events: Seq<VipEventView>,
) -> Map<(Seq<char>, Seq<char>), IpAddress>
    decreases events.len(),
{
    if events.len() == 0 {
        cache
    } else {
        cache_after_all(cache_after(cache, events[0]), events.drop_first())
    }
}

/// Adding a service at an IPv4 address, deleting it and adding it again at
/// the same address leaves the address in the table, counted once, and the
/// cache pointing at it, provided the table had room for the address at the
/// first `Add`.
pub proof fn lemma_add_delete_add(
    cache: Map<(Seq<char>, Seq<char>), IpAddress>,
    vips: Set<u32>,
    capacity: nat,
    name: Seq<char>,
    namespace: Seq<char>,
    addr: u32,
)
    requires
        vips.finite(),
        vips.len() <= capacity,
        upsert_fits(vips, capacity, addr),
    ensures
        ({
            let add = VipEventView::Add(
                LbView { name, namespace, addr: Some(IpAddress::V4(addr)) },
            );
            let delete = VipEventView::Delete(LbView { name, namespace, addr: None });
            let events = seq![add, delete, add];
            &&& table_after_all(cache, vips, capacity, events) == vips.insert(addr)
            &&& table_after_all(cache, vips, capacity, events).contains(addr)
            &&& table_after_all(cache, vips, capacity, events).len() == vips.remove(addr).len() + 1
            &&& cache_after_all(cache, events).contains_key((name, namespace))
            &&& cache_after_all(cache, events)[(name, namespace)] == IpAddress::V4(addr)
            &&& cache_after_all(cache, events) == cache.insert(
                (name, namespace),
                IpAddress::V4(addr),
            )
        }),
{
    let add = VipEventView::Add(LbView { name, namespace, addr: Some(IpAddress::V4(addr)) });
    let delete = VipEventView::Delete(LbView { name, namespace, addr: None });
    let events = seq![add, delete, add];
    let key = (name, namespace);
    let c1 = cache_after(cache, add);
    let v1 = table_after(vips, capacity, table_op(cache, add));
    let c2 = cache_after(c1, delete);
    let v2 = table_after(v1, capacity, table_op(c1, delete));
    let c3 = cache_after(c2, add);
    let v3 = table_after(v2, capacity, table_op(c2, add));
    assert(v1 == vips.insert(addr));
    assert(v2 == v1.remove(addr));
    assert(v2 =~= vips.remove(addr));
    assert(v2.len() < capacity);
    assert(v3 =~= vips.insert(addr));
    assert(c3 =~= cache.insert(key, IpAddress::V4(addr)));
    let e1 = events.drop_first();
    let e2 = e1.drop_first();
    let e3 = e2.drop_first();
    assert(events[0] == add && e1[0] == delete && e2[0] == add && e3.len() == 0);
    reveal_with_fuel(table_after_all, 4);
    reveal_with_fuel(cache_after_all, 4);
    assert(table_after_all(c3, v3, capacity, e3) == v3);
    assert(table_after_all(c2, v2, capacity, e2) == v3);
    assert(table_after_all(c1, v1, capacity, e1) == v3);
    assert(cache_after_all(c3, e3) == c3);
    assert(cache_after_all(c2, e2) == c3);
    assert(cache_after_all(c1, e1) == c3);
}

/// A `Delete` for a service that the cache does not hold changes neither the
/// cache nor the table.
pub proof fn lemma_delete_unknown(
    cache: Map<(Seq<char>, Seq<char>), IpAddress>,
    vips: Set<u32>,
    capacity: nat,
    lb: LbView,
)
    requires
        !cache.contains_key(service_key(lb)),
    ensures
        cache_after(cache, VipEventView::Delete(lb)) == cache,
        table_op(cache, VipEventView::Delete(lb)) == TableOp::Nothing,
        table_after(vips, capacity, table_op(cache, VipEventView::Delete(lb))) == vips,
{
    assert(cache.remove(service_key(lb)) =~= cache);
}

} // verus!
