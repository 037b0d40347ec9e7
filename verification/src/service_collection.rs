//! The per-connection service registry.
//!
//! A [`ServiceCollection`] owns every live server object of one connection,
//! keyed by [`ServiceId`]. Each entry carries the bookkeeping that makes
//! nested service references safe without the host language's borrow
//! checker: the id of the parent entry it borrows from, and a `locked` flag.
//! Registering a child locks its parent; dropping the child unlocks it; the
//! dispatcher refuses calls and drops on locked entries. The registry's
//! model is a finite map from ids to entries, and [`ServiceCollection::wf`]
//! is the invariant every operation preserves:
//!
//! - ids are unique;
//! - an entry's parent is a different, present, and locked entry;
//! - a parent has at most one live child.

use crate::errors::RpcError;
use crate::messages::ServiceId;
use vstd::prelude::*;
use vstd::set_lib::lemma_len_subset;

verus! {

/// One live server object together with its nesting bookkeeping.
pub struct ServiceEntry<S> {
    /// The server object itself. Opaque to the registry.
    pub server: S,
    /// The entry this one borrows from, if it was returned by a method of
    /// another service. The parent stays locked as long as this entry
    /// exists.
    pub parent: Option<ServiceId>,
    /// Whether the entry is locked: a method call is running on it, or a
    /// child entry borrowing from it is still alive.
    pub locked: bool,
}

/// State for one ongoing connection with one client: the map from service
/// ids to live entries, plus the next-id counter of the allocator.
pub struct ServiceCollection<S> {
    /// The live entries, in registration order. The order carries no
    /// meaning; the model is the map [`ServiceCollection::view`].
    pub active_services: Vec<(ServiceId, ServiceEntry<S>)>,
    /// The counter the id allocator starts from on the next registration.
    pub next_service_id: ServiceId,
}

/// The finite map a sequence of keyed entries denotes.
pub open spec fn entries_map<S>(s: Seq<(ServiceId, ServiceEntry<S>)>) -> Map<u64, ServiceEntry<S>>
    decreases s.len(),
{
    if s.len() == 0 {
        Map::empty()
    } else {
        entries_map(s.drop_last()).insert(s.last().0.0, s.last().1)
    }
}

/// No two entries of the sequence share an id.
pub open spec fn ids_unique<S>(s: Seq<(ServiceId, ServiceEntry<S>)>) -> bool {
    forall|i: int, j: int| 0 <= i < j < s.len() ==> s[i].0.0 != s[j].0.0
}

/// The nesting discipline on the model map: every parent link points at a
/// different, present, locked entry, and no two entries share a parent.
pub open spec fn nesting_ok<S>(m: Map<u64, ServiceEntry<S>>) -> bool {
    &&& forall|c: u64| #[trigger]
        m.contains_key(c) ==> match m[c].parent {
            Some(p) => p.0 != c && m.contains_key(p.0) && m[p.0].locked,
            None => true,
        }
    &&& forall|c1: u64, c2: u64|
        m.contains_key(c1) && m.contains_key(c2) && c1 != c2 && m[c1].parent is Some
            && m[c2].parent is Some ==> m[c1].parent != m[c2].parent
}

impl<S> View for ServiceCollection<S> {
    type V = Map<u64, ServiceEntry<S>>;

    open spec fn view(&self) -> Map<u64, ServiceEntry<S>> {
        entries_map(self.active_services@)
    }
}

impl<S> ServiceCollection<S> {
    /// The invariant of the registry.
    pub open spec fn wf(&self) -> bool {
        &&& ids_unique(self.active_services@)
        &&& nesting_ok(self@)
    }
}

/// The denoted map contains exactly the ids of the sequence, and is finite
/// with at most one key per element.
pub proof fn lemma_entries_map_props<S>(s: Seq<(ServiceId, ServiceEntry<S>)>)
    ensures
        entries_map(s).dom().finite(),
        entries_map(s).dom().len() <= s.len(),
        forall|id: u64|
            entries_map(s).contains_key(id) <==> exists|i: int| 0 <= i < s.len() && s[i].0.0 == id,
    decreases s.len(),
{
    if s.len() == 0 {
    } else {
        let prefix = s.drop_last();
        lemma_entries_map_props(prefix);
        assert forall|id: u64| entries_map(s).contains_key(id) implies exists|i: int|
            0 <= i < s.len() && s[i].0.0 == id by {
            if id == s.last().0.0 {
                assert(s[s.len() - 1].0.0 == id);
            } else {
                let i = choose|i: int| 0 <= i < prefix.len() && prefix[i].0.0 == id;
                assert(s[i].0.0 == id);
            }
        }
        assert forall|id: u64| (exists|i: int| 0 <= i < s.len() && s[i].0.0 == id) implies
            entries_map(s).contains_key(id) by {
            let i = choose|i: int| 0 <= i < s.len() && s[i].0.0 == id;
            if i < s.len() - 1 {
                assert(prefix[i].0.0 == id);
                assert(entries_map(prefix).contains_key(id));
            }
        }
    }
}

/// With unique ids, each element of the sequence is mapped to its own
/// entry, and the map has exactly one key per element.
pub proof fn lemma_entries_map_unique<S>(s: Seq<(ServiceId, ServiceEntry<S>)>)
    requires
        ids_unique(s),
    ensures
        entries_map(s).dom().len() == s.len(),
        forall|i: int| 0 <= i < s.len() ==> entries_map(s).contains_key(#[trigger] s[i].0.0)
            && entries_map(s)[s[i].0.0] == s[i].1,
    decreases s.len(),
{
    lemma_entries_map_props(s);
    if s.len() > 0 {
        let prefix = s.drop_last();
        lemma_entries_map_props(prefix);
        lemma_entries_map_unique(prefix);
        assert(!entries_map(prefix).contains_key(s.last().0.0));
        assert forall|i: int| 0 <= i < s.len() implies entries_map(s).contains_key(
            #[trigger] s[i].0.0,
        ) && entries_map(s)[s[i].0.0] == s[i].1 by {
            if i < s.len() - 1 {
                assert(prefix[i] == s[i]);
                assert(s[i].0.0 != s.last().0.0);
            }
        }
    }
}

/// Appending a fresh id denotes insertion into the map.
pub proof fn lemma_entries_map_push<S>(
    s: Seq<(ServiceId, ServiceEntry<S>)>,
    id: ServiceId,
    entry: ServiceEntry<S>,
)
    ensures
        entries_map(s.push((id, entry))) == entries_map(s).insert(id.0, entry),
{
    let pushed = s.push((id, entry));
    assert(pushed.drop_last() =~= s);
    assert(pushed.last() == (id, entry));
}

/// Removing the element at one index denotes removal of its key, when ids
/// are unique.
pub proof fn lemma_entries_map_remove<S>(s: Seq<(ServiceId, ServiceEntry<S>)>, i: int)
    requires
        ids_unique(s),
        0 <= i < s.len(),
    ensures
        entries_map(s.remove(i)) == entries_map(s).remove(s[i].0.0),
    decreases s.len(),
{
    lemma_entries_map_props(s);
    let key = s[i].0.0;
    if i == s.len() - 1 {
        assert(s.remove(i) =~= s.drop_last());
        lemma_entries_map_props(s.drop_last());
        assert(!entries_map(s.drop_last()).contains_key(key));
        assert(entries_map(s.drop_last()).insert(key, s[i].1).remove(key) =~= entries_map(
            s.drop_last(),
        ));
    } else {
        let prefix = s.drop_last();
        lemma_entries_map_remove(prefix, i);
        assert(s.remove(i).drop_last() =~= prefix.remove(i));
        assert(s.remove(i).last() == s.last());
        assert(key != s.last().0.0);
        assert(entries_map(s.remove(i)) == entries_map(prefix).remove(key).insert(
            s.last().0.0,
            s.last().1,
        ));
        assert(entries_map(prefix).remove(key).insert(s.last().0.0, s.last().1) =~= entries_map(
            prefix,
        ).insert(s.last().0.0, s.last().1).remove(key));
    }
}

/// 64-bit addition that wraps at the top of the range, as the id allocator
/// performs it.
pub open spec fn wrap_add(x: u64, k: u64) -> u64 {
    ((x + k) % 0x1_0000_0000_0000_0000) as u64
}

/// Stepping one candidate further commutes with the accumulated offset.
pub proof fn lemma_wrap_add_step(x: u64, k: u64)
    requires
        k < u64::MAX,
    ensures
        wrap_add(wrap_add(x, k), 1) == wrap_add(x, (k + 1) as u64),
{
    assert(((((x + k) % 0x1_0000_0000_0000_0000) as u64 + 1u64) % 0x1_0000_0000_0000_0000) as u64
        == ((x + (k + 1) as u64) % 0x1_0000_0000_0000_0000) as u64) by (bit_vector)
        requires
            k < u64::MAX,
    ;
}

/// Distinct offsets below the wrap point give distinct candidates.
pub proof fn lemma_wrap_add_injective(x: u64, j1: u64, j2: u64)
    requires
        j1 != j2,
    ensures
        wrap_add(x, j1) != wrap_add(x, j2),
{
    assert(((x + j1) % 0x1_0000_0000_0000_0000) as u64 != ((x + j2)
        % 0x1_0000_0000_0000_0000) as u64) by (bit_vector)
        requires
            j1 != j2,
    ;
}

/// The first `count` candidate ids the allocator tries when it starts from
/// `x`.
pub open spec fn candidates(x: u64, count: int) -> Set<u64> {
    Set::new(|id: u64| exists|j: u64| j < count && id == #[trigger] wrap_add(x, j))
}

/// There are exactly `count` distinct candidates among the first `count`
/// tries, as long as the count does not exceed the size of the id space.
pub proof fn lemma_candidates_len(x: u64, count: int)
    requires
        0 <= count <= 0x1_0000_0000_0000_0000,
    ensures
        candidates(x, count).finite(),
        candidates(x, count).len() == count,
    decreases count,
{
    if count == 0 {
        assert(candidates(x, 0) =~= Set::<u64>::empty());
    } else {
        lemma_candidates_len(x, count - 1);
        let prev = candidates(x, count - 1);
        let last_j = (count - 1) as u64;
        let id_new = wrap_add(x, last_j);
        if prev.contains(id_new) {
            let j = choose|j: u64| j < count - 1 && id_new == #[trigger] wrap_add(x, j);
            lemma_wrap_add_injective(x, j, last_j);
        }
        assert(candidates(x, count) =~= prev.insert(id_new)) by {
            assert forall|id: u64| candidates(x, count).contains(id) implies prev.insert(
                id_new,
            ).contains(id) by {
                let j = choose|j: u64| j < count && id == #[trigger] wrap_add(x, j);
                if j < count - 1 {
                    assert(prev.contains(id));
                }
            }
            assert forall|id: u64| prev.insert(id_new).contains(id) implies candidates(
                x,
                count,
            ).contains(id) by {
                if prev.contains(id) {
                    let j = choose|j: u64| j < count - 1 && id == #[trigger] wrap_add(x, j);
                    assert(j < count && id == wrap_add(x, j));
                } else {
                    assert(last_j < count && id == wrap_add(x, last_j));
                }
            }
        }
        vstd::set::axiom_set_insert_finite(prev, id_new);
        vstd::set::axiom_set_insert_len(prev, id_new);
    }
}

/// Removing one element keeps the remaining ids unique.
pub proof fn lemma_ids_unique_remove<S>(s: Seq<(ServiceId, ServiceEntry<S>)>, i: int)
    requires
        ids_unique(s),
        0 <= i < s.len(),
    ensures
        ids_unique(s.remove(i)),
        forall|j: int| 0 <= j < s.remove(i).len() ==> #[trigger] s.remove(i)[j].0.0 != s[i].0.0,
{
    let r = s.remove(i);
    assert forall|j: int| 0 <= j < r.len() implies #[trigger] r[j].0.0 != s[i].0.0 by {
        if j < i {
            assert(r[j] == s[j]);
        } else {
            assert(r[j] == s[j + 1]);
        }
    }
    assert forall|j: int, k: int| 0 <= j < k < r.len() implies r[j].0.0 != r[k].0.0 by {
        if j < i {
            assert(r[j] == s[j]);
        } else {
            assert(r[j] == s[j + 1]);
        }
        if k < i {
            assert(r[k] == s[k]);
        } else {
            assert(r[k] == s[k + 1]);
        }
    }
}

/// Initial-id invariant: an id allocated from counter 0 over an empty
/// registry is 0, so the first service a fresh connection registers gets
/// id 0, matching the proxy the client pre-constructs. The premises are
/// exactly what [`ServiceCollection::register_service`] ensures of the id
/// it returns when the registry starts as [`ServiceCollection::new`]
/// leaves it.
pub proof fn lemma_initial_id_is_zero<S>(m: Map<u64, ServiceEntry<S>>, k: u64, r: u64)
    requires
        m == Map::<u64, ServiceEntry<S>>::empty(),
        r == wrap_add(0, k),
        forall|j: u64| j < k ==> m.contains_key(#[trigger] wrap_add(0, j)),
    ensures
        r == 0,
{
    if k > 0 {
        assert(m.contains_key(wrap_add(0, 0)));
    }
    assert(wrap_add(0, 0) == 0) by (bit_vector);
}

/// Nesting safety: while a child entry `c` borrowing from parent `p` is
/// live, the parent is locked, so [`ServiceCollection::take_for_call`]
/// refuses every call on `p` with `ServiceBusy`, and
/// [`ServiceCollection::drop_service`] refuses to release `p` with
/// `ServiceStillInUse`.
pub proof fn lemma_nesting_safety<S>(m: Map<u64, ServiceEntry<S>>, c: u64, p: ServiceId)
    requires
        nesting_ok(m),
        m.contains_key(c),
        m[c].parent == Some(p),
    ensures
        m.contains_key(p.0),
        m[p.0].locked,
{
}

/// Release order: dropping a live, unlocked child `c` is admitted, and in
/// the registry it leaves behind the parent `p` is present, unlocked, and
/// so callable again, with the nesting discipline intact. This is the map
/// [`ServiceCollection::drop_service`] ensures it leaves when it replies
/// `DropServiceDone`.
pub proof fn lemma_release_order<S>(m: Map<u64, ServiceEntry<S>>, c: u64, p: ServiceId)
    requires
        nesting_ok(m),
        m.contains_key(c),
        !m[c].locked,
        m[c].parent == Some(p),
    ensures
        ({
            let m1 = m.remove(c).insert(
                p.0,
                ServiceEntry { server: m[p.0].server, parent: m[p.0].parent, locked: false },
            );
            &&& !m1.contains_key(c)
            &&& m1.contains_key(p.0)
            &&& !m1[p.0].locked
            &&& nesting_ok(m1)
        }),
{
    let m1 = m.remove(c).insert(
        p.0,
        ServiceEntry { server: m[p.0].server, parent: m[p.0].parent, locked: false },
    );
    assert forall|x: u64| #[trigger] m1.contains_key(x) implies match m1[x].parent {
        Some(q) => q.0 != x && m1.contains_key(q.0) && m1[q.0].locked,
        None => true,
    } by {
        if x != p.0 {
            assert(m.contains_key(x) && m[x] == m1[x]);
            match m[x].parent {
                Some(q) => {
                    assert(q.0 != c);
                    if q.0 == p.0 {
                        // Two live entries would borrow from `p` at once.
                        assert(m[c].parent == Some(p));
                        assert(false);
                    }
                },
                None => {},
            }
        } else {
            match m[p.0].parent {
                Some(q) => {
                    assert(q.0 != c);
                },
                None => {},
            }
        }
    }
}

impl<S> ServiceCollection<S> {
    /// A fresh registry for a new connection: no live entries, and the id
    /// allocator at 0, so the initial service receives id 0.
    pub fn new() -> (r: Self)
        ensures
            r.wf(),
            r@ == Map::<u64, ServiceEntry<S>>::empty(),
            r.next_service_id.0 == 0,
    {
        ServiceCollection { active_services: Vec::new(), next_service_id: ServiceId(0) }
    }

    /// Whether a service with this id is live.
    pub fn contains_service(&self, sid: ServiceId) -> (r: bool)
        ensures
            r == self@.contains_key(sid.0),
    {
        proof {
            lemma_entries_map_props(self.active_services@);
        }
        let n = self.active_services.len();
        let mut i: usize = 0;
        while i < n
            invariant
                n == self.active_services@.len(),
                i <= n,
                forall|j: int| 0 <= j < i ==> self.active_services@[j].0.0 != sid.0,
            decreases n - i,
        {
            if self.active_services[i].0.0 == sid.0 {
                proof {
                    lemma_entries_map_props(self.active_services@);
                }
                return true;
            }
            i = i + 1;
        }
        false
    }

    /// The position of a live id in the backing vector.
    fn find_index(&self, sid: ServiceId) -> (r: Option<usize>)
        ensures
            match r {
                Some(i) => i < self.active_services@.len() && self.active_services@[i as int].0.0
                    == sid.0,
                None => !self@.contains_key(sid.0),
            },
    {
        proof {
            lemma_entries_map_props(self.active_services@);
        }
        let n = self.active_services.len();
        let mut i: usize = 0;
        while i < n
            invariant
                n == self.active_services@.len(),
                i <= n,
                forall|j: int| 0 <= j < i ==> self.active_services@[j].0.0 != sid.0,
            decreases n - i,
        {
            if self.active_services[i].0.0 == sid.0 {
                return Some(i);
            }
            i = i + 1;
        }
        None
    }

    /// A borrow of the live entry with this id, or `None` when the id is
    /// not live.
    pub fn get_service(&self, sid: ServiceId) -> (r: Option<&ServiceEntry<S>>)
        requires
            self.wf(),
        ensures
            match r {
                Some(entry) => self@.contains_key(sid.0) && *entry == self@[sid.0],
                None => !self@.contains_key(sid.0),
            },
    {
        proof {
            lemma_entries_map_unique(self.active_services@);
        }
        match self.find_index(sid) {
            Some(i) => Some(&self.active_services[i].1),
            None => None,
        }
    }

    /// The number of live server objects this connection holds.
    pub fn num_live_services(&self) -> (r: usize)
        requires
            self.wf(),
        ensures
            r == self@.dom().len(),
    {
        proof {
            lemma_entries_map_unique(self.active_services@);
        }
        self.active_services.len()
    }

    /// Flip the locked flag of the entry at one backing index.
    fn set_locked_at(&mut self, i: usize, locked: bool)
        requires
            ids_unique(old(self).active_services@),
            i < old(self).active_services@.len(),
        ensures
            ids_unique(final(self).active_services@),
            final(self)@ == old(self)@.insert(
                old(self).active_services@[i as int].0.0,
                ServiceEntry {
                    server: old(self).active_services@[i as int].1.server,
                    parent: old(self).active_services@[i as int].1.parent,
                    locked: locked,
                },
            ),
            final(self).next_service_id == old(self).next_service_id,
    {
        proof {
            lemma_entries_map_remove(self.active_services@, i as int);
            lemma_ids_unique_remove(self.active_services@, i as int);
        }
        let (id, mut entry) = self.active_services.remove(i);
        entry.locked = locked;
        proof {
            lemma_entries_map_push(self.active_services@, id, entry);
        }
        self.active_services.push((id, entry));
        proof {
            assert(final(self)@ =~= old(self)@.insert(
                old(self).active_services@[i as int].0.0,
                ServiceEntry {
                    server: old(self).active_services@[i as int].1.server,
                    parent: old(self).active_services@[i as int].1.parent,
                    locked: locked,
                },
            ));
        }
    }

    /// Insert an entry under a fresh id, preserving the nesting discipline.
    fn insert_entry(&mut self, sid: ServiceId, entry: ServiceEntry<S>)
        requires
            old(self).wf(),
            !old(self)@.contains_key(sid.0),
            match entry.parent {
                Some(p) => p.0 != sid.0 && old(self)@.contains_key(p.0) && old(self)@[p.0].locked
                    && forall|c: u64|
                        old(self)@.contains_key(c) ==> old(self)@[c].parent != Some(p),
                None => true,
            },
        ensures
            final(self).wf(),
            final(self)@ == old(self)@.insert(sid.0, entry),
            final(self).next_service_id == old(self).next_service_id,
    {
        proof {
            lemma_entries_map_props(self.active_services@);
            lemma_entries_map_push(self.active_services@, sid, entry);
        }
        self.active_services.push((sid, entry));
        proof {
            let s = final(self).active_services@;
            assert forall|i: int, j: int| 0 <= i < j < s.len() implies s[i].0.0 != s[j].0.0 by {
                if j == s.len() - 1 {
                    assert(old(self).active_services@[i].0.0 == s[i].0.0);
                }
            }
            let m0 = old(self)@;
            let m1 = final(self)@;
            assert forall|c: u64| #[trigger] m1.contains_key(c) implies match m1[c].parent {
                Some(p) => p.0 != c && m1.contains_key(p.0) && m1[p.0].locked,
                None => true,
            } by {
                if c != sid.0 {
                    assert(m0.contains_key(c));
                    match m0[c].parent {
                        Some(q) => {
                            assert(m0.contains_key(q.0));
                            assert(q.0 != sid.0);
                        },
                        None => {},
                    }
                }
            }
        }
    }

    /// Add a service to the collection, and return its id.
    ///
    /// The allocator starts from the current counter and returns the first
    /// id that is not live, wrapping at the top of the 64-bit range; the
    /// counter ends one past the returned id. When a parent guard is given,
    /// the new entry borrows from that parent, which must be live, locked,
    /// and childless; the guard is released when the entry is dropped.
    pub fn register_service(&mut self, service: S, parent_guard: Option<ServiceId>) -> (r:
        ServiceId)
        requires
            old(self).wf(),
            match parent_guard {
                Some(p) => old(self)@.contains_key(p.0) && old(self)@[p.0].locked && forall|c: u64|
                    old(self)@.contains_key(c) ==> old(self)@[c].parent != Some(p),
                None => true,
            },
        ensures
            final(self).wf(),
            !old(self)@.contains_key(r.0),
            final(self)@ == old(self)@.insert(
                r.0,
                ServiceEntry { server: service, parent: parent_guard, locked: false },
            ),
            final(self).next_service_id.0 == wrap_add(r.0, 1),
            exists|k: u64|
                r.0 == #[trigger] wrap_add(old(self).next_service_id.0, k) && (forall|j: u64|
                    j < k ==> old(self)@.contains_key(
                        #[trigger] wrap_add(old(self).next_service_id.0, j),
                    )),
    {
        let ghost start = self.next_service_id.0;
        let ghost mut k: u64 = 0;
        let n = self.active_services.len();
        let mut candidate = self.next_service_id;
        self.next_service_id.increment();
        proof {
            assert(wrap_add(start, 0) == start) by (bit_vector);
            assert(self.next_service_id.0 == wrap_add(candidate.0, 1)) by {
                let c = candidate.0;
                assert((if c == u64::MAX {
                    0u64
                } else {
                    (c + 1) as u64
                }) == ((c + 1u64) % 0x1_0000_0000_0000_0000) as u64) by (bit_vector);
            }
        }
        loop
            invariant_except_break
                self.active_services == old(self).active_services,
                self.active_services@.len() == n,
                self.wf(),
                k <= n,
                candidate.0 == wrap_add(start, k),
                self.next_service_id.0 == wrap_add(candidate.0, 1),
                match parent_guard {
                    Some(p) => self@.contains_key(p.0) && self@[p.0].locked && forall|c: u64|
                        self@.contains_key(c) ==> self@[c].parent != Some(p),
                    None => true,
                },
                forall|j: u64|
                    j < k ==> self@.contains_key(#[trigger] wrap_add(start, j)),
            ensures
                self.active_services == old(self).active_services,
                self.wf(),
                candidate.0 == wrap_add(start, k),
                self.next_service_id.0 == wrap_add(candidate.0, 1),
                match parent_guard {
                    Some(p) => self@.contains_key(p.0) && self@[p.0].locked && forall|c: u64|
                        self@.contains_key(c) ==> self@[c].parent != Some(p),
                    None => true,
                },
                forall|j: u64|
                    j < k ==> self@.contains_key(#[trigger] wrap_add(start, j)),
                !self@.contains_key(candidate.0),
            decreases n - k,
        {
            if !self.contains_service(candidate) {
                break;
            }
            proof {
                // Pigeonhole: the k + 1 occupied candidates are distinct, so
                // the registry holds at least k + 1 entries.
                assert forall|id: u64| candidates(start, k + 1).contains(id) implies
                    self@.dom().contains(id) by {
                    let j = choose|j: u64| j < k + 1 && id == #[trigger] wrap_add(start, j);
                    if j < k {
                        assert(self@.contains_key(wrap_add(start, j)));
                    } else {
                        assert(id == candidate.0);
                    }
                }
                lemma_candidates_len(start, k + 1);
                lemma_entries_map_props(self.active_services@);
                lemma_len_subset(candidates(start, k + 1), self@.dom());
                assert(k < n);
                lemma_wrap_add_step(start, k);
                k = (k + 1) as u64;
            }
            candidate = self.next_service_id;
            self.next_service_id.increment();
            proof {
                assert(self.next_service_id.0 == wrap_add(candidate.0, 1)) by {
                    let c = candidate.0;
                    assert((if c == u64::MAX {
                        0u64
                    } else {
                        (c + 1) as u64
                    }) == ((c + 1u64) % 0x1_0000_0000_0000_0000) as u64) by (bit_vector);
                }
            }
        }
        self.insert_entry(
            candidate,
            ServiceEntry { server: service, parent: parent_guard, locked: false },
        );
        candidate
    }

    /// Detach an unlocked entry so a method call can run on its server
    /// object. Fails with `UnknownService` for an id that is not live, and
    /// with `ServiceBusy` for a locked entry, leaving the registry
    /// unchanged in both cases.
    pub fn take_for_call(&mut self, sid: ServiceId) -> (r: Result<ServiceEntry<S>, RpcError>)
        requires
            old(self).wf(),
        ensures
            final(self).wf(),
            r is Ok <==> old(self)@.contains_key(sid.0) && !old(self)@[sid.0].locked,
            match r {
                Ok(entry) => entry == old(self)@[sid.0] && final(self)@ == old(self)@.remove(sid.0)
                    && final(self).next_service_id == old(self).next_service_id,
                Err(e) => final(self).active_services == old(self).active_services
                    && final(self).next_service_id == old(self).next_service_id && e == (
                if !old(self)@.contains_key(sid.0) {
                    RpcError::UnknownService(sid)
                } else {
                    RpcError::ServiceBusy(sid)
                }),
            },
    {
        proof {
            lemma_entries_map_unique(self.active_services@);
        }
        match self.find_index(sid) {
            None => Err(RpcError::UnknownService(sid)),
            Some(i) => {
                if self.active_services[i].1.locked {
                    return Err(RpcError::ServiceBusy(sid));
                }
                proof {
                    lemma_entries_map_remove(self.active_services@, i as int);
                    lemma_ids_unique_remove(self.active_services@, i as int);
                }
                let (_, entry) = self.active_services.remove(i);
                proof {
                    let m0 = old(self)@;
                    let m1 = final(self)@;
                    assert forall|c: u64| #[trigger] m1.contains_key(c) implies match m1[c].parent {
                        Some(p) => p.0 != c && m1.contains_key(p.0) && m1[p.0].locked,
                        None => {
                            true
                        },
                    } by {
                        match m1[c].parent {
                            Some(p) => {
                                assert(m0.contains_key(c) && m0[c] == m1[c]);
                                assert(p.0 != sid.0);
                            },
                            None => {},
                        }
                    }
                }
                Ok(entry)
            },
        }
    }

    /// Put an entry taken by [`Self::take_for_call`] back under its id,
    /// with the given locked flag.
    pub fn restore_service(&mut self, sid: ServiceId, entry: ServiceEntry<S>)
        requires
            old(self).wf(),
            !old(self)@.contains_key(sid.0),
            match entry.parent {
                Some(p) => p.0 != sid.0 && old(self)@.contains_key(p.0) && old(self)@[p.0].locked
                    && forall|c: u64|
                        old(self)@.contains_key(c) ==> old(self)@[c].parent != Some(p),
                None => true,
            },
        ensures
            final(self).wf(),
            final(self)@ == old(self)@.insert(sid.0, entry),
            final(self).next_service_id == old(self).next_service_id,
    {
        self.insert_entry(sid, entry);
    }

    /// Release the service with this id, as the `DropService` message asks.
    ///
    /// On success the entry leaves the registry and is returned to the
    /// caller, and the parent it borrowed from, if any, becomes callable
    /// again. An id that is not live fails with `UnknownService`; a locked
    /// entry, i.e. one with a live descendant, fails with
    /// `ServiceStillInUse`; both leave the registry unchanged.
    pub fn drop_service(&mut self, sid: ServiceId) -> (r: Result<ServiceEntry<S>, RpcError>)
        requires
            old(self).wf(),
        ensures
            final(self).wf(),
            r is Ok <==> old(self)@.contains_key(sid.0) && !old(self)@[sid.0].locked,
            match r {
                Ok(entry) => entry == old(self)@[sid.0] && final(self)@ == (
                match old(self)@[sid.0].parent {
                    Some(p) => old(self)@.remove(sid.0).insert(
                        p.0,
                        ServiceEntry {
                            server: old(self)@[p.0].server,
                            parent: old(self)@[p.0].parent,
                            locked: false,
                        },
                    ),
                    None => old(self)@.remove(sid.0),
                }) && final(self).next_service_id == old(self).next_service_id,
                Err(e) => final(self).active_services == old(self).active_services
                    && final(self).next_service_id == old(self).next_service_id && e == (
                if !old(self)@.contains_key(sid.0) {
                    RpcError::UnknownService(sid)
                } else {
                    RpcError::ServiceStillInUse(sid)
                }),
            },
    {
        proof {
            lemma_entries_map_unique(self.active_services@);
        }
        match self.find_index(sid) {
            None => Err(RpcError::UnknownService(sid)),
            Some(i) => {
                if self.active_services[i].1.locked {
                    return Err(RpcError::ServiceStillInUse(sid));
                }
                proof {
                    lemma_entries_map_remove(self.active_services@, i as int);
                    lemma_ids_unique_remove(self.active_services@, i as int);
                }
                let (_, entry) = self.active_services.remove(i);
                proof {
                    let m0 = old(self)@;
                    let m1 = self@;
                    assert forall|c: u64| #[trigger] m1.contains_key(c) implies m0.contains_key(c)
                        && m0[c] == m1[c] by {}
                }
                match entry.parent {
                    None => Ok(entry),
                    Some(p) => {
                        proof {
                            lemma_entries_map_unique(self.active_services@);
                        }
                        let pi = match self.find_index(p) {
                            Some(pi) => pi,
                            None => {
                                // The parent of a live entry is always live.
                                proof {
                                    assert(old(self)@.contains_key(p.0));
                                    assert(false);
                                }
                                0
                            },
                        };
                        self.set_locked_at(pi, false);
                        proof {
                            let m0 = old(self)@;
                            let m1 = self@;
                            assert(m1 =~= m0.remove(sid.0).insert(
                                p.0,
                                ServiceEntry {
                                    server: m0[p.0].server,
                                    parent: m0[p.0].parent,
                                    locked: false,
                                },
                            ));
                            assert forall|c: u64| #[trigger] m1.contains_key(c) implies match m1[c]
                                .parent {
                                Some(q) => q.0 != c && m1.contains_key(q.0) && m1[q.0].locked,
                                None => {
                                    true
                                },
                            } by {
                                if c != p.0 {
                                    assert(m0.contains_key(c) && m0[c] == m1[c]);
                                    match m0[c].parent {
                                        Some(q) => {
                                            assert(q.0 != sid.0);
                                            if q.0 == p.0 {
                                                // Only the dropped entry
                                                // borrowed from this parent.
                                                assert(m0[sid.0].parent == Some(p));
                                                assert(false);
                                            }
                                        },
                                        None => {},
                                    }
                                } else {
                                    match m0[p.0].parent {
                                        Some(q) => {
                                            assert(q.0 != sid.0);
                                        },
                                        None => {},
                                    }
                                }
                            }
                        }
                        Ok(entry)
                    },
                }
            },
        }
    }

    /// Tear the connection down: every live entry leaves the registry, so
    /// no server object stays behind.
    pub fn end_connection(&mut self)
        ensures
            final(self).wf(),
            final(self)@ == Map::<u64, ServiceEntry<S>>::empty(),
            final(self)@.dom().len() == 0,
    {
        self.active_services.clear();
        proof {
            assert(final(self)@.dom() =~= Set::<u64>::empty());
        }
    }
}

} // verus!
