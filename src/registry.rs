//! The subscription registry and the broadcast bookkeeping around it.
//!
//! The registry maps each subscriber id to the subscriber's connection and to the
//! number of pushes sent to it and not yet answered. Connections are opaque to the
//! registry: it only hands them back to the caller, which does the sending.
use vstd::prelude::*;

verus! {

/// Most pushes that may be outstanding to one subscriber at a time.
pub const MAX_IN_FLIGHT: u32 = 5;

/// The flow-control state of one registered subscriber.
#[derive(Clone, Copy, Debug, PartialEq, Eq, Structural)]
pub struct Slot {
    pub id: u64,
    pub in_flight: u32,
}

/// The capability handed to a subscriber when it registers. Releasing it removes
/// the registration.
#[derive(Clone, Copy, Debug, PartialEq, Eq, Structural)]
pub struct SubscriptionHandle {
    pub id: u64,
}

/// What became of an entry when one of its pushes finished.
#[derive(Clone, Copy, Debug, PartialEq, Eq, Structural)]
pub enum PushOutcome {
    /// The push was answered and the entry's count went down by one.
    Acknowledged,
    /// The push failed and the entry was evicted.
    Evicted,
    /// The entry had already gone (revoked or evicted earlier): nothing changed.
    Gone,
}

/// Map from subscriber id to connection and in-flight count.
///
/// Entries are kept in order of registration; since ids are handed out by a
/// counter, that is also increasing order of id.
pub struct Registry<C> {
    slots: Vec<Slot>,
    connections: Vec<C>,
    next_id: u64,
}

/// True when the ids in `s` are strictly increasing.
pub open spec fn ids_increasing(s: Seq<Slot>) -> bool {
    forall|i: int, j: int| 0 <= i < j < s.len() ==> s[i].id < s[j].id
}

/// True when some entry of `s` has id `id`.
pub open spec fn has_id(s: Seq<Slot>, id: u64) -> bool {
    exists|i: int| 0 <= i < s.len() && s[i].id == id
}

/// Ids of the entries that take a push in a broadcast round, in registry order.
pub open spec fn due_ids(s: Seq<Slot>) -> Seq<u64>
    decreases s.len(),
{
    if s.len() == 0 {
        Seq::empty()
    } else {
        let rest = due_ids(s.drop_last());
        if s.last().in_flight < MAX_IN_FLIGHT {
            rest.push(s.last().id)
        } else {
            rest
        }
    }
}

/// The state of one entry after a broadcast round.
pub open spec fn after_round(e: Slot) -> Slot {
    if e.in_flight < MAX_IN_FLIGHT {
        Slot { id: e.id, in_flight: (e.in_flight + 1) as u32 }
    } else {
        e
    }
}

/// An id is due in a round exactly when some entry with that id is below the cap.
pub proof fn lemma_due_ids_members(s: Seq<Slot>, id: u64)
    ensures
        due_ids(s).contains(id) <==> exists|i: int|
            0 <= i < s.len() && s[i].id == id && s[i].in_flight < MAX_IN_FLIGHT,
    decreases s.len(),
{
    if s.len() > 0 {
        let p = s.drop_last();
        lemma_due_ids_members(p, id);
        if due_ids(s).contains(id) {
            if due_ids(p).contains(id) {
                let i = choose|i: int|
                    0 <= i < p.len() && p[i].id == id && p[i].in_flight < MAX_IN_FLIGHT;
                assert(s[i] == p[i]);
            } else {
                let k = due_ids(s).index_of(id);
                assert(s[s.len() - 1].id == id);
            }
        }
        if exists|i: int| 0 <= i < s.len() && s[i].id == id && s[i].in_flight < MAX_IN_FLIGHT {
            let i = choose|i: int|
                0 <= i < s.len() && s[i].id == id && s[i].in_flight < MAX_IN_FLIGHT;
            if i < s.len() - 1 {
                assert(p[i] == s[i]);
                let k = due_ids(p).index_of(id);
                if s.last().in_flight < MAX_IN_FLIGHT {
                    assert(due_ids(s)[k] == id);
                }
            } else {
                assert(due_ids(s)[due_ids(s).len() - 1] == id);
            }
        }
    }
}

/// Subscriber ids only go up: a subscription made after another (the counter having
/// not gone back in between, which no operation does) gets a strictly larger id,
/// and no id is given out while an entry holds it.
pub proof fn lemma_subscriber_ids_increase<C>(
    a0: Registry<C>,
    a1: Registry<C>,
    c1: C,
    h1: SubscriptionHandle,
    b0: Registry<C>,
    b1: Registry<C>,
    c2: C,
    h2: SubscriptionHandle,
)
    requires
        Registry::subscribed(&a0, &a1, c1, h1),
        Registry::subscribed(&b0, &b1, c2, h2),
        a1.next_id() <= b0.next_id(),
    ensures
        h1.id < h2.id,
        !b0.contains(h2.id),
{
}

/// Revoking a handle whose entry is present removes exactly that entry: the count
/// drops by one and every other id stays as it was. Revoking one whose entry is
/// gone changes nothing.
pub proof fn lemma_revoke_removes_one<C>(r0: Registry<C>, r1: Registry<C>, id: u64, found: bool)
    requires
        r0.wf(),
        Registry::removed(&r0, &r1, id, found),
    ensures
        found ==> r1.slots().len() == r0.slots().len() - 1,
        !found ==> r1.slots() == r0.slots() && r1.connections() == r0.connections(),
        forall|x: u64| x != id ==> (r1.contains(x) <==> r0.contains(x)),
{
    if found {
        let i = choose|i: int|
            0 <= i < r0.slots().len() && r0.slots()[i].id == id && r1.slots() == r0.slots().remove(
                i,
            ) && r1.connections() == r0.connections().remove(i);
        assert forall|x: u64| x != id implies (r1.contains(x) <==> r0.contains(x)) by {
            let s0 = r0.slots();
            let s1 = r1.slots();
            if r0.contains(x) {
                let j = choose|j: int| 0 <= j < s0.len() && s0[j].id == x;
                if j < i {
                    assert(s1[j] == s0[j]);
                } else {
                    assert(j != i);
                    assert(s1[j - 1] == s0[j]);
                }
            }
            if r1.contains(x) {
                let j = choose|j: int| 0 <= j < s1.len() && s1[j].id == x;
                if j < i {
                    assert(s1[j] == s0[j]);
                } else {
                    assert(s1[j] == s0[j + 1]);
                }
            }
        }
    }
}

/// Revoking the same handle twice: the second call finds nothing and changes
/// nothing, and the two together remove exactly one entry.
pub proof fn lemma_revoke_twice<C>(
    r0: Registry<C>,
    r1: Registry<C>,
    r2: Registry<C>,
    id: u64,
    first: bool,
    second: bool,
)
    requires
        r0.wf(),
        r0.contains(id),
        Registry::removed(&r0, &r1, id, first),
        Registry::removed(&r1, &r2, id, second),
    ensures
        first,
        !second,
        r2.slots() == r1.slots(),
        r2.slots().len() == r0.slots().len() - 1,
{
    lemma_revoke_removes_one(r0, r1, id, first);
}

/// A subscriber at the cap takes no push in a broadcast round, and its count is
/// left where it was: only a finished push lowers it.
pub proof fn lemma_saturated_skipped<C>(r0: Registry<C>, r1: Registry<C>, due: Seq<u64>, i: int)
    requires
        r0.wf(),
        Registry::round_started(&r0, &r1, due),
        0 <= i < r0.slots().len(),
        r0.slots()[i].in_flight == MAX_IN_FLIGHT,
    ensures
        !due.contains(r0.slots()[i].id),
        r1.slots()[i] == r0.slots()[i],
{
    let s = r0.slots();
    lemma_due_ids_members(s, s[i].id);
    if due.contains(s[i].id) {
        let j = choose|j: int|
            0 <= j < s.len() && s[j].id == s[i].id && s[j].in_flight < MAX_IN_FLIGHT;
        if j < i {
            assert(s[j].id < s[i].id);
        } else if j > i {
            assert(s[i].id < s[j].id);
        }
    }
}

/// A subscriber evicted after a failed push is not pushed to in any later round
/// (while it stays unregistered, which it does, as ids are never given out twice).
pub proof fn lemma_evicted_not_pushed<C>(
    r0: Registry<C>,
    r1: Registry<C>,
    id: u64,
    r2: Registry<C>,
    due: Seq<u64>,
)
    requires
        r0.wf(),
        Registry::removed(&r0, &r1, id, true),
        Registry::round_started(&r1, &r2, due),
    ensures
        !due.contains(id),
{
    lemma_due_ids_members(r1.slots(), id);
}

impl<C> Registry<C> {
    /// The entries' flow-control state, in registry order.
    pub closed spec fn slots(&self) -> Seq<Slot> {
        self.slots@
    }

    /// The entries' connections, in the same order as `slots`.
    pub closed spec fn connections(&self) -> Seq<C> {
        self.connections@
    }

    /// The id the next subscriber will be given.
    pub closed spec fn next_id(&self) -> u64 {
        self.next_id
    }

    /// The registry's invariant: one connection per entry, each id held once and
    /// below the counter, and no count above the cap.
    pub open spec fn wf(&self) -> bool {
        &&& self.slots().len() == self.connections().len()
        &&& ids_increasing(self.slots())
        &&& forall|i: int| 0 <= i < self.slots().len() ==> self.slots()[i].id < self.next_id()
        &&& forall|i: int|
            0 <= i < self.slots().len() ==> self.slots()[i].in_flight <= MAX_IN_FLIGHT
    }

    /// True when a subscriber with id `id` is registered.
    pub open spec fn contains(&self, id: u64) -> bool {
        has_id(self.slots(), id)
    }

    /// The relation between the registry before and after `subscribe`, and the handle.
    pub open spec fn subscribed(old: &Self, new: &Self, conn: C, h: SubscriptionHandle) -> bool {
        &&& h.id == old.next_id()
        &&& !old.contains(h.id)
        &&& new.next_id() == old.next_id() + 1
        &&& new.slots() == old.slots().push(Slot { id: h.id, in_flight: 0 })
        &&& new.connections() == old.connections().push(conn)
    }

    /// The relation between the registry before and after removing `id`.
    pub open spec fn removed(old: &Self, new: &Self, id: u64, found: bool) -> bool {
        &&& found == old.contains(id)
        &&& new.next_id() == old.next_id()
        &&& !new.contains(id)
        &&& found ==> exists|i: int|
            0 <= i < old.slots().len() && old.slots()[i].id == id && new.slots()
                == old.slots().remove(i) && new.connections() == old.connections().remove(i)
        &&& !found ==> new.slots() == old.slots() && new.connections() == old.connections()
    }

    /// The relation between the registry before and after a broadcast round, and
    /// the ids the round pushes to.
    pub open spec fn round_started(old: &Self, new: &Self, due: Seq<u64>) -> bool {
        &&& due == due_ids(old.slots())
        &&& new.next_id() == old.next_id()
        &&& new.connections() == old.connections()
        &&& new.slots() == old.slots().map_values(|e: Slot| after_round(e))
    }

    /// The relation between the registry before and after a push to `id` finished,
    /// and what became of the entry.
    pub open spec fn push_completed(
        old: &Self,
        new: &Self,
        id: u64,
        delivered: bool,
        r: PushOutcome,
    ) -> bool {
        &&& new.next_id() == old.next_id()
        &&& !old.contains(id) ==> r == PushOutcome::Gone && new.slots() == old.slots()
            && new.connections() == old.connections()
        &&& old.contains(id) && !delivered ==> r == PushOutcome::Evicted && Self::removed(
            old,
            new,
            id,
            true,
        )
        &&& old.contains(id) && delivered ==> r == PushOutcome::Acknowledged && new.connections()
            == old.connections() && exists|i: int|
            0 <= i < old.slots().len() && old.slots()[i].id == id && new.slots()
                == old.slots().update(
                i,
                Slot {
                    id,
                    in_flight: if old.slots()[i].in_flight > 0 {
                        (old.slots()[i].in_flight - 1) as u32
                    } else {
                        0
                    },
                },
            )
    }

    /// An empty registry whose first subscriber gets id 0.
    pub fn new() -> (r: Self)
        ensures
            r.wf(),
            r.slots().len() == 0,
            r.next_id() == 0,
    {
        Registry { slots: Vec::new(), connections: Vec::new(), next_id: 0 }
    }

    /// Number of registered subscribers.
    pub fn len(&self) -> (r: usize)
        ensures
            r == self.slots().len(),
    {
        self.slots.len()
    }

    /// True while the id counter can still give out a fresh id.
    pub fn can_subscribe(&self) -> (r: bool)
        ensures
            r == (self.next_id() < u64::MAX),
    {
        self.next_id < u64::MAX
    }

    /// The position of `id` among the entries, if registered.
    fn position(&self, id: u64) -> (r: Option<usize>)
        requires
            self.wf(),
        ensures
            match r {
                Some(i) => i < self.slots().len() && self.slots()[i as int].id == id,
                None => !self.contains(id),
            },
    {
        let mut i: usize = 0;
        while i < self.slots.len()
            invariant
                i <= self.slots@.len(),
                forall|j: int| 0 <= j < i ==> self.slots@[j].id != id,
            decreases self.slots@.len() - i,
        {
            if self.slots[i].id == id {
                return Some(i);
            }
            i = i + 1;
        }
        None
    }

    /// True when a subscriber with id `id` is registered.
    pub fn is_registered(&self, id: u64) -> (r: bool)
        requires
            self.wf(),
        ensures
            r == self.contains(id),
    {
        self.position(id).is_some()
    }

    /// The number of unanswered pushes to `id`, or `None` when it is not registered.
    pub fn in_flight(&self, id: u64) -> (r: Option<u32>)
        requires
            self.wf(),
        ensures
            match r {
                Some(n) => exists|i: int|
                    0 <= i < self.slots().len() && self.slots()[i].id == id
                        && self.slots()[i].in_flight == n,
                None => !self.contains(id),
            },
    {
        match self.position(id) {
            Some(i) => Some(self.slots[i].in_flight),
            None => None,
        }
    }

    /// The connection of subscriber `id`, or `None` when it is not registered.
    pub fn connection(&self, id: u64) -> (r: Option<&C>)
        requires
            self.wf(),
        ensures
            match r {
                Some(c) => exists|i: int|
                    0 <= i < self.slots().len() && self.slots()[i].id == id && *c
                        == self.connections()[i],
                None => !self.contains(id),
            },
    {
        match self.position(id) {
            Some(i) => Some(&self.connections[i]),
            None => None,
        }
    }

    /// Registers a subscriber with a fresh id and no pushes outstanding, and
    /// returns the handle that revokes the registration.
    pub fn subscribe(&mut self, conn: C) -> (h: SubscriptionHandle)
        requires
            old(self).wf(),
            old(self).next_id() < u64::MAX,
        ensures
            final(self).wf(),
            Self::subscribed(old(self), final(self), conn, h),
    {
        let id = self.next_id;
        proof {
            assert(!has_id(self.slots@, id));
        }
        self.slots.push(Slot { id, in_flight: 0 });
        self.connections.push(conn);
        self.next_id = id + 1;
        SubscriptionHandle { id }
    }

    /// Removes the entry `id` if present and says whether it was.
    fn remove_id(&mut self, id: u64) -> (found: bool)
        requires
            old(self).wf(),
        ensures
            final(self).wf(),
            Self::removed(old(self), final(self), id, found),
    {
        match self.position(id) {
            Some(i) => {
                let ghost s0 = self.slots@;
                self.slots.remove(i);
                self.connections.remove(i);
                proof {
                    let s1 = self.slots@;
                    assert(forall|j: int| 0 <= j < s1.len() ==> #[trigger] s1[j] == (if j < i {
                        s0[j]
                    } else {
                        s0[j + 1]
                    }));
                    assert(ids_increasing(s1));
                    if has_id(s1, id) {
                        let j = choose|j: int| 0 <= j < s1.len() && s1[j].id == id;
                        if j < i {
                            assert(s0[j].id < s0[i as int].id);
                        } else {
                            assert(s0[i as int].id < s0[j + 1].id);
                        }
                    }
                }
                true
            },
            None => false,
        }
    }

    /// Releases a subscription: removes its entry if it is still present. Releasing
    /// a handle whose entry is already gone changes nothing. Returns whether an
    /// entry was removed.
    pub fn revoke(&mut self, handle: &SubscriptionHandle) -> (found: bool)
        requires
            old(self).wf(),
        ensures
            final(self).wf(),
            Self::removed(old(self), final(self), handle.id, found),
    {
        self.remove_id(handle.id)
    }

    /// Starts a broadcast round: every entry below the cap gets its count raised
    /// by one, and its id is returned so that the caller pushes to it. Entries at
    /// the cap are skipped and left as they are.
    pub fn begin_broadcast(&mut self) -> (due: Vec<u64>)
        requires
            old(self).wf(),
        ensures
            final(self).wf(),
            Self::round_started(old(self), final(self), due@),
            forall|id: u64| #[trigger]
                due@.contains(id) <==> exists|i: int|
                    0 <= i < old(self).slots().len() && old(self).slots()[i].id == id
                        && old(self).slots()[i].in_flight < MAX_IN_FLIGHT,
    {
        let ghost s0 = self.slots@;
        let mut due: Vec<u64> = Vec::new();
        let mut i: usize = 0;
        while i < self.slots.len()
            invariant
                self.slots@.len() == s0.len(),
                self.connections@ == old(self).connections@,
                self.next_id == old(self).next_id,
                i <= s0.len(),
                forall|j: int| 0 <= j < i ==> self.slots@[j] == after_round(s0[j]),
                forall|j: int| i <= j < s0.len() ==> self.slots@[j] == s0[j],
                due@ == due_ids(s0.subrange(0, i as int)),
            decreases s0.len() - i,
        {
            let e = self.slots[i];
            proof {
                assert(s0.subrange(0, i + 1).drop_last() == s0.subrange(0, i as int));
            }
            if e.in_flight < MAX_IN_FLIGHT {
                self.slots.set(i, Slot { id: e.id, in_flight: e.in_flight + 1 });
                due.push(e.id);
            }
            i = i + 1;
        }
        proof {
            assert(s0.subrange(0, s0.len() as int) == s0);
            assert(self.slots@ == s0.map_values(|e: Slot| after_round(e)));
            assert(forall|j: int| 0 <= j < s0.len() ==> #[trigger] self.slots@[j].id == s0[j].id);
            assert forall|id: u64| #[trigger]
                due@.contains(id) <==> exists|i: int|
                    0 <= i < s0.len() && s0[i].id == id && s0[i].in_flight < MAX_IN_FLIGHT by {
                lemma_due_ids_members(s0, id);
            }
        }
        due
    }

    /// Records that a push to `id` has finished. A success lowers the entry's
    /// count by one; a failure evicts the entry. Either is a no-op when the entry
    /// is already gone.
    pub fn complete_push(&mut self, id: u64, delivered: bool) -> (r: PushOutcome)
        requires
            old(self).wf(),
        ensures
            final(self).wf(),
            Self::push_completed(old(self), final(self), id, delivered, r),
    {
        if !delivered {
            if self.remove_id(id) {
                return PushOutcome::Evicted;
            } else {
                return PushOutcome::Gone;
            }
        }
        match self.position(id) {
            Some(i) => {
                let e = self.slots[i];
                let n = if e.in_flight > 0 {
                    e.in_flight - 1
                } else {
                    0
                };
                self.slots.set(i, Slot { id, in_flight: n });
                PushOutcome::Acknowledged
            },
            None => PushOutcome::Gone,
        }
    }
}

} // verus!
