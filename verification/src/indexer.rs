//! The on-chain event index: registered recorder contracts append event
//! summaries under monotonic ids; anyone queries them by type, actor or
//! time window with pagination; the admin prunes old ones.
//!
//! Events are kept in id order, which is insertion order, so the type and
//! actor indexes are the subsequences of that order with the type or actor.

use vstd::prelude::*;
use crate::address_list::{contains_address, copy_addresses, lemma_push_no_duplicates, no_duplicates};
use crate::ordered_map::{lemma_entries_map_absent, OrderedMap};
use crate::paging::{page, page_of};
use crate::types::{abort, Abort, Address, EventRecord, Failure, Symbol};

verus! {

/// The event index's state.
pub struct EventIndexerContract {
    pub admin: Address,
    /// Protocol contracts allowed to record events.
    pub recorders: Vec<Address>,
    /// Event id -> record.
    pub events: OrderedMap<EventRecord>,
    /// The id the next event gets.
    pub next_id: u64,
    /// Number of events held.
    pub event_count: u64,
}

/// A selection of events.
#[derive(Clone, Copy, Debug, PartialEq, Eq, Structural)]
pub enum EventQuery {
    Type(Symbol),
    Actor(Address),
    /// Timestamp within `[start, end]`.
    Window(u64, u64),
}

impl EventQuery {
    pub open spec fn matches(self, e: EventRecord) -> bool {
        match self {
            EventQuery::Type(t) => e.event_type == t,
            EventQuery::Actor(a) => e.actor == a,
            EventQuery::Window(start, end) => start <= e.timestamp <= end,
        }
    }

    fn is_match(&self, e: &EventRecord) -> (b: bool)
        ensures
            b == self.matches(*e),
    {
        match self {
            EventQuery::Type(t) => e.event_type == *t,
            EventQuery::Actor(a) => e.actor == *a,
            EventQuery::Window(start, end) => *start <= e.timestamp && e.timestamp <= *end,
        }
    }
}

impl EventIndexerContract {
    /// Every held event is stored under its own id, below the next id; the
    /// count is the number held.
    pub open spec fn wf(&self) -> bool {
        &&& self.events.wf()
        &&& no_duplicates(self.recorders@)
        &&& self.next_id >= 1
        &&& self.event_count == self.events.entries().len()
        &&& forall|i: int| 0 <= i < self.events.entries().len() ==> {
            &&& 1 <= #[trigger] self.events.entries()[i].0 < self.next_id
            &&& self.events.entries()[i].1.event_id == self.events.entries()[i].0
        }
    }

    /// The held events in id (insertion) order.
    pub open spec fn in_order(&self) -> Seq<EventRecord> {
        self.events.values()
    }

    /// The held events satisfying `q`, in insertion order.
    pub open spec fn selected(&self, q: EventQuery) -> Seq<EventRecord> {
        self.in_order().filter(|e: EventRecord| q.matches(e))
    }

    /// Constructor: sets the admin; ids start at 1.
    pub fn new(admin: Address) -> (r: EventIndexerContract)
        ensures
            r.wf(),
            r.admin == admin,
            r.recorders@ == Seq::<Address>::empty(),
            r.events@ == Map::<u64, EventRecord>::empty(),
            r.next_id == 1,
            r.event_count == 0,
    {
        EventIndexerContract { admin, recorders: Vec::new(), events: OrderedMap::new(), next_id: 1, event_count: 0 }
    }

    pub fn get_admin(&self) -> (a: Address)
        ensures
            a == self.admin,
    {
        self.admin
    }

    fn check_admin(&self, caller: Address) -> (r: Result<(), Failure>)
        ensures
            r is Ok <==> caller == self.admin,
            r is Err ==> r == Err::<(), Failure>(abort(Abort::NotAdmin)),
    {
        if caller != self.admin {
            return Err(Failure::Abort(Abort::NotAdmin));
        }
        Ok(())
    }

    /// Hand admin rights over. Admin only.
    pub fn transfer_admin(&mut self, caller: Address, new_admin: Address) -> (r: Result<(), Failure>)
        ensures
            if caller == old(self).admin {
                r is Ok && *final(self) == (EventIndexerContract { admin: new_admin, ..*old(self) })
            } else {
                r == Err::<(), Failure>(abort(Abort::NotAdmin)) && *final(self) == *old(self)
            },
    {
        self.check_admin(caller)?;
        self.admin = new_admin;
        Ok(())
    }

    /// Allow a protocol contract to record events; idempotent. Admin only.
    pub fn add_recorder(&mut self, caller: Address, recorder: Address) -> (r: Result<(), Failure>)
        requires
            old(self).wf(),
        ensures
            final(self).wf(),
            if caller != old(self).admin {
                r == Err::<(), Failure>(abort(Abort::NotAdmin)) && *final(self) == *old(self)
            } else if old(self).recorders@.contains(recorder) {
                r is Ok && *final(self) == *old(self)
            } else {
                r is Ok && final(self).recorders@ == old(self).recorders@.push(recorder)
                    && *final(self) == (EventIndexerContract { recorders: final(self).recorders, ..*old(self) })
            },
    {
        self.check_admin(caller)?;
        if contains_address(&self.recorders, recorder) {
            return Ok(());
        }
        proof {
            lemma_push_no_duplicates(self.recorders@, recorder);
        }
        self.recorders.push(recorder);
        Ok(())
    }

    pub fn is_recorder(&self, address: Address) -> (b: bool)
        ensures
            b == self.recorders@.contains(address),
    {
        contains_address(&self.recorders, address)
    }

    pub fn get_recorders(&self) -> (v: Vec<Address>)
        ensures
            v@ == self.recorders@,
    {
        copy_addresses(&self.recorders)
    }

    /// Append an event recorded by `caller` at `now`; the index's own
    /// address `this` is stamped on it. Returns the id it got.
    pub fn record_event(
        &mut self,
        caller: Address,
        event_type: Symbol,
        actor: Address,
        data_key: Symbol,
        now: u64,
        this: Address,
    ) -> (r: Result<u64, Failure>)
        requires
            old(self).wf(),
        ensures
            final(self).wf(),
            if !old(self).recorders@.contains(caller) {
                r == Err::<u64, Failure>(abort(Abort::NotRecorder)) && *final(self) == *old(self)
            } else if old(self).next_id == u64::MAX {
                r == Err::<u64, Failure>(abort(Abort::ArithmeticOverflow)) && *final(self) == *old(self)
            } else {
                let id = old(self).next_id;
                let rec = EventRecord { event_id: id, event_type, timestamp: now, actor, contract_id: this, data_key };
                &&& r == Ok::<u64, Failure>(id)
                &&& final(self).events.entries() == old(self).events.entries().push((id, rec))
                &&& final(self).events@ == old(self).events@.insert(id, rec)
                &&& final(self).next_id == id + 1
                &&& final(self).event_count == old(self).event_count + 1
                &&& final(self).admin == old(self).admin
                &&& final(self).recorders == old(self).recorders
            },
    {
        if !contains_address(&self.recorders, caller) {
            return Err(Failure::Abort(Abort::NotRecorder));
        }
        if self.next_id == u64::MAX {
            return Err(Failure::Abort(Abort::ArithmeticOverflow));
        }
        let id = self.next_id;
        let rec = EventRecord { event_id: id, event_type, timestamp: now, actor, contract_id: this, data_key };
        proof {
            assert(self.event_count < u64::MAX) by {
                lemma_count_below_next(self.events.entries(), self.next_id);
            }
        }
        self.events.push_last(id, rec);
        self.next_id = id + 1;
        self.event_count = self.event_count + 1;
        Ok(id)
    }

    /// Read an event.
    pub fn get_event(&self, event_id: u64) -> (r: Result<EventRecord, Failure>)
        requires
            self.wf(),
        ensures
            if self.events@.contains_key(event_id) {
                r == Ok::<EventRecord, Failure>(self.events@[event_id])
            } else {
                r == Err::<EventRecord, Failure>(abort(Abort::EventNotFound))
            },
    {
        match self.events.get(event_id) {
            Some(e) => Ok(*e),
            None => Err(Failure::Abort(Abort::EventNotFound)),
        }
    }

    fn select(&self, q: EventQuery) -> (v: Vec<EventRecord>)
        requires
            self.wf(),
        ensures
            v@ == self.selected(q),
    {
        let ghost vals = self.events.values();
        let mut out: Vec<EventRecord> = Vec::new();
        let n = self.events.len();
        let mut i: usize = 0;
        while i < n
            invariant
                n == self.events.entries().len(),
                vals == self.events.values(),
                vals.len() == n,
                i <= n,
                out@ == vals.take(i as int).filter(|e: EventRecord| q.matches(e)),
            decreases n - i,
        {
            let e = *self.events.value_at(i);
            proof {
                assert(vals[i as int] == e);
                assert(vals.take(i as int + 1).drop_last() =~= vals.take(i as int));
                reveal(Seq::filter);
            }
            if q.is_match(&e) {
                out.push(e);
            }
            i = i + 1;
        }
        proof {
            assert(vals.take(n as int) =~= vals);
        }
        out
    }

    /// Events of a type, in insertion order, paginated.
    pub fn get_events_by_type(&self, event_type: Symbol, offset: u32, limit: u32) -> (v: Vec<EventRecord>)
        requires
            self.wf(),
        ensures
            v@ == page(self.selected(EventQuery::Type(event_type)), offset as int, limit as int),
    {
        page_of(&self.select(EventQuery::Type(event_type)), offset, limit)
    }

    /// Number of events of a type.
    pub fn get_events_by_type_count(&self, event_type: Symbol) -> (n: u64)
        requires
            self.wf(),
        ensures
            n == self.selected(EventQuery::Type(event_type)).len(),
    {
        self.select(EventQuery::Type(event_type)).len() as u64
    }

    /// Events whose timestamp lies in `[start, end]`, in insertion order,
    /// paginated.
    pub fn get_events_by_time(&self, start: u64, end: u64, offset: u32, limit: u32) -> (r: Result<Vec<EventRecord>, Failure>)
        requires
            self.wf(),
        ensures
            if start <= end {
                r matches Ok(v) && v@ == page(self.selected(EventQuery::Window(start, end)), offset as int, limit as int)
            } else {
                r matches Err(f) && f == abort(Abort::InvalidTimeRange)
            },
    {
        if start > end {
            return Err(Failure::Abort(Abort::InvalidTimeRange));
        }
        Ok(page_of(&self.select(EventQuery::Window(start, end)), offset, limit))
    }

    /// Events of an actor, in insertion order, paginated.
    pub fn get_events_by_actor(&self, actor: Address, offset: u32, limit: u32) -> (v: Vec<EventRecord>)
        requires
            self.wf(),
        ensures
            v@ == page(self.selected(EventQuery::Actor(actor)), offset as int, limit as int),
    {
        page_of(&self.select(EventQuery::Actor(actor)), offset, limit)
    }

    /// Number of events of an actor.
    pub fn get_events_by_actor_count(&self, actor: Address) -> (n: u64)
        requires
            self.wf(),
        ensures
            n == self.selected(EventQuery::Actor(actor)).len(),
    {
        self.select(EventQuery::Actor(actor)).len() as u64
    }

    /// Number of events held.
    pub fn get_event_count(&self) -> (n: u64)
        ensures
            n == self.event_count,
    {
        self.event_count
    }

    /// Drop every event older than `before`. Admin only. Returns how many
    /// were dropped.
    pub fn prune_events(&mut self, caller: Address, before: u64) -> (r: Result<u64, Failure>)
        requires
            old(self).wf(),
        ensures
            final(self).wf(),
            if caller != old(self).admin {
                r == Err::<u64, Failure>(abort(Abort::NotAdmin)) && *final(self) == *old(self)
            } else {
                &&& final(self).events.entries() == kept_entries(old(self).events.entries(), before)
                &&& r == Ok::<u64, Failure>((old(self).events.entries().len() - final(self).events.entries().len()) as u64)
                &&& final(self).next_id == old(self).next_id
                &&& final(self).admin == old(self).admin
                &&& final(self).recorders == old(self).recorders
            },
    {
        self.check_admin(caller)?;
        let ghost s = self.events.entries();
        let n = self.events.len();
        let mut kept: OrderedMap<EventRecord> = OrderedMap::new();
        let mut pruned: u64 = 0;
        let mut i: usize = 0;
        while i < n
            invariant
                n == s.len(),
                s == self.events.entries(),
                self.wf(),
                i <= n,
                kept.wf(),
                kept.entries() == kept_entries(s.take(i as int), before),
                pruned + kept.entries().len() == i,
                forall|j: int| 0 <= j < kept.entries().len() ==> exists|m: int| 0 <= m < i && #[trigger] kept.entries()[j] == s[m],
            decreases n - i,
        {
            let k = self.events.key_at(i);
            let e = *self.events.value_at(i);
            proof {
                assert(s.take(i as int + 1).drop_last() =~= s.take(i as int));
            }
            if e.timestamp < before {
                pruned = pruned + 1;
            } else {
                proof {
                    assert forall|j: int| 0 <= j < kept.entries().len() implies kept.entries()[j].0 < k by {
                        let m = choose|m: int| 0 <= m < i && kept.entries()[j] == s[m];
                        assert(s[m].0 < s[i as int].0);
                    }
                }
                let ghost old_kept = kept.entries();
                kept.push_last(k, e);
                proof {
                    assert forall|j: int| 0 <= j < kept.entries().len() implies exists|m: int| 0 <= m < i + 1 && #[trigger] kept.entries()[j] == s[m] by {
                        if j < old_kept.len() {
                            assert(kept.entries()[j] == old_kept[j]);
                        } else {
                            assert(kept.entries()[j] == s[i as int]);
                        }
                    }
                }
            }
            i = i + 1;
        }
        proof {
            assert(s.take(n as int) =~= s);
            assert forall|j: int| 0 <= j < kept.entries().len() implies {
                &&& 1 <= #[trigger] kept.entries()[j].0 < self.next_id
                &&& kept.entries()[j].1.event_id == kept.entries()[j].0
            } by {
                let m = choose|m: int| 0 <= m < n && kept.entries()[j] == s[m];
            }
        }
        self.events = kept;
        self.event_count = self.event_count - pruned;
        Ok(pruned)
    }
}

/// The entries of `s` whose event is not older than `before`, in order.
pub open spec fn kept_entries(s: Seq<(u64, EventRecord)>, before: u64) -> Seq<(u64, EventRecord)>
    decreases s.len(),
{
    if s.len() == 0 {
        s
    } else if s.last().1.timestamp < before {
        kept_entries(s.drop_last(), before)
    } else {
        kept_entries(s.drop_last(), before).push(s.last())
    }
}

/// Strictly increasing ids from 1 below `next` number fewer than `next`.
proof fn lemma_count_below_next(s: Seq<(u64, EventRecord)>, next: u64)
    requires
        forall|a: int, b: int| 0 <= a < b < s.len() ==> #[trigger] s[a].0 < #[trigger] s[b].0,
        forall|i: int| 0 <= i < s.len() ==> 1 <= #[trigger] s[i].0 < next,
        next >= 1,
    ensures
        s.len() < next,
    decreases s.len(),
{
    if s.len() > 0 {
        let p = s.drop_last();
        assert forall|i: int| 0 <= i < p.len() implies 1 <= #[trigger] p[i].0 < s.last().0 by {
            assert(s[i].0 < s[s.len() - 1].0);
        }
        assert forall|a: int, b: int| 0 <= a < b < p.len() implies #[trigger] p[a].0 < #[trigger] p[b].0 by {
            assert(s[a].0 < s[b].0);
        }
        assert(1 <= s[s.len() - 1].0 < next);
        lemma_count_below_next(p, s.last().0);
    }
}

proof fn lemma_kept_entries_all_recent(s: Seq<(u64, EventRecord)>, before: u64)
    ensures
        forall|j: int| 0 <= j < kept_entries(s, before).len() ==> #[trigger] kept_entries(s, before)[j].1.timestamp >= before,
        kept_entries(s, before).len() <= s.len(),
    decreases s.len(),
{
    if s.len() > 0 {
        lemma_kept_entries_all_recent(s.drop_last(), before);
        let k = kept_entries(s.drop_last(), before);
        if s.last().1.timestamp >= before {
            assert forall|j: int| 0 <= j < k.push(s.last()).len() implies #[trigger] k.push(s.last())[j].1.timestamp >= before by {
                if j < k.len() {
                    assert(k.push(s.last())[j] == k[j]);
                }
            }
        }
    }
}

proof fn lemma_kept_entries_of_recent(s: Seq<(u64, EventRecord)>, before: u64)
    requires
        forall|j: int| 0 <= j < s.len() ==> #[trigger] s[j].1.timestamp >= before,
    ensures
        kept_entries(s, before) == s,
    decreases s.len(),
{
    if s.len() > 0 {
        let p = s.drop_last();
        assert forall|j: int| 0 <= j < p.len() implies #[trigger] p[j].1.timestamp >= before by {
            assert(s[j].1.timestamp >= before);
        }
        lemma_kept_entries_of_recent(p, before);
        assert(s[s.len() - 1].1.timestamp >= before);
        assert(p.push(s.last()) =~= s);
    }
}

/// Pruning keeps exactly the events not older than the threshold, and a
/// second prune at the same threshold drops nothing.
pub proof fn law_prune_is_idempotent(s: Seq<(u64, EventRecord)>, before: u64)
    ensures
        forall|j: int| 0 <= j < kept_entries(s, before).len() ==> #[trigger] kept_entries(s, before)[j].1.timestamp >= before,
        kept_entries(kept_entries(s, before), before) == kept_entries(s, before),
{
    lemma_kept_entries_all_recent(s, before);
    lemma_kept_entries_of_recent(kept_entries(s, before), before);
}

/// A recorded event gets an id above every id already held, so the index
/// is append-only in id order and ids are never reused.
pub proof fn law_ids_are_fresh_and_increasing(idx: EventIndexerContract)
    requires
        idx.wf(),
    ensures
        forall|i: int| 0 <= i < idx.events.entries().len() ==> #[trigger] idx.events.entries()[i].0 < idx.next_id,
        !idx.events@.contains_key(idx.next_id),
{
    lemma_entries_map_absent(idx.events.entries(), idx.next_id);
}

} // verus!
