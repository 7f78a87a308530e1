//! The invoice state machine: which status changes are legal, and the
//! bounded per-invoice log of the changes that happened.

use vstd::prelude::*;
use crate::ordered_map::OrderedMap;
use crate::types::{
    err, Address, ContractError, Failure, InvoiceStatus, TransitionRecord, MAX_TRANSITION_HISTORY,
};

verus! {

/// The transition table. Every invoice status change goes through it.
pub open spec fn transition_allowed(from: InvoiceStatus, to: InvoiceStatus) -> bool {
    match (from, to) {
        (InvoiceStatus::Pending, InvoiceStatus::Cancelled) => true,
        (InvoiceStatus::Pending, InvoiceStatus::Financed) => true,
        (InvoiceStatus::Financed, InvoiceStatus::Repaid) => true,
        (InvoiceStatus::Financed, InvoiceStatus::Financed) => true,
        (InvoiceStatus::Financed, InvoiceStatus::Overdue) => true,
        (InvoiceStatus::Financed, InvoiceStatus::Disputed) => true,
        (InvoiceStatus::Overdue, InvoiceStatus::Defaulted) => true,
        (InvoiceStatus::Disputed, InvoiceStatus::Pending) => true,
        (InvoiceStatus::Disputed, InvoiceStatus::Financed) => true,
        (InvoiceStatus::Disputed, InvoiceStatus::Repaid) => true,
        (InvoiceStatus::Disputed, InvoiceStatus::Cancelled) => true,
        (InvoiceStatus::Disputed, InvoiceStatus::Defaulted) => true,
        _ => false,
    }
}

/// Repaid, Cancelled and Defaulted are final.
pub open spec fn is_terminal(s: InvoiceStatus) -> bool {
    s == InvoiceStatus::Repaid || s == InvoiceStatus::Cancelled || s == InvoiceStatus::Defaulted
}

/// Check a status change against the transition table.
pub fn validate_transition(from: InvoiceStatus, to: InvoiceStatus) -> (r: Result<(), Failure>)
    ensures
        r is Ok <==> transition_allowed(from, to),
        r is Err ==> r == Err::<(), Failure>(err(ContractError::InvalidTransition)),
{
    let valid = match (from, to) {
        (InvoiceStatus::Pending, InvoiceStatus::Cancelled) => true,
        (InvoiceStatus::Pending, InvoiceStatus::Financed) => true,
        (InvoiceStatus::Financed, InvoiceStatus::Repaid) => true,
        (InvoiceStatus::Financed, InvoiceStatus::Financed) => true,
        (InvoiceStatus::Financed, InvoiceStatus::Overdue) => true,
        (InvoiceStatus::Financed, InvoiceStatus::Disputed) => true,
        (InvoiceStatus::Overdue, InvoiceStatus::Defaulted) => true,
        (InvoiceStatus::Disputed, InvoiceStatus::Pending) => true,
        (InvoiceStatus::Disputed, InvoiceStatus::Financed) => true,
        (InvoiceStatus::Disputed, InvoiceStatus::Repaid) => true,
        (InvoiceStatus::Disputed, InvoiceStatus::Cancelled) => true,
        (InvoiceStatus::Disputed, InvoiceStatus::Defaulted) => true,
        _ => false,
    };
    if !valid {
        return Err(Failure::Contract(ContractError::InvalidTransition));
    }
    Ok(())
}

/// `log` with `rec` appended, keeping only the newest
/// `MAX_TRANSITION_HISTORY` records.
pub open spec fn appended_bounded(log: Seq<TransitionRecord>, rec: TransitionRecord) -> Seq<TransitionRecord> {
    let grown = log.push(rec);
    if grown.len() > MAX_TRANSITION_HISTORY {
        grown.drop_first()
    } else {
        grown
    }
}

/// Per-invoice transition history, oldest first, at most
/// `MAX_TRANSITION_HISTORY` records each.
pub struct TransitionLog {
    pub logs: OrderedMap<Vec<TransitionRecord>>,
}

impl TransitionLog {
    pub open spec fn wf(&self) -> bool {
        &&& self.logs.wf()
        &&& forall|k: u64| #[trigger] self.logs@.contains_key(k) ==> self.logs@[k]@.len() <= MAX_TRANSITION_HISTORY
    }

    /// The history of invoice `k`; empty if it never changed status.
    pub open spec fn history(&self, k: u64) -> Seq<TransitionRecord> {
        if self.logs@.contains_key(k) {
            self.logs@[k]@
        } else {
            Seq::empty()
        }
    }

    pub fn new() -> (l: TransitionLog)
        ensures
            l.wf(),
            forall|k: u64| l.history(k) == Seq::<TransitionRecord>::empty(),
    {
        TransitionLog { logs: OrderedMap::new() }
    }

    /// Append a record to invoice `k`'s history, evicting the oldest record
    /// once the history would exceed its bound.
    pub fn record_transition(&mut self, k: u64, rec: TransitionRecord)
        requires
            old(self).wf(),
        ensures
            final(self).wf(),
            final(self).history(k) == appended_bounded(old(self).history(k), rec),
            forall|j: u64| j != k ==> #[trigger] final(self).history(j) == old(self).history(j),
    {
        let mut history = self.get_transition_history(k);
        history.push(rec);
        if history.len() > MAX_TRANSITION_HISTORY as usize {
            history.remove(0);
        }
        proof {
            assert(history@ =~= appended_bounded(old(self).history(k), rec));
        }
        self.logs.set(k, history);
        proof {
            assert forall|j: u64| j != k implies #[trigger] self.history(j) == old(self).history(j) by {
                if old(self).logs@.contains_key(j) {
                    assert(self.logs@.contains_key(j));
                }
            }
        }
    }

    /// The history of invoice `k`, oldest first.
    pub fn get_transition_history(&self, k: u64) -> (h: Vec<TransitionRecord>)
        requires
            self.wf(),
        ensures
            h@ == self.history(k),
    {
        match self.logs.get(k) {
            Some(v) => {
                let mut out: Vec<TransitionRecord> = Vec::new();
                let mut i: usize = 0;
                while i < v.len()
                    invariant
                        i <= v@.len(),
                        out@ == v@.take(i as int),
                    decreases v@.len() - i,
                {
                    out.push(v[i]);
                    proof {
                        assert(out@ =~= v@.take(i as int + 1));
                    }
                    i = i + 1;
                }
                proof {
                    assert(out@ =~= v@);
                }
                out
            },
            None => Vec::new(),
        }
    }

    /// Validate a status change of invoice `k` and, if it is legal, log it.
    pub fn assert_transition(&mut self, k: u64, from: InvoiceStatus, to: InvoiceStatus, actor: Address, now: u64) -> (r: Result<(), Failure>)
        requires
            old(self).wf(),
        ensures
            final(self).wf(),
            r is Ok <==> transition_allowed(from, to),
            r is Err ==> r == Err::<(), Failure>(err(ContractError::InvalidTransition)) && *final(self) == *old(self),
            r is Ok ==> final(self).history(k) == appended_bounded(
                old(self).history(k),
                TransitionRecord { from_status: from, to_status: to, actor, timestamp: now },
            ),
            r is Ok ==> forall|j: u64| j != k ==> #[trigger] final(self).history(j) == old(self).history(j),
    {
        validate_transition(from, to)?;
        self.record_transition(k, TransitionRecord { from_status: from, to_status: to, actor, timestamp: now });
        Ok(())
    }
}

/// No status leaves a terminal one: Repaid, Cancelled and Defaulted admit no
/// transition at all, not even to themselves.
pub proof fn law_terminal_states_are_final(from: InvoiceStatus, to: InvoiceStatus)
    requires
        is_terminal(from),
    ensures
        !transition_allowed(from, to),
{
}

/// No status moves to itself except Financed, whose self-transition
/// records a partial repayment.
pub proof fn law_only_financed_repeats(s: InvoiceStatus)
    ensures
        transition_allowed(s, s) <==> s == InvoiceStatus::Financed,
{
}

/// Every status other than Disputed is reached only from the statuses the
/// table lists; in particular nothing reaches Pending except a dispute
/// resolution, and Defaulted only from Overdue or Disputed.
pub proof fn law_entry_points(from: InvoiceStatus, to: InvoiceStatus)
    requires
        transition_allowed(from, to),
    ensures
        to == InvoiceStatus::Pending ==> from == InvoiceStatus::Disputed,
        to == InvoiceStatus::Defaulted ==> from == InvoiceStatus::Overdue || from == InvoiceStatus::Disputed,
        to == InvoiceStatus::Overdue ==> from == InvoiceStatus::Financed,
        to == InvoiceStatus::Disputed ==> from == InvoiceStatus::Financed,
        to == InvoiceStatus::Repaid ==> from == InvoiceStatus::Financed || from == InvoiceStatus::Disputed,
{
}

/// The log keeps the newest records: after any sequence of appends the
/// history never exceeds its bound, and the record just appended is last.
pub proof fn law_log_keeps_newest(log: Seq<TransitionRecord>, rec: TransitionRecord)
    requires
        log.len() <= MAX_TRANSITION_HISTORY,
    ensures
        appended_bounded(log, rec).len() <= MAX_TRANSITION_HISTORY,
        appended_bounded(log, rec).len() >= 1,
        appended_bounded(log, rec).last() == rec,
        log.len() < MAX_TRANSITION_HISTORY ==> appended_bounded(log, rec) == log.push(rec),
        log.len() == MAX_TRANSITION_HISTORY ==> appended_bounded(log, rec) == log.subrange(1, log.len() as int).push(rec),
{
    if log.len() == MAX_TRANSITION_HISTORY {
        assert(log.push(rec).drop_first() =~= log.subrange(1, log.len() as int).push(rec));
    }
}

} // verus!
