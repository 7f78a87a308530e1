//! Reservation ledgers: what each offer has reserved of a pool and what has
//! been paid against it, and the total still open on all of them.

use vstd::prelude::*;
use crate::insurance::get_or_zero;
use crate::ordered_map::{entries_map, lemma_entries_map_at, sorted_keys};

verus! {

/// What is still open on the reservations `s` (offer -> reserved), given
/// what has been paid against each offer.
pub open spec fn open_total(s: Seq<(u64, i128)>, paid: Map<u64, i128>) -> int
    decreases s.len(),
{
    if s.len() == 0 {
        0
    } else {
        open_total(s.drop_last(), paid) + s.last().1 - get_or_zero(paid, s.last().0)
    }
}

/// No offer has been paid below zero or beyond what it reserved.
pub open spec fn within_reservations(reserved: Map<u64, i128>, paid: Map<u64, i128>) -> bool {
    forall|k: u64|
        #![trigger get_or_zero(paid, k)]
        #![trigger get_or_zero(reserved, k)]
        0 <= get_or_zero(paid, k) <= get_or_zero(reserved, k)
}

/// The reservation ledger is consistent: within its reservations, and the
/// recorded open total is what is open on them.
pub open spec fn ledger_consistent(reserved: Seq<(u64, i128)>, paid: Map<u64, i128>, open: int) -> bool {
    &&& within_reservations(entries_map(reserved), paid)
    &&& open == open_total(reserved, paid)
}

proof fn lemma_open_push(s: Seq<(u64, i128)>, e: (u64, i128), paid: Map<u64, i128>)
    ensures
        open_total(s.push(e), paid) == open_total(s, paid) + e.1 - get_or_zero(paid, e.0),
{
    assert(s.push(e).drop_last() =~= s);
}

proof fn lemma_open_insert(s: Seq<(u64, i128)>, i: int, e: (u64, i128), paid: Map<u64, i128>)
    requires
        0 <= i <= s.len(),
    ensures
        open_total(s.insert(i, e), paid) == open_total(s, paid) + e.1 - get_or_zero(paid, e.0),
    decreases s.len(),
{
    let t = s.insert(i, e);
    if i == s.len() {
        assert(t.drop_last() =~= s);
    } else {
        assert(t.drop_last() =~= s.drop_last().insert(i, e));
        assert(t.last() == s.last());
        lemma_open_insert(s.drop_last(), i, e, paid);
    }
}

proof fn lemma_open_remove(s: Seq<(u64, i128)>, i: int, paid: Map<u64, i128>)
    requires
        0 <= i < s.len(),
    ensures
        open_total(s.remove(i), paid) == open_total(s, paid) - (s[i].1 - get_or_zero(paid, s[i].0)),
{
    assert(s.remove(i).insert(i, s[i]) =~= s);
    lemma_open_insert(s.remove(i), i, s[i], paid);
}

/// Setting the reservation of `k` to `v`, in place or as a new entry,
/// moves the open total by the change of that reservation.
pub proof fn lemma_open_set(s0: Seq<(u64, i128)>, s1: Seq<(u64, i128)>, k: u64, v: i128, paid: Map<u64, i128>)
    requires
        sorted_keys(s0),
        entries_map(s0).contains_key(k) ==> exists|i: int|
            0 <= i < s0.len() && s0[i].0 == k && s1 == s0.update(i, (k, v)),
        !entries_map(s0).contains_key(k) ==> exists|i: int| 0 <= i <= s0.len() && s1 == s0.insert(i, (k, v)),
    ensures
        entries_map(s0).contains_key(k) ==> open_total(s1, paid) == open_total(s0, paid) - entries_map(s0)[k] + v,
        !entries_map(s0).contains_key(k) ==> open_total(s1, paid) == open_total(s0, paid) + v - get_or_zero(paid, k),
{
    if entries_map(s0).contains_key(k) {
        let i = choose|i: int| 0 <= i < s0.len() && s0[i].0 == k && s1 == s0.update(i, (k, v));
        lemma_entries_map_at(s0, i);
        assert(s0.update(i, (k, v)) =~= s0.remove(i).insert(i, (k, v)));
        lemma_open_remove(s0, i, paid);
        lemma_open_insert(s0.remove(i), i, (k, v), paid);
    } else {
        let i = choose|i: int| 0 <= i <= s0.len() && s1 == s0.insert(i, (k, v));
        lemma_open_insert(s0, i, (k, v), paid);
    }
}

/// Paying `x` in all against an offer `k` moves the open total by the
/// change of its paid amount, when `k` holds a reservation.
pub proof fn lemma_open_paid(s: Seq<(u64, i128)>, paid: Map<u64, i128>, k: u64, x: i128)
    requires
        sorted_keys(s),
    ensures
        entries_map(s).contains_key(k) ==> open_total(s, paid.insert(k, x)) == open_total(s, paid) + get_or_zero(paid, k) - x,
        !entries_map(s).contains_key(k) ==> open_total(s, paid.insert(k, x)) == open_total(s, paid),
    decreases s.len(),
{
    if s.len() > 0 {
        let p = s.drop_last();
        assert(sorted_keys(p));
        lemma_open_paid(p, paid, k, x);
        let n = s.len() - 1;
        if s.last().0 == k {
            assert(!entries_map(p).contains_key(k)) by {
                if entries_map(p).contains_key(k) {
                    let j = choose|j: int| 0 <= j < p.len() && p[j].0 == k;
                    assert(s[j].0 < s[n].0);
                }
            }
            assert(entries_map(s).contains_key(k)) by {
                assert(s[n].0 == k);
            }
        } else {
            assert(entries_map(s).contains_key(k) == entries_map(p).contains_key(k)) by {
                if entries_map(s).contains_key(k) {
                    let j = choose|j: int| 0 <= j < s.len() && s[j].0 == k;
                    assert(j < n);
                    assert(p[j].0 == k);
                }
                if entries_map(p).contains_key(k) {
                    let j = choose|j: int| 0 <= j < p.len() && p[j].0 == k;
                    assert(s[j].0 == k);
                }
            }
        }
    }
}

/// With every offer within its reservation, the open total is at least
/// what is open on any one offer.
pub proof fn lemma_open_covers(s: Seq<(u64, i128)>, paid: Map<u64, i128>, i: int)
    requires
        forall|j: int| 0 <= j < s.len() ==> #[trigger] s[j].1 - get_or_zero(paid, s[j].0) >= 0,
        0 <= i < s.len(),
    ensures
        open_total(s, paid) >= s[i].1 - get_or_zero(paid, s[i].0),
    decreases s.len(),
{
    let p = s.drop_last();
    assert forall|j: int| 0 <= j < p.len() implies #[trigger] p[j].1 - get_or_zero(paid, p[j].0) >= 0 by {
        assert(p[j] == s[j]);
    }
    if i < s.len() - 1 {
        lemma_open_covers(p, paid, i);
        assert(p[i] == s[i]);
    } else {
        lemma_open_nonneg(p, paid);
    }
}

pub proof fn lemma_open_nonneg(s: Seq<(u64, i128)>, paid: Map<u64, i128>)
    requires
        forall|j: int| 0 <= j < s.len() ==> #[trigger] s[j].1 - get_or_zero(paid, s[j].0) >= 0,
    ensures
        open_total(s, paid) >= 0,
    decreases s.len(),
{
    if s.len() > 0 {
        let p = s.drop_last();
        assert forall|j: int| 0 <= j < p.len() implies #[trigger] p[j].1 - get_or_zero(paid, p[j].0) >= 0 by {
            assert(p[j] == s[j]);
        }
        lemma_open_nonneg(p, paid);
        assert(s[s.len() - 1] == s.last());
    }
}

/// Within its reservations, a consistent ledger has at least the open
/// amount of offer `k` outstanding in all.
pub proof fn lemma_open_at_least(reserved: Seq<(u64, i128)>, paid: Map<u64, i128>, k: u64)
    requires
        sorted_keys(reserved),
        within_reservations(entries_map(reserved), paid),
    ensures
        open_total(reserved, paid) >= get_or_zero(entries_map(reserved), k) - get_or_zero(paid, k),
        open_total(reserved, paid) >= 0,
{
    let m = entries_map(reserved);
    assert forall|j: int| 0 <= j < reserved.len() implies #[trigger] reserved[j].1 - get_or_zero(paid, reserved[j].0) >= 0 by {
        lemma_entries_map_at(reserved, j);
        assert(get_or_zero(m, reserved[j].0) == reserved[j].1);
        assert(get_or_zero(paid, reserved[j].0) <= get_or_zero(m, reserved[j].0));
    }
    lemma_open_nonneg(reserved, paid);
    if m.contains_key(k) {
        let i = choose|i: int| 0 <= i < reserved.len() && reserved[i].0 == k;
        lemma_entries_map_at(reserved, i);
        lemma_open_covers(reserved, paid, i);
    } else {
        assert(get_or_zero(paid, k) <= get_or_zero(m, k));
    }
}

} // verus!
