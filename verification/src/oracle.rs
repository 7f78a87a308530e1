//! The verification oracle's reading of attestations: what each one says
//! at a given time, what a verification type and a whole invoice add up to
//! under an m-of-n threshold, which record yields when an invoice's list is
//! full, and which records a keeper marks expired.

use vstd::prelude::*;
use crate::address_list::contains_address;
use crate::types::{
    err, Address, Attestation, ContractError, Failure, VerificationStatus, VerificationType,
};

verus! {

/// An attestation's status as of `now`: a lapsed statement, affirmative or
/// not, reads as Expired whether or not anyone recorded the lapse.
pub open spec fn effective(a: Attestation, now: u64) -> VerificationStatus {
    if a.status != VerificationStatus::Expired && now > a.valid_until {
        VerificationStatus::Expired
    } else {
        a.status
    }
}

pub fn effective_status(a: &Attestation, now: u64) -> (s: VerificationStatus)
    ensures
        s == effective(*a, now),
{
    if a.status != VerificationStatus::Expired && now > a.valid_until {
        VerificationStatus::Expired
    } else {
        a.status
    }
}

/// The attestation speaks to type `t` and its verifier is still trusted.
pub open spec fn counts_for(a: Attestation, t: VerificationType, trusted: Seq<Address>) -> bool {
    a.v_type == t && trusted.contains(a.verifier)
}

/// Number of attestations in `s` that count for `t`.
pub open spec fn count_relevant(s: Seq<Attestation>, t: VerificationType, trusted: Seq<Address>) -> nat
    decreases s.len(),
{
    if s.len() == 0 {
        0
    } else {
        count_relevant(s.drop_last(), t, trusted) + if counts_for(s.last(), t, trusted) { 1nat } else { 0nat }
    }
}

/// Number of attestations in `s` that count for `t` and read `st` at `now`.
pub open spec fn count_reading(
    s: Seq<Attestation>,
    t: VerificationType,
    trusted: Seq<Address>,
    now: u64,
    st: VerificationStatus,
) -> nat
    decreases s.len(),
{
    if s.len() == 0 {
        0
    } else {
        count_reading(s.drop_last(), t, trusted, now, st)
            + if counts_for(s.last(), t, trusted) && effective(s.last(), now) == st { 1nat } else { 0nat }
    }
}

/// Status of type `t` over `s` at `now`: Pending until a trusted verifier
/// speaks; a live rejection outranks any number of approvals; `threshold`
/// live approvals verify; a type whose only statements have lapsed is
/// Expired; one with live approvals short of the threshold stays Pending.
pub open spec fn type_status_of(
    s: Seq<Attestation>,
    t: VerificationType,
    trusted: Seq<Address>,
    threshold: u32,
    now: u64,
) -> VerificationStatus {
    let approvals = count_reading(s, t, trusted, now, VerificationStatus::Verified);
    if count_relevant(s, t, trusted) == 0 {
        VerificationStatus::Pending
    } else if count_reading(s, t, trusted, now, VerificationStatus::Rejected) > 0 {
        VerificationStatus::Rejected
    } else if approvals >= threshold {
        VerificationStatus::Verified
    } else if count_reading(s, t, trusted, now, VerificationStatus::Expired) > 0 && approvals == 0 {
        VerificationStatus::Expired
    } else {
        VerificationStatus::Pending
    }
}

/// Status of one verification type.
pub fn type_status(
    list: &Vec<Attestation>,
    t: VerificationType,
    trusted: &Vec<Address>,
    threshold: u32,
    now: u64,
) -> (st: VerificationStatus)
    ensures
        st == type_status_of(list@, t, trusted@, threshold, now),
{
    let mut seen: u64 = 0;
    let mut approvals: u64 = 0;
    let mut rejected: u64 = 0;
    let mut expired: u64 = 0;
    let mut i: usize = 0;
    while i < list.len()
        invariant
            i <= list@.len(),
            seen == count_relevant(list@.take(i as int), t, trusted@),
            approvals == count_reading(list@.take(i as int), t, trusted@, now, VerificationStatus::Verified),
            rejected == count_reading(list@.take(i as int), t, trusted@, now, VerificationStatus::Rejected),
            expired == count_reading(list@.take(i as int), t, trusted@, now, VerificationStatus::Expired),
            seen <= i,
            approvals <= i,
            rejected <= i,
            expired <= i,
        decreases list@.len() - i,
    {
        let a = list[i];
        proof {
            assert(list@.take(i as int + 1).drop_last() =~= list@.take(i as int));
            assert(list@.take(i as int + 1).last() == a);
        }
        if a.v_type == t && contains_address(trusted, a.verifier) {
            seen = seen + 1;
            match effective_status(&a, now) {
                VerificationStatus::Verified => {
                    approvals = approvals + 1;
                },
                VerificationStatus::Rejected => {
                    rejected = rejected + 1;
                },
                VerificationStatus::Expired => {
                    expired = expired + 1;
                },
                VerificationStatus::Pending => {},
            }
        }
        i = i + 1;
    }
    proof {
        assert(list@.take(i as int) =~= list@);
    }
    if seen == 0 {
        return VerificationStatus::Pending;
    }
    if rejected > 0 {
        return VerificationStatus::Rejected;
    }
    if approvals >= threshold as u64 {
        return VerificationStatus::Verified;
    }
    if expired > 0 && approvals == 0 {
        return VerificationStatus::Expired;
    }
    VerificationStatus::Pending
}

/// Status of the invoice as a whole: Rejected if any type is, Verified only
/// if every type is, otherwise Expired if any type has lapsed.
pub open spec fn invoice_status_of(s: Seq<Attestation>, trusted: Seq<Address>, threshold: u32, now: u64) -> VerificationStatus {
    let d = type_status_of(s, VerificationType::DocumentHash, trusted, threshold, now);
    let b = type_status_of(s, VerificationType::BusinessRegistration, trusted, threshold, now);
    let x = type_status_of(s, VerificationType::TaxCompliance, trusted, threshold, now);
    if d == VerificationStatus::Rejected || b == VerificationStatus::Rejected || x == VerificationStatus::Rejected {
        VerificationStatus::Rejected
    } else if d == VerificationStatus::Verified && b == VerificationStatus::Verified && x == VerificationStatus::Verified {
        VerificationStatus::Verified
    } else if d == VerificationStatus::Expired || b == VerificationStatus::Expired || x == VerificationStatus::Expired {
        VerificationStatus::Expired
    } else {
        VerificationStatus::Pending
    }
}

pub fn invoice_status(list: &Vec<Attestation>, trusted: &Vec<Address>, threshold: u32, now: u64) -> (st: VerificationStatus)
    ensures
        st == invoice_status_of(list@, trusted@, threshold, now),
{
    let d = type_status(list, VerificationType::DocumentHash, trusted, threshold, now);
    let b = type_status(list, VerificationType::BusinessRegistration, trusted, threshold, now);
    let x = type_status(list, VerificationType::TaxCompliance, trusted, threshold, now);
    if d == VerificationStatus::Rejected || b == VerificationStatus::Rejected || x == VerificationStatus::Rejected {
        VerificationStatus::Rejected
    } else if d == VerificationStatus::Verified && b == VerificationStatus::Verified && x == VerificationStatus::Verified {
        VerificationStatus::Verified
    } else if d == VerificationStatus::Expired || b == VerificationStatus::Expired || x == VerificationStatus::Expired {
        VerificationStatus::Expired
    } else {
        VerificationStatus::Pending
    }
}

// ─── Replacement and eviction ────────────────────────────────────────────────

/// `s` without the records of `verifier` on type `t`, order kept.
pub open spec fn without_own(s: Seq<Attestation>, verifier: Address, t: VerificationType) -> Seq<Attestation>
    decreases s.len(),
{
    if s.len() == 0 {
        s
    } else if s.last().verifier == verifier && s.last().v_type == t {
        without_own(s.drop_last(), verifier, t)
    } else {
        without_own(s.drop_last(), verifier, t).push(s.last())
    }
}

pub fn remove_own(list: &Vec<Attestation>, verifier: Address, t: VerificationType) -> (r: Vec<Attestation>)
    ensures
        r@ == without_own(list@, verifier, t),
{
    let mut out: Vec<Attestation> = Vec::new();
    let mut i: usize = 0;
    while i < list.len()
        invariant
            i <= list@.len(),
            out@ == without_own(list@.take(i as int), verifier, t),
        decreases list@.len() - i,
    {
        let a = list[i];
        proof {
            assert(list@.take(i as int + 1).drop_last() =~= list@.take(i as int));
        }
        if !(a.verifier == verifier && a.v_type == t) {
            out.push(a);
        }
        i = i + 1;
    }
    proof {
        assert(list@.take(i as int) =~= list@);
    }
    out
}

/// Index of the first record at or after `i` whose verifier is no longer
/// trusted; `s.len()` if there is none.
pub open spec fn first_untrusted(s: Seq<Attestation>, trusted: Seq<Address>, i: int) -> int
    decreases s.len() - i,
{
    if i >= s.len() || i < 0 {
        s.len() as int
    } else if !trusted.contains(s[i].verifier) {
        i
    } else {
        first_untrusted(s, trusted, i + 1)
    }
}

/// Index of the first record at or after `i` that has lapsed at `now`;
/// `s.len()` if there is none.
pub open spec fn first_lapsed(s: Seq<Attestation>, now: u64, i: int) -> int
    decreases s.len() - i,
{
    if i >= s.len() || i < 0 {
        s.len() as int
    } else if effective(s[i], now) == VerificationStatus::Expired {
        i
    } else {
        first_lapsed(s, now, i + 1)
    }
}

/// The record that yields its slot in a full list: the oldest from a
/// verifier no longer trusted, else the oldest lapsed one; none if every
/// record is a live statement of a current verifier.
pub open spec fn eviction_victim(s: Seq<Attestation>, trusted: Seq<Address>, now: u64) -> Option<int> {
    if first_untrusted(s, trusted, 0) < s.len() {
        Some(first_untrusted(s, trusted, 0))
    } else if first_lapsed(s, now, 0) < s.len() {
        Some(first_lapsed(s, now, 0))
    } else {
        None
    }
}

/// Free one slot in a full list; refuses rather than drop a live statement
/// of an active verifier.
pub fn evict_one_slot(list: &Vec<Attestation>, trusted: &Vec<Address>, now: u64) -> (r: Result<Vec<Attestation>, Failure>)
    ensures
        match eviction_victim(list@, trusted@, now) {
            Some(v) => 0 <= v < list@.len() && r == Ok::<Vec<Attestation>, Failure>(r.unwrap()) && r.unwrap()@ == list@.remove(v),
            None => r == Err::<Vec<Attestation>, Failure>(err(ContractError::InvalidTransition)),
        },
{
    let n = list.len();
    let mut victim: usize = n;
    let mut i: usize = 0;
    while i < n
        invariant_except_break
            victim == n,
        invariant
            n == list@.len(),
            i <= n,
            first_untrusted(list@, trusted@, 0) == first_untrusted(list@, trusted@, i as int),
        ensures
            victim == n ==> first_untrusted(list@, trusted@, 0) == n,
            victim != n ==> victim == first_untrusted(list@, trusted@, 0) && victim < n,
        decreases n - i,
    {
        if !contains_address(trusted, list[i].verifier) {
            victim = i;
            break;
        }
        i = i + 1;
    }
    if victim == n {
        let mut j: usize = 0;
        while j < n
            invariant_except_break
                victim == n,
            invariant
                n == list@.len(),
                j <= n,
                first_untrusted(list@, trusted@, 0) == n,
                first_lapsed(list@, now, 0) == first_lapsed(list@, now, j as int),
            ensures
                victim == n ==> first_lapsed(list@, now, 0) == n,
                victim != n ==> victim == first_lapsed(list@, now, 0) && victim < n,
            decreases n - j,
        {
            if effective_status(&list[j], now) == VerificationStatus::Expired {
                victim = j;
                break;
            }
            j = j + 1;
        }
    }
    if victim == n {
        return Err(Failure::Contract(ContractError::InvalidTransition));
    }
    let mut kept: Vec<Attestation> = Vec::new();
    let mut k: usize = 0;
    while k < n
        invariant
            n == list@.len(),
            victim < n,
            k <= n,
            kept@ == (if k <= victim { list@.take(k as int) } else { list@.take(k as int).remove(victim as int) }),
        decreases n - k,
    {
        if k != victim {
            kept.push(list[k]);
        }
        proof {
            if k < victim {
                assert(kept@ =~= list@.take(k as int + 1));
            } else if k == victim {
                assert(list@.take(k as int + 1).remove(victim as int) =~= list@.take(k as int));
            } else {
                assert(kept@ =~= list@.take(k as int + 1).remove(victim as int));
            }
        }
        k = k + 1;
    }
    proof {
        assert(list@.take(n as int) =~= list@);
    }
    Ok(kept)
}

// ─── Recording lapses ────────────────────────────────────────────────────────

/// The record with its lapse at `now` written down.
pub open spec fn with_lapse_recorded(a: Attestation, now: u64) -> Attestation {
    if effective(a, now) == VerificationStatus::Expired && a.status != VerificationStatus::Expired {
        Attestation { status: VerificationStatus::Expired, ..a }
    } else {
        a
    }
}

/// Every record of `s` with its lapse at `now` written down.
pub open spec fn lapses_recorded(s: Seq<Attestation>, now: u64) -> Seq<Attestation> {
    s.map_values(|a: Attestation| with_lapse_recorded(a, now))
}

/// Number of records of `s` that have lapsed at `now` without the lapse
/// being written down.
pub open spec fn count_unrecorded_lapses(s: Seq<Attestation>, now: u64) -> nat
    decreases s.len(),
{
    if s.len() == 0 {
        0
    } else {
        count_unrecorded_lapses(s.drop_last(), now)
            + if effective(s.last(), now) == VerificationStatus::Expired && s.last().status != VerificationStatus::Expired {
            1nat
        } else {
            0nat
        }
    }
}

/// Write down every lapse at `now`; returns the new list and how many
/// records were newly marked.
pub fn record_lapses(list: &Vec<Attestation>, now: u64) -> (r: (Vec<Attestation>, u64))
    ensures
        r.0@ == lapses_recorded(list@, now),
        r.1 == count_unrecorded_lapses(list@, now),
{
    let mut out: Vec<Attestation> = Vec::new();
    let mut count: u64 = 0;
    let mut i: usize = 0;
    while i < list.len()
        invariant
            i <= list@.len(),
            out@ == lapses_recorded(list@.take(i as int), now),
            count == count_unrecorded_lapses(list@.take(i as int), now),
            count <= i,
        decreases list@.len() - i,
    {
        let a = list[i];
        proof {
            assert(list@.take(i as int + 1).drop_last() =~= list@.take(i as int));
        }
        if effective_status(&a, now) == VerificationStatus::Expired && a.status != VerificationStatus::Expired {
            count = count + 1;
            out.push(Attestation { status: VerificationStatus::Expired, ..a });
        } else {
            out.push(a);
        }
        proof {
            assert(out@ =~= lapses_recorded(list@.take(i as int + 1), now));
        }
        i = i + 1;
    }
    proof {
        assert(list@.take(i as int) =~= list@);
    }
    (out, count)
}

// ─── Laws ────────────────────────────────────────────────────────────────────

proof fn lemma_reading_unchanged_by_lapses(s: Seq<Attestation>, t: VerificationType, trusted: Seq<Address>, now: u64, st: VerificationStatus)
    ensures
        count_reading(lapses_recorded(s, now), t, trusted, now, st) == count_reading(s, t, trusted, now, st),
        count_relevant(lapses_recorded(s, now), t, trusted) == count_relevant(s, t, trusted),
    decreases s.len(),
{
    if s.len() > 0 {
        lemma_reading_unchanged_by_lapses(s.drop_last(), t, trusted, now, st);
        assert(lapses_recorded(s, now).drop_last() =~= lapses_recorded(s.drop_last(), now));
    }
}

/// Recording lapses changes no reading: the status of every verification
/// type at `now` is the same before and after `expire_verifications`.
pub proof fn law_recording_lapses_preserves_status(
    s: Seq<Attestation>,
    t: VerificationType,
    trusted: Seq<Address>,
    threshold: u32,
    now: u64,
)
    ensures
        type_status_of(lapses_recorded(s, now), t, trusted, threshold, now) == type_status_of(s, t, trusted, threshold, now),
        invoice_status_of(lapses_recorded(s, now), trusted, threshold, now) == invoice_status_of(s, trusted, threshold, now),
{
    lemma_reading_unchanged_by_lapses(s, t, trusted, now, VerificationStatus::Verified);
    lemma_reading_unchanged_by_lapses(s, t, trusted, now, VerificationStatus::Rejected);
    lemma_reading_unchanged_by_lapses(s, t, trusted, now, VerificationStatus::Expired);
    assert forall|u: VerificationType| #[trigger] type_status_of(lapses_recorded(s, now), u, trusted, threshold, now)
        == type_status_of(s, u, trusted, threshold, now) by {
        lemma_reading_unchanged_by_lapses(s, u, trusted, now, VerificationStatus::Verified);
        lemma_reading_unchanged_by_lapses(s, u, trusted, now, VerificationStatus::Rejected);
        lemma_reading_unchanged_by_lapses(s, u, trusted, now, VerificationStatus::Expired);
    }
}

/// Recording lapses twice at the same time finds nothing the second time.
pub proof fn law_recording_lapses_is_idempotent(s: Seq<Attestation>, now: u64)
    ensures
        count_unrecorded_lapses(lapses_recorded(s, now), now) == 0,
        lapses_recorded(lapses_recorded(s, now), now) == lapses_recorded(s, now),
    decreases s.len(),
{
    if s.len() > 0 {
        law_recording_lapses_is_idempotent(s.drop_last(), now);
        assert(lapses_recorded(s, now).drop_last() =~= lapses_recorded(s.drop_last(), now));
    }
    assert(lapses_recorded(lapses_recorded(s, now), now) =~= lapses_recorded(s, now));
}

proof fn lemma_reading_le_relevant(s: Seq<Attestation>, t: VerificationType, trusted: Seq<Address>, now: u64, st: VerificationStatus)
    ensures
        count_reading(s, t, trusted, now, st) <= count_relevant(s, t, trusted),
    decreases s.len(),
{
    if s.len() > 0 {
        lemma_reading_le_relevant(s.drop_last(), t, trusted, now, st);
    }
}

proof fn lemma_counts_concat(a: Seq<Attestation>, b: Seq<Attestation>, t: VerificationType, trusted: Seq<Address>, now: u64, st: VerificationStatus)
    ensures
        count_reading(a + b, t, trusted, now, st) == count_reading(a, t, trusted, now, st) + count_reading(b, t, trusted, now, st),
        count_relevant(a + b, t, trusted) == count_relevant(a, t, trusted) + count_relevant(b, t, trusted),
    decreases b.len(),
{
    if b.len() == 0 {
        assert(a + b =~= a);
    } else {
        lemma_counts_concat(a, b.drop_last(), t, trusted, now, st);
        assert((a + b).drop_last() =~= a + b.drop_last());
    }
}

proof fn lemma_counts_remove_untrusted(s: Seq<Attestation>, i: int, t: VerificationType, trusted: Seq<Address>, now: u64, st: VerificationStatus)
    requires
        0 <= i < s.len(),
        !trusted.contains(s[i].verifier),
    ensures
        count_reading(s.remove(i), t, trusted, now, st) == count_reading(s, t, trusted, now, st),
        count_relevant(s.remove(i), t, trusted) == count_relevant(s, t, trusted),
{
    let pre = s.take(i);
    let post = s.skip(i + 1);
    let one = seq![s[i]];
    assert(s.remove(i) =~= pre + post);
    assert(s =~= (pre + one) + post);
    lemma_counts_concat(pre, post, t, trusted, now, st);
    lemma_counts_concat(pre + one, post, t, trusted, now, st);
    lemma_counts_concat(pre, one, t, trusted, now, st);
    assert(one.drop_last() =~= Seq::<Attestation>::empty());
    assert(one.last() == s[i]);
    assert(!counts_for(s[i], t, trusted));
    assert(count_relevant(Seq::<Attestation>::empty(), t, trusted) == 0);
    assert(count_reading(Seq::<Attestation>::empty(), t, trusted, now, st) == 0);
    assert(count_relevant(one, t, trusted) == 0);
    assert(count_reading(one, t, trusted, now, st) == 0);
}

/// A record from a verifier no longer in the trusted set speaks to nothing:
/// dropping it, as eviction's first choice does, moves no status.
pub proof fn law_departed_records_do_not_count(
    s: Seq<Attestation>,
    i: int,
    t: VerificationType,
    trusted: Seq<Address>,
    threshold: u32,
    now: u64,
)
    requires
        0 <= i < s.len(),
        !trusted.contains(s[i].verifier),
    ensures
        type_status_of(s.remove(i), t, trusted, threshold, now) == type_status_of(s, t, trusted, threshold, now),
{
    lemma_counts_remove_untrusted(s, i, t, trusted, now, VerificationStatus::Verified);
    lemma_counts_remove_untrusted(s, i, t, trusted, now, VerificationStatus::Rejected);
    lemma_counts_remove_untrusted(s, i, t, trusted, now, VerificationStatus::Expired);
}

/// A live rejection from a trusted verifier outranks any number of
/// approvals: the type reads Rejected whatever the threshold.
pub proof fn law_rejection_outranks_approvals(
    s: Seq<Attestation>,
    i: int,
    t: VerificationType,
    trusted: Seq<Address>,
    threshold: u32,
    now: u64,
)
    requires
        0 <= i < s.len(),
        counts_for(s[i], t, trusted),
        effective(s[i], now) == VerificationStatus::Rejected,
    ensures
        type_status_of(s, t, trusted, threshold, now) == VerificationStatus::Rejected,
{
    let one = seq![s[i]];
    assert(s =~= (s.take(i) + one) + s.skip(i + 1));
    lemma_counts_concat(s.take(i) + one, s.skip(i + 1), t, trusted, now, VerificationStatus::Rejected);
    lemma_counts_concat(s.take(i), one, t, trusted, now, VerificationStatus::Rejected);
    assert(one.drop_last() =~= Seq::<Attestation>::empty());
    lemma_reading_le_relevant(s, t, trusted, now, VerificationStatus::Rejected);
}

} // verus!
