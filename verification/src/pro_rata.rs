//! Pro-rata loss sharing: when a payout leaves a pool, every staker's
//! balance is reduced in proportion to its share. Each staker but the last
//! (in key order) gives up its truncated proportional share and the last is
//! left the rest of the payout, so that the shares add up to the payout
//! exactly. A share larger than the balance it falls on is capped at that
//! balance, and what it could not take passes to the stakers before it,
//! from the back, each taking up to its own balance: no balance goes below
//! zero, and while the stakes cover the payout the reductions add up to it.

use vstd::prelude::*;
use crate::arith::{
    checked_add, checked_mul, checked_sub, checked_tdiv, fits_i128, lemma_sum_ints_push,
    lemma_sum_push, min_i128, min_int, sum_entries, sum_ints, tdiv,
};
use crate::ordered_map::{entries_map, lemma_entries_map_at, sorted_keys, OrderedMap};

verus! {

/// The proportional share of the staker at position `i` of `n`, holding
/// `b`, when the stakers before it gave up `done` of `payout` and the pool
/// held `denom`; the last is left the rest. `None` where the contract's
/// arithmetic overflows or divides by zero.
pub open spec fn cut_at(b: int, i: int, n: int, payout: int, denom: int, done: int) -> Option<int> {
    if i == n - 1 {
        if fits_i128(payout - done) {
            Some(payout - done)
        } else {
            None
        }
    } else {
        let prod = b * payout;
        if !fits_i128(prod) || denom == 0 || !fits_i128(tdiv(prod, denom)) || !fits_i128(
            payout - done,
        ) {
            None
        } else {
            Some(min_int(tdiv(prod, denom), payout - done))
        }
    }
}

/// The proportional shares of the first `k` stakers of `s`, in key order.
pub open spec fn cuts_upto(s: Seq<(u64, i128)>, payout: int, denom: int, k: nat) -> Option<
    Seq<int>,
>
    decreases k,
{
    if k == 0 {
        Some(seq![])
    } else {
        match cuts_upto(s, payout, denom, (k - 1) as nat) {
            None => None,
            Some(prev) => {
                let i = k - 1;
                let done = sum_ints(prev);
                match cut_at(s[i].1 as int, i, s.len() as int, payout, denom, done) {
                    None => None,
                    Some(c) => if fits_i128(done + c) {
                        Some(prev.push(c))
                    } else {
                        None
                    },
                }
            },
        }
    }
}

/// What of the shares of the stakers from position `i` on is still to be
/// placed once each of them, from the last back to `i`, has taken as much
/// as its balance allows. `None` where that arithmetic overflows.
pub open spec fn spill(s: Seq<(u64, i128)>, shares: Seq<int>, i: int) -> Option<int>
    decreases s.len() - i,
{
    if i >= s.len() {
        Some(0)
    } else {
        match spill(s, shares, i + 1) {
            None => None,
            Some(sp) => {
                let want = shares[i] + sp;
                if !fits_i128(want) {
                    None
                } else if want > s[i].1 {
                    if fits_i128(want - s[i].1) {
                        Some(want - s[i].1)
                    } else {
                        None
                    }
                } else {
                    Some(0)
                }
            },
        }
    }
}

/// The reduction of the staker at position `i`: its share plus what the
/// stakers after it could not take, capped at its balance.
pub open spec fn capped_cut(s: Seq<(u64, i128)>, shares: Seq<int>, i: int) -> int {
    shares[i] + spill(s, shares, i + 1).unwrap() - spill(s, shares, i).unwrap()
}

/// The reductions of all stakers of `s`, in key order; `None` where the
/// contract's arithmetic overflows or divides by zero.
pub open spec fn pro_rata_cuts(s: Seq<(u64, i128)>, payout: int, denom: int) -> Option<Seq<int>> {
    match cuts_upto(s, payout, denom, s.len()) {
        None => None,
        Some(sh) => if spill(s, sh, 0) is Some && (forall|i: int|
            0 <= i < s.len() ==> fits_i128(s[i].1 - #[trigger] capped_cut(s, sh, i))) {
            Some(Seq::new(s.len(), |i: int| capped_cut(s, sh, i)))
        } else {
            None
        },
    }
}

/// Every reduction lies between zero and the balance it falls on.
pub open spec fn cuts_within(s: Seq<(u64, i128)>, cuts: Seq<int>) -> bool {
    &&& cuts.len() == s.len()
    &&& forall|i: int| 0 <= i < s.len() ==> 0 <= #[trigger] cuts[i] <= s[i].1
}

/// No balance is negative.
pub open spec fn nonneg_balances(s: Seq<(u64, i128)>) -> bool {
    forall|i: int| 0 <= i < s.len() ==> 0 <= #[trigger] s[i].1
}

/// The entries left after applying `cuts` to the first `k` entries: each
/// balance drops by its cut, and an entry whose balance reaches zero leaves.
pub open spec fn apply_cuts(s: Seq<(u64, i128)>, cuts: Seq<int>, k: nat) -> Seq<(u64, i128)>
    decreases k,
{
    if k == 0 {
        seq![]
    } else {
        let prev = apply_cuts(s, cuts, (k - 1) as nat);
        let i = k - 1;
        let nb = s[i].1 - cuts[i];
        if nb == 0 {
            prev
        } else {
            prev.push((s[i].0, nb as i128))
        }
    }
}

pub proof fn lemma_cuts_len(s: Seq<(u64, i128)>, payout: int, denom: int, k: nat)
    requires
        cuts_upto(s, payout, denom, k) is Some,
    ensures
        cuts_upto(s, payout, denom, k).unwrap().len() == k,
    decreases k,
{
    if k > 0 {
        lemma_cuts_len(s, payout, denom, (k - 1) as nat);
    }
}

/// The shares of a non-empty pool add up to the payout exactly.
pub proof fn lemma_cuts_sum(s: Seq<(u64, i128)>, payout: int, denom: int)
    requires
        s.len() > 0,
        cuts_upto(s, payout, denom, s.len()) is Some,
    ensures
        sum_ints(cuts_upto(s, payout, denom, s.len()).unwrap()) == payout,
{
    let k = s.len();
    let prev = cuts_upto(s, payout, denom, (k - 1) as nat).unwrap();
    lemma_sum_ints_push(prev, payout - sum_ints(prev));
}

/// Applying cuts lowers the sum of balances by the sum of the cuts.
pub proof fn lemma_apply_cuts_sum(s: Seq<(u64, i128)>, cuts: Seq<int>, k: nat)
    requires
        k <= s.len(),
        k <= cuts.len(),
        forall|i: int| 0 <= i < k ==> fits_i128(s[i].1 - cuts[i]),
    ensures
        sum_entries(apply_cuts(s, cuts, k)) == sum_entries(s.take(k as int)) - sum_ints(
            cuts.take(k as int),
        ),
    decreases k,
{
    if k == 0 {
        assert(s.take(0).len() == 0);
        assert(cuts.take(0).len() == 0);
    } else {
        let i = k - 1;
        lemma_apply_cuts_sum(s, cuts, (k - 1) as nat);
        assert(s.take(k as int).drop_last() =~= s.take(i));
        assert(cuts.take(k as int).drop_last() =~= cuts.take(i));
        let prev = apply_cuts(s, cuts, (k - 1) as nat);
        let nb = s[i].1 - cuts[i];
        if nb != 0 {
            lemma_sum_push(prev, (s[i].0, nb as i128));
        }
    }
}

/// Reduce every balance of `stakes` pro rata for a payout of `payout` out
/// of a pool that held `denom`. `None` where the contract would abort on
/// arithmetic.
pub fn reduce_pro_rata(stakes: &OrderedMap<i128>, payout: i128, denom: i128) -> (r: Option<
    OrderedMap<i128>,
>)
    requires
        stakes.wf(),
    ensures
        match r {
            Some(m) => {
                &&& pro_rata_cuts(stakes.entries(), payout as int, denom as int) is Some
                &&& m.wf()
                &&& m.entries() == apply_cuts(
                    stakes.entries(),
                    pro_rata_cuts(stakes.entries(), payout as int, denom as int).unwrap(),
                    stakes.entries().len(),
                )
            },
            None => pro_rata_cuts(stakes.entries(), payout as int, denom as int) is None,
        },
{
    let ghost s = stakes.entries();
    let n = stakes.len();
    // The proportional shares, in key order.
    let mut shares: Vec<i128> = Vec::new();
    let mut done: i128 = 0;
    let ghost mut sh: Seq<int> = seq![];
    let mut i: usize = 0;
    while i < n
        invariant
            s == stakes.entries(),
            n == s.len(),
            i <= n,
            cuts_upto(s, payout as int, denom as int, i as nat) == Some(sh),
            done as int == sum_ints(sh),
            sh.len() == i,
            shares@.len() == i,
            forall|j: int| 0 <= j < i ==> shares@[j] as int == sh[j],
        decreases n - i,
    {
        let balance = *stakes.value_at(i);
        let share: i128;
        if i == n - 1 {
            match checked_sub(payout, done) {
                Some(c) => {
                    share = c;
                },
                None => {
                    proof {
                        lemma_cuts_stop(s, payout as int, denom as int, i as nat);
                    }
                    return None;
                },
            }
        } else {
            let prod = match checked_mul(balance, payout) {
                Some(p) => p,
                None => {
                    proof {
                        lemma_cuts_stop(s, payout as int, denom as int, i as nat);
                    }
                    return None;
                },
            };
            let q = match checked_tdiv(prod, denom) {
                Some(q) => q,
                None => {
                    proof {
                        lemma_cuts_stop(s, payout as int, denom as int, i as nat);
                    }
                    return None;
                },
            };
            let rem = match checked_sub(payout, done) {
                Some(x) => x,
                None => {
                    proof {
                        lemma_cuts_stop(s, payout as int, denom as int, i as nat);
                    }
                    return None;
                },
            };
            share = min_i128(q, rem);
        }
        let new_done = match checked_add(done, share) {
            Some(d) => d,
            None => {
                proof {
                    lemma_cuts_stop(s, payout as int, denom as int, i as nat);
                }
                return None;
            },
        };
        proof {
            lemma_sum_ints_push(sh, share as int);
            sh = sh.push(share as int);
        }
        shares.push(share);
        done = new_done;
        i = i + 1;
    }
    // What a share cannot take passes back, from the last staker on.
    let mut cuts: Vec<i128> = Vec::new();
    let mut z: usize = 0;
    while z < n
        invariant
            z <= n,
            cuts@.len() == z,
        decreases n - z,
    {
        cuts.push(0);
        z = z + 1;
    }
    let mut carry: i128 = 0;
    let mut j: usize = n;
    while j > 0
        invariant
            s == stakes.entries(),
            n == s.len(),
            j <= n,
            sh.len() == n,
            shares@.len() == n,
            forall|t: int| 0 <= t < n ==> shares@[t] as int == sh[t],
            cuts@.len() == n,
            cuts_upto(s, payout as int, denom as int, n as nat) == Some(sh),
            spill(s, sh, j as int) == Some(carry as int),
            forall|t: int| j <= t < n ==> cuts@[t] as int == #[trigger] capped_cut(s, sh, t),
        decreases j,
    {
        j = j - 1;
        let balance = *stakes.value_at(j);
        let want = match checked_add(shares[j], carry) {
            Some(w) => w,
            None => {
                proof {
                    lemma_spill_none_mono(s, sh, j as int, 0);
                }
                return None;
            },
        };
        let cut: i128;
        if want > balance {
            let over = match checked_sub(want, balance) {
                Some(o) => o,
                None => {
                    proof {
                        lemma_spill_none_mono(s, sh, j as int, 0);
                    }
                    return None;
                },
            };
            cut = balance;
            carry = over;
        } else {
            cut = want;
            carry = 0;
        }
        cuts.set(j, cut);
    }
    let ghost cs = Seq::new(n as nat, |t: int| capped_cut(s, sh, t));
    // Apply the reductions in key order.
    let mut out: OrderedMap<i128> = OrderedMap::new();
    let mut k: usize = 0;
    while k < n
        invariant
            s == stakes.entries(),
            stakes.wf(),
            n == s.len(),
            k <= n,
            cuts@.len() == n,
            cs.len() == n,
            forall|t: int| 0 <= t < n ==> cuts@[t] as int == #[trigger] cs[t],
            forall|t: int| 0 <= t < n ==> cs[t] == #[trigger] capped_cut(s, sh, t),
            cuts_upto(s, payout as int, denom as int, n as nat) == Some(sh),
            spill(s, sh, 0) is Some,
            forall|t: int| 0 <= t < k ==> fits_i128(s[t].1 - #[trigger] capped_cut(s, sh, t)),
            out.wf(),
            out.entries() == apply_cuts(s, cs, k as nat),
            k < n ==> forall|t: int| 0 <= t < out.entries().len() ==> out.entries()[t].0 < s[k as int].0,
        decreases n - k,
    {
        let key = stakes.key_at(k);
        let balance = *stakes.value_at(k);
        let cut = cuts[k];
        proof {
            assert(cs[k as int] == capped_cut(s, sh, k as int));
        }
        let new_balance = match checked_sub(balance, cut) {
            Some(b) => b,
            None => {
                proof {
                    assert(!fits_i128(s[k as int].1 - capped_cut(s, sh, k as int)));
                }
                return None;
            },
        };
        let ghost old_out = out.entries();
        if new_balance != 0 {
            out.push_last(key, new_balance);
        }
        proof {
            assert(s[k as int].0 == key && s[k as int].1 == balance);
            assert(apply_cuts(s, cs, (k + 1) as nat) == (if new_balance == 0 {
                old_out
            } else {
                old_out.push((key, new_balance))
            }));
            if k + 1 < n {
                assert(s[k as int].0 < s[k + 1].0);
            }
        }
        k = k + 1;
    }
    proof {
        assert(forall|t: int| 0 <= t < s.len() ==> fits_i128(s[t].1 - #[trigger] capped_cut(s, sh, t)));
        assert(spill(s, sh, 0) is Some);
        assert(pro_rata_cuts(s, payout as int, denom as int) == Some(Seq::new(s.len(), |t: int| capped_cut(s, sh, t))));
        assert(cs =~= pro_rata_cuts(s, payout as int, denom as int).unwrap());
    }
    Some(out)
}

/// Once the spill overflows at some staker it overflows for every staker
/// before it.
pub proof fn lemma_spill_none_mono(s: Seq<(u64, i128)>, shares: Seq<int>, i: int, m: int)
    requires
        spill(s, shares, i) is None,
        0 <= m <= i,
    ensures
        spill(s, shares, m) is None,
    decreases i - m,
{
    if m < i {
        lemma_spill_none_mono(s, shares, i, m + 1);
    }
}

/// Once the cuts stop at some staker they stop for the whole pool.
pub proof fn lemma_cuts_none_mono(s: Seq<(u64, i128)>, payout: int, denom: int, k: nat, m: nat)
    requires
        cuts_upto(s, payout, denom, k) is None,
        k <= m,
    ensures
        cuts_upto(s, payout, denom, m) is None,
    decreases m - k,
{
    if k < m {
        lemma_cuts_none_mono(s, payout, denom, k, (m - 1) as nat);
    }
}

proof fn lemma_cuts_stop(s: Seq<(u64, i128)>, payout: int, denom: int, i: nat)
    requires
        i < s.len(),
        cuts_upto(s, payout, denom, i + 1) is None,
    ensures
        pro_rata_cuts(s, payout, denom) is None,
{
    lemma_cuts_none_mono(s, payout, denom, i + 1, s.len());
}

/// `apply_cuts` over the first `k` entries only reads the first `k` cuts.
pub proof fn lemma_apply_cuts_prefix(s: Seq<(u64, i128)>, a: Seq<int>, b: Seq<int>, k: nat)
    requires
        k <= a.len(),
        k <= b.len(),
        forall|i: int| 0 <= i < k ==> a[i] == b[i],
    ensures
        apply_cuts(s, a, k) == apply_cuts(s, b, k),
    decreases k,
{
    if k > 0 {
        lemma_apply_cuts_prefix(s, a, b, (k - 1) as nat);
    }
}

/// The shares of the first `k` stakers, from non-negative balances and a
/// payout within the pool, are non-negative, add up to at most the payout,
/// and, but for the last staker's, do not exceed the balance they fall on.
pub proof fn lemma_shares_bounded(s: Seq<(u64, i128)>, payout: int, denom: int, k: nat)
    requires
        nonneg_balances(s),
        0 < denom,
        0 <= payout <= denom,
        k <= s.len(),
        cuts_upto(s, payout, denom, k) is Some,
    ensures
        ({
            let sh = cuts_upto(s, payout, denom, k).unwrap();
            &&& sh.len() == k
            &&& sum_ints(sh) <= payout
            &&& forall|t: int| 0 <= t < k ==> 0 <= #[trigger] sh[t]
            &&& forall|t: int| 0 <= t < k && t < s.len() - 1 ==> #[trigger] sh[t] <= s[t].1
        }),
    decreases k,
{
    lemma_cuts_len(s, payout, denom, k);
    if k > 0 {
        let i = k - 1;
        lemma_shares_bounded(s, payout, denom, (k - 1) as nat);
        let prev = cuts_upto(s, payout, denom, (k - 1) as nat).unwrap();
        let done = sum_ints(prev);
        let c = cut_at(s[i].1 as int, i, s.len() as int, payout, denom, done).unwrap();
        let sh = prev.push(c);
        assert(cuts_upto(s, payout, denom, k).unwrap() == sh);
        lemma_sum_ints_push(prev, c);
        if i != s.len() - 1 {
            let b = s[i].1 as int;
            let prod = b * payout;
            assert(0 <= prod <= b * denom) by (nonlinear_arith)
                requires
                    0 <= b,
                    0 <= payout <= denom,
                    prod == b * payout,
            ;
            assert(0 <= prod / denom <= b) by (nonlinear_arith)
                requires
                    0 <= prod <= b * denom,
                    0 < denom,
            ;
            assert(tdiv(prod, denom) == prod / denom);
        }
        assert forall|t: int| 0 <= t < k implies 0 <= #[trigger] sh[t] by {
            if t < i {
                assert(sh[t] == prev[t]);
            }
        }
        assert forall|t: int| 0 <= t < k && t < s.len() - 1 implies #[trigger] sh[t] <= s[t].1 by {
            if t < i {
                assert(sh[t] == prev[t]);
            }
        }
    }
}

/// The running excess of shares over balances among the first `k` stakers.
pub open spec fn gap(s: Seq<(u64, i128)>, shares: Seq<int>, k: int) -> int
    decreases k,
{
    if k <= 0 {
        0
    } else {
        gap(s, shares, k - 1) + shares[k - 1] - s[k - 1].1
    }
}

proof fn lemma_gap_sum(s: Seq<(u64, i128)>, shares: Seq<int>, k: int)
    requires
        0 <= k <= s.len(),
        k <= shares.len(),
    ensures
        gap(s, shares, k) == sum_ints(shares.take(k)) - sum_entries(s.take(k)),
    decreases k,
{
    if k > 0 {
        lemma_gap_sum(s, shares, k - 1);
        assert(shares.take(k).drop_last() =~= shares.take(k - 1));
        assert(s.take(k).drop_last() =~= s.take(k - 1));
    } else {
        assert(shares.take(0).len() == 0);
        assert(s.take(0).len() == 0);
    }
}

/// Where the spill is defined it never exceeds the excess of the remaining
/// shares over the remaining balances, and is never negative.
proof fn lemma_spill_bound(s: Seq<(u64, i128)>, shares: Seq<int>, i: int)
    requires
        nonneg_balances(s),
        shares.len() == s.len(),
        forall|t: int| 0 <= t < s.len() - 1 ==> #[trigger] shares[t] <= s[t].1,
        0 <= i <= s.len(),
        spill(s, shares, i) is Some,
    ensures
        0 <= spill(s, shares, i).unwrap(),
        spill(s, shares, i).unwrap() <= (if gap(s, shares, s.len() as int) - gap(s, shares, i) > 0 {
            gap(s, shares, s.len() as int) - gap(s, shares, i)
        } else {
            0
        }),
    decreases s.len() - i,
{
    if i < s.len() {
        lemma_spill_bound(s, shares, i + 1);
    }
}

/// The reductions of the first `k` stakers add up to their shares plus what
/// is still to be placed after them, less what the whole pool left over.
proof fn lemma_capped_prefix(s: Seq<(u64, i128)>, shares: Seq<int>, cs: Seq<int>, k: int)
    requires
        0 <= k <= s.len(),
        shares.len() == s.len(),
        cs.len() == s.len(),
        spill(s, shares, 0) is Some,
        forall|t: int| 0 <= t < s.len() ==> cs[t] == #[trigger] capped_cut(s, shares, t),
    ensures
        spill(s, shares, k) is Some,
        sum_ints(cs.take(k)) == sum_ints(shares.take(k)) + spill(s, shares, k).unwrap() - spill(s, shares, 0).unwrap(),
    decreases k,
{
    if k > 0 {
        lemma_capped_prefix(s, shares, cs, k - 1);
        if spill(s, shares, k) is None {
            lemma_spill_none_mono(s, shares, k, 0);
        }
        assert(cs.take(k).drop_last() =~= cs.take(k - 1));
        assert(shares.take(k).drop_last() =~= shares.take(k - 1));
        assert(cs[k - 1] == capped_cut(s, shares, k - 1));
    } else {
        assert(cs.take(0).len() == 0);
        assert(shares.take(0).len() == 0);
    }
}

/// From non-negative balances and a payout within the pool, every
/// reduction lies between zero and the balance it falls on; and where the
/// balances cover the payout, the reductions add up to it exactly.
pub proof fn lemma_pro_rata_bounded(s: Seq<(u64, i128)>, payout: int, denom: int)
    requires
        nonneg_balances(s),
        0 < denom,
        0 <= payout <= denom,
        pro_rata_cuts(s, payout, denom) is Some,
    ensures
        cuts_within(s, pro_rata_cuts(s, payout, denom).unwrap()),
        s.len() > 0 && payout <= sum_entries(s) ==> sum_ints(pro_rata_cuts(s, payout, denom).unwrap()) == payout,
{
    let n = s.len();
    let sh = cuts_upto(s, payout, denom, n).unwrap();
    let cs = pro_rata_cuts(s, payout, denom).unwrap();
    lemma_shares_bounded(s, payout, denom, n);
    assert forall|i: int| 0 <= i < n implies 0 <= #[trigger] cs[i] <= s[i].1 by {
        assert(cs[i] == capped_cut(s, sh, i));
        if spill(s, sh, i + 1) is None {
            lemma_spill_none_mono(s, sh, i + 1, 0);
        }
        if spill(s, sh, i) is None {
            lemma_spill_none_mono(s, sh, i, 0);
        }
        lemma_spill_bound(s, sh, i + 1);
        assert(0 <= sh[i]);
    }
    if n > 0 && payout <= sum_entries(s) {
        lemma_cuts_sum(s, payout, denom);
        lemma_capped_prefix(s, sh, cs, n as int);
        lemma_spill_bound(s, sh, 0);
        lemma_gap_sum(s, sh, n as int);
        assert(sh.take(n as int) =~= sh);
        assert(s.take(n as int) =~= s);
        assert(cs.take(n as int) =~= cs);
    }
}

/// Every staker holds a positive balance: a stake that reaches zero leaves.
pub open spec fn positive_stakes(m: Map<u64, i128>) -> bool {
    forall|k: u64| #[trigger] m.contains_key(k) ==> m[k] > 0
}

pub proof fn lemma_positive_entries(s: Seq<(u64, i128)>)
    requires
        sorted_keys(s),
    ensures
        positive_stakes(entries_map(s)) <==> (forall|i: int| 0 <= i < s.len() ==> #[trigger] s[i].1 > 0),
{
    if positive_stakes(entries_map(s)) {
        assert forall|i: int| 0 <= i < s.len() implies #[trigger] s[i].1 > 0 by {
            lemma_entries_map_at(s, i);
        }
    }
    if forall|i: int| 0 <= i < s.len() ==> #[trigger] s[i].1 > 0 {
        assert forall|k: u64| #[trigger] entries_map(s).contains_key(k) implies entries_map(s)[k] > 0 by {
            let i = choose|i: int| 0 <= i < s.len() && s[i].0 == k;
            lemma_entries_map_at(s, i);
        }
    }
}

proof fn lemma_apply_cuts_positive(s: Seq<(u64, i128)>, cuts: Seq<int>, k: nat)
    requires
        k <= s.len(),
        cuts_within(s, cuts),
    ensures
        forall|j: int| 0 <= j < apply_cuts(s, cuts, k).len() ==> #[trigger] apply_cuts(s, cuts, k)[j].1 > 0,
    decreases k,
{
    if k > 0 {
        lemma_apply_cuts_positive(s, cuts, (k - 1) as nat);
        let i = k - 1;
        assert(0 <= cuts[i as int] <= s[i as int].1);
        let prev = apply_cuts(s, cuts, (k - 1) as nat);
        let nb = s[i as int].1 - cuts[i as int];
        if nb != 0 {
            let e = (s[i as int].0, nb as i128);
            assert(apply_cuts(s, cuts, k) == prev.push(e));
            assert forall|j: int| 0 <= j < prev.push(e).len() implies #[trigger] prev.push(e)[j].1 > 0 by {
                if j < prev.len() {
                    assert(prev.push(e)[j] == prev[j]);
                }
            }
        }
    }
}

/// A reduction of positive stakes by a payout within the pool takes from
/// each stake between nothing and all of it, and leaves every remaining
/// stake positive.
pub proof fn lemma_reduction_keeps_positive(s: Seq<(u64, i128)>, payout: int, denom: int)
    requires
        sorted_keys(s),
        sorted_keys(apply_cuts(s, pro_rata_cuts(s, payout, denom).unwrap(), s.len())),
        positive_stakes(entries_map(s)),
        0 < denom,
        0 <= payout <= denom,
        pro_rata_cuts(s, payout, denom) is Some,
    ensures
        nonneg_balances(s),
        cuts_within(s, pro_rata_cuts(s, payout, denom).unwrap()),
        positive_stakes(entries_map(apply_cuts(s, pro_rata_cuts(s, payout, denom).unwrap(), s.len()))),
{
    lemma_positive_entries(s);
    assert(nonneg_balances(s));
    lemma_pro_rata_bounded(s, payout, denom);
    let cuts = pro_rata_cuts(s, payout, denom).unwrap();
    lemma_apply_cuts_positive(s, cuts, s.len());
    lemma_positive_entries(apply_cuts(s, cuts, s.len()));
}

/// The sum of the truncated proportional shares of the whole payout,
/// `balance * payout / denom`, of the first `k` stakers.
pub open spec fn proportional_sum(s: Seq<(u64, i128)>, payout: int, denom: int, k: int) -> int
    decreases k,
{
    if k <= 0 {
        0
    } else {
        proportional_sum(s, payout, denom, k - 1) + s[k - 1].1 * payout / denom
    }
}

proof fn lemma_take_sum_le(s: Seq<(u64, i128)>, k: int)
    requires
        nonneg_balances(s),
        0 <= k <= s.len(),
    ensures
        sum_entries(s.take(k)) <= sum_entries(s),
    decreases s.len() - k,
{
    if k < s.len() {
        lemma_take_sum_le(s, k + 1);
        assert(s.take(k + 1).drop_last() =~= s.take(k));
    } else {
        assert(s.take(k) =~= s);
    }
}

/// While the stakes sum to at most the pool, the share of every staker
/// before the last is its truncated proportional share of the whole
/// payout: what the stakers before it gave up never limits it.
proof fn lemma_shares_proportional(s: Seq<(u64, i128)>, payout: int, denom: int, k: nat)
    requires
        nonneg_balances(s),
        0 < denom,
        0 <= payout <= denom,
        sum_entries(s) <= denom,
        k < s.len(),
        cuts_upto(s, payout, denom, k) is Some,
    ensures
        ({
            let sh = cuts_upto(s, payout, denom, k).unwrap();
            &&& sh.len() == k
            &&& forall|t: int| 0 <= t < k ==> #[trigger] sh[t] == s[t].1 * payout / denom
            &&& sum_ints(sh) == proportional_sum(s, payout, denom, k as int)
            &&& sum_ints(sh) * denom <= payout * sum_entries(s.take(k as int))
        }),
    decreases k,
{
    lemma_cuts_len(s, payout, denom, k);
    if k == 0 {
        assert(s.take(0).len() == 0);
    } else {
        let i = k - 1;
        lemma_shares_proportional(s, payout, denom, (k - 1) as nat);
        let prev = cuts_upto(s, payout, denom, (k - 1) as nat).unwrap();
        let done = sum_ints(prev);
        let b = s[i as int].1 as int;
        let prod = b * payout;
        let q = prod / denom;
        assert(0 <= b);
        assert(0 <= prod) by (nonlinear_arith)
            requires
                0 <= b,
                0 <= payout,
                prod == b * payout,
        ;
        assert(q * denom <= prod) by (nonlinear_arith)
            requires
                0 <= prod,
                0 < denom,
                q == prod / denom,
        ;
        assert(tdiv(prod, denom) == q);
        let before = sum_entries(s.take(i as int));
        assert(s.take(k as int).drop_last() =~= s.take(i as int));
        assert(sum_entries(s.take(k as int)) == before + b);
        lemma_take_sum_le(s, k as int);
        assert((done + q) * denom <= payout * (before + b)) by (nonlinear_arith)
            requires
                done * denom <= payout * before,
                q * denom <= b * payout,
        ;
        assert(payout * (before + b) <= payout * denom) by (nonlinear_arith)
            requires
                0 <= payout,
                before + b <= denom,
        ;
        assert(done + q <= payout) by (nonlinear_arith)
            requires
                (done + q) * denom <= payout * denom,
                0 < denom,
        ;
        assert(i != s.len() - 1);
        let c = cut_at(b, i as int, s.len() as int, payout, denom, done).unwrap();
        assert(c == q);
        let sh = prev.push(c);
        assert(cuts_upto(s, payout, denom, k).unwrap() == sh);
        lemma_sum_ints_push(prev, c);
        assert forall|t: int| 0 <= t < k implies #[trigger] sh[t] == s[t].1 * payout / denom by {
            if t < i {
                assert(sh[t] == prev[t]);
            }
        }
    }
}

proof fn lemma_no_spill(s: Seq<(u64, i128)>, shares: Seq<int>, i: int)
    requires
        shares.len() == s.len(),
        forall|t: int| 0 <= t < s.len() ==> #[trigger] shares[t] <= s[t].1,
        0 <= i <= s.len(),
        spill(s, shares, i) is Some,
    ensures
        spill(s, shares, i) == Some(0int),
    decreases s.len() - i,
{
    if i < s.len() {
        lemma_no_spill(s, shares, i + 1);
    }
}

/// Pro-rata shares of a payout out of a pool whose stakes sum to at most
/// the pool: every staker but the last gives up at least its truncated
/// proportional share of the whole payout, `balance * payout / denom`,
/// whatever the stakers before it gave up, and never more than its
/// balance. When the last staker's balance covers what those shares leave
/// of the payout, each staker before it gives up exactly its share and the
/// last exactly the rest.
pub proof fn law_pro_rata_shares(s: Seq<(u64, i128)>, payout: int, denom: int)
    requires
        nonneg_balances(s),
        0 < denom,
        0 <= payout <= denom,
        sum_entries(s) <= denom,
        pro_rata_cuts(s, payout, denom) is Some,
    ensures
        ({
            let cuts = pro_rata_cuts(s, payout, denom).unwrap();
            &&& forall|i: int| 0 <= i < s.len() - 1 ==> s[i].1 * payout / denom <= #[trigger] cuts[i] <= s[i].1
            &&& s.len() > 0 && payout - proportional_sum(s, payout, denom, s.len() - 1) <= s[s.len() - 1].1 ==> {
                &&& forall|i: int| 0 <= i < s.len() - 1 ==> #[trigger] cuts[i] == s[i].1 * payout / denom
                &&& cuts[s.len() - 1] == payout - proportional_sum(s, payout, denom, s.len() - 1)
            }
        }),
{
    let n = s.len();
    let cuts = pro_rata_cuts(s, payout, denom).unwrap();
    if n > 0 {
        let sh = cuts_upto(s, payout, denom, n).unwrap();
        lemma_shares_bounded(s, payout, denom, n);
        let head = cuts_upto(s, payout, denom, (n - 1) as nat);
        if head is None {
            lemma_cuts_none_mono(s, payout, denom, (n - 1) as nat, n);
        }
        lemma_shares_proportional(s, payout, denom, (n - 1) as nat);
        let prev = head.unwrap();
        assert(sh == prev.push(payout - sum_ints(prev)));
        assert forall|i: int| 0 <= i < n - 1 implies sh[i] == s[i].1 * payout / denom by {
            assert(sh[i] == prev[i]);
        }
        assert forall|i: int| 0 <= i < n - 1 implies s[i].1 * payout / denom <= #[trigger] cuts[i] <= s[i].1 by {
            assert(cuts[i] == capped_cut(s, sh, i));
            if spill(s, sh, i + 1) is None {
                lemma_spill_none_mono(s, sh, i + 1, 0);
            }
            if spill(s, sh, i) is None {
                lemma_spill_none_mono(s, sh, i, 0);
            }
            lemma_spill_bound(s, sh, i + 1);
        }
        if payout - proportional_sum(s, payout, denom, n - 1) <= s[n - 1].1 {
            assert(sh[n - 1] == payout - proportional_sum(s, payout, denom, n - 1));
            assert forall|t: int| 0 <= t < n implies #[trigger] sh[t] <= s[t].1 by {
                if t < n - 1 {
                    assert(sh[t] == prev[t]);
                }
            }
            assert forall|i: int| 0 <= i < n implies #[trigger] cuts[i] == sh[i] by {
                assert(cuts[i] == capped_cut(s, sh, i));
                if spill(s, sh, i + 1) is None {
                    lemma_spill_none_mono(s, sh, i + 1, 0);
                }
                if spill(s, sh, i) is None {
                    lemma_spill_none_mono(s, sh, i, 0);
                }
                lemma_no_spill(s, sh, i + 1);
                lemma_no_spill(s, sh, i);
            }
            assert(cuts[n - 1] == sh[n - 1]);
        }
    }
}

} // verus!
