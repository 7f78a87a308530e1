//! The three fixed insurance products, each with an isolated reserve, its
//! own stakers and its own fixed economics.

use vstd::prelude::*;
use crate::arith::{
    checked_add, checked_mul, checked_sub, checked_tdiv, fits_i128, lemma_tdiv_fits, min_i128,
    min_int, saturating_sub_i128, saturating_sub_spec, sum_entries, tdiv,
};
use crate::insurance::{
    get_or_zero, lemma_reduction_sum, lemma_remove_sum, lemma_set_sum, sat_elapsed,
    InsuranceContract, Withdrawal, YIELD_DENOMINATOR,
};
use crate::ordered_map::OrderedMap;
use crate::pro_rata::{
    apply_cuts, cuts_within, lemma_reduction_keeps_positive, positive_stakes, pro_rata_cuts, reduce_pro_rata,
};
use crate::reservations::{lemma_open_at_least, lemma_open_paid, lemma_open_set, ledger_consistent, open_total};
use crate::types::{abort, err, Abort, Address, ContractError, Failure, InvoiceStatus, Symbol};

verus! {

/// The three fixed insurance products.
#[derive(Clone, Copy, Debug, PartialEq, Eq, Structural)]
pub enum InsuranceTier {
    Conservative,
    Balanced,
    Aggressive,
}

/// Independently accounted reserve and fixed economics of one tier.
#[derive(Clone, Copy, Debug, PartialEq, Eq, Structural)]
pub struct PoolRecord {
    pub balance: i128,
    pub reserved: i128,
    pub apy_bps: u32,
    pub payout_cap_bps: u32,
}

/// One tier's reserve and its per-staker and per-offer books.
pub struct TierBook {
    pub pool: PoolRecord,
    pub stakes: OrderedMap<i128>,
    pub timestamps: OrderedMap<u64>,
    pub accruals: OrderedMap<i128>,
    pub reservations: OrderedMap<i128>,
    pub paid: OrderedMap<i128>,
}

impl TierBook {
    /// Well-formed tables, every stake positive, and a consistent
    /// reservation ledger: no offer paid beyond its reservation, and the
    /// pool's reserved total equal to what is open on all of them.
    pub open spec fn wf(&self) -> bool {
        &&& self.stakes.wf()
        &&& self.timestamps.wf()
        &&& self.accruals.wf()
        &&& self.reservations.wf()
        &&& self.paid.wf()
        &&& positive_stakes(self.stakes@)
        &&& ledger_consistent(self.reservations.entries(), self.paid@, self.pool.reserved as int)
    }
}

/// The books of all three tiers.
pub struct TierPools {
    pub conservative: TierBook,
    pub balanced: TierBook,
    pub aggressive: TierBook,
}

impl TierPools {
    pub open spec fn wf(&self) -> bool {
        &&& self.conservative.wf()
        &&& self.balanced.wf()
        &&& self.aggressive.wf()
    }

    pub fn new() -> (t: TierPools)
        ensures
            t.wf(),
            t.conservative.is_fresh(InsuranceTier::Conservative),
            t.balanced.is_fresh(InsuranceTier::Balanced),
            t.aggressive.is_fresh(InsuranceTier::Aggressive),
    {
        TierPools {
            conservative: TierBook::empty(InsuranceTier::Conservative),
            balanced: TierBook::empty(InsuranceTier::Balanced),
            aggressive: TierBook::empty(InsuranceTier::Aggressive),
        }
    }
}

impl TierBook {
    /// A tier's book as it opens: nothing staked, accrued, reserved or paid,
    /// and the tier's fixed yield and payout cap.
    pub open spec fn is_fresh(&self, tier: InsuranceTier) -> bool {
        &&& self.pool == (PoolRecord {
            balance: 0,
            reserved: 0,
            apy_bps: spec_tier_parameters(tier).0,
            payout_cap_bps: spec_tier_parameters(tier).1,
        })
        &&& self.stakes.entries() == Seq::<(u64, i128)>::empty()
        &&& self.stakes@ == Map::<u64, i128>::empty()
        &&& self.timestamps@ == Map::<u64, u64>::empty()
        &&& self.accruals@ == Map::<u64, i128>::empty()
        &&& self.reservations@ == Map::<u64, i128>::empty()
        &&& self.paid@ == Map::<u64, i128>::empty()
    }

    pub fn empty(tier: InsuranceTier) -> (b: TierBook)
        ensures
            b.wf(),
            b.is_fresh(tier),
    {
        let (apy_bps, payout_cap_bps) = tier_parameters(tier);
        TierBook {
            pool: PoolRecord { balance: 0, reserved: 0, apy_bps, payout_cap_bps },
            stakes: OrderedMap::new(),
            timestamps: OrderedMap::new(),
            accruals: OrderedMap::new(),
            reservations: OrderedMap::new(),
            paid: OrderedMap::new(),
        }
    }
}

pub open spec fn spec_tier_parameters(tier: InsuranceTier) -> (u32, u32) {
    match tier {
        InsuranceTier::Conservative => (200, 5_000),
        InsuranceTier::Balanced => (500, 7_500),
        InsuranceTier::Aggressive => (1_000, 10_000),
    }
}

/// `(apy_bps, payout_cap_bps)` of a tier.
pub fn tier_parameters(tier: InsuranceTier) -> (r: (u32, u32))
    ensures
        r == spec_tier_parameters(tier),
{
    match tier {
        InsuranceTier::Conservative => (200, 5_000),
        InsuranceTier::Balanced => (500, 7_500),
        InsuranceTier::Aggressive => (1_000, 10_000),
    }
}

/// Tier yield: `principal * apy * elapsed / (10_000 * SECONDS_PER_YEAR)`,
/// multiplied in that order, truncated; `None` where that overflows.
pub open spec fn tier_yield_spec(principal: int, apy: int, elapsed: int) -> Option<int> {
    if principal == 0 || elapsed == 0 {
        Some(0)
    } else if !fits_i128(principal * apy) || !fits_i128(principal * apy * elapsed) {
        None
    } else {
        Some(tdiv(principal * apy * elapsed, YIELD_DENOMINATOR as int))
    }
}

/// Tier yield, `None` where the contract's arithmetic overflows.
pub fn try_tier_yield(principal: i128, apy_bps: u32, elapsed_secs: u64) -> (r: Option<i128>)
    ensures
        match r {
            Some(y) => tier_yield_spec(principal as int, apy_bps as int, elapsed_secs as int) == Some(y as int),
            None => tier_yield_spec(principal as int, apy_bps as int, elapsed_secs as int) is None,
        },
{
    if principal == 0 || elapsed_secs == 0 {
        return Some(0);
    }
    let a = match checked_mul(principal, apy_bps as i128) {
        Some(a) => a,
        None => {
            return None;
        },
    };
    let b = match checked_mul(a, elapsed_secs as i128) {
        Some(b) => b,
        None => {
            return None;
        },
    };
    proof {
        lemma_tdiv_fits(b as int, YIELD_DENOMINATOR as int);
    }
    checked_tdiv(b, YIELD_DENOMINATOR)
}

/// The yield `principal` earns in a tier paying `apy_bps` over
/// `elapsed_secs`, rounded toward zero.
pub fn tier_yield(principal: i128, apy_bps: u32, elapsed_secs: u64) -> (y: i128)
    requires
        tier_yield_spec(principal as int, apy_bps as int, elapsed_secs as int) is Some,
    ensures
        tier_yield_spec(principal as int, apy_bps as int, elapsed_secs as int) == Some(y as int),
{
    match try_tier_yield(principal, apy_bps, elapsed_secs) {
        Some(y) => y,
        None => 0,
    }
}

/// Invoice age (30 days) beyond which an invoice scores a risk point.
pub const RISK_AGE_SECS: u64 = 2_592_000;

/// Invoice amount (1,000 token units) from which an invoice scores a risk point.
pub const RISK_LARGE_INVOICE_AMOUNT: i128 = 1_000_000_000;

pub open spec fn risk_points(invoice_age_secs: u64, repayments: u32, defaults: u32, amount: i128) -> int {
    (if invoice_age_secs > RISK_AGE_SECS { 1int } else { 0int })
        + (if defaults > repayments { 1int } else { 0int })
        + (if amount >= RISK_LARGE_INVOICE_AMOUNT { 1int } else { 0int })
}

pub open spec fn spec_assess_risk(invoice_age_secs: u64, repayments: u32, defaults: u32, amount: i128) -> InsuranceTier {
    if amount <= 0 {
        InsuranceTier::Aggressive
    } else {
        let p = risk_points(invoice_age_secs, repayments, defaults, amount);
        if p == 0 {
            InsuranceTier::Conservative
        } else if p == 1 {
            InsuranceTier::Balanced
        } else {
            InsuranceTier::Aggressive
        }
    }
}

/// Bank the tier yield of staker `k` and move its checkpoint to `now`.
pub open spec fn bank_tier_spec(book: &TierBook, k: u64, now: u64) -> Option<(Map<u64, u64>, Map<u64, i128>)> {
    let principal = get_or_zero(book.stakes@, k);
    let start = if book.timestamps@.contains_key(k) {
        book.timestamps@[k]
    } else {
        now
    };
    match tier_yield_spec(principal, book.pool.apy_bps as int, sat_elapsed(now, start)) {
        None => None,
        Some(e) => if e > 0 {
            let prev = get_or_zero(book.accruals@, k);
            if fits_i128(prev + e) {
                Some((book.timestamps@.insert(k, now), book.accruals@.insert(k, (prev + e) as i128)))
            } else {
                None
            }
        } else {
            Some((book.timestamps@.insert(k, now), book.accruals@))
        },
    }
}

fn get_i128(m: &OrderedMap<i128>, k: u64) -> (v: i128)
    requires
        m.wf(),
    ensures
        v == get_or_zero(m@, k),
{
    match m.get(k) {
        Some(v) => *v,
        None => 0,
    }
}

impl TierBook {
    /// The reserve matches the stakes: its balance is the sum of the tier's
    /// staker balances.
    pub open spec fn balanced(&self) -> bool {
        sum_entries(self.stakes.entries()) == self.pool.balance
    }

    /// The pool left unchanged apart from the listed parts.
    pub open spec fn same_books(&self, other: &TierBook) -> bool {
        &&& self.reservations == other.reservations
        &&& self.paid == other.paid
    }

    /// `post` is `pre` after staking `amount` for `k` at `now`.
    pub open spec fn stake_post(pre: &TierBook, post: &TierBook, k: u64, amount: i128, now: u64) -> bool {
        let existing = get_or_zero(pre.stakes@, k);
        &&& amount > 0
        &&& fits_i128(existing + amount)
        &&& fits_i128(pre.pool.balance + amount)
        &&& post.stakes@ == pre.stakes@.insert(k, (existing + amount) as i128)
        &&& post.pool == (PoolRecord { balance: (pre.pool.balance + amount) as i128, ..pre.pool })
        &&& (if existing > 0 {
            bank_tier_spec(pre, k, now) == Some((post.timestamps@, post.accruals@))
        } else {
            post.timestamps@ == pre.timestamps@.insert(k, now) && post.accruals == pre.accruals
        })
        &&& post.same_books(pre)
    }

    pub open spec fn stake_overflows(pre: &TierBook, k: u64, amount: i128, now: u64) -> bool {
        let existing = get_or_zero(pre.stakes@, k);
        ||| (existing > 0 && bank_tier_spec(pre, k, now) is None)
        ||| !fits_i128(existing + amount)
        ||| !fits_i128(pre.pool.balance + amount)
    }

    fn bank(&mut self, k: u64, now: u64) -> (r: bool)
        requires
            old(self).wf(),
        ensures
            final(self).wf(),
            match bank_tier_spec(old(self), k, now) {
                None => !r && *final(self) == *old(self),
                Some((t, a)) => r && final(self).timestamps@ == t && final(self).accruals@ == a
                    && final(self).stakes == old(self).stakes && final(self).pool == old(self).pool
                    && final(self).same_books(old(self)),
            },
    {
        let principal = get_i128(&self.stakes, k);
        let start = match self.timestamps.get(k) {
            Some(t) => *t,
            None => now,
        };
        let elapsed = now.saturating_sub(start);
        let earned = match try_tier_yield(principal, self.pool.apy_bps, elapsed) {
            Some(e) => e,
            None => {
                return false;
            },
        };
        if earned > 0 {
            let prev = get_i128(&self.accruals, k);
            let total = match checked_add(prev, earned) {
                Some(t) => t,
                None => {
                    return false;
                },
            };
            self.accruals.set(k, total);
        }
        self.timestamps.set(k, now);
        true
    }

    /// Deposit into this tier (the host has pulled `amount` already).
    pub fn stake(&mut self, k: u64, amount: i128, now: u64) -> (r: Result<(), Failure>)
        requires
            old(self).wf(),
        ensures
            final(self).wf(),
            old(self).balanced() && r is Ok ==> final(self).balanced(),
            match r {
                Ok(()) => Self::stake_post(old(self), final(self), k, amount, now),
                Err(f) => *final(self) == *old(self) && (if amount <= 0 {
                    f == err(ContractError::InvalidInput)
                } else {
                    f == abort(Abort::ArithmeticOverflow) && Self::stake_overflows(old(self), k, amount, now)
                }),
            },
    {
        if amount <= 0 {
            return Err(Failure::Contract(ContractError::InvalidInput));
        }
        let existing = get_i128(&self.stakes, k);
        let new_stake = match checked_add(existing, amount) {
            Some(v) => v,
            None => {
                return Err(Failure::Abort(Abort::ArithmeticOverflow));
            },
        };
        let new_balance = match checked_add(self.pool.balance, amount) {
            Some(v) => v,
            None => {
                return Err(Failure::Abort(Abort::ArithmeticOverflow));
            },
        };
        if existing > 0 {
            if !self.bank(k, now) {
                return Err(Failure::Abort(Abort::ArithmeticOverflow));
            }
        } else {
            self.timestamps.set(k, now);
        }
        let ghost s0 = self.stakes.entries();
        self.stakes.set(k, new_stake);
        proof {
            lemma_set_sum(s0, self.stakes.entries(), k, new_stake);
        }
        self.pool.balance = new_balance;
        Ok(())
    }

    /// `post` is `pre` after `k` withdrew `amount` at `now`, paid `w`.
    pub open spec fn unstake_post(pre: &TierBook, post: &TierBook, k: u64, amount: i128, now: u64, w: Withdrawal) -> bool {
        let balance = get_or_zero(pre.stakes@, k);
        let remaining = balance - amount;
        &&& amount > 0
        &&& balance >= amount
        &&& bank_tier_spec(pre, k, now) matches Some((t, a))
        &&& w.principal == amount
        &&& w.yield_paid == get_or_zero(a, k)
        &&& post.stakes@ == (if remaining == 0 { pre.stakes@.remove(k) } else { pre.stakes@.insert(k, remaining as i128) })
        &&& post.timestamps@ == (if remaining == 0 { t.remove(k) } else { t })
        &&& post.accruals@ == (if remaining == 0 { a.remove(k) } else { a.insert(k, 0) })
        &&& post.pool == (PoolRecord { balance: (pre.pool.balance - amount) as i128, ..pre.pool })
        &&& post.same_books(pre)
    }

    /// Withdraw principal and all banked tier yield from this tier.
    pub fn unstake(&mut self, k: u64, amount: i128, now: u64) -> (r: Result<Withdrawal, Failure>)
        requires
            old(self).wf(),
        ensures
            final(self).wf(),
            old(self).balanced() && r is Ok ==> final(self).balanced(),
            match r {
                Ok(w) => Self::unstake_post(old(self), final(self), k, amount, now, w),
                Err(f) => *final(self) == *old(self) && (if amount <= 0 {
                    f == err(ContractError::InvalidInput)
                } else if get_or_zero(old(self).stakes@, k) < amount {
                    f == err(ContractError::InsufficientBalance)
                } else {
                    f == abort(Abort::ArithmeticOverflow) && (bank_tier_spec(old(self), k, now) is None
                        || !fits_i128(old(self).pool.balance - amount))
                }),
            },
    {
        if amount <= 0 {
            return Err(Failure::Contract(ContractError::InvalidInput));
        }
        let balance = get_i128(&self.stakes, k);
        if balance < amount {
            return Err(Failure::Contract(ContractError::InsufficientBalance));
        }
        let new_pool_balance = match checked_sub(self.pool.balance, amount) {
            Some(v) => v,
            None => {
                return Err(Failure::Abort(Abort::ArithmeticOverflow));
            },
        };
        if !self.bank(k, now) {
            return Err(Failure::Abort(Abort::ArithmeticOverflow));
        }
        let yield_payout = get_i128(&self.accruals, k);
        let remaining = balance - amount;
        let ghost s0 = self.stakes.entries();
        if remaining == 0 {
            self.stakes.remove(k);
            self.timestamps.remove(k);
            self.accruals.remove(k);
            proof {
                lemma_remove_sum(s0, self.stakes.entries(), k);
            }
        } else {
            self.stakes.set(k, remaining);
            self.accruals.set(k, 0);
            proof {
                lemma_set_sum(s0, self.stakes.entries(), k, remaining);
            }
        }
        self.pool.balance = new_pool_balance;
        Ok(Withdrawal { principal: amount, yield_paid: yield_payout })
    }

    /// The payout of a claim of `amount` on this tier: the claim capped at
    /// the tier's coverage, then at its balance.
    pub open spec fn capped_tier_payout(&self, amount: int) -> int {
        min_int(tdiv(amount * self.pool.payout_cap_bps, 10_000), self.pool.balance as int)
    }

    /// `post` is `pre` after paying `paid` on a claim of `amount`.
    pub open spec fn pay_out_post(pre: &TierBook, post: &TierBook, amount: i128, paid: i128) -> bool {
        fits_i128(amount * pre.pool.payout_cap_bps) && if pre.capped_tier_payout(amount as int) <= 0 {
                    paid == 0 && *post == *pre
                } else {
                    let p = pre.capped_tier_payout(amount as int);
                    &&& paid == p
                    &&& pre.stakes.entries().len() > 0
                    &&& pro_rata_cuts(pre.stakes.entries(), p, pre.pool.balance as int) matches Some(cuts)
                    &&& cuts_within(pre.stakes.entries(), cuts)
                    &&& post.stakes.entries() == apply_cuts(pre.stakes.entries(), cuts, pre.stakes.entries().len())
                    &&& post.pool == (PoolRecord { balance: (pre.pool.balance - p) as i128, ..pre.pool })
                    &&& post.timestamps == pre.timestamps
                    &&& post.accruals == pre.accruals
                    &&& post.same_books(pre)
                }
    }

    /// Why paying `amount` out of this tier fails, in the order it is
    /// checked; `None` when it succeeds.
    pub open spec fn pay_out_failure(&self, amount: i128) -> Option<Failure> {
        let p = self.capped_tier_payout(amount as int);
        if !fits_i128(amount * self.pool.payout_cap_bps) {
            Some(abort(Abort::ArithmeticOverflow))
        } else if p <= 0 {
            None
        } else if pro_rata_cuts(self.stakes.entries(), p, self.pool.balance as int) is None {
            Some(abort(Abort::ArithmeticOverflow))
        } else if self.stakes.entries().len() == 0 {
            Some(err(ContractError::InsufficientBalance))
        } else {
            None
        }
    }

    /// Why claiming `amount` against `offer`'s reservation fails, in the
    /// order it is checked; `None` when it succeeds.
    pub open spec fn claim_failure(&self, offer: u64, amount: i128) -> Option<Failure> {
        let before = get_or_zero(self.paid@, offer);
        let remaining = get_or_zero(self.reservations@, offer) - before;
        let p = min_int(min_int(amount as int, remaining), self.pool.balance as int);
        if !fits_i128(remaining) {
            Some(abort(Abort::ArithmeticOverflow))
        } else if remaining <= 0 {
            Some(err(ContractError::InsufficientBalance))
        } else if p <= 0 {
            None
        } else if pro_rata_cuts(self.stakes.entries(), p, self.pool.balance as int) is None {
            Some(abort(Abort::ArithmeticOverflow))
        } else if self.stakes.entries().len() == 0 {
            Some(err(ContractError::InsufficientBalance))
        } else if !fits_i128(before + p) || !fits_i128(self.pool.reserved - p) {
            Some(abort(Abort::ArithmeticOverflow))
        } else {
            None
        }
    }

    /// Pay a default claim from this tier only.
    pub fn pay_out(&mut self, amount: i128) -> (r: Result<i128, Failure>)
        requires
            old(self).wf(),
            amount > 0,
        ensures
            final(self).wf(),
            old(self).balanced() && r is Ok ==> final(self).balanced(),
            match r {
                Ok(paid) => Self::pay_out_post(old(self), final(self), amount, paid),
                Err(f) => *final(self) == *old(self) && old(self).pay_out_failure(amount) == Some(f),
            },
    {
        let prod = match checked_mul(amount, self.pool.payout_cap_bps as i128) {
            Some(v) => v,
            None => {
                return Err(Failure::Abort(Abort::ArithmeticOverflow));
            },
        };
        proof {
            lemma_tdiv_fits(prod as int, 10_000);
        }
        let capped_claim = prod / 10_000;
        let balance = self.pool.balance;
        let payout = min_i128(capped_claim, balance);
        if payout <= 0 {
            return Ok(0);
        }
        let new_stakes = match reduce_pro_rata(&self.stakes, payout, balance) {
            Some(m) => m,
            None => {
                return Err(Failure::Abort(Abort::ArithmeticOverflow));
            },
        };
        if self.stakes.len() == 0 {
            return Err(Failure::Contract(ContractError::InsufficientBalance));
        }
        proof {
            lemma_reduction_keeps_positive(self.stakes.entries(), payout as int, balance as int);
            lemma_reduction_sum(self.stakes.entries(), payout as int, balance as int);
        }
        self.stakes = new_stakes;
        self.pool.balance = balance - payout;
        Ok(payout)
    }

    /// `post` is `pre` after reserving `got` for `offer` on a request of `amount`.
    pub open spec fn reserve_post(pre: &TierBook, post: &TierBook, offer: u64, amount: i128, got: i128) -> bool {
                    let already = get_or_zero(pre.reservations@, offer);
                    let capped_total = tdiv(amount * pre.pool.payout_cap_bps, 10_000);
                    let want = min_int(saturating_sub_spec(capped_total, already), pre.pool.balance - pre.pool.reserved);
                    &&& fits_i128(amount * pre.pool.payout_cap_bps)
                    &&& fits_i128(pre.pool.balance - pre.pool.reserved)
                    &&& if want <= 0 {
                        got == 0 && *post == *pre
                    } else {
                        &&& got == want
                        &&& post.reservations@ == pre.reservations@.insert(offer, (already + want) as i128)
                        &&& post.pool == (PoolRecord { reserved: (pre.pool.reserved + want) as i128, ..pre.pool })
                        &&& post.stakes == pre.stakes
                        &&& post.timestamps == pre.timestamps
                        &&& post.accruals == pre.accruals
                        &&& post.paid == pre.paid
                    }
                }

    /// Why reserving against `offer` for a claim of `amount` fails; `None`
    /// when it succeeds.
    pub open spec fn reserve_failure(&self, offer: u64, amount: i128) -> Option<Failure> {
        let already = get_or_zero(self.reservations@, offer);
        let capped_total = tdiv(amount * self.pool.payout_cap_bps, 10_000);
        let want = min_int(saturating_sub_spec(capped_total, already), self.pool.balance - self.pool.reserved);
        if !fits_i128(amount * self.pool.payout_cap_bps) || !fits_i128(self.pool.balance - self.pool.reserved) {
            Some(abort(Abort::ArithmeticOverflow))
        } else if want <= 0 {
            None
        } else if !fits_i128(already + want) || !fits_i128(self.pool.reserved + want) {
            Some(abort(Abort::ArithmeticOverflow))
        } else {
            None
        }
    }

    /// Reserve this tier's capacity for an offer, capped at the tier's
    /// coverage of `amount` less what is already reserved, and at the
    /// unreserved balance.
    pub fn reserve(&mut self, offer: u64, amount: i128) -> (r: Result<i128, Failure>)
        requires
            old(self).wf(),
            amount > 0,
        ensures
            final(self).wf(),
            match r {
                Ok(got) => Self::reserve_post(old(self), final(self), offer, amount, got),
                Err(f) => *final(self) == *old(self) && old(self).reserve_failure(offer, amount) == Some(f),
            },
    {
        let prod = match checked_mul(amount, self.pool.payout_cap_bps as i128) {
            Some(v) => v,
            None => {
                return Err(Failure::Abort(Abort::ArithmeticOverflow));
            },
        };
        proof {
            lemma_tdiv_fits(prod as int, 10_000);
        }
        let capped_total = prod / 10_000;
        let already = get_i128(&self.reservations, offer);
        let unreserved = match checked_sub(self.pool.balance, self.pool.reserved) {
            Some(v) => v,
            None => {
                return Err(Failure::Abort(Abort::ArithmeticOverflow));
            },
        };
        let reserve = min_i128(saturating_sub_i128(capped_total, already), unreserved);
        if reserve <= 0 {
            return Ok(0);
        }
        let new_reserved = match checked_add(already, reserve) {
            Some(v) => v,
            None => {
                return Err(Failure::Abort(Abort::ArithmeticOverflow));
            },
        };
        let new_pool_reserved = match checked_add(self.pool.reserved, reserve) {
            Some(v) => v,
            None => {
                return Err(Failure::Abort(Abort::ArithmeticOverflow));
            },
        };
        proof {
            assert(0 <= get_or_zero(self.paid@, offer) <= get_or_zero(self.reservations@, offer));
        }
        let ghost s0 = self.reservations.entries();
        self.reservations.set(offer, new_reserved);
        proof {
            lemma_open_set(s0, self.reservations.entries(), offer, new_reserved, self.paid@);
            assert forall|j: u64| 0 <= #[trigger] get_or_zero(self.paid@, j) <= get_or_zero(self.reservations@, j) by {
                assert(0 <= get_or_zero(self.paid@, j) <= get_or_zero(old(self).reservations@, j));
            }
        }
        self.pool.reserved = new_pool_reserved;
        Ok(reserve)
    }

    /// `post` is `pre` after paying `paid` against `offer`'s reservation, `left` remaining.
    pub open spec fn claim_post(pre: &TierBook, post: &TierBook, offer: u64, amount: i128, paid: i128, left: i128) -> bool {
                    let reserved = get_or_zero(pre.reservations@, offer);
                    let before = get_or_zero(pre.paid@, offer);
                    let remaining = reserved - before;
                    let p = min_int(min_int(amount as int, remaining), pre.pool.balance as int);
                    &&& remaining > 0
                    &&& if p <= 0 {
                        paid == 0 && left == remaining && *post == *pre
                    } else {
                        &&& paid == p
                        &&& left == remaining - p
                        &&& pre.stakes.entries().len() > 0
                        &&& pro_rata_cuts(pre.stakes.entries(), p, pre.pool.balance as int) matches Some(cuts)
                        &&& cuts_within(pre.stakes.entries(), cuts)
                        &&& post.stakes.entries() == apply_cuts(pre.stakes.entries(), cuts, pre.stakes.entries().len())
                        &&& post.paid@ == pre.paid@.insert(offer, (before + p) as i128)
                        &&& post.pool == (PoolRecord {
                            balance: (pre.pool.balance - p) as i128,
                            reserved: (pre.pool.reserved - p) as i128,
                            ..pre.pool
                        })
                        &&& post.timestamps == pre.timestamps
                        &&& post.accruals == pre.accruals
                        &&& post.reservations == pre.reservations
                    }
                }

    /// Consume this tier's reservation for an offer.
    pub fn claim(&mut self, offer: u64, amount: i128) -> (r: Result<(i128, i128), Failure>)
        requires
            old(self).wf(),
            amount > 0,
        ensures
            final(self).wf(),
            old(self).balanced() && r is Ok ==> final(self).balanced(),
            match r {
                Ok((paid, left)) => Self::claim_post(old(self), final(self), offer, amount, paid, left),
                Err(f) => *final(self) == *old(self) && old(self).claim_failure(offer, amount) == Some(f),
            },
    {
        let reserved = get_i128(&self.reservations, offer);
        let paid_before = get_i128(&self.paid, offer);
        let remaining = match checked_sub(reserved, paid_before) {
            Some(v) => v,
            None => {
                return Err(Failure::Abort(Abort::ArithmeticOverflow));
            },
        };
        if remaining <= 0 {
            return Err(Failure::Contract(ContractError::InsufficientBalance));
        }
        let balance = self.pool.balance;
        let paid = min_i128(min_i128(amount, remaining), balance);
        if paid <= 0 {
            return Ok((0, remaining));
        }
        let new_stakes = match reduce_pro_rata(&self.stakes, paid, balance) {
            Some(m) => m,
            None => {
                return Err(Failure::Abort(Abort::ArithmeticOverflow));
            },
        };
        if self.stakes.len() == 0 {
            return Err(Failure::Contract(ContractError::InsufficientBalance));
        }
        let new_paid = match checked_add(paid_before, paid) {
            Some(v) => v,
            None => {
                return Err(Failure::Abort(Abort::ArithmeticOverflow));
            },
        };
        let new_reserved = match checked_sub(self.pool.reserved, paid) {
            Some(v) => v,
            None => {
                return Err(Failure::Abort(Abort::ArithmeticOverflow));
            },
        };
        proof {
            lemma_reduction_keeps_positive(self.stakes.entries(), paid as int, balance as int);
            lemma_reduction_sum(self.stakes.entries(), paid as int, balance as int);
            assert(0 <= get_or_zero(self.paid@, offer) <= get_or_zero(self.reservations@, offer));
            assert(self.reservations@.contains_key(offer));
            lemma_open_paid(self.reservations.entries(), self.paid@, offer, new_paid);
        }
        let ghost paid_before = self.paid@;
        self.stakes = new_stakes;
        self.paid.set(offer, new_paid);
        proof {
            assert forall|j: u64| 0 <= #[trigger] get_or_zero(self.paid@, j) <= get_or_zero(self.reservations@, j) by {
                assert(0 <= get_or_zero(paid_before, j) <= get_or_zero(self.reservations@, j));
            }
        }
        self.pool.balance = balance - paid;
        self.pool.reserved = new_reserved;
        Ok((paid, remaining - paid))
    }

    /// The tier yield accrued by `k` at `now`.
    pub open spec fn accrued(&self, k: u64, now: u64) -> Option<int> {
        let principal = get_or_zero(self.stakes@, k);
        let banked = get_or_zero(self.accruals@, k);
        let start = if self.timestamps@.contains_key(k) {
            self.timestamps@[k]
        } else {
            now
        };
        match tier_yield_spec(principal, self.pool.apy_bps as int, sat_elapsed(now, start)) {
            None => None,
            Some(e) => if fits_i128(banked + e) {
                Some(banked + e)
            } else {
                None
            },
        }
    }

    pub fn accrued_yield(&self, k: u64, now: u64) -> (r: Result<i128, Failure>)
        requires
            self.wf(),
        ensures
            match self.accrued(k, now) {
                Some(y) => r == Ok::<i128, Failure>(y as i128),
                None => r == Err::<i128, Failure>(abort(Abort::ArithmeticOverflow)),
            },
    {
        let banked = get_i128(&self.accruals, k);
        let principal = get_i128(&self.stakes, k);
        let start = match self.timestamps.get(k) {
            Some(t) => *t,
            None => now,
        };
        let earned = match try_tier_yield(principal, self.pool.apy_bps, now.saturating_sub(start)) {
            Some(e) => e,
            None => {
                return Err(Failure::Abort(Abort::ArithmeticOverflow));
            },
        };
        match checked_add(banked, earned) {
            Some(v) => Ok(v),
            None => Err(Failure::Abort(Abort::ArithmeticOverflow)),
        }
    }
}

impl TierPools {
    pub open spec fn book(&self, tier: InsuranceTier) -> TierBook {
        match tier {
            InsuranceTier::Conservative => self.conservative,
            InsuranceTier::Balanced => self.balanced,
            InsuranceTier::Aggressive => self.aggressive,
        }
    }

    /// Every book other than `tier`'s is the same in `self` and `other`.
    pub open spec fn others_same(&self, other: &TierPools, tier: InsuranceTier) -> bool {
        &&& tier != InsuranceTier::Conservative ==> self.conservative == other.conservative
        &&& tier != InsuranceTier::Balanced ==> self.balanced == other.balanced
        &&& tier != InsuranceTier::Aggressive ==> self.aggressive == other.aggressive
    }
}

impl InsuranceContract {
    /// Recommend a product from the three on-chain risk inputs: one point each
    /// for an invoice older than 30 days, an originator with more defaults
    /// than repayments, and an invoice of at least 1,000 units; zero points is
    /// Conservative, one Balanced, two or three Aggressive. A non-positive
    /// amount is Aggressive.
    pub fn assess_risk(invoice_age_secs: u64, originator_repayments: u32, originator_defaults: u32, invoice_amount: i128) -> (t: InsuranceTier)
        ensures
            t == spec_assess_risk(invoice_age_secs, originator_repayments, originator_defaults, invoice_amount),
    {
        if invoice_amount <= 0 {
            return InsuranceTier::Aggressive;
        }
        let mut points: u32 = 0;
        if invoice_age_secs > RISK_AGE_SECS {
            points = points + 1;
        }
        if originator_defaults > originator_repayments {
            points = points + 1;
        }
        if invoice_amount >= RISK_LARGE_INVOICE_AMOUNT {
            points = points + 1;
        }
        match points {
            0 => InsuranceTier::Conservative,
            1 => InsuranceTier::Balanced,
            _ => InsuranceTier::Aggressive,
        }
    }

    /// Every tier's reserve matches its stakes.
    pub open spec fn tiers_balanced(&self) -> bool {
        &&& self.tiers.conservative.balanced()
        &&& self.tiers.balanced.balanced()
        &&& self.tiers.aggressive.balanced()
    }

    /// The fixed economics and isolated balance of `tier`.
    pub fn get_pool(&self, tier: InsuranceTier) -> (p: PoolRecord)
        ensures
            p == self.tiers.book(tier).pool,
    {
        match tier {
            InsuranceTier::Conservative => self.tiers.conservative.pool,
            InsuranceTier::Balanced => self.tiers.balanced.pool,
            InsuranceTier::Aggressive => self.tiers.aggressive.pool,
        }
    }

    pub fn get_tier_stake(&self, staker: Address, tier: InsuranceTier) -> (v: i128)
        requires
            self.wf(),
        ensures
            v == get_or_zero(self.tiers.book(tier).stakes@, staker.0),
    {
        match tier {
            InsuranceTier::Conservative => get_i128(&self.tiers.conservative.stakes, staker.0),
            InsuranceTier::Balanced => get_i128(&self.tiers.balanced.stakes, staker.0),
            InsuranceTier::Aggressive => get_i128(&self.tiers.aggressive.stakes, staker.0),
        }
    }

    /// Preview of the tier yield accrued by `staker` at `now`.
    pub fn accrued_tier_yield(&self, staker: Address, tier: InsuranceTier, now: u64) -> (r: Result<i128, Failure>)
        requires
            self.wf(),
        ensures
            match self.tiers.book(tier).accrued(staker.0, now) {
                Some(y) => r == Ok::<i128, Failure>(y as i128),
                None => r == Err::<i128, Failure>(abort(Abort::ArithmeticOverflow)),
            },
    {
        match tier {
            InsuranceTier::Conservative => self.tiers.conservative.accrued_yield(staker.0, now),
            InsuranceTier::Balanced => self.tiers.balanced.accrued_yield(staker.0, now),
            InsuranceTier::Aggressive => self.tiers.aggressive.accrued_yield(staker.0, now),
        }
    }

    /// Deposit into the selected tier (the host has pulled `amount` already).
    pub fn stake_tier(&mut self, staker: Address, tier: InsuranceTier, amount: i128, now: u64) -> (r: Result<(), Failure>)
        requires
            old(self).wf(),
        ensures
            final(self).wf(),
            old(self).tiers_balanced() && r is Ok ==> final(self).tiers_balanced(),
            final(self).tiers.others_same(&old(self).tiers, tier),
            *final(self) == (InsuranceContract { tiers: final(self).tiers, ..*old(self) }),
            match r {
                Ok(()) => !old(self).paused && TierBook::stake_post(&old(self).tiers.book(tier), &final(self).tiers.book(tier), staker.0, amount, now),
                Err(f) => final(self).tiers == old(self).tiers && (if old(self).paused {
                    f == err(ContractError::Paused)
                } else if amount <= 0 {
                    f == err(ContractError::InvalidInput)
                } else {
                    f == abort(Abort::ArithmeticOverflow) && TierBook::stake_overflows(&old(self).tiers.book(tier), staker.0, amount, now)
                }),
            },
    {
        if self.paused {
            return Err(Failure::Contract(ContractError::Paused));
        }
        match tier {
            InsuranceTier::Conservative => self.tiers.conservative.stake(staker.0, amount, now),
            InsuranceTier::Balanced => self.tiers.balanced.stake(staker.0, amount, now),
            InsuranceTier::Aggressive => self.tiers.aggressive.stake(staker.0, amount, now),
        }
    }

    /// Withdraw principal and accrued tier yield from the selected tier.
    pub fn unstake_tier(&mut self, staker: Address, tier: InsuranceTier, amount: i128, now: u64) -> (r: Result<Withdrawal, Failure>)
        requires
            old(self).wf(),
        ensures
            final(self).wf(),
            old(self).tiers_balanced() && r is Ok ==> final(self).tiers_balanced(),
            final(self).tiers.others_same(&old(self).tiers, tier),
            *final(self) == (InsuranceContract { tiers: final(self).tiers, ..*old(self) }),
            match r {
                Ok(w) => !old(self).paused && TierBook::unstake_post(&old(self).tiers.book(tier), &final(self).tiers.book(tier), staker.0, amount, now, w),
                Err(f) => final(self).tiers == old(self).tiers && (if old(self).paused {
                    f == err(ContractError::Paused)
                } else if amount <= 0 {
                    f == err(ContractError::InvalidInput)
                } else if get_or_zero(old(self).tiers.book(tier).stakes@, staker.0) < amount {
                    f == err(ContractError::InsufficientBalance)
                } else {
                    f == abort(Abort::ArithmeticOverflow) && (bank_tier_spec(&old(self).tiers.book(tier), staker.0, now) is None
                        || !fits_i128(old(self).tiers.book(tier).pool.balance - amount))
                }),
            },
    {
        if self.paused {
            return Err(Failure::Contract(ContractError::Paused));
        }
        match tier {
            InsuranceTier::Conservative => self.tiers.conservative.unstake(staker.0, amount, now),
            InsuranceTier::Balanced => self.tiers.balanced.unstake(staker.0, amount, now),
            InsuranceTier::Aggressive => self.tiers.aggressive.unstake(staker.0, amount, now),
        }
    }

    /// The checks every tier payout entry point makes before touching a tier.
    fn tier_caller_checks(&self, amount: i128) -> (r: Result<(), Failure>)
        ensures
            match r {
                Ok(()) => !self.paused && self.payout_caller is Some && amount > 0,
                Err(f) => if self.paused {
                    f == err(ContractError::Paused)
                } else if self.payout_caller is None {
                    f == abort(Abort::PayoutCallerNotConfigured)
                } else {
                    amount <= 0 && f == err(ContractError::InvalidInput)
                },
            },
    {
        if self.paused {
            return Err(Failure::Contract(ContractError::Paused));
        }
        if self.payout_caller.is_none() {
            return Err(Failure::Abort(Abort::PayoutCallerNotConfigured));
        }
        if amount <= 0 {
            return Err(Failure::Contract(ContractError::InvalidInput));
        }
        Ok(())
    }

    /// Pay a default claim from one selected tier only, capped by the tier's
    /// coverage percentage and by its own balance. `invoice` is the status
    /// the registry reports (`None`: not found). Returns the amount for the
    /// host to transfer to the beneficiary.
    pub fn pay_out_tier(&mut self, invoice: Option<InvoiceStatus>, tier: InsuranceTier, amount: i128) -> (r: Result<i128, Failure>)
        requires
            old(self).wf(),
        ensures
            final(self).wf(),
            old(self).tiers_balanced() && r is Ok ==> final(self).tiers_balanced(),
            final(self).tiers.others_same(&old(self).tiers, tier),
            *final(self) == (InsuranceContract { tiers: final(self).tiers, ..*old(self) }),
            match r {
                Ok(paid) => {
                    &&& !old(self).paused
                    &&& old(self).payout_caller is Some
                    &&& amount > 0
                    &&& old(self).registry is Some
                    &&& invoice == Some(InvoiceStatus::Defaulted)
                    &&& TierBook::pay_out_post(&old(self).tiers.book(tier), &final(self).tiers.book(tier), amount, paid)
                },
                Err(f) => (if old(self).paused {
                    f == err(ContractError::Paused)
                } else if old(self).payout_caller is None {
                    f == abort(Abort::PayoutCallerNotConfigured)
                } else if amount <= 0 {
                    f == err(ContractError::InvalidInput)
                } else if old(self).registry is None {
                    f == abort(Abort::RegistryNotConfigured)
                } else if invoice is None {
                    f == err(ContractError::NotFound)
                } else if invoice != Some(InvoiceStatus::Defaulted) {
                    f == err(ContractError::InvalidTransition)
                } else {
                    old(self).tiers.book(tier).pay_out_failure(amount) == Some(f)
                }) && final(self).tiers == old(self).tiers,
            },
    {
        self.tier_caller_checks(amount)?;
        if self.registry.is_none() {
            return Err(Failure::Abort(Abort::RegistryNotConfigured));
        }
        match invoice {
            None => {
                return Err(Failure::Contract(ContractError::NotFound));
            },
            Some(s) => {
                if s != InvoiceStatus::Defaulted {
                    return Err(Failure::Contract(ContractError::InvalidTransition));
                }
            },
        }
        match tier {
            InsuranceTier::Conservative => self.tiers.conservative.pay_out(amount),
            InsuranceTier::Balanced => self.tiers.balanced.pay_out(amount),
            InsuranceTier::Aggressive => self.tiers.aggressive.pay_out(amount),
        }
    }

    /// Reserve capacity from one tier for an offer. Returns the amount
    /// reserved.
    pub fn reserve_payout_tier(&mut self, offer_id: Symbol, tier: InsuranceTier, amount: i128) -> (r: Result<i128, Failure>)
        requires
            old(self).wf(),
        ensures
            final(self).wf(),
            final(self).tiers.others_same(&old(self).tiers, tier),
            *final(self) == (InsuranceContract { tiers: final(self).tiers, ..*old(self) }),
            old(self).tiers_balanced() ==> final(self).tiers_balanced(),
            match r {
                Ok(got) => !old(self).paused && old(self).payout_caller is Some && amount > 0
                    && TierBook::reserve_post(&old(self).tiers.book(tier), &final(self).tiers.book(tier), offer_id.0, amount, got),
                Err(f) => final(self).tiers == old(self).tiers && (if old(self).paused {
                    f == err(ContractError::Paused)
                } else if old(self).payout_caller is None {
                    f == abort(Abort::PayoutCallerNotConfigured)
                } else if amount <= 0 {
                    f == err(ContractError::InvalidInput)
                } else {
                    old(self).tiers.book(tier).reserve_failure(offer_id.0, amount) == Some(f)
                }),
            },
    {
        self.tier_caller_checks(amount)?;
        match tier {
            InsuranceTier::Conservative => self.tiers.conservative.reserve(offer_id.0, amount),
            InsuranceTier::Balanced => self.tiers.balanced.reserve(offer_id.0, amount),
            InsuranceTier::Aggressive => self.tiers.aggressive.reserve(offer_id.0, amount),
        }
    }

    /// Consume a tier-specific reservation. Returns `(paid, remaining)`;
    /// `paid` is for the host to transfer to the lender.
    pub fn claim_payout_tier(&mut self, offer_id: Symbol, tier: InsuranceTier, amount: i128) -> (r: Result<(i128, i128), Failure>)
        requires
            old(self).wf(),
        ensures
            final(self).wf(),
            final(self).tiers.others_same(&old(self).tiers, tier),
            *final(self) == (InsuranceContract { tiers: final(self).tiers, ..*old(self) }),
            old(self).tiers_balanced() && r is Ok ==> final(self).tiers_balanced(),
            match r {
                Ok((paid, left)) => !old(self).paused && old(self).payout_caller is Some && amount > 0
                    && TierBook::claim_post(&old(self).tiers.book(tier), &final(self).tiers.book(tier), offer_id.0, amount, paid, left),
                Err(f) => final(self).tiers == old(self).tiers && (if old(self).paused {
                    f == err(ContractError::Paused)
                } else if old(self).payout_caller is None {
                    f == abort(Abort::PayoutCallerNotConfigured)
                } else if amount <= 0 {
                    f == err(ContractError::InvalidInput)
                } else {
                    old(self).tiers.book(tier).claim_failure(offer_id.0, amount) == Some(f)
                }),
            },
    {
        self.tier_caller_checks(amount)?;
        match tier {
            InsuranceTier::Conservative => self.tiers.conservative.claim(offer_id.0, amount),
            InsuranceTier::Balanced => self.tiers.balanced.claim(offer_id.0, amount),
            InsuranceTier::Aggressive => self.tiers.aggressive.claim(offer_id.0, amount),
        }
    }
}

/// In every reachable state of a tier no offer has been paid beyond what it
/// reserved there, and the tier's reserved total is exactly what is still
/// open on its reservations.
pub proof fn law_tier_claims_stay_within_reservations(b: TierBook, k: u64)
    requires
        b.wf(),
    ensures
        0 <= get_or_zero(b.paid@, k) <= get_or_zero(b.reservations@, k),
        b.pool.reserved == open_total(b.reservations.entries(), b.paid@),
        b.pool.reserved >= get_or_zero(b.reservations@, k) - get_or_zero(b.paid@, k),
        b.pool.reserved >= 0,
{
    lemma_open_at_least(b.reservations.entries(), b.paid@, k);
}

} // verus!
