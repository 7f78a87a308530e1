//! The insurance pool: a flat coverage reserve that stakers deposit into and
//! withdraw from, that pays lenders on defaulted invoices, and that accrues
//! a flat, admin-set annual yield on each staker's principal.
//!
//! Token movements are the host's: `stake` is preceded by a pull of the
//! staked amount into the pool, `unstake` is followed by the returned
//! principal and yield transfers, and the payout entry points are followed
//! by a transfer of the returned amount.

use vstd::prelude::*;
use crate::arith::{
    checked_add, checked_mul, checked_sub, checked_tdiv, fits_i128, lemma_sum_insert,
    lemma_sum_remove, lemma_sum_update, lemma_tdiv_fits, min_i128, min_int, sum_entries, sum_ints, tdiv,
};
use crate::governance::{assert_threshold, meets_threshold, valid_signer_set, AdminConfig};
use crate::ordered_map::{entries_map, lemma_entries_map_at, sorted_keys, OrderedMap};
use crate::pro_rata::{
    apply_cuts, cuts_within, lemma_apply_cuts_sum, lemma_pro_rata_bounded, lemma_reduction_keeps_positive,
    nonneg_balances, positive_stakes, pro_rata_cuts, reduce_pro_rata,
};
use crate::reservations::{lemma_open_at_least, lemma_open_paid, lemma_open_set, ledger_consistent, open_total};
use crate::tiers::{InsuranceTier, TierPools};
use crate::version::{version_of, VersionState};
use crate::types::{abort, err, Abort, Address, ContractError, Failure, InvoiceStatus, Symbol};

verus! {

/// Seconds in a 365-day year.
pub const SECONDS_PER_YEAR: u64 = 31_536_000;

/// `SECONDS_PER_YEAR * 10_000`, the denominator of every yield formula.
pub const YIELD_DENOMINATOR: i128 = 315_360_000_000;

pub open spec fn get_or_zero(m: Map<u64, i128>, k: u64) -> int {
    if m.contains_key(k) {
        m[k] as int
    } else {
        0
    }
}

pub open spec fn sat_elapsed(now: u64, start: u64) -> int {
    if now >= start {
        now - start
    } else {
        0
    }
}

/// Flat-pool yield: `principal * elapsed * rate / (10_000 * SECONDS_PER_YEAR)`,
/// multiplied in that order, truncated; `None` where that overflows.
pub open spec fn flat_yield(principal: int, rate: int, elapsed: int) -> Option<int> {
    if principal == 0 || rate == 0 || elapsed == 0 {
        Some(0)
    } else if !fits_i128(principal * elapsed) || !fits_i128(principal * elapsed * rate) {
        None
    } else {
        Some(tdiv(principal * elapsed * rate, YIELD_DENOMINATOR as int))
    }
}

/// Store `v` at `k`, or clear `k` when `v` is zero.
pub open spec fn store_or_clear(m: Map<u64, i128>, k: u64, v: int) -> Map<u64, i128> {
    if v == 0 {
        m.remove(k)
    } else {
        m.insert(k, v as i128)
    }
}

/// Bank the flat yield of the staker `k` since its checkpoint and move the
/// checkpoint to `now`. A staker with no principal is left untouched.
pub open spec fn bank_flat(
    stakes: Map<u64, i128>,
    ts: Map<u64, u64>,
    acc: Map<u64, i128>,
    rate: u32,
    k: u64,
    now: u64,
) -> Option<(Map<u64, u64>, Map<u64, i128>, int)> {
    let principal = get_or_zero(stakes, k);
    if principal == 0 {
        Some((ts, acc, 0))
    } else {
        let start = if ts.contains_key(k) {
            ts[k]
        } else {
            now
        };
        match flat_yield(principal, rate as int, sat_elapsed(now, start)) {
            None => None,
            Some(e) => if e > 0 {
                let prev = get_or_zero(acc, k);
                if fits_i128(prev + e) {
                    Some((ts.insert(k, now), acc.insert(k, (prev + e) as i128), e))
                } else {
                    None
                }
            } else {
                Some((ts.insert(k, now), acc, e))
            },
        }
    }
}

/// Bank every staker of `keys`, in order.
pub open spec fn bank_all(
    stakes: Map<u64, i128>,
    ts: Map<u64, u64>,
    acc: Map<u64, i128>,
    rate: u32,
    keys: Seq<u64>,
    now: u64,
) -> Option<(Map<u64, u64>, Map<u64, i128>)>
    decreases keys.len(),
{
    if keys.len() == 0 {
        Some((ts, acc))
    } else {
        match bank_all(stakes, ts, acc, rate, keys.drop_last(), now) {
            None => None,
            Some((ts1, acc1)) => match bank_flat(stakes, ts1, acc1, rate, keys.last(), now) {
                None => None,
                Some((ts2, acc2, _)) => Some((ts2, acc2)),
            },
        }
    }
}

/// The flat yield accrued by `k` at `now`: banked plus earned since the
/// checkpoint at the current rate.
pub open spec fn accrued_flat(
    stakes: Map<u64, i128>,
    ts: Map<u64, u64>,
    acc: Map<u64, i128>,
    rate: u32,
    k: u64,
    now: u64,
) -> Option<int> {
    let principal = get_or_zero(stakes, k);
    let banked = get_or_zero(acc, k);
    if principal == 0 {
        Some(banked)
    } else {
        let start = if ts.contains_key(k) {
            ts[k]
        } else {
            now
        };
        match flat_yield(principal, rate as int, sat_elapsed(now, start)) {
            None => None,
            Some(e) => if fits_i128(banked + e) {
                Some(banked + e)
            } else {
                None
            },
        }
    }
}

/// Pay `amount` of `pool_total`: the payout is `min(amount, pool_total)`.
pub open spec fn capped_payout(amount: int, pool_total: int) -> int {
    min_int(amount, pool_total)
}

/// Flat-pool yield of `principal` at `rate_bps` over `elapsed_secs`;
/// `None` where the contract's arithmetic overflows.
pub fn try_compute_yield(principal: i128, rate_bps: u32, elapsed_secs: u64) -> (r: Option<i128>)
    ensures
        match r {
            Some(y) => flat_yield(principal as int, rate_bps as int, elapsed_secs as int) == Some(
                y as int,
            ),
            None => flat_yield(principal as int, rate_bps as int, elapsed_secs as int) is None,
        },
{
    if principal == 0 || rate_bps == 0 || elapsed_secs == 0 {
        return Some(0);
    }
    let a = match checked_mul(principal, elapsed_secs as i128) {
        Some(a) => a,
        None => {
            return None;
        },
    };
    let b = match checked_mul(a, rate_bps as i128) {
        Some(b) => b,
        None => {
            return None;
        },
    };
    proof {
        lemma_tdiv_fits(b as int, YIELD_DENOMINATOR as int);
    }
    checked_tdiv(b, YIELD_DENOMINATOR)
}

/// Flat-pool yield of `principal` at `rate_bps` over `elapsed_secs`:
/// `principal * elapsed * rate / (10_000 * SECONDS_PER_YEAR)`, rounded
/// toward zero.
pub fn compute_yield(principal: i128, rate_bps: u32, elapsed_secs: u64) -> (y: i128)
    requires
        flat_yield(principal as int, rate_bps as int, elapsed_secs as int) is Some,
    ensures
        flat_yield(principal as int, rate_bps as int, elapsed_secs as int) == Some(y as int),
{
    match try_compute_yield(principal, rate_bps, elapsed_secs) {
        Some(y) => y,
        None => 0,
    }
}

fn get_i128(m: &OrderedMap<i128>, k: u64) -> (v: i128)
    requires
        m.wf(),
    ensures
        v == get_or_zero(m@, k),
{
    match m.get(k) {
        Some(v) => *v,
        None => 0,
    }
}

/// What `stake` and `unstake` hand to the host.
#[derive(Clone, Copy, Debug, PartialEq, Eq, Structural)]
pub struct Withdrawal {
    /// Principal to transfer back to the staker.
    pub principal: i128,
    /// Banked yield to transfer to the staker (emits `pool_yld` when positive).
    pub yield_paid: i128,
}

/// The insurance contract's state.
pub struct InsuranceContract {
    pub admin: AdminConfig,
    pub token: Address,
    pub payout_caller: Option<Address>,
    pub registry: Option<Address>,
    pub paused: bool,
    /// Annual flat yield rate in basis points.
    pub yield_rate: u32,
    /// Staker -> principal.
    pub stakes: OrderedMap<i128>,
    /// Staker -> yield checkpoint.
    pub stake_ts: OrderedMap<u64>,
    /// Staker -> banked yield.
    pub yield_acc: OrderedMap<i128>,
    /// Accounting total of staked funds.
    pub pool_total: i128,
    /// Sum of the reservations not yet paid out.
    pub total_outstanding: i128,
    /// Offer -> reserved amount.
    pub reserved: OrderedMap<i128>,
    /// Offer -> amount already paid against the reservation.
    pub paid: OrderedMap<i128>,
    /// The three tiered products.
    pub tiers: TierPools,
    /// Committed version and upgrade bookkeeping.
    pub versions: VersionState,
}

impl InsuranceContract {
    /// Well-formed tables, every stake positive, and a consistent
    /// reservation ledger: no offer paid beyond its reservation, and the
    /// outstanding total equal to what is open on all of them.
    pub open spec fn wf(&self) -> bool {
        &&& valid_signer_set(self.admin.signers@, self.admin.threshold)
        &&& self.stakes.wf()
        &&& self.stake_ts.wf()
        &&& self.yield_acc.wf()
        &&& self.reserved.wf()
        &&& self.paid.wf()
        &&& self.tiers.wf()
        &&& self.versions.wf()
        &&& positive_stakes(self.stakes@)
        &&& ledger_consistent(self.reserved.entries(), self.paid@, self.total_outstanding as int)
    }

    /// Accounting matches the stakes: the pool total is the sum of all
    /// staker balances.
    pub open spec fn balanced(&self) -> bool {
        sum_entries(self.stakes.entries()) == self.pool_total
    }

    pub open spec fn stake_of(&self, staker: Address) -> int {
        get_or_zero(self.stakes@, staker.0)
    }

    /// Constructor: single-admin bootstrap config, the staking token, and
    /// the initial version, which must parse.
    pub fn new(admin: Address, token: Address, version: &Vec<u8>) -> (r: Result<InsuranceContract, Failure>)
        ensures
            match r {
                Ok(p) => {
                    &&& version_of(version@) is Some
                    &&& p.wf()
                    &&& p.balanced()
                    &&& p.admin.signers@ == seq![admin]
                    &&& p.admin.threshold == 1
                    &&& p.token == token
                    &&& p.payout_caller is None
                    &&& p.registry is None
                    &&& !p.paused
                    &&& p.yield_rate == 0
                    &&& p.stakes@ == Map::<u64, i128>::empty()
                    &&& p.stake_ts@ == Map::<u64, u64>::empty()
                    &&& p.yield_acc@ == Map::<u64, i128>::empty()
                    &&& p.pool_total == 0
                    &&& p.total_outstanding == 0
                    &&& p.reserved@ == Map::<u64, i128>::empty()
                    &&& p.paid@ == Map::<u64, i128>::empty()
                    &&& p.tiers.conservative.is_fresh(InsuranceTier::Conservative)
                    &&& p.tiers.balanced.is_fresh(InsuranceTier::Balanced)
                    &&& p.tiers.aggressive.is_fresh(InsuranceTier::Aggressive)
                    &&& p.versions.version@ == version@
                    &&& p.versions.previous_version is None
                    &&& p.versions.previous_wasm is None
                    &&& p.versions.pending is None
                },
                Err(f) => version_of(version@) is None && f == err(ContractError::InvalidVersion),
            },
    {
        let versions = VersionState::initialize_contract_version(version)?;
        Ok(InsuranceContract {
            admin: AdminConfig::bootstrap(admin),
            token,
            payout_caller: None,
            registry: None,
            paused: false,
            yield_rate: 0,
            stakes: OrderedMap::new(),
            stake_ts: OrderedMap::new(),
            yield_acc: OrderedMap::new(),
            pool_total: 0,
            total_outstanding: 0,
            reserved: OrderedMap::new(),
            paid: OrderedMap::new(),
            tiers: TierPools::new(),
            versions,
        })
    }

    // ── Admin ───────────────────────────────────────────────────────────────

    pub fn assert_admin(&self, signers: &Vec<Address>) -> (r: Result<(), Failure>)
        ensures
            r is Ok <==> meets_threshold(self.admin.signers@, self.admin.threshold, signers@),
            r is Err ==> r == Err::<(), Failure>(err(ContractError::Unauthorized)),
    {
        assert_threshold(&self.admin, signers)
    }

    fn assert_not_paused(&self) -> (r: Result<(), Failure>)
        ensures
            r is Ok <==> !self.paused,
            r is Err ==> r == Err::<(), Failure>(err(ContractError::Paused)),
    {
        if self.paused {
            Err(Failure::Contract(ContractError::Paused))
        } else {
            Ok(())
        }
    }

    /// Halt the state-mutating entry points that check the pause. Admin only.
    pub fn pause(&mut self, signers: &Vec<Address>) -> (r: Result<(), Failure>)
        ensures
            r is Ok <==> meets_threshold(old(self).admin.signers@, old(self).admin.threshold, signers@),
            r is Ok ==> *final(self) == (InsuranceContract { paused: true, ..*old(self) }),
            r is Err ==> *final(self) == *old(self) && r == Err::<(), Failure>(err(ContractError::Unauthorized)),
    {
        self.assert_admin(signers)?;
        self.paused = true;
        Ok(())
    }

    /// Resume operations. Admin only.
    pub fn unpause(&mut self, signers: &Vec<Address>) -> (r: Result<(), Failure>)
        ensures
            r is Ok <==> meets_threshold(old(self).admin.signers@, old(self).admin.threshold, signers@),
            r is Ok ==> *final(self) == (InsuranceContract { paused: false, ..*old(self) }),
            r is Err ==> *final(self) == *old(self) && r == Err::<(), Failure>(err(ContractError::Unauthorized)),
    {
        self.assert_admin(signers)?;
        self.paused = false;
        Ok(())
    }

    pub fn contract_is_paused(&self) -> (b: bool)
        ensures
            b == self.paused,
    {
        self.paused
    }

    /// Swap the staking token. Admin only.
    pub fn set_staking_token(&mut self, signers: &Vec<Address>, token: Address) -> (r: Result<(), Failure>)
        ensures
            match r {
                Ok(()) => !old(self).paused && meets_threshold(old(self).admin.signers@, old(self).admin.threshold, signers@)
                    && *final(self) == (InsuranceContract { token, ..*old(self) }),
                Err(f) => *final(self) == *old(self) && (if old(self).paused {
                    f == err(ContractError::Paused)
                } else {
                    !meets_threshold(old(self).admin.signers@, old(self).admin.threshold, signers@)
                        && f == err(ContractError::Unauthorized)
                }),
            },
    {
        self.assert_not_paused()?;
        self.assert_admin(signers)?;
        self.token = token;
        Ok(())
    }

    pub fn get_staking_token(&self) -> (t: Address)
        ensures
            t == self.token,
    {
        self.token
    }

    /// Configure the address allowed to trigger payouts. Admin only.
    pub fn set_payout_caller(&mut self, signers: &Vec<Address>, payout_caller: Address) -> (r: Result<(), Failure>)
        ensures
            match r {
                Ok(()) => !old(self).paused && meets_threshold(old(self).admin.signers@, old(self).admin.threshold, signers@)
                    && *final(self) == (InsuranceContract { payout_caller: Some(payout_caller), ..*old(self) }),
                Err(f) => *final(self) == *old(self) && (if old(self).paused {
                    f == err(ContractError::Paused)
                } else {
                    !meets_threshold(old(self).admin.signers@, old(self).admin.threshold, signers@)
                        && f == err(ContractError::Unauthorized)
                }),
            },
    {
        self.assert_not_paused()?;
        self.assert_admin(signers)?;
        self.payout_caller = Some(payout_caller);
        Ok(())
    }

    pub fn get_payout_caller(&self) -> (c: Option<Address>)
        ensures
            c == self.payout_caller,
    {
        self.payout_caller
    }

    /// Configure the registry used to check invoice status on payout. Admin
    /// only; not held back by the pause.
    pub fn set_registry(&mut self, signers: &Vec<Address>, registry: Address) -> (r: Result<(), Failure>)
        ensures
            r is Ok <==> meets_threshold(old(self).admin.signers@, old(self).admin.threshold, signers@),
            r is Ok ==> *final(self) == (InsuranceContract { registry: Some(registry), ..*old(self) }),
            r is Err ==> *final(self) == *old(self) && r == Err::<(), Failure>(err(ContractError::Unauthorized)),
    {
        self.assert_admin(signers)?;
        self.registry = Some(registry);
        Ok(())
    }

    pub fn get_registry(&self) -> (c: Option<Address>)
        ensures
            c == self.registry,
    {
        self.registry
    }

    // ── Yield ───────────────────────────────────────────────────────────────

    pub fn get_yield_rate(&self) -> (r: u32)
        ensures
            r == self.yield_rate,
    {
        self.yield_rate
    }

    /// Bank the yield of `k` since its checkpoint at the current rate.
    fn bank(&mut self, k: u64, now: u64) -> (r: Option<i128>)
        requires
            old(self).wf(),
        ensures
            final(self).wf(),
            match bank_flat(old(self).stakes@, old(self).stake_ts@, old(self).yield_acc@, old(self).yield_rate, k, now) {
                None => r is None,
                Some((ts, acc, e)) => r == Some(e as i128) && final(self).stake_ts@ == ts
                    && final(self).yield_acc@ == acc,
            },
            final(self).stakes == old(self).stakes,
            final(self).pool_total == old(self).pool_total,
            final(self).reserved == old(self).reserved,
            final(self).paid == old(self).paid,
            final(self).tiers == old(self).tiers,
            final(self).admin == old(self).admin,
            final(self).token == old(self).token,
            final(self).payout_caller == old(self).payout_caller,
            final(self).registry == old(self).registry,
            final(self).paused == old(self).paused,
            final(self).yield_rate == old(self).yield_rate,
            final(self).total_outstanding == old(self).total_outstanding,
    {
        let principal = get_i128(&self.stakes, k);
        if principal == 0 {
            return Some(0);
        }
        let start = match self.stake_ts.get(k) {
            Some(t) => *t,
            None => now,
        };
        let elapsed = now.saturating_sub(start);
        let earned = match try_compute_yield(principal, self.yield_rate, elapsed) {
            Some(e) => e,
            None => {
                return None;
            },
        };
        if earned > 0 {
            let prev = get_i128(&self.yield_acc, k);
            let total = match checked_add(prev, earned) {
                Some(t) => t,
                None => {
                    return None;
                },
            };
            self.yield_acc.set(k, total);
        }
        self.stake_ts.set(k, now);
        Some(earned)
    }

    /// Set the annual flat yield rate. Every staker's yield accrued at the
    /// old rate is banked first, so the change is strictly prospective.
    pub fn set_yield_rate(&mut self, signers: &Vec<Address>, rate_bps: u32, now: u64) -> (r: Result<(), Failure>)
        requires
            old(self).wf(),
        ensures
            final(self).wf(),
            match r {
                Ok(()) => {
                    &&& !old(self).paused
                    &&& meets_threshold(old(self).admin.signers@, old(self).admin.threshold, signers@)
                    &&& bank_all(old(self).stakes@, old(self).stake_ts@, old(self).yield_acc@, old(self).yield_rate, old(self).stakes.keys(), now)
                        == Some((final(self).stake_ts@, final(self).yield_acc@))
                    &&& *final(self) == (InsuranceContract {
                        yield_rate: rate_bps,
                        stake_ts: final(self).stake_ts,
                        yield_acc: final(self).yield_acc,
                        ..*old(self)
                    })
                },
                Err(f) => *final(self) == *old(self) && (if old(self).paused {
                    f == err(ContractError::Paused)
                } else if !meets_threshold(old(self).admin.signers@, old(self).admin.threshold, signers@) {
                    f == err(ContractError::Unauthorized)
                } else {
                    f == abort(Abort::ArithmeticOverflow) && bank_all(old(self).stakes@, old(self).stake_ts@, old(self).yield_acc@, old(self).yield_rate, old(self).stakes.keys(), now) is None
                }),
            },
    {
        self.assert_not_paused()?;
        self.assert_admin(signers)?;
        let ghost pre = *self;
        let n = self.stakes.len();
        let mut ts = self.stake_ts.clone_map();
        let mut acc = self.yield_acc.clone_map();
        let mut i: usize = 0;
        while i < n
            invariant
                pre == *old(self),
                !pre.paused,
                meets_threshold(pre.admin.signers@, pre.admin.threshold, signers@),
                self.wf(),
                *self == pre,
                n == pre.stakes.entries().len(),
                i <= n,
                ts.wf(),
                acc.wf(),
                bank_all(pre.stakes@, pre.stake_ts@, pre.yield_acc@, pre.yield_rate, pre.stakes.keys().take(i as int), now) == Some((ts@, acc@)),
            decreases n - i,
        {
            let k = self.stakes.key_at(i);
            let ghost before = (ts@, acc@);
            let r = bank_into(&self.stakes, &mut ts, &mut acc, self.yield_rate, k, now);
            proof {
                assert(pre.stakes.keys().take(i as int + 1).drop_last() =~= pre.stakes.keys().take(i as int));
                assert(pre.stakes.keys().take(i as int + 1).last() == k);
            }
            if r.is_none() {
                proof {
                    lemma_bank_all_none_mono(pre.stakes@, pre.stake_ts@, pre.yield_acc@, pre.yield_rate, pre.stakes.keys(), now, (i + 1) as nat);
                }
                return Err(Failure::Abort(Abort::ArithmeticOverflow));
            }
            i = i + 1;
        }
        proof {
            assert(pre.stakes.keys().take(n as int) =~= pre.stakes.keys());
        }
        self.stake_ts = ts;
        self.yield_acc = acc;
        self.yield_rate = rate_bps;
        Ok(())
    }

    /// Preview of the flat yield accrued by `staker` at `now`.
    pub fn accrued_yield(&self, staker: Address, now: u64) -> (r: Result<i128, Failure>)
        requires
            self.wf(),
        ensures
            match accrued_flat(self.stakes@, self.stake_ts@, self.yield_acc@, self.yield_rate, staker.0, now) {
                Some(y) => r == Ok::<i128, Failure>(y as i128),
                None => r == Err::<i128, Failure>(abort(Abort::ArithmeticOverflow)),
            },
    {
        let k = staker.0;
        let principal = get_i128(&self.stakes, k);
        let banked = get_i128(&self.yield_acc, k);
        if principal == 0 {
            return Ok(banked);
        }
        let start = match self.stake_ts.get(k) {
            Some(t) => *t,
            None => now,
        };
        let elapsed = now.saturating_sub(start);
        let earned = match try_compute_yield(principal, self.yield_rate, elapsed) {
            Some(e) => e,
            None => {
                return Err(Failure::Abort(Abort::ArithmeticOverflow));
            },
        };
        match checked_add(banked, earned) {
            Some(t) => Ok(t),
            None => Err(Failure::Abort(Abort::ArithmeticOverflow)),
        }
    }

    // ── Stake / unstake ─────────────────────────────────────────────────────

    /// Deposit `amount` (already pulled from the staker by the host). A top-up
    /// banks the staker's yield first; a first stake starts its clock.
    pub fn stake(&mut self, staker: Address, amount: i128, now: u64) -> (r: Result<(), Failure>)
        requires
            old(self).wf(),
        ensures
            final(self).wf(),
            old(self).balanced() && r is Ok ==> final(self).balanced(),
            match r {
                Ok(()) => {
                    let k = staker.0;
                    let existing = old(self).stake_of(staker);
                    &&& !old(self).paused
                    &&& amount > 0
                    &&& fits_i128(existing + amount)
                    &&& fits_i128(old(self).pool_total + amount)
                    &&& final(self).stakes@ == old(self).stakes@.insert(k, (existing + amount) as i128)
                    &&& final(self).pool_total == old(self).pool_total + amount
                    &&& (if existing > 0 {
                        bank_flat(old(self).stakes@, old(self).stake_ts@, old(self).yield_acc@, old(self).yield_rate, k, now)
                            matches Some((ts, acc, _)) && final(self).stake_ts@ == ts && final(self).yield_acc@ == acc
                    } else {
                        final(self).stake_ts@ == old(self).stake_ts@.insert(k, now) && final(self).yield_acc == old(self).yield_acc
                    })
                    &&& *final(self) == (InsuranceContract {
                        stakes: final(self).stakes,
                        stake_ts: final(self).stake_ts,
                        yield_acc: final(self).yield_acc,
                        pool_total: final(self).pool_total,
                        ..*old(self)
                    })
                },
                Err(f) => *final(self) == *old(self) && (if old(self).paused {
                    f == err(ContractError::Paused)
                } else if amount <= 0 {
                    f == err(ContractError::InvalidInput)
                } else {
                    f == abort(Abort::ArithmeticOverflow) && ({
                        let existing = old(self).stake_of(staker);
                        ||| (existing > 0 && bank_flat(old(self).stakes@, old(self).stake_ts@, old(self).yield_acc@, old(self).yield_rate, staker.0, now) is None)
                        ||| !fits_i128(existing + amount)
                        ||| !fits_i128(old(self).pool_total + amount)
                    })
                }),
            },
    {
        self.assert_not_paused()?;
        if amount <= 0 {
            return Err(Failure::Contract(ContractError::InvalidInput));
        }
        let k = staker.0;
        let existing = get_i128(&self.stakes, k);
        let new_stake = match checked_add(existing, amount) {
            Some(s) => s,
            None => {
                return Err(Failure::Abort(Abort::ArithmeticOverflow));
            },
        };
        let new_total = match checked_add(self.pool_total, amount) {
            Some(t) => t,
            None => {
                return Err(Failure::Abort(Abort::ArithmeticOverflow));
            },
        };
        let ghost pre = *self;
        if existing > 0 {
            let mut ts = self.stake_ts.clone_map();
            let mut acc = self.yield_acc.clone_map();
            if bank_into(&self.stakes, &mut ts, &mut acc, self.yield_rate, k, now).is_none() {
                return Err(Failure::Abort(Abort::ArithmeticOverflow));
            }
            self.stake_ts = ts;
            self.yield_acc = acc;
        } else {
            self.stake_ts.set(k, now);
        }
        let ghost s0 = self.stakes.entries();
        self.stakes.set(k, new_stake);
        proof {
            lemma_set_sum(s0, self.stakes.entries(), k, new_stake);
        }
        self.pool_total = new_total;
        Ok(())
    }

    /// Withdraw `amount` of principal. Not held back by the pause: unwinding
    /// one's own position stays available in an emergency. The returned
    /// principal and all banked yield are for the host to transfer.
    pub fn unstake(&mut self, staker: Address, amount: i128, now: u64) -> (r: Result<Withdrawal, Failure>)
        requires
            old(self).wf(),
        ensures
            final(self).wf(),
            old(self).balanced() && r is Ok ==> final(self).balanced(),
            match r {
                Ok(w) => {
                    let k = staker.0;
                    let balance = old(self).stake_of(staker);
                    let nb = balance - amount;
                    &&& amount > 0
                    &&& balance >= amount
                    &&& bank_flat(old(self).stakes@, old(self).stake_ts@, old(self).yield_acc@, old(self).yield_rate, k, now)
                        matches Some((ts, acc, _))
                    &&& w.principal == amount
                    &&& w.yield_paid == get_or_zero(acc, k)
                    &&& w.yield_paid == accrued_flat(old(self).stakes@, old(self).stake_ts@, old(self).yield_acc@, old(self).yield_rate, k, now).unwrap()
                    &&& final(self).stakes@ == store_or_clear(old(self).stakes@, k, nb)
                    &&& final(self).stake_ts@ == (if nb == 0 { ts.remove(k) } else { ts })
                    &&& final(self).yield_acc@ == (if nb == 0 { acc.remove(k) } else { acc.insert(k, 0) })
                    &&& final(self).pool_total == old(self).pool_total - amount
                    &&& *final(self) == (InsuranceContract {
                        stakes: final(self).stakes,
                        stake_ts: final(self).stake_ts,
                        yield_acc: final(self).yield_acc,
                        pool_total: final(self).pool_total,
                        ..*old(self)
                    })
                },
                Err(f) => *final(self) == *old(self) && (if amount <= 0 {
                    f == err(ContractError::InvalidInput)
                } else if old(self).stake_of(staker) < amount {
                    f == err(ContractError::InsufficientBalance)
                } else {
                    f == abort(Abort::ArithmeticOverflow)
                        && (bank_flat(old(self).stakes@, old(self).stake_ts@, old(self).yield_acc@, old(self).yield_rate, staker.0, now) is None
                            || !fits_i128(old(self).pool_total - amount))
                }),
            },
    {
        if amount <= 0 {
            return Err(Failure::Contract(ContractError::InvalidInput));
        }
        let k = staker.0;
        let balance = get_i128(&self.stakes, k);
        if balance < amount {
            return Err(Failure::Contract(ContractError::InsufficientBalance));
        }
        let new_total = match checked_sub(self.pool_total, amount) {
            Some(t) => t,
            None => {
                return Err(Failure::Abort(Abort::ArithmeticOverflow));
            },
        };
        let mut ts = self.stake_ts.clone_map();
        let mut acc = self.yield_acc.clone_map();
        if bank_into(&self.stakes, &mut ts, &mut acc, self.yield_rate, k, now).is_none() {
            return Err(Failure::Abort(Abort::ArithmeticOverflow));
        }
        let yield_payout = get_i128(&acc, k);
        proof {
            lemma_bank_matches_accrued(self.stakes@, self.stake_ts@, self.yield_acc@, self.yield_rate, k, now);
        }
        let new_balance = balance - amount;
        let ghost s0 = self.stakes.entries();
        let ghost pre_stakes = self.stakes@;
        if new_balance == 0 {
            self.stakes.remove(k);
            ts.remove(k);
            acc.remove(k);
            proof {
                lemma_remove_sum(s0, self.stakes.entries(), k);
            }
        } else {
            self.stakes.set(k, new_balance);
            acc.set(k, 0);
            proof {
                lemma_set_sum(s0, self.stakes.entries(), k, new_balance);
            }
        }
        self.stake_ts = ts;
        self.yield_acc = acc;
        self.pool_total = new_total;
        Ok(Withdrawal { principal: amount, yield_paid: yield_payout })
    }

    // ── Payouts ─────────────────────────────────────────────────────────────

    /// Pay up to `amount` from the pool on a defaulted invoice, capped at the
    /// pool's balance; every staker's claim shrinks pro rata. `invoice` is
    /// the status the registry reports for the invoice (`None`: not found).
    /// Returns the amount for the host to transfer to the beneficiary.
    pub fn pay_out(&mut self, invoice: Option<InvoiceStatus>, amount: i128) -> (r: Result<i128, Failure>)
        requires
            old(self).wf(),
        ensures
            final(self).wf(),
            old(self).balanced() && r is Ok ==> final(self).balanced(),
            match r {
                Ok(paid) => {
                    &&& !old(self).paused
                    &&& old(self).payout_caller is Some
                    &&& amount > 0
                    &&& old(self).registry is Some
                    &&& invoice == Some(InvoiceStatus::Defaulted)
                    &&& if capped_payout(amount as int, old(self).pool_total as int) <= 0 {
                        paid == 0 && *final(self) == *old(self)
                    } else {
                        let p = capped_payout(amount as int, old(self).pool_total as int);
                        &&& paid == p
                        &&& pro_rata_cuts(old(self).stakes.entries(), p, old(self).pool_total as int) matches Some(cuts)
                        &&& cuts_within(old(self).stakes.entries(), cuts)
                        &&& final(self).stakes.entries() == apply_cuts(old(self).stakes.entries(), cuts, old(self).stakes.entries().len())
                        &&& final(self).pool_total == old(self).pool_total - p
                        &&& *final(self) == (InsuranceContract {
                            stakes: final(self).stakes,
                            pool_total: final(self).pool_total,
                            ..*old(self)
                        })
                    }
                },
                Err(f) => *final(self) == *old(self) && (if old(self).paused {
                    f == err(ContractError::Paused)
                } else if old(self).payout_caller is None {
                    f == abort(Abort::PayoutCallerNotConfigured)
                } else if amount <= 0 {
                    f == err(ContractError::InvalidInput)
                } else if old(self).registry is None {
                    f == abort(Abort::RegistryNotConfigured)
                } else if invoice is None {
                    f == err(ContractError::NotFound)
                } else if invoice != Some(InvoiceStatus::Defaulted) {
                    f == err(ContractError::InvalidTransition)
                } else {
                    f == abort(Abort::ArithmeticOverflow) && pro_rata_cuts(
                        old(self).stakes.entries(),
                        capped_payout(amount as int, old(self).pool_total as int),
                        old(self).pool_total as int,
                    ) is None
                }),
            },
    {
        self.assert_not_paused()?;
        if self.payout_caller.is_none() {
            return Err(Failure::Abort(Abort::PayoutCallerNotConfigured));
        }
        if amount <= 0 {
            return Err(Failure::Contract(ContractError::InvalidInput));
        }
        if self.registry.is_none() {
            return Err(Failure::Abort(Abort::RegistryNotConfigured));
        }
        match invoice {
            None => {
                return Err(Failure::Contract(ContractError::NotFound));
            },
            Some(s) => {
                if s != InvoiceStatus::Defaulted {
                    return Err(Failure::Contract(ContractError::InvalidTransition));
                }
            },
        }
        let pool_total = self.pool_total;
        let payout = min_i128(amount, pool_total);
        if payout <= 0 {
            return Ok(0);
        }
        let new_stakes = match reduce_pro_rata(&self.stakes, payout, pool_total) {
            Some(m) => m,
            None => {
                return Err(Failure::Abort(Abort::ArithmeticOverflow));
            },
        };
        proof {
            lemma_reduction_keeps_positive(self.stakes.entries(), payout as int, pool_total as int);
            lemma_reduction_sum(self.stakes.entries(), payout as int, pool_total as int);
        }
        self.stakes = new_stakes;
        self.pool_total = pool_total - payout;
        Ok(payout)
    }

    /// Why `reserve_payout` fails, in the order the contract checks; `None`
    /// when it succeeds.
    pub open spec fn reserve_failure(&self, k: u64, amount: i128) -> Option<Failure> {
        let available = self.pool_total - self.total_outstanding;
        let want = min_int(amount as int, available);
        if self.paused {
            Some(err(ContractError::Paused))
        } else if self.payout_caller is None {
            Some(abort(Abort::PayoutCallerNotConfigured))
        } else if amount <= 0 {
            Some(err(ContractError::InvalidInput))
        } else if !fits_i128(available) {
            Some(abort(Abort::ArithmeticOverflow))
        } else if want <= 0 {
            None
        } else if !fits_i128(get_or_zero(self.reserved@, k) + want) || !fits_i128(self.total_outstanding + want) {
            Some(abort(Abort::ArithmeticOverflow))
        } else {
            None
        }
    }

    /// Reserve up to `amount` of the unreserved pool for an offer's claim.
    /// Returns the amount reserved.
    pub fn reserve_payout(&mut self, offer_id: Symbol, amount: i128) -> (r: Result<i128, Failure>)
        requires
            old(self).wf(),
        ensures
            final(self).wf(),
            match old(self).reserve_failure(offer_id.0, amount) {
                Some(f) => r == Err::<i128, Failure>(f) && *final(self) == *old(self),
                None => r matches Ok(got) && {
                    let available = old(self).pool_total - old(self).total_outstanding;
                    let want = min_int(amount as int, available);
                    if want <= 0 {
                        got == 0 && *final(self) == *old(self)
                    } else {
                        &&& got == want
                        &&& final(self).reserved@ == store_or_clear(
                            old(self).reserved@,
                            offer_id.0,
                            get_or_zero(old(self).reserved@, offer_id.0) + want,
                        )
                        &&& final(self).total_outstanding == old(self).total_outstanding + want
                        &&& *final(self) == (InsuranceContract {
                            reserved: final(self).reserved,
                            total_outstanding: final(self).total_outstanding,
                            ..*old(self)
                        })
                    }
                },
            },
    {
        self.assert_not_paused()?;
        if self.payout_caller.is_none() {
            return Err(Failure::Abort(Abort::PayoutCallerNotConfigured));
        }
        if amount <= 0 {
            return Err(Failure::Contract(ContractError::InvalidInput));
        }
        let available = match checked_sub(self.pool_total, self.total_outstanding) {
            Some(a) => a,
            None => {
                return Err(Failure::Abort(Abort::ArithmeticOverflow));
            },
        };
        let reserved = min_i128(amount, available);
        if reserved <= 0 {
            return Ok(0);
        }
        let k = offer_id.0;
        let prev = get_i128(&self.reserved, k);
        let new_reserved = match checked_add(prev, reserved) {
            Some(v) => v,
            None => {
                return Err(Failure::Abort(Abort::ArithmeticOverflow));
            },
        };
        let new_outstanding = match checked_add(self.total_outstanding, reserved) {
            Some(v) => v,
            None => {
                return Err(Failure::Abort(Abort::ArithmeticOverflow));
            },
        };
        proof {
            assert(0 <= get_or_zero(self.paid@, k) <= get_or_zero(self.reserved@, k));
        }
        let ghost s0 = self.reserved.entries();
        self.reserved.set(k, new_reserved);
        proof {
            lemma_open_set(s0, self.reserved.entries(), k, new_reserved, self.paid@);
            assert forall|j: u64| 0 <= #[trigger] get_or_zero(self.paid@, j) <= get_or_zero(self.reserved@, j) by {
                assert(0 <= get_or_zero(self.paid@, j) <= get_or_zero(old(self).reserved@, j));
            }
        }
        self.total_outstanding = new_outstanding;
        Ok(reserved)
    }

    /// Why `claim_payout` fails, in the order the contract checks; `None`
    /// when it succeeds.
    pub open spec fn claim_failure(&self, k: u64, amount: i128) -> Option<Failure> {
        let before = get_or_zero(self.paid@, k);
        let remaining = get_or_zero(self.reserved@, k) - before;
        let outside = self.total_outstanding - remaining;
        let available = self.pool_total - outside;
        let p = min_int(min_int(amount as int, remaining), available);
        if self.paused {
            Some(err(ContractError::Paused))
        } else if self.payout_caller is None {
            Some(abort(Abort::PayoutCallerNotConfigured))
        } else if amount <= 0 {
            Some(err(ContractError::InvalidInput))
        } else if !fits_i128(remaining) {
            Some(abort(Abort::ArithmeticOverflow))
        } else if remaining <= 0 {
            Some(err(ContractError::InsufficientBalance))
        } else if !fits_i128(outside) || !fits_i128(available) {
            Some(abort(Abort::ArithmeticOverflow))
        } else if p <= 0 {
            None
        } else if !fits_i128(before + p) || !fits_i128(self.total_outstanding - p) || !fits_i128(self.pool_total - p)
            || pro_rata_cuts(self.stakes.entries(), p, self.pool_total as int) is None {
            Some(abort(Abort::ArithmeticOverflow))
        } else {
            None
        }
    }

    /// Claim up to `amount` against an offer's reservation, bounded by what
    /// is left of it and by the pool. Returns `(paid, remaining_reserved)`;
    /// `paid` is for the host to transfer to the lender.
    pub fn claim_payout(&mut self, offer_id: Symbol, amount: i128) -> (r: Result<(i128, i128), Failure>)
        requires
            old(self).wf(),
        ensures
            final(self).wf(),
            old(self).balanced() && r is Ok ==> final(self).balanced(),
            match old(self).claim_failure(offer_id.0, amount) {
                Some(f) => r == Err::<(i128, i128), Failure>(f) && *final(self) == *old(self),
                None => r matches Ok((paid, left)) && {
                    let k = offer_id.0;
                    let remaining = get_or_zero(old(self).reserved@, k) - get_or_zero(old(self).paid@, k);
                    let claim = min_int(amount as int, remaining);
                    let available = old(self).pool_total - (old(self).total_outstanding - remaining);
                    let p = min_int(claim, available);
                    if p <= 0 {
                        paid == 0 && left == remaining && *final(self) == *old(self)
                    } else {
                        &&& paid == p
                        &&& left == remaining - p
                        &&& final(self).paid@ == store_or_clear(old(self).paid@, k, get_or_zero(old(self).paid@, k) + p)
                        &&& final(self).total_outstanding == old(self).total_outstanding - p
                        &&& pro_rata_cuts(old(self).stakes.entries(), p, old(self).pool_total as int) matches Some(cuts)
                        &&& cuts_within(old(self).stakes.entries(), cuts)
                        &&& final(self).stakes.entries() == apply_cuts(old(self).stakes.entries(), cuts, old(self).stakes.entries().len())
                        &&& final(self).pool_total == old(self).pool_total - p
                        &&& *final(self) == (InsuranceContract {
                            paid: final(self).paid,
                            total_outstanding: final(self).total_outstanding,
                            stakes: final(self).stakes,
                            pool_total: final(self).pool_total,
                            ..*old(self)
                        })
                    }
                },
            },
    {
        self.assert_not_paused()?;
        if self.payout_caller.is_none() {
            return Err(Failure::Abort(Abort::PayoutCallerNotConfigured));
        }
        if amount <= 0 {
            return Err(Failure::Contract(ContractError::InvalidInput));
        }
        let k = offer_id.0;
        let reserved = get_i128(&self.reserved, k);
        let already_paid = get_i128(&self.paid, k);
        let remaining = match checked_sub(reserved, already_paid) {
            Some(v) => v,
            None => {
                return Err(Failure::Abort(Abort::ArithmeticOverflow));
            },
        };
        if remaining <= 0 {
            return Err(Failure::Contract(ContractError::InsufficientBalance));
        }
        let claim_amount = min_i128(amount, remaining);
        let outside = match checked_sub(self.total_outstanding, remaining) {
            Some(v) => v,
            None => {
                return Err(Failure::Abort(Abort::ArithmeticOverflow));
            },
        };
        let pool_total = self.pool_total;
        let pool_available = match checked_sub(pool_total, outside) {
            Some(v) => v,
            None => {
                return Err(Failure::Abort(Abort::ArithmeticOverflow));
            },
        };
        let paid = min_i128(claim_amount, pool_available);
        if paid <= 0 {
            return Ok((0, remaining));
        }
        let new_paid = match checked_add(already_paid, paid) {
            Some(v) => v,
            None => {
                return Err(Failure::Abort(Abort::ArithmeticOverflow));
            },
        };
        let new_outstanding = match checked_sub(self.total_outstanding, paid) {
            Some(v) => v,
            None => {
                return Err(Failure::Abort(Abort::ArithmeticOverflow));
            },
        };
        let new_total = match checked_sub(pool_total, paid) {
            Some(v) => v,
            None => {
                return Err(Failure::Abort(Abort::ArithmeticOverflow));
            },
        };
        let new_stakes = match reduce_pro_rata(&self.stakes, paid, pool_total) {
            Some(m) => m,
            None => {
                return Err(Failure::Abort(Abort::ArithmeticOverflow));
            },
        };
        proof {
            lemma_open_at_least(self.reserved.entries(), self.paid@, k);
            lemma_reduction_keeps_positive(self.stakes.entries(), paid as int, pool_total as int);
            lemma_reduction_sum(self.stakes.entries(), paid as int, pool_total as int);
            assert(self.reserved@.contains_key(k));
            lemma_open_paid(self.reserved.entries(), self.paid@, k, new_paid);
        }
        let ghost paid_before = self.paid@;
        store_or_clear_exec(&mut self.paid, k, new_paid);
        proof {
            assert(self.paid@ == paid_before.insert(k, new_paid));
            assert forall|j: u64| 0 <= #[trigger] get_or_zero(self.paid@, j) <= get_or_zero(self.reserved@, j) by {
                assert(0 <= get_or_zero(paid_before, j) <= get_or_zero(self.reserved@, j));
            }
        }
        self.total_outstanding = new_outstanding;
        self.stakes = new_stakes;
        self.pool_total = new_total;
        Ok((paid, remaining - paid))
    }

    pub fn get_reserved(&self, offer_id: Symbol) -> (v: i128)
        requires
            self.wf(),
        ensures
            v == get_or_zero(self.reserved@, offer_id.0),
    {
        get_i128(&self.reserved, offer_id.0)
    }

    pub fn get_paid(&self, offer_id: Symbol) -> (v: i128)
        requires
            self.wf(),
        ensures
            v == get_or_zero(self.paid@, offer_id.0),
    {
        get_i128(&self.paid, offer_id.0)
    }

    /// The staker's staked balance (0 if never staked).
    pub fn get_stake(&self, staker: Address) -> (v: i128)
        requires
            self.wf(),
        ensures
            v == self.stake_of(staker),
    {
        get_i128(&self.stakes, staker.0)
    }

    /// The accounting total of all staked tokens.
    pub fn get_pool_total(&self) -> (v: i128)
        ensures
            v == self.pool_total,
    {
        self.pool_total
    }

    /// Number of addresses holding a stake entry.
    pub fn get_stakers_count(&self) -> (n: usize)
        ensures
            n == self.stakes.entries().len(),
    {
        self.stakes.len()
    }
}

/// Bank the flat yield of `k` into `ts` and `acc`.
fn bank_into(
    stakes: &OrderedMap<i128>,
    ts: &mut OrderedMap<u64>,
    acc: &mut OrderedMap<i128>,
    rate: u32,
    k: u64,
    now: u64,
) -> (r: Option<i128>)
    requires
        stakes.wf(),
        old(ts).wf(),
        old(acc).wf(),
    ensures
        final(ts).wf(),
        final(acc).wf(),
        match bank_flat(stakes@, old(ts)@, old(acc)@, rate, k, now) {
            None => r is None,
            Some((t, a, e)) => r == Some(e as i128) && final(ts)@ == t && final(acc)@ == a,
        },
{
    let principal = get_i128(stakes, k);
    if principal == 0 {
        return Some(0);
    }
    let start = match ts.get(k) {
        Some(t) => *t,
        None => now,
    };
    let elapsed = now.saturating_sub(start);
    let earned = match try_compute_yield(principal, rate, elapsed) {
        Some(e) => e,
        None => {
            return None;
        },
    };
    if earned > 0 {
        let prev = get_i128(acc, k);
        let total = match checked_add(prev, earned) {
            Some(t) => t,
            None => {
                return None;
            },
        };
        acc.set(k, total);
    }
    ts.set(k, now);
    Some(earned)
}

fn store_or_clear_exec(m: &mut OrderedMap<i128>, k: u64, v: i128)
    requires
        old(m).wf(),
    ensures
        final(m).wf(),
        final(m)@ == store_or_clear(old(m)@, k, v as int),
{
    if v == 0 {
        m.remove(k);
    } else {
        m.set(k, v);
    }
}

proof fn lemma_bank_all_none_mono(
    stakes: Map<u64, i128>,
    ts: Map<u64, u64>,
    acc: Map<u64, i128>,
    rate: u32,
    keys: Seq<u64>,
    now: u64,
    k: nat,
)
    requires
        k <= keys.len(),
        bank_all(stakes, ts, acc, rate, keys.take(k as int), now) is None,
    ensures
        bank_all(stakes, ts, acc, rate, keys, now) is None,
    decreases keys.len() - k,
{
    if k < keys.len() {
        assert(keys.take(k as int + 1).drop_last() =~= keys.take(k as int));
        lemma_bank_all_none_mono(stakes, ts, acc, rate, keys, now, k + 1);
    } else {
        assert(keys.take(k as int) =~= keys);
    }
}

/// Banking then reading the banked amount gives the accrued-yield preview.
proof fn lemma_bank_matches_accrued(
    stakes: Map<u64, i128>,
    ts: Map<u64, u64>,
    acc: Map<u64, i128>,
    rate: u32,
    k: u64,
    now: u64,
)
    requires
        bank_flat(stakes, ts, acc, rate, k, now) is Some,
        get_or_zero(stakes, k) >= 0,
    ensures
        accrued_flat(stakes, ts, acc, rate, k, now) == Some(get_or_zero(bank_flat(stakes, ts, acc, rate, k, now).unwrap().1, k)),
{
}

/// After `set(k, v)`, the sum of a sorted entry sequence moves by
/// `v - old[k]`.
pub proof fn lemma_set_sum(s0: Seq<(u64, i128)>, s1: Seq<(u64, i128)>, k: u64, v: i128)
    requires
        sorted_keys(s0),
        entries_map(s0).contains_key(k) ==> exists|i: int|
            0 <= i < s0.len() && s0[i].0 == k && s1 == s0.update(i, (k, v)),
        !entries_map(s0).contains_key(k) ==> exists|i: int| 0 <= i <= s0.len() && s1 == s0.insert(i, (k, v)),
    ensures
        sum_entries(s1) == sum_entries(s0) - get_or_zero(entries_map(s0), k) + v,
{
    if entries_map(s0).contains_key(k) {
        let i = choose|i: int| 0 <= i < s0.len() && s0[i].0 == k && s1 == s0.update(i, (k, v));
        lemma_entries_map_at(s0, i);
        lemma_sum_update(s0, i, (k, v));
    } else {
        let i = choose|i: int| 0 <= i <= s0.len() && s1 == s0.insert(i, (k, v));
        lemma_sum_insert(s0, i, (k, v));
    }
}

pub proof fn lemma_remove_sum(s0: Seq<(u64, i128)>, s1: Seq<(u64, i128)>, k: u64)
    requires
        sorted_keys(s0),
        entries_map(s0).contains_key(k) ==> exists|i: int|
            0 <= i < s0.len() && s0[i].0 == k && s1 == s0.remove(i),
        !entries_map(s0).contains_key(k) ==> s1 == s0,
    ensures
        sum_entries(s1) == sum_entries(s0) - get_or_zero(entries_map(s0), k),
{
    if entries_map(s0).contains_key(k) {
        let i = choose|i: int| 0 <= i < s0.len() && s0[i].0 == k && s1 == s0.remove(i);
        lemma_entries_map_at(s0, i);
        lemma_sum_remove(s0, i);
    }
}

/// A successful pro-rata reduction of non-negative balances that cover the
/// payout, out of a pool that holds at least the payout, lowers the sum of
/// balances by exactly the payout; an empty pool stays empty.
pub proof fn lemma_reduction_sum(s: Seq<(u64, i128)>, payout: int, denom: int)
    requires
        pro_rata_cuts(s, payout, denom) is Some,
    ensures
        s.len() > 0 && nonneg_balances(s) && 0 < denom && 0 <= payout <= denom && payout <= sum_entries(s)
            ==> sum_entries(apply_cuts(s, pro_rata_cuts(s, payout, denom).unwrap(), s.len())) == sum_entries(s) - payout,
        s.len() == 0 ==> apply_cuts(s, pro_rata_cuts(s, payout, denom).unwrap(), s.len()) == Seq::<(u64, i128)>::empty(),
{
    let cuts = pro_rata_cuts(s, payout, denom).unwrap();
    if s.len() > 0 && nonneg_balances(s) && 0 < denom && 0 <= payout <= denom && payout <= sum_entries(s) {
        lemma_pro_rata_bounded(s, payout, denom);
        let sh = crate::pro_rata::cuts_upto(s, payout, denom, s.len()).unwrap();
        assert forall|i: int| 0 <= i < s.len() implies fits_i128(s[i].1 - cuts[i]) by {
            assert(cuts[i] == crate::pro_rata::capped_cut(s, sh, i));
        }
        lemma_apply_cuts_sum(s, cuts, s.len());
        assert(s.take(s.len() as int) =~= s);
        assert(cuts.take(s.len() as int) =~= cuts);
    }
}

/// `ts` and `acc` hold the same checkpoint and banked yield for `k` as
/// `ts2` and `acc2`.
pub open spec fn same_at(ts: Map<u64, u64>, acc: Map<u64, i128>, ts2: Map<u64, u64>, acc2: Map<u64, i128>, k: u64) -> bool {
    &&& ts.contains_key(k) == ts2.contains_key(k)
    &&& ts.contains_key(k) ==> ts[k] == ts2[k]
    &&& get_or_zero(acc, k) == get_or_zero(acc2, k)
}

/// Banking one staker leaves every other staker's books alone.
proof fn lemma_bank_flat_other(
    stakes: Map<u64, i128>,
    ts: Map<u64, u64>,
    acc: Map<u64, i128>,
    rate: u32,
    j: u64,
    now: u64,
    k: u64,
)
    requires
        bank_flat(stakes, ts, acc, rate, j, now) is Some,
        k != j,
    ensures
        same_at(bank_flat(stakes, ts, acc, rate, j, now).unwrap().0, bank_flat(stakes, ts, acc, rate, j, now).unwrap().1, ts, acc, k),
{
}

/// Banking a staker only reads that staker's own books.
proof fn lemma_bank_flat_local(
    stakes: Map<u64, i128>,
    ts: Map<u64, u64>,
    acc: Map<u64, i128>,
    ts2: Map<u64, u64>,
    acc2: Map<u64, i128>,
    rate: u32,
    k: u64,
    now: u64,
)
    requires
        same_at(ts, acc, ts2, acc2, k),
    ensures
        bank_flat(stakes, ts, acc, rate, k, now) is Some <==> bank_flat(stakes, ts2, acc2, rate, k, now) is Some,
        bank_flat(stakes, ts, acc, rate, k, now) is Some ==> same_at(
            bank_flat(stakes, ts, acc, rate, k, now).unwrap().0,
            bank_flat(stakes, ts, acc, rate, k, now).unwrap().1,
            bank_flat(stakes, ts2, acc2, rate, k, now).unwrap().0,
            bank_flat(stakes, ts2, acc2, rate, k, now).unwrap().1,
            k,
        ),
{
}

/// What banking every key of `keys` leaves at `k`: the books of a key that is
/// not in `keys` are untouched, and a key in `keys` (once) is banked once.
proof fn lemma_bank_all_at(
    stakes: Map<u64, i128>,
    ts: Map<u64, u64>,
    acc: Map<u64, i128>,
    rate: u32,
    keys: Seq<u64>,
    now: u64,
    k: u64,
)
    requires
        bank_all(stakes, ts, acc, rate, keys, now) is Some,
        keys.no_duplicates(),
    ensures
        !keys.contains(k) ==> same_at(bank_all(stakes, ts, acc, rate, keys, now).unwrap().0, bank_all(stakes, ts, acc, rate, keys, now).unwrap().1, ts, acc, k),
        keys.contains(k) ==> bank_flat(stakes, ts, acc, rate, k, now) is Some && same_at(
            bank_all(stakes, ts, acc, rate, keys, now).unwrap().0,
            bank_all(stakes, ts, acc, rate, keys, now).unwrap().1,
            bank_flat(stakes, ts, acc, rate, k, now).unwrap().0,
            bank_flat(stakes, ts, acc, rate, k, now).unwrap().1,
            k,
        ),
    decreases keys.len(),
{
    if keys.len() > 0 {
        let init = keys.drop_last();
        let last = keys.last();
        assert(init.no_duplicates());
        lemma_bank_all_at(stakes, ts, acc, rate, init, now, k);
        let (ts1, acc1) = bank_all(stakes, ts, acc, rate, init, now).unwrap();
        if k == last {
            assert(!init.contains(k)) by {
                if init.contains(k) {
                    let i = choose|i: int| 0 <= i < init.len() && init[i] == k;
                    assert(keys[i] == keys[keys.len() - 1]);
                }
            }
            lemma_bank_flat_local(stakes, ts1, acc1, ts, acc, rate, k, now);
        } else {
            lemma_bank_flat_other(stakes, ts1, acc1, rate, last, now, k);
            if keys.contains(k) {
                let i = choose|i: int| 0 <= i < keys.len() && keys[i] == k;
                assert(init[i] == k);
            }
            if init.contains(k) {
                let i = choose|i: int| 0 <= i < init.len() && init[i] == k;
                assert(keys[i] == k);
            }
        }
    }
}

/// The keys of a sorted map occur once each.
proof fn lemma_keys_distinct(m: &OrderedMap<i128>)
    requires
        m.wf(),
    ensures
        m.keys().no_duplicates(),
{
    assert forall|i: int, j: int| 0 <= i < m.keys().len() && 0 <= j < m.keys().len() && i != j implies m.keys()[i] != m.keys()[j] by {
        if i < j {
            assert(m.entries()[i].0 < m.entries()[j].0);
        } else {
            assert(m.entries()[j].0 < m.entries()[i].0);
        }
    }
}

/// Changing the yield rate is strictly prospective: right after
/// `set_yield_rate` banks every staker, each staker's accrued yield is what
/// it was just before the change, whatever the new rate.
pub proof fn law_rate_change_is_prospective(pre: &InsuranceContract, post: &InsuranceContract, staker: Address, now: u64)
    requires
        pre.wf(),
        post.stakes == pre.stakes,
        bank_all(pre.stakes@, pre.stake_ts@, pre.yield_acc@, pre.yield_rate, pre.stakes.keys(), now)
            == Some((post.stake_ts@, post.yield_acc@)),
        pre.stake_of(staker) >= 0,
        accrued_flat(pre.stakes@, pre.stake_ts@, pre.yield_acc@, pre.yield_rate, staker.0, now) is Some,
    ensures
        accrued_flat(post.stakes@, post.stake_ts@, post.yield_acc@, post.yield_rate, staker.0, now)
            == accrued_flat(pre.stakes@, pre.stake_ts@, pre.yield_acc@, pre.yield_rate, staker.0, now),
{
    let k = staker.0;
    lemma_keys_distinct(&pre.stakes);
    lemma_bank_all_at(pre.stakes@, pre.stake_ts@, pre.yield_acc@, pre.yield_rate, pre.stakes.keys(), now, k);
    if pre.stakes@.contains_key(k) {
        let i = choose|i: int| 0 <= i < pre.stakes.entries().len() && pre.stakes.entries()[i].0 == k;
        assert(pre.stakes.keys()[i] == k);
        assert(pre.stakes.keys().contains(k));
    } else {
        assert(!pre.stakes.keys().contains(k)) by {
            if pre.stakes.keys().contains(k) {
                let i = choose|i: int| 0 <= i < pre.stakes.keys().len() && pre.stakes.keys()[i] == k;
                lemma_entries_map_at(pre.stakes.entries(), i);
            }
        }
    }
}

/// In every reachable state of the flat pool no offer has been paid beyond
/// what it reserved, and the outstanding total is exactly what is still
/// open on all reservations, so it covers what is open on any one of them.
pub proof fn law_claims_stay_within_reservations(c: InsuranceContract, k: u64)
    requires
        c.wf(),
    ensures
        0 <= get_or_zero(c.paid@, k) <= get_or_zero(c.reserved@, k),
        c.total_outstanding == open_total(c.reserved.entries(), c.paid@),
        c.total_outstanding >= get_or_zero(c.reserved@, k) - get_or_zero(c.paid@, k),
        c.total_outstanding >= 0,
{
    lemma_open_at_least(c.reserved.entries(), c.paid@, k);
}

/// No staker's stake is ever zero or negative in a reachable state: payouts
/// take from each stake at most all of it, and a stake that reaches zero
/// leaves the pool.
pub proof fn law_stakes_stay_positive(c: InsuranceContract, staker: Address)
    requires
        c.wf(),
    ensures
        c.stakes@.contains_key(staker.0) ==> c.stakes@[staker.0] > 0,
        c.stake_of(staker) >= 0,
{
}

} // verus!
