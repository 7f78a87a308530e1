//! The invoice registry: invoices and their lifecycle, yield rates, the
//! protocol fee, the blacklist, and the verification oracle's trusted
//! verifier set and attestations.
//!
//! The host authenticates callers and supplies the ledger time; token
//! transfers and events are handed back as values.

use vstd::prelude::*;
use crate::address_list::{
    contains_address, copy_addresses, lemma_push_no_duplicates, lemma_without_no_duplicates,
    no_duplicates, remove_address, without,
};
use crate::arith::{checked_mul, checked_tdiv, fits_i128, lemma_tdiv_fits, tdiv};
use crate::currency::CurrencyRegistry;
use crate::paging::page;
use crate::lifecycle::{appended_bounded, is_terminal, transition_allowed, TransitionLog};
use crate::oracle::{
    eviction_victim, evict_one_slot, invoice_status, invoice_status_of, lapses_recorded,
    count_unrecorded_lapses, record_lapses, remove_own, type_status, type_status_of, without_own,
};
use crate::ordered_map::OrderedMap;
use crate::types::{
    abort, err, Abort, Address, Attestation, ContractError, Failure, Hash32, Invoice,
    InvoiceStatus, ProtocolStats, RiskTier, Symbol, TransitionRecord, VerificationStatus,
    VerificationType, DEFAULT_ATTESTATION_VALIDITY_SECS, MAX_ATTESTATIONS_PER_INVOICE,
    MAX_ATTESTATION_VALIDITY_SECS, MAX_PROTOCOL_FEE_BPS, MAX_VERIFICATION_FEE_BPS, MAX_VERIFIERS,
    MIN_ATTESTATION_VALIDITY_SECS, MIN_INVOICE_AMOUNT,
};

verus! {

/// Yield rate per risk tier, in basis points; `None` until set.
#[derive(Clone, Copy, Debug, PartialEq, Eq, Structural)]
pub struct TierRates {
    pub a: Option<u32>,
    pub b: Option<u32>,
    pub c: Option<u32>,
}

impl TierRates {
    pub open spec fn rate(self, tier: RiskTier) -> Option<u32> {
        match tier {
            RiskTier::A => self.a,
            RiskTier::B => self.b,
            RiskTier::C => self.c,
        }
    }

    pub open spec fn with_rate(self, tier: RiskTier, rate: u32) -> TierRates {
        match tier {
            RiskTier::A => TierRates { a: Some(rate), ..self },
            RiskTier::B => TierRates { b: Some(rate), ..self },
            RiskTier::C => TierRates { c: Some(rate), ..self },
        }
    }
}

/// A selection of invoices.
#[derive(Clone, Copy, Debug, PartialEq, Eq, Structural)]
pub enum InvoiceQuery {
    All,
    Status(InvoiceStatus),
    Originator(Address),
    Currency(Symbol),
    /// Pending or Financed, due strictly before the timestamp.
    OpenDueBefore(u64),
}

impl InvoiceQuery {
    pub open spec fn matches(self, inv: Invoice) -> bool {
        match self {
            InvoiceQuery::All => true,
            InvoiceQuery::Status(s) => inv.status == s,
            InvoiceQuery::Originator(o) => inv.originator == o,
            InvoiceQuery::Currency(c) => inv.currency == c,
            InvoiceQuery::OpenDueBefore(t) => (inv.status == InvoiceStatus::Pending || inv.status == InvoiceStatus::Financed)
                && inv.due_date < t,
        }
    }

    fn is_match(&self, inv: &Invoice) -> (b: bool)
        ensures
            b == self.matches(*inv),
    {
        match self {
            InvoiceQuery::All => true,
            InvoiceQuery::Status(s) => inv.status == *s,
            InvoiceQuery::Originator(o) => inv.originator == *o,
            InvoiceQuery::Currency(c) => inv.currency == *c,
            InvoiceQuery::OpenDueBefore(t) => (inv.status == InvoiceStatus::Pending || inv.status == InvoiceStatus::Financed)
                && inv.due_date < *t,
        }
    }
}

/// What an accepted attestation hands to the host: the record stored, the
/// fee to pull from the originator to the verifier in `fee_token` (none
/// when the fee is zero), and the verdict the type reached, when this
/// attestation moved it to Verified or Rejected.
#[derive(Clone, Copy, Debug, PartialEq, Eq)]
pub struct AttestOutcome {
    pub attestation: Attestation,
    pub fee: i128,
    pub fee_token: Option<Address>,
    pub verdict: Option<VerificationStatus>,
}

/// Each verifier holds at most one record per verification type.
pub open spec fn one_per_verifier_and_type(s: Seq<Attestation>) -> bool {
    forall|i: int, j: int| 0 <= i < j < s.len() ==> !(#[trigger] s[i].verifier == #[trigger] s[j].verifier && s[i].v_type == s[j].v_type)
}

/// The registry contract's state.
pub struct RegistryContract {
    pub admin: Address,
    pub financing: Option<Address>,
    pub repayment: Option<Address>,
    pub paused: bool,
    pub rates: TierRates,
    pub fee_bps: u32,
    /// Invoice id -> invoice.
    pub invoices: OrderedMap<Invoice>,
    pub stats: ProtocolStats,
    pub blacklist: Vec<Address>,
    /// The trusted verifier set, in order of admission.
    pub verifiers: Vec<Address>,
    /// Configured verifier threshold; `None` means 1.
    pub verifier_threshold: Option<u32>,
    pub verification_fee_bps: u32,
    /// Configured attestation validity; `None` means 90 days.
    pub attestation_validity: Option<u64>,
    pub currencies: CurrencyRegistry,
    /// Invoice id -> attestations, oldest first.
    pub verifications: OrderedMap<Vec<Attestation>>,
    pub transitions: TransitionLog,
}

impl RegistryContract {
    pub open spec fn wf(&self) -> bool {
        &&& self.invoices.wf()
        &&& self.currencies.wf()
        &&& self.verifications.wf()
        &&& self.transitions.wf()
        &&& no_duplicates(self.blacklist@)
        &&& no_duplicates(self.verifiers@)
        &&& self.verifiers@.len() <= MAX_VERIFIERS
        &&& forall|k: u64| #[trigger] self.verifications@.contains_key(k) ==> {
            &&& self.verifications@[k]@.len() <= MAX_ATTESTATIONS_PER_INVOICE
            &&& one_per_verifier_and_type(self.verifications@[k]@)
        }
    }

    pub open spec fn threshold(&self) -> u32 {
        match self.verifier_threshold {
            Some(t) => t,
            None => 1,
        }
    }

    pub open spec fn validity(&self) -> u64 {
        match self.attestation_validity {
            Some(v) => v,
            None => DEFAULT_ATTESTATION_VALIDITY_SECS,
        }
    }

    /// The attestations of invoice `k`, oldest first.
    pub open spec fn attestations_of(&self, k: u64) -> Seq<Attestation> {
        if self.verifications@.contains_key(k) {
            self.verifications@[k]@
        } else {
            Seq::empty()
        }
    }

    pub open spec fn admin_failure(&self, caller: Address) -> Option<Failure> {
        if self.paused {
            Some(err(ContractError::Paused))
        } else if caller != self.admin {
            Some(err(ContractError::Unauthorized))
        } else {
            None
        }
    }

    /// Constructor: sets the admin.
    pub fn new(admin: Address) -> (r: RegistryContract)
        ensures
            r.wf(),
            r.admin == admin,
            r.financing is None,
            r.repayment is None,
            !r.paused,
            r.rates == (TierRates { a: None, b: None, c: None }),
            r.fee_bps == 0,
            r.invoices@ == Map::<u64, Invoice>::empty(),
            r.stats == ProtocolStats::spec_zero(),
            r.blacklist@ == Seq::<Address>::empty(),
            r.verifiers@ == Seq::<Address>::empty(),
            r.threshold() == 1,
            r.verification_fee_bps == 0,
            r.validity() == DEFAULT_ATTESTATION_VALIDITY_SECS,
            r.currencies@ == Map::<u64, Address>::empty(),
            r.verifications@ == Map::<u64, Vec<Attestation>>::empty(),
            forall|k: u64| r.transitions.history(k) == Seq::<TransitionRecord>::empty(),
    {
        RegistryContract {
            admin,
            financing: None,
            repayment: None,
            paused: false,
            rates: TierRates { a: None, b: None, c: None },
            fee_bps: 0,
            invoices: OrderedMap::new(),
            stats: ProtocolStats::zero(),
            blacklist: Vec::new(),
            verifiers: Vec::new(),
            verifier_threshold: None,
            verification_fee_bps: 0,
            attestation_validity: None,
            currencies: CurrencyRegistry::new(),
            verifications: OrderedMap::new(),
            transitions: TransitionLog::new(),
        }
    }

    fn check_not_paused(&self) -> (r: Result<(), Failure>)
        ensures
            r is Ok <==> !self.paused,
            r is Err ==> r == Err::<(), Failure>(err(ContractError::Paused)),
    {
        if self.paused {
            Err(Failure::Contract(ContractError::Paused))
        } else {
            Ok(())
        }
    }

    fn check_admin(&self, caller: Address) -> (r: Result<(), Failure>)
        ensures
            r is Ok <==> caller == self.admin,
            r is Err ==> r == Err::<(), Failure>(err(ContractError::Unauthorized)),
    {
        if caller != self.admin {
            Err(Failure::Contract(ContractError::Unauthorized))
        } else {
            Ok(())
        }
    }

    /// The admin address.
    pub fn get_admin(&self) -> (a: Address)
        ensures
            a == self.admin,
    {
        self.admin
    }

    /// Hand admin rights to `new_admin`. Admin only.
    pub fn transfer_admin(&mut self, caller: Address, new_admin: Address) -> (r: Result<(), Failure>)
        ensures
            Self::invoices_evolve(old(self), final(self)),
            match old(self).admin_failure(caller) {
                Some(f) => r == Err::<(), Failure>(f) && *final(self) == *old(self),
                None => r is Ok && *final(self) == (RegistryContract { admin: new_admin, ..*old(self) }),
            },
    {
        self.check_not_paused()?;
        self.check_admin(caller)?;
        self.admin = new_admin;
        Ok(())
    }

    /// Register the financing contract, the only caller that may mark an
    /// invoice Financed. Admin only.
    pub fn set_financing_contract(&mut self, caller: Address, financing: Address) -> (r: Result<(), Failure>)
        ensures
            Self::invoices_evolve(old(self), final(self)),
            match old(self).admin_failure(caller) {
                Some(f) => r == Err::<(), Failure>(f) && *final(self) == *old(self),
                None => r is Ok && *final(self) == (RegistryContract { financing: Some(financing), ..*old(self) }),
            },
    {
        self.check_not_paused()?;
        self.check_admin(caller)?;
        self.financing = Some(financing);
        Ok(())
    }

    /// Register the repayment contract, the only caller that may mark an
    /// invoice repaid or defaulted. Admin only.
    pub fn set_repayment_contract(&mut self, caller: Address, repayment: Address) -> (r: Result<(), Failure>)
        ensures
            Self::invoices_evolve(old(self), final(self)),
            match old(self).admin_failure(caller) {
                Some(f) => r == Err::<(), Failure>(f) && *final(self) == *old(self),
                None => r is Ok && *final(self) == (RegistryContract { repayment: Some(repayment), ..*old(self) }),
            },
    {
        self.check_not_paused()?;
        self.check_admin(caller)?;
        self.repayment = Some(repayment);
        Ok(())
    }

    /// Halt every state-changing call. Admin only (allowed while paused).
    pub fn pause(&mut self, caller: Address) -> (r: Result<(), Failure>)
        ensures
            Self::invoices_evolve(old(self), final(self)),
            if caller == old(self).admin {
                r is Ok && *final(self) == (RegistryContract { paused: true, ..*old(self) })
            } else {
                r == Err::<(), Failure>(err(ContractError::Unauthorized)) && *final(self) == *old(self)
            },
    {
        self.check_admin(caller)?;
        self.paused = true;
        Ok(())
    }

    /// Resume operations. Admin only.
    pub fn unpause(&mut self, caller: Address) -> (r: Result<(), Failure>)
        ensures
            Self::invoices_evolve(old(self), final(self)),
            if caller == old(self).admin {
                r is Ok && *final(self) == (RegistryContract { paused: false, ..*old(self) })
            } else {
                r == Err::<(), Failure>(err(ContractError::Unauthorized)) && *final(self) == *old(self)
            },
    {
        self.check_admin(caller)?;
        self.paused = false;
        Ok(())
    }

    pub fn contract_is_paused(&self) -> (b: bool)
        ensures
            b == self.paused,
    {
        self.paused
    }

    // ── Yield rates and fee ────────────────────────────────────────────────

    /// Set the yield rate of a risk tier (at most 10 000 bps). Admin only.
    pub fn set_rate(&mut self, caller: Address, tier: RiskTier, rate_bps: u32) -> (r: Result<(), Failure>)
        ensures
            Self::invoices_evolve(old(self), final(self)),
            match old(self).admin_failure(caller) {
                Some(f) => r == Err::<(), Failure>(f) && *final(self) == *old(self),
                None => if rate_bps <= 10_000 {
                    r is Ok && *final(self) == (RegistryContract { rates: old(self).rates.with_rate(tier, rate_bps), ..*old(self) })
                } else {
                    r == Err::<(), Failure>(err(ContractError::InvalidInput)) && *final(self) == *old(self)
                },
            },
    {
        self.check_not_paused()?;
        self.check_admin(caller)?;
        if rate_bps > 10_000 {
            return Err(Failure::Contract(ContractError::InvalidInput));
        }
        match tier {
            RiskTier::A => {
                self.rates.a = Some(rate_bps);
            },
            RiskTier::B => {
                self.rates.b = Some(rate_bps);
            },
            RiskTier::C => {
                self.rates.c = Some(rate_bps);
            },
        }
        Ok(())
    }

    /// The yield rate of a tier; `NotFound` until it is set.
    pub fn get_rate(&self, tier: RiskTier) -> (r: Result<u32, Failure>)
        ensures
            match self.rates.rate(tier) {
                Some(v) => r == Ok::<u32, Failure>(v),
                None => r == Err::<u32, Failure>(err(ContractError::NotFound)),
            },
    {
        let v = match tier {
            RiskTier::A => self.rates.a,
            RiskTier::B => self.rates.b,
            RiskTier::C => self.rates.c,
        };
        match v {
            Some(v) => Ok(v),
            None => Err(Failure::Contract(ContractError::NotFound)),
        }
    }

    /// Set the protocol fee (at most 500 bps). Admin only.
    pub fn set_fee(&mut self, caller: Address, fee_bps: u32) -> (r: Result<(), Failure>)
        ensures
            Self::invoices_evolve(old(self), final(self)),
            match old(self).admin_failure(caller) {
                Some(f) => r == Err::<(), Failure>(f) && *final(self) == *old(self),
                None => if fee_bps <= MAX_PROTOCOL_FEE_BPS {
                    r is Ok && *final(self) == (RegistryContract { fee_bps, ..*old(self) })
                } else {
                    r == Err::<(), Failure>(err(ContractError::InvalidInput)) && *final(self) == *old(self)
                },
            },
    {
        self.check_not_paused()?;
        self.check_admin(caller)?;
        if fee_bps > MAX_PROTOCOL_FEE_BPS {
            return Err(Failure::Contract(ContractError::InvalidInput));
        }
        self.fee_bps = fee_bps;
        Ok(())
    }

    /// The protocol fee in basis points.
    pub fn get_fee(&self) -> (f: u32)
        ensures
            f == self.fee_bps,
    {
        self.fee_bps
    }

    // ── Invoices ───────────────────────────────────────────────────────────

    /// Why `register_invoice` fails, in the order the contract checks.
    pub open spec fn register_failure(&self, id: Symbol, originator: Address, amount: i128, due_date: u64, now: u64) -> Option<Failure> {
        if self.paused {
            Some(err(ContractError::Paused))
        } else if self.blacklist@.contains(originator) {
            Some(err(ContractError::Blacklisted))
        } else if amount < MIN_INVOICE_AMOUNT {
            Some(err(ContractError::InvalidInput))
        } else if due_date <= now {
            Some(err(ContractError::InvalidInput))
        } else if self.invoices@.contains_key(id.0) {
            Some(err(ContractError::AlreadyExists))
        } else if self.stats.total_invoices == u32::MAX {
            Some(abort(Abort::ArithmeticOverflow))
        } else {
            None
        }
    }

    /// Register a new Pending invoice. The originator signs.
    pub fn register_invoice(
        &mut self,
        id: Symbol,
        originator: Address,
        amount: i128,
        currency: Symbol,
        due_date: u64,
        now: u64,
    ) -> (r: Result<Invoice, Failure>)
        requires
            old(self).wf(),
        ensures
            Self::invoices_evolve(old(self), final(self)),
            final(self).wf(),
            match old(self).register_failure(id, originator, amount, due_date, now) {
                Some(f) => r == Err::<Invoice, Failure>(f) && *final(self) == *old(self),
                None => {
                    let inv = Invoice { id, originator, amount, currency, due_date, status: InvoiceStatus::Pending };
                    &&& r == Ok::<Invoice, Failure>(inv)
                    &&& final(self).invoices@ == old(self).invoices@.insert(id.0, inv)
                    &&& *final(self) == (RegistryContract {
                        invoices: final(self).invoices,
                        stats: ProtocolStats { total_invoices: (old(self).stats.total_invoices + 1) as u32, ..old(self).stats },
                        ..*old(self)
                    })
                },
            },
    {
        self.check_not_paused()?;
        if contains_address(&self.blacklist, originator) {
            return Err(Failure::Contract(ContractError::Blacklisted));
        }
        if amount < MIN_INVOICE_AMOUNT {
            return Err(Failure::Contract(ContractError::InvalidInput));
        }
        if due_date <= now {
            return Err(Failure::Contract(ContractError::InvalidInput));
        }
        if self.invoices.contains_key(id.0) {
            return Err(Failure::Contract(ContractError::AlreadyExists));
        }
        if self.stats.total_invoices == u32::MAX {
            return Err(Failure::Abort(Abort::ArithmeticOverflow));
        }
        let inv = Invoice { id, originator, amount, currency, due_date, status: InvoiceStatus::Pending };
        self.invoices.set(id.0, inv);
        self.stats.total_invoices = self.stats.total_invoices + 1;
        Ok(inv)
    }

    /// Read an invoice.
    pub fn get_invoice(&self, id: Symbol) -> (r: Result<Invoice, Failure>)
        requires
            self.wf(),
        ensures
            match r {
                Ok(inv) => self.invoices@.contains_key(id.0) && inv == self.invoices@[id.0],
                Err(f) => !self.invoices@.contains_key(id.0) && f == err(ContractError::NotFound),
            },
    {
        match self.invoices.get(id.0) {
            Some(inv) => Ok(*inv),
            None => Err(Failure::Contract(ContractError::NotFound)),
        }
    }

    /// `post` is `pre` after invoice `k` moved to `to`, logged against
    /// `actor` at `now`; the moved invoice is `inv`.
    pub open spec fn transitioned(pre: &RegistryContract, post: &RegistryContract, k: u64, to: InvoiceStatus, actor: Address, now: u64, inv: Invoice) -> bool {
        let before = pre.invoices@[k];
        &&& inv == (Invoice { status: to, ..before })
        &&& post.invoices@ == pre.invoices@.insert(k, inv)
        &&& post.transitions.history(k) == appended_bounded(
            pre.transitions.history(k),
            TransitionRecord { from_status: before.status, to_status: to, actor, timestamp: now },
        )
        &&& forall|j: u64| j != k ==> #[trigger] post.transitions.history(j) == pre.transitions.history(j)
        &&& *post == (RegistryContract { invoices: post.invoices, transitions: post.transitions, ..*pre })
    }

    /// How an operation may change the invoices already registered: none
    /// is removed; each keeps its id, originator, currency and due date; its
    /// amount changes only while it is Pending; and its status moves only
    /// along an edge of the transition table.
    pub open spec fn invoices_evolve(pre: &RegistryContract, post: &RegistryContract) -> bool {
        forall|k: u64| #[trigger] pre.invoices@.contains_key(k) ==> {
            let a = pre.invoices@[k];
            let b = post.invoices@[k];
            &&& post.invoices@.contains_key(k)
            &&& b.id == a.id
            &&& b.originator == a.originator
            &&& b.currency == a.currency
            &&& b.due_date == a.due_date
            &&& b.amount != a.amount ==> a.status == InvoiceStatus::Pending && b.status == InvoiceStatus::Pending
            &&& b.status != a.status ==> transition_allowed(a.status, b.status)
        }
    }

    /// Move invoice `k` to `to` through the transition table, logging it.
    fn change_status(&mut self, k: u64, to: InvoiceStatus, actor: Address, now: u64) -> (r: Result<Invoice, Failure>)
        requires
            old(self).wf(),
            old(self).invoices@.contains_key(k),
        ensures
            Self::invoices_evolve(old(self), final(self)),
            final(self).wf(),
            match r {
                Ok(inv) => transition_allowed(old(self).invoices@[k].status, to)
                    && Self::transitioned(old(self), final(self), k, to, actor, now, inv),
                Err(f) => !transition_allowed(old(self).invoices@[k].status, to)
                    && f == err(ContractError::InvalidTransition) && *final(self) == *old(self),
            },
    {
        let before = *self.invoices.get(k).unwrap();
        self.transitions.assert_transition(k, before.status, to, actor, now)?;
        let inv = Invoice { status: to, ..before };
        self.invoices.set(k, inv);
        Ok(inv)
    }

    /// Why an originator's status change of invoice `k` fails before the
    /// transition table is consulted.
    pub open spec fn owner_failure(&self, k: u64, originator: Address) -> Option<Failure> {
        if self.paused {
            Some(err(ContractError::Paused))
        } else if !self.invoices@.contains_key(k) {
            Some(err(ContractError::NotFound))
        } else if self.invoices@[k].originator != originator {
            Some(err(ContractError::Unauthorized))
        } else {
            None
        }
    }

    /// Move an invoice to `new_status` through the transition table. Only
    /// its originator; this general entry point admits every change the
    /// table allows (`Pending -> Cancelled` is the one it exists for).
    pub fn update_invoice_status(&mut self, id: Symbol, originator: Address, new_status: InvoiceStatus, now: u64) -> (r: Result<Invoice, Failure>)
        requires
            old(self).wf(),
        ensures
            Self::invoices_evolve(old(self), final(self)),
            final(self).wf(),
            match old(self).owner_failure(id.0, originator) {
                Some(f) => r == Err::<Invoice, Failure>(f) && *final(self) == *old(self),
                None => if transition_allowed(old(self).invoices@[id.0].status, new_status) {
                    r matches Ok(inv) && Self::transitioned(old(self), final(self), id.0, new_status, originator, now, inv)
                } else {
                    r == Err::<Invoice, Failure>(err(ContractError::InvalidTransition)) && *final(self) == *old(self)
                },
            },
    {
        self.check_not_paused()?;
        let inv = self.get_invoice(id)?;
        if inv.originator != originator {
            return Err(Failure::Contract(ContractError::Unauthorized));
        }
        self.change_status(id.0, new_status, originator, now)
    }

    /// Change the face amount of a Pending invoice. Only its originator.
    pub fn update_invoice_amount(&mut self, id: Symbol, originator: Address, new_amount: i128) -> (r: Result<Invoice, Failure>)
        requires
            old(self).wf(),
        ensures
            Self::invoices_evolve(old(self), final(self)),
            final(self).wf(),
            match old(self).owner_failure(id.0, originator) {
                Some(f) => r == Err::<Invoice, Failure>(f) && *final(self) == *old(self),
                None => if old(self).invoices@[id.0].status != InvoiceStatus::Pending {
                    r == Err::<Invoice, Failure>(err(ContractError::InvalidTransition)) && *final(self) == *old(self)
                } else if new_amount < MIN_INVOICE_AMOUNT {
                    r == Err::<Invoice, Failure>(err(ContractError::InvalidInput)) && *final(self) == *old(self)
                } else {
                    let inv = Invoice { amount: new_amount, ..old(self).invoices@[id.0] };
                    &&& r == Ok::<Invoice, Failure>(inv)
                    &&& final(self).invoices@ == old(self).invoices@.insert(id.0, inv)
                    &&& *final(self) == (RegistryContract { invoices: final(self).invoices, ..*old(self) })
                },
            },
    {
        self.check_not_paused()?;
        let inv = self.get_invoice(id)?;
        if inv.originator != originator {
            return Err(Failure::Contract(ContractError::Unauthorized));
        }
        if inv.status != InvoiceStatus::Pending {
            return Err(Failure::Contract(ContractError::InvalidTransition));
        }
        if new_amount < MIN_INVOICE_AMOUNT {
            return Err(Failure::Contract(ContractError::InvalidInput));
        }
        let updated = Invoice { amount: new_amount, ..inv };
        self.invoices.set(id.0, updated);
        Ok(updated)
    }

    /// Cancel an invoice. Only its originator; the table admits it from
    /// Pending (and Disputed).
    pub fn cancel_invoice(&mut self, id: Symbol, originator: Address, now: u64) -> (r: Result<Invoice, Failure>)
        requires
            old(self).wf(),
        ensures
            Self::invoices_evolve(old(self), final(self)),
            final(self).wf(),
            match old(self).owner_failure(id.0, originator) {
                Some(f) => r == Err::<Invoice, Failure>(f) && *final(self) == *old(self),
                None => if transition_allowed(old(self).invoices@[id.0].status, InvoiceStatus::Cancelled) {
                    r matches Ok(inv) && Self::transitioned(old(self), final(self), id.0, InvoiceStatus::Cancelled, originator, now, inv)
                } else {
                    r == Err::<Invoice, Failure>(err(ContractError::InvalidTransition)) && *final(self) == *old(self)
                },
            },
    {
        self.check_not_paused()?;
        let inv = self.get_invoice(id)?;
        if inv.originator != originator {
            return Err(Failure::Contract(ContractError::Unauthorized));
        }
        self.change_status(id.0, InvoiceStatus::Cancelled, originator, now)
    }

    /// The repaid status a repayment reports: Repaid when in full, else the
    /// invoice stays Financed.
    pub open spec fn repaid_target(fully_repaid: bool) -> InvoiceStatus {
        if fully_repaid {
            InvoiceStatus::Repaid
        } else {
            InvoiceStatus::Financed
        }
    }

    /// Why a status change of invoice `k`, by an actor allowed to make it,
    /// fails; `None` when it succeeds.
    pub open spec fn change_failure(&self, k: u64, to: InvoiceStatus) -> Option<Failure> {
        if !self.invoices@.contains_key(k) {
            Some(err(ContractError::NotFound))
        } else if !transition_allowed(self.invoices@[k].status, to) {
            Some(err(ContractError::InvalidTransition))
        } else {
            None
        }
    }

    /// Record a repayment's effect on a Financed invoice: Repaid in full,
    /// otherwise it stays Financed. The repayer signs.
    pub fn set_invoice_repaid_status(&mut self, id: Symbol, repayer: Address, fully_repaid: bool, now: u64) -> (r: Result<Invoice, Failure>)
        requires
            old(self).wf(),
        ensures
            Self::invoices_evolve(old(self), final(self)),
            final(self).wf(),
            if old(self).paused {
                r == Err::<Invoice, Failure>(err(ContractError::Paused)) && *final(self) == *old(self)
            } else {
                match old(self).change_failure(id.0, Self::repaid_target(fully_repaid)) {
                    Some(f) => r == Err::<Invoice, Failure>(f) && *final(self) == *old(self),
                    None => r matches Ok(inv)
                        && Self::transitioned(old(self), final(self), id.0, Self::repaid_target(fully_repaid), repayer, now, inv),
                }
            },
    {
        self.check_not_paused()?;
        self.get_invoice(id)?;
        let to = if fully_repaid { InvoiceStatus::Repaid } else { InvoiceStatus::Financed };
        self.change_status(id.0, to, repayer, now)
    }

    /// Pending -> Financed on offer acceptance. Only the registered
    /// financing contract, whose authorization the host requires.
    pub fn financing_marks_invoice_financed(&mut self, id: Symbol, now: u64) -> (r: Result<Invoice, Failure>)
        requires
            old(self).wf(),
        ensures
            Self::invoices_evolve(old(self), final(self)),
            final(self).wf(),
            if old(self).paused {
                r == Err::<Invoice, Failure>(err(ContractError::Paused)) && *final(self) == *old(self)
            } else if old(self).financing is None {
                r == Err::<Invoice, Failure>(abort(Abort::FinancingNotConfigured)) && *final(self) == *old(self)
            } else {
                match old(self).change_failure(id.0, InvoiceStatus::Financed) {
                    Some(f) => r == Err::<Invoice, Failure>(f) && *final(self) == *old(self),
                    None => r matches Ok(inv)
                        && Self::transitioned(old(self), final(self), id.0, InvoiceStatus::Financed, old(self).financing.unwrap(), now, inv),
                }
            },
    {
        self.check_not_paused()?;
        let financing = match self.financing {
            Some(f) => f,
            None => {
                return Err(Failure::Abort(Abort::FinancingNotConfigured));
            },
        };
        self.get_invoice(id)?;
        self.change_status(id.0, InvoiceStatus::Financed, financing, now)
    }

    /// Financed -> Financed (partial) or Repaid (full) on repayment. Only the
    /// registered repayment contract.
    pub fn repayment_marks_invoice_repaid(&mut self, id: Symbol, fully_repaid: bool, now: u64) -> (r: Result<Invoice, Failure>)
        requires
            old(self).wf(),
        ensures
            Self::invoices_evolve(old(self), final(self)),
            final(self).wf(),
            if old(self).paused {
                r == Err::<Invoice, Failure>(err(ContractError::Paused)) && *final(self) == *old(self)
            } else if old(self).repayment is None {
                r == Err::<Invoice, Failure>(abort(Abort::RepaymentNotConfigured)) && *final(self) == *old(self)
            } else {
                match old(self).change_failure(id.0, Self::repaid_target(fully_repaid)) {
                    Some(f) => r == Err::<Invoice, Failure>(f) && *final(self) == *old(self),
                    None => r matches Ok(inv) && Self::transitioned(
                        old(self),
                        final(self),
                        id.0,
                        Self::repaid_target(fully_repaid),
                        old(self).repayment.unwrap(),
                        now,
                        inv,
                    ),
                }
            },
    {
        self.check_not_paused()?;
        let repayment = match self.repayment {
            Some(a) => a,
            None => {
                return Err(Failure::Abort(Abort::RepaymentNotConfigured));
            },
        };
        self.get_invoice(id)?;
        let to = if fully_repaid { InvoiceStatus::Repaid } else { InvoiceStatus::Financed };
        self.change_status(id.0, to, repayment, now)
    }

    /// Overdue -> Defaulted on a lender's reclaim. Only the registered
    /// repayment contract.
    pub fn repayment_marks_defaulted(&mut self, id: Symbol, now: u64) -> (r: Result<Invoice, Failure>)
        requires
            old(self).wf(),
        ensures
            Self::invoices_evolve(old(self), final(self)),
            final(self).wf(),
            if old(self).paused {
                r == Err::<Invoice, Failure>(err(ContractError::Paused)) && *final(self) == *old(self)
            } else if old(self).repayment is None {
                r == Err::<Invoice, Failure>(abort(Abort::RepaymentNotConfigured)) && *final(self) == *old(self)
            } else {
                match old(self).change_failure(id.0, InvoiceStatus::Defaulted) {
                    Some(f) => r == Err::<Invoice, Failure>(f) && *final(self) == *old(self),
                    None => r matches Ok(inv)
                        && Self::transitioned(old(self), final(self), id.0, InvoiceStatus::Defaulted, old(self).repayment.unwrap(), now, inv),
                }
            },
    {
        self.check_not_paused()?;
        let repayment = match self.repayment {
            Some(a) => a,
            None => {
                return Err(Failure::Abort(Abort::RepaymentNotConfigured));
            },
        };
        self.get_invoice(id)?;
        self.change_status(id.0, InvoiceStatus::Defaulted, repayment, now)
    }

    /// Mark a Financed invoice Overdue once its due date has passed. Anyone
    /// may call; the transition is logged against the registry's own
    /// address `this`.
    pub fn mark_invoice_overdue(&mut self, id: Symbol, now: u64, this: Address) -> (r: Result<Invoice, Failure>)
        requires
            old(self).wf(),
        ensures
            Self::invoices_evolve(old(self), final(self)),
            final(self).wf(),
            if old(self).paused {
                r == Err::<Invoice, Failure>(err(ContractError::Paused)) && *final(self) == *old(self)
            } else if !old(self).invoices@.contains_key(id.0) {
                r == Err::<Invoice, Failure>(err(ContractError::NotFound)) && *final(self) == *old(self)
            } else if now <= old(self).invoices@[id.0].due_date {
                r == Err::<Invoice, Failure>(err(ContractError::InvalidTransition)) && *final(self) == *old(self)
            } else {
                match old(self).change_failure(id.0, InvoiceStatus::Overdue) {
                    Some(f) => r == Err::<Invoice, Failure>(f) && *final(self) == *old(self),
                    None => r matches Ok(inv)
                        && Self::transitioned(old(self), final(self), id.0, InvoiceStatus::Overdue, this, now, inv),
                }
            },
    {
        self.check_not_paused()?;
        let inv = self.get_invoice(id)?;
        if now <= inv.due_date {
            return Err(Failure::Contract(ContractError::InvalidTransition));
        }
        self.change_status(id.0, InvoiceStatus::Overdue, this, now)
    }

    /// Dispute a Financed invoice. Only its originator.
    pub fn raise_dispute(&mut self, id: Symbol, originator: Address, now: u64) -> (r: Result<Invoice, Failure>)
        requires
            old(self).wf(),
        ensures
            Self::invoices_evolve(old(self), final(self)),
            final(self).wf(),
            match old(self).owner_failure(id.0, originator) {
                Some(f) => r == Err::<Invoice, Failure>(f) && *final(self) == *old(self),
                None => if transition_allowed(old(self).invoices@[id.0].status, InvoiceStatus::Disputed) {
                    r matches Ok(inv) && Self::transitioned(old(self), final(self), id.0, InvoiceStatus::Disputed, originator, now, inv)
                } else {
                    r == Err::<Invoice, Failure>(err(ContractError::InvalidTransition)) && *final(self) == *old(self)
                },
            },
    {
        self.check_not_paused()?;
        let inv = self.get_invoice(id)?;
        if inv.originator != originator {
            return Err(Failure::Contract(ContractError::Unauthorized));
        }
        self.change_status(id.0, InvoiceStatus::Disputed, originator, now)
    }

    /// Resolve a Disputed invoice to any status the table allows from
    /// Disputed. Admin only.
    pub fn resolve_dispute(&mut self, caller: Address, id: Symbol, target: InvoiceStatus, now: u64) -> (r: Result<Invoice, Failure>)
        requires
            old(self).wf(),
        ensures
            Self::invoices_evolve(old(self), final(self)),
            final(self).wf(),
            match old(self).admin_failure(caller) {
                Some(f) => r == Err::<Invoice, Failure>(f) && *final(self) == *old(self),
                None => if !old(self).invoices@.contains_key(id.0) {
                    r == Err::<Invoice, Failure>(err(ContractError::NotFound)) && *final(self) == *old(self)
                } else if target == InvoiceStatus::Disputed {
                    r == Err::<Invoice, Failure>(err(ContractError::InvalidInput)) && *final(self) == *old(self)
                } else {
                    match old(self).change_failure(id.0, target) {
                        Some(f) => r == Err::<Invoice, Failure>(f) && *final(self) == *old(self),
                        None => r matches Ok(inv) && Self::transitioned(old(self), final(self), id.0, target, caller, now, inv),
                    }
                },
            },
    {
        self.check_not_paused()?;
        self.check_admin(caller)?;
        self.get_invoice(id)?;
        if target == InvoiceStatus::Disputed {
            return Err(Failure::Contract(ContractError::InvalidInput));
        }
        self.change_status(id.0, target, caller, now)
    }

    // ── Queries ─────────────────────────────────────────────────────────────

    /// Every invoice satisfying `q`, in id order.
    pub open spec fn selected(&self, q: InvoiceQuery) -> Seq<Invoice> {
        self.invoices.values().filter(|i: Invoice| q.matches(i))
    }

    fn select_invoices(&self, q: InvoiceQuery) -> (v: Vec<Invoice>)
        requires
            self.wf(),
        ensures
            v@ == self.selected(q),
    {
        let ghost vals = self.invoices.values();
        let mut out: Vec<Invoice> = Vec::new();
        let n = self.invoices.len();
        let mut i: usize = 0;
        while i < n
            invariant
                n == self.invoices.entries().len(),
                vals == self.invoices.values(),
                vals.len() == n,
                i <= n,
                out@ == vals.take(i as int).filter(|x: Invoice| q.matches(x)),
            decreases n - i,
        {
            let inv = *self.invoices.value_at(i);
            proof {
                assert(vals[i as int] == inv);
                assert(vals.take(i as int + 1).drop_last() =~= vals.take(i as int));
                reveal(Seq::filter);
            }
            if q.is_match(&inv) {
                out.push(inv);
            }
            i = i + 1;
        }
        proof {
            assert(vals.take(n as int) =~= vals);
        }
        out
    }

    pub fn get_invoices_by_status(&self, status: InvoiceStatus) -> (v: Vec<Invoice>)
        requires
            self.wf(),
        ensures
            v@ == self.selected(InvoiceQuery::Status(status)),
    {
        self.select_invoices(InvoiceQuery::Status(status))
    }

    pub fn get_invoices_by_originator(&self, originator: Address) -> (v: Vec<Invoice>)
        requires
            self.wf(),
        ensures
            v@ == self.selected(InvoiceQuery::Originator(originator)),
    {
        self.select_invoices(InvoiceQuery::Originator(originator))
    }

    /// Every invoice, in id order.
    pub fn get_all_invoices(&self) -> (v: Vec<Invoice>)
        requires
            self.wf(),
        ensures
            v@ == self.selected(InvoiceQuery::All),
    {
        self.select_invoices(InvoiceQuery::All)
    }

    pub fn get_invoices_by_currency(&self, currency: Symbol) -> (v: Vec<Invoice>)
        requires
            self.wf(),
        ensures
            v@ == self.selected(InvoiceQuery::Currency(currency)),
    {
        self.select_invoices(InvoiceQuery::Currency(currency))
    }

    /// Pending or Financed invoices due strictly before `timestamp`.
    pub fn get_invoices_due_before(&self, timestamp: u64) -> (v: Vec<Invoice>)
        requires
            self.wf(),
        ensures
            v@ == self.selected(InvoiceQuery::OpenDueBefore(timestamp)),
    {
        self.select_invoices(InvoiceQuery::OpenDueBefore(timestamp))
    }

    /// At most `limit` invoices, in id order, starting at position `offset`.
    pub fn get_invoices_paginated(&self, offset: u32, limit: u32) -> (v: Vec<Invoice>)
        requires
            self.wf(),
        ensures
            v@ == page(self.invoices.values(), offset as int, limit as int),
    {
        let ghost vals = self.invoices.values();
        let n = self.invoices.len();
        let mut out: Vec<Invoice> = Vec::new();
        let mut i: usize = offset as usize;
        if i > n {
            i = n;
        }
        let start = i;
        while i < n && out.len() < limit as usize
            invariant
                n == vals.len(),
                vals == self.invoices.values(),
                start == if offset as int <= n { offset as int } else { n as int },
                start <= i <= n,
                out@ == vals.subrange(start as int, i as int),
                out@.len() <= limit,
            decreases n - i,
        {
            let inv = *self.invoices.value_at(i);
            proof {
                assert(vals[i as int] == inv);
            }
            out.push(inv);
            proof {
                assert(out@ =~= vals.subrange(start as int, i as int + 1));
            }
            i = i + 1;
        }
        out
    }

    /// The invoices among `ids` that exist, in the order asked.
    pub fn batch_get_invoices(&self, ids: &Vec<Symbol>) -> (v: Vec<Invoice>)
        requires
            self.wf(),
        ensures
            v@ == found_invoices(self.invoices@, ids@),
    {
        let mut out: Vec<Invoice> = Vec::new();
        let mut i: usize = 0;
        while i < ids.len()
            invariant
                self.wf(),
                i <= ids@.len(),
                out@ == found_invoices(self.invoices@, ids@.take(i as int)),
            decreases ids@.len() - i,
        {
            proof {
                assert(ids@.take(i as int + 1).drop_last() =~= ids@.take(i as int));
            }
            match self.invoices.get(ids[i].0) {
                Some(inv) => {
                    out.push(*inv);
                },
                None => {},
            }
            i = i + 1;
        }
        proof {
            assert(ids@.take(i as int) =~= ids@);
        }
        out
    }

    /// Number of registered invoices (the host's map length is a `u32`).
    pub fn get_invoices_count(&self) -> (n: u32)
        requires
            self.invoices.entries().len() <= u32::MAX,
        ensures
            n == self.invoices.entries().len(),
    {
        self.invoices.len() as u32
    }

    pub fn get_stats(&self) -> (s: ProtocolStats)
        ensures
            s == self.stats,
    {
        self.stats
    }

    /// The smallest face amount an invoice may have.
    pub fn get_min_invoice_amount(&self) -> (a: i128)
        ensures
            a == MIN_INVOICE_AMOUNT,
    {
        MIN_INVOICE_AMOUNT
    }

    /// The status history of an invoice, oldest first.
    pub fn get_transition_history(&self, id: Symbol) -> (h: Vec<TransitionRecord>)
        requires
            self.wf(),
        ensures
            h@ == self.transitions.history(id.0),
    {
        self.transitions.get_transition_history(id.0)
    }

    // ── Blacklist ───────────────────────────────────────────────────────────

    /// Blacklist an address; a listed address stays listed once. Admin only.
    pub fn blacklist_address(&mut self, caller: Address, target: Address) -> (r: Result<(), Failure>)
        requires
            old(self).wf(),
        ensures
            Self::invoices_evolve(old(self), final(self)),
            final(self).wf(),
            match old(self).admin_failure(caller) {
                Some(f) => r == Err::<(), Failure>(f) && *final(self) == *old(self),
                None => r is Ok && if old(self).blacklist@.contains(target) {
                    *final(self) == *old(self)
                } else {
                    final(self).blacklist@ == old(self).blacklist@.push(target)
                        && *final(self) == (RegistryContract { blacklist: final(self).blacklist, ..*old(self) })
                },
            },
    {
        self.check_not_paused()?;
        self.check_admin(caller)?;
        if contains_address(&self.blacklist, target) {
            return Ok(());
        }
        proof {
            lemma_push_no_duplicates(self.blacklist@, target);
        }
        self.blacklist.push(target);
        Ok(())
    }

    /// Take an address off the blacklist. Admin only.
    pub fn unblacklist_address(&mut self, caller: Address, target: Address) -> (r: Result<(), Failure>)
        requires
            old(self).wf(),
        ensures
            Self::invoices_evolve(old(self), final(self)),
            final(self).wf(),
            match old(self).admin_failure(caller) {
                Some(f) => r == Err::<(), Failure>(f) && *final(self) == *old(self),
                None => r is Ok && final(self).blacklist@ == without(old(self).blacklist@, target)
                    && *final(self) == (RegistryContract { blacklist: final(self).blacklist, ..*old(self) }),
            },
    {
        self.check_not_paused()?;
        self.check_admin(caller)?;
        proof {
            lemma_without_no_duplicates(self.blacklist@, target);
        }
        self.blacklist = remove_address(&self.blacklist, target);
        Ok(())
    }

    pub fn is_blacklisted(&self, address: Address) -> (b: bool)
        ensures
            b == self.blacklist@.contains(address),
    {
        contains_address(&self.blacklist, address)
    }

    pub fn get_blacklist(&self) -> (v: Vec<Address>)
        ensures
            v@ == self.blacklist@,
    {
        copy_addresses(&self.blacklist)
    }

    // ── Verifier set ────────────────────────────────────────────────────────

    /// Admit a verifier; idempotent; the set holds at most `MAX_VERIFIERS`.
    /// Admin only.
    pub fn add_verifier(&mut self, caller: Address, verifier: Address) -> (r: Result<(), Failure>)
        requires
            old(self).wf(),
        ensures
            Self::invoices_evolve(old(self), final(self)),
            final(self).wf(),
            match old(self).admin_failure(caller) {
                Some(f) => r == Err::<(), Failure>(f) && *final(self) == *old(self),
                None => if old(self).verifiers@.contains(verifier) {
                    r is Ok && *final(self) == *old(self)
                } else if old(self).verifiers@.len() >= MAX_VERIFIERS {
                    r == Err::<(), Failure>(err(ContractError::InvalidInput)) && *final(self) == *old(self)
                } else {
                    r is Ok && final(self).verifiers@ == old(self).verifiers@.push(verifier)
                        && *final(self) == (RegistryContract { verifiers: final(self).verifiers, ..*old(self) })
                },
            },
    {
        self.check_not_paused()?;
        self.check_admin(caller)?;
        if contains_address(&self.verifiers, verifier) {
            return Ok(());
        }
        if self.verifiers.len() >= MAX_VERIFIERS as usize {
            return Err(Failure::Contract(ContractError::InvalidInput));
        }
        proof {
            lemma_push_no_duplicates(self.verifiers@, verifier);
        }
        self.verifiers.push(verifier);
        Ok(())
    }

    /// Remove a verifier; their records stay but stop counting. Admin only.
    pub fn remove_verifier(&mut self, caller: Address, verifier: Address) -> (r: Result<(), Failure>)
        requires
            old(self).wf(),
        ensures
            Self::invoices_evolve(old(self), final(self)),
            final(self).wf(),
            match old(self).admin_failure(caller) {
                Some(f) => r == Err::<(), Failure>(f) && *final(self) == *old(self),
                None => r is Ok && final(self).verifiers@ == without(old(self).verifiers@, verifier)
                    && *final(self) == (RegistryContract { verifiers: final(self).verifiers, ..*old(self) }),
            },
    {
        self.check_not_paused()?;
        self.check_admin(caller)?;
        proof {
            lemma_without_no_duplicates(self.verifiers@, verifier);
            lemma_without_len(self.verifiers@, verifier);
        }
        self.verifiers = remove_address(&self.verifiers, verifier);
        Ok(())
    }

    pub fn get_verifiers(&self) -> (v: Vec<Address>)
        ensures
            v@ == self.verifiers@,
    {
        copy_addresses(&self.verifiers)
    }

    pub fn is_verifier(&self, address: Address) -> (b: bool)
        ensures
            b == self.verifiers@.contains(address),
    {
        contains_address(&self.verifiers, address)
    }

    /// Set how many distinct verifiers must approve a type (1 to
    /// `MAX_VERIFIERS`; not clamped to the current set). Admin only.
    pub fn set_verifier_threshold(&mut self, caller: Address, threshold: u32) -> (r: Result<(), Failure>)
        ensures
            Self::invoices_evolve(old(self), final(self)),
            match old(self).admin_failure(caller) {
                Some(f) => r == Err::<(), Failure>(f) && *final(self) == *old(self),
                None => if 1 <= threshold <= MAX_VERIFIERS {
                    r is Ok && *final(self) == (RegistryContract { verifier_threshold: Some(threshold), ..*old(self) })
                } else {
                    r == Err::<(), Failure>(err(ContractError::InvalidInput)) && *final(self) == *old(self)
                },
            },
    {
        self.check_not_paused()?;
        self.check_admin(caller)?;
        if threshold == 0 || threshold > MAX_VERIFIERS {
            return Err(Failure::Contract(ContractError::InvalidInput));
        }
        self.verifier_threshold = Some(threshold);
        Ok(())
    }

    /// The verifier threshold (default 1).
    pub fn get_verifier_threshold(&self) -> (t: u32)
        ensures
            t == self.threshold(),
    {
        match self.verifier_threshold {
            Some(t) => t,
            None => 1,
        }
    }

    /// Set the verification fee (at most `MAX_VERIFICATION_FEE_BPS`). Admin
    /// only.
    pub fn set_verification_fee(&mut self, caller: Address, fee_bps: u32) -> (r: Result<(), Failure>)
        ensures
            Self::invoices_evolve(old(self), final(self)),
            match old(self).admin_failure(caller) {
                Some(f) => r == Err::<(), Failure>(f) && *final(self) == *old(self),
                None => if fee_bps <= MAX_VERIFICATION_FEE_BPS {
                    r is Ok && *final(self) == (RegistryContract { verification_fee_bps: fee_bps, ..*old(self) })
                } else {
                    r == Err::<(), Failure>(err(ContractError::InvalidInput)) && *final(self) == *old(self)
                },
            },
    {
        self.check_not_paused()?;
        self.check_admin(caller)?;
        if fee_bps > MAX_VERIFICATION_FEE_BPS {
            return Err(Failure::Contract(ContractError::InvalidInput));
        }
        self.verification_fee_bps = fee_bps;
        Ok(())
    }

    pub fn get_verification_fee(&self) -> (f: u32)
        ensures
            f == self.verification_fee_bps,
    {
        self.verification_fee_bps
    }

    /// Set how long a new attestation stays valid, within [1 day, 365 days].
    /// Attestations already made keep their own expiry. Admin only.
    pub fn set_attestation_validity(&mut self, caller: Address, validity_secs: u64) -> (r: Result<(), Failure>)
        ensures
            Self::invoices_evolve(old(self), final(self)),
            match old(self).admin_failure(caller) {
                Some(f) => r == Err::<(), Failure>(f) && *final(self) == *old(self),
                None => if MIN_ATTESTATION_VALIDITY_SECS <= validity_secs <= MAX_ATTESTATION_VALIDITY_SECS {
                    r is Ok && *final(self) == (RegistryContract { attestation_validity: Some(validity_secs), ..*old(self) })
                } else {
                    r == Err::<(), Failure>(err(ContractError::InvalidInput)) && *final(self) == *old(self)
                },
            },
    {
        self.check_not_paused()?;
        self.check_admin(caller)?;
        if validity_secs < MIN_ATTESTATION_VALIDITY_SECS || validity_secs > MAX_ATTESTATION_VALIDITY_SECS {
            return Err(Failure::Contract(ContractError::InvalidInput));
        }
        self.attestation_validity = Some(validity_secs);
        Ok(())
    }

    /// The attestation validity (default 90 days).
    pub fn get_attestation_validity(&self) -> (v: u64)
        ensures
            v == self.validity(),
    {
        match self.attestation_validity {
            Some(v) => v,
            None => DEFAULT_ATTESTATION_VALIDITY_SECS,
        }
    }

    /// Register the token that settles verification fees in `currency`.
    /// Admin only.
    pub fn register_currency(&mut self, caller: Address, currency: Symbol, token: Address) -> (r: Result<(), Failure>)
        requires
            old(self).wf(),
        ensures
            Self::invoices_evolve(old(self), final(self)),
            final(self).wf(),
            match old(self).admin_failure(caller) {
                Some(f) => r == Err::<(), Failure>(f) && *final(self) == *old(self),
                None => r is Ok && final(self).currencies@ == old(self).currencies@.insert(currency.0, token)
                    && *final(self) == (RegistryContract { currencies: final(self).currencies, ..*old(self) }),
            },
    {
        self.check_not_paused()?;
        self.check_admin(caller)?;
        self.currencies.register_currency(currency, token);
        Ok(())
    }

    pub fn get_currency_token(&self, currency: Symbol) -> (t: Option<Address>)
        requires
            self.wf(),
        ensures
            t == (if self.currencies@.contains_key(currency.0) {
                Some(self.currencies@[currency.0])
            } else {
                None::<Address>
            }),
    {
        self.currencies.get_currency_token(currency)
    }

    // ── Attestations ────────────────────────────────────────────────────────

    /// The fee on an invoice of `amount`: 0 when the fee is off, else
    /// `amount * bps / 10_000`, failing with `InvalidInput` when the product
    /// leaves `i128`.
    pub open spec fn fee_on(&self, amount: i128) -> Option<i128> {
        if self.verification_fee_bps == 0 {
            Some(0)
        } else if !fits_i128(amount * self.verification_fee_bps) {
            None
        } else {
            Some(tdiv(amount * self.verification_fee_bps, 10_000) as i128)
        }
    }

    fn fee_for(&self, amount: i128) -> (r: Result<i128, Failure>)
        ensures
            match self.fee_on(amount) {
                Some(f) => r == Ok::<i128, Failure>(f),
                None => r == Err::<i128, Failure>(err(ContractError::InvalidInput)),
            },
    {
        if self.verification_fee_bps == 0 {
            return Ok(0);
        }
        let product = match checked_mul(amount, self.verification_fee_bps as i128) {
            Some(p) => p,
            None => {
                return Err(Failure::Contract(ContractError::InvalidInput));
            },
        };
        proof {
            lemma_tdiv_fits(product as int, 10_000);
        }
        match checked_tdiv(product, 10_000) {
            Some(q) => Ok(q),
            None => Err(Failure::Contract(ContractError::InvalidInput)),
        }
    }

    /// What an attestation on this invoice costs now.
    pub fn calculate_verification_fee(&self, invoice_id: Symbol) -> (r: Result<i128, Failure>)
        requires
            self.wf(),
        ensures
            if !self.invoices@.contains_key(invoice_id.0) {
                r == Err::<i128, Failure>(err(ContractError::NotFound))
            } else {
                match self.fee_on(self.invoices@[invoice_id.0].amount) {
                    Some(f) => r == Ok::<i128, Failure>(f),
                    None => r == Err::<i128, Failure>(err(ContractError::InvalidInput)),
                }
            },
    {
        let inv = self.get_invoice(invoice_id)?;
        self.fee_for(inv.amount)
    }

    /// The list stored after `verifier` attests `a` on a list `s`: their
    /// earlier record on the type is replaced, and a full list first frees
    /// a slot.
    pub open spec fn list_after_attest(&self, s: Seq<Attestation>, verifier: Address, a: Attestation, now: u64) -> Option<Seq<Attestation>> {
        let kept = without_own(s, verifier, a.v_type);
        if kept.len() >= MAX_ATTESTATIONS_PER_INVOICE {
            match eviction_victim(kept, self.verifiers@, now) {
                Some(v) => Some(kept.remove(v).push(a)),
                None => None,
            }
        } else {
            Some(kept.push(a))
        }
    }

    /// Why `attest` fails, in the order the contract checks, before the
    /// list is updated.
    pub open spec fn attest_failure(&self, k: u64, verifier: Address, now: u64) -> Option<Failure> {
        let inv = self.invoices@[k];
        if self.paused {
            Some(err(ContractError::Paused))
        } else if !self.verifiers@.contains(verifier) {
            Some(err(ContractError::Unauthorized))
        } else if !self.invoices@.contains_key(k) {
            Some(err(ContractError::NotFound))
        } else if inv.status != InvoiceStatus::Pending && inv.status != InvoiceStatus::Financed {
            Some(err(ContractError::InvalidTransition))
        } else if self.fee_on(inv.amount) is None {
            Some(err(ContractError::InvalidInput))
        } else if self.fee_on(inv.amount).unwrap() > 0 && !self.currencies@.contains_key(inv.currency.0) {
            Some(abort(Abort::FeeTokenNotConfigured))
        } else {
            None
        }
    }

    /// Submit a verifier's statement about one fact of an invoice. Only a
    /// trusted verifier, only on a Pending or Financed invoice. The fee is
    /// charged whatever the verdict; a verifier's new statement on a type
    /// replaces their earlier one.
    pub fn attest(
        &mut self,
        invoice_id: Symbol,
        verifier: Address,
        v_type: VerificationType,
        hash: Hash32,
        approved: bool,
        now: u64,
    ) -> (r: Result<AttestOutcome, Failure>)
        requires
            old(self).wf(),
        ensures
            Self::invoices_evolve(old(self), final(self)),
            final(self).wf(),
            match old(self).attest_failure(invoice_id.0, verifier, now) {
                Some(f) => r == Err::<AttestOutcome, Failure>(f) && *final(self) == *old(self),
                None => {
                    let k = invoice_id.0;
                    let inv = old(self).invoices@[k];
                    let a = Attestation {
                        verifier,
                        v_type,
                        hash,
                        timestamp: now,
                        valid_until: (if now + old(self).validity() > u64::MAX { u64::MAX as int } else { now + old(self).validity() }) as u64,
                        status: if approved { VerificationStatus::Verified } else { VerificationStatus::Rejected },
                    };
                    let fee = old(self).fee_on(inv.amount).unwrap();
                    let before = type_status_of(old(self).attestations_of(k), v_type, old(self).verifiers@, old(self).threshold(), now);
                    match old(self).list_after_attest(old(self).attestations_of(k), verifier, a, now) {
                        None => r == Err::<AttestOutcome, Failure>(err(ContractError::InvalidTransition)) && *final(self) == *old(self),
                        Some(list) => {
                            let after = type_status_of(list, v_type, old(self).verifiers@, old(self).threshold(), now);
                            &&& r matches Ok(out)
                            &&& out.attestation == a
                            &&& out.fee == fee
                            &&& out.fee_token == (if fee > 0 { Some(old(self).currencies@[inv.currency.0]) } else { None::<Address> })
                            &&& out.verdict == (if after != before && (after == VerificationStatus::Verified || after == VerificationStatus::Rejected) {
                                Some(after)
                            } else {
                                None::<VerificationStatus>
                            })
                            &&& final(self).attestations_of(k) == list
                            &&& final(self).verifications@.dom() == old(self).verifications@.dom().insert(k)
                            &&& forall|j: u64| j != k ==> #[trigger] final(self).attestations_of(j) == old(self).attestations_of(j)
                            &&& *final(self) == (RegistryContract { verifications: final(self).verifications, ..*old(self) })
                        },
                    }
                },
            },
    {
        self.check_not_paused()?;
        if !contains_address(&self.verifiers, verifier) {
            return Err(Failure::Contract(ContractError::Unauthorized));
        }
        let inv = self.get_invoice(invoice_id)?;
        if inv.status != InvoiceStatus::Pending && inv.status != InvoiceStatus::Financed {
            return Err(Failure::Contract(ContractError::InvalidTransition));
        }
        let k = invoice_id.0;
        let threshold = self.get_verifier_threshold();
        let current = self.get_verifications(invoice_id);
        let before = type_status(&current, v_type, &self.verifiers, threshold, now);
        let fee = self.fee_for(inv.amount)?;
        let fee_token = if fee > 0 {
            match self.currencies.get_currency_token(inv.currency) {
                Some(t) => Some(t),
                None => {
                    return Err(Failure::Abort(Abort::FeeTokenNotConfigured));
                },
            }
        } else {
            None
        };
        let attestation = Attestation {
            verifier,
            v_type,
            hash,
            timestamp: now,
            valid_until: now.saturating_add(self.get_attestation_validity()),
            status: if approved { VerificationStatus::Verified } else { VerificationStatus::Rejected },
        };
        let mut updated = remove_own(&current, verifier, v_type);
        proof {
            lemma_without_own_props(current@, verifier, v_type);
        }
        if updated.len() >= MAX_ATTESTATIONS_PER_INVOICE as usize {
            let ghost kept = updated@;
            updated = evict_one_slot(&updated, &self.verifiers, now)?;
            proof {
                let v = eviction_victim(kept, self.verifiers@, now).unwrap();
                lemma_remove_keeps_props(kept, v, verifier, v_type);
            }
        }
        proof {
            lemma_push_keeps_one_per(updated@, attestation);
        }
        updated.push(attestation);
        let after = type_status(&updated, v_type, &self.verifiers, threshold, now);
        self.verifications.set(k, updated);
        proof {
            assert forall|j: u64| j != k implies #[trigger] self.attestations_of(j) == old(self).attestations_of(j) by {
                if old(self).verifications@.contains_key(j) {
                    assert(self.verifications@.contains_key(j));
                }
            }
        }
        let verdict = if after != before && (after == VerificationStatus::Verified || after == VerificationStatus::Rejected) {
            Some(after)
        } else {
            None
        };
        Ok(AttestOutcome { attestation, fee, fee_token, verdict })
    }

    /// Every attestation on an invoice, oldest first.
    pub fn get_verifications(&self, invoice_id: Symbol) -> (v: Vec<Attestation>)
        requires
            self.wf(),
        ensures
            v@ == self.attestations_of(invoice_id.0),
    {
        match self.verifications.get(invoice_id.0) {
            Some(list) => {
                let mut out: Vec<Attestation> = Vec::new();
                let mut i: usize = 0;
                while i < list.len()
                    invariant
                        i <= list@.len(),
                        out@ == list@.take(i as int),
                    decreases list@.len() - i,
                {
                    out.push(list[i]);
                    proof {
                        assert(out@ =~= list@.take(i as int + 1));
                    }
                    i = i + 1;
                }
                proof {
                    assert(out@ =~= list@);
                }
                out
            },
            None => Vec::new(),
        }
    }

    /// Status of one verification type on an invoice at `now`.
    pub fn get_verification_status(&self, invoice_id: Symbol, v_type: VerificationType, now: u64) -> (s: VerificationStatus)
        requires
            self.wf(),
        ensures
            s == type_status_of(self.attestations_of(invoice_id.0), v_type, self.verifiers@, self.threshold(), now),
    {
        let list = self.get_verifications(invoice_id);
        type_status(&list, v_type, &self.verifiers, self.get_verifier_threshold(), now)
    }

    /// Status of the invoice as a whole at `now`.
    pub fn get_invoice_verification_status(&self, invoice_id: Symbol, now: u64) -> (s: VerificationStatus)
        requires
            self.wf(),
        ensures
            s == invoice_status_of(self.attestations_of(invoice_id.0), self.verifiers@, self.threshold(), now),
    {
        let list = self.get_verifications(invoice_id);
        invoice_status(&list, &self.verifiers, self.get_verifier_threshold(), now)
    }

    /// Write down the lapses on an invoice's attestations at `now`, for the
    /// host to announce; returns how many were newly recorded. Anyone may
    /// call; a second call at the same time finds nothing.
    pub fn expire_verifications(&mut self, invoice_id: Symbol, now: u64) -> (r: Result<u32, Failure>)
        requires
            old(self).wf(),
        ensures
            Self::invoices_evolve(old(self), final(self)),
            final(self).wf(),
            if old(self).paused {
                r == Err::<u32, Failure>(err(ContractError::Paused)) && *final(self) == *old(self)
            } else if old(self).attestations_of(invoice_id.0).len() == 0 {
                r == Err::<u32, Failure>(err(ContractError::NotFound)) && *final(self) == *old(self)
            } else {
                let s = old(self).attestations_of(invoice_id.0);
                &&& r == Ok::<u32, Failure>(count_unrecorded_lapses(s, now) as u32)
                &&& final(self).attestations_of(invoice_id.0) == lapses_recorded(s, now)
                &&& forall|j: u64| j != invoice_id.0 ==> #[trigger] final(self).attestations_of(j) == old(self).attestations_of(j)
                &&& *final(self) == (RegistryContract { verifications: final(self).verifications, ..*old(self) })
            },
    {
        self.check_not_paused()?;
        let list = self.get_verifications(invoice_id);
        if list.len() == 0 {
            return Err(Failure::Contract(ContractError::NotFound));
        }
        let k = invoice_id.0;
        let (updated, count) = record_lapses(&list, now);
        proof {
            lemma_lapses_keep_props(list@, now);
        }
        if count > 0 {
            self.verifications.set(k, updated);
            proof {
                assert forall|j: u64| j != k implies #[trigger] self.attestations_of(j) == old(self).attestations_of(j) by {
                    if old(self).verifications@.contains_key(j) {
                        assert(self.verifications@.contains_key(j));
                    }
                }
            }
        } else {
            proof {
                lemma_no_lapses_no_change(list@, now);
            }
        }
        Ok(count as u32)
    }
}

/// The invoices among `ids` that exist, in the order asked.
pub open spec fn found_invoices(invoices: Map<u64, Invoice>, ids: Seq<Symbol>) -> Seq<Invoice>
    decreases ids.len(),
{
    if ids.len() == 0 {
        Seq::empty()
    } else {
        let rest = found_invoices(invoices, ids.drop_last());
        if invoices.contains_key(ids.last().0) {
            rest.push(invoices[ids.last().0])
        } else {
            rest
        }
    }
}

proof fn lemma_without_len(s: Seq<Address>, a: Address)
    ensures
        without(s, a).len() <= s.len(),
    decreases s.len(),
{
    if s.len() > 0 {
        lemma_without_len(s.drop_last(), a);
    }
}

/// What removing a verifier's own records leaves: a no longer list, still
/// one record per (verifier, type), none of them theirs on that type.
proof fn lemma_without_own_props(s: Seq<Attestation>, verifier: Address, t: VerificationType)
    ensures
        without_own(s, verifier, t).len() <= s.len(),
        one_per_verifier_and_type(s) ==> one_per_verifier_and_type(without_own(s, verifier, t)),
        forall|i: int| 0 <= i < without_own(s, verifier, t).len() ==> !(#[trigger] without_own(s, verifier, t)[i].verifier == verifier
            && without_own(s, verifier, t)[i].v_type == t),
        forall|i: int| 0 <= i < without_own(s, verifier, t).len() ==> #[trigger] s.contains(without_own(s, verifier, t)[i]),
    decreases s.len(),
{
    if s.len() > 0 {
        let p = s.drop_last();
        lemma_without_own_props(p, verifier, t);
        let w = without_own(p, verifier, t);
        assert forall|i: int| 0 <= i < w.len() implies #[trigger] s.contains(w[i]) by {
            assert(p.contains(w[i]));
            let j = choose|j: int| 0 <= j < p.len() && p[j] == w[i];
            assert(s[j] == w[i]);
        }
        if !(s.last().verifier == verifier && s.last().v_type == t) {
            let wl = w.push(s.last());
            assert(wl[w.len() as int] == s.last());
            assert forall|i: int| 0 <= i < wl.len() implies #[trigger] s.contains(wl[i]) by {
                if i == w.len() {
                    assert(s[s.len() - 1] == wl[i]);
                } else {
                    assert(wl[i] == w[i]);
                    assert(s.contains(w[i]));
                }
            }
            if one_per_verifier_and_type(s) {
                assert(one_per_verifier_and_type(p));
                assert forall|i: int, j: int| 0 <= i < j < wl.len() implies !(#[trigger] wl[i].verifier == #[trigger] wl[j].verifier
                    && wl[i].v_type == wl[j].v_type) by {
                    if j == w.len() {
                        assert(wl[i] == w[i]);
                        assert(p.contains(w[i]));
                        let m = choose|m: int| 0 <= m < p.len() && p[m] == w[i];
                        assert(s[m] == p[m]);
                        assert(s[s.len() - 1] == s.last());
                    } else {
                        assert(wl[i] == w[i]);
                        assert(wl[j] == w[j]);
                    }
                }
            }
        }
    }
}

/// Dropping one record keeps the list's properties and shortens it by one.
proof fn lemma_remove_keeps_props(s: Seq<Attestation>, v: int, verifier: Address, t: VerificationType)
    requires
        0 <= v < s.len(),
        one_per_verifier_and_type(s),
        forall|i: int| 0 <= i < s.len() ==> !(#[trigger] s[i].verifier == verifier && s[i].v_type == t),
    ensures
        s.remove(v).len() == s.len() - 1,
        one_per_verifier_and_type(s.remove(v)),
        forall|i: int| 0 <= i < s.remove(v).len() ==> !(#[trigger] s.remove(v)[i].verifier == verifier && s.remove(v)[i].v_type == t),
{
    let r = s.remove(v);
    assert forall|i: int| 0 <= i < r.len() implies r[i] == s[if i < v { i } else { i + 1 }] by {}
    assert forall|i: int, j: int| 0 <= i < j < r.len() implies !(#[trigger] r[i].verifier == #[trigger] r[j].verifier
        && r[i].v_type == r[j].v_type) by {
        let si = if i < v { i } else { i + 1 };
        let sj = if j < v { j } else { j + 1 };
        assert(r[i] == s[si]);
        assert(r[j] == s[sj]);
    }
    assert forall|i: int| 0 <= i < r.len() implies !(#[trigger] r[i].verifier == verifier && r[i].v_type == t) by {
        let si = if i < v { i } else { i + 1 };
        assert(r[i] == s[si]);
    }
}

/// Appending a record whose (verifier, type) is absent keeps one record
/// per pair.
proof fn lemma_push_keeps_one_per(s: Seq<Attestation>, a: Attestation)
    requires
        one_per_verifier_and_type(s),
        forall|i: int| 0 <= i < s.len() ==> !(#[trigger] s[i].verifier == a.verifier && s[i].v_type == a.v_type),
    ensures
        one_per_verifier_and_type(s.push(a)),
{
    let p = s.push(a);
    assert forall|i: int, j: int| 0 <= i < j < p.len() implies !(#[trigger] p[i].verifier == #[trigger] p[j].verifier
        && p[i].v_type == p[j].v_type) by {
        assert(p[i] == s[i]);
        if j < s.len() {
            assert(p[j] == s[j]);
        }
    }
}

/// Recording lapses keeps the length and who said what about which type.
proof fn lemma_lapses_keep_props(s: Seq<Attestation>, now: u64)
    ensures
        lapses_recorded(s, now).len() == s.len(),
        one_per_verifier_and_type(s) ==> one_per_verifier_and_type(lapses_recorded(s, now)),
{
    let l = lapses_recorded(s, now);
    if one_per_verifier_and_type(s) {
        assert forall|i: int, j: int| 0 <= i < j < l.len() implies !(#[trigger] l[i].verifier == #[trigger] l[j].verifier
            && l[i].v_type == l[j].v_type) by {
            assert(l[i].verifier == s[i].verifier && l[i].v_type == s[i].v_type);
            assert(l[j].verifier == s[j].verifier && l[j].v_type == s[j].v_type);
        }
    }
}

/// With no unrecorded lapse, recording lapses changes nothing.
proof fn lemma_no_lapses_no_change(s: Seq<Attestation>, now: u64)
    requires
        count_unrecorded_lapses(s, now) == 0,
    ensures
        lapses_recorded(s, now) == s,
    decreases s.len(),
{
    if s.len() > 0 {
        let p = s.drop_last();
        assert(count_unrecorded_lapses(p, now) == 0);
        lemma_no_lapses_no_change(p, now);
        let l = lapses_recorded(s, now);
        assert forall|i: int| 0 <= i < s.len() implies l[i] == s[i] by {
            if i < s.len() - 1 {
                assert(lapses_recorded(p, now)[i] == p[i]);
                assert(p[i] == s[i]);
            } else {
                assert(s[i] == s.last());
            }
        }
        assert(l =~= s);
    } else {
        assert(lapses_recorded(s, now) =~= s);
    }
}

/// Each verifier holds at most one record per type on every invoice, in
/// every reachable registry state: counting approvals counts distinct
/// verifiers, so no verifier reaches a threshold alone.
pub proof fn law_one_record_per_verifier_and_type(r: RegistryContract, k: u64)
    requires
        r.wf(),
    ensures
        one_per_verifier_and_type(r.attestations_of(k)),
        r.attestations_of(k).len() <= MAX_ATTESTATIONS_PER_INVOICE,
{
}

/// An invoice that has reached a terminal status (Repaid, Cancelled,
/// Defaulted) is frozen: no registry operation changes any field of it.
pub proof fn law_settled_invoices_are_frozen(pre: &RegistryContract, post: &RegistryContract, k: u64)
    requires
        RegistryContract::invoices_evolve(pre, post),
        pre.invoices@.contains_key(k),
        is_terminal(pre.invoices@[k].status),
    ensures
        post.invoices@.contains_key(k),
        post.invoices@[k] == pre.invoices@[k],
{
    let a = pre.invoices@[k];
    let b = post.invoices@[k];
    assert(b.status == a.status);
}

} // verus!
