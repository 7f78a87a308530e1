//! The all-in-one invoice registry contract: invoices, financing offers,
//! repayment with a protocol fee, default after a grace period, yield
//! rates and a blacklist, in one contract whose failures are messages.

use vstd::prelude::*;
use crate::address_list::{
    contains_address, copy_addresses, lemma_push_no_duplicates, lemma_without_no_duplicates,
    no_duplicates, remove_address, without,
};
use crate::arith::{checked_add, checked_mul, checked_sub, checked_tdiv, fits_i128, lemma_tdiv_fits, tdiv};
use crate::ordered_map::OrderedMap;
use crate::registry::TierRates;
use crate::types::{
    abort, Abort, Address, Failure, OfferStatus, ProtocolStats, RiskTier, Symbol,
    GRACE_PERIOD_SECS, MAX_OFFER_DURATION_SECS, MIN_INVOICE_AMOUNT, MIN_OFFER_DURATION_SECS,
};

verus! {

/// Lifecycle status of an invoice in this contract.
#[derive(Clone, Copy, Debug, PartialEq, Eq, Structural)]
pub enum InvoiceStatus {
    Pending,
    Financed,
    Repaid,
    Overdue,
    Cancelled,
}

#[derive(Clone, Copy, Debug, PartialEq, Eq, Structural)]
pub struct Invoice {
    pub id: Symbol,
    pub originator: Address,
    pub amount: i128,
    pub currency: Symbol,
    pub due_date: u64,
    pub status: InvoiceStatus,
}

#[derive(Clone, Copy, Debug, PartialEq, Eq, Structural)]
pub struct FinancingOffer {
    pub id: Symbol,
    pub invoice_id: Symbol,
    pub lender: Address,
    pub amount: i128,
    pub currency: Symbol,
    /// Interest rate in basis points (500 = 5.00%).
    pub interest_rate: u32,
    /// Financing duration in seconds.
    pub duration: u64,
    pub status: OfferStatus,
    /// When the offer was accepted; 0 before.
    pub funded_at: u64,
    /// Running total repaid against the obligation.
    pub amount_repaid: i128,
}

/// A token movement for the host to carry out.
#[derive(Clone, Copy, Debug, PartialEq, Eq, Structural)]
pub struct Payment {
    pub token: Address,
    pub from: Address,
    pub to: Address,
    pub amount: i128,
}

/// What a repayment hands to the host: the invoice as it now stands, the
/// payment to the lender, and the fee to the admin when there is one.
#[derive(Clone, Copy, Debug, PartialEq, Eq, Structural)]
pub struct Repayment {
    pub invoice: Invoice,
    pub to_lender: Payment,
    pub fee: Option<Payment>,
}

/// Principal plus flat yield at the offer's rate.
pub open spec fn total_due(o: FinancingOffer) -> int {
    o.amount + tdiv(o.amount * o.interest_rate, 10_000)
}

/// The contract's state. `admin` and `token` are set once by `initialize`.
pub struct InvoiceRegistryContract {
    pub admin: Option<Address>,
    pub token: Option<Address>,
    pub paused: bool,
    pub rates: TierRates,
    pub fee_bps: u32,
    pub invoices: OrderedMap<Invoice>,
    pub offers: OrderedMap<FinancingOffer>,
    pub stats: ProtocolStats,
    pub blacklist: Vec<Address>,
}

/// A selection of invoices.
#[derive(Clone, Copy, Debug, PartialEq, Eq, Structural)]
pub enum InvoiceQuery {
    All,
    Status(InvoiceStatus),
    Originator(Address),
}

impl InvoiceQuery {
    pub open spec fn matches(self, i: Invoice) -> bool {
        match self {
            InvoiceQuery::All => true,
            InvoiceQuery::Status(s) => i.status == s,
            InvoiceQuery::Originator(o) => i.originator == o,
        }
    }

    fn is_match(&self, i: &Invoice) -> (b: bool)
        ensures
            b == self.matches(*i),
    {
        match self {
            InvoiceQuery::All => true,
            InvoiceQuery::Status(s) => i.status == *s,
            InvoiceQuery::Originator(o) => i.originator == *o,
        }
    }
}

/// A selection of offers.
#[derive(Clone, Copy, Debug, PartialEq, Eq, Structural)]
pub enum OfferQuery {
    All,
    Invoice(Symbol),
    Lender(Address),
}

impl OfferQuery {
    pub open spec fn matches(self, o: FinancingOffer) -> bool {
        match self {
            OfferQuery::All => true,
            OfferQuery::Invoice(i) => o.invoice_id == i,
            OfferQuery::Lender(l) => o.lender == l,
        }
    }

    fn is_match(&self, o: &FinancingOffer) -> (b: bool)
        ensures
            b == self.matches(*o),
    {
        match self {
            OfferQuery::All => true,
            OfferQuery::Invoice(i) => o.invoice_id == *i,
            OfferQuery::Lender(l) => o.lender == *l,
        }
    }
}

impl InvoiceRegistryContract {
    /// Maps are ordered, the blacklist holds each address once, the fee is
    /// within its cap, and no offer was ever repaid beyond what it owes.
    pub open spec fn wf(&self) -> bool {
        &&& self.invoices.wf()
        &&& self.offers.wf()
        &&& no_duplicates(self.blacklist@)
        &&& self.fee_bps <= 500
        &&& forall|k: u64| #[trigger] self.offers@.contains_key(k) ==> 0 <= self.offers@[k].amount_repaid <= total_due(self.offers@[k])
    }

    /// A freshly deployed, uninitialized contract.
    pub fn new() -> (r: InvoiceRegistryContract)
        ensures
            r.wf(),
            r.admin is None,
            r.token is None,
            !r.paused,
            r.rates == (TierRates { a: None, b: None, c: None }),
            r.fee_bps == 0,
            r.invoices@ == Map::<u64, Invoice>::empty(),
            r.offers@ == Map::<u64, FinancingOffer>::empty(),
            r.stats == ProtocolStats::spec_zero(),
            r.blacklist@ == Seq::<Address>::empty(),
    {
        InvoiceRegistryContract {
            admin: None,
            token: None,
            paused: false,
            rates: TierRates { a: None, b: None, c: None },
            fee_bps: 0,
            invoices: OrderedMap::new(),
            offers: OrderedMap::new(),
            stats: ProtocolStats::zero(),
            blacklist: Vec::new(),
        }
    }

    /// One-time setup of the admin and the settlement token.
    pub fn initialize(&mut self, admin: Address, token: Address) -> (r: Result<(), Failure>)
        ensures
            if old(self).admin is Some {
                r == Err::<(), Failure>(abort(Abort::AlreadyInitialized)) && *final(self) == *old(self)
            } else {
                r is Ok && *final(self) == (InvoiceRegistryContract { admin: Some(admin), token: Some(token), ..*old(self) })
            },
    {
        if self.admin.is_some() {
            return Err(Failure::Abort(Abort::AlreadyInitialized));
        }
        self.admin = Some(admin);
        self.token = Some(token);
        Ok(())
    }

    pub fn get_admin(&self) -> (r: Result<Address, Failure>)
        ensures
            match self.admin {
                Some(a) => r == Ok::<Address, Failure>(a),
                None => r == Err::<Address, Failure>(abort(Abort::NotInitialized)),
            },
    {
        match self.admin {
            Some(a) => Ok(a),
            None => Err(Failure::Abort(Abort::NotInitialized)),
        }
    }

    pub fn get_token(&self) -> (r: Result<Address, Failure>)
        ensures
            match self.token {
                Some(a) => r == Ok::<Address, Failure>(a),
                None => r == Err::<Address, Failure>(abort(Abort::NotInitialized)),
            },
    {
        match self.token {
            Some(a) => Ok(a),
            None => Err(Failure::Abort(Abort::NotInitialized)),
        }
    }

    /// Why an admin-only call by `caller` fails: before initialization, or
    /// from anyone but the admin (`denied` names the refusal).
    pub open spec fn admin_failure(&self, caller: Address, denied: Abort) -> Option<Failure> {
        match self.admin {
            None => Some(abort(Abort::NotInitialized)),
            Some(a) => if a != caller {
                Some(abort(denied))
            } else {
                None
            },
        }
    }

    fn check_admin(&self, caller: Address, denied: Abort) -> (r: Result<(), Failure>)
        ensures
            match self.admin_failure(caller, denied) {
                Some(f) => r == Err::<(), Failure>(f),
                None => r is Ok,
            },
    {
        match self.admin {
            None => Err(Failure::Abort(Abort::NotInitialized)),
            Some(a) => if a != caller {
                Err(Failure::Abort(denied))
            } else {
                Ok(())
            },
        }
    }

    /// Hand admin rights over. Admin only.
    pub fn transfer_admin(&mut self, caller: Address, new_admin: Address) -> (r: Result<(), Failure>)
        ensures
            match old(self).admin_failure(caller, Abort::NotAdmin) {
                Some(f) => r == Err::<(), Failure>(f) && *final(self) == *old(self),
                None => r is Ok && *final(self) == (InvoiceRegistryContract { admin: Some(new_admin), ..*old(self) }),
            },
    {
        self.check_admin(caller, Abort::NotAdmin)?;
        self.admin = Some(new_admin);
        Ok(())
    }

    pub fn pause(&mut self, caller: Address) -> (r: Result<(), Failure>)
        ensures
            match old(self).admin_failure(caller, Abort::NotAdminCaller) {
                Some(f) => r == Err::<(), Failure>(f) && *final(self) == *old(self),
                None => r is Ok && *final(self) == (InvoiceRegistryContract { paused: true, ..*old(self) }),
            },
    {
        self.check_admin(caller, Abort::NotAdminCaller)?;
        self.paused = true;
        Ok(())
    }

    pub fn unpause(&mut self, caller: Address) -> (r: Result<(), Failure>)
        ensures
            match old(self).admin_failure(caller, Abort::NotAdminCaller) {
                Some(f) => r == Err::<(), Failure>(f) && *final(self) == *old(self),
                None => r is Ok && *final(self) == (InvoiceRegistryContract { paused: false, ..*old(self) }),
            },
    {
        self.check_admin(caller, Abort::NotAdminCaller)?;
        self.paused = false;
        Ok(())
    }

    pub fn contract_is_paused(&self) -> (b: bool)
        ensures
            b == self.paused,
    {
        self.paused
    }

    /// Set a tier's yield rate (at most 10 000 bps). Admin only.
    pub fn set_rate(&mut self, caller: Address, tier: RiskTier, rate_bps: u32) -> (r: Result<(), Failure>)
        ensures
            match old(self).admin_failure(caller, Abort::NotAdminCaller) {
                Some(f) => r == Err::<(), Failure>(f) && *final(self) == *old(self),
                None => if rate_bps <= 10_000 {
                    r is Ok && *final(self) == (InvoiceRegistryContract { rates: old(self).rates.with_rate(tier, rate_bps), ..*old(self) })
                } else {
                    r == Err::<(), Failure>(abort(Abort::RateOutOfRange)) && *final(self) == *old(self)
                },
            },
    {
        self.check_admin(caller, Abort::NotAdminCaller)?;
        if rate_bps > 10_000 {
            return Err(Failure::Abort(Abort::RateOutOfRange));
        }
        match tier {
            RiskTier::A => {
                self.rates.a = Some(rate_bps);
            },
            RiskTier::B => {
                self.rates.b = Some(rate_bps);
            },
            RiskTier::C => {
                self.rates.c = Some(rate_bps);
            },
        }
        Ok(())
    }

    pub fn get_rate(&self, tier: RiskTier) -> (r: Result<u32, Failure>)
        ensures
            match self.rates.rate(tier) {
                Some(v) => r == Ok::<u32, Failure>(v),
                None => r == Err::<u32, Failure>(abort(Abort::RateNotSet)),
            },
    {
        let v = match tier {
            RiskTier::A => self.rates.a,
            RiskTier::B => self.rates.b,
            RiskTier::C => self.rates.c,
        };
        match v {
            Some(v) => Ok(v),
            None => Err(Failure::Abort(Abort::RateNotSet)),
        }
    }

    /// Set the protocol fee taken from each repayment (at most 500 bps).
    /// Admin only.
    pub fn set_fee(&mut self, caller: Address, fee_bps: u32) -> (r: Result<(), Failure>)
        requires
            old(self).wf(),
        ensures
            final(self).wf(),
            match old(self).admin_failure(caller, Abort::NotAdminCaller) {
                Some(f) => r == Err::<(), Failure>(f) && *final(self) == *old(self),
                None => if fee_bps <= 500 {
                    r is Ok && *final(self) == (InvoiceRegistryContract { fee_bps, ..*old(self) })
                } else {
                    r == Err::<(), Failure>(abort(Abort::FeeOutOfRange)) && *final(self) == *old(self)
                },
            },
    {
        self.check_admin(caller, Abort::NotAdminCaller)?;
        if fee_bps > 500 {
            return Err(Failure::Abort(Abort::FeeOutOfRange));
        }
        self.fee_bps = fee_bps;
        Ok(())
    }

    pub fn get_fee(&self) -> (f: u32)
        ensures
            f == self.fee_bps,
    {
        self.fee_bps
    }

    // ── Invoices ────────────────────────────────────────────────────────────

    pub open spec fn register_failure(&self, id: Symbol, originator: Address, amount: i128, due_date: u64, now: u64) -> Option<Failure> {
        if self.paused {
            Some(abort(Abort::ContractPaused))
        } else if self.blacklist@.contains(originator) {
            Some(abort(Abort::AddressBlacklisted))
        } else if amount <= 0 {
            Some(abort(Abort::AmountNotPositive))
        } else if due_date <= now {
            Some(abort(Abort::DueDateNotInFuture))
        } else if self.invoices@.contains_key(id.0) {
            Some(abort(Abort::InvoiceExists))
        } else if self.stats.total_invoices == u32::MAX {
            Some(abort(Abort::ArithmeticOverflow))
        } else {
            None
        }
    }

    /// Register a new Pending invoice. The originator signs.
    pub fn register_invoice(&mut self, id: Symbol, originator: Address, amount: i128, currency: Symbol, due_date: u64, now: u64) -> (r: Result<Invoice, Failure>)
        requires
            old(self).wf(),
        ensures
            final(self).wf(),
            match old(self).register_failure(id, originator, amount, due_date, now) {
                Some(f) => r == Err::<Invoice, Failure>(f) && *final(self) == *old(self),
                None => {
                    let inv = Invoice { id, originator, amount, currency, due_date, status: InvoiceStatus::Pending };
                    &&& r == Ok::<Invoice, Failure>(inv)
                    &&& final(self).invoices@ == old(self).invoices@.insert(id.0, inv)
                    &&& *final(self) == (InvoiceRegistryContract {
                        invoices: final(self).invoices,
                        stats: ProtocolStats { total_invoices: (old(self).stats.total_invoices + 1) as u32, ..old(self).stats },
                        ..*old(self)
                    })
                },
            },
    {
        if self.paused {
            return Err(Failure::Abort(Abort::ContractPaused));
        }
        if contains_address(&self.blacklist, originator) {
            return Err(Failure::Abort(Abort::AddressBlacklisted));
        }
        if amount <= 0 {
            return Err(Failure::Abort(Abort::AmountNotPositive));
        }
        if due_date <= now {
            return Err(Failure::Abort(Abort::DueDateNotInFuture));
        }
        if self.invoices.contains_key(id.0) {
            return Err(Failure::Abort(Abort::InvoiceExists));
        }
        if self.stats.total_invoices == u32::MAX {
            return Err(Failure::Abort(Abort::ArithmeticOverflow));
        }
        let inv = Invoice { id, originator, amount, currency, due_date, status: InvoiceStatus::Pending };
        self.invoices.set(id.0, inv);
        self.stats.total_invoices = self.stats.total_invoices + 1;
        Ok(inv)
    }

    pub fn get_invoice(&self, id: Symbol) -> (r: Result<Invoice, Failure>)
        requires
            self.wf(),
        ensures
            if self.invoices@.contains_key(id.0) {
                r == Ok::<Invoice, Failure>(self.invoices@[id.0])
            } else {
                r == Err::<Invoice, Failure>(abort(Abort::InvoiceNotFound))
            },
    {
        match self.invoices.get(id.0) {
            Some(i) => Ok(*i),
            None => Err(Failure::Abort(Abort::InvoiceNotFound)),
        }
    }

    /// Overwrite an invoice's status.
    pub fn update_invoice_status(&mut self, id: Symbol, new_status: InvoiceStatus) -> (r: Result<Invoice, Failure>)
        requires
            old(self).wf(),
        ensures
            final(self).wf(),
            if old(self).invoices@.contains_key(id.0) {
                let inv = Invoice { status: new_status, ..old(self).invoices@[id.0] };
                &&& r == Ok::<Invoice, Failure>(inv)
                &&& final(self).invoices@ == old(self).invoices@.insert(id.0, inv)
                &&& *final(self) == (InvoiceRegistryContract { invoices: final(self).invoices, ..*old(self) })
            } else {
                r == Err::<Invoice, Failure>(abort(Abort::InvoiceNotFound)) && *final(self) == *old(self)
            },
    {
        let inv = self.get_invoice(id)?;
        let updated = Invoice { status: new_status, ..inv };
        self.invoices.set(id.0, updated);
        Ok(updated)
    }

    /// Why an originator's change to invoice `k` fails before its status is
    /// looked at.
    pub open spec fn owner_failure(&self, k: u64, originator: Address) -> Option<Failure> {
        if !self.invoices@.contains_key(k) {
            Some(abort(Abort::InvoiceNotFound))
        } else if self.invoices@[k].originator != originator {
            Some(abort(Abort::NotOriginator))
        } else {
            None
        }
    }

    /// Correct a Pending invoice's amount. Only its originator.
    pub fn update_invoice_amount(&mut self, id: Symbol, originator: Address, new_amount: i128) -> (r: Result<Invoice, Failure>)
        requires
            old(self).wf(),
        ensures
            final(self).wf(),
            match old(self).owner_failure(id.0, originator) {
                Some(f) => r == Err::<Invoice, Failure>(f) && *final(self) == *old(self),
                None => if old(self).invoices@[id.0].status != InvoiceStatus::Pending {
                    r == Err::<Invoice, Failure>(abort(Abort::InvoiceNotInPending)) && *final(self) == *old(self)
                } else if new_amount <= 0 {
                    r == Err::<Invoice, Failure>(abort(Abort::AmountNotPositive)) && *final(self) == *old(self)
                } else {
                    let inv = Invoice { amount: new_amount, ..old(self).invoices@[id.0] };
                    &&& r == Ok::<Invoice, Failure>(inv)
                    &&& final(self).invoices@ == old(self).invoices@.insert(id.0, inv)
                    &&& *final(self) == (InvoiceRegistryContract { invoices: final(self).invoices, ..*old(self) })
                },
            },
    {
        let inv = self.get_invoice(id)?;
        if inv.originator != originator {
            return Err(Failure::Abort(Abort::NotOriginator));
        }
        if inv.status != InvoiceStatus::Pending {
            return Err(Failure::Abort(Abort::InvoiceNotInPending));
        }
        if new_amount <= 0 {
            return Err(Failure::Abort(Abort::AmountNotPositive));
        }
        let updated = Invoice { amount: new_amount, ..inv };
        self.invoices.set(id.0, updated);
        Ok(updated)
    }

    /// Cancel a Pending invoice. Only its originator.
    pub fn cancel_invoice(&mut self, id: Symbol, originator: Address) -> (r: Result<Invoice, Failure>)
        requires
            old(self).wf(),
        ensures
            final(self).wf(),
            match old(self).owner_failure(id.0, originator) {
                Some(f) => r == Err::<Invoice, Failure>(f) && *final(self) == *old(self),
                None => if old(self).invoices@[id.0].status != InvoiceStatus::Pending {
                    r == Err::<Invoice, Failure>(abort(Abort::InvoiceNotInPending)) && *final(self) == *old(self)
                } else {
                    let inv = Invoice { status: InvoiceStatus::Cancelled, ..old(self).invoices@[id.0] };
                    &&& r == Ok::<Invoice, Failure>(inv)
                    &&& final(self).invoices@ == old(self).invoices@.insert(id.0, inv)
                    &&& *final(self) == (InvoiceRegistryContract { invoices: final(self).invoices, ..*old(self) })
                },
            },
    {
        let inv = self.get_invoice(id)?;
        if inv.originator != originator {
            return Err(Failure::Abort(Abort::NotOriginator));
        }
        if inv.status != InvoiceStatus::Pending {
            return Err(Failure::Abort(Abort::InvoiceNotInPending));
        }
        let updated = Invoice { status: InvoiceStatus::Cancelled, ..inv };
        self.invoices.set(id.0, updated);
        Ok(updated)
    }

    /// Mark a Financed invoice Overdue once its due date has passed. Anyone
    /// may call.
    pub fn mark_overdue(&mut self, id: Symbol, now: u64) -> (r: Result<Invoice, Failure>)
        requires
            old(self).wf(),
        ensures
            final(self).wf(),
            if !old(self).invoices@.contains_key(id.0) {
                r == Err::<Invoice, Failure>(abort(Abort::InvoiceNotFound)) && *final(self) == *old(self)
            } else if old(self).invoices@[id.0].status != InvoiceStatus::Financed {
                r == Err::<Invoice, Failure>(abort(Abort::NotFinancedForOverdue)) && *final(self) == *old(self)
            } else if now <= old(self).invoices@[id.0].due_date {
                r == Err::<Invoice, Failure>(abort(Abort::DueDateNotPassed)) && *final(self) == *old(self)
            } else {
                let inv = Invoice { status: InvoiceStatus::Overdue, ..old(self).invoices@[id.0] };
                &&& r == Ok::<Invoice, Failure>(inv)
                &&& final(self).invoices@ == old(self).invoices@.insert(id.0, inv)
                &&& *final(self) == (InvoiceRegistryContract { invoices: final(self).invoices, ..*old(self) })
            },
    {
        let inv = self.get_invoice(id)?;
        if inv.status != InvoiceStatus::Financed {
            return Err(Failure::Abort(Abort::NotFinancedForOverdue));
        }
        if now <= inv.due_date {
            return Err(Failure::Abort(Abort::DueDateNotPassed));
        }
        let updated = Invoice { status: InvoiceStatus::Overdue, ..inv };
        self.invoices.set(id.0, updated);
        Ok(updated)
    }

    // ── Offers ──────────────────────────────────────────────────────────────

    pub open spec fn create_offer_failure(
        &self,
        offer_id: Symbol,
        invoice_id: Symbol,
        lender: Address,
        amount: i128,
        interest_rate: u32,
        duration: u64,
    ) -> Option<Failure> {
        if self.blacklist@.contains(lender) {
            Some(abort(Abort::AddressBlacklisted))
        } else if amount <= 0 {
            Some(abort(Abort::OfferAmountNotPositive))
        } else if interest_rate == 0 {
            Some(abort(Abort::InterestRateZero))
        } else if interest_rate > 10_000 {
            Some(abort(Abort::InterestRateTooHigh))
        } else if duration < MIN_OFFER_DURATION_SECS {
            Some(abort(Abort::DurationTooShort))
        } else if duration > MAX_OFFER_DURATION_SECS {
            Some(abort(Abort::DurationTooLong))
        } else if !self.invoices@.contains_key(invoice_id.0) {
            Some(abort(Abort::InvoiceNotFound))
        } else if lender == self.invoices@[invoice_id.0].originator {
            Some(abort(Abort::SelfFinancing))
        } else if self.offers@.contains_key(offer_id.0) {
            Some(abort(Abort::OfferExists))
        } else if self.stats.total_offers == u32::MAX {
            Some(abort(Abort::ArithmeticOverflow))
        } else {
            None
        }
    }

    /// Post an offer on an invoice. The lender signs.
    pub fn create_offer(
        &mut self,
        offer_id: Symbol,
        invoice_id: Symbol,
        lender: Address,
        amount: i128,
        currency: Symbol,
        interest_rate: u32,
        duration: u64,
    ) -> (r: Result<FinancingOffer, Failure>)
        requires
            old(self).wf(),
        ensures
            final(self).wf(),
            match old(self).create_offer_failure(offer_id, invoice_id, lender, amount, interest_rate, duration) {
                Some(f) => r == Err::<FinancingOffer, Failure>(f) && *final(self) == *old(self),
                None => {
                    let o = FinancingOffer {
                        id: offer_id,
                        invoice_id,
                        lender,
                        amount,
                        currency,
                        interest_rate,
                        duration,
                        status: OfferStatus::Pending,
                        funded_at: 0,
                        amount_repaid: 0,
                    };
                    &&& r == Ok::<FinancingOffer, Failure>(o)
                    &&& final(self).offers@ == old(self).offers@.insert(offer_id.0, o)
                    &&& *final(self) == (InvoiceRegistryContract {
                        offers: final(self).offers,
                        stats: ProtocolStats { total_offers: (old(self).stats.total_offers + 1) as u32, ..old(self).stats },
                        ..*old(self)
                    })
                },
            },
    {
        if contains_address(&self.blacklist, lender) {
            return Err(Failure::Abort(Abort::AddressBlacklisted));
        }
        if amount <= 0 {
            return Err(Failure::Abort(Abort::OfferAmountNotPositive));
        }
        if interest_rate == 0 {
            return Err(Failure::Abort(Abort::InterestRateZero));
        }
        if interest_rate > 10_000 {
            return Err(Failure::Abort(Abort::InterestRateTooHigh));
        }
        if duration < MIN_OFFER_DURATION_SECS {
            return Err(Failure::Abort(Abort::DurationTooShort));
        }
        if duration > MAX_OFFER_DURATION_SECS {
            return Err(Failure::Abort(Abort::DurationTooLong));
        }
        let inv = self.get_invoice(invoice_id)?;
        if lender == inv.originator {
            return Err(Failure::Abort(Abort::SelfFinancing));
        }
        if self.offers.contains_key(offer_id.0) {
            return Err(Failure::Abort(Abort::OfferExists));
        }
        if self.stats.total_offers == u32::MAX {
            return Err(Failure::Abort(Abort::ArithmeticOverflow));
        }
        let o = FinancingOffer {
            id: offer_id,
            invoice_id,
            lender,
            amount,
            currency,
            interest_rate,
            duration,
            status: OfferStatus::Pending,
            funded_at: 0,
            amount_repaid: 0,
        };
        proof {
            assert(amount * interest_rate >= 0) by (nonlinear_arith)
                requires
                    amount > 0,
                    interest_rate > 0,
            ;
            assert((amount * interest_rate) / 10_000 >= 0) by (nonlinear_arith)
                requires
                    amount * interest_rate >= 0,
            ;
        }
        self.offers.set(offer_id.0, o);
        self.stats.total_offers = self.stats.total_offers + 1;
        Ok(o)
    }

    pub fn get_offer(&self, id: Symbol) -> (r: Result<FinancingOffer, Failure>)
        requires
            self.wf(),
        ensures
            if self.offers@.contains_key(id.0) {
                r == Ok::<FinancingOffer, Failure>(self.offers@[id.0])
            } else {
                r == Err::<FinancingOffer, Failure>(abort(Abort::OfferNotFound))
            },
    {
        match self.offers.get(id.0) {
            Some(o) => Ok(*o),
            None => Err(Failure::Abort(Abort::OfferNotFound)),
        }
    }

    /// Why `accept_offer` fails, in the order the contract checks.
    pub open spec fn accept_failure(&self, k: u64, originator: Address) -> Option<Failure> {
        let o = self.offers@[k];
        let inv = self.invoices@[o.invoice_id.0];
        if self.paused {
            Some(abort(Abort::ContractPaused))
        } else if !self.offers@.contains_key(k) {
            Some(abort(Abort::OfferNotFound))
        } else if o.status != OfferStatus::Pending {
            Some(abort(Abort::OfferNotPending))
        } else if !self.invoices@.contains_key(o.invoice_id.0) {
            Some(abort(Abort::InvoiceNotFound))
        } else if inv.originator != originator {
            Some(abort(Abort::NotOriginator))
        } else if inv.status != InvoiceStatus::Pending {
            Some(abort(Abort::InvoiceNotInPending))
        } else if self.token is None {
            Some(abort(Abort::NotInitialized))
        } else {
            None
        }
    }

    /// Accept a Pending offer on a Pending invoice. Only the invoice's
    /// originator. The lender's principal goes to the originator; the offer
    /// becomes Accepted and the invoice Financed.
    pub fn accept_offer(&mut self, offer_id: Symbol, originator: Address, now: u64) -> (r: Result<(FinancingOffer, Payment), Failure>)
        requires
            old(self).wf(),
        ensures
            final(self).wf(),
            match old(self).accept_failure(offer_id.0, originator) {
                Some(f) => r == Err::<(FinancingOffer, Payment), Failure>(f) && *final(self) == *old(self),
                None => {
                    let o = old(self).offers@[offer_id.0];
                    let inv = old(self).invoices@[o.invoice_id.0];
                    let accepted = FinancingOffer { status: OfferStatus::Accepted, funded_at: now, ..o };
                    &&& r == Ok::<(FinancingOffer, Payment), Failure>((accepted, Payment {
                        token: old(self).token.unwrap(),
                        from: o.lender,
                        to: inv.originator,
                        amount: o.amount,
                    }))
                    &&& final(self).offers@ == old(self).offers@.insert(offer_id.0, accepted)
                    &&& final(self).invoices@ == old(self).invoices@.insert(o.invoice_id.0, Invoice { status: InvoiceStatus::Financed, ..inv })
                    &&& *final(self) == (InvoiceRegistryContract { offers: final(self).offers, invoices: final(self).invoices, ..*old(self) })
                },
            },
    {
        if self.paused {
            return Err(Failure::Abort(Abort::ContractPaused));
        }
        let o = self.get_offer(offer_id)?;
        if o.status != OfferStatus::Pending {
            return Err(Failure::Abort(Abort::OfferNotPending));
        }
        let inv = self.get_invoice(o.invoice_id)?;
        if inv.originator != originator {
            return Err(Failure::Abort(Abort::NotOriginator));
        }
        if inv.status != InvoiceStatus::Pending {
            return Err(Failure::Abort(Abort::InvoiceNotInPending));
        }
        let token = match self.token {
            Some(t) => t,
            None => {
                return Err(Failure::Abort(Abort::NotInitialized));
            },
        };
        let accepted = FinancingOffer { status: OfferStatus::Accepted, funded_at: now, ..o };
        self.offers.set(offer_id.0, accepted);
        self.invoices.set(o.invoice_id.0, Invoice { status: InvoiceStatus::Financed, ..inv });
        Ok((accepted, Payment { token, from: o.lender, to: inv.originator, amount: o.amount }))
    }

    /// Reject a Pending offer. Only the invoice's originator.
    pub fn reject_offer(&mut self, offer_id: Symbol, originator: Address) -> (r: Result<FinancingOffer, Failure>)
        requires
            old(self).wf(),
        ensures
            final(self).wf(),
            ({
                let o = old(self).offers@[offer_id.0];
                if !old(self).offers@.contains_key(offer_id.0) {
                    r == Err::<FinancingOffer, Failure>(abort(Abort::OfferNotFound)) && *final(self) == *old(self)
                } else if o.status != OfferStatus::Pending {
                    r == Err::<FinancingOffer, Failure>(abort(Abort::OfferNotPending)) && *final(self) == *old(self)
                } else if !old(self).invoices@.contains_key(o.invoice_id.0) {
                    r == Err::<FinancingOffer, Failure>(abort(Abort::InvoiceNotFound)) && *final(self) == *old(self)
                } else if old(self).invoices@[o.invoice_id.0].originator != originator {
                    r == Err::<FinancingOffer, Failure>(abort(Abort::NotOriginator)) && *final(self) == *old(self)
                } else {
                    let rejected = FinancingOffer { status: OfferStatus::Rejected, ..o };
                    &&& r == Ok::<FinancingOffer, Failure>(rejected)
                    &&& final(self).offers@ == old(self).offers@.insert(offer_id.0, rejected)
                    &&& *final(self) == (InvoiceRegistryContract { offers: final(self).offers, ..*old(self) })
                }
            }),
    {
        let o = self.get_offer(offer_id)?;
        if o.status != OfferStatus::Pending {
            return Err(Failure::Abort(Abort::OfferNotPending));
        }
        let inv = self.get_invoice(o.invoice_id)?;
        if inv.originator != originator {
            return Err(Failure::Abort(Abort::NotOriginator));
        }
        let rejected = FinancingOffer { status: OfferStatus::Rejected, ..o };
        self.offers.set(offer_id.0, rejected);
        Ok(rejected)
    }

    /// Withdraw a Pending offer. Only its lender.
    pub fn withdraw_offer(&mut self, offer_id: Symbol, lender: Address) -> (r: Result<FinancingOffer, Failure>)
        requires
            old(self).wf(),
        ensures
            final(self).wf(),
            ({
                let o = old(self).offers@[offer_id.0];
                if !old(self).offers@.contains_key(offer_id.0) {
                    r == Err::<FinancingOffer, Failure>(abort(Abort::OfferNotFound)) && *final(self) == *old(self)
                } else if o.lender != lender {
                    r == Err::<FinancingOffer, Failure>(abort(Abort::NotLender)) && *final(self) == *old(self)
                } else if o.status != OfferStatus::Pending {
                    r == Err::<FinancingOffer, Failure>(abort(Abort::OfferNotPending)) && *final(self) == *old(self)
                } else {
                    let withdrawn = FinancingOffer { status: OfferStatus::Rejected, ..o };
                    &&& r == Ok::<FinancingOffer, Failure>(withdrawn)
                    &&& final(self).offers@ == old(self).offers@.insert(offer_id.0, withdrawn)
                    &&& *final(self) == (InvoiceRegistryContract { offers: final(self).offers, ..*old(self) })
                }
            }),
    {
        let o = self.get_offer(offer_id)?;
        if o.lender != lender {
            return Err(Failure::Abort(Abort::NotLender));
        }
        if o.status != OfferStatus::Pending {
            return Err(Failure::Abort(Abort::OfferNotPending));
        }
        let withdrawn = FinancingOffer { status: OfferStatus::Rejected, ..o };
        self.offers.set(offer_id.0, withdrawn);
        Ok(withdrawn)
    }

    // ── Repayment and default ───────────────────────────────────────────────

    /// The fee on a repayment of `amount`.
    pub open spec fn fee_on(&self, amount: i128) -> int {
        tdiv(amount * self.fee_bps, 10_000)
    }

    /// Why `repay_invoice` fails, in the order the contract checks.
    pub open spec fn repay_failure(&self, ik: u64, ok: u64, repayer: Address, amount: i128) -> Option<Failure> {
        let inv = self.invoices@[ik];
        let o = self.offers@[ok];
        if !self.invoices@.contains_key(ik) {
            Some(abort(Abort::InvoiceNotFound))
        } else if inv.originator != repayer {
            Some(abort(Abort::NotOriginator))
        } else if inv.status != InvoiceStatus::Financed {
            Some(abort(Abort::InvoiceNotFinanced))
        } else if !self.offers@.contains_key(ok) {
            Some(abort(Abort::OfferNotFound))
        } else if o.invoice_id.0 != ik {
            Some(abort(Abort::OfferInvoiceMismatch))
        } else if o.status != OfferStatus::Accepted && o.status != OfferStatus::Financed {
            Some(abort(Abort::OfferNotActive))
        } else if amount <= 0 {
            Some(abort(Abort::RepaymentNotPositive))
        } else if self.token is None {
            Some(abort(Abort::NotInitialized))
        } else if !fits_i128(o.amount * o.interest_rate) || !fits_i128(total_due(o)) {
            Some(abort(Abort::ArithmeticOverflow))
        } else if amount > total_due(o) - o.amount_repaid {
            Some(abort(Abort::RepaymentExceedsBalance))
        } else if !fits_i128(amount * self.fee_bps) {
            Some(abort(Abort::ArithmeticOverflow))
        } else if self.fee_on(amount) > 0 && self.admin is None {
            Some(abort(Abort::NotInitialized))
        } else {
            None
        }
    }

    /// Repay part or all of a Financed invoice's obligation. Only its
    /// originator. The lender receives the amount less the protocol fee,
    /// which goes to the admin; the obligation is discharged once
    /// principal plus yield is repaid.
    pub fn repay_invoice(&mut self, invoice_id: Symbol, offer_id: Symbol, repayer: Address, amount: i128) -> (r: Result<Repayment, Failure>)
        requires
            old(self).wf(),
        ensures
            final(self).wf(),
            match old(self).repay_failure(invoice_id.0, offer_id.0, repayer, amount) {
                Some(f) => r == Err::<Repayment, Failure>(f) && *final(self) == *old(self),
                None => {
                    let inv = old(self).invoices@[invoice_id.0];
                    let o = old(self).offers@[offer_id.0];
                    let fee = old(self).fee_on(amount);
                    let repaid = o.amount_repaid + amount;
                    let done = repaid >= total_due(o);
                    let new_inv = Invoice { status: if done { InvoiceStatus::Repaid } else { InvoiceStatus::Financed }, ..inv };
                    let new_offer = FinancingOffer {
                        amount_repaid: repaid as i128,
                        status: if done { OfferStatus::Repaid } else { OfferStatus::Financed },
                        ..o
                    };
                    let token = old(self).token.unwrap();
                    &&& r matches Ok(rep)
                    &&& rep.invoice == new_inv
                    &&& rep.to_lender == (Payment { token, from: repayer, to: o.lender, amount: (amount - fee) as i128 })
                    &&& rep.fee == (if fee > 0 {
                        Some(Payment { token, from: repayer, to: old(self).admin.unwrap(), amount: fee as i128 })
                    } else {
                        None::<Payment>
                    })
                    &&& final(self).invoices@ == old(self).invoices@.insert(invoice_id.0, new_inv)
                    &&& final(self).offers@ == old(self).offers@.insert(offer_id.0, new_offer)
                    &&& *final(self) == (InvoiceRegistryContract { invoices: final(self).invoices, offers: final(self).offers, ..*old(self) })
                },
            },
    {
        let inv = self.get_invoice(invoice_id)?;
        if inv.originator != repayer {
            return Err(Failure::Abort(Abort::NotOriginator));
        }
        if inv.status != InvoiceStatus::Financed {
            return Err(Failure::Abort(Abort::InvoiceNotFinanced));
        }
        let o = self.get_offer(offer_id)?;
        if o.invoice_id.0 != invoice_id.0 {
            return Err(Failure::Abort(Abort::OfferInvoiceMismatch));
        }
        if o.status != OfferStatus::Accepted && o.status != OfferStatus::Financed {
            return Err(Failure::Abort(Abort::OfferNotActive));
        }
        if amount <= 0 {
            return Err(Failure::Abort(Abort::RepaymentNotPositive));
        }
        let token = match self.token {
            Some(t) => t,
            None => {
                return Err(Failure::Abort(Abort::NotInitialized));
            },
        };
        let due = match total_due_of(&o) {
            Some(d) => d,
            None => {
                return Err(Failure::Abort(Abort::ArithmeticOverflow));
            },
        };
        // The invariant keeps 0 <= amount_repaid <= due, so the balance fits.
        let remaining = due - o.amount_repaid;
        if amount > remaining {
            return Err(Failure::Abort(Abort::RepaymentExceedsBalance));
        }
        let fee = match fee_share(amount, self.fee_bps) {
            Some(f) => f,
            None => {
                return Err(Failure::Abort(Abort::ArithmeticOverflow));
            },
        };
        let fee_payment = if fee > 0 {
            match self.admin {
                Some(a) => Some(Payment { token, from: repayer, to: a, amount: fee }),
                None => {
                    return Err(Failure::Abort(Abort::NotInitialized));
                },
            }
        } else {
            None
        };
        let to_lender = Payment { token, from: repayer, to: o.lender, amount: amount - fee };
        let repaid = o.amount_repaid + amount;
        let done = repaid >= due;
        let new_inv = Invoice { status: if done { InvoiceStatus::Repaid } else { InvoiceStatus::Financed }, ..inv };
        let new_offer = FinancingOffer {
            amount_repaid: repaid,
            status: if done { OfferStatus::Repaid } else { OfferStatus::Financed },
            ..o
        };
        self.invoices.set(invoice_id.0, new_inv);
        self.offers.set(offer_id.0, new_offer);
        Ok(Repayment { invoice: new_inv, to_lender, fee: fee_payment })
    }

    /// Why `reclaim_invoice` fails, in the order the contract checks.
    pub open spec fn reclaim_failure(&self, ik: u64, ok: u64, lender: Address, now: u64) -> Option<Failure> {
        let inv = self.invoices@[ik];
        let o = self.offers@[ok];
        if !self.invoices@.contains_key(ik) {
            Some(abort(Abort::InvoiceNotFound))
        } else if inv.status != InvoiceStatus::Overdue {
            Some(abort(Abort::InvoiceNotOverdue))
        } else if inv.due_date + GRACE_PERIOD_SECS > u64::MAX {
            Some(abort(Abort::ArithmeticOverflow))
        } else if now < inv.due_date + GRACE_PERIOD_SECS {
            Some(abort(Abort::GracePeriodNotElapsed))
        } else if !self.offers@.contains_key(ok) {
            Some(abort(Abort::OfferNotFound))
        } else if o.invoice_id.0 != ik {
            Some(abort(Abort::OfferInvoiceMismatch))
        } else if o.lender != lender {
            Some(abort(Abort::NotLender))
        } else if o.status != OfferStatus::Accepted && o.status != OfferStatus::Financed {
            Some(abort(Abort::OfferNotActive))
        } else {
            None
        }
    }

    /// Record a default on an Overdue invoice once the grace period after
    /// its due date has passed. Only the financing lender. No funds move.
    pub fn reclaim_invoice(&mut self, invoice_id: Symbol, offer_id: Symbol, lender: Address, now: u64) -> (r: Result<FinancingOffer, Failure>)
        requires
            old(self).wf(),
        ensures
            final(self).wf(),
            match old(self).reclaim_failure(invoice_id.0, offer_id.0, lender, now) {
                Some(f) => r == Err::<FinancingOffer, Failure>(f) && *final(self) == *old(self),
                None => {
                    let o = FinancingOffer { status: OfferStatus::Defaulted, ..old(self).offers@[offer_id.0] };
                    &&& r == Ok::<FinancingOffer, Failure>(o)
                    &&& final(self).offers@ == old(self).offers@.insert(offer_id.0, o)
                    &&& *final(self) == (InvoiceRegistryContract { offers: final(self).offers, ..*old(self) })
                },
            },
    {
        let inv = self.get_invoice(invoice_id)?;
        if inv.status != InvoiceStatus::Overdue {
            return Err(Failure::Abort(Abort::InvoiceNotOverdue));
        }
        let unlock = match inv.due_date.checked_add(GRACE_PERIOD_SECS) {
            Some(t) => t,
            None => {
                return Err(Failure::Abort(Abort::ArithmeticOverflow));
            },
        };
        if now < unlock {
            return Err(Failure::Abort(Abort::GracePeriodNotElapsed));
        }
        let o = self.get_offer(offer_id)?;
        if o.invoice_id.0 != invoice_id.0 {
            return Err(Failure::Abort(Abort::OfferInvoiceMismatch));
        }
        if o.lender != lender {
            return Err(Failure::Abort(Abort::NotLender));
        }
        if o.status != OfferStatus::Accepted && o.status != OfferStatus::Financed {
            return Err(Failure::Abort(Abort::OfferNotActive));
        }
        let defaulted = FinancingOffer { status: OfferStatus::Defaulted, ..o };
        self.offers.set(offer_id.0, defaulted);
        Ok(defaulted)
    }

    /// What is still owed on an offer: principal plus yield less what was
    /// repaid, never below 0; 0 once it is Repaid or Defaulted.
    pub fn calculate_total_due(&self, offer_id: Symbol) -> (r: Result<i128, Failure>)
        requires
            self.wf(),
        ensures
            ({
                let o = self.offers@[offer_id.0];
                if !self.offers@.contains_key(offer_id.0) {
                    r == Err::<i128, Failure>(abort(Abort::OfferNotFound))
                } else if o.status == OfferStatus::Repaid || o.status == OfferStatus::Defaulted {
                    r == Ok::<i128, Failure>(0)
                } else if !fits_i128(o.amount * o.interest_rate) || !fits_i128(total_due(o)) {
                    r == Err::<i128, Failure>(abort(Abort::ArithmeticOverflow))
                } else {
                    r == Ok::<i128, Failure>((if total_due(o) - o.amount_repaid > 0 { total_due(o) - o.amount_repaid } else { 0 }) as i128)
                }
            }),
    {
        let o = self.get_offer(offer_id)?;
        if o.status == OfferStatus::Repaid || o.status == OfferStatus::Defaulted {
            return Ok(0);
        }
        let due = match total_due_of(&o) {
            Some(d) => d,
            None => {
                return Err(Failure::Abort(Abort::ArithmeticOverflow));
            },
        };
        let left = due - o.amount_repaid;
        if left > 0 {
            Ok(left)
        } else {
            Ok(0)
        }
    }

    // ── Queries ─────────────────────────────────────────────────────────────

    pub open spec fn selected_invoices(&self, q: InvoiceQuery) -> Seq<Invoice> {
        self.invoices.values().filter(|i: Invoice| q.matches(i))
    }

    pub open spec fn selected_offers(&self, q: OfferQuery) -> Seq<FinancingOffer> {
        self.offers.values().filter(|o: FinancingOffer| q.matches(o))
    }

    fn select_invoices(&self, q: InvoiceQuery) -> (v: Vec<Invoice>)
        requires
            self.wf(),
        ensures
            v@ == self.selected_invoices(q),
    {
        let ghost vals = self.invoices.values();
        let mut out: Vec<Invoice> = Vec::new();
        let n = self.invoices.len();
        let mut i: usize = 0;
        while i < n
            invariant
                n == self.invoices.entries().len(),
                vals == self.invoices.values(),
                vals.len() == n,
                i <= n,
                out@ == vals.take(i as int).filter(|x: Invoice| q.matches(x)),
            decreases n - i,
        {
            let inv = *self.invoices.value_at(i);
            proof {
                assert(vals[i as int] == inv);
                assert(vals.take(i as int + 1).drop_last() =~= vals.take(i as int));
                reveal(Seq::filter);
            }
            if q.is_match(&inv) {
                out.push(inv);
            }
            i = i + 1;
        }
        proof {
            assert(vals.take(n as int) =~= vals);
        }
        out
    }

    fn select_offers(&self, q: OfferQuery) -> (v: Vec<FinancingOffer>)
        requires
            self.wf(),
        ensures
            v@ == self.selected_offers(q),
    {
        let ghost vals = self.offers.values();
        let mut out: Vec<FinancingOffer> = Vec::new();
        let n = self.offers.len();
        let mut i: usize = 0;
        while i < n
            invariant
                n == self.offers.entries().len(),
                vals == self.offers.values(),
                vals.len() == n,
                i <= n,
                out@ == vals.take(i as int).filter(|x: FinancingOffer| q.matches(x)),
            decreases n - i,
        {
            let o = *self.offers.value_at(i);
            proof {
                assert(vals[i as int] == o);
                assert(vals.take(i as int + 1).drop_last() =~= vals.take(i as int));
                reveal(Seq::filter);
            }
            if q.is_match(&o) {
                out.push(o);
            }
            i = i + 1;
        }
        proof {
            assert(vals.take(n as int) =~= vals);
        }
        out
    }

    pub fn get_invoices_by_status(&self, status: InvoiceStatus) -> (v: Vec<Invoice>)
        requires
            self.wf(),
        ensures
            v@ == self.selected_invoices(InvoiceQuery::Status(status)),
    {
        self.select_invoices(InvoiceQuery::Status(status))
    }

    pub fn get_invoices_by_originator(&self, originator: Address) -> (v: Vec<Invoice>)
        requires
            self.wf(),
        ensures
            v@ == self.selected_invoices(InvoiceQuery::Originator(originator)),
    {
        self.select_invoices(InvoiceQuery::Originator(originator))
    }

    pub fn get_all_invoices(&self) -> (v: Vec<Invoice>)
        requires
            self.wf(),
        ensures
            v@ == self.selected_invoices(InvoiceQuery::All),
    {
        self.select_invoices(InvoiceQuery::All)
    }

    pub fn get_offers_by_invoice(&self, invoice_id: Symbol) -> (v: Vec<FinancingOffer>)
        requires
            self.wf(),
        ensures
            v@ == self.selected_offers(OfferQuery::Invoice(invoice_id)),
    {
        self.select_offers(OfferQuery::Invoice(invoice_id))
    }

    pub fn get_offers_by_lender(&self, lender: Address) -> (v: Vec<FinancingOffer>)
        requires
            self.wf(),
        ensures
            v@ == self.selected_offers(OfferQuery::Lender(lender)),
    {
        self.select_offers(OfferQuery::Lender(lender))
    }

    pub fn get_all_offers(&self) -> (v: Vec<FinancingOffer>)
        requires
            self.wf(),
        ensures
            v@ == self.selected_offers(OfferQuery::All),
    {
        self.select_offers(OfferQuery::All)
    }

    // ── Blacklist and statistics ────────────────────────────────────────────

    /// Ban an address from registering invoices and posting offers.
    /// Idempotent. Admin only.
    pub fn blacklist_address(&mut self, caller: Address, target: Address) -> (r: Result<(), Failure>)
        requires
            old(self).wf(),
        ensures
            final(self).wf(),
            match old(self).admin_failure(caller, Abort::NotAdminCaller) {
                Some(f) => r == Err::<(), Failure>(f) && *final(self) == *old(self),
                None => r is Ok && if old(self).blacklist@.contains(target) {
                    *final(self) == *old(self)
                } else {
                    final(self).blacklist@ == old(self).blacklist@.push(target)
                        && *final(self) == (InvoiceRegistryContract { blacklist: final(self).blacklist, ..*old(self) })
                },
            },
    {
        self.check_admin(caller, Abort::NotAdminCaller)?;
        if contains_address(&self.blacklist, target) {
            return Ok(());
        }
        proof {
            lemma_push_no_duplicates(self.blacklist@, target);
        }
        self.blacklist.push(target);
        Ok(())
    }

    /// Lift a ban. Admin only.
    pub fn unblacklist_address(&mut self, caller: Address, target: Address) -> (r: Result<(), Failure>)
        requires
            old(self).wf(),
        ensures
            final(self).wf(),
            match old(self).admin_failure(caller, Abort::NotAdminCaller) {
                Some(f) => r == Err::<(), Failure>(f) && *final(self) == *old(self),
                None => r is Ok && final(self).blacklist@ == without(old(self).blacklist@, target)
                    && *final(self) == (InvoiceRegistryContract { blacklist: final(self).blacklist, ..*old(self) }),
            },
    {
        self.check_admin(caller, Abort::NotAdminCaller)?;
        proof {
            lemma_without_no_duplicates(self.blacklist@, target);
        }
        self.blacklist = remove_address(&self.blacklist, target);
        Ok(())
    }

    pub fn is_blacklisted(&self, address: Address) -> (b: bool)
        ensures
            b == self.blacklist@.contains(address),
    {
        contains_address(&self.blacklist, address)
    }

    pub fn get_blacklist(&self) -> (v: Vec<Address>)
        ensures
            v@ == self.blacklist@,
    {
        copy_addresses(&self.blacklist)
    }

    pub fn get_stats(&self) -> (s: ProtocolStats)
        ensures
            s == self.stats,
    {
        self.stats
    }
}

/// Principal plus yield of an offer, when it fits `i128`.
fn total_due_of(o: &FinancingOffer) -> (r: Option<i128>)
    ensures
        match r {
            Some(d) => fits_i128(o.amount * o.interest_rate) && fits_i128(total_due(*o)) && d == total_due(*o),
            None => !fits_i128(o.amount * o.interest_rate) || !fits_i128(total_due(*o)),
        },
{
    let scaled = match checked_mul(o.amount, o.interest_rate as i128) {
        Some(v) => v,
        None => {
            return None;
        },
    };
    proof {
        lemma_tdiv_fits(scaled as int, 10_000);
    }
    let y = match checked_tdiv(scaled, 10_000) {
        Some(v) => v,
        None => {
            return None;
        },
    };
    checked_add(o.amount, y)
}

/// The fee share of a repayment of `amount` at `fee_bps` (at most 500):
/// `amount * fee_bps / 10_000`, truncated; `None` when the product leaves
/// `i128`.
pub fn fee_share(amount: i128, fee_bps: u32) -> (fee: Option<i128>)
    requires
        amount > 0,
        fee_bps <= 500,
    ensures
        match fee {
            Some(f) => fits_i128(amount * fee_bps) && f == tdiv(amount * fee_bps, 10_000) && 0 <= f <= amount,
            None => !fits_i128(amount * fee_bps),
        },
{
    proof {
        lemma_fee_bounds(amount as int, fee_bps as int);
    }
    let scaled = match checked_mul(amount, fee_bps as i128) {
        Some(v) => v,
        None => {
            return None;
        },
    };
    proof {
        lemma_tdiv_fits(scaled as int, 10_000);
    }
    checked_tdiv(scaled, 10_000)
}

/// The fee never exceeds the repayment it is taken from.
proof fn lemma_fee_bounds(amount: int, bps: int)
    requires
        amount > 0,
        0 <= bps <= 500,
    ensures
        0 <= tdiv(amount * bps, 10_000) <= amount,
{
    assert(0 <= amount * bps <= amount * 500) by (nonlinear_arith)
        requires
            amount > 0,
            0 <= bps <= 500,
    ;
    assert((amount * bps) / 10_000 <= amount) by (nonlinear_arith)
        requires
            amount > 0,
            0 <= amount * bps <= amount * 500,
    ;
    assert((amount * bps) / 10_000 >= 0) by (nonlinear_arith)
        requires
            amount * bps >= 0,
    ;
}

/// A repayment splits exactly: what the lender receives and the fee add up
/// to the amount repaid, and the fee is never negative nor larger than it.
pub proof fn law_repayment_splits_exactly(amount: i128, fee_bps: u32)
    requires
        amount > 0,
        fee_bps <= 500,
    ensures
        (amount - tdiv(amount * fee_bps, 10_000)) + tdiv(amount * fee_bps, 10_000) == amount,
        0 <= tdiv(amount * fee_bps, 10_000) <= amount,
        0 <= amount - tdiv(amount * fee_bps, 10_000) <= amount,
{
    lemma_fee_bounds(amount as int, fee_bps as int);
}

/// An offer is never repaid beyond what it owes: in every reachable state
/// each offer's repaid total lies between 0 and principal plus yield.
pub proof fn law_never_repaid_beyond_due(c: InvoiceRegistryContract, k: u64)
    requires
        c.wf(),
        c.offers@.contains_key(k),
    ensures
        0 <= c.offers@[k].amount_repaid <= total_due(c.offers@[k]),
{
}

} // verus!
