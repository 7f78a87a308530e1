//! The financing contract: lenders' offers on registered invoices, their
//! acceptance and rejection, and the negotiation by which a lender and an
//! originator converge on terms.
//!
//! What the contract reads from the registry (the invoice, and whether an
//! address is blacklisted) is handed in by the host. What settlement moves
//! (the principal from lender to originator, the registry's transition of
//! the invoice to Financed, the position-token mint) is handed back as a
//! `Settlement` for the host to carry out in the same transaction.

use vstd::prelude::*;
use crate::arith::{checked_add, checked_mul, checked_sub, checked_tdiv, fits_i128, fits_u32, lemma_tdiv_fits, tdiv};
use crate::address_list::copy_addresses;
use crate::currency::{resolved_token, CurrencyRegistry};
use crate::governance::{assert_threshold, meets_threshold, valid_signer_set, validate_signers, AdminConfig};
use crate::ordered_map::OrderedMap;
use crate::paging::page;
use crate::types::{
    abort, err, Abort, Address, ContractError, Failure, FinancingOffer, Invoice, InvoiceStatus,
    LenderStats, NegotiationParty, NegotiationRecord, NegotiationStatus, OfferStatus,
    ProtocolStats, RepaymentSchedule, ScheduleFrequency, Symbol, DEFAULT_NEGOTIATION_WINDOW_SECS, MAX_NEGOTIATION_ROUNDS,
    MAX_INTEREST_BPS, MAX_NEGOTIATION_WINDOW_SECS, MAX_OFFER_DURATION_SECS, MIN_NEGOTIATION_WINDOW_SECS,
    MIN_OFFER_DURATION_SECS,
};

verus! {

/// The canonical term tuple of an offer or a negotiation round.
#[derive(Clone, Copy, Debug, PartialEq, Eq, Structural)]
pub struct Terms {
    pub amount: i128,
    pub interest_rate: u32,
    pub duration: u64,
}

/// The bounds `create_offer` enforces, which every negotiated round must
/// meet too.
pub open spec fn terms_valid(t: Terms) -> bool {
    &&& t.amount > 0
    &&& 1 <= t.interest_rate <= MAX_INTEREST_BPS
    &&& MIN_OFFER_DURATION_SECS <= t.duration <= MAX_OFFER_DURATION_SECS
}

pub open spec fn record_terms(r: NegotiationRecord) -> Terms {
    Terms { amount: r.amount, interest_rate: r.interest_rate, duration: r.duration }
}

pub open spec fn offer_terms(o: FinancingOffer) -> Terms {
    Terms { amount: o.amount, interest_rate: o.interest_rate, duration: o.duration }
}

/// The most recent round proposed by `party`, if that side proposed at all.
pub open spec fn last_proposal_of(history: Seq<NegotiationRecord>, party: NegotiationParty) -> Option<NegotiationRecord>
    decreases history.len(),
{
    if history.len() == 0 {
        None
    } else if history.last().party == party {
        Some(history.last())
    } else {
        last_proposal_of(history.drop_last(), party)
    }
}

/// The most recent round proposed by `party`. Only a party's latest proposal
/// is live, so an earlier one can never be executed against them.
pub fn last_proposal_by(history: &Vec<NegotiationRecord>, party: NegotiationParty) -> (r: Option<NegotiationRecord>)
    ensures
        r == last_proposal_of(history@, party),
{
    let mut latest: Option<NegotiationRecord> = None;
    let mut i: usize = 0;
    while i < history.len()
        invariant
            i <= history@.len(),
            latest == last_proposal_of(history@.take(i as int), party),
        decreases history@.len() - i,
    {
        let rec = history[i];
        proof {
            assert(history@.take(i as int + 1).drop_last() =~= history@.take(i as int));
        }
        if rec.party == party {
            latest = Some(rec);
        }
        i = i + 1;
    }
    proof {
        assert(history@.take(i as int) =~= history@);
    }
    latest
}

/// Check a proposed term tuple against the bounds of `create_offer`.
pub fn assert_terms_valid(t: Terms) -> (r: Result<(), Failure>)
    ensures
        r is Ok <==> terms_valid(t),
        r is Err ==> r == Err::<(), Failure>(err(ContractError::InvalidInput)),
{
    let rate_ok = 1 <= t.interest_rate && t.interest_rate <= MAX_INTEREST_BPS;
    let duration_ok = MIN_OFFER_DURATION_SECS <= t.duration && t.duration <= MAX_OFFER_DURATION_SECS;
    if t.amount <= 0 || !rate_ok || !duration_ok {
        return Err(Failure::Contract(ContractError::InvalidInput));
    }
    Ok(())
}

/// What the host carries out when an offer settles: pull `offer.amount` of
/// `token` from the lender to the invoice's originator, transition the
/// invoice to Financed in the registry, and, when a position token is
/// configured, mint `offer.amount` of it to the lender.
#[derive(Clone, Copy, Debug, PartialEq, Eq, Structural)]
pub struct Settlement {
    pub offer: FinancingOffer,
    pub token: Address,
    pub position_token: Option<Address>,
    /// The negotiation was still open and has been closed as Accepted.
    pub negotiation_accepted: bool,
}

/// Result of a negotiation round: the offer as it stands, and the settlement
/// when the round produced agreement.
#[derive(Clone, Copy, Debug, PartialEq, Eq, Structural)]
pub struct RoundOutcome {
    pub offer: FinancingOffer,
    pub settlement: Option<Settlement>,
}

/// A persisted negotiation outcome is always a terminal one.
pub open spec fn is_terminal_outcome(s: NegotiationStatus) -> bool {
    s == NegotiationStatus::Accepted || s == NegotiationStatus::Closed || s == NegotiationStatus::Expired
}

pub open spec fn lender_stats_of(m: Map<u64, LenderStats>, k: u64) -> LenderStats {
    if m.contains_key(k) {
        m[k]
    } else {
        LenderStats::spec_zero()
    }
}

/// The financing contract's state.
pub struct FinancingContract {
    /// M-of-N admin governance.
    pub admin: AdminConfig,
    pub registry: Address,
    /// Default settlement token.
    pub token: Address,
    pub repayment: Option<Address>,
    pub position_token: Option<Address>,
    pub paused: bool,
    pub fee_bps: u32,
    pub currencies: CurrencyRegistry,
    /// Offer id -> offer.
    pub offers: OrderedMap<FinancingOffer>,
    /// Lender -> activity statistics.
    pub lender_stats: OrderedMap<LenderStats>,
    pub stats: ProtocolStats,
    /// Offer id -> round-by-round negotiation history.
    pub negotiations: OrderedMap<Vec<NegotiationRecord>>,
    /// Offer id -> negotiation deadline, frozen when the negotiation opens.
    pub deadlines: OrderedMap<u64>,
    /// Offer id -> persisted terminal negotiation outcome.
    pub outcomes: OrderedMap<NegotiationStatus>,
    /// Configured negotiation window; `None` means the default.
    pub negotiation_window: Option<u64>,
    /// Offer id -> repayment schedule.
    pub schedules: OrderedMap<RepaymentSchedule>,
}

impl FinancingContract {
    /// The contract's invariants: a valid signer set, well-formed tables,
    /// every stored offer within the bounds `create_offer` enforces, only
    /// terminal outcomes persisted, positive installments, and at most
    /// `MAX_NEGOTIATION_ROUNDS` rounds per negotiation.
    pub open spec fn wf(&self) -> bool {
        &&& valid_signer_set(self.admin.signers@, self.admin.threshold)
        &&& self.currencies.wf()
        &&& self.offers.wf()
        &&& self.lender_stats.wf()
        &&& self.negotiations.wf()
        &&& self.deadlines.wf()
        &&& self.outcomes.wf()
        &&& self.schedules.wf()
        &&& forall|k: u64| #[trigger] self.offers@.contains_key(k) ==> terms_valid(offer_terms(self.offers@[k]))
        &&& forall|k: u64| #[trigger] self.outcomes@.contains_key(k) ==> is_terminal_outcome(self.outcomes@[k])
        &&& forall|k: u64| #[trigger] self.schedules@.contains_key(k) ==> self.schedules@[k].installment_amount > 0
        &&& forall|k: u64| #[trigger] self.negotiations@.contains_key(k) ==> self.negotiations@[k]@.len() <= MAX_NEGOTIATION_ROUNDS
    }

    pub open spec fn history_of(&self, k: u64) -> Seq<NegotiationRecord> {
        if self.negotiations@.contains_key(k) {
            self.negotiations@[k]@
        } else {
            Seq::empty()
        }
    }

    pub open spec fn deadline_of(&self, k: u64) -> u64 {
        if self.deadlines@.contains_key(k) {
            self.deadlines@[k]
        } else {
            0
        }
    }

    pub open spec fn window(&self) -> u64 {
        match self.negotiation_window {
            Some(w) => w,
            None => DEFAULT_NEGOTIATION_WINDOW_SECS,
        }
    }

    /// Negotiation status as of `now`. `Expired` is derived from the
    /// deadline; an offer that left Pending by another route reads `Closed`.
    pub open spec fn negotiation_status_at(&self, k: u64, now: u64) -> NegotiationStatus {
        if self.outcomes@.contains_key(k) {
            self.outcomes@[k]
        } else if self.history_of(k).len() == 0 {
            NegotiationStatus::NoNegotiation
        } else if !(self.offers@.contains_key(k) && self.offers@[k].status == OfferStatus::Pending) {
            NegotiationStatus::Closed
        } else if now > self.deadline_of(k) {
            NegotiationStatus::Expired
        } else {
            NegotiationStatus::Open
        }
    }

    /// Constructor: single-admin bootstrap configuration, registry and
    /// default settlement token.
    pub fn new(admin: Address, registry: Address, token: Address) -> (f: FinancingContract)
        ensures
            f.wf(),
            f.admin.signers@ == seq![admin],
            f.admin.threshold == 1,
            f.registry == registry,
            f.token == token,
            f.repayment is None,
            f.position_token is None,
            !f.paused,
            f.fee_bps == 0,
            f.currencies@ == Map::<u64, Address>::empty(),
            f.offers@ == Map::<u64, FinancingOffer>::empty(),
            f.lender_stats@ == Map::<u64, LenderStats>::empty(),
            f.stats == ProtocolStats::spec_zero(),
            f.negotiations@ == Map::<u64, Vec<NegotiationRecord>>::empty(),
            f.deadlines@ == Map::<u64, u64>::empty(),
            f.outcomes@ == Map::<u64, NegotiationStatus>::empty(),
            f.negotiation_window is None,
            f.schedules@ == Map::<u64, RepaymentSchedule>::empty(),
    {
        FinancingContract {
            admin: AdminConfig::bootstrap(admin),
            registry,
            token,
            repayment: None,
            position_token: None,
            paused: false,
            fee_bps: 0,
            currencies: CurrencyRegistry::new(),
            offers: OrderedMap::new(),
            lender_stats: OrderedMap::new(),
            stats: ProtocolStats::zero(),
            negotiations: OrderedMap::new(),
            deadlines: OrderedMap::new(),
            outcomes: OrderedMap::new(),
            negotiation_window: None,
            schedules: OrderedMap::new(),
        }
    }

    fn check_not_paused(&self) -> (r: Result<(), Failure>)
        ensures
            r is Ok <==> !self.paused,
            r is Err ==> r == Err::<(), Failure>(err(ContractError::Paused)),
    {
        if self.paused {
            Err(Failure::Contract(ContractError::Paused))
        } else {
            Ok(())
        }
    }

    /// The threshold check: `signers` are distinct configured signers, at
    /// least as many as the threshold (the host requires each to sign).
    fn check_admin(&self, signers: &Vec<Address>) -> (r: Result<(), Failure>)
        ensures
            r is Ok <==> meets_threshold(self.admin.signers@, self.admin.threshold, signers@),
            r is Err ==> r == Err::<(), Failure>(err(ContractError::Unauthorized)),
    {
        assert_threshold(&self.admin, signers)
    }

    /// Failure of an admin-gated setter guarded by the pause.
    pub open spec fn admin_failure(&self, signers: Seq<Address>) -> Option<Failure> {
        if self.paused {
            Some(err(ContractError::Paused))
        } else if !meets_threshold(self.admin.signers@, self.admin.threshold, signers) {
            Some(err(ContractError::Unauthorized))
        } else {
            None
        }
    }

    /// Register the repayment contract, the only caller of the repayment
    /// callbacks. Threshold-gated.
    pub fn set_repayment_contract(&mut self, signers: &Vec<Address>, repayment: Address) -> (r: Result<(), Failure>)
        ensures
            match old(self).admin_failure(signers@) {
                Some(f) => r == Err::<(), Failure>(f) && *final(self) == *old(self),
                None => r is Ok && *final(self) == (FinancingContract { repayment: Some(repayment), ..*old(self) }),
            },
    {
        self.check_not_paused()?;
        self.check_admin(signers)?;
        self.repayment = Some(repayment);
        Ok(())
    }

    /// The primary admin: the first configured signer.
    pub fn get_admin(&self) -> (r: Result<Address, Failure>)
        ensures
            if self.admin.signers@.len() > 0 {
                r == Ok::<Address, Failure>(self.admin.signers@[0])
            } else {
                r == Err::<Address, Failure>(abort(Abort::NotInitialized))
            },
    {
        if self.admin.signers.len() == 0 {
            return Err(Failure::Abort(Abort::NotInitialized));
        }
        Ok(self.admin.signers[0])
    }

    /// The whole M-of-N configuration.
    pub fn get_admin_config(&self) -> (c: AdminConfig)
        ensures
            c.signers@ == self.admin.signers@,
            c.threshold == self.admin.threshold,
    {
        AdminConfig { signers: copy_addresses(&self.admin.signers), threshold: self.admin.threshold }
    }

    /// Replace the signer set and threshold with a valid pair.
    /// Threshold-gated.
    pub fn set_signers(&mut self, signers: &Vec<Address>, new_signers: &Vec<Address>, new_threshold: u32) -> (r: Result<(), Failure>)
        requires
            old(self).wf(),
        ensures
            final(self).wf(),
            match old(self).admin_failure(signers@) {
                Some(f) => r == Err::<(), Failure>(f) && *final(self) == *old(self),
                None => if valid_signer_set(new_signers@, new_threshold) {
                    &&& r is Ok
                    &&& final(self).admin.signers@ == new_signers@
                    &&& final(self).admin.threshold == new_threshold
                    &&& *final(self) == (FinancingContract { admin: final(self).admin, ..*old(self) })
                } else {
                    r == Err::<(), Failure>(err(ContractError::InvalidInput)) && *final(self) == *old(self)
                },
            },
    {
        self.check_not_paused()?;
        self.check_admin(signers)?;
        validate_signers(new_signers, new_threshold)?;
        self.admin = AdminConfig { signers: copy_addresses(new_signers), threshold: new_threshold };
        Ok(())
    }

    pub fn get_registry(&self) -> (a: Address)
        ensures
            a == self.registry,
    {
        self.registry
    }

    /// Collapse the configuration to a single new admin. Threshold-gated.
    pub fn transfer_admin(&mut self, signers: &Vec<Address>, new_admin: Address) -> (r: Result<(), Failure>)
        requires
            old(self).wf(),
        ensures
            final(self).wf(),
            match old(self).admin_failure(signers@) {
                Some(f) => r == Err::<(), Failure>(f) && *final(self) == *old(self),
                None => {
                    &&& r is Ok
                    &&& final(self).admin.signers@ == seq![new_admin]
                    &&& final(self).admin.threshold == 1
                    &&& *final(self) == (FinancingContract { admin: final(self).admin, ..*old(self) })
                },
            },
    {
        self.check_not_paused()?;
        self.check_admin(signers)?;
        self.admin = AdminConfig::bootstrap(new_admin);
        Ok(())
    }

    /// Register a currency -> token mapping. Admin only.
    pub fn register_currency(&mut self, signers: &Vec<Address>, currency: Symbol, token: Address) -> (r: Result<(), Failure>)
        requires
            old(self).wf(),
        ensures
            final(self).wf(),
            match old(self).admin_failure(signers@) {
                Some(f) => r == Err::<(), Failure>(f) && *final(self) == *old(self),
                None => r is Ok && final(self).currencies@ == old(self).currencies@.insert(currency.0, token)
                    && *final(self) == (FinancingContract { currencies: final(self).currencies, ..*old(self) }),
            },
    {
        self.check_not_paused()?;
        self.check_admin(signers)?;
        self.currencies.register_currency(currency, token);
        Ok(())
    }

    pub fn get_currency_token(&self, currency: Symbol) -> (t: Option<Address>)
        requires
            self.wf(),
        ensures
            t == (if self.currencies@.contains_key(currency.0) {
                Some(self.currencies@[currency.0])
            } else {
                None::<Address>
            }),
    {
        self.currencies.get_currency_token(currency)
    }

    /// Configure the position-token contract minted on acceptance. Admin only.
    pub fn set_position_token(&mut self, signers: &Vec<Address>, token: Address) -> (r: Result<(), Failure>)
        ensures
            match old(self).admin_failure(signers@) {
                Some(f) => r == Err::<(), Failure>(f) && *final(self) == *old(self),
                None => r is Ok && *final(self) == (FinancingContract { position_token: Some(token), ..*old(self) }),
            },
    {
        self.check_not_paused()?;
        self.check_admin(signers)?;
        self.position_token = Some(token);
        Ok(())
    }

    pub fn get_position_token(&self) -> (t: Option<Address>)
        ensures
            t == self.position_token,
    {
        self.position_token
    }

    /// Halt the state-mutating entry points. Admin only.
    pub fn pause(&mut self, signers: &Vec<Address>) -> (r: Result<(), Failure>)
        ensures
            if meets_threshold(old(self).admin.signers@, old(self).admin.threshold, signers@) {
                r is Ok && *final(self) == (FinancingContract { paused: true, ..*old(self) })
            } else {
                r == Err::<(), Failure>(err(ContractError::Unauthorized)) && *final(self) == *old(self)
            },
    {
        self.check_admin(signers)?;
        self.paused = true;
        Ok(())
    }

    /// Resume operations. Admin only.
    pub fn unpause(&mut self, signers: &Vec<Address>) -> (r: Result<(), Failure>)
        ensures
            if meets_threshold(old(self).admin.signers@, old(self).admin.threshold, signers@) {
                r is Ok && *final(self) == (FinancingContract { paused: false, ..*old(self) })
            } else {
                r == Err::<(), Failure>(err(ContractError::Unauthorized)) && *final(self) == *old(self)
            },
    {
        self.check_admin(signers)?;
        self.paused = false;
        Ok(())
    }

    pub fn contract_is_paused(&self) -> (b: bool)
        ensures
            b == self.paused,
    {
        self.paused
    }

    // ── Offers ──────────────────────────────────────────────────────────────

    /// Why `create_offer` fails, checked in the contract's order.
    pub open spec fn create_offer_failure(
        &self,
        offer_id: Symbol,
        invoice: Option<Invoice>,
        lender: Address,
        lender_blacklisted: bool,
        terms: Terms,
    ) -> Option<Failure> {
        if self.paused {
            Some(err(ContractError::Paused))
        } else if lender_blacklisted {
            Some(err(ContractError::Blacklisted))
        } else if terms.amount <= 0 {
            Some(abort(Abort::OfferAmountNotPositive))
        } else if terms.interest_rate == 0 {
            Some(abort(Abort::InterestRateZero))
        } else if terms.interest_rate > MAX_INTEREST_BPS {
            Some(abort(Abort::InterestRateTooHigh))
        } else if terms.duration < MIN_OFFER_DURATION_SECS {
            Some(abort(Abort::DurationTooShort))
        } else if terms.duration > MAX_OFFER_DURATION_SECS {
            Some(abort(Abort::DurationTooLong))
        } else if invoice is None {
            Some(err(ContractError::NotFound))
        } else if invoice.unwrap().status != InvoiceStatus::Pending {
            Some(abort(Abort::InvoiceNotPending))
        } else if lender == invoice.unwrap().originator {
            Some(abort(Abort::SelfFinancing))
        } else if terms.amount > invoice.unwrap().amount {
            Some(abort(Abort::OfferExceedsInvoice))
        } else if self.offers@.contains_key(offer_id.0) {
            Some(err(ContractError::AlreadyExists))
        } else if !fits_u32(self.stats.total_offers + 1)
            || !fits_i128(lender_stats_of(self.lender_stats@, lender.0).total_offered + terms.amount)
            || !fits_u32(lender_stats_of(self.lender_stats@, lender.0).offers_pending + 1) {
            Some(abort(Abort::ArithmeticOverflow))
        } else {
            None
        }
    }

    /// Create a financing offer on `invoice` (as the registry reports it:
    /// `None` when it does not exist). Only the lender.
    pub fn create_offer(
        &mut self,
        offer_id: Symbol,
        invoice: Option<Invoice>,
        lender: Address,
        lender_blacklisted: bool,
        amount: i128,
        currency: Symbol,
        interest_rate: u32,
        duration: u64,
    ) -> (r: Result<FinancingOffer, Failure>)
        requires
            old(self).wf(),
        ensures
            final(self).wf(),
            match old(self).create_offer_failure(offer_id, invoice, lender, lender_blacklisted, Terms { amount, interest_rate, duration }) {
                Some(f) => r == Err::<FinancingOffer, Failure>(f) && *final(self) == *old(self),
                None => {
                    let offer = FinancingOffer {
                        id: offer_id,
                        invoice_id: invoice.unwrap().id,
                        lender,
                        amount,
                        currency,
                        interest_rate,
                        duration,
                        expires_at: 0,
                        status: OfferStatus::Pending,
                        funded_at: 0,
                        amount_repaid: 0,
                    };
                    let ls = lender_stats_of(old(self).lender_stats@, lender.0);
                    &&& r == Ok::<FinancingOffer, Failure>(offer)
                    &&& final(self).offers@ == old(self).offers@.insert(offer_id.0, offer)
                    &&& final(self).stats == (ProtocolStats { total_offers: (old(self).stats.total_offers + 1) as u32, ..old(self).stats })
                    &&& final(self).lender_stats@ == old(self).lender_stats@.insert(lender.0, LenderStats {
                        total_offered: (ls.total_offered + amount) as i128,
                        offers_pending: (ls.offers_pending + 1) as u32,
                        ..ls
                    })
                    &&& *final(self) == (FinancingContract {
                        offers: final(self).offers,
                        stats: final(self).stats,
                        lender_stats: final(self).lender_stats,
                        ..*old(self)
                    })
                },
            },
    {
        self.check_not_paused()?;
        if lender_blacklisted {
            return Err(Failure::Contract(ContractError::Blacklisted));
        }
        if amount <= 0 {
            return Err(Failure::Abort(Abort::OfferAmountNotPositive));
        }
        if interest_rate == 0 {
            return Err(Failure::Abort(Abort::InterestRateZero));
        }
        if interest_rate > MAX_INTEREST_BPS {
            return Err(Failure::Abort(Abort::InterestRateTooHigh));
        }
        if duration < MIN_OFFER_DURATION_SECS {
            return Err(Failure::Abort(Abort::DurationTooShort));
        }
        if duration > MAX_OFFER_DURATION_SECS {
            return Err(Failure::Abort(Abort::DurationTooLong));
        }
        let inv = match invoice {
            Some(i) => i,
            None => {
                return Err(Failure::Contract(ContractError::NotFound));
            },
        };
        if inv.status != InvoiceStatus::Pending {
            return Err(Failure::Abort(Abort::InvoiceNotPending));
        }
        if lender == inv.originator {
            return Err(Failure::Abort(Abort::SelfFinancing));
        }
        if amount > inv.amount {
            return Err(Failure::Abort(Abort::OfferExceedsInvoice));
        }
        if self.offers.contains_key(offer_id.0) {
            return Err(Failure::Contract(ContractError::AlreadyExists));
        }
        if self.stats.total_offers == u32::MAX {
            return Err(Failure::Abort(Abort::ArithmeticOverflow));
        }
        let ls = self.lender_stats_get(lender);
        let total_offered = match checked_add(ls.total_offered, amount) {
            Some(v) => v,
            None => {
                return Err(Failure::Abort(Abort::ArithmeticOverflow));
            },
        };
        if ls.offers_pending == u32::MAX {
            return Err(Failure::Abort(Abort::ArithmeticOverflow));
        }
        let offer = FinancingOffer {
            id: offer_id,
            invoice_id: inv.id,
            lender,
            amount,
            currency,
            interest_rate,
            duration,
            expires_at: 0,
            status: OfferStatus::Pending,
            funded_at: 0,
            amount_repaid: 0,
        };
        self.offers.set(offer_id.0, offer);
        self.stats.total_offers = self.stats.total_offers + 1;
        self.lender_stats.set(
            lender.0,
            LenderStats { total_offered, offers_pending: ls.offers_pending + 1, ..ls },
        );
        Ok(offer)
    }

    fn lender_stats_get(&self, lender: Address) -> (s: LenderStats)
        requires
            self.wf(),
        ensures
            s == lender_stats_of(self.lender_stats@, lender.0),
    {
        match self.lender_stats.get(lender.0) {
            Some(s) => *s,
            None => LenderStats::zero(),
        }
    }

    /// Read an offer.
    pub fn get_offer(&self, id: Symbol) -> (r: Result<FinancingOffer, Failure>)
        requires
            self.wf(),
        ensures
            match r {
                Ok(o) => self.offers@.contains_key(id.0) && o == self.offers@[id.0],
                Err(f) => !self.offers@.contains_key(id.0) && f == err(ContractError::NotFound),
            },
    {
        match self.offers.get(id.0) {
            Some(o) => Ok(*o),
            None => Err(Failure::Contract(ContractError::NotFound)),
        }
    }

    /// A negotiation was open when the offer left Pending by withdrawal or
    /// rejection: the host emits `neg_clsd` (Closed).
    pub open spec fn closes_open_negotiation(&self, k: u64) -> bool {
        self.history_of(k).len() > 0 && !self.outcomes@.contains_key(k)
    }

    fn closes_negotiation(&self, k: u64) -> (b: bool)
        requires
            self.wf(),
        ensures
            b == self.closes_open_negotiation(k),
    {
        let has_history = match self.negotiations.get(k) {
            Some(h) => h.len() > 0,
            None => false,
        };
        has_history && !self.outcomes.contains_key(k)
    }

    /// Withdraw a Pending offer. Only its lender. Returns the offer and
    /// whether a still-open negotiation ended with it.
    pub fn withdraw_offer(&mut self, offer_id: Symbol, lender: Address) -> (r: Result<(FinancingOffer, bool), Failure>)
        requires
            old(self).wf(),
        ensures
            final(self).wf(),
            match r {
                Ok((o, closed)) => {
                    let pre = old(self).offers@[offer_id.0];
                    &&& !old(self).paused
                    &&& old(self).offers@.contains_key(offer_id.0)
                    &&& pre.lender == lender
                    &&& pre.status == OfferStatus::Pending
                    &&& o == (FinancingOffer { status: OfferStatus::Rejected, ..pre })
                    &&& closed == old(self).closes_open_negotiation(offer_id.0)
                    &&& final(self).offers@ == old(self).offers@.insert(offer_id.0, o)
                    &&& *final(self) == (FinancingContract { offers: final(self).offers, ..*old(self) })
                },
                Err(f) => *final(self) == *old(self) && (if old(self).paused {
                    f == err(ContractError::Paused)
                } else if !old(self).offers@.contains_key(offer_id.0) {
                    f == err(ContractError::NotFound)
                } else if old(self).offers@[offer_id.0].lender != lender {
                    f == err(ContractError::Unauthorized)
                } else {
                    old(self).offers@[offer_id.0].status != OfferStatus::Pending && f == err(ContractError::InvalidTransition)
                }),
            },
    {
        self.check_not_paused()?;
        let offer = self.get_offer(offer_id)?;
        if offer.lender != lender {
            return Err(Failure::Contract(ContractError::Unauthorized));
        }
        if offer.status != OfferStatus::Pending {
            return Err(Failure::Contract(ContractError::InvalidTransition));
        }
        let closed = self.closes_negotiation(offer_id.0);
        let updated = FinancingOffer { status: OfferStatus::Rejected, ..offer };
        self.offers.set(offer_id.0, updated);
        Ok((updated, closed))
    }

    /// Reject a Pending offer. Only the invoice's originator (`invoice` as
    /// the registry reports it for the offer's invoice).
    pub fn reject_offer(&mut self, offer_id: Symbol, originator: Address, invoice: Option<Invoice>) -> (r: Result<(FinancingOffer, bool), Failure>)
        requires
            old(self).wf(),
        ensures
            final(self).wf(),
            match r {
                Ok((o, closed)) => {
                    let pre = old(self).offers@[offer_id.0];
                    &&& !old(self).paused
                    &&& old(self).offers@.contains_key(offer_id.0)
                    &&& pre.status == OfferStatus::Pending
                    &&& invoice is Some && invoice.unwrap().originator == originator
                    &&& o == (FinancingOffer { status: OfferStatus::Rejected, ..pre })
                    &&& closed == old(self).closes_open_negotiation(offer_id.0)
                    &&& final(self).offers@ == old(self).offers@.insert(offer_id.0, o)
                    &&& *final(self) == (FinancingContract { offers: final(self).offers, ..*old(self) })
                },
                Err(f) => *final(self) == *old(self) && (if old(self).paused {
                    f == err(ContractError::Paused)
                } else if !old(self).offers@.contains_key(offer_id.0) {
                    f == err(ContractError::NotFound)
                } else if old(self).offers@[offer_id.0].status != OfferStatus::Pending {
                    f == err(ContractError::InvalidTransition)
                } else if invoice is None {
                    f == err(ContractError::NotFound)
                } else {
                    invoice.unwrap().originator != originator && f == err(ContractError::Unauthorized)
                }),
            },
    {
        self.check_not_paused()?;
        let offer = self.get_offer(offer_id)?;
        if offer.status != OfferStatus::Pending {
            return Err(Failure::Contract(ContractError::InvalidTransition));
        }
        let inv = match invoice {
            Some(i) => i,
            None => {
                return Err(Failure::Contract(ContractError::NotFound));
            },
        };
        if inv.originator != originator {
            return Err(Failure::Contract(ContractError::Unauthorized));
        }
        let closed = self.closes_negotiation(offer_id.0);
        let updated = FinancingOffer { status: OfferStatus::Rejected, ..offer };
        self.offers.set(offer_id.0, updated);
        Ok((updated, closed))
    }

    // ── Settlement ──────────────────────────────────────────────────────────

    /// Settling the offer at `k` would overflow the statistics.
    pub open spec fn settle_overflows(&self, k: u64) -> bool {
        let o = self.offers@[k];
        ||| !fits_i128(self.stats.total_financed + o.amount)
        ||| !fits_i128(lender_stats_of(self.lender_stats@, o.lender.0).total_accepted + o.amount)
    }

    /// `post` is `pre` after the offer at `k` settled at `now`: the offer is
    /// Accepted and funded now, an open negotiation is closed as Accepted,
    /// and the financed totals grow by the offer amount.
    pub open spec fn settle_post(pre: &FinancingContract, post: &FinancingContract, k: u64, now: u64, s: Settlement) -> bool {
        let o = pre.offers@[k];
        let accepted = FinancingOffer { status: OfferStatus::Accepted, funded_at: now, ..o };
        let ls = lender_stats_of(pre.lender_stats@, o.lender.0);
        &&& s.offer == accepted
        &&& s.token == resolved_token(pre.currencies@, o.currency, pre.token)
        &&& s.position_token == pre.position_token
        &&& s.negotiation_accepted == pre.closes_open_negotiation(k)
        &&& post.offers@ == pre.offers@.insert(k, accepted)
        &&& post.outcomes@ == (if pre.closes_open_negotiation(k) {
            pre.outcomes@.insert(k, NegotiationStatus::Accepted)
        } else {
            pre.outcomes@
        })
        &&& post.stats == (ProtocolStats { total_financed: (pre.stats.total_financed + o.amount) as i128, ..pre.stats })
        &&& post.lender_stats@ == pre.lender_stats@.insert(o.lender.0, LenderStats { total_accepted: (ls.total_accepted + o.amount) as i128, ..ls })
        &&& *post == (FinancingContract {
            offers: post.offers,
            outcomes: post.outcomes,
            stats: post.stats,
            lender_stats: post.lender_stats,
            ..*pre
        })
    }

    /// Settle the offer at `k` (callers have checked the offer and invoice
    /// are Pending and the parties' eligibility).
    fn settle(&mut self, k: u64, now: u64) -> (r: Result<Settlement, Failure>)
        requires
            old(self).wf(),
            old(self).offers@.contains_key(k),
        ensures
            final(self).wf(),
            match r {
                Ok(s) => !old(self).settle_overflows(k) && Self::settle_post(old(self), final(self), k, now, s),
                Err(f) => old(self).settle_overflows(k) && f == abort(Abort::ArithmeticOverflow) && *final(self) == *old(self),
            },
    {
        let offer = *self.offers.get(k).unwrap();
        let ls = self.lender_stats_get(offer.lender);
        let total_financed = match checked_add(self.stats.total_financed, offer.amount) {
            Some(v) => v,
            None => {
                return Err(Failure::Abort(Abort::ArithmeticOverflow));
            },
        };
        let total_accepted = match checked_add(ls.total_accepted, offer.amount) {
            Some(v) => v,
            None => {
                return Err(Failure::Abort(Abort::ArithmeticOverflow));
            },
        };
        let negotiation_accepted = self.closes_negotiation(k);
        if negotiation_accepted {
            self.outcomes.set(k, NegotiationStatus::Accepted);
        }
        let accepted = FinancingOffer { status: OfferStatus::Accepted, funded_at: now, ..offer };
        self.offers.set(k, accepted);
        let token = self.currencies.resolve_token(offer.currency, self.token);
        self.stats.total_financed = total_financed;
        self.lender_stats.set(offer.lender.0, LenderStats { total_accepted, ..ls });
        Ok(Settlement { offer: accepted, token, position_token: self.position_token, negotiation_accepted })
    }

    /// Accept a Pending offer on a Pending invoice. Only the invoice's
    /// originator.
    pub fn accept_offer(&mut self, offer_id: Symbol, originator: Address, invoice: Option<Invoice>, now: u64) -> (r: Result<Settlement, Failure>)
        requires
            old(self).wf(),
        ensures
            final(self).wf(),
            match r {
                Ok(s) => {
                    &&& !old(self).paused
                    &&& old(self).offers@.contains_key(offer_id.0)
                    &&& old(self).offers@[offer_id.0].status == OfferStatus::Pending
                    &&& invoice is Some
                    &&& invoice.unwrap().originator == originator
                    &&& invoice.unwrap().status == InvoiceStatus::Pending
                    &&& Self::settle_post(old(self), final(self), offer_id.0, now, s)
                },
                Err(f) => *final(self) == *old(self) && (if old(self).paused {
                    f == err(ContractError::Paused)
                } else if !old(self).offers@.contains_key(offer_id.0) {
                    f == err(ContractError::NotFound)
                } else if old(self).offers@[offer_id.0].status != OfferStatus::Pending {
                    f == err(ContractError::InvalidTransition)
                } else if invoice is None {
                    f == err(ContractError::NotFound)
                } else if invoice.unwrap().originator != originator {
                    f == err(ContractError::Unauthorized)
                } else if invoice.unwrap().status != InvoiceStatus::Pending {
                    f == err(ContractError::InvalidTransition)
                } else {
                    f == abort(Abort::ArithmeticOverflow) && old(self).settle_overflows(offer_id.0)
                }),
            },
    {
        self.check_not_paused()?;
        let offer = self.get_offer(offer_id)?;
        if offer.status != OfferStatus::Pending {
            return Err(Failure::Contract(ContractError::InvalidTransition));
        }
        let inv = match invoice {
            Some(i) => i,
            None => {
                return Err(Failure::Contract(ContractError::NotFound));
            },
        };
        if inv.originator != originator {
            return Err(Failure::Contract(ContractError::Unauthorized));
        }
        if inv.status != InvoiceStatus::Pending {
            return Err(Failure::Contract(ContractError::InvalidTransition));
        }
        self.settle(offer_id.0, now)
    }

    // ── Negotiation ─────────────────────────────────────────────────────────

    /// Configure the negotiation window. Admin only; clamped to
    /// [1 hour, 30 days].
    pub fn set_negotiation_window(&mut self, signers: &Vec<Address>, window_secs: u64) -> (r: Result<(), Failure>)
        ensures
            match old(self).admin_failure(signers@) {
                Some(f) => r == Err::<(), Failure>(f) && *final(self) == *old(self),
                None => if MIN_NEGOTIATION_WINDOW_SECS <= window_secs <= MAX_NEGOTIATION_WINDOW_SECS {
                    r is Ok && *final(self) == (FinancingContract { negotiation_window: Some(window_secs), ..*old(self) })
                } else {
                    r == Err::<(), Failure>(err(ContractError::InvalidInput)) && *final(self) == *old(self)
                },
            },
    {
        self.check_not_paused()?;
        self.check_admin(signers)?;
        if window_secs < MIN_NEGOTIATION_WINDOW_SECS || window_secs > MAX_NEGOTIATION_WINDOW_SECS {
            return Err(Failure::Contract(ContractError::InvalidInput));
        }
        self.negotiation_window = Some(window_secs);
        Ok(())
    }

    /// The configured negotiation window (default 72 hours).
    pub fn get_negotiation_window(&self) -> (w: u64)
        ensures
            w == self.window(),
    {
        match self.negotiation_window {
            Some(w) => w,
            None => DEFAULT_NEGOTIATION_WINDOW_SECS,
        }
    }

    /// The negotiation history of an offer, oldest round first.
    pub fn get_negotiation(&self, offer_id: Symbol) -> (h: Vec<NegotiationRecord>)
        requires
            self.wf(),
        ensures
            h@ == self.history_of(offer_id.0),
    {
        match self.negotiations.get(offer_id.0) {
            Some(h) => copy_records(h),
            None => Vec::new(),
        }
    }

    /// When the negotiation window closes; 0 if none was opened.
    pub fn get_negotiation_deadline(&self, offer_id: Symbol) -> (d: u64)
        requires
            self.wf(),
        ensures
            d == self.deadline_of(offer_id.0),
    {
        match self.deadlines.get(offer_id.0) {
            Some(d) => *d,
            None => 0,
        }
    }

    /// The negotiation status of an offer at `now`.
    pub fn get_negotiation_status(&self, offer_id: Symbol, now: u64) -> (s: NegotiationStatus)
        requires
            self.wf(),
        ensures
            s == self.negotiation_status_at(offer_id.0, now),
    {
        let k = offer_id.0;
        match self.outcomes.get(k) {
            Some(o) => {
                return *o;
            },
            None => {},
        }
        let empty = match self.negotiations.get(k) {
            Some(h) => h.len() == 0,
            None => true,
        };
        if empty {
            return NegotiationStatus::NoNegotiation;
        }
        match self.offers.get(k) {
            Some(o) => {
                if o.status != OfferStatus::Pending {
                    return NegotiationStatus::Closed;
                }
            },
            None => {
                return NegotiationStatus::Closed;
            },
        }
        if now > self.get_negotiation_deadline(offer_id) {
            NegotiationStatus::Expired
        } else {
            NegotiationStatus::Open
        }
    }

    /// Why a round written against `expected_round` on the offer at `k`
    /// cannot be recorded at `now`.
    pub open spec fn negotiable_failure(&self, k: u64, expected_round: u32, now: u64) -> Option<Failure> {
        let st = self.negotiation_status_at(k, now);
        if self.offers@[k].status != OfferStatus::Pending {
            Some(err(ContractError::InvalidTransition))
        } else if st != NegotiationStatus::NoNegotiation && st != NegotiationStatus::Open {
            Some(err(ContractError::InvalidTransition))
        } else if self.history_of(k).len() != expected_round {
            Some(err(ContractError::InvalidInput))
        } else if self.history_of(k).len() >= MAX_NEGOTIATION_ROUNDS {
            Some(err(ContractError::InvalidTransition))
        } else {
            None
        }
    }

    fn assert_negotiable(&self, offer_id: Symbol, expected_round: u32, now: u64) -> (r: Result<(), Failure>)
        requires
            self.wf(),
            self.offers@.contains_key(offer_id.0),
        ensures
            match self.negotiable_failure(offer_id.0, expected_round, now) {
                Some(f) => r == Err::<(), Failure>(f),
                None => r is Ok,
            },
    {
        let offer = *self.offers.get(offer_id.0).unwrap();
        if offer.status != OfferStatus::Pending {
            return Err(Failure::Contract(ContractError::InvalidTransition));
        }
        let st = self.get_negotiation_status(offer_id, now);
        if st != NegotiationStatus::NoNegotiation && st != NegotiationStatus::Open {
            return Err(Failure::Contract(ContractError::InvalidTransition));
        }
        let len = match self.negotiations.get(offer_id.0) {
            Some(h) => h.len(),
            None => 0,
        };
        if len != expected_round as usize {
            return Err(Failure::Contract(ContractError::InvalidInput));
        }
        if len >= MAX_NEGOTIATION_ROUNDS as usize {
            return Err(Failure::Contract(ContractError::InvalidTransition));
        }
        Ok(())
    }

    /// `post` is `pre` with a round by `party` proposing `t` at `now`
    /// appended to the history of `k`; the first round freezes the deadline
    /// at `now + window` (saturating).
    pub open spec fn round_recorded(pre: &FinancingContract, post: &FinancingContract, k: u64, party: NegotiationParty, t: Terms, now: u64) -> bool {
        let rec = NegotiationRecord { party, amount: t.amount, interest_rate: t.interest_rate, duration: t.duration, timestamp: now };
        &&& post.history_of(k) == pre.history_of(k).push(rec)
        &&& post.negotiations@.dom() == pre.negotiations@.dom().insert(k)
        &&& forall|j: u64| j != k && #[trigger] pre.negotiations@.contains_key(j) ==> post.negotiations@[j] == pre.negotiations@[j]
        &&& post.deadlines@ == (if pre.history_of(k).len() == 0 {
            pre.deadlines@.insert(k, (if now + pre.window() > u64::MAX { u64::MAX as int } else { now + pre.window() }) as u64)
        } else {
            pre.deadlines@
        })
    }

    fn record_round(&mut self, k: u64, party: NegotiationParty, t: Terms, now: u64)
        requires
            old(self).wf(),
            old(self).history_of(k).len() < MAX_NEGOTIATION_ROUNDS,
        ensures
            final(self).wf(),
            Self::round_recorded(old(self), final(self), k, party, t, now),
            *final(self) == (FinancingContract { negotiations: final(self).negotiations, deadlines: final(self).deadlines, ..*old(self) }),
    {
        let mut history = match self.negotiations.get(k) {
            Some(h) => copy_records(h),
            None => Vec::new(),
        };
        if history.len() == 0 {
            let window = self.get_negotiation_window();
            self.deadlines.set(k, now.saturating_add(window));
        }
        history.push(NegotiationRecord {
            party,
            amount: t.amount,
            interest_rate: t.interest_rate,
            duration: t.duration,
            timestamp: now,
        });
        self.negotiations.set(k, history);
    }

    /// Why settling the offer at `k` on agreement at `amount` fails: what
    /// the registry reports for the invoice, the parties' blacklist flags,
    /// and the financed totals (the lender's accepted total is `accepted`).
    pub open spec fn agreement_failure(
        &self,
        amount: i128,
        accepted: i128,
        invoice: Option<Invoice>,
        lender_blacklisted: bool,
        originator_blacklisted: bool,
    ) -> Option<Failure> {
        if invoice is None {
            Some(err(ContractError::NotFound))
        } else if invoice.unwrap().status != InvoiceStatus::Pending {
            Some(err(ContractError::InvalidTransition))
        } else if lender_blacklisted || originator_blacklisted {
            Some(err(ContractError::Blacklisted))
        } else if !fits_i128(self.stats.total_financed + amount) || !fits_i128(accepted + amount) {
            Some(abort(Abort::ArithmeticOverflow))
        } else {
            None
        }
    }

    /// The lender's live proposal is `terms` and the originator's latest
    /// counter-offer proposed exactly that.
    pub open spec fn meets_counter(&self, k: u64, terms: Terms) -> bool {
        last_proposal_of(self.history_of(k), NegotiationParty::Originator) matches Some(c) && record_terms(c) == terms
    }

    /// Why `amend_offer` fails, in the order the contract checks.
    pub open spec fn amend_failure(
        &self,
        k: u64,
        lender: Address,
        expected_round: u32,
        terms: Terms,
        now: u64,
        lender_blacklisted: bool,
        invoice: Option<Invoice>,
        originator_blacklisted: bool,
    ) -> Option<Failure> {
        let o = self.offers@[k];
        let ls = lender_stats_of(self.lender_stats@, lender.0);
        if self.paused {
            Some(err(ContractError::Paused))
        } else if lender_blacklisted {
            Some(err(ContractError::Blacklisted))
        } else if !terms_valid(terms) {
            Some(err(ContractError::InvalidInput))
        } else if !self.offers@.contains_key(k) {
            Some(err(ContractError::NotFound))
        } else if o.lender != lender {
            Some(err(ContractError::Unauthorized))
        } else if self.negotiable_failure(k, expected_round, now) is Some {
            self.negotiable_failure(k, expected_round, now)
        } else if !fits_i128(terms.amount - o.amount) || !fits_i128(ls.total_offered + (terms.amount - o.amount)) {
            Some(abort(Abort::ArithmeticOverflow))
        } else if self.meets_counter(k, terms) {
            self.agreement_failure(terms.amount, ls.total_accepted, invoice, false, originator_blacklisted)
        } else {
            None
        }
    }

    /// The state after a round on the offer at `k` that left the offer as
    /// `offer`, settling it when `agreed`: the round is recorded, the
    /// lender's statistics are `ls`, and settlement closed the negotiation as
    /// Accepted and added the amount to the financed total.
    pub open spec fn after_round(
        pre: &FinancingContract,
        post: &FinancingContract,
        k: u64,
        party: NegotiationParty,
        terms: Terms,
        now: u64,
        offer: FinancingOffer,
        lender_stats: Map<u64, LenderStats>,
        agreed: bool,
    ) -> bool {
        &&& Self::round_recorded(pre, post, k, party, terms, now)
        &&& post.offers@ == pre.offers@.insert(k, offer)
        &&& post.lender_stats@ == lender_stats
        &&& post.stats == (if agreed {
            ProtocolStats { total_financed: (pre.stats.total_financed + offer.amount) as i128, ..pre.stats }
        } else {
            pre.stats
        })
        &&& post.outcomes@ == (if agreed { pre.outcomes@.insert(k, NegotiationStatus::Accepted) } else { pre.outcomes@ })
        &&& *post == (FinancingContract {
            offers: post.offers,
            lender_stats: post.lender_stats,
            stats: post.stats,
            negotiations: post.negotiations,
            deadlines: post.deadlines,
            outcomes: post.outcomes,
            ..*pre
        })
    }

    /// What settling `offer` after a round hands to the host.
    pub open spec fn round_settlement(&self, offer: FinancingOffer) -> Settlement {
        Settlement {
            offer,
            token: resolved_token(self.currencies@, offer.currency, self.token),
            position_token: self.position_token,
            negotiation_accepted: true,
        }
    }

    /// Amend a Pending offer's terms. Only its lender. `expected_round` must
    /// equal the number of rounds recorded so far. When the amended terms
    /// equal the originator's live counter-offer, the offer settles in the
    /// same call (`invoice` is what the registry reports for the offer's
    /// invoice; the blacklist flags are the registry's for each party).
    pub fn amend_offer(
        &mut self,
        offer_id: Symbol,
        lender: Address,
        expected_round: u32,
        terms: Terms,
        now: u64,
        lender_blacklisted: bool,
        invoice: Option<Invoice>,
        originator_blacklisted: bool,
    ) -> (r: Result<RoundOutcome, Failure>)
        requires
            old(self).wf(),
        ensures
            final(self).wf(),
            match old(self).amend_failure(offer_id.0, lender, expected_round, terms, now, lender_blacklisted, invoice, originator_blacklisted) {
                Some(f) => r == Err::<RoundOutcome, Failure>(f) && *final(self) == *old(self),
                None => r matches Ok(out) && {
                    let k = offer_id.0;
                    let o = old(self).offers@[k];
                    let ls = lender_stats_of(old(self).lender_stats@, lender.0);
                    let agreed = old(self).meets_counter(k, terms);
                    let amended = FinancingOffer { amount: terms.amount, interest_rate: terms.interest_rate, duration: terms.duration, ..o };
                    &&& out.offer == (if agreed {
                        FinancingOffer { status: OfferStatus::Accepted, funded_at: now, ..amended }
                    } else {
                        amended
                    })
                    &&& out.settlement == (if agreed { Some(old(self).round_settlement(out.offer)) } else { None::<Settlement> })
                    &&& Self::after_round(old(self), final(self), k, NegotiationParty::Lender, terms, now, out.offer,
                        old(self).lender_stats@.insert(lender.0, LenderStats {
                            total_offered: (ls.total_offered + (terms.amount - o.amount)) as i128,
                            total_accepted: (if agreed { ls.total_accepted + terms.amount } else { ls.total_accepted as int }) as i128,
                            ..ls
                        }), agreed)
                },
            },
    {
        self.check_not_paused()?;
        if lender_blacklisted {
            return Err(Failure::Contract(ContractError::Blacklisted));
        }
        assert_terms_valid(terms)?;
        let offer = self.get_offer(offer_id)?;
        if offer.lender != lender {
            return Err(Failure::Contract(ContractError::Unauthorized));
        }
        self.assert_negotiable(offer_id, expected_round, now)?;
        let k = offer_id.0;
        let history = self.get_negotiation(offer_id);
        let agreed = match last_proposal_by(&history, NegotiationParty::Originator) {
            Some(c) => c.amount == terms.amount && c.interest_rate == terms.interest_rate && c.duration == terms.duration,
            None => false,
        };
        let ls = self.lender_stats_get(lender);
        let delta = match checked_sub(terms.amount, offer.amount) {
            Some(v) => v,
            None => {
                return Err(Failure::Abort(Abort::ArithmeticOverflow));
            },
        };
        let total_offered = match checked_add(ls.total_offered, delta) {
            Some(v) => v,
            None => {
                return Err(Failure::Abort(Abort::ArithmeticOverflow));
            },
        };
        if agreed {
            // Everything settlement checks is checked before anything is written.
            self.check_agreement(terms.amount, ls.total_accepted, invoice, false, originator_blacklisted)?;
        }
        let amended = FinancingOffer {
            amount: terms.amount,
            interest_rate: terms.interest_rate,
            duration: terms.duration,
            ..offer
        };
        self.lender_stats.set(lender.0, LenderStats { total_offered, ..ls });
        self.offers.set(k, amended);
        self.record_round(k, NegotiationParty::Lender, terms, now);
        if agreed {
            proof {
                assert(self.history_of(k).len() > 0);
                assert(!self.outcomes@.contains_key(k));
            }
            let s = match self.settle(k, now) {
                Ok(s) => s,
                Err(e) => {
                    return Err(e);
                },
            };
            proof {
                assert(self.offers@ =~= old(self).offers@.insert(k, s.offer));
                assert(self.lender_stats@ =~= old(self).lender_stats@.insert(lender.0, LenderStats {
                    total_offered,
                    total_accepted: (ls.total_accepted + terms.amount) as i128,
                    ..ls
                }));
                assert(Self::round_recorded(old(self), self, k, NegotiationParty::Lender, terms, now));
            }
            return Ok(RoundOutcome { offer: s.offer, settlement: Some(s) });
        }
        Ok(RoundOutcome { offer: amended, settlement: None })
    }

    /// Check everything settlement on agreement checks, before a round is
    /// written.
    fn check_agreement(
        &self,
        amount: i128,
        accepted: i128,
        invoice: Option<Invoice>,
        lender_blacklisted: bool,
        originator_blacklisted: bool,
    ) -> (r: Result<(), Failure>)
        ensures
            match self.agreement_failure(amount, accepted, invoice, lender_blacklisted, originator_blacklisted) {
                Some(f) => r == Err::<(), Failure>(f),
                None => r is Ok,
            },
    {
        let inv = match invoice {
            Some(i) => i,
            None => {
                return Err(Failure::Contract(ContractError::NotFound));
            },
        };
        if inv.status != InvoiceStatus::Pending {
            return Err(Failure::Contract(ContractError::InvalidTransition));
        }
        if lender_blacklisted || originator_blacklisted {
            return Err(Failure::Contract(ContractError::Blacklisted));
        }
        if checked_add(self.stats.total_financed, amount).is_none() || checked_add(accepted, amount).is_none() {
            return Err(Failure::Abort(Abort::ArithmeticOverflow));
        }
        Ok(())
    }

    /// Why `counter_offer` fails, in the order the contract checks.
    pub open spec fn counter_failure(
        &self,
        k: u64,
        originator: Address,
        expected_round: u32,
        terms: Terms,
        now: u64,
        originator_blacklisted: bool,
        invoice: Option<Invoice>,
        lender_blacklisted: bool,
    ) -> Option<Failure> {
        let o = self.offers@[k];
        if self.paused {
            Some(err(ContractError::Paused))
        } else if originator_blacklisted {
            Some(err(ContractError::Blacklisted))
        } else if !terms_valid(terms) {
            Some(err(ContractError::InvalidInput))
        } else if !self.offers@.contains_key(k) {
            Some(err(ContractError::NotFound))
        } else if invoice is None {
            Some(err(ContractError::NotFound))
        } else if invoice.unwrap().originator != originator {
            Some(err(ContractError::Unauthorized))
        } else if self.negotiable_failure(k, expected_round, now) is Some {
            self.negotiable_failure(k, expected_round, now)
        } else if offer_terms(o) == terms {
            self.agreement_failure(
                terms.amount,
                lender_stats_of(self.lender_stats@, o.lender.0).total_accepted,
                invoice,
                lender_blacklisted,
                false,
            )
        } else {
            None
        }
    }

    /// Propose other terms on a Pending offer. Only the invoice's originator.
    /// The offer itself is not rewritten; proposing exactly the offer's
    /// standing terms is agreement, and the offer settles in the same call.
    pub fn counter_offer(
        &mut self,
        offer_id: Symbol,
        originator: Address,
        expected_round: u32,
        terms: Terms,
        now: u64,
        originator_blacklisted: bool,
        invoice: Option<Invoice>,
        lender_blacklisted: bool,
    ) -> (r: Result<RoundOutcome, Failure>)
        requires
            old(self).wf(),
        ensures
            final(self).wf(),
            match old(self).counter_failure(offer_id.0, originator, expected_round, terms, now, originator_blacklisted, invoice, lender_blacklisted) {
                Some(f) => r == Err::<RoundOutcome, Failure>(f) && *final(self) == *old(self),
                None => r matches Ok(out) && {
                    let k = offer_id.0;
                    let o = old(self).offers@[k];
                    let ls = lender_stats_of(old(self).lender_stats@, o.lender.0);
                    let agreed = offer_terms(o) == terms;
                    &&& out.offer == (if agreed { FinancingOffer { status: OfferStatus::Accepted, funded_at: now, ..o } } else { o })
                    &&& out.settlement == (if agreed { Some(old(self).round_settlement(out.offer)) } else { None::<Settlement> })
                    &&& Self::after_round(old(self), final(self), k, NegotiationParty::Originator, terms, now, out.offer,
                        if agreed {
                            old(self).lender_stats@.insert(o.lender.0, LenderStats { total_accepted: (ls.total_accepted + o.amount) as i128, ..ls })
                        } else {
                            old(self).lender_stats@
                        }, agreed)
                },
            },
    {
        self.check_not_paused()?;
        if originator_blacklisted {
            return Err(Failure::Contract(ContractError::Blacklisted));
        }
        assert_terms_valid(terms)?;
        let offer = self.get_offer(offer_id)?;
        let inv = match invoice {
            Some(i) => i,
            None => {
                return Err(Failure::Contract(ContractError::NotFound));
            },
        };
        if inv.originator != originator {
            return Err(Failure::Contract(ContractError::Unauthorized));
        }
        self.assert_negotiable(offer_id, expected_round, now)?;
        let k = offer_id.0;
        let agreed = terms.amount == offer.amount && terms.interest_rate == offer.interest_rate
            && terms.duration == offer.duration;
        if agreed {
            let ls = self.lender_stats_get(offer.lender);
            self.check_agreement(terms.amount, ls.total_accepted, invoice, lender_blacklisted, false)?;
        }
        self.record_round(k, NegotiationParty::Originator, terms, now);
        if agreed {
            proof {
                assert(self.history_of(k).len() > 0);
                assert(!self.outcomes@.contains_key(k));
            }
            let s = match self.settle(k, now) {
                Ok(s) => s,
                Err(e) => {
                    return Err(e);
                },
            };
            return Ok(RoundOutcome { offer: s.offer, settlement: Some(s) });
        }
        proof {
            assert(self.offers@ =~= old(self).offers@.insert(k, offer));
        }
        Ok(RoundOutcome { offer, settlement: None })
    }

    /// End a negotiation without agreement. While it is Open only the
    /// offer's lender or the invoice's originator (`invoice` as the registry
    /// reports it) may close it, as Closed; once it has Expired anyone may
    /// persist that outcome. Returns the outcome recorded.
    pub fn close_negotiation(&mut self, offer_id: Symbol, caller: Address, now: u64, invoice: Option<Invoice>) -> (r: Result<NegotiationStatus, Failure>)
        requires
            old(self).wf(),
        ensures
            final(self).wf(),
            match old(self).close_failure(offer_id.0, caller, now, invoice) {
                Some(f) => r == Err::<NegotiationStatus, Failure>(f) && *final(self) == *old(self),
                None => {
                    let st = old(self).negotiation_status_at(offer_id.0, now);
                    let outcome = if st == NegotiationStatus::Expired { NegotiationStatus::Expired } else { NegotiationStatus::Closed };
                    &&& r == Ok::<NegotiationStatus, Failure>(outcome)
                    &&& final(self).outcomes@ == old(self).outcomes@.insert(offer_id.0, outcome)
                    &&& *final(self) == (FinancingContract { outcomes: final(self).outcomes, ..*old(self) })
                },
            },
    {
        self.check_not_paused()?;
        let k = offer_id.0;
        if self.outcomes.contains_key(k) {
            return Err(Failure::Contract(ContractError::InvalidTransition));
        }
        let st = self.get_negotiation_status(offer_id, now);
        let outcome = match st {
            NegotiationStatus::NoNegotiation => {
                return Err(Failure::Contract(ContractError::NotFound));
            },
            NegotiationStatus::Closed | NegotiationStatus::Accepted => {
                return Err(Failure::Contract(ContractError::InvalidTransition));
            },
            NegotiationStatus::Expired => NegotiationStatus::Expired,
            NegotiationStatus::Open => {
                let offer = self.get_offer(offer_id)?;
                if caller != offer.lender {
                    let inv = match invoice {
                        Some(i) => i,
                        None => {
                            return Err(Failure::Contract(ContractError::NotFound));
                        },
                    };
                    if caller != inv.originator {
                        return Err(Failure::Contract(ContractError::Unauthorized));
                    }
                }
                NegotiationStatus::Closed
            },
        };
        self.outcomes.set(k, outcome);
        Ok(outcome)
    }

    /// Why `close_negotiation` fails, in the order the contract checks.
    pub open spec fn close_failure(&self, k: u64, caller: Address, now: u64, invoice: Option<Invoice>) -> Option<Failure> {
        let st = self.negotiation_status_at(k, now);
        if self.paused {
            Some(err(ContractError::Paused))
        } else if self.outcomes@.contains_key(k) {
            Some(err(ContractError::InvalidTransition))
        } else if st == NegotiationStatus::NoNegotiation {
            Some(err(ContractError::NotFound))
        } else if st == NegotiationStatus::Closed || st == NegotiationStatus::Accepted {
            Some(err(ContractError::InvalidTransition))
        } else if st == NegotiationStatus::Expired {
            None
        } else if caller == self.offers@[k].lender {
            None
        } else if invoice is None {
            Some(err(ContractError::NotFound))
        } else if caller != invoice.unwrap().originator {
            Some(err(ContractError::Unauthorized))
        } else {
            None
        }
    }

    // ── Callbacks from the repayment contract ──────────────────────────────

    /// The guard of every repayment callback: not paused, and a repayment
    /// contract configured (whose authorization the host then requires).
    pub open spec fn callback_failure(&self) -> Option<Failure> {
        if self.paused {
            Some(err(ContractError::Paused))
        } else if self.repayment is None {
            Some(abort(Abort::RepaymentNotConfigured))
        } else {
            None
        }
    }

    fn check_callback(&self) -> (r: Result<(), Failure>)
        ensures
            match self.callback_failure() {
                Some(f) => r == Err::<(), Failure>(f),
                None => r is Ok,
            },
    {
        self.check_not_paused()?;
        if self.repayment.is_none() {
            return Err(Failure::Abort(Abort::RepaymentNotConfigured));
        }
        Ok(())
    }

    /// Set an offer's status (repayment callback).
    pub fn update_offer_status(&mut self, id: Symbol, new_status: OfferStatus) -> (r: Result<(), Failure>)
        requires
            old(self).wf(),
        ensures
            final(self).wf(),
            match old(self).callback_failure() {
                Some(f) => r == Err::<(), Failure>(f) && *final(self) == *old(self),
                None => if old(self).offers@.contains_key(id.0) {
                    &&& r is Ok
                    &&& final(self).offers@ == old(self).offers@.insert(id.0, FinancingOffer { status: new_status, ..old(self).offers@[id.0] })
                    &&& *final(self) == (FinancingContract { offers: final(self).offers, ..*old(self) })
                } else {
                    r == Err::<(), Failure>(err(ContractError::NotFound)) && *final(self) == *old(self)
                },
            },
    {
        self.check_callback()?;
        let offer = self.get_offer(id)?;
        self.offers.set(id.0, FinancingOffer { status: new_status, ..offer });
        Ok(())
    }

    /// Set an offer's running repaid amount (repayment callback).
    pub fn update_offer_amount_repaid(&mut self, id: Symbol, amount_repaid: i128) -> (r: Result<(), Failure>)
        requires
            old(self).wf(),
        ensures
            final(self).wf(),
            match old(self).callback_failure() {
                Some(f) => r == Err::<(), Failure>(f) && *final(self) == *old(self),
                None => if old(self).offers@.contains_key(id.0) {
                    &&& r is Ok
                    &&& final(self).offers@ == old(self).offers@.insert(id.0, FinancingOffer { amount_repaid, ..old(self).offers@[id.0] })
                    &&& *final(self) == (FinancingContract { offers: final(self).offers, ..*old(self) })
                } else {
                    r == Err::<(), Failure>(err(ContractError::NotFound)) && *final(self) == *old(self)
                },
            },
    {
        self.check_callback()?;
        let offer = self.get_offer(id)?;
        self.offers.set(id.0, FinancingOffer { amount_repaid, ..offer });
        Ok(())
    }

    /// Count a fully repaid offer in the lender's statistics (repayment
    /// callback); a partial repayment leaves them as they are, though the
    /// lender's entry is then stored.
    pub fn update_lender_stats_repaid(&mut self, lender: Address, fully_repaid: bool) -> (r: Result<(), Failure>)
        requires
            old(self).wf(),
        ensures
            final(self).wf(),
            match old(self).callback_failure() {
                Some(f) => r == Err::<(), Failure>(f) && *final(self) == *old(self),
                None => {
                    let ls = lender_stats_of(old(self).lender_stats@, lender.0);
                    if fully_repaid && ls.offers_repaid == u32::MAX {
                        r == Err::<(), Failure>(abort(Abort::ArithmeticOverflow)) && *final(self) == *old(self)
                    } else {
                        &&& r is Ok
                        &&& final(self).lender_stats@ == old(self).lender_stats@.insert(lender.0, LenderStats {
                            offers_repaid: (if fully_repaid { ls.offers_repaid + 1 } else { ls.offers_repaid as int }) as u32,
                            ..ls
                        })
                        &&& *final(self) == (FinancingContract { lender_stats: final(self).lender_stats, ..*old(self) })
                    }
                },
            },
    {
        self.check_callback()?;
        let ls = self.lender_stats_get(lender);
        let offers_repaid = if fully_repaid {
            if ls.offers_repaid == u32::MAX {
                return Err(Failure::Abort(Abort::ArithmeticOverflow));
            }
            ls.offers_repaid + 1
        } else {
            ls.offers_repaid
        };
        self.lender_stats.set(lender.0, LenderStats { offers_repaid, ..ls });
        Ok(())
    }

    /// Add a repayment and its fee to the protocol statistics (repayment
    /// callback).
    pub fn update_stats_repaid(&mut self, amount: i128, fee_amount: i128) -> (r: Result<(), Failure>)
        ensures
            match old(self).callback_failure() {
                Some(f) => r == Err::<(), Failure>(f) && *final(self) == *old(self),
                None => if fits_i128(old(self).stats.total_repaid + amount) && fits_i128(old(self).stats.total_fee_revenue + fee_amount) {
                    &&& r is Ok
                    &&& *final(self) == (FinancingContract {
                        stats: ProtocolStats {
                            total_repaid: (old(self).stats.total_repaid + amount) as i128,
                            total_fee_revenue: (old(self).stats.total_fee_revenue + fee_amount) as i128,
                            ..old(self).stats
                        },
                        ..*old(self)
                    })
                } else {
                    r == Err::<(), Failure>(abort(Abort::ArithmeticOverflow)) && *final(self) == *old(self)
                },
            },
    {
        self.check_callback()?;
        let total_repaid = match checked_add(self.stats.total_repaid, amount) {
            Some(v) => v,
            None => {
                return Err(Failure::Abort(Abort::ArithmeticOverflow));
            },
        };
        let total_fee_revenue = match checked_add(self.stats.total_fee_revenue, fee_amount) {
            Some(v) => v,
            None => {
                return Err(Failure::Abort(Abort::ArithmeticOverflow));
            },
        };
        self.stats = ProtocolStats { total_repaid, total_fee_revenue, ..self.stats };
        Ok(())
    }

    /// The protocol fee in basis points (0 unless the host configured one).
    pub fn get_fee_bps(&self) -> (b: u32)
        ensures
            b == self.fee_bps,
    {
        self.fee_bps
    }

    // ── Queries ─────────────────────────────────────────────────────────────

    /// Every offer satisfying `q`, in id order.
    pub open spec fn selected(&self, q: OfferQuery) -> Seq<FinancingOffer> {
        self.offers.values().filter(|o: FinancingOffer| q.matches(o))
    }

    fn select_offers(&self, q: OfferQuery) -> (v: Vec<FinancingOffer>)
        requires
            self.wf(),
        ensures
            v@ == self.selected(q),
    {
        let ghost vals = self.offers.values();
        let mut out: Vec<FinancingOffer> = Vec::new();
        let n = self.offers.len();
        let mut i: usize = 0;
        while i < n
            invariant
                n == self.offers.entries().len(),
                vals == self.offers.values(),
                vals.len() == n,
                i <= n,
                out@ == vals.take(i as int).filter(|o: FinancingOffer| q.matches(o)),
            decreases n - i,
        {
            let o = *self.offers.value_at(i);
            proof {
                assert(vals[i as int] == o);
                assert(vals.take(i as int + 1).drop_last() =~= vals.take(i as int));
                reveal(Seq::filter);
            }
            if q.is_match(&o) {
                out.push(o);
            }
            i = i + 1;
        }
        proof {
            assert(vals.take(n as int) =~= vals);
        }
        out
    }

    /// Offers on an invoice, in id order.
    pub fn get_offers_by_invoice(&self, invoice_id: Symbol) -> (v: Vec<FinancingOffer>)
        requires
            self.wf(),
        ensures
            v@ == self.selected(OfferQuery::Invoice(invoice_id)),
    {
        self.select_offers(OfferQuery::Invoice(invoice_id))
    }

    /// Offers by a lender, in id order.
    pub fn get_offers_by_lender(&self, lender: Address) -> (v: Vec<FinancingOffer>)
        requires
            self.wf(),
        ensures
            v@ == self.selected(OfferQuery::Lender(lender)),
    {
        self.select_offers(OfferQuery::Lender(lender))
    }

    /// Every offer, in id order.
    pub fn get_all_offers(&self) -> (v: Vec<FinancingOffer>)
        requires
            self.wf(),
        ensures
            v@ == self.offers.values(),
    {
        let v = self.select_offers(OfferQuery::All);
        proof {
            lemma_filter_all(self.offers.values());
        }
        v
    }

    /// Offers in a status, in id order.
    pub fn get_offers_by_status(&self, status: OfferStatus) -> (v: Vec<FinancingOffer>)
        requires
            self.wf(),
        ensures
            v@ == self.selected(OfferQuery::Status(status)),
    {
        self.select_offers(OfferQuery::Status(status))
    }

    /// Pending offers on an invoice, in id order.
    pub fn get_pending_offers_by_invoice(&self, invoice_id: Symbol) -> (v: Vec<FinancingOffer>)
        requires
            self.wf(),
        ensures
            v@ == self.selected(OfferQuery::PendingOnInvoice(invoice_id)),
    {
        self.select_offers(OfferQuery::PendingOnInvoice(invoice_id))
    }

    /// Number of offers ever created (the host's map length is a `u32`).
    pub fn get_offers_count(&self) -> (n: u32)
        requires
            self.offers.entries().len() <= u32::MAX,
        ensures
            n == self.offers.entries().len(),
    {
        self.offers.len() as u32
    }

    /// At most `limit` offers, in id order, starting at position `offset`.
    pub fn get_offers_paginated(&self, offset: u32, limit: u32) -> (v: Vec<FinancingOffer>)
        requires
            self.wf(),
        ensures
            v@ == page(self.offers.values(), offset as int, limit as int),
    {
        let ghost vals = self.offers.values();
        let n = self.offers.len();
        let mut out: Vec<FinancingOffer> = Vec::new();
        let mut i: usize = offset as usize;
        if i > n {
            i = n;
        }
        let start = i;
        while i < n && out.len() < limit as usize
            invariant
                n == vals.len(),
                vals == self.offers.values(),
                start == if offset as int <= n { offset as int } else { n as int },
                start <= i <= n,
                out@ == vals.subrange(start as int, i as int),
                out@.len() <= limit,
            decreases n - i,
        {
            let o = *self.offers.value_at(i);
            proof {
                assert(vals[i as int] == o);
            }
            out.push(o);
            proof {
                assert(out@ =~= vals.subrange(start as int, i as int + 1));
            }
            i = i + 1;
        }
        out
    }

    /// A lender's statistics (zero if the lender has none).
    pub fn get_lender_stats(&self, lender: Address) -> (s: LenderStats)
        requires
            self.wf(),
        ensures
            s == lender_stats_of(self.lender_stats@, lender.0),
    {
        self.lender_stats_get(lender)
    }

    /// The amount a lender has outstanding in Accepted or Financed offers.
    /// Fails when a running total leaves `i128`.
    pub fn get_lender_active_total(&self, lender: Address) -> (r: Result<i128, Failure>)
        requires
            self.wf(),
        ensures
            match r {
                Ok(t) => active_total_fits(self.offers.values(), lender) && t == active_total(self.offers.values(), lender),
                Err(f) => !active_total_fits(self.offers.values(), lender) && f == abort(Abort::ArithmeticOverflow),
            },
    {
        let ghost vals = self.offers.values();
        let n = self.offers.len();
        let mut total: i128 = 0;
        let mut i: usize = 0;
        while i < n
            invariant
                n == vals.len(),
                vals == self.offers.values(),
                i <= n,
                active_total_fits(vals.take(i as int), lender),
                total == active_total(vals.take(i as int), lender),
            decreases n - i,
        {
            let o = *self.offers.value_at(i);
            proof {
                assert(vals[i as int] == o);
                assert(vals.take(i as int + 1).drop_last() =~= vals.take(i as int));
            }
            if o.lender == lender && (o.status == OfferStatus::Accepted || o.status == OfferStatus::Financed) {
                total = match checked_add(total, o.amount) {
                    Some(v) => v,
                    None => {
                        proof {
                            lemma_active_fits_prefix(vals, lender, i as int + 1);
                        }
                        return Err(Failure::Abort(Abort::ArithmeticOverflow));
                    },
                };
            }
            i = i + 1;
        }
        proof {
            assert(vals.take(n as int) =~= vals);
        }
        Ok(total)
    }

    /// The bounds every offer's duration must lie within, in seconds.
    pub fn get_offer_duration_limits(&self) -> (r: (u64, u64))
        ensures
            r == (MIN_OFFER_DURATION_SECS, MAX_OFFER_DURATION_SECS),
    {
        (MIN_OFFER_DURATION_SECS, MAX_OFFER_DURATION_SECS)
    }

    /// The protocol statistics.
    pub fn get_stats(&self) -> (s: ProtocolStats)
        ensures
            s == self.stats,
    {
        self.stats
    }

    // ── Repayment schedules ────────────────────────────────────────────────

    /// Why `schedule_repayment` fails, in the order the contract checks.
    pub open spec fn schedule_failure(&self, k: u64, caller: Address, count: u32, first_due: u64, now: u64, invoice: Option<Invoice>) -> Option<Failure> {
        let o = self.offers@[k];
        let principal = tdiv(o.amount as int, count as int);
        if self.paused {
            Some(err(ContractError::Paused))
        } else if count < 1 {
            Some(abort(Abort::InstallmentCountZero))
        } else if count > MAX_INSTALLMENTS {
            Some(abort(Abort::InstallmentCountTooHigh))
        } else if first_due <= now {
            Some(abort(Abort::FirstDueNotInFuture))
        } else if !self.offers@.contains_key(k) {
            Some(err(ContractError::NotFound))
        } else if o.status == OfferStatus::Rejected || o.status == OfferStatus::Repaid || o.status == OfferStatus::Defaulted {
            Some(err(ContractError::InvalidTransition))
        } else if invoice is None {
            Some(err(ContractError::NotFound))
        } else if caller != o.lender && caller != invoice.unwrap().originator {
            Some(err(ContractError::Unauthorized))
        } else if !fits_i128(principal * o.interest_rate) || !fits_i128(principal + tdiv(principal * o.interest_rate, 10_000)) {
            Some(abort(Abort::ArithmeticOverflow))
        } else if installment_amount(o.amount as int, count as int, o.interest_rate as int) <= 0 {
            Some(abort(Abort::InstallmentAmountNotPositive))
        } else {
            None
        }
    }

    /// Attach (or replace) a fixed installment schedule on a live offer.
    /// Only the offer's lender or the invoice's originator (`invoice` as the
    /// registry reports it for the offer's invoice).
    pub fn schedule_repayment(
        &mut self,
        offer_id: Symbol,
        caller: Address,
        frequency: ScheduleFrequency,
        count: u32,
        first_due: u64,
        now: u64,
        invoice: Option<Invoice>,
    ) -> (r: Result<RepaymentSchedule, Failure>)
        requires
            old(self).wf(),
        ensures
            final(self).wf(),
            match old(self).schedule_failure(offer_id.0, caller, count, first_due, now, invoice) {
                Some(f) => r == Err::<RepaymentSchedule, Failure>(f) && *final(self) == *old(self),
                None => {
                    let o = old(self).offers@[offer_id.0];
                    let sched = RepaymentSchedule {
                        offer_id,
                        count,
                        frequency,
                        installment_amount: installment_amount(o.amount as int, count as int, o.interest_rate as int) as i128,
                        first_due,
                    };
                    &&& r == Ok::<RepaymentSchedule, Failure>(sched)
                    &&& final(self).schedules@ == old(self).schedules@.insert(offer_id.0, sched)
                    &&& *final(self) == (FinancingContract { schedules: final(self).schedules, ..*old(self) })
                },
            },
    {
        self.check_not_paused()?;
        if count < 1 {
            return Err(Failure::Abort(Abort::InstallmentCountZero));
        }
        if count > MAX_INSTALLMENTS {
            return Err(Failure::Abort(Abort::InstallmentCountTooHigh));
        }
        if first_due <= now {
            return Err(Failure::Abort(Abort::FirstDueNotInFuture));
        }
        let offer = self.get_offer(offer_id)?;
        if offer.status == OfferStatus::Rejected || offer.status == OfferStatus::Repaid
            || offer.status == OfferStatus::Defaulted {
            return Err(Failure::Contract(ContractError::InvalidTransition));
        }
        let inv = match invoice {
            Some(i) => i,
            None => {
                return Err(Failure::Contract(ContractError::NotFound));
            },
        };
        if caller != offer.lender && caller != inv.originator {
            return Err(Failure::Contract(ContractError::Unauthorized));
        }
        proof {
            lemma_tdiv_fits(offer.amount as int, count as int);
        }
        let principal = match checked_tdiv(offer.amount, count as i128) {
            Some(v) => v,
            None => {
                return Err(Failure::Abort(Abort::ArithmeticOverflow));
            },
        };
        let scaled = match checked_mul(principal, offer.interest_rate as i128) {
            Some(v) => v,
            None => {
                return Err(Failure::Abort(Abort::ArithmeticOverflow));
            },
        };
        proof {
            lemma_tdiv_fits(scaled as int, 10_000);
        }
        let interest = match checked_tdiv(scaled, 10_000) {
            Some(v) => v,
            None => {
                return Err(Failure::Abort(Abort::ArithmeticOverflow));
            },
        };
        let installment = match checked_add(principal, interest) {
            Some(v) => v,
            None => {
                return Err(Failure::Abort(Abort::ArithmeticOverflow));
            },
        };
        if installment <= 0 {
            return Err(Failure::Abort(Abort::InstallmentAmountNotPositive));
        }
        let schedule = RepaymentSchedule { offer_id, count, frequency, installment_amount: installment, first_due };
        self.schedules.set(offer_id.0, schedule);
        Ok(schedule)
    }

    /// The schedule attached to an offer, if any.
    pub fn get_schedule(&self, offer_id: Symbol) -> (s: Option<RepaymentSchedule>)
        requires
            self.wf(),
        ensures
            s == (if self.schedules@.contains_key(offer_id.0) {
                Some(self.schedules@[offer_id.0])
            } else {
                None::<RepaymentSchedule>
            }),
    {
        match self.schedules.get(offer_id.0) {
            Some(s) => Some(*s),
            None => None,
        }
    }

    /// The 1-based index of the earliest installment that is due at `now`
    /// and not yet covered by the offer's repaid amount; 0 when there is no
    /// schedule, the offer is settled for good, nothing is due yet, or every
    /// due installment is paid.
    pub fn get_installment_due(&self, offer_id: Symbol, now: u64) -> (d: u32)
        requires
            self.wf(),
        ensures
            d == installment_due(self.schedules@, self.offers@, offer_id.0, now),
    {
        let k = offer_id.0;
        let sched = match self.schedules.get(k) {
            Some(s) => *s,
            None => {
                return 0;
            },
        };
        let offer = match self.offers.get(k) {
            Some(o) => *o,
            None => {
                return 0;
            },
        };
        if offer.status == OfferStatus::Repaid || offer.status == OfferStatus::Defaulted {
            return 0;
        }
        if now < sched.first_due {
            return 0;
        }
        let period = sched.frequency.period_secs();
        let passed = (now - sched.first_due) / period + 1;
        let elapsed: u32 = if passed < sched.count as u64 { passed as u32 } else { sched.count };
        let paid_count: u32 = if sched.installment_amount == 0 {
            sched.count
        } else {
            proof {
                lemma_tdiv_fits(offer.amount_repaid as int, sched.installment_amount as int);
            }
            match checked_tdiv(offer.amount_repaid, sched.installment_amount) {
                Some(q) => q as u32,
                None => sched.count,
            }
        };
        if paid_count >= elapsed {
            0
        } else {
            paid_count + 1
        }
    }
}

/// A selection of offers.
#[derive(Clone, Copy, Debug, PartialEq, Eq, Structural)]
pub enum OfferQuery {
    All,
    Invoice(Symbol),
    Lender(Address),
    Status(OfferStatus),
    PendingOnInvoice(Symbol),
}

impl OfferQuery {
    pub open spec fn matches(self, o: FinancingOffer) -> bool {
        match self {
            OfferQuery::All => true,
            OfferQuery::Invoice(i) => o.invoice_id == i,
            OfferQuery::Lender(l) => o.lender == l,
            OfferQuery::Status(s) => o.status == s,
            OfferQuery::PendingOnInvoice(i) => o.invoice_id == i && o.status == OfferStatus::Pending,
        }
    }

    fn is_match(&self, o: &FinancingOffer) -> (b: bool)
        ensures
            b == self.matches(*o),
    {
        match self {
            OfferQuery::All => true,
            OfferQuery::Invoice(i) => o.invoice_id == *i,
            OfferQuery::Lender(l) => o.lender == *l,
            OfferQuery::Status(s) => o.status == *s,
            OfferQuery::PendingOnInvoice(i) => o.invoice_id == *i && o.status == OfferStatus::Pending,
        }
    }
}

proof fn lemma_filter_all(s: Seq<FinancingOffer>)
    ensures
        s.filter(|o: FinancingOffer| OfferQuery::All.matches(o)) == s,
    decreases s.len(),
{
    reveal(Seq::filter);
    if s.len() > 0 {
        lemma_filter_all(s.drop_last());
        assert(s.drop_last().push(s.last()) =~= s);
    }
}

/// The offer counts toward its lender's outstanding total.
pub open spec fn is_active_for(o: FinancingOffer, lender: Address) -> bool {
    o.lender == lender && (o.status == OfferStatus::Accepted || o.status == OfferStatus::Financed)
}

/// Sum of the amounts of `lender`'s Accepted and Financed offers in `s`.
pub open spec fn active_total(s: Seq<FinancingOffer>, lender: Address) -> int
    decreases s.len(),
{
    if s.len() == 0 {
        0
    } else {
        active_total(s.drop_last(), lender) + if is_active_for(s.last(), lender) { s.last().amount as int } else { 0 }
    }
}

/// Every running total of `active_total` over `s` fits `i128`.
pub open spec fn active_total_fits(s: Seq<FinancingOffer>, lender: Address) -> bool
    decreases s.len(),
{
    if s.len() == 0 {
        true
    } else {
        active_total_fits(s.drop_last(), lender) && fits_i128(active_total(s, lender))
    }
}

proof fn lemma_active_fits_prefix(s: Seq<FinancingOffer>, lender: Address, i: int)
    requires
        0 <= i <= s.len(),
        !active_total_fits(s.take(i), lender),
    ensures
        !active_total_fits(s, lender),
    decreases s.len() - i,
{
    if i < s.len() {
        assert(s.take(i + 1).drop_last() =~= s.take(i));
        lemma_active_fits_prefix(s, lender, i + 1);
    } else {
        assert(s.take(i) =~= s);
    }
}

/// Cap on the number of installments of a schedule.
pub const MAX_INSTALLMENTS: u32 = 1_200;

/// Each installment: an equal (truncated) principal slice plus its flat
/// interest at `rate` basis points.
pub open spec fn installment_amount(amount: int, count: int, rate: int) -> int {
    let principal = tdiv(amount, count);
    principal + tdiv(principal * rate, 10_000)
}

/// `get_installment_due`'s answer.
pub open spec fn installment_due(
    schedules: Map<u64, RepaymentSchedule>,
    offers: Map<u64, FinancingOffer>,
    k: u64,
    now: u64,
) -> u32 {
    if !schedules.contains_key(k) || !offers.contains_key(k) {
        0
    } else {
        let sc = schedules[k];
        let o = offers[k];
        if o.status == OfferStatus::Repaid || o.status == OfferStatus::Defaulted || now < sc.first_due {
            0
        } else {
            let passed = (now - sc.first_due) / (sc.frequency.spec_period_secs() as int) + 1;
            let elapsed = if passed < sc.count { passed } else { sc.count as int };
            let paid = if sc.installment_amount == 0 {
                sc.count
            } else {
                tdiv(o.amount_repaid as int, sc.installment_amount as int) as u32
            };
            if paid >= elapsed { 0 } else { (paid + 1) as u32 }
        }
    }
}

/// A copy of a negotiation history.
pub fn copy_records(h: &Vec<NegotiationRecord>) -> (c: Vec<NegotiationRecord>)
    ensures
        c@ == h@,
{
    let mut out: Vec<NegotiationRecord> = Vec::new();
    let mut i: usize = 0;
    while i < h.len()
        invariant
            i <= h@.len(),
            out@ == h@.take(i as int),
        decreases h@.len() - i,
    {
        out.push(h[i]);
        proof {
            assert(out@ =~= h@.take(i as int + 1));
        }
        i = i + 1;
    }
    proof {
        assert(out@ =~= h@);
    }
    out
}


/// A negotiation that has ended, whether Accepted, Closed or Expired, takes
/// no further round from either side: both `amend_offer` and
/// `counter_offer` refuse, whatever the terms and the round number.
pub proof fn law_ended_negotiation_takes_no_rounds(
    f: FinancingContract,
    k: u64,
    lender: Address,
    originator: Address,
    expected_round: u32,
    terms: Terms,
    now: u64,
    lender_blacklisted: bool,
    originator_blacklisted: bool,
    invoice: Option<Invoice>,
)
    requires
        f.wf(),
        f.offers@.contains_key(k),
        f.negotiation_status_at(k, now) != NegotiationStatus::NoNegotiation,
        f.negotiation_status_at(k, now) != NegotiationStatus::Open,
    ensures
        f.amend_failure(k, lender, expected_round, terms, now, lender_blacklisted, invoice, originator_blacklisted) is Some,
        f.counter_failure(k, originator, expected_round, terms, now, originator_blacklisted, invoice, lender_blacklisted) is Some,
{
}

/// A negotiation holds at most `MAX_NEGOTIATION_ROUNDS` rounds: once that
/// many are recorded, neither side can add another.
pub proof fn law_round_cap(
    f: FinancingContract,
    k: u64,
    lender: Address,
    originator: Address,
    expected_round: u32,
    terms: Terms,
    now: u64,
    lender_blacklisted: bool,
    originator_blacklisted: bool,
    invoice: Option<Invoice>,
)
    requires
        f.wf(),
        f.offers@.contains_key(k),
        f.history_of(k).len() >= MAX_NEGOTIATION_ROUNDS,
    ensures
        f.history_of(k).len() == MAX_NEGOTIATION_ROUNDS,
        f.amend_failure(k, lender, expected_round, terms, now, lender_blacklisted, invoice, originator_blacklisted) is Some,
        f.counter_failure(k, originator, expected_round, terms, now, originator_blacklisted, invoice, lender_blacklisted) is Some,
{
}

/// A round written against a stale view of the history, one whose
/// `expected_round` is not the number of rounds recorded, is refused with
/// `InvalidInput` once the offer and negotiation are otherwise open to it.
pub proof fn law_stale_round_refused(f: FinancingContract, k: u64, expected_round: u32, now: u64)
    requires
        f.wf(),
        f.offers@.contains_key(k),
        f.offers@[k].status == OfferStatus::Pending,
        f.negotiation_status_at(k, now) == NegotiationStatus::NoNegotiation
            || f.negotiation_status_at(k, now) == NegotiationStatus::Open,
        f.history_of(k).len() != expected_round,
    ensures
        f.negotiable_failure(k, expected_round, now) == Some(err(ContractError::InvalidInput)),
{
}

/// A negotiation's deadline is fixed when it opens: a round recorded on an
/// open negotiation moves no deadline, of this offer or any other.
pub proof fn law_deadline_frozen_once_open(
    pre: FinancingContract,
    post: FinancingContract,
    k: u64,
    party: NegotiationParty,
    t: Terms,
    now: u64,
)
    requires
        FinancingContract::round_recorded(&pre, &post, k, party, t, now),
        pre.history_of(k).len() > 0,
    ensures
        forall|j: u64| #[trigger] post.deadline_of(j) == pre.deadline_of(j),
{
}

/// The first round opens the negotiation: its deadline becomes `now` plus
/// the configured window (saturating), and at `now` the negotiation of a
/// Pending offer reads Open.
pub proof fn law_first_round_opens(
    pre: FinancingContract,
    post: FinancingContract,
    k: u64,
    party: NegotiationParty,
    t: Terms,
    now: u64,
)
    requires
        FinancingContract::round_recorded(&pre, &post, k, party, t, now),
        pre.history_of(k).len() == 0,
        !pre.outcomes@.contains_key(k),
        post.outcomes@ == pre.outcomes@,
        post.offers@.contains_key(k),
        post.offers@[k].status == OfferStatus::Pending,
    ensures
        post.deadline_of(k) == (if now + pre.window() > u64::MAX { u64::MAX as int } else { now + pre.window() }),
        post.negotiation_status_at(k, now) == NegotiationStatus::Open,
{
}


/// Round `j` is `party`'s most recent round in `h`.
pub open spec fn is_latest_round_of(h: Seq<NegotiationRecord>, party: NegotiationParty, j: int) -> bool {
    &&& 0 <= j < h.len()
    &&& h[j].party == party
    &&& forall|m: int| j < m < h.len() ==> #[trigger] h[m].party != party
}

/// `last_proposal_of` finds the latest round of `party`, and finds none
/// exactly when `party` never proposed.
pub proof fn lemma_last_proposal(h: Seq<NegotiationRecord>, party: NegotiationParty)
    ensures
        match last_proposal_of(h, party) {
            Some(r) => exists|j: int| #[trigger] is_latest_round_of(h, party, j) && h[j] == r,
            None => forall|m: int| 0 <= m < h.len() ==> #[trigger] h[m].party != party,
        },
    decreases h.len(),
{
    if h.len() > 0 {
        let n = h.len() - 1;
        if h.last().party != party {
            let t = h.drop_last();
            lemma_last_proposal(t, party);
            match last_proposal_of(t, party) {
                Some(r) => {
                    let j = choose|j: int| #[trigger] is_latest_round_of(t, party, j) && t[j] == r;
                    assert forall|m: int| j < m < h.len() implies #[trigger] h[m].party != party by {
                        if m < n {
                            assert(t[m] == h[m]);
                        }
                    }
                    assert(is_latest_round_of(h, party, j));
                },
                None => {
                    assert forall|m: int| 0 <= m < h.len() implies #[trigger] h[m].party != party by {
                        if m < n {
                            assert(t[m] == h[m]);
                        }
                    }
                },
            }
        } else {
            assert(is_latest_round_of(h, party, n));
        }
    }
}

/// A party has at most one latest round.
proof fn lemma_latest_round_unique(h: Seq<NegotiationRecord>, party: NegotiationParty, i: int, j: int)
    requires
        is_latest_round_of(h, party, i),
        is_latest_round_of(h, party, j),
    ensures
        i == j,
{
    if i < j {
        assert(h[j].party != party);
    } else if j < i {
        assert(h[i].party != party);
    }
}

/// Only the originator's latest proposal is live: an amendment meets the
/// originator's counter-offer exactly when its terms are those of the
/// originator's most recent round, so terms the originator proposed and
/// then moved off can never be settled against.
pub proof fn law_only_latest_counter_is_live(f: FinancingContract, k: u64, terms: Terms)
    ensures
        f.meets_counter(k, terms) <==> exists|j: int|
            #[trigger] is_latest_round_of(f.history_of(k), NegotiationParty::Originator, j)
                && record_terms(f.history_of(k)[j]) == terms,
{
    let h = f.history_of(k);
    let p = NegotiationParty::Originator;
    lemma_last_proposal(h, p);
    assert forall|j: int| #[trigger] is_latest_round_of(h, p, j) && record_terms(h[j]) == terms implies f.meets_counter(k, terms) by {
        match last_proposal_of(h, p) {
            Some(r) => {
                let j2 = choose|j2: int| #[trigger] is_latest_round_of(h, p, j2) && h[j2] == r;
                lemma_latest_round_unique(h, p, j, j2);
            },
            None => {
                assert(h[j].party != p);
            },
        }
    }
}

/// Whichever entry point last set an offer's terms (creation, amendment,
/// a converging counter), every stored offer keeps within the bounds of
/// `create_offer`: a positive amount, a rate of 1 to `MAX_INTEREST_BPS`, and
/// a duration inside the offer window.
pub proof fn law_stored_offers_respect_term_bounds(f: FinancingContract, k: u64)
    requires
        f.wf(),
        f.offers@.contains_key(k),
    ensures
        f.offers@[k].amount > 0,
        1 <= f.offers@[k].interest_rate <= MAX_INTEREST_BPS,
        MIN_OFFER_DURATION_SECS <= f.offers@[k].duration <= MAX_OFFER_DURATION_SECS,
{
}

/// An offer adds its amount to its lender's active total exactly when it is
/// that lender's and stands Accepted or Financed. Any other offer adds
/// nothing: one of another lender, or one that is Pending, Rejected, Repaid
/// or Defaulted.
pub proof fn law_active_total_counts_open_positions(s: Seq<FinancingOffer>, o: FinancingOffer, lender: Address)
    ensures
        active_total(Seq::<FinancingOffer>::empty(), lender) == 0,
        o.lender == lender && (o.status == OfferStatus::Accepted || o.status == OfferStatus::Financed)
            ==> active_total(s.push(o), lender) == active_total(s, lender) + o.amount,
        o.lender != lender || o.status == OfferStatus::Pending || o.status == OfferStatus::Rejected
            || o.status == OfferStatus::Repaid || o.status == OfferStatus::Defaulted
            ==> active_total(s.push(o), lender) == active_total(s, lender),
{
    assert(s.push(o).drop_last() =~= s);
}

/// A lender none of whose offers stands Accepted or Financed has nothing
/// outstanding: its active total is zero, whatever it once had accepted.
pub proof fn law_settled_lender_has_no_active_total(s: Seq<FinancingOffer>, lender: Address)
    requires
        forall|i: int| 0 <= i < s.len() && (#[trigger] s[i]).lender == lender
            ==> s[i].status != OfferStatus::Accepted && s[i].status != OfferStatus::Financed,
    ensures
        active_total(s, lender) == 0,
    decreases s.len(),
{
    if s.len() > 0 {
        let p = s.drop_last();
        assert forall|i: int| 0 <= i < p.len() && (#[trigger] p[i]).lender == lender
            implies p[i].status != OfferStatus::Accepted && p[i].status != OfferStatus::Financed by {
            assert(p[i] == s[i]);
        }
        law_settled_lender_has_no_active_total(p, lender);
        assert(s[s.len() - 1] == s.last());
    }
}

/// `j` installments of `amount` are covered in full by `repaid`.
pub open spec fn installments_covered(repaid: int, amount: int, j: int) -> bool {
    j * amount <= repaid
}

/// The installment reported due is the earliest one the repaid amount does
/// not cover in full. With an offer that is scheduled and neither repaid nor
/// defaulted, at or after the first due date: a reported installment `d`
/// has fallen due, the repaid amount covers the `d - 1` before it in full
/// and falls short of covering `d`; and when none is reported, every
/// installment that has fallen due is covered in full. A partly paid
/// installment counts as unpaid.
pub proof fn law_installment_due_is_first_uncovered(f: FinancingContract, k: u64, now: u64)
    requires
        f.wf(),
        f.schedules@.contains_key(k),
        f.offers@.contains_key(k),
        f.offers@[k].status != OfferStatus::Repaid,
        f.offers@[k].status != OfferStatus::Defaulted,
        now >= f.schedules@[k].first_due,
        0 <= f.offers@[k].amount_repaid < 4_294_967_296 * f.schedules@[k].installment_amount,
    ensures
        ({
            let sc = f.schedules@[k];
            let r = f.offers@[k].amount_repaid as int;
            let a = sc.installment_amount as int;
            let period = sc.frequency.spec_period_secs() as int;
            let d = installment_due(f.schedules@, f.offers@, k, now) as int;
            &&& d > 0 ==> {
                &&& d <= sc.count
                &&& sc.first_due + (d - 1) * period <= now
                &&& installments_covered(r, a, d - 1)
                &&& !installments_covered(r, a, d)
            }
            &&& d == 0 ==> forall|j: int|
                1 <= j <= sc.count && sc.first_due + (j - 1) * period <= now
                    ==> #[trigger] installments_covered(r, a, j)
        }),
{
    let sc = f.schedules@[k];
    let o = f.offers@[k];
    let r = o.amount_repaid as int;
    let a = sc.installment_amount as int;
    let period = sc.frequency.spec_period_secs() as int;
    assert(a > 0);
    assert(period > 0);
    let q = r / a;
    assert(q * a <= r && r < (q + 1) * a && 0 <= q) by (nonlinear_arith)
        requires
            0 <= r,
            0 < a,
            q == r / a,
    ;
    assert(q < 4_294_967_296) by (nonlinear_arith)
        requires
            q * a <= r,
            r < 4_294_967_296 * a,
            0 < a,
    ;
    assert(tdiv(r, a) == q);
    let x = now - sc.first_due;
    let m = x / period;
    assert(m * period <= x && x < (m + 1) * period && 0 <= m) by (nonlinear_arith)
        requires
            0 <= x,
            0 < period,
            m == x / period,
    ;
    let passed = m + 1;
    let elapsed = if passed < sc.count { passed } else { sc.count as int };
    let d = installment_due(f.schedules@, f.offers@, k, now) as int;
    if q >= elapsed {
        assert(d == 0);
        assert forall|j: int| 1 <= j <= sc.count && sc.first_due + (j - 1) * period <= now
            implies #[trigger] installments_covered(r, a, j) by {
            assert(j - 1 <= m) by (nonlinear_arith)
                requires
                    (j - 1) * period <= x,
                    x < (m + 1) * period,
                    0 < period,
            ;
            assert(j * a <= q * a) by (nonlinear_arith)
                requires
                    j <= q,
                    0 < a,
            ;
        }
    } else {
        assert(d == q + 1);
        assert((d - 1) * period <= x) by (nonlinear_arith)
            requires
                d - 1 <= m,
                m * period <= x,
                0 < period,
        ;
    }
}

} // verus!
