use std::collections::HashMap;

use invofi::financing::{FinancingContract, RoundOutcome, Settlement, Terms};
use invofi::registry::RegistryContract;
use invofi::types::{
    Abort, Address, ContractError, Failure, FinancingOffer, Invoice, InvoiceStatus,
    NegotiationParty, NegotiationStatus, OfferStatus, RepaymentSchedule, ScheduleFrequency,
    Symbol, MAX_INTEREST_BPS, MAX_OFFER_DURATION_SECS, MIN_OFFER_DURATION_SECS,
};

/// A short identifier, ordered as its text is.
fn sym(s: &str) -> Symbol {
    let b = s.as_bytes();
    assert!(b.len() <= 9);
    let mut v: u64 = 0;
    for i in 0..9 {
        let c = if i < b.len() { b[i] as u64 } else { 0 };
        v = v * 128 + c;
    }
    Symbol(v)
}

fn addr(n: u64) -> Address {
    Address(n)
}

const REGISTRY: Address = Address(900);
const FINANCING: Address = Address(901);

/// The registry and financing contracts side by side, with the host's part
/// of each call done here: reading the invoice and the blacklist from the
/// registry, and carrying out a settlement (principal transfer, registry
/// transition, position-token mint) on a simple token ledger.
struct World {
    reg: RegistryContract,
    fin: FinancingContract,
    now: u64,
    balances: HashMap<(u64, u64), i128>,
}

impl World {
    fn new(admin: Address, token: Address) -> World {
        let mut reg = RegistryContract::new(admin);
        let fin = FinancingContract::new(admin, REGISTRY, token);
        reg.set_financing_contract(admin, FINANCING).unwrap();
        World { reg, fin, now: 1_000_000, balances: HashMap::new() }
    }

    fn balance(&self, token: Address, who: Address) -> i128 {
        *self.balances.get(&(token.0, who.0)).unwrap_or(&0)
    }

    fn mint(&mut self, token: Address, who: Address, amount: i128) {
        *self.balances.entry((token.0, who.0)).or_insert(0) += amount;
    }

    fn transfer(&mut self, token: Address, from: Address, to: Address, amount: i128) {
        let have = self.balance(token, from);
        assert!(have >= amount, "insufficient balance");
        self.balances.insert((token.0, from.0), have - amount);
        self.mint(token, to, amount);
    }

    fn register_invoice(&mut self, id: Symbol, originator: Address, amount: i128, currency: Symbol, due: u64) -> Invoice {
        self.reg.register_invoice(id, originator, amount, currency, due, self.now).unwrap()
    }

    fn invoice(&self, id: Symbol) -> Option<Invoice> {
        self.reg.get_invoice(id).ok()
    }

    fn offer_invoice(&self, offer_id: Symbol) -> Option<Invoice> {
        match self.fin.get_offer(offer_id) {
            Ok(o) => self.invoice(o.invoice_id),
            Err(_) => None,
        }
    }

    fn create_offer(
        &mut self,
        offer_id: Symbol,
        invoice_id: Symbol,
        lender: Address,
        amount: i128,
        currency: Symbol,
        rate: u32,
        duration: u64,
    ) -> Result<FinancingOffer, Failure> {
        let invoice = self.invoice(invoice_id);
        let blacklisted = self.reg.is_blacklisted(lender);
        self.fin.create_offer(offer_id, invoice, lender, blacklisted, amount, currency, rate, duration)
    }

    fn settle(&mut self, s: &Settlement) {
        let inv = self.reg.get_invoice(s.offer.invoice_id).unwrap();
        self.transfer(s.token, s.offer.lender, inv.originator, s.offer.amount);
        self.reg.financing_marks_invoice_financed(s.offer.invoice_id, self.now).unwrap();
        if let Some(p) = s.position_token {
            self.mint(p, s.offer.lender, s.offer.amount);
        }
    }

    fn accept_offer_settlement(&mut self, offer_id: Symbol, originator: Address) -> Result<Settlement, Failure> {
        let invoice = self.offer_invoice(offer_id);
        let s = self.fin.accept_offer(offer_id, originator, invoice, self.now)?;
        self.settle(&s);
        Ok(s)
    }

    fn accept_offer(&mut self, offer_id: Symbol, originator: Address) -> Result<FinancingOffer, Failure> {
        self.accept_offer_settlement(offer_id, originator).map(|s| s.offer)
    }

    fn reject_offer(&mut self, offer_id: Symbol, originator: Address) -> Result<FinancingOffer, Failure> {
        let invoice = self.offer_invoice(offer_id);
        self.fin.reject_offer(offer_id, originator, invoice).map(|(o, _)| o)
    }

    fn withdraw_offer(&mut self, offer_id: Symbol, lender: Address) -> Result<FinancingOffer, Failure> {
        self.fin.withdraw_offer(offer_id, lender).map(|(o, _)| o)
    }

    fn blacklist_flags(&self, invoice: Option<Invoice>) -> bool {
        match invoice {
            Some(i) => self.reg.is_blacklisted(i.originator),
            None => false,
        }
    }

    fn amend_round(&mut self, offer_id: Symbol, lender: Address, round: u32, amount: i128, rate: u32, duration: u64) -> Result<RoundOutcome, Failure> {
        let invoice = self.offer_invoice(offer_id);
        let lender_blacklisted = self.reg.is_blacklisted(lender);
        let originator_blacklisted = self.blacklist_flags(invoice);
        let terms = Terms { amount, interest_rate: rate, duration };
        let out = self.fin.amend_offer(offer_id, lender, round, terms, self.now, lender_blacklisted, invoice, originator_blacklisted)?;
        if let Some(s) = out.settlement {
            self.settle(&s);
        }
        Ok(out)
    }

    fn amend_offer(&mut self, offer_id: Symbol, lender: Address, round: u32, amount: i128, rate: u32, duration: u64) -> Result<FinancingOffer, Failure> {
        self.amend_round(offer_id, lender, round, amount, rate, duration).map(|o| o.offer)
    }

    fn counter_round(&mut self, offer_id: Symbol, originator: Address, round: u32, amount: i128, rate: u32, duration: u64) -> Result<RoundOutcome, Failure> {
        let invoice = self.offer_invoice(offer_id);
        let originator_blacklisted = self.reg.is_blacklisted(originator);
        let lender_blacklisted = match self.fin.get_offer(offer_id) {
            Ok(o) => self.reg.is_blacklisted(o.lender),
            Err(_) => false,
        };
        let terms = Terms { amount, interest_rate: rate, duration };
        let out = self.fin.counter_offer(offer_id, originator, round, terms, self.now, originator_blacklisted, invoice, lender_blacklisted)?;
        if let Some(s) = out.settlement {
            self.settle(&s);
        }
        Ok(out)
    }

    fn counter_offer(&mut self, offer_id: Symbol, originator: Address, round: u32, amount: i128, rate: u32, duration: u64) -> Result<FinancingOffer, Failure> {
        self.counter_round(offer_id, originator, round, amount, rate, duration).map(|o| o.offer)
    }

    fn close_negotiation(&mut self, offer_id: Symbol, caller: Address) -> Result<NegotiationStatus, Failure> {
        let invoice = self.offer_invoice(offer_id);
        self.fin.close_negotiation(offer_id, caller, self.now, invoice)
    }

    fn negotiation_status(&self, offer_id: Symbol) -> NegotiationStatus {
        self.fin.get_negotiation_status(offer_id, self.now)
    }

    fn schedule(&mut self, offer_id: Symbol, caller: Address, frequency: ScheduleFrequency, count: u32, first_due: u64) -> Result<RepaymentSchedule, Failure> {
        let invoice = self.offer_invoice(offer_id);
        self.fin.schedule_repayment(offer_id, caller, frequency, count, first_due, self.now, invoice)
    }

    fn installment_due(&self, offer_id: Symbol) -> u32 {
        self.fin.get_installment_due(offer_id, self.now)
    }
}

fn one(a: Address) -> Vec<Address> {
    vec![a]
}

fn contract(e: ContractError) -> Failure {
    Failure::Contract(e)
}

fn aborted(a: Abort) -> Failure {
    Failure::Abort(a)
}

const ADMIN: Address = Address(1);
const ORIGINATOR: Address = Address(2);
const LENDER: Address = Address(3);
const TOKEN: Address = Address(50);

/// Registry and financing over a settlement token, an invoice and a fundable
/// offer of `amount` at 500 bps for 15 days; the lender holds four times the
/// amount.
fn setup_negotiation(invoice_id: Symbol, offer_id: Symbol, amount: i128) -> World {
    let mut w = World::new(ADMIN, TOKEN);
    w.mint(TOKEN, LENDER, amount * 4);
    w.register_invoice(invoice_id, ORIGINATOR, amount, sym("USDC"), 9_000_000);
    w.create_offer(offer_id, invoice_id, LENDER, amount, sym("USDC"), 500, 1_296_000).unwrap();
    w
}

/// A pending offer of 1.2 billion at 500 bps over a year, ready to be
/// scheduled.
fn setup_offer_for_schedule() -> World {
    let mut w = World::new(ADMIN, TOKEN);
    let due = w.now + 100_000_000;
    w.register_invoice(sym("inv_sc1"), ORIGINATOR, 1_200_000_000, sym("USDC"), due);
    w.create_offer(sym("off_sc1"), sym("inv_sc1"), LENDER, 1_200_000_000, sym("USDC"), 500, 31_536_000).unwrap();
    w
}

// ─── Offer CRUD ──────────────────────────────────────────────────────────────

#[test]
fn test_create_and_get_offer() {
    let mut w = World::new(ADMIN, TOKEN);
    let invoice_id = sym("inv003");
    let offer_id = sym("off001");
    w.register_invoice(invoice_id, ORIGINATOR, 2_000_000_000, sym("USDC"), 3_000_000);

    let offer = w.create_offer(offer_id, invoice_id, LENDER, 2_000_000_000, sym("USDC"), 500, 2_592_000).unwrap();
    assert_eq!(offer.id, offer_id);
    assert_eq!(offer.invoice_id, invoice_id);
    assert_eq!(offer.lender, LENDER);
    assert_eq!(offer.status, OfferStatus::Pending);
    assert_eq!(offer.funded_at, 0u64);

    let fetched = w.fin.get_offer(offer_id).unwrap();
    assert_eq!(fetched.id, offer_id);
}

#[test]
fn test_create_offer_zero_amount() {
    let mut w = World::new(ADMIN, TOKEN);
    w.register_invoice(sym("inv001"), ORIGINATOR, 2_000_000_000, sym("USDC"), 3_000_000);
    let r = w.create_offer(sym("off001"), sym("inv001"), LENDER, 0, sym("USDC"), 500, 2_592_000);
    assert_eq!(r, Err(aborted(Abort::OfferAmountNotPositive)));
}

#[test]
fn test_create_offer_interest_rate_too_high_panics() {
    let mut w = World::new(ADMIN, TOKEN);
    w.register_invoice(sym("inv_v3"), ORIGINATOR, 10_000_000, sym("USDC"), 3_000_000);
    let r = w.create_offer(sym("off_v1"), sym("inv_v3"), LENDER, 1_000, sym("USDC"), MAX_INTEREST_BPS + 1, 86_400);
    assert_eq!(r, Err(aborted(Abort::InterestRateTooHigh)));
}

#[test]
fn test_create_offer_interest_rate_at_cap_passes() {
    let mut w = World::new(ADMIN, TOKEN);
    w.register_invoice(sym("inv_v4"), ORIGINATOR, 10_000_000, sym("USDC"), 3_000_000);
    let offer = w.create_offer(sym("off_v2"), sym("inv_v4"), LENDER, 1_000, sym("USDC"), MAX_INTEREST_BPS, 86_400).unwrap();
    assert_eq!(offer.interest_rate, MAX_INTEREST_BPS);
}

#[test]
fn test_create_offer_short_duration_panics() {
    let mut w = World::new(ADMIN, TOKEN);
    w.register_invoice(sym("inv_v5"), ORIGINATOR, 10_000_000, sym("USDC"), 3_000_000);
    let r = w.create_offer(sym("off_v3"), sym("inv_v5"), LENDER, 1_000, sym("USDC"), 500, 3_600);
    assert_eq!(r, Err(aborted(Abort::DurationTooShort)));
}

#[test]
fn test_max_offer_duration_rejected() {
    let mut w = World::new(ADMIN, TOKEN);
    w.register_invoice(sym("i1"), ORIGINATOR, 1_000_000_000, sym("USDC"), 1_735_689_600);
    let r = w.create_offer(sym("o1"), sym("i1"), LENDER, 500_000_000, sym("USDC"), 500, 31_622_400);
    assert!(31_622_400 > MAX_OFFER_DURATION_SECS);
    assert_eq!(r, Err(aborted(Abort::DurationTooLong)));
}

#[test]
fn test_create_offer_self_dealing_panics() {
    let mut w = World::new(ADMIN, TOKEN);
    w.register_invoice(sym("inv_sd"), ORIGINATOR, 10_000_000, sym("USDC"), 3_000_000);
    let r = w.create_offer(sym("off_sd"), sym("inv_sd"), ORIGINATOR, 1_000, sym("USDC"), 500, 86_400);
    assert_eq!(r, Err(aborted(Abort::SelfFinancing)));
}

#[test]
fn test_blacklisted_cannot_create_offer() {
    let mut w = World::new(ADMIN, TOKEN);
    w.register_invoice(sym("inv_bl"), ORIGINATOR, 10_000_000, sym("USDC"), 3_000_000);
    w.reg.blacklist_address(ADMIN, LENDER).unwrap();
    let r = w.create_offer(sym("off_bl"), sym("inv_bl"), LENDER, 1_000, sym("USDC"), 500, 86_400);
    assert_eq!(r, Err(contract(ContractError::Blacklisted)));
}

#[test]
fn test_create_offer_on_missing_invoice_is_not_found() {
    let mut w = World::new(ADMIN, TOKEN);
    let r = w.create_offer(sym("off_nf"), sym("nosuch"), LENDER, 1_000, sym("USDC"), 500, 86_400);
    assert_eq!(r, Err(contract(ContractError::NotFound)));
}

#[test]
fn test_create_offer_twice_is_already_exists() {
    let mut w = World::new(ADMIN, TOKEN);
    w.register_invoice(sym("inv_dup"), ORIGINATOR, 10_000_000, sym("USDC"), 3_000_000);
    w.create_offer(sym("off_dup"), sym("inv_dup"), LENDER, 1_000, sym("USDC"), 500, 86_400).unwrap();
    let r = w.create_offer(sym("off_dup"), sym("inv_dup"), LENDER, 1_000, sym("USDC"), 500, 86_400);
    assert_eq!(r, Err(contract(ContractError::AlreadyExists)));
    assert_eq!(w.fin.get_offers_count(), 1);
}

// ─── Accept / reject / withdraw ──────────────────────────────────────────────

#[test]
fn test_accept_offer() {
    let amount: i128 = 1_000_000_000;
    let mut w = World::new(ADMIN, TOKEN);
    w.mint(TOKEN, LENDER, amount);
    let invoice_id = sym("inv004");
    let offer_id = sym("off002");
    w.register_invoice(invoice_id, ORIGINATOR, amount, sym("USDC"), 3_000_000);
    w.create_offer(offer_id, invoice_id, LENDER, amount, sym("USDC"), 300, 1_296_000).unwrap();

    let accepted = w.accept_offer(offer_id, ORIGINATOR).unwrap();
    assert_eq!(accepted.status, OfferStatus::Accepted);

    let invoice = w.reg.get_invoice(invoice_id).unwrap();
    assert_eq!(invoice.status, InvoiceStatus::Financed);

    assert_eq!(w.balance(TOKEN, LENDER), 0);
    assert_eq!(w.balance(TOKEN, ORIGINATOR), amount);
}

#[test]
fn test_reject_offer() {
    let mut w = World::new(ADMIN, TOKEN);
    let invoice_id = sym("inv005");
    let offer_id = sym("off003");
    w.register_invoice(invoice_id, ORIGINATOR, 1_000_000_000, sym("XLM"), 3_000_000);
    w.create_offer(offer_id, invoice_id, LENDER, 1_000_000_000, sym("XLM"), 200, 864_000).unwrap();

    let rejected = w.reject_offer(offer_id, ORIGINATOR).unwrap();
    assert_eq!(rejected.status, OfferStatus::Rejected);

    let invoice = w.reg.get_invoice(invoice_id).unwrap();
    assert_eq!(invoice.status, InvoiceStatus::Pending);
}

#[test]
fn test_withdraw_offer() {
    let mut w = World::new(ADMIN, TOKEN);
    w.register_invoice(sym("inv_w1"), ORIGINATOR, 50_000_000, sym("USDC"), 3_000_000);
    w.create_offer(sym("off_w1"), sym("inv_w1"), LENDER, 5_000, sym("USDC"), 300, 86_400).unwrap();

    let withdrawn = w.withdraw_offer(sym("off_w1"), LENDER).unwrap();
    assert_eq!(withdrawn.status, OfferStatus::Rejected);
}

#[test]
fn test_withdraw_offer_wrong_lender_panics() {
    let mut w = World::new(ADMIN, TOKEN);
    w.register_invoice(sym("inv_w2"), ORIGINATOR, 50_000_000, sym("USDC"), 3_000_000);
    w.create_offer(sym("off_w2"), sym("inv_w2"), LENDER, 5_000, sym("USDC"), 300, 86_400).unwrap();

    let r = w.withdraw_offer(sym("off_w2"), addr(77));
    assert_eq!(r, Err(contract(ContractError::Unauthorized)));
    assert_eq!(w.fin.get_offer(sym("off_w2")).unwrap().status, OfferStatus::Pending);
}

#[test]
fn test_accept_by_non_originator_is_unauthorized() {
    let mut w = World::new(ADMIN, TOKEN);
    w.register_invoice(sym("inv_na"), ORIGINATOR, 50_000_000, sym("USDC"), 3_000_000);
    w.create_offer(sym("off_na"), sym("inv_na"), LENDER, 5_000, sym("USDC"), 300, 86_400).unwrap();
    let r = w.accept_offer(sym("off_na"), addr(77));
    assert_eq!(r, Err(contract(ContractError::Unauthorized)));
    assert_eq!(w.reg.get_invoice(sym("inv_na")).unwrap().status, InvoiceStatus::Pending);
}

// ─── Queries ─────────────────────────────────────────────────────────────────

#[test]
fn test_get_offers_by_invoice() {
    let mut w = World::new(ADMIN, TOKEN);
    w.register_invoice(sym("inv_g1"), ORIGINATOR, 50_000_000, sym("USDC"), 3_000_000);
    w.create_offer(sym("off_g1a"), sym("inv_g1"), LENDER, 5_000, sym("USDC"), 300, 86_400).unwrap();
    w.create_offer(sym("off_g1b"), sym("inv_g1"), LENDER, 5_000, sym("USDC"), 400, 86_400).unwrap();

    let offers = w.fin.get_offers_by_invoice(sym("inv_g1"));
    assert_eq!(offers.len(), 2);
}

#[test]
fn test_get_offers_by_lender() {
    let mut w = World::new(ADMIN, TOKEN);
    let other = addr(4);
    w.register_invoice(sym("inv_l1"), ORIGINATOR, 10_000_000, sym("XLM"), 3_000_000);
    w.create_offer(sym("off_l1"), sym("inv_l1"), LENDER, 1_000, sym("XLM"), 200, 86_400).unwrap();
    w.create_offer(sym("off_l2"), sym("inv_l1"), other, 1_000, sym("XLM"), 300, 86_400).unwrap();

    let lender_offers = w.fin.get_offers_by_lender(LENDER);
    assert_eq!(lender_offers.len(), 1);
    assert_eq!(lender_offers[0].lender, LENDER);
}

#[test]
fn test_get_offers_count() {
    let mut w = World::new(ADMIN, TOKEN);
    assert_eq!(w.fin.get_offers_count(), 0);
    w.register_invoice(sym("i1"), ORIGINATOR, 1_000_000_000, sym("USDC"), 1_735_689_600);
    w.create_offer(sym("o1"), sym("i1"), LENDER, 500_000_000, sym("USDC"), 300, 86_400).unwrap();
    assert_eq!(w.fin.get_offers_count(), 1);
}

#[test]
fn test_get_offers_by_status_filters_correctly() {
    let mut w = World::new(ADMIN, TOKEN);
    w.register_invoice(sym("inv1"), ORIGINATOR, 1_000_000_000, sym("USDC"), 1_735_689_600);
    w.create_offer(sym("off1"), sym("inv1"), LENDER, 500_000_000, sym("USDC"), 300, 86_400).unwrap();
    w.create_offer(sym("off2"), sym("inv1"), LENDER, 500_000_000, sym("USDC"), 400, 86_400).unwrap();

    assert_eq!(w.fin.get_offers_by_status(OfferStatus::Pending).len(), 2);

    w.reject_offer(sym("off1"), ORIGINATOR).unwrap();
    assert_eq!(w.fin.get_offers_by_status(OfferStatus::Pending).len(), 1);
    assert_eq!(w.fin.get_offers_by_status(OfferStatus::Rejected).len(), 1);
}

#[test]
fn test_get_pending_offers_by_invoice_excludes_rejected() {
    let mut w = World::new(ADMIN, TOKEN);
    w.register_invoice(sym("inv1"), ORIGINATOR, 1_000_000_000, sym("USDC"), 1_735_689_600);
    w.create_offer(sym("off1"), sym("inv1"), LENDER, 500_000_000, sym("USDC"), 300, 86_400).unwrap();
    w.create_offer(sym("off2"), sym("inv1"), LENDER, 300_000_000, sym("USDC"), 250, 86_400).unwrap();

    assert_eq!(w.fin.get_pending_offers_by_invoice(sym("inv1")).len(), 2);

    w.reject_offer(sym("off1"), ORIGINATOR).unwrap();
    let still_pending = w.fin.get_pending_offers_by_invoice(sym("inv1"));
    assert_eq!(still_pending.len(), 1);
    assert_eq!(still_pending[0].id, sym("off2"));
}

#[test]
fn test_get_offers_paginated() {
    let mut w = World::new(ADMIN, TOKEN);
    w.register_invoice(sym("inv1"), ORIGINATOR, 2_000_000_000, sym("USDC"), 1_735_689_600);
    for (id, rate) in [("o1", 100u32), ("o2", 200), ("o3", 300), ("o4", 400)] {
        w.create_offer(sym(id), sym("inv1"), LENDER, 100_000_000, sym("USDC"), rate, 86_400).unwrap();
    }

    let page1 = w.fin.get_offers_paginated(0, 2);
    assert_eq!(page1.len(), 2);
    let page2 = w.fin.get_offers_paginated(2, 2);
    assert_eq!(page2.len(), 2);
    let page3 = w.fin.get_offers_paginated(4, 2);
    assert_eq!(page3.len(), 0);

    assert_eq!(page1[0].id, sym("o1"));
    assert_eq!(page2[1].id, sym("o4"));
}

// ─── Repayment callbacks ─────────────────────────────────────────────────────

#[test]
fn test_update_offer_status_and_amount_repaid() {
    let mut w = World::new(ADMIN, TOKEN);
    w.register_invoice(sym("inv_cr"), ORIGINATOR, 50_000_000, sym("USDC"), 3_000_000);
    w.create_offer(sym("off_cr"), sym("inv_cr"), LENDER, 5_000, sym("USDC"), 300, 86_400).unwrap();

    w.fin.set_repayment_contract(&one(ADMIN), addr(60)).unwrap();

    w.fin.update_offer_status(sym("off_cr"), OfferStatus::Financed).unwrap();
    w.fin.update_offer_amount_repaid(sym("off_cr"), 2_500).unwrap();

    let offer = w.fin.get_offer(sym("off_cr")).unwrap();
    assert_eq!(offer.status, OfferStatus::Financed);
    assert_eq!(offer.amount_repaid, 2_500);
}

#[test]
fn test_callbacks_need_a_configured_repayment_contract() {
    let mut w = World::new(ADMIN, TOKEN);
    w.register_invoice(sym("inv_cb"), ORIGINATOR, 50_000_000, sym("USDC"), 3_000_000);
    w.create_offer(sym("off_cb"), sym("inv_cb"), LENDER, 5_000, sym("USDC"), 300, 86_400).unwrap();
    let r = w.fin.update_offer_status(sym("off_cb"), OfferStatus::Financed);
    assert_eq!(r, Err(aborted(Abort::RepaymentNotConfigured)));
    assert_eq!(w.fin.get_offer(sym("off_cb")).unwrap().status, OfferStatus::Pending);
}

#[test]
fn test_update_lender_stats_repaid() {
    let mut w = World::new(ADMIN, TOKEN);
    w.register_invoice(sym("inv_ls"), ORIGINATOR, 50_000_000, sym("USDC"), 3_000_000);
    w.create_offer(sym("off_ls"), sym("inv_ls"), LENDER, 5_000, sym("USDC"), 300, 86_400).unwrap();

    assert_eq!(w.fin.get_lender_stats(LENDER).offers_repaid, 0);

    w.fin.set_repayment_contract(&one(ADMIN), addr(60)).unwrap();
    w.fin.update_lender_stats_repaid(LENDER, true).unwrap();

    assert_eq!(w.fin.get_lender_stats(LENDER).offers_repaid, 1);
}

#[test]
fn test_update_stats_repaid_and_get_fee_bps() {
    let mut w = World::new(ADMIN, TOKEN);
    assert_eq!(w.fin.get_fee_bps(), 0);

    w.fin.set_repayment_contract(&one(ADMIN), addr(60)).unwrap();
    w.fin.update_stats_repaid(1_000_000, 50_000).unwrap();
    let stats = w.fin.get_stats();
    assert_eq!(stats.total_repaid, 1_000_000);
    assert_eq!(stats.total_fee_revenue, 50_000);
}

#[test]
fn test_get_offer_duration_limits() {
    let fin = FinancingContract::new(addr(1), addr(2), addr(3));
    let (min, max) = fin.get_offer_duration_limits();
    assert_eq!(min, MIN_OFFER_DURATION_SECS);
    assert_eq!(max, MAX_OFFER_DURATION_SECS);
}

// ─── Multisig admin governance ───────────────────────────────────────────────

#[test]
fn test_financing_bootstrap_admin_config_defaults() {
    let admin = addr(1);
    let fin = FinancingContract::new(admin, addr(2), addr(3));
    let cfg = fin.get_admin_config();
    assert_eq!(cfg.signers.len(), 1);
    assert_eq!(cfg.signers[0], admin);
    assert_eq!(cfg.threshold, 1);
    assert_eq!(fin.get_admin(), Ok(admin));
}

#[test]
fn test_financing_set_signers_requires_threshold() {
    let admin = addr(1);
    let mut fin = FinancingContract::new(admin, addr(2), addr(3));
    let b = addr(4);
    fin.set_signers(&one(admin), &vec![admin, b], 2).unwrap();

    // A single signer is no longer sufficient once threshold is 2.
    assert!(fin.pause(&one(admin)).is_err());
    assert!(!fin.contract_is_paused());

    fin.pause(&vec![admin, b]).unwrap();
    assert!(fin.contract_is_paused());
}

#[test]
fn test_non_signer_cannot_administer() {
    let admin = addr(1);
    let mut fin = FinancingContract::new(admin, addr(2), addr(3));
    assert_eq!(fin.pause(&one(addr(9))), Err(contract(ContractError::Unauthorized)));
    assert_eq!(fin.set_position_token(&one(addr(9)), addr(70)), Err(contract(ContractError::Unauthorized)));
    assert_eq!(fin.get_position_token(), None);
}

// ─── Emergency pause ─────────────────────────────────────────────────────────

#[test]
fn test_pause_blocks_create_offer() {
    let mut w = World::new(ADMIN, TOKEN);
    w.register_invoice(sym("invp1"), ORIGINATOR, 2_000_000_000, sym("USDC"), 3_000_000);
    w.fin.pause(&one(ADMIN)).unwrap();
    let r = w.create_offer(sym("offp1"), sym("invp1"), LENDER, 2_000_000_000, sym("USDC"), 500, 2_592_000);
    assert_eq!(r, Err(contract(ContractError::Paused)));
}

#[test]
fn test_pause_blocks_all_financing_state_changes() {
    let mut w = World::new(ADMIN, TOKEN);
    w.fin.pause(&one(ADMIN)).unwrap();
    let paused = Err::<(), Failure>(contract(ContractError::Paused));

    assert_eq!(w.create_offer(sym("offx1"), sym("invx1"), LENDER, 1_000, sym("USDC"), 500, 86_400).map(|_| ()), paused);
    assert_eq!(w.withdraw_offer(sym("offx2"), LENDER).map(|_| ()), paused);
    assert_eq!(w.accept_offer(sym("offx3"), ORIGINATOR).map(|_| ()), paused);
    assert_eq!(w.reject_offer(sym("offx4"), ORIGINATOR).map(|_| ()), paused);
    assert_eq!(w.fin.set_repayment_contract(&one(ADMIN), addr(60)), paused);
    assert_eq!(w.fin.transfer_admin(&one(ADMIN), addr(61)), paused);
    assert_eq!(w.fin.register_currency(&one(ADMIN), sym("EUR"), addr(62)), paused);
    assert_eq!(w.fin.set_position_token(&one(ADMIN), addr(63)), paused);
    assert_eq!(w.fin.update_offer_status(sym("offx5"), OfferStatus::Rejected), paused);
    assert_eq!(w.fin.update_offer_amount_repaid(sym("offx6"), 1_000), paused);
    assert_eq!(w.fin.update_lender_stats_repaid(LENDER, true), paused);
    assert_eq!(w.fin.update_stats_repaid(1_000, 50), paused);

    assert_eq!(w.fin.get_offer_duration_limits().0, MIN_OFFER_DURATION_SECS);
    assert_eq!(w.fin.get_stats().total_offers, 0);
}

#[test]
fn test_unpause_restores_offers() {
    let mut w = World::new(ADMIN, TOKEN);
    w.register_invoice(sym("invp2"), ORIGINATOR, 2_000_000_000, sym("USDC"), 3_000_000);
    w.fin.pause(&one(ADMIN)).unwrap();
    w.fin.unpause(&one(ADMIN)).unwrap();
    assert!(!w.fin.contract_is_paused());
    assert!(w.create_offer(sym("offp2"), sym("invp2"), LENDER, 1_000, sym("USDC"), 500, 86_400).is_ok());
}

// ─── Position token ──────────────────────────────────────────────────────────

#[test]
fn test_accept_offer_mints_position_token() {
    let amount: i128 = 1_000_000_000;
    let mut w = World::new(ADMIN, TOKEN);
    let pos_token = addr(70);
    w.mint(TOKEN, LENDER, amount);
    assert!(w.fin.get_position_token().is_none());
    w.fin.set_position_token(&one(ADMIN), pos_token).unwrap();
    assert_eq!(w.fin.get_position_token(), Some(pos_token));

    w.register_invoice(sym("invp2"), ORIGINATOR, amount, sym("USDC"), 3_000_000);
    w.create_offer(sym("offp2"), sym("invp2"), LENDER, amount, sym("USDC"), 300, 1_296_000).unwrap();

    w.accept_offer(sym("offp2"), ORIGINATOR).unwrap();

    assert_eq!(w.balance(pos_token, LENDER), amount);
    assert_eq!(w.balance(TOKEN, LENDER), 0);
    assert_eq!(w.balance(TOKEN, ORIGINATOR), amount);
}

#[test]
fn test_accept_offer_without_position_token_still_works() {
    let amount: i128 = 1_000_000_000;
    let mut w = World::new(ADMIN, TOKEN);
    w.mint(TOKEN, LENDER, amount);
    assert!(w.fin.get_position_token().is_none());

    w.register_invoice(sym("invp3"), ORIGINATOR, amount, sym("USDC"), 3_000_000);
    w.create_offer(sym("offp3"), sym("invp3"), LENDER, amount, sym("USDC"), 300, 1_296_000).unwrap();

    let s = w.accept_offer_settlement(sym("offp3"), ORIGINATOR).unwrap();
    assert_eq!(s.offer.status, OfferStatus::Accepted);
    assert_eq!(s.position_token, None);
    assert_eq!(w.balance(TOKEN, ORIGINATOR), amount);
}

#[test]
fn test_registered_currency_settles_in_its_own_token() {
    let amount: i128 = 1_000_000_000;
    let eur_token = addr(80);
    let mut w = World::new(ADMIN, TOKEN);
    w.fin.register_currency(&one(ADMIN), sym("EUR"), eur_token).unwrap();
    assert_eq!(w.fin.get_currency_token(sym("EUR")), Some(eur_token));
    w.mint(eur_token, LENDER, amount);

    w.register_invoice(sym("inveur"), ORIGINATOR, amount, sym("EUR"), 3_000_000);
    w.create_offer(sym("offeur"), sym("inveur"), LENDER, amount, sym("EUR"), 300, 1_296_000).unwrap();
    let s = w.accept_offer_settlement(sym("offeur"), ORIGINATOR).unwrap();
    assert_eq!(s.token, eur_token);
    assert_eq!(w.balance(eur_token, ORIGINATOR), amount);
}

// ─── Repayment schedules ─────────────────────────────────────────────────────

#[test]
fn test_schedule_created_and_readable() {
    let mut w = setup_offer_for_schedule();
    assert!(w.fin.get_schedule(sym("off_sc1")).is_none());

    let first_due = w.now + 604_800;
    let sched = w.schedule(sym("off_sc1"), ORIGINATOR, ScheduleFrequency::Weekly, 12, first_due).unwrap();
    assert_eq!(sched.count, 12);
    assert_eq!(sched.frequency, ScheduleFrequency::Weekly);
    assert_eq!(sched.first_due, first_due);

    let fetched = w.fin.get_schedule(sym("off_sc1"));
    assert!(fetched.is_some());
    assert_eq!(fetched.unwrap().count, 12);
}

#[test]
fn test_installment_math_matches_documented_model() {
    let mut w = setup_offer_for_schedule();
    let first_due = w.now + 604_800;
    let sched = w.schedule(sym("off_sc1"), ORIGINATOR, ScheduleFrequency::Weekly, 12, first_due).unwrap();

    let expected_principal_slice = 1_200_000_000i128 / 12;
    let expected_yield = expected_principal_slice * 500 / 10_000;
    let expected_installment = expected_principal_slice + expected_yield;
    assert_eq!(sched.installment_amount, expected_installment);
    assert_eq!(sched.installment_amount, 105_000_000);
}

#[test]
fn test_off_schedule_repayment_does_not_corrupt_state() {
    let mut w = setup_offer_for_schedule();
    let first_due = w.now + 604_800;
    w.schedule(sym("off_sc1"), ORIGINATOR, ScheduleFrequency::Weekly, 12, first_due).unwrap();

    w.fin.set_repayment_contract(&one(ADMIN), addr(60)).unwrap();
    w.fin.update_offer_amount_repaid(sym("off_sc1"), 42_000_000).unwrap();

    let offer = w.fin.get_offer(sym("off_sc1")).unwrap();
    assert_eq!(offer.amount_repaid, 42_000_000);

    let sched = w.fin.get_schedule(sym("off_sc1")).unwrap();
    assert_eq!(sched.count, 12);
    assert_eq!(sched.installment_amount, 105_000_000);
}

#[test]
fn test_lender_can_schedule_on_pending_offer() {
    let mut w = setup_offer_for_schedule();
    let first_due = w.now + 86_400;
    let sched = w.schedule(sym("off_sc1"), LENDER, ScheduleFrequency::Monthly, 4, first_due).unwrap();
    assert_eq!(sched.count, 4);
    assert_eq!(sched.frequency, ScheduleFrequency::Monthly);
}

#[test]
fn test_get_installment_due_returns_zero_before_first_due() {
    let mut w = setup_offer_for_schedule();
    let first_due = w.now + 604_800;
    w.schedule(sym("off_sc1"), ORIGINATOR, ScheduleFrequency::Weekly, 4, first_due).unwrap();
    assert_eq!(w.installment_due(sym("off_sc1")), 0);
}

#[test]
fn test_get_installment_due_returns_one_after_first_due() {
    let mut w = setup_offer_for_schedule();
    let first_due = w.now + 604_800;
    w.schedule(sym("off_sc1"), ORIGINATOR, ScheduleFrequency::Weekly, 4, first_due).unwrap();
    w.now = first_due + 1;
    assert_eq!(w.installment_due(sym("off_sc1")), 1);
}

#[test]
fn test_get_installment_due_advances_over_time() {
    let mut w = setup_offer_for_schedule();
    let first_due = w.now + 604_800;
    w.schedule(sym("off_sc1"), ORIGINATOR, ScheduleFrequency::Weekly, 4, first_due).unwrap();
    w.now = first_due + 604_800 + 1;
    assert_eq!(w.installment_due(sym("off_sc1")), 1);
}

#[test]
fn test_get_installment_due_zero_when_all_paid() {
    let mut w = setup_offer_for_schedule();
    let first_due = w.now + 604_800;
    let sched = w.schedule(sym("off_sc1"), ORIGINATOR, ScheduleFrequency::Weekly, 4, first_due).unwrap();
    assert_eq!(sched.installment_amount, 315_000_000);
    let full_paid = sched.installment_amount * 4;

    w.fin.set_repayment_contract(&one(ADMIN), addr(60)).unwrap();
    w.fin.update_offer_amount_repaid(sym("off_sc1"), full_paid).unwrap();

    w.now = first_due + 4 * 604_800;
    assert_eq!(w.installment_due(sym("off_sc1")), 0);
}

#[test]
fn test_get_installment_due_returns_zero_with_no_schedule() {
    let w = setup_offer_for_schedule();
    assert_eq!(w.installment_due(sym("off_sc1")), 0);
}

#[test]
fn test_schedule_count_zero_panics() {
    let mut w = setup_offer_for_schedule();
    let first_due = w.now + 604_800;
    let r = w.schedule(sym("off_sc1"), ORIGINATOR, ScheduleFrequency::Weekly, 0, first_due);
    assert_eq!(r, Err(aborted(Abort::InstallmentCountZero)));
    assert!(w.fin.get_schedule(sym("off_sc1")).is_none());
}

#[test]
fn test_schedule_first_due_in_past_panics() {
    let mut w = setup_offer_for_schedule();
    let r = w.schedule(sym("off_sc1"), ORIGINATOR, ScheduleFrequency::Weekly, 4, 999_999);
    assert_eq!(r, Err(aborted(Abort::FirstDueNotInFuture)));
}

#[test]
fn test_schedule_unauthorized_caller_panics() {
    let mut w = setup_offer_for_schedule();
    let first_due = w.now + 86_400;
    let r = w.schedule(sym("off_sc1"), addr(77), ScheduleFrequency::Daily, 30, first_due);
    assert_eq!(r, Err(contract(ContractError::Unauthorized)));
}

#[test]
fn test_daily_frequency_period() {
    let mut w = setup_offer_for_schedule();
    let first_due = w.now + 86_400;
    let sched = w.schedule(sym("off_sc1"), ORIGINATOR, ScheduleFrequency::Daily, 5, first_due).unwrap();
    assert_eq!(sched.installment_amount, 252_000_000);

    w.fin.set_repayment_contract(&one(ADMIN), addr(60)).unwrap();
    w.fin.update_offer_amount_repaid(sym("off_sc1"), sched.installment_amount).unwrap();

    w.now = first_due + 86_400 + 1;
    assert_eq!(w.installment_due(sym("off_sc1")), 2);
}

#[test]
fn test_period_lengths_of_each_frequency() {
    assert_eq!(ScheduleFrequency::Daily.period_secs(), 86_400);
    assert_eq!(ScheduleFrequency::Weekly.period_secs(), 604_800);
    assert_eq!(ScheduleFrequency::Monthly.period_secs(), 2_592_000);
}

// ─── Negotiation: amendment and counter-offer ────────────────────────────────

#[test]
fn test_amend_offer_rewrites_terms_and_opens_negotiation() {
    let offer_id = sym("noff01");
    let mut w = setup_negotiation(sym("ninv01"), offer_id, 1_000_000_000);

    let amended = w.amend_offer(offer_id, LENDER, 0, 900_000_000, 400, 2_592_000).unwrap();
    assert_eq!(amended.status, OfferStatus::Pending);
    assert_eq!(amended.amount, 900_000_000);
    assert_eq!(amended.interest_rate, 400);
    assert_eq!(amended.duration, 2_592_000);

    let stored = w.fin.get_offer(offer_id).unwrap();
    assert_eq!(stored.amount, 900_000_000);
    assert_eq!(stored.interest_rate, 400);

    let history = w.fin.get_negotiation(offer_id);
    assert_eq!(history.len(), 1);
    let round = history[0];
    assert_eq!(round.party, NegotiationParty::Lender);
    assert_eq!(round.amount, 900_000_000);
    assert_eq!(round.interest_rate, 400);
    assert_eq!(round.duration, 2_592_000);
    assert_eq!(round.timestamp, 1_000_000);

    assert_eq!(w.negotiation_status(offer_id), NegotiationStatus::Open);
    assert_eq!(w.fin.get_negotiation_deadline(offer_id), 1_000_000 + 259_200);

    assert_eq!(w.fin.get_lender_stats(LENDER).total_offered, 900_000_000);
}

#[test]
fn test_amend_offer_by_non_lender_panics() {
    let offer_id = sym("noff02");
    let mut w = setup_negotiation(sym("ninv02"), offer_id, 1_000_000_000);
    let r = w.amend_offer(offer_id, ORIGINATOR, 0, 900_000_000, 400, 2_592_000);
    assert_eq!(r, Err(contract(ContractError::Unauthorized)));
    assert_eq!(w.fin.get_negotiation(offer_id).len(), 0);
}

#[test]
fn test_counter_offer_records_round_without_touching_the_offer() {
    let offer_id = sym("noff03");
    let mut w = setup_negotiation(sym("ninv03"), offer_id, 1_000_000_000);

    let returned = w.counter_offer(offer_id, ORIGINATOR, 0, 1_000_000_000, 250, 1_296_000).unwrap();
    assert_eq!(returned.status, OfferStatus::Pending);
    assert_eq!(w.fin.get_offer(offer_id).unwrap().interest_rate, 500);

    let history = w.fin.get_negotiation(offer_id);
    assert_eq!(history.len(), 1);
    assert_eq!(history[0].party, NegotiationParty::Originator);
    assert_eq!(history[0].interest_rate, 250);
}

#[test]
fn test_counter_offer_by_non_originator_panics() {
    let offer_id = sym("noff04");
    let mut w = setup_negotiation(sym("ninv04"), offer_id, 1_000_000_000);
    let r = w.counter_offer(offer_id, addr(77), 0, 1_000_000_000, 250, 1_296_000);
    assert_eq!(r, Err(contract(ContractError::Unauthorized)));
}

#[test]
fn test_negotiation_history_records_every_round_in_order() {
    let offer_id = sym("noff05");
    let mut w = setup_negotiation(sym("ninv05"), offer_id, 1_000_000_000);

    w.amend_offer(offer_id, LENDER, 0, 1_000_000_000, 450, 1_296_000).unwrap();
    w.now = 1_000_100;
    w.counter_offer(offer_id, ORIGINATOR, 1, 1_000_000_000, 300, 1_296_000).unwrap();
    w.now = 1_000_200;
    w.amend_offer(offer_id, LENDER, 2, 1_000_000_000, 380, 1_296_000).unwrap();

    let history = w.fin.get_negotiation(offer_id);
    assert_eq!(history.len(), 3);
    assert_eq!(history[0].party, NegotiationParty::Lender);
    assert_eq!(history[0].interest_rate, 450);
    assert_eq!(history[1].party, NegotiationParty::Originator);
    assert_eq!(history[1].interest_rate, 300);
    assert_eq!(history[2].party, NegotiationParty::Lender);
    assert_eq!(history[2].interest_rate, 380);
    assert_eq!(history[2].timestamp, 1_000_200);

    assert_eq!(w.fin.get_negotiation_deadline(offer_id), 1_000_000 + 259_200);
}

#[test]
fn test_auto_accept_when_lender_amends_onto_the_live_counter_offer() {
    let invoice_id = sym("ninv06");
    let offer_id = sym("noff06");
    let amount: i128 = 1_000_000_000;
    let mut w = setup_negotiation(invoice_id, offer_id, amount);

    w.counter_offer(offer_id, ORIGINATOR, 0, amount, 250, 864_000).unwrap();
    assert_eq!(w.balance(TOKEN, ORIGINATOR), 0);

    let settled = w.amend_offer(offer_id, LENDER, 1, amount, 250, 864_000).unwrap();
    assert_eq!(settled.status, OfferStatus::Accepted);
    assert_eq!(settled.interest_rate, 250);
    assert_eq!(settled.duration, 864_000);
    assert_eq!(settled.funded_at, 1_000_000);

    assert_eq!(w.reg.get_invoice(invoice_id).unwrap().status, InvoiceStatus::Financed);
    assert_eq!(w.balance(TOKEN, ORIGINATOR), amount);

    assert_eq!(w.negotiation_status(offer_id), NegotiationStatus::Accepted);
    assert_eq!(w.fin.get_negotiation(offer_id).len(), 2);
}

#[test]
fn test_auto_accept_when_originator_counters_at_the_standing_terms() {
    let invoice_id = sym("ninv07");
    let offer_id = sym("noff07");
    let amount: i128 = 1_000_000_000;
    let mut w = setup_negotiation(invoice_id, offer_id, amount);

    w.amend_offer(offer_id, LENDER, 0, amount, 300, 1_296_000).unwrap();
    let settled = w.counter_offer(offer_id, ORIGINATOR, 1, amount, 300, 1_296_000).unwrap();

    assert_eq!(settled.status, OfferStatus::Accepted);
    assert_eq!(w.reg.get_invoice(invoice_id).unwrap().status, InvoiceStatus::Financed);
    assert_eq!(w.balance(TOKEN, ORIGINATOR), amount);
    assert_eq!(w.negotiation_status(offer_id), NegotiationStatus::Accepted);
}

#[test]
fn test_near_miss_terms_do_not_auto_accept() {
    let invoice_id = sym("ninv08");
    let offer_id = sym("noff08");
    let amount: i128 = 1_000_000_000;
    let mut w = setup_negotiation(invoice_id, offer_id, amount);

    w.counter_offer(offer_id, ORIGINATOR, 0, amount, 250, 864_000).unwrap();
    let still_open = w.amend_offer(offer_id, LENDER, 1, amount, 251, 864_000).unwrap();

    assert_eq!(still_open.status, OfferStatus::Pending);
    assert_eq!(w.reg.get_invoice(invoice_id).unwrap().status, InvoiceStatus::Pending);
    assert_eq!(w.balance(TOKEN, ORIGINATOR), 0);
    assert_eq!(w.negotiation_status(offer_id), NegotiationStatus::Open);
}

#[test]
fn test_superseded_counter_offer_is_not_executable() {
    let invoice_id = sym("ninv09");
    let offer_id = sym("noff09");
    let amount: i128 = 1_000_000_000;
    let mut w = setup_negotiation(invoice_id, offer_id, amount);

    w.counter_offer(offer_id, ORIGINATOR, 0, amount, 200, 864_000).unwrap();
    w.counter_offer(offer_id, ORIGINATOR, 1, amount, 220, 864_000).unwrap();

    let result = w.amend_offer(offer_id, LENDER, 2, amount, 200, 864_000).unwrap();
    assert_eq!(result.status, OfferStatus::Pending);
    assert_eq!(w.reg.get_invoice(invoice_id).unwrap().status, InvoiceStatus::Pending);
    assert_eq!(w.balance(TOKEN, ORIGINATOR), 0);
}

#[test]
fn test_stale_round_index_is_rejected() {
    let offer_id = sym("noff10");
    let mut w = setup_negotiation(sym("ninv10"), offer_id, 1_000_000_000);
    w.counter_offer(offer_id, ORIGINATOR, 0, 1_000_000_000, 250, 864_000).unwrap();
    let r = w.amend_offer(offer_id, LENDER, 0, 1_000_000_000, 400, 1_296_000);
    assert_eq!(r, Err(contract(ContractError::InvalidInput)));
    assert_eq!(w.fin.get_negotiation(offer_id).len(), 1);
}

#[test]
fn test_counter_offer_with_stale_round_index_is_rejected() {
    let offer_id = sym("noff11");
    let mut w = setup_negotiation(sym("ninv11"), offer_id, 1_000_000_000);
    w.amend_offer(offer_id, LENDER, 0, 1_000_000_000, 400, 1_296_000).unwrap();
    let r = w.counter_offer(offer_id, ORIGINATOR, 0, 1_000_000_000, 250, 864_000);
    assert_eq!(r, Err(contract(ContractError::InvalidInput)));
}

#[test]
fn test_negotiation_status_expires_on_read_without_any_call() {
    let offer_id = sym("noff12");
    let mut w = setup_negotiation(sym("ninv12"), offer_id, 1_000_000_000);
    w.amend_offer(offer_id, LENDER, 0, 1_000_000_000, 400, 1_296_000).unwrap();

    w.now = 1_000_000 + 259_200;
    assert_eq!(w.negotiation_status(offer_id), NegotiationStatus::Open);

    w.now = 1_000_000 + 259_201;
    assert_eq!(w.negotiation_status(offer_id), NegotiationStatus::Expired);
}

#[test]
fn test_amend_after_expiry_panics() {
    let offer_id = sym("noff13");
    let mut w = setup_negotiation(sym("ninv13"), offer_id, 1_000_000_000);
    w.amend_offer(offer_id, LENDER, 0, 1_000_000_000, 400, 1_296_000).unwrap();
    w.now = 1_000_000 + 259_201;
    let r = w.amend_offer(offer_id, LENDER, 1, 1_000_000_000, 350, 1_296_000);
    assert_eq!(r, Err(contract(ContractError::InvalidTransition)));
}

#[test]
fn test_expired_counter_offer_cannot_be_executed_by_the_lender() {
    let invoice_id = sym("ninv14");
    let offer_id = sym("noff14");
    let amount: i128 = 1_000_000_000;
    let mut w = setup_negotiation(invoice_id, offer_id, amount);
    w.counter_offer(offer_id, ORIGINATOR, 0, amount, 250, 864_000).unwrap();
    w.now = 1_000_000 + 259_201;
    let r = w.amend_offer(offer_id, LENDER, 1, amount, 250, 864_000);
    assert_eq!(r, Err(contract(ContractError::InvalidTransition)));
    assert_eq!(w.reg.get_invoice(invoice_id).unwrap().status, InvoiceStatus::Pending);
    assert_eq!(w.balance(TOKEN, ORIGINATOR), 0);
}

#[test]
fn test_close_negotiation_after_expiry_is_permissionless() {
    let offer_id = sym("noff15");
    let mut w = setup_negotiation(sym("ninv15"), offer_id, 1_000_000_000);
    w.amend_offer(offer_id, LENDER, 0, 1_000_000_000, 400, 1_296_000).unwrap();

    w.now = 1_000_000 + 300_000;
    let keeper = addr(88);
    let outcome = w.close_negotiation(offer_id, keeper).unwrap();
    assert_eq!(outcome, NegotiationStatus::Expired);
    assert_eq!(w.negotiation_status(offer_id), NegotiationStatus::Expired);
}

#[test]
fn test_close_negotiation_twice_panics() {
    let offer_id = sym("noff16");
    let mut w = setup_negotiation(sym("ninv16"), offer_id, 1_000_000_000);
    w.amend_offer(offer_id, LENDER, 0, 1_000_000_000, 400, 1_296_000).unwrap();
    assert_eq!(w.close_negotiation(offer_id, LENDER), Ok(NegotiationStatus::Closed));
    assert_eq!(w.close_negotiation(offer_id, LENDER), Err(contract(ContractError::InvalidTransition)));
}

#[test]
fn test_originator_can_revoke_a_counter_offer_before_the_window_ends() {
    let invoice_id = sym("ninv17");
    let offer_id = sym("noff17");
    let amount: i128 = 1_000_000_000;
    let mut w = setup_negotiation(invoice_id, offer_id, amount);
    w.counter_offer(offer_id, ORIGINATOR, 0, amount, 250, 864_000).unwrap();
    assert_eq!(w.close_negotiation(offer_id, ORIGINATOR), Ok(NegotiationStatus::Closed));

    // The lender can no longer take the revoked counter-offer.
    let r = w.amend_offer(offer_id, LENDER, 1, amount, 250, 864_000);
    assert_eq!(r, Err(contract(ContractError::InvalidTransition)));
    assert_eq!(w.balance(TOKEN, ORIGINATOR), 0);
}

#[test]
fn test_stranger_cannot_close_an_open_negotiation() {
    let offer_id = sym("noff18");
    let mut w = setup_negotiation(sym("ninv18"), offer_id, 1_000_000_000);
    w.amend_offer(offer_id, LENDER, 0, 1_000_000_000, 400, 1_296_000).unwrap();
    assert_eq!(w.close_negotiation(offer_id, addr(77)), Err(contract(ContractError::Unauthorized)));
    assert_eq!(w.negotiation_status(offer_id), NegotiationStatus::Open);
}

#[test]
fn test_close_negotiation_that_was_never_opened_panics() {
    let offer_id = sym("noff19");
    let mut w = setup_negotiation(sym("ninv19"), offer_id, 1_000_000_000);
    assert_eq!(w.close_negotiation(offer_id, LENDER), Err(contract(ContractError::NotFound)));
}

#[test]
fn test_withdrawing_the_offer_ends_its_negotiation() {
    let offer_id = sym("noff20");
    let mut w = setup_negotiation(sym("ninv20"), offer_id, 1_000_000_000);
    w.amend_offer(offer_id, LENDER, 0, 1_000_000_000, 400, 1_296_000).unwrap();
    w.withdraw_offer(offer_id, LENDER).unwrap();
    assert_eq!(w.negotiation_status(offer_id), NegotiationStatus::Closed);
}

#[test]
fn test_amend_after_acceptance_panics() {
    let offer_id = sym("noff21");
    let mut w = setup_negotiation(sym("ninv21"), offer_id, 1_000_000_000);
    w.accept_offer(offer_id, ORIGINATOR).unwrap();
    let r = w.amend_offer(offer_id, LENDER, 0, 1_000_000_000, 400, 1_296_000);
    assert_eq!(r, Err(contract(ContractError::InvalidTransition)));
}

#[test]
fn test_amend_cannot_reach_terms_create_offer_would_reject() {
    let offer_id = sym("noff22");
    let mut w = setup_negotiation(sym("ninv22"), offer_id, 1_000_000_000);
    // 10 001 bps is above the create_offer ceiling.
    let r = w.amend_offer(offer_id, LENDER, 0, 1_000_000_000, 10_001, 1_296_000);
    assert_eq!(r, Err(contract(ContractError::InvalidInput)));
    assert_eq!(w.fin.get_offer(offer_id).unwrap().interest_rate, 500);
}

#[test]
fn test_counter_offer_below_minimum_duration_panics() {
    let offer_id = sym("noff23");
    let mut w = setup_negotiation(sym("ninv23"), offer_id, 1_000_000_000);
    let r = w.counter_offer(offer_id, ORIGINATOR, 0, 1_000_000_000, 250, 86_399);
    assert_eq!(r, Err(contract(ContractError::InvalidInput)));
}

#[test]
fn test_negotiation_round_cap_is_enforced() {
    let offer_id = sym("noff24");
    let mut w = setup_negotiation(sym("ninv24"), offer_id, 1_000_000_000);
    for round in 0..20u32 {
        let rate = 400 + round;
        if round % 2 == 0 {
            w.amend_offer(offer_id, LENDER, round, 1_000_000_000, rate, 1_296_000).unwrap();
        } else {
            w.counter_offer(offer_id, ORIGINATOR, round, 900_000_000, rate, 1_296_000).unwrap();
        }
    }
    assert_eq!(w.fin.get_negotiation(offer_id).len(), 20);
    let r = w.amend_offer(offer_id, LENDER, 20, 1_000_000_000, 499, 1_296_000);
    assert_eq!(r, Err(contract(ContractError::InvalidTransition)));
    assert_eq!(w.fin.get_negotiation(offer_id).len(), 20);
}

#[test]
fn test_amend_offer_is_pause_guarded() {
    let offer_id = sym("noff25");
    let mut w = setup_negotiation(sym("ninv25"), offer_id, 1_000_000_000);
    w.fin.pause(&one(ADMIN)).unwrap();
    let r = w.amend_offer(offer_id, LENDER, 0, 1_000_000_000, 400, 1_296_000);
    assert_eq!(r, Err(contract(ContractError::Paused)));
}

#[test]
fn test_counter_offer_is_pause_guarded() {
    let offer_id = sym("noff26");
    let mut w = setup_negotiation(sym("ninv26"), offer_id, 1_000_000_000);
    w.fin.pause(&one(ADMIN)).unwrap();
    let r = w.counter_offer(offer_id, ORIGINATOR, 0, 1_000_000_000, 250, 864_000);
    assert_eq!(r, Err(contract(ContractError::Paused)));
}

#[test]
fn test_negotiation_window_is_configurable_and_deadlines_are_frozen() {
    let offer_id = sym("noff27");
    let mut w = setup_negotiation(sym("ninv27"), offer_id, 1_000_000_000);

    assert_eq!(w.fin.get_negotiation_window(), 259_200);
    w.fin.set_negotiation_window(&one(ADMIN), 7_200).unwrap();
    assert_eq!(w.fin.get_negotiation_window(), 7_200);

    w.amend_offer(offer_id, LENDER, 0, 1_000_000_000, 400, 1_296_000).unwrap();
    assert_eq!(w.fin.get_negotiation_deadline(offer_id), 1_007_200);

    w.fin.set_negotiation_window(&one(ADMIN), 2_592_000).unwrap();
    assert_eq!(w.fin.get_negotiation_deadline(offer_id), 1_007_200);
    w.now = 1_007_201;
    assert_eq!(w.negotiation_status(offer_id), NegotiationStatus::Expired);
}

#[test]
fn test_set_negotiation_window_is_admin_only() {
    let mut w = World::new(ADMIN, TOKEN);
    assert_eq!(w.fin.set_negotiation_window(&one(addr(77)), 7_200), Err(contract(ContractError::Unauthorized)));
    assert_eq!(w.fin.get_negotiation_window(), 259_200);
}

#[test]
fn test_negotiation_window_below_minimum_panics() {
    let mut w = World::new(ADMIN, TOKEN);
    assert_eq!(w.fin.set_negotiation_window(&one(ADMIN), 3_599), Err(contract(ContractError::InvalidInput)));
}

#[test]
fn test_negotiation_window_above_maximum_panics() {
    let mut w = World::new(ADMIN, TOKEN);
    assert_eq!(w.fin.set_negotiation_window(&one(ADMIN), 2_592_001), Err(contract(ContractError::InvalidInput)));
}

#[test]
fn test_negotiation_emits_amend_counter_and_close_events() {
    let offer_id = sym("noff31");
    let mut w = setup_negotiation(sym("ninv31"), offer_id, 1_000_000_000);

    let amended = w.amend_round(offer_id, LENDER, 0, 1_000_000_000, 400, 1_296_000).unwrap();
    assert!(amended.settlement.is_none());
    let countered = w.counter_round(offer_id, ORIGINATOR, 1, 1_000_000_000, 250, 864_000).unwrap();
    assert!(countered.settlement.is_none());
    assert_eq!(w.close_negotiation(offer_id, ORIGINATOR), Ok(NegotiationStatus::Closed));
    assert_eq!(w.negotiation_status(offer_id), NegotiationStatus::Closed);
}

#[test]
fn test_auto_accept_emits_negotiation_closed() {
    let offer_id = sym("noff32");
    let amount: i128 = 1_000_000_000;
    let mut w = setup_negotiation(sym("ninv32"), offer_id, amount);

    w.counter_offer(offer_id, ORIGINATOR, 0, amount, 250, 864_000).unwrap();
    let out = w.amend_round(offer_id, LENDER, 1, amount, 250, 864_000).unwrap();

    let s = out.settlement.unwrap();
    assert!(s.negotiation_accepted);
    assert_eq!(s.offer.status, OfferStatus::Accepted);
}

#[test]
fn test_plain_accept_closes_an_open_negotiation_as_accepted() {
    let offer_id = sym("noff33");
    let amount: i128 = 1_000_000_000;
    let mut w = setup_negotiation(sym("ninv33"), offer_id, amount);

    w.amend_offer(offer_id, LENDER, 0, amount, 400, 1_296_000).unwrap();
    assert_eq!(w.negotiation_status(offer_id), NegotiationStatus::Open);

    let s = w.accept_offer_settlement(offer_id, ORIGINATOR).unwrap();
    assert!(s.negotiation_accepted);
    assert_eq!(s.offer.status, OfferStatus::Accepted);
    assert_eq!(w.negotiation_status(offer_id), NegotiationStatus::Accepted);
}

#[test]
fn test_plain_accept_without_a_negotiation_emits_no_closure() {
    let offer_id = sym("noff34");
    let amount: i128 = 1_000_000_000;
    let mut w = setup_negotiation(sym("ninv34"), offer_id, amount);

    let s = w.accept_offer_settlement(offer_id, ORIGINATOR).unwrap();
    assert_eq!(s.offer.status, OfferStatus::Accepted);
    assert!(!s.negotiation_accepted);
    assert_eq!(w.negotiation_status(offer_id), NegotiationStatus::NoNegotiation);
}

#[test]
fn test_amend_offer_interest_rate_above_cap_panics() {
    let offer_id = sym("off_rc");
    let mut w = setup_negotiation(sym("inv_rc"), offer_id, 1_000_000_000);
    let r = w.amend_offer(offer_id, LENDER, 0, 1_000_000_000, MAX_INTEREST_BPS + 1, 1_296_000);
    assert_eq!(r, Err(contract(ContractError::InvalidInput)));
}

#[test]
fn test_counter_offer_interest_rate_above_cap_panics() {
    let offer_id = sym("off_cc");
    let mut w = setup_negotiation(sym("inv_cc"), offer_id, 1_000_000_000);
    let r = w.counter_offer(offer_id, ORIGINATOR, 0, 1_000_000_000, MAX_INTEREST_BPS + 1, 1_296_000);
    assert_eq!(r, Err(contract(ContractError::InvalidInput)));
}

#[test]
fn test_amend_offer_interest_rate_at_cap_passes() {
    let offer_id = sym("off_rk");
    let mut w = setup_negotiation(sym("inv_rk"), offer_id, 1_000_000_000);
    let amended = w.amend_offer(offer_id, LENDER, 0, 1_000_000_000, MAX_INTEREST_BPS, 1_296_000).unwrap();
    assert_eq!(amended.interest_rate, MAX_INTEREST_BPS);
}

#[test]
fn test_counter_offer_interest_rate_at_cap_records_in_history() {
    let offer_id = sym("off_ck");
    let mut w = setup_negotiation(sym("inv_ck"), offer_id, 1_000_000_000);
    let countered = w.counter_offer(offer_id, ORIGINATOR, 0, 1_000_000_000, MAX_INTEREST_BPS, 1_296_000).unwrap();
    assert_eq!(countered.status, OfferStatus::Pending);
    let history = w.fin.get_negotiation(offer_id);
    assert_eq!(history.len(), 1);
    assert_eq!(history[0].interest_rate, MAX_INTEREST_BPS);
}

#[test]
fn test_lender_active_total_counts_accepted_and_financed_offers() {
    let mut w = World::new(ADMIN, TOKEN);
    w.mint(TOKEN, LENDER, 5_000);
    w.register_invoice(sym("inv_at1"), ORIGINATOR, 50_000_000, sym("USDC"), 3_000_000);
    w.register_invoice(sym("inv_at2"), ORIGINATOR, 50_000_000, sym("USDC"), 3_000_000);
    w.create_offer(sym("off_at1"), sym("inv_at1"), LENDER, 5_000, sym("USDC"), 300, 86_400).unwrap();
    w.create_offer(sym("off_at2"), sym("inv_at2"), LENDER, 7_000, sym("USDC"), 300, 86_400).unwrap();
    assert_eq!(w.fin.get_lender_active_total(LENDER), Ok(0));
    w.accept_offer(sym("off_at1"), ORIGINATOR).unwrap();
    assert_eq!(w.fin.get_lender_active_total(LENDER), Ok(5_000));
    w.fin.set_repayment_contract(&one(ADMIN), addr(60)).unwrap();
    w.fin.update_offer_status(sym("off_at2"), OfferStatus::Financed).unwrap();
    assert_eq!(w.fin.get_lender_active_total(LENDER), Ok(12_000));
}

#[test]
fn test_create_offer_invariants() {
    for (principal, interest_rate, duration) in [(10_000_000i128, 1u32, 86_400u64), (55_555_555_555, 777, 2_592_000), (99_999_999_999, 10_000, 31_535_999)] {
        let mut w = World::new(ADMIN, TOKEN);
        w.register_invoice(sym("inv_pt"), ORIGINATOR, principal, sym("USD"), 2_000_000);
        let offer = w.create_offer(sym("off_pt"), sym("inv_pt"), LENDER, principal, sym("USD"), interest_rate, duration).unwrap();
        assert_eq!(offer.interest_rate, interest_rate);
        assert_eq!(offer.amount, principal);
        assert_eq!(offer.duration, duration);

        assert_eq!(w.fin.get_stats().total_offers, 1);
        let lender_stats = w.fin.get_lender_stats(LENDER);
        assert_eq!(lender_stats.total_offered, principal);
        assert_eq!(lender_stats.offers_pending, 1);
    }
}

#[test]
fn test_offer_amount_bounds() {
    for (invoice_amount, overshoot) in [(10_000_000i128, 1i128), (64_000_000_000, 999_999_999), (99_999_999_999, 12_345)] {
        let mut w = World::new(ADMIN, TOKEN);
        w.register_invoice(sym("inv_bd"), ORIGINATOR, invoice_amount, sym("USD"), 2_000_000);

        let over = w.create_offer(sym("off_over"), sym("inv_bd"), LENDER, invoice_amount + overshoot, sym("USD"), 500, 604_800);
        assert_eq!(over, Err(aborted(Abort::OfferExceedsInvoice)));

        let offer = w.create_offer(sym("off_ok"), sym("inv_bd"), LENDER, invoice_amount, sym("USD"), 500, 604_800).unwrap();
        assert_eq!(offer.amount, invoice_amount);
    }
}

#[test]
fn test_at_most_one_accepted_offer_per_invoice() {
    for principal in [10_000_000i128, 3_000_000_001, 99_999_999_999] {
        let mut w = World::new(ADMIN, TOKEN);
        let (lender_a, lender_b) = (addr(30), addr(31));
        w.register_invoice(sym("inv_ex"), ORIGINATOR, principal, sym("USD"), 2_000_000);
        let half = principal / 2;
        w.create_offer(sym("off_a"), sym("inv_ex"), lender_a, half, sym("USD"), 500, 604_800).unwrap();
        w.create_offer(sym("off_b"), sym("inv_ex"), lender_b, half, sym("USD"), 500, 604_800).unwrap();

        w.mint(TOKEN, lender_a, half);
        w.accept_offer(sym("off_a"), ORIGINATOR).unwrap();

        // The invoice is Financed now, so the second offer cannot be taken.
        w.mint(TOKEN, lender_b, half);
        assert_eq!(w.accept_offer(sym("off_b"), ORIGINATOR), Err(contract(ContractError::InvalidTransition)));
        assert_eq!(w.fin.get_offer(sym("off_b")).unwrap().status, OfferStatus::Pending);
    }
}

#[test]
fn test_position_tokens_equal_total_financed() {
    let amounts: [i128; 4] = [10_000_000, 9_999_999_999, 250_000_000, 1_234_567_890];
    let position = addr(60);
    let mut w = World::new(ADMIN, TOKEN);
    w.fin.set_position_token(&one(ADMIN), position).unwrap();

    let mut expected_total: i128 = 0;
    for (i, amount) in amounts.iter().enumerate() {
        let inv_id = sym(&format!("inv{}", i));
        let off_id = sym(&format!("off{}", i));
        w.register_invoice(inv_id, ORIGINATOR, *amount, sym("USD"), 2_000_000);
        w.create_offer(off_id, inv_id, LENDER, *amount, sym("USD"), 500, 604_800).unwrap();
        w.mint(TOKEN, LENDER, *amount);
        w.accept_offer(off_id, ORIGINATOR).unwrap();
        expected_total += amount;
    }

    assert_eq!(w.fin.get_stats().total_financed, expected_total);
    assert_eq!(w.balance(position, LENDER), expected_total);
}

#[test]
fn test_withdraw_and_reject_do_not_mint() {
    for principal in [10_000_000i128, 77_000_000_000] {
        let position = addr(60);
        let mut w = World::new(ADMIN, TOKEN);
        w.fin.set_position_token(&one(ADMIN), position).unwrap();
        w.register_invoice(sym("inv_wd"), ORIGINATOR, principal, sym("USD"), 2_000_000);

        w.create_offer(sym("off_wd"), sym("inv_wd"), LENDER, principal, sym("USD"), 500, 604_800).unwrap();
        w.withdraw_offer(sym("off_wd"), LENDER).unwrap();
        w.create_offer(sym("off_rj"), sym("inv_wd"), LENDER, principal, sym("USD"), 500, 604_800).unwrap();
        w.reject_offer(sym("off_rj"), ORIGINATOR).unwrap();

        assert_eq!(w.balance(position, LENDER), 0);
        assert_eq!(w.fin.get_stats().total_financed, 0);
    }
}

#[test]
fn test_interest_rate_cap_enforced_on_all_paths() {
    for (valid_rate, principal, duration) in [(1u32, 10_000_000i128, 86_400u64), (10_000, 50_000_000_000, 31_535_999), (4_321, 123_456_789, 604_800)] {
        let mut w = World::new(ADMIN, TOKEN);
        let invoice_id = sym("inv_rc");
        w.register_invoice(invoice_id, ORIGINATOR, principal.max(10_000_000), sym("USD"), 2_000_000);

        let offer = w.create_offer(sym("off_rc"), invoice_id, LENDER, principal, sym("USD"), valid_rate, duration).unwrap();
        assert_eq!(offer.interest_rate, valid_rate);

        let over_rate = MAX_INTEREST_BPS + 1;
        assert!(w.create_offer(sym("off_over"), invoice_id, LENDER, principal, sym("USD"), over_rate, duration).is_err());

        let offer_id = sym("off_amd");
        w.create_offer(offer_id, invoice_id, LENDER, principal, sym("USD"), valid_rate, duration).unwrap();
        assert!(w.amend_offer(offer_id, LENDER, 0, principal, over_rate, duration).is_err());
        assert!(w.counter_offer(offer_id, ORIGINATOR, 0, principal, over_rate, duration).is_err());

        for stored in w.fin.get_all_offers().iter() {
            assert!(stored.interest_rate <= MAX_INTEREST_BPS);
        }
    }
}
