use std::collections::HashMap;

use invofi::financing::{FinancingContract, Settlement};
use invofi::insurance::InsuranceContract;
use invofi::registry::RegistryContract;
use invofi::types::{Abort, Address, Failure, FinancingOffer, InvoiceStatus, OfferStatus, Symbol};

fn sym(s: &str) -> Symbol {
    let b = s.as_bytes();
    assert!(b.len() <= 9);
    let mut v: u64 = 0;
    for i in 0..9 {
        let c = if i < b.len() { b[i] as u64 } else { 0 };
        v = v * 128 + c;
    }
    Symbol(v)
}

const ADMIN: Address = Address(1);
const ORIGINATOR: Address = Address(2);
const LENDER: Address = Address(3);
const TOKEN: Address = Address(50);
const REGISTRY: Address = Address(900);
const FINANCING: Address = Address(901);
const REPAYMENT: Address = Address(902);
const INSURANCE: Address = Address(903);

/// Registry, financing and insurance wired together over one settlement
/// token, with the host's cross-contract reads and transfers done here.
struct Protocol {
    reg: RegistryContract,
    fin: FinancingContract,
    ins: InsuranceContract,
    now: u64,
    balances: HashMap<u64, i128>,
}

impl Protocol {
    fn deploy() -> Protocol {
        let mut reg = RegistryContract::new(ADMIN);
        let mut fin = FinancingContract::new(ADMIN, REGISTRY, TOKEN);
        let mut ins = InsuranceContract::new(ADMIN, TOKEN, &b"0.1.0".to_vec()).unwrap();
        reg.set_financing_contract(ADMIN, FINANCING).unwrap();
        reg.set_repayment_contract(ADMIN, REPAYMENT).unwrap();
        fin.set_repayment_contract(&vec![ADMIN], REPAYMENT).unwrap();
        ins.set_payout_caller(&vec![ADMIN], REPAYMENT).unwrap();
        ins.set_registry(&vec![ADMIN], REGISTRY).unwrap();
        Protocol { reg, fin, ins, now: 1_000_000, balances: HashMap::new() }
    }

    fn balance(&self, who: Address) -> i128 {
        *self.balances.get(&who.0).unwrap_or(&0)
    }

    fn mint(&mut self, who: Address, amount: i128) {
        *self.balances.entry(who.0).or_insert(0) += amount;
    }

    fn transfer(&mut self, from: Address, to: Address, amount: i128) {
        let have = self.balance(from);
        assert!(have >= amount, "insufficient balance");
        self.balances.insert(from.0, have - amount);
        self.mint(to, amount);
    }

    fn create_offer(&mut self, offer_id: Symbol, invoice_id: Symbol, amount: i128, rate: u32, duration: u64) -> Result<FinancingOffer, Failure> {
        let invoice = self.reg.get_invoice(invoice_id).ok();
        let blacklisted = self.reg.is_blacklisted(LENDER);
        self.fin.create_offer(offer_id, invoice, LENDER, blacklisted, amount, sym("USDC"), rate, duration)
    }

    fn accept_offer(&mut self, offer_id: Symbol) -> Result<Settlement, Failure> {
        let offer = self.fin.get_offer(offer_id)?;
        let invoice = self.reg.get_invoice(offer.invoice_id).ok();
        let s = self.fin.accept_offer(offer_id, ORIGINATOR, invoice, self.now)?;
        self.transfer(LENDER, ORIGINATOR, s.offer.amount);
        self.reg.financing_marks_invoice_financed(s.offer.invoice_id, self.now).unwrap();
        Ok(s)
    }
}

#[test]
fn test_registry_financing_accept_offer_transitions_invoice() {
    let mut p = Protocol::deploy();
    let amount: i128 = 1_000_000_000;
    let offer_id = sym("off001");
    let invoice_id = sym("inv001");
    p.mint(LENDER, amount);

    let inv = p.reg.register_invoice(invoice_id, ORIGINATOR, amount, sym("USDC"), 3_000_000, p.now).unwrap();
    assert_eq!(inv.status, InvoiceStatus::Pending);

    let offer = p.create_offer(offer_id, invoice_id, amount, 500, 2_592_000).unwrap();
    assert_eq!(offer.status, OfferStatus::Pending);

    let accepted = p.accept_offer(offer_id).unwrap();
    assert_eq!(accepted.offer.status, OfferStatus::Accepted);

    assert_eq!(p.reg.get_invoice(invoice_id).unwrap().status, InvoiceStatus::Financed);
    assert_eq!(p.balance(LENDER), 0);
    assert_eq!(p.balance(ORIGINATOR), amount);
}

#[test]
fn test_registry_financing_offer_on_financed_invoice_panics() {
    let mut p = Protocol::deploy();
    let amount: i128 = 1_000_000_000;
    let invoice_id = sym("inv002");
    p.mint(LENDER, amount);
    p.reg.register_invoice(invoice_id, ORIGINATOR, amount, sym("USDC"), 3_000_000, p.now).unwrap();
    p.create_offer(sym("off002"), invoice_id, amount, 500, 2_592_000).unwrap();
    p.accept_offer(sym("off002")).unwrap();

    let r = p.create_offer(sym("off003"), invoice_id, amount, 500, 2_592_000);
    assert_eq!(r, Err(Failure::Abort(Abort::InvoiceNotPending)));
}

#[test]
fn test_financed_invoice_goes_overdue_then_defaults_and_the_pool_pays() {
    let mut p = Protocol::deploy();
    let amount: i128 = 1_000_000_000;
    let due_date: u64 = 1_735_689_600;
    let invoice_id = sym("inv_ov");
    let staker = Address(10);
    p.mint(LENDER, amount);
    p.mint(staker, 500_000_000);
    p.ins.stake(staker, 500_000_000, p.now).unwrap();
    p.transfer(staker, INSURANCE, 500_000_000);

    p.reg.register_invoice(invoice_id, ORIGINATOR, amount, sym("USDC"), due_date, p.now).unwrap();
    p.create_offer(sym("off_ov"), invoice_id, amount, 500, 2_592_000).unwrap();
    p.accept_offer(sym("off_ov")).unwrap();

    // Not yet due: the registry refuses.
    assert!(p.reg.mark_invoice_overdue(invoice_id, due_date, REGISTRY).is_err());
    p.reg.mark_invoice_overdue(invoice_id, due_date + 1, REGISTRY).unwrap();
    assert_eq!(p.reg.get_invoice(invoice_id).unwrap().status, InvoiceStatus::Overdue);

    // An overdue invoice is not yet a claim on the pool.
    let status = p.reg.get_invoice(invoice_id).ok().map(|i| i.status);
    assert!(p.ins.pay_out(status, amount).is_err());

    p.reg.repayment_marks_defaulted(invoice_id, due_date + 2).unwrap();
    let status = p.reg.get_invoice(invoice_id).ok().map(|i| i.status);
    let paid = p.ins.pay_out(status, amount).unwrap();
    assert_eq!(paid, 500_000_000);
    p.transfer(INSURANCE, LENDER, paid);
    assert_eq!(p.balance(LENDER), 500_000_000);
    assert_eq!(p.ins.get_pool_total(), 0);
}

#[test]
fn test_full_repayment_syncs_registry_and_financing() {
    let mut p = Protocol::deploy();
    let amount: i128 = 2_000_000_000;
    let invoice_id = sym("inv_lc");
    let offer_id = sym("off_lc");
    p.mint(LENDER, amount);

    p.reg.register_invoice(invoice_id, ORIGINATOR, amount, sym("USDC"), 3_000_000, p.now).unwrap();
    p.create_offer(offer_id, invoice_id, amount, 300, 1_296_000).unwrap();
    p.accept_offer(offer_id).unwrap();
    assert_eq!(p.fin.get_stats().total_financed, amount);

    // The repayment side reports back: partial first, then in full.
    let yield_amount = amount * 300 / 10_000;
    let total_due = amount + yield_amount;
    p.fin.update_offer_amount_repaid(offer_id, amount).unwrap();
    let inv = p.reg.repayment_marks_invoice_repaid(invoice_id, false, p.now).unwrap();
    assert_eq!(inv.status, InvoiceStatus::Financed);

    p.fin.update_offer_amount_repaid(offer_id, total_due).unwrap();
    p.fin.update_offer_status(offer_id, OfferStatus::Repaid).unwrap();
    p.fin.update_stats_repaid(total_due, 0).unwrap();
    p.fin.update_lender_stats_repaid(LENDER, true).unwrap();
    let inv = p.reg.repayment_marks_invoice_repaid(invoice_id, true, p.now).unwrap();
    assert_eq!(inv.status, InvoiceStatus::Repaid);

    let offer = p.fin.get_offer(offer_id).unwrap();
    assert_eq!(offer.status, OfferStatus::Repaid);
    assert_eq!(offer.amount_repaid, total_due);
    assert_eq!(p.fin.get_stats().total_repaid, total_due);
    assert_eq!(p.fin.get_lender_stats(LENDER).offers_repaid, 1);
}
