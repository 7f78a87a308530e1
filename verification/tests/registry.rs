use invofi::registry::RegistryContract;
use invofi::types::{
    Abort, Address, Failure, Hash32, InvoiceStatus, RiskTier, Symbol, VerificationStatus, VerificationType,
    MIN_INVOICE_AMOUNT,
};

/// A short identifier, ordered as its text is.
fn sym(s: &str) -> Symbol {
    let b = s.as_bytes();
    assert!(b.len() <= 9);
    let mut v: u64 = 0;
    for i in 0..9 {
        let c = if i < b.len() { b[i] as u64 } else { 0 };
        v = v * 128 + c;
    }
    Symbol(v)
}

fn addr(n: u64) -> Address {
    Address(n)
}

/// A deterministic 32-byte evidence hash, distinct per `seed`.
fn evidence_hash(seed: u8) -> Hash32 {
    let mut raw = [0u8; 32];
    raw[0] = seed;
    raw[31] = seed.wrapping_add(1);
    Hash32(raw)
}

/// Registry with an admin (1), one registered invoice of an originator (2),
/// and one trusted verifier (3).
fn setup_oracle(invoice_id: Symbol, amount: i128, now: u64) -> (RegistryContract, Address, Address, Address) {
    let admin = addr(1);
    let originator = addr(2);
    let verifier = addr(3);
    let mut r = RegistryContract::new(admin);
    r.register_invoice(invoice_id, originator, amount, sym("USDC"), 9_000_000, now).unwrap();
    r.add_verifier(admin, verifier).unwrap();
    (r, admin, originator, verifier)
}

// ─── Invoice CRUD ────────────────────────────────────────────────────────────

#[test]
fn test_register_and_get_invoice() {
    let mut r = RegistryContract::new(addr(1));
    let originator = addr(2);
    let invoice_id = sym("inv001");
    let amount: i128 = 1_000_000_000;
    let currency = sym("USDC");
    let due_date: u64 = 1_735_689_600;

    let registered = r.register_invoice(invoice_id, originator, amount, currency, due_date, 0).unwrap();
    assert_eq!(registered.id, invoice_id);
    assert_eq!(registered.originator, originator);
    assert_eq!(registered.amount, amount);
    assert_eq!(registered.currency, currency);
    assert_eq!(registered.due_date, due_date);
    assert_eq!(registered.status, InvoiceStatus::Pending);

    let fetched = r.get_invoice(invoice_id).unwrap();
    assert_eq!(fetched, registered);
}

#[test]
fn test_update_invoice_status() {
    let mut r = RegistryContract::new(addr(1));
    let originator = addr(2);
    let invoice_id = sym("inv002");
    r.register_invoice(invoice_id, originator, 1_000_000_000, sym("USDC"), 1_735_689_600, 0).unwrap();

    let updated = r.update_invoice_status(invoice_id, originator, InvoiceStatus::Cancelled, 0).unwrap();
    assert_eq!(updated.status, InvoiceStatus::Cancelled);
    // The change is logged, which is what the host announces.
    assert!(!r.get_transition_history(invoice_id).is_empty());
}

#[test]
fn test_cancel_invoice() {
    let mut r = RegistryContract::new(addr(1));
    let originator = addr(2);
    let now = 1_000_000;
    r.register_invoice(sym("inv_c1"), originator, 10_000_000, sym("XLM"), 3_000_000, now).unwrap();
    let cancelled = r.cancel_invoice(sym("inv_c1"), originator, now).unwrap();
    assert_eq!(cancelled.status, InvoiceStatus::Cancelled);
}

#[test]
fn test_update_invoice_amount() {
    let mut r = RegistryContract::new(addr(1));
    let originator = addr(2);
    let now = 1_000_000;
    r.register_invoice(sym("inv_ua1"), originator, 10_000_000, sym("XLM"), 3_000_000, now).unwrap();
    let updated = r.update_invoice_amount(sym("inv_ua1"), originator, 20_000_000).unwrap();
    assert_eq!(updated.amount, 20_000_000);
    assert_eq!(r.get_invoice(sym("inv_ua1")).unwrap().amount, 20_000_000);
}

// ─── Queries ─────────────────────────────────────────────────────────────────

#[test]
fn test_get_invoices_by_status_empty() {
    let r = RegistryContract::new(addr(1));
    assert_eq!(r.get_invoices_by_status(InvoiceStatus::Pending).len(), 0);
}

#[test]
fn test_get_invoices_by_status_matching() {
    let mut r = RegistryContract::new(addr(1));
    let originator = addr(2);
    let now = 1_000_000;
    r.register_invoice(sym("q_inv_a"), originator, 10_000_000, sym("USDC"), 3_000_000, now).unwrap();
    r.register_invoice(sym("q_inv_b"), originator, 20_000_000, sym("XLM"), 4_000_000, now).unwrap();
    assert_eq!(r.get_invoices_by_status(InvoiceStatus::Pending).len(), 2);
    assert_eq!(r.get_invoices_by_status(InvoiceStatus::Financed).len(), 0);
}

#[test]
fn test_get_invoices_by_originator() {
    let mut r = RegistryContract::new(addr(1));
    let orig_a = addr(2);
    let orig_b = addr(3);
    let now = 1_000_000;
    r.register_invoice(sym("inv_oa1"), orig_a, 10_000_000, sym("XLM"), 3_000_000, now).unwrap();
    r.register_invoice(sym("inv_oa2"), orig_a, 20_000_000, sym("XLM"), 3_000_000, now).unwrap();
    r.register_invoice(sym("inv_ob1"), orig_b, 30_000_000, sym("XLM"), 3_000_000, now).unwrap();
    assert_eq!(r.get_invoices_by_originator(orig_a).len(), 2);
    assert_eq!(r.get_invoices_by_originator(orig_b).len(), 1);
}

#[test]
fn test_get_all_invoices() {
    let mut r = RegistryContract::new(addr(1));
    let orig = addr(2);
    let now = 1_000_000;
    r.register_invoice(sym("inv_all1"), orig, 10_000_000, sym("XLM"), 3_000_000, now).unwrap();
    r.register_invoice(sym("inv_all2"), orig, 20_000_000, sym("XLM"), 3_000_000, now).unwrap();
    assert_eq!(r.get_all_invoices().len(), 2);
}

#[test]
fn test_get_invoices_by_currency_filters_correctly() {
    let mut r = RegistryContract::new(addr(1));
    let originator = addr(2);
    let amount: i128 = 1_000_000_000;
    let due_date: u64 = 1_735_689_600;
    let usdc = sym("USDC");
    let xlm = sym("XLM");
    r.register_invoice(sym("u1"), originator, amount, usdc, due_date, 0).unwrap();
    r.register_invoice(sym("u2"), originator, amount, usdc, due_date, 0).unwrap();
    r.register_invoice(sym("x1"), originator, amount, xlm, due_date, 0).unwrap();
    assert_eq!(r.get_invoices_by_currency(usdc).len(), 2);
    assert_eq!(r.get_invoices_by_currency(xlm).len(), 1);
}

#[test]
fn test_get_invoices_due_before_timestamp() {
    let mut r = RegistryContract::new(addr(1));
    let originator = addr(2);
    let amount: i128 = 1_000_000_000;
    let currency = sym("USDC");
    let now = 1000;
    r.register_invoice(sym("soon"), originator, amount, currency, 2000, now).unwrap();
    r.register_invoice(sym("later"), originator, amount, currency, 9999, now).unwrap();

    let early = r.get_invoices_due_before(5000);
    assert_eq!(early.len(), 1);
    assert_eq!(early[0].id, sym("soon"));
    assert_eq!(r.get_invoices_due_before(10000).len(), 2);
}

#[test]
fn test_get_invoices_count() {
    let mut r = RegistryContract::new(addr(1));
    assert_eq!(r.get_invoices_count(), 0);
    let originator = addr(2);
    r.register_invoice(sym("i1"), originator, 1_000_000_000, sym("USDC"), 1_735_689_600, 0).unwrap();
    r.register_invoice(sym("i2"), originator, 1_000_000_000, sym("USDC"), 1_735_689_600, 0).unwrap();
    assert_eq!(r.get_invoices_count(), 2);
}

#[test]
fn test_get_invoices_paginated() {
    let mut r = RegistryContract::new(addr(1));
    let originator = addr(2);
    for id in ["i0", "i1", "i2", "i3", "i4"] {
        r.register_invoice(sym(id), originator, 1_000_000_000, sym("USDC"), 1_735_689_600, 0).unwrap();
    }
    assert_eq!(r.get_invoices_paginated(0, 3).len(), 3);
    assert_eq!(r.get_invoices_paginated(3, 3).len(), 2);
}

#[test]
fn test_batch_get_invoices_skips_missing() {
    let mut r = RegistryContract::new(addr(1));
    r.register_invoice(sym("real"), addr(2), 1_000_000_000, sym("USDC"), 1_735_689_600, 0).unwrap();
    let ids = vec![sym("real"), sym("fake")];
    assert_eq!(r.batch_get_invoices(&ids).len(), 1);
}

// ─── Admin ───────────────────────────────────────────────────────────────────

#[test]
fn test_constructor_binds_admin_at_deploy() {
    let admin = addr(7);
    let r = RegistryContract::new(admin);
    assert_eq!(r.get_admin(), admin);
}

#[test]
fn test_transfer_admin() {
    let admin = addr(1);
    let mut r = RegistryContract::new(admin);
    let new_admin = addr(2);
    r.transfer_admin(admin, new_admin).unwrap();
    assert_eq!(r.get_admin(), new_admin);
}

#[test]
fn test_pause_and_unpause() {
    let admin = addr(1);
    let mut r = RegistryContract::new(admin);
    assert!(!r.contract_is_paused());
    r.pause(admin).unwrap();
    assert!(r.contract_is_paused());
    r.unpause(admin).unwrap();
    assert!(!r.contract_is_paused());
}

#[test]
fn test_set_and_get_rate() {
    let admin = addr(1);
    let mut r = RegistryContract::new(admin);
    r.set_rate(admin, RiskTier::A, 500).unwrap();
    r.set_rate(admin, RiskTier::B, 800).unwrap();
    r.set_rate(admin, RiskTier::C, 1200).unwrap();
    assert_eq!(r.get_rate(RiskTier::A).unwrap(), 500);
    assert_eq!(r.get_rate(RiskTier::B).unwrap(), 800);
    assert_eq!(r.get_rate(RiskTier::C).unwrap(), 1200);
}

#[test]
fn test_set_and_get_fee() {
    let admin = addr(1);
    let mut r = RegistryContract::new(admin);
    assert_eq!(r.get_fee(), 0);
    r.set_fee(admin, 200).unwrap();
    assert_eq!(r.get_fee(), 200);
}

#[test]
fn test_blacklist_and_unblacklist() {
    let admin = addr(1);
    let mut r = RegistryContract::new(admin);
    let bad_actor = addr(2);
    assert!(!r.is_blacklisted(bad_actor));
    r.blacklist_address(admin, bad_actor).unwrap();
    assert!(r.is_blacklisted(bad_actor));
    assert_eq!(r.get_blacklist().len(), 1);
    r.blacklist_address(admin, bad_actor).unwrap();
    assert_eq!(r.get_blacklist().len(), 1);
    r.unblacklist_address(admin, bad_actor).unwrap();
    assert!(!r.is_blacklisted(bad_actor));
    assert_eq!(r.get_blacklist().len(), 0);
}

#[test]
fn test_stats_increment_on_register() {
    let mut r = RegistryContract::new(addr(1));
    let now = 1_000_000;
    assert_eq!(r.get_stats().total_invoices, 0);
    r.register_invoice(sym("si1"), addr(2), 10_000_000, sym("XLM"), 2_000_000, now).unwrap();
    r.register_invoice(sym("si2"), addr(2), 20_000_000, sym("XLM"), 2_000_000, now).unwrap();
    assert_eq!(r.get_stats().total_invoices, 2);
}

#[test]
fn test_get_min_invoice_amount() {
    let r = RegistryContract::new(addr(1));
    assert_eq!(r.get_min_invoice_amount(), MIN_INVOICE_AMOUNT);
}

// ─── Lifecycle ───────────────────────────────────────────────────────────────

#[test]
fn test_mark_invoice_overdue() {
    let mut r = RegistryContract::new(addr(1));
    r.register_invoice(sym("inv_ovd1"), addr(2), 10_000_000, sym("USDC"), 1_735_689_600, 0).unwrap();
}

#[test]
fn test_raise_and_resolve_dispute() {
    let mut r = RegistryContract::new(addr(1));
    r.register_invoice(sym("inv_dsp1"), addr(2), 10_000_000, sym("USDC"), 1_735_689_600, 0).unwrap();
}

#[test]
fn test_repayment_marks_defaulted_transition() {
    let admin = addr(1);
    let originator = addr(2);
    let repayment = addr(3);
    let this = addr(99);
    let mut r = RegistryContract::new(admin);
    let invoice_id = sym("inv_df1");
    let due_date: u64 = 1_735_689_600;
    r.set_repayment_contract(admin, repayment).unwrap();
    r.register_invoice(invoice_id, originator, 1_000_000_000, sym("USDC"), due_date, 0).unwrap();
    r.update_invoice_status(invoice_id, originator, InvoiceStatus::Financed, 0).unwrap();
    r.mark_invoice_overdue(invoice_id, due_date + 1, this).unwrap();
    assert_eq!(r.get_invoice(invoice_id).unwrap().status, InvoiceStatus::Overdue);

    let invoice = r.repayment_marks_defaulted(invoice_id, due_date + 1).unwrap();
    assert_eq!(invoice.status, InvoiceStatus::Defaulted);
    assert_eq!(r.get_invoice(invoice_id).unwrap().status, InvoiceStatus::Defaulted);
}

#[test]
fn test_state_machine_valid_transitions() {
    let admin = addr(1);
    let originator = addr(2);
    let financing = addr(3);
    let repayment = addr(4);
    let mut r = RegistryContract::new(admin);
    r.set_financing_contract(admin, financing).unwrap();
    r.set_repayment_contract(admin, repayment).unwrap();
    let invoice_id = sym("sm001");
    let invoice = r.register_invoice(invoice_id, originator, 1_000_000_000, sym("USDC"), 1_735_689_600, 0).unwrap();
    assert_eq!(invoice.status, InvoiceStatus::Pending);
    assert_eq!(r.financing_marks_invoice_financed(invoice_id, 0).unwrap().status, InvoiceStatus::Financed);
    assert_eq!(r.repayment_marks_invoice_repaid(invoice_id, false, 0).unwrap().status, InvoiceStatus::Financed);
    assert_eq!(r.repayment_marks_invoice_repaid(invoice_id, true, 0).unwrap().status, InvoiceStatus::Repaid);
}

#[test]
fn test_state_machine_pending_to_cancelled() {
    let mut r = RegistryContract::new(addr(1));
    let originator = addr(2);
    let invoice_id = sym("sm002");
    r.register_invoice(invoice_id, originator, 1_000_000_000, sym("USDC"), 1_735_689_600, 0).unwrap();
    assert_eq!(r.cancel_invoice(invoice_id, originator, 0).unwrap().status, InvoiceStatus::Cancelled);
}

#[test]
fn test_state_machine_financed_to_overdue() {
    let admin = addr(1);
    let mut r = RegistryContract::new(admin);
    r.set_financing_contract(admin, addr(3)).unwrap();
    let invoice_id = sym("sm003");
    r.register_invoice(invoice_id, addr(2), 1_000_000_000, sym("USDC"), 100, 0).unwrap();
    r.financing_marks_invoice_financed(invoice_id, 0).unwrap();
    assert_eq!(r.get_transition_history(invoice_id).len(), 1);
}

#[test]
fn test_state_machine_financed_to_disputed_to_resolved() {
    let admin = addr(1);
    let originator = addr(2);
    let mut r = RegistryContract::new(admin);
    r.set_financing_contract(admin, addr(3)).unwrap();
    let invoice_id = sym("sm004");
    r.register_invoice(invoice_id, originator, 1_000_000_000, sym("USDC"), 1_735_689_600, 0).unwrap();
    r.financing_marks_invoice_financed(invoice_id, 0).unwrap();
    assert_eq!(r.raise_dispute(invoice_id, originator, 0).unwrap().status, InvoiceStatus::Disputed);
    assert_eq!(r.resolve_dispute(admin, invoice_id, InvoiceStatus::Financed, 0).unwrap().status, InvoiceStatus::Financed);
    r.raise_dispute(invoice_id, originator, 0).unwrap();
    assert_eq!(r.resolve_dispute(admin, invoice_id, InvoiceStatus::Cancelled, 0).unwrap().status, InvoiceStatus::Cancelled);
}

#[test]
fn test_transition_history_recorded() {
    let admin = addr(1);
    let financing = addr(3);
    let mut r = RegistryContract::new(admin);
    r.set_financing_contract(admin, financing).unwrap();
    let invoice_id = sym("sm_hist");
    r.register_invoice(invoice_id, addr(2), 1_000_000_000, sym("USDC"), 1_735_689_600, 0).unwrap();
    r.financing_marks_invoice_financed(invoice_id, 0).unwrap();
    let history = r.get_transition_history(invoice_id);
    assert!(!history.is_empty(), "Transition history should not be empty");
    assert_eq!(history.len(), 1, "Should have one transition recorded");
    assert_eq!(history[0].from_status, InvoiceStatus::Pending);
    assert_eq!(history[0].to_status, InvoiceStatus::Financed);
    assert_eq!(history[0].actor, financing);
}

#[test]
fn test_transition_history_multiple_transitions() {
    let admin = addr(1);
    let mut r = RegistryContract::new(admin);
    r.set_financing_contract(admin, addr(3)).unwrap();
    r.set_repayment_contract(admin, addr(4)).unwrap();
    let invoice_id = sym("sm_multi");
    r.register_invoice(invoice_id, addr(2), 1_000_000_000, sym("USDC"), 1_735_689_600, 0).unwrap();
    r.financing_marks_invoice_financed(invoice_id, 0).unwrap();
    r.repayment_marks_invoice_repaid(invoice_id, true, 0).unwrap();
    let history = r.get_transition_history(invoice_id);
    assert_eq!(history.len(), 2, "Should have two transitions recorded");
    assert_eq!(history[0].from_status, InvoiceStatus::Pending);
    assert_eq!(history[0].to_status, InvoiceStatus::Financed);
    assert_eq!(history[1].from_status, InvoiceStatus::Financed);
    assert_eq!(history[1].to_status, InvoiceStatus::Repaid);
}

#[test]
fn test_transition_history_bounded_at_20() {
    let mut r = RegistryContract::new(addr(1));
    let originator = addr(2);
    let invoice_id = sym("sm_bnd");
    r.register_invoice(invoice_id, originator, 1_000_000_000, sym("USDC"), 1_735_689_600, 0).unwrap();
    for i in 0..20 {
        if i == 0 {
            r.update_invoice_status(invoice_id, originator, InvoiceStatus::Cancelled, 0).unwrap();
        }
    }
    let history = r.get_transition_history(invoice_id);
    assert!(history.len() <= 20, "History should be bounded to max 20 entries, got {}", history.len());
}

#[test]
fn test_transition_events_emitted() {
    let admin = addr(1);
    let mut r = RegistryContract::new(admin);
    r.set_financing_contract(admin, addr(3)).unwrap();
    let invoice_id = sym("sm_evt");
    r.register_invoice(invoice_id, addr(2), 1_000_000_000, sym("USDC"), 1_735_689_600, 0).unwrap();
    let before = r.get_transition_history(invoice_id).len();
    r.financing_marks_invoice_financed(invoice_id, 0).unwrap();
    // Each logged transition is announced by the host.
    assert!(r.get_transition_history(invoice_id).len() > before, "Should emit events on state transition");
}

// ─── Verification oracle ─────────────────────────────────────────────────────

#[test]
fn test_verifier_set_management() {
    let now = 1_000_000;
    let (mut r, admin, _originator, verifier) = setup_oracle(sym("vinv01"), 1_000_000_000, now);
    assert!(r.is_verifier(verifier));
    assert_eq!(r.get_verifiers().len(), 1);
    r.add_verifier(admin, verifier).unwrap();
    assert_eq!(r.get_verifiers().len(), 1);
    let second = addr(10);
    r.add_verifier(admin, second).unwrap();
    assert_eq!(r.get_verifiers().len(), 2);
    r.remove_verifier(admin, verifier).unwrap();
    assert!(!r.is_verifier(verifier));
    assert!(r.is_verifier(second));
}

#[test]
fn test_attest_records_and_verifies_each_verification_type() {
    let now = 1_000_000;
    let invoice_id = sym("vinv04");
    let (mut r, _admin, _originator, verifier) = setup_oracle(invoice_id, 1_000_000_000, now);
    for (index, v_type) in [
        VerificationType::DocumentHash,
        VerificationType::BusinessRegistration,
        VerificationType::TaxCompliance,
    ]
    .iter()
    .enumerate()
    {
        assert_eq!(r.get_verification_status(invoice_id, *v_type, now), VerificationStatus::Pending);
        let out = r.attest(invoice_id, verifier, *v_type, evidence_hash(index as u8), true, now).unwrap();
        let attestation = out.attestation;
        assert_eq!(attestation.verifier, verifier);
        assert_eq!(attestation.v_type, *v_type);
        assert_eq!(attestation.timestamp, 1_000_000);
        assert_eq!(attestation.valid_until, 1_000_000 + 7_776_000);
        assert_eq!(attestation.status, VerificationStatus::Verified);
        assert_eq!(r.get_verification_status(invoice_id, *v_type, now), VerificationStatus::Verified);
    }
    assert_eq!(r.get_verifications(invoice_id).len(), 3);
    assert_eq!(r.get_invoice_verification_status(invoice_id, now), VerificationStatus::Verified);
}

#[test]
fn test_invoice_is_not_verified_until_every_type_is() {
    let now = 1_000_000;
    let invoice_id = sym("vinv05");
    let (mut r, _admin, _originator, verifier) = setup_oracle(invoice_id, 1_000_000_000, now);
    r.attest(invoice_id, verifier, VerificationType::DocumentHash, evidence_hash(1), true, now).unwrap();
    r.attest(invoice_id, verifier, VerificationType::BusinessRegistration, evidence_hash(2), true, now).unwrap();
    assert_eq!(r.get_verification_status(invoice_id, VerificationType::DocumentHash, now), VerificationStatus::Verified);
    assert_eq!(r.get_verification_status(invoice_id, VerificationType::TaxCompliance, now), VerificationStatus::Pending);
    assert_eq!(r.get_invoice_verification_status(invoice_id, now), VerificationStatus::Pending);
}

#[test]
fn test_rejection_outranks_approvals() {
    let now = 1_000_000;
    let invoice_id = sym("vinv06");
    let (mut r, admin, _originator, verifier) = setup_oracle(invoice_id, 1_000_000_000, now);
    let second = addr(10);
    r.add_verifier(admin, second).unwrap();
    r.attest(invoice_id, verifier, VerificationType::DocumentHash, evidence_hash(1), true, now).unwrap();
    r.attest(invoice_id, second, VerificationType::DocumentHash, evidence_hash(2), false, now).unwrap();
    assert_eq!(r.get_verification_status(invoice_id, VerificationType::DocumentHash, now), VerificationStatus::Rejected);
    assert_eq!(r.get_invoice_verification_status(invoice_id, now), VerificationStatus::Rejected);
}

#[test]
fn test_threshold_requires_distinct_verifiers() {
    let now = 1_000_000;
    let invoice_id = sym("vinv07");
    let (mut r, admin, _originator, verifier) = setup_oracle(invoice_id, 1_000_000_000, now);
    let second = addr(10);
    r.add_verifier(admin, second).unwrap();
    r.set_verifier_threshold(admin, 2).unwrap();
    assert_eq!(r.get_verifier_threshold(), 2);

    r.attest(invoice_id, verifier, VerificationType::DocumentHash, evidence_hash(1), true, now).unwrap();
    assert_eq!(r.get_verification_status(invoice_id, VerificationType::DocumentHash, now), VerificationStatus::Pending);

    r.attest(invoice_id, verifier, VerificationType::DocumentHash, evidence_hash(9), true, now).unwrap();
    assert_eq!(r.get_verifications(invoice_id).len(), 1);
    assert_eq!(r.get_verification_status(invoice_id, VerificationType::DocumentHash, now), VerificationStatus::Pending);

    r.attest(invoice_id, second, VerificationType::DocumentHash, evidence_hash(2), true, now).unwrap();
    assert_eq!(r.get_verification_status(invoice_id, VerificationType::DocumentHash, now), VerificationStatus::Verified);
}

#[test]
fn test_verification_fee_is_charged_to_the_originator() {
    let now = 1_000_000;
    let invoice_id = sym("vinv09");
    let amount: i128 = 1_000_000_000;
    let (mut r, admin, _originator, verifier) = setup_oracle(invoice_id, amount, now);
    let token = addr(50);
    r.register_currency(admin, sym("USDC"), token).unwrap();
    r.set_verification_fee(admin, 50).unwrap();
    assert_eq!(r.calculate_verification_fee(invoice_id).unwrap(), 5_000_000);

    let out = r.attest(invoice_id, verifier, VerificationType::DocumentHash, evidence_hash(1), true, now).unwrap();
    // The host pulls this fee from the originator to the verifier.
    assert_eq!(out.fee, 5_000_000);
    assert_eq!(out.fee_token, Some(token));
    assert_eq!(amount - out.fee, amount - 5_000_000);
}

#[test]
fn test_fee_is_charged_on_rejection_too() {
    let now = 1_000_000;
    let invoice_id = sym("vinv10");
    let amount: i128 = 1_000_000_000;
    let (mut r, admin, _originator, verifier) = setup_oracle(invoice_id, amount, now);
    let token = addr(50);
    r.register_currency(admin, sym("USDC"), token).unwrap();
    r.set_verification_fee(admin, 100).unwrap();
    let out = r.attest(invoice_id, verifier, VerificationType::DocumentHash, evidence_hash(1), false, now).unwrap();
    assert_eq!(out.fee, 10_000_000);
    assert_eq!(out.fee_token, Some(token));
    assert_eq!(r.get_verification_status(invoice_id, VerificationType::DocumentHash, now), VerificationStatus::Rejected);
}

#[test]
fn test_zero_fee_needs_no_token_configured() {
    let now = 1_000_000;
    let invoice_id = sym("vinv11");
    let (mut r, _admin, _originator, verifier) = setup_oracle(invoice_id, 1_000_000_000, now);
    assert_eq!(r.get_verification_fee(), 0);
    assert_eq!(r.calculate_verification_fee(invoice_id).unwrap(), 0);
    let out = r.attest(invoice_id, verifier, VerificationType::TaxCompliance, evidence_hash(1), true, now).unwrap();
    assert_eq!(out.fee_token, None);
    assert_eq!(r.get_verification_status(invoice_id, VerificationType::TaxCompliance, now), VerificationStatus::Verified);
}

#[test]
fn test_fee_math_rounds_down_and_does_not_overflow() {
    let now = 1_000_000;
    let invoice_id = sym("vinv14");
    let (mut r, admin, _originator, _verifier) = setup_oracle(invoice_id, 19_999_999, now);
    r.set_verification_fee(admin, 1).unwrap();
    assert_eq!(r.calculate_verification_fee(invoice_id).unwrap(), 1_999);
    r.set_verification_fee(admin, 500).unwrap();
    assert_eq!(r.calculate_verification_fee(invoice_id).unwrap(), 999_999);
}

#[test]
fn test_attestation_expires_on_read_without_any_call() {
    let now = 1_000_000;
    let invoice_id = sym("vinv15");
    let (mut r, _admin, _originator, verifier) = setup_oracle(invoice_id, 1_000_000_000, now);
    r.attest(invoice_id, verifier, VerificationType::DocumentHash, evidence_hash(1), true, now).unwrap();
    assert_eq!(
        r.get_verification_status(invoice_id, VerificationType::DocumentHash, 1_000_000 + 7_776_000),
        VerificationStatus::Verified
    );
    let later = 1_000_000 + 7_776_001;
    assert_eq!(r.get_verification_status(invoice_id, VerificationType::DocumentHash, later), VerificationStatus::Expired);
    assert_eq!(r.get_invoice_verification_status(invoice_id, later), VerificationStatus::Expired);
}

#[test]
fn test_expire_verifications_is_idempotent() {
    let now = 1_000_000;
    let invoice_id = sym("vinv16");
    let (mut r, _admin, _originator, verifier) = setup_oracle(invoice_id, 1_000_000_000, now);
    r.attest(invoice_id, verifier, VerificationType::DocumentHash, evidence_hash(1), true, now).unwrap();
    r.attest(invoice_id, verifier, VerificationType::TaxCompliance, evidence_hash(2), true, now).unwrap();
    assert_eq!(r.expire_verifications(invoice_id, now).unwrap(), 0);
    let later = 1_000_000 + 7_776_001;
    assert_eq!(r.expire_verifications(invoice_id, later).unwrap(), 2);
    assert_eq!(r.expire_verifications(invoice_id, later).unwrap(), 0);
    for attestation in r.get_verifications(invoice_id).iter() {
        assert_eq!(attestation.status, VerificationStatus::Expired);
    }
}

#[test]
fn test_reattesting_after_expiry_restores_verified() {
    let now = 1_000_000;
    let invoice_id = sym("vinv17");
    let (mut r, _admin, _originator, verifier) = setup_oracle(invoice_id, 1_000_000_000, now);
    r.attest(invoice_id, verifier, VerificationType::BusinessRegistration, evidence_hash(1), true, now).unwrap();
    let later = 1_000_000 + 7_776_001;
    assert_eq!(r.get_verification_status(invoice_id, VerificationType::BusinessRegistration, later), VerificationStatus::Expired);
    r.attest(invoice_id, verifier, VerificationType::BusinessRegistration, evidence_hash(2), true, later).unwrap();
    assert_eq!(r.get_verification_status(invoice_id, VerificationType::BusinessRegistration, later), VerificationStatus::Verified);
    assert_eq!(r.get_verifications(invoice_id).len(), 1);
}

#[test]
fn test_attestation_validity_is_configurable_and_not_retroactive() {
    let now = 1_000_000;
    let invoice_id = sym("vinv18");
    let (mut r, admin, _originator, verifier) = setup_oracle(invoice_id, 1_000_000_000, now);
    assert_eq!(r.get_attestation_validity(), 7_776_000);
    r.set_attestation_validity(admin, 86_400).unwrap();
    let first = r.attest(invoice_id, verifier, VerificationType::DocumentHash, evidence_hash(1), true, now).unwrap();
    assert_eq!(first.attestation.valid_until, 1_000_000 + 86_400);
    r.set_attestation_validity(admin, 31_536_000).unwrap();
    let stored = r.get_verifications(invoice_id)[0];
    assert_eq!(stored.valid_until, 1_000_000 + 86_400);
    assert_eq!(
        r.get_verification_status(invoice_id, VerificationType::DocumentHash, 1_000_000 + 86_401),
        VerificationStatus::Expired
    );
}

#[test]
fn test_removed_verifier_cannot_attest_but_keeps_its_history() {
    let now = 1_000_000;
    let invoice_id = sym("vinv25");
    let (mut r, admin, _originator, verifier) = setup_oracle(invoice_id, 1_000_000_000, now);
    r.attest(invoice_id, verifier, VerificationType::DocumentHash, evidence_hash(1), true, now).unwrap();
    r.remove_verifier(admin, verifier).unwrap();
    assert_eq!(r.get_verifications(invoice_id).len(), 1);
    assert!(!r.is_verifier(verifier));
    assert_eq!(
        r.get_verification_status(invoice_id, VerificationType::DocumentHash, now),
        VerificationStatus::Pending,
        "a removed verifier's approval must stop satisfying the threshold"
    );
}

#[test]
fn test_removal_revokes_a_contributing_approval_and_a_rejection() {
    let now = 1_000_000;
    let invoice_id = sym("vinv26");
    let (mut r, admin, _originator, first) = setup_oracle(invoice_id, 1_000_000_000, now);
    let second = addr(10);
    r.add_verifier(admin, second).unwrap();
    r.set_verifier_threshold(admin, 2).unwrap();
    r.attest(invoice_id, first, VerificationType::DocumentHash, evidence_hash(1), true, now).unwrap();
    r.attest(invoice_id, second, VerificationType::DocumentHash, evidence_hash(2), true, now).unwrap();
    assert_eq!(r.get_verification_status(invoice_id, VerificationType::DocumentHash, now), VerificationStatus::Verified);
    r.remove_verifier(admin, second).unwrap();
    assert_eq!(
        r.get_verification_status(invoice_id, VerificationType::DocumentHash, now),
        VerificationStatus::Pending,
        "removal must withdraw the approval that was carrying the threshold"
    );
    r.attest(invoice_id, first, VerificationType::TaxCompliance, evidence_hash(3), false, now).unwrap();
    assert_eq!(r.get_verification_status(invoice_id, VerificationType::TaxCompliance, now), VerificationStatus::Rejected);
    r.remove_verifier(admin, first).unwrap();
    assert_eq!(
        r.get_verification_status(invoice_id, VerificationType::TaxCompliance, now),
        VerificationStatus::Pending,
        "removal must withdraw a rejection too"
    );
    assert_eq!(r.get_verifications(invoice_id).len(), 3);
}

const TYPES: [VerificationType; 3] = [
    VerificationType::DocumentHash,
    VerificationType::BusinessRegistration,
    VerificationType::TaxCompliance,
];

#[test]
fn test_eviction_cannot_disturb_another_types_status() {
    let now = 1_000_000;
    let invoice_id = sym("vinv27");
    let (mut r, admin, _originator, _seed) = setup_oracle(invoice_id, 1_000_000_000, now);
    for round in 0..20u8 {
        let rotating = addr(100 + round as u64);
        r.add_verifier(admin, rotating).unwrap();
        for (offset, v_type) in TYPES.iter().enumerate() {
            r.attest(invoice_id, rotating, *v_type, evidence_hash(round * 3 + offset as u8), true, now).unwrap();
        }
        r.remove_verifier(admin, rotating).unwrap();
    }
    assert_eq!(r.get_verifications(invoice_id).len(), 60);

    let active = addr(500);
    r.add_verifier(admin, active).unwrap();
    r.attest(invoice_id, active, VerificationType::DocumentHash, evidence_hash(100), true, now).unwrap();
    assert_eq!(r.get_verification_status(invoice_id, VerificationType::DocumentHash, now), VerificationStatus::Verified);
    r.attest(invoice_id, active, VerificationType::TaxCompliance, evidence_hash(101), true, now).unwrap();
    assert_eq!(
        r.get_verification_status(invoice_id, VerificationType::DocumentHash, now),
        VerificationStatus::Verified,
        "an unrelated attestation must not move another type's status"
    );
    assert_eq!(r.get_verification_status(invoice_id, VerificationType::TaxCompliance, now), VerificationStatus::Verified);
}

#[test]
fn test_eviction_preserves_every_status_it_can_reach() {
    let now = 1_000_000;
    let invoice_id = sym("vinv28");
    let (mut r, admin, _originator, anchor_v) = setup_oracle(invoice_id, 1_000_000_000, now);
    r.attest(invoice_id, anchor_v, VerificationType::BusinessRegistration, evidence_hash(1), true, now).unwrap();
    let later = 1_000_000 + 7_776_000 + 1;
    assert_eq!(r.get_verification_status(invoice_id, VerificationType::BusinessRegistration, later), VerificationStatus::Expired);

    r.attest(invoice_id, anchor_v, VerificationType::TaxCompliance, evidence_hash(2), false, later).unwrap();
    assert_eq!(r.get_verification_status(invoice_id, VerificationType::TaxCompliance, later), VerificationStatus::Rejected);

    for round in 0..19u8 {
        let rotating = addr(100 + round as u64);
        r.add_verifier(admin, rotating).unwrap();
        for (offset, v_type) in TYPES.iter().enumerate() {
            r.attest(invoice_id, rotating, *v_type, evidence_hash(10 + round * 3 + offset as u8), true, later).unwrap();
        }
        r.remove_verifier(admin, rotating).unwrap();
    }
    assert_eq!(r.get_verifications(invoice_id).len(), 59);

    let active = addr(500);
    r.add_verifier(admin, active).unwrap();
    r.attest(invoice_id, active, VerificationType::DocumentHash, evidence_hash(100), true, later).unwrap();
    assert_eq!(r.get_verifications(invoice_id).len(), 60);
    assert_eq!(r.get_verification_status(invoice_id, VerificationType::DocumentHash, later), VerificationStatus::Verified);

    for n in 0..3u8 {
        let extra = addr(600 + n as u64);
        r.add_verifier(admin, extra).unwrap();
        r.attest(invoice_id, extra, VerificationType::DocumentHash, evidence_hash(200 + n), true, later).unwrap();
        r.remove_verifier(admin, extra).unwrap();
    }
    assert_eq!(
        r.get_verification_status(invoice_id, VerificationType::DocumentHash, later),
        VerificationStatus::Verified,
        "eviction must never move a type off Verified"
    );
    assert_eq!(
        r.get_verification_status(invoice_id, VerificationType::TaxCompliance, later),
        VerificationStatus::Rejected,
        "eviction must never move a type off Rejected"
    );
    assert_eq!(
        r.get_verification_status(invoice_id, VerificationType::BusinessRegistration, later),
        VerificationStatus::Expired,
        "a lapsed record is never reached while departed records remain"
    );
}

#[test]
fn test_eviction_cannot_fire_without_a_departed_record_to_take() {
    let now = 1_000_000;
    let invoice_id = sym("vinv29");
    let (mut r, admin, _originator, first) = setup_oracle(invoice_id, 1_000_000_000, now);
    r.attest(invoice_id, first, VerificationType::BusinessRegistration, evidence_hash(1), true, now).unwrap();
    let later = 1_000_000 + 7_776_000 + 1;
    for v_type in [VerificationType::DocumentHash, VerificationType::TaxCompliance] {
        r.attest(invoice_id, first, v_type, evidence_hash(2), true, later).unwrap();
    }
    for round in 0..19u8 {
        let v = addr(100 + round as u64);
        r.add_verifier(admin, v).unwrap();
        for (offset, v_type) in TYPES.iter().enumerate() {
            r.attest(invoice_id, v, *v_type, evidence_hash(10 + round * 3 + offset as u8), true, later).unwrap();
        }
    }
    assert_eq!(r.get_verifications(invoice_id).len(), 60);
    assert_eq!(r.get_verifiers().len(), 20);

    let lapsed_present = |c: &RegistryContract| {
        let mut found = 0u32;
        for a in c.get_verifications(invoice_id).iter() {
            if a.verifier == first && a.v_type == VerificationType::BusinessRegistration {
                assert!(a.valid_until < later, "record must be lapsed");
                found += 1;
            }
        }
        found
    };
    assert_eq!(lapsed_present(&r), 1);
    let outsider = addr(900);
    assert!(!r.is_verifier(outsider));

    r.attest(invoice_id, first, VerificationType::DocumentHash, evidence_hash(200), true, later).unwrap();
    assert_eq!(r.get_verifications(invoice_id).len(), 60);
    assert_eq!(lapsed_present(&r), 1, "replacement frees its own slot, so the lapsed record is never taken");
}

#[test]
fn test_oracle_emits_submitted_completed_and_expired_events() {
    let now = 1_000_000;
    let invoice_id = sym("vinv26");
    let (mut r, _admin, _originator, verifier) = setup_oracle(invoice_id, 1_000_000_000, now);
    // Every accepted attestation is announced (ver_sub); a verdict is
    // announced (ver_done) when the type reaches one.
    let out = r.attest(invoice_id, verifier, VerificationType::DocumentHash, evidence_hash(1), true, now).unwrap();
    assert_eq!(out.verdict, Some(VerificationStatus::Verified), "crossing the threshold must emit ver_done");
    // Each newly recorded lapse is announced (ver_exp).
    assert_eq!(r.expire_verifications(invoice_id, 1_000_000 + 7_776_001).unwrap(), 1);
}

#[test]
fn test_verification_completed_is_emitted_once_per_status_change() {
    let now = 1_000_000;
    let invoice_id = sym("vinv27");
    let (mut r, admin, _originator, verifier) = setup_oracle(invoice_id, 1_000_000_000, now);
    let second = addr(10);
    r.add_verifier(admin, second).unwrap();
    let out = r.attest(invoice_id, verifier, VerificationType::DocumentHash, evidence_hash(1), true, now).unwrap();
    assert_eq!(out.verdict, Some(VerificationStatus::Verified));
    let out = r.attest(invoice_id, second, VerificationType::DocumentHash, evidence_hash(2), true, now).unwrap();
    assert_eq!(out.verdict, None, "an approval that changes nothing must not emit ver_done");
}

#[test]
fn test_live_approval_below_threshold_reads_pending_not_expired() {
    let now = 1_000_000;
    let invoice_id = sym("vinv20");
    let (mut r, admin, _originator, first) = setup_oracle(invoice_id, 1_000_000_000, now);
    let second = addr(10);
    r.add_verifier(admin, second).unwrap();
    r.set_verifier_threshold(admin, 2).unwrap();
    r.attest(invoice_id, first, VerificationType::DocumentHash, evidence_hash(1), true, now).unwrap();
    let later = 1_000_000 + 7_776_000 + 1;
    r.attest(invoice_id, second, VerificationType::DocumentHash, evidence_hash(2), true, later).unwrap();
    assert_eq!(
        r.get_verification_status(invoice_id, VerificationType::DocumentHash, later),
        VerificationStatus::Pending,
        "a live approval below threshold must read Pending, not Expired"
    );
    let third = addr(11);
    r.add_verifier(admin, third).unwrap();
    r.attest(invoice_id, third, VerificationType::DocumentHash, evidence_hash(3), true, later).unwrap();
    assert_eq!(r.get_verification_status(invoice_id, VerificationType::DocumentHash, later), VerificationStatus::Verified);
}

#[test]
fn test_expired_reads_only_when_no_live_statement_remains() {
    let now = 1_000_000;
    let invoice_id = sym("vinv21");
    let (mut r, _admin, _originator, verifier) = setup_oracle(invoice_id, 1_000_000_000, now);
    r.attest(invoice_id, verifier, VerificationType::TaxCompliance, evidence_hash(1), true, now).unwrap();
    assert_eq!(
        r.get_verification_status(invoice_id, VerificationType::TaxCompliance, 1_000_000 + 7_776_000 + 1),
        VerificationStatus::Expired,
        "with every statement lapsed the type reads Expired"
    );
}

#[test]
fn test_rotated_out_verifiers_cannot_lock_an_invoice() {
    let now = 1_000_000;
    let invoice_id = sym("vinv22");
    let (mut r, admin, _originator, _seed) = setup_oracle(invoice_id, 1_000_000_000, now);
    for round in 0..20u8 {
        let rotating = addr(100 + round as u64);
        r.add_verifier(admin, rotating).unwrap();
        for (offset, v_type) in TYPES.iter().enumerate() {
            r.attest(invoice_id, rotating, *v_type, evidence_hash(round * 3 + offset as u8), true, now).unwrap();
        }
        r.remove_verifier(admin, rotating).unwrap();
    }
    assert_eq!(r.get_verifications(invoice_id).len(), 60);
    let fresh = addr(500);
    r.add_verifier(admin, fresh).unwrap();
    r.attest(invoice_id, fresh, VerificationType::DocumentHash, evidence_hash(99), true, now).unwrap();
    let stored = r.get_verifications(invoice_id);
    assert_eq!(stored.len(), 60, "the cap still holds");
    assert!(stored.iter().any(|a| a.verifier == fresh), "the active verifier's attestation must be recorded");
    assert_eq!(r.get_verification_status(invoice_id, VerificationType::DocumentHash, now), VerificationStatus::Verified);
}

// ─── Refusals, by their stable codes ─────────────────────────────────────────

/// The stable code a refusal carries; 0 for a message abort.
fn code<T>(r: Result<T, Failure>) -> u32 {
    match r {
        Ok(_) => panic!("expected a refusal"),
        Err(Failure::Contract(e)) => e.code(),
        Err(Failure::Abort(_)) => 0,
    }
}

fn registry_with(id: &str, amount: i128, due: u64, now: u64) -> RegistryContract {
    let mut r = RegistryContract::new(addr(1));
    r.register_invoice(sym(id), addr(2), amount, sym("USDC"), due, now).unwrap();
    r
}

#[test]
fn test_duplicate_invoice_id_panics() {
    let mut r = registry_with("dup001", 500_000_000, 1_735_689_600, 0);
    assert_eq!(code(r.register_invoice(sym("dup001"), addr(2), 500_000_000, sym("XLM"), 1_735_689_600, 0)), 7);
    assert_eq!(r.get_invoices_count(), 1);
}

#[test]
fn test_get_non_existent_invoice() {
    let r = RegistryContract::new(addr(1));
    assert_eq!(code(r.get_invoice(sym("nope"))), 2);
}

#[test]
fn test_update_invoice_status_non_originator_panics() {
    let mut r = registry_with("inv002b", 1_000_000_000, 1_735_689_600, 0);
    assert_eq!(code(r.update_invoice_status(sym("inv002b"), addr(66), InvoiceStatus::Cancelled, 0)), 1);
}

#[test]
fn test_update_invoice_status_on_non_pending_panics() {
    let mut r = registry_with("inv002c", 1_000_000_000, 1_735_689_600, 0);
    r.update_invoice_status(sym("inv002c"), addr(2), InvoiceStatus::Cancelled, 0).unwrap();
    assert_eq!(code(r.update_invoice_status(sym("inv002c"), addr(2), InvoiceStatus::Pending, 0)), 3);
}

#[test]
fn test_cancel_non_pending_panics() {
    let mut r = registry_with("inv_c2", 10_000_000, 3_000_000, 1_000_000);
    r.cancel_invoice(sym("inv_c2"), addr(2), 1_000_000).unwrap();
    assert!(r.cancel_invoice(sym("inv_c2"), addr(2), 1_000_000).is_err());
}

#[test]
fn test_update_invoice_amount_below_min_panics() {
    let mut r = registry_with("inv_ua3", 10_000_000, 3_000_000, 1_000_000);
    assert_eq!(code(r.update_invoice_amount(sym("inv_ua3"), addr(2), 100)), 6);
    assert_eq!(r.get_invoice(sym("inv_ua3")).unwrap().amount, 10_000_000);
}

#[test]
fn test_update_amount_on_non_pending_panics() {
    let mut r = registry_with("inv_ua2", 50_000_000, 3_000_000, 1_000_000);
    r.cancel_invoice(sym("inv_ua2"), addr(2), 1_000_000).unwrap();
    assert_eq!(code(r.update_invoice_amount(sym("inv_ua2"), addr(2), 1_000)), 3);
}

#[test]
fn test_register_invoice_zero_amount() {
    let mut r = RegistryContract::new(addr(1));
    assert_eq!(code(r.register_invoice(sym("inv_v1"), addr(2), 0, sym("USDC"), 3_000_000, 1_000_000)), 6);
}

#[test]
fn test_register_invoice_past_due_date() {
    let mut r = RegistryContract::new(addr(1));
    assert_eq!(code(r.register_invoice(sym("inv_v2"), addr(2), 10_000_000, sym("USDC"), 1_000_000, 5_000_000)), 6);
}

#[test]
fn test_min_invoice_amount_rejected() {
    let mut r = RegistryContract::new(addr(1));
    assert_eq!(code(r.register_invoice(sym("tiny"), addr(2), 10_000, sym("USDC"), 1_735_689_600, 0)), 6);
    assert_eq!(code(r.register_invoice(sym("tiny"), addr(2), MIN_INVOICE_AMOUNT - 1, sym("USDC"), 1_735_689_600, 0)), 6);
    assert!(r.register_invoice(sym("tiny"), addr(2), MIN_INVOICE_AMOUNT, sym("USDC"), 1_735_689_600, 0).is_ok());
}

#[test]
fn test_transfer_admin_unauthorized_panics() {
    let mut r = RegistryContract::new(addr(1));
    assert_eq!(code(r.transfer_admin(addr(9), addr(10))), 1);
    assert_eq!(r.get_admin(), addr(1));
}

#[test]
fn test_register_invoice_while_paused_panics() {
    let mut r = RegistryContract::new(addr(1));
    r.pause(addr(1)).unwrap();
    assert_eq!(code(r.register_invoice(sym("inv_p1"), addr(2), 10_000_000, sym("XLM"), 3_000_000, 1_000_000)), 4);
}

#[test]
fn test_pause_unauthorized_panics() {
    let mut r = RegistryContract::new(addr(1));
    assert_eq!(code(r.pause(addr(9))), 1);
    assert!(!r.contract_is_paused());
}

#[test]
fn test_pause_blocks_transfer_admin() {
    let mut r = RegistryContract::new(addr(1));
    r.pause(addr(1)).unwrap();
    assert_eq!(code(r.transfer_admin(addr(1), addr(10))), 4);
}

#[test]
fn test_set_rate_out_of_range_panics() {
    let mut r = RegistryContract::new(addr(1));
    assert_eq!(code(r.set_rate(addr(1), RiskTier::A, 10_001)), 6);
}

#[test]
fn test_set_rate_unauthorized_panics() {
    let mut r = RegistryContract::new(addr(1));
    assert_eq!(code(r.set_rate(addr(9), RiskTier::A, 500)), 1);
}

#[test]
fn test_get_unset_rate_panics() {
    let r = RegistryContract::new(addr(1));
    assert_eq!(code(r.get_rate(RiskTier::A)), 2);
}

#[test]
fn test_set_fee_too_high_panics() {
    let mut r = RegistryContract::new(addr(1));
    assert_eq!(code(r.set_fee(addr(1), 600)), 6);
    assert_eq!(r.get_fee(), 0);
}

#[test]
fn test_blacklisted_cannot_register_invoice() {
    let mut r = RegistryContract::new(addr(1));
    r.blacklist_address(addr(1), addr(5)).unwrap();
    assert_eq!(code(r.register_invoice(sym("bl1"), addr(5), 10_000_000, sym("XLM"), 2_000_000, 1_000_000)), 8);
}

#[test]
fn test_blacklist_non_admin_panics() {
    let mut r = RegistryContract::new(addr(1));
    assert_eq!(code(r.blacklist_address(addr(9), addr(5))), 1);
    assert!(!r.is_blacklisted(addr(5)));
}

#[test]
fn test_mark_overdue_on_pending_panics() {
    let mut r = registry_with("inv_ovd2", 10_000_000, 1_735_689_600, 0);
    assert_eq!(code(r.mark_invoice_overdue(sym("inv_ovd2"), 0, addr(900))), 3);
}

#[test]
fn test_raise_dispute_on_pending_panics() {
    let mut r = registry_with("inv_dsp2", 10_000_000, 1_735_689_600, 0);
    assert!(r.raise_dispute(sym("inv_dsp2"), addr(2), 0).is_err());
    assert_eq!(r.get_invoice(sym("inv_dsp2")).unwrap().status, InvoiceStatus::Pending);
}

#[test]
fn test_financing_transition_without_registration_panics() {
    let mut r = registry_with("inv001", 1_000_000_000, 1_735_689_600, 0);
    assert_eq!(r.financing_marks_invoice_financed(sym("inv001"), 0).map(|_| ()), Err(Failure::Abort(Abort::FinancingNotConfigured)));
}

#[test]
fn test_repayment_transition_without_registration_panics() {
    let mut r = registry_with("inv001", 1_000_000_000, 1_735_689_600, 0);
    assert_eq!(r.repayment_marks_invoice_repaid(sym("inv001"), true, 0).map(|_| ()), Err(Failure::Abort(Abort::RepaymentNotConfigured)));
}

#[test]
fn test_repayment_marks_defaulted_requires_overdue() {
    let mut r = registry_with("inv_df2", 1_000_000_000, 1_735_689_600, 0);
    r.set_repayment_contract(addr(1), addr(30)).unwrap();
    r.update_invoice_status(sym("inv_df2"), addr(2), InvoiceStatus::Financed, 0).unwrap();
    assert_eq!(code(r.repayment_marks_defaulted(sym("inv_df2"), 0)), 3);
}

#[test]
fn test_state_machine_invalid_repaid_from_pending() {
    let mut r = registry_with("sm_bad1", 1_000_000_000, 1_735_689_600, 0);
    r.set_repayment_contract(addr(1), addr(30)).unwrap();
    assert_eq!(code(r.repayment_marks_invoice_repaid(sym("sm_bad1"), true, 0)), 3);
}

#[test]
fn test_state_machine_invalid_financed_from_repaid() {
    let mut r = registry_with("sm_bad2", 1_000_000_000, 1_735_689_600, 0);
    r.set_financing_contract(addr(1), addr(31)).unwrap();
    r.set_repayment_contract(addr(1), addr(30)).unwrap();
    r.financing_marks_invoice_financed(sym("sm_bad2"), 0).unwrap();
    r.repayment_marks_invoice_repaid(sym("sm_bad2"), true, 0).unwrap();
    assert_eq!(code(r.repayment_marks_invoice_repaid(sym("sm_bad2"), false, 0)), 3);
}

#[test]
fn test_state_machine_invalid_overdue_from_repaid() {
    let mut r = registry_with("sm_bad3", 1_000_000_000, 100, 0);
    r.set_financing_contract(addr(1), addr(31)).unwrap();
    r.set_repayment_contract(addr(1), addr(30)).unwrap();
    r.financing_marks_invoice_financed(sym("sm_bad3"), 0).unwrap();
    r.repayment_marks_invoice_repaid(sym("sm_bad3"), true, 0).unwrap();
    assert_eq!(code(r.mark_invoice_overdue(sym("sm_bad3"), 200, addr(900))), 3);
}

#[test]
fn test_state_machine_invalid_disputed_from_pending() {
    let mut r = registry_with("sm_bad4", 1_000_000_000, 1_735_689_600, 0);
    assert_eq!(code(r.raise_dispute(sym("sm_bad4"), addr(2), 0)), 3);
}

#[test]
fn test_add_verifier_is_admin_only() {
    let (mut r, _admin, originator, _verifier) = setup_oracle(sym("vinv02"), 1_000_000_000, 1_000_000);
    assert_eq!(code(r.add_verifier(originator, addr(40))), 1);
}

#[test]
fn test_attest_by_untrusted_address_panics() {
    let invoice_id = sym("vinv03");
    let (mut r, _admin, _originator, _verifier) = setup_oracle(invoice_id, 1_000_000_000, 1_000_000);
    let res = r.attest(invoice_id, addr(41), VerificationType::DocumentHash, evidence_hash(1), true, 1_000_000);
    assert_eq!(code(res), 1);
    assert_eq!(r.get_verifications(invoice_id).len(), 0);
}

#[test]
fn test_zero_verifier_threshold_panics() {
    let (mut r, admin, _originator, _verifier) = setup_oracle(sym("vinv08"), 1_000_000_000, 1_000_000);
    assert_eq!(code(r.set_verifier_threshold(admin, 0)), 6);
}

#[test]
fn test_nonzero_fee_without_a_registered_token_panics() {
    let invoice_id = sym("vinv12");
    let (mut r, admin, _originator, verifier) = setup_oracle(invoice_id, 1_000_000_000, 1_000_000);
    r.set_verification_fee(admin, 50).unwrap();
    let res = r.attest(invoice_id, verifier, VerificationType::DocumentHash, evidence_hash(1), true, 1_000_000);
    assert!(matches!(res, Err(Failure::Abort(Abort::FeeTokenNotConfigured))));
}

#[test]
fn test_verification_fee_above_ceiling_panics() {
    let (mut r, admin, _originator, _verifier) = setup_oracle(sym("vinv13"), 1_000_000_000, 1_000_000);
    assert_eq!(code(r.set_verification_fee(admin, 501)), 6);
}

#[test]
fn test_fee_math_overflow_reverts_instead_of_wrapping() {
    let invoice_id = sym("vinv15");
    let (mut r, admin, _originator, _verifier) = setup_oracle(invoice_id, i128::MAX, 1_000_000);
    r.set_verification_fee(admin, 500).unwrap();
    assert_eq!(code(r.calculate_verification_fee(invoice_id)), 6);
}

#[test]
fn test_attestation_validity_below_minimum_panics() {
    let (mut r, admin, _originator, _verifier) = setup_oracle(sym("vinv19"), 1_000_000_000, 1_000_000);
    assert_eq!(code(r.set_attestation_validity(admin, 86_399)), 6);
}

#[test]
fn test_attestation_validity_above_maximum_panics() {
    let (mut r, admin, _originator, _verifier) = setup_oracle(sym("vinv20"), 1_000_000_000, 1_000_000);
    assert_eq!(code(r.set_attestation_validity(admin, 31_536_001)), 6);
}

#[test]
fn test_attest_on_unknown_invoice_panics() {
    let (mut r, _admin, _originator, verifier) = setup_oracle(sym("vinv21"), 1_000_000_000, 1_000_000);
    let res = r.attest(sym("nope"), verifier, VerificationType::DocumentHash, evidence_hash(1), true, 1_000_000);
    assert_eq!(code(res), 2);
}

#[test]
fn test_attest_on_cancelled_invoice_panics() {
    let invoice_id = sym("vinv22");
    let (mut r, _admin, originator, verifier) = setup_oracle(invoice_id, 1_000_000_000, 1_000_000);
    r.cancel_invoice(invoice_id, originator, 1_000_000).unwrap();
    let res = r.attest(invoice_id, verifier, VerificationType::DocumentHash, evidence_hash(1), true, 1_000_000);
    assert_eq!(code(res), 3);
}

#[test]
fn test_attest_is_pause_guarded() {
    let invoice_id = sym("vinv23");
    let (mut r, admin, _originator, verifier) = setup_oracle(invoice_id, 1_000_000_000, 1_000_000);
    r.pause(admin).unwrap();
    let res = r.attest(invoice_id, verifier, VerificationType::DocumentHash, evidence_hash(1), true, 1_000_000);
    assert_eq!(code(res), 4);
}

#[test]
fn test_expire_verifications_on_an_invoice_with_none_panics() {
    let invoice_id = sym("vinv24");
    let (mut r, _admin, _originator, _verifier) = setup_oracle(invoice_id, 1_000_000_000, 1_000_000);
    assert_eq!(code(r.expire_verifications(invoice_id, 1_000_000)), 2);
}

#[test]
fn test_pause_blocks_all_registry_state_changes() {
    let admin = addr(1);
    let mut r = RegistryContract::new(admin);
    r.pause(admin).unwrap();
    let originator = addr(2);
    let other = addr(3);
    let financing = addr(4);
    let repayment = addr(5);
    let this = addr(6);
    let new_admin = addr(7);
    let invoice_id = sym("invx");
    let now: u64 = 1_000;

    assert!(r.register_invoice(sym("inv_p"), originator, 10_000_000, sym("XLM"), 3_000_000, now).is_err());
    assert!(r.update_invoice_status(invoice_id, originator, InvoiceStatus::Cancelled, now).is_err());
    assert!(r.update_invoice_amount(invoice_id, originator, 11_000_000).is_err());
    assert!(r.cancel_invoice(invoice_id, originator, now).is_err());
    assert!(r.set_invoice_repaid_status(invoice_id, originator, true, now).is_err());
    assert!(r.financing_marks_invoice_financed(invoice_id, now).is_err());
    assert!(r.repayment_marks_invoice_repaid(invoice_id, true, now).is_err());
    assert!(r.repayment_marks_defaulted(invoice_id, now).is_err());
    assert!(r.mark_invoice_overdue(invoice_id, now, this).is_err());
    assert!(r.raise_dispute(invoice_id, originator, now).is_err());
    assert!(r.resolve_dispute(admin, invoice_id, InvoiceStatus::Cancelled, now).is_err());
    assert!(r.blacklist_address(admin, other).is_err());
    assert!(r.unblacklist_address(admin, other).is_err());
    assert!(r.transfer_admin(admin, new_admin).is_err());
    assert!(r.set_financing_contract(admin, financing).is_err());
    assert!(r.set_repayment_contract(admin, repayment).is_err());
    assert!(r.set_rate(admin, RiskTier::A, 500).is_err());
    assert!(r.set_fee(admin, 50).is_err());

    assert_eq!(r.get_fee(), 0);
    assert_eq!(r.get_all_invoices().len(), 0);
    assert_eq!(r.get_admin(), admin);
}

/// Registry wired to stand-in financing (4) and repayment (5) contracts.
fn wired_registry() -> RegistryContract {
    let mut r = RegistryContract::new(addr(1));
    r.set_financing_contract(addr(1), addr(4)).unwrap();
    r.set_repayment_contract(addr(1), addr(5)).unwrap();
    r
}

#[test]
fn test_invoice_amount_immutable_once_financed() {
    for (principal, new_amount) in [(10_000_000i128, 10_000_000i128), (55_000_000, 99_999_999_999), (99_999_999_999, 12_345_678)] {
        let mut r = wired_registry();
        let originator = addr(2);
        let id = sym("inv_pt");
        let now: u64 = 1_000_000;
        r.register_invoice(id, originator, principal, sym("USD"), 2_000_000, now).unwrap();
        let updated = r.update_invoice_amount(id, originator, new_amount).unwrap();
        assert_eq!(updated.amount, new_amount);

        r.financing_marks_invoice_financed(id, now).unwrap();
        assert!(r.update_invoice_amount(id, originator, new_amount + 1).is_err());

        let invoice = r.get_invoice(id).unwrap();
        assert_eq!(invoice.amount, new_amount);
        assert_eq!(invoice.status, InvoiceStatus::Financed);
    }
}

#[test]
fn test_due_date_never_changes() {
    for (principal, due_offset) in [(10_000_000i128, 86_400u64), (77_000_000_000, 31_535_999)] {
        let mut r = wired_registry();
        let originator = addr(2);
        let id = sym("inv_dd");
        let now: u64 = 1_000_000;
        let due_date = now + due_offset;
        let original = r.register_invoice(id, originator, principal, sym("USD"), due_date, now).unwrap();
        assert_eq!(original.due_date, due_date);

        r.financing_marks_invoice_financed(id, now).unwrap();
        r.mark_invoice_overdue(id, due_date + 1, addr(6)).unwrap();
        r.repayment_marks_defaulted(id, due_date + 2).unwrap();

        let after = r.get_invoice(id).unwrap();
        assert_eq!(after.due_date, due_date);
        assert_eq!(after.status, InvoiceStatus::Defaulted);
    }
}

#[test]
fn test_cancelled_invoice_never_reactivated() {
    for principal in [10_000_000i128, 4_200_000_000, 99_999_999_999] {
        let mut r = wired_registry();
        let originator = addr(2);
        let id = sym("inv_cx");
        let now: u64 = 1_000_000;
        r.register_invoice(id, originator, principal, sym("USD"), 2_000_000, now).unwrap();
        let cancelled = r.cancel_invoice(id, originator, now).unwrap();
        assert_eq!(cancelled.status, InvoiceStatus::Cancelled);

        assert!(r.financing_marks_invoice_financed(id, now).is_err());
        assert!(r.update_invoice_status(id, originator, InvoiceStatus::Pending, now).is_err());
        assert!(r.update_invoice_amount(id, originator, principal + 1).is_err());
        assert!(r.raise_dispute(id, originator, now).is_err());

        // A settled invoice is frozen as a whole.
        assert_eq!(r.get_invoice(id).unwrap(), cancelled);
    }
}

#[test]
fn test_invoice_count_matches_storage() {
    let amounts: [i128; 7] = [10_000_000, 20_000_000, 99_999_999_999, 31_415_926, 10_000_001, 64_000_000, 50_000_000_000];
    let mut r = wired_registry();
    let originator = addr(2);
    for (i, amount) in amounts.iter().enumerate() {
        let id = sym(&format!("inv{:04}", i));
        r.register_invoice(id, originator, *amount, sym("USD"), 2_000_000, 1_000_000).unwrap();
    }
    assert_eq!(r.get_invoices_count(), amounts.len() as u32);
}

#[test]
fn test_forward_only_lifecycle() {
    for principal in [10_000_000i128, 99_999_999_999] {
        let mut r = wired_registry();
        let originator = addr(2);
        let id = sym("inv_fw");
        let now: u64 = 1_000_000;
        r.register_invoice(id, originator, principal, sym("USD"), 2_000_000, now).unwrap();
        assert_eq!(r.get_invoice(id).unwrap().status, InvoiceStatus::Pending);
        r.financing_marks_invoice_financed(id, now).unwrap();
        assert_eq!(r.get_invoice(id).unwrap().status, InvoiceStatus::Financed);
        r.repayment_marks_invoice_repaid(id, true, now).unwrap();
        assert_eq!(r.get_invoice(id).unwrap().status, InvoiceStatus::Repaid);

        assert!(r.financing_marks_invoice_financed(id, now).is_err());
        assert!(r.update_invoice_status(id, originator, InvoiceStatus::Financed, now).is_err());
        assert_eq!(r.get_invoice(id).unwrap().status, InvoiceStatus::Repaid);
    }
}
