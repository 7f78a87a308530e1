use invofi::lifecycle::validate_transition;
use invofi::types::{Failure, InvoiceStatus};

/// The code of the refusal a status change meets, or `None` where it is legal.
fn refusal(from: InvoiceStatus, to: InvoiceStatus) -> Option<u32> {
    match validate_transition(from, to) {
        Ok(()) => None,
        Err(Failure::Contract(e)) => Some(e.code()),
        Err(Failure::Abort(_)) => panic!("a status change is refused with a contract error"),
    }
}

#[test]
fn pending_to_financed() {
    assert_eq!(refusal(InvoiceStatus::Pending, InvoiceStatus::Financed), None);
}

#[test]
fn pending_to_cancelled() {
    assert_eq!(refusal(InvoiceStatus::Pending, InvoiceStatus::Cancelled), None);
}

#[test]
fn financed_to_financed() {
    assert_eq!(refusal(InvoiceStatus::Financed, InvoiceStatus::Financed), None);
}

#[test]
fn financed_to_repaid() {
    assert_eq!(refusal(InvoiceStatus::Financed, InvoiceStatus::Repaid), None);
}

#[test]
fn financed_to_overdue() {
    assert_eq!(refusal(InvoiceStatus::Financed, InvoiceStatus::Overdue), None);
}

#[test]
fn financed_to_disputed() {
    assert_eq!(refusal(InvoiceStatus::Financed, InvoiceStatus::Disputed), None);
}

#[test]
fn overdue_to_defaulted() {
    assert_eq!(refusal(InvoiceStatus::Overdue, InvoiceStatus::Defaulted), None);
}

#[test]
fn disputed_to_pending() {
    assert_eq!(refusal(InvoiceStatus::Disputed, InvoiceStatus::Pending), None);
}

#[test]
fn disputed_to_financed() {
    assert_eq!(refusal(InvoiceStatus::Disputed, InvoiceStatus::Financed), None);
}

#[test]
fn disputed_to_repaid() {
    assert_eq!(refusal(InvoiceStatus::Disputed, InvoiceStatus::Repaid), None);
}

#[test]
fn disputed_to_cancelled() {
    assert_eq!(refusal(InvoiceStatus::Disputed, InvoiceStatus::Cancelled), None);
}

#[test]
fn disputed_to_defaulted() {
    assert_eq!(refusal(InvoiceStatus::Disputed, InvoiceStatus::Defaulted), None);
}

#[test]
fn pending_to_pending() {
    assert_eq!(refusal(InvoiceStatus::Pending, InvoiceStatus::Pending), Some(3));
}

#[test]
fn pending_to_repaid() {
    assert_eq!(refusal(InvoiceStatus::Pending, InvoiceStatus::Repaid), Some(3));
}

#[test]
fn pending_to_overdue() {
    assert_eq!(refusal(InvoiceStatus::Pending, InvoiceStatus::Overdue), Some(3));
}

#[test]
fn pending_to_disputed() {
    assert_eq!(refusal(InvoiceStatus::Pending, InvoiceStatus::Disputed), Some(3));
}

#[test]
fn pending_to_defaulted() {
    assert_eq!(refusal(InvoiceStatus::Pending, InvoiceStatus::Defaulted), Some(3));
}

#[test]
fn financed_to_pending() {
    assert_eq!(refusal(InvoiceStatus::Financed, InvoiceStatus::Pending), Some(3));
}

#[test]
fn financed_to_cancelled() {
    assert_eq!(refusal(InvoiceStatus::Financed, InvoiceStatus::Cancelled), Some(3));
}

#[test]
fn financed_to_defaulted() {
    assert_eq!(refusal(InvoiceStatus::Financed, InvoiceStatus::Defaulted), Some(3));
}

#[test]
fn overdue_to_pending() {
    assert_eq!(refusal(InvoiceStatus::Overdue, InvoiceStatus::Pending), Some(3));
}

#[test]
fn overdue_to_financed() {
    assert_eq!(refusal(InvoiceStatus::Overdue, InvoiceStatus::Financed), Some(3));
}

#[test]
fn overdue_to_repaid() {
    assert_eq!(refusal(InvoiceStatus::Overdue, InvoiceStatus::Repaid), Some(3));
}

#[test]
fn overdue_to_overdue() {
    assert_eq!(refusal(InvoiceStatus::Overdue, InvoiceStatus::Overdue), Some(3));
}

#[test]
fn overdue_to_cancelled() {
    assert_eq!(refusal(InvoiceStatus::Overdue, InvoiceStatus::Cancelled), Some(3));
}

#[test]
fn overdue_to_disputed() {
    assert_eq!(refusal(InvoiceStatus::Overdue, InvoiceStatus::Disputed), Some(3));
}

#[test]
fn disputed_to_overdue() {
    assert_eq!(refusal(InvoiceStatus::Disputed, InvoiceStatus::Overdue), Some(3));
}

#[test]
fn disputed_to_disputed() {
    assert_eq!(refusal(InvoiceStatus::Disputed, InvoiceStatus::Disputed), Some(3));
}

#[test]
fn repaid_to_pending() {
    assert_eq!(refusal(InvoiceStatus::Repaid, InvoiceStatus::Pending), Some(3));
}

#[test]
fn repaid_to_financed() {
    assert_eq!(refusal(InvoiceStatus::Repaid, InvoiceStatus::Financed), Some(3));
}

#[test]
fn repaid_to_repaid() {
    assert_eq!(refusal(InvoiceStatus::Repaid, InvoiceStatus::Repaid), Some(3));
}

#[test]
fn repaid_to_overdue() {
    assert_eq!(refusal(InvoiceStatus::Repaid, InvoiceStatus::Overdue), Some(3));
}

#[test]
fn repaid_to_cancelled() {
    assert_eq!(refusal(InvoiceStatus::Repaid, InvoiceStatus::Cancelled), Some(3));
}

#[test]
fn repaid_to_disputed() {
    assert_eq!(refusal(InvoiceStatus::Repaid, InvoiceStatus::Disputed), Some(3));
}

#[test]
fn repaid_to_defaulted() {
    assert_eq!(refusal(InvoiceStatus::Repaid, InvoiceStatus::Defaulted), Some(3));
}

#[test]
fn cancelled_to_pending() {
    assert_eq!(refusal(InvoiceStatus::Cancelled, InvoiceStatus::Pending), Some(3));
}

#[test]
fn cancelled_to_financed() {
    assert_eq!(refusal(InvoiceStatus::Cancelled, InvoiceStatus::Financed), Some(3));
}

#[test]
fn cancelled_to_repaid() {
    assert_eq!(refusal(InvoiceStatus::Cancelled, InvoiceStatus::Repaid), Some(3));
}

#[test]
fn cancelled_to_overdue() {
    assert_eq!(refusal(InvoiceStatus::Cancelled, InvoiceStatus::Overdue), Some(3));
}

#[test]
fn cancelled_to_cancelled() {
    assert_eq!(refusal(InvoiceStatus::Cancelled, InvoiceStatus::Cancelled), Some(3));
}

#[test]
fn cancelled_to_disputed() {
    assert_eq!(refusal(InvoiceStatus::Cancelled, InvoiceStatus::Disputed), Some(3));
}

#[test]
fn cancelled_to_defaulted() {
    assert_eq!(refusal(InvoiceStatus::Cancelled, InvoiceStatus::Defaulted), Some(3));
}

#[test]
fn defaulted_to_pending() {
    assert_eq!(refusal(InvoiceStatus::Defaulted, InvoiceStatus::Pending), Some(3));
}

#[test]
fn defaulted_to_financed() {
    assert_eq!(refusal(InvoiceStatus::Defaulted, InvoiceStatus::Financed), Some(3));
}

#[test]
fn defaulted_to_repaid() {
    assert_eq!(refusal(InvoiceStatus::Defaulted, InvoiceStatus::Repaid), Some(3));
}

#[test]
fn defaulted_to_overdue() {
    assert_eq!(refusal(InvoiceStatus::Defaulted, InvoiceStatus::Overdue), Some(3));
}

#[test]
fn defaulted_to_cancelled() {
    assert_eq!(refusal(InvoiceStatus::Defaulted, InvoiceStatus::Cancelled), Some(3));
}

#[test]
fn defaulted_to_disputed() {
    assert_eq!(refusal(InvoiceStatus::Defaulted, InvoiceStatus::Disputed), Some(3));
}

#[test]
fn defaulted_to_defaulted() {
    assert_eq!(refusal(InvoiceStatus::Defaulted, InvoiceStatus::Defaulted), Some(3));
}
