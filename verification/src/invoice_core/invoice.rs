//! Core invoices: created as Drafts under the next sequential id.

use vstd::prelude::*;
use crate::invoice_core::storage::{increment_invoice_counter, CoreStore};
use crate::types::{abort, Abort, Address, Failure, Symbol};

verus! {

#[derive(Clone, Copy, Debug, PartialEq, Eq, Structural)]
pub enum InvoiceStatus {
    Draft,
    Pending,
    Funded,
    Repaid,
    Defaulted,
}

#[derive(Clone, Copy, Debug, PartialEq, Eq, Structural)]
pub struct Invoice {
    pub id: u32,
    pub creator: Address,
    pub amount: i128,
    pub currency: Symbol,
    pub issuer: Address,
    pub recipient: Address,
    pub due_date: u64,
    pub status: InvoiceStatus,
    pub token_id: Option<u32>,
}

/// Create a Draft invoice under the next id; the creator signs. Returns the
/// id.
pub fn create_invoice(
    store: &mut CoreStore,
    creator: Address,
    amount: i128,
    currency: Symbol,
    issuer: Address,
    recipient: Address,
    due_date: u64,
) -> (r: Result<u32, Failure>)
    requires
        old(store).wf(),
    ensures
        final(store).wf(),
        if old(store).invoice_counter == u32::MAX {
            r == Err::<u32, Failure>(abort(Abort::ArithmeticOverflow)) && *final(store) == *old(store)
        } else {
            let id = (old(store).invoice_counter + 1) as u32;
            let inv = Invoice { id, creator, amount, currency, issuer, recipient, due_date, status: InvoiceStatus::Draft, token_id: None };
            &&& r == Ok::<u32, Failure>(id)
            &&& final(store).invoices@ == old(store).invoices@.insert(id as u64, inv)
            &&& *final(store) == (CoreStore { invoice_counter: id, invoices: final(store).invoices, ..*old(store) })
        },
{
    let id = increment_invoice_counter(store)?;
    let inv = Invoice { id, creator, amount, currency, issuer, recipient, due_date, status: InvoiceStatus::Draft, token_id: None };
    store.invoices.set(id as u64, inv);
    Ok(id)
}

pub fn get_invoice(store: &CoreStore, id: u32) -> (r: Option<Invoice>)
    requires
        store.wf(),
    ensures
        r == (if store.invoices@.contains_key(id as u64) { Some(store.invoices@[id as u64]) } else { None::<Invoice> }),
{
    match store.invoices.get(id as u64) {
        Some(i) => Some(*i),
        None => None,
    }
}

/// Set an invoice's status; fails when there is no such invoice.
pub fn update_invoice_status(store: &mut CoreStore, id: u32, status: InvoiceStatus) -> (r: Result<(), Failure>)
    requires
        old(store).wf(),
    ensures
        final(store).wf(),
        if old(store).invoices@.contains_key(id as u64) {
            &&& r is Ok
            &&& final(store).invoices@ == old(store).invoices@.insert(id as u64, Invoice { status, ..old(store).invoices@[id as u64] })
            &&& *final(store) == (CoreStore { invoices: final(store).invoices, ..*old(store) })
        } else {
            r == Err::<(), Failure>(abort(Abort::MissingValue)) && *final(store) == *old(store)
        },
{
    let inv = match get_invoice(store, id) {
        Some(i) => i,
        None => {
            return Err(Failure::Abort(Abort::MissingValue));
        },
    };
    store.invoices.set(id as u64, Invoice { status, ..inv });
    Ok(())
}

/// Attach a token id to an invoice; fails when there is no such invoice.
pub fn set_invoice_token(store: &mut CoreStore, id: u32, token_id: u32) -> (r: Result<(), Failure>)
    requires
        old(store).wf(),
    ensures
        final(store).wf(),
        if old(store).invoices@.contains_key(id as u64) {
            &&& r is Ok
            &&& final(store).invoices@ == old(store).invoices@.insert(id as u64, Invoice { token_id: Some(token_id), ..old(store).invoices@[id as u64] })
            &&& *final(store) == (CoreStore { invoices: final(store).invoices, ..*old(store) })
        } else {
            r == Err::<(), Failure>(abort(Abort::MissingValue)) && *final(store) == *old(store)
        },
{
    let inv = match get_invoice(store, id) {
        Some(i) => i,
        None => {
            return Err(Failure::Abort(Abort::MissingValue));
        },
    };
    store.invoices.set(id as u64, Invoice { token_id: Some(token_id), ..inv });
    Ok(())
}

} // verus!
