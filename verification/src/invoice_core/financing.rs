//! Core financing offers: created Pending under the next sequential id,
//! then accepted or rejected.

use vstd::prelude::*;
use crate::invoice_core::storage::{increment_financing_counter, CoreStore};
use crate::types::{abort, Abort, Address, Failure};

verus! {

#[derive(Clone, Copy, Debug, PartialEq, Eq, Structural)]
pub enum OfferStatus {
    Pending,
    Accepted,
    Rejected,
    Expired,
}

#[derive(Clone, Copy, Debug, PartialEq, Eq, Structural)]
pub struct FinancingOffer {
    pub id: u32,
    pub invoice_id: u32,
    pub lender: Address,
    pub amount: i128,
    pub interest_rate: i128,
    pub duration: u64,
    pub status: OfferStatus,
}

/// Create a Pending offer under the next id; the lender signs. Returns the
/// id.
pub fn create_offer(
    store: &mut CoreStore,
    invoice_id: u32,
    lender: Address,
    amount: i128,
    interest_rate: i128,
    duration: u64,
) -> (r: Result<u32, Failure>)
    requires
        old(store).wf(),
    ensures
        final(store).wf(),
        if old(store).financing_counter == u32::MAX {
            r == Err::<u32, Failure>(abort(Abort::ArithmeticOverflow)) && *final(store) == *old(store)
        } else {
            let id = (old(store).financing_counter + 1) as u32;
            let o = FinancingOffer { id, invoice_id, lender, amount, interest_rate, duration, status: OfferStatus::Pending };
            &&& r == Ok::<u32, Failure>(id)
            &&& final(store).offers@ == old(store).offers@.insert(id as u64, o)
            &&& *final(store) == (CoreStore { financing_counter: id, offers: final(store).offers, ..*old(store) })
        },
{
    let id = increment_financing_counter(store)?;
    let o = FinancingOffer { id, invoice_id, lender, amount, interest_rate, duration, status: OfferStatus::Pending };
    store.offers.set(id as u64, o);
    Ok(id)
}

pub fn get_offer(store: &CoreStore, id: u32) -> (r: Option<FinancingOffer>)
    requires
        store.wf(),
    ensures
        r == (if store.offers@.contains_key(id as u64) { Some(store.offers@[id as u64]) } else { None::<FinancingOffer> }),
{
    match store.offers.get(id as u64) {
        Some(o) => Some(*o),
        None => None,
    }
}

/// Set an offer's status; fails when there is no such offer.
fn set_offer_status(store: &mut CoreStore, id: u32, status: OfferStatus) -> (r: Result<(), Failure>)
    requires
        old(store).wf(),
    ensures
        final(store).wf(),
        if old(store).offers@.contains_key(id as u64) {
            &&& r is Ok
            &&& final(store).offers@ == old(store).offers@.insert(id as u64, FinancingOffer { status, ..old(store).offers@[id as u64] })
            &&& *final(store) == (CoreStore { offers: final(store).offers, ..*old(store) })
        } else {
            r == Err::<(), Failure>(abort(Abort::MissingValue)) && *final(store) == *old(store)
        },
{
    let o = match get_offer(store, id) {
        Some(o) => o,
        None => {
            return Err(Failure::Abort(Abort::MissingValue));
        },
    };
    store.offers.set(id as u64, FinancingOffer { status, ..o });
    Ok(())
}

/// Mark an offer Accepted; fails when there is no such offer.
pub fn accept_offer(store: &mut CoreStore, id: u32) -> (r: Result<(), Failure>)
    requires
        old(store).wf(),
    ensures
        final(store).wf(),
        if old(store).offers@.contains_key(id as u64) {
            &&& r is Ok
            &&& final(store).offers@ == old(store).offers@.insert(id as u64, FinancingOffer { status: OfferStatus::Accepted, ..old(store).offers@[id as u64] })
            &&& *final(store) == (CoreStore { offers: final(store).offers, ..*old(store) })
        } else {
            r == Err::<(), Failure>(abort(Abort::MissingValue)) && *final(store) == *old(store)
        },
{
    set_offer_status(store, id, OfferStatus::Accepted)
}

/// Mark an offer Rejected; fails when there is no such offer.
pub fn reject_offer(store: &mut CoreStore, id: u32) -> (r: Result<(), Failure>)
    requires
        old(store).wf(),
    ensures
        final(store).wf(),
        if old(store).offers@.contains_key(id as u64) {
            &&& r is Ok
            &&& final(store).offers@ == old(store).offers@.insert(id as u64, FinancingOffer { status: OfferStatus::Rejected, ..old(store).offers@[id as u64] })
            &&& *final(store) == (CoreStore { offers: final(store).offers, ..*old(store) })
        } else {
            r == Err::<(), Failure>(abort(Abort::MissingValue)) && *final(store) == *old(store)
        },
{
    set_offer_status(store, id, OfferStatus::Rejected)
}

} // verus!
