//! The core's store: the admin, the two id counters, and the invoices and
//! offers keyed by id.

use vstd::prelude::*;
use crate::invoice_core::financing::FinancingOffer;
use crate::invoice_core::invoice::Invoice;
use crate::ordered_map::OrderedMap;
use crate::types::{abort, Abort, Address, Failure};

verus! {

/// Everything the core keeps.
pub struct CoreStore {
    pub admin: Option<Address>,
    pub invoice_counter: u32,
    pub financing_counter: u32,
    /// Invoice id -> invoice.
    pub invoices: OrderedMap<Invoice>,
    /// Offer id -> offer.
    pub offers: OrderedMap<FinancingOffer>,
}

impl CoreStore {
    /// Every id in use was handed out by its counter.
    pub open spec fn wf(&self) -> bool {
        &&& self.invoices.wf()
        &&& self.offers.wf()
        &&& forall|k: u64| #[trigger] self.invoices@.contains_key(k) ==> 1 <= k <= self.invoice_counter
        &&& forall|k: u64| #[trigger] self.offers@.contains_key(k) ==> 1 <= k <= self.financing_counter
    }

    /// An empty store: no admin, counters at 0.
    pub fn new() -> (s: CoreStore)
        ensures
            s.wf(),
            s.admin is None,
            s.invoice_counter == 0,
            s.financing_counter == 0,
            s.invoices@ == Map::<u64, Invoice>::empty(),
            s.offers@ == Map::<u64, FinancingOffer>::empty(),
    {
        CoreStore {
            admin: None,
            invoice_counter: 0,
            financing_counter: 0,
            invoices: OrderedMap::new(),
            offers: OrderedMap::new(),
        }
    }
}

/// Store the admin address.
pub fn set_admin(store: &mut CoreStore, admin: Address)
    requires
        old(store).wf(),
    ensures
        final(store).wf(),
        *final(store) == (CoreStore { admin: Some(admin), ..*old(store) }),
{
    store.admin = Some(admin);
}

/// The admin address; fails when none was stored.
pub fn get_admin(store: &CoreStore) -> (r: Result<Address, Failure>)
    ensures
        match store.admin {
            Some(a) => r == Ok::<Address, Failure>(a),
            None => r == Err::<Address, Failure>(abort(Abort::MissingValue)),
        },
{
    match store.admin {
        Some(a) => Ok(a),
        None => Err(Failure::Abort(Abort::MissingValue)),
    }
}

pub fn has_admin(store: &CoreStore) -> (b: bool)
    ensures
        b == store.admin is Some,
{
    store.admin.is_some()
}

/// Advance the invoice counter and return the new value, the next id.
pub fn increment_invoice_counter(store: &mut CoreStore) -> (r: Result<u32, Failure>)
    requires
        old(store).wf(),
    ensures
        final(store).wf(),
        if old(store).invoice_counter == u32::MAX {
            r == Err::<u32, Failure>(abort(Abort::ArithmeticOverflow)) && *final(store) == *old(store)
        } else {
            r == Ok::<u32, Failure>((old(store).invoice_counter + 1) as u32)
                && *final(store) == (CoreStore { invoice_counter: (old(store).invoice_counter + 1) as u32, ..*old(store) })
        },
{
    if store.invoice_counter == u32::MAX {
        return Err(Failure::Abort(Abort::ArithmeticOverflow));
    }
    store.invoice_counter = store.invoice_counter + 1;
    Ok(store.invoice_counter)
}

/// Advance the offer counter and return the new value, the next id.
pub fn increment_financing_counter(store: &mut CoreStore) -> (r: Result<u32, Failure>)
    requires
        old(store).wf(),
    ensures
        final(store).wf(),
        if old(store).financing_counter == u32::MAX {
            r == Err::<u32, Failure>(abort(Abort::ArithmeticOverflow)) && *final(store) == *old(store)
        } else {
            r == Ok::<u32, Failure>((old(store).financing_counter + 1) as u32)
                && *final(store) == (CoreStore { financing_counter: (old(store).financing_counter + 1) as u32, ..*old(store) })
        },
{
    if store.financing_counter == u32::MAX {
        return Err(Failure::Abort(Abort::ArithmeticOverflow));
    }
    store.financing_counter = store.financing_counter + 1;
    Ok(store.financing_counter)
}

/// A new id is never in use: the next invoice or offer id lies above
/// every id the store holds.
pub proof fn law_next_ids_are_fresh(store: CoreStore)
    requires
        store.wf(),
    ensures
        !store.invoices@.contains_key((store.invoice_counter + 1) as u64),
        !store.offers@.contains_key((store.financing_counter + 1) as u64),
{
}

} // verus!
