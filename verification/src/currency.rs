//! The currency registry: which token contract settles each currency, so a
//! new currency is one registration, never a new branch.

use vstd::prelude::*;
use crate::ordered_map::OrderedMap;
use crate::types::{Address, Symbol};

verus! {

/// Currency -> settlement token.
pub struct CurrencyRegistry {
    pub tokens: OrderedMap<Address>,
}

impl CurrencyRegistry {
    pub open spec fn wf(&self) -> bool {
        self.tokens.wf()
    }

    pub open spec fn view(&self) -> Map<u64, Address> {
        self.tokens@
    }

    /// An empty registry.
    pub fn new() -> (r: CurrencyRegistry)
        ensures
            r.wf(),
            r@ == Map::<u64, Address>::empty(),
    {
        CurrencyRegistry { tokens: OrderedMap::new() }
    }

    /// Register (or overwrite) the token that settles `currency`.
    pub fn register_currency(&mut self, currency: Symbol, token: Address)
        requires
            old(self).wf(),
        ensures
            final(self).wf(),
            final(self)@ == old(self)@.insert(currency.0, token),
    {
        self.tokens.set(currency.0, token);
    }

    /// The token registered for `currency`, if any.
    pub fn get_currency_token(&self, currency: Symbol) -> (t: Option<Address>)
        requires
            self.wf(),
        ensures
            t == (if self@.contains_key(currency.0) {
                Some(self@[currency.0])
            } else {
                None::<Address>
            }),
    {
        match self.tokens.get(currency.0) {
            Some(t) => Some(*t),
            None => None,
        }
    }

    /// The token that moves funds for `currency`: the registered one, else
    /// the deployment's default token.
    pub fn resolve_token(&self, currency: Symbol, default_token: Address) -> (t: Address)
        requires
            self.wf(),
        ensures
            t == resolved_token(self@, currency, default_token),
    {
        match self.tokens.get(currency.0) {
            Some(t) => *t,
            None => default_token,
        }
    }
}

pub open spec fn resolved_token(m: Map<u64, Address>, currency: Symbol, default_token: Address) -> Address {
    if m.contains_key(currency.0) {
        m[currency.0]
    } else {
        default_token
    }
}

} // verus!
