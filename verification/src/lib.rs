//! InvoFi protocol logic: invoice registry, financing offers and their
//! negotiation, the verification oracle, the insurance pool, the on-chain
//! event index and the shared lifecycle rules, as verified state machines
//! over plain values.
//!
//! Every contract entry point is a method on the contract's state type. It
//! takes the already-authenticated caller, the ledger time and any value the
//! contract would read from another contract as arguments, and returns either
//! the result, with the state updated, or the failure the contract aborts
//! with, with the state untouched. Storage, authorization, events and token
//! movements belong to the host glue around this crate.

pub mod ordered_map;
pub mod paging;
pub mod types;
pub mod governance;
pub mod arith;
pub mod pro_rata;
pub mod reservations;
pub mod insurance;
pub mod tiers;
pub mod currency;
pub mod financing;
pub mod lifecycle;
pub mod address_list;
pub mod oracle;
pub mod registry;
pub mod version;
pub mod insurance_admin;
pub mod indexer;
pub mod legacy;
pub mod invoice_core;
