//! The minimal invoice core: sequential invoice and offer ids from
//! per-kind counters, Draft invoices and their offers.

pub mod storage;
pub mod invoice;
pub mod financing;
