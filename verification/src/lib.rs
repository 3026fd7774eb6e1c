//! A small verified library: an in-memory bank ledger with credit-limit
//! enforcement and interest accrual, integer temperature conversions, and a
//! pair-of-borrows helper type.

pub mod bank;
pub mod temperature;
pub mod temperature_offset;
pub mod two_values;
