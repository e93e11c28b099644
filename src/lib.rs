//! A registry of buy and sell commands for named products, with lookups by
//! identifier and price-ranked listings per product and side.

pub mod account;
pub mod command;
pub mod registry;
pub mod laws;
