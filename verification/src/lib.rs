//! Counters that belong to users, each with a current value, a place in its
//! owner's list and an append-only history of the changes made to the value.
//!
//! The crate decides; it performs no I/O. Every request is a short
//! conversation with a relational store: [`api::exchange`] says which
//! statement comes next and what each reply means, and [`db::store`] gives
//! the statements their meaning on tables held in memory. What the two
//! guarantee together is proved in [`api::laws`] (no user sees another's
//! counters; the counter brought to the top is the highest), in
//! [`api::ledger`] (a counter's value and its history agree) and in
//! [`api::atomic`] (a request that fails leaves nothing behind).
//!
//! [`api::jwt`] tells who the caller is from a bearer token, and
//! [`api::user`] logs a caller in.

pub mod api;
pub mod db;
