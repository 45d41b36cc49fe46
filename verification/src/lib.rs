//! Verified core of a quote service.
//!
//! The service keeps quotations, each under a stable numeric id, and serves
//! them over two surfaces (a JSON API and an HTML page). This crate holds the
//! part with real invariants: the store of quotes with its unique-id
//! invariant, the by-id and random read paths, the idempotent bulk import
//! that tolerates per-record failures, and the closed error taxonomy that
//! both surfaces map to user-visible outcomes in exactly the same way.
//! Network, database and file plumbing stay outside, in thin adapters that
//! hand this crate plain values.

pub mod error;
pub mod import;
pub mod init;
pub mod quote;
pub mod store;
pub mod templates;
pub mod web;
