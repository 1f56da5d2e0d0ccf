//! A dynamic-DNS reconciliation library.
//!
//! The crate computes, from a configured list of desired hostnames, the DNS
//! records observed at the provider, and the caller's current public IP
//! address, the minimal plan of record creations and updates that makes every
//! desired name resolve to that address. The plan computation is a pure
//! function and is verified; network transport around it lives outside the
//! library.

pub mod args;
pub mod cloudflare;
pub mod config;
pub mod ip;
pub mod reconcile;
