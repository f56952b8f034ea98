//! Reconciliation engine for a dynamic-DNS updater.
//!
//! The crate decides, from the addresses a host currently has and the addresses it
//! last published, which DNS records of which zones have to be rewritten, and whether
//! the new addresses may be remembered afterwards. It performs no I/O: every remote
//! answer is handed in as a plain value and every request is handed out as one.

pub mod address;
pub mod config;
pub mod error;
pub mod gate;
pub mod ip;
pub mod plan;
pub mod records;
pub mod run;
pub mod views;
pub mod zone;
