//! Layered configuration resolution and fail-fast service bootstrap.
//!
//! The crate has two parts, consumed in this order by a thin process
//! entrypoint:
//!
//! - [`config`] gathers a fixed set of named configuration values from two
//!   ordered sources (the process environment, then an optional fallback
//!   file), reports exactly which are missing, and packages a fully resolved
//!   configuration that downstream code never has to re-check.
//! - [`bootstrap`] sequences service startup (datastore connection, schema
//!   migration, crash-hook installation, optional broker subscription,
//!   listener bind, serve) in a fixed, fail-fast order: a step never runs if
//!   an earlier step failed, and failure is terminal.

pub mod bootstrap;
pub mod config;
