//! Spaceship X26 passenger resource management: tier-based access to ship
//! resources, crew-lead administration, audit and usage trails, and reports.
//!
//! Layers: `domain` (values and rules), `application` (services),
//! `infrastructure` (in-memory adapters, clocks, hash chain, label codecs)
//! and `interface` (boundary validation and request-level decisions).
pub mod application;
pub mod domain;
pub mod infrastructure;
pub mod interface;
