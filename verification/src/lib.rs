//! A hierarchical, data-oriented decision engine for game agents.
//!
//! Floating-point quantities are carried as IEEE-754 single-precision bit
//! patterns (`Scalar`); every decision that only orders or compares them is
//! verified here, while the arithmetic on them is done by the caller.
pub mod belief;
pub mod bridge;
pub mod comm;
pub mod core_types;
pub mod engine;
pub mod registry;
pub mod stages;
