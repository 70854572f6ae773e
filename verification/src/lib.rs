//! Order-to-payment reconciliation for a room-booking service.
//!
//! The crate models the order store, computes order prices from stored line
//! items, and ensures that each order obtains exactly one payment handle from
//! the external payment processor, even under retries.

pub mod dates;
pub mod pricing;
pub mod reconcile;
pub mod store;
