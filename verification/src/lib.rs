//! A verified content-listing marketplace engine.
//!
//! Accounts publish gated listings ("fardels"), other accounts pay to unlock
//! ("unpack") one unit of a listing's private payload, and a commission on
//! every settlement is routed to an operator account.  The crate tracks
//! inventory, gates payload release behind payment and optional owner
//! approval, guarantees at-most-once delivery per purchaser, supports
//! cancellation and refund of in-flight approvals, and computes commission
//! splits with a 256-bit intermediate so the arithmetic cannot overflow.

pub mod commission;
pub mod engine;
pub mod errors;
pub mod hashing;
pub mod keys;
pub mod laws;
pub mod listings;
pub mod pending;
pub mod store;
pub mod unpack;
pub mod validation;
