//! A ledger for a binary-outcome prediction market.
//!
//! Questions are registered with a time-bounded lifecycle; users place
//! monetary positions on a boolean outcome, may add to them or withdraw them
//! while the question is open, and can read a question's status, which flips
//! from running to locking once its expiration boundary has been read past.
//!
//! The hosting environment's capabilities — the clock, the value transferred
//! with a call, currency custody and event transport — are not modeled here:
//! each operation takes the environment's readings as plain arguments and
//! returns the action (a transfer amount, an event) for the host to perform.

pub mod laws;
pub mod market;
pub mod store;
