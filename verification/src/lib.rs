//! A message-broker consumer core: windowed batch accumulation with an
//! acknowledgment protocol, a single-delivery consumption state machine,
//! header-value lookup, and connection configuration.
//!
//! All broker I/O (connecting, pulling deliveries, acknowledging) lives in
//! the surrounding application; this crate holds the decision logic and its
//! proofs.

pub mod batch;
pub mod config;
pub mod delivery;
pub mod drain;
pub mod headers;
pub mod single;
pub mod text;
