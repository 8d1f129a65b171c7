//! Verified core of a multi-feed price collector.
//!
//! The crate normalizes trading-pair tokens, decodes the wire formats of
//! three streaming price feeds, accumulates samples in a keyed cache, and
//! drives the collection run as a state machine.  Network transport and
//! file persistence live outside the library; everything that decides or
//! computes is here, with contracts.

pub mod cache;
pub mod collector;
pub mod decode;
pub mod errors;
pub mod helpers;
pub mod json;
pub mod pairs;
pub mod price;
pub mod text;
pub mod types;
