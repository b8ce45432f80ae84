//! Hash-based one-time signatures in the style of Lamport.
//!
//! The crate offers a bit codec, a pair of tagged hash oracles, the
//! multi-bit Lamport scheme and its one-bit instance.  Every executable
//! function carries a contract over the spec functions defined beside it.

pub mod lamport_signature;
pub mod random;
pub mod transcript;
pub mod utils;
