//! Verified core of a small multiplayer relay server.
//!
//! The crate covers the two load-bearing parts of the relay: the positional
//! (array-tagged) binary wire protocol that frames every message, and the
//! client registry with its broadcast fan-out and session lifecycle rules.
//! Coordinate and velocity fields travel as 64-bit IEEE-754 values; inside the
//! verified code they are carried as their bit patterns (`u64`), which keeps
//! the codec byte-exact without any floating-point arithmetic.

pub mod msg;
pub mod floatbits;
pub mod wire;
pub mod reader;
pub mod codec;
pub mod registry;
pub mod session;
pub mod hexdump;
pub mod laws;
