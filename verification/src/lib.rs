//! A connection-race library: the decision logic of a "happy eyeballs" style
//! client that resolves one host to several candidate addresses, races one
//! connection attempt per candidate, hands exactly one winning connection to a
//! response handler, and accumulates the response bytes it reads.
//!
//! The library holds the coordination and accumulation logic with its proofs;
//! the sockets, threads and channels that drive it live outside the library.

pub mod address;
pub mod error;
pub mod race;
pub mod request;
pub mod response;
