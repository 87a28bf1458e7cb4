//! Transport core of a small RPC-style networking library: a fixed-size
//! binary packet protocol with integrity checking, and the session-routing
//! logic of a multiplexed transport that can carry many independent logical
//! connections over one listener.

pub mod encrypt;
pub mod protocol;
pub mod transport;
