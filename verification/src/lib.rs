//! Verified core of a local webcam-analysis daemon: the frame ring, the
//! conflation channel, the subscriber exchange and the session protocol,
//! written as deterministic state machines with proved contracts.

pub mod errors;
pub mod exchange;
pub mod ltsv;
pub mod narcissus;
pub mod server;
pub mod videoq;
