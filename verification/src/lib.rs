//! Signing core of a view-based broadcast-consensus engine.
//!
//! A set of validators, each holding a share of a distributed secret,
//! cooperate to produce threshold signatures that certify blocks, votes and
//! view-change events, and a per-view beacon seed.  This crate holds the
//! signer actor and its message protocol: the state machine that turns
//! admissible consensus events into requests for partial signatures, the
//! bounded mailbox that serializes that work, and the supervisor adapter
//! that answers epoch membership questions.  The pairing-based signature
//! primitives and the network transport are external collaborators: the
//! actor emits the exact domain-separated bytes to be signed, and the
//! caller applies the local share to them.

pub mod codec;
pub mod encoder;
pub mod ingress;
pub mod restaking;
pub mod signer;
pub mod supervisor;
