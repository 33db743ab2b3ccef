//! Core of a transparent front-end proxy for the PostgreSQL wire protocol.
//!
//! The library covers the protocol-framing and decoding layer that every byte
//! on the wire passes through (length-prefixed frames, the startup message
//! with its version dispatch and parameter map, the clear-text password
//! message), the handshake state machine that drives a new connection to an
//! authenticated session or a terminal rejection, and the policy-enforcement
//! contract that gates every query with the current compiled policy snapshot.
//!
//! All I/O stays outside: the decoders work on byte buffers, the state
//! machine on decoded messages and verdicts, so every rule here is a pure,
//! verified function of its inputs.

pub mod apiproto;
pub mod codec;
pub mod errors;
pub mod handshake;
pub mod message;
pub mod policy;
