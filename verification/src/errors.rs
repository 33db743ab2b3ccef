//! Error taxonomy of the proxy core.
//!
//! Framing errors mean malformed or incomplete bytes on the wire; protocol
//! errors mean a peer that speaks a protocol this proxy does not support.
//! Both are plain values handed up to the handshake state machine, which is
//! the sole authority on tearing a connection down; nothing here panics.

use vstd::prelude::*;

verus! {

/// Malformed or incomplete bytes on the wire. Recoverable only by closing
/// the connection, never by retry.
#[derive(Clone, Copy, Debug, PartialEq, Eq, Structural)]
pub enum FramingError {
    /// The source ended before the bytes the format requires were available.
    Truncated,
    /// A frame declared a length smaller than the length field itself.
    InvalidLength,
    /// A C-string ran to the end of its buffer without a zero terminator.
    UnterminatedString,
    /// The bytes before a C-string terminator are not valid UTF-8.
    InvalidUtf8,
}

/// A peer that speaks a protocol this proxy does not or cannot support.
/// Surfaced to the caller as a terminal rejection.
#[derive(Clone, Copy, Debug, PartialEq, Eq, Structural)]
pub enum ProtocolError {
    /// The startup frame carried a version tag that is neither the SSL
    /// sentinel nor protocol 3.0.
    UnsupportedVersion,
    /// A message arrived with a tag byte other than the one the current
    /// state allows.
    UnexpectedMessageType,
    /// The parameter section of a startup frame was complete but malformed:
    /// an odd number of C-strings stood before the group terminator.
    MalformedParameters,
}

/// Any failure a decoder can return: either a framing fault or a protocol
/// violation.
#[derive(Clone, Copy, Debug, PartialEq, Eq, Structural)]
pub enum DecodeError {
    Framing(FramingError),
    Protocol(ProtocolError),
}

/// Failure of the credential check. A single opaque variant, so nothing
/// leaks about whether the user name or the password was the wrong part.
#[derive(Clone, Copy, Debug, PartialEq, Eq, Structural)]
pub enum AuthError {
    InvalidCredentials,
}

/// Failure of the policy engine itself, as opposed to an explicit deny.
/// Always fails closed, but is reported distinctly so operators can tell
/// "blocked by policy" from "policy engine broken".
#[derive(Clone, Copy, Debug, PartialEq, Eq, Structural)]
pub enum PolicyError {
    /// The sandboxed runtime faulted or the bytecode was malformed.
    SandboxFault,
    /// The evaluation did not finish within its bounded interval.
    EvaluationTimeout,
}

} // verus!
