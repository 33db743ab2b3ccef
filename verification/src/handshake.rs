//! The handshake state machine of a new connection.
//!
//! The machine is a pure function from state and event to next state and
//! action: it never reads a socket itself. The surrounding connection
//! handler decodes frames, performs TLS upgrades, asks the credential
//! verifier, and feeds every outcome back in; the machine alone decides
//! what happens. A connection ends `Authenticated` with a `Session`, or
//! `Rejected` with the specific reason preserved; nothing is dropped
//! silently, and a rejected handshake is terminal: the peer must
//! reconnect.

use crate::errors::{AuthError, DecodeError, ProtocolError};
use crate::message::{ParameterMap, StartupMessage};
use vstd::prelude::*;

verus! {

/// Why a handshake ended in rejection.
#[derive(Clone, Copy, Debug, PartialEq, Eq, Structural)]
pub enum RejectReason {
    /// A startup or password message could not be decoded; the originating
    /// error is preserved for logging.
    Decode(DecodeError),
    /// A second SSL negotiation request arrived on the same attempt: the
    /// one-time negotiation loop is capped explicitly.
    DuplicateSslRequest,
    /// The credential check came back negative.
    Auth(AuthError),
}

/// What the connection handler must do after a step of the machine.
#[derive(Clone, Copy, Debug, PartialEq, Eq, Structural)]
pub enum HandshakeAction {
    /// Decide the TLS upgrade with the peer, then decode the next startup
    /// frame on the possibly upgraded channel and feed it back in.
    NegotiateSsl,
    /// Send the clear-text authentication challenge, then decode the
    /// password message and feed it back in.
    SendAuthChallenge,
    /// Hand the password and the startup parameters to the credential
    /// verifier and feed its verdict back in.
    VerifyCredentials,
    /// Hand the authenticated session over to query processing.
    OpenSession,
    /// Tear the connection down.
    Close,
}

/// An authenticated session: the parameters the peer negotiated at
/// startup, among them its identity. The current policy snapshot is not
/// stored here; each query looks it up so that replacements are observed.
pub struct Session {
    pub params: ParameterMap,
}

impl Session {
    /// The negotiated startup parameters.
    pub fn params(&self) -> (p: &ParameterMap)
        ensures
            *p == self.params,
    {
        &self.params
    }
}

/// The states a handshake can be in. `Authenticated` and `Rejected` are
/// terminal.
pub enum HandshakeState {
    /// Waiting for a startup frame. `ssl_done` records whether the
    /// one-time SSL negotiation loop has already run.
    AwaitStartup { ssl_done: bool },
    /// Startup parameters received and challenge issued; waiting for the
    /// password message.
    AwaitPassword { params: ParameterMap },
    /// Password received; waiting for the credential verifier's verdict.
    AwaitVerdict { params: ParameterMap, password: String },
    /// The handshake succeeded.
    Authenticated { session: Session },
    /// The handshake failed, with the reason preserved.
    Rejected { reason: RejectReason },
}

/// The handshake state machine itself.
pub struct Handshake {
    pub state: HandshakeState,
}

impl Handshake {
    /// A fresh machine for a newly accepted connection: waiting for the
    /// first startup frame, no SSL negotiation run yet.
    pub fn new() -> (h: Handshake)
        ensures
            h.state == (HandshakeState::AwaitStartup { ssl_done: false }),
    {
        Handshake { state: HandshakeState::AwaitStartup { ssl_done: false } }
    }

    /// True when the machine can take no further step.
    pub fn is_terminal(&self) -> (b: bool)
        ensures
            b == (self.state is Authenticated || self.state is Rejected),
    {
        match &self.state {
            HandshakeState::Authenticated { .. } => true,
            HandshakeState::Rejected { .. } => true,
            _ => false,
        }
    }

    /// Steps the machine on the outcome of decoding a startup frame.
    ///
    /// An SSL request enters the one-time negotiation loop, or rejects the
    /// connection when that loop has already run. A plaintext startup
    /// stores the parameters and asks for the authentication challenge.
    /// A password message here is out of order; it and every decode
    /// failure reject the connection with the reason preserved.
    pub fn on_startup(&mut self, outcome: Result<StartupMessage, DecodeError>) -> (a:
        HandshakeAction)
        requires
            old(self).state matches HandshakeState::AwaitStartup { .. },
        ensures
            match outcome {
                Ok(StartupMessage::SslRequest) => {
                    if old(self).state == (HandshakeState::AwaitStartup { ssl_done: false }) {
                        final(self).state == (HandshakeState::AwaitStartup { ssl_done: true })
                            && a is NegotiateSsl
                    } else {
                        final(self).state == (HandshakeState::Rejected {
                            reason: RejectReason::DuplicateSslRequest,
                        }) && a is Close
                    }
                },
                Ok(StartupMessage::Startup { params, version }) => final(self).state == (
                HandshakeState::AwaitPassword { params }) && a is SendAuthChallenge,
                Ok(StartupMessage::PasswordMessage { .. }) => final(self).state == (
                HandshakeState::Rejected {
                    reason: RejectReason::Decode(
                        DecodeError::Protocol(ProtocolError::UnexpectedMessageType),
                    ),
                }) && a is Close,
                Err(e) => final(self).state == (HandshakeState::Rejected {
                    reason: RejectReason::Decode(e),
                }) && a is Close,
            },
    {
        let ssl_done = match &self.state {
            HandshakeState::AwaitStartup { ssl_done } => *ssl_done,
            _ => false,
        };
        match outcome {
            Ok(StartupMessage::SslRequest) => {
                if !ssl_done {
                    self.state = HandshakeState::AwaitStartup { ssl_done: true };
                    HandshakeAction::NegotiateSsl
                } else {
                    self.state = HandshakeState::Rejected {
                        reason: RejectReason::DuplicateSslRequest,
                    };
                    HandshakeAction::Close
                }
            },
            Ok(StartupMessage::Startup { params, version: _ }) => {
                self.state = HandshakeState::AwaitPassword { params };
                HandshakeAction::SendAuthChallenge
            },
            Ok(StartupMessage::PasswordMessage { .. }) => {
                self.state = HandshakeState::Rejected {
                    reason: RejectReason::Decode(
                        DecodeError::Protocol(ProtocolError::UnexpectedMessageType),
                    ),
                };
                HandshakeAction::Close
            },
            Err(e) => {
                self.state = HandshakeState::Rejected { reason: RejectReason::Decode(e) };
                HandshakeAction::Close
            },
        }
    }

    /// Steps the machine on the outcome of decoding the password message.
    ///
    /// A password message moves to waiting for the verifier's verdict; any
    /// other message is out of order, and it and every decode failure
    /// reject the connection with the reason preserved.
    pub fn on_password(&mut self, outcome: Result<StartupMessage, DecodeError>) -> (a:
        HandshakeAction)
        requires
            old(self).state matches HandshakeState::AwaitPassword { .. },
        ensures
            match outcome {
                Ok(StartupMessage::PasswordMessage { password }) => {
                    &&& final(self).state matches HandshakeState::AwaitVerdict {
                        params: p,
                        password: w,
                    }
                    &&& old(self).state == (HandshakeState::AwaitPassword { params: p })
                    &&& w == password
                    &&& a is VerifyCredentials
                },
                Ok(_) => final(self).state == (HandshakeState::Rejected {
                    reason: RejectReason::Decode(
                        DecodeError::Protocol(ProtocolError::UnexpectedMessageType),
                    ),
                }) && a is Close,
                Err(e) => final(self).state == (HandshakeState::Rejected {
                    reason: RejectReason::Decode(e),
                }) && a is Close,
            },
    {
        let mut prior = HandshakeState::AwaitStartup { ssl_done: false };
        core::mem::swap(&mut self.state, &mut prior);
        let params = match prior {
            HandshakeState::AwaitPassword { params } => params,
            _ => ParameterMap::new(),
        };
        match outcome {
            Ok(StartupMessage::PasswordMessage { password }) => {
                self.state = HandshakeState::AwaitVerdict { params, password };
                HandshakeAction::VerifyCredentials
            },
            Ok(_) => {
                self.state = HandshakeState::Rejected {
                    reason: RejectReason::Decode(
                        DecodeError::Protocol(ProtocolError::UnexpectedMessageType),
                    ),
                };
                HandshakeAction::Close
            },
            Err(e) => {
                self.state = HandshakeState::Rejected { reason: RejectReason::Decode(e) };
                HandshakeAction::Close
            },
        }
    }

    /// Steps the machine on the credential verifier's verdict.
    ///
    /// A positive verdict opens the session over the stored parameters;
    /// the password is dropped either way. A negative verdict rejects the
    /// connection with the opaque credential error.
    pub fn on_auth_verdict(&mut self, accepted: bool) -> (a: HandshakeAction)
        requires
            old(self).state matches HandshakeState::AwaitVerdict { .. },
        ensures
            accepted ==> {
                &&& final(self).state matches HandshakeState::Authenticated { session }
                &&& old(self).state matches HandshakeState::AwaitVerdict { params, .. }
                    && session.params == params
                &&& a is OpenSession
            },
            !accepted ==> final(self).state == (HandshakeState::Rejected {
                reason: RejectReason::Auth(AuthError::InvalidCredentials),
            }) && a is Close,
    {
        let mut prior = HandshakeState::AwaitStartup { ssl_done: false };
        core::mem::swap(&mut self.state, &mut prior);
        let params = match prior {
            HandshakeState::AwaitVerdict { params, password: _ } => params,
            _ => ParameterMap::new(),
        };
        if accepted {
            self.state = HandshakeState::Authenticated { session: Session { params } };
            HandshakeAction::OpenSession
        } else {
            self.state = HandshakeState::Rejected {
                reason: RejectReason::Auth(AuthError::InvalidCredentials),
            };
            HandshakeAction::Close
        }
    }
}

} // verus!
