use vstd::prelude::*;

verus! {

/// Error kinds observed at the gateway boundary.
#[derive(Clone, Copy, Debug, PartialEq, Eq, Structural)]
pub enum GatewayError {
    /// The WebSocket upgrade failed; no user state was created.
    HandshakeFailed,
    /// No identify or resume arrived within the handshake deadline.
    Timeout,
    /// The peer closed or the kill signal fired.
    Closed,
    /// Token verification failed.
    InvalidToken,
    /// A malformed frame or a disallowed opcode arrived during the handshake.
    UnexpectedMessage,
    /// Resume was requested but the session is gone or too old.
    CannotResume,
    /// I/O failed in the middle of a session.
    Transport,
}

/// Close code sent for a handshake that ran past its deadline.
pub const CLOSE_TIMEOUT: u16 = 4009;

/// Close code sent for a token that did not verify.
pub const CLOSE_INVALID_TOKEN: u16 = 4004;

/// Close code sent for a frame that is not allowed during the handshake.
pub const CLOSE_UNEXPECTED_MESSAGE: u16 = 4002;

impl GatewayError {
    /// The WebSocket close code that goes with this error, if it has one.
    pub open spec fn spec_close_code(self) -> Option<u16> {
        match self {
            GatewayError::Timeout => Some(4009u16),
            GatewayError::InvalidToken => Some(4004u16),
            GatewayError::UnexpectedMessage => Some(4002u16),
            _ => None,
        }
    }

    /// The WebSocket close code that goes with this error, if it has one.
    pub fn close_code(self) -> (code: Option<u16>)
        ensures
            code == self.spec_close_code(),
    {
        match self {
            GatewayError::Timeout => Some(CLOSE_TIMEOUT),
            GatewayError::InvalidToken => Some(CLOSE_INVALID_TOKEN),
            GatewayError::UnexpectedMessage => Some(CLOSE_UNEXPECTED_MESSAGE),
            _ => None,
        }
    }

    /// Whether the peer is told to start over with a fresh identify instead
    /// of being closed: only a failed resume is answered that way.
    pub open spec fn spec_invites_reidentify(self) -> bool {
        self == GatewayError::CannotResume
    }

    /// Whether the peer is told to start over with a fresh identify.
    pub fn invites_reidentify(self) -> (b: bool)
        ensures
            b == self.spec_invites_reidentify(),
    {
        match self {
            GatewayError::CannotResume => true,
            _ => false,
        }
    }
}

} // verus!
