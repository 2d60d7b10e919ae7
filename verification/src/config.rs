use vstd::prelude::*;

verus! {

/// Heartbeat interval advertised where none is configured, in milliseconds.
pub const DEFAULT_HEARTBEAT_INTERVAL_MS: u64 = 45000;

/// Handshake deadline where none is configured, in seconds.
pub const DEFAULT_HANDSHAKE_TIMEOUT_SECS: u64 = 30;

/// Resume grace window where none is configured, in seconds.
pub const DEFAULT_RESUME_GRACE_SECS: u64 = 90;

/// Number of events kept for replay where none is configured.
pub const DEFAULT_REPLAY_BUFFER_SIZE: usize = 1024;

/// The options that the connection lifecycle reads.
#[derive(Clone, Debug, PartialEq, Eq)]
pub struct GatewayConfig {
    /// Interval advertised in the hello frame, in milliseconds.
    pub heartbeat_interval_ms: u64,
    /// How long a peer may take to identify or resume, in seconds.
    pub handshake_timeout_secs: u64,
    /// How long a disconnected session is kept for a resume, in seconds.
    pub resume_grace_secs: u64,
    /// How many dispatched events each session keeps for replay.
    pub replay_buffer_size: usize,
    /// The secret that tokens are verified against.
    pub jwt_secret: String,
}

impl GatewayConfig {
    /// The configuration with every option at its default, for the given
    /// secret.
    pub fn new(jwt_secret: String) -> (config: GatewayConfig)
        ensures
            config.heartbeat_interval_ms == 45000,
            config.handshake_timeout_secs == 30,
            config.resume_grace_secs == 90,
            config.replay_buffer_size == 1024,
            config.jwt_secret == jwt_secret,
    {
        GatewayConfig {
            heartbeat_interval_ms: DEFAULT_HEARTBEAT_INTERVAL_MS,
            handshake_timeout_secs: DEFAULT_HANDSHAKE_TIMEOUT_SECS,
            resume_grace_secs: DEFAULT_RESUME_GRACE_SECS,
            replay_buffer_size: DEFAULT_REPLAY_BUFFER_SIZE,
            jwt_secret,
        }
    }
}

} // verus!
