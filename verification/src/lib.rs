//! Connection lifecycle engine of a real-time chat gateway: handshake,
//! identify/resume arbitration, heartbeat supervision, event fan-out with
//! sequence numbers, and session resumption from a bounded replay window.
//!
//! The engine is a set of state machines over plain values. Whatever moves
//! bytes or waits on a clock feeds them events and carries out the actions
//! they answer with. The module `api` holds the rules of a few HTTP routes
//! in the same manner.

pub mod api;
pub mod client;
pub mod clock;
pub mod config;
pub mod decimal;
pub mod error;
pub mod handshake;
pub mod heartbeat;
pub mod replay;
pub mod resume;
pub mod store;
pub mod task;
pub mod user;
pub mod wire;
