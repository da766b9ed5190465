//! A log relay: structured log events produced inside a process are fanned
//! out to a dynamic set of remote subscribers over per-client channels.
//!
//! The crate verifies the relay's core: the client registry and broadcast
//! engine ([`registry`]), the noise filter that keeps transport chatter from
//! feeding back into the relay ([`filter`]), the adapter that turns raw
//! instrumentation events into wire messages ([`adapter`]), the subscription
//! protocol state machine ([`protocol`]), and the reconnect/backoff policy
//! ([`backoff`]).

pub mod adapter;
pub mod backoff;
pub mod chan;
pub mod clock;
pub mod config;
pub mod filter;
pub mod msg;
pub mod numfmt;
pub mod protocol;
pub mod registry;
pub mod text;

pub use config::{LogConfig, LogOutput};
pub use msg::LogMessage;
pub use protocol::ClientType;
pub use registry::LoggingService;

use vstd::prelude::*;

verus! {

/// The identity a caller presents when subscribing: its id, a numeric
/// client-type code, and (for server peers) a display name.
pub struct ConnectionInfo {
    pub client_id: String,
    pub client_type: i32,
    pub server_name: String,
}

} // verus!
