//! Anthropic Messages facade for coding clients, backed by Grok.
//!
//! This library holds what the bridge decides and computes: how a request is
//! translated, what a response stream becomes, which credentials, port and files
//! are used. Talking to the network, the disk and the terminal is left to the
//! program around it.

use vstd::prelude::*;

pub mod collector;
pub mod credentials;
pub mod epoch;
pub mod ids;
pub mod json;
pub mod json_order;
pub mod launcher;
pub mod live_auth;
pub mod monitor;
pub mod paths;
pub mod port_file;
pub mod reasoning_signature;
pub mod responses;
pub mod serve_config;
pub mod server;
pub mod sse;
pub mod stream_session;
pub mod text;
pub mod timestamp;
pub mod traffic;
pub mod translate;
pub mod upstream;
pub mod values;
pub mod whole_message;
pub mod wire;

pub use crate::credentials::{
    default_auth_json_path, load_session_from_contents, resolve_auth, AuthSource, ResolvedAuth,
};
pub use crate::epoch::{SessionEpoch, SessionRegistry};
pub use crate::json::Json;
pub use crate::launcher::{claude_bridge_env, loopback_base_url};
pub use crate::port_file::{
    default_port_file_path, parse_port_file_contents, port_file_from_env, prepare_sticky_port,
    resolve_listen_port, PortResolution, DEFAULT_PORT_FILE_NAME, PORT_FILE_ENV,
};
pub use crate::reasoning_signature::{
    decode_reasoning_signature, encode_reasoning_signature, PendingReasoning, ReasoningReplay,
};
pub use crate::serve_config::ServeConfig;
pub use crate::traffic::{TrafficBus, TrafficFrame, TrafficSide};

verus! {

/// Version of the library.
pub const VERSION: &'static str = "0.1.0";

} // verus!
