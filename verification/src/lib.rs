//! Rule-driven connection router and relay.
//!
//! The crate models a proxy core: typed network addresses, per-connection
//! metadata, an ordered rule engine that picks a named outbound backend, a
//! registry of outbound backends, an incremental HTTP/1.1 request decoder,
//! the per-connection dispatch state machine with its mutually exclusive
//! timers, and the bidirectional relay bookkeeping. All decision logic is
//! verified; socket and timer plumbing lives outside the library.

pub use config::{Config, Mode};

pub mod address;
pub mod config;
pub mod date;
pub mod digits;
pub mod dispatch;
pub mod http_codec;
pub mod http_render;
pub mod meta;
pub mod outbound;
pub mod relay;
pub mod router;
pub mod rules;
pub mod tun;
