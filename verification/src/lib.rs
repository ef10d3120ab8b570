//! Core rules of an edge forward-proxy node that is registered with, and
//! governed by, a central control plane.
//!
//! The crate holds the decisions of the node: which targets a request may
//! reach, whether a request carries a valid signature, how pushed policy is
//! merged into the live configuration, what the heartbeat loop does with each
//! answer of the control plane, and how the configuration form reacts to keys.
//! Sockets, timers and terminals stay with the caller.
//!
//! - `target_filter`, `ip_literal`, `ip_text`, `ip_round_trip`, `net`: the
//!   target check and the IP addresses it reads and writes.
//! - `auth`: canonical text, freshness and signature of a request.
//! - `headers`, `proxy`: hop-by-hop headers, and the decision on a request.
//! - `dynamic_config`, `heartbeat`, `control_plane`: the live policy and the
//!   heartbeat loop.
//! - `setup`: the configuration form.
//! - `bytes_text`, `chars`: text as bytes and as characters.

pub mod auth;
pub mod bytes_text;
pub mod chars;
pub mod control_plane;
pub mod dynamic_config;
pub mod headers;
pub mod heartbeat;
pub mod ip_literal;
pub mod ip_round_trip;
pub mod ip_text;
pub mod net;
pub mod proxy;
pub mod setup;
pub mod target_filter;
