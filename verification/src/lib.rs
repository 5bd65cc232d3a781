//! Verified core of op-cached: the in-memory store of encrypted values, the
//! line framing of the daemon protocol, the daemon's request decisions, the
//! client's reply checks and the configuration precedence rules.
pub mod time;
pub mod cache;
pub mod text;
pub mod protocol;
pub mod duration_bound;
pub mod config;
pub mod client;
pub mod daemon;
