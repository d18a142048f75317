//! Shared state layer of a small home-server platform: a lock-protected,
//! schema-tolerant configuration store and the dynamic-DNS
//! registration/update/staleness engine built on top of it.
//!
//! The library holds the verified logic: the configuration document codec,
//! the field setters, the dyndns decision functions and the staleness
//! arithmetic. The surrounding process — file reads and writes, the
//! filesystem lock, subprocess and RPC calls — hands these functions plain
//! values and persists what they return.

pub mod config_codec;
pub mod config_manager;
pub mod dyndns_client;
pub mod error;
pub mod network_client;
pub mod password_utils;
pub mod strutil;
pub mod timestamp;
