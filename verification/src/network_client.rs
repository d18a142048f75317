//! Data shapes of the network status reported by the `peach-network`
//! service.
//!
//! The RPC calls themselves are plain request/response passthrough and live
//! in the process around the library; these are the values they carry.

use vstd::prelude::*;

verus! {

/// One scanned access point.
#[derive(Debug)]
pub struct Scan {
    pub protocol: String,
    pub frequency: String,
    pub signal_level: String,
    pub ssid: String,
}

/// The state of an access point, with scan detail and signal where known.
#[derive(Debug)]
pub struct AccessPoint {
    pub detail: Option<Scan>,
    pub signal: Option<i32>,
    pub state: String,
}

/// One saved network.
#[derive(Debug)]
pub struct Networks {
    pub ssid: String,
}

} // verus!
