//! Configuration of a link: data rate, timeouts, delays and the identity
//! markers of the devices to accept.

use crate::identity::texts_of;
use vstd::prelude::*;
use vstd::string::StringExecFns;

verus! {

/// Data rate of the serial link, in bits per second.
pub const DATA_RATE: u32 = 230400;

/// Read timeout while streaming, in milliseconds.
pub const STREAM_TIMEOUT_MS: u64 = 5000;

/// Read timeout while a candidate is probed, in milliseconds.
pub const PROBE_TIMEOUT_MS: u64 = 1000;

/// Time given to a candidate to identify itself, in milliseconds.
pub const PROBE_WINDOW_MS: u64 = 2000;

/// Delay between the start command and the first read, in milliseconds.
pub const SETTLE_DELAY_MS: u64 = 4;

/// Delay before discovery is tried again, in milliseconds.
pub const RETRY_DELAY_MS: u64 = 5000;

/// Command that makes the device stream frames.
pub const START_COMMAND: &'static str = "START\r\n";

/// Command that makes the device name itself.
pub const IDENTIFY_COMMAND: &'static str = "WHORU\n";

/// The numbers a link is run with.
#[derive(Clone, Copy, Debug, PartialEq, Eq, Structural)]
pub struct LinkParams {
    /// Data rate, in bits per second.
    pub data_rate: u32,
    /// Read timeout while streaming, in milliseconds.
    pub stream_timeout_ms: u64,
    /// Read timeout while a candidate is probed, in milliseconds.
    pub probe_timeout_ms: u64,
    /// Time given to a candidate to identify itself, in milliseconds.
    pub probe_window_ms: u64,
    /// Delay between the start command and the first read, in milliseconds.
    pub settle_delay_ms: u64,
    /// Delay before discovery is tried again, in milliseconds.
    pub retry_delay_ms: u64,
}

impl LinkParams {
    /// The default rate, timeouts and delays.
    pub open spec fn standard_params() -> LinkParams {
        LinkParams {
            data_rate: DATA_RATE,
            stream_timeout_ms: STREAM_TIMEOUT_MS,
            probe_timeout_ms: PROBE_TIMEOUT_MS,
            probe_window_ms: PROBE_WINDOW_MS,
            settle_delay_ms: SETTLE_DELAY_MS,
            retry_delay_ms: RETRY_DELAY_MS,
        }
    }

    /// The default rate, timeouts and delays.
    pub fn standard() -> (params: Self)
        ensures
            params == Self::standard_params(),
    {
        LinkParams {
            data_rate: DATA_RATE,
            stream_timeout_ms: STREAM_TIMEOUT_MS,
            probe_timeout_ms: PROBE_TIMEOUT_MS,
            probe_window_ms: PROBE_WINDOW_MS,
            settle_delay_ms: SETTLE_DELAY_MS,
            retry_delay_ms: RETRY_DELAY_MS,
        }
    }
}

/// What a link is run with: its numbers, and the identity markers of the
/// devices to accept.
pub struct LinkConfig {
    pub params: LinkParams,
    pub identity_markers: Vec<String>,
}

impl LinkConfig {
    /// The markers of the two device models accepted by default.
    pub open spec fn standard_markers() -> Seq<Seq<char>> {
        seq!["UNO-R4"@, "UNO-R3"@]
    }

    /// The configuration with the default numbers and markers.
    pub fn standard() -> (config: Self)
        ensures
            config.params == LinkParams::standard_params(),
            texts_of(config.identity_markers@) == Self::standard_markers(),
    {
        let mut identity_markers: Vec<String> = Vec::new();
        identity_markers.push(String::from_str("UNO-R4"));
        identity_markers.push(String::from_str("UNO-R3"));
        assert(texts_of(identity_markers@) =~= Self::standard_markers());
        LinkConfig { params: LinkParams::standard(), identity_markers }
    }
}

} // verus!
