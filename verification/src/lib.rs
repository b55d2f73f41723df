//! Telemetry link core: framing of a serial byte stream into samples, device
//! discovery by identity string, and the connection supervisor's state machine.

pub mod config;
pub mod decoder;
pub mod discovery;
pub mod frame;
pub mod identity;
pub mod stream_laws;
pub mod supervisor;
