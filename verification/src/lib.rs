//! Real-time capture/control pipeline for a remotely rendered device surface.
//!
//! The crate keeps one live session against one endpoint: a capture side that
//! continuously republishes the latest rendered frame through a lock-free
//! exchange, a command side that serializes taps and swipes against the device
//! transport, a bounded sampler for capture-latency statistics, and a
//! template-matching recognizer that resolves a captured frame to a known
//! page and its interactive elements.

pub mod clock;
pub mod command;
pub mod errors;
pub mod exchange;
pub mod img;
pub mod platform;
pub mod recognizer;
pub mod sampler;
pub mod score;
pub mod session;
pub mod stats;
pub mod transport;
