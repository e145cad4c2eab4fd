//! Supported platforms and their connection endpoints.
//!
//! The endpoint is held as plain values (IPv4 octets and a port) so the
//! address policy itself is checked; turning it into a socket address is the
//! caller's concern.

use vstd::prelude::*;

verus! {

/// A controllable platform.
#[derive(Clone, Copy, Debug, PartialEq, Eq, Structural)]
pub enum Platform {
    MuMu,
}

/// Where to reach a platform's debug bridge: IPv4 octets and a port.
#[derive(Clone, Copy, Debug, PartialEq, Eq, Structural)]
pub struct PlatformConnectInfo {
    pub ip_a: u8,
    pub ip_b: u8,
    pub ip_c: u8,
    pub ip_d: u8,
    pub adb_port: u16,
}

impl Platform {
    /// The debug-bridge endpoint of this platform: the local loopback
    /// address on the platform's fixed port.
    pub fn adb_addr(&self) -> (r: PlatformConnectInfo)
        ensures
            r == (match self {
                Platform::MuMu => PlatformConnectInfo {
                    ip_a: 127u8,
                    ip_b: 0u8,
                    ip_c: 0u8,
                    ip_d: 1u8,
                    adb_port: 16384u16,
                },
            }),
    {
        match self {
            Platform::MuMu => PlatformConnectInfo {
                ip_a: 127,
                ip_b: 0,
                ip_c: 0,
                ip_d: 1,
                adb_port: 16384,
            },
        }
    }
}

} // verus!
