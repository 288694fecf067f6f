//! Shared types: peers, session states and application roles.
use vstd::prelude::*;

verus! {

/// An IP address, by its octets in network order.
#[derive(Debug, Clone, Copy, PartialEq, Eq)]
pub enum IpAddress {
    V4([u8; 4]),
    V6([u8; 16]),
}

/// A network endpoint: IP address and port.
#[derive(Debug, Clone, Copy, PartialEq, Eq)]
pub struct SocketAddress {
    pub ip: IpAddress,
    pub port: u16,
}

/// Information about a discovered peer on the network.
#[derive(Debug, Clone)]
pub struct PeerInfo {
    /// Peer's human-readable hostname.
    pub hostname: String,
    /// Peer's network address (IP + signaling port).
    pub addr: SocketAddress,
    /// Whether this peer is acting as a host (offering screen extension).
    pub is_host: bool,
}

/// Represents the current state of a streaming session.
#[derive(Debug, Clone, Copy, PartialEq, Eq, Structural)]
pub enum SessionState {
    /// Not connected to any peer.
    Disconnected,
    /// Discovering peers on the network.
    Discovering,
    /// Found a peer, waiting for PIN authentication.
    Authenticating,
    /// Authenticated, negotiating WebRTC connection.
    Negotiating,
    /// Actively streaming.
    Streaming,
    /// An error occurred.
    Error,
}

impl SessionState {
    /// The text shown for a session state.
    pub fn as_str(&self) -> (s: &'static str)
        ensures
            s@ == match *self {
                SessionState::Disconnected => "Disconnected"@,
                SessionState::Discovering => "Discovering..."@,
                SessionState::Authenticating => "Authenticating..."@,
                SessionState::Negotiating => "Negotiating..."@,
                SessionState::Streaming => "Streaming"@,
                SessionState::Error => "Error"@,
            },
    {
        match self {
            SessionState::Disconnected => "Disconnected",
            SessionState::Discovering => "Discovering...",
            SessionState::Authenticating => "Authenticating...",
            SessionState::Negotiating => "Negotiating...",
            SessionState::Streaming => "Streaming",
            SessionState::Error => "Error",
        }
    }
}

/// Application role: each instance acts as either Host or Client.
#[derive(Debug, Clone, Copy, PartialEq, Eq, Structural)]
pub enum AppRole {
    /// Host: shares its extended display to the network.
    Host,
    /// Client: receives and renders the extended display.
    Client,
}

impl AppRole {
    /// The text shown for a role.
    pub fn as_str(&self) -> (s: &'static str)
        ensures
            s@ == match *self {
                AppRole::Host => "Host"@,
                AppRole::Client => "Client"@,
            },
    {
        match self {
            AppRole::Host => "Host",
            AppRole::Client => "Client",
        }
    }
}

} // verus!
