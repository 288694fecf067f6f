//! Protocol messages exchanged between host and client over the signaling
//! channel, with the constants both sides agree on.
use vstd::prelude::*;
use crate::text::{decimal, push_decimal, string_from_chars};

verus! {

/// Current protocol version.
pub const PROTOCOL_VERSION: u32 = 1;

/// Default signaling port.
pub const DEFAULT_SIGNALING_PORT: u16 = 9876;

/// mDNS service type for discovery. Its service name (`screenextend`, 12
/// bytes) stays within the 15 bytes that mDNS service names may take.
pub const MDNS_SERVICE_TYPE: &'static str = "_screenextend._tcp.local.";

/// Display resolution.
#[derive(Debug, Clone, Copy, PartialEq, Eq, Structural)]
pub struct Resolution {
    pub width: u32,
    pub height: u32,
}

/// How a resolution is written for people: `"<width>x<height>"`.
pub open spec fn resolution_text(r: Resolution) -> Seq<char> {
    decimal(r.width as nat).push('x') + decimal(r.height as nat)
}

impl Resolution {
    pub fn new(width: u32, height: u32) -> (r: Self)
        ensures
            r.width == width,
            r.height == height,
    {
        Resolution { width, height }
    }

    /// Standard 1080p resolution.
    pub fn fhd() -> (r: Self)
        ensures
            r.width == 1920,
            r.height == 1080,
    {
        Self::new(1920, 1080)
    }

    /// Standard 720p resolution.
    pub fn hd() -> (r: Self)
        ensures
            r.width == 1280,
            r.height == 720,
    {
        Self::new(1280, 720)
    }

    /// The resolution written as `"<width>x<height>"`, e.g. `"1920x1080"`.
    pub fn to_display_string(&self) -> (s: String)
        ensures
            s@ == resolution_text(*self),
    {
        let mut out: Vec<char> = Vec::new();
        push_decimal(&mut out, self.width);
        out.push('x');
        push_decimal(&mut out, self.height);
        assert(out@ =~= resolution_text(*self));
        string_from_chars(out.as_slice())
    }
}

/// Mouse button identifiers.
#[derive(Debug, Clone, Copy, PartialEq, Eq, Structural)]
pub enum MouseButton {
    Left,
    Right,
    Middle,
    Back,
    Forward,
}

/// Input event sent from client to host.
///
/// Pointer coordinates and scroll amounts are `f64` values on the wire;
/// here each one is held as its IEEE-754 bit pattern (`f64::to_bits`), so
/// that the event can be carried and inspected without floating point.
#[derive(Debug, Clone, Copy, PartialEq, Eq, Structural)]
pub enum InputEvent {
    /// Mouse movement (relative coordinates).
    MouseMove { dx: u64, dy: u64 },
    /// Mouse movement (absolute coordinates within the virtual display).
    MouseMoveAbsolute { x: u64, y: u64 },
    /// Mouse button press/release.
    MouseButton { button: MouseButton, pressed: bool },
    /// Mouse scroll wheel.
    MouseScroll { dx: u64, dy: u64 },
    /// Keyboard key press/release (Linux evdev keycode).
    Key { keycode: u32, pressed: bool },
}

/// Host capabilities announced during discovery.
#[derive(Debug, Clone)]
pub struct AnnouncePayload {
    /// Human-readable hostname.
    pub hostname: String,
    /// Available display resolution on the host.
    pub resolution: Resolution,
    /// Whether the host supports hardware encoding.
    pub hw_encoding: bool,
    /// Protocol version for compatibility checks.
    pub protocol_version: u32,
}

/// PIN authentication request from client.
#[derive(Debug, Clone)]
pub struct PinRequestPayload {
    /// The 4-digit PIN entered by the user.
    pub pin: String,
    /// Client's hostname for display purposes.
    pub client_hostname: String,
}

/// PIN authentication response from host.
#[derive(Debug, Clone)]
pub struct PinResponsePayload {
    /// Whether the PIN was accepted.
    pub accepted: bool,
    /// Optional rejection reason.
    pub reason: Option<String>,
}

/// WebRTC Session Description Protocol payload.
#[derive(Debug, Clone)]
pub struct SdpPayload {
    /// SDP type: "offer" or "answer".
    pub sdp_type: String,
    /// The SDP string.
    pub sdp: String,
}

/// WebRTC ICE candidate.
#[derive(Debug, Clone)]
pub struct IceCandidatePayload {
    /// The ICE candidate string.
    pub candidate: String,
    /// SDP media line index.
    pub sdp_m_line_index: u32,
}

/// Session lifecycle control.
#[derive(Debug, Clone, Copy, PartialEq, Eq, Structural)]
pub enum SessionControlPayload {
    /// Request to start streaming.
    Start { resolution: Resolution, framerate: u32 },
    /// Request to stop streaming.
    Stop,
    /// Graceful disconnect.
    Disconnect,
    /// Ping for keepalive.
    Ping { timestamp_ms: u64 },
    /// Pong response.
    Pong { timestamp_ms: u64 },
}

/// Top-level signaling message envelope.
#[derive(Debug, Clone)]
pub enum SignalingMessage {
    /// Host announces its presence and capabilities.
    Announce(AnnouncePayload),
    /// Client sends PIN to authenticate.
    PinRequest(PinRequestPayload),
    /// Host responds to PIN attempt.
    PinResponse(PinResponsePayload),
    /// WebRTC SDP offer (from host).
    SdpOffer(SdpPayload),
    /// WebRTC SDP answer (from client).
    SdpAnswer(SdpPayload),
    /// WebRTC ICE candidate exchange.
    IceCandidate(IceCandidatePayload),
    /// Session control messages.
    SessionControl(SessionControlPayload),
    /// Input event forwarded from client to host.
    Input(InputEvent),
}

} // verus!
