use screenextend::config::{hostname_or_unknown, AppConfig, SessionType};
use screenextend::protocol::{
    Resolution, DEFAULT_SIGNALING_PORT, MDNS_SERVICE_TYPE, PROTOCOL_VERSION,
};
use screenextend::types::{AppRole, SessionState};

#[test]
fn resolutions() {
    assert_eq!(Resolution::fhd(), Resolution::new(1920, 1080));
    assert_eq!(Resolution::hd(), Resolution { width: 1280, height: 720 });
    assert_eq!(Resolution::fhd().to_display_string(), "1920x1080");
    assert_eq!(Resolution::new(0, 7).to_display_string(), "0x7");
    assert_eq!(Resolution::new(4294967295, 10).to_display_string(), "4294967295x10");
}

#[test]
fn constants() {
    assert_eq!(PROTOCOL_VERSION, 1);
    assert_eq!(DEFAULT_SIGNALING_PORT, 9876);
    assert_eq!(MDNS_SERVICE_TYPE, "_screenextend._tcp.local.");
}

#[test]
fn default_config() {
    let c = AppConfig::default();
    assert_eq!(c.signaling_port, 9876);
    assert_eq!(c.resolution, Resolution::fhd());
    assert_eq!(c.framerate, 60);
    assert_eq!(c.video_bitrate_kbps, 15_000);
    assert!(c.prefer_hw_encoding);
    let named = AppConfig::with_hostname("desk".to_string());
    assert_eq!(named.hostname, "desk");
    assert_eq!(named.framerate, 60);
}

#[test]
fn hostname_fallback() {
    assert_eq!(hostname_or_unknown(None), "unknown");
    assert_eq!(hostname_or_unknown(Some("box".to_string())), "box");
}

#[test]
fn session_types() {
    assert_eq!(SessionType::detect("x11"), SessionType::X11);
    assert_eq!(SessionType::detect("X11"), SessionType::X11);
    assert_eq!(SessionType::detect("Wayland"), SessionType::Wayland);
    assert_eq!(SessionType::detect("WAYLAND"), SessionType::Wayland);
    assert_eq!(SessionType::detect(""), SessionType::Unknown);
    assert_eq!(SessionType::detect("tty"), SessionType::Unknown);
    assert_eq!(SessionType::from_lowercase_name("X11"), SessionType::Unknown);
    assert_eq!(SessionType::X11.as_str(), "X11");
    assert_eq!(SessionType::Wayland.as_str(), "Wayland");
    assert_eq!(SessionType::Unknown.as_str(), "Unknown");
}

#[test]
fn state_and_role_names() {
    assert_eq!(SessionState::Disconnected.as_str(), "Disconnected");
    assert_eq!(SessionState::Discovering.as_str(), "Discovering...");
    assert_eq!(SessionState::Authenticating.as_str(), "Authenticating...");
    assert_eq!(SessionState::Negotiating.as_str(), "Negotiating...");
    assert_eq!(SessionState::Streaming.as_str(), "Streaming");
    assert_eq!(SessionState::Error.as_str(), "Error");
    assert_eq!(AppRole::Host.as_str(), "Host");
    assert_eq!(AppRole::Client.as_str(), "Client");
}
