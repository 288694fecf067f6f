//! Application configuration and the kind of graphical session.
use vstd::prelude::*;
use crate::protocol::{Resolution, DEFAULT_SIGNALING_PORT};
use crate::text::{chars_eq, chars_of, to_string};

verus! {

/// Application configuration.
#[derive(Debug, Clone)]
pub struct AppConfig {
    /// Display name for this machine on the network.
    pub hostname: String,
    /// Signaling port for TCP connections.
    pub signaling_port: u16,
    /// Default streaming resolution.
    pub resolution: Resolution,
    /// Default framerate.
    pub framerate: u32,
    /// Video bitrate in kbps.
    pub video_bitrate_kbps: u32,
    /// Whether to attempt hardware encoding.
    pub prefer_hw_encoding: bool,
}

/// The defaults of every field but the machine's name, which is given.
pub open spec fn default_config_for(hostname: Seq<char>, c: AppConfig) -> bool {
    &&& c.hostname@ == hostname
    &&& c.signaling_port == DEFAULT_SIGNALING_PORT
    &&& c.resolution == Resolution { width: 1920, height: 1080 }
    &&& c.framerate == 60
    &&& c.video_bitrate_kbps == 15_000
    &&& c.prefer_hw_encoding
}

impl AppConfig {
    /// The default configuration for a machine of the given name.
    pub fn with_hostname(hostname: String) -> (c: Self)
        ensures
            default_config_for(hostname@, c),
    {
        AppConfig {
            hostname,
            signaling_port: DEFAULT_SIGNALING_PORT,
            resolution: Resolution::fhd(),
            framerate: 60,
            video_bitrate_kbps: 15_000,
            prefer_hw_encoding: true,
        }
    }
}

impl Default for AppConfig {
    /// The default configuration, named after this machine.
    fn default() -> (c: Self)
        ensures
            c.signaling_port == DEFAULT_SIGNALING_PORT,
            c.resolution == (Resolution { width: 1920, height: 1080 }),
            c.framerate == 60,
            c.video_bitrate_kbps == 15_000,
            c.prefer_hw_encoding,
    {
        AppConfig::with_hostname(gethostname())
    }
}

/// Reads the system hostname with `hostname::get`, converting it lossily to
/// UTF-8; `None` where the system call fails. What the name is depends on
/// the machine, so nothing is stated of it.
#[verifier::external_body]
fn read_system_hostname() -> Option<String> {
    match hostname::get() {
        Ok(name) => Some(name.to_string_lossy().into_owned()),
        Err(_) => None,
    }
}

/// The name to use for this machine: the one read, or `"unknown"`.
pub fn hostname_or_unknown(read: Option<String>) -> (name: String)
    ensures
        name@ == match read {
            Some(n) => n@,
            None => "unknown"@,
        },
{
    match read {
        Some(n) => n,
        None => to_string("unknown"),
    }
}

/// Get the system hostname, falling back to "unknown".
pub fn gethostname() -> String {
    hostname_or_unknown(read_system_hostname())
}

/// Detected session type on this Linux system.
#[derive(Debug, Clone, Copy, PartialEq, Eq, Structural)]
pub enum SessionType {
    X11,
    Wayland,
    Unknown,
}

/// What `str::to_lowercase` gives for a string.
pub uninterp spec fn lowercase(s: Seq<char>) -> Seq<char>;

/// `str::to_lowercase`: its result is named, not restated.
#[verifier::external_body]
fn to_lowercase(s: &str) -> (r: String)
    ensures
        r@ == lowercase(s@),
{
    s.to_lowercase()
}

/// The session type that a lower-cased session name denotes.
pub open spec fn session_type_named(name: Seq<char>) -> SessionType {
    if name == "x11"@ {
        SessionType::X11
    } else if name == "wayland"@ {
        SessionType::Wayland
    } else {
        SessionType::Unknown
    }
}

impl SessionType {
    /// The session type that an already lower-cased name denotes.
    pub fn from_lowercase_name(name: &str) -> (t: SessionType)
        ensures
            t == session_type_named(name@),
    {
        let n = chars_of(name);
        let x11 = chars_of("x11");
        let wayland = chars_of("wayland");
        proof {
            reveal_strlit("x11");
            reveal_strlit("wayland");
        }
        if chars_eq(n.as_slice(), x11.as_slice()) {
            SessionType::X11
        } else if chars_eq(n.as_slice(), wayland.as_slice()) {
            SessionType::Wayland
        } else {
            SessionType::Unknown
        }
    }

    /// The session type that a value of `XDG_SESSION_TYPE` denotes, compared
    /// without regard to case; an unset variable is read as the empty string.
    pub fn detect(value: &str) -> (t: SessionType)
        ensures
            t == session_type_named(lowercase(value@)),
    {
        let lowered = to_lowercase(value);
        Self::from_lowercase_name(lowered.as_str())
    }

    /// The name shown for a session type.
    pub fn as_str(&self) -> (s: &'static str)
        ensures
            s@ == match *self {
                SessionType::X11 => "X11"@,
                SessionType::Wayland => "Wayland"@,
                SessionType::Unknown => "Unknown"@,
            },
    {
        match self {
            SessionType::X11 => "X11",
            SessionType::Wayland => "Wayland",
            SessionType::Unknown => "Unknown",
        }
    }
}

} // verus!
