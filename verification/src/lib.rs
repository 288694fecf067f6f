//! ScreenExtend: the protocol, discovery, display, input and streaming
//! decisions of a peer-to-peer screen extension tool, with their contracts.
pub mod text;
pub mod protocol;
pub mod config;
pub mod types;
pub mod handshake;
pub mod discovery;
pub mod display;
pub mod xrandr;
pub mod input;
pub mod streaming;
