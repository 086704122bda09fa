//! Verified core of a push-to-talk speech-to-text tool.
pub mod text;
pub mod hotkey;
pub mod transcript;
pub mod injection;
pub mod stt;
pub mod audio;
pub mod config;
pub mod session;
pub mod overlay;
