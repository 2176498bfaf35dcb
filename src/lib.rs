//! The real-time speech pipeline of a voice assistant: capture conversion and relay,
//! endpointing of a streaming recognizer, re-chunking of decoded speech, underrun-safe
//! playback buffering, device and session bookkeeping, and the session context.

pub mod capture;
pub mod channel;
pub mod coordinator;
pub mod db;
pub mod device;
pub mod error;
pub mod globals;
pub mod playback;
pub mod recognizer;
pub mod sample;
pub mod settings;
pub mod synthesis;
