//! Core of a local voice-assistant daemon: the speech I/O pipeline.
//!
//! The library holds the verified logic of the pipeline: voice-spec
//! resolution and backend routing, the output engine's sink and
//! buffer-budget accounting, the download admission checks, the
//! voice-activity-detection state machine with its integer signal
//! processing, and the token-bucket rate limiter. Device, process and
//! network I/O live outside the library and drive it with plain values.

pub mod backends;
pub mod channel;
pub mod config;
pub mod context;
pub mod ear;
pub mod engine;
pub mod pcm;
pub mod rate_limiter;
pub mod registry;
pub mod text;
pub mod vad;

pub use channel::Pan;
