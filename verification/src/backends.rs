//! The uniform capability interface of speech synthesis backends, and the
//! voice records they report.

use vstd::prelude::*;

pub mod espeak;
pub mod piper;
pub mod whisper;

verus! {

/// A text-to-speech voice as a backend reports it.
#[derive(Debug, Clone, PartialEq, Eq)]
pub struct Voice {
    pub id: String,
    pub name: String,
    pub language: String,
}

/// Why a backend call failed.
#[derive(Debug, Clone, PartialEq, Eq)]
pub enum BackendError {
    /// The backend does not offer this operation.
    Unsupported,
    /// The external engine was killed after its wall-clock timeout.
    TimedOut,
    /// The external engine failed; its words.
    Failed(String),
}

/// What every synthesis backend offers. Implementations wrap external
/// engines and processes, so they live outside the library; the core
/// treats them as opaque capabilities and routes requests to them by id.
pub trait SpeechBackend {
    /// Synthesized audio bytes for the text, with an optional specific
    /// voice.
    fn synthesize(&self, text: &str, voice: Option<&str>) -> Result<Vec<u8>, BackendError>;

    /// The voices installed locally.
    fn list_voices(&self) -> Result<Vec<Voice>, BackendError>;

    /// The voices available for download; none unless the backend offers
    /// downloads.
    fn list_downloadable_voices(&self) -> Result<Vec<Voice>, BackendError> {
        Ok(Vec::new())
    }

    /// Download a voice by id; unsupported unless the backend offers
    /// downloads.
    fn download_voice(&self, voice_id: &str) -> Result<(), BackendError> {
        let _ = voice_id;
        Err(BackendError::Unsupported)
    }
}

} // verus!
