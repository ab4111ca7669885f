//! The configuration surface the pipeline consumes. Loading it from files
//! or the environment happens outside the library; the pipeline reads a
//! snapshot of these plain values per operation.

use vstd::prelude::*;

verus! {

/// One configuration snapshot. Volumes are in thousandths of full volume,
/// energies in 16-bit sample units, durations in milliseconds, sizes in
/// mebibytes.
#[derive(Debug, Clone, PartialEq, Eq)]
pub struct Settings {
    /// Default text-to-speech backend id.
    pub tts_backend: String,
    /// Default piper voice model id.
    pub piper_model: String,
    /// Path of the piper binary.
    pub piper_binary: String,
    /// Speech-to-text backend id.
    pub stt_backend: String,
    /// How many observations the reasoning memory keeps.
    pub memory_size: usize,
    /// Whether audio output is enabled at all.
    pub enable_audio: bool,
    /// The trigger phrase of the wake-word loop.
    pub wake_word: String,
    /// Whether the wake-word loop runs.
    pub enable_wake_word: bool,
    /// Frame energy above which speech starts.
    pub vad_speech_threshold: u32,
    /// Frame energy below which the signal counts as silence.
    pub vad_silence_threshold: u32,
    /// Sustained silence that ends a capture.
    pub vad_silence_duration_ms: u64,
    /// The longest utterance a capture records.
    pub vad_max_duration_ms: u64,
    /// Default playback volume.
    pub playback_volume_milli: u32,
    /// The largest single audio buffer a request may bring in.
    pub max_audio_size_mb: u64,
    /// The cap on bytes held in memory across all active sinks.
    pub audio_budget_mb: u64,
    /// Per-request timeout of remote-audio downloads, in seconds.
    pub playback_timeout_secs: u64,
    /// Per-minute quota of synthesis requests per caller.
    pub rate_tts_per_minute: u32,
    /// Per-minute quota of reasoning requests per caller.
    pub rate_ai_per_minute: u32,
    /// Per-minute quota of remote-audio requests per caller.
    pub rate_audio_per_minute: u32,
    /// Per-minute quota of capture requests per caller.
    pub rate_listen_per_minute: u32,
}

impl Settings {
    /// The per-request maximum audio size in bytes.
    pub fn max_audio_size_bytes(&self) -> (r: u64)
        requires
            self.max_audio_size_mb <= 0xffff_ffff,
        ensures
            r == self.max_audio_size_mb * 0x10_0000,
    {
        self.max_audio_size_mb * 0x10_0000
    }

    /// The global buffer budget in bytes.
    pub fn audio_budget_bytes(&self) -> (r: u64)
        requires
            self.audio_budget_mb <= 0xffff_ffff,
        ensures
            r == self.audio_budget_mb * 0x10_0000,
    {
        self.audio_budget_mb * 0x10_0000
    }
}

impl Default for Settings {
    /// The built-in defaults, used where no configuration file overrides
    /// them.
    fn default() -> (r: Settings)
        ensures
            r.tts_backend@ == "espeak"@,
            r.piper_model@ == "en_US-lessac-medium"@,
            r.piper_binary@ == "piper"@,
            r.stt_backend@ == "vosk"@,
            r.memory_size == 50,
            r.enable_audio,
            r.wake_word@ == "startuz"@,
            !r.enable_wake_word,
            r.vad_speech_threshold == 500,
            r.vad_silence_threshold == 400,
            r.vad_silence_duration_ms == 1500,
            r.vad_max_duration_ms == 15000,
            r.playback_volume_milli == 1000,
            r.max_audio_size_mb == 50,
            r.audio_budget_mb == 200,
            r.playback_timeout_secs == 30,
            r.rate_tts_per_minute == 30,
            r.rate_ai_per_minute == 10,
            r.rate_audio_per_minute == 20,
            r.rate_listen_per_minute == 30,
    {
        Settings {
            tts_backend: String::from_str("espeak"),
            piper_model: String::from_str("en_US-lessac-medium"),
            piper_binary: String::from_str("piper"),
            stt_backend: String::from_str("vosk"),
            memory_size: 50,
            enable_audio: true,
            wake_word: String::from_str("startuz"),
            enable_wake_word: false,
            vad_speech_threshold: 500,
            vad_silence_threshold: 400,
            vad_silence_duration_ms: 1500,
            vad_max_duration_ms: 15000,
            playback_volume_milli: 1000,
            max_audio_size_mb: 50,
            audio_budget_mb: 200,
            playback_timeout_secs: 30,
            rate_tts_per_minute: 30,
            rate_ai_per_minute: 10,
            rate_audio_per_minute: 20,
            rate_listen_per_minute: 30,
        }
    }
}

} // verus!
