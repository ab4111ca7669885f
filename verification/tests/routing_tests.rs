use speechd_ng::backends::espeak::EspeakBackend;
use speechd_ng::backends::piper::{replace_underscores, PiperBackend};
use speechd_ng::backends::whisper::WhisperBackend;
use speechd_ng::backends::{BackendError, SpeechBackend, Voice};
use speechd_ng::registry::{download_voice_target, prefix_voices, BackendRegistry};

fn registry() -> BackendRegistry {
    let mut reg = BackendRegistry::new();
    assert!(reg.register(String::from("espeak"), None));
    assert!(reg.register(
        String::from("piper"),
        Some(String::from("en_US-lessac-medium")),
    ));
    reg
}

#[test]
fn prefixed_spec_resolves_to_that_backend_with_the_prefix_stripped() {
    let reg = registry();
    let r = reg
        .resolve(&Some(String::from("piper:en_US-x")), "espeak")
        .unwrap();
    assert_eq!(r.backend_id, "piper");
    assert_eq!(r.voice_id.as_deref(), Some("en_US-x"));
}

#[test]
fn bare_spec_resolves_to_the_default_backend() {
    let reg = registry();
    let r = reg
        .resolve(&Some(String::from("en_US-x")), "espeak")
        .unwrap();
    assert_eq!(r.backend_id, "espeak");
    assert_eq!(r.voice_id.as_deref(), Some("en_US-x"));
}

#[test]
fn absent_spec_falls_to_the_default_backend_and_its_fixed_voice() {
    let reg = registry();
    let r = reg.resolve(&None, "piper").unwrap();
    assert_eq!(r.backend_id, "piper");
    assert_eq!(r.voice_id.as_deref(), Some("en_US-lessac-medium"));

    // A backend without a fixed default voice leaves the voice open.
    let r = reg.resolve(&None, "espeak").unwrap();
    assert_eq!(r.backend_id, "espeak");
    assert_eq!(r.voice_id, None);
}

#[test]
fn unknown_backend_resolves_to_nothing() {
    let reg = registry();
    assert!(reg.resolve(&None, "festival").is_none());
    assert!(reg
        .resolve(&Some(String::from("en_US-x")), "festival")
        .is_none());
}

#[test]
fn duplicate_registration_is_refused() {
    let mut reg = registry();
    assert!(!reg.register(String::from("piper"), None));
    assert_eq!(reg.entries.len(), 2);
}

#[test]
fn listed_voices_carry_their_backend_prefix() {
    let voices = vec![
        Voice {
            id: String::from("en-us"),
            name: String::from("english-us"),
            language: String::from("en-us"),
        },
        Voice {
            id: String::from("de"),
            name: String::from("german"),
            language: String::from("de"),
        },
    ];
    let out = prefix_voices("espeak", voices);
    assert_eq!(out.len(), 2);
    assert_eq!(out[0].id, "espeak:en-us");
    assert_eq!(out[0].name, "english-us");
    assert_eq!(out[1].id, "espeak:de");
    assert_eq!(out[1].language, "de");
}

#[test]
fn download_target_splits_at_the_first_colon() {
    let (backend, voice) = download_voice_target("espeak:en-us");
    assert_eq!(backend, "espeak");
    assert_eq!(voice, "en-us");
    // A bare id goes to the voice-download backend.
    let (backend, voice) = download_voice_target("en_US-x");
    assert_eq!(backend, "piper");
    assert_eq!(voice, "en_US-x");
    // Only the first colon splits.
    let (backend, voice) = download_voice_target("a:b:c");
    assert_eq!(backend, "a");
    assert_eq!(voice, "b:c");
}

#[test]
fn espeak_synthesis_arguments() {
    let b = EspeakBackend::new();
    assert_eq!(
        b.synthesize_args("hello world", Some("en-us")),
        vec!["--stdout", "-v", "en-us", "hello world"]
    );
    assert_eq!(
        b.synthesize_args("hello", None),
        vec!["--stdout", "hello"]
    );
}

#[test]
fn piper_file_names_and_catalog_records() {
    let p = PiperBackend::new(
        String::from("piper"),
        String::from("/home/u/.local/share/piper/models"),
    );
    let (onnx, config) = p.model_file_paths("en_US-x");
    assert_eq!(onnx, "/home/u/.local/share/piper/models/en_US-x.onnx");
    assert_eq!(
        config,
        "/home/u/.local/share/piper/models/en_US-x.onnx.json"
    );
    assert_eq!(p.fallback_voice(), "en_US-lessac-medium");

    assert_eq!(replace_underscores("en_US-x"), "en US-x");

    let v = p.voice_from_metadata("en_US-x", Some(String::from("low")), Some(String::from("en-us")));
    assert_eq!(v.id, "en_US-x");
    assert_eq!(v.name, "en US-x (low)");
    assert_eq!(v.language, "en-us");
    let v = p.voice_from_metadata("en_US-x", None, None);
    assert_eq!(v.name, "en US-x");
    assert_eq!(v.language, "unknown");

    let v = p.catalog_voice("en_US-x", Some(String::from("Lessac")), Some(String::from("low")), None);
    assert_eq!(v.id, "en_US-x");
    assert_eq!(v.name, "Lessac (low)");
    assert_eq!(v.language, "unknown");
    let v = p.catalog_voice("en_US-x", None, None, Some(String::from("English")));
    assert_eq!(v.name, "en_US-x (unknown)");
    assert_eq!(v.language, "English");

    assert!(p.is_voice_asset("en/en_US/x/low/en_US-x-low.onnx"));
    assert!(p.is_voice_asset("en/en_US/x/low/en_US-x-low.onnx.json"));
    assert!(!p.is_voice_asset("en/en_US/x/low/MODEL_CARD"));
    assert_eq!(
        p.download_url("en/en_US/x/low/en_US-x-low.onnx"),
        "https://huggingface.co/rhasspy/piper-voices/resolve/main/en/en_US/x/low/en_US-x-low.onnx"
    );
}

struct SilentBackend;

impl SpeechBackend for SilentBackend {
    fn synthesize(&self, _text: &str, _voice: Option<&str>) -> Result<Vec<u8>, BackendError> {
        Ok(Vec::new())
    }

    fn list_voices(&self) -> Result<Vec<Voice>, BackendError> {
        Ok(Vec::new())
    }
}

#[test]
fn backend_defaults_offer_no_downloads() {
    let b = SilentBackend;
    assert_eq!(b.list_downloadable_voices(), Ok(Vec::new()));
    assert_eq!(b.download_voice("x"), Err(BackendError::Unsupported));
}

#[test]
fn test_resample() {
    let backend = WhisperBackend::new("", "en");
    let input = vec![1, 2, 3, 4];
    let output = backend.resample(&input, 8000, 16000);
    assert!(output.len() > input.len());
}

#[test]
fn resample_interpolates_between_source_samples() {
    let backend = WhisperBackend::new("", "en");
    assert_eq!(
        backend.resample(&vec![0, 100], 8000, 16000),
        vec![0, 50, 100, 100]
    );
    // Downsampling halves the length.
    assert_eq!(
        backend.resample(&vec![0, 10, 20, 30], 16000, 8000),
        vec![0, 20]
    );
    // The rate unchanged reproduces the input.
    assert_eq!(
        backend.resample(&vec![5, -5, 7], 16000, 16000),
        vec![5, -5, 7]
    );
}
