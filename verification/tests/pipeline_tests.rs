use speechd_ng::channel::{channel_vols, Pan};
use speechd_ng::config::Settings;
use speechd_ng::context::EnvironmentalContext;
use speechd_ng::ear::{Ear, WakeAction, WakeCommand, WakeEvent, WakePhase};
use speechd_ng::text;

#[test]
fn channel_table_at_full_volume() {
    assert_eq!(channel_vols("left", 1000), Pan { left: 1000, right: 0 });
    assert_eq!(channel_vols("right", 1000), Pan { left: 0, right: 1000 });
    assert_eq!(channel_vols("center", 1000), Pan { left: 700, right: 700 });
    assert_eq!(channel_vols("stereo", 1000), Pan { left: 1000, right: 1000 });
    // An unknown tag means full stereo.
    assert_eq!(channel_vols("both", 1000), Pan { left: 1000, right: 1000 });
}

#[test]
fn channel_tags_are_case_insensitive() {
    // These would fall through to the stereo default if the tag were not
    // lower-cased first.
    assert_eq!(channel_vols("LEFT", 1000), Pan { left: 1000, right: 0 });
    assert_eq!(channel_vols("Center", 500), Pan { left: 350, right: 350 });
}

#[test]
fn pan_scales_with_the_current_volume() {
    assert_eq!(channel_vols("left", 600), Pan { left: 600, right: 0 });
    assert_eq!(channel_vols("center", 500), Pan { left: 350, right: 350 });
    assert_eq!(channel_vols("stereo", 0), Pan { left: 0, right: 0 });
}

#[test]
fn physical_devices_are_preferred_and_dummies_skipped() {
    let ear = Ear::new();
    let names = vec![
        String::from("null"),
        String::from("Monitor of Built-in Audio"),
        String::from("USB Composite Device"),
        String::from("CARD=Headset,DEV=0"),
    ];
    // The preferred physical device wins over the earlier acceptable one.
    assert_eq!(ear.select_input_device(&names), Some(3));

    let names = vec![
        String::from("default"),
        String::from("jack"),
        String::from("USB Composite Device"),
    ];
    // No preferred name: the first acceptable device.
    assert_eq!(ear.select_input_device(&names), Some(2));

    let names = vec![String::from("null"), String::from("Monitor of X")];
    // Everything skipped: the caller falls back to the host default.
    assert_eq!(ear.select_input_device(&names), None);
}

#[test]
fn detector_lines_and_command_dispositions() {
    let ear = Ear::new();
    assert!(ear.is_detection("DETECTED"));
    assert!(ear.is_detection("  DETECTED\n"));
    assert!(!ear.is_detection("detected"));
    assert!(!ear.is_detection("DETECTED maybe"));

    assert_eq!(ear.command_action("turn on the lights"), WakeAction::Respond);
    assert_eq!(ear.command_action(""), WakeAction::SayNothingHeard);
    assert_eq!(ear.command_action(" \t\n"), WakeAction::SayNothingHeard);
}

#[test]
fn text_helpers() {
    assert!(text::starts_with("piper:en", "piper:"));
    assert!(!text::starts_with("pip", "piper:"));
    assert!(text::ends_with("voice.onnx", ".onnx"));
    assert!(!text::ends_with("onnx", ".onnx"));
    assert!(text::contains("Monitor of Built-in Audio", "Monitor"));
    assert!(!text::contains("USB Mic", "Monitor"));
    assert!(text::contains("abc", ""));
    assert_eq!(text::trim("  a b \n"), "a b");
    assert_eq!(text::trim("\t\r\n "), "");
    assert!(text::is_blank(""));
    assert!(text::is_blank(" \t"));
    assert!(!text::is_blank(" x "));
    assert!(text::str_eq("abc", "abc"));
    assert!(!text::str_eq("abc", "abd"));
    assert_eq!(text::find_char("a:b:c", ':'), Some(1));
    assert_eq!(text::find_char("abc", ':'), None);
}

#[test]
fn default_settings() {
    let s = Settings::default();
    assert_eq!(s.tts_backend, "espeak");
    assert_eq!(s.piper_model, "en_US-lessac-medium");
    assert_eq!(s.piper_binary, "piper");
    assert_eq!(s.stt_backend, "vosk");
    assert_eq!(s.memory_size, 50);
    assert!(s.enable_audio);
    assert_eq!(s.wake_word, "startuz");
    assert!(!s.enable_wake_word);
    assert_eq!(s.vad_speech_threshold, 500);
    assert_eq!(s.vad_silence_threshold, 400);
    assert_eq!(s.vad_silence_duration_ms, 1500);
    assert_eq!(s.vad_max_duration_ms, 15000);
    assert_eq!(s.playback_volume_milli, 1000);
    assert_eq!(s.max_audio_size_bytes(), 50 * 1024 * 1024);
    assert_eq!(s.audio_budget_bytes(), 200 * 1024 * 1024);
}

#[test]
fn prompt_fragment_names_window_and_application() {
    let ctx = EnvironmentalContext {
        active_window: String::from("editor - notes.txt"),
        active_app: String::from("editor"),
    };
    assert_eq!(
        ctx.to_prompt_fragment(),
        "\n[ENVIRONMENTAL CONTEXT]\nActive Window: editor - notes.txt\nActive Application: editor\n"
    );
}

#[test]
fn wake_loop_transitions() {
    let ear = Ear::new();

    // A healthy iteration: device, detection, command, restart.
    assert_eq!(
        ear.wake_step(WakePhase::SelectingDevice, &WakeEvent::DeviceReady),
        (WakePhase::WatchingForWakeWord, WakeCommand::OpenStream)
    );
    assert_eq!(
        ear.wake_step(
            WakePhase::WatchingForWakeWord,
            &WakeEvent::DetectorLine(String::from("chatter")),
        ),
        (WakePhase::WatchingForWakeWord, WakeCommand::KeepWatching)
    );
    assert_eq!(
        ear.wake_step(
            WakePhase::WatchingForWakeWord,
            &WakeEvent::DetectorLine(String::from("DETECTED\n")),
        ),
        (WakePhase::CapturingCommand, WakeCommand::AcknowledgeAndCapture)
    );
    assert_eq!(
        ear.wake_step(
            WakePhase::CapturingCommand,
            &WakeEvent::CommandCaptured(String::from("what time is it")),
        ),
        (WakePhase::BackingOff, WakeCommand::ForwardCommand)
    );
    assert_eq!(
        ear.wake_step(WakePhase::BackingOff, &WakeEvent::BackoffElapsed),
        (WakePhase::SelectingDevice, WakeCommand::SelectDevice)
    );

    // Failure paths lead through the backoff into a full restart.
    assert_eq!(
        ear.wake_step(WakePhase::SelectingDevice, &WakeEvent::DeviceFailed),
        (WakePhase::BackingOff, WakeCommand::Backoff)
    );
    assert_eq!(
        ear.wake_step(WakePhase::WatchingForWakeWord, &WakeEvent::DetectorEnded),
        (WakePhase::BackingOff, WakeCommand::Backoff)
    );

    // An empty capture speaks the fallback instead of forwarding.
    assert_eq!(
        ear.wake_step(
            WakePhase::CapturingCommand,
            &WakeEvent::CommandCaptured(String::from("  \n")),
        ),
        (WakePhase::BackingOff, WakeCommand::SpeakFallback)
    );

    // An event from another phase changes nothing.
    assert_eq!(
        ear.wake_step(WakePhase::BackingOff, &WakeEvent::DeviceReady),
        (WakePhase::BackingOff, WakeCommand::Ignore)
    );
}
