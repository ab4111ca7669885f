use speechd_ng::channel::{channel_vols, Pan};
use speechd_ng::engine::{AudioEngine, CapacityError};

fn full_pan() -> Pan {
    Pan { left: 1000, right: 1000 }
}

#[test]
fn budget_balances_over_admissions_and_completions() {
    let mut e = AudioEngine::new(1000, 400, 1000);
    assert_eq!(e.budget_used, 0);

    let id1 = e.admit_buffer(300, full_pan(), false, None).unwrap();
    let id2 = e.admit_buffer(400, full_pan(), true, None).unwrap();
    assert_eq!(e.budget_used, 700);
    assert_eq!(e.sinks.len(), 2);

    // A third buffer no longer fits in the global budget.
    assert_eq!(
        e.admit_buffer(400, full_pan(), false, None),
        Err(CapacityError::GlobalBudget)
    );
    assert_eq!(e.budget_used, 700);

    // Draining releases exactly what each sink reserved.
    let (bytes1, fire1) = e.finish_sink(id1).unwrap();
    assert_eq!((bytes1, fire1), (300, false));
    assert_eq!(e.budget_used, 400);

    // A sink is released at most once.
    assert_eq!(e.finish_sink(id1), None);
    assert_eq!(e.budget_used, 400);

    let (bytes2, fire2) = e.finish_sink(id2).unwrap();
    assert_eq!((bytes2, fire2), (400, true));
    assert_eq!(e.budget_used, 0);
    assert_eq!(e.sinks.len(), 0);
}

#[test]
fn oversized_buffer_is_rejected_per_request() {
    let mut e = AudioEngine::new(10_000, 400, 1000);
    assert_eq!(
        e.admit_buffer(401, full_pan(), false, None),
        Err(CapacityError::PerRequestLimit)
    );
    assert_eq!(e.budget_used, 0);
    assert_eq!(e.sinks.len(), 0);
}

#[test]
fn stop_audio_with_no_sinks_reports_false() {
    let mut e = AudioEngine::new(1000, 400, 1000);
    assert!(!e.stop_audio());
    assert_eq!(e.budget_used, 0);
}

#[test]
fn stop_audio_drops_every_sink_and_releases_their_bytes() {
    let mut e = AudioEngine::new(1000, 400, 1000);
    e.admit_buffer(300, full_pan(), false, None).unwrap();
    e.admit_buffer(200, full_pan(), true, None).unwrap();
    assert_eq!(e.budget_used, 500);

    assert!(e.stop_audio());
    assert_eq!(e.sinks.len(), 0);
    assert_eq!(e.budget_used, 0);

    assert!(!e.stop_audio());
}

#[test]
fn set_volume_clamps_and_applies_to_active_sinks() {
    let mut e = AudioEngine::new(1000, 400, 800);
    e.admit_buffer(100, full_pan(), false, None).unwrap();
    assert_eq!(e.sinks[0].volume, 800);

    // A request below zero clamps to silence.
    assert!(e.set_volume(-1));
    assert_eq!(e.volume, 0);
    assert_eq!(e.sinks[0].volume, 0);

    // A request above full volume clamps to full.
    assert!(e.set_volume(5000));
    assert_eq!(e.volume, 1000);
    assert_eq!(e.sinks[0].volume, 1000);

    // New sinks pick up the default.
    let id = e.admit_buffer(100, full_pan(), false, None).unwrap();
    let idx = e.sinks.iter().position(|s| s.id == id).unwrap();
    assert_eq!(e.sinks[idx].volume, 1000);
}

#[test]
fn playback_status_reports_the_latest_url() {
    let e = AudioEngine::new(1000, 400, 1000);
    assert_eq!(e.get_playback_status(), (false, String::new()));

    let mut e = AudioEngine::new(1000, 400, 1000);
    e.admit_buffer(10, full_pan(), false, None).unwrap();
    e.admit_buffer(
        10,
        full_pan(),
        false,
        Some(String::from("http://radio.example/a.ogg")),
    )
    .unwrap();
    let (playing, url) = e.get_playback_status();
    assert!(playing);
    assert_eq!(url, "http://radio.example/a.ogg");
}

#[test]
fn oversized_content_length_is_rejected_before_any_body_bytes() {
    let mut e = AudioEngine::new(10_000, 400, 1000);
    e.admit_buffer(300, full_pan(), false, None).unwrap();

    // Declared length over the per-request maximum.
    assert_eq!(
        e.begin_download(Some(401)),
        Err(CapacityError::PerRequestLimit)
    );
    // Declared length that would not fit the remaining budget.
    let mut small = AudioEngine::new(500, 400, 1000);
    small.admit_buffer(300, full_pan(), false, None).unwrap();
    assert_eq!(
        small.begin_download(Some(250)),
        Err(CapacityError::GlobalBudget)
    );

    // The budget is untouched by rejected downloads.
    assert_eq!(e.budget_used, 300);
    assert_eq!(small.budget_used, 300);

    // An absent header admits; the per-chunk checks take over.
    assert!(e.begin_download(None).is_ok());
}

#[test]
fn understated_content_length_aborts_mid_stream_with_budget_unchanged() {
    let mut e = AudioEngine::new(10_000, 100, 1000);

    // The header looks fine, but the body turns out larger.
    let mut guard = e.begin_download(Some(50)).unwrap();
    assert!(guard.on_chunk(60).is_ok());
    assert_eq!(guard.received, 60);
    assert_eq!(
        guard.on_chunk(60),
        Err(CapacityError::PerRequestLimit)
    );
    // The failed chunk left the guard as it was, and nothing was ever
    // reserved: the budget is unchanged, with no partial reservation.
    assert_eq!(guard.received, 60);
    assert_eq!(e.budget_used, 0);
    assert_eq!(e.sinks.len(), 0);
}

#[test]
fn completed_download_reserves_only_on_admission() {
    let mut e = AudioEngine::new(10_000, 400, 1000);
    let mut guard = e.begin_download(Some(90)).unwrap();
    assert!(guard.on_chunk(50).is_ok());
    assert!(guard.on_chunk(40).is_ok());
    assert_eq!(e.budget_used, 0);
    let id = e
        .admit_buffer(
            guard.received,
            channel_vols("stereo", e.volume),
            false,
            Some(String::from("http://radio.example/b.ogg")),
        )
        .unwrap();
    assert_eq!(e.budget_used, 90);
    assert_eq!(e.finish_sink(id), Some((90, false)));
    assert_eq!(e.budget_used, 0);
}
