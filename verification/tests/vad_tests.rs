use speechd_ng::pcm::{downmix_mono, frame_energy, isqrt_u64};
use speechd_ng::vad::{VadConfig, VadSession, VadState};

fn config() -> VadConfig {
    VadConfig {
        speech_threshold: 500,
        silence_threshold: 400,
        silence_duration_ms: 1500,
        max_duration_ms: 15000,
        wait_timeout_ms: 3000,
    }
}

fn silent_frame() -> Vec<i16> {
    vec![0; 160]
}

fn loud_frame() -> Vec<i16> {
    vec![8000; 160]
}

#[test]
fn isqrt_values() {
    assert_eq!(isqrt_u64(0), 0);
    assert_eq!(isqrt_u64(1), 1);
    assert_eq!(isqrt_u64(10), 3);
    assert_eq!(isqrt_u64(16), 4);
    assert_eq!(isqrt_u64(u64::MAX), 0xffff_ffff);
}

#[test]
fn frame_energy_is_integer_rms() {
    assert_eq!(frame_energy(&vec![0; 160]), 0);
    assert_eq!(frame_energy(&vec![5, 5, 5, 5]), 5);
    assert_eq!(frame_energy(&vec![-5, 5, -5, 5]), 5);
    assert_eq!(frame_energy(&vec![8000; 160]), 8000);
    // Mean square of [3, 4] is 12 (truncated); its integer root is 3.
    assert_eq!(frame_energy(&vec![3, 4]), 3);
}

#[test]
fn all_silence_times_out_with_empty_buffer_and_no_recognition() {
    let mut s = VadSession::new(config(), 0);
    let frame = silent_frame();
    let mut now: u64 = 0;
    // Silence for longer than the wait timeout, one 10 ms frame at a time.
    while now <= 3500 {
        let energy = frame_energy(&frame);
        assert_eq!(energy, 0);
        s.step(&frame, energy, now);
        now += 10;
    }
    assert_eq!(s.state, VadState::Done);
    assert_eq!(s.buffer.len(), 0);
    // An empty capture never reaches the recognition backend.
    assert_eq!(s.finalize(), None);
}

#[test]
fn speech_then_sustained_silence_yields_one_segment_with_the_loud_portion() {
    let mut s = VadSession::new(config(), 0);
    let quiet = silent_frame();
    let loud = loud_frame();
    let mut now: u64 = 0;

    // Half a second of leading silence: not buffered.
    while now < 500 {
        s.step(&quiet, frame_energy(&quiet), now);
        now += 10;
    }
    assert_eq!(s.state, VadState::Waiting);
    assert_eq!(s.buffer.len(), 0);

    // One second above the speech threshold: buffered from the first loud
    // frame on.
    let speech_start = now;
    while now < speech_start + 1000 {
        s.step(&loud, frame_energy(&loud), now);
        now += 10;
    }
    assert_eq!(s.state, VadState::Speaking);
    assert_eq!(s.buffer.len(), 100 * 160);
    assert!(s.buffer.iter().all(|&v| v == 8000));

    // Silence again: the detector waits out the configured duration while
    // still buffering, then finishes.
    let mut steps_in_silence = 0;
    while s.state != VadState::Done {
        s.step(&quiet, frame_energy(&quiet), now);
        now += 10;
        steps_in_silence += 1;
        assert!(steps_in_silence <= 200, "detector failed to finish");
    }
    // 1500 ms of trailing silence at 10 ms per frame, plus the frame that
    // crossed the threshold.
    assert_eq!(steps_in_silence, 151);

    // Exactly one finalized segment: the loud portion, plus the bounded
    // trailing dip the detector waited out, and nothing before it.
    let buffer = s.buffer.clone();
    assert_eq!(&buffer[..100 * 160], &vec![8000i16; 100 * 160][..]);
    assert!(buffer[100 * 160..].iter().all(|&v| v == 0));
    let samples = s.finalize().unwrap();
    assert_eq!(samples, buffer);
}

#[test]
fn short_dip_resumes_speaking() {
    let mut s = VadSession::new(config(), 0);
    let loud = loud_frame();
    let quiet = silent_frame();
    s.step(&loud, frame_energy(&loud), 0);
    assert_eq!(s.state, VadState::Speaking);
    s.step(&quiet, frame_energy(&quiet), 10);
    assert_eq!(s.state, VadState::SilencePending);
    // Speech resumes before the silence duration passes.
    s.step(&loud, frame_energy(&loud), 20);
    assert_eq!(s.state, VadState::Speaking);
}

#[test]
fn max_duration_cuts_an_utterance_off() {
    let mut s = VadSession::new(config(), 0);
    let loud = loud_frame();
    s.step(&loud, frame_energy(&loud), 0);
    assert_eq!(s.state, VadState::Speaking);
    s.step(&loud, frame_energy(&loud), 14990);
    assert_eq!(s.state, VadState::Speaking);
    s.step(&loud, frame_energy(&loud), 15000);
    assert_eq!(s.state, VadState::Done);
}

#[test]
fn downmix_averages_interleaved_chunks() {
    assert_eq!(downmix_mono(&vec![10, 20, 30, 50], 2), vec![15, 40]);
    // Rounds toward zero, as the hardware path does.
    assert_eq!(downmix_mono(&vec![-10, -21], 2), vec![-15]);
    // A trailing incomplete chunk is dropped.
    assert_eq!(downmix_mono(&vec![1, 2, 3], 2), vec![1]);
    // Mono passes through.
    assert_eq!(downmix_mono(&vec![7, -7], 1), vec![7, -7]);
}
