//! The voice-activity-detection state machine.
//!
//! A capture session starts waiting for speech, buffers frames from the
//! first loud frame on, tolerates short dips below the silence threshold,
//! and finishes on sustained silence, on the maximum utterance duration,
//! or — having heard nothing at all — on the wait timeout. Each call of
//! `step` consumes one fixed-duration frame together with its RMS energy
//! (in 16-bit sample units, see `pcm::frame_energy`) and the time it was
//! captured.

use vstd::prelude::*;
use crate::rate_limiter::spec_elapsed_ms;

verus! {

/// Where the detector stands. `Done` is terminal.
#[derive(Clone, Copy, Debug, PartialEq, Eq, Structural)]
pub enum VadState {
    /// No speech heard yet; nothing is buffered.
    Waiting,
    /// Speech is being heard and buffered.
    Speaking,
    /// The signal dipped below the silence threshold; still buffering,
    /// waiting to see whether speech resumes.
    SilencePending,
    /// The capture is finished.
    Done,
}

/// The detector's thresholds and timeouts. Energies are in 16-bit sample
/// units, durations in milliseconds.
#[derive(Clone, Copy, Debug, PartialEq, Eq, Structural)]
pub struct VadConfig {
    /// A frame above this energy starts (or resumes) speech.
    pub speech_threshold: u32,
    /// A frame below this energy counts as silence while speaking.
    pub silence_threshold: u32,
    /// Sustained silence of this length ends the capture.
    pub silence_duration_ms: u64,
    /// An utterance is cut off after this long.
    pub max_duration_ms: u64,
    /// Waiting for speech gives up after this long.
    pub wait_timeout_ms: u64,
}

/// The mathematical state of a capture session.
#[verifier::ext_equal]
pub struct VadModel {
    pub config: VadConfig,
    pub state: VadState,
    pub started_at_ms: u64,
    pub speech_started_at_ms: u64,
    pub silence_started_at_ms: u64,
    pub buffer: Seq<i16>,
}

/// Whether a frame arriving in this state gets buffered: the frame that
/// triggers speech, and every frame while speaking or waiting out a dip.
pub open spec fn spec_buffers(m: VadModel, energy: u32) -> bool {
    match m.state {
        VadState::Waiting => energy > m.config.speech_threshold,
        VadState::Speaking => true,
        VadState::SilencePending => true,
        VadState::Done => false,
    }
}

/// One step of the state machine on a frame with the given energy at the
/// given time.
pub open spec fn spec_step(m: VadModel, frame: Seq<i16>, energy: u32, now_ms: u64) -> VadModel {
    match m.state {
        VadState::Waiting => {
            if energy > m.config.speech_threshold {
                VadModel {
                    state: VadState::Speaking,
                    speech_started_at_ms: now_ms,
                    buffer: m.buffer + frame,
                    ..m
                }
            } else if spec_elapsed_ms(now_ms, m.started_at_ms) >= m.config.wait_timeout_ms {
                VadModel { state: VadState::Done, ..m }
            } else {
                m
            }
        },
        VadState::Speaking => {
            if spec_elapsed_ms(now_ms, m.speech_started_at_ms) >= m.config.max_duration_ms {
                VadModel { state: VadState::Done, buffer: m.buffer + frame, ..m }
            } else if energy < m.config.silence_threshold {
                VadModel {
                    state: VadState::SilencePending,
                    silence_started_at_ms: now_ms,
                    buffer: m.buffer + frame,
                    ..m
                }
            } else {
                VadModel { buffer: m.buffer + frame, ..m }
            }
        },
        VadState::SilencePending => {
            if spec_elapsed_ms(now_ms, m.speech_started_at_ms) >= m.config.max_duration_ms {
                VadModel { state: VadState::Done, buffer: m.buffer + frame, ..m }
            } else if energy >= m.config.silence_threshold {
                VadModel { state: VadState::Speaking, buffer: m.buffer + frame, ..m }
            } else if spec_elapsed_ms(now_ms, m.silence_started_at_ms)
                >= m.config.silence_duration_ms {
                VadModel { state: VadState::Done, buffer: m.buffer + frame, ..m }
            } else {
                VadModel { buffer: m.buffer + frame, ..m }
            }
        },
        VadState::Done => m,
    }
}

/// One live capture session: the detector state plus the samples buffered
/// so far.
pub struct VadSession {
    pub config: VadConfig,
    pub state: VadState,
    pub started_at_ms: u64,
    pub speech_started_at_ms: u64,
    pub silence_started_at_ms: u64,
    pub buffer: Vec<i16>,
}

impl View for VadSession {
    type V = VadModel;

    open spec fn view(&self) -> VadModel {
        VadModel {
            config: self.config,
            state: self.state,
            started_at_ms: self.started_at_ms,
            speech_started_at_ms: self.speech_started_at_ms,
            silence_started_at_ms: self.silence_started_at_ms,
            buffer: self.buffer@,
        }
    }
}

impl VadSession {
    /// Open a session at `now`: waiting for speech, nothing buffered.
    pub fn new(config: VadConfig, now_ms: u64) -> (s: VadSession)
        ensures
            s@ == (VadModel {
                config,
                state: VadState::Waiting,
                started_at_ms: now_ms,
                speech_started_at_ms: now_ms,
                silence_started_at_ms: now_ms,
                buffer: Seq::<i16>::empty(),
            }),
    {
        let s = VadSession {
            config,
            state: VadState::Waiting,
            started_at_ms: now_ms,
            speech_started_at_ms: now_ms,
            silence_started_at_ms: now_ms,
            buffer: Vec::new(),
        };
        proof {
            assert(s@.buffer =~= Seq::<i16>::empty());
        }
        s
    }

    /// Feed one frame with its RMS energy, captured at `now`.
    pub fn step(&mut self, frame: &Vec<i16>, energy: u32, now_ms: u64)
        ensures
            final(self)@ == spec_step(old(self)@, frame@, energy, now_ms),
    {
        match self.state {
            VadState::Waiting => {
                if energy > self.config.speech_threshold {
                    self.state = VadState::Speaking;
                    self.speech_started_at_ms = now_ms;
                    self.buffer.extend_from_slice(frame.as_slice());
                } else {
                    let waited: u64 = if now_ms >= self.started_at_ms {
                        now_ms - self.started_at_ms
                    } else {
                        0
                    };
                    if waited >= self.config.wait_timeout_ms {
                        self.state = VadState::Done;
                    }
                }
            },
            VadState::Speaking => {
                self.buffer.extend_from_slice(frame.as_slice());
                let speaking: u64 = if now_ms >= self.speech_started_at_ms {
                    now_ms - self.speech_started_at_ms
                } else {
                    0
                };
                if speaking >= self.config.max_duration_ms {
                    self.state = VadState::Done;
                } else if energy < self.config.silence_threshold {
                    self.state = VadState::SilencePending;
                    self.silence_started_at_ms = now_ms;
                }
            },
            VadState::SilencePending => {
                self.buffer.extend_from_slice(frame.as_slice());
                let speaking: u64 = if now_ms >= self.speech_started_at_ms {
                    now_ms - self.speech_started_at_ms
                } else {
                    0
                };
                let silent: u64 = if now_ms >= self.silence_started_at_ms {
                    now_ms - self.silence_started_at_ms
                } else {
                    0
                };
                if speaking >= self.config.max_duration_ms {
                    self.state = VadState::Done;
                } else if energy >= self.config.silence_threshold {
                    self.state = VadState::Speaking;
                } else if silent >= self.config.silence_duration_ms {
                    self.state = VadState::Done;
                }
            },
            VadState::Done => {},
        }
        proof {
            assert(self@ =~= spec_step(old(self)@, frame@, energy, now_ms));
        }
    }

    /// Whether the capture is finished.
    pub fn is_done(&self) -> (r: bool)
        ensures
            r == (self@.state is Done),
    {
        match self.state {
            VadState::Done => true,
            _ => false,
        }
    }

    /// Hand the buffered samples out for recognition. An empty buffer
    /// yields `None`: recognition is never invoked for a capture that
    /// heard nothing.
    pub fn finalize(self) -> (r: Option<Vec<i16>>)
        ensures
            (r is Some) == (self@.buffer.len() > 0),
            r matches Some(b) ==> b@ == self@.buffer,
    {
        if self.buffer.len() > 0 {
            Some(self.buffer)
        } else {
            None
        }
    }
}

/// One step's worth of input to the detector.
pub struct VadInput {
    pub frame: Seq<i16>,
    pub energy: u32,
    pub now_ms: u64,
}

/// The model after feeding a whole sequence of inputs, in order.
pub open spec fn spec_run(m: VadModel, steps: Seq<VadInput>) -> VadModel
    decreases steps.len(),
{
    if steps.len() == 0 {
        m
    } else {
        spec_run(
            spec_step(m, steps[0].frame, steps[0].energy, steps[0].now_ms),
            steps.drop_first(),
        )
    }
}

/// The frames a run buffers, in order: each step contributes its frame
/// exactly when the detector was in a buffering position for it.
pub open spec fn spec_collected(m: VadModel, steps: Seq<VadInput>) -> Seq<i16>
    decreases steps.len(),
{
    if steps.len() == 0 {
        Seq::empty()
    } else {
        let added: Seq<i16> = if spec_buffers(m, steps[0].energy) {
            steps[0].frame
        } else {
            Seq::empty()
        };
        added + spec_collected(
            spec_step(m, steps[0].frame, steps[0].energy, steps[0].now_ms),
            steps.drop_first(),
        )
    }
}

/// A finished detector never moves again.
pub proof fn lemma_vad_done_stays(m: VadModel, steps: Seq<VadInput>)
    requires
        m.state is Done,
    ensures
        spec_run(m, steps) == m,
    decreases steps.len(),
{
    if steps.len() > 0 {
        lemma_vad_done_stays(m, steps.drop_first());
    }
}

/// What a run buffers is exactly the frames of its buffering steps, in
/// order, appended to what was already buffered: one finalized segment,
/// holding the triggering frame and everything while speaking or waiting
/// out a dip, and nothing else.
pub proof fn lemma_vad_collects(m: VadModel, steps: Seq<VadInput>)
    ensures
        spec_run(m, steps).buffer == m.buffer + spec_collected(m, steps),
    decreases steps.len(),
{
    if steps.len() == 0 {
        assert(m.buffer + spec_collected(m, steps) =~= m.buffer);
    } else {
        let m1 = spec_step(m, steps[0].frame, steps[0].energy, steps[0].now_ms);
        let added: Seq<i16> = if spec_buffers(m, steps[0].energy) {
            steps[0].frame
        } else {
            Seq::empty()
        };
        assert(m1.buffer =~= m.buffer + added);
        lemma_vad_collects(m1, steps.drop_first());
        assert(m.buffer + (added + spec_collected(m1, steps.drop_first())) =~= (m.buffer
            + added) + spec_collected(m1, steps.drop_first()));
    }
}

/// An all-silence signal yields nothing: a detector that is waiting and
/// has buffered nothing stays empty under frames at or below the speech
/// threshold, only ever moving from `Waiting` to `Done`; and once some
/// frame arrives at or after the wait timeout, it has finished — with an
/// empty buffer, so recognition is never invoked (`finalize` of an empty
/// session yields `None`).
pub proof fn lemma_vad_silence(m: VadModel, steps: Seq<VadInput>)
    requires
        m.state is Waiting,
        m.buffer.len() == 0,
        forall|i: int|
            0 <= i < steps.len() ==> (#[trigger] steps[i]).energy <= m.config.speech_threshold,
    ensures
        spec_run(m, steps).buffer.len() == 0,
        spec_run(m, steps).state is Waiting || spec_run(m, steps).state is Done,
        (exists|i: int|
            0 <= i < steps.len() && spec_elapsed_ms((#[trigger] steps[i]).now_ms, m.started_at_ms)
                >= m.config.wait_timeout_ms) ==> spec_run(m, steps).state is Done,
    decreases steps.len(),
{
    if steps.len() > 0 {
        let m1 = spec_step(m, steps[0].frame, steps[0].energy, steps[0].now_ms);
        let rest = steps.drop_first();
        assert(forall|i: int| 0 <= i < rest.len() ==> #[trigger] rest[i] == steps[i + 1]);
        if m1.state is Done {
            lemma_vad_done_stays(m1, rest);
        } else {
            assert(m1 == m);
            lemma_vad_silence(m, rest);
            if exists|i: int|
                0 <= i < steps.len() && spec_elapsed_ms(
                    (#[trigger] steps[i]).now_ms,
                    m.started_at_ms,
                ) >= m.config.wait_timeout_ms {
                let w = choose|i: int|
                    0 <= i < steps.len() && spec_elapsed_ms(
                        (#[trigger] steps[i]).now_ms,
                        m.started_at_ms,
                    ) >= m.config.wait_timeout_ms;
                assert(w != 0);
                assert(rest[w - 1] == steps[w]);
            }
        }
    }
}

} // verus!
