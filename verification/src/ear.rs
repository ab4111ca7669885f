//! The capture engine's decisions: which input device the wake-word loop
//! opens, what counts as a detection event from the external wake-word
//! detector, and what to do with a transcribed command. Opening devices,
//! piping frames to the detector and transcribing happen outside the
//! library; they hand device names, detector lines and transcripts in and
//! perform the actions decided here. The per-frame detection logic itself
//! is the state machine in `vad`.

use vstd::prelude::*;
use crate::text;

verus! {

/// The capture engine.
pub struct Ear;

/// Device names that are skipped outright: null and dummy devices,
/// monitors of outputs, and the bare JACK port.
pub open spec fn spec_skip_device(name: Seq<char>) -> bool {
    ||| name == "null"@
    ||| name == "default"@
    ||| text::spec_contains(name, "Monitor"@)
    ||| name == "jack"@
}

/// Device names that look like real physical microphones and are taken
/// first.
pub open spec fn spec_preferred_device(name: Seq<char>) -> bool {
    ||| text::spec_contains(name, "CARD="@)
    ||| text::spec_contains(name, "Headset"@)
    ||| text::spec_contains(name, "Built-in"@)
}

/// What the wake loop does with a transcribed command.
#[derive(Clone, Copy, Debug, PartialEq, Eq, Structural)]
pub enum WakeAction {
    /// Hand the command to the reasoning collaborator and speak its reply.
    Respond,
    /// Nothing was heard: speak the fallback instead.
    SayNothingHeard,
}

impl Ear {
    pub fn new() -> (r: Ear)
        ensures
            r == Ear,
    {
        Ear
    }

    /// Pick the input device the capture loop opens: the first device that
    /// looks like a real physical microphone; failing that, the first that
    /// is not skipped outright; failing that, none (the caller falls back
    /// to the host's default input device).
    pub fn select_input_device(&self, names: &Vec<String>) -> (r: Option<usize>)
        ensures
            (exists|i: int|
                0 <= i < names@.len() && !spec_skip_device((#[trigger] names@[i])@)
                    && spec_preferred_device(names@[i]@)) ==> exists|i: int|
                {
                    &&& 0 <= i < names@.len()
                    &&& !spec_skip_device((#[trigger] names@[i])@)
                    &&& spec_preferred_device(names@[i]@)
                    &&& forall|j: int|
                        0 <= j < i ==> spec_skip_device((#[trigger] names@[j])@)
                            || !spec_preferred_device(names@[j]@)
                    &&& r == Some(i as usize)
                },
            (forall|i: int|
                0 <= i < names@.len() ==> spec_skip_device((#[trigger] names@[i])@)
                    || !spec_preferred_device(names@[i]@)) ==> ((exists|i: int|
                0 <= i < names@.len() && !spec_skip_device((#[trigger] names@[i])@)) ==> exists|
                i: int,
            |
                {
                    &&& 0 <= i < names@.len()
                    &&& !spec_skip_device((#[trigger] names@[i])@)
                    &&& forall|j: int| 0 <= j < i ==> spec_skip_device((#[trigger] names@[j])@)
                    &&& r == Some(i as usize)
                }),
            (forall|i: int| 0 <= i < names@.len() ==> spec_skip_device((#[trigger] names@[i])@))
                ==> r is None,
    {
        let n = names.len();
        let mut first_ok: Option<usize> = None;
        let mut i: usize = 0;
        while i < n
            invariant
                i <= n,
                n == names@.len(),
                forall|j: int|
                    0 <= j < i ==> spec_skip_device((#[trigger] names@[j])@)
                        || !spec_preferred_device(names@[j]@),
                match first_ok {
                    Some(f) => f < i && !spec_skip_device(names@[f as int]@) && forall|j: int|
                        0 <= j < f ==> spec_skip_device((#[trigger] names@[j])@),
                    None => forall|j: int|
                        0 <= j < i ==> spec_skip_device((#[trigger] names@[j])@),
                },
            decreases n - i,
        {
            let name = names[i].as_str();
            let skip = text::str_eq(name, "null") || text::str_eq(name, "default")
                || text::contains(name, "Monitor") || text::str_eq(name, "jack");
            if !skip {
                if text::contains(name, "CARD=") || text::contains(name, "Headset")
                    || text::contains(name, "Built-in") {
                    return Some(i);
                }
                if first_ok.is_none() {
                    first_ok = Some(i);
                }
            }
            i = i + 1;
        }
        first_ok
    }

    /// Whether a line from the external wake-word detector reports a
    /// detection: it reads `DETECTED` once trimmed.
    pub fn is_detection(&self, line: &str) -> (r: bool)
        ensures
            r == (text::spec_trimmed(line@) == "DETECTED"@),
    {
        let trimmed = text::trim(line);
        text::str_eq(trimmed, "DETECTED")
    }

    /// What to do with the command a triggered capture transcribed: hand
    /// it to the reasoning collaborator, unless nothing but blank space was
    /// heard.
    pub fn command_action(&self, transcript: &str) -> (r: WakeAction)
        ensures
            (r == WakeAction::Respond) == !text::spec_is_blank(transcript@),
    {
        if text::is_blank(transcript) {
            WakeAction::SayNothingHeard
        } else {
            WakeAction::Respond
        }
    }

    /// One turn of the supervised wake-word loop: from the current phase
    /// and what just happened, the next phase and the action to perform.
    /// Every failure path leads through `BackingOff` into a full restart,
    /// so each iteration allocates its own device and detector pipe.
    pub fn wake_step(&self, phase: WakePhase, event: &WakeEvent) -> (r: (WakePhase, WakeCommand))
        ensures
            phase is SelectingDevice ==> (match event {
                WakeEvent::DeviceReady => r == (
                    WakePhase::WatchingForWakeWord,
                    WakeCommand::OpenStream,
                ),
                WakeEvent::DeviceFailed => r == (WakePhase::BackingOff, WakeCommand::Backoff),
                _ => r == (phase, WakeCommand::Ignore),
            }),
            phase is WatchingForWakeWord ==> (match event {
                WakeEvent::DetectorLine(line) => {
                    if text::spec_trimmed(line@) == "DETECTED"@ {
                        r == (WakePhase::CapturingCommand, WakeCommand::AcknowledgeAndCapture)
                    } else {
                        r == (WakePhase::WatchingForWakeWord, WakeCommand::KeepWatching)
                    }
                },
                WakeEvent::DetectorEnded => r == (WakePhase::BackingOff, WakeCommand::Backoff),
                _ => r == (phase, WakeCommand::Ignore),
            }),
            phase is CapturingCommand ==> (match event {
                WakeEvent::CommandCaptured(transcript) => {
                    if text::spec_is_blank(transcript@) {
                        r == (WakePhase::BackingOff, WakeCommand::SpeakFallback)
                    } else {
                        r == (WakePhase::BackingOff, WakeCommand::ForwardCommand)
                    }
                },
                _ => r == (phase, WakeCommand::Ignore),
            }),
            phase is BackingOff ==> (match event {
                WakeEvent::BackoffElapsed => r == (
                    WakePhase::SelectingDevice,
                    WakeCommand::SelectDevice,
                ),
                _ => r == (phase, WakeCommand::Ignore),
            }),
    {
        match phase {
            WakePhase::SelectingDevice => match event {
                WakeEvent::DeviceReady => (WakePhase::WatchingForWakeWord, WakeCommand::OpenStream),
                WakeEvent::DeviceFailed => (WakePhase::BackingOff, WakeCommand::Backoff),
                _ => (phase, WakeCommand::Ignore),
            },
            WakePhase::WatchingForWakeWord => match event {
                WakeEvent::DetectorLine(line) => {
                    if self.is_detection(line.as_str()) {
                        (WakePhase::CapturingCommand, WakeCommand::AcknowledgeAndCapture)
                    } else {
                        (WakePhase::WatchingForWakeWord, WakeCommand::KeepWatching)
                    }
                },
                WakeEvent::DetectorEnded => (WakePhase::BackingOff, WakeCommand::Backoff),
                _ => (phase, WakeCommand::Ignore),
            },
            WakePhase::CapturingCommand => match event {
                WakeEvent::CommandCaptured(transcript) => {
                    match self.command_action(transcript.as_str()) {
                        WakeAction::SayNothingHeard => (
                            WakePhase::BackingOff,
                            WakeCommand::SpeakFallback,
                        ),
                        WakeAction::Respond => (WakePhase::BackingOff, WakeCommand::ForwardCommand),
                    }
                },
                _ => (phase, WakeCommand::Ignore),
            },
            WakePhase::BackingOff => match event {
                WakeEvent::BackoffElapsed => (WakePhase::SelectingDevice, WakeCommand::SelectDevice),
                _ => (phase, WakeCommand::Ignore),
            },
        }
    }
}

/// Where the supervised wake-word loop stands.
#[derive(Clone, Copy, Debug, PartialEq, Eq, Structural)]
pub enum WakePhase {
    /// Picking an input device for a fresh iteration.
    SelectingDevice,
    /// Streaming frames to the external detector, reading its lines.
    WatchingForWakeWord,
    /// Running one detector-bounded capture for the command utterance.
    CapturingCommand,
    /// Waiting out the bounded backoff before a full restart.
    BackingOff,
}

/// What the loop's driver observed.
pub enum WakeEvent {
    /// An input device was selected and configured.
    DeviceReady,
    /// No usable input device, or its configuration failed.
    DeviceFailed,
    /// One line arrived from the detector process.
    DetectorLine(String),
    /// The detector process exited, or the stream failed.
    DetectorEnded,
    /// The bounded capture finished with this transcript.
    CommandCaptured(String),
    /// The backoff has elapsed.
    BackoffElapsed,
}

/// What the loop's driver must do next.
#[derive(Clone, Copy, Debug, PartialEq, Eq, Structural)]
pub enum WakeCommand {
    /// Enumerate input devices and pick one (`select_input_device`).
    SelectDevice,
    /// Open the capture stream and the detector pipe.
    OpenStream,
    /// Keep forwarding frames and reading detector lines.
    KeepWatching,
    /// Tear down the pipe, speak the acknowledgement, and run one
    /// detector-bounded capture.
    AcknowledgeAndCapture,
    /// Hand the captured command to the reasoning collaborator and speak
    /// its reply.
    ForwardCommand,
    /// Nothing was heard: speak the fallback instead.
    SpeakFallback,
    /// Sleep out the bounded backoff.
    Backoff,
    /// The event does not belong to this phase; do nothing.
    Ignore,
}

} // verus!
