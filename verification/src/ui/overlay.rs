//! The transient recording overlay: which workflow phases show it, what it
//! says, how it fades, and the window-manager contract that keeps it from
//! taking the focus the paste needs.

use vstd::prelude::*;

use crate::text::{decimal, decimal_chars, push_char};

verus! {

pub const OVERLAY_WIDTH: u32 = 143;
pub const OVERLAY_HEIGHT: u32 = 56;
pub const OVERLAY_BOTTOM_GAP: u32 = 72;
pub const WAVEFORM_SOURCE_BIN_COUNT: usize = 44;
pub const WAVEFORM_BAR_COUNT: usize = 20;
/// Milliseconds the card takes to fade in.
pub const OVERLAY_FADE_IN_MILLIS: u64 = 100;
/// Milliseconds the card takes to fade out.
pub const OVERLAY_FADE_OUT_MILLIS: u64 = 120;
/// Milliseconds between dismissal and window destruction: the fade-out
/// plus two 60 Hz frames of margin.
pub const OVERLAY_FADE_HOLD_MILLIS: u64 = 150;

/// How a status reads at a glance.
#[derive(Clone, Copy, Debug, PartialEq, Eq, Structural)]
pub enum StatusTone {
    Neutral,
    Starting,
    Recording,
    Processing,
    Success,
    Danger,
}

/// Where a job is while the daemon processes it.
#[derive(Clone, Copy, Debug, PartialEq, Eq, Structural)]
pub enum ProcessingStage {
    Transcribing,
    Cleaning,
    ReadyToDeliver,
    Delivering,
}

/// The phase of the dictation workflow the overlay reflects.
#[derive(Clone, Copy, Debug, PartialEq, Eq, Structural)]
pub enum WorkflowPhase {
    Ready,
    Starting,
    Recording,
    Stopping,
    Processing { stage: ProcessingStage },
    NeedsAttention,
}

/// Window-manager contract for the transient recording presentation.
#[derive(Clone, Copy, Debug, PartialEq, Eq, Structural)]
pub struct OverlayWindowPolicy {
    pub focusable: bool,
    pub accepts_input: bool,
    pub requests_activation: bool,
    pub show_in_taskbar: bool,
}

impl OverlayWindowPolicy {
    /// A window that never takes focus, input or activation, and stays out
    /// of the taskbar.
    pub fn focus_neutral() -> (policy: Self)
        ensures
            !policy.focusable,
            !policy.accepts_input,
            !policy.requests_activation,
            !policy.show_in_taskbar,
    {
        OverlayWindowPolicy {
            focusable: false,
            accepts_input: false,
            requests_activation: false,
            show_in_taskbar: false,
        }
    }
}

/// Whether a fade ramp is still progressing, from the milliseconds since
/// the window was shown and, once dismissal began, since dismissal.
pub fn overlay_fade_active(since_shown_millis: u64, since_dismissal_millis: Option<u64>) -> (active: bool)
    ensures
        active == match since_dismissal_millis {
            Some(elapsed) => elapsed < OVERLAY_FADE_OUT_MILLIS,
            None => since_shown_millis < OVERLAY_FADE_IN_MILLIS,
        },
{
    match since_dismissal_millis {
        Some(elapsed) => elapsed < OVERLAY_FADE_OUT_MILLIS,
        None => since_shown_millis < OVERLAY_FADE_IN_MILLIS,
    }
}

/// Presentation state derived from the workflow.
#[derive(Clone, Debug, PartialEq, Eq)]
pub enum OverlayState {
    Hidden,
    Starting,
    Recording,
    Finishing,
    Transcribing,
    Cleaning,
    ReadyToDeliver,
    Delivering,
    RecoverableFailure { message: String, action: String },
}

pub open spec fn spec_overlay_label(state: OverlayState) -> Seq<char> {
    match state {
        OverlayState::Hidden => ""@,
        OverlayState::Starting => "Starting…"@,
        OverlayState::Recording => "Listening…"@,
        OverlayState::Finishing => "Securing recording…"@,
        OverlayState::Transcribing => "Transcribing"@,
        OverlayState::Cleaning => "Cleaning up..."@,
        OverlayState::ReadyToDeliver => "Ready to paste"@,
        OverlayState::Delivering => "Pasting…"@,
        OverlayState::RecoverableFailure { message, .. } => message@,
    }
}

pub open spec fn spec_stable_id(state: OverlayState) -> Seq<char> {
    match state {
        OverlayState::Hidden => "recording-overlay-hidden"@,
        OverlayState::Starting => "recording-overlay-starting"@,
        OverlayState::Recording => "recording-overlay-recording"@,
        OverlayState::Finishing => "recording-overlay-finishing"@,
        OverlayState::Transcribing => "recording-overlay-transcribing"@,
        OverlayState::Cleaning => "recording-overlay-cleaning"@,
        OverlayState::ReadyToDeliver => "recording-overlay-ready-to-deliver"@,
        OverlayState::Delivering => "recording-overlay-delivering"@,
        OverlayState::RecoverableFailure { .. } => "recording-overlay-recoverable-failure"@,
    }
}

pub open spec fn spec_tone(state: OverlayState) -> StatusTone {
    match state {
        OverlayState::Hidden => StatusTone::Neutral,
        OverlayState::Starting => StatusTone::Starting,
        OverlayState::Recording => StatusTone::Recording,
        OverlayState::Finishing | OverlayState::Transcribing | OverlayState::Cleaning => StatusTone::Processing,
        OverlayState::ReadyToDeliver | OverlayState::Delivering => StatusTone::Success,
        OverlayState::RecoverableFailure { .. } => StatusTone::Danger,
    }
}

/// The overlay state of each workflow phase. Stopping already reads as
/// transcribing, so the helper stays visible across the recorder's
/// finalization instead of flickering.
pub open spec fn spec_state_for_phase(phase: WorkflowPhase) -> OverlayState {
    match phase {
        WorkflowPhase::Ready => OverlayState::Hidden,
        WorkflowPhase::Starting => OverlayState::Starting,
        WorkflowPhase::Recording => OverlayState::Recording,
        WorkflowPhase::Stopping => OverlayState::Transcribing,
        WorkflowPhase::Processing { stage } => match stage {
            ProcessingStage::Transcribing => OverlayState::Transcribing,
            ProcessingStage::Cleaning => OverlayState::Cleaning,
            ProcessingStage::ReadyToDeliver => OverlayState::ReadyToDeliver,
            ProcessingStage::Delivering => OverlayState::Delivering,
        },
        WorkflowPhase::NeedsAttention => OverlayState::RecoverableFailure {
            message: arbitrary(),
            action: arbitrary(),
        },
    }
}

impl OverlayState {
    pub fn recoverable_failure(message: String, action: String) -> (state: Self)
        ensures
            state == (OverlayState::RecoverableFailure { message, action }),
    {
        OverlayState::RecoverableFailure { message, action }
    }

    /// The state the overlay shows for `phase`; a phase that needs the
    /// user's attention says so and points to Recovery.
    pub fn from_phase(phase: WorkflowPhase) -> (state: Self)
        ensures
            !(phase is NeedsAttention) ==> (state == spec_state_for_phase(phase)),
            phase is NeedsAttention ==> (state matches OverlayState::RecoverableFailure {
                message,
                action,
            } && message@ == "Dictation needs attention"@ && action@ == "Open recovery"@),
    {
        match phase {
            WorkflowPhase::Ready => OverlayState::Hidden,
            WorkflowPhase::Starting => OverlayState::Starting,
            WorkflowPhase::Recording => OverlayState::Recording,
            WorkflowPhase::Stopping => OverlayState::Transcribing,
            WorkflowPhase::Processing { stage } => match stage {
                ProcessingStage::Transcribing => OverlayState::Transcribing,
                ProcessingStage::Cleaning => OverlayState::Cleaning,
                ProcessingStage::ReadyToDeliver => OverlayState::ReadyToDeliver,
                ProcessingStage::Delivering => OverlayState::Delivering,
            },
            WorkflowPhase::NeedsAttention => OverlayState::recoverable_failure(
                String::from_str("Dictation needs attention"),
                String::from_str("Open recovery"),
            ),
        }
    }

    /// The overlay window is open only while recording, transcribing, or
    /// cleaning.
    pub fn is_visible(&self) -> (visible: bool)
        ensures
            visible == ((self is Recording) || (self is Transcribing) || (self is Cleaning)),
    {
        match self {
            OverlayState::Recording | OverlayState::Transcribing | OverlayState::Cleaning => true,
            _ => false,
        }
    }

    /// Every state presents a focus-neutral window.
    pub fn window_policy(&self) -> (policy: OverlayWindowPolicy)
        ensures
            policy == (OverlayWindowPolicy {
                focusable: false,
                accepts_input: false,
                requests_activation: false,
                show_in_taskbar: false,
            }),
    {
        OverlayWindowPolicy::focus_neutral()
    }

    /// Stable presentation identity for rendered-interaction diagnostics.
    pub fn stable_id(&self) -> (id: &'static str)
        ensures
            id@ == spec_stable_id(*self),
    {
        match self {
            OverlayState::Hidden => "recording-overlay-hidden",
            OverlayState::Starting => "recording-overlay-starting",
            OverlayState::Recording => "recording-overlay-recording",
            OverlayState::Finishing => "recording-overlay-finishing",
            OverlayState::Transcribing => "recording-overlay-transcribing",
            OverlayState::Cleaning => "recording-overlay-cleaning",
            OverlayState::ReadyToDeliver => "recording-overlay-ready-to-deliver",
            OverlayState::Delivering => "recording-overlay-delivering",
            OverlayState::RecoverableFailure { .. } => "recording-overlay-recoverable-failure",
        }
    }

    pub fn label(&self) -> (label: &str)
        ensures
            label@ == spec_overlay_label(*self),
    {
        match self {
            OverlayState::Hidden => "",
            OverlayState::Starting => "Starting…",
            OverlayState::Recording => "Listening…",
            OverlayState::Finishing => "Securing recording…",
            OverlayState::Transcribing => "Transcribing",
            OverlayState::Cleaning => "Cleaning up...",
            OverlayState::ReadyToDeliver => "Ready to paste",
            OverlayState::Delivering => "Pasting…",
            OverlayState::RecoverableFailure { message, .. } => message.as_str(),
        }
    }

    /// What assistive technology announces: the app's name and the label.
    pub fn accessibility_label(&self) -> (label: String)
        ensures
            label@ == "Agent Dictate: "@ + spec_overlay_label(*self),
    {
        let mut label = String::from_str("Agent Dictate: ");
        label.append(self.label());
        label
    }

    /// The action a recoverable failure offers.
    pub fn action_label(&self) -> (action: Option<&str>)
        ensures
            match *self {
                OverlayState::RecoverableFailure { action: a, .. } => action matches Some(s) && s@ == a@,
                _ => action is None,
            },
    {
        match self {
            OverlayState::RecoverableFailure { action, .. } => Some(action.as_str()),
            _ => None,
        }
    }

    pub fn tone(&self) -> (tone: StatusTone)
        ensures
            tone == spec_tone(*self),
    {
        match self {
            OverlayState::Hidden => StatusTone::Neutral,
            OverlayState::Starting => StatusTone::Starting,
            OverlayState::Recording => StatusTone::Recording,
            OverlayState::Finishing | OverlayState::Transcribing | OverlayState::Cleaning => StatusTone::Processing,
            OverlayState::ReadyToDeliver | OverlayState::Delivering => StatusTone::Success,
            OverlayState::RecoverableFailure { .. } => StatusTone::Danger,
        }
    }
}

/// `n` with at least two digits.
pub open spec fn two_digits(n: nat) -> Seq<char> {
    if n < 10 { seq!['0'] + decimal(n) } else { decimal(n) }
}

/// The timer of a recording `seconds` long: `m:ss`, or `h:mm:ss` from an
/// hour on.
pub open spec fn spec_format_elapsed(seconds: nat) -> Seq<char> {
    let minutes = seconds / 60;
    let s = seconds % 60;
    let hours = minutes / 60;
    let m = minutes % 60;
    if hours > 0 {
        decimal(hours) + seq![':'] + two_digits(m) + seq![':'] + two_digits(s)
    } else {
        decimal(m) + seq![':'] + two_digits(s)
    }
}

fn push_chars(s: &mut String, v: &Vec<char>)
    ensures
        final(s)@ == old(s)@ + v@,
{
    let mut i: usize = 0;
    while i < v.len()
        invariant
            i <= v@.len(),
            s@ == old(s)@ + v@.take(i as int),
        decreases v@.len() - i,
    {
        push_char(s, v[i]);
        proof {
            assert(s@ =~= old(s)@ + v@.take(i + 1));
        }
        i += 1;
    }
    proof {
        assert(v@.take(v@.len() as int) =~= v@);
    }
}

fn push_two_digits(s: &mut String, n: u64)
    ensures
        final(s)@ == old(s)@ + two_digits(n as nat),
{
    if n < 10 {
        push_char(s, '0');
        let ghost mid = s@;
        push_chars(s, &decimal_chars(n));
        proof {
            assert(s@ =~= old(s)@ + two_digits(n as nat));
        }
    } else {
        push_chars(s, &decimal_chars(n));
    }
}

/// Formats a whole number of elapsed seconds as the overlay's timer.
pub fn format_elapsed_seconds(seconds: u64) -> (text: String)
    ensures
        text@ == spec_format_elapsed(seconds as nat),
{
    let minutes = seconds / 60;
    let s = seconds % 60;
    let hours = minutes / 60;
    let m = minutes % 60;
    let mut text = String::new();
    if hours > 0 {
        push_chars(&mut text, &decimal_chars(hours));
        push_char(&mut text, ':');
        push_two_digits(&mut text, m);
        push_char(&mut text, ':');
        push_two_digits(&mut text, s);
    } else {
        push_chars(&mut text, &decimal_chars(m));
        push_char(&mut text, ':');
        push_two_digits(&mut text, s);
    }
    proof {
        assert(text@ =~= spec_format_elapsed(seconds as nat));
    }
    text
}

/// Milliseconds a recording has run by `now`: the difference saturated at
/// `i64::MAX`, and never negative across a wall-clock correction.
pub fn elapsed_millis(started_at_unix_millis: i64, now_unix_millis: i64) -> (elapsed: u64)
    ensures
        elapsed == if now_unix_millis <= started_at_unix_millis {
            0
        } else if now_unix_millis - started_at_unix_millis > i64::MAX {
            i64::MAX as int
        } else {
            now_unix_millis - started_at_unix_millis
        },
{
    if now_unix_millis > started_at_unix_millis {
        let difference = (now_unix_millis as i128) - (started_at_unix_millis as i128);
        if difference > i64::MAX as i128 {
            i64::MAX as u64
        } else {
            difference as u64
        }
    } else {
        0
    }
}

/// The recording the overlay shows while it runs.
#[derive(Clone, Debug, PartialEq, Eq)]
pub struct ActiveRecordingPresentation {
    pub audio_path: String,
    pub started_at_unix_millis: i64,
}

impl ActiveRecordingPresentation {
    /// Milliseconds the recording has run by `now`.
    pub fn elapsed_millis_at(&self, now_unix_millis: i64) -> (elapsed: u64)
        ensures
            elapsed == if now_unix_millis <= self.started_at_unix_millis {
                0
            } else if now_unix_millis - self.started_at_unix_millis > i64::MAX {
                i64::MAX as int
            } else {
                now_unix_millis - self.started_at_unix_millis
            },
    {
        elapsed_millis(self.started_at_unix_millis, now_unix_millis)
    }
}

} // verus!
