//! How the app words a failed dictation and the notices it shows.

use vstd::prelude::*;

use crate::text::{chars_of, is_blank, is_blank_chars};

verus! {

/// Why a dictation failed, as the daemon classifies it.
#[derive(Clone, Copy, Debug, PartialEq, Eq, Structural)]
pub enum FailureKind {
    Offline,
    CredentialMissing,
    CredentialRejected,
    RateLimited,
    ProviderError,
    NoSpeech,
    MicrophoneUnavailable,
    MicrophoneStalled,
    PasteNotConfirmed,
    Unexpected,
}

/// How the app words a failed dictation: a short headline, and advice that
/// says what happened and what to do next.
#[derive(Clone, Copy, Debug, PartialEq, Eq)]
pub struct FailureWording {
    pub headline: &'static str,
    pub advice: &'static str,
}

pub open spec fn spec_headline(kind: FailureKind) -> Seq<char> {
    match kind {
        FailureKind::Offline => "Couldn't reach OpenAI"@,
        FailureKind::CredentialMissing => "No OpenAI API key"@,
        FailureKind::CredentialRejected => "API key refused"@,
        FailureKind::RateLimited => "OpenAI limit reached"@,
        FailureKind::ProviderError => "Couldn't transcribe"@,
        FailureKind::NoSpeech => "Didn't hear anything"@,
        FailureKind::MicrophoneUnavailable => "Microphone unavailable"@,
        FailureKind::MicrophoneStalled => "Microphone stopped"@,
        FailureKind::PasteNotConfirmed => "Couldn't paste"@,
        FailureKind::Unexpected => "Dictation interrupted"@,
    }
}

pub open spec fn spec_advice(kind: FailureKind) -> Seq<char> {
    match kind {
        FailureKind::Offline => "Check your internet connection, then transcribe it again."@,
        FailureKind::CredentialMissing => "Add your API key in Settings, then transcribe it again."@,
        FailureKind::CredentialRejected => "Check your API key in Settings, then transcribe it again."@,
        FailureKind::RateLimited => "OpenAI is limiting requests or your quota ran out. Wait a minute, then transcribe it again."@,
        FailureKind::ProviderError => "OpenAI couldn't transcribe this recording. Try again in a moment."@,
        FailureKind::NoSpeech => "No words were recognized. Check that the right microphone is on."@,
        FailureKind::MicrophoneUnavailable => "Check that your microphone is connected and not in use by another app."@,
        FailureKind::MicrophoneStalled => "The microphone stopped sending audio. What was recorded is saved."@,
        FailureKind::PasteNotConfirmed => "The text may not have reached your app. It's saved, so you can paste it again."@,
        FailureKind::Unexpected => "AgentDictate stopped before this dictation finished. The recording is saved."@,
    }
}

/// The wording of a failure of `kind`.
pub fn failure_wording(kind: FailureKind) -> (wording: FailureWording)
    ensures
        wording.headline@ == spec_headline(kind),
        wording.advice@ == spec_advice(kind),
{
    match kind {
        FailureKind::Offline => FailureWording {
            headline: "Couldn't reach OpenAI",
            advice: "Check your internet connection, then transcribe it again.",
        },
        FailureKind::CredentialMissing => FailureWording {
            headline: "No OpenAI API key",
            advice: "Add your API key in Settings, then transcribe it again.",
        },
        FailureKind::CredentialRejected => FailureWording {
            headline: "API key refused",
            advice: "Check your API key in Settings, then transcribe it again.",
        },
        FailureKind::RateLimited => FailureWording {
            headline: "OpenAI limit reached",
            advice: "OpenAI is limiting requests or your quota ran out. Wait a minute, then transcribe it again.",
        },
        FailureKind::ProviderError => FailureWording {
            headline: "Couldn't transcribe",
            advice: "OpenAI couldn't transcribe this recording. Try again in a moment.",
        },
        FailureKind::NoSpeech => FailureWording {
            headline: "Didn't hear anything",
            advice: "No words were recognized. Check that the right microphone is on.",
        },
        FailureKind::MicrophoneUnavailable => FailureWording {
            headline: "Microphone unavailable",
            advice: "Check that your microphone is connected and not in use by another app.",
        },
        FailureKind::MicrophoneStalled => FailureWording {
            headline: "Microphone stopped",
            advice: "The microphone stopped sending audio. What was recorded is saved.",
        },
        FailureKind::PasteNotConfirmed => FailureWording {
            headline: "Couldn't paste",
            advice: "The text may not have reached your app. It's saved, so you can paste it again.",
        },
        FailureKind::Unexpected => FailureWording {
            headline: "Dictation interrupted",
            advice: "AgentDictate stopped before this dictation finished. The recording is saved.",
        },
    }
}

/// A notice the daemon asks the windows to show after a dictation.
#[derive(Clone, Copy, Debug, PartialEq, Eq, Structural)]
pub enum DictationNotice {
    Copied,
    NothingHeard,
    PasteUnavailable,
    Failed { failure: FailureKind },
}

/// What a notice says: a title, a detail when there is more to say, and
/// the sentence a desktop notification adds below the title.
#[derive(Clone, Copy, Debug, PartialEq, Eq)]
pub struct NoticeWording {
    pub title: &'static str,
    pub detail: Option<&'static str>,
    pub body: &'static str,
}

pub open spec fn opt_str_view(o: Option<&'static str>) -> Option<Seq<char>> {
    match o {
        Some(s) => Some(s@),
        None => None,
    }
}

pub open spec fn spec_notice(notice: DictationNotice) -> (Seq<char>, Option<Seq<char>>, Seq<char>) {
    match notice {
        DictationNotice::Copied => (
            "Copied — press Ctrl+V"@,
            None,
            "The text wasn't pasted, so it's on the clipboard. Press Ctrl+V where you want it."@,
        ),
        DictationNotice::NothingHeard => (
            "Didn't hear anything"@,
            Some("Check your microphone"@),
            "The recording was silent. Check that the right microphone is on and not muted."@,
        ),
        DictationNotice::PasteUnavailable => (
            "Can't paste it again"@,
            None,
            "Only the last dictation, or one waiting in Recovery, can be pasted again. Copy older ones from History."@,
        ),
        DictationNotice::Failed { failure } => (
            spec_headline(failure),
            Some(
                if failure == FailureKind::MicrophoneUnavailable {
                    "Check your microphone"@
                } else {
                    "Saved to Recovery"@
                },
            ),
            spec_advice(failure),
        ),
    }
}

/// The wording of `notice`. A failure is titled by its headline, with its
/// advice as the body; only a missing microphone has nothing in Recovery.
pub fn notice_wording(notice: DictationNotice) -> (wording: NoticeWording)
    ensures
        (wording.title@, opt_str_view(wording.detail), wording.body@) == spec_notice(notice),
{
    match notice {
        DictationNotice::Copied => NoticeWording {
            title: "Copied — press Ctrl+V",
            detail: None,
            body: "The text wasn't pasted, so it's on the clipboard. Press Ctrl+V where you want it.",
        },
        DictationNotice::NothingHeard => NoticeWording {
            title: "Didn't hear anything",
            detail: Some("Check your microphone"),
            body: "The recording was silent. Check that the right microphone is on and not muted.",
        },
        DictationNotice::PasteUnavailable => NoticeWording {
            title: "Can't paste it again",
            detail: None,
            body: "Only the last dictation, or one waiting in Recovery, can be pasted again. Copy older ones from History.",
        },
        DictationNotice::Failed { failure } => {
            let wording = failure_wording(failure);
            let detail: &'static str = match failure {
                FailureKind::MicrophoneUnavailable => "Check your microphone",
                _ => "Saved to Recovery",
            };
            NoticeWording { title: wording.headline, detail: Some(detail), body: wording.advice }
        },
    }
}

/// The reason a Recovery item shows: its failure's headline and advice, or
/// for an item without one its stored message when that is not blank, or
/// else that the recording is saved.
pub open spec fn spec_recovery_reason(failure: Option<FailureKind>, stored: Option<Seq<char>>) -> Seq<char> {
    match failure {
        Some(kind) => spec_headline(kind) + " · "@ + spec_advice(kind),
        None => match stored {
            Some(message) => if !is_blank(message) {
                message
            } else {
                "Recording saved safely"@
            },
            None => "Recording saved safely"@,
        },
    }
}

pub fn recovery_reason(failure: Option<FailureKind>, stored_message: Option<&str>) -> (reason: String)
    ensures
        reason@ == spec_recovery_reason(
            failure,
            match stored_message {
                Some(m) => Some(m@),
                None => None,
            },
        ),
{
    match failure {
        Some(kind) => {
            let wording = failure_wording(kind);
            let mut reason = String::from_str(wording.headline);
            reason.append(" · ");
            reason.append(wording.advice);
            reason
        },
        None => match stored_message {
            Some(message) => {
                let chars = chars_of(message);
                if !is_blank_chars(chars.as_slice()) {
                    message.to_owned()
                } else {
                    String::from_str("Recording saved safely")
                }
            },
            None => String::from_str("Recording saved safely"),
        },
    }
}

} // verus!
