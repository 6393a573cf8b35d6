//! When the settings window opens on Setup.

use vstd::prelude::*;

verus! {

/// Whether the daemon can read the Dictation shortcut.
#[derive(Clone, Debug, PartialEq, Eq)]
pub enum HotkeyReadiness {
    Ready,
    /// The shortcut listener is still starting.
    Starting,
    Unavailable { reason: String },
}

/// What the desktop lets AgentDictate do.
#[derive(Clone, Copy, Debug, PartialEq, Eq, Structural)]
pub struct DesktopReadiness {
    pub paste_access: bool,
}

/// Whether dictation can work yet.
#[derive(Clone, Debug, PartialEq, Eq)]
pub struct Readiness {
    pub transcription_key: bool,
    pub desktop: DesktopReadiness,
    pub shortcut: HotkeyReadiness,
}

pub open spec fn spec_has_input_access(readiness: Readiness) -> bool {
    readiness.desktop.paste_access && !(readiness.shortcut is Unavailable)
}

/// Whether AgentDictate can read the shortcut and paste. The shortcut
/// listener may still be starting.
pub fn has_input_access(readiness: &Readiness) -> (b: bool)
    ensures
        b == spec_has_input_access(*readiness),
{
    readiness.desktop.paste_access && !matches!(readiness.shortcut, HotkeyReadiness::Unavailable { .. })
}

/// Whether the window opens on Setup: the API key is missing, or
/// AgentDictate can't read the shortcut or paste.
pub fn needs_setup(readiness: &Readiness) -> (b: bool)
    ensures
        b == (!readiness.transcription_key || !spec_has_input_access(*readiness)),
{
    !readiness.transcription_key || !has_input_access(readiness)
}

/// How a line of the access step reads at a glance.
#[derive(Clone, Copy, Debug, PartialEq, Eq, Structural)]
pub enum AccessTone {
    Works,
    Pending,
    Missing,
}

pub open spec fn spec_shortcut_line(shortcut: HotkeyReadiness, name: Seq<char>) -> (Seq<char>, AccessTone) {
    match shortcut {
        HotkeyReadiness::Ready => ("AgentDictate hears your shortcut, "@ + name + "."@, AccessTone::Works),
        HotkeyReadiness::Starting => ("Starting the shortcut…"@, AccessTone::Pending),
        HotkeyReadiness::Unavailable { .. } => ("AgentDictate can't read your keyboard yet."@, AccessTone::Missing),
    }
}

/// The access step's line for the shortcut named `name`.
pub fn shortcut_line(readiness: &Readiness, name: &str) -> (line: (String, AccessTone))
    ensures
        line.0@ == spec_shortcut_line(readiness.shortcut, name@).0,
        line.1 == spec_shortcut_line(readiness.shortcut, name@).1,
{
    match &readiness.shortcut {
        HotkeyReadiness::Ready => {
            let mut text = String::from_str("AgentDictate hears your shortcut, ");
            text.append(name);
            text.append(".");
            (text, AccessTone::Works)
        },
        HotkeyReadiness::Starting => (String::from_str("Starting the shortcut…"), AccessTone::Pending),
        HotkeyReadiness::Unavailable { .. } => (
            String::from_str("AgentDictate can't read your keyboard yet."),
            AccessTone::Missing,
        ),
    }
}

/// The access step's line for pasting.
pub fn paste_line(readiness: &Readiness) -> (line: (&'static str, AccessTone))
    ensures
        line.0@ == if readiness.desktop.paste_access {
            "AgentDictate can paste into your apps."@
        } else {
            "AgentDictate can't paste yet, so your words are only copied."@
        },
        line.1 == if readiness.desktop.paste_access { AccessTone::Works } else { AccessTone::Missing },
{
    if readiness.desktop.paste_access {
        ("AgentDictate can paste into your apps.", AccessTone::Works)
    } else {
        ("AgentDictate can't paste yet, so your words are only copied.", AccessTone::Missing)
    }
}

} // verus!
