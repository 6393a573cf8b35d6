//! What the runtime exchanges with the recorder, the transcriber and the
//! delivery adapter: their errors, a transcript, how text is delivered, and
//! the check that comes before every paste attempt.

use vstd::prelude::*;

verus! {

/// Why a recorder, transcriber or deliverer failed.
#[derive(Clone, Debug, PartialEq, Eq)]
pub enum ExternalError {
    Failure { message: String },
    NoSpeech,
}

impl ExternalError {
    /// A failure with `message`.
    pub fn new(message: &str) -> (e: Self)
        ensures
            e matches ExternalError::Failure { message: m } && m@ == message@,
    {
        ExternalError::Failure { message: message.to_owned() }
    }

    /// The text shown for the error.
    pub fn describe(&self) -> (text: String)
        ensures
            text@ == match self {
                ExternalError::Failure { message } => message@,
                ExternalError::NoSpeech => "No speech detected."@,
            },
    {
        match self {
            ExternalError::Failure { message } => message.clone(),
            ExternalError::NoSpeech => "No speech detected.".to_owned(),
        }
    }
}

/// Why the delivery gate stayed closed.
#[derive(Clone, Debug, PartialEq, Eq)]
pub struct DeliveryGateError {
    message: String,
}

impl View for DeliveryGateError {
    type V = Seq<char>;

    closed spec fn view(&self) -> Seq<char> {
        self.message@
    }
}

impl DeliveryGateError {
    pub fn new(message: &str) -> (e: Self)
        ensures
            e@ == message@,
    {
        DeliveryGateError { message: message.to_owned() }
    }

    /// The text shown for the error.
    pub fn describe(&self) -> (text: String)
        ensures
            text@ == self@,
    {
        self.message.clone()
    }
}

/// Speech-to-text output for one recording.
#[derive(Clone, Debug, PartialEq, Eq)]
pub struct Transcript {
    pub text: String,
    /// The model that produced `text`, which a live session can change from
    /// the job's requested model. It is stored with the job.
    pub model: String,
}

/// How a ready transcript reaches the user.
#[derive(Clone, Copy, Debug, PartialEq, Eq, Structural)]
pub enum DeliveryMethod {
    /// Publish to the clipboard, then send exactly one paste shortcut to the
    /// focused application.
    Paste,
    /// Publish to the clipboard only; the user pastes where they want it.
    CopyOnly,
}

/// Confirms that transient AgentDictate UI cannot receive the upcoming
/// paste. Success is the prerequisite for recording `Attempting` and
/// invoking the delivery adapter.
pub trait DeliveryGate {
    fn confirm_ready(&mut self) -> (r: Result<(), DeliveryGateError>);
}

/// The check of a process without an overlay: it always passes.
#[derive(Clone, Copy, Debug, Default)]
pub struct HeadlessDeliveryGate;

impl DeliveryGate for HeadlessDeliveryGate {
    fn confirm_ready(&mut self) -> (r: Result<(), DeliveryGateError>)
        ensures
            r is Ok,
    {
        Ok(())
    }
}

} // verus!
