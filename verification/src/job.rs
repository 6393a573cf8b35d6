//! Dictation jobs: their stages as the database spells them, and the rules
//! that move a job between stages. Every durable write of the runtime is one
//! of these transitions, so a crash at any point leaves a job the next start
//! can reconcile, and no paste is ever replayed.

use vstd::prelude::*;

use crate::ports::DeliveryMethod;
use crate::text::{chars_of, debug_quoted, debug_text, is_blank, is_blank_chars, str_eq};

verus! {

/// Where a dictation job is.
#[derive(Clone, Copy, Debug, PartialEq, Eq, Structural)]
pub enum JobStage {
    Starting,
    Recording,
    Captured,
    Transcribing,
    ReadyToDeliver,
    Delivered,
    NoSpeech,
    Interrupted,
    Failed,
    Deleted,
    /// Discarded with Esc while long enough to keep in Recovery for a day.
    Cancelled,
}

/// What is known of the job's paste.
#[derive(Clone, Copy, Debug, PartialEq, Eq, Structural)]
pub enum DeliveryStatus {
    NotAttempted,
    Attempting,
    Submitted,
    /// A paste shortcut may have reached the focused application.
    Ambiguous,
}

/// The identity of a dictation job, as the database stores it.
#[derive(Clone, Debug, PartialEq, Eq)]
pub struct JobId(pub String);

/// Why a job operation was refused or failed.
#[derive(Debug, PartialEq, Eq)]
pub enum RuntimeError {
    Database(String),
    InvalidJobId(String),
    InvalidHistoryCursor(String),
    JobNotFound(JobId),
    InvalidStage { job_id: JobId, expected: JobStage, actual: JobStage },
    OperationNotAllowed {
        operation: &'static str,
        job_id: JobId,
        stage: JobStage,
        reason: &'static str,
    },
    External(String),
    DeliveryBlocked(String),
    Io(String),
    Json(String),
    InvalidUsageDate { date: String, source: String },
    FailureNotRecorded { error: Box<RuntimeError>, record_error: String },
    InvalidReplacementSource,
    MissingReplacementId,
    ReplacementNotFound(i64),
    InvalidExternalDictation(String),
    NewerDatabase { version: i64, latest: usize },
}

/// The database spelling of each stage.
pub open spec fn spec_stage_name(stage: JobStage) -> Seq<char> {
    match stage {
        JobStage::Starting => "starting"@,
        JobStage::Recording => "recording"@,
        JobStage::Captured => "captured"@,
        JobStage::Transcribing => "transcribing"@,
        JobStage::ReadyToDeliver => "ready_to_deliver"@,
        JobStage::Delivered => "delivered"@,
        JobStage::NoSpeech => "no_speech"@,
        JobStage::Interrupted => "interrupted"@,
        JobStage::Failed => "failed"@,
        JobStage::Deleted => "deleted"@,
        JobStage::Cancelled => "cancelled"@,
    }
}

/// The coarse `state` column each stage files under.
pub open spec fn spec_state_for_stage(stage: JobStage) -> Seq<char> {
    match stage {
        JobStage::Delivered => "delivered"@,
        JobStage::NoSpeech => "no_speech"@,
        JobStage::Deleted => "deleted"@,
        JobStage::Interrupted => "interrupted"@,
        JobStage::Failed => "failed"@,
        JobStage::Cancelled => "cancelled"@,
        JobStage::Starting | JobStage::Recording => "active"@,
        JobStage::Captured | JobStage::Transcribing | JobStage::ReadyToDeliver => "captured"@,
    }
}

/// The database spelling of each delivery status.
pub open spec fn spec_delivery_status_name(status: DeliveryStatus) -> Seq<char> {
    match status {
        DeliveryStatus::NotAttempted => "not_attempted"@,
        DeliveryStatus::Attempting => "attempting"@,
        DeliveryStatus::Submitted => "submitted"@,
        DeliveryStatus::Ambiguous => "ambiguous"@,
    }
}

/// The stage that `value` spells, if any.
pub open spec fn spec_parse_stage(value: Seq<char>) -> Option<JobStage> {
    if value == "starting"@ {
        Some(JobStage::Starting)
    } else if value == "recording"@ {
        Some(JobStage::Recording)
    } else if value == "captured"@ {
        Some(JobStage::Captured)
    } else if value == "transcribing"@ {
        Some(JobStage::Transcribing)
    } else if value == "ready_to_deliver"@ {
        Some(JobStage::ReadyToDeliver)
    } else if value == "delivered"@ {
        Some(JobStage::Delivered)
    } else if value == "no_speech"@ {
        Some(JobStage::NoSpeech)
    } else if value == "interrupted"@ {
        Some(JobStage::Interrupted)
    } else if value == "failed"@ {
        Some(JobStage::Failed)
    } else if value == "deleted"@ {
        Some(JobStage::Deleted)
    } else if value == "cancelled"@ {
        Some(JobStage::Cancelled)
    } else {
        None
    }
}

/// The delivery status that `value` spells, if any.
pub open spec fn spec_parse_delivery_status(value: Seq<char>) -> Option<DeliveryStatus> {
    if value == "not_attempted"@ {
        Some(DeliveryStatus::NotAttempted)
    } else if value == "attempting"@ {
        Some(DeliveryStatus::Attempting)
    } else if value == "submitted"@ {
        Some(DeliveryStatus::Submitted)
    } else if value == "ambiguous"@ {
        Some(DeliveryStatus::Ambiguous)
    } else {
        None
    }
}

pub fn stage_name(stage: JobStage) -> (name: &'static str)
    ensures
        name@ == spec_stage_name(stage),
{
    match stage {
        JobStage::Starting => "starting",
        JobStage::Recording => "recording",
        JobStage::Captured => "captured",
        JobStage::Transcribing => "transcribing",
        JobStage::ReadyToDeliver => "ready_to_deliver",
        JobStage::Delivered => "delivered",
        JobStage::NoSpeech => "no_speech",
        JobStage::Interrupted => "interrupted",
        JobStage::Failed => "failed",
        JobStage::Deleted => "deleted",
        JobStage::Cancelled => "cancelled",
    }
}

pub fn state_for_stage(stage: JobStage) -> (state: &'static str)
    ensures
        state@ == spec_state_for_stage(stage),
{
    match stage {
        JobStage::Delivered => "delivered",
        JobStage::NoSpeech => "no_speech",
        JobStage::Deleted => "deleted",
        JobStage::Interrupted => "interrupted",
        JobStage::Failed => "failed",
        JobStage::Cancelled => "cancelled",
        JobStage::Starting | JobStage::Recording => "active",
        JobStage::Captured | JobStage::Transcribing | JobStage::ReadyToDeliver => "captured",
    }
}

pub fn delivery_status_name(status: DeliveryStatus) -> (name: &'static str)
    ensures
        name@ == spec_delivery_status_name(status),
{
    match status {
        DeliveryStatus::NotAttempted => "not_attempted",
        DeliveryStatus::Attempting => "attempting",
        DeliveryStatus::Submitted => "submitted",
        DeliveryStatus::Ambiguous => "ambiguous",
    }
}

/// Reads a stored stage; an unknown spelling is an error that names it.
pub fn parse_stage(value: &str) -> (r: Result<JobStage, RuntimeError>)
    ensures
        r matches Ok(stage) ==> spec_parse_stage(value@) == Some(stage),
        r is Err ==> spec_parse_stage(value@) is None,
        r matches Err(e) ==> (e matches RuntimeError::InvalidJobId(m) && m@ == "unknown stage "@
            + debug_text(value@)),
{
    if str_eq(value, "starting") {
        Ok(JobStage::Starting)
    } else if str_eq(value, "recording") {
        Ok(JobStage::Recording)
    } else if str_eq(value, "captured") {
        Ok(JobStage::Captured)
    } else if str_eq(value, "transcribing") {
        Ok(JobStage::Transcribing)
    } else if str_eq(value, "ready_to_deliver") {
        Ok(JobStage::ReadyToDeliver)
    } else if str_eq(value, "delivered") {
        Ok(JobStage::Delivered)
    } else if str_eq(value, "no_speech") {
        Ok(JobStage::NoSpeech)
    } else if str_eq(value, "interrupted") {
        Ok(JobStage::Interrupted)
    } else if str_eq(value, "failed") {
        Ok(JobStage::Failed)
    } else if str_eq(value, "deleted") {
        Ok(JobStage::Deleted)
    } else if str_eq(value, "cancelled") {
        Ok(JobStage::Cancelled)
    } else {
        let mut message = String::from_str("unknown stage ");
        message.append(debug_quoted(value).as_str());
        Err(RuntimeError::InvalidJobId(message))
    }
}

} // verus!

verus! {

/// An instant as whole seconds since 1970-01-01T00:00:00Z and the
/// nanoseconds past that second.
#[derive(Clone, Copy, Debug, PartialEq, Eq, Structural)]
pub struct Timestamp {
    pub seconds: i64,
    pub nanos: u32,
}

/// A job as the runtime's durable rules see it.
#[derive(Debug, PartialEq, Eq)]
pub struct JobRecord {
    pub id: JobId,
    /// When the recording started.
    pub started_at: Timestamp,
    /// When the job last changed, as stored; the runtime stamps it on each
    /// durable write.
    pub updated_at: Timestamp,
    pub stage: JobStage,
    pub delivery_status: DeliveryStatus,
    pub transcription_model: String,
    pub raw_transcript: String,
    pub final_text: String,
    pub copied_to_clipboard: bool,
    pub paste_triggered: bool,
    pub error_message: Option<String>,
}

/// The facts of a job that its rules read and write. The identity and the
/// timestamps are not part of it: each rule states that it keeps them.
pub struct JobView {
    pub stage: JobStage,
    pub delivery_status: DeliveryStatus,
    pub transcription_model: Seq<char>,
    pub raw_transcript: Seq<char>,
    pub final_text: Seq<char>,
    pub copied_to_clipboard: bool,
    pub paste_triggered: bool,
    pub error_message: Option<Seq<char>>,
}

pub open spec fn opt_view(o: Option<String>) -> Option<Seq<char>> {
    match o {
        Some(s) => Some(s@),
        None => None,
    }
}

impl View for JobRecord {
    type V = JobView;

    open spec fn view(&self) -> JobView {
        JobView {
            stage: self.stage,
            delivery_status: self.delivery_status,
            transcription_model: self.transcription_model@,
            raw_transcript: self.raw_transcript@,
            final_text: self.final_text@,
            copied_to_clipboard: self.copied_to_clipboard,
            paste_triggered: self.paste_triggered,
            error_message: opt_view(self.error_message),
        }
    }
}

/// `j` is the job `old` was: the same identity and the same stored start
/// and last-change times. The runtime stamps a new last-change time when it
/// writes the job.
pub open spec fn same_job(j: JobRecord, old: JobRecord) -> bool {
    &&& j.id == old.id
    &&& j.started_at == old.started_at
    &&& j.updated_at == old.updated_at
}

/// `job` at `stage` with `error` as its message.
pub open spec fn at_stage(job: JobView, stage: JobStage, error: Option<Seq<char>>) -> JobView {
    JobView { stage, error_message: error, ..job }
}

/// Capturing stops a recording: only a `Recording` job becomes `Captured`.
pub open spec fn spec_capture(job: JobView) -> Option<JobView> {
    if job.stage == JobStage::Recording {
        Some(at_stage(job, JobStage::Captured, None))
    } else {
        None
    }
}

/// A platform failure interrupts a job only at the stage it was reported
/// for, so a late error cannot undo a safer checkpoint.
pub open spec fn spec_interrupt(job: JobView, at: JobStage, message: Seq<char>) -> Option<JobView> {
    if job.stage == at {
        Some(at_stage(job, JobStage::Interrupted, Some(message)))
    } else {
        None
    }
}

/// Only a `Captured` job starts transcription.
pub open spec fn spec_begin_processing(job: JobView) -> Option<JobView> {
    if job.stage == JobStage::Captured {
        Some(at_stage(job, JobStage::Transcribing, None))
    } else {
        None
    }
}

/// The transcript is stored before anything else can fail.
pub open spec fn spec_accept_transcript(job: JobView, text: Seq<char>, model: Seq<char>) -> JobView {
    JobView { raw_transcript: text, transcription_model: model, ..job }
}

/// The final text is ready, and no paste has been attempted.
pub open spec fn spec_ready_to_deliver(job: JobView, final_text: Seq<char>) -> JobView {
    JobView {
        stage: JobStage::ReadyToDeliver,
        final_text,
        error_message: None,
        delivery_status: DeliveryStatus::NotAttempted,
        ..job
    }
}

pub open spec fn blocked_message(reason: Seq<char>) -> Seq<char> {
    "delivery blocked before paste: "@ + reason
}

/// A paste is about to be sent.
pub open spec fn spec_begin_delivery(job: JobView) -> JobView {
    JobView { delivery_status: DeliveryStatus::Attempting, ..job }
}

/// A paste that may have reached the focused application: the job fails
/// and is never pasted again on its own.
pub open spec fn spec_mark_ambiguous(job: JobView, copied: bool, message: Seq<char>) -> JobView {
    JobView {
        stage: JobStage::Failed,
        copied_to_clipboard: copied,
        delivery_status: DeliveryStatus::Ambiguous,
        error_message: Some(message),
        ..job
    }
}

/// How a paste attempt ended.
#[derive(Clone, Debug, PartialEq, Eq)]
pub enum DeliveryDisposition {
    Submitted { copied_to_clipboard: bool, paste_triggered: bool },
    /// A paste shortcut was attempted but its outcome is unknown, so the
    /// text may already be in the focused application.
    Ambiguous { copied_to_clipboard: bool },
    /// Delivery failed before any paste shortcut was sent, so nothing
    /// reached the focused application and it is safe to try again.
    NotSent { copied_to_clipboard: bool, reason: String },
}

pub open spec fn ambiguous_message() -> Seq<char> {
    "delivery may have reached the focused application"@
}

/// What a disposition makes of a job whose paste was attempting.
pub open spec fn spec_record_disposition(job: JobView, disposition: DeliveryDisposition) -> JobView {
    match disposition {
        DeliveryDisposition::Submitted { copied_to_clipboard, paste_triggered } => JobView {
            stage: JobStage::Delivered,
            copied_to_clipboard,
            paste_triggered,
            delivery_status: DeliveryStatus::Submitted,
            error_message: None,
            ..job
        },
        DeliveryDisposition::Ambiguous { copied_to_clipboard } => spec_mark_ambiguous(
            job,
            copied_to_clipboard,
            ambiguous_message(),
        ),
        DeliveryDisposition::NotSent { copied_to_clipboard, reason } => JobView {
            copied_to_clipboard,
            delivery_status: DeliveryStatus::NotAttempted,
            error_message: Some(reason@),
            ..job
        },
    }
}

/// Records a failure on a job that a failed step left in flight: a
/// transcribing job fails keeping its raw transcript, and a started paste
/// becomes ambiguous so it is never replayed. A job at a safe checkpoint
/// is left as it is.
pub open spec fn spec_fail(job: JobView, message: Seq<char>) -> JobView {
    if job.stage == JobStage::Transcribing || job.delivery_status == DeliveryStatus::Attempting {
        JobView {
            stage: JobStage::Failed,
            error_message: Some(message),
            delivery_status: if job.delivery_status == DeliveryStatus::Attempting {
                DeliveryStatus::Ambiguous
            } else {
                job.delivery_status
            },
            ..job
        }
    } else {
        job
    }
}

/// Whether the user may transcribe a Recovery item again; a recording
/// discarded with Esc may still be transcribed by choice.
pub open spec fn may_retry_transcription(job: JobView) -> bool {
    job.delivery_status != DeliveryStatus::Ambiguous && (job.stage == JobStage::Captured
        || job.stage == JobStage::Interrupted || job.stage == JobStage::Failed || job.stage
        == JobStage::Cancelled)
}

/// Whether the user may paste a Recovery item's stored text again.
pub open spec fn may_retry_delivery(job: JobView) -> bool {
    &&& job.delivery_status != DeliveryStatus::Attempting
    &&& !is_blank(job.final_text)
    &&& !(job.stage == JobStage::Starting || job.stage == JobStage::Recording || job.stage
        == JobStage::Captured || job.stage == JobStage::Transcribing || job.stage
        == JobStage::Delivered || job.stage == JobStage::Deleted)
}

/// A discarded recording longer than this many milliseconds is kept in
/// Recovery as `Cancelled`; a shorter one is deleted at once.
pub const KEPT_CANCEL_MILLIS: u64 = 5000;

/// The stage a recording discarded with Esc ends in, from its length in
/// milliseconds.
pub open spec fn spec_discarded_stage(duration_millis: u64) -> JobStage {
    if duration_millis > KEPT_CANCEL_MILLIS {
        JobStage::Cancelled
    } else {
        JobStage::Deleted
    }
}

/// Whether the user may delete a job's recovery data.
pub open spec fn may_delete_recovery(stage: JobStage) -> bool {
    !(stage == JobStage::Starting || stage == JobStage::Recording || stage
        == JobStage::Transcribing || stage == JobStage::Delivered || stage == JobStage::Deleted)
}

/// The message a job interrupted by a stopped daemon gets when it has none.
pub open spec fn stopped_message() -> Seq<char> {
    "AgentDictate stopped before this dictation completed"@
}

pub open spec fn interrupted_attempt_message() -> Seq<char> {
    "delivery was interrupted after the attempt began"@
}

/// What the daemon's start makes of a job a crash left behind: a paste that
/// was attempting becomes ambiguous, then a job still starting, recording
/// or transcribing is interrupted, keeping its message if it has one.
pub open spec fn spec_reconcile(job: JobView) -> JobView {
    let settled = if job.delivery_status == DeliveryStatus::Attempting {
        spec_mark_ambiguous(job, job.copied_to_clipboard, interrupted_attempt_message())
    } else {
        job
    };
    if settled.stage == JobStage::Starting || settled.stage == JobStage::Recording || settled.stage
        == JobStage::Transcribing {
        at_stage(
            settled,
            JobStage::Interrupted,
            Some(
                match settled.error_message {
                    Some(m) => m,
                    None => stopped_message(),
                },
            ),
        )
    } else {
        settled
    }
}

/// Whether Recovery lists a job at `stage`: a recording or transcript the
/// user can still retry, or a recording discarded with Esc and kept.
pub open spec fn spec_is_recovery_stage(stage: JobStage) -> bool {
    stage == JobStage::Captured || stage == JobStage::ReadyToDeliver || stage
        == JobStage::Interrupted || stage == JobStage::Failed || stage == JobStage::Cancelled
}

/// Days a Recovery item at `stage` stays after its last change.
pub open spec fn spec_recovery_lifetime_days(stage: JobStage) -> int {
    if stage == JobStage::Cancelled { 1 } else { 7 }
}

impl JobId {
    pub fn duplicate(&self) -> (r: JobId)
        ensures
            r == *self,
    {
        JobId(self.0.clone())
    }
}

pub fn clone_opt(o: &Option<String>) -> (r: Option<String>)
    ensures
        opt_view(r) == opt_view(*o),
{
    match o {
        Some(s) => Some(s.clone()),
        None => None,
    }
}

fn concat(prefix: &str, rest: &str) -> (r: String)
    ensures
        r@ == prefix@ + rest@,
{
    let mut r = String::from_str(prefix);
    r.append(rest);
    r
}

impl JobRecord {
    /// Moves a `Recording` job to `Captured`; any other stage is refused.
    pub fn capture(self) -> (r: Result<JobRecord, RuntimeError>)
        ensures
            r matches Ok(j) ==> spec_capture(self@) == Some(j@) && same_job(j, self),
            r matches Err(e) ==> spec_capture(self@) is None && e == (RuntimeError::InvalidStage {
                job_id: self.id,
                expected: JobStage::Recording,
                actual: self.stage,
            }),
    {
        if self.stage != JobStage::Recording {
            let actual = self.stage;
            return Err(RuntimeError::InvalidStage { job_id: self.id, expected: JobStage::Recording, actual });
        }
        Ok(JobRecord { stage: JobStage::Captured, error_message: None, ..self })
    }

    /// Interrupts a job that is still at `at`, recording `message`.
    pub fn interrupt(self, at: JobStage, message: String) -> (r: Result<JobRecord, RuntimeError>)
        ensures
            r matches Ok(j) ==> spec_interrupt(self@, at, message@) == Some(j@) && same_job(j, self),
            r matches Err(e) ==> spec_interrupt(self@, at, message@) is None && e == (
            RuntimeError::InvalidStage { job_id: self.id, expected: at, actual: self.stage }),
    {
        if self.stage != at {
            let actual = self.stage;
            return Err(RuntimeError::InvalidStage { job_id: self.id, expected: at, actual });
        }
        Ok(JobRecord { stage: JobStage::Interrupted, error_message: Some(message), ..self })
    }

    /// Starts transcription of a `Captured` job; any other stage is
    /// refused, so a repeated signal cannot transcribe or paste again.
    pub fn begin_processing(self) -> (r: Result<JobRecord, RuntimeError>)
        ensures
            r matches Ok(j) ==> spec_begin_processing(self@) == Some(j@) && same_job(j, self),
            r matches Err(e) ==> spec_begin_processing(self@) is None && e == (
            RuntimeError::InvalidStage {
                job_id: self.id,
                expected: JobStage::Captured,
                actual: self.stage,
            }),
    {
        if self.stage != JobStage::Captured {
            let actual = self.stage;
            return Err(RuntimeError::InvalidStage { job_id: self.id, expected: JobStage::Captured, actual });
        }
        Ok(JobRecord { stage: JobStage::Transcribing, error_message: None, ..self })
    }

    /// Checks that a job being completed was delivered.
    pub fn check_delivered(&self) -> (r: Result<(), RuntimeError>)
        ensures
            r is Ok <==> self.stage == JobStage::Delivered,
            r matches Err(e) ==> e == (RuntimeError::InvalidStage {
                job_id: self.id,
                expected: JobStage::Delivered,
                actual: self.stage,
            }),
    {
        if self.stage != JobStage::Delivered {
            return Err(RuntimeError::InvalidStage {
                job_id: self.id.duplicate(),
                expected: JobStage::Delivered,
                actual: self.stage,
            });
        }
        Ok(())
    }

    /// Checks that the job can be discarded: only a `Captured` recording.
    pub fn check_discard(&self) -> (r: Result<(), RuntimeError>)
        ensures
            r is Ok <==> self.stage == JobStage::Captured,
            r matches Err(e) ==> e == (RuntimeError::InvalidStage {
                job_id: self.id,
                expected: JobStage::Captured,
                actual: self.stage,
            }),
    {
        if self.stage != JobStage::Captured {
            return Err(RuntimeError::InvalidStage {
                job_id: self.id.duplicate(),
                expected: JobStage::Captured,
                actual: self.stage,
            });
        }
        Ok(())
    }

    /// Where a discarded recording of `duration_millis` ends: kept in
    /// Recovery for a day as `Cancelled` when longer than five seconds,
    /// deleted otherwise.
    pub fn discarded_stage(duration_millis: u64) -> (stage: JobStage)
        ensures
            stage == spec_discarded_stage(duration_millis),
    {
        if duration_millis > KEPT_CANCEL_MILLIS {
            JobStage::Cancelled
        } else {
            JobStage::Deleted
        }
    }

    /// A failed transcription: the job fails with `message`.
    pub fn transcription_failed(self, message: String) -> (j: JobRecord)
        ensures
            j@ == at_stage(self@, JobStage::Failed, Some(message@)),
            same_job(j, self),
    {
        JobRecord { stage: JobStage::Failed, error_message: Some(message), ..self }
    }

    /// Stores the transcript and the model that produced it.
    pub fn accept_transcript(self, text: String, model: String) -> (j: JobRecord)
        ensures
            j@ == spec_accept_transcript(self@, text@, model@),
            same_job(j, self),
    {
        JobRecord { raw_transcript: text, transcription_model: model, ..self }
    }

    /// Stores the final text, ready to paste.
    pub fn ready_to_deliver(self, final_text: String) -> (j: JobRecord)
        ensures
            j@ == spec_ready_to_deliver(self@, final_text@),
            same_job(j, self),
    {
        JobRecord {
            stage: JobStage::ReadyToDeliver,
            final_text,
            error_message: None,
            delivery_status: DeliveryStatus::NotAttempted,
            ..self
        }
    }

    /// The delivery gate refused: nothing was sent, the job stays ready,
    /// and its message says why.
    pub fn block_delivery(self, reason: &str) -> (j: JobRecord)
        ensures
            j@ == (JobView { error_message: Some(blocked_message(reason@)), ..self@ }),
            same_job(j, self),
    {
        let message = concat("delivery blocked before paste: ", reason);
        JobRecord { error_message: Some(message), ..self }
    }

    /// Marks the paste as attempting before it is sent.
    pub fn begin_delivery(self) -> (j: JobRecord)
        ensures
            j@ == spec_begin_delivery(self@),
            same_job(j, self),
    {
        JobRecord { delivery_status: DeliveryStatus::Attempting, ..self }
    }

    /// The paste may have happened: the job fails as ambiguous.
    pub fn mark_delivery_ambiguous(self, copied_to_clipboard: bool, message: String) -> (j: JobRecord)
        ensures
            j@ == spec_mark_ambiguous(self@, copied_to_clipboard, message@),
            same_job(j, self),
    {
        JobRecord {
            stage: JobStage::Failed,
            copied_to_clipboard,
            delivery_status: DeliveryStatus::Ambiguous,
            error_message: Some(message),
            ..self
        }
    }

    /// The deliverer failed after the attempt began: the paste may have
    /// happened, so the job fails as ambiguous, with the error's text.
    pub fn delivery_failed(self, error: &str) -> (j: JobRecord)
        ensures
            j@ == spec_mark_ambiguous(self@, false, "delivery result is ambiguous: "@ + error@),
            same_job(j, self),
    {
        let message = concat("delivery result is ambiguous: ", error);
        self.mark_delivery_ambiguous(false, message)
    }

    /// Records how the paste attempt ended.
    pub fn record_disposition(self, disposition: DeliveryDisposition) -> (j: JobRecord)
        ensures
            j@ == spec_record_disposition(self@, disposition),
            same_job(j, self),
    {
        match disposition {
            DeliveryDisposition::Submitted { copied_to_clipboard, paste_triggered } => JobRecord {
                stage: JobStage::Delivered,
                copied_to_clipboard,
                paste_triggered,
                delivery_status: DeliveryStatus::Submitted,
                error_message: None,
                ..self
            },
            DeliveryDisposition::Ambiguous { copied_to_clipboard } => {
                let message = String::from_str("delivery may have reached the focused application");
                self.mark_delivery_ambiguous(copied_to_clipboard, message)
            },
            DeliveryDisposition::NotSent { copied_to_clipboard, reason } => JobRecord {
                copied_to_clipboard,
                delivery_status: DeliveryStatus::NotAttempted,
                error_message: Some(reason),
                ..self
            },
        }
    }

    /// Records `message` on a job a failed step left in flight.
    pub fn fail(self, message: String) -> (j: JobRecord)
        ensures
            j@ == spec_fail(self@, message@),
            same_job(j, self),
    {
        if self.stage == JobStage::Transcribing || self.delivery_status == DeliveryStatus::Attempting {
            let delivery_status = if self.delivery_status == DeliveryStatus::Attempting {
                DeliveryStatus::Ambiguous
            } else {
                self.delivery_status
            };
            JobRecord { stage: JobStage::Failed, error_message: Some(message), delivery_status, ..self }
        } else {
            self
        }
    }

    /// Prepares an explicit transcription retry: refused for a paste that
    /// may have landed and for a job that is not a recoverable recording.
    /// Its transcript is only copied: a retry never sends a paste shortcut.
    pub fn retry_transcription(self) -> (r: Result<(JobRecord, DeliveryMethod), RuntimeError>)
        ensures
            r is Ok <==> may_retry_transcription(self@),
            r matches Ok((j, method)) ==> method == DeliveryMethod::CopyOnly && j@ == (JobView {
                stage: JobStage::Captured,
                delivery_status: DeliveryStatus::NotAttempted,
                error_message: None,
                ..self@
            }) && same_job(j, self),
            r matches Err(e) ==> e == (RuntimeError::OperationNotAllowed {
                operation: "retry transcription for",
                job_id: self.id,
                stage: self.stage,
                reason: if self.delivery_status == DeliveryStatus::Ambiguous {
                    "the previous delivery may already have reached the focused application"
                } else {
                    "the job is not in a recoverable transcription state"
                },
            }),
    {
        if self.delivery_status == DeliveryStatus::Ambiguous {
            let stage = self.stage;
            return Err(RuntimeError::OperationNotAllowed {
                operation: "retry transcription for",
                job_id: self.id,
                stage,
                reason: "the previous delivery may already have reached the focused application",
            });
        }
        if !(self.stage == JobStage::Captured || self.stage == JobStage::Interrupted || self.stage
            == JobStage::Failed || self.stage == JobStage::Cancelled) {
            let stage = self.stage;
            return Err(RuntimeError::OperationNotAllowed {
                operation: "retry transcription for",
                job_id: self.id,
                stage,
                reason: "the job is not in a recoverable transcription state",
            });
        }
        Ok((JobRecord {
            stage: JobStage::Captured,
            delivery_status: DeliveryStatus::NotAttempted,
            error_message: None,
            ..self
        }, DeliveryMethod::CopyOnly))
    }

    fn ok_record(j: JobRecord) -> (r: Result<JobRecord, RuntimeError>)
        ensures
            r == Ok::<JobRecord, RuntimeError>(j),
    {
        Ok(j)
    }

    /// Prepares an explicit retry of the stored text: refused while an
    /// earlier attempt has no durable outcome, and for a job without a
    /// recoverable stored transcript. The retry only copies the text: it
    /// never sends a paste shortcut.
    pub fn retry_delivery(self) -> (r: Result<(JobRecord, DeliveryMethod), RuntimeError>)
        ensures
            r is Ok <==> may_retry_delivery(self@),
            r matches Ok((j, method)) ==> method == DeliveryMethod::CopyOnly && j@ == (JobView {
                stage: JobStage::ReadyToDeliver,
                delivery_status: DeliveryStatus::NotAttempted,
                error_message: None,
                ..self@
            }) && same_job(j, self),
            r matches Err(e) ==> e == (RuntimeError::OperationNotAllowed {
                operation: "retry delivery for",
                job_id: self.id,
                stage: self.stage,
                reason: if self.delivery_status == DeliveryStatus::Attempting {
                    "the previous paste attempt has no durable outcome yet"
                } else {
                    "the job does not have a recoverable stored transcript"
                },
            }),
    {
        if self.delivery_status == DeliveryStatus::Attempting {
            let stage = self.stage;
            return Err(RuntimeError::OperationNotAllowed {
                operation: "retry delivery for",
                job_id: self.id,
                stage,
                reason: "the previous paste attempt has no durable outcome yet",
            });
        }
        let text = chars_of(self.final_text.as_str());
        if is_blank_chars(text.as_slice()) || self.stage == JobStage::Starting || self.stage
            == JobStage::Recording || self.stage == JobStage::Captured || self.stage
            == JobStage::Transcribing || self.stage == JobStage::Delivered || self.stage
            == JobStage::Deleted {
            let stage = self.stage;
            return Err(RuntimeError::OperationNotAllowed {
                operation: "retry delivery for",
                job_id: self.id,
                stage,
                reason: "the job does not have a recoverable stored transcript",
            });
        }
        Ok((JobRecord {
            stage: JobStage::ReadyToDeliver,
            delivery_status: DeliveryStatus::NotAttempted,
            error_message: None,
            ..self
        }, DeliveryMethod::CopyOnly))
    }

    /// Checks that the job's recovery data may be deleted.
    pub fn check_delete_recovery(&self) -> (r: Result<(), RuntimeError>)
        ensures
            r is Ok <==> may_delete_recovery(self.stage),
            r matches Err(e) ==> e == (RuntimeError::OperationNotAllowed {
                operation: "delete recovery for",
                job_id: self.id,
                stage: self.stage,
                reason: "the job is active, delivered, or already deleted",
            }),
    {
        if !may_delete(self.stage) {
            return Err(RuntimeError::OperationNotAllowed {
                operation: "delete recovery for",
                job_id: self.id.duplicate(),
                stage: self.stage,
                reason: "the job is active, delivered, or already deleted",
            });
        }
        Ok(())
    }

    /// What the daemon's start makes of this job.
    pub fn reconcile(self) -> (j: JobRecord)
        ensures
            j@ == spec_reconcile(self@),
            same_job(j, self),
    {
        let settled = if self.delivery_status == DeliveryStatus::Attempting {
            let copied = self.copied_to_clipboard;
            let message = String::from_str("delivery was interrupted after the attempt began");
            self.mark_delivery_ambiguous(copied, message)
        } else {
            self
        };
        if settled.stage == JobStage::Starting || settled.stage == JobStage::Recording
            || settled.stage == JobStage::Transcribing {
            let message = match settled.error_message {
                Some(m) => m,
                None => String::from_str("AgentDictate stopped before this dictation completed"),
            };
            JobRecord { stage: JobStage::Interrupted, error_message: Some(message), ..settled }
        } else {
            settled
        }
    }
}

fn may_delete(stage: JobStage) -> (r: bool)
    ensures
        r == may_delete_recovery(stage),
{
    !(stage == JobStage::Starting || stage == JobStage::Recording || stage
        == JobStage::Transcribing || stage == JobStage::Delivered || stage == JobStage::Deleted)
}

/// The message of a recording stopped because its `Recording` checkpoint
/// failed, with the recorder's failure to undo its start when there was
/// one.
pub fn checkpoint_failure_message(checkpoint_error: &str, compensation_error: Option<&str>) -> (message: String)
    ensures
        message@ == "recording stopped because its durable checkpoint failed: "@ + checkpoint_error@ + match compensation_error {
            Some(e) => "; recorder compensation also failed: "@ + e@,
            None => Seq::empty(),
        },
{
    let mut message = concat("recording stopped because its durable checkpoint failed: ", checkpoint_error);
    match compensation_error {
        Some(e) => {
            message.append("; recorder compensation also failed: ");
            message.append(e);
        },
        None => {},
    }
    message
}

/// Whether Recovery lists a job at `stage`.
pub fn is_recovery_stage(stage: JobStage) -> (r: bool)
    ensures
        r == spec_is_recovery_stage(stage),
{
    stage == JobStage::Captured || stage == JobStage::ReadyToDeliver || stage
        == JobStage::Interrupted || stage == JobStage::Failed || stage == JobStage::Cancelled
}

/// Days a Recovery item at `stage` stays after its last change: one for
/// a cancelled recording, seven otherwise.
pub fn recovery_lifetime_days(stage: JobStage) -> (days: i64)
    ensures
        days == spec_recovery_lifetime_days(stage),
{
    if stage == JobStage::Cancelled { 1 } else { 7 }
}

} // verus!

verus! {

/// Every stage reads back as itself from its stored spelling.
pub proof fn lemma_stage_name_round_trip(stage: JobStage)
    ensures
        spec_parse_stage(spec_stage_name(stage)) == Some(stage),
{
    reveal_strlit("starting");
    assert("starting"@.len() == 8 && "starting"@[0] == 's');
    reveal_strlit("recording");
    assert("recording"@.len() == 9 && "recording"@[0] == 'r');
    reveal_strlit("captured");
    assert("captured"@.len() == 8 && "captured"@[0] == 'c');
    reveal_strlit("transcribing");
    assert("transcribing"@.len() == 12 && "transcribing"@[0] == 't');
    reveal_strlit("ready_to_deliver");
    assert("ready_to_deliver"@.len() == 16 && "ready_to_deliver"@[0] == 'r');
    reveal_strlit("delivered");
    assert("delivered"@.len() == 9 && "delivered"@[0] == 'd');
    reveal_strlit("no_speech");
    assert("no_speech"@.len() == 9 && "no_speech"@[0] == 'n');
    reveal_strlit("interrupted");
    assert("interrupted"@.len() == 11 && "interrupted"@[0] == 'i');
    reveal_strlit("failed");
    assert("failed"@.len() == 6 && "failed"@[0] == 'f');
    reveal_strlit("deleted");
    assert("deleted"@.len() == 7 && "deleted"@[0] == 'd');
    reveal_strlit("cancelled");
    assert("cancelled"@.len() == 9 && "cancelled"@[0] == 'c');
}

/// Every delivery status reads back as itself from its stored spelling.
pub proof fn lemma_delivery_status_name_round_trip(status: DeliveryStatus)
    ensures
        spec_parse_delivery_status(spec_delivery_status_name(status)) == Some(status),
{
    reveal_strlit("not_attempted");
    assert("not_attempted"@.len() == 13 && "not_attempted"@[0] == 'n');
    reveal_strlit("attempting");
    assert("attempting"@.len() == 10 && "attempting"@[0] == 'a');
    reveal_strlit("submitted");
    assert("submitted"@.len() == 9 && "submitted"@[0] == 's');
    reveal_strlit("ambiguous");
    assert("ambiguous"@.len() == 9 && "ambiguous"@[0] == 'a');
}

/// After the daemon starts, no job is left starting, recording or
/// transcribing, no paste is left attempting, the text of every job is
/// kept, and starting again changes nothing more.
pub proof fn lemma_reconcile_settles(job: JobView)
    ensures
        spec_reconcile(job).stage != JobStage::Starting,
        spec_reconcile(job).stage != JobStage::Recording,
        spec_reconcile(job).stage != JobStage::Transcribing,
        spec_reconcile(job).delivery_status != DeliveryStatus::Attempting,
        spec_reconcile(job).raw_transcript == job.raw_transcript,
        spec_reconcile(job).final_text == job.final_text,
        spec_reconcile(spec_reconcile(job)) == spec_reconcile(job),
{
}

/// A paste that was attempting when the daemon stopped is never pasted or
/// transcribed again on its own: it reopens as ambiguous, and an ambiguous
/// job refuses a transcription retry.
pub proof fn lemma_attempted_paste_never_replayed(job: JobView, message: Seq<char>)
    requires
        job.delivery_status == DeliveryStatus::Attempting,
    ensures
        spec_reconcile(job).delivery_status == DeliveryStatus::Ambiguous,
        spec_reconcile(job).stage == JobStage::Failed,
        !may_retry_transcription(spec_reconcile(job)),
        spec_begin_processing(spec_reconcile(job)) is None,
        spec_fail(job, message).delivery_status == DeliveryStatus::Ambiguous,
        !may_retry_transcription(spec_fail(job, message)),
{
}

/// A delivered job cannot be transcribed or pasted again: processing,
/// retrying its transcription or its paste, and deleting it as Recovery
/// are all refused.
pub proof fn lemma_delivered_is_final(job: JobView, copied: bool, pasted: bool)
    requires
        job.delivery_status == DeliveryStatus::Attempting,
    ensures
        ({
            let delivered = spec_record_disposition(
                job,
                DeliveryDisposition::Submitted { copied_to_clipboard: copied, paste_triggered: pasted },
            );
            &&& delivered.stage == JobStage::Delivered
            &&& spec_begin_processing(delivered) is None
            &&& !may_retry_transcription(delivered)
            &&& !may_retry_delivery(delivered)
            &&& !may_delete_recovery(delivered.stage)
        }),
{
}

/// A failed step never loses the paid-for transcript or the final text.
pub proof fn lemma_fail_keeps_text(job: JobView, message: Seq<char>)
    ensures
        spec_fail(job, message).raw_transcript == job.raw_transcript,
        spec_fail(job, message).final_text == job.final_text,
        spec_fail(job, message).stage != JobStage::Transcribing,
        spec_fail(job, message).delivery_status != DeliveryStatus::Attempting,
{
}

/// A paste that failed before anything was sent leaves the job ready to
/// paste again explicitly.
pub proof fn lemma_not_sent_stays_retryable(job: JobView, copied: bool, reason: String)
    requires
        job.stage == JobStage::ReadyToDeliver,
        !is_blank(job.final_text),
    ensures
        may_retry_delivery(
            spec_record_disposition(
                spec_begin_delivery(job),
                DeliveryDisposition::NotSent { copied_to_clipboard: copied, reason },
            ),
        ),
{
}

} // verus!

verus! {

/// Reads a stored delivery status; an unknown spelling is an error that
/// names it.
pub fn parse_delivery_status(value: &str) -> (r: Result<DeliveryStatus, RuntimeError>)
    ensures
        r matches Ok(status) ==> spec_parse_delivery_status(value@) == Some(status),
        r is Err ==> spec_parse_delivery_status(value@) is None,
        r matches Err(e) ==> (e matches RuntimeError::InvalidJobId(m) && m@ == "unknown delivery status "@
            + debug_text(value@)),
{
    if str_eq(value, "not_attempted") {
        Ok(DeliveryStatus::NotAttempted)
    } else if str_eq(value, "attempting") {
        Ok(DeliveryStatus::Attempting)
    } else if str_eq(value, "submitted") {
        Ok(DeliveryStatus::Submitted)
    } else if str_eq(value, "ambiguous") {
        Ok(DeliveryStatus::Ambiguous)
    } else {
        let mut message = String::from_str("unknown delivery status ");
        message.append(debug_quoted(value).as_str());
        Err(RuntimeError::InvalidJobId(message))
    }
}

} // verus!

verus! {

/// The instant that `chrono::DateTime::parse_from_rfc3339` reads from the
/// text, as seconds since the Unix epoch and nanoseconds past that second,
/// or `None` where it refuses the text.
pub uninterp spec fn rfc3339_instant(text: Seq<char>) -> Option<(int, int)>;

/// Calls `chrono::DateTime::parse_from_rfc3339` and gives the instant it
/// read, in UTC, as `timestamp()` and `timestamp_subsec_nanos()`. Claimed:
/// the same text gives the same answer, and it is `None` exactly where the
/// parse fails. Nothing of RFC 3339's grammar is stated.
#[verifier::external_body]
pub(crate) fn parse_rfc3339_instant(text: &str) -> (r: Option<(i64, u32)>)
    ensures
        r matches Some(p) ==> rfc3339_instant(text@) == Some((p.0 as int, p.1 as int)),
        r is None ==> rfc3339_instant(text@) is None,
{
    match chrono::DateTime::parse_from_rfc3339(text) {
        Ok(instant) => Some((instant.timestamp(), instant.timestamp_subsec_nanos())),
        Err(_) => None,
    }
}

/// A job row as the database stores it.
pub struct JobRow {
    pub id: String,
    pub started_at: String,
    pub updated_at: String,
    pub stage: String,
    pub delivery_status: String,
    pub transcription_model: String,
    pub raw_transcript: String,
    pub final_text: String,
    pub copied_to_clipboard: bool,
    pub paste_triggered: bool,
    pub error_message: Option<String>,
}

/// The message for a stored timestamp that does not parse.
pub open spec fn invalid_timestamp_message(value: Seq<char>) -> Seq<char> {
    "invalid timestamp "@ + debug_text(value)
}

/// The instant that `text` names, where it names one.
pub open spec fn spec_timestamp(text: Seq<char>) -> Timestamp {
    Timestamp {
        seconds: rfc3339_instant(text).unwrap().0 as i64,
        nanos: rfc3339_instant(text).unwrap().1 as u32,
    }
}

/// Reads a stored timestamp; text that is not RFC 3339 is an error that
/// names it.
pub fn parse_timestamp(value: &str) -> (r: Result<Timestamp, RuntimeError>)
    ensures
        r is Ok <==> rfc3339_instant(value@) is Some,
        r matches Ok(t) ==> rfc3339_instant(value@) == Some((t.seconds as int, t.nanos as int)),
        r matches Err(e) ==> e matches RuntimeError::InvalidJobId(m) && m@ == invalid_timestamp_message(value@),
{
    match parse_rfc3339_instant(value) {
        Some((seconds, nanos)) => Ok(Timestamp { seconds, nanos }),
        None => {
            let mut message = String::from_str("invalid timestamp ");
            message.append(debug_quoted(value).as_str());
            Err(RuntimeError::InvalidJobId(message))
        },
    }
}

/// Whether every stored field of `row` that is parsed reads back.
pub open spec fn row_parses(row: JobRow) -> bool {
    &&& rfc3339_instant(row.started_at@) is Some
    &&& rfc3339_instant(row.updated_at@) is Some
    &&& spec_parse_stage(row.stage@) is Some
    &&& spec_parse_delivery_status(row.delivery_status@) is Some
}

/// The job that a row holds, once every field parses.
pub open spec fn row_view(row: JobRow) -> JobView {
    JobView {
        stage: spec_parse_stage(row.stage@).unwrap(),
        delivery_status: spec_parse_delivery_status(row.delivery_status@).unwrap(),
        transcription_model: row.transcription_model@,
        raw_transcript: row.raw_transcript@,
        final_text: row.final_text@,
        copied_to_clipboard: row.copied_to_clipboard,
        paste_triggered: row.paste_triggered,
        error_message: opt_view(row.error_message),
    }
}

/// Decodes a stored job row. The start time is read first, then the last
/// change, the stage and the delivery status; the first that does not
/// parse is the error.
pub fn job_from_row(row: JobRow) -> (r: Result<JobRecord, RuntimeError>)
    ensures
        r is Ok <==> row_parses(row),
        r matches Ok(job) ==> {
            &&& job@ == row_view(row)
            &&& job.id.0@ == row.id@
            &&& job.started_at == spec_timestamp(row.started_at@)
            &&& job.updated_at == spec_timestamp(row.updated_at@)
        },
        r matches Err(e) ==> e matches RuntimeError::InvalidJobId(m) && m@ == (
            if rfc3339_instant(row.started_at@) is None {
                invalid_timestamp_message(row.started_at@)
            } else if rfc3339_instant(row.updated_at@) is None {
                invalid_timestamp_message(row.updated_at@)
            } else if spec_parse_stage(row.stage@) is None {
                "unknown stage "@ + debug_text(row.stage@)
            } else {
                "unknown delivery status "@ + debug_text(row.delivery_status@)
            }),
{
    let started_at = match parse_timestamp(row.started_at.as_str()) {
        Ok(t) => t,
        Err(e) => return Err(e),
    };
    let updated_at = match parse_timestamp(row.updated_at.as_str()) {
        Ok(t) => t,
        Err(e) => return Err(e),
    };
    let stage = match parse_stage(row.stage.as_str()) {
        Ok(s) => s,
        Err(e) => return Err(e),
    };
    let delivery_status = match parse_delivery_status(row.delivery_status.as_str()) {
        Ok(s) => s,
        Err(e) => return Err(e),
    };
    Ok(JobRecord {
        id: JobId(row.id),
        started_at,
        updated_at,
        stage,
        delivery_status,
        transcription_model: row.transcription_model,
        raw_transcript: row.raw_transcript,
        final_text: row.final_text,
        copied_to_clipboard: row.copied_to_clipboard,
        paste_triggered: row.paste_triggered,
        error_message: row.error_message,
    })
}

} // verus!

verus! {

/// The stage an older release's spelling stands for: `cleaning` became
/// `transcribing`, `canceled` became `interrupted`, and a paste cut off at
/// `delivering` became `failed`.
pub open spec fn spec_legacy_stage(stage: Seq<char>) -> Seq<char> {
    if stage == "cleaning"@ {
        "transcribing"@
    } else if stage == "canceled"@ {
        "interrupted"@
    } else if stage == "delivering"@ {
        "failed"@
    } else {
        stage
    }
}

/// The delivery status an older release's row stands for: `committed` is
/// `submitted`, and a paste cut off at `delivering` before any attempt was
/// recorded may have landed.
pub open spec fn spec_legacy_delivery_status(stage: Seq<char>, status: Seq<char>) -> Seq<char> {
    let renamed = if status == "committed"@ { "submitted"@ } else { status };
    if stage == "delivering"@ && renamed == "not_attempted"@ {
        "ambiguous"@
    } else {
        renamed
    }
}

pub open spec fn spec_legacy_error_message(stage: Seq<char>, message: Option<Seq<char>>) -> Option<Seq<char>> {
    if stage == "delivering"@ && message is None {
        Some(interrupted_attempt_message())
    } else {
        message
    }
}

/// Rewrites the spellings of older releases, which the app never writes,
/// into the stages and statuses they stand for. The daemon's start then
/// settles the job: a `cleaning` row, now `transcribing`, is interrupted.
pub fn repair_legacy_spelling(row: JobRow) -> (r: JobRow)
    ensures
        r.stage@ == spec_legacy_stage(row.stage@),
        r.delivery_status@ == spec_legacy_delivery_status(row.stage@, row.delivery_status@),
        opt_view(r.error_message) == spec_legacy_error_message(row.stage@, opt_view(row.error_message)),
        r.id@ == row.id@,
        r.started_at@ == row.started_at@,
        r.updated_at@ == row.updated_at@,
        r.transcription_model@ == row.transcription_model@,
        r.raw_transcript@ == row.raw_transcript@,
        r.final_text@ == row.final_text@,
        r.copied_to_clipboard == row.copied_to_clipboard,
        r.paste_triggered == row.paste_triggered,
{
    let delivering = str_eq(row.stage.as_str(), "delivering");
    let renamed = if str_eq(row.delivery_status.as_str(), "committed") {
        String::from_str("submitted")
    } else {
        row.delivery_status
    };
    let delivery_status = if delivering && str_eq(renamed.as_str(), "not_attempted") {
        String::from_str("ambiguous")
    } else {
        renamed
    };
    let stage = if str_eq(row.stage.as_str(), "cleaning") {
        String::from_str("transcribing")
    } else if str_eq(row.stage.as_str(), "canceled") {
        String::from_str("interrupted")
    } else if delivering {
        String::from_str("failed")
    } else {
        row.stage
    };
    let error_message = match row.error_message {
        Some(m) => Some(m),
        None => if delivering {
            Some(String::from_str("delivery was interrupted after the attempt began"))
        } else {
            None
        },
    };
    proof {
        reveal_strlit("delivery was interrupted after the attempt began");
    }
    JobRow {
        id: row.id,
        started_at: row.started_at,
        updated_at: row.updated_at,
        stage,
        delivery_status,
        transcription_model: row.transcription_model,
        raw_transcript: row.raw_transcript,
        final_text: row.final_text,
        copied_to_clipboard: row.copied_to_clipboard,
        paste_triggered: row.paste_triggered,
        error_message,
    }
}

/// A row left by an older release at `cleaning` reads as `transcribing`,
/// which the daemon's start interrupts (or, with a paste attempt in flight,
/// fails as ambiguous); one left at `delivering` reads as a failed job that
/// start leaves failed.
pub proof fn lemma_legacy_rows_settle(stage: Seq<char>, job: JobView)
    requires
        stage == "cleaning"@ || stage == "delivering"@,
        spec_parse_stage(spec_legacy_stage(stage)) == Some(job.stage),
    ensures
        stage == "cleaning"@ ==> spec_reconcile(job).stage == if job.delivery_status
            == DeliveryStatus::Attempting {
            JobStage::Failed
        } else {
            JobStage::Interrupted
        },
        stage == "delivering"@ ==> spec_reconcile(job).stage == JobStage::Failed,
{
    reveal_strlit("cleaning");
    reveal_strlit("delivering");
    reveal_strlit("canceled");
    reveal_strlit("transcribing");
    reveal_strlit("failed");
    reveal_strlit("starting");
    reveal_strlit("recording");
    reveal_strlit("captured");
    reveal_strlit("ready_to_deliver");
    reveal_strlit("delivered");
    reveal_strlit("no_speech");
    reveal_strlit("interrupted");
    reveal_strlit("deleted");
    reveal_strlit("cancelled");
    assert("delivering"@.len() == 10);
    assert("cleaning"@.len() == 8);
    assert("canceled"@.len() == 8);
    assert("transcribing"@.len() == 12);
    assert("starting"@.len() == 8);
    assert("recording"@.len() == 9);
    assert("captured"@.len() == 8);
    assert("failed"@.len() == 6);
    assert("ready_to_deliver"@.len() == 16);
    assert("delivered"@.len() == 9);
    assert("no_speech"@.len() == 9);
    assert("interrupted"@.len() == 11);
    assert("deleted"@.len() == 7);
    assert("cancelled"@.len() == 9);
    assert("recording"@[0] != "delivered"@[0]);
    assert("recording"@[0] != "no_speech"@[0]);
    assert("captured"@[0] != "starting"@[0]);
    assert(spec_legacy_stage("cleaning"@) == "transcribing"@);
    assert(spec_legacy_stage("delivering"@) == "failed"@);
    assert(spec_parse_stage("transcribing"@) == Some(JobStage::Transcribing));
    assert(spec_parse_stage("failed"@) == Some(JobStage::Failed));
}

/// A Recovery item's transcription may be retried unless its paste may
/// have landed: a captured, interrupted or failed job, or a kept discarded
/// recording, is accepted and returns to `Captured` with no paste attempted
/// and no message; any other job is refused.
pub proof fn lemma_transcription_retry_accepts(job: JobView)
    ensures
        job.delivery_status != DeliveryStatus::Ambiguous && (job.stage == JobStage::Captured || job.stage
            == JobStage::Interrupted || job.stage == JobStage::Failed || job.stage == JobStage::Cancelled)
            ==> may_retry_transcription(job),
        job.delivery_status == DeliveryStatus::Ambiguous ==> !may_retry_transcription(job),
        (job.stage == JobStage::Starting || job.stage == JobStage::Recording || job.stage
            == JobStage::Transcribing || job.stage == JobStage::ReadyToDeliver || job.stage
            == JobStage::Delivered || job.stage == JobStage::NoSpeech || job.stage == JobStage::Deleted)
            ==> !may_retry_transcription(job),
{
}

} // verus!
