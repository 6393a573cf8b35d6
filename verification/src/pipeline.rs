//! The decisions of one dictation's way from a captured recording to the
//! focused application. The runtime performs each action (transcribe, turn
//! the transcript into the text to deliver, confirm the delivery gate,
//! deliver, record the dictation) and hands back what happened; `step`
//! gives the job's next durable state and the next action. Every state it
//! gives is a checkpoint the daemon's start can settle.

use vstd::prelude::*;

use crate::job::{
    at_stage, blocked_message, same_job, spec_accept_transcript, spec_begin_delivery,
    spec_begin_processing, spec_mark_ambiguous, spec_ready_to_deliver, spec_record_disposition,
    DeliveryDisposition, DeliveryStatus, JobRecord, JobStage, JobView,
};
use crate::ports::DeliveryMethod;

verus! {

/// What happened when the runtime performed the last action.
#[derive(Debug, PartialEq, Eq)]
pub enum PipelineEvent {
    /// The user or the shortcut asked to process a captured recording.
    Process,
    /// The transcriber returned `text`, produced by `model`.
    Transcribed { text: String, model: String },
    /// The transcriber heard no speech.
    NoSpeech,
    /// The transcriber failed.
    TranscriptionFailed { message: String },
    /// The stored transcript became the text to deliver.
    Finalized { final_text: String },
    /// The delivery gate confirmed that no AgentDictate window can receive
    /// the paste.
    GateConfirmed,
    /// The delivery gate refused, for `reason`.
    GateRefused { reason: String },
    /// The deliverer reported how the attempt ended.
    Delivered { disposition: DeliveryDisposition },
    /// The deliverer failed after the attempt began.
    DeliveryErrored { error: String },
}

/// What the runtime does next.
#[derive(Clone, Copy, Debug, PartialEq, Eq, Structural)]
pub enum PipelineAction {
    /// Send the recording to the transcriber.
    Transcribe,
    /// Apply the job's replacements and vocabulary to its raw transcript.
    Finalize,
    /// Ask the delivery gate.
    ConfirmGate,
    /// Deliver the final text by `method`.
    Deliver(DeliveryMethod),
    /// Record the delivered dictation in History and usage.
    RecordDictation,
    /// Remove the job and its audio: there was nothing to deliver.
    Discard,
    /// Nothing more; the job stays where Recovery can offer it.
    Stop,
    /// The event does not apply to the job's state; the job is unchanged.
    Refuse,
}

/// The next state and action for `job` after `event`, when delivery uses
/// `method`.
pub open spec fn spec_step(job: JobView, method: DeliveryMethod, event: PipelineEvent) -> (JobView, PipelineAction) {
    let ready = job.stage == JobStage::ReadyToDeliver;
    match event {
        PipelineEvent::Process => match spec_begin_processing(job) {
            Some(j) => (j, PipelineAction::Transcribe),
            None => (job, PipelineAction::Refuse),
        },
        PipelineEvent::Transcribed { text, model } => if job.stage == JobStage::Transcribing {
            (spec_accept_transcript(job, text@, model@), PipelineAction::Finalize)
        } else {
            (job, PipelineAction::Refuse)
        },
        PipelineEvent::NoSpeech => if job.stage == JobStage::Transcribing {
            (JobView { stage: JobStage::NoSpeech, ..job }, PipelineAction::Discard)
        } else {
            (job, PipelineAction::Refuse)
        },
        PipelineEvent::TranscriptionFailed { message } => if job.stage == JobStage::Transcribing {
            (at_stage(job, JobStage::Failed, Some(message@)), PipelineAction::Stop)
        } else {
            (job, PipelineAction::Refuse)
        },
        PipelineEvent::Finalized { final_text } => if job.stage == JobStage::Transcribing {
            (spec_ready_to_deliver(job, final_text@), PipelineAction::ConfirmGate)
        } else {
            (job, PipelineAction::Refuse)
        },
        PipelineEvent::GateConfirmed => if ready && job.delivery_status == DeliveryStatus::NotAttempted {
            (spec_begin_delivery(job), PipelineAction::Deliver(method))
        } else {
            (job, PipelineAction::Refuse)
        },
        PipelineEvent::GateRefused { reason } => if ready && job.delivery_status
            == DeliveryStatus::NotAttempted {
            (JobView { error_message: Some(blocked_message(reason@)), ..job }, PipelineAction::Stop)
        } else {
            (job, PipelineAction::Refuse)
        },
        PipelineEvent::Delivered { disposition } => if ready && job.delivery_status
            == DeliveryStatus::Attempting {
            (
                spec_record_disposition(job, disposition),
                if disposition is Submitted {
                    PipelineAction::RecordDictation
                } else {
                    PipelineAction::Stop
                },
            )
        } else {
            (job, PipelineAction::Refuse)
        },
        PipelineEvent::DeliveryErrored { error } => if ready && job.delivery_status
            == DeliveryStatus::Attempting {
            (
                spec_mark_ambiguous(job, false, "delivery result is ambiguous: "@ + error@),
                PipelineAction::Stop,
            )
        } else {
            (job, PipelineAction::Refuse)
        },
    }
}

/// The job's next durable state and the runtime's next action after
/// `event`. An event that does not apply leaves the job as it was.
pub fn step(job: JobRecord, method: DeliveryMethod, event: PipelineEvent) -> (r: (JobRecord, PipelineAction))
    ensures
        (r.0@, r.1) == spec_step(job@, method, event),
        same_job(r.0, job),
{
    let ready = job.stage == JobStage::ReadyToDeliver;
    let not_attempted = job.delivery_status == DeliveryStatus::NotAttempted;
    let attempting = job.delivery_status == DeliveryStatus::Attempting;
    let transcribing = job.stage == JobStage::Transcribing;
    match event {
        PipelineEvent::Process => {
            if job.stage == JobStage::Captured {
                (JobRecord { stage: JobStage::Transcribing, error_message: None, ..job }, PipelineAction::Transcribe)
            } else {
                (job, PipelineAction::Refuse)
            }
        },
        PipelineEvent::Transcribed { text, model } => {
            if transcribing {
                (job.accept_transcript(text, model), PipelineAction::Finalize)
            } else {
                (job, PipelineAction::Refuse)
            }
        },
        PipelineEvent::NoSpeech => {
            if transcribing {
                (JobRecord { stage: JobStage::NoSpeech, ..job }, PipelineAction::Discard)
            } else {
                (job, PipelineAction::Refuse)
            }
        },
        PipelineEvent::TranscriptionFailed { message } => {
            if transcribing {
                (job.transcription_failed(message), PipelineAction::Stop)
            } else {
                (job, PipelineAction::Refuse)
            }
        },
        PipelineEvent::Finalized { final_text } => {
            if transcribing {
                (job.ready_to_deliver(final_text), PipelineAction::ConfirmGate)
            } else {
                (job, PipelineAction::Refuse)
            }
        },
        PipelineEvent::GateConfirmed => {
            if ready && not_attempted {
                (job.begin_delivery(), PipelineAction::Deliver(method))
            } else {
                (job, PipelineAction::Refuse)
            }
        },
        PipelineEvent::GateRefused { reason } => {
            if ready && not_attempted {
                (job.block_delivery(reason.as_str()), PipelineAction::Stop)
            } else {
                (job, PipelineAction::Refuse)
            }
        },
        PipelineEvent::Delivered { disposition } => {
            if ready && attempting {
                let submitted = matches!(disposition, DeliveryDisposition::Submitted { .. });
                let next = job.record_disposition(disposition);
                (next, if submitted { PipelineAction::RecordDictation } else { PipelineAction::Stop })
            } else {
                (job, PipelineAction::Refuse)
            }
        },
        PipelineEvent::DeliveryErrored { error } => {
            if ready && attempting {
                (job.delivery_failed(error.as_str()), PipelineAction::Stop)
            } else {
                (job, PipelineAction::Refuse)
            }
        },
    }
}

/// A paste is sent only after the delivery gate confirmed it, only for a
/// ready job with no attempt in flight, by the method asked for, and the
/// job records the attempt before it is sent.
pub proof fn lemma_paste_needs_the_gate(job: JobView, method: DeliveryMethod, event: PipelineEvent)
    ensures
        spec_step(job, method, event).1 matches PipelineAction::Deliver(m) ==> {
            &&& m == method
            &&& event is GateConfirmed
            &&& job.stage == JobStage::ReadyToDeliver
            &&& job.delivery_status == DeliveryStatus::NotAttempted
            &&& spec_step(job, method, event).0.delivery_status == DeliveryStatus::Attempting
        },
{
}

/// Once a paste attempt is in flight (attempts begin only for a ready job),
/// no event sends another, and the job can be offered for pasting again
/// only when the deliverer reports that nothing was sent.
pub proof fn lemma_attempt_is_never_replayed(job: JobView, method: DeliveryMethod, event: PipelineEvent)
    requires
        job.stage == JobStage::ReadyToDeliver,
        job.delivery_status == DeliveryStatus::Attempting,
    ensures
        !(spec_step(job, method, event).1 is Deliver),
        spec_step(job, method, event).0.delivery_status == DeliveryStatus::NotAttempted ==> (event matches PipelineEvent::Delivered { disposition } && disposition is NotSent),
{
}

/// No step loses the paid-for transcript: after it is stored, only a new
/// transcript for a job still transcribing replaces it.
pub proof fn lemma_transcript_is_kept(job: JobView, method: DeliveryMethod, event: PipelineEvent)
    ensures
        !(event is Transcribed) ==> spec_step(job, method, event).0.raw_transcript == job.raw_transcript,
{
}

/// A refused event changes nothing.
pub proof fn lemma_refusal_changes_nothing(job: JobView, method: DeliveryMethod, event: PipelineEvent)
    ensures
        spec_step(job, method, event).1 == PipelineAction::Refuse ==> spec_step(job, method, event).0 == job,
{
}

} // verus!
