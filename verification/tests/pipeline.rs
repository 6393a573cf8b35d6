use agentdictate::job::{DeliveryDisposition, DeliveryStatus, JobId, JobRecord, JobStage, Timestamp};
use agentdictate::pipeline::{step, PipelineAction, PipelineEvent};
use agentdictate::ports::DeliveryMethod;

fn captured() -> JobRecord {
    JobRecord {
        id: JobId("job-9".to_owned()),
        started_at: Timestamp { seconds: 100, nanos: 0 },
        updated_at: Timestamp { seconds: 110, nanos: 0 },
        stage: JobStage::Captured,
        delivery_status: DeliveryStatus::NotAttempted,
        transcription_model: String::new(),
        raw_transcript: String::new(),
        final_text: String::new(),
        copied_to_clipboard: false,
        paste_triggered: false,
        error_message: None,
    }
}

fn ready() -> JobRecord {
    let (job, _) = step(captured(), DeliveryMethod::Paste, PipelineEvent::Process);
    let (job, _) = step(
        job,
        DeliveryMethod::Paste,
        PipelineEvent::Transcribed { text: "hello world".to_owned(), model: "gpt-4o-transcribe".to_owned() },
    );
    let (job, action) =
        step(job, DeliveryMethod::Paste, PipelineEvent::Finalized { final_text: "Hello world.".to_owned() });
    assert_eq!(action, PipelineAction::ConfirmGate);
    job
}

#[test]
fn a_dictation_is_transcribed_confirmed_pasted_and_recorded() {
    let (job, action) = step(captured(), DeliveryMethod::Paste, PipelineEvent::Process);
    assert_eq!((job.stage, action), (JobStage::Transcribing, PipelineAction::Transcribe));
    let job = ready();
    assert_eq!(job.stage, JobStage::ReadyToDeliver);
    assert_eq!(job.raw_transcript, "hello world");
    let (job, action) = step(job, DeliveryMethod::Paste, PipelineEvent::GateConfirmed);
    assert_eq!(action, PipelineAction::Deliver(DeliveryMethod::Paste));
    assert_eq!(job.delivery_status, DeliveryStatus::Attempting);
    let (job, action) = step(
        job,
        DeliveryMethod::Paste,
        PipelineEvent::Delivered {
            disposition: DeliveryDisposition::Submitted { copied_to_clipboard: true, paste_triggered: true },
        },
    );
    assert_eq!(action, PipelineAction::RecordDictation);
    assert_eq!(job.stage, JobStage::Delivered);
    assert_eq!(job.started_at, Timestamp { seconds: 100, nanos: 0 });
}

#[test]
fn no_speech_discards_and_a_failed_transcription_stops() {
    let (transcribing, _) = step(captured(), DeliveryMethod::Paste, PipelineEvent::Process);
    let (job, action) = step(transcribing, DeliveryMethod::Paste, PipelineEvent::NoSpeech);
    assert_eq!((job.stage, action), (JobStage::NoSpeech, PipelineAction::Discard));
    let (transcribing, _) = step(captured(), DeliveryMethod::Paste, PipelineEvent::Process);
    let (job, action) =
        step(transcribing, DeliveryMethod::Paste, PipelineEvent::TranscriptionFailed { message: "offline".to_owned() });
    assert_eq!((job.stage, action), (JobStage::Failed, PipelineAction::Stop));
    assert_eq!(job.error_message.as_deref(), Some("offline"));
}

#[test]
fn a_refused_gate_sends_nothing_and_keeps_the_job_ready() {
    let (job, action) =
        step(ready(), DeliveryMethod::Paste, PipelineEvent::GateRefused { reason: "overlay focused".to_owned() });
    assert_eq!(action, PipelineAction::Stop);
    assert_eq!(job.stage, JobStage::ReadyToDeliver);
    assert_eq!(job.delivery_status, DeliveryStatus::NotAttempted);
    assert_eq!(job.error_message.as_deref(), Some("delivery blocked before paste: overlay focused"));
}

#[test]
fn an_attempt_in_flight_is_never_sent_again() {
    let (attempting, _) = step(ready(), DeliveryMethod::CopyOnly, PipelineEvent::GateConfirmed);
    let (again, action) = step(attempting, DeliveryMethod::CopyOnly, PipelineEvent::GateConfirmed);
    assert_eq!(action, PipelineAction::Refuse);
    let (job, action) = step(again, DeliveryMethod::CopyOnly, PipelineEvent::DeliveryErrored { error: "x11 gone".to_owned() });
    assert_eq!(action, PipelineAction::Stop);
    assert_eq!(job.stage, JobStage::Failed);
    assert_eq!(job.delivery_status, DeliveryStatus::Ambiguous);
    assert_eq!(job.error_message.as_deref(), Some("delivery result is ambiguous: x11 gone"));
}

#[test]
fn events_that_do_not_apply_change_nothing() {
    let (job, action) = step(captured(), DeliveryMethod::Paste, PipelineEvent::GateConfirmed);
    assert_eq!(action, PipelineAction::Refuse);
    assert_eq!(job, captured());
}
