use agentdictate::ports::DeliveryMethod;
use agentdictate::retention::{is_expired_recovery, recoveries, recovery_expires_at, CANCELLED_LIFETIME_SECONDS};
use agentdictate::job::{
    checkpoint_failure_message, delivery_status_name, is_recovery_stage, parse_delivery_status, parse_stage, recovery_lifetime_days, stage_name,
    state_for_stage, job_from_row, repair_legacy_spelling, parse_timestamp, DeliveryDisposition, DeliveryStatus, JobId, JobRecord, JobRow, JobStage,
    RuntimeError, Timestamp,
};

fn job(stage: JobStage, status: DeliveryStatus, final_text: &str) -> JobRecord {
    JobRecord {
        id: JobId("job-1".to_owned()),
        started_at: Timestamp { seconds: 1_700_000_000, nanos: 0 },
        updated_at: Timestamp { seconds: 1_700_000_060, nanos: 0 },
        stage,
        delivery_status: status,
        transcription_model: "gpt-4o-transcribe".to_owned(),
        raw_transcript: "raw".to_owned(),
        final_text: final_text.to_owned(),
        copied_to_clipboard: false,
        paste_triggered: false,
        error_message: None,
    }
}

const STAGES: [JobStage; 11] = [
    JobStage::Starting,
    JobStage::Recording,
    JobStage::Captured,
    JobStage::Transcribing,
    JobStage::ReadyToDeliver,
    JobStage::Delivered,
    JobStage::NoSpeech,
    JobStage::Interrupted,
    JobStage::Failed,
    JobStage::Deleted,
    JobStage::Cancelled,
];

#[test]
fn every_stage_reads_back_from_its_stored_name() {
    for stage in STAGES {
        assert_eq!(parse_stage(stage_name(stage)), Ok(stage));
    }
    assert_eq!(stage_name(JobStage::ReadyToDeliver), "ready_to_deliver");
    for status in [
        DeliveryStatus::NotAttempted,
        DeliveryStatus::Attempting,
        DeliveryStatus::Submitted,
        DeliveryStatus::Ambiguous,
    ] {
        assert_eq!(parse_delivery_status(delivery_status_name(status)), Ok(status));
    }
}

#[test]
fn an_unknown_spelling_is_named_in_the_error() {
    assert_eq!(
        parse_stage("paused"),
        Err(RuntimeError::InvalidJobId("unknown stage \"paused\"".to_owned()))
    );
    assert_eq!(
        parse_delivery_status("sent\n"),
        Err(RuntimeError::InvalidJobId("unknown delivery status \"sent\\n\"".to_owned()))
    );
}

#[test]
fn stages_group_into_coarse_states() {
    assert_eq!(state_for_stage(JobStage::Recording), "active");
    assert_eq!(state_for_stage(JobStage::Transcribing), "captured");
    assert_eq!(state_for_stage(JobStage::NoSpeech), "no_speech");
}

#[test]
fn only_a_recording_can_be_captured() {
    let captured = job(JobStage::Recording, DeliveryStatus::NotAttempted, "").capture().unwrap();
    assert_eq!(captured.stage, JobStage::Captured);
    assert_eq!(
        job(JobStage::Captured, DeliveryStatus::NotAttempted, "").capture(),
        Err(RuntimeError::InvalidStage {
            job_id: JobId("job-1".to_owned()),
            expected: JobStage::Recording,
            actual: JobStage::Captured,
        })
    );
}

#[test]
fn a_repeated_processing_signal_cannot_transcribe_again() {
    let processing = job(JobStage::Captured, DeliveryStatus::NotAttempted, "").begin_processing().unwrap();
    assert_eq!(processing.stage, JobStage::Transcribing);
    assert!(processing.begin_processing().is_err());
}

#[test]
fn a_submitted_paste_delivers_the_job() {
    let ready = job(JobStage::Transcribing, DeliveryStatus::NotAttempted, "")
        .ready_to_deliver("Hello.".to_owned())
        .begin_delivery();
    assert_eq!(ready.delivery_status, DeliveryStatus::Attempting);
    let delivered = ready.record_disposition(DeliveryDisposition::Submitted {
        copied_to_clipboard: true,
        paste_triggered: true,
    });
    assert_eq!(delivered.stage, JobStage::Delivered);
    assert_eq!(delivered.delivery_status, DeliveryStatus::Submitted);
    assert!(delivered.paste_triggered);
}

#[test]
fn an_ambiguous_paste_fails_and_can_only_be_retried_by_hand_as_a_delivery() {
    let job = job(JobStage::ReadyToDeliver, DeliveryStatus::Attempting, "Hello.")
        .record_disposition(DeliveryDisposition::Ambiguous { copied_to_clipboard: true });
    assert_eq!(job.stage, JobStage::Failed);
    assert_eq!(job.delivery_status, DeliveryStatus::Ambiguous);
    assert_eq!(
        job.error_message.as_deref(),
        Some("delivery may have reached the focused application")
    );
    let refused = JobRecord { ..job }.retry_transcription();
    assert_eq!(
        refused,
        Err(RuntimeError::OperationNotAllowed {
            operation: "retry transcription for",
            job_id: JobId("job-1".to_owned()),
            stage: JobStage::Failed,
            reason: "the previous delivery may already have reached the focused application",
        })
    );
}

#[test]
fn a_paste_that_was_not_sent_stays_ready_with_its_reason() {
    let job = job(JobStage::ReadyToDeliver, DeliveryStatus::Attempting, "Hello.")
        .record_disposition(DeliveryDisposition::NotSent {
            copied_to_clipboard: false,
            reason: "no focused app".to_owned(),
        });
    assert_eq!(job.stage, JobStage::ReadyToDeliver);
    assert_eq!(job.delivery_status, DeliveryStatus::NotAttempted);
    assert_eq!(job.error_message.as_deref(), Some("no focused app"));
    let (retry, method) = job.retry_delivery().unwrap();
    assert_eq!(retry.error_message, None);
    assert_eq!(method, DeliveryMethod::CopyOnly);
}

#[test]
fn a_blocked_delivery_says_why() {
    let job = job(JobStage::ReadyToDeliver, DeliveryStatus::NotAttempted, "Hello.").block_delivery("overlay focused");
    assert_eq!(
        job.error_message.as_deref(),
        Some("delivery blocked before paste: overlay focused")
    );
}

#[test]
fn a_delivery_without_stored_text_cannot_be_retried() {
    assert_eq!(
        job(JobStage::Failed, DeliveryStatus::NotAttempted, "   ").retry_delivery(),
        Err(RuntimeError::OperationNotAllowed {
            operation: "retry delivery for",
            job_id: JobId("job-1".to_owned()),
            stage: JobStage::Failed,
            reason: "the job does not have a recoverable stored transcript",
        })
    );
    assert!(job(JobStage::Failed, DeliveryStatus::Attempting, "text").retry_delivery().is_err());
}

#[test]
fn a_crash_settles_in_flight_jobs_on_the_next_start() {
    let attempting = job(JobStage::ReadyToDeliver, DeliveryStatus::Attempting, "Hello.").reconcile();
    assert_eq!(attempting.stage, JobStage::Failed);
    assert_eq!(attempting.delivery_status, DeliveryStatus::Ambiguous);
    assert_eq!(
        attempting.error_message.as_deref(),
        Some("delivery was interrupted after the attempt began")
    );
    let transcribing = job(JobStage::Transcribing, DeliveryStatus::NotAttempted, "").reconcile();
    assert_eq!(transcribing.stage, JobStage::Interrupted);
    assert_eq!(
        transcribing.error_message.as_deref(),
        Some("AgentDictate stopped before this dictation completed")
    );
    let settled = job(JobStage::Failed, DeliveryStatus::NotAttempted, "x").reconcile();
    assert_eq!(settled.stage, JobStage::Failed);
}

#[test]
fn active_and_delivered_jobs_keep_their_recovery_data() {
    assert!(job(JobStage::Failed, DeliveryStatus::NotAttempted, "").check_delete_recovery().is_ok());
    assert_eq!(
        job(JobStage::Recording, DeliveryStatus::NotAttempted, "").check_delete_recovery(),
        Err(RuntimeError::OperationNotAllowed {
            operation: "delete recovery for",
            job_id: JobId("job-1".to_owned()),
            stage: JobStage::Recording,
            reason: "the job is active, delivered, or already deleted",
        })
    );
    assert!(job(JobStage::Delivered, DeliveryStatus::Submitted, "").check_delivered().is_ok());
    assert!(job(JobStage::Failed, DeliveryStatus::Submitted, "").check_delivered().is_err());
}

#[test]
fn a_failed_step_fails_only_a_job_in_flight() {
    let failed = job(JobStage::Transcribing, DeliveryStatus::NotAttempted, "").fail("boom".to_owned());
    assert_eq!(failed.stage, JobStage::Failed);
    let untouched = job(JobStage::Captured, DeliveryStatus::NotAttempted, "").fail("boom".to_owned());
    assert_eq!(untouched.stage, JobStage::Captured);
    assert_eq!(untouched.error_message, None);
}

#[test]
fn discarded_recordings_last_a_day_and_the_rest_a_week() {
    assert_eq!(recovery_lifetime_days(JobStage::Cancelled), 1);
    assert_eq!(recovery_lifetime_days(JobStage::Failed), 7);
}

#[test]
fn a_failed_deliverer_leaves_the_paste_ambiguous() {
    let failed = job(JobStage::ReadyToDeliver, DeliveryStatus::Attempting, "Hello.").delivery_failed("clipboard gone");
    assert_eq!(failed.stage, JobStage::Failed);
    assert_eq!(failed.delivery_status, DeliveryStatus::Ambiguous);
    assert!(!failed.copied_to_clipboard);
    assert_eq!(failed.error_message.as_deref(), Some("delivery result is ambiguous: clipboard gone"));
}

#[test]
fn a_failed_checkpoint_names_both_failures() {
    assert_eq!(
        checkpoint_failure_message("disk full", None),
        "recording stopped because its durable checkpoint failed: disk full"
    );
    assert_eq!(
        checkpoint_failure_message("disk full", Some("device busy")),
        "recording stopped because its durable checkpoint failed: disk full; recorder compensation also failed: device busy"
    );
}

fn row(started_at: &str, updated_at: &str, stage: &str, status: &str) -> JobRow {
    JobRow {
        id: "job-7".to_owned(),
        started_at: started_at.to_owned(),
        updated_at: updated_at.to_owned(),
        stage: stage.to_owned(),
        delivery_status: status.to_owned(),
        transcription_model: "gpt-4o-transcribe".to_owned(),
        raw_transcript: "raw words".to_owned(),
        final_text: "Final words.".to_owned(),
        copied_to_clipboard: true,
        paste_triggered: false,
        error_message: Some("note".to_owned()),
    }
}

#[test]
fn a_stored_job_row_reads_back_with_its_timestamps() {
    let job = job_from_row(row("2024-03-01T10:00:00Z", "2024-03-01T12:00:30.5+02:00", "ready_to_deliver", "ambiguous"))
        .expect("a well-formed row");
    assert_eq!(job.id, JobId("job-7".to_owned()));
    assert_eq!(job.started_at, Timestamp { seconds: 1_709_287_200, nanos: 0 });
    assert_eq!(job.updated_at, Timestamp { seconds: 1_709_287_230, nanos: 500_000_000 });
    assert_eq!(job.stage, JobStage::ReadyToDeliver);
    assert_eq!(job.delivery_status, DeliveryStatus::Ambiguous);
    assert_eq!(job.final_text, "Final words.");
    assert!(job.copied_to_clipboard);
    assert_eq!(job.error_message.as_deref(), Some("note"));
}

#[test]
fn a_stored_job_row_names_its_first_unreadable_field() {
    let bad_start = job_from_row(row("yesterday", "also bad", "nope", "nope"));
    assert_eq!(bad_start, Err(RuntimeError::InvalidJobId("invalid timestamp \"yesterday\"".to_owned())));
    let bad_update = job_from_row(row("2024-03-01T10:00:00Z", "later", "nope", "nope"));
    assert_eq!(bad_update, Err(RuntimeError::InvalidJobId("invalid timestamp \"later\"".to_owned())));
    let bad_stage = job_from_row(row("2024-03-01T10:00:00Z", "2024-03-01T10:00:00Z", "cleaning", "nope"));
    assert_eq!(bad_stage, Err(RuntimeError::InvalidJobId("unknown stage \"cleaning\"".to_owned())));
    let bad_status = job_from_row(row("2024-03-01T10:00:00Z", "2024-03-01T10:00:00Z", "failed", "pasted"));
    assert_eq!(bad_status, Err(RuntimeError::InvalidJobId("unknown delivery status \"pasted\"".to_owned())));
}

#[test]
fn timestamps_parse_as_rfc3339_instants() {
    assert_eq!(parse_timestamp("1970-01-01T00:00:01.000000002Z"), Ok(Timestamp { seconds: 1, nanos: 2 }));
    assert_eq!(parse_timestamp("1970-01-01T01:00:00+01:00"), Ok(Timestamp { seconds: 0, nanos: 0 }));
    assert!(parse_timestamp("1970-01-01").is_err());
}

#[test]
fn a_transcription_retry_only_copies() {
    let (job, method) = job(JobStage::Interrupted, DeliveryStatus::NotAttempted, "").retry_transcription().unwrap();
    assert_eq!(job.stage, JobStage::Captured);
    assert_eq!(method, DeliveryMethod::CopyOnly);
}

#[test]
fn a_discarded_recording_is_kept_only_when_longer_than_five_seconds() {
    assert_eq!(JobRecord::discarded_stage(5_001), JobStage::Cancelled);
    assert_eq!(JobRecord::discarded_stage(5_000), JobStage::Deleted);
    assert_eq!(JobRecord::discarded_stage(0), JobStage::Deleted);
}

#[test]
fn older_spellings_read_as_the_stages_they_stand_for() {
    let mut cleaning = row("2024-03-01T10:00:00Z", "2024-03-01T10:00:00Z", "cleaning", "committed");
    cleaning.error_message = None;
    let repaired = repair_legacy_spelling(cleaning);
    assert_eq!(repaired.stage, "transcribing");
    assert_eq!(repaired.delivery_status, "submitted");
    assert_eq!(repaired.error_message, None);
    let job = job_from_row(repaired).unwrap().reconcile();
    assert_eq!(job.stage, JobStage::Interrupted);

    let mut delivering = row("2024-03-01T10:00:00Z", "2024-03-01T10:00:00Z", "delivering", "not_attempted");
    delivering.error_message = None;
    let repaired = repair_legacy_spelling(delivering);
    assert_eq!(repaired.stage, "failed");
    assert_eq!(repaired.delivery_status, "ambiguous");
    assert_eq!(repaired.error_message.as_deref(), Some("delivery was interrupted after the attempt began"));

    let canceled = repair_legacy_spelling(row("2024-03-01T10:00:00Z", "2024-03-01T10:00:00Z", "canceled", "submitted"));
    assert_eq!(canceled.stage, "interrupted");
    assert_eq!(canceled.error_message.as_deref(), Some("note"));
}

#[test]
fn ambiguous_delivery_is_not_retried_after_restart() {
    let recording = job(JobStage::Recording, DeliveryStatus::NotAttempted, "");
    let transcribing = recording.capture().unwrap().begin_processing().unwrap();
    let ambiguous = transcribing
        .accept_transcript("Durable final words.".to_owned(), "gpt-4o-transcribe".to_owned())
        .ready_to_deliver("Durable final words.".to_owned())
        .begin_delivery()
        .record_disposition(DeliveryDisposition::Ambiguous { copied_to_clipboard: true });
    assert_eq!(ambiguous.delivery_status, DeliveryStatus::Ambiguous);
    assert_eq!(ambiguous.stage, JobStage::Failed);
    let restarted = ambiguous.reconcile();
    assert_eq!(restarted.final_text, "Durable final words.");
    assert!(restarted.retry_transcription().is_err());
}

#[test]
fn transcribing_job_left_by_a_crash_is_interrupted_and_retryable() {
    let transcribing = job(JobStage::Recording, DeliveryStatus::NotAttempted, "")
        .capture()
        .unwrap()
        .begin_processing()
        .unwrap();
    let restarted = transcribing.reconcile();
    assert_eq!(restarted.stage, JobStage::Interrupted);
    assert!(is_recovery_stage(restarted.stage));
    let (retrying, _) = restarted.retry_transcription().unwrap();
    assert_eq!(retrying.begin_processing().unwrap().stage, JobStage::Transcribing);
}

#[test]
fn explicit_discard_deletes_short_recordings_and_keeps_longer_ones_for_a_day() {
    for (seconds, kept) in [(5.0_f64, false), (5.5_f64, true)] {
        let captured = job(JobStage::Captured, DeliveryStatus::NotAttempted, "");
        assert!(captured.check_discard().is_ok());
        let stage = JobRecord::discarded_stage((seconds * 1000.0) as u64);
        if !kept {
            assert_eq!(stage, JobStage::Deleted, "{seconds} s");
            continue;
        }
        assert_eq!(stage, JobStage::Cancelled, "{seconds} s");
        assert_eq!(recovery_lifetime_days(stage), 1);
        assert!(!is_expired_recovery(stage, 0, CANCELLED_LIFETIME_SECONDS));
        assert!(is_expired_recovery(stage, 0, CANCELLED_LIFETIME_SECONDS + 1));
        let kept = JobRecord { stage, ..captured };
        let listed = recoveries(&vec![(kept, true)]);
        assert_eq!(listed.len(), 1);
        assert_eq!(listed[0].stage, JobStage::Cancelled);
        assert_eq!(listed[0].expires_at.seconds - listed[0].updated_at.seconds, 86_400);
        let kept = JobRecord { stage, ..job(JobStage::Captured, DeliveryStatus::NotAttempted, "") };
        let (retrying, _) = kept.retry_transcription().unwrap();
        assert_eq!(retrying.begin_processing().unwrap().stage, JobStage::Transcribing);
    }
}

#[test]
fn recovery_items_expire_seven_days_after_their_last_change() {
    let now: i64 = 1_790_000_000;
    let day: i64 = 86_400;
    let stale = now - 8 * day;
    let recent = now - 6 * day;
    assert_eq!(recovery_expires_at(JobStage::Failed, stale) - stale, 7 * day);
    assert_eq!(recovery_expires_at(JobStage::Interrupted, recent) - recent, 7 * day);
    assert!(is_expired_recovery(JobStage::Failed, stale, now));
    assert!(!is_expired_recovery(JobStage::Interrupted, recent, now));
    assert!(now < recovery_expires_at(JobStage::Interrupted, recent));
}

#[test]
fn committed_deliveries_from_the_first_release_read_as_submitted() {
    let stored = row("2024-03-01T10:00:00Z", "2024-03-01T10:00:00Z", "delivered", "committed");
    let job = job_from_row(repair_legacy_spelling(stored)).unwrap();
    assert_eq!(job.delivery_status, DeliveryStatus::Submitted);
}

#[test]
fn recovery_lists_recoverable_jobs_in_order_with_their_expiry() {
    let jobs = vec![
        (job(JobStage::Failed, DeliveryStatus::Ambiguous, "pasted maybe"), true),
        (job(JobStage::Recording, DeliveryStatus::NotAttempted, ""), true),
        (job(JobStage::Interrupted, DeliveryStatus::NotAttempted, ""), false),
        (job(JobStage::Delivered, DeliveryStatus::Submitted, "done"), true),
    ];
    let listed = recoveries(&jobs);
    assert_eq!(listed.len(), 2);
    assert_eq!(listed[0].stage, JobStage::Failed);
    assert!(listed[0].delivery_ambiguous);
    assert!(listed[0].audio_present);
    assert_eq!(listed[0].final_text, "pasted maybe");
    assert_eq!(listed[0].expires_at.seconds - listed[0].updated_at.seconds, 7 * 86_400);
    assert_eq!(listed[1].stage, JobStage::Interrupted);
    assert!(!listed[1].audio_present);
    assert!(!listed[1].delivery_ambiguous);
}

#[test]
fn a_kept_discarded_recording_is_listed_for_a_day() {
    let jobs = vec![
        (job(JobStage::Cancelled, DeliveryStatus::NotAttempted, ""), true),
        (job(JobStage::Failed, DeliveryStatus::NotAttempted, "text"), true),
    ];
    let listed = recoveries(&jobs);
    assert_eq!(listed.len(), 2);
    assert_eq!(listed[0].stage, JobStage::Cancelled);
    assert_eq!(listed[0].expires_at.seconds, listed[0].updated_at.seconds + 86_400);
    assert_eq!(listed[1].expires_at.seconds, listed[1].updated_at.seconds + 7 * 86_400);
}
