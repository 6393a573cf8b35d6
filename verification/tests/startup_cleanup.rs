use agentdictate::startup_cleanup::{
    finished_stage, is_orphan_recording, quarantine_action, restores_after_failed_delete, quarantine_file_name, quarantined_job_text, removes_audio,
    FinishedJobCleanup, FinishedStage, QuarantineAction, RemovalOutcome,
};

#[test]
fn a_quarantine_name_reads_back_as_its_job() {
    let name = quarantine_file_name("0192-abc");
    assert_eq!(name, ".agentdictate-delete-0192-abc.pending");
    assert_eq!(quarantined_job_text(&name).as_deref(), Some("0192-abc"));
    assert_eq!(quarantined_job_text("recording.wav"), None);
    assert_eq!(quarantined_job_text(".agentdictate-delete-x.wav"), None);
    assert_eq!(quarantined_job_text(".agentdictate-delete-.pending").as_deref(), Some(""));
}

#[test]
fn finished_stages_are_read_from_their_names() {
    assert_eq!(finished_stage("delivered"), FinishedStage::Delivered);
    assert_eq!(finished_stage("no_speech"), FinishedStage::NoSpeech);
    assert_eq!(finished_stage("deleted"), FinishedStage::Deleted);
}

#[test]
fn deleted_jobs_lose_their_audio_even_when_audio_is_preserved() {
    assert!(removes_audio(FinishedStage::Deleted, true));
    assert!(!removes_audio(FinishedStage::Delivered, true));
    assert!(removes_audio(FinishedStage::NoSpeech, false));
}

#[test]
fn only_old_unowned_wav_files_are_orphans() {
    let owned = vec!["owned.wav".to_owned()];
    assert!(is_orphan_recording("stray.wav", &owned, true));
    assert!(!is_orphan_recording("stray.wav", &owned, false));
    assert!(!is_orphan_recording("owned.wav", &owned, true));
    assert!(!is_orphan_recording("notes.txt", &owned, true));
    assert!(!is_orphan_recording(".wav", &owned, true));
    assert!(is_orphan_recording("..wav", &owned, true));
}

#[test]
fn a_failed_removal_keeps_the_job_and_is_counted() {
    let mut cleanup = FinishedJobCleanup::default();
    assert_eq!(cleanup, FinishedJobCleanup::new());
    assert!(cleanup.count_job_recording(RemovalOutcome::Removed));
    assert!(cleanup.count_job_recording(RemovalOutcome::Missing));
    assert!(!cleanup.count_job_recording(RemovalOutcome::Failed));
    cleanup.count_removed_job(true);
    cleanup.count_removed_job(false);
    cleanup.count_orphan_removal(RemovalOutcome::Removed);
    cleanup.count_orphan_removal(RemovalOutcome::Failed);
    assert_eq!(
        cleanup,
        FinishedJobCleanup { recorded_deliveries: 1, removed_jobs: 2, removed_recordings: 2, failed_removals: 2 }
    );
}

#[test]
fn parked_audio_returns_only_to_a_live_job_with_a_free_path() {
    assert_eq!(quarantine_action(Some("failed"), false), QuarantineAction::Restore);
    assert_eq!(quarantine_action(Some("failed"), true), QuarantineAction::Remove);
    assert_eq!(quarantine_action(Some("deleted"), false), QuarantineAction::Remove);
    assert_eq!(quarantine_action(None, false), QuarantineAction::Remove);
}

#[test]
fn a_failed_delete_restores_parked_audio_only_to_a_free_path() {
    assert!(restores_after_failed_delete(true, false));
    assert!(!restores_after_failed_delete(true, true));
    assert!(!restores_after_failed_delete(false, false));
}
