use agentdictate::observer::ReadVersion;
use agentdictate::history_search::{SearchCache, VocabularyTerm};
use agentdictate::ipc::{check_version, frame_outcome, FrameOutcome, IpcError, MAX_FRAME_BYTES};
use agentdictate::job::{JobStage, RuntimeError};
use agentdictate::maintenance::HistoryIndexMaintenance;
use agentdictate::replacement_rules::{prepare_rule, prepare_update, update_outcome, ReplacementRule};
use agentdictate::retention::{is_expired_recovery, recovery_expires_at, Retention};
use agentdictate::settings_store::merged_prompt;

#[test]
fn peers_must_speak_the_same_protocol() {
    assert_eq!(check_version(3, 3), Ok(()));
    assert_eq!(check_version(2, 3), Err(IpcError::ProtocolVersion { received: 2, expected: 3 }));
}

#[test]
fn frames_are_whole_lines_of_at_most_one_mebibyte() {
    assert_eq!(frame_outcome(0, ""), FrameOutcome::Closed);
    assert_eq!(frame_outcome(3, "{}\n"), FrameOutcome::Complete);
    assert_eq!(frame_outcome(2, "{}"), FrameOutcome::Refused);
    let long = format!("{}\n", "x".repeat(MAX_FRAME_BYTES));
    assert_eq!(frame_outcome(long.len(), &long), FrameOutcome::Refused);
    let fits = format!("{}\n", "x".repeat(MAX_FRAME_BYTES - 1));
    assert_eq!(frame_outcome(fits.len(), &fits), FrameOutcome::Complete);
}

#[test]
fn the_retired_context_is_appended_to_the_prompt() {
    assert_eq!(merged_prompt("  Rust daemon ", Some(" Write plainly. ")).as_deref(), Some("Write plainly.\nRust daemon"));
    assert_eq!(merged_prompt("Rust daemon", None).as_deref(), Some("Rust daemon"));
    assert_eq!(merged_prompt("Rust daemon", Some("  ")).as_deref(), Some("Rust daemon"));
    assert_eq!(merged_prompt("   ", Some("Write plainly.")), None);
}

#[test]
fn recovery_items_expire_a_week_after_their_last_change() {
    let day = 86_400;
    let now = 1_800_000_000;
    assert!(!is_expired_recovery(JobStage::Failed, now - 7 * day, now));
    assert!(is_expired_recovery(JobStage::Failed, now - 7 * day - 1, now));
    assert!(is_expired_recovery(JobStage::Cancelled, now - day - 1, now));
    assert!(!is_expired_recovery(JobStage::Cancelled, now - day, now));
    assert!(!is_expired_recovery(JobStage::Recording, 0, now));
    assert_eq!(recovery_expires_at(JobStage::Failed, now), now + 7 * day);
    assert_eq!(recovery_expires_at(JobStage::Cancelled, now), now + day);
    assert!(!is_expired_recovery(JobStage::Failed, i64::MIN, i64::MIN));
}

#[test]
fn a_retention_pass_counts_what_it_removed() {
    let mut retention = Retention::new(0);
    assert!(!retention.removed_anything());
    retention.count_expiry(false);
    assert!(!retention.removed_anything());
    retention.count_expiry(true);
    assert!(retention.removed_anything());
    assert_eq!(retention, Retention { purged_transcripts: 0, expired_recoveries: 1, failed_expiries: 1 });
    assert!(Retention::new(2).removed_anything());
}

fn rule(id: Option<i64>, source: &str) -> ReplacementRule {
    ReplacementRule {
        id,
        source_phrase: source.to_owned(),
        replacement_phrase: "Vercel".to_owned(),
        enabled: true,
        case_sensitive: false,
        whole_word_only: true,
    }
}

#[test]
fn replacement_rules_need_a_source_phrase_and_an_id_to_update() {
    assert_eq!(prepare_rule(rule(None, "  versel ")).unwrap().source_phrase, "versel");
    assert_eq!(prepare_rule(rule(None, "   ")), Err(RuntimeError::InvalidReplacementSource));
    assert_eq!(prepare_update(rule(None, "versel")), Err(RuntimeError::MissingReplacementId));
    assert_eq!(prepare_update(rule(Some(4), " ")), Err(RuntimeError::InvalidReplacementSource));
    assert_eq!(prepare_update(rule(Some(4), " versel")).unwrap().0, 4);
    assert_eq!(update_outcome(0, 4, rule(Some(4), "versel")), Err(RuntimeError::ReplacementNotFound(4)));
    assert_eq!(update_outcome(1, 4, rule(Some(4), "versel")), Ok(rule(Some(4), "versel")));
}

#[test]
fn recording_takes_priority_over_index_maintenance() {
    let mut maintenance = HistoryIndexMaintenance::default();
    assert!(maintenance.begin_maintenance());
    let guard = maintenance.prioritize_recording();
    assert!(guard.must_interrupt_maintenance());
    assert!(!maintenance.recording_may_proceed());
    maintenance.end_maintenance();
    assert!(maintenance.recording_may_proceed());
    assert!(!maintenance.begin_maintenance());
    maintenance.release_recording_priority(guard);
    assert!(maintenance.maintenance_may_begin());
    let idle_guard = maintenance.prioritize_recording();
    assert!(!idle_guard.must_interrupt_maintenance());
    maintenance.release_recording_priority(idle_guard);
    assert_eq!(maintenance.recording_priorities(), 0);
}

#[test]
fn a_cached_vocabulary_serves_only_its_data_version() {
    let mut cache = SearchCache::default();
    assert!(cache.cached(1).is_none());
    cache.store(vec![VocabularyTerm { term: "needle".to_owned(), documents: 2, characters: 6 }], 1);
    assert_eq!(cache.cached(1).map(|terms| terms.len()), Some(1));
    assert!(cache.cached(2).is_none());
    cache.invalidate();
    assert!(cache.cached(1).is_none());
}

#[test]
fn the_window_rereads_only_after_another_commit() {
    let mut read = ReadVersion::new();
    assert!(read.changed(4));
    read.mark_read(4);
    assert!(!read.changed(4));
    assert!(read.changed(5));
}
