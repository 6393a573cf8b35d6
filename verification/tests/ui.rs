use chrono::{Datelike, TimeZone};
use agentdictate::job::JobStage;
use agentdictate::ui::assets::AgentDictateAssets;
use agentdictate::ui::failure::{failure_wording, notice_wording, recovery_reason, DictationNotice, FailureKind};
use agentdictate::ui::history::{
    recent_history_window, recovery_stage_for, HistoryViewModel, RecoveryItemViewModel, RecoveryStage, RecoveryViewModel, TranscriptViewModel,
};
use agentdictate::ui::layout::{sidebar_open_for_layout, ShellLayout, SidebarMode};
use agentdictate::ui::model_catalog::{
    reasoning_option, status_view_model, ModelCatalogFallback, ModelCatalogOptionViewModel, ModelCatalogStatus,
    ModelCatalogStatusSource, ModelCatalogViewModel, ReasoningEffort,
};
use agentdictate::ui::overlay::{
    elapsed_millis, format_elapsed_seconds, overlay_fade_active, ActiveRecordingPresentation, OverlayState,
    ProcessingStage, StatusTone, WorkflowPhase,
};
use agentdictate::ui::replacements::{ReplacementDraft, ReplacementRuleViewModel, ReplacementsViewModel};
use agentdictate::ui::route::Route;
use agentdictate::ui::setup::{needs_setup, paste_line, shortcut_line, AccessTone, DesktopReadiness, HotkeyReadiness, Readiness};
use agentdictate::ui::time_text::{expiry_text, format_duration, format_expiry, history_time_format};

#[test]
fn a_typed_failure_is_worded_instead_of_its_raw_error_and_a_note_shows_as_stored() {
    let raw = "Could not reach OpenAI: error sending request for url (https://api.openai.com/v1/audio/transcriptions)";

    let reason = recovery_reason(Some(FailureKind::Offline), Some(raw));

    assert!(reason.starts_with("Couldn't reach OpenAI · "), "{reason}");
    assert!(!reason.contains("error sending request"), "{reason}");
    assert_eq!(recovery_reason(None, Some("Cancelled before paste")), "Cancelled before paste");
    assert_eq!(recovery_reason(None, Some("  ")), "Recording saved safely");
}

#[test]
fn notices_use_the_failure_wording() {
    let wording = notice_wording(DictationNotice::Failed { failure: FailureKind::MicrophoneUnavailable });
    assert_eq!(wording.title, failure_wording(FailureKind::MicrophoneUnavailable).headline);
    assert_eq!(wording.detail, Some("Check your microphone"));
}

#[test]
fn expiry_counts_hours_within_a_day_and_a_half_and_days_after() {
    let now = 1_790_000_000_i64;
    let expiring_in = |hours: i64, minutes: i64| format_expiry(now + hours * 3600 + minutes * 60, now);

    assert_eq!(expiring_in(7 * 24, 0), "Expires in 7 days");
    assert_eq!(expiring_in(6 * 24, -1), "Expires in 6 days");
    assert_eq!(expiring_in(36, 0), "Expires in 2 days");
    assert_eq!(expiring_in(35, 59), "Expires in 36 hours");
    assert_eq!(expiring_in(24, 0), "Expires in 24 hours");
    assert_eq!(expiring_in(1, 0), "Expires in 1 hour");
    assert_eq!(expiring_in(0, 59), "Expires in less than an hour");
    assert_eq!(expiring_in(-2, 0), "Expires in less than an hour");
    assert_eq!(expiry_text(90), "Expires in 2 hours");
}

#[test]
fn history_times_name_recent_days_and_date_older_ones() {
    assert_eq!(history_time_format(0, true), "Today %H:%M");
    assert_eq!(history_time_format(1, true), "Yesterday %H:%M");
    assert_eq!(history_time_format(6, true), "%a %H:%M");
    assert_eq!(history_time_format(7, true), "%b %-d");
    assert_eq!(history_time_format(-1, true), "%b %-d");
    assert_eq!(history_time_format(300, false), "%b %-d, %Y");
}

#[test]
fn durations_show_minutes_and_two_digit_seconds() {
    assert_eq!(format_duration(65), "1m 05s");
    assert_eq!(format_duration(0), "0m 00s");
    assert_eq!(format_elapsed_seconds(65), "1:05");
    assert_eq!(format_elapsed_seconds(3725), "1:02:05");
}

#[test]
fn elapsed_time_never_runs_backwards() {
    assert_eq!(elapsed_millis(1_000, 4_500), 3_500);
    assert_eq!(elapsed_millis(4_500, 1_000), 0);
    assert_eq!(elapsed_millis(i64::MIN, i64::MAX), i64::MAX as u64);
    let recording = ActiveRecordingPresentation { audio_path: "/tmp/a.wav".to_owned(), started_at_unix_millis: 10 };
    assert_eq!(recording.elapsed_millis_at(25), 15);
}

#[test]
fn the_overlay_shows_only_while_it_listens_or_works() {
    assert!(OverlayState::from_phase(WorkflowPhase::Recording).is_visible());
    assert_eq!(OverlayState::from_phase(WorkflowPhase::Stopping), OverlayState::Transcribing);
    assert!(!OverlayState::from_phase(WorkflowPhase::Ready).is_visible());
    let delivering = OverlayState::from_phase(WorkflowPhase::Processing { stage: ProcessingStage::Delivering });
    assert_eq!(delivering.label(), "Pasting…");
    assert_eq!(delivering.tone(), StatusTone::Success);
    let attention = OverlayState::from_phase(WorkflowPhase::NeedsAttention);
    assert_eq!(attention.action_label(), Some("Open recovery"));
    assert_eq!(attention.accessibility_label(), "Agent Dictate: Dictation needs attention");
    assert_eq!(attention.stable_id(), "recording-overlay-recoverable-failure");
    assert!(!attention.window_policy().focusable);
    assert!(overlay_fade_active(50, None));
    assert!(!overlay_fade_active(500, None));
}

#[test]
fn routes_have_titles_slugs_and_an_order() {
    assert_eq!(Route::default_route(), Route::Overview);
    assert_eq!(Route::all().map(Route::slug), ["overview", "history", "replacements", "settings"]);
    assert_eq!(Route::History.title(), "History");
}

#[test]
fn narrow_windows_overlay_the_sidebar() {
    assert_eq!(ShellLayout::from_width(1_099).sidebar_mode, SidebarMode::Overlay);
    assert_eq!(ShellLayout::from_width(1_100).sidebar_mode, SidebarMode::Docked);
    assert!(sidebar_open_for_layout(false, None, false));
    assert!(!sidebar_open_for_layout(true, Some(false), true));
    assert!(sidebar_open_for_layout(true, Some(true), true));
}

#[test]
fn replacement_rows_count_and_validate() {
    let rules = vec![
        ReplacementRuleViewModel::new(1, "versel", "Vercel", true, false, true),
        ReplacementRuleViewModel::new(2, "kube", "kubectl", false, true, false),
    ];
    assert_eq!(rules[0].match_policy_label(), "Whole words");
    assert_eq!(rules[1].match_policy_label(), "Case-sensitive · Anywhere");
    let model = ReplacementsViewModel::new(rules);
    assert_eq!(model.rule_count(), 2);
    assert_eq!(model.enabled_count(), 1);
    assert!(ReplacementDraft::new("versel", "Vercel").is_valid());
    assert!(!ReplacementDraft::new("  ", "Vercel").is_valid());
    assert_eq!(ReplacementDraft::from_rule(&model.rules[1]).source, "kube");
}

#[test]
fn recovery_items_offer_what_they_need() {
    assert_eq!(recovery_stage_for(JobStage::Cancelled, "text", false), RecoveryStage::Cancelled);
    assert_eq!(recovery_stage_for(JobStage::Failed, "text", false), RecoveryStage::Delivery);
    assert_eq!(recovery_stage_for(JobStage::Failed, " ", false), RecoveryStage::Transcription);
    assert_eq!(recovery_stage_for(JobStage::Interrupted, "text", true), RecoveryStage::Delivery);
    assert_eq!(RecoveryStage::Delivery.primary_action_label(), "Paste again");
    assert_eq!(RecoveryViewModel::from_item_count(3).detail, "3 recordings need your attention");
    assert_eq!(RecoveryViewModel::from_item_count(1).detail, "1 recording needs your attention");
    let row = TranscriptViewModel::new(1, "Today 10:00", &"a".repeat(130), 1, "0m 05s");
    assert_eq!(row.preview.chars().count(), 121);
    assert!(row.preview.ends_with('…'));
}

#[test]
fn setup_opens_until_dictation_can_work() {
    let ready = Readiness {
        transcription_key: true,
        desktop: DesktopReadiness { paste_access: true },
        shortcut: HotkeyReadiness::Starting,
    };
    assert!(!needs_setup(&ready));
    let blocked = Readiness { shortcut: HotkeyReadiness::Unavailable { reason: "no portal".to_owned() }, ..ready.clone() };
    assert!(needs_setup(&blocked));
    assert!(needs_setup(&Readiness { transcription_key: false, ..ready }));
}

#[test]
fn reasoning_choices_fall_back_to_what_the_model_offers() {
    let option = |id: &str, efforts: Vec<ReasoningEffort>| ModelCatalogOptionViewModel {
        id: id.to_owned(),
        label: id.to_owned(),
        reasoning_efforts: efforts,
    };
    let catalog = ModelCatalogViewModel {
        transcription_models: Vec::new(),
        cleanup_models: vec![
            option("gpt-5", vec![ReasoningEffort::Low, ReasoningEffort::High]),
            option("gpt-4o", Vec::new()),
        ],
        status: status_view_model(ModelCatalogStatus::Live),
    };
    let values: Vec<&str> = catalog.reasoning_options_for("gpt-5").iter().map(|o| o.value).collect();
    assert_eq!(values, ["low", "high"]);
    assert_eq!(catalog.reasoning_options_for("gpt-4o")[0].value, "default");
    assert_eq!(catalog.normalized_reasoning_effort("gpt-5", "high"), "high");
    assert_eq!(catalog.normalized_reasoning_effort("gpt-5", "max"), "low");
    assert_eq!(catalog.normalized_reasoning_effort("gpt-4o", "max"), "default");
    assert_eq!(reasoning_option(ReasoningEffort::NoReasoning).value, "none");
    let failed = status_view_model(ModelCatalogStatus::Failed {
        fallback: ModelCatalogFallback::Cached,
        message: "offline".to_owned(),
    });
    assert_eq!(failed.source, ModelCatalogStatusSource::Cached);
    assert!(failed.is_error);
    assert_eq!(failed.detail, "offline");
}

#[test]
fn icons_resolve_under_the_icon_directory() {
    let assets = AgentDictateAssets;
    assert_eq!(assets.icon_file("icons/check.svg").as_deref(), Some("check.svg"));
    assert_eq!(assets.icon_file("icons/missing.svg"), None);
    assert_eq!(assets.icon_file("check.svg"), None);
    assert_eq!(assets.list("icons//"), vec!["check.svg", "chevron-down.svg", "inbox.svg", "search.svg"]);
    assert!(assets.list("images").is_empty());
}

#[test]
fn a_recovery_item_presents_its_stored_job() {
    let item = RecoveryItemViewModel::from_recovery(
        "job-1", JobStage::Failed, "Hello.", false, "Today 10:00", "0m 05s", None, "Expires in 7 days",
    );
    assert_eq!(item.stage, RecoveryStage::Delivery);
    assert_eq!(item.error, "Recording saved safely");
    assert_eq!(item.transcript_preview.as_deref(), Some("Hello."));
    assert_eq!(item.expires.as_deref(), Some("Expires in 7 days"));
    assert_eq!(item.primary_action_label(), "Paste again");
    let blank = RecoveryItemViewModel::from_recovery(
        "job-2", JobStage::Interrupted, " ", false, "Yesterday 09:05", "0m 09s", Some("stopped"), "Expires in 2 days",
    );
    assert_eq!(blank.stage, RecoveryStage::Transcription);
    assert_eq!(blank.transcript_preview, None);
    assert_eq!(blank.error, "stopped");
    let empty = HistoryViewModel::default();
    assert_eq!(empty.transcript_count, 0);
    assert!(!empty.recovery.has_items());
}

/// Wednesday 23 September 2026, 10:00 at UTC+2.
fn history_now() -> chrono::DateTime<chrono::FixedOffset> {
    chrono::FixedOffset::east_opt(2 * 3600).unwrap().with_ymd_and_hms(2026, 9, 23, 10, 0, 0).unwrap()
}

/// A History row's time as the daemon words it: the library picks the
/// pattern from the local day count, chrono formats it.
fn format_utc(year: i32, month: u32, day: u32, hour: u32, minute: u32) -> String {
    let at = chrono::Utc.with_ymd_and_hms(year, month, day, hour, minute, 0).unwrap();
    let now = history_now();
    let local = at.with_timezone(&now.timezone());
    let days_ago = (now.date_naive() - local.date_naive()).num_days();
    local.format(history_time_format(days_ago, local.year() == now.year())).to_string()
}

#[test]
fn days_are_counted_on_the_local_calendar() {
    // 23:30 UTC on the 22nd is already 01:30 on the 23rd at UTC+2.
    assert_eq!(format_utc(2026, 9, 22, 23, 30), "Today 01:30");
    assert_eq!(format_utc(2026, 9, 22, 21, 59), "Yesterday 23:59");
    assert_eq!(format_utc(2026, 9, 22, 7, 5), "Yesterday 09:05");
}

#[test]
fn the_last_week_uses_weekdays_and_older_entries_use_dates() {
    assert_eq!(format_utc(2026, 9, 21, 12, 32), "Mon 14:32");
    assert_eq!(format_utc(2026, 9, 17, 12, 32), "Thu 14:32");
    // Seven days back would repeat today's weekday, so it gets a date.
    assert_eq!(format_utc(2026, 9, 16, 12, 32), "Sep 16");
    assert_eq!(format_utc(2026, 1, 3, 12, 0), "Jan 3");
    assert_eq!(format_utc(2025, 12, 30, 12, 0), "Dec 30, 2025");
}

#[test]
fn a_timestamp_from_a_later_day_shows_its_date() {
    assert_eq!(format_utc(2026, 9, 24, 12, 0), "Sep 24");
}

#[test]
fn the_recent_history_shows_ten_then_thirty() {
    assert_eq!(recent_history_window(4, false), (4, false));
    assert_eq!(recent_history_window(25, false), (10, true));
    assert_eq!(recent_history_window(25, true), (25, false));
    assert_eq!(recent_history_window(40, true), (30, false));
}

#[test]
fn the_access_step_says_what_works() {
    let mut readiness = Readiness {
        transcription_key: true,
        desktop: DesktopReadiness { paste_access: false },
        shortcut: HotkeyReadiness::Ready,
    };
    assert_eq!(
        shortcut_line(&readiness, "Ctrl+Space"),
        ("AgentDictate hears your shortcut, Ctrl+Space.".to_owned(), AccessTone::Works)
    );
    assert_eq!(
        paste_line(&readiness),
        ("AgentDictate can't paste yet, so your words are only copied.", AccessTone::Missing)
    );
    readiness.shortcut = HotkeyReadiness::Unavailable { reason: "no device".to_owned() };
    assert_eq!(shortcut_line(&readiness, "x").1, AccessTone::Missing);
    readiness.desktop.paste_access = true;
    assert_eq!(paste_line(&readiness).1, AccessTone::Works);
}
