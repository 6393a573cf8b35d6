use agentdictate::ui::history_lane::HistoryActionLane;
use agentdictate::ui::workspace::WorkspaceAction;

#[test]
fn a_newer_query_replaces_every_queued_query_and_discards_the_old_result() {
    let mut lane = HistoryActionLane::default();
    assert!(lane.schedule(&WorkspaceAction::SearchHistory { query: "n".into() }));
    assert!(!lane.schedule(&WorkspaceAction::SearchHistory { query: "ne".into() }));
    assert!(!lane.schedule(&WorkspaceAction::SearchHistory {
        query: "needle".into(),
    }));

    let completion = lane.complete();

    assert!(!completion.apply_result);
    assert_eq!(completion.next_search.as_deref(), Some("needle"));
    assert!(lane.schedule(&WorkspaceAction::SearchHistory {
        query: "needle".into(),
    }));
}

#[test]
fn an_uncontested_result_is_applied_and_load_more_is_not_duplicated() {
    let mut lane = HistoryActionLane::default();
    assert!(lane.schedule(&WorkspaceAction::LoadMoreHistory));
    assert!(!lane.schedule(&WorkspaceAction::LoadMoreHistory));

    let completion = lane.complete();

    assert!(completion.apply_result);
    assert!(completion.next_search.is_none());
}

#[test]
fn other_actions_while_a_read_runs_are_dropped_and_keep_the_queued_search() {
    let mut lane = HistoryActionLane::new();
    assert!(lane.schedule(&WorkspaceAction::CopyTranscript { id: 3 }));
    assert!(!lane.schedule(&WorkspaceAction::SearchHistory { query: "a".into() }));
    assert!(!lane.schedule(&WorkspaceAction::CopyTranscript { id: 4 }));
    let completion = lane.complete();
    assert_eq!(completion.next_search.as_deref(), Some("a"));
    let idle = lane.complete();
    assert!(idle.apply_result);
}
