//! History reads run one at a time in their own lane, so unrelated
//! workspace actions stay interactive, and only the newest query waits.

use vstd::prelude::*;

use crate::ui::workspace::WorkspaceAction;

verus! {

/// Serializes history reads while retaining only the newest query.
#[derive(Debug)]
pub struct HistoryActionLane {
    in_flight: bool,
    pending_search: Option<String>,
}

/// The lane as its rules see it.
pub struct LaneView {
    pub in_flight: bool,
    pub pending_search: Option<Seq<char>>,
}

impl View for HistoryActionLane {
    type V = LaneView;

    closed spec fn view(&self) -> LaneView {
        LaneView {
            in_flight: self.in_flight,
            pending_search: match self.pending_search {
                Some(s) => Some(s@),
                None => None,
            },
        }
    }
}

/// What scheduling `action` does to a lane, and whether it starts now.
pub open spec fn spec_schedule(lane: LaneView, action: WorkspaceAction) -> (LaneView, bool) {
    if lane.in_flight {
        (
            LaneView {
                in_flight: true,
                pending_search: match action {
                    WorkspaceAction::SearchHistory { query } => Some(query@),
                    _ => lane.pending_search,
                },
            },
            false,
        )
    } else {
        (LaneView { in_flight: true, pending_search: lane.pending_search }, true)
    }
}

/// What completing the active read does to a lane: the lane is idle, the
/// result is applied unless a newer search waits, and that search is
/// dispatched next.
pub open spec fn spec_complete(lane: LaneView) -> (LaneView, bool, Option<Seq<char>>) {
    (LaneView { in_flight: false, pending_search: None }, lane.pending_search is None, lane.pending_search)
}

/// How a completed read is handled.
#[derive(Debug)]
pub struct HistoryActionCompletion {
    pub apply_result: bool,
    pub next_search: Option<String>,
}

impl HistoryActionLane {
    /// An idle lane with nothing queued.
    pub fn new() -> (lane: Self)
        ensures
            !lane@.in_flight,
            lane@.pending_search is None,
    {
        HistoryActionLane { in_flight: false, pending_search: None }
    }

    /// Returns whether the caller should start `action` now. While a read
    /// is in flight nothing starts; a search is queued instead, replacing
    /// any search queued before it, and anything else is dropped.
    pub fn schedule(&mut self, action: &WorkspaceAction) -> (start: bool)
        ensures
            (final(self)@, start) == spec_schedule(old(self)@, *action),
    {
        if self.in_flight {
            match action {
                WorkspaceAction::SearchHistory { query } => {
                    self.pending_search = Some(query.clone());
                },
                _ => {},
            }
            return false;
        }
        self.in_flight = true;
        true
    }

    /// Completes the active read. A queued newer search makes the completed
    /// result obsolete and is returned for immediate dispatch.
    pub fn complete(&mut self) -> (completion: HistoryActionCompletion)
        ensures
            (final(self)@, completion.apply_result, match completion.next_search {
                Some(s) => Some(s@),
                None => None,
            }) == spec_complete(old(self)@),
    {
        self.in_flight = false;
        let next_search = self.pending_search.take();
        let apply_result = next_search.is_none();
        HistoryActionCompletion { apply_result, next_search }
    }
}

/// While a read runs, the newest search replaces every search queued before
/// it, and once the read completes its result is discarded and that search
/// runs next; other actions are dropped, never queued twice.
pub proof fn lemma_newest_search_wins(lane: LaneView, first: WorkspaceAction, second: WorkspaceAction)
    requires
        lane.in_flight,
        second is SearchHistory,
    ensures
        !spec_schedule(lane, first).1,
        !spec_schedule(spec_schedule(lane, first).0, second).1,
        !spec_complete(spec_schedule(spec_schedule(lane, first).0, second).0).1,
        spec_complete(spec_schedule(spec_schedule(lane, first).0, second).0).2 == Some(
            second->SearchHistory_query@,
        ),
{
}

/// An uncontested read is applied: with no search queued, actions other
/// than a search scheduled while it runs leave nothing to dispatch.
pub proof fn lemma_uncontested_result_applies(lane: LaneView, action: WorkspaceAction)
    requires
        !lane.in_flight,
        lane.pending_search is None,
        !(action is SearchHistory),
    ensures
        spec_schedule(lane, action).1,
        !spec_schedule(spec_schedule(lane, action).0, action).1,
        spec_complete(spec_schedule(spec_schedule(lane, action).0, action).0).1,
        spec_complete(spec_schedule(spec_schedule(lane, action).0, action).0).2 is None,
{
}

impl Default for HistoryActionLane {
    /// An idle lane with nothing queued.
    fn default() -> (lane: Self)
        ensures
            !lane@.in_flight,
            lane@.pending_search is None,
    {
        HistoryActionLane::new()
    }
}

} // verus!
