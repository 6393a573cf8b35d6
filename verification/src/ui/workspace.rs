//! What the settings window asks the daemon to do with its workspace.

use vstd::prelude::*;

verus! {

/// One workspace request from the settings window.
#[derive(Clone, Debug, PartialEq, Eq)]
pub enum WorkspaceAction {
    /// Shows the History page that matches `query`.
    SearchHistory { query: String },
    /// Appends the next page of the current History search.
    LoadMoreHistory,
    /// Copies transcript `id` to the clipboard.
    CopyTranscript { id: i64 },
}

} // verus!
