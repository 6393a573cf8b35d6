//! The History screen's view models: Recovery items, transcript rows and
//! the counts above them.

use vstd::prelude::*;

use crate::job::JobStage;
use crate::text::{chars_of, decimal, decimal_chars, is_blank, is_blank_chars, push_char};

verus! {

/// Characters of a transcript that a collapsed History row shows.
pub const ROW_PREVIEW_CHARACTERS: usize = 120;

/// What a Recovery item needs, which decides its label and its button.
#[derive(Clone, Copy, Debug, PartialEq, Eq, Structural)]
pub enum RecoveryStage {
    Transcription,
    Delivery,
    /// Discarded with Esc; transcribing it anyway is the user's choice.
    Cancelled,
}

impl RecoveryStage {
    pub fn label(self) -> (label: &'static str)
        ensures
            label@ == match self {
                RecoveryStage::Transcription => "Needs transcription"@,
                RecoveryStage::Delivery => "Ready to paste"@,
                RecoveryStage::Cancelled => "Cancelled — transcribe anyway?"@,
            },
    {
        match self {
            RecoveryStage::Transcription => "Needs transcription",
            RecoveryStage::Delivery => "Ready to paste",
            RecoveryStage::Cancelled => "Cancelled — transcribe anyway?",
        }
    }

    pub fn primary_action_label(self) -> (label: &'static str)
        ensures
            label@ == spec_primary_action_label(self),
    {
        match self {
            RecoveryStage::Transcription => "Transcribe again",
            RecoveryStage::Delivery => "Paste again",
            RecoveryStage::Cancelled => "Transcribe",
        }
    }
}

pub open spec fn spec_primary_action_label(stage: RecoveryStage) -> Seq<char> {
    match stage {
        RecoveryStage::Transcription => "Transcribe again"@,
        RecoveryStage::Delivery => "Paste again"@,
        RecoveryStage::Cancelled => "Transcribe"@,
    }
}

/// What a Recovery item offers: a cancelled recording is transcribed by
/// choice; stored text that failed to paste, or whose paste is ambiguous,
/// is pasted again; anything else is transcribed again.
pub open spec fn spec_recovery_stage_for(stage: JobStage, final_text: Seq<char>, delivery_ambiguous: bool) -> RecoveryStage {
    let has_text = !is_blank(final_text);
    if stage == JobStage::Cancelled {
        RecoveryStage::Cancelled
    } else if (stage == JobStage::ReadyToDeliver || stage == JobStage::Failed) && has_text {
        RecoveryStage::Delivery
    } else if has_text && delivery_ambiguous {
        RecoveryStage::Delivery
    } else {
        RecoveryStage::Transcription
    }
}

pub fn recovery_stage_for(stage: JobStage, final_text: &str, delivery_ambiguous: bool) -> (r: RecoveryStage)
    ensures
        r == spec_recovery_stage_for(stage, final_text@, delivery_ambiguous),
{
    let chars = chars_of(final_text);
    let has_text = !is_blank_chars(chars.as_slice());
    if stage == JobStage::Cancelled {
        RecoveryStage::Cancelled
    } else if (stage == JobStage::ReadyToDeliver || stage == JobStage::Failed) && has_text {
        RecoveryStage::Delivery
    } else if has_text && delivery_ambiguous {
        RecoveryStage::Delivery
    } else {
        RecoveryStage::Transcription
    }
}

#[derive(Clone, Debug, PartialEq, Eq)]
pub struct RecoveryItemViewModel {
    pub id: String,
    pub stage: RecoveryStage,
    pub captured_at: String,
    pub duration: String,
    pub error: String,
    pub transcript_preview: Option<String>,
    /// When the item is deleted unless the user acts, such as "Expires in
    /// 7 days".
    pub expires: Option<String>,
}

impl RecoveryItemViewModel {
    pub fn new(
        id: &str,
        stage: RecoveryStage,
        captured_at: &str,
        duration: &str,
        error: &str,
        transcript_preview: Option<String>,
    ) -> (item: Self)
        ensures
            item.id@ == id@,
            item.stage == stage,
            item.captured_at@ == captured_at@,
            item.duration@ == duration@,
            item.error@ == error@,
            item.transcript_preview == transcript_preview,
            item.expires is None,
    {
        RecoveryItemViewModel {
            id: id.to_owned(),
            stage,
            captured_at: captured_at.to_owned(),
            duration: duration.to_owned(),
            error: error.to_owned(),
            transcript_preview,
            expires: None,
        }
    }

    pub fn primary_action_label(&self) -> (label: &'static str)
        ensures
            label@ == spec_primary_action_label(self.stage),
    {
        self.stage.primary_action_label()
    }

    /// Presents a Recovery item from its stored job: what it offers follows
    /// its stage and text, a job without a message reads as saved safely,
    /// and its text shows only when it holds more than white space. The
    /// times and duration come already worded on the user's clock.
    pub fn from_recovery(
        id: &str,
        stage: JobStage,
        final_text: &str,
        delivery_ambiguous: bool,
        updated_at: &str,
        duration: &str,
        error_message: Option<&str>,
        expires: &str,
    ) -> (item: Self)
        ensures
            item.id@ == id@,
            item.stage == spec_recovery_stage_for(stage, final_text@, delivery_ambiguous),
            item.captured_at@ == updated_at@,
            item.duration@ == duration@,
            item.error@ == match error_message {
                Some(m) => m@,
                None => "Recording saved safely"@,
            },
            match item.transcript_preview {
                Some(p) => !is_blank(final_text@) && p@ == final_text@,
                None => is_blank(final_text@),
            },
            match item.expires {
                Some(e) => e@ == expires@,
                None => false,
            },
    {
        let recovery_stage = recovery_stage_for(stage, final_text, delivery_ambiguous);
        let has_text = !is_blank_chars(chars_of(final_text).as_slice());
        let error: &str = match error_message {
            Some(m) => m,
            None => "Recording saved safely",
        };
        let preview = if has_text { Some(final_text.to_owned()) } else { None };
        let item = RecoveryItemViewModel::new(id, recovery_stage, updated_at, duration, error, preview);
        RecoveryItemViewModel { expires: Some(expires.to_owned()), ..item }
    }
}

#[derive(Clone, Debug, PartialEq, Eq)]
pub struct TranscriptViewModel {
    pub id: i64,
    pub created_at: String,
    /// The whole transcript, shown when its row is expanded.
    pub text: String,
    /// The one line shown while its row is collapsed.
    pub preview: String,
    pub word_count: u64,
    pub duration: String,
}

/// The collapsed line of `text`: its first 120 characters, and an ellipsis
/// when there are more.
pub open spec fn spec_row_preview(text: Seq<char>) -> Seq<char> {
    if text.len() > 120 {
        text.take(120).push('…')
    } else {
        text
    }
}

impl TranscriptViewModel {
    /// A transcript whose collapsed line is the start of `text`.
    pub fn new(id: i64, created_at: &str, text: &str, word_count: u64, duration: &str) -> (row: Self)
        ensures
            row.id == id,
            row.created_at@ == created_at@,
            row.text@ == text@,
            row.preview@ == spec_row_preview(text@),
            row.word_count == word_count,
            row.duration@ == duration@,
    {
        let chars = chars_of(text);
        let mut preview = String::new();
        let count = if chars.len() > ROW_PREVIEW_CHARACTERS { ROW_PREVIEW_CHARACTERS } else { chars.len() };
        let mut i: usize = 0;
        while i < count
            invariant
                i <= count,
                count <= chars@.len(),
                preview@ == chars@.take(i as int),
            decreases count - i,
        {
            push_char(&mut preview, chars[i]);
            proof {
                assert(chars@.take(i + 1) =~= chars@.take(i as int).push(chars@[i as int]));
            }
            i += 1;
        }
        if chars.len() > ROW_PREVIEW_CHARACTERS {
            push_char(&mut preview, '…');
        } else {
            proof {
                assert(chars@.take(count as int) =~= chars@);
            }
        }
        TranscriptViewModel {
            id,
            created_at: created_at.to_owned(),
            text: text.to_owned(),
            preview,
            word_count,
            duration: duration.to_owned(),
        }
    }

    /// Replaces the collapsed line, e.g. with the excerpt around a search
    /// match.
    pub fn with_preview(self, preview: String) -> (row: Self)
        ensures
            row.preview == preview,
            row.id == self.id,
            row.created_at == self.created_at,
            row.text == self.text,
            row.word_count == self.word_count,
            row.duration == self.duration,
    {
        TranscriptViewModel { preview, ..self }
    }
}

#[derive(Clone, Debug, PartialEq, Eq)]
pub struct RecoveryViewModel {
    pub title: &'static str,
    pub detail: String,
    pub item_count: u64,
    pub items: Vec<RecoveryItemViewModel>,
}

/// How many recordings need attention, in words.
pub open spec fn spec_recovery_detail(count: nat) -> Seq<char> {
    if count == 0 {
        "No recordings need your attention"@
    } else if count == 1 {
        "1 recording needs your attention"@
    } else {
        decimal(count) + " recordings need your attention"@
    }
}

impl RecoveryViewModel {
    pub fn from_item_count(item_count: u64) -> (model: Self)
        ensures
            model.title@ == "Recovery"@,
            model.detail@ == spec_recovery_detail(item_count as nat),
            model.item_count == item_count,
            model.items@.len() == 0,
    {
        let detail = if item_count == 0 {
            String::from_str("No recordings need your attention")
        } else if item_count == 1 {
            String::from_str("1 recording needs your attention")
        } else {
            let digits = decimal_chars(item_count);
            let mut detail = String::new();
            let mut i: usize = 0;
            while i < digits.len()
                invariant
                    i <= digits@.len(),
                    detail@ == digits@.take(i as int),
                decreases digits@.len() - i,
            {
                push_char(&mut detail, digits[i]);
                proof {
                    assert(digits@.take(i + 1) =~= digits@.take(i as int).push(digits@[i as int]));
                }
                i += 1;
            }
            proof {
                assert(digits@.take(digits@.len() as int) =~= digits@);
            }
            detail.append(" recordings need your attention");
            detail
        };
        RecoveryViewModel { title: "Recovery", detail, item_count, items: Vec::new() }
    }

    pub fn from_items(items: Vec<RecoveryItemViewModel>) -> (model: Self)
        ensures
            model.title@ == "Recovery"@,
            model.item_count == items@.len(),
            model.detail@ == spec_recovery_detail(items@.len()),
            model.items@ == items@,
    {
        let mut model = RecoveryViewModel::from_item_count(items.len() as u64);
        model.items = items;
        model
    }

    pub fn has_items(&self) -> (b: bool)
        ensures
            b == (self.item_count > 0),
    {
        self.item_count > 0
    }
}

#[derive(Clone, Debug, PartialEq, Eq)]
pub struct HistoryViewModel {
    pub transcript_count: u64,
    pub search: String,
    pub has_more: bool,
    pub recovery: RecoveryViewModel,
    pub transcripts: Vec<TranscriptViewModel>,
}

impl Default for HistoryViewModel {
    /// No transcripts and nothing to recover.
    fn default() -> (model: Self)
        ensures
            model.transcript_count == 0,
            model.search@.len() == 0,
            !model.has_more,
            model.recovery.title@ == "Recovery"@,
            model.recovery.item_count == 0,
            model.recovery.items@.len() == 0,
            model.transcripts@.len() == 0,
    {
        HistoryViewModel::new(0, 0)
    }
}

impl HistoryViewModel {
    /// An empty History with the given counts and no search.
    pub fn new(transcript_count: u64, recoverable_recording_count: u64) -> (model: Self)
        ensures
            model.transcript_count == transcript_count,
            model.search@.len() == 0,
            !model.has_more,
            model.recovery.title@ == "Recovery"@,
            model.recovery.item_count == recoverable_recording_count,
            model.recovery.detail@ == spec_recovery_detail(recoverable_recording_count as nat),
            model.recovery.items@.len() == 0,
            model.transcripts@.len() == 0,
    {
        HistoryViewModel {
            transcript_count,
            search: String::new(),
            has_more: false,
            recovery: RecoveryViewModel::from_item_count(recoverable_recording_count),
            transcripts: Vec::new(),
        }
    }

    /// Presents Recovery and one History page.
    pub fn from_page(
        recovery_items: Vec<RecoveryItemViewModel>,
        transcripts: Vec<TranscriptViewModel>,
        transcript_count: u64,
        search: String,
        has_more: bool,
    ) -> (model: Self)
        ensures
            model.transcript_count == transcript_count,
            model.search == search,
            model.has_more == has_more,
            model.recovery.title@ == "Recovery"@,
            model.recovery.items@ == recovery_items@,
            model.recovery.item_count == recovery_items@.len(),
            model.recovery.detail@ == spec_recovery_detail(recovery_items@.len()),
            model.transcripts@ == transcripts@,
    {
        HistoryViewModel {
            transcript_count,
            search,
            has_more,
            recovery: RecoveryViewModel::from_items(recovery_items),
            transcripts,
        }
    }
}

/// Transcripts the overview's recent history shows before it is expanded.
pub const RECENT_HISTORY_COLLAPSED_LIMIT: usize = 10;

/// Transcripts the overview's recent history shows once expanded.
pub const RECENT_HISTORY_EXPANDED_LIMIT: usize = 30;

/// How many of `transcript_count` recent transcripts the overview shows,
/// and whether it offers to show more.
pub fn recent_history_window(transcript_count: usize, expanded: bool) -> (window: (usize, bool))
    ensures
        window.0 == if transcript_count <= (if expanded {
            RECENT_HISTORY_EXPANDED_LIMIT
        } else {
            RECENT_HISTORY_COLLAPSED_LIMIT
        }) {
            transcript_count
        } else if expanded {
            RECENT_HISTORY_EXPANDED_LIMIT
        } else {
            RECENT_HISTORY_COLLAPSED_LIMIT
        },
        window.1 == (!expanded && transcript_count > RECENT_HISTORY_COLLAPSED_LIMIT),
{
    let limit = if expanded { RECENT_HISTORY_EXPANDED_LIMIT } else { RECENT_HISTORY_COLLAPSED_LIMIT };
    let visible = if transcript_count <= limit { transcript_count } else { limit };
    (visible, !expanded && transcript_count > RECENT_HISTORY_COLLAPSED_LIMIT)
}

} // verus!
