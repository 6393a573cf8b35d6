//! Dictations made by another client and imported into History and usage:
//! where they come from, what a receipt must hold, and what an import did.

use vstd::prelude::*;

use crate::job::RuntimeError;
use crate::text::{chars_of, is_blank, is_blank_str, string_from, trim, trim_chars};
use vstd::utf8::encode_utf8;

verus! {

/// Receipt source ids longer than this many bytes are refused.
pub const MAX_SOURCE_ID_BYTES: usize = 512;

/// The client a dictation was imported from.
#[derive(Clone, Copy, Debug, PartialEq, Eq, Structural)]
pub enum ExternalDictationSource {
    ChatGptDesktop,
}

impl ExternalDictationSource {
    /// The name the import ledger stores for the source.
    pub fn as_str(self) -> (name: &'static str)
        ensures
            name@ == match self {
                ExternalDictationSource::ChatGptDesktop => "chatgpt_desktop"@,
            },
    {
        match self {
            ExternalDictationSource::ChatGptDesktop => "chatgpt_desktop",
        }
    }

    /// The transcription provider that usage records for the source.
    pub fn transcription_provider(self) -> (name: &'static str)
        ensures
            name@ == match self {
                ExternalDictationSource::ChatGptDesktop => "chatgpt_subscription"@,
            },
    {
        match self {
            ExternalDictationSource::ChatGptDesktop => "chatgpt_subscription",
        }
    }
}

/// What an import did.
#[derive(Clone, Copy, Debug, PartialEq, Eq, Structural)]
pub enum ExternalDictationImportOutcome {
    Imported { session_id: i64, word_count: u64 },
    /// The ledger already holds the receipt; nothing changed.
    AlreadyImported,
}

/// Why a receipt is refused, checked in this order; `None` when it is
/// valid. `duration_valid` is whether its duration is a finite,
/// non-negative number of seconds.
pub open spec fn receipt_problem(
    source_id: Seq<char>,
    duration_valid: bool,
    transcription_model: Seq<char>,
    raw_transcript: Seq<char>,
    final_text: Seq<char>,
) -> Option<Seq<char>> {
    if is_blank(source_id) {
        Some("source id is blank"@)
    } else if encode_utf8(source_id).len() > MAX_SOURCE_ID_BYTES {
        Some("source id is too long"@)
    } else if !duration_valid {
        Some("duration must be a finite non-negative number"@)
    } else if is_blank(transcription_model) {
        Some("transcription model is blank"@)
    } else if is_blank(raw_transcript) {
        Some("raw transcript is blank"@)
    } else if is_blank(final_text) {
        Some("final text is blank"@)
    } else {
        None
    }
}

fn invalid(reason: &str) -> (r: Result<(), RuntimeError>)
    ensures
        r matches Err(RuntimeError::InvalidExternalDictation(m)) && m@ == reason@,
{
    Err(RuntimeError::InvalidExternalDictation(reason.to_owned()))
}

/// Checks a receipt before anything is written: every text must hold more
/// than whitespace, the source id must fit 512 bytes, and the duration must
/// be valid.
pub fn validate_receipt(
    source_id: &str,
    duration_valid: bool,
    transcription_model: &str,
    raw_transcript: &str,
    final_text: &str,
) -> (r: Result<(), RuntimeError>)
    ensures
        match receipt_problem(source_id@, duration_valid, transcription_model@, raw_transcript@, final_text@) {
            None => r is Ok,
            Some(reason) => r matches Err(RuntimeError::InvalidExternalDictation(m)) && m@ == reason,
        },
{
    if is_blank_str(source_id) {
        return invalid("source id is blank");
    }
    if source_id.as_bytes().len() > MAX_SOURCE_ID_BYTES {
        return invalid("source id is too long");
    }
    if !duration_valid {
        return invalid("duration must be a finite non-negative number");
    }
    if is_blank_str(transcription_model) {
        return invalid("transcription model is blank");
    }
    if is_blank_str(raw_transcript) {
        return invalid("raw transcript is blank");
    }
    if is_blank_str(final_text) {
        return invalid("final text is blank");
    }
    Ok(())
}

/// The texts an import stores: both transcripts trimmed, and the number of
/// characters of the trimmed final text.
#[derive(Clone, Debug, PartialEq, Eq)]
pub struct ImportTexts {
    pub raw_transcript: String,
    pub final_text: String,
    pub final_character_count: u64,
}

pub fn import_texts(raw_transcript: &str, final_text: &str) -> (texts: ImportTexts)
    ensures
        texts.raw_transcript@ == trim(raw_transcript@),
        texts.final_text@ == trim(final_text@),
        texts.final_character_count == trim(final_text@).len(),
{
    let raw = trim_chars(chars_of(raw_transcript).as_slice());
    let text = trim_chars(chars_of(final_text).as_slice());
    let count = text.len() as u64;
    ImportTexts {
        raw_transcript: string_from(raw.as_slice()),
        final_text: string_from(text.as_slice()),
        final_character_count: count,
    }
}

} // verus!
