//! The stored replacement rules: a rule's source phrase is trimmed and must
//! not be blank, and an update names an existing rule.

use vstd::prelude::*;

use crate::job::RuntimeError;
use crate::text::{chars_of, string_from, trim, trim_chars};

verus! {

/// A replacement rule as the database stores it.
#[derive(Clone, Debug, PartialEq, Eq)]
pub struct ReplacementRule {
    pub id: Option<i64>,
    pub source_phrase: String,
    pub replacement_phrase: String,
    pub enabled: bool,
    pub case_sensitive: bool,
    pub whole_word_only: bool,
}

/// `rule` with its source phrase trimmed, everything else kept.
pub open spec fn is_trimmed_rule(result: ReplacementRule, rule: ReplacementRule) -> bool {
    &&& result.source_phrase@ == trim(rule.source_phrase@)
    &&& result.replacement_phrase@ == rule.replacement_phrase@
    &&& result.id == rule.id
    &&& result.enabled == rule.enabled
    &&& result.case_sensitive == rule.case_sensitive
    &&& result.whole_word_only == rule.whole_word_only
}

/// The rule to store: its source phrase trimmed; refused when that leaves
/// nothing.
pub fn prepare_rule(rule: ReplacementRule) -> (r: Result<ReplacementRule, RuntimeError>)
    ensures
        trim(rule.source_phrase@).len() == 0 ==> r == Err::<ReplacementRule, RuntimeError>(
            RuntimeError::InvalidReplacementSource,
        ),
        trim(rule.source_phrase@).len() > 0 ==> (r matches Ok(stored) && is_trimmed_rule(stored, rule)),
{
    let source = trim_chars(chars_of(rule.source_phrase.as_str()).as_slice());
    if source.len() == 0 {
        return Err(RuntimeError::InvalidReplacementSource);
    }
    Ok(ReplacementRule {
        id: rule.id,
        source_phrase: string_from(source.as_slice()),
        replacement_phrase: rule.replacement_phrase,
        enabled: rule.enabled,
        case_sensitive: rule.case_sensitive,
        whole_word_only: rule.whole_word_only,
    })
}

/// The id and stored form of an updated rule: refused without an id first,
/// then when its source phrase is blank.
pub fn prepare_update(rule: ReplacementRule) -> (r: Result<(i64, ReplacementRule), RuntimeError>)
    ensures
        rule.id is None ==> r == Err::<(i64, ReplacementRule), RuntimeError>(RuntimeError::MissingReplacementId),
        rule.id is Some && trim(rule.source_phrase@).len() == 0 ==> r == Err::<
            (i64, ReplacementRule),
            RuntimeError,
        >(RuntimeError::InvalidReplacementSource),
        rule.id is Some && trim(rule.source_phrase@).len() > 0 ==> (r matches Ok((id, stored)) && rule.id
            == Some(id) && is_trimmed_rule(stored, rule)),
{
    let id = match rule.id {
        Some(id) => id,
        None => return Err(RuntimeError::MissingReplacementId),
    };
    match prepare_rule(rule) {
        Ok(stored) => Ok((id, stored)),
        Err(e) => Err(e),
    }
}

/// The outcome of an update that changed `updated` rows of rule `id`.
pub fn update_outcome(updated: usize, id: i64, stored: ReplacementRule) -> (r: Result<ReplacementRule, RuntimeError>)
    ensures
        updated == 0 ==> r == Err::<ReplacementRule, RuntimeError>(RuntimeError::ReplacementNotFound(id)),
        updated > 0 ==> r == Ok::<ReplacementRule, RuntimeError>(stored),
{
    if updated == 0 {
        Err(RuntimeError::ReplacementNotFound(id))
    } else {
        Ok(stored)
    }
}

} // verus!
