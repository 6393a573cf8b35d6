//! The Replacements screen: its rules, their match policy, and the draft
//! that the editor validates.

use vstd::prelude::*;

use crate::text::{chars_of, is_blank, is_blank_chars};

verus! {

#[derive(Clone, Debug, PartialEq, Eq)]
pub struct ReplacementRuleViewModel {
    pub id: i64,
    pub source: String,
    pub replacement: String,
    pub enabled: bool,
    pub case_sensitive: bool,
    pub whole_word_only: bool,
}

/// How a rule matches, as its row says it.
pub open spec fn spec_match_policy_label(case_sensitive: bool, whole_word_only: bool) -> Seq<char> {
    match (case_sensitive, whole_word_only) {
        (false, true) => "Whole words"@,
        (false, false) => "Anywhere"@,
        (true, true) => "Case-sensitive · Whole words"@,
        (true, false) => "Case-sensitive · Anywhere"@,
    }
}

impl ReplacementRuleViewModel {
    pub fn new(
        id: i64,
        source: &str,
        replacement: &str,
        enabled: bool,
        case_sensitive: bool,
        whole_word_only: bool,
    ) -> (rule: Self)
        ensures
            rule.id == id,
            rule.source@ == source@,
            rule.replacement@ == replacement@,
            rule.enabled == enabled,
            rule.case_sensitive == case_sensitive,
            rule.whole_word_only == whole_word_only,
    {
        ReplacementRuleViewModel {
            id,
            source: source.to_owned(),
            replacement: replacement.to_owned(),
            enabled,
            case_sensitive,
            whole_word_only,
        }
    }

    pub fn match_policy_label(&self) -> (label: &'static str)
        ensures
            label@ == spec_match_policy_label(self.case_sensitive, self.whole_word_only),
    {
        match (self.case_sensitive, self.whole_word_only) {
            (false, true) => "Whole words",
            (false, false) => "Anywhere",
            (true, true) => "Case-sensitive · Whole words",
            (true, false) => "Case-sensitive · Anywhere",
        }
    }

    /// An editor draft holding this rule.
    pub fn draft(&self) -> (draft: ReplacementDraft)
        ensures
            draft.source@ == self.source@,
            draft.replacement@ == self.replacement@,
            draft.enabled == self.enabled,
            draft.case_sensitive == self.case_sensitive,
            draft.whole_word_only == self.whole_word_only,
    {
        ReplacementDraft::from_rule(self)
    }
}

#[derive(Clone, Debug, PartialEq, Eq)]
pub struct ReplacementsViewModel {
    pub rules: Vec<ReplacementRuleViewModel>,
}

/// How many of `rules` are enabled.
pub open spec fn enabled_in(rules: Seq<ReplacementRuleViewModel>) -> nat
    decreases rules.len(),
{
    if rules.len() == 0 {
        0
    } else {
        enabled_in(rules.drop_last()) + if rules.last().enabled { 1nat } else { 0nat }
    }
}

impl ReplacementsViewModel {
    pub fn new(rules: Vec<ReplacementRuleViewModel>) -> (model: Self)
        ensures
            model.rules@ == rules@,
    {
        ReplacementsViewModel { rules }
    }

    pub fn rule_count(&self) -> (n: u64)
        ensures
            n == self.rules@.len(),
    {
        self.rules.len() as u64
    }

    pub fn enabled_count(&self) -> (n: u64)
        ensures
            n == enabled_in(self.rules@),
    {
        let mut n: u64 = 0;
        let mut i: usize = 0;
        while i < self.rules.len()
            invariant
                i <= self.rules@.len(),
                n == enabled_in(self.rules@.take(i as int)),
                n <= i,
            decreases self.rules@.len() - i,
        {
            proof {
                assert(self.rules@.take(i + 1).drop_last() =~= self.rules@.take(i as int));
            }
            if self.rules[i].enabled {
                n = n + 1;
            }
            i += 1;
        }
        proof {
            assert(self.rules@.take(self.rules@.len() as int) =~= self.rules@);
        }
        n
    }
}

#[derive(Clone, Debug, PartialEq, Eq)]
pub struct ReplacementDraft {
    pub source: String,
    pub replacement: String,
    pub enabled: bool,
    pub case_sensitive: bool,
    pub whole_word_only: bool,
}

impl ReplacementDraft {
    /// A new rule: enabled, ignoring case, matching whole words.
    pub fn new(source: &str, replacement: &str) -> (draft: Self)
        ensures
            draft.source@ == source@,
            draft.replacement@ == replacement@,
            draft.enabled,
            !draft.case_sensitive,
            draft.whole_word_only,
    {
        ReplacementDraft {
            source: source.to_owned(),
            replacement: replacement.to_owned(),
            enabled: true,
            case_sensitive: false,
            whole_word_only: true,
        }
    }

    pub fn from_rule(rule: &ReplacementRuleViewModel) -> (draft: Self)
        ensures
            draft.source@ == rule.source@,
            draft.replacement@ == rule.replacement@,
            draft.enabled == rule.enabled,
            draft.case_sensitive == rule.case_sensitive,
            draft.whole_word_only == rule.whole_word_only,
    {
        ReplacementDraft {
            source: rule.source.clone(),
            replacement: rule.replacement.clone(),
            enabled: rule.enabled,
            case_sensitive: rule.case_sensitive,
            whole_word_only: rule.whole_word_only,
        }
    }

    /// A draft can be saved when both phrases hold more than white space.
    pub fn is_valid(&self) -> (valid: bool)
        ensures
            valid == (!is_blank(self.source@) && !is_blank(self.replacement@)),
    {
        let source = chars_of(self.source.as_str());
        let replacement = chars_of(self.replacement.as_str());
        !is_blank_chars(source.as_slice()) && !is_blank_chars(replacement.as_slice())
    }
}

} // verus!
