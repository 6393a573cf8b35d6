//! The one-time move of the retired Replacements feature into vocabulary:
//! an enabled whole-word rule becomes an alias (its source phrase) of a
//! spelling (its replacement phrase). Vocabulary ignores case.

use vstd::prelude::*;

use crate::text::{chars_of, str_to_lowercase, string_from, trim, trim_chars, unicode_str_lowercase};
use crate::text::str_eq;

verus! {

/// A vocabulary spelling and the phrases heard for it.
#[derive(Clone, Debug, PartialEq, Eq)]
pub struct VocabularyEntry {
    pub spelling: String,
    pub aliases: Vec<String>,
}

/// An entry as text: its spelling and its aliases.
pub open spec fn entry_view(e: VocabularyEntry) -> (Seq<char>, Seq<Seq<char>>) {
    (e.spelling@, e.aliases@.map_values(|a: String| a@))
}

pub open spec fn vocabulary_view(v: Seq<VocabularyEntry>) -> Seq<(Seq<char>, Seq<Seq<char>>)> {
    v.map_values(|e: VocabularyEntry| entry_view(e))
}

/// Two phrases that vocabulary treats as one: equal once lower-cased.
pub open spec fn same_phrase(a: Seq<char>, b: Seq<char>) -> bool {
    unicode_str_lowercase(a) == unicode_str_lowercase(b)
}

/// `i` is the first entry spelled like `spelling`.
pub open spec fn is_first_spelling(v: Seq<(Seq<char>, Seq<Seq<char>>)>, spelling: Seq<char>, i: int) -> bool {
    &&& 0 <= i < v.len()
    &&& same_phrase(v[i].0, spelling)
    &&& forall|j: int| 0 <= j < i ==> !same_phrase(#[trigger] v[j].0, spelling)
}

pub open spec fn has_alias(aliases: Seq<Seq<char>>, alias: Seq<char>) -> bool {
    exists|k: int| 0 <= k < aliases.len() && same_phrase(#[trigger] aliases[k], alias)
}

/// The vocabulary with `alias` added to the entry spelled `spelling`, both
/// trimmed, or a new entry when none is spelled so; `None` when that entry
/// already has the alias.
pub open spec fn with_alias(
    v: Seq<(Seq<char>, Seq<Seq<char>>)>,
    spelling: Seq<char>,
    alias: Seq<char>,
) -> Option<Seq<(Seq<char>, Seq<Seq<char>>)>> {
    let sp = trim(spelling);
    let al = trim(alias);
    if exists|i: int| is_first_spelling(v, sp, i) {
        let i = choose|i: int| is_first_spelling(v, sp, i);
        if has_alias(v[i].1, al) {
            None
        } else {
            Some(v.update(i, (v[i].0, v[i].1.push(al))))
        }
    } else {
        Some(v.push((sp, seq![al])))
    }
}

proof fn lemma_some_first_spelling(v: Seq<(Seq<char>, Seq<Seq<char>>)>, spelling: Seq<char>, j: int)
    requires
        0 <= j < v.len(),
        same_phrase(v[j].0, spelling),
    ensures
        exists|i: int| is_first_spelling(v, spelling, i),
    decreases j,
{
    if forall|k: int| 0 <= k < j ==> !same_phrase(#[trigger] v[k].0, spelling) {
        assert(is_first_spelling(v, spelling, j));
    } else {
        let k = choose|k: int| 0 <= k < j && same_phrase(#[trigger] v[k].0, spelling);
        lemma_some_first_spelling(v, spelling, k);
    }
}

/// Adding an alias twice changes nothing the second time: once a rule has
/// moved into vocabulary, moving it again finds its alias already there.
/// A crash between saving vocabulary and disabling the rules is therefore
/// harmless.
pub proof fn lemma_alias_added_once(
    v: Seq<(Seq<char>, Seq<Seq<char>>)>,
    spelling: Seq<char>,
    alias: Seq<char>,
)
    requires
        with_alias(v, spelling, alias) is Some,
    ensures
        with_alias(with_alias(v, spelling, alias).unwrap(), spelling, alias) is None,
{
    let sp = trim(spelling);
    let al = trim(alias);
    let c = with_alias(v, spelling, alias).unwrap();
    if exists|i: int| is_first_spelling(v, sp, i) {
        let i = choose|i: int| is_first_spelling(v, sp, i);
        assert(c == v.update(i, (v[i].0, v[i].1.push(al))));
        assert(is_first_spelling(c, sp, i));
        assert forall|k: int| is_first_spelling(c, sp, k) implies k == i by {
            if k < i {
                assert(c[k] == v[k]);
            } else if k > i {
                assert(same_phrase(c[i].0, sp));
            }
        }
        let j = choose|j: int| is_first_spelling(c, sp, j);
        assert(j == i);
        assert(c[i].1[c[i].1.len() - 1] == al);
        assert(has_alias(c[i].1, al));
    } else {
        assert(c == v.push((sp, seq![al])));
        let n = v.len() as int;
        assert forall|k: int| 0 <= k < n implies !same_phrase(#[trigger] v[k].0, sp) by {
            if same_phrase(v[k].0, sp) {
                lemma_some_first_spelling(v, sp, k);
            }
        }
        assert(is_first_spelling(c, sp, n)) by {
            assert forall|k: int| 0 <= k < n implies !same_phrase(#[trigger] c[k].0, sp) by {
                assert(c[k] == v[k]);
            }
        }
        assert forall|k: int| is_first_spelling(c, sp, k) implies k == n by {
            if k < n {
                assert(c[k] == v[k]);
            }
        }
        let j = choose|j: int| is_first_spelling(c, sp, j);
        assert(j == n);
        assert(c[n].1 == seq![al]);
        assert(c[n].1[0] == al);
        assert(has_alias(c[n].1, al));
    }
}

/// What became of an enabled rule of the retired feature.
#[derive(Clone, Copy, Debug, PartialEq, Eq, Structural)]
pub enum RetiredReplacementOutcome {
    /// The source phrase is now an alias of the replacement's spelling.
    BecameAlias,
    /// The rule also matched inside words, which vocabulary never does.
    NotWholeWord,
    /// The Settings editor would reject it as vocabulary: a blank or
    /// oversized phrase, a comma or `=`, or an alias another spelling owns.
    NotValidVocabulary,
}

/// An enabled rule of the retired feature, and what became of it.
#[derive(Clone, Debug, PartialEq, Eq)]
pub struct RetiredReplacement {
    pub source_phrase: String,
    pub replacement_phrase: String,
    pub outcome: RetiredReplacementOutcome,
}

fn copy_strings(v: &Vec<String>) -> (c: Vec<String>)
    ensures
        c@.map_values(|a: String| a@) == v@.map_values(|a: String| a@),
{
    let mut c: Vec<String> = Vec::new();
    let mut i: usize = 0;
    while i < v.len()
        invariant
            i <= v@.len(),
            c@.len() == i,
            forall|k: int| 0 <= k < i ==> #[trigger] c@[k]@ == v@[k]@,
        decreases v@.len() - i,
    {
        c.push(v[i].clone());
        i += 1;
    }
    assert(c@.map_values(|a: String| a@) =~= v@.map_values(|a: String| a@));
    c
}

fn copy_entry(e: &VocabularyEntry) -> (c: VocabularyEntry)
    ensures
        entry_view(c) == entry_view(*e),
{
    VocabularyEntry { spelling: e.spelling.clone(), aliases: copy_strings(&e.aliases) }
}

fn copy_vocabulary(v: &Vec<VocabularyEntry>) -> (c: Vec<VocabularyEntry>)
    ensures
        vocabulary_view(c@) == vocabulary_view(v@),
{
    let mut c: Vec<VocabularyEntry> = Vec::new();
    let mut i: usize = 0;
    while i < v.len()
        invariant
            i <= v@.len(),
            c@.len() == i,
            forall|k: int| 0 <= k < i ==> entry_view(#[trigger] c@[k]) == entry_view(v@[k]),
        decreases v@.len() - i,
    {
        c.push(copy_entry(&v[i]));
        i += 1;
    }
    assert(vocabulary_view(c@) =~= vocabulary_view(v@));
    c
}

fn lowercase_eq(a: &str, b: &str) -> (r: bool)
    ensures
        r == same_phrase(a@, b@),
{
    let la = str_to_lowercase(a);
    let lb = str_to_lowercase(b);
    str_eq(la.as_str(), lb.as_str())
}

/// The vocabulary that adding `alias` to `spelling` would give, or `None`
/// when the entry already has the alias (in any case).
pub fn alias_candidate(vocabulary: &Vec<VocabularyEntry>, spelling: &str, alias: &str) -> (c: Option<Vec<VocabularyEntry>>)
    ensures
        match c {
            None => with_alias(vocabulary_view(vocabulary@), spelling@, alias@) is None,
            Some(c) => with_alias(vocabulary_view(vocabulary@), spelling@, alias@) == Some(vocabulary_view(c@)),
        },
{
    let ghost v = vocabulary_view(vocabulary@);
    let sp = string_from(trim_chars(chars_of(spelling).as_slice()).as_slice());
    let al = string_from(trim_chars(chars_of(alias).as_slice()).as_slice());
    let mut i: usize = 0;
    let mut found = false;
    while !found && i < vocabulary.len()
        invariant
            i <= vocabulary@.len(),
            v == vocabulary_view(vocabulary@),
            forall|j: int| 0 <= j < i ==> !same_phrase(#[trigger] v[j].0, sp@),
            found ==> i < vocabulary@.len() && same_phrase(v[i as int].0, sp@),
        decreases vocabulary@.len() - i + (if found { 0int } else { 1int }),
    {
        if lowercase_eq(vocabulary[i].spelling.as_str(), sp.as_str()) {
            found = true;
        } else {
            i += 1;
        }
    }
    let mut candidate = copy_vocabulary(vocabulary);
    if !found {
        proof {
            assert(!exists|k: int| is_first_spelling(v, sp@, k));
        }
        let mut aliases: Vec<String> = Vec::new();
        aliases.push(al);
        proof {
            assert(aliases@.map_values(|a: String| a@) =~= seq![trim(alias@)]);
        }
        let added = VocabularyEntry { spelling: sp, aliases };
        candidate.push(added);
        proof {
            assert(entry_view(added) == (trim(spelling@), seq![trim(alias@)]));
            assert(vocabulary_view(candidate@) =~= v.push((trim(spelling@), seq![trim(alias@)])));
        }
        return Some(candidate);
    }
    proof {
        assert(is_first_spelling(v, sp@, i as int));
        assert forall|k: int| is_first_spelling(v, sp@, k) implies k == i by {
            if k < i {
            } else if k > i {
                assert(same_phrase(v[i as int].0, sp@));
            }
        }
    }
    let entry = &vocabulary[i];
    let mut k: usize = 0;
    while k < entry.aliases.len()
        invariant
            k <= entry.aliases@.len(),
            i < vocabulary@.len(),
            entry == &vocabulary@[i as int],
            v == vocabulary_view(vocabulary@),
            al@ == trim(alias@),
            sp@ == trim(spelling@),
            is_first_spelling(v, sp@, i as int),
            forall|j: int| is_first_spelling(v, sp@, j) ==> j == i,
            forall|m: int| 0 <= m < k ==> !same_phrase(#[trigger] v[i as int].1[m], al@),
        decreases entry.aliases@.len() - k,
    {
        if lowercase_eq(entry.aliases[k].as_str(), al.as_str()) {
            proof {
                assert(v[i as int].1[k as int] == entry.aliases@[k as int]@);
                assert(same_phrase(v[i as int].1[k as int], al@));
                assert(has_alias(v[i as int].1, trim(alias@)));
                assert(with_alias(v, spelling@, alias@) is None);
            }
            return None;
        }
        k += 1;
    }
    let mut aliases = copy_strings(&entry.aliases);
    let ghost before = aliases@;
    aliases.push(al);
    proof {
        assert(aliases@.map_values(|a: String| a@) =~= before.map_values(|a: String| a@).push(trim(alias@)));
        assert(v[i as int].1 == entry.aliases@.map_values(|a: String| a@));
    }
    let updated = VocabularyEntry { spelling: entry.spelling.clone(), aliases };
    proof {
        assert(entry_view(updated) == (v[i as int].0, v[i as int].1.push(trim(alias@))));
    }
    candidate.set(i, updated);
    proof {
        assert(vocabulary_view(candidate@) =~= v.update(i as int, (v[i as int].0, v[i as int].1.push(trim(alias@)))));
    }
    Some(candidate)
}

/// Moves one enabled rule of the retired feature into vocabulary. A rule
/// that matched inside words is left out; a whole-word rule's source phrase
/// becomes an alias of its replacement phrase, unless the vocabulary that
/// gives would not survive the Settings editor's text round trip, which
/// `survives_editor` answers. The vocabulary changes only when the alias
/// is added.
pub fn retire_rule<F: Fn(&Vec<VocabularyEntry>) -> bool>(
    vocabulary: &mut Vec<VocabularyEntry>,
    source_phrase: String,
    replacement_phrase: String,
    whole_word_only: bool,
    survives_editor: F,
) -> (retired: RetiredReplacement)
    requires
        forall|c: &Vec<VocabularyEntry>| survives_editor.requires((c,)),
    ensures
        retired.source_phrase@ == source_phrase@,
        retired.replacement_phrase@ == replacement_phrase@,
        !whole_word_only ==> retired.outcome == RetiredReplacementOutcome::NotWholeWord
            && vocabulary_view(final(vocabulary)@) == vocabulary_view(old(vocabulary)@),
        whole_word_only ==> match with_alias(vocabulary_view(old(vocabulary)@), replacement_phrase@, source_phrase@) {
            None => retired.outcome == RetiredReplacementOutcome::BecameAlias
                && vocabulary_view(final(vocabulary)@) == vocabulary_view(old(vocabulary)@),
            Some(c) => exists|cv: &Vec<VocabularyEntry>| {
                &&& #[trigger] vocabulary_view(cv@) == c
                &&& survives_editor.ensures((cv,), retired.outcome == RetiredReplacementOutcome::BecameAlias)
                &&& retired.outcome == RetiredReplacementOutcome::BecameAlias
                    ==> vocabulary_view(final(vocabulary)@) == c
                &&& retired.outcome != RetiredReplacementOutcome::BecameAlias
                    ==> retired.outcome == RetiredReplacementOutcome::NotValidVocabulary
                    && vocabulary_view(final(vocabulary)@) == vocabulary_view(old(vocabulary)@)
            },
        },
{
    let outcome = if !whole_word_only {
        RetiredReplacementOutcome::NotWholeWord
    } else {
        match alias_candidate(vocabulary, replacement_phrase.as_str(), source_phrase.as_str()) {
            None => RetiredReplacementOutcome::BecameAlias,
            Some(candidate) => {
                let accepted = survives_editor(&candidate);
                let ghost offered = candidate;
                proof {
                    assert(vocabulary_view(offered@) == vocabulary_view(candidate@));
                }
                if accepted {
                    *vocabulary = candidate;
                    RetiredReplacementOutcome::BecameAlias
                } else {
                    RetiredReplacementOutcome::NotValidVocabulary
                }
            },
        }
    };
    RetiredReplacement { source_phrase, replacement_phrase, outcome }
}

} // verus!
