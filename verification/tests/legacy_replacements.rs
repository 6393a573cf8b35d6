use agentdictate::legacy_replacements::{alias_candidate, retire_rule, RetiredReplacementOutcome, VocabularyEntry};

fn entry(spelling: &str, aliases: &[&str]) -> VocabularyEntry {
    VocabularyEntry { spelling: spelling.to_owned(), aliases: aliases.iter().map(|a| a.to_string()).collect() }
}

#[test]
fn an_alias_joins_the_entry_spelled_the_same_in_any_case() {
    let vocabulary = vec![entry("Leadlord", &["lead lord"])];
    let candidate = alias_candidate(&vocabulary, " leadlord ", " lead load ").unwrap();
    assert_eq!(candidate, vec![entry("Leadlord", &["lead lord", "lead load"])]);
}

#[test]
fn a_new_spelling_becomes_a_new_entry() {
    let vocabulary = vec![entry("Leadlord", &["lead lord"])];
    let candidate = alias_candidate(&vocabulary, "Vercel", "versel").unwrap();
    assert_eq!(candidate, vec![entry("Leadlord", &["lead lord"]), entry("Vercel", &["versel"])]);
}

#[test]
fn an_alias_already_present_changes_nothing() {
    let vocabulary = vec![entry("Vercel", &["Versel"])];
    assert_eq!(alias_candidate(&vocabulary, "vercel", "versel"), None);
}

#[test]
fn retiring_rules_moves_only_whole_word_rules_the_editor_accepts() {
    let mut vocabulary = vec![entry("Leadlord", &["lead lord"])];
    let accept_all = |_: &Vec<VocabularyEntry>| true;
    let reject_commas = |v: &Vec<VocabularyEntry>| {
        v.iter().all(|e| e.aliases.iter().all(|a| !a.contains(',')))
    };

    let versel = retire_rule(&mut vocabulary, "versel".to_owned(), "Vercel".to_owned(), true, accept_all);
    assert_eq!(versel.outcome, RetiredReplacementOutcome::BecameAlias);
    let kube = retire_rule(&mut vocabulary, "kube".to_owned(), "kubectl".to_owned(), false, accept_all);
    assert_eq!(kube.outcome, RetiredReplacementOutcome::NotWholeWord);
    let commas = retire_rule(&mut vocabulary, "a, b".to_owned(), "Commas".to_owned(), true, reject_commas);
    assert_eq!(commas.outcome, RetiredReplacementOutcome::NotValidVocabulary);
    assert_eq!(commas.source_phrase, "a, b");
    let again = retire_rule(&mut vocabulary, "versel".to_owned(), "Vercel".to_owned(), true, |_: &Vec<VocabularyEntry>| false);
    assert_eq!(again.outcome, RetiredReplacementOutcome::BecameAlias);

    assert_eq!(vocabulary, vec![entry("Leadlord", &["lead lord"]), entry("Vercel", &["versel"])]);
}

/// The Settings editor's round trip refuses a comma or `=` in a phrase.
fn editor_accepts(vocabulary: &Vec<VocabularyEntry>) -> bool {
    vocabulary.iter().all(|entry| {
        std::iter::once(&entry.spelling)
            .chain(entry.aliases.iter())
            .all(|phrase| !phrase.contains(',') && !phrase.contains('=') && !phrase.trim().is_empty())
    })
}

#[test]
fn enabled_whole_word_rules_become_aliases_once() {
    let rules = [
        ("versel", "Vercel", true),
        ("lead load", "Leadlord", true),
        ("kube", "kubectl", false),
        ("a, b", "Commas", true),
    ];
    let mut vocabulary = vec![entry("Leadlord", &["lead lord"])];

    let outcomes: Vec<_> = rules
        .iter()
        .map(|(source, replacement, whole)| {
            let retired = retire_rule(&mut vocabulary, source.to_string(), replacement.to_string(), *whole, editor_accepts);
            (source.to_string(), retired.outcome)
        })
        .collect();
    assert_eq!(
        outcomes,
        [
            ("versel".to_owned(), RetiredReplacementOutcome::BecameAlias),
            ("lead load".to_owned(), RetiredReplacementOutcome::BecameAlias),
            ("kube".to_owned(), RetiredReplacementOutcome::NotWholeWord),
            ("a, b".to_owned(), RetiredReplacementOutcome::NotValidVocabulary),
        ]
    );
    let expected = vec![entry("Leadlord", &["lead lord", "lead load"]), entry("Vercel", &["versel"])];
    assert_eq!(vocabulary, expected);
    // A repeated move changes nothing.
    for (source, replacement, whole) in rules {
        retire_rule(&mut vocabulary, source.to_owned(), replacement.to_owned(), whole, editor_accepts);
    }
    assert_eq!(vocabulary, expected);
}
