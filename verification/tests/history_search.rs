use agentdictate::history_search::{is_index_failure, is_search_schema_unavailable};
use agentdictate::job::RuntimeError;
use agentdictate::history_search::{
    alternatives, build_search_plan, fts_tokens, literal_plan, normalize_query, osa_distance,
    plan_fingerprint, preview, query_fingerprint, vocabulary_prefix_documents, SearchPlan,
    VocabularyTerm,
};

fn term(text: &str, documents: u64) -> VocabularyTerm {
    VocabularyTerm { term: text.to_owned(), documents, characters: text.chars().count() }
}

#[test]
fn optimal_string_alignment_counts_adjacent_transposition_as_one_edit() {
    assert_eq!(osa_distance("transcirpt", "transcript"), 1);
}

#[test]
fn normalized_queries_have_bounded_tokens_and_characters() {
    let normalized = normalize_query(&format!("{}{}", "needle ".repeat(20), "x".repeat(400)));

    assert!(normalized.split_whitespace().count() <= 12);
    assert!(normalized.chars().count() <= 256);
}

#[test]
fn edit_distance_counts_insertions_deletions_and_substitutions() {
    assert_eq!(osa_distance("", "abc"), 3);
    assert_eq!(osa_distance("kitten", "sitting"), 3);
    assert_eq!(osa_distance("same", "same"), 0);
    assert_eq!(osa_distance("ca", "abc"), 3);
}

#[test]
fn normalizing_lowercases_and_collapses_white_space() {
    assert_eq!(normalize_query("  Hello   WORLD \t"), "hello world");
    assert_eq!(normalize_query("   "), "");
}

#[test]
fn a_blank_or_unready_query_is_matched_literally() {
    match build_search_plan("", true, &[]) {
        SearchPlan::Literal { pattern, preview_terms } => {
            assert_eq!(pattern, "");
            assert!(preview_terms.is_empty());
        }
        other => panic!("unexpected plan {other:?}"),
    }
    match build_search_plan("50%", true, &[]) {
        SearchPlan::Literal { pattern, preview_terms } => {
            assert_eq!(pattern, "%50\\%%");
            assert_eq!(preview_terms, vec!["50%".to_owned()]);
        }
        other => panic!("unexpected plan {other:?}"),
    }
    assert!(matches!(build_search_plan("needle", false, &[]), SearchPlan::Literal { .. }));
}

#[test]
fn a_rare_word_gains_its_vocabulary_corrections() {
    let vocabulary = vec![term("transcirpt", 1), term("transcript", 9), term("transcripts", 2)];
    assert_eq!(vocabulary_prefix_documents(&vocabulary, "transcirpt"), 1);
    assert_eq!(vocabulary_prefix_documents(&vocabulary, "transcript"), 11);
    assert_eq!(
        alternatives("transcirpt", &vocabulary),
        vec!["transcirpt".to_owned(), "transcript".to_owned()]
    );
    match build_search_plan("transcirpt", true, &vocabulary) {
        SearchPlan::Indexed { word_expression, trigram_expression, preview_terms } => {
            assert_eq!(word_expression, "(\"transcirpt\"* OR \"transcript\"*)");
            assert_eq!(
                trigram_expression.as_deref(),
                Some("(\"transcirpt\" OR \"transcript\")")
            );
            assert_eq!(preview_terms, vec!["transcirpt".to_owned(), "transcript".to_owned()]);
        }
        other => panic!("unexpected plan {other:?}"),
    }
}

#[test]
fn short_words_skip_the_trigram_index() {
    match build_search_plan("go home", true, &[]) {
        SearchPlan::Indexed { word_expression, trigram_expression, .. } => {
            assert_eq!(word_expression, "(\"go\"*) AND (\"home\"*)");
            assert_eq!(trigram_expression, None);
        }
        other => panic!("unexpected plan {other:?}"),
    }
}

#[test]
fn only_letters_digits_and_spaces_use_the_index() {
    assert_eq!(fts_tokens("abc 12"), Some(vec!["abc".to_owned(), "12".to_owned()]));
    assert_eq!(fts_tokens("a-b"), None);
}

#[test]
fn fingerprints_tell_queries_days_and_plans_apart() {
    assert_ne!(query_fingerprint("needle", None), query_fingerprint("needle", Some("2026-09-23")));
    assert_ne!(query_fingerprint("needle", None), query_fingerprint("needles", None));
    assert_eq!(query_fingerprint("needle", None), query_fingerprint("needle", None));
    assert_ne!(plan_fingerprint(&literal_plan("needle")), plan_fingerprint(&build_search_plan("needle", true, &[])));
}

#[test]
fn a_search_preview_starts_near_the_first_match_of_any_term() {
    let text = format!("{}The Café is open.", "y".repeat(300));
    let shown = preview(&text, &vec!["café".to_owned()], true);
    assert!(shown.starts_with('…'));
    assert!(shown.contains("The Café is open."));
    let unsearched = preview(&text, &vec!["café".to_owned()], false);
    assert!(unsearched.starts_with("yyy"));
}

#[test]
fn only_index_errors_fall_back_to_literal_search() {
    let database = |message: &str| RuntimeError::Database(message.to_owned());
    assert!(is_index_failure(&database("no such module: FTS5")));
    assert!(is_index_failure(&database("database disk image is MALFORMED")));
    assert!(!is_index_failure(&database("disk I/O error")));
    assert!(!is_index_failure(&RuntimeError::InvalidHistoryCursor("fts5".to_owned())));
    assert!(is_search_schema_unavailable(&database("no such table: transcript_history_fts")));
    assert!(!is_search_schema_unavailable(&database("database disk image is malformed")));
}

#[test]
fn short_alphanumeric_queries_use_the_word_index_instead_of_literal_scans() {
    for query in ["n", "ne"] {
        let plan = build_search_plan(&normalize_query(query), true, &[]);
        assert!(
            matches!(plan, SearchPlan::Indexed { trigram_expression: None, .. }),
            "query {query:?} must avoid the literal full-table path"
        );
    }
}

#[test]
fn a_swapped_pair_is_one_edit_and_never_edited_again() {
    assert_eq!(osa_distance("form", "from"), 1);
    assert_eq!(osa_distance("ab", "ba"), 1);
    // The swapped pair is not edited again, so "ca" -> "ac" -> "abc" is
    // not available: three edits, not two.
    assert_eq!(osa_distance("ca", "abc"), 3);
    assert_eq!(osa_distance("abc", "ca"), 3);
}
