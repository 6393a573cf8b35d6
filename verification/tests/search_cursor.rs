use agentdictate::history_search::query_fingerprint;
use agentdictate::job::RuntimeError;
use agentdictate::search_cursor::{cursor_position, decode_cursor, encode_cursor, split_bars, HistoryCursor};

fn reason(result: Result<agentdictate::search_cursor::CursorPosition, RuntimeError>) -> String {
    match result {
        Err(RuntimeError::InvalidHistoryCursor(reason)) => reason,
        other => panic!("expected a refused cursor, got {other:?}"),
    }
}

#[test]
fn a_search_cursor_reads_back_as_its_page_end() {
    let cursor = encode_cursor("needle", Some("2026-09-23"), 0xabc, "2026-09-23T10:00:00Z", 42);
    let expected = format!(
        "v2|{:016x}|{:016x}|2026-09-23|2026-09-23T10:00:00Z|42",
        query_fingerprint("needle", Some("2026-09-23")),
        0xabc
    );
    assert_eq!(cursor.as_str(), expected);
    let position = decode_cursor(&cursor, "needle", Some("2026-09-23"), 0xabc).unwrap();
    assert_eq!(position.created_at, "2026-09-23T10:00:00Z");
    assert_eq!(position.id, 42);
}

#[test]
fn an_every_day_cursor_names_its_day_with_a_dash() {
    let cursor = encode_cursor("a b", None, 7, "2026-09-23T10:00:00+00:00", -1);
    assert!(cursor.as_str().contains("|-|2026-09-23T10:00:00+00:00|-1"));
    let position = decode_cursor(&cursor, "a b", None, 7).unwrap();
    assert_eq!(position.created_at, "2026-09-23T10:00:00+00:00");
    assert_eq!(position.id, -1);
}

#[test]
fn a_cursor_for_another_query_plan_or_day_is_refused_with_its_reason() {
    let cursor = encode_cursor("needle", Some("2026-09-23"), 1, "2026-09-23T10:00:00Z", 5);
    assert_eq!(
        reason(decode_cursor(&cursor, "haystack", Some("2026-09-23"), 1)),
        "cursor belongs to a different query"
    );
    assert_eq!(
        reason(decode_cursor(&cursor, "needle", Some("2026-09-23"), 2)),
        "search index changed; restart from the first page"
    );
    let every_day = encode_cursor("needle", None, 1, "2026-09-23T10:00:00Z", 5);
    let fingerprint = query_fingerprint("needle", None);
    let parts = split_bars(every_day.as_str());
    assert_eq!(
        reason(cursor_position(&parts, fingerprint, 1, "2026-09-24", true)),
        "cursor belongs to a different day"
    );
}

#[test]
fn malformed_cursors_are_refused_with_their_reason() {
    let refuse = |text: &str| reason(decode_cursor(&HistoryCursor::from_opaque(text.to_owned()), "q", None, 1));
    assert_eq!(refuse("v1|a|b|c|d|e"), "unsupported cursor format");
    assert_eq!(refuse("v2|a|b"), "unsupported cursor format");
    assert_eq!(refuse("v2|zz|1|-|2026-09-23T10:00:00Z|1"), "invalid query fingerprint");
    let fingerprint = format!("{:016x}", query_fingerprint("q", None));
    assert_eq!(refuse(&format!("v2|{fingerprint}|zz|-|x|1")), "invalid search plan fingerprint");
    assert_eq!(refuse(&format!("v2|{fingerprint}|1|-|yesterday|1")), "invalid timestamp");
    assert_eq!(refuse(&format!("v2|{fingerprint}|1|-|2026-09-23T10:00:00Z|one")), "invalid row id");
    assert!(decode_cursor(
        &HistoryCursor::from_opaque(format!("v2|{fingerprint}|+1|-|2026-09-23T10:00:00Z|+9")),
        "q",
        None,
        1
    )
    .is_ok());
}

#[test]
fn cursor_pieces_split_at_every_bar() {
    let parts = split_bars("a||b|");
    let texts: Vec<String> = parts.iter().map(|p| p.iter().collect()).collect();
    assert_eq!(texts, vec!["a", "", "b", ""]);
}
