use agentdictate::history::{
    escape_like, match_start, page_limit, preview, requested_position, search_pattern, split_page,
    stored_texts, HistoryPageCursor, PageCursor,
};

#[test]
fn a_long_transcript_previews_the_window_around_its_first_match() {
    let text = format!("{}The NEEDLE is here.", "x".repeat(300));

    let shown = preview(&text, "needle");

    assert!(shown.starts_with('…'));
    assert!(shown.contains("The NEEDLE is here."));
    assert!(preview(&text, "").starts_with("xxx"));
}

#[test]
fn a_short_transcript_is_previewed_whole() {
    assert_eq!(preview("short text", "text"), "short text");
}

#[test]
fn like_patterns_escape_wildcards_and_backslashes() {
    assert_eq!(escape_like("50%_off\\"), "50\\%\\_off\\\\");
    assert_eq!(escape_like("plain"), "plain");
}

#[test]
fn matching_ignores_ascii_case_and_counts_characters() {
    assert_eq!(match_start("héllo NEEDLE", "needle"), Some(6));
    assert_eq!(match_start("nothing here", "needle"), None);
}

#[test]
fn page_size_is_clamped_to_one_hundred() {
    assert_eq!(page_limit(usize::MAX), 100);
    assert_eq!(page_limit(0), 1);
    assert_eq!(page_limit(25), 25);
}

#[test]
fn a_page_cursor_reads_back_as_the_page_end_it_encodes() {
    let cursor = PageCursor { ended_at: "2026-08-18T12:00:00Z".to_owned(), id: -42 };
    let encoded = cursor.encode();
    assert_eq!(encoded.as_str(), "2026-08-18T12:00:00Z|-42");
    assert_eq!(PageCursor::decode(&encoded), Some(cursor));
}

#[test]
fn a_cursor_without_an_end_or_a_number_is_refused() {
    assert_eq!(PageCursor::decode(&HistoryPageCursor::new("|7".to_owned())), None);
    assert_eq!(PageCursor::decode(&HistoryPageCursor::new("2026|x".to_owned())), None);
    assert_eq!(PageCursor::decode(&HistoryPageCursor::new("no bar".to_owned())), None);
}

#[test]
fn a_dictation_keeps_only_the_text_that_history_needs() {
    let kept = stored_texts(true, "Final", "Final", "[]");
    assert_eq!(kept.final_text.as_deref(), Some("Final"));
    assert_eq!(kept.raw_text, None);
    assert_eq!(kept.corrections, None);

    let changed = stored_texts(true, "Vercel", "versel", "[{\"count\":1}]");
    assert_eq!(changed.raw_text.as_deref(), Some("versel"));
    assert_eq!(changed.corrections.as_deref(), Some("[{\"count\":1}]"));

    let dropped = stored_texts(false, "Vercel", "versel", "[1]");
    assert_eq!(dropped.final_text, None);
    assert_eq!(dropped.raw_text, None);
    assert_eq!(dropped.corrections, None);
}

#[test]
fn a_search_pattern_matches_the_trimmed_search_literally() {
    assert_eq!(search_pattern("  50% off "), "%50\\% off%");
    assert_eq!(search_pattern("   "), "%%");
}

#[test]
fn an_unreadable_cursor_restarts_at_the_first_page() {
    assert_eq!(requested_position(None), (None, false));
    let bad = HistoryPageCursor::new("garbage".to_owned());
    assert_eq!(requested_position(Some(&bad)), (None, true));
    let good = PageCursor { ended_at: "2026-08-18T12:00:00Z".to_owned(), id: 7 }.encode();
    assert_eq!(
        requested_position(Some(&good)),
        (Some(PageCursor { ended_at: "2026-08-18T12:00:00Z".to_owned(), id: 7 }), false)
    );
}

#[test]
fn one_extra_row_tells_that_another_page_follows() {
    assert_eq!(split_page(vec![1, 2, 3], 2), (vec![1, 2], true));
    assert_eq!(split_page(vec![1, 2], 2), (vec![1, 2], false));
    assert_eq!(split_page(Vec::<i32>::new(), 2), (Vec::new(), false));
}

/// The History texts whose final text the library's pattern matches, as
/// the daemon's query runs it.
fn matching(connection: &rusqlite::Connection, search: &str) -> Vec<String> {
    let mut statement = connection
        .prepare(r"SELECT final_text FROM dictations WHERE final_text LIKE ?1 ESCAPE '\' ORDER BY ended_at DESC")
        .unwrap();
    statement
        .query_map([search_pattern(search)], |row| row.get::<_, String>(0))
        .unwrap()
        .collect::<rusqlite::Result<Vec<_>>>()
        .unwrap()
}

#[test]
fn history_search_matches_wildcards_and_backslashes_literally() {
    let connection = rusqlite::Connection::open_in_memory().unwrap();
    connection.execute_batch("CREATE TABLE dictations (ended_at TEXT NOT NULL, final_text TEXT NOT NULL);").unwrap();
    for (minute, text) in
        ["100% done", "100 percent done", "rename foo_bar", "rename fooXbar", r"open C:\temp", "open C:temp"]
            .into_iter()
            .enumerate()
    {
        connection
            .execute(
                "INSERT INTO dictations (ended_at, final_text) VALUES (?1, ?2)",
                [format!("2026-08-18T12:0{minute}:00Z"), text.to_owned()],
            )
            .unwrap();
    }

    assert_eq!(matching(&connection, "100%"), ["100% done"]);
    assert_eq!(matching(&connection, "%"), ["100% done"]);
    assert_eq!(matching(&connection, "foo_bar"), ["rename foo_bar"]);
    assert_eq!(matching(&connection, "_"), ["rename foo_bar"]);
    assert_eq!(matching(&connection, r"C:\"), [r"open C:\temp"]);
}

struct Page {
    ids: Vec<i64>,
    previews: Vec<String>,
    next_cursor: Option<HistoryPageCursor>,
    cursor_restarted: bool,
}

/// One History page as the daemon reads it: the library decides the
/// position, the page size, the split and the cursor; SQLite selects.
fn history_page(connection: &rusqlite::Connection, search: &str, page_size: usize, after: Option<HistoryPageCursor>) -> Page {
    let pattern = search_pattern(search);
    let limit = page_limit(page_size);
    let (after, cursor_restarted) = requested_position(after.as_ref());
    let mut statement = connection
        .prepare(
            r"SELECT id, ended_at, final_text FROM dictations
              WHERE final_text LIKE ?1 ESCAPE '\'
                AND (?2 IS NULL OR ended_at < ?2 OR (ended_at = ?2 AND id < ?3))
              ORDER BY ended_at DESC, id DESC LIMIT ?4",
        )
        .unwrap();
    let rows = statement
        .query_map(
            (
                pattern,
                after.as_ref().map(|cursor| cursor.ended_at.clone()),
                after.as_ref().map_or(0, |cursor| cursor.id),
                (limit + 1) as i64,
            ),
            |row| Ok((row.get::<_, i64>(0)?, row.get::<_, String>(1)?, row.get::<_, String>(2)?)),
        )
        .unwrap()
        .collect::<rusqlite::Result<Vec<_>>>()
        .unwrap();
    let (rows, has_more) = split_page(rows, limit);
    let next_cursor = rows
        .last()
        .filter(|_| has_more)
        .map(|(id, ended_at, _)| PageCursor { ended_at: ended_at.clone(), id: *id }.encode());
    Page {
        ids: rows.iter().map(|(id, _, _)| *id).collect(),
        previews: rows.iter().map(|(_, _, text)| preview(text, search.trim())).collect(),
        next_cursor,
        cursor_restarted,
    }
}

fn insert_history(connection: &rusqlite::Connection, ended_at: &str, text: &str) -> i64 {
    connection
        .execute("INSERT INTO dictations (ended_at, final_text) VALUES (?1, ?2)", [ended_at, text])
        .unwrap();
    connection.last_insert_rowid()
}

#[test]
fn history_pages_stay_stable_while_new_transcripts_arrive() {
    let connection = rusqlite::Connection::open_in_memory().unwrap();
    connection
        .execute_batch("CREATE TABLE dictations (id INTEGER PRIMARY KEY, ended_at TEXT NOT NULL, final_text TEXT NOT NULL);")
        .unwrap();
    // Pairs of rows share a timestamp, so the row id must break ties.
    let mut expected = (0..25)
        .map(|index| {
            let created_at = format!("2026-08-18T12:{:02}:00Z", index / 2);
            let id = insert_history(&connection, &created_at, &format!("entry {index}"));
            (created_at, id)
        })
        .collect::<Vec<_>>();
    expected.sort_by(|left, right| right.cmp(left));

    let first = history_page(&connection, "entry", 10, None);
    insert_history(&connection, "2026-08-18T13:00:00Z", "entry newest");
    let second = history_page(&connection, "entry", 10, first.next_cursor.clone());
    let third = history_page(&connection, "entry", 10, second.next_cursor.clone());

    let listed = [&first, &second, &third].into_iter().flat_map(|page| page.ids.clone()).collect::<Vec<_>>();
    assert_eq!(listed, expected.iter().map(|(_, id)| *id).collect::<Vec<_>>());
    let total: i64 = connection
        .query_row(r"SELECT COUNT(*) FROM dictations WHERE final_text LIKE ?1 ESCAPE '\'", [search_pattern("entry")], |row| row.get(0))
        .unwrap();
    assert_eq!(total, 26);
    assert!(third.next_cursor.is_none());
    let restarted = history_page(&connection, "entry", 10, Some(HistoryPageCursor::new("not a cursor".to_owned())));
    assert!(restarted.cursor_restarted);
    assert_eq!(restarted.previews[0], "entry newest");
    let smallest = history_page(&connection, "", 0, None);
    assert_eq!(smallest.ids.len(), 1);
}
