//! History rows: the literal search pattern, the excerpt a row previews, and
//! the keyset cursor that continues a page.

use vstd::prelude::*;
use vstd::utf8::*;

use crate::text::{
    chars_of, lemma_encode_utf8_take, lemma_parse_signed_decimal, parse_i64, parsed_i64, push_char,
    signed_decimal, signed_decimal_chars, string_from_range, utf8_width,
};

verus! {

/// Rows in one History page at most.
pub const MAX_PAGE_SIZE: usize = 100;

/// Characters of a transcript that a History row previews.
pub const PREVIEW_CHARACTERS: usize = 160;

/// Characters of context a search preview keeps before its first match.
pub const PREVIEW_LEAD: usize = 36;

/// What LIKE's escaping makes of one character.
pub open spec fn escape_like_char(c: char) -> Seq<char> {
    if c == '\\' || c == '%' || c == '_' {
        seq!['\\', c]
    } else {
        seq![c]
    }
}

/// `value` with LIKE's wildcards and its escape character escaped.
pub open spec fn escaped_like(value: Seq<char>) -> Seq<char>
    decreases value.len(),
{
    if value.len() == 0 {
        Seq::empty()
    } else {
        escaped_like(value.drop_last()) + escape_like_char(value.last())
    }
}

/// Escapes LIKE's wildcards so the user's text matches literally: `\`
/// becomes `\\`, `%` becomes `\%` and `_` becomes `\_`.
pub fn escape_like(value: &str) -> (escaped: String)
    ensures
        escaped@ == escaped_like(value@),
{
    let chars = chars_of(value);
    let mut escaped = String::new();
    let mut i: usize = 0;
    while i < chars.len()
        invariant
            i <= chars@.len(),
            chars@ == value@,
            escaped@ == escaped_like(chars@.take(i as int)),
        decreases chars@.len() - i,
    {
        let c = chars[i];
        proof {
            assert(chars@.take(i + 1).drop_last() =~= chars@.take(i as int));
        }
        if c == '\\' || c == '%' || c == '_' {
            push_char(&mut escaped, '\\');
        }
        push_char(&mut escaped, c);
        proof {
            assert(escaped@ =~= escaped_like(chars@.take(i + 1)));
        }
        i += 1;
    }
    proof {
        assert(chars@.take(chars@.len() as int) =~= chars@);
    }
    escaped
}

/// `b` with an ASCII upper-case letter folded to lower case.
pub open spec fn fold_ascii(b: u8) -> u8 {
    if 65 <= b && b <= 90 {
        (b + 32) as u8
    } else {
        b
    }
}

/// Whether the bytes of `text` from `at` on begin with `search`, ignoring
/// ASCII case.
pub open spec fn window_matches(text: Seq<u8>, at: int, search: Seq<u8>) -> bool {
    &&& 0 <= at
    &&& at + search.len() <= text.len()
    &&& forall|k: int| 0 <= k < search.len() ==> fold_ascii(#[trigger] text[at + k]) == fold_ascii(search[k])
}

/// The byte offset in `text`'s UTF-8 encoding where its character `i` starts.
pub open spec fn char_offset(text: Seq<char>, i: int) -> int {
    encode_utf8(text.take(i)).len() as int
}

/// Whether `search` occurs in `text` at character `i`, ignoring ASCII case
/// byte by byte as SQLite's LIKE does.
pub open spec fn matches_at(text: Seq<char>, search: Seq<char>, i: int) -> bool {
    window_matches(encode_utf8(text), char_offset(text, i), encode_utf8(search))
}

pub open spec fn is_first_match(text: Seq<char>, search: Seq<char>, i: int) -> bool {
    &&& 0 <= i < text.len()
    &&& matches_at(text, search, i)
    &&& forall|j: int| 0 <= j < i ==> !#[trigger] matches_at(text, search, j)
}

/// The character index where `search` first occurs in `text`; a blank
/// search has no match.
pub open spec fn first_match(text: Seq<char>, search: Seq<char>) -> Option<int> {
    if search.len() > 0 && exists|i: int| is_first_match(text, search, i) {
        Some(choose|i: int| is_first_match(text, search, i))
    } else {
        None
    }
}

pub proof fn lemma_first_match_unique(text: Seq<char>, search: Seq<char>, i: int)
    requires
        search.len() > 0,
        is_first_match(text, search, i),
    ensures
        first_match(text, search) == Some(i),
{
    let j = choose|j: int| is_first_match(text, search, j);
    if j < i {
        assert(!matches_at(text, search, j));
    }
    if i < j {
        assert(!matches_at(text, search, i));
    }
}

pub proof fn lemma_char_offset_step(text: Seq<char>, i: int)
    requires
        0 <= i < text.len(),
    ensures
        char_offset(text, i + 1) == char_offset(text, i) + encode_scalar(text[i] as u32).len(),
{
    lemma_encode_utf8_take(text, i);
}

pub proof fn lemma_char_offset_bound(text: Seq<char>, i: int)
    requires
        0 <= i <= text.len(),
    ensures
        0 <= char_offset(text, i) <= encode_utf8(text).len(),
    decreases text.len() - i,
{
    if i == text.len() {
        assert(text.take(i) =~= text);
    } else {
        lemma_char_offset_bound(text, i + 1);
        lemma_char_offset_step(text, i);
    }
}

/// The character index where `search` first occurs in `text`, ignoring
/// ASCII case as SQLite's LIKE does. A blank search has no match.
pub fn match_start(text: &str, search: &str) -> (r: Option<usize>)
    ensures
        r matches Some(i) ==> first_match(text@, search@) == Some(i as int),
        r is None ==> first_match(text@, search@) is None,
{
    let text_bytes = text.as_bytes();
    let search_bytes = search.as_bytes();
    if search_bytes.len() == 0 {
        proof {
            if search@.len() > 0 {
                assert(search@ =~= seq![search@[0]] + search@.drop_first());
                assert(encode_utf8(search@).len() > 0);
            }
        }
        return None;
    }
    let chars = chars_of(text);
    let mut offset: usize = 0;
    let mut i: usize = 0;
    proof {
        assert(text@.take(0) =~= Seq::<char>::empty());
        if search@.len() == 0 {
            assert(encode_utf8(search@) =~= Seq::<u8>::empty());
        }
    }
    while i < chars.len()
        invariant
            chars@ == text@,
            text_bytes@ == encode_utf8(text@),
            search_bytes@ == encode_utf8(search@),
            search_bytes@.len() > 0,
            search@.len() > 0,
            i <= chars@.len(),
            offset as int == char_offset(text@, i as int),
            forall|j: int| 0 <= j < i ==> !#[trigger] matches_at(text@, search@, j),
        decreases chars@.len() - i,
    {
        proof {
            lemma_char_offset_bound(text@, i as int);
        }
        let mut found = false;
        if search_bytes.len() <= text_bytes.len() - offset {
            let mut k: usize = 0;
            found = true;
            while k < search_bytes.len()
                invariant
                    search_bytes@ == encode_utf8(search@),
                    text_bytes@ == encode_utf8(text@),
                    offset + search_bytes@.len() <= text_bytes@.len(),
                    text_bytes@.len() == text_bytes.len(),
                    text_bytes.len() <= usize::MAX,
                    k <= search_bytes@.len(),
                    found == (forall|m: int| 0 <= m < k ==> fold_ascii(#[trigger] text_bytes@[offset + m]) == fold_ascii(search_bytes@[m])),
                decreases search_bytes@.len() - k,
            {
                assert(offset + k < text_bytes@.len());
                let a = text_bytes[offset + k];
                let b = search_bytes[k];
                let fa = if 65 <= a && a <= 90 { a + 32 } else { a };
                let fb = if 65 <= b && b <= 90 { b + 32 } else { b };
                if fa != fb {
                    found = false;
                }
                k += 1;
            }
        }
        if found {
            proof {
                assert(matches_at(text@, search@, i as int));
                assert(is_first_match(text@, search@, i as int));
                lemma_first_match_unique(text@, search@, i as int);
            }
            return Some(i);
        }
        proof {
            assert(!matches_at(text@, search@, i as int));
            lemma_char_offset_step(text@, i as int);
            lemma_char_offset_bound(text@, i + 1);
        }
        let w = utf8_width(chars[i]);
        offset = offset + w;
        i += 1;
    }
    proof {
        assert forall|j: int| !is_first_match(text@, search@, j) by {
            if 0 <= j < text@.len() {
                assert(!matches_at(text@, search@, j));
            }
        }
    }
    None
}

/// The start of a preview window: 36 characters before the match, or 0.
pub open spec fn preview_start(found: Option<int>) -> int {
    match found {
        Some(i) => if i >= 36 { i - 36 } else { 0 },
        None => 0,
    }
}

/// At most 160 characters of `text` from `start`, with an ellipsis on each
/// side that cuts text off.
pub open spec fn preview_window(text: Seq<char>, start: int) -> Seq<char> {
    let end = if start + 160 < text.len() { start + 160 } else { text.len() as int };
    (if start > 0 { seq!['…'] } else { Seq::empty() }) + text.subrange(start, end) + (if end
        < text.len() {
        seq!['…']
    } else {
        Seq::empty()
    })
}

/// What a History row shows of `text`: all of it up to 160 characters,
/// else the window that shows the first match of `search`, or the start.
pub open spec fn history_preview(text: Seq<char>, search: Seq<char>) -> Seq<char> {
    if text.len() <= 160 {
        text
    } else {
        preview_window(text, preview_start(first_match(text, search)))
    }
}

/// Builds `preview_window(chars, start)`.
pub fn window_of(chars: &[char], start: usize, lead: usize) -> (value: String)
    requires
        start <= chars@.len(),
        lead == PREVIEW_CHARACTERS,
    ensures
        value@ == preview_window(chars@, start as int),
{
    let len = chars.len();
    let end = if len - start > lead { start + lead } else { len };
    let mut value = String::new();
    if start > 0 {
        push_char(&mut value, '…');
    }
    let ghost prefix = value@;
    let mut i = start;
    while i < end
        invariant
            start <= i <= end,
            end <= chars@.len(),
            value@ == prefix + chars@.subrange(start as int, i as int),
        decreases end - i,
    {
        push_char(&mut value, chars[i]);
        proof {
            assert(value@ =~= prefix + chars@.subrange(start as int, i + 1));
        }
        i += 1;
    }
    if end < len {
        push_char(&mut value, '…');
    }
    proof {
        let e = if start + 160 < chars@.len() { start + 160 } else { chars@.len() as int };
        assert(e == end);
        assert(value@ =~= preview_window(chars@, start as int));
    }
    value
}

/// The first 160 characters of `text`, or for a search, the window that
/// shows its first match.
pub fn preview(text: &str, search: &str) -> (shown: String)
    ensures
        shown@ == history_preview(text@, search@),
{
    let chars = chars_of(text);
    if chars.len() <= PREVIEW_CHARACTERS {
        return text.to_owned();
    }
    let found = match_start(text, search);
    let start = match found {
        Some(index) => if index >= PREVIEW_LEAD { index - PREVIEW_LEAD } else { 0 },
        None => 0,
    };
    proof {
        match found {
            Some(index) => {
                assert(first_match(text@, search@) == Some(index as int));
                assert(is_first_match(text@, search@, index as int));
            },
            None => {},
        }
    }
    window_of(chars.as_slice(), start, PREVIEW_CHARACTERS)
}

/// The page size a request gets: at least one row and at most 100.
pub fn page_limit(requested: usize) -> (limit: usize)
    ensures
        limit == (if requested < 1 { 1 } else if requested > 100 { 100 } else { requested }),
{
    if requested < 1 {
        1
    } else if requested > MAX_PAGE_SIZE {
        MAX_PAGE_SIZE
    } else {
        requested
    }
}

} // verus!

verus! {

/// The opaque text that continues a History page.
#[derive(Clone, Debug, PartialEq, Eq)]
pub struct HistoryPageCursor {
    value: String,
}

impl View for HistoryPageCursor {
    type V = Seq<char>;

    closed spec fn view(&self) -> Seq<char> {
        self.value@
    }
}

impl HistoryPageCursor {
    pub fn new(value: String) -> (cursor: Self)
        ensures
            cursor@ == value@,
    {
        HistoryPageCursor { value }
    }

    pub fn as_str(&self) -> (s: &str)
        ensures
            s@ == self@,
    {
        self.value.as_str()
    }
}

/// Where a History page ends: the stored `ended_at` text, exactly as the
/// keyset comparison orders it, and the row id that breaks ties.
#[derive(Clone, Debug, PartialEq, Eq)]
pub struct PageCursor {
    pub ended_at: String,
    pub id: i64,
}

/// The cursor text of a page that ends at `ended_at` and `id`.
pub open spec fn encoded_cursor(ended_at: Seq<char>, id: int) -> Seq<char> {
    ended_at + seq!['|'] + signed_decimal(id)
}

/// The index of the last `|` in `s`.
pub open spec fn last_bar(s: Seq<char>) -> Option<int>
    decreases s.len(),
{
    if s.len() == 0 {
        None
    } else if s.last() == '|' {
        Some(s.len() - 1)
    } else {
        last_bar(s.drop_last())
    }
}

/// What a cursor text decodes to: the text before its last `|`, which must
/// not be empty, and the row id after it.
pub open spec fn decoded_cursor(s: Seq<char>) -> Option<(Seq<char>, int)> {
    match last_bar(s) {
        None => None,
        Some(p) => match parsed_i64(s.subrange(p + 1, s.len() as int)) {
            Some(id) => if p > 0 {
                Some((s.take(p), id))
            } else {
                None
            },
            None => None,
        },
    }
}

pub proof fn lemma_last_bar_bounds(s: Seq<char>)
    ensures
        last_bar(s) matches Some(p) ==> 0 <= p < s.len() && s[p] == '|' && forall|k: int|
            p < k < s.len() ==> #[trigger] s[k] != '|',
        last_bar(s) is None ==> forall|k: int| 0 <= k < s.len() ==> #[trigger] s[k] != '|',
    decreases s.len(),
{
    if s.len() > 0 && s.last() != '|' {
        lemma_last_bar_bounds(s.drop_last());
        assert forall|k: int| 0 <= k < s.len() - 1 implies #[trigger] s[k] == s.drop_last()[k] by {}
    }
}

pub proof fn lemma_last_bar_of_suffix(a: Seq<char>, b: Seq<char>)
    requires
        forall|k: int| 0 <= k < b.len() ==> #[trigger] b[k] != '|',
    ensures
        last_bar(a + seq!['|'] + b) == Some(a.len() as int),
    decreases b.len(),
{
    if b.len() > 0 {
        let s = a + seq!['|'] + b;
        assert(s.drop_last() =~= a + seq!['|'] + b.drop_last());
        assert(s.last() == b.last());
        lemma_last_bar_of_suffix(a, b.drop_last());
    } else {
        assert(a + seq!['|'] + b =~= a.push('|'));
    }
}

/// A cursor decodes to the page end it encodes, whatever its `ended_at`
/// text holds, as long as that text is not empty.
pub proof fn lemma_cursor_round_trip(ended_at: Seq<char>, id: i64)
    requires
        ended_at.len() > 0,
    ensures
        decoded_cursor(encoded_cursor(ended_at, id as int)) == Some((ended_at, id as int)),
{
    lemma_parse_signed_decimal(id as int);
    let digits = signed_decimal(id as int);
    lemma_last_bar_of_suffix(ended_at, digits);
    let s = encoded_cursor(ended_at, id as int);
    let p = ended_at.len() as int;
    assert(s.subrange(p + 1, s.len() as int) =~= digits);
    assert(s.take(p) =~= ended_at);
}

impl PageCursor {
    /// The cursor text `ended_at|id`.
    pub fn encode(&self) -> (cursor: HistoryPageCursor)
        ensures
            cursor@ == encoded_cursor(self.ended_at@, self.id as int),
    {
        let mut value = self.ended_at.clone();
        push_char(&mut value, '|');
        let digits = signed_decimal_chars(self.id);
        let mut i: usize = 0;
        let ghost head = value@;
        while i < digits.len()
            invariant
                i <= digits@.len(),
                value@ == head + digits@.take(i as int),
            decreases digits@.len() - i,
        {
            push_char(&mut value, digits[i]);
            proof {
                assert(value@ =~= head + digits@.take(i + 1));
            }
            i += 1;
        }
        proof {
            assert(digits@.take(digits@.len() as int) =~= digits@);
            assert(value@ =~= encoded_cursor(self.ended_at@, self.id as int));
        }
        HistoryPageCursor::new(value)
    }

    /// Reads a cursor back: `None` when it has no `|`, the id after its last
    /// `|` is not a number, or nothing precedes that `|`.
    pub fn decode(cursor: &HistoryPageCursor) -> (r: Option<PageCursor>)
        ensures
            r matches Some(c) ==> decoded_cursor(cursor@) == Some((c.ended_at@, c.id as int)),
            r is None ==> decoded_cursor(cursor@) is None,
    {
        let chars = chars_of(cursor.as_str());
        let ghost s = cursor@;
        proof {
            lemma_last_bar_bounds(s);
        }
        let mut p = chars.len();
        proof {
            assert(s.take(p as int) =~= s);
        }
        while p > 0 && chars[p - 1] != '|'
            invariant
                p <= chars@.len(),
                chars@ == s,
                forall|k: int| p <= k < s.len() ==> #[trigger] s[k] != '|',
                last_bar(s) == last_bar(s.take(p as int)),
            decreases p,
        {
            proof {
                assert(s.take(p as int).drop_last() =~= s.take(p - 1));
            }
            p -= 1;
        }
        if p == 0 {
            proof {
                assert(s.take(0) =~= Seq::<char>::empty());
            }
            return None;
        }
        let bar = p - 1;
        proof {
            assert(s.take(p as int).last() == '|');
            assert(last_bar(s) == Some(bar as int));
        }
        let mut id_chars: Vec<char> = Vec::new();
        let mut k = p;
        while k < chars.len()
            invariant
                p <= k <= chars@.len(),
                chars@ == s,
                id_chars@ == s.subrange(p as int, k as int),
            decreases chars@.len() - k,
        {
            id_chars.push(chars[k]);
            proof {
                assert(id_chars@ =~= s.subrange(p as int, k + 1));
            }
            k += 1;
        }
        let id = match parse_i64(id_chars.as_slice()) {
            Some(id) => id,
            None => return None,
        };
        if bar == 0 {
            return None;
        }
        let ended_at = string_from_range(chars.as_slice(), 0, bar);
        proof {
            assert(chars@.subrange(0, bar as int) =~= s.take(bar as int));
        }
        Some(PageCursor { ended_at, id })
    }
}

} // verus!

verus! {

/// The text a recorded dictation keeps.
#[derive(Clone, Debug, PartialEq, Eq)]
pub struct StoredTexts {
    pub final_text: Option<String>,
    /// Stored only when vocabulary changed the transcript.
    pub raw_text: Option<String>,
    /// The vocabulary corrections (JSON), stored only when there were any.
    pub corrections: Option<String>,
}

pub open spec fn opt_string(o: Option<String>) -> Option<Seq<char>> {
    match o {
        Some(s) => Some(s@),
        None => None,
    }
}

/// What a delivered job's dictation stores: nothing of its text when
/// History does not keep text; otherwise its final text, its raw
/// transcript when that differs, and its corrections unless they are the
/// empty list `[]`.
pub fn stored_texts(keep_text: bool, final_text: &str, raw_transcript: &str, corrections: &str) -> (texts: StoredTexts)
    ensures
        !keep_text ==> opt_string(texts.final_text) is None && opt_string(texts.raw_text) is None
            && opt_string(texts.corrections) is None,
        keep_text ==> opt_string(texts.final_text) == Some(final_text@),
        keep_text ==> opt_string(texts.raw_text) == if raw_transcript@ == final_text@ {
            None
        } else {
            Some(raw_transcript@)
        },
        keep_text ==> opt_string(texts.corrections) == if corrections@ == "[]"@ {
            None
        } else {
            Some(corrections@)
        },
{
    if !keep_text {
        return StoredTexts { final_text: None, raw_text: None, corrections: None };
    }
    let raw_text = if crate::text::str_eq(raw_transcript, final_text) {
        None
    } else {
        Some(raw_transcript.to_owned())
    };
    let corrections = if crate::text::str_eq(corrections, "[]") {
        None
    } else {
        Some(corrections.to_owned())
    };
    StoredTexts { final_text: Some(final_text.to_owned()), raw_text, corrections }
}

} // verus!

verus! {

/// The LIKE pattern of a History search: the trimmed search, escaped, as a
/// substring; a blank search matches every kept transcript.
pub open spec fn spec_search_pattern(search: Seq<char>) -> Seq<char> {
    seq!['%'] + escaped_like(crate::text::trim(search)) + seq!['%']
}

pub fn search_pattern(search: &str) -> (pattern: String)
    ensures
        pattern@ == spec_search_pattern(search@),
{
    let trimmed = crate::text::string_from(crate::text::trim_chars(chars_of(search).as_slice()).as_slice());
    let escaped = escape_like(trimmed.as_str());
    let mut pattern = String::new();
    push_char(&mut pattern, '%');
    pattern.append(escaped.as_str());
    push_char(&mut pattern, '%');
    pattern
}

/// Where a History request continues: after the page end its cursor
/// encodes, and whether a cursor was given that could not be read, in
/// which case the request restarts at the first page.
pub fn requested_position(after: Option<&HistoryPageCursor>) -> (r: (Option<PageCursor>, bool))
    ensures
        match after {
            None => r.0 is None && !r.1,
            Some(cursor) => match decoded_cursor(cursor@) {
                Some((ended_at, id)) => (r.0 matches Some(c) && c.ended_at@ == ended_at && c.id == id) && !r.1,
                None => r.0 is None && r.1,
            },
        },
{
    match after {
        None => (None, false),
        Some(cursor) => match PageCursor::decode(cursor) {
            Some(position) => (Some(position), false),
            None => (None, true),
        },
    }
}

/// A page of at most `limit` rows from rows read with one extra, and
/// whether another page follows.
pub fn split_page<T>(rows: Vec<T>, limit: usize) -> (page: (Vec<T>, bool))
    ensures
        page.1 == (rows@.len() > limit),
        page.0@ == if rows@.len() > limit { rows@.subrange(0, limit as int) } else { rows@ },
{
    let has_more = rows.len() > limit;
    let mut rows = rows;
    rows.truncate(limit);
    (rows, has_more)
}

/// A strict order on page keys: the order `ORDER BY ended_at DESC, id DESC`
/// lists rows against.
pub open spec fn strict_order<K>(lt: spec_fn(K, K) -> bool) -> bool {
    &&& forall|x: K| !#[trigger] lt(x, x)
    &&& forall|x: K, y: K, z: K| #[trigger] lt(x, y) && #[trigger] lt(y, z) ==> lt(x, z)
}

/// Rows listed newest first: each later row is older than every earlier one.
pub open spec fn newest_first<K>(rows: Seq<K>, lt: spec_fn(K, K) -> bool) -> bool {
    forall|i: int, j: int| 0 <= i < j < rows.len() ==> #[trigger] lt(rows[j], rows[i])
}

/// The rows older than the cursor key, in order: what the keyset
/// condition `(ended_at, id) < (?, ?)` selects.
pub open spec fn older_than<K>(rows: Seq<K>, lt: spec_fn(K, K) -> bool, cursor: K) -> Seq<K>
    decreases rows.len(),
{
    if rows.len() == 0 {
        rows
    } else {
        let rest = older_than(rows.drop_first(), lt, cursor);
        if lt(rows[0], cursor) {
            seq![rows[0]] + rest
        } else {
            rest
        }
    }
}

/// One History page of at most `n` rows from the cursor, and the key the
/// next page continues after when more rows follow: the page's last row.
pub open spec fn keyset_page<K>(rows: Seq<K>, lt: spec_fn(K, K) -> bool, cursor: Option<K>, n: nat) -> (
    Seq<K>,
    Option<K>,
) {
    let selected = match cursor {
        None => rows,
        Some(c) => older_than(rows, lt, c),
    };
    if selected.len() > n {
        (selected.take(n as int), Some(selected[n - 1]))
    } else {
        (selected, None)
    }
}

/// The rows of the pages read one after another from `cursor`, each read
/// from `rows`, for at most `budget` further pages.
pub open spec fn pages_from<K>(rows: Seq<K>, lt: spec_fn(K, K) -> bool, cursor: Option<K>, n: nat, budget: nat) -> Seq<K>
    decreases budget,
{
    let page = keyset_page(rows, lt, cursor, n);
    match page.1 {
        Some(c) => if budget > 0 {
            page.0 + pages_from(rows, lt, Some(c), n, (budget - 1) as nat)
        } else {
            page.0
        },
        None => page.0,
    }
}

proof fn lemma_all_older<K>(rows: Seq<K>, lt: spec_fn(K, K) -> bool, cursor: K)
    requires
        forall|i: int| 0 <= i < rows.len() ==> #[trigger] lt(rows[i], cursor),
    ensures
        older_than(rows, lt, cursor) == rows,
    decreases rows.len(),
{
    if rows.len() > 0 {
        let rest = rows.drop_first();
        assert forall|i: int| 0 <= i < rest.len() implies #[trigger] lt(rest[i], cursor) by {
            assert(rest[i] == rows[i + 1]);
        }
        lemma_all_older(rest, lt, cursor);
        assert(seq![rows[0]] + rest =~= rows);
    }
}

proof fn lemma_none_older<K>(rows: Seq<K>, lt: spec_fn(K, K) -> bool, cursor: K)
    requires
        forall|i: int| 0 <= i < rows.len() ==> !#[trigger] lt(rows[i], cursor),
    ensures
        older_than(rows, lt, cursor) =~= Seq::<K>::empty(),
    decreases rows.len(),
{
    if rows.len() > 0 {
        let rest = rows.drop_first();
        assert forall|i: int| 0 <= i < rest.len() implies !#[trigger] lt(rest[i], cursor) by {
            assert(rest[i] == rows[i + 1]);
        }
        lemma_none_older(rest, lt, cursor);
    }
}

proof fn lemma_older_concat<K>(a: Seq<K>, b: Seq<K>, lt: spec_fn(K, K) -> bool, cursor: K)
    ensures
        older_than(a + b, lt, cursor) == older_than(a, lt, cursor) + older_than(b, lt, cursor),
    decreases a.len(),
{
    if a.len() == 0 {
        assert(a + b =~= b);
        assert(older_than(a, lt, cursor) + older_than(b, lt, cursor) =~= older_than(b, lt, cursor));
    } else {
        assert((a + b).drop_first() =~= a.drop_first() + b);
        assert((a + b)[0] == a[0]);
        lemma_older_concat(a.drop_first(), b, lt, cursor);
        if lt(a[0], cursor) {
            assert(seq![a[0]] + (older_than(a.drop_first(), lt, cursor) + older_than(b, lt, cursor))
                =~= (seq![a[0]] + older_than(a.drop_first(), lt, cursor)) + older_than(b, lt, cursor));
        }
    }
}

/// After the row at `p - 1` of a newest-first listing come exactly the rows
/// from `p` on.
proof fn lemma_older_than_row<K>(rows: Seq<K>, lt: spec_fn(K, K) -> bool, p: int)
    requires
        strict_order(lt),
        newest_first(rows, lt),
        1 <= p <= rows.len(),
    ensures
        older_than(rows, lt, rows[p - 1]) == rows.skip(p),
{
    let c = rows[p - 1];
    let head = rows.take(p);
    let tail = rows.skip(p);
    assert(head + tail =~= rows);
    lemma_older_concat(head, tail, lt, c);
    assert forall|i: int| 0 <= i < head.len() implies !#[trigger] lt(head[i], c) by {
        if i < p - 1 {
            assert(lt(rows[p - 1], rows[i]));
            if lt(rows[i], rows[p - 1]) {
                assert(lt(rows[i], rows[i]));
            }
        }
    }
    lemma_none_older(head, lt, c);
    assert forall|i: int| 0 <= i < tail.len() implies #[trigger] lt(tail[i], c) by {
        assert(tail[i] == rows[p + i]);
        assert(lt(rows[p + i], rows[p - 1]));
    }
    lemma_all_older(tail, lt, c);
    assert(older_than(head, lt, c) + older_than(tail, lt, c) =~= tail);
}

/// Rows inserted newer than every listed row are never older than a
/// cursor taken from the listing.
proof fn lemma_fresh_rows_skipped<K>(fresh: Seq<K>, rows: Seq<K>, lt: spec_fn(K, K) -> bool, p: int)
    requires
        strict_order(lt),
        newest_first(rows, lt),
        1 <= p <= rows.len(),
        forall|i: int| 0 <= i < fresh.len() ==> #[trigger] lt(rows[0], fresh[i]),
    ensures
        older_than(fresh + rows, lt, rows[p - 1]) == rows.skip(p),
{
    let c = rows[p - 1];
    lemma_older_concat(fresh, rows, lt, c);
    assert forall|i: int| 0 <= i < fresh.len() implies !#[trigger] lt(fresh[i], c) by {
        assert(lt(rows[0], fresh[i]));
        if p - 1 > 0 {
            assert(lt(rows[p - 1], rows[0]));
            assert(lt(rows[p - 1], fresh[i]));
        }
        if lt(fresh[i], c) {
            assert(lt(c, fresh[i]));
            assert(lt(c, c));
        }
    }
    lemma_none_older(fresh, lt, c);
    lemma_older_than_row(rows, lt, p);
    assert(older_than(fresh, lt, c) + rows.skip(p) =~= rows.skip(p));
}

proof fn lemma_pages_from_row<K>(
    fresh: Seq<K>,
    rows: Seq<K>,
    lt: spec_fn(K, K) -> bool,
    p: int,
    n: nat,
    budget: nat,
)
    requires
        strict_order(lt),
        newest_first(rows, lt),
        1 <= p <= rows.len(),
        n > 0,
        budget >= rows.len() - p,
        forall|i: int| 0 <= i < fresh.len() ==> #[trigger] lt(rows[0], fresh[i]),
    ensures
        pages_from(fresh + rows, lt, Some(rows[p - 1]), n, budget) == rows.skip(p),
    decreases budget,
{
    lemma_fresh_rows_skipped(fresh, rows, lt, p);
    let selected = rows.skip(p);
    if selected.len() > n {
        let q = p + n;
        assert(selected[n - 1] == rows[q - 1]);
        lemma_pages_from_row(fresh, rows, lt, q, n, (budget - 1) as nat);
        assert(selected.take(n as int) + rows.skip(q) =~= selected);
    }
}

/// History paging is stable: reading the first page, then each next page
/// after the last row of the one before, gives every row that matched when
/// the first page was read exactly once, newest first, even when newer rows
/// arrive in between; the last page says no more follow.
pub proof fn lemma_pages_cover_rows_once<K>(rows: Seq<K>, fresh: Seq<K>, lt: spec_fn(K, K) -> bool, n: nat)
    requires
        strict_order(lt),
        newest_first(rows, lt),
        n > 0,
        rows.len() > 0 ==> forall|i: int| 0 <= i < fresh.len() ==> #[trigger] lt(rows[0], fresh[i]),
    ensures
        ({
            let first = keyset_page(rows, lt, None, n);
            match first.1 {
                Some(c) => first.0 + pages_from(fresh + rows, lt, Some(c), n, rows.len()) == rows,
                None => first.0 == rows,
            }
        }),
{
    let first = keyset_page(rows, lt, None, n);
    if rows.len() > n {
        assert(rows[n - 1] == rows[n as int - 1]);
        lemma_pages_from_row(fresh, rows, lt, n as int, n, rows.len());
        assert(rows.take(n as int) + rows.skip(n as int) =~= rows);
    }
}

} // verus!
