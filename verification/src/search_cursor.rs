//! The cursor that continues a transcript search. It names the query, the
//! search plan and the day it belongs to, and where the page ended: the
//! stored timestamp text, exactly as the keyset comparison orders it, and
//! the row id that breaks ties.

use vstd::prelude::*;

use crate::history::{last_bar, lemma_last_bar_bounds, lemma_last_bar_of_suffix};
use crate::history_search::{fnv, query_bytes, query_fingerprint, FNV_OFFSET};
use crate::job::{parse_rfc3339_instant, rfc3339_instant, RuntimeError};
use crate::text::str_eq;
use crate::text::{
    chars_of, hex16, hex_fixed, lemma_hex_fixed, lemma_hex_round_trip, lemma_parse_signed_decimal,
    parse_hex_u64, parse_i64, parsed_hex_u64, parsed_i64, push_char, signed_decimal,
    signed_decimal_chars, string_from,
};

verus! {

/// Whether `chrono::DateTime::parse_from_rfc3339` accepts the text.
pub open spec fn rfc3339_accepts(text: Seq<char>) -> bool {
    rfc3339_instant(text) is Some
}

/// The opaque text that continues a search page.
#[derive(Clone, Debug, PartialEq, Eq)]
pub struct HistoryCursor {
    value: String,
}

impl View for HistoryCursor {
    type V = Seq<char>;

    closed spec fn view(&self) -> Seq<char> {
        self.value@
    }
}

impl HistoryCursor {
    pub fn from_opaque(value: String) -> (cursor: Self)
        ensures
            cursor@ == value@,
    {
        HistoryCursor { value }
    }

    pub fn as_str(&self) -> (s: &str)
        ensures
            s@ == self@,
    {
        self.value.as_str()
    }
}

/// Where the previous search page ended.
#[derive(Clone, Debug, PartialEq, Eq)]
pub struct CursorPosition {
    pub created_at: String,
    pub id: i64,
}

pub open spec fn has_no_bar(s: Seq<char>) -> bool {
    forall|k: int| 0 <= k < s.len() ==> #[trigger] s[k] != '|'
}

/// `text.split('|')`.
pub open spec fn split_bar(s: Seq<char>) -> Seq<Seq<char>>
    decreases s.len(),
{
    match last_bar(s) {
        None => seq![s],
        Some(p) => {
            proof {
                lemma_last_bar_bounds(s);
            }
            split_bar(s.take(p)).push(s.subrange(p + 1, s.len() as int))
        },
    }
}

pub proof fn lemma_split_bar_nonempty(s: Seq<char>)
    ensures
        split_bar(s).len() >= 1,
{
    lemma_last_bar_bounds(s);
}

/// Splitting one character more either opens a new piece, at a `|`, or
/// extends the last piece.
pub proof fn lemma_split_bar_push(t: Seq<char>, c: char)
    ensures
        split_bar(t.push(c)) == if c == '|' {
            split_bar(t).push(Seq::<char>::empty())
        } else {
            split_bar(t).update(split_bar(t).len() - 1, split_bar(t).last().push(c))
        },
{
    let s = t.push(c);
    lemma_last_bar_bounds(t);
    lemma_split_bar_nonempty(t);
    assert(s.drop_last() =~= t);
    if c == '|' {
        assert(last_bar(s) == Some(t.len() as int));
        assert(s.take(t.len() as int) =~= t);
        assert(s.subrange(t.len() as int + 1, s.len() as int) =~= Seq::<char>::empty());
    } else {
        assert(last_bar(s) == last_bar(t));
        match last_bar(t) {
            None => {
                assert(split_bar(s) =~= split_bar(t).update(0, t.push(c)));
            },
            Some(p) => {
                assert(s.take(p) =~= t.take(p));
                assert(s.subrange(p + 1, s.len() as int) =~= t.subrange(p + 1, t.len() as int).push(c));
                assert(split_bar(s) =~= split_bar(t).update(
                    split_bar(t).len() - 1,
                    split_bar(t).last().push(c),
                ));
            },
        }
    }
}

/// Text with no `|` is one piece.
pub proof fn lemma_split_bar_single(s: Seq<char>)
    requires
        has_no_bar(s),
    ensures
        split_bar(s) == seq![s],
{
    lemma_last_bar_bounds(s);
}

/// A `|` followed by text without one adds that text as the last piece.
pub proof fn lemma_split_bar_append(a: Seq<char>, b: Seq<char>)
    requires
        has_no_bar(b),
    ensures
        split_bar(a + seq!['|'] + b) == split_bar(a).push(b),
{
    let s = a + seq!['|'] + b;
    lemma_last_bar_of_suffix(a, b);
    assert(s.take(a.len() as int) =~= a);
    assert(s.subrange(a.len() as int + 1, s.len() as int) =~= b);
}

/// `cursor.split('|')`, piece by piece.
pub fn split_bars(text: &str) -> (parts: Vec<Vec<char>>)
    ensures
        parts@.len() == split_bar(text@).len(),
        forall|i: int| 0 <= i < parts@.len() ==> #[trigger] parts@[i]@ == split_bar(text@)[i],
{
    let chars = chars_of(text);
    let ghost s = text@;
    let mut done: Vec<Vec<char>> = Vec::new();
    let mut current: Vec<char> = Vec::new();
    let mut i: usize = 0;
    proof {
        assert(s.take(0) =~= Seq::<char>::empty());
        lemma_split_bar_single(Seq::<char>::empty());
    }
    while i < chars.len()
        invariant
            i <= chars@.len(),
            chars@ == s,
            split_bar(s.take(i as int)).len() == done@.len() + 1,
            forall|j: int| 0 <= j < done@.len() ==> #[trigger] done@[j]@ == split_bar(s.take(i as int))[j],
            current@ == split_bar(s.take(i as int)).last(),
        decreases chars@.len() - i,
    {
        let c = chars[i];
        proof {
            assert(s.take(i + 1) =~= s.take(i as int).push(c));
            lemma_split_bar_push(s.take(i as int), c);
        }
        if c == '|' {
            let finished = current;
            done.push(finished);
            current = Vec::new();
        } else {
            current.push(c);
        }
        i += 1;
    }
    proof {
        assert(s.take(chars@.len() as int) =~= s);
    }
    done.push(current);
    done
}

/// The day a cursor names: the day's text, or `-` for every day.
pub open spec fn day_text(day: Option<Seq<char>>) -> Seq<char> {
    match day {
        Some(d) => d,
        None => "-"@,
    }
}

pub open spec fn opt_text(day: Option<&str>) -> Option<Seq<char>> {
    match day {
        Some(d) => Some(d@),
        None => None,
    }
}

/// The fingerprint of a normalized query and its day.
pub open spec fn spec_query_fingerprint(normalized: Seq<char>, day: Option<Seq<char>>) -> u64 {
    fnv(FNV_OFFSET, query_bytes(normalized, day))
}

/// `v2|<query fingerprint>|<plan fingerprint>|<day>|<created_at>|<id>`, the
/// fingerprints as 16 lower-case hexadecimal digits.
pub open spec fn encoded_search_cursor(
    query_fp: u64,
    plan_fp: u64,
    day: Seq<char>,
    created_at: Seq<char>,
    id: int,
) -> Seq<char> {
    "v2"@ + seq!['|'] + hex_fixed(query_fp as nat, 16) + seq!['|'] + hex_fixed(plan_fp as nat, 16)
        + seq!['|'] + day + seq!['|'] + created_at + seq!['|'] + signed_decimal(id)
}

/// What the pieces of a cursor decode to for a query, plan and day: the
/// page's end, or why the cursor is refused, checked in this order.
pub open spec fn search_cursor_outcome(
    parts: Seq<Seq<char>>,
    query_fp: u64,
    plan_fp: u64,
    day: Seq<char>,
    timestamp_ok: bool,
) -> Result<(Seq<char>, int), Seq<char>> {
    if parts.len() != 6 || parts[0] != "v2"@ {
        Err("unsupported cursor format"@)
    } else {
        match parsed_hex_u64(parts[1]) {
            None => Err("invalid query fingerprint"@),
            Some(q) => if q != query_fp {
                Err("cursor belongs to a different query"@)
            } else {
                match parsed_hex_u64(parts[2]) {
                    None => Err("invalid search plan fingerprint"@),
                    Some(p) => if p != plan_fp {
                        Err("search index changed; restart from the first page"@)
                    } else if parts[3] != day {
                        Err("cursor belongs to a different day"@)
                    } else if !timestamp_ok {
                        Err("invalid timestamp"@)
                    } else {
                        match parsed_i64(parts[5]) {
                            None => Err("invalid row id"@),
                            Some(id) => Ok((parts[4], id)),
                        }
                    },
                }
            },
        }
    }
}

/// Whether a decoding result is the outcome: the same page end, or a
/// refused cursor with the same reason.
pub open spec fn cursor_result_is(
    r: Result<CursorPosition, RuntimeError>,
    outcome: Result<(Seq<char>, int), Seq<char>>,
) -> bool {
    match r {
        Ok(position) => outcome == Ok::<(Seq<char>, int), Seq<char>>(
            (position.created_at@, position.id as int),
        ),
        Err(error) => match error {
            RuntimeError::InvalidHistoryCursor(reason) => outcome == Err::<
                (Seq<char>, int),
                Seq<char>,
            >(reason@),
            _ => false,
        },
    }
}

fn refused(reason: &str) -> (r: Result<CursorPosition, RuntimeError>)
    ensures
        r matches Err(RuntimeError::InvalidHistoryCursor(m)) && m@ == reason@,
{
    Err(RuntimeError::InvalidHistoryCursor(reason.to_owned()))
}

fn push_str(value: &mut String, s: &str)
    ensures
        final(value)@ == old(value)@ + s@,
{
    let chars = chars_of(s);
    push_chars(value, &chars);
}

fn push_chars(value: &mut String, chars: &Vec<char>)
    ensures
        final(value)@ == old(value)@ + chars@,
{
    let ghost head = value@;
    let mut i: usize = 0;
    while i < chars.len()
        invariant
            i <= chars@.len(),
            value@ == head + chars@.take(i as int),
        decreases chars@.len() - i,
    {
        push_char(value, chars[i]);
        proof {
            assert(value@ =~= head + chars@.take(i + 1));
        }
        i += 1;
    }
    proof {
        assert(chars@.take(chars@.len() as int) =~= chars@);
    }
}

/// The cursor that continues a search after the row `id` created at
/// `created_at`, for `normalized_query` on `day` (every day when `None`)
/// under the plan with fingerprint `plan_fp`.
pub fn encode_cursor(
    normalized_query: &str,
    day: Option<&str>,
    plan_fp: u64,
    created_at: &str,
    id: i64,
) -> (cursor: HistoryCursor)
    ensures
        cursor@ == encoded_search_cursor(
            spec_query_fingerprint(normalized_query@, opt_text(day)),
            plan_fp,
            day_text(opt_text(day)),
            created_at@,
            id as int,
        ),
{
    let query_fp = query_fingerprint(normalized_query, day);
    let mut value = String::new();
    push_str(&mut value, "v2");
    push_char(&mut value, '|');
    push_chars(&mut value, &hex16(query_fp));
    push_char(&mut value, '|');
    push_chars(&mut value, &hex16(plan_fp));
    push_char(&mut value, '|');
    match day {
        Some(d) => push_str(&mut value, d),
        None => push_str(&mut value, "-"),
    }
    push_char(&mut value, '|');
    push_str(&mut value, created_at);
    push_char(&mut value, '|');
    push_chars(&mut value, &signed_decimal_chars(id));
    proof {
        assert(value@ =~= encoded_search_cursor(
            query_fp,
            plan_fp,
            day_text(opt_text(day)),
            created_at@,
            id as int,
        ));
    }
    HistoryCursor::from_opaque(value)
}

/// Decodes the pieces of a cursor for a query, plan and day, given whether
/// the fifth piece parsed as an RFC 3339 timestamp.
pub fn cursor_position(
    parts: &Vec<Vec<char>>,
    query_fp: u64,
    plan_fp: u64,
    day: &str,
    timestamp_ok: bool,
) -> (r: Result<CursorPosition, RuntimeError>)
    ensures
        cursor_result_is(
            r,
            search_cursor_outcome(parts@.map_values(|p: Vec<char>| p@), query_fp, plan_fp, day@, timestamp_ok),
        ),
{
    let ghost views = parts@.map_values(|p: Vec<char>| p@);
    if parts.len() != 6 {
        return refused("unsupported cursor format");
    }
    let v2 = string_from(parts[0].as_slice());
    if !str_eq(v2.as_str(), "v2") {
        return refused("unsupported cursor format");
    }
    let query = match parse_hex_u64(parts[1].as_slice()) {
        Some(q) => q,
        None => return refused("invalid query fingerprint"),
    };
    if query != query_fp {
        return refused("cursor belongs to a different query");
    }
    let plan = match parse_hex_u64(parts[2].as_slice()) {
        Some(p) => p,
        None => return refused("invalid search plan fingerprint"),
    };
    if plan != plan_fp {
        return refused("search index changed; restart from the first page");
    }
    let cursor_day = string_from(parts[3].as_slice());
    if !str_eq(cursor_day.as_str(), day) {
        return refused("cursor belongs to a different day");
    }
    if !timestamp_ok {
        return refused("invalid timestamp");
    }
    let id = match parse_i64(parts[5].as_slice()) {
        Some(id) => id,
        None => return refused("invalid row id"),
    };
    let created_at = string_from(parts[4].as_slice());
    proof {
        assert(views[4] == parts@[4]@);
    }
    Ok(CursorPosition { created_at, id })
}

/// Whether the fifth piece of a cursor is an accepted timestamp.
pub open spec fn timestamp_piece_ok(parts: Seq<Seq<char>>) -> bool {
    parts.len() == 6 && rfc3339_accepts(parts[4])
}

/// Reads a search cursor back for the query, plan and day of the page
/// being requested. It is refused, with the reason, when it is malformed or
/// was made for another query, plan or day.
pub fn decode_cursor(
    cursor: &HistoryCursor,
    normalized_query: &str,
    day: Option<&str>,
    plan_fp: u64,
) -> (r: Result<CursorPosition, RuntimeError>)
    ensures
        cursor_result_is(
            r,
            search_cursor_outcome(
                split_bar(cursor@),
                spec_query_fingerprint(normalized_query@, opt_text(day)),
                plan_fp,
                day_text(opt_text(day)),
                timestamp_piece_ok(split_bar(cursor@)),
            ),
        ),
{
    let parts = split_bars(cursor.as_str());
    let ghost views = parts@.map_values(|p: Vec<char>| p@);
    proof {
        assert(views =~= split_bar(cursor@));
    }
    let timestamp_ok = if parts.len() == 6 {
        let stamp = string_from(parts[4].as_slice());
        parse_rfc3339_instant(stamp.as_str()).is_some()
    } else {
        false
    };
    let query_fp = query_fingerprint(normalized_query, day);
    let expected_day: &str = match day {
        Some(d) => d,
        None => "-",
    };
    cursor_position(&parts, query_fp, plan_fp, expected_day, timestamp_ok)
}

/// A search cursor reads back as the page end it was made from, for the
/// same query, plan and day, when its timestamp is one the database
/// stores (RFC 3339, without `|`) and the day's text has no `|`.
pub proof fn lemma_search_cursor_round_trip(
    query_fp: u64,
    plan_fp: u64,
    day: Seq<char>,
    created_at: Seq<char>,
    id: i64,
)
    requires
        has_no_bar(day),
        has_no_bar(created_at),
        rfc3339_accepts(created_at),
    ensures
        split_bar(encoded_search_cursor(query_fp, plan_fp, day, created_at, id as int)).len() == 6,
        timestamp_piece_ok(split_bar(encoded_search_cursor(query_fp, plan_fp, day, created_at, id as int))),
        search_cursor_outcome(
            split_bar(encoded_search_cursor(query_fp, plan_fp, day, created_at, id as int)),
            query_fp,
            plan_fp,
            day,
            true,
        ) == Ok::<(Seq<char>, int), Seq<char>>((created_at, id as int)),
{
    let parts = lemma_encoded_pieces(query_fp, plan_fp, day, created_at, id);
    lemma_hex_round_trip(query_fp);
    lemma_hex_round_trip(plan_fp);
    lemma_parse_signed_decimal(id as int);
}

/// A cursor made for one query, plan or day is refused for another, with
/// the reason that names the first difference.
pub proof fn lemma_search_cursor_binds_its_query(
    query_fp: u64,
    plan_fp: u64,
    day: Seq<char>,
    created_at: Seq<char>,
    id: i64,
    other_query_fp: u64,
    other_plan_fp: u64,
    other_day: Seq<char>,
    timestamp_ok: bool,
)
    requires
        has_no_bar(day),
        has_no_bar(created_at),
    ensures
        ({
            let parts = split_bar(encoded_search_cursor(query_fp, plan_fp, day, created_at, id as int));
            let outcome = search_cursor_outcome(parts, other_query_fp, other_plan_fp, other_day, timestamp_ok);
            &&& other_query_fp != query_fp ==> outcome == Err::<(Seq<char>, int), Seq<char>>(
                "cursor belongs to a different query"@,
            )
            &&& other_query_fp == query_fp && other_plan_fp != plan_fp ==> outcome == Err::<
                (Seq<char>, int),
                Seq<char>,
            >("search index changed; restart from the first page"@)
            &&& other_query_fp == query_fp && other_plan_fp == plan_fp && other_day != day
                ==> outcome == Err::<(Seq<char>, int), Seq<char>>(
                "cursor belongs to a different day"@,
            )
        }),
{
    lemma_encoded_pieces(query_fp, plan_fp, day, created_at, id);
    lemma_hex_round_trip(query_fp);
    lemma_hex_round_trip(plan_fp);
}

proof fn lemma_encoded_pieces(query_fp: u64, plan_fp: u64, day: Seq<char>, created_at: Seq<char>, id: i64)
    -> (parts: Seq<Seq<char>>)
    requires
        has_no_bar(day),
        has_no_bar(created_at),
    ensures
        parts == split_bar(encoded_search_cursor(query_fp, plan_fp, day, created_at, id as int)),
        parts == seq![
            "v2"@,
            hex_fixed(query_fp as nat, 16),
            hex_fixed(plan_fp as nat, 16),
            day,
            created_at,
            signed_decimal(id as int),
        ],
{
    reveal_strlit("v2");
    let v2 = "v2"@;
    let q = hex_fixed(query_fp as nat, 16);
    let p = hex_fixed(plan_fp as nat, 16);
    let d = signed_decimal(id as int);
    lemma_hex_fixed(query_fp as nat, 16);
    lemma_hex_fixed(plan_fp as nat, 16);
    lemma_parse_signed_decimal(id as int);
    assert(has_no_bar(v2));
    lemma_split_bar_single(v2);
    let s1 = v2 + seq!['|'] + q;
    lemma_split_bar_append(v2, q);
    let s2 = s1 + seq!['|'] + p;
    lemma_split_bar_append(s1, p);
    let s3 = s2 + seq!['|'] + day;
    lemma_split_bar_append(s2, day);
    let s4 = s3 + seq!['|'] + created_at;
    lemma_split_bar_append(s3, created_at);
    let s5 = s4 + seq!['|'] + d;
    lemma_split_bar_append(s4, d);
    assert(s5 == encoded_search_cursor(query_fp, plan_fp, day, created_at, id as int));
    assert(split_bar(s5) =~= seq![v2, q, p, day, created_at, d]);
    split_bar(s5)
}

} // verus!
