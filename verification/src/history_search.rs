//! Transcript search: query normalization, the plan that turns a query into
//! full-text or literal matching, typo corrections from the index's
//! vocabulary, previews, and the fingerprints that bind a cursor to its
//! query.

use vstd::prelude::*;

use crate::history::{escape_like, escaped_like};
use crate::text::{
    char_is_alphanumeric, char_is_whitespace, chars_of, joined, push_char, split_words,
    str_to_lowercase, string_from, string_from_range, trim_end, trim_end_len, unicode_alphanumeric,
    unicode_str_lowercase, unicode_whitespace, words, bytes_lt, bytes_prefix, str_lt, str_starts_with,
};
use vstd::utf8::encode_utf8;

verus! {

/// Rows in one search page at most.
pub const MAX_PAGE_SIZE: usize = 100;

/// Characters of a transcript that a search result previews.
pub const PREVIEW_CHARACTERS: usize = 160;

/// Typo corrections added for one query word at most.
pub const MAX_CORRECTIONS_PER_TOKEN: usize = 3;

/// Words of a query that search considers.
pub const MAX_QUERY_TOKENS: usize = 12;

/// Characters of a normalized query at most.
pub const MAX_QUERY_CHARACTERS: usize = 256;

pub open spec fn min_nat(a: nat, b: nat) -> nat {
    if a <= b { a } else { b }
}

/// The optimal string alignment distance between the first `i` characters
/// of `a` and the first `j` of `b`: the fewest insertions, deletions,
/// substitutions and swaps of adjacent characters, no substring edited
/// twice.
pub open spec fn osa(a: Seq<char>, b: Seq<char>, i: nat, j: nat) -> nat
    decreases i + j,
{
    if i == 0 {
        j
    } else if j == 0 {
        i
    } else {
        let substitution = osa(a, b, (i - 1) as nat, (j - 1) as nat) + if a[i - 1] == b[j - 1] {
            0nat
        } else {
            1nat
        };
        let best = min_nat(
            min_nat(osa(a, b, (i - 1) as nat, j) + 1, osa(a, b, i, (j - 1) as nat) + 1),
            substitution,
        );
        if i > 1 && j > 1 && a[i - 1] == b[j - 2] && a[i - 2] == b[j - 1] {
            min_nat(best, osa(a, b, (i - 2) as nat, (j - 2) as nat) + 1)
        } else {
            best
        }
    }
}

/// The distance between all of `a` and all of `b`.
pub open spec fn osa_full(a: Seq<char>, b: Seq<char>) -> nat {
    osa(a, b, a.len(), b.len())
}

pub proof fn lemma_osa_bound(a: Seq<char>, b: Seq<char>, i: nat, j: nat)
    ensures
        osa(a, b, i, j) <= if i >= j { i } else { j },
    decreases i + j,
{
    if i > 0 && j > 0 {
        lemma_osa_bound(a, b, (i - 1) as nat, (j - 1) as nat);
    }
}

proof fn lemma_osa_symmetric(a: Seq<char>, b: Seq<char>, i: nat, j: nat)
    ensures
        osa(a, b, i, j) == osa(b, a, j, i),
    decreases i + j,
{
    if i > 0 && j > 0 {
        lemma_osa_symmetric(a, b, (i - 1) as nat, (j - 1) as nat);
        lemma_osa_symmetric(a, b, (i - 1) as nat, j);
        lemma_osa_symmetric(a, b, i, (j - 1) as nat);
        if i > 1 && j > 1 {
            lemma_osa_symmetric(a, b, (i - 2) as nat, (j - 2) as nat);
        }
    }
}

proof fn lemma_osa_lower_bound(a: Seq<char>, b: Seq<char>, i: nat, j: nat)
    ensures
        osa(a, b, i, j) >= if i >= j { i - j } else { j - i },
    decreases i + j,
{
    if i > 0 && j > 0 {
        lemma_osa_lower_bound(a, b, (i - 1) as nat, (j - 1) as nat);
        lemma_osa_lower_bound(a, b, (i - 1) as nat, j);
        lemma_osa_lower_bound(a, b, i, (j - 1) as nat);
        if i > 1 && j > 1 {
            lemma_osa_lower_bound(a, b, (i - 2) as nat, (j - 2) as nat);
        }
    }
}

proof fn lemma_osa_zero(a: Seq<char>, b: Seq<char>, i: nat, j: nat)
    requires
        i <= a.len(),
        j <= b.len(),
    ensures
        osa(a, b, i, j) == 0 <==> (i == j && a.take(i as int) =~= b.take(j as int)),
    decreases i + j,
{
    lemma_osa_lower_bound(a, b, i, j);
    if i > 0 && j > 0 {
        lemma_osa_zero(a, b, (i - 1) as nat, (j - 1) as nat);
        lemma_osa_lower_bound(a, b, (i - 1) as nat, j);
        lemma_osa_lower_bound(a, b, i, (j - 1) as nat);
        if i == j && a.take(i as int) =~= b.take(j as int) {
            assert(a[i - 1] == a.take(i as int)[i - 1]);
            assert(b[j - 1] == b.take(j as int)[j - 1]);
            assert(a.take(i - 1) =~= a.take(i as int).take(i - 1));
            assert(b.take(j - 1) =~= b.take(j as int).take(j - 1));
        }
        if osa(a, b, i, j) == 0 {
            assert(a.take(i as int) =~= a.take(i - 1).push(a[i - 1]));
            assert(b.take(j as int) =~= b.take(j - 1).push(b[j - 1]));
        }
    }
}

/// The laws of the distance: it is symmetric, zero exactly between equal
/// texts, at least the difference of the lengths and at most the longer
/// length.
pub proof fn lemma_osa_laws(a: Seq<char>, b: Seq<char>)
    ensures
        osa_full(a, b) == osa_full(b, a),
        osa_full(a, a) == 0,
        osa_full(a, b) == 0 <==> a == b,
        osa_full(a, b) >= if a.len() >= b.len() { a.len() - b.len() } else { b.len() - a.len() },
        osa_full(a, b) <= if a.len() >= b.len() { a.len() } else { b.len() },
{
    lemma_osa_symmetric(a, b, a.len(), b.len());
    lemma_osa_zero(a, a, a.len(), a.len());
    lemma_osa_zero(a, b, a.len(), b.len());
    lemma_osa_lower_bound(a, b, a.len(), b.len());
    lemma_osa_bound(a, b, a.len(), b.len());
    assert(a.take(a.len() as int) =~= a);
    assert(b.take(b.len() as int) =~= b);
}

/// `a` with the characters at `i` and `i + 1` swapped.
pub open spec fn swap_adjacent(a: Seq<char>, i: int) -> Seq<char> {
    a.update(i, a[i + 1]).update(i + 1, a[i])
}

proof fn lemma_swap_prefix_distance(a: Seq<char>, i: int, k: nat)
    requires
        0 <= i,
        i + 2 <= k <= a.len(),
        a[i] != a[i + 1],
    ensures
        osa(a, swap_adjacent(a, i), k, k) == 1,
    decreases k,
{
    let b = swap_adjacent(a, i);
    lemma_osa_zero(a, b, k, k);
    assert(a.take(k as int)[i] != b.take(k as int)[i]);
    if k == i + 2 {
        lemma_osa_zero(a, b, i as nat, i as nat);
        assert(a.take(i) =~= b.take(i));
    } else {
        lemma_swap_prefix_distance(a, i, (k - 1) as nat);
        assert(a[k - 1] == b[k - 1]);
    }
}

/// Swapping two different adjacent characters is one edit.
pub proof fn lemma_osa_adjacent_swap(a: Seq<char>, i: int)
    requires
        0 <= i,
        i + 1 < a.len(),
        a[i] != a[i + 1],
    ensures
        osa_full(a, swap_adjacent(a, i)) == 1,
{
    lemma_swap_prefix_distance(a, i, a.len());
}

/// The optimal string alignment distance between `left` and `right`,
/// counting an adjacent transposition as one edit.
pub fn osa_distance(left: &str, right: &str) -> (distance: usize)
    requires
        left@.len() < usize::MAX,
        right@.len() < usize::MAX,
    ensures
        distance == osa_full(left@, right@),
{
    let left = chars_of(left);
    let right = chars_of(right);
    let ghost a = left@;
    let ghost b = right@;
    let m = right.len();
    let mut previous_previous: Vec<usize> = Vec::new();
    let mut previous: Vec<usize> = Vec::new();
    let mut current: Vec<usize> = Vec::new();
    let mut j: usize = 0;
    while j <= m
        invariant
            j <= m + 1,
            m == b.len(),
            m < usize::MAX,
            previous_previous@.len() == j,
            previous@.len() == j,
            current@.len() == j,
            forall|k: int| 0 <= k < j ==> #[trigger] previous@[k] == osa(a, b, 0, k as nat),
        decreases m + 1 - j,
    {
        previous_previous.push(0);
        previous.push(j);
        current.push(0);
        j += 1;
    }
    let n = left.len();
    let mut i: usize = 0;
    while i < n
        invariant
            i <= n,
            n == a.len(),
            m == b.len(),
            left@ == a,
            right@ == b,
            n < usize::MAX,
            m < usize::MAX,
            previous_previous@.len() == m + 1,
            previous@.len() == m + 1,
            current@.len() == m + 1,
            forall|k: int| 0 <= k <= m ==> #[trigger] previous@[k] == osa(a, b, i as nat, k as nat),
            i > 0 ==> forall|k: int| 0 <= k <= m ==> #[trigger] previous_previous@[k] == osa(a, b, (i - 1) as nat, k as nat),
        decreases n - i,
    {
        let left_character = left[i];
        current.set(0, i + 1);
        let mut r: usize = 0;
        while r < m
            invariant
                i < n,
                r <= m,
                n == a.len(),
                m == b.len(),
                left@ == a,
                right@ == b,
                left_character == a[i as int],
                n < usize::MAX,
                m < usize::MAX,
                previous_previous@.len() == m + 1,
                previous@.len() == m + 1,
                current@.len() == m + 1,
                forall|k: int| 0 <= k <= m ==> #[trigger] previous@[k] == osa(a, b, i as nat, k as nat),
                i > 0 ==> forall|k: int| 0 <= k <= m ==> #[trigger] previous_previous@[k] == osa(a, b, (i - 1) as nat, k as nat),
                forall|k: int| 0 <= k <= r ==> #[trigger] current@[k] == osa(a, b, (i + 1) as nat, k as nat),
            decreases m - r,
        {
            let right_character = right[r];
            proof {
                lemma_osa_bound(a, b, i as nat, r as nat);
                lemma_osa_bound(a, b, i as nat, (r + 1) as nat);
                lemma_osa_bound(a, b, (i + 1) as nat, r as nat);
            }
            let substitution = previous[r] + if left_character != right_character { 1 } else { 0 };
            let deletion = previous[r + 1] + 1;
            let insertion = current[r] + 1;
            let mut best = if deletion <= insertion { deletion } else { insertion };
            if substitution < best {
                best = substitution;
            }
            if i > 0 && r > 0 && left_character == right[r - 1] && left[i - 1] == right_character {
                proof {
                    lemma_osa_bound(a, b, (i - 1) as nat, (r - 1) as nat);
                }
                let swap = previous_previous[r - 1] + 1;
                if swap < best {
                    best = swap;
                }
            }
            current.set(r + 1, best);
            proof {
                assert(current@[r + 1] == osa(a, b, (i + 1) as nat, (r + 1) as nat));
            }
            r += 1;
        }
        std::mem::swap(&mut previous_previous, &mut previous);
        std::mem::swap(&mut previous, &mut current);
        i += 1;
    }
    previous[m]
}

/// At most `n` items of `s` from its start.
pub open spec fn at_most<A>(s: Seq<A>, n: int) -> Seq<A> {
    if s.len() > n { s.take(n) } else { s }
}

/// A query as search compares it: its first 12 words, joined by single
/// spaces and lower-cased, then cut to 256 characters without trailing
/// white space.
pub open spec fn normalized_query(value: Seq<char>) -> Seq<char> {
    trim_end(
        at_most(unicode_str_lowercase(joined(at_most(words(value), MAX_QUERY_TOKENS as int), ' ')), MAX_QUERY_CHARACTERS as int),
    )
}

/// A normalized query never holds more than 256 characters.
pub proof fn lemma_normalized_query_length(value: Seq<char>)
    ensures
        normalized_query(value).len() <= MAX_QUERY_CHARACTERS,
{
    let cut = at_most(
        unicode_str_lowercase(joined(at_most(words(value), MAX_QUERY_TOKENS as int), ' ')),
        MAX_QUERY_CHARACTERS as int,
    );
    crate::text::lemma_trim_end_prefix(cut);
}

/// Appends `word` to `s`.
fn push_all(s: &mut String, word: &[char])
    ensures
        final(s)@ == old(s)@ + word@,
{
    let mut i: usize = 0;
    while i < word.len()
        invariant
            i <= word@.len(),
            s@ == old(s)@ + word@.take(i as int),
        decreases word@.len() - i,
    {
        push_char(s, word[i]);
        proof {
            assert(s@ =~= old(s)@ + word@.take(i + 1));
        }
        i += 1;
    }
    proof {
        assert(word@.take(word@.len() as int) =~= word@);
    }
}

/// Joins the first `count` of `list` with single spaces.
pub fn join_words(list: &Vec<Vec<char>>, count: usize) -> (s: String)
    requires
        count <= list@.len(),
    ensures
        s@ == joined(list@.take(count as int).map_values(|w: Vec<char>| w@), ' '),
{
    let ghost views = list@.map_values(|w: Vec<char>| w@);
    let mut s = String::new();
    let mut i: usize = 0;
    proof {
        assert(views.take(0) =~= Seq::<Seq<char>>::empty());
    }
    while i < count
        invariant
            i <= count,
            count <= list@.len(),
            views == list@.map_values(|w: Vec<char>| w@),
            s@ == joined(views.take(i as int), ' '),
        decreases count - i,
    {
        proof {
            assert(views.take(i + 1).drop_last() =~= views.take(i as int));
            assert(views.take(i + 1).last() == list@[i as int]@);
        }
        if i > 0 {
            push_char(&mut s, ' ');
        } else {
            proof {
                assert(Seq::<char>::empty() + list@[0]@ =~= list@[0]@);
            }
        }
        push_all(&mut s, list[i].as_slice());
        proof {
            if i > 0 {
                assert(s@ =~= joined(views.take(i as int), ' ') + seq![' '] + list@[i as int]@);
            }
        }
        i += 1;
    }
    proof {
        assert(list@.take(count as int).map_values(|w: Vec<char>| w@) =~= views.take(count as int));
    }
    s
}

/// Normalizes a query: its first 12 words, joined by single spaces and
/// lower-cased, cut to 256 characters without trailing white space.
pub fn normalize_query(value: &str) -> (normalized: String)
    ensures
        normalized@ == normalized_query(value@),
{
    let chars = chars_of(value);
    let ws = split_words(chars.as_slice());
    let count = if ws.len() > MAX_QUERY_TOKENS { MAX_QUERY_TOKENS } else { ws.len() };
    let collapsed = join_words(&ws, count);
    proof {
        let views = ws@.map_values(|w: Vec<char>| w@);
        assert(views =~= words(value@));
        assert(ws@.take(count as int).map_values(|w: Vec<char>| w@) =~= at_most(words(value@), 12));
    }
    let lowered = str_to_lowercase(collapsed.as_str());
    let lowered_chars = chars_of(lowered.as_str());
    let limit = if lowered_chars.len() > MAX_QUERY_CHARACTERS { MAX_QUERY_CHARACTERS } else { lowered_chars.len() };
    let cut = string_from_range(lowered_chars.as_slice(), 0, limit);
    let cut_chars = chars_of(cut.as_str());
    proof {
        assert(cut@ =~= at_most(lowered@, 256));
    }
    let end = trim_end_len(cut_chars.as_slice());
    string_from_range(cut_chars.as_slice(), 0, end)
}

/// How a query is matched against transcripts.
#[derive(Clone, Debug, PartialEq, Eq)]
pub enum SearchPlan {
    /// Full-text matching: every query word, or one of its corrections, as
    /// a word prefix; and, for words of three or more characters, as a
    /// trigram substring.
    Indexed { word_expression: String, trigram_expression: Option<String>, preview_terms: Vec<String> },
    /// A LIKE pattern that finds the query as written.
    Literal { pattern: String, preview_terms: Vec<String> },
}

/// The literal plan of a normalized query: a pattern that finds it as a
/// substring, and the query itself to preview; a blank query matches all.
pub open spec fn spec_literal_pattern(normalized: Seq<char>) -> Seq<char> {
    if normalized.len() == 0 {
        Seq::empty()
    } else {
        seq!['%'] + escaped_like(normalized) + seq!['%']
    }
}

pub fn literal_plan(normalized: &str) -> (plan: SearchPlan)
    ensures
        plan matches SearchPlan::Literal { pattern, preview_terms } && pattern@ == spec_literal_pattern(
            normalized@,
        ) && (if normalized@.len() == 0 {
            preview_terms@.len() == 0
        } else {
            preview_terms@.len() == 1 && preview_terms@[0]@ == normalized@
        }),
{
    let chars = chars_of(normalized);
    if chars.len() == 0 {
        return SearchPlan::Literal { pattern: String::new(), preview_terms: Vec::new() };
    }
    let mut pattern = String::new();
    push_char(&mut pattern, '%');
    let escaped = escape_like(normalized);
    pattern.append(escaped.as_str());
    push_char(&mut pattern, '%');
    let mut preview_terms: Vec<String> = Vec::new();
    preview_terms.push(normalized.to_owned());
    SearchPlan::Literal { pattern, preview_terms }
}

/// Whether the full-text index can take `s`: only letters, digits and
/// white space.
pub open spec fn indexable(s: Seq<char>) -> bool {
    forall|i: int| 0 <= i < s.len() ==> unicode_alphanumeric(#[trigger] s[i]) || unicode_whitespace(s[i])
}

/// The words of a normalized query that the full-text index can take, or
/// `None` when it holds other characters or no word.
pub fn fts_tokens(normalized: &str) -> (tokens: Option<Vec<String>>)
    ensures
        tokens is None <==> (!indexable(normalized@) || words(normalized@).len() == 0),
        tokens matches Some(t) ==> t@.len() == words(normalized@).len() && forall|i: int|
            0 <= i < t@.len() ==> #[trigger] t@[i]@ == words(normalized@)[i],
{
    let chars = chars_of(normalized);
    let mut i: usize = 0;
    while i < chars.len()
        invariant
            chars@ == normalized@,
            i <= chars@.len(),
            forall|j: int| 0 <= j < i ==> unicode_alphanumeric(#[trigger] chars@[j]) || unicode_whitespace(chars@[j]),
        decreases chars@.len() - i,
    {
        let c = chars[i];
        if !char_is_alphanumeric(c) && !char_is_whitespace(c) {
            return None;
        }
        i += 1;
    }
    let ws = split_words(chars.as_slice());
    if ws.len() == 0 {
        return None;
    }
    let mut tokens: Vec<String> = Vec::new();
    let mut k: usize = 0;
    while k < ws.len()
        invariant
            k <= ws@.len(),
            ws@.len() == words(normalized@).len(),
            forall|j: int| 0 <= j < ws@.len() ==> #[trigger] ws@[j]@ == words(normalized@)[j],
            tokens@.len() == k,
            forall|j: int| 0 <= j < k ==> #[trigger] tokens@[j]@ == words(normalized@)[j],
        decreases ws@.len() - k,
    {
        tokens.push(string_from(ws[k].as_slice()));
        k += 1;
    }
    Some(tokens)
}

/// The 64-bit FNV-1a offset basis and prime.
pub const FNV_OFFSET: u64 = 0xcbf2_9ce4_8422_2325;
pub const FNV_PRIME: u64 = 0x0000_0100_0000_01b3;

/// FNV-1a of `bytes`, continuing from `hash`.
pub open spec fn fnv(hash: u64, bytes: Seq<u8>) -> u64
    decreases bytes.len(),
{
    if bytes.len() == 0 {
        hash
    } else {
        (fnv(hash, bytes.drop_last()) ^ (bytes.last() as u64)).wrapping_mul(FNV_PRIME)
    }
}

pub proof fn lemma_fnv_append(hash: u64, a: Seq<u8>, b: Seq<u8>)
    ensures
        fnv(hash, a + b) == fnv(fnv(hash, a), b),
    decreases b.len(),
{
    if b.len() == 0 {
        assert(a + b =~= a);
    } else {
        assert((a + b).drop_last() =~= a + b.drop_last());
        lemma_fnv_append(hash, a, b.drop_last());
    }
}

/// Continues FNV-1a over `bytes`.
pub fn fnv_extend(hash: u64, bytes: &[u8]) -> (h: u64)
    ensures
        h == fnv(hash, bytes@),
{
    let mut h = hash;
    let mut i: usize = 0;
    while i < bytes.len()
        invariant
            i <= bytes@.len(),
            h == fnv(hash, bytes@.take(i as int)),
        decreases bytes@.len() - i,
    {
        proof {
            assert(bytes@.take(i + 1).drop_last() =~= bytes@.take(i as int));
        }
        h = (h ^ (bytes[i] as u64)).wrapping_mul(FNV_PRIME);
        i += 1;
    }
    proof {
        assert(bytes@.take(bytes@.len() as int) =~= bytes@);
    }
    h
}

/// The bytes a fingerprint hashes for `values`: each one's UTF-8 bytes
/// followed by the separator 0xff.
pub open spec fn fingerprint_bytes(values: Seq<Seq<char>>) -> Seq<u8>
    decreases values.len(),
{
    if values.len() == 0 {
        Seq::empty()
    } else {
        fingerprint_bytes(values.drop_last()) + vstd::utf8::encode_utf8(values.last()) + seq![0xffu8]
    }
}

/// The values that identify a plan.
pub open spec fn plan_values(plan: SearchPlan) -> Seq<Seq<char>> {
    match plan {
        SearchPlan::Indexed { word_expression, trigram_expression, .. } => seq![
            "indexed"@,
            word_expression@,
            match trigram_expression {
                Some(t) => t@,
                None => Seq::empty(),
            },
        ],
        SearchPlan::Literal { pattern, .. } => seq!["literal"@, pattern@],
    }
}

fn fnv_value(hash: u64, value: &str) -> (h: u64)
    ensures
        h == fnv(hash, vstd::utf8::encode_utf8(value@) + seq![0xffu8]),
{
    let bytes = value.as_bytes();
    let h = fnv_extend(hash, bytes);
    proof {
        let e = vstd::utf8::encode_utf8(value@);
        assert((e + seq![0xffu8]).drop_last() =~= e);
        assert((e + seq![0xffu8]).last() == 0xffu8);
    }
    (h ^ 0xffu64).wrapping_mul(FNV_PRIME)
}

/// Identifies a plan, so a cursor made under another plan is refused.
pub fn plan_fingerprint(plan: &SearchPlan) -> (hash: u64)
    ensures
        hash == fnv(FNV_OFFSET, fingerprint_bytes(plan_values(*plan))),
{
    match plan {
        SearchPlan::Indexed { word_expression, trigram_expression, .. } => {
            let trigram: &str = match trigram_expression {
                Some(t) => t.as_str(),
                None => "",
            };
            let h1 = fnv_value(FNV_OFFSET, "indexed");
            let h2 = fnv_value(h1, word_expression.as_str());
            let h3 = fnv_value(h2, trigram);
            proof {
                let vals = plan_values(*plan);
                if trigram_expression is None {
                    reveal_strlit("");
                    assert(trigram@ =~= Seq::<char>::empty());
                }
                assert(vals[2] == trigram@);
                assert(vals.drop_last().drop_last().drop_last() =~= Seq::<Seq<char>>::empty());
                assert(fingerprint_bytes(Seq::<Seq<char>>::empty()) =~= Seq::<u8>::empty());
                assert(vals.drop_last().drop_last().last() == vals[0]);
                assert(vals.drop_last().last() == vals[1]);
                let e = vstd::utf8::encode_utf8(vals[0]) + seq![0xffu8];
                assert(fingerprint_bytes(vals.drop_last().drop_last()) =~= Seq::<u8>::empty() + e);
                lemma_fnv_append(FNV_OFFSET, Seq::<u8>::empty(), e);
                assert(Seq::<u8>::empty() + e =~= e);
                let b2 = fingerprint_bytes(vals.drop_last());
                assert(b2 =~= fingerprint_bytes(vals.drop_last().drop_last()) + (vstd::utf8::encode_utf8(vals[1]) + seq![0xffu8]));
                lemma_fnv_append(FNV_OFFSET, fingerprint_bytes(vals.drop_last().drop_last()), vstd::utf8::encode_utf8(vals[1]) + seq![0xffu8]);
                assert(fingerprint_bytes(vals) =~= b2 + (vstd::utf8::encode_utf8(vals[2]) + seq![0xffu8]));
                lemma_fnv_append(FNV_OFFSET, b2, vstd::utf8::encode_utf8(vals[2]) + seq![0xffu8]);
            }
            h3
        },
        SearchPlan::Literal { pattern, .. } => {
            let h1 = fnv_value(FNV_OFFSET, "literal");
            let h2 = fnv_value(h1, pattern.as_str());
            proof {
                let vals = plan_values(*plan);
                assert(vals.drop_last().drop_last() =~= Seq::<Seq<char>>::empty());
                assert(fingerprint_bytes(Seq::<Seq<char>>::empty()) =~= Seq::<u8>::empty());
                assert(vals.drop_last().last() == vals[0]);
                let e = vstd::utf8::encode_utf8(vals[0]) + seq![0xffu8];
                assert(fingerprint_bytes(vals.drop_last()) =~= Seq::<u8>::empty() + e);
                assert(Seq::<u8>::empty() + e =~= e);
                assert(fingerprint_bytes(vals) =~= e + (vstd::utf8::encode_utf8(vals[1]) + seq![0xffu8]));
                lemma_fnv_append(FNV_OFFSET, e, vstd::utf8::encode_utf8(vals[1]) + seq![0xffu8]);
            }
            h2
        },
    }
}

/// The bytes a query fingerprint hashes: the normalized query, the
/// separator, then the selected day's `YYYY-MM-DD` text, if any.
pub open spec fn query_bytes(normalized: Seq<char>, day: Option<Seq<char>>) -> Seq<u8> {
    vstd::utf8::encode_utf8(normalized) + seq![0xffu8] + match day {
        Some(d) => vstd::utf8::encode_utf8(d),
        None => Seq::empty(),
    }
}

/// Identifies a query and its day, so a cursor continues only the search
/// that made it.
pub fn query_fingerprint(normalized: &str, day: Option<&str>) -> (hash: u64)
    ensures
        hash == fnv(FNV_OFFSET, query_bytes(normalized@, match day {
            Some(d) => Some(d@),
            None => None,
        })),
{
    let h = fnv_value(FNV_OFFSET, normalized);
    let day_text: &str = match day {
        Some(d) => d,
        None => "",
    };
    let result = fnv_extend(h, day_text.as_bytes());
    proof {
        let head = vstd::utf8::encode_utf8(normalized@) + seq![0xffu8];
        lemma_fnv_append(FNV_OFFSET, head, vstd::utf8::encode_utf8(day_text@));
        if day is None {
            reveal_strlit("");
            assert(day_text@ =~= Seq::<char>::empty());
            assert(vstd::utf8::encode_utf8(day_text@) =~= Seq::<u8>::empty());
            assert(head + Seq::<u8>::empty() =~= head);
        }
    }
    result
}

/// One term of the full-text index's vocabulary: its text, how many
/// transcripts hold it, and its length in characters.
#[derive(Clone, Debug, PartialEq, Eq)]
pub struct VocabularyTerm {
    pub term: String,
    pub documents: u64,
    pub characters: usize,
}

/// The index of the first term that does not sort before `prefix`, which is
/// where terms starting with `prefix` begin in an alphabetical vocabulary.
pub open spec fn first_not_below(terms: Seq<VocabularyTerm>, prefix: Seq<u8>) -> int
    decreases terms.len(),
{
    if terms.len() == 0 {
        0
    } else if bytes_lt(encode_utf8(terms[0].term@), prefix) {
        1 + first_not_below(terms.drop_first(), prefix)
    } else {
        0
    }
}

/// The transcripts counted by the run of terms at the start of `terms` that
/// start with `prefix`.
pub open spec fn prefix_run_documents(terms: Seq<VocabularyTerm>, prefix: Seq<u8>) -> nat
    decreases terms.len(),
{
    if terms.len() == 0 || !bytes_prefix(prefix, encode_utf8(terms[0].term@)) {
        0
    } else {
        terms[0].documents as nat + prefix_run_documents(terms.drop_first(), prefix)
    }
}

pub open spec fn documents_sum(terms: Seq<VocabularyTerm>) -> nat
    decreases terms.len(),
{
    if terms.len() == 0 {
        0
    } else {
        documents_sum(terms.drop_last()) + terms.last().documents as nat
    }
}

pub open spec fn saturate(n: nat) -> u64 {
    if n > u64::MAX { u64::MAX } else { n as u64 }
}

/// How many transcripts hold a word starting with `prefix`, saturating at
/// `u64::MAX`: the documents of the terms from where `prefix` sorts on, as
/// long as they start with it.
pub open spec fn spec_prefix_documents(terms: Seq<VocabularyTerm>, prefix: Seq<u8>) -> u64 {
    let start = first_not_below(terms, prefix);
    saturate(prefix_run_documents(terms.skip(start), prefix))
}

pub proof fn lemma_first_not_below(terms: Seq<VocabularyTerm>, prefix: Seq<u8>, i: int)
    requires
        0 <= i <= terms.len(),
        forall|j: int| 0 <= j < i ==> bytes_lt(encode_utf8(#[trigger] terms[j].term@), prefix),
    ensures
        first_not_below(terms, prefix) == i + first_not_below(terms.skip(i), prefix),
    decreases i,
{
    if i > 0 {
        assert forall|j: int| 0 <= j < i - 1 implies bytes_lt(encode_utf8(#[trigger] terms.drop_first()[j].term@), prefix) by {
            assert(terms.drop_first()[j] == terms[j + 1]);
        }
        lemma_first_not_below(terms.drop_first(), prefix, i - 1);
        assert(terms.drop_first().skip(i - 1) =~= terms.skip(i));
    } else {
        assert(terms.skip(0) =~= terms);
    }
}

pub proof fn lemma_prefix_run(terms: Seq<VocabularyTerm>, prefix: Seq<u8>, p: int, i: int)
    requires
        0 <= p <= i <= terms.len(),
        forall|j: int| p <= j < i ==> bytes_prefix(prefix, encode_utf8(#[trigger] terms[j].term@)),
    ensures
        prefix_run_documents(terms.skip(p), prefix) == documents_sum(terms.subrange(p, i))
            + prefix_run_documents(terms.skip(i), prefix),
    decreases i - p,
{
    if i == p {
        assert(terms.subrange(p, i) =~= Seq::<VocabularyTerm>::empty());
    } else {
        lemma_prefix_run(terms, prefix, p, i - 1);
        let rest = terms.skip(i - 1);
        assert(rest[0] == terms[i - 1]);
        assert(rest.drop_first() =~= terms.skip(i));
        assert(terms.subrange(p, i).drop_last() =~= terms.subrange(p, i - 1));
    }
}

/// How many transcripts hold a word starting with `prefix`.
pub fn vocabulary_prefix_documents(vocabulary: &[VocabularyTerm], prefix: &str) -> (total: u64)
    ensures
        total == spec_prefix_documents(vocabulary@, encode_utf8(prefix@)),
{
    let ghost terms = vocabulary@;
    let ghost pb = encode_utf8(prefix@);
    let mut index: usize = 0;
    while index < vocabulary.len() && str_lt(vocabulary[index].term.as_str(), prefix)
        invariant
            terms == vocabulary@,
            pb == encode_utf8(prefix@),
            index <= terms.len(),
            forall|j: int| 0 <= j < index ==> bytes_lt(encode_utf8(#[trigger] terms[j].term@), pb),
        decreases terms.len() - index,
    {
        index += 1;
    }
    proof {
        lemma_first_not_below(terms, pb, index as int);
        let rest = terms.skip(index as int);
        if index < terms.len() {
            assert(rest[0] == terms[index as int]);
        }
        assert(first_not_below(rest, pb) == 0);
    }
    let mut total: u64 = 0;
    let mut i = index;
    proof {
        assert(terms.subrange(index as int, index as int) =~= Seq::<VocabularyTerm>::empty());
    }
    while i < vocabulary.len() && str_starts_with(vocabulary[i].term.as_str(), prefix)
        invariant
            terms == vocabulary@,
            pb == encode_utf8(prefix@),
            index <= i <= terms.len(),
            first_not_below(terms, pb) == index,
            forall|j: int| index <= j < i ==> bytes_prefix(pb, encode_utf8(#[trigger] terms[j].term@)),
            total == saturate(documents_sum(terms.subrange(index as int, i as int))),
        decreases terms.len() - i,
    {
        proof {
            assert(terms.subrange(index as int, i + 1).drop_last() =~= terms.subrange(index as int, i as int));
        }
        total = total.saturating_add(vocabulary[i].documents);
        i += 1;
    }
    proof {
        lemma_prefix_run(terms, pb, index as int, i as int);
        let rest = terms.skip(i as int);
        if i < terms.len() {
            assert(rest[0] == terms[i as int]);
        }
        assert(prefix_run_documents(rest, pb) == 0);
    }
    total
}

/// A possible correction of a query word: its distance from the word, the
/// transcripts that hold it, and its text.
pub type CorrectionView = (nat, u64, Seq<char>);

/// The order corrections are preferred in: nearer first, then the more
/// common, then alphabetical.
pub open spec fn correction_lt(a: CorrectionView, b: CorrectionView) -> bool {
    a.0 < b.0 || (a.0 == b.0 && (a.1 > b.1 || (a.1 == b.1 && bytes_lt(encode_utf8(a.2), encode_utf8(b.2)))))
}

/// The edits a correction of a word `characters` long may need.
pub open spec fn max_distance(characters: nat) -> nat {
    if characters <= 5 { 1 } else { 2 }
}

/// How many transcripts a correction must appear in: one when the word
/// itself appears in none, three times its own count otherwise.
pub open spec fn correction_threshold(word_documents: u64) -> nat {
    if word_documents == 0 {
        1
    } else if word_documents * 3 > u64::MAX {
        u64::MAX as nat
    } else {
        (word_documents * 3) as nat
    }
}

/// Whether `term` may correct `token`: about as long, common enough, and
/// within the word's edit distance.
pub open spec fn is_correction(term: VocabularyTerm, token: Seq<char>, word_documents: u64) -> bool {
    let c = token.len();
    let d = max_distance(c);
    &&& term.characters + d >= c
    &&& term.characters <= c + d
    &&& term.documents >= correction_threshold(word_documents)
    &&& osa_full(token, term.term@) <= d
}

/// The corrections of `token` among `terms`, in vocabulary order.
pub open spec fn candidates(terms: Seq<VocabularyTerm>, token: Seq<char>, word_documents: u64) -> Seq<CorrectionView>
    decreases terms.len(),
{
    if terms.len() == 0 {
        Seq::empty()
    } else {
        let rest = candidates(terms.drop_last(), token, word_documents);
        let t = terms.last();
        if is_correction(t, token, word_documents) {
            rest.push((osa_full(token, t.term@), t.documents, t.term@))
        } else {
            rest
        }
    }
}

/// The index of the first least correction of `cs`.
pub open spec fn least_index(cs: Seq<CorrectionView>) -> int
    decreases cs.len(),
{
    if cs.len() <= 1 {
        0
    } else {
        let k = least_index(cs.drop_last());
        if correction_lt(cs.last(), cs[k]) { cs.len() - 1 } else { k }
    }
}

pub proof fn lemma_least_index_bounds(cs: Seq<CorrectionView>)
    ensures
        cs.len() > 0 ==> 0 <= least_index(cs) < cs.len(),
    decreases cs.len(),
{
    if cs.len() > 1 {
        lemma_least_index_bounds(cs.drop_last());
    }
}

/// The `k` most preferred corrections of `cs`, best first: the least one,
/// the earliest on a tie, then the most preferred of the rest.
pub open spec fn smallest(cs: Seq<CorrectionView>, k: nat) -> Seq<CorrectionView>
    decreases k,
{
    if k == 0 || cs.len() == 0 {
        Seq::empty()
    } else {
        let m = least_index(cs);
        seq![cs[m]] + smallest(cs.remove(m), (k - 1) as nat)
    }
}

/// `x` is preferred at least as much as `y`: nearer; or as near and in
/// more transcripts; or as near, in as many, and not after `y` in byte
/// order.
pub open spec fn at_least_as_preferred(x: CorrectionView, y: CorrectionView) -> bool {
    ||| x.0 < y.0
    ||| x.0 == y.0 && x.1 > y.1
    ||| x.0 == y.0 && x.1 == y.1 && !bytes_lt(encode_utf8(y.2), encode_utf8(x.2))
}

/// The first least correction is nearer than every other, or as near and
/// at least as common.
proof fn lemma_preference_order(x: CorrectionView, y: CorrectionView, z: CorrectionView)
    ensures
        at_least_as_preferred(x, x),
        correction_lt(x, y) ==> at_least_as_preferred(x, y),
        !correction_lt(y, x) ==> at_least_as_preferred(x, y),
        at_least_as_preferred(x, y) && at_least_as_preferred(y, z) ==> at_least_as_preferred(x, z),
{
    let (a, b, c) = (encode_utf8(x.2), encode_utf8(y.2), encode_utf8(z.2));
    crate::text::lemma_bytes_order(a, b, c);
    crate::text::lemma_bytes_order(b, c, a);
    crate::text::lemma_bytes_order(c, a, b);
    crate::text::lemma_bytes_order(b, a, c);
    crate::text::lemma_bytes_order(a, c, b);
    crate::text::lemma_bytes_order(c, b, a);
}

/// The first least correction is preferred at least as much as every one.
proof fn lemma_least_is_preferred(cs: Seq<CorrectionView>)
    requires
        cs.len() > 0,
    ensures
        0 <= least_index(cs) < cs.len(),
        forall|j: int| 0 <= j < cs.len() ==> at_least_as_preferred(cs[least_index(cs)], #[trigger] cs[j]),
    decreases cs.len(),
{
    lemma_least_index_bounds(cs);
    if cs.len() <= 1 {
        lemma_preference_order(cs[0], cs[0], cs[0]);
    } else {
        let rest = cs.drop_last();
        lemma_least_is_preferred(rest);
        let k = least_index(rest);
        let last = cs.last();
        assert(cs[k] == rest[k]);
        assert forall|j: int| 0 <= j < cs.len() implies at_least_as_preferred(cs[least_index(cs)], #[trigger] cs[j]) by {
            lemma_preference_order(last, cs[k], cs[j]);
            lemma_preference_order(cs[k], last, cs[j]);
            if j < cs.len() - 1 {
                assert(cs[j] == rest[j]);
                assert(at_least_as_preferred(rest[k], rest[j]));
            }
        }
    }
}

/// The `k` most preferred corrections: as many as asked for or as there
/// are, each taken from `cs`, best first by distance, then by how many
/// transcripts hold them, then in byte order; and none left out while a
/// farther correction, or one as near and less common, is taken.
pub proof fn lemma_most_preferred_corrections(cs: Seq<CorrectionView>, k: nat)
    ensures
        smallest(cs, k).len() == if k <= cs.len() { k } else { cs.len() },
        forall|x: int| 0 <= x < smallest(cs, k).len() ==> cs.contains(#[trigger] smallest(cs, k)[x]),
        forall|x: int, y: int| 0 <= x < y < smallest(cs, k).len() ==> at_least_as_preferred(
            #[trigger] smallest(cs, k)[x],
            #[trigger] smallest(cs, k)[y],
        ),
        forall|x: int, j: int| 0 <= x < smallest(cs, k).len() && 0 <= j < cs.len() && !smallest(cs, k).contains(
            #[trigger] cs[j],
        ) ==> at_least_as_preferred(#[trigger] smallest(cs, k)[x], cs[j]),
    decreases k,
{
    if k > 0 && cs.len() > 0 {
        let m = least_index(cs);
        lemma_least_is_preferred(cs);
        let rest = cs.remove(m);
        lemma_most_preferred_corrections(rest, (k - 1) as nat);
        let tail = smallest(rest, (k - 1) as nat);
        let s = smallest(cs, k);
        assert(s == seq![cs[m]] + tail);
        assert forall|i: int| 0 <= i < rest.len() implies cs.contains(#[trigger] rest[i]) by {
            if i < m {
                assert(rest[i] == cs[i]);
            } else {
                assert(rest[i] == cs[i + 1]);
            }
        }
        assert forall|x: int| 0 <= x < s.len() implies cs.contains(#[trigger] s[x]) by {
            if x > 0 {
                assert(s[x] == tail[x - 1]);
                assert(rest.contains(tail[x - 1]));
                let i = choose|i: int| 0 <= i < rest.len() && rest[i] == tail[x - 1];
                assert(cs.contains(rest[i]));
            }
        }
        assert forall|x: int, y: int| 0 <= x < y < s.len() implies at_least_as_preferred(#[trigger] s[x], #[trigger] s[y]) by {
            assert(s[y] == tail[y - 1]);
            if x == 0 {
                let i = choose|i: int| 0 <= i < rest.len() && rest[i] == tail[y - 1];
                if i < m {
                    assert(rest[i] == cs[i]);
                } else {
                    assert(rest[i] == cs[i + 1]);
                }
            } else {
                assert(s[x] == tail[x - 1]);
            }
        }
        assert forall|x: int, j: int| 0 <= x < s.len() && 0 <= j < cs.len() && !s.contains(#[trigger] cs[j]) implies at_least_as_preferred(#[trigger] s[x], cs[j]) by {
            assert(s[0] == cs[m]);
            assert(j != m);
            let i = if j < m { j } else { j - 1 };
            assert(rest[i] == cs[j]);
            if x > 0 {
                assert(s[x] == tail[x - 1]);
                if tail.contains(cs[j]) {
                    let q = choose|q: int| 0 <= q < tail.len() && tail[q] == cs[j];
                    assert(s[q + 1] == cs[j]);
                }
                assert(!tail.contains(rest[i]));
            }
        }
    }
}

/// Among the corrections of a query word, search offers the three most
/// preferred: a correction is left out only when every one offered is
/// nearer, or as near and in more transcripts, or as near, in as many and
/// not after it in byte order; those offered come best first, each a real
/// candidate of the word.
pub proof fn lemma_corrections_prefer_common_terms(token: Seq<char>, terms: Seq<VocabularyTerm>)
    ensures
        ({
            let word_documents = spec_prefix_documents(terms, encode_utf8(token));
            let cs = candidates(terms, token, word_documents);
            let offered = smallest(cs, MAX_CORRECTIONS_PER_TOKEN as nat);
            &&& offered.len() == if cs.len() >= 3 { 3 } else { cs.len() }
            &&& forall|x: int| 0 <= x < offered.len() ==> cs.contains(#[trigger] offered[x])
            &&& forall|x: int, y: int| 0 <= x < y < offered.len() ==> at_least_as_preferred(
                #[trigger] offered[x],
                #[trigger] offered[y],
            )
            &&& forall|x: int, j: int| 0 <= x < offered.len() && 0 <= j < cs.len() && !offered.contains(
                #[trigger] cs[j],
            ) ==> at_least_as_preferred(#[trigger] offered[x], cs[j])
            &&& token.len() >= 3 && word_documents <= 1 ==> spec_alternatives(token, terms) == dedup(
                seq![token] + offered.map_values(|c: CorrectionView| c.2),
            )
        }),
{
    let word_documents = spec_prefix_documents(terms, encode_utf8(token));
    lemma_most_preferred_corrections(candidates(terms, token, word_documents), MAX_CORRECTIONS_PER_TOKEN as nat);
}

/// `s` without consecutive repeats (`Vec::dedup`).
pub open spec fn dedup<A>(s: Seq<A>) -> Seq<A>
    decreases s.len(),
{
    if s.len() == 0 {
        s
    } else if s.len() >= 2 && s[s.len() - 1] == s[s.len() - 2] {
        dedup(s.drop_last())
    } else {
        dedup(s.drop_last()).push(s.last())
    }
}

/// What search accepts for one query word: the word, then, for a rare word
/// of three or more characters, its three most preferred corrections,
/// without consecutive repeats.
pub open spec fn spec_alternatives(token: Seq<char>, terms: Seq<VocabularyTerm>) -> Seq<Seq<char>> {
    let word_documents = spec_prefix_documents(terms, encode_utf8(token));
    if token.len() >= 3 && word_documents <= 1 {
        dedup(
            seq![token] + smallest(candidates(terms, token, word_documents), MAX_CORRECTIONS_PER_TOKEN as nat).map_values(
                |c: CorrectionView| c.2,
            ),
        )
    } else {
        seq![token]
    }
}

/// `s` with each `"` doubled, as FTS5 quotes strings.
pub open spec fn doubled_quotes(s: Seq<char>) -> Seq<char>
    decreases s.len(),
{
    if s.len() == 0 {
        s
    } else {
        doubled_quotes(s.drop_last()) + if s.last() == '"' { seq!['"', '"'] } else { seq![s.last()] }
    }
}

/// An FTS5 string of `alternative`, a prefix query when `prefix`.
pub open spec fn quoted(alternative: Seq<char>, prefix: bool) -> Seq<char> {
    seq!['"'] + doubled_quotes(alternative) + seq!['"'] + if prefix { seq!['*'] } else { Seq::empty() }
}

/// The parts of `list` with `sep` between each two.
pub open spec fn join_with(list: Seq<Seq<char>>, sep: Seq<char>) -> Seq<char>
    decreases list.len(),
{
    if list.len() == 0 {
        Seq::empty()
    } else if list.len() == 1 {
        list[0]
    } else {
        join_with(list.drop_last(), sep) + sep + list.last()
    }
}

/// One word's group: any of its alternatives, in parentheses.
pub open spec fn group(alternatives: Seq<Seq<char>>, prefix: bool) -> Seq<char> {
    seq!['('] + join_with(alternatives.map_values(|a: Seq<char>| quoted(a, prefix)), " OR "@) + seq![')']
}

/// Whether every word is long enough for trigram matching.
pub open spec fn supports_trigram(tokens: Seq<Seq<char>>) -> bool {
    forall|i: int| 0 <= i < tokens.len() ==> (#[trigger] tokens[i]).len() >= 3
}

pub open spec fn flatten(lists: Seq<Seq<Seq<char>>>) -> Seq<Seq<char>>
    decreases lists.len(),
{
    if lists.len() == 0 {
        Seq::empty()
    } else {
        flatten(lists.drop_last()) + lists.last()
    }
}

/// Whether search uses the full-text index for `normalized`.
pub open spec fn uses_index(normalized: Seq<char>, index_ready: bool) -> bool {
    normalized.len() > 0 && index_ready && indexable(normalized) && words(normalized).len() > 0
}

/// The alternatives of each word of `normalized`.
pub open spec fn all_alternatives(normalized: Seq<char>, terms: Seq<VocabularyTerm>) -> Seq<Seq<Seq<char>>> {
    words(normalized).map_values(|t: Seq<char>| spec_alternatives(t, terms))
}

pub open spec fn spec_word_expression(normalized: Seq<char>, terms: Seq<VocabularyTerm>) -> Seq<char> {
    join_with(all_alternatives(normalized, terms).map_values(|a: Seq<Seq<char>>| group(a, true)), " AND "@)
}

pub open spec fn spec_trigram_expression(normalized: Seq<char>, terms: Seq<VocabularyTerm>) -> Option<Seq<char>> {
    if supports_trigram(words(normalized)) {
        Some(join_with(all_alternatives(normalized, terms).map_values(|a: Seq<Seq<char>>| group(a, false)), " AND "@))
    } else {
        None
    }
}

/// The texts of `v`.
pub open spec fn views(v: Seq<String>) -> Seq<Seq<char>> {
    v.map_values(|s: String| s@)
}

fn push_str(out: &mut String, s: &str)
    ensures
        final(out)@ == old(out)@ + s@,
{
    out.append(s);
}

/// Appends the FTS5 string of `alternative`.
fn push_quoted(out: &mut String, alternative: &str, prefix: bool)
    ensures
        final(out)@ == old(out)@ + quoted(alternative@, prefix),
{
    let chars = chars_of(alternative);
    push_char(out, '"');
    let ghost head = out@;
    let mut i: usize = 0;
    while i < chars.len()
        invariant
            i <= chars@.len(),
            chars@ == alternative@,
            out@ == head + doubled_quotes(chars@.take(i as int)),
        decreases chars@.len() - i,
    {
        proof {
            assert(chars@.take(i + 1).drop_last() =~= chars@.take(i as int));
        }
        if chars[i] == '"' {
            push_char(out, '"');
            push_char(out, '"');
        } else {
            push_char(out, chars[i]);
        }
        proof {
            assert(out@ =~= head + doubled_quotes(chars@.take(i + 1)));
        }
        i += 1;
    }
    proof {
        assert(chars@.take(chars@.len() as int) =~= chars@);
    }
    push_char(out, '"');
    if prefix {
        push_char(out, '*');
    }
    proof {
        assert(out@ =~= old(out)@ + quoted(alternative@, prefix));
    }
}

/// The parts of `parts` with `sep` between each two.
pub fn join_strings(parts: &Vec<String>, sep: &str) -> (joined_text: String)
    ensures
        joined_text@ == join_with(views(parts@), sep@),
{
    let ghost vs = views(parts@);
    let mut out = String::new();
    let mut i: usize = 0;
    while i < parts.len()
        invariant
            i <= parts@.len(),
            vs == views(parts@),
            out@ == join_with(vs.take(i as int), sep@),
        decreases parts@.len() - i,
    {
        proof {
            assert(vs.take(i + 1).drop_last() =~= vs.take(i as int));
            assert(vs.take(i + 1).last() == parts@[i as int]@);
        }
        if i > 0 {
            push_str(&mut out, sep);
        } else {
            proof {
                assert(Seq::<char>::empty() + parts@[0]@ =~= parts@[0]@);
            }
        }
        push_str(&mut out, parts[i].as_str());
        proof {
            if i > 0 {
                assert(out@ =~= join_with(vs.take(i as int), sep@) + sep@ + parts@[i as int]@);
            } else {
                assert(vs.take(1)[0] == parts@[0]@);
            }
        }
        i += 1;
    }
    proof {
        assert(vs.take(parts@.len() as int) =~= vs);
    }
    out
}

/// One word's group of alternatives.
pub fn group_string(alternatives: &Vec<String>, prefix: bool) -> (text: String)
    ensures
        text@ == group(views(alternatives@), prefix),
{
    let mut quoted_parts: Vec<String> = Vec::new();
    let mut i: usize = 0;
    while i < alternatives.len()
        invariant
            i <= alternatives@.len(),
            quoted_parts@.len() == i,
            forall|j: int| 0 <= j < i ==> #[trigger] quoted_parts@[j]@ == quoted(alternatives@[j]@, prefix),
        decreases alternatives@.len() - i,
    {
        let mut q = String::new();
        push_quoted(&mut q, alternatives[i].as_str(), prefix);
        proof {
            assert(q@ =~= quoted(alternatives@[i as int]@, prefix));
        }
        quoted_parts.push(q);
        i += 1;
    }
    let inner = join_strings(&quoted_parts, " OR ");
    proof {
        assert(views(quoted_parts@) =~= views(alternatives@).map_values(|a: Seq<char>| quoted(a, prefix)));
    }
    let mut text = String::new();
    push_char(&mut text, '(');
    push_str(&mut text, inner.as_str());
    push_char(&mut text, ')');
    proof {
        assert(text@ =~= group(views(alternatives@), prefix));
    }
    text
}

/// `v` without consecutive repeats.
pub fn dedup_strings(v: &Vec<String>) -> (r: Vec<String>)
    ensures
        views(r@) == dedup(views(v@)),
{
    let ghost vs = views(v@);
    let mut r: Vec<String> = Vec::new();
    let mut i: usize = 0;
    while i < v.len()
        invariant
            i <= v@.len(),
            vs == views(v@),
            views(r@) == dedup(vs.take(i as int)),
        decreases v@.len() - i,
    {
        let ghost t = vs.take(i + 1);
        proof {
            assert(t.drop_last() =~= vs.take(i as int));
            assert(t.last() == v@[i as int]@);
            if i >= 1 {
                assert(t[t.len() - 2] == v@[i - 1]@);
            }
        }
        if i > 0 && crate::text::str_eq(v[i].as_str(), v[i - 1].as_str()) {
        } else {
            r.push(v[i].clone());
            proof {
                assert(views(r@) =~= dedup(vs.take(i as int)).push(v@[i as int]@));
            }
        }
        i += 1;
    }
    proof {
        assert(vs.take(v@.len() as int) =~= vs);
    }
    r
}

/// A correction the search may use.
#[derive(Debug)]
pub struct Correction {
    pub distance: usize,
    pub documents: u64,
    pub term: String,
}

pub open spec fn correction_view(c: Correction) -> CorrectionView {
    (c.distance as nat, c.documents, c.term@)
}

pub open spec fn correction_views(cs: Seq<Correction>) -> Seq<CorrectionView> {
    cs.map_values(|c: Correction| correction_view(c))
}

/// Whether `a` is preferred to `b`.
fn correction_before(a: &Correction, b: &Correction) -> (r: bool)
    ensures
        r == correction_lt(correction_view(*a), correction_view(*b)),
{
    if a.distance != b.distance {
        a.distance < b.distance
    } else if a.documents != b.documents {
        a.documents > b.documents
    } else {
        crate::text::str_lt(a.term.as_str(), b.term.as_str())
    }
}

/// The index of the first least correction of `cs`.
fn least_correction(cs: &Vec<Correction>) -> (m: usize)
    requires
        cs@.len() > 0,
    ensures
        m == least_index(correction_views(cs@)),
        m < cs@.len(),
{
    let ghost vs = correction_views(cs@);
    let mut m: usize = 0;
    let mut i: usize = 1;
    proof {
        assert(vs.take(1).len() == 1);
    }
    while i < cs.len()
        invariant
            1 <= i <= cs@.len(),
            vs == correction_views(cs@),
            m < i,
            m == least_index(vs.take(i as int)),
        decreases cs@.len() - i,
    {
        proof {
            let t = vs.take(i + 1);
            assert(t.drop_last() =~= vs.take(i as int));
            assert(t.last() == vs[i as int]);
            lemma_least_index_bounds(vs.take(i as int));
            assert(t[m as int] == vs[m as int]);
        }
        if correction_before(&cs[i], &cs[m]) {
            m = i;
        }
        i += 1;
    }
    proof {
        assert(vs.take(cs@.len() as int) =~= vs);
    }
    m
}

/// The terms of the `k` most preferred corrections, best first.
fn most_preferred(cs: Vec<Correction>, k: usize) -> (terms: Vec<String>)
    ensures
        views(terms@) == smallest(correction_views(cs@), k as nat).map_values(|c: CorrectionView| c.2),
{
    let mut rest = cs;
    let mut terms: Vec<String> = Vec::new();
    let ghost initial = correction_views(rest@);
    let mut taken: usize = 0;
    proof {
        assert(smallest(initial, k as nat) =~= Seq::<CorrectionView>::empty() + smallest(correction_views(rest@), (k - 0) as nat));
    }
    while taken < k && rest.len() > 0
        invariant
            taken <= k,
            smallest(initial, k as nat).map_values(|c: CorrectionView| c.2) == views(terms@) + smallest(
                correction_views(rest@),
                (k - taken) as nat,
            ).map_values(|c: CorrectionView| c.2),
        decreases k - taken,
    {
        let m = least_correction(&rest);
        let ghost before = correction_views(rest@);
        let chosen = rest.remove(m);
        proof {
            assert(correction_views(rest@) =~= before.remove(m as int));
            let tail = smallest(before.remove(m as int), (k - taken - 1) as nat);
            assert(smallest(before, (k - taken) as nat) == seq![before[m as int]] + tail);
            assert((seq![before[m as int]] + tail).map_values(|c: CorrectionView| c.2) =~= seq![chosen.term@] + tail.map_values(|c: CorrectionView| c.2));
        }
        let ghost old_terms = views(terms@);
        terms.push(chosen.term);
        proof {
            assert(views(terms@) =~= old_terms.push(before[m as int].2));
        }
        taken += 1;
    }
    proof {
        assert(smallest(correction_views(rest@), (k - taken) as nat) =~= Seq::<CorrectionView>::empty());
        assert(views(terms@) + Seq::<Seq<char>>::empty() =~= views(terms@));
    }
    terms
}

/// Every term of `vocabulary` shorter than the machine's largest count.
pub open spec fn measurable(vocabulary: Seq<VocabularyTerm>) -> bool {
    forall|i: int| 0 <= i < vocabulary.len() ==> (#[trigger] vocabulary[i]).term@.len() < usize::MAX
}

/// The corrections of `token` among `vocabulary`, in vocabulary order.
fn corrections_of(vocabulary: &[VocabularyTerm], token: &str, word_documents: u64) -> (cs: Vec<Correction>)
    requires
        token@.len() < usize::MAX,
        measurable(vocabulary@),
    ensures
        correction_views(cs@) == candidates(vocabulary@, token@, word_documents),
{
    let characters = chars_of(token).len();
    let maximum_distance: usize = if characters <= 5 { 1 } else { 2 };
    let minimum_documents: u64 = if word_documents == 0 {
        1
    } else if word_documents > u64::MAX / 3 {
        u64::MAX
    } else {
        word_documents * 3
    };
    let lowest = characters.saturating_sub(maximum_distance);
    let highest = characters.saturating_add(maximum_distance);
    let mut cs: Vec<Correction> = Vec::new();
    let mut i: usize = 0;
    while i < vocabulary.len()
        invariant
            i <= vocabulary@.len(),
            token@.len() < usize::MAX,
            measurable(vocabulary@),
            characters == token@.len(),
            maximum_distance == max_distance(characters as nat),
            minimum_documents == correction_threshold(word_documents),
            lowest == if characters >= maximum_distance { characters - maximum_distance } else { 0 },
            highest == if characters + maximum_distance > usize::MAX { usize::MAX as int } else { characters + maximum_distance },
            correction_views(cs@) == candidates(vocabulary@.take(i as int), token@, word_documents),
        decreases vocabulary@.len() - i,
    {
        let term = &vocabulary[i];
        proof {
            assert(vocabulary@.take(i + 1).drop_last() =~= vocabulary@.take(i as int));
            assert(vocabulary@.take(i + 1).last() == vocabulary@[i as int]);
            assert(vocabulary@[i as int].term@.len() < usize::MAX);
        }
        if lowest <= term.characters && term.characters <= highest && term.documents >= minimum_documents {
            let distance = osa_distance(token, term.term.as_str());
            if distance <= maximum_distance {
                let ghost before = correction_views(cs@);
                cs.push(Correction { distance, documents: term.documents, term: term.term.clone() });
                proof {
                    assert(correction_views(cs@) =~= before.push((distance as nat, term.documents, term.term@)));
                }
            }
        }
        i += 1;
    }
    proof {
        assert(vocabulary@.take(vocabulary@.len() as int) =~= vocabulary@);
    }
    cs
}

/// What search accepts for one query word: the word and, for a rare word
/// of three or more characters, its three most preferred corrections.
pub fn alternatives(token: &str, vocabulary: &[VocabularyTerm]) -> (alts: Vec<String>)
    requires
        token@.len() < usize::MAX,
        measurable(vocabulary@),
    ensures
        views(alts@) == spec_alternatives(token@, vocabulary@),
{
    let word_documents = vocabulary_prefix_documents(vocabulary, token);
    let characters = chars_of(token).len();
    let mut all: Vec<String> = Vec::new();
    all.push(token.to_owned());
    if characters >= 3 && word_documents <= 1 {
        let cs = corrections_of(vocabulary, token, word_documents);
        let terms = most_preferred(cs, MAX_CORRECTIONS_PER_TOKEN);
        let mut i: usize = 0;
        let ghost head = views(all@);
        while i < terms.len()
            invariant
                i <= terms@.len(),
                all@.len() == 1 + i,
                views(all@) == head + views(terms@).take(i as int),
            decreases terms@.len() - i,
        {
            let ghost prev = all@;
            let item = terms[i].clone();
            all.push(item);
            proof {
                assert(all@ == prev.push(item));
                assert(views(all@) =~= views(prev).push(item@));
                assert(views(terms@).take(i + 1) =~= views(terms@).take(i as int).push(terms@[i as int]@));
                assert(views(all@) =~= head + views(terms@).take(i + 1));
            }
            i += 1;
        }
        proof {
            assert(views(terms@).take(terms@.len() as int) =~= views(terms@));
            assert(head =~= seq![token@]);
        }
        dedup_strings(&all)
    } else {
        proof {
            assert(views(all@) =~= seq![token@]);
        }
        all
    }
}

pub proof fn lemma_word_lengths(s: Seq<char>)
    ensures
        forall|i: int| 0 <= i < words(s).len() ==> (#[trigger] words(s)[i]).len() <= s.len(),
    decreases s.len(),
{
    if s.len() > 0 {
        if crate::text::unicode_whitespace(s[0]) {
            lemma_word_lengths(s.drop_first());
            assert(words(s) == words(s.drop_first()));
        } else {
            crate::text::lemma_run_len_bound(s);
            let k = crate::text::run_len(s) as int;
            lemma_word_lengths(s.skip(k));
            let ws = words(s);
            assert(ws == seq![s.take(k)] + words(s.skip(k)));
            assert forall|i: int| 0 <= i < ws.len() implies (#[trigger] ws[i]).len() <= s.len() by {
                if i > 0 {
                    assert(ws[i] == words(s.skip(k))[i - 1]);
                    assert(words(s.skip(k))[i - 1].len() <= s.skip(k).len());
                } else {
                    assert(ws[0] == s.take(k));
                }
            }
        }
    }
}

/// Plans a search for a normalized query against the index's vocabulary.
/// A blank query, an index that is not ready, or a query with characters
/// other than letters, digits and white space is matched literally.
/// Otherwise every word must match, as one of its alternatives.
pub fn build_search_plan(normalized: &str, index_ready: bool, vocabulary: &[VocabularyTerm]) -> (plan: SearchPlan)
    requires
        normalized@.len() < usize::MAX,
        measurable(vocabulary@),
    ensures
        !uses_index(normalized@, index_ready) ==> (plan matches SearchPlan::Literal { pattern, preview_terms }
            && pattern@ == spec_literal_pattern(normalized@) && views(preview_terms@) == (if normalized@.len() == 0 {
            Seq::<Seq<char>>::empty()
        } else {
            seq![normalized@]
        })),
        uses_index(normalized@, index_ready) ==> (plan matches SearchPlan::Indexed {
            word_expression,
            trigram_expression,
            preview_terms,
        } && word_expression@ == spec_word_expression(normalized@, vocabulary@) && match trigram_expression {
            Some(t) => spec_trigram_expression(normalized@, vocabulary@) == Some(t@),
            None => spec_trigram_expression(normalized@, vocabulary@) is None,
        } && views(preview_terms@) == flatten(all_alternatives(normalized@, vocabulary@))),
{
    let chars = chars_of(normalized);
    if chars.len() == 0 || !index_ready {
        let plan = literal_plan(normalized);
        proof {
            if let SearchPlan::Literal { pattern, preview_terms } = &plan {
                if normalized@.len() == 0 {
                    assert(views(preview_terms@) =~= Seq::<Seq<char>>::empty());
                } else {
                    assert(views(preview_terms@) =~= seq![normalized@]);
                }
            }
        }
        return plan;
    }
    let tokens = match fts_tokens(normalized) {
        Some(tokens) => tokens,
        None => {
            let plan = literal_plan(normalized);
            proof {
                if let SearchPlan::Literal { pattern, preview_terms } = &plan {
                    assert(views(preview_terms@) =~= seq![normalized@]);
                }
            }
            return plan;
        },
    };
    let ghost ws = words(normalized@);
    let ghost alts_all = all_alternatives(normalized@, vocabulary@);
    proof {
        lemma_word_lengths(normalized@);
    }
    let mut supports = true;
    let mut preview_terms: Vec<String> = Vec::new();
    let mut word_groups: Vec<String> = Vec::new();
    let mut trigram_groups: Vec<String> = Vec::new();
    let mut i: usize = 0;
    proof {
        assert(alts_all.take(0) =~= Seq::<Seq<Seq<char>>>::empty());
    }
    while i < tokens.len()
        invariant
            i <= tokens@.len(),
            tokens@.len() == ws.len(),
            ws == words(normalized@),
            alts_all == all_alternatives(normalized@, vocabulary@),
            normalized@.len() < usize::MAX,
            measurable(vocabulary@),
            forall|j: int| 0 <= j < tokens@.len() ==> #[trigger] tokens@[j]@ == ws[j],
            forall|j: int| 0 <= j < ws.len() ==> (#[trigger] ws[j]).len() <= normalized@.len(),
            supports == supports_trigram(ws.take(i as int)),
            views(preview_terms@) == flatten(alts_all.take(i as int)),
            views(word_groups@) == alts_all.take(i as int).map_values(|a: Seq<Seq<char>>| group(a, true)),
            views(trigram_groups@) == alts_all.take(i as int).map_values(|a: Seq<Seq<char>>| group(a, false)),
        decreases tokens@.len() - i,
    {
        let token = tokens[i].as_str();
        proof {
            assert(tokens@[i as int]@ == ws[i as int]);
            assert(ws[i as int].len() <= normalized@.len());
        }
        let alts = alternatives(token, vocabulary);
        proof {
            assert(alts_all[i as int] == spec_alternatives(ws[i as int], vocabulary@));
            assert(views(alts@) == alts_all[i as int]);
        }
        if chars_of(token).len() < 3 {
            supports = false;
        }
        proof {
            assert(ws.take(i + 1).drop_last() =~= ws.take(i as int));
            let t = ws.take(i + 1);
            if supports_trigram(t) {
                assert(t[i as int] == ws[i as int]);
            }
            assert(supports == supports_trigram(t)) by {
                if supports {
                    assert forall|j: int| 0 <= j < t.len() implies (#[trigger] t[j]).len() >= 3 by {
                        if j < i {
                            assert(t[j] == ws.take(i as int)[j]);
                        }
                    }
                } else {
                    if !supports_trigram(ws.take(i as int)) {
                        let j = choose|j: int| 0 <= j < i && (#[trigger] ws.take(i as int)[j]).len() < 3;
                        assert(t[j] == ws.take(i as int)[j]);
                    } else {
                        assert(t[i as int] == ws[i as int]);
                    }
                }
            }
        }
        let ghost prev_preview = views(preview_terms@);
        let mut k: usize = 0;
        while k < alts.len()
            invariant
                k <= alts@.len(),
                views(preview_terms@) == prev_preview + views(alts@).take(k as int),
            decreases alts@.len() - k,
        {
            let ghost before = preview_terms@;
            let item = alts[k].clone();
            preview_terms.push(item);
            proof {
                assert(views(preview_terms@) =~= views(before).push(item@));
                assert(views(alts@).take(k + 1) =~= views(alts@).take(k as int).push(alts@[k as int]@));
                assert(views(preview_terms@) =~= prev_preview + views(alts@).take(k + 1));
            }
            k += 1;
        }
        let ghost prev_words = views(word_groups@);
        let ghost prev_trigrams = views(trigram_groups@);
        let w = group_string(&alts, true);
        let g = group_string(&alts, false);
        word_groups.push(w);
        trigram_groups.push(g);
        proof {
            assert(views(alts@).take(alts@.len() as int) =~= views(alts@));
            let taken = alts_all.take(i + 1);
            assert(taken.drop_last() =~= alts_all.take(i as int));
            assert(taken.last() == alts_all[i as int]);
            assert(views(preview_terms@) =~= flatten(taken));
            assert(views(word_groups@) =~= prev_words.push(w@));
            assert(views(word_groups@) =~= taken.map_values(|a: Seq<Seq<char>>| group(a, true)));
            assert(views(trigram_groups@) =~= prev_trigrams.push(g@));
            assert(views(trigram_groups@) =~= taken.map_values(|a: Seq<Seq<char>>| group(a, false)));
        }
        i += 1;
    }
    proof {
        assert(ws.take(ws.len() as int) =~= ws);
        assert(alts_all.take(alts_all.len() as int) =~= alts_all);
        assert(alts_all.len() == ws.len());
    }
    let word_expression = join_strings(&word_groups, " AND ");
    let trigram_expression = if supports {
        Some(join_strings(&trigram_groups, " AND "))
    } else {
        None
    };
    SearchPlan::Indexed { word_expression, trigram_expression, preview_terms }
}

/// The characters `char::to_lowercase` yields for each character of `text`,
/// in order.
pub open spec fn lowered(text: Seq<char>) -> Seq<char>
    decreases text.len(),
{
    if text.len() == 0 {
        Seq::empty()
    } else {
        lowered(text.drop_last()) + crate::text::unicode_lowercase(text.last())
    }
}

/// For each character of `lowered(text)`, the index in `text` it comes from.
pub open spec fn owners(text: Seq<char>) -> Seq<int>
    decreases text.len(),
{
    if text.len() == 0 {
        Seq::empty()
    } else {
        owners(text.drop_last()) + Seq::new(
            crate::text::unicode_lowercase(text.last()).len(),
            |k: int| (text.len() - 1) as int,
        )
    }
}

/// Whether `needle` occurs in `hay` at byte `k`.
pub open spec fn occurs_at(hay: Seq<u8>, needle: Seq<u8>, k: int) -> bool {
    0 <= k && k + needle.len() <= hay.len() && hay.subrange(k, k + needle.len()) == needle
}

pub open spec fn is_first_occurrence(hay: Seq<u8>, needle: Seq<u8>, k: int) -> bool {
    occurs_at(hay, needle, k) && forall|j: int| 0 <= j < k ==> !#[trigger] occurs_at(hay, needle, j)
}

/// The byte index of the first occurrence of `needle` in `hay` (`str::find`).
pub open spec fn first_occurrence(hay: Seq<u8>, needle: Seq<u8>) -> Option<int> {
    if exists|k: int| is_first_occurrence(hay, needle, k) {
        Some(choose|k: int| is_first_occurrence(hay, needle, k))
    } else {
        None
    }
}

pub open spec fn min_option(a: Option<int>, b: Option<int>) -> Option<int> {
    match (a, b) {
        (Some(x), Some(y)) => Some(if x <= y { x } else { y }),
        (Some(x), None) => Some(x),
        (None, Some(y)) => Some(y),
        (None, None) => None,
    }
}

/// The earliest byte where any of `terms` occurs in `hay`.
pub open spec fn earliest_term(hay: Seq<u8>, terms: Seq<Seq<char>>) -> Option<int>
    decreases terms.len(),
{
    if terms.len() == 0 {
        None
    } else {
        min_option(earliest_term(hay, terms.drop_last()), first_occurrence(hay, encode_utf8(terms.last())))
    }
}

/// The byte offset in `encode_utf8(s)` of its character `q`.
pub open spec fn byte_offset(s: Seq<char>, q: int) -> int {
    encode_utf8(s.take(q)).len() as int
}

/// The last character of `s` at or before character `q` that starts at or
/// before byte `b`, or the first character.
pub open spec fn last_at_or_below(s: Seq<char>, b: int, q: int) -> int
    decreases q,
{
    if q <= 0 {
        0
    } else if byte_offset(s, q) <= b {
        q
    } else {
        last_at_or_below(s, b, q - 1)
    }
}

/// The index in `text` where the first match of any of `terms` begins,
/// comparing lower-cased text with the terms byte by byte.
pub open spec fn spec_lowercase_match_start(text: Seq<char>, terms: Seq<Seq<char>>) -> Option<int> {
    let l = lowered(text);
    match earliest_term(encode_utf8(l), terms) {
        None => None,
        Some(b) => if l.len() == 0 {
            None
        } else {
            Some(owners(text)[last_at_or_below(l, b, l.len() - 1)])
        },
    }
}

pub proof fn lemma_first_occurrence_unique(hay: Seq<u8>, needle: Seq<u8>, k: int)
    requires
        is_first_occurrence(hay, needle, k),
    ensures
        first_occurrence(hay, needle) == Some(k),
{
    let j = choose|j: int| is_first_occurrence(hay, needle, j);
    if j < k {
        assert(!occurs_at(hay, needle, j));
    }
    if k < j {
        assert(!occurs_at(hay, needle, k));
    }
}

proof fn lemma_some_first_occurrence(hay: Seq<u8>, needle: Seq<u8>, j: int)
    requires
        occurs_at(hay, needle, j),
    ensures
        exists|k: int| is_first_occurrence(hay, needle, k),
    decreases j,
{
    if exists|i: int| 0 <= i < j && occurs_at(hay, needle, i) {
        let i = choose|i: int| 0 <= i < j && occurs_at(hay, needle, i);
        lemma_some_first_occurrence(hay, needle, i);
    } else {
        assert(is_first_occurrence(hay, needle, j));
    }
}

/// `str::find` gives the least position where the needle occurs, and
/// nothing only when it occurs nowhere.
pub proof fn lemma_first_occurrence_is_least(hay: Seq<u8>, needle: Seq<u8>)
    ensures
        first_occurrence(hay, needle) matches Some(k) ==> occurs_at(hay, needle, k) && forall|j: int|
            #[trigger] occurs_at(hay, needle, j) ==> k <= j,
        first_occurrence(hay, needle) is None ==> forall|j: int| !#[trigger] occurs_at(hay, needle, j),
{
    if first_occurrence(hay, needle) is None {
        assert forall|j: int| !#[trigger] occurs_at(hay, needle, j) by {
            if occurs_at(hay, needle, j) {
                lemma_some_first_occurrence(hay, needle, j);
            }
        }
    } else {
        let k = choose|k: int| is_first_occurrence(hay, needle, k);
        assert forall|j: int| #[trigger] occurs_at(hay, needle, j) implies k <= j by {
            if j < k {
                assert(!occurs_at(hay, needle, j));
            }
        }
    }
}

/// Whether some term of `terms` occurs in `hay` at byte `b`, and none
/// occurs earlier.
pub open spec fn is_earliest_match(hay: Seq<u8>, terms: Seq<Seq<char>>, b: int) -> bool {
    &&& exists|t: int| 0 <= t < terms.len() && #[trigger] occurs_at(hay, encode_utf8(terms[t]), b)
    &&& forall|t: int, k: int| 0 <= t < terms.len() && #[trigger] occurs_at(hay, encode_utf8(terms[t]), k) ==> b <= k
}

/// The earliest match of any of the terms is the least byte at which one
/// of them occurs, whatever order the terms come in; there is none only
/// when no term occurs at all.
pub proof fn lemma_earliest_term_is_least(hay: Seq<u8>, terms: Seq<Seq<char>>)
    ensures
        earliest_term(hay, terms) matches Some(b) ==> is_earliest_match(hay, terms, b),
        earliest_term(hay, terms) is None ==> forall|t: int, k: int| 0 <= t < terms.len() ==> !#[trigger] occurs_at(
            hay,
            encode_utf8(terms[t]),
            k,
        ),
    decreases terms.len(),
{
    if terms.len() > 0 {
        let rest = terms.drop_last();
        let last = terms.last();
        lemma_earliest_term_is_least(hay, rest);
        lemma_first_occurrence_is_least(hay, encode_utf8(last));
        assert forall|t: int| 0 <= t < rest.len() implies #[trigger] terms[t] == rest[t] by {}
        assert(terms[terms.len() - 1] == last);
        match earliest_term(hay, terms) {
            Some(b) => {
                assert forall|t: int, k: int| 0 <= t < terms.len() && #[trigger] occurs_at(hay, encode_utf8(terms[t]), k) implies b <= k by {
                    if t < terms.len() - 1 {
                        assert(occurs_at(hay, encode_utf8(rest[t]), k));
                    }
                }
                match (earliest_term(hay, rest), first_occurrence(hay, encode_utf8(last))) {
                    (Some(x), Some(y)) => {
                        if x <= y {
                            let t = choose|t: int| 0 <= t < rest.len() && #[trigger] occurs_at(hay, encode_utf8(rest[t]), x);
                            assert(occurs_at(hay, encode_utf8(terms[t]), b));
                        } else {
                            assert(occurs_at(hay, encode_utf8(terms[terms.len() - 1]), b));
                        }
                    },
                    (Some(x), None) => {
                        let t = choose|t: int| 0 <= t < rest.len() && #[trigger] occurs_at(hay, encode_utf8(rest[t]), x);
                        assert(occurs_at(hay, encode_utf8(terms[t]), b));
                    },
                    (None, Some(y)) => {
                        assert(occurs_at(hay, encode_utf8(terms[terms.len() - 1]), b));
                    },
                    (None, None) => {},
                }
            },
            None => {
                assert forall|t: int, k: int| 0 <= t < terms.len() implies !#[trigger] occurs_at(hay, encode_utf8(terms[t]), k) by {
                    if t < terms.len() - 1 {
                        assert(!occurs_at(hay, encode_utf8(rest[t]), k));
                    }
                }
            },
        }
    }
}

/// The search preview opens at the earliest match of any search term in
/// the lower-cased text, whatever order the terms are listed in: at the
/// character that holds the least byte where one of them occurs. There is
/// no match start only when no term occurs or the text is empty.
pub proof fn lemma_preview_opens_at_earliest_match(text: Seq<char>, terms: Seq<Seq<char>>)
    ensures
        spec_lowercase_match_start(text, terms) matches Some(i) ==> exists|b: int|
            #[trigger] is_earliest_match(encode_utf8(lowered(text)), terms, b) && i == owners(text)[last_at_or_below(
                lowered(text),
                b,
                lowered(text).len() - 1,
            )],
        spec_lowercase_match_start(text, terms) is None ==> lowered(text).len() == 0 || forall|t: int, k: int|
            0 <= t < terms.len() ==> !#[trigger] occurs_at(encode_utf8(lowered(text)), encode_utf8(terms[t]), k),
{
    let hay = encode_utf8(lowered(text));
    lemma_earliest_term_is_least(hay, terms);
    if let Some(b) = earliest_term(hay, terms) {
        assert(is_earliest_match(hay, terms, b));
    }
}

/// `str::find` over bytes: the first index where `needle` occurs in `hay`.
fn find_bytes(hay: &[u8], needle: &[u8]) -> (r: Option<usize>)
    ensures
        r matches Some(k) ==> first_occurrence(hay@, needle@) == Some(k as int),
        r is None ==> first_occurrence(hay@, needle@) is None,
{
    if needle.len() > hay.len() {
        proof {
            assert forall|k: int| !is_first_occurrence(hay@, needle@, k) by {}
        }
        return None;
    }
    let last = hay.len() - needle.len();
    let mut k: usize = 0;
    let mut done = false;
    while !done
        invariant
            last == hay@.len() - needle@.len(),
            hay@.len() == hay.len(),
            needle@.len() == needle.len(),
            k <= last,
            forall|j: int| 0 <= j < k ==> !#[trigger] occurs_at(hay@, needle@, j),
            done ==> k == last && !occurs_at(hay@, needle@, last as int),
        decreases last - k + if done { 0int } else { 1int },
    {
        let mut m: usize = 0;
        let mut same = true;
        while m < needle.len()
            invariant
                k <= last,
                last == hay@.len() - needle@.len(),
                hay@.len() == hay.len(),
                needle@.len() == needle.len(),
                m <= needle@.len(),
                same == (forall|x: int| 0 <= x < m ==> hay@[k + x] == needle@[x]),
            decreases needle@.len() - m,
        {
            assert(k + m < hay@.len());
            if hay[k + m] != needle[m] {
                same = false;
            }
            m += 1;
        }
        if same {
            proof {
                assert(hay@.subrange(k as int, k + needle@.len()) =~= needle@);
                lemma_first_occurrence_unique(hay@, needle@, k as int);
            }
            return Some(k);
        }
        proof {
            if occurs_at(hay@, needle@, k as int) {
                let x = choose|x: int| 0 <= x < needle@.len() && hay@[k + x] != needle@[x];
                assert(hay@.subrange(k as int, k + needle@.len())[x] == hay@[k + x]);
            }
        }
        if k == last {
            done = true;
        } else {
            k += 1;
        }
    }
    proof {
        assert forall|j: int| !is_first_occurrence(hay@, needle@, j) by {
            if 0 <= j < k {
                assert(!occurs_at(hay@, needle@, j));
            }
        }
    }
    None
}

/// The index in `text` where the first match of any of `terms` begins,
/// comparing the lower-cased text with the terms.
pub fn lowercase_match_start(text: &str, terms: &Vec<String>) -> (r: Option<usize>)
    ensures
        r matches Some(i) ==> spec_lowercase_match_start(text@, views(terms@)) == Some(i as int)
            && i < text@.len(),
        r is None ==> spec_lowercase_match_start(text@, views(terms@)) is None,
{
    let chars = chars_of(text);
    let mut lower: Vec<char> = Vec::new();
    let mut owner: Vec<usize> = Vec::new();
    let mut i: usize = 0;
    proof {
        assert(chars@.take(0) =~= Seq::<char>::empty());
    }
    while i < chars.len()
        invariant
            i <= chars@.len(),
            chars@ == text@,
            lower@ == lowered(chars@.take(i as int)),
            owner@.len() == lower@.len(),
            forall|q: int| 0 <= q < owner@.len() ==> owner@[q] as int == #[trigger] owners(chars@.take(i as int))[q],
            forall|q: int| 0 <= q < owner@.len() ==> owner@[q] < i,
            owners(chars@.take(i as int)).len() == lower@.len(),
        decreases chars@.len() - i,
    {
        let lc = crate::text::char_to_lowercase(chars[i]);
        let ghost t = chars@.take(i + 1);
        proof {
            assert(t.drop_last() =~= chars@.take(i as int));
            assert(t.last() == chars@[i as int]);
        }
        let ghost base_lower = lower@;
        let ghost base_owners = owners(chars@.take(i as int));
        let mut j: usize = 0;
        while j < lc.len()
            invariant
                j <= lc@.len(),
                lower@ == base_lower + lc@.take(j as int),
                owner@.len() == lower@.len(),
                base_owners.len() == base_lower.len(),
                forall|q: int| 0 <= q < base_lower.len() ==> owner@[q] as int == #[trigger] base_owners[q],
                forall|q: int| base_lower.len() <= q < owner@.len() ==> #[trigger] owner@[q] == i,
                forall|q: int| 0 <= q < base_lower.len() ==> #[trigger] owner@[q] < i,
            decreases lc@.len() - j,
        {
            lower.push(lc[j]);
            owner.push(i);
            proof {
                assert(lower@ =~= base_lower + lc@.take(j + 1));
            }
            j += 1;
        }
        proof {
            assert(lc@.take(lc@.len() as int) =~= lc@);
            let new_owners = owners(t);
            assert(new_owners =~= base_owners + Seq::new(lc@.len(), |k: int| i as int));
            assert forall|q: int| 0 <= q < owner@.len() implies owner@[q] as int == #[trigger] new_owners[q] by {
                if q >= base_lower.len() {
                    assert(new_owners[q] == i);
                }
            }
        }
        i += 1;
    }
    proof {
        assert(chars@.take(chars@.len() as int) =~= chars@);
    }
    let lowered_text = string_from(lower.as_slice());
    let hay = lowered_text.as_str().as_bytes();
    let mut best: Option<usize> = None;
    let mut k: usize = 0;
    let ghost tv = views(terms@);
    proof {
        assert(tv.take(0) =~= Seq::<Seq<char>>::empty());
    }
    while k < terms.len()
        invariant
            k <= terms@.len(),
            tv == views(terms@),
            hay@ == encode_utf8(lower@),
            match best {
                Some(b) => earliest_term(hay@, tv.take(k as int)) == Some(b as int),
                None => earliest_term(hay@, tv.take(k as int)) is None,
            },
        decreases terms@.len() - k,
    {
        let found = find_bytes(hay, terms[k].as_str().as_bytes());
        proof {
            assert(tv.take(k + 1).drop_last() =~= tv.take(k as int));
            assert(tv.take(k + 1).last() == terms@[k as int]@);
        }
        best = match (best, found) {
            (Some(x), Some(y)) => Some(if x <= y { x } else { y }),
            (Some(x), None) => Some(x),
            (None, Some(y)) => Some(y),
            (None, None) => None,
        };
        k += 1;
    }
    proof {
        assert(tv.take(terms@.len() as int) =~= tv);
    }
    let b = match best {
        Some(b) => b,
        None => return None,
    };
    if lower.len() == 0 {
        return None;
    }
    let ghost l = lower@;
    proof {
        crate::history::lemma_char_offset_bound(l, l.len() as int);
    }
    let mut offsets: Vec<usize> = Vec::new();
    let mut offset: usize = 0;
    let mut q: usize = 0;
    proof {
        assert(l.take(0) =~= Seq::<char>::empty());
    }
    while q < lower.len()
        invariant
            l == lower@,
            q <= l.len(),
            hay@ == encode_utf8(l),
            hay@.len() == hay.len(),
            offset as int == byte_offset(l, q as int),
            offsets@.len() == q,
            forall|x: int| 0 <= x < q ==> offsets@[x] as int == #[trigger] byte_offset(l, x),
        decreases l.len() - q,
    {
        proof {
            crate::history::lemma_char_offset_step(l, q as int);
            crate::history::lemma_char_offset_bound(l, q + 1);
        }
        offsets.push(offset);
        offset = offset + crate::text::utf8_width(lower[q]);
        q += 1;
    }
    let mut p: usize = lower.len() - 1;
    while p > 0 && offsets[p] > b
        invariant
            l == lower@,
            p < l.len(),
            offsets@.len() == l.len(),
            forall|x: int| 0 <= x < l.len() ==> offsets@[x] as int == #[trigger] byte_offset(l, x),
            last_at_or_below(l, b as int, (l.len() - 1) as int) == last_at_or_below(l, b as int, p as int),
        decreases p,
    {
        p -= 1;
    }
    proof {
        assert(offsets@[p as int] as int == byte_offset(l, p as int));
    }
    Some(owner[p])
}

/// What a search result shows of `text`: all of it up to 160 characters,
/// else the window before the first match of a preview term while a search
/// is active, or the start.
pub open spec fn spec_search_preview(text: Seq<char>, terms: Seq<Seq<char>>, search_active: bool) -> Seq<char> {
    if text.len() <= 160 {
        text
    } else {
        crate::history::preview_window(
            text,
            if search_active {
                crate::history::preview_start(spec_lowercase_match_start(text, terms))
            } else {
                0
            },
        )
    }
}

pub fn preview(text: &str, terms: &Vec<String>, search_active: bool) -> (shown: String)
    ensures
        shown@ == spec_search_preview(text@, views(terms@), search_active),
{
    let chars = chars_of(text);
    if chars.len() <= PREVIEW_CHARACTERS {
        return text.to_owned();
    }
    let start = if search_active {
        match lowercase_match_start(text, terms) {
            Some(index) => if index >= 36 { index - 36 } else { 0 },
            None => 0,
        }
    } else {
        0
    };
    crate::history::window_of(chars.as_slice(), start, PREVIEW_CHARACTERS)
}

} // verus!

verus! {

/// The index vocabulary last read, and the database's data version when it
/// was read. Another connection's write changes the version, which makes
/// the cached vocabulary stale.
#[derive(Debug)]
pub struct SearchCache {
    vocabulary: Option<Vec<VocabularyTerm>>,
    vocabulary_data_version: Option<i64>,
}

impl SearchCache {
    pub closed spec fn cached_vocabulary(&self) -> Option<Seq<VocabularyTerm>> {
        match self.vocabulary {
            Some(v) => Some(v@),
            None => None,
        }
    }

    pub closed spec fn cached_version(&self) -> Option<i64> {
        self.vocabulary_data_version
    }

    /// Nothing cached.
    pub fn new() -> (cache: Self)
        ensures
            cache.cached_vocabulary() is None,
            cache.cached_version() is None,
    {
        SearchCache { vocabulary: None, vocabulary_data_version: None }
    }

    /// Forgets the vocabulary, as after the index failed.
    pub fn invalidate(&mut self)
        ensures
            final(self).cached_vocabulary() is None,
            final(self).cached_version() is None,
    {
        self.vocabulary = None;
        self.vocabulary_data_version = None;
    }

    /// The cached vocabulary when it was read at `data_version`.
    pub fn cached(&self, data_version: i64) -> (v: Option<&Vec<VocabularyTerm>>)
        ensures
            match v {
                Some(terms) => self.cached_version() == Some(data_version) && self.cached_vocabulary()
                    == Some(terms@),
                None => self.cached_version() != Some(data_version) || self.cached_vocabulary() is None,
            },
    {
        match self.vocabulary_data_version {
            Some(version) => if version == data_version {
                match &self.vocabulary {
                    Some(terms) => Some(terms),
                    None => None,
                }
            } else {
                None
            },
            None => None,
        }
    }

    /// Keeps `vocabulary` as read at `data_version`.
    pub fn store(&mut self, vocabulary: Vec<VocabularyTerm>, data_version: i64)
        ensures
            final(self).cached_vocabulary() == Some(vocabulary@),
            final(self).cached_version() == Some(data_version),
    {
        self.vocabulary = Some(vocabulary);
        self.vocabulary_data_version = Some(data_version);
    }
}

impl Default for SearchCache {
    fn default() -> (cache: Self)
        ensures
            cache.cached_vocabulary() is None,
            cache.cached_version() is None,
    {
        SearchCache::new()
    }
}


} // verus!

verus! {

/// Whether `needle`'s text occurs in `hay`'s (`str::contains`).
pub open spec fn text_contains(hay: Seq<char>, needle: Seq<char>) -> bool {
    first_occurrence(encode_utf8(hay), encode_utf8(needle)) is Some
}

fn contains_str(hay: &str, needle: &str) -> (r: bool)
    ensures
        r == text_contains(hay@, needle@),
{
    find_bytes(hay.as_bytes(), needle.as_bytes()).is_some()
}

/// Whether a database error means the search index itself is broken or
/// missing, judged from its lower-cased message; only such a failure
/// falls back to literal search.
pub open spec fn spec_is_index_failure(error: crate::job::RuntimeError) -> bool {
    match error {
        crate::job::RuntimeError::Database(message) => {
            let m = unicode_str_lowercase(message@);
            ||| text_contains(m, "fts5"@)
            ||| text_contains(m, "transcript_history_fts"@)
            ||| text_contains(m, "malformed"@)
            ||| text_contains(m, "corrupt"@)
            ||| text_contains(m, "no such table: transcript_history_fts"@)
        },
        _ => false,
    }
}

pub fn is_index_failure(error: &crate::job::RuntimeError) -> (failure: bool)
    ensures
        failure == spec_is_index_failure(*error),
{
    match error {
        crate::job::RuntimeError::Database(message) => {
            let m = str_to_lowercase(message.as_str());
            contains_str(m.as_str(), "fts5") || contains_str(m.as_str(), "transcript_history_fts")
                || contains_str(m.as_str(), "malformed") || contains_str(m.as_str(), "corrupt")
                || contains_str(m.as_str(), "no such table: transcript_history_fts")
        },
        _ => false,
    }
}

/// Whether a database error says that the search tables are missing or
/// that full-text search is unavailable.
pub fn is_search_schema_unavailable(error: &crate::job::RuntimeError) -> (unavailable: bool)
    ensures
        unavailable == match *error {
            crate::job::RuntimeError::Database(message) => {
                let m = unicode_str_lowercase(message@);
                text_contains(m, "fts5"@) || text_contains(m, "transcript_history_fts"@)
            },
            _ => false,
        },
{
    match error {
        crate::job::RuntimeError::Database(message) => {
            let m = str_to_lowercase(message.as_str());
            contains_str(m.as_str(), "fts5") || contains_str(m.as_str(), "transcript_history_fts")
        },
        _ => false,
    }
}

} // verus!
