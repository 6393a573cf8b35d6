//! Character-level text operations shared by the search, History and the
//! view models: Unicode character classes, trimming, splitting on
//! whitespace, decimal numbers and UTF-8 byte offsets.

use vstd::prelude::*;
use vstd::utf8::*;

verus! {

/// Whether `c` has the Unicode `White_Space` property, which
/// `char::is_whitespace` tests: the controls U+0009 to U+000D, the space,
/// U+0085, the no-break space, the Ogham space mark, the spaces U+2000 to
/// U+200A, the line and paragraph separators, the narrow no-break space,
/// the medium mathematical space and the ideographic space.
pub open spec fn unicode_whitespace(c: char) -> bool {
    let n = c as u32;
    ||| 0x09 <= n <= 0x0D
    ||| n == 0x20
    ||| n == 0x85
    ||| n == 0xA0
    ||| n == 0x1680
    ||| 0x2000 <= n <= 0x200A
    ||| n == 0x2028
    ||| n == 0x2029
    ||| n == 0x202F
    ||| n == 0x205F
    ||| n == 0x3000
}

/// Whether Unicode counts `c` as alphabetic or numeric
/// (`char::is_alphanumeric`).
pub uninterp spec fn unicode_alphanumeric(c: char) -> bool;

/// The characters that `char::to_lowercase` yields for `c`.
pub uninterp spec fn unicode_lowercase(c: char) -> Seq<char>;

pub open spec fn is_ascii_digit(c: char) -> bool {
    '0' <= c && c <= '9'
}

/// Whether `c` is white space, as `char::is_whitespace` answers.
pub(crate) fn char_is_whitespace(c: char) -> (r: bool)
    ensures
        r == unicode_whitespace(c),
{
    let n = c as u32;
    (0x09 <= n && n <= 0x0D) || n == 0x20 || n == 0x85 || n == 0xA0 || n == 0x1680 || (0x2000 <= n
        && n <= 0x200A) || n == 0x2028 || n == 0x2029 || n == 0x202F || n == 0x205F || n == 0x3000
}

/// Calls `char::is_alphanumeric`: alphabetic or numeric in Unicode.
/// Claimed: the answer depends on the character alone; which characters
/// are alphanumeric is not stated.
#[verifier::external_body]
pub(crate) fn char_is_alphanumeric(c: char) -> (r: bool)
    ensures
        r == unicode_alphanumeric(c),
{
    c.is_alphanumeric()
}

/// Collects `char::to_lowercase` of `c`. Claimed: the characters depend on
/// `c` alone; the Unicode case mapping itself is not stated.
#[verifier::external_body]
pub(crate) fn char_to_lowercase(c: char) -> (r: Vec<char>)
    ensures
        r@ == unicode_lowercase(c),
{
    c.to_lowercase().collect()
}

/// What `format!("{:?}", s)` writes for the text `s`: the text quoted, as
/// `str`'s `Debug` spells it.
pub uninterp spec fn debug_text(s: Seq<char>) -> Seq<char>;

/// Calls `str`'s `Debug` formatting through `format!`. Claimed: the same
/// text always gives the same result. Nothing is stated of the escapes.
#[verifier::external_body]
pub(crate) fn debug_quoted(s: &str) -> (quoted: String)
    ensures
        quoted@ == debug_text(s@),
{
    format!("{s:?}")
}

/// Calls `String::push`.
#[verifier::external_body]
pub(crate) fn push_char(s: &mut String, c: char)
    ensures
        final(s)@ == old(s)@.push(c),
{
    s.push(c);
}

/// Whether two strings hold the same characters.
pub fn str_eq(a: &str, b: &str) -> (r: bool)
    ensures
        r == (a@ == b@),
{
    let x = chars_of(a);
    let y = chars_of(b);
    if x.len() != y.len() {
        return false;
    }
    let mut i: usize = 0;
    while i < x.len()
        invariant
            x@ == a@,
            y@ == b@,
            x@.len() == y@.len(),
            i <= x@.len(),
            forall|k: int| 0 <= k < i ==> x@[k] == y@[k],
        decreases x@.len() - i,
    {
        if x[i] != y[i] {
            return false;
        }
        i += 1;
    }
    proof {
        assert(x@ =~= y@);
    }
    true
}

/// The characters of `s`, in order.
pub fn chars_of(s: &str) -> (v: Vec<char>)
    ensures
        v@ == s@,
{
    let mut v: Vec<char> = Vec::new();
    for c in it: s.chars()
        invariant
            it.seq() == s@,
            v@ == s@.take(it.index() as int),
    {
        proof {
            assert(s@.take(it.index() + 1) =~= s@.take(it.index() as int).push(c));
        }
        v.push(c);
    }
    v
}

/// A string holding exactly `chars`.
pub fn string_from(chars: &[char]) -> (s: String)
    ensures
        s@ == chars@,
{
    let mut s = String::new();
    let mut i: usize = 0;
    while i < chars.len()
        invariant
            i <= chars@.len(),
            s@ == chars@.take(i as int),
        decreases chars@.len() - i,
    {
        proof {
            assert(chars@.take(i + 1) =~= chars@.take(i as int).push(chars@[i as int]));
        }
        push_char(&mut s, chars[i]);
        i += 1;
    }
    proof {
        assert(chars@.take(chars@.len() as int) =~= chars@);
    }
    s
}

/// The first index of `s` at or after `from` that is not white space.
pub open spec fn first_non_space(s: Seq<char>) -> int
    decreases s.len(),
{
    if s.len() == 0 {
        0
    } else if unicode_whitespace(s[0]) {
        1 + first_non_space(s.drop_first())
    } else {
        0
    }
}

/// `s` without trailing white space.
pub open spec fn trim_end(s: Seq<char>) -> Seq<char>
    decreases s.len(),
{
    if s.len() == 0 {
        s
    } else if unicode_whitespace(s.last()) {
        trim_end(s.drop_last())
    } else {
        s
    }
}

/// `s` without leading white space.
pub open spec fn trim_start(s: Seq<char>) -> Seq<char>
    decreases s.len(),
{
    if s.len() == 0 {
        s
    } else if unicode_whitespace(s[0]) {
        trim_start(s.drop_first())
    } else {
        s
    }
}

/// `s` without leading or trailing white space (`str::trim`).
pub open spec fn trim(s: Seq<char>) -> Seq<char> {
    trim_end(trim_start(s))
}

/// Whether `s` is empty or only white space (`str::trim().is_empty()`).
pub open spec fn is_blank(s: Seq<char>) -> bool {
    forall|i: int| 0 <= i < s.len() ==> unicode_whitespace(#[trigger] s[i])
}

pub proof fn lemma_trim_start_suffix(s: Seq<char>)
    ensures
        exists|k: int| 0 <= k <= s.len() && trim_start(s) == s.subrange(k, s.len() as int),
        forall|k: int| 0 <= k < s.len() - trim_start(s).len() ==> unicode_whitespace(#[trigger] s[k]),
        trim_start(s).len() > 0 ==> !unicode_whitespace(trim_start(s)[0]),
    decreases s.len(),
{
    if s.len() == 0 {
        assert(s == s.subrange(0, 0));
    } else if unicode_whitespace(s[0]) {
        lemma_trim_start_suffix(s.drop_first());
        let k = choose|k: int|
            0 <= k <= s.drop_first().len() && trim_start(s.drop_first())
                == s.drop_first().subrange(k, s.drop_first().len() as int);
        assert(s.drop_first().subrange(k, s.drop_first().len() as int) =~= s.subrange(
            k + 1,
            s.len() as int,
        ));
        assert forall|j: int| 0 <= j < s.len() - trim_start(s).len() implies unicode_whitespace(
            #[trigger] s[j],
        ) by {
            if j > 0 {
                assert(s[j] == s.drop_first()[j - 1]);
            }
        }
    } else {
        assert(s == s.subrange(0, s.len() as int));
    }
}

pub proof fn lemma_trim_end_prefix(s: Seq<char>)
    ensures
        trim_end(s).len() <= s.len(),
        trim_end(s) == s.take(trim_end(s).len() as int),
        forall|k: int| trim_end(s).len() <= k < s.len() ==> unicode_whitespace(#[trigger] s[k]),
        trim_end(s).len() > 0 ==> !unicode_whitespace(trim_end(s).last()),
    decreases s.len(),
{
    if s.len() == 0 {
        assert(s == s.take(0));
    } else if unicode_whitespace(s.last()) {
        lemma_trim_end_prefix(s.drop_last());
        let t = trim_end(s.drop_last());
        assert(s.drop_last().take(t.len() as int) =~= s.take(t.len() as int));
        assert forall|k: int| t.len() <= k < s.len() implies unicode_whitespace(#[trigger] s[k]) by {
            if k < s.len() - 1 {
                assert(s[k] == s.drop_last()[k]);
            }
        }
    } else {
        assert(s == s.take(s.len() as int));
    }
}

/// The index one past the last character of `s` that is not white space.
pub fn trim_end_len(s: &[char]) -> (n: usize)
    ensures
        n as int == trim_end(s@).len(),
        n <= s@.len(),
        s@.take(n as int) == trim_end(s@),
{
    proof {
        lemma_trim_end_prefix(s@);
    }
    let mut n = s.len();
    proof {
        assert(s@.take(n as int) =~= s@);
    }
    while n > 0 && char_is_whitespace(s[n - 1])
        invariant
            n <= s@.len(),
            trim_end(s@) == trim_end(s@.take(n as int)),
        decreases n,
    {
        proof {
            assert(s@.take(n as int).drop_last() =~= s@.take(n - 1));
        }
        n -= 1;
    }
    proof {
        lemma_trim_end_prefix(s@.take(n as int));
        if n > 0 {
            assert(s@.take(n as int).last() == s@[n - 1]);
            assert(trim_end(s@.take(n as int)) == s@.take(n as int));
        } else {
            assert(trim_end(s@.take(0)) == s@.take(0));
        }
    }
    n
}

/// The index of the first character of `s` that is not white space, or
/// `s.len()` when there is none.
pub fn trim_start_index(s: &[char]) -> (k: usize)
    ensures
        k <= s@.len(),
        s@.subrange(k as int, s@.len() as int) == trim_start(s@),
{
    let mut k: usize = 0;
    proof {
        assert(s@.subrange(0, s@.len() as int) =~= s@);
    }
    while k < s.len() && char_is_whitespace(s[k])
        invariant
            k <= s@.len(),
            trim_start(s@) == trim_start(s@.subrange(k as int, s@.len() as int)),
        decreases s@.len() - k,
    {
        proof {
            assert(s@.subrange(k as int, s@.len() as int).drop_first() =~= s@.subrange(
                k + 1,
                s@.len() as int,
            ));
        }
        k += 1;
    }
    proof {
        let rest = s@.subrange(k as int, s@.len() as int);
        if k < s@.len() {
            assert(rest[0] == s@[k as int]);
        }
    }
    k
}

/// `str::trim`, over characters.
pub fn trim_chars(s: &[char]) -> (t: Vec<char>)
    ensures
        t@ == trim(s@),
{
    let k = trim_start_index(s);
    let mut rest: Vec<char> = Vec::new();
    let mut i = k;
    while i < s.len()
        invariant
            k <= i <= s@.len(),
            rest@ == s@.subrange(k as int, i as int),
        decreases s@.len() - i,
    {
        rest.push(s[i]);
        proof {
            assert(rest@ =~= s@.subrange(k as int, i + 1));
        }
        i += 1;
    }
    let n = trim_end_len(rest.as_slice());
    let mut t: Vec<char> = Vec::new();
    let mut j: usize = 0;
    while j < n
        invariant
            n <= rest@.len(),
            j <= n,
            t@ == rest@.take(j as int),
        decreases n - j,
    {
        t.push(rest[j]);
        proof {
            assert(t@ =~= rest@.take(j + 1));
        }
        j += 1;
    }
    t
}

pub proof fn lemma_blank_trim(s: Seq<char>)
    ensures
        is_blank(s) <==> trim(s).len() == 0,
{
    lemma_trim_start_suffix(s);
    lemma_trim_end_prefix(trim_start(s));
    let t = trim_start(s);
    if trim(s).len() == 0 {
        assert forall|i: int| 0 <= i < s.len() implies unicode_whitespace(#[trigger] s[i]) by {
            if i >= s.len() - t.len() {
                let k = choose|k: int| 0 <= k <= s.len() && t == s.subrange(k, s.len() as int);
                assert(t[i - k] == s[i]);
                assert(unicode_whitespace(t[i - k]));
            }
        }
    }
    if is_blank(s) && t.len() > 0 {
        let k = choose|k: int| 0 <= k <= s.len() && t == s.subrange(k, s.len() as int);
        assert(t[0] == s[k]);
    }
}

/// Whether `s` is empty or only white space.
pub fn is_blank_chars(s: &[char]) -> (r: bool)
    ensures
        r == is_blank(s@),
        r == (trim(s@).len() == 0),
{
    proof {
        lemma_blank_trim(s@);
    }
    let mut i: usize = 0;
    while i < s.len()
        invariant
            i <= s@.len(),
            forall|j: int| 0 <= j < i ==> unicode_whitespace(#[trigger] s@[j]),
        decreases s@.len() - i,
    {
        if !char_is_whitespace(s[i]) {
            proof {
                assert(!unicode_whitespace(s@[i as int]));
                assert(!is_blank(s@));
                lemma_blank_trim(s@);
            }
            return false;
        }
        i += 1;
    }
    true
}

/// Whether `s` is empty or only white space, for a `&str`.
pub fn is_blank_str(s: &str) -> (r: bool)
    ensures
        r == is_blank(s@),
{
    let chars = chars_of(s);
    is_blank_chars(chars.as_slice())
}

/// The decimal digit character of `d`.
pub open spec fn digit_char(d: nat) -> char {
    ((d + 48) as u32) as char
}

/// The decimal representation of `n`, without leading zeros.
pub open spec fn decimal(n: nat) -> Seq<char>
    decreases n,
{
    if n < 10 {
        seq![digit_char(n)]
    } else {
        decimal(n / 10).push(digit_char(n % 10))
    }
}

/// The decimal representation of `n`, with a leading `-` when negative.
pub open spec fn signed_decimal(n: int) -> Seq<char> {
    if n < 0 {
        seq!['-'] + decimal((-n) as nat)
    } else {
        decimal(n as nat)
    }
}

fn digit(d: u64) -> (c: char)
    requires
        d < 10,
    ensures
        c == digit_char(d as nat),
{
    if d == 0 { '0' }
    else if d == 1 { '1' }
    else if d == 2 { '2' }
    else if d == 3 { '3' }
    else if d == 4 { '4' }
    else if d == 5 { '5' }
    else if d == 6 { '6' }
    else if d == 7 { '7' }
    else if d == 8 { '8' }
    else { '9' }
}

/// The decimal digits of `n`.
pub fn decimal_chars(n: u64) -> (v: Vec<char>)
    ensures
        v@ == decimal(n as nat),
    decreases n,
{
    if n < 10 {
        let mut v = Vec::new();
        v.push(digit(n));
        v
    } else {
        let mut v = decimal_chars(n / 10);
        v.push(digit(n % 10));
        v
    }
}

/// `n.to_string()` for an unsigned number.
pub fn decimal_string(n: u64) -> (s: String)
    ensures
        s@ == decimal(n as nat),
{
    let v = decimal_chars(n);
    string_from(v.as_slice())
}

/// `n.to_string()` for a signed number.
pub fn signed_decimal_chars(n: i64) -> (v: Vec<char>)
    ensures
        v@ == signed_decimal(n as int),
{
    if n < 0 {
        let magnitude: u64 = if n == i64::MIN {
            9223372036854775808u64
        } else {
            (-n) as u64
        };
        let digits = decimal_chars(magnitude);
        let mut v = Vec::new();
        v.push('-');
        let mut i: usize = 0;
        while i < digits.len()
            invariant
                i <= digits@.len(),
                v@ == seq!['-'] + digits@.take(i as int),
            decreases digits@.len() - i,
        {
            v.push(digits[i]);
            proof {
                assert(v@ =~= seq!['-'] + digits@.take(i + 1));
            }
            i += 1;
        }
        proof {
            assert(digits@.take(digits@.len() as int) =~= digits@);
        }
        v
    } else {
        decimal_chars(n as u64)
    }
}

/// The number of bytes UTF-8 takes for `c`.
pub fn utf8_width(c: char) -> (w: usize)
    ensures
        w as int == encode_scalar(c as u32).len(),
        1 <= w <= 4,
{
    proof {
        char_is_scalar(c);
    }
    let v = c as u32;
    if v <= 0x7f {
        1
    } else if v <= 0x7ff {
        2
    } else if v <= 0xffff {
        3
    } else {
        4
    }
}

pub proof fn lemma_encode_utf8_push(s: Seq<char>, c: char)
    ensures
        encode_utf8(s.push(c)) =~= encode_utf8(s) + encode_scalar(c as u32),
    decreases s.len(),
{
    if s.len() == 0 {
        assert(s.push(c).drop_first() =~= Seq::<char>::empty());
        assert(encode_utf8(Seq::<char>::empty()) =~= Seq::<u8>::empty());
    } else {
        lemma_encode_utf8_push(s.drop_first(), c);
        assert(s.push(c).drop_first() =~= s.drop_first().push(c));
        assert(s.push(c)[0] == s[0]);
    }
}

pub proof fn lemma_encode_utf8_take(s: Seq<char>, i: int)
    requires
        0 <= i < s.len(),
    ensures
        encode_utf8(s.take(i + 1)) =~= encode_utf8(s.take(i)) + encode_scalar(s[i] as u32),
{
    assert(s.take(i + 1) =~= s.take(i).push(s[i]));
    lemma_encode_utf8_push(s.take(i), s[i]);
}

} // verus!

verus! {

/// Whether every character of `s` is an ASCII digit.
pub open spec fn all_digits(s: Seq<char>) -> bool {
    forall|i: int| 0 <= i < s.len() ==> is_ascii_digit(#[trigger] s[i])
}

/// The number that the ASCII digits `s` spell.
pub open spec fn digits_value(s: Seq<char>) -> nat
    decreases s.len(),
{
    if s.len() == 0 {
        0
    } else {
        digits_value(s.drop_last()) * 10 + ((s.last() as u32) - 48) as nat
    }
}

/// What `str::parse::<i64>` accepts of `s`: an optional `+` or `-` sign, then
/// one or more ASCII digits, whose value fits an `i64`.
pub open spec fn parsed_i64(s: Seq<char>) -> Option<int> {
    let negative = s.len() > 0 && s[0] == '-';
    let digits = if s.len() > 0 && (s[0] == '-' || s[0] == '+') { s.drop_first() } else { s };
    if digits.len() > 0 && all_digits(digits) {
        let value = if negative { -(digits_value(digits) as int) } else { digits_value(digits) as int };
        if i64::MIN <= value <= i64::MAX {
            Some(value)
        } else {
            None
        }
    } else {
        None
    }
}

pub proof fn lemma_digits_value_grows(s: Seq<char>, c: char)
    requires
        is_ascii_digit(c),
    ensures
        digits_value(s.push(c)) >= digits_value(s),
        digits_value(s.push(c)) == digits_value(s) * 10 + ((c as u32) - 48) as nat,
{
    assert(s.push(c).drop_last() =~= s);
}

/// `str::parse::<i64>` over characters.
pub fn parse_i64(s: &[char]) -> (r: Option<i64>)
    ensures
        r matches Some(v) ==> parsed_i64(s@) == Some(v as int),
        r is None ==> parsed_i64(s@) is None,
{
    let len = s.len();
    if len == 0 {
        return None;
    }
    let negative = s[0] == '-';
    let start: usize = if s[0] == '-' || s[0] == '+' { 1 } else { 0 };
    let ghost digits = if s@[0] == '-' || s@[0] == '+' { s@.drop_first() } else { s@ };
    proof {
        assert(digits =~= s@.subrange(start as int, len as int));
    }
    if start == len {
        proof {
            assert(digits.len() == 0);
            assert(parsed_i64(s@) is None);
        }
        return None;
    }
    let limit: u64 = 9223372036854775808u64;
    let mut value: u64 = 0;
    let mut overflow = false;
    let mut i = start;
    proof {
        assert(s@.subrange(start as int, start as int) =~= Seq::<char>::empty());
    }
    while i < len
        invariant
            start <= i <= len,
            len == s@.len(),
            start < len,
            digits =~= s@.subrange(start as int, len as int),
            digits == (if s@.len() > 0 && (s@[0] == '-' || s@[0] == '+') { s@.drop_first() } else { s@ }),
            negative == (s@.len() > 0 && s@[0] == '-'),
            limit == 9223372036854775808u64,
            all_digits(s@.subrange(start as int, i as int)),
            !overflow ==> value as nat == digits_value(s@.subrange(start as int, i as int)),
            !overflow ==> value <= limit,
            overflow ==> digits_value(s@.subrange(start as int, i as int)) > limit,
        decreases len - i,
    {
        let c = s[i];
        if !('0' <= c && c <= '9') {
            proof {
                assert(digits[i - start] == c);
            }
            return None;
        }
        proof {
            assert(s@.subrange(start as int, i + 1) =~= s@.subrange(start as int, i as int).push(c));
            lemma_digits_value_grows(s@.subrange(start as int, i as int), c);
        }
        let d = (c as u32 - 48) as u64;
        if !overflow {
            if value > (limit - d) / 10 {
                overflow = true;
                proof {
                    assert(value * 10 + d > limit) by (nonlinear_arith)
                        requires value > (limit - d) / 10, d <= 9;
                }
            } else {
                proof {
                    assert(value * 10 + d <= limit) by (nonlinear_arith)
                        requires value <= (limit - d) / 10, d <= 9;
                }
                value = value * 10 + d;
            }
        }
        i += 1;
    }
    proof {
        assert(s@.subrange(start as int, len as int) =~= digits);
    }
    if overflow {
        return None;
    }
    if negative {
        if value == limit {
            Some(i64::MIN)
        } else {
            Some(-(value as i64))
        }
    } else {
        if value == limit {
            None
        } else {
            Some(value as i64)
        }
    }
}

pub proof fn lemma_decimal_digits(n: nat)
    ensures
        decimal(n).len() > 0,
        all_digits(decimal(n)),
        digits_value(decimal(n)) == n,
        forall|i: int| 0 <= i < decimal(n).len() ==> #[trigger] decimal(n)[i] != '|' && decimal(n)[i] != '-' && decimal(n)[i] != '+',
    decreases n,
{
    let d0 = n % 10;
    assert(digit_char(d0) as u32 == d0 + 48);
    if n < 10 {
        assert(decimal(n).drop_last() =~= Seq::<char>::empty());
        assert(decimal(n).last() == digit_char(n));
        assert(digits_value(Seq::<char>::empty()) == 0);
        assert(digits_value(decimal(n)) == digits_value(Seq::<char>::empty()) * 10 + ((digit_char(n) as u32) - 48) as nat);
    }
    if n >= 10 {
        lemma_decimal_digits(n / 10);
        let d = decimal(n / 10);
        assert(decimal(n).drop_last() =~= d);
        assert(decimal(n).last() == digit_char(d0));
        assert(digits_value(decimal(n)) == digits_value(d) * 10 + d0);
        assert(n == (n / 10) * 10 + d0);
        assert forall|i: int| 0 <= i < decimal(n).len() implies is_ascii_digit(#[trigger] decimal(n)[i]) by {
            if i < d.len() {
                assert(decimal(n)[i] == d[i]);
            }
        }
    }
}

/// Parsing a number's decimal text gives the number back.
pub proof fn lemma_parse_signed_decimal(n: int)
    requires
        i64::MIN <= n <= i64::MAX,
    ensures
        parsed_i64(signed_decimal(n)) == Some(n),
        forall|i: int| 0 <= i < signed_decimal(n).len() ==> #[trigger] signed_decimal(n)[i] != '|',
{
    if n < 0 {
        let m = (-n) as nat;
        lemma_decimal_digits(m);
        let s = signed_decimal(n);
        assert(s.drop_first() =~= decimal(m));
        assert forall|i: int| 0 <= i < s.len() implies #[trigger] s[i] != '|' by {
            if i > 0 {
                assert(s[i] == decimal(m)[i - 1]);
            }
        }
    } else {
        lemma_decimal_digits(n as nat);
    }
}

} // verus!

verus! {

/// A string holding `chars[from..to]`.
pub fn string_from_range(chars: &[char], from: usize, to: usize) -> (s: String)
    requires
        from <= to <= chars@.len(),
    ensures
        s@ == chars@.subrange(from as int, to as int),
{
    let mut s = String::new();
    let mut i = from;
    while i < to
        invariant
            from <= i <= to,
            to <= chars@.len(),
            s@ == chars@.subrange(from as int, i as int),
        decreases to - i,
    {
        push_char(&mut s, chars[i]);
        proof {
            assert(s@ =~= chars@.subrange(from as int, i + 1));
        }
        i += 1;
    }
    s
}

} // verus!

verus! {

/// What `str::to_lowercase` makes of `s`.
pub uninterp spec fn unicode_str_lowercase(s: Seq<char>) -> Seq<char>;

/// Calls `str::to_lowercase`. Claimed: the text depends on `s` alone; the
/// Unicode case mapping itself is not stated.
#[verifier::external_body]
pub(crate) fn str_to_lowercase(s: &str) -> (r: String)
    ensures
        r@ == unicode_str_lowercase(s@),
{
    s.to_lowercase()
}

/// The length of the run of characters at the start of `s` that are not
/// white space.
pub open spec fn run_len(s: Seq<char>) -> nat
    decreases s.len(),
{
    if s.len() == 0 || unicode_whitespace(s[0]) {
        0
    } else {
        1 + run_len(s.drop_first())
    }
}

pub proof fn lemma_run_len_bound(s: Seq<char>)
    ensures
        run_len(s) <= s.len(),
        s.len() > 0 && !unicode_whitespace(s[0]) ==> run_len(s) >= 1,
    decreases s.len(),
{
    if s.len() > 0 && !unicode_whitespace(s[0]) {
        lemma_run_len_bound(s.drop_first());
    }
}

/// The words of `s`: its maximal runs of characters that are not white
/// space, in order (`str::split_whitespace`).
pub open spec fn words(s: Seq<char>) -> Seq<Seq<char>>
    decreases s.len(),
{
    if s.len() == 0 {
        Seq::empty()
    } else if unicode_whitespace(s[0]) {
        words(s.drop_first())
    } else {
        let k = run_len(s) as int;
        proof {
            lemma_run_len_bound(s);
        }
        seq![s.take(k)] + words(s.skip(k))
    }
}

/// The words of `list`, each followed by `sep` but the last (`join`).
pub open spec fn joined(list: Seq<Seq<char>>, sep: char) -> Seq<char>
    decreases list.len(),
{
    if list.len() == 0 {
        Seq::empty()
    } else if list.len() == 1 {
        list[0]
    } else {
        joined(list.drop_last(), sep) + seq![sep] + list.last()
    }
}

pub open spec fn no_space(s: Seq<char>) -> bool {
    forall|i: int| 0 <= i < s.len() ==> !unicode_whitespace(#[trigger] s[i])
}

pub proof fn lemma_run_len(cur: Seq<char>, rest: Seq<char>)
    requires
        no_space(cur),
        rest.len() == 0 || unicode_whitespace(rest[0]),
    ensures
        run_len(cur + rest) == cur.len(),
    decreases cur.len(),
{
    if cur.len() == 0 {
        assert(cur + rest =~= rest);
    } else {
        assert((cur + rest).drop_first() =~= cur.drop_first() + rest);
        assert((cur + rest)[0] == cur[0]);
        lemma_run_len(cur.drop_first(), rest);
    }
}

pub proof fn lemma_words_run(cur: Seq<char>, rest: Seq<char>)
    requires
        cur.len() > 0,
        no_space(cur),
        rest.len() == 0 || unicode_whitespace(rest[0]),
    ensures
        words(cur + rest) == seq![cur] + words(rest),
{
    lemma_run_len(cur, rest);
    let s = cur + rest;
    assert(s[0] == cur[0]);
    assert(s.take(cur.len() as int) =~= cur);
    assert(s.skip(cur.len() as int) =~= rest);
}

/// The words of `s`, as `str::split_whitespace` yields them.
pub fn split_words(s: &[char]) -> (ws: Vec<Vec<char>>)
    ensures
        ws@.len() == words(s@).len(),
        forall|i: int| 0 <= i < ws@.len() ==> #[trigger] ws@[i]@ == words(s@)[i],
{
    let mut ws: Vec<Vec<char>> = Vec::new();
    let mut cur: Vec<char> = Vec::new();
    let mut i: usize = 0;
    let ghost acc: Seq<Seq<char>> = Seq::empty();
    proof {
        assert(cur@ + s@.skip(0) =~= s@);
    }
    while i < s.len()
        invariant
            i <= s@.len(),
            no_space(cur@),
            acc.len() == ws@.len(),
            forall|k: int| 0 <= k < ws@.len() ==> #[trigger] ws@[k]@ == acc[k],
            words(s@) == acc + words(cur@ + s@.skip(i as int)),
        decreases s@.len() - i,
    {
        let c = s[i];
        let ghost rest = s@.skip(i as int);
        assert(rest[0] == c);
        if char_is_whitespace(c) {
            if cur.len() > 0 {
                proof {
                    lemma_words_run(cur@, rest);
                    assert(rest.drop_first() =~= s@.skip(i + 1));
                    assert(words(rest) == words(s@.skip(i + 1)));
                    assert(Seq::<char>::empty() + s@.skip(i + 1) =~= s@.skip(i + 1));
                    acc = acc.push(cur@);
                    assert(words(s@) == acc + words(s@.skip(i + 1)));
                }
                let done = cur;
                ws.push(done);
                cur = Vec::new();
            } else {
                proof {
                    assert(cur@ + rest =~= rest);
                    assert(rest.drop_first() =~= s@.skip(i + 1));
                    assert(Seq::<char>::empty() + s@.skip(i + 1) =~= s@.skip(i + 1));
                }
            }
        } else {
            proof {
                assert(cur@.push(c) + s@.skip(i + 1) =~= cur@ + rest);
            }
            cur.push(c);
        }
        i += 1;
    }
    proof {
        assert(s@.skip(i as int) =~= Seq::<char>::empty());
        assert(cur@ + s@.skip(i as int) =~= cur@);
        if cur@.len() > 0 {
            lemma_words_run(cur@, Seq::<char>::empty());
            assert(cur@ + Seq::<char>::empty() =~= cur@);
            assert(words(Seq::<char>::empty()) =~= Seq::<Seq<char>>::empty());
            acc = acc.push(cur@);
        } else {
            assert(words(cur@) =~= Seq::<Seq<char>>::empty());
        }
        assert(words(s@) =~= acc);
    }
    if cur.len() > 0 {
        ws.push(cur);
    }
    ws
}

} // verus!

verus! {

/// Byte-wise lexicographic order, as `str`'s `<` compares.
pub open spec fn bytes_lt(a: Seq<u8>, b: Seq<u8>) -> bool
    decreases a.len(),
{
    if a.len() == 0 {
        b.len() > 0
    } else if b.len() == 0 {
        false
    } else if a[0] != b[0] {
        a[0] < b[0]
    } else {
        bytes_lt(a.drop_first(), b.drop_first())
    }
}

proof fn lemma_bytes_lt_irreflexive(a: Seq<u8>)
    ensures
        !bytes_lt(a, a),
    decreases a.len(),
{
    if a.len() > 0 {
        lemma_bytes_lt_irreflexive(a.drop_first());
    }
}

proof fn lemma_bytes_lt_asymmetric(a: Seq<u8>, b: Seq<u8>)
    ensures
        bytes_lt(a, b) ==> !bytes_lt(b, a),
    decreases a.len(),
{
    if a.len() > 0 && b.len() > 0 && a[0] == b[0] {
        lemma_bytes_lt_asymmetric(a.drop_first(), b.drop_first());
    }
}

proof fn lemma_bytes_lt_total(a: Seq<u8>, b: Seq<u8>)
    ensures
        a =~= b || bytes_lt(a, b) || bytes_lt(b, a),
    decreases a.len(),
{
    if a.len() > 0 && b.len() > 0 && a[0] == b[0] {
        lemma_bytes_lt_total(a.drop_first(), b.drop_first());
        if a.drop_first() =~= b.drop_first() {
            assert(a =~= seq![a[0]] + a.drop_first());
            assert(b =~= seq![b[0]] + b.drop_first());
        }
    }
}

proof fn lemma_bytes_lt_transitive(a: Seq<u8>, b: Seq<u8>, c: Seq<u8>)
    ensures
        bytes_lt(a, b) && bytes_lt(b, c) ==> bytes_lt(a, c),
    decreases a.len(),
{
    if a.len() > 0 && b.len() > 0 && c.len() > 0 && a[0] == b[0] && b[0] == c[0] {
        lemma_bytes_lt_transitive(a.drop_first(), b.drop_first(), c.drop_first());
    }
}

/// Byte order is a strict total order: never `a < a`, never both `a < b`
/// and `b < a`, `a < b < c` gives `a < c`, and two different texts are
/// ordered one way or the other.
pub proof fn lemma_bytes_order(a: Seq<u8>, b: Seq<u8>, c: Seq<u8>)
    ensures
        !bytes_lt(a, a),
        bytes_lt(a, b) ==> !bytes_lt(b, a),
        bytes_lt(a, b) && bytes_lt(b, c) ==> bytes_lt(a, c),
        a =~= b || bytes_lt(a, b) || bytes_lt(b, a),
{
    lemma_bytes_lt_irreflexive(a);
    lemma_bytes_lt_asymmetric(a, b);
    lemma_bytes_lt_transitive(a, b, c);
    lemma_bytes_lt_total(a, b);
}

/// Whether `p` begins `s`.
pub open spec fn bytes_prefix(p: Seq<u8>, s: Seq<u8>) -> bool {
    p.len() <= s.len() && s.take(p.len() as int) == p
}

/// `a < b` for strings, comparing their UTF-8 bytes.
pub fn str_lt(a: &str, b: &str) -> (r: bool)
    ensures
        r == bytes_lt(encode_utf8(a@), encode_utf8(b@)),
{
    let x = a.as_bytes();
    let y = b.as_bytes();
    let ghost xs = x@;
    let ghost ys = y@;
    let mut k: usize = 0;
    proof {
        assert(xs.skip(0) =~= xs);
        assert(ys.skip(0) =~= ys);
    }
    while k < x.len() && k < y.len() && x[k] == y[k]
        invariant
            x@ == xs,
            y@ == ys,
            xs == encode_utf8(a@),
            ys == encode_utf8(b@),
            k <= xs.len(),
            k <= ys.len(),
            bytes_lt(xs, ys) == bytes_lt(xs.skip(k as int), ys.skip(k as int)),
        decreases xs.len() - k,
    {
        proof {
            assert(xs.skip(k as int).drop_first() =~= xs.skip(k + 1));
            assert(ys.skip(k as int).drop_first() =~= ys.skip(k + 1));
        }
        k += 1;
    }
    proof {
        if k < xs.len() {
            assert(xs.skip(k as int)[0] == xs[k as int]);
        }
        if k < ys.len() {
            assert(ys.skip(k as int)[0] == ys[k as int]);
        }
    }
    if k == x.len() {
        k < y.len()
    } else if k == y.len() {
        false
    } else {
        x[k] < y[k]
    }
}

/// `s.starts_with(p)` for strings, comparing their UTF-8 bytes.
pub fn str_starts_with(s: &str, p: &str) -> (r: bool)
    ensures
        r == bytes_prefix(encode_utf8(p@), encode_utf8(s@)),
{
    let x = s.as_bytes();
    let y = p.as_bytes();
    if y.len() > x.len() {
        return false;
    }
    let mut k: usize = 0;
    while k < y.len()
        invariant
            y.len() <= x.len(),
            x@ == encode_utf8(s@),
            y@ == encode_utf8(p@),
            k <= y@.len(),
            forall|j: int| 0 <= j < k ==> x@[j] == y@[j],
        decreases y@.len() - k,
    {
        if x[k] != y[k] {
            proof {
                assert(x@.take(y@.len() as int)[k as int] != y@[k as int]);
                assert(x@.take(y@.len() as int) != y@);
            }
            return false;
        }
        k += 1;
    }
    proof {
        assert(x@.take(y@.len() as int) =~= y@);
    }
    true
}

} // verus!

verus! {

/// The lower-case hexadecimal digit of `d`.
pub open spec fn hex_digit(d: nat) -> char {
    if d < 10 { ((d + 48) as u32) as char } else { ((d + 87) as u32) as char }
}

/// The value of hexadecimal digit `c`, either case.
pub open spec fn hex_value_of(c: char) -> Option<nat> {
    if '0' <= c && c <= '9' {
        Some(((c as u32) - 48) as nat)
    } else if 'a' <= c && c <= 'f' {
        Some(((c as u32) - 87) as nat)
    } else if 'A' <= c && c <= 'F' {
        Some(((c as u32) - 55) as nat)
    } else {
        None
    }
}

pub open spec fn all_hex(s: Seq<char>) -> bool {
    forall|i: int| 0 <= i < s.len() ==> (#[trigger] hex_value_of(s[i])) is Some
}

pub open spec fn hex_value(s: Seq<char>) -> nat
    decreases s.len(),
{
    if s.len() == 0 {
        0
    } else {
        hex_value(s.drop_last()) * 16 + hex_value_of(s.last()).unwrap()
    }
}

/// The last `k` hexadecimal digits of `n`, zero-padded.
pub open spec fn hex_fixed(n: nat, k: nat) -> Seq<char>
    decreases k,
{
    if k == 0 {
        Seq::empty()
    } else {
        hex_fixed(n / 16, (k - 1) as nat).push(hex_digit(n % 16))
    }
}

pub open spec fn pow16(k: nat) -> nat
    decreases k,
{
    if k == 0 { 1 } else { 16 * pow16((k - 1) as nat) }
}

/// What `u64::from_str_radix(s, 16)` accepts of `s`: an optional `+`, then
/// one or more hexadecimal digits whose value fits a `u64`.
pub open spec fn parsed_hex_u64(s: Seq<char>) -> Option<nat> {
    let digits = if s.len() > 0 && s[0] == '+' { s.drop_first() } else { s };
    if digits.len() > 0 && all_hex(digits) && hex_value(digits) <= u64::MAX {
        Some(hex_value(digits))
    } else {
        None
    }
}

pub proof fn lemma_hex_fixed(n: nat, k: nat)
    ensures
        hex_fixed(n, k).len() == k,
        all_hex(hex_fixed(n, k)),
        hex_value(hex_fixed(n, k)) == n % pow16(k),
        pow16(k) > 0,
        forall|i: int| 0 <= i < k ==> #[trigger] hex_fixed(n, k)[i] != '|' && hex_fixed(n, k)[i] != '+',
    decreases k,
{
    if k > 0 {
        lemma_hex_fixed(n / 16, (k - 1) as nat);
        let s = hex_fixed(n, k);
        let d = n % 16;
        assert(s.drop_last() =~= hex_fixed(n / 16, (k - 1) as nat));
        assert(s.last() == hex_digit(d));
        assert(hex_digit(d) as u32 == if d < 10 { d + 48 } else { d + 87 });
        assert(hex_value_of(hex_digit(d)) == Some(d));
        assert forall|i: int| 0 <= i < s.len() implies (#[trigger] hex_value_of(s[i])) is Some by {
            if i < k - 1 {
                assert(s[i] == hex_fixed(n / 16, (k - 1) as nat)[i]);
            }
        }
        assert forall|i: int| 0 <= i < k implies #[trigger] s[i] != '|' && s[i] != '+' by {
            if i < k - 1 {
                assert(s[i] == hex_fixed(n / 16, (k - 1) as nat)[i]);
            }
        }
        vstd::arithmetic::div_mod::lemma_mod_breakdown(n as int, 16, pow16((k - 1) as nat) as int);
        assert(hex_value(s) == hex_value(hex_fixed(n / 16, (k - 1) as nat)) * 16 + d);
    }
}

/// Reading 16 hexadecimal digits of a `u64` gives the number back.
pub proof fn lemma_hex_round_trip(n: u64)
    ensures
        parsed_hex_u64(hex_fixed(n as nat, 16)) == Some(n as nat),
{
    lemma_hex_fixed(n as nat, 16);
    reveal_with_fuel(pow16, 17);
    assert(pow16(16) == 0x1_0000_0000_0000_0000);
    let s = hex_fixed(n as nat, 16);
    assert(s[0] != '+');
}

fn hex_digit_char(d: u64) -> (c: char)
    requires
        d < 16,
    ensures
        c == hex_digit(d as nat),
{
    let v: u32 = if d < 10 { (d + 48) as u32 } else { (d + 87) as u32 };
    let chars: [char; 16] = ['0', '1', '2', '3', '4', '5', '6', '7', '8', '9', 'a', 'b', 'c', 'd', 'e', 'f'];
    let c = chars[d as usize];
    proof {
        assert(c as u32 == v);
    }
    c
}

/// The last `k` hexadecimal digits of `n`, zero-padded.
fn hex_digits(n: u64, k: usize) -> (v: Vec<char>)
    ensures
        v@ == hex_fixed(n as nat, k as nat),
    decreases k,
{
    if k == 0 {
        Vec::new()
    } else {
        let mut v = hex_digits(n / 16, k - 1);
        v.push(hex_digit_char(n % 16));
        v
    }
}

/// `format!("{n:016x}")`: 16 lower-case hexadecimal digits.
pub fn hex16(n: u64) -> (v: Vec<char>)
    ensures
        v@ == hex_fixed(n as nat, 16),
{
    hex_digits(n, 16)
}

pub proof fn lemma_pow16_positive(k: nat)
    ensures
        pow16(k) > 0,
    decreases k,
{
    if k > 0 {
        lemma_pow16_positive((k - 1) as nat);
    }
}

/// `u64::from_str_radix(s, 16)` over characters.
pub fn parse_hex_u64(s: &[char]) -> (r: Option<u64>)
    ensures
        r matches Some(v) ==> parsed_hex_u64(s@) == Some(v as nat),
        r is None ==> parsed_hex_u64(s@) is None,
{
    let len = s.len();
    let start: usize = if len > 0 && s[0] == '+' { 1 } else { 0 };
    let ghost digits = if s@.len() > 0 && s@[0] == '+' { s@.drop_first() } else { s@ };
    proof {
        assert(digits =~= s@.subrange(start as int, len as int));
    }
    if start == len {
        return None;
    }
    let mut value: u64 = 0;
    let mut i = start;
    proof {
        assert(s@.subrange(start as int, start as int) =~= Seq::<char>::empty());
    }
    while i < len
        invariant
            start <= i <= len,
            len == s@.len(),
            start < len,
            digits =~= s@.subrange(start as int, len as int),
            digits == (if s@.len() > 0 && s@[0] == '+' { s@.drop_first() } else { s@ }),
            all_hex(s@.subrange(start as int, i as int)),
            value as nat == hex_value(s@.subrange(start as int, i as int)),
        decreases len - i,
    {
        let c = s[i];
        let d: u64 = if '0' <= c && c <= '9' {
            (c as u32 - 48) as u64
        } else if 'a' <= c && c <= 'f' {
            (c as u32 - 87) as u64
        } else if 'A' <= c && c <= 'F' {
            (c as u32 - 55) as u64
        } else {
            proof {
                assert(digits[i - start] == c);
                assert(!all_hex(digits));
            }
            return None;
        };
        let ghost prefix = s@.subrange(start as int, i as int);
        proof {
            assert(s@.subrange(start as int, i + 1) =~= prefix.push(c));
            assert(s@.subrange(start as int, i + 1).drop_last() =~= prefix);
            assert(hex_value_of(c) == Some(d as nat));
        }
        if value > (u64::MAX - d) / 16 {
            proof {
                assert(value * 16 + d > u64::MAX) by (nonlinear_arith)
                    requires value > (u64::MAX - d) / 16, d <= 15;
                if all_hex(digits) {
                    lemma_hex_value_monotone(digits, (i + 1 - start) as int);
                    assert(digits.take((i + 1 - start) as int) =~= s@.subrange(start as int, i + 1));
                }
            }
            return None;
        }
        proof {
            assert(value * 16 + d <= u64::MAX) by (nonlinear_arith)
                requires value <= (u64::MAX - d) / 16, d <= 15;
        }
        value = value * 16 + d;
        i += 1;
    }
    proof {
        assert(s@.subrange(start as int, len as int) =~= digits);
    }
    Some(value)
}

/// A longer run of hexadecimal digits is worth at least as much.
pub proof fn lemma_hex_value_monotone(s: Seq<char>, k: int)
    requires
        0 <= k <= s.len(),
        all_hex(s),
    ensures
        hex_value(s) >= hex_value(s.take(k)),
    decreases s.len() - k,
{
    if k < s.len() {
        lemma_hex_value_monotone(s, k + 1);
        assert(s.take(k + 1).drop_last() =~= s.take(k));
    } else {
        assert(s.take(k) =~= s);
    }
}

} // verus!
