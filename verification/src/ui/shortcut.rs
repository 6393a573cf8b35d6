//! The Dictation shortcut the settings window captures from a key press:
//! a letter, digit, Space, Tab or Enter with at least one of Ctrl, Alt,
//! Shift or Super, or a function key F1–F12 on its own.

use vstd::prelude::*;

use crate::text::{chars_of, str_eq, string_from};

verus! {

/// The modifier keys held with a key press.
#[derive(Clone, Copy, Debug, PartialEq, Eq, Structural)]
pub struct ShortcutModifiers {
    pub control: bool,
    pub alt: bool,
    pub shift: bool,
    /// The Super (Windows or Command) key.
    pub platform: bool,
    pub function: bool,
}

pub open spec fn ascii_lower(c: char) -> char {
    if 'A' <= c && c <= 'Z' { ((c as u32) + 32) as char } else { c }
}

pub open spec fn ascii_upper(c: char) -> char {
    if 'a' <= c && c <= 'z' { ((c as u32) - 32) as char } else { c }
}

pub open spec fn is_ascii_alphanumeric(c: char) -> bool {
    ('a' <= c && c <= 'z') || ('A' <= c && c <= 'Z') || ('0' <= c && c <= '9')
}

/// `str::to_ascii_lowercase`.
pub open spec fn lower_ascii(s: Seq<char>) -> Seq<char> {
    s.map_values(|c: char| ascii_lower(c))
}

/// `str::to_ascii_uppercase`.
pub open spec fn upper_ascii(s: Seq<char>) -> Seq<char> {
    s.map_values(|c: char| ascii_upper(c))
}

/// Whether `n` names a function key F1 to F12, in lower case.
pub open spec fn is_function_key_name(n: Seq<char>) -> bool {
    ||| n == "f1"@ ||| n == "f2"@ ||| n == "f3"@ ||| n == "f4"@ ||| n == "f5"@ ||| n == "f6"@
    ||| n == "f7"@ ||| n == "f8"@ ||| n == "f9"@ ||| n == "f10"@ ||| n == "f11"@ ||| n == "f12"@
}

/// The name a shortcut gives the pressed key, or `None` when the key cannot
/// be part of one.
pub open spec fn shortcut_key(key: Seq<char>) -> Option<Seq<char>> {
    let n = lower_ascii(key);
    if n == "space"@ {
        Some("Space"@)
    } else if n == "tab"@ {
        Some("Tab"@)
    } else if n == "enter"@ || n == "return"@ {
        Some("Enter"@)
    } else if is_function_key_name(n) {
        Some(upper_ascii(n))
    } else if n.len() == 1 && is_ascii_alphanumeric(n[0]) {
        Some(upper_ascii(n))
    } else {
        None
    }
}

/// The modifiers of a shortcut, in the order it names them.
pub open spec fn modifier_prefix(m: ShortcutModifiers) -> Seq<char> {
    (if m.control { "Ctrl+"@ } else { Seq::empty() }) + (if m.alt { "Alt+"@ } else { Seq::empty() }) + (
    if m.shift {
        "Shift+"@
    } else {
        Seq::empty()
    }) + (if m.platform { "Super+"@ } else { Seq::empty() })
}

/// The shortcut a key press makes, such as `Ctrl+Shift+D`, or why it
/// cannot be one.
pub open spec fn spec_captured_shortcut(key: Seq<char>, m: ShortcutModifiers) -> Result<Seq<char>, Seq<char>> {
    if m.function {
        Err("The Function modifier is not supported"@)
    } else {
        match shortcut_key(key) {
            None => Err("Use a letter, number, Space, Tab, Enter, or F1–F12"@),
            Some(name) => if !(m.control || m.alt || m.shift || m.platform) && !is_function_key_name(
                lower_ascii(key),
            ) {
                Err("Add Ctrl, Alt, Shift, or Super to this key"@)
            } else {
                Ok(modifier_prefix(m) + name)
            },
        }
    }
}

/// The `k`-th letter of the alphabet, in upper or lower case.
fn letter(k: u32, upper: bool) -> (c: char)
    requires
        k < 26,
    ensures
        c as u32 == if upper { k + 65 } else { k + 97 },
{
    let lower: [char; 26] = [
        'a', 'b', 'c', 'd', 'e', 'f', 'g', 'h', 'i', 'j', 'k', 'l', 'm', 'n', 'o', 'p', 'q', 'r', 's',
        't', 'u', 'v', 'w', 'x', 'y', 'z',
    ];
    let capital: [char; 26] = [
        'A', 'B', 'C', 'D', 'E', 'F', 'G', 'H', 'I', 'J', 'K', 'L', 'M', 'N', 'O', 'P', 'Q', 'R', 'S',
        'T', 'U', 'V', 'W', 'X', 'Y', 'Z',
    ];
    let c = if upper { capital[k as usize] } else { lower[k as usize] };
    proof {
        if upper {
            assert(capital@[k as int] as u32 == k + 65);
        } else {
            assert(lower@[k as int] as u32 == k + 97);
        }
    }
    c
}

fn map_ascii(chars: &Vec<char>, upper: bool) -> (r: Vec<char>)
    ensures
        r@ == if upper { upper_ascii(chars@) } else { lower_ascii(chars@) },
{
    let mut r: Vec<char> = Vec::new();
    let mut i: usize = 0;
    while i < chars.len()
        invariant
            i <= chars@.len(),
            r@.len() == i,
            forall|k: int| 0 <= k < i ==> #[trigger] r@[k] == if upper {
                ascii_upper(chars@[k])
            } else {
                ascii_lower(chars@[k])
            },
        decreases chars@.len() - i,
    {
        let c = chars[i];
        let mapped = if upper {
            if 'a' <= c && c <= 'z' { letter(c as u32 - 97, true) } else { c }
        } else {
            if 'A' <= c && c <= 'Z' { letter(c as u32 - 65, false) } else { c }
        };
        r.push(mapped);
        i += 1;
    }
    proof {
        if upper {
            assert(r@ =~= upper_ascii(chars@));
        } else {
            assert(r@ =~= lower_ascii(chars@));
        }
    }
    r
}

fn function_key_name(n: &str) -> (b: bool)
    ensures
        b == is_function_key_name(n@),
{
    str_eq(n, "f1") || str_eq(n, "f2") || str_eq(n, "f3") || str_eq(n, "f4") || str_eq(n, "f5") || str_eq(
        n,
        "f6",
    ) || str_eq(n, "f7") || str_eq(n, "f8") || str_eq(n, "f9") || str_eq(n, "f10") || str_eq(n, "f11")
        || str_eq(n, "f12")
}

/// Turns a captured key press into the shortcut text that Settings stores.
pub fn captured_shortcut(key: &str, modifiers: ShortcutModifiers) -> (r: Result<String, String>)
    ensures
        match r {
            Ok(s) => spec_captured_shortcut(key@, modifiers) == Ok::<Seq<char>, Seq<char>>(s@),
            Err(e) => spec_captured_shortcut(key@, modifiers) == Err::<Seq<char>, Seq<char>>(e@),
        },
{
    if modifiers.function {
        return Err("The Function modifier is not supported".to_owned());
    }
    let chars = chars_of(key);
    let lowered = map_ascii(&chars, false);
    let normalized = string_from(lowered.as_slice());
    let n = normalized.as_str();
    let is_function_key = function_key_name(n);
    let name: String = if str_eq(n, "space") {
        "Space".to_owned()
    } else if str_eq(n, "tab") {
        "Tab".to_owned()
    } else if str_eq(n, "enter") || str_eq(n, "return") {
        "Enter".to_owned()
    } else if is_function_key || (lowered.len() == 1 && (('a' <= lowered[0] && lowered[0] <= 'z') || ('A'
        <= lowered[0] && lowered[0] <= 'Z') || ('0' <= lowered[0] && lowered[0] <= '9'))) {
        let upper = map_ascii(&lowered, true);
        string_from(upper.as_slice())
    } else {
        return Err("Use a letter, number, Space, Tab, Enter, or F1–F12".to_owned());
    };
    if !(modifiers.control || modifiers.alt || modifiers.shift || modifiers.platform) && !is_function_key {
        return Err("Add Ctrl, Alt, Shift, or Super to this key".to_owned());
    }
    let mut text = String::new();
    if modifiers.control {
        text.append("Ctrl+");
    }
    if modifiers.alt {
        text.append("Alt+");
    }
    if modifiers.shift {
        text.append("Shift+");
    }
    if modifiers.platform {
        text.append("Super+");
    }
    text.append(name.as_str());
    proof {
        assert(text@ =~= modifier_prefix(modifiers) + name@);
    }
    Ok(text)
}

/// Whether at least one of Ctrl, Alt, Shift or Super is held.
pub open spec fn has_modifier(m: ShortcutModifiers) -> bool {
    m.control || m.alt || m.shift || m.platform
}

/// Space, Tab and Enter (or Return), in any letter case, held with at least
/// one of Ctrl, Alt, Shift or Super and without Function, are accepted and
/// stored as the modifiers followed by the key's name.
pub proof fn lemma_named_keys_are_accepted(key: Seq<char>, m: ShortcutModifiers)
    requires
        !m.function,
        has_modifier(m),
    ensures
        lower_ascii(key) == "tab"@ ==> spec_captured_shortcut(key, m) == Ok::<Seq<char>, Seq<char>>(
            modifier_prefix(m) + "Tab"@,
        ),
        lower_ascii(key) == "space"@ ==> spec_captured_shortcut(key, m) == Ok::<Seq<char>, Seq<char>>(
            modifier_prefix(m) + "Space"@,
        ),
        (lower_ascii(key) == "enter"@ || lower_ascii(key) == "return"@) ==> spec_captured_shortcut(key, m)
            == Ok::<Seq<char>, Seq<char>>(modifier_prefix(m) + "Enter"@),
{
    reveal_strlit("tab");
    reveal_strlit("space");
    reveal_strlit("enter");
    reveal_strlit("return");
    assert("tab"@.len() == 3);
    assert("space"@.len() == 5);
    assert("enter"@.len() == 5);
    assert("return"@.len() == 6);
    assert("space"@[0] != "enter"@[0]);
}

/// A single letter or digit, in either case, held with at least one of
/// Ctrl, Alt, Shift or Super and without Function, is accepted and stored
/// as the modifiers followed by the key in upper case.
pub proof fn lemma_letters_and_digits_are_accepted(c: char, m: ShortcutModifiers)
    requires
        !m.function,
        has_modifier(m),
        is_ascii_alphanumeric(c),
    ensures
        spec_captured_shortcut(seq![c], m) == Ok::<Seq<char>, Seq<char>>(modifier_prefix(m) + seq![ascii_upper(ascii_lower(c))]),
{
    reveal_strlit("tab");
    reveal_strlit("space");
    reveal_strlit("enter");
    reveal_strlit("return");
    let n = lower_ascii(seq![c]);
    assert(n =~= seq![ascii_lower(c)]);
    assert(upper_ascii(n) =~= seq![ascii_upper(ascii_lower(c))]);
    assert(n.len() == 1);
    assert(!is_function_key_name(n)) by {
        reveal_strlit("f1");
        reveal_strlit("f2");
        reveal_strlit("f3");
        reveal_strlit("f4");
        reveal_strlit("f5");
        reveal_strlit("f6");
        reveal_strlit("f7");
        reveal_strlit("f8");
        reveal_strlit("f9");
        reveal_strlit("f10");
        reveal_strlit("f11");
        reveal_strlit("f12");
    }
}

/// A function key F1 to F12, in any letter case and without Function, is
/// accepted with or without other modifiers and stored as the modifiers
/// followed by its upper-case name; with Function held nothing is.
pub proof fn lemma_function_keys_stand_alone(key: Seq<char>, m: ShortcutModifiers)
    ensures
        !m.function && is_function_key_name(lower_ascii(key)) ==> spec_captured_shortcut(key, m) == Ok::<
            Seq<char>,
            Seq<char>,
        >(modifier_prefix(m) + upper_ascii(lower_ascii(key))),
        m.function ==> spec_captured_shortcut(key, m) is Err,
        !has_modifier(m) && !is_function_key_name(lower_ascii(key)) ==> spec_captured_shortcut(key, m) is Err,
{
    reveal_strlit("tab");
    reveal_strlit("space");
    reveal_strlit("enter");
    reveal_strlit("return");
    reveal_strlit("f1");
    reveal_strlit("f2");
    reveal_strlit("f3");
    reveal_strlit("f4");
    reveal_strlit("f5");
    reveal_strlit("f6");
    reveal_strlit("f7");
    reveal_strlit("f8");
    reveal_strlit("f9");
    reveal_strlit("f10");
    reveal_strlit("f11");
    reveal_strlit("f12");
    let n = lower_ascii(key);
    if is_function_key_name(n) {
        assert(n[0] == 'f');
        assert(n != "tab"@ && n != "space"@ && n != "enter"@ && n != "return"@);
    }
}

} // verus!
