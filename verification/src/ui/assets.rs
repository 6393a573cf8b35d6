//! The desktop assets embedded in every AgentDictate executable: the icons
//! that the window's controls request (a select's chevron, check, search and
//! empty inbox, a radio's check), found under `icons/`.

use vstd::prelude::*;

use crate::text::str_eq;
use crate::text::{chars_of, string_from_range};

verus! {

/// The icon files, in the order they are listed.
pub open spec fn icon_names() -> Seq<Seq<char>> {
    seq!["check.svg"@, "chevron-down.svg"@, "inbox.svg"@, "search.svg"@]
}

/// `s.trim_end_matches('/')`.
pub open spec fn trim_slashes(s: Seq<char>) -> Seq<char>
    decreases s.len(),
{
    if s.len() > 0 && s.last() == '/' {
        trim_slashes(s.drop_last())
    } else {
        s
    }
}

/// The asset source of the desktop window.
#[derive(Clone, Copy, Debug, Default)]
pub struct AgentDictateAssets;

fn icon_name(i: usize) -> (name: &'static str)
    requires
        i < 4,
    ensures
        name@ == icon_names()[i as int],
{
    if i == 0 {
        "check.svg"
    } else if i == 1 {
        "chevron-down.svg"
    } else if i == 2 {
        "inbox.svg"
    } else {
        "search.svg"
    }
}

impl AgentDictateAssets {
    /// The icon file that `path` names: `icons/` and one of the icon names.
    pub fn icon_file(&self, path: &str) -> (file: Option<String>)
        ensures
            match file {
                Some(f) => exists|i: int| 0 <= i < 4 && f@ == icon_names()[i] && path@ == "icons/"@ + f@,
                None => forall|i: int| 0 <= i < 4 ==> path@ != "icons/"@ + #[trigger] icon_names()[i],
            },
    {
        proof {
            reveal_strlit("icons/");
        }
        let chars = chars_of(path);
        let prefix = chars_of("icons/");
        let mut matches = prefix.len() <= chars.len();
        let mut k: usize = 0;
        while matches && k < prefix.len()
            invariant
                k <= prefix@.len(),
                prefix@ == "icons/"@,
                chars@ == path@,
                matches ==> prefix@.len() <= chars@.len() && forall|j: int| 0 <= j < k ==> chars@[j] == prefix@[j],
                !matches ==> !(prefix@.len() <= chars@.len() && chars@.take(prefix@.len() as int) == prefix@),
            decreases prefix@.len() - k + (if matches { 1int } else { 0int }),
        {
            if chars[k] != prefix[k] {
                proof {
                    assert(chars@.take(prefix@.len() as int)[k as int] != prefix@[k as int]);
                }
                matches = false;
            } else {
                k += 1;
            }
        }
        if !matches {
            proof {
                assert forall|i: int| 0 <= i < 4 implies path@ != "icons/"@ + #[trigger] icon_names()[i] by {
                    if path@ == "icons/"@ + icon_names()[i] {
                        assert(chars@.take(prefix@.len() as int) =~= prefix@);
                    }
                }
            }
            return None;
        }
        proof {
            assert(chars@.take(prefix@.len() as int) =~= prefix@);
        }
        let rest = string_from_range(chars.as_slice(), prefix.len(), chars.len());
        proof {
            assert(path@ =~= "icons/"@ + rest@);
        }
        let mut i: usize = 0;
        while i < 4
            invariant
                i <= 4,
                path@ == "icons/"@ + rest@,
                forall|j: int| 0 <= j < i ==> rest@ != #[trigger] icon_names()[j],
            decreases 4 - i,
        {
            let name = icon_name(i);
            if str_eq(rest.as_str(), name) {
                return Some(rest);
            }
            i += 1;
        }
        proof {
            assert forall|j: int| 0 <= j < 4 implies path@ != "icons/"@ + #[trigger] icon_names()[j] by {
                if path@ == "icons/"@ + icon_names()[j] {
                    assert(rest@ =~= icon_names()[j]);
                }
            }
        }
        None
    }

    /// The icon names, when `path` is the icon directory (trailing slashes
    /// aside); nothing otherwise.
    pub fn list(&self, path: &str) -> (names: Vec<String>)
        ensures
            trim_slashes(path@) == "icons"@ ==> names@.len() == 4 && forall|i: int|
                0 <= i < 4 ==> #[trigger] names@[i]@ == icon_names()[i],
            trim_slashes(path@) != "icons"@ ==> names@.len() == 0,
    {
        let chars = chars_of(path);
        let mut end = chars.len();
        proof {
            assert(chars@.take(end as int) =~= chars@);
        }
        while end > 0 && chars[end - 1] == '/'
            invariant
                end <= chars@.len(),
                chars@ == path@,
                trim_slashes(chars@.take(end as int)) == trim_slashes(path@),
            decreases end,
        {
            proof {
                assert(chars@.take(end as int).drop_last() =~= chars@.take(end - 1));
            }
            end -= 1;
        }
        let directory = string_from_range(chars.as_slice(), 0, end);
        proof {
            assert(directory@ =~= chars@.take(end as int));
        }
        let mut names: Vec<String> = Vec::new();
        if !str_eq(directory.as_str(), "icons") {
            return names;
        }
        let mut i: usize = 0;
        while i < 4
            invariant
                i <= 4,
                names@.len() == i,
                forall|j: int| 0 <= j < i ==> #[trigger] names@[j]@ == icon_names()[j],
            decreases 4 - i,
        {
            names.push(icon_name(i).to_owned());
            i += 1;
        }
        names
    }
}

} // verus!
