//! Settings kept in `config.json`. A file from before the "About your work"
//! prompt may still hold the retired "Current work context"; it is appended
//! to the prompt when the file is read, and the old key is gone after the
//! next save.

use vstd::prelude::*;

use crate::text::{chars_of, string_from, trim, trim_chars};

verus! {

/// The prompt after merging the retired context into it: `None` when the
/// context is blank and the prompt stays as it is; otherwise the trimmed
/// prompt, a newline and the trimmed context, or the context alone when
/// the prompt is blank or missing.
pub open spec fn spec_merged_prompt(context: Seq<char>, prompt: Option<Seq<char>>) -> Option<Seq<char>> {
    let c = trim(context);
    let p = match prompt {
        Some(p) => trim(p),
        None => Seq::empty(),
    };
    if c.len() == 0 {
        None
    } else if p.len() == 0 {
        Some(c)
    } else {
        Some(p + seq!['\n'] + c)
    }
}

/// Merges the retired `project_context` text into the stored
/// `transcription_prompt` (`None` when the file has no such text).
pub fn merged_prompt(context: &str, prompt: Option<&str>) -> (merged: Option<String>)
    ensures
        match merged {
            Some(m) => spec_merged_prompt(context@, match prompt { Some(p) => Some(p@), None => None }) == Some(m@),
            None => spec_merged_prompt(context@, match prompt { Some(p) => Some(p@), None => None }) is None,
        },
{
    let c = trim_chars(chars_of(context).as_slice());
    if c.len() == 0 {
        return None;
    }
    let mut p: Vec<char> = match prompt {
        Some(p) => trim_chars(chars_of(p).as_slice()),
        None => Vec::new(),
    };
    if p.len() == 0 {
        return Some(string_from(c.as_slice()));
    }
    let ghost head = p@;
    p.push('\n');
    let mut i: usize = 0;
    while i < c.len()
        invariant
            i <= c@.len(),
            p@ == head + seq!['\n'] + c@.take(i as int),
        decreases c@.len() - i,
    {
        p.push(c[i]);
        i += 1;
        proof {
            assert(p@ =~= head + seq!['\n'] + c@.take(i as int));
        }
    }
    proof {
        assert(c@.take(c@.len() as int) =~= c@);
    }
    Some(string_from(p.as_slice()))
}

} // verus!
