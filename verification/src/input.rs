//! Preparing a command read from a stream.
use vstd::prelude::*;

use crate::text::{str_chars, string_of_chars};

verus! {

/// `s` without one trailing line end: a final `\n`, together with a `\r`
/// just before it.
pub open spec fn spec_strip_line_end(s: Seq<char>) -> Seq<char> {
    if s.len() > 0 && s.last() == '\n' {
        let t = s.drop_last();
        if t.len() > 0 && t.last() == '\r' {
            t.drop_last()
        } else {
            t
        }
    } else {
        s
    }
}

/// Removes one trailing line end (`\n` or `\r\n`) from a command read from
/// standard input; anything else is kept as it is.
pub fn strip_line_end(input: &str) -> (command: String)
    ensures
        command@ == spec_strip_line_end(input@),
{
    let chars = str_chars(input);
    let n = chars.len();
    if n > 0 && chars[n - 1] == '\n' {
        if n > 1 && chars[n - 2] == '\r' {
            assert(chars@.subrange(0, n - 2) =~= chars@.drop_last().drop_last());
            string_of_chars(&chars, 0, n - 2)
        } else {
            assert(chars@.subrange(0, n - 1) =~= chars@.drop_last());
            string_of_chars(&chars, 0, n - 1)
        }
    } else {
        assert(chars@.subrange(0, n as int) =~= chars@);
        string_of_chars(&chars, 0, n)
    }
}

} // verus!
