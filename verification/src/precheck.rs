//! Checks on the raw source that run before any parsing: control
//! characters, invisible Unicode whitespace, and backslash sequences on
//! which shells and the parser are known to disagree.
use vstd::prelude::*;
use vstd::string::StringSliceAdditionalSpecFns;
use vstd::utf8::*;

use crate::model::{TooComplex, TooComplexView};
use crate::text::str_chars;

verus! {

/// NUL, C0 control bytes other than tab and newline, and DEL.
pub open spec fn is_control_byte(b: u8) -> bool {
    b <= 0x08 || (0x0B <= b && b <= 0x1F) || b == 0x7F
}

/// Unicode whitespace that renders invisibly or differently from a space.
pub open spec fn is_suspicious_unicode_whitespace(c: char) -> bool {
    ||| c == '\u{00A0}'
    ||| c == '\u{1680}'
    ||| ('\u{2000}' <= c && c <= '\u{200B}')
    ||| c == '\u{2028}'
    ||| c == '\u{2029}'
    ||| c == '\u{202F}'
    ||| c == '\u{205F}'
    ||| c == '\u{3000}'
    ||| c == '\u{FEFF}'
}

pub open spec fn control_error() -> TooComplexView {
    TooComplexView::suspicious("contains NUL, carriage return, or another control character"@)
}

pub open spec fn unicode_error() -> TooComplexView {
    TooComplexView::suspicious("contains invisible or non-ASCII Unicode whitespace"@)
}

pub open spec fn escaped_space_error() -> TooComplexView {
    TooComplexView::suspicious("contains backslash-escaped horizontal whitespace"@)
}

pub open spec fn joining_error() -> TooComplexView {
    TooComplexView::suspicious("contains backslash-newline word joining"@)
}

/// The first backslash sequence at or after byte `i` that a shell could
/// read differently from the parser: a backslash before a space or a tab,
/// or a backslash before a newline that is not itself escaped by the
/// backslash just before it.
pub open spec fn spec_backslash_scan(bytes: Seq<u8>, i: int) -> Option<TooComplexView>
    decreases bytes.len() - i,
{
    if i < 0 || i + 1 >= bytes.len() {
        None
    } else if bytes[i] != 0x5C {
        spec_backslash_scan(bytes, i + 1)
    } else {
        let next = bytes[i + 1];
        if next == 0x20 || next == 0x09 {
            Some(escaped_space_error())
        } else if next == 0x0A && !(i > 0 && bytes[i - 1] == 0x5C) {
            Some(joining_error())
        } else {
            spec_backslash_scan(bytes, i + 1)
        }
    }
}

/// Whether any byte of `bytes` is a control byte.
pub open spec fn has_control_byte(bytes: Seq<u8>) -> bool {
    exists|i: int| 0 <= i < bytes.len() && is_control_byte(#[trigger] bytes[i])
}

/// Whether any character of `source` is suspicious whitespace.
pub open spec fn has_suspicious_whitespace(source: Seq<char>) -> bool {
    exists|i: int| 0 <= i < source.len() && is_suspicious_unicode_whitespace(#[trigger] source[i])
}

/// The refusal, if any, of a source before parsing.
pub open spec fn spec_differential_precheck(source: Seq<char>) -> Option<TooComplexView> {
    let bytes = encode_utf8(source);
    if has_control_byte(bytes) {
        Some(control_error())
    } else if has_suspicious_whitespace(source) {
        Some(unicode_error())
    } else {
        spec_backslash_scan(bytes, 0)
    }
}

fn is_suspicious_whitespace_exec(c: char) -> (suspicious: bool)
    ensures
        suspicious == is_suspicious_unicode_whitespace(c),
{
    c == '\u{00A0}' || c == '\u{1680}' || ('\u{2000}' <= c && c <= '\u{200B}') || c == '\u{2028}'
        || c == '\u{2029}' || c == '\u{202F}' || c == '\u{205F}' || c == '\u{3000}' || c
        == '\u{FEFF}'
}

/// Refuses sources that hold characters or byte sequences that shells and
/// the parser may read differently.
#[verifier::loop_isolation(false)]
pub fn differential_precheck(source: &str) -> (refusal: Option<TooComplex>)
    ensures
        match spec_differential_precheck(source@) {
            Some(e) => refusal matches Some(x) && x@ == e,
            None => refusal is None,
        },
{
    let bytes = source.as_bytes();
    let mut i: usize = 0;
    while i < bytes.len()
        invariant
            bytes@ == encode_utf8(source@),
            0 <= i <= bytes@.len(),
            forall|j: int| 0 <= j < i ==> !is_control_byte(#[trigger] bytes@[j]),
        decreases bytes@.len() - i,
    {
        let b = bytes[i];
        if b <= 0x08 || (0x0B <= b && b <= 0x1F) || b == 0x7F {
            assert(is_control_byte(bytes@[i as int]));
            return Some(
                TooComplex::suspicious("contains NUL, carriage return, or another control character"),
            );
        }
        i = i + 1;
    }
    let chars = str_chars(source);
    let mut k: usize = 0;
    while k < chars.len()
        invariant
            chars@ == source@,
            0 <= k <= chars@.len(),
            forall|j: int| 0 <= j < k ==> !is_suspicious_unicode_whitespace(#[trigger] chars@[j]),
        decreases chars@.len() - k,
    {
        if is_suspicious_whitespace_exec(chars[k]) {
            assert(is_suspicious_unicode_whitespace(chars@[k as int]));
            return Some(
                TooComplex::suspicious("contains invisible or non-ASCII Unicode whitespace"),
            );
        }
        k = k + 1;
    }
    let n = bytes.len();
    let last: usize = if n > 0 { n - 1 } else { 0 };
    let mut index: usize = 0;
    while index < last
        invariant
            bytes@ == encode_utf8(source@),
            n == bytes@.len(),
            0 <= index <= n,
            spec_backslash_scan(bytes@, 0) == spec_backslash_scan(bytes@, index as int),
        decreases n - index,
    {
        if bytes[index] == 0x5C {
            let next = bytes[index + 1];
            if next == 0x20 || next == 0x09 {
                return Some(
                    TooComplex::suspicious("contains backslash-escaped horizontal whitespace"),
                );
            }
            if next == 0x0A && !(index > 0 && bytes[index - 1] == 0x5C) {
                return Some(TooComplex::suspicious("contains backslash-newline word joining"));
            }
        }
        index = index + 1;
    }
    None
}

/// Whether the source is only spaces, tabs and newlines (possibly none).
pub open spec fn is_blank(source: Seq<char>) -> bool {
    forall|i: int| 0 <= i < source.len() ==> #[trigger] source[i] == ' ' || source[i] == '\t'
        || source[i] == '\n'
}

pub fn is_blank_exec(source: &str) -> (blank: bool)
    ensures
        blank == is_blank(source@),
{
    let chars = str_chars(source);
    let mut i: usize = 0;
    while i < chars.len()
        invariant
            chars@ == source@,
            0 <= i <= chars@.len(),
            forall|j: int| 0 <= j < i ==> #[trigger] chars@[j] == ' ' || chars@[j] == '\t'
                || chars@[j] == '\n',
        decreases chars@.len() - i,
    {
        let c = chars[i];
        if !(c == ' ' || c == '\t' || c == '\n') {
            return false;
        }
        i = i + 1;
    }
    true
}

} // verus!
