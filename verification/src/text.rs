//! Text helpers shared by the analysis: UTF-8 byte slicing, string
//! comparison, character iteration and decimal formatting.
use vstd::prelude::*;
use vstd::utf8::*;
use vstd::std_specs::iter::IteratorSpec;
use vstd::string::StringExecFns;
use vstd::string::StringSliceAdditionalSpecFns;

verus! {

/// The UTF-8 encoding of a concatenation is the concatenation of the encodings.
pub proof fn lemma_encode_utf8_concat(a: Seq<char>, b: Seq<char>)
    ensures
        encode_utf8(a + b) == encode_utf8(a) + encode_utf8(b),
    decreases a.len(),
{
    if a.len() == 0 {
        assert(a + b =~= b);
        assert(encode_utf8(a) + encode_utf8(b) =~= encode_utf8(b));
    } else {
        assert((a + b).drop_first() =~= a.drop_first() + b);
        assert((a + b)[0] == a[0]);
        lemma_encode_utf8_concat(a.drop_first(), b);
        assert(encode_utf8(a + b) =~= encode_utf8(a) + encode_utf8(b));
    }
}

/// Two character sequences are equal exactly when their UTF-8 encodings are.
pub proof fn lemma_encode_utf8_injective(a: Seq<char>, b: Seq<char>)
    ensures
        (encode_utf8(a) == encode_utf8(b)) == (a == b),
{
    encode_utf8_decode_utf8(a);
    encode_utf8_decode_utf8(b);
}

/// A prefix ending at a character boundary keeps the earlier boundaries.
pub proof fn lemma_boundary_in_prefix(bytes: Seq<u8>, start: int, end: int)
    requires
        valid_utf8(bytes),
        0 <= start <= end,
        is_char_boundary(bytes, start),
        is_char_boundary(bytes, end),
    ensures
        valid_utf8(bytes.subrange(0, end)),
        is_char_boundary(bytes.subrange(0, end), start),
{
    valid_utf8_split(bytes, end);
    let prefix = bytes.subrange(0, end);
    if start == 0 {
    } else if start == end {
        is_char_boundary_start_end_of_seq(prefix);
    } else {
        assert(end <= bytes.len()) by {
            if end > bytes.len() {
                reveal_with_fuel(is_char_boundary, 1);
            }
        }
        is_char_boundary_iff_not_is_continuation_byte(bytes, start);
        is_char_boundary_iff_not_is_continuation_byte(prefix, start);
    }
}

/// The text of `bytes[start..end]`, when both ends are character boundaries.
pub open spec fn slice_text(bytes: Seq<u8>, start: int, end: int) -> Option<Seq<char>> {
    if start <= end && is_char_boundary(bytes, start) && is_char_boundary(bytes, end) {
        Some(decode_utf8(bytes.subrange(start, end)))
    } else {
        None
    }
}

/// `source[start..end]`, or `None` when the range is reversed or either end
/// does not fall on a character boundary.
pub fn slice_str<'a>(source: &'a str, start: usize, end: usize) -> (sliced: Option<&'a str>)
    ensures
        sliced is None <==> slice_text(source.spec_bytes(), start as int, end as int) is None,
        sliced matches Some(s) ==> Some(s@) == slice_text(
            source.spec_bytes(),
            start as int,
            end as int,
        ),
{
    if start <= end && source.is_char_boundary(start) && source.is_char_boundary(end) {
        proof {
            encode_utf8_valid_utf8(source@);
            lemma_boundary_in_prefix(source.spec_bytes(), start as int, end as int);
        }
        let (left, _) = source.split_at(end);
        let (_, middle) = left.split_at(start);
        proof {
            let bytes = source.spec_bytes();
            assert(middle.spec_bytes() =~= bytes.subrange(start as int, end as int));
            encode_utf8_decode_utf8(middle@);
        }
        Some(middle)
    } else {
        None
    }
}

/// String equality, decided on the UTF-8 bytes.
pub fn text_eq(a: &str, b: &str) -> (equal: bool)
    ensures
        equal == (a@ == b@),
{
    proof {
        lemma_encode_utf8_injective(a@, b@);
    }
    let x = a.as_bytes();
    let y = b.as_bytes();
    if x.len() != y.len() {
        return false;
    }
    let mut i: usize = 0;
    while i < x.len()
        invariant
            x@ == a.spec_bytes(),
            y@ == b.spec_bytes(),
            x@.len() == y@.len(),
            0 <= i <= x@.len(),
            forall|j: int| 0 <= j < i ==> x@[j] == y@[j],
        decreases x@.len() - i,
    {
        if x[i] != y[i] {
            return false;
        }
        i = i + 1;
    }
    assert(x@ =~= y@);
    true
}

/// The characters of `s`, in order.
pub fn str_chars(s: &str) -> (chars: Vec<char>)
    ensures
        chars@ == s@,
{
    broadcast use vstd::string::axiom_spec_iter, vstd::string::next_postcondition;

    let mut iter = s.chars();
    let mut chars: Vec<char> = Vec::new();
    let ghost total = s@;
    assert(iter.remaining() == total);
    loop
        invariant
            chars@ + iter.remaining() == total,
            total == s@,
            iter.obeys_prophetic_iter_laws(),
            iter.decrease() is Some,
        decreases iter.decrease()->0,
    {
        let ghost before = iter.remaining();
        match iter.next() {
            Some(c) => {
                assert(chars@.push(c) + iter.remaining() =~= chars@ + before);
                chars.push(c);
            },
            None => {
                assert(before.len() == 0);
                assert(chars@ + before =~= chars@);
                return chars;
            },
        }
    }
}

/// Appends one character to a string (`String::push`).
#[verifier::external_body]
pub fn push_char(s: &mut String, c: char)
    ensures
        final(s)@ == old(s)@.push(c),
{
    s.push(c);
}

/// The character of a decimal digit.
pub open spec fn digit_char(d: nat) -> char {
    ((d + 48) as u32) as char
}

/// The decimal representation of `n`, most significant digit first.
pub open spec fn decimal(n: nat) -> Seq<char>
    decreases n,
{
    if n < 10 {
        seq![digit_char(n)]
    } else {
        decimal(n / 10).push(digit_char(n % 10))
    }
}

fn push_decimal(out: &mut String, n: usize)
    ensures
        final(out)@ == old(out)@ + decimal(n as nat),
    decreases n,
{
    if n >= 10 {
        push_decimal(out, n / 10);
    }
    let d: u8 = (n % 10) as u8;
    let c: char = (d + 48) as char;
    assert(c == digit_char((n % 10) as nat));
    push_char(out, c);
    assert(final(out)@ =~= old(out)@ + decimal(n as nat));
}

/// The string made of `chars[from..to]`.
pub fn string_of_chars(chars: &Vec<char>, from: usize, to: usize) -> (s: String)
    requires
        from <= to <= chars@.len(),
    ensures
        s@ == chars@.subrange(from as int, to as int),
{
    let mut s = String::new();
    let mut i = from;
    while i < to
        invariant
            from <= i <= to <= chars@.len(),
            s@ == chars@.subrange(from as int, i as int),
        decreases to - i,
    {
        push_char(&mut s, chars[i]);
        assert(s@ =~= chars@.subrange(from as int, i + 1));
        i = i + 1;
    }
    s
}

/// Whether `c` occurs in `chars`.
pub fn chars_contain(chars: &Vec<char>, c: char) -> (found: bool)
    ensures
        found == chars@.contains(c),
{
    let mut i: usize = 0;
    while i < chars.len()
        invariant
            0 <= i <= chars@.len(),
            forall|j: int| 0 <= j < i ==> chars@[j] != c,
        decreases chars@.len() - i,
    {
        if chars[i] == c {
            return true;
        }
        i = i + 1;
    }
    false
}

/// Appends `text` to `out`.
pub fn push_text(out: &mut String, text: &str)
    ensures
        final(out)@ == old(out)@ + text@,
{
    out.append(text);
}

/// Appends the decimal representation of `n` to `out`.
pub fn push_number(out: &mut String, n: usize)
    ensures
        final(out)@ == old(out)@ + decimal(n as nat),
{
    push_decimal(out, n);
}

} // verus!
