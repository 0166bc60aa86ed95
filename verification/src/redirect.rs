//! File redirects (`>`, `>>`, `<`, `>&`, `>|`, `<&`, `&>`, `&>>`).
use vstd::prelude::*;

use crate::argument::{
    is_ascii_digit, parse_argument, spec_parse_argument, string_result_matches,
};
use crate::model::{Redirect, RedirectOp, RedirectView, TooComplex, TooComplexView, strings_view};
use crate::structure::{source_slice, spec_node_text};
use crate::syntax::SyntaxNode;
use crate::text::{decimal, push_number, str_chars, text_eq};

verus! {

/// The decimal value of a string of ASCII digits.
pub open spec fn digits_value(s: Seq<char>) -> nat
    decreases s.len(),
{
    if s.len() == 0 {
        0
    } else {
        digits_value(s.drop_last()) * 10 + (s.last() as nat - 48) as nat
    }
}

/// The digits of an unsigned decimal literal: the text after an optional `+`.
pub open spec fn unsigned_digits(text: Seq<char>) -> Seq<char> {
    if text.len() > 0 && text[0] == '+' {
        text.subrange(1, text.len() as int)
    } else {
        text
    }
}

/// Whether every character of `s` is an ASCII digit.
pub open spec fn all_ascii_digits(s: Seq<char>) -> bool {
    forall|j: int| 0 <= j < s.len() ==> is_ascii_digit(#[trigger] s[j])
}

/// `u32::from_str`: an optional `+`, then one or more ASCII digits whose
/// value fits in a `u32`.
pub open spec fn spec_parse_u32(text: Seq<char>) -> Option<u32> {
    let digits = unsigned_digits(text);
    if digits.len() > 0 && all_ascii_digits(digits) && digits_value(digits) <= u32::MAX {
        Some(digits_value(digits) as u32)
    } else {
        None
    }
}

/// Parses a decimal `u32` as `str::parse::<u32>` does.
#[verifier::loop_isolation(false)]
pub fn parse_u32(text: &str) -> (value: Option<u32>)
    ensures
        value == spec_parse_u32(text@),
{
    let chars = str_chars(text);
    let start: usize = if chars.len() > 0 && chars[0] == '+' { 1 } else { 0 };
    let ghost digits = unsigned_digits(text@);
    assert(digits =~= chars@.subrange(start as int, chars@.len() as int));
    if start >= chars.len() {
        return None;
    }
    let mut acc: u64 = 0;
    let mut i: usize = start;
    while i < chars.len()
        invariant
            start <= i <= chars@.len(),
            digits =~= chars@.subrange(start as int, chars@.len() as int),
            forall|j: int| start <= j < i ==> is_ascii_digit(#[trigger] chars@[j]),
            acc as nat == digits_value(chars@.subrange(start as int, i as int)),
            acc <= u32::MAX,
        decreases chars@.len() - i,
    {
        let c = chars[i];
        if !('0' <= c && c <= '9') {
            assert(digits[i - start] == c);
            assert(!is_ascii_digit(digits[i - start]));
            return None;
        }
        let d = (c as u32 - 48) as u64;
        assert(chars@.subrange(start as int, i + 1).drop_last() =~= chars@.subrange(
            start as int,
            i as int,
        ));
        acc = acc * 10 + d;
        if acc > 4294967295 {
            proof {
                lemma_digits_value_monotone(digits, i + 1 - start);
                assert(digits.take(i + 1 - start) =~= chars@.subrange(start as int, i + 1));
            }
            return None;
        }
        i = i + 1;
    }
    assert(chars@.subrange(start as int, i as int) =~= digits);
    Some(acc as u32)
}

/// A prefix of a digit string never has a larger value than the whole.
proof fn lemma_digits_value_monotone(s: Seq<char>, k: int)
    requires
        0 <= k <= s.len(),
    ensures
        digits_value(s.take(k)) <= digits_value(s),
    decreases s.len() - k,
{
    if k < s.len() {
        lemma_digits_value_monotone(s, k + 1);
        assert(s.take(k + 1).drop_last() =~= s.take(k));
    } else {
        assert(s.take(k) =~= s);
    }
}

/// The redirect operator that a token kind spells, if any.
pub open spec fn spec_redirect_op_of(kind: Seq<char>) -> Option<RedirectOp> {
    if kind == ">"@ {
        Some(RedirectOp::Write)
    } else if kind == ">>"@ {
        Some(RedirectOp::Append)
    } else if kind == "<"@ {
        Some(RedirectOp::Read)
    } else if kind == ">&"@ {
        Some(RedirectOp::DuplicateOutput)
    } else if kind == ">|"@ {
        Some(RedirectOp::Clobber)
    } else if kind == "<&"@ {
        Some(RedirectOp::DuplicateInput)
    } else if kind == "&>"@ {
        Some(RedirectOp::WriteBoth)
    } else if kind == "&>>"@ {
        Some(RedirectOp::AppendBoth)
    } else {
        None
    }
}

fn redirect_op_of(kind: &str) -> (op: Option<RedirectOp>)
    ensures
        op == spec_redirect_op_of(kind@),
{
    if text_eq(kind, ">") {
        Some(RedirectOp::Write)
    } else if text_eq(kind, ">>") {
        Some(RedirectOp::Append)
    } else if text_eq(kind, "<") {
        Some(RedirectOp::Read)
    } else if text_eq(kind, ">&") {
        Some(RedirectOp::DuplicateOutput)
    } else if text_eq(kind, ">|") {
        Some(RedirectOp::Clobber)
    } else if text_eq(kind, "<&") {
        Some(RedirectOp::DuplicateInput)
    } else if text_eq(kind, "&>") {
        Some(RedirectOp::WriteBoth)
    } else if text_eq(kind, "&>>") {
        Some(RedirectOp::AppendBoth)
    } else {
        None
    }
}

/// What a scan of a `file_redirect`'s children has gathered so far.
pub struct RedirectScan {
    pub fd: Option<u32>,
    pub op: Option<RedirectOp>,
    pub targets: Seq<Seq<char>>,
}

/// Scans the children of a `file_redirect` from index `i` on.
pub open spec fn spec_redirect_scan(
    source: Seq<char>,
    node: SyntaxNode,
    i: int,
    st: RedirectScan,
) -> Result<RedirectScan, TooComplexView>
    decreases node.children@.len() - i,
{
    if i < 0 || i >= node.children@.len() {
        Ok(st)
    } else {
        let child = node.children@[i];
        let k = child.kind@;
        if k == "file_descriptor"@ {
            match spec_node_text(source, child) {
                Err(e) => Err(e),
                Ok(text) => match spec_parse_u32(text) {
                    None => Err(
                        TooComplexView::dynamic(
                            "file_descriptor"@,
                            "only numeric file descriptors are supported"@,
                        ),
                    ),
                    Some(fd) => spec_redirect_scan(
                        source,
                        node,
                        i + 1,
                        RedirectScan { fd: Some(fd), ..st },
                    ),
                },
            }
        } else if spec_redirect_op_of(k) is Some {
            spec_redirect_scan(source, node, i + 1, RedirectScan { op: spec_redirect_op_of(k), ..st })
        } else if k == "<&-"@ || k == ">&-"@ {
            Err(
                TooComplexView::unsupported_with_detail(
                    k,
                    "file-descriptor closing redirects are not supported in the MVP"@,
                ),
            )
        } else if k == "comment"@ {
            spec_redirect_scan(source, node, i + 1, st)
        } else if child.is_named {
            match spec_parse_argument(source, child) {
                Err(e) => Err(e),
                Ok(target) => spec_redirect_scan(
                    source,
                    node,
                    i + 1,
                    RedirectScan { targets: st.targets.push(target), ..st },
                ),
            }
        } else {
            Err(TooComplexView::unsupported(k))
        }
    }
}

/// A redirect node as a `Redirect`, or why it cannot be one.
pub open spec fn spec_parse_redirect(source: Seq<char>, node: SyntaxNode) -> Result<
    RedirectView,
    TooComplexView,
> {
    let k = node.kind@;
    if k == "heredoc_redirect"@ {
        Err(
            TooComplexView::unsupported_with_detail(
                "heredoc_redirect"@,
                "heredoc bodies are recognized but not interpreted in the MVP"@,
            ),
        )
    } else if k == "herestring_redirect"@ {
        Err(
            TooComplexView::unsupported_with_detail(
                "herestring_redirect"@,
                "herestring expansion is not interpreted in the MVP"@,
            ),
        )
    } else if k != "file_redirect"@ {
        Err(TooComplexView::unsupported(k))
    } else {
        match spec_redirect_scan(
            source,
            node,
            0,
            RedirectScan { fd: None, op: None, targets: seq![] },
        ) {
            Err(e) => Err(e),
            Ok(st) => match st.op {
                None => Err(
                    TooComplexView::invalid_structure(
                        "file_redirect has no recognized redirect operator"@,
                    ),
                ),
                Some(op) => if st.targets.len() != 1 {
                    Err(
                        TooComplexView::invalid_structure(
                            "redirect must have exactly one static target, found "@ + decimal(
                                st.targets.len(),
                            ),
                        ),
                    )
                } else {
                    Ok(RedirectView { op, target: st.targets[0], fd: st.fd })
                },
            },
        }
    }
}

/// Relates an executable redirect result to its specification.
pub open spec fn redirect_result_matches(
    r: Result<Redirect, TooComplex>,
    s: Result<RedirectView, TooComplexView>,
) -> bool {
    match s {
        Ok(v) => r matches Ok(x) && x@ == v,
        Err(e) => r matches Err(x) && x@ == e,
    }
}

#[verifier::loop_isolation(false)]
pub fn parse_redirect(node: &SyntaxNode, source: &str) -> (redirect: Result<Redirect, TooComplex>)
    ensures
        redirect_result_matches(redirect, spec_parse_redirect(source@, *node)),
{
    let kind = node.kind.as_str();
    if text_eq(kind, "heredoc_redirect") {
        return Err(
            TooComplex::unsupported_with_detail(
                "heredoc_redirect",
                "heredoc bodies are recognized but not interpreted in the MVP",
            ),
        );
    }
    if text_eq(kind, "herestring_redirect") {
        return Err(
            TooComplex::unsupported_with_detail(
                "herestring_redirect",
                "herestring expansion is not interpreted in the MVP",
            ),
        );
    }
    if !text_eq(kind, "file_redirect") {
        return Err(TooComplex::unsupported(kind));
    }
    let mut fd: Option<u32> = None;
    let mut op: Option<RedirectOp> = None;
    let mut targets: Vec<String> = Vec::new();
    let mut i: usize = 0;
    let ghost init = RedirectScan { fd: None, op: None, targets: seq![] };
    assert(strings_view(targets@) =~= seq![]);
    while i < node.children.len()
        invariant
            0 <= i <= node.children@.len(),
            spec_redirect_scan(source@, *node, 0, init) == spec_redirect_scan(
                source@,
                *node,
                i as int,
                RedirectScan { fd, op, targets: strings_view(targets@) },
            ),
        decreases node.children@.len() - i,
    {
        let child = &node.children[i];
        let k = child.kind.as_str();
        if text_eq(k, "file_descriptor") {
            let text = source_slice(source, child.start_byte, child.end_byte)?;
            match parse_u32(text) {
                Some(v) => {
                    fd = Some(v);
                },
                None => {
                    return Err(
                        TooComplex::dynamic(
                            "file_descriptor",
                            "only numeric file descriptors are supported",
                        ),
                    );
                },
            }
        } else if let Some(found) = redirect_op_of(k) {
            op = Some(found);
        } else if text_eq(k, "<&-") || text_eq(k, ">&-") {
            return Err(
                TooComplex::unsupported_with_detail(
                    k,
                    "file-descriptor closing redirects are not supported in the MVP",
                ),
            );
        } else if text_eq(k, "comment") {
        } else if child.is_named {
            let target = parse_argument(child, source)?;
            let ghost before = targets@;
            targets.push(target);
            assert(strings_view(targets@) =~= strings_view(before).push(target@));
        } else {
            return Err(TooComplex::unsupported(k));
        }
        i = i + 1;
    }
    let op = match op {
        Some(op) => op,
        None => {
            return Err(
                TooComplex::invalid_structure("file_redirect has no recognized redirect operator"),
            );
        },
    };
    if targets.len() != 1 {
        let mut detail = "redirect must have exactly one static target, found ".to_owned();
        push_number(&mut detail, targets.len());
        return Err(TooComplex::invalid_structure(detail.as_str()));
    }
    let target = targets.remove(0);
    Ok(Redirect { op, target, fd })
}

} // verus!
