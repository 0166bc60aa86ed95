//! Spans, source slices and control operators.
use vstd::prelude::*;
use vstd::utf8::*;

use crate::model::{OperatorOccurrence, ShellOperator, Span, TooComplex, TooComplexView};
use crate::syntax::SyntaxNode;
use crate::text::{decimal, push_number, push_text, slice_str, slice_text};

verus! {

/// The UTF-8 bytes of a source text.
pub open spec fn source_bytes(source: Seq<char>) -> Seq<u8> {
    encode_utf8(source)
}

/// The byte range that a node covers.
pub open spec fn spec_node_span(node: SyntaxNode) -> Span {
    Span { start_byte: node.start_byte, end_byte: node.end_byte }
}

pub fn node_span(node: &SyntaxNode) -> (span: Span)
    ensures
        span == spec_node_span(*node),
{
    Span { start_byte: node.start_byte, end_byte: node.end_byte }
}

/// The refusal for a byte range that does not fall on character boundaries.
pub open spec fn span_error(start: usize, end: usize) -> TooComplexView {
    TooComplexView::invalid_structure(
        "tree-sitter span "@ + decimal(start as nat) + ".."@ + decimal(end as nat)
            + " is not a UTF-8 boundary"@,
    )
}

/// The text of `source[start..end]`, or the refusal when the range does not
/// fall on character boundaries.
pub open spec fn spec_source_slice(source: Seq<char>, start: usize, end: usize) -> Result<
    Seq<char>,
    TooComplexView,
> {
    match slice_text(source_bytes(source), start as int, end as int) {
        Some(text) => Ok(text),
        None => Err(span_error(start, end)),
    }
}

/// The text of a node.
pub open spec fn spec_node_text(source: Seq<char>, node: SyntaxNode) -> Result<
    Seq<char>,
    TooComplexView,
> {
    spec_source_slice(source, node.start_byte, node.end_byte)
}

pub fn source_slice<'a>(source: &'a str, start_byte: usize, end_byte: usize) -> (text: Result<
    &'a str,
    TooComplex,
>)
    ensures
        match spec_source_slice(source@, start_byte, end_byte) {
            Ok(t) => text matches Ok(s) && s@ == t,
            Err(e) => text matches Err(x) && x@ == e,
        },
{
    match slice_str(source, start_byte, end_byte) {
        Some(text) => Ok(text),
        None => {
            let mut detail = "tree-sitter span ".to_owned();
            push_number(&mut detail, start_byte);
            push_text(&mut detail, "..");
            push_number(&mut detail, end_byte);
            push_text(&mut detail, " is not a UTF-8 boundary");
            Err(TooComplex::invalid_structure(detail.as_str()))
        },
    }
}

/// The control operator that a node kind spells, if any.
pub open spec fn spec_operator_of(kind: Seq<char>) -> Option<ShellOperator> {
    if kind == "&&"@ {
        Some(ShellOperator::And)
    } else if kind == "||"@ {
        Some(ShellOperator::Or)
    } else if kind == "|"@ {
        Some(ShellOperator::Pipe)
    } else if kind == "|&"@ {
        Some(ShellOperator::PipeBoth)
    } else if kind == ";"@ {
        Some(ShellOperator::Sequence)
    } else if kind == "&"@ {
        Some(ShellOperator::Background)
    } else if kind == "\n"@ {
        Some(ShellOperator::Newline)
    } else {
        None
    }
}

/// The operator occurrence that a node stands for, if it is a control operator.
pub open spec fn spec_operator_occurrence(node: SyntaxNode) -> Option<OperatorOccurrence> {
    match spec_operator_of(node.kind@) {
        Some(op) => Some(OperatorOccurrence { op, span: spec_node_span(node) }),
        None => None,
    }
}

pub fn operator_occurrence(node: &SyntaxNode) -> (occurrence: Option<OperatorOccurrence>)
    ensures
        occurrence == spec_operator_occurrence(*node),
{
    let kind = node.kind.as_str();
    let op = if crate::text::text_eq(kind, "&&") {
        ShellOperator::And
    } else if crate::text::text_eq(kind, "||") {
        ShellOperator::Or
    } else if crate::text::text_eq(kind, "|") {
        ShellOperator::Pipe
    } else if crate::text::text_eq(kind, "|&") {
        ShellOperator::PipeBoth
    } else if crate::text::text_eq(kind, ";") {
        ShellOperator::Sequence
    } else if crate::text::text_eq(kind, "&") {
        ShellOperator::Background
    } else if crate::text::text_eq(kind, "\n") {
        ShellOperator::Newline
    } else {
        return None;
    };
    Some(OperatorOccurrence { op, span: node_span(node) })
}

} // verus!
