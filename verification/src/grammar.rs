//! The tree-sitter Bash grammar: parser setup, and parsing a source into
//! a plain `SyntaxNode` tree.
use vstd::prelude::*;
use vstd::utf8::*;

use tree_sitter::{Language, LanguageError, Node, Parser};

use crate::limits::ParseLimits;
use crate::parser::setup_error_prefix;
use crate::syntax::SyntaxNode;
use crate::text::push_text;

verus! {

#[verifier::external_type_specification]
#[verifier::external_body]
pub struct ExParser(tree_sitter::Parser);

#[verifier::external_type_specification]
#[verifier::external_body]
pub struct ExNode<'tree>(tree_sitter::Node<'tree>);

#[verifier::external_type_specification]
#[verifier::external_body]
pub struct ExLanguage(tree_sitter::Language);

#[verifier::external_type_specification]
#[verifier::external_body]
pub struct ExLanguageError(tree_sitter::LanguageError);

/// `Parser::new`: a parser with no language assigned.
#[verifier::external_body]
pub(crate) fn new_parser() -> Parser {
    Parser::new()
}

/// `Language::new` on `tree_sitter_bash::LANGUAGE`: the Bash grammar.
#[verifier::external_body]
pub(crate) fn bash_language() -> Language {
    Language::new(tree_sitter_bash::LANGUAGE)
}

/// `Parser::set_language`: fails when the grammar's ABI version is not one
/// that this tree-sitter supports.
#[verifier::external_body]
pub(crate) fn set_parser_language(parser: &mut Parser, language: &Language) -> Result<
    (),
    LanguageError,
> {
    parser.set_language(language)
}

/// The `Display` text of a `LanguageError`.
#[verifier::external_body]
pub(crate) fn language_error_message(error: &LanguageError) -> String {
    error.to_string()
}

/// A fresh parser whose language is the Bash grammar, and the timeout in
/// microseconds that it was given. It is made only by `configured_parser`
/// and used for one parse only.
pub(crate) struct BashParser {
    parser: Parser,
    timeout_micros: u64,
}

impl BashParser {
    /// The timeout, in microseconds, that the parser was given.
    pub(crate) closed spec fn timeout(self) -> u64 {
        self.timeout_micros
    }
}

/// `Parser::set_timeout_micros` with `micros`, the time after which parsing
/// gives up; the parser is kept together with that timeout.
#[verifier::external_body]
fn timed_parser(parser: Parser, micros: u64) -> (timed: BashParser)
    ensures
        timed.timeout() == micros,
{
    let mut parser = parser;
    #[allow(deprecated)]
    parser.set_timeout_micros(micros);
    BashParser { parser, timeout_micros: micros }
}

/// A parser for the Bash grammar that gives up after `limits`' timeout, or
/// the message of why the grammar could not be loaded.
pub(crate) fn configured_parser(limits: ParseLimits) -> (parser: Result<BashParser, String>)
    ensures
        parser matches Err(message) ==> setup_error_prefix().is_prefix_of(message@),
        parser matches Ok(p) ==> p.timeout() == limits.spec_effective_timeout_micros(),
{
    let mut parser = new_parser();
    let language = bash_language();
    if let Err(error) = set_parser_language(&mut parser, &language) {
        let mut message = "failed to load the tree-sitter-bash grammar: ".to_owned();
        let text = language_error_message(&error);
        push_text(&mut message, text.as_str());
        assert(message@ == setup_error_prefix() + text@);
        assert(message@.take(setup_error_prefix().len() as int) =~= setup_error_prefix());
        return Err(message);
    }
    Ok(timed_parser(parser, limits.effective_timeout_micros()))
}

/// The syntax tree that the Bash grammar gives for the UTF-8 text `source`,
/// node for node: each node's kind, whether it is named, an error node or a
/// missing node, its byte range, the field label it has in its parent, and
/// its children in order.
pub uninterp spec fn bash_syntax(source: Seq<u8>) -> SyntaxNode;

/// `Parser::parse` on `source` with a fresh Bash parser, the tree it
/// returns copied by `copy_node`. `None` when the parser timed out or was
/// cancelled. The tree depends on the source alone: the grammar is fixed,
/// the parser is fresh (no earlier parse to resume), and the timeout only
/// decides whether a tree comes back at all.
#[verifier::external_body]
pub(crate) fn parse_syntax(parser: BashParser, source: &str) -> (tree: Option<SyntaxNode>)
    ensures
        tree matches Some(t) ==> t == bash_syntax(encode_utf8(source@)),
{
    let mut parser = parser.parser;
    let tree = parser.parse(source.as_bytes(), None)?;
    Some(copy_node(tree.root_node(), None))
}

/// Copies a tree-sitter node and its subtree into a `SyntaxNode`, one node
/// for one node, with `field` as the node's label in its parent; the
/// children's labels come from `Node::field_name_for_child`.
#[verifier::external_body]
fn copy_node(node: Node, field: Option<&'static str>) -> SyntaxNode {
    let mut cursor = node.walk();
    let children = node.children(&mut cursor).enumerate().map(|(i, child)| {
        copy_node(child, node.field_name_for_child(i as u32))
    }).collect();
    SyntaxNode {
        kind: node.kind().to_owned(),
        field: field.map(str::to_owned),
        is_named: node.is_named(),
        is_error: node.is_error(),
        is_missing: node.is_missing(),
        start_byte: node.start_byte(),
        end_byte: node.end_byte(),
        children,
    }
}

} // verus!
