//! Static resolution of argument-like nodes (words, quoted strings,
//! numbers, concatenations) and of `NAME=value` assignments.
use vstd::prelude::*;

use crate::model::{EnvAssignment, EnvAssignmentView, TooComplex, TooComplexView};
use crate::structure::{source_slice, spec_node_text};
use crate::syntax::{field_child, field_position, first_named_from, named_count, SyntaxNode};
use crate::text::{
    chars_contain, decimal, push_char, push_number, push_text, str_chars, string_of_chars,
    text_eq,
};

verus! {

/// Node kinds whose value is only known when the shell runs.
pub open spec fn is_expansion_kind(kind: Seq<char>) -> bool {
    ||| kind == "command_substitution"@
    ||| kind == "process_substitution"@
    ||| kind == "simple_expansion"@
    ||| kind == "expansion"@
    ||| kind == "arithmetic_expansion"@
    ||| kind == "brace_expression"@
    ||| kind == "extglob_pattern"@
}

/// Node kinds that may stand as a literal argument.
pub open spec fn is_literal_kind(kind: Seq<char>) -> bool {
    ||| kind == "word"@
    ||| kind == "string"@
    ||| kind == "raw_string"@
    ||| kind == "number"@
    ||| kind == "concatenation"@
}

/// Characters that make an unquoted word subject to glob or brace expansion.
pub open spec fn is_glob_char(c: char) -> bool {
    c == '*' || c == '?' || c == '[' || c == ']' || c == '{' || c == '}'
}

/// The static value of an argument-like node, or why it has none.
pub open spec fn spec_parse_argument(source: Seq<char>, node: SyntaxNode) -> Result<
    Seq<char>,
    TooComplexView,
>
    decreases node, node.children@.len() + 2,
{
    let kind = node.kind@;
    if kind == "command_name"@ {
        spec_parse_command_name(source, node)
    } else if kind == "word"@ {
        spec_parse_unquoted_word(source, node)
    } else if kind == "string"@ {
        spec_parse_double_quoted(source, node)
    } else if kind == "raw_string"@ {
        spec_parse_single_quoted(source, node)
    } else if kind == "number"@ {
        spec_parse_number(source, node)
    } else if kind == "concatenation"@ {
        spec_concat_scan(source, node, 0, seq![], false)
    } else if kind == "_empty_value"@ {
        Ok(seq![])
    } else if is_expansion_kind(kind) {
        Err(
            TooComplexView::dynamic(
                kind,
                "runtime expansion cannot be represented as a trustworthy static argv entry"@,
            ),
        )
    } else {
        Err(TooComplexView::unsupported(kind))
    }
}

/// A `command_name` must wrap exactly one named child, whose value it takes.
pub open spec fn spec_parse_command_name(source: Seq<char>, node: SyntaxNode) -> Result<
    Seq<char>,
    TooComplexView,
>
    decreases node, node.children@.len() + 1,
{
    let count = named_count(node.children@);
    if count != 1 {
        Err(
            TooComplexView::invalid_structure(
                "command_name must contain exactly one literal child, found "@ + decimal(count),
            ),
        )
    } else {
        let i = first_named_from(node.children@, 0);
        if 0 <= i < node.children@.len() {
            spec_parse_argument(source, node.children@[i])
        } else {
            Err(TooComplexView::invalid_structure("command_name child disappeared"@))
        }
    }
}

/// Concatenation of the literal children from index `i` on, after `value`
/// was gathered from the earlier ones (`saw` tells whether any was literal).
pub open spec fn spec_concat_scan(
    source: Seq<char>,
    node: SyntaxNode,
    i: int,
    value: Seq<char>,
    saw: bool,
) -> Result<Seq<char>, TooComplexView>
    decreases node, node.children@.len() - i,
{
    if i < 0 || i >= node.children@.len() {
        if !saw {
            Err(
                TooComplexView::invalid_structure(
                    "concatenation contains no statically resolvable literal components"@,
                ),
            )
        } else {
            Ok(value)
        }
    } else {
        let child = node.children@[i];
        if child.start_byte == child.end_byte {
            spec_concat_scan(source, node, i + 1, value, saw)
        } else if !child.is_named {
            Err(
                TooComplexView::dynamic(
                    child.kind@,
                    "concatenation contains a non-literal shell token"@,
                ),
            )
        } else if is_literal_kind(child.kind@) {
            match spec_parse_argument(source, child) {
                Err(e) => Err(e),
                Ok(piece) => spec_concat_scan(source, node, i + 1, value + piece, true),
            }
        } else {
            Err(TooComplexView::dynamic(child.kind@, "concatenation contains a runtime expansion"@))
        }
    }
}

/// An unquoted word is taken literally unless it could expand at run time.
pub open spec fn spec_parse_unquoted_word(source: Seq<char>, node: SyntaxNode) -> Result<
    Seq<char>,
    TooComplexView,
> {
    if named_count(node.children@) != 0 {
        Err(TooComplexView::dynamic(node.kind@, "word contains a nested expansion"@))
    } else {
        match spec_node_text(source, node) {
            Err(e) => Err(e),
            Ok(text) => if text.contains('\\') {
                Err(
                    TooComplexView::dynamic(
                        "word"@,
                        "unquoted backslash escaping is intentionally rejected rather than guessed"@,
                    ),
                )
            } else if text.len() > 0 && text[0] == '~' {
                Err(TooComplexView::dynamic("word"@, "tilde expansion changes the runtime argv"@))
            } else if exists|j: int| 0 <= j < text.len() && is_glob_char(#[trigger] text[j]) {
                Err(
                    TooComplexView::dynamic(
                        "word"@,
                        "glob or brace expansion may change the number or value of runtime arguments"@,
                    ),
                )
            } else {
                Ok(text)
            },
        }
    }
}

/// A number is taken literally unless it holds an expansion.
pub open spec fn spec_parse_number(source: Seq<char>, node: SyntaxNode) -> Result<
    Seq<char>,
    TooComplexView,
> {
    if named_count(node.children@) != 0 {
        Err(TooComplexView::dynamic("number"@, "numeric token contains a runtime expansion"@))
    } else {
        spec_node_text(source, node)
    }
}

/// Whether `text` is wrapped in the delimiter `q` on both sides.
pub open spec fn delimited(text: Seq<char>, q: char) -> bool {
    text.len() >= 2 && text[0] == q && text.last() == q
}

/// A single-quoted string denotes exactly the characters between its quotes.
pub open spec fn spec_parse_single_quoted(source: Seq<char>, node: SyntaxNode) -> Result<
    Seq<char>,
    TooComplexView,
> {
    match spec_node_text(source, node) {
        Err(e) => Err(e),
        Ok(raw) => if !delimited(raw, '\'') {
            Err(TooComplexView::invalid_structure("raw_string is missing single-quote delimiters"@))
        } else {
            Ok(raw.subrange(1, raw.len() - 1))
        },
    }
}

/// The index of the first named node of `s` at or after `i` that is not
/// plain string content.
pub open spec fn first_expansion_from(s: Seq<SyntaxNode>, i: int) -> Option<int>
    decreases s.len() - i,
{
    if i < 0 || i >= s.len() {
        None
    } else if s[i].is_named && s[i].kind@ != "string_content"@ {
        Some(i)
    } else {
        first_expansion_from(s, i + 1)
    }
}

/// Backslash escapes of a double-quoted string body, from index `i` on.
pub open spec fn spec_decode_double_quoted(inner: Seq<char>, i: int) -> Result<
    Seq<char>,
    TooComplexView,
>
    decreases inner.len() - i,
{
    if i < 0 || i >= inner.len() {
        Ok(seq![])
    } else if inner[i] != '\\' {
        match spec_decode_double_quoted(inner, i + 1) {
            Err(e) => Err(e),
            Ok(rest) => Ok(seq![inner[i]] + rest),
        }
    } else if i + 1 >= inner.len() {
        Err(
            TooComplexView::invalid_structure(
                "double-quoted string ends with an incomplete escape"@,
            ),
        )
    } else {
        let next = inner[i + 1];
        if next == '$' || next == '`' || next == '"' || next == '\\' {
            match spec_decode_double_quoted(inner, i + 2) {
                Err(e) => Err(e),
                Ok(rest) => Ok(seq![next] + rest),
            }
        } else if next == '\n' || next == '\r' {
            Err(
                TooComplexView::dynamic(
                    "string"@,
                    "backslash-newline joining is intentionally rejected"@,
                ),
            )
        } else {
            match spec_decode_double_quoted(inner, i + 2) {
                Err(e) => Err(e),
                Ok(rest) => Ok(seq!['\\', next] + rest),
            }
        }
    }
}

/// A double-quoted string without expansions denotes its body with the
/// shell's backslash escapes resolved.
pub open spec fn spec_parse_double_quoted(source: Seq<char>, node: SyntaxNode) -> Result<
    Seq<char>,
    TooComplexView,
> {
    match first_expansion_from(node.children@, 0) {
        Some(i) => Err(
            TooComplexView::dynamic(
                node.children@[i].kind@,
                "double-quoted string contains an expansion"@,
            ),
        ),
        None => match spec_node_text(source, node) {
            Err(e) => Err(e),
            Ok(raw) => if !delimited(raw, '"') {
                Err(TooComplexView::invalid_structure("string is missing double-quote delimiters"@))
            } else {
                spec_decode_double_quoted(raw.subrange(1, raw.len() - 1), 0)
            },
        },
    }
}

pub open spec fn is_ascii_alpha(c: char) -> bool {
    ('a' <= c && c <= 'z') || ('A' <= c && c <= 'Z')
}

pub open spec fn is_ascii_digit(c: char) -> bool {
    '0' <= c && c <= '9'
}

/// A shell identifier: a letter or `_`, then letters, digits or `_`.
pub open spec fn is_valid_identifier(name: Seq<char>) -> bool {
    &&& name.len() > 0
    &&& (name[0] == '_' || is_ascii_alpha(name[0]))
    &&& forall|j: int|
        1 <= j < name.len() ==> #[trigger] name[j] == '_' || is_ascii_alpha(name[j])
            || is_ascii_digit(name[j])
}

/// The kind of the last `=` or `+=` token among `s`.
pub open spec fn last_assignment_op(s: Seq<SyntaxNode>) -> Option<Seq<char>>
    decreases s.len(),
{
    if s.len() == 0 {
        None
    } else if s.last().kind@ == "="@ || s.last().kind@ == "+="@ {
        Some(s.last().kind@)
    } else {
        last_assignment_op(s.drop_last())
    }
}

/// The value part of a `NAME=value` assignment.
pub open spec fn spec_assignment_value(source: Seq<char>, node: SyntaxNode) -> Result<
    Seq<char>,
    TooComplexView,
> {
    match field_child(node, field_position(node, "value"@)) {
        Some(v) => if v.start_byte == v.end_byte {
            Ok(seq![])
        } else {
            spec_parse_argument(source, v)
        },
        None => match spec_node_text(source, node) {
            Err(e) => Err(e),
            Ok(text) => if text.len() > 0 && text.last() == '=' {
                Ok(seq![])
            } else {
                Err(TooComplexView::invalid_structure("variable assignment has no value field"@))
            },
        },
    }
}

/// A `NAME=value` assignment with a plain name and a static value.
pub open spec fn spec_parse_env_assignment(source: Seq<char>, node: SyntaxNode) -> Result<
    EnvAssignmentView,
    TooComplexView,
> {
    if node.kind@ != "variable_assignment"@ {
        Err(TooComplexView::unsupported(node.kind@))
    } else {
        match field_child(node, field_position(node, "name"@)) {
            None => Err(TooComplexView::invalid_structure("variable assignment has no name field"@)),
            Some(name_node) => if name_node.kind@ != "variable_name"@ {
                Err(
                    TooComplexView::unsupported_with_detail(
                        name_node.kind@,
                        "array/subscript assignments are not supported in the MVP"@,
                    ),
                )
            } else {
                match spec_node_text(source, name_node) {
                    Err(e) => Err(e),
                    Ok(name) => if !is_valid_identifier(name) {
                        Err(
                            TooComplexView::invalid_structure(
                                "invalid environment variable name: "@ + name,
                            ),
                        )
                    } else {
                        match last_assignment_op(node.children@) {
                            None => Err(
                                TooComplexView::invalid_structure(
                                    "variable assignment has no recognized assignment operator"@,
                                ),
                            ),
                            Some(op) => if op != "="@ {
                                Err(
                                    TooComplexView::unsupported_with_detail(
                                        "variable_assignment"@,
                                        "append assignments (+=) are not supported in the MVP"@,
                                    ),
                                )
                            } else {
                                match spec_assignment_value(source, node) {
                                    Err(e) => Err(e),
                                    Ok(value) => Ok(EnvAssignmentView { name, value }),
                                }
                            },
                        }
                    },
                }
            },
        }
    }
}

/// Relates an executable result to its specification.
pub open spec fn string_result_matches(
    r: Result<String, TooComplex>,
    s: Result<Seq<char>, TooComplexView>,
) -> bool {
    match s {
        Ok(v) => r matches Ok(x) && x@ == v,
        Err(e) => r matches Err(x) && x@ == e,
    }
}

pub fn parse_argument(node: &SyntaxNode, source: &str) -> (value: Result<String, TooComplex>)
    ensures
        string_result_matches(value, spec_parse_argument(source@, *node)),
    decreases *node, node.children@.len() + 2,
{
    let kind = node.kind.as_str();
    if text_eq(kind, "command_name") {
        parse_command_name(node, source)
    } else if text_eq(kind, "word") {
        parse_unquoted_word(node, source)
    } else if text_eq(kind, "string") {
        parse_double_quoted(node, source)
    } else if text_eq(kind, "raw_string") {
        parse_single_quoted(node, source)
    } else if text_eq(kind, "number") {
        parse_number(node, source)
    } else if text_eq(kind, "concatenation") {
        parse_concatenation(node, source)
    } else if text_eq(kind, "_empty_value") {
        Ok(String::new())
    } else if text_eq(kind, "command_substitution") || text_eq(kind, "process_substitution")
        || text_eq(kind, "simple_expansion") || text_eq(kind, "expansion") || text_eq(
        kind,
        "arithmetic_expansion",
    ) || text_eq(kind, "brace_expression") || text_eq(kind, "extglob_pattern") {
        Err(
            TooComplex::dynamic(
                kind,
                "runtime expansion cannot be represented as a trustworthy static argv entry",
            ),
        )
    } else {
        Err(TooComplex::unsupported(kind))
    }
}

fn parse_command_name(node: &SyntaxNode, source: &str) -> (value: Result<String, TooComplex>)
    requires
        node.kind@ == "command_name"@,
    ensures
        string_result_matches(value, spec_parse_command_name(source@, *node)),
    decreases *node, node.children@.len() + 1,
{
    let count = node.named_child_count();
    if count != 1 {
        let mut detail = "command_name must contain exactly one literal child, found ".to_owned();
        push_number(&mut detail, count);
        return Err(TooComplex::invalid_structure(detail.as_str()));
    }
    match node.first_named_child() {
        Some(i) => parse_argument(&node.children[i], source),
        None => Err(TooComplex::invalid_structure("command_name child disappeared")),
    }
}

fn parse_concatenation(node: &SyntaxNode, source: &str) -> (value: Result<String, TooComplex>)
    requires
        node.kind@ == "concatenation"@,
    ensures
        string_result_matches(value, spec_concat_scan(source@, *node, 0, seq![], false)),
    decreases *node, node.children@.len(),
{
    let mut value = String::new();
    let mut saw_literal = false;
    let mut i: usize = 0;
    assert(value@ =~= seq![]);
    while i < node.children.len()
        invariant
            0 <= i <= node.children@.len(),
            spec_concat_scan(source@, *node, 0, seq![], false) == spec_concat_scan(
                source@,
                *node,
                i as int,
                value@,
                saw_literal,
            ),
        decreases node.children@.len() - i,
    {
        let child = &node.children[i];
        if child.start_byte == child.end_byte {
            i = i + 1;
            continue;
        }
        if !child.is_named {
            return Err(
                TooComplex::dynamic(
                    child.kind.as_str(),
                    "concatenation contains a non-literal shell token",
                ),
            );
        }
        let kind = child.kind.as_str();
        if text_eq(kind, "word") || text_eq(kind, "string") || text_eq(kind, "raw_string")
            || text_eq(kind, "number") || text_eq(kind, "concatenation") {
            let piece = parse_argument(child, source)?;
            push_text(&mut value, piece.as_str());
            saw_literal = true;
        } else {
            return Err(TooComplex::dynamic(kind, "concatenation contains a runtime expansion"));
        }
        i = i + 1;
    }
    if !saw_literal {
        return Err(
            TooComplex::invalid_structure(
                "concatenation contains no statically resolvable literal components",
            ),
        );
    }
    Ok(value)
}

#[verifier::loop_isolation(false)]
fn parse_unquoted_word(node: &SyntaxNode, source: &str) -> (value: Result<String, TooComplex>)
    ensures
        string_result_matches(value, spec_parse_unquoted_word(source@, *node)),
{
    if node.named_child_count() != 0 {
        return Err(TooComplex::dynamic(node.kind.as_str(), "word contains a nested expansion"));
    }
    let text = source_slice(source, node.start_byte, node.end_byte)?;
    let chars = str_chars(text);
    if chars_contain(&chars, '\\') {
        return Err(
            TooComplex::dynamic(
                "word",
                "unquoted backslash escaping is intentionally rejected rather than guessed",
            ),
        );
    }
    if chars.len() > 0 && chars[0] == '~' {
        return Err(TooComplex::dynamic("word", "tilde expansion changes the runtime argv"));
    }
    let mut i: usize = 0;
    while i < chars.len()
        invariant
            0 <= i <= chars@.len(),
            forall|j: int| 0 <= j < i ==> !is_glob_char(#[trigger] chars@[j]),
        decreases chars@.len() - i,
    {
        let c = chars[i];
        if c == '*' || c == '?' || c == '[' || c == ']' || c == '{' || c == '}' {
            assert(is_glob_char(chars@[i as int]));
            return Err(
                TooComplex::dynamic(
                    "word",
                    "glob or brace expansion may change the number or value of runtime arguments",
                ),
            );
        }
        i = i + 1;
    }
    Ok(text.to_owned())
}

fn parse_number(node: &SyntaxNode, source: &str) -> (value: Result<String, TooComplex>)
    ensures
        string_result_matches(value, spec_parse_number(source@, *node)),
{
    if node.named_child_count() != 0 {
        return Err(TooComplex::dynamic("number", "numeric token contains a runtime expansion"));
    }
    let text = source_slice(source, node.start_byte, node.end_byte)?;
    Ok(text.to_owned())
}

fn parse_single_quoted(node: &SyntaxNode, source: &str) -> (value: Result<String, TooComplex>)
    ensures
        string_result_matches(value, spec_parse_single_quoted(source@, *node)),
{
    let raw = source_slice(source, node.start_byte, node.end_byte)?;
    let chars = str_chars(raw);
    let n = chars.len();
    if n < 2 || chars[0] != '\'' || chars[n - 1] != '\'' {
        return Err(TooComplex::invalid_structure("raw_string is missing single-quote delimiters"));
    }
    Ok(string_of_chars(&chars, 1, n - 1))
}

fn parse_double_quoted(node: &SyntaxNode, source: &str) -> (value: Result<String, TooComplex>)
    ensures
        string_result_matches(value, spec_parse_double_quoted(source@, *node)),
{
    let mut i: usize = 0;
    while i < node.children.len()
        invariant
            0 <= i <= node.children@.len(),
            first_expansion_from(node.children@, 0) == first_expansion_from(
                node.children@,
                i as int,
            ),
        decreases node.children@.len() - i,
    {
        let child = &node.children[i];
        if child.is_named && !text_eq(child.kind.as_str(), "string_content") {
            return Err(
                TooComplex::dynamic(
                    child.kind.as_str(),
                    "double-quoted string contains an expansion",
                ),
            );
        }
        i = i + 1;
    }
    let raw = source_slice(source, node.start_byte, node.end_byte)?;
    let chars = str_chars(raw);
    let n = chars.len();
    if n < 2 || chars[0] != '"' || chars[n - 1] != '"' {
        return Err(TooComplex::invalid_structure("string is missing double-quote delimiters"));
    }
    let inner = string_of_chars(&chars, 1, n - 1);
    decode_double_quoted(inner.as_str())
}

fn decode_double_quoted(inner: &str) -> (value: Result<String, TooComplex>)
    ensures
        string_result_matches(value, spec_decode_double_quoted(inner@, 0)),
{
    let chars = str_chars(inner);
    let mut output = String::new();
    let mut i: usize = 0;
    assert(output@ =~= seq![]);
    while i < chars.len()
        invariant
            0 <= i <= chars@.len(),
            chars@ == inner@,
            spec_decode_double_quoted(inner@, 0) == match spec_decode_double_quoted(
                inner@,
                i as int,
            ) {
                Ok(rest) => Ok(output@ + rest),
                Err(e) => Err(e),
            },
        decreases chars@.len() - i,
    {
        let character = chars[i];
        if character != '\\' {
            proof {
                let s = inner@;
                match spec_decode_double_quoted(s, i + 1) {
                    Ok(rest) => {
                        assert(output@ + (seq![character] + rest) =~= output@.push(character)
                            + rest);
                    },
                    Err(_) => {},
                }
            }
            push_char(&mut output, character);
            i = i + 1;
            continue;
        }
        if i + 1 >= chars.len() {
            return Err(
                TooComplex::invalid_structure("double-quoted string ends with an incomplete escape"),
            );
        }
        let next = chars[i + 1];
        if next == '$' || next == '`' || next == '"' || next == '\\' {
            proof {
                match spec_decode_double_quoted(inner@, i + 2) {
                    Ok(rest) => {
                        assert(output@ + (seq![next] + rest) =~= output@.push(next) + rest);
                    },
                    Err(_) => {},
                }
            }
            push_char(&mut output, next);
        } else if next == '\n' || next == '\r' {
            return Err(
                TooComplex::dynamic("string", "backslash-newline joining is intentionally rejected"),
            );
        } else {
            proof {
                match spec_decode_double_quoted(inner@, i + 2) {
                    Ok(rest) => {
                        assert(output@ + (seq!['\\', next] + rest) =~= output@.push('\\').push(next)
                            + rest);
                    },
                    Err(_) => {},
                }
            }
            push_char(&mut output, '\\');
            push_char(&mut output, next);
        }
        i = i + 2;
    }
    assert(output@ + seq![] =~= output@);
    Ok(output)
}

fn is_valid_identifier_exec(name: &str) -> (valid: bool)
    ensures
        valid == is_valid_identifier(name@),
{
    let chars = str_chars(name);
    if chars.len() == 0 {
        return false;
    }
    let first = chars[0];
    if !(first == '_' || ('a' <= first && first <= 'z') || ('A' <= first && first <= 'Z')) {
        return false;
    }
    let mut i: usize = 1;
    while i < chars.len()
        invariant
            1 <= i <= chars@.len(),
            chars@ == name@,
            forall|j: int|
                1 <= j < i ==> #[trigger] chars@[j] == '_' || is_ascii_alpha(chars@[j])
                    || is_ascii_digit(chars@[j]),
        decreases chars@.len() - i,
    {
        let c = chars[i];
        if !(c == '_' || ('a' <= c && c <= 'z') || ('A' <= c && c <= 'Z') || ('0' <= c && c
            <= '9')) {
            return false;
        }
        i = i + 1;
    }
    true
}

/// Relates an executable assignment result to its specification.
pub open spec fn env_result_matches(
    r: Result<EnvAssignment, TooComplex>,
    s: Result<EnvAssignmentView, TooComplexView>,
) -> bool {
    match s {
        Ok(v) => r matches Ok(x) && x@ == v,
        Err(e) => r matches Err(x) && x@ == e,
    }
}

pub fn parse_env_assignment(node: &SyntaxNode, source: &str) -> (assignment: Result<
    EnvAssignment,
    TooComplex,
>)
    ensures
        env_result_matches(assignment, spec_parse_env_assignment(source@, *node)),
{
    if !text_eq(node.kind.as_str(), "variable_assignment") {
        return Err(TooComplex::unsupported(node.kind.as_str()));
    }
    let name_node = match node.field(node.field_position("name")) {
        Some(n) => n,
        None => {
            return Err(TooComplex::invalid_structure("variable assignment has no name field"));
        },
    };
    if !text_eq(name_node.kind.as_str(), "variable_name") {
        return Err(
            TooComplex::unsupported_with_detail(
                name_node.kind.as_str(),
                "array/subscript assignments are not supported in the MVP",
            ),
        );
    }
    let name = source_slice(source, name_node.start_byte, name_node.end_byte)?;
    if !is_valid_identifier_exec(name) {
        let mut detail = "invalid environment variable name: ".to_owned();
        push_text(&mut detail, name);
        return Err(TooComplex::invalid_structure(detail.as_str()));
    }
    let mut saw_assign = false;
    let mut saw_append = false;
    let mut i: usize = 0;
    while i < node.children.len()
        invariant
            0 <= i <= node.children@.len(),
            match last_assignment_op(node.children@.take(i as int)) {
                None => !saw_assign && !saw_append,
                Some(op) => (op == "="@ ==> saw_assign && !saw_append) && (op != "="@
                    ==> op == "+="@ && saw_append && !saw_assign),
            },
        decreases node.children@.len() - i,
    {
        assert(node.children@.take(i + 1).drop_last() =~= node.children@.take(i as int));
        let k = node.children[i].kind.as_str();
        if text_eq(k, "=") {
            saw_assign = true;
            saw_append = false;
        } else if text_eq(k, "+=") {
            saw_assign = false;
            saw_append = true;
        }
        i = i + 1;
    }
    assert(node.children@.take(i as int) =~= node.children@);
    if saw_append {
        return Err(
            TooComplex::unsupported_with_detail(
                "variable_assignment",
                "append assignments (+=) are not supported in the MVP",
            ),
        );
    }
    if !saw_assign {
        return Err(
            TooComplex::invalid_structure(
                "variable assignment has no recognized assignment operator",
            ),
        );
    }
    let value = match node.field(node.field_position("value")) {
        Some(value_node) => {
            if value_node.start_byte == value_node.end_byte {
                String::new()
            } else {
                parse_argument(value_node, source)?
            }
        },
        None => {
            let text = source_slice(source, node.start_byte, node.end_byte)?;
            let chars = str_chars(text);
            if chars.len() > 0 && chars[chars.len() - 1] == '=' {
                String::new()
            } else {
                return Err(TooComplex::invalid_structure("variable assignment has no value field"));
            }
        },
    };
    Ok(EnvAssignment { name: name.to_owned(), value })
}

} // verus!
