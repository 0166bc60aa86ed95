//! What the decoding steps mean: escapes in double quotes, assignment
//! values, declaration operands, the prechecks, and redirect order.
use vstd::prelude::*;
use vstd::utf8::*;

use crate::argument::{
    first_expansion_from, spec_decode_double_quoted, spec_parse_argument, spec_parse_env_assignment,
};
use crate::laws::{has_escaped_blank, law_precheck_refuses_suspicious_sources};
use crate::limits::ParseLimits;
use crate::model::{RedirectView, Span, TooComplexView};
use crate::precheck::{
    has_control_byte, has_suspicious_whitespace, spec_backslash_scan, spec_differential_precheck,
};
use crate::structure::spec_node_text;
use crate::syntax::{field_child, field_position, SyntaxNode};
use crate::walker::{
    is_declaration_builtin, is_redirect_kind, spec_collect_redirects, spec_declaration_scan,
    spec_walk_declaration,
};

verus! {

// ----- escapes in double quotes -----

/// No character of `s` is a backslash.
pub open spec fn no_backslash(s: Seq<char>) -> bool {
    forall|j: int| 0 <= j < s.len() ==> s[j] != '\\'
}

/// The characters that a backslash escapes inside double quotes.
pub open spec fn escapable_in_double_quotes(c: char) -> bool {
    c == '$' || c == '`' || c == '"' || c == '\\'
}

proof fn lemma_decode_shift(p: Seq<char>, r: Seq<char>, i: int)
    requires
        0 <= i,
    ensures
        spec_decode_double_quoted(p + r, p.len() + i) == spec_decode_double_quoted(r, i),
    decreases r.len() - i,
{
    let s = p + r;
    if i < r.len() {
        assert(s[p.len() + i] == r[i]);
        if i + 1 < r.len() {
            assert(s[p.len() + i + 1] == r[i + 1]);
        }
        lemma_decode_shift(p, r, i + 1);
        if i + 1 < r.len() {
            lemma_decode_shift(p, r, i + 2);
        }
        assert(p.len() + (i + 1) == p.len() + i + 1);
        assert(p.len() + (i + 2) == p.len() + i + 2);
    }
}

proof fn lemma_decode_plain_prefix(x: Seq<char>, r: Seq<char>, j: int)
    requires
        no_backslash(x),
        0 <= j <= x.len(),
    ensures
        spec_decode_double_quoted(x + r, j) == match spec_decode_double_quoted(r, 0) {
            Ok(v) => Ok::<Seq<char>, TooComplexView>(x.subrange(j, x.len() as int) + v),
            Err(e) => Err(e),
        },
    decreases x.len() - j,
{
    if j == x.len() {
        lemma_decode_shift(x, r, 0);
        if let Ok(v) = spec_decode_double_quoted(r, 0) {
            assert(x.subrange(j, x.len() as int) + v =~= v);
        }
    } else {
        let s = x + r;
        assert(s[j] == x[j]);
        lemma_decode_plain_prefix(x, r, j + 1);
        if let Ok(v) = spec_decode_double_quoted(r, 0) {
            assert(seq![x[j]] + (x.subrange(j + 1, x.len() as int) + v) =~= x.subrange(
                j,
                x.len() as int,
            ) + v);
        }
    }
}

/// Inside double quotes, text without backslashes denotes itself.
pub proof fn law_plain_double_quoted_text_is_itself(x: Seq<char>)
    requires
        no_backslash(x),
    ensures
        spec_decode_double_quoted(x, 0) == Ok::<Seq<char>, TooComplexView>(x),
{
    lemma_decode_plain_prefix(x, seq![], 0);
    assert(x + seq![] =~= x);
    assert(x.subrange(0, x.len() as int) + seq![] =~= x);
}

/// Inside double quotes, a backslash before `$`, a backtick, `"` or `\`
/// denotes that character alone: `x\cy` (with no other backslash in `x`
/// and `y`) decodes to `xcy`.
pub proof fn law_escaped_character_stands_for_itself(x: Seq<char>, c: char, y: Seq<char>)
    requires
        no_backslash(x),
        no_backslash(y),
        escapable_in_double_quotes(c),
    ensures
        spec_decode_double_quoted(x + seq!['\\', c] + y, 0) == Ok::<Seq<char>, TooComplexView>(
            x + seq![c] + y,
        ),
{
    let e = seq!['\\', c];
    let r = e + y;
    assert(x + e + y =~= x + r);
    lemma_decode_shift(e, y, 0);
    law_plain_double_quoted_text_is_itself(y);
    assert(r[0] == '\\' && r[1] == c);
    assert(spec_decode_double_quoted(r, 0) == Ok::<Seq<char>, TooComplexView>(seq![c] + y));
    lemma_decode_plain_prefix(x, r, 0);
    assert(x.subrange(0, x.len() as int) =~= x);
    assert(x + (seq![c] + y) =~= x + seq![c] + y);
}

/// Inside double quotes, a backslash before any other character (except a
/// line break, which is refused) is kept together with that character:
/// `x\cy` (with no other backslash in `x` and `y`) decodes to `x\cy`.
pub proof fn law_other_backslashes_are_kept(x: Seq<char>, c: char, y: Seq<char>)
    requires
        no_backslash(x),
        no_backslash(y),
        !escapable_in_double_quotes(c),
        c != '\n',
        c != '\r',
    ensures
        spec_decode_double_quoted(x + seq!['\\', c] + y, 0) == Ok::<Seq<char>, TooComplexView>(
            x + seq!['\\', c] + y,
        ),
{
    let e = seq!['\\', c];
    let r = e + y;
    assert(x + e + y =~= x + r);
    lemma_decode_shift(e, y, 0);
    law_plain_double_quoted_text_is_itself(y);
    assert(r[0] == '\\' && r[1] == c);
    assert(spec_decode_double_quoted(r, 0) == Ok::<Seq<char>, TooComplexView>(seq!['\\', c] + y));
    lemma_decode_plain_prefix(x, r, 0);
    assert(x.subrange(0, x.len() as int) =~= x);
    assert(x + (seq!['\\', c] + y) =~= x + seq!['\\', c] + y);
}

/// The static value of a double-quoted argument `"x\cy"` without
/// expansions is `xcy` when `c` is one of `$`, backtick, `"`, `\`.
pub proof fn law_double_quoted_argument_resolves_escapes(
    source: Seq<char>,
    node: SyntaxNode,
    x: Seq<char>,
    c: char,
    y: Seq<char>,
)
    requires
        node.kind@ == "string"@,
        first_expansion_from(node.children@, 0) is None,
        spec_node_text(source, node) == Ok::<Seq<char>, TooComplexView>(
            seq!['"'] + x + seq!['\\', c] + y + seq!['"'],
        ),
        no_backslash(x),
        no_backslash(y),
        escapable_in_double_quotes(c),
    ensures
        spec_parse_argument(source, node) == Ok::<Seq<char>, TooComplexView>(x + seq![c] + y),
{
    reveal_strlit("string");
    reveal_strlit("command_name");
    reveal_strlit("word");
    let raw = seq!['"'] + x + seq!['\\', c] + y + seq!['"'];
    assert(raw[0] == '"' && raw.last() == '"' && raw.len() >= 2);
    assert(raw.subrange(1, raw.len() - 1) =~= x + seq!['\\', c] + y);
    assert("string"@ != "command_name"@ && "string"@ != "word"@) by {
        assert("string"@.len() != "command_name"@.len() && "string"@.len() != "word"@.len());
    }
    law_escaped_character_stands_for_itself(x, c, y);
}

// ----- assignment values -----

/// A single-quoted argument denotes exactly the characters between its
/// quotes.
pub proof fn law_single_quoted_argument_is_its_inner_text(
    source: Seq<char>,
    node: SyntaxNode,
    x: Seq<char>,
)
    requires
        node.kind@ == "raw_string"@,
        spec_node_text(source, node) == Ok::<Seq<char>, TooComplexView>(
            seq!['\''] + x + seq!['\''],
        ),
    ensures
        spec_parse_argument(source, node) == Ok::<Seq<char>, TooComplexView>(x),
{
    reveal_strlit("raw_string");
    reveal_strlit("command_name");
    reveal_strlit("word");
    reveal_strlit("string");
    let raw = seq!['\''] + x + seq!['\''];
    assert(raw[0] == '\'' && raw.last() == '\'' && raw.len() >= 2);
    assert(raw.subrange(1, raw.len() - 1) =~= x);
    assert("raw_string"@ != "command_name"@ && "raw_string"@ != "word"@ && "raw_string"@
        != "string"@) by {
        assert("raw_string"@.len() != "command_name"@.len() && "raw_string"@.len() != "word"@.len()
            && "raw_string"@.len() != "string"@.len());
    }
}

/// The value of an accepted `NAME=value` assignment with a non-empty value
/// node is the static argument value of that node: the same value it would
/// have as a command argument (so `FOO='a b'` has the value `a b`).
pub proof fn law_assignment_value_is_the_argument_value(source: Seq<char>, node: SyntaxNode)
    requires
        spec_parse_env_assignment(source, node) is Ok,
        field_child(node, field_position(node, "value"@)) matches Some(v) && v.start_byte
            != v.end_byte,
    ensures
        spec_parse_argument(source, field_child(node, field_position(node, "value"@))->0) == Ok::<
            Seq<char>,
            TooComplexView,
        >(spec_parse_env_assignment(source, node)->Ok_0.value),
{
}

// ----- declaration operands -----

proof fn lemma_declaration_names(
    source: Seq<char>,
    node: SyntaxNode,
    i: int,
    argv: Seq<Seq<char>>,
    names: Seq<Seq<char>>,
)
    requires
        1 <= i <= node.children@.len(),
        node.children@.len() == names.len() + 1,
        argv.len() > 0,
        forall|j: int|
            0 <= j < names.len() ==> (#[trigger] node.children@[j + 1]).kind@ == "variable_name"@
                && spec_node_text(source, node.children@[j + 1]) == Ok::<
                Seq<char>,
                TooComplexView,
            >(names[j]),
    ensures
        spec_declaration_scan(source, node, i, argv) == Ok::<Seq<Seq<char>>, TooComplexView>(
            argv + names.subrange(i - 1, names.len() as int),
        ),
    decreases node.children@.len() - i,
{
    reveal_strlit("variable_name");
    reveal_strlit("variable_assignment");
    reveal_strlit("declare");
    reveal_strlit("typeset");
    reveal_strlit("export");
    reveal_strlit("readonly");
    reveal_strlit("local");
    if i == node.children@.len() {
        assert(argv + names.subrange(i - 1, names.len() as int) =~= argv);
    } else {
        let child = node.children@[i];
        assert(node.children@[(i - 1) + 1] == child);
        assert(child.kind@ == "variable_name"@);
        assert(child.kind@ != "variable_assignment"@) by {
            assert(child.kind@.len() != "variable_assignment"@.len());
        }
        lemma_declaration_names(source, node, i + 1, argv.push(names[i - 1]), names);
        assert(argv.push(names[i - 1]) + names.subrange(i, names.len() as int) =~= argv
            + names.subrange(i - 1, names.len() as int));
    }
}

/// A declaration builtin followed by bare variable names (`export A B`)
/// is one command whose argv is the builtin and then each name exactly as
/// written, in order (no `=` is added).
pub proof fn law_declared_names_appear_as_written(
    source: Seq<char>,
    limits: ParseLimits,
    node: SyntaxNode,
    before: nat,
    names: Seq<Seq<char>>,
)
    requires
        before < limits.max_commands,
        spec_node_text(source, node) is Ok,
        node.children@.len() == names.len() + 1,
        is_declaration_builtin(node.children@[0].kind@),
        forall|j: int|
            0 <= j < names.len() ==> (#[trigger] node.children@[j + 1]).kind@ == "variable_name"@
                && spec_node_text(source, node.children@[j + 1]) == Ok::<
                Seq<char>,
                TooComplexView,
            >(names[j]),
    ensures
        spec_walk_declaration(source, limits, node, before) matches Ok(out) && out.commands.len()
            == 1 && out.commands[0].argv == seq![node.children@[0].kind@] + names,
{
    let k = node.children@[0].kind@;
    lemma_declaration_names(source, node, 1, seq![k], names);
    assert(names.subrange(0, names.len() as int) =~= names);
}

/// A declaration builtin with one `NAME=value` operand (`export A=1`) is
/// one command whose argv is the builtin and `NAME=value`, built from the
/// operand's name and static value.
pub proof fn law_declared_assignment_is_name_equals_value(
    source: Seq<char>,
    limits: ParseLimits,
    node: SyntaxNode,
    before: nat,
)
    requires
        before < limits.max_commands,
        spec_node_text(source, node) is Ok,
        node.children@.len() == 2,
        is_declaration_builtin(node.children@[0].kind@),
        node.children@[1].kind@ == "variable_assignment"@,
        spec_parse_env_assignment(source, node.children@[1]) is Ok,
    ensures
        spec_walk_declaration(source, limits, node, before) matches Ok(out) && out.commands.len()
            == 1 && out.commands[0].argv == seq![
            node.children@[0].kind@,
            spec_parse_env_assignment(source, node.children@[1])->Ok_0.name + "="@
                + spec_parse_env_assignment(source, node.children@[1])->Ok_0.value,
        ],
{
    reveal_strlit("variable_assignment");
    reveal_strlit("declare");
    reveal_strlit("typeset");
    reveal_strlit("export");
    reveal_strlit("readonly");
    reveal_strlit("local");
    let k = node.children@[0].kind@;
    let a = spec_parse_env_assignment(source, node.children@[1])->Ok_0;
    assert(!is_declaration_builtin("variable_assignment"@)) by {
        assert("variable_assignment"@.len() != "declare"@.len());
        assert("variable_assignment"@.len() != "typeset"@.len());
        assert("variable_assignment"@.len() != "export"@.len());
        assert("variable_assignment"@.len() != "readonly"@.len());
        assert("variable_assignment"@.len() != "local"@.len());
    }
    let full = seq![k].push(a.name + "="@ + a.value);
    assert(spec_declaration_scan(source, node, 2, full) == Ok::<Seq<Seq<char>>, TooComplexView>(
        full,
    ));
    assert(spec_declaration_scan(source, node, 1, seq![k]) == spec_declaration_scan(
        source,
        node,
        2,
        full,
    ));
    assert(seq![].push(k) =~= seq![k]);
    assert(spec_declaration_scan(source, node, 0, seq![]) == spec_declaration_scan(
        source,
        node,
        1,
        seq![k],
    ));
    assert(full =~= seq![k, a.name + "="@ + a.value]);
}

// ----- the prechecks -----

/// Whether a backslash directly before a newline joins two words: it is
/// not itself escaped by a backslash just before it.
pub open spec fn has_joining_newline(bytes: Seq<u8>) -> bool {
    exists|i: int|
        0 <= i && i + 1 < bytes.len() && #[trigger] bytes[i] == 0x5C && bytes[i + 1] == 0x0A && !(
        i > 0 && bytes[i - 1] == 0x5C)
}

proof fn lemma_scan_finds_joining(bytes: Seq<u8>, j: int, i: int)
    requires
        0 <= j <= i,
        i + 1 < bytes.len(),
        bytes[i] == 0x5C,
        bytes[i + 1] == 0x0A,
        !(i > 0 && bytes[i - 1] == 0x5C),
    ensures
        spec_backslash_scan(bytes, j) is Some,
    decreases i - j,
{
    if j < i {
        lemma_scan_finds_joining(bytes, j + 1, i);
    }
}

proof fn lemma_scan_refuses_only(bytes: Seq<u8>, j: int)
    requires
        0 <= j,
    ensures
        spec_backslash_scan(bytes, j) is Some ==> has_escaped_blank(bytes) || has_joining_newline(
            bytes,
        ),
    decreases bytes.len() - j,
{
    if j + 1 < bytes.len() {
        lemma_scan_refuses_only(bytes, j + 1);
        if bytes[j] == 0x5C {
            assert(bytes[j] == 0x5C);
        }
    }
}

/// The checks before parsing refuse a source exactly when it holds a
/// control byte, invisible or non-ASCII Unicode whitespace, a backslash
/// directly before a space or a tab, or a backslash-newline that joins
/// words; a backslash before any other character is never refused there.
pub proof fn law_precheck_refuses_exactly_suspicious_sources(source: Seq<char>)
    ensures
        spec_differential_precheck(source) is Some <==> {
            ||| has_control_byte(encode_utf8(source))
            ||| has_suspicious_whitespace(source)
            ||| has_escaped_blank(encode_utf8(source))
            ||| has_joining_newline(encode_utf8(source))
        },
{
    law_precheck_refuses_suspicious_sources(source);
    let bytes = encode_utf8(source);
    lemma_scan_refuses_only(bytes, 0);
    if !has_control_byte(bytes) && !has_suspicious_whitespace(source) && has_joining_newline(
        bytes,
    ) {
        let i = choose|i: int|
            0 <= i && i + 1 < bytes.len() && #[trigger] bytes[i] == 0x5C && bytes[i + 1] == 0x0A
                && !(i > 0 && bytes[i - 1] == 0x5C);
        lemma_scan_finds_joining(bytes, 0, i);
    }
}

// ----- redirect order -----

/// The children of `node` start in source order.
pub open spec fn children_in_order(node: SyntaxNode) -> bool {
    forall|a: int, b: int|
        0 <= a <= b < node.children@.len() ==> #[trigger] node.children@[a].start_byte
            <= #[trigger] node.children@[b].start_byte
}

/// The redirects of `rs` start in source order.
pub open spec fn redirects_in_order(rs: Seq<(RedirectView, Span)>) -> bool {
    forall|a: int, b: int| 0 <= a <= b < rs.len() ==> #[trigger] rs[a].1.start_byte <= #[trigger] rs[b].1.start_byte
}

proof fn lemma_collect_in_order(
    source: Seq<char>,
    node: SyntaxNode,
    i: int,
    acc: Seq<(RedirectView, Span)>,
)
    requires
        0 <= i,
        children_in_order(node),
        redirects_in_order(acc),
        forall|a: int, j: int|
            0 <= a < acc.len() && i <= j < node.children@.len() ==> #[trigger] acc[a].1.start_byte
                <= #[trigger] node.children@[j].start_byte,
    ensures
        spec_collect_redirects(source, node, i, acc) matches Ok(rs) ==> redirects_in_order(rs),
    decreases node.children@.len() - i,
{
    if i < node.children@.len() {
        let child = node.children@[i];
        if is_redirect_kind(child.kind@) {
            if let Ok(r) = crate::redirect::spec_parse_redirect(source, child) {
                let acc2 = acc.push((r, crate::structure::spec_node_span(child)));
                assert forall|a: int, b: int| 0 <= a <= b < acc2.len() implies #[trigger] acc2[a].1.start_byte
                    <= #[trigger] acc2[b].1.start_byte by {
                    if b == acc.len() {
                        if a < acc.len() {
                            assert(acc[a].1.start_byte <= node.children@[i].start_byte);
                        }
                    } else {
                        assert(acc2[a] == acc[a] && acc2[b] == acc[b]);
                    }
                }
                assert forall|a: int, j: int|
                    0 <= a < acc2.len() && i + 1 <= j < node.children@.len() implies #[trigger] acc2[a].1.start_byte
                    <= #[trigger] node.children@[j].start_byte by {
                    if a < acc.len() {
                        assert(acc2[a] == acc[a]);
                        assert(acc[a].1.start_byte <= node.children@[j].start_byte);
                    } else {
                        assert(node.children@[i].start_byte <= node.children@[j].start_byte);
                    }
                }
                lemma_collect_in_order(source, node, i + 1, acc2);
            }
        } else {
            lemma_collect_in_order(source, node, i + 1, acc);
        }
    }
}

/// The redirects collected from a statement keep the source order of the
/// redirect nodes: their start bytes never decrease along the list (so
/// `> log 2>&1` stays in that order).
pub proof fn law_redirects_keep_source_order(source: Seq<char>, node: SyntaxNode)
    requires
        children_in_order(node),
    ensures
        spec_collect_redirects(source, node, 0, seq![]) matches Ok(rs) ==> redirects_in_order(rs),
{
    lemma_collect_in_order(source, node, 0, seq![]);
}

/// Attaching redirects to a command keeps the command's own redirects and
/// appends the collected ones after them, each once, in their order.
pub proof fn law_attached_redirects_follow_in_order(
    source: Seq<char>,
    cmd: crate::model::SimpleCommandView,
    rs: Seq<(RedirectView, Span)>,
)
    ensures
        crate::walker::spec_attach_redirects(source, cmd, rs) matches Ok(c) ==> {
            &&& c.redirects.len() == cmd.redirects.len() + rs.len()
            &&& forall|j: int| 0 <= j < cmd.redirects.len() ==> c.redirects[j] == cmd.redirects[j]
            &&& forall|j: int|
                0 <= j < rs.len() ==> c.redirects[cmd.redirects.len() + j] == (#[trigger] rs[j]).0
        },
{
}

} // verus!
