//! Properties that hold of every result of the analysis.
use vstd::prelude::*;
use vstd::utf8::*;

use crate::argument::{is_valid_identifier, spec_parse_env_assignment};
use crate::limits::ParseLimits;
use crate::model::{
    GateResultView, OperatorOccurrence, SimpleCommand, SimpleCommandView, TooComplexReason,
    TooComplexView,
};
use crate::order::{is_sorted_by_span, key_fn, lemma_sort_members, lemma_sort_sorted, sort_by_span};
use crate::parser::{spec_analyze, spec_gate_prefix};
use crate::precheck::{has_control_byte, has_suspicious_whitespace, spec_differential_precheck};
use crate::structure::{spec_node_span, spec_node_text, spec_source_slice};
use crate::syntax::SyntaxNode;
use crate::validate::{depth_error, nodes_error, spec_validate_node, spec_validate_seq, spec_validate_tree};
use crate::walker::{
    join_output, spec_attach_redirects, spec_command_scan, spec_declaration_scan,
    spec_reassign_fd, spec_structural_scan, spec_walk_command, spec_walk_declaration,
    spec_walk_node, spec_walk_program, spec_walk_redirected, CommandScan, WalkOutput,
};

verus! {

/// A command whose executable is known, whose text is exactly the source
/// at its span, and whose environment names are shell identifiers.
pub open spec fn well_formed_command(source: Seq<char>, c: SimpleCommandView) -> bool {
    &&& c.argv.len() > 0
    &&& spec_source_slice(source, c.span.start_byte, c.span.end_byte) == Ok::<
        Seq<char>,
        TooComplexView,
    >(c.text)
    &&& forall|j: int| 0 <= j < c.env.len() ==> is_valid_identifier(#[trigger] c.env[j].name)
}

pub open spec fn all_well_formed(source: Seq<char>, s: Seq<SimpleCommandView>) -> bool {
    forall|j: int| 0 <= j < s.len() ==> well_formed_command(source, #[trigger] s[j])
}

/// `n` commands collected after `before` others stay within `max_commands`.
pub open spec fn within_capacity(limits: ParseLimits, before: nat, n: nat) -> bool {
    n == 0 || before + n <= limits.max_commands
}

proof fn lemma_command_scan(source: Seq<char>, node: SyntaxNode, i: int, st: CommandScan)
    requires
        forall|j: int| 0 <= j < st.env.len() ==> is_valid_identifier(#[trigger] st.env[j].name),
    ensures
        spec_command_scan(source, node, i, st) matches Ok(r) ==> forall|j: int|
            0 <= j < r.env.len() ==> is_valid_identifier(#[trigger] r.env[j].name),
    decreases node.children@.len() - i, 1nat,
{
    if 0 <= i < node.children@.len() {
        let child = node.children@[i];
        let k = child.kind@;
        if k == "variable_assignment"@ {
            if !st.seen_name {
                if let Ok(a) = spec_parse_env_assignment(source, child) {
                    let st2 = CommandScan { env: st.env.push(a), ..st };
                    assert forall|j: int| 0 <= j < st2.env.len() implies is_valid_identifier(
                        #[trigger] st2.env[j].name,
                    ) by {
                        if j < st.env.len() {
                            assert(st2.env[j] == st.env[j]);
                        }
                    }
                    lemma_command_scan(source, node, i + 1, st2);
                }
            }
        } else {
            lemma_command_scan_any(source, node, i, st);
        }
    }
}

/// Steps of the command scan other than assignments keep the environment.
proof fn lemma_command_scan_any(source: Seq<char>, node: SyntaxNode, i: int, st: CommandScan)
    requires
        0 <= i < node.children@.len(),
        node.children@[i].kind@ != "variable_assignment"@,
        forall|j: int| 0 <= j < st.env.len() ==> is_valid_identifier(#[trigger] st.env[j].name),
    ensures
        spec_command_scan(source, node, i, st) matches Ok(r) ==> forall|j: int|
            0 <= j < r.env.len() ==> is_valid_identifier(#[trigger] r.env[j].name),
    decreases node.children@.len() - i, 0nat,
{
    match spec_command_scan(source, node, i, st) {
        Ok(_) => {
            let child = node.children@[i];
            let k = child.kind@;
            if k == "command_name"@ {
                if let Ok(a) = crate::argument::spec_parse_argument(source, child) {
                    lemma_command_scan(
                        source,
                        node,
                        i + 1,
                        CommandScan { argv: st.argv.push(a), seen_name: true, ..st },
                    );
                }
            } else if crate::walker::is_redirect_kind(k) {
                if let Ok(r) = crate::redirect::spec_parse_redirect(source, child) {
                    lemma_command_scan(
                        source,
                        node,
                        i + 1,
                        CommandScan { redirects: st.redirects.push(r), ..st },
                    );
                }
            } else if (crate::argument::is_literal_kind(k) || crate::argument::is_expansion_kind(k))
                && st.seen_name {
                if let Ok(a) = crate::argument::spec_parse_argument(source, child) {
                    lemma_command_scan(
                        source,
                        node,
                        i + 1,
                        CommandScan { argv: st.argv.push(a), ..st },
                    );
                }
            } else if k == "comment"@ {
                lemma_command_scan(source, node, i + 1, st);
            }
        },
        Err(_) => {},
    }
}

proof fn lemma_walk_command(source: Seq<char>, limits: ParseLimits, node: SyntaxNode, before: nat)
    ensures
        spec_walk_command(source, limits, node, before) matches Ok(out) ==> all_well_formed(
            source,
            out.commands,
        ) && within_capacity(limits, before, out.commands.len()),
{
    let init = CommandScan { argv: seq![], env: seq![], redirects: seq![], seen_name: false };
    lemma_command_scan(source, node, 0, init);
    if let Ok(out) = spec_walk_command(source, limits, node, before) {
        let c = out.commands[0];
        assert(well_formed_command(source, c));
    }
}

proof fn lemma_walk_declaration(
    source: Seq<char>,
    limits: ParseLimits,
    node: SyntaxNode,
    before: nat,
)
    ensures
        spec_walk_declaration(source, limits, node, before) matches Ok(out) ==> all_well_formed(
            source,
            out.commands,
        ) && within_capacity(limits, before, out.commands.len()),
{
    if let Ok(out) = spec_walk_declaration(source, limits, node, before) {
        let c = out.commands[0];
        assert(well_formed_command(source, c));
    }
}

/// What the walk of any node contributes is well formed and within the
/// command budget.
pub proof fn lemma_walk_node(source: Seq<char>, limits: ParseLimits, node: SyntaxNode, before: nat)
    ensures
        spec_walk_node(source, limits, node, before) matches Ok(out) ==> all_well_formed(
            source,
            out.commands,
        ) && within_capacity(limits, before, out.commands.len()),
    decreases node, node.children@.len() + 1,
{
    let k = node.kind@;
    if k == "program"@ || k == "list"@ || k == "pipeline"@ {
        lemma_structural_scan(
            source,
            limits,
            node,
            0,
            before,
            WalkOutput { commands: seq![], operators: seq![] },
            None,
        );
    } else if k == "redirected_statement"@ {
        lemma_walk_redirected(source, limits, node, before);
    } else if k == "command"@ {
        lemma_walk_command(source, limits, node, before);
    } else if k == "declaration_command"@ {
        lemma_walk_declaration(source, limits, node, before);
    }
}

proof fn lemma_structural_scan(
    source: Seq<char>,
    limits: ParseLimits,
    node: SyntaxNode,
    i: int,
    before: nat,
    acc: WalkOutput,
    prev_end: Option<usize>,
)
    requires
        all_well_formed(source, acc.commands),
        within_capacity(limits, before, acc.commands.len()),
    ensures
        spec_structural_scan(source, limits, node, i, before, acc, prev_end) matches Ok(out)
            ==> all_well_formed(source, out.commands) && within_capacity(
            limits,
            before,
            out.commands.len(),
        ),
    decreases node, node.children@.len() - i,
{
    if 0 <= i < node.children@.len() {
        let child = node.children@[i];
        match crate::structure::spec_operator_occurrence(child) {
            Some(op) => {
                lemma_structural_scan(
                    source,
                    limits,
                    node,
                    i + 1,
                    before,
                    WalkOutput { operators: acc.operators.push(op), ..acc },
                    None,
                );
            },
            None => {
                if child.kind@ == "comment"@ {
                    lemma_structural_scan(source, limits, node, i + 1, before, acc, prev_end);
                } else if child.is_named {
                    let acc1 = WalkOutput {
                        operators: crate::walker::push_operator(
                            acc.operators,
                            crate::walker::gap_newline(source, prev_end, child.start_byte),
                        ),
                        ..acc
                    };
                    lemma_walk_node(source, limits, child, before + acc1.commands.len());
                    if let Ok(out) = spec_walk_node(
                        source,
                        limits,
                        child,
                        before + acc1.commands.len(),
                    ) {
                        let joined = join_output(acc1, out);
                        assert forall|j: int| 0 <= j < joined.commands.len() implies well_formed_command(
                            source,
                            #[trigger] joined.commands[j],
                        ) by {
                            if j < acc1.commands.len() {
                                assert(joined.commands[j] == acc.commands[j]);
                            } else {
                                assert(joined.commands[j] == out.commands[j - acc1.commands.len()]);
                            }
                        }
                        lemma_structural_scan(
                            source,
                            limits,
                            node,
                            i + 1,
                            before,
                            joined,
                            Some(child.end_byte),
                        );
                    }
                }
            },
        }
    }
}

proof fn lemma_walk_redirected(
    source: Seq<char>,
    limits: ParseLimits,
    node: SyntaxNode,
    before: nat,
)
    ensures
        spec_walk_redirected(source, limits, node, before) matches Ok(out) ==> all_well_formed(
            source,
            out.commands,
        ) && within_capacity(limits, before, out.commands.len()),
    decreases node, node.children@.len(),
{
    if let Ok(result) = spec_walk_redirected(source, limits, node, before) {
        let b = crate::syntax::field_position(node, "body"@)->0;
        let body = node.children@[b as int];
        let rs = crate::walker::spec_collect_redirects(source, node, 0, seq![])->Ok_0;
        lemma_walk_node(source, limits, body, before);
        let out = spec_walk_node(source, limits, body, before)->Ok_0;
        let k = crate::walker::last_max_index(out.commands);
        lemma_last_max_index(out.commands);
        let fixed = spec_reassign_fd(source, body, out.commands[k], rs);
        let cmd = spec_attach_redirects(source, fixed.0, fixed.1)->Ok_0;
        assert(well_formed_command(source, out.commands[k]));
        assert(well_formed_command(source, cmd));
        assert(result.commands == out.commands.update(k, cmd));
        assert forall|j: int| 0 <= j < result.commands.len() implies well_formed_command(
            source,
            #[trigger] result.commands[j],
        ) by {
            if j != k {
                assert(result.commands[j] == out.commands[j]);
            }
        }
    }
}

/// The index of the greatest span is an index of the sequence.
proof fn lemma_last_max_index(s: Seq<SimpleCommandView>)
    requires
        s.len() > 0,
    ensures
        0 <= crate::walker::last_max_index(s) < s.len(),
    decreases s.len(),
{
    if s.len() > 1 {
        lemma_last_max_index(s.drop_last());
    }
}

/// The result of the analysis, when it is a program.
pub open spec fn parsed_program(limits: ParseLimits, source: Seq<char>, root: SyntaxNode) -> crate::model::ParsedProgramView {
    spec_analyze(limits, source, root)->Parsed_0
}

/// A parsed program carries exactly the source it was read from.
pub proof fn law_parsed_program_keeps_its_source(limits: ParseLimits, source: Seq<char>, root: SyntaxNode)
    requires
        spec_analyze(limits, source, root) is Parsed,
    ensures
        parsed_program(limits, source, root).source == source,
{
}

/// Every command of a parsed program names a statically known executable
/// (its `argv` is not empty), its `text` is exactly the source between the
/// ends of its span (which fall on character boundaries), and each of its
/// environment names is a shell identifier.
pub proof fn law_parsed_commands_are_well_formed(limits: ParseLimits, source: Seq<char>, root: SyntaxNode)
    requires
        spec_analyze(limits, source, root) is Parsed,
    ensures
        all_well_formed(source, parsed_program(limits, source, root).commands),
{
    if spec_gate_prefix(limits, source) is None {
        lemma_walk_node(source, limits, root, 0);
        let out = spec_walk_node(source, limits, root, 0)->Ok_0;
        let sorted = sort_by_span(out.commands, key_fn::<SimpleCommand>());
        assert forall|j: int| 0 <= j < sorted.len() implies well_formed_command(
            source,
            #[trigger] sorted[j],
        ) by {
            lemma_sort_members(out.commands, key_fn::<SimpleCommand>(), j);
            let m = choose|m: int| 0 <= m < out.commands.len() && out.commands[m] == sorted[j];
        }
    }
}

/// A parsed program holds at most `max_commands` commands.
pub proof fn law_command_count_within_limit(limits: ParseLimits, source: Seq<char>, root: SyntaxNode)
    requires
        spec_analyze(limits, source, root) is Parsed,
    ensures
        parsed_program(limits, source, root).commands.len() <= limits.max_commands,
{
    if spec_gate_prefix(limits, source) is None {
        lemma_walk_node(source, limits, root, 0);
        let out = spec_walk_node(source, limits, root, 0)->Ok_0;
        lemma_sort_sorted(out.commands, key_fn::<SimpleCommand>());
        broadcast use vstd::seq_lib::group_to_multiset_ensures;
        let sorted = sort_by_span(out.commands, key_fn::<SimpleCommand>());
        assert(sorted.to_multiset().len() == out.commands.to_multiset().len());
    }
}

/// Commands and operators of a parsed program are in source order (by
/// start byte, then end byte), and they are exactly the ones the walk of
/// the tree collected.
pub proof fn law_parsed_output_is_in_source_order(limits: ParseLimits, source: Seq<char>, root: SyntaxNode)
    requires
        spec_analyze(limits, source, root) is Parsed,
    ensures
        is_sorted_by_span(parsed_program(limits, source, root).commands, key_fn::<SimpleCommand>()),
        is_sorted_by_span(
            parsed_program(limits, source, root).operators,
            key_fn::<OperatorOccurrence>(),
        ),
        spec_gate_prefix(limits, source) is None ==> ({
            let out = spec_walk_node(source, limits, root, 0)->Ok_0;
            &&& parsed_program(limits, source, root).commands.to_multiset()
                == out.commands.to_multiset()
            &&& parsed_program(limits, source, root).operators.to_multiset()
                == out.operators.to_multiset()
        }),
{
    if spec_gate_prefix(limits, source) is None {
        let out = spec_walk_node(source, limits, root, 0)->Ok_0;
        lemma_sort_sorted(out.commands, key_fn::<SimpleCommand>());
        lemma_sort_sorted(out.operators, key_fn::<OperatorOccurrence>());
    }
}

/// A source longer than `max_command_bytes` is refused whatever tree the
/// parser produced.
pub proof fn law_oversized_source_is_refused(limits: ParseLimits, source: Seq<char>, root: SyntaxNode)
    requires
        encode_utf8(source).len() > limits.max_command_bytes,
    ensures
        spec_analyze(limits, source, root) matches GateResultView::TooComplex(e) && e.reason
            == TooComplexReason::LimitExceeded && e.node_type == Some("max_command_bytes"@),
{
}

/// A source within the byte limit that holds control characters, invisible
/// Unicode whitespace or backslash-escaped whitespace is refused as
/// suspicious whatever tree the parser produced.
pub proof fn law_suspicious_source_is_refused(limits: ParseLimits, source: Seq<char>, root: SyntaxNode)
    requires
        encode_utf8(source).len() <= limits.max_command_bytes,
        spec_differential_precheck(source) is Some,
    ensures
        spec_analyze(limits, source, root) matches GateResultView::TooComplex(e) && e.reason
            == TooComplexReason::SuspiciousInput,
{
    lemma_backslash_scan_is_suspicious(encode_utf8(source), 0);
}

/// Every refusal of the checks before parsing is for suspicious input.
pub proof fn lemma_precheck_is_suspicious(source: Seq<char>)
    ensures
        spec_differential_precheck(source) matches Some(e) ==> e.reason
            == TooComplexReason::SuspiciousInput && e.node_type is None,
{
    lemma_backslash_scan_is_suspicious(encode_utf8(source), 0);
}

/// Whether a backslash stands directly before a space or a tab.
pub open spec fn has_escaped_blank(bytes: Seq<u8>) -> bool {
    exists|i: int|
        0 <= i && i + 1 < bytes.len() && #[trigger] bytes[i] == 0x5C && (bytes[i + 1] == 0x20
            || bytes[i + 1] == 0x09)
}

proof fn lemma_backslash_scan_finds(bytes: Seq<u8>, j: int, i: int)
    requires
        0 <= j <= i,
        i + 1 < bytes.len(),
        bytes[i] == 0x5C,
        bytes[i + 1] == 0x20 || bytes[i + 1] == 0x09,
    ensures
        crate::precheck::spec_backslash_scan(bytes, j) is Some,
    decreases i - j,
{
    if j < i {
        lemma_backslash_scan_finds(bytes, j + 1, i);
    }
}

/// The checks before parsing refuse a source that holds a control byte,
/// invisible or non-ASCII Unicode whitespace, or a backslash directly
/// before a space or a tab; every refusal they give is for suspicious input
/// and names no node.
pub proof fn law_precheck_refuses_suspicious_sources(source: Seq<char>)
    ensures
        has_control_byte(encode_utf8(source)) || has_suspicious_whitespace(source)
            || has_escaped_blank(encode_utf8(source)) ==> spec_differential_precheck(source) is Some,
        spec_differential_precheck(source) matches Some(e) ==> e.reason
            == TooComplexReason::SuspiciousInput && e.node_type is None,
{
    lemma_precheck_is_suspicious(source);
    let bytes = encode_utf8(source);
    if !has_control_byte(bytes) && !has_suspicious_whitespace(source) && has_escaped_blank(bytes) {
        let i = choose|i: int|
            0 <= i && i + 1 < bytes.len() && #[trigger] bytes[i] == 0x5C && (bytes[i + 1] == 0x20
                || bytes[i + 1] == 0x09);
        lemma_backslash_scan_finds(bytes, 0, i);
    }
}

proof fn lemma_backslash_scan_is_suspicious(bytes: Seq<u8>, i: int)
    ensures
        crate::precheck::spec_backslash_scan(bytes, i) matches Some(e) ==> e.reason
            == TooComplexReason::SuspiciousInput && e.node_type is None,
    decreases bytes.len() - i,
{
    if 0 <= i && i + 1 < bytes.len() {
        lemma_backslash_scan_is_suspicious(bytes, i + 1);
    }
}

/// No node of the tree is an error node, a missing node, or of kind `ERROR`.
pub open spec fn error_free(node: SyntaxNode) -> bool
    decreases node,
{
    &&& !node.is_error
    &&& !node.is_missing
    &&& node.kind@ != "ERROR"@
    &&& forall|i: int| 0 <= i < node.children@.len() ==> error_free(#[trigger] node.children@[i])
}

/// The number of nodes of a tree.
pub open spec fn tree_size(node: SyntaxNode) -> nat
    decreases node,
{
    1 + forest_size(node.children@)
}

/// The number of nodes of a sequence of trees.
pub open spec fn forest_size(s: Seq<SyntaxNode>) -> nat
    decreases s,
{
    if s.len() == 0 {
        0
    } else {
        forest_size(s.drop_last()) + tree_size(s.last())
    }
}

/// No node lies deeper than `max` when the tree's root is at `depth`.
pub open spec fn depth_within(node: SyntaxNode, depth: nat, max: nat) -> bool
    decreases node,
{
    &&& depth <= max
    &&& forall|i: int|
        0 <= i < node.children@.len() ==> depth_within(#[trigger] node.children@[i], depth + 1, max)
}

proof fn lemma_validate_node(node: SyntaxNode, depth: nat, count: nat, limits: ParseLimits)
    ensures
        spec_validate_node(node, depth, count, limits) matches Ok(c) ==> {
            &&& c == count + tree_size(node)
            &&& c <= limits.spec_effective_max_nodes()
            &&& error_free(node)
            &&& depth_within(node, depth, limits.spec_effective_max_depth() as nat)
        },
    decreases node,
{
    if let Ok(c) = spec_validate_node(node, depth, count, limits) {
        lemma_validate_seq(node.children@, depth + 1, count + 1, limits);
    }
}

proof fn lemma_validate_seq(s: Seq<SyntaxNode>, depth: nat, count: nat, limits: ParseLimits)
    ensures
        spec_validate_seq(s, depth, count, limits) matches Ok(c) ==> {
            &&& c == count + forest_size(s)
            &&& count <= c <= limits.spec_effective_max_nodes() || (s.len() == 0 && c == count)
            &&& forall|i: int| 0 <= i < s.len() ==> error_free(#[trigger] s[i])
            &&& forall|i: int|
                0 <= i < s.len() ==> depth_within(
                    #[trigger] s[i],
                    depth,
                    limits.spec_effective_max_depth() as nat,
                )
        },
    decreases s,
{
    if s.len() > 0 {
        let d = s.drop_last();
        lemma_validate_seq(d, depth, count, limits);
        if let Ok(c) = spec_validate_seq(s, depth, count, limits) {
            let c1 = spec_validate_seq(d, depth, count, limits)->Ok_0;
            lemma_validate_node(s.last(), depth, c1, limits);
            assert forall|i: int| 0 <= i < s.len() implies error_free(#[trigger] s[i])
                && depth_within(s[i], depth, limits.spec_effective_max_depth() as nat) by {
                if i < d.len() {
                    assert(s[i] == d[i]);
                }
            }
        }
    }
}

proof fn lemma_validate_node_ok(node: SyntaxNode, depth: nat, count: nat, limits: ParseLimits)
    requires
        error_free(node),
        count + tree_size(node) <= limits.spec_effective_max_nodes(),
        depth_within(node, depth, limits.spec_effective_max_depth() as nat),
    ensures
        spec_validate_node(node, depth, count, limits) == Ok::<nat, TooComplexView>(
            count + tree_size(node),
        ),
    decreases node,
{
    lemma_validate_seq_ok(node.children@, depth + 1, count + 1, limits);
}

proof fn lemma_validate_seq_ok(s: Seq<SyntaxNode>, depth: nat, count: nat, limits: ParseLimits)
    requires
        forall|i: int| 0 <= i < s.len() ==> error_free(#[trigger] s[i]),
        forall|i: int|
            0 <= i < s.len() ==> depth_within(
                #[trigger] s[i],
                depth,
                limits.spec_effective_max_depth() as nat,
            ),
        count + forest_size(s) <= limits.spec_effective_max_nodes(),
    ensures
        spec_validate_seq(s, depth, count, limits) == Ok::<nat, TooComplexView>(
            count + forest_size(s),
        ),
    decreases s,
{
    if s.len() > 0 {
        let d = s.drop_last();
        assert forall|i: int| 0 <= i < d.len() implies error_free(#[trigger] d[i])
            && depth_within(d[i], depth, limits.spec_effective_max_depth() as nat) by {
            assert(d[i] == s[i]);
        }
        lemma_validate_seq_ok(d, depth, count, limits);
        assert(error_free(s[s.len() - 1]));
        lemma_validate_node_ok(s.last(), depth, count + forest_size(d), limits);
    }
}

proof fn lemma_validate_node_errors(node: SyntaxNode, depth: nat, count: nat, limits: ParseLimits)
    ensures
        spec_validate_node(node, depth, count, limits) matches Err(e) ==> e == nodes_error(limits)
            || e == depth_error(limits) || e == TooComplexView::error_node(node_kind_of_error(e)),
    decreases node,
{
    lemma_validate_seq_errors(node.children@, depth + 1, count + 1, limits);
}

proof fn lemma_validate_seq_errors(s: Seq<SyntaxNode>, depth: nat, count: nat, limits: ParseLimits)
    ensures
        spec_validate_seq(s, depth, count, limits) matches Err(e) ==> e == nodes_error(limits)
            || e == depth_error(limits) || e == TooComplexView::error_node(node_kind_of_error(e)),
    decreases s,
{
    if s.len() > 0 {
        let d = s.drop_last();
        lemma_validate_seq_errors(d, depth, count, limits);
        if let Ok(c) = spec_validate_seq(d, depth, count, limits) {
            lemma_validate_node_errors(s.last(), depth, c, limits);
        }
    }
}

/// The node kind that an error-node refusal names.
pub open spec fn node_kind_of_error(e: TooComplexView) -> Seq<char> {
    match e.node_type {
        Some(k) => k,
        None => seq![],
    }
}

/// The tree checks accept a tree exactly when it has no error or missing
/// node, at most the effective node budget of nodes, and no node deeper
/// than the effective depth budget; a refusal is the node-budget refusal,
/// the depth-budget refusal, or the error-node refusal of some node kind.
pub proof fn law_tree_checks_accept_exactly_the_trees_within_budget(
    root: SyntaxNode,
    limits: ParseLimits,
)
    ensures
        spec_validate_tree(root, limits) is Ok <==> {
            &&& error_free(root)
            &&& tree_size(root) <= limits.spec_effective_max_nodes()
            &&& depth_within(root, 0, limits.spec_effective_max_depth() as nat)
        },
        spec_validate_tree(root, limits) matches Err(e) ==> e == nodes_error(limits) || e
            == depth_error(limits) || e == TooComplexView::error_node(node_kind_of_error(e)),
{
    lemma_validate_node(root, 0, 0, limits);
    lemma_validate_node_errors(root, 0, 0, limits);
    if error_free(root) && tree_size(root) <= limits.spec_effective_max_nodes() && depth_within(
        root,
        0,
        limits.spec_effective_max_depth() as nat,
    ) {
        lemma_validate_node_ok(root, 0, 0, limits);
    }
}

/// A parsed program of a non-blank source comes from a tree with no error
/// or missing node, with at most the effective node budget of nodes, and
/// with no node deeper than the effective depth budget.
pub proof fn law_parsed_tree_is_error_free_and_within_budget(
    limits: ParseLimits,
    source: Seq<char>,
    root: SyntaxNode,
)
    requires
        spec_analyze(limits, source, root) is Parsed,
        spec_gate_prefix(limits, source) is None,
    ensures
        error_free(root),
        tree_size(root) <= limits.spec_effective_max_nodes(),
        depth_within(root, 0, limits.spec_effective_max_depth() as nat),
{
    lemma_validate_node(root, 0, 0, limits);
}

/// Reading an operator's spelling back as a node kind gives the operator
/// again; in particular distinct operators have distinct spellings.
pub proof fn law_operator_spelling_round_trips(op: crate::model::ShellOperator)
    ensures
        crate::structure::spec_operator_of(op.spec_as_str()) == Some(op),
{
    reveal_strlit("&&");
    reveal_strlit("||");
    reveal_strlit("|");
    reveal_strlit("|&");
    reveal_strlit(";");
    reveal_strlit("&");
    reveal_strlit("\n");
    let t = op.spec_as_str();
    assert(t != "&&"@ ==> (t.len() != 2 || t[0] != '&' || t[1] != '&'));
    assert(t != "||"@ ==> (t.len() != 2 || t[0] != '|' || t[1] != '|'));
    assert(t != "|&"@ ==> (t.len() != 2 || t[0] != '|' || t[1] != '&'));
    assert(t != "|"@ ==> (t.len() != 1 || t[0] != '|'));
    assert(t != ";"@ ==> (t.len() != 1 || t[0] != ';'));
    assert(t != "&"@ ==> (t.len() != 1 || t[0] != '&'));
    assert(t != "\n"@ ==> (t.len() != 1 || t[0] != '\n'));
}

/// Distinct redirect operators have distinct spellings.
pub proof fn law_redirect_spellings_are_distinct(
    a: crate::model::RedirectOp,
    b: crate::model::RedirectOp,
)
    requires
        a != b,
    ensures
        a.spec_as_str() != b.spec_as_str(),
{
    reveal_strlit(">");
    reveal_strlit(">>");
    reveal_strlit("<");
    reveal_strlit("<<");
    reveal_strlit(">&");
    reveal_strlit(">|");
    reveal_strlit("<&");
    reveal_strlit("&>");
    reveal_strlit("&>>");
    reveal_strlit("<<<");
    let s = a.spec_as_str();
    let t = b.spec_as_str();
    if s == t {
        assert(s.len() == t.len());
        assert(s[0] == t[0]);
        if s.len() > 1 {
            assert(s[1] == t[1]);
        }
        if s.len() > 2 {
            assert(s[2] == t[2]);
        }
    }
}

} // verus!
