//! Which step of the analysis can give which resource-limit refusal.
use vstd::prelude::*;
use vstd::utf8::*;

use crate::argument::{
    is_expansion_kind, is_literal_kind, spec_assignment_value, spec_concat_scan,
    spec_decode_double_quoted, spec_parse_argument, spec_parse_command_name,
    spec_parse_env_assignment,
};
use crate::laws::{law_tree_checks_accept_exactly_the_trees_within_budget, node_kind_of_error};
use crate::limits::ParseLimits;
use crate::model::{GateResultView, TooComplexReason, TooComplexView};
use crate::parser::{spec_analyze, spec_gate_prefix};
use crate::redirect::{spec_parse_redirect, spec_redirect_scan, RedirectScan};
use crate::structure::spec_node_text;
use crate::syntax::{field_child, field_position, first_named_from, SyntaxNode};
use crate::validate::{depth_error, nodes_error, spec_validate_tree};
use crate::walker::{
    capacity_error, gap_newline, is_redirect_kind, join_output, push_operator,
    spec_collect_redirects, spec_command_scan, spec_declaration_scan, spec_structural_scan,
    spec_walk_command, spec_walk_declaration, spec_walk_node, spec_walk_redirected, CommandScan,
    WalkOutput,
};

verus! {

/// A refusal that is not for a resource limit.
pub open spec fn not_limit<T>(r: Result<T, TooComplexView>) -> bool {
    r matches Err(e) ==> e.reason != TooComplexReason::LimitExceeded
}

/// A refusal of the walk: not for a resource limit, or for the command budget.
pub open spec fn walk_refusal(r: Result<WalkOutput, TooComplexView>, limits: ParseLimits) -> bool {
    r matches Err(e) ==> e.reason != TooComplexReason::LimitExceeded || e == capacity_error(limits)
}

proof fn lemma_decode_not_limit(inner: Seq<char>, i: int)
    ensures
        not_limit(spec_decode_double_quoted(inner, i)),
    decreases inner.len() - i,
{
    if 0 <= i < inner.len() {
        if inner[i] != '\\' {
            lemma_decode_not_limit(inner, i + 1);
        } else if i + 1 < inner.len() {
            lemma_decode_not_limit(inner, i + 2);
        }
    }
}

proof fn lemma_argument_not_limit(source: Seq<char>, node: SyntaxNode)
    ensures
        not_limit(spec_parse_argument(source, node)),
    decreases node, node.children@.len() + 2,
{
    let kind = node.kind@;
    if kind == "command_name"@ {
        lemma_command_name_not_limit(source, node);
    } else if kind == "string"@ {
        if let Ok(raw) = spec_node_text(source, node) {
            lemma_decode_not_limit(raw.subrange(1, raw.len() - 1), 0);
        }
    } else if kind == "concatenation"@ {
        lemma_concat_not_limit(source, node, 0, seq![], false);
    }
}

proof fn lemma_command_name_not_limit(source: Seq<char>, node: SyntaxNode)
    ensures
        not_limit(spec_parse_command_name(source, node)),
    decreases node, node.children@.len() + 1,
{
    let i = first_named_from(node.children@, 0);
    if 0 <= i < node.children@.len() {
        lemma_argument_not_limit(source, node.children@[i]);
    }
}

proof fn lemma_concat_not_limit(
    source: Seq<char>,
    node: SyntaxNode,
    i: int,
    value: Seq<char>,
    saw: bool,
)
    ensures
        not_limit(spec_concat_scan(source, node, i, value, saw)),
    decreases node, node.children@.len() - i,
{
    if 0 <= i < node.children@.len() {
        let child = node.children@[i];
        if child.start_byte == child.end_byte {
            lemma_concat_not_limit(source, node, i + 1, value, saw);
        } else if child.is_named && is_literal_kind(child.kind@) {
            lemma_argument_not_limit(source, child);
            if let Ok(piece) = spec_parse_argument(source, child) {
                lemma_concat_not_limit(source, node, i + 1, value + piece, true);
            }
        }
    }
}

proof fn lemma_env_not_limit(source: Seq<char>, node: SyntaxNode)
    ensures
        not_limit(spec_parse_env_assignment(source, node)),
{
    if let Some(v) = field_child(node, field_position(node, "value"@)) {
        lemma_argument_not_limit(source, v);
    }
    assert(not_limit(spec_assignment_value(source, node)));
}

proof fn lemma_redirect_scan_not_limit(
    source: Seq<char>,
    node: SyntaxNode,
    i: int,
    st: RedirectScan,
)
    ensures
        not_limit(spec_redirect_scan(source, node, i, st)),
    decreases node.children@.len() - i,
{
    if 0 <= i < node.children@.len() {
        let child = node.children@[i];
        let k = child.kind@;
        lemma_argument_not_limit(source, child);
        if k == "file_descriptor"@ {
            if let Ok(text) = spec_node_text(source, child) {
                if let Some(fd) = crate::redirect::spec_parse_u32(text) {
                    lemma_redirect_scan_not_limit(
                        source,
                        node,
                        i + 1,
                        RedirectScan { fd: Some(fd), ..st },
                    );
                }
            }
        } else if crate::redirect::spec_redirect_op_of(k) is Some {
            lemma_redirect_scan_not_limit(
                source,
                node,
                i + 1,
                RedirectScan { op: crate::redirect::spec_redirect_op_of(k), ..st },
            );
        } else if k == "comment"@ {
            lemma_redirect_scan_not_limit(source, node, i + 1, st);
        } else if let Ok(target) = spec_parse_argument(source, child) {
            lemma_redirect_scan_not_limit(
                source,
                node,
                i + 1,
                RedirectScan { targets: st.targets.push(target), ..st },
            );
        }
    }
}

proof fn lemma_redirect_not_limit(source: Seq<char>, node: SyntaxNode)
    ensures
        not_limit(spec_parse_redirect(source, node)),
{
    lemma_redirect_scan_not_limit(
        source,
        node,
        0,
        RedirectScan { fd: None, op: None, targets: seq![] },
    );
}

proof fn lemma_collect_not_limit(
    source: Seq<char>,
    node: SyntaxNode,
    i: int,
    acc: Seq<(crate::model::RedirectView, crate::model::Span)>,
)
    ensures
        not_limit(spec_collect_redirects(source, node, i, acc)),
    decreases node.children@.len() - i,
{
    if 0 <= i < node.children@.len() {
        let child = node.children@[i];
        if is_redirect_kind(child.kind@) {
            lemma_redirect_not_limit(source, child);
            if let Ok(r) = spec_parse_redirect(source, child) {
                lemma_collect_not_limit(
                    source,
                    node,
                    i + 1,
                    acc.push((r, crate::structure::spec_node_span(child))),
                );
            }
        } else {
            lemma_collect_not_limit(source, node, i + 1, acc);
        }
    }
}

proof fn lemma_command_scan_not_limit(
    source: Seq<char>,
    node: SyntaxNode,
    i: int,
    st: CommandScan,
)
    ensures
        not_limit(spec_command_scan(source, node, i, st)),
    decreases node.children@.len() - i,
{
    if 0 <= i < node.children@.len() {
        let child = node.children@[i];
        let k = child.kind@;
        lemma_argument_not_limit(source, child);
        if k == "variable_assignment"@ {
            lemma_env_not_limit(source, child);
            if let Ok(a) = spec_parse_env_assignment(source, child) {
                lemma_command_scan_not_limit(
                    source,
                    node,
                    i + 1,
                    CommandScan { env: st.env.push(a), ..st },
                );
            }
        } else if k == "command_name"@ {
            if let Ok(a) = spec_parse_argument(source, child) {
                lemma_command_scan_not_limit(
                    source,
                    node,
                    i + 1,
                    CommandScan { argv: st.argv.push(a), seen_name: true, ..st },
                );
            }
        } else if is_redirect_kind(k) {
            lemma_redirect_not_limit(source, child);
            if let Ok(r) = spec_parse_redirect(source, child) {
                lemma_command_scan_not_limit(
                    source,
                    node,
                    i + 1,
                    CommandScan { redirects: st.redirects.push(r), ..st },
                );
            }
        } else if (is_literal_kind(k) || is_expansion_kind(k)) && st.seen_name {
            if let Ok(a) = spec_parse_argument(source, child) {
                lemma_command_scan_not_limit(
                    source,
                    node,
                    i + 1,
                    CommandScan { argv: st.argv.push(a), ..st },
                );
            }
        } else if k == "comment"@ {
            lemma_command_scan_not_limit(source, node, i + 1, st);
        }
    }
}

proof fn lemma_declaration_scan_not_limit(
    source: Seq<char>,
    node: SyntaxNode,
    i: int,
    argv: Seq<Seq<char>>,
)
    ensures
        not_limit(spec_declaration_scan(source, node, i, argv)),
    decreases node.children@.len() - i,
{
    if 0 <= i < node.children@.len() {
        let child = node.children@[i];
        let k = child.kind@;
        lemma_argument_not_limit(source, child);
        lemma_env_not_limit(source, child);
        if crate::walker::is_declaration_builtin(k) && argv.len() == 0 {
            lemma_declaration_scan_not_limit(source, node, i + 1, argv.push(k));
        } else if k == "variable_assignment"@ {
            if let Ok(a) = spec_parse_env_assignment(source, child) {
                lemma_declaration_scan_not_limit(
                    source,
                    node,
                    i + 1,
                    argv.push(a.name + "="@ + a.value),
                );
            }
        } else if k == "variable_name"@ {
            if let Ok(t) = spec_node_text(source, child) {
                lemma_declaration_scan_not_limit(source, node, i + 1, argv.push(t));
            }
        } else if is_literal_kind(k) {
            if let Ok(a) = spec_parse_argument(source, child) {
                lemma_declaration_scan_not_limit(source, node, i + 1, argv.push(a));
            }
        } else if k == "comment"@ {
            lemma_declaration_scan_not_limit(source, node, i + 1, argv);
        }
    }
}

proof fn lemma_walk_node_refusal(
    source: Seq<char>,
    limits: ParseLimits,
    node: SyntaxNode,
    before: nat,
)
    ensures
        walk_refusal(spec_walk_node(source, limits, node, before), limits),
    decreases node, node.children@.len() + 1,
{
    let k = node.kind@;
    if k == "program"@ || k == "list"@ || k == "pipeline"@ {
        lemma_structural_refusal(
            source,
            limits,
            node,
            0,
            before,
            WalkOutput { commands: seq![], operators: seq![] },
            None,
        );
    } else if k == "redirected_statement"@ {
        lemma_redirected_refusal(source, limits, node, before);
    } else if k == "command"@ {
        lemma_command_scan_not_limit(
            source,
            node,
            0,
            CommandScan { argv: seq![], env: seq![], redirects: seq![], seen_name: false },
        );
        assert(walk_refusal(spec_walk_command(source, limits, node, before), limits));
    } else if k == "declaration_command"@ {
        lemma_declaration_scan_not_limit(source, node, 0, seq![]);
        assert(walk_refusal(spec_walk_declaration(source, limits, node, before), limits));
    }
}

proof fn lemma_redirected_refusal(
    source: Seq<char>,
    limits: ParseLimits,
    node: SyntaxNode,
    before: nat,
)
    ensures
        walk_refusal(spec_walk_redirected(source, limits, node, before), limits),
    decreases node, node.children@.len(),
{
    lemma_collect_not_limit(source, node, 0, seq![]);
    if let Some(b) = field_position(node, "body"@) {
        if b < node.children@.len() {
            lemma_walk_node_refusal(source, limits, node.children@[b as int], before);
        }
    }
}

proof fn lemma_structural_refusal(
    source: Seq<char>,
    limits: ParseLimits,
    node: SyntaxNode,
    i: int,
    before: nat,
    acc: WalkOutput,
    prev_end: Option<usize>,
)
    ensures
        walk_refusal(spec_structural_scan(source, limits, node, i, before, acc, prev_end), limits),
    decreases node, node.children@.len() - i,
{
    if 0 <= i < node.children@.len() {
        let child = node.children@[i];
        match crate::structure::spec_operator_occurrence(child) {
            Some(op) => {
                lemma_structural_refusal(
                    source,
                    limits,
                    node,
                    i + 1,
                    before,
                    WalkOutput { operators: acc.operators.push(op), ..acc },
                    None,
                );
            },
            None => {
                if child.kind@ == "comment"@ {
                    lemma_structural_refusal(source, limits, node, i + 1, before, acc, prev_end);
                } else if child.is_named {
                    let acc1 = WalkOutput {
                        operators: push_operator(
                            acc.operators,
                            gap_newline(source, prev_end, child.start_byte),
                        ),
                        ..acc
                    };
                    lemma_walk_node_refusal(source, limits, child, before + acc1.commands.len());
                    if let Ok(out) = spec_walk_node(
                        source,
                        limits,
                        child,
                        before + acc1.commands.len(),
                    ) {
                        lemma_structural_refusal(
                            source,
                            limits,
                            node,
                            i + 1,
                            before,
                            join_output(acc1, out),
                            Some(child.end_byte),
                        );
                    }
                }
            },
        }
    }
}

/// A command or a declaration reached after `before` commands were
/// collected is refused with the command-budget refusal (a resource-limit
/// refusal naming `max_commands`) exactly when `before` has reached
/// `max_commands`; below that, neither gives any resource-limit refusal.
pub proof fn law_command_budget_refusal(
    source: Seq<char>,
    limits: ParseLimits,
    node: SyntaxNode,
    before: nat,
)
    ensures
        capacity_error(limits).reason == TooComplexReason::LimitExceeded,
        capacity_error(limits).node_type == Some("max_commands"@),
        before >= limits.max_commands ==> spec_walk_command(source, limits, node, before) == Err::<
            WalkOutput,
            TooComplexView,
        >(capacity_error(limits)) && spec_walk_declaration(source, limits, node, before) == Err::<
            WalkOutput,
            TooComplexView,
        >(capacity_error(limits)),
        before < limits.max_commands ==> not_limit(spec_walk_command(source, limits, node, before))
            && not_limit(spec_walk_declaration(source, limits, node, before)),
{
    lemma_command_scan_not_limit(
        source,
        node,
        0,
        CommandScan { argv: seq![], env: seq![], redirects: seq![], seen_name: false },
    );
    lemma_declaration_scan_not_limit(source, node, 0, seq![]);
}

/// The byte-limit refusal (`max_command_bytes`) is given exactly for the
/// sources longer than `max_command_bytes`, whatever tree the parser
/// produced: no later check gives it.
pub proof fn law_byte_limit_refusal_exactly_for_oversized_sources(
    limits: ParseLimits,
    source: Seq<char>,
    root: SyntaxNode,
)
    ensures
        (spec_analyze(limits, source, root) matches GateResultView::TooComplex(e) && e.reason
            == TooComplexReason::LimitExceeded && e.node_type == Some("max_command_bytes"@))
            <==> encode_utf8(source).len() > limits.max_command_bytes,
{
    reveal_strlit("max_command_bytes");
    reveal_strlit("max_commands");
    reveal_strlit("max_nodes");
    reveal_strlit("max_depth");
    if encode_utf8(source).len() > limits.max_command_bytes {
        crate::laws::law_oversized_source_is_refused(limits, source, root);
    } else if spec_gate_prefix(limits, source) is None {
        law_tree_checks_accept_exactly_the_trees_within_budget(root, limits);
        lemma_walk_node_refusal(source, limits, root, 0);
        if let Err(e) = spec_validate_tree(root, limits) {
            assert(e == nodes_error(limits) || e == depth_error(limits) || e
                == TooComplexView::error_node(node_kind_of_error(e)));
            assert("max_nodes"@.len() != "max_command_bytes"@.len());
            assert("max_depth"@.len() != "max_command_bytes"@.len());
        }
        assert("max_commands"@.len() != "max_command_bytes"@.len());
    } else {
        crate::laws::lemma_precheck_is_suspicious(source);
    }
}

} // verus!
