//! Raising limits never rejects or changes an accepted program.
use vstd::prelude::*;

use crate::laws::{error_free, law_tree_checks_accept_exactly_the_trees_within_budget, tree_size, depth_within};
use crate::limits::ParseLimits;
use crate::model::GateResultView;
use crate::parser::spec_analyze;
use crate::syntax::{field_position, SyntaxNode};
use crate::walker::{
    gap_newline, join_output, push_operator, spec_structural_scan, spec_walk_node,
    spec_walk_redirected, WalkOutput,
};

verus! {

/// `b` allows at least what `a` allows, limit by limit (the timeout aside).
pub open spec fn at_least_as_loose(a: ParseLimits, b: ParseLimits) -> bool {
    &&& a.max_command_bytes <= b.max_command_bytes
    &&& a.max_nodes <= b.max_nodes
    &&& a.max_commands <= b.max_commands
    &&& a.max_depth <= b.max_depth
}

proof fn lemma_walk_node_loosened(
    source: Seq<char>,
    a: ParseLimits,
    b: ParseLimits,
    node: SyntaxNode,
    before: nat,
)
    requires
        a.max_commands <= b.max_commands,
        spec_walk_node(source, a, node, before) is Ok,
    ensures
        spec_walk_node(source, b, node, before) == spec_walk_node(source, a, node, before),
    decreases node, node.children@.len() + 1,
{
    let k = node.kind@;
    if k == "program"@ || k == "list"@ || k == "pipeline"@ {
        lemma_structural_loosened(
            source,
            a,
            b,
            node,
            0,
            before,
            WalkOutput { commands: seq![], operators: seq![] },
            None,
        );
    } else if k == "redirected_statement"@ {
        lemma_redirected_loosened(source, a, b, node, before);
    }
}

proof fn lemma_redirected_loosened(
    source: Seq<char>,
    a: ParseLimits,
    b: ParseLimits,
    node: SyntaxNode,
    before: nat,
)
    requires
        a.max_commands <= b.max_commands,
        spec_walk_redirected(source, a, node, before) is Ok,
    ensures
        spec_walk_redirected(source, b, node, before) == spec_walk_redirected(
            source,
            a,
            node,
            before,
        ),
    decreases node, node.children@.len(),
{
    let bi = field_position(node, "body"@)->0;
    lemma_walk_node_loosened(source, a, b, node.children@[bi as int], before);
}

proof fn lemma_structural_loosened(
    source: Seq<char>,
    a: ParseLimits,
    b: ParseLimits,
    node: SyntaxNode,
    i: int,
    before: nat,
    acc: WalkOutput,
    prev_end: Option<usize>,
)
    requires
        a.max_commands <= b.max_commands,
        spec_structural_scan(source, a, node, i, before, acc, prev_end) is Ok,
    ensures
        spec_structural_scan(source, b, node, i, before, acc, prev_end) == spec_structural_scan(
            source,
            a,
            node,
            i,
            before,
            acc,
            prev_end,
        ),
    decreases node, node.children@.len() - i,
{
    if 0 <= i < node.children@.len() {
        let child = node.children@[i];
        match crate::structure::spec_operator_occurrence(child) {
            Some(op) => {
                lemma_structural_loosened(
                    source,
                    a,
                    b,
                    node,
                    i + 1,
                    before,
                    WalkOutput { operators: acc.operators.push(op), ..acc },
                    None,
                );
            },
            None => {
                if child.kind@ == "comment"@ {
                    lemma_structural_loosened(source, a, b, node, i + 1, before, acc, prev_end);
                } else if child.is_named {
                    let acc1 = WalkOutput {
                        operators: push_operator(
                            acc.operators,
                            gap_newline(source, prev_end, child.start_byte),
                        ),
                        ..acc
                    };
                    lemma_walk_node_loosened(source, a, b, child, before + acc1.commands.len());
                    let out = spec_walk_node(source, a, child, before + acc1.commands.len())->Ok_0;
                    lemma_structural_loosened(
                        source,
                        a,
                        b,
                        node,
                        i + 1,
                        before,
                        join_output(acc1, out),
                        Some(child.end_byte),
                    );
                }
            },
        }
    }
}

/// Raising any of the limits never rejects or changes an accepted
/// program: when the analysis under limits `a` yields a program, the
/// analysis under limits `b`, each of them at least as high, yields the
/// same one.
pub proof fn law_loosening_limits_keeps_accepted_programs(
    a: ParseLimits,
    b: ParseLimits,
    source: Seq<char>,
    root: SyntaxNode,
)
    requires
        at_least_as_loose(a, b),
        spec_analyze(a, source, root) is Parsed,
    ensures
        spec_analyze(b, source, root) == spec_analyze(a, source, root),
{
    if crate::parser::spec_gate_prefix(a, source) is None {
        law_tree_checks_accept_exactly_the_trees_within_budget(root, a);
        law_tree_checks_accept_exactly_the_trees_within_budget(root, b);
        assert(error_free(root));
        assert(tree_size(root) <= b.spec_effective_max_nodes());
        lemma_depth_within_raise(
            root,
            0,
            a.spec_effective_max_depth() as nat,
            b.spec_effective_max_depth() as nat,
        );
        lemma_walk_node_loosened(source, a, b, root, 0);
    }
}

proof fn lemma_depth_within_raise(node: SyntaxNode, depth: nat, m: nat, n: nat)
    requires
        depth_within(node, depth, m),
        m <= n,
    ensures
        depth_within(node, depth, n),
    decreases node,
{
    assert forall|i: int| 0 <= i < node.children@.len() implies depth_within(
        #[trigger] node.children@[i],
        depth + 1,
        n,
    ) by {
        lemma_depth_within_raise(node.children@[i], depth + 1, m, n);
    }
}

} // verus!
