//! Resource and well-formedness checks over the whole syntax tree: node
//! budget, depth budget, and parser error or missing nodes.
use vstd::prelude::*;

use crate::limits::ParseLimits;
use crate::model::{TooComplex, TooComplexView};
use crate::syntax::SyntaxNode;
use crate::text::{decimal, push_number, text_eq};

verus! {

pub open spec fn nodes_error(limits: ParseLimits) -> TooComplexView {
    TooComplexView::limit(
        "max_nodes"@,
        "AST node count exceeds configured maximum of "@ + decimal(
            limits.spec_effective_max_nodes() as nat,
        ),
    )
}

pub open spec fn depth_error(limits: ParseLimits) -> TooComplexView {
    TooComplexView::limit(
        "max_depth"@,
        "AST depth exceeds configured maximum of "@ + decimal(
            limits.spec_effective_max_depth() as nat,
        ),
    )
}

/// Visits `node` (at `depth`, after `count` nodes were visited) and then its
/// subtree in preorder; the new count, or the first check that fails.
pub open spec fn spec_validate_node(
    node: SyntaxNode,
    depth: nat,
    count: nat,
    limits: ParseLimits,
) -> Result<nat, TooComplexView>
    decreases node,
{
    let count = count + 1;
    if count > limits.spec_effective_max_nodes() {
        Err(nodes_error(limits))
    } else if depth > limits.spec_effective_max_depth() {
        Err(depth_error(limits))
    } else if node.is_error || node.is_missing || node.kind@ == "ERROR"@ {
        Err(TooComplexView::error_node(node.kind@))
    } else {
        spec_validate_seq(node.children@, depth + 1, count, limits)
    }
}

/// Visits the trees of `s` in order, each at `depth`.
pub open spec fn spec_validate_seq(
    s: Seq<SyntaxNode>,
    depth: nat,
    count: nat,
    limits: ParseLimits,
) -> Result<nat, TooComplexView>
    decreases s,
{
    if s.len() == 0 {
        Ok(count)
    } else {
        match spec_validate_seq(s.drop_last(), depth, count, limits) {
            Err(e) => Err(e),
            Ok(c) => spec_validate_node(s.last(), depth, c, limits),
        }
    }
}

/// The whole tree passes the checks.
pub open spec fn spec_validate_tree(root: SyntaxNode, limits: ParseLimits) -> Result<
    nat,
    TooComplexView,
> {
    spec_validate_node(root, 0, 0, limits)
}

/// A failure on a prefix of the children is the failure of all of them.
proof fn lemma_validate_seq_error(s: Seq<SyntaxNode>, k: int, depth: nat, count: nat, limits: ParseLimits)
    requires
        0 <= k <= s.len(),
        spec_validate_seq(s.take(k), depth, count, limits) is Err,
    ensures
        spec_validate_seq(s, depth, count, limits) == spec_validate_seq(s.take(k), depth, count, limits),
    decreases s.len() - k,
{
    if k == s.len() {
        assert(s.take(k) =~= s);
    } else {
        assert(s.take(k + 1).drop_last() =~= s.take(k));
        lemma_validate_seq_error(s, k + 1, depth, count, limits);
    }
}

fn validate_node(
    node: &SyntaxNode,
    depth: usize,
    count: &mut usize,
    limits: ParseLimits,
) -> (r: Result<(), TooComplex>)
    requires
        *old(count) <= limits.spec_effective_max_nodes(),
        depth <= limits.spec_effective_max_depth() + 1,
    ensures
        match spec_validate_node(*node, depth as nat, *old(count) as nat, limits) {
            Ok(c) => r is Ok && *final(count) == c && c <= limits.spec_effective_max_nodes(),
            Err(e) => r matches Err(x) && x@ == e,
        },
    decreases *node,
{
    let max_nodes = limits.effective_max_nodes();
    let max_depth = limits.effective_max_depth();
    *count = *count + 1;
    if *count > max_nodes {
        let mut detail = "AST node count exceeds configured maximum of ".to_owned();
        push_number(&mut detail, max_nodes);
        return Err(TooComplex::limit("max_nodes", detail.as_str()));
    }
    if depth > max_depth {
        let mut detail = "AST depth exceeds configured maximum of ".to_owned();
        push_number(&mut detail, max_depth);
        return Err(TooComplex::limit("max_depth", detail.as_str()));
    }
    if node.is_error || node.is_missing || text_eq(node.kind.as_str(), "ERROR") {
        return Err(TooComplex::error_node(node.kind.as_str()));
    }
    let ghost after_self = *count as nat;
    let ghost whole = spec_validate_node(*node, depth as nat, *old(count) as nat, limits);
    assert(whole == spec_validate_seq(node.children@, depth as nat + 1, after_self, limits));
    let mut i: usize = 0;
    assert(node.children@.take(0) =~= seq![]);
    while i < node.children.len()
        invariant
            0 <= i <= node.children@.len(),
            depth <= max_depth,
            max_depth == limits.spec_effective_max_depth(),
            *count <= limits.spec_effective_max_nodes(),
            whole == spec_validate_node(*node, depth as nat, *old(count) as nat, limits),
            whole == spec_validate_seq(node.children@, depth as nat + 1, after_self, limits),
            spec_validate_seq(node.children@.take(i as int), depth as nat + 1, after_self, limits)
                == Ok::<nat, TooComplexView>(*count as nat),
        decreases node.children@.len() - i,
    {
        let child = &node.children[i];
        assert(node.children@.take(i + 1).drop_last() =~= node.children@.take(i as int));
        assert(node.children@.take(i + 1).last() == *child);
        let r = validate_node(child, depth + 1, count, limits);
        if r.is_err() {
            proof {
                lemma_validate_seq_error(node.children@, i + 1, depth as nat + 1, after_self, limits);
            }
            return r;
        }
        i = i + 1;
    }
    assert(node.children@.take(i as int) =~= node.children@);
    Ok(())
}

/// Checks the node and depth budgets and refuses parser error nodes.
pub fn validate_tree(root: &SyntaxNode, limits: ParseLimits) -> (r: Result<(), TooComplex>)
    ensures
        match spec_validate_tree(*root, limits) {
            Ok(_) => r is Ok,
            Err(e) => r matches Err(x) && x@ == e,
        },
{
    let mut count: usize = 0;
    validate_node(root, 0, &mut count, limits)
}

} // verus!
