//! A concrete syntax tree held as plain values: what the analysis reads
//! of each node the parser produced.
use vstd::prelude::*;

verus! {

/// One node of a concrete syntax tree.
///
/// `children` are the node's visible children in source order; `field` is
/// the label (such as `body`, `name` or `value`) under which the grammar
/// places this node in its parent, if any.
#[derive(Debug)]
pub struct SyntaxNode {
    pub kind: String,
    pub field: Option<String>,
    pub is_named: bool,
    pub is_error: bool,
    pub is_missing: bool,
    pub start_byte: usize,
    pub end_byte: usize,
    pub children: Vec<SyntaxNode>,
}

/// Whether a node stands under the field label `name`.
pub open spec fn has_label(node: SyntaxNode, name: Seq<char>) -> bool {
    node.field matches Some(f) && f@ == name
}

/// The index of the first node of `s` at or after `i` labelled `name`
/// (`s.len()` if none).
pub open spec fn labelled_from(s: Seq<SyntaxNode>, name: Seq<char>, i: int) -> int
    decreases s.len() - i,
{
    if i >= s.len() || i < 0 {
        s.len() as int
    } else if has_label(s[i], name) {
        i
    } else {
        labelled_from(s, name, i + 1)
    }
}

/// The position of the first child labelled `name`, if any.
pub open spec fn field_position(node: SyntaxNode, name: Seq<char>) -> Option<usize> {
    let j = labelled_from(node.children@, name, 0);
    if 0 <= j < node.children@.len() {
        Some(j as usize)
    } else {
        None
    }
}

/// The child that a field index designates, if it is in range.
pub open spec fn field_child(node: SyntaxNode, field: Option<usize>) -> Option<SyntaxNode> {
    match field {
        Some(i) => if i < node.children@.len() {
            Some(node.children@[i as int])
        } else {
            None
        },
        None => None,
    }
}

/// The number of named nodes in `s`.
pub open spec fn named_count(s: Seq<SyntaxNode>) -> nat
    decreases s.len(),
{
    if s.len() == 0 {
        0
    } else {
        named_count(s.drop_last()) + if s.last().is_named {
            1nat
        } else {
            0nat
        }
    }
}

/// The index of the first named node of `s` at or after `i` (`s.len()` if none).
pub open spec fn first_named_from(s: Seq<SyntaxNode>, i: int) -> int
    decreases s.len() - i,
{
    if i >= s.len() || i < 0 {
        s.len() as int
    } else if s[i].is_named {
        i
    } else {
        first_named_from(s, i + 1)
    }
}

pub proof fn lemma_named_count_positive(s: Seq<SyntaxNode>, i: int)
    requires
        0 <= i <= s.len(),
        named_count(s.take(i)) == 0,
        named_count(s) > 0,
    ensures
        i <= first_named_from(s, i) < s.len(),
        s[first_named_from(s, i)].is_named,
    decreases s.len() - i,
{
    if i == s.len() {
        assert(s.take(i) =~= s);
    } else {
        assert(s.take(i + 1).drop_last() =~= s.take(i));
        if !s[i].is_named {
            lemma_named_count_positive(s, i + 1);
        }
    }
}

impl SyntaxNode {
    /// The number of named children (`Node::named_child_count`).
    pub fn named_child_count(&self) -> (count: usize)
        ensures
            count == named_count(self.children@),
    {
        let mut count: usize = 0;
        let mut i: usize = 0;
        while i < self.children.len()
            invariant
                0 <= i <= self.children@.len(),
                count == named_count(self.children@.take(i as int)),
                count <= i,
            decreases self.children@.len() - i,
        {
            assert(self.children@.take(i + 1).drop_last() =~= self.children@.take(i as int));
            if self.children[i].is_named {
                count = count + 1;
            }
            i = i + 1;
        }
        assert(self.children@.take(i as int) =~= self.children@);
        count
    }

    /// The index of the first named child, if any.
    pub fn first_named_child(&self) -> (index: Option<usize>)
        ensures
            index matches Some(i) ==> i == first_named_from(self.children@, 0) && i
                < self.children@.len(),
            index is None ==> first_named_from(self.children@, 0) == self.children@.len(),
    {
        let mut i: usize = 0;
        while i < self.children.len()
            invariant
                0 <= i <= self.children@.len(),
                first_named_from(self.children@, 0) == first_named_from(self.children@, i as int),
            decreases self.children@.len() - i,
        {
            if self.children[i].is_named {
                return Some(i);
            }
            i = i + 1;
        }
        None
    }

    /// The position of the first child labelled `name`, if any.
    pub fn field_position(&self, name: &str) -> (index: Option<usize>)
        ensures
            index == field_position(*self, name@),
    {
        let mut i: usize = 0;
        while i < self.children.len()
            invariant
                0 <= i <= self.children@.len(),
                labelled_from(self.children@, name@, 0) == labelled_from(
                    self.children@,
                    name@,
                    i as int,
                ),
            decreases self.children@.len() - i,
        {
            let labelled = match &self.children[i].field {
                Some(f) => crate::text::text_eq(f.as_str(), name),
                None => false,
            };
            if labelled {
                return Some(i);
            }
            i = i + 1;
        }
        None
    }

    /// The child designated by a field index, if it is in range.
    pub fn field(&self, field: Option<usize>) -> (child: Option<&SyntaxNode>)
        ensures
            child matches Some(c) ==> field_child(*self, field) == Some(*c),
            child is None ==> field_child(*self, field) is None,
    {
        match field {
            Some(i) => if i < self.children.len() {
                Some(&self.children[i])
            } else {
                None
            },
            None => None,
        }
    }
}

} // verus!
