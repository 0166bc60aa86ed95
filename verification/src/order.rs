//! Stable ordering of commands and operators by their source spans.
use vstd::prelude::*;

use crate::model::{OperatorOccurrence, SimpleCommand, Span};

verus! {

/// Lexicographic order on `(start_byte, end_byte)`.
pub open spec fn span_le(a: Span, b: Span) -> bool {
    a.start_byte < b.start_byte || (a.start_byte == b.start_byte && a.end_byte <= b.end_byte)
}

pub fn span_le_exec(a: Span, b: Span) -> (le: bool)
    ensures
        le == span_le(a, b),
{
    a.start_byte < b.start_byte || (a.start_byte == b.start_byte && a.end_byte <= b.end_byte)
}

/// Where `x` goes in `s`: after the last element whose key is not greater.
pub open spec fn insert_pos<T>(s: Seq<T>, x: T, key: spec_fn(T) -> Span) -> int
    decreases s.len(),
{
    if s.len() == 0 || span_le(key(s.last()), key(x)) {
        s.len() as int
    } else {
        insert_pos(s.drop_last(), x, key)
    }
}

/// `s` with `x` inserted after every element whose key is not greater.
pub open spec fn insert_by_span<T>(s: Seq<T>, x: T, key: spec_fn(T) -> Span) -> Seq<T>
    decreases s.len(),
{
    if s.len() == 0 || span_le(key(s.last()), key(x)) {
        s.push(x)
    } else {
        insert_by_span(s.drop_last(), x, key).push(s.last())
    }
}

/// The stable sort of `s` by key (insertion sort).
pub open spec fn sort_by_span<T>(s: Seq<T>, key: spec_fn(T) -> Span) -> Seq<T>
    decreases s.len(),
{
    if s.len() == 0 {
        s
    } else {
        insert_by_span(sort_by_span(s.drop_last(), key), s.last(), key)
    }
}

/// Whether `s` is ordered by key.
pub open spec fn is_sorted_by_span<T>(s: Seq<T>, key: spec_fn(T) -> Span) -> bool {
    forall|i: int, j: int| 0 <= i < j < s.len() ==> span_le(key(s[i]), key(s[j]))
}

pub proof fn lemma_insert_pos<T>(s: Seq<T>, x: T, key: spec_fn(T) -> Span)
    ensures
        0 <= insert_pos(s, x, key) <= s.len(),
        insert_by_span(s, x, key) == s.insert(insert_pos(s, x, key), x),
    decreases s.len(),
{
    if s.len() == 0 || span_le(key(s.last()), key(x)) {
        assert(s.push(x) =~= s.insert(s.len() as int, x));
    } else {
        lemma_insert_pos(s.drop_last(), x, key);
        let p = insert_pos(s, x, key);
        assert(s.drop_last().insert(p, x).push(s.last()) =~= s.insert(p, x));
    }
}

/// Inserting into a sorted sequence keeps it sorted and adds exactly `x`.
pub proof fn lemma_insert_sorted<T>(s: Seq<T>, x: T, key: spec_fn(T) -> Span)
    requires
        is_sorted_by_span(s, key),
    ensures
        is_sorted_by_span(insert_by_span(s, x, key), key),
        insert_by_span(s, x, key).to_multiset() == s.to_multiset().insert(x),
    decreases s.len(),
{
    broadcast use vstd::seq_lib::group_to_multiset_ensures;

    if s.len() == 0 || span_le(key(s.last()), key(x)) {
        assert(s.push(x).to_multiset() =~= s.to_multiset().insert(x));
    } else {
        let d = s.drop_last();
        assert(is_sorted_by_span(d, key));
        lemma_insert_sorted(d, x, key);
        let r = insert_by_span(d, x, key);
        assert(s =~= d.push(s.last()));
        assert(r.to_multiset() == d.to_multiset().insert(x));
        assert(r.push(s.last()).to_multiset() =~= r.to_multiset().insert(s.last()));
        assert(s.to_multiset() =~= d.to_multiset().insert(s.last()));
        assert(r.push(s.last()).to_multiset() =~= s.to_multiset().insert(x));
        assert forall|i: int| 0 <= i < r.len() implies span_le(key(r[i]), key(s.last())) by {
            assert(r.to_multiset().count(r[i]) > 0);
            if r[i] != x {
                assert(d.to_multiset().count(r[i]) > 0);
                assert(d.contains(r[i]));
                let j = choose|j: int| 0 <= j < d.len() && d[j] == r[i];
                assert(s[j] == d[j]);
            }
        }
        assert(is_sorted_by_span(r.push(s.last()), key));
    }
}

/// Sorting by span yields a sorted permutation.
pub proof fn lemma_sort_sorted<T>(s: Seq<T>, key: spec_fn(T) -> Span)
    ensures
        is_sorted_by_span(sort_by_span(s, key), key),
        sort_by_span(s, key).to_multiset() == s.to_multiset(),
    decreases s.len(),
{
    broadcast use vstd::seq_lib::group_to_multiset_ensures;

    if s.len() > 0 {
        let d = s.drop_last();
        lemma_sort_sorted(d, key);
        lemma_insert_sorted(sort_by_span(d, key), s.last(), key);
        assert(s =~= d.push(s.last()));
        assert(s.to_multiset() =~= d.to_multiset().insert(s.last()));
    }
}

/// Every element of a sorted sequence comes from the unsorted one.
pub proof fn lemma_sort_members<T>(s: Seq<T>, key: spec_fn(T) -> Span, i: int)
    requires
        0 <= i < sort_by_span(s, key).len(),
    ensures
        s.contains(sort_by_span(s, key)[i]),
{
    broadcast use vstd::seq_lib::group_to_multiset_ensures;

    lemma_sort_sorted(s, key);
    let t = sort_by_span(s, key);
    assert(t.to_multiset().count(t[i]) > 0);
}

/// Types ordered by the span of their view.
pub trait SpanKeyed: View + Sized {
    spec fn key_of(v: Self::V) -> Span;

    fn span_key(&self) -> (span: Span)
        ensures
            span == Self::key_of(self@),
    ;
}

impl View for OperatorOccurrence {
    type V = OperatorOccurrence;

    open spec fn view(&self) -> OperatorOccurrence {
        *self
    }
}

impl SpanKeyed for OperatorOccurrence {
    open spec fn key_of(v: OperatorOccurrence) -> Span {
        v.span
    }

    fn span_key(&self) -> (span: Span) {
        self.span
    }
}

impl SpanKeyed for SimpleCommand {
    open spec fn key_of(v: crate::model::SimpleCommandView) -> Span {
        v.span
    }

    fn span_key(&self) -> (span: Span) {
        self.span
    }
}

/// The views of a sequence of values.
pub open spec fn views<T: View>(s: Seq<T>) -> Seq<T::V> {
    s.map_values(|x: T| x@)
}

/// The key function of a `SpanKeyed` type.
pub open spec fn key_fn<T: SpanKeyed>() -> spec_fn(T::V) -> Span {
    |v: T::V| T::key_of(v)
}

/// Stable insertion sort by span.
pub fn sort_by_span_exec<T: SpanKeyed>(items: Vec<T>) -> (sorted: Vec<T>)
    ensures
        views(sorted@) == sort_by_span(views(items@), key_fn::<T>()),
{
    let ghost orig = views(items@);
    let ghost n = items@.len();
    let mut items = items;
    let mut rev: Vec<T> = Vec::new();
    while items.len() > 0
        invariant
            n == orig.len(),
            items@.len() + rev@.len() == n,
            views(items@) == orig.take(items@.len() as int),
            forall|i: int|
                0 <= i < rev@.len() ==> #[trigger] rev@[i]@ == orig[n - 1 - i],
        decreases items@.len(),
    {
        let ghost before = items@;
        let x = items.pop().unwrap();
        assert(x@ == orig[items@.len() as int]) by {
            assert(views(before)[items@.len() as int] == x@);
        }
        rev.push(x);
        assert(views(items@) =~= orig.take(items@.len() as int)) by {
            assert(items@ =~= before.drop_last());
        }
    }
    let mut out: Vec<T> = Vec::new();
    let ghost key = key_fn::<T>();
    assert(views(out@) =~= sort_by_span(orig.take(0), key));
    while rev.len() > 0
        invariant
            n == orig.len(),
            rev@.len() <= n,
            key == key_fn::<T>(),
            forall|i: int|
                0 <= i < rev@.len() ==> #[trigger] rev@[i]@ == orig[n - 1 - i],
            views(out@) == sort_by_span(orig.take(n - rev@.len()), key),
        decreases rev@.len(),
    {
        let ghost k = n - rev@.len();
        let ghost before = rev@;
        let x = rev.pop().unwrap();
        assert(x@ == orig[k]) by {
            assert(before[before.len() - 1] == x);
        }
        let key_x = x.span_key();
        let ghost v = views(out@);
        let mut j = out.len();
        assert(v.take(j as int) =~= v);
        while j > 0 && !span_le_exec(out[j - 1].span_key(), key_x)
            invariant
                0 <= j <= out@.len(),
                v == views(out@),
                key == key_fn::<T>(),
                key_x == T::key_of(x@),
                insert_pos(v.take(j as int), x@, key) == insert_pos(v, x@, key),
            decreases j,
        {
            assert(v.take(j as int).drop_last() =~= v.take(j - 1));
            assert(v.take(j as int).last() == out@[j - 1]@);
            j = j - 1;
        }
        proof {
            assert(v.take(out@.len() as int) =~= v);
            if j > 0 {
                assert(v.take(j as int).last() == out@[j - 1]@);
            }
            lemma_insert_pos(v, x@, key);
        }
        out.insert(j, x);
        proof {
            assert(views(out@) =~= v.insert(j as int, x@));
            assert(orig.take(k + 1).drop_last() =~= orig.take(k));
        }
    }
    assert(orig.take(n as int) =~= orig);
    out
}

} // verus!
