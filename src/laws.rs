//! Algebraic laws of documents, stated over their rendered text.
use vstd::prelude::*;
use crate::model::{
    DocSpec, HookSpec, Entry, apply, cat, fits, flatten, group_of, join, join_cat, layout,
    rendered, sat, stack_size, lemma_flatten_idempotent, lemma_step_decreases,
};

verus! {

/// An empty document at the bottom of the pending work changes no probe.
proof fn lemma_fits_empty_below(w: int, c: int, i: int, b: Seq<Entry>)
    ensures
        fits(w, c, seq![(i, DocSpec::Empty)] + b) == fits(w, c, b),
    decreases stack_size(b),
{
    let e = seq![(i, DocSpec::Empty)];
    let st = e + b;
    if b.len() == 0 {
        assert(st =~= e);
        assert(e.drop_last() =~= b);
        assert(fits(w, c, e) == fits(w, c, e.drop_last()));
    } else {
        let j = b.last().0;
        let rest = b.drop_last();
        assert(st.last() == b.last());
        assert(st.drop_last() =~= e + rest);
        lemma_step_decreases(b, c);
        lemma_step_decreases(b, j);
        match b.last().1 {
            DocSpec::Empty => lemma_fits_empty_below(w, c, i, rest),
            DocSpec::Text(s) => lemma_fits_empty_below(w, c + s.len(), i, rest),
            DocSpec::Line => {},
            DocSpec::Concat(x, y) => {
                assert((e + rest).push((j, *y)).push((j, *x)) =~= e + rest.push((j, *y)).push(
                    (j, *x),
                ));
                lemma_fits_empty_below(w, c, i, rest.push((j, *y)).push((j, *x)));
            },
            DocSpec::Nest(k, x) => {
                assert((e + rest).push((sat(j + k), *x)) =~= e + rest.push((sat(j + k), *x)));
                lemma_fits_empty_below(w, c, i, rest.push((sat(j + k), *x)));
            },
            DocSpec::Alt(x, _) => {
                assert((e + rest).push((j, *x)) =~= e + rest.push((j, *x)));
                lemma_fits_empty_below(w, c, i, rest.push((j, *x)));
            },
            DocSpec::AtColumn(f) => {
                assert((e + rest).push((j, apply(f, c))) =~= e + rest.push((j, apply(f, c))));
                lemma_fits_empty_below(w, c, i, rest.push((j, apply(f, c))));
            },
            DocSpec::AtNesting(f) => {
                assert((e + rest).push((j, apply(f, j))) =~= e + rest.push((j, apply(f, j))));
                lemma_fits_empty_below(w, c, i, rest.push((j, apply(f, j))));
            },
        }
    }
}

/// An empty document at the bottom of the pending work changes no layout.
proof fn lemma_layout_empty_below(w: int, c: int, i: int, b: Seq<Entry>)
    ensures
        layout(w, c, seq![(i, DocSpec::Empty)] + b) == layout(w, c, b),
    decreases stack_size(b),
{
    let e = seq![(i, DocSpec::Empty)];
    let st = e + b;
    if b.len() == 0 {
        assert(st =~= e);
        assert(e.drop_last() =~= b);
        assert(layout(w, c, e) == layout(w, c, e.drop_last()));
    } else {
        let j = b.last().0;
        let rest = b.drop_last();
        assert(st.last() == b.last());
        assert(st.drop_last() =~= e + rest);
        lemma_step_decreases(b, c);
        lemma_step_decreases(b, j);
        match b.last().1 {
            DocSpec::Empty => lemma_layout_empty_below(w, c, i, rest),
            DocSpec::Text(s) => lemma_layout_empty_below(w, sat(c + s.len()), i, rest),
            DocSpec::Line => lemma_layout_empty_below(w, j, i, rest),
            DocSpec::Concat(x, y) => {
                assert((e + rest).push((j, *y)).push((j, *x)) =~= e + rest.push((j, *y)).push(
                    (j, *x),
                ));
                lemma_layout_empty_below(w, c, i, rest.push((j, *y)).push((j, *x)));
            },
            DocSpec::Nest(k, x) => {
                assert((e + rest).push((sat(j + k), *x)) =~= e + rest.push((sat(j + k), *x)));
                lemma_layout_empty_below(w, c, i, rest.push((sat(j + k), *x)));
            },
            DocSpec::Alt(x, y) => {
                assert((e + rest).push((j, *x)) =~= e + rest.push((j, *x)));
                assert((e + rest).push((j, *y)) =~= e + rest.push((j, *y)));
                lemma_fits_empty_below(w, c, i, rest.push((j, *x)));
                lemma_layout_empty_below(w, c, i, rest.push((j, *x)));
                lemma_layout_empty_below(w, c, i, rest.push((j, *y)));
            },
            DocSpec::AtColumn(f) => {
                assert((e + rest).push((j, apply(f, c))) =~= e + rest.push((j, apply(f, c))));
                lemma_layout_empty_below(w, c, i, rest.push((j, apply(f, c))));
            },
            DocSpec::AtNesting(f) => {
                assert((e + rest).push((j, apply(f, j))) =~= e + rest.push((j, apply(f, j))));
                lemma_layout_empty_below(w, c, i, rest.push((j, apply(f, j))));
            },
        }
    }
}

/// The empty document is a two-sided identity of concatenation: at every
/// width, `d` with the empty document on either side renders as `d` does.
pub proof fn law_concat_identity(d: DocSpec, w: int)
    ensures
        rendered(cat(d, DocSpec::Empty), w) == rendered(d, w),
        rendered(cat(DocSpec::Empty, d), w) == rendered(d, w),
{
    let one = seq![(0int, d)];
    let e = seq![(0int, DocSpec::Empty)];
    let st1 = seq![(0int, cat(d, DocSpec::Empty))];
    lemma_step_decreases(st1, 0);
    assert(st1.drop_last() =~= Seq::<Entry>::empty());
    assert(Seq::<Entry>::empty().push((0int, DocSpec::Empty)).push((0int, d)) =~= e + one);
    lemma_layout_empty_below(w, 0, 0, one);
    let st2 = seq![(0int, cat(DocSpec::Empty, d))];
    lemma_step_decreases(st2, 0);
    assert(st2.drop_last() =~= Seq::<Entry>::empty());
    let two = Seq::<Entry>::empty().push((0int, d)).push((0int, DocSpec::Empty));
    lemma_step_decreases(two, 0);
    assert(two.drop_last() =~= one);
    assert(layout(w, 0, two) == layout(w, 0, two.drop_last()));
}

/// Flattening is idempotent: flattening a flattened document gives it back,
/// so the two render identically at every width.
pub proof fn law_flatten_idempotent(d: DocSpec, w: int)
    ensures
        flatten(flatten(d)) == flatten(d),
        rendered(flatten(flatten(d)), w) == rendered(flatten(d), w),
{
    lemma_flatten_idempotent(d);
}

/// The folds of an empty sequence of documents render as the empty text.
pub proof fn law_empty_folds(sep: DocSpec, w: int)
    ensures
        rendered(join(Seq::empty(), sep), w) == Seq::<char>::empty(),
        rendered(join_cat(Seq::empty()), w) == Seq::<char>::empty(),
{
    let st = seq![(0int, DocSpec::Empty)];
    assert(join(Seq::empty(), sep) == DocSpec::Empty);
    assert(join_cat(Seq::empty()) == DocSpec::Empty);
    assert(st.drop_last() =~= Seq::<Entry>::empty());
    assert(layout(w, 0, st) == layout(w, 0, st.drop_last()));
}

/// A document without line breaks or choices, whose hooks all flatten what they produce.
pub open spec fn is_flat(d: DocSpec) -> bool
    decreases d,
{
    match d {
        DocSpec::Line => false,
        DocSpec::Alt(_, _) => false,
        DocSpec::Concat(a, b) => is_flat(*a) && is_flat(*b),
        DocSpec::Nest(_, x) => is_flat(*x),
        DocSpec::AtColumn(f) => f is Flat,
        DocSpec::AtNesting(f) => f is Flat,
        _ => true,
    }
}

pub open spec fn all_flat(st: Seq<Entry>) -> bool {
    forall|k: int| 0 <= k < st.len() ==> is_flat(#[trigger] st[k].1)
}

proof fn lemma_flatten_is_flat(d: DocSpec)
    ensures
        is_flat(flatten(d)),
    decreases d,
{
    match d {
        DocSpec::Concat(a, b) => {
            lemma_flatten_is_flat(*a);
            lemma_flatten_is_flat(*b);
        },
        DocSpec::Nest(_, x) => lemma_flatten_is_flat(*x),
        DocSpec::Alt(x, _) => lemma_flatten_is_flat(*x),
        _ => {},
    }
}

proof fn lemma_all_flat_push(st: Seq<Entry>, e: Entry)
    requires
        all_flat(st),
        is_flat(e.1),
    ensures
        all_flat(st.push(e)),
{
    assert forall|k: int| 0 <= k < st.push(e).len() implies is_flat(#[trigger] st.push(e)[k].1) by {
        if k < st.len() {
            assert(st.push(e)[k] == st[k]);
        }
    }
}

/// On flat pending work the probe succeeds exactly when the whole rest of
/// the text stays within the width.
proof fn lemma_flat_fits(w: int, c: int, st: Seq<Entry>)
    requires
        all_flat(st),
        i64::MIN <= c <= w <= i64::MAX,
    ensures
        fits(w, c, st) == (c + layout(w, c, st).len() <= w),
    decreases stack_size(st),
{
    if st.len() > 0 {
        let i = st.last().0;
        let rest = st.drop_last();
        lemma_step_decreases(st, c);
        lemma_step_decreases(st, i);
        assert(is_flat(st[st.len() - 1].1));
        assert(all_flat(rest)) by {
            assert forall|k: int| 0 <= k < rest.len() implies is_flat(#[trigger] rest[k].1) by {
                assert(rest[k] == st[k]);
            }
        }
        match st.last().1 {
            DocSpec::Empty => lemma_flat_fits(w, c, rest),
            DocSpec::Text(s) => {
                if c + s.len() <= w {
                    lemma_flat_fits(w, c + s.len(), rest);
                }
            },
            DocSpec::Concat(x, y) => {
                lemma_all_flat_push(rest, (i, *y));
                lemma_all_flat_push(rest.push((i, *y)), (i, *x));
                lemma_flat_fits(w, c, rest.push((i, *y)).push((i, *x)));
            },
            DocSpec::Nest(j, x) => {
                lemma_all_flat_push(rest, (sat(i + j), *x));
                lemma_flat_fits(w, c, rest.push((sat(i + j), *x)));
            },
            DocSpec::AtColumn(f) => {
                if let HookSpec::Flat(g) = f {
                    lemma_flatten_is_flat(apply(*g, c));
                }
                lemma_all_flat_push(rest, (i, apply(f, c)));
                lemma_flat_fits(w, c, rest.push((i, apply(f, c))));
            },
            DocSpec::AtNesting(f) => {
                if let HookSpec::Flat(g) = f {
                    lemma_flatten_is_flat(apply(*g, i));
                }
                lemma_all_flat_push(rest, (i, apply(f, i)));
                lemma_flat_fits(w, c, rest.push((i, apply(f, i))));
            },
            _ => {},
        }
    }
}

/// Where the flattened form of `d` fits in the width, grouping `d` renders
/// exactly as its flattened form. A document that already is a choice is its
/// own group, so for one the law needs its primary branch to be flat already.
pub proof fn law_group_when_flat_fits(d: DocSpec, w: i16)
    requires
        rendered(flatten(d), w as int).len() <= w,
        d matches DocSpec::Alt(x, _) ==> flatten(*x) == *x,
    ensures
        rendered(group_of(d), w as int) == rendered(flatten(d), w as int),
{
    let fd = flatten(d);
    let one = seq![(0int, fd)];
    lemma_flatten_is_flat(d);
    assert(all_flat(one));
    lemma_flat_fits(w as int, 0, one);
    let st = seq![(0int, group_of(d))];
    lemma_step_decreases(st, 0);
    assert(st.drop_last() =~= Seq::<Entry>::empty());
    assert(Seq::<Entry>::empty().push((0int, fd)) =~= one);
}

/// Two stacks of pending work that probe and lay out alike from every column.
pub open spec fn equivalent(w: int, s1: Seq<Entry>, s2: Seq<Entry>) -> bool {
    forall|c: int|
        #![trigger fits(w, c, s1)]
        #![trigger layout(w, c, s1)]
        fits(w, c, s1) == fits(w, c, s2) && layout(w, c, s1) == layout(w, c, s2)
}

/// Equivalent stacks stay equivalent under any further pending work on top.
proof fn lemma_equivalent_below(w: int, c: int, s1: Seq<Entry>, s2: Seq<Entry>, b: Seq<Entry>)
    requires
        equivalent(w, s1, s2),
    ensures
        fits(w, c, s1 + b) == fits(w, c, s2 + b),
        layout(w, c, s1 + b) == layout(w, c, s2 + b),
    decreases stack_size(b),
{
    if b.len() == 0 {
        assert(s1 + b =~= s1);
        assert(s2 + b =~= s2);
        assert(fits(w, c, s1) == fits(w, c, s2) && layout(w, c, s1) == layout(w, c, s2));
    } else {
        let j = b.last().0;
        let rest = b.drop_last();
        assert((s1 + b).last() == b.last());
        assert((s2 + b).last() == b.last());
        assert((s1 + b).drop_last() =~= s1 + rest);
        assert((s2 + b).drop_last() =~= s2 + rest);
        assert((s1 + b).len() > 0 && (s2 + b).len() > 0);
        lemma_step_decreases(b, c);
        lemma_step_decreases(b, j);
        match b.last().1 {
            DocSpec::Empty => lemma_equivalent_below(w, c, s1, s2, rest),
            DocSpec::Text(s) => {
                lemma_equivalent_below(w, c + s.len(), s1, s2, rest);
                lemma_equivalent_below(w, sat(c + s.len()), s1, s2, rest);
            },
            DocSpec::Line => lemma_equivalent_below(w, j, s1, s2, rest),
            DocSpec::Concat(x, y) => {
                let n = rest.push((j, *y)).push((j, *x));
                assert((s1 + rest).push((j, *y)).push((j, *x)) =~= s1 + n);
                assert((s2 + rest).push((j, *y)).push((j, *x)) =~= s2 + n);
                lemma_equivalent_below(w, c, s1, s2, n);
            },
            DocSpec::Nest(k, x) => {
                let n = rest.push((sat(j + k), *x));
                assert((s1 + rest).push((sat(j + k), *x)) =~= s1 + n);
                assert((s2 + rest).push((sat(j + k), *x)) =~= s2 + n);
                lemma_equivalent_below(w, c, s1, s2, n);
            },
            DocSpec::Alt(x, y) => {
                let nx = rest.push((j, *x));
                let ny = rest.push((j, *y));
                assert((s1 + rest).push((j, *x)) =~= s1 + nx);
                assert((s2 + rest).push((j, *x)) =~= s2 + nx);
                assert((s1 + rest).push((j, *y)) =~= s1 + ny);
                assert((s2 + rest).push((j, *y)) =~= s2 + ny);
                lemma_equivalent_below(w, c, s1, s2, nx);
                lemma_equivalent_below(w, c, s1, s2, ny);
            },
            DocSpec::AtColumn(f) => {
                let n = rest.push((j, apply(f, c)));
                assert((s1 + rest).push((j, apply(f, c))) =~= s1 + n);
                assert((s2 + rest).push((j, apply(f, c))) =~= s2 + n);
                lemma_equivalent_below(w, c, s1, s2, n);
            },
            DocSpec::AtNesting(f) => {
                let n = rest.push((j, apply(f, j)));
                assert((s1 + rest).push((j, apply(f, j))) =~= s1 + n);
                assert((s2 + rest).push((j, apply(f, j))) =~= s2 + n);
                lemma_equivalent_below(w, c, s1, s2, n);
            },
        }
    }
}

/// Concatenation is associative: both ways of bracketing three documents
/// render the same text at every width.
pub proof fn law_concat_associative(a: DocSpec, b: DocSpec, c: DocSpec, w: int)
    ensures
        rendered(cat(cat(a, b), c), w) == rendered(cat(a, cat(b, c)), w),
{
    let e = Seq::<Entry>::empty();
    // Left bracketing: the work becomes c, b, a (a on top).
    let l0 = seq![(0int, cat(cat(a, b), c))];
    let l1 = e.push((0int, c)).push((0int, cat(a, b)));
    let l2 = e.push((0int, c)).push((0int, b)).push((0int, a));
    lemma_step_decreases(l0, 0);
    assert(l0.drop_last() =~= e);
    lemma_step_decreases(l1, 0);
    assert(l1.drop_last() =~= e.push((0int, c)));
    // Right bracketing: the work becomes (b c), a.
    let r0 = seq![(0int, cat(a, cat(b, c)))];
    let r1 = e.push((0int, cat(b, c))).push((0int, a));
    lemma_step_decreases(r0, 0);
    assert(r0.drop_last() =~= e);
    // The pending `b c` is equivalent to c, b.
    let s1 = seq![(0int, cat(b, c))];
    let s2 = e.push((0int, c)).push((0int, b));
    assert(s1.drop_last() =~= e);
    assert forall|k: int|
        #![trigger fits(w, k, s1)]
        #![trigger layout(w, k, s1)]
        fits(w, k, s1) == fits(w, k, s2) && layout(w, k, s1) == layout(w, k, s2) by {
        lemma_step_decreases(s1, k);
    }
    lemma_equivalent_below(w, 0, s1, s2, seq![(0int, a)]);
    assert(s1 + seq![(0int, a)] =~= r1);
    assert(s2 + seq![(0int, a)] =~= l2);
    assert(layout(w, 0, l0) == layout(w, 0, l1));
    assert(layout(w, 0, l1) == layout(w, 0, l2));
    assert(layout(w, 0, r0) == layout(w, 0, r1));
}

/// Nesting composes by addition: nesting by `j` a document nested by `k`
/// renders as nesting it by `j + k`, at every width.
pub proof fn law_nest_additive(d: DocSpec, j: i16, k: i16, w: int)
    ensures
        rendered(DocSpec::Nest(j as int, Box::new(DocSpec::Nest(k as int, Box::new(d)))), w)
            == rendered(DocSpec::Nest(j + k, Box::new(d)), w),
{
    let e = Seq::<Entry>::empty();
    let inner = DocSpec::Nest(k as int, Box::new(d));
    let l0 = seq![(0int, DocSpec::Nest(j as int, Box::new(inner)))];
    let l1 = e.push((j as int, inner));
    lemma_step_decreases(l0, 0);
    assert(l0.drop_last() =~= e);
    lemma_step_decreases(l1, 0);
    assert(l1.drop_last() =~= e);
    let r0 = seq![(0int, DocSpec::Nest(j + k, Box::new(d)))];
    lemma_step_decreases(r0, 0);
    assert(r0.drop_last() =~= e);
    assert(sat(0 + j) == j);
    assert(sat(j + k) == j + k);
    assert(layout(w, 0, l0) == layout(w, 0, l1));
    assert(layout(w, 0, l1) == layout(w, 0, e.push((j + k, d))));
    assert(layout(w, 0, r0) == layout(w, 0, e.push((j + k, d))));
}

} // verus!
