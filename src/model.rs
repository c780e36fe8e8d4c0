//! The mathematical model of documents and of their layout.
use vstd::prelude::*;

verus! {

/// The abstract value of a document.
pub enum DocSpec {
    /// Renders to nothing.
    Empty,
    /// Literal text.
    Text(Seq<char>),
    /// A hard line break.
    Line,
    /// One document after the other.
    Concat(Box<DocSpec>, Box<DocSpec>),
    /// The inner document with the indent raised by the given amount.
    Nest(int, Box<DocSpec>),
    /// The primary document where it fits, else the fallback.
    Alt(Box<DocSpec>, Box<DocSpec>),
    /// The document a hook produces from the current column.
    AtColumn(HookSpec),
    /// The document a hook produces from the current indent.
    AtNesting(HookSpec),
}

/// The abstract value of a context hook: a function from an integer to a document.
pub enum HookSpec {
    Align(Box<DocSpec>),
    AlignTo(int, Box<DocSpec>),
    Flat(Box<HookSpec>),
    /// A caller's function, with a bound on the measure of what it produces.
    User(spec_fn(int) -> DocSpec, nat),
}

/// Clamp an integer to the range of `i64`.
pub open spec fn sat(x: int) -> int {
    if x < i64::MIN {
        i64::MIN as int
    } else if x > i64::MAX {
        i64::MAX as int
    } else {
        x
    }
}

/// The hook that flattens what `f` produces; flattening twice adds nothing.
pub open spec fn flat_fn(f: HookSpec) -> HookSpec {
    match f {
        HookSpec::Flat(_) => f,
        _ => HookSpec::Flat(Box::new(f)),
    }
}

/// The flattened form: breaks become spaces and every choice keeps its primary branch.
pub open spec fn flatten(d: DocSpec) -> DocSpec
    decreases d,
{
    match d {
        DocSpec::Line => DocSpec::Text(seq![' ']),
        DocSpec::Concat(a, b) => DocSpec::Concat(Box::new(flatten(*a)), Box::new(flatten(*b))),
        DocSpec::Nest(_, x) => flatten(*x),
        DocSpec::Alt(x, _) => flatten(*x),
        DocSpec::AtColumn(f) => DocSpec::AtColumn(flat_fn(f)),
        DocSpec::AtNesting(f) => DocSpec::AtNesting(flat_fn(f)),
        _ => d,
    }
}

/// The document a hook produces for context value `x`. A caller's function
/// is held to its stated bound, which every call made by the engine meets.
pub open spec fn apply(f: HookSpec, x: int) -> DocSpec
    decreases f,
{
    match f {
        HookSpec::Align(d) => DocSpec::AtNesting(HookSpec::AlignTo(x, d)),
        HookSpec::AlignTo(k, d) => DocSpec::Nest(sat(k - x), d),
        HookSpec::Flat(g) => flatten(apply(*g, x)),
        HookSpec::User(g, b) => if size(g(x)) <= b {
            g(x)
        } else {
            DocSpec::Empty
        },
    }
}

/// A measure that every step of the layout engine decreases.
pub open spec fn size(d: DocSpec) -> nat
    decreases d,
{
    match d {
        DocSpec::Concat(a, b) => 1 + size(*a) + size(*b),
        DocSpec::Nest(_, x) => 1 + size(*x),
        DocSpec::Alt(a, b) => 1 + size(*a) + size(*b),
        DocSpec::AtColumn(f) => 1 + fn_size(f),
        DocSpec::AtNesting(f) => 1 + fn_size(f),
        _ => 1,
    }
}

/// The measure of a hook: more than that of anything it can produce.
pub open spec fn fn_size(f: HookSpec) -> nat
    decreases f,
{
    match f {
        HookSpec::Align(d) => size(*d) + 3,
        HookSpec::AlignTo(_, d) => size(*d) + 2,
        HookSpec::Flat(g) => fn_size(*g),
        HookSpec::User(_, b) => b + 1,
    }
}

} // verus!

verus! {

/// A pending rendering obligation: an indent and a document. Stacks of them
/// are processed from the last element down.
pub type Entry = (int, DocSpec);

/// The total measure of the pending work.
pub open spec fn stack_size(st: Seq<Entry>) -> nat
    decreases st.len(),
{
    if st.len() == 0 {
        0
    } else {
        stack_size(st.drop_last()) + size(st.last().1)
    }
}

pub proof fn lemma_push_size(st: Seq<Entry>, e: Entry)
    ensures
        stack_size(st.push(e)) == stack_size(st) + size(e.1),
{
    assert(st.push(e).drop_last() =~= st);
}

pub proof fn lemma_flatten_size(d: DocSpec)
    ensures
        size(flatten(d)) <= size(d),
    decreases d,
{
    match d {
        DocSpec::Concat(a, b) => {
            lemma_flatten_size(*a);
            lemma_flatten_size(*b);
            assert(flatten(d) == DocSpec::Concat(Box::new(flatten(*a)), Box::new(flatten(*b))));
        },
        DocSpec::AtColumn(f) => {
            assert(fn_size(flat_fn(f)) == fn_size(f));
        },
        DocSpec::AtNesting(f) => {
            assert(fn_size(flat_fn(f)) == fn_size(f));
        },
        DocSpec::Nest(_, x) => lemma_flatten_size(*x),
        DocSpec::Alt(x, _) => lemma_flatten_size(*x),
        _ => {},
    }
}

pub proof fn lemma_apply_size(f: HookSpec, x: int)
    ensures
        size(apply(f, x)) < 1 + fn_size(f),
    decreases f,
{
    if let HookSpec::Flat(g) = f {
        lemma_apply_size(*g, x);
        lemma_flatten_size(apply(*g, x));
        assert(apply(f, x) == flatten(apply(*g, x)));
        assert(fn_size(f) == fn_size(*g));
    } else if let HookSpec::Align(d) = f {
        assert(fn_size(HookSpec::AlignTo(x, d)) == size(*d) + 2);
    }
}

/// Every step of the layout engine shrinks the pending work.
pub proof fn lemma_step_decreases(st: Seq<Entry>, c: int)
    requires
        st.len() > 0,
    ensures
        ({
            let i = st.last().0;
            let rest = st.drop_last();
            stack_size(st) == stack_size(rest) + size(st.last().1) && match st.last().1 {
                DocSpec::Concat(x, y) => stack_size(rest.push((i, *y)).push((i, *x))) < stack_size(
                    st,
                ),
                DocSpec::Nest(j, x) => stack_size(rest.push((sat(i + j), *x))) < stack_size(st),
                DocSpec::Alt(x, y) => stack_size(rest.push((i, *x))) < stack_size(st)
                    && stack_size(rest.push((i, *y))) < stack_size(st),
                DocSpec::AtColumn(f) => stack_size(rest.push((i, apply(f, c)))) < stack_size(st),
                DocSpec::AtNesting(f) => stack_size(rest.push((i, apply(f, c)))) < stack_size(st),
                _ => true,
            }
        }),
{
    let i = st.last().0;
    let rest = st.drop_last();
    assert(rest.push(st.last()) =~= st);
    lemma_push_size(rest, st.last());
    match st.last().1 {
        DocSpec::Concat(x, y) => {
            lemma_push_size(rest, (i, *y));
            lemma_push_size(rest.push((i, *y)), (i, *x));
        },
        DocSpec::Nest(j, x) => lemma_push_size(rest, (sat(i + j), *x)),
        DocSpec::Alt(x, y) => {
            lemma_push_size(rest, (i, *x));
            lemma_push_size(rest, (i, *y));
        },
        DocSpec::AtColumn(f) => {
            lemma_push_size(rest, (i, apply(f, c)));
            lemma_apply_size(f, c);
        },
        DocSpec::AtNesting(f) => {
            lemma_push_size(rest, (i, apply(f, c)));
            lemma_apply_size(f, c);
        },
        _ => {},
    }
}

#[via_fn]
proof fn step_decreases_fits(w: int, cur: int, st: Seq<Entry>) {
    if st.len() > 0 {
        lemma_step_decreases(st, cur);
        lemma_step_decreases(st, st.last().0);
    }
}

#[via_fn]
proof fn step_decreases_layout(w: int, cur: int, st: Seq<Entry>) {
    if st.len() > 0 {
        lemma_step_decreases(st, cur);
        lemma_step_decreases(st, st.last().0);
    }
}

/// Whether the pending work `st`, starting at column `cur`, reaches its next
/// line break (or its end) without any text passing column `w`. Choices are
/// probed by their primary branch.
pub open spec fn fits(w: int, cur: int, st: Seq<Entry>) -> bool
    decreases stack_size(st),
    via step_decreases_fits
{
    if st.len() == 0 {
        true
    } else {
        let i = st.last().0;
        let rest = st.drop_last();
        match st.last().1 {
            DocSpec::Empty => fits(w, cur, rest),
            DocSpec::Text(s) => {
                if cur + s.len() > w {
                    false
                } else {
                    fits(w, cur + s.len(), rest)
                }
            },
            DocSpec::Line => true,
            DocSpec::Concat(x, y) => fits(w, cur, rest.push((i, *y)).push((i, *x))),
            DocSpec::Nest(j, x) => fits(w, cur, rest.push((sat(i + j), *x))),
            DocSpec::Alt(x, _) => fits(w, cur, rest.push((i, *x))),
            DocSpec::AtColumn(f) => fits(w, cur, rest.push((i, apply(f, cur)))),
            DocSpec::AtNesting(f) => fits(w, cur, rest.push((i, apply(f, i)))),
        }
    }
}

/// `n` spaces, none when `n` is not positive.
pub open spec fn blanks(n: int) -> Seq<char> {
    Seq::new(if n > 0 { n as nat } else { 0 }, |k: int| ' ')
}

/// The text that the pending work `st` lays out at width `w`, from column `cur`.
pub open spec fn layout(w: int, cur: int, st: Seq<Entry>) -> Seq<char>
    decreases stack_size(st),
    via step_decreases_layout
{
    if st.len() == 0 {
        seq![]
    } else {
        let i = st.last().0;
        let rest = st.drop_last();
        match st.last().1 {
            DocSpec::Empty => layout(w, cur, rest),
            DocSpec::Text(s) => s + layout(w, sat(cur + s.len()), rest),
            DocSpec::Line => seq!['\n'] + blanks(i) + layout(w, i, rest),
            DocSpec::Concat(x, y) => layout(w, cur, rest.push((i, *y)).push((i, *x))),
            DocSpec::Nest(j, x) => layout(w, cur, rest.push((sat(i + j), *x))),
            DocSpec::Alt(x, y) => {
                if fits(w, cur, rest.push((i, *x))) {
                    layout(w, cur, rest.push((i, *x)))
                } else {
                    layout(w, cur, rest.push((i, *y)))
                }
            },
            DocSpec::AtColumn(f) => layout(w, cur, rest.push((i, apply(f, cur)))),
            DocSpec::AtNesting(f) => layout(w, cur, rest.push((i, apply(f, i)))),
        }
    }
}

/// The text of document `d` rendered at width `w`.
pub open spec fn rendered(d: DocSpec, w: int) -> Seq<char> {
    layout(w, 0, seq![(0int, d)])
}

} // verus!

verus! {

/// `group`: a choice between the flattened form and the document itself,
/// unless the document already is a choice.
pub open spec fn group_of(d: DocSpec) -> DocSpec {
    match d {
        DocSpec::Alt(_, _) => d,
        _ => DocSpec::Alt(Box::new(flatten(d)), Box::new(d)),
    }
}

pub open spec fn cat(a: DocSpec, b: DocSpec) -> DocSpec {
    DocSpec::Concat(Box::new(a), Box::new(b))
}

pub open spec fn space_doc() -> DocSpec {
    DocSpec::Text(seq![' '])
}

/// Left fold of `ds`, with `sep` between adjacent items: `((d0 sep) d1) sep) d2 ...`.
pub open spec fn join(ds: Seq<DocSpec>, sep: DocSpec) -> DocSpec
    decreases ds.len(),
{
    if ds.len() == 0 {
        DocSpec::Empty
    } else if ds.len() == 1 {
        ds[0]
    } else {
        cat(cat(join(ds.drop_last(), sep), sep), ds.last())
    }
}

/// Left fold of `ds` by plain concatenation.
pub open spec fn join_cat(ds: Seq<DocSpec>) -> DocSpec
    decreases ds.len(),
{
    if ds.len() == 0 {
        DocSpec::Empty
    } else if ds.len() == 1 {
        ds[0]
    } else {
        cat(join_cat(ds.drop_last()), ds.last())
    }
}

/// `n` spaces as a document.
pub open spec fn spaces_of(n: int) -> DocSpec {
    if n == 0 {
        DocSpec::Empty
    } else if n == 1 {
        space_doc()
    } else {
        DocSpec::Text(blanks(n))
    }
}

/// Paragraph fill of `xs` from index `i` on; `head_flat` says that the item at
/// `i` stands in its flattened form.
pub open spec fn fill_from(xs: Seq<DocSpec>, i: int, head_flat: bool) -> DocSpec
    decreases xs.len() - i,
{
    if i < 0 || i >= xs.len() {
        DocSpec::Empty
    } else {
        let h = if head_flat {
            flatten(xs[i])
        } else {
            xs[i]
        };
        if i == xs.len() - 1 {
            h
        } else {
            DocSpec::Alt(
                Box::new(cat(cat(flatten(h), space_doc()), fill_from(xs, i + 1, true))),
                Box::new(cat(cat(h, DocSpec::Line), fill_from(xs, i + 1, false))),
            )
        }
    }
}

/// Flattening twice is flattening once.
pub proof fn lemma_flatten_idempotent(d: DocSpec)
    ensures
        flatten(flatten(d)) == flatten(d),
    decreases d,
{
    match d {
        DocSpec::Concat(a, b) => {
            lemma_flatten_idempotent(*a);
            lemma_flatten_idempotent(*b);
        },
        DocSpec::Nest(_, x) => lemma_flatten_idempotent(*x),
        DocSpec::Alt(x, _) => lemma_flatten_idempotent(*x),
        _ => {},
    }
}

} // verus!
