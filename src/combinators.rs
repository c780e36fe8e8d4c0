//! Combinators derived from the primitives: separation, alignment, brackets,
//! blocks and paragraph fill.
use vstd::prelude::*;
use vstd::string::StringExecFns;
use crate::doc::{Doc, Hook};
use crate::model::{
    DocSpec, HookSpec, blanks, cat, flatten, fill_from, group_of, join, join_cat, space_doc,
    spaces_of, lemma_flatten_idempotent,
};

verus! {

/// The abstract values of a sequence of documents.
pub open spec fn views(ds: Seq<Doc>) -> Seq<DocSpec> {
    Seq::new(ds.len(), |k: int| ds[k]@)
}

/// `r` is the left fold of `ds` by `f`: the last of a chain of results that
/// starts at the first item and takes in one more item at each step; the empty
/// document when `ds` is empty.
pub open spec fn folded<F: Fn(Doc, Doc) -> Doc>(f: F, ds: Seq<Doc>, r: Doc) -> bool {
    if ds.len() == 0 {
        r@ == DocSpec::Empty
    } else {
        exists|acc: Seq<Doc>| #[trigger] fold_chain(f, ds, acc) && r == acc.last()
    }
}

pub open spec fn fold_chain<F: Fn(Doc, Doc) -> Doc>(f: F, ds: Seq<Doc>, acc: Seq<Doc>) -> bool {
    &&& acc.len() == ds.len()
    &&& acc.len() > 0
    &&& acc[0] == ds[0]
    &&& forall|k: int| 0 < k < acc.len() ==> f.ensures((#[trigger] acc[k - 1], ds[k]), acc[k])
}

/// A type that can present itself as a document.
pub trait ToDoc {
    fn to_doc(&self) -> Doc;

    fn render(&self, width: i16) -> String {
        self.to_doc().render(width)
    }
}

/// The documents of `docs`, with `separator` between adjacent ones; the empty
/// document when there are none.
pub fn to_list<T: ToDoc>(docs: &[T], separator: Doc) -> (r: Doc)
    ensures
        exists|ds: Seq<Doc>|
            {
                &&& ds.len() == docs@.len()
                &&& forall|k: int| 0 <= k < ds.len() ==> call_ensures(T::to_doc, (&docs@[k],), #[trigger] ds[k])
                &&& r@ == join(views(ds), separator@)
            },
{
    let ghost mut ds: Seq<Doc> = seq![];
    if docs.len() == 0 {
        assert(views(ds) =~= seq![]);
        return Doc::nil();
    }
    let first = docs[0].to_doc();
    proof {
        ds = ds.push(first);
        assert(views(ds) =~= seq![first@]);
    }
    let mut output = first;
    let mut k: usize = 1;
    while k < docs.len()
        invariant
            1 <= k <= docs.len(),
            ds.len() == k,
            forall|m: int| 0 <= m < ds.len() ==> call_ensures(T::to_doc, (&docs@[m],), #[trigger] ds[m]),
            output@ == join(views(ds), separator@),
        decreases docs.len() - k,
    {
        let next = docs[k].to_doc();
        let ghost prev = ds;
        proof {
            ds = ds.push(next);
            assert(views(ds).drop_last() =~= views(prev));
        }
        output = output.concat(separator.clone()).concat(next);
        k = k + 1;
    }
    output
}

impl Doc {
    /// The left fold of `docs` by `concat_f`; the empty document when there are none.
    pub fn concat_with<F: Fn(Doc, Doc) -> Doc>(docs: Vec<Doc>, concat_f: F) -> (r: Doc)
        requires
            forall|a: Doc, b: Doc| concat_f.requires((a, b)),
        ensures
            folded(concat_f, docs@, r),
    {
        if docs.len() == 0 {
            return Doc::nil();
        }
        let mut output = docs[0].clone();
        let mut k: usize = 1;
        let ghost mut acc: Seq<Doc> = seq![output];
        while k < docs.len()
            invariant
                1 <= k <= docs.len(),
                forall|a: Doc, b: Doc| concat_f.requires((a, b)),
                fold_chain(concat_f, docs@.take(k as int), acc),
                output == acc.last(),
            decreases docs.len() - k,
        {
            let next = docs[k].clone();
            output = concat_f(output, next);
            proof {
                acc = acc.push(output);
            }
            k = k + 1;
            assert forall|m: int| 0 < m < acc.len() implies concat_f.ensures(
                (#[trigger] acc[m - 1], docs@.take(k as int)[m]),
                acc[m],
            ) by {
                if m < acc.len() - 1 {
                    assert(docs@.take(k as int)[m] == docs@.take(k - 1)[m]);
                }
            }
        }
        assert(docs@.take(k as int) =~= docs@);
        output
    }

    /// `docs` with `separator` between adjacent ones; the empty document when
    /// there are none.
    pub fn intersperse(docs: Vec<Doc>, separator: Doc) -> (r: Doc)
        ensures
            r@ == join(views(docs@), separator@),
    {
        if docs.len() == 0 {
            assert(views(docs@) =~= seq![]);
            return Doc::nil();
        }
        let mut output = docs[0].clone();
        let mut k: usize = 1;
        assert(views(docs@.take(1)) =~= seq![docs@[0]@]);
        while k < docs.len()
            invariant
                1 <= k <= docs.len(),
                output@ == join(views(docs@.take(k as int)), separator@),
            decreases docs.len() - k,
        {
            output = output.concat(separator.clone()).concat(docs[k].clone());
            k = k + 1;
            assert(views(docs@.take(k as int)).drop_last() =~= views(docs@.take(k - 1)));
        }
        assert(docs@.take(k as int) =~= docs@);
        output
    }

    /// `docs` separated by single spaces.
    pub fn hsep(docs: Vec<Doc>) -> (r: Doc)
        ensures
            r@ == join(views(docs@), space_doc()),
    {
        Doc::intersperse(docs, Doc::space())
    }

    /// `docs` separated by hard line breaks.
    pub fn vsep(docs: Vec<Doc>) -> (r: Doc)
        ensures
            r@ == join(views(docs@), DocSpec::Line),
    {
        Doc::intersperse(docs, Doc::line())
    }

    /// `docs` on one line separated by spaces where that fits, one per line otherwise.
    pub fn sep(docs: Vec<Doc>) -> (r: Doc)
        ensures
            r@ == group_of(join(views(docs@), DocSpec::Line)),
    {
        Doc::vsep(docs).group()
    }

    /// `docs` concatenated with nothing between them.
    pub fn hcat(docs: Vec<Doc>) -> (r: Doc)
        ensures
            r@ == join_cat(views(docs@)),
    {
        if docs.len() == 0 {
            assert(views(docs@) =~= seq![]);
            return Doc::nil();
        }
        let mut output = docs[0].clone();
        let mut k: usize = 1;
        assert(views(docs@.take(1)) =~= seq![docs@[0]@]);
        while k < docs.len()
            invariant
                1 <= k <= docs.len(),
                output@ == join_cat(views(docs@.take(k as int))),
            decreases docs.len() - k,
        {
            output = output.concat(docs[k].clone());
            k = k + 1;
            assert(views(docs@.take(k as int)).drop_last() =~= views(docs@.take(k - 1)));
        }
        assert(docs@.take(k as int) =~= docs@);
        output
    }

    /// Lays out `self` so that its line breaks return to the column where it starts.
    pub fn align(self) -> (r: Doc)
        ensures
            r@ == DocSpec::AtColumn(HookSpec::Align(Box::new(self@))),
    {
        Doc::at_column(Hook::Align(self))
    }

    /// Hanging indentation: `self` nested by `i`, aligned at its start.
    pub fn hang(self, i: i16) -> (r: Doc)
        ensures
            r@ == DocSpec::AtColumn(
                HookSpec::Align(Box::new(DocSpec::Nest(i as int, Box::new(self@)))),
            ),
    {
        self.nest(i).align()
    }

    /// `i` spaces, then `self` with its following lines hanging at the same depth.
    pub fn indent(self, i: i16) -> (r: Doc)
        requires
            i >= 0,
        ensures
            r@ == DocSpec::AtColumn(
                HookSpec::Align(
                    Box::new(DocSpec::Nest(i as int, Box::new(cat(spaces_of(i as int), self@)))),
                ),
            ),
    {
        Doc::spaces(i).concat(self).hang(i)
    }

    /// `i` spaces as a document.
    pub fn spaces(i: i16) -> (r: Doc)
        requires
            i >= 0,
        ensures
            r@ == spaces_of(i as int),
    {
        if i == 0 {
            Doc::nil()
        } else if i == 1 {
            Doc::space()
        } else {
            let mut s = String::new();
            let mut k: i16 = 0;
            while k < i
                invariant
                    0 <= k <= i,
                    s@ == blanks(k as int),
                decreases i - k,
            {
                proof {
                    reveal_strlit(" ");
                }
                s.append(" ");
                k = k + 1;
                assert(s@ =~= blanks(k as int));
            }
            Doc::text(s.as_str())
        }
    }

    /// The `(` document.
    pub fn lparen() -> (r: Doc)
        ensures
            r@ == DocSpec::Text(seq!['(']),
    {
        proof {
            reveal_strlit("(");
        }
        assert("("@ =~= seq!['(']);
        Doc::text("(")
    }

    /// The `)` document.
    pub fn rparen() -> (r: Doc)
        ensures
            r@ == DocSpec::Text(seq![')']),
    {
        proof {
            reveal_strlit(")");
        }
        assert(")"@ =~= seq![')']);
        Doc::text(")")
    }

    /// The `<` document.
    pub fn langle() -> (r: Doc)
        ensures
            r@ == DocSpec::Text(seq!['<']),
    {
        proof {
            reveal_strlit("<");
        }
        assert("<"@ =~= seq!['<']);
        Doc::text("<")
    }

    /// The `>` document.
    pub fn rangle() -> (r: Doc)
        ensures
            r@ == DocSpec::Text(seq!['>']),
    {
        proof {
            reveal_strlit(">");
        }
        assert(">"@ =~= seq!['>']);
        Doc::text(">")
    }

    /// The `[` document.
    pub fn lbracket() -> (r: Doc)
        ensures
            r@ == DocSpec::Text(seq!['[']),
    {
        proof {
            reveal_strlit("[");
        }
        assert("["@ =~= seq!['[']);
        Doc::text("[")
    }

    /// The `]` document.
    pub fn rbracket() -> (r: Doc)
        ensures
            r@ == DocSpec::Text(seq![']']),
    {
        proof {
            reveal_strlit("]");
        }
        assert("]"@ =~= seq![']']);
        Doc::text("]")
    }

    /// The `{` document.
    pub fn lbrace() -> (r: Doc)
        ensures
            r@ == DocSpec::Text(seq!['{']),
    {
        proof {
            reveal_strlit("{");
        }
        assert("{"@ =~= seq!['{']);
        Doc::text("{")
    }

    /// The `}` document.
    pub fn rbrace() -> (r: Doc)
        ensures
            r@ == DocSpec::Text(seq!['}']),
    {
        proof {
            reveal_strlit("}");
        }
        assert("}"@ =~= seq!['}']);
        Doc::text("}")
    }

    /// `self` between `(` and `)`.
    pub fn parens(self) -> (r: Doc)
        ensures
            r@ == cat(cat(DocSpec::Text(seq!['(']), self@), DocSpec::Text(seq![')'])),
    {
        Doc::lparen().concat(self).concat(Doc::rparen())
    }

    /// `self` between `<` and `>`.
    pub fn angles(self) -> (r: Doc)
        ensures
            r@ == cat(cat(DocSpec::Text(seq!['<']), self@), DocSpec::Text(seq!['>'])),
    {
        Doc::langle().concat(self).concat(Doc::rangle())
    }

    /// `self` between `[` and `]`.
    pub fn brackets(self) -> (r: Doc)
        ensures
            r@ == cat(cat(DocSpec::Text(seq!['[']), self@), DocSpec::Text(seq![']'])),
    {
        Doc::lbracket().concat(self).concat(Doc::rbracket())
    }

    /// `self` between `{` and `}`.
    pub fn braces(self) -> (r: Doc)
        ensures
            r@ == cat(cat(DocSpec::Text(seq!['{']), self@), DocSpec::Text(seq!['}'])),
    {
        Doc::lbrace().concat(self).concat(Doc::rbrace())
    }

    /// A braced body: `start`, a line break, `self` indented by four and grouped,
    /// a line break, `end`.
    pub fn block(self, start: Doc, end: Doc) -> (r: Doc)
        ensures
            r@ == cat(
                cat(
                    cat(cat(start@, DocSpec::Line), group_of(
                        DocSpec::AtColumn(
                            HookSpec::Align(
                                Box::new(DocSpec::Nest(4, Box::new(cat(spaces_of(4), self@)))),
                            ),
                        ),
                    )),
                    DocSpec::Line,
                ),
                end@,
            ),
    {
        start.concat(Doc::line()).concat(self.indent(4).group()).concat(Doc::line()).concat(end)
    }

    /// Paragraph fill: each pair of adjacent items is joined by a space where
    /// the rest fits on the line, by a line break otherwise.
    pub fn fill(xs: &[Doc]) -> (r: Doc)
        ensures
            r@ == fill_from(views(xs@), 0, false),
    {
        let ghost vs = views(xs@);
        let n = xs.len();
        if n == 0 {
            return Doc::nil();
        }
        // The fills from index `k` on, with the head flattened and as it is.
        let mut ft = xs[n - 1].flatten();
        let mut ff = xs[n - 1].clone();
        let mut k: usize = n - 1;
        while k > 0
            invariant
                k < n == xs@.len(),
                vs == views(xs@),
                ft@ == fill_from(vs, k as int, true),
                ff@ == fill_from(vs, k as int, false),
            decreases k,
        {
            k = k - 1;
            let head = xs[k].clone();
            let head_flat = head.flatten();
            proof {
                lemma_flatten_idempotent(head@);
            }
            let next_t = head_flat.clone().concat(Doc::space()).concat(ft.clone()).alt(
                head_flat.clone().concat(Doc::line()).concat(ff.clone()),
            );
            let next_f = head_flat.concat(Doc::space()).concat(ft).alt(
                head.concat(Doc::line()).concat(ff),
            );
            ft = next_t;
            ff = next_f;
        }
        ff
    }
}

} // verus!
