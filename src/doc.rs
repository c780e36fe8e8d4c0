//! Documents: immutable, shared trees of layout primitives.
use std::rc::Rc;
use vstd::prelude::*;
use crate::model::{DocSpec, HookSpec, flatten, flat_fn, apply, size, group_of, cat, space_doc};
use crate::render::add_sat;

verus! {

/// A document: a cheap, shareable handle on an immutable node.
pub struct Doc {
    pub(crate) node: Rc<Node>,
}

/// One node of a document tree.
pub(crate) enum Node {
    Empty,
    Text(String),
    Line,
    Concat(Doc, Doc),
    Nest(i64, Doc),
    Alt(Doc, Doc),
    AtColumn(Hook),
    AtNesting(Hook),
}

/// A document without context hooks: what a caller's context function
/// produces. It has the primitives of [`Doc`] but for the two hooks.
pub struct Plain {
    pub(crate) node: Rc<PlainNode>,
}

pub(crate) enum PlainNode {
    Empty,
    Text(String),
    Line,
    Concat(Plain, Plain),
    Nest(i64, Plain),
    Alt(Plain, Plain),
}

/// The abstract value of a hook-free document.
pub open(crate) spec fn plain_view(p: Plain) -> DocSpec
    decreases p,
{
    match *p.node {
        PlainNode::Empty => DocSpec::Empty,
        PlainNode::Text(s) => DocSpec::Text(s@),
        PlainNode::Line => DocSpec::Line,
        PlainNode::Concat(a, b) => DocSpec::Concat(Box::new(plain_view(a)), Box::new(plain_view(b))),
        PlainNode::Nest(j, x) => DocSpec::Nest(j as int, Box::new(plain_view(x))),
        PlainNode::Alt(a, b) => DocSpec::Alt(Box::new(plain_view(a)), Box::new(plain_view(b))),
    }
}

impl View for Plain {
    type V = DocSpec;

    open spec fn view(&self) -> DocSpec {
        plain_view(*self)
    }
}

impl Clone for Plain {
    fn clone(&self) -> (r: Plain)
        ensures
            r == *self,
    {
        Plain { node: Rc::clone(&self.node) }
    }
}

impl Plain {
    fn make(n: PlainNode) -> (r: Plain)
        ensures
            *r.node == n,
    {
        Plain { node: Rc::new(n) }
    }

    /// The empty document.
    pub fn nil() -> (r: Plain)
        ensures
            r@ == DocSpec::Empty,
    {
        Plain::make(PlainNode::Empty)
    }

    /// Literal text, taken verbatim. It should hold no line breaks.
    pub fn text(s: &str) -> (r: Plain)
        ensures
            r@ == DocSpec::Text(s@),
    {
        Plain::make(PlainNode::Text(s.to_owned()))
    }

    /// A hard line break.
    pub fn line() -> (r: Plain)
        ensures
            r@ == DocSpec::Line,
    {
        Plain::make(PlainNode::Line)
    }

    /// `self` immediately followed by `other`.
    pub fn concat(self, other: Plain) -> (r: Plain)
        ensures
            r@ == cat(self@, other@),
    {
        Plain::make(PlainNode::Concat(self, other))
    }

    /// `self`, a space, then `other`.
    pub fn concat_space(self, other: Plain) -> (r: Plain)
        ensures
            r@ == cat(cat(self@, space_doc()), other@),
    {
        proof {
            reveal_strlit(" ");
        }
        assert(" "@ =~= seq![' ']);
        self.concat(Plain::text(" ")).concat(other)
    }

    /// `self` with the indent raised by `depth`.
    pub fn nest(self, depth: i16) -> (r: Plain)
        ensures
            r@ == DocSpec::Nest(depth as int, Box::new(self@)),
    {
        Plain::make(PlainNode::Nest(depth as i64, self))
    }

    /// A choice: `self` where it fits, `other` otherwise.
    pub fn alt(self, other: Plain) -> (r: Plain)
        ensures
            r@ == DocSpec::Alt(Box::new(self@), Box::new(other@)),
    {
        Plain::make(PlainNode::Alt(self, other))
    }

    /// The same document as a [`Doc`].
    pub fn to_doc(&self) -> (r: Doc)
        ensures
            r@ == self@,
        decreases self,
    {
        match &*self.node {
            PlainNode::Empty => Doc::nil(),
            PlainNode::Text(s) => Doc::make(Node::Text(s.clone())),
            PlainNode::Line => Doc::line(),
            PlainNode::Concat(a, b) => {
                let da = a.to_doc();
                let db = b.to_doc();
                da.concat(db)
            },
            PlainNode::Nest(j, x) => Doc::make(Node::Nest(*j, x.to_doc())),
            PlainNode::Alt(a, b) => {
                let da = a.to_doc();
                let db = b.to_doc();
                da.alt(db)
            },
        }
    }
}

/// A context hook: computes a document from the current column or indent.
pub enum Hook {
    /// Given the column `k`, lays out the document so that its breaks land at `k`.
    Align(Doc),
    /// Given the indent `i`, nests the document by `k - i`, so that its breaks land at `k`.
    AlignTo(i64, Doc),
    /// The flattened form of what the inner hook produces.
    Flat(Rc<Hook>),
    /// A function supplied by the caller.
    User(Rc<Box<dyn ContextFn>>),
}

/// A caller's function from a layout context value (the current column, or
/// the current indent) to a document. It may be called any number of times,
/// during probes and during output, and must give the same document for the
/// same value. What it produces holds no hooks of its own.
pub trait ContextFn {
    /// The document produced for the context value `x`. An implementation
    /// states its own; the default suits a function that produces nothing.
    open spec fn spec_at(&self, x: int) -> DocSpec {
        DocSpec::Empty
    }

    /// A bound on the measure of every document produced.
    open spec fn bound(&self) -> nat {
        1
    }

    /// The document for the context value `x`.
    fn at(&self, x: i64) -> (r: Plain)
        ensures
            r@ == self.spec_at(x as int),
            size(r@) <= self.bound(),
    ;
}

/// The abstract value of a document.
pub open(crate) spec fn doc_view(d: Doc) -> DocSpec
    decreases d,
{
    match *d.node {
        Node::Empty => DocSpec::Empty,
        Node::Text(s) => DocSpec::Text(s@),
        Node::Line => DocSpec::Line,
        Node::Concat(a, b) => DocSpec::Concat(Box::new(doc_view(a)), Box::new(doc_view(b))),
        Node::Nest(j, x) => DocSpec::Nest(j as int, Box::new(doc_view(x))),
        Node::Alt(a, b) => DocSpec::Alt(Box::new(doc_view(a)), Box::new(doc_view(b))),
        Node::AtColumn(f) => DocSpec::AtColumn(hook_view(f)),
        Node::AtNesting(f) => DocSpec::AtNesting(hook_view(f)),
    }
}

/// The abstract value of a hook.
pub open(crate) spec fn hook_view(f: Hook) -> HookSpec
    decreases f,
{
    match f {
        Hook::Align(d) => HookSpec::Align(Box::new(doc_view(d))),
        Hook::AlignTo(k, d) => HookSpec::AlignTo(k as int, Box::new(doc_view(d))),
        Hook::Flat(g) => HookSpec::Flat(Box::new(hook_view(*g))),
        Hook::User(u) => HookSpec::User(|x: int| u.spec_at(x), u.bound()),
    }
}

impl View for Doc {
    type V = DocSpec;

    open spec fn view(&self) -> DocSpec {
        doc_view(*self)
    }
}

impl View for Hook {
    type V = HookSpec;

    open spec fn view(&self) -> HookSpec {
        hook_view(*self)
    }
}

impl Clone for Doc {
    fn clone(&self) -> (r: Doc)
        ensures
            r == *self,
    {
        Doc { node: Rc::clone(&self.node) }
    }
}

impl Doc {
    fn make(n: Node) -> (r: Doc)
        ensures
            *r.node == n,
    {
        Doc { node: Rc::new(n) }
    }

    pub(crate) fn node(&self) -> (r: &Node)
        ensures
            *r == *self.node,
    {
        &self.node
    }

    /// The empty document.
    pub fn nil() -> (r: Doc)
        ensures
            r@ == DocSpec::Empty,
    {
        Doc::make(Node::Empty)
    }

    /// `self` immediately followed by `other`.
    pub fn concat(self, other: Doc) -> (r: Doc)
        ensures
            r@ == cat(self@, other@),
    {
        Doc::make(Node::Concat(self, other))
    }

    /// A hard line break: a newline followed by the indent in force.
    pub fn line() -> (r: Doc)
        ensures
            r@ == DocSpec::Line,
    {
        Doc::make(Node::Line)
    }

    /// A comma (`","`).
    pub fn comma() -> (r: Doc)
        ensures
            r@ == DocSpec::Text(seq![',']),
    {
        proof {
            reveal_strlit(",");
        }
        assert(","@ =~= seq![',']);
        Doc::text(",")
    }

    /// A break that is a space where the layout fits, a line break otherwise.
    pub fn softline() -> (r: Doc)
        ensures
            r@ == DocSpec::Alt(Box::new(space_doc()), Box::new(DocSpec::Line)),
    {
        Doc::space().alt(Doc::line())
    }

    /// A break that is nothing where the layout fits, a line break otherwise.
    pub fn softline_empty() -> (r: Doc)
        ensures
            r@ == DocSpec::Alt(Box::new(DocSpec::Empty), Box::new(DocSpec::Line)),
    {
        Doc::nil().alt(Doc::line())
    }

    /// Renders `self` with the indent raised by `depth` (which may be negative).
    pub fn nest(self, depth: i16) -> (r: Doc)
        ensures
            r@ == DocSpec::Nest(depth as int, Box::new(self@)),
    {
        Doc::make(Node::Nest(depth as i64, self))
    }

    /// `self`, a space, then `other`.
    pub fn concat_space(self, other: Doc) -> (r: Doc)
        ensures
            r@ == cat(cat(self@, space_doc()), other@),
    {
        self.concat(Doc::space()).concat(other)
    }

    /// A choice: `self` where it fits, `other` otherwise.
    pub fn alt(self, other: Doc) -> (r: Doc)
        ensures
            r@ == DocSpec::Alt(Box::new(self@), Box::new(other@)),
    {
        Doc::make(Node::Alt(self, other))
    }

    /// A choice between the flattened form of `self` and `self`; a document
    /// that already is a choice is returned as it is.
    pub fn group(self) -> (r: Doc)
        ensures
            r@ == group_of(self@),
    {
        match self.node() {
            Node::Alt(_, _) => self,
            _ => {
                let f = self.flatten();
                f.alt(self)
            },
        }
    }

    /// A document computed, at layout time, by a hook from the current output column.
    pub(crate) fn at_column(f: Hook) -> (r: Doc)
        ensures
            r@ == DocSpec::AtColumn(f@),
    {
        Doc::make(Node::AtColumn(f))
    }

    /// A document computed, at layout time, by `f` from the current output column.
    pub fn column(f: Box<dyn ContextFn>) -> (r: Doc)
        ensures
            r@ == DocSpec::AtColumn(HookSpec::User(|x: int| f.spec_at(x), f.bound())),
    {
        let ghost g = |x: int| f.spec_at(x);
        let ghost b = f.bound();
        let r = Rc::new(f);
        assert(*r == f);
        let h = Hook::User(r);
        assert(h@ == HookSpec::User(|x: int| r.spec_at(x), r.bound()));
        assert(r.bound() == b);
        assert forall|x: int| r.spec_at(x) == g(x) by {}
        assert(h@ =~~= HookSpec::User(g, b));
        Doc::make(Node::AtColumn(h))
    }

    /// A document computed, at layout time, by `f` from the current indent.
    pub fn nesting(f: Box<dyn ContextFn>) -> (r: Doc)
        ensures
            r@ == DocSpec::AtNesting(HookSpec::User(|x: int| f.spec_at(x), f.bound())),
    {
        let ghost g = |x: int| f.spec_at(x);
        let ghost b = f.bound();
        let r = Rc::new(f);
        assert(*r == f);
        let h = Hook::User(r);
        assert(h@ == HookSpec::User(|x: int| r.spec_at(x), r.bound()));
        assert(r.bound() == b);
        assert forall|x: int| r.spec_at(x) == g(x) by {}
        assert(h@ =~~= HookSpec::User(g, b));
        Doc::make(Node::AtNesting(h))
    }

    /// A single space (`" "`).
    pub fn space() -> (r: Doc)
        ensures
            r@ == DocSpec::Text(seq![' ']),
    {
        proof {
            reveal_strlit(" ");
        }
        assert(" "@ =~= seq![' ']);
        Doc::text(" ")
    }

    /// Literal text, taken verbatim. It should hold no line breaks.
    pub fn text(s: &str) -> (r: Doc)
        ensures
            r@ == DocSpec::Text(s@),
    {
        Doc::make(Node::Text(s.to_owned()))
    }

    /// The flattened form of the document: every line break becomes a space and
    /// every choice keeps its primary branch.
    pub fn flatten(&self) -> (r: Doc)
        ensures
            r@ == flatten(self@),
        decreases size(self@),
    {
        match self.node() {
            Node::Empty | Node::Text(_) => self.clone(),
            Node::Line => Doc::space(),
            Node::Concat(x, y) => {
                let fx = x.flatten();
                let fy = y.flatten();
                Doc::make(Node::Concat(fx, fy))
            },
            Node::Nest(_, x) => x.flatten(),
            Node::Alt(x, _) => x.flatten(),
            Node::AtColumn(f) => Doc::make(Node::AtColumn(f.flat())),
            Node::AtNesting(f) => Doc::make(Node::AtNesting(f.flat())),
        }
    }
}

impl Clone for Hook {
    fn clone(&self) -> (r: Hook)
        ensures
            r@ == self@,
    {
        match self {
            Hook::Align(d) => Hook::Align(d.clone()),
            Hook::AlignTo(k, d) => Hook::AlignTo(*k, d.clone()),
            Hook::Flat(g) => Hook::Flat(Rc::clone(g)),
            Hook::User(u) => Hook::User(u.clone()),
        }
    }
}

impl Hook {
    /// The hook whose results are the flattened results of this one.
    pub fn flat(&self) -> (r: Hook)
        ensures
            r@ == flat_fn(self@),
    {
        match self {
            Hook::Flat(_) => self.clone(),
            _ => Hook::Flat(Rc::new(self.clone())),
        }
    }

    /// The document this hook produces for the context value `x`.
    pub fn apply(&self, x: i64) -> (r: Doc)
        ensures
            r@ == apply(self@, x as int),
        decreases self,
    {
        match self {
            Hook::Align(d) => {
                let h = Hook::AlignTo(x, d.clone());
                assert(h@ == HookSpec::AlignTo(x as int, Box::new(d@)));
                Doc::make(Node::AtNesting(h))
            },
            Hook::AlignTo(k, d) => {
                let j = add_sat(*k, -(x as i128));
                Doc::make(Node::Nest(j, d.clone()))
            },
            Hook::Flat(g) => {
                let inner = g.apply(x);
                inner.flatten()
            },
            Hook::User(u) => u.at(x).to_doc(),
        }
    }
}

} // verus!
