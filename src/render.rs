//! The layout engine: the fitting probe and the renderer.
use vstd::prelude::*;
use vstd::string::{StrSliceExecFns, StringExecFns};
use crate::doc::{Doc, Node};
use crate::model::{blanks, fits, layout, rendered, stack_size, sat, apply, Entry, DocSpec, lemma_step_decreases};

verus! {

/// The abstract value of a stack of pending (indent, document) pairs.
pub open spec fn stack_view(s: Seq<(i64, Doc)>) -> Seq<Entry> {
    Seq::new(s.len(), |k: int| (s[k].0 as int, s[k].1@))
}

proof fn lemma_stack_view_push(s: Seq<(i64, Doc)>, e: (i64, Doc))
    ensures
        stack_view(s.push(e)) == stack_view(s).push((e.0 as int, e.1@)),
{
    assert(stack_view(s.push(e)) =~= stack_view(s).push((e.0 as int, e.1@)));
}

proof fn lemma_stack_view_pop(s: Seq<(i64, Doc)>)
    requires
        s.len() > 0,
    ensures
        stack_view(s.drop_last()) == stack_view(s).drop_last(),
        stack_view(s).last() == (s.last().0 as int, s.last().1@),
{
    assert(stack_view(s.drop_last()) =~= stack_view(s).drop_last());
}

/// Adds two integers, clamping the sum to the range of `i64`.
pub(crate) fn add_sat(a: i64, b: i128) -> (r: i64)
    requires
        -0x1_0000_0000_0000_0000 <= b <= 0x1_0000_0000_0000_0000,
    ensures
        r == sat(a + b),
{
    let v: i128 = a as i128 + b;
    if v > i64::MAX as i128 {
        i64::MAX
    } else if v < i64::MIN as i128 {
        i64::MIN
    } else {
        v as i64
    }
}

/// The width of a text in columns: its number of characters.
fn text_width(s: &String) -> (r: usize)
    ensures
        r == s@.len(),
{
    s.as_str().unicode_len()
}

/// Whether `head`, followed by the pending work `stack`, fits in `width` from
/// column `cursor`. The stack is read in place, never copied.
pub(crate) fn fits_probe(width: i64, cursor: i64, head: (i64, Doc), stack: &Vec<(i64, Doc)>) -> (r:
    bool)
    ensures
        r == fits(width as int, cursor as int, stack_view(stack@).push((head.0 as int, head.1@))),
{
    let ghost h = (head.0 as int, head.1@);
    let ghost goal = fits(width as int, cursor as int, stack_view(stack@).push(h));
    let mut local: Vec<(i64, Doc)> = Vec::new();
    local.push(head);
    let mut idx: usize = stack.len();
    let mut cur: i64 = cursor;
    proof {
        assert(stack_view(stack@.take(idx as int)) + stack_view(local@) =~= stack_view(stack@).push(
            (head.0 as int, head.1@),
        ));
    }
    loop
        invariant
            idx <= stack.len(),
            goal == fits(width as int, cursor as int, stack_view(stack@).push(h)),
            h == (head.0 as int, head.1@),
            fits(width as int, cur as int, stack_view(stack@.take(idx as int)) + stack_view(local@))
                == goal,
        decreases stack_size(stack_view(stack@.take(idx as int)) + stack_view(local@)),
    {
        let ghost all = stack_view(stack@.take(idx as int)) + stack_view(local@);
        let ghost m = local.len();
        let (i, d) = if local.len() > 0 {
            let e = local.pop().unwrap();
            proof {
                lemma_stack_view_pop(local@.push(e));
                assert(local@.push(e).drop_last() =~= local@);
            }
            e
        } else if idx > 0 {
            idx = idx - 1;
            proof {
                assert(stack@.take(idx + 1).drop_last() =~= stack@.take(idx as int));
                lemma_stack_view_pop(stack@.take(idx + 1));
            }
            (stack[idx].0, stack[idx].1.clone())
        } else {
            assert(all.len() == 0);
            return true;
        };
        let ghost rest = stack_view(stack@.take(idx as int)) + stack_view(local@);
        proof {
            assert(all.last() == (i as int, d@));
            assert(all.drop_last() =~= rest);
            lemma_step_decreases(all, cur as int);
            lemma_step_decreases(all, i as int);
            assert(rest.push((i as int, d@)) =~= all);
        }
        assert(all.len() > 0);
        match d.node() {
            Node::Empty => {
                assert(stack_view(stack@.take(idx as int)) + stack_view(local@) =~= rest);
            },
            Node::Text(s) => {
                let n = text_width(s);
                assert(d@ == DocSpec::Text(s@));
                if cur as i128 + n as i128 > width as i128 {
                    assert(!fits(width as int, cur as int, all));
                    return false;
                }
                cur = (cur as i128 + n as i128) as i64;
                assert(stack_view(stack@.take(idx as int)) + stack_view(local@) =~= rest);
            },
            Node::Line => {
                assert(d@ == DocSpec::Line);
                assert(fits(width as int, cur as int, all));
                return true;
            },
            Node::Concat(x, y) => {
                local.push((i, y.clone()));
                local.push((i, x.clone()));
                proof {
                    assert(stack_view(stack@.take(idx as int)) + stack_view(local@) =~= rest.push(
                        (i as int, y@),
                    ).push((i as int, x@)));
                }
            },
            Node::Nest(j, x) => {
                let k = add_sat(i, *j as i128);
                local.push((k, x.clone()));
                proof {
                    assert(stack_view(stack@.take(idx as int)) + stack_view(local@) =~= rest.push(
                        (sat(i + *j), x@),
                    ));
                }
            },
            Node::Alt(x, _) => {
                local.push((i, x.clone()));
                proof {
                    assert(stack_view(stack@.take(idx as int)) + stack_view(local@) =~= rest.push(
                        (i as int, x@),
                    ));
                }
            },
            Node::AtColumn(f) => {
                local.push((i, f.apply(cur)));
                proof {
                    assert(stack_view(stack@.take(idx as int)) + stack_view(local@) =~= rest.push(
                        (i as int, apply(f@, cur as int)),
                    ));
                }
            },
            Node::AtNesting(f) => {
                local.push((i, f.apply(i)));
                proof {
                    assert(stack_view(stack@.take(idx as int)) + stack_view(local@) =~= rest.push(
                        (i as int, apply(f@, i as int)),
                    ));
                }
            },
        }
    }
}

/// Appends a line break followed by `indent` spaces.
fn push_line(out: &mut String, indent: i64)
    ensures
        final(out)@ == old(out)@ + seq!['\n'] + blanks(indent as int),
{
    proof {
        reveal_strlit("\n");
        reveal_strlit(" ");
    }
    out.append("\n");
    let ghost start = out@;
    let mut k: i64 = 0;
    while k < indent
        invariant
            0 <= k,
            indent > 0 ==> k <= indent,
            indent <= 0 ==> k == 0,
            out@ == start + blanks(k as int),
        decreases indent - k,
    {
        proof {
            reveal_strlit(" ");
        }
        out.append(" ");
        k = k + 1;
        assert(out@ =~= start + blanks(k as int));
    }
    if indent > 0 {
        assert(k == indent);
    } else {
        assert(k == 0);
    }
    assert(blanks(k as int) =~= blanks(indent as int));
}

impl Doc {
    /// Renders the document at the given line width.
    ///
    /// Each choice takes its primary branch when that branch, followed by the
    /// rest of the document up to its next line break, fits in the width;
    /// otherwise its fallback. Every line break is `\n` followed by as many
    /// spaces as the indent in force.
    pub fn render(self, width: i16) -> (r: String)
        ensures
            r@ == rendered(self@, width as int),
    {
        let w: i64 = width as i64;
        let ghost goal = rendered(self@, width as int);
        let mut stack: Vec<(i64, Doc)> = Vec::new();
        stack.push((0, self));
        let mut cursor: i64 = 0;
        let mut out = String::new();
        assert(stack_view(stack@) =~= seq![(0int, self@)]);
        loop
            invariant
                goal == rendered(self@, width as int),
                out@ + layout(w as int, cursor as int, stack_view(stack@)) == goal,
            decreases stack_size(stack_view(stack@)),
        {
            let ghost all = stack_view(stack@);
            let ghost before = out@;
            let ghost c0 = cursor;
            let (i, d) = match stack.pop() {
                Some(e) => e,
                None => {
                    assert(out@ =~= goal);
                    return out;
                },
            };
            let ghost rest = stack_view(stack@);
            proof {
                lemma_stack_view_pop(stack@.push((i, d)));
                assert(stack@.push((i, d)).drop_last() =~= stack@);
                lemma_step_decreases(all, cursor as int);
                lemma_step_decreases(all, i as int);
                assert(all.last() == (i as int, d@));
                assert(all.drop_last() =~= rest);
            }
            match d.node() {
                Node::Empty => {},
                Node::Text(s) => {
                    assert(d@ == DocSpec::Text(s@));
                    let n = text_width(s);
                    out.append(s.as_str());
                    cursor = add_sat(cursor, n as i128);
                    assert(out@ + layout(w as int, cursor as int, rest) =~= before + layout(
                        w as int,
                        c0 as int,
                        all,
                    ));
                },
                Node::Line => {
                    assert(d@ == DocSpec::Line);
                    push_line(&mut out, i);
                    cursor = i;
                    assert(out@ + layout(w as int, cursor as int, rest) =~= before + layout(
                        w as int,
                        c0 as int,
                        all,
                    ));
                },
                Node::Concat(x, y) => {
                    stack.push((i, y.clone()));
                    stack.push((i, x.clone()));
                    assert(stack_view(stack@) =~= rest.push((i as int, y@)).push((i as int, x@)));
                },
                Node::Nest(j, x) => {
                    let k = add_sat(i, *j as i128);
                    stack.push((k, x.clone()));
                    assert(stack_view(stack@) =~= rest.push((sat(i + *j), x@)));
                },
                Node::Alt(x, y) => {
                    if fits_probe(w, cursor, (i, x.clone()), &stack) {
                        stack.push((i, x.clone()));
                        assert(stack_view(stack@) =~= rest.push((i as int, x@)));
                    } else {
                        stack.push((i, y.clone()));
                        assert(stack_view(stack@) =~= rest.push((i as int, y@)));
                    }
                },
                Node::AtColumn(f) => {
                    stack.push((i, f.apply(cursor)));
                    assert(stack_view(stack@) =~= rest.push((i as int, apply(f@, cursor as int))));
                },
                Node::AtNesting(f) => {
                    stack.push((i, f.apply(i)));
                    assert(stack_view(stack@) =~= rest.push((i as int, apply(f@, i as int))));
                },
            }
        }
    }
}

} // verus!
