//! Expression trees of embedded expressions, and the pass that qualifies
//! their free member chains against the render context.
use vstd::prelude::*;
use crate::text::push_char;
use crate::text::push_str;

verus! {

/// An embedded expression as handed over by the expression front end.
#[derive(Debug)]
pub enum Expr {
    Ident(String),
    Member { obj: Box<Expr>, prop: String },
    Index { obj: Box<Expr>, index: Box<Expr> },
    Call { callee: Box<Expr>, args: Vec<Expr> },
    Array(Vec<Expr>),
    /// An expression in parentheses.
    Paren(Box<Expr>),
    /// Any other expression, as its source text cut around its direct
    /// sub-expressions: `texts[0]`, `operands[0]`, `texts[1]`, `operands[1]`, ...
    Composite { texts: Vec<String>, operands: Vec<Expr> },
    /// A literal, kept as its source text.
    Literal(String),
}

/// `e` is `_ctx.x`: the member `x` of the render context.
pub open spec fn is_context_member(e: Expr, x: Seq<char>) -> bool {
    match e {
        Expr::Member { obj, prop } => prop@ == x && match *obj {
            Expr::Ident(c) => c@ == "_ctx"@,
            _ => false,
        },
        _ => false,
    }
}

/// `r` is `e` with the scope rule applied: wherever a member access has a
/// bare identifier as its base, that base becomes a member of the render
/// context, and the access is not looked into further; every other node has
/// its parts rewritten in the same way.
pub open spec fn rewritten(e: Expr, r: Expr) -> bool
    decreases e,
{
    match e {
        Expr::Member { obj, prop } => match r {
            Expr::Member { obj: o2, prop: prop2 } => prop2@ == prop@ && match *obj {
                Expr::Ident(x) => is_context_member(*o2, x@),
                _ => rewritten(*obj, *o2),
            },
            _ => false,
        },
        Expr::Index { obj, index } => match r {
            Expr::Index { obj: o2, index: i2 } => match *obj {
                Expr::Ident(x) => is_context_member(*o2, x@) && *i2 == *index,
                _ => rewritten(*obj, *o2) && rewritten(*index, *i2),
            },
            _ => false,
        },
        Expr::Call { callee, args } => match r {
            Expr::Call { callee: c2, args: a2 } => rewritten(*callee, *c2) && a2@.len()
                == args@.len() && forall|k: int|
                0 <= k < args@.len() ==> rewritten(#[trigger] args@[k], a2@[k]),
            _ => false,
        },
        Expr::Array(items) => match r {
            Expr::Array(i2) => i2@.len() == items@.len() && forall|k: int|
                0 <= k < items@.len() ==> rewritten(#[trigger] items@[k], i2@[k]),
            _ => false,
        },
        Expr::Paren(inner) => match r {
            Expr::Paren(i2) => rewritten(*inner, *i2),
            _ => false,
        },
        Expr::Composite { texts, operands } => match r {
            Expr::Composite { texts: t2, operands: o2 } => t2@ == texts@ && o2@.len()
                == operands@.len() && forall|k: int|
                0 <= k < operands@.len() ==> rewritten(#[trigger] operands@[k], o2@[k]),
            _ => false,
        },
        _ => r == e,
    }
}

fn context_member(x: String) -> (r: Expr)
    ensures
        is_context_member(r, x@),
{
    Expr::Member { obj: Box::new(Expr::Ident("_ctx".to_owned())), prop: x }
}

/// The pass that qualifies free member chains against the render context.
#[derive(Debug, Default, Clone, Copy)]
pub struct TransformVisitor;

impl TransformVisitor {
    /// Qualifies the free member chains of `e` against the render context.
    pub fn rewrite(&self, e: Expr) -> (r: Expr)
        ensures
            rewritten(e, r),
        decreases e,
    {
        match e {
            Expr::Member { obj, prop } => {
                let o2 = match *obj {
                    Expr::Ident(x) => context_member(x),
                    other => self.rewrite(other),
                };
                Expr::Member { obj: Box::new(o2), prop }
            },
            Expr::Index { obj, index } => {
                match *obj {
                    Expr::Ident(x) => Expr::Index { obj: Box::new(context_member(x)), index },
                    other => {
                        let o2 = self.rewrite(other);
                        let i2 = self.rewrite(*index);
                        Expr::Index { obj: Box::new(o2), index: Box::new(i2) }
                    },
                }
            },
            Expr::Call { callee, args } => {
                let c2 = self.rewrite(*callee);
                let a2 = self.rewrite_all(args);
                Expr::Call { callee: Box::new(c2), args: a2 }
            },
            Expr::Array(items) => Expr::Array(self.rewrite_all(items)),
            Expr::Paren(inner) => Expr::Paren(Box::new(self.rewrite(*inner))),
            Expr::Composite { texts, operands } => Expr::Composite {
                texts,
                operands: self.rewrite_all(operands),
            },
            other => other,
        }
    }

    fn rewrite_all(&self, items: Vec<Expr>) -> (r: Vec<Expr>)
        ensures
            r@.len() == items@.len(),
            forall|k: int| 0 <= k < items@.len() ==> rewritten(#[trigger] items@[k], r@[k]),
        decreases items,
    {
        let ghost orig = items@;
        let ghost whole = items;
        let mut rest = items;
        let mut out: Vec<Expr> = Vec::new();
        while rest.len() > 0
            invariant
                whole@ == orig,
                whole == items,
                out@.len() + rest@.len() == orig.len(),
                rest@ == orig.subrange(out@.len() as int, orig.len() as int),
                forall|k: int| 0 <= k < out@.len() ==> rewritten(#[trigger] orig[k], out@[k]),
            decreases rest@.len(),
        {
            let ghost k = out@.len() as int;
            let first = rest.remove(0);
            proof {
                vstd::std_specs::vec::axiom_vec_index_decreases(whole, k);
                assert(first == whole[k]);
            }
            let done = self.rewrite(first);
            out.push(done);
        }
        out
    }
}

/// The source text of `e`. With `q` set, the text is that of `e` after the
/// scope rule: a bare identifier at the base of a member access gets the
/// prefix `_ctx.`, and the index of such an access is printed as it stands.
pub open spec fn text(e: Expr, q: bool) -> Seq<char>
    decreases e,
{
    match e {
        Expr::Ident(x) => x@,
        Expr::Literal(l) => l@,
        Expr::Member { obj, prop } => context_prefix(*obj, q) + text(*obj, q) + seq!['.'] + prop@,
        Expr::Index { obj, index } => context_prefix(*obj, q) + text(*obj, q) + seq!['['] + text(
            *index,
            q && !(*obj is Ident),
        ) + seq![']'],
        Expr::Call { callee, args } => text(*callee, q) + seq!['('] + list_text(args@, q) + seq![
            ')',
        ],
        Expr::Array(items) => seq!['['] + list_text(items@, q) + seq![']'],
        Expr::Paren(inner) => seq!['('] + text(*inner, q) + seq![')'],
        Expr::Composite { texts, operands } => composite_text(texts@, operands@, q),
    }
}

pub open spec fn context_prefix(base: Expr, q: bool) -> Seq<char> {
    if q && base is Ident {
        "_ctx"@ + seq!['.']
    } else {
        seq![]
    }
}

/// The text piece at position `i`, empty past the end.
pub open spec fn piece(texts: Seq<String>, i: int) -> Seq<char> {
    if 0 <= i < texts.len() {
        texts[i]@
    } else {
        seq![]
    }
}

/// The pieces of source text interleaved with the texts of `ops`.
pub open spec fn composite_text(texts: Seq<String>, ops: Seq<Expr>, q: bool) -> Seq<char>
    decreases ops,
{
    if ops.len() == 0 {
        piece(texts, 0)
    } else {
        composite_text(texts, ops.subrange(0, ops.len() - 1), q) + text(ops[ops.len() - 1], q)
            + piece(texts, ops.len() as int)
    }
}

/// The texts of `s`, separated by `, `.
pub open spec fn list_text(s: Seq<Expr>, q: bool) -> Seq<char>
    decreases s,
{
    if s.len() == 0 {
        seq![]
    } else if s.len() == 1 {
        text(s[0], q)
    } else {
        list_text(s.subrange(0, s.len() - 1), q) + seq![',', ' '] + text(s[s.len() - 1], q)
    }
}

/// The source text of `e` as it stands.
pub open spec fn expr_text(e: Expr) -> Seq<char> {
    text(e, false)
}

/// The source text of `e` with its free member chains qualified against the
/// render context.
pub open spec fn qualified_text(e: Expr) -> Seq<char> {
    text(e, true)
}

/// Appends the text of `e` to `out`, qualified when `q` is set.
pub fn push_expr(out: &mut String, e: &Expr, q: bool)
    ensures
        final(out)@ == old(out)@ + text(*e, q),
    decreases e,
{
    let ghost start = out@;
    match e {
        Expr::Ident(x) => push_str(out, x.as_str()),
        Expr::Literal(l) => push_str(out, l.as_str()),
        Expr::Member { obj, prop } => {
            push_prefix(out, obj, q);
            push_expr(out, obj, q);
            push_char(out, '.');
            push_str(out, prop.as_str());
        },
        Expr::Index { obj, index } => {
            push_prefix(out, obj, q);
            push_expr(out, obj, q);
            push_char(out, '[');
            let qi = q && !matches!(**obj, Expr::Ident(_));
            push_expr(out, index, qi);
            push_char(out, ']');
        },
        Expr::Call { callee, args } => {
            push_expr(out, callee, q);
            push_char(out, '(');
            push_list(out, args, q);
            push_char(out, ')');
        },
        Expr::Array(items) => {
            push_char(out, '[');
            push_list(out, items, q);
            push_char(out, ']');
        },
        Expr::Paren(inner) => {
            push_char(out, '(');
            push_expr(out, inner, q);
            push_char(out, ')');
        },
        Expr::Composite { texts, operands } => push_composite(out, texts, operands, q),
    }
    assert(out@ =~= start + text(*e, q));
}

fn push_prefix(out: &mut String, base: &Expr, q: bool)
    ensures
        final(out)@ == old(out)@ + context_prefix(*base, q),
{
    if q && matches!(*base, Expr::Ident(_)) {
        push_str(out, "_ctx");
        push_char(out, '.');
    } else {
        assert(old(out)@ + context_prefix(*base, q) =~= old(out)@);
    }
}

fn push_piece(out: &mut String, texts: &Vec<String>, i: usize)
    ensures
        final(out)@ == old(out)@ + piece(texts@, i as int),
{
    if i < texts.len() {
        push_str(out, texts[i].as_str());
    } else {
        assert(old(out)@ + piece(texts@, i as int) =~= old(out)@);
    }
}

fn push_composite(out: &mut String, texts: &Vec<String>, operands: &Vec<Expr>, q: bool)
    ensures
        final(out)@ == old(out)@ + composite_text(texts@, operands@, q),
    decreases operands,
{
    let ghost start = out@;
    push_piece(out, texts, 0);
    let mut i: usize = 0;
    assert(operands@.subrange(0, 0) =~= Seq::<Expr>::empty());
    while i < operands.len()
        invariant
            i <= operands@.len(),
            out@ == start + composite_text(texts@, operands@.subrange(0, i as int), q),
        decreases operands.len() - i,
    {
        proof {
            vstd::std_specs::vec::axiom_vec_index_decreases(*operands, i as int);
        }
        push_expr(out, &operands[i], q);
        push_piece(out, texts, i + 1);
        let ghost next = operands@.subrange(0, i + 1);
        assert(next.subrange(0, i as int) =~= operands@.subrange(0, i as int));
        assert(next[i as int] == operands@[i as int]);
        assert(out@ =~= start + composite_text(texts@, next, q));
        i = i + 1;
    }
    assert(operands@.subrange(0, operands@.len() as int) =~= operands@);
}

fn push_list(out: &mut String, items: &Vec<Expr>, q: bool)
    ensures
        final(out)@ == old(out)@ + list_text(items@, q),
    decreases items,
{
    let ghost start = out@;
    let mut i: usize = 0;
    assert(items@.subrange(0, 0) =~= Seq::<Expr>::empty());
    while i < items.len()
        invariant
            i <= items@.len(),
            out@ == start + list_text(items@.subrange(0, i as int), q),
        decreases items.len() - i,
    {
        if i > 0 {
            push_char(out, ',');
            push_char(out, ' ');
        }
        proof {
            vstd::std_specs::vec::axiom_vec_index_decreases(*items, i as int);
        }
        push_expr(out, &items[i], q);
        let ghost next = items@.subrange(0, i + 1);
        assert(next.subrange(0, i as int) =~= items@.subrange(0, i as int));
        assert(next[i as int] == items@[i as int]);
        assert(out@ =~= start + list_text(next, q));
        i = i + 1;
    }
    assert(items@.subrange(0, items@.len() as int) =~= items@);
}

/// Printing the rewritten tree gives the qualified text of the tree it was
/// rewritten from.
pub proof fn lemma_rewritten_text(e: Expr, r: Expr)
    requires
        rewritten(e, r),
    ensures
        expr_text(r) == qualified_text(e),
    decreases e,
{
    match e {
        Expr::Member { obj, prop } => {
            if let Expr::Member { obj: o2, prop: prop2 } = r {
                assert(expr_text(r) == context_prefix(*o2, false) + text(*o2, false) + seq!['.'] + prop2@);
                assert(qualified_text(e) == context_prefix(*obj, true) + text(*obj, true) + seq!['.'] + prop@);
                if !(*obj is Ident) {
                    lemma_rewritten_text(*obj, *o2);
                } else {
                    lemma_context_member_text(*o2, (*obj)->Ident_0@);
                }
                assert(context_prefix(*o2, false) =~= Seq::<char>::empty());
                if !(*obj is Ident) {
                    assert(context_prefix(*obj, true) =~= Seq::<char>::empty());
                }
                assert(expr_text(r) =~= qualified_text(e));
            }
        },
        Expr::Index { obj, index } => {
            if let Expr::Index { obj: o2, index: i2 } = r {
                assert(expr_text(r) == context_prefix(*o2, false) + text(*o2, false) + seq!['['] + text(*i2, false) + seq![']']);
                assert(qualified_text(e) == context_prefix(*obj, true) + text(*obj, true) + seq!['['] + text(*index, !(*obj is Ident)) + seq![']']);
                if !(*obj is Ident) {
                    lemma_rewritten_text(*obj, *o2);
                    lemma_rewritten_text(*index, *i2);
                } else {
                    lemma_context_member_text(*o2, (*obj)->Ident_0@);
                }
                assert(context_prefix(*o2, false) =~= Seq::<char>::empty());
                if !(*obj is Ident) {
                    assert(context_prefix(*obj, true) =~= Seq::<char>::empty());
                }
                assert(expr_text(r) =~= qualified_text(e));
            }
        },
        Expr::Call { callee, args } => {
            if let Expr::Call { callee: c2, args: a2 } = r {
                lemma_rewritten_text(*callee, *c2);
                lemma_rewritten_list(args@, a2@);
            }
        },
        Expr::Array(items) => {
            if let Expr::Array(i2) = r {
                lemma_rewritten_list(items@, i2@);
            }
        },
        Expr::Paren(inner) => {
            if let Expr::Paren(i2) = r {
                lemma_rewritten_text(*inner, *i2);
            }
        },
        Expr::Composite { texts, operands } => {
            if let Expr::Composite { texts: t2, operands: o2 } = r {
                lemma_rewritten_composite(texts@, operands@, o2@);
            }
        },
        _ => {},
    }
}

proof fn lemma_context_member_text(m: Expr, x: Seq<char>)
    requires
        is_context_member(m, x),
    ensures
        text(m, false) == "_ctx"@ + seq!['.'] + x,
{
    if let Expr::Member { obj, prop } = m {
        assert(text(*obj, false) == "_ctx"@);
        assert(context_prefix(*obj, false) =~= Seq::<char>::empty());
        assert(text(m, false) =~= "_ctx"@ + seq!['.'] + x);
    }
}

proof fn lemma_rewritten_composite(texts: Seq<String>, s: Seq<Expr>, r: Seq<Expr>)
    requires
        s.len() == r.len(),
        forall|k: int| 0 <= k < s.len() ==> rewritten(#[trigger] s[k], r[k]),
    ensures
        composite_text(texts, r, false) == composite_text(texts, s, true),
    decreases s,
{
    if s.len() > 0 {
        let n = s.len() - 1;
        lemma_rewritten_composite(texts, s.subrange(0, n), r.subrange(0, n));
        lemma_rewritten_text(s[n], r[n]);
    }
}

proof fn lemma_rewritten_list(s: Seq<Expr>, r: Seq<Expr>)
    requires
        s.len() == r.len(),
        forall|k: int| 0 <= k < s.len() ==> rewritten(#[trigger] s[k], r[k]),
    ensures
        list_text(r, false) == list_text(s, true),
    decreases s,
{
    if s.len() == 1 {
        lemma_rewritten_text(s[0], r[0]);
    } else if s.len() > 1 {
        let n = s.len() - 1;
        lemma_rewritten_list(s.subrange(0, n), r.subrange(0, n));
        lemma_rewritten_text(s[n], r[n]);
    }
}

} // verus!
