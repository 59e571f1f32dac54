//! Rendering of an expression tree as flat infix text.
//!
//! Rendering recurses as deep as the tree is high.

use vstd::prelude::*;
use crate::expr::Val;
use crate::expr::Expr;
use crate::op::Op;

verus! {

/// The text of an operator node: the left text, a space, the operator's
/// symbol, a space, the right text.
pub open spec fn infix(lhs: Seq<char>, op: Op, rhs: Seq<char>) -> Seq<char> {
    lhs + seq![' ', op.symbol(), ' '] + rhs
}

/// Whether `show` writes each literal in one way only.
pub open spec fn writes_one_text<T, R: Fn(T) -> String>(show: R) -> bool {
    forall|v: T, s: String, t: String|
        #![trigger call_ensures(show, (v,), s), call_ensures(show, (v,), t)]
        call_ensures(show, (v,), s) && call_ensures(show, (v,), t) ==> s@ == t@
}

/// Whether `show` writes each literal as the mathematical function `label`
/// gives it.
pub open spec fn writes<T, R: Fn(T) -> String>(show: R, label: spec_fn(T) -> Seq<char>) -> bool {
    forall|v: T, s: String| #[trigger] call_ensures(show, (v,), s) ==> s@ == label(v)
}

impl<T> Expr<T> {
    /// Whether `out` is a rendering of the expression when literals are
    /// written by `show`: a literal is rendered as `show` may write it, and an
    /// operator node as the infix text of renderings of its two subtrees.
    pub open spec fn renders_to<R: Fn(T) -> String>(self, show: R, out: Seq<char>) -> bool
        decreases self,
    {
        match self.val {
            Val::Val(v) => exists|s: String| #[trigger] call_ensures(show, (v,), s) && s@ == out,
            Val::BinOp(op, lhs, rhs) => exists|l: Seq<char>, r: Seq<char>|
                #![trigger infix(l, op, r)]
                lhs.renders_to(show, l) && rhs.renders_to(show, r) && out == infix(l, op, r),
        }
    }

    /// The text of the expression when each literal is written as `label`
    /// gives it.
    pub open spec fn text(self, label: spec_fn(T) -> Seq<char>) -> Seq<char>
        decreases self,
    {
        match self.val {
            Val::Val(v) => label(v),
            Val::BinOp(op, lhs, rhs) => infix(lhs.text(label), op, rhs.text(label)),
        }
    }

    /// Whether `v` is one of the literals of the expression.
    pub open spec fn has_literal(self, v: T) -> bool
        decreases self,
    {
        match self.val {
            Val::Val(x) => x == v,
            Val::BinOp(_, lhs, rhs) => lhs.has_literal(v) || rhs.has_literal(v),
        }
    }

    /// Renders the expression as flat infix text, writing literals with
    /// `show`, which must accept every literal: no brackets, whatever the
    /// priorities of the operators.
    pub fn render<R: Fn(T) -> String>(&self, show: &R) -> (s: String) where T: Copy
        requires
            forall|v: T| call_requires(*show, (v,)),
        ensures
            self.renders_to(*show, s@),
        decreases self,
    {
        match &self.val {
            Val::Val(v) => show(*v),
            Val::BinOp(op, lhs, rhs) => {
                let mut s = lhs.render(show);
                let ghost l = s@;
                let symbol = op.render();
                let right = rhs.render(show);
                proof {
                    reveal_strlit(" ");
                }
                s.append(" ");
                s.append(symbol.as_str());
                s.append(" ");
                s.append(right.as_str());
                assert(s@ =~= infix(l, *op, right@));
                s
            },
        }
    }
}

/// Where `show` writes each literal in one way only, an expression has one
/// rendering only: two renderings of the same expression agree.
pub proof fn lemma_rendering_is_repeatable<T, R: Fn(T) -> String>(
    expr: Expr<T>,
    show: R,
    first: Seq<char>,
    second: Seq<char>,
)
    requires
        writes_one_text(show),
        expr.renders_to(show, first),
        expr.renders_to(show, second),
    ensures
        first == second,
    decreases expr,
{
    match expr.val {
        Val::Val(_) => {},
        Val::BinOp(op, lhs, rhs) => {
            let (l1, r1) = choose|l: Seq<char>, r: Seq<char>|
                #![trigger infix(l, op, r)]
                lhs.renders_to(show, l) && rhs.renders_to(show, r) && first == infix(l, op, r);
            let (l2, r2) = choose|l: Seq<char>, r: Seq<char>|
                #![trigger infix(l, op, r)]
                lhs.renders_to(show, l) && rhs.renders_to(show, r) && second == infix(l, op, r);
            lemma_rendering_is_repeatable(*lhs, show, l1, l2);
            lemma_rendering_is_repeatable(*rhs, show, r1, r2);
        },
    }
}

/// Where `show` writes literals as `label` gives them, an expression renders
/// to its text under `label`.
pub proof fn lemma_rendering_gives_text<T, R: Fn(T) -> String>(
    expr: Expr<T>,
    show: R,
    label: spec_fn(T) -> Seq<char>,
    out: Seq<char>,
)
    requires
        writes(show, label),
        expr.renders_to(show, out),
    ensures
        out == expr.text(label),
    decreases expr,
{
    match expr.val {
        Val::Val(_) => {},
        Val::BinOp(op, lhs, rhs) => {
            let (l, r) = choose|l: Seq<char>, r: Seq<char>|
                #![trigger infix(l, op, r)]
                lhs.renders_to(show, l) && rhs.renders_to(show, r) && out == infix(l, op, r);
            lemma_rendering_gives_text(*lhs, show, label, l);
            lemma_rendering_gives_text(*rhs, show, label, r);
        },
    }
}

/// Rendering adds nothing but spaces and operator symbols to what `show`
/// writes for the literals of the expression: a character that is neither, and
/// that `show` writes for none of them, occurs in no rendering. So no
/// rendering holds a bracket that a literal did not bring.
pub proof fn lemma_rendering_adds_only_spaces_and_symbols<T, R: Fn(T) -> String>(
    expr: Expr<T>,
    show: R,
    out: Seq<char>,
    c: char,
)
    requires
        c != ' ',
        forall|op: Op| c != #[trigger] op.symbol(),
        forall|v: T, s: String|
            expr.has_literal(v) && #[trigger] call_ensures(show, (v,), s) ==> !s@.contains(c),
        expr.renders_to(show, out),
    ensures
        !out.contains(c),
    decreases expr,
{
    match expr.val {
        Val::Val(_) => {},
        Val::BinOp(op, lhs, rhs) => {
            let (l, r) = choose|l: Seq<char>, r: Seq<char>|
                #![trigger infix(l, op, r)]
                lhs.renders_to(show, l) && rhs.renders_to(show, r) && out == infix(l, op, r);
            lemma_rendering_adds_only_spaces_and_symbols(*lhs, show, l, c);
            lemma_rendering_adds_only_spaces_and_symbols(*rhs, show, r, c);
            assert(c != op.symbol());
            if out.contains(c) {
                let i = choose|i: int| 0 <= i < out.len() && out[i] == c;
                if i < l.len() {
                    assert(l[i] == c);
                } else if i < l.len() + 3 {
                    assert(out[i] == seq![' ', op.symbol(), ' '][i - l.len()]);
                } else {
                    assert(r[i - l.len() - 3] == c);
                }
            }
        },
    }
}

} // verus!
