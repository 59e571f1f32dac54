//! Evaluation of an expression tree with an arithmetic given by the caller.
//!
//! Evaluation recurses as deep as the tree is high, and a visit ahead
//! evaluates a subtree a second time: trees are expected to be shallow.

use vstd::prelude::*;
use crate::expr::Val;
use crate::expr::Expr;
use crate::op::Op;

verus! {

/// Whether the arithmetic `calc` returns one result only for each operator and
/// pair of operands.
pub open spec fn single_valued<T, F: Fn(Op, T, T) -> T>(calc: F) -> bool {
    forall|op: Op, a: T, b: T, x: T, y: T|
        #![trigger call_ensures(calc, (op, a, b), x), call_ensures(calc, (op, a, b), y)]
        call_ensures(calc, (op, a, b), x) && call_ensures(calc, (op, a, b), y) ==> x == y
}

/// Whether every result of the arithmetic `calc` is the one that the
/// mathematical function `model` gives.
pub open spec fn computes<T, F: Fn(Op, T, T) -> T>(calc: F, model: spec_fn(Op, T, T) -> T) -> bool {
    forall|op: Op, a: T, b: T, out: T| #[trigger]
        call_ensures(calc, (op, a, b), out) ==> out == model(op, a, b)
}

impl<T> Val<T> {
    /// Whether `out` is a result of evaluating the tree with the arithmetic
    /// `calc`: a literal evaluates to itself, and an operator node to what
    /// `calc` may return for the operator and results of its two subtrees.
    pub open spec fn evaluates_to<F: Fn(Op, T, T) -> T>(self, calc: F, out: T) -> bool
        decreases self,
    {
        match self {
            Val::Val(v) => out == v,
            Val::BinOp(op, lhs, rhs) => exists|a: T, b: T|
                #![trigger call_ensures(calc, (op, a, b), out)]
                lhs.val.evaluates_to(calc, a) && rhs.val.evaluates_to(calc, b) && call_ensures(
                    calc,
                    (op, a, b),
                    out,
                ),
        }
    }

    /// The value of the tree under the mathematical arithmetic `model`.
    pub open spec fn value(self, model: spec_fn(Op, T, T) -> T) -> T
        decreases self,
    {
        match self {
            Val::Val(v) => v,
            Val::BinOp(op, lhs, rhs) => model(op, lhs.val.value(model), rhs.val.value(model)),
        }
    }

    /// The subtree that evaluation visits once ahead of the two subtrees of
    /// the node: where both are operator nodes, the one whose operator has the
    /// lower priority, and the right one where neither is lower. A literal has
    /// none, nor has a node one of whose two subtrees is a literal.
    pub open spec fn visited_ahead(self) -> Option<Val<T>> {
        match self {
            Val::Val(_) => None,
            Val::BinOp(_, lhs, rhs) => if lhs.val is BinOp && rhs.val is BinOp {
                if lhs.val->BinOp_0.rank() < rhs.val->BinOp_0.rank() {
                    Some(lhs.val)
                } else {
                    Some(rhs.val)
                }
            } else {
                None
            },
        }
    }

    /// Whether `out` is a result of the evaluation that visits ahead: as
    /// `evaluates_to`, but at every operator node the subtree visited ahead,
    /// if there is one, must come to a result of its own first, which is
    /// dropped.
    pub open spec fn evaluates_ahead_to<F: Fn(Op, T, T) -> T>(self, calc: F, out: T) -> bool
        decreases self,
    {
        match self {
            Val::Val(v) => out == v,
            Val::BinOp(op, lhs, rhs) => {
                &&& self.visited_ahead() matches Some(sub) ==> exists|dropped: T|
                    #[trigger] vstd::pervasive::trigger(dropped) && sub.evaluates_ahead_to(
                        calc,
                        dropped,
                    )
                &&& exists|a: T, b: T|
                    #![trigger call_ensures(calc, (op, a, b), out)]
                    lhs.val.evaluates_ahead_to(calc, a) && rhs.val.evaluates_ahead_to(calc, b)
                        && call_ensures(calc, (op, a, b), out)
            },
        }
    }

    /// The subtree that `eval` visits ahead at this node, if any.
    pub fn ahead(&self) -> (sub: Option<&Val<T>>)
        ensures
            sub matches Some(s) ==> self.visited_ahead() == Some(*s),
            sub is None ==> self.visited_ahead() is None,
    {
        match self {
            Val::Val(_) => None,
            Val::BinOp(_, lhs, rhs) => {
                if !lhs.val.is_val() && !rhs.val.is_val() {
                    if lhs.val.get_op().priority() < rhs.val.get_op().priority() {
                        Some(&lhs.val)
                    } else {
                        Some(&rhs.val)
                    }
                } else {
                    None
                }
            },
        }
    }

    /// Evaluates the tree with the arithmetic `calc`, which must accept every
    /// operator and pair of operands: at an operator node first the subtree
    /// visited ahead, if there is one, whose result is dropped, then the left
    /// subtree, then the right, then `calc` on the operator and the two
    /// results.
    pub fn eval<F: Fn(Op, T, T) -> T>(&self, calc: &F) -> (out: T) where T: Copy
        requires
            forall|op: Op, a: T, b: T| call_requires(*calc, (op, a, b)),
        ensures
            self.evaluates_to(*calc, out),
            self.evaluates_ahead_to(*calc, out),
        decreases self,
    {
        match self {
            Val::Val(v) => *v,
            Val::BinOp(op, lhs, rhs) => {
                if let Some(sub) = self.ahead() {
                    let dropped = sub.eval(calc);
                    assert(vstd::pervasive::trigger(dropped));
                }
                let a = lhs.val.eval(calc);
                let b = rhs.val.eval(calc);
                calc(*op, a, b)
            },
        }
    }
}

/// A literal evaluates to itself and to nothing else, whatever the
/// arithmetic.
pub proof fn lemma_literal_evaluates_to_itself<T, F: Fn(Op, T, T) -> T>(v: T, calc: F, out: T)
    ensures
        Expr::leaf(v).val.evaluates_to(calc, out) <==> out == v,
{
}

/// An operator applied to two literals evaluates to exactly the results that
/// the arithmetic has for the operator and the two literals.
pub proof fn lemma_operator_on_literals_applies_arithmetic<T, F: Fn(Op, T, T) -> T>(
    op: Op,
    a: T,
    b: T,
    calc: F,
    out: T,
)
    ensures
        Expr::node(op, Expr::leaf(a), Expr::leaf(b)).val.evaluates_to(calc, out) <==> call_ensures(
            calc,
            (op, a, b),
            out,
        ),
{
    reveal_with_fuel(Val::evaluates_to, 2);
}

/// Under a single-valued arithmetic a tree evaluates to one result only: two
/// evaluations of the same tree agree.
pub proof fn lemma_evaluation_is_repeatable<T, F: Fn(Op, T, T) -> T>(
    tree: Val<T>,
    calc: F,
    first: T,
    second: T,
)
    requires
        single_valued(calc),
        tree.evaluates_to(calc, first),
        tree.evaluates_to(calc, second),
    ensures
        first == second,
    decreases tree,
{
    match tree {
        Val::Val(_) => {},
        Val::BinOp(op, lhs, rhs) => {
            let (a1, b1) = choose|a: T, b: T|
                #![trigger call_ensures(calc, (op, a, b), first)]
                lhs.val.evaluates_to(calc, a) && rhs.val.evaluates_to(calc, b) && call_ensures(
                    calc,
                    (op, a, b),
                    first,
                );
            let (a2, b2) = choose|a: T, b: T|
                #![trigger call_ensures(calc, (op, a, b), second)]
                lhs.val.evaluates_to(calc, a) && rhs.val.evaluates_to(calc, b) && call_ensures(
                    calc,
                    (op, a, b),
                    second,
                );
            lemma_evaluation_is_repeatable(lhs.val, calc, a1, a2);
            lemma_evaluation_is_repeatable(rhs.val, calc, b1, b2);
        },
    }
}

/// Visiting a subtree ahead changes no result: the evaluation that visits
/// ahead and the one that does not have the same results, for every tree and
/// every arithmetic.
pub proof fn lemma_visiting_ahead_changes_no_result<T, F: Fn(Op, T, T) -> T>(
    tree: Val<T>,
    calc: F,
    out: T,
)
    ensures
        tree.evaluates_ahead_to(calc, out) <==> tree.evaluates_to(calc, out),
    decreases tree,
{
    match tree {
        Val::Val(_) => {},
        Val::BinOp(op, lhs, rhs) => {
            if tree.evaluates_to(calc, out) {
                let (a, b) = choose|a: T, b: T|
                    #![trigger call_ensures(calc, (op, a, b), out)]
                    lhs.val.evaluates_to(calc, a) && rhs.val.evaluates_to(calc, b) && call_ensures(
                        calc,
                        (op, a, b),
                        out,
                    );
                lemma_visiting_ahead_changes_no_result(lhs.val, calc, a);
                lemma_visiting_ahead_changes_no_result(rhs.val, calc, b);
                // The subtree visited ahead is the left or the right one, and
                // comes to the result that it comes to in its turn.
                assert(vstd::pervasive::trigger(a) && vstd::pervasive::trigger(b));
            }
            if tree.evaluates_ahead_to(calc, out) {
                let (a, b) = choose|a: T, b: T|
                    #![trigger call_ensures(calc, (op, a, b), out)]
                    lhs.val.evaluates_ahead_to(calc, a) && rhs.val.evaluates_ahead_to(calc, b)
                        && call_ensures(calc, (op, a, b), out);
                lemma_visiting_ahead_changes_no_result(lhs.val, calc, a);
                lemma_visiting_ahead_changes_no_result(rhs.val, calc, b);
            }
        },
    }
}

/// Where the arithmetic computes a mathematical function, a tree evaluates
/// to its value under that function.
pub proof fn lemma_evaluation_gives_value<T, F: Fn(Op, T, T) -> T>(
    tree: Val<T>,
    calc: F,
    model: spec_fn(Op, T, T) -> T,
    out: T,
)
    requires
        computes(calc, model),
        tree.evaluates_to(calc, out),
    ensures
        out == tree.value(model),
    decreases tree,
{
    match tree {
        Val::Val(_) => {},
        Val::BinOp(op, lhs, rhs) => {
            let (a, b) = choose|a: T, b: T|
                #![trigger call_ensures(calc, (op, a, b), out)]
                lhs.val.evaluates_to(calc, a) && rhs.val.evaluates_to(calc, b) && call_ensures(
                    calc,
                    (op, a, b),
                    out,
                );
            lemma_evaluation_gives_value(lhs.val, calc, model, a);
            lemma_evaluation_gives_value(rhs.val, calc, model, b);
        },
    }
}

} // verus!
