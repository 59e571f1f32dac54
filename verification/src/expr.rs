//! The expression tree and access to its nodes.

use vstd::prelude::*;
use crate::op::Op;

verus! {

/// A node of an expression tree: a literal, or an operator applied to two
/// subtrees that the node owns.
pub enum Val<T> {
    Val(T),
    BinOp(Op, Box<Expr<T>>, Box<Expr<T>>),
}

/// An expression: a tree of nodes, given by its root.
pub struct Expr<T> {
    pub val: Val<T>,
}

impl<T> Val<T> {
    /// Whether the node is a literal.
    pub fn is_val(&self) -> (b: bool)
        ensures
            b == (self is Val),
    {
        match self {
            Val::Val(_) => true,
            _ => false,
        }
    }

    /// The operator of an operator node. A literal has none, so the node must
    /// not be a literal.
    pub fn get_op(&self) -> (op: Op)
        requires
            self is BinOp,
        ensures
            op == self->BinOp_0,
    {
        match self {
            Val::BinOp(op, _, _) => *op,
            _ => unreached(),
        }
    }
}

impl<T> Expr<T> {
    /// The expression whose root is the literal `v`.
    pub open spec fn leaf(v: T) -> Self {
        Expr { val: Val::Val(v) }
    }

    /// The expression whose root applies `op` to the subtrees `lhs` and `rhs`.
    pub open spec fn node(op: Op, lhs: Self, rhs: Self) -> Self {
        Expr { val: Val::BinOp(op, Box::new(lhs), Box::new(rhs)) }
    }

    /// Builds the expression that consists of the literal `v`.
    pub fn num(v: T) -> (e: Self)
        ensures
            e == Self::leaf(v),
    {
        Expr { val: Val::Val(v) }
    }

    /// Builds the expression that applies `op` to `lhs` and `rhs`, which it
    /// takes over.
    pub fn calc(op: Op, lhs: Self, rhs: Self) -> (e: Self)
        ensures
            e == Self::node(op, lhs, rhs),
    {
        Expr { val: Val::BinOp(op, Box::new(lhs), Box::new(rhs)) }
    }
}

} // verus!
