//! The four arithmetic operators, their priorities and their symbols.

use vstd::prelude::*;

verus! {

/// A binary arithmetic operator.
#[derive(Clone, Copy, Debug, PartialEq, Eq, Structural)]
pub enum Op {
    Add,
    Sub,
    Mul,
    Div,
}

impl Op {
    /// The priority of the operator: addition lowest, division highest.
    pub open spec fn rank(self) -> int {
        match self {
            Op::Add => 1,
            Op::Sub => 2,
            Op::Mul => 3,
            Op::Div => 4,
        }
    }

    /// The character conventionally written for the operator.
    pub open spec fn symbol(self) -> char {
        match self {
            Op::Add => '+',
            Op::Sub => '-',
            Op::Mul => '*',
            Op::Div => '/',
        }
    }

    /// The operator's priority as a machine integer.
    pub fn priority(&self) -> (p: i32)
        ensures
            p == self.rank(),
    {
        match self {
            Op::Add => 1,
            Op::Sub => 2,
            Op::Mul => 3,
            Op::Div => 4,
        }
    }

    /// The operator as a string of one character, its symbol.
    pub fn render(&self) -> (s: String)
        ensures
            s@ == seq![self.symbol()],
    {
        proof {
            reveal_strlit("+");
            reveal_strlit("-");
            reveal_strlit("*");
            reveal_strlit("/");
        }
        let text = match self {
            Op::Add => "+",
            Op::Sub => "-",
            Op::Mul => "*",
            Op::Div => "/",
        };
        assert(text@ =~= seq![self.symbol()]);
        text.to_owned()
    }
}

/// Priorities tell the operators apart: two operators have the same priority
/// exactly when they are the same operator.
pub proof fn lemma_priority_identifies_operator(a: Op, b: Op)
    ensures
        a.rank() == b.rank() <==> a == b,
{
}

} // verus!
