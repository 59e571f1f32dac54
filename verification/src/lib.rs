//! Binary arithmetic expression trees, with evaluation and flat infix
//! rendering.
//!
//! The tree is generic in the type of its literals. Arithmetic on the
//! literals and their textual form are supplied by the caller as functions;
//! everything that depends on the shape of the tree is proved here for every
//! such function.

pub mod op;
pub mod expr;
pub mod eval;
pub mod render;
