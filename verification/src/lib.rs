//! An interpreter for a small imperative scripting language built around
//! dice-based randomness: named registers, conditionals, loops, deferred
//! procedures and a dice-throw arithmetic operator.
//!
//! The crate is organised around a single [`SyntaxContext`] that owns the
//! pending token queue, the register environment, the pseudo-random generator
//! and the diagnostic output log.  The expression and statement engines parse
//! the token stream by recursive descent and evaluate the resulting trees
//! against that context.

pub mod tokens;
pub mod model;
pub mod generic;
pub mod rand_gen;
pub mod syntax;
pub mod semantics;
pub mod grammar;
pub mod laws;
pub mod expr;
pub mod stm;

pub use tokens::{LexErr, WsToken};
pub use generic::{Primitive, PrimitiveId};
pub use syntax::{InterpreterErr, SyntaxContext};
pub use expr::{CmpTo, Expr, Op, Val};
pub use stm::{Decl, Stm};
