//! The mathematical model of the syntax trees and runtime values.
//!
//! Every contract in the crate speaks about these ghost mirrors rather than
//! about the executable trees themselves: names become byte sequences and
//! statement blocks become sequences, so that two trees with the same
//! contents are the same model value.

use vstd::prelude::*;

use crate::expr;
use crate::stm;
use crate::generic;
use crate::generic::PrimitiveId;

verus! {

/// Model of an expression tree.
pub enum Expr {
    Val(Val),
    Op(Box<Op>),
}

/// Model of an operation node.
pub enum Op {
    Neg(Val),
    Add(Val, Box<Expr>),
    Sub(Val, Box<Expr>),
    Mul(Val, Box<Expr>),
    Div(Val, Box<Expr>),
    Dice(Val, Box<Expr>, Option<CmpTo>),
    Cmp(CmpTo, Box<Expr>),
}

/// Model of a terminal value producer.
pub enum Val {
    Int(i16),
    Bool(bool),
    Ref(PrimitiveId, Seq<u8>),
    Expr(Box<Expr>),
    Void,
}

/// Model of a comparator together with its right-hand operand.
pub enum CmpTo {
    Eq(Val),
    Ne(Val),
    Gt(Val),
    Ge(Val),
    Lt(Val),
    Le(Val),
}

/// Model of a statement.
pub enum Stm {
    RegLet(Seq<u8>, Decl),
    RegSet(Seq<u8>, Decl),
    While(Expr, Decl),
    If(Expr, Decl),
    Tell(Expr),
    Out(Expr),
}

/// Model of a declaration: a single expression or a block of statements.
pub enum Decl {
    Expr(Expr),
    Closure(Seq<Stm>),
}

/// Model of a stored primitive value.
pub enum Prim {
    Int(i16),
    Bool(bool),
    Proc(Decl),
    Void,
}

/// The model of an executable expression tree.
pub open spec fn expr_view(e: expr::Expr) -> Expr
    decreases e,
{
    match e {
        expr::Expr::Val(v) => Expr::Val(val_view(v)),
        expr::Expr::Op(o) => Expr::Op(Box::new(op_view(o))),
    }
}

/// The model of an executable operation node.
pub open spec fn op_view(o: expr::Op) -> Op
    decreases o,
{
    match o {
        expr::Op::Neg(a) => Op::Neg(val_view(a)),
        expr::Op::Add(a, b) => Op::Add(val_view(a), Box::new(expr_view(*b))),
        expr::Op::Sub(a, b) => Op::Sub(val_view(a), Box::new(expr_view(*b))),
        expr::Op::Mul(a, b) => Op::Mul(val_view(a), Box::new(expr_view(*b))),
        expr::Op::Div(a, b) => Op::Div(val_view(a), Box::new(expr_view(*b))),
        expr::Op::Dice(a, b, c) => Op::Dice(
            val_view(a),
            Box::new(expr_view(*b)),
            match c {
                Some(cc) => Some(cmp_view(cc)),
                None => None,
            },
        ),
        expr::Op::Cmp(c, b) => Op::Cmp(cmp_view(c), Box::new(expr_view(*b))),
    }
}

/// The model of an executable terminal value.
pub open spec fn val_view(v: expr::Val) -> Val
    decreases v,
{
    match v {
        expr::Val::Int(i) => Val::Int(i),
        expr::Val::Bool(b) => Val::Bool(b),
        expr::Val::Ref(id, name) => Val::Ref(id, name@),
        expr::Val::Expr(e) => Val::Expr(Box::new(expr_view(*e))),
        expr::Val::Void => Val::Void,
    }
}

/// The model of an executable comparator.
pub open spec fn cmp_view(c: expr::CmpTo) -> CmpTo
    decreases c,
{
    match c {
        expr::CmpTo::Eq(v) => CmpTo::Eq(val_view(v)),
        expr::CmpTo::Ne(v) => CmpTo::Ne(val_view(v)),
        expr::CmpTo::Gt(v) => CmpTo::Gt(val_view(v)),
        expr::CmpTo::Ge(v) => CmpTo::Ge(val_view(v)),
        expr::CmpTo::Lt(v) => CmpTo::Lt(val_view(v)),
        expr::CmpTo::Le(v) => CmpTo::Le(val_view(v)),
    }
}

/// The model of an executable statement.
pub open spec fn stm_view(s: stm::Stm) -> Stm
    decreases s,
{
    match s {
        stm::Stm::RegLet(name, d) => Stm::RegLet(name@, decl_view(d)),
        stm::Stm::RegSet(name, d) => Stm::RegSet(name@, decl_view(d)),
        stm::Stm::While(e, d) => Stm::While(expr_view(e), decl_view(d)),
        stm::Stm::If(e, d) => Stm::If(expr_view(e), decl_view(d)),
        stm::Stm::Tell(e) => Stm::Tell(expr_view(e)),
        stm::Stm::Out(e) => Stm::Out(expr_view(e)),
    }
}

/// The model of an executable declaration.
pub open spec fn decl_view(d: stm::Decl) -> Decl
    decreases d,
{
    match d {
        stm::Decl::Expr(e) => Decl::Expr(expr_view(e)),
        stm::Decl::Closure(stms) => Decl::Closure(stms_view(stms@)),
    }
}

/// The model of a sequence of executable statements.
pub open spec fn stms_view(s: Seq<stm::Stm>) -> Seq<Stm>
    decreases s,
{
    if s.len() == 0 {
        Seq::empty()
    } else {
        stms_view(s.drop_last()).push(stm_view(s.last()))
    }
}

/// The model of an executable stored primitive.
pub open spec fn prim_view(p: generic::Primitive) -> Prim
    decreases p,
{
    match p {
        generic::Primitive::Int(i) => Prim::Int(i),
        generic::Primitive::Bool(b) => Prim::Bool(b),
        generic::Primitive::Proc(d) => Prim::Proc(decl_view(d)),
        generic::Primitive::Void => Prim::Void,
    }
}

/// The model of a sequence of stored primitives, as the diagnostic output
/// log holds them.
pub open spec fn prims_view(s: Seq<generic::Primitive>) -> Seq<Prim>
    decreases s,
{
    if s.len() == 0 {
        Seq::empty()
    } else {
        prims_view(s.drop_last()).push(prim_view(s.last()))
    }
}

/// A fact used throughout: viewing a primitive sequence keeps its length and
/// views each element in place.
pub proof fn lemma_prims_view(s: Seq<generic::Primitive>)
    ensures
        prims_view(s).len() == s.len(),
        forall|i: int| 0 <= i < s.len() ==> prims_view(s)[i] == prim_view(s[i]),
    decreases s,
{
    if s.len() > 0 {
        lemma_prims_view(s.drop_last());
    }
}

/// A fact used throughout: viewing a statement sequence keeps its length and
/// views each element in place.
pub proof fn lemma_stms_view(s: Seq<stm::Stm>)
    ensures
        stms_view(s).len() == s.len(),
        forall|i: int| 0 <= i < s.len() ==> stms_view(s)[i] == stm_view(s[i]),
    decreases s,
{
    if s.len() > 0 {
        lemma_stms_view(s.drop_last());
    }
}

} // verus!
