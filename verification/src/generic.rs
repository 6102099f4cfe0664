//! The typed runtime value model: the primitive forms a register can store
//! and the coercion tags that references carry at their use sites.

use vstd::prelude::*;

use crate::stm::Decl;
use crate::tokens::WsToken;
use crate::syntax::InterpreterErr;
use crate::model;

verus! {

/// The stored form of a register's content: an integer, a boolean, a deferred
/// procedure, or the absence of a value.
#[derive(Debug)]
pub enum Primitive {
    Int(i16),
    Bool(bool),
    Proc(Decl),
    Void,
}

/// The coercion tag a bracketed reference carries at its use site; it decides
/// how the stored value is reinterpreted when that reference is evaluated.
#[derive(Debug, Clone, Copy, PartialEq, Eq, Structural)]
pub enum PrimitiveId {
    Int,
    Bool,
    Proc,
    Void,
}

impl Clone for Primitive {
    /// A clone of a primitive stands for the same model value.
    fn clone(&self) -> (res: Self)
        ensures
            model::prim_view(res) == model::prim_view(*self),
        decreases self,
    {
        match self {
            Primitive::Int(i) => Primitive::Int(*i),
            Primitive::Bool(b) => Primitive::Bool(*b),
            Primitive::Proc(d) => Primitive::Proc(d.clone()),
            Primitive::Void => Primitive::Void,
        }
    }
}

impl Primitive {
    /// Converts this stored primitive back to a terminal value.  A plain
    /// value converts directly; a stored procedure runs its declaration,
    /// which must produce a result through an `out` statement.
    pub fn as_val(&self, context: &mut crate::syntax::SyntaxContext, fuel: u64) -> (r: Result<
        crate::expr::Val,
        InterpreterErr,
    >)
        requires
            old(context).wf(),
        ensures
            crate::syntax::eval_frame(*old(context), *final(context)),
            (!(*self matches Primitive::Proc(_)) ==> (r matches Ok(x) && Some(
                crate::model::val_view(x),
            ) == crate::semantics::prim_val(crate::model::prim_view(*self)) && *final(context)
                == *old(context))),
            (crate::model::prim_view(*self) matches crate::model::Prim::Proc(dv) ==> (dv matches
                crate::model::Decl::Expr(e4) ==> fuel >= 1 ==> (r matches Ok(x)
                && crate::model::val_view(x) == crate::model::Val::Expr(Box::new(e4)) && *final(context) == *old(context)))),
            (crate::model::prim_view(*self) matches crate::model::Prim::Proc(dv) ==> (dv matches
                crate::model::Decl::Closure(ss) ==> (ss.len() == 0 && fuel >= 2) ==> (r matches
            Err(e5) && (e5 matches InterpreterErr::MissingBlockResult) && *final(context) == *old(context)))),
        decreases fuel, 0nat, 3int,
    {
        match self {
            Primitive::Int(i) => Ok(crate::expr::Val::Int(*i)),
            Primitive::Bool(b) => Ok(crate::expr::Val::Bool(*b)),
            Primitive::Void => Ok(crate::expr::Val::Void),
            Primitive::Proc(decl) => {
                if fuel == 0 {
                    return Err(InterpreterErr::RecursionLimit);
                }
                match crate::stm::Stm::run_fuel(context, decl, fuel - 1)? {
                    Some(e) => {
                        let rv = crate::expr::Val::Expr(Box::new(e));
                        proof {
                            assert(crate::model::val_view(rv) == crate::model::Val::Expr(
                                Box::new(crate::model::expr_view(e)),
                            ));
                        }
                        Ok(rv)
                    },
                    None => Err(InterpreterErr::MissingBlockResult),
                }
            },
        }
    }
}

impl PrimitiveId {
    /// Reads a coercion tag off a type keyword token.  Only the `integer`,
    /// `boolean` and `void` keywords name a tag a reference can be written
    /// with; every other token is refused.
    pub fn try_from(value: &WsToken) -> (r: Result<PrimitiveId, InterpreterErr>)
        ensures
            match r {
                Ok(id) => match *value {
                    WsToken::Int => id == PrimitiveId::Int,
                    WsToken::Bool => id == PrimitiveId::Bool,
                    WsToken::Void => id == PrimitiveId::Void,
                    _ => false,
                },
                Err(e) => !(*value matches WsToken::Int) && !(*value matches WsToken::Bool) && !(
                *value matches WsToken::Void) && e matches InterpreterErr::FailedToReadPrimitive,
            },
    {
        match value {
            WsToken::Int => Ok(PrimitiveId::Int),
            WsToken::Bool => Ok(PrimitiveId::Bool),
            WsToken::Void => Ok(PrimitiveId::Void),
            _ => Err(InterpreterErr::FailedToReadPrimitive),
        }
    }
}

} // verus!
