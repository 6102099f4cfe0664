//! The expression trees of the language: terminal values, operation nodes and
//! comparators, together with structure-preserving clones.

use vstd::prelude::*;

use crate::generic::{Primitive, PrimitiveId};
use crate::model;
use crate::semantics;
use crate::syntax::{InterpreterErr, SyntaxContext};
use crate::tokens::WsToken;

verus! {

/// An expression: either a terminal value producer or an operation node.
#[derive(Debug)]
pub enum Expr {
    Val(Val),
    Op(Op),
}

/// A unary or binary operation node.  Each binary node stores the freshly
/// parsed right-hand term as a plain value and the previously accumulated
/// left-hand tree as a nested expression; evaluation still computes the
/// conventional left-associative result.
#[derive(Debug)]
pub enum Op {
    Neg(Val),
    Add(Val, Box<Expr>),
    Sub(Val, Box<Expr>),
    Mul(Val, Box<Expr>),
    Div(Val, Box<Expr>),
    Dice(Val, Box<Expr>, Option<CmpTo>),
    Cmp(CmpTo, Box<Expr>),
}

/// A terminal value: a literal, a tagged register reference, a nested
/// sub-tree, or the absence of a value.
#[derive(Debug)]
pub enum Val {
    Int(i16),
    Bool(bool),
    Ref(PrimitiveId, Vec<u8>),
    Expr(Box<Expr>),
    Void,
}

/// A comparator together with its right-hand operand.
#[derive(Debug)]
pub enum CmpTo {
    Eq(Val),
    Ne(Val),
    Gt(Val),
    Ge(Val),
    Lt(Val),
    Le(Val),
}

/// The structural height of a terminal value, the measure evaluation
/// recursion descends along.
pub open spec fn val_height(v: Val) -> nat
    decreases v,
{
    match v {
        Val::Int(_) => 0,
        Val::Bool(_) => 0,
        Val::Ref(_, _) => 0,
        Val::Void => 0,
        Val::Expr(e) => expr_height(*e) + 1,
    }
}

/// The structural height of an expression.
pub open spec fn expr_height(e: Expr) -> nat
    decreases e,
{
    match e {
        Expr::Val(v) => val_height(v) + 1,
        Expr::Op(o) => op_height(o) + 1,
    }
}

/// The structural height of an operation node.
pub open spec fn op_height(o: Op) -> nat
    decreases o,
{
    match o {
        Op::Neg(a) => val_height(a) + 1,
        Op::Add(a, b) => val_height(a) + expr_height(*b) + 1,
        Op::Sub(a, b) => val_height(a) + expr_height(*b) + 1,
        Op::Mul(a, b) => val_height(a) + expr_height(*b) + 1,
        Op::Div(a, b) => val_height(a) + expr_height(*b) + 1,
        Op::Dice(a, b, c) => val_height(a) + expr_height(*b) + cmp_opt_height(c) + 1,
        Op::Cmp(c, b) => cmp_height(c) + expr_height(*b) + 1,
    }
}

/// The structural height of a comparator.
pub open spec fn cmp_height(c: CmpTo) -> nat
    decreases c,
{
    val_height(semantics_arg(c)) + 1
}

/// The structural height of an optional comparator.
pub open spec fn cmp_opt_height(c: Option<CmpTo>) -> nat
    decreases c,
{
    match c {
        Some(cc) => cmp_height(cc),
        None => 0,
    }
}

/// The executable comparator's right-hand operand, seen structurally.
pub open spec fn semantics_arg(c: CmpTo) -> Val {
    match c {
        CmpTo::Eq(v) => v,
        CmpTo::Ne(v) => v,
        CmpTo::Gt(v) => v,
        CmpTo::Ge(v) => v,
        CmpTo::Lt(v) => v,
        CmpTo::Le(v) => v,
    }
}

impl Clone for Expr {
    /// A clone of an expression stands for the same model tree.
    fn clone(&self) -> (res: Self)
        ensures
            model::expr_view(res) == model::expr_view(*self),
        decreases self,
    {
        match self {
            Expr::Val(v) => Expr::Val(v.clone()),
            Expr::Op(o) => Expr::Op(o.clone()),
        }
    }
}

impl Clone for Op {
    /// A clone of an operation node stands for the same model node.
    fn clone(&self) -> (res: Self)
        ensures
            model::op_view(res) == model::op_view(*self),
        decreases self,
    {
        match self {
            Op::Neg(a) => Op::Neg(a.clone()),
            Op::Add(a, b) => Op::Add(a.clone(), Box::new((**b).clone())),
            Op::Sub(a, b) => Op::Sub(a.clone(), Box::new((**b).clone())),
            Op::Mul(a, b) => Op::Mul(a.clone(), Box::new((**b).clone())),
            Op::Div(a, b) => Op::Div(a.clone(), Box::new((**b).clone())),
            Op::Dice(a, b, c) => Op::Dice(
                a.clone(),
                Box::new((**b).clone()),
                match c {
                    Some(cc) => Some(cc.clone()),
                    None => None,
                },
            ),
            Op::Cmp(c, b) => Op::Cmp(c.clone(), Box::new((**b).clone())),
        }
    }
}

impl Clone for Val {
    /// A clone of a terminal value stands for the same model value.
    fn clone(&self) -> (res: Self)
        ensures
            model::val_view(res) == model::val_view(*self),
        decreases self,
    {
        match self {
            Val::Int(i) => Val::Int(*i),
            Val::Bool(b) => Val::Bool(*b),
            Val::Ref(id, name) => Val::Ref(*id, crate::stm::clone_name(name)),
            Val::Expr(e) => Val::Expr(Box::new((**e).clone())),
            Val::Void => Val::Void,
        }
    }
}

impl Clone for CmpTo {
    /// A clone of a comparator stands for the same model comparator.
    fn clone(&self) -> (res: Self)
        ensures
            model::cmp_view(res) == model::cmp_view(*self),
        decreases self,
    {
        match self {
            CmpTo::Eq(v) => CmpTo::Eq(v.clone()),
            CmpTo::Ne(v) => CmpTo::Ne(v.clone()),
            CmpTo::Gt(v) => CmpTo::Gt(v.clone()),
            CmpTo::Ge(v) => CmpTo::Ge(v.clone()),
            CmpTo::Lt(v) => CmpTo::Lt(v.clone()),
            CmpTo::Le(v) => CmpTo::Le(v.clone()),
        }
    }
}

impl Expr {
    /// Scans an expression off the front of the token queue, folding terms
    /// strictly left to right until the end token, which is consumed.
    /// `input` carries the tree accumulated so far, if any.  On the grammar
    /// that the model parser accepts, the produced tree and the remaining
    /// queue are pinned exactly; a force-to-integer term additionally
    /// evaluates against the context while parsing.
    #[verifier::rlimit(60)]
    pub fn scan(context: &mut SyntaxContext, input: Option<Expr>, end_token: WsToken) -> (r:
        Result<Expr, InterpreterErr>)
        requires
            old(context).wf(),
        ensures
            final(context).wf(),
            final(context).toks().len() <= old(context).toks().len(),
            (old(context).token_index + old(context).toks().len() <= usize::MAX ==> final(context).token_index == old(context).token_index + (old(context).toks().len() - final(context).toks().len())),
            ({
                let iv = match input {
                    Some(e) => Some(model::expr_view(e)),
                    None => None,
                };
                crate::grammar::parse_expr(old(context).toks(), iv, end_token) matches Some(p)
                    ==> (r matches Ok(x) && model::expr_view(x) == p.0 && final(context).toks()
                    == p.1 && final(context).registers == old(context).registers && final(context).rand == old(context).rand && final(context).output == old(context).output)
            }),
            ((old(context).toks().len() > 0 && crate::tokens::token_eq_spec(
                old(context).toks()[0],
                end_token,
            ) && input is None) ==> (r matches Err(e2) && (e2 matches
            InterpreterErr::ExpectedAnExpr(ix2) && ix2 == final(context).token_index) && final(context).toks() == old(context).toks().skip(1) && final(context).registers == old(context).registers && final(context).rand == old(context).rand && final(context).output == old(context).output)),
            ((old(context).toks().len() > 0 && !crate::tokens::token_eq_spec(
                old(context).toks()[0],
                end_token,
            ) && input is Some && !crate::grammar::is_fold_tok(old(context).toks()[0])) ==> (r
                matches Err(e2) && (e2 matches InterpreterErr::WrongToken(ix, tk) && ix == old(context).token_index && crate::tokens::token_eq_spec(tk, old(context).toks()[0]))
                && *final(context) == *old(context))),
        decreases context.toks().len(), 2int,
    {
        proof {
            reveal_with_fuel(crate::grammar::parse_expr, 2);
            reveal_with_fuel(crate::grammar::parse_value, 2);
            if old(context).toks().len() > 0 {
                assert(old(context).toks().drop_first() =~= old(context).toks().skip(1));
                assert(old(context).toks().drop_first() == old(context).toks().skip(1));
            }
        }
        if context.peek().is_none() {
            return Err(InterpreterErr::WrongEof(context.token_index()));
        }
        let at_end = match context.peek() {
            Some(t) => crate::tokens::token_eq(t, &end_token),
            None => false,
        };
        if at_end {
            context.next();
            proof {
                reveal_with_fuel(crate::grammar::parse_expr, 2);
                let ts = old(context).toks();
                assert(ts.drop_first() =~= ts.skip(1));
                assert(ts.drop_first() == ts.skip(1));
            }
            return match input {
                Some(e) => Ok(e),
                None => Err(InterpreterErr::ExpectedAnExpr(context.token_index())),
            };
        }
        match input {
            Some(expr) => {
                let is_op = match context.peek() {
                    Some(t) => matches!(
                        t,
                        WsToken::Plus | WsToken::Minus | WsToken::Star | WsToken::Slash
                            | WsToken::Dice | WsToken::Eq | WsToken::Ne | WsToken::Gt
                            | WsToken::Ge | WsToken::Lt | WsToken::Le
                    ),
                    None => false,
                };
                if !is_op {
                    let bad = match context.peek() {
                        Some(t) => crate::tokens::clone_token(t),
                        None => WsToken::Eof,
                    };
                    return Err(InterpreterErr::WrongToken(context.token_index(), bad));
                }
                let t = context.next();
                let b = next_value(context)?;
                let node = match t {
                    WsToken::Plus => Expr::Op(Op::Add(b, Box::new(expr))),
                    WsToken::Minus => Expr::Op(Op::Sub(b, Box::new(expr))),
                    WsToken::Star => Expr::Op(Op::Mul(b, Box::new(expr))),
                    WsToken::Slash => Expr::Op(Op::Div(b, Box::new(expr))),
                    WsToken::Dice => Expr::Op(Op::Dice(b, Box::new(expr), None)),
                    WsToken::Eq => Expr::Op(Op::Cmp(CmpTo::Eq(b), Box::new(expr))),
                    WsToken::Ne => Expr::Op(Op::Cmp(CmpTo::Ne(b), Box::new(expr))),
                    WsToken::Gt => Expr::Op(Op::Cmp(CmpTo::Gt(b), Box::new(expr))),
                    WsToken::Ge => Expr::Op(Op::Cmp(CmpTo::Ge(b), Box::new(expr))),
                    WsToken::Lt => Expr::Op(Op::Cmp(CmpTo::Lt(b), Box::new(expr))),
                    WsToken::Le => Expr::Op(Op::Cmp(CmpTo::Le(b), Box::new(expr))),
                    _ => {
                        return Err(InterpreterErr::WrongToken(context.token_index(), t));
                    },
                };
                proof {
                    reveal_with_fuel(crate::grammar::parse_expr, 2);
                    reveal_with_fuel(crate::grammar::parse_value, 2);
                    let ts = old(context).toks();
                    assert(ts.drop_first() =~= ts.skip(1));
                    assert(ts.drop_first() == ts.skip(1));
                    if t is Plus {
                        assert(model::op_view(Op::Add(b, Box::new(expr))) == model::Op::Add(model::val_view(b), Box::new(model::expr_view(expr))));
                        assert(model::expr_view(node) == model::Expr::Op(
                            Box::new(model::op_view(Op::Add(b, Box::new(expr)))),
                        ));
                        assert(crate::grammar::fold_op(
                            ts[0],
                            model::expr_view(expr),
                            model::val_view(b),
                        ) == Some(model::expr_view(node)));
                    }
                    if t is Minus {
                        assert(model::op_view(Op::Sub(b, Box::new(expr))) == model::Op::Sub(model::val_view(b), Box::new(model::expr_view(expr))));
                        assert(model::expr_view(node) == model::Expr::Op(
                            Box::new(model::op_view(Op::Sub(b, Box::new(expr)))),
                        ));
                        assert(crate::grammar::fold_op(
                            ts[0],
                            model::expr_view(expr),
                            model::val_view(b),
                        ) == Some(model::expr_view(node)));
                    }
                    if t is Star {
                        assert(model::op_view(Op::Mul(b, Box::new(expr))) == model::Op::Mul(model::val_view(b), Box::new(model::expr_view(expr))));
                        assert(model::expr_view(node) == model::Expr::Op(
                            Box::new(model::op_view(Op::Mul(b, Box::new(expr)))),
                        ));
                        assert(crate::grammar::fold_op(
                            ts[0],
                            model::expr_view(expr),
                            model::val_view(b),
                        ) == Some(model::expr_view(node)));
                    }
                    if t is Slash {
                        assert(model::op_view(Op::Div(b, Box::new(expr))) == model::Op::Div(model::val_view(b), Box::new(model::expr_view(expr))));
                        assert(model::expr_view(node) == model::Expr::Op(
                            Box::new(model::op_view(Op::Div(b, Box::new(expr)))),
                        ));
                        assert(crate::grammar::fold_op(
                            ts[0],
                            model::expr_view(expr),
                            model::val_view(b),
                        ) == Some(model::expr_view(node)));
                    }
                    if t is Dice {
                        assert(model::op_view(Op::Dice(b, Box::new(expr), None)) == model::Op::Dice(model::val_view(b), Box::new(model::expr_view(expr)), None));
                        assert(model::expr_view(node) == model::Expr::Op(
                            Box::new(model::op_view(Op::Dice(b, Box::new(expr), None))),
                        ));
                        assert(crate::grammar::fold_op(
                            ts[0],
                            model::expr_view(expr),
                            model::val_view(b),
                        ) == Some(model::expr_view(node)));
                    }
                    if t is Eq {
                        assert(model::cmp_view(CmpTo::Eq(b)) == model::CmpTo::Eq(
                            model::val_view(b),
                        ));
                        assert(model::op_view(Op::Cmp(CmpTo::Eq(b), Box::new(expr))) == model::Op::Cmp(model::CmpTo::Eq(model::val_view(b)), Box::new(model::expr_view(expr))));
                        assert(model::expr_view(node) == model::Expr::Op(
                            Box::new(model::op_view(Op::Cmp(CmpTo::Eq(b), Box::new(expr)))),
                        ));
                        assert(crate::grammar::fold_op(
                            ts[0],
                            model::expr_view(expr),
                            model::val_view(b),
                        ) == Some(model::expr_view(node)));
                    }
                    if t is Ne {
                        assert(model::cmp_view(CmpTo::Ne(b)) == model::CmpTo::Ne(
                            model::val_view(b),
                        ));
                        assert(model::op_view(Op::Cmp(CmpTo::Ne(b), Box::new(expr))) == model::Op::Cmp(model::CmpTo::Ne(model::val_view(b)), Box::new(model::expr_view(expr))));
                        assert(model::expr_view(node) == model::Expr::Op(
                            Box::new(model::op_view(Op::Cmp(CmpTo::Ne(b), Box::new(expr)))),
                        ));
                        assert(crate::grammar::fold_op(
                            ts[0],
                            model::expr_view(expr),
                            model::val_view(b),
                        ) == Some(model::expr_view(node)));
                    }
                    if t is Gt {
                        assert(model::cmp_view(CmpTo::Gt(b)) == model::CmpTo::Gt(
                            model::val_view(b),
                        ));
                        assert(model::op_view(Op::Cmp(CmpTo::Gt(b), Box::new(expr))) == model::Op::Cmp(model::CmpTo::Gt(model::val_view(b)), Box::new(model::expr_view(expr))));
                        assert(model::expr_view(node) == model::Expr::Op(
                            Box::new(model::op_view(Op::Cmp(CmpTo::Gt(b), Box::new(expr)))),
                        ));
                        assert(crate::grammar::fold_op(
                            ts[0],
                            model::expr_view(expr),
                            model::val_view(b),
                        ) == Some(model::expr_view(node)));
                    }
                    if t is Ge {
                        assert(model::cmp_view(CmpTo::Ge(b)) == model::CmpTo::Ge(
                            model::val_view(b),
                        ));
                        assert(model::op_view(Op::Cmp(CmpTo::Ge(b), Box::new(expr))) == model::Op::Cmp(model::CmpTo::Ge(model::val_view(b)), Box::new(model::expr_view(expr))));
                        assert(model::expr_view(node) == model::Expr::Op(
                            Box::new(model::op_view(Op::Cmp(CmpTo::Ge(b), Box::new(expr)))),
                        ));
                        assert(crate::grammar::fold_op(
                            ts[0],
                            model::expr_view(expr),
                            model::val_view(b),
                        ) == Some(model::expr_view(node)));
                    }
                    if t is Lt {
                        assert(model::cmp_view(CmpTo::Lt(b)) == model::CmpTo::Lt(
                            model::val_view(b),
                        ));
                        assert(model::op_view(Op::Cmp(CmpTo::Lt(b), Box::new(expr))) == model::Op::Cmp(model::CmpTo::Lt(model::val_view(b)), Box::new(model::expr_view(expr))));
                        assert(model::expr_view(node) == model::Expr::Op(
                            Box::new(model::op_view(Op::Cmp(CmpTo::Lt(b), Box::new(expr)))),
                        ));
                        assert(crate::grammar::fold_op(
                            ts[0],
                            model::expr_view(expr),
                            model::val_view(b),
                        ) == Some(model::expr_view(node)));
                    }
                    if t is Le {
                        assert(model::cmp_view(CmpTo::Le(b)) == model::CmpTo::Le(
                            model::val_view(b),
                        ));
                        assert(model::op_view(Op::Cmp(CmpTo::Le(b), Box::new(expr))) == model::Op::Cmp(model::CmpTo::Le(model::val_view(b)), Box::new(model::expr_view(expr))));
                        assert(model::expr_view(node) == model::Expr::Op(
                            Box::new(model::op_view(Op::Cmp(CmpTo::Le(b), Box::new(expr)))),
                        ));
                        assert(crate::grammar::fold_op(
                            ts[0],
                            model::expr_view(expr),
                            model::val_view(b),
                        ) == Some(model::expr_view(node)));
                    }
                    match crate::grammar::parse_expr(
                        ts,
                        Some(model::expr_view(expr)),
                        end_token,
                    ) {
                        Some(p) => {
                            assert(crate::grammar::parse_expr(
                                context.toks(),
                                Some(model::expr_view(node)),
                                end_token,
                            ) == Some(p));
                        },
                        None => {},
                    }
                }
                Self::scan(context, Some(node), end_token)
            },
            None => {
                let v = next_value(context)?;
                proof {
                    reveal_with_fuel(crate::grammar::parse_expr, 2);
                    reveal_with_fuel(crate::grammar::parse_value, 2);
                    let ts = old(context).toks();
                    assert(model::expr_view(Expr::Val(v)) == model::Expr::Val(
                        model::val_view(v),
                    ));
                    match crate::grammar::parse_expr(ts, None, end_token) {
                        Some(p) => {
                            assert(crate::grammar::parse_expr(
                                context.toks(),
                                Some(model::expr_view(Expr::Val(v))),
                                end_token,
                            ) == Some(p));
                        },
                        None => {},
                    }
                }
                Self::scan(context, Some(Expr::Val(v)), end_token)
            },
        }
    }
}

/// Scans the head of one term off the front of the queue.
#[verifier::rlimit(100)]
fn next_head(context: &mut SyntaxContext) -> (r: Result<Val, InterpreterErr>)
    requires
        old(context).wf(),
    ensures
        final(context).wf(),
        final(context).toks().len() <= old(context).toks().len(),
        r matches Ok(_) ==> final(context).toks().len() < old(context).toks().len(),
        (old(context).token_index + old(context).toks().len() <= usize::MAX ==> final(context).token_index == old(context).token_index + (old(context).toks().len() - final(context).toks().len())),
        (crate::grammar::parse_head(old(context).toks()) matches Some(p) ==> (r matches Ok(v)
            && model::val_view(v) == p.0 && final(context).toks() == p.1 && final(context).registers == old(context).registers && final(context).rand == old(context).rand
            && final(context).output == old(context).output)),
    decreases context.toks().len(), 0int,
{
    proof {
        reveal_with_fuel(crate::grammar::parse_head, 2);
        if old(context).toks().len() > 0 {
            assert(old(context).toks().drop_first() =~= old(context).toks().skip(1));
            assert(old(context).toks().drop_first() == old(context).toks().skip(1));
        }
    }
    let known = match context.peek() {
        Some(t) => matches!(
            t,
            WsToken::DigitLit(_) | WsToken::Ellipsis | WsToken::Minus | WsToken::Tide
                | WsToken::LeftParen | WsToken::Int | WsToken::Bool | WsToken::Void
        ),
        None => false,
    };
    if context.peek().is_none() {
        return Err(InterpreterErr::WrongEof(context.token_index()));
    }
    if !known {
        return Err(InterpreterErr::FailedToReadPrimitive);
    }
    let t = context.next();
    match t {
        WsToken::DigitLit(x) => {
            let rv = Val::Int(x);
            proof {
                reveal_with_fuel(crate::grammar::parse_head, 2);
                reveal_with_fuel(crate::grammar::parse_value, 2);
                reveal_with_fuel(crate::grammar::parse_expr, 2);
                let ts = old(context).toks();
                if ts.len() > 0 {
                    assert(ts.drop_first() =~= ts.skip(1));
                    assert(ts.drop_first() == ts.skip(1));
                }
                match crate::grammar::parse_head(ts) {
                    Some(p) => {
                        assert(context.toks() == p.1);
                        assert(model::val_view(rv) == p.0);
                    },
                    None => {},
                }
            }
            Ok(rv)
        },
        WsToken::Ellipsis => {
            let rv = Val::Void;
            proof {
                reveal_with_fuel(crate::grammar::parse_head, 2);
                reveal_with_fuel(crate::grammar::parse_value, 2);
                reveal_with_fuel(crate::grammar::parse_expr, 2);
                let ts = old(context).toks();
                if ts.len() > 0 {
                    assert(ts.drop_first() =~= ts.skip(1));
                    assert(ts.drop_first() == ts.skip(1));
                }
                match crate::grammar::parse_head(ts) {
                    Some(p) => {
                        assert(context.toks() == p.1);
                        assert(model::val_view(rv) == p.0);
                    },
                    None => {},
                }
            }
            Ok(rv)
        },
        WsToken::Minus => {
            let b = next_value(context)?;
            let rv = Val::Expr(Box::new(Expr::Op(Op::Neg(b))));
            proof {
                reveal_with_fuel(crate::grammar::parse_head, 2);
                reveal_with_fuel(crate::grammar::parse_value, 2);
                reveal_with_fuel(crate::grammar::parse_expr, 2);
                let ts = old(context).toks();
                if ts.len() > 0 {
                    assert(ts.drop_first() =~= ts.skip(1));
                    assert(ts.drop_first() == ts.skip(1));
                }
                match crate::grammar::parse_head(ts) {
                    Some(p) => {
                        assert(ts[0] is Minus);
                        assert(crate::grammar::parse_value(ts.skip(1)) is Some);
                        match crate::grammar::parse_value(ts.skip(1)) {
                            Some(q) => {
                                assert(context.toks() == q.1);
                                assert(model::val_view(b) == q.0);
                                assert(p.1 == q.1);
                                assert(p.0 == model::Val::Expr(
                                    Box::new(
                                        model::Expr::Op(Box::new(model::Op::Neg(q.0))),
                                    ),
                                ));
                            },
                            None => {},
                        }
                        assert(context.toks() == p.1);
                        assert(rv == Val::Expr(Box::new(Expr::Op(Op::Neg(b)))));
                        assert(model::op_view(Op::Neg(b)) == model::Op::Neg(
                            model::val_view(b),
                        ));
                        assert(model::expr_view(Expr::Op(Op::Neg(b))) == model::Expr::Op(
                            Box::new(model::op_view(Op::Neg(b))),
                        ));
                        assert(model::val_view(rv) == model::Val::Expr(
                            Box::new(model::expr_view(Expr::Op(Op::Neg(b)))),
                        ));
                        assert(model::val_view(rv) == p.0);
                    },
                    None => {},
                }
            }
            Ok(rv)
        },
        WsToken::Tide => {
            let b = next_value(context)?;
            let x = value_to_i16(&b, context, crate::stm::EVAL_FUEL)?;
            Ok(Val::Int(x))
        },
        WsToken::LeftParen => {
            let e = Expr::scan(context, None, WsToken::RightParen)?;
            let rv = Val::Expr(Box::new(e));
            proof {
                reveal_with_fuel(crate::grammar::parse_head, 2);
                reveal_with_fuel(crate::grammar::parse_value, 2);
                reveal_with_fuel(crate::grammar::parse_expr, 2);
                let ts = old(context).toks();
                if ts.len() > 0 {
                    assert(ts.drop_first() =~= ts.skip(1));
                    assert(ts.drop_first() == ts.skip(1));
                }
                match crate::grammar::parse_head(ts) {
                    Some(p) => {
                        assert(context.toks() == p.1);
                        assert(model::val_view(rv) == p.0);
                    },
                    None => {},
                }
            }
            Ok(rv)
        },
        WsToken::Int => {
            let name = context.next_ref()?;
            let rv = Val::Ref(PrimitiveId::Int, name);
            proof {
                reveal_with_fuel(crate::grammar::parse_head, 2);
                reveal_with_fuel(crate::grammar::parse_value, 2);
                reveal_with_fuel(crate::grammar::parse_expr, 2);
                let ts = old(context).toks();
                if ts.len() > 0 {
                    assert(ts.drop_first() =~= ts.skip(1));
                    assert(ts.drop_first() == ts.skip(1));
                }
                match crate::grammar::parse_head(ts) {
                    Some(p) => {
                        assert(context.toks() == p.1);
                        assert(model::val_view(rv) == p.0);
                    },
                    None => {},
                }
            }
            Ok(rv)
        },
        WsToken::Bool => {
            let name = context.next_ref()?;
            let rv = Val::Ref(PrimitiveId::Bool, name);
            proof {
                reveal_with_fuel(crate::grammar::parse_head, 2);
                reveal_with_fuel(crate::grammar::parse_value, 2);
                reveal_with_fuel(crate::grammar::parse_expr, 2);
                let ts = old(context).toks();
                if ts.len() > 0 {
                    assert(ts.drop_first() =~= ts.skip(1));
                    assert(ts.drop_first() == ts.skip(1));
                }
                match crate::grammar::parse_head(ts) {
                    Some(p) => {
                        assert(context.toks() == p.1);
                        assert(model::val_view(rv) == p.0);
                    },
                    None => {},
                }
            }
            Ok(rv)
        },
        WsToken::Void => {
            let name = context.next_ref()?;
            let rv = Val::Ref(PrimitiveId::Void, name);
            proof {
                reveal_with_fuel(crate::grammar::parse_head, 2);
                reveal_with_fuel(crate::grammar::parse_value, 2);
                reveal_with_fuel(crate::grammar::parse_expr, 2);
                let ts = old(context).toks();
                if ts.len() > 0 {
                    assert(ts.drop_first() =~= ts.skip(1));
                    assert(ts.drop_first() == ts.skip(1));
                }
                match crate::grammar::parse_head(ts) {
                    Some(p) => {
                        assert(context.toks() == p.1);
                        assert(model::val_view(rv) == p.0);
                    },
                    None => {},
                }
            }
            Ok(rv)
        },
        _ => Err(InterpreterErr::WrongToken(context.token_index(), t)),
    }
}

/// Scans one term off the front of the queue, together with the tightly
/// binding suffixes `*`, `/` and the dice operator with its optional
/// comparator.
#[verifier::rlimit(100)]
fn next_value(context: &mut SyntaxContext) -> (r: Result<Val, InterpreterErr>)
    requires
        old(context).wf(),
    ensures
        final(context).wf(),
        final(context).toks().len() <= old(context).toks().len(),
        r matches Ok(_) ==> final(context).toks().len() < old(context).toks().len(),
        (old(context).token_index + old(context).toks().len() <= usize::MAX ==> final(context).token_index == old(context).token_index + (old(context).toks().len() - final(context).toks().len())),
        (crate::grammar::parse_value(old(context).toks()) matches Some(p) ==> (r matches Ok(v)
            && model::val_view(v) == p.0 && final(context).toks() == p.1 && final(context).registers == old(context).registers && final(context).rand == old(context).rand
            && final(context).output == old(context).output)),
    decreases context.toks().len(), 1int,
{
    proof {
        reveal_with_fuel(crate::grammar::parse_value, 2);
        reveal_with_fuel(crate::grammar::parse_head, 2);
        reveal_with_fuel(crate::grammar::parse_suffix, 2);
    }
    let a = next_head(context)?;
    proof {
        if context.toks().len() > 0 {
            assert(context.toks().drop_first() =~= context.toks().skip(1));
            assert(context.toks().drop_first() == context.toks().skip(1));
        }
    }
    if context.peek().is_none() {
        return Err(InterpreterErr::WrongEof(context.token_index()));
    }
    let ghost r_snap = context.toks();
    let suffix = match context.peek() {
        Some(t2) => {
            if matches!(t2, WsToken::Star) {
                1usize
            } else if matches!(t2, WsToken::Slash) {
                2
            } else if matches!(t2, WsToken::Dice) {
                3
            } else {
                0
            }
        },
        None => 0,
    };
    if suffix == 0 {
        let rv = a;
        proof {
            reveal_with_fuel(crate::grammar::parse_value, 2);
            reveal_with_fuel(crate::grammar::parse_head, 2);
            reveal_with_fuel(crate::grammar::parse_suffix, 2);
            let ts = old(context).toks();
            match crate::grammar::parse_value(ts) {
                Some(p) => {
                    assert(context.toks() == p.1);
                    assert(model::val_view(rv) == p.0);
                },
                None => {},
            }
        }
        return Ok(rv);
    }
    let ghost ga = a;
    context.next();
    proof {
        assert(r_snap.drop_first() =~= r_snap.skip(1));
        assert(r_snap.drop_first() == r_snap.skip(1));
    }
    let b = next_value(context)?;
    let ghost gb = b;
    if suffix == 1 {
        let inner = Expr::Val(a);
        let ghost g_inner = inner;
        let node = Expr::Op(Op::Mul(b, Box::new(inner)));
        let ghost g_node = node;
        let rv = Val::Expr(Box::new(node));
    proof {
        reveal_with_fuel(crate::grammar::parse_value, 2);
        reveal_with_fuel(crate::grammar::parse_head, 2);
        reveal_with_fuel(crate::grammar::parse_suffix, 2);
        let ts = old(context).toks();
        assert(g_inner == Expr::Val(ga));
        assert(g_node == Expr::Op(Op::Mul(gb, Box::new(g_inner))));
        assert(rv == Val::Expr(Box::new(g_node)));
        assert(model::val_view(rv) == model::Val::Expr(Box::new(model::expr_view(g_node))));
        assert(model::expr_view(g_node) == model::Expr::Op(
            Box::new(model::op_view(Op::Mul(gb, Box::new(g_inner)))),
        ));
        assert(model::op_view(Op::Mul(gb, Box::new(g_inner))) == model::Op::Mul(
            model::val_view(gb),
            Box::new(model::expr_view(g_inner)),
        ));
        assert(rv == Val::Expr(Box::new(Expr::Op(Op::Mul(gb, Box::new(Expr::Val(ga)))))));
        assert(model::expr_view(Expr::Val(ga)) == model::Expr::Val(model::val_view(ga)));
        assert(model::val_view(rv) == model::Val::Expr(
            Box::new(
                model::Expr::Op(
                    Box::new(
                        model::Op::Mul(
                            model::val_view(gb),
                            Box::new(model::expr_view(Expr::Val(ga))),
                        ),
                    ),
                ),
            ),
        ));
        match crate::grammar::parse_value(ts) {
            Some(p) => {
                assert(context.toks() == p.1);
                assert(model::val_view(rv) == p.0);
            },
            None => {},
        }
    }
    return Ok(rv);
    }
    if suffix == 2 {
        let inner = Expr::Val(a);
        let ghost g_inner = inner;
        let node = Expr::Op(Op::Div(b, Box::new(inner)));
        let ghost g_node = node;
        let rv = Val::Expr(Box::new(node));
    proof {
        reveal_with_fuel(crate::grammar::parse_value, 2);
        reveal_with_fuel(crate::grammar::parse_head, 2);
        reveal_with_fuel(crate::grammar::parse_suffix, 2);
        let ts = old(context).toks();
        assert(g_inner == Expr::Val(ga));
        assert(g_node == Expr::Op(Op::Div(gb, Box::new(g_inner))));
        assert(rv == Val::Expr(Box::new(g_node)));
        assert(model::val_view(rv) == model::Val::Expr(Box::new(model::expr_view(g_node))));
        assert(model::expr_view(g_node) == model::Expr::Op(
            Box::new(model::op_view(Op::Div(gb, Box::new(g_inner)))),
        ));
        assert(model::op_view(Op::Div(gb, Box::new(g_inner))) == model::Op::Div(
            model::val_view(gb),
            Box::new(model::expr_view(g_inner)),
        ));
        assert(model::expr_view(Expr::Val(ga)) == model::Expr::Val(model::val_view(ga)));
        assert(model::val_view(rv) == model::Val::Expr(
            Box::new(
                model::Expr::Op(
                    Box::new(
                        model::Op::Div(
                            model::val_view(gb),
                            Box::new(model::expr_view(Expr::Val(ga))),
                        ),
                    ),
                ),
            ),
        ));
        match crate::grammar::parse_value(ts) {
            Some(p) => {
                assert(context.toks() == p.1);
                assert(model::val_view(rv) == p.0);
            },
            None => {},
        }
    }
    return Ok(rv);
    }
    let colon = match context.peek() {
        Some(t2) => matches!(t2, WsToken::Colon),
        None => {
            return Err(InterpreterErr::WrongEof(context.token_index()));
        },
    };
    if !colon {
        let inner = Expr::Val(a);
        let ghost g_inner = inner;
        let node = Expr::Op(Op::Dice(b, Box::new(inner), None));
        let ghost g_node = node;
        let rv = Val::Expr(Box::new(node));
    proof {
        reveal_with_fuel(crate::grammar::parse_value, 2);
        reveal_with_fuel(crate::grammar::parse_head, 2);
        reveal_with_fuel(crate::grammar::parse_suffix, 2);
        let ts = old(context).toks();
        assert(g_inner == Expr::Val(ga));
        assert(g_node == Expr::Op(Op::Dice(gb, Box::new(g_inner), None)));
        assert(rv == Val::Expr(Box::new(g_node)));
        assert(model::val_view(rv) == model::Val::Expr(Box::new(model::expr_view(g_node))));
        assert(model::expr_view(g_node) == model::Expr::Op(
            Box::new(model::op_view(Op::Dice(gb, Box::new(g_inner), None))),
        ));
        assert(model::op_view(Op::Dice(gb, Box::new(g_inner), None)) == model::Op::Dice(
            model::val_view(gb),
            Box::new(model::expr_view(g_inner)),
            None,
        ));
        assert(model::expr_view(Expr::Val(ga)) == model::Expr::Val(model::val_view(ga)));
        assert(model::val_view(rv) == model::Val::Expr(
            Box::new(
                model::Expr::Op(
                    Box::new(
                        model::Op::Dice(
                            model::val_view(gb),
                            Box::new(model::expr_view(Expr::Val(ga))),
                            None,
                        ),
                    ),
                ),
            ),
        ));
        match crate::grammar::parse_value(ts) {
            Some(p) => {
                assert(context.toks() == p.1);
                assert(model::val_view(rv) == p.0);
            },
            None => {},
        }
    }
    return Ok(rv);
    }
    let ghost r2_snap = context.toks();
    context.next();
    let is_cmp = match context.peek() {
        Some(t2) => matches!(
            t2,
            WsToken::Eq | WsToken::Ne | WsToken::Gt | WsToken::Ge | WsToken::Lt | WsToken::Le
        ),
        None => {
            return Err(InterpreterErr::WrongEof(context.token_index()));
        },
    };
    if !is_cmp {
        let bad = match context.peek() {
            Some(t2) => crate::tokens::clone_token(t2),
            None => WsToken::Eof,
        };
        return Err(InterpreterErr::WrongToken(context.token_index(), bad));
    }
    let ct = context.next();
    proof {
        assert(r2_snap.drop_first().drop_first() =~= r2_snap.skip(2));
        assert(r2_snap.drop_first().drop_first() == r2_snap.skip(2));
    }
    let c = next_value(context)?;
    let cm = match ct {
        WsToken::Eq => CmpTo::Eq(c),
        WsToken::Ne => CmpTo::Ne(c),
        WsToken::Gt => CmpTo::Gt(c),
        WsToken::Ge => CmpTo::Ge(c),
        WsToken::Lt => CmpTo::Lt(c),
        WsToken::Le => CmpTo::Le(c),
        _ => {
            return Err(InterpreterErr::WrongToken(context.token_index(), ct));
        },
    };
    let ghost gcm = cm;
    let inner = Expr::Val(a);
    let ghost g_inner = inner;
    let node = Expr::Op(Op::Dice(b, Box::new(inner), Some(cm)));
    let ghost g_node = node;
    let rv = Val::Expr(Box::new(node));
    proof {
        reveal_with_fuel(crate::grammar::parse_value, 2);
        reveal_with_fuel(crate::grammar::parse_head, 2);
        reveal_with_fuel(crate::grammar::parse_suffix, 2);
        let ts = old(context).toks();
        assert(g_inner == Expr::Val(ga));
        assert(g_node == Expr::Op(Op::Dice(gb, Box::new(g_inner), Some(gcm))));
        assert(rv == Val::Expr(Box::new(g_node)));
        assert(model::val_view(rv) == model::Val::Expr(Box::new(model::expr_view(g_node))));
        assert(model::expr_view(g_node) == model::Expr::Op(
            Box::new(model::op_view(Op::Dice(gb, Box::new(g_inner), Some(gcm)))),
        ));
        assert(model::op_view(Op::Dice(gb, Box::new(g_inner), Some(gcm))) == model::Op::Dice(
            model::val_view(gb),
            Box::new(model::expr_view(g_inner)),
            Some(model::cmp_view(gcm)),
        ));
        assert(model::expr_view(Expr::Val(ga)) == model::Expr::Val(model::val_view(ga)));
        assert(model::val_view(rv) == model::Val::Expr(
            Box::new(
                model::Expr::Op(
                    Box::new(
                        model::Op::Dice(
                            model::val_view(gb),
                            Box::new(model::expr_view(Expr::Val(ga))),
                            Some(model::cmp_view(gcm)),
                        ),
                    ),
                ),
            ),
        ));
        match crate::grammar::parse_value(ts) {
            Some(p) => {
                assert(context.toks() == p.1);
                assert(model::val_view(rv) == p.0);
            },
            None => {},
        }
    }
    return Ok(rv);
}

/// Adds two 16-bit integers, or reports the overflow fault.
fn add16(l: i16, r: i16) -> (res: Result<i16, InterpreterErr>)
    ensures
        match res {
            Ok(x) => semantics::fits(l + r) && x as int == l + r,
            Err(e) => !semantics::fits(l + r) && e matches InterpreterErr::Overflow,
        },
{
    let s: i32 = (l as i32) + (r as i32);
    if s < -32768 || s > 32767 {
        Err(InterpreterErr::Overflow)
    } else {
        Ok(s as i16)
    }
}

/// Subtracts two 16-bit integers, or reports the overflow fault.
fn sub16(l: i16, r: i16) -> (res: Result<i16, InterpreterErr>)
    ensures
        match res {
            Ok(x) => semantics::fits(l - r) && x as int == l - r,
            Err(e) => !semantics::fits(l - r) && e matches InterpreterErr::Overflow,
        },
{
    let s: i32 = (l as i32) - (r as i32);
    if s < -32768 || s > 32767 {
        Err(InterpreterErr::Overflow)
    } else {
        Ok(s as i16)
    }
}

/// Multiplies two 16-bit integers, or reports the overflow fault.
fn mul16(l: i16, r: i16) -> (res: Result<i16, InterpreterErr>)
    ensures
        match res {
            Ok(x) => semantics::fits(l * r) && x as int == l * r,
            Err(e) => !semantics::fits(l * r) && e matches InterpreterErr::Overflow,
        },
{
    proof {
        assert(-2147483648 <= (l as int) * (r as int) <= 2147483647) by (nonlinear_arith)
            requires
                -32768 <= l <= 32767,
                -32768 <= r <= 32767,
        ;
    }
    let s: i32 = (l as i32) * (r as i32);
    if s < -32768 || s > 32767 {
        Err(InterpreterErr::Overflow)
    } else {
        Ok(s as i16)
    }
}

/// Divides two 16-bit integers, truncating toward zero; division by zero
/// and the one overflowing quotient are reported as faults.
fn div16(l: i16, r: i16) -> (res: Result<i16, InterpreterErr>)
    ensures
        match res {
            Ok(x) => r != 0 && semantics::fits(semantics::tdiv(l as int, r as int)) && x as int
                == semantics::tdiv(l as int, r as int),
            Err(e) => (r == 0 && e matches InterpreterErr::DivisionByZero) || (r != 0
                && !semantics::fits(semantics::tdiv(l as int, r as int)) && e matches
                InterpreterErr::Overflow),
        },
{
    if r == 0 {
        return Err(InterpreterErr::DivisionByZero);
    }
    if l == -32768 && r == -1 {
        return Err(InterpreterErr::Overflow);
    }
    let ml: u32 = if l < 0 {
        (-(l as i32)) as u32
    } else {
        l as u32
    };
    let mr: u32 = if r < 0 {
        (-(r as i32)) as u32
    } else {
        r as u32
    };
    let q: u32 = ml / mr;
    assert(ml as int == semantics::abs(l as int));
    assert(mr as int == semantics::abs(r as int));
    proof {
        assert(q <= ml) by (nonlinear_arith)
            requires
                q == ml / mr,
                mr >= 1,
        ;
    }
    if (l < 0) != (r < 0) {
        assert(q <= ml <= 32768);
        Ok((-(q as i32)) as i16)
    } else {
        proof {
            if l >= 0 {
                assert(ml <= 32767);
            } else {
                assert(r < 0);
                if r == -1 {
                    assert(l != -32768);
                    assert(ml <= 32767);
                } else {
                    assert(mr >= 2);
                    assert(ml <= 32768);
                    assert(q <= ml / 2) by (nonlinear_arith)
                        requires
                            q == ml / mr,
                            mr >= 2,
                    ;
                }
            }
            assert(q <= 32767);
        }
        Ok(q as i16)
    }
}

impl Expr {
    /// Evaluates this expression to a resolved terminal value against the
    /// context.  On the deterministic fragment the result and the context
    /// are pinned exactly; reading an unbound register is always the
    /// uninitialised register fault.
    pub fn as_val(&self, context: &mut SyntaxContext, fuel: u64) -> (r: Result<
        Val,
        InterpreterErr,
    >)
        requires
            old(context).wf(),
        ensures
            crate::syntax::eval_frame(*old(context), *final(context)),
            (semantics::expr_val(old(context).regs(), model::expr_view(*self)) matches Some(rv)
                ==> fuel >= 1 ==> (r matches Ok(x) && model::val_view(x) == rv && *final(context)
                == *old(context))),
            (model::expr_view(*self) matches model::Expr::Val(model::Val::Ref(id, nm)) ==> !old(context).regs().contains_key(nm) ==> (r matches Err(e) && (e matches
            InterpreterErr::UninitReg(n2) && n2@ == nm) && *final(context) == *old(context))),
            (model::expr_view(*self) matches model::Expr::Op(o2) ==> (*o2 matches
                model::Op::Div(da, db) ==> ((semantics::expr_int(
                old(context).regs(),
                *db,
            ) is Some && semantics::val_int(old(context).regs(), da) == Some(0int) && fuel >= 1)
                ==> (r matches Err(e3) && (e3 matches InterpreterErr::DivisionByZero) && *final(context) == *old(context))))),
        decreases fuel, expr_height(*self), 1int,
    {
        match self {
            Expr::Val(value) => match value {
                Val::Expr(e2) => (**e2).as_val(context, fuel),
                Val::Ref(id, name) => {
                    let p = context.reg(name)?.clone();
                    if fuel == 0 {
                        return Err(InterpreterErr::RecursionLimit);
                    }
                    let fv = p.as_val(context, fuel - 1)?;
                    match id {
                        PrimitiveId::Int => fv.as_int(context, fuel - 1),
                        PrimitiveId::Bool => fv.as_bool(context, fuel - 1),
                        PrimitiveId::Void => fv.as_void(context, fuel - 1),
                        PrimitiveId::Proc => fv.as_proc(context, fuel - 1),
                    }
                },
                Val::Int(i) => Ok(Val::Int(*i)),
                Val::Bool(b) => Ok(Val::Bool(*b)),
                Val::Void => Ok(Val::Void),
            },
            Expr::Op(opr) => match opr {
                Op::Neg(a) => {
                    let x = value_to_i16(a, context, fuel)?;
                    if x == -32768 {
                        Err(InterpreterErr::Overflow)
                    } else {
                        Ok(Val::Int(-x))
                    }
                },
                Op::Add(a, b) => {
                    let l = b.as_int(context, fuel)?;
                    let rr = value_to_i16(a, context, fuel)?;
                    Ok(Val::Int(add16(l, rr)?))
                },
                Op::Sub(a, b) => {
                    let l = b.as_int(context, fuel)?;
                    let rr = value_to_i16(a, context, fuel)?;
                    Ok(Val::Int(sub16(l, rr)?))
                },
                Op::Mul(a, b) => {
                    let l = b.as_int(context, fuel)?;
                    let rr = value_to_i16(a, context, fuel)?;
                    Ok(Val::Int(mul16(l, rr)?))
                },
                Op::Div(a, b) => {
                    let l = b.as_int(context, fuel)?;
                    let rr = value_to_i16(a, context, fuel)?;
                    Ok(Val::Int(div16(l, rr)?))
                },
                Op::Dice(a, b, c) => Ok(Val::Int(b.dice_throw(context, a, c, fuel)?)),
                Op::Cmp(c, b) => {
                    proof {
                        lemma_cmp_arg_view(*c);
                    }
                    let l = b.as_int(context, fuel)?;
                    let rr = value_to_i16(cmp_operand(c), context, fuel)?;
                    Ok(Val::Bool(cmp_holds(c, l, rr)))
                },
            },
        }
    }

    /// Evaluates this expression to an integer.
    pub fn as_int(&self, context: &mut SyntaxContext, fuel: u64) -> (r: Result<
        i16,
        InterpreterErr,
    >)
        requires
            old(context).wf(),
        ensures
            crate::syntax::eval_frame(*old(context), *final(context)),
            (semantics::expr_int(old(context).regs(), model::expr_view(*self)) matches Some(n)
                ==> fuel >= 1 ==> (r matches Ok(x) && x as int == n && *final(context) == *old(context))),
            (model::expr_view(*self) matches model::Expr::Val(model::Val::Ref(id, nm)) ==> !old(context).regs().contains_key(nm) ==> (r matches Err(e) && (e matches
            InterpreterErr::UninitReg(n2) && n2@ == nm) && *final(context) == *old(context))),
            (model::expr_view(*self) matches model::Expr::Op(o2) ==> (*o2 matches
                model::Op::Div(da, db) ==> ((semantics::expr_int(
                old(context).regs(),
                *db,
            ) is Some && semantics::val_int(old(context).regs(), da) == Some(0int) && fuel >= 1)
                ==> (r matches Err(e3) && (e3 matches InterpreterErr::DivisionByZero) && *final(context) == *old(context))))),
        decreases fuel, expr_height(*self), 1int,
    {
        match self {
            Expr::Val(value) => value_to_i16(value, context, fuel),
            Expr::Op(opr) => match opr {
                Op::Neg(a) => {
                    let x = value_to_i16(a, context, fuel)?;
                    if x == -32768 {
                        Err(InterpreterErr::Overflow)
                    } else {
                        Ok(-x)
                    }
                },
                Op::Add(a, b) => {
                    let l = b.as_int(context, fuel)?;
                    let rr = value_to_i16(a, context, fuel)?;
                    add16(l, rr)
                },
                Op::Sub(a, b) => {
                    let l = b.as_int(context, fuel)?;
                    let rr = value_to_i16(a, context, fuel)?;
                    sub16(l, rr)
                },
                Op::Mul(a, b) => {
                    let l = b.as_int(context, fuel)?;
                    let rr = value_to_i16(a, context, fuel)?;
                    mul16(l, rr)
                },
                Op::Div(a, b) => {
                    let l = b.as_int(context, fuel)?;
                    let rr = value_to_i16(a, context, fuel)?;
                    div16(l, rr)
                },
                Op::Dice(a, b, c) => b.dice_throw(context, a, c, fuel),
                Op::Cmp(c, b) => {
                    proof {
                        lemma_cmp_arg_view(*c);
                    }
                    let l = b.as_int(context, fuel)?;
                    let rr = value_to_i16(cmp_operand(c), context, fuel)?;
                    Ok(
                        if cmp_holds(c, l, rr) {
                            1
                        } else {
                            0
                        },
                    )
                },
            },
        }
    }

    /// Evaluates this expression to a boolean under the boolean-algebra
    /// reading of arithmetic nodes.
    pub fn as_bool(&self, context: &mut SyntaxContext, fuel: u64) -> (r: Result<
        bool,
        InterpreterErr,
    >)
        requires
            old(context).wf(),
        ensures
            crate::syntax::eval_frame(*old(context), *final(context)),
            (semantics::expr_bool(old(context).regs(), model::expr_view(*self)) matches Some(n)
                ==> fuel >= 1 ==> (r matches Ok(x) && x == n && *final(context) == *old(context))),
        decreases fuel, expr_height(*self), 1int,
    {
        match self {
            Expr::Val(value) => value_to_bool(value, context, fuel),
            Expr::Op(opr) => match opr {
                Op::Neg(a) => {
                    let x = value_to_bool(a, context, fuel)?;
                    Ok(!x)
                },
                Op::Add(a, b) => {
                    let l = b.as_bool(context, fuel)?;
                    let rr = value_to_bool(a, context, fuel)?;
                    Ok(l || rr)
                },
                Op::Sub(a, b) => {
                    let l = b.as_bool(context, fuel)?;
                    let rr = value_to_bool(a, context, fuel)?;
                    Ok(l && !rr)
                },
                Op::Mul(a, b) => {
                    let l = b.as_bool(context, fuel)?;
                    let rr = value_to_bool(a, context, fuel)?;
                    Ok(l && rr)
                },
                Op::Div(_, b) => b.as_bool(context, fuel),
                Op::Dice(_, b, _) => b.as_bool(context, fuel),
                Op::Cmp(c, b) => match c {
                    CmpTo::Eq(a) => {
                        proof {
                            lemma_cmp_arg_view(*c);
                        }
                        let l = b.as_bool(context, fuel)?;
                        let rr = value_to_bool(a, context, fuel)?;
                        Ok(l == rr)
                    },
                    CmpTo::Ne(a) => {
                        proof {
                            lemma_cmp_arg_view(*c);
                        }
                        let l = b.as_bool(context, fuel)?;
                        let rr = value_to_bool(a, context, fuel)?;
                        Ok(l != rr)
                    },
                    _ => {
                        proof {
                            lemma_cmp_arg_view(*c);
                        }
                        let l = b.as_int(context, fuel)?;
                        let rr = value_to_i16(cmp_operand(c), context, fuel)?;
                        Ok(cmp_holds(c, l, rr))
                    },
                },
            },
        }
    }

    /// Throws dice: this expression gives the number of dice, `face` the
    /// face count, and each draw lies in `1..=face`.  Without a comparator
    /// the result is the sum of the draws; with one it is how many draws
    /// satisfy the comparator against its operand.  A non-positive number
    /// of dice throws nothing and sums to zero; a positive number with no
    /// faces to draw from is a fault.
    #[verifier::rlimit(100)]
    pub fn dice_throw(&self, context: &mut SyntaxContext, face: &Val, cmp: &Option<CmpTo>, fuel:
        u64) -> (r: Result<i16, InterpreterErr>)
        requires
            old(context).wf(),
        ensures
            crate::syntax::eval_frame(*old(context), *final(context)),
            ({
                let env = old(context).regs();
                let fv = semantics::val_int(env, model::val_view(*face));
                let nv = semantics::expr_int(env, model::expr_view(*self));
                fv matches Some(f) ==> (nv matches Some(n) ==> fuel >= 1 ==> {
                    &&& n <= 0 ==> (r matches Ok(x) && x == 0 && *final(context) == *old(context))
                    &&& n > 0 && f < 1 ==> (r matches Err(e) && (e matches
                        InterpreterErr::InvalidDiceFaces) && *final(context) == *old(context))
                    &&& n > 0 && f >= 1 && cmp is None ==> (final(context).regs() == env && final(context).log() == old(context).log() && (r matches Ok(x) ==> (n <= x as int
                        <= n * f && x as int == crate::rand_gen::dice_sum(
                        old(context).rand.state as int,
                        n as nat,
                        f,
                    ) && final(context).rand.state as int == crate::rand_gen::lcg_iter(
                        old(context).rand.state as int,
                        n as nat,
                    ))) && (n * f <= 32767 ==> (r matches Ok(x) && n <= x as int <= n * f)))
                    &&& n > 0 && f >= 1 ==> (cmp matches Some(c) ==> (semantics::val_int(
                        env,
                        model::val_view(semantics_arg(*c)),
                    ) matches Some(m) ==> (final(context).regs() == env && final(context).log() == old(context).log() && (r matches Ok(x) && 0 <= x as int <= n
                        && x as int == crate::rand_gen::dice_count(
                        old(context).rand.state as int,
                        n as nat,
                        f,
                        model::cmp_view(*c),
                        m,
                    )) && final(context).rand.state as int == crate::rand_gen::lcg_iter(
                        old(context).rand.state as int,
                        n as nat,
                    ))))
                })
            }),
        decreases fuel, val_height(*face) + expr_height(*self) + cmp_opt_height(*cmp) + 1, 0int,
    {
        let f = value_to_i16(face, context, fuel)?;
        let n = self.as_int(context, fuel)?;
        let ghost det = semantics::val_int(old(context).regs(), model::val_view(*face)) is Some
            && semantics::expr_int(old(context).regs(), model::expr_view(*self)) is Some && fuel
            >= 1;
        if n <= 0 {
            return Ok(0);
        }
        if f < 1 {
            return Err(InterpreterErr::InvalidDiceFaces);
        }
        let mut sum: i16 = 0;
        let mut k: i16 = 0;
        match cmp {
            None => {
                let mut rng = context.rand;
                let res = roll_sum(&mut rng, n, f);
                context.rand = rng;
                res
            },
            Some(c) => {
                proof {
                    assert(val_height(semantics_arg(*c)) < val_height(*face) + expr_height(*self)
                        + cmp_opt_height(*cmp) + 1);
                }
                while k < n
                    invariant
                        *cmp matches Some(cc) && cc == *c,
                        0 <= k <= n,
                        1 <= n,
                        1 <= f,
                        0 <= sum as int <= k as int,
                        n <= 32767,
                        det ==> (semantics::val_int(
                            old(context).regs(),
                            model::val_view(semantics_arg(*c)),
                        ) matches Some(m) ==> (context.rand.state as int
                            == crate::rand_gen::lcg_iter(
                            old(context).rand.state as int,
                            k as nat,
                        ) && sum as int == crate::rand_gen::dice_count(
                            old(context).rand.state as int,
                            k as nat,
                            f as int,
                            model::cmp_view(*c),
                            m,
                        ))),
                        old(context).wf(),
                        context.wf(),
                        context.next_tokens == old(context).next_tokens,
                        context.token_index == old(context).token_index,
                        val_height(semantics_arg(*c)) < val_height(*face) + expr_height(*self)
                            + cmp_opt_height(*cmp) + 1,
                        det ==> fuel >= 1,
                        (det && semantics::val_int(
                            old(context).regs(),
                            model::val_view(semantics_arg(*c)),
                        ) is Some) ==> (context.regs() == old(context).regs() && context.log()
                            == old(context).log()),
                        det ==> semantics::val_int(old(context).regs(), model::val_view(*face))
                            == Some(f as int) && semantics::expr_int(
                            old(context).regs(),
                            model::expr_view(*self),
                        ) == Some(n as int),
                        det == (semantics::val_int(
                            old(context).regs(),
                            model::val_view(*face),
                        ) is Some && semantics::expr_int(
                            old(context).regs(),
                            model::expr_view(*self),
                        ) is Some && fuel >= 1),
                    decreases n - k,
                {
                    let d = context.rand.draw(f);
                    proof {
                        match semantics::val_int(
                            old(context).regs(),
                            model::val_view(semantics_arg(*c)),
                        ) {
                            Some(mv) => {
                                lemma_count_step(
                                    old(context).rand.state as int,
                                    k as int,
                                    f as int,
                                    model::cmp_view(*c),
                                    mv,
                                );
                            },
                            None => {},
                        }
                    }
                    let m = value_to_i16(cmp_operand(c), context, fuel)?;
                    if cmp_holds(c, d, m) {
                        sum = sum + 1;
                    }
                    k = k + 1;
                }
                Ok(sum)
            },
        }
    }
}

/// Viewing a comparator's operand commutes with viewing the comparator.
proof fn lemma_cmp_arg_view(c: CmpTo)
    ensures
        model::val_view(semantics_arg(c)) == semantics::cmp_arg(model::cmp_view(c)),
        val_height(semantics_arg(c)) < cmp_height(c),
{
    match c {
        CmpTo::Eq(_) => {},
        CmpTo::Ne(_) => {},
        CmpTo::Gt(_) => {},
        CmpTo::Ge(_) => {},
        CmpTo::Lt(_) => {},
        CmpTo::Le(_) => {},
    }
}

/// One step of a dice sum: the bounds move with the draw, and the sum and
/// state advance by exactly one recurrence step.
proof fn lemma_dice_step(s0: int, k: int, n: int, f: int, sum: int, d: int)
    requires
        0 <= k < n,
        1 <= f,
        k <= sum <= k * f,
        1 <= d <= f,
    ensures
        k + 1 <= sum + d <= (k + 1) * f,
        (k + 1) * f <= n * f,
        crate::rand_gen::lcg_iter(s0, (k + 1) as nat) == crate::rand_gen::lcg_step(
            crate::rand_gen::lcg_iter(s0, k as nat),
        ),
        crate::rand_gen::dice_sum(s0, (k + 1) as nat, f) == crate::rand_gen::dice_sum(
            s0,
            k as nat,
            f,
        ) + crate::rand_gen::face_of(crate::rand_gen::lcg_iter(s0, (k + 1) as nat), f),
{
    reveal_with_fuel(crate::rand_gen::lcg_iter, 2);
    reveal_with_fuel(crate::rand_gen::dice_sum, 2);
    assert((k + 1) * f == k * f + f) by (nonlinear_arith);
    assert((k + 1) * f <= n * f) by (nonlinear_arith)
        requires
            0 <= k < n,
            1 <= f,
    ;
}

/// One step of a success count: the state and the count advance by exactly
/// one recurrence step.
proof fn lemma_count_step(s0: int, k: int, f: int, c: model::CmpTo, m: int)
    requires
        0 <= k,
    ensures
        crate::rand_gen::lcg_iter(s0, (k + 1) as nat) == crate::rand_gen::lcg_step(
            crate::rand_gen::lcg_iter(s0, k as nat),
        ),
        crate::rand_gen::dice_count(s0, (k + 1) as nat, f, c, m) == crate::rand_gen::dice_count(
            s0,
            k as nat,
            f,
            c,
            m,
        ) + (
        if semantics::cmp_table(
            c,
            crate::rand_gen::face_of(crate::rand_gen::lcg_iter(s0, (k + 1) as nat), f),
            m,
        ) {
            1int
        } else {
            0int
        }),
{
    reveal_with_fuel(crate::rand_gen::lcg_iter, 2);
    reveal_with_fuel(crate::rand_gen::dice_count, 2);
}

/// Rolls a run of dice, summing the draws; the sum and the final generator
/// state are pure functions of the starting state, which is what a fixed
/// seed reproduces.  A sum that leaves the 16-bit range is the overflow
/// fault.
fn roll_sum(rng: &mut crate::rand_gen::RandState, n: i16, f: i16) -> (r: Result<
    i16,
    InterpreterErr,
>)
    requires
        1 <= n,
        1 <= f,
    ensures
        (r matches Ok(x) ==> (n <= x as int <= (n as int) * (f as int) && x as int
            == crate::rand_gen::dice_sum(old(rng).state as int, n as nat, f as int) && final(rng).state as int == crate::rand_gen::lcg_iter(old(rng).state as int, n as nat))),
        ((n as int) * (f as int) <= 32767 ==> r matches Ok(_)),
        (r matches Err(e) ==> e matches InterpreterErr::Overflow),
{
    proof {
        reveal_with_fuel(crate::rand_gen::lcg_iter, 1);
        reveal_with_fuel(crate::rand_gen::dice_sum, 1);
        assert(crate::rand_gen::lcg_iter(old(rng).state as int, 0nat) == old(rng).state as int);
        assert(crate::rand_gen::dice_sum(old(rng).state as int, 0nat, f as int) == 0);
    }
    let mut sum: i16 = 0;
    let mut k: i16 = 0;
    while k < n
        invariant
            0 <= k <= n,
            1 <= n,
            1 <= f,
            k as int <= sum as int <= (k as int) * (f as int),
            rng.state as int == crate::rand_gen::lcg_iter(old(rng).state as int, k as nat),
            sum as int == crate::rand_gen::dice_sum(
                old(rng).state as int,
                k as nat,
                f as int,
            ),
        decreases n - k,
    {
        let d = rng.draw(f);
        proof {
            lemma_dice_step(
                old(rng).state as int,
                k as int,
                n as int,
                f as int,
                sum as int,
                d as int,
            );
        }
        let s: i32 = (sum as i32) + (d as i32);
        if s > 32767 {
            return Err(InterpreterErr::Overflow);
        }
        sum = s as i16;
        k = k + 1;
    }
    Ok(sum)
}

/// The executable right-hand operand of a comparator.
fn cmp_operand(c: &CmpTo) -> (r: &Val)
    ensures
        *r == semantics_arg(*c),
{
    match c {
        CmpTo::Eq(v) => v,
        CmpTo::Ne(v) => v,
        CmpTo::Gt(v) => v,
        CmpTo::Ge(v) => v,
        CmpTo::Lt(v) => v,
        CmpTo::Le(v) => v,
    }
}

/// Decides one comparator against two integers, following the table of the
/// language: `Gt` holds at or above, `Ge` strictly above.
fn cmp_holds(c: &CmpTo, l: i16, r: i16) -> (res: bool)
    ensures
        res == semantics::cmp_table(model::cmp_view(*c), l as int, r as int),
{
    match c {
        CmpTo::Eq(_) => l == r,
        CmpTo::Ne(_) => l != r,
        CmpTo::Gt(_) => l >= r,
        CmpTo::Ge(_) => l > r,
        CmpTo::Lt(_) => l < r,
        CmpTo::Le(_) => l <= r,
    }
}

/// Reads a terminal value as an integer, the way arithmetic operands are
/// read: the coercion tag of a reference is ignored and the stored value is
/// reinterpreted directly.
pub(crate) fn value_to_i16(v: &Val, context: &mut SyntaxContext, fuel: u64) -> (r: Result<
    i16,
    InterpreterErr,
>)
    requires
        old(context).wf(),
    ensures
        crate::syntax::eval_frame(*old(context), *final(context)),
        (semantics::val_int(old(context).regs(), model::val_view(*v)) matches Some(n) ==> fuel
            >= 1 ==> (r matches Ok(x) && x as int == n && *final(context) == *old(context))),
        (!(*v matches Val::Ref(_, _)) && !(*v matches Val::Expr(_)) ==> (r matches Ok(x) && Some(
            x as int,
        ) == semantics::val_int(old(context).regs(), model::val_view(*v)) && *final(context)
            == *old(context))),
        (model::val_view(*v) matches model::Val::Ref(id, nm) ==> !old(context).regs().contains_key(nm) ==> (r matches Err(e) && (e matches InterpreterErr::UninitReg(
            n2,
        ) && n2@ == nm) && *final(context) == *old(context))),
    decreases fuel, val_height(*v), 0int,
{
    match v {
        Val::Int(i) => Ok(*i),
        Val::Bool(b) => Ok(
            if *b {
                1
            } else {
                0
            },
        ),
        Val::Void => Ok(0),
        Val::Expr(e) => (**e).as_int(context, fuel),
        Val::Ref(_, name) => {
            let p = context.reg(name)?.clone();
            if fuel == 0 {
                return Err(InterpreterErr::RecursionLimit);
            }
            let rv = p.as_val(context, fuel - 1)?;
            value_to_i16(&rv, context, fuel - 1)
        },
    }
}

/// Reads a terminal value as a boolean, the way conditions read their
/// operands.
pub(crate) fn value_to_bool(v: &Val, context: &mut SyntaxContext, fuel: u64) -> (r: Result<
    bool,
    InterpreterErr,
>)
    requires
        old(context).wf(),
    ensures
        crate::syntax::eval_frame(*old(context), *final(context)),
        (semantics::val_bool(old(context).regs(), model::val_view(*v)) matches Some(n) ==> fuel
            >= 1 ==> (r matches Ok(x) && x == n && *final(context) == *old(context))),
        (!(*v matches Val::Ref(_, _)) && !(*v matches Val::Expr(_)) ==> (r matches Ok(x) && Some(
            x,
        ) == semantics::val_bool(old(context).regs(), model::val_view(*v)) && *final(context)
            == *old(context))),
    decreases fuel, val_height(*v), 0int,
{
    match v {
        Val::Int(i) => Ok(*i != 0),
        Val::Bool(b) => Ok(*b),
        Val::Void => Ok(false),
        Val::Expr(e) => (**e).as_bool(context, fuel),
        Val::Ref(_, name) => {
            let p = context.reg(name)?.clone();
            if fuel == 0 {
                return Err(InterpreterErr::RecursionLimit);
            }
            let rv = p.as_val(context, fuel - 1)?;
            value_to_bool(&rv, context, fuel - 1)
        },
    }
}

impl Val {
    /// Resolves a reference one level: a reference reads its register, any
    /// other value stands as it is.
    pub fn unwraped(&self, context: &mut SyntaxContext, fuel: u64) -> (r: Result<
        Val,
        InterpreterErr,
    >)
        requires
            old(context).wf(),
        ensures
            crate::syntax::eval_frame(*old(context), *final(context)),
            (!v_is_ref(self) ==> (r matches Ok(x) && model::val_view(x) == model::val_view(
                *self,
            ) && *final(context) == *old(context))),
            (model::val_view(*self) matches model::Val::Ref(id, nm) ==> (old(context).regs().contains_key(nm) && !(old(context).regs()[nm] is Proc) && fuel >= 1) ==> (r
                matches Ok(x) && Some(model::val_view(x)) == semantics::prim_val(
                old(context).regs()[nm],
            ) && *final(context) == *old(context))),
            (model::val_view(*self) matches model::Val::Ref(id, nm) ==> !old(context).regs().contains_key(nm) ==> (r matches Err(e) && (e matches
            InterpreterErr::UninitReg(n2) && n2@ == nm) && *final(context) == *old(context))),
        decreases fuel, val_height(*self), 0int,
    {
        match self {
            Val::Ref(_, name) => {
                let p = context.reg(name)?.clone();
                if fuel == 0 {
                    return Err(InterpreterErr::RecursionLimit);
                }
                p.as_val(context, fuel - 1)
            },
            _ => Ok(self.clone()),
        }
    }

    /// Fully resolves this value to a storable primitive, recursing through
    /// nested expressions; a reference hands back its register's stored
    /// primitive as it is.
    pub fn as_primitive(&self, context: &mut SyntaxContext, fuel: u64) -> (r: Result<
        Primitive,
        InterpreterErr,
    >)
        requires
            old(context).wf(),
        ensures
            crate::syntax::eval_frame(*old(context), *final(context)),
            (semantics::val_prim(old(context).regs(), model::val_view(*self)) matches Some(p)
                ==> fuel >= 2 ==> (r matches Ok(x) && model::prim_view(x) == p && *final(context)
                == *old(context))),
            (!(*self matches Val::Ref(_, _)) && !(*self matches Val::Expr(_)) ==> (r matches Ok(x)
                && Some(model::prim_view(x)) == semantics::val_prim(
                old(context).regs(),
                model::val_view(*self),
            ) && *final(context) == *old(context))),
            (model::val_view(*self) matches model::Val::Expr(e2) ==> (*e2 matches
                model::Expr::Val(v2) && semantics::is_flat(v2) && fuel >= 1) ==> (r matches Ok(x)
                && Some(model::prim_view(x)) == semantics::val_prim(
                old(context).regs(),
                model::val_view(*self),
            ) && *final(context) == *old(context))),
        decreases fuel, val_height(*self), 0int,
    {
        match self {
            Val::Int(i) => Ok(Primitive::Int(*i)),
            Val::Bool(b) => Ok(Primitive::Bool(*b)),
            Val::Void => Ok(Primitive::Void),
            Val::Ref(_, name) => Ok(context.reg(name)?.clone()),
            Val::Expr(e) => {
                proof {
                    semantics::lemma_expr_val_shape(old(context).regs(), model::expr_view(**e));
                }
                let rv = (**e).as_val(context, fuel)?;
                if fuel == 0 {
                    return Err(InterpreterErr::RecursionLimit);
                }
                rv.as_primitive(context, fuel - 1)
            },
        }
    }

    /// Coerces this value to an integer-valued terminal.
    fn as_int(&self, context: &mut SyntaxContext, fuel: u64) -> (r: Result<Val, InterpreterErr>)
        requires
            old(context).wf(),
        ensures
            crate::syntax::eval_frame(*old(context), *final(context)),
            (semantics::val_int(old(context).regs(), model::val_view(*self)) matches Some(n)
                ==> fuel >= 1 ==> (r matches Ok(x) && model::val_view(x) == model::Val::Int(
                n as i16,
            ) && *final(context) == *old(context))),
            (!(*self matches Val::Ref(_, _)) && !(*self matches Val::Expr(_)) ==> (r matches Ok(x)
                && (semantics::val_int(old(context).regs(), model::val_view(*self)) matches Some(
                n,
            ) && model::val_view(x) == model::Val::Int(n as i16)) && *final(context) == *old(context))),
        decreases fuel, val_height(*self), 1int,
    {
        let x = value_to_i16(self, context, fuel)?;
        Ok(Val::Int(x))
    }

    /// Coerces this value to a boolean-valued terminal.
    fn as_bool(&self, context: &mut SyntaxContext, fuel: u64) -> (r: Result<Val, InterpreterErr>)
        requires
            old(context).wf(),
        ensures
            crate::syntax::eval_frame(*old(context), *final(context)),
            (semantics::val_bool(old(context).regs(), model::val_view(*self)) matches Some(n)
                ==> fuel >= 1 ==> (r matches Ok(x) && model::val_view(x) == model::Val::Bool(n)
                && *final(context) == *old(context))),
            (!(*self matches Val::Ref(_, _)) && !(*self matches Val::Expr(_)) ==> (r matches Ok(x)
                && (semantics::val_bool(old(context).regs(), model::val_view(*self)) matches Some(
                n,
            ) && model::val_view(x) == model::Val::Bool(n)) && *final(context) == *old(context))),
        decreases fuel, val_height(*self), 1int,
    {
        let x = value_to_bool(self, context, fuel)?;
        Ok(Val::Bool(x))
    }

    /// Coerces this value to the void terminal, discarding it.
    fn as_void(&self, context: &mut SyntaxContext, fuel: u64) -> (r: Result<Val, InterpreterErr>)
        ensures
            *final(context) == *old(context),
            r matches Ok(x) && model::val_view(x) == model::Val::Void,
    {
        Ok(Val::Void)
    }

    /// Wraps this value as a deferred, zero-argument expression.
    fn as_proc(&self, context: &mut SyntaxContext, fuel: u64) -> (r: Result<Val, InterpreterErr>)
        ensures
            *final(context) == *old(context),
            r matches Ok(x) && model::val_view(x) == model::Val::Expr(
                Box::new(model::Expr::Val(model::val_view(*self))),
            ),
    {
        Ok(Val::Expr(Box::new(Expr::Val(self.clone()))))
    }
}

/// Whether a value is a reference, spelled as a helper for contracts.
pub open spec fn v_is_ref(v: &Val) -> bool {
    *v matches Val::Ref(_, _)
}

} // verus!
