//! The mathematical model of the expression grammar.
//!
//! These spec functions mirror the recursive-descent expression parser over
//! a token sequence: wherever one of them returns `Some`, the executable
//! parser is bound by contract to produce exactly that tree and leave
//! exactly that remainder.  A parse that evaluates while it parses (the
//! force-to-integer term) or that runs off the grammar is left `None`: the
//! executable parser then reports one of the parse faults.

use vstd::prelude::*;

use crate::generic::PrimitiveId;
use crate::model::{CmpTo, Decl, Expr, Op, Prim, Stm, Val};
use crate::tokens::WsToken;

verus! {

/// Parses a bracketed reference: `[`, a name, and the closing `]`,
/// consuming exactly three tokens.
pub open spec fn parse_ref(ts: Seq<WsToken>) -> Option<(Seq<u8>, Seq<WsToken>)> {
    if ts.len() >= 3 && ts[0] is LeftBracket && ts[2] is RightBracket {
        match ts[1] {
            WsToken::Ident(n) => Some((n@, ts.skip(3))),
            _ => None,
        }
    } else {
        None
    }
}

/// The comparator a dice suffix builds from one comparison token.
pub open spec fn dice_cmp(t: WsToken, c: Val) -> Option<CmpTo> {
    match t {
        WsToken::Eq => Some(CmpTo::Eq(c)),
        WsToken::Ne => Some(CmpTo::Ne(c)),
        WsToken::Gt => Some(CmpTo::Gt(c)),
        WsToken::Ge => Some(CmpTo::Ge(c)),
        WsToken::Lt => Some(CmpTo::Lt(c)),
        WsToken::Le => Some(CmpTo::Le(c)),
        _ => None,
    }
}

/// Whether a token opens a statement.
pub open spec fn is_stm_tok(t: WsToken) -> bool {
    ||| t is Let
    ||| t is SetKw
    ||| t is Def
    ||| t is Tell
    ||| t is If
    ||| t is While
    ||| t is Out
}

/// Whether a token is one of the operators the outer fold recognises.
pub open spec fn is_fold_tok(t: WsToken) -> bool {
    ||| t is Plus
    ||| t is Minus
    ||| t is Star
    ||| t is Slash
    ||| t is Dice
    ||| t is Eq
    ||| t is Ne
    ||| t is Gt
    ||| t is Ge
    ||| t is Lt
    ||| t is Le
}

/// The operation node the outer fold builds when it meets one operator
/// token: the freshly parsed term `b` becomes the plain value and the
/// accumulated tree `a` the nested expression.
pub open spec fn fold_op(t: WsToken, a: Expr, b: Val) -> Option<Expr> {
    match t {
        WsToken::Plus => Some(Expr::Op(Box::new(Op::Add(b, Box::new(a))))),
        WsToken::Minus => Some(Expr::Op(Box::new(Op::Sub(b, Box::new(a))))),
        WsToken::Star => Some(Expr::Op(Box::new(Op::Mul(b, Box::new(a))))),
        WsToken::Slash => Some(Expr::Op(Box::new(Op::Div(b, Box::new(a))))),
        WsToken::Dice => Some(Expr::Op(Box::new(Op::Dice(b, Box::new(a), None)))),
        WsToken::Eq => Some(Expr::Op(Box::new(Op::Cmp(CmpTo::Eq(b), Box::new(a))))),
        WsToken::Ne => Some(Expr::Op(Box::new(Op::Cmp(CmpTo::Ne(b), Box::new(a))))),
        WsToken::Gt => Some(Expr::Op(Box::new(Op::Cmp(CmpTo::Gt(b), Box::new(a))))),
        WsToken::Ge => Some(Expr::Op(Box::new(Op::Cmp(CmpTo::Ge(b), Box::new(a))))),
        WsToken::Lt => Some(Expr::Op(Box::new(Op::Cmp(CmpTo::Lt(b), Box::new(a))))),
        WsToken::Le => Some(Expr::Op(Box::new(Op::Cmp(CmpTo::Le(b), Box::new(a))))),
        _ => None,
    }
}

/// Parses the head of a term: a literal, the void mark, a negation, a
/// parenthesised sub-expression, or a type keyword with a reference.
pub open spec fn parse_head(ts: Seq<WsToken>) -> Option<(Val, Seq<WsToken>)>
    decreases ts.len(), 0int,
{
    if ts.len() == 0 {
        None
    } else {
        match ts[0] {
            WsToken::DigitLit(a) => Some((Val::Int(a), ts.skip(1))),
            WsToken::Ellipsis => Some((Val::Void, ts.skip(1))),
            WsToken::Minus => match parse_value(ts.skip(1)) {
                Some((b, r)) => Some((Val::Expr(Box::new(Expr::Op(Box::new(Op::Neg(b))))), r)),
                None => None,
            },
            WsToken::Tide => None,
            WsToken::LeftParen => match parse_expr(ts.skip(1), None, WsToken::RightParen) {
                Some((e, r)) => Some((Val::Expr(Box::new(e)), r)),
                None => None,
            },
            WsToken::Int => match parse_ref(ts.skip(1)) {
                Some((n, r)) => Some((Val::Ref(PrimitiveId::Int, n), r)),
                None => None,
            },
            WsToken::Bool => match parse_ref(ts.skip(1)) {
                Some((n, r)) => Some((Val::Ref(PrimitiveId::Bool, n), r)),
                None => None,
            },
            WsToken::Void => match parse_ref(ts.skip(1)) {
                Some((n, r)) => Some((Val::Ref(PrimitiveId::Void, n), r)),
                None => None,
            },
            _ => None,
        }
    }
}

/// Parses one term together with the tightly binding suffixes `*`, `/` and
/// the dice operator with its optional comparator.
pub open spec fn parse_value(ts: Seq<WsToken>) -> Option<(Val, Seq<WsToken>)>
    decreases ts.len(), 1int,
{
    match parse_head(ts) {
        Some((a, r)) => if r.len() < ts.len() {
            parse_suffix(ts, a, r)
        } else {
            None
        },
        None => None,
    }
}

/// Parses the suffix of a term: nothing, a `*` or `/` and another term, or
/// the dice operator with an optional `: cmp value` success test.
pub open spec fn parse_suffix(ts: Seq<WsToken>, a: Val, r: Seq<WsToken>) -> Option<(
    Val,
    Seq<WsToken>,
)>
    decreases ts.len(), 0int,
{
    if r.len() == 0 || r.len() >= ts.len() {
        None
    } else {
        match r[0] {
            WsToken::Star => match parse_value(r.skip(1)) {
                Some((b, r2)) => Some(
                    (Val::Expr(Box::new(Expr::Op(Box::new(Op::Mul(b, Box::new(Expr::Val(a))))))), r2),
                ),
                None => None,
            },
            WsToken::Slash => match parse_value(r.skip(1)) {
                Some((b, r2)) => Some(
                    (Val::Expr(Box::new(Expr::Op(Box::new(Op::Div(b, Box::new(Expr::Val(a))))))), r2),
                ),
                None => None,
            },
            WsToken::Dice => match parse_value(r.skip(1)) {
                Some((b, r2)) => if r2.len() >= 1 && r2[0] is Colon {
                    if r2.len() >= 2 && r2.len() < ts.len() {
                        match parse_value(r2.skip(2)) {
                            Some((c, r3)) => match dice_cmp(r2[1], c) {
                                Some(cm) => Some(
                                    (
                                        Val::Expr(
                                            Box::new(
                                                Expr::Op(
                                                    Box::new(
                                                        Op::Dice(
                                                            b,
                                                            Box::new(Expr::Val(a)),
                                                            Some(cm),
                                                        ),
                                                    ),
                                                ),
                                            ),
                                        ),
                                        r3,
                                    ),
                                ),
                                None => None,
                            },
                            None => None,
                        }
                    } else {
                        None
                    }
                } else if r2.len() >= 1 {
                    Some(
                        (
                            Val::Expr(
                                Box::new(Expr::Op(Box::new(Op::Dice(b, Box::new(Expr::Val(a)), None)))),
                            ),
                            r2,
                        ),
                    )
                } else {
                    None
                },
                None => None,
            },
            _ => Some((a, r)),
        }
    }
}

/// Parses an expression: terms folded strictly left to right, ending at,
/// and consuming, the end token.
pub open spec fn parse_expr(ts: Seq<WsToken>, input: Option<Expr>, end: WsToken) -> Option<(
    Expr,
    Seq<WsToken>,
)>
    decreases ts.len(), 2int,
{
    if ts.len() == 0 {
        None
    } else if crate::tokens::token_eq_spec(ts[0], end) {
        match input {
            Some(e) => Some((e, ts.skip(1))),
            None => None,
        }
    } else {
        match input {
            Some(e) => if ts.len() >= 2 {
                match parse_value(ts.skip(1)) {
                    Some((b, r)) => match fold_op(ts[0], e, b) {
                        Some(e2) => if r.len() < ts.len() {
                            parse_expr(r, Some(e2), end)
                        } else {
                            None
                        },
                        None => None,
                    },
                    None => None,
                }
            } else {
                None
            },
            None => match parse_value(ts) {
                Some((v, r)) => if r.len() < ts.len() {
                    parse_expr(r, Some(Expr::Val(v)), end)
                } else {
                    None
                },
                None => None,
            },
        }
    }
}

/// The register environment the statement grammar threads: a `define`
/// binds its name to the deferred procedure at scan time.
pub type ScanEnv = Map<Seq<u8>, Prim>;

/// Parses a declaration: after the lead token a single expression
/// terminated by a semicolon, after a colon a block of statements ending at
/// the end-of-block sentinel.
pub open spec fn parse_decl(ts: Seq<WsToken>, lead: WsToken, env: ScanEnv) -> Option<(
    Decl,
    Seq<WsToken>,
    ScanEnv,
)>
    decreases ts.len(), 3int,
{
    if ts.len() == 0 {
        None
    } else if crate::tokens::token_eq_spec(ts[0], lead) {
        match parse_expr(ts.skip(1), None, WsToken::SemiColon) {
            Some((e, r)) => Some((Decl::Expr(e), r, env)),
            None => None,
        }
    } else if ts[0] is Colon {
        match parse_stms(ts.skip(1), Seq::empty(), WsToken::Eos, env) {
            Some((ss, r, env2)) => Some((Decl::Closure(ss), r, env2)),
            None => None,
        }
    } else {
        None
    }
}

/// Parses statements until, and consuming, the end token, appending each to
/// the accumulator; a `define` stores its unevaluated declaration in the
/// environment and appends nothing.
pub open spec fn parse_stms(ts: Seq<WsToken>, acc: Seq<Stm>, end: WsToken, env: ScanEnv) -> Option<
    (Seq<Stm>, Seq<WsToken>, ScanEnv),
>
    decreases ts.len(), 4int,
{
    if ts.len() == 0 {
        None
    } else if crate::tokens::token_eq_spec(ts[0], end) {
        Some((acc, ts.skip(1), env))
    } else {
        match ts[0] {
            WsToken::Let => match parse_ref(ts.skip(1)) {
                Some((nm, r1)) => match parse_decl(r1, WsToken::InArrow, env) {
                    Some((d, r2, env2)) => if r2.len() < ts.len() {
                        parse_stms(r2, acc.push(Stm::RegLet(nm, d)), end, env2)
                    } else {
                        None
                    },
                    None => None,
                },
                None => None,
            },
            WsToken::SetKw => match parse_ref(ts.skip(1)) {
                Some((nm, r1)) => match parse_decl(r1, WsToken::InArrow, env) {
                    Some((d, r2, env2)) => if r2.len() < ts.len() {
                        parse_stms(r2, acc.push(Stm::RegSet(nm, d)), end, env2)
                    } else {
                        None
                    },
                    None => None,
                },
                None => None,
            },
            WsToken::Def => match parse_ref(ts.skip(1)) {
                Some((nm, r1)) => match parse_decl(r1, WsToken::InArrow, env) {
                    Some((d, r2, env2)) => if r2.len() < ts.len() {
                        parse_stms(r2, acc, end, env2.insert(nm, Prim::Proc(d)))
                    } else {
                        None
                    },
                    None => None,
                },
                None => None,
            },
            WsToken::Tell => if ts.len() >= 2 && crate::tokens::token_eq_spec(
                ts[1],
                WsToken::OutArrow,
            ) {
                match parse_expr(ts.skip(2), None, WsToken::SemiColon) {
                    Some((e, r1)) => if r1.len() < ts.len() {
                        parse_stms(r1, acc.push(Stm::Tell(e)), end, env)
                    } else {
                        None
                    },
                    None => None,
                }
            } else {
                None
            },
            WsToken::Out => if ts.len() >= 2 && crate::tokens::token_eq_spec(
                ts[1],
                WsToken::OutArrow,
            ) {
                match parse_expr(ts.skip(2), None, WsToken::SemiColon) {
                    Some((e, r1)) => if r1.len() < ts.len() {
                        parse_stms(r1, acc.push(Stm::Out(e)), end, env)
                    } else {
                        None
                    },
                    None => None,
                }
            } else {
                None
            },
            WsToken::If => if ts.len() >= 2 && crate::tokens::token_eq_spec(
                ts[1],
                WsToken::Pipe,
            ) {
                match parse_expr(ts.skip(2), None, WsToken::Pipe) {
                    Some((c, r1)) => if r1.len() < ts.len() {
                        match parse_decl(r1, WsToken::OutArrow, env) {
                            Some((d, r2, env2)) => if r2.len() < ts.len() {
                                parse_stms(r2, acc.push(Stm::If(c, d)), end, env2)
                            } else {
                                None
                            },
                            None => None,
                        }
                    } else {
                        None
                    },
                    None => None,
                }
            } else {
                None
            },
            WsToken::While => if ts.len() >= 2 && crate::tokens::token_eq_spec(
                ts[1],
                WsToken::Pipe,
            ) {
                match parse_expr(ts.skip(2), None, WsToken::Pipe) {
                    Some((c, r1)) => if r1.len() < ts.len() {
                        match parse_decl(r1, WsToken::OutArrow, env) {
                            Some((d, r2, env2)) => if r2.len() < ts.len() {
                                parse_stms(r2, acc.push(Stm::While(c, d)), end, env2)
                            } else {
                                None
                            },
                            None => None,
                        }
                    } else {
                        None
                    },
                    None => None,
                }
            } else {
                None
            },
            _ => None,
        }
    }
}

} // verus!
