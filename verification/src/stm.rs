//! The statements of the language and the declarations they bind:
//! register bindings, conditionals, loops, output and diagnostics.

use vstd::prelude::*;

use crate::expr::{value_to_bool, Expr};
use crate::generic::Primitive;
use crate::model;
use crate::semantics;
use crate::syntax::{eval_frame, InterpreterErr, SyntaxContext};
use crate::tokens::WsToken;

verus! {

/// The recursion and iteration budget one top-level run is given: every
/// procedure resolution, nested declaration and loop iteration spends from
/// it, so that evaluation always answers, if need be with the budget fault.
pub const EVAL_FUEL: u64 = 1000000;

/// A statement of the language.
#[derive(Debug)]
pub enum Stm {
    RegLet(Vec<u8>, Decl),
    RegSet(Vec<u8>, Decl),
    While(Expr, Decl),
    If(Expr, Decl),
    Tell(Expr),
    Out(Expr),
}

/// A declaration: a single terminated expression, or a block of statements
/// evaluated with early-return semantics.
#[derive(Debug)]
pub enum Decl {
    Expr(Expr),
    Closure(Vec<Stm>),
}

impl Clone for Stm {
    /// A clone of a statement stands for the same model statement.
    fn clone(&self) -> (res: Self)
        ensures
            model::stm_view(res) == model::stm_view(*self),
        decreases self,
    {
        match self {
            Stm::RegLet(name, d) => Stm::RegLet(clone_name(name), d.clone()),
            Stm::RegSet(name, d) => Stm::RegSet(clone_name(name), d.clone()),
            Stm::While(e, d) => Stm::While(e.clone(), d.clone()),
            Stm::If(e, d) => Stm::If(e.clone(), d.clone()),
            Stm::Tell(e) => Stm::Tell(e.clone()),
            Stm::Out(e) => Stm::Out(e.clone()),
        }
    }
}

impl Clone for Decl {
    /// A clone of a declaration stands for the same model declaration.
    fn clone(&self) -> (res: Self)
        ensures
            model::decl_view(res) == model::decl_view(*self),
        decreases self,
    {
        match self {
            Decl::Expr(e) => Decl::Expr(e.clone()),
            Decl::Closure(stms) => Decl::Closure(clone_stms(stms)),
        }
    }
}

/// Whether a run result matches how a deterministic block ended: a yielded
/// expression comes back as the result, a run-through yields nothing, and a
/// `set` of an unbound name is the uninitialised register fault.
pub open spec fn block_result(
    q2: semantics::BlockEnd,
    r: Result<Option<Expr>, InterpreterErr>,
) -> bool {
    match q2 {
        semantics::BlockEnd::Yielded(e) => r matches Ok(Some(x)) && model::expr_view(x) == e,
        semantics::BlockEnd::Ran => r matches Ok(None),
        semantics::BlockEnd::SetUnbound(nm) => r matches Err(er) && (er matches
        InterpreterErr::UninitReg(n2) && n2@ == nm),
    }
}

/// The register environment after storing a primitive under a name: the
/// void value unbinds, any other value binds.
pub open spec fn stored_env(env: semantics::Env, nm: Seq<u8>, p: model::Prim) -> semantics::Env {
    if p is Void {
        env.remove(nm)
    } else {
        env.insert(nm, p)
    }
}

impl Stm {
    /// Scans statements off the front of the token queue until the end
    /// token, which is consumed, appending each recognised statement to
    /// `input`.  A `define` binds its name to a deferred procedure at scan
    /// time and appends no statement.  On the statement grammar the
    /// produced statements, the remaining queue and the scan-time register
    /// effect are pinned exactly.
    #[verifier::rlimit(100)]
    pub fn scan(context: &mut SyntaxContext, input: Vec<Stm>, end_token: WsToken) -> (r: Result<
        Vec<Stm>,
        InterpreterErr,
    >)
        requires
            old(context).wf(),
        ensures
            final(context).wf(),
            final(context).toks().len() <= old(context).toks().len(),
            (crate::grammar::parse_stms(
                old(context).toks(),
                model::stms_view(input@),
                end_token,
                old(context).regs(),
            ) matches Some(p) ==> (r matches Ok(out) && model::stms_view(out@) == p.0 && final(context).toks() == p.1 && final(context).regs() == p.2 && final(context).rand == old(context).rand && final(context).output == old(context).output)),
            ((old(context).toks().len() > 0 && !crate::tokens::token_eq_spec(
                old(context).toks()[0],
                end_token,
            ) && !crate::grammar::is_stm_tok(old(context).toks()[0])) ==> (r matches Err(e2) && (
            e2 matches InterpreterErr::WrongToken(ix, tk) && ix == old(context).token_index
                && crate::tokens::token_eq_spec(tk, old(context).toks()[0])) && *final(context)
                == *old(context))),
            (old(context).toks().len() == 0 ==> (r matches Err(e2) && (e2 matches
            InterpreterErr::WrongEof(ix) && ix == old(context).token_index) && *final(context)
                == *old(context))),
        decreases context.toks().len(), 1int,
    {
        proof {
            reveal_with_fuel(crate::grammar::parse_stms, 2);
            reveal_with_fuel(crate::grammar::parse_decl, 2);
            if old(context).toks().len() > 0 {
                assert(old(context).toks().drop_first() =~= old(context).toks().skip(1));
                assert(old(context).toks().drop_first() == old(context).toks().skip(1));
                if old(context).toks().len() > 1 {
                    assert(old(context).toks().drop_first().drop_first() =~= old(context).toks().skip(2));
                    assert(old(context).toks().drop_first().drop_first() == old(context).toks().skip(2));
                }
            }
        }
        if context.peek().is_none() {
            return Err(InterpreterErr::WrongEof(context.token_index()));
        }
        let at_end = match context.peek() {
            Some(t) => crate::tokens::token_eq(t, &end_token),
            None => false,
        };
        if at_end {
            context.next();
            return Ok(input);
        }
        let kind: usize = match context.peek() {
            Some(t) => {
                if matches!(t, WsToken::Let) {
                    1
                } else if matches!(t, WsToken::SetKw) {
                    2
                } else if matches!(t, WsToken::Def) {
                    3
                } else if matches!(t, WsToken::Tell) {
                    4
                } else if matches!(t, WsToken::If) {
                    5
                } else if matches!(t, WsToken::While) {
                    6
                } else if matches!(t, WsToken::Out) {
                    7
                } else {
                    0
                }
            },
            None => 0,
        };
        if kind == 0 {
            let bad = match context.peek() {
                Some(t) => crate::tokens::clone_token(t),
                None => WsToken::Eof,
            };
            return Err(InterpreterErr::WrongToken(context.token_index(), bad));
        }
        context.next();
        let mut output = input;
        if kind == 1 {
            let name = context.next_ref()?;
            let decl = context.next_decl(WsToken::InArrow)?;
            let ghost gname = name;
            let ghost gdecl = decl;
            output.push(Stm::RegLet(name, decl));
            proof {
                scan_step_facts(input@, output@, Stm::RegLet(gname, gdecl));
                assert(model::stm_view(Stm::RegLet(gname, gdecl)) == model::Stm::RegLet(
                    gname@,
                    model::decl_view(gdecl),
                ));
            }
        } else if kind == 2 {
            let name = context.next_ref()?;
            let decl = context.next_decl(WsToken::InArrow)?;
            let ghost gname = name;
            let ghost gdecl = decl;
            output.push(Stm::RegSet(name, decl));
            proof {
                scan_step_facts(input@, output@, Stm::RegSet(gname, gdecl));
                assert(model::stm_view(Stm::RegSet(gname, gdecl)) == model::Stm::RegSet(
                    gname@,
                    model::decl_view(gdecl),
                ));
            }
        } else if kind == 3 {
            let name = context.next_ref()?;
            let decl = context.next_decl(WsToken::InArrow)?;
            let ghost gdecl = decl;
            context.new_reg(&name, Primitive::Proc(decl));
            proof {
                assert(model::prim_view(Primitive::Proc(gdecl)) == model::Prim::Proc(
                    model::decl_view(gdecl),
                ));
            }
        } else if kind == 4 {
            let expr = context.next_expr(WsToken::OutArrow, WsToken::SemiColon)?;
            let ghost gexpr = expr;
            output.push(Stm::Tell(expr));
            proof {
                scan_step_facts(input@, output@, Stm::Tell(gexpr));
                assert(model::stm_view(Stm::Tell(gexpr)) == model::Stm::Tell(model::expr_view(
                    gexpr,
                )));
            }
        } else if kind == 5 {
            let expr = context.next_expr(WsToken::Pipe, WsToken::Pipe)?;
            let decl = context.next_decl(WsToken::OutArrow)?;
            let ghost gexpr = expr;
            let ghost gdecl = decl;
            output.push(Stm::If(expr, decl));
            proof {
                scan_step_facts(input@, output@, Stm::If(gexpr, gdecl));
                assert(model::stm_view(Stm::If(gexpr, gdecl)) == model::Stm::If(
                    model::expr_view(gexpr),
                    model::decl_view(gdecl),
                ));
            }
        } else if kind == 6 {
            let expr = context.next_expr(WsToken::Pipe, WsToken::Pipe)?;
            let decl = context.next_decl(WsToken::OutArrow)?;
            let ghost gexpr = expr;
            let ghost gdecl = decl;
            output.push(Stm::While(expr, decl));
            proof {
                scan_step_facts(input@, output@, Stm::While(gexpr, gdecl));
                assert(model::stm_view(Stm::While(gexpr, gdecl)) == model::Stm::While(
                    model::expr_view(gexpr),
                    model::decl_view(gdecl),
                ));
            }
        } else {
            let expr = context.next_expr(WsToken::OutArrow, WsToken::SemiColon)?;
            let ghost gexpr = expr;
            output.push(Stm::Out(expr));
            proof {
                scan_step_facts(input@, output@, Stm::Out(gexpr));
                assert(model::stm_view(Stm::Out(gexpr)) == model::Stm::Out(model::expr_view(
                    gexpr,
                )));
            }
        }
        proof {
            reveal_with_fuel(crate::grammar::parse_stms, 2);
            reveal_with_fuel(crate::grammar::parse_decl, 2);
            match crate::grammar::parse_stms(
                old(context).toks(),
                model::stms_view(input@),
                end_token,
                old(context).regs(),
            ) {
                Some(p) => {
                    assert(crate::grammar::parse_stms(
                        context.toks(),
                        model::stms_view(output@),
                        end_token,
                        context.regs(),
                    ) == Some(p));
                },
                None => {},
            }
        }
        Self::scan(context, output, end_token)
    }

    /// Runs through a declaration to output an eventual expression: a
    /// single-expression declaration hands its expression back untouched,
    /// and a block executes its statements in order, stopping at the first
    /// that yields a result or fails.  On deterministic blocks the final
    /// registers, the told values and the outcome are pinned exactly.
    pub fn run(context: &mut SyntaxContext, decl: &Decl) -> (r: Result<
        Option<Expr>,
        InterpreterErr,
    >)
        requires
            old(context).wf(),
        ensures
            eval_frame(*old(context), *final(context)),
            (model::decl_view(*decl) matches model::Decl::Expr(e) ==> (r matches Ok(Some(x))
                && model::expr_view(x) == e && *final(context) == *old(context))),
            (model::decl_view(*decl) matches model::Decl::Closure(ss) ==> (
            semantics::block_run(old(context).regs(), ss) matches Some(q) ==> (final(context).regs() == q.0 && final(context).rand == old(context).rand && final(context).log()
                == old(context).log() + q.1 && (match q.2 {
                semantics::BlockEnd::Yielded(e) => r matches Ok(Some(x)) && model::expr_view(x)
                    == e,
                semantics::BlockEnd::Ran => r matches Ok(None),
                semantics::BlockEnd::SetUnbound(nm) => r matches Err(er) && (er matches
                InterpreterErr::UninitReg(n2) && n2@ == nm),
            })))),
    {
        Self::run_fuel(context, decl, EVAL_FUEL)
    }

    /// As [`Stm::run`], spending from an explicit budget.
    #[verifier::rlimit(100)]
    pub fn run_fuel(context: &mut SyntaxContext, decl: &Decl, fuel: u64) -> (r: Result<
        Option<Expr>,
        InterpreterErr,
    >)
        requires
            old(context).wf(),
        ensures
            eval_frame(*old(context), *final(context)),
            (model::decl_view(*decl) matches model::Decl::Expr(e) ==> (r matches Ok(Some(x))
                && model::expr_view(x) == e && *final(context) == *old(context))),
            (model::decl_view(*decl) matches model::Decl::Closure(ss) ==> (ss.len() == 0 && fuel
                >= 1) ==> (r matches Ok(None) && *final(context) == *old(context))),
            (model::decl_view(*decl) matches model::Decl::Closure(ss) ==> (ss.len() > 0 && fuel
                >= 1) ==> (ss[0] matches model::Stm::Out(e) ==> (r matches Ok(Some(x))
                && model::expr_view(x) == e && *final(context) == *old(context)))),
            (model::decl_view(*decl) matches model::Decl::Closure(ss) ==> (
            semantics::block_run(old(context).regs(), ss) matches Some(q) ==> fuel >= 3 ==> (
            final(context).regs() == q.0 && final(context).rand == old(context).rand && final(context).log() == old(context).log() + q.1 && (match q.2 {
                semantics::BlockEnd::Yielded(e) => r matches Ok(Some(x)) && model::expr_view(x)
                    == e,
                semantics::BlockEnd::Ran => r matches Ok(None),
                semantics::BlockEnd::SetUnbound(nm) => r matches Err(er) && (er matches
                InterpreterErr::UninitReg(n2) && n2@ == nm),
            })))),
        decreases fuel, 0nat, 2int,
    {
        match decl {
            Decl::Expr(expr) => Ok(Some(expr.clone())),
            Decl::Closure(stms) => {
                if fuel == 0 {
                    return Err(InterpreterErr::RecursionLimit);
                }
                proof {
                    model::lemma_stms_view(stms@);
                    reveal_with_fuel(semantics::block_run, 2);
                    let ss = model::stms_view(stms@);
                    match semantics::block_run(old(context).regs(), ss) {
                        Some(q) => {
                            assert(ss.skip(0) =~= ss);
                            assert(old(context).log() + q.1 =~= old(context).log() + q.1);
                        },
                        None => {},
                    }
                }
                let mut i: usize = 0;
                while i < stms.len()
                    invariant
                        0 <= i <= stms@.len(),
                        fuel >= 1,
                        old(context).wf(),
                        context.wf(),
                        context.next_tokens == old(context).next_tokens,
                        context.token_index == old(context).token_index,
                        model::decl_view(*decl) matches model::Decl::Closure(ss) && ss
                            == model::stms_view(stms@),
                        model::stms_view(stms@).len() == stms@.len(),
                        forall|j: int|
                            0 <= j < stms@.len() ==> model::stms_view(stms@)[j] == model::stm_view(
                                stms@[j],
                            ),
                        i == 0 ==> *context == *old(context),
                        i > 0 && stms@.len() > 0 ==> !(model::stm_view(stms@[0]) is Out),
                        semantics::block_run(
                            old(context).regs(),
                            model::stms_view(stms@),
                        ) matches Some(q) ==> fuel >= 3 ==> (context.rand == old(context).rand
                            && (match semantics::block_run(
                            context.regs(),
                            model::stms_view(stms@).skip(i as int),
                        ) {
                            Some(rest) => q.0 == rest.0 && q.2 == rest.2 && context.log()
                                + rest.1 == old(context).log() + q.1,
                            None => false,
                        })),
                    decreases stms@.len() - i,
                {
                    proof {
                        reveal_with_fuel(semantics::block_run, 2);
                        let ss = model::stms_view(stms@);
                        match semantics::block_run(old(context).regs(), ss) {
                            Some(q) => {
                                if fuel >= 3 {
                                    let sk = ss.skip(i as int);
                                    assert(sk.len() > 0);
                                    assert(sk[0] == ss[i as int]);
                                    assert(sk.drop_first() =~= ss.skip(i + 1));
                                }
                            },
                            None => {},
                        }
                    }
                    let stm = &stms[i];
                    match stm.as_expr(context, fuel - 1)? {
                        Some(out) => {
                            proof {
                                reveal_with_fuel(semantics::block_run, 2);
                                let ss = model::stms_view(stms@);
                                match semantics::block_run(old(context).regs(), ss) {
                                    Some(q) => {
                                        if fuel >= 3 {
                                            let sk = ss.skip(i as int);
                                            assert(context.log() + Seq::<
                                                model::Prim,
                                            >::empty() =~= context.log());
                                        }
                                    },
                                    None => {},
                                }
                            }
                            return Ok(Some(out));
                        },
                        None => {},
                    }
                    proof {
                        reveal_with_fuel(semantics::block_run, 2);
                        let ss = model::stms_view(stms@);
                        match semantics::block_run(old(context).regs(), ss) {
                            Some(q) => {
                                if fuel >= 3 {
                                    let sk = ss.skip(i as int);
                                    match sk[0] {
                                        model::Stm::Tell(e) => {
                                            match semantics::eval_prim(old(context).regs(), e) {
                                                Some(_) => {},
                                                None => {},
                                            }
                                            match semantics::block_run(
                                                context.regs(),
                                                ss.skip(i + 1),
                                            ) {
                                                Some(rest2) => {
                                                    match semantics::eval_prim(
                                                        context.regs(),
                                                        e,
                                                    ) {
                                                        Some(p) => {
                                                            assert((old(context).log()
                                                                + (seq![p] + rest2.1)) =~= (old(context).log() + seq![p]) + rest2.1);
                                                        },
                                                        None => {},
                                                    }
                                                },
                                                None => {},
                                            }
                                        },
                                        _ => {},
                                    }
                                }
                            },
                            None => {},
                        }
                    }
                    i = i + 1;
                }
                proof {
                    reveal_with_fuel(semantics::block_run, 2);
                    let ss = model::stms_view(stms@);
                    match semantics::block_run(old(context).regs(), ss) {
                        Some(q) => {
                            if fuel >= 3 {
                                assert(ss.skip(i as int) =~= Seq::<model::Stm>::empty());
                                assert(context.log() + Seq::<model::Prim>::empty()
                                    =~= context.log());
                            }
                        },
                        None => {},
                    }
                }
                Ok(None)
            },
        }
    }

    /// Executes one statement, returning the expression it yields, if any.
    pub fn as_expr(&self, context: &mut SyntaxContext, fuel: u64) -> (r: Result<
        Option<Expr>,
        InterpreterErr,
    >)
        requires
            old(context).wf(),
        ensures
            eval_frame(*old(context), *final(context)),
            ({
                let env = old(context).regs();
                let sv = model::stm_view(*self);
                &&& (sv matches model::Stm::Out(e) ==> (r matches Ok(Some(x))
                    && model::expr_view(x) == e && *final(context) == *old(context)))
                &&& (sv matches model::Stm::Tell(e) ==> semantics::eval_prim(env, e) matches Some(
                    p,
                ) ==> fuel >= 2 ==> (r matches Ok(None) && final(context).regs() == env && final(context).rand == old(context).rand && final(context).log() == old(context).log().push(
                    p,
                )))
                &&& (sv matches model::Stm::RegLet(nm, d) ==> d matches model::Decl::Expr(e)
                    ==> semantics::eval_prim(env, e) matches Some(p) ==> fuel >= 2 ==> (r
                    matches Ok(None) && final(context).log() == old(context).log() && final(context).rand == old(context).rand && final(context).regs() == stored_env(env, nm, p)))
                &&& (sv matches model::Stm::RegSet(nm, d) ==> d matches model::Decl::Expr(e)
                    ==> semantics::eval_prim(env, e) matches Some(p) ==> fuel >= 2 ==> (final(context).log() == old(context).log() && final(context).rand == old(context).rand && (
                if p is Void {
                    r matches Ok(None) && final(context).regs() == env.remove(nm)
                } else if env.contains_key(nm) {
                    r matches Ok(None) && final(context).regs() == env.insert(nm, p)
                } else {
                    (r matches Err(er) && (er matches InterpreterErr::UninitReg(n2) && n2@ == nm))
                        && final(context).regs() == env
                })))
                &&& (sv matches model::Stm::If(c, d) ==> semantics::cond_bool(env, c) matches
                    Some(cb) ==> fuel >= 2 ==> (
                if !cb {
                    r matches Ok(None) && *final(context) == *old(context)
                } else {
                    d matches model::Decl::Expr(e) ==> (r matches Ok(Some(x))
                        && model::expr_view(x) == e && *final(context) == *old(context))
                }))
                &&& (sv matches model::Stm::While(c, d) ==> (r matches Ok(o) ==> o is None))
                &&& (sv matches model::Stm::While(c, d) ==> (semantics::cond_bool(env, c) == Some(
                    false,
                ) && fuel >= 2) ==> (r matches Ok(None) && *final(context) == *old(context)))
            }),
        decreases fuel, 0nat, 1int,
    {
        match self {
            Stm::RegLet(name, decl) => {
                if fuel == 0 {
                    return Err(InterpreterErr::RecursionLimit);
                }
                proof {
                    match model::decl_view(*decl) {
                        model::Decl::Expr(e) => semantics::lemma_expr_val_shape(
                            old(context).regs(),
                            e,
                        ),
                        _ => (),
                    }
                }
                let out = Self::run_fuel(context, decl, fuel - 1)?;
                proof {
                    match model::decl_view(*decl) {
                        model::Decl::Closure(ss) => {
                            match semantics::block_run(old(context).regs(), ss) {
                                Some(q) => {
                                    match q.2 {
                                        semantics::BlockEnd::Yielded(e) => {
                                            semantics::lemma_expr_val_shape(context.regs(), e);
                                        },
                                        _ => {},
                                    }
                                },
                                None => {},
                            }
                        },
                        _ => {},
                    }
                }
                let expr = match out {
                    Some(e) => e,
                    None => {
                        return Err(InterpreterErr::MissingBlockResult);
                    },
                };
                let rv = expr.as_val(context, fuel - 1)?;
                let value = rv.as_primitive(context, fuel - 1)?;
                match value {
                    Primitive::Void => context.del_reg(name),
                    other => context.new_reg(name, other),
                }
                Ok(None)
            },
            Stm::RegSet(name, decl) => {
                if fuel == 0 {
                    return Err(InterpreterErr::RecursionLimit);
                }
                proof {
                    match model::decl_view(*decl) {
                        model::Decl::Expr(e) => semantics::lemma_expr_val_shape(
                            old(context).regs(),
                            e,
                        ),
                        _ => (),
                    }
                }
                let out = Self::run_fuel(context, decl, fuel - 1)?;
                proof {
                    match model::decl_view(*decl) {
                        model::Decl::Closure(ss) => {
                            match semantics::block_run(old(context).regs(), ss) {
                                Some(q) => {
                                    match q.2 {
                                        semantics::BlockEnd::Yielded(e) => {
                                            semantics::lemma_expr_val_shape(context.regs(), e);
                                        },
                                        _ => {},
                                    }
                                },
                                None => {},
                            }
                        },
                        _ => {},
                    }
                }
                let expr = match out {
                    Some(e) => e,
                    None => {
                        return Err(InterpreterErr::MissingBlockResult);
                    },
                };
                let rv = expr.as_val(context, fuel - 1)?;
                let value = rv.as_primitive(context, fuel - 1)?;
                match value {
                    Primitive::Void => {
                        context.del_reg(name);
                        Ok(None)
                    },
                    other => {
                        context.set_reg(name, other)?;
                        Ok(None)
                    },
                }
            },
            Stm::If(expr, decl) => {
                if fuel == 0 {
                    return Err(InterpreterErr::RecursionLimit);
                }
                proof {
                    semantics::lemma_expr_val_shape(
                        old(context).regs(),
                        model::expr_view(*expr),
                    );
                }
                let rv = expr.as_val(context, fuel - 1)?;
                let b = value_to_bool(&rv, context, fuel - 1)?;
                if b {
                    Self::run_fuel(context, decl, fuel - 1)
                } else {
                    Ok(None)
                }
            },
            Stm::While(expr, decl) => {
                if fuel == 0 {
                    return Err(InterpreterErr::RecursionLimit);
                }
                proof {
                    semantics::lemma_expr_val_shape(
                        old(context).regs(),
                        model::expr_view(*expr),
                    );
                }
                let rv = expr.as_val(context, fuel - 1)?;
                let b = value_to_bool(&rv, context, fuel - 1)?;
                if !b {
                    return Ok(None);
                }
                let mut budget: u64 = fuel;
                while budget > 0
                    invariant
                        old(context).wf(),
                        context.wf(),
                        context.next_tokens == old(context).next_tokens,
                        context.token_index == old(context).token_index,
                        fuel >= 1,
                        *self matches Stm::While(c2, d2) && c2 == *expr && d2 == *decl,
                        model::stm_view(*self) matches model::Stm::While(c, d) ==> !(
                        semantics::cond_bool(old(context).regs(), c) == Some(false) && fuel >= 2),
                    decreases budget,
                {
                    budget = budget - 1;
                    Self::run_fuel(context, decl, fuel - 1)?;
                    let rv2 = expr.as_val(context, fuel - 1)?;
                    let b2 = value_to_bool(&rv2, context, fuel - 1)?;
                    if !b2 {
                        return Ok(None);
                    }
                }
                Err(InterpreterErr::RecursionLimit)
            },
            Stm::Out(expr) => Ok(Some(expr.clone())),
            Stm::Tell(expr) => {
                if fuel == 0 {
                    return Err(InterpreterErr::RecursionLimit);
                }
                proof {
                    semantics::lemma_expr_val_shape(
                        old(context).regs(),
                        model::expr_view(*expr),
                    );
                }
                let rv = expr.as_val(context, fuel - 1)?;
                let uw = rv.unwraped(context, fuel - 1)?;
                let p = uw.as_primitive(context, fuel - 1)?;
                context.emit(p);
                Ok(None)
            },
        }
    }
}

/// Viewing a statement list after a push appends the view of the pushed
/// statement.
proof fn scan_step_facts(prev: Seq<Stm>, out: Seq<Stm>, stm: Stm)
    requires
        out == prev.push(stm),
    ensures
        model::stms_view(out) == model::stms_view(prev).push(model::stm_view(stm)),
{
    reveal_with_fuel(model::stms_view, 2);
    assert(out.drop_last() =~= prev);
    assert(out.last() == stm);
}

/// Copies a statement sequence; the copy stands for the same model sequence.
fn clone_stms(stms: &Vec<Stm>) -> (out: Vec<Stm>)
    ensures
        model::stms_view(out@) == model::stms_view(stms@),
    decreases stms@,
{
    let mut out: Vec<Stm> = Vec::new();
    let mut i: usize = 0;
    while i < stms.len()
        invariant
            0 <= i <= stms@.len(),
            out@.len() == i,
            forall|j: int|
                0 <= j < i ==> model::stm_view(out@[j]) == model::stm_view(stms@[j]),
        decreases stms@.len() - i,
    {
        let item = &stms[i];
        proof {
            assert(decreases_to!(stms@ => stms@[i as int]));
        }
        out.push(item.clone());
        i = i + 1;
    }
    proof {
        model::lemma_stms_view(stms@);
        model::lemma_stms_view(out@);
        assert(model::stms_view(out@) =~= model::stms_view(stms@));
    }
    out
}

/// Copies a register name.
pub fn clone_name(name: &Vec<u8>) -> (res: Vec<u8>)
    ensures
        res@ == name@,
{
    let mut n2: Vec<u8> = Vec::new();
    let mut i: usize = 0;
    while i < name.len()
        invariant
            0 <= i <= name@.len(),
            n2@ =~= name@.take(i as int),
        decreases name@.len() - i,
    {
        n2.push(name[i]);
        i = i + 1;
    }
    proof {
        assert(n2@ =~= name@);
    }
    n2
}

} // verus!
