//! The mathematical semantics of the deterministic fragment of the language.
//!
//! These spec functions say what evaluation returns whenever it does not
//! depend on the dice generator or on a stored procedure: literals,
//! arithmetic, comparisons, and references whose register holds a plain
//! value.  Wherever one of them returns `Some`, the executable evaluator is
//! bound by contract to return exactly that; everywhere else the evaluator
//! still keeps the context frame conditions stated on it.

use vstd::prelude::*;

use crate::generic::PrimitiveId;
use crate::model::{CmpTo, Decl, Expr, Op, Prim, Stm, Val};

verus! {

/// The register environment the semantics runs against.
pub type Env = Map<Seq<u8>, Prim>;

/// Whether a mathematical integer fits the signed 16-bit value range.
pub open spec fn fits(n: int) -> bool {
    -32768 <= n <= 32767
}

/// The absolute value of an integer.
pub open spec fn abs(n: int) -> int {
    if n < 0 {
        -n
    } else {
        n
    }
}

/// Truncating integer division, the division the language performs.
pub open spec fn tdiv(a: int, b: int) -> int {
    if (a < 0) != (b < 0) {
        -(abs(a) / abs(b))
    } else {
        abs(a) / abs(b)
    }
}

/// The integer a stored plain value reads as; a procedure has none.
pub open spec fn prim_int(p: Prim) -> Option<int> {
    match p {
        Prim::Int(i) => Some(i as int),
        Prim::Bool(b) => Some(
            if b {
                1int
            } else {
                0int
            },
        ),
        Prim::Void => Some(0int),
        Prim::Proc(_) => None,
    }
}

/// The boolean a stored plain value reads as; a procedure has none.
pub open spec fn prim_bool(p: Prim) -> Option<bool> {
    match p {
        Prim::Int(i) => Some(i != 0),
        Prim::Bool(b) => Some(b),
        Prim::Void => Some(false),
        Prim::Proc(_) => None,
    }
}

/// The terminal value a stored plain value converts back to.
pub open spec fn prim_val(p: Prim) -> Option<Val> {
    match p {
        Prim::Int(i) => Some(Val::Int(i)),
        Prim::Bool(b) => Some(Val::Bool(b)),
        Prim::Void => Some(Val::Void),
        Prim::Proc(_) => None,
    }
}

/// The comparator table of the language.  `Gt` holds at or above and `Ge`
/// strictly above: the two diverge from their natural-language names, and
/// the divergence is kept deliberately end to end.
pub open spec fn cmp_table(c: CmpTo, l: int, r: int) -> bool {
    match c {
        CmpTo::Eq(_) => l == r,
        CmpTo::Ne(_) => l != r,
        CmpTo::Gt(_) => l >= r,
        CmpTo::Ge(_) => l > r,
        CmpTo::Lt(_) => l < r,
        CmpTo::Le(_) => l <= r,
    }
}

/// The right-hand operand a comparator carries.
pub open spec fn cmp_arg(c: CmpTo) -> Val {
    match c {
        CmpTo::Eq(v) => v,
        CmpTo::Ne(v) => v,
        CmpTo::Gt(v) => v,
        CmpTo::Ge(v) => v,
        CmpTo::Lt(v) => v,
        CmpTo::Le(v) => v,
    }
}

/// The integer a terminal value evaluates to.  A reference reads its
/// register's stored value whatever coercion tag it carries.
pub open spec fn val_int(env: Env, v: Val) -> Option<int>
    decreases v,
{
    match v {
        Val::Int(i) => Some(i as int),
        Val::Bool(b) => Some(
            if b {
                1int
            } else {
                0int
            },
        ),
        Val::Void => Some(0int),
        Val::Expr(e) => expr_int(env, *e),
        Val::Ref(_, name) => if env.contains_key(name) {
            prim_int(env[name])
        } else {
            None
        },
    }
}

/// The boolean a terminal value evaluates to.
pub open spec fn val_bool(env: Env, v: Val) -> Option<bool>
    decreases v,
{
    match v {
        Val::Int(i) => Some(i != 0),
        Val::Bool(b) => Some(b),
        Val::Void => Some(false),
        Val::Expr(e) => expr_bool(env, *e),
        Val::Ref(_, name) => if env.contains_key(name) {
            prim_bool(env[name])
        } else {
            None
        },
    }
}

/// The integer an expression evaluates to, when every step is deterministic
/// and stays in range.
pub open spec fn expr_int(env: Env, e: Expr) -> Option<int>
    decreases e,
{
    match e {
        Expr::Val(v) => val_int(env, v),
        Expr::Op(o) => op_int(env, *o),
    }
}

/// The integer an operation node evaluates to.  Binary nodes combine the
/// accumulated left-hand tree (the nested expression) with the freshly
/// parsed right-hand value; each arithmetic step must stay in the 16-bit
/// range and a division must have a non-zero divisor.
pub open spec fn op_int(env: Env, o: Op) -> Option<int>
    decreases o,
{
    match o {
        Op::Neg(a) => match val_int(env, a) {
            Some(x) => if fits(-x) {
                Some(-x)
            } else {
                None
            },
            None => None,
        },
        Op::Add(a, b) => match (expr_int(env, *b), val_int(env, a)) {
            (Some(l), Some(r)) => if fits(l + r) {
                Some(l + r)
            } else {
                None
            },
            _ => None,
        },
        Op::Sub(a, b) => match (expr_int(env, *b), val_int(env, a)) {
            (Some(l), Some(r)) => if fits(l - r) {
                Some(l - r)
            } else {
                None
            },
            _ => None,
        },
        Op::Mul(a, b) => match (expr_int(env, *b), val_int(env, a)) {
            (Some(l), Some(r)) => if fits(l * r) {
                Some(l * r)
            } else {
                None
            },
            _ => None,
        },
        Op::Div(a, b) => match (expr_int(env, *b), val_int(env, a)) {
            (Some(l), Some(r)) => if r == 0 || !fits(tdiv(l, r)) {
                None
            } else {
                Some(tdiv(l, r))
            },
            _ => None,
        },
        Op::Dice(_, _, _) => None,
        Op::Cmp(c, b) => match (expr_int(env, *b), val_int(env, cmp_arg(c))) {
            (Some(l), Some(r)) => Some(
                if cmp_table(c, l, r) {
                    1int
                } else {
                    0int
                },
            ),
            _ => None,
        },
    }
}

/// The boolean an expression evaluates to under the boolean-algebra reading
/// of arithmetic nodes.
pub open spec fn expr_bool(env: Env, e: Expr) -> Option<bool>
    decreases e,
{
    match e {
        Expr::Val(v) => val_bool(env, v),
        Expr::Op(o) => op_bool(env, *o),
    }
}

/// The boolean an operation node evaluates to: addition reads as or,
/// multiplication as and, subtraction as the left without the right;
/// division and dice pass the nested side through; the order comparators
/// still compare integers.
pub open spec fn op_bool(env: Env, o: Op) -> Option<bool>
    decreases o,
{
    match o {
        Op::Neg(a) => match val_bool(env, a) {
            Some(x) => Some(!x),
            None => None,
        },
        Op::Add(a, b) => match (expr_bool(env, *b), val_bool(env, a)) {
            (Some(l), Some(r)) => Some(l || r),
            _ => None,
        },
        Op::Sub(a, b) => match (expr_bool(env, *b), val_bool(env, a)) {
            (Some(l), Some(r)) => Some(l && !r),
            _ => None,
        },
        Op::Mul(a, b) => match (expr_bool(env, *b), val_bool(env, a)) {
            (Some(l), Some(r)) => Some(l && r),
            _ => None,
        },
        Op::Div(_, b) => expr_bool(env, *b),
        Op::Dice(_, b, _) => expr_bool(env, *b),
        Op::Cmp(c, b) => match c {
            CmpTo::Eq(_) => match (expr_bool(env, *b), val_bool(env, cmp_arg(c))) {
                (Some(l), Some(r)) => Some(l == r),
                _ => None,
            },
            CmpTo::Ne(_) => match (expr_bool(env, *b), val_bool(env, cmp_arg(c))) {
                (Some(l), Some(r)) => Some(l != r),
                _ => None,
            },
            _ => match (expr_int(env, *b), val_int(env, cmp_arg(c))) {
                (Some(l), Some(r)) => Some(cmp_table(c, l, r)),
                _ => None,
            },
        },
    }
}

/// The resolved terminal value an expression evaluates to: what the
/// evaluator hands to statements.  A reference applies its coercion tag to
/// the stored plain value; a tag of `Proc` wraps the value as a deferred
/// expression.
pub open spec fn expr_val(env: Env, e: Expr) -> Option<Val>
    decreases e,
{
    match e {
        Expr::Val(v) => match v {
            Val::Expr(e2) => expr_val(env, *e2),
            Val::Ref(id, name) => if env.contains_key(name) && !(env[name] is Proc) {
                let p = env[name];
                match id {
                    PrimitiveId::Int => match prim_int(p) {
                        Some(x) => Some(Val::Int(x as i16)),
                        None => None,
                    },
                    PrimitiveId::Bool => match prim_bool(p) {
                        Some(x) => Some(Val::Bool(x)),
                        None => None,
                    },
                    PrimitiveId::Void => Some(Val::Void),
                    PrimitiveId::Proc => match prim_val(p) {
                        Some(x) => Some(Val::Expr(Box::new(Expr::Val(x)))),
                        None => None,
                    },
                }
            } else {
                None
            },
            _ => Some(v),
        },
        Expr::Op(o) => op_val(env, *o),
    }
}

/// The resolved terminal value an operation node evaluates to.
pub open spec fn op_val(env: Env, o: Op) -> Option<Val>
    decreases o,
{
    match o {
        Op::Neg(_) | Op::Add(_, _) | Op::Sub(_, _) | Op::Mul(_, _) | Op::Div(_, _) => match op_int(
            env,
            o,
        ) {
            Some(x) => Some(Val::Int(x as i16)),
            None => None,
        },
        Op::Dice(_, _, _) => None,
        Op::Cmp(c, b) => match (expr_int(env, *b), val_int(env, cmp_arg(c))) {
            (Some(l), Some(r)) => Some(Val::Bool(cmp_table(c, l, r))),
            _ => None,
        },
    }
}

/// The stored primitive a resolved terminal value converts to: the second
/// step of storing an evaluated expression in a register.
pub open spec fn flat_prim(env: Env, rv: Val) -> Option<Prim> {
    match rv {
        Val::Int(i) => Some(Prim::Int(i)),
        Val::Bool(b) => Some(Prim::Bool(b)),
        Val::Void => Some(Prim::Void),
        Val::Ref(_, name) => if env.contains_key(name) {
            Some(env[name])
        } else {
            None
        },
        Val::Expr(e2) => match *e2 {
            Expr::Val(v2) => match v2 {
                Val::Int(i) => Some(Prim::Int(i)),
                Val::Bool(b) => Some(Prim::Bool(b)),
                Val::Void => Some(Prim::Void),
                Val::Ref(_, name) => if env.contains_key(name) {
                    Some(env[name])
                } else {
                    None
                },
                Val::Expr(_) => None,
            },
            _ => None,
        },
    }
}

/// The boolean a resolved terminal value reads as, as conditions read it.
pub open spec fn flat_bool(env: Env, rv: Val) -> Option<bool> {
    match rv {
        Val::Int(i) => Some(i != 0),
        Val::Bool(b) => Some(b),
        Val::Void => Some(false),
        Val::Ref(_, name) => if env.contains_key(name) {
            prim_bool(env[name])
        } else {
            None
        },
        Val::Expr(e2) => match *e2 {
            Expr::Val(v2) => match v2 {
                Val::Int(i) => Some(i != 0),
                Val::Bool(b) => Some(b),
                Val::Void => Some(false),
                Val::Ref(_, name) => if env.contains_key(name) {
                    prim_bool(env[name])
                } else {
                    None
                },
                Val::Expr(_) => None,
            },
            _ => None,
        },
    }
}

/// The stored primitive a terminal value fully resolves to: a reference
/// hands back its register's stored primitive as it is, a nested expression
/// is evaluated first.
pub open spec fn val_prim(env: Env, v: Val) -> Option<Prim> {
    match v {
        Val::Int(i) => Some(Prim::Int(i)),
        Val::Bool(b) => Some(Prim::Bool(b)),
        Val::Void => Some(Prim::Void),
        Val::Ref(_, name) => if env.contains_key(name) {
            Some(env[name])
        } else {
            None
        },
        Val::Expr(e) => match expr_val(env, *e) {
            Some(rv) => flat_prim(env, rv),
            None => None,
        },
    }
}

/// Whether a terminal value is a plain literal: an integer, a boolean or
/// the void value.
pub open spec fn is_flat(v: Val) -> bool {
    v is Int || v is Bool || v is Void
}

/// A wrapped plain literal evaluates, stores and tests as the literal
/// itself does.
pub proof fn lemma_wrap_flat(env: Env, x: Val)
    requires
        is_flat(x),
    ensures
        expr_val(env, Expr::Val(x)) == Some(x),
        val_prim(env, Val::Expr(Box::new(Expr::Val(x)))) == flat_prim(
            env,
            Val::Expr(Box::new(Expr::Val(x))),
        ),
        val_bool(env, Val::Expr(Box::new(Expr::Val(x)))) == flat_bool(
            env,
            Val::Expr(Box::new(Expr::Val(x))),
        ),
{
    assert(expr_val(env, Expr::Val(x)) == Some(x));
    assert(val_prim(env, Val::Expr(Box::new(Expr::Val(x)))) == flat_prim(env, x));
    assert(val_bool(env, Val::Expr(Box::new(Expr::Val(x)))) == expr_bool(env, Expr::Val(x)));
    assert(expr_bool(env, Expr::Val(x)) == val_bool(env, x));
}

/// A resolved value out of the evaluator is a plain literal or one wrapped
/// as a deferred expression, and on those shapes the one-step and the
/// recursive readings of storing and testing it agree.
pub proof fn lemma_expr_val_shape(env: Env, e: Expr)
    ensures
        expr_val(env, e) matches Some(rv) ==> {
            &&& is_flat(rv) || (rv matches Val::Expr(e2) && (*e2 matches Expr::Val(v2) && is_flat(
                v2,
            )))
            &&& val_prim(env, rv) == flat_prim(env, rv)
            &&& val_bool(env, rv) == flat_bool(env, rv)
        },
    decreases e,
{
    match e {
        Expr::Val(v) => match v {
            Val::Expr(e2) => {
                lemma_expr_val_shape(env, *e2);
            },
            Val::Ref(id, name) => {
                if env.contains_key(name) && !(env[name] is Proc) {
                    let p = env[name];
                    match id {
                        PrimitiveId::Int => {},
                        PrimitiveId::Bool => {},
                        PrimitiveId::Void => {},
                        PrimitiveId::Proc => {
                            match p {
                                Prim::Int(i) => {
                                    lemma_wrap_flat(env, Val::Int(i));
                                },
                                Prim::Bool(b) => {
                                    lemma_wrap_flat(env, Val::Bool(b));
                                },
                                Prim::Void => {
                                    lemma_wrap_flat(env, Val::Void);
                                },
                                Prim::Proc(_) => {},
                            }
                        },
                    }
                }
            },
            _ => {},
        },
        Expr::Op(o) => {
            match *o {
                Op::Neg(_) => {},
                Op::Add(_, _) => {},
                Op::Sub(_, _) => {},
                Op::Mul(_, _) => {},
                Op::Div(_, _) => {},
                Op::Dice(_, _, _) => {},
                Op::Cmp(_, _) => {},
            }
        },
    }
}

/// The stored primitive an expression evaluates to, when deterministic:
/// what `let`, `set` and `tell` act on.
pub open spec fn eval_prim(env: Env, e: Expr) -> Option<Prim> {
    match expr_val(env, e) {
        Some(rv) => flat_prim(env, rv),
        None => None,
    }
}

/// The boolean an `if` or `while` condition evaluates to, when
/// deterministic.
pub open spec fn cond_bool(env: Env, e: Expr) -> Option<bool> {
    match expr_val(env, e) {
        Some(rv) => flat_bool(env, rv),
        None => None,
    }
}

/// How a deterministic block run ended: its first `out` (or true `if`)
/// yielded an expression, it ran through every statement with no result, or
/// a `set` of an unbound name faulted.
pub enum BlockEnd {
    Yielded(Expr),
    Ran,
    SetUnbound(Seq<u8>),
}

/// The run of a block of deterministic statements: the register
/// environment it leaves, the values it tells in order, and how it ended.
/// Statements after the first `out`, yielding `if`, or fault contribute
/// nothing: the block returns early.  Blocks holding loops, nested block
/// declarations or non-deterministic expressions are outside this model.
pub open spec fn block_run(env: Env, ss: Seq<Stm>) -> Option<(Env, Seq<Prim>, BlockEnd)>
    decreases ss.len(),
{
    if ss.len() == 0 {
        Some((env, Seq::empty(), BlockEnd::Ran))
    } else {
        match ss[0] {
            Stm::Out(e) => Some((env, Seq::empty(), BlockEnd::Yielded(e))),
            Stm::Tell(e) => match eval_prim(env, e) {
                Some(p) => match block_run(env, ss.drop_first()) {
                    Some(q) => Some((q.0, seq![p] + q.1, q.2)),
                    None => None,
                },
                None => None,
            },
            Stm::RegLet(nm, d) => match d {
                Decl::Expr(e) => match eval_prim(env, e) {
                    Some(p) => block_run(
                        if p is Void {
                            env.remove(nm)
                        } else {
                            env.insert(nm, p)
                        },
                        ss.drop_first(),
                    ),
                    None => None,
                },
                _ => None,
            },
            Stm::RegSet(nm, d) => match d {
                Decl::Expr(e) => match eval_prim(env, e) {
                    Some(p) => if p is Void {
                        block_run(env.remove(nm), ss.drop_first())
                    } else if env.contains_key(nm) {
                        block_run(env.insert(nm, p), ss.drop_first())
                    } else {
                        Some((env, Seq::empty(), BlockEnd::SetUnbound(nm)))
                    },
                    None => None,
                },
                _ => None,
            },
            Stm::If(c, d) => match d {
                Decl::Expr(e) => match cond_bool(env, c) {
                    Some(true) => Some((env, Seq::empty(), BlockEnd::Yielded(e))),
                    Some(false) => block_run(env, ss.drop_first()),
                    None => None,
                },
                _ => None,
            },
            _ => None,
        }
    }
}

} // verus!