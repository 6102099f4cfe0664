//! The execution context: the pending token queue, the register environment,
//! the pseudo-random generator, the diagnostic output log and the cursor
//! index, together with the error taxonomy of the interpreter.

use vstd::prelude::*;

use crate::tokens::{lex, LexErr, WsToken};
use crate::generic::Primitive;
use crate::rand_gen::{RandState, RAND_DEFAULT_SEED};
use crate::stm::clone_name;
use crate::model;

verus! {

/// Everything that can go wrong while parsing or evaluating.  Each parse
/// fault carries the token cursor index at which it was found.
#[derive(Debug)]
pub enum InterpreterErr {
    /// An unexpected token stood at a grammar position.
    WrongToken(usize, WsToken),
    /// The queue ran out where more input was owed.
    WrongEof(usize),
    /// A bracketed reference was expected.
    ExpectedARef(usize),
    /// An expression was expected.
    ExpectedAnExpr(usize),
    /// A declaration was expected.
    ExpectedADecl(usize),
    /// A statement was expected.
    ExpectedAStm(usize),
    /// A register was read or overwritten before being bound.
    UninitReg(Vec<u8>),
    /// A type keyword was expected before a bracketed reference.
    FailedToReadPrimitive,
    /// An integer division by zero was attempted.
    DivisionByZero,
    /// An arithmetic step left the signed 16-bit range.
    Overflow,
    /// A dice throw was asked for dice with no faces.
    InvalidDiceFaces,
    /// A block that had to produce a value ended without an `out` statement.
    MissingBlockResult,
    /// Evaluation exceeded the recursion and iteration budget.
    RecursionLimit,
}

/// Whether the names of an association list of registers are pairwise
/// distinct.
pub open spec fn unique_names(s: Seq<(Vec<u8>, Primitive)>) -> bool {
    forall|i: int, j: int| 0 <= i < j < s.len() ==> s[i].0@ != s[j].0@
}

/// The register environment an association list stands for.
pub open spec fn reg_map(s: Seq<(Vec<u8>, Primitive)>) -> Map<Seq<u8>, model::Prim>
    decreases s,
{
    if s.len() == 0 {
        Map::empty()
    } else {
        reg_map(s.drop_last()).insert(s.last().0@, model::prim_view(s.last().1))
    }
}

/// The frame every evaluation step preserves: the context stays well
/// formed and the token queue and cursor are left alone — evaluation only
/// ever touches registers, the generator and the output log.
pub open spec fn eval_frame(pre: SyntaxContext, post: SyntaxContext) -> bool {
    &&& post.wf()
    &&& post.next_tokens == pre.next_tokens
    &&& post.token_index == pre.token_index
}

/// A struct that holds the current context of one interpreter run.
pub struct SyntaxContext {
    /// The bound registers, each name at most once.
    pub registers: Vec<(Vec<u8>, Primitive)>,
    /// The pseudo-random generator that dice throws draw from.
    pub rand: RandState,
    /// How many tokens have been consumed since the context began.
    pub token_index: usize,
    /// The pending tokens, front first.
    pub next_tokens: Vec<WsToken>,
    /// The values told so far, oldest first.
    pub output: Vec<Primitive>,
}

impl SyntaxContext {
    /// The context is well formed: no register name is bound twice.
    pub open spec fn wf(&self) -> bool {
        unique_names(self.registers@)
    }

    /// The register environment as a map from names to model values.
    pub open spec fn regs(&self) -> Map<Seq<u8>, model::Prim> {
        reg_map(self.registers@)
    }

    /// The pending token queue.
    pub open spec fn toks(&self) -> Seq<WsToken> {
        self.next_tokens@
    }

    /// The diagnostic output log as model values.
    pub open spec fn log(&self) -> Seq<model::Prim> {
        model::prims_view(self.output@)
    }
}

impl Default for SyntaxContext {
    /// A fresh context: no registers, no pending tokens, an empty log, and
    /// the generator at its fixed default seed.
    fn default() -> (r: SyntaxContext)
        ensures
            r.wf(),
            r.regs() == Map::<Seq<u8>, model::Prim>::empty(),
            r.toks().len() == 0,
            r.log().len() == 0,
            r.rand.state == RAND_DEFAULT_SEED,
            r.token_index == 0,
    {
        SyntaxContext {
            registers: Vec::new(),
            rand: RandState::with_seed(RAND_DEFAULT_SEED),
            token_index: 0,
            next_tokens: Vec::new(),
            output: Vec::new(),
        }
    }
}

impl SyntaxContext {
    /// A fresh context whose generator starts from the given seed, so that a
    /// run of dice throws can be reproduced.
    pub fn with_seed(seed: u64) -> (r: SyntaxContext)
        ensures
            r.wf(),
            r.regs() == Map::<Seq<u8>, model::Prim>::empty(),
            r.toks().len() == 0,
            r.log().len() == 0,
            r.rand.state == seed,
            r.token_index == 0,
    {
        SyntaxContext {
            registers: Vec::new(),
            rand: RandState::with_seed(seed),
            token_index: 0,
            next_tokens: Vec::new(),
            output: Vec::new(),
        }
    }

    /// The index of the next token to be consumed, counted from the
    /// beginning of the context.
    pub fn token_index(&self) -> (r: usize)
        ensures
            r == self.token_index,
    {
        self.token_index
    }

    /// Lexes raw source text and appends the resulting tokens, ending with
    /// the end-of-input sentinel, to the pending queue.
    pub fn push(&mut self, src: &str) -> (r: Result<(), LexErr>)
        ensures
            final(self).registers == old(self).registers,
            final(self).rand == old(self).rand,
            final(self).token_index == old(self).token_index,
            final(self).output == old(self).output,
            match r {
                Ok(_) => final(self).toks().len() > old(self).toks().len()
                    && final(self).toks().take(old(self).toks().len() as int) == old(self).toks()
                    && final(self).toks().last() is Eof,
                Err(_) => final(self).toks() == old(self).toks(),
            },
    {
        let bytes = vstd::slice::slice_to_vec(src.as_bytes());
        match lex(&bytes) {
            Ok(mut ts) => {
                self.next_tokens.append(&mut ts);
                proof {
                    assert(self.next_tokens@.take(old(self).next_tokens@.len() as int)
                        =~= old(self).next_tokens@);
                }
                Ok(())
            },
            Err(e) => Err(e),
        }
    }

    /// Appends one already-made token to the pending queue, for callers that
    /// produce tokens themselves rather than through the scanner.
    pub fn push_token(&mut self, t: WsToken)
        ensures
            final(self).registers == old(self).registers,
            final(self).rand == old(self).rand,
            final(self).token_index == old(self).token_index,
            final(self).output == old(self).output,
            final(self).toks() == old(self).toks().push(t),
    {
        self.next_tokens.push(t);
    }

    /// Removes and returns the front token, advancing the cursor by one;
    /// the cursor stops counting at the top of its range rather than wrap.
    pub fn next(&mut self) -> (t: WsToken)
        requires
            old(self).toks().len() > 0,
        ensures
            final(self).registers == old(self).registers,
            final(self).rand == old(self).rand,
            final(self).output == old(self).output,
            final(self).toks() == old(self).toks().drop_first(),
            t == old(self).toks()[0],
            old(self).token_index < usize::MAX ==> final(self).token_index == old(self).token_index + 1,
            old(self).token_index == usize::MAX ==> final(self).token_index == usize::MAX,
    {
        if self.token_index < usize::MAX {
            self.token_index = self.token_index + 1;
        }
        let t = self.next_tokens.remove(0);
        proof {
            assert(self.next_tokens@ =~= old(self).next_tokens@.drop_first());
        }
        t
    }

    /// Reads the front token without consuming it.
    pub fn peek(&self) -> (r: Option<&WsToken>)
        ensures
            match r {
                Some(t) => self.toks().len() > 0 && *t == self.toks()[0],
                None => self.toks().len() == 0,
            },
    {
        if self.next_tokens.len() == 0 {
            None
        } else {
            Some(&self.next_tokens[0])
        }
    }

    /// Appends one told value to the diagnostic output log.
    pub fn emit(&mut self, p: Primitive)
        ensures
            final(self).registers == old(self).registers,
            final(self).rand == old(self).rand,
            final(self).token_index == old(self).token_index,
            final(self).next_tokens == old(self).next_tokens,
            final(self).log() == old(self).log().push(model::prim_view(p)),
    {
        proof {
            let s = self.output@.push(p);
            assert(s.drop_last() =~= self.output@);
        }
        self.output.push(p);
    }

    /// The values told so far, oldest first.
    pub fn output(&self) -> (r: &Vec<Primitive>)
        ensures
            model::prims_view(r@) == self.log(),
    {
        &self.output
    }

    /// Finds the position of a register by name.
    fn find_reg(&self, name: &Vec<u8>) -> (r: Option<usize>)
        ensures
            match r {
                Some(i) => i < self.registers@.len() && self.registers@[i as int].0@ == name@,
                None => forall|j: int|
                    0 <= j < self.registers@.len() ==> self.registers@[j].0@ != name@,
            },
    {
        let n = self.registers.len();
        let mut i: usize = 0;
        while i < n
            invariant
                0 <= i <= n,
                n == self.registers@.len(),
                forall|j: int| 0 <= j < i ==> self.registers@[j].0@ != name@,
            decreases n - i,
        {
            if crate::tokens::bytes_eq(&self.registers[i].0, name) {
                return Some(i);
            }
            i = i + 1;
        }
        None
    }

    /// Returns the value stored in a given register, or the uninitialised
    /// register fault when the name is not bound.
    pub fn reg(&self, name: &Vec<u8>) -> (r: Result<&Primitive, InterpreterErr>)
        requires
            self.wf(),
        ensures
            match r {
                Ok(p) => self.regs().contains_key(name@) && model::prim_view(*p) == self.regs()[
                    name@
                ],
                Err(e) => !self.regs().contains_key(name@) && (e matches
                InterpreterErr::UninitReg(n) && n@ == name@),
            },
    {
        match self.find_reg(name) {
            Some(i) => {
                proof {
                    lemma_reg_map_present(self.registers@, i as int);
                }
                Ok(&self.registers[i].1)
            },
            None => {
                proof {
                    lemma_reg_map_absent(self.registers@, name@);
                }
                Err(InterpreterErr::UninitReg(clone_name(name)))
            },
        }
    }

    /// Binds a register, overwriting any earlier binding of the same name.
    pub fn new_reg(&mut self, name: &Vec<u8>, value: Primitive)
        requires
            old(self).wf(),
        ensures
            final(self).wf(),
            final(self).regs() == old(self).regs().insert(name@, model::prim_view(value)),
            final(self).rand == old(self).rand,
            final(self).token_index == old(self).token_index,
            final(self).next_tokens == old(self).next_tokens,
            final(self).output == old(self).output,
    {
        self.del_reg(name);
        let ghost mid = self.registers@;
        self.registers.push((clone_name(name), value));
        proof {
            assert(self.registers@.drop_last() =~= mid);
            assert(forall|j: int| 0 <= j < mid.len() ==> mid[j].0@ != name@);
            assert(self.wf());
            assert(reg_map(self.registers@) =~= old(self).regs().insert(
                name@,
                model::prim_view(value),
            ));
        }
    }

    /// Unbinds a register; unbinding an unbound name changes nothing.
    pub fn del_reg(&mut self, name: &Vec<u8>)
        requires
            old(self).wf(),
        ensures
            final(self).wf(),
            final(self).regs() == old(self).regs().remove(name@),
            forall|j: int|
                0 <= j < final(self).registers@.len() ==> final(self).registers@[j].0@ != name@,
            final(self).rand == old(self).rand,
            final(self).token_index == old(self).token_index,
            final(self).next_tokens == old(self).next_tokens,
            final(self).output == old(self).output,
    {
        match self.find_reg(name) {
            Some(i) => {
                proof {
                    lemma_reg_map_remove(self.registers@, i as int);
                }
                self.registers.remove(i);
                proof {
                    lemma_reg_map_absent_still(old(self).registers@, i as int, name@);
                }
            },
            None => {
                proof {
                    lemma_reg_map_absent(self.registers@, name@);
                    assert(self.regs() =~= self.regs().remove(name@));
                }
            },
        }
    }

    /// Overwrites a bound register, or reports the uninitialised register
    /// fault without touching anything when the name is not bound.
    pub fn set_reg(&mut self, name: &Vec<u8>, value: Primitive) -> (r: Result<
        (),
        InterpreterErr,
    >)
        requires
            old(self).wf(),
        ensures
            final(self).wf(),
            final(self).rand == old(self).rand,
            final(self).token_index == old(self).token_index,
            final(self).next_tokens == old(self).next_tokens,
            final(self).output == old(self).output,
            match r {
                Ok(_) => old(self).regs().contains_key(name@)
                    && final(self).regs() == old(self).regs().insert(
                    name@,
                    model::prim_view(value),
                ),
                Err(e) => !old(self).regs().contains_key(name@)
                    && final(self).regs() == old(self).regs()
                    && (e matches InterpreterErr::UninitReg(n) && n@ == name@),
            },
    {
        match self.find_reg(name) {
            Some(i) => {
                proof {
                    lemma_reg_map_present(self.registers@, i as int);
                }
                self.new_reg(name, value);
                Ok(())
            },
            None => {
                proof {
                    lemma_reg_map_absent(self.registers@, name@);
                }
                Err(InterpreterErr::UninitReg(clone_name(name)))
            },
        }
    }
}

impl SyntaxContext {
    /// Parses a bracketed reference `[ name ]` off the front of the queue,
    /// consuming exactly its three tokens and returning the name; any other
    /// shape is the expected-reference fault and leaves the queue untouched.
    pub fn next_ref(&mut self) -> (r: Result<Vec<u8>, InterpreterErr>)
        requires
            old(self).wf(),
        ensures
            final(self).wf(),
            final(self).registers == old(self).registers,
            final(self).rand == old(self).rand,
            final(self).output == old(self).output,
            (crate::grammar::parse_ref(old(self).toks()) matches Some(p) ==> (r matches Ok(name)
                && name@ == p.0 && final(self).toks() == p.1 && (old(self).token_index + 3
                <= usize::MAX ==> final(self).token_index == old(self).token_index + 3))),
            (crate::grammar::parse_ref(old(self).toks()) is None ==> (r matches Err(e) && (e
                matches InterpreterErr::ExpectedARef(ix) && ix == old(self).token_index)
                && *final(self) == *old(self))),
    {
        let shape = self.next_tokens.len() >= 3 && matches!(
            self.next_tokens[0],
            WsToken::LeftBracket,
        ) && matches!(self.next_tokens[1], WsToken::Ident(_)) && matches!(
            self.next_tokens[2],
            WsToken::RightBracket,
        );
        if !shape {
            return Err(InterpreterErr::ExpectedARef(self.token_index));
        }
        self.next();
        let t = self.next();
        let name = match t {
            WsToken::Ident(n) => n,
            _ => {
                return Err(InterpreterErr::ExpectedARef(self.token_index));
            },
        };
        self.next();
        proof {
            assert(self.next_tokens@ =~= old(self).next_tokens@.skip(3));
        }
        Ok(name)
    }

    /// Parses an expression introduced by a leading marker token and
    /// terminated by the end token.
    pub fn next_expr(&mut self, start_token: WsToken, end_token: WsToken) -> (r: Result<
        crate::expr::Expr,
        InterpreterErr,
    >)
        requires
            old(self).wf(),
        ensures
            final(self).wf(),
            final(self).toks().len() <= old(self).toks().len(),
            ((old(self).toks().len() > 0 && crate::tokens::token_eq_spec(
                old(self).toks()[0],
                start_token,
            )) ==> (crate::grammar::parse_expr(
                old(self).toks().skip(1),
                None,
                end_token,
            ) matches Some(p) ==> (r matches Ok(x) && crate::model::expr_view(x) == p.0 && final(self).toks() == p.1 && final(self).registers == old(self).registers && final(self).rand
                == old(self).rand && final(self).output == old(self).output))),
            (!(old(self).toks().len() > 0 && crate::tokens::token_eq_spec(
                old(self).toks()[0],
                start_token,
            )) ==> (r matches Err(e) && (e matches InterpreterErr::ExpectedAnExpr(ix) && ix == old(self).token_index) && *final(self) == *old(self))),
    {
        proof {
            if old(self).toks().len() > 0 {
                assert(old(self).toks().drop_first() =~= old(self).toks().skip(1));
                assert(old(self).toks().drop_first() == old(self).toks().skip(1));
            }
        }
        let starts = match self.peek() {
            Some(t) => crate::tokens::token_eq(t, &start_token),
            None => false,
        };
        if !starts {
            return Err(InterpreterErr::ExpectedAnExpr(self.token_index));
        }
        self.next();
        crate::expr::Expr::scan(self, None, end_token)
    }

    /// Parses a declaration: after the lead token a single terminated
    /// expression, after a colon a block of statements ending at the
    /// end-of-block sentinel; anything else is the expected-declaration
    /// fault.  On the declaration grammar the produced declaration, the
    /// remaining queue and the scan-time register effect of any `define`
    /// are pinned exactly.
    pub fn next_decl(&mut self, start_token: WsToken) -> (r: Result<
        crate::stm::Decl,
        InterpreterErr,
    >)
        requires
            old(self).wf(),
        ensures
            final(self).wf(),
            final(self).toks().len() <= old(self).toks().len(),
            (crate::grammar::parse_decl(old(self).toks(), start_token, old(self).regs())
                matches Some(p) ==> (r matches Ok(d) && crate::model::decl_view(d) == p.0
                && final(self).toks() == p.1 && final(self).regs() == p.2 && final(self).rand
                == old(self).rand && final(self).output == old(self).output)),
            ((old(self).toks().len() > 0 && !crate::tokens::token_eq_spec(
                old(self).toks()[0],
                start_token,
            ) && !(old(self).toks()[0] is Colon)) ==> (r matches Err(e) && (e matches
            InterpreterErr::ExpectedADecl(ix) && ix == old(self).token_index) && *final(self)
                == *old(self))),
        decreases old(self).toks().len(), 0int,
    {
        proof {
            reveal_with_fuel(crate::grammar::parse_decl, 2);
            if old(self).toks().len() > 0 {
                assert(old(self).toks().drop_first() =~= old(self).toks().skip(1));
                assert(old(self).toks().drop_first() == old(self).toks().skip(1));
            }
        }
        let starts = match self.peek() {
            Some(t) => crate::tokens::token_eq(t, &start_token),
            None => false,
        };
        if starts {
            self.next();
            let e = crate::expr::Expr::scan(self, None, WsToken::SemiColon)?;
            let rv = crate::stm::Decl::Expr(e);
            proof {
                reveal_with_fuel(crate::grammar::parse_decl, 2);
                match crate::grammar::parse_decl(
                    old(self).toks(),
                    start_token,
                    old(self).regs(),
                ) {
                    Some(p) => {
                        assert(crate::model::decl_view(rv) == p.0);
                    },
                    None => {},
                }
            }
            return Ok(rv);
        }
        let colon = match self.peek() {
            Some(t) => matches!(t, WsToken::Colon),
            None => false,
        };
        if colon {
            self.next();
            let stms = crate::stm::Stm::scan(self, Vec::new(), WsToken::Eos)?;
            let rv = crate::stm::Decl::Closure(stms);
            proof {
                reveal_with_fuel(crate::grammar::parse_decl, 2);
                assert(crate::model::stms_view(Seq::<crate::stm::Stm>::empty())
                    =~= Seq::<crate::model::Stm>::empty());
                match crate::grammar::parse_decl(
                    old(self).toks(),
                    start_token,
                    old(self).regs(),
                ) {
                    Some(p) => {
                        assert(crate::model::decl_view(rv) == p.0);
                    },
                    None => {},
                }
            }
            return Ok(rv);
        }
        Err(InterpreterErr::ExpectedADecl(self.token_index))
    }
}

/// A name that occurs at no position of the list is not in its map.
proof fn lemma_reg_map_absent(s: Seq<(Vec<u8>, Primitive)>, k: Seq<u8>)
    requires
        forall|j: int| 0 <= j < s.len() ==> s[j].0@ != k,
    ensures
        !reg_map(s).contains_key(k),
    decreases s,
{
    if s.len() > 0 {
        lemma_reg_map_absent(s.drop_last(), k);
    }
}

/// With unique names, the map value of a listed name is the view of its
/// listed value.
proof fn lemma_reg_map_present(s: Seq<(Vec<u8>, Primitive)>, i: int)
    requires
        unique_names(s),
        0 <= i < s.len(),
    ensures
        reg_map(s).contains_key(s[i].0@),
        reg_map(s)[s[i].0@] == model::prim_view(s[i].1),
    decreases s,
{
    if i == s.len() - 1 {
    } else {
        assert(unique_names(s.drop_last()));
        lemma_reg_map_present(s.drop_last(), i);
        assert(s.last().0@ != s[i].0@);
    }
}

/// With unique names, dropping one entry removes exactly its name from the
/// map, and the names stay unique.
proof fn lemma_reg_map_remove(s: Seq<(Vec<u8>, Primitive)>, i: int)
    requires
        unique_names(s),
        0 <= i < s.len(),
    ensures
        unique_names(s.remove(i)),
        reg_map(s.remove(i)) == reg_map(s).remove(s[i].0@),
    decreases s,
{
    let t = s.remove(i);
    assert(forall|j: int| 0 <= j < i ==> t[j] == s[j]);
    assert(forall|j: int| i <= j < t.len() ==> t[j] == s[j + 1]);
    assert(unique_names(t));
    if i == s.len() - 1 {
        assert(t =~= s.drop_last());
        assert(forall|j: int| 0 <= j < s.len() - 1 ==> s[j].0@ != s[i].0@);
        lemma_reg_map_absent(s.drop_last(), s[i].0@);
        assert(reg_map(s.drop_last()) =~= reg_map(s).remove(s[i].0@));
    } else {
        assert(unique_names(s.drop_last()));
        lemma_reg_map_remove(s.drop_last(), i);
        assert(t.drop_last() =~= s.drop_last().remove(i));
        assert(t.last() == s.last());
        assert(s[i].0@ != s.last().0@);
        assert(reg_map(t) == reg_map(s.drop_last().remove(i)).insert(
            t.last().0@,
            model::prim_view(t.last().1),
        ));
        assert(reg_map(t) =~= reg_map(s).remove(s[i].0@));
    }
}

/// Dropping the one entry that carried a name leaves no position with it.
proof fn lemma_reg_map_absent_still(s: Seq<(Vec<u8>, Primitive)>, i: int, k: Seq<u8>)
    requires
        unique_names(s),
        0 <= i < s.len(),
        s[i].0@ == k,
    ensures
        forall|j: int| 0 <= j < s.remove(i).len() ==> s.remove(i)[j].0@ != k,
{
    let t = s.remove(i);
    assert forall|j: int| 0 <= j < t.len() implies t[j].0@ != k by {
        if j < i {
            assert(t[j] == s[j]);
        } else {
            assert(t[j] == s[j + 1]);
        }
    }
}

} // verus!
