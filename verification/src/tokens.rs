//! The lexical token vocabulary of the language, the keyword table, and the
//! scanner that turns raw source bytes into a token queue.
//!
//! The interpreter core only needs token equality, lookahead and the two
//! sentinels (`Eof` for end of input, `Eos` for end of a block).  Identifiers
//! are kept to at most 16 bytes and string literals to at most 32 bytes; a
//! longer word is cut to the bound when it is lexed.

use vstd::prelude::*;

verus! {

/// One lexical token of the language.
#[derive(Debug)]
pub enum WsToken {
    Let,
    SetKw,
    If,
    While,
    Choose,
    Out,
    Tell,
    Def,
    Ident(Vec<u8>),
    DigitLit(i16),
    StrLit(Vec<u8>),
    Int,
    Bool,
    Str,
    Deck,
    Void,
    Plus,
    Minus,
    Star,
    Slash,
    Dice,
    Eq,
    Ne,
    Gt,
    Ge,
    Lt,
    Le,
    InArrow,
    OutArrow,
    LeftParen,
    RightParen,
    LeftBracket,
    RightBracket,
    Colon,
    SemiColon,
    Qmark,
    Pipe,
    Tide,
    Ellipsis,
    Eos,
    Eof,
}

/// A fault found while turning source text into tokens; each variant carries
/// the byte offset at which it was found.
#[derive(Debug)]
pub enum LexErr {
    NotADigit(usize),
    NotAKeyword(usize),
    UnterminatedStr(usize),
}

/// Token equality: two tokens are the same when they are the same variant and
/// carry the same payload (identifier and literal payloads compare by their
/// contents).
pub open spec fn token_eq_spec(a: WsToken, b: WsToken) -> bool {
    match (a, b) {
        (WsToken::Ident(x), WsToken::Ident(y)) => x@ == y@,
        (WsToken::DigitLit(x), WsToken::DigitLit(y)) => x == y,
        (WsToken::StrLit(x), WsToken::StrLit(y)) => x@ == y@,
        (WsToken::Let, WsToken::Let) => true,
        (WsToken::SetKw, WsToken::SetKw) => true,
        (WsToken::If, WsToken::If) => true,
        (WsToken::While, WsToken::While) => true,
        (WsToken::Choose, WsToken::Choose) => true,
        (WsToken::Out, WsToken::Out) => true,
        (WsToken::Tell, WsToken::Tell) => true,
        (WsToken::Def, WsToken::Def) => true,
        (WsToken::Int, WsToken::Int) => true,
        (WsToken::Bool, WsToken::Bool) => true,
        (WsToken::Str, WsToken::Str) => true,
        (WsToken::Deck, WsToken::Deck) => true,
        (WsToken::Void, WsToken::Void) => true,
        (WsToken::Plus, WsToken::Plus) => true,
        (WsToken::Minus, WsToken::Minus) => true,
        (WsToken::Star, WsToken::Star) => true,
        (WsToken::Slash, WsToken::Slash) => true,
        (WsToken::Dice, WsToken::Dice) => true,
        (WsToken::Eq, WsToken::Eq) => true,
        (WsToken::Ne, WsToken::Ne) => true,
        (WsToken::Gt, WsToken::Gt) => true,
        (WsToken::Ge, WsToken::Ge) => true,
        (WsToken::Lt, WsToken::Lt) => true,
        (WsToken::Le, WsToken::Le) => true,
        (WsToken::InArrow, WsToken::InArrow) => true,
        (WsToken::OutArrow, WsToken::OutArrow) => true,
        (WsToken::LeftParen, WsToken::LeftParen) => true,
        (WsToken::RightParen, WsToken::RightParen) => true,
        (WsToken::LeftBracket, WsToken::LeftBracket) => true,
        (WsToken::RightBracket, WsToken::RightBracket) => true,
        (WsToken::Colon, WsToken::Colon) => true,
        (WsToken::SemiColon, WsToken::SemiColon) => true,
        (WsToken::Qmark, WsToken::Qmark) => true,
        (WsToken::Pipe, WsToken::Pipe) => true,
        (WsToken::Tide, WsToken::Tide) => true,
        (WsToken::Ellipsis, WsToken::Ellipsis) => true,
        (WsToken::Eos, WsToken::Eos) => true,
        (WsToken::Eof, WsToken::Eof) => true,
        _ => false,
    }
}

/// Compares two tokens for equality, payloads included.
pub fn token_eq(a: &WsToken, b: &WsToken) -> (r: bool)
    ensures
        r == token_eq_spec(*a, *b),
{
    match (a, b) {
        (WsToken::Ident(x), WsToken::Ident(y)) => bytes_eq(x, y),
        (WsToken::DigitLit(x), WsToken::DigitLit(y)) => x == y,
        (WsToken::StrLit(x), WsToken::StrLit(y)) => bytes_eq(x, y),
        (WsToken::Let, WsToken::Let) => true,
        (WsToken::SetKw, WsToken::SetKw) => true,
        (WsToken::If, WsToken::If) => true,
        (WsToken::While, WsToken::While) => true,
        (WsToken::Choose, WsToken::Choose) => true,
        (WsToken::Out, WsToken::Out) => true,
        (WsToken::Tell, WsToken::Tell) => true,
        (WsToken::Def, WsToken::Def) => true,
        (WsToken::Int, WsToken::Int) => true,
        (WsToken::Bool, WsToken::Bool) => true,
        (WsToken::Str, WsToken::Str) => true,
        (WsToken::Deck, WsToken::Deck) => true,
        (WsToken::Void, WsToken::Void) => true,
        (WsToken::Plus, WsToken::Plus) => true,
        (WsToken::Minus, WsToken::Minus) => true,
        (WsToken::Star, WsToken::Star) => true,
        (WsToken::Slash, WsToken::Slash) => true,
        (WsToken::Dice, WsToken::Dice) => true,
        (WsToken::Eq, WsToken::Eq) => true,
        (WsToken::Ne, WsToken::Ne) => true,
        (WsToken::Gt, WsToken::Gt) => true,
        (WsToken::Ge, WsToken::Ge) => true,
        (WsToken::Lt, WsToken::Lt) => true,
        (WsToken::Le, WsToken::Le) => true,
        (WsToken::InArrow, WsToken::InArrow) => true,
        (WsToken::OutArrow, WsToken::OutArrow) => true,
        (WsToken::LeftParen, WsToken::LeftParen) => true,
        (WsToken::RightParen, WsToken::RightParen) => true,
        (WsToken::LeftBracket, WsToken::LeftBracket) => true,
        (WsToken::RightBracket, WsToken::RightBracket) => true,
        (WsToken::Colon, WsToken::Colon) => true,
        (WsToken::SemiColon, WsToken::SemiColon) => true,
        (WsToken::Qmark, WsToken::Qmark) => true,
        (WsToken::Pipe, WsToken::Pipe) => true,
        (WsToken::Tide, WsToken::Tide) => true,
        (WsToken::Ellipsis, WsToken::Ellipsis) => true,
        (WsToken::Eos, WsToken::Eos) => true,
        (WsToken::Eof, WsToken::Eof) => true,
        _ => false,
    }
}

/// The keyword table: maps a whole word to its token.  An empty word stands
/// for the end of the input and maps to the `Eof` sentinel; `>>>>` is the
/// end-of-block sentinel `Eos`.
pub open spec fn keyword_token(s: Seq<u8>) -> Option<WsToken> {
    if s.len() == 0 {
        Some(WsToken::Eof)
    } else if s.len() == 1 {
        if s[0] == 43 {
            Some(WsToken::Plus)
        } else if s[0] == 45 {
            Some(WsToken::Minus)
        } else if s[0] == 42 {
            Some(WsToken::Star)
        } else if s[0] == 47 {
            Some(WsToken::Slash)
        } else if s[0] == 100 {
            Some(WsToken::Dice)
        } else if s[0] == 61 {
            Some(WsToken::Eq)
        } else if s[0] == 62 {
            Some(WsToken::Gt)
        } else if s[0] == 60 {
            Some(WsToken::Lt)
        } else if s[0] == 40 {
            Some(WsToken::LeftParen)
        } else if s[0] == 41 {
            Some(WsToken::RightParen)
        } else if s[0] == 91 {
            Some(WsToken::LeftBracket)
        } else if s[0] == 93 {
            Some(WsToken::RightBracket)
        } else if s[0] == 58 {
            Some(WsToken::Colon)
        } else if s[0] == 59 {
            Some(WsToken::SemiColon)
        } else if s[0] == 63 {
            Some(WsToken::Qmark)
        } else if s[0] == 126 {
            Some(WsToken::Tide)
        } else if s[0] == 124 {
            Some(WsToken::Pipe)
        } else {
            None
        }
    } else if s.len() == 2 {
        if s[0] == 47 && s[1] == 61 {
            Some(WsToken::Ne)
        } else if s[0] == 62 && s[1] == 61 {
            Some(WsToken::Ge)
        } else if s[0] == 60 && s[1] == 61 {
            Some(WsToken::Le)
        } else if s[0] == 60 && s[1] == 45 {
            Some(WsToken::InArrow)
        } else if s[0] == 45 && s[1] == 62 {
            Some(WsToken::OutArrow)
        } else if s[0] == 105 && s[1] == 102 {
            Some(WsToken::If)
        } else {
            None
        }
    } else if s.len() == 3 {
        if s[0] == 108 && s[1] == 101 && s[2] == 116 {
            Some(WsToken::Let)
        } else if s[0] == 115 && s[1] == 101 && s[2] == 116 {
            Some(WsToken::SetKw)
        } else if s[0] == 111 && s[1] == 117 && s[2] == 116 {
            Some(WsToken::Out)
        } else if s[0] == 46 && s[1] == 46 && s[2] == 46 {
            Some(WsToken::Ellipsis)
        } else {
            None
        }
    } else if s.len() == 4 {
        if s[0] == 116 && s[1] == 101 && s[2] == 108 && s[3] == 108 {
            Some(WsToken::Tell)
        } else if s[0] == 118 && s[1] == 111 && s[2] == 105 && s[3] == 100 {
            Some(WsToken::Void)
        } else if s[0] == 116 && s[1] == 101 && s[2] == 120 && s[3] == 116 {
            Some(WsToken::Str)
        } else if s[0] == 100 && s[1] == 101 && s[2] == 99 && s[3] == 107 {
            Some(WsToken::Deck)
        } else if s[0] == 62 && s[1] == 62 && s[2] == 62 && s[3] == 62 {
            Some(WsToken::Eos)
        } else {
            None
        }
    } else if s.len() == 5 {
        if s[0] == 119 && s[1] == 104 && s[2] == 105 && s[3] == 108 && s[4] == 101 {
            Some(WsToken::While)
        } else {
            None
        }
    } else if s.len() == 6 {
        if s[0] == 99 && s[1] == 104 && s[2] == 111 && s[3] == 111 && s[4] == 115 && s[5] == 101 {
            Some(WsToken::Choose)
        } else if s[0] == 100 && s[1] == 101 && s[2] == 102 && s[3] == 105 && s[4] == 110 && s[5]
            == 101 {
            Some(WsToken::Def)
        } else {
            None
        }
    } else if s.len() == 7 {
        if s[0] == 105 && s[1] == 110 && s[2] == 116 && s[3] == 101 && s[4] == 103 && s[5] == 101
            && s[6] == 114 {
            Some(WsToken::Int)
        } else if s[0] == 98 && s[1] == 111 && s[2] == 111 && s[3] == 108 && s[4] == 101 && s[5]
            == 97 && s[6] == 110 {
            Some(WsToken::Bool)
        } else {
            None
        }
    } else {
        None
    }
}

/// Looks a whole word up in the keyword table.
pub fn read_keyword(word: &Vec<u8>) -> (r: Option<WsToken>)
    ensures
        r == keyword_token(word@),
{
    if word.len() == 0 {
        Some(WsToken::Eof)
    } else if word.len() == 1 {
        if word[0] == 43 {
            Some(WsToken::Plus)
        } else if word[0] == 45 {
            Some(WsToken::Minus)
        } else if word[0] == 42 {
            Some(WsToken::Star)
        } else if word[0] == 47 {
            Some(WsToken::Slash)
        } else if word[0] == 100 {
            Some(WsToken::Dice)
        } else if word[0] == 61 {
            Some(WsToken::Eq)
        } else if word[0] == 62 {
            Some(WsToken::Gt)
        } else if word[0] == 60 {
            Some(WsToken::Lt)
        } else if word[0] == 40 {
            Some(WsToken::LeftParen)
        } else if word[0] == 41 {
            Some(WsToken::RightParen)
        } else if word[0] == 91 {
            Some(WsToken::LeftBracket)
        } else if word[0] == 93 {
            Some(WsToken::RightBracket)
        } else if word[0] == 58 {
            Some(WsToken::Colon)
        } else if word[0] == 59 {
            Some(WsToken::SemiColon)
        } else if word[0] == 63 {
            Some(WsToken::Qmark)
        } else if word[0] == 126 {
            Some(WsToken::Tide)
        } else if word[0] == 124 {
            Some(WsToken::Pipe)
        } else {
            None
        }
    } else if word.len() == 2 {
        if word[0] == 47 && word[1] == 61 {
            Some(WsToken::Ne)
        } else if word[0] == 62 && word[1] == 61 {
            Some(WsToken::Ge)
        } else if word[0] == 60 && word[1] == 61 {
            Some(WsToken::Le)
        } else if word[0] == 60 && word[1] == 45 {
            Some(WsToken::InArrow)
        } else if word[0] == 45 && word[1] == 62 {
            Some(WsToken::OutArrow)
        } else if word[0] == 105 && word[1] == 102 {
            Some(WsToken::If)
        } else {
            None
        }
    } else if word.len() == 3 {
        if word[0] == 108 && word[1] == 101 && word[2] == 116 {
            Some(WsToken::Let)
        } else if word[0] == 115 && word[1] == 101 && word[2] == 116 {
            Some(WsToken::SetKw)
        } else if word[0] == 111 && word[1] == 117 && word[2] == 116 {
            Some(WsToken::Out)
        } else if word[0] == 46 && word[1] == 46 && word[2] == 46 {
            Some(WsToken::Ellipsis)
        } else {
            None
        }
    } else if word.len() == 4 {
        if word[0] == 116 && word[1] == 101 && word[2] == 108 && word[3] == 108 {
            Some(WsToken::Tell)
        } else if word[0] == 118 && word[1] == 111 && word[2] == 105 && word[3] == 100 {
            Some(WsToken::Void)
        } else if word[0] == 116 && word[1] == 101 && word[2] == 120 && word[3] == 116 {
            Some(WsToken::Str)
        } else if word[0] == 100 && word[1] == 101 && word[2] == 99 && word[3] == 107 {
            Some(WsToken::Deck)
        } else if word[0] == 62 && word[1] == 62 && word[2] == 62 && word[3] == 62 {
            Some(WsToken::Eos)
        } else {
            None
        }
    } else if word.len() == 5 {
        if word[0] == 119 && word[1] == 104 && word[2] == 105 && word[3] == 108 && word[4] == 101 {
            Some(WsToken::While)
        } else {
            None
        }
    } else if word.len() == 6 {
        if word[0] == 99 && word[1] == 104 && word[2] == 111 && word[3] == 111 && word[4] == 115
            && word[5] == 101 {
            Some(WsToken::Choose)
        } else if word[0] == 100 && word[1] == 101 && word[2] == 102 && word[3] == 105 && word[4]
            == 110 && word[5] == 101 {
            Some(WsToken::Def)
        } else {
            None
        }
    } else if word.len() == 7 {
        if word[0] == 105 && word[1] == 110 && word[2] == 116 && word[3] == 101 && word[4] == 103
            && word[5] == 101 && word[6] == 114 {
            Some(WsToken::Int)
        } else if word[0] == 98 && word[1] == 111 && word[2] == 111 && word[3] == 108 && word[4]
            == 101 && word[5] == 97 && word[6] == 110 {
            Some(WsToken::Bool)
        } else {
            None
        }
    } else {
        None
    }
}

/// Copies a token, payloads included; used where a fault reports the token
/// it stumbled on.
pub fn clone_token(t: &WsToken) -> (r: WsToken)
    ensures
        token_eq_spec(r, *t),
{
    match t {
        WsToken::Ident(x) => WsToken::Ident(crate::stm::clone_name(x)),
        WsToken::DigitLit(x) => WsToken::DigitLit(*x),
        WsToken::StrLit(x) => WsToken::StrLit(crate::stm::clone_name(x)),
        WsToken::Let => WsToken::Let,
        WsToken::SetKw => WsToken::SetKw,
        WsToken::If => WsToken::If,
        WsToken::While => WsToken::While,
        WsToken::Choose => WsToken::Choose,
        WsToken::Out => WsToken::Out,
        WsToken::Tell => WsToken::Tell,
        WsToken::Def => WsToken::Def,
        WsToken::Int => WsToken::Int,
        WsToken::Bool => WsToken::Bool,
        WsToken::Str => WsToken::Str,
        WsToken::Deck => WsToken::Deck,
        WsToken::Void => WsToken::Void,
        WsToken::Plus => WsToken::Plus,
        WsToken::Minus => WsToken::Minus,
        WsToken::Star => WsToken::Star,
        WsToken::Slash => WsToken::Slash,
        WsToken::Dice => WsToken::Dice,
        WsToken::Eq => WsToken::Eq,
        WsToken::Ne => WsToken::Ne,
        WsToken::Gt => WsToken::Gt,
        WsToken::Ge => WsToken::Ge,
        WsToken::Lt => WsToken::Lt,
        WsToken::Le => WsToken::Le,
        WsToken::InArrow => WsToken::InArrow,
        WsToken::OutArrow => WsToken::OutArrow,
        WsToken::LeftParen => WsToken::LeftParen,
        WsToken::RightParen => WsToken::RightParen,
        WsToken::LeftBracket => WsToken::LeftBracket,
        WsToken::RightBracket => WsToken::RightBracket,
        WsToken::Colon => WsToken::Colon,
        WsToken::SemiColon => WsToken::SemiColon,
        WsToken::Qmark => WsToken::Qmark,
        WsToken::Pipe => WsToken::Pipe,
        WsToken::Tide => WsToken::Tide,
        WsToken::Ellipsis => WsToken::Ellipsis,
        WsToken::Eos => WsToken::Eos,
        WsToken::Eof => WsToken::Eof,
    }
}

/// Byte-sequence equality, used for identifier and literal payloads.
pub fn bytes_eq(a: &Vec<u8>, b: &Vec<u8>) -> (r: bool)
    ensures
        r == (a@ == b@),
{
    if a.len() != b.len() {
        return false;
    }
    let n = a.len();
    let mut i: usize = 0;
    while i < n
        invariant
            n == a@.len(),
            n == b@.len(),
            0 <= i <= n,
            forall|j: int| 0 <= j < i ==> a@[j] == b@[j],
        decreases n - i,
    {
        if a[i] != b[i] {
            return false;
        }
        i = i + 1;
    }
    proof {
        assert(a@ =~= b@);
    }
    true
}

/// Whether a byte is an ASCII decimal digit.
pub open spec fn is_digit(b: u8) -> bool {
    48 <= b <= 57
}

/// Whether every byte of a sequence is an ASCII decimal digit.
pub open spec fn all_digits(s: Seq<u8>) -> bool {
    forall|i: int| 0 <= i < s.len() ==> is_digit(s[i])
}

/// The unsigned value of a run of ASCII digits, most significant first.
pub open spec fn digits_value(s: Seq<u8>) -> int
    decreases s.len(),
{
    if s.len() == 0 {
        0
    } else {
        digits_value(s.drop_last()) * 10 + (s.last() - 48)
    }
}

/// The value of a signed decimal word, if the word is one and the value fits
/// a 16-bit signed integer.
pub open spec fn digit_lit_value(s: Seq<u8>) -> Option<int> {
    if s.len() >= 1 && (s[0] == 45 || s[0] == 43) {
        let body = s.subrange(1, s.len() as int);
        if body.len() >= 1 && all_digits(body) {
            let v = if s[0] == 45 {
                -digits_value(body)
            } else {
                digits_value(body)
            };
            if -32768 <= v <= 32767 {
                Some(v)
            } else {
                None
            }
        } else {
            None
        }
    } else if s.len() >= 1 && all_digits(s) {
        if digits_value(s) <= 32767 {
            Some(digits_value(s))
        } else {
            None
        }
    } else {
        None
    }
}

proof fn lemma_digits_extend(s: Seq<u8>, k: int)
    requires
        0 <= k <= s.len(),
        forall|j: int| k <= j < s.len() ==> is_digit(s[j]),
        digits_value(s.subrange(0, k)) >= 0,
    ensures
        digits_value(s) >= digits_value(s.subrange(0, k)),
    decreases s.len() - k,
{
    if k < s.len() {
        let t = s.subrange(0, k + 1);
        assert(t.drop_last() =~= s.subrange(0, k));
        assert(digits_value(t) == digits_value(s.subrange(0, k)) * 10 + (s[k] - 48));
        lemma_digits_extend(s, k + 1);
    } else {
        assert(s.subrange(0, k) =~= s);
    }
}

/// Reads a whole word as a signed 16-bit decimal literal.
pub fn read_digit_lit(word: &Vec<u8>) -> (r: Option<i16>)
    ensures
        match r {
            Some(x) => digit_lit_value(word@) == Some(x as int),
            None => digit_lit_value(word@) is None,
        },
{
    let n = word.len();
    if n == 0 {
        return None;
    }
    let signed = word[0] == 45 || word[0] == 43;
    let neg = word[0] == 45;
    let start: usize = if signed {
        1
    } else {
        0
    };
    if n == start {
        return None;
    }
    let ghost body = word@.subrange(start as int, n as int);
    let mut v: u64 = 0;
    let mut i: usize = start;
    while i < n
        invariant
            start <= i <= n,
            start < n,
            n == word@.len(),
            start == 0 || start == 1,
            signed == (word@[0] == 45 || word@[0] == 43),
            neg == (word@[0] == 45),
            start == 1 <==> signed,
            body == word@.subrange(start as int, n as int),
            forall|j: int| start <= j < i ==> is_digit(word@[j]),
            v == digits_value(word@.subrange(start as int, i as int)),
            v <= 32768,
        decreases n - i,
    {
        let b = word[i];
        if b < 48 || b > 57 {
            proof {
                assert(body[i - start] == word@[i as int]);
                assert(!is_digit(body[i - start]));
            }
            return None;
        }
        proof {
            assert(word@.subrange(start as int, i + 1).drop_last() =~= word@.subrange(
                start as int,
                i as int,
            ));
        }
        v = v * 10 + ((b - 48) as u64);
        i = i + 1;
        if v > 32768 {
            proof {
                if start == 0 {
                    assert(body =~= word@);
                }
                if all_digits(body) {
                    assert(body.subrange(0, i - start) =~= word@.subrange(
                        start as int,
                        i as int,
                    ));
                    assert(digits_value(body.subrange(0, i - start)) == v);
                    lemma_digits_extend(body, i - start);
                    assert(digits_value(body) > 32768);
                }
            }
            return None;
        }
    }
    proof {
        assert forall|j: int| 0 <= j < body.len() implies is_digit(body[j]) by {
            assert(body[j] == word@[j + start]);
        }
        assert(all_digits(body));
        if start == 0 {
            assert(body =~= word@);
        }
    }
    if neg {
        if v == 32768 {
            Some(-32768i16)
        } else {
            let m: i16 = v as i16;
            Some(-m)
        }
    } else {
        if v > 32767 {
            None
        } else {
            Some(v as i16)
        }
    }
}

/// Copies at most `cap` leading bytes of a word, the bound that identifiers
/// and string literals are held to.
pub fn clip(word: &Vec<u8>, from: usize, until: usize, cap: usize) -> (r: Vec<u8>)
    requires
        from <= until <= word@.len(),
    ensures
        r@ == word@.subrange(from as int, until as int).take(
            if until - from <= cap {
                until - from
            } else {
                cap as int
            },
        ),
{
    let stop: usize = if until - from <= cap {
        until
    } else {
        from + cap
    };
    let mut r: Vec<u8> = Vec::new();
    let mut i: usize = from;
    while i < stop
        invariant
            from <= i <= stop <= word@.len(),
            r@ =~= word@.subrange(from as int, i as int),
        decreases stop - i,
    {
        r.push(word[i]);
        i = i + 1;
    }
    proof {
        assert(r@ =~= word@.subrange(from as int, until as int).take(
            if until - from <= cap {
                until - from
            } else {
                cap as int
            },
        ));
    }
    r
}

/// Whether a byte sequence is one plain word: non-empty, free of
/// whitespace, and opening no comment or string literal.
pub open spec fn plain_word(s: Seq<u8>) -> bool {
    s.len() >= 1 && forall|i: int|
        0 <= i < s.len() ==> !is_ws(s[i]) && s[i] != 126 && s[i] != 35 && s[i] != 39
}

/// Whether a byte is ASCII whitespace as the scanner understands it.
pub open spec fn is_ws(b: u8) -> bool {
    b == 32 || b == 9 || b == 10 || b == 13
}

/// Whether a byte may open an identifier: a letter or an underscore.
pub open spec fn is_ident_start(b: u8) -> bool {
    (65 <= b <= 90) || (97 <= b <= 122) || b == 95
}

/// Turns raw source bytes into the token queue that the parsing engines
/// consume.  Whitespace separates words; `~` opens a comment that runs to the
/// end of the line, `#` opens one that runs to the next `#`; a word between
/// single quotes is a string literal.  Each word is classified through the
/// keyword table, then as a decimal literal, then as an identifier.  On
/// success the produced queue always ends with the end-of-input sentinel.
pub fn lex(src: &Vec<u8>) -> (r: Result<Vec<WsToken>, LexErr>)
    ensures
        r matches Ok(ts) ==> ts@.len() >= 1 && ts@.last() is Eof,
        (plain_word(src@) ==> (keyword_token(src@) matches Some(t) ==> (r matches Ok(ts)
            && ts@.len() == 2 && token_eq_spec(ts@[0], t) && ts@[1] is Eof))),
        ((plain_word(src@) && keyword_token(src@) is None) ==> (digit_lit_value(src@) matches
            Some(v) ==> (r matches Ok(ts) && ts@.len() == 2 && (ts@[0] matches
        WsToken::DigitLit(x) && x as int == v) && ts@[1] is Eof))),
{
    let n = src.len();
    let ghost single_kw = plain_word(src@) && keyword_token(src@) is Some;
    let ghost single_dig = plain_word(src@) && keyword_token(src@) is None && digit_lit_value(
        src@,
    ) is Some;
    let mut out: Vec<WsToken> = Vec::new();
    let mut i: usize = 0;
    while i < n
        invariant
            0 <= i <= n,
            n == src@.len(),
            single_kw == (plain_word(src@) && keyword_token(src@) is Some),
            single_dig == (plain_word(src@) && keyword_token(src@) is None && digit_lit_value(
                src@,
            ) is Some),
            single_kw ==> ((i == 0 && out@.len() == 0) || (i == n && out@.len() == 1 && (
            keyword_token(src@) matches Some(t) && token_eq_spec(out@[0], t)))),
            single_dig ==> ((i == 0 && out@.len() == 0) || (i == n && out@.len() == 1 && (
            digit_lit_value(src@) matches Some(v) && out@[0] matches WsToken::DigitLit(x)
                && x as int == v))),
        decreases n - i,
    {
        let b = src[i];
        if b == 32 || b == 9 || b == 10 || b == 13 {
            i = i + 1;
        } else if b == 126 {
            // comment to the end of the line
            i = i + 1;
            let ghost resumed = i as int;
            while i < n && src[i] != 10
                invariant
                    resumed <= i <= n,
                    n == src@.len(),
                decreases n - i,
            {
                i = i + 1;
            }
        } else if b == 35 {
            // comment to the next '#', or to the end of the input
            i = i + 1;
            let ghost resumed = i as int;
            while i < n && src[i] != 35
                invariant
                    resumed <= i <= n,
                    n == src@.len(),
                decreases n - i,
            {
                i = i + 1;
            }
            if i < n {
                i = i + 1;
            }
        } else if b == 39 {
            // string literal between single quotes
            let open = i;
            let mut j: usize = i + 1;
            while j < n && src[j] != 39
                invariant
                    i < j <= n,
                    n == src@.len(),
                decreases n - j,
            {
                j = j + 1;
            }
            if j == n {
                return Err(LexErr::UnterminatedStr(open));
            }
            out.push(WsToken::StrLit(clip(src, open + 1, j, 32)));
            i = j + 1;
        } else {
            // a word: the maximal run of non-whitespace bytes
            let start = i;
            let mut j: usize = i + 1;
            while j < n && !(src[j] == 32 || src[j] == 9 || src[j] == 10 || src[j] == 13)
                invariant
                    i < j <= n,
                    n == src@.len(),
                decreases n - j,
            {
                j = j + 1;
            }
            let word = clip(src, start, j, j - start);
            proof {
                if single_kw || single_dig {
                    assert(i == 0);
                    assert(forall|k: int| 0 <= k < src@.len() ==> !is_ws(src@[k]));
                    assert(j == n);
                    assert(word@ =~= src@);
                    assert(word@ == src@);
                    if single_dig {
                        let sv = src@;
                        if sv[0] == 45 || sv[0] == 43 {
                            assert(sv.subrange(1, sv.len() as int).len() >= 1);
                            assert(is_digit(sv.subrange(1, sv.len() as int)[0]));
                            assert(sv[1] == sv.subrange(1, sv.len() as int)[0]);
                            assert(is_digit(sv[1]));
                        } else {
                            assert(is_digit(sv[0]));
                        }
                    }
                }
            }
            match read_keyword(&word) {
                Some(t) => { out.push(t); },
                None => {
                    let b0 = word[0];
                    let signed_digit = (b0 == 45 || b0 == 43) && word.len() >= 2 && 48
                        <= word[1] && word[1] <= 57;
                    if (48 <= b0 && b0 <= 57) || signed_digit {
                        match read_digit_lit(&word) {
                            Some(x) => { out.push(WsToken::DigitLit(x)); },
                            None => { return Err(LexErr::NotADigit(start)); },
                        }
                    } else if (65 <= b0 && b0 <= 90) || (97 <= b0 && b0 <= 122) || b0 == 95 {
                        out.push(WsToken::Ident(clip(&word, 0, word.len(), 16)));
                    } else {
                        return Err(LexErr::NotAKeyword(start));
                    }
                },
            }
            i = j;
        }
    }
    out.push(WsToken::Eof);
    Ok(out)
}

} // verus!
