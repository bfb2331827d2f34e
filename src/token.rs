use vstd::prelude::*;

verus! {

/// A lexical unit of a Bolic program.
#[derive(Debug, Clone, Copy, PartialEq, Eq, Structural)]
pub enum Token {
    /// A circled number, zero to ten.
    Num(u8),
    Plus,
    Minus,
    Mul,
    Div,
    /// Print a number.
    NumOut,
    /// Print a character.
    CharOut,
    /// A variable name.
    Symbol(char),
    Assign,
    If,
    Then,
    Else,
    IfEnd,
    While,
    Do,
    WhileEnd,
}

/// The token a character stands for, if any; every other character is a comment.
pub open spec fn token_of(c: char) -> Option<Token> {
    if c == '\u{24ea}' {
        Some(Token::Num(0))
    } else if '\u{2460}' <= c <= '\u{2469}' {
        Some(Token::Num((c as u32 - 0x245f) as u8))
    } else if c == '\u{ff0b}' {
        Some(Token::Plus)
    } else if c == '\u{2212}' {
        Some(Token::Minus)
    } else if c == '\u{d7}' {
        Some(Token::Mul)
    } else if c == '\u{f7}' {
        Some(Token::Div)
    } else if c == '\u{270d}' {
        Some(Token::NumOut)
    } else if c == '\u{266a}' {
        Some(Token::CharOut)
    } else if c == '\u{272a}' || c == '\u{2737}' || c == '\u{2732}' || c == '\u{2729}' {
        Some(Token::Symbol(c))
    } else if c == '\u{261c}' {
        Some(Token::Assign)
    } else if c == '\u{2708}' {
        Some(Token::If)
    } else if c == '\u{263a}' {
        Some(Token::Then)
    } else if c == '\u{2639}' {
        Some(Token::Else)
    } else if c == '\u{263b}' {
        Some(Token::IfEnd)
    } else if c == '\u{267a}' {
        Some(Token::While)
    } else if c == '\u{261e}' {
        Some(Token::Do)
    } else if c == '\u{2658}' {
        Some(Token::WhileEnd)
    } else {
        None
    }
}

/// The tokens of a text, in order.
pub open spec fn tokens_of(s: Seq<char>) -> Seq<Token>
    decreases s.len(),
{
    if s.len() == 0 {
        Seq::empty()
    } else {
        let rest = tokens_of(s.drop_last());
        match token_of(s.last()) {
            Some(t) => rest.push(t),
            None => rest,
        }
    }
}

/// The token a character stands for, if any.
fn lex_char(c: char) -> (r: Option<Token>)
    ensures
        r == token_of(c),
{
    if c == '\u{24ea}' {
        Some(Token::Num(0))
    } else if '\u{2460}' <= c && c <= '\u{2469}' {
        Some(Token::Num((c as u32 - 0x245f) as u8))
    } else if c == '\u{ff0b}' {
        Some(Token::Plus)
    } else if c == '\u{2212}' {
        Some(Token::Minus)
    } else if c == '\u{d7}' {
        Some(Token::Mul)
    } else if c == '\u{f7}' {
        Some(Token::Div)
    } else if c == '\u{270d}' {
        Some(Token::NumOut)
    } else if c == '\u{266a}' {
        Some(Token::CharOut)
    } else if c == '\u{272a}' || c == '\u{2737}' || c == '\u{2732}' || c == '\u{2729}' {
        Some(Token::Symbol(c))
    } else if c == '\u{261c}' {
        Some(Token::Assign)
    } else if c == '\u{2708}' {
        Some(Token::If)
    } else if c == '\u{263a}' {
        Some(Token::Then)
    } else if c == '\u{2639}' {
        Some(Token::Else)
    } else if c == '\u{263b}' {
        Some(Token::IfEnd)
    } else if c == '\u{267a}' {
        Some(Token::While)
    } else if c == '\u{261e}' {
        Some(Token::Do)
    } else if c == '\u{2658}' {
        Some(Token::WhileEnd)
    } else {
        None
    }
}

/// Splits Bolic source text into tokens, dropping every other character.
pub fn lex(code: &str) -> (r: Vec<Token>)
    ensures
        r@ == tokens_of(code@),
{
    let mut out: Vec<Token> = Vec::new();
    for c in it: code.chars()
        invariant
            it.seq() == code@,
            out@ == tokens_of(code@.take(it.index() as int)),
    {
        proof {
            assert(code@.take(it.index() + 1).drop_last() =~= code@.take(it.index() as int));
        }
        match lex_char(c) {
            Some(t) => out.push(t),
            None => {},
        }
    }
    proof {
        assert(code@.take(code@.len() as int) =~= code@);
    }
    out
}

} // verus!
