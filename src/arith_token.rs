use vstd::prelude::*;

verus! {

/// A lexical unit of the arithmetic-only Bolic dialect: numbers, the four
/// operators and the two output commands.
#[derive(Debug, Clone, Copy, PartialEq, Eq, Structural)]
pub enum Token {
    /// A circled number, zero to ten.
    Num(u8),
    Plus,
    Minus,
    Mul,
    Div,
    /// Print a number.
    NumOut,
    /// Print a character.
    CharOut,
}

/// The token a character stands for, if any; every other character is a comment.
/// Here the minus sign is the full-width hyphen-minus (U+FF0D).
pub open spec fn token_of(c: char) -> Option<Token> {
    if c == '\u{24ea}' {
        Some(Token::Num(0))
    } else if '\u{2460}' <= c <= '\u{2469}' {
        Some(Token::Num((c as u32 - 0x245f) as u8))
    } else if c == '\u{ff0b}' {
        Some(Token::Plus)
    } else if c == '\u{ff0d}' {
        Some(Token::Minus)
    } else if c == '\u{d7}' {
        Some(Token::Mul)
    } else if c == '\u{f7}' {
        Some(Token::Div)
    } else if c == '\u{270d}' {
        Some(Token::NumOut)
    } else if c == '\u{266a}' {
        Some(Token::CharOut)
    } else {
        None
    }
}

/// The tokens of a text, in order.
pub open spec fn tokens_of(s: Seq<char>) -> Seq<Token>
    decreases s.len(),
{
    if s.len() == 0 {
        Seq::empty()
    } else {
        let rest = tokens_of(s.drop_last());
        match token_of(s.last()) {
            Some(t) => rest.push(t),
            None => rest,
        }
    }
}

/// The token a character stands for, if any.
fn lex_char(c: char) -> (r: Option<Token>)
    ensures
        r == token_of(c),
{
    if c == '\u{24ea}' {
        Some(Token::Num(0))
    } else if '\u{2460}' <= c && c <= '\u{2469}' {
        Some(Token::Num((c as u32 - 0x245f) as u8))
    } else if c == '\u{ff0b}' {
        Some(Token::Plus)
    } else if c == '\u{ff0d}' {
        Some(Token::Minus)
    } else if c == '\u{d7}' {
        Some(Token::Mul)
    } else if c == '\u{f7}' {
        Some(Token::Div)
    } else if c == '\u{270d}' {
        Some(Token::NumOut)
    } else if c == '\u{266a}' {
        Some(Token::CharOut)
    } else {
        None
    }
}

/// Splits source text of the arithmetic-only dialect into tokens, dropping every
/// other character.
pub fn lex(code: &str) -> (r: Vec<Token>)
    ensures
        r@ == tokens_of(code@),
{
    let mut out: Vec<Token> = Vec::new();
    for c in it: code.chars()
        invariant
            it.seq() == code@,
            out@ == tokens_of(code@.take(it.index() as int)),
    {
        proof {
            assert(code@.take(it.index() + 1).drop_last() =~= code@.take(it.index() as int));
        }
        match lex_char(c) {
            Some(t) => out.push(t),
            None => {},
        }
    }
    proof {
        assert(code@.take(code@.len() as int) =~= code@);
    }
    out
}

} // verus!
