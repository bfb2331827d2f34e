use vstd::prelude::*;

verus! {

/// One significant symbol of a Whitespace program.
#[derive(Debug, Clone, Copy, PartialEq, Eq, Structural)]
pub enum Token {
    /// A space character.
    Blank,
    /// A tab character.
    Mark,
    /// A line feed.
    Break,
}

/// The token a character stands for, if it is significant.
pub open spec fn token_of(c: char) -> Option<Token> {
    if c == ' ' {
        Some(Token::Blank)
    } else if c == '\t' {
        Some(Token::Mark)
    } else if c == '\n' {
        Some(Token::Break)
    } else {
        None
    }
}

/// The significant symbols of a text, in order; everything else is dropped.
pub open spec fn tokens_of(s: Seq<char>) -> Seq<Token>
    decreases s.len(),
{
    if s.len() == 0 {
        Seq::empty()
    } else {
        let rest = tokens_of(s.drop_last());
        match token_of(s.last()) {
            Some(t) => rest.push(t),
            None => rest,
        }
    }
}

/// Filters a source text down to its three significant symbols.
pub fn tokenize(text: &str) -> (r: Vec<Token>)
    ensures
        r@ == tokens_of(text@),
{
    let mut out: Vec<Token> = Vec::new();
    for c in it: text.chars()
        invariant
            it.seq() == text@,
            out@ == tokens_of(text@.take(it.index() as int)),
    {
        proof {
            assert(text@.take(it.index() + 1).drop_last() =~= text@.take(it.index() as int));
        }
        if c == ' ' {
            out.push(Token::Blank);
        } else if c == '\t' {
            out.push(Token::Mark);
        } else if c == '\n' {
            out.push(Token::Break);
        }
    }
    proof {
        assert(text@.take(text@.len() as int) =~= text@);
    }
    out
}

} // verus!
