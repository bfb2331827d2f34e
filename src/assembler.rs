use vstd::prelude::*;
use vstd::string::*;

use crate::instruction::{views, InstrView, Instruction};
use crate::ws_token::Token;

verus! {

/// Why a token sequence is not a program.
#[derive(Debug, Clone, PartialEq, Eq)]
pub enum ParseError {
    /// The tokens from the start of an instruction up to `position` form no opcode.
    UnexpectedPrefix { position: usize, prefix: Vec<Token> },
    /// A literal or label at `position` starts with a line break instead of a sign.
    IncompleteLiteral { position: usize },
    /// The tokens ran out in the middle of an instruction.
    UnexpectedEndOfInput { position: usize },
    /// The literal at `position` does not fit in a signed 64-bit integer.
    LiteralTooLarge { position: usize },
}

/// The mathematical form of a parse error.
pub ghost enum ParseFault {
    UnexpectedPrefix(int, Seq<Token>),
    IncompleteLiteral(int),
    UnexpectedEndOfInput(int),
    LiteralTooLarge(int),
}

impl View for ParseError {
    type V = ParseFault;

    open spec fn view(&self) -> ParseFault {
        match self {
            ParseError::UnexpectedPrefix { position, prefix } => ParseFault::UnexpectedPrefix(
                *position as int,
                prefix@,
            ),
            ParseError::IncompleteLiteral { position } => ParseFault::IncompleteLiteral(
                *position as int,
            ),
            ParseError::UnexpectedEndOfInput { position } => ParseFault::UnexpectedEndOfInput(
                *position as int,
            ),
            ParseError::LiteralTooLarge { position } => ParseFault::LiteralTooLarge(
                *position as int,
            ),
        }
    }
}

/// The number that a run of bits spells, most significant bit first (`Mark` is one).
pub open spec fn bit_value(bits: Seq<Token>) -> nat
    decreases bits.len(),
{
    if bits.len() == 0 {
        0
    } else {
        2 * bit_value(bits.drop_last()) + if bits.last() == Token::Mark {
            1nat
        } else {
            0nat
        }
    }
}

/// The character that a bit of a label name becomes.
pub open spec fn name_char(t: Token) -> char {
    if t == Token::Blank {
        'S'
    } else {
        'T'
    }
}

/// The first line break at or after `i`.
pub open spec fn find_break(t: Seq<Token>, i: int) -> Option<int>
    decreases t.len() - i,
{
    if i < 0 || i >= t.len() {
        None
    } else if t[i] == Token::Break {
        Some(i)
    } else {
        find_break(t, i + 1)
    }
}

/// The signed number written at `p` (sign, bits, line break) and the position after it.
pub open spec fn number_at(t: Seq<Token>, p: int) -> Result<(i64, int), ParseFault> {
    if p >= t.len() {
        Err(ParseFault::UnexpectedEndOfInput(t.len() as int))
    } else if t[p] == Token::Break {
        Err(ParseFault::IncompleteLiteral(p))
    } else {
        match find_break(t, p + 1) {
            None => Err(ParseFault::UnexpectedEndOfInput(t.len() as int)),
            Some(q) => {
                let m = bit_value(t.subrange(p + 1, q)) as int;
                let v = if t[p] == Token::Mark {
                    -m
                } else {
                    m
                };
                if i64::MIN <= v <= i64::MAX {
                    Ok((v as i64, q + 1))
                } else {
                    Err(ParseFault::LiteralTooLarge(p))
                }
            },
        }
    }
}

/// The label name written at `p` (kind token and bits, then a line break) and the
/// position after it.
pub open spec fn name_at(t: Seq<Token>, p: int) -> Result<(Seq<char>, int), ParseFault> {
    if p >= t.len() {
        Err(ParseFault::UnexpectedEndOfInput(t.len() as int))
    } else if t[p] == Token::Break {
        Err(ParseFault::IncompleteLiteral(p))
    } else {
        match find_break(t, p + 1) {
            None => Err(ParseFault::UnexpectedEndOfInput(t.len() as int)),
            Some(q) => Ok((t.subrange(p, q).map_values(|x: Token| name_char(x)), q + 1)),
        }
    }
}

/// An instruction with a number operand.
pub open spec fn with_number(
    t: Seq<Token>,
    p: int,
    f: spec_fn(i64) -> InstrView,
) -> Result<(InstrView, int), ParseFault> {
    match number_at(t, p) {
        Ok((v, q)) => Ok((f(v), q)),
        Err(e) => Err(e),
    }
}

/// An instruction with a label operand.
pub open spec fn with_name(
    t: Seq<Token>,
    p: int,
    f: spec_fn(Seq<char>) -> InstrView,
) -> Result<(InstrView, int), ParseFault> {
    match name_at(t, p) {
        Ok((n, q)) => Ok((f(n), q)),
        Err(e) => Err(e),
    }
}

/// The error for an undefined opcode that ends at `e`, for an instruction starting at `p`.
pub open spec fn bad_prefix(t: Seq<Token>, p: int, e: int) -> Result<(InstrView, int), ParseFault> {
    Err(ParseFault::UnexpectedPrefix(e, t.subrange(p, e + 1)))
}

/// The instruction whose opcode starts at `p`, and the position after it.
pub open spec fn instr_at(t: Seq<Token>, p: int) -> Result<(InstrView, int), ParseFault> {
    let n = t.len();
    let eoi = Err(ParseFault::UnexpectedEndOfInput(n as int));
    if p + 1 >= n {
        eoi
    } else if t[p] == Token::Blank {
        if t[p + 1] == Token::Blank {
            with_number(t, p + 2, |v| InstrView::Push(v))
        } else if p + 2 >= n {
            eoi
        } else if t[p + 1] == Token::Mark {
            if t[p + 2] == Token::Blank {
                with_number(t, p + 3, |v| InstrView::Copy(v))
            } else if t[p + 2] == Token::Break {
                with_number(t, p + 3, |v| InstrView::Slide(v))
            } else {
                bad_prefix(t, p, p + 2)
            }
        } else {
            if t[p + 2] == Token::Blank {
                Ok((InstrView::Dup, p + 3))
            } else if t[p + 2] == Token::Mark {
                Ok((InstrView::Swap, p + 3))
            } else {
                Ok((InstrView::Discard, p + 3))
            }
        }
    } else if t[p] == Token::Mark {
        if p + 2 >= n {
            eoi
        } else if t[p + 1] == Token::Blank {
            if t[p + 2] == Token::Break {
                bad_prefix(t, p, p + 2)
            } else if p + 3 >= n {
                eoi
            } else if t[p + 2] == Token::Blank {
                if t[p + 3] == Token::Blank {
                    Ok((InstrView::Add, p + 4))
                } else if t[p + 3] == Token::Mark {
                    Ok((InstrView::Sub, p + 4))
                } else {
                    Ok((InstrView::Mul, p + 4))
                }
            } else {
                if t[p + 3] == Token::Blank {
                    Ok((InstrView::Div, p + 4))
                } else if t[p + 3] == Token::Mark {
                    Ok((InstrView::Mod, p + 4))
                } else {
                    bad_prefix(t, p, p + 3)
                }
            }
        } else if t[p + 1] == Token::Mark {
            if t[p + 2] == Token::Blank {
                Ok((InstrView::HeapWrite, p + 3))
            } else if t[p + 2] == Token::Mark {
                Ok((InstrView::HeapRead, p + 3))
            } else {
                bad_prefix(t, p, p + 2)
            }
        } else {
            if t[p + 2] == Token::Break {
                bad_prefix(t, p, p + 2)
            } else if p + 3 >= n {
                eoi
            } else if t[p + 3] == Token::Break {
                bad_prefix(t, p, p + 3)
            } else if t[p + 2] == Token::Blank {
                if t[p + 3] == Token::Blank {
                    Ok((InstrView::CharOut, p + 4))
                } else {
                    Ok((InstrView::NumOut, p + 4))
                }
            } else {
                if t[p + 3] == Token::Blank {
                    Ok((InstrView::CharIn, p + 4))
                } else {
                    Ok((InstrView::NumIn, p + 4))
                }
            }
        }
    } else {
        if p + 2 >= n {
            eoi
        } else if t[p + 1] == Token::Blank {
            if t[p + 2] == Token::Blank {
                with_name(t, p + 3, |s| InstrView::Label(s))
            } else if t[p + 2] == Token::Mark {
                with_name(t, p + 3, |s| InstrView::Call(s))
            } else {
                with_name(t, p + 3, |s| InstrView::Jump(s))
            }
        } else if t[p + 1] == Token::Mark {
            if t[p + 2] == Token::Blank {
                with_name(t, p + 3, |s| InstrView::JumpZero(s))
            } else if t[p + 2] == Token::Mark {
                with_name(t, p + 3, |s| InstrView::JumpNeg(s))
            } else {
                Ok((InstrView::Return, p + 3))
            }
        } else {
            if t[p + 2] == Token::Break {
                Ok((InstrView::Exit, p + 3))
            } else {
                bad_prefix(t, p, p + 2)
            }
        }
    }
}

proof fn lemma_find_break_bounds(t: Seq<Token>, i: int)
    requires
        0 <= i,
    ensures
        find_break(t, i) matches Some(q) ==> i <= q < t.len() && t[q] == Token::Break,
    decreases t.len() - i,
{
    if i < t.len() && t[i] != Token::Break {
        lemma_find_break_bounds(t, i + 1);
    }
}

/// Every instruction that decodes takes at least one token.
proof fn lemma_instr_advances(t: Seq<Token>, p: int)
    requires
        0 <= p,
    ensures
        instr_at(t, p) matches Ok((_, q)) ==> p < q <= t.len(),
{
    lemma_find_break_bounds(t, p + 3);
    lemma_find_break_bounds(t, p + 4);
}

#[via_fn]
proof fn program_from_decreases(t: Seq<Token>, p: int) {
    if 0 <= p {
        lemma_instr_advances(t, p);
    }
}

/// The program that the tokens from `p` on decode to.
pub open spec fn program_from(t: Seq<Token>, p: int) -> Result<Seq<InstrView>, ParseFault>
    decreases t.len() - p,
    via program_from_decreases
{
    if p < 0 || p >= t.len() {
        Ok(Seq::empty())
    } else {
        match instr_at(t, p) {
            Err(e) => Err(e),
            Ok((i, q)) => match program_from(t, q) {
                Ok(rest) => Ok(seq![i] + rest),
                Err(e) => Err(e),
            },
        }
    }
}

/// The program that a token sequence decodes to.
pub open spec fn program_of(t: Seq<Token>) -> Result<Seq<InstrView>, ParseFault> {
    program_from(t, 0)
}

proof fn lemma_bit_value_prefix(s: Seq<Token>, k: int)
    requires
        0 <= k <= s.len(),
    ensures
        bit_value(s.subrange(0, k)) <= bit_value(s),
    decreases s.len(),
{
    if k < s.len() {
        lemma_bit_value_prefix(s.drop_last(), k);
        assert(s.drop_last().subrange(0, k) =~= s.subrange(0, k));
    } else {
        assert(s.subrange(0, k) =~= s);
    }
}

/// The first line break at or after `start`.
fn next_break(t: &Vec<Token>, start: usize) -> (r: Option<usize>)
    ensures
        r matches Some(q) ==> find_break(t@, start as int) == Some(q as int),
        r is None ==> find_break(t@, start as int) is None,
{
    let mut j = start;
    while j < t.len()
        invariant
            start <= j,
            find_break(t@, start as int) == find_break(t@, j as int),
        decreases t.len() - j,
    {
        if t[j] == Token::Break {
            return Some(j);
        }
        j = j + 1;
    }
    None
}

/// Decodes the signed number literal at `p`.
fn decode_number(t: &Vec<Token>, p: usize) -> (r: Result<(i64, usize), ParseError>)
    ensures
        match r {
            Ok((v, q)) => number_at(t@, p as int) == Ok::<(i64, int), ParseFault>((v, q as int)),
            Err(e) => number_at(t@, p as int) == Err::<(i64, int), ParseFault>(e@),
        },
{
    if p >= t.len() {
        return Err(ParseError::UnexpectedEndOfInput { position: t.len() });
    }
    if t[p] == Token::Break {
        return Err(ParseError::IncompleteLiteral { position: p });
    }
    let q = match next_break(t, p + 1) {
        None => {
            return Err(ParseError::UnexpectedEndOfInput { position: t.len() });
        },
        Some(q) => q,
    };
    proof {
        lemma_find_break_bounds(t@, p + 1);
    }
    let ghost bits = t@.subrange(p + 1, q as int);
    let mut mag: u64 = 0;
    let mut j = p + 1;
    while j < q
        invariant
            p + 1 <= j <= q < t.len(),
            bits == t@.subrange(p + 1, q as int),
            find_break(t@, p + 1) == Some(q as int),
            t@[p as int] != Token::Break,
            mag as nat == bit_value(t@.subrange(p + 1, j as int)),
            mag <= 0x8000_0000_0000_0001u64,
        decreases q - j,
    {
        proof {
            assert(t@.subrange(p + 1, j + 1).drop_last() =~= t@.subrange(p + 1, j as int));
            assert(bits.subrange(0, j + 1 - (p + 1)) =~= t@.subrange(p + 1, j + 1));
            lemma_bit_value_prefix(bits, j + 1 - (p + 1));
        }
        if mag > 0x4000_0000_0000_0000u64 {
            assert(bit_value(t@.subrange(p + 1, j + 1)) >= 2 * mag);
            assert(bit_value(bits) > 0x8000_0000_0000_0000nat);
            return Err(ParseError::LiteralTooLarge { position: p });
        }
        let b: u64 = if t[j] == Token::Mark {
            1
        } else {
            0
        };
        mag = 2 * mag + b;
        j = j + 1;
    }
    let v: i64;
    if t[p] == Token::Mark {
        if mag > 0x8000_0000_0000_0000u64 {
            return Err(ParseError::LiteralTooLarge { position: p });
        } else if mag == 0x8000_0000_0000_0000u64 {
            v = i64::MIN;
        } else {
            v = -(mag as i64);
        }
    } else {
        if mag > 0x7fff_ffff_ffff_ffffu64 {
            return Err(ParseError::LiteralTooLarge { position: p });
        }
        v = mag as i64;
    }
    Ok((v, q + 1))
}

/// Decodes the label name at `p`.
fn decode_name(t: &Vec<Token>, p: usize) -> (r: Result<(String, usize), ParseError>)
    ensures
        match r {
            Ok((s, q)) => name_at(t@, p as int) == Ok::<(Seq<char>, int), ParseFault>(
                (s@, q as int),
            ),
            Err(e) => name_at(t@, p as int) == Err::<(Seq<char>, int), ParseFault>(e@),
        },
{
    if p >= t.len() {
        return Err(ParseError::UnexpectedEndOfInput { position: t.len() });
    }
    if t[p] == Token::Break {
        return Err(ParseError::IncompleteLiteral { position: p });
    }
    let q = match next_break(t, p + 1) {
        None => {
            return Err(ParseError::UnexpectedEndOfInput { position: t.len() });
        },
        Some(q) => q,
    };
    proof {
        lemma_find_break_bounds(t@, p + 1);
    }
    let mut name = String::new();
    let mut j = p;
    while j < q
        invariant
            p <= j <= q < t.len(),
            name@ == t@.subrange(p as int, j as int).map_values(|x: Token| name_char(x)),
        decreases q - j,
    {
        proof {
            reveal_strlit("S");
            reveal_strlit("T");
        }
        if t[j] == Token::Blank {
            name.append("S");
        } else {
            name.append("T");
        }
        proof {
            assert(t@.subrange(p as int, j + 1).map_values(|x: Token| name_char(x))
                =~= t@.subrange(p as int, j as int).map_values(|x: Token| name_char(x)).push(
                name_char(t@[j as int]),
            ));
        }
        j = j + 1;
    }
    Ok((name, q + 1))
}

/// The error for an undefined opcode ending at `e`, for an instruction starting at `p`.
fn prefix_error(t: &Vec<Token>, p: usize, e: usize) -> (r: ParseError)
    requires
        p <= e < t.len(),
    ensures
        r@ == ParseFault::UnexpectedPrefix(e as int, t@.subrange(p as int, e + 1)),
{
    let mut prefix: Vec<Token> = Vec::new();
    let mut j = p;
    while j <= e
        invariant
            p <= j <= e + 1,
            e < t.len(),
            prefix@ == t@.subrange(p as int, j as int),
        decreases e + 1 - j,
    {
        prefix.push(t[j]);
        proof {
            assert(prefix@ =~= t@.subrange(p as int, j + 1));
        }
        j = j + 1;
    }
    ParseError::UnexpectedPrefix { position: e, prefix }
}

/// Decodes the instruction whose opcode starts at `p`.
fn decode_instr(t: &Vec<Token>, p: usize) -> (r: Result<(Instruction, usize), ParseError>)
    requires
        p < t.len(),
    ensures
        match r {
            Ok((i, q)) => instr_at(t@, p as int) == Ok::<(InstrView, int), ParseFault>(
                (i@, q as int),
            ),
            Err(e) => instr_at(t@, p as int) == Err::<(InstrView, int), ParseFault>(e@),
        },
{
    let n = t.len();
    let eoi = ParseError::UnexpectedEndOfInput { position: n };
    if p + 1 >= n {
        return Err(eoi);
    }
    let a = t[p];
    let b = t[p + 1];
    if a == Token::Blank && b == Token::Blank {
        return match decode_number(t, p + 2) {
            Ok((v, q)) => Ok((Instruction::Push(v), q)),
            Err(e) => Err(e),
        };
    }
    if p + 2 >= n {
        return Err(eoi);
    }
    let c = t[p + 2];
    match (a, b) {
        (Token::Blank, Token::Mark) => match c {
            Token::Blank => match decode_number(t, p + 3) {
                Ok((v, q)) => Ok((Instruction::Copy(v), q)),
                Err(e) => Err(e),
            },
            Token::Break => match decode_number(t, p + 3) {
                Ok((v, q)) => Ok((Instruction::Slide(v), q)),
                Err(e) => Err(e),
            },
            Token::Mark => Err(prefix_error(t, p, p + 2)),
        },
        (Token::Blank, _) => match c {
            Token::Blank => Ok((Instruction::Dup, p + 3)),
            Token::Mark => Ok((Instruction::Swap, p + 3)),
            Token::Break => Ok((Instruction::Discard, p + 3)),
        },
        (Token::Mark, Token::Blank) => {
            if c == Token::Break {
                return Err(prefix_error(t, p, p + 2));
            }
            if p + 3 >= n {
                return Err(eoi);
            }
            match (c, t[p + 3]) {
                (Token::Blank, Token::Blank) => Ok((Instruction::Add, p + 4)),
                (Token::Blank, Token::Mark) => Ok((Instruction::Sub, p + 4)),
                (Token::Blank, _) => Ok((Instruction::Mul, p + 4)),
                (_, Token::Blank) => Ok((Instruction::Div, p + 4)),
                (_, Token::Mark) => Ok((Instruction::Mod, p + 4)),
                (_, _) => Err(prefix_error(t, p, p + 3)),
            }
        },
        (Token::Mark, Token::Mark) => match c {
            Token::Blank => Ok((Instruction::HeapWrite, p + 3)),
            Token::Mark => Ok((Instruction::HeapRead, p + 3)),
            Token::Break => Err(prefix_error(t, p, p + 2)),
        },
        (Token::Mark, _) => {
            if c == Token::Break {
                return Err(prefix_error(t, p, p + 2));
            }
            if p + 3 >= n {
                return Err(eoi);
            }
            match (c, t[p + 3]) {
                (_, Token::Break) => Err(prefix_error(t, p, p + 3)),
                (Token::Blank, Token::Blank) => Ok((Instruction::CharOut, p + 4)),
                (Token::Blank, _) => Ok((Instruction::NumOut, p + 4)),
                (_, Token::Blank) => Ok((Instruction::CharIn, p + 4)),
                (_, _) => Ok((Instruction::NumIn, p + 4)),
            }
        },
        (_, Token::Break) => match c {
            Token::Break => Ok((Instruction::Exit, p + 3)),
            _ => Err(prefix_error(t, p, p + 2)),
        },
        (_, _) => {
            if b == Token::Mark && c == Token::Break {
                return Ok((Instruction::Return, p + 3));
            }
            match decode_name(t, p + 3) {
                Err(e) => Err(e),
                Ok((s, q)) => {
                    let i = match (b, c) {
                        (Token::Blank, Token::Blank) => Instruction::Label(s),
                        (Token::Blank, Token::Mark) => Instruction::Call(s),
                        (Token::Blank, _) => Instruction::Jump(s),
                        (_, Token::Blank) => Instruction::JumpZero(s),
                        (_, _) => Instruction::JumpNeg(s),
                    };
                    Ok((i, q))
                },
            }
        },
    }
}

/// Decodes a whole token sequence into a program, in one left-to-right pass.
pub fn assemble(tokens: &Vec<Token>) -> (r: Result<Vec<Instruction>, ParseError>)
    ensures
        match r {
            Ok(v) => program_of(tokens@) == Ok::<Seq<InstrView>, ParseFault>(views(v@)),
            Err(e) => program_of(tokens@) == Err::<Seq<InstrView>, ParseFault>(e@),
        },
{
    let mut out: Vec<Instruction> = Vec::new();
    let mut p: usize = 0;
    while p < tokens.len()
        invariant
            p <= tokens.len(),
            program_of(tokens@) == match program_from(tokens@, p as int) {
                Ok(rest) => Ok::<Seq<InstrView>, ParseFault>(views(out@) + rest),
                Err(e) => Err(e),
            },
        decreases tokens.len() - p,
    {
        proof {
            lemma_instr_advances(tokens@, p as int);
        }
        match decode_instr(tokens, p) {
            Err(e) => {
                return Err(e);
            },
            Ok((i, q)) => {
                proof {
                    assert(views(out@.push(i)) =~= views(out@).push(i@));
                    match program_from(tokens@, q as int) {
                        Ok(rest) => {
                            assert(views(out@) + (seq![i@] + rest) =~= views(out@).push(i@)
                                + rest);
                        },
                        Err(_) => {},
                    }
                }
                out.push(i);
                p = q;
            },
        }
    }
    proof {
        assert(views(out@) + Seq::<InstrView>::empty() =~= views(out@));
    }
    Ok(out)
}

/// The bits of a magnitude, most significant first, without leading zeros.
pub open spec fn bits_of(m: nat) -> Seq<Token>
    decreases m,
{
    if m == 0 {
        Seq::empty()
    } else {
        bits_of(m / 2).push(
            if m % 2 == 1 {
                Token::Mark
            } else {
                Token::Blank
            },
        )
    }
}

/// How a number is written: a sign, the bits of its magnitude, a line break.
pub open spec fn number_tokens(n: int) -> Seq<Token> {
    let sign = if n < 0 {
        Token::Mark
    } else {
        Token::Blank
    };
    let m = if n < 0 {
        -n
    } else {
        n
    };
    seq![sign] + bits_of(m as nat) + seq![Token::Break]
}

proof fn lemma_bits_of(m: nat)
    ensures
        bit_value(bits_of(m)) == m,
        forall|i: int| 0 <= i < bits_of(m).len() ==> bits_of(m)[i] != Token::Break,
    decreases m,
{
    if m > 0 {
        lemma_bits_of(m / 2);
        assert(bits_of(m).drop_last() =~= bits_of(m / 2));
    }
}

proof fn lemma_find_break_at(t: Seq<Token>, i: int, k: int)
    requires
        0 <= i <= k < t.len(),
        t[k] == Token::Break,
        forall|j: int| i <= j < k ==> t[j] != Token::Break,
    ensures
        find_break(t, i) == Some(k),
    decreases k - i,
{
    if i < k {
        lemma_find_break_at(t, i + 1, k);
    }
}

/// Writing a number and decoding it again gives the number back, and the decoder
/// stops right after the line break.
pub proof fn lemma_number_round_trip(n: i64)
    ensures
        number_at(number_tokens(n as int), 0) == Ok::<(i64, int), ParseFault>(
            (n, number_tokens(n as int).len() as int),
        ),
{
    let t = number_tokens(n as int);
    let m = (if n < 0 {
        -n
    } else {
        n as int
    }) as nat;
    lemma_bits_of(m);
    let k = t.len() - 1;
    assert forall|j: int| 1 <= j < k implies t[j] != Token::Break by {
        assert(t[j] == bits_of(m)[j - 1]);
    }
    lemma_find_break_at(t, 1, k);
    assert(t.subrange(1, k) =~= bits_of(m));
}

/// A push of a written number assembles to exactly that push: encoding `n` as a
/// literal and decoding the program gives `Push(n)` back.
pub proof fn lemma_push_round_trip(n: i64)
    ensures
        program_of(seq![Token::Blank, Token::Blank] + number_tokens(n as int)) == Ok::<
            Seq<InstrView>,
            ParseFault,
        >(seq![InstrView::Push(n)]),
{
    let lit = number_tokens(n as int);
    let t = seq![Token::Blank, Token::Blank] + lit;
    let m = (if n < 0 {
        -n
    } else {
        n as int
    }) as nat;
    lemma_bits_of(m);
    let k = t.len() - 1;
    assert forall|j: int| 3 <= j < k implies t[j] != Token::Break by {
        assert(t[j] == bits_of(m)[j - 3]);
    }
    lemma_find_break_at(t, 3, k);
    assert(t.subrange(3, k) =~= bits_of(m));
    assert(number_at(t, 2) == Ok::<(i64, int), ParseFault>((n, t.len() as int)));
    assert(instr_at(t, 0) == Ok::<(InstrView, int), ParseFault>((InstrView::Push(n), t.len() as int)));
    assert(program_from(t, t.len() as int) == Ok::<Seq<InstrView>, ParseFault>(Seq::empty()));
    assert(seq![InstrView::Push(n)] + Seq::<InstrView>::empty() =~= seq![InstrView::Push(n)]);
}

} // verus!
