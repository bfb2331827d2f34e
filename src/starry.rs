use vstd::prelude::*;

verus! {

/// A significant character of a Starry program.
#[derive(Debug, Clone, Copy, PartialEq, Eq, Structural)]
pub enum Token {
    Space,
    Plus,
    Star,
    Period,
    Comma,
    BQuote,
    Quote,
}

/// The token a character stands for, if any.
pub open spec fn token_of(c: char) -> Option<Token> {
    if c == ' ' {
        Some(Token::Space)
    } else if c == '+' {
        Some(Token::Plus)
    } else if c == '*' {
        Some(Token::Star)
    } else if c == '.' {
        Some(Token::Period)
    } else if c == ',' {
        Some(Token::Comma)
    } else if c == '`' {
        Some(Token::BQuote)
    } else if c == '\'' {
        Some(Token::Quote)
    } else {
        None
    }
}

/// The tokens of a text, in order; other characters are comments.
pub open spec fn tokens_of(s: Seq<char>) -> Seq<Token>
    decreases s.len(),
{
    if s.len() == 0 {
        Seq::empty()
    } else {
        let rest = tokens_of(s.drop_last());
        match token_of(s.last()) {
            Some(t) => rest.push(t),
            None => rest,
        }
    }
}

/// Splits Starry source text into tokens.
pub fn tokenize(code: &str) -> (r: Vec<Token>)
    ensures
        r@ == tokens_of(code@),
{
    let mut out: Vec<Token> = Vec::new();
    for c in it: code.chars()
        invariant
            it.seq() == code@,
            out@ == tokens_of(code@.take(it.index() as int)),
    {
        proof {
            assert(code@.take(it.index() + 1).drop_last() =~= code@.take(it.index() as int));
        }
        if c == ' ' {
            out.push(Token::Space);
        } else if c == '+' {
            out.push(Token::Plus);
        } else if c == '*' {
            out.push(Token::Star);
        } else if c == '.' {
            out.push(Token::Period);
        } else if c == ',' {
            out.push(Token::Comma);
        } else if c == '`' {
            out.push(Token::BQuote);
        } else if c == '\'' {
            out.push(Token::Quote);
        }
    }
    proof {
        assert(code@.take(code@.len() as int) =~= code@);
    }
    out
}

/// One operation of a Starry program.
#[derive(Debug, Clone, Copy, PartialEq, Eq, Structural)]
pub enum Instruction {
    Push(i64),
    Dup,
    Swap,
    Rotate,
    Pop,
    Add,
    Sub,
    Mul,
    Div,
    Mod,
    NumOut,
    CharOut,
    NumIn,
    CharIn,
    Label(i64),
    JumpNonZero(i64),
}

/// Why a Starry program does not compile.
#[derive(Debug, Clone, Copy, PartialEq, Eq, Structural)]
pub enum CompileError {
    /// The `+` at this token position has no space before it.
    PlusWithoutSpace { position: usize },
}

/// How many spaces stand right before position `i`.
pub open spec fn run_len(ts: Seq<Token>, i: int) -> nat
    decreases i,
{
    if i <= 0 || i > ts.len() || ts[i - 1] != Token::Space {
        0
    } else {
        1 + run_len(ts, i - 1)
    }
}

/// The instruction that a non-space token at position `i` compiles to, with `n`
/// spaces before it.
pub open spec fn op_for(t: Token, n: nat, i: int) -> Result<Instruction, CompileError> {
    match t {
        Token::Star => Ok(
            if n % 5 == 0 {
                Instruction::Add
            } else if n % 5 == 1 {
                Instruction::Sub
            } else if n % 5 == 2 {
                Instruction::Mul
            } else if n % 5 == 3 {
                Instruction::Div
            } else {
                Instruction::Mod
            },
        ),
        Token::Period => Ok(
            if n % 2 == 0 {
                Instruction::NumOut
            } else {
                Instruction::CharOut
            },
        ),
        Token::Comma => Ok(
            if n % 2 == 0 {
                Instruction::NumIn
            } else {
                Instruction::CharIn
            },
        ),
        Token::Plus => if n == 0 {
            Err(CompileError::PlusWithoutSpace { position: i as usize })
        } else if n == 1 {
            Ok(Instruction::Dup)
        } else if n == 2 {
            Ok(Instruction::Swap)
        } else if n == 3 {
            Ok(Instruction::Rotate)
        } else if n == 4 {
            Ok(Instruction::Pop)
        } else {
            Ok(Instruction::Push((n - 5) as i64))
        },
        Token::BQuote => Ok(Instruction::Label(n as i64)),
        _ => Ok(Instruction::JumpNonZero(n as i64)),
    }
}

/// The program that the first `k` tokens compile to: each non-space token gives
/// one instruction, chosen by the spaces right before it; the first bad `+` fails.
pub open spec fn compile_upto(ts: Seq<Token>, k: int) -> Result<Seq<Instruction>, CompileError>
    decreases k,
{
    if k <= 0 || k > ts.len() {
        Ok(Seq::empty())
    } else {
        match compile_upto(ts, k - 1) {
            Err(e) => Err(e),
            Ok(v) => if ts[k - 1] == Token::Space {
                Ok(v)
            } else {
                match op_for(ts[k - 1], run_len(ts, k - 1), k - 1) {
                    Ok(i) => Ok(v.push(i)),
                    Err(e) => Err(e),
                }
            },
        }
    }
}

proof fn lemma_error_stays(ts: Seq<Token>, k: int, m: int)
    requires
        0 < k <= m <= ts.len(),
        compile_upto(ts, k) is Err,
    ensures
        compile_upto(ts, m) == compile_upto(ts, k),
    decreases m - k,
{
    if k < m {
        lemma_error_stays(ts, k, m - 1);
    }
}

/// A Starry compiler for one source text.
pub struct Compiler {
    src_code: String,
}

impl Compiler {
    /// The source text.
    pub closed spec fn source(&self) -> Seq<char> {
        self.src_code@
    }

    /// A compiler for `src_code`.
    pub fn new(src_code: String) -> (r: Self)
        ensures
            r.source() == src_code@,
    {
        Self { src_code: src_code }
    }

    /// Compiles the source text into instructions.
    pub fn compile(&self) -> (r: Result<Vec<Instruction>, CompileError>)
        ensures
            match compile_upto(tokens_of(self.source()), tokens_of(self.source()).len() as int) {
                Ok(v) => r is Ok && r->Ok_0@ == v,
                Err(e) => r == Err::<Vec<Instruction>, CompileError>(e),
            },
    {
        let tokens = tokenize(self.src_code.as_str());
        let ghost ts = tokens@;
        let mut insts: Vec<Instruction> = Vec::new();
        let mut nspaces: usize = 0;
        let mut i: usize = 0;
        while i < tokens.len()
            invariant
                i <= tokens.len(),
                ts == tokens@,
                ts == tokens_of(self.source()),
                nspaces as nat == run_len(ts, i as int),
                nspaces <= i,
                compile_upto(ts, i as int) == Ok::<Seq<Instruction>, CompileError>(insts@),
            decreases tokens.len() - i,
        {
            let tok = tokens[i];
            let op = match tok {
                Token::Space => {
                    nspaces = nspaces + 1;
                    i = i + 1;
                    continue;
                },
                Token::Star => {
                    let m = nspaces % 5;
                    if m == 0 {
                        Instruction::Add
                    } else if m == 1 {
                        Instruction::Sub
                    } else if m == 2 {
                        Instruction::Mul
                    } else if m == 3 {
                        Instruction::Div
                    } else {
                        Instruction::Mod
                    }
                },
                Token::Period => {
                    if nspaces % 2 == 0 {
                        Instruction::NumOut
                    } else {
                        Instruction::CharOut
                    }
                },
                Token::Comma => {
                    if nspaces % 2 == 0 {
                        Instruction::NumIn
                    } else {
                        Instruction::CharIn
                    }
                },
                Token::Plus => {
                    if nspaces == 0 {
                        proof {
                            lemma_error_stays(ts, i + 1, ts.len() as int);
                        }
                        return Err(CompileError::PlusWithoutSpace { position: i });
                    }
                    if nspaces == 1 {
                        Instruction::Dup
                    } else if nspaces == 2 {
                        Instruction::Swap
                    } else if nspaces == 3 {
                        Instruction::Rotate
                    } else if nspaces == 4 {
                        Instruction::Pop
                    } else {
                        Instruction::Push(#[verifier::truncate] ((nspaces - 5) as i64))
                    }
                },
                Token::BQuote => Instruction::Label(#[verifier::truncate] (nspaces as i64)),
                Token::Quote => Instruction::JumpNonZero(#[verifier::truncate] (nspaces as i64)),
            };
            insts.push(op);
            nspaces = 0;
            i = i + 1;
        }
        Ok(insts)
    }
}

} // verus!
