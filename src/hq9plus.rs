use vstd::prelude::*;
use vstd::string::*;

verus! {

/// One command of an HQ9+ program.
#[derive(Debug, Clone, Copy, PartialEq, Eq, Structural)]
pub enum Token {
    /// `H`: print a greeting.
    Hello,
    /// `Q`: print the program's own source.
    Quine,
    /// `9`: print the "99 bottles of beer" song.
    Ninety,
    /// `+`: increment the accumulator.
    Plus,
    /// Any other character.
    Ignore,
}

/// The command a character stands for.
pub open spec fn token_of(c: char) -> Token {
    if c == 'H' {
        Token::Hello
    } else if c == 'Q' {
        Token::Quine
    } else if c == '9' {
        Token::Ninety
    } else if c == '+' {
        Token::Plus
    } else {
        Token::Ignore
    }
}

/// One command per character of the source.
pub fn tokenize(s: &str) -> (r: Vec<Token>)
    ensures
        r@ == s@.map_values(|c: char| token_of(c)),
{
    let mut out: Vec<Token> = Vec::new();
    for c in it: s.chars()
        invariant
            it.seq() == s@,
            out@ == s@.take(it.index() as int).map_values(|c: char| token_of(c)),
    {
        let t = if c == 'H' {
            Token::Hello
        } else if c == 'Q' {
            Token::Quine
        } else if c == '9' {
            Token::Ninety
        } else if c == '+' {
            Token::Plus
        } else {
            Token::Ignore
        };
        out.push(t);
        proof {
            assert(out@ =~= s@.take(it.index() + 1).map_values(|c: char| token_of(c)));
        }
    }
    proof {
        assert(s@.take(s@.len() as int) =~= s@);
    }
    out
}

/// The decimal digits of a number, as `to_string` writes them.
pub uninterp spec fn decimal_text(n: u64) -> Seq<char>;

/// The uppercase form of a character, as `char::to_uppercase` gives it.
pub uninterp spec fn upper_of(c: char) -> Seq<char>;

/// Relies on `u64`'s `to_string` (its `Display` impl): the decimal text of `n`,
/// which depends on `n` alone.
#[verifier::external_body]
fn u64_text(n: u64) -> (r: String)
    ensures
        r@ == decimal_text(n),
{
    n.to_string()
}

/// Relies on `char::to_uppercase`: the characters of the uppercase mapping of `c`,
/// which depend on `c` alone.
#[verifier::external_body]
fn uppercase(c: char) -> (r: String)
    ensures
        r@ == upper_of(c),
{
    c.to_uppercase().collect()
}

/// `s` with its first character in uppercase.
pub open spec fn head_upper(s: Seq<char>) -> Seq<char> {
    if s.len() == 0 {
        Seq::empty()
    } else {
        upper_of(s[0]) + s.drop_first()
    }
}

/// How the song counts bottles.
pub open spec fn bottles(n: u64) -> Seq<char> {
    if n == 0 {
        "no more bottles"@
    } else if n == 1 {
        "1 bottle"@
    } else {
        decimal_text(n) + " bottles"@
    }
}

/// The verse sung with `k` bottles on the wall.
pub open spec fn verse(k: u64) -> Seq<char> {
    let before = bottles(k);
    let after = if k == 0 {
        bottles(99)
    } else {
        bottles((k - 1) as u64)
    };
    let action = if k == 0 {
        "Go to the store and buy some more"@
    } else {
        "Take one down and pass it around"@
    };
    head_upper(before) + " of beer on the wall, "@ + before + " of beer.\n"@ + action + ", "@
        + after + " of beer on the wall.\n"@
}

/// The first `j` verses of the song, counting down from 99.
pub open spec fn song_upto(j: int) -> Seq<char>
    decreases j,
{
    if j <= 0 {
        Seq::empty()
    } else {
        song_upto(j - 1) + verse((100 - j) as u64)
    }
}

/// What one command prints, for a program whose source is `src`.
pub open spec fn effect(t: Token, src: Seq<char>) -> Seq<char> {
    match t {
        Token::Hello => "Hello, world!\n"@,
        Token::Quine => src,
        Token::Ninety => song_upto(100),
        _ => Seq::empty(),
    }
}

/// What a sequence of commands prints.
pub open spec fn program_output(ts: Seq<Token>, src: Seq<char>) -> Seq<char>
    decreases ts.len(),
{
    if ts.len() == 0 {
        Seq::empty()
    } else {
        program_output(ts.drop_last(), src) + effect(ts.last(), src)
    }
}

/// How many increments a sequence of commands holds.
pub open spec fn plus_count(ts: Seq<Token>) -> nat
    decreases ts.len(),
{
    if ts.len() == 0 {
        0
    } else {
        plus_count(ts.drop_last()) + if ts.last() == Token::Plus {
            1nat
        } else {
            0nat
        }
    }
}

/// How the song counts bottles.
fn bottles_text(n: u64) -> (r: String)
    ensures
        r@ == bottles(n),
{
    if n == 0 {
        String::from_str("no more bottles")
    } else if n == 1 {
        String::from_str("1 bottle")
    } else {
        let mut s = u64_text(n);
        s.append(" bottles");
        s
    }
}

/// An HQ9+ interpreter that collects what the program prints.
pub struct Interpreter {
    src_code: String,
    count: u64,
    output: String,
}

impl Interpreter {
    /// The program's source.
    pub closed spec fn source(&self) -> Seq<char> {
        self.src_code@
    }

    /// Everything printed so far.
    pub closed spec fn printed(&self) -> Seq<char> {
        self.output@
    }

    /// The accumulator.
    pub closed spec fn accumulator(&self) -> u64 {
        self.count
    }

    /// An interpreter for `code` that has printed nothing, with the accumulator at 0.
    pub fn new(code: String) -> (r: Self)
        ensures
            r.source() == code@,
            r.printed() == Seq::<char>::empty(),
            r.accumulator() == 0,
    {
        Self { src_code: code, count: 0, output: String::new() }
    }

    /// Everything printed so far.
    pub fn output(&self) -> (r: &String)
        ensures
            r@ == self.printed(),
    {
        &self.output
    }

    /// The accumulator.
    pub fn count(&self) -> (r: u64)
        ensures
            r == self.accumulator(),
    {
        self.count
    }

    /// Runs every command of the source in order. The accumulator stops at `u64::MAX`.
    pub fn run(&mut self)
        ensures
            final(self).source() == old(self).source(),
            final(self).printed() == old(self).printed() + program_output(
                tokens_view(old(self).source()),
                old(self).source(),
            ),
            final(self).accumulator() as int == if old(self).accumulator() + plus_count(
                tokens_view(old(self).source()),
            ) > u64::MAX {
                u64::MAX as int
            } else {
                old(self).accumulator() + plus_count(tokens_view(old(self).source()))
            },
    {
        let tokens = tokenize(self.src_code.as_str());
        let ghost ts = tokens@;
        let ghost out0 = self.output@;
        let ghost count0 = self.count as int;
        let mut i: usize = 0;
        while i < tokens.len()
            invariant
                i <= tokens.len(),
                tokens@ == ts,
                ts == tokens_view(self.src_code@),
                self.src_code@ == old(self).source(),
                out0 == old(self).printed(),
                count0 == old(self).accumulator(),
                self.output@ == out0 + program_output(ts.take(i as int), self.src_code@),
                self.count as int == if count0 + plus_count(ts.take(i as int)) > u64::MAX {
                    u64::MAX as int
                } else {
                    count0 + plus_count(ts.take(i as int))
                },
            decreases tokens.len() - i,
        {
            proof {
                assert(ts.take(i + 1).drop_last() =~= ts.take(i as int));
            }
            match tokens[i] {
                Token::Hello => self.print_hello(),
                Token::Quine => self.print_source(),
                Token::Ninety => self.print_99_bottles_of_beer(),
                Token::Plus => self.increment(),
                Token::Ignore => {},
            }
            proof {
                assert(self.output@ =~= out0 + program_output(ts.take(i + 1), self.src_code@));
            }
            i = i + 1;
        }
        proof {
            assert(ts.take(ts.len() as int) =~= ts);
        }
    }

    fn print_hello(&mut self)
        ensures
            final(self).output@ == old(self).output@ + "Hello, world!\n"@,
            final(self).src_code == old(self).src_code,
            final(self).count == old(self).count,
    {
        self.output.append("Hello, world!\n");
    }

    fn print_source(&mut self)
        ensures
            final(self).output@ == old(self).output@ + old(self).src_code@,
            final(self).src_code == old(self).src_code,
            final(self).count == old(self).count,
    {
        self.output.append(self.src_code.as_str());
    }

    /// `s` with its first character in uppercase.
    pub fn head_to_upper(s: &str) -> (r: String)
        ensures
            r@ == head_upper(s@),
    {
        let n = s.unicode_len();
        if n == 0 {
            return String::new();
        }
        let mut r = uppercase(s.get_char(0));
        r.append(s.substring_char(1, n));
        proof {
            assert(s@.subrange(1, n as int) =~= s@.drop_first());
        }
        r
    }

    fn verse_text(k: u64) -> (r: String)
        ensures
            r@ == verse(k),
    {
        let before = bottles_text(k);
        let after = if k == 0 {
            bottles_text(99)
        } else {
            bottles_text(k - 1)
        };
        let mut r = Self::head_to_upper(before.as_str());
        r.append(" of beer on the wall, ");
        r.append(before.as_str());
        r.append(" of beer.\n");
        if k == 0 {
            r.append("Go to the store and buy some more");
        } else {
            r.append("Take one down and pass it around");
        }
        r.append(", ");
        r.append(after.as_str());
        r.append(" of beer on the wall.\n");
        r
    }

    fn print_99_bottles_of_beer(&mut self)
        ensures
            final(self).output@ == old(self).output@ + song_upto(100),
            final(self).src_code == old(self).src_code,
            final(self).count == old(self).count,
    {
        let mut j: u64 = 0;
        while j < 100
            invariant
                j <= 100,
                self.output@ == old(self).output@ + song_upto(j as int),
                self.src_code == old(self).src_code,
                self.count == old(self).count,
            decreases 100 - j,
        {
            let v = Self::verse_text(99 - j);
            self.output.append(v.as_str());
            proof {
                assert(self.output@ =~= old(self).output@ + song_upto(j + 1));
            }
            j = j + 1;
        }
    }

    fn increment(&mut self)
        ensures
            final(self).count as int == if old(self).count == u64::MAX {
                u64::MAX as int
            } else {
                old(self).count + 1
            },
            final(self).output == old(self).output,
            final(self).src_code == old(self).src_code,
    {
        if self.count < u64::MAX {
            self.count = self.count + 1;
        }
    }
}

/// The commands of a source text.
pub open spec fn tokens_view(s: Seq<char>) -> Seq<Token> {
    s.map_values(|c: char| token_of(c))
}

} // verus!
