use vstd::prelude::*;

verus! {

/// Whether a character is an ASCII decimal digit.
pub open spec fn is_digit(c: char) -> bool {
    '0' <= c <= '9'
}

/// The value of a digit character (zero for any other character).
pub open spec fn digit_value(c: char) -> nat {
    if is_digit(c) {
        (c as u32 - '0' as u32) as nat
    } else {
        0
    }
}

/// The number that a run of decimal digits spells, most significant first.
pub open spec fn decimal_value(s: Seq<char>) -> nat
    decreases s.len(),
{
    if s.len() == 0 {
        0
    } else {
        10 * decimal_value(s.drop_last()) + digit_value(s.last())
    }
}

/// Whether a sequence is one or more decimal digits.
pub open spec fn all_digits(s: Seq<char>) -> bool {
    s.len() > 0 && forall|i: int| 0 <= i < s.len() ==> is_digit(#[trigger] s[i])
}

/// Whether a text starts with a sign character.
pub open spec fn has_sign(s: Seq<char>) -> bool {
    s.len() > 0 && (s[0] == '-' || s[0] == '+')
}

/// The integer a text writes in decimal: an optional `+` or `-`, then one or more
/// digits, and nothing else; the value must fit in 64 signed bits.
pub open spec fn parse_decimal(s: Seq<char>) -> Option<i64> {
    let body = if has_sign(s) {
        s.drop_first()
    } else {
        s
    };
    let m = decimal_value(body) as int;
    let v = if has_sign(s) && s[0] == '-' {
        -m
    } else {
        m
    };
    if all_digits(body) && i64::MIN <= v <= i64::MAX {
        Some(v as i64)
    } else {
        None
    }
}

/// The digits part of the first `i` characters of `s`, its sign left out.
pub open spec fn body_at(s: Seq<char>, i: int) -> Seq<char> {
    s.subrange(if i > 0 && has_sign(s) { 1 } else { 0 }, i)
}

/// `v`, or `CAP` if `v` is larger.
pub open spec fn capped(v: nat) -> int {
    if v < CAP {
        v as int
    } else {
        CAP as int
    }
}

/// A bound above every magnitude that fits in 64 signed bits.
pub const CAP: u128 = 0x8000_0000_0000_0001;

/// Reads a text as a signed decimal integer.
pub fn parse_number(s: &str) -> (r: Option<i64>)
    ensures
        r == parse_decimal(s@),
{
    let mut at_start = true;
    let mut neg = false;
    let mut digits_only = true;
    let mut empty = true;
    let mut mag: u128 = 0;
    for c in it: s.chars()
        invariant
            it.seq() == s@,
            at_start == (it.index() == 0),
            neg == (it.index() > 0 && has_sign(s@) && s@[0] == '-'),
            digits_only == (forall|j: int|
                0 <= j < body_at(s@, it.index() as int).len() ==> is_digit(
                    #[trigger] body_at(s@, it.index() as int)[j],
                )),
            mag <= CAP,
            empty == (body_at(s@, it.index() as int).len() == 0),
            digits_only ==> mag as int == capped(decimal_value(body_at(s@, it.index() as int))),
    {
        let ghost i = it.index() as int;
        let ghost body = body_at(s@, i);
        let ghost body2 = body_at(s@, i + 1);
        if at_start && (c == '-' || c == '+') {
            neg = c == '-';
            proof {
                assert(body2.len() == 0);
            }
        } else {
            proof {
                assert(body2.drop_last() =~= body);
                assert(body2.last() == c);
            }
            if '0' <= c && c <= '9' {
                let d = (c as u32 - '0' as u32) as u128;
                let next = 10 * mag + d;
                mag = if next < CAP {
                    next
                } else {
                    CAP
                };
                proof {
                    assert(decimal_value(body2) == 10 * decimal_value(body) + digit_value(c));
                    if decimal_value(body) >= CAP {
                        assert(decimal_value(body2) >= CAP) by (nonlinear_arith)
                            requires
                                decimal_value(body2) == 10 * decimal_value(body) + digit_value(c),
                                decimal_value(body) >= CAP,
                        ;
                    }
                }
            } else {
                digits_only = false;
            }
            empty = false;
            proof {
                assert forall|j: int| 0 <= j < body.len() implies body2[j] == body[j] by {}
            }
        }
        at_start = false;
    }
    proof {
        let body = if has_sign(s@) {
            s@.drop_first()
        } else {
            s@
        };
        assert(body_at(s@, s@.len() as int) =~= body);
    }
    if !digits_only || empty {
        return None;
    }
    if neg {
        if mag > 0x8000_0000_0000_0000 {
            None
        } else if mag == 0x8000_0000_0000_0000 {
            Some(i64::MIN)
        } else {
            Some(-(mag as i64))
        }
    } else {
        if mag > 0x7fff_ffff_ffff_ffff {
            None
        } else {
            Some(mag as i64)
        }
    }
}

} // verus!
