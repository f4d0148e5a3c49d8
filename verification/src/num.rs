//! Decimal integers and the syntax of floating-point literals.
//!
//! Integer fields of the case files (bus numbers, type codes, status flags) are
//! parsed here; real-valued fields are only recognised here, by the grammar that
//! `f64::from_str` accepts, and are carried on as their text.

use vstd::prelude::*;
use crate::text::{eq_str, lower_chars, push_chars, spec_lower};

verus! {

// ---------------------------------------------------------------------------
// Decimal digits
// ---------------------------------------------------------------------------

pub open spec fn spec_is_digit(c: char) -> bool {
    '0' <= c && c <= '9'
}

pub open spec fn spec_all_digits(s: Seq<char>) -> bool {
    forall|i: int| 0 <= i < s.len() ==> spec_is_digit(#[trigger] s[i])
}

pub open spec fn spec_digit_value(c: char) -> nat {
    ((c as u32) - ('0' as u32)) as nat
}

/// The value of a string of decimal digits, most significant first.
pub open spec fn spec_digits_value(s: Seq<char>) -> nat
    decreases s.len(),
{
    if s.len() == 0 {
        0
    } else {
        spec_digits_value(s.drop_last()) * 10 + spec_digit_value(s.last())
    }
}

/// What `u32::from_str` accepts, bounded by `max`: an optional `+`, then one or
/// more decimal digits whose value is at most `max`.
pub open spec fn spec_parse_bounded(s: Seq<char>, max: nat) -> Option<nat> {
    let body = if s.len() > 0 && s[0] == '+' {
        s.drop_first()
    } else {
        s
    };
    if body.len() > 0 && spec_all_digits(body) && spec_digits_value(body) <= max {
        Some(spec_digits_value(body))
    } else {
        None
    }
}

/// What `str::parse::<u32>` returns on `s`, as an `Option`.
pub open spec fn spec_parse_u32(s: Seq<char>) -> Option<u32> {
    match spec_parse_bounded(s, u32::MAX as nat) {
        Some(v) => Some(v as u32),
        None => None,
    }
}

/// What `str::parse::<u8>` returns on `s`, as an `Option`.
pub open spec fn spec_parse_u8(s: Seq<char>) -> Option<u8> {
    match spec_parse_bounded(s, u8::MAX as nat) {
        Some(v) => Some(v as u8),
        None => None,
    }
}

proof fn lemma_digits_value_prefix_le(s: Seq<char>, k: int)
    requires
        0 <= k <= s.len(),
    ensures
        spec_digits_value(s.subrange(0, k)) <= spec_digits_value(s),
    decreases s.len() - k,
{
    if k < s.len() {
        assert(s.drop_last().subrange(0, k) =~= s.subrange(0, k));
        lemma_digits_value_prefix_le(s.drop_last(), k);
    } else {
        assert(s.subrange(0, k) =~= s);
    }
}

fn parse_bounded(s: &Vec<char>, max: u32) -> (r: Option<u32>)
    requires
        max >= 9,
    ensures
        r matches Some(v) ==> spec_parse_bounded(s@, max as nat) == Some(v as nat),
        r is None ==> spec_parse_bounded(s@, max as nat) is None,
{
    let n = s.len();
    let start: usize = if n > 0 && s[0] == '+' {
        1
    } else {
        0
    };
    let ghost body = s@.subrange(start as int, n as int);
    proof {
        if start == 1 {
            assert(body =~= s@.drop_first());
        } else {
            assert(body =~= s@);
        }
    }
    if start >= n {
        return None;
    }
    let mut value: u32 = 0;
    let mut i = start;
    while i < n
        invariant
            n == s.len(),
            start <= i <= n,
            body == s@.subrange(start as int, n as int),
            body == (if s@.len() > 0 && s@[0] == '+' {
                s@.drop_first()
            } else {
                s@
            }),
            spec_all_digits(s@.subrange(start as int, i as int)),
            value as nat == spec_digits_value(s@.subrange(start as int, i as int)),
            value <= max,
            max >= 9,
        decreases n - i,
    {
        let c = s[i];
        let ghost pre = s@.subrange(start as int, i as int);
        let ghost next = s@.subrange(start as int, i + 1);
        assert(next.drop_last() =~= pre);
        assert(next.last() == c);
        if !('0' <= c && c <= '9') {
            assert(body[i - start] == c);
            assert(!spec_is_digit(body[i - start]));
            return None;
        }
        let d = (c as u32) - ('0' as u32);
        if value > (max - d) / 10 {
            proof {
                assert(spec_digits_value(next) == value * 10 + d);
                assert(spec_digits_value(next) > max) by (nonlinear_arith)
                    requires
                        value > (max - d) / 10,
                        spec_digits_value(next) == value * 10 + d,
                        d <= 9,
                        d <= max || true,
                ;
                assert(body.subrange(0, i + 1 - start) =~= next);
                lemma_digits_value_prefix_le(body, i + 1 - start);
            }
            return None;
        }
        proof {
            assert(value * 10 + d <= max) by (nonlinear_arith)
                requires
                    value <= (max - d) / 10,
                    d <= max,
            ;
        }
        value = value * 10 + d;
        i = i + 1;
    }
    Some(value)
}

/// `str::parse::<u32>` on a character vector, as an `Option`.
pub fn parse_u32(s: &Vec<char>) -> (r: Option<u32>)
    ensures
        r == spec_parse_u32(s@),
{
    parse_bounded(s, u32::MAX)
}

/// `str::parse::<u8>` on a character vector, as an `Option`.
pub fn parse_u8(s: &Vec<char>) -> (r: Option<u8>)
    ensures
        r == spec_parse_u8(s@),
{
    match parse_bounded(s, 255) {
        Some(v) => Some(v as u8),
        None => None,
    }
}

// ---------------------------------------------------------------------------
// Decimal rendering
// ---------------------------------------------------------------------------

pub open spec fn spec_digit_char(d: nat) -> char {
    ((d + 48) as u32) as char
}

/// The decimal rendering of `n` (what `format!("{n}")` prints for an unsigned integer).
pub open spec fn spec_decimal(n: nat) -> Seq<char>
    decreases n,
{
    if n < 10 {
        seq![spec_digit_char(n)]
    } else {
        spec_decimal(n / 10).push(spec_digit_char(n % 10))
    }
}

fn digit_char(d: u64) -> (c: char)
    requires
        d < 10,
    ensures
        c == spec_digit_char(d as nat),
{
    let b: u8 = (d as u8) + 48;
    b as char
}

/// Appends the decimal rendering of `n` to `s`.
pub fn push_decimal(s: &mut String, n: u64)
    ensures
        final(s)@ == old(s)@ + spec_decimal(n as nat),
    decreases n,
{
    if n >= 10 {
        push_decimal(s, n / 10);
    }
    let c = digit_char(n % 10);
    let ghost mid = s@;
    push_chars_one(s, c);
    proof {
        if n >= 10 {
            assert(s@ =~= old(s)@ + spec_decimal(n as nat));
        } else {
            assert(s@ =~= old(s)@ + spec_decimal(n as nat));
        }
    }
}

fn push_chars_one(s: &mut String, c: char)
    ensures
        final(s)@ == old(s)@.push(c),
{
    let mut v: Vec<char> = Vec::new();
    v.push(c);
    push_chars(s, &v);
    assert(old(s)@ + v@ =~= old(s)@.push(c));
}

proof fn lemma_digit_char_value(d: nat)
    requires
        d < 10,
    ensures
        spec_digit_value(spec_digit_char(d)) == d,
        spec_is_digit(spec_digit_char(d)),
{
    let c = spec_digit_char(d);
    assert(c as u32 == d + 48);
}

proof fn lemma_decimal_digits(n: nat)
    ensures
        spec_decimal(n).len() > 0,
        spec_all_digits(spec_decimal(n)),
        spec_digits_value(spec_decimal(n)) == n,
        spec_decimal(n)[0] != '+',
    decreases n,
{
    if n >= 10 {
        lemma_decimal_digits(n / 10);
        let s = spec_decimal(n);
        assert(s == spec_decimal(n / 10).push(spec_digit_char(n % 10)));
        assert(s.drop_last() =~= spec_decimal(n / 10));
        assert(s.last() == spec_digit_char(n % 10));
        lemma_digit_char_value(n % 10);
        assert(spec_digits_value(s) == spec_digits_value(s.drop_last()) * 10 + spec_digit_value(
            s.last(),
        ));
        assert(spec_digits_value(s) == (n / 10) * 10 + n % 10);
        assert((n / 10) * 10 + n % 10 == n);
    } else {
        lemma_digit_char_value(n);
        let s = spec_decimal(n);
        assert(s == seq![spec_digit_char(n)]);
        assert(s.drop_last() =~= Seq::<char>::empty());
        assert(spec_digits_value(s.drop_last()) == 0);
        assert(spec_digits_value(s) == spec_digits_value(s.drop_last()) * 10 + spec_digit_value(
            s.last(),
        ));
    }
}

/// Reading back the decimal rendering of an unsigned 32-bit value gives the value:
/// `str::parse::<u32>` inverts `format!("{n}")`.
pub proof fn law_parse_u32_of_decimal(n: u32)
    ensures
        spec_parse_u32(spec_decimal(n as nat)) == Some(n),
{
    lemma_decimal_digits(n as nat);
}

// ---------------------------------------------------------------------------
// Floating-point literal syntax
// ---------------------------------------------------------------------------

/// States of the recogniser for the number part of a float literal:
/// `Number ::= (Digit+ | Digit+ '.' Digit* | Digit* '.' Digit+) (('e'|'E') Sign? Digit+)?`,
/// after an optional sign.
pub enum FloatLexState {
    Start,
    Signed,
    Int,
    DotNoInt,
    Frac,
    Exp,
    ExpSigned,
    ExpDigits,
    Reject,
}

pub open spec fn spec_float_step(st: FloatLexState, c: char) -> FloatLexState {
    let digit = spec_is_digit(c);
    let sign = c == '+' || c == '-';
    let dot = c == '.';
    let e = c == 'e' || c == 'E';
    match st {
        FloatLexState::Start => if digit {
            FloatLexState::Int
        } else if sign {
            FloatLexState::Signed
        } else if dot {
            FloatLexState::DotNoInt
        } else {
            FloatLexState::Reject
        },
        FloatLexState::Signed => if digit {
            FloatLexState::Int
        } else if dot {
            FloatLexState::DotNoInt
        } else {
            FloatLexState::Reject
        },
        FloatLexState::Int => if digit {
            FloatLexState::Int
        } else if dot {
            FloatLexState::Frac
        } else if e {
            FloatLexState::Exp
        } else {
            FloatLexState::Reject
        },
        FloatLexState::DotNoInt => if digit {
            FloatLexState::Frac
        } else {
            FloatLexState::Reject
        },
        FloatLexState::Frac => if digit {
            FloatLexState::Frac
        } else if e {
            FloatLexState::Exp
        } else {
            FloatLexState::Reject
        },
        FloatLexState::Exp => if digit {
            FloatLexState::ExpDigits
        } else if sign {
            FloatLexState::ExpSigned
        } else {
            FloatLexState::Reject
        },
        FloatLexState::ExpSigned => if digit {
            FloatLexState::ExpDigits
        } else {
            FloatLexState::Reject
        },
        FloatLexState::ExpDigits => if digit {
            FloatLexState::ExpDigits
        } else {
            FloatLexState::Reject
        },
        FloatLexState::Reject => FloatLexState::Reject,
    }
}

pub open spec fn spec_float_run(s: Seq<char>) -> FloatLexState
    decreases s.len(),
{
    if s.len() == 0 {
        FloatLexState::Start
    } else {
        spec_float_step(spec_float_run(s.drop_last()), s.last())
    }
}

pub open spec fn spec_float_accepting(st: FloatLexState) -> bool {
    st is Int || st is Frac || st is ExpDigits
}

/// `inf`, `infinity` or `nan`, in any letter case, after an optional sign.
pub open spec fn spec_is_float_word(s: Seq<char>) -> bool {
    let body = if s.len() > 0 && (s[0] == '+' || s[0] == '-') {
        s.drop_first()
    } else {
        s
    };
    let l = spec_lower(body);
    l == "inf"@ || l == "infinity"@ || l == "nan"@
}

/// The strings that `f64::from_str` accepts.
pub open spec fn spec_is_float_literal(s: Seq<char>) -> bool {
    spec_float_accepting(spec_float_run(s)) || spec_is_float_word(s)
}

fn float_step(st: FloatLexState, c: char) -> (r: FloatLexState)
    ensures
        r == spec_float_step(st, c),
{
    let digit = '0' <= c && c <= '9';
    let sign = c == '+' || c == '-';
    let dot = c == '.';
    let e = c == 'e' || c == 'E';
    match st {
        FloatLexState::Start => if digit {
            FloatLexState::Int
        } else if sign {
            FloatLexState::Signed
        } else if dot {
            FloatLexState::DotNoInt
        } else {
            FloatLexState::Reject
        },
        FloatLexState::Signed => if digit {
            FloatLexState::Int
        } else if dot {
            FloatLexState::DotNoInt
        } else {
            FloatLexState::Reject
        },
        FloatLexState::Int => if digit {
            FloatLexState::Int
        } else if dot {
            FloatLexState::Frac
        } else if e {
            FloatLexState::Exp
        } else {
            FloatLexState::Reject
        },
        FloatLexState::DotNoInt => if digit {
            FloatLexState::Frac
        } else {
            FloatLexState::Reject
        },
        FloatLexState::Frac => if digit {
            FloatLexState::Frac
        } else if e {
            FloatLexState::Exp
        } else {
            FloatLexState::Reject
        },
        FloatLexState::Exp => if digit {
            FloatLexState::ExpDigits
        } else if sign {
            FloatLexState::ExpSigned
        } else {
            FloatLexState::Reject
        },
        FloatLexState::ExpSigned => if digit {
            FloatLexState::ExpDigits
        } else {
            FloatLexState::Reject
        },
        FloatLexState::ExpDigits => if digit {
            FloatLexState::ExpDigits
        } else {
            FloatLexState::Reject
        },
        FloatLexState::Reject => FloatLexState::Reject,
    }
}

/// Whether `f64::from_str` accepts `s`.
pub fn is_float_literal(s: &Vec<char>) -> (r: bool)
    ensures
        r == spec_is_float_literal(s@),
{
    let mut st = FloatLexState::Start;
    let mut i: usize = 0;
    while i < s.len()
        invariant
            i <= s.len(),
            st == spec_float_run(s@.subrange(0, i as int)),
        decreases s.len() - i,
    {
        assert(s@.subrange(0, i + 1).drop_last() =~= s@.subrange(0, i as int));
        st = float_step(st, s[i]);
        i = i + 1;
    }
    assert(s@.subrange(0, s@.len() as int) =~= s@);
    let accepting = match st {
        FloatLexState::Int => true,
        FloatLexState::Frac => true,
        FloatLexState::ExpDigits => true,
        _ => false,
    };
    if accepting {
        return true;
    }
    let n = s.len();
    let start: usize = if n > 0 && (s[0] == '+' || s[0] == '-') {
        1
    } else {
        0
    };
    let mut body: Vec<char> = Vec::new();
    let mut j = start;
    while j < n
        invariant
            n == s.len(),
            start <= j <= n,
            body@ =~= s@.subrange(start as int, j as int),
        decreases n - j,
    {
        body.push(s[j]);
        j = j + 1;
    }
    proof {
        if start == 1 {
            assert(body@ =~= s@.drop_first());
        } else {
            assert(body@ =~= s@);
        }
    }
    let l = lower_chars(&body);
    eq_str(&l, "inf") || eq_str(&l, "infinity") || eq_str(&l, "nan")
}

} // verus!
