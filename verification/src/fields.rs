//! Reading fields out of a tokenised record line.
//!
//! A field is addressed by its token index. Integer fields are parsed here; a
//! real-valued field is returned as its token when that token is a valid
//! floating-point literal, and as `None` otherwise (the caller then applies the
//! field's default).

use vstd::prelude::*;
use crate::num::{
    is_float_literal, parse_u32, parse_u8, spec_is_float_literal, spec_parse_u32, spec_parse_u8,
};
use crate::text::{chars_to_string, str_chars};
use crate::tokenize::tokens_view;

verus! {

/// An optional text field as characters.
pub open spec fn opt_text(o: Option<String>) -> Option<Seq<char>> {
    match o {
        Some(s) => Some(s@),
        None => None,
    }
}

/// Token `k` of `toks`, or `dflt` when there is none.
pub open spec fn spec_tok_text(toks: Seq<Seq<char>>, k: int, dflt: Seq<char>) -> Seq<char> {
    if 0 <= k < toks.len() {
        toks[k]
    } else {
        dflt
    }
}

/// Token `k` when it is a floating-point literal.
pub open spec fn spec_tok_num(toks: Seq<Seq<char>>, k: int) -> Option<Seq<char>> {
    if 0 <= k < toks.len() && spec_is_float_literal(toks[k]) {
        Some(toks[k])
    } else {
        None
    }
}

/// Token `k` parsed as `u32`, or `dflt` when it is missing or does not parse.
pub open spec fn spec_tok_u32(toks: Seq<Seq<char>>, k: int, dflt: u32) -> u32 {
    if 0 <= k < toks.len() {
        match spec_parse_u32(toks[k]) {
            Some(v) => v,
            None => dflt,
        }
    } else {
        dflt
    }
}

/// Token `k` parsed as `u8`, or `dflt` when it is missing or does not parse.
pub open spec fn spec_tok_u8(toks: Seq<Seq<char>>, k: int, dflt: u8) -> u8 {
    if 0 <= k < toks.len() {
        match spec_parse_u8(toks[k]) {
            Some(v) => v,
            None => dflt,
        }
    } else {
        dflt
    }
}

/// Token `k` parsed as `u32`, when present and well formed.
pub open spec fn spec_tok_u32_opt(toks: Seq<Seq<char>>, k: int) -> Option<u32> {
    if 0 <= k < toks.len() {
        spec_parse_u32(toks[k])
    } else {
        None
    }
}

/// `base + off`, saturating at `usize::MAX` (which is past the end of any token list).
pub fn index_after(base: usize, off: usize) -> (r: usize)
    ensures
        base + off <= usize::MAX ==> r == base + off,
        base + off > usize::MAX ==> r == usize::MAX,
{
    if off > usize::MAX - base {
        usize::MAX
    } else {
        base + off
    }
}

pub fn tok_text(toks: &Vec<Vec<char>>, k: usize, dflt: &str) -> (r: String)
    ensures
        r@ == spec_tok_text(tokens_view(toks@), k as int, dflt@),
{
    if k < toks.len() {
        chars_to_string(&toks[k])
    } else {
        let d = str_chars(dflt);
        chars_to_string(&d)
    }
}

pub fn tok_num(toks: &Vec<Vec<char>>, k: usize) -> (r: Option<String>)
    ensures
        opt_text(r) == spec_tok_num(tokens_view(toks@), k as int),
{
    if k < toks.len() && is_float_literal(&toks[k]) {
        Some(chars_to_string(&toks[k]))
    } else {
        None
    }
}

pub fn tok_u32(toks: &Vec<Vec<char>>, k: usize, dflt: u32) -> (r: u32)
    ensures
        r == spec_tok_u32(tokens_view(toks@), k as int, dflt),
{
    if k < toks.len() {
        match parse_u32(&toks[k]) {
            Some(v) => v,
            None => dflt,
        }
    } else {
        dflt
    }
}

pub fn tok_u32_opt(toks: &Vec<Vec<char>>, k: usize) -> (r: Option<u32>)
    ensures
        r == spec_tok_u32_opt(tokens_view(toks@), k as int),
{
    if k < toks.len() {
        parse_u32(&toks[k])
    } else {
        None
    }
}

pub fn tok_u8(toks: &Vec<Vec<char>>, k: usize, dflt: u8) -> (r: u8)
    ensures
        r == spec_tok_u8(tokens_view(toks@), k as int, dflt),
{
    if k < toks.len() {
        match parse_u8(&toks[k]) {
            Some(v) => v,
            None => dflt,
        }
    } else {
        dflt
    }
}

} // verus!
