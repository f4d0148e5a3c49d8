//! Quote-aware tokenisation of PSLF record lines.
//!
//! Outside double quotes, spaces and tabs separate tokens and a colon is a token
//! of its own; inside quotes every character belongs to the current token. The
//! quote characters themselves are dropped, and each token is trimmed.

use vstd::prelude::*;
use crate::text::{spec_is_whitespace, spec_trim, spec_trim_end, spec_trim_start, trim_chars};

verus! {

/// Tokens as character sequences.
pub open spec fn tokens_view(v: Seq<Vec<char>>) -> Seq<Seq<char>> {
    v.map_values(|t: Vec<char>| t@)
}

/// Closes the token under construction, if any.
pub open spec fn spec_flush(toks: Seq<Seq<char>>, cur: Seq<char>) -> Seq<Seq<char>> {
    if cur.len() > 0 {
        toks.push(spec_trim(cur))
    } else {
        toks
    }
}

/// One character of input: (finished tokens, token under construction, inside quotes).
pub open spec fn spec_tok_step(
    st: (Seq<Seq<char>>, Seq<char>, bool),
    c: char,
) -> (Seq<Seq<char>>, Seq<char>, bool) {
    let (toks, cur, inq) = st;
    if c == '"' {
        (toks, cur, !inq)
    } else if c == ':' && !inq {
        (spec_flush(toks, cur).push(seq![':']), Seq::empty(), inq)
    } else if (c == ' ' || c == '\t') && !inq {
        (spec_flush(toks, cur), Seq::empty(), inq)
    } else {
        (toks, cur.push(c), inq)
    }
}

pub open spec fn spec_tok_run(s: Seq<char>) -> (Seq<Seq<char>>, Seq<char>, bool)
    decreases s.len(),
{
    if s.len() == 0 {
        (Seq::empty(), Seq::empty(), false)
    } else {
        spec_tok_step(spec_tok_run(s.drop_last()), s.last())
    }
}

/// The tokens of a PSLF line.
pub open spec fn spec_tokenize(s: Seq<char>) -> Seq<Seq<char>> {
    let st = spec_tok_run(s);
    spec_flush(st.0, st.1)
}

fn flush(toks: &mut Vec<Vec<char>>, cur: &Vec<char>)
    ensures
        tokens_view(final(toks)@) == spec_flush(tokens_view(old(toks)@), cur@),
{
    if cur.len() > 0 {
        let t = trim_chars(cur);
        toks.push(t);
        assert(tokens_view(toks@) =~= tokens_view(old(toks)@).push(spec_trim(cur@)));
    }
}

/// Splits one PSLF line into tokens.
pub fn tokenize_pslf_line(line: &Vec<char>) -> (r: Vec<Vec<char>>)
    ensures
        tokens_view(r@) == spec_tokenize(line@),
{
    let mut toks: Vec<Vec<char>> = Vec::new();
    let mut cur: Vec<char> = Vec::new();
    let mut inq = false;
    let mut i: usize = 0;
    assert(tokens_view(toks@) =~= Seq::<Seq<char>>::empty());
    assert(line@.subrange(0, 0) =~= Seq::<char>::empty());
    while i < line.len()
        invariant
            i <= line.len(),
            (tokens_view(toks@), cur@, inq) == spec_tok_run(line@.subrange(0, i as int)),
        decreases line.len() - i,
    {
        let c = line[i];
        assert(line@.subrange(0, i + 1).drop_last() =~= line@.subrange(0, i as int));
        assert(line@.subrange(0, i + 1).last() == c);
        if c == '"' {
            inq = !inq;
        } else if c == ':' && !inq {
            flush(&mut toks, &cur);
            let mut colon: Vec<char> = Vec::new();
            colon.push(':');
            let ghost before = tokens_view(toks@);
            toks.push(colon);
            assert(tokens_view(toks@) =~= before.push(seq![':']));
            cur = Vec::new();
        } else if (c == ' ' || c == '\t') && !inq {
            flush(&mut toks, &cur);
            cur = Vec::new();
        } else {
            cur.push(c);
        }
        i = i + 1;
    }
    assert(line@.subrange(0, line@.len() as int) =~= line@);
    flush(&mut toks, &cur);
    toks
}

/// Position of the first `:` token.
pub open spec fn spec_colon_pos(toks: Seq<Seq<char>>) -> Option<int> {
    if exists|k: int| 0 <= k < toks.len() && toks[k] == seq![':'] {
        Some(
            choose|k: int|
                0 <= k < toks.len() && toks[k] == seq![':'] && forall|j: int|
                    0 <= j < k ==> toks[j] != seq![':'],
        )
    } else {
        None
    }
}

/// Index of the first `:` token, if any (`iter().position(|t| t == ":")`).
pub fn colon_position(toks: &Vec<Vec<char>>) -> (r: Option<usize>)
    ensures
        r matches Some(k) ==> (k < toks@.len() && toks@[k as int]@ == seq![':'] && forall|j: int|
            0 <= j < k ==> toks@[j]@ != seq![':']),
        r is None ==> forall|j: int| 0 <= j < toks@.len() ==> toks@[j]@ != seq![':'],
        r matches Some(k) ==> spec_colon_pos(tokens_view(toks@)) == Some(k as int),
        r is None ==> spec_colon_pos(tokens_view(toks@)) is None,
{
    let mut k: usize = 0;
    while k < toks.len()
        invariant
            k <= toks.len(),
            forall|j: int| 0 <= j < k ==> toks@[j]@ != seq![':'],
        decreases toks.len() - k,
    {
        let t = &toks[k];
        if t.len() == 1 && t[0] == ':' {
            assert(t@ =~= seq![':']);
            proof {
                let tv = tokens_view(toks@);
                assert(tv[k as int] == seq![':']);
                let c = choose|m: int|
                    0 <= m < tv.len() && tv[m] == seq![':'] && forall|j: int|
                        0 <= j < m ==> tv[j] != seq![':'];
                assert(forall|j: int| 0 <= j < k ==> tv[j] != seq![':']);
                if c < k {
                    assert(tv[c] != seq![':']);
                } else if c > k {
                    assert(tv[k as int] != seq![':']);
                }
            }
            return Some(k);
        }
        assert(t@.len() != 1 || t@[0] != ':');
        assert(t@ != seq![':']);
        k = k + 1;
    }
    proof {
        let tv = tokens_view(toks@);
        assert forall|m: int| 0 <= m < tv.len() implies tv[m] != seq![':'] by {
            assert(tv[m] == toks@[m]@);
        }
    }
    None
}

/// Whether `t` holds no double-quote character.
pub open spec fn spec_no_quote(t: Seq<char>) -> bool {
    forall|i: int| 0 <= i < t.len() ==> t[i] != '"'
}

proof fn lemma_trim_keeps_no_quote(s: Seq<char>)
    requires
        spec_no_quote(s),
    ensures
        spec_no_quote(spec_trim(s)),
{
    lemma_trim_start_keeps_no_quote(s);
    lemma_trim_end_keeps_no_quote(spec_trim_start(s));
}

proof fn lemma_trim_start_keeps_no_quote(s: Seq<char>)
    requires
        spec_no_quote(s),
    ensures
        spec_no_quote(spec_trim_start(s)),
    decreases s.len(),
{
    if s.len() > 0 && spec_is_whitespace(s[0]) {
        assert(forall|i: int| 0 <= i < s.drop_first().len() ==> s.drop_first()[i] == s[i + 1]);
        lemma_trim_start_keeps_no_quote(s.drop_first());
    }
}

proof fn lemma_trim_end_keeps_no_quote(s: Seq<char>)
    requires
        spec_no_quote(s),
    ensures
        spec_no_quote(spec_trim_end(s)),
    decreases s.len(),
{
    if s.len() > 0 && spec_is_whitespace(s.last()) {
        assert(forall|i: int| 0 <= i < s.drop_last().len() ==> s.drop_last()[i] == s[i]);
        lemma_trim_end_keeps_no_quote(s.drop_last());
    }
}

proof fn lemma_flush_no_quote(toks: Seq<Seq<char>>, cur: Seq<char>)
    requires
        forall|k: int| 0 <= k < toks.len() ==> spec_no_quote(#[trigger] toks[k]),
        spec_no_quote(cur),
    ensures
        forall|k: int|
            0 <= k < spec_flush(toks, cur).len() ==> spec_no_quote(#[trigger] spec_flush(toks, cur)[k]),
{
    if cur.len() > 0 {
        lemma_trim_keeps_no_quote(cur);
        let f = toks.push(spec_trim(cur));
        assert forall|k: int| 0 <= k < f.len() implies spec_no_quote(#[trigger] f[k]) by {
            if k < toks.len() {
                assert(f[k] == toks[k]);
            }
        }
    }
}

proof fn lemma_tok_run_no_quote(s: Seq<char>)
    ensures
        forall|k: int|
            0 <= k < spec_tok_run(s).0.len() ==> spec_no_quote(#[trigger] spec_tok_run(s).0[k]),
        spec_no_quote(spec_tok_run(s).1),
    decreases s.len(),
{
    if s.len() > 0 {
        lemma_tok_run_no_quote(s.drop_last());
        let (toks, cur, inq) = spec_tok_run(s.drop_last());
        let c = s.last();
        if c == '"' {
        } else if c == ':' && !inq {
            lemma_flush_no_quote(toks, cur);
            let f = spec_flush(toks, cur);
            let g = f.push(seq![':']);
            assert forall|k: int| 0 <= k < g.len() implies spec_no_quote(#[trigger] g[k]) by {
                if k < f.len() {
                    assert(g[k] == f[k]);
                } else {
                    assert(g[k] == seq![':']);
                }
            }
        } else if (c == ' ' || c == '\t') && !inq {
            lemma_flush_no_quote(toks, cur);
        } else {
            assert(forall|i: int| 0 <= i < cur.len() ==> cur.push(c)[i] == cur[i]);
        }
    }
}

/// No token of a line holds a double-quote character: quotes only group.
pub proof fn law_tokens_hold_no_quote(s: Seq<char>)
    ensures
        forall|k: int| 0 <= k < spec_tokenize(s).len() ==> spec_no_quote(#[trigger] spec_tokenize(s)[k]),
{
    lemma_tok_run_no_quote(s);
    lemma_flush_no_quote(spec_tok_run(s).0, spec_tok_run(s).1);
}

} // verus!
