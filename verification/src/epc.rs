//! The section structure of a GE PSLF `.epc` case file.
//!
//! The file is read line by line, each line trimmed. A header line (`bus data`,
//! `load data`, ...) opens a section; a section runs until an empty line, a
//! comment (`!`) or the next header. Inside a record section a primary line that
//! ends in `/` is continued on the next line; only transformer records chain
//! further continuation lines (each again announced by a trailing `/`).

use vstd::prelude::*;
use crate::records::{
    conts_view, parse_branch_record, parse_bus_record, parse_generator_record, parse_load_record,
    parse_record, parse_transformer_record, spec_branch_of, spec_bus_of, spec_generator_of,
    spec_load_of, spec_record_of, spec_transformer_of, BranchRecord, BusRecord, GeneratorRecord,
    LoadRecord, Record, RecordView, SectionKind, TransformerRecord,
};
use crate::text::{
    chars_to_string, is_whitespace, lower_chars, spec_is_whitespace, spec_lower, spec_starts_with,
    spec_trim, starts_with_str, str_chars, trim_chars,
};
use crate::num::{is_float_literal, spec_is_float_literal};
use crate::tokenize::{spec_tokenize, tokenize_pslf_line, tokens_view};

verus! {

// ---------------------------------------------------------------------------
// Line classes
// ---------------------------------------------------------------------------

/// Whether `l` opens a section of an EPC file (letter case ignored).
pub open spec fn spec_is_section_header(l: Seq<char>) -> bool {
    let s = spec_lower(l);
    ||| spec_starts_with(s, "title"@)
    ||| spec_starts_with(s, "comments"@)
    ||| spec_starts_with(s, "solution parameters"@)
    ||| spec_starts_with(s, "substation data"@)
    ||| spec_starts_with(s, "bus data"@)
    ||| spec_starts_with(s, "load data"@)
    ||| spec_starts_with(s, "generator data"@)
    ||| spec_starts_with(s, "branch data"@)
    ||| spec_starts_with(s, "transformer data"@)
    ||| spec_starts_with(s, "area data"@)
    ||| spec_starts_with(s, "zone data"@)
    ||| spec_starts_with(s, "owner data"@)
    ||| spec_starts_with(s, "shunt data"@)
    ||| spec_starts_with(s, "svd data"@)
    ||| spec_starts_with(s, "switched shunt"@)
    ||| spec_starts_with(s, "interface data"@)
    ||| spec_starts_with(s, "interface branch data"@)
    ||| spec_starts_with(s, "dc bus data"@)
    ||| spec_starts_with(s, "dc converter data"@)
    ||| spec_starts_with(s, "z table data"@)
    ||| spec_starts_with(s, "gcd data"@)
    ||| spec_starts_with(s, "transaction data"@)
    ||| spec_starts_with(s, "qtable data"@)
    ||| spec_starts_with(s, "ba data"@)
    ||| spec_starts_with(s, "injgroup data"@)
    ||| spec_starts_with(s, "injgrpelem data"@)
    ||| spec_starts_with(s, "dc "@)
    ||| spec_starts_with(s, "end"@)
}

/// An empty line, a comment line or a header line ends a section.
pub open spec fn spec_ends_section(l: Seq<char>) -> bool {
    l.len() == 0 || l[0] == '!' || spec_is_section_header(l)
}

/// A line ending in `/` is continued on the next line.
pub open spec fn spec_line_has_continuation(l: Seq<char>) -> bool {
    l.len() > 0 && l.last() == '/'
}

/// Whether the (trimmed) line opens a section.
pub fn is_known_section_header(line: &Vec<char>) -> (r: bool)
    ensures
        r == spec_is_section_header(line@),
{
    let l = lower_chars(line);
    starts_with_str(&l, "title") || starts_with_str(&l, "comments") || starts_with_str(
        &l,
        "solution parameters",
    ) || starts_with_str(&l, "substation data") || starts_with_str(&l, "bus data")
        || starts_with_str(&l, "load data") || starts_with_str(&l, "generator data")
        || starts_with_str(&l, "branch data") || starts_with_str(&l, "transformer data")
        || starts_with_str(&l, "area data") || starts_with_str(&l, "zone data")
        || starts_with_str(&l, "owner data") || starts_with_str(&l, "shunt data")
        || starts_with_str(&l, "svd data") || starts_with_str(&l, "switched shunt")
        || starts_with_str(&l, "interface data") || starts_with_str(&l, "interface branch data")
        || starts_with_str(&l, "dc bus data") || starts_with_str(&l, "dc converter data")
        || starts_with_str(&l, "z table data") || starts_with_str(&l, "gcd data")
        || starts_with_str(&l, "transaction data") || starts_with_str(&l, "qtable data")
        || starts_with_str(&l, "ba data") || starts_with_str(&l, "injgroup data")
        || starts_with_str(&l, "injgrpelem data") || starts_with_str(&l, "dc ")
        || starts_with_str(&l, "end")
}

/// Whether the (trimmed) line ends the section it would otherwise belong to.
pub fn ends_section(line: &Vec<char>) -> (r: bool)
    ensures
        r == spec_ends_section(line@),
{
    line.len() == 0 || line[0] == '!' || is_known_section_header(line)
}

/// Whether the (trimmed) line announces a continuation line.
pub fn line_has_continuation(line: &Vec<char>) -> (r: bool)
    ensures
        r == spec_line_has_continuation(line@),
{
    line.len() > 0 && line[line.len() - 1] == '/'
}

// ---------------------------------------------------------------------------
// Records and sections
// ---------------------------------------------------------------------------

/// Index of the last line of a chained record whose primary line is `j`: every
/// line that ends in `/` is continued on the next one.
pub open spec fn spec_chain_end(tl: Seq<Seq<char>>, j: int) -> int
    decreases tl.len() - j,
{
    if 0 <= j && j + 1 < tl.len() && spec_line_has_continuation(tl[j]) && !spec_ends_section(
        tl[j + 1],
    ) {
        spec_chain_end(tl, j + 1)
    } else {
        j
    }
}

/// Index of the last line of the record of kind `kind` whose primary line is `j`.
/// Transformer records chain their continuation lines; any other record takes at
/// most the one line after a primary line that ends in `/`.
pub open spec fn spec_record_end(tl: Seq<Seq<char>>, j: int, kind: SectionKind) -> int {
    if kind == SectionKind::Transformer {
        spec_chain_end(tl, j)
    } else if 0 <= j && j + 1 < tl.len() && spec_line_has_continuation(tl[j])
        && !spec_ends_section(tl[j + 1]) {
        j + 1
    } else {
        j
    }
}

pub proof fn lemma_chain_end_bounds(tl: Seq<Seq<char>>, j: int)
    requires
        0 <= j < tl.len(),
    ensures
        j <= spec_chain_end(tl, j) < tl.len(),
    decreases tl.len() - j,
{
    if j + 1 < tl.len() && spec_line_has_continuation(tl[j]) && !spec_ends_section(tl[j + 1]) {
        lemma_chain_end_bounds(tl, j + 1);
    }
}

pub proof fn lemma_record_end_bounds(tl: Seq<Seq<char>>, j: int, kind: SectionKind)
    requires
        0 <= j < tl.len(),
    ensures
        j <= spec_record_end(tl, j, kind) < tl.len(),
{
    lemma_chain_end_bounds(tl, j);
}

/// The tokens of the continuation lines `j + 1 ..= e`.
pub open spec fn spec_conts(tl: Seq<Seq<char>>, j: int, e: int) -> Seq<Seq<Seq<char>>> {
    tl.subrange(j + 1, e + 1).map_values(|l: Seq<char>| spec_tokenize(l))
}

/// The records of kind `kind` in the section whose first data line is `j`.
pub open spec fn spec_section(tl: Seq<Seq<char>>, j: int, kind: SectionKind) -> Seq<RecordView>
    decreases tl.len() - j,
{
    if j < 0 || j >= tl.len() || spec_ends_section(tl[j]) {
        Seq::empty()
    } else {
        let e = spec_record_end(tl, j, kind);
        proof {
            lemma_record_end_bounds(tl, j, kind);
        }
        let rest = spec_section(tl, e + 1, kind);
        match spec_record_of(kind, spec_tokenize(tl[j]), spec_conts(tl, j, e)) {
            Some(r) => seq![r] + rest,
            None => rest,
        }
    }
}

/// Index of the line that ends the record section whose first data line is `j`.
pub open spec fn spec_section_end(tl: Seq<Seq<char>>, j: int, kind: SectionKind) -> int
    decreases tl.len() - j,
{
    if j < 0 || j >= tl.len() || spec_ends_section(tl[j]) {
        j
    } else {
        let e = spec_record_end(tl, j, kind);
        proof {
            lemma_record_end_bounds(tl, j, kind);
        }
        spec_section_end(tl, e + 1, kind)
    }
}

/// Index of the line that ends a section read line by line from `j`.
pub open spec fn spec_skip_end(tl: Seq<Seq<char>>, j: int) -> int
    decreases tl.len() - j,
{
    if j < 0 || j >= tl.len() || spec_ends_section(tl[j]) {
        j
    } else {
        spec_skip_end(tl, j + 1)
    }
}

pub proof fn lemma_section_end_ge(tl: Seq<Seq<char>>, j: int, kind: SectionKind)
    requires
        0 <= j,
    ensures
        spec_section_end(tl, j, kind) >= j,
        j <= tl.len() ==> spec_section_end(tl, j, kind) <= tl.len(),
    decreases tl.len() - j,
{
    if j < tl.len() && !spec_ends_section(tl[j]) {
        lemma_record_end_bounds(tl, j, kind);
        lemma_section_end_ge(tl, spec_record_end(tl, j, kind) + 1, kind);
    }
}

pub proof fn lemma_section_ends_ge(tl: Seq<Seq<char>>, j: int)
    requires
        0 <= j,
    ensures
        forall|kind: SectionKind|
            #[trigger] spec_section_end(tl, j, kind) >= j && (j <= tl.len() ==> spec_section_end(
                tl,
                j,
                kind,
            ) <= tl.len()),
{
    assert forall|kind: SectionKind|
        #[trigger] spec_section_end(tl, j, kind) >= j && (j <= tl.len() ==> spec_section_end(
            tl,
            j,
            kind,
        ) <= tl.len()) by {
        lemma_section_end_ge(tl, j, kind);
    }
}

pub proof fn lemma_skip_end_ge(tl: Seq<Seq<char>>, j: int)
    requires
        0 <= j,
    ensures
        spec_skip_end(tl, j) >= j,
        j <= tl.len() ==> spec_skip_end(tl, j) <= tl.len(),
    decreases tl.len() - j,
{
    if j < tl.len() && !spec_ends_section(tl[j]) {
        lemma_skip_end_ge(tl, j + 1);
    }
}

pub open spec fn records_view(v: Seq<Record>) -> Seq<RecordView> {
    v.map_values(|r: Record| r@)
}

/// Index of the last line of the record of kind `kind` whose primary line is `j`.
fn record_end(tl: &Vec<Vec<char>>, j: usize, kind: SectionKind) -> (e: usize)
    requires
        j < tl@.len(),
    ensures
        e as int == spec_record_end(lines_view(tl@), j as int, kind),
{
    let ghost lv = lines_view(tl@);
    if kind != SectionKind::Transformer {
        if j < tl.len() - 1 && line_has_continuation(&tl[j]) && !ends_section(&tl[j + 1]) {
            return j + 1;
        }
        return j;
    }
    let mut k = j;
    while k < tl.len() - 1 && line_has_continuation(&tl[k]) && !ends_section(&tl[k + 1])
        invariant
            j <= k < tl@.len(),
            lv == lines_view(tl@),
            spec_chain_end(lv, k as int) == spec_chain_end(lv, j as int),
        decreases tl@.len() - k,
    {
        k = k + 1;
    }
    k
}

fn tokenize_lines(tl: &Vec<Vec<char>>, from: usize, to: usize) -> (r: Vec<Vec<Vec<char>>>)
    requires
        from <= to <= tl@.len(),
    ensures
        conts_view(r@) == lines_view(tl@).subrange(from as int, to as int).map_values(
            |l: Seq<char>| spec_tokenize(l),
        ),
{
    let mut r: Vec<Vec<Vec<char>>> = Vec::new();
    let mut k = from;
    while k < to
        invariant
            from <= k <= to <= tl@.len(),
            conts_view(r@) == lines_view(tl@).subrange(from as int, k as int).map_values(
                |l: Seq<char>| spec_tokenize(l),
            ),
        decreases to - k,
    {
        let ghost before = conts_view(r@);
        let toks = tokenize_pslf_line(&tl[k]);
        r.push(toks);
        proof {
            let target = lines_view(tl@).subrange(from as int, k + 1).map_values(
                |l: Seq<char>| spec_tokenize(l),
            );
            let prev = lines_view(tl@).subrange(from as int, k as int).map_values(
                |l: Seq<char>| spec_tokenize(l),
            );
            assert(lines_view(tl@).len() == tl@.len());
            assert(before == prev);
            assert(before.len() == k - from);
            assert(conts_view(r@).len() == r@.len());
            assert(target.len() == conts_view(r@).len());
            assert forall|m: int| 0 <= m < target.len() implies target[m] == conts_view(r@)[m] by {
                if m < k - from {
                    assert(target[m] == prev[m]);
                    assert(conts_view(r@)[m] == before[m]);
                } else {
                    assert(lines_view(tl@)[k as int] == tl@[k as int]@);
                }
            }
            assert(target =~= conts_view(r@));
        }
        k = k + 1;
    }
    r
}

/// Lines as character sequences.
pub open spec fn lines_view(v: Seq<Vec<char>>) -> Seq<Seq<char>> {
    v.map_values(|l: Vec<char>| l@)
}

/// Reads the record section of kind `kind` whose first data line is `j`; returns its
/// records and the index of the line that ends it.
#[verifier::rlimit(50)]
fn parse_section(tl: &Vec<Vec<char>>, j: usize, kind: SectionKind) -> (r: (Vec<Record>, usize))
    ensures
        records_view(r.0@) == spec_section(lines_view(tl@), j as int, kind),
        r.1 as int == spec_section_end(lines_view(tl@), j as int, kind),
        j <= tl@.len() ==> r.1 <= tl@.len(),
{
    let ghost lv = lines_view(tl@);
    if j >= tl.len() {
        let none: Vec<Record> = Vec::new();
        assert(records_view(none@) =~= Seq::<RecordView>::empty());
        return (none, j);
    }
    let mut out: Vec<Record> = Vec::new();
    let mut k = j;
    while k < tl.len() && !ends_section(&tl[k])
        invariant
            j <= k <= tl@.len(),
            lv == lines_view(tl@),
            records_view(out@) + spec_section(lv, k as int, kind) == spec_section(
                lv,
                j as int,
                kind,
            ),
            spec_section_end(lv, k as int, kind) == spec_section_end(lv, j as int, kind),
        decreases tl@.len() - k,
    {
        let e = record_end(tl, k, kind);
        proof {
            lemma_record_end_bounds(lv, k as int, kind);
        }
        let prim = tokenize_pslf_line(&tl[k]);
        let cont = tokenize_lines(tl, k + 1, e + 1);
        let rec = parse_record(kind, &prim, &cont);
        let ghost rest = spec_section(lv, e + 1, kind);
        match rec {
            Some(x) => {
                let ghost before = records_view(out@);
                out.push(x);
                assert(records_view(out@) =~= before.push(x@));
                assert(before.push(x@) + rest =~= before + (seq![x@] + rest));
            },
            None => {},
        }
        k = e + 1;
    }
    assert(spec_section(lv, k as int, kind) =~= Seq::<RecordView>::empty());
    assert(records_view(out@) + Seq::<RecordView>::empty() =~= records_view(out@));
    (out, k)
}

/// Reads a `bus data` section from its first data line `start`: its records and
/// the index of the line that ends it.
pub fn parse_bus_data(tl: &Vec<Vec<char>>, start: usize) -> (r: (Vec<Record>, usize))
    ensures
        records_view(r.0@) == spec_section(lines_view(tl@), start as int, SectionKind::Bus),
        r.1 as int == spec_section_end(lines_view(tl@), start as int, SectionKind::Bus),
        start <= tl@.len() ==> r.1 <= tl@.len(),
{
    parse_section(tl, start, SectionKind::Bus)
}

/// Reads a `load data` section from its first data line `start`.
pub fn parse_load_data(tl: &Vec<Vec<char>>, start: usize) -> (r: (Vec<Record>, usize))
    ensures
        records_view(r.0@) == spec_section(lines_view(tl@), start as int, SectionKind::Load),
        r.1 as int == spec_section_end(lines_view(tl@), start as int, SectionKind::Load),
        start <= tl@.len() ==> r.1 <= tl@.len(),
{
    parse_section(tl, start, SectionKind::Load)
}

/// Reads a `generator data` section from its first data line `start`.
pub fn parse_generator_data(tl: &Vec<Vec<char>>, start: usize) -> (r: (Vec<Record>, usize))
    ensures
        records_view(r.0@) == spec_section(lines_view(tl@), start as int, SectionKind::Generator),
        r.1 as int == spec_section_end(lines_view(tl@), start as int, SectionKind::Generator),
        start <= tl@.len() ==> r.1 <= tl@.len(),
{
    parse_section(tl, start, SectionKind::Generator)
}

/// Reads a `branch data` section from its first data line `start`.
pub fn parse_branch_data(tl: &Vec<Vec<char>>, start: usize) -> (r: (Vec<Record>, usize))
    ensures
        records_view(r.0@) == spec_section(lines_view(tl@), start as int, SectionKind::Branch),
        r.1 as int == spec_section_end(lines_view(tl@), start as int, SectionKind::Branch),
        start <= tl@.len() ==> r.1 <= tl@.len(),
{
    parse_section(tl, start, SectionKind::Branch)
}

/// Reads a `transformer data` section from its first data line `start`.
pub fn parse_transformer_data(tl: &Vec<Vec<char>>, start: usize) -> (r: (Vec<Record>, usize))
    ensures
        records_view(r.0@) == spec_section(
            lines_view(tl@),
            start as int,
            SectionKind::Transformer,
        ),
        r.1 as int == spec_section_end(lines_view(tl@), start as int, SectionKind::Transformer),
        start <= tl@.len() ==> r.1 <= tl@.len(),
{
    parse_section(tl, start, SectionKind::Transformer)
}

/// Continuation lines, tokenised.
pub open spec fn spec_tokenize_all(lines: Seq<Seq<char>>) -> Seq<Seq<Seq<char>>> {
    lines.map_values(|l: Seq<char>| spec_tokenize(l))
}

fn tokenize_all(lines: &Vec<Vec<char>>) -> (r: Vec<Vec<Vec<char>>>)
    ensures
        conts_view(r@) == spec_tokenize_all(lines_view(lines@)),
{
    let r = tokenize_lines(lines, 0, lines.len());
    assert(lines_view(lines@).subrange(0, lines@.len() as int) =~= lines_view(lines@));
    r
}

/// Reads one `bus data` line.
pub fn parse_one_bus_line(line: &Vec<char>) -> (r: Option<BusRecord>)
    ensures
        match r {
            Some(b) => spec_bus_of(spec_tokenize(line@)) == Some(b@),
            None => spec_bus_of(spec_tokenize(line@)) is None,
        },
{
    let t = tokenize_pslf_line(line);
    parse_bus_record(&t)
}

/// Reads one `load data` line.
pub fn parse_one_load_line(line: &Vec<char>) -> (r: Option<LoadRecord>)
    ensures
        match r {
            Some(l) => spec_load_of(spec_tokenize(line@)) == Some(l@),
            None => spec_load_of(spec_tokenize(line@)) is None,
        },
{
    let t = tokenize_pslf_line(line);
    parse_load_record(&t)
}

/// Reads one `generator data` record: its primary line and its continuation lines.
pub fn parse_one_generator_line(line: &Vec<char>, continuation: &Vec<Vec<char>>) -> (r: Option<
    GeneratorRecord,
>)
    ensures
        match r {
            Some(g) => spec_generator_of(
                spec_tokenize(line@),
                spec_tokenize_all(lines_view(continuation@)),
            ) == Some(g@),
            None => spec_generator_of(
                spec_tokenize(line@),
                spec_tokenize_all(lines_view(continuation@)),
            ) is None,
        },
{
    let t = tokenize_pslf_line(line);
    let c = tokenize_all(continuation);
    parse_generator_record(&t, &c)
}

/// Reads one `branch data` line.
pub fn parse_one_branch_line(line: &Vec<char>) -> (r: Option<BranchRecord>)
    ensures
        match r {
            Some(b) => spec_branch_of(spec_tokenize(line@)) == Some(b@),
            None => spec_branch_of(spec_tokenize(line@)) is None,
        },
{
    let t = tokenize_pslf_line(line);
    parse_branch_record(&t)
}

/// Reads one `transformer data` record: its primary line and its continuation lines.
pub fn parse_one_transformer_line(line: &Vec<char>, continuation: &Vec<Vec<char>>) -> (r: Option<
    TransformerRecord,
>)
    ensures
        match r {
            Some(x) => spec_transformer_of(
                spec_tokenize(line@),
                spec_tokenize_all(lines_view(continuation@)),
            ) == Some(x@),
            None => spec_transformer_of(
                spec_tokenize(line@),
                spec_tokenize_all(lines_view(continuation@)),
            ) is None,
        },
{
    let t = tokenize_pslf_line(line);
    let c = tokenize_all(continuation);
    parse_transformer_record(&t, &c)
}

/// Index of the line that ends a section read line by line from `j`.
pub fn skip_section(tl: &Vec<Vec<char>>, j: usize) -> (r: usize)
    ensures
        r as int == spec_skip_end(lines_view(tl@), j as int),
        j <= tl@.len() ==> r <= tl@.len(),
{
    let ghost lv = lines_view(tl@);
    if j >= tl.len() {
        return j;
    }
    let mut k = j;
    while k < tl.len() && !ends_section(&tl[k])
        invariant
            j <= k <= tl@.len(),
            lv == lines_view(tl@),
            spec_skip_end(lv, k as int) == spec_skip_end(lv, j as int),
        decreases tl@.len() - k,
    {
        k = k + 1;
    }
    k
}

// ---------------------------------------------------------------------------
// Whitespace-separated words (`str::split_whitespace`)
// ---------------------------------------------------------------------------

pub open spec fn spec_words_step(st: (Seq<Seq<char>>, Seq<char>), c: char) -> (
    Seq<Seq<char>>,
    Seq<char>,
) {
    if spec_is_whitespace(c) {
        (
            if st.1.len() > 0 {
                st.0.push(st.1)
            } else {
                st.0
            },
            Seq::empty(),
        )
    } else {
        (st.0, st.1.push(c))
    }
}

pub open spec fn spec_words_run(s: Seq<char>) -> (Seq<Seq<char>>, Seq<char>)
    decreases s.len(),
{
    if s.len() == 0 {
        (Seq::empty(), Seq::empty())
    } else {
        spec_words_step(spec_words_run(s.drop_last()), s.last())
    }
}

/// The maximal runs of non-whitespace characters of `s`, in order.
pub open spec fn spec_split_whitespace(s: Seq<char>) -> Seq<Seq<char>> {
    let st = spec_words_run(s);
    if st.1.len() > 0 {
        st.0.push(st.1)
    } else {
        st.0
    }
}

/// `str::split_whitespace` on a character vector.
pub fn split_whitespace(s: &Vec<char>) -> (r: Vec<Vec<char>>)
    ensures
        tokens_view(r@) == spec_split_whitespace(s@),
{
    let mut words: Vec<Vec<char>> = Vec::new();
    let mut cur: Vec<char> = Vec::new();
    let mut i: usize = 0;
    assert(s@.subrange(0, 0) =~= Seq::<char>::empty());
    assert(tokens_view(words@) =~= Seq::<Seq<char>>::empty());
    while i < s.len()
        invariant
            i <= s.len(),
            (tokens_view(words@), cur@) == spec_words_run(s@.subrange(0, i as int)),
        decreases s.len() - i,
    {
        let c = s[i];
        assert(s@.subrange(0, i + 1).drop_last() =~= s@.subrange(0, i as int));
        assert(s@.subrange(0, i + 1).last() == c);
        if is_whitespace(c) {
            if cur.len() > 0 {
                let ghost before = tokens_view(words@);
                words.push(cur);
                assert(tokens_view(words@) =~= before.push(
                    spec_words_run(s@.subrange(0, i as int)).1,
                ));
            }
            cur = Vec::new();
        } else {
            cur.push(c);
        }
        i = i + 1;
    }
    assert(s@.subrange(0, s@.len() as int) =~= s@);
    if cur.len() > 0 {
        let ghost before = tokens_view(words@);
        let ghost last = cur@;
        words.push(cur);
        assert(tokens_view(words@) =~= before.push(last));
    }
    words
}

// ---------------------------------------------------------------------------
// Solution parameters and title
// ---------------------------------------------------------------------------

/// The system MVA base that an `sbase` line states: its second word, when that
/// is a floating-point literal.
pub open spec fn spec_sbase_of_line(l: Seq<char>) -> Option<Seq<char>> {
    let parts = spec_split_whitespace(l);
    if spec_starts_with(spec_lower(l), "sbase"@) && parts.len() >= 2 && spec_is_float_literal(
        parts[1],
    ) {
        Some(parts[1])
    } else {
        None
    }
}

/// The last MVA base stated in the `solution parameters` section that starts at `j`.
pub open spec fn spec_param_sbase(tl: Seq<Seq<char>>, j: int) -> Option<Seq<char>>
    decreases tl.len() - j,
{
    if j < 0 || j >= tl.len() || spec_ends_section(tl[j]) {
        None
    } else {
        match spec_param_sbase(tl, j + 1) {
            Some(later) => Some(later),
            None => spec_sbase_of_line(tl[j]),
        }
    }
}

fn sbase_of_line(l: &Vec<char>) -> (r: Option<Vec<char>>)
    ensures
        match r {
            Some(v) => spec_sbase_of_line(l@) == Some(v@),
            None => spec_sbase_of_line(l@) is None,
        },
{
    let low = lower_chars(l);
    if !starts_with_str(&low, "sbase") {
        return None;
    }
    let parts = split_whitespace(l);
    if parts.len() >= 2 && is_float_literal(&parts[1]) {
        Some(parts[1].clone())
    } else {
        None
    }
}

/// `a` when it is present, else `b`.
pub open spec fn spec_later_or(a: Option<Seq<char>>, b: Option<Seq<char>>) -> Option<Seq<char>> {
    if a is Some {
        a
    } else {
        b
    }
}

pub open spec fn opt_chars(o: Option<Vec<char>>) -> Option<Seq<char>> {
    match o {
        Some(v) => Some(v@),
        None => None,
    }
}

/// Reads a `solution parameters` section from its first line `j`: the last stated
/// MVA base, and the index of the line that ends the section.
fn param_section(tl: &Vec<Vec<char>>, j: usize) -> (r: (Option<Vec<char>>, usize))
    requires
        j <= tl@.len(),
    ensures
        opt_chars(r.0) == spec_param_sbase(lines_view(tl@), j as int),
        r.1 as int == spec_skip_end(lines_view(tl@), j as int),
        r.1 <= tl@.len(),
{
    let ghost lv = lines_view(tl@);
    let mut last: Option<Vec<char>> = None;
    let mut k = j;
    while k < tl.len() && !ends_section(&tl[k])
        invariant
            j <= k <= tl@.len(),
            lv == lines_view(tl@),
            spec_param_sbase(lv, j as int) == spec_later_or(
                spec_param_sbase(lv, k as int),
                opt_chars(last),
            ),
            spec_skip_end(lv, k as int) == spec_skip_end(lv, j as int),
        decreases tl@.len() - k,
    {
        let found = sbase_of_line(&tl[k]);
        match found {
            Some(v) => {
                last = Some(v);
            },
            None => {},
        }
        k = k + 1;
    }
    (last, k)
}

// ---------------------------------------------------------------------------
// The whole case
// ---------------------------------------------------------------------------

/// A line that can hold the case title: not empty, not a comment, not a header.
pub open spec fn spec_title_line(l: Seq<char>) -> bool {
    l.len() > 0 && l[0] != '!' && !spec_is_section_header(l)
}

/// The first line from `j` on that can hold the title.
pub open spec fn spec_title_pos(tl: Seq<Seq<char>>, j: int) -> Option<int>
    decreases tl.len() - j,
{
    if j < 0 || j >= tl.len() {
        None
    } else if spec_title_line(tl[j]) {
        Some(j)
    } else {
        spec_title_pos(tl, j + 1)
    }
}

pub proof fn lemma_title_pos_bounds(tl: Seq<Seq<char>>, j: int)
    requires
        0 <= j,
    ensures
        spec_title_pos(tl, j) matches Some(k) ==> j <= k < tl.len(),
    decreases tl.len() - j,
{
    if j < tl.len() && !spec_title_line(tl[j]) {
        lemma_title_pos_bounds(tl, j + 1);
    }
}

/// What a case file states: its title, its MVA base and its data records.
pub struct CaseView {
    pub title: Option<Seq<char>>,
    pub sbase: Option<Seq<char>>,
    pub records: Seq<RecordView>,
}

pub open spec fn spec_case_empty() -> CaseView {
    CaseView { title: None, sbase: None, records: Seq::empty() }
}

/// What `a` states followed by what `b` states: a later title or base replaces an
/// earlier one, records accumulate in file order.
pub open spec fn spec_case_then(a: CaseView, b: CaseView) -> CaseView {
    CaseView {
        title: spec_later_or(b.title, a.title),
        sbase: spec_later_or(b.sbase, a.sbase),
        records: a.records + b.records,
    }
}

pub open spec fn spec_records_only(r: Seq<RecordView>) -> CaseView {
    CaseView { title: None, sbase: None, records: r }
}

/// What the trimmed lines of a case state from line `i` on.
pub open spec fn spec_case_from(tl: Seq<Seq<char>>, i: int) -> CaseView
    decreases tl.len() - i,
{
    if i < 0 || i >= tl.len() {
        spec_case_empty()
    } else {
        let l = tl[i];
        let low = spec_lower(l);
        proof {
            lemma_section_ends_ge(tl, i + 1);
            lemma_skip_end_ge(tl, i + 1);
            lemma_title_pos_bounds(tl, i + 1);
        }
        if l.len() == 0 || l[0] == '!' {
            spec_case_from(tl, i + 1)
        } else if spec_starts_with(low, "title"@) {
            match spec_title_pos(tl, i + 1) {
                Some(k) => spec_case_then(
                    CaseView { title: Some(tl[k]), sbase: None, records: Seq::empty() },
                    spec_case_from(tl, k + 1),
                ),
                None => spec_case_empty(),
            }
        } else if spec_starts_with(low, "solution parameters"@) {
            spec_case_then(
                CaseView { title: None, sbase: spec_param_sbase(tl, i + 1), records: Seq::empty() },
                spec_case_from(tl, spec_skip_end(tl, i + 1)),
            )
        } else if spec_starts_with(low, "substation data"@) {
            spec_case_from(tl, spec_skip_end(tl, i + 1))
        } else if spec_starts_with(low, "bus data"@) {
            spec_case_then(
                spec_records_only(spec_section(tl, i + 1, SectionKind::Bus)),
                spec_case_from(tl, spec_section_end(tl, i + 1, SectionKind::Bus)),
            )
        } else if spec_starts_with(low, "load data"@) {
            spec_case_then(
                spec_records_only(spec_section(tl, i + 1, SectionKind::Load)),
                spec_case_from(tl, spec_section_end(tl, i + 1, SectionKind::Load)),
            )
        } else if spec_starts_with(low, "generator data"@) {
            spec_case_then(
                spec_records_only(spec_section(tl, i + 1, SectionKind::Generator)),
                spec_case_from(tl, spec_section_end(tl, i + 1, SectionKind::Generator)),
            )
        } else if spec_starts_with(low, "branch data"@) {
            spec_case_then(
                spec_records_only(spec_section(tl, i + 1, SectionKind::Branch)),
                spec_case_from(tl, spec_section_end(tl, i + 1, SectionKind::Branch)),
            )
        } else if spec_starts_with(low, "transformer data"@) {
            spec_case_then(
                spec_records_only(spec_section(tl, i + 1, SectionKind::Transformer)),
                spec_case_from(tl, spec_section_end(tl, i + 1, SectionKind::Transformer)),
            )
        } else if spec_starts_with(low, "svd data"@) {
            spec_case_then(
                spec_records_only(spec_section(tl, i + 1, SectionKind::SwitchedShunt)),
                spec_case_from(tl, spec_section_end(tl, i + 1, SectionKind::SwitchedShunt)),
            )
        } else if spec_starts_with(low, "area data"@) {
            spec_case_then(
                spec_records_only(spec_section(tl, i + 1, SectionKind::Area)),
                spec_case_from(tl, spec_section_end(tl, i + 1, SectionKind::Area)),
            )
        } else if spec_starts_with(low, "zone data"@) {
            spec_case_then(
                spec_records_only(spec_section(tl, i + 1, SectionKind::Zone)),
                spec_case_from(tl, spec_section_end(tl, i + 1, SectionKind::Zone)),
            )
        } else if spec_starts_with(low, "owner data"@) {
            spec_case_then(
                spec_records_only(spec_section(tl, i + 1, SectionKind::Owner)),
                spec_case_from(tl, spec_section_end(tl, i + 1, SectionKind::Owner)),
            )
        } else {
            spec_case_from(tl, i + 1)
        }
    }
}

/// The lines of a file, each trimmed.
pub open spec fn spec_trimmed_lines(lines: Seq<String>) -> Seq<Seq<char>> {
    lines.map_values(|l: String| spec_trim(l@))
}

/// What the lines of a case file state.
pub open spec fn spec_epc(lines: Seq<String>) -> CaseView {
    spec_case_from(spec_trimmed_lines(lines), 0)
}

proof fn lemma_case_then_assoc(a: CaseView, b: CaseView, c: CaseView)
    ensures
        spec_case_then(spec_case_then(a, b), c) == spec_case_then(a, spec_case_then(b, c)),
{
    assert(a.records + b.records + c.records =~= a.records + (b.records + c.records));
}

proof fn lemma_case_then_empty(a: CaseView)
    ensures
        spec_case_then(a, spec_case_empty()) == a,
{
    assert(a.records + Seq::<RecordView>::empty() =~= a.records);
}

/// A parsed EPC case: the title, the stated MVA base (as its literal text) and
/// the data records in file order.
pub struct EpcCase {
    pub title: String,
    pub sbase: Option<String>,
    pub records: Vec<Record>,
}

fn opt_chars_to_string(o: &Option<Vec<char>>) -> (r: Option<String>)
    ensures
        crate::fields::opt_text(r) == opt_chars(*o),
{
    match o {
        Some(v) => Some(chars_to_string(v)),
        None => None,
    }
}

/// Trims each line.
fn trimmed_lines(lines: &Vec<String>) -> (r: Vec<Vec<char>>)
    ensures
        lines_view(r@) == spec_trimmed_lines(lines@),
{
    let mut r: Vec<Vec<char>> = Vec::new();
    let mut k: usize = 0;
    while k < lines.len()
        invariant
            k <= lines.len(),
            lines_view(r@) == spec_trimmed_lines(lines@.subrange(0, k as int)),
        decreases lines.len() - k,
    {
        let chars = str_chars(lines[k].as_str());
        let t = trim_chars(&chars);
        let ghost before = lines_view(r@);
        let ghost old_len = r@.len();
        assert(before.len() == old_len);
        r.push(t);
        proof {
            let target = spec_trimmed_lines(lines@.subrange(0, k + 1));
            let prev = spec_trimmed_lines(lines@.subrange(0, k as int));
            assert(before == prev);
            assert(prev.len() == k);
            assert(lines_view(r@).len() == r@.len());
            assert(r@.len() == before.len() + 1);
            assert(target.len() == lines_view(r@).len());
            assert forall|m: int| 0 <= m < target.len() implies target[m] == lines_view(r@)[m] by {
                if m < k {
                    assert(target[m] == prev[m]);
                    assert(lines_view(r@)[m] == before[m]);
                }
            }
            assert(target =~= lines_view(r@));
        }
        k = k + 1;
    }
    assert(lines@.subrange(0, lines@.len() as int) =~= lines@);
    r
}

/// Parses the lines of a GE PSLF `.epc` file.
pub fn parse_epc(lines: &Vec<String>) -> (c: EpcCase)
    ensures
        c.title@ == (match spec_epc(lines@).title {
            Some(t) => t,
            None => Seq::<char>::empty(),
        }),
        crate::fields::opt_text(c.sbase) == spec_epc(lines@).sbase,
        records_view(c.records@) == spec_epc(lines@).records,
{
    let tl = trimmed_lines(lines);
    let ghost lv = lines_view(tl@);
    let mut title: Option<Vec<char>> = None;
    let mut sbase: Option<Vec<char>> = None;
    let mut records: Vec<Record> = Vec::new();
    let mut i: usize = 0;
    proof {
        lemma_case_then_empty(spec_case_from(lv, 0));
        assert(spec_case_then(
            CaseView { title: None, sbase: None, records: Seq::empty() },
            spec_case_from(lv, 0),
        ) =~= spec_case_from(lv, 0));
    }
    while i < tl.len()
        invariant
            i <= tl@.len(),
            lv == lines_view(tl@),
            spec_case_then(
                CaseView {
                    title: opt_chars(title),
                    sbase: opt_chars(sbase),
                    records: records_view(records@),
                },
                spec_case_from(lv, i as int),
            ) == spec_case_from(lv, 0),
        decreases tl@.len() - i,
    {
        let ghost acc = CaseView {
            title: opt_chars(title),
            sbase: opt_chars(sbase),
            records: records_view(records@),
        };
        let line = &tl[i];
        proof {
            lemma_section_ends_ge(lv, i + 1);
            lemma_skip_end_ge(lv, i + 1);
            lemma_title_pos_bounds(lv, i + 1);
        }
        if line.len() == 0 || line[0] == '!' {
            i = i + 1;
            continue;
        }
        let low = lower_chars(line);
        if starts_with_str(&low, "title") {
            let mut k = i + 1;
            while k < tl.len() && !(tl[k].len() > 0 && tl[k][0] != '!' && !is_known_section_header(
                &tl[k],
            ))
                invariant
                    i + 1 <= k <= tl@.len(),
                    lv == lines_view(tl@),
                    spec_title_pos(lv, k as int) == spec_title_pos(lv, i + 1),
                decreases tl@.len() - k,
            {
                k = k + 1;
            }
            if k < tl.len() {
                let ghost part = CaseView {
                    title: Some(lv[k as int]),
                    sbase: None,
                    records: Seq::empty(),
                };
                proof {
                    lemma_case_then_assoc(acc, part, spec_case_from(lv, k + 1));
                }
                title = Some(tl[k].clone());
                proof {
                    assert(spec_case_then(acc, part) =~= CaseView {
                        title: opt_chars(title),
                        sbase: opt_chars(sbase),
                        records: records_view(records@),
                    });
                }
                i = k + 1;
            } else {
                proof {
                    lemma_case_then_empty(acc);
                    lemma_case_then_empty(spec_case_empty());
                }
                i = tl.len();
                proof {
                    assert(spec_case_from(lv, i as int) == spec_case_empty());
                }
            }
            continue;
        }
        if starts_with_str(&low, "solution parameters") {
            let (found, end) = param_section(&tl, i + 1);
            let ghost part = CaseView {
                title: None,
                sbase: spec_param_sbase(lv, i + 1),
                records: Seq::empty(),
            };
            proof {
                lemma_case_then_assoc(acc, part, spec_case_from(lv, end as int));
            }
            match found {
                Some(v) => {
                    sbase = Some(v);
                },
                None => {},
            }
            proof {
                assert(spec_case_then(acc, part) =~= CaseView {
                    title: opt_chars(title),
                    sbase: opt_chars(sbase),
                    records: records_view(records@),
                });
            }
            i = end;
            continue;
        }
        if starts_with_str(&low, "substation data") {
            i = skip_section(&tl, i + 1);
            continue;
        }
        let kind = if starts_with_str(&low, "bus data") {
            Some(SectionKind::Bus)
        } else if starts_with_str(&low, "load data") {
            Some(SectionKind::Load)
        } else if starts_with_str(&low, "generator data") {
            Some(SectionKind::Generator)
        } else if starts_with_str(&low, "branch data") {
            Some(SectionKind::Branch)
        } else if starts_with_str(&low, "transformer data") {
            Some(SectionKind::Transformer)
        } else if starts_with_str(&low, "svd data") {
            Some(SectionKind::SwitchedShunt)
        } else if starts_with_str(&low, "area data") {
            Some(SectionKind::Area)
        } else if starts_with_str(&low, "zone data") {
            Some(SectionKind::Zone)
        } else if starts_with_str(&low, "owner data") {
            Some(SectionKind::Owner)
        } else {
            None
        };
        match kind {
            Some(kd) => {
                let (mut recs, end) = match kd {
                    SectionKind::Bus => parse_bus_data(&tl, i + 1),
                    SectionKind::Load => parse_load_data(&tl, i + 1),
                    SectionKind::Generator => parse_generator_data(&tl, i + 1),
                    SectionKind::Branch => parse_branch_data(&tl, i + 1),
                    SectionKind::Transformer => parse_transformer_data(&tl, i + 1),
                    _ => parse_section(&tl, i + 1, kd),
                };
                let ghost part = spec_records_only(spec_section(lv, i + 1, kd));
                proof {
                    lemma_case_then_assoc(acc, part, spec_case_from(lv, end as int));
                }
                let ghost before = records@;
                let ghost added = recs@;
                records.append(&mut recs);
                proof {
                    assert(records@ == before + added);
                    assert(records_view(records@) =~= records_view(before) + records_view(added));
                    assert(spec_case_then(acc, part) =~= CaseView {
                        title: opt_chars(title),
                        sbase: opt_chars(sbase),
                        records: records_view(records@),
                    });
                }
                i = end;
            },
            None => {
                i = i + 1;
            },
        }
    }
    proof {
        lemma_case_then_empty(CaseView {
            title: opt_chars(title),
            sbase: opt_chars(sbase),
            records: records_view(records@),
        });
    }
    let title_text = match title {
        Some(t) => chars_to_string(&t),
        None => String::new(),
    };
    EpcCase { title: title_text, sbase: opt_chars_to_string(&sbase), records }
}


/// Whether `h` is one of the words that open a section of an EPC file.
pub open spec fn spec_header_word(h: Seq<char>) -> bool {
            ||| h == "title"@
            ||| h == "comments"@
            ||| h == "solution parameters"@
            ||| h == "substation data"@
            ||| h == "bus data"@
            ||| h == "load data"@
            ||| h == "generator data"@
            ||| h == "branch data"@
            ||| h == "transformer data"@
            ||| h == "area data"@
            ||| h == "zone data"@
            ||| h == "owner data"@
            ||| h == "shunt data"@
            ||| h == "svd data"@
            ||| h == "switched shunt"@
            ||| h == "interface data"@
            ||| h == "interface branch data"@
            ||| h == "dc bus data"@
            ||| h == "dc converter data"@
            ||| h == "z table data"@
            ||| h == "gcd data"@
            ||| h == "transaction data"@
            ||| h == "qtable data"@
            ||| h == "ba data"@
            ||| h == "injgroup data"@
            ||| h == "injgrpelem data"@
            ||| h == "dc "@
            ||| h == "end"@
}

/// A line whose lower-case form starts with a section word (`load data`, `shunt
/// data`, `end`, ...) ends whatever record section it follows: a record section
/// that reaches it holds no record from it on, and stops there.
pub proof fn law_headers_end_sections(tl: Seq<Seq<char>>, j: int, kind: SectionKind, h: Seq<char>)
    requires
        0 <= j < tl.len(),
        spec_header_word(h),
        spec_starts_with(spec_lower(tl[j]), h),
    ensures
        spec_section(tl, j, kind) == Seq::<RecordView>::empty(),
        spec_section_end(tl, j, kind) == j,
        spec_skip_end(tl, j) == j,
{
}

/// A record section keeps the records of its lines up to the first header: a
/// header line `k` cuts the section there, whatever follows it.
pub proof fn law_section_stops_at_header(
    tl: Seq<Seq<char>>,
    j: int,
    kind: SectionKind,
    h: Seq<char>,
    rest: Seq<Seq<char>>,
)
    requires
        0 <= j < tl.len(),
        spec_header_word(h),
        spec_starts_with(spec_lower(tl[tl.len() - 1]), h),
    ensures
        spec_section(tl + rest, j, kind) == spec_section(tl, j, kind),
        spec_section_end(tl + rest, j, kind) == spec_section_end(tl, j, kind),
    decreases tl.len() - j,
{
    let all = tl + rest;
    assert(all[tl.len() - 1] == tl[tl.len() - 1]);
    if j == tl.len() - 1 {
        law_headers_end_sections(tl, j, kind, h);
        law_headers_end_sections(all, j, kind, h);
    } else {
        assert(all[j] == tl[j]);
        if !spec_ends_section(tl[j]) {
            assert(all[j + 1] == tl[j + 1]);
            lemma_record_end_bounds(tl, j, kind);
            lemma_record_end_prefix(tl, rest, j, kind);
            let e = spec_record_end(tl, j, kind);
            assert(e < tl.len() - 1) by {
                lemma_record_end_before_header(tl, j, kind, h);
            }
            assert(spec_conts(all, j, e) =~= spec_conts(tl, j, e)) by {
                assert(all.subrange(j + 1, e + 1) =~= tl.subrange(j + 1, e + 1));
            }
            law_section_stops_at_header(tl, e + 1, kind, h, rest);
        }
    }
}

proof fn lemma_chain_end_prefix(tl: Seq<Seq<char>>, rest: Seq<Seq<char>>, j: int, h: Seq<char>)
    requires
        0 <= j < tl.len() - 1,
        spec_header_word(h),
        spec_starts_with(spec_lower(tl[tl.len() - 1]), h),
    ensures
        spec_chain_end(tl + rest, j) == spec_chain_end(tl, j),
        spec_chain_end(tl, j) < tl.len() - 1,
    decreases tl.len() - j,
{
    let all = tl + rest;
    assert(all[j] == tl[j]);
    assert(all[j + 1] == tl[j + 1]);
    if j + 1 < tl.len() - 1 {
        lemma_chain_end_prefix(tl, rest, j + 1, h);
    } else {
        law_headers_end_sections(tl, j + 1, SectionKind::Bus, h);
    }
}

proof fn lemma_record_end_prefix(tl: Seq<Seq<char>>, rest: Seq<Seq<char>>, j: int, kind: SectionKind)
    requires
        0 <= j < tl.len() - 1,
        exists|h: Seq<char>| spec_header_word(h) && spec_starts_with(spec_lower(tl[tl.len() - 1]), h),
    ensures
        spec_record_end(tl + rest, j, kind) == spec_record_end(tl, j, kind),
{
    let h = choose|h: Seq<char>| spec_header_word(h) && spec_starts_with(spec_lower(tl[tl.len() - 1]), h);
    let all = tl + rest;
    assert(all[j] == tl[j]);
    assert(all[j + 1] == tl[j + 1]);
    lemma_chain_end_prefix(tl, rest, j, h);
}

proof fn lemma_record_end_before_header(tl: Seq<Seq<char>>, j: int, kind: SectionKind, h: Seq<char>)
    requires
        0 <= j < tl.len() - 1,
        spec_header_word(h),
        spec_starts_with(spec_lower(tl[tl.len() - 1]), h),
    ensures
        spec_record_end(tl, j, kind) < tl.len() - 1,
{
    lemma_chain_end_prefix(tl, Seq::empty(), j, h);
    law_headers_end_sections(tl, tl.len() - 1, kind, h);
}


/// An empty line or a comment line (`!`) ends a record section too.
pub proof fn law_blank_and_comment_lines_end_sections(tl: Seq<Seq<char>>, j: int, kind: SectionKind)
    requires
        0 <= j < tl.len(),
        tl[j].len() == 0 || tl[j][0] == '!',
    ensures
        spec_section(tl, j, kind) == Seq::<RecordView>::empty(),
        spec_section_end(tl, j, kind) == j,
{
}

/// Outside transformer sections, a record line ending in `/` takes exactly the
/// next line as its continuation: the line after that starts the next record,
/// even when the continuation line itself ends in `/`.
pub proof fn law_continuation_skips_one_line(tl: Seq<Seq<char>>, j: int, kind: SectionKind)
    requires
        0 <= j,
        j + 1 < tl.len(),
        kind != SectionKind::Transformer,
        !spec_ends_section(tl[j]),
        !spec_ends_section(tl[j + 1]),
        spec_line_has_continuation(tl[j]),
    ensures
        spec_section(tl, j, kind) == (match spec_record_of(
            kind,
            spec_tokenize(tl[j]),
            seq![spec_tokenize(tl[j + 1])],
        ) {
            Some(r) => seq![r] + spec_section(tl, j + 2, kind),
            None => spec_section(tl, j + 2, kind),
        }),
        spec_section_end(tl, j, kind) == spec_section_end(tl, j + 2, kind),
{
    assert(spec_conts(tl, j, j + 1) =~= seq![spec_tokenize(tl[j + 1])]);
}

/// A record line that does not end in `/` is a record by itself: the next line
/// starts the next record.
pub proof fn law_lines_without_continuation_stand_alone(tl: Seq<Seq<char>>, j: int, kind: SectionKind)
    requires
        0 <= j < tl.len(),
        !spec_ends_section(tl[j]),
        !spec_line_has_continuation(tl[j]),
    ensures
        spec_section(tl, j, kind) == (match spec_record_of(
            kind,
            spec_tokenize(tl[j]),
            Seq::empty(),
        ) {
            Some(r) => seq![r] + spec_section(tl, j + 1, kind),
            None => spec_section(tl, j + 1, kind),
        }),
{
    assert(spec_conts(tl, j, j) =~= Seq::<Seq<Seq<char>>>::empty());
}

} // verus!
