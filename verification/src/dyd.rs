//! GE PSLF `.dyd` dynamic model records and the generators they describe.

use vstd::prelude::*;
use crate::epc::{spec_split_whitespace, split_whitespace};
use crate::fields::{
    opt_text, spec_tok_num, spec_tok_text, spec_tok_u32, tok_num, tok_text, tok_u32,
};
use crate::num::{is_float_literal, spec_is_float_literal};
use crate::text::{
    chars_to_string, contains_str, lower_chars, spec_contains, spec_lower, spec_starts_with,
    spec_trim, spec_upper, starts_with_str, str_chars, trim_chars, upper_chars,
};
use crate::tokenize::{spec_tokenize, tokenize_pslf_line, tokens_view};

verus! {

/// One dynamic model record: `model bus "name" kv id ... : params...`.
pub struct DydModelRecord {
    pub model_type: String,
    pub bus: u32,
    pub name: String,
    pub kv: Option<String>,
    pub id: String,
    /// The floating-point literal words after the first `:`, in order.
    pub params: Vec<String>,
    /// The record line as read (trimmed).
    pub raw_line: String,
}

/// A generating unit named by a dynamic model.
pub struct DydGeneratorRecord {
    pub bus_id: u32,
    pub id: String,
    /// The first model parameter, when there is one.
    pub mva: Option<String>,
    pub model_family: String,
    pub is_ibr: bool,
}

pub struct DydModelView {
    pub model_type: Seq<char>,
    pub bus: u32,
    pub name: Seq<char>,
    pub kv: Option<Seq<char>>,
    pub id: Seq<char>,
    pub params: Seq<Seq<char>>,
    pub raw_line: Seq<char>,
}

pub struct DydGeneratorView {
    pub bus_id: u32,
    pub id: Seq<char>,
    pub mva: Option<Seq<char>>,
    pub model_family: Seq<char>,
    pub is_ibr: bool,
}

pub open spec fn strings_view(v: Seq<String>) -> Seq<Seq<char>> {
    v.map_values(|s: String| s@)
}

impl View for DydModelRecord {
    type V = DydModelView;

    open spec fn view(&self) -> DydModelView {
        DydModelView {
            model_type: self.model_type@,
            bus: self.bus,
            name: self.name@,
            kv: opt_text(self.kv),
            id: self.id@,
            params: strings_view(self.params@),
            raw_line: self.raw_line@,
        }
    }
}

impl View for DydGeneratorRecord {
    type V = DydGeneratorView;

    open spec fn view(&self) -> DydGeneratorView {
        DydGeneratorView {
            bus_id: self.bus_id,
            id: self.id@,
            mva: opt_text(self.mva),
            model_family: self.model_family@,
            is_ibr: self.is_ibr,
        }
    }
}

pub open spec fn models_view(v: Seq<DydModelRecord>) -> Seq<DydModelView> {
    v.map_values(|m: DydModelRecord| m@)
}

pub open spec fn dyd_generators_view(v: Seq<DydGeneratorRecord>) -> Seq<DydGeneratorView> {
    v.map_values(|g: DydGeneratorRecord| g@)
}

/// A line that starts a dynamic model record (letter case ignored).
pub open spec fn spec_is_model_start(l: Seq<char>) -> bool {
    let low = spec_lower(l);
    ||| spec_starts_with(low, "genrou"@)
    ||| spec_starts_with(low, "repc_a"@)
    ||| spec_starts_with(low, "esst"@)
    ||| spec_starts_with(low, "ggov"@)
    ||| spec_starts_with(low, "ieeest"@)
    ||| spec_starts_with(low, "lodrep"@)
    ||| spec_starts_with(low, "netting"@)
}

/// Index of the first `:` character of `l`.
pub open spec fn spec_first_colon(l: Seq<char>) -> Option<int> {
    if exists|k: int| 0 <= k < l.len() && l[k] == ':' {
        Some(
            choose|k: int|
                0 <= k < l.len() && l[k] == ':' && forall|j: int| 0 <= j < k ==> l[j] != ':',
        )
    } else {
        None
    }
}

/// The floating-point literal words after the first `:` of `l`.
pub open spec fn spec_model_params(l: Seq<char>) -> Seq<Seq<char>> {
    match spec_first_colon(l) {
        Some(c) => spec_split_whitespace(l.subrange(c + 1, l.len() as int)).filter(
            |w: Seq<char>| spec_is_float_literal(w),
        ),
        None => Seq::empty(),
    }
}

/// The model record that the trimmed line `l` starts, if it starts one with at
/// least five tokens.
pub open spec fn spec_model_of(l: Seq<char>) -> Option<DydModelView> {
    let t = spec_tokenize(l);
    if spec_is_model_start(l) && t.len() >= 5 {
        Some(
            DydModelView {
                model_type: t[0],
                bus: spec_tok_u32(t, 1, 0),
                name: spec_tok_text(t, 2, ""@),
                kv: spec_tok_num(t, 3),
                id: spec_tok_text(t, 4, "1"@),
                params: spec_model_params(l),
                raw_line: l,
            },
        )
    } else {
        None
    }
}

/// The model records of a `.dyd` file, in file order.
pub open spec fn spec_dyd_models(lines: Seq<String>) -> Seq<DydModelView> {
    lines.map_values(|l: String| spec_trim(l@)).filter_map(|l: Seq<char>| spec_model_of(l))
}

fn first_colon(l: &Vec<char>) -> (r: Option<usize>)
    ensures
        match r {
            Some(k) => spec_first_colon(l@) == Some(k as int) && k < l@.len(),
            None => spec_first_colon(l@) is None,
        },
{
    let mut k: usize = 0;
    while k < l.len()
        invariant
            k <= l.len(),
            forall|j: int| 0 <= j < k ==> l@[j] != ':',
        decreases l.len() - k,
    {
        if l[k] == ':' {
            proof {
                let c = choose|m: int|
                    0 <= m < l@.len() && l@[m] == ':' && forall|j: int|
                        0 <= j < m ==> l@[j] != ':';
                if c < k {
                    assert(l@[c] != ':');
                } else if c > k {
                    assert(l@[k as int] != ':');
                }
            }
            return Some(k);
        }
        k = k + 1;
    }
    None
}

fn model_params(l: &Vec<char>) -> (r: Vec<String>)
    ensures
        strings_view(r@) == spec_model_params(l@),
{
    let n = l.len();
    match first_colon(l) {
        Some(c) => {
            assert(c < n);
            let mut after: Vec<char> = Vec::new();
            let mut k = c + 1;
            while k < l.len()
                invariant
                    c < l@.len(),
                    c + 1 <= k <= l@.len(),
                    after@ =~= l@.subrange(c + 1, k as int),
                decreases l.len() - k,
            {
                after.push(l[k]);
                k = k + 1;
            }
            let words = split_whitespace(&after);
            let mut r: Vec<String> = Vec::new();
            let mut i: usize = 0;
            while i < words.len()
                invariant
                    i <= words.len(),
                    strings_view(r@) == tokens_view(words@).subrange(0, i as int).filter(
                        |w: Seq<char>| spec_is_float_literal(w),
                    ),
                decreases words.len() - i,
            {
                let ghost wv = tokens_view(words@);
                proof {
                    reveal_with_fuel(Seq::<_>::filter, 1);
                }
                assert(wv.subrange(0, i + 1).drop_last() =~= wv.subrange(0, i as int));
                assert(wv.subrange(0, i + 1).last() == words@[i as int]@);
                if is_float_literal(&words[i]) {
                    let ghost before = strings_view(r@);
                    r.push(chars_to_string(&words[i]));
                    assert(strings_view(r@) =~= before.push(words@[i as int]@));
                }
                i = i + 1;
            }
            assert(tokens_view(words@).subrange(0, words@.len() as int) =~= tokens_view(
                words@,
            ));
            r
        },
        None => Vec::new(),
    }
}

fn is_model_start(l: &Vec<char>) -> (r: bool)
    ensures
        r == spec_is_model_start(l@),
{
    let low = lower_chars(l);
    starts_with_str(&low, "genrou") || starts_with_str(&low, "repc_a") || starts_with_str(
        &low,
        "esst",
    ) || starts_with_str(&low, "ggov") || starts_with_str(&low, "ieeest") || starts_with_str(
        &low,
        "lodrep",
    ) || starts_with_str(&low, "netting")
}

/// The model record that a trimmed line starts, if any.
pub fn model_of_line(l: &Vec<char>) -> (r: Option<DydModelRecord>)
    ensures
        match r {
            Some(m) => spec_model_of(l@) == Some(m@),
            None => spec_model_of(l@) is None,
        },
{
    if !is_model_start(l) {
        return None;
    }
    let t = tokenize_pslf_line(l);
    let tlen = t.len();
    assert(tokens_view(t@).len() == tlen);
    if tlen < 5 {
        return None;
    }
    Some(
        DydModelRecord {
            model_type: chars_to_string(&t[0]),
            bus: tok_u32(&t, 1, 0),
            name: tok_text(&t, 2, ""),
            kv: tok_num(&t, 3),
            id: tok_text(&t, 4, "1"),
            params: model_params(l),
            raw_line: chars_to_string(l),
        },
    )
}

/// Parses the lines of a GE PSLF `.dyd` file into its model records.
pub fn parse_dyd(lines: &Vec<String>) -> (r: Vec<DydModelRecord>)
    ensures
        models_view(r@) == spec_dyd_models(lines@),
{
    let ghost tl = lines@.map_values(|l: String| spec_trim(l@));
    let mut r: Vec<DydModelRecord> = Vec::new();
    let mut i: usize = 0;
    while i < lines.len()
        invariant
            i <= lines.len(),
            tl == lines@.map_values(|l: String| spec_trim(l@)),
            models_view(r@) == tl.subrange(0, i as int).filter_map(
                |l: Seq<char>| spec_model_of(l),
            ),
        decreases lines.len() - i,
    {
        let chars = str_chars(lines[i].as_str());
        let t = trim_chars(&chars);
        assert(tl.subrange(0, i + 1).drop_last() =~= tl.subrange(0, i as int));
        assert(tl.subrange(0, i + 1).last() == t@);
        match model_of_line(&t) {
            Some(m) => {
                let ghost before = models_view(r@);
                r.push(m);
                assert(models_view(r@) =~= before + seq![m@]);
            },
            None => {},
        }
        i = i + 1;
    }
    assert(tl.subrange(0, lines@.len() as int) =~= tl);
    r
}

// ---------------------------------------------------------------------------
// Generators named by dynamic models
// ---------------------------------------------------------------------------

/// Whether an upper-cased model family denotes an inverter-based resource.
pub open spec fn spec_family_is_ibr(fam: Seq<char>) -> bool {
    spec_contains(fam, "REPC"@) || spec_contains(fam, "REPCA"@) || spec_contains(fam, "IBR"@)
        || spec_contains(fam, "PV"@) || spec_contains(fam, "WIND"@)
}

/// The generator that a model record describes: machine (`GENROU`, `GENSAL`) and
/// plant-controller (`REPC`) families, and inverter-based families.
pub open spec fn spec_dyd_generator_of(m: DydModelView) -> Option<DydGeneratorView> {
    let fam = spec_upper(m.model_type);
    let is_ibr = spec_family_is_ibr(fam);
    if spec_contains(fam, "GENROU"@) || spec_contains(fam, "GENSAL"@) || spec_contains(
        fam,
        "REPC"@,
    ) || is_ibr {
        Some(
            DydGeneratorView {
                bus_id: m.bus,
                id: m.id,
                mva: if m.params.len() > 0 {
                    Some(m.params[0])
                } else {
                    None
                },
                model_family: m.model_type,
                is_ibr,
            },
        )
    } else {
        None
    }
}

fn dyd_generator_of(m: &DydModelRecord) -> (r: Option<DydGeneratorRecord>)
    ensures
        match r {
            Some(g) => spec_dyd_generator_of(m@) == Some(g@),
            None => spec_dyd_generator_of(m@) is None,
        },
{
    let mt = str_chars(m.model_type.as_str());
    let fam = upper_chars(&mt);
    let is_ibr = contains_str(&fam, "REPC") || contains_str(&fam, "REPCA") || contains_str(
        &fam,
        "IBR",
    ) || contains_str(&fam, "PV") || contains_str(&fam, "WIND");
    if contains_str(&fam, "GENROU") || contains_str(&fam, "GENSAL") || contains_str(&fam, "REPC")
        || is_ibr {
        let mva = if m.params.len() > 0 {
            Some(m.params[0].clone())
        } else {
            None
        };
        Some(
            DydGeneratorRecord {
                bus_id: m.bus,
                id: m.id.clone(),
                mva,
                model_family: m.model_type.clone(),
                is_ibr,
            },
        )
    } else {
        None
    }
}

/// The generators described by the model records, in record order.
pub fn extract_dyd_generators(models: &Vec<DydModelRecord>) -> (r: Vec<DydGeneratorRecord>)
    ensures
        dyd_generators_view(r@) == models_view(models@).filter_map(
            |m: DydModelView| spec_dyd_generator_of(m),
        ),
{
    let mut r: Vec<DydGeneratorRecord> = Vec::new();
    let mut i: usize = 0;
    while i < models.len()
        invariant
            i <= models.len(),
            dyd_generators_view(r@) == models_view(models@).subrange(0, i as int).filter_map(
                |m: DydModelView| spec_dyd_generator_of(m),
            ),
        decreases models.len() - i,
    {
        let ghost mv = models_view(models@);
        assert(mv.subrange(0, i + 1).drop_last() =~= mv.subrange(0, i as int));
        assert(mv.subrange(0, i + 1).last() == models@[i as int]@);
        match dyd_generator_of(&models[i]) {
            Some(g) => {
                let ghost before = dyd_generators_view(r@);
                r.push(g);
                assert(dyd_generators_view(r@) =~= before + seq![g@]);
            },
            None => {},
        }
        i = i + 1;
    }
    assert(models_view(models@).subrange(0, models@.len() as int) =~= models_view(models@));
    r
}


/// The words that start a dynamic model record.
pub open spec fn spec_model_word(w: Seq<char>) -> bool {
    ||| w == "genrou"@
    ||| w == "repc_a"@
    ||| w == "esst"@
    ||| w == "ggov"@
    ||| w == "ieeest"@
    ||| w == "lodrep"@
    ||| w == "netting"@
}

/// A trimmed line whose lower-case form starts with a model word (`genrou`,
/// `ggov`, `esst`, ...) and that has at least five tokens is a model record: its
/// type is its first token, its bus and unit id are tokens 1 and 4, and the line
/// is kept as read.
pub proof fn law_model_lines_are_records(l: Seq<char>, w: Seq<char>)
    requires
        spec_model_word(w),
        spec_starts_with(spec_lower(l), w),
        spec_tokenize(l).len() >= 5,
    ensures
        spec_model_of(l) is Some,
        spec_model_of(l)->0.model_type == spec_tokenize(l)[0],
        spec_model_of(l)->0.bus == spec_tok_u32(spec_tokenize(l), 1, 0),
        spec_model_of(l)->0.id == spec_tokenize(l)[4],
        spec_model_of(l)->0.raw_line == l,
{
}

/// A line that starts no model word (after lower-casing) is no model record.
pub proof fn law_other_lines_are_not_records(l: Seq<char>)
    requires
        forall|w: Seq<char>| spec_model_word(w) ==> !spec_starts_with(spec_lower(l), w),
    ensures
        spec_model_of(l) is None,
{
    assert(spec_model_word("genrou"@));
    assert(!spec_starts_with(spec_lower(l), "genrou"@));
    assert(spec_model_word("repc_a"@));
    assert(!spec_starts_with(spec_lower(l), "repc_a"@));
    assert(spec_model_word("esst"@));
    assert(!spec_starts_with(spec_lower(l), "esst"@));
    assert(spec_model_word("ggov"@));
    assert(!spec_starts_with(spec_lower(l), "ggov"@));
    assert(spec_model_word("ieeest"@));
    assert(!spec_starts_with(spec_lower(l), "ieeest"@));
    assert(spec_model_word("lodrep"@));
    assert(!spec_starts_with(spec_lower(l), "lodrep"@));
    assert(spec_model_word("netting"@));
    assert(!spec_starts_with(spec_lower(l), "netting"@));
}

/// Every model line of a file gives one model record, in file order: the models
/// of the lines `a + b` are those of `a` followed by those of `b`.
pub proof fn law_models_of_concatenated_files(a: Seq<String>, b: Seq<String>)
    ensures
        spec_dyd_models(a + b) == spec_dyd_models(a) + spec_dyd_models(b),
    decreases b.len(),
{
    let f = |l: String| spec_trim(l@);
    let g = |l: Seq<char>| spec_model_of(l);
    if b.len() == 0 {
        assert(a + b =~= a);
        assert(b.map_values(f) =~= Seq::<Seq<char>>::empty());
        assert(spec_dyd_models(b) =~= Seq::<DydModelView>::empty());
    } else {
        law_models_of_concatenated_files(a, b.drop_last());
        assert((a + b).drop_last() =~= a + b.drop_last());
        assert((a + b).map_values(f).drop_last() =~= (a + b.drop_last()).map_values(f));
        assert(b.map_values(f).drop_last() =~= b.drop_last().map_values(f));
        assert((a + b).map_values(f).last() == spec_trim(b.last()@));
        assert(b.map_values(f).last() == spec_trim(b.last()@));
        match spec_model_of(spec_trim(b.last()@)) {
            Some(m) => {
                assert(spec_dyd_models(a + b) =~= spec_dyd_models(a + b.drop_last()) + seq![m]);
                assert(spec_dyd_models(b) =~= spec_dyd_models(b.drop_last()) + seq![m]);
            },
            None => {},
        }
    }
}


/// A model names a generating unit exactly when its upper-cased type contains
/// `GENROU`, `GENSAL`, `REPC`, `IBR`, `PV` or `WIND`; the unit is inverter-based
/// exactly when the type contains `REPC`, `IBR`, `PV` or `WIND`; the unit keeps the
/// model's bus, unit id and family, and its MVA is the first parameter.
pub proof fn law_dyd_generators(m: DydModelView)
    ensures
        ({
            let fam = spec_upper(m.model_type);
            let ibr = spec_contains(fam, "REPC"@) || spec_contains(fam, "IBR"@) || spec_contains(
                fam,
                "PV"@,
            ) || spec_contains(fam, "WIND"@);
            &&& spec_dyd_generator_of(m) is Some <==> (spec_contains(fam, "GENROU"@)
                || spec_contains(fam, "GENSAL"@) || ibr)
            &&& spec_dyd_generator_of(m) matches Some(g) ==> {
                &&& g.is_ibr == ibr
                &&& g.bus_id == m.bus
                &&& g.id == m.id
                &&& g.model_family == m.model_type
                &&& g.mva == (if m.params.len() > 0 {
                    Some(m.params[0])
                } else {
                    None
                })
            }
        }),
{
    let fam = spec_upper(m.model_type);
    if spec_contains(fam, "REPCA"@) {
        let i = choose|i: int| crate::text::spec_occurs_at(fam, "REPCA"@, i);
        reveal_strlit("REPCA");
        reveal_strlit("REPC");
        assert(crate::text::spec_occurs_at(fam, "REPC"@, i)) by {
            assert(fam.subrange(i, i + 4) =~= fam.subrange(i, i + 5).subrange(0, 4));
            assert("REPCA"@.subrange(0, 4) =~= "REPC"@);
        }
    }
}

} // verus!
