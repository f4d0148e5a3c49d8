//! Export rules: the decisions that turn parsed records into interchange rows.

use std::collections::HashMap;
use std::collections::HashSet;

use vstd::prelude::*;
use crate::dyd::{dyd_generators_view, DydGeneratorRecord, DydGeneratorView};
use crate::epc::{records_view, EpcCase};
use crate::num::{push_decimal, spec_decimal};
use crate::options::ExportError;
use crate::records::{
    pairs_view, GeneratorRecord, GeneratorView, Record, RecordView, SwitchedShuntRecord,
    SwitchedShuntView,
};
use crate::text::{
    contains_str, lower_chars, push_str, spec_contains, spec_lower, str_chars, string_of,
};

verus! {

broadcast use vstd::std_specs::hash::group_hash_axioms;

// ---------------------------------------------------------------------------
// Generator Q-limit sanitisation counters
// ---------------------------------------------------------------------------

/// How many generator Q limits were repaired on export.
#[derive(Debug, Clone, Copy)]
pub struct GeneratorQSanitizationStats {
    pub swapped_q_limits: usize,
    pub clamped_nonfinite_q_min: usize,
    pub clamped_nonfinite_q_max: usize,
}

impl Default for GeneratorQSanitizationStats {
    fn default() -> (r: Self)
        ensures
            r.swapped_q_limits == 0,
            r.clamped_nonfinite_q_min == 0,
            r.clamped_nonfinite_q_max == 0,
    {
        GeneratorQSanitizationStats {
            swapped_q_limits: 0,
            clamped_nonfinite_q_min: 0,
            clamped_nonfinite_q_max: 0,
        }
    }
}

impl GeneratorQSanitizationStats {
    /// Whether nothing was repaired.
    pub fn is_empty(self) -> (r: bool)
        ensures
            r == (self.swapped_q_limits == 0 && self.clamped_nonfinite_q_min == 0
                && self.clamped_nonfinite_q_max == 0),
    {
        self.swapped_q_limits == 0 && self.clamped_nonfinite_q_min == 0
            && self.clamped_nonfinite_q_max == 0
    }
}

// ---------------------------------------------------------------------------
// Case fingerprint
// ---------------------------------------------------------------------------

/// Number of bus, generator and load records.
pub open spec fn spec_counts(rs: Seq<RecordView>) -> (nat, nat, nat)
    decreases rs.len(),
{
    if rs.len() == 0 {
        (0, 0, 0)
    } else {
        let (b, g, l) = spec_counts(rs.drop_last());
        match rs.last() {
            RecordView::Bus(_) => (b + 1, g, l),
            RecordView::Generator(_) => (b, g + 1, l),
            RecordView::Load(_) => (b, g, l + 1),
            _ => (b, g, l),
        }
    }
}

/// `pslf:{title byte length}:{buses}:{generators}:{loads}` (the byte length is that
/// of the title's UTF-8 encoding).
pub open spec fn spec_case_fingerprint(title: Seq<char>, rs: Seq<RecordView>) -> Seq<char> {
    let (b, g, l) = spec_counts(rs);
    "pslf:"@ + spec_decimal((vstd::utf8::encode_utf8(title).len() as usize) as nat) + ":"@
        + spec_decimal(b) + ":"@
        + spec_decimal(g) + ":"@ + spec_decimal(l)
}

/// The deterministic fingerprint of a case.
pub fn compute_case_fingerprint(case: &EpcCase) -> (r: String)
    ensures
        r@ == spec_case_fingerprint(case.title@, records_view(case.records@)),
{
    let mut b: usize = 0;
    let mut g: usize = 0;
    let mut l: usize = 0;
    let mut i: usize = 0;
    let ghost rv = records_view(case.records@);
    while i < case.records.len()
        invariant
            i <= case.records@.len(),
            rv == records_view(case.records@),
            (b as nat, g as nat, l as nat) == spec_counts(rv.subrange(0, i as int)),
            b <= i,
            g <= i,
            l <= i,
        decreases case.records@.len() - i,
    {
        assert(rv.subrange(0, i + 1).drop_last() =~= rv.subrange(0, i as int));
        assert(rv.subrange(0, i + 1).last() == case.records@[i as int]@);
        match &case.records[i] {
            Record::Bus(_) => {
                b = b + 1;
            },
            Record::Generator(_) => {
                g = g + 1;
            },
            Record::Load(_) => {
                l = l + 1;
            },
            _ => {},
        }
        i = i + 1;
    }
    assert(rv.subrange(0, rv.len() as int) =~= rv);
    let title_bytes = case.title.as_str().len();
    assert(title_bytes == (vstd::utf8::encode_utf8(case.title@).len() as usize));
    let mut s = String::new();
    push_str(&mut s, "pslf:");
    push_decimal(&mut s, title_bytes as u64);
    push_str(&mut s, ":");
    push_decimal(&mut s, b as u64);
    push_str(&mut s, ":");
    push_decimal(&mut s, g as u64);
    push_str(&mut s, ":");
    push_decimal(&mut s, l as u64);
    s
}

// ---------------------------------------------------------------------------
// Bus types
// ---------------------------------------------------------------------------

/// Interchange bus types.
#[derive(Debug, Clone, Copy, PartialEq, Eq, Structural)]
pub enum BusType {
    PQ,
    PV,
    Slack,
}

impl BusType {
    /// The dictionary token of the type.
    pub fn token(self) -> (r: &'static str)
        ensures
            r@ == (match self {
                BusType::PQ => "PQ"@,
                BusType::PV => "PV"@,
                BusType::Slack => "Slack"@,
            }),
    {
        match self {
            BusType::PQ => "PQ",
            BusType::PV => "PV",
            BusType::Slack => "Slack",
        }
    }
}

/// PSLF `ty` to interchange type: `0` and `3` are the swing bus (`Slack`); `2` is
/// `PV` only when an in-service machine is connected, else `PQ`; anything else is `PQ`.
pub open spec fn spec_bus_type(ty: u8, has_online_machine: bool) -> BusType {
    if ty == 0 || ty == 3 {
        BusType::Slack
    } else if ty == 2 && has_online_machine {
        BusType::PV
    } else {
        BusType::PQ
    }
}

pub fn canonical_bus_type_code(ty: u8, has_online_machine: bool) -> (r: BusType)
    ensures
        r == spec_bus_type(ty, has_online_machine),
{
    if ty == 0 || ty == 3 {
        BusType::Slack
    } else if ty == 2 && has_online_machine {
        BusType::PV
    } else {
        BusType::PQ
    }
}

/// Whether some in-service generator record is connected to `bus`.
pub open spec fn spec_has_online_machine(rs: Seq<RecordView>, bus: u32) -> bool {
    exists|k: int|
        0 <= k < rs.len() && (#[trigger] rs[k] matches RecordView::Generator(g) && g.bus == bus
            && g.status != 0)
}

/// The interchange type of every bus record, in record order.
pub open spec fn spec_bus_types(rs: Seq<RecordView>) -> Seq<BusType> {
    rs.filter_map(
        |r: RecordView|
            match r {
                RecordView::Bus(b) => Some(spec_bus_type(b.ty, spec_has_online_machine(rs, b.number))),
                _ => None,
            },
    )
}

/// The buses with an in-service generator.
fn online_machine_buses(case: &EpcCase) -> (s: HashSet<u32>)
    ensures
        forall|b: u32| s@.contains(b) == spec_has_online_machine(records_view(case.records@), b),
{
    let ghost rv = records_view(case.records@);
    let mut s: HashSet<u32> = HashSet::new();
    let mut i: usize = 0;
    while i < case.records.len()
        invariant
            i <= case.records@.len(),
            rv == records_view(case.records@),
            forall|b: u32|
                s@.contains(b) == exists|k: int|
                    0 <= k < i && (#[trigger] rv[k] matches RecordView::Generator(g) && g.bus == b
                        && g.status != 0),
        decreases case.records@.len() - i,
    {
        assert(rv[i as int] == case.records@[i as int]@);
        match &case.records[i] {
            Record::Generator(g) => {
                if g.status != 0 {
                    s.insert(g.bus);
                }
            },
            _ => {},
        }
        proof {
            assert forall|b: u32|
                s@.contains(b) == exists|k: int|
                    0 <= k < i + 1 && (#[trigger] rv[k] matches RecordView::Generator(g) && g.bus
                        == b && g.status != 0) by {
                if exists|k: int|
                    0 <= k < i + 1 && (#[trigger] rv[k] matches RecordView::Generator(g) && g.bus
                        == b && g.status != 0) {
                    let k = choose|k: int|
                        0 <= k < i + 1 && (#[trigger] rv[k] matches RecordView::Generator(g)
                            && g.bus == b && g.status != 0);
                    if k < i {
                    }
                }
            }
        }
        i = i + 1;
    }
    s
}

/// The interchange type of each bus record, in record order.
pub fn classify_bus_types(case: &EpcCase) -> (r: Vec<BusType>)
    ensures
        r@ == spec_bus_types(records_view(case.records@)),
{
    let online = online_machine_buses(case);
    let ghost rv = records_view(case.records@);
    let ghost f = |r: RecordView|
        match r {
            RecordView::Bus(b) => Some(spec_bus_type(b.ty, spec_has_online_machine(rv, b.number))),
            _ => None,
        };
    let mut r: Vec<BusType> = Vec::new();
    let mut i: usize = 0;
    while i < case.records.len()
        invariant
            i <= case.records@.len(),
            rv == records_view(case.records@),
            forall|b: u32| online@.contains(b) == spec_has_online_machine(rv, b),
            r@ == rv.subrange(0, i as int).filter_map(f),
            f == (|r: RecordView|
                match r {
                    RecordView::Bus(b) => Some(
                        spec_bus_type(b.ty, spec_has_online_machine(rv, b.number)),
                    ),
                    _ => None,
                }),
        decreases case.records@.len() - i,
    {
        assert(rv.subrange(0, i + 1).drop_last() =~= rv.subrange(0, i as int));
        assert(rv.subrange(0, i + 1).last() == case.records@[i as int]@);
        match &case.records[i] {
            Record::Bus(b) => {
                let has = online.contains(&b.number);
                let t = canonical_bus_type_code(b.ty, has);
                let ghost before = r@;
                r.push(t);
                assert(r@ =~= before + seq![t]);
            },
            _ => {},
        }
        i = i + 1;
    }
    assert(rv.subrange(0, rv.len() as int) =~= rv);
    r
}

// ---------------------------------------------------------------------------
// Generators
// ---------------------------------------------------------------------------

/// The regulated bus of a generator: none for local regulation (`ireg` zero or
/// the generator's own bus), else the remote bus.
pub open spec fn spec_controlled_bus_id(bus: u32, ireg: u32) -> Option<u32> {
    if ireg == 0 || ireg == bus {
        None
    } else {
        Some(ireg)
    }
}

pub fn generator_controlled_bus_id(bus: u32, ireg: u32) -> (r: Option<u32>)
    ensures
        r == spec_controlled_bus_id(bus, ireg),
{
    if ireg == 0 || ireg == bus {
        None
    } else {
        Some(ireg)
    }
}

/// The IBR subtype a model family names (letter case ignored).
pub open spec fn spec_canonical_ibr_subtype(model_family: Seq<char>) -> Seq<char> {
    let fam = spec_lower(model_family);
    if spec_contains(fam, "bess"@) || spec_contains(fam, "battery"@) {
        "battery"@
    } else if spec_contains(fam, "solar"@) || spec_contains(fam, "pv"@) {
        "solar"@
    } else if spec_contains(fam, "wind"@) {
        "wind"@
    } else {
        "generic_ibr"@
    }
}

pub fn canonical_ibr_subtype(model_family: &str) -> (r: &'static str)
    ensures
        r@ == spec_canonical_ibr_subtype(model_family@),
{
    let mf = str_chars(model_family);
    let fam = lower_chars(&mf);
    if contains_str(&fam, "bess") || contains_str(&fam, "battery") {
        "battery"
    } else if contains_str(&fam, "solar") || contains_str(&fam, "pv") {
        "solar"
    } else if contains_str(&fam, "wind") {
        "wind"
    } else {
        "generic_ibr"
    }
}

/// The first dynamic generator with the given bus and unit id.
pub open spec fn spec_first_dyd_match(dyd: Seq<DydGeneratorView>, bus: u32, id: Seq<char>) -> Option<
    int,
> {
    if exists|k: int| 0 <= k < dyd.len() && dyd[k].bus_id == bus && dyd[k].id == id {
        Some(
            choose|k: int|
                0 <= k < dyd.len() && dyd[k].bus_id == bus && dyd[k].id == id && forall|j: int|
                    0 <= j < k ==> !(dyd[j].bus_id == bus && dyd[j].id == id),
        )
    } else {
        None
    }
}

/// The IBR subtype of the unit `(bus, id)`: from the first dynamic generator with
/// that key, when that one is inverter-based.
pub open spec fn spec_ibr_subtype_of(dyd: Seq<DydGeneratorView>, bus: u32, id: Seq<char>) -> Option<
    Seq<char>,
> {
    match spec_first_dyd_match(dyd, bus, id) {
        Some(k) => if dyd[k].is_ibr {
            Some(spec_canonical_ibr_subtype(dyd[k].model_family))
        } else {
            None
        },
        None => None,
    }
}

fn str_eq(a: &String, b: &String) -> (r: bool)
    ensures
        r == (a@ == b@),
{
    a.eq(b)
}

fn ibr_subtype_of(dyd: &Vec<DydGeneratorRecord>, bus: u32, id: &String) -> (r: Option<String>)
    ensures
        crate::fields::opt_text(r) == spec_ibr_subtype_of(dyd_generators_view(dyd@), bus, id@),
{
    let ghost dv = dyd_generators_view(dyd@);
    let mut k: usize = 0;
    while k < dyd.len()
        invariant
            k <= dyd@.len(),
            dv == dyd_generators_view(dyd@),
            forall|j: int| 0 <= j < k ==> !(dv[j].bus_id == bus && dv[j].id == id@),
        decreases dyd@.len() - k,
    {
        assert(dv[k as int] == dyd@[k as int]@);
        if dyd[k].bus_id == bus && str_eq(&dyd[k].id, id) {
            proof {
                let c = choose|m: int|
                    0 <= m < dv.len() && dv[m].bus_id == bus && dv[m].id == id@ && forall|j: int|
                        0 <= j < m ==> !(dv[j].bus_id == bus && dv[j].id == id@);
                if c < k {
                    assert(!(dv[c].bus_id == bus && dv[c].id == id@));
                } else if c > k {
                    assert(!(dv[k as int].bus_id == bus && dv[k as int].id == id@));
                }
            }
            if dyd[k].is_ibr {
                return Some(string_of(canonical_ibr_subtype(dyd[k].model_family.as_str())));
            } else {
                return None;
            }
        }
        k = k + 1;
    }
    None
}

/// The IBR subtype assigned to one in-service unit.
pub struct IbrSubtypeEntry {
    pub bus: u32,
    pub id: String,
    pub subtype: String,
}

pub open spec fn entries_view(v: Seq<IbrSubtypeEntry>) -> Seq<(u32, Seq<char>, Seq<char>)> {
    v.map_values(|e: IbrSubtypeEntry| (e.bus, e.id@, e.subtype@))
}

/// For each in-service generator record (in order) whose unit is inverter-based,
/// its key and subtype.
pub open spec fn spec_ibr_entries(rs: Seq<RecordView>, dyd: Seq<DydGeneratorView>) -> Seq<
    (u32, Seq<char>, Seq<char>),
> {
    rs.filter_map(
        |r: RecordView|
            match r {
                RecordView::Generator(g) => if g.status != 0 {
                    match spec_ibr_subtype_of(dyd, g.bus, g.id) {
                        Some(s) => Some((g.bus, g.id, s)),
                        None => None,
                    }
                } else {
                    None
                },
                _ => None,
            },
    )
}

/// The IBR subtypes of the case's in-service units.
pub fn compute_ibr_subtype_by_generator(case: &EpcCase, dyd: &Vec<DydGeneratorRecord>) -> (r: Vec<
    IbrSubtypeEntry,
>)
    ensures
        entries_view(r@) == spec_ibr_entries(records_view(case.records@), dyd_generators_view(dyd@)),
{
    let ghost rv = records_view(case.records@);
    let ghost dv = dyd_generators_view(dyd@);
    let ghost f = |r: RecordView|
        match r {
            RecordView::Generator(g) => if g.status != 0 {
                match spec_ibr_subtype_of(dv, g.bus, g.id) {
                    Some(s) => Some((g.bus, g.id, s)),
                    None => None,
                }
            } else {
                None
            },
            _ => None,
        };
    let mut r: Vec<IbrSubtypeEntry> = Vec::new();
    let mut i: usize = 0;
    while i < case.records.len()
        invariant
            i <= case.records@.len(),
            rv == records_view(case.records@),
            dv == dyd_generators_view(dyd@),
            entries_view(r@) == rv.subrange(0, i as int).filter_map(f),
            f == (|r: RecordView|
                match r {
                    RecordView::Generator(g) => if g.status != 0 {
                        match spec_ibr_subtype_of(dv, g.bus, g.id) {
                            Some(s) => Some((g.bus, g.id, s)),
                            None => None,
                        }
                    } else {
                        None
                    },
                    _ => None,
                }),
        decreases case.records@.len() - i,
    {
        assert(rv.subrange(0, i + 1).drop_last() =~= rv.subrange(0, i as int));
        assert(rv.subrange(0, i + 1).last() == case.records@[i as int]@);
        match &case.records[i] {
            Record::Generator(g) => {
                if g.status != 0 {
                    match ibr_subtype_of(dyd, g.bus, &g.id) {
                        Some(s) => {
                            let ghost before = entries_view(r@);
                            let e = IbrSubtypeEntry { bus: g.bus, id: g.id.clone(), subtype: s };
                            r.push(e);
                            assert(entries_view(r@) =~= before + seq![(g.bus, g.id@, s@)]);
                        },
                        None => {},
                    }
                }
            },
            _ => {},
        }
        i = i + 1;
    }
    assert(rv.subrange(0, rv.len() as int) =~= rv);
    r
}

/// The subtype recorded for `(bus, id)`: that of the first entry with the key.
pub open spec fn spec_lookup_ibr(entries: Seq<(u32, Seq<char>, Seq<char>)>, bus: u32, id: Seq<char>) -> Option<
    Seq<char>,
> {
    if exists|k: int| 0 <= k < entries.len() && entries[k].0 == bus && entries[k].1 == id {
        let k = choose|k: int|
            0 <= k < entries.len() && entries[k].0 == bus && entries[k].1 == id && forall|j: int|
                0 <= j < k ==> !(entries[j].0 == bus && entries[j].1 == id);
        Some(entries[k].2)
    } else {
        None
    }
}

pub fn lookup_ibr_subtype(entries: &Vec<IbrSubtypeEntry>, bus: u32, id: &String) -> (r: Option<
    String,
>)
    ensures
        crate::fields::opt_text(r) == spec_lookup_ibr(entries_view(entries@), bus, id@),
{
    let ghost ev = entries_view(entries@);
    let mut k: usize = 0;
    while k < entries.len()
        invariant
            k <= entries@.len(),
            ev == entries_view(entries@),
            forall|j: int| 0 <= j < k ==> !(ev[j].0 == bus && ev[j].1 == id@),
        decreases entries@.len() - k,
    {
        assert(ev[k as int] == (entries@[k as int].bus, entries@[k as int].id@, entries@[k as int].subtype@));
        if entries[k].bus == bus && str_eq(&entries[k].id, id) {
            proof {
                let c = choose|m: int|
                    0 <= m < ev.len() && ev[m].0 == bus && ev[m].1 == id@ && forall|j: int|
                        0 <= j < m ==> !(ev[j].0 == bus && ev[j].1 == id@);
                if c < k {
                    assert(!(ev[c].0 == bus && ev[c].1 == id@));
                } else if c > k {
                    assert(!(ev[k as int].0 == bus && ev[k as int].1 == id@));
                }
            }
            return Some(entries[k].subtype.clone());
        }
        k = k + 1;
    }
    None
}

// ---------------------------------------------------------------------------
// Study metadata inferred from the case title
// ---------------------------------------------------------------------------

/// `planning` for a title naming planning, 2030 or the future; `operations` for
/// one naming on-peak, off-peak or operations (letter case ignored).
pub open spec fn spec_infer_study_purpose(title: Seq<char>) -> Option<Seq<char>> {
    let t = spec_lower(title);
    if spec_contains(t, "planning"@) || spec_contains(t, "2030"@) || spec_contains(t, "future"@) {
        Some("planning"@)
    } else if spec_contains(t, "onpeak"@) || spec_contains(t, "offpeak"@) || spec_contains(
        t,
        "operations"@,
    ) {
        Some("operations"@)
    } else {
        None
    }
}

pub fn infer_study_purpose(title: &str) -> (r: Option<String>)
    ensures
        crate::fields::opt_text(r) == spec_infer_study_purpose(title@),
{
    let tc = str_chars(title);
    let t = lower_chars(&tc);
    if contains_str(&t, "planning") || contains_str(&t, "2030") || contains_str(&t, "future") {
        Some(string_of("planning"))
    } else if contains_str(&t, "onpeak") || contains_str(&t, "offpeak") || contains_str(
        &t,
        "operations",
    ) {
        Some(string_of("operations"))
    } else {
        None
    }
}

pub open spec fn spec_tag_if(t: Seq<char>, needle: Seq<char>, tag: Seq<char>) -> Seq<Seq<char>> {
    if spec_contains(t, needle) {
        seq![tag]
    } else {
        Seq::empty()
    }
}

/// Scenario tags named by the title (letter case ignored), in a fixed order.
pub open spec fn spec_infer_scenario_tags(title: Seq<char>) -> Seq<Seq<char>> {
    let t = spec_lower(title);
    spec_tag_if(t, "onpeak"@, "onpeak"@) + spec_tag_if(t, "offpeak"@, "offpeak"@) + spec_tag_if(
        t,
        "summerpeak"@,
        "summer_peak"@,
    ) + spec_tag_if(t, "winter"@, "winter"@) + spec_tag_if(t, "dynamic"@, "dynamic"@)
        + spec_tag_if(t, "static"@, "static"@) + spec_tag_if(t, "gfm"@, "gfm"@) + spec_tag_if(
        t,
        "ibr"@,
        "ibr"@,
    )
}

fn push_tag_if(tags: &mut Vec<String>, t: &Vec<char>, needle: &str, tag: &str)
    ensures
        crate::dyd::strings_view(final(tags)@) == crate::dyd::strings_view(old(tags)@) + spec_tag_if(
            t@,
            needle@,
            tag@,
        ),
{
    if contains_str(t, needle) {
        let ghost before = crate::dyd::strings_view(tags@);
        let s = string_of(tag);
        tags.push(s);
        assert(crate::dyd::strings_view(tags@) =~= before + seq![tag@]);
    } else {
        assert(crate::dyd::strings_view(tags@) =~= crate::dyd::strings_view(tags@)
            + Seq::<Seq<char>>::empty());
    }
}

pub fn infer_scenario_tags(title: &str) -> (r: Vec<String>)
    ensures
        crate::dyd::strings_view(r@) == spec_infer_scenario_tags(title@),
{
    let tc = str_chars(title);
    let t = lower_chars(&tc);
    let mut tags: Vec<String> = Vec::new();
    assert(crate::dyd::strings_view(tags@) =~= Seq::<Seq<char>>::empty());
    push_tag_if(&mut tags, &t, "onpeak", "onpeak");
    push_tag_if(&mut tags, &t, "offpeak", "offpeak");
    push_tag_if(&mut tags, &t, "summerpeak", "summer_peak");
    push_tag_if(&mut tags, &t, "winter", "winter");
    push_tag_if(&mut tags, &t, "dynamic", "dynamic");
    push_tag_if(&mut tags, &t, "static", "static");
    push_tag_if(&mut tags, &t, "gfm", "gfm");
    push_tag_if(&mut tags, &t, "ibr", "ibr");
    assert(crate::dyd::strings_view(tags@) =~= spec_infer_scenario_tags(title@));
    tags
}

/// Presence of ZIP load-model data: PSLF loads are constant-power only.
pub fn classify_loads_zip_fidelity_presence(_case: &EpcCase) -> (r: &'static str)
    ensures
        r@ == "not_available"@,
{
    "not_available"
}

// ---------------------------------------------------------------------------
// Switched-shunt bank rows
// ---------------------------------------------------------------------------

/// A switched shunt as its status and the step count of each bank.
pub struct ShuntBankCounts {
    pub status: u8,
    pub step_counts: Vec<u32>,
}

/// One row of the `switched_shunt_banks` table; `shunt_index` and `bank_index`
/// locate the bank whose per-step susceptance the row carries.
#[derive(Debug, Clone, Copy, PartialEq, Eq, Structural)]
pub struct BankStepRow {
    pub shunt_id: i32,
    pub bank_id: i32,
    pub step: i32,
    pub status: bool,
    pub shunt_index: usize,
    pub bank_index: usize,
}

/// The steps `1..=n` when `n` is a positive `i32`, none otherwise.
pub open spec fn spec_step_count(n: u32) -> int {
    if n <= i32::MAX {
        n as int
    } else {
        0
    }
}

pub open spec fn spec_bank_rows(i: int, j: int, n: u32, status: bool) -> Seq<BankStepRow> {
    Seq::new(
        spec_step_count(n) as nat,
        |k: int|
            BankStepRow {
                shunt_id: (i + 1) as i32,
                bank_id: (j + 1) as i32,
                step: (k + 1) as i32,
                status,
                shunt_index: i as usize,
                bank_index: j as usize,
            },
    )
}

/// The rows of the first `nb` banks of shunt `i`.
pub open spec fn spec_shunt_rows(i: int, counts: Seq<u32>, status: bool, nb: int) -> Seq<
    BankStepRow,
>
    decreases nb,
{
    if nb <= 0 {
        Seq::empty()
    } else {
        spec_shunt_rows(i, counts, status, nb - 1) + spec_bank_rows(
            i,
            nb - 1,
            counts[nb - 1],
            status,
        )
    }
}

pub open spec fn shunt_counts_view(v: Seq<ShuntBankCounts>) -> Seq<(u8, Seq<u32>)> {
    v.map_values(|s: ShuntBankCounts| (s.status, s.step_counts@))
}

/// The rows of the first `ns` shunts: for each shunt, each bank, each step, in order.
pub open spec fn spec_bank_layout(shunts: Seq<(u8, Seq<u32>)>, ns: int) -> Seq<BankStepRow>
    decreases ns,
{
    if ns <= 0 {
        Seq::empty()
    } else {
        let s = shunts[ns - 1];
        spec_bank_layout(shunts, ns - 1) + spec_shunt_rows(ns - 1, s.1, s.0 != 0, s.1.len() as int)
    }
}

/// The `switched_shunt_banks` rows: one per step of each bank of each shunt, with
/// 1-based shunt, bank and step numbers and the shunt's in-service flag.
pub fn derive_switched_shunt_banks(shunts: &Vec<ShuntBankCounts>) -> (r: Vec<BankStepRow>)
    ensures
        r@ == spec_bank_layout(shunt_counts_view(shunts@), shunts@.len() as int),
{
    let ghost sv = shunt_counts_view(shunts@);
    let mut rows: Vec<BankStepRow> = Vec::new();
    let mut i: usize = 0;
    while i < shunts.len()
        invariant
            i <= shunts@.len(),
            sv == shunt_counts_view(shunts@),
            rows@ == spec_bank_layout(sv, i as int),
        decreases shunts@.len() - i,
    {
        let shunt = &shunts[i];
        let status = shunt.status != 0;
        let shunt_id: i32 = (i + 1) as i32;
        let ghost base = rows@;
        assert(sv[i as int] == (shunt.status, shunt.step_counts@));
        let mut j: usize = 0;
        while j < shunt.step_counts.len()
            invariant
                i < shunts@.len(),
                shunt == &shunts@[i as int],
                status == (shunt.status != 0),
                shunt_id == (i + 1) as i32,
                j <= shunt.step_counts@.len(),
                rows@ == base + spec_shunt_rows(i as int, shunt.step_counts@, status, j as int),
            decreases shunt.step_counts@.len() - j,
        {
            let n = shunt.step_counts[j];
            let bank_id: i32 = (j + 1) as i32;
            let cnt: u32 = if n <= 0x7fff_ffff {
                n
            } else {
                0
            };
            let ghost full = spec_bank_rows(i as int, j as int, n, status);
            let ghost before = rows@;
            let mut k: u32 = 0;
            while k < cnt
                invariant
                    cnt as int == spec_step_count(n),
                    cnt <= 0x7fff_ffff,
                    k <= cnt,
                    shunt_id == (i + 1) as i32,
                    bank_id == (j + 1) as i32,
                    full == spec_bank_rows(i as int, j as int, n, status),
                    rows@ == before + full.subrange(0, k as int),
                decreases cnt - k,
            {
                let step: i32 = (k + 1) as i32;
                rows.push(
                    BankStepRow {
                        shunt_id,
                        bank_id,
                        step,
                        status,
                        shunt_index: i,
                        bank_index: j,
                    },
                );
                proof {
                    assert(full.subrange(0, k + 1) =~= full.subrange(0, k as int).push(
                        full[k as int],
                    ));
                }
                k = k + 1;
            }
            proof {
                assert(full.subrange(0, full.len() as int) =~= full);
                assert(spec_shunt_rows(i as int, shunt.step_counts@, status, j + 1)
                    =~= spec_shunt_rows(i as int, shunt.step_counts@, status, j as int) + full);
            }
            j = j + 1;
        }
        i = i + 1;
    }
    rows
}

// ---------------------------------------------------------------------------
// Grouping switched shunts by bus
// ---------------------------------------------------------------------------

/// The distinct values of `s` in order of first appearance.
pub open spec fn spec_first_appearance(s: Seq<u32>) -> Seq<u32>
    decreases s.len(),
{
    if s.len() == 0 {
        Seq::empty()
    } else {
        let prev = spec_first_appearance(s.drop_last());
        if prev.contains(s.last()) {
            prev
        } else {
            prev.push(s.last())
        }
    }
}

/// The positions holding `b`, ascending.
pub open spec fn spec_positions(s: Seq<u32>, b: u32) -> Seq<usize>
    decreases s.len(),
{
    if s.len() == 0 {
        Seq::empty()
    } else {
        let prev = spec_positions(s.drop_last(), b);
        if s.last() == b {
            prev.push((s.len() - 1) as usize)
        } else {
            prev
        }
    }
}

proof fn lemma_first_appearance_contains(s: Seq<u32>, b: u32)
    ensures
        spec_first_appearance(s).contains(b) == s.contains(b),
    decreases s.len(),
{
    if s.len() > 0 {
        lemma_first_appearance_contains(s.drop_last(), b);
        if s.drop_last().contains(b) {
            let k = choose|k: int| 0 <= k < s.drop_last().len() && s.drop_last()[k] == b;
            assert(s[k] == b);
        }
        if s.contains(b) && !s.drop_last().contains(b) {
            let k = choose|k: int| 0 <= k < s.len() && s[k] == b;
            if k < s.len() - 1 {
                assert(s.drop_last()[k] == b);
            }
        }
        let prev = spec_first_appearance(s.drop_last());
        if !prev.contains(s.last()) {
            if prev.push(s.last()).contains(b) {
                let k = choose|k: int| 0 <= k < prev.push(s.last()).len() && prev.push(
                    s.last(),
                )[k] == b;
                if k < prev.len() {
                    assert(prev[k] == b);
                }
            }
            if prev.contains(b) {
                let k = choose|k: int| 0 <= k < prev.len() && prev[k] == b;
                assert(prev.push(s.last())[k] == b);
            }
            assert(prev.push(s.last())[prev.len() as int] == s.last());
        }
    }
}

pub open spec fn groups_view(v: Seq<Vec<usize>>) -> Seq<Seq<usize>> {
    v.map_values(|g: Vec<usize>| g@)
}

/// The switched-shunt rows grouped by bus: one group per distinct bus, in order of
/// first appearance, each listing the positions of that bus's rows in order.
pub fn consolidate_switched_shunts_by_bus(buses: &Vec<u32>) -> (r: (Vec<u32>, Vec<Vec<usize>>))
    ensures
        r.0@ == spec_first_appearance(buses@),
        groups_view(r.1@) == r.0@.map_values(|b: u32| spec_positions(buses@, b)),
{
    let mut order: Vec<u32> = Vec::new();
    let mut groups: Vec<Vec<usize>> = Vec::new();
    let mut i: usize = 0;
    assert(buses@.subrange(0, 0) =~= Seq::<u32>::empty());
    while i < buses.len()
        invariant
            i <= buses@.len(),
            order@ == spec_first_appearance(buses@.subrange(0, i as int)),
            groups@.len() == order@.len(),
            forall|m1: int, m2: int|
                0 <= m1 < order@.len() && 0 <= m2 < order@.len() && m1 != m2 ==> order@[m1]
                    != order@[m2],
            forall|g: int|
                0 <= g < order@.len() ==> #[trigger] groups@[g]@ == spec_positions(
                    buses@.subrange(0, i as int),
                    order@[g],
                ),
        decreases buses@.len() - i,
    {
        let b = buses[i];
        let ghost pre = buses@.subrange(0, i as int);
        let ghost next = buses@.subrange(0, i + 1);
        assert(next.drop_last() =~= pre);
        assert(next.last() == b);
        let mut g: usize = 0;
        while g < order.len() && order[g] != b
            invariant
                g <= order@.len(),
                forall|m: int| 0 <= m < g ==> order@[m] != b,
            decreases order@.len() - g,
        {
            g = g + 1;
        }
        if g < order.len() {
            let ghost old_groups = groups@;
            groups[g].push(i);
            proof {
                assert(order@[g as int] == b);
                assert forall|m: int| 0 <= m < order@.len() implies #[trigger] groups@[m]@
                    == spec_positions(next, order@[m]) by {
                    if m == g {
                        assert(groups@[m]@ == old_groups[m]@.push(i));
                    } else {
                        assert(groups@[m] == old_groups[m]);
                        assert(order@[m] != b);
                    }
                }
            }
        } else {
            proof {
                assert(!order@.contains(b));
            }
            order.push(b);
            let mut grp: Vec<usize> = Vec::new();
            grp.push(i);
            groups.push(grp);
            proof {
                lemma_first_appearance_contains(pre, b);
                assert(!pre.contains(b));
                lemma_positions_absent(pre, b);
                assert forall|m: int| 0 <= m < order@.len() implies #[trigger] groups@[m]@
                    == spec_positions(next, order@[m]) by {
                    if m < order@.len() - 1 {
                        assert(order@[m] != b);
                    } else {
                        assert(spec_positions(pre, b) =~= Seq::<usize>::empty());
                    }
                }
            }
        }
        i = i + 1;
    }
    assert(buses@.subrange(0, buses@.len() as int) =~= buses@);
    assert(groups_view(groups@) =~= order@.map_values(|b: u32| spec_positions(buses@, b)));
    (order, groups)
}

proof fn lemma_positions_absent(s: Seq<u32>, b: u32)
    requires
        !s.contains(b),
    ensures
        spec_positions(s, b) == Seq::<usize>::empty(),
    decreases s.len(),
{
    if s.len() > 0 {
        assert(s.last() != b) by {
            assert(s[s.len() - 1] == s.last());
        }
        assert(!s.drop_last().contains(b)) by {
            if s.drop_last().contains(b) {
                let k = choose|k: int| 0 <= k < s.drop_last().len() && s.drop_last()[k] == b;
                assert(s[k] == b);
            }
        }
        lemma_positions_absent(s.drop_last(), b);
    }
}

/// How many of the first `n` entries of `s` are `b`.
pub open spec fn spec_count_prefix(s: Seq<u32>, b: u32, n: int) -> nat
    decreases n,
{
    if n <= 0 {
        0
    } else {
        spec_count_prefix(s, b, n - 1) + (if s[n - 1] == b {
            1nat
        } else {
            0nat
        })
    }
}

/// `{bus}_shunt_{n}` for the `n`-th switched shunt of its bus.
pub open spec fn spec_shunt_label(s: Seq<u32>, k: int) -> Seq<char> {
    spec_decimal(s[k] as nat) + "_shunt_"@ + spec_decimal(spec_count_prefix(s, s[k], k + 1))
}

proof fn lemma_count_prefix_le(s: Seq<u32>, b: u32, n: int)
    ensures
        spec_count_prefix(s, b, n) <= if n < 0 { 0 } else { n },
    decreases n,
{
    if n > 0 {
        lemma_count_prefix_le(s, b, n - 1);
    }
}

/// The identifier of each switched shunt, given the bus of each in table order:
/// the bus number and the shunt's ordinal among that bus's shunts.
pub fn switched_shunt_ids(buses: &Vec<u32>) -> (r: Vec<String>)
    ensures
        r@.len() == buses@.len(),
        forall|k: int| 0 <= k < buses@.len() ==> #[trigger] r@[k]@ == spec_shunt_label(buses@, k),
{
    let mut seen: HashMap<u32, u64> = HashMap::new();
    let mut r: Vec<String> = Vec::new();
    let mut k: usize = 0;
    while k < buses.len()
        invariant
            k <= buses@.len(),
            r@.len() == k,
            forall|j: int| 0 <= j < k ==> #[trigger] r@[j]@ == spec_shunt_label(buses@, j),
            forall|b: u32|
                #[trigger] seen@.contains_key(b) ==> seen@[b] == spec_count_prefix(
                    buses@,
                    b,
                    k as int,
                ),
            forall|b: u32|
                !(#[trigger] seen@.contains_key(b)) ==> spec_count_prefix(buses@, b, k as int)
                    == 0,
        decreases buses@.len() - k,
    {
        let b = buses[k];
        proof {
            lemma_count_prefix_le(buses@, b, k as int);
        }
        let prev: u64 = match seen.get(&b) {
            Some(c) => *c,
            None => 0,
        };
        assert(prev == spec_count_prefix(buses@, b, k as int));
        let n: u64 = prev + 1;
        seen.insert(b, n);
        let mut label = String::new();
        push_decimal(&mut label, b as u64);
        push_str(&mut label, "_shunt_");
        push_decimal(&mut label, n);
        let ghost before = r@;
        r.push(label);
        proof {
            assert(r@[k as int]@ == spec_shunt_label(buses@, k as int));
            assert forall|j: int| 0 <= j < k + 1 implies #[trigger] r@[j]@ == spec_shunt_label(
                buses@,
                j,
            ) by {
                if j < k {
                    assert(r@[j] == before[j]);
                }
            }
        }
        k = k + 1;
    }
    r
}

/// The step count of each bank, zero for a bank whose per-step susceptance is not
/// positive (`banks[k]` is the step count and whether the susceptance is positive):
/// only positive steps make bank rows.
pub fn positive_bank_step_counts(banks: &Vec<(u32, bool)>) -> (r: Vec<u32>)
    ensures
        r@.len() == banks@.len(),
        forall|k: int|
            0 <= k < banks@.len() ==> #[trigger] r@[k] == (if banks@[k].1 {
                banks@[k].0
            } else {
                0u32
            }),
{
    let mut r: Vec<u32> = Vec::new();
    let mut k: usize = 0;
    while k < banks.len()
        invariant
            k <= banks@.len(),
            r@.len() == k,
            forall|j: int|
                0 <= j < k ==> #[trigger] r@[j] == (if banks@[j].1 {
                    banks@[j].0
                } else {
                    0u32
                }),
        decreases banks@.len() - k,
    {
        let (n, positive) = banks[k];
        r.push(if positive { n } else { 0 });
        k = k + 1;
    }
    r
}

/// The switched shunts of one bus merged into one: the bus, the first member's
/// identifier, the merged status, the positions of the members and their bank
/// pairs one after the other. The real-valued parts of the merge (the sum of the
/// initial susceptances and the widest voltage band) are left to the caller.
pub struct MergedSwitchedShunt {
    pub bus: u32,
    pub id: String,
    pub status: u8,
    pub members: Vec<usize>,
    pub bank_pairs: Vec<(u32, String)>,
}

pub open spec fn shunts_view(v: Seq<SwitchedShuntRecord>) -> Seq<SwitchedShuntView> {
    v.map_values(|s: SwitchedShuntRecord| s@)
}

pub open spec fn shunt_buses(v: Seq<SwitchedShuntView>) -> Seq<u32> {
    v.map_values(|s: SwitchedShuntView| s.bus)
}

/// The bank pairs of the members `m`, one member after the other.
pub open spec fn spec_group_pairs(sv: Seq<SwitchedShuntView>, m: Seq<usize>) -> Seq<
    (u32, Seq<char>),
>
    decreases m.len(),
{
    if m.len() == 0 {
        Seq::empty()
    } else {
        spec_group_pairs(sv, m.drop_last()) + sv[m.last() as int].bank_pairs
    }
}

/// The merged status: out of service (0) when some member is, else the first
/// member's status.
pub open spec fn spec_group_status(sv: Seq<SwitchedShuntView>, m: Seq<usize>) -> u8 {
    if exists|j: int| 0 <= j < m.len() && #[trigger] sv[m[j] as int].status == 0 {
        0
    } else {
        sv[m[0] as int].status
    }
}

fn append_pairs(dst: &mut Vec<(u32, String)>, src: &Vec<(u32, String)>)
    ensures
        pairs_view(final(dst)@) == pairs_view(old(dst)@) + pairs_view(src@),
{
    let ghost start = pairs_view(dst@);
    let mut i: usize = 0;
    while i < src.len()
        invariant
            i <= src@.len(),
            pairs_view(dst@) == start + pairs_view(src@).subrange(0, i as int),
        decreases src@.len() - i,
    {
        let p = (src[i].0, string_of(src[i].1.as_str()));
        let ghost before = pairs_view(dst@);
        dst.push(p);
        assert(pairs_view(dst@) =~= before.push((src@[i as int].0, src@[i as int].1@)));
        assert(pairs_view(src@).subrange(0, i + 1) =~= pairs_view(src@).subrange(0, i as int).push(
            (src@[i as int].0, src@[i as int].1@),
        ));
        i = i + 1;
    }
    assert(pairs_view(src@).subrange(0, src@.len() as int) =~= pairs_view(src@));
}

/// Merges the switched shunts bus by bus: one merged shunt per distinct bus, in
/// order of first appearance.
pub fn merge_switched_shunts(shunts: &Vec<SwitchedShuntRecord>) -> (r: Vec<MergedSwitchedShunt>)
    ensures
        r@.len() == spec_first_appearance(shunt_buses(shunts_view(shunts@))).len(),
        forall|g: int|
            0 <= g < r@.len() ==> {
                let sv = shunts_view(shunts@);
                let b = spec_first_appearance(shunt_buses(sv))[g];
                let m = (#[trigger] r@[g]).members@;
                &&& r@[g].bus == b
                &&& m == spec_positions(shunt_buses(sv), b)
                &&& m.len() > 0
                &&& r@[g].id@ == sv[m[0] as int].id
                &&& r@[g].status == spec_group_status(sv, m)
                &&& pairs_view(r@[g].bank_pairs@) == spec_group_pairs(sv, m)
                &&& (exists|j: int| 0 <= j < m.len() && sv[m[j] as int].status == 0) ==> r@[g].status
                    == 0
                &&& (forall|j: int| 0 <= j < m.len() ==> sv[m[j] as int].status != 0) ==> r@[g].status
                    == sv[m[0] as int].status
            },
{
    let ghost sv = shunts_view(shunts@);
    let mut buses: Vec<u32> = Vec::new();
    let mut i: usize = 0;
    while i < shunts.len()
        invariant
            i <= shunts@.len(),
            sv == shunts_view(shunts@),
            buses@ == shunt_buses(sv).subrange(0, i as int),
        decreases shunts@.len() - i,
    {
        buses.push(shunts[i].bus);
        assert(buses@ =~= shunt_buses(sv).subrange(0, i + 1));
        i = i + 1;
    }
    assert(buses@ =~= shunt_buses(sv));
    let (order, groups) = consolidate_switched_shunts_by_bus(&buses);
    let ghost bv = buses@;
    let nb = buses.len();
    assert(bv.len() == nb);
    assert(groups_view(groups@).len() == groups@.len());
    let mut out: Vec<MergedSwitchedShunt> = Vec::new();
    let mut g: usize = 0;
    while g < order.len()
        invariant
            g <= order@.len(),
            sv == shunts_view(shunts@),
            bv == buses@,
            bv == shunt_buses(sv),
            bv.len() == shunts@.len(),
            order@ == spec_first_appearance(bv),
            groups_view(groups@) == order@.map_values(|b: u32| spec_positions(bv, b)),
            groups@.len() == order@.len(),
            bv.len() <= usize::MAX,
            out@.len() == g,
            forall|h: int|
                0 <= h < g ==> {
                    let b = order@[h];
                    let m = (#[trigger] out@[h]).members@;
                    &&& out@[h].bus == b
                    &&& m == spec_positions(bv, b)
                    &&& m.len() > 0
                    &&& out@[h].id@ == sv[m[0] as int].id
                    &&& out@[h].status == spec_group_status(sv, m)
                    &&& pairs_view(out@[h].bank_pairs@) == spec_group_pairs(sv, m)
                },
        decreases order@.len() - g,
    {
        let b = order[g];
        let members = &groups[g];
        let ghost m = members@;
        proof {
            assert(groups_view(groups@)[g as int] == groups@[g as int]@);
            assert(groups_view(groups@)[g as int] == m);
            assert(m == spec_positions(bv, b));
            lemma_first_appearance_contains(bv, b);
            assert(spec_first_appearance(bv).contains(b)) by {
                assert(spec_first_appearance(bv)[g as int] == b);
            }
            let w = choose|w: int| 0 <= w < bv.len() && bv[w] == b;
            lemma_positions_exact(bv, b, w as usize);
            assert(m.len() > 0);
            assert forall|j: int| 0 <= j < m.len() implies (#[trigger] m[j]) < shunts@.len() by {
                lemma_positions_exact(bv, b, m[j]);
                assert(m.contains(m[j]));
            }
        }
        let first = members[0];
        let mut any_off = false;
        let mut pairs: Vec<(u32, String)> = Vec::new();
        let mut copied: Vec<usize> = Vec::new();
        let mut j: usize = 0;
        assert(pairs_view(pairs@) =~= Seq::<(u32, Seq<char>)>::empty());
        while j < members.len()
            invariant
                j <= m.len(),
                m == members@,
                sv == shunts_view(shunts@),
                forall|q: int| 0 <= q < m.len() ==> (#[trigger] m[q]) < shunts@.len(),
                copied@ == m.subrange(0, j as int),
                any_off == exists|q: int| 0 <= q < j && #[trigger] sv[m[q] as int].status == 0,
                pairs_view(pairs@) == spec_group_pairs(sv, m.subrange(0, j as int)),
            decreases m.len() - j,
        {
            let k = members[j];
            assert(sv[k as int] == shunts@[k as int]@);
            if shunts[k].status == 0 {
                any_off = true;
            }
            append_pairs(&mut pairs, &shunts[k].bank_pairs);
            copied.push(k);
            proof {
                assert(m.subrange(0, j + 1).drop_last() =~= m.subrange(0, j as int));
                assert(m.subrange(0, j + 1).last() == k);
                assert(copied@ =~= m.subrange(0, j + 1));
                if any_off && !(exists|q: int| 0 <= q < j && #[trigger] sv[m[q] as int].status == 0) {
                    assert(sv[m[j as int] as int].status == 0);
                }
            }
            j = j + 1;
        }
        proof {
            assert(m.subrange(0, m.len() as int) =~= m);
            assert(sv[first as int] == shunts@[first as int]@);
        }
        let status = if any_off { 0 } else { shunts[first].status };
        let merged = MergedSwitchedShunt {
            bus: b,
            id: string_of(shunts[first].id.as_str()),
            status,
            members: copied,
            bank_pairs: pairs,
        };
        let ghost before = out@;
        out.push(merged);
        proof {
            assert forall|h: int| 0 <= h < g + 1 implies {
                let b = order@[h];
                let m = (#[trigger] out@[h]).members@;
                &&& out@[h].bus == b
                &&& m == spec_positions(bv, b)
                &&& m.len() > 0
                &&& out@[h].id@ == sv[m[0] as int].id
                &&& out@[h].status == spec_group_status(sv, m)
                &&& pairs_view(out@[h].bank_pairs@) == spec_group_pairs(sv, m)
            } by {
                if h < g {
                    assert(out@[h] == before[h]);
                }
            }
        }
        g = g + 1;
    }
    out
}

// ---------------------------------------------------------------------------
// Transformer representation invariant
// ---------------------------------------------------------------------------

/// In-service 2-winding rows with an end on a synthetic star bus.
pub open spec fn spec_active_star_legs(rows: Seq<(i32, i32, bool)>) -> nat {
    rows.filter(
        |r: (i32, i32, bool)|
            r.2 && (r.0 > crate::mrid::SYNTHETIC_STAR_BUS_MIN_ID_EXCLUSIVE as i32 || r.1
                > crate::mrid::SYNTHETIC_STAR_BUS_MIN_ID_EXCLUSIVE as i32),
    ).len()
}

/// In-service 3-winding rows.
pub open spec fn spec_active_3w(status: Seq<bool>) -> nat {
    status.filter(|s: bool| s).len()
}

/// Expanded mode admits no in-service 3-winding row; native mode admits no
/// in-service star-leg 2-winding row.
pub fn validate_transformer_representation_mode(
    rows_2w: &Vec<(i32, i32, bool)>,
    status_3w: &Vec<bool>,
    mode: crate::options::TransformerRepresentationMode,
) -> (r: Result<(), ExportError>)
    ensures
        mode == crate::options::TransformerRepresentationMode::Expanded ==> (match r {
            Ok(_) => spec_active_3w(status_3w@) == 0,
            Err(e) => spec_active_3w(status_3w@) > 0 && (e matches ExportError::ActiveThreeWindingInExpandedMode(
                n,
            ) && n == spec_active_3w(status_3w@)),
        }),
        mode == crate::options::TransformerRepresentationMode::Native3W ==> (match r {
            Ok(_) => spec_active_star_legs(rows_2w@) == 0,
            Err(e) => spec_active_star_legs(rows_2w@) > 0 && (e matches ExportError::ActiveStarLegsInNativeMode(
                n,
            ) && n == spec_active_star_legs(rows_2w@)),
        }),
{
    let ghost f = |r: (i32, i32, bool)|
        r.2 && (r.0 > crate::mrid::SYNTHETIC_STAR_BUS_MIN_ID_EXCLUSIVE as i32 || r.1
            > crate::mrid::SYNTHETIC_STAR_BUS_MIN_ID_EXCLUSIVE as i32);
    let star: i32 = 10_000_000;
    let mut active_star: usize = 0;
    let mut i: usize = 0;
    while i < rows_2w.len()
        invariant
            i <= rows_2w@.len(),
            star == crate::mrid::SYNTHETIC_STAR_BUS_MIN_ID_EXCLUSIVE as i32,
            active_star == rows_2w@.subrange(0, i as int).filter(f).len(),
            active_star <= i,
            f == (|r: (i32, i32, bool)|
                r.2 && (r.0 > crate::mrid::SYNTHETIC_STAR_BUS_MIN_ID_EXCLUSIVE as i32 || r.1
                    > crate::mrid::SYNTHETIC_STAR_BUS_MIN_ID_EXCLUSIVE as i32)),
        decreases rows_2w@.len() - i,
    {
        proof {
            reveal_with_fuel(Seq::<_>::filter, 1);
        }
        let (from, to, status) = rows_2w[i];
        assert(rows_2w@.subrange(0, i + 1).drop_last() =~= rows_2w@.subrange(0, i as int));
        assert(rows_2w@.subrange(0, i + 1).last() == rows_2w@[i as int]);
        if status && (from > star || to > star) {
            active_star = active_star + 1;
        }
        i = i + 1;
    }
    assert(rows_2w@.subrange(0, rows_2w@.len() as int) =~= rows_2w@);
    let mut active_3w: usize = 0;
    let mut k: usize = 0;
    while k < status_3w.len()
        invariant
            k <= status_3w@.len(),
            active_3w == status_3w@.subrange(0, k as int).filter(|s: bool| s).len(),
            active_3w <= k,
        decreases status_3w@.len() - k,
    {
        proof {
            reveal_with_fuel(Seq::<_>::filter, 1);
        }
        assert(status_3w@.subrange(0, k + 1).drop_last() =~= status_3w@.subrange(0, k as int));
        assert(status_3w@.subrange(0, k + 1).last() == status_3w@[k as int]);
        if status_3w[k] {
            active_3w = active_3w + 1;
        }
        k = k + 1;
    }
    assert(status_3w@.subrange(0, status_3w@.len() as int) =~= status_3w@);
    match mode {
        crate::options::TransformerRepresentationMode::Expanded => {
            if active_3w > 0 {
                return Err(ExportError::ActiveThreeWindingInExpandedMode(active_3w));
            }
        },
        crate::options::TransformerRepresentationMode::Native3W => {
            if active_star > 0 {
                return Err(ExportError::ActiveStarLegsInNativeMode(active_star));
            }
        },
    }
    Ok(())
}

// ---------------------------------------------------------------------------
// Nominal voltage of branch and transformer ends
// ---------------------------------------------------------------------------

/// The nominal kV of an end: the declared one when there is one, else that of the
/// end's bus, else that of the opposite bus; an error when none is known.
pub open spec fn spec_resolve_nominal_kv<V>(
    declared: Option<V>,
    primary: u32,
    opposite: u32,
    kv: Map<u32, V>,
) -> Option<V> {
    match declared {
        Some(v) => Some(v),
        None => if kv.contains_key(primary) {
            Some(kv[primary])
        } else if kv.contains_key(opposite) {
            Some(kv[opposite])
        } else {
            None
        },
    }
}

pub fn resolve_required_nominal_kv<V: Copy>(
    declared: Option<V>,
    primary_bus_id: u32,
    opposite_bus_id: u32,
    bus_nominal_kv: &HashMap<u32, V>,
    field: &str,
) -> (r: Result<V, ExportError>)
    ensures
        match r {
            Ok(v) => spec_resolve_nominal_kv(
                declared,
                primary_bus_id,
                opposite_bus_id,
                bus_nominal_kv@,
            ) == Some(v),
            Err(e) => spec_resolve_nominal_kv(
                declared,
                primary_bus_id,
                opposite_bus_id,
                bus_nominal_kv@,
            ) is None && (e matches ExportError::MissingNominalKv(f, p, o) && f@ == field@ && p
                == primary_bus_id && o == opposite_bus_id),
        },
{
    if let Some(v) = declared {
        return Ok(v);
    }
    if let Some(kv) = bus_nominal_kv.get(&primary_bus_id) {
        return Ok(*kv);
    }
    if let Some(kv) = bus_nominal_kv.get(&opposite_bus_id) {
        return Ok(*kv);
    }
    Err(ExportError::MissingNominalKv(string_of(field), primary_bus_id, opposite_bus_id))
}

// ---------------------------------------------------------------------------
// Laws
// ---------------------------------------------------------------------------

/// Whether some in-service generator record has the unit key `(bus, id)`.
pub open spec fn spec_has_online_unit(rs: Seq<RecordView>, bus: u32, id: Seq<char>) -> bool {
    exists|k: int|
        0 <= k < rs.len() && (#[trigger] rs[k] matches RecordView::Generator(g) && g.bus == bus
            && g.id == id && g.status != 0)
}

#[verifier::rlimit(50)]
proof fn lemma_ibr_entries(rs: Seq<RecordView>, dyd: Seq<DydGeneratorView>, bus: u32, id: Seq<char>)
    ensures
        forall|k: int|
            0 <= k < spec_ibr_entries(rs, dyd).len() ==> spec_ibr_subtype_of(
                dyd,
                (#[trigger] spec_ibr_entries(rs, dyd)[k]).0,
                spec_ibr_entries(rs, dyd)[k].1,
            ) == Some(spec_ibr_entries(rs, dyd)[k].2),
        (exists|k: int|
            0 <= k < spec_ibr_entries(rs, dyd).len() && (#[trigger] spec_ibr_entries(rs, dyd)[k]).0
                == bus && spec_ibr_entries(rs, dyd)[k].1 == id) <==> (spec_has_online_unit(
            rs,
            bus,
            id,
        ) && spec_ibr_subtype_of(dyd, bus, id) is Some),
    decreases rs.len(),
{
    let e = spec_ibr_entries(rs, dyd);
    if rs.len() > 0 {
        let rest = rs.drop_last();
        let prev = spec_ibr_entries(rest, dyd);
        lemma_ibr_entries(rest, dyd, bus, id);
        let last = rs.last();
        assert(forall|k: int| 0 <= k < rest.len() ==> rest[k] == rs[k]);
        let added = match last {
            RecordView::Generator(g) => g.status != 0 && spec_ibr_subtype_of(dyd, g.bus, g.id) is Some,
            _ => false,
        };
        if added {
            let g = last->Generator_0;
            assert(e =~= prev + seq![(g.bus, g.id, spec_ibr_subtype_of(dyd, g.bus, g.id)->0)]);
        } else {
            assert(e =~= prev);
        }
        assert forall|k: int| 0 <= k < e.len() implies spec_ibr_subtype_of(
            dyd,
            (#[trigger] e[k]).0,
            e[k].1,
        ) == Some(e[k].2) by {
            if k < prev.len() {
                assert(e[k] == prev[k]);
            }
        }
        if spec_has_online_unit(rs, bus, id) && spec_ibr_subtype_of(dyd, bus, id) is Some {
            let k = choose|k: int|
                0 <= k < rs.len() && (#[trigger] rs[k] matches RecordView::Generator(g) && g.bus
                    == bus && g.id == id && g.status != 0);
            if k < rest.len() {
                assert(rest[k] == rs[k]);
                assert(spec_has_online_unit(rest, bus, id));
                let m = choose|m: int|
                    0 <= m < prev.len() && (#[trigger] prev[m]).0 == bus && prev[m].1 == id;
                assert(e[m] == prev[m]);
            } else {
                assert(e[prev.len() as int].0 == bus && e[prev.len() as int].1 == id);
            }
        }
        if exists|k: int| 0 <= k < e.len() && (#[trigger] e[k]).0 == bus && e[k].1 == id {
            let k = choose|k: int| 0 <= k < e.len() && (#[trigger] e[k]).0 == bus && e[k].1 == id;
            if k < prev.len() {
                assert(e[k] == prev[k]);
                assert(prev[k].0 == bus && prev[k].1 == id);
                let j = choose|j: int|
                    0 <= j < rest.len() && (#[trigger] rest[j] matches RecordView::Generator(g)
                        && g.bus == bus && g.id == id && g.status != 0);
                assert(rs[j] == rest[j]);
            } else {
                assert(rs[rs.len() - 1] == last);
            }
        }
    } else {
        assert(e =~= Seq::<(u32, Seq<char>, Seq<char>)>::empty());
    }
}

/// Looking a unit up among the computed IBR subtypes gives the subtype of the
/// unit's first dynamic generator record, when that record is inverter-based and
/// some in-service generator of the case has the unit's key; otherwise nothing.
pub proof fn law_ibr_lookup(rs: Seq<RecordView>, dyd: Seq<DydGeneratorView>, bus: u32, id: Seq<char>)
    ensures
        spec_lookup_ibr(spec_ibr_entries(rs, dyd), bus, id) == (if spec_has_online_unit(rs, bus, id) {
            spec_ibr_subtype_of(dyd, bus, id)
        } else {
            None
        }),
{
    lemma_ibr_entries(rs, dyd, bus, id);
    let e = spec_ibr_entries(rs, dyd);
    if exists|k: int| 0 <= k < e.len() && e[k].0 == bus && e[k].1 == id {
        let k = choose|k: int|
            0 <= k < e.len() && e[k].0 == bus && e[k].1 == id && forall|j: int|
                0 <= j < k ==> !(e[j].0 == bus && e[j].1 == id);
        let w = choose|k: int| 0 <= k < e.len() && e[k].0 == bus && e[k].1 == id;
        assert(0 <= w < e.len() && e[w].0 == bus && e[w].1 == id);
        lemma_first_witness(e, bus, id, w);
        assert(spec_ibr_subtype_of(dyd, e[k].0, e[k].1) == Some(e[k].2));
    }
}

proof fn lemma_first_witness(e: Seq<(u32, Seq<char>, Seq<char>)>, bus: u32, id: Seq<char>, w: int)
    requires
        0 <= w < e.len(),
        e[w].0 == bus && e[w].1 == id,
    ensures
        exists|k: int|
            0 <= k < e.len() && e[k].0 == bus && e[k].1 == id && forall|j: int|
                0 <= j < k ==> !(e[j].0 == bus && e[j].1 == id),
    decreases w,
{
    if exists|j: int| 0 <= j < w && e[j].0 == bus && e[j].1 == id {
        let j = choose|j: int| 0 <= j < w && e[j].0 == bus && e[j].1 == id;
        lemma_first_witness(e, bus, id, j);
    }
}

/// A swing bus (`ty` 0 or 3) is always `Slack` and nothing else is; a bus is
/// `PV` exactly when it is a generator bus (`ty` 2) with an in-service machine.
pub proof fn law_bus_type_gate(ty: u8, has_online_machine: bool)
    ensures
        (spec_bus_type(ty, has_online_machine) == BusType::Slack) <==> (ty == 0 || ty == 3),
        (spec_bus_type(ty, has_online_machine) == BusType::PV) <==> (ty == 2 && has_online_machine),
{
}

/// There is one bus type per bus record: as many as the case fingerprint counts.
pub proof fn law_bus_types_match_bus_count(rs: Seq<RecordView>)
    ensures
        spec_bus_types(rs).len() == spec_counts(rs).0,
    decreases rs.len(),
{
    if rs.len() > 0 {
        law_bus_types_match_bus_count(rs.drop_last());
        lemma_bus_types_prefix(rs);
    }
}

proof fn lemma_bus_types_prefix(rs: Seq<RecordView>)
    requires
        rs.len() > 0,
    ensures
        spec_bus_types(rs).len() == spec_bus_types(rs.drop_last()).len() + (if rs.last() is Bus {
            1int
        } else {
            0int
        }),
{
    let rest = rs.drop_last();
    let f = |r: RecordView|
        match r {
            RecordView::Bus(b) => Some(spec_bus_type(b.ty, spec_has_online_machine(rs, b.number))),
            _ => None,
        };
    let g = |r: RecordView|
        match r {
            RecordView::Bus(b) => Some(spec_bus_type(b.ty, spec_has_online_machine(rest, b.number))),
            _ => None,
        };
    lemma_filter_map_len_same(rest, f, g);
}

proof fn lemma_filter_map_len_same(
    s: Seq<RecordView>,
    f: spec_fn(RecordView) -> Option<BusType>,
    g: spec_fn(RecordView) -> Option<BusType>,
)
    requires
        forall|r: RecordView| (#[trigger] f(r)) is Some == g(r) is Some,
    ensures
        s.filter_map(f).len() == s.filter_map(g).len(),
    decreases s.len(),
{
    if s.len() > 0 {
        lemma_filter_map_len_same(s.drop_last(), f, g);
        assert(f(s.last()) is Some == g(s.last()) is Some);
    }
}

proof fn lemma_positions_exact(s: Seq<u32>, b: u32, x: usize)
    requires
        s.len() <= usize::MAX,
    ensures
        spec_positions(s, b).contains(x) <==> (x < s.len() && s[x as int] == b),
    decreases s.len(),
{
    if s.len() > 0 {
        let rest = s.drop_last();
        lemma_positions_exact(rest, b, x);
        let prev = spec_positions(rest, b);
        if s.last() == b {
            let cur = prev.push((s.len() - 1) as usize);
            assert(spec_positions(s, b) == cur);
            if cur.contains(x) {
                let k = choose|k: int| 0 <= k < cur.len() && cur[k] == x;
                if k < prev.len() {
                    assert(prev[k] == x);
                    assert(prev.contains(x));
                }
            }
            if x < s.len() && s[x as int] == b {
                if x < rest.len() {
                    assert(rest[x as int] == s[x as int]);
                    let k = choose|k: int| 0 <= k < prev.len() && prev[k] == x;
                    assert(cur[k] == x);
                } else {
                    assert(cur[prev.len() as int] == x);
                }
            }
        } else {
            if x < s.len() && s[x as int] == b {
                assert(x < rest.len());
                assert(rest[x as int] == s[x as int]);
            }
            if prev.contains(x) {
                assert(rest[x as int] == s[x as int]);
            }
        }
    }
}

proof fn lemma_first_appearance_distinct(s: Seq<u32>)
    ensures
        spec_first_appearance(s).no_duplicates(),
    decreases s.len(),
{
    if s.len() > 0 {
        lemma_first_appearance_distinct(s.drop_last());
        let prev = spec_first_appearance(s.drop_last());
        if !prev.contains(s.last()) {
            let cur = prev.push(s.last());
            assert forall|i: int, j: int|
                0 <= i < cur.len() && 0 <= j < cur.len() && i != j implies cur[i] != cur[j] by {
                if i < prev.len() && j < prev.len() {
                } else if i < prev.len() {
                    assert(prev[i] == cur[i]);
                } else if j < prev.len() {
                    assert(prev[j] == cur[j]);
                }
            }
        }
    }
}

/// Grouping switched shunts by bus keeps each bus once, and puts every row in
/// the group of its own bus and in no other.
pub proof fn law_grouping_partition(buses: Seq<u32>, i: int, b: u32)
    requires
        buses.len() <= usize::MAX,
        0 <= i < buses.len(),
    ensures
        spec_first_appearance(buses).no_duplicates(),
        spec_first_appearance(buses).contains(buses[i]),
        spec_positions(buses, b).contains(i as usize) <==> b == buses[i],
{
    lemma_first_appearance_distinct(buses);
    lemma_first_appearance_contains(buses, buses[i]);
    assert(buses.contains(buses[i]));
    lemma_positions_exact(buses, b, i as usize);
}

/// The number of steps of the first `nb` banks.
pub open spec fn spec_shunt_steps(counts: Seq<u32>, nb: int) -> int
    decreases nb,
{
    if nb <= 0 {
        0
    } else {
        spec_shunt_steps(counts, nb - 1) + spec_step_count(counts[nb - 1])
    }
}

/// The number of steps of all banks of the first `ns` shunts.
pub open spec fn spec_total_steps(shunts: Seq<(u8, Seq<u32>)>, ns: int) -> int
    decreases ns,
{
    if ns <= 0 {
        0
    } else {
        spec_total_steps(shunts, ns - 1) + spec_shunt_steps(shunts[ns - 1].1, shunts[ns - 1].1.len() as int)
    }
}

proof fn lemma_shunt_rows_len(i: int, counts: Seq<u32>, status: bool, nb: int)
    ensures
        spec_shunt_rows(i, counts, status, nb).len() == spec_shunt_steps(counts, nb),
    decreases nb,
{
    if nb > 0 {
        lemma_shunt_rows_len(i, counts, status, nb - 1);
    }
}

/// The bank table has exactly one row per step of each bank of each shunt.
pub proof fn law_bank_rows_count(shunts: Seq<(u8, Seq<u32>)>, ns: int)
    ensures
        spec_bank_layout(shunts, ns).len() == spec_total_steps(shunts, ns),
    decreases ns,
{
    if ns > 0 {
        law_bank_rows_count(shunts, ns - 1);
        let s = shunts[ns - 1];
        lemma_shunt_rows_len(ns - 1, s.1, s.0 != 0, s.1.len() as int);
    }
}


proof fn lemma_concat_contains<A>(a: Seq<A>, b: Seq<A>, x: A)
    ensures
        (a + b).contains(x) <==> a.contains(x) || b.contains(x),
{
    if (a + b).contains(x) {
        let k = choose|k: int| 0 <= k < (a + b).len() && (a + b)[k] == x;
        if k < a.len() {
            assert(a[k] == x);
        } else {
            assert(b[k - a.len()] == x);
        }
    }
    if a.contains(x) {
        let k = choose|k: int| 0 <= k < a.len() && a[k] == x;
        assert((a + b)[k] == x);
    }
    if b.contains(x) {
        let k = choose|k: int| 0 <= k < b.len() && b[k] == x;
        assert((a + b)[k + a.len()] == x);
    }
}

proof fn lemma_tag_if_contains(t: Seq<char>, needle: Seq<char>, tag: Seq<char>, x: Seq<char>)
    ensures
        spec_tag_if(t, needle, tag).contains(x) <==> (spec_contains(t, needle) && x == tag),
{
    if spec_contains(t, needle) {
        assert(seq![tag][0] == tag);
    }
}

proof fn lemma_tags_contain(title: Seq<char>, x: Seq<char>)
    ensures
        ({
            let t = spec_lower(title);
            spec_infer_scenario_tags(title).contains(x) <==> {
            ||| (spec_contains(t, "onpeak"@) && x == "onpeak"@)
            ||| (spec_contains(t, "offpeak"@) && x == "offpeak"@)
            ||| (spec_contains(t, "summerpeak"@) && x == "summer_peak"@)
            ||| (spec_contains(t, "winter"@) && x == "winter"@)
            ||| (spec_contains(t, "dynamic"@) && x == "dynamic"@)
            ||| (spec_contains(t, "static"@) && x == "static"@)
            ||| (spec_contains(t, "gfm"@) && x == "gfm"@)
            ||| (spec_contains(t, "ibr"@) && x == "ibr"@)
            }
        }),
{
    let t = spec_lower(title);
    let p1 = spec_tag_if(t, "onpeak"@, "onpeak"@);
    let p2 = spec_tag_if(t, "offpeak"@, "offpeak"@);
    let p3 = spec_tag_if(t, "summerpeak"@, "summer_peak"@);
    let p4 = spec_tag_if(t, "winter"@, "winter"@);
    let p5 = spec_tag_if(t, "dynamic"@, "dynamic"@);
    let p6 = spec_tag_if(t, "static"@, "static"@);
    let p7 = spec_tag_if(t, "gfm"@, "gfm"@);
    let p8 = spec_tag_if(t, "ibr"@, "ibr"@);
    lemma_concat_contains(p1, p2, x);
    lemma_concat_contains(p1 + p2, p3, x);
    lemma_concat_contains(p1 + p2 + p3, p4, x);
    lemma_concat_contains(p1 + p2 + p3 + p4, p5, x);
    lemma_concat_contains(p1 + p2 + p3 + p4 + p5, p6, x);
    lemma_concat_contains(p1 + p2 + p3 + p4 + p5 + p6, p7, x);
    lemma_concat_contains(p1 + p2 + p3 + p4 + p5 + p6 + p7, p8, x);
    lemma_tag_if_contains(t, "onpeak"@, "onpeak"@, x);
    lemma_tag_if_contains(t, "offpeak"@, "offpeak"@, x);
    lemma_tag_if_contains(t, "summerpeak"@, "summer_peak"@, x);
    lemma_tag_if_contains(t, "winter"@, "winter"@, x);
    lemma_tag_if_contains(t, "dynamic"@, "dynamic"@, x);
    lemma_tag_if_contains(t, "static"@, "static"@, x);
    lemma_tag_if_contains(t, "gfm"@, "gfm"@, x);
    lemma_tag_if_contains(t, "ibr"@, "ibr"@, x);
}

/// Each scenario tag is inferred exactly when the lower-cased title names it:
/// `onpeak`, `offpeak`, `summerpeak` (tag `summer_peak`), `winter`, `dynamic`,
/// `static`, `gfm`, `ibr`.
pub proof fn law_scenario_tags_follow_title(title: Seq<char>)
    ensures
        spec_infer_scenario_tags(title).contains("onpeak"@) <==> spec_contains(spec_lower(title), "onpeak"@),
        spec_infer_scenario_tags(title).contains("offpeak"@) <==> spec_contains(spec_lower(title), "offpeak"@),
        spec_infer_scenario_tags(title).contains("summer_peak"@) <==> spec_contains(spec_lower(title), "summerpeak"@),
        spec_infer_scenario_tags(title).contains("winter"@) <==> spec_contains(spec_lower(title), "winter"@),
        spec_infer_scenario_tags(title).contains("dynamic"@) <==> spec_contains(spec_lower(title), "dynamic"@),
        spec_infer_scenario_tags(title).contains("static"@) <==> spec_contains(spec_lower(title), "static"@),
        spec_infer_scenario_tags(title).contains("gfm"@) <==> spec_contains(spec_lower(title), "gfm"@),
        spec_infer_scenario_tags(title).contains("ibr"@) <==> spec_contains(spec_lower(title), "ibr"@),
{
    reveal_strlit("onpeak");
    reveal_strlit("offpeak");
    reveal_strlit("summer_peak");
    reveal_strlit("winter");
    reveal_strlit("dynamic");
    reveal_strlit("static");
    reveal_strlit("gfm");
    reveal_strlit("ibr");
    assert("onpeak"@ != "offpeak"@) by {
        assert("onpeak"@.len() != "offpeak"@.len());
    }
    assert("onpeak"@ != "summer_peak"@) by {
        assert("onpeak"@.len() != "summer_peak"@.len());
    }
    assert("onpeak"@ != "winter"@) by {
        assert("onpeak"@[0] != "winter"@[0]);
    }
    assert("onpeak"@ != "dynamic"@) by {
        assert("onpeak"@.len() != "dynamic"@.len());
    }
    assert("onpeak"@ != "static"@) by {
        assert("onpeak"@[0] != "static"@[0]);
    }
    assert("onpeak"@ != "gfm"@) by {
        assert("onpeak"@.len() != "gfm"@.len());
    }
    assert("onpeak"@ != "ibr"@) by {
        assert("onpeak"@.len() != "ibr"@.len());
    }
    assert("offpeak"@ != "summer_peak"@) by {
        assert("offpeak"@.len() != "summer_peak"@.len());
    }
    assert("offpeak"@ != "winter"@) by {
        assert("offpeak"@.len() != "winter"@.len());
    }
    assert("offpeak"@ != "dynamic"@) by {
        assert("offpeak"@[0] != "dynamic"@[0]);
    }
    assert("offpeak"@ != "static"@) by {
        assert("offpeak"@.len() != "static"@.len());
    }
    assert("offpeak"@ != "gfm"@) by {
        assert("offpeak"@.len() != "gfm"@.len());
    }
    assert("offpeak"@ != "ibr"@) by {
        assert("offpeak"@.len() != "ibr"@.len());
    }
    assert("summer_peak"@ != "winter"@) by {
        assert("summer_peak"@.len() != "winter"@.len());
    }
    assert("summer_peak"@ != "dynamic"@) by {
        assert("summer_peak"@.len() != "dynamic"@.len());
    }
    assert("summer_peak"@ != "static"@) by {
        assert("summer_peak"@.len() != "static"@.len());
    }
    assert("summer_peak"@ != "gfm"@) by {
        assert("summer_peak"@.len() != "gfm"@.len());
    }
    assert("summer_peak"@ != "ibr"@) by {
        assert("summer_peak"@.len() != "ibr"@.len());
    }
    assert("winter"@ != "dynamic"@) by {
        assert("winter"@.len() != "dynamic"@.len());
    }
    assert("winter"@ != "static"@) by {
        assert("winter"@[0] != "static"@[0]);
    }
    assert("winter"@ != "gfm"@) by {
        assert("winter"@.len() != "gfm"@.len());
    }
    assert("winter"@ != "ibr"@) by {
        assert("winter"@.len() != "ibr"@.len());
    }
    assert("dynamic"@ != "static"@) by {
        assert("dynamic"@.len() != "static"@.len());
    }
    assert("dynamic"@ != "gfm"@) by {
        assert("dynamic"@.len() != "gfm"@.len());
    }
    assert("dynamic"@ != "ibr"@) by {
        assert("dynamic"@.len() != "ibr"@.len());
    }
    assert("static"@ != "gfm"@) by {
        assert("static"@.len() != "gfm"@.len());
    }
    assert("static"@ != "ibr"@) by {
        assert("static"@.len() != "ibr"@.len());
    }
    assert("gfm"@ != "ibr"@) by {
        assert("gfm"@[0] != "ibr"@[0]);
    }

    lemma_tags_contain(title, "onpeak"@);
    lemma_tags_contain(title, "offpeak"@);
    lemma_tags_contain(title, "summer_peak"@);
    lemma_tags_contain(title, "winter"@);
    lemma_tags_contain(title, "dynamic"@);
    lemma_tags_contain(title, "static"@);
    lemma_tags_contain(title, "gfm"@);
    lemma_tags_contain(title, "ibr"@);
}


/// A merged switched shunt is out of service (status 0) as soon as any one of its
/// members is, wherever that member stands in the group; when none is, it keeps
/// the status of its first member.
pub proof fn law_merged_status(sv: Seq<SwitchedShuntView>, m: Seq<usize>, j: int)
    requires
        m.len() > 0,
    ensures
        0 <= j < m.len() && sv[m[j] as int].status == 0 ==> spec_group_status(sv, m) == 0,
        (forall|k: int| 0 <= k < m.len() ==> sv[m[k] as int].status != 0) ==> spec_group_status(
            sv,
            m,
        ) == sv[m[0] as int].status,
        spec_group_status(sv, m) == 0 || spec_group_status(sv, m) == sv[m[0] as int].status,
{
    if 0 <= j < m.len() && sv[m[j] as int].status == 0 {
        assert(exists|q: int| 0 <= q < m.len() && #[trigger] sv[m[q] as int].status == 0);
    }
}

/// The merged bank pairs are the members' bank pairs one member after the other:
/// their count is the sum of the members' counts.
pub proof fn law_merged_pairs_len(sv: Seq<SwitchedShuntView>, m: Seq<usize>, k: int)
    requires
        0 <= k <= m.len(),
    ensures
        spec_group_pairs(sv, m.subrange(0, k)).len() <= spec_group_pairs(sv, m).len(),
        m.len() > 0 ==> spec_group_pairs(sv, m).subrange(
            spec_group_pairs(sv, m.drop_last()).len() as int,
            spec_group_pairs(sv, m).len() as int,
        ) == sv[m.last() as int].bank_pairs,
    decreases m.len() - k,
{
    if k < m.len() {
        law_merged_pairs_len(sv, m.drop_last(), if k <= m.len() - 1 { k } else { m.len() - 1 });
        assert(m.drop_last().subrange(0, k) =~= m.subrange(0, k));
    } else {
        assert(m.subrange(0, k) =~= m);
    }
    if m.len() > 0 {
        let p = spec_group_pairs(sv, m.drop_last());
        let q = sv[m.last() as int].bank_pairs;
        assert((p + q).subrange(p.len() as int, (p + q).len() as int) =~= q);
    }
}


/// The IBR subtype follows the lower-cased model family: `bess` or `battery` gives
/// `battery`; otherwise `solar` or `pv` gives `solar`; otherwise `wind` gives
/// `wind`; any other family is `generic_ibr`.
pub proof fn law_ibr_subtype_names(family: Seq<char>)
    ensures
        ({
            let f = spec_lower(family);
            let battery = spec_contains(f, "bess"@) || spec_contains(f, "battery"@);
            let solar = spec_contains(f, "solar"@) || spec_contains(f, "pv"@);
            let wind = spec_contains(f, "wind"@);
            &&& battery ==> spec_canonical_ibr_subtype(family) == "battery"@
            &&& !battery && solar ==> spec_canonical_ibr_subtype(family) == "solar"@
            &&& !battery && !solar && wind ==> spec_canonical_ibr_subtype(family) == "wind"@
            &&& !battery && !solar && !wind ==> spec_canonical_ibr_subtype(family) == "generic_ibr"@
        }),
{
}

/// A title naming `planning`, `2030` or `future` (any letter case) is a planning
/// study; else one naming `onpeak`, `offpeak` or `operations` is an operations
/// study; any other title names no purpose.
pub proof fn law_study_purpose_from_title(title: Seq<char>)
    ensures
        ({
            let t = spec_lower(title);
            let planning = spec_contains(t, "planning"@) || spec_contains(t, "2030"@)
                || spec_contains(t, "future"@);
            let operations = spec_contains(t, "onpeak"@) || spec_contains(t, "offpeak"@)
                || spec_contains(t, "operations"@);
            &&& planning ==> spec_infer_study_purpose(title) == Some("planning"@)
            &&& !planning && operations ==> spec_infer_study_purpose(title) == Some(
                "operations"@,
            )
            &&& !planning && !operations ==> spec_infer_study_purpose(title) is None
        }),
{
}

/// A generator regulates a remote bus exactly when `ireg` is neither zero nor its
/// own bus, and then that bus is `ireg`.
pub proof fn law_controlled_bus(bus: u32, ireg: u32)
    ensures
        spec_controlled_bus_id(bus, ireg) is None <==> (ireg == 0 || ireg == bus),
        spec_controlled_bus_id(bus, ireg) matches Some(b) ==> b == ireg && b != 0 && b != bus,
{
}

} // verus!
