//! EPC data records and how each is read from its tokenised lines.
//!
//! A record is a primary line followed by the continuation lines that a trailing
//! `/` announces (see `epc`). Real-valued fields hold the literal text of their token (see
//! `fields`); `None` there means the field takes its default: 1.0 for the bus
//! voltages and the turns ratio, zero for every other field.

use vstd::prelude::*;
use crate::fields::{
    index_after, opt_text, spec_tok_num, spec_tok_text, spec_tok_u32, spec_tok_u32_opt,
    spec_tok_u8, tok_num, tok_text, tok_u32, tok_u32_opt, tok_u8,
};
use crate::num::{is_float_literal, parse_u32, spec_is_float_literal, spec_parse_u32};
use crate::text::chars_to_string;
use crate::tokenize::{colon_position, spec_colon_pos, tokens_view};

verus! {

// ---------------------------------------------------------------------------
// Record types
// ---------------------------------------------------------------------------

/// A `bus data` record.
pub struct BusRecord {
    pub number: u32,
    pub name: String,
    pub kv: Option<String>,
    /// PSLF bus type code (`0` swing, `1` load, `2` generator, `3` swing).
    pub ty: u8,
    /// Scheduled voltage (pu): the regulation target (1.0 when absent).
    pub vsched: Option<String>,
    /// Voltage magnitude (pu) of the stored operating point (1.0 when absent).
    pub volt: Option<String>,
    /// Voltage angle (degrees) of the stored operating point.
    pub angle: Option<String>,
    pub area: u32,
    pub zone: u32,
}

/// A `load data` record.
pub struct LoadRecord {
    pub bus: u32,
    pub id: String,
    pub p: Option<String>,
    pub q: Option<String>,
    pub status: u8,
}

/// A `generator data` record.
pub struct GeneratorRecord {
    pub bus: u32,
    pub id: String,
    pub status: u8,
    /// Remote regulated bus (`0` = local regulation).
    pub ireg: u32,
    pub pg: Option<String>,
    pub pt: Option<String>,
    pub pb: Option<String>,
    pub qg: Option<String>,
    pub qt: Option<String>,
    pub qb: Option<String>,
    pub mbase: Option<String>,
    /// Voltage setpoint from the first continuation line.
    pub vs: Option<String>,
}

/// A `branch data` record (impedances in pu on the system base).
pub struct BranchRecord {
    pub from_bus: u32,
    pub to_bus: u32,
    pub ckt: String,
    pub r: Option<String>,
    pub x: Option<String>,
    pub b: Option<String>,
    pub rate_a: Option<String>,
    pub rate_b: Option<String>,
    pub rate_c: Option<String>,
    pub status: u8,
    pub from_name: String,
    pub to_name: String,
}

/// A `transformer data` record.
pub struct TransformerRecord {
    pub from_bus: u32,
    pub to_bus: u32,
    pub ckt: String,
    pub status: u8,
    pub r: Option<String>,
    pub x: Option<String>,
    /// Nominal voltage of the primary winding.
    pub from_kv: Option<String>,
    /// Nominal voltage of the secondary winding.
    pub to_kv: Option<String>,
    pub rate_a: Option<String>,
    pub rate_b: Option<String>,
    pub rate_c: Option<String>,
    /// Off-nominal turns ratio candidate (WINDV), to be used only when it is at most 5.
    pub tap: Option<String>,
}

/// A `svd data` record: a switched shunt,
/// `bus "name" kv "id" "long_id" : status type ... b ... vband ...`.
pub struct SwitchedShuntRecord {
    pub bus: u32,
    pub id: String,
    pub status: u8,
    /// Initial switched susceptance (pu on the system base), colon offset 9.
    pub b_init: Option<String>,
    /// Voltage band (pu), colon offset 12.
    pub vband: Option<String>,
    /// `(steps, susceptance per step)` bank pairs: the floating-point literals of
    /// the continuation line taken two by two (a step count that is not an
    /// unsigned integer counts as zero).
    pub bank_pairs: Vec<(u32, String)>,
}

/// An `area data` record: `number "name" swing_bus net_interchange ...`.
pub struct AreaRecord {
    pub number: u32,
    pub name: String,
    pub swing_bus: u32,
    /// Desired net interchange (MW).
    pub desired_net_interchange: Option<String>,
}

/// A `zone data` record: `number "name" ...`.
#[derive(Debug, Clone)]
pub struct Zone {
    pub number: u32,
    pub name: String,
}

/// An `owner data` record: `number "name" ...`.
#[derive(Debug, Clone)]
pub struct Owner {
    pub number: u32,
    pub name: String,
}

/// A DC bus (DC sections are not read; cases carry none).
#[derive(Debug, Clone)]
pub struct DcBus {
    pub number: u32,
    pub name: String,
}

/// A DC converter (DC sections are not read; cases carry none).
#[derive(Debug, Clone)]
pub struct DcConverter {
    pub id: String,
}

/// One data record of an EPC case.
pub enum Record {
    Bus(BusRecord),
    Load(LoadRecord),
    Generator(GeneratorRecord),
    Branch(BranchRecord),
    Transformer(TransformerRecord),
    SwitchedShunt(SwitchedShuntRecord),
    Area(AreaRecord),
    Zone(Zone),
    Owner(Owner),
}

/// The kinds of record section.
#[derive(PartialEq, Eq, Structural, Clone, Copy)]
pub enum SectionKind {
    Bus,
    Load,
    Generator,
    Branch,
    Transformer,
    SwitchedShunt,
    Area,
    Zone,
    Owner,
}

// ---------------------------------------------------------------------------
// Views
// ---------------------------------------------------------------------------

pub struct BusView {
    pub number: u32,
    pub name: Seq<char>,
    pub kv: Option<Seq<char>>,
    pub ty: u8,
    pub vsched: Option<Seq<char>>,
    pub volt: Option<Seq<char>>,
    pub angle: Option<Seq<char>>,
    pub area: u32,
    pub zone: u32,
}

pub struct LoadView {
    pub bus: u32,
    pub id: Seq<char>,
    pub p: Option<Seq<char>>,
    pub q: Option<Seq<char>>,
    pub status: u8,
}

pub struct GeneratorView {
    pub bus: u32,
    pub id: Seq<char>,
    pub status: u8,
    pub ireg: u32,
    pub pg: Option<Seq<char>>,
    pub pt: Option<Seq<char>>,
    pub pb: Option<Seq<char>>,
    pub qg: Option<Seq<char>>,
    pub qt: Option<Seq<char>>,
    pub qb: Option<Seq<char>>,
    pub mbase: Option<Seq<char>>,
    pub vs: Option<Seq<char>>,
}

pub struct BranchView {
    pub from_bus: u32,
    pub to_bus: u32,
    pub ckt: Seq<char>,
    pub r: Option<Seq<char>>,
    pub x: Option<Seq<char>>,
    pub b: Option<Seq<char>>,
    pub rate_a: Option<Seq<char>>,
    pub rate_b: Option<Seq<char>>,
    pub rate_c: Option<Seq<char>>,
    pub status: u8,
    pub from_name: Seq<char>,
    pub to_name: Seq<char>,
}

pub struct TransformerView {
    pub from_bus: u32,
    pub to_bus: u32,
    pub ckt: Seq<char>,
    pub status: u8,
    pub r: Option<Seq<char>>,
    pub x: Option<Seq<char>>,
    pub from_kv: Option<Seq<char>>,
    pub to_kv: Option<Seq<char>>,
    pub rate_a: Option<Seq<char>>,
    pub rate_b: Option<Seq<char>>,
    pub rate_c: Option<Seq<char>>,
    pub tap: Option<Seq<char>>,
}

pub struct SwitchedShuntView {
    pub bus: u32,
    pub id: Seq<char>,
    pub status: u8,
    pub b_init: Option<Seq<char>>,
    pub vband: Option<Seq<char>>,
    pub bank_pairs: Seq<(u32, Seq<char>)>,
}

pub struct AreaView {
    pub number: u32,
    pub name: Seq<char>,
    pub swing_bus: u32,
    pub desired_net_interchange: Option<Seq<char>>,
}

/// A zone or owner: its number and name.
pub struct NamedView {
    pub number: u32,
    pub name: Seq<char>,
}

pub enum RecordView {
    Bus(BusView),
    Load(LoadView),
    Generator(GeneratorView),
    Branch(BranchView),
    Transformer(TransformerView),
    SwitchedShunt(SwitchedShuntView),
    Area(AreaView),
    Zone(NamedView),
    Owner(NamedView),
}

pub open spec fn pairs_view(v: Seq<(u32, String)>) -> Seq<(u32, Seq<char>)> {
    v.map_values(|p: (u32, String)| (p.0, p.1@))
}

impl View for SwitchedShuntRecord {
    type V = SwitchedShuntView;

    open spec fn view(&self) -> SwitchedShuntView {
        SwitchedShuntView {
            bus: self.bus,
            id: self.id@,
            status: self.status,
            b_init: opt_text(self.b_init),
            vband: opt_text(self.vband),
            bank_pairs: pairs_view(self.bank_pairs@),
        }
    }
}

impl View for AreaRecord {
    type V = AreaView;

    open spec fn view(&self) -> AreaView {
        AreaView {
            number: self.number,
            name: self.name@,
            swing_bus: self.swing_bus,
            desired_net_interchange: opt_text(self.desired_net_interchange),
        }
    }
}

impl View for Zone {
    type V = NamedView;

    open spec fn view(&self) -> NamedView {
        NamedView { number: self.number, name: self.name@ }
    }
}

impl View for Owner {
    type V = NamedView;

    open spec fn view(&self) -> NamedView {
        NamedView { number: self.number, name: self.name@ }
    }
}

impl View for BusRecord {
    type V = BusView;

    open spec fn view(&self) -> BusView {
        BusView {
            number: self.number,
            name: self.name@,
            kv: opt_text(self.kv),
            ty: self.ty,
            vsched: opt_text(self.vsched),
            volt: opt_text(self.volt),
            angle: opt_text(self.angle),
            area: self.area,
            zone: self.zone,
        }
    }
}

impl View for LoadRecord {
    type V = LoadView;

    open spec fn view(&self) -> LoadView {
        LoadView {
            bus: self.bus,
            id: self.id@,
            p: opt_text(self.p),
            q: opt_text(self.q),
            status: self.status,
        }
    }
}

impl View for GeneratorRecord {
    type V = GeneratorView;

    open spec fn view(&self) -> GeneratorView {
        GeneratorView {
            bus: self.bus,
            id: self.id@,
            status: self.status,
            ireg: self.ireg,
            pg: opt_text(self.pg),
            pt: opt_text(self.pt),
            pb: opt_text(self.pb),
            qg: opt_text(self.qg),
            qt: opt_text(self.qt),
            qb: opt_text(self.qb),
            mbase: opt_text(self.mbase),
            vs: opt_text(self.vs),
        }
    }
}

impl View for BranchRecord {
    type V = BranchView;

    open spec fn view(&self) -> BranchView {
        BranchView {
            from_bus: self.from_bus,
            to_bus: self.to_bus,
            ckt: self.ckt@,
            r: opt_text(self.r),
            x: opt_text(self.x),
            b: opt_text(self.b),
            rate_a: opt_text(self.rate_a),
            rate_b: opt_text(self.rate_b),
            rate_c: opt_text(self.rate_c),
            status: self.status,
            from_name: self.from_name@,
            to_name: self.to_name@,
        }
    }
}

impl View for TransformerRecord {
    type V = TransformerView;

    open spec fn view(&self) -> TransformerView {
        TransformerView {
            from_bus: self.from_bus,
            to_bus: self.to_bus,
            ckt: self.ckt@,
            status: self.status,
            r: opt_text(self.r),
            x: opt_text(self.x),
            from_kv: opt_text(self.from_kv),
            to_kv: opt_text(self.to_kv),
            rate_a: opt_text(self.rate_a),
            rate_b: opt_text(self.rate_b),
            rate_c: opt_text(self.rate_c),
            tap: opt_text(self.tap),
        }
    }
}

impl View for Record {
    type V = RecordView;

    open spec fn view(&self) -> RecordView {
        match self {
            Record::Bus(b) => RecordView::Bus(b@),
            Record::Load(l) => RecordView::Load(l@),
            Record::Generator(g) => RecordView::Generator(g@),
            Record::Branch(b) => RecordView::Branch(b@),
            Record::Transformer(t) => RecordView::Transformer(t@),
            Record::SwitchedShunt(x) => RecordView::SwitchedShunt(x@),
            Record::Area(a) => RecordView::Area(a@),
            Record::Zone(z) => RecordView::Zone(z@),
            Record::Owner(o) => RecordView::Owner(o@),
        }
    }
}

// ---------------------------------------------------------------------------
// Reading one record
// ---------------------------------------------------------------------------

/// A `bus data` record from its primary tokens:
/// `number "name" kv ... : ty vsched volt angle area zone ...`.
pub open spec fn spec_bus_of(t: Seq<Seq<char>>) -> Option<BusView> {
    if t.len() < 4 {
        None
    } else {
        match (spec_tok_u32_opt(t, 0), spec_colon_pos(t)) {
            (Some(number), Some(c)) => Some(
                BusView {
                    number,
                    name: spec_tok_text(t, 1, ""@),
                    kv: spec_tok_num(t, 2),
                    ty: spec_tok_u8(t, c + 1, 1),
                    vsched: spec_tok_num(t, c + 2),
                    volt: spec_tok_num(t, c + 3),
                    angle: spec_tok_num(t, c + 4),
                    area: spec_tok_u32(t, c + 5, 0),
                    zone: spec_tok_u32(t, c + 6, 0),
                },
            ),
            _ => None,
        }
    }
}

/// A `load data` record: `bus ... id ... : status p q ...`.
pub open spec fn spec_load_of(t: Seq<Seq<char>>) -> Option<LoadView> {
    match (spec_colon_pos(t), spec_tok_u32_opt(t, 0)) {
        (Some(c), Some(bus)) => Some(
            LoadView {
                bus,
                id: spec_tok_text(t, 3, "1"@),
                p: spec_tok_num(t, c + 2),
                q: spec_tok_num(t, c + 3),
                status: spec_tok_u8(t, c + 1, 1),
            },
        ),
        _ => None,
    }
}

/// A `generator data` record: primary tokens after the colon are
/// `status ireg ... pg pt pb qg qt qb mbase` at offsets 1, 2, 9..=15;
/// the first continuation line carries `vs` at token 4.
pub open spec fn spec_generator_of(t: Seq<Seq<char>>, cont: Seq<Seq<Seq<char>>>) -> Option<
    GeneratorView,
> {
    match (spec_colon_pos(t), spec_tok_u32_opt(t, 0)) {
        (Some(c), Some(bus)) => Some(
            GeneratorView {
                bus,
                id: spec_tok_text(t, 3, "1"@),
                status: spec_tok_u8(t, c + 1, 1),
                ireg: spec_tok_u32(t, c + 2, 0),
                pg: spec_tok_num(t, c + 9),
                pt: spec_tok_num(t, c + 10),
                pb: spec_tok_num(t, c + 11),
                qg: spec_tok_num(t, c + 12),
                qt: spec_tok_num(t, c + 13),
                qb: spec_tok_num(t, c + 14),
                mbase: spec_tok_num(t, c + 15),
                vs: if cont.len() > 0 {
                    spec_tok_num(cont[0], 4)
                } else {
                    None
                },
            },
        ),
        _ => None,
    }
}

/// A `branch data` record:
/// `from "from_name" kv to "to_name" kv ckt ... : status r x b rate_a rate_b rate_c ...`.
pub open spec fn spec_branch_of(t: Seq<Seq<char>>) -> Option<BranchView> {
    match (spec_colon_pos(t), spec_tok_u32_opt(t, 0), spec_tok_u32_opt(t, 3)) {
        (Some(c), Some(from_bus), Some(to_bus)) => Some(
            BranchView {
                from_bus,
                to_bus,
                ckt: spec_tok_text(t, 6, "1"@),
                r: spec_tok_num(t, c + 2),
                x: spec_tok_num(t, c + 3),
                b: spec_tok_num(t, c + 4),
                rate_a: spec_tok_num(t, c + 5),
                rate_b: spec_tok_num(t, c + 6),
                rate_c: spec_tok_num(t, c + 7),
                status: spec_tok_u8(t, c + 1, 1),
                from_name: spec_tok_text(t, 1, ""@),
                to_name: spec_tok_text(t, 4, ""@),
            },
        ),
        _ => None,
    }
}

/// The floating-point literal tokens of a line, in order.
pub open spec fn spec_numerics(t: Seq<Seq<char>>) -> Seq<Seq<char>> {
    t.filter(|s: Seq<char>| spec_is_float_literal(s))
}

/// The `k`-th floating-point literal token of a line.
pub open spec fn spec_numeric_at(t: Seq<Seq<char>>, k: int) -> Option<Seq<char>> {
    let n = spec_numerics(t);
    if 0 <= k < n.len() {
        Some(n[k])
    } else {
        None
    }
}

/// A `transformer data` record. The primary line ends with the numerics
/// `tbase ps_r ps_x pt_r pt_x ts_r ts_x`, of which `ps_r`/`ps_x` are the series
/// impedance (when the line has fewer than seven numerics, the tokens at colon
/// offsets 5 and 6 are used); the winding nominal voltages are the first two
/// tokens and the ratings tokens 6..=8 of the first continuation line, and the
/// turns ratio is the second numeric of the second one.
pub open spec fn spec_transformer_of(t: Seq<Seq<char>>, cont: Seq<Seq<Seq<char>>>) -> Option<
    TransformerView,
> {
    if t.len() < 8 {
        None
    } else {
        match (spec_tok_u32_opt(t, 0), spec_tok_u32_opt(t, 3), spec_colon_pos(t)) {
            (Some(from_bus), Some(to_bus), Some(c)) => {
                let n = spec_numerics(t).len();
                Some(
                    TransformerView {
                        from_bus,
                        to_bus,
                        ckt: spec_tok_text(t, 6, "1"@),
                        status: spec_tok_u8(t, c + 1, 1),
                        r: if n >= 7 {
                            spec_numeric_at(t, n - 6)
                        } else {
                            spec_tok_num(t, c + 5)
                        },
                        x: if n >= 7 {
                            spec_numeric_at(t, n - 5)
                        } else {
                            spec_tok_num(t, c + 6)
                        },
                        from_kv: if cont.len() > 0 {
                            spec_tok_num(cont[0], 0)
                        } else {
                            None
                        },
                        to_kv: if cont.len() > 0 {
                            spec_tok_num(cont[0], 1)
                        } else {
                            None
                        },
                        rate_a: if cont.len() > 0 {
                            spec_tok_num(cont[0], 6)
                        } else {
                            None
                        },
                        rate_b: if cont.len() > 0 {
                            spec_tok_num(cont[0], 7)
                        } else {
                            None
                        },
                        rate_c: if cont.len() > 0 {
                            spec_tok_num(cont[0], 8)
                        } else {
                            None
                        },
                        tap: if cont.len() > 1 {
                            spec_numeric_at(cont[1], 1)
                        } else {
                            None
                        },
                    },
                )
            },
            _ => None,
        }
    }
}

/// The bank pairs of a numeric sequence: its elements taken two by two.
pub open spec fn spec_bank_pairs(n: Seq<Seq<char>>) -> Seq<(u32, Seq<char>)> {
    Seq::new(
        n.len() / 2,
        |k: int|
            (
                match spec_parse_u32(n[2 * k]) {
                    Some(v) => v,
                    None => 0u32,
                },
                n[2 * k + 1],
            ),
    )
}

/// A `svd data` record: status, `b` and `vband` at colon offsets 1, 9 and 12; the
/// bank pairs come from the numerics of the continuation line.
pub open spec fn spec_switched_shunt_of(t: Seq<Seq<char>>, cont: Seq<Seq<Seq<char>>>) -> Option<
    SwitchedShuntView,
> {
    match (spec_colon_pos(t), spec_tok_u32_opt(t, 0)) {
        (Some(c), Some(bus)) => Some(
            SwitchedShuntView {
                bus,
                id: spec_tok_text(t, 3, "1"@),
                status: spec_tok_u8(t, c + 1, 1),
                b_init: spec_tok_num(t, c + 9),
                vband: spec_tok_num(t, c + 12),
                bank_pairs: if cont.len() > 0 {
                    spec_bank_pairs(spec_numerics(cont[0]))
                } else {
                    Seq::empty()
                },
            },
        ),
        _ => None,
    }
}

/// An `area data` record.
pub open spec fn spec_area_of(t: Seq<Seq<char>>) -> Option<AreaView> {
    match spec_tok_u32_opt(t, 0) {
        Some(number) => Some(
            AreaView {
                number,
                name: spec_tok_text(t, 1, ""@),
                swing_bus: spec_tok_u32(t, 2, 0),
                desired_net_interchange: spec_tok_num(t, 3),
            },
        ),
        None => None,
    }
}

/// A `zone data` or `owner data` record.
pub open spec fn spec_named_of(t: Seq<Seq<char>>) -> Option<NamedView> {
    match spec_tok_u32_opt(t, 0) {
        Some(number) => Some(NamedView { number, name: spec_tok_text(t, 1, ""@) }),
        None => None,
    }
}

/// The record of the given kind read from a primary line and its continuation lines.
pub open spec fn spec_record_of(
    kind: SectionKind,
    t: Seq<Seq<char>>,
    cont: Seq<Seq<Seq<char>>>,
) -> Option<RecordView> {
    match kind {
        SectionKind::Bus => match spec_bus_of(t) {
            Some(v) => Some(RecordView::Bus(v)),
            None => None,
        },
        SectionKind::Load => match spec_load_of(t) {
            Some(v) => Some(RecordView::Load(v)),
            None => None,
        },
        SectionKind::Generator => match spec_generator_of(t, cont) {
            Some(v) => Some(RecordView::Generator(v)),
            None => None,
        },
        SectionKind::Branch => match spec_branch_of(t) {
            Some(v) => Some(RecordView::Branch(v)),
            None => None,
        },
        SectionKind::Transformer => match spec_transformer_of(t, cont) {
            Some(v) => Some(RecordView::Transformer(v)),
            None => None,
        },
        SectionKind::SwitchedShunt => match spec_switched_shunt_of(t, cont) {
            Some(v) => Some(RecordView::SwitchedShunt(v)),
            None => None,
        },
        SectionKind::Area => match spec_area_of(t) {
            Some(v) => Some(RecordView::Area(v)),
            None => None,
        },
        SectionKind::Zone => match spec_named_of(t) {
            Some(v) => Some(RecordView::Zone(v)),
            None => None,
        },
        SectionKind::Owner => match spec_named_of(t) {
            Some(v) => Some(RecordView::Owner(v)),
            None => None,
        },
    }
}

/// Continuation lines as token sequences.
pub open spec fn conts_view(c: Seq<Vec<Vec<char>>>) -> Seq<Seq<Seq<char>>> {
    c.map_values(|l: Vec<Vec<char>>| tokens_view(l@))
}

pub fn parse_bus_record(t: &Vec<Vec<char>>) -> (r: Option<BusRecord>)
    ensures
        match r {
            Some(b) => spec_bus_of(tokens_view(t@)) == Some(b@),
            None => spec_bus_of(tokens_view(t@)) is None,
        },
{
    let tlen = t.len();
    assert(tokens_view(t@).len() == tlen);
    if t.len() < 4 {
        return None;
    }
    let number = match tok_u32_opt(t, 0) {
        Some(v) => v,
        None => return None,
    };
    let c = match colon_position(t) {
        Some(c) => c,
        None => return None,
    };
    Some(
        BusRecord {
            number,
            name: tok_text(t, 1, ""),
            kv: tok_num(t, 2),
            ty: tok_u8(t, index_after(c, 1), 1),
            vsched: tok_num(t, index_after(c, 2)),
            volt: tok_num(t, index_after(c, 3)),
            angle: tok_num(t, index_after(c, 4)),
            area: tok_u32(t, index_after(c, 5), 0),
            zone: tok_u32(t, index_after(c, 6), 0),
        },
    )
}

pub fn parse_load_record(t: &Vec<Vec<char>>) -> (r: Option<LoadRecord>)
    ensures
        match r {
            Some(l) => spec_load_of(tokens_view(t@)) == Some(l@),
            None => spec_load_of(tokens_view(t@)) is None,
        },
{
    let tlen = t.len();
    assert(tokens_view(t@).len() == tlen);
    let c = match colon_position(t) {
        Some(c) => c,
        None => return None,
    };
    let bus = match tok_u32_opt(t, 0) {
        Some(v) => v,
        None => return None,
    };
    Some(
        LoadRecord {
            bus,
            id: tok_text(t, 3, "1"),
            p: tok_num(t, index_after(c, 2)),
            q: tok_num(t, index_after(c, 3)),
            status: tok_u8(t, index_after(c, 1), 1),
        },
    )
}

pub fn parse_generator_record(t: &Vec<Vec<char>>, cont: &Vec<Vec<Vec<char>>>) -> (r: Option<
    GeneratorRecord,
>)
    ensures
        match r {
            Some(g) => spec_generator_of(tokens_view(t@), conts_view(cont@)) == Some(g@),
            None => spec_generator_of(tokens_view(t@), conts_view(cont@)) is None,
        },
{
    let tlen = t.len();
    assert(tokens_view(t@).len() == tlen);
    let c = match colon_position(t) {
        Some(c) => c,
        None => return None,
    };
    let bus = match tok_u32_opt(t, 0) {
        Some(v) => v,
        None => return None,
    };
    let vs = if cont.len() > 0 {
        tok_num(&cont[0], 4)
    } else {
        None
    };
    Some(
        GeneratorRecord {
            bus,
            id: tok_text(t, 3, "1"),
            status: tok_u8(t, index_after(c, 1), 1),
            ireg: tok_u32(t, index_after(c, 2), 0),
            pg: tok_num(t, index_after(c, 9)),
            pt: tok_num(t, index_after(c, 10)),
            pb: tok_num(t, index_after(c, 11)),
            qg: tok_num(t, index_after(c, 12)),
            qt: tok_num(t, index_after(c, 13)),
            qb: tok_num(t, index_after(c, 14)),
            mbase: tok_num(t, index_after(c, 15)),
            vs,
        },
    )
}

pub fn parse_branch_record(t: &Vec<Vec<char>>) -> (r: Option<BranchRecord>)
    ensures
        match r {
            Some(b) => spec_branch_of(tokens_view(t@)) == Some(b@),
            None => spec_branch_of(tokens_view(t@)) is None,
        },
{
    let tlen = t.len();
    assert(tokens_view(t@).len() == tlen);
    let c = match colon_position(t) {
        Some(c) => c,
        None => return None,
    };
    let from_bus = match tok_u32_opt(t, 0) {
        Some(v) => v,
        None => return None,
    };
    let to_bus = match tok_u32_opt(t, 3) {
        Some(v) => v,
        None => return None,
    };
    Some(
        BranchRecord {
            from_bus,
            to_bus,
            ckt: tok_text(t, 6, "1"),
            r: tok_num(t, index_after(c, 2)),
            x: tok_num(t, index_after(c, 3)),
            b: tok_num(t, index_after(c, 4)),
            rate_a: tok_num(t, index_after(c, 5)),
            rate_b: tok_num(t, index_after(c, 6)),
            rate_c: tok_num(t, index_after(c, 7)),
            status: tok_u8(t, index_after(c, 1), 1),
            from_name: tok_text(t, 1, ""),
            to_name: tok_text(t, 4, ""),
        },
    )
}

/// The floating-point literal tokens of a line.
pub fn numerics(t: &Vec<Vec<char>>) -> (r: Vec<Vec<char>>)
    ensures
        tokens_view(r@) == spec_numerics(tokens_view(t@)),
{
    let mut r: Vec<Vec<char>> = Vec::new();
    let mut i: usize = 0;
    while i < t.len()
        invariant
            i <= t.len(),
            tokens_view(r@) == spec_numerics(tokens_view(t@).subrange(0, i as int)),
        decreases t.len() - i,
    {
        let ghost tv = tokens_view(t@);
        proof {
            reveal_with_fuel(Seq::<_>::filter, 1);
        }
        assert(tv.subrange(0, i + 1).drop_last() =~= tv.subrange(0, i as int));
        assert(tv.subrange(0, i + 1).last() == t@[i as int]@);
        if is_float_literal(&t[i]) {
            let ghost before = tokens_view(r@);
            r.push(t[i].clone());
            assert(tokens_view(r@) =~= before.push(t@[i as int]@));
        }
        i = i + 1;
    }
    assert(tokens_view(t@).subrange(0, t@.len() as int) =~= tokens_view(t@));
    r
}

fn numeric_at(n: &Vec<Vec<char>>, k: usize) -> (r: Option<String>)
    ensures
        opt_text(r) == (if k < n@.len() {
            Some(n@[k as int]@)
        } else {
            None::<Seq<char>>
        }),
{
    if k < n.len() {
        Some(chars_to_string(&n[k]))
    } else {
        None
    }
}

pub fn parse_transformer_record(t: &Vec<Vec<char>>, cont: &Vec<Vec<Vec<char>>>) -> (r: Option<
    TransformerRecord,
>)
    ensures
        match r {
            Some(x) => spec_transformer_of(tokens_view(t@), conts_view(cont@)) == Some(x@),
            None => spec_transformer_of(tokens_view(t@), conts_view(cont@)) is None,
        },
{
    let tlen = t.len();
    assert(tokens_view(t@).len() == tlen);
    if t.len() < 8 {
        return None;
    }
    let from_bus = match tok_u32_opt(t, 0) {
        Some(v) => v,
        None => return None,
    };
    let to_bus = match tok_u32_opt(t, 3) {
        Some(v) => v,
        None => return None,
    };
    let c = match colon_position(t) {
        Some(c) => c,
        None => return None,
    };
    let nums = numerics(t);
    let n = nums.len();
    let (r, x) = if n >= 7 {
        (numeric_at(&nums, n - 6), numeric_at(&nums, n - 5))
    } else {
        (tok_num(t, index_after(c, 5)), tok_num(t, index_after(c, 6)))
    };
    let (from_kv, to_kv, rate_a, rate_b, rate_c) = if cont.len() > 0 {
        (
            tok_num(&cont[0], 0),
            tok_num(&cont[0], 1),
            tok_num(&cont[0], 6),
            tok_num(&cont[0], 7),
            tok_num(&cont[0], 8),
        )
    } else {
        (None, None, None, None, None)
    };
    let tap = if cont.len() > 1 {
        let n1 = numerics(&cont[1]);
        numeric_at(&n1, 1)
    } else {
        None
    };
    Some(
        TransformerRecord {
            from_bus,
            to_bus,
            ckt: tok_text(t, 6, "1"),
            status: tok_u8(t, index_after(c, 1), 1),
            r,
            x,
            from_kv,
            to_kv,
            rate_a,
            rate_b,
            rate_c,
            tap,
        },
    )
}

fn bank_pairs(n: &Vec<Vec<char>>) -> (r: Vec<(u32, String)>)
    ensures
        pairs_view(r@) == spec_bank_pairs(tokens_view(n@)),
{
    let ghost nv = tokens_view(n@);
    let ghost target = spec_bank_pairs(nv);
    let half = n.len() / 2;
    let mut r: Vec<(u32, String)> = Vec::new();
    let mut k: usize = 0;
    while k < half
        invariant
            half == n@.len() / 2,
            n@.len() <= usize::MAX,
            k <= half,
            nv == tokens_view(n@),
            target == spec_bank_pairs(nv),
            pairs_view(r@) == target.subrange(0, k as int),
        decreases half - k,
    {
        let a = k + k;
        let b = a + 1;
        assert(b < n@.len());
        let count = match parse_u32(&n[a]) {
            Some(v) => v,
            None => 0,
        };
        let step = chars_to_string(&n[b]);
        let ghost before = pairs_view(r@);
        r.push((count, step));
        proof {
            assert(nv[2 * k as int] == n@[2 * k as int]@);
            assert(nv[2 * k + 1] == n@[2 * k + 1]@);
            assert(pairs_view(r@) =~= before.push(target[k as int]));
            assert(target.subrange(0, k + 1) =~= target.subrange(0, k as int).push(
                target[k as int],
            ));
        }
        k = k + 1;
    }
    assert(target.subrange(0, target.len() as int) =~= target);
    r
}

pub fn parse_switched_shunt_record(t: &Vec<Vec<char>>, cont: &Vec<Vec<Vec<char>>>) -> (r: Option<
    SwitchedShuntRecord,
>)
    ensures
        match r {
            Some(x) => spec_switched_shunt_of(tokens_view(t@), conts_view(cont@)) == Some(x@),
            None => spec_switched_shunt_of(tokens_view(t@), conts_view(cont@)) is None,
        },
{
    let tlen = t.len();
    assert(tokens_view(t@).len() == tlen);
    let c = match colon_position(t) {
        Some(c) => c,
        None => return None,
    };
    let bus = match tok_u32_opt(t, 0) {
        Some(v) => v,
        None => return None,
    };
    let pairs = if cont.len() > 0 {
        assert(conts_view(cont@)[0] == tokens_view(cont@[0]@));
        let n = numerics(&cont[0]);
        bank_pairs(&n)
    } else {
        let none: Vec<(u32, String)> = Vec::new();
        assert(pairs_view(none@) =~= Seq::<(u32, Seq<char>)>::empty());
        none
    };
    assert(pairs_view(pairs@) == (if conts_view(cont@).len() > 0 {
        spec_bank_pairs(spec_numerics(conts_view(cont@)[0]))
    } else {
        Seq::<(u32, Seq<char>)>::empty()
    }));
    Some(
        SwitchedShuntRecord {
            bus,
            id: tok_text(t, 3, "1"),
            status: tok_u8(t, index_after(c, 1), 1),
            b_init: tok_num(t, index_after(c, 9)),
            vband: tok_num(t, index_after(c, 12)),
            bank_pairs: pairs,
        },
    )
}

pub fn parse_area_record(t: &Vec<Vec<char>>) -> (r: Option<AreaRecord>)
    ensures
        match r {
            Some(a) => spec_area_of(tokens_view(t@)) == Some(a@),
            None => spec_area_of(tokens_view(t@)) is None,
        },
{
    match tok_u32_opt(t, 0) {
        Some(number) => Some(
            AreaRecord {
                number,
                name: tok_text(t, 1, ""),
                swing_bus: tok_u32(t, 2, 0),
                desired_net_interchange: tok_num(t, 3),
            },
        ),
        None => None,
    }
}

fn parse_named(t: &Vec<Vec<char>>) -> (r: Option<(u32, String)>)
    ensures
        match r {
            Some(x) => spec_named_of(tokens_view(t@)) == Some(NamedView { number: x.0, name: x.1@ }),
            None => spec_named_of(tokens_view(t@)) is None,
        },
{
    match tok_u32_opt(t, 0) {
        Some(number) => Some((number, tok_text(t, 1, ""))),
        None => None,
    }
}

/// The record of kind `kind` read from primary tokens `t` and continuation lines `cont`.
pub fn parse_record(kind: SectionKind, t: &Vec<Vec<char>>, cont: &Vec<Vec<Vec<char>>>) -> (r:
    Option<Record>)
    ensures
        match r {
            Some(rec) => spec_record_of(kind, tokens_view(t@), conts_view(cont@)) == Some(rec@),
            None => spec_record_of(kind, tokens_view(t@), conts_view(cont@)) is None,
        },
{
    match kind {
        SectionKind::Bus => match parse_bus_record(t) {
            Some(v) => Some(Record::Bus(v)),
            None => None,
        },
        SectionKind::Load => match parse_load_record(t) {
            Some(v) => Some(Record::Load(v)),
            None => None,
        },
        SectionKind::Generator => match parse_generator_record(t, cont) {
            Some(v) => Some(Record::Generator(v)),
            None => None,
        },
        SectionKind::Branch => match parse_branch_record(t) {
            Some(v) => Some(Record::Branch(v)),
            None => None,
        },
        SectionKind::Transformer => match parse_transformer_record(t, cont) {
            Some(v) => Some(Record::Transformer(v)),
            None => None,
        },
        SectionKind::SwitchedShunt => match parse_switched_shunt_record(t, cont) {
            Some(v) => Some(Record::SwitchedShunt(v)),
            None => None,
        },
        SectionKind::Area => match parse_area_record(t) {
            Some(v) => Some(Record::Area(v)),
            None => None,
        },
        SectionKind::Zone => match parse_named(t) {
            Some((number, name)) => Some(Record::Zone(Zone { number, name })),
            None => None,
        },
        SectionKind::Owner => match parse_named(t) {
            Some((number, name)) => Some(Record::Owner(Owner { number, name })),
            None => None,
        },
    }
}


/// Fields missing from a record line take the format's defaults: with nothing
/// after the colon, a bus is a load bus (type 1) at no stated voltage in area and
/// zone 0, and loads, generators, branches, transformers and switched shunts are
/// in service (status 1) with no stated values; a generator then regulates its own
/// bus (`ireg` 0). A missing unit or circuit id is `1`.
pub proof fn law_missing_fields_take_defaults(t: Seq<Seq<char>>, cont: Seq<Seq<Seq<char>>>, c: int)
    requires
        spec_colon_pos(t) == Some(c),
        c + 1 == t.len(),
    ensures
        spec_bus_of(t) matches Some(b) ==> b.ty == 1 && b.vsched is None && b.volt is None
            && b.angle is None && b.area == 0 && b.zone == 0,
        spec_load_of(t) matches Some(l) ==> l.status == 1 && l.p is None && l.q is None && (t.len()
            <= 3 ==> l.id == "1"@),
        spec_generator_of(t, cont) matches Some(g) ==> g.status == 1 && g.ireg == 0 && g.pg is None
            && g.qt is None && g.qb is None && g.mbase is None && (t.len() <= 3 ==> g.id == "1"@),
        spec_branch_of(t) matches Some(b) ==> b.status == 1 && b.r is None && b.x is None
            && b.rate_a is None,
        spec_transformer_of(t, cont) matches Some(x) ==> x.status == 1,
        spec_switched_shunt_of(t, cont) matches Some(x) ==> x.status == 1 && x.b_init is None
            && x.vband is None,
{
}

} // verus!
