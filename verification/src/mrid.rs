//! Deterministic equipment identifiers (mRIDs) synthesised from bus numbers and
//! circuit identifiers.

use std::collections::HashMap;

use vstd::prelude::*;
use crate::num::{push_decimal, spec_decimal};
use crate::text::push_str;

verus! {

broadcast use vstd::std_specs::hash::group_hash_axioms;

/// Bus numbers above this value are synthetic star buses of expanded 3-winding transformers.
pub const SYNTHETIC_STAR_BUS_MIN_ID_EXCLUSIVE: u32 = 10_000_000;

pub open spec fn spec_dec32(n: u32) -> Seq<char> {
    spec_decimal(n as nat)
}

/// `BR_{from_bus}_{to_bus}_{ckt}`.
pub open spec fn spec_branch_mrid(from_bus: u32, to_bus: u32, ckt: Seq<char>) -> Seq<char> {
    "BR_"@ + spec_dec32(from_bus) + "_"@ + spec_dec32(to_bus) + "_"@ + ckt
}

/// `GEN_{bus_id}_{machine_id}`.
pub open spec fn spec_generator_mrid(bus_id: u32, machine_id: Seq<char>) -> Seq<char> {
    "GEN_"@ + spec_dec32(bus_id) + "_"@ + machine_id
}

/// `XF2_{from_bus}_{to_bus}_{ckt}`.
pub open spec fn spec_transformer_2w_mrid(from_bus: u32, to_bus: u32, ckt: Seq<char>) -> Seq<
    char,
> {
    "XF2_"@ + spec_dec32(from_bus) + "_"@ + spec_dec32(to_bus) + "_"@ + ckt
}

/// `XF3_{bus_h}_{bus_m}_{bus_l}_{ckt}`.
pub open spec fn spec_transformer_3w_mrid(bus_h: u32, bus_m: u32, bus_l: u32, ckt: Seq<char>) -> Seq<
    char,
> {
    "XF3_"@ + spec_dec32(bus_h) + "_"@ + spec_dec32(bus_m) + "_"@ + spec_dec32(bus_l) + "_"@ + ckt
}

fn push_u32(s: &mut String, n: u32)
    ensures
        final(s)@ == old(s)@ + spec_dec32(n),
{
    push_decimal(s, n as u64);
}

/// The mRID of a branch.
pub fn synth_branch_mrid(from_bus: u32, to_bus: u32, ckt: &str) -> (r: String)
    ensures
        r@ == spec_branch_mrid(from_bus, to_bus, ckt@),
{
    let mut s = String::new();
    push_str(&mut s, "BR_");
    push_u32(&mut s, from_bus);
    push_str(&mut s, "_");
    push_u32(&mut s, to_bus);
    push_str(&mut s, "_");
    push_str(&mut s, ckt);
    s
}

/// The mRID of a generating unit.
pub fn synth_generator_mrid(bus_id: u32, machine_id: &str) -> (r: String)
    ensures
        r@ == spec_generator_mrid(bus_id, machine_id@),
{
    let mut s = String::new();
    push_str(&mut s, "GEN_");
    push_u32(&mut s, bus_id);
    push_str(&mut s, "_");
    push_str(&mut s, machine_id);
    s
}

/// The mRID of a 2-winding transformer.
pub fn synth_transformer_2w_mrid(from_bus: u32, to_bus: u32, ckt: &str) -> (r: String)
    ensures
        r@ == spec_transformer_2w_mrid(from_bus, to_bus, ckt@),
{
    let mut s = String::new();
    push_str(&mut s, "XF2_");
    push_u32(&mut s, from_bus);
    push_str(&mut s, "_");
    push_u32(&mut s, to_bus);
    push_str(&mut s, "_");
    push_str(&mut s, ckt);
    s
}

/// The mRID of a 3-winding transformer.
pub fn synth_transformer_3w_mrid(bus_h: u32, bus_m: u32, bus_l: u32, ckt: &str) -> (r: String)
    ensures
        r@ == spec_transformer_3w_mrid(bus_h, bus_m, bus_l, ckt@),
{
    let mut s = String::new();
    push_str(&mut s, "XF3_");
    push_u32(&mut s, bus_h);
    push_str(&mut s, "_");
    push_u32(&mut s, bus_m);
    push_str(&mut s, "_");
    push_u32(&mut s, bus_l);
    push_str(&mut s, "_");
    push_str(&mut s, ckt);
    s
}

/// `pslf:bus:{bus}`.
pub open spec fn spec_bus_uuid(bus: u32) -> Seq<char> {
    "pslf:bus:"@ + spec_dec32(bus)
}

/// The stable identifier of a bus.
pub fn synth_bus_uuid(bus: u32) -> (r: String)
    ensures
        r@ == spec_bus_uuid(bus),
{
    let mut s = String::new();
    push_str(&mut s, "pslf:bus:");
    push_u32(&mut s, bus);
    s
}

// ---------------------------------------------------------------------------
// Star legs of expanded 3-winding transformers
// ---------------------------------------------------------------------------

/// The identifying fields of a 3-winding transformer.
pub struct Transformer3WIds {
    pub bus_h: u32,
    pub bus_m: u32,
    pub bus_l: u32,
    pub ckt: String,
    pub status: u8,
    pub star_bus_id: u32,
}

/// Leg mRIDs keyed by `(star_bus_id, endpoint_bus_id)`.
pub struct StarLegMridMap {
    legs: HashMap<u64, String>,
}

pub open spec fn spec_leg_key(star: u32, endpoint: u32) -> u64 {
    (star as int * 0x1_0000_0000 + endpoint as int) as u64
}

proof fn lemma_leg_key_injective(s1: u32, e1: u32, s2: u32, e2: u32)
    ensures
        spec_leg_key(s1, e1) == spec_leg_key(s2, e2) ==> s1 == s2 && e1 == e2,
{
    let k1 = s1 as int * 0x1_0000_0000 + e1 as int;
    let k2 = s2 as int * 0x1_0000_0000 + e2 as int;
    assert(0 <= k1 < 0x1_0000_0000_0000_0000) by (nonlinear_arith)
        requires
            k1 == s1 as int * 0x1_0000_0000 + e1 as int,
            0 <= s1 < 0x1_0000_0000,
            0 <= e1 < 0x1_0000_0000,
    ;
    assert(0 <= k2 < 0x1_0000_0000_0000_0000) by (nonlinear_arith)
        requires
            k2 == s2 as int * 0x1_0000_0000 + e2 as int,
            0 <= s2 < 0x1_0000_0000,
            0 <= e2 < 0x1_0000_0000,
    ;
    if k1 == k2 {
        assert(s1 == s2 && e1 == e2) by (nonlinear_arith)
            requires
                s1 as int * 0x1_0000_0000 + e1 as int == s2 as int * 0x1_0000_0000 + e2 as int,
                0 <= e1 < 0x1_0000_0000,
                0 <= e2 < 0x1_0000_0000,
        ;
    }
}

fn leg_key(star: u32, endpoint: u32) -> (k: u64)
    ensures
        k == spec_leg_key(star, endpoint),
{
    assert((star as int) * 0x1_0000_0000 + endpoint as int <= u64::MAX) by (nonlinear_arith)
        requires
            0 <= star < 0x1_0000_0000,
            0 <= endpoint < 0x1_0000_0000,
    ;
    (star as u64) * 0x1_0000_0000 + (endpoint as u64)
}

impl View for StarLegMridMap {
    type V = Map<(u32, u32), Seq<char>>;

    closed spec fn view(&self) -> Map<(u32, u32), Seq<char>> {
        Map::new(
            |p: (u32, u32)| self.legs@.contains_key(spec_leg_key(p.0, p.1)),
            |p: (u32, u32)| self.legs@[spec_leg_key(p.0, p.1)]@,
        )
    }
}

impl StarLegMridMap {
    /// The identifier stored for `(star, endpoint)`.
    pub fn get(&self, star: u32, endpoint: u32) -> (r: Option<String>)
        ensures
            match r {
                Some(s) => self@.contains_key((star, endpoint)) && self@[(star, endpoint)] == s@,
                None => !self@.contains_key((star, endpoint)),
            },
    {
        let k = leg_key(star, endpoint);
        match self.legs.get(&k) {
            Some(s) => Some(s.clone()),
            None => None,
        }
    }

    fn insert(&mut self, star: u32, endpoint: u32, v: String)
        ensures
            final(self)@ == old(self)@.insert((star, endpoint), v@),
    {
        let k = leg_key(star, endpoint);
        self.legs.insert(k, v);
        proof {
            assert forall|p: (u32, u32)| #[trigger] self@.contains_key(p) == old(self)@.insert(
                (star, endpoint),
                v@,
            ).contains_key(p) by {
                lemma_leg_key_injective(p.0, p.1, star, endpoint);
            }
            assert forall|p: (u32, u32)| #[trigger] self@.contains_key(p) implies self@[p]
                == old(self)@.insert((star, endpoint), v@)[p] by {
                lemma_leg_key_injective(p.0, p.1, star, endpoint);
            }
            assert(self@ =~= old(self)@.insert((star, endpoint), v@));
        }
    }
}

pub struct Transformer3WIdsView {
    pub bus_h: u32,
    pub bus_m: u32,
    pub bus_l: u32,
    pub ckt: Seq<char>,
    pub status: u8,
    pub star_bus_id: u32,
}

impl View for Transformer3WIds {
    type V = Transformer3WIdsView;

    open spec fn view(&self) -> Transformer3WIdsView {
        Transformer3WIdsView {
            bus_h: self.bus_h,
            bus_m: self.bus_m,
            bus_l: self.bus_l,
            ckt: self.ckt@,
            status: self.status,
            star_bus_id: self.star_bus_id,
        }
    }
}

pub open spec fn ids_view(v: Seq<Transformer3WIds>) -> Seq<Transformer3WIdsView> {
    v.map_values(|t: Transformer3WIds| t@)
}

/// The leg identifiers of the in-service transformers, entered in list order:
/// `(star, bus_h)`, `(star, bus_m)`, `(star, bus_l)` map to the parent mRID with
/// suffix `_H`, `_M`, `_L`; an entry made later replaces an earlier one.
pub open spec fn spec_star_leg_map(txs: Seq<Transformer3WIdsView>) -> Map<(u32, u32), Seq<char>>
    decreases txs.len(),
{
    if txs.len() == 0 {
        Map::empty()
    } else {
        let prev = spec_star_leg_map(txs.drop_last());
        let t = txs.last();
        if t.status == 0 {
            prev
        } else {
            let parent = spec_transformer_3w_mrid(t.bus_h, t.bus_m, t.bus_l, t.ckt);
            prev.insert((t.star_bus_id, t.bus_h), parent + "_H"@).insert(
                (t.star_bus_id, t.bus_m),
                parent + "_M"@,
            ).insert((t.star_bus_id, t.bus_l), parent + "_L"@)
        }
    }
}

fn suffixed(parent: &String, suffix: &str) -> (r: String)
    ensures
        r@ == parent@ + suffix@,
{
    let mut s = parent.clone();
    push_str(&mut s, suffix);
    s
}

/// Maps `(star_bus_id, endpoint_bus_id)` to `{parent_mrid}_{H|M|L}` for the legs
/// of in-service 3-winding transformers.
pub fn build_star_leg_mrid_map(transformers_3w: &Vec<Transformer3WIds>) -> (m: StarLegMridMap)
    ensures
        m@ == spec_star_leg_map(ids_view(transformers_3w@)),
{
    let mut m = StarLegMridMap { legs: HashMap::new() };
    proof {
        assert(m@ =~= Map::<(u32, u32), Seq<char>>::empty());
        assert(ids_view(transformers_3w@).subrange(0, 0) =~= Seq::<Transformer3WIdsView>::empty());
    }
    let mut i: usize = 0;
    while i < transformers_3w.len()
        invariant
            i <= transformers_3w.len(),
            m@ == spec_star_leg_map(ids_view(transformers_3w@).subrange(0, i as int)),
        decreases transformers_3w.len() - i,
    {
        let tx3 = &transformers_3w[i];
        proof {
            let sub = ids_view(transformers_3w@).subrange(0, i + 1);
            assert(sub.drop_last() =~= ids_view(transformers_3w@).subrange(0, i as int));
            assert(sub.last() == tx3@);
        }
        if tx3.status != 0 {
            let parent = synth_transformer_3w_mrid(
                tx3.bus_h,
                tx3.bus_m,
                tx3.bus_l,
                tx3.ckt.as_str(),
            );
            let star = tx3.star_bus_id;
            m.insert(star, tx3.bus_h, suffixed(&parent, "_H"));
            m.insert(star, tx3.bus_m, suffixed(&parent, "_M"));
            m.insert(star, tx3.bus_l, suffixed(&parent, "_L"));
        }
        i = i + 1;
    }
    assert(ids_view(transformers_3w@).subrange(0, transformers_3w@.len() as int) =~= ids_view(
        transformers_3w@,
    ));
    m
}

/// The mRID of a 2-winding transformer row: the leg identifier of its 3-winding
/// parent when one end is a synthetic star bus with a recorded leg, else the
/// ordinary 2-winding identifier.
pub open spec fn spec_transformer_2w_mrid_with_star_legs(
    from_bus: u32,
    to_bus: u32,
    ckt: Seq<char>,
    legs: Map<(u32, u32), Seq<char>>,
) -> Seq<char> {
    if from_bus > SYNTHETIC_STAR_BUS_MIN_ID_EXCLUSIVE && legs.contains_key((from_bus, to_bus)) {
        legs[(from_bus, to_bus)]
    } else if to_bus > SYNTHETIC_STAR_BUS_MIN_ID_EXCLUSIVE && legs.contains_key(
        (to_bus, from_bus),
    ) {
        legs[(to_bus, from_bus)]
    } else {
        spec_transformer_2w_mrid(from_bus, to_bus, ckt)
    }
}

pub fn synth_transformer_2w_mrid_with_star_legs(
    from_bus: u32,
    to_bus: u32,
    ckt: &str,
    star_leg_map: &StarLegMridMap,
) -> (r: String)
    ensures
        r@ == spec_transformer_2w_mrid_with_star_legs(from_bus, to_bus, ckt@, star_leg_map@),
{
    if from_bus > SYNTHETIC_STAR_BUS_MIN_ID_EXCLUSIVE {
        if let Some(mrid) = star_leg_map.get(from_bus, to_bus) {
            return mrid;
        }
    }
    if to_bus > SYNTHETIC_STAR_BUS_MIN_ID_EXCLUSIVE {
        if let Some(mrid) = star_leg_map.get(to_bus, from_bus) {
            return mrid;
        }
    }
    synth_transformer_2w_mrid(from_bus, to_bus, ckt)
}

/// A 2-winding row between a synthetic star bus and one end of its 3-winding
/// parent carries the parent's leg identifier (`_H`, `_M` or `_L` after the
/// parent's mRID), whichever end the row names first, when the parent is the
/// last in-service unit entered and its three ends are distinct ordinary buses.
pub proof fn law_star_leg_resolution(
    txs: Seq<Transformer3WIdsView>,
    t: Transformer3WIdsView,
    ckt: Seq<char>,
)
    requires
        t.status != 0,
        t.star_bus_id > SYNTHETIC_STAR_BUS_MIN_ID_EXCLUSIVE,
        t.bus_h <= SYNTHETIC_STAR_BUS_MIN_ID_EXCLUSIVE,
        t.bus_m <= SYNTHETIC_STAR_BUS_MIN_ID_EXCLUSIVE,
        t.bus_l <= SYNTHETIC_STAR_BUS_MIN_ID_EXCLUSIVE,
        t.bus_h != t.bus_m,
        t.bus_h != t.bus_l,
        t.bus_m != t.bus_l,
    ensures
        ({
            let legs = spec_star_leg_map(txs.push(t));
            let parent = spec_transformer_3w_mrid(t.bus_h, t.bus_m, t.bus_l, t.ckt);
            &&& spec_transformer_2w_mrid_with_star_legs(t.star_bus_id, t.bus_h, ckt, legs) == parent
                + "_H"@
            &&& spec_transformer_2w_mrid_with_star_legs(t.bus_h, t.star_bus_id, ckt, legs) == parent
                + "_H"@
            &&& spec_transformer_2w_mrid_with_star_legs(t.star_bus_id, t.bus_m, ckt, legs) == parent
                + "_M"@
            &&& spec_transformer_2w_mrid_with_star_legs(t.bus_m, t.star_bus_id, ckt, legs) == parent
                + "_M"@
            &&& spec_transformer_2w_mrid_with_star_legs(t.star_bus_id, t.bus_l, ckt, legs) == parent
                + "_L"@
            &&& spec_transformer_2w_mrid_with_star_legs(t.bus_l, t.star_bus_id, ckt, legs) == parent
                + "_L"@
        }),
{
    assert(txs.push(t).drop_last() =~= txs);
    assert(txs.push(t).last() == t);
}

/// A 2-winding row between two ordinary buses keeps its own `XF2_` identifier,
/// whatever star legs are recorded.
pub proof fn law_ordinary_rows_keep_own_mrid(
    from_bus: u32,
    to_bus: u32,
    ckt: Seq<char>,
    legs: Map<(u32, u32), Seq<char>>,
)
    requires
        from_bus <= SYNTHETIC_STAR_BUS_MIN_ID_EXCLUSIVE,
        to_bus <= SYNTHETIC_STAR_BUS_MIN_ID_EXCLUSIVE,
    ensures
        spec_transformer_2w_mrid_with_star_legs(from_bus, to_bus, ckt, legs)
            == spec_transformer_2w_mrid(from_bus, to_bus, ckt),
{
}

} // verus!
