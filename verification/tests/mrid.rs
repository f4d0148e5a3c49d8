use raptrix_pslf_rs::mrid::{
    build_star_leg_mrid_map, synth_branch_mrid, synth_bus_uuid, synth_generator_mrid,
    synth_transformer_2w_mrid, synth_transformer_2w_mrid_with_star_legs,
    synth_transformer_3w_mrid, Transformer3WIds, SYNTHETIC_STAR_BUS_MIN_ID_EXCLUSIVE,
};

#[test]
fn synth_rules_match_contract() {
    assert_eq!(synth_branch_mrid(1, 2, "1"), "BR_1_2_1");
    assert_eq!(synth_generator_mrid(100, "G1"), "GEN_100_G1");
    assert_eq!(synth_transformer_2w_mrid(10, 20, "2"), "XF2_10_20_2");
    assert_eq!(synth_transformer_3w_mrid(1, 2, 3, "1"), "XF3_1_2_3_1");
}

#[test]
fn multi_digit_numbers_are_written_in_full() {
    assert_eq!(synth_branch_mrid(110001, 4294967295, "A"), "BR_110001_4294967295_A");
    assert_eq!(synth_generator_mrid(0, ""), "GEN_0_");
    assert_eq!(synth_bus_uuid(110001), "pslf:bus:110001");
}

fn tx3(h: u32, m: u32, l: u32, ckt: &str, status: u8, star: u32) -> Transformer3WIds {
    Transformer3WIds {
        bus_h: h,
        bus_m: m,
        bus_l: l,
        ckt: ckt.to_string(),
        status,
        star_bus_id: star,
    }
}

#[test]
fn star_legs_resolve_to_parent_leg_ids() {
    let star = SYNTHETIC_STAR_BUS_MIN_ID_EXCLUSIVE + 1;
    let map = build_star_leg_mrid_map(&vec![tx3(1, 2, 3, "1", 1, star)]);
    assert_eq!(map.get(star, 1), Some("XF3_1_2_3_1_H".to_string()));
    assert_eq!(synth_transformer_2w_mrid_with_star_legs(star, 1, "9", &map), "XF3_1_2_3_1_H");
    assert_eq!(synth_transformer_2w_mrid_with_star_legs(2, star, "9", &map), "XF3_1_2_3_1_M");
    assert_eq!(synth_transformer_2w_mrid_with_star_legs(star, 3, "9", &map), "XF3_1_2_3_1_L");
}

#[test]
fn out_of_service_parents_record_no_legs() {
    let star = 20_000_000;
    let map = build_star_leg_mrid_map(&vec![tx3(1, 2, 3, "1", 0, star)]);
    assert_eq!(map.get(star, 1), None);
    assert_eq!(
        synth_transformer_2w_mrid_with_star_legs(star, 1, "1", &map),
        "XF2_20000000_1_1"
    );
}

#[test]
fn later_parents_replace_earlier_legs() {
    let star = 20_000_000;
    let map = build_star_leg_mrid_map(&vec![
        tx3(1, 2, 3, "1", 1, star),
        tx3(1, 5, 6, "2", 1, star),
    ]);
    assert_eq!(map.get(star, 1), Some("XF3_1_5_6_2_H".to_string()));
    assert_eq!(map.get(star, 2), Some("XF3_1_2_3_1_M".to_string()));
}

#[test]
fn ordinary_rows_keep_their_own_id() {
    let star = 20_000_000;
    let map = build_star_leg_mrid_map(&vec![tx3(1, 2, 3, "1", 1, star)]);
    assert_eq!(synth_transformer_2w_mrid_with_star_legs(1, 2, "1", &map), "XF2_1_2_1");
    // The star bus boundary is exclusive.
    let boundary = SYNTHETIC_STAR_BUS_MIN_ID_EXCLUSIVE;
    let map2 = build_star_leg_mrid_map(&vec![tx3(1, 2, 3, "1", 1, boundary)]);
    assert_eq!(
        synth_transformer_2w_mrid_with_star_legs(boundary, 1, "1", &map2),
        "XF2_10000000_1_1"
    );
}
