use std::collections::HashMap;

use raptrix_pslf_rs::export::{resolve_required_nominal_kv, validate_transformer_representation_mode};
use raptrix_pslf_rs::options::{
    detect_case_mode, resolve_case_mode, resolved_default_shunt_control_mode, ExportError,
    TransformerRepresentationMode,
};
use raptrix_pslf_rs::options::TransformerRepresentationMode::{Expanded, Native3W};

#[test]
fn transformer_mode_tokens_round_trip() {
    for m in [
        TransformerRepresentationMode::Expanded,
        TransformerRepresentationMode::Native3W,
    ] {
        assert_eq!(TransformerRepresentationMode::from_cli_value(m.as_stable_str()), Some(m));
    }
    assert_eq!(TransformerRepresentationMode::Native3W.as_stable_str(), "native_3w");
    assert_eq!(TransformerRepresentationMode::Expanded.as_stable_str(), "expanded");
}

#[test]
fn transformer_mode_cli_values() {
    assert_eq!(TransformerRepresentationMode::from_cli_value("  EXPANDED "), Some(Expanded));
    assert_eq!(TransformerRepresentationMode::from_cli_value("native"), Some(Native3W));
    assert_eq!(TransformerRepresentationMode::from_cli_value("Native-3W"), Some(Native3W));
    assert_eq!(TransformerRepresentationMode::from_cli_value("native_3w"), Some(Native3W));
    assert_eq!(TransformerRepresentationMode::from_cli_value("native3w"), None);
    assert_eq!(TransformerRepresentationMode::from_cli_value(""), None);
    assert_eq!(TransformerRepresentationMode::default(), Native3W);
}

#[test]
fn case_mode_detection() {
    assert_eq!(detect_case_mode(&vec![]), "warm_start_planning");
    assert_eq!(detect_case_mode(&vec![true, true]), "flat_start_planning");
    assert_eq!(detect_case_mode(&vec![true, false]), "warm_start_planning");
}

#[test]
fn case_mode_overrides() {
    assert_eq!(
        resolve_case_mode(Some("  solved_snapshot "), &vec![true]).ok(),
        Some("solved_snapshot".to_string())
    );
    assert_eq!(
        resolve_case_mode(None, &vec![true]).ok(),
        Some("flat_start_planning".to_string())
    );
    match resolve_case_mode(Some("Solved_Snapshot"), &vec![]) {
        Err(e) => {
            assert!(matches!(&e, ExportError::InvalidCaseMode(raw) if raw == "Solved_Snapshot"));
            assert_eq!(
                e.message(),
                "invalid case_mode override 'Solved_Snapshot'; expected one of: flat_start_planning, warm_start_planning, solved_snapshot, hour_ahead_advisory"
            );
        }
        Ok(_) => panic!("an unknown case mode must be refused"),
    }
}

#[test]
fn shunt_control_mode_handoff() {
    assert_eq!(
        resolved_default_shunt_control_mode("flat_start_planning", None),
        Some("planning_full".to_string())
    );
    assert_eq!(
        resolved_default_shunt_control_mode("hour_ahead_advisory", None),
        Some("planning_full".to_string())
    );
    assert_eq!(resolved_default_shunt_control_mode("solved_snapshot", None), None);
    assert_eq!(
        resolved_default_shunt_control_mode("solved_snapshot", Some(" locked ")),
        Some("locked".to_string())
    );
    assert_eq!(resolved_default_shunt_control_mode("warm_start_planning", Some("  ")), None);
}

#[test]
fn nominal_kv_resolution_order() {
    let mut kv: HashMap<u32, f64> = HashMap::new();
    kv.insert(1, 138.0);
    kv.insert(2, 69.0);
    assert_eq!(resolve_required_nominal_kv(Some(345.0), 1, 2, &kv, "from_nominal_kv").ok(), Some(345.0));
    assert_eq!(resolve_required_nominal_kv(None, 1, 2, &kv, "from_nominal_kv").ok(), Some(138.0));
    assert_eq!(resolve_required_nominal_kv(None, 9, 2, &kv, "to_nominal_kv").ok(), Some(69.0));
    match resolve_required_nominal_kv(None, 8, 9, &kv, "to_nominal_kv") {
        Err(e) => {
            assert!(matches!(&e, ExportError::MissingNominalKv(f, 8, 9) if f == "to_nominal_kv"));
            assert_eq!(
                e.message(),
                "schema requires non-null to_nominal_kv; no valid nominal kV found for bus 8 or opposite bus 9"
            );
        }
        Ok(_) => panic!("no nominal kV is known"),
    }
}

#[test]
fn representation_mode_invariants() {
    let star = 10_000_001;
    let rows = vec![(1, 2, true), (star, 3, true), (4, star, false)];
    match validate_transformer_representation_mode(
        &rows,
        &vec![],
        TransformerRepresentationMode::Native3W,
    ) {
        Err(e) => {
            assert!(matches!(e, ExportError::ActiveStarLegsInNativeMode(1)));
            assert_eq!(
                e.message(),
                "export invariant violation: transformer mode 'native_3w' forbids active star-leg transformers_2w rows, found 1"
            );
        }
        Ok(_) => panic!("an active star leg in native mode must be refused"),
    }
    assert!(validate_transformer_representation_mode(
        &rows,
        &vec![false],
        TransformerRepresentationMode::Expanded
    )
    .is_ok());
    match validate_transformer_representation_mode(
        &vec![(1, 2, true)],
        &vec![true, false, true],
        TransformerRepresentationMode::Expanded,
    ) {
        Err(e) => {
            assert!(matches!(e, ExportError::ActiveThreeWindingInExpandedMode(2)));
            assert_eq!(
                e.message(),
                "export invariant violation: transformer mode 'expanded' requires zero active transformers_3w rows, found 2"
            );
        }
        Ok(_) => panic!("active 3-winding rows in expanded mode must be refused"),
    }
    assert!(validate_transformer_representation_mode(
        &vec![(10_000_000, 1, true)],
        &vec![true],
        TransformerRepresentationMode::Native3W
    )
    .is_ok());
}
