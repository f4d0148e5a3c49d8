use raptrix_pslf_rs::dyd::{extract_dyd_generators, parse_dyd, DydGeneratorRecord};
use raptrix_pslf_rs::epc::parse_epc;
use raptrix_pslf_rs::export::{
    canonical_bus_type_code, canonical_ibr_subtype, classify_bus_types,
    classify_loads_zip_fidelity_presence, compute_case_fingerprint,
    compute_ibr_subtype_by_generator, consolidate_switched_shunts_by_bus,
    derive_switched_shunt_banks, generator_controlled_bus_id, infer_scenario_tags,
    infer_study_purpose, lookup_ibr_subtype, merge_switched_shunts, positive_bank_step_counts,
    BankStepRow, BusType, GeneratorQSanitizationStats, ShuntBankCounts,
};
use raptrix_pslf_rs::records::{Record, SwitchedShuntRecord};
use raptrix_pslf_rs::num::{is_float_literal, parse_u32, parse_u8, push_decimal};
use raptrix_pslf_rs::options::{ExportError, TransformerRepresentationMode};
use raptrix_pslf_rs::plan::{check_scenario_context, plan_export, ExportOptions};
use raptrix_pslf_rs::validation::{
    run_basic_checks, validate_pslf_epc, Severity, ValidationIssue, ValidationReport,
};

fn lines(text: &str) -> Vec<String> {
    text.lines().map(|l| l.to_string()).collect()
}

fn chars(s: &str) -> Vec<char> {
    s.chars().collect()
}

const CASE: &str = "\
title
Texas test 2030 planning onpeak summerpeak
bus data
1 \"SWING\" 138.0 \" \" 0 : 0 1.0 1.0 0.0 1 1
2 \"PLANT\" 138.0 \" \" 0 : 2 1.0 1.0 0.0 1 1
3 \"OFFLINE PLANT\" 138.0 \" \" 0 : 2 1.0 1.0 0.0 1 1
4 \"LOAD\" 138.0 \" \" 0 : 1 1.0 1.0 0.0 1 1
5 \"OLD SWING\" 138.0 \" \" 0 : 3 1.0 1.0 0.0 1 1
generator data
2 \"PLANT\" 138.0 \"S1\" \" \" : 1 0
3 \"OFFLINE PLANT\" 138.0 \"G1\" \" \" : 0 0
2 \"PLANT\" 138.0 \"W1\" \" \" : 1 0
load data
4 \"LOAD\" 138.0 \"1\" \" \" : 1 10.0 2.0
";

const DYD: &str = "\
repc_a 2 \"PLANT\" 138.0 \"S1\" : 50.0
genrou 3 \"OFFLINE PLANT\" 138.0 \"G1\" : 100.0
repc_a 3 \"OFFLINE PLANT\" 138.0 \"G1\" : 100.0
repc_a 2 \"PLANT\" 138.0 \"W1\" : 10.0
";

fn dyd_gens() -> Vec<DydGeneratorRecord> {
    extract_dyd_generators(&parse_dyd(&lines(DYD)))
}

#[test]
fn fingerprint_counts_title_bytes_and_records() {
    let case = parse_epc(&lines(CASE));
    assert_eq!(compute_case_fingerprint(&case), "pslf:42:5:3:1");
    let unicode = parse_epc(&lines("title\nMéxico\n"));
    assert_eq!(compute_case_fingerprint(&unicode), "pslf:7:0:0:0");
}

#[test]
fn bus_types_follow_the_online_machine_gate() {
    let case = parse_epc(&lines(CASE));
    assert_eq!(
        classify_bus_types(&case),
        vec![BusType::Slack, BusType::PV, BusType::PQ, BusType::PQ, BusType::Slack]
    );
    assert_eq!(canonical_bus_type_code(0, false), BusType::Slack);
    assert_eq!(canonical_bus_type_code(3, true), BusType::Slack);
    assert_eq!(canonical_bus_type_code(2, true), BusType::PV);
    assert_eq!(canonical_bus_type_code(2, false), BusType::PQ);
    assert_eq!(canonical_bus_type_code(1, true), BusType::PQ);
    assert_eq!(canonical_bus_type_code(7, true), BusType::PQ);
    assert_eq!(BusType::Slack.token(), "Slack");
    assert_eq!(BusType::PV.token(), "PV");
    assert_eq!(BusType::PQ.token(), "PQ");
}

#[test]
fn ibr_subtypes_only_for_online_inverter_units() {
    let case = parse_epc(&lines(CASE));
    let entries = compute_ibr_subtype_by_generator(&case, &dyd_gens());
    // S1 and W1 at bus 2 are in service and REPC-driven; G1 is out of service.
    assert_eq!(entries.len(), 2);
    assert_eq!(lookup_ibr_subtype(&entries, 2, &"S1".to_string()), Some("generic_ibr".to_string()));
    assert_eq!(lookup_ibr_subtype(&entries, 2, &"W1".to_string()), Some("generic_ibr".to_string()));
    assert_eq!(lookup_ibr_subtype(&entries, 3, &"G1".to_string()), None);
    assert_eq!(lookup_ibr_subtype(&entries, 9, &"S1".to_string()), None);
}

#[test]
fn ibr_subtype_names() {
    assert_eq!(canonical_ibr_subtype("REGC_BESS"), "battery");
    assert_eq!(canonical_ibr_subtype("battery_store"), "battery");
    assert_eq!(canonical_ibr_subtype("SolarFarm"), "solar");
    assert_eq!(canonical_ibr_subtype("pvd1"), "solar");
    assert_eq!(canonical_ibr_subtype("WindTurbine"), "wind");
    assert_eq!(canonical_ibr_subtype("repc_a"), "generic_ibr");
}

#[test]
fn controlled_bus_is_none_for_local_regulation() {
    assert_eq!(generator_controlled_bus_id(5, 0), None);
    assert_eq!(generator_controlled_bus_id(5, 5), None);
    assert_eq!(generator_controlled_bus_id(5, 7), Some(7));
}

#[test]
fn study_purpose_and_tags_from_title() {
    assert_eq!(infer_study_purpose("Future 2030 case"), Some("planning".to_string()));
    assert_eq!(infer_study_purpose("OFFPEAK ops"), Some("operations".to_string()));
    assert_eq!(infer_study_purpose("Texas base"), None);
    assert_eq!(
        infer_scenario_tags("IBR heavy SummerPeak onpeak dynamic"),
        vec!["onpeak", "summer_peak", "dynamic", "ibr"]
    );
    assert!(infer_scenario_tags("plain").is_empty());
    let case = parse_epc(&lines(CASE));
    assert_eq!(classify_loads_zip_fidelity_presence(&case), "not_available");
}

#[test]
fn bank_rows_one_per_step() {
    let shunts = vec![
        ShuntBankCounts { status: 1, step_counts: vec![2, 0, 1] },
        ShuntBankCounts { status: 0, step_counts: vec![1] },
    ];
    let rows = derive_switched_shunt_banks(&shunts);
    let row = |shunt_id, bank_id, step, status, shunt_index, bank_index| BankStepRow {
        shunt_id,
        bank_id,
        step,
        status,
        shunt_index,
        bank_index,
    };
    assert_eq!(
        rows,
        vec![
            row(1, 1, 1, true, 0, 0),
            row(1, 1, 2, true, 0, 0),
            row(1, 3, 1, true, 0, 2),
            row(2, 1, 1, false, 1, 0),
        ]
    );
    assert!(derive_switched_shunt_banks(&vec![]).is_empty());
}

#[test]
fn shunts_grouped_by_bus_in_first_appearance_order() {
    let (order, groups) = consolidate_switched_shunts_by_bus(&vec![7, 3, 7, 9, 3, 7]);
    assert_eq!(order, vec![7, 3, 9]);
    assert_eq!(groups, vec![vec![0, 2, 5], vec![1, 4], vec![3]]);
    let (o2, g2) = consolidate_switched_shunts_by_bus(&vec![]);
    assert!(o2.is_empty() && g2.is_empty());
}

#[test]
fn sanitization_stats_emptiness() {
    let s = GeneratorQSanitizationStats::default();
    assert!(s.is_empty());
    let t = GeneratorQSanitizationStats { swapped_q_limits: 0, clamped_nonfinite_q_min: 0, clamped_nonfinite_q_max: 2 };
    assert!(!t.is_empty());
}

#[test]
fn integer_and_float_token_reading() {
    assert_eq!(parse_u32(&chars("110001")), Some(110001));
    assert_eq!(parse_u32(&chars("+12")), Some(12));
    assert_eq!(parse_u32(&chars("4294967295")), Some(4294967295));
    assert_eq!(parse_u32(&chars("4294967296")), None);
    assert_eq!(parse_u32(&chars("-1")), None);
    assert_eq!(parse_u32(&chars("")), None);
    assert_eq!(parse_u32(&chars("1.0")), None);
    assert_eq!(parse_u8(&chars("255")), Some(255));
    assert_eq!(parse_u8(&chars("256")), None);
    for ok in ["1", "-2.5", "+.5", "1e3", "1.E-3", "inf", "-Infinity", "NaN", "007."] {
        assert!(is_float_literal(&chars(ok)), "{ok} should read as a float");
        assert!(ok.parse::<f64>().is_ok());
    }
    for bad in ["", ".", "e3", "1e", "1.2.3", "--1", "infinit", "0x10", " 1"] {
        assert!(!is_float_literal(&chars(bad)), "{bad} should not read as a float");
        assert!(bad.parse::<f64>().is_err());
    }
    let mut s = String::from("n=");
    push_decimal(&mut s, 0);
    push_decimal(&mut s, 18446744073709551615);
    assert_eq!(s, "n=018446744073709551615");
}

#[test]
fn plan_collects_the_export_decisions() {
    let case = parse_epc(&lines(CASE));
    let flat = vec![true; 5];
    let plan = match plan_export(&case, &dyd_gens(), &flat, &ExportOptions::default()) {
        Ok(p) => p,
        Err(_) => panic!("a default export must be planned"),
    };
    assert_eq!(plan.case_fingerprint, "pslf:42:5:3:1");
    assert_eq!(plan.case_mode, "flat_start_planning");
    assert_eq!(plan.default_shunt_control_mode, Some("planning_full".to_string()));
    assert_eq!(plan.study_purpose, Some("planning".to_string()));
    assert_eq!(plan.scenario_tags, vec!["onpeak", "summer_peak"]);
    assert!(plan.has_ibr);
    assert_eq!(plan.ibr_subtypes.len(), 2);
    assert_eq!(plan.bus_types.len(), 5);
}

#[test]
fn plan_honours_overrides() {
    let case = parse_epc(&lines(CASE));
    let options = ExportOptions {
        transformer_representation_mode: TransformerRepresentationMode::Expanded,
        study_purpose: Some("research".to_string()),
        scenario_tags: vec!["custom".to_string()],
        case_mode_override: Some(" solved_snapshot".to_string()),
        default_shunt_control_mode_override: None,
        scenario_context_row_count: 0,
    };
    let plan = match plan_export(&case, &vec![], &vec![false], &options) {
        Ok(p) => p,
        Err(_) => panic!("valid overrides must be accepted"),
    };
    assert_eq!(plan.case_mode, "solved_snapshot");
    assert_eq!(plan.default_shunt_control_mode, None);
    assert_eq!(plan.study_purpose, Some("research".to_string()));
    assert_eq!(plan.scenario_tags, vec!["custom"]);
    assert!(!plan.has_ibr);
}

#[test]
fn plan_refuses_scenario_rows_then_bad_case_modes() {
    let case = parse_epc(&lines(CASE));
    let mut options = ExportOptions::default();
    options.scenario_context_row_count = 1;
    options.case_mode_override = Some("bogus".to_string());
    match plan_export(&case, &vec![], &vec![], &options) {
        Err(e) => {
            assert!(matches!(e, ExportError::ScenarioContextUnsupported));
            assert_eq!(
                e.message(),
                "scenario_context_rows is non-empty, but optional `scenario_context` root emission is unsupported in this build's Arrow IPC path. Omit scenario_context_rows for standard PSLF exports."
            );
        }
        Ok(_) => panic!("scenario rows must be refused"),
    }
    assert!(check_scenario_context(&options).is_err());
    options.scenario_context_row_count = 0;
    assert!(check_scenario_context(&options).is_ok());
    match plan_export(&case, &vec![], &vec![], &options) {
        Err(e) => assert!(matches!(e, ExportError::InvalidCaseMode(raw) if raw == "bogus")),
        Ok(_) => panic!("an unknown case mode must be refused"),
    }
}

#[test]
fn validation_reports() {
    let report = validate_pslf_epc(&lines(CASE));
    assert!(report.is_clean());
    assert_eq!(report.summary_lines(), vec!["[raptrix-pslf-rs] validation: no issues found"]);
    let case = parse_epc(&lines(CASE));
    assert!(run_basic_checks(&case).issues.is_empty());
    let report = ValidationReport {
        issues: vec![
            ValidationIssue { severity: Severity::Warning, code: "W1".to_string(), message: "odd".to_string() },
            ValidationIssue { severity: Severity::Error, code: "E7".to_string(), message: "bad".to_string() },
        ],
    };
    assert!(!report.is_clean());
    assert_eq!(
        report.summary_lines(),
        vec![
            "[raptrix-pslf-rs] validation: 2 issue(s)",
            "  WARN  [W1] odd",
            "  ERROR [E7] bad",
        ]
    );
    assert!(Severity::Info < Severity::Warning && Severity::Warning < Severity::Error);
    assert_eq!(Severity::Info.label(), "INFO ");
}

#[test]
fn validation_requires_bus_data() {
    let report = validate_pslf_epc(&lines("title\nempty case\n"));
    assert!(!report.is_clean());
    assert_eq!(
        report.summary_lines(),
        vec![
            "[raptrix-pslf-rs] validation: 2 issue(s)",
            "  ERROR [EPC_NO_BUS_DATA] case has no bus data records",
            "  WARN  [EPC_NO_GENERATOR_DATA] case has no generator data records",
        ]
    );
    let buses_only = validate_pslf_epc(&lines(
        "bus data\n1 \"A\" 1.0 \" \" 0 : 0 1.0 1.0 0.0 1 1\n",
    ));
    assert!(buses_only.is_clean());
    assert_eq!(buses_only.issues.len(), 1);
    assert_eq!(buses_only.issues[0].severity, Severity::Warning);
}

#[test]
fn only_positive_banks_keep_their_steps() {
    assert_eq!(
        positive_bank_step_counts(&vec![(2, true), (3, false), (4, true)]),
        vec![2, 0, 4]
    );
}

fn svd(bus: u32, id: &str, status: u8, pairs: &[(u32, &str)]) -> SwitchedShuntRecord {
    SwitchedShuntRecord {
        bus,
        id: id.to_string(),
        status,
        b_init: None,
        vband: None,
        bank_pairs: pairs.iter().map(|(n, b)| (*n, b.to_string())).collect(),
    }
}

#[test]
fn switched_shunts_merge_per_bus() {
    let shunts = vec![
        svd(7, "a", 1, &[(2, "0.1")]),
        svd(3, "b", 1, &[]),
        svd(7, "c", 0, &[(1, "0.5"), (4, "0.2")]),
        svd(3, "d", 2, &[(1, "0.3")]),
    ];
    let merged = merge_switched_shunts(&shunts);
    assert_eq!(merged.len(), 2);
    assert_eq!((merged[0].bus, merged[0].id.as_str(), merged[0].status), (7, "a", 0));
    assert_eq!(merged[0].members, vec![0, 2]);
    assert_eq!(
        merged[0].bank_pairs,
        vec![(2, "0.1".to_string()), (1, "0.5".to_string()), (4, "0.2".to_string())]
    );
    assert_eq!((merged[1].bus, merged[1].id.as_str(), merged[1].status), (3, "b", 1));
    assert_eq!(merged[1].members, vec![1, 3]);
    assert_eq!(merged[1].bank_pairs, vec![(1, "0.3".to_string())]);
    let case = parse_epc(&lines(CASE));
    assert!(case.records.iter().all(|r| !matches!(r, Record::SwitchedShunt(_))));
}
