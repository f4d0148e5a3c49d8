use raptrix_pslf_rs::dyd::{extract_dyd_generators, parse_dyd};
use raptrix_pslf_rs::epc::{
    is_known_section_header, line_has_continuation, parse_branch_data, parse_epc,
    parse_one_branch_line, parse_one_bus_line, parse_one_generator_line, parse_one_load_line,
    parse_one_transformer_line, skip_section, split_whitespace, EpcCase,
};
use raptrix_pslf_rs::records::Record;
use raptrix_pslf_rs::tokenize::tokenize_pslf_line;

fn chars(s: &str) -> Vec<char> {
    s.chars().collect()
}

fn strs(v: &[Vec<char>]) -> Vec<String> {
    v.iter().map(|t| t.iter().collect::<String>()).collect()
}

fn lines(text: &str) -> Vec<String> {
    text.lines().map(|l| l.to_string()).collect()
}

const SAMPLE_EPC: &str = "\
! sample case
title
Texas test 2030 planning onpeak summerpeak
comments
a comment line
solution parameters
sbase 100.0
tap 0

substation data
1 \"SUB\" 0.0 0.0
bus data  [    2]
1 \"BUS ONE\" 138.0 \" \" 0 : 0 1.02 1.01 -2.5 7 3
2 \"BUS TWO\" 138.0 \" \" 0 : 2 1.0 1.0 0.0 7 3
end
branch data  [    1]
1 \"BUS ONE\" 138.0 2 \"BUS TWO\" 138.0 \"1 \" 1 : 1 0.01 0.1 0.02 100.0 110.0 120.0
load data  [    1]
2 \"BUS TWO\" 138.0 \"1 \" \"  \" : 1 50.0 10.0
generator data  [    1]
2 \"BUS TWO\" 138.0 \"G1\" \"  \" : 1 0 0 0 0 0 0 0 80.0 100.0 0.0 20.0 50.0 -30.0 120.0 /
  0 0 0 0 1.02
transformer data  [    1]
1 \"BUS ONE\" 138.0 3 \"BUS THREE\" 69.0 \"1 \" \"T1\" : 1 100.0 0.002 0.08 0.0 0.0 0.0 0.0 /
  138.0 69.0 0 0 0 0 100.0 110.0 120.0 /
  0.0 1.05 0.0
end
";

fn sample() -> EpcCase {
    parse_epc(&lines(SAMPLE_EPC))
}

#[test]
fn tokenizer_keeps_quoted_names_and_splits_colons() {
    let t = tokenize_pslf_line(&chars(
        "110001 \"EDNA 1 1    \" 138.0000 \" \"  0  :  1 1.037093",
    ));
    assert_eq!(
        strs(&t),
        vec!["110001", "EDNA 1 1", "138.0000", "", "0", ":", "1", "1.037093"]
    );
    let t2 = tokenize_pslf_line(&chars("a:b\tc \"x:y\""));
    assert_eq!(strs(&t2), vec!["a", ":", "b", "c", "x:y"]);
    assert!(strs(&t2).iter().all(|s| !s.contains('"')));
}

#[test]
fn tokenizer_handles_empty_and_blank_lines() {
    assert!(tokenize_pslf_line(&chars("")).is_empty());
    assert!(tokenize_pslf_line(&chars("   \t ")).is_empty());
}

#[test]
fn split_whitespace_matches_std() {
    let w = split_whitespace(&chars("  sbase\t 100.0  x "));
    assert_eq!(strs(&w), vec!["sbase", "100.0", "x"]);
}

#[test]
fn section_headers_and_continuations() {
    assert!(is_known_section_header(&chars("Bus Data  [  2]")));
    assert!(is_known_section_header(&chars("end")));
    assert!(is_known_section_header(&chars("DC bus data")));
    assert!(!is_known_section_header(&chars("1 \"BUS\" 138.0")));
    assert!(line_has_continuation(&chars("1 2 3 /")));
    assert!(!line_has_continuation(&chars("1 2 3")));
    assert!(!line_has_continuation(&chars("")));
}

#[test]
fn skip_section_stops_at_blank_comment_or_header() {
    let tl: Vec<Vec<char>> = vec![chars("1 2"), chars("3 4"), chars("! note"), chars("5")];
    assert_eq!(skip_section(&tl, 0), 2);
    let tl2: Vec<Vec<char>> = vec![chars("1 2"), chars("load data")];
    assert_eq!(skip_section(&tl2, 0), 1);
    assert_eq!(skip_section(&tl2, 2), 2);
    assert_eq!(skip_section(&tl2, 7), 7);
}

#[test]
fn parses_title_and_system_base() {
    let case = sample();
    assert_eq!(case.title, "Texas test 2030 planning onpeak summerpeak");
    assert_eq!(case.sbase, Some("100.0".to_string()));
}

#[test]
fn parses_records_in_file_order() {
    let case = sample();
    let kinds: Vec<&str> = case
        .records
        .iter()
        .map(|r| match r {
            Record::Bus(_) => "bus",
            Record::Load(_) => "load",
            Record::Generator(_) => "gen",
            Record::Branch(_) => "branch",
            Record::Transformer(_) => "xf",
            _ => "other",
        })
        .collect();
    assert_eq!(kinds, vec!["bus", "bus", "branch", "load", "gen", "xf"]);
}

#[test]
fn bus_fields() {
    let case = sample();
    match &case.records[0] {
        Record::Bus(b) => {
            assert_eq!(b.number, 1);
            assert_eq!(b.name, "BUS ONE");
            assert_eq!(b.kv, Some("138.0".to_string()));
            assert_eq!(b.ty, 0);
            assert_eq!(b.vsched, Some("1.02".to_string()));
            assert_eq!(b.volt, Some("1.01".to_string()));
            assert_eq!(b.angle, Some("-2.5".to_string()));
            assert_eq!(b.area, 7);
            assert_eq!(b.zone, 3);
        }
        _ => panic!("first record should be a bus"),
    }
}

#[test]
fn generator_fields_use_colon_offsets_and_continuation_vs() {
    let case = sample();
    match &case.records[4] {
        Record::Generator(g) => {
            assert_eq!(g.bus, 2);
            assert_eq!(g.id, "G1");
            assert_eq!(g.status, 1);
            assert_eq!(g.ireg, 0);
            assert_eq!(g.pg, Some("80.0".to_string()));
            assert_eq!(g.pt, Some("100.0".to_string()));
            assert_eq!(g.pb, Some("0.0".to_string()));
            assert_eq!(g.qg, Some("20.0".to_string()));
            assert_eq!(g.qt, Some("50.0".to_string()));
            assert_eq!(g.qb, Some("-30.0".to_string()));
            assert_eq!(g.mbase, Some("120.0".to_string()));
            assert_eq!(g.vs, Some("1.02".to_string()));
        }
        _ => panic!("fifth record should be a generator"),
    }
}

#[test]
fn branch_and_load_fields() {
    let case = sample();
    match &case.records[2] {
        Record::Branch(b) => {
            assert_eq!((b.from_bus, b.to_bus), (1, 2));
            assert_eq!(b.ckt, "1");
            assert_eq!(b.status, 1);
            assert_eq!(b.r, Some("0.01".to_string()));
            assert_eq!(b.x, Some("0.1".to_string()));
            assert_eq!(b.b, Some("0.02".to_string()));
            assert_eq!(b.rate_a, Some("100.0".to_string()));
            assert_eq!(b.rate_b, Some("110.0".to_string()));
            assert_eq!(b.rate_c, Some("120.0".to_string()));
            assert_eq!(b.from_name, "BUS ONE");
            assert_eq!(b.to_name, "BUS TWO");
        }
        _ => panic!("third record should be a branch"),
    }
    match &case.records[3] {
        Record::Load(l) => {
            assert_eq!(l.bus, 2);
            assert_eq!(l.id, "1");
            assert_eq!(l.status, 1);
            assert_eq!(l.p, Some("50.0".to_string()));
            assert_eq!(l.q, Some("10.0".to_string()));
        }
        _ => panic!("fourth record should be a load"),
    }
}

#[test]
fn transformer_impedance_from_header_numerics() {
    let case = sample();
    match &case.records[5] {
        Record::Transformer(t) => {
            assert_eq!((t.from_bus, t.to_bus), (1, 3));
            assert_eq!(t.ckt, "1");
            assert_eq!(t.status, 1);
            assert_eq!(t.r, Some("0.002".to_string()));
            assert_eq!(t.x, Some("0.08".to_string()));
            assert_eq!(t.from_kv, Some("138.0".to_string()));
            assert_eq!(t.to_kv, Some("69.0".to_string()));
            assert_eq!(t.rate_a, Some("100.0".to_string()));
            assert_eq!(t.rate_b, Some("110.0".to_string()));
            assert_eq!(t.rate_c, Some("120.0".to_string()));
            assert_eq!(t.tap, Some("1.05".to_string()));
        }
        _ => panic!("sixth record should be a transformer"),
    }
}

#[test]
fn one_line_readers() {
    let b = parse_one_bus_line(&chars("5 \"B5\" 69.0 \" \" 0 : 1 1.0 1.0 0.0 2 4")).unwrap();
    assert_eq!((b.number, b.ty, b.area, b.zone), (5, 1, 2, 4));
    assert!(parse_one_bus_line(&chars("5 \"B5\" 69.0")).is_none());
    assert!(parse_one_bus_line(&chars("x \"B5\" 69.0 0 : 1")).is_none());
    let l = parse_one_load_line(&chars("5 \"B5\" 69.0 : 0 1.5 oops")).unwrap();
    assert_eq!(l.id, ":");
    assert_eq!(l.status, 0);
    assert_eq!(l.p, Some("1.5".to_string()));
    assert_eq!(l.q, None);
    let br = parse_one_branch_line(&chars("1 \"A\" 1.0 2 \"B\" 1.0 \"3\" : 0")).unwrap();
    assert_eq!((br.from_bus, br.to_bus, br.status), (1, 2, 0));
    assert_eq!(br.ckt, "3");
    assert_eq!(br.r, None);
    assert!(parse_one_branch_line(&chars("1 \"A\" 1.0 x \"B\" 1.0 \"3\" : 0")).is_none());
    let g = parse_one_generator_line(&chars("7 \"G\" 1.0 \"2\" : 1 9"), &vec![]).unwrap();
    assert_eq!((g.bus, g.status, g.ireg), (7, 1, 9));
    assert_eq!(g.vs, None);
    let t = parse_one_transformer_line(
        &chars("1 \"A\" x 2 \"B\" y \"c\" z : 1 q q q 0.5 0.25"),
        &vec![],
    )
    .unwrap();
    // Fewer than seven numerics: colon offsets 5 and 6.
    assert_eq!(t.r, Some("0.5".to_string()));
    assert_eq!(t.x, Some("0.25".to_string()));
    assert_eq!(t.from_kv, None);
    assert_eq!(t.ckt, "c");
    assert!(parse_one_transformer_line(&chars("1 2 3 4 5 6 7"), &vec![]).is_none());
}

#[test]
fn branch_section_reader_stops_at_header() {
    let tl: Vec<Vec<char>> = vec![
        chars("1 \"A\" 1.0 2 \"B\" 1.0 \"1\" : 1 0.1"),
        chars("bad line : 1"),
        chars("load data"),
    ];
    let (recs, end) = parse_branch_data(&tl, 0);
    assert_eq!(recs.len(), 1);
    assert_eq!(end, 2);
    let (none, past) = parse_branch_data(&tl, 9);
    assert!(none.is_empty());
    assert_eq!(past, 9);
}

#[test]
fn missing_title_line_keeps_empty_title() {
    let case = parse_epc(&lines("title\n\n! nothing\n"));
    assert_eq!(case.title, "");
    assert_eq!(case.sbase, None);
    assert!(case.records.is_empty());
}

#[test]
fn continuation_lines_are_not_records() {
    let text = "bus data\n1 \"A\" 1.0 \" \" 0 : 1 1.0 1.0 0.0 1 1 /\n2 \"B\" 1.0 \" \" 0 : 1 1.0 1.0 0.0 1 1\n3 \"C\" 1.0 \" \" 0 : 1 1.0 1.0 0.0 1 1\n";
    let case = parse_epc(&lines(text));
    let numbers: Vec<u32> = case
        .records
        .iter()
        .filter_map(|r| match r {
            Record::Bus(b) => Some(b.number),
            _ => None,
        })
        .collect();
    assert_eq!(numbers, vec![1, 3]);
}

const SAMPLE_DYD: &str = "\
# dynamics
genrou 2 \"BUS TWO\" 138.0 \"G1\" : #9 mva=120.0 5.0 0.05
repc_a 3 \"SOLAR3\" 34.5 \"1\" : 100.0 0.5
esst4b 2 \"BUS TWO\" 138.0 \"G1\" : 1.0
repc_a 4 short
lodrep 9 \"L\" 1.0
";

#[test]
fn dyd_models_and_generators() {
    let models = parse_dyd(&lines(SAMPLE_DYD));
    assert_eq!(models.len(), 3);
    assert_eq!(models[0].model_type, "genrou");
    assert_eq!(models[0].bus, 2);
    assert_eq!(models[0].id, "G1");
    assert_eq!(models[0].kv, Some("138.0".to_string()));
    assert_eq!(models[0].params, vec!["5.0".to_string(), "0.05".to_string()]);
    assert_eq!(models[1].model_type, "repc_a");
    assert_eq!(models[2].model_type, "esst4b");
    let gens = extract_dyd_generators(&models);
    assert_eq!(gens.len(), 2);
    assert_eq!(gens[0].bus_id, 2);
    assert!(!gens[0].is_ibr);
    assert_eq!(gens[0].mva, Some("5.0".to_string()));
    assert_eq!(gens[1].bus_id, 3);
    assert!(gens[1].is_ibr);
    assert_eq!(gens[1].model_family, "repc_a");
    assert_eq!(gens[1].mva, Some("100.0".to_string()));
}

#[test]
fn continuation_takes_exactly_one_line_outside_transformers() {
    let tl: Vec<Vec<char>> = vec![
        chars("1/"),
        chars("7/"),
        chars("1 \"A\" 1.0 2 \"B\" 1.0 \"1\" : 1 0.1"),
    ];
    let (recs, end) = parse_branch_data(&tl, 0);
    assert_eq!(end, 3);
    assert_eq!(recs.len(), 1);
    match &recs[0] {
        Record::Branch(b) => assert_eq!((b.from_bus, b.to_bus), (1, 2)),
        _ => panic!("a branch record is expected"),
    }
}

const SECTIONS_EPC: &str = "\
svd data  [    2]
3051 \"SVD1\" 138.0 \"1 \" \"  \" : 0 1 0 \" \" 0.0 1 1 0.0 0.8 0 0 0.02 /
  2 0.1 3 -0.05
8005 \"SVD2\" 138.0 \"2 \" \"  \" : 1 1 0 \" \" 0.0 1 1 0.0 1.0 0 0 0.04
area data  [    1]
1 \"AREA ONE\" 7389 -25.5 10.0
zone data  [    1]
3 \"ZONE THREE\"
owner data  [    1]
5 \"OWNER FIVE\" \"O5\"
end
";

#[test]
fn switched_shunt_area_zone_and_owner_sections_are_read() {
    let case = parse_epc(&lines(SECTIONS_EPC));
    assert_eq!(case.records.len(), 5);
    match &case.records[0] {
        Record::SwitchedShunt(x) => {
            assert_eq!((x.bus, x.status), (3051, 0));
            assert_eq!(x.id, "1");
            assert_eq!(x.b_init, Some("0.8".to_string()));
            assert_eq!(x.vband, Some("0.02".to_string()));
            assert_eq!(
                x.bank_pairs,
                vec![(2, "0.1".to_string()), (3, "-0.05".to_string())]
            );
        }
        _ => panic!("first record should be a switched shunt"),
    }
    match &case.records[1] {
        Record::SwitchedShunt(x) => {
            assert_eq!((x.bus, x.status), (8005, 1));
            assert_eq!(x.b_init, Some("1.0".to_string()));
            assert!(x.bank_pairs.is_empty());
        }
        _ => panic!("second record should be a switched shunt"),
    }
    match &case.records[2] {
        Record::Area(a) => {
            assert_eq!((a.number, a.swing_bus), (1, 7389));
            assert_eq!(a.name, "AREA ONE");
            assert_eq!(a.desired_net_interchange, Some("-25.5".to_string()));
        }
        _ => panic!("third record should be an area"),
    }
    match &case.records[3] {
        Record::Zone(z) => assert_eq!((z.number, z.name.as_str()), (3, "ZONE THREE")),
        _ => panic!("fourth record should be a zone"),
    }
    match &case.records[4] {
        Record::Owner(o) => assert_eq!((o.number, o.name.as_str()), (5, "OWNER FIVE")),
        _ => panic!("fifth record should be an owner"),
    }
}
