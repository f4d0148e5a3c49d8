use raptrix_pslf_rs::compare::{compare_row_counts, first_index_of, name_lt};
use raptrix_pslf_rs::export::switched_shunt_ids;

fn chars(s: &str) -> Vec<char> {
    s.chars().collect()
}

fn pairs(v: &[(&str, usize)]) -> Vec<(String, usize)> {
    v.iter().map(|(n, c)| (n.to_string(), *c)).collect()
}

#[test]
fn name_order_is_character_order() {
    assert!(name_lt(&chars("buses"), &chars("generators")));
    assert!(name_lt(&chars("bus"), &chars("buses")));
    assert!(!name_lt(&chars("buses"), &chars("bus")));
    assert!(!name_lt(&chars("loads"), &chars("loads")));
    assert!(name_lt(&chars(""), &chars("a")));
    assert!(name_lt(&chars("Z"), &chars("a")));
}

#[test]
fn row_counts_are_reconciled_in_name_order() {
    let left = pairs(&[("loads", 3), ("buses", 10), ("metadata", 1)]);
    let right = pairs(&[("buses", 10), ("generators", 4), ("loads", 2)]);
    let (rows, mismatches) = compare_row_counts(&left, &right);
    let got: Vec<(String, usize, usize)> =
        rows.iter().map(|r| (r.table.clone(), r.left, r.right)).collect();
    assert_eq!(
        got,
        vec![
            ("buses".to_string(), 10, 10),
            ("generators".to_string(), 0, 4),
            ("loads".to_string(), 3, 2),
            ("metadata".to_string(), 1, 0),
        ]
    );
    assert_eq!(mismatches, 3);
}

#[test]
fn later_pairs_with_the_same_name_win() {
    let left = pairs(&[("buses", 1), ("buses", 5)]);
    let (rows, mismatches) = compare_row_counts(&left, &pairs(&[("buses", 5)]));
    assert_eq!(rows.len(), 1);
    assert_eq!((rows[0].left, rows[0].right), (5, 5));
    assert_eq!(mismatches, 0);
    let (none, zero) = compare_row_counts(&vec![], &vec![]);
    assert!(none.is_empty());
    assert_eq!(zero, 0);
}

#[test]
fn first_index_lookup() {
    assert_eq!(first_index_of(&vec![4, 7, 7], 7), Some(1));
    assert_eq!(first_index_of(&vec![4, 7, 7], 9), None);
    assert_eq!(first_index_of(&vec![], 0), None);
}

#[test]
fn switched_shunt_ids_count_per_bus() {
    assert_eq!(
        switched_shunt_ids(&vec![5, 7, 5, 5]),
        vec!["5_shunt_1", "7_shunt_1", "5_shunt_2", "5_shunt_3"]
    );
    assert!(switched_shunt_ids(&vec![]).is_empty());
}
