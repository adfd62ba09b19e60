use spatial_view::parse::{parse_position, parse_u64};
use spatial_view::table::{build_expression_table, GeneTable};

#[test]
fn parse_u64_reads_decimal_digits() {
    assert_eq!(parse_u64(&b"0".to_vec()), Some(0));
    assert_eq!(parse_u64(&b"123".to_vec()), Some(123));
    assert_eq!(parse_u64(&b"0042".to_vec()), Some(42));
    assert_eq!(parse_u64(&b"18446744073709551615".to_vec()), Some(u64::MAX));
}

#[test]
fn parse_u64_rejects_malformed_columns() {
    assert_eq!(parse_u64(&b"".to_vec()), None);
    assert_eq!(parse_u64(&b"12a".to_vec()), None);
    assert_eq!(parse_u64(&b"-3".to_vec()), None);
    assert_eq!(parse_u64(&b"4.5".to_vec()), None);
    assert_eq!(parse_u64(&b" 7".to_vec()), None);
    // one past u64::MAX
    assert_eq!(parse_u64(&b"18446744073709551616".to_vec()), None);
    assert_eq!(parse_u64(&b"99999999999999999999999".to_vec()), None);
}

#[test]
fn parse_position_takes_first_three_columns() {
    let row = vec![b"10".to_vec(), b"20".to_vec(), b"30".to_vec()];
    assert_eq!(parse_position(&row), Some((10, 20, 30)));
    let wide = vec![b"1".to_vec(), b"2".to_vec(), b"3".to_vec(), b"junk".to_vec()];
    assert_eq!(parse_position(&wide), Some((1, 2, 3)));
}

#[test]
fn parse_position_rejects_malformed_rows() {
    let short = vec![b"10".to_vec(), b"20".to_vec()];
    assert_eq!(parse_position(&short), None);
    let bad = vec![b"10".to_vec(), b"x".to_vec(), b"30".to_vec()];
    assert_eq!(parse_position(&bad), None);
    assert_eq!(parse_position(&Vec::new()), None);
}

#[test]
fn build_table_groups_readings_by_gene() {
    let labels = vec!["A".to_string(), "B".to_string()];
    let indices: Vec<u32> = vec![0, 1, 0, 0, 1];
    let values: Vec<i64> = vec![10, 20, 30, 40, 50];
    let t = build_expression_table(&labels, &indices, &values).unwrap();
    assert_eq!(t.len(), 2);
    assert_eq!(t.label_at(0).as_str(), "A");
    assert_eq!(t.label_at(1).as_str(), "B");
    assert_eq!(t.values_len(0), 3);
    assert_eq!(t.value_at(0, 0), 10);
    assert_eq!(t.value_at(0, 1), 30);
    assert_eq!(t.value_at(0, 2), 40);
    assert_eq!(t.values_len(1), 2);
    assert_eq!(t.value_at(1, 0), 20);
    assert_eq!(t.value_at(1, 1), 50);
}

#[test]
fn build_table_orders_genes_by_first_reference() {
    let labels = vec!["A".to_string(), "B".to_string(), "C".to_string()];
    let indices: Vec<u32> = vec![2, 0, 2];
    let values: Vec<i64> = vec![1, 2, 3];
    let t = build_expression_table(&labels, &indices, &values).unwrap();
    assert_eq!(t.len(), 2);
    assert_eq!(t.label_at(0).as_str(), "C");
    assert_eq!(t.label_at(1).as_str(), "A");
    // "B" is never referenced, so the table has no gene for it
    assert!(t.find_label(&"B".to_string()).is_none());
}

#[test]
fn build_table_rejects_out_of_range_index() {
    let labels = vec!["A".to_string()];
    let indices: Vec<u32> = vec![0, 1];
    let values: Vec<i64> = vec![10, 20];
    assert!(build_expression_table(&labels, &indices, &values).is_none());
}

#[test]
fn build_table_of_no_readings_is_empty() {
    let labels = vec!["A".to_string()];
    let t = build_expression_table(&labels, &Vec::new(), &Vec::new()).unwrap();
    assert_eq!(t.len(), 0);
}

#[test]
fn insert_gene_replaces_an_existing_vector() {
    let mut t = GeneTable::new();
    t.insert_gene("A".to_string(), vec![1, 2]);
    t.insert_gene("B".to_string(), vec![3]);
    t.insert_gene("A".to_string(), vec![9, 8, 7]);
    assert_eq!(t.len(), 2);
    assert_eq!(t.label_at(0).as_str(), "A");
    assert_eq!(t.values_len(0), 3);
    assert_eq!(t.value_at(0, 2), 7);
    assert_eq!(t.value_at(1, 0), 3);
}

#[test]
fn find_label_and_labels_vec_agree() {
    let mut t = GeneTable::new();
    t.insert_gene("Pcp4".to_string(), vec![1]);
    t.insert_gene("Cux2".to_string(), vec![2]);
    assert_eq!(t.find_label(&"Pcp4".to_string()), Some(0));
    assert_eq!(t.find_label(&"Cux2".to_string()), Some(1));
    assert_eq!(t.find_label(&"Rorb".to_string()), None);
    assert_eq!(t.labels_vec(), vec!["Pcp4".to_string(), "Cux2".to_string()]);
}
