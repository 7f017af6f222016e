use clerkcli::cli::parse_org_ids;

#[test]
fn messy_list_is_trimmed_and_filtered() {
    let ids = parse_org_ids(" , org_1 ,, org_2 ");
    assert_eq!(ids, vec!["org_1".to_string(), "org_2".to_string()]);
}

#[test]
fn single_id_without_commas() {
    let ids = parse_org_ids("org_1");
    assert_eq!(ids, vec!["org_1".to_string()]);
}

#[test]
fn empty_input_yields_no_ids() {
    let ids = parse_org_ids("");
    assert!(ids.is_empty());
}

#[test]
fn only_separators_and_spaces_yield_no_ids() {
    let ids = parse_org_ids(" , ,,  , ");
    assert!(ids.is_empty());
}

#[test]
fn tabs_and_newlines_are_trimmed() {
    let ids = parse_org_ids("\torg_1\n,\r org_2\t");
    assert_eq!(ids, vec!["org_1".to_string(), "org_2".to_string()]);
}

#[test]
fn inner_spaces_are_kept() {
    let ids = parse_org_ids(" org one , org_2");
    assert_eq!(ids, vec!["org one".to_string(), "org_2".to_string()]);
}

#[test]
fn order_is_kept() {
    let ids = parse_org_ids("b,a,c");
    assert_eq!(ids, vec!["b".to_string(), "a".to_string(), "c".to_string()]);
}

#[test]
fn trailing_comma_adds_nothing() {
    let ids = parse_org_ids("org_1,");
    assert_eq!(ids, vec!["org_1".to_string()]);
}
