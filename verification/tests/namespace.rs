use rooch_db::namespace::{concat_column_families, find_duplicate, unique_column_families};

#[test]
fn concat_keeps_descriptor_then_declaration_order() {
    let descriptors = vec![vec!["cf_a", "cf_b"], vec!["cf_c"]];
    assert_eq!(concat_column_families(&descriptors), vec!["cf_a", "cf_b", "cf_c"]);
}

#[test]
fn concat_of_nothing_is_empty() {
    let descriptors: Vec<Vec<&str>> = Vec::new();
    assert!(concat_column_families(&descriptors).is_empty());
    let descriptors: Vec<Vec<&str>> = vec![vec![], vec![]];
    assert!(concat_column_families(&descriptors).is_empty());
}

#[test]
fn concat_keeps_repeated_names() {
    let descriptors = vec![vec!["cf_a"], vec![], vec!["cf_a", "cf_b"]];
    assert_eq!(concat_column_families(&descriptors), vec!["cf_a", "cf_a", "cf_b"]);
}

#[test]
fn unique_names_have_no_duplicate() {
    assert_eq!(find_duplicate(&vec!["cf_a", "cf_b", "cf_c"]), None);
    assert_eq!(find_duplicate(&Vec::new()), None);
    assert_eq!(find_duplicate(&vec!["only"]), None);
}

#[test]
fn duplicate_is_the_first_name_seen_again() {
    assert_eq!(find_duplicate(&vec!["cf_a", "cf_a"]), Some("cf_a"));
    // "y" is seen again at position 2, before "x" is at position 3.
    assert_eq!(find_duplicate(&vec!["x", "y", "y", "x"]), Some("y"));
    // "x" opens the list, yet "y" is the first to repeat.
    assert_eq!(find_duplicate(&vec!["x", "y", "z", "y", "x"]), Some("y"));
    assert_eq!(find_duplicate(&vec!["a", "b", "c", "a", "c"]), Some("a"));
}

#[test]
fn names_differing_in_case_or_space_are_distinct() {
    assert_eq!(find_duplicate(&vec!["cf", "CF", "cf ", ""]), None);
    assert_eq!(find_duplicate(&vec!["", "cf", ""]), Some(""));
}

#[test]
fn registry_accepts_names_declared_once() {
    let descriptors = vec![vec!["cf_a", "cf_b"], vec!["cf_c"]];
    assert_eq!(unique_column_families(&descriptors), Ok(vec!["cf_a", "cf_b", "cf_c"]));
    let none: Vec<Vec<&str>> = Vec::new();
    assert_eq!(unique_column_families(&none), Ok(Vec::new()));
}

#[test]
fn registry_rejects_a_name_shared_by_two_stores() {
    let descriptors = vec![vec!["cf_a"], vec!["cf_a"]];
    assert_eq!(unique_column_families(&descriptors), Err("cf_a"));
    let descriptors = vec![vec!["state", "config"], vec!["tx", "meta"], vec!["block", "config"]];
    assert_eq!(unique_column_families(&descriptors), Err("config"));
}

#[test]
fn registry_rejects_a_name_declared_twice_by_one_store() {
    let descriptors = vec![vec!["cf_a", "cf_b", "cf_a"], vec!["cf_c"]];
    assert_eq!(unique_column_families(&descriptors), Err("cf_a"));
}

#[test]
fn registry_reports_the_first_of_several_duplicates() {
    // "tx" repeats at place 3 of the concatenation, "state" only at place 4.
    let descriptors = vec![vec!["state", "tx"], vec!["meta", "tx", "state"]];
    assert_eq!(unique_column_families(&descriptors), Err("tx"));
}
