use servicenow_rs::prefix::PrefixRegistry;

#[test]
fn test_default_mappings() {
    let reg = PrefixRegistry::default();
    assert_eq!(reg.table_for_prefix("INC"), Some("incident"));
    assert_eq!(reg.table_for_prefix("CHG"), Some("change_request"));
    assert_eq!(reg.table_for_prefix("CTASK"), Some("change_task"));
    assert_eq!(reg.table_for_prefix("PRB"), Some("problem"));
    assert_eq!(reg.table_for_prefix("RITM"), Some("sc_req_item"));
    assert_eq!(reg.table_for_prefix("REQ"), Some("sc_request"));
    assert_eq!(reg.table_for_prefix("SCTASK"), Some("sc_task"));
    assert_eq!(reg.table_for_prefix("KB"), Some("kb_knowledge"));
    assert_eq!(reg.table_for_prefix("STRY"), Some("rm_story"));
    assert_eq!(reg.table_for_prefix("PRJ"), Some("pm_project"));
    assert_eq!(reg.table_for_prefix("DMND"), Some("dmn_demand"));
    assert_eq!(reg.len(), 13);
}

#[test]
fn test_case_insensitive() {
    let reg = PrefixRegistry::default();
    assert_eq!(reg.table_for_prefix("inc"), Some("incident"));
    assert_eq!(reg.table_for_prefix("Inc"), Some("incident"));
    assert_eq!(reg.table_for_prefix("INC"), Some("incident"));
}

#[test]
fn test_table_for_number() {
    let reg = PrefixRegistry::default();
    assert_eq!(reg.table_for_number("INC0012345"), Some("incident"));
    assert_eq!(reg.table_for_number("CHG0307336"), Some("change_request"));
    assert_eq!(reg.table_for_number("CTASK0457943"), Some("change_task"));
    assert_eq!(reg.table_for_number("RITM2513403"), Some("sc_req_item"));
    assert_eq!(reg.table_for_number("REQ2540612"), Some("sc_request"));
    assert_eq!(reg.table_for_number("KB0010001"), Some("kb_knowledge"));
}

#[test]
fn test_unknown_prefix() {
    let reg = PrefixRegistry::default();
    assert_eq!(reg.table_for_prefix("XYZ"), None);
    assert_eq!(reg.table_for_number("XYZ001"), None);
}

#[test]
fn test_no_prefix() {
    let reg = PrefixRegistry::default();
    assert_eq!(reg.table_for_number("0012345"), None);
    assert_eq!(reg.table_for_number(""), None);
}

#[test]
fn test_custom_registration() {
    let mut reg = PrefixRegistry::default();
    reg.register("MYPREFIX", "u_custom_table");
    assert_eq!(reg.table_for_prefix("MYPREFIX"), Some("u_custom_table"));
    assert_eq!(reg.table_for_number("MYPREFIX0001"), Some("u_custom_table"));
    assert_eq!(reg.table_for_prefix("INC"), Some("incident"));
}

#[test]
fn test_extract_prefix() {
    assert_eq!(PrefixRegistry::extract_prefix("INC0012345"), Some("INC".to_string()));
    assert_eq!(PrefixRegistry::extract_prefix("CTASK0457943"), Some("CTASK".to_string()));
    assert_eq!(PrefixRegistry::extract_prefix("inc001"), Some("INC".to_string()));
    assert_eq!(PrefixRegistry::extract_prefix("0012345"), None);
    assert_eq!(PrefixRegistry::extract_prefix(""), None);
}

#[test]
fn test_override_mapping() {
    let mut reg = PrefixRegistry::default();
    reg.register("INC", "u_custom_incident");
    assert_eq!(reg.table_for_prefix("INC"), Some("u_custom_incident"));
}

#[test]
fn empty_registry_and_lowercase_registration() {
    let mut reg = PrefixRegistry::empty();
    assert!(reg.is_empty());
    assert_eq!(reg.len(), 0);
    reg.register("abc", "u_abc");
    assert!(!reg.is_empty());
    assert_eq!(reg.table_for_prefix("ABC"), Some("u_abc"));
    assert_eq!(reg.table_for_number("  abc42  "), Some("u_abc"));
    assert_eq!(reg.mappings().len(), 1);
}
