use servicenow_rs::api::catalog::{
    apply_reference_names, catalog_definitions_query, catalog_links_query, catalog_options_query,
    catalog_variables_from, collect_reference_names, definition_ids, is_sys_id, option_ids,
    reference_ids_by_table, reference_names_query, reference_tables, CatalogVariable,
};
use servicenow_rs::model::json::JsonValue;
use servicenow_rs::model::record::Record;
use servicenow_rs::model::value::DisplayValue;
use servicenow_rs::strmap::StrMap;

const USER: &str = "0123456789abcdef0123456789abcdef";
const GROUP: &str = "fedcba9876543210fedcba9876543210";

fn records(mode: DisplayValue, text: &str) -> Vec<Record> {
    match JsonValue::parse_text(text).unwrap() {
        JsonValue::Array(items) => items
            .into_iter()
            .map(|v| Record::from_json("t", v, mode).unwrap())
            .collect(),
        _ => panic!("expected an array"),
    }
}

#[test]
fn sys_ids_are_32_hex_digits() {
    assert!(is_sys_id(USER));
    assert!(is_sys_id("ABCDEF0123456789ABCDEF0123456789"));
    assert!(!is_sys_id("0123456789abcdef0123456789abcde"));
    assert!(!is_sys_id("0123456789abcdef0123456789abcdeg"));
}

#[test]
fn the_three_queries() {
    let links = catalog_links_query("ritm1");
    assert_eq!(links.table_name(), "sc_item_option_mtom");
    assert_eq!(links.build_params().unwrap()[0].1, "request_item=ritm1");
    let opts = catalog_options_query(&["o1".to_string(), "o2".to_string()]);
    let params = opts.build_params().unwrap();
    assert_eq!(params[0].1, "sys_idINo1,o2");
    assert_eq!(params[1].1, "sys_id,item_option_new,value,order");
    assert_eq!(params[2].1, "all");
    let defs = catalog_definitions_query(&["d1".to_string()]);
    let params = defs.build_params().unwrap();
    assert_eq!(params[1].1, "sys_id,reference,list_table");
    assert_eq!(params[2].1, "false");
}

#[test]
fn variables_are_assembled_and_sorted_by_order() {
    let links = records(DisplayValue::Raw, r#"[{"sys_id": "l1", "sc_item_option": "o1"}, {"sys_id": "l2"}, {"sys_id": "l3", "sc_item_option": "o2"}]"#);
    assert_eq!(option_ids(&links), vec!["o1".to_string(), "o2".to_string()]);
    let options = records(
        DisplayValue::Both,
        r#"[
            {"sys_id": "o1", "item_option_new": {"value": "def2", "display_value": "Requested for"}, "value": {"value": "0123456789abcdef0123456789abcdef", "display_value": "0123456789abcdef0123456789abcdef"}, "order": {"value": "200", "display_value": "200"}},
            {"sys_id": "o2", "item_option_new": {"value": "def1", "display_value": "Justification"}, "value": {"value": "Needed", "display_value": "Needed"}, "order": {"value": "100", "display_value": "100"}},
            {"sys_id": "o3", "item_option_new": {"value": "def1", "display_value": ""}, "value": "x"},
            {"sys_id": "o4", "item_option_new": {"value": "def3", "display_value": "No order"}}
        ]"#,
    );
    assert_eq!(definition_ids(&options), vec!["def1".to_string(), "def2".to_string(), "def3".to_string()]);
    let defs = records(DisplayValue::Raw, r#"[{"sys_id": "def2", "reference": "sys_user", "list_table": ""}, {"sys_id": "def1", "reference": "", "list_table": ""}]"#);
    let refs = reference_tables(&defs);
    assert_eq!(refs.len(), 1);
    let vars = catalog_variables_from(&options, &refs);
    let names: Vec<&str> = vars.iter().map(|v| v.name.as_str()).collect();
    assert_eq!(names, vec!["Justification", "Requested for", "No order"]);
    assert_eq!(vars[0].order, 100);
    assert_eq!(vars[1].reference_table.as_deref(), Some("sys_user"));
    assert_eq!(vars[2].order, 999);
    assert_eq!(vars[2].value, "");
}

#[test]
fn reference_values_are_resolved_to_names() {
    let vars = vec![
        CatalogVariable { name: "Who".to_string(), value: format!("{USER}, {GROUP}"), order: 1, reference_table: Some("sys_user".to_string()) },
        CatalogVariable { name: "Why".to_string(), value: USER.to_string(), order: 2, reference_table: None },
        CatalogVariable { name: "Group".to_string(), value: GROUP.to_string(), order: 3, reference_table: Some("sys_user_group".to_string()) },
    ];
    let ids = reference_ids_by_table(&vars);
    assert_eq!(ids.len(), 2);
    assert_eq!(ids.get("sys_user").unwrap(), &vec![USER.to_string(), GROUP.to_string()]);
    let query = reference_names_query("sys_user", ids.get("sys_user").unwrap());
    let params = query.build_params().unwrap();
    assert_eq!(params[0].1, format!("sys_idIN{USER},{GROUP}"));
    assert_eq!(params[1].1, "sys_id,name");
    let mut names: StrMap<String> = StrMap::new();
    let found = records(DisplayValue::Display, &format!(r#"[{{"sys_id": "{USER}", "name": "Ann"}}, {{"sys_id": "other", "name": ""}}]"#));
    collect_reference_names(&mut names, &found);
    assert_eq!(names.len(), 1);
    let vars = apply_reference_names(vars, &names);
    assert_eq!(vars[0].value, format!("Ann, {GROUP}"));
    assert_eq!(vars[1].value, USER);
    assert_eq!(vars[2].value, GROUP);
}
