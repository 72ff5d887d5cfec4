use servicenow_rs::error::Error;
use servicenow_rs::model::json::JsonValue;
use servicenow_rs::model::value::DisplayValue;
use servicenow_rs::query::builder::TableApi;
use servicenow_rs::query::filter::{Operator, Order};
use servicenow_rs::model::Record;
use servicenow_rs::query::paginator::{append_capped, Paginator};
use servicenow_rs::query::strategy::FetchStrategy;
use servicenow_rs::schema::SchemaRegistry;

fn json(text: &str) -> JsonValue {
    JsonValue::parse_text(text).expect("valid JSON")
}

fn pairs(params: &[(String, String)]) -> Vec<(&str, &str)> {
    params.iter().map(|(k, v)| (k.as_str(), v.as_str())).collect()
}

#[test]
fn list_parameters_follow_the_builder() {
    let api = TableApi::new("change_request")
        .filter("state", Operator::Equals, "1")
        .or_filter("state", Operator::Equals, "2")
        .fields(&["number", "short_description"])
        .display_value(DisplayValue::Both)
        .limit(10)
        .offset(20)
        .order_by("number", Order::Desc)
        .no_count();
    let params = api.build_params().unwrap();
    assert_eq!(
        pairs(&params),
        vec![
            ("sysparm_query", "state=1^ORstate=2^ORDERBYDESCnumber"),
            ("sysparm_fields", "number,short_description"),
            ("sysparm_display_value", "all"),
            ("sysparm_limit", "10"),
            ("sysparm_offset", "20"),
            ("sysparm_exclude_reference_link", "true"),
            ("sysparm_no_count", "true"),
        ]
    );
}

#[test]
fn default_query_parameters() {
    let api = TableApi::new("incident");
    assert_eq!(
        pairs(&api.build_params().unwrap()),
        vec![("sysparm_display_value", "false"), ("sysparm_exclude_reference_link", "true")]
    );
    let api = api.exclude_reference_link(false);
    assert_eq!(pairs(&api.build_params().unwrap()), vec![("sysparm_display_value", "false")]);
}

#[test]
fn shorthands_encode_their_operators() {
    let api = TableApi::new("incident")
        .equals("a", "1")
        .not_equals("b", "2")
        .contains("c", "x")
        .starts_with("d", "y")
        .ends_with("e", "z")
        .is_empty_field("f")
        .is_not_empty("g")
        .in_list("h", &["1", "2", "3"])
        .greater_than("i", "5")
        .less_than("j", "6");
    let params = api.build_params().unwrap();
    assert_eq!(
        params[0].1,
        "a=1^b!=2^cLIKEx^dSTARTSWITHy^eENDSWITHz^fISEMPTY^gISNOTEMPTY^hIN1,2,3^i>5^j<6"
    );
}

#[test]
fn bad_field_names_fail_the_request() {
    let api = TableApi::new("incident").equals("state^ORactive", "1");
    assert!(matches!(api.build_params(), Err(Error::Query(_))));
    assert!(matches!(api.count_params(), Err(Error::Query(_))));
}

#[test]
fn paths_and_single_record_parameters() {
    let api = TableApi::new("incident").fields(&["number"]).display_value(DisplayValue::Display);
    assert_eq!(api.list_path(), "/api/now/table/incident");
    assert_eq!(api.record_path("abc"), "/api/now/table/incident/abc");
    assert_eq!(api.stats_path(), "/api/now/stats/incident");
    assert_eq!(
        pairs(&api.get_params()),
        vec![("sysparm_fields", "number"), ("sysparm_display_value", "true"), ("sysparm_exclude_reference_link", "true")]
    );
    assert_eq!(
        api.create_path(),
        "/api/now/table/incident?sysparm_display_value=true&sysparm_fields=number&sysparm_exclude_reference_link=true"
    );
    let counted = TableApi::new("incident").equals("active", "true");
    assert_eq!(pairs(&counted.count_params().unwrap()), vec![("sysparm_query", "active=true"), ("sysparm_count", "true")]);
}

#[test]
fn reading_answers() {
    let api = TableApi::new("incident");
    let records = api.records_from_result(json(r#"[{"sys_id": "a"}, {"sys_id": "b"}]"#));
    assert_eq!(records.len(), 2);
    assert_eq!(TableApi::count_from_result(&json(r#"{"stats": {"count": "123"}}"#)), 123);
    assert_eq!(TableApi::count_from_result(&json(r#"{"stats": {}}"#)), 0);
    assert_eq!(api.record_from_get(json(r#"{"sys_id": "a"}"#)).unwrap().sys_id, "a");
    assert!(matches!(api.record_from_get(json("[]")), Err(Error::Api { status: 200, message, .. }) if message == "failed to parse record from response"));
    assert!(matches!(api.record_from_create(json("null")), Err(Error::Api { status: 201, message, .. }) if message == "failed to parse created record from response"));
    assert!(matches!(api.record_from_update(json("1")), Err(Error::Api { status: 200, message, .. }) if message == "failed to parse updated record from response"));
}

#[test]
fn related_plans() {
    let api = TableApi::new("change_request").include_related(&["change_task", "nonexistent"]).strategy(FetchStrategy::Concurrent);
    let (defs, errors) = api.related_plan(None, 0);
    assert!(defs.is_empty() && errors.is_empty());
    let (defs, errors) = api.related_plan(None, 3);
    assert!(defs.is_empty());
    assert!(matches!(&errors[..], [Error::Schema(m)] if m.starts_with("cannot fetch related records without a schema.")));
    let registry = SchemaRegistry::from_release("xanadu").unwrap();
    let (defs, errors) = api.related_plan(Some(&registry), 3);
    assert_eq!(defs.len(), 1);
    assert_eq!(defs[0].0, "change_task");
    assert_eq!(defs[0].1.table, "change_task");
    assert!(matches!(&errors[..], [Error::Schema(m)] if m == "relationship 'nonexistent' not found on table 'change_request'"));
}

#[test]
fn paginator_walks_pages_until_short_or_total() {
    let mut pager = Paginator::new(
        "incident",
        vec![("sysparm_query".to_string(), "active=true".to_string())],
        2,
        0,
        DisplayValue::Raw,
        vec![],
        FetchStrategy::Auto,
    );
    let (path, params) = pager.page_request().unwrap();
    assert_eq!(path, "/api/now/table/incident");
    assert_eq!(
        pairs(&params),
        vec![("sysparm_query", "active=true"), ("sysparm_limit", "2"), ("sysparm_offset", "0")]
    );
    assert!(pager.record_page(Some(5), 2, false));
    assert_eq!(pager.current_offset(), 2);
    assert_eq!(pager.total_count(), Some(5));
    assert!(!pager.is_done());
    let (_, params) = pager.page_request().unwrap();
    assert_eq!(params[2].1, "2");
    assert!(pager.record_page(None, 2, false));
    assert!(pager.record_page(None, 1, false));
    assert!(pager.is_done());
    assert!(pager.page_request().is_none());
    assert_eq!(pager.current_offset(), 5);
}

#[test]
fn paginator_stops_on_an_empty_page() {
    let mut pager = Paginator::new("incident", vec![], 10, 30, DisplayValue::Raw, vec![], FetchStrategy::Auto);
    assert!(!pager.record_page(None, 0, false));
    assert!(pager.is_done());
    assert_eq!(pager.current_offset(), 30);
}

#[test]
fn short_page_with_a_next_link_moves_a_whole_page_and_goes_on() {
    let mut pager = TableApi::new("incident").limit(2).paginate().unwrap();
    assert_eq!(pager.page_size(), 2);
    assert!(pager.record_page(Some(3), 1, true));
    assert_eq!(pager.current_offset(), 2);
    assert!(!pager.is_done());
    let (_, params) = pager.page_request().unwrap();
    assert_eq!(params.last().unwrap().1, "2");
    assert!(pager.record_page(Some(3), 1, false));
    assert_eq!(pager.current_offset(), 3);
    assert!(pager.is_done());
    assert!(pager.page_request().is_none());
}

#[test]
fn short_page_with_a_next_link_stops_at_the_total() {
    let mut pager = TableApi::new("incident").limit(100).paginate().unwrap();
    assert!(pager.record_page(Some(50), 40, true));
    assert_eq!(pager.current_offset(), 100);
    assert!(pager.is_done());
}

#[test]
fn paginate_uses_limit_as_page_size_and_offset_as_start() {
    let api = TableApi::new("incident")
        .equals("state", "1")
        .fields(&["number"])
        .offset(2)
        .limit(2);
    let pager = api.paginate().unwrap();
    assert_eq!(pager.current_offset(), 2);
    assert!(!pager.is_done());
    let (path, params) = pager.page_request().unwrap();
    assert_eq!(path, "/api/now/table/incident");
    assert_eq!(
        pairs(&params),
        vec![
            ("sysparm_query", "state=1"),
            ("sysparm_fields", "number"),
            ("sysparm_display_value", "false"),
            ("sysparm_exclude_reference_link", "true"),
            ("sysparm_limit", "2"),
            ("sysparm_offset", "2"),
        ]
    );
}

#[test]
fn paginate_defaults_to_pages_of_one_hundred_from_the_start() {
    let pager = TableApi::new("incident").paginate().unwrap();
    let (_, params) = pager.page_request().unwrap();
    assert_eq!(
        pairs(&params),
        vec![
            ("sysparm_display_value", "false"),
            ("sysparm_exclude_reference_link", "true"),
            ("sysparm_limit", "100"),
            ("sysparm_offset", "0"),
        ]
    );
}

#[test]
fn paginate_reports_a_bad_condition() {
    let result = TableApi::new("incident").equals("bad field", "1").paginate();
    assert!(matches!(result, Err(Error::Query(_))));
}

#[test]
fn capped_collection_stops_at_the_cap() {
    let mut all = vec![Record::new("incident", "a1")];
    let page = vec![Record::new("incident", "a2"), Record::new("incident", "a3")];
    assert!(!append_capped(&mut all, page, Some(5)));
    assert_eq!(all.len(), 3);
    let page = vec![Record::new("incident", "a4"), Record::new("incident", "a5"), Record::new("incident", "a6")];
    assert!(append_capped(&mut all, page, Some(5)));
    let ids: Vec<&str> = all.iter().map(|r| r.sys_id.as_str()).collect();
    assert_eq!(ids, vec!["a1", "a2", "a3", "a4", "a5"]);
    let mut open = Vec::new();
    assert!(!append_capped(&mut open, vec![Record::new("incident", "b1")], None));
    assert_eq!(open.len(), 1);
}

#[test]
fn can_record_page_checks_the_offset_fits() {
    let pager = Paginator::new("incident", vec![], 10, u32::MAX - 20, DisplayValue::Raw, vec![], FetchStrategy::Auto);
    assert!(pager.can_record_page(10, false));
    assert!(pager.can_record_page(20, false));
    assert!(!pager.can_record_page(21, false));
    // a short page with a next link moves a whole page
    assert!(pager.can_record_page(3, true));
    let near = Paginator::new("incident", vec![], 10, u32::MAX - 5, DisplayValue::Raw, vec![], FetchStrategy::Auto);
    assert!(near.can_record_page(3, false));
    assert!(!near.can_record_page(3, true));
}
