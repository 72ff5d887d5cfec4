use servicenow_rs::error::Error;
use servicenow_rs::query::filter::{encode_query, Condition, Filter, Joiner, Operator, Order};

fn cond(joiner: Joiner, field: &str, operator: Operator, value: &str) -> Condition {
    Condition {
        joiner,
        filter: Filter {
            field: field.to_string(),
            operator,
            value: value.to_string(),
        },
    }
}

#[test]
fn filter_test_simple_query() {
    let conditions = vec![cond(Joiner::And, "state", Operator::Equals, "1")];
    assert_eq!(encode_query(&conditions, &[]).unwrap(), "state=1");
}

#[test]
fn test_compound_query() {
    let conditions = vec![
        cond(Joiner::And, "state", Operator::Equals, "1"),
        cond(Joiner::And, "priority", Operator::LessThan, "3"),
    ];
    assert_eq!(encode_query(&conditions, &[]).unwrap(), "state=1^priority<3");
}

#[test]
fn test_or_query() {
    let conditions = vec![
        cond(Joiner::And, "state", Operator::Equals, "1"),
        cond(Joiner::Or, "state", Operator::Equals, "2"),
    ];
    assert_eq!(encode_query(&conditions, &[]).unwrap(), "state=1^ORstate=2");
}

#[test]
fn test_query_with_ordering() {
    let conditions = vec![cond(Joiner::And, "active", Operator::Equals, "true")];
    let order = vec![("sys_created_on".to_string(), Order::Desc)];
    assert_eq!(
        encode_query(&conditions, &order).unwrap(),
        "active=true^ORDERBYDESCsys_created_on"
    );
}

#[test]
fn test_is_empty_operator() {
    let conditions = vec![Condition {
        joiner: Joiner::And,
        filter: Filter {
            field: "assigned_to".to_string(),
            operator: Operator::IsEmpty,
            value: String::new(),
        },
    }];
    assert_eq!(encode_query(&conditions, &[]).unwrap(), "assigned_toISEMPTY");
}

#[test]
fn test_contains_query() {
    let conditions = vec![cond(Joiner::And, "short_description", Operator::Contains, "network")];
    assert_eq!(
        encode_query(&conditions, &[]).unwrap(),
        "short_descriptionLIKEnetwork"
    );
}

#[test]
fn caret_in_value_is_escaped() {
    let conditions = vec![cond(Joiner::And, "short_description", Operator::Equals, "a^NQb")];
    assert_eq!(
        encode_query(&conditions, &[]).unwrap(),
        "short_description=a\\^NQb"
    );
}

#[test]
fn new_query_joiner_and_ascending_order() {
    let conditions = vec![
        cond(Joiner::And, "active", Operator::Equals, "true"),
        cond(Joiner::NewQuery, "priority", Operator::In, "1,2"),
    ];
    let order = vec![("number".to_string(), Order::Asc)];
    assert_eq!(
        encode_query(&conditions, &order).unwrap(),
        "active=true^NQpriorityIN1,2^ORDERBYnumber"
    );
}

#[test]
fn invalid_field_name_is_rejected() {
    let conditions = vec![cond(Joiner::And, "state^ORactive", Operator::Equals, "1")];
    match encode_query(&conditions, &[]) {
        Err(Error::Query(m)) => assert!(m.contains("invalid field name: 'state^ORactive'")),
        other => panic!("unexpected: {other:?}"),
    }
}

#[test]
fn invalid_order_field_is_rejected() {
    let order = vec![("a=b".to_string(), Order::Asc)];
    match encode_query(&[], &order) {
        Err(Error::Query(m)) => assert!(m.contains("invalid order-by field name: 'a=b'")),
        other => panic!("unexpected: {other:?}"),
    }
}

#[test]
fn empty_field_name_is_rejected() {
    let conditions = vec![cond(Joiner::And, "", Operator::Equals, "1")];
    assert!(encode_query(&conditions, &[]).is_err());
}

#[test]
fn dot_walked_field_name_is_accepted() {
    let conditions = vec![cond(Joiner::And, "assigned_to.name", Operator::StartsWith, "Jo")];
    assert_eq!(
        encode_query(&conditions, &[]).unwrap(),
        "assigned_to.nameSTARTSWITHJo"
    );
}

#[test]
fn operator_encodings() {
    assert_eq!(Operator::NotContains.as_encoded(), "NOT LIKE");
    assert_eq!(Operator::NotIn.as_encoded(), "NOT IN");
    assert_eq!(Operator::GreaterThanOrEqual.as_encoded(), ">=");
    assert_eq!(Operator::InstanceOf.as_encoded(), "INSTANCEOF");
}
