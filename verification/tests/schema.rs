use servicenow_rs::schema::definition::{
    FieldDef, FieldType, RelationshipType, SchemaDefinition, SchemaOverlay, TableDef, TableOverlay,
};
use servicenow_rs::schema::loader::merge_overlay;
use servicenow_rs::schema::SchemaRegistry;
use servicenow_rs::strmap::StrMap;

fn string_field(max_length: u32, read_only: bool, label: &str) -> FieldDef {
    FieldDef {
        field_type: FieldType::String,
        max_length: Some(max_length),
        read_only,
        mandatory: false,
        write_only: false,
        choices: None,
        reference_table: None,
        label: Some(label.to_string()),
    }
}

fn make_base() -> SchemaDefinition {
    let mut fields = StrMap::new();
    fields.insert("number".to_string(), string_field(40, true, "Number"));

    let mut tables = StrMap::new();
    tables.insert(
        "change_request".to_string(),
        TableDef {
            label: "Change Request".to_string(),
            extends: Some("task".to_string()),
            fields,
            relationships: StrMap::new(),
        },
    );

    SchemaDefinition {
        release: "test".to_string(),
        tables,
    }
}

#[test]
fn test_merge_adds_new_field() {
    let mut base = make_base();
    let mut fields = StrMap::new();
    fields.insert("u_custom".to_string(), string_field(255, false, "Custom Field"));
    let mut t = StrMap::new();
    t.insert(
        "change_request".to_string(),
        TableOverlay {
            label: None,
            extends: None,
            fields,
            relationships: StrMap::new(),
        },
    );
    let overlay = SchemaOverlay {
        extends_release: "test".to_string(),
        tables: t,
    };

    merge_overlay(&mut base, &overlay);
    let cr = base.tables.get("change_request").unwrap();
    assert!(cr.fields.contains_key("number"));
    assert!(cr.fields.contains_key("u_custom"));
}

#[test]
fn test_merge_adds_new_table() {
    let mut base = make_base();
    let mut t = StrMap::new();
    t.insert(
        "u_custom_table".to_string(),
        TableOverlay {
            label: Some("Custom Table".to_string()),
            extends: None,
            fields: StrMap::new(),
            relationships: StrMap::new(),
        },
    );
    let overlay = SchemaOverlay {
        extends_release: "test".to_string(),
        tables: t,
    };

    merge_overlay(&mut base, &overlay);
    assert!(base.tables.contains_key("u_custom_table"));
    assert_eq!(base.tables.get("u_custom_table").unwrap().label, "Custom Table");
}

#[test]
fn merge_twice_is_the_same_as_once() {
    let mut once = make_base();
    let mut twice = make_base();
    let mut t = StrMap::new();
    t.insert(
        "change_request".to_string(),
        TableOverlay {
            label: Some("Change".to_string()),
            extends: None,
            fields: StrMap::new(),
            relationships: StrMap::new(),
        },
    );
    let overlay = SchemaOverlay {
        extends_release: "test".to_string(),
        tables: t,
    };
    merge_overlay(&mut once, &overlay);
    merge_overlay(&mut twice, &overlay);
    merge_overlay(&mut twice, &overlay);
    let a = once.tables.get("change_request").unwrap();
    let b = twice.tables.get("change_request").unwrap();
    assert_eq!(a.label, "Change");
    assert_eq!(b.label, "Change");
    assert_eq!(a.extends, b.extends);
    assert_eq!(a.fields.len(), b.fields.len());
}

#[test]
fn test_load_xanadu() {
    let registry = SchemaRegistry::from_release("xanadu").unwrap();
    assert_eq!(registry.release(), "xanadu");
    assert!(registry.has_table("change_request"));
    assert!(registry.has_table("incident"));
}

#[test]
fn test_unknown_release() {
    let result = SchemaRegistry::from_release("nonexistent");
    assert!(result.is_err());
}

#[test]
fn test_table_lookup() {
    let registry = SchemaRegistry::from_release("xanadu").unwrap();
    let table = registry.table("change_request").unwrap();
    assert_eq!(table.label, "Change Request");
    assert!(registry.has_field("change_request", "number"));
    assert!(registry.has_field("change_request", "risk"));
}

#[test]
fn test_relationship_lookup() {
    let registry = SchemaRegistry::from_release("xanadu").unwrap();
    let rel = registry.relationship("change_request", "change_task");
    assert!(rel.is_some());
    let rel = rel.unwrap();
    assert_eq!(rel.table, "change_task");
}

#[test]
fn test_overlay_application() {
    let overlay_json = r#"{
        "extends_release": "xanadu",
        "tables": {
            "change_request": {
                "fields": {
                    "u_custom_field": {
                        "type": "string",
                        "max_length": 255
                    }
                }
            }
        }
    }"#;
    let registry = SchemaRegistry::from_release_with_overlay_str("xanadu", overlay_json).unwrap();
    assert!(registry.has_field("change_request", "u_custom_field"));
    assert!(registry.has_field("change_request", "number"));
}

#[test]
fn test_task_sla_schema_is_defined_on_task_and_inherited_by_task_subclasses() {
    for release in ["washington", "xanadu", "yokohama"] {
        let registry = SchemaRegistry::from_release(release).unwrap();
        assert!(registry.has_table("task_sla"), "{release} missing task_sla");
        assert!(registry.has_table("contract_sla"), "{release} missing contract_sla");
        assert!(registry.has_field("task_sla", "business_percentage"));
        assert!(registry.has_field("contract_sla", "schedule"));

        let task_rel = registry
            .relationship("task", "task_sla")
            .expect("task_sla relationship missing on task");
        assert_eq!(task_rel.table, "task_sla");
        assert_eq!(task_rel.foreign_key, "task");
        assert_eq!(task_rel.relationship_type, RelationshipType::OneToMany);

        for table in ["incident", "change_request", "problem"] {
            let inherited = registry
                .relationship(table, "task_sla")
                .unwrap_or_else(|| panic!("{release} {table} missing inherited task_sla"));
            assert_eq!(inherited.table, "task_sla");
            assert_eq!(inherited.foreign_key, "task");
            assert_eq!(inherited.relationship_type, RelationshipType::OneToMany);
            assert!(
                !registry
                    .table(table)
                    .expect("table exists")
                    .relationships
                    .contains_key("task_sla"),
                "{release} should not duplicate task_sla on {table}"
            );
        }
    }
}

#[test]
fn test_schema_journal_field_metadata() {
    let registry = SchemaRegistry::from_release("xanadu").unwrap();
    let wn = registry.field("incident", "work_notes").unwrap();
    assert!(wn.is_journal());
    assert!(wn.write_only);
    let c = registry.field("incident", "comments").unwrap();
    assert!(c.is_journal());
    assert!(c.write_only);
    let ah = registry.field("incident", "approval_history").unwrap();
    assert!(ah.is_journal());
    assert!(ah.read_only);
    let sd = registry.field("incident", "short_description").unwrap();
    assert!(!sd.is_journal());
    assert!(!sd.read_only);
}

#[test]
fn overlay_json_rejects_bad_field_type() {
    let overlay_json = r#"{"extends_release": "xanadu", "tables": {"incident": {"fields": {"x": {"type": "nope"}}}}}"#;
    assert!(SchemaRegistry::from_release_with_overlay_str("xanadu", overlay_json).is_err());
    assert!(SchemaRegistry::from_release_with_overlay_str("xanadu", "not json").is_err());
}

#[test]
fn overlay_json_reads_relationships_choices_and_new_tables() {
    let overlay_json = r#"{
        "extends_release": "xanadu",
        "tables": {
            "u_thing": {
                "extends": "task",
                "fields": {
                    "u_kind": {"type": "integer", "mandatory": true, "choices": {"1": "One", "2": "Two"}}
                },
                "relationships": {
                    "u_children": {"table": "u_child", "foreign_key": "u_parent", "type": "one_to_many", "filter": "active=true"}
                }
            }
        }
    }"#;
    let registry = SchemaRegistry::from_release_with_overlay_str("yokohama", overlay_json).unwrap();
    let t = registry.table("u_thing").unwrap();
    assert_eq!(t.label, "u_thing");
    assert_eq!(registry.parent_table("u_thing"), Some("task"));
    let f = registry.field("u_thing", "u_kind").unwrap();
    assert!(f.mandatory);
    assert_eq!(f.choices.as_ref().unwrap().get("2").map(|s| s.as_str()), Some("Two"));
    assert!(registry.has_field("u_thing", "number"));
    let rel = registry.relationship("u_thing", "u_children").unwrap();
    assert_eq!(rel.filter.as_deref(), Some("active=true"));
    assert!(registry.relationship("u_thing", "task_sla").is_some());
}

#[test]
fn inheritance_cycle_terminates() {
    let mut tables = StrMap::new();
    tables.insert(
        "a".to_string(),
        TableDef { label: "A".to_string(), extends: Some("b".to_string()), fields: StrMap::new(), relationships: StrMap::new() },
    );
    tables.insert(
        "b".to_string(),
        TableDef { label: "B".to_string(), extends: Some("a".to_string()), fields: StrMap::new(), relationships: StrMap::new() },
    );
    let registry = SchemaRegistry::new(SchemaDefinition { release: "t".to_string(), tables });
    assert!(registry.field("a", "x").is_none());
    assert!(registry.relationship("b", "x").is_none());
}

#[test]
fn inheritance_cycle_still_finds_fields_on_the_cycle() {
    let mut b_fields = StrMap::new();
    b_fields.insert("number".to_string(), string_field(40, true, "Number"));
    let mut tables = StrMap::new();
    tables.insert(
        "a".to_string(),
        TableDef { label: "A".to_string(), extends: Some("b".to_string()), fields: StrMap::new(), relationships: StrMap::new() },
    );
    tables.insert(
        "b".to_string(),
        TableDef { label: "B".to_string(), extends: Some("c".to_string()), fields: b_fields, relationships: StrMap::new() },
    );
    tables.insert(
        "c".to_string(),
        TableDef { label: "C".to_string(), extends: Some("a".to_string()), fields: StrMap::new(), relationships: StrMap::new() },
    );
    let registry = SchemaRegistry::new(SchemaDefinition { release: "t".to_string(), tables });
    assert_eq!(registry.field("c", "number").unwrap().label.as_deref(), Some("Number"));
    assert_eq!(registry.field("a", "number").unwrap().max_length, Some(40));
    assert!(registry.has_field("b", "number"));
    assert!(!registry.has_field("c", "missing"));
}

#[test]
fn merge_keeps_tables_the_overlay_does_not_name() {
    let mut base = make_base();
    let mut t = StrMap::new();
    t.insert(
        "u_other".to_string(),
        TableOverlay { label: None, extends: None, fields: StrMap::new(), relationships: StrMap::new() },
    );
    let overlay = SchemaOverlay { extends_release: "test".to_string(), tables: t };
    merge_overlay(&mut base, &overlay);
    let cr = base.tables.get("change_request").unwrap();
    assert_eq!(cr.label, "Change Request");
    assert_eq!(cr.extends.as_deref(), Some("task"));
    assert_eq!(cr.fields.get("number").unwrap().max_length, Some(40));
    assert_eq!(base.tables.get("u_other").unwrap().label, "u_other");
}
