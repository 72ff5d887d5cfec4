//! The schema model: tables, their fields and their relationships.

use vstd::prelude::*;
use crate::strmap::{Duplicate, StrMap};
use crate::model::value::opt_view;

verus! {

/// Supported field data types.
#[derive(Debug, Clone, Copy, PartialEq, Eq, Structural)]
pub enum FieldType {
    String,
    Integer,
    Boolean,
    Decimal,
    Float,
    DateTime,
    Date,
    Time,
    Reference,
    Journal,
    JournalInput,
    GlideList,
    Url,
    Email,
    Phone,
    Currency,
    Price,
    Html,
    Script,
    Conditions,
    DocumentId,
    SysClassName,
    DomainId,
    Other,
}

/// Relationship cardinality.
#[derive(Debug, Clone, Copy, PartialEq, Eq, Structural)]
pub enum RelationshipType {
    OneToMany,
    ManyToOne,
    ManyToMany,
}

/// A field definition as plain values: type, maximum length, read-only,
/// mandatory, write-only, choices, reference table, label.
pub type FieldDefView = (
    FieldType,
    Option<u32>,
    bool,
    bool,
    bool,
    Option<Map<Seq<char>, Seq<char>>>,
    Option<Seq<char>>,
    Option<Seq<char>>,
);

/// A relationship as plain values: related table, foreign key, type, filter.
pub type RelationshipView = (Seq<char>, Seq<char>, RelationshipType, Option<Seq<char>>);

/// A table as plain values: label, parent table, fields, relationships.
pub type TableView = (
    Seq<char>,
    Option<Seq<char>>,
    Map<Seq<char>, FieldDefView>,
    Map<Seq<char>, RelationshipView>,
);

/// A table overlay as plain values: label, parent table, fields, relationships.
pub type TableOverlayView = (
    Option<Seq<char>>,
    Option<Seq<char>>,
    Map<Seq<char>, FieldDefView>,
    Map<Seq<char>, RelationshipView>,
);

/// Definition of a single field on a table.
#[derive(Debug)]
pub struct FieldDef {
    /// The data type of this field.
    pub field_type: FieldType,
    /// Maximum length for string fields.
    pub max_length: Option<u32>,
    /// Whether this field is read-only (system-generated).
    pub read_only: bool,
    /// Whether this field is mandatory on create and update.
    pub mandatory: bool,
    /// Whether this field is write-only: journal fields accept input but read
    /// back empty.
    pub write_only: bool,
    /// Choice values: value to display label.
    pub choices: Option<StrMap<String>>,
    /// For reference fields, the table being referenced.
    pub reference_table: Option<String>,
    /// Human-readable label.
    pub label: Option<String>,
}

pub open spec fn opt_map_view(o: Option<StrMap<String>>) -> Option<Map<Seq<char>, Seq<char>>> {
    match o {
        Some(m) => Some(m.deep()),
        None => None,
    }
}

impl View for FieldDef {
    type V = FieldDefView;

    open spec fn view(&self) -> FieldDefView {
        (
            self.field_type,
            self.max_length,
            self.read_only,
            self.mandatory,
            self.write_only,
            opt_map_view(self.choices),
            opt_view(self.reference_table),
            opt_view(self.label),
        )
    }
}

/// A copy of an optional string.
pub fn dup_opt_string(o: &Option<String>) -> (r: Option<String>)
    ensures
        opt_view(r) == opt_view(*o),
{
    match o {
        Some(s) => Some(s.clone()),
        None => None,
    }
}

impl Duplicate for FieldDef {
    fn duplicate(&self) -> (r: Self) {
        let choices = match &self.choices {
            Some(m) => Some(m.duplicate_map()),
            None => None,
        };
        FieldDef {
            field_type: self.field_type,
            max_length: self.max_length,
            read_only: self.read_only,
            mandatory: self.mandatory,
            write_only: self.write_only,
            choices,
            reference_table: dup_opt_string(&self.reference_table),
            label: dup_opt_string(&self.label),
        }
    }
}

impl FieldDef {
    /// Whether this field can be set through the API.
    pub fn is_writable(&self) -> (r: bool)
        ensures
            r == !self.read_only,
    {
        !self.read_only
    }

    /// Whether this field is a journal field (work notes, comments).
    pub fn is_journal(&self) -> (r: bool)
        ensures
            r == (self.field_type == FieldType::Journal || self.field_type == FieldType::JournalInput),
    {
        match self.field_type {
            FieldType::Journal | FieldType::JournalInput => true,
            _ => false,
        }
    }

    /// Whether this is a reference field that names the referenced table.
    pub fn is_reference(&self) -> (r: bool)
        ensures
            r == (self.field_type == FieldType::Reference && self.reference_table.is_some()),
    {
        self.field_type == FieldType::Reference && self.reference_table.is_some()
    }
}

/// Definition of a relationship between tables.
#[derive(Debug)]
pub struct RelationshipDef {
    /// The related table name.
    pub table: String,
    /// The foreign key field on the related table that points back.
    pub foreign_key: String,
    /// The type of relationship.
    pub relationship_type: RelationshipType,
    /// Additional filter applied when querying related records.
    pub filter: Option<String>,
}

impl View for RelationshipDef {
    type V = RelationshipView;

    open spec fn view(&self) -> RelationshipView {
        (self.table@, self.foreign_key@, self.relationship_type, opt_view(self.filter))
    }
}

impl Duplicate for RelationshipDef {
    fn duplicate(&self) -> (r: Self) {
        RelationshipDef {
            table: self.table.clone(),
            foreign_key: self.foreign_key.clone(),
            relationship_type: self.relationship_type,
            filter: dup_opt_string(&self.filter),
        }
    }
}

/// Definition of a single table.
#[derive(Debug)]
pub struct TableDef {
    /// Human-readable label for the table.
    pub label: String,
    /// Parent table this extends (e.g. `task`).
    pub extends: Option<String>,
    /// Field definitions keyed by field name.
    pub fields: StrMap<FieldDef>,
    /// Relationship definitions keyed by relationship name.
    pub relationships: StrMap<RelationshipDef>,
}

impl View for TableDef {
    type V = TableView;

    open spec fn view(&self) -> TableView {
        (self.label@, opt_view(self.extends), self.fields.deep(), self.relationships.deep())
    }
}

impl Duplicate for TableDef {
    fn duplicate(&self) -> (r: Self) {
        TableDef {
            label: self.label.clone(),
            extends: dup_opt_string(&self.extends),
            fields: self.fields.duplicate_map(),
            relationships: self.relationships.duplicate_map(),
        }
    }
}

/// Overlay for a table: the same shape, with everything optional for merging.
#[derive(Debug)]
pub struct TableOverlay {
    /// Override the label.
    pub label: Option<String>,
    /// Override the parent.
    pub extends: Option<String>,
    /// Additional or overridden fields.
    pub fields: StrMap<FieldDef>,
    /// Additional or overridden relationships.
    pub relationships: StrMap<RelationshipDef>,
}

impl View for TableOverlay {
    type V = TableOverlayView;

    open spec fn view(&self) -> TableOverlayView {
        (opt_view(self.label), opt_view(self.extends), self.fields.deep(), self.relationships.deep())
    }
}

/// A complete schema definition for a release.
#[derive(Debug)]
pub struct SchemaDefinition {
    /// The release name (e.g. `"xanadu"`).
    pub release: String,
    /// Table definitions keyed by table name.
    pub tables: StrMap<TableDef>,
}

/// A custom overlay that extends or overrides a base schema.
#[derive(Debug)]
pub struct SchemaOverlay {
    /// The base release this overlay extends.
    pub extends_release: String,
    /// Table definitions to merge (additive and overriding).
    pub tables: StrMap<TableOverlay>,
}

}
