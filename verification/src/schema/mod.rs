pub mod definition;
pub mod json_format;
pub mod loader;
pub mod registry;
pub mod relationships;

pub use definition::{
    FieldDef, FieldType, RelationshipDef, RelationshipType, SchemaDefinition, SchemaOverlay,
    TableDef, TableOverlay,
};
pub use registry::SchemaRegistry;
