pub mod attachment;
pub mod json;
pub mod record;
pub mod result;
pub mod sla;
pub mod value;

pub use json::JsonValue;
pub use record::Record;
pub use value::{parse_field_value, DisplayValue, FieldValue};
