pub mod batch;
pub mod builder;
pub mod filter;
pub mod paginator;
pub mod params;
pub mod strategy;

pub use filter::{Operator, Order};
