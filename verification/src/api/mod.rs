pub mod aggregate;
pub mod approval;
pub mod attachment;
pub mod catalog;
pub mod graphql;
pub mod task_sla;
