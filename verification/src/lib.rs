//! A client library for the ServiceNow REST API: query encoding, schema
//! lookup, record parsing and response interpretation, with the decisions
//! proved in Verus.

pub mod api;
pub mod auth;
pub mod client;
pub mod config;
pub mod error;
pub mod model;
pub mod prefix;
pub mod query;
pub mod schema;
pub mod strmap;
pub mod text;
pub mod transport;

