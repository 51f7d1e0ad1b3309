//! Verified core of an order-ingestion service: field validation, the
//! transactional persistence semantics over a relational store model, the
//! row-to-aggregate mapper used on reads, and the mapping of every failure
//! to an HTTP status and a structured error envelope.

pub mod datetime;
pub mod errors;
pub mod handlers;
pub mod laws;
pub mod models;
pub mod reads;
pub mod rowmap;
pub mod store;
pub mod validate;
