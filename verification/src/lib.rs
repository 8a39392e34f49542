//! An item service: a domain model of items, a storage interface with an
//! in-memory backend, a service layer over it, pagination, counters,
//! configuration, validation and formatting helpers, and a small calculator.

pub mod calculator;
pub mod config;
pub mod error;
pub mod formatting;
pub mod handler;
pub mod ids;
pub mod laws;
pub mod metrics;
pub mod model;
pub mod pagination;
pub mod store;
pub mod text;
pub mod validation;
