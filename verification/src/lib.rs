//! A small todo library: an in-memory model of a table of todo records,
//! the five CRUD operations on it, and the JSON encoding of a record.
//!
//! The store keeps the rows of the table together with the latest timestamp
//! it has been handed; every operation states exactly which rows it returns,
//! inserts, rewrites or removes.

pub mod codec;
pub mod ids;
pub mod model;
pub mod store;
