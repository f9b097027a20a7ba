//! A declarative REST-to-SQL query compiler with a verified core.
//!
//! An *endpoint* binds an externally addressable name to a dataset and a
//! restricted query vocabulary (columns, named aggregates, filter aliases).
//! The compiler projects URL query-string parameters onto that endpoint and
//! emits a single SQL statement, rejecting any request that references an
//! identifier outside the endpoint's vocabulary or the dataset's schema.
//!
//! Alongside the compiler, the crate models the accelerator side of the
//! runtime: a registry from engine tag to accelerator handle, and a builder
//! that assembles the descriptor handed to an accelerator when a dataset is
//! materialized as an external table.

pub mod accel;
pub mod endpoint;
pub mod laws;
pub mod params;
pub mod registry;
pub mod response;
pub mod sql;
pub mod strutil;
