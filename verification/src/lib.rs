//! Bootstrap of a composed database: several logical stores share one
//! key-value engine, and their column families must never collide.
//!
//! The crate holds the decisions of that bootstrap. Opening the engine and
//! binding the stores is left to the caller, who performs each request the
//! pipeline issues and reports how it ended.

pub mod config;
pub mod db;
pub mod error;
pub mod metrics;
pub mod namespace;
pub mod pipeline;

pub use config::StoreConfig;
pub use db::{Binding, RoochDB};
pub use error::{InitError, StoreKind};
pub use metrics::MetricsSink;
pub use pipeline::{Bootstrap, Progress, Request, Stage};
