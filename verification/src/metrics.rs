//! The metrics sink that the engine instance reports to.
//!
//! The sink is a parameter of the initialization: production code shares one
//! process-wide sink, a test builds a sink of its own over a fresh registry.
//! Nothing else of an initialization depends on it.

use prometheus::Registry;
use vstd::prelude::*;

verus! {

/// The prometheus registry, carried through to whoever builds the sink.
#[verifier::external_type_specification]
#[verifier::external_body]
pub struct ExRegistry(prometheus::Registry);

/// Where the engine instance reports its metrics.
#[derive(Debug)]
pub enum MetricsSink {
    /// The process-wide sink that every production database shares.
    Shared,
    /// A sink of its own, to be built over this throwaway registry.
    Isolated(Registry),
}

/// Calls `prometheus::Registry::new`. The registry comes back without a
/// statement about it: nothing here reads what it holds.
#[verifier::external_body]
pub(crate) fn new_registry() -> (registry: Registry) {
    Registry::new()
}

} // verus!
