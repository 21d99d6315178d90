//! Collectors: metrics computed freshly on every scrape.

use vstd::prelude::*;

use std::sync::Arc;

use crate::metrics::Metrics;
use crate::registry::MetricsVisitor;

verus! {

/// Error returned when a collector's producing hook is set twice.
#[derive(Debug, Clone, Copy, PartialEq, Eq, Structural)]
pub struct BeforeScrapeError;

impl BeforeScrapeError {
    /// A human-readable description of the error.
    pub fn message(&self) -> (r: String)
        ensures
            r@ == "cannot set collector function: it is already set"@,
    {
        let mut out = String::new();
        out.append("cannot set collector function: it is already set");
        out
    }
}

/// The producing hook of a collector: called on every scrape to compute
/// a fresh group of metrics.
pub trait ProduceMetrics<M>: Send + Sync {
    fn produce(&self) -> M;
}

/// A lazily initialized producer of metrics, consulted on every scrape
/// of the registry it is registered in. An unset collector contributes
/// nothing.
#[verifier::reject_recursive_types(M)]
pub struct Collector<M> {
    hook: Arc<once_cell::sync::OnceCell<Box<dyn ProduceMetrics<M>>>>,
}

impl<M> Clone for Collector<M> {
    fn clone(&self) -> Self {
        Collector { hook: Arc::clone(&self.hook) }
    }
}

impl<M: Metrics> Default for Collector<M> {
    fn default() -> Self {
        Collector::new()
    }
}

impl<M: Metrics> Collector<M> {
    /// Creates a collector with no producing hook.
    pub fn new() -> Self {
        Collector { hook: Arc::new(crate::wrappers::once_new()) }
    }

    /// Initializes the producing hook; it will be called on each scrape.
    /// Setting the hook twice is an error.
    pub fn before_scrape(&self, hook: Box<dyn ProduceMetrics<M>>) -> Result<
        (),
        BeforeScrapeError,
    > {
        match crate::wrappers::once_set(&self.hook, hook) {
            Ok(()) => Ok(()),
            Err(_) => Err(BeforeScrapeError),
        }
    }

    /// Visits freshly produced metrics if the hook is set.
    pub fn visit_if_initialized(&self, visitor: &mut MetricsVisitor) {
        match crate::wrappers::once_get(&self.hook) {
            Some(hook) => {
                let metrics = hook.produce();
                metrics.visit_metrics(visitor);
            },
            None => {},
        }
    }
}

} // verus!
