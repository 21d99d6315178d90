//! Constructors used when a family builds a fresh metric for a new label
//! combination.

use vstd::prelude::*;

use crate::buckets::Buckets;
use crate::traits::{GaugeValue, HistogramValue};
use crate::wrappers::{Counter, Gauge, Histogram};

verus! {

/// Metric that can be constructed from a dedicated constructor value:
/// counters and gauges from the trivial constructor, histograms from
/// their bucket boundaries.
pub trait ConstructMetric: 'static + Sized {
    /// Metric constructor.
    type Constructor;

    /// Whether a constructor value is fit to construct the metric.
    spec fn constructor_ok(constructor: Self::Constructor) -> bool;

    /// Creates a metric given its constructor.
    fn construct(constructor: &Self::Constructor) -> Self
        requires
            Self::constructor_ok(*constructor),
    ;
}

/// Constructor of metrics that start from their default state: counters
/// and gauges.
#[derive(Debug, Clone, Copy)]
pub struct DefaultConstructor;

impl ConstructMetric for Counter {
    type Constructor = DefaultConstructor;

    open spec fn constructor_ok(constructor: Self::Constructor) -> bool {
        true
    }

    fn construct(constructor: &Self::Constructor) -> Self {
        Counter::new()
    }
}

impl<V: GaugeValue> ConstructMetric for Gauge<V> {
    type Constructor = DefaultConstructor;

    open spec fn constructor_ok(constructor: Self::Constructor) -> bool {
        true
    }

    fn construct(constructor: &Self::Constructor) -> Self {
        Gauge::new()
    }
}

impl<V: HistogramValue> ConstructMetric for Histogram<V> {
    type Constructor = Buckets;

    open spec fn constructor_ok(constructor: Self::Constructor) -> bool {
        constructor.well_formed()
    }

    fn construct(constructor: &Self::Constructor) -> Self {
        Histogram::new(constructor.duplicate())
    }
}

} // verus!
