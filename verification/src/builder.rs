//! Builders used to construct metrics and families of metrics.

use vstd::prelude::*;

use crate::buckets::Buckets;

verus! {

/// Builder of a single metric or a family of metrics, parameterized by
/// buckets (histograms only) and label names (families only).
#[derive(Debug)]
pub struct MetricBuilder<B = (), L = ()> {
    pub buckets: B,
    pub labels: L,
}

impl MetricBuilder<(), ()> {
    /// Creates a builder with buckets and labels not configured.
    pub fn new() -> (r: Self)
        ensures
            r.buckets == () && r.labels == (),
    {
        MetricBuilder { buckets: (), labels: () }
    }
}

impl Default for MetricBuilder<(), ()> {
    fn default() -> Self {
        MetricBuilder::new()
    }
}

impl<L> MetricBuilder<(), L> {
    /// Configures buckets for this builder.
    pub fn with_buckets(self, buckets: Buckets) -> (r: MetricBuilder<Buckets, L>)
        ensures
            r.buckets == buckets,
            r.labels == self.labels,
    {
        MetricBuilder { buckets, labels: self.labels }
    }
}

impl<B> MetricBuilder<B, ()> {
    /// Configures labels for this builder.
    pub fn with_labels<L>(self, labels: L) -> (r: MetricBuilder<B, L>)
        ensures
            r.buckets == self.buckets,
            r.labels == labels,
    {
        MetricBuilder { buckets: self.buckets, labels }
    }
}

/// Metric that can be constructed from a builder.
pub trait BuildMetric: 'static + Sized + Send + Sync {
    /// Metric builder used to construct a metric.
    type Builder: Send + Sync + 'static;

    /// Whether a builder is fit to construct the metric.
    spec fn builder_ok(builder: Self::Builder) -> bool;

    /// Creates a metric given its builder.
    fn build(builder: Self::Builder) -> Self
        requires
            Self::builder_ok(builder),
    ;

    /// Copies a builder so that one builder can construct every member
    /// of a family.
    fn clone_builder(builder: &Self::Builder) -> (r: Self::Builder)
        ensures
            Self::builder_ok(*builder) ==> Self::builder_ok(r),
    ;
}

impl BuildMetric for crate::wrappers::Counter {
    type Builder = MetricBuilder<(), ()>;

    open spec fn builder_ok(builder: Self::Builder) -> bool {
        true
    }

    fn build(builder: Self::Builder) -> Self {
        crate::wrappers::Counter::new()
    }

    fn clone_builder(builder: &Self::Builder) -> Self::Builder {
        MetricBuilder::new()
    }
}

impl<V: crate::traits::GaugeValue> BuildMetric for crate::wrappers::Gauge<V> {
    type Builder = MetricBuilder<(), ()>;

    open spec fn builder_ok(builder: Self::Builder) -> bool {
        true
    }

    fn build(builder: Self::Builder) -> Self {
        crate::wrappers::Gauge::new()
    }

    fn clone_builder(builder: &Self::Builder) -> Self::Builder {
        MetricBuilder::new()
    }
}

impl<V: crate::traits::HistogramValue + Send + Sync + 'static> BuildMetric for crate::wrappers::Histogram<
    V,
> {
    type Builder = MetricBuilder<Buckets, ()>;

    open spec fn builder_ok(builder: Self::Builder) -> bool {
        builder.buckets.well_formed()
    }

    fn build(builder: Self::Builder) -> Self {
        crate::wrappers::Histogram::new(builder.buckets)
    }

    fn clone_builder(builder: &Self::Builder) -> (r: Self::Builder)
        ensures
            Self::builder_ok(*builder) ==> Self::builder_ok(r),
    {
        let src = &builder.buckets.values;
        let mut values: Vec<i128> = Vec::new();
        let mut i: usize = 0;
        while i < src.len()
            invariant
                0 <= i <= src@.len(),
                values@ =~= src@.take(i as int),
            decreases src@.len() - i,
        {
            values.push(src[i]);
            proof {
                assert(values@ =~= src@.take(i + 1 as int));
            }
            i += 1;
        }
        proof {
            assert(src@.take(src@.len() as int) =~= src@);
        }
        MetricBuilder { buckets: Buckets { values }, labels: () }
    }
}

impl<S: crate::encoding::EncodeLabelSet + Send + Sync + 'static> BuildMetric for crate::wrappers::Info<
    S,
> {
    type Builder = MetricBuilder<(), ()>;

    open spec fn builder_ok(builder: Self::Builder) -> bool {
        true
    }

    fn build(builder: Self::Builder) -> Self {
        crate::wrappers::Info::new()
    }

    fn clone_builder(builder: &Self::Builder) -> Self::Builder {
        MetricBuilder::new()
    }
}

} // verus!
