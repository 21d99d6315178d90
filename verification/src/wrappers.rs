//! Metric primitives: counters, gauges, histograms, info metrics and
//! label-keyed families of them.
//!
//! Cloning any metric shares the underlying storage; a metric read
//! concurrently with updates returns some previously stored value, never
//! a torn one. Contracts therefore pin down conversions and structure,
//! not the stored values themselves.

use vstd::prelude::*;

use std::marker::PhantomData;
use std::sync::atomic::{AtomicU64, Ordering};
use std::sync::Arc;
use std::time::{Duration, Instant};

use crate::buckets::Buckets;
use crate::builder::BuildMetric;
use crate::encoding::{
    clone_pair,
    CollectMetric,
    EncodeLabelSet,
    FullLabelSet,
    LabelPair,
    MapLabels,
    MetricPayload,
    MetricSeries,
    TypedMetricKind,
};
use crate::format::MetricKind;
use crate::traits::{GaugeValue, HistogramValue};

use prometheus_client::metrics::counter::Counter as PromCounter;

verus! {

#[verifier::external_type_specification]
#[verifier::external_body]
#[verifier::reject_recursive_types(N)]
#[verifier::reject_recursive_types(A)]
pub struct ExPromCounter<N, A>(PromCounter<N, A>);

#[verifier::external_type_specification]
#[verifier::external_body]
#[verifier::reject_recursive_types(T)]
pub struct ExOnceCell<T>(once_cell::sync::OnceCell<T>);

#[verifier::external_type_specification]
#[verifier::external_body]
#[verifier::reject_recursive_types(K)]
#[verifier::reject_recursive_types(V)]
pub struct ExFrozenMap<K, V>(elsa::sync::FrozenMap<K, V>);

#[verifier::external_type_specification]
#[verifier::external_body]
pub struct ExInstant(Instant);

/// Relies on prometheus_client's Counter::default: a fresh shared atomic
/// counter starting at zero.
#[verifier::external_body]
fn counter_new() -> PromCounter<u64> {
    PromCounter::default()
}

/// Relies on prometheus_client's Counter::inc: atomically increases the
/// shared value by one, returning the previous value.
#[verifier::external_body]
fn counter_inc(c: &PromCounter<u64>) -> u64 {
    c.inc()
}

/// Relies on prometheus_client's Counter::inc_by: atomically increases
/// the shared value, returning the previous value.
#[verifier::external_body]
fn counter_inc_by(c: &PromCounter<u64>, v: u64) -> u64 {
    c.inc_by(v)
}

/// Relies on prometheus_client's Counter::get: reads the shared value.
#[verifier::external_body]
fn counter_get(c: &PromCounter<u64>) -> u64 {
    c.get()
}

/// Relies on prometheus_client's Counter::clone: the clone shares the
/// same underlying atomic cell.
#[verifier::external_body]
fn counter_clone(c: &PromCounter<u64>) -> PromCounter<u64> {
    c.clone()
}

/// Counter metric: a monotonically increasing unsigned value.
#[derive(Debug)]
pub struct Counter {
    inner: PromCounter<u64>,
}

impl Clone for Counter {
    fn clone(&self) -> Self {
        Counter { inner: counter_clone(&self.inner) }
    }
}

impl Default for Counter {
    fn default() -> Self {
        Counter { inner: counter_new() }
    }
}

impl Counter {
    /// Creates a counter starting at zero.
    pub fn new() -> Self {
        Counter { inner: counter_new() }
    }

    /// Increases the counter by one, returning the previous value.
    pub fn inc(&self) -> u64 {
        counter_inc(&self.inner)
    }

    /// Increases the counter by `v`, returning the previous value.
    pub fn inc_by(&self, v: u64) -> u64 {
        counter_inc_by(&self.inner, v)
    }

    /// The current value of the counter.
    pub fn get(&self) -> u64 {
        counter_get(&self.inner)
    }
}

impl CollectMetric for Counter {
    fn metric_kind(&self) -> (r: MetricKind)
        ensures
            r == MetricKind::Counter,
    {
        MetricKind::Counter
    }

    fn collect_series(&self) -> (r: Vec<MetricSeries>)
        ensures
            r@.len() == 1,
            r@[0].labels@.len() == 0,
            r@[0].payload is Counter,
    {
        let mut out: Vec<MetricSeries> = Vec::new();
        out.push(MetricSeries { labels: Vec::new(), payload: MetricPayload::Counter { value: self.get() } });
        out
    }
}

impl TypedMetricKind for Counter {
    fn kind_of() -> (r: MetricKind)
        ensures
            r == MetricKind::Counter,
    {
        MetricKind::Counter
    }
}

/// Gauge metric: a signed or unsigned value that can go up or down.
pub struct Gauge<V: GaugeValue = i64> {
    cell: Arc<V::Atomic>,
}

impl<V: GaugeValue> Clone for Gauge<V> {
    fn clone(&self) -> Self {
        Gauge { cell: Arc::clone(&self.cell) }
    }
}

impl<V: GaugeValue> Default for Gauge<V> {
    fn default() -> Self {
        Gauge { cell: Arc::new(V::new_atomic()) }
    }
}

impl<V: GaugeValue> Gauge<V> {
    /// Creates a gauge starting at zero.
    pub fn new() -> Self {
        Gauge { cell: Arc::new(V::new_atomic()) }
    }

    /// Increases this gauge by `v`, returning the previous value.
    pub fn inc_by(&self, v: V) -> V {
        V::atomic_inc_by(&self.cell, v)
    }

    /// Increases this gauge by `v` and returns a guard that decrements
    /// it back when dropped.
    pub fn inc_guard(&self, v: V) -> GaugeGuard<V> {
        let guard = GaugeGuard { cell: V::guard_parts(&self.cell, v), _value: PhantomData };
        self.inc_by(v);
        guard
    }

    /// Decreases this gauge by `v`, returning the previous value.
    pub fn dec_by(&self, v: V) -> V {
        V::atomic_dec_by(&self.cell, v)
    }

    /// Sets the gauge, returning the previous value.
    pub fn set(&self, value: V) -> V {
        V::atomic_set(&self.cell, value)
    }

    /// The current value of the gauge.
    pub fn get(&self) -> V {
        V::atomic_get(&self.cell)
    }
}

impl<V: GaugeValue> CollectMetric for Gauge<V> {
    fn metric_kind(&self) -> (r: MetricKind)
        ensures
            r == MetricKind::Gauge,
    {
        MetricKind::Gauge
    }

    fn collect_series(&self) -> (r: Vec<MetricSeries>)
        ensures
            r@.len() == 1,
            r@[0].labels@.len() == 0,
            r@[0].payload is Gauge,
    {
        let value = self.get().encode_gauge();
        let mut out: Vec<MetricSeries> = Vec::new();
        out.push(MetricSeries { labels: Vec::new(), payload: MetricPayload::Gauge { value } });
        out
    }
}

impl<V: GaugeValue> TypedMetricKind for Gauge<V> {
    fn kind_of() -> (r: MetricKind)
        ensures
            r == MetricKind::Gauge,
    {
        MetricKind::Gauge
    }
}

/// Guard that decrements a gauge by a fixed amount when dropped.
pub struct GaugeGuard<V: GaugeValue = i64> {
    cell: crate::traits::GuardCell,
    _value: PhantomData<V>,
}

impl<V: GaugeValue> Drop for GaugeGuard<V> {
    /// Decrements the gauge by the amount it was increased by.
    fn drop(&mut self)
        opens_invariants none
        no_unwind
    {
        self.cell.decrement();
    }
}

/// The shared storage of a histogram: fixed bucket bounds, one counter
/// per bucket, the observation count and the fixed-point sum.
struct HistogramCore {
    bounds: Vec<i128>,
    buckets: Vec<AtomicU64>,
    sum: AtomicU64,
    count: AtomicU64,
}

/// Histogram metric: observations counted in fixed buckets.
pub struct Histogram<V: HistogramValue = Duration> {
    core: Arc<HistogramCore>,
    _value: PhantomData<V>,
}

impl<V: HistogramValue> Clone for Histogram<V> {
    fn clone(&self) -> Self {
        Histogram { core: Arc::clone(&self.core), _value: PhantomData }
    }
}

impl<V: HistogramValue> Histogram<V> {
    /// The bucket upper bounds, as fixed-point values.
    pub closed spec fn spec_bounds(&self) -> Seq<i128> {
        self.core.bounds@
    }

    /// Creates a histogram with the given bucket boundaries.
    pub fn new(buckets: Buckets) -> (r: Self)
        requires
            buckets.well_formed(),
        ensures
            r.spec_bounds() == buckets.values@,
    {
        let n = buckets.values.len();
        let mut cells: Vec<AtomicU64> = Vec::new();
        let mut i: usize = 0;
        while i < n
            invariant
                0 <= i <= n,
                cells@.len() == i,
            decreases n - i,
        {
            cells.push(AtomicU64::new(0));
            i += 1;
        }
        Histogram {
            core: Arc::new(
                HistogramCore {
                    bounds: buckets.values,
                    buckets: cells,
                    sum: AtomicU64::new(0),
                    count: AtomicU64::new(0),
                },
            ),
            _value: PhantomData,
        }
    }

    /// Observes a value: the first bucket whose bound is at least the
    /// value is incremented, and the sum and count are updated. The sum
    /// wraps on overflow.
    pub fn observe(&self, value: V) {
        let scaled = value.encode_scaled();
        let core: &HistogramCore = &*self.core;
        let n = core.bounds.len();
        let mut i: usize = 0;
        loop
            invariant_except_break
                0 <= i <= core.bounds@.len(),
                n == core.bounds@.len(),
            decreases n - i,
        {
            if i >= n || i >= core.buckets.len() {
                break;
            }
            if scaled <= core.bounds[i] {
                core.buckets[i].fetch_add(1, Ordering::Relaxed);
                break;
            }
            i += 1;
        }
        #[verifier::truncate]
        let wrapped = scaled as u64;
        core.sum.fetch_add(wrapped, Ordering::Relaxed);
        core.count.fetch_add(1, Ordering::Relaxed);
    }
}

impl Histogram<Duration> {
    /// Starts a latency observation; finish it with
    /// [`LatencyObserver::observe`].
    pub fn start(&self) -> LatencyObserver<'_> {
        LatencyObserver { start: instant_now(), histogram: self }
    }
}

/// Relies on Instant::now: the current monotonic time.
#[verifier::external_body]
fn instant_now() -> Instant {
    Instant::now()
}

/// Relies on Instant::elapsed: the time passed since the instant.
#[verifier::external_body]
fn instant_elapsed(start: &Instant) -> Duration {
    start.elapsed()
}

/// In-flight latency observation for a histogram of durations.
#[must_use]
pub struct LatencyObserver<'a> {
    start: Instant,
    histogram: &'a Histogram<Duration>,
}

impl<'a> LatencyObserver<'a> {
    /// Observes and returns the time passed since the observer was
    /// created.
    pub fn observe(self) -> Duration {
        let elapsed = instant_elapsed(&self.start);
        self.histogram.observe(elapsed);
        elapsed
    }
}

impl<V: HistogramValue> CollectMetric for Histogram<V> {
    fn metric_kind(&self) -> (r: MetricKind)
        ensures
            r == MetricKind::Histogram,
    {
        MetricKind::Histogram
    }

    fn collect_series(&self) -> (r: Vec<MetricSeries>)
        ensures
            r@.len() == 1,
            r@[0].labels@.len() == 0,
            r@[0].payload is Histogram,
    {
        let core: &HistogramCore = &*self.core;
        let mut bounds: Vec<i128> = Vec::new();
        let mut counts: Vec<u64> = Vec::new();
        let mut acc: u64 = 0;
        let mut i: usize = 0;
        let n = core.bounds.len();
        loop
            invariant_except_break
                0 <= i <= core.bounds@.len(),
                n == core.bounds@.len(),
                bounds@.len() == counts@.len(),
            ensures
                bounds@.len() == counts@.len(),
            decreases n - i,
        {
            if i >= n || i >= core.buckets.len() {
                break;
            }
            let c = core.buckets[i].load(Ordering::Relaxed);
            acc = acc.wrapping_add(c);
            bounds.push(core.bounds[i]);
            counts.push(acc);
            i += 1;
        }
        let payload = MetricPayload::Histogram {
            bounds,
            counts,
            count: core.count.load(Ordering::Relaxed),
            sum: core.sum.load(Ordering::Relaxed),
        };
        let mut out: Vec<MetricSeries> = Vec::new();
        out.push(MetricSeries { labels: Vec::new(), payload });
        out
    }
}

impl<V: HistogramValue> TypedMetricKind for Histogram<V> {
    fn kind_of() -> (r: MetricKind)
        ensures
            r == MetricKind::Histogram,
    {
        MetricKind::Histogram
    }
}

/// Relies on once_cell's OnceCell::new: a fresh empty cell.
#[verifier::external_body]
pub(crate) fn once_new<T>() -> once_cell::sync::OnceCell<T> {
    once_cell::sync::OnceCell::new()
}

/// Relies on once_cell's OnceCell::get: the stored value, if the cell was
/// set.
#[verifier::external_body]
pub(crate) fn once_get<'a, T>(cell: &'a once_cell::sync::OnceCell<T>) -> Option<&'a T> {
    cell.get()
}

/// Relies on once_cell's OnceCell::set: stores the value in an empty
/// cell; a full cell is left unchanged and the argument is handed back.
#[verifier::external_body]
pub(crate) fn once_set<T>(cell: &once_cell::sync::OnceCell<T>, value: T) -> (r: Result<(), T>)
    ensures
        r matches Err(v) ==> v == value,
{
    cell.set(value)
}

/// Information metric: a write-once label set reported as the constant
/// sample `1`.
#[verifier::reject_recursive_types(S)]
pub struct Info<S> {
    cell: Arc<once_cell::sync::OnceCell<S>>,
}

impl<S> Default for Info<S> {
    fn default() -> Self {
        Info { cell: Arc::new(once_new()) }
    }
}

impl<S> Clone for Info<S> {
    fn clone(&self) -> Self {
        Info { cell: Arc::clone(&self.cell) }
    }
}

impl<S: EncodeLabelSet> Info<S> {
    /// Creates an unset info metric.
    pub fn new() -> Self {
        Info { cell: Arc::new(once_new()) }
    }

    /// The current value of the metric.
    pub fn get(&self) -> Option<&S> {
        once_get(&self.cell)
    }

    /// Sets the value of this metric; setting it twice is an error and
    /// hands the rejected value back.
    pub fn set(&self, value: S) -> (r: Result<(), SetInfoError<S>>)
        ensures
            r matches Err(e) ==> e.0 == value,
    {
        match once_set(&self.cell, value) {
            Ok(()) => Ok(()),
            Err(v) => Err(SetInfoError(v)),
        }
    }
}

/// Error returned from [`Info::set`]: the value that could not be stored.
#[derive(Debug)]
pub struct SetInfoError<S>(pub S);

impl<S> SetInfoError<S> {
    /// Converts the error into the unsuccessfully set value.
    pub fn into_inner(self) -> (r: S)
        ensures
            r == self.0,
    {
        self.0
    }

    /// A human-readable description of the error.
    pub fn message(&self) -> (r: String)
        ensures
            r@ == "cannot set info metric value; it is already set"@,
    {
        let mut out = String::new();
        out.append("cannot set info metric value; it is already set");
        out
    }
}

impl<S: EncodeLabelSet + Send + Sync> CollectMetric for Info<S> {
    fn metric_kind(&self) -> (r: MetricKind)
        ensures
            r == MetricKind::Info,
    {
        MetricKind::Info
    }

    fn collect_series(&self) -> (r: Vec<MetricSeries>)
        ensures
            r@.len() <= 1,
    {
        let mut out: Vec<MetricSeries> = Vec::new();
        match self.get() {
            Some(value) => {
                out.push(
                    MetricSeries {
                        labels: Vec::new(),
                        payload: MetricPayload::Info { pairs: value.label_pairs() },
                    },
                );
            },
            None => {},
        }
        out
    }
}

impl<S: EncodeLabelSet + Send + Sync> TypedMetricKind for Info<S> {
    fn kind_of() -> (r: MetricKind)
        ensures
            r == MetricKind::Info,
    {
        MetricKind::Info
    }
}

/// Wraps a [`Duration`] so that it can be used as a label value: it is
/// rendered as the fractional number of seconds in the duration.
#[derive(Debug, Clone, Copy, PartialEq, Eq, Hash)]
pub struct DurationAsSecs(pub Duration);

impl From<Duration> for DurationAsSecs {
    fn from(duration: Duration) -> Self {
        DurationAsSecs(duration)
    }
}

impl vstd::std_specs::convert::FromSpecImpl<Duration> for DurationAsSecs {
    open spec fn obeys_from_spec() -> bool {
        true
    }

    open spec fn from_spec(duration: Duration) -> Self {
        DurationAsSecs(duration)
    }
}

impl crate::encoding::EncodeLabelValue for DurationAsSecs {
    fn label_value(&self) -> String {
        let scaled = self.0.encode_scaled();
        let mut out = String::new();
        crate::text::append_fixed(&mut out, scaled);
        out
    }
}

/// Relies on elsa's FrozenMap::new: a fresh empty map.
#[verifier::external_body]
pub(crate) fn frozen_new<K: Eq + core::hash::Hash, M>() -> elsa::sync::FrozenMap<K, Box<M>> {
    elsa::sync::FrozenMap::new()
}

/// Relies on elsa's FrozenMap::get: a reference to the entry for the key,
/// valid as long as the map, through a shared reference.
#[verifier::external_body]
pub(crate) fn frozen_get<'a, K: Eq + core::hash::Hash, M>(
    map: &'a elsa::sync::FrozenMap<K, Box<M>>,
    key: &K,
) -> Option<&'a M> {
    map.get(key)
}

/// Relies on elsa's FrozenMap::insert: inserts the value for the key
/// through a shared reference; an existing entry is never overwritten, so
/// the returned reference is to the one stable entry for the key.
#[verifier::external_body]
pub(crate) fn frozen_insert<'a, K: Eq + core::hash::Hash, M>(
    map: &'a elsa::sync::FrozenMap<K, Box<M>>,
    key: K,
    value: Box<M>,
) -> &'a M {
    map.insert(key, value)
}

/// Relies on elsa's FrozenMap::keys_cloned: a snapshot of all keys, in no
/// particular order.
#[verifier::external_body]
pub(crate) fn frozen_keys<K: Eq + core::hash::Hash + Clone, M>(
    map: &elsa::sync::FrozenMap<K, Box<M>>,
) -> Vec<K> {
    map.keys_cloned()
}

#[verifier::reject_recursive_types(S)]
#[verifier::reject_recursive_types(M)]
pub(crate) struct FamilyInner<S, M: BuildMetric> {
    map: elsa::sync::FrozenMap<S, Box<M>>,
    builder: M::Builder,
}

impl<S, M> FamilyInner<S, M> where S: Clone + Eq + core::hash::Hash, M: BuildMetric {
    /// The stored builder is fit to construct members.
    pub(crate) closed spec fn wf(&self) -> bool {
        M::builder_ok(self.builder)
    }

    pub(crate) fn new(builder: M::Builder) -> (r: Self)
        requires
            M::builder_ok(builder),
        ensures
            r.wf(),
    {
        FamilyInner { map: frozen_new(), builder }
    }

    /// Returns the member for the labels, creating it on first access.
    /// Repeated access returns the same member; members are never
    /// removed.
    pub(crate) fn get_or_create(&self, labels: &S) -> &M
        requires
            self.wf(),
    {
        match frozen_get(&self.map, labels) {
            Some(metric) => metric,
            None => {
                let built = M::build(M::clone_builder(&self.builder));
                frozen_insert(&self.map, labels.clone(), Box::new(built))
            },
        }
    }

    pub(crate) fn to_entries(&self) -> Vec<(S, &M)> {
        let keys = frozen_keys(&self.map);
        let mut out: Vec<(S, &M)> = Vec::new();
        let mut i: usize = 0;
        let n = keys.len();
        while i < n
            invariant
                n == keys@.len(),
                0 <= i <= n,
            decreases n - i,
        {
            let key = keys[i].clone();
            match frozen_get(&self.map, &key) {
                Some(metric) => {
                    out.push((key, metric));
                },
                None => {},
            }
            i += 1;
        }
        out
    }
}

/// Family of metrics labelled by one or more labels: an append-only,
/// concurrently growable map from a label set to one metric instance per
/// distinct label combination. Access through a shared reference never
/// blocks other lookups, so nested lookups on one call stack cannot
/// deadlock.
#[verifier::reject_recursive_types(S)]
#[verifier::reject_recursive_types(M)]
pub struct Family<S, M: BuildMetric, L = ()> {
    inner: Arc<FamilyInner<S, M>>,
    labels: L,
}

/// A family whose label names are supplied separately from the label
/// values: values are plain data (strings, integers, tuples), names come
/// from an array.
pub type LabeledFamily<S, M, const N: usize> = Family<S, M, [&'static str; N]>;

impl<S, M: BuildMetric, L: Clone> Clone for Family<S, M, L> {
    fn clone(&self) -> Self {
        Family { inner: Arc::clone(&self.inner), labels: self.labels.clone() }
    }
}

impl<S, M, L> Family<S, M, L> where S: Clone + Eq + core::hash::Hash, M: BuildMetric {
    /// The family is fit to construct members.
    pub closed spec fn wf(&self) -> bool {
        self.inner.wf()
    }

    /// Creates a family whose members are built with `builder` and whose
    /// label names are described by `labels`.
    pub fn new(builder: M::Builder, labels: L) -> (r: Self)
        requires
            M::builder_ok(builder),
        ensures
            r.wf(),
    {
        Family { inner: Arc::new(FamilyInner::new(builder)), labels }
    }

    /// Whether this family holds a metric with the given labels.
    pub fn contains(&self, labels: &S) -> bool {
        match frozen_get(&self.inner.map, labels) {
            Some(_) => true,
            None => false,
        }
    }

    /// The metric with the given labels, if it was created previously.
    pub fn get(&self, labels: &S) -> Option<&M> {
        frozen_get(&self.inner.map, labels)
    }

    /// The metric with the given labels, created on first access; the
    /// entry, once created, is stable for the family's lifetime.
    pub fn get_or_create(&self, labels: &S) -> &M
        requires
            self.wf(),
    {
        self.inner.get_or_create(labels)
    }

    /// A lazily resolved member: the metric is only created when the
    /// item is first dereferenced.
    pub fn get_lazy(&self, labels: S) -> (r: LazyItem<'_, S, M>)
        requires
            self.wf(),
        ensures
            r.wf(),
    {
        LazyItem { family: &*self.inner, labels }
    }

    /// All metrics currently present together with their labels, in no
    /// particular order.
    pub fn to_entries(&self) -> Vec<(S, &M)> {
        self.inner.to_entries()
    }
}

/// Lazily accessed member of a [`Family`]; created by `get_lazy`.
#[verifier::reject_recursive_types(S)]
#[verifier::reject_recursive_types(M)]
pub struct LazyItem<'a, S, M: BuildMetric> {
    family: &'a FamilyInner<S, M>,
    labels: S,
}

impl<'a, S, M> LazyItem<'a, S, M> where S: Clone + Eq + core::hash::Hash, M: BuildMetric {
    /// The underlying family is fit to construct members.
    pub closed spec fn wf(&self) -> bool {
        self.family.wf()
    }

    /// Resolves the member, creating it on first access.
    pub fn resolve(&self) -> &M
        requires
            self.wf(),
    {
        self.family.get_or_create(&self.labels)
    }
}

impl<S, M, L> CollectMetric for Family<S, M, L> where
    S: 'static + Clone + Eq + core::hash::Hash + Send + Sync,
    M: BuildMetric + CollectMetric + TypedMetricKind,
    M::Builder: Send + Sync,
    L: MapLabels<S> + Send + Sync + 'static,
 {
    fn metric_kind(&self) -> MetricKind {
        M::kind_of()
    }

    fn collect_series(&self) -> Vec<MetricSeries> {
        let entries = self.inner.to_entries();
        let mut out: Vec<MetricSeries> = Vec::new();
        let mut i: usize = 0;
        let n = entries.len();
        while i < n
            invariant
                n == entries@.len(),
                0 <= i <= n,
            decreases n - i,
        {
            let (ref key, metric) = entries[i];
            let mapped = self.labels.map_labels(key);
            let inner_series = metric.collect_series();
            let mut j: usize = 0;
            let m = inner_series.len();
            while j < m
                invariant
                    m == inner_series@.len(),
                    0 <= j <= m,
                decreases m - j,
            {
                let s = &inner_series[j];
                let labels = FullLabelSet::new(&mapped, &s.labels).pairs;
                out.push(MetricSeries { labels, payload: clone_payload(&s.payload) });
                j += 1;
            }
            i += 1;
        }
        out
    }
}

impl<S, M, L> TypedMetricKind for Family<S, M, L> where
    S: 'static + Clone + Eq + core::hash::Hash,
    M: BuildMetric + TypedMetricKind,
 {
    fn kind_of() -> MetricKind {
        M::kind_of()
    }
}

/// Copies a series payload.
pub fn clone_payload(p: &MetricPayload) -> (r: MetricPayload)
    ensures
        r is Counter <==> p is Counter,
        r is Gauge <==> p is Gauge,
        r is Histogram <==> p is Histogram,
        r is Info <==> p is Info,
{
    match p {
        MetricPayload::Counter { value } => MetricPayload::Counter { value: *value },
        MetricPayload::Gauge { value } => MetricPayload::Gauge { value: *value },
        MetricPayload::Histogram { bounds, counts, count, sum } => {
            let mut b2: Vec<i128> = Vec::new();
            let mut c2: Vec<u64> = Vec::new();
            let mut i: usize = 0;
            while i < bounds.len()
                invariant
                    0 <= i <= bounds@.len(),
                    b2@ =~= bounds@.take(i as int),
                decreases bounds@.len() - i,
            {
                b2.push(bounds[i]);
                proof {
                    assert(b2@ =~= bounds@.take(i + 1 as int));
                }
                i += 1;
            }
            let mut j: usize = 0;
            while j < counts.len()
                invariant
                    0 <= j <= counts@.len(),
                    c2@ =~= counts@.take(j as int),
                decreases counts@.len() - j,
            {
                c2.push(counts[j]);
                proof {
                    assert(c2@ =~= counts@.take(j + 1 as int));
                }
                j += 1;
            }
            proof {
                assert(bounds@.take(bounds@.len() as int) =~= bounds@);
                assert(counts@.take(counts@.len() as int) =~= counts@);
            }
            MetricPayload::Histogram { bounds: b2, counts: c2, count: *count, sum: *sum }
        },
        MetricPayload::Info { pairs } => {
            let mut p2: Vec<LabelPair> = Vec::new();
            let mut i: usize = 0;
            while i < pairs.len()
                invariant
                    0 <= i <= pairs@.len(),
                    p2@.len() == i,
                decreases pairs@.len() - i,
            {
                p2.push(clone_pair(&pairs[i]));
                i += 1;
            }
            MetricPayload::Info { pairs: p2 }
        },
    }
}

} // verus!
