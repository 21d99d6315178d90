//! The `Metrics` trait implemented by metric groups, global metric
//! instances, and label-keyed families of whole groups.

use vstd::prelude::*;

use std::sync::Arc;

use crate::descriptors::MetricGroupDescriptor;
use crate::encoding::{EncodeLabelSet, LabelPair};
use crate::registry::MetricsVisitor;
use crate::wrappers::{frozen_get, frozen_insert, frozen_keys, frozen_new};

verus! {

/// Relies on once_cell's OnceCell::get_or_init with the type's Default
/// constructor: returns the stored value, initializing an empty cell
/// exactly once.
#[verifier::external_body]
fn once_get_or_init_default<'a, M: Default>(cell: &'a once_cell::sync::OnceCell<M>) -> &'a M {
    cell.get_or_init(M::default)
}

/// A group of logically related metrics that can report its static
/// descriptor and visit every leaf metric with its resolved name.
pub trait Metrics: 'static + Send + Sync {
    /// The static descriptor of the group.
    fn descriptor() -> MetricGroupDescriptor;

    /// Reports every leaf metric field to the visitor, with resolved
    /// names, help texts and units.
    fn visit_metrics(&self, visitor: &mut MetricsVisitor);
}

impl<M: Metrics> Metrics for &'static M {
    fn descriptor() -> MetricGroupDescriptor {
        M::descriptor()
    }

    fn visit_metrics(&self, visitor: &mut MetricsVisitor) {
        (*self).visit_metrics(visitor);
    }
}

impl<M: Metrics + Default> Metrics for Option<M> {
    fn descriptor() -> MetricGroupDescriptor {
        M::descriptor()
    }

    fn visit_metrics(&self, visitor: &mut MetricsVisitor) {
        match self {
            Some(metrics) => metrics.visit_metrics(visitor),
            None => {},
        }
    }
}

/// Global instance of a metrics group, initialized lazily on first
/// access. Clones share the same instance.
#[verifier::reject_recursive_types(M)]
pub struct Global<M: Metrics + Default> {
    cell: Arc<once_cell::sync::OnceCell<M>>,
}

impl<M: Metrics + Default> Clone for Global<M> {
    fn clone(&self) -> Self {
        Global { cell: Arc::clone(&self.cell) }
    }
}

impl<M: Metrics + Default> Default for Global<M> {
    fn default() -> Self {
        Global::new()
    }
}

impl<M: Metrics + Default> Global<M> {
    /// Creates an uninitialized global instance.
    pub fn new() -> Self {
        Global { cell: Arc::new(crate::wrappers::once_new()) }
    }

    /// The contained group, constructed on first access.
    pub fn get(&self) -> &M {
        once_get_or_init_default(&self.cell)
    }

    /// The contained group, if it was already touched.
    pub fn peek(&self) -> Option<&M> {
        crate::wrappers::once_get(&self.cell)
    }

    /// Visits the contained group if and only if it was already touched;
    /// an untouched instance contributes nothing.
    pub fn visit_if_initialized(&self, visitor: &mut MetricsVisitor) {
        match self.peek() {
            Some(metrics) => metrics.visit_metrics(visitor),
            None => {},
        }
    }
}

#[verifier::reject_recursive_types(S)]
#[verifier::reject_recursive_types(M)]
pub(crate) struct GroupFamilyInner<S, M> {
    map: elsa::sync::FrozenMap<S, Box<M>>,
}

impl<S, M> GroupFamilyInner<S, M> where
    S: Clone + Eq + core::hash::Hash,
    M: Metrics + Default,
 {
    pub(crate) fn new() -> Self {
        GroupFamilyInner { map: frozen_new() }
    }

    pub(crate) fn get_or_create(&self, labels: &S) -> &M {
        match frozen_get(&self.map, labels) {
            Some(metrics) => metrics,
            None => {
                let built = M::default();
                frozen_insert(&self.map, labels.clone(), Box::new(built))
            },
        }
    }

    pub(crate) fn to_entries(&self) -> Vec<(S, &M)> {
        let keys = frozen_keys(&self.map);
        let mut out: Vec<(S, &M)> = Vec::new();
        let mut i: usize = 0;
        let n = keys.len();
        while i < n
            invariant
                n == keys@.len(),
                0 <= i <= n,
            decreases n - i,
        {
            let key = keys[i].clone();
            match frozen_get(&self.map, &key) {
                Some(metrics) => {
                    out.push((key, metrics));
                },
                None => {},
            }
            i += 1;
        }
        out
    }
}

/// Family of whole metric groups keyed by a label set: every metric of
/// the group carries the family's labels, composed before any labels of
/// the metric itself. Growth is append-only and never blocks concurrent
/// lookups.
#[verifier::reject_recursive_types(S)]
#[verifier::reject_recursive_types(M)]
pub struct MetricsFamily<S, M: Metrics + Default> {
    inner: Arc<GroupFamilyInner<S, M>>,
}

impl<S, M> Clone for MetricsFamily<S, M> where M: Metrics + Default {
    fn clone(&self) -> Self {
        MetricsFamily { inner: Arc::clone(&self.inner) }
    }
}

impl<S, M> Default for MetricsFamily<S, M> where
    S: Clone + Eq + core::hash::Hash,
    M: Metrics + Default,
 {
    fn default() -> Self {
        MetricsFamily::new()
    }
}

impl<S, M> MetricsFamily<S, M> where
    S: Clone + Eq + core::hash::Hash,
    M: Metrics + Default,
 {
    /// Creates an empty family of groups.
    pub fn new() -> Self {
        MetricsFamily { inner: Arc::new(GroupFamilyInner::new()) }
    }

    /// The group for the given labels, created on first access; repeated
    /// access returns the same instance.
    pub fn get_or_create(&self, labels: &S) -> &M {
        self.inner.get_or_create(labels)
    }

    /// A lazily resolved member: the group is only created when the item
    /// is first resolved.
    pub fn get_lazy(&self, labels: S) -> LazyGroupItem<'_, S, M> {
        LazyGroupItem { family: &*self.inner, labels }
    }

    /// All groups currently present together with their labels, in no
    /// particular order.
    pub fn to_entries(&self) -> Vec<(S, &M)> {
        self.inner.to_entries()
    }
}

/// Lazily accessed member of a [`MetricsFamily`]; created by `get_lazy`.
#[verifier::reject_recursive_types(S)]
#[verifier::reject_recursive_types(M)]
pub struct LazyGroupItem<'a, S, M> {
    family: &'a GroupFamilyInner<S, M>,
    labels: S,
}

impl<'a, S, M> LazyGroupItem<'a, S, M> where
    S: Clone + Eq + core::hash::Hash,
    M: Metrics + Default,
 {
    /// Resolves the member group, creating it on first access.
    pub fn resolve(&self) -> &M {
        self.family.get_or_create(&self.labels)
    }
}

impl<S, M> MetricsFamily<S, M> where
    S: Clone + Eq + core::hash::Hash + EncodeLabelSet + Send + Sync + 'static,
    M: Metrics + Default,
 {
    /// Visits every materialized group, composing the family's labels
    /// ahead of each metric's own labels and coalescing metrics that
    /// share a resolved name into one declaration.
    pub fn visit_groups(&self, visitor: &mut MetricsVisitor) {
        let entries = self.inner.to_entries();
        let mut i: usize = 0;
        let n = entries.len();
        while i < n
            invariant
                n == entries@.len(),
                0 <= i <= n,
            decreases n - i,
        {
            let group_labels: Vec<LabelPair> = entries[i].0.label_pairs();
            let mut sub = MetricsVisitor::with_group_labels(group_labels);
            entries[i].1.visit_metrics(&mut sub);
            visitor.absorb(sub);
            i += 1;
        }
    }
}

impl<S, M> Metrics for MetricsFamily<S, M> where
    S: Clone + Eq + core::hash::Hash + EncodeLabelSet + Send + Sync + 'static,
    M: Metrics + Default,
 {
    fn descriptor() -> MetricGroupDescriptor {
        M::descriptor()
    }

    fn visit_metrics(&self, visitor: &mut MetricsVisitor) {
        self.visit_groups(visitor);
    }
}

} // verus!
