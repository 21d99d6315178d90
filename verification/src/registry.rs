//! The metrics registry: name-collision checking, eager and lazy
//! registration, and encoding of the current state to text.

use vstd::prelude::*;

use crate::collector::Collector;
use crate::descriptors::{
    spec_descriptor_of,
    spec_full_name,
    FullMetricDescriptor,
    MetricDescriptor,
    MetricGroupDescriptor,
};
use crate::encoding::{clone_pair, CollectMetric, FullLabelSet, LabelPair, Unit};
use crate::format::{Format, FormatError, MetricKind};
use crate::metrics::{Global, Metrics, MetricsFamily};
use crate::render::{encode_document, spec_encode_document, RenderEntry};
use crate::text::str_eq;
use crate::wrappers::clone_payload;
use crate::encoding::MetricSeries;

verus! {

/// Error raised when two registered metrics resolve to the same exported
/// name.
#[derive(Debug)]
pub struct MetricRedefinitionError {
    /// The clashing fully qualified name.
    pub full_name: String,
    /// The definition that was being registered.
    pub new_definition: FullMetricDescriptor,
    /// The definition registered earlier.
    pub prev_definition: FullMetricDescriptor,
}

impl MetricRedefinitionError {
    /// The error text, naming both definition sites.
    pub fn message(&self) -> (r: String)
        ensures
            r@ == "Metric `"@ + self.full_name@ + "` is redefined. New definition is at "@
                + crate::descriptors::spec_definition_site(self.new_definition)
                + ", previous definition was at "@ + crate::descriptors::spec_definition_site(
                self.prev_definition,
            ),
    {
        let mut out = String::new();
        out.append("Metric `");
        out.append(self.full_name.as_str());
        out.append("` is redefined. New definition is at ");
        let new_site = self.new_definition.definition_site();
        out.append(new_site.as_str());
        out.append(", previous definition was at ");
        let prev_site = self.prev_definition.definition_site();
        out.append(prev_site.as_str());
        proof {
            assert(out@ =~= "Metric `"@ + self.full_name@
                + "` is redefined. New definition is at "@
                + crate::descriptors::spec_definition_site(self.new_definition)
                + ", previous definition was at "@ + crate::descriptors::spec_definition_site(
                self.prev_definition,
            ));
        }
        out
    }
}

/// Whether the redefinition error `e` reports an actual clash of
/// registering `group` against the index: its name is the resolved name
/// of one of the group's metrics, its new definition is that metric's
/// descriptor, and its previous definition is either the descriptor
/// already registered under that name or an earlier metric of the same
/// group resolving to it.
pub open spec fn spec_clash_reported(
    index: RegisteredDescriptors,
    group: MetricGroupDescriptor,
    e: MetricRedefinitionError,
) -> bool {
    exists|k: int|
        {
            &&& 0 <= k < group.metrics@.len()
            &&& e.full_name@ == spec_full_name(
                (#[trigger] group.metrics@[k]).name@,
                group.metrics@[k].unit,
            )
            &&& e.new_definition == spec_descriptor_of(group, group.metrics@[k])
            &&& (spec_clash_prev_registered(index, e) || spec_clash_prev_in_group(group, e, k))
        }
}

/// The previous definition of a clash was already registered in the
/// index under the clashing name.
pub open spec fn spec_clash_prev_registered(
    index: RegisteredDescriptors,
    e: MetricRedefinitionError,
) -> bool {
    exists|i: int|
        {
            &&& 0 <= i < index.spec_metric_count()
            &&& #[trigger] index.spec_name_at(i) == e.full_name@
            &&& e.prev_definition == index.spec_descriptor_at(i)
        }
}

/// The previous definition of a clash is an earlier metric of the same
/// group resolving to the clashing name.
pub open spec fn spec_clash_prev_in_group(
    group: MetricGroupDescriptor,
    e: MetricRedefinitionError,
    k: int,
) -> bool {
    exists|j: int|
        {
            &&& 0 <= j < k
            &&& spec_full_name(
                (#[trigger] group.metrics@[j]).name@,
                group.metrics@[j].unit,
            ) == e.full_name@
            &&& e.prev_definition == spec_descriptor_of(group, group.metrics@[j])
        }
}

/// Whether two group descriptors carry the same text and metrics.
pub open spec fn spec_group_matches(a: MetricGroupDescriptor, b: MetricGroupDescriptor) -> bool {
    &&& a.crate_name@ == b.crate_name@
    &&& a.crate_version@ == b.crate_version@
    &&& a.module@ == b.module@
    &&& a.name@ == b.name@
    &&& a.line == b.line
    &&& a.metrics@ == b.metrics@
}

/// Descriptors of all metrics in a registry, indexed by exported name.
pub struct RegisteredDescriptors {
    groups: Vec<MetricGroupDescriptor>,
    metrics_by_name: Vec<(String, FullMetricDescriptor)>,
}

impl RegisteredDescriptors {
    /// Whether a metric with the given exported name is registered.
    pub closed spec fn spec_has_metric(&self, name: Seq<char>) -> bool {
        exists|i: int|
            0 <= i < self.metrics_by_name@.len() && (#[trigger] self.metrics_by_name@[i]).0@
                == name
    }

    /// The number of registered groups.
    pub closed spec fn spec_group_count(&self) -> nat {
        self.groups@.len()
    }

    /// The number of registered metrics.
    pub closed spec fn spec_metric_count(&self) -> nat {
        self.metrics_by_name@.len()
    }

    /// The exported name registered at position `i`.
    pub closed spec fn spec_name_at(&self, i: int) -> Seq<char> {
        self.metrics_by_name@[i].0@
    }

    /// The descriptor registered at position `i`.
    pub closed spec fn spec_descriptor_at(&self, i: int) -> FullMetricDescriptor {
        self.metrics_by_name@[i].1
    }

    /// The group descriptor registered at position `i`.
    pub closed spec fn spec_group_at(&self, i: int) -> MetricGroupDescriptor {
        self.groups@[i]
    }

    /// Creates an empty index.
    pub fn new() -> (r: Self)
        ensures
            r.spec_metric_count() == 0,
            r.spec_group_count() == 0,
            forall|n: Seq<char>| !r.spec_has_metric(n),
    {
        RegisteredDescriptors { groups: Vec::new(), metrics_by_name: Vec::new() }
    }

    /// The registered group descriptors, in registration order.
    pub fn groups(&self) -> (r: &Vec<MetricGroupDescriptor>)
        ensures
            r@.len() == self.spec_group_count(),
            forall|i: int| 0 <= i < r@.len() ==> #[trigger] r@[i] == self.spec_group_at(i),
    {
        &self.groups
    }

    /// Obtains a metric by its exported name: the descriptor registered
    /// first under that name.
    pub fn metric(&self, full_name: &str) -> (r: Option<FullMetricDescriptor>)
        ensures
            r is Some <==> self.spec_has_metric(full_name@),
            r matches Some(d) ==> exists|i: int|
                {
                    &&& 0 <= i < self.spec_metric_count()
                    &&& #[trigger] self.spec_name_at(i) == full_name@
                    &&& (forall|j: int| 0 <= j < i ==> self.spec_name_at(j) != full_name@)
                    &&& d == self.spec_descriptor_at(i)
                },
    {
        let n = self.metrics_by_name.len();
        let mut i: usize = 0;
        while i < n
            invariant
                n == self.metrics_by_name@.len(),
                0 <= i <= n,
                forall|j: int|
                    0 <= j < i ==> (#[trigger] self.metrics_by_name@[j]).0@ != full_name@,
            decreases n - i,
        {
            if str_eq(self.metrics_by_name[i].0.as_str(), full_name) {
                proof {
                    assert(self.spec_name_at(i as int) == full_name@);
                    assert(forall|j: int|
                        0 <= j < i ==> #[trigger] self.spec_name_at(j) != full_name@);
                }
                return Some(self.metrics_by_name[i].1);
            }
            i += 1;
        }
        None
    }

    /// The total number of registered metrics.
    pub fn metric_count(&self) -> (r: usize)
        ensures
            r == self.spec_metric_count(),
    {
        self.metrics_by_name.len()
    }

    /// Registers every metric of a group, rejecting the whole group if
    /// any of its exported names is already taken or appears twice in
    /// the group; on rejection the index is unchanged.
    pub fn push(&mut self, group: &MetricGroupDescriptor) -> (r: Result<
        (),
        MetricRedefinitionError,
    >)
        ensures
            r is Ok <==> ({
                &&& forall|k: int|
                    0 <= k < group.metrics@.len() ==> !old(self).spec_has_metric(
                        spec_full_name(
                            (#[trigger] group.metrics@[k]).name@,
                            group.metrics@[k].unit,
                        ),
                    )
                &&& forall|k1: int, k2: int|
                    0 <= k1 < k2 < group.metrics@.len() ==> spec_full_name(
                        (#[trigger] group.metrics@[k1]).name@,
                        group.metrics@[k1].unit,
                    ) != spec_full_name(
                        (#[trigger] group.metrics@[k2]).name@,
                        group.metrics@[k2].unit,
                    )
            }),
            r is Ok ==> forall|n: Seq<char>|
                #[trigger] final(self).spec_has_metric(n) <==> (old(self).spec_has_metric(n)
                    || exists|k: int|
                    0 <= k < group.metrics@.len() && n == spec_full_name(
                        (#[trigger] group.metrics@[k]).name@,
                        group.metrics@[k].unit,
                    )),
            r is Ok ==> final(self).spec_group_count() == old(self).spec_group_count() + 1
                && final(self).spec_metric_count() == old(self).spec_metric_count()
                + group.metrics@.len(),
            r is Ok ==> forall|i: int|
                0 <= i < old(self).spec_metric_count() ==> #[trigger] final(self).spec_name_at(i)
                    == old(self).spec_name_at(i) && final(self).spec_descriptor_at(i)
                    == old(self).spec_descriptor_at(i),
            r is Ok ==> forall|k: int|
                0 <= k < group.metrics@.len()
                    ==> #[trigger] final(self).spec_name_at(old(self).spec_metric_count() + k)
                    == spec_full_name(group.metrics@[k].name@, group.metrics@[k].unit)
                    && final(self).spec_descriptor_at(old(self).spec_metric_count() + k)
                    == spec_descriptor_of(*group, group.metrics@[k]),
            r is Ok ==> spec_group_matches(
                final(self).spec_group_at(old(self).spec_group_count() as int),
                *group,
            ) && forall|i: int|
                0 <= i < old(self).spec_group_count() ==> #[trigger] final(self).spec_group_at(i)
                    == old(self).spec_group_at(i),
            r matches Err(e) ==> spec_clash_reported(*old(self), *group, e),
            r is Err ==> *final(self) == *old(self),
    {
        // First pass: find a collision with already registered names or
        // within the group itself.
        let m = group.metrics.len();
        let mut k: usize = 0;
        while k < m
            invariant
                *self == *old(self),
                m == group.metrics@.len(),
                0 <= k <= m,
                forall|j: int|
                    0 <= j < k ==> !self.spec_has_metric(
                        spec_full_name(
                            (#[trigger] group.metrics@[j]).name@,
                            group.metrics@[j].unit,
                        ),
                    ),
                forall|j1: int, j2: int|
                    0 <= j1 < j2 < k ==> spec_full_name(
                        (#[trigger] group.metrics@[j1]).name@,
                        group.metrics@[j1].unit,
                    ) != spec_full_name(
                        (#[trigger] group.metrics@[j2]).name@,
                        group.metrics@[j2].unit,
                    ),
            decreases m - k,
        {
            let metric = group.metrics[k];
            let full_name = metric.full_name();
            match self.metric(full_name.as_str()) {
                Some(prev) => {
                    let err = MetricRedefinitionError {
                        full_name,
                        new_definition: FullMetricDescriptor::new(group, metric),
                        prev_definition: prev,
                    };
                    proof {
                        let i = choose|i: int|
                            {
                                &&& 0 <= i < self.spec_metric_count()
                                &&& #[trigger] self.spec_name_at(i) == err.full_name@
                                &&& (forall|j: int|
                                    0 <= j < i ==> self.spec_name_at(j) != err.full_name@)
                                &&& prev == self.spec_descriptor_at(i)
                            };
                        assert(old(self).spec_name_at(i) == err.full_name@ && err.prev_definition
                            == old(self).spec_descriptor_at(i));
                        assert(err.full_name@ == spec_full_name(
                            (group.metrics@[k as int]).name@,
                            group.metrics@[k as int].unit,
                        ));
                    }
                    return Err(err);
                },
                None => {},
            }
            // Check against the earlier metrics of this same group.
            let mut j: usize = 0;
            while j < k
                invariant
                    m == group.metrics@.len(),
                    0 <= j <= k < m,
                    metric == group.metrics@[k as int],
                    full_name@ == spec_full_name(
                        group.metrics@[k as int].name@,
                        group.metrics@[k as int].unit,
                    ),
                    forall|j2: int|
                        0 <= j2 < j ==> spec_full_name(
                            (#[trigger] group.metrics@[j2]).name@,
                            group.metrics@[j2].unit,
                        ) != full_name@,
                decreases k - j,
            {
                let other = group.metrics[j];
                let other_name = other.full_name();
                if str_eq(other_name.as_str(), full_name.as_str()) {
                    let err = MetricRedefinitionError {
                        full_name,
                        new_definition: FullMetricDescriptor::new(group, metric),
                        prev_definition: FullMetricDescriptor::new(group, other),
                    };
                    proof {
                        assert(spec_full_name(
                            (group.metrics@[j as int]).name@,
                            group.metrics@[j as int].unit,
                        ) == err.full_name@);
                        assert(err.full_name@ == spec_full_name(
                            (group.metrics@[k as int]).name@,
                            group.metrics@[k as int].unit,
                        ));
                    }
                    return Err(err);
                }
                j += 1;
            }
            k += 1;
        }
        // Second pass: insert every metric.
        let ghost pre = *self;
        let mut k2: usize = 0;
        while k2 < m
            invariant
                m == group.metrics@.len(),
                0 <= k2 <= m,
                self.groups@ == pre.groups@,
                self.metrics_by_name@.len() == pre.metrics_by_name@.len() + k2,
                forall|j: int|
                    0 <= j < pre.metrics_by_name@.len() ==> #[trigger] self.metrics_by_name@[j]
                        == pre.metrics_by_name@[j],
                forall|j: int|
                    0 <= j < k2 ==> (#[trigger] self.metrics_by_name@[pre.metrics_by_name@.len()
                        + j]).0@ == spec_full_name(
                        group.metrics@[j].name@,
                        group.metrics@[j].unit,
                    ) && (self.metrics_by_name@[pre.metrics_by_name@.len() + j]).1
                        == spec_descriptor_of(*group, group.metrics@[j]),
            decreases m - k2,
        {
            let metric = group.metrics[k2];
            let full_name = metric.full_name();
            let descriptor = FullMetricDescriptor::new(group, metric);
            self.metrics_by_name.push((full_name, descriptor));
            k2 += 1;
        }
        self.groups.push(group.duplicate());
        proof {
            assert forall|n: Seq<char>| #[trigger]
                self.spec_has_metric(n) <==> (pre.spec_has_metric(n) || exists|k: int|
                    0 <= k < group.metrics@.len() && n == spec_full_name(
                        (#[trigger] group.metrics@[k]).name@,
                        group.metrics@[k].unit,
                    )) by {
                if self.spec_has_metric(n) {
                    let i = choose|i: int|
                        0 <= i < self.metrics_by_name@.len() && (
                        #[trigger] self.metrics_by_name@[i]).0@ == n;
                    if i < pre.metrics_by_name@.len() {
                        assert(pre.metrics_by_name@[i].0@ == n);
                    } else {
                        assert((self.metrics_by_name@[pre.metrics_by_name@.len() + (i
                            - pre.metrics_by_name@.len())]).0@ == n);
                    }
                }
                if pre.spec_has_metric(n) {
                    let i = choose|i: int|
                        0 <= i < pre.metrics_by_name@.len() && (
                        #[trigger] pre.metrics_by_name@[i]).0@ == n;
                    assert(self.metrics_by_name@[i].0@ == n);
                }
                if exists|k: int|
                    0 <= k < group.metrics@.len() && n == spec_full_name(
                        (#[trigger] group.metrics@[k]).name@,
                        group.metrics@[k].unit,
                    ) {
                    let k = choose|k: int|
                        0 <= k < group.metrics@.len() && n == spec_full_name(
                            (#[trigger] group.metrics@[k]).name@,
                            group.metrics@[k].unit,
                        );
                    assert((self.metrics_by_name@[pre.metrics_by_name@.len() + k]).0@ == n);
                }
            }
        }
        Ok(())
    }
}

/// One registered source of series for a metric name: the group labels
/// composed ahead of the metric's own, and the readable metric.
pub struct MetricSource {
    pub group_labels: Vec<LabelPair>,
    pub metric: Box<dyn CollectMetric>,
}

/// One metric name with its metadata and its registered sources.
pub struct RegistryEntry {
    pub name: String,
    pub help: String,
    pub unit: Option<Unit>,
    pub kind: MetricKind,
    pub sources: Vec<MetricSource>,
}

/// Whether the collected entries declare every resolved name once.
pub open spec fn spec_entry_names_unique(entries: Seq<RegistryEntry>) -> bool {
    forall|i: int, j: int|
        0 <= i < j < entries.len() ==> (#[trigger] entries[i]).name@
            != (#[trigger] entries[j]).name@
}

/// Whether an entry with the given resolved name was collected.
pub open spec fn spec_entries_have_name(entries: Seq<RegistryEntry>, name: Seq<char>) -> bool {
    exists|i: int| 0 <= i < entries.len() && (#[trigger] entries[i]).name@ == name
}

/// Whether two label pair sequences agree name- and value-wise.
pub open spec fn spec_pairs_match(a: Seq<LabelPair>, b: Seq<LabelPair>) -> bool {
    a.len() == b.len() && forall|m: int|
        0 <= m < a.len() ==> crate::encoding::spec_pair(#[trigger] a[m])
            == crate::encoding::spec_pair(b[m])
}

/// Whether `a` is `b` with the same declaration data (name, help, unit,
/// kind) and at least `b`'s sources, in order.
pub open spec fn spec_entry_same_decl(a: RegistryEntry, b: RegistryEntry) -> bool {
    &&& a.name@ == b.name@
    &&& a.help@ == b.help@
    &&& a.unit == b.unit
    &&& a.kind == b.kind
    &&& a.sources@.len() >= b.sources@.len()
    &&& forall|s: int| 0 <= s < b.sources@.len() ==> #[trigger] a.sources@[s] == b.sources@[s]
}

/// Whether `a` is `b` with exactly one source appended, carrying the
/// given group labels.
pub open spec fn spec_entry_gains_source(
    a: RegistryEntry,
    b: RegistryEntry,
    group_labels: Seq<LabelPair>,
) -> bool {
    &&& spec_entry_same_decl(a, b)
    &&& a.sources@.len() == b.sources@.len() + 1
    &&& spec_pairs_match(a.sources@.last().group_labels@, group_labels)
}

proof fn lemma_same_decl_refl(a: RegistryEntry)
    ensures
        spec_entry_same_decl(a, a),
{
}

proof fn lemma_same_decl_entry_chain(a: RegistryEntry, b: RegistryEntry, c: RegistryEntry)
    requires
        spec_entry_same_decl(b, a),
        spec_entry_same_decl(c, b),
    ensures
        spec_entry_same_decl(c, a),
{
}

/// `spec_entry_same_decl` composes across entry sequences.
proof fn lemma_same_decl_chain(a: Seq<RegistryEntry>, b: Seq<RegistryEntry>, c: Seq<RegistryEntry>)
    requires
        b.len() >= a.len(),
        c.len() >= b.len(),
        forall|i: int| 0 <= i < a.len() ==> spec_entry_same_decl(#[trigger] b[i], a[i]),
        forall|i: int| 0 <= i < b.len() ==> spec_entry_same_decl(#[trigger] c[i], b[i]),
    ensures
        forall|i: int| 0 <= i < a.len() ==> spec_entry_same_decl(#[trigger] c[i], a[i]),
{
    assert forall|i: int| 0 <= i < a.len() implies spec_entry_same_decl(#[trigger] c[i], a[i]) by {
        lemma_same_decl_entry_chain(a[i], b[i], c[i]);
    }
}

/// The visitor handed to [`Metrics::visit_metrics`]: collects every
/// reported leaf metric, coalescing metrics that share a resolved name
/// into one entry with several sources.
pub struct MetricsVisitor {
    group_labels: Vec<LabelPair>,
    entries: Vec<RegistryEntry>,
}

impl MetricsVisitor {
    /// The entries collected so far.
    pub closed spec fn spec_entries(&self) -> Seq<RegistryEntry> {
        self.entries@
    }

    /// The group labels this visitor attaches to every visited metric.
    pub closed spec fn spec_group_labels(&self) -> Seq<LabelPair> {
        self.group_labels@
    }

    /// A visitor with no group labels.
    pub fn new() -> (r: Self)
        ensures
            r.spec_entries().len() == 0,
            r.spec_group_labels().len() == 0,
    {
        MetricsVisitor { group_labels: Vec::new(), entries: Vec::new() }
    }

    /// A visitor that attaches the given group labels to every visited
    /// metric.
    pub fn with_group_labels(group_labels: Vec<LabelPair>) -> (r: Self)
        ensures
            r.spec_entries().len() == 0,
            r.spec_group_labels() == group_labels@,
    {
        MetricsVisitor { group_labels, entries: Vec::new() }
    }

    /// Reports one leaf metric under its resolved name. Metrics sharing a
    /// resolved name are coalesced into one entry: the metric joins the
    /// existing entry's sources, so that every name is declared once.
    #[verifier::rlimit(100)]
    #[verifier::spinoff_prover]
    pub fn visit_metric(
        &mut self,
        name: String,
        help: &'static str,
        unit: Option<Unit>,
        metric: Box<dyn CollectMetric>,
    )
        ensures
            final(self).spec_group_labels() == old(self).spec_group_labels(),
            spec_entry_names_unique(old(self).spec_entries()) ==> spec_entry_names_unique(
                final(self).spec_entries(),
            ),
            spec_entries_have_name(final(self).spec_entries(), name@),
            spec_entries_have_name(old(self).spec_entries(), name@) ==> ({
                &&& final(self).spec_entries().len() == old(self).spec_entries().len()
                &&& exists|i: int|
                    {
                        &&& 0 <= i < old(self).spec_entries().len()
                        &&& (#[trigger] old(self).spec_entries()[i]).name@ == name@
                        &&& (forall|j: int|
                            0 <= j < i ==> old(self).spec_entries()[j].name@ != name@)
                        &&& spec_entry_gains_source(
                            final(self).spec_entries()[i],
                            old(self).spec_entries()[i],
                            old(self).spec_group_labels(),
                        )
                        &&& (forall|j: int|
                            0 <= j < old(self).spec_entries().len() && j != i
                                ==> final(self).spec_entries()[j] == old(self).spec_entries()[j])
                    }
            }),
            !spec_entries_have_name(old(self).spec_entries(), name@) ==> ({
                &&& final(self).spec_entries().len() == old(self).spec_entries().len() + 1
                &&& (forall|j: int|
                    0 <= j < old(self).spec_entries().len()
                        ==> #[trigger] final(self).spec_entries()[j] == old(
                        self,
                    ).spec_entries()[j])
                &&& final(self).spec_entries().last().name@ == name@
                &&& final(self).spec_entries().last().help@ == help@
                &&& final(self).spec_entries().last().unit == unit
                &&& final(self).spec_entries().last().sources@.len() == 1
                &&& spec_pairs_match(
                    final(self).spec_entries().last().sources@[0].group_labels@,
                    old(self).spec_group_labels(),
                )
            }),
    {
        let ghost entries0 = self.entries@;
        let kind = metric.metric_kind();
        let labels = clone_pairs(&self.group_labels);
        let source = MetricSource { group_labels: labels, metric };
        let ghost src = source;
        let n = self.entries.len();
        let mut i: usize = 0;
        while i < n
            invariant
                *self == *old(self),
                entries0 == self.entries@,
                entries0 == old(self).spec_entries(),
                n == self.entries@.len(),
                0 <= i <= n,
                source == src,
                spec_pairs_match(src.group_labels@, old(self).spec_group_labels()),
                forall|j: int| 0 <= j < i ==> (#[trigger] entries0[j]).name@ != name@,
            decreases n - i,
        {
            if str_eq(self.entries[i].name.as_str(), name.as_str()) {
                self.entries[i].sources.push(source);
                proof {
                    assert(entries0[i as int].name@ == name@);
                    assert(spec_entries_have_name(self.entries@, name@));
                    assert(spec_entry_gains_source(
                        self.entries@[i as int],
                        entries0[i as int],
                        old(self).spec_group_labels(),
                    ));
                    assert(spec_entry_names_unique(entries0) ==> spec_entry_names_unique(
                        self.entries@,
                    )) by {
                        if spec_entry_names_unique(entries0) {
                            assert forall|a: int, b: int|
                                0 <= a < b < self.entries@.len() implies (
                            #[trigger] self.entries@[a]).name@ != (#[trigger] self.entries@[b]).name@ by {
                                assert(self.entries@[a].name@ == entries0[a].name@);
                                assert(self.entries@[b].name@ == entries0[b].name@);
                            }
                        }
                    }
                }
                return ;
            }
            i += 1;
        }
        let mut help_text = String::new();
        help_text.append(help);
        proof {
            assert(help_text@ =~= help@);
        }
        let sources = singleton_source(source);
        proof {
            assert(sources@[0] == src);
        }
        let ghost svec = sources@;
        self.entries.push(RegistryEntry { name, help: help_text, unit, kind, sources });
        proof {
            assert(self.entries@.last().sources@ == svec);
            assert(self.entries@.last().sources@[0] == src);
            assert(!spec_entries_have_name(entries0, self.entries@.last().name@));
            assert(spec_entries_have_name(self.entries@, self.entries@.last().name@));
            assert(spec_entry_names_unique(entries0) ==> spec_entry_names_unique(self.entries@))
                by {
                if spec_entry_names_unique(entries0) {
                    assert forall|a: int, b: int|
                        0 <= a < b < self.entries@.len() implies (
                    #[trigger] self.entries@[a]).name@ != (#[trigger] self.entries@[b]).name@ by {
                        if b < entries0.len() {
                            assert(self.entries@[a].name@ == entries0[a].name@);
                            assert(self.entries@[b].name@ == entries0[b].name@);
                        } else {
                            assert(self.entries@[a].name@ == entries0[a].name@);
                            assert(entries0[a].name@ != self.entries@[b].name@);
                        }
                    }
                }
            }
        }
    }

    /// Merges the entries collected by a sub-visitor, prefixing this
    /// visitor's group labels to every absorbed source and coalescing by
    /// resolved name: existing declarations keep their metadata and only
    /// gain sources, and name uniqueness is preserved.
    pub fn absorb(&mut self, other: MetricsVisitor)
        ensures
            final(self).spec_group_labels() == old(self).spec_group_labels(),
            spec_entry_names_unique(old(self).spec_entries()) ==> spec_entry_names_unique(
                final(self).spec_entries(),
            ),
            final(self).spec_entries().len() >= old(self).spec_entries().len(),
            forall|i: int|
                0 <= i < old(self).spec_entries().len() ==> spec_entry_same_decl(
                    #[trigger] final(self).spec_entries()[i],
                    old(self).spec_entries()[i],
                ),
    {
        let ghost start = *old(self);
        let mut other_entries = other.entries;
        loop
            invariant_except_break
                self.spec_group_labels() == start.spec_group_labels(),
                spec_entry_names_unique(start.spec_entries()) ==> spec_entry_names_unique(
                    self.spec_entries(),
                ),
                self.spec_entries().len() >= start.spec_entries().len(),
                forall|i: int|
                    0 <= i < start.spec_entries().len() ==> spec_entry_same_decl(
                        #[trigger] self.spec_entries()[i],
                        start.spec_entries()[i],
                    ),
            ensures
                self.spec_group_labels() == start.spec_group_labels(),
                spec_entry_names_unique(start.spec_entries()) ==> spec_entry_names_unique(
                    self.spec_entries(),
                ),
                self.spec_entries().len() >= start.spec_entries().len(),
                forall|i: int|
                    0 <= i < start.spec_entries().len() ==> spec_entry_same_decl(
                        #[trigger] self.spec_entries()[i],
                        start.spec_entries()[i],
                    ),
            decreases other_entries@.len(),
        {
            if other_entries.len() == 0 {
                break;
            }
            let ghost mid = *self;
            let entry = other_entries.remove(0);
            self.absorb_entry(entry);
            proof {
                lemma_same_decl_chain(start.spec_entries(), mid.spec_entries(), self.spec_entries());
            }
        }
    }

    /// Folds one absorbed entry in, composing this visitor's group labels
    /// ahead of each of its sources.
    fn absorb_entry(&mut self, entry: RegistryEntry)
        ensures
            final(self).spec_group_labels() == old(self).spec_group_labels(),
            spec_entry_names_unique(old(self).spec_entries()) ==> spec_entry_names_unique(
                final(self).spec_entries(),
            ),
            final(self).spec_entries().len() >= old(self).spec_entries().len(),
            forall|i: int|
                0 <= i < old(self).spec_entries().len() ==> spec_entry_same_decl(
                    #[trigger] final(self).spec_entries()[i],
                    old(self).spec_entries()[i],
                ),
    {
        let ghost entries0 = self.entries@;
        let RegistryEntry { name, help, unit, kind, sources } = entry;
        let mut prefixed: Vec<MetricSource> = Vec::new();
        let mut sources_left = sources;
        loop
            invariant
                *self == *old(self),
                entries0 == self.entries@,
                entries0 == old(self).spec_entries(),
            decreases sources_left@.len(),
        {
            if sources_left.len() == 0 {
                break;
            }
            let source = sources_left.remove(0);
            let composed = FullLabelSet::new(&self.group_labels, &source.group_labels);
            prefixed.push(MetricSource { group_labels: composed.pairs, metric: source.metric });
        }
        let n = self.entries.len();
        let mut i: usize = 0;
        while i < n
            invariant
                *self == *old(self),
                entries0 == self.entries@,
                entries0 == old(self).spec_entries(),
                n == self.entries@.len(),
                0 <= i <= n,
                forall|j: int| 0 <= j < i ==> (#[trigger] entries0[j]).name@ != name@,
            decreases n - i,
        {
            if str_eq(self.entries[i].name.as_str(), name.as_str()) {
                let mut prefixed_left = prefixed;
                loop
                    invariant
                        0 <= i < self.entries@.len(),
                        self.spec_group_labels() == old(self).spec_group_labels(),
                        entries0 == old(self).spec_entries(),
                        self.entries@.len() == entries0.len(),
                        forall|j: int|
                            0 <= j < entries0.len() && j != i ==> #[trigger] self.entries@[j]
                                == entries0[j],
                        spec_entry_same_decl(self.entries@[i as int], entries0[i as int]),
                    decreases prefixed_left@.len(),
                {
                    if prefixed_left.len() == 0 {
                        break;
                    }
                    let source = prefixed_left.remove(0);
                    let ghost before = self.entries@;
                    self.entries[i].sources.push(source);
                    proof {
                        assert(spec_entry_same_decl(self.entries@[i as int], before[i as int]));
                        lemma_same_decl_entry_chain(
                            entries0[i as int],
                            before[i as int],
                            self.entries@[i as int],
                        );
                    }
                }
                proof {
                    assert forall|j: int|
                        0 <= j < entries0.len() implies spec_entry_same_decl(
                        #[trigger] self.entries@[j],
                        entries0[j],
                    ) by {
                        if j != i {
                            assert(self.entries@[j] == entries0[j]);
                            lemma_same_decl_refl(entries0[j]);
                        }
                    }
                    assert(spec_entry_names_unique(entries0) ==> spec_entry_names_unique(
                        self.entries@,
                    )) by {
                        if spec_entry_names_unique(entries0) {
                            assert forall|a: int, b: int|
                                0 <= a < b < self.entries@.len() implies (
                            #[trigger] self.entries@[a]).name@ != (#[trigger] self.entries@[b]).name@ by {
                                assert(self.entries@[a].name@ == entries0[a].name@);
                                assert(self.entries@[b].name@ == entries0[b].name@);
                            }
                        }
                    }
                }
                return ;
            }
            i += 1;
        }
        self.entries.push(RegistryEntry { name, help, unit, kind, sources: prefixed });
        proof {
            assert forall|j: int|
                0 <= j < entries0.len() implies spec_entry_same_decl(
                #[trigger] self.entries@[j],
                entries0[j],
            ) by {
                assert(self.entries@[j] == entries0[j]);
                lemma_same_decl_refl(entries0[j]);
            }
            assert(spec_entry_names_unique(entries0) ==> spec_entry_names_unique(self.entries@))
                by {
                if spec_entry_names_unique(entries0) {
                    assert forall|a: int, b: int|
                        0 <= a < b < self.entries@.len() implies (
                    #[trigger] self.entries@[a]).name@ != (#[trigger] self.entries@[b]).name@ by {
                        if b < entries0.len() {
                            assert(self.entries@[a].name@ == entries0[a].name@);
                            assert(self.entries@[b].name@ == entries0[b].name@);
                        } else {
                            assert(self.entries@[a].name@ == entries0[a].name@);
                            assert(forall|j2: int|
                                0 <= j2 < entries0.len() ==> (#[trigger] entries0[j2]).name@
                                    != self.entries@[b].name@);
                        }
                    }
                }
            }
        }
    }

    fn into_entries(self) -> Vec<RegistryEntry> {
        self.entries
    }
}

/// Wraps one source as a singleton source list.
fn singleton_source(source: MetricSource) -> (r: Vec<MetricSource>)
    ensures
        r@.len() == 1,
        r@[0] == source,
{
    let mut v: Vec<MetricSource> = Vec::new();
    v.push(source);
    v
}

/// Copies a label pair vector.
fn clone_pairs(pairs: &Vec<LabelPair>) -> (r: Vec<LabelPair>)
    ensures
        r@.len() == pairs@.len(),
        forall|i: int|
            0 <= i < pairs@.len() ==> crate::encoding::spec_pair(#[trigger] r@[i])
                == crate::encoding::spec_pair(pairs@[i]),
{
    let mut out: Vec<LabelPair> = Vec::new();
    let mut i: usize = 0;
    while i < pairs.len()
        invariant
            0 <= i <= pairs@.len(),
            out@.len() == i,
            forall|j: int|
                0 <= j < i ==> crate::encoding::spec_pair(#[trigger] out@[j])
                    == crate::encoding::spec_pair(pairs@[j]),
        decreases pairs@.len() - i,
    {
        out.push(clone_pair(&pairs[i]));
        i += 1;
    }
    out
}

/// A source of metrics visited at scrape time: lazy groups contribute
/// only once touched, collectors produce fresh metrics on every scrape.
pub trait LazyCollect: Send + Sync {
    fn visit_if_initialized(&self, visitor: &mut MetricsVisitor);
}

impl<M: Metrics + Default> LazyCollect for Global<M> {
    fn visit_if_initialized(&self, visitor: &mut MetricsVisitor) {
        Global::visit_if_initialized(self, visitor);
    }
}

impl<S, M> LazyCollect for MetricsFamily<S, M> where
    S: Clone + Eq + core::hash::Hash + crate::encoding::EncodeLabelSet + Send + Sync + 'static,
    M: Metrics + Default,
 {
    fn visit_if_initialized(&self, visitor: &mut MetricsVisitor) {
        self.visit_groups(visitor);
    }
}

impl<M: Metrics> LazyCollect for Collector<M> {
    fn visit_if_initialized(&self, visitor: &mut MetricsVisitor) {
        Collector::visit_if_initialized(self, visitor);
    }
}

/// Whether a series' labels begin with the given group labels.
pub open spec fn spec_labels_prefixed(
    labels: Seq<LabelPair>,
    group_labels: Seq<LabelPair>,
) -> bool {
    labels.len() >= group_labels.len() && forall|m: int|
        0 <= m < group_labels.len() ==> crate::encoding::spec_pair(#[trigger] labels[m])
            == crate::encoding::spec_pair(group_labels[m])
}

/// Whether a series carries the group labels of one of the given
/// sources as a prefix of its labels.
pub open spec fn spec_series_from_sources(s: MetricSeries, sources: Seq<MetricSource>) -> bool {
    exists|j: int|
        0 <= j < sources.len() && spec_labels_prefixed(
            s.labels@,
            (#[trigger] sources[j]).group_labels@,
        )
}

/// Whether a rendered entry is a snapshot of a stored registry entry: it
/// carries the entry's name, help, unit and kind, and each of its series
/// begins with the group labels of one of the entry's sources. The
/// sampled values themselves come from shared atomic state and are not
/// pinned.
pub open spec fn spec_snapshot_matches(re: RenderEntry, e: RegistryEntry) -> bool {
    &&& re.name@ == e.name@
    &&& re.help@ == e.help@
    &&& re.unit == e.unit
    &&& re.kind == e.kind
    &&& forall|k: int|
        0 <= k < re.series@.len() ==> spec_series_from_sources(
            #[trigger] re.series@[k],
            e.sources@,
        )
}

/// The document appended to `prefix` when a snapshot is encoded in a
/// format.
pub open spec fn spec_appended_document(
    prefix: Seq<char>,
    snapshot: Seq<RenderEntry>,
    format: Format,
) -> Option<Seq<char>> {
    match spec_encode_document(snapshot, format) {
        Some(t) => Some(prefix + t),
        None => None,
    }
}

/// Metrics registry: collects metric groups and collectors, detects
/// exported-name collisions eagerly at registration, and encodes the
/// current state to a text format on demand.
pub struct Registry {
    descriptors: RegisteredDescriptors,
    entries: Vec<RegistryEntry>,
    dynamic: Vec<Box<dyn LazyCollect>>,
    is_lazy: bool,
}

impl Registry {
    /// The number of registered metric names.
    pub closed spec fn spec_metric_count(&self) -> nat {
        self.descriptors.spec_metric_count()
    }

    /// The number of registered groups.
    pub closed spec fn spec_group_count(&self) -> nat {
        self.descriptors.spec_group_count()
    }

    /// The eagerly registered entries, in registration order.
    pub closed spec fn spec_entries(&self) -> Seq<RegistryEntry> {
        self.entries@
    }

    /// Whether global groups are exported only once touched.
    pub closed spec fn spec_is_lazy(&self) -> bool {
        self.is_lazy
    }

    /// The descriptor index.
    pub closed spec fn spec_descriptors(&self) -> RegisteredDescriptors {
        self.descriptors
    }

    /// Creates an empty registry.
    pub fn empty() -> (r: Registry)
        ensures
            r.spec_metric_count() == 0,
            r.spec_group_count() == 0,
            r.spec_entries().len() == 0,
            !r.spec_is_lazy(),
    {
        Registry {
            descriptors: RegisteredDescriptors::new(),
            entries: Vec::new(),
            dynamic: Vec::new(),
            is_lazy: false,
        }
    }

    /// Creates an empty registry whose global groups are exported only
    /// once touched.
    pub fn empty_lazy() -> (r: Registry)
        ensures
            r.spec_metric_count() == 0,
            r.spec_group_count() == 0,
            r.spec_entries().len() == 0,
            r.spec_is_lazy(),
    {
        Registry {
            descriptors: RegisteredDescriptors::new(),
            entries: Vec::new(),
            dynamic: Vec::new(),
            is_lazy: true,
        }
    }

    /// Descriptors for all registered metrics.
    pub fn descriptors(&self) -> (r: &RegisteredDescriptors)
        ensures
            *r == self.spec_descriptors(),
    {
        &self.descriptors
    }

    /// Registers a group of metrics eagerly: its state is always
    /// exported, even if never touched. Registration fails if and only
    /// if a metric name collides with an already registered one, and a
    /// failed registration leaves the registry unchanged.
    pub fn register_metrics<M: Metrics>(&mut self, metrics: &M) -> (r: Result<
        (),
        MetricRedefinitionError,
    >)
        ensures
            r is Err ==> *final(self) == *old(self),
            r is Ok ==> final(self).spec_group_count() == old(self).spec_group_count() + 1,
            r is Ok ==> final(self).spec_metric_count() >= old(self).spec_metric_count(),
            r is Ok ==> final(self).spec_entries().len() >= old(self).spec_entries().len()
                && (forall|i: int|
                0 <= i < old(self).spec_entries().len()
                    ==> #[trigger] final(self).spec_entries()[i] == old(self).spec_entries()[i]),
            r is Ok ==> final(self).spec_is_lazy() == old(self).spec_is_lazy(),
    {
        let descriptor = M::descriptor();
        match self.descriptors.push(&descriptor) {
            Ok(()) => {},
            Err(e) => {
                return Err(e);
            },
        }
        let mut visitor = MetricsVisitor::new();
        metrics.visit_metrics(&mut visitor);
        let mut collected = visitor.into_entries();
        let ghost mid = *self;
        loop
            invariant
                self.descriptors == mid.descriptors,
                self.dynamic@ == mid.dynamic@,
                self.is_lazy == mid.is_lazy,
                self.entries@.len() >= mid.entries@.len(),
                forall|i: int|
                    0 <= i < mid.entries@.len() ==> #[trigger] self.entries@[i]
                        == mid.entries@[i],
            decreases collected@.len(),
        {
            if collected.len() == 0 {
                break;
            }
            let entry = collected.remove(0);
            self.entries.push(entry);
        }
        Ok(())
    }

    /// Registers a global group. In a lazy registry (or when forced) the
    /// group is only exported once touched; otherwise it is registered
    /// eagerly. A failed registration leaves the registry unchanged.
    pub fn register_global<M: Metrics + Default>(
        &mut self,
        global: &Global<M>,
        force_lazy: bool,
    ) -> (r: Result<(), MetricRedefinitionError>)
        ensures
            r is Err ==> *final(self) == *old(self),
            r is Ok ==> final(self).spec_group_count() == old(self).spec_group_count() + 1,
            r is Ok ==> final(self).spec_entries().len() >= old(self).spec_entries().len()
                && (forall|i: int|
                0 <= i < old(self).spec_entries().len()
                    ==> #[trigger] final(self).spec_entries()[i] == old(self).spec_entries()[i]),
            r is Ok ==> final(self).spec_is_lazy() == old(self).spec_is_lazy(),
            (r is Ok && (force_lazy || old(self).spec_is_lazy())) ==> final(self).spec_entries()
                == old(self).spec_entries(),
    {
        if force_lazy || self.is_lazy {
            let descriptor = M::descriptor();
            match self.descriptors.push(&descriptor) {
                Ok(()) => {},
                Err(e) => {
                    return Err(e);
                },
            }
            self.dynamic.push(Box::new(global.clone()));
            Ok(())
        } else {
            self.register_metrics(global.get())
        }
    }

    /// Registers a family of metric groups; it is always visited at
    /// scrape time, so only materialized label combinations are
    /// exported.
    pub fn register_metrics_family<S, M>(&mut self, family: &MetricsFamily<S, M>) -> (r: Result<
        (),
        MetricRedefinitionError,
    >) where
        S: Clone + Eq + core::hash::Hash + crate::encoding::EncodeLabelSet + Send + Sync
            + 'static,
        M: Metrics + Default,

        ensures
            r is Err ==> *final(self) == *old(self),
            r is Ok ==> final(self).spec_group_count() == old(self).spec_group_count() + 1
                && final(self).spec_entries() == old(self).spec_entries()
                && final(self).spec_is_lazy() == old(self).spec_is_lazy(),
    {
        let descriptor = M::descriptor();
        match self.descriptors.push(&descriptor) {
            Ok(()) => {},
            Err(e) => {
                return Err(e);
            },
        }
        self.dynamic.push(Box::new(family.clone()));
        Ok(())
    }

    /// Registers a collector: its metrics are computed freshly on every
    /// scrape, and a collector whose backing state is gone contributes
    /// nothing.
    pub fn register_collector<M: Metrics>(&mut self, collector: &Collector<M>) -> (r: Result<
        (),
        MetricRedefinitionError,
    >)
        ensures
            r is Err ==> *final(self) == *old(self),
            r is Ok ==> final(self).spec_group_count() == old(self).spec_group_count() + 1
                && final(self).spec_entries() == old(self).spec_entries()
                && final(self).spec_is_lazy() == old(self).spec_is_lazy(),
    {
        let descriptor = M::descriptor();
        match self.descriptors.push(&descriptor) {
            Ok(()) => {},
            Err(e) => {
                return Err(e);
            },
        }
        self.dynamic.push(Box::new(collector.clone()));
        Ok(())
    }

    /// Takes a snapshot of every registered metric as render entries:
    /// first one entry per eagerly stored entry, in order, then whatever
    /// the scrape-time sources contribute.
    fn snapshot(&self) -> (r: Vec<RenderEntry>)
        ensures
            r@.len() >= self.spec_entries().len(),
            forall|i: int|
                0 <= i < self.spec_entries().len() ==> spec_snapshot_matches(
                    #[trigger] r@[i],
                    self.spec_entries()[i],
                ),
    {
        let mut out: Vec<RenderEntry> = Vec::new();
        let n = self.entries.len();
        let mut i: usize = 0;
        while i < n
            invariant
                n == self.entries@.len(),
                0 <= i <= n,
                out@.len() == i,
                forall|j: int|
                    0 <= j < i ==> spec_snapshot_matches(
                        #[trigger] out@[j],
                        self.entries@[j],
                    ),
            decreases n - i,
        {
            let entry = &self.entries[i];
            out.push(snapshot_entry(entry));
            i += 1;
        }
        let ghost eager = out@;
        let m = self.dynamic.len();
        let mut k: usize = 0;
        let mut visitor = MetricsVisitor::new();
        while k < m
            invariant
                m == self.dynamic@.len(),
                0 <= k <= m,
            decreases m - k,
        {
            self.dynamic[k].visit_if_initialized(&mut visitor);
            k += 1;
        }
        let mut collected = visitor.into_entries();
        loop
            invariant
                out@.len() >= eager.len(),
                forall|j: int| 0 <= j < eager.len() ==> #[trigger] out@[j] == eager[j],
            decreases collected@.len(),
        {
            if collected.len() == 0 {
                break;
            }
            let entry = collected.remove(0);
            out.push(snapshot_entry(&entry));
        }
        out
    }

    /// Encodes all metrics in this registry into `buffer`, in the given
    /// format: the state read at this scrape is rendered in the strict
    /// format and, for the other formats, rewritten by the streaming
    /// translator. The rendered snapshot starts with one entry per
    /// eagerly registered entry, carrying its stored name, help, unit and
    /// kind, and series labelled by its sources' group labels; only the
    /// sampled values and the scrape-time sources' contributions are
    /// read from shared state. A failed encode leaves the buffer
    /// unchanged.
    pub fn encode(&self, buffer: &mut String, format: Format) -> (r: Result<(), FormatError>)
        ensures
            r is Ok ==> exists|snapshot: Seq<RenderEntry>|
                {
                    &&& #[trigger] spec_appended_document(old(buffer)@, snapshot, format)
                        == Some(final(buffer)@)
                    &&& snapshot.len() >= self.spec_entries().len()
                    &&& forall|i: int|
                        0 <= i < self.spec_entries().len() ==> spec_snapshot_matches(
                            #[trigger] snapshot[i],
                            self.spec_entries()[i],
                        )
                },
            r is Err ==> final(buffer)@ == old(buffer)@,
    {
        let entries = self.snapshot();
        let r = encode_document(&entries, format, buffer);
        proof {
            if r is Ok {
                assert(spec_appended_document(old(buffer)@, entries@, format) == Some(
                    final(buffer)@,
                ));
            }
        }
        r
    }
}

/// Reads the current series of every source of an entry, composing each
/// source's group labels ahead of the collected labels.
fn snapshot_entry(entry: &RegistryEntry) -> (r: RenderEntry)
    ensures
        spec_snapshot_matches(r, *entry),
{
    let mut series: Vec<MetricSeries> = Vec::new();
    let n = entry.sources.len();
    let mut i: usize = 0;
    while i < n
        invariant
            n == entry.sources@.len(),
            0 <= i <= n,
            forall|k: int|
                0 <= k < series@.len() ==> spec_series_from_sources(
                    #[trigger] series@[k],
                    entry.sources@,
                ),
        decreases n - i,
    {
        let source = &entry.sources[i];
        let collected = source.metric.collect_series();
        let m = collected.len();
        let mut j: usize = 0;
        while j < m
            invariant
                n == entry.sources@.len(),
                0 <= i < n,
                source == &entry.sources@[i as int],
                m == collected@.len(),
                0 <= j <= m,
                forall|k: int|
                    0 <= k < series@.len() ==> spec_series_from_sources(
                        #[trigger] series@[k],
                        entry.sources@,
                    ),
            decreases m - j,
        {
            let s = &collected[j];
            let labels = FullLabelSet::new(&source.group_labels, &s.labels).pairs;
            proof {
                assert(spec_labels_prefixed(labels@, entry.sources@[i as int].group_labels@));
            }
            let fresh = MetricSeries { labels, payload: clone_payload(&s.payload) };
            proof {
                assert(spec_series_from_sources(fresh, entry.sources@));
            }
            series.push(fresh);
            j += 1;
        }
        i += 1;
    }
    let ghost sv = series@;
    let result = RenderEntry {
        name: entry.name.clone(),
        help: entry.help.clone(),
        unit: entry.unit,
        kind: entry.kind,
        series,
    };
    proof {
        assert(result.series@ == sv);
        assert forall|k: int| 0 <= k < result.series@.len() implies spec_series_from_sources(
            #[trigger] result.series@[k],
            entry.sources@,
        ) by {
            assert(result.series@[k] == sv[k]);
            assert(spec_series_from_sources(sv[k], entry.sources@));
        }
    }
    result
}

/// Collects metrics from this item into a registry; implemented by
/// global groups, group families and collectors so that a process-wide
/// registration list can sweep them.
pub trait CollectToRegistry: Send + Sync {
    fn descriptor(&self) -> MetricGroupDescriptor;

    fn collect_to_registry(&self, registry: &mut Registry) -> (r: Result<
        (),
        MetricRedefinitionError,
    >)
        ensures
            r is Err ==> *final(registry) == *old(registry),
            r is Ok ==> final(registry).spec_is_lazy() == old(registry).spec_is_lazy(),
            r is Ok ==> final(registry).spec_group_count() == old(registry).spec_group_count()
                + 1,
    ;
}

impl<M: Metrics + Default> CollectToRegistry for Global<M> {
    fn descriptor(&self) -> MetricGroupDescriptor {
        M::descriptor()
    }

    fn collect_to_registry(&self, registry: &mut Registry) -> Result<
        (),
        MetricRedefinitionError,
    > {
        registry.register_global(self, false)
    }
}

impl<S, M> CollectToRegistry for MetricsFamily<S, M> where
    S: Clone + Eq + core::hash::Hash + crate::encoding::EncodeLabelSet + Send + Sync + 'static,
    M: Metrics + Default,
 {
    fn descriptor(&self) -> MetricGroupDescriptor {
        M::descriptor()
    }

    fn collect_to_registry(&self, registry: &mut Registry) -> Result<
        (),
        MetricRedefinitionError,
    > {
        registry.register_metrics_family(self)
    }
}

impl<M: Metrics> CollectToRegistry for Collector<M> {
    fn descriptor(&self) -> MetricGroupDescriptor {
        M::descriptor()
    }

    fn collect_to_registry(&self, registry: &mut Registry) -> Result<
        (),
        MetricRedefinitionError,
    > {
        registry.register_collector(self)
    }
}

/// An explicit process-wide list of registered metric sources, populated
/// at startup; [`MetricsCollection::collect`] sweeps it.
pub struct MetricsRegistrations {
    items: Vec<Box<dyn CollectToRegistry>>,
}

impl MetricsRegistrations {
    /// Creates an empty list.
    pub fn new() -> Self {
        MetricsRegistrations { items: Vec::new() }
    }

    /// Adds a metric source to the list.
    pub fn push(&mut self, item: Box<dyn CollectToRegistry>) {
        self.items.push(item);
    }

    /// The number of registered sources.
    pub fn len(&self) -> usize {
        self.items.len()
    }
}

impl Default for MetricsRegistrations {
    fn default() -> Self {
        MetricsRegistrations::new()
    }
}

/// Configures collection of registered metrics into a [`Registry`].
pub struct MetricsCollection<F> {
    pub is_lazy: bool,
    pub filter_fn: F,
}

/// The absent filtering predicate: every group is collected.
pub struct NoFilter;

impl MetricsCollection<NoFilter> {
    /// Collects every registered source, eagerly.
    pub fn new() -> MetricsCollection<NoFilter> {
        MetricsCollection { is_lazy: false, filter_fn: NoFilter }
    }

    /// Collects every registered source; global groups are exported only
    /// once touched by instrumentation code.
    pub fn lazy() -> MetricsCollection<NoFilter> {
        MetricsCollection { is_lazy: true, filter_fn: NoFilter }
    }

    /// Configures a filtering predicate: only groups whose descriptor
    /// satisfies it are collected.
    pub fn filter<G: Fn(&MetricGroupDescriptor) -> bool>(self, filter_fn: G) -> MetricsCollection<
        G,
    > {
        MetricsCollection { is_lazy: self.is_lazy, filter_fn }
    }

    /// Creates a registry holding every registered source. Fails if and
    /// only if two collected metrics resolve to the same exported name.
    pub fn collect(self, registrations: &MetricsRegistrations) -> (r: Result<
        Registry,
        MetricRedefinitionError,
    >)
        ensures
            r matches Ok(registry) ==> registry.spec_is_lazy() == self.is_lazy,
    {
        let lazy = self.is_lazy;
        let mut registry = if lazy {
            Registry::empty_lazy()
        } else {
            Registry::empty()
        };
        let n = registrations.items.len();
        let mut i: usize = 0;
        while i < n
            invariant
                n == registrations.items@.len(),
                0 <= i <= n,
                registry.spec_is_lazy() == lazy,
            decreases n - i,
        {
            match registrations.items[i].collect_to_registry(&mut registry) {
                Ok(()) => {},
                Err(e) => {
                    return Err(e);
                },
            }
            i += 1;
        }
        Ok(registry)
    }
}

impl Default for MetricsCollection<NoFilter> {
    fn default() -> Self {
        MetricsCollection::new()
    }
}

impl<F: Fn(&MetricGroupDescriptor) -> bool> MetricsCollection<F> {
    /// Creates a registry holding every registered source accepted by
    /// the filter. Fails if and only if two collected metrics resolve to
    /// the same exported name.
    pub fn collect(self, registrations: &MetricsRegistrations) -> (r: Result<
        Registry,
        MetricRedefinitionError,
    >)
        requires
            forall|d: &MetricGroupDescriptor| #[trigger] call_requires(self.filter_fn, (d,)),
        ensures
            r matches Ok(registry) ==> registry.spec_is_lazy() == self.is_lazy,
    {
        let lazy = self.is_lazy;
        let mut registry = if lazy {
            Registry::empty_lazy()
        } else {
            Registry::empty()
        };
        let n = registrations.items.len();
        let mut i: usize = 0;
        while i < n
            invariant
                n == registrations.items@.len(),
                0 <= i <= n,
                registry.spec_is_lazy() == lazy,
                forall|d: &MetricGroupDescriptor| #[trigger] call_requires(self.filter_fn, (d,)),
            decreases n - i,
        {
            let descriptor = registrations.items[i].descriptor();
            if (self.filter_fn)(&descriptor) {
                match registrations.items[i].collect_to_registry(&mut registry) {
                    Ok(()) => {},
                    Err(e) => {
                        return Err(e);
                    },
                }
            }
            i += 1;
        }
        Ok(registry)
    }
}

} // verus!
