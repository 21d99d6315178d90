//! Static metadata describing metrics and metric groups.

use vstd::prelude::*;
use vstd::string::StrSliceExecFns;

use crate::encoding::Unit;
use crate::format::MetricKind;
use crate::text::{append_nat, spec_render_nat};

verus! {

/// The fully qualified exported name of a metric: its name plus the unit
/// suffix, if any.
pub open spec fn spec_full_name(name: Seq<char>, unit: Option<Unit>) -> Seq<char> {
    match unit {
        Some(u) => name + "_"@ + u.spec_as_str(),
        None => name,
    }
}

/// The resolved exported name of a metric field: the prefix (when
/// non-empty) joined to the field name with an underscore, then the unit
/// suffix.
pub open spec fn spec_resolved_name(prefix: Seq<char>, field: Seq<char>, unit: Option<Unit>) -> Seq<
    char,
> {
    if prefix.len() == 0 {
        spec_full_name(field, unit)
    } else {
        spec_full_name(prefix + "_"@ + field, unit)
    }
}

/// Resolves the exported name of a metric field from its group's prefix,
/// its field name and its unit.
pub fn full_metric_name(prefix: &str, field: &str, unit: Option<Unit>) -> (r: String)
    ensures
        r@ == spec_resolved_name(prefix@, field@, unit),
{
    let mut out = String::new();
    if prefix.unicode_len() > 0 {
        out.append(prefix);
        out.append("_");
    }
    out.append(field);
    match unit {
        Some(u) => {
            out.append("_");
            out.append(u.as_str());
        },
        None => {},
    }
    proof {
        assert(out@ =~= spec_resolved_name(prefix@, field@, unit));
    }
    out
}

/// Descriptor for a single metric field.
#[derive(Debug, Clone, Copy)]
pub struct MetricDescriptor {
    /// Name of the metric excluding the unit suffix.
    pub name: &'static str,
    /// Name of the field in the metric group defining the metric.
    pub field_name: &'static str,
    /// Kind of the metric.
    pub metric_type: MetricKind,
    /// Measurement unit of the metric, if any.
    pub unit: Option<Unit>,
    /// Help text exported for the metric.
    pub help: &'static str,
}

impl MetricDescriptor {
    /// The fully qualified exported name, unit suffix included.
    pub fn full_name(&self) -> (r: String)
        ensures
            r@ == spec_full_name(self.name@, self.unit),
    {
        let mut out = String::new();
        out.append(self.name);
        match self.unit {
            Some(unit) => {
                out.append("_");
                out.append(unit.as_str());
            },
            None => {},
        }
        out
    }
}

/// Descriptor for a group of metrics.
#[derive(Debug)]
pub struct MetricGroupDescriptor {
    /// Name of the crate in which the group is defined.
    pub crate_name: &'static str,
    /// Version of that crate.
    pub crate_version: &'static str,
    /// Path to the module in which the group is defined.
    pub module: &'static str,
    /// Name of the group type.
    pub name: &'static str,
    /// Source line on which the group is defined.
    pub line: u32,
    /// Descriptors of all metrics defined in the group.
    pub metrics: Vec<MetricDescriptor>,
}

impl MetricGroupDescriptor {
    /// Copies the descriptor.
    pub fn duplicate(&self) -> (r: MetricGroupDescriptor)
        ensures
            r.crate_name@ == self.crate_name@,
            r.crate_version@ == self.crate_version@,
            r.module@ == self.module@,
            r.name@ == self.name@,
            r.line == self.line,
            r.metrics@ =~= self.metrics@,
    {
        let mut metrics: Vec<MetricDescriptor> = Vec::new();
        let mut i: usize = 0;
        while i < self.metrics.len()
            invariant
                0 <= i <= self.metrics@.len(),
                metrics@ =~= self.metrics@.take(i as int),
            decreases self.metrics@.len() - i,
        {
            metrics.push(self.metrics[i]);
            proof {
                assert(metrics@ =~= self.metrics@.take(i + 1 as int));
            }
            i += 1;
        }
        proof {
            assert(self.metrics@.take(self.metrics@.len() as int) =~= self.metrics@);
        }
        MetricGroupDescriptor {
            crate_name: self.crate_name,
            crate_version: self.crate_version,
            module: self.module,
            name: self.name,
            line: self.line,
            metrics,
        }
    }
}

/// The location text used when a metric definition is reported, e.g. in
/// the duplicate-name error.
pub open spec fn spec_definition_site(d: FullMetricDescriptor) -> Seq<char> {
    d.module@ + "::"@ + d.group_name@ + "."@ + d.field_name@ + " (line "@ + spec_render_nat(
        d.line as nat,
    ) + ") in crate "@ + d.crate_name@ + " "@ + d.crate_version@
}

/// The full descriptor combining a group's identity with one of its
/// metrics.
pub open spec fn spec_descriptor_of(
    group: MetricGroupDescriptor,
    metric: MetricDescriptor,
) -> FullMetricDescriptor {
    FullMetricDescriptor {
        crate_name: group.crate_name,
        crate_version: group.crate_version,
        module: group.module,
        group_name: group.name,
        line: group.line,
        field_name: metric.field_name,
        metric,
    }
}

/// A metric descriptor together with the identity of the group defining
/// it.
#[derive(Debug, Clone, Copy)]
pub struct FullMetricDescriptor {
    pub crate_name: &'static str,
    pub crate_version: &'static str,
    pub module: &'static str,
    pub group_name: &'static str,
    pub line: u32,
    pub field_name: &'static str,
    pub metric: MetricDescriptor,
}

impl FullMetricDescriptor {
    /// Combines a group descriptor and one of its metrics.
    pub fn new(group: &MetricGroupDescriptor, metric: MetricDescriptor) -> (r: Self)
        ensures
            r == spec_descriptor_of(*group, metric),
    {
        FullMetricDescriptor {
            crate_name: group.crate_name,
            crate_version: group.crate_version,
            module: group.module,
            group_name: group.name,
            line: group.line,
            field_name: metric.field_name,
            metric,
        }
    }

    /// Renders the definition site of the metric.
    pub fn definition_site(&self) -> (r: String)
        ensures
            r@ == spec_definition_site(*self),
    {
        let mut out = String::new();
        out.append(self.module);
        out.append("::");
        out.append(self.group_name);
        out.append(".");
        out.append(self.field_name);
        out.append(" (line ");
        append_nat(&mut out, self.line as u128);
        out.append(") in crate ");
        out.append(self.crate_name);
        out.append(" ");
        out.append(self.crate_version);
        proof {
            assert(out@ =~= spec_definition_site(*self));
        }
        out
    }
}

} // verus!
