//! Label sets, label values and the snapshot model of metric state that
//! the text renderer consumes.

use vstd::prelude::*;

use crate::format::MetricKind;
use crate::text::{append_int, append_nat, push_char, spec_render_int, spec_render_nat};

verus! {

/// A measurement unit; its name is appended to metric names and reported
/// in `# UNIT` lines.
#[derive(Debug, Clone, Copy, PartialEq, Eq, Structural)]
pub enum Unit {
    Amperes,
    Bytes,
    Celsius,
    Grams,
    Joules,
    Meters,
    Ratios,
    Seconds,
    Volts,
}

impl Unit {
    /// The lowercase name of the unit.
    pub open spec fn spec_as_str(self) -> Seq<char> {
        match self {
            Unit::Amperes => "amperes"@,
            Unit::Bytes => "bytes"@,
            Unit::Celsius => "celsius"@,
            Unit::Grams => "grams"@,
            Unit::Joules => "joules"@,
            Unit::Meters => "meters"@,
            Unit::Ratios => "ratios"@,
            Unit::Seconds => "seconds"@,
            Unit::Volts => "volts"@,
        }
    }

    /// The lowercase name of the unit.
    pub fn as_str(self) -> (r: &'static str)
        ensures
            r@ == self.spec_as_str(),
    {
        match self {
            Unit::Amperes => "amperes",
            Unit::Bytes => "bytes",
            Unit::Celsius => "celsius",
            Unit::Grams => "grams",
            Unit::Joules => "joules",
            Unit::Meters => "meters",
            Unit::Ratios => "ratios",
            Unit::Seconds => "seconds",
            Unit::Volts => "volts",
        }
    }
}

/// One rendered label: a name and a value, both as plain text.
#[derive(Debug, Clone)]
#[verifier::ext_equal]
pub struct LabelPair {
    pub name: String,
    pub value: String,
}

/// The model of one label pair: its name and value as character
/// sequences.
#[verifier::ext_equal]
pub struct PairModel {
    pub name: Seq<char>,
    pub value: Seq<char>,
}

/// The name and value of a label pair, as character sequences.
pub open spec fn spec_pair(p: LabelPair) -> PairModel {
    PairModel { name: p.name@, value: p.value@ }
}

/// The model of a label pair sequence.
pub open spec fn spec_pairs(ps: Seq<LabelPair>) -> Seq<PairModel> {
    ps.map_values(|p: LabelPair| spec_pair(p))
}

/// Copies a label pair.
pub fn clone_pair(p: &LabelPair) -> (r: LabelPair)
    ensures
        spec_pair(r) == spec_pair(*p),
{
    LabelPair { name: p.name.clone(), value: p.value.clone() }
}

/// The escaped form of a label value: backslashes, double quotes and
/// newlines are escaped.
pub open spec fn spec_escape_label_value(s: Seq<char>) -> Seq<char>
    decreases s.len(),
{
    if s.len() == 0 {
        Seq::<char>::empty()
    } else {
        let head: Seq<char> = if s[0] == '\\' {
            seq!['\\', '\\']
        } else if s[0] == '"' {
            seq!['\\', '"']
        } else if s[0] == '\n' {
            seq!['\\', 'n']
        } else {
            seq![s[0]]
        };
        head + spec_escape_label_value(s.skip(1))
    }
}

/// Appends the escaped form of a label value.
pub fn append_escaped(out: &mut String, s: &str)
    ensures
        final(out)@ == old(out)@ + spec_escape_label_value(s@),
{
    let n = s.unicode_len();
    let mut i: usize = 0;
    proof {
        assert(s@.skip(0) =~= s@);
    }
    while i < n
        invariant
            n == s@.len(),
            0 <= i <= n,
            out@ + spec_escape_label_value(s@.skip(i as int)) == old(out)@
                + spec_escape_label_value(s@),
        decreases n - i,
    {
        let ghost pre = out@;
        let c = s.get_char(i);
        proof {
            assert(s@.skip(i as int)[0] == c);
            assert(s@.skip(i as int).skip(1) =~= s@.skip(i + 1));
        }
        if c == '\\' {
            out.append("\\\\");
            proof {
                reveal_strlit("\\\\");
                assert(out@ =~= pre + seq!['\\', '\\']);
            }
        } else if c == '"' {
            out.append("\\\"");
            proof {
                reveal_strlit("\\\"");
                assert(out@ =~= pre + seq!['\\', '"']);
            }
        } else if c == '\n' {
            out.append("\\n");
            proof {
                reveal_strlit("\\n");
                assert(out@ =~= pre + seq!['\\', 'n']);
            }
        } else {
            push_char(out, c);
        }
        i += 1;
        proof {
            assert(out@ + spec_escape_label_value(s@.skip(i as int)) =~= old(out)@
                + spec_escape_label_value(s@));
        }
    }
    proof {
        assert(s@.skip(n as int) =~= Seq::<char>::empty());
        assert(final(out)@ =~= old(out)@ + spec_escape_label_value(s@));
    }
}

/// A value usable as a single label value; rendering it yields the text
/// placed between the quotes (before escaping).
pub trait EncodeLabelValue {
    fn label_value(&self) -> String;
}

impl EncodeLabelValue for String {
    fn label_value(&self) -> (r: String)
        ensures
            r@ == self@,
    {
        self.clone()
    }
}

impl EncodeLabelValue for &'static str {
    fn label_value(&self) -> (r: String)
        ensures
            r@ == self@,
    {
        let mut out = String::new();
        out.append(*self);
        out
    }
}

impl EncodeLabelValue for u64 {
    fn label_value(&self) -> (r: String)
        ensures
            r@ == spec_render_nat(*self as nat),
    {
        let mut out = String::new();
        append_nat(&mut out, *self as u128);
        out
    }
}

impl EncodeLabelValue for u16 {
    fn label_value(&self) -> (r: String)
        ensures
            r@ == spec_render_nat(*self as nat),
    {
        let mut out = String::new();
        append_nat(&mut out, *self as u128);
        out
    }
}

impl EncodeLabelValue for u8 {
    fn label_value(&self) -> (r: String)
        ensures
            r@ == spec_render_nat(*self as nat),
    {
        let mut out = String::new();
        append_nat(&mut out, *self as u128);
        out
    }
}

impl EncodeLabelValue for u32 {
    fn label_value(&self) -> (r: String)
        ensures
            r@ == spec_render_nat(*self as nat),
    {
        let mut out = String::new();
        append_nat(&mut out, *self as u128);
        out
    }
}

impl EncodeLabelValue for usize {
    fn label_value(&self) -> (r: String)
        ensures
            r@ == spec_render_nat(*self as nat),
    {
        let mut out = String::new();
        append_nat(&mut out, *self as u128);
        out
    }
}

impl EncodeLabelValue for i64 {
    fn label_value(&self) -> (r: String)
        ensures
            r@ == spec_render_int(*self as int),
    {
        let mut out = String::new();
        append_int(&mut out, *self as i128);
        out
    }
}

impl EncodeLabelValue for i32 {
    fn label_value(&self) -> (r: String)
        ensures
            r@ == spec_render_int(*self as int),
    {
        let mut out = String::new();
        append_int(&mut out, *self as i128);
        out
    }
}

impl EncodeLabelValue for i16 {
    fn label_value(&self) -> (r: String)
        ensures
            r@ == spec_render_int(*self as int),
    {
        let mut out = String::new();
        append_int(&mut out, *self as i128);
        out
    }
}

impl EncodeLabelValue for isize {
    fn label_value(&self) -> (r: String)
        ensures
            r@ == spec_render_int(*self as int),
    {
        let mut out = String::new();
        append_int(&mut out, *self as i128);
        out
    }
}

/// A value usable as a full label set: it reports its label names and
/// values as pairs, in encoding order.
pub trait EncodeLabelSet {
    fn label_pairs(&self) -> Vec<LabelPair>;
}

/// A label set with no labels.
impl EncodeLabelSet for () {
    fn label_pairs(&self) -> (r: Vec<LabelPair>)
        ensures
            r@.len() == 0,
    {
        Vec::new()
    }
}

/// Wrapper around a reference to labels proxying the encoding traits.
#[derive(Debug)]
pub struct LabelRef<'a, S>(pub &'a S);

impl<'a, S: EncodeLabelValue> EncodeLabelValue for LabelRef<'a, S> {
    fn label_value(&self) -> String {
        self.0.label_value()
    }
}

impl<'a, S: EncodeLabelSet> EncodeLabelSet for LabelRef<'a, S> {
    fn label_pairs(&self) -> Vec<LabelPair> {
        self.0.label_pairs()
    }
}

/// A label name carrying a unit suffix, as used for labels that report
/// dimensioned values.
#[derive(Debug)]
pub struct LabelWithUnit {
    pub name: &'static str,
    pub unit: Unit,
}

impl LabelWithUnit {
    /// Creates a label name with the unit's name appended.
    pub fn new(name: &'static str, unit: Unit) -> (r: LabelWithUnit)
        ensures
            r.name@ == name@ && r.unit == unit,
    {
        LabelWithUnit { name, unit }
    }

    /// The label name with `_` and the unit appended.
    pub fn label_name(&self) -> (r: String)
        ensures
            r@ == self.name@ + "_"@ + self.unit.spec_as_str(),
    {
        let mut out = String::new();
        out.append(self.name);
        out.append("_");
        out.append(self.unit.as_str());
        out
    }
}

/// Set of metric labels whose label names are supplied separately from
/// the values.
#[derive(Debug)]
pub struct StaticLabelSet<'a, S> {
    pub label_keys: &'a [&'static str],
    pub label_values: S,
}

/// Maps stored label values to rendered label pairs; implemented by `()`
/// for self-describing label sets and by label-name arrays for families
/// with out-of-band label names.
pub trait MapLabels<S>: Sized {
    fn map_labels(&self, labels: &S) -> Vec<LabelPair>;
}

impl<S: EncodeLabelSet> MapLabels<S> for () {
    fn map_labels(&self, labels: &S) -> Vec<LabelPair> {
        labels.label_pairs()
    }
}

fn static_str_to_string(s: &'static str) -> (r: String)
    ensures
        r@ == s@,
{
    let mut out = String::new();
    out.append(s);
    out
}

impl<S: EncodeLabelValue> MapLabels<S> for [&'static str; 1] {
    fn map_labels(&self, labels: &S) -> (r: Vec<LabelPair>)
        ensures
            r@.len() == 1,
            r@[0].name@ == self@[0]@,
    {
        let mut out: Vec<LabelPair> = Vec::new();
        out.push(LabelPair { name: static_str_to_string(self[0]), value: labels.label_value() });
        out
    }
}

impl<S0: EncodeLabelValue, S1: EncodeLabelValue> MapLabels<(S0, S1)> for [&'static str; 2] {
    fn map_labels(&self, labels: &(S0, S1)) -> (r: Vec<LabelPair>)
        ensures
            r@.len() == 2,
            r@[0].name@ == self@[0]@,
            r@[1].name@ == self@[1]@,
    {
        let mut out: Vec<LabelPair> = Vec::new();
        out.push(LabelPair { name: static_str_to_string(self[0]), value: labels.0.label_value() });
        out.push(LabelPair { name: static_str_to_string(self[1]), value: labels.1.label_value() });
        out
    }
}

type ThreeNames = [&'static str; 3];

impl<S0: EncodeLabelValue, S1: EncodeLabelValue, S2: EncodeLabelValue> MapLabels<(S0, S1, S2)> for ThreeNames {
    fn map_labels(&self, labels: &(S0, S1, S2)) -> (r: Vec<LabelPair>)
        ensures
            r@.len() == 3,
            r@[0].name@ == self@[0]@,
            r@[1].name@ == self@[1]@,
            r@[2].name@ == self@[2]@,
    {
        let mut out: Vec<LabelPair> = Vec::new();
        out.push(LabelPair { name: static_str_to_string(self[0]), value: labels.0.label_value() });
        out.push(LabelPair { name: static_str_to_string(self[1]), value: labels.1.label_value() });
        out.push(LabelPair { name: static_str_to_string(self[2]), value: labels.2.label_value() });
        out
    }
}

/// The union of an outer (group) label set and an inner one: outer labels
/// are encoded first.
pub struct FullLabelSet {
    pub pairs: Vec<LabelPair>,
}

impl FullLabelSet {
    /// Concatenates group labels and inner labels, group labels first.
    pub fn new(group_labels: &Vec<LabelPair>, inner: &Vec<LabelPair>) -> (r: FullLabelSet)
        ensures
            r.pairs@.len() == group_labels@.len() + inner@.len(),
            forall|i: int|
                0 <= i < group_labels@.len() ==> spec_pair(#[trigger] r.pairs@[i]) == spec_pair(
                    group_labels@[i],
                ),
            forall|i: int|
                0 <= i < inner@.len() ==> spec_pair(
                    #[trigger] r.pairs@[group_labels@.len() + i],
                ) == spec_pair(inner@[i]),
    {
        let mut pairs: Vec<LabelPair> = Vec::new();
        let mut i: usize = 0;
        while i < group_labels.len()
            invariant
                0 <= i <= group_labels@.len(),
                pairs@.len() == i,
                forall|k: int|
                    0 <= k < i ==> spec_pair(#[trigger] pairs@[k]) == spec_pair(group_labels@[k]),
            decreases group_labels@.len() - i,
        {
            pairs.push(clone_pair(&group_labels[i]));
            i += 1;
        }
        let mut j: usize = 0;
        while j < inner.len()
            invariant
                0 <= j <= inner@.len(),
                pairs@.len() == group_labels@.len() + j,
                forall|k: int|
                    0 <= k < group_labels@.len() ==> spec_pair(#[trigger] pairs@[k]) == spec_pair(
                        group_labels@[k],
                    ),
                forall|k: int|
                    0 <= k < j ==> spec_pair(#[trigger] pairs@[group_labels@.len() + k])
                        == spec_pair(inner@[k]),
            decreases inner@.len() - j,
        {
            pairs.push(clone_pair(&inner[j]));
            j += 1;
        }
        FullLabelSet { pairs }
    }
}

/// A snapshot of one reported series: its labels and the sampled values.
#[derive(Debug, Clone)]
#[verifier::ext_equal]
pub struct MetricSeries {
    pub labels: Vec<LabelPair>,
    pub payload: MetricPayload,
}

/// The sampled values of one metric instance.
#[derive(Debug, Clone)]
#[verifier::ext_equal]
pub enum MetricPayload {
    /// A monotonically increasing count.
    Counter { value: u64 },
    /// A settable signed value.
    Gauge { value: i64 },
    /// A bucketed distribution: fixed-point upper bounds, cumulative
    /// per-bucket counts, the total count and the fixed-point sum.
    Histogram { bounds: Vec<i128>, counts: Vec<u64>, count: u64, sum: u64 },
    /// A write-once label set, reported as the constant sample `1`.
    Info { pairs: Vec<LabelPair> },
}

/// A type-erased readable metric: it names its kind and can snapshot its
/// current series.
pub trait CollectMetric: Send + Sync {
    fn metric_kind(&self) -> MetricKind;

    fn collect_series(&self) -> Vec<MetricSeries>;
}

/// The statically known kind of a metric type, available without an
/// instance.
pub trait TypedMetricKind {
    fn kind_of() -> MetricKind;
}

/// A readable metric that may stand inside a group: the requirements of
/// [`CollectMetric`] under the name used by group visitors.
pub trait GroupedMetric: CollectMetric {

}

impl<T: CollectMetric> GroupedMetric for T {

}

} // verus!
