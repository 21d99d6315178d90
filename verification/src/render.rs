//! The renderer producing the strict text exposition format from metric
//! snapshots, and its adaptation to the other formats through the
//! streaming translator.

use vstd::prelude::*;

use crate::encoding::{
    append_escaped,
    spec_escape_label_value,
    LabelPair,
    MetricPayload,
    MetricSeries,
    Unit,
};
use crate::format::{
    spec_translate_text,
    Format,
    FormatError,
    MetricKind,
    PrometheusWrapper,
};
use crate::text::{
    append_fixed,
    append_int,
    append_nat,
    spec_render_fixed,
    spec_render_int,
    spec_render_nat,
};

verus! {

/// One metric name with its metadata and sampled series, ready to be
/// rendered.
pub struct RenderEntry {
    pub name: String,
    pub help: String,
    pub unit: Option<Unit>,
    pub kind: MetricKind,
    pub series: Vec<MetricSeries>,
}

/// The token naming a metric kind in `# TYPE` lines.
pub open spec fn spec_kind_token(k: MetricKind) -> Seq<char> {
    match k {
        MetricKind::Counter => "counter"@,
        MetricKind::Gauge => "gauge"@,
        MetricKind::Histogram => "histogram"@,
        MetricKind::Info => "info"@,
        MetricKind::Unknown => "unknown"@,
    }
}

/// The token naming a metric kind in `# TYPE` lines.
pub fn kind_token(k: MetricKind) -> (r: &'static str)
    ensures
        r@ == spec_kind_token(k),
{
    match k {
        MetricKind::Counter => "counter",
        MetricKind::Gauge => "gauge",
        MetricKind::Histogram => "histogram",
        MetricKind::Info => "info",
        MetricKind::Unknown => "unknown",
    }
}

/// The rendered label pairs from position `i` on, comma-separated, each
/// as `name="escaped value"`.
pub open spec fn spec_labels_body(ps: Seq<LabelPair>, i: int) -> Seq<char>
    decreases ps.len() - i,
    when 0 <= i
{
    if i >= ps.len() {
        Seq::<char>::empty()
    } else {
        let sep: Seq<char> = if i > 0 {
            ","@
        } else {
            Seq::<char>::empty()
        };
        sep + ps[i].name@ + "=\""@ + spec_escape_label_value(ps[i].value@) + "\""@
            + spec_labels_body(ps, i + 1)
    }
}

/// The rendered label block: empty for no labels, otherwise the braced
/// comma-separated pairs.
pub open spec fn spec_label_block(ps: Seq<LabelPair>) -> Seq<char> {
    if ps.len() == 0 {
        Seq::<char>::empty()
    } else {
        "{"@ + spec_labels_body(ps, 0) + "}"@
    }
}

/// One histogram bucket line: the `le` label carries the fixed-point
/// bound, followed by the series labels and the cumulative count.
pub open spec fn spec_bucket_line(
    name: Seq<char>,
    labels: Seq<LabelPair>,
    bound: i128,
    cum: u64,
) -> Seq<char> {
    name + "_bucket{le=\""@ + spec_render_fixed(bound as int) + "\""@ + (if labels.len() > 0 {
        ","@ + spec_labels_body(labels, 0)
    } else {
        Seq::<char>::empty()
    }) + "} "@ + spec_render_nat(cum as nat) + "\n"@
}

/// The bucket lines from position `i` on.
pub open spec fn spec_bucket_lines(
    name: Seq<char>,
    labels: Seq<LabelPair>,
    bounds: Seq<i128>,
    counts: Seq<u64>,
    i: int,
) -> Seq<char>
    decreases bounds.len() - i,
    when 0 <= i
{
    if i >= bounds.len() || i >= counts.len() {
        Seq::<char>::empty()
    } else {
        spec_bucket_line(name, labels, bounds[i], counts[i]) + spec_bucket_lines(
            name,
            labels,
            bounds,
            counts,
            i + 1,
        )
    }
}

/// The `+Inf` bucket line, reporting the total count.
pub open spec fn spec_inf_bucket_line(name: Seq<char>, labels: Seq<LabelPair>, count: u64) -> Seq<
    char,
> {
    name + "_bucket{le=\"+Inf\""@ + (if labels.len() > 0 {
        ","@ + spec_labels_body(labels, 0)
    } else {
        Seq::<char>::empty()
    }) + "} "@ + spec_render_nat(count as nat) + "\n"@
}

/// The sample lines of one series.
pub open spec fn spec_series_lines(name: Seq<char>, s: MetricSeries) -> Seq<char> {
    match s.payload {
        MetricPayload::Counter { value } => name + "_total"@ + spec_label_block(s.labels@) + " "@
            + spec_render_nat(value as nat) + "\n"@,
        MetricPayload::Gauge { value } => name + spec_label_block(s.labels@) + " "@
            + spec_render_int(value as int) + "\n"@,
        MetricPayload::Info { pairs } => name + "_info"@ + spec_label_block(s.labels@ + pairs@)
            + " 1\n"@,
        MetricPayload::Histogram { bounds, counts, count, sum } => name + "_sum"@
            + spec_label_block(s.labels@) + " "@ + spec_render_fixed(sum as int) + "\n"@ + name
            + "_count"@ + spec_label_block(s.labels@) + " "@ + spec_render_nat(count as nat)
            + "\n"@ + spec_bucket_lines(name, s.labels@, bounds@, counts@, 0)
            + spec_inf_bucket_line(name, s.labels@, count),
    }
}

/// The sample lines of the series from position `i` on.
pub open spec fn spec_all_series_lines(name: Seq<char>, series: Seq<MetricSeries>, i: int) -> Seq<
    char,
>
    decreases series.len() - i,
    when 0 <= i
{
    if i >= series.len() {
        Seq::<char>::empty()
    } else {
        spec_series_lines(name, series[i]) + spec_all_series_lines(name, series, i + 1)
    }
}

/// The full rendering of one entry: `# HELP`, `# TYPE`, an optional
/// `# UNIT` line, then every series.
pub open spec fn spec_render_entry(e: RenderEntry) -> Seq<char> {
    let unit_line: Seq<char> = match e.unit {
        Some(u) => "# UNIT "@ + e.name@ + " "@ + u.spec_as_str() + "\n"@,
        None => Seq::<char>::empty(),
    };
    "# HELP "@ + e.name@ + " "@ + e.help@ + ".\n"@ + "# TYPE "@ + e.name@ + " "@ + spec_kind_token(
        e.kind,
    ) + "\n"@ + unit_line + spec_all_series_lines(e.name@, e.series@, 0)
}

/// The renderings of the entries from position `i` on.
pub open spec fn spec_render_entries(es: Seq<RenderEntry>, i: int) -> Seq<char>
    decreases es.len() - i,
    when 0 <= i
{
    if i >= es.len() {
        Seq::<char>::empty()
    } else {
        spec_render_entry(es[i]) + spec_render_entries(es, i + 1)
    }
}

/// The complete document in the strict format: every entry, then the
/// `# EOF` terminator.
pub open spec fn spec_render_document(es: Seq<RenderEntry>) -> Seq<char> {
    spec_render_entries(es, 0) + "# EOF\n"@
}

/// Appends the comma-separated label pairs.
fn append_labels_body(out: &mut String, pairs: &Vec<LabelPair>)
    ensures
        final(out)@ == old(out)@ + spec_labels_body(pairs@, 0),
{
    let n = pairs.len();
    let mut i: usize = 0;
    while i < n
        invariant
            n == pairs@.len(),
            0 <= i <= n,
            old(out)@ + spec_labels_body(pairs@, 0) == out@ + spec_labels_body(pairs@, i as int),
        decreases n - i,
    {
        let ghost pre = out@;
        if i > 0 {
            out.append(",");
        }
        let p = &pairs[i];
        out.append(p.name.as_str());
        out.append("=\"");
        append_escaped(out, p.value.as_str());
        out.append("\"");
        i += 1;
        proof {
            assert(old(out)@ + spec_labels_body(pairs@, 0) =~= out@ + spec_labels_body(
                pairs@,
                i as int,
            ));
        }
    }
}

/// Appends the braced label block, or nothing when there are no labels.
fn append_label_block(out: &mut String, pairs: &Vec<LabelPair>)
    ensures
        final(out)@ == old(out)@ + spec_label_block(pairs@),
{
    if pairs.len() > 0 {
        out.append("{");
        append_labels_body(out, pairs);
        out.append("}");
        proof {
            assert(final(out)@ =~= old(out)@ + spec_label_block(pairs@));
        }
    } else {
        proof {
            assert(final(out)@ =~= old(out)@ + spec_label_block(pairs@));
        }
    }
}

/// Appends the sample lines of one series.
#[verifier::rlimit(50)]
fn append_series(out: &mut String, name: &str, s: &MetricSeries)
    ensures
        final(out)@ == old(out)@ + spec_series_lines(name@, *s),
{
    match &s.payload {
        MetricPayload::Counter { value } => {
            out.append(name);
            out.append("_total");
            append_label_block(out, &s.labels);
            out.append(" ");
            append_nat(out, *value as u128);
            out.append("\n");
            proof {
                assert(final(out)@ =~= old(out)@ + spec_series_lines(name@, *s));
            }
        },
        MetricPayload::Gauge { value } => {
            out.append(name);
            append_label_block(out, &s.labels);
            out.append(" ");
            append_int(out, *value as i128);
            out.append("\n");
            proof {
                assert(final(out)@ =~= old(out)@ + spec_series_lines(name@, *s));
            }
        },
        MetricPayload::Info { pairs } => {
            out.append(name);
            out.append("_info");
            let merged = crate::encoding::FullLabelSet::new(&s.labels, pairs).pairs;
            proof {
                let ghost b = s.labels@ + pairs@;
                assert forall|k: int|
                    0 <= k < merged@.len() implies (#[trigger] merged@[k]).name@ == b[k].name@
                        && merged@[k].value@ == b[k].value@ by {
                    if k < s.labels@.len() {
                        assert(crate::encoding::spec_pair(merged@[k])
                            == crate::encoding::spec_pair(s.labels@[k]));
                    } else {
                        let j = k - s.labels@.len();
                        assert(crate::encoding::spec_pair(merged@[s.labels@.len() + j])
                            == crate::encoding::spec_pair(pairs@[j]));
                    }
                }
                assert(spec_label_block(merged@) =~= spec_label_block(b)) by {
                    lemma_labels_body_pairwise(merged@, b);
                }
            }
            append_label_block(out, &merged);
            out.append(" 1\n");
            proof {
                assert(final(out)@ =~= old(out)@ + spec_series_lines(name@, *s));
            }
        },
        MetricPayload::Histogram { bounds, counts, count, sum } => {
            append_histogram_series(out, name, &s.labels, bounds, counts, *count, *sum);
            proof {
                assert(final(out)@ =~= old(out)@ + spec_series_lines(name@, *s));
            }
        },
    }
}

/// The sample lines of one histogram series.
pub open spec fn spec_histogram_lines(
    name: Seq<char>,
    labels: Seq<LabelPair>,
    bounds: Seq<i128>,
    counts: Seq<u64>,
    count: u64,
    sum: u64,
) -> Seq<char> {
    name + "_sum"@ + spec_label_block(labels) + " "@ + spec_render_fixed(sum as int) + "
"@ + name
        + "_count"@ + spec_label_block(labels) + " "@ + spec_render_nat(count as nat) + "
"@
        + spec_bucket_lines(name, labels, bounds, counts, 0) + spec_inf_bucket_line(
        name,
        labels,
        count,
    )
}

/// Appends the bucket lines of one histogram series.
fn append_bucket_lines(
    out: &mut String,
    name: &str,
    labels: &Vec<LabelPair>,
    bounds: &Vec<i128>,
    counts: &Vec<u64>,
)
    ensures
        final(out)@ == old(out)@ + spec_bucket_lines(name@, labels@, bounds@, counts@, 0),
{
    let n = bounds.len();
    let mut i: usize = 0;
    loop
        invariant_except_break
            n == bounds@.len(),
            0 <= i <= n,
            old(out)@ + spec_bucket_lines(name@, labels@, bounds@, counts@, 0) == out@
                + spec_bucket_lines(name@, labels@, bounds@, counts@, i as int),
        ensures
            out@ == old(out)@ + spec_bucket_lines(name@, labels@, bounds@, counts@, 0),
        decreases n - i,
    {
        if i >= n || i >= counts.len() {
            proof {
                assert(spec_bucket_lines(name@, labels@, bounds@, counts@, i as int)
                    =~= Seq::<char>::empty());
                assert(out@ =~= old(out)@ + spec_bucket_lines(
                    name@,
                    labels@,
                    bounds@,
                    counts@,
                    0,
                ));
            }
            break;
        }
        let ghost top = out@;
        out.append(name);
        out.append("_bucket{le=\"");
        append_fixed(out, bounds[i]);
        out.append("\"");
        if labels.len() > 0 {
            out.append(",");
            append_labels_body(out, labels);
        }
        out.append("} ");
        append_nat(out, counts[i] as u128);
        out.append("\n");
        proof {
            let ghost bi = bounds@[i as int];
            let ghost ci = counts@[i as int];
            assert(out@ =~= top + spec_bucket_line(name@, labels@, bi, ci));
        }
        i += 1;
        proof {
            assert(old(out)@ + spec_bucket_lines(name@, labels@, bounds@, counts@, 0) =~= out@
                + spec_bucket_lines(name@, labels@, bounds@, counts@, i as int));
        }
    }
}

/// Appends the sample lines of one histogram series.
#[verifier::rlimit(100)]
#[verifier::spinoff_prover]
fn append_histogram_series(
    out: &mut String,
    name: &str,
    labels: &Vec<LabelPair>,
    bounds: &Vec<i128>,
    counts: &Vec<u64>,
    count: u64,
    sum: u64,
)
    ensures
        final(out)@ == old(out)@ + spec_histogram_lines(
            name@,
            labels@,
            bounds@,
            counts@,
            count,
            sum,
        ),
{
    let ghost base = out@;
    out.append(name);
    out.append("_sum");
    append_label_block(out, labels);
    out.append(" ");
    append_fixed(out, sum as i128);
    out.append("\n");
    proof {
        assert(out@ =~= base + (name@ + "_sum"@ + spec_label_block(labels@) + " "@
            + spec_render_fixed(sum as int) + "\n"@));
    }
    let ghost after_sum = out@;
    out.append(name);
    out.append("_count");
    append_label_block(out, labels);
    out.append(" ");
    append_nat(out, count as u128);
    out.append("\n");
    proof {
        assert(out@ =~= after_sum + (name@ + "_count"@ + spec_label_block(labels@) + " "@
            + spec_render_nat(count as nat) + "\n"@));
    }
    append_bucket_lines(out, name, labels, bounds, counts);
    let ghost after_buckets = out@;
    out.append(name);
    out.append("_bucket{le=\"+Inf\"");
    if labels.len() > 0 {
        out.append(",");
        append_labels_body(out, labels);
    }
    out.append("} ");
    append_nat(out, count as u128);
    out.append("\n");
    proof {
        assert(out@ =~= after_buckets + spec_inf_bucket_line(name@, labels@, count));
        assert(final(out)@ =~= old(out)@ + spec_histogram_lines(
            name@,
            labels@,
            bounds@,
            counts@,
            count,
            sum,
        ));
    }
}

/// Label blocks agree when the pairs agree name- and value-wise.
proof fn lemma_labels_body_pairwise(a: Seq<LabelPair>, b: Seq<LabelPair>)
    requires
        a.len() == b.len(),
        forall|i: int|
            0 <= i < a.len() ==> (#[trigger] a[i]).name@ == b[i].name@ && a[i].value@
                == b[i].value@,
    ensures
        forall|i: int|
            0 <= i <= a.len() ==> #[trigger] spec_labels_body(a, i) == spec_labels_body(b, i),
{
    assert forall|i: int|
        0 <= i <= a.len() implies #[trigger] spec_labels_body(a, i) == spec_labels_body(b, i) by {
        lemma_labels_body_pairwise_at(a, b, i);
    }
}

proof fn lemma_labels_body_pairwise_at(a: Seq<LabelPair>, b: Seq<LabelPair>, i: int)
    requires
        a.len() == b.len(),
        0 <= i <= a.len(),
        forall|k: int|
            0 <= k < a.len() ==> (#[trigger] a[k]).name@ == b[k].name@ && a[k].value@
                == b[k].value@,
    ensures
        spec_labels_body(a, i) == spec_labels_body(b, i),
    decreases a.len() - i,
{
    if i < a.len() {
        lemma_labels_body_pairwise_at(a, b, i + 1);
    }
}

/// Appends the full rendering of one entry.
#[verifier::rlimit(50)]
fn append_entry(out: &mut String, e: &RenderEntry)
    ensures
        final(out)@ == old(out)@ + spec_render_entry(*e),
{
    out.append("# HELP ");
    out.append(e.name.as_str());
    out.append(" ");
    out.append(e.help.as_str());
    out.append(".\n");
    out.append("# TYPE ");
    out.append(e.name.as_str());
    out.append(" ");
    out.append(kind_token(e.kind));
    out.append("\n");
    match e.unit {
        Some(unit) => {
            out.append("# UNIT ");
            out.append(e.name.as_str());
            out.append(" ");
            out.append(unit.as_str());
            out.append("\n");
        },
        None => {},
    }
    let ghost mid = out@;
    let n = e.series.len();
    let mut i: usize = 0;
    while i < n
        invariant
            n == e.series@.len(),
            0 <= i <= n,
            mid + spec_all_series_lines(e.name@, e.series@, 0) == out@ + spec_all_series_lines(
                e.name@,
                e.series@,
                i as int,
            ),
        decreases n - i,
    {
        append_series(out, e.name.as_str(), &e.series[i]);
        i += 1;
        proof {
            assert(mid + spec_all_series_lines(e.name@, e.series@, 0) =~= out@
                + spec_all_series_lines(e.name@, e.series@, i as int));
        }
    }
    proof {
        assert(final(out)@ =~= old(out)@ + spec_render_entry(*e));
    }
}

/// Appends the complete strict-format document for the entries.
pub fn render_document(entries: &Vec<RenderEntry>, out: &mut String)
    ensures
        final(out)@ == old(out)@ + spec_render_document(entries@),
{
    let n = entries.len();
    let mut i: usize = 0;
    while i < n
        invariant
            n == entries@.len(),
            0 <= i <= n,
            old(out)@ + spec_render_entries(entries@, 0) == out@ + spec_render_entries(
                entries@,
                i as int,
            ),
        decreases n - i,
    {
        append_entry(out, &entries[i]);
        i += 1;
        proof {
            assert(old(out)@ + spec_render_entries(entries@, 0) =~= out@ + spec_render_entries(
                entries@,
                i as int,
            ));
        }
    }
    out.append("# EOF\n");
    proof {
        assert(final(out)@ =~= old(out)@ + spec_render_document(entries@));
    }
}

/// The translator flags used for a format: whether the `# EOF` terminator
/// is removed and whether info metrics are reported as gauges. The strict
/// format is passed through untranslated.
pub open spec fn spec_format_flags(format: Format) -> (bool, bool) {
    match format {
        Format::OpenMetrics => (false, false),
        Format::OpenMetricsForPrometheus => (false, true),
        Format::Prometheus => (true, true),
    }
}

/// The encoded document for the entries in the requested format, if the
/// translation succeeds.
pub open spec fn spec_encode_document(es: Seq<RenderEntry>, format: Format) -> Option<Seq<char>> {
    if format == Format::OpenMetrics {
        Some(spec_render_document(es))
    } else {
        spec_translate_text(
            spec_render_document(es),
            spec_format_flags(format).0,
            spec_format_flags(format).1,
        )
    }
}

/// Renders the entries in the strict format and, for the other formats,
/// translates the result, appending the document to `buffer`.
pub fn encode_document(entries: &Vec<RenderEntry>, format: Format, buffer: &mut String) -> (r:
    Result<(), FormatError>)
    ensures
        r is Ok <==> spec_encode_document(entries@, format) is Some,
        r is Ok ==> Some(final(buffer)@) == match spec_encode_document(entries@, format) {
            Some(t) => Some(old(buffer)@ + t),
            None => None::<Seq<char>>,
        },
        r is Err ==> final(buffer)@ == old(buffer)@,
{
    let mut rendered = String::new();
    render_document(entries, &mut rendered);
    match format {
        Format::OpenMetrics => {
            buffer.append(rendered.as_str());
            Ok(())
        },
        Format::OpenMetricsForPrometheus => {
            let mut wrapper = PrometheusWrapper::new();
            wrapper.translate_info_metrics_type();
            if wrapper.write_str(rendered.as_str()).is_err() {
                return Err(FormatError);
            }
            match wrapper.finish() {
                Ok(translated) => {
                    buffer.append(translated.as_str());
                    Ok(())
                },
                Err(e) => Err(e),
            }
        },
        Format::Prometheus => {
            let mut wrapper = PrometheusWrapper::new();
            wrapper.remove_eof_terminator();
            wrapper.translate_info_metrics_type();
            if wrapper.write_str(rendered.as_str()).is_err() {
                return Err(FormatError);
            }
            match wrapper.finish() {
                Ok(translated) => {
                    buffer.append(translated.as_str());
                    Ok(())
                },
                Err(e) => Err(e),
            }
        },
    }
}

} // verus!
