use std::time::Duration;

use vise::{
    full_metric_name, Buckets, Counter, Family, Format, Gauge, Global, Histogram, LabeledFamily,
    Metrics, MetricBuilder, MetricDescriptor, MetricGroupDescriptor, MetricKind,
    MetricsCollection, MetricsFamily, MetricsRegistrations, MetricsVisitor, Registry, Unit,
};

/// One unit in fixed-point bucket values.
const ONE: i128 = 1_000_000_000;

struct TestMetrics {
    counter: Counter,
    family_of_counters: LabeledFamily<&'static str, Counter, 1>,
    gauge: Gauge<usize>,
    family_of_gauges: LabeledFamily<u16, Gauge, 1>,
}

impl Default for TestMetrics {
    fn default() -> Self {
        TestMetrics {
            counter: Counter::new(),
            family_of_counters: Family::new(MetricBuilder::new(), ["method"]),
            gauge: Gauge::new(),
            family_of_gauges: Family::new(MetricBuilder::new(), ["code"]),
        }
    }
}

impl Metrics for TestMetrics {
    fn descriptor() -> MetricGroupDescriptor {
        MetricGroupDescriptor {
            crate_name: "vise",
            crate_version: "0.1.0",
            module: "vise::tests",
            name: "TestMetrics",
            line: 14,
            metrics: vec![
                MetricDescriptor {
                    name: "test_counter",
                    field_name: "counter",
                    metric_type: MetricKind::Counter,
                    unit: None,
                    help: "Test counter",
                },
                MetricDescriptor {
                    name: "test_family_of_counters",
                    field_name: "family_of_counters",
                    metric_type: MetricKind::Counter,
                    unit: None,
                    help: "",
                },
                MetricDescriptor {
                    name: "test_gauge",
                    field_name: "gauge",
                    metric_type: MetricKind::Gauge,
                    unit: Some(Unit::Bytes),
                    help: "",
                },
                MetricDescriptor {
                    name: "test_family_of_gauges",
                    field_name: "family_of_gauges",
                    metric_type: MetricKind::Gauge,
                    unit: None,
                    help: "",
                },
            ],
        }
    }

    fn visit_metrics(&self, visitor: &mut MetricsVisitor) {
        visitor.visit_metric(
            full_metric_name("test", "counter", None),
            "Test counter",
            None,
            Box::new(self.counter.clone()),
        );
        visitor.visit_metric(
            full_metric_name("test", "family_of_counters", None),
            "",
            None,
            Box::new(self.family_of_counters.clone()),
        );
        visitor.visit_metric(
            full_metric_name("test", "gauge", Some(Unit::Bytes)),
            "",
            Some(Unit::Bytes),
            Box::new(self.gauge.clone()),
        );
        visitor.visit_metric(
            full_metric_name("test", "family_of_gauges", None),
            "",
            None,
            Box::new(self.family_of_gauges.clone()),
        );
    }
}

fn assert_format<'a>(
    registry: &Registry,
    format: Format,
    expected_lines: impl Iterator<Item = &'a str>,
    missing_lines: impl Iterator<Item = &'a str>,
) {
    println!("Testing {format:?}");
    let mut buffer = String::new();
    registry.encode(&mut buffer, format).unwrap();
    let lines: Vec<_> = buffer.lines().collect();
    for expected_line in expected_lines {
        assert!(
            lines.contains(&expected_line),
            "Line `{expected_line}` is missing: {lines:#?}"
        );
    }
    for missing_line in missing_lines {
        assert!(
            !lines.contains(&missing_line),
            "Line `{missing_line}` is present: {lines:#?}"
        );
    }
}

#[test]
fn translating_real_metrics() {
    let test_metrics = TestMetrics::default();
    let mut registry = Registry::empty();
    registry.register_metrics(&test_metrics).unwrap();

    test_metrics.counter.inc_by(3);
    test_metrics.family_of_counters.get_or_create(&"call").inc_by(5);
    test_metrics.family_of_counters.get_or_create(&"send_tx").inc_by(2);
    test_metrics.gauge.set(42);
    test_metrics.family_of_gauges.get_or_create(&200).set(12);
    test_metrics.family_of_gauges.get_or_create(&404).set(4);

    let common_expected_lines = [
        "# HELP test_counter Test counter.",
        "# TYPE test_counter counter",
        "# TYPE test_family_of_counters counter",
        "# TYPE test_gauge_bytes gauge",
        "# UNIT test_gauge_bytes bytes",
        "test_gauge_bytes 42",
        "# TYPE test_family_of_gauges gauge",
        "test_family_of_gauges{code=\"200\"} 12",
        "test_family_of_gauges{code=\"404\"} 4",
    ];
    let om_expected_lines = [
        "test_counter_total 3",
        "test_family_of_counters_total{method=\"call\"} 5",
        "test_family_of_counters_total{method=\"send_tx\"} 2",
    ];
    let prom_expected_lines = [
        "test_counter 3",
        "test_family_of_counters{method=\"call\"} 5",
        "test_family_of_counters{method=\"send_tx\"} 2",
    ];
    let eof = "# EOF";

    assert_format(
        &registry,
        Format::OpenMetrics,
        common_expected_lines
            .into_iter()
            .chain(om_expected_lines)
            .chain([eof]),
        prom_expected_lines.into_iter(),
    );

    for prom_format in [Format::OpenMetricsForPrometheus, Format::Prometheus] {
        let expect_eof = matches!(prom_format, Format::OpenMetricsForPrometheus);
        let expected_lines = common_expected_lines
            .into_iter()
            .chain(prom_expected_lines)
            .chain(expect_eof.then_some(eof));
        let missing_lines = om_expected_lines
            .into_iter()
            .chain((!expect_eof).then_some(eof));
        assert_format(&registry, prom_format, expected_lines, missing_lines);
    }
}

#[derive(Debug, Clone, PartialEq, Eq, Hash)]
struct Method(&'static str);

impl vise::EncodeLabelSet for Method {
    fn label_pairs(&self) -> Vec<vise::LabelPair> {
        vec![vise::LabelPair { name: "method".to_string(), value: self.0.to_string() }]
    }
}

struct MethodMetrics {
    return_codes: LabeledFamily<i16, Counter, 1>,
    errors: Counter,
    latency: Histogram<Duration>,
}

impl Default for MethodMetrics {
    fn default() -> Self {
        MethodMetrics {
            return_codes: Family::new(MetricBuilder::new(), ["code"]),
            errors: Counter::new(),
            latency: Histogram::new(Buckets::latencies()),
        }
    }
}

impl Metrics for MethodMetrics {
    fn descriptor() -> MetricGroupDescriptor {
        MetricGroupDescriptor {
            crate_name: "vise",
            crate_version: "0.1.0",
            module: "vise::tests",
            name: "MethodMetrics",
            line: 200,
            metrics: vec![
                MetricDescriptor {
                    name: "rpc_method_return_codes",
                    field_name: "return_codes",
                    metric_type: MetricKind::Counter,
                    unit: None,
                    help: "",
                },
                MetricDescriptor {
                    name: "rpc_method_errors",
                    field_name: "errors",
                    metric_type: MetricKind::Counter,
                    unit: None,
                    help: "",
                },
                MetricDescriptor {
                    name: "rpc_method_latency",
                    field_name: "latency",
                    metric_type: MetricKind::Histogram,
                    unit: None,
                    help: "",
                },
            ],
        }
    }

    fn visit_metrics(&self, visitor: &mut MetricsVisitor) {
        visitor.visit_metric(
            full_metric_name("rpc_method", "return_codes", None),
            "",
            None,
            Box::new(self.return_codes.clone()),
        );
        visitor.visit_metric(
            full_metric_name("rpc_method", "errors", None),
            "",
            None,
            Box::new(self.errors.clone()),
        );
        visitor.visit_metric(
            full_metric_name("rpc_method", "latency", None),
            "",
            None,
            Box::new(self.latency.clone()),
        );
    }
}

#[test]
fn group_registration() {
    let group_metrics = MetricsFamily::<Method, MethodMetrics>::new();
    let mut registrations = MetricsRegistrations::new();
    registrations.push(Box::new(group_metrics.clone()));

    let registry = MetricsCollection::new()
        .filter(|group| group.name == "MethodMetrics")
        .collect(&registrations)
        .unwrap();

    group_metrics
        .get_or_create(&Method("eth_call"))
        .latency
        .observe(Duration::from_millis(100));
    group_metrics.get_or_create(&Method("eth_call")).errors.inc();
    group_metrics
        .get_or_create(&Method("eth_call"))
        .return_codes
        .get_or_create(&0)
        .inc_by(5);
    group_metrics
        .get_or_create(&Method("eth_call"))
        .return_codes
        .get_or_create(&3)
        .inc_by(2);
    group_metrics
        .get_or_create(&Method("eth_call"))
        .return_codes
        .get_or_create(&-2)
        .inc();
    group_metrics
        .get_or_create(&Method("eth_blockNumber"))
        .latency
        .observe(Duration::from_millis(200));
    group_metrics
        .get_or_create(&Method("eth_blockNumber"))
        .return_codes
        .get_or_create(&0)
        .inc_by(7);

    let mut buffer = String::new();
    registry.encode(&mut buffer, Format::OpenMetrics).unwrap();
    let lines: Vec<_> = buffer.lines().collect();

    // Each metric should be defined exactly once.
    for metric_name in [
        "rpc_method_errors",
        "rpc_method_latency",
        "rpc_method_return_codes",
    ] {
        let type_definition_start = format!("# TYPE {metric_name} ");
        assert_eq!(
            lines
                .iter()
                .filter(|line| line.starts_with(&type_definition_start))
                .count(),
            1
        );
    }

    let expected_lines = [
        "rpc_method_return_codes_total{method=\"eth_call\",code=\"0\"} 5",
        "rpc_method_return_codes_total{method=\"eth_call\",code=\"-2\"} 1",
        "rpc_method_return_codes_total{method=\"eth_call\",code=\"3\"} 2",
        "rpc_method_return_codes_total{method=\"eth_blockNumber\",code=\"0\"} 7",
        "rpc_method_errors_total{method=\"eth_call\"} 1",
        "rpc_method_latency_sum{method=\"eth_call\"} 0.1",
        "rpc_method_latency_count{method=\"eth_call\"} 1",
        "rpc_method_latency_sum{method=\"eth_blockNumber\"} 0.2",
        "rpc_method_latency_count{method=\"eth_blockNumber\"} 1",
    ];
    for expected_line in expected_lines {
        assert!(lines.contains(&expected_line), "{lines:#?}");
    }
}

struct LazyMetrics {
    counter: Counter,
    histogram: Histogram<Duration>,
}

impl Default for LazyMetrics {
    fn default() -> Self {
        LazyMetrics {
            counter: Counter::new(),
            histogram: Histogram::new(Buckets::values(vec![
                ONE / 1000,
                2 * ONE / 1000,
                5 * ONE / 1000,
                10 * ONE / 1000,
                100 * ONE / 1000,
            ])),
        }
    }
}

impl Metrics for LazyMetrics {
    fn descriptor() -> MetricGroupDescriptor {
        MetricGroupDescriptor {
            crate_name: "vise",
            crate_version: "0.1.0",
            module: "vise::tests",
            name: "LazyMetrics",
            line: 270,
            metrics: vec![
                MetricDescriptor {
                    name: "test_counter",
                    field_name: "counter",
                    metric_type: MetricKind::Counter,
                    unit: None,
                    help: "Test counter",
                },
                MetricDescriptor {
                    name: "test_histogram",
                    field_name: "histogram",
                    metric_type: MetricKind::Histogram,
                    unit: None,
                    help: "Histogram with inline bucket specification",
                },
            ],
        }
    }

    fn visit_metrics(&self, visitor: &mut MetricsVisitor) {
        visitor.visit_metric(
            full_metric_name("test", "counter", None),
            "Test counter",
            None,
            Box::new(self.counter.clone()),
        );
        visitor.visit_metric(
            full_metric_name("test", "histogram", None),
            "Histogram with inline bucket specification",
            None,
            Box::new(self.histogram.clone()),
        );
    }
}

fn assert_test_metrics(registry: &Registry) {
    let mut buffer = String::new();
    registry.encode(&mut buffer, Format::OpenMetrics).unwrap();
    let lines: Vec<_> = buffer.lines().collect();

    let expected_lines = [
        "# TYPE test_counter counter",
        "# HELP test_counter Test counter.",
        "test_counter_total 3",
        "# TYPE test_histogram histogram",
        "test_histogram_bucket{le=\"0.01\"} 1",
    ];
    for expected_line in expected_lines {
        assert!(
            lines.contains(&expected_line),
            "Missing line `{expected_line}`: {lines:#?}"
        );
    }
}

#[test]
fn lazy_metrics_registration() {
    let lazy_metrics = Global::<LazyMetrics>::new();
    let mut registrations = MetricsRegistrations::new();
    registrations.push(Box::new(lazy_metrics.clone()));

    let registry = MetricsCollection::lazy()
        .filter(|group| group.name == "LazyMetrics")
        .collect(&registrations)
        .unwrap();
    let descriptors = registry.descriptors();

    assert_eq!(descriptors.metric_count(), 2);
    assert_eq!(descriptors.groups().len(), 1);
    let counter_descriptor = descriptors.metric("test_counter").unwrap();
    assert_eq!(counter_descriptor.metric.help, "Test counter");

    let mut buffer = String::new();
    registry.encode(&mut buffer, Format::OpenMetrics).unwrap();
    assert_eq!(buffer, "# EOF\n");

    lazy_metrics.get().counter.inc_by(3);
    lazy_metrics.get().histogram.observe(Duration::from_millis(5));
    assert_test_metrics(&registry);
}

#[test]
fn duplicate_metric_names_are_rejected() {
    let first = LazyMetrics::default();
    let second = LazyMetrics::default();
    let mut registry = Registry::empty();
    registry.register_metrics(&first).unwrap();
    let err = registry.register_metrics(&second).unwrap_err();
    assert_eq!(err.full_name, "test_counter");
    assert!(err.message().contains("is redefined"), "{}", err.message());

    // The failed registration left no partial state behind: encoding
    // still works and reports the first group only.
    let mut buffer = String::new();
    registry.encode(&mut buffer, Format::OpenMetrics).unwrap();
    assert_eq!(registry.descriptors().metric_count(), 2);
}

#[test]
fn describing_metrics() {
    let descriptor = TestMetrics::descriptor();
    assert_eq!(descriptor.crate_name, "vise");
    assert_eq!(descriptor.module, "vise::tests");
    assert_eq!(descriptor.name, "TestMetrics");

    let gauge_descriptor = descriptor
        .metrics
        .iter()
        .find(|d| d.field_name == "gauge")
        .unwrap();
    assert!(matches!(gauge_descriptor.metric_type, MetricKind::Gauge));
    assert!(matches!(gauge_descriptor.unit, Some(Unit::Bytes)));
    assert_eq!(gauge_descriptor.help, "");
}

#[test]
fn histogram_sums_and_buckets_render_exactly() {
    let metrics = LazyMetrics::default();
    let mut registry = Registry::empty();
    registry.register_metrics(&metrics).unwrap();

    metrics.histogram.observe(Duration::from_millis(1));
    metrics.histogram.observe(Duration::from_micros(1_500));
    metrics.histogram.observe(Duration::from_millis(3));
    metrics.histogram.observe(Duration::from_millis(4));

    let mut buffer = String::new();
    registry.encode(&mut buffer, Format::OpenMetrics).unwrap();
    let lines: Vec<_> = buffer.lines().collect();

    let histogram_lines = [
        "test_histogram_sum 0.0095",
        "test_histogram_count 4",
        r#"test_histogram_bucket{le="0.001"} 1"#,
        r#"test_histogram_bucket{le="0.005"} 4"#,
        r#"test_histogram_bucket{le="0.01"} 4"#,
        r#"test_histogram_bucket{le="+Inf"} 4"#,
    ];
    for line in histogram_lines {
        assert!(
            lines.contains(&line),
            "text output doesn't contain line `{line}`: {lines:#?}"
        );
    }
}
