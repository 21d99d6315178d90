use std::sync::atomic::{AtomicI64, Ordering};
use std::sync::{Arc, Weak};

use vise::{
    full_metric_name, Collector, Counter, EncodeLabelSet, Family, Format, Gauge, Info, LabelPair,
    LabelWithUnit, Metrics, MetricBuilder, MetricDescriptor, MetricGroupDescriptor, MetricKind,
    MetricsVisitor, ProduceMetrics, Registry, RenameRule, Unit,
};

type Label = (&'static str, &'static str);

#[test]
fn family_accesses_are_not_deadlocked() {
    let family = Family::<Label, Gauge>::new(MetricBuilder::new(), ());
    let first_metric = family.get_or_create(&("method", "test"));
    let second_metric = family.get_or_create(&("method", "other"));
    first_metric.set(10);
    second_metric.set(20);

    // We circumvent deadlocking problems by using a *frozen map* (one that
    // can be updated via a shared ref), so both lookups above stay valid
    // at the same time.
    assert_eq!(family.get(&("method", "test")).unwrap().get(), 10);
    assert_eq!(family.get(&("method", "other")).unwrap().get(), 20);
    // Each label combination maps to one stable instance.
    family.get_or_create(&("method", "test")).inc_by(1);
    assert_eq!(family.get(&("method", "test")).unwrap().get(), 11);
    assert!(family.contains(&("method", "test")));
    assert!(!family.contains(&("method", "missing")));
    assert_eq!(family.to_entries().len(), 2);
}

#[test]
fn using_gauge_guard() {
    let gauge = Gauge::<usize>::new();
    let guard = gauge.inc_guard(5);
    let other_guard = gauge.inc_guard(3);
    assert_eq!(gauge.get(), 8);
    drop(other_guard);
    assert_eq!(gauge.get(), 5);
    drop(guard);
    assert_eq!(gauge.get(), 0);
}

#[derive(Debug, Clone, Copy, PartialEq, Eq, Hash)]
struct LabelWithRawIdent {
    type_value: &'static str,
}

impl From<&'static str> for LabelWithRawIdent {
    fn from(type_value: &'static str) -> Self {
        Self { type_value }
    }
}

impl EncodeLabelSet for LabelWithRawIdent {
    fn label_pairs(&self) -> Vec<LabelPair> {
        vec![LabelPair { name: "type".to_string(), value: self.type_value.to_string() }]
    }
}

struct MetricsWithRawIdent {
    counters: Family<LabelWithRawIdent, Counter>,
}

impl Default for MetricsWithRawIdent {
    fn default() -> Self {
        MetricsWithRawIdent { counters: Family::new(MetricBuilder::new(), ()) }
    }
}

impl Metrics for MetricsWithRawIdent {
    fn descriptor() -> MetricGroupDescriptor {
        MetricGroupDescriptor {
            crate_name: "vise",
            crate_version: "0.1.0",
            module: "vise::tests",
            name: "MetricsWithRawIdent",
            line: 364,
            metrics: vec![MetricDescriptor {
                name: "test_counters",
                field_name: "counters",
                metric_type: MetricKind::Counter,
                unit: None,
                help: "",
            }],
        }
    }

    fn visit_metrics(&self, visitor: &mut MetricsVisitor) {
        visitor.visit_metric(
            full_metric_name("test", "counters", None),
            "",
            None,
            Box::new(self.counters.clone()),
        );
    }
}

#[test]
fn label_with_raw_ident() {
    let test_metrics = MetricsWithRawIdent::default();
    test_metrics.counters.get_or_create(&"first".into()).inc();

    let mut registry = Registry::empty();
    registry.register_metrics(&test_metrics).unwrap();
    let mut buffer = String::new();
    registry.encode(&mut buffer, Format::OpenMetrics).unwrap();
    let lines: Vec<_> = buffer.lines().collect();

    assert!(
        lines.contains(&r#"test_counters_total{type="first"} 1"#),
        "{lines:#?}"
    );
}

#[derive(Debug, Clone, Copy, PartialEq, Eq, Hash)]
enum KindLabel {
    First,
    Second,
    ThirdOrMore,
}

impl EncodeLabelSet for KindLabel {
    fn label_pairs(&self) -> Vec<LabelPair> {
        let value = match self {
            KindLabel::First => RenameRule::SnakeCase.transform("First"),
            KindLabel::Second => "2nd".to_string(),
            KindLabel::ThirdOrMore => RenameRule::SnakeCase.transform("ThirdOrMore"),
        };
        vec![LabelPair { name: "kind".to_string(), value }]
    }
}

#[derive(Debug, Clone, Copy, PartialEq, Eq, Hash)]
enum ScreamingLabel {
    Postgres,
    MySql,
}

impl EncodeLabelSet for ScreamingLabel {
    fn label_pairs(&self) -> Vec<LabelPair> {
        let value = match self {
            ScreamingLabel::Postgres => RenameRule::ScreamingKebabCase.transform("Postgres"),
            ScreamingLabel::MySql => RenameRule::ScreamingKebabCase.transform("MySql"),
        };
        vec![LabelPair { name: "kind".to_string(), value }]
    }
}

struct MetricsWithLabels {
    counters: Family<KindLabel, Counter>,
    gauges: Family<ScreamingLabel, Gauge>,
}

impl Default for MetricsWithLabels {
    fn default() -> Self {
        MetricsWithLabels {
            counters: Family::new(MetricBuilder::new(), ()),
            gauges: Family::new(MetricBuilder::new(), ()),
        }
    }
}

impl Metrics for MetricsWithLabels {
    fn descriptor() -> MetricGroupDescriptor {
        MetricGroupDescriptor {
            crate_name: "vise",
            crate_version: "0.1.0",
            module: "vise::tests",
            name: "MetricsWithLabels",
            line: 399,
            metrics: vec![
                MetricDescriptor {
                    name: "test_counters",
                    field_name: "counters",
                    metric_type: MetricKind::Counter,
                    unit: None,
                    help: "",
                },
                MetricDescriptor {
                    name: "test_gauges",
                    field_name: "gauges",
                    metric_type: MetricKind::Gauge,
                    unit: None,
                    help: "",
                },
            ],
        }
    }

    fn visit_metrics(&self, visitor: &mut MetricsVisitor) {
        visitor.visit_metric(
            full_metric_name("test", "counters", None),
            "",
            None,
            Box::new(self.counters.clone()),
        );
        visitor.visit_metric(
            full_metric_name("test", "gauges", None),
            "",
            None,
            Box::new(self.gauges.clone()),
        );
    }
}

#[test]
fn renamed_labels() {
    let test_metrics = MetricsWithLabels::default();
    test_metrics.counters.get_or_create(&KindLabel::First).inc();
    test_metrics.counters.get_or_create(&KindLabel::Second).inc_by(23);
    test_metrics.counters.get_or_create(&KindLabel::ThirdOrMore).inc_by(42);
    test_metrics.gauges.get_or_create(&ScreamingLabel::Postgres).set(5);
    test_metrics.gauges.get_or_create(&ScreamingLabel::MySql).set(3);

    let mut registry = Registry::empty();
    registry.register_metrics(&test_metrics).unwrap();
    let mut buffer = String::new();
    registry.encode(&mut buffer, Format::OpenMetrics).unwrap();
    let lines: Vec<_> = buffer.lines().collect();

    let expected_lines = [
        r#"test_counters_total{kind="first"} 1"#,
        r#"test_counters_total{kind="2nd"} 23"#,
        r#"test_counters_total{kind="third_or_more"} 42"#,
        r#"test_gauges{kind="POSTGRES"} 5"#,
        r#"test_gauges{kind="MY-SQL"} 3"#,
    ];
    for line in expected_lines {
        assert!(lines.contains(&line), "{lines:#?}");
    }
}

#[derive(Debug)]
struct LabelsWithUnits {
    capacity: u64,
    timeout: f64,
}

impl EncodeLabelSet for LabelsWithUnits {
    fn label_pairs(&self) -> Vec<LabelPair> {
        vec![
            LabelPair {
                name: LabelWithUnit::new("capacity", Unit::Bytes).label_name(),
                value: format!("{}", self.capacity),
            },
            LabelPair {
                name: LabelWithUnit::new("timeout", Unit::Seconds).label_name(),
                value: format!("{}", self.timeout),
            },
        ]
    }
}

struct InfoMetrics {
    config: Info<LabelsWithUnits>,
}

impl Default for InfoMetrics {
    fn default() -> Self {
        InfoMetrics { config: Info::new() }
    }
}

impl Metrics for InfoMetrics {
    fn descriptor() -> MetricGroupDescriptor {
        MetricGroupDescriptor {
            crate_name: "vise",
            crate_version: "0.1.0",
            module: "vise::tests",
            name: "InfoMetrics",
            line: 449,
            metrics: vec![MetricDescriptor {
                name: "test_config",
                field_name: "config",
                metric_type: MetricKind::Info,
                unit: None,
                help: "",
            }],
        }
    }

    fn visit_metrics(&self, visitor: &mut MetricsVisitor) {
        visitor.visit_metric(
            full_metric_name("test", "config", None),
            "",
            None,
            Box::new(self.config.clone()),
        );
    }
}

#[test]
fn labels_with_unit() {
    let test_metrics = InfoMetrics::default();
    test_metrics
        .config
        .set(LabelsWithUnits { capacity: 128, timeout: 0.1 })
        .ok();

    let mut registry = Registry::empty();
    registry.register_metrics(&test_metrics).unwrap();
    let mut buffer = String::new();
    registry.encode(&mut buffer, Format::OpenMetrics).unwrap();
    let lines: Vec<_> = buffer.lines().collect();

    assert!(
        lines.contains(&r#"test_config_info{capacity_bytes="128",timeout_seconds="0.1"} 1"#),
        "{lines:#?}"
    );
}

#[test]
fn setting_info_twice_is_an_error() {
    let info = Info::<LabelsWithUnits>::new();
    info.set(LabelsWithUnits { capacity: 1, timeout: 0.5 }).unwrap();
    let err = info
        .set(LabelsWithUnits { capacity: 2, timeout: 0.7 })
        .unwrap_err();
    assert_eq!(err.message(), "cannot set info metric value; it is already set");
    let rejected = err.into_inner();
    assert_eq!(rejected.capacity, 2);
}

struct DynamicMetrics {
    gauge: Gauge,
}

impl Default for DynamicMetrics {
    fn default() -> Self {
        DynamicMetrics { gauge: Gauge::new() }
    }
}

impl Metrics for DynamicMetrics {
    fn descriptor() -> MetricGroupDescriptor {
        MetricGroupDescriptor {
            crate_name: "vise",
            crate_version: "0.1.0",
            module: "vise::tests::collector",
            name: "DynamicMetrics",
            line: 108,
            metrics: vec![MetricDescriptor {
                name: "dynamic_gauge",
                field_name: "gauge",
                metric_type: MetricKind::Gauge,
                unit: Some(Unit::Bytes),
                help: "Test gauge",
            }],
        }
    }

    fn visit_metrics(&self, visitor: &mut MetricsVisitor) {
        visitor.visit_metric(
            full_metric_name("dynamic", "gauge", Some(Unit::Bytes)),
            "Test gauge",
            Some(Unit::Bytes),
            Box::new(self.gauge.clone()),
        );
    }
}

struct OwningHook {
    state: Weak<AtomicI64>,
}

impl ProduceMetrics<Option<DynamicMetrics>> for OwningHook {
    fn produce(&self) -> Option<DynamicMetrics> {
        let state = self.state.upgrade()?;
        let metrics = DynamicMetrics::default();
        metrics.gauge.set(state.load(Ordering::Relaxed));
        Some(metrics)
    }
}

fn assert_collector_works(registry: &Registry, state: &Arc<AtomicI64>) {
    state.store(123, Ordering::Release);
    let mut buffer = String::new();
    registry.encode(&mut buffer, Format::OpenMetrics).unwrap();
    let lines: Vec<_> = buffer.lines().collect();

    let expected_lines = [
        "# HELP dynamic_gauge_bytes Test gauge.",
        "# TYPE dynamic_gauge_bytes gauge",
        "# UNIT dynamic_gauge_bytes bytes",
        "dynamic_gauge_bytes 123",
    ];
    for line in expected_lines {
        assert!(lines.contains(&line), "{lines:#?}");
    }
}

#[test]
fn using_owning_collector() {
    let state = Arc::new(AtomicI64::new(0));
    let state_for_collector = Arc::downgrade(&state);

    let collector = Collector::<Option<DynamicMetrics>>::new();
    collector
        .before_scrape(Box::new(OwningHook { state: state_for_collector }))
        .unwrap();

    let mut registry = Registry::empty();
    registry.register_collector(&collector).unwrap();
    assert_collector_works(&registry, &state);

    drop(state);
    let mut buffer = String::new();
    registry.encode(&mut buffer, Format::OpenMetrics).unwrap();

    assert_eq!(buffer, "# EOF\n");
}

struct BorrowingHook {
    metrics: &'static DynamicMetrics,
    state: Weak<AtomicI64>,
}

impl ProduceMetrics<&'static DynamicMetrics> for BorrowingHook {
    fn produce(&self) -> &'static DynamicMetrics {
        if let Some(state) = self.state.upgrade() {
            self.metrics.gauge.set(state.load(Ordering::Relaxed));
        }
        self.metrics
    }
}

#[test]
fn using_borrowing_collector() {
    let state = Arc::new(AtomicI64::new(0));
    let state_for_collector = Arc::downgrade(&state);
    let metrics_instance: &'static DynamicMetrics = Box::leak(Box::new(
        DynamicMetrics::default(),
    ));

    let collector = Collector::<&'static DynamicMetrics>::new();
    collector
        .before_scrape(Box::new(BorrowingHook {
            metrics: metrics_instance,
            state: state_for_collector,
        }))
        .unwrap();

    let mut registry = Registry::empty();
    registry.register_collector(&collector).unwrap();
    assert_collector_works(&registry, &state);

    metrics_instance.gauge.set(42);
    drop(state);

    let mut buffer = String::new();
    registry.encode(&mut buffer, Format::OpenMetrics).unwrap();
    let lines: Vec<_> = buffer.lines().collect();
    assert!(lines.contains(&"dynamic_gauge_bytes 42"), "{lines:#?}");
}

struct MultiLabelMetrics {
    counters: vise::LabeledFamily<(&'static str, u16), Counter, 2>,
}

impl Default for MultiLabelMetrics {
    fn default() -> Self {
        MultiLabelMetrics { counters: Family::new(MetricBuilder::new(), ["method", "code"]) }
    }
}

impl Metrics for MultiLabelMetrics {
    fn descriptor() -> MetricGroupDescriptor {
        MetricGroupDescriptor {
            crate_name: "vise",
            crate_version: "0.1.0",
            module: "vise::tests",
            name: "MultiLabelMetrics",
            line: 487,
            metrics: vec![MetricDescriptor {
                name: "test_counters",
                field_name: "counters",
                metric_type: MetricKind::Counter,
                unit: None,
                help: "",
            }],
        }
    }

    fn visit_metrics(&self, visitor: &mut MetricsVisitor) {
        visitor.visit_metric(
            full_metric_name("test", "counters", None),
            "",
            None,
            Box::new(self.counters.clone()),
        );
    }
}

#[test]
fn labeled_family_with_two_labels() {
    let test_metrics = MultiLabelMetrics::default();
    test_metrics.counters.get_or_create(&("call", 200)).inc_by(10);
    test_metrics.counters.get_or_create(&("call", 400)).inc();
    test_metrics.counters.get_or_create(&("send_transaction", 200)).inc_by(8);
    test_metrics.counters.get_or_create(&("send_transaction", 502)).inc_by(3);

    let mut registry = Registry::empty();
    registry.register_metrics(&test_metrics).unwrap();
    let mut buffer = String::new();
    registry.encode(&mut buffer, Format::OpenMetrics).unwrap();
    let lines: Vec<_> = buffer.lines().collect();

    let expected_lines = [
        "test_counters_total{method=\"call\",code=\"400\"} 1",
        "test_counters_total{method=\"send_transaction\",code=\"502\"} 3",
        "test_counters_total{method=\"send_transaction\",code=\"200\"} 8",
        "test_counters_total{method=\"call\",code=\"200\"} 10",
    ];
    for line in expected_lines {
        assert!(lines.contains(&line), "{lines:#?}");
    }
}
