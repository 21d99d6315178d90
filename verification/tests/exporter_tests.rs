use vise::{
    compose_scrape_body, full_metric_name, push_content_type, push_loop_continues,
    scrape_content_type, Counter, ErrorLogRateLimiter, Format, Info, LabelPair, Metrics,
    MetricDescriptor, MetricGroupDescriptor, MetricKind, MetricsVisitor, PushOutcome, Registry,
    ERROR_LOG_INTERVAL_MS,
};

#[test]
fn content_types_per_format() {
    assert_eq!(
        scrape_content_type(Format::OpenMetrics),
        "application/openmetrics-text; version=1.0.0; charset=utf-8"
    );
    assert_eq!(
        scrape_content_type(Format::OpenMetricsForPrometheus),
        "application/openmetrics-text; version=1.0.0; charset=utf-8"
    );
    assert_eq!(
        scrape_content_type(Format::Prometheus),
        "text/plain; version=0.0.4; charset=utf-8"
    );
    // Pushes always carry the strict content type.
    assert_eq!(
        push_content_type(),
        "application/openmetrics-text; version=1.0.0; charset=utf-8"
    );
}

#[test]
fn composing_scrape_body_strips_blank_legacy_lines() {
    let legacy = "legacy_metric 1\n\n\nlegacy_other 2\n";
    let own = "# EOF\n";
    let body = compose_scrape_body(Some(legacy), own);
    assert_eq!(body, "legacy_metric 1\nlegacy_other 2\n# EOF\n");

    let body = compose_scrape_body(None, own);
    assert_eq!(body, "# EOF\n");
}

#[test]
fn push_loop_survives_failures() {
    for outcome in [
        PushOutcome::Success,
        PushOutcome::ErrorStatus,
        PushOutcome::TransportError,
    ] {
        assert!(push_loop_continues(outcome, false));
        assert!(!push_loop_continues(outcome, true));
    }
}

#[test]
fn error_logs_are_rate_limited() {
    let mut limiter = ErrorLogRateLimiter::new(ERROR_LOG_INTERVAL_MS);
    assert!(limiter.should_log(0));
    // A burst of consecutive failures within the suppression window logs
    // at most one message.
    assert!(!limiter.should_log(1_000));
    assert!(!limiter.should_log(30_000));
    assert!(!limiter.should_log(ERROR_LOG_INTERVAL_MS - 1));
    assert!(limiter.should_log(ERROR_LOG_INTERVAL_MS));
    assert!(!limiter.should_log(ERROR_LOG_INTERVAL_MS + 1));
}

struct RoundTripMetrics {
    counter: Counter,
    package: Info<Version>,
}

#[derive(Debug)]
struct Version(&'static str);

impl vise::EncodeLabelSet for Version {
    fn label_pairs(&self) -> Vec<LabelPair> {
        vec![LabelPair { name: "version".to_string(), value: self.0.to_string() }]
    }
}

impl Default for RoundTripMetrics {
    fn default() -> Self {
        RoundTripMetrics { counter: Counter::new(), package: Info::new() }
    }
}

impl Metrics for RoundTripMetrics {
    fn descriptor() -> MetricGroupDescriptor {
        MetricGroupDescriptor {
            crate_name: "vise",
            crate_version: "0.1.0",
            module: "vise::tests",
            name: "RoundTripMetrics",
            line: 50,
            metrics: vec![
                MetricDescriptor {
                    name: "test_counter",
                    field_name: "counter",
                    metric_type: MetricKind::Counter,
                    unit: None,
                    help: "Test counter",
                },
                MetricDescriptor {
                    name: "test_package",
                    field_name: "package",
                    metric_type: MetricKind::Info,
                    unit: None,
                    help: "Package information",
                },
            ],
        }
    }

    fn visit_metrics(&self, visitor: &mut MetricsVisitor) {
        visitor.visit_metric(
            full_metric_name("test", "counter", None),
            "Test counter",
            None,
            Box::new(self.counter.clone()),
        );
        visitor.visit_metric(
            full_metric_name("test", "package", None),
            "Package information",
            None,
            Box::new(self.package.clone()),
        );
    }
}

fn round_trip_registry() -> Registry {
    let metrics = RoundTripMetrics::default();
    metrics.counter.inc_by(3);
    metrics.package.set(Version("0.1.0")).unwrap();
    let mut registry = Registry::empty();
    registry.register_metrics(&metrics).unwrap();
    registry
}

#[test]
fn strict_counter_round_trips_through_pull_dialect() {
    let registry = round_trip_registry();

    let mut strict = String::new();
    registry.encode(&mut strict, Format::OpenMetrics).unwrap();
    let strict_lines: Vec<_> = strict.lines().collect();
    assert!(strict_lines.contains(&"test_counter_total 3"), "{strict_lines:#?}");
    assert!(strict_lines.contains(&"# TYPE test_counter counter"));
    assert!(
        strict_lines.contains(&r#"test_package_info{version="0.1.0"} 1"#),
        "{strict_lines:#?}"
    );
    assert!(strict_lines.contains(&"# TYPE test_package info"));

    // The pull-compatible dialect reports the counter under its bare
    // name with the TYPE kept, and reports the info metric as a gauge
    // with the `_info` suffix stripped.
    let mut pull = String::new();
    registry
        .encode(&mut pull, Format::OpenMetricsForPrometheus)
        .unwrap();
    let pull_lines: Vec<_> = pull.lines().collect();
    assert!(pull_lines.contains(&"test_counter 3"), "{pull_lines:#?}");
    assert!(pull_lines.contains(&"# TYPE test_counter counter"));
    assert!(!pull_lines.contains(&"test_counter_total 3"));
    assert!(pull_lines.contains(&"# TYPE test_package gauge"), "{pull_lines:#?}");
    assert!(
        pull_lines.contains(&r#"test_package{version="0.1.0"} 1"#),
        "{pull_lines:#?}"
    );
}

#[test]
fn legacy_dialect_drops_eof_and_pull_dialect_keeps_one() {
    let registry = round_trip_registry();

    let mut legacy = String::new();
    registry.encode(&mut legacy, Format::Prometheus).unwrap();
    assert!(legacy.lines().all(|line| line != "# EOF"), "{legacy}");

    let mut pull = String::new();
    registry
        .encode(&mut pull, Format::OpenMetricsForPrometheus)
        .unwrap();
    let eof_count = pull.lines().filter(|line| *line == "# EOF").count();
    assert_eq!(eof_count, 1, "{pull}");
    assert!(pull.ends_with("# EOF\n"), "{pull}");
}
