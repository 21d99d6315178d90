//! Metrics instrumentation and export library: typed metric primitives,
//! a registry with collision-checked metric names, histogram bucket
//! generation, and streaming translation between text exposition formats.

pub mod buckets;
pub mod builder;
pub mod collector;
pub mod constructor;
pub mod descriptors;
pub mod exporter;
pub mod encoding;
pub mod format;
pub mod laws;
pub mod metrics;
pub mod registry;
pub mod rename;
pub mod render;
pub mod text;
pub mod traits;
pub mod validation;
pub mod wrappers;

pub use buckets::{compare_f64_bits, compare_u64, Buckets};
pub use builder::{BuildMetric, MetricBuilder};
pub use collector::{BeforeScrapeError, Collector, ProduceMetrics};
pub use constructor::{ConstructMetric, DefaultConstructor};
pub use descriptors::{full_metric_name, FullMetricDescriptor, MetricDescriptor,
    MetricGroupDescriptor};
pub use encoding::{CollectMetric, EncodeLabelSet, EncodeLabelValue, FullLabelSet, GroupedMetric,
    LabelPair, LabelRef, LabelWithUnit, MapLabels, MetricPayload, MetricSeries, StaticLabelSet,
    TypedMetricKind, Unit};
pub use exporter::{compose_scrape_body, push_content_type, push_loop_continues,
    scrape_content_type, ErrorLogRateLimiter, PushOutcome, ERROR_LOG_INTERVAL_MS};
pub use format::{Format, FormatError, MetricKind, PrometheusWrapper};
pub use metrics::{Global, LazyGroupItem, Metrics, MetricsFamily};
pub use registry::{CollectToRegistry, MetricRedefinitionError, MetricsCollection,
    MetricsRegistrations, MetricsVisitor, NoFilter, RegisteredDescriptors, Registry};
pub use rename::RenameRule;
pub use traits::{AtomicI64Wrapper, AtomicIsizeWrapper, AtomicU64Wrapper, AtomicUsizeWrapper,
    GaugeValue, HistogramValue};
pub use wrappers::{Counter, DurationAsSecs, Family, Gauge, GaugeGuard, Histogram, Info,
    LabeledFamily, LazyItem, LatencyObserver, SetInfoError};
pub use validation::{assert_label_name, assert_label_names, assert_metric_name,
    assert_metric_prefix, is_valid_name_char, is_valid_start_name_char, validate_name,
    ValidationError};
