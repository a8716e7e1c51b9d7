//! Process-local metrics: static descriptors, captured tag values, thread-local
//! pre-aggregation keyed by call site, and the merge into canonical aggregations.
//!
//! Metric values are IEEE-754 doubles held as bit patterns; the library never
//! does floating-point arithmetic itself, aggregation takes it as an argument.

pub mod aggregator;
pub mod datadog;
pub mod globals;
pub mod macros;
pub mod metric;
pub mod scheduler;
pub mod sink;
pub mod statsd;
pub mod tags;
pub mod text;
pub mod timer;
pub mod types;

pub use aggregator::{
    AggregatedGauge, AggregatedMetric, Aggregations, PreAggregations, PreciseAggregatedDistribution,
};
pub use datadog::{datadog_type_code, next_flush_len, payload_full};
pub use globals::{install_override, release_override, select_dispatcher, set_once, OverrideGuard};
pub use metric::{
    Location, Metric, MetricKey, MetricMeta, TaggedMetric, TaggedMetricMeta,
};
pub use scheduler::{flush_error, next_step, FlushError, WorkerSignal, WorkerStep};
pub use sink::{AggregationSink, Sink};
pub use statsd::{MetricSink, StatsdRecorder};
pub use tags::{record_tags, tag_values_from, StringBuf, TagValue, TagValues, TAG_INLINE_CAPACITY};
pub use timer::Timestamp;
pub use types::{
    MetricType, MetricUnit, MetricValue, ValueOp, NEGATIVE_INFINITY_BITS, POSITIVE_INFINITY_BITS,
};
