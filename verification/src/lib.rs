//! A client library for emitting application metrics (counters, gauges,
//! timers, histograms, meters, sets) to a metrics-collection daemon over a
//! line-oriented text wire protocol, with optional Datadog-style tags.
//!
//! A metric travels through three stages: a formatter renders a typed value
//! and its tags into a single ASCII wire line; a builder accumulates tags and
//! either sends the rendered line or carries a previously captured error
//! through the fluent chain; and a sink accepts rendered lines and delivers
//! them, possibly buffering several lines into one network-sized chunk or
//! queueing them for deferred delivery.

pub mod builder;
pub mod client;
pub mod digits;
pub mod format;
pub mod queue;
pub mod sinks;
pub mod types;

pub use builder::MetricBuilder;
pub use client::StatsdClient;
pub use digits::append_i64;
pub use digits::append_u64;
pub use format::MetricFormatter;
pub use queue::QueuingMetricSink;
pub use sinks::BufferedMetricSink;
pub use sinks::MetricSink;
pub use sinks::NopMetricSink;
pub use sinks::SpyMetricSink;
pub use types::Counter;
pub use types::Gauge;
pub use types::Histogram;
pub use types::Meter;
pub use types::Metric;
pub use types::MetricError;
pub use types::MetricResult;
pub use types::SetMetric;
pub use types::SinkError;
pub use types::Timer;
