//! The metric value types, the error types, and the `Metric` capability.
//!
//! Each of the six metric kinds (counter, timer, gauge, meter, histogram,
//! set) is a thin wrapper around its finished wire-format line. A value of
//! one of these types is constructed directly from the rendered string and
//! only ever hands that string back out.

use vstd::prelude::*;

verus! {

/// An error raised by a sink while accepting or delivering a payload.
#[derive(Debug, Clone, Copy, PartialEq, Eq, Structural)]
pub enum SinkError {
    /// The transport write failed.
    WriteFailed,
    /// The transport could not accept the payload without blocking.
    WouldBlock,
    /// A bounded queue was at capacity.
    QueueFull,
    /// The sink had already been shut down.
    Closed,
}

/// An error carried through metric construction and sending: either an
/// input was rejected before formatting, or a sink refused the payload.
#[derive(Debug, Clone, PartialEq)]
pub enum MetricError {
    /// An input string was rejected before formatting (the wire format is
    /// ASCII text, so non-ASCII keys, values, and tags are refused).
    InvalidInput(String),
    /// A sink reported an error while accepting the rendered metric.
    Sink(SinkError),
}

impl MetricError {
    /// The sink error inside this error, if that is what it carries.
    pub fn sink_error(&self) -> (r: Option<SinkError>)
        ensures
            r == (match *self {
                MetricError::Sink(e) => Some(e),
                MetricError::InvalidInput(_) => None::<SinkError>,
            }),
    {
        match self {
            MetricError::Sink(e) => Some(*e),
            MetricError::InvalidInput(_) => None,
        }
    }

    /// A short description of the error.
    pub fn message(&self) -> (r: &str)
        ensures
            (*self matches MetricError::InvalidInput(m) ==> r@ == m@),
            *self == MetricError::Sink(SinkError::WriteFailed) ==> r@ == "sink write failed"@,
            *self == MetricError::Sink(SinkError::WouldBlock) ==> r@ == "sink would block"@,
            *self == MetricError::Sink(SinkError::QueueFull) ==> r@ == "sink queue full"@,
            *self == MetricError::Sink(SinkError::Closed) ==> r@ == "sink closed"@,
    {
        match self {
            MetricError::InvalidInput(m) => m.as_str(),
            MetricError::Sink(SinkError::WriteFailed) => "sink write failed",
            MetricError::Sink(SinkError::WouldBlock) => "sink would block",
            MetricError::Sink(SinkError::QueueFull) => "sink queue full",
            MetricError::Sink(SinkError::Closed) => "sink closed",
        }
    }
}

/// The result of constructing and sending one metric.
pub type MetricResult<T> = Result<T, MetricError>;

/// A finished metric: a value that holds its own rendered wire-format line.
pub trait Metric: Sized {
    /// The rendered wire-format line this metric holds.
    spec fn text(&self) -> Seq<char>;

    /// Wraps a finished wire-format line.
    fn from_metric_string(s: String) -> (r: Self)
        ensures
            r.text() == s@,
    ;

    /// The rendered wire-format line, as sent to the daemon.
    fn as_metric_str(&self) -> (r: &str)
        ensures
            r@ == self.text(),
    ;
}

/// A counter: a value added to a named total.
#[derive(Debug, Clone, PartialEq, Eq)]
pub struct Counter {
    repr: String,
}

impl Metric for Counter {
    closed spec fn text(&self) -> Seq<char> {
        self.repr@
    }

    fn from_metric_string(s: String) -> (r: Self) {
        Counter { repr: s }
    }

    fn as_metric_str(&self) -> (r: &str) {
        self.repr.as_str()
    }
}

/// A timer: an elapsed interval in milliseconds.
#[derive(Debug, Clone, PartialEq, Eq)]
pub struct Timer {
    repr: String,
}

impl Metric for Timer {
    closed spec fn text(&self) -> Seq<char> {
        self.repr@
    }

    fn from_metric_string(s: String) -> (r: Self) {
        Timer { repr: s }
    }

    fn as_metric_str(&self) -> (r: &str) {
        self.repr.as_str()
    }
}

/// A gauge: an instantaneous reading of a named quantity.
#[derive(Debug, Clone, PartialEq, Eq)]
pub struct Gauge {
    repr: String,
}

impl Metric for Gauge {
    closed spec fn text(&self) -> Seq<char> {
        self.repr@
    }

    fn from_metric_string(s: String) -> (r: Self) {
        Gauge { repr: s }
    }

    fn as_metric_str(&self) -> (r: &str) {
        self.repr.as_str()
    }
}

/// A meter: one occurrence of a named event.
#[derive(Debug, Clone, PartialEq, Eq)]
pub struct Meter {
    repr: String,
}

impl Metric for Meter {
    closed spec fn text(&self) -> Seq<char> {
        self.repr@
    }

    fn from_metric_string(s: String) -> (r: Self) {
        Meter { repr: s }
    }

    fn as_metric_str(&self) -> (r: &str) {
        self.repr.as_str()
    }
}

/// A histogram: one sample of a named distribution.
#[derive(Debug, Clone, PartialEq, Eq)]
pub struct Histogram {
    repr: String,
}

impl Metric for Histogram {
    closed spec fn text(&self) -> Seq<char> {
        self.repr@
    }

    fn from_metric_string(s: String) -> (r: Self) {
        Histogram { repr: s }
    }

    fn as_metric_str(&self) -> (r: &str) {
        self.repr.as_str()
    }
}

/// A set: one member observed in a named collection of unique values.
#[derive(Debug, Clone, PartialEq, Eq)]
pub struct SetMetric {
    repr: String,
}

impl Metric for SetMetric {
    closed spec fn text(&self) -> Seq<char> {
        self.repr@
    }

    fn from_metric_string(s: String) -> (r: Self) {
        SetMetric { repr: s }
    }

    fn as_metric_str(&self) -> (r: &str) {
        self.repr.as_str()
    }
}

} // verus!
