//! The client facade: a prefix, a sink, and the fluent entry points.
//!
//! A client owns one sink and a name prefix. Each metric method renders
//! nothing itself: it returns a [`MetricBuilder`] primed with a formatter,
//! and the builder sends through the client when the chain ends. A key that
//! is not ASCII (the wire format is ASCII text) yields a builder already
//! carrying the validation error; tag calls on it are inert and the error
//! comes back from the terminal send.

use vstd::prelude::*;

verus! {

use vstd::string::StrSliceExecFns;
use vstd::string::StringExecFns;
use vstd::string::is_ascii;
use vstd::utf8::is_ascii_chars;
use crate::builder::MetricBuilder;
use crate::format::MetricFormatter;
use crate::sinks::MetricSink;
use crate::types::Counter;
use crate::types::Gauge;
use crate::types::Histogram;
use crate::types::Meter;
use crate::types::Metric;
use crate::types::MetricError;
use crate::types::MetricResult;
use crate::types::SetMetric;
use crate::types::SinkError;
use crate::types::Timer;

/// The given prefix stripped of any trailing dots.
pub open spec fn spec_strip_dots(p: Seq<char>) -> Seq<char>
    decreases p.len(),
{
    if p.len() > 0 && p.last() == '.' {
        spec_strip_dots(p.drop_last())
    } else {
        p
    }
}

/// The prefix as the client stores it: empty stays empty; anything else
/// loses its trailing dots and gains exactly one.
pub open spec fn spec_normalized_prefix(p: Seq<char>) -> Seq<char> {
    if p.len() == 0 {
        Seq::empty()
    } else {
        spec_strip_dots(p) + seq!['.']
    }
}

/// A stripped ASCII prefix is still ASCII.
proof fn lemma_strip_dots_ascii(p: Seq<char>)
    requires
        is_ascii_chars(p),
    ensures
        is_ascii_chars(spec_strip_dots(p)),
    decreases p.len(),
{
    if p.len() > 0 && p.last() == '.' {
        lemma_strip_dots_ascii(p.drop_last());
    }
}

/// Renders the stored form of a prefix: empty for empty, otherwise the
/// prefix with its trailing dots replaced by exactly one.
fn normalize_prefix(prefix: &str) -> (r: String)
    requires
        is_ascii(prefix),
    ensures
        r@ == spec_normalized_prefix(prefix@),
        is_ascii_chars(r@),
{
    if prefix.is_empty() {
        return String::new();
    }
    let len = crate::format::ascii_len(prefix);
    let mut end = len;
    proof {
        assert(prefix@.take(len as int) =~= prefix@);
    }
    while end > 0 && prefix.get_ascii(end - 1) == 46u8
        invariant
            is_ascii(prefix),
            len == prefix@.len(),
            0 <= end <= len,
            spec_strip_dots(prefix@) == spec_strip_dots(prefix@.take(end as int)),
        decreases end,
    {
        proof {
            let taken = prefix@.take(end as int);
            assert(taken.last() == prefix@[end - 1]);
            assert(prefix@[end - 1] <= '\u{7f}');
            assert(prefix@[end - 1] as u8 == 46u8);
            assert(prefix@[end - 1] == '.');
            assert(taken.drop_last() =~= prefix@.take(end - 1));
        }
        end = end - 1;
    }
    proof {
        let taken = prefix@.take(end as int);
        if end > 0 {
            assert(taken.last() == prefix@[end - 1]);
            assert(prefix@[end - 1] as u8 != 46u8);
            assert(prefix@[end - 1] != '.');
        }
        assert(spec_strip_dots(taken) == taken);
    }
    let mut out = prefix.substring_ascii(0, end).to_owned();
    proof {
        reveal_strlit(".");
        assert("."@ =~= seq!['.']);
    }
    out.append(".");
    proof {
        assert(out@ =~= spec_normalized_prefix(prefix@));
        lemma_strip_dots_ascii(prefix@);
        assert(is_ascii_chars(out@));
    }
    out
}

/// A Statsd client: a name prefix and the sink that delivers rendered
/// metrics.
pub struct StatsdClient<S: MetricSink> {
    prefix: String,
    sink: S,
}

impl<S: MetricSink> StatsdClient<S> {
    /// The stored (normalized) prefix.
    pub closed spec fn prefix_chars(&self) -> Seq<char> {
        self.prefix@
    }

    /// The sink metrics are delivered through.
    pub closed spec fn sink(&self) -> S {
        self.sink
    }

    /// The client's invariant: an ASCII prefix over a well-formed sink.
    pub closed spec fn wf(&self) -> bool {
        &&& is_ascii_chars(self.prefix@)
        &&& self.sink.wf()
    }

    /// A client writing metrics under `prefix` through `sink`. A nonempty
    /// prefix is separated from each key by exactly one dot, whether or
    /// not it was given with one.
    pub fn from_sink(prefix: &str, sink: S) -> (r: Self)
        requires
            is_ascii(prefix),
            sink.wf(),
        ensures
            r.wf(),
            r.prefix_chars() == spec_normalized_prefix(prefix@),
            r.sink() == sink,
    {
        StatsdClient { prefix: normalize_prefix(prefix), sink }
    }

    /// The stored prefix, as it will be written before each key.
    pub fn prefix(&self) -> (r: &str)
        ensures
            r@ == self.prefix_chars(),
    {
        self.prefix.as_str()
    }

    /// A look at the sink.
    pub fn sink_ref(&self) -> (r: &S)
        ensures
            *r == self.sink(),
    {
        &self.sink
    }

    /// Takes the client apart, handing back its sink (so that anything
    /// the sink still holds can be flushed or inspected).
    pub fn into_sink(self) -> (r: S)
        ensures
            r == self.sink(),
    {
        self.sink
    }

    /// Hands one finished metric to the sink, mapping a refusal into a
    /// metric error.
    pub fn send_metric<T: Metric>(&mut self, metric: &T) -> (r: MetricResult<()>)
        requires
            old(self).wf(),
            metric.text().len() > 0,
            is_ascii_chars(metric.text()),
        ensures
            final(self).wf(),
            final(self).prefix_chars() == old(self).prefix_chars(),
            r is Ok ==> final(self).sink().accepted() == old(self).sink().accepted()
                + metric.text() + seq!['\n'],
            r matches Err(e) ==> final(self).sink().accepted() == old(self).sink().accepted() && (
            e matches MetricError::Sink(_)),
            old(self).sink().never_fails() ==> r is Ok && final(self).sink().never_fails(),
    {
        let line = metric.as_metric_str();
        match self.sink.emit(line) {
            Ok(()) => Ok(()),
            Err(e) => Err(MetricError::Sink(e)),
        }
    }

    /// Flushes anything the sink holds back.
    pub fn flush(&mut self) -> (r: Result<(), SinkError>)
        requires
            old(self).wf(),
        ensures
            final(self).wf(),
            final(self).prefix_chars() == old(self).prefix_chars(),
            r is Ok ==> final(self).sink().accepted() == old(self).sink().accepted(),
            old(self).sink().never_fails() ==> r is Ok && final(self).sink().never_fails(),
    {
        self.sink.flush()
    }

    /// What every metric method establishes for the builder it returns:
    /// with an ASCII key, a ready formatter carrying the client's prefix,
    /// the key, the value's wire characters, and the type token; with a
    /// non-ASCII key, a builder already carrying the validation error.
    pub open spec fn builder_ensures<'m, T: Metric>(
        &self,
        b: MetricBuilder<'m, T>,
        key: Seq<char>,
        value: Seq<char>,
        ty: Seq<char>,
    ) -> bool {
        &&& b.wf()
        &&& is_ascii_chars(key) ==> !b.is_error() && b.formatter().ctor_ensures(
            self.prefix_chars(),
            key,
            value,
            ty,
        )
        &&& !is_ascii_chars(key) ==> b.is_error() && b.error() matches MetricError::InvalidInput(_)
    }

    /// A counter of `count` under `key`: wire type `c`.
    pub fn count_with_tags<'m>(&self, key: &'m str, count: i64) -> (r: MetricBuilder<'m, Counter>)
        requires
            self.wf(),
        ensures
            self.builder_ensures(
                r,
                key@,
                crate::digits::spec_i64_chars(count as int),
                seq!['c'],
            ),
    {
        if key.is_ascii() {
            MetricBuilder::new(MetricFormatter::counter(self.prefix.as_str(), key, count))
        } else {
            MetricBuilder::from_error(non_ascii_key_error())
        }
    }

    /// A timer reading of `time` milliseconds under `key`: wire type `ms`.
    pub fn time_with_tags<'m>(&self, key: &'m str, time: u64) -> (r: MetricBuilder<'m, Timer>)
        requires
            self.wf(),
        ensures
            self.builder_ensures(
                r,
                key@,
                crate::digits::spec_u64_chars(time as nat),
                seq!['m', 's'],
            ),
    {
        if key.is_ascii() {
            MetricBuilder::new(MetricFormatter::timer(self.prefix.as_str(), key, time))
        } else {
            MetricBuilder::from_error(non_ascii_key_error())
        }
    }

    /// A gauge reading of `value` under `key`: wire type `g`.
    pub fn gauge_with_tags<'m>(&self, key: &'m str, value: u64) -> (r: MetricBuilder<'m, Gauge>)
        requires
            self.wf(),
        ensures
            self.builder_ensures(
                r,
                key@,
                crate::digits::spec_u64_chars(value as nat),
                seq!['g'],
            ),
    {
        if key.is_ascii() {
            MetricBuilder::new(MetricFormatter::gauge(self.prefix.as_str(), key, value))
        } else {
            MetricBuilder::from_error(non_ascii_key_error())
        }
    }

    /// A gauge whose value text the caller rendered itself (the path for
    /// floating-point readings, rendered outside the library).
    pub fn gauge_rendered_with_tags<'m>(&self, key: &'m str, value: String) -> (r: MetricBuilder<
        'm,
        Gauge,
    >)
        requires
            self.wf(),
        ensures
            is_ascii_chars(key@) && is_ascii_chars(value@) ==> !r.is_error() && r.wf()
                && r.formatter().ctor_ensures(self.prefix_chars(), key@, value@, seq!['g']),
            !(is_ascii_chars(key@) && is_ascii_chars(value@)) ==> r.is_error() && r.wf()
                && r.error() matches MetricError::InvalidInput(_),
    {
        if key.is_ascii() && value.is_ascii() {
            MetricBuilder::new(
                MetricFormatter::gauge_rendered(self.prefix.as_str(), key, value),
            )
        } else {
            MetricBuilder::from_error(non_ascii_key_error())
        }
    }

    /// One occurrence (or `value` of them) of the event `key`: wire type
    /// `m`.
    pub fn meter_with_tags<'m>(&self, key: &'m str, value: u64) -> (r: MetricBuilder<'m, Meter>)
        requires
            self.wf(),
        ensures
            self.builder_ensures(
                r,
                key@,
                crate::digits::spec_u64_chars(value as nat),
                seq!['m'],
            ),
    {
        if key.is_ascii() {
            MetricBuilder::new(MetricFormatter::meter(self.prefix.as_str(), key, value))
        } else {
            MetricBuilder::from_error(non_ascii_key_error())
        }
    }

    /// One sample of `value` in the distribution `key`: wire type `h`.
    pub fn histogram_with_tags<'m>(&self, key: &'m str, value: u64) -> (r: MetricBuilder<
        'm,
        Histogram,
    >)
        requires
            self.wf(),
        ensures
            self.builder_ensures(
                r,
                key@,
                crate::digits::spec_u64_chars(value as nat),
                seq!['h'],
            ),
    {
        if key.is_ascii() {
            MetricBuilder::new(MetricFormatter::histogram(self.prefix.as_str(), key, value))
        } else {
            MetricBuilder::from_error(non_ascii_key_error())
        }
    }

    /// One member `value` observed in the set `key`: wire type `s`.
    pub fn set_with_tags<'m>(&self, key: &'m str, value: i64) -> (r: MetricBuilder<
        'm,
        SetMetric,
    >)
        requires
            self.wf(),
        ensures
            self.builder_ensures(
                r,
                key@,
                crate::digits::spec_i64_chars(value as int),
                seq!['s'],
            ),
    {
        if key.is_ascii() {
            MetricBuilder::new(MetricFormatter::set(self.prefix.as_str(), key, value))
        } else {
            MetricBuilder::from_error(non_ascii_key_error())
        }
    }
}

/// The validation error a metric method defers into its builder when a
/// key (or caller-rendered value) is not ASCII.
fn non_ascii_key_error() -> (r: MetricError)
    ensures
        r matches MetricError::InvalidInput(_),
{
    MetricError::InvalidInput("metric keys, values, and tags must be ASCII text".to_owned())
}

} // verus!
