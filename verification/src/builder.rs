//! The fluent builder: tags first, one terminal send at the end.
//!
//! A builder wraps either a ready formatter or an error captured when the
//! metric was begun. Deferring the error into the builder lets callers
//! chain `.with_tag(..).with_tag(..).send()` without handling a result in
//! the middle of the chain: on the error path the tag calls are inert —
//! they neither panic nor disturb the captured error — and the terminal
//! call reports exactly the error that was captured first.

use vstd::prelude::*;

verus! {

use vstd::pervasive::arbitrary;
use vstd::utf8::is_ascii_chars;
use crate::client::StatsdClient;
use crate::format::MetricFormatter;
use crate::format::spec_base_size_hint;
use crate::format::spec_tag_size_hint;
use crate::sinks::MetricSink;
use crate::types::Metric;
use crate::types::MetricError;
use crate::types::MetricResult;

/// The two states a builder can be in: formatting a metric, or carrying
/// an error to the terminal call. A discriminated union, so the illegal
/// state of holding both is unrepresentable.
enum BuilderRepr<'m, T: Metric> {
    /// A metric being formatted.
    Ready(MetricFormatter<'m, T>),
    /// An error captured before formatting, waiting to be reported.
    Failed(MetricError),
}

/// Adds tags to an in-progress metric and sends it.
///
/// Builders come from the metric methods on [`StatsdClient`]. Each tag
/// call appends to the tag sequence in call order; the terminal
/// [`MetricBuilder::try_send`] or [`MetricBuilder::send`] renders the
/// metric and hands it to the client's sink, consuming the builder.
pub struct MetricBuilder<'m, T: Metric> {
    repr: BuilderRepr<'m, T>,
}

impl<'m, T: Metric> MetricBuilder<'m, T> {
    /// Whether this builder carries a captured error instead of a metric.
    pub closed spec fn is_error(&self) -> bool {
        self.repr matches BuilderRepr::Failed(_)
    }

    /// The captured error (meaningful only when [`Self::is_error`]).
    pub closed spec fn error(&self) -> MetricError {
        match self.repr {
            BuilderRepr::Failed(e) => e,
            BuilderRepr::Ready(_) => arbitrary(),
        }
    }

    /// The formatter being filled (meaningful only when not
    /// [`Self::is_error`]).
    pub closed spec fn formatter(&self) -> MetricFormatter<'m, T> {
        match self.repr {
            BuilderRepr::Ready(f) => f,
            BuilderRepr::Failed(_) => arbitrary(),
        }
    }

    /// The builder's invariant: a ready formatter is well-formed.
    pub closed spec fn wf(&self) -> bool {
        self.repr matches BuilderRepr::Ready(f) ==> f.wf()
    }

    /// A builder around a ready formatter.
    pub fn new(formatter: MetricFormatter<'m, T>) -> (r: Self)
        requires
            formatter.wf(),
        ensures
            r.wf(),
            !r.is_error(),
            r.formatter() == formatter,
    {
        MetricBuilder { repr: BuilderRepr::Ready(formatter) }
    }

    /// A builder that carries `err` to the terminal call.
    pub fn from_error(err: MetricError) -> (r: Self)
        ensures
            r.wf(),
            r.is_error(),
            r.error() == err,
    {
        MetricBuilder { repr: BuilderRepr::Failed(err) }
    }

    /// Adds a key:value tag, after every tag added before it. On a builder
    /// carrying an error this does nothing at all: the builder comes back
    /// unchanged, error intact. A non-ASCII key or value turns a ready
    /// builder into an error-carrying one.
    pub fn with_tag(self, key: &'m str, value: &'m str) -> (r: Self)
        requires
            self.wf(),
        ensures
            r.wf(),
            self.is_error() ==> r == self,
            !self.is_error() && is_ascii_chars(key@) && is_ascii_chars(value@) ==> {
                &&& !r.is_error()
                &&& r.formatter().tags_view() == self.formatter().tags_view().push(
                    (Some(key@), value@),
                )
                &&& r.formatter().prefix_chars() == self.formatter().prefix_chars()
                &&& r.formatter().key_chars() == self.formatter().key_chars()
                &&& r.formatter().value_chars() == self.formatter().value_chars()
                &&& r.formatter().type_chars() == self.formatter().type_chars()
            },
            !self.is_error() && !(is_ascii_chars(key@) && is_ascii_chars(value@)) ==> r.is_error()
                && r.error() matches MetricError::InvalidInput(_),
    {
        match self.repr {
            BuilderRepr::Failed(e) => MetricBuilder { repr: BuilderRepr::Failed(e) },
            BuilderRepr::Ready(mut f) => {
                if key.is_ascii() && value.is_ascii() {
                    f.with_tag(key, value);
                    MetricBuilder { repr: BuilderRepr::Ready(f) }
                } else {
                    MetricBuilder { repr: BuilderRepr::Failed(non_ascii_tag_error()) }
                }
            },
        }
    }

    /// Adds a bare value tag, after every tag added before it. Inert on a
    /// builder carrying an error; a non-ASCII value turns a ready builder
    /// into an error-carrying one.
    pub fn with_tag_value(self, value: &'m str) -> (r: Self)
        requires
            self.wf(),
        ensures
            r.wf(),
            self.is_error() ==> r == self,
            !self.is_error() && is_ascii_chars(value@) ==> {
                &&& !r.is_error()
                &&& r.formatter().tags_view() == self.formatter().tags_view().push(
                    (None::<Seq<char>>, value@),
                )
                &&& r.formatter().prefix_chars() == self.formatter().prefix_chars()
                &&& r.formatter().key_chars() == self.formatter().key_chars()
                &&& r.formatter().value_chars() == self.formatter().value_chars()
                &&& r.formatter().type_chars() == self.formatter().type_chars()
            },
            !self.is_error() && !is_ascii_chars(value@) ==> r.is_error() && r.error() matches
                MetricError::InvalidInput(_),
    {
        match self.repr {
            BuilderRepr::Failed(e) => MetricBuilder { repr: BuilderRepr::Failed(e) },
            BuilderRepr::Ready(mut f) => {
                if value.is_ascii() {
                    f.with_tag_value(value);
                    MetricBuilder { repr: BuilderRepr::Ready(f) }
                } else {
                    MetricBuilder { repr: BuilderRepr::Failed(non_ascii_tag_error()) }
                }
            },
        }
    }

    /// Sends the metric through the client that made this builder and
    /// returns the sent metric, or the error — the one captured when the
    /// metric was begun, or the sink's refusal. Consumes the builder:
    /// one metric, one send.
    pub fn try_send<S: MetricSink>(self, client: &mut StatsdClient<S>) -> (r: MetricResult<T>)
        requires
            self.wf(),
            old(client).wf(),
            !self.is_error() ==> spec_base_size_hint(
                self.formatter().prefix_chars(),
                self.formatter().key_chars(),
            ) + spec_tag_size_hint(self.formatter().tags_view()) <= usize::MAX,
        ensures
            final(client).wf(),
            final(client).prefix_chars() == old(client).prefix_chars(),
            self.is_error() ==> r == Err::<T, MetricError>(self.error()) && *final(client) == *old(client),
            !self.is_error() ==> {
                &&& (r matches Ok(m) ==> m.text() == self.formatter().wire_line() && final(client).sink().accepted() == old(client).sink().accepted()
                    + self.formatter().wire_line() + seq!['\n'])
                &&& (r is Err ==> final(client).sink().accepted() == old(client).sink().accepted()
                    && r->Err_0 matches MetricError::Sink(_))
                &&& (old(client).sink().never_fails() ==> r is Ok)
            },
    {
        match self.repr {
            BuilderRepr::Failed(e) => Err(e),
            BuilderRepr::Ready(f) => {
                let metric: T = f.build();
                match client.send_metric(&metric) {
                    Ok(()) => Ok(metric),
                    Err(e) => Err(e),
                }
            },
        }
    }

    /// Sends like [`Self::try_send`] but discards the outcome, success or
    /// error: the quiet path for callers that treat metrics as best-effort.
    /// Consumes the builder.
    pub fn send<S: MetricSink>(self, client: &mut StatsdClient<S>)
        requires
            self.wf(),
            old(client).wf(),
            !self.is_error() ==> spec_base_size_hint(
                self.formatter().prefix_chars(),
                self.formatter().key_chars(),
            ) + spec_tag_size_hint(self.formatter().tags_view()) <= usize::MAX,
        ensures
            final(client).wf(),
            final(client).prefix_chars() == old(client).prefix_chars(),
            self.is_error() ==> *final(client) == *old(client),
            !self.is_error() ==> {
                &&& final(client).sink().accepted() == old(client).sink().accepted() || final(client).sink().accepted() == old(client).sink().accepted()
                    + self.formatter().wire_line() + seq!['\n']
                &&& (old(client).sink().never_fails() ==> final(client).sink().accepted() == old(client).sink().accepted() + self.formatter().wire_line() + seq!['\n'])
            },
    {
        let _ = self.try_send(client);
    }
}

/// The validation error captured when a tag's key or value is not ASCII.
fn non_ascii_tag_error() -> (r: MetricError)
    ensures
        r matches MetricError::InvalidInput(_),
{
    MetricError::InvalidInput("tag keys and values must be ASCII text".to_owned())
}

} // verus!
