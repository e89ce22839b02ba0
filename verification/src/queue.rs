//! The queueing sink: decoupling metric producers from transport latency.
//!
//! [`QueuingMetricSink`] wraps an inner sink. Accepting a payload only
//! appends it to a pending queue and returns at once; worker steps later
//! pull payloads off the queue, in arrival order, and forward each to the
//! inner sink. Shutting the sink down first refuses new payloads, then
//! drains everything still queued, so that a clean shutdown loses nothing.
//!
//! The backpressure policy is explicit: a bounded queue that is full fails
//! fast with [`SinkError::QueueFull`] rather than blocking or silently
//! dropping, and a closed queue fails with [`SinkError::Closed`]. A worker
//! failure (the inner sink refusing a payload) is not retried: the error is
//! reported to the caller driving the worker, who has taken the role of the
//! error-observation hook — the producer that enqueued the payload has long
//! since returned and can never see it.

use vstd::prelude::*;

verus! {

use vstd::utf8::is_ascii_chars;
use crate::sinks::MetricSink;
use crate::sinks::spec_terminated;
use crate::sinks::lemma_terminated_push;
use crate::types::SinkError;

/// Well-formedness of one queued payload: nonempty ASCII text.
pub open spec fn spec_payload_wf(p: Seq<char>) -> bool {
    &&& is_ascii_chars(p)
    &&& p.len() > 0
}

/// A sink that queues payloads for deferred delivery to an inner sink.
pub struct QueuingMetricSink<S: MetricSink> {
    inner: S,
    queue: Vec<String>,
    bound: Option<usize>,
    closed: bool,
}

impl<S: MetricSink> QueuingMetricSink<S> {
    /// The wrapped sink.
    pub closed spec fn inner_sink(&self) -> S {
        self.inner
    }

    /// The payloads accepted but not yet delivered, in arrival order.
    pub closed spec fn pending(&self) -> Seq<Seq<char>> {
        Seq::new(self.queue@.len(), |i: int| self.queue@[i]@)
    }

    /// The queue's capacity bound, if it has one.
    pub closed spec fn bound_spec(&self) -> Option<usize> {
        self.bound
    }

    /// Whether shutdown has been initiated.
    pub closed spec fn is_closed(&self) -> bool {
        self.closed
    }

    /// A fresh queueing sink over `inner`. With `bound` set, at most that
    /// many payloads may be pending at once; without it, the queue is
    /// unbounded.
    pub fn new(inner: S, bound: Option<usize>) -> (r: Self)
        requires
            inner.wf(),
        ensures
            r.wf(),
            r.inner_sink() == inner,
            r.pending() == Seq::<Seq<char>>::empty(),
            r.bound_spec() == bound,
            !r.is_closed(),
            r.accepted() == inner.accepted(),
    {
        let r = QueuingMetricSink { inner, queue: Vec::new(), bound, closed: false };
        proof {
            assert(r.pending() =~= Seq::<Seq<char>>::empty());
            assert(r.accepted() =~= r.inner_sink().accepted());
        }
        r
    }

    /// A look at the wrapped sink.
    pub fn inner_ref(&self) -> (r: &S)
        ensures
            *r == self.inner_sink(),
    {
        &self.inner
    }

    /// Takes the sink apart, handing back the wrapped sink. Anything still
    /// queued is discarded, so close or flush first.
    pub fn into_inner(self) -> (r: S)
        ensures
            r == self.inner_sink(),
    {
        self.inner
    }

    /// How many payloads are pending.
    pub fn pending_count(&self) -> (r: usize)
        ensures
            r == self.pending().len(),
    {
        self.queue.len()
    }

    /// Delivers the oldest pending payload to the inner sink, if one is
    /// there. Returns whether a payload was processed; a payload the inner
    /// sink refuses is not retried — it is consumed and its error returned
    /// to the caller driving the worker.
    pub fn worker_step(&mut self) -> (r: Result<bool, SinkError>)
        requires
            old(self).wf(),
        ensures
            final(self).wf(),
            final(self).is_closed() == old(self).is_closed(),
            final(self).bound_spec() == old(self).bound_spec(),
            old(self).pending().len() == 0 ==> r == Ok::<bool, SinkError>(false) && *final(self)
                == *old(self),
            old(self).pending().len() > 0 ==> final(self).pending() == old(self).pending().drop_first() && (r == Ok::<bool, SinkError>(true) ==> final(self).inner_sink().accepted() == old(self).inner_sink().accepted() + old(self).pending()[0] + seq!['\n']) && (r is Err ==> final(self).inner_sink().accepted()
                == old(self).inner_sink().accepted()) && r != Ok::<bool, SinkError>(false),
            old(self).inner_sink().never_fails() ==> r is Ok && final(self).inner_sink().never_fails(),
    {
        if self.queue.len() == 0 {
            return Ok(false);
        }
        let payload = self.queue.remove(0);
        proof {
            assert(payload@ == old(self).pending()[0]);
            assert(spec_payload_wf(old(self).queue@[0]@));
            assert(self.pending() =~= old(self).pending().drop_first());
        }
        match self.inner.emit(payload.as_str()) {
            Ok(()) => Ok(true),
            Err(e) => Err(e),
        }
    }

    /// Delivers every pending payload to the inner sink, oldest first.
    /// Returns the first error the inner sink reported, if any; payloads
    /// after a refused one are still driven out.
    fn drain(&mut self) -> (r: Result<(), SinkError>)
        requires
            old(self).wf(),
        ensures
            final(self).wf(),
            final(self).pending().len() == 0,
            final(self).is_closed() == old(self).is_closed(),
            final(self).bound_spec() == old(self).bound_spec(),
            r is Ok ==> final(self).inner_sink().accepted() == old(self).inner_sink().accepted()
                + spec_terminated(old(self).pending()),
            old(self).inner_sink().never_fails() ==> r is Ok && final(self).inner_sink().never_fails(),
    {
        let ghost all = old(self).pending();
        let ghost mut done: int = 0;
        let mut first_err: Option<SinkError> = None;
        proof {
            assert(all.take(0) =~= Seq::<Seq<char>>::empty());
        }
        while self.queue.len() > 0
            invariant
                self.wf(),
                self.is_closed() == old(self).is_closed(),
                self.bound_spec() == old(self).bound_spec(),
                0 <= done <= all.len(),
                self.pending() =~= all.subrange(done, all.len() as int),
                first_err is None ==> self.inner_sink().accepted() == old(self).inner_sink().accepted() + spec_terminated(all.take(done)),
                old(self).inner_sink().never_fails() ==> first_err is None
                    && self.inner_sink().never_fails(),
            decreases self.pending().len(),
        {
            let ghost before = self.pending();
            let ghost before_accepted = self.inner_sink().accepted();
            let step = self.worker_step();
            proof {
                assert(before[0] == all[done]);
                assert(self.pending() =~= all.subrange(done + 1, all.len() as int));
                assert(all.take(done + 1) =~= all.take(done).push(all[done]));
                lemma_terminated_push(all.take(done), all[done]);
            }
            match step {
                Ok(b) => {
                    proof {
                        assert(before.len() > 0);
                        assert(step == Ok::<bool, SinkError>(b));
                        assert(b);
                        assert(step == Ok::<bool, SinkError>(true));
                        assert(self.inner_sink().accepted() == before_accepted + all[done]
                            + seq!['\n']);
                        if first_err is None {
                            assert(self.inner_sink().accepted() =~= old(self).inner_sink().accepted() + spec_terminated(all.take(done + 1)));
                        }
                    }
                },
                Err(e) => {
                    if first_err.is_none() {
                        first_err = Some(e);
                    }
                },
            }
            proof {
                done = done + 1;
            }
        }
        proof {
            assert(all.take(all.len() as int) =~= all);
            assert(self.pending().len() == 0);
        }
        match first_err {
            None => Ok(()),
            Some(e) => Err(e),
        }
    }

    /// Initiates shutdown: no payload is accepted afterwards, and every
    /// payload already queued is delivered to the inner sink, in order,
    /// before the call returns — a clean shutdown never abandons queued
    /// metrics. Returns the first delivery error, if any.
    pub fn close(&mut self) -> (r: Result<(), SinkError>)
        requires
            old(self).wf(),
        ensures
            final(self).wf(),
            final(self).is_closed(),
            final(self).pending().len() == 0,
            r is Ok ==> final(self).inner_sink().accepted() == old(self).inner_sink().accepted()
                + spec_terminated(old(self).pending()),
            old(self).inner_sink().never_fails() ==> r is Ok && final(self).inner_sink().never_fails(),
    {
        self.closed = true;
        proof {
            assert(self.pending() =~= old(self).pending());
        }
        self.drain()
    }
}

impl<S: MetricSink> MetricSink for QueuingMetricSink<S> {
    /// Accepted bytes: everything the inner sink has accepted, then the
    /// payloads still queued.
    open spec fn accepted(&self) -> Seq<char> {
        self.inner_sink().accepted() + spec_terminated(self.pending())
    }

    closed spec fn wf(&self) -> bool {
        &&& self.inner.wf()
        &&& forall|i: int| 0 <= i < self.queue@.len() ==> spec_payload_wf(#[trigger] self.queue@[i]@)
        &&& self.bound matches Some(b) ==> self.queue@.len() <= b
    }

    /// An unbounded, still-open queue over an infallible sink accepts
    /// everything; a bound or a shutdown can make it refuse.
    open spec fn never_fails(&self) -> bool {
        &&& self.inner_sink().never_fails()
        &&& !self.is_closed()
        &&& self.bound_spec() is None
    }

    /// Accepts a payload by queueing it: the caller returns at once, and
    /// delivery happens on a later worker step. Fails with `Closed` after
    /// shutdown and with `QueueFull` when a bounded queue is at capacity —
    /// never by blocking, never by silently dropping.
    fn emit(&mut self, metric: &str) -> (r: Result<(), SinkError>)
        ensures
            old(self).is_closed() ==> r == Err::<(), SinkError>(SinkError::Closed) && *final(self)
                == *old(self),
            !old(self).is_closed() && (old(self).bound_spec() matches Some(b) && old(self).pending().len() >= b) ==> r == Err::<(), SinkError>(SinkError::QueueFull) && *final(self) == *old(self),
            !old(self).is_closed() && (old(self).bound_spec() is None || (old(self).bound_spec() matches Some(b) && old(self).pending().len() < b)) ==> r is Ok && final(self).pending() == old(self).pending().push(metric@) && final(self).inner_sink() == old(self).inner_sink(),
            final(self).is_closed() == old(self).is_closed(),
            final(self).bound_spec() == old(self).bound_spec(),
    {
        if self.closed {
            return Err(SinkError::Closed);
        }
        let full = match self.bound {
            Some(b) => self.queue.len() >= b,
            None => false,
        };
        if full {
            return Err(SinkError::QueueFull);
        }
        self.queue.push(metric.to_owned());
        proof {
            assert(self.pending() =~= old(self).pending().push(metric@));
            lemma_terminated_push(old(self).pending(), metric@);
            assert(self.accepted() =~= old(self).accepted() + metric@ + seq!['\n']);
            assert forall|i: int| 0 <= i < self.queue@.len() implies spec_payload_wf(
                #[trigger] self.queue@[i]@,
            ) by {
                if i < old(self).queue@.len() {
                    assert(spec_payload_wf(old(self).queue@[i]@));
                } else {
                    assert(self.queue@[i]@ == metric@);
                }
            }
        }
        Ok(())
    }

    /// Delivers every pending payload to the inner sink, oldest first,
    /// without closing the queue.
    fn flush(&mut self) -> (r: Result<(), SinkError>)
        ensures
            final(self).pending().len() == 0,
            final(self).is_closed() == old(self).is_closed(),
            final(self).bound_spec() == old(self).bound_spec(),
            r is Ok ==> final(self).inner_sink().accepted() == old(self).inner_sink().accepted()
                + spec_terminated(old(self).pending()),
    {
        let r = self.drain();
        proof {
            if r is Ok {
                assert(spec_terminated(self.pending()) =~= Seq::<char>::empty());
                assert(self.accepted() =~= old(self).accepted());
            }
        }
        r
    }
}

} // verus!
