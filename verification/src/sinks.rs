//! The sink capability and its transports: discard, in-memory capture, and
//! buffering.
//!
//! A sink exposes one operation: accept a fully rendered metric payload and
//! report success or failure. Sinks never format or validate metrics; they
//! only move bytes. Each sink's behaviour is described by the stream of
//! payload bytes it has accepted, every payload newline-terminated, in
//! order ([`MetricSink::accepted`]).
//!
//! [`BufferedMetricSink`] composes: it accumulates payloads into one chunk
//! of at most its configured capacity (kept at or below the network path's
//! MTU, so one flush is one network frame) and hands the whole chunk to its
//! inner sink as a single payload. A payload too large for the buffer is
//! written through on its own, never truncated and never split.

use vstd::prelude::*;

verus! {

use vstd::string::StringExecFns;
use vstd::string::is_ascii;
use vstd::utf8::is_ascii_chars;
use crate::format::ascii_len;
use crate::types::SinkError;

/// The concatenation of a sequence of chunks.
pub open spec fn spec_concat(chunks: Seq<Seq<char>>) -> Seq<char>
    decreases chunks.len(),
{
    if chunks.len() == 0 {
        Seq::empty()
    } else {
        spec_concat(chunks.drop_last()) + chunks.last()
    }
}

/// The payloads of a buffer, each terminated by a newline, concatenated in
/// order.
pub open spec fn spec_terminated(lines: Seq<Seq<char>>) -> Seq<char>
    decreases lines.len(),
{
    if lines.len() == 0 {
        Seq::empty()
    } else {
        spec_terminated(lines.drop_last()) + lines.last() + seq!['\n']
    }
}

/// The payloads of a buffer joined by single newlines, with no trailing
/// newline: the exact content of a buffering sink's byte buffer.
pub open spec fn spec_join_lines(lines: Seq<Seq<char>>) -> Seq<char>
    decreases lines.len(),
{
    if lines.len() == 0 {
        Seq::empty()
    } else if lines.len() == 1 {
        lines[0]
    } else {
        spec_join_lines(lines.drop_last()) + seq!['\n'] + lines.last()
    }
}

/// Appending a chunk extends the concatenation by exactly that chunk.
pub proof fn lemma_concat_push(chunks: Seq<Seq<char>>, c: Seq<char>)
    ensures
        spec_concat(chunks.push(c)) == spec_concat(chunks) + c,
{
    assert(chunks.push(c).drop_last() =~= chunks);
    assert(chunks.push(c).last() == c);
}

/// Appending a payload extends the terminated stream by that payload and
/// its newline.
pub proof fn lemma_terminated_push(lines: Seq<Seq<char>>, l: Seq<char>)
    ensures
        spec_terminated(lines.push(l)) == spec_terminated(lines) + l + seq!['\n'],
{
    assert(lines.push(l).drop_last() =~= lines);
    assert(lines.push(l).last() == l);
}

/// One buffered payload: joined content is the payload itself, and the
/// terminated stream is the payload plus its newline.
pub proof fn lemma_lines_singleton(l: Seq<char>)
    ensures
        spec_join_lines(seq![l]) == l,
        spec_terminated(seq![l]) == l + seq!['\n'],
{
    assert(seq![l][0] == l);
    assert(seq![l].drop_last() =~= Seq::<Seq<char>>::empty());
    assert(seq![l].last() == l);
    assert(spec_terminated(Seq::<Seq<char>>::empty()) == Seq::<char>::empty());
    assert(spec_terminated(seq![l]) =~= l + seq!['\n']);
}

/// Appending a payload to a nonempty buffer extends the joined content by
/// a newline separator and the payload.
pub proof fn lemma_join_lines_push(lines: Seq<Seq<char>>, l: Seq<char>)
    requires
        lines.len() > 0,
    ensures
        spec_join_lines(lines.push(l)) == spec_join_lines(lines) + seq!['\n'] + l,
{
    assert(lines.push(l).drop_last() =~= lines);
    assert(lines.push(l).last() == l);
}

/// A nonempty buffer's terminated stream is its joined content followed by
/// one final newline: flushing the buffer as a single payload delivers
/// exactly the newline-terminated payloads it holds.
pub proof fn lemma_terminated_is_join(lines: Seq<Seq<char>>)
    requires
        lines.len() > 0,
    ensures
        spec_terminated(lines) == spec_join_lines(lines) + seq!['\n'],
    decreases lines.len(),
{
    if lines.len() == 1 {
        lemma_lines_singleton(lines[0]);
        assert(lines =~= seq![lines[0]]);
    } else {
        lemma_terminated_is_join(lines.drop_last());
        assert(spec_terminated(lines) =~= spec_join_lines(lines) + seq!['\n']);
    }
}

/// The joined content of nonempty ASCII payloads is nonempty ASCII text.
pub proof fn lemma_join_lines_ascii(lines: Seq<Seq<char>>)
    requires
        lines.len() > 0,
        forall|i: int|
            0 <= i < lines.len() ==> is_ascii_chars(#[trigger] lines[i]) && lines[i].len() > 0,
    ensures
        is_ascii_chars(spec_join_lines(lines)),
        spec_join_lines(lines).len() >= lines.len(),
    decreases lines.len(),
{
    if lines.len() == 1 {
        assert(is_ascii_chars(lines[0]));
    } else {
        lemma_join_lines_ascii(lines.drop_last());
        assert(is_ascii_chars(lines.last()));
        assert(is_ascii_chars(spec_join_lines(lines)));
    }
}

/// The capability every transport implements: accept one rendered metric
/// payload and deliver it, now or later.
///
/// `accepted()` is the sink's whole observable history: every payload it
/// has taken responsibility for, newline-terminated, in arrival order. A
/// successful `emit` extends that stream by exactly the payload and its
/// newline; a failed one leaves it unchanged — a payload is never silently
/// dropped, truncated, or reordered.
pub trait MetricSink: Sized {
    /// All payload bytes this sink has accepted, each payload
    /// newline-terminated, in order.
    spec fn accepted(&self) -> Seq<char>;

    /// The sink's internal invariant.
    spec fn wf(&self) -> bool;

    /// Whether this sink is one that accepts every payload, now and after
    /// any number of further emits (true of the in-memory sinks; false of
    /// fallible or closable transports).
    spec fn never_fails(&self) -> bool;

    /// Accepts one rendered metric payload.
    fn emit(&mut self, metric: &str) -> (r: Result<(), SinkError>)
        requires
            old(self).wf(),
            metric@.len() > 0,
            is_ascii(metric),
        ensures
            final(self).wf(),
            r is Ok ==> final(self).accepted() == old(self).accepted() + metric@ + seq!['\n'],
            r is Err ==> final(self).accepted() == old(self).accepted(),
            old(self).never_fails() ==> r is Ok && final(self).never_fails(),
    ;

    /// Delivers anything held back (a buffering sink's partial buffer, a
    /// queueing sink's pending payloads) to the transport.
    fn flush(&mut self) -> (r: Result<(), SinkError>)
        requires
            old(self).wf(),
        ensures
            final(self).wf(),
            r is Ok ==> final(self).accepted() == old(self).accepted(),
            old(self).never_fails() ==> r is Ok && final(self).never_fails(),
    ;
}

/// A sink that accepts everything and delivers nothing: metrics can be
/// disabled without branching in caller code.
pub struct NopMetricSink {
    log: Ghost<Seq<char>>,
}

impl NopMetricSink {
    /// A fresh discard sink.
    pub fn new() -> (r: Self)
        ensures
            r.wf(),
            r.accepted() == Seq::<char>::empty(),
            r.never_fails(),
    {
        NopMetricSink { log: Ghost(Seq::empty()) }
    }
}

impl Default for NopMetricSink {
    fn default() -> (r: Self)
        ensures
            r.wf(),
            r.accepted() == Seq::<char>::empty(),
            r.never_fails(),
    {
        NopMetricSink::new()
    }
}

impl MetricSink for NopMetricSink {
    closed spec fn accepted(&self) -> Seq<char> {
        self.log@
    }

    open spec fn wf(&self) -> bool {
        true
    }

    open spec fn never_fails(&self) -> bool {
        true
    }

    fn emit(&mut self, metric: &str) -> (r: Result<(), SinkError>)
        ensures
            r is Ok,
    {
        self.log = Ghost(self.log@ + metric@ + seq!['\n']);
        Ok(())
    }

    fn flush(&mut self) -> (r: Result<(), SinkError>)
        ensures
            r is Ok,
            *final(self) == *old(self),
    {
        Ok(())
    }
}

/// A capture sink: instead of real I/O it retains each payload it is
/// handed (with its trailing newline) as one in-memory chunk, so a test
/// can make byte-exact assertions on what would have been sent.
#[derive(Debug)]
pub struct SpyMetricSink {
    chunks: Vec<String>,
}

impl SpyMetricSink {
    /// The chunks captured so far, in arrival order.
    pub closed spec fn chunks_view(&self) -> Seq<Seq<char>> {
        Seq::new(self.chunks@.len(), |i: int| self.chunks@[i]@)
    }

    /// A fresh capture sink with nothing captured.
    pub fn new() -> (r: Self)
        ensures
            r.wf(),
            r.chunks_view() == Seq::<Seq<char>>::empty(),
            r.accepted() == Seq::<char>::empty(),
            r.never_fails(),
    {
        let r = SpyMetricSink { chunks: Vec::new() };
        proof {
            assert(r.chunks_view() =~= Seq::<Seq<char>>::empty());
        }
        r
    }

    /// How many chunks have been captured.
    pub fn chunk_count(&self) -> (r: usize)
        ensures
            r == self.chunks_view().len(),
    {
        self.chunks.len()
    }

    /// The captured chunk at one position.
    pub fn chunk_at(&self, i: usize) -> (r: &str)
        requires
            i < self.chunks_view().len(),
        ensures
            r@ == self.chunks_view()[i as int],
    {
        self.chunks[i].as_str()
    }
}

impl MetricSink for SpyMetricSink {
    closed spec fn accepted(&self) -> Seq<char> {
        spec_concat(self.chunks_view())
    }

    /// Every captured chunk is nonempty ASCII text ending in a newline:
    /// whole newline-terminated payloads, never a fragment.
    closed spec fn wf(&self) -> bool {
        forall|i: int|
            0 <= i < self.chunks_view().len() ==> {
                &&& (#[trigger] self.chunks_view()[i]).len() > 0
                &&& self.chunks_view()[i].last() == '\n'
                &&& is_ascii_chars(self.chunks_view()[i])
            }
    }

    open spec fn never_fails(&self) -> bool {
        true
    }

    fn emit(&mut self, metric: &str) -> (r: Result<(), SinkError>)
        ensures
            r is Ok,
            final(self).chunks_view() == old(self).chunks_view().push(metric@ + seq!['\n']),
    {
        let mut line = metric.to_owned();
        proof {
            reveal_strlit("\n");
            assert("\n"@ =~= seq!['\n']);
        }
        line.append("\n");
        self.chunks.push(line);
        proof {
            assert(self.chunks_view() =~= old(self).chunks_view().push(metric@ + seq!['\n']));
            lemma_concat_push(old(self).chunks_view(), metric@ + seq!['\n']);
            assert(self.accepted() =~= old(self).accepted() + metric@ + seq!['\n']);
            assert forall|i: int| 0 <= i < self.chunks_view().len() implies {
                &&& (#[trigger] self.chunks_view()[i]).len() > 0
                &&& self.chunks_view()[i].last() == '\n'
                &&& is_ascii_chars(self.chunks_view()[i])
            } by {
                if i < old(self).chunks_view().len() {
                    assert(old(self).chunks_view()[i].len() > 0);
                } else {
                    assert(self.chunks_view()[i] == metric@ + seq!['\n']);
                }
            }
        }
        Ok(())
    }

    fn flush(&mut self) -> (r: Result<(), SinkError>)
        ensures
            r is Ok,
            *final(self) == *old(self),
    {
        Ok(())
    }
}

/// A buffering sink: accumulates payloads, newline-separated, into a byte
/// buffer of at most `capacity` bytes (counting the final newline), and
/// hands the whole buffer to the inner sink as one payload when the next
/// payload would no longer fit, and on [`MetricSink::flush`].
///
/// A payload too large to ever fit the buffer is written through the inner
/// sink on its own, bypassing the buffer: oversized metrics are delayed,
/// never dropped, truncated, or split.
///
/// The buffer is owned by one sink value and reached only through `&mut`,
/// so concurrent producers must serialize access around it (placing it
/// under a queueing sink does so naturally: only the single worker touches
/// it).
pub struct BufferedMetricSink<S: MetricSink> {
    inner: S,
    buffer: String,
    capacity: usize,
    lines: Ghost<Seq<Seq<char>>>,
}

impl<S: MetricSink> BufferedMetricSink<S> {
    /// The wrapped sink.
    pub closed spec fn inner_sink(&self) -> S {
        self.inner
    }

    /// The payloads currently held in the buffer, in arrival order.
    pub closed spec fn buffered_lines(&self) -> Seq<Seq<char>> {
        self.lines@
    }

    /// The buffer's byte content: the held payloads joined by newlines.
    pub closed spec fn buffer_chars(&self) -> Seq<char> {
        self.buffer@
    }

    /// The configured capacity in bytes.
    pub closed spec fn capacity_spec(&self) -> nat {
        self.capacity as nat
    }

    /// A payload fits an empty buffer when it and its final newline stay
    /// within capacity.
    pub open spec fn fits_empty(&self, line: Seq<char>) -> bool {
        line.len() + 1 <= self.capacity_spec()
    }

    /// A payload fits the current nonempty buffer when the buffer, a
    /// separating newline, the payload, and the final newline all stay
    /// within capacity.
    pub open spec fn fits_append(&self, line: Seq<char>) -> bool {
        self.buffer_chars().len() + 1 + line.len() + 1 <= self.capacity_spec()
    }

    /// A look at the wrapped sink.
    pub fn inner_ref(&self) -> (r: &S)
        ensures
            *r == self.inner_sink(),
    {
        &self.inner
    }

    /// Takes the sink apart, handing back the wrapped sink. Anything still
    /// buffered is discarded, so flush first.
    pub fn into_inner(self) -> (r: S)
        ensures
            r == self.inner_sink(),
    {
        self.inner
    }

    /// A fresh buffering sink over `inner` with the given byte capacity.
    pub fn new(inner: S, capacity: usize) -> (r: Self)
        requires
            inner.wf(),
        ensures
            r.wf(),
            r.inner_sink() == inner,
            r.buffered_lines() == Seq::<Seq<char>>::empty(),
            r.capacity_spec() == capacity,
            r.accepted() == inner.accepted(),
    {
        let r = BufferedMetricSink {
            inner,
            buffer: String::new(),
            capacity,
            lines: Ghost(Seq::empty()),
        };
        proof {
            assert(r.accepted() =~= r.inner_sink().accepted());
        }
        r
    }
}

impl<S: MetricSink> MetricSink for BufferedMetricSink<S> {
    /// Accepted bytes: everything the inner sink has accepted, then the
    /// payloads still held in the buffer.
    open spec fn accepted(&self) -> Seq<char> {
        self.inner_sink().accepted() + spec_terminated(self.buffered_lines())
    }

    closed spec fn wf(&self) -> bool {
        &&& self.inner.wf()
        &&& self.buffer@ == spec_join_lines(self.lines@)
        &&& forall|i: int|
            0 <= i < self.lines@.len() ==> is_ascii_chars(#[trigger] self.lines@[i])
                && self.lines@[i].len() > 0
        &&& self.lines@.len() == 0 ==> self.buffer@.len() == 0
        &&& self.lines@.len() > 0 ==> self.buffer@.len() + 1 <= self.capacity as nat
    }

    open spec fn never_fails(&self) -> bool {
        self.inner_sink().never_fails()
    }

    fn emit(&mut self, metric: &str) -> (r: Result<(), SinkError>)
        ensures
            // A payload that fits is buffered, and the inner sink is not
            // touched at all: no transport write happens.
            old(self).buffered_lines().len() == 0 && old(self).fits_empty(metric@) ==> r is Ok
                && final(self).inner_sink() == old(self).inner_sink()
                && final(self).buffered_lines() == seq![metric@],
            old(self).buffered_lines().len() > 0 && old(self).fits_append(metric@) ==> r is Ok
                && final(self).inner_sink() == old(self).inner_sink()
                && final(self).buffered_lines() == old(self).buffered_lines().push(metric@),
            // An oversized payload on an empty buffer is written through
            // the inner sink on its own, bypassing the buffer.
            old(self).buffered_lines().len() == 0 && !old(self).fits_empty(metric@) ==> final(self).buffered_lines() == old(self).buffered_lines() && (r is Ok ==> final(self).inner_sink().accepted() == old(self).inner_sink().accepted() + metric@
                + seq!['\n']) && (r is Err ==> final(self).inner_sink().accepted() == old(self).inner_sink().accepted()),
            // A payload that no longer fits a nonempty buffer first
            // flushes the buffer as one chunk, then is buffered (or, if
            // oversized, written through on its own).
            old(self).buffered_lines().len() > 0 && !old(self).fits_append(metric@) ==> (r is Ok
                ==> final(self).inner_sink().accepted() == old(self).inner_sink().accepted()
                + spec_terminated(old(self).buffered_lines()) + (if metric@.len() + 1 <= old(self).capacity_spec() {
                Seq::<char>::empty()
            } else {
                metric@ + seq!['\n']
            }) && final(self).buffered_lines() == (if metric@.len() + 1 <= old(self).capacity_spec() {
                seq![metric@]
            } else {
                Seq::<Seq<char>>::empty()
            })) && (r is Err ==> (final(self).buffered_lines() == old(self).buffered_lines()
                && final(self).inner_sink().accepted() == old(self).inner_sink().accepted()) || (
            final(self).buffered_lines() == Seq::<Seq<char>>::empty() && final(self).inner_sink().accepted() == old(self).inner_sink().accepted() + spec_terminated(
                old(self).buffered_lines(),
            ))),
            final(self).capacity_spec() == old(self).capacity_spec(),
    {
        let mlen = ascii_len(metric);
        if self.buffer.as_str().is_empty() {
            proof {
                if self.lines@.len() > 0 {
                    lemma_join_lines_ascii(self.lines@);
                }
                assert(self.lines@.len() == 0);
                assert(spec_terminated(self.lines@) =~= Seq::<char>::empty());
            }
            if mlen >= self.capacity {
                // Oversized for the buffer: write through unbuffered.
                let r = self.inner.emit(metric);
                proof {
                    assert(self.accepted() =~= self.inner.accepted());
                    assert(old(self).accepted() =~= old(self).inner.accepted());
                }
                r
            } else {
                self.buffer.append(metric);
                proof {
                    self.lines@ = old(self).lines@.push(metric@);
                }
                proof {
                    lemma_lines_singleton(metric@);
                    assert(self.lines@ =~= seq![metric@]);
                    assert(self.buffer@ =~= metric@);
                    assert(self.accepted() =~= old(self).accepted() + metric@ + seq!['\n']);
                }
                Ok(())
            }
        } else {
            proof {
                assert(self.lines@.len() > 0);
                lemma_join_lines_ascii(self.lines@);
                assert(is_ascii_chars(self.buffer@));
            }
            let blen_chars = ascii_len(self.buffer.as_str());
            let room = self.capacity - blen_chars - 1;
            if mlen < room {
                // Fits after a separating newline: buffer it, no write.
                proof {
                    reveal_strlit("\n");
                    assert("\n"@ =~= seq!['\n']);
                }
                self.buffer.append("\n");
                self.buffer.append(metric);
                proof {
                    self.lines@ = old(self).lines@.push(metric@);
                }
                proof {
                    lemma_join_lines_push(old(self).lines@, metric@);
                    assert(self.buffer@ =~= spec_join_lines(self.lines@));
                    lemma_terminated_push(old(self).lines@, metric@);
                    assert(self.accepted() =~= old(self).accepted() + metric@ + seq!['\n']);
                    assert forall|i: int| 0 <= i < self.lines@.len() implies is_ascii_chars(
                        #[trigger] self.lines@[i],
                    ) && self.lines@[i].len() > 0 by {
                        if i < old(self).lines@.len() {
                            assert(old(self).lines@[i].len() > 0);
                        } else {
                            assert(self.lines@[i] == metric@);
                        }
                    }
                }
                Ok(())
            } else {
                // Would overflow: flush the whole buffer as one chunk.
                let flushed = self.inner.emit(self.buffer.as_str());
                proof {
                    lemma_terminated_is_join(old(self).lines@);
                }
                match flushed {
                    Err(e) => {
                        proof {
                            assert(self.accepted() =~= old(self).accepted());
                        }
                        Err(e)
                    },
                    Ok(()) => {
                        self.buffer = String::new();
                        proof {
                            self.lines@ = Seq::empty();
                        }
                        proof {
                            assert(spec_terminated(self.lines@) =~= Seq::<char>::empty());
                        }
                        if mlen >= self.capacity {
                            // Still oversized: write through unbuffered.
                            let r = self.inner.emit(metric);
                            proof {
                                assert(self.accepted() =~= self.inner.accepted());
                            }
                            r
                        } else {
                            self.buffer.append(metric);
                            proof {
                                self.lines@ = seq![metric@];
                            }
                            proof {
                                lemma_lines_singleton(metric@);
                                assert(self.buffer@ =~= metric@);
                                assert(self.accepted() =~= old(self).accepted() + metric@
                                    + seq!['\n']);
                            }
                            Ok(())
                        }
                    },
                }
            }
        }
    }

    /// Hands the buffer's whole content — every held payload, in order —
    /// to the inner sink as a single chunk. With an empty buffer, does
    /// nothing.
    fn flush(&mut self) -> (r: Result<(), SinkError>)
        ensures
            old(self).buffered_lines().len() == 0 ==> r is Ok && *final(self) == *old(self),
            old(self).buffered_lines().len() > 0 && r is Ok ==> final(self).inner_sink().accepted() == old(self).inner_sink().accepted() + spec_terminated(
                old(self).buffered_lines(),
            ) && final(self).buffered_lines() == Seq::<Seq<char>>::empty(),
            r is Err ==> final(self).buffered_lines() == old(self).buffered_lines() && final(self).inner_sink().accepted() == old(self).inner_sink().accepted(),
            final(self).capacity_spec() == old(self).capacity_spec(),
    {
        if self.buffer.as_str().is_empty() {
            proof {
                if self.lines@.len() > 0 {
                    lemma_join_lines_ascii(self.lines@);
                }
                assert(self.lines@.len() == 0);
            }
            return Ok(());
        }
        proof {
            assert(self.lines@.len() > 0);
            lemma_join_lines_ascii(self.lines@);
            assert(is_ascii_chars(self.buffer@));
        }
        let flushed = self.inner.emit(self.buffer.as_str());
        proof {
            lemma_terminated_is_join(old(self).lines@);
        }
        match flushed {
            Err(e) => {
                proof {
                    assert(self.accepted() =~= old(self).accepted());
                }
                Err(e)
            },
            Ok(()) => {
                self.buffer = String::new();
                proof {
                    self.lines@ = Seq::empty();
                }
                proof {
                    assert(spec_terminated(self.lines@) =~= Seq::<char>::empty());
                    assert(self.accepted() =~= old(self).accepted());
                }
                Ok(())
            },
        }
    }
}

} // verus!
