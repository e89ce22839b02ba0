use cadence::sinks::{BufferedMetricSink, MetricSink, NopMetricSink, SpyMetricSink};
use cadence::queue::QueuingMetricSink;
use cadence::types::SinkError;

#[test]
fn test_nop_sink_accepts_everything() {
    let mut sink = NopMetricSink::new();
    assert_eq!(Ok(()), sink.emit("prefix.some.key:4|c"));
    assert_eq!(Ok(()), sink.emit("prefix.other.key:7|g"));
    assert_eq!(Ok(()), sink.flush());
}

#[test]
fn test_spy_sink_captures_each_payload_with_newline() {
    let mut sink = SpyMetricSink::new();
    assert_eq!(Ok(()), sink.emit("prefix.some.key:4|c"));
    assert_eq!(Ok(()), sink.emit("prefix.other.key:7|g"));

    assert_eq!(2, sink.chunk_count());
    assert_eq!("prefix.some.key:4|c\n", sink.chunk_at(0));
    assert_eq!("prefix.other.key:7|g\n", sink.chunk_at(1));
}

#[test]
fn test_buffered_sink_holds_small_metrics_until_flush() {
    // Three small metrics: 6 + 6 + 6 bytes with newlines, below capacity.
    let mut sink = BufferedMetricSink::new(SpyMetricSink::new(), 32);
    assert_eq!(Ok(()), sink.emit("a.b:1|c"));
    assert_eq!(Ok(()), sink.emit("a.b:2|c"));
    assert_eq!(Ok(()), sink.emit("a.b:3|c"));

    // No transport write yet: the capture sink saw nothing.
    assert_eq!(0, sink.inner_ref().chunk_count());

    assert_eq!(Ok(()), sink.flush());

    // Exactly one write, containing all three newline-terminated
    // metrics, in order.
    let spy = sink.into_inner();
    assert_eq!(1, spy.chunk_count());
    assert_eq!("a.b:1|c\na.b:2|c\na.b:3|c\n", spy.chunk_at(0));
}

#[test]
fn test_buffered_sink_writes_oversized_metric_through() {
    let mut sink = BufferedMetricSink::new(SpyMetricSink::new(), 8);
    // 8 bytes of capacity cannot hold this metric plus its newline.
    assert_eq!(Ok(()), sink.emit("prefix.long.key:123|ms"));

    let spy = sink.into_inner();
    assert_eq!(1, spy.chunk_count());
    assert_eq!("prefix.long.key:123|ms\n", spy.chunk_at(0));
}

#[test]
fn test_buffered_sink_flushes_once_mid_stream() {
    // Capacity 24: "a.b:1|c\na.b:2|c\na.b:3|c\n" is exactly 24 bytes, so
    // the fourth metric is the first that no longer fits.
    let mut sink = BufferedMetricSink::new(SpyMetricSink::new(), 24);
    assert_eq!(Ok(()), sink.emit("a.b:1|c"));
    assert_eq!(Ok(()), sink.emit("a.b:2|c"));
    assert_eq!(Ok(()), sink.emit("a.b:3|c"));
    assert_eq!(0, sink.inner_ref().chunk_count());

    assert_eq!(Ok(()), sink.emit("a.b:4|c"));
    // The flush happened before the triggering metric: the first chunk
    // ends immediately before it.
    assert_eq!(1, sink.inner_ref().chunk_count());
    assert_eq!("a.b:1|c\na.b:2|c\na.b:3|c\n", sink.inner_ref().chunk_at(0));

    assert_eq!(Ok(()), sink.flush());
    let spy = sink.into_inner();

    // Two chunks in all, each of complete newline-terminated metric
    // lines; the triggering metric opens the second chunk, unsplit.
    assert_eq!(2, spy.chunk_count());
    assert!(spy.chunk_at(0).ends_with('\n'));
    assert!(spy.chunk_at(1).ends_with('\n'));
    assert_eq!("a.b:4|c\n", spy.chunk_at(1));
}

#[test]
fn test_buffered_sink_empty_flush_writes_nothing() {
    let mut sink = BufferedMetricSink::new(SpyMetricSink::new(), 64);
    assert_eq!(Ok(()), sink.flush());
    assert_eq!(0, sink.into_inner().chunk_count());
}

#[test]
fn test_queuing_sink_delivers_nothing_before_worker_runs() {
    let mut sink = QueuingMetricSink::new(SpyMetricSink::new(), None);
    assert_eq!(Ok(()), sink.emit("a.b:1|c"));
    assert_eq!(Ok(()), sink.emit("a.b:2|c"));

    assert_eq!(2, sink.pending_count());
    assert_eq!(0, sink.inner_ref().chunk_count());
}

#[test]
fn test_queuing_sink_worker_step_delivers_oldest_first() {
    let mut sink = QueuingMetricSink::new(SpyMetricSink::new(), None);
    assert_eq!(Ok(()), sink.emit("a.b:1|c"));
    assert_eq!(Ok(()), sink.emit("a.b:2|c"));

    assert_eq!(Ok(true), sink.worker_step());
    assert_eq!(1, sink.pending_count());
    assert_eq!("a.b:1|c\n", sink.inner_ref().chunk_at(0));

    assert_eq!(Ok(true), sink.worker_step());
    assert_eq!(Ok(false), sink.worker_step());
    assert_eq!("a.b:2|c\n", sink.inner_ref().chunk_at(1));
}

#[test]
fn test_queuing_sink_close_drains_everything_in_order() {
    let mut sink = QueuingMetricSink::new(SpyMetricSink::new(), None);
    assert_eq!(Ok(()), sink.emit("a.b:1|c"));
    assert_eq!(Ok(()), sink.emit("a.b:2|c"));
    assert_eq!(Ok(()), sink.emit("a.b:3|c"));
    assert_eq!(0, sink.inner_ref().chunk_count());

    assert_eq!(Ok(()), sink.close());

    // All three payloads reached the inner sink before close returned:
    // none lost, none duplicated, arrival order kept.
    assert_eq!(0, sink.pending_count());
    let spy = sink.into_inner();
    assert_eq!(3, spy.chunk_count());
    assert_eq!("a.b:1|c\n", spy.chunk_at(0));
    assert_eq!("a.b:2|c\n", spy.chunk_at(1));
    assert_eq!("a.b:3|c\n", spy.chunk_at(2));
}

#[test]
fn test_queuing_sink_rejects_after_close() {
    let mut sink = QueuingMetricSink::new(SpyMetricSink::new(), None);
    assert_eq!(Ok(()), sink.emit("a.b:1|c"));
    assert_eq!(Ok(()), sink.close());

    assert_eq!(Err(SinkError::Closed), sink.emit("a.b:2|c"));
    assert_eq!(1, sink.into_inner().chunk_count());
}

#[test]
fn test_queuing_sink_bounded_queue_fails_fast_when_full() {
    let mut sink = QueuingMetricSink::new(NopMetricSink::new(), Some(2));
    assert_eq!(Ok(()), sink.emit("a.b:1|c"));
    assert_eq!(Ok(()), sink.emit("a.b:2|c"));
    assert_eq!(Err(SinkError::QueueFull), sink.emit("a.b:3|c"));

    // Draining makes room again.
    assert_eq!(Ok(true), sink.worker_step());
    assert_eq!(Ok(()), sink.emit("a.b:3|c"));
}

#[test]
fn test_queuing_sink_over_buffered_sink_batches_on_drain() {
    // The composition the library is built for: producers enqueue, the
    // worker drains into a buffering sink, the buffer batches into
    // MTU-sized chunks for the transport.
    let buffered = BufferedMetricSink::new(SpyMetricSink::new(), 64);
    let mut sink = QueuingMetricSink::new(buffered, None);
    assert_eq!(Ok(()), sink.emit("a.b:1|c"));
    assert_eq!(Ok(()), sink.emit("a.b:2|c"));
    assert_eq!(Ok(()), sink.close());

    let mut buffered = sink.into_inner();
    assert_eq!(Ok(()), buffered.flush());
    let spy = buffered.into_inner();
    assert_eq!(1, spy.chunk_count());
    assert_eq!("a.b:1|c\na.b:2|c\n", spy.chunk_at(0));
}
