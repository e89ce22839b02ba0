use cadence::builder::MetricBuilder;
use cadence::client::StatsdClient;
use cadence::format::MetricFormatter;
use cadence::sinks::{MetricSink, NopMetricSink, SpyMetricSink};
use cadence::types::{Counter, Metric, MetricError, SinkError};

#[test]
fn test_client_tag_order_preserved_through_send() {
    let mut client = StatsdClient::from_sink("some.prefix", SpyMetricSink::new());
    let builder = client
        .count_with_tags("some.key", 1)
        .with_tag("host", "app11.example.com")
        .with_tag("segment", "23")
        .with_tag_value("beta");
    let res = builder.try_send(&mut client);

    assert_eq!(
        "some.prefix.some.key:1|c|#host:app11.example.com,segment:23,beta",
        res.unwrap().as_metric_str()
    );
    let spy = client.into_sink();
    assert_eq!(1, spy.chunk_count());
    assert_eq!(
        "some.prefix.some.key:1|c|#host:app11.example.com,segment:23,beta\n",
        spy.chunk_at(0)
    );
}

#[test]
fn test_client_all_metric_kinds_render_their_type_tokens() {
    let mut client = StatsdClient::from_sink("p", SpyMetricSink::new());
    let b = client.count_with_tags("k", 4);
    assert_eq!("p.k:4|c", b.try_send(&mut client).unwrap().as_metric_str());
    let b = client.time_with_tags("k", 21);
    assert_eq!("p.k:21|ms", b.try_send(&mut client).unwrap().as_metric_str());
    let b = client.gauge_with_tags("k", 7);
    assert_eq!("p.k:7|g", b.try_send(&mut client).unwrap().as_metric_str());
    let b = client.meter_with_tags("k", 3);
    assert_eq!("p.k:3|m", b.try_send(&mut client).unwrap().as_metric_str());
    let b = client.histogram_with_tags("k", 44);
    assert_eq!("p.k:44|h", b.try_send(&mut client).unwrap().as_metric_str());
    let b = client.set_with_tags("k", 44);
    assert_eq!("p.k:44|s", b.try_send(&mut client).unwrap().as_metric_str());
}

#[test]
fn test_client_negative_and_extreme_values() {
    let mut client = StatsdClient::from_sink("p", NopMetricSink::new());
    let b = client.count_with_tags("k", -1);
    assert_eq!("p.k:-1|c", b.try_send(&mut client).unwrap().as_metric_str());
    let b = client.count_with_tags("k", 0);
    assert_eq!("p.k:0|c", b.try_send(&mut client).unwrap().as_metric_str());
    let b = client.count_with_tags("k", i64::MIN);
    assert_eq!(
        "p.k:-9223372036854775808|c",
        b.try_send(&mut client).unwrap().as_metric_str()
    );
    let b = client.time_with_tags("k", u64::MAX);
    assert_eq!(
        "p.k:18446744073709551615|ms",
        b.try_send(&mut client).unwrap().as_metric_str()
    );
}

#[test]
fn test_client_gauge_rendered_value_text() {
    let mut client = StatsdClient::from_sink("p", NopMetricSink::new());
    let b = client.gauge_rendered_with_tags("k", "4.5".to_string());
    assert_eq!("p.k:4.5|g", b.try_send(&mut client).unwrap().as_metric_str());
}

#[test]
fn test_client_prefix_gains_exactly_one_dot() {
    let with_dot = StatsdClient::from_sink("prefix.", NopMetricSink::new());
    assert_eq!("prefix.", with_dot.prefix());

    let without_dot = StatsdClient::from_sink("prefix", NopMetricSink::new());
    assert_eq!("prefix.", without_dot.prefix());

    let many_dots = StatsdClient::from_sink("prefix...", NopMetricSink::new());
    assert_eq!("prefix.", many_dots.prefix());

    let empty = StatsdClient::from_sink("", NopMetricSink::new());
    assert_eq!("", empty.prefix());
}

#[test]
fn test_error_builder_is_inert_to_tag_calls() {
    let mut client = StatsdClient::from_sink("p", SpyMetricSink::new());
    let builder: MetricBuilder<'_, Counter> =
        MetricBuilder::from_error(MetricError::InvalidInput("bad key".to_string()));
    let res = builder
        .with_tag("host", "web")
        .with_tag("user", "123")
        .with_tag_value("beta")
        .try_send(&mut client);

    match res {
        Err(MetricError::InvalidInput(msg)) => assert_eq!("bad key", msg),
        other => panic!("expected the original error back, got an Ok: {}", other.is_ok()),
    }
    // Nothing was sent on the error path.
    assert_eq!(0, client.into_sink().chunk_count());
}

#[test]
fn test_non_ascii_key_is_deferred_as_invalid_input() {
    let mut client = StatsdClient::from_sink("p", SpyMetricSink::new());
    let res = client
        .count_with_tags("caf\u{e9}.key", 1)
        .with_tag("host", "web")
        .try_send(&mut client);

    assert!(matches!(res, Err(MetricError::InvalidInput(_))));
    assert_eq!(0, client.into_sink().chunk_count());
}

#[test]
fn test_non_ascii_tag_turns_builder_into_error() {
    let mut client = StatsdClient::from_sink("p", SpyMetricSink::new());
    let res = client
        .count_with_tags("some.key", 1)
        .with_tag("host", "caf\u{e9}")
        .try_send(&mut client);

    assert!(matches!(res, Err(MetricError::InvalidInput(_))));
    assert_eq!(0, client.into_sink().chunk_count());
}

#[test]
fn test_send_discards_errors_quietly() {
    let mut client = StatsdClient::from_sink("p", SpyMetricSink::new());
    let builder: MetricBuilder<'_, Counter> =
        MetricBuilder::from_error(MetricError::InvalidInput("bad".to_string()));
    builder.send(&mut client);

    let ok = client.count_with_tags("k", 1);
    ok.send(&mut client);

    let spy = client.into_sink();
    assert_eq!(1, spy.chunk_count());
    assert_eq!("p.k:1|c\n", spy.chunk_at(0));
}

#[test]
fn test_size_hint_covers_rendered_length() {
    // The estimate must never under-allocate for values within the
    // ten-digit budget, with or without tags.
    let values: [i64; 6] = [0, 1, -1, 4096, -123456789, 9999999999];
    for v in values {
        let fmt: MetricFormatter<'_, Counter> = MetricFormatter::counter("prefix.", "some.key", v);
        let hint = fmt.base_metric_size_hint() + fmt.tag_size_hint();
        let built: Counter = fmt.build();
        assert!(hint >= built.as_metric_str().len());
    }

    let mut fmt: MetricFormatter<'_, Counter> = MetricFormatter::counter("prefix.", "some.key", 4);
    fmt.with_tag("host", "app03.example.com");
    fmt.with_tag("bucket", "2");
    fmt.with_tag_value("beta");
    let hint = fmt.base_metric_size_hint() + fmt.tag_size_hint();
    let built: Counter = fmt.build();
    assert!(hint >= built.as_metric_str().len());
}

#[test]
fn test_base_size_hint_exact_value() {
    // prefix (7) + key (8) + colon + ten-digit budget + pipe + two-char
    // type budget = 29.
    let fmt: MetricFormatter<'_, Counter> = MetricFormatter::counter("prefix.", "some.key", 1);
    assert_eq!(29, fmt.base_metric_size_hint());
}

#[test]
fn test_metric_error_accessors() {
    let invalid = MetricError::InvalidInput("oops".to_string());
    assert_eq!(None, invalid.sink_error());
    assert_eq!("oops", invalid.message());

    let sink = MetricError::Sink(SinkError::QueueFull);
    assert_eq!(Some(SinkError::QueueFull), sink.sink_error());
    assert_eq!("sink queue full", sink.message());

    assert_eq!("sink write failed", MetricError::Sink(SinkError::WriteFailed).message());
    assert_eq!("sink would block", MetricError::Sink(SinkError::WouldBlock).message());
    assert_eq!("sink closed", MetricError::Sink(SinkError::Closed).message());
}
