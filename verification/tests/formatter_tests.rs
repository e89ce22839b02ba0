use cadence::format::MetricFormatter;
use cadence::types::{Counter, Gauge, Histogram, Meter, Metric, SetMetric, Timer};

#[test]
fn test_metric_formatter_tag_size_hint_no_tags() {
    let fmt: MetricFormatter<'_, Counter> = MetricFormatter::counter("prefix.", "some.key", 1);
    assert_eq!(0, fmt.tag_size_hint());
}

#[test]
fn test_metric_formatter_tag_size_hint_value() {
    let mut fmt: MetricFormatter<'_, Counter> = MetricFormatter::counter("prefix.", "some.key", 1);
    fmt.with_tag_value("test");

    assert_eq!(6, fmt.tag_size_hint());
}

#[test]
fn test_metric_formatter_tag_size_hint_key_value() {
    let mut fmt: MetricFormatter<'_, Counter> = MetricFormatter::counter("prefix.", "some.key", 1);
    fmt.with_tag("host", "web");
    fmt.with_tag("user", "123");

    assert_eq!(19, fmt.tag_size_hint());
}

#[test]
fn test_metric_formatter_counter_no_tags() {
    let fmt = MetricFormatter::counter("prefix.", "some.key", 4);
    let counter: Counter = fmt.build();

    assert_eq!("prefix.some.key:4|c", counter.as_metric_str());
}

#[test]
fn test_metric_formatter_counter_with_tags() {
    let mut fmt = MetricFormatter::counter("prefix.", "some.key", 4);
    fmt.with_tag("host", "app03.example.com");
    fmt.with_tag("bucket", "2");
    fmt.with_tag_value("beta");

    let counter: Counter = fmt.build();

    assert_eq!(
        "prefix.some.key:4|c|#host:app03.example.com,bucket:2,beta",
        counter.as_metric_str()
    );
}

#[test]
fn test_metric_formatter_timer_no_tags() {
    let fmt = MetricFormatter::timer("prefix.", "some.method", 21);
    let timer: Timer = fmt.build();

    assert_eq!("prefix.some.method:21|ms", timer.as_metric_str());
}

#[test]
fn test_metric_formatter_timer_with_tags() {
    let mut fmt = MetricFormatter::timer("prefix.", "some.method", 21);
    fmt.with_tag("app", "metrics");
    fmt.with_tag_value("async");

    let timer: Timer = fmt.build();

    assert_eq!("prefix.some.method:21|ms|#app:metrics,async", timer.as_metric_str());
}

#[test]
fn test_metric_formatter_gauge_no_tags() {
    let fmt = MetricFormatter::gauge("prefix.", "num.failures", 7);
    let gauge: Gauge = fmt.build();

    assert_eq!("prefix.num.failures:7|g", gauge.as_metric_str());
}

#[test]
fn test_metric_formatter_gauge_with_tags() {
    let mut fmt = MetricFormatter::gauge("prefix.", "num.failures", 7);
    fmt.with_tag("window", "300");
    fmt.with_tag_value("best-effort");

    let gauge: Gauge = fmt.build();

    assert_eq!("prefix.num.failures:7|g|#window:300,best-effort", gauge.as_metric_str());
}

#[test]
fn test_metric_formatter_meter_no_tags() {
    let fmt = MetricFormatter::meter("prefix.", "user.logins", 3);
    let meter: Meter = fmt.build();

    assert_eq!("prefix.user.logins:3|m", meter.as_metric_str());
}

#[test]
fn test_metric_formatter_meter_with_tags() {
    let mut fmt = MetricFormatter::meter("prefix.", "user.logins", 3);
    fmt.with_tag("user-type", "verified");
    fmt.with_tag_value("bucket1");

    let meter: Meter = fmt.build();

    assert_eq!(
        "prefix.user.logins:3|m|#user-type:verified,bucket1",
        meter.as_metric_str()
    );
}

#[test]
fn test_metric_formatter_histogram_no_tags() {
    let fmt = MetricFormatter::histogram("prefix.", "num.results", 44);
    let histogram: Histogram = fmt.build();

    assert_eq!("prefix.num.results:44|h", histogram.as_metric_str());
}

#[test]
fn test_metric_formatter_histogram_with_tags() {
    let mut fmt = MetricFormatter::histogram("prefix.", "num.results", 44);
    fmt.with_tag("user-type", "authenticated");
    fmt.with_tag_value("source=search");

    let histogram: Histogram = fmt.build();

    assert_eq!(
        "prefix.num.results:44|h|#user-type:authenticated,source=search",
        histogram.as_metric_str()
    );
}

#[test]
fn test_metric_formatter_set_no_tags() {
    let fmt = MetricFormatter::set("prefix.", "users.uniques", 44);
    let set: SetMetric = fmt.build();

    assert_eq!("prefix.users.uniques:44|s", set.as_metric_str());
}

#[test]
fn test_metric_formatter_set_with_tags() {
    let mut fmt = MetricFormatter::set("prefix.", "users.uniques", 44);
    fmt.with_tag("user-type", "authenticated");
    fmt.with_tag_value("source=search");

    let set: SetMetric = fmt.build();

    assert_eq!(
        "prefix.users.uniques:44|s|#user-type:authenticated,source=search",
        set.as_metric_str()
    );
}
