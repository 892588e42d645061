use opentelemetry_openmetrics::attrs::{hash_attrs, write_attrs};
use opentelemetry_openmetrics::convert::{
    extract_type_unit_and_name, get_type, make_scope_name_attrs, write_counter, write_gauge,
    write_header, write_histogram, write_values, Context, WriteOpenMetrics,
};
use opentelemetry_openmetrics::model::{
    DataPoint, EncodeOptions, Gauge, Histogram, HistogramDataPoint, KeyValue, Metric, MetricData,
    ResourceMetrics, Scope, ScopeMetrics, Sum, Temporality,
};
use opentelemetry_openmetrics::numbers::{to_timestamp, Number, UnixTime};
use opentelemetry_openmetrics::text::{write_escaped, write_sanitized_name};

fn plain() -> EncodeOptions {
    EncodeOptions { scope_info: false, histogram_min_max: false }
}

fn at(secs: u64) -> UnixTime {
    UnixTime { secs, nanos: 0 }
}

fn float(text: &str) -> Number {
    Number::Float(text.to_string())
}

fn point(value: Number, attrs: Vec<KeyValue>) -> DataPoint {
    DataPoint { attributes: attrs, value }
}

fn metric(name: &str, description: &str, unit: &str, data: MetricData) -> Metric {
    Metric {
        name: name.to_string(),
        description: description.to_string(),
        unit: unit.to_string(),
        data,
    }
}

fn test_gauge() -> Gauge {
    Gauge {
        time: at(1000),
        data_points: vec![
            point(float("4.22"), vec![KeyValue::new("kk", "v1")]),
            point(float("4.23"), vec![KeyValue::new("kk", "v2")]),
        ],
    }
}

fn test_counter() -> Sum {
    Sum {
        is_monotonic: true,
        temporality: Temporality::Cumulative,
        time: at(1000),
        data_points: vec![point(Number::U64(125), vec![])],
    }
}

fn test_histogram() -> Histogram {
    Histogram {
        temporality: Temporality::Cumulative,
        start_time: at(900),
        time: at(1000),
        data_points: vec![HistogramDataPoint {
            attributes: vec![],
            count: 4,
            sum: float("15.7"),
            min: Some(float("0")),
            max: Some(float("13")),
            bounds: vec![float("0"), float("5"), float("10"), float("25")],
            bucket_counts: vec![1, 2, 0, 1],
        }],
    }
}

/// A snapshot with one scope holding a gauge, a counter and a histogram.
fn make_test_metrics() -> ResourceMetrics {
    ResourceMetrics {
        scope_metrics: vec![ScopeMetrics {
            scope: Scope { name: "meter.1".to_string(), version: None, attributes: vec![] },
            metrics: vec![
                metric("f64.gauge", "A \"gauge\"\nFor testing", "", MetricData::Gauge(test_gauge())),
                metric("u64.counter", "", "s", MetricData::Sum(test_counter())),
                metric("histo", "", "", MetricData::Histogram(test_histogram())),
            ],
        }],
    }
}

fn context_for(name: &str) -> Context {
    let mut ctx = Context::with_output(String::new(), plain());
    ctx.name = name.to_string();
    ctx
}

#[test]
fn test_write_sanitized_name() {
    let mut output = String::new();

    write_sanitized_name(&mut output, "valid_metric_name");
    assert_eq!(output, "valid_metric_name");

    output.clear();
    write_sanitized_name(&mut output, "invalid._ä.metric-name");
    assert_eq!(output, "invalid_metric_name");

    output.clear();
    write_sanitized_name(&mut output, "1.metric");
    assert_eq!(output, "_1_metric");
}

#[test]
fn test_write_escaped() {
    let mut output = String::new();

    write_escaped(
        &mut output,
        "Line 1\nLine 2\tTabbed\r\nWindows \"quoted\" \\ BS ❤️‍🩹",
    );
    assert_eq!(
        output,
        "Line 1\\nLine 2\tTabbed\r\\nWindows \\\"quoted\\\" \\\\ BS ❤️‍🩹"
    );

    output.clear();
    write_escaped(&mut output, "Simple string");
    assert_eq!(output, "Simple string");
}

#[test]
fn test_hash_attrs() {
    let attrs = vec![KeyValue::new("key1", "value1"), KeyValue::new("key2", "value2")];
    let hash1 = hash_attrs(&attrs);

    let attrs2 = vec![KeyValue::new("key2", "value2"), KeyValue::new("key1", "value1")];
    let hash2 = hash_attrs(&attrs2);
    assert_eq!(hash1, hash2);

    let attrs3 = vec![KeyValue::new("key1", "value1"), KeyValue::new("key2", "different")];
    let hash3 = hash_attrs(&attrs3);
    assert_ne!(hash1, hash3);
}

#[test]
fn test_write_attrs() {
    let mut output = String::new();
    let attrs = vec![KeyValue::new("key1", "value1"), KeyValue::new("key2", "value2")];

    write_attrs(&mut output, &attrs);
    assert_eq!(output, "key1=\"value1\",key2=\"value2\"");

    output.clear();
    let attrs_with_escapes = vec![
        KeyValue::new("key1", "value\nwith\nnewlines"),
        KeyValue::new("key2", "value\"with\"quotes"),
    ];
    write_attrs(&mut output, &attrs_with_escapes);
    assert_eq!(
        output,
        "key1=\"value\\nwith\\nnewlines\",key2=\"value\\\"with\\\"quotes\""
    );
}

#[test]
fn test_make_scope_name_attrs() {
    let scope_name = "test_scope";

    let attr = make_scope_name_attrs(EncodeOptions { scope_info: true, histogram_min_max: false }, scope_name);
    assert!(attr.is_some());
    if let Some(kv) = attr {
        assert_eq!(kv.key.as_str(), "otel_scope_name");
        assert_eq!(kv.value.as_str(), "test_scope");
    }

    let attr = make_scope_name_attrs(plain(), scope_name);
    assert!(attr.is_none());
}

#[test]
fn test_to_timestamp() {
    let time = UnixTime { secs: 1625097600, nanos: 0 };
    let output = to_timestamp(time);
    assert_eq!(output, "1625097600");
}

#[test]
fn test_write_otel_scope_info() {
    let resource_metrics = make_test_metrics();
    let options = EncodeOptions { scope_info: true, histogram_min_max: false };
    let output = resource_metrics.to_openmetrics_string(options);

    assert!(output.contains("# TYPE otel_scope info"));
    assert!(output.contains("otel_scope_info{"));
    assert!(output.contains("otel_scope_name=\"meter.1\""));
}

#[test]
fn test_get_type() {
    let resource_metrics = make_test_metrics();
    for scope in &resource_metrics.scope_metrics {
        for metric in &scope.metrics {
            let result = get_type(&metric.data);
            assert!(result.is_ok());
            let type_str = result.unwrap();
            assert!(
                type_str == "gauge" || type_str == "counter" || type_str == "histogram",
                "Unexpected metric type: {}",
                type_str
            );
        }
    }
}

#[test]
fn test_write_values() {
    let resource_metrics = make_test_metrics();
    for scope in &resource_metrics.scope_metrics {
        for metric in &scope.metrics {
            let mut ctx = context_for(metric.name.as_str());
            ctx.scope_name = scope.scope.name.clone();
            write_values(&mut ctx, &metric.data);
            assert!(!ctx.out.is_empty());
            assert!(ctx.out.contains(metric.name.as_str()));
        }
    }
}

#[test]
fn test_write_gauge() {
    let gauge = test_gauge();
    let mut ctx = context_for("f64.gauge");
    write_gauge(&mut ctx, &gauge);
    let output = ctx.out;
    assert!(output.contains("f64.gauge"));
    assert!(output.contains("{"));
    assert!(output.contains("}"));
    assert!(output.contains(" "));
    assert!(output.contains("f64.gauge{kk=\"v1\"} 4.22 1000\n"));
    assert!(output.contains("f64.gauge{kk=\"v2\"} 4.23 1000\n"));
}

#[test]
fn test_write_counter() {
    let sum = test_counter();
    let mut ctx = context_for("u64.counter");
    write_counter(&mut ctx, &sum);
    let output = ctx.out;
    assert!(output.contains("u64.counter"));
    assert!(output.contains(" 125"));
    assert_eq!(output, "u64.counter_total{} 125 1000\n");
}

#[test]
fn test_write_histogram() {
    let histogram = test_histogram();
    let mut ctx = context_for("histo");
    write_histogram(&mut ctx, &histogram);
    let output = ctx.out;
    assert!(output.contains("histo"));
    assert!(output.contains("_count"));
    assert!(output.contains("_sum"));
    assert!(output.contains("_bucket"));
    assert!(output.contains("le="));
    assert!(output.starts_with("histo_created{} 900 1000\n"));
}

#[test]
fn non_monotonic_sum_is_written_as_gauge_lines() {
    let sum = Sum {
        is_monotonic: false,
        temporality: Temporality::Cumulative,
        time: at(7),
        data_points: vec![point(Number::I64(-3), vec![])],
    };
    let mut ctx = context_for("updown");
    write_counter(&mut ctx, &sum);
    assert_eq!(ctx.out, "updown{} -3 7\n");
}

#[test]
fn unsupported_kinds_are_rejected() {
    assert_eq!(get_type(&MetricData::ExponentialHistogram), Err(()));
    let delta_sum = Sum {
        is_monotonic: true,
        temporality: Temporality::Delta,
        time: at(1),
        data_points: vec![],
    };
    assert_eq!(get_type(&MetricData::Sum(delta_sum)), Err(()));
    let delta_hist = Histogram {
        temporality: Temporality::Delta,
        start_time: at(0),
        time: at(1),
        data_points: vec![],
    };
    assert_eq!(get_type(&MetricData::Histogram(delta_hist)), Err(()));
}

#[test]
fn skipped_metric_leaves_no_trace() {
    let rm = ResourceMetrics {
        scope_metrics: vec![ScopeMetrics {
            scope: Scope { name: "s".to_string(), version: None, attributes: vec![] },
            metrics: vec![metric("expo", "d", "s", MetricData::ExponentialHistogram)],
        }],
    };
    assert_eq!(rm.to_openmetrics_string(plain()), "# EOF\n");
}

#[test]
fn empty_snapshot_is_only_eof() {
    let rm = ResourceMetrics { scope_metrics: vec![] };
    assert_eq!(rm.to_openmetrics_string(plain()), "# EOF\n");
    let mut out = String::from("prefix\n");
    rm.write_as_openmetrics(plain(), &mut out);
    assert_eq!(out, "prefix\n# EOF\n");
}

#[test]
fn header_with_unit_and_help() {
    let m = metric("req.time", "Time \"spent\"\nin requests", "ms", MetricData::Gauge(Gauge { time: at(1), data_points: vec![] }));
    let mut ctx = Context::with_output(String::new(), plain());
    assert!(extract_type_unit_and_name(&mut ctx, &m));
    assert_eq!(ctx.name, "req_time_milliseconds");
    write_header(&mut ctx, m.description.as_str());
    assert_eq!(
        ctx.out,
        "# TYPE req_time_milliseconds gauge\n# UNIT req_time_milliseconds milliseconds\n# HELP req_time_milliseconds Time \\\"spent\\\"\\nin requests\n"
    );
}
