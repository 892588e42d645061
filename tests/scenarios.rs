use opentelemetry_openmetrics::attrs::hash_attrs;
use opentelemetry_openmetrics::convert::{is_encodable, WriteOpenMetrics, MIME_TYPE};
use opentelemetry_openmetrics::model::{
    DataPoint, EncodeOptions, Gauge, Histogram, HistogramDataPoint, KeyValue, Metric, MetricData,
    ResourceMetrics, Scope, ScopeMetrics, Sum, Temporality,
};
use opentelemetry_openmetrics::numbers::{
    i64_text, to_timestamp, trim_point_zero, u64_text, Number, UnixTime,
};
use opentelemetry_openmetrics::text::{less_than, text_eq, write_escaped, write_sanitized_name};
use opentelemetry_openmetrics::unit::get_unit_suffixes;

fn plain() -> EncodeOptions {
    EncodeOptions { scope_info: false, histogram_min_max: false }
}

fn at(secs: u64) -> UnixTime {
    UnixTime { secs, nanos: 0 }
}

fn one_scope(name: &str, metrics: Vec<Metric>) -> ResourceMetrics {
    ResourceMetrics {
        scope_metrics: vec![ScopeMetrics {
            scope: Scope { name: name.to_string(), version: None, attributes: vec![] },
            metrics,
        }],
    }
}

fn sanitized(s: &str) -> String {
    let mut out = String::new();
    write_sanitized_name(&mut out, s);
    out
}

fn escaped(s: &str) -> String {
    let mut out = String::new();
    write_escaped(&mut out, s);
    out
}

fn unescape(s: &str) -> String {
    let mut out = String::new();
    let mut chars = s.chars();
    while let Some(c) = chars.next() {
        if c == '\\' {
            match chars.next() {
                Some('n') => out.push('\n'),
                Some(other) => out.push(other),
                None => out.push('\\'),
            }
        } else {
            out.push(c);
        }
    }
    out
}

fn float_gauge() -> Metric {
    Metric {
        name: "f64.gauge".to_string(),
        description: "A \"gauge\"\nFor testing".to_string(),
        unit: String::new(),
        data: MetricData::Gauge(Gauge {
            time: at(1000),
            data_points: vec![
                DataPoint { attributes: vec![], value: Number::Float("4.2".to_string()) },
                DataPoint { attributes: vec![KeyValue::new("kk", "v1")], value: Number::Float("4.22".to_string()) },
                DataPoint { attributes: vec![KeyValue::new("kk", "v2")], value: Number::Float("4.23".to_string()) },
            ],
        }),
    }
}

#[test]
fn float_gauge_scenario() {
    let out = one_scope("meter.1", vec![float_gauge()]).to_openmetrics_string(plain());
    assert!(out.starts_with("# TYPE f64_gauge gauge\n# HELP f64_gauge A \\\"gauge\\\"\\nFor testing\n"));
    assert!(out.contains("f64_gauge{} 4.2 1000\n"));
    assert!(out.contains("f64_gauge{kk=\"v1\"} 4.22 1000\n"));
    assert!(out.contains("f64_gauge{kk=\"v2\"} 4.23 1000\n"));
    assert_eq!(out.lines().filter(|l| l.starts_with("f64_gauge{")).count(), 3);
    assert!(out.ends_with("# EOF\n"));
}

#[test]
fn u64_counter_scenario() {
    let m = Metric {
        name: "u64.counter".to_string(),
        description: String::new(),
        unit: "s".to_string(),
        data: MetricData::Sum(Sum {
            is_monotonic: true,
            temporality: Temporality::Cumulative,
            time: at(1000),
            data_points: vec![DataPoint { attributes: vec![], value: Number::U64(125) }],
        }),
    };
    let out = one_scope("meter.1", vec![m]).to_openmetrics_string(plain());
    assert_eq!(
        out,
        "# TYPE u64_counter_seconds counter\n# UNIT u64_counter_seconds seconds\nu64_counter_seconds_total{} 125 1000\n# EOF\n"
    );
}

fn bucket_histogram(min_max: bool) -> String {
    let m = Metric {
        name: "histo".to_string(),
        description: String::new(),
        unit: String::new(),
        data: MetricData::Histogram(Histogram {
            temporality: Temporality::Cumulative,
            start_time: at(5),
            time: at(1000),
            data_points: vec![HistogramDataPoint {
                attributes: vec![],
                count: 6,
                sum: Number::Float("30.5".to_string()),
                min: Some(Number::Float("0.5".to_string())),
                max: Some(Number::Float("9".to_string())),
                bounds: vec![
                    Number::Float("1".to_string()),
                    Number::Float("5".to_string()),
                    Number::Float("10".to_string()),
                ],
                bucket_counts: vec![2, 3, 1],
            }],
        }),
    };
    let options = EncodeOptions { scope_info: false, histogram_min_max: min_max };
    one_scope("meter.1", vec![m]).to_openmetrics_string(options)
}

#[test]
fn histogram_bucket_scenario() {
    assert_eq!(
        bucket_histogram(false),
        "# TYPE histo histogram\n\
         histo_created{} 5 1000\n\
         histo_count{} 6 1000\n\
         histo_sum{} 30.5 1000\n\
         histo_bucket{le=\"1\"} 2 1000\n\
         histo_bucket{le=\"5\"} 5 1000\n\
         histo_bucket{le=\"10\"} 6 1000\n\
         histo_bucket{le=\"+Inf\"} 6 1000\n\
         # EOF\n"
    );
}

#[test]
fn histogram_min_max_lines() {
    let out = bucket_histogram(true);
    assert!(out.contains("histo_sum{} 30.5 1000\nhisto_min{} 0.5 1000\nhisto_max{} 9 1000\nhisto_bucket{le=\"1\"} 2 1000\n"));
}

#[test]
fn histogram_buckets_with_labels_and_scope() {
    let m = Metric {
        name: "lat".to_string(),
        description: String::new(),
        unit: String::new(),
        data: MetricData::Histogram(Histogram {
            temporality: Temporality::Cumulative,
            start_time: at(1),
            time: UnixTime { secs: 2, nanos: 500_000_000 },
            data_points: vec![HistogramDataPoint {
                attributes: vec![KeyValue::new("path", "/a")],
                count: 1,
                sum: Number::U64(3),
                min: None,
                max: None,
                bounds: vec![Number::U64(5)],
                bucket_counts: vec![1],
            }],
        }),
    };
    let options = EncodeOptions { scope_info: true, histogram_min_max: true };
    let out = one_scope("svc", vec![m]).to_openmetrics_string(options);
    assert!(out.contains("lat_created{otel_scope_name=\"svc\"} 1 2.5\n"));
    assert!(out.contains("lat_bucket{otel_scope_name=\"svc\",path=\"/a\",le=\"5\"} 1 2.5\n"));
    assert!(out.contains("lat_bucket{otel_scope_name=\"svc\",path=\"/a\",le=\"+Inf\"} 1 2.5\n"));
    assert!(!out.contains("lat_min"));
}

#[test]
fn unit_km_per_second_scenario() {
    assert_eq!(get_unit_suffixes("km/s"), Some("per_second".to_string()));
}

#[test]
fn unit_table_cases() {
    assert_eq!(get_unit_suffixes(""), None);
    assert_eq!(get_unit_suffixes("By"), Some("bytes".to_string()));
    assert_eq!(get_unit_suffixes("KiBy"), Some("kibibytes".to_string()));
    assert_eq!(get_unit_suffixes("1"), Some("ratio".to_string()));
    assert_eq!(get_unit_suffixes("%"), Some("percent".to_string()));
    assert_eq!(get_unit_suffixes("Cel"), Some("celsius".to_string()));
    assert_eq!(get_unit_suffixes("m/s"), Some("meters_per_second".to_string()));
    assert_eq!(get_unit_suffixes("By/mo"), Some("bytes_per_month".to_string()));
    assert_eq!(get_unit_suffixes("s/h"), Some("per_hour".to_string()));
    assert_eq!(get_unit_suffixes("1/y"), Some("per_year".to_string()));
    assert_eq!(get_unit_suffixes("m/x"), None);
    assert_eq!(get_unit_suffixes("{request}"), None);
    assert_eq!(get_unit_suffixes("/w"), Some("per_week".to_string()));
}

#[test]
fn sanitized_names_are_legal() {
    for s in ["", "9lives", "a..b", "__x__", "héllo wörld", "ok:name_1", "--", "1", "a._b", "_.-_"] {
        let r = sanitized(s);
        assert!(r.chars().all(|c| c.is_ascii_alphanumeric() || c == ':' || c == '_'));
        assert!(!r.starts_with(|c: char| c.is_ascii_digit()));
        if !s.contains('_') {
            assert!(!r.contains("__"));
        }
    }
    assert_eq!(sanitized("a..b"), "a_b");
    assert_eq!(sanitized("9lives"), "_9lives");
    assert_eq!(sanitized("__x__"), "__x__");
    assert_eq!(sanitized("a__b"), "a__b");
    assert_eq!(sanitized("a._b"), "a_b");
    assert_eq!(sanitized("a_.b"), "a_b");
    assert_eq!(sanitized("a.-.b"), "a_b");
    assert_eq!(sanitized("1_a"), "_1_a");
    assert_eq!(sanitized("ok:name__1"), "ok:name__1");
}

#[test]
fn escaping_round_trips() {
    for s in ["", "plain", "a\\b", "say \"hi\"\n", "\\n", "\"\"\\\\\n\n", "ünï\"cödé\n"] {
        assert_eq!(unescape(&escaped(s)), s);
    }
    assert_eq!(escaped("no specials here"), "no specials here");
    assert_eq!(escaped("\\"), "\\\\");
}

#[test]
fn order_key_ignores_pair_order() {
    let a = vec![KeyValue::new("x", "1"), KeyValue::new("y", "2"), KeyValue::new("z", "3")];
    let b = vec![KeyValue::new("z", "3"), KeyValue::new("x", "1"), KeyValue::new("y", "2")];
    let c = vec![KeyValue::new("x", "1"), KeyValue::new("y", "2"), KeyValue::new("z", "4")];
    assert_eq!(hash_attrs(&a), hash_attrs(&b));
    assert_ne!(hash_attrs(&a), hash_attrs(&c));
    assert_eq!(hash_attrs(&vec![]), 0);
}

#[test]
fn encoding_twice_is_identical() {
    let rm = one_scope("meter.1", vec![float_gauge()]);
    let options = EncodeOptions { scope_info: true, histogram_min_max: true };
    assert_eq!(rm.to_openmetrics_string(options), rm.to_openmetrics_string(options));
}

#[test]
fn points_are_written_in_order_key_order() {
    let make = |first: &str, second: &str| {
        let m = Metric {
            name: "g".to_string(),
            description: String::new(),
            unit: String::new(),
            data: MetricData::Gauge(Gauge {
                time: at(1),
                data_points: vec![
                    DataPoint { attributes: vec![KeyValue::new("k", first)], value: Number::U64(1) },
                    DataPoint { attributes: vec![KeyValue::new("k", second)], value: Number::U64(1) },
                ],
            }),
        };
        one_scope("s", vec![m]).to_openmetrics_string(plain())
    };
    assert_eq!(make("a", "b"), make("b", "a"));
}

#[test]
fn scopes_and_metrics_are_sorted_by_name() {
    let gauge = |name: &str| Metric {
        name: name.to_string(),
        description: String::new(),
        unit: String::new(),
        data: MetricData::Gauge(Gauge {
            time: at(1),
            data_points: vec![DataPoint { attributes: vec![], value: Number::I64(0) }],
        }),
    };
    let rm = ResourceMetrics {
        scope_metrics: vec![
            ScopeMetrics {
                scope: Scope { name: "zeta".to_string(), version: None, attributes: vec![] },
                metrics: vec![gauge("z1")],
            },
            ScopeMetrics {
                scope: Scope { name: "alpha".to_string(), version: Some("1.2".to_string()), attributes: vec![KeyValue::new("team", "core")] },
                metrics: vec![gauge("b"), gauge("a")],
            },
        ],
    };
    let out = rm.to_openmetrics_string(EncodeOptions { scope_info: true, histogram_min_max: false });
    assert_eq!(
        out,
        "# TYPE otel_scope info\n\
         otel_scope_info{otel_scope_name=\"alpha\",otel_scope_version=\"1.2\",team=\"core\"} 1\n\
         otel_scope_info{otel_scope_name=\"zeta\",otel_scope_version=\"\"} 1\n\
         # TYPE a gauge\n\
         a{otel_scope_name=\"alpha\"} 0 1\n\
         # TYPE b gauge\n\
         b{otel_scope_name=\"alpha\"} 0 1\n\
         # TYPE z1 gauge\n\
         z1{otel_scope_name=\"zeta\"} 0 1\n\
         # EOF\n"
    );
}

#[test]
fn integers_render_in_decimal() {
    assert_eq!(u64_text(0), "0");
    assert_eq!(u64_text(u64::MAX), "18446744073709551615");
    assert_eq!(i64_text(-42), "-42");
    assert_eq!(i64_text(i64::MIN), "-9223372036854775808");
}

#[test]
fn float_text_loses_trailing_point_zero() {
    assert_eq!(trim_point_zero("4.0"), "4");
    assert_eq!(trim_point_zero("4.05"), "4.05");
    assert_eq!(trim_point_zero("10"), "10");
    assert_eq!(trim_point_zero(".0"), "");
}

#[test]
fn timestamps_keep_fractions() {
    assert_eq!(to_timestamp(UnixTime { secs: 12, nanos: 250_000_000 }), "12.25");
    assert_eq!(to_timestamp(UnixTime { secs: 0, nanos: 0 }), "0");
}

#[test]
fn string_order_and_equality() {
    assert!(less_than("a", "b"));
    assert!(less_than("a", "ab"));
    assert!(!less_than("b", "a"));
    assert!(!less_than("a", "a"));
    assert!(less_than("Z", "a"));
    assert!(text_eq("héllo", "héllo"));
    assert!(!text_eq("héllo", "hello"));
}

#[test]
fn mime_type_is_openmetrics() {
    assert_eq!(MIME_TYPE, "application/openmetrics-text; version=1.0.0; charset=utf-8");
}

#[test]
fn encodability_check() {
    let hist = |counts: Vec<u64>, nanos: u32| {
        one_scope(
            "s",
            vec![Metric {
                name: "h".to_string(),
                description: String::new(),
                unit: String::new(),
                data: MetricData::Histogram(Histogram {
                    temporality: Temporality::Cumulative,
                    start_time: UnixTime { secs: 1, nanos },
                    time: at(2),
                    data_points: vec![HistogramDataPoint {
                        attributes: vec![],
                        count: 1,
                        sum: Number::U64(1),
                        min: None,
                        max: None,
                        bounds: vec![Number::U64(1), Number::U64(2)],
                        bucket_counts: counts,
                    }],
                }),
            }],
        )
    };
    assert!(is_encodable(&hist(vec![1, 2], 0)));
    assert!(is_encodable(&hist(vec![u64::MAX, 0], 0)));
    assert!(!is_encodable(&hist(vec![u64::MAX, 1], 0)));
    assert!(!is_encodable(&hist(vec![1, 2], 1_000_000_000)));
    assert!(is_encodable(&hist(vec![u64::MAX, 1, 5], 0)) == false);
}

#[test]
fn documents_have_openmetrics_line_structure() {
    let counter = Metric {
        name: "9 req/s".to_string(),
        description: "line\nbreak \\ and \"quotes\"".to_string(),
        unit: "By/s".to_string(),
        data: MetricData::Sum(Sum {
            is_monotonic: true,
            temporality: Temporality::Cumulative,
            time: UnixTime { secs: 3, nanos: 1 },
            data_points: vec![
                DataPoint { attributes: vec![KeyValue::new("a b", "x\ny"), KeyValue::new("9z", "\"")], value: Number::U64(1) },
                DataPoint { attributes: vec![], value: Number::U64(2) },
            ],
        }),
    };
    let rm = one_scope("scope one", vec![float_gauge(), counter]);
    let out = rm.to_openmetrics_string(EncodeOptions { scope_info: true, histogram_min_max: true });
    let lines: Vec<&str> = out.lines().collect();
    assert_eq!(*lines.last().unwrap(), "# EOF");
    assert!(out.ends_with('\n'));
    for line in &lines[..lines.len() - 1] {
        if line.starts_with('#') {
            assert!(
                line.starts_with("# TYPE ") || line.starts_with("# UNIT ") || line.starts_with("# HELP "),
                "bad metadata line: {line}"
            );
            continue;
        }
        let open = line.find('{').expect("sample line without labels");
        let name = &line[..open];
        assert!(!name.is_empty());
        assert!(name.chars().all(|c| c.is_ascii_alphanumeric() || c == ':' || c == '_'), "bad name: {name}");
        assert!(!name.starts_with(|c: char| c.is_ascii_digit()));
        let close = line.rfind("} ").expect("labels not closed");
        let rest: Vec<&str> = line[close + 2..].split(' ').collect();
        assert!(rest.len() == 1 || rest.len() == 2, "bad sample line: {line}");
    }
    assert!(out.contains("# TYPE _9_req_s_bytes_per_second counter\n"));
    assert!(out.contains("_9_req_s_bytes_per_second_total{_9z=\"\\\"\",a_b=\"x\\ny\",otel_scope_name=\"scope one\"} 1 3.000000001\n"));
}

#[test]
fn float_text_must_be_one_token() {
    let gauge = |text: &str| {
        one_scope(
            "s",
            vec![Metric {
                name: "g".to_string(),
                description: String::new(),
                unit: String::new(),
                data: MetricData::Gauge(Gauge {
                    time: at(1),
                    data_points: vec![DataPoint { attributes: vec![], value: Number::Float(text.to_string()) }],
                }),
            }],
        )
    };
    assert!(is_encodable(&gauge("4.25")));
    assert!(is_encodable(&gauge("-1e-7")));
    assert!(is_encodable(&gauge("NaN")));
    assert!(!is_encodable(&gauge("")));
    assert!(!is_encodable(&gauge("1\n# EOF")));
    assert!(!is_encodable(&gauge("1 2")));
    assert!(!is_encodable(&gauge("\"1\"")));
    assert!(!is_encodable(&gauge("}")));
}

#[test]
fn non_cumulative_data_is_skipped_in_documents() {
    let delta_sum = Metric {
        name: "d".to_string(),
        description: "never shown".to_string(),
        unit: "s".to_string(),
        data: MetricData::Sum(Sum {
            is_monotonic: true,
            temporality: Temporality::Delta,
            time: at(1),
            data_points: vec![DataPoint { attributes: vec![], value: Number::U64(1) }],
        }),
    };
    let delta_hist = Metric {
        name: "h".to_string(),
        description: String::new(),
        unit: String::new(),
        data: MetricData::Histogram(Histogram {
            temporality: Temporality::Delta,
            start_time: at(0),
            time: at(1),
            data_points: vec![],
        }),
    };
    let out = one_scope("s", vec![delta_sum, delta_hist]).to_openmetrics_string(plain());
    assert_eq!(out, "# EOF\n");
}

#[test]
fn literal_underscores_survive_in_documents() {
    let m = Metric {
        name: "http__requests._total".to_string(),
        description: String::new(),
        unit: String::new(),
        data: MetricData::Gauge(Gauge {
            time: at(1),
            data_points: vec![DataPoint { attributes: vec![KeyValue::new("__k", "v")], value: Number::U64(3) }],
        }),
    };
    let out = one_scope("s", vec![m]).to_openmetrics_string(plain());
    assert_eq!(out, "# TYPE http__requests_total gauge\nhttp__requests_total{__k=\"v\"} 3 1\n# EOF\n");
}
