use vstd::prelude::*;
use crate::attrs::{attrs_text, order_key};
use crate::model::{
    pairs_view, DataPoint, EncodeOptions, Histogram, HistogramDataPoint, KeyValue, Metric, MetricData,
    ResourceMetrics, Scope, ScopeMetrics, Temporality,
};
use crate::numbers::{decimal, number_text, number_wf, timestamp_text, UnixTime};
use crate::order::{sorted_indices, text_order, u64_less};
use crate::text::{escaped, sanitized};
use crate::unit::unit_suffix;

verus! {

pub open spec fn no_pairs() -> Seq<(Seq<char>, Seq<char>)> {
    Seq::empty()
}

/// The synthetic `otel_scope_name` pair that every series of a scope carries when scope
/// information is enabled.
pub open spec fn scope_pairs(options: EncodeOptions, scope_name: Seq<char>) -> Seq<(Seq<char>, Seq<char>)> {
    if options.scope_info {
        seq![("otel_scope_name"@, scope_name)]
    } else {
        no_pairs()
    }
}

/// One sample line: `<name><suffix>{<labels>} <value> <timestamp>`.
pub open spec fn sample_line(
    name: Seq<char>,
    suffix: Seq<char>,
    labels: Seq<char>,
    value: Seq<char>,
    ts: Seq<char>,
) -> Seq<char> {
    name + suffix + "{"@ + labels + "} "@ + value + " "@ + ts + "\n"@
}

/// The OpenMetrics type word of a metric, or `None` for a metric that is skipped.
pub open spec fn metric_type(data: MetricData) -> Option<Seq<char>> {
    match data {
        MetricData::Gauge(_) => Some("gauge"@),
        MetricData::Sum(s) => if s.temporality != Temporality::Cumulative {
            None
        } else if s.is_monotonic {
            Some("counter"@)
        } else {
            Some("gauge"@)
        },
        MetricData::Histogram(h) => if h.temporality == Temporality::Cumulative {
            Some("histogram"@)
        } else {
            None
        },
        MetricData::ExponentialHistogram => None,
    }
}

/// The sanitized metric name with `_<unit>` appended where the unit has a suffix.
pub open spec fn metric_name(name: Seq<char>, unit: Seq<char>) -> Seq<char> {
    match unit_suffix(unit) {
        Some(u) => sanitized(name) + "_"@ + u,
        None => sanitized(name),
    }
}

/// The `# TYPE`, `# UNIT` and `# HELP` lines of a metric.
pub open spec fn header_text(
    name: Seq<char>,
    typ: Seq<char>,
    unit: Option<Seq<char>>,
    description: Seq<char>,
) -> Seq<char> {
    "# TYPE "@ + name + " "@ + typ + "\n"@ + match unit {
        Some(u) => "# UNIT "@ + name + " "@ + u + "\n"@,
        None => Seq::empty(),
    } + if description.len() == 0 {
        Seq::empty()
    } else {
        "# HELP "@ + name + " "@ + escaped(description) + "\n"@
    }
}

/// The label text of a point: its own attributes and the scope's synthetic ones, sorted.
pub open spec fn point_labels(attributes: Seq<KeyValue>, extra: Seq<(Seq<char>, Seq<char>)>) -> Seq<char> {
    attrs_text(pairs_view(attributes) + extra)
}

/// The order in which the points of a gauge or sum are written.
pub open spec fn point_order(points: Seq<DataPoint>) -> Seq<int> {
    sorted_indices(points.map_values(|p: DataPoint| order_key(p.attributes@)), u64_less())
}

pub open spec fn histogram_point_order(points: Seq<HistogramDataPoint>) -> Seq<int> {
    sorted_indices(points.map_values(|p: HistogramDataPoint| order_key(p.attributes@)), u64_less())
}

/// The sample lines of the first `k` points in `order`.
pub open spec fn value_lines(
    name: Seq<char>,
    suffix: Seq<char>,
    points: Seq<DataPoint>,
    order: Seq<int>,
    extra: Seq<(Seq<char>, Seq<char>)>,
    ts: Seq<char>,
    k: int,
) -> Seq<char>
    decreases k,
{
    if k <= 0 {
        Seq::empty()
    } else {
        let p = points[order[k - 1]];
        value_lines(name, suffix, points, order, extra, ts, k - 1) + sample_line(
            name,
            suffix,
            point_labels(p.attributes@, extra),
            number_text(p.value),
            ts,
        )
    }
}

/// The sample lines of all points, in order of their attributes' order key.
pub open spec fn points_text(
    name: Seq<char>,
    suffix: Seq<char>,
    points: Seq<DataPoint>,
    extra: Seq<(Seq<char>, Seq<char>)>,
    time: UnixTime,
) -> Seq<char> {
    value_lines(name, suffix, points, point_order(points), extra, timestamp_text(time), points.len() as int)
}

/// The sum of the first `j` bucket counts.
pub open spec fn cumulative(counts: Seq<u64>, j: int) -> nat
    decreases j,
{
    if j <= 0 {
        0
    } else {
        cumulative(counts, j - 1) + counts[j - 1] as nat
    }
}

pub open spec fn bucket_count(p: HistogramDataPoint) -> int {
    if p.bounds@.len() < p.bucket_counts@.len() {
        p.bounds@.len() as int
    } else {
        p.bucket_counts@.len() as int
    }
}

/// The labels of a point followed by a comma when there are any.
pub open spec fn bucket_prefix(labels: Seq<char>) -> Seq<char> {
    if labels.len() == 0 {
        labels
    } else {
        labels + ","@
    }
}

/// The `_bucket` lines of the first `j` bounds, each with the running total of counts.
pub open spec fn bucket_lines(
    name: Seq<char>,
    prefix: Seq<char>,
    bounds: Seq<crate::numbers::Number>,
    counts: Seq<u64>,
    ts: Seq<char>,
    j: int,
) -> Seq<char>
    decreases j,
{
    if j <= 0 {
        Seq::empty()
    } else {
        bucket_lines(name, prefix, bounds, counts, ts, j - 1) + sample_line(
            name,
            "_bucket"@,
            prefix + "le=\""@ + number_text(bounds[j - 1]) + "\""@,
            decimal(cumulative(counts, j)),
            ts,
        )
    }
}

pub open spec fn optional_line(
    name: Seq<char>,
    suffix: Seq<char>,
    labels: Seq<char>,
    value: Option<crate::numbers::Number>,
    ts: Seq<char>,
    enabled: bool,
) -> Seq<char> {
    match value {
        Some(v) => if enabled {
            sample_line(name, suffix, labels, number_text(v), ts)
        } else {
            Seq::empty()
        },
        None => Seq::empty(),
    }
}

/// The lines of one histogram point: count, sum, optional min and max, the cumulative
/// buckets and the `+Inf` bucket, which holds the point's count.
pub open spec fn histogram_point_text(
    name: Seq<char>,
    p: HistogramDataPoint,
    extra: Seq<(Seq<char>, Seq<char>)>,
    ts: Seq<char>,
    options: EncodeOptions,
) -> Seq<char> {
    let labels = point_labels(p.attributes@, extra);
    let prefix = bucket_prefix(labels);
    sample_line(name, "_count"@, labels, decimal(p.count as nat), ts)
        + sample_line(name, "_sum"@, labels, number_text(p.sum), ts)
        + optional_line(name, "_min"@, labels, p.min, ts, options.histogram_min_max)
        + optional_line(name, "_max"@, labels, p.max, ts, options.histogram_min_max)
        + bucket_lines(name, prefix, p.bounds@, p.bucket_counts@, ts, bucket_count(p))
        + sample_line(name, "_bucket"@, prefix + "le=\"+Inf\""@, decimal(p.count as nat), ts)
}

pub open spec fn histogram_points_lines(
    name: Seq<char>,
    points: Seq<HistogramDataPoint>,
    order: Seq<int>,
    extra: Seq<(Seq<char>, Seq<char>)>,
    ts: Seq<char>,
    options: EncodeOptions,
    k: int,
) -> Seq<char>
    decreases k,
{
    if k <= 0 {
        Seq::empty()
    } else {
        histogram_points_lines(name, points, order, extra, ts, options, k - 1)
            + histogram_point_text(name, points[order[k - 1]], extra, ts, options)
    }
}

/// A histogram's body: one `_created` line, then the lines of each point.
pub open spec fn histogram_text(
    name: Seq<char>,
    h: Histogram,
    extra: Seq<(Seq<char>, Seq<char>)>,
    options: EncodeOptions,
) -> Seq<char> {
    let ts = timestamp_text(h.time);
    sample_line(name, "_created"@, attrs_text(extra), timestamp_text(h.start_time), ts)
        + histogram_points_lines(
        name,
        h.data_points@,
        histogram_point_order(h.data_points@),
        extra,
        ts,
        options,
        h.data_points@.len() as int,
    )
}

/// The sample lines of a metric.
pub open spec fn body_text(
    name: Seq<char>,
    data: MetricData,
    extra: Seq<(Seq<char>, Seq<char>)>,
    options: EncodeOptions,
) -> Seq<char> {
    match data {
        MetricData::Gauge(g) => points_text(name, Seq::empty(), g.data_points@, extra, g.time),
        MetricData::Sum(s) => points_text(
            name,
            if s.is_monotonic {
                "_total"@
            } else {
                Seq::empty()
            },
            s.data_points@,
            extra,
            s.time,
        ),
        MetricData::Histogram(h) => histogram_text(name, h, extra, options),
        MetricData::ExponentialHistogram => Seq::empty(),
    }
}

/// What a metric contributes to the document: nothing when it is skipped, else its
/// header and its sample lines.
pub open spec fn metric_text(m: Metric, extra: Seq<(Seq<char>, Seq<char>)>, options: EncodeOptions) -> Seq<char> {
    match metric_type(m.data) {
        None => Seq::empty(),
        Some(typ) => {
            let name = metric_name(m.name@, m.unit@);
            header_text(name, typ, unit_suffix(m.unit@), m.description@) + body_text(
                name,
                m.data,
                extra,
                options,
            )
        },
    }
}

pub open spec fn metric_order(metrics: Seq<Metric>) -> Seq<int> {
    sorted_indices(metrics.map_values(|m: Metric| m.name@), text_order())
}

pub open spec fn metrics_lines(
    metrics: Seq<Metric>,
    order: Seq<int>,
    extra: Seq<(Seq<char>, Seq<char>)>,
    options: EncodeOptions,
    k: int,
) -> Seq<char>
    decreases k,
{
    if k <= 0 {
        Seq::empty()
    } else {
        metrics_lines(metrics, order, extra, options, k - 1) + metric_text(metrics[order[k - 1]], extra, options)
    }
}

/// The metrics of a scope, sorted by name.
pub open spec fn scope_text(sm: ScopeMetrics, options: EncodeOptions) -> Seq<char> {
    metrics_lines(
        sm.metrics@,
        metric_order(sm.metrics@),
        scope_pairs(options, sm.scope.name@),
        options,
        sm.metrics@.len() as int,
    )
}

pub open spec fn scope_order(scopes: Seq<ScopeMetrics>) -> Seq<int> {
    sorted_indices(scopes.map_values(|s: ScopeMetrics| s.scope.name@), text_order())
}

pub open spec fn scopes_lines(scopes: Seq<ScopeMetrics>, order: Seq<int>, options: EncodeOptions, k: int) -> Seq<char>
    decreases k,
{
    if k <= 0 {
        Seq::empty()
    } else {
        scopes_lines(scopes, order, options, k - 1) + scope_text(scopes[order[k - 1]], options)
    }
}

/// The attributes of a scope's `otel_scope_info` line.
pub open spec fn scope_info_pairs(s: Scope) -> Seq<(Seq<char>, Seq<char>)> {
    seq![
        ("otel_scope_name"@, s.name@),
        ("otel_scope_version"@, match s.version {
            Some(v) => v@,
            None => Seq::empty(),
        }),
    ] + pairs_view(s.attributes@)
}

pub open spec fn scope_info_line(s: Scope) -> Seq<char> {
    "otel_scope_info{"@ + attrs_text(scope_info_pairs(s)) + "} 1\n"@
}

pub open spec fn scope_info_lines(scopes: Seq<ScopeMetrics>, order: Seq<int>, k: int) -> Seq<char>
    decreases k,
{
    if k <= 0 {
        Seq::empty()
    } else {
        scope_info_lines(scopes, order, k - 1) + scope_info_line(scopes[order[k - 1]].scope)
    }
}

/// The `otel_scope` info metric: one line per scope, sorted by scope name.
pub open spec fn scope_info_text(scopes: Seq<ScopeMetrics>) -> Seq<char> {
    "# TYPE otel_scope info\n"@ + scope_info_lines(scopes, scope_order(scopes), scopes.len() as int)
}

/// The whole OpenMetrics document for a snapshot.
pub open spec fn document(rm: ResourceMetrics, options: EncodeOptions) -> Seq<char> {
    let scopes = rm.scope_metrics@;
    (if options.scope_info {
        scope_info_text(scopes)
    } else {
        Seq::empty()
    }) + scopes_lines(scopes, scope_order(scopes), options, scopes.len() as int) + "# EOF\n"@
}

/// The histogram points' running bucket totals fit in 64 bits.
pub open spec fn histogram_point_wf(p: HistogramDataPoint) -> bool {
    cumulative(p.bucket_counts@, bucket_count(p)) <= u64::MAX
}

/// Every value of the points is a single token.
pub open spec fn point_values_wf(points: Seq<DataPoint>) -> bool {
    forall|i: int| 0 <= i < points.len() ==> number_wf(#[trigger] points[i].value)
}

/// The sum, minimum, maximum and bounds of a histogram point are single tokens.
pub open spec fn histogram_values_wf(p: HistogramDataPoint) -> bool {
    &&& number_wf(p.sum)
    &&& (p.min matches Some(v) ==> number_wf(v))
    &&& (p.max matches Some(v) ==> number_wf(v))
    &&& forall|j: int| 0 <= j < p.bounds@.len() ==> number_wf(#[trigger] p.bounds@[j])
}

/// The times of a metric's data have valid nanoseconds, its values are single tokens,
/// and its bucket totals fit in 64 bits.
pub open spec fn metric_data_wf(data: MetricData) -> bool {
    match data {
        MetricData::Gauge(g) => g.time.wf() && point_values_wf(g.data_points@),
        MetricData::Sum(s) => s.time.wf() && point_values_wf(s.data_points@),
        MetricData::Histogram(h) => h.time.wf() && h.start_time.wf() && forall|i: int|
            0 <= i < h.data_points@.len() ==> histogram_point_wf(#[trigger] h.data_points@[i])
                && histogram_values_wf(h.data_points@[i]),
        MetricData::ExponentialHistogram => true,
    }
}

impl ResourceMetrics {
    pub open spec fn wf(&self) -> bool {
        forall|i: int, j: int|
            0 <= i < self.scope_metrics@.len() && 0 <= j < self.scope_metrics@[i].metrics@.len()
                ==> metric_data_wf(#[trigger] self.scope_metrics@[i].metrics@[j].data)
    }
}

/// Every document ends with the `# EOF` line, whatever the snapshot and options.
pub proof fn lemma_document_ends_with_eof(rm: ResourceMetrics, options: EncodeOptions)
    ensures
        ({
            let d = document(rm, options);
            d.len() >= 6 && d.skip(d.len() - 6) == "# EOF\n"@
        }),
{
    reveal_strlit("# EOF\n");
    let d = document(rm, options);
    let scopes = rm.scope_metrics@;
    let body = (if options.scope_info {
        scope_info_text(scopes)
    } else {
        Seq::empty()
    }) + scopes_lines(scopes, scope_order(scopes), options, scopes.len() as int);
    assert(d == body + "# EOF\n"@);
    assert(d.skip(d.len() - 6) =~= "# EOF\n"@);
}

} // verus!
