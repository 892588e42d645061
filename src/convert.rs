use vstd::prelude::*;
use crate::attrs::{attrs_text, hash_attrs, order_key, write_attrs};
use crate::document::{
    body_text, bucket_count, bucket_lines, bucket_prefix, cumulative, document, header_text,
    histogram_point_order, histogram_point_text, histogram_point_wf, histogram_points_lines,
    histogram_text, histogram_values_wf, metric_data_wf, point_values_wf, metric_name, metric_order, metric_text, metric_type,
    metrics_lines, no_pairs, optional_line, point_order, points_text, sample_line, scope_info_line,
    scope_info_lines, scope_info_pairs, scope_info_text, scope_order, scope_pairs, scope_text,
    scopes_lines, value_lines,
};
use crate::model::{
    pairs_view, DataPoint, EncodeOptions, Gauge, Histogram, HistogramDataPoint, KeyValue, Metric,
    MetricData, ResourceMetrics, ScopeMetrics, Sum, Temporality,
};
use crate::numbers::{
    decimal, number_is_valid, number_text, number_wf, to_timestamp, u64_text, write_number, Number, UnixTime,
};
use crate::order::{as_ints, sort_order_text, sort_order_u64, strings_view};
use crate::text::{write_escaped, write_sanitized_name};
use crate::unit::{get_unit_suffixes, unit_suffix};

verus! {

/// The mime type of the text that the encoder produces.
pub const MIME_TYPE: &'static str = "application/openmetrics-text; version=1.0.0; charset=utf-8";

/// State of one encoding run: the output, the options, and scratch values that describe
/// the metric being written.
pub struct Context {
    /// The document written so far.
    pub out: String,
    pub options: EncodeOptions,
    /// The sanitized name of the current metric, with its unit suffix.
    pub name: String,
    /// The unit suffix of the current metric.
    pub unit: Option<String>,
    /// The OpenMetrics type word of the current metric.
    pub typ: &'static str,
    /// The name of the current scope.
    pub scope_name: String,
}

/// The parts of a context that stay the same while the body of a metric is written.
pub open spec fn same_metric(a: Context, b: Context) -> bool {
    &&& a.options == b.options
    &&& a.name == b.name
    &&& a.unit == b.unit
    &&& a.typ == b.typ
    &&& a.scope_name == b.scope_name
}

/// The scope pairs of the context's current scope.
pub open spec fn context_extra(ctx: Context) -> Seq<(Seq<char>, Seq<char>)> {
    scope_pairs(ctx.options, ctx.scope_name@)
}

impl Context {
    /// A context that appends to `f`.
    pub fn with_output(f: String, options: EncodeOptions) -> (r: Context)
        ensures
            r.out@ == f@,
            r.options == options,
            r.name@.len() == 0,
            r.unit is None,
            r.scope_name@.len() == 0,
            r.typ@.len() == 0,
    {
        proof {
            reveal_strlit("");
        }
        Context { out: f, options, name: String::new(), unit: None, typ: "", scope_name: String::new() }
    }
}

/// The OpenMetrics type word of `data`, or `Err(())` for data that is not encoded:
/// exponential histograms, and sums or histograms that are not cumulative.
pub fn get_type(data: &MetricData) -> (r: Result<&'static str, ()>)
    ensures
        match r {
            Ok(t) => metric_type(*data) == Some(t@),
            Err(_) => metric_type(*data) is None,
        },
{
    match data {
        MetricData::Gauge(_) => Ok("gauge"),
        MetricData::Sum(sum) => {
            if sum.temporality != Temporality::Cumulative {
                Err(())
            } else if sum.is_monotonic {
                Ok("counter")
            } else {
                Ok("gauge")
            }
        },
        MetricData::Histogram(hist) => {
            if hist.temporality == Temporality::Cumulative {
                Ok("histogram")
            } else {
                Err(())
            }
        },
        MetricData::ExponentialHistogram => Err(()),
    }
}

pub open spec fn opt_pairs(extra: Option<KeyValue>) -> Seq<(Seq<char>, Seq<char>)> {
    match extra {
        Some(kv) => seq![kv@],
        None => no_pairs(),
    }
}

/// The `otel_scope_name` attribute for `scope_name`, where scope information is enabled.
pub fn make_scope_name_attrs(options: EncodeOptions, scope_name: &str) -> (r: Option<KeyValue>)
    ensures
        opt_pairs(r) == scope_pairs(options, scope_name@),
{
    if options.scope_info {
        let kv = KeyValue::new("otel_scope_name", scope_name);
        assert(opt_pairs(Some(kv)) =~= scope_pairs(options, scope_name@));
        Some(kv)
    } else {
        None
    }
}

/// The attributes of a point followed by the optional scope attribute.
#[verifier::rlimit(60)]
fn with_extra(attrs: &Vec<KeyValue>, extra: &Option<KeyValue>) -> (r: Vec<KeyValue>)
    ensures
        pairs_view(r@) == pairs_view(attrs@) + opt_pairs(*extra),
{
    let mut r: Vec<KeyValue> = Vec::new();
    let mut i: usize = 0;
    while i < attrs.len()
        invariant
            i <= attrs@.len(),
            r@ == attrs@.take(i as int),
        decreases attrs@.len() - i,
    {
        r.push(attrs[i].duplicate());
        assert(r@ =~= attrs@.take(i + 1));
        i = i + 1;
    }
    assert(attrs@.take(i as int) =~= attrs@);
    let ghost base = r@;
    match extra {
        Some(kv) => {
            r.push(kv.duplicate());
            assert(pairs_view(r@) =~= pairs_view(base) + opt_pairs(*extra));
        },
        None => {
            assert(pairs_view(r@) =~= pairs_view(base) + opt_pairs(*extra));
        },
    }
    r
}

/// The label text of a point's attributes together with the scope attribute.
fn labels_of(attrs: &Vec<KeyValue>, extra: &Option<KeyValue>) -> (r: String)
    ensures
        r@ == attrs_text(pairs_view(attrs@) + opt_pairs(*extra)),
{
    let all = with_extra(attrs, extra);
    let mut r = String::new();
    write_attrs(&mut r, &all);
    assert(r@ =~= attrs_text(pairs_view(all@)));
    r
}

/// Appends one sample line to `f`.
fn write_line(f: &mut String, name: &str, suffix: &str, labels: &str, value: &str, ts: &str)
    ensures
        final(f)@ == old(f)@ + sample_line(name@, suffix@, labels@, value@, ts@),
{
    let ghost start = f@;
    f.append(name);
    f.append(suffix);
    f.append("{");
    f.append(labels);
    f.append("} ");
    f.append(value);
    f.append(" ");
    f.append(ts);
    f.append("\n");
    assert(f@ =~= start + sample_line(name@, suffix@, labels@, value@, ts@));
}

fn number_string(n: &Number) -> (r: String)
    ensures
        r@ == number_text(*n),
{
    let mut s = String::new();
    write_number(&mut s, n);
    assert(s@ =~= number_text(*n));
    s
}

/// The order in which the points are written: by the order key of their attributes.
#[verifier::rlimit(60)]
fn order_points(points: &Vec<DataPoint>) -> (r: Vec<usize>)
    ensures
        as_ints(r@) == point_order(points@),
        r@.len() == points@.len(),
        forall|k: int| 0 <= k < r@.len() ==> #[trigger] r@[k] < points@.len(),
{
    let ghost ks = points@.map_values(|p: DataPoint| order_key(p.attributes@));
    let mut keys: Vec<u64> = Vec::new();
    let mut i: usize = 0;
    while i < points.len()
        invariant
            i <= points@.len(),
            ks == points@.map_values(|p: DataPoint| order_key(p.attributes@)),
            keys@ == ks.take(i as int),
        decreases points@.len() - i,
    {
        keys.push(hash_attrs(&points[i].attributes));
        assert(keys@ =~= ks.take(i + 1));
        i = i + 1;
    }
    assert(keys@ =~= ks);
    sort_order_u64(&keys)
}

/// Writes the sample lines of a gauge's or sum's points, with `suffix` after the name.
#[verifier::rlimit(60)]
fn write_value_points(ctx: &mut Context, points: &Vec<DataPoint>, suffix: &str, time: UnixTime)
    requires
        time.wf(),
    ensures
        same_metric(*final(ctx), *old(ctx)),
        final(ctx).out@ == old(ctx).out@ + points_text(
            old(ctx).name@,
            suffix@,
            points@,
            context_extra(*old(ctx)),
            time,
        ),
{
    let ghost start = ctx.out@;
    let ghost ctx0 = *ctx;
    let extra = make_scope_name_attrs(ctx.options, ctx.scope_name.as_str());
    let ts = to_timestamp(time);
    let order = order_points(points);
    let ghost ord = point_order(points@);
    let mut k: usize = 0;
    while k < order.len()
        invariant
            k <= order@.len(),
            order@.len() == points@.len(),
            as_ints(order@) == ord,
            forall|q: int| 0 <= q < order@.len() ==> #[trigger] order@[q] < points@.len(),
            same_metric(*ctx, ctx0),
            opt_pairs(extra) == context_extra(ctx0),
            ctx.out@ == start + value_lines(
                ctx0.name@,
                suffix@,
                points@,
                ord,
                context_extra(ctx0),
                ts@,
                k as int,
            ),
        decreases order@.len() - k,
    {
        let point = &points[order[k]];
        let labels = labels_of(&point.attributes, &extra);
        let value = number_string(&point.value);
        write_line(&mut ctx.out, ctx.name.as_str(), suffix, labels.as_str(), value.as_str(), ts.as_str());
        assert(ord[k as int] == order@[k as int] as int);
        k = k + 1;
    }
}

/// Writes the sample lines of a gauge.
pub fn write_gauge(ctx: &mut Context, gauge: &Gauge)
    requires
        gauge.time.wf(),
    ensures
        same_metric(*final(ctx), *old(ctx)),
        final(ctx).out@ == old(ctx).out@ + points_text(
            old(ctx).name@,
            Seq::empty(),
            gauge.data_points@,
            context_extra(*old(ctx)),
            gauge.time,
        ),
{
    proof {
        reveal_strlit("");
        assert(""@ =~= Seq::<char>::empty());
    }
    write_value_points(ctx, &gauge.data_points, "", gauge.time);
}

/// Writes the sample lines of a cumulative sum: `_total` lines for a monotonic one, plain
/// lines for one that is not.
pub fn write_counter(ctx: &mut Context, sum: &Sum)
    requires
        sum.temporality == Temporality::Cumulative,
        sum.time.wf(),
    ensures
        same_metric(*final(ctx), *old(ctx)),
        final(ctx).out@ == old(ctx).out@ + points_text(
            old(ctx).name@,
            if sum.is_monotonic {
                "_total"@
            } else {
                Seq::empty()
            },
            sum.data_points@,
            context_extra(*old(ctx)),
            sum.time,
        ),
{
    if sum.is_monotonic {
        write_value_points(ctx, &sum.data_points, "_total", sum.time);
    } else {
        proof {
            reveal_strlit("");
            assert(""@ =~= Seq::<char>::empty());
        }
        write_value_points(ctx, &sum.data_points, "", sum.time);
    }
}

#[verifier::rlimit(60)]
fn order_histogram_points(points: &Vec<HistogramDataPoint>) -> (r: Vec<usize>)
    ensures
        as_ints(r@) == histogram_point_order(points@),
        r@.len() == points@.len(),
        forall|k: int| 0 <= k < r@.len() ==> #[trigger] r@[k] < points@.len(),
{
    let ghost ks = points@.map_values(|p: HistogramDataPoint| order_key(p.attributes@));
    let mut keys: Vec<u64> = Vec::new();
    let mut i: usize = 0;
    while i < points.len()
        invariant
            i <= points@.len(),
            ks == points@.map_values(|p: HistogramDataPoint| order_key(p.attributes@)),
            keys@ == ks.take(i as int),
        decreases points@.len() - i,
    {
        keys.push(hash_attrs(&points[i].attributes));
        assert(keys@ =~= ks.take(i + 1));
        i = i + 1;
    }
    assert(keys@ =~= ks);
    sort_order_u64(&keys)
}

proof fn lemma_cumulative_monotonic(counts: Seq<u64>, a: int, b: int)
    requires
        0 <= a <= b <= counts.len(),
    ensures
        cumulative(counts, a) <= cumulative(counts, b),
    decreases b - a,
{
    if a < b {
        lemma_cumulative_monotonic(counts, a, b - 1);
    }
}

fn write_optional(f: &mut String, name: &str, suffix: &str, labels: &str, value: &Option<Number>, ts: &str, enabled: bool)
    ensures
        final(f)@ == old(f)@ + optional_line(name@, suffix@, labels@, *value, ts@, enabled),
{
    let ghost start = f@;
    if enabled {
        if let Some(v) = value {
            let text = number_string(v);
            write_line(f, name, suffix, labels, text.as_str(), ts);
            return;
        }
    }
    assert(f@ =~= start + optional_line(name@, suffix@, labels@, *value, ts@, enabled));
}

#[verifier::rlimit(60)]
fn write_buckets(f: &mut String, name: &str, prefix: &str, bounds: &Vec<Number>, counts: &Vec<u64>, n: usize, ts: &str)
    requires
        n <= bounds@.len(),
        n <= counts@.len(),
        cumulative(counts@, n as int) <= u64::MAX,
    ensures
        final(f)@ == old(f)@ + bucket_lines(name@, prefix@, bounds@, counts@, ts@, n as int),
{
    let ghost start = f@;
    let mut cumulative_count: u64 = 0;
    let mut j: usize = 0;
    while j < n
        invariant
            j <= n,
            n <= bounds@.len(),
            n <= counts@.len(),
            cumulative(counts@, n as int) <= u64::MAX,
            cumulative_count == cumulative(counts@, j as int),
            f@ == start + bucket_lines(name@, prefix@, bounds@, counts@, ts@, j as int),
        decreases n - j,
    {
        proof {
            lemma_cumulative_monotonic(counts@, j + 1, n as int);
        }
        cumulative_count = cumulative_count + counts[j];
        let mut label = String::new();
        label.append(prefix);
        label.append("le=\"");
        let bound = number_string(&bounds[j]);
        label.append(bound.as_str());
        label.append("\"");
        let total = u64_text(cumulative_count);
        write_line(f, name, "_bucket", label.as_str(), total.as_str(), ts);
        assert(label@ =~= prefix@ + "le=\""@ + number_text(bounds@[j as int]) + "\""@);
        assert(f@ =~= start + bucket_lines(name@, prefix@, bounds@, counts@, ts@, j + 1));
        j = j + 1;
    }
}

/// Writes the lines of one histogram point.
#[verifier::rlimit(100)]
fn write_histogram_point(
    f: &mut String,
    name: &str,
    point: &HistogramDataPoint,
    extra: &Option<KeyValue>,
    ts: &str,
    options: EncodeOptions,
)
    requires
        histogram_point_wf(*point),
    ensures
        final(f)@ == old(f)@ + histogram_point_text(name@, *point, opt_pairs(*extra), ts@, options),
{
    let ghost start = f@;
    let labels = labels_of(&point.attributes, extra);
    let ghost lb = labels@;
    let count = u64_text(point.count);
    write_line(f, name, "_count", labels.as_str(), count.as_str(), ts);
    let ghost a = sample_line(name@, "_count"@, lb, decimal(point.count as nat), ts@);
    assert(f@ == start + a);
    let sum = number_string(&point.sum);
    write_line(f, name, "_sum", labels.as_str(), sum.as_str(), ts);
    let ghost b = sample_line(name@, "_sum"@, lb, number_text(point.sum), ts@);
    assert(f@ == start + a + b);
    write_optional(f, name, "_min", labels.as_str(), &point.min, ts, options.histogram_min_max);
    let ghost c = optional_line(name@, "_min"@, lb, point.min, ts@, options.histogram_min_max);
    assert(f@ == start + a + b + c);
    write_optional(f, name, "_max", labels.as_str(), &point.max, ts, options.histogram_min_max);
    let ghost d = optional_line(name@, "_max"@, lb, point.max, ts@, options.histogram_min_max);
    assert(f@ == start + a + b + c + d);
    let mut prefix = labels.clone();
    if !labels.as_str().is_empty() {
        prefix.append(",");
    }
    assert(prefix@ == bucket_prefix(lb));
    let n: usize = if point.bounds.len() < point.bucket_counts.len() {
        point.bounds.len()
    } else {
        point.bucket_counts.len()
    };
    write_buckets(f, name, prefix.as_str(), &point.bounds, &point.bucket_counts, n, ts);
    let ghost e = bucket_lines(name@, prefix@, point.bounds@, point.bucket_counts@, ts@, n as int);
    let mut last = prefix.clone();
    last.append("le=\"+Inf\"");
    write_line(f, name, "_bucket", last.as_str(), count.as_str(), ts);
    let ghost g = sample_line(name@, "_bucket"@, prefix@ + "le=\"+Inf\""@, decimal(point.count as nat), ts@);
    assert(f@ == start + a + b + c + d + e + g);
    assert(histogram_point_text(name@, *point, opt_pairs(*extra), ts@, options) == a + b + c + d + e + g);
    assert(start + a + b + c + d + e + g =~= start + (a + b + c + d + e + g));
}

/// Writes a cumulative histogram: its `_created` line, then the lines of each point.
#[verifier::rlimit(100)]
pub fn write_histogram(ctx: &mut Context, histogram: &Histogram)
    requires
        histogram.temporality == Temporality::Cumulative,
        histogram.time.wf(),
        histogram.start_time.wf(),
        forall|i: int| 0 <= i < histogram.data_points@.len() ==> histogram_point_wf(#[trigger] histogram.data_points@[i]),
    ensures
        same_metric(*final(ctx), *old(ctx)),
        final(ctx).out@ == old(ctx).out@ + histogram_text(old(ctx).name@, *histogram, context_extra(*old(ctx)), old(ctx).options),
{
    let ghost start = ctx.out@;
    let ghost ctx0 = *ctx;
    let extra = make_scope_name_attrs(ctx.options, ctx.scope_name.as_str());
    let ts = to_timestamp(histogram.time);
    let created = to_timestamp(histogram.start_time);
    let no_attrs: Vec<KeyValue> = Vec::new();
    let scope_labels = labels_of(&no_attrs, &extra);
    assert(pairs_view(no_attrs@) + opt_pairs(extra) =~= opt_pairs(extra));
    write_line(&mut ctx.out, ctx.name.as_str(), "_created", scope_labels.as_str(), created.as_str(), ts.as_str());
    let ghost after_created = ctx.out@;
    let points = &histogram.data_points;
    let order = order_histogram_points(points);
    let ghost ord = histogram_point_order(points@);
    let options = ctx.options;
    let mut k: usize = 0;
    while k < order.len()
        invariant
            k <= order@.len(),
            order@.len() == points@.len(),
            points == &histogram.data_points,
            as_ints(order@) == ord,
            forall|q: int| 0 <= q < order@.len() ==> #[trigger] order@[q] < points@.len(),
            forall|i: int| 0 <= i < points@.len() ==> histogram_point_wf(#[trigger] points@[i]),
            same_metric(*ctx, ctx0),
            options == ctx0.options,
            opt_pairs(extra) == context_extra(ctx0),
            ctx.out@ == after_created + histogram_points_lines(
                ctx0.name@,
                points@,
                ord,
                context_extra(ctx0),
                ts@,
                options,
                k as int,
            ),
        decreases order@.len() - k,
    {
        let point = &points[order[k]];
        assert(ord[k as int] == order@[k as int] as int);
        write_histogram_point(&mut ctx.out, ctx.name.as_str(), point, &extra, ts.as_str(), options);
        k = k + 1;
    }
    assert(ctx.out@ =~= start + histogram_text(ctx0.name@, *histogram, context_extra(ctx0), ctx0.options));
}

/// Writes the sample lines of a metric's data, which must be of a kind that is encoded.
pub fn write_values(ctx: &mut Context, data: &MetricData)
    requires
        metric_type(*data) is Some,
        metric_data_wf(*data),
    ensures
        same_metric(*final(ctx), *old(ctx)),
        final(ctx).out@ == old(ctx).out@ + body_text(old(ctx).name@, *data, context_extra(*old(ctx)), old(ctx).options),
{
    match data {
        MetricData::Gauge(gauge) => write_gauge(ctx, gauge),
        MetricData::Sum(sum) => write_counter(ctx, sum),
        MetricData::Histogram(histogram) => write_histogram(ctx, histogram),
        MetricData::ExponentialHistogram => {},
    }
}

pub open spec fn opt_string_view(o: Option<String>) -> Option<Seq<char>> {
    match o {
        Some(s) => Some(s@),
        None => None,
    }
}

/// Sets the context's type, unit and name for `metric`, and returns whether the metric is
/// encoded at all.
#[verifier::rlimit(60)]
pub fn extract_type_unit_and_name(ctx: &mut Context, metric: &Metric) -> (r: bool)
    ensures
        r == (metric_type(metric.data) is Some),
        r ==> metric_type(metric.data) == Some(final(ctx).typ@),
        r ==> final(ctx).name@ == metric_name(metric.name@, metric.unit@),
        r ==> opt_string_view(final(ctx).unit) == unit_suffix(metric.unit@),
        final(ctx).out == old(ctx).out,
        final(ctx).options == old(ctx).options,
        final(ctx).scope_name == old(ctx).scope_name,
        !r ==> final(ctx).name == old(ctx).name && final(ctx).typ == old(ctx).typ && final(ctx).unit
            == old(ctx).unit,
{
    let typ = match get_type(&metric.data) {
        Ok(t) => t,
        Err(_) => {
            return false;
        },
    };
    ctx.typ = typ;
    ctx.unit = get_unit_suffixes(metric.unit.as_str());
    let mut name = String::new();
    write_sanitized_name(&mut name, metric.name.as_str());
    if let Some(unit) = &ctx.unit {
        name.append("_");
        name.append(unit.as_str());
    }
    assert(name@ =~= metric_name(metric.name@, metric.unit@));
    ctx.name = name;
    true
}

/// Writes the current metric's `# TYPE`, `# UNIT` and `# HELP` lines.
#[verifier::rlimit(60)]
pub fn write_header(ctx: &mut Context, description: &str)
    ensures
        same_metric(*final(ctx), *old(ctx)),
        final(ctx).out@ == old(ctx).out@ + header_text(
            old(ctx).name@,
            old(ctx).typ@,
            opt_string_view(old(ctx).unit),
            description@,
        ),
{
    let ghost start = ctx.out@;
    let f = &mut ctx.out;
    f.append("# TYPE ");
    f.append(ctx.name.as_str());
    f.append(" ");
    f.append(ctx.typ);
    f.append("\n");
    let ghost after_type = f@;
    if let Some(unit) = &ctx.unit {
        f.append("# UNIT ");
        f.append(ctx.name.as_str());
        f.append(" ");
        f.append(unit.as_str());
        f.append("\n");
    }
    let ghost after_unit = f@;
    assert(after_unit =~= after_type + match opt_string_view(ctx.unit) {
        Some(u) => "# UNIT "@ + ctx.name@ + " "@ + u + "\n"@,
        None => Seq::<char>::empty(),
    });
    if !description.is_empty() {
        f.append("# HELP ");
        f.append(ctx.name.as_str());
        f.append(" ");
        write_escaped(f, description);
        f.append("\n");
    }
    assert(f@ =~= start + header_text(ctx.name@, ctx.typ@, opt_string_view(ctx.unit), description@));
}

/// Writes one metric: nothing for a metric that is not encoded, else its header and lines.
#[verifier::rlimit(60)]
fn write_metric(ctx: &mut Context, metric: &Metric)
    requires
        metric_data_wf(metric.data),
    ensures
        final(ctx).out@ == old(ctx).out@ + metric_text(*metric, context_extra(*old(ctx)), old(ctx).options),
        final(ctx).options == old(ctx).options,
        final(ctx).scope_name == old(ctx).scope_name,
{
    let ghost start = ctx.out@;
    if extract_type_unit_and_name(ctx, metric) {
        write_header(ctx, metric.description.as_str());
        write_values(ctx, &metric.data);
        assert(ctx.out@ =~= start + metric_text(*metric, context_extra(*old(ctx)), old(ctx).options));
    } else {
        assert(ctx.out@ =~= start + metric_text(*metric, context_extra(*old(ctx)), old(ctx).options));
    }
}

/// Writes the metrics of one scope, sorted by name.
#[verifier::rlimit(100)]
fn write_scope(ctx: &mut Context, sm: &ScopeMetrics)
    requires
        forall|j: int| 0 <= j < sm.metrics@.len() ==> metric_data_wf(#[trigger] sm.metrics@[j].data),
    ensures
        final(ctx).out@ == old(ctx).out@ + scope_text(*sm, old(ctx).options),
        final(ctx).options == old(ctx).options,
{
    let ghost start = ctx.out@;
    ctx.scope_name = sm.scope.name.clone();
    let metrics = &sm.metrics;
    let mut names: Vec<String> = Vec::new();
    let ghost ks = metrics@.map_values(|m: Metric| m.name@);
    let mut i: usize = 0;
    while i < metrics.len()
        invariant
            i <= metrics@.len(),
            names@.len() == i,
            ks == metrics@.map_values(|m: Metric| m.name@),
            strings_view(names@) == ks.take(i as int),
        decreases metrics@.len() - i,
    {
        let ghost prev = names@;
        names.push(metrics[i].name.clone());
        assert forall|q: int| 0 <= q < i + 1 implies #[trigger] strings_view(names@)[q] == ks.take(i + 1)[q] by {
            if q < i {
                assert(names@[q] == prev[q]);
                assert(strings_view(prev)[q] == ks.take(i as int)[q]);
            }
        }
        assert(strings_view(names@) =~= ks.take(i + 1));
        i = i + 1;
    }
    assert(strings_view(names@) =~= ks);
    let order = sort_order_text(&names);
    let ghost ord = metric_order(metrics@);
    let ghost extra = scope_pairs(ctx.options, sm.scope.name@);
    let mut k: usize = 0;
    while k < order.len()
        invariant
            k <= order@.len(),
            order@.len() == metrics@.len(),
            metrics == &sm.metrics,
            as_ints(order@) == ord,
            forall|q: int| 0 <= q < order@.len() ==> #[trigger] order@[q] < metrics@.len(),
            forall|j: int| 0 <= j < metrics@.len() ==> metric_data_wf(#[trigger] metrics@[j].data),
            ctx.options == old(ctx).options,
            ctx.scope_name@ == sm.scope.name@,
            extra == context_extra(*ctx),
            ctx.out@ == start + metrics_lines(metrics@, ord, extra, ctx.options, k as int),
        decreases order@.len() - k,
    {
        let metric = &metrics[order[k]];
        assert(ord[k as int] == order@[k as int] as int);
        write_metric(ctx, metric);
        k = k + 1;
    }
}

/// The order of the scopes: by scope name.
#[verifier::rlimit(60)]
fn order_scopes(scopes: &Vec<ScopeMetrics>) -> (r: Vec<usize>)
    ensures
        as_ints(r@) == scope_order(scopes@),
        r@.len() == scopes@.len(),
        forall|k: int| 0 <= k < r@.len() ==> #[trigger] r@[k] < scopes@.len(),
{
    let mut names: Vec<String> = Vec::new();
    let ghost ks = scopes@.map_values(|s: ScopeMetrics| s.scope.name@);
    let mut i: usize = 0;
    while i < scopes.len()
        invariant
            i <= scopes@.len(),
            names@.len() == i,
            ks == scopes@.map_values(|s: ScopeMetrics| s.scope.name@),
            strings_view(names@) == ks.take(i as int),
        decreases scopes@.len() - i,
    {
        let ghost prev = names@;
        names.push(scopes[i].scope.name.clone());
        assert forall|q: int| 0 <= q < i + 1 implies #[trigger] strings_view(names@)[q] == ks.take(i + 1)[q] by {
            if q < i {
                assert(names@[q] == prev[q]);
                assert(strings_view(prev)[q] == ks.take(i as int)[q]);
            }
        }
        assert(strings_view(names@) =~= ks.take(i + 1));
        i = i + 1;
    }
    assert(strings_view(names@) =~= ks);
    sort_order_text(&names)
}

/// Writes the `otel_scope` info metric for the scopes, in the given order.
#[verifier::rlimit(100)]
fn write_otel_scope_info(f: &mut String, scopes: &Vec<ScopeMetrics>, order: &Vec<usize>)
    requires
        as_ints(order@) == scope_order(scopes@),
        order@.len() == scopes@.len(),
        forall|k: int| 0 <= k < order@.len() ==> #[trigger] order@[k] < scopes@.len(),
    ensures
        final(f)@ == old(f)@ + scope_info_text(scopes@),
{
    let ghost start = f@;
    f.append("# TYPE otel_scope info\n");
    let ghost head = f@;
    let ghost ord = scope_order(scopes@);
    let mut k: usize = 0;
    while k < order.len()
        invariant
            k <= order@.len(),
            order@.len() == scopes@.len(),
            as_ints(order@) == ord,
            forall|q: int| 0 <= q < order@.len() ==> #[trigger] order@[q] < scopes@.len(),
            f@ == head + scope_info_lines(scopes@, ord, k as int),
        decreases order@.len() - k,
    {
        let scope = &scopes[order[k]].scope;
        assert(ord[k as int] == order@[k as int] as int);
        let mut attrs: Vec<KeyValue> = Vec::new();
        attrs.push(KeyValue::new("otel_scope_name", scope.name.as_str()));
        let version = match &scope.version {
            Some(v) => KeyValue::new("otel_scope_version", v.as_str()),
            None => KeyValue::new("otel_scope_version", ""),
        };
        proof {
            reveal_strlit("");
            assert(version@ == scope_info_pairs(*scope)[1]);
        }
        attrs.push(version);
        assert(pairs_view(attrs@) =~= scope_info_pairs(*scope).take(2));
        let mut i: usize = 0;
        while i < scope.attributes.len()
            invariant
                i <= scope.attributes@.len(),
                attrs@.len() == i + 2,
                pairs_view(attrs@) == scope_info_pairs(*scope).take(i + 2),
            decreases scope.attributes@.len() - i,
        {
            attrs.push(scope.attributes[i].duplicate());
            assert(pairs_view(attrs@) =~= scope_info_pairs(*scope).take(i + 3));
            i = i + 1;
        }
        assert(scope_info_pairs(*scope).take(i + 2) =~= scope_info_pairs(*scope));
        let ghost before = f@;
        f.append("otel_scope_info{");
        write_attrs(f, &attrs);
        f.append("} 1\n");
        assert(f@ =~= before + scope_info_line(*scope));
        k = k + 1;
    }
    assert(f@ =~= start + scope_info_text(scopes@));
}

/// Writes the whole document for `metrics` into the context.
#[verifier::rlimit(100)]
fn write_document(ctx: &mut Context, metrics: &ResourceMetrics)
    requires
        metrics.wf(),
    ensures
        final(ctx).out@ == old(ctx).out@ + document(*metrics, old(ctx).options),
{
    let ghost start = ctx.out@;
    let scopes = &metrics.scope_metrics;
    let order = order_scopes(scopes);
    if ctx.options.scope_info {
        write_otel_scope_info(&mut ctx.out, scopes, &order);
    }
    let ghost head = ctx.out@;
    assert(head == start + (if ctx.options.scope_info {
        scope_info_text(scopes@)
    } else {
        Seq::<char>::empty()
    })) by {
        if !ctx.options.scope_info {
            assert(head =~= start + Seq::<char>::empty());
        }
    }
    let ghost ord = scope_order(scopes@);
    let ghost options = ctx.options;
    let mut k: usize = 0;
    while k < order.len()
        invariant
            k <= order@.len(),
            order@.len() == scopes@.len(),
            scopes == &metrics.scope_metrics,
            metrics.wf(),
            as_ints(order@) == ord,
            forall|q: int| 0 <= q < order@.len() ==> #[trigger] order@[q] < scopes@.len(),
            ctx.options == options,
            ctx.out@ == head + scopes_lines(scopes@, ord, options, k as int),
        decreases order@.len() - k,
    {
        let sm = &scopes[order[k]];
        assert(ord[k as int] == order@[k as int] as int);
        assert forall|j: int| 0 <= j < sm.metrics@.len() implies metric_data_wf(#[trigger] sm.metrics@[j].data) by {
            assert(metric_data_wf(metrics.scope_metrics@[order@[k as int] as int].metrics@[j].data));
        }
        write_scope(ctx, sm);
        k = k + 1;
    }
    ctx.out.append("# EOF\n");
    assert(ctx.out@ =~= start + document(*metrics, options));
}

/// Encoding of a metrics snapshot as an OpenMetrics text document.
pub trait WriteOpenMetrics {
    /// The document for `self` under `options`.
    spec fn openmetrics_text(&self, options: EncodeOptions) -> Seq<char>;

    /// Whether `self` can be encoded: its times are valid and its bucket totals fit.
    spec fn encodable(&self) -> bool;

    /// Appends the document for `self` to `f`.
    fn write_as_openmetrics(&self, options: EncodeOptions, f: &mut String)
        requires
            self.encodable(),
        ensures
            final(f)@ == old(f)@ + self.openmetrics_text(options),
    ;

    /// The document for `self` as a new string.
    fn to_openmetrics_string(&self, options: EncodeOptions) -> (r: String)
        requires
            self.encodable(),
        ensures
            r@ == self.openmetrics_text(options),
    ;
}

impl WriteOpenMetrics for ResourceMetrics {
    open spec fn openmetrics_text(&self, options: EncodeOptions) -> Seq<char> {
        document(*self, options)
    }

    open spec fn encodable(&self) -> bool {
        self.wf()
    }

    fn write_as_openmetrics(&self, options: EncodeOptions, f: &mut String) {
        let mut ctx = Context::with_output(String::new(), options);
        write_document(&mut ctx, self);
        f.append(ctx.out.as_str());
        assert(ctx.out@ =~= document(*self, options));
    }

    fn to_openmetrics_string(&self, options: EncodeOptions) -> (r: String) {
        let mut ctx = Context::with_output(String::new(), options);
        write_document(&mut ctx, self);
        assert(ctx.out@ =~= document(*self, options));
        ctx.out
    }
}

/// Encoding the same snapshot twice with the same options, without changing it in
/// between, gives byte-identical text.
pub proof fn lemma_encoding_is_repeatable(
    rm: ResourceMetrics,
    options: EncodeOptions,
    first: Seq<char>,
    second: Seq<char>,
)
    requires
        first == rm.openmetrics_text(options),
        second == rm.openmetrics_text(options),
    ensures
        first == second,
{
}

fn time_is_valid(t: UnixTime) -> (r: bool)
    ensures
        r == t.wf(),
{
    t.nanos < 1_000_000_000
}

/// Whether the running bucket totals of `point` fit in 64 bits.
fn buckets_fit(point: &HistogramDataPoint) -> (r: bool)
    ensures
        r == histogram_point_wf(*point),
{
    let counts = &point.bucket_counts;
    let n: usize = if point.bounds.len() < counts.len() {
        point.bounds.len()
    } else {
        counts.len()
    };
    let mut total: u64 = 0;
    let mut j: usize = 0;
    while j < n
        invariant
            j <= n,
            n == bucket_count(*point),
            n <= counts@.len(),
            counts == &point.bucket_counts,
            total == cumulative(counts@, j as int),
        decreases n - j,
    {
        if counts[j] > u64::MAX - total {
            proof {
                lemma_cumulative_monotonic(counts@, j + 1, n as int);
            }
            return false;
        }
        total = total + counts[j];
        j = j + 1;
    }
    true
}

fn point_values_are_valid(points: &Vec<DataPoint>) -> (r: bool)
    ensures
        r == point_values_wf(points@),
{
    let mut i: usize = 0;
    while i < points.len()
        invariant
            i <= points@.len(),
            forall|q: int| 0 <= q < i ==> number_wf(#[trigger] points@[q].value),
        decreases points@.len() - i,
    {
        if !number_is_valid(&points[i].value) {
            return false;
        }
        i = i + 1;
    }
    true
}

fn histogram_values_are_valid(point: &HistogramDataPoint) -> (r: bool)
    ensures
        r == histogram_values_wf(*point),
{
    if !number_is_valid(&point.sum) {
        return false;
    }
    if let Some(v) = &point.min {
        if !number_is_valid(v) {
            return false;
        }
    }
    if let Some(v) = &point.max {
        if !number_is_valid(v) {
            return false;
        }
    }
    let mut j: usize = 0;
    while j < point.bounds.len()
        invariant
            j <= point.bounds@.len(),
            forall|q: int| 0 <= q < j ==> number_wf(#[trigger] point.bounds@[q]),
        decreases point.bounds@.len() - j,
    {
        if !number_is_valid(&point.bounds[j]) {
            return false;
        }
        j = j + 1;
    }
    true
}

fn data_is_encodable(data: &MetricData) -> (r: bool)
    ensures
        r == metric_data_wf(*data),
{
    match data {
        MetricData::Gauge(g) => time_is_valid(g.time) && point_values_are_valid(&g.data_points),
        MetricData::Sum(s) => time_is_valid(s.time) && point_values_are_valid(&s.data_points),
        MetricData::Histogram(h) => {
            if !time_is_valid(h.time) || !time_is_valid(h.start_time) {
                return false;
            }
            let mut i: usize = 0;
            while i < h.data_points.len()
                invariant
                    i <= h.data_points@.len(),
                    *data == MetricData::Histogram(*h),
                    h.time.wf() && h.start_time.wf(),
                    forall|q: int|
                        0 <= q < i ==> histogram_point_wf(#[trigger] h.data_points@[q])
                            && histogram_values_wf(h.data_points@[q]),
                decreases h.data_points@.len() - i,
            {
                if !buckets_fit(&h.data_points[i]) || !histogram_values_are_valid(&h.data_points[i]) {
                    assert(!(histogram_point_wf(h.data_points@[i as int]) && histogram_values_wf(
                        h.data_points@[i as int],
                    )));
                    return false;
                }
                i = i + 1;
            }
            true
        },
        MetricData::ExponentialHistogram => true,
    }
}

/// Whether `metrics` can be encoded: its times have valid nanoseconds and the running
/// bucket totals of its histograms fit in 64 bits.
pub fn is_encodable(metrics: &ResourceMetrics) -> (r: bool)
    ensures
        r == metrics.wf(),
{
    let scopes = &metrics.scope_metrics;
    let mut i: usize = 0;
    while i < scopes.len()
        invariant
            i <= scopes@.len(),
            scopes == &metrics.scope_metrics,
            forall|a: int, b: int|
                0 <= a < i && 0 <= b < scopes@[a].metrics@.len() ==> metric_data_wf(#[trigger] scopes@[a].metrics@[b].data),
        decreases scopes@.len() - i,
    {
        let ms = &scopes[i].metrics;
        let mut j: usize = 0;
        while j < ms.len()
            invariant
                i < scopes@.len(),
                j <= ms@.len(),
                scopes == &metrics.scope_metrics,
                ms == &scopes@[i as int].metrics,
                forall|a: int, b: int|
                    0 <= a < i && 0 <= b < scopes@[a].metrics@.len() ==> metric_data_wf(#[trigger] scopes@[a].metrics@[b].data),
                forall|b: int| 0 <= b < j ==> metric_data_wf(#[trigger] ms@[b].data),
            decreases ms@.len() - j,
        {
            if !data_is_encodable(&ms[j].data) {
                return false;
            }
            j = j + 1;
        }
        i = i + 1;
    }
    true
}

} // verus!
