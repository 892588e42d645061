use vstd::prelude::*;
use crate::numbers::{Number, UnixTime};

verus! {

/// One attribute: a key and the text of its value.
#[derive(Debug)]
pub struct KeyValue {
    pub key: String,
    pub value: String,
}

impl View for KeyValue {
    type V = (Seq<char>, Seq<char>);

    open spec fn view(&self) -> (Seq<char>, Seq<char>) {
        (self.key@, self.value@)
    }
}

/// The key and value texts of each attribute.
pub open spec fn pairs_view(v: Seq<KeyValue>) -> Seq<(Seq<char>, Seq<char>)> {
    v.map_values(|kv: KeyValue| kv@)
}

impl KeyValue {
    pub fn new(key: &str, value: &str) -> (r: KeyValue)
        ensures
            r.key@ == key@,
            r.value@ == value@,
    {
        KeyValue { key: key.to_owned(), value: value.to_owned() }
    }

    pub fn duplicate(&self) -> (r: KeyValue)
        ensures
            r == *self,
    {
        KeyValue { key: self.key.clone(), value: self.value.clone() }
    }
}

/// How the points of a sum or histogram accumulate over time.
#[derive(Clone, Copy, Debug, PartialEq, Eq, Structural)]
pub enum Temporality {
    Cumulative,
    Delta,
    LowMemory,
}

/// One sample of a gauge or sum.
#[derive(Debug)]
pub struct DataPoint {
    pub attributes: Vec<KeyValue>,
    pub value: Number,
}

/// One sample of a histogram: `bucket_counts[i]` counts the values in the bucket whose
/// upper bound is `bounds[i]`.
#[derive(Debug)]
pub struct HistogramDataPoint {
    pub attributes: Vec<KeyValue>,
    pub count: u64,
    pub sum: Number,
    pub min: Option<Number>,
    pub max: Option<Number>,
    pub bounds: Vec<Number>,
    pub bucket_counts: Vec<u64>,
}

#[derive(Debug)]
pub struct Gauge {
    pub time: UnixTime,
    pub data_points: Vec<DataPoint>,
}

#[derive(Debug)]
pub struct Sum {
    pub is_monotonic: bool,
    pub temporality: Temporality,
    pub time: UnixTime,
    pub data_points: Vec<DataPoint>,
}

#[derive(Debug)]
pub struct Histogram {
    pub temporality: Temporality,
    pub start_time: UnixTime,
    pub time: UnixTime,
    pub data_points: Vec<HistogramDataPoint>,
}

/// The aggregated data of one metric. Exponential histograms carry no data here: they
/// are never encoded.
#[derive(Debug)]
pub enum MetricData {
    Gauge(Gauge),
    Sum(Sum),
    Histogram(Histogram),
    ExponentialHistogram,
}

#[derive(Debug)]
pub struct Metric {
    pub name: String,
    pub description: String,
    pub unit: String,
    pub data: MetricData,
}

/// The instrumentation scope that a group of metrics came from.
#[derive(Debug)]
pub struct Scope {
    pub name: String,
    pub version: Option<String>,
    pub attributes: Vec<KeyValue>,
}

#[derive(Debug)]
pub struct ScopeMetrics {
    pub scope: Scope,
    pub metrics: Vec<Metric>,
}

/// A snapshot of collected metrics, grouped by scope.
#[derive(Debug)]
pub struct ResourceMetrics {
    pub scope_metrics: Vec<ScopeMetrics>,
}

/// Options of the encoder.
#[derive(Clone, Copy, Debug)]
pub struct EncodeOptions {
    /// Emit the `otel_scope_info` metric and tag every series with `otel_scope_name`.
    pub scope_info: bool,
    /// Emit `_min` and `_max` lines for each histogram point.
    pub histogram_min_max: bool,
}

} // verus!
