use merni::{
    AggregatedGauge, Aggregations, Metric, MetricMeta, MetricType, MetricUnit, MetricValue,
    PreAggregations, ValueOp,
};

fn value(x: f64) -> MetricValue {
    MetricValue::from_bits(x.to_bits())
}

fn float(v: MetricValue) -> f64 {
    f64::from_bits(v.to_bits())
}

fn arith(op: ValueOp, a: MetricValue, b: MetricValue) -> MetricValue {
    let (a, b) = (float(a), float(b));
    value(match op {
        ValueOp::Sum => a + b,
        ValueOp::Min => a.min(b),
        ValueOp::Max => a.max(b),
    })
}

fn descriptor(ty: MetricType, name: &'static str) -> &'static MetricMeta {
    Box::leak(Box::new(MetricMeta::new(ty, MetricUnit::Unknown, name)))
}

fn tagged(ty: MetricType, name: &'static str, keys: &'static [&'static str; 1]) -> &'static MetricMeta {
    let tagged = MetricMeta::new(ty, MetricUnit::Unknown, name).with_tags(keys);
    Box::leak(Box::new(*tagged.meta()))
}

fn emit(pre: &mut PreAggregations, meta: &'static MetricMeta, site: usize, x: f64, tags: &[&str]) {
    pre.add_metric(Metric::record(meta, site, value(x), tags), &arith);
}

fn merge(pres: &mut [PreAggregations]) -> Aggregations {
    let mut all = Aggregations::new();
    for pre in pres.iter_mut() {
        all.merge_aggregations(pre, &arith);
    }
    all
}

fn gauge_values(g: &AggregatedGauge) -> (f64, f64, f64, u64, f64) {
    (float(g.min), float(g.max), float(g.sum), g.count, float(g.last))
}

#[test]
fn test_aggregation() {
    let mut pre = PreAggregations::new();
    for (site, x) in [(1usize, 1.0), (2, 2.0), (3, 3.0), (4, 4.0)] {
        let meta = tagged(MetricType::Gauge, "some.gauge", &["tag_key"]);
        emit(&mut pre, meta, site, x, &["tag_value"]);
    }
    assert_eq!(pre.gauge_len(), 4);

    let mut pres = [pre];
    let total = merge(&mut pres);
    assert_eq!(total.gauges.len(), 1);
    let gauge = &total.gauges[0].1;
    assert_eq!(gauge.count, 4);
    assert_eq!(float(gauge.min), 1.);
    assert_eq!(float(gauge.sum), 10.);
    assert_eq!(float(gauge.last), 4.);
}

#[test]
fn tests_test_aggregation() {
    let mut pre = PreAggregations::new();
    for (site, x) in [(10usize, 1.0), (11, 2.0), (12, 3.0), (13, 4.0)] {
        let meta = tagged(MetricType::Gauge, "some.gauge", &["tag_key"]);
        emit(&mut pre, meta, site, x, &["tag_value"]);
    }
    assert_eq!(pre.gauge_len(), 4);

    let mut pres = [pre];
    let total = merge(&mut pres);
    assert_eq!(total.gauges.len(), 1);
    let gauge = &total.gauges[0].1;
    assert_eq!(gauge.count, 4);
    assert_eq!(float(gauge.min), 1.);
    assert_eq!(float(gauge.max), 4.);
    assert_eq!(float(gauge.sum), 10.);
}

#[test]
fn counter_emissions_on_one_thread_sum() {
    let meta = descriptor(MetricType::Counter, "some.counter");
    let mut pre = PreAggregations::new();
    emit(&mut pre, meta, 1, 1.0, &[]);
    emit(&mut pre, meta, 1, 2.0, &[]);
    assert_eq!(pre.counter_len(), 1);

    let mut pres = [pre];
    let total = merge(&mut pres);
    assert_eq!(total.counters.len(), 1);
    assert_eq!(total.counters[0].0.key(), "some.counter");
    assert_eq!(float(total.counters[0].1), 3.0);
    assert!(total.gauges.is_empty());
    assert!(total.distributions.is_empty());
}

#[test]
fn gauge_from_four_call_sites_collapses() {
    let mut pre = PreAggregations::new();
    for (site, x) in [(1usize, 1.0), (2, 2.0), (3, 3.0), (4, 4.0)] {
        let meta = tagged(MetricType::Gauge, "g", &["k"]);
        emit(&mut pre, meta, site, x, &["v"]);
    }
    assert_eq!(pre.gauge_len(), 4);

    let mut pres = [pre];
    let total = merge(&mut pres);
    assert_eq!(total.gauges.len(), 1);
    assert_eq!(gauge_values(&total.gauges[0].1), (1.0, 4.0, 10.0, 4, 4.0));
    assert_eq!(total.gauges[0].0.tags(), vec![("k", "v")]);
}

#[test]
fn counters_from_ten_threads_add_up() {
    let meta = descriptor(MetricType::Counter, "c");
    let mut pres: Vec<PreAggregations> = (0..10).map(|_| PreAggregations::new()).collect();
    for pre in pres.iter_mut() {
        for _ in 0..1000 {
            emit(pre, meta, 7, 1.0, &[]);
        }
    }
    let total = merge(&mut pres);
    assert_eq!(total.counters.len(), 1);
    assert_eq!(float(total.counters[0].1), 10000.0);
}

#[test]
fn counter_total_does_not_depend_on_partition() {
    let meta = descriptor(MetricType::Counter, "c");
    let values = [1.0, 2.0, 3.0, 4.0, 5.0, 6.0];
    let mut one = [PreAggregations::new()];
    for x in values {
        emit(&mut one[0], meta, 1, x, &[]);
    }
    let mut three = [PreAggregations::new(), PreAggregations::new(), PreAggregations::new()];
    for (i, x) in values.iter().enumerate() {
        emit(&mut three[i % 3], meta, 1, *x, &[]);
    }
    let a = merge(&mut one);
    let b = merge(&mut three);
    assert_eq!(float(a.counters[0].1), 21.0);
    assert_eq!(float(b.counters[0].1), 21.0);
}

#[test]
fn distribution_keeps_all_values() {
    let meta = descriptor(MetricType::Distribution, "d");
    let mut pre = PreAggregations::new();
    for x in [1.5, 2.5, 3.5] {
        emit(&mut pre, meta, 1, x, &[]);
    }
    let mut pres = [pre];
    let total = merge(&mut pres);
    assert_eq!(total.distributions.len(), 1);
    let mut values: Vec<f64> = total.distributions[0].1.values.iter().map(|v| float(*v)).collect();
    values.sort_by(|a, b| a.partial_cmp(b).unwrap());
    assert_eq!(values, vec![1.5, 2.5, 3.5]);
    assert_eq!(values.iter().sum::<f64>(), 7.5);
}

#[test]
fn timers_and_histograms_are_kept_as_lists() {
    let timer = descriptor(MetricType::Timer, "t");
    let histogram = descriptor(MetricType::Histogram, "h");
    let mut pre = PreAggregations::new();
    emit(&mut pre, timer, 1, 5.0, &[]);
    emit(&mut pre, timer, 1, 6.0, &[]);
    emit(&mut pre, histogram, 2, 7.0, &[]);
    assert_eq!(pre.distribution_len(), 2);
    assert_eq!(pre.counter_len(), 0);
    assert_eq!(pre.gauge_len(), 0);
}

#[test]
fn gauge_statistics_bound_the_mean() {
    let meta = descriptor(MetricType::Gauge, "g");
    let mut pre = PreAggregations::new();
    for x in [3.0, -1.0, 8.0, 2.0] {
        emit(&mut pre, meta, 1, x, &[]);
    }
    let mut pres = [pre];
    let total = merge(&mut pres);
    let (min, max, sum, count, last) = gauge_values(&total.gauges[0].1);
    assert_eq!(count, 4);
    assert!(min <= sum / count as f64 && sum / count as f64 <= max);
    assert_eq!((min, max, sum, last), (-1.0, 8.0, 12.0, 2.0));
}

#[test]
fn identical_descriptors_at_two_addresses_merge_into_one() {
    let first = descriptor(MetricType::Counter, "same");
    let second = descriptor(MetricType::Counter, "same");
    let mut pre = PreAggregations::new();
    emit(&mut pre, first, 100, 1.0, &["x"]);
    emit(&mut pre, second, 200, 2.0, &["x"]);
    assert_eq!(pre.counter_len(), 2);
    let mut pres = [pre];
    let total = merge(&mut pres);
    assert_eq!(total.counters.len(), 1);
    assert_eq!(float(total.counters[0].1), 3.0);
}

#[test]
fn different_tag_values_stay_apart() {
    let meta = tagged(MetricType::Counter, "c", &["k"]);
    let mut pre = PreAggregations::new();
    emit(&mut pre, meta, 1, 1.0, &["a"]);
    emit(&mut pre, meta, 1, 1.0, &["b"]);
    emit(&mut pre, meta, 1, 1.0, &["a"]);
    assert_eq!(pre.counter_len(), 2);
    let mut pres = [pre];
    let total = merge(&mut pres);
    assert_eq!(total.counters.len(), 2);
}

#[test]
fn merge_empties_the_thread_aggregations() {
    let meta = descriptor(MetricType::Gauge, "g");
    let mut pre = PreAggregations::new();
    emit(&mut pre, meta, 1, 1.0, &[]);
    let mut all = Aggregations::new();
    all.merge_aggregations(&mut pre, &arith);
    assert_eq!(pre.gauge_len(), 0);
    assert_eq!(pre.counter_len(), 0);
    assert_eq!(pre.distribution_len(), 0);
    assert_eq!(all.gauges.len(), 1);
}

#[test]
fn merged_gauges_take_last_from_the_later_thread() {
    let meta = descriptor(MetricType::Gauge, "g");
    let mut a = PreAggregations::new();
    let mut b = PreAggregations::new();
    emit(&mut a, meta, 1, 5.0, &[]);
    emit(&mut b, meta, 1, 9.0, &[]);
    emit(&mut b, meta, 1, 1.0, &[]);
    let mut pres = [a, b];
    let total = merge(&mut pres);
    assert_eq!(gauge_values(&total.gauges[0].1), (1.0, 9.0, 15.0, 3, 1.0));
}

#[test]
fn new_gauge_starts_at_infinities() {
    let g = AggregatedGauge::new();
    assert_eq!(float(g.min), f64::INFINITY);
    assert_eq!(float(g.max), f64::NEG_INFINITY);
    assert_eq!(float(g.sum), 0.0);
    assert_eq!(g.count, 0);
}
