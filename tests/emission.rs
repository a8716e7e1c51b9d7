use merni::{
    install_override, record_tags, release_override, select_dispatcher, set_once, Location,
    Metric, MetricKey, MetricMeta, MetricType, MetricUnit, MetricValue, StringBuf, TagValue,
    Timestamp,
};
use std::time::Duration;

fn value(x: f64) -> MetricValue {
    MetricValue::from_bits(x.to_bits())
}

fn float(v: MetricValue) -> f64 {
    f64::from_bits(v.to_bits())
}

fn leak(meta: MetricMeta) -> &'static MetricMeta {
    Box::leak(Box::new(meta))
}

#[test]
fn test_local_dispatcher() {
    let mut slot: Option<&str> = None;
    let global: Option<&str> = None;
    let (guard, first) = install_override(&mut slot, "test");
    let count = if first { 1 } else { 0 };
    let called = select_dispatcher(count, slot.as_ref(), global.as_ref()).is_some();
    assert!(called);

    let (taken, last) = release_override(&mut slot, guard);
    assert_eq!(taken, Some("test"));
    let count = if last { count - 1 } else { count };
    let called = select_dispatcher(count, slot.as_ref(), global.as_ref()).is_some();
    assert!(!called);
}

#[test]
fn test_emit_macro() {
    let counter = leak(MetricMeta::new(MetricType::Counter, MetricUnit::Unknown, "some.counter"));
    let distribution = leak(
        *MetricMeta::new(MetricType::Distribution, MetricUnit::Unknown, "some.distribution")
            .with_tags(&["foo", "bar"])
            .meta(),
    );
    let gauge = leak(
        *MetricMeta::new(MetricType::Gauge, MetricUnit::Unknown, "some.gauge")
            .with_tags(&["a", "b"])
            .meta(),
    );
    let foo = 2;
    let metrics = vec![
        Metric::record(counter, 1, value(1.0), &[]),
        Metric::record(distribution, 2, value(2.0), &[&foo.to_string(), "bar"]),
        Metric::record(gauge, 3, value(3.0), &[&(1 + 2 + 3).to_string(), &(foo * 2).to_string()]),
    ];
    assert_eq!(metrics.len(), 3);

    assert_eq!(metrics[0].ty(), MetricType::Counter);
    assert_eq!(metrics[0].key(), "some.counter");
    assert_eq!(float(metrics[0].value()), 1.);

    assert_eq!(metrics[1].ty(), MetricType::Distribution);
    assert_eq!(metrics[1].key(), "some.distribution");
    assert_eq!(float(metrics[1].value()), 2.);
    assert_eq!(metrics[1].tags(), &[("foo", "2"), ("bar", "bar")]);

    assert_eq!(metrics[2].ty(), MetricType::Gauge);
    assert_eq!(metrics[2].key(), "some.gauge");
    assert_eq!(float(metrics[2].value()), 3.);
    assert_eq!(metrics[2].tags(), &[("a", "6"), ("b", "4")]);
}

#[test]
fn test_manual_emit() {
    let counter = leak(MetricMeta::new(MetricType::Counter, MetricUnit::Unknown, "manual.counter"));
    let tagged = MetricMeta::new(MetricType::Gauge, MetricUnit::Unknown, "manual.gauge")
        .with_tags(&["tag1", "tag2"]);
    let gauge = leak(*tagged.meta());
    let metrics = vec![
        Metric::record(counter, 1, value(1.0), &[]),
        Metric::record(gauge, 2, value(2.0), &[&123.to_string(), "tag value 2"]),
    ];
    assert_eq!(metrics.len(), 2);

    assert_eq!(metrics[0].ty(), MetricType::Counter);
    assert_eq!(metrics[0].key(), "manual.counter");
    assert_eq!(float(metrics[0].value()), 1.);

    assert_eq!(metrics[1].ty(), MetricType::Gauge);
    assert_eq!(metrics[1].key(), "manual.gauge");
    assert_eq!(float(metrics[1].value()), 2.);
    assert_eq!(metrics[1].tags(), &[("tag1", "123"), ("tag2", "tag value 2")]);
}

#[test]
fn no_tags_capture_nothing() {
    assert!(record_tags(&[]).is_none());
    let meta = leak(MetricMeta::new(MetricType::Counter, MetricUnit::Unknown, "x"));
    let key = MetricKey::new(meta, 1, &[]);
    assert!(key.tags().is_empty());
}

#[test]
fn tags_keep_their_order() {
    let values = record_tags(&["b", "a", "b"]).unwrap();
    let texts: Vec<&str> = values.iter().map(|v| v.as_str()).collect();
    assert_eq!(texts, vec!["b", "a", "b"]);
}

#[test]
fn tag_values_inline_up_to_twenty_three_bytes() {
    let short = "a".repeat(23);
    let long = "a".repeat(24);
    let inline = TagValue::new(&short);
    let heap = TagValue::new(&long);
    assert!(!inline.is_heap_allocated());
    assert!(heap.is_heap_allocated());
    assert_eq!(inline.as_str(), short);
    assert_eq!(heap.as_str(), long);
}

#[test]
fn captured_tag_reads_back_through_the_aggregated_metric() {
    let tagged = MetricMeta::new(MetricType::Counter, MetricUnit::Unknown, "rt").with_tags(&["k"]);
    let meta = leak(*tagged.meta());
    let formatted = format!("{}", 42.5);
    let key = MetricKey::new(meta, 1, &[&formatted]);
    let aggregated = merni::AggregatedMetric::from_key(key);
    assert_eq!(aggregated.tags(), vec![("k", "42.5")]);
}

#[test]
fn string_buffer_is_cleared_between_values() {
    let mut buf: StringBuf<128> = StringBuf::new();
    buf.write_str("first");
    assert_eq!(buf.as_str(), "first");
    buf.clear();
    buf.write_str("second");
    assert_eq!(buf.as_str(), "second");
}

#[test]
fn global_dispatcher_is_set_once() {
    let mut global: Option<&str> = None;
    assert_eq!(set_once(&mut global, "d1"), Ok(()));
    assert_eq!(set_once(&mut global, "d2"), Err("d2"));
    assert_eq!(global, Some("d1"));
    assert_eq!(select_dispatcher(0, None, global.as_ref()), Some(&"d1"));
}

#[test]
fn override_scope_goes_to_the_override_then_back_to_the_global() {
    let global: Option<&str> = Some("global");
    let mut slot: Option<&str> = None;
    let mut count: usize = 0;
    let (guard, first) = install_override(&mut slot, "override");
    if first {
        count += 1;
    }
    assert_eq!(select_dispatcher(count, slot.as_ref(), global.as_ref()), Some(&"override"));
    let (_, last) = release_override(&mut slot, guard);
    if last {
        count -= 1;
    }
    assert_eq!(count, 0);
    assert_eq!(select_dispatcher(count, slot.as_ref(), global.as_ref()), Some(&"global"));
}

#[test]
fn nested_overrides_unwind_to_the_initial_count() {
    let mut slot: Option<u32> = None;
    let mut count: usize = 0;
    let mut guards = Vec::new();
    for d in 1..=5u32 {
        let (guard, first) = install_override(&mut slot, d);
        if first {
            count += 1;
        }
        guards.push(guard);
        assert_eq!(slot, Some(d));
    }
    assert_eq!(count, 1);
    while let Some(guard) = guards.pop() {
        let (_, last) = release_override(&mut slot, guard);
        if last {
            count -= 1;
        }
    }
    assert_eq!(count, 0);
    assert_eq!(slot, None);
}

#[test]
fn override_count_elsewhere_does_not_select_a_missing_local() {
    assert_eq!(select_dispatcher(3, None, Some(&"g")), Some(&"g"));
    assert_eq!(select_dispatcher::<&str>(0, None, None), None);
}

#[test]
fn durations_of_untyped_timers_are_milliseconds() {
    let timer = MetricMeta::new(MetricType::Timer, MetricUnit::Unknown, "t");
    let timer_secs = MetricMeta::new(MetricType::Timer, MetricUnit::Seconds, "t");
    let distribution = MetricMeta::new(MetricType::Distribution, MetricUnit::Unknown, "d");
    assert_eq!(timer.duration_scale(), 1000);
    assert_eq!(timer_secs.duration_scale(), 1);
    assert_eq!(distribution.duration_scale(), 1);
}

#[test]
fn descriptors_compare_by_field_values() {
    let a = MetricMeta::new(MetricType::Counter, MetricUnit::Bytes, "n");
    let b = MetricMeta::new(MetricType::Counter, MetricUnit::Bytes, "n");
    let c = MetricMeta::new(MetricType::Counter, MetricUnit::Seconds, "n");
    let location = Box::leak(Box::new(Location::new("file.rs", 7, "crate::module")));
    assert!(a.same_as(&b));
    assert!(!a.same_as(&c));
    assert!(a.with_location(location).same_as(&b));
    assert_eq!(location.line(), 7);
    assert_eq!(location.file(), "file.rs");
    assert_eq!(location.module(), "crate::module");
}

#[test]
fn timestamp_reads_back_its_duration() {
    let t = Timestamp::from_duration(Duration::from_secs(5));
    assert_eq!(t.duration_since_unix_epoch(), Duration::from_secs(5));
}

#[test]
fn count_helper_counts_units() {
    assert_eq!(merni::macros::__count_helper([(), (), ()]), 3);
}

#[test]
fn buffer_captures_each_value_and_starts_over() {
    let mut buf: StringBuf<128> = StringBuf::new();
    buf.write_str("12");
    buf.write_str("3");
    let first = buf.take_tag();
    assert_eq!(buf.as_str(), "");
    buf.write_str("x");
    let second = buf.take_tag();
    assert_eq!(first.as_str(), "123");
    assert_eq!(second.as_str(), "x");
    let values = merni::tag_values_from(vec![first, second]).unwrap();
    assert_eq!(values.len(), 2);
    assert!(merni::tag_values_from(Vec::new()).is_none());
}
