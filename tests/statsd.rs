use merni::{
    flush_error, next_step, FlushError, Metric, MetricMeta, MetricSink, MetricType, MetricUnit,
    MetricValue, StatsdRecorder, WorkerSignal, WorkerStep,
};
use std::cell::RefCell;

struct Lines(RefCell<Vec<String>>);

impl MetricSink for Lines {
    fn emit(&self, metric: &str) {
        self.0.borrow_mut().push(metric.to_string());
    }
}

fn leak(meta: MetricMeta) -> &'static MetricMeta {
    Box::leak(Box::new(meta))
}

fn line(recorder: &StatsdRecorder<Lines>, metric: &Metric, value: &str) -> String {
    let mut s = String::new();
    recorder.write_metric(metric, value, &mut s);
    s
}

#[test]
fn prefix_gets_a_single_dot() {
    let meta = leak(MetricMeta::new(MetricType::Counter, MetricUnit::Unknown, "hits"));
    let metric = Metric::record(meta, 1, MetricValue::from_bits(1.0f64.to_bits()), &[]);
    let recorder = StatsdRecorder::new("app...", Lines(RefCell::new(Vec::new())));
    assert_eq!(line(&recorder, &metric, "1"), "app.hits:1|c");
    let bare = StatsdRecorder::new("", Lines(RefCell::new(Vec::new())));
    assert_eq!(line(&bare, &metric, "1"), "hits:1|c");
}

#[test]
fn type_codes() {
    let recorder = StatsdRecorder::new("", Lines(RefCell::new(Vec::new())));
    let cases = [
        (MetricType::Counter, "c"),
        (MetricType::Gauge, "g"),
        (MetricType::Distribution, "d"),
        (MetricType::Timer, "ms"),
        (MetricType::Histogram, "h"),
    ];
    for (ty, code) in cases {
        let meta = leak(MetricMeta::new(ty, MetricUnit::Unknown, "m"));
        let metric = Metric::record(meta, 1, MetricValue::zero(), &[]);
        assert_eq!(line(&recorder, &metric, "0"), format!("m:0|{code}"));
        assert_eq!(ty.as_str(), code);
    }
}

#[test]
fn global_tags_precede_metric_tags() {
    let tagged = MetricMeta::new(MetricType::Gauge, MetricUnit::Unknown, "g").with_tags(&["k", "x"]);
    let meta = leak(*tagged.meta());
    let metric = Metric::record(meta, 1, MetricValue::zero(), &["v", "y"]);
    let recorder = StatsdRecorder::new("p", Lines(RefCell::new(Vec::new())))
        .with_tag("host", "a")
        .with_tag_value("solo");
    assert_eq!(line(&recorder, &metric, "2.5"), "p.g:2.5|g|#host:a,solo,k:v,x:y");
    let plain = StatsdRecorder::new("", Lines(RefCell::new(Vec::new())));
    assert_eq!(line(&plain, &metric, "2.5"), "g:2.5|g|#k:v,x:y");
}

#[test]
fn record_metric_sends_one_line() {
    let meta = leak(MetricMeta::new(MetricType::Counter, MetricUnit::Unknown, "c"));
    let metric = Metric::record(meta, 1, MetricValue::zero(), &[]);
    let recorder = StatsdRecorder::new("", Lines(RefCell::new(Vec::new())));
    recorder.record_metric(&metric, "1");
    recorder.record_metric(&metric, "2");
    let sent = recorder.sink().0.borrow().clone();
    assert_eq!(sent, vec!["c:1|c".to_string(), "c:2|c".to_string()]);
}

#[test]
fn worker_steps() {
    assert_eq!(next_step(WorkerSignal::Timeout), WorkerStep::Wait);
    assert_eq!(next_step(WorkerSignal::Flush), WorkerStep::Reply);
    assert_eq!(next_step(WorkerSignal::Shutdown), WorkerStep::Stop);
    assert_eq!(next_step(WorkerSignal::Disconnected), WorkerStep::Stop);
    assert_eq!(flush_error(true), FlushError::Timeout);
    assert_eq!(flush_error(false), FlushError::Disconnected);
}

#[test]
fn datadog_series_types() {
    assert_eq!(merni::datadog_type_code(MetricType::Counter), 1);
    assert_eq!(merni::datadog_type_code(MetricType::Gauge), 3);
    assert_eq!(merni::datadog_type_code(MetricType::Distribution), 0);
    assert_eq!(merni::datadog_type_code(MetricType::Timer), 0);
}

#[test]
fn datadog_payload_budget() {
    assert_eq!(merni::next_flush_len(0, 0), Some(512000 - 1024));
    assert_eq!(merni::next_flush_len(511000, 0), Some(0));
    assert_eq!(merni::next_flush_len(0, 5242880 - 2000), Some(976));
    assert_eq!(merni::next_flush_len(512001, 0), None);
    assert_eq!(merni::next_flush_len(0, 5242881), None);
    assert!(merni::payload_full(1023));
    assert!(!merni::payload_full(1024));
}
