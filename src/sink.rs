use crate::aggregator::Aggregations;
use crate::metric::Metric;
use vstd::prelude::*;

verus! {

/// Receives every emitted metric, on the emitting thread.
pub trait Sink {
    /// Called once per emitted metric.
    fn emit(&self, metric: Metric);
}

impl<S: Sink> Sink for std::sync::Arc<S> {
    fn emit(&self, metric: Metric) {
        let inner: &S = &**self;
        inner.emit(metric)
    }
}

impl<'a, S: Sink> Sink for &'a S {
    fn emit(&self, metric: Metric) {
        let inner: &S = *self;
        inner.emit(metric)
    }
}

/// Receives the aggregations of each flush, on the flush worker.
pub trait AggregationSink {
    /// What a flush hands back to the caller that asked for it.
    type Output;

    /// Called with the merged aggregations of each flush.
    fn emit(&mut self, metrics: Aggregations) -> Self::Output;
}

} // verus!
