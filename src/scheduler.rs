use vstd::prelude::*;

verus! {

/// What woke the flush worker.
#[derive(Debug, Clone, Copy, PartialEq, Eq, Structural)]
pub enum WorkerSignal {
    /// The flush interval passed without a message.
    Timeout,
    /// A caller asked for a flush and waits for the sink's output.
    Flush,
    /// The aggregator is being dropped.
    Shutdown,
    /// Every sender is gone.
    Disconnected,
}

/// What the flush worker does after merging and emitting.
#[derive(Debug, Clone, Copy, PartialEq, Eq, Structural)]
pub enum WorkerStep {
    /// Wait for the next signal.
    Wait,
    /// Send the sink's output to the caller that asked for the flush, then wait.
    Reply,
    /// Return: the worker ends.
    Stop,
}

/// Why an explicit flush returned no output.
#[derive(Debug, Clone, Copy, PartialEq, Eq, Structural)]
pub enum FlushError {
    /// The caller's deadline passed; the flush result is lost.
    Timeout,
    /// The worker is gone.
    Disconnected,
}

/// The worker's step after each wake-up. Every wake-up first merges all
/// thread-local aggregations and emits them, so a shutdown still flushes.
pub fn next_step(signal: WorkerSignal) -> (r: WorkerStep)
    ensures
        r == match signal {
            WorkerSignal::Timeout => WorkerStep::Wait,
            WorkerSignal::Flush => WorkerStep::Reply,
            WorkerSignal::Shutdown => WorkerStep::Stop,
            WorkerSignal::Disconnected => WorkerStep::Stop,
        },
{
    match signal {
        WorkerSignal::Timeout => WorkerStep::Wait,
        WorkerSignal::Flush => WorkerStep::Reply,
        WorkerSignal::Shutdown | WorkerSignal::Disconnected => WorkerStep::Stop,
    }
}

/// The error of an explicit flush whose reply did not come: `Timeout` when the
/// caller gave a deadline and it passed, `Disconnected` when the worker went away.
pub fn flush_error(deadline_passed: bool) -> (r: FlushError)
    ensures
        r == if deadline_passed { FlushError::Timeout } else { FlushError::Disconnected },
{
    if deadline_passed {
        FlushError::Timeout
    } else {
        FlushError::Disconnected
    }
}

} // verus!
