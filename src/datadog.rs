use crate::types::MetricType;
use vstd::prelude::*;

verus! {

/// Bytes kept free below each limit before a payload is cut.
pub const FLUSH_THRESHOLD: usize = 1024;

/// The largest compressed payload accepted by the Datadog API.
pub const MAX_COMPRESSED: usize = 512000;

/// The largest uncompressed payload accepted by the Datadog API.
pub const MAX_UNCOMPRESSED: usize = 5242880;

/// The Datadog series type of a metric: `1` for counters, `3` for gauges, `0`
/// for everything else.
pub fn datadog_type_code(ty: MetricType) -> (r: u8)
    ensures
        r == match ty {
            MetricType::Counter => 1u8,
            MetricType::Gauge => 3u8,
            _ => 0u8,
        },
{
    match ty {
        MetricType::Counter => 1,
        MetricType::Gauge => 3,
        _ => 0,
    }
}

/// How many uncompressed bytes may be buffered before compressing again, given
/// the compressed bytes so far and the uncompressed bytes already compressed:
/// the smaller of the two remaining budgets, less the threshold. `None` when a
/// payload is already over its limit.
pub fn next_flush_len(compressed: usize, written: usize) -> (r: Option<usize>)
    ensures
        compressed > MAX_COMPRESSED || written > MAX_UNCOMPRESSED <==> r is None,
        r is Some ==> ({
            let left = if MAX_COMPRESSED - compressed < MAX_UNCOMPRESSED - written {
                MAX_COMPRESSED - compressed
            } else {
                MAX_UNCOMPRESSED - written
            };
            r == Some(if left > FLUSH_THRESHOLD { (left - FLUSH_THRESHOLD) as usize } else { 0usize })
        }),
{
    if compressed > MAX_COMPRESSED || written > MAX_UNCOMPRESSED {
        return None;
    }
    let compressed_left = MAX_COMPRESSED - compressed;
    let uncompressed_left = MAX_UNCOMPRESSED - written;
    let left = if compressed_left < uncompressed_left { compressed_left } else { uncompressed_left };
    Some(left.saturating_sub(FLUSH_THRESHOLD))
}

/// Whether a payload must be finished and sent now: when the room left before
/// the next compression falls under the threshold.
pub fn payload_full(next_flush_len: usize) -> (r: bool)
    ensures
        r == (next_flush_len < FLUSH_THRESHOLD),
{
    next_flush_len < FLUSH_THRESHOLD
}

} // verus!
