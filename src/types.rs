use vstd::prelude::*;

verus! {

/// The type of a metric.
#[derive(Debug, Clone, Copy, PartialEq, Eq, Hash, Structural)]
pub enum MetricType {
    /// A counter: values are summed.
    Counter,
    /// A gauge: minimum, maximum, sum, count and last value are kept.
    Gauge,
    /// A distribution: every value is kept.
    Distribution,
    /// A timer: a distribution that records milliseconds when no unit is given.
    Timer,
    /// A histogram: every value is kept, like a distribution.
    Histogram,
}

/// The unit of a metric.
#[derive(Debug, Clone, Copy, PartialEq, Eq, Hash, Structural)]
pub enum MetricUnit {
    /// An unknown fallback unit.
    Unknown,
    /// The metric counts seconds.
    Seconds,
    /// The metric counts bytes.
    Bytes,
}

impl MetricType {
    /// The StatsD type code of this metric type.
    pub open spec fn spec_code(self) -> Seq<char> {
        match self {
            MetricType::Counter => seq!['c'],
            MetricType::Gauge => seq!['g'],
            MetricType::Distribution => seq!['d'],
            MetricType::Timer => seq!['m', 's'],
            MetricType::Histogram => seq!['h'],
        }
    }

    /// The StatsD type code: `c`, `g`, `d`, `ms` or `h`.
    pub fn as_str(&self) -> (r: &'static str)
        ensures
            r@ == self.spec_code(),
    {
        let r = match self {
            MetricType::Counter => "c",
            MetricType::Gauge => "g",
            MetricType::Distribution => "d",
            MetricType::Timer => "ms",
            MetricType::Histogram => "h",
        };
        proof {
            reveal_strlit("c");
            reveal_strlit("g");
            reveal_strlit("d");
            reveal_strlit("ms");
            reveal_strlit("h");
        }
        r
    }
}

/// The bit pattern of positive infinity in IEEE-754 double precision.
pub const POSITIVE_INFINITY_BITS: u64 = 0x7ff0_0000_0000_0000;

/// The bit pattern of negative infinity in IEEE-754 double precision.
pub const NEGATIVE_INFINITY_BITS: u64 = 0xfff0_0000_0000_0000;

/// The value of a metric: an IEEE-754 double, held as its bit pattern.
///
/// The library never does arithmetic on values itself; aggregation takes the
/// arithmetic as an argument (see [`ValueOp`]).
#[derive(Debug, Clone, Copy, PartialEq, Eq, Structural)]
pub struct MetricValue {
    bits: u64,
}

impl MetricValue {
    pub closed spec fn spec_bits(self) -> u64 {
        self.bits
    }

    /// The value whose bit pattern is `bits`.
    pub closed spec fn spec_from_bits(bits: u64) -> MetricValue {
        MetricValue { bits }
    }

    /// Creates a metric value from the bit pattern of a double.
    pub fn from_bits(bits: u64) -> (r: MetricValue)
        ensures
            r == MetricValue::spec_from_bits(bits),
            r.spec_bits() == bits,
    {
        MetricValue { bits }
    }

    /// The bit pattern of the double this value holds.
    pub fn to_bits(&self) -> (r: u64)
        ensures
            r == self.spec_bits(),
    {
        self.bits
    }

    /// Positive zero.
    pub fn zero() -> (r: MetricValue)
        ensures
            r == MetricValue::spec_from_bits(0),
    {
        MetricValue { bits: 0 }
    }
}

/// An arithmetic operation on two metric values, performed by the caller's
/// arithmetic during aggregation.
#[derive(Debug, Clone, Copy, PartialEq, Eq, Structural)]
pub enum ValueOp {
    /// `a + b`.
    Sum,
    /// The smaller of `a` and `b`.
    Min,
    /// The larger of `a` and `b`.
    Max,
}

} // verus!
