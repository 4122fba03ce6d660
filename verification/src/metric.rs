//! Route metrics: a finite non-negative cost or a distinguished infinite
//! value meaning "unreachable".
//!
//! Finite metrics are bounded by [`MAX_FINITE_METRIC`]; on the wire the
//! reserved value `0xffff` stands for the infinite metric. Addition saturates
//! at infinite. Ordering puts every finite value below infinite and orders
//! finite values numerically.

use vstd::prelude::*;

verus! {

/// Largest finite metric; the wire value above it is reserved for infinity.
pub const MAX_FINITE_METRIC: u16 = 0xfffe;

/// The cost of a route: finite, or infinite (unreachable / retracted).
#[derive(Clone, Copy, Debug, PartialEq, Eq, Structural)]
pub enum Metric {
    /// Finite metric
    Value(u16),
    /// Infinite metric
    Infinite,
}

/// A well-formed finite metric stays below the reserved infinite wire value.
pub open spec fn metric_wf(m: Metric) -> bool {
    m matches Metric::Value(v) ==> v <= MAX_FINITE_METRIC
}

/// `a <= b` in the metric order: finite below infinite, numeric among finite.
pub open spec fn metric_le(a: Metric, b: Metric) -> bool {
    match a {
        Metric::Infinite => b is Infinite,
        Metric::Value(x) => match b {
            Metric::Infinite => true,
            Metric::Value(y) => x <= y,
        },
    }
}

/// `a < b`: `a <= b` and not equal as costs.
pub open spec fn metric_lt(a: Metric, b: Metric) -> bool {
    metric_le(a, b) && !metric_le(b, a)
}

/// Saturating addition: any sum reaching the reserved range is infinite.
pub open spec fn metric_add(a: Metric, b: Metric) -> Metric {
    match a {
        Metric::Infinite => Metric::Infinite,
        Metric::Value(x) => match b {
            Metric::Infinite => Metric::Infinite,
            Metric::Value(y) => if x + y > MAX_FINITE_METRIC {
                Metric::Infinite
            } else {
                Metric::Value((x + y) as u16)
            },
        },
    }
}

impl Metric {
    /// True for the infinite (unreachable) metric.
    pub fn is_infinite(&self) -> (r: bool)
        ensures
            r == (*self is Infinite),
    {
        matches!(self, Metric::Infinite)
    }

    /// Saturating addition of two metrics.
    pub fn saturating_add(self, other: Metric) -> (r: Metric)
        ensures
            r == metric_add(self, other),
            metric_wf(r),
    {
        match self {
            Metric::Infinite => Metric::Infinite,
            Metric::Value(x) => match other {
                Metric::Infinite => Metric::Infinite,
                Metric::Value(y) => {
                    if x > MAX_FINITE_METRIC || y > MAX_FINITE_METRIC - x {
                        Metric::Infinite
                    } else {
                        Metric::Value(x + y)
                    }
                },
            },
        }
    }

    /// `self <= other` in the metric order.
    pub fn le(self, other: Metric) -> (r: bool)
        ensures
            r == metric_le(self, other),
    {
        match self {
            Metric::Infinite => matches!(other, Metric::Infinite),
            Metric::Value(x) => match other {
                Metric::Infinite => true,
                Metric::Value(y) => x <= y,
            },
        }
    }

    /// `self < other` in the metric order.
    pub fn lt(self, other: Metric) -> (r: bool)
        ensures
            r == metric_lt(self, other),
    {
        match self {
            Metric::Infinite => false,
            Metric::Value(x) => match other {
                Metric::Infinite => true,
                Metric::Value(y) => x < y,
            },
        }
    }

    /// The metric read off the wire: the reserved top value is infinite.
    pub fn from_wire(v: u16) -> (r: Metric)
        ensures
            r == metric_from_wire(v),
            metric_wf(r),
    {
        if v == 0xffff {
            Metric::Infinite
        } else {
            Metric::Value(v)
        }
    }

    /// The wire form of a metric.
    pub fn to_wire(self) -> (r: u16)
        requires
            metric_wf(self),
        ensures
            r == metric_to_wire(self),
    {
        match self {
            Metric::Infinite => 0xffff,
            Metric::Value(v) => v,
        }
    }
}

/// Wire decoding of a metric: `0xffff` is infinite.
pub open spec fn metric_from_wire(v: u16) -> Metric {
    if v == 0xffff {
        Metric::Infinite
    } else {
        Metric::Value(v)
    }
}

/// Wire encoding of a metric: infinite is `0xffff`.
pub open spec fn metric_to_wire(m: Metric) -> u16 {
    match m {
        Metric::Infinite => 0xffff,
        Metric::Value(v) => v,
    }
}

/// The wire form loses nothing: decoding the encoding of any well-formed
/// metric gives the metric back.
pub proof fn lemma_metric_wire_round_trip(m: Metric)
    requires
        metric_wf(m),
    ensures
        metric_from_wire(metric_to_wire(m)) == m,
{
}

/// Every wire value decodes to a metric that encodes back to it: the wire
/// form is canonical.
pub proof fn lemma_metric_wire_inverse(v: u16)
    ensures
        metric_to_wire(metric_from_wire(v)) == v,
        metric_wf(metric_from_wire(v)),
{
}

/// The metric order is total on well-formed metrics and `metric_add` never
/// lowers a cost below either summand.
pub proof fn lemma_metric_order(a: Metric, b: Metric)
    ensures
        metric_le(a, b) || metric_le(b, a),
        metric_le(a, metric_add(a, b)),
        metric_le(b, metric_add(a, b)),
{
}

} // verus!
