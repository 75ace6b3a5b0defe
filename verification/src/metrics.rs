//! Values of the counters and gauges that components report.

use vstd::prelude::*;

verus! {

/// One reported value.
#[derive(Debug, Clone, Copy, PartialEq, Eq, Structural)]
pub enum Metric {
    Gauge(i64),
    Counter(u64),
}

} // verus!
