//! The metrics that a tile can show.
use vstd::prelude::*;

verus! {

/// Which metric is displayed in tile sparklines.
#[derive(Debug, Clone, Copy, PartialEq, Eq, Structural)]
pub enum MetricType {
    Cpu,
    Mem,
    Net,
}

impl MetricType {
    /// The metric that follows this one: CPU, Mem, Net, and CPU again.
    pub open spec fn following(self) -> MetricType {
        match self {
            MetricType::Cpu => MetricType::Mem,
            MetricType::Mem => MetricType::Net,
            MetricType::Net => MetricType::Cpu,
        }
    }

    /// The metric that follows this one.
    pub fn next(self) -> (metric: MetricType)
        ensures
            metric == self.following(),
    {
        match self {
            MetricType::Cpu => MetricType::Mem,
            MetricType::Mem => MetricType::Net,
            MetricType::Net => MetricType::Cpu,
        }
    }
}

/// Cycling visits every metric before it comes back to the first.
pub proof fn law_metrics_form_one_cycle(from: MetricType, to: MetricType)
    ensures
        from.following().following().following() == from,
        to == from || to == from.following() || to == from.following().following(),
        from.following() != from,
{
}

/// Mem is shown after CPU and nothing else, Net after Mem, and CPU after Net.
pub proof fn law_metrics_follow_in_order(metric: MetricType)
    ensures
        metric.following() == MetricType::Mem <==> metric == MetricType::Cpu,
        metric.following() == MetricType::Net <==> metric == MetricType::Mem,
        metric.following() == MetricType::Cpu <==> metric == MetricType::Net,
{
}

} // verus!
