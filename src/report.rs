//! Layout of the comparison report and the statistics each panel shows.
use crate::distribution::{
    combined_domain, domain_of, percent_delta, percent_delta_spec, Distribution, PercentDelta,
    StatError,
};
use crate::metrics::{Metric, Metrics};
use vstd::prelude::*;

verus! {

/// Panels drawn side by side for each benchmark, one per metric.
pub const GRAPH_COLS: u32 = 3;

/// Height in pixels of the region of one benchmark.
pub const GRAPH_HEIGHT: u32 = 400;

/// Width in pixels of one panel.
pub const GRAPH_WIDTH: u32 = 600;

/// Below this many percent, in absolute value, a change is shown as neutral.
pub const NEUTRAL_PERCENT: i128 = 2;

/// The size in pixels of a report on `benchmarks` benchmarks, or `None` when
/// its height does not fit in a `u32`.
pub fn report_dimensions(benchmarks: usize) -> (r: Option<(u32, u32)>)
    ensures
        benchmarks * GRAPH_HEIGHT <= u32::MAX ==> r == Some(
            ((GRAPH_WIDTH * GRAPH_COLS) as u32, (benchmarks * GRAPH_HEIGHT) as u32),
        ),
        benchmarks * GRAPH_HEIGHT > u32::MAX ==> r is None,
{
    if benchmarks > (u32::MAX / GRAPH_HEIGHT) as usize {
        None
    } else {
        Some((GRAPH_WIDTH * GRAPH_COLS, benchmarks as u32 * GRAPH_HEIGHT))
    }
}

/// How a percentage change is coloured.
#[derive(Clone, Copy, Debug, PartialEq, Eq, Structural)]
pub enum DeltaTone {
    Neutral,
    Regression,
    Improvement,
}

pub open spec fn tone_of(p: PercentDelta) -> DeltaTone {
    if -NEUTRAL_PERCENT * p.denominator < p.numerator < NEUTRAL_PERCENT * p.denominator {
        DeltaTone::Neutral
    } else if p.numerator > 0 {
        DeltaTone::Regression
    } else {
        DeltaTone::Improvement
    }
}

/// Neutral for a change under the threshold in absolute value, else a
/// regression when the mean grew and an improvement when it shrank.
pub fn delta_tone(p: &PercentDelta) -> (r: DeltaTone)
    requires
        p.denominator > 0,
    ensures
        r == tone_of(*p),
{
    let magnitude: u128 = if p.numerator >= 0 {
        p.numerator as u128
    } else {
        (-(p.numerator + 1)) as u128 + 1
    };
    if magnitude / (NEUTRAL_PERCENT as u128) < p.denominator {
        DeltaTone::Neutral
    } else if p.numerator > 0 {
        DeltaTone::Regression
    } else {
        DeltaTone::Improvement
    }
}

/// What one panel of the report shows for one metric.
pub struct PanelStats {
    pub current: Distribution,
    pub baseline: Option<Distribution>,
    /// The common x range of both distributions.
    pub domain: (u64, u64),
    /// The change of the mean against the baseline, when there is one.
    pub delta: Option<Result<PercentDelta, StatError>>,
}

/// The statistics of the panel for `metric`, comparing the run `current`
/// with `baseline`; an error when either run holds no sample.
pub fn panel_stats(current: &Metrics, baseline: Option<&Metrics>, metric: Metric) -> (r: Result<PanelStats, StatError>)
    ensures
        r is Err <==> current.iterations@.len() == 0 || (baseline matches Some(b) && b.iterations@.len() == 0),
        r is Err ==> r == Err::<PanelStats, StatError>(StatError::EmptySamples),
        r matches Ok(p) ==> {
            &&& p.current.describes(current.column(metric))
            &&& baseline is None ==> p.baseline is None && p.delta is None
                && p.domain == domain_of(&p.current, None)
            &&& baseline matches Some(b) ==> p.baseline matches Some(d) && d.describes(b.column(metric))
                && p.domain == domain_of(&p.current, Some(&d))
                && p.delta == Some(percent_delta_spec(&p.current, &d))
        },
{
    let values = current.samples(metric);
    if values.len() == 0 {
        return Err(StatError::EmptySamples);
    }
    let previous = match baseline {
        None => None,
        Some(b) => {
            let v = b.samples(metric);
            if v.len() == 0 {
                return Err(StatError::EmptySamples);
            }
            Some(v)
        },
    };
    let dist = Distribution::from_samples(values);
    match previous {
        None => {
            let domain = combined_domain(&dist, None);
            Ok(PanelStats { current: dist, baseline: None, domain, delta: None })
        },
        Some(v) => {
            let prev = Distribution::from_samples(v);
            let domain = combined_domain(&dist, Some(&prev));
            let delta = percent_delta(&dist, &prev);
            Ok(PanelStats { current: dist, baseline: Some(prev), domain, delta: Some(delta) })
        },
    }
}

} // verus!
