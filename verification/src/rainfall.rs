//! Rainfall definitions: design storms and intensity-duration-frequency
//! (IDF) curves with monotone linear interpolation.

use vstd::prelude::*;
use crate::fixed::div_i64;
use crate::fixed::div_trunc;
use crate::fixed::lemma_div_trunc_bound;

verus! {

/// Rainfall data: design storms and IDF curves.
#[derive(Debug, Clone, PartialEq)]
pub struct Rainfall {
    /// Design storm events (optional).
    pub design_storms: Option<Vec<DesignStorm>>,
    /// Intensity-duration-frequency curves (optional).
    pub idf_curves: Option<Vec<IdfCurve>>,
}

/// Design storm event.
///
/// Intensities are in thousandths of an inch (or millimetre) per hour,
/// durations in thousandths of a minute, depths in thousandths.
#[derive(Debug, Clone, PartialEq)]
pub struct DesignStorm {
    /// Unique storm identifier.
    pub id: String,
    /// Storm name.
    pub name: String,
    /// Return period in thousandths of a year.
    pub return_period: i64,
    /// Storm duration, in thousandths of a minute (optional).
    pub duration: Option<i64>,
    /// Total rainfall depth, in thousandths (optional).
    pub total_depth: Option<i64>,
    /// Temporal distribution kind (optional).
    pub distribution: Option<DistributionType>,
    /// Peak rainfall intensity, in thousandths (optional).
    pub peak_intensity: Option<i64>,
    /// Time-series rainfall data for custom distributions (optional).
    pub hyetograph: Option<Vec<HyetographPoint>>,
}

/// Temporal rainfall distribution kind.
#[derive(Debug, Clone, Copy, PartialEq, Eq, Structural)]
pub enum DistributionType {
    /// SCS Type I (Pacific maritime climate).
    ScsTypeI,
    /// SCS Type IA (Pacific coast, Intermountain).
    ScsTypeIA,
    /// SCS Type II (most of the US).
    ScsTypeII,
    /// SCS Type III (Gulf of Mexico and Atlantic coastal areas).
    ScsTypeIII,
    /// Uniform distribution (constant intensity).
    Uniform,
    /// Custom distribution given by a hyetograph.
    Custom,
}

/// Hyetograph data point (time-series rainfall).
#[derive(Debug, Clone, PartialEq)]
pub struct HyetographPoint {
    /// Time from storm start, in thousandths of a minute.
    pub time: i64,
    /// Rainfall intensity at this time step, in thousandths.
    pub intensity: i64,
}

/// Intensity-duration-frequency curve.
#[derive(Debug, Clone, PartialEq)]
pub struct IdfCurve {
    /// Return period in thousandths of a year.
    pub return_period: i64,
    /// The kind of closed-form equation the curve was derived from, if
    /// any.  Evaluating such equations is the caller's business; the
    /// curve itself is tabular.
    pub equation_type: Option<IdfEquationType>,
    /// Tabular IDF data points.
    pub points: Vec<IdfPoint>,
}

/// IDF closed-form equation kind.
#[derive(Debug, Clone, Copy, PartialEq, Eq, Structural)]
pub enum IdfEquationType {
    /// Sherman equation.
    Sherman,
    /// Talbot equation.
    Talbot,
    /// Modified Talbot equation.
    ModifiedTalbot,
    /// NOAA Atlas 14 equations.
    NoaaAtlas14,
}

/// IDF curve data point.
#[derive(Debug, Clone, PartialEq)]
pub struct IdfPoint {
    /// Duration, in thousandths of a minute.
    pub duration: i64,
    /// Rainfall intensity, in thousandths.
    pub intensity: i64,
}

/// The index of the last point whose duration is at most `d`.
pub open spec fn spec_last_le(points: Seq<IdfPoint>, d: int) -> Option<int>
    decreases points.len(),
{
    if points.len() == 0 {
        None
    } else if points.last().duration <= d {
        Some(points.len() - 1)
    } else {
        spec_last_le(points.drop_last(), d)
    }
}

/// The index of the first point whose duration is at least `d`.
pub open spec fn spec_first_ge(points: Seq<IdfPoint>, d: int, from: int) -> Option<int>
    decreases points.len() - from,
{
    if from < 0 || from >= points.len() {
        None
    } else if points[from].duration >= d {
        Some(from)
    } else {
        spec_first_ge(points, d, from + 1)
    }
}

/// Linear interpolation between bracketing IDF points, truncated toward
/// zero: `i_l + (d - d_l) * (i_u - i_l) / (d_u - d_l)`.
pub open spec fn spec_interpolate(l: IdfPoint, u: IdfPoint, d: int) -> int {
    l.intensity + div_trunc((d - l.duration) * (u.intensity - l.intensity),
        u.duration - l.duration)
}

/// What `get_intensity` returns: the exact match, the interpolated
/// value between the bracketing points, or the nearest endpoint when
/// `d` lies outside the tabulated range.
pub open spec fn spec_get_intensity(points: Seq<IdfPoint>, d: int) -> Option<int> {
    let lower = spec_last_le(points, d);
    let upper = spec_first_ge(points, d, 0);
    match (lower, upper) {
        (Some(l), Some(u)) => {
            if points[l].duration == points[u].duration {
                Some(points[l].intensity as int)
            } else {
                Some(spec_interpolate(points[l], points[u], d))
            }
        },
        (Some(l), None) => Some(points[l].intensity as int),
        (None, Some(u)) => Some(points[u].intensity as int),
        (None, None) => None,
    }
}

impl IdfCurve {
    /// Interpolate the intensity for a given duration, in thousandths.
    ///
    /// Uses linear interpolation between the bracketing points and the
    /// nearest point when the duration lies outside the tabulated range.
    /// Returns `None` for an empty curve.
    pub fn get_intensity(&self, duration: i64) -> (r: Option<i64>)
        requires
            -1000000000 <= duration <= 1000000000,
            forall|i: int| 0 <= i < self.points@.len() ==> {
                &&& -1000000000 <= (#[trigger] self.points@[i]).duration <= 1000000000
                &&& -1000000000 <= self.points@[i].intensity <= 1000000000
            },
        ensures
            r == match spec_get_intensity(self.points@, duration as int) {
                Some(v) => Some(v as i64),
                None => None::<i64>,
            },
    {
        let n = self.points.len();
        let mut lower: Option<usize> = None;
        let mut upper: Option<usize> = None;
        for i in 0..n
            invariant
                n == self.points@.len(),
                duration <= 1000000000,
                duration >= -1000000000,
                match lower {
                    Some(l) => l < n && spec_last_le(
                        self.points@.subrange(0, i as int),
                        duration as int,
                    ) == Some(l as int),
                    None => spec_last_le(self.points@.subrange(0, i as int), duration as int)
                        is None,
                },
                match upper {
                    Some(u) => u < n && spec_first_ge(
                        self.points@.subrange(0, i as int),
                        duration as int,
                        0,
                    ) == Some(u as int),
                    None => spec_first_ge(self.points@.subrange(0, i as int), duration as int, 0)
                        is None,
                },
        {
            proof {
                assert(self.points@.subrange(0, i + 1).drop_last() =~= self.points@.subrange(
                    0,
                    i as int,
                ));
                lemma_first_ge_step(
                    self.points@.subrange(0, i as int),
                    self.points@.subrange(0, i + 1),
                    duration as int,
                    0,
                );
            }
            if self.points[i].duration <= duration {
                lower = Some(i);
            }
            if upper.is_none() && self.points[i].duration >= duration {
                upper = Some(i);
            }
        }
        proof {
            assert(self.points@.subrange(0, n as int) =~= self.points@);
            lemma_last_le_found(self.points@, duration as int);
            lemma_first_ge_found(self.points@, duration as int, 0);
        }
        match (lower, upper) {
            (Some(l), Some(u)) => {
                let ld = self.points[l].duration;
                let ud = self.points[u].duration;
                proof {
                    assert(-1000000000 <= self.points@[l as int].duration <= 1000000000);
                    assert(-1000000000 <= self.points@[u as int].duration <= 1000000000);
                    assert(-1000000000 <= self.points@[l as int].intensity <= 1000000000);
                    assert(-1000000000 <= self.points@[u as int].intensity <= 1000000000);
                }
                if ld == ud {
                    Some(self.points[l].intensity)
                } else {
                    let li = self.points[l].intensity;
                    let ui = self.points[u].intensity;
                    proof {
                        assert((duration - ld) * (ui - li) <= 4000000000000000000
                            && (duration - ld) * (ui - li) >= -4000000000000000000) by (
                        nonlinear_arith)
                            requires
                                -2000000000 <= duration - ld <= 2000000000,
                                -2000000000 <= ui - li <= 2000000000,
                        ;
                    }
                    let num: i64 = (duration - ld) * (ui - li);
                    let denom: i64 = ud - ld;
                    proof {
                        lemma_div_trunc_bound(num as int, denom as int);
                    }
                    let q: i64 = div_i64(num, denom);
                    Some(li + q)
                }
            },
            (Some(l), None) => Some(self.points[l].intensity),
            (None, Some(u)) => Some(self.points[u].intensity),
            (None, None) => None,
        }
    }
}

/// Wherever `spec_last_le` finds an index, that point's duration is at
/// most `d`.
proof fn lemma_last_le_found(points: Seq<IdfPoint>, d: int)
    ensures
        match spec_last_le(points, d) {
            Some(l) => 0 <= l < points.len() && points[l].duration <= d,
            None => true,
        },
    decreases points.len(),
{
    if points.len() > 0 && points.last().duration > d {
        lemma_last_le_found(points.drop_last(), d);
    }
}

/// Wherever `spec_first_ge` finds an index, that point's duration is at
/// least `d`.
proof fn lemma_first_ge_found(points: Seq<IdfPoint>, d: int, from: int)
    requires
        0 <= from,
    ensures
        match spec_first_ge(points, d, from) {
            Some(u) => from <= u < points.len() && points[u].duration >= d,
            None => true,
        },
    decreases points.len() - from,
{
    if from < points.len() && points[from].duration < d {
        lemma_first_ge_found(points, d, from + 1);
    }
}

/// Scanning one more element relates the two prefixes.
proof fn lemma_first_ge_step(shorter: Seq<IdfPoint>, longer: Seq<IdfPoint>, d: int, from: int)
    requires
        0 <= from <= shorter.len(),
        longer.len() == shorter.len() + 1,
        forall|k: int| 0 <= k < shorter.len() ==> longer[k] == shorter[k],
    ensures
        spec_first_ge(shorter, d, from) is Some ==> spec_first_ge(longer, d, from)
            == spec_first_ge(shorter, d, from),
        spec_first_ge(shorter, d, from) is None && longer.last().duration >= d ==> spec_first_ge(
            longer,
            d,
            from,
        ) == Some(shorter.len() as int),
        spec_first_ge(shorter, d, from) is None && longer.last().duration < d ==> spec_first_ge(
            longer,
            d,
            from,
        ) is None,
    decreases shorter.len() - from,
{
    if from < shorter.len() {
        lemma_first_ge_step(shorter, longer, d, from + 1);
    } else {
        if longer.last().duration < d {
            assert(spec_first_ge(longer, d, from + 1) is None);
        }
    }
}

impl DesignStorm {
    /// Create a simple uniform-intensity storm.
    pub fn uniform(id: String, name: String, return_period: i64, intensity: i64) -> (r: DesignStorm)
        ensures
            r.id == id,
            r.name == name,
            r.return_period == return_period,
            r.duration is None,
            r.total_depth is None,
            r.distribution == Some(DistributionType::Uniform),
            r.peak_intensity == Some(intensity),
            r.hyetograph is None,
    {
        DesignStorm {
            id,
            name,
            return_period,
            duration: None,
            total_depth: None,
            distribution: Some(DistributionType::Uniform),
            peak_intensity: Some(intensity),
            hyetograph: None,
        }
    }
}

} // verus!
