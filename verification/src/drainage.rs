//! Drainage areas (subcatchments): the contributing areas that generate
//! runoff to specific outlet nodes in the network.

use vstd::prelude::*;
use crate::fixed::div_trunc;

verus! {

/// Drainage area (subcatchment) definition.
///
/// Areas are in thousandths of an acre or hectare; coefficients in
/// thousandths; times in thousandths of a minute.
#[derive(Debug, Clone, PartialEq)]
pub struct DrainageArea {
    /// Unique drainage area identifier.
    pub id: String,
    /// Descriptive name (optional).
    pub name: Option<String>,
    /// Contributing area, in thousandths.
    pub area: i64,
    /// ID of the outlet node (inlet or junction).
    pub outlet: String,
    /// Land use information (optional).
    pub land_use: Option<LandUse>,
    /// Rational-method runoff coefficient C in thousandths, `0` to
    /// `1000` (optional).
    pub runoff_coefficient: Option<i64>,
    /// Time of concentration, in thousandths of a minute (optional).
    pub time_of_concentration: Option<i64>,
    /// Breakdown of the time-of-concentration calculation (optional).
    pub tc_calculation: Option<TcCalculation>,
    /// SCS curve number in thousandths, `0` to `100000` (optional).
    pub curve_number: Option<i64>,
}

/// Land use information.
#[derive(Debug, Clone, PartialEq)]
pub struct LandUse {
    /// Primary land use kind (optional).
    pub primary: Option<LandUseType>,
    /// Percent impervious area in thousandths of a percent (optional).
    pub impervious_percent: Option<i64>,
    /// Detailed land use breakdown (optional).
    pub composition: Option<Vec<LandUseComponent>>,
}

/// Land use kind classification.
#[derive(Debug, Clone, Copy, PartialEq, Eq, Structural)]
pub enum LandUseType {
    /// Commercial development.
    Commercial,
    /// Industrial development.
    Industrial,
    /// Residential development.
    Residential,
    /// Open space and parks.
    OpenSpace,
    /// Transportation corridors.
    Transportation,
    /// Agricultural land.
    Agricultural,
    /// Mixed use.
    Mixed,
}

/// Land use composition component.
#[derive(Debug, Clone, PartialEq)]
pub struct LandUseComponent {
    /// Land use kind.
    pub land_use_type: String,
    /// Area of this land use kind, in thousandths (optional).
    pub area: Option<i64>,
    /// Percentage of the total area, in thousandths (optional).
    pub percent: Option<i64>,
}

/// Time-of-concentration calculation breakdown: sheet flow plus shallow
/// concentrated flow plus channel flow.
#[derive(Debug, Clone, PartialEq)]
pub struct TcCalculation {
    /// Sheet flow component (optional).
    pub sheet_flow: Option<SheetFlow>,
    /// Shallow concentrated flow component (optional).
    pub shallow_concentrated: Option<ShallowConcentratedFlow>,
    /// Channel flow component (optional).
    pub channel_flow: Option<ChannelFlow>,
}

/// Sheet flow component of the time of concentration.
#[derive(Debug, Clone, PartialEq)]
pub struct SheetFlow {
    /// Flow length, in thousandths.
    pub length: i64,
    /// Average slope, in thousandths.
    pub slope: i64,
    /// Surface roughness coefficient, in thousandths.
    pub roughness: i64,
    /// Travel time, in thousandths of a minute.
    pub time: i64,
}

/// Shallow concentrated flow component of the time of concentration.
#[derive(Debug, Clone, PartialEq)]
pub struct ShallowConcentratedFlow {
    /// Flow length, in thousandths.
    pub length: i64,
    /// Average slope, in thousandths.
    pub slope: i64,
    /// Surface kind.
    pub surface_type: SurfaceType,
    /// Travel time, in thousandths of a minute.
    pub time: i64,
}

/// Surface kind for shallow concentrated flow.
#[derive(Debug, Clone, Copy, PartialEq, Eq, Structural)]
pub enum SurfaceType {
    /// Paved surface (higher velocity).
    Paved,
    /// Unpaved surface (lower velocity).
    Unpaved,
}

/// Channel flow component of the time of concentration.
#[derive(Debug, Clone, PartialEq)]
pub struct ChannelFlow {
    /// Flow length, in thousandths.
    pub length: i64,
    /// Average velocity, in thousandths.
    pub velocity: i64,
    /// Travel time, in thousandths of a minute.
    pub time: i64,
}

/// The sheet-flow travel time of a breakdown, or zero.
pub open spec fn spec_sheet_time(calc: TcCalculation) -> int {
    match calc.sheet_flow {
        Some(s) => s.time as int,
        None => 0,
    }
}

/// The shallow-concentrated travel time of a breakdown, or zero.
pub open spec fn spec_shallow_time(calc: TcCalculation) -> int {
    match calc.shallow_concentrated {
        Some(s) => s.time as int,
        None => 0,
    }
}

/// The channel-flow travel time of a breakdown, or zero.
pub open spec fn spec_channel_time(calc: TcCalculation) -> int {
    match calc.channel_flow {
        Some(c) => c.time as int,
        None => 0,
    }
}

/// The rational-method peak runoff `Q = C * i * A`, in thousandths:
/// the thousandths-valued factors are multiplied and rescaled.
pub open spec fn spec_rational_runoff(c: int, intensity: int, area: int) -> int {
    div_trunc(c * intensity * area, 1000000)
}

impl DrainageArea {
    /// Total time of concentration from the breakdown components, in
    /// thousandths of a minute.  `None` when no breakdown is given.
    pub fn calculate_total_tc(&self) -> (r: Option<i64>)
        requires
            self.tc_calculation is Some ==> {
                let calc = self.tc_calculation->0;
                &&& -1000000000000000 <= spec_sheet_time(calc) <= 1000000000000000
                &&& -1000000000000000 <= spec_shallow_time(calc) <= 1000000000000000
                &&& -1000000000000000 <= spec_channel_time(calc) <= 1000000000000000
            },
        ensures
            r == match self.tc_calculation {
                Some(calc) => Some(
                    (spec_sheet_time(calc) + spec_shallow_time(calc) + spec_channel_time(calc))
                        as i64,
                ),
                None => None::<i64>,
            },
    {
        match &self.tc_calculation {
            Some(calc) => {
                let sheet: i64 = match &calc.sheet_flow {
                    Some(s) => s.time,
                    None => 0,
                };
                let shallow: i64 = match &calc.shallow_concentrated {
                    Some(s) => s.time,
                    None => 0,
                };
                let channel: i64 = match &calc.channel_flow {
                    Some(c) => c.time,
                    None => 0,
                };
                Some(sheet + shallow + channel)
            },
            None => None,
        }
    }

    /// Peak runoff by the rational method, `Q = C * i * A`, in
    /// thousandths of a cfs (or cms).  `None` when the area carries no
    /// runoff coefficient.
    pub fn rational_method_runoff(&self, intensity: i64) -> (r: Option<i64>)
        requires
            0 <= intensity <= 1000000000,
            0 <= self.area <= 1000000000,
            self.runoff_coefficient is Some ==> 0 <= self.runoff_coefficient->0 <= 1000,
        ensures
            r == match self.runoff_coefficient {
                Some(c) => Some(
                    spec_rational_runoff(c as int, intensity as int, self.area as int) as i64,
                ),
                None => None::<i64>,
            },
    {
        match self.runoff_coefficient {
            Some(c) => {
                proof {
                    assert(0 <= c * intensity <= 1000000000000
                        && 0 <= c * intensity * self.area <= 1000000000000000000000) by (
                    nonlinear_arith)
                        requires
                            0 <= c <= 1000,
                            0 <= intensity <= 1000000000,
                            0 <= self.area <= 1000000000,
                    ;
                }
                let wide: i128 = (c as i128) * (intensity as i128) * (self.area as i128);
                let q: i128 = wide / 1000000;
                Some(q as i64)
            },
            None => None,
        }
    }
}

} // verus!
