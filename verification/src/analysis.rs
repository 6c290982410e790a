//! Analysis results, design criteria and violation reporting.

use vstd::prelude::*;
use vstd::string::StringExecFns;
use crate::seqs::lemma_filter_push;
use crate::text::format_milli;

verus! {

/// Design criteria and constraints.
#[derive(Debug, Clone, PartialEq)]
pub struct DesignCriteria {
    /// Gutter spread criteria (optional).
    pub gutter_spread: Option<GutterSpreadCriteria>,
    /// Hydraulic-grade-line criteria (optional).
    pub hgl_criteria: Option<HglCriteria>,
    /// Velocity criteria (optional).
    pub velocity: Option<VelocityCriteria>,
    /// Cover depth criteria (optional).
    pub cover: Option<CoverCriteria>,
    /// Capacity criteria (optional).
    pub capacity: Option<CapacityCriteria>,
}

/// Gutter spread design criteria, in thousandths.
#[derive(Debug, Clone, PartialEq)]
pub struct GutterSpreadCriteria {
    /// Maximum allowable gutter spread (optional).
    pub max_spread: Option<i64>,
    /// Maximum spread for local streets (optional).
    pub max_spread_local_street: Option<i64>,
    /// Maximum spread for collector streets (optional).
    pub max_spread_collector_street: Option<i64>,
    /// Maximum spread for arterial streets (optional).
    pub max_spread_arterial_street: Option<i64>,
}

/// Hydraulic-grade-line design criteria, in thousandths.
#[derive(Debug, Clone, PartialEq)]
pub struct HglCriteria {
    /// Minimum distance the HGL must stay below the rim (optional).
    pub max_hgl_below_rim: Option<i64>,
    /// Whether surcharge (HGL above the pipe crown) is allowed (optional).
    pub allow_surcharge: Option<bool>,
}

/// Velocity design criteria, in thousandths.
#[derive(Debug, Clone, PartialEq)]
pub struct VelocityCriteria {
    /// Minimum velocity for self-cleansing (optional).
    pub min_velocity: Option<i64>,
    /// Maximum velocity to prevent scour (optional).
    pub max_velocity: Option<i64>,
}

/// Cover depth criteria, in thousandths.
#[derive(Debug, Clone, PartialEq)]
pub struct CoverCriteria {
    /// Minimum cover over the pipe (optional).
    pub min_cover: Option<i64>,
}

/// Capacity criteria, in thousandths.
#[derive(Debug, Clone, PartialEq)]
pub struct CapacityCriteria {
    /// Minimum ratio of available to design capacity (optional).
    pub min_capacity_ratio: Option<i64>,
}

/// Analysis results.
#[derive(Debug, Clone, PartialEq)]
pub struct Analysis {
    /// Analysis method used (optional).
    pub method: Option<AnalysisMethod>,
    /// ID of the design storm analysed (optional).
    pub design_storm_id: Option<String>,
    /// When the analysis was performed (optional).
    pub timestamp: Option<String>,
    /// Solver information (optional).
    pub solver: Option<SolverInfo>,
    /// Computed results at each node (optional).
    pub node_results: Option<Vec<NodeResult>>,
    /// Computed results for each conduit (optional).
    pub conduit_results: Option<Vec<ConduitResult>>,
    /// Computed runoff from drainage areas (optional).
    pub drainage_area_results: Option<Vec<DrainageAreaResult>>,
    /// Design criteria violations (optional).
    pub violations: Option<Vec<Violation>>,
}

/// Analysis method.
#[derive(Debug, Clone, Copy, PartialEq, Eq, Structural)]
pub enum AnalysisMethod {
    /// Rational method.
    Rational,
    /// SCS/NRCS method.
    Scs,
    /// Kinematic wave routing.
    KinematicWave,
    /// Full dynamic wave routing.
    DynamicWave,
}

/// Solver information.
#[derive(Debug, Clone, PartialEq)]
pub struct SolverInfo {
    /// Solver name.
    pub name: String,
    /// Solver version.
    pub version: String,
}

/// Computed results at a node, in thousandths.
#[derive(Debug, Clone, PartialEq)]
pub struct NodeResult {
    /// Node ID.
    pub node_id: String,
    /// Hydraulic grade line elevation (optional).
    pub hgl: Option<i64>,
    /// Energy grade line elevation (optional).
    pub egl: Option<i64>,
    /// Water depth at the node (optional).
    pub depth: Option<i64>,
    /// Velocity at the node (optional).
    pub velocity: Option<i64>,
    /// Whether the node is flooding (HGL above the rim) (optional).
    pub flooding: Option<bool>,
    /// Pressure head (optional).
    pub pressure_head: Option<i64>,
    /// Junction loss at this node, for junctions (optional).
    pub junction_loss: Option<i64>,
}

/// Computed results for a conduit, in thousandths.
#[derive(Debug, Clone, PartialEq)]
pub struct ConduitResult {
    /// Conduit ID.
    pub conduit_id: String,
    /// Flow rate through the conduit (optional).
    pub flow: Option<i64>,
    /// Average velocity (optional).
    pub velocity: Option<i64>,
    /// Flow depth (optional).
    pub depth: Option<i64>,
    /// Fraction of capacity used, in thousandths (optional).
    pub capacity_used: Option<i64>,
    /// Froude number, in thousandths (optional).
    pub froude_number: Option<i64>,
    /// Flow regime classification (optional).
    pub flow_regime: Option<FlowRegime>,
    /// Head loss breakdown (optional).
    pub headloss: Option<HeadLoss>,
}

/// Flow regime.
#[derive(Debug, Clone, Copy, PartialEq, Eq, Structural)]
pub enum FlowRegime {
    /// Subcritical flow (Froude number below one).
    Subcritical,
    /// Critical flow (Froude number near one).
    Critical,
    /// Supercritical flow (Froude number above one).
    Supercritical,
}

/// Head loss components, in thousandths.
#[derive(Debug, Clone, PartialEq)]
pub struct HeadLoss {
    /// Friction loss (optional).
    pub friction: Option<i64>,
    /// Entrance loss (optional).
    pub entrance: Option<i64>,
    /// Exit loss (optional).
    pub exit: Option<i64>,
    /// Bend loss (optional).
    pub bend: Option<i64>,
    /// Total head loss (optional).
    pub total: Option<i64>,
}

/// Computed runoff from a drainage area, in thousandths.
#[derive(Debug, Clone, PartialEq)]
pub struct DrainageAreaResult {
    /// Drainage area ID.
    pub drainage_area_id: String,
    /// Peak runoff flow rate (optional).
    pub peak_flow: Option<i64>,
    /// Time of peak flow, in thousandths of a minute (optional).
    pub time_of_peak: Option<i64>,
    /// Total runoff volume (optional).
    pub total_volume: Option<i64>,
    /// Rainfall intensity used (optional).
    pub intensity: Option<i64>,
}

/// Design criteria violation.
#[derive(Debug, Clone, PartialEq)]
pub struct Violation {
    /// Violation kind.
    pub violation_type: ViolationType,
    /// Severity level.
    pub severity: Severity,
    /// ID of the node or conduit with the violation.
    pub element_id: String,
    /// Human-readable violation description.
    pub message: String,
    /// Actual computed value, in thousandths (optional).
    pub value: Option<i64>,
    /// Design limit that was exceeded, in thousandths (optional).
    pub limit: Option<i64>,
}

/// Violation kind.
#[derive(Debug, Clone, Copy, PartialEq, Eq, Structural)]
pub enum ViolationType {
    /// Gutter spread violation.
    Spread,
    /// HGL elevation violation.
    Hgl,
    /// Velocity violation.
    Velocity,
    /// Cover depth violation.
    Cover,
    /// Capacity violation.
    Capacity,
    /// Flooding violation.
    Flooding,
}

/// Severity level.
#[derive(Debug, Clone, Copy, PartialEq, Eq, Structural)]
pub enum Severity {
    /// Error: must be fixed.
    Error,
    /// Warning: should be reviewed.
    Warning,
    /// Information only.
    Info,
}

/// Relies on chrono's `DateTime::from_timestamp_millis` and
/// `to_rfc3339`: the current time rendered as an RFC 3339 timestamp,
/// with the epoch standing in when the system clock reads before it
/// or past chrono's range.  The result depends on the clock, so its
/// contract claims nothing about the value.
#[verifier::external_body]
fn now_rfc3339() -> String {
    let millis = std::time::SystemTime::now()
        .duration_since(std::time::UNIX_EPOCH)
        .map(|d| d.as_millis() as i64)
        .unwrap_or(0);
    chrono::DateTime::<chrono::Utc>::from_timestamp_millis(millis)
        .unwrap_or_default()
        .to_rfc3339()
}

impl Analysis {
    /// Create a new empty analysis result, stamped with the current time.
    pub fn new(method: AnalysisMethod, design_storm_id: String) -> (r: Analysis)
        ensures
            r.method == Some(method),
            r.design_storm_id == Some(design_storm_id),
            r.timestamp is Some,
            r.solver is None,
            r.node_results is Some && r.node_results->0@ == Seq::<NodeResult>::empty(),
            r.conduit_results is Some && r.conduit_results->0@ == Seq::<ConduitResult>::empty(),
            r.drainage_area_results is Some && r.drainage_area_results->0@ == Seq::<
                DrainageAreaResult,
            >::empty(),
            r.violations is Some && r.violations->0@ == Seq::<Violation>::empty(),
    {
        let node_results: Vec<NodeResult> = Vec::new();
        let conduit_results: Vec<ConduitResult> = Vec::new();
        let drainage_area_results: Vec<DrainageAreaResult> = Vec::new();
        let violations: Vec<Violation> = Vec::new();
        proof {
            assert(node_results@ =~= Seq::<NodeResult>::empty());
            assert(conduit_results@ =~= Seq::<ConduitResult>::empty());
            assert(drainage_area_results@ =~= Seq::<DrainageAreaResult>::empty());
            assert(violations@ =~= Seq::<Violation>::empty());
        }
        Analysis {
            method: Some(method),
            design_storm_id: Some(design_storm_id),
            timestamp: Some(now_rfc3339()),
            solver: None,
            node_results: Some(node_results),
            conduit_results: Some(conduit_results),
            drainage_area_results: Some(drainage_area_results),
            violations: Some(violations),
        }
    }

    /// Append a violation, creating the list when absent.
    pub fn add_violation(&mut self, violation: Violation)
        ensures
            final(self).violations is Some,
            match old(self).violations {
                Some(v) => final(self).violations->0@ == v@.push(violation),
                None => final(self).violations->0@ == seq![violation],
            },
            final(self).method == old(self).method,
            final(self).design_storm_id == old(self).design_storm_id,
            final(self).timestamp == old(self).timestamp,
            final(self).solver == old(self).solver,
            final(self).node_results == old(self).node_results,
            final(self).conduit_results == old(self).conduit_results,
            final(self).drainage_area_results == old(self).drainage_area_results,
    {
        match &mut self.violations {
            Some(v) => {
                v.push(violation);
            },
            None => {
                let mut v: Vec<Violation> = Vec::new();
                v.push(violation);
                proof {
                    assert(v@ =~= seq![violation]);
                }
                self.violations = Some(v);
            },
        }
    }

    /// All violations of one kind, in list order.
    pub fn get_violations_by_type(&self, violation_type: ViolationType) -> (r: Vec<&Violation>)
        ensures
            match self.violations {
                Some(v) => {
                    let picked = v@.filter(
                        |viol: Violation| viol.violation_type == violation_type,
                    );
                    &&& r@.len() == picked.len()
                    &&& forall|k: int| 0 <= k < r@.len() ==> *r@[k] == picked[k]
                },
                None => r@.len() == 0,
            },
    {
        match &self.violations {
            Some(v) => {
                let pred = Ghost(|viol: Violation| viol.violation_type == violation_type);
                let mut result: Vec<&Violation> = Vec::new();
                let n = v.len();
                assert(v@.subrange(0, 0).filter(pred@) =~= Seq::<Violation>::empty());
                for i in 0..n
                    invariant
                        n == v@.len(),
                        result@.len() == v@.subrange(0, i as int).filter(pred@).len(),
                        forall|k: int| 0 <= k < result@.len() ==> *result@[k] == v@.subrange(
                            0,
                            i as int,
                        ).filter(pred@)[k],
                        pred@ == (|viol: Violation| viol.violation_type == violation_type),
                {
                    proof {
                        assert(v@.subrange(0, i + 1) =~= v@.subrange(0, i as int).push(
                            v@[i as int],
                        ));
                        lemma_filter_push(v@.subrange(0, i as int), pred@, v@[i as int]);
                    }
                    if v[i].violation_type == violation_type {
                        result.push(&v[i]);
                    }
                }
                proof {
                    assert(v@.subrange(0, n as int) =~= v@);
                }
                result
            },
            None => Vec::new(),
        }
    }

    /// All violations with severity `Error`, in list order.
    pub fn get_errors(&self) -> (r: Vec<&Violation>)
        ensures
            match self.violations {
                Some(v) => {
                    let picked = v@.filter(|viol: Violation| viol.severity == Severity::Error);
                    &&& r@.len() == picked.len()
                    &&& forall|k: int| 0 <= k < r@.len() ==> *r@[k] == picked[k]
                },
                None => r@.len() == 0,
            },
    {
        match &self.violations {
            Some(v) => {
                let pred = Ghost(|viol: Violation| viol.severity == Severity::Error);
                let mut result: Vec<&Violation> = Vec::new();
                let n = v.len();
                assert(v@.subrange(0, 0).filter(pred@) =~= Seq::<Violation>::empty());
                for i in 0..n
                    invariant
                        n == v@.len(),
                        result@.len() == v@.subrange(0, i as int).filter(pred@).len(),
                        forall|k: int| 0 <= k < result@.len() ==> *result@[k] == v@.subrange(
                            0,
                            i as int,
                        ).filter(pred@)[k],
                        pred@ == (|viol: Violation| viol.severity == Severity::Error),
                {
                    proof {
                        assert(v@.subrange(0, i + 1) =~= v@.subrange(0, i as int).push(
                            v@[i as int],
                        ));
                        lemma_filter_push(v@.subrange(0, i as int), pred@, v@[i as int]);
                    }
                    if v[i].severity == Severity::Error {
                        result.push(&v[i]);
                    }
                }
                proof {
                    assert(v@.subrange(0, n as int) =~= v@);
                }
                result
            },
            None => Vec::new(),
        }
    }

    /// Whether the analysis holds any violation with severity `Error`.
    pub fn has_errors(&self) -> (r: bool)
        ensures
            r == (self.violations is Some && exists|i: int|
                0 <= i < self.violations->0@.len() && (#[trigger] self.violations->0@[i]).severity
                    == Severity::Error),
    {
        match &self.violations {
            Some(v) => {
                let n = v.len();
                for i in 0..n
                    invariant
                        self.violations is Some,
                        v@ == self.violations->0@,
                        n == v@.len(),
                        forall|j: int| 0 <= j < i ==> (#[trigger] v@[j]).severity
                            != Severity::Error,
                {
                    if v[i].severity == Severity::Error {
                        proof {
                            assert(0 <= i < self.violations->0@.len() && (self.violations->0@[
                                i as int
                            ]).severity == Severity::Error);
                        }
                        return true;
                    }
                }
                false
            },
            None => false,
        }
    }
}

impl Violation {
    /// Create a new HGL violation.
    pub fn hgl_violation(element_id: String, hgl: i64, rim: i64, severity: Severity) -> (r:
        Violation)
        requires
            -1000000000000000 <= hgl <= 1000000000000000,
            -1000000000000000 <= rim <= 1000000000000000,
        ensures
            r.violation_type == ViolationType::Hgl,
            r.severity == severity,
            r.element_id == element_id,
            r.value == Some(hgl),
            r.limit == Some(rim),
    {
        let mut message = String::new();
        message.append("HGL at ");
        message.append(format_milli(hgl, 2).as_str());
        message.append(" ft is ");
        message.append(format_milli(hgl - rim, 2).as_str());
        message.append(" ft above rim elevation of ");
        message.append(format_milli(rim, 2).as_str());
        message.append(" ft");
        Violation {
            violation_type: ViolationType::Hgl,
            severity,
            element_id,
            message,
            value: Some(hgl),
            limit: Some(rim),
        }
    }

    /// Create a new gutter spread violation.
    pub fn spread_violation(
        element_id: String,
        spread: i64,
        max_spread: i64,
        severity: Severity,
    ) -> (r: Violation)
        ensures
            r.violation_type == ViolationType::Spread,
            r.severity == severity,
            r.element_id == element_id,
            r.value == Some(spread),
            r.limit == Some(max_spread),
    {
        let mut message = String::new();
        message.append("Gutter spread of ");
        message.append(format_milli(spread, 1).as_str());
        message.append(" ft exceeds maximum allowable spread of ");
        message.append(format_milli(max_spread, 1).as_str());
        message.append(" ft");
        Violation {
            violation_type: ViolationType::Spread,
            severity,
            element_id,
            message,
            value: Some(spread),
            limit: Some(max_spread),
        }
    }

    /// Create a new capacity violation.  The capacity fraction is in
    /// thousandths, so `1250` stands for 125 percent.
    pub fn capacity_violation(element_id: String, capacity_used: i64, severity: Severity) -> (r:
        Violation)
        requires
            -1000000000000000 <= capacity_used <= 1000000000000000,
        ensures
            r.violation_type == ViolationType::Capacity,
            r.severity == severity,
            r.element_id == element_id,
            r.value == Some(capacity_used),
            r.limit == Some(1000i64),
    {
        let mut message = String::new();
        message.append("Pipe ");
        message.append(element_id.as_str());
        message.append(" is operating at ");
        message.append(format_milli(capacity_used * 100, 0).as_str());
        message.append("% capacity (undersized)");
        Violation {
            violation_type: ViolationType::Capacity,
            severity,
            element_id,
            message,
            value: Some(capacity_used),
            limit: Some(1000),
        }
    }
}

} // verus!
