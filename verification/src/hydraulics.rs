//! Hydraulic energy bookkeeping: velocity heads, the energy-loss
//! library (friction terms are the caller's business where they need
//! fractional powers), the flow-regime classifier, and the access-hole
//! method's energy levels and loss coefficients.
//!
//! All quantities are in thousandths.  Velocities, depths and energy
//! levels are thousandths of the engine unit; loss coefficients and
//! other dimensionless ratios are thousandths; angles are thousandths
//! of a degree.  The discharge intensity and the inlet-control energy
//! levels need a square root and a fractional power, so callers supply
//! those two values; everything downstream of them is computed and
//! verified here.

use vstd::prelude::*;
use crate::fixed::div_trunc;
use crate::fixed::div_i64;
use crate::fixed::max_i64;
use crate::fixed::min_i64;
use crate::fixed::mul_milli;
use crate::fixed::lemma_div_trunc_bound;

verus! {

/// Gravitational acceleration, US customary, in thousandths.
pub const GRAVITY_US: i64 = 32170;

/// Gravitational acceleration, SI metric, in thousandths.
pub const GRAVITY_SI: i64 = 9810;

/// Manning's equation constant, US customary, in thousandths.
pub const MANNING_CONST_US: i64 = 1486;

/// Manning's equation constant, SI metric, in thousandths.
pub const MANNING_CONST_SI: i64 = 1000;

/// Flow regime classification.
#[derive(Debug, Clone, Copy, PartialEq, Eq, Structural)]
pub enum FlowRegime {
    /// Subcritical flow (Froude number below one).
    Subcritical,
    /// Critical flow (Froude number near one).
    Critical,
    /// Supercritical flow (Froude number above one).
    Supercritical,
}

/// The velocity head `V^2 / (2 g)`, in thousandths.
pub open spec fn spec_velocity_head(v: int, g: int) -> int {
    div_trunc(v * v, 2 * g)
}

/// A loss of the form `K * V^2 / (2 g)`, in thousandths.
pub open spec fn spec_k_loss(k: int, v: int, g: int) -> int {
    div_trunc(k * spec_velocity_head(v, g), 1000)
}

/// Manning's equation helpers that do not need fractional powers.
#[derive(Debug, Clone, PartialEq)]
pub struct ManningsEquation {
    /// Manning's constant in thousandths (1486 US, 1000 SI).
    pub k: i64,
}

impl ManningsEquation {
    /// Create for US customary units.
    pub fn us_customary() -> (r: ManningsEquation)
        ensures
            r.k == MANNING_CONST_US,
    {
        ManningsEquation { k: MANNING_CONST_US }
    }

    /// Create for SI metric units.
    pub fn si_metric() -> (r: ManningsEquation)
        ensures
            r.k == MANNING_CONST_SI,
    {
        ManningsEquation { k: MANNING_CONST_SI }
    }

    /// Classify the flow regime from a Froude number in thousandths:
    /// within 0.05 of one is critical, below one subcritical, above
    /// one supercritical.
    pub fn flow_regime(&self, froude_number: i64) -> (r: FlowRegime)
        ensures
            r == (if -50 < froude_number - 1000 < 50 {
                FlowRegime::Critical
            } else if froude_number < 1000 {
                FlowRegime::Subcritical
            } else {
                FlowRegime::Supercritical
            }),
    {
        if froude_number > 950 && froude_number < 1050 {
            FlowRegime::Critical
        } else if froude_number < 1000 {
            FlowRegime::Subcritical
        } else {
            FlowRegime::Supercritical
        }
    }
}

/// The energy-loss library: entrance, exit, bend, expansion,
/// contraction and coefficient-based junction losses.
#[derive(Debug, Clone, PartialEq)]
pub struct EnergyLoss {
    /// Gravitational constant in thousandths.
    pub gravity: i64,
}

impl EnergyLoss {
    /// Create for US customary units.
    pub fn us_customary() -> (r: EnergyLoss)
        ensures
            r.gravity == GRAVITY_US,
    {
        EnergyLoss { gravity: GRAVITY_US }
    }

    /// Create for SI metric units.
    pub fn si_metric() -> (r: EnergyLoss)
        ensures
            r.gravity == GRAVITY_SI,
    {
        EnergyLoss { gravity: GRAVITY_SI }
    }

    /// The velocity head `V^2 / (2 g)`, in thousandths.
    pub fn velocity_head(&self, velocity: i64) -> (r: i64)
        requires
            0 < self.gravity <= 1000000,
            -100000000 <= velocity <= 100000000,
        ensures
            r == spec_velocity_head(velocity as int, self.gravity as int),
    {
        proof {
            lemma_div_trunc_bound(velocity * velocity, 2 * self.gravity as int);
            assert(0 <= velocity * velocity <= 10000000000000000) by (nonlinear_arith)
                requires
                    -100000000 <= velocity <= 100000000,
            ;
        }
        div_i64(velocity * velocity, 2 * self.gravity)
    }

    /// Entrance loss `H_i = K_i V^2 / (2 g)`, in thousandths.
    pub fn entrance_loss(&self, velocity: i64, k_entrance: i64) -> (r: i64)
        requires
            0 < self.gravity <= 1000000,
            -100000000 <= velocity <= 100000000,
            0 <= k_entrance <= 100000,
        ensures
            r == spec_k_loss(k_entrance as int, velocity as int, self.gravity as int),
    {
        let vh = self.velocity_head(velocity);
        proof {
            lemma_div_trunc_bound(velocity * velocity, 2 * self.gravity as int);
            assert(0 <= velocity * velocity <= 10000000000000000) by (nonlinear_arith)
                requires
                    -100000000 <= velocity <= 100000000,
            ;
            assert(0 <= k_entrance * vh <= 100000 * 10000000000000000) by (nonlinear_arith)
                requires
                    0 <= k_entrance <= 100000,
                    0 <= vh <= 10000000000000000,
            ;
            lemma_div_trunc_bound(k_entrance * vh, 1000);
        }
        crate::fixed::mul_div_thousand(k_entrance, vh)
    }

    /// Exit loss `H_o = K (V_up^2 - V_down^2) / (2 g)`, floored at
    /// zero, in thousandths.
    pub fn exit_loss(&self, v_upstream: i64, v_downstream: i64, k_exit: i64) -> (r: i64)
        requires
            0 < self.gravity <= 1000000,
            -100000000 <= v_upstream <= 100000000,
            -100000000 <= v_downstream <= 100000000,
            0 <= k_exit <= 100000,
        ensures
            r == div_trunc(
                k_exit * (if spec_velocity_head(v_upstream as int, self.gravity as int)
                    >= spec_velocity_head(v_downstream as int, self.gravity as int) {
                    spec_velocity_head(v_upstream as int, self.gravity as int)
                        - spec_velocity_head(v_downstream as int, self.gravity as int)
                } else {
                    0int
                }),
                1000,
            ),
    {
        let vh_up = self.velocity_head(v_upstream);
        let vh_down = self.velocity_head(v_downstream);
        proof {
            lemma_div_trunc_bound(v_upstream * v_upstream, 2 * self.gravity as int);
            lemma_div_trunc_bound(v_downstream * v_downstream, 2 * self.gravity as int);
            assert(0 <= v_upstream * v_upstream <= 10000000000000000 && 0 <= v_downstream
                * v_downstream <= 10000000000000000) by (nonlinear_arith)
                requires
                    -100000000 <= v_upstream <= 100000000,
                    -100000000 <= v_downstream <= 100000000,
            ;
        }
        let diff = if vh_up >= vh_down {
            vh_up - vh_down
        } else {
            0
        };
        proof {
            assert(0 <= k_exit * diff <= 100000 * 10000000000000000) by (nonlinear_arith)
                requires
                    0 <= k_exit <= 100000,
                    0 <= diff <= 10000000000000000,
            ;
            lemma_div_trunc_bound(k_exit * diff, 1000);
        }
        crate::fixed::mul_div_thousand(k_exit, diff)
    }

    /// Bend loss `H_b = 0.0033 delta V^2 / (2 g)` with the angle in
    /// thousandths of a degree, in thousandths.
    pub fn bend_loss(&self, velocity: i64, bend_angle: i64) -> (r: i64)
        requires
            0 < self.gravity <= 1000000,
            -100000000 <= velocity <= 100000000,
            0 <= bend_angle <= 360000,
        ensures
            r == spec_k_loss(
                div_trunc(33 * bend_angle, 10000),
                velocity as int,
                self.gravity as int,
            ),
    {
        let k_bend = div_i64(33 * bend_angle, 10000);
        proof {
            lemma_div_trunc_bound(33 * bend_angle as int, 10000);
        }
        self.entrance_loss(velocity, k_bend)
    }

    /// Expansion loss `H_e = K_e (V_down^2 - V_up^2) / (2 g)`, floored
    /// at zero, in thousandths.
    pub fn expansion_loss(&self, v_upstream: i64, v_downstream: i64, k_expansion: i64) -> (r: i64)
        requires
            0 < self.gravity <= 1000000,
            -100000000 <= v_upstream <= 100000000,
            -100000000 <= v_downstream <= 100000000,
            0 <= k_expansion <= 100000,
        ensures
            r == div_trunc(
                k_expansion * (if spec_velocity_head(v_downstream as int, self.gravity as int)
                    >= spec_velocity_head(v_upstream as int, self.gravity as int) {
                    spec_velocity_head(v_downstream as int, self.gravity as int)
                        - spec_velocity_head(v_upstream as int, self.gravity as int)
                } else {
                    0int
                }),
                1000,
            ),
    {
        self.exit_loss(v_downstream, v_upstream, k_expansion)
    }

    /// Contraction loss, the same form as the expansion loss.
    pub fn contraction_loss(&self, v_upstream: i64, v_downstream: i64, k_contraction: i64) -> (r:
        i64)
        requires
            0 < self.gravity <= 1000000,
            -100000000 <= v_upstream <= 100000000,
            -100000000 <= v_downstream <= 100000000,
            0 <= k_contraction <= 100000,
        ensures
            r == div_trunc(
                k_contraction * (if spec_velocity_head(v_downstream as int, self.gravity as int)
                    >= spec_velocity_head(v_upstream as int, self.gravity as int) {
                    spec_velocity_head(v_downstream as int, self.gravity as int)
                        - spec_velocity_head(v_upstream as int, self.gravity as int)
                } else {
                    0int
                }),
                1000,
            ),
    {
        self.exit_loss(v_downstream, v_upstream, k_contraction)
    }

    /// Junction loss at a pipe junction by the momentum balance, in
    /// thousandths:
    /// `H_j = (Q_o V_o - Q_i V_i - Q_l V_l cos t_j) / (0.5 g (A_o + A_i)) + h_i - h_o`,
    /// with the lateral angle's cosine supplied in thousandths and the
    /// inlet and outlet velocity heads computed here.
    pub fn junction_loss(
        &self,
        q_outlet: i64,
        q_inlet: i64,
        q_lateral: i64,
        v_outlet: i64,
        v_inlet: i64,
        v_lateral: i64,
        a_outlet: i64,
        a_inlet: i64,
        cos_theta_j: i64,
    ) -> (r: i64)
        requires
            0 < self.gravity <= 1000000,
            -100000000 <= v_outlet <= 100000000,
            -100000000 <= v_inlet <= 100000000,
            -1000 <= cos_theta_j <= 1000,
            -1000000000000000 <= q_outlet * v_outlet <= 1000000000000000,
            -1000000000000000 <= q_inlet * v_inlet <= 1000000000000000,
            -1000000000000000 <= q_lateral * v_lateral <= 1000000000000000,
            0 <= a_outlet <= 1000000000000,
            0 <= a_inlet <= 1000000000000,
            a_outlet + a_inlet >= 1,
        ensures
            r as int == spec_junction_loss(
                q_outlet as int,
                q_inlet as int,
                q_lateral as int,
                v_outlet as int,
                v_inlet as int,
                v_lateral as int,
                a_outlet as int,
                a_inlet as int,
                cos_theta_j as int,
                self.gravity as int,
            ),
    {
        let h_inlet = self.velocity_head(v_inlet);
        let h_outlet = self.velocity_head(v_outlet);
        proof {
            lemma_div_trunc_bound(v_inlet * v_inlet, 2 * self.gravity as int);
            lemma_div_trunc_bound(v_outlet * v_outlet, 2 * self.gravity as int);
            assert(0 <= v_inlet * v_inlet <= 10000000000000000 && 0 <= v_outlet * v_outlet
                <= 10000000000000000) by (nonlinear_arith)
                requires
                    -100000000 <= v_inlet <= 100000000,
                    -100000000 <= v_outlet <= 100000000,
            ;
            assert(-1000000000000000000 <= q_lateral * v_lateral * cos_theta_j
                <= 1000000000000000000) by (nonlinear_arith)
                requires
                    -1000000000000000 <= q_lateral * v_lateral <= 1000000000000000,
                    -1000 <= cos_theta_j <= 1000,
            ;
            lemma_div_trunc_bound(q_lateral * v_lateral * cos_theta_j, 1000);
        }
        let lateral_term: i128 = ((q_lateral as i128) * (v_lateral as i128)
            * (cos_theta_j as i128)) / 1000;
        let momentum: i128 = (q_outlet as i128) * (v_outlet as i128) - (q_inlet as i128) * (
        v_inlet as i128) - lateral_term;
        proof {
            assert(0 < self.gravity * (a_outlet + a_inlet) <= 2000000000000000000)
                by (nonlinear_arith)
                requires
                    0 < self.gravity <= 1000000,
                    1 <= a_outlet + a_inlet <= 2000000000000,
            ;
        }
        let denominator: i128 = (self.gravity as i128) * ((a_outlet + a_inlet) as i128);
        proof {
            lemma_div_trunc_bound(2000 * momentum as int, denominator as int);
        }
        let q: i128 = (2000 * momentum) / denominator;
        proof {
            assert(-6004000000000000000 <= 2000 * momentum <= 6004000000000000000);
        }
        (q as i64) + h_inlet - h_outlet
    }

    /// Junction loss by the coefficient method, `K V_o^2 / (2 g)`, in
    /// thousandths.
    pub fn junction_loss_k_method(&self, v_outlet: i64, k_junction: i64) -> (r: i64)
        requires
            0 < self.gravity <= 1000000,
            -100000000 <= v_outlet <= 100000000,
            0 <= k_junction <= 100000,
        ensures
            r == spec_k_loss(k_junction as int, v_outlet as int, self.gravity as int),
    {
        self.entrance_loss(v_outlet, k_junction)
    }

    /// Approximate access-hole loss `K_ah V_o^2 / (2 g)`, in
    /// thousandths.  For preliminary design only; the access-hole
    /// method below is the one the solver uses for the energy grade.
    pub fn approximate_access_hole_loss(&self, v_outlet: i64, k_access_hole: i64) -> (r: i64)
        requires
            0 < self.gravity <= 1000000,
            -100000000 <= v_outlet <= 100000000,
            0 <= k_access_hole <= 100000,
        ensures
            r == spec_k_loss(k_access_hole as int, v_outlet as int, self.gravity as int),
    {
        self.entrance_loss(v_outlet, k_access_hole)
    }

    /// Total head loss for a conduit: friction plus entrance plus exit
    /// plus bend.
    pub fn total_conduit_loss(&self, friction: i64, entrance: i64, exit: i64, bend: i64) -> (r:
        i64)
        requires
            -1000000000000 <= friction <= 1000000000000,
            -1000000000000 <= entrance <= 1000000000000,
            -1000000000000 <= exit <= 1000000000000,
            -1000000000000 <= bend <= 1000000000000,
        ensures
            r == friction + entrance + exit + bend,
    {
        friction + entrance + exit + bend
    }
}

/// Benching configuration of an access hole.
#[derive(Debug, Clone, Copy, PartialEq, Eq, Structural)]
pub enum BenchingType {
    /// Flat floor.
    Flat,
    /// Depressed floor.
    Depressed,
    /// Improved benching.
    Improved,
}

/// An inflow pipe at an access hole, in thousandths.
#[derive(Debug, Clone, Copy, PartialEq)]
pub struct InflowPipe {
    /// Flow rate.
    pub flow: i64,
    /// Velocity.
    pub velocity: i64,
    /// Diameter.
    pub diameter: i64,
    /// Cross-sectional area.
    pub area: i64,
    /// Angle from the outlet pipe, in thousandths of a degree; 180
    /// degrees is straight through.
    pub angle: i64,
    /// Invert elevation above the access-hole invert.
    pub invert_offset: i64,
}

/// The junction momentum loss of HEC-22's combining-flow relation, in
/// thousandths, with the lateral angle's cosine in thousandths.
pub open spec fn spec_junction_loss(
    q_o: int,
    q_i: int,
    q_l: int,
    v_o: int,
    v_i: int,
    v_l: int,
    a_o: int,
    a_i: int,
    cos_theta: int,
    g: int,
) -> int {
    div_trunc(
        2000 * (q_o * v_o - q_i * v_i - div_trunc(q_l * v_l * cos_theta, 1000)),
        g * (a_o + a_i),
    ) + spec_velocity_head(v_i, g) - spec_velocity_head(v_o, g)
}

/// The benching coefficient from the submergence ratio `E_ai / D_o`:
/// zones below one, between one and two and a half, and above.
pub open spec fn spec_benching_coefficient(benching: BenchingType, e_ai: int, d_o: int) -> int {
    match benching {
        BenchingType::Flat => 0,
        BenchingType::Depressed => if 2 * e_ai > 5 * d_o {
            500
        } else if e_ai < d_o {
            300
        } else {
            400
        },
        BenchingType::Improved => if 2 * e_ai > 5 * d_o {
            -300
        } else if e_ai < d_o {
            -500
        } else {
            -400
        },
    }
}

/// The relative plunge height `h_k = (min(z_k, 10 D_o) - E_ai) / D_o`,
/// in thousandths.
pub open spec fn spec_plunge_height(z: int, e_ai: int, d_o: int) -> int {
    div_trunc(((if z <= 10 * d_o {
        z
    } else {
        10 * d_o
    }) - e_ai) * 1000, d_o)
}

/// The plunging-flow numerator `sum(Q_k h_k)` over the first `upto`
/// plunging pipes.
pub open spec fn spec_plunge_sum(pipes: Seq<InflowPipe>, e_ai: int, d_o: int, upto: int) -> int
    decreases upto,
{
    if upto <= 0 {
        0
    } else {
        spec_plunge_sum(pipes, e_ai, d_o, upto - 1) + pipes[upto - 1].flow as int
            * spec_plunge_height(pipes[upto - 1].invert_offset as int, e_ai, d_o)
    }
}

/// The combined additional loss `H_a = (C_B + C_t + C_P)(E_ai - E_i)`,
/// floored at zero, in thousandths.
pub open spec fn spec_additional_loss(c_sum: int, e_ai: int, e_i: int) -> int {
    let h = mul_milli(c_sum, e_ai - e_i);
    if h >= 0 {
        h
    } else {
        0
    }
}

/// The access-hole method without its two transcendental inputs.  The
/// caller supplies the inlet-control energy levels, which need a
/// square root and a fractional power of the discharge intensity.
#[derive(Debug, Clone, PartialEq)]
pub struct FhwaAccessHoleMethod {
    /// Gravitational constant in thousandths.
    pub gravity: i64,
}

impl FhwaAccessHoleMethod {
    /// Create for US customary units.
    pub fn us_customary() -> (r: FhwaAccessHoleMethod)
        ensures
            r.gravity == GRAVITY_US,
    {
        FhwaAccessHoleMethod { gravity: GRAVITY_US }
    }

    /// Create for SI metric units.
    pub fn si_metric() -> (r: FhwaAccessHoleMethod)
        ensures
            r.gravity == GRAVITY_SI,
    {
        FhwaAccessHoleMethod { gravity: GRAVITY_SI }
    }

    /// Energy head from its components: depth plus pressure head plus
    /// velocity head.
    pub fn energy_head_from_components(
        &self,
        depth: i64,
        pressure_head: i64,
        velocity_head: i64,
    ) -> (r: i64)
        requires
            -1000000000000 <= depth <= 1000000000000,
            -1000000000000 <= pressure_head <= 1000000000000,
            -1000000000000 <= velocity_head <= 1000000000000,
        ensures
            r == depth + pressure_head + velocity_head,
    {
        depth + pressure_head + velocity_head
    }

    /// Energy head above the invert: `E_i = EGL_i - Z_i`.
    pub fn energy_head_from_egl(&self, egl: i64, invert_elevation: i64) -> (r: i64)
        requires
            -1000000000000 <= egl <= 1000000000000,
            -1000000000000 <= invert_elevation <= 1000000000000,
        ensures
            r == egl - invert_elevation,
    {
        egl - invert_elevation
    }

    /// Outlet-control energy level: `E_aio = E_i + 0.2 V^2 / (2 g)`.
    pub fn outlet_control_energy(&self, outflow_energy_head: i64, outflow_velocity: i64) -> (r:
        i64)
        requires
            0 < self.gravity <= 1000000,
            -100000000 <= outflow_velocity <= 100000000,
            -1000000000000 <= outflow_energy_head <= 1000000000000,
        ensures
            r == outflow_energy_head + spec_k_loss(
                200,
                outflow_velocity as int,
                self.gravity as int,
            ),
            r >= outflow_energy_head,
    {
        let losses = EnergyLoss { gravity: self.gravity };
        let entrance = losses.entrance_loss(outflow_velocity, 200);
        proof {
            lemma_div_trunc_bound(outflow_velocity * outflow_velocity, 2 * self.gravity as int);
            assert(0 <= outflow_velocity * outflow_velocity <= 10000000000000000)
                by (nonlinear_arith)
                requires
                    -100000000 <= outflow_velocity <= 100000000,
            ;
            lemma_div_trunc_bound(
                200 * spec_velocity_head(outflow_velocity as int, self.gravity as int),
                1000,
            );
            assert(200 * spec_velocity_head(outflow_velocity as int, self.gravity as int) >= 0)
                by (nonlinear_arith)
                requires
                    spec_velocity_head(outflow_velocity as int, self.gravity as int) >= 0,
            ;
        }
        outflow_energy_head + entrance
    }

    /// Initial access-hole energy level: the largest of the outlet
    /// control, submerged inlet control and unsubmerged inlet control
    /// levels.
    pub fn initial_energy_level(
        &self,
        outlet_control: i64,
        submerged_inlet: i64,
        unsubmerged_inlet: i64,
    ) -> (r: i64)
        ensures
            r >= outlet_control && r >= submerged_inlet && r >= unsubmerged_inlet,
            r == outlet_control || r == submerged_inlet || r == unsubmerged_inlet,
    {
        max_i64(max_i64(outlet_control, submerged_inlet), unsubmerged_inlet)
    }

    /// Benching loss coefficient from HEC-22's benching table, in
    /// thousandths: improved benching reduces the loss, a depressed
    /// floor increases it, and a flat floor is neutral.
    pub fn benching_coefficient(
        &self,
        benching_type: BenchingType,
        initial_energy: i64,
        outflow_diameter: i64,
    ) -> (r: i64)
        requires
            0 < outflow_diameter <= 1000000000,
            -1000000000000 <= initial_energy <= 1000000000000,
        ensures
            r == spec_benching_coefficient(
                benching_type,
                initial_energy as int,
                outflow_diameter as int,
            ),
    {
        match benching_type {
            BenchingType::Flat => 0,
            BenchingType::Depressed => {
                if 2 * initial_energy > 5 * outflow_diameter {
                    500
                } else if initial_energy < outflow_diameter {
                    300
                } else {
                    400
                }
            },
            BenchingType::Improved => {
                if 2 * initial_energy > 5 * outflow_diameter {
                    -300
                } else if initial_energy < outflow_diameter {
                    -500
                } else {
                    -400
                }
            },
        }
    }

    /// The flow-weighted inflow angle `sum(Q_j theta_j) / sum(Q_j)`, in
    /// thousandths of a degree; 180 degrees when nothing flows.
    pub fn flow_weighted_angle(&self, inflow_pipes: &Vec<InflowPipe>) -> (r: i64)
        requires
            inflow_pipes@.len() <= 1000,
            forall|i: int| 0 <= i < inflow_pipes@.len() ==> {
                &&& 0 <= (#[trigger] inflow_pipes@[i]).flow <= 1000000000000
                &&& 0 <= inflow_pipes@[i].angle <= 360000
            },
        ensures
            r as int == (if spec_sum_flow(inflow_pipes@, inflow_pipes@.len() as int) > 0 {
                div_trunc(
                    spec_sum_flow_angle(inflow_pipes@, inflow_pipes@.len() as int),
                    spec_sum_flow(inflow_pipes@, inflow_pipes@.len() as int),
                )
            } else {
                180000int
            }),
    {
        let n = inflow_pipes.len();
        let mut sum_q: i64 = 0;
        let mut sum_qt: i128 = 0;
        for i in 0..n
            invariant
                n == inflow_pipes@.len(),
                n <= 1000,
                forall|j: int| 0 <= j < n ==> {
                    &&& 0 <= (#[trigger] inflow_pipes@[j]).flow <= 1000000000000
                    &&& 0 <= inflow_pipes@[j].angle <= 360000
                },
                sum_q as int == spec_sum_flow(inflow_pipes@, i as int),
                sum_qt as int == spec_sum_flow_angle(inflow_pipes@, i as int),
                0 <= sum_q <= i * 1000000000000,
                0 <= sum_qt,
                sum_qt <= 360000 * (sum_q as i128),
        {
            proof {
                assert(0 <= inflow_pipes@[i as int].flow * inflow_pipes@[i as int].angle
                    <= 360000000000000000) by (nonlinear_arith)
                    requires
                        0 <= inflow_pipes@[i as int].flow <= 1000000000000,
                        0 <= inflow_pipes@[i as int].angle <= 360000,
                ;
            }
            proof {
                assert(inflow_pipes@[i as int].flow * inflow_pipes@[i as int].angle <= 360000
                    * inflow_pipes@[i as int].flow) by (nonlinear_arith)
                    requires
                        0 <= inflow_pipes@[i as int].flow,
                        0 <= inflow_pipes@[i as int].angle <= 360000,
                ;
            }
            sum_q = sum_q + inflow_pipes[i].flow;
            sum_qt = sum_qt + (inflow_pipes[i].flow as i128) * (inflow_pipes[i].angle as i128);
        }
        if sum_q > 0 {
            let q: i128 = sum_qt / (sum_q as i128);
            proof {
                crate::fixed::lemma_div_trunc_ordered(
                    sum_qt as int,
                    360000 * sum_q as int,
                    sum_q as int,
                );
                vstd::arithmetic::div_mod::lemma_div_by_multiple(360000, sum_q as int);
            }
            q as i64
        } else {
            180000
        }
    }

    /// The angled-inflow coefficient
    /// `C_t = 4.5 (sum Q_j / Q_o) cos(theta_w / 2)`, in thousandths,
    /// with the cosine supplied in thousandths; zero when nothing
    /// flows out.
    pub fn angled_inflow_coefficient(
        &self,
        total_inflow: i64,
        outflow: i64,
        cos_half_weighted_angle: i64,
    ) -> (r: i64)
        requires
            0 <= total_inflow <= 1000000000000,
            0 <= outflow <= 1000000000000,
            -1000 <= cos_half_weighted_angle <= 1000,
        ensures
            r as int == (if outflow > 0 {
                div_trunc(
                    4500 * total_inflow * cos_half_weighted_angle,
                    outflow * 1000,
                )
            } else {
                0int
            }),
    {
        if outflow > 0 {
            proof {
                assert(-4500000000000000000 <= 4500 * total_inflow * cos_half_weighted_angle
                    <= 4500000000000000000) by (nonlinear_arith)
                    requires
                        0 <= total_inflow <= 1000000000000,
                        -1000 <= cos_half_weighted_angle <= 1000,
                ;
                assert(0 < outflow * 1000 <= 1000000000000000) by (nonlinear_arith)
                    requires
                        0 < outflow <= 1000000000000,
                ;
            }
            let num: i128 = 4500i128 * (total_inflow as i128) * (cos_half_weighted_angle as i128);
            let den: i128 = (outflow as i128) * 1000;
            let q: i128 = num / den;
            proof {
                lemma_div_trunc_bound(num as int, den as int);
            }
            q as i64
        } else {
            0
        }
    }

    /// The relative plunge height `h_k = (min(z_k, 10 D_o) - E_ai) / D_o`,
    /// in thousandths.
    pub fn relative_plunge_height(
        &self,
        invert_offset: i64,
        initial_energy: i64,
        outflow_diameter: i64,
    ) -> (r: i64)
        requires
            0 < outflow_diameter <= 1000000000,
            -1000000000000 <= invert_offset <= 1000000000000,
            -1000000000000 <= initial_energy <= 1000000000000,
        ensures
            r as int == spec_plunge_height(
                invert_offset as int,
                initial_energy as int,
                outflow_diameter as int,
            ),
    {
        let z_k = min_i64(invert_offset, 10 * outflow_diameter);
        proof {
            lemma_div_trunc_bound((z_k - initial_energy) * 1000, outflow_diameter as int);
            assert(-11000000000000000 <= (z_k - initial_energy) * 1000 <= 11000000000000000)
                by (nonlinear_arith)
                requires
                    -11000000000000 <= z_k - initial_energy <= 11000000000000,
            ;
        }
        div_i64((z_k - initial_energy) * 1000, outflow_diameter)
    }

    /// The plunging-flow coefficient `C_P = sum(Q_k h_k) / Q_o`, in
    /// thousandths; zero when nothing flows out.  The plunging flows
    /// cannot exceed the outflow, since routing conserves mass at the
    /// structure.
    pub fn plunging_flow_coefficient(
        &self,
        plunging_pipes: &Vec<InflowPipe>,
        initial_energy: i64,
        outflow: i64,
        outflow_diameter: i64,
    ) -> (r: i64)
        requires
            0 < outflow_diameter <= 1000000000,
            -2000000000 <= initial_energy <= 2000000000,
            0 <= outflow <= 1000000000000,
            plunging_pipes@.len() <= 1000,
            forall|i: int| 0 <= i < plunging_pipes@.len() ==> {
                &&& 0 <= (#[trigger] plunging_pipes@[i]).flow <= 1000000000000
                &&& -1000000000 <= plunging_pipes@[i].invert_offset <= 1000000000
            },
            spec_sum_flow(plunging_pipes@, plunging_pipes@.len() as int) <= outflow,
        ensures
            r as int == (if outflow > 0 {
                div_trunc(
                    spec_plunge_sum(
                        plunging_pipes@,
                        initial_energy as int,
                        outflow_diameter as int,
                        plunging_pipes@.len() as int,
                    ),
                    outflow as int,
                )
            } else {
                0int
            }),
    {
        if outflow == 0 {
            return 0;
        }
        let n = plunging_pipes.len();
        let mut sum: i128 = 0;
        for i in 0..n
            invariant
                n == plunging_pipes@.len(),
                n <= 1000,
                0 < outflow_diameter <= 1000000000,
                -2000000000 <= initial_energy <= 2000000000,
                forall|j: int| 0 <= j < n ==> {
                    &&& 0 <= (#[trigger] plunging_pipes@[j]).flow <= 1000000000000
                    &&& -1000000000 <= plunging_pipes@[j].invert_offset <= 1000000000
                },
                sum as int == spec_plunge_sum(
                    plunging_pipes@,
                    initial_energy as int,
                    outflow_diameter as int,
                    i as int,
                ),
                -(spec_sum_flow(plunging_pipes@, i as int) * 22000000000000) <= sum as int,
                sum as int <= spec_sum_flow(plunging_pipes@, i as int) * 22000000000000,
                0 <= spec_sum_flow(plunging_pipes@, i as int) <= i * 1000000000000,
        {
            let h = self.relative_plunge_height(
                plunging_pipes[i].invert_offset,
                initial_energy,
                outflow_diameter,
            );
            proof {
                lemma_plunge_height_bound(
                    plunging_pipes@[i as int].invert_offset as int,
                    initial_energy as int,
                    outflow_diameter as int,
                );
                assert(-(plunging_pipes@[i as int].flow * 22000000000000) <= plunging_pipes@[
                    i as int
                ].flow * h && plunging_pipes@[i as int].flow * h <= plunging_pipes@[i as int].flow
                    * 22000000000000) by (nonlinear_arith)
                    requires
                        0 <= plunging_pipes@[i as int].flow,
                        -22000000000000 <= h <= 22000000000000,
                ;
                assert((spec_sum_flow(plunging_pipes@, i as int) + plunging_pipes@[i as int].flow)
                    * 22000000000000 == spec_sum_flow(plunging_pipes@, i as int) * 22000000000000
                    + plunging_pipes@[i as int].flow * 22000000000000) by (nonlinear_arith);
            }
            sum = sum + (plunging_pipes[i].flow as i128) * (h as i128);
        }
        proof {
            // the weighted sum stays within the outflow times the
            // largest plunge height, so the quotient fits
            assert(spec_sum_flow(plunging_pipes@, n as int) * 22000000000000 <= outflow
                * 22000000000000) by (nonlinear_arith)
                requires
                    spec_sum_flow(plunging_pipes@, n as int) <= outflow,
            ;
            crate::fixed::lemma_div_trunc_ordered_signed(
                sum as int,
                outflow * 22000000000000,
                outflow as int,
            );
            crate::fixed::lemma_div_trunc_ordered_signed(
                -(outflow * 22000000000000),
                sum as int,
                outflow as int,
            );
            assert(div_trunc(outflow * 22000000000000, outflow as int) == 22000000000000) by {
                vstd::arithmetic::div_mod::lemma_div_multiples_vanish(
                    22000000000000,
                    outflow as int,
                );
                assert(outflow * 22000000000000 >= 0) by (nonlinear_arith)
                    requires
                        outflow > 0,
                ;
            }
        }
        let q: i128 = sum / (outflow as i128);
        q as i64
    }

    /// The combined additional loss
    /// `H_a = (C_B + C_t + C_P)(E_ai - E_i)`, floored at zero, in
    /// thousandths.
    pub fn total_additional_loss(
        &self,
        c_benching: i64,
        c_angle: i64,
        c_plunging: i64,
        initial_energy: i64,
        outflow_energy: i64,
    ) -> (r: i64)
        requires
            -20000000000 <= c_benching <= 20000000000,
            -20000000000 <= c_angle <= 20000000000,
            -20000000000 <= c_plunging <= 20000000000,
            -1000000000000 <= initial_energy <= 1000000000000,
            -1000000000000 <= outflow_energy <= 1000000000000,
            -10000000000 <= initial_energy - outflow_energy <= 10000000000,
        ensures
            r as int == spec_additional_loss(
                c_benching + c_angle + c_plunging,
                initial_energy as int,
                outflow_energy as int,
            ),
            r >= 0,
    {
        let c_sum = c_benching + c_angle + c_plunging;
        proof {
            assert(-600000000000000000000 <= c_sum * (initial_energy - outflow_energy)
                <= 600000000000000000000) by (nonlinear_arith)
                requires
                    -60000000000 <= c_sum <= 60000000000,
                    -10000000000 <= initial_energy - outflow_energy <= 10000000000,
            ;
            lemma_div_trunc_bound(c_sum * (initial_energy - outflow_energy), 1000);
        }
        let h = crate::fixed::mul_milli_i64(c_sum, initial_energy - outflow_energy);
        max_i64(h, 0)
    }

    /// The revised access-hole energy level `E_a = max(E_ai + H_a, E_i)`.
    pub fn final_energy_level(
        &self,
        initial_energy: i64,
        additional_loss: i64,
        outflow_energy: i64,
    ) -> (r: i64)
        requires
            -1000000000000 <= initial_energy <= 1000000000000,
            0 <= additional_loss <= 10000000000000000,
        ensures
            r == (if initial_energy + additional_loss >= outflow_energy {
                initial_energy + additional_loss
            } else {
                outflow_energy as int
            }),
            r >= outflow_energy,
            r >= initial_energy,
    {
        max_i64(initial_energy + additional_loss, outflow_energy)
    }

    /// The access-hole energy grade line `EGL_a = E_a + Z_a`.
    pub fn access_hole_egl(&self, final_energy: i64, access_hole_invert: i64) -> (r: i64)
        requires
            -1000000000000 <= final_energy <= 100000000000000000,
            -1000000000000 <= access_hole_invert <= 1000000000000,
        ensures
            r == final_energy + access_hole_invert,
    {
        final_energy + access_hole_invert
    }

    /// The energy grade line of a non-plunging inflow pipe:
    /// `EGL_o = E_a + 0.4 V^2 / (2 g)`.
    pub fn inflow_pipe_egl(&self, final_energy: i64, inflow_velocity: i64) -> (r: i64)
        requires
            0 < self.gravity <= 1000000,
            -100000000 <= inflow_velocity <= 100000000,
            -1000000000000 <= final_energy <= 100000000000000000,
        ensures
            r == final_energy + spec_k_loss(400, inflow_velocity as int, self.gravity as int),
            r >= final_energy,
    {
        let losses = EnergyLoss { gravity: self.gravity };
        let exit = losses.entrance_loss(inflow_velocity, 400);
        proof {
            lemma_div_trunc_bound(inflow_velocity * inflow_velocity, 2 * self.gravity as int);
            assert(0 <= inflow_velocity * inflow_velocity <= 10000000000000000)
                by (nonlinear_arith)
                requires
                    -100000000 <= inflow_velocity <= 100000000,
            ;
            lemma_div_trunc_bound(
                400 * spec_velocity_head(inflow_velocity as int, self.gravity as int),
                1000,
            );
            assert(400 * spec_velocity_head(inflow_velocity as int, self.gravity as int) >= 0)
                by (nonlinear_arith)
                requires
                    spec_velocity_head(inflow_velocity as int, self.gravity as int) >= 0,
            ;
        }
        final_energy + exit
    }

    /// The full access-hole analysis, composing the verified steps.
    /// The caller supplies the two inlet-control energy levels (they
    /// need the discharge intensity's square root and fractional
    /// power) and the cosine of half the flow-weighted inflow angle;
    /// the energy levels, the plunging partition and the loss
    /// coefficients are computed here.  Inflow pipes and their flows
    /// come from a mass-conserving routing, so the inflows sum to at
    /// most the outflow and sit at or above the access-hole invert.
    #[verifier::rlimit(100)]
    #[verifier::spinoff_prover]
    pub fn analyze_access_hole(
        &self,
        outflow_egl: i64,
        outflow_invert: i64,
        outflow_velocity: i64,
        outflow_flow: i64,
        outflow_diameter: i64,
        submerged_inlet_energy: i64,
        unsubmerged_inlet_energy: i64,
        cos_half_weighted_angle: i64,
        inflow_pipes: &Vec<InflowPipe>,
        benching: BenchingType,
        access_hole_invert: i64,
    ) -> (r: AccessHoleResult)
        requires
            1000 <= self.gravity <= 1000000,
            -1000000000000 <= outflow_egl <= 1000000000000,
            -1000000000000 <= outflow_invert <= 1000000000000,
            -1000000000 <= outflow_egl - outflow_invert <= 1000000000,
            -1000000 <= outflow_velocity <= 1000000,
            0 <= outflow_flow <= 1000000000000,
            100 <= outflow_diameter <= 1000000000,
            0 <= submerged_inlet_energy <= 1000000000,
            0 <= unsubmerged_inlet_energy <= 1000000000,
            -1000 <= cos_half_weighted_angle <= 1000,
            -1000000000000 <= access_hole_invert <= 1000000000000,
            inflow_pipes@.len() <= 1000,
            forall|i: int| 0 <= i < inflow_pipes@.len() ==> {
                &&& 0 <= (#[trigger] inflow_pipes@[i]).flow <= 1000000000000
                &&& 0 <= inflow_pipes@[i].angle <= 360000
                &&& 0 <= inflow_pipes@[i].invert_offset <= 1000000000
            },
            spec_sum_flow(inflow_pipes@, inflow_pipes@.len() as int) <= outflow_flow,
        ensures
            ({
                let e_i = outflow_egl - outflow_invert;
                let e_aio = e_i + spec_k_loss(
                    200,
                    outflow_velocity as int,
                    self.gravity as int,
                );
                let e_ai = if e_aio >= submerged_inlet_energy && e_aio
                    >= unsubmerged_inlet_energy {
                    e_aio
                } else if submerged_inlet_energy >= unsubmerged_inlet_energy {
                    submerged_inlet_energy as int
                } else {
                    unsubmerged_inlet_energy as int
                };
                let plunging = inflow_pipes@.filter(
                    |pipe: InflowPipe| pipe.invert_offset > e_ai,
                );
                let non_plunging = inflow_pipes@.filter(
                    |pipe: InflowPipe| !(pipe.invert_offset > e_ai),
                );
                let c_sum = r.benching_coefficient + r.angle_coefficient
                    + r.plunging_coefficient;
                &&& r.outlet_control_energy == e_aio
                &&& r.submerged_inlet_energy == submerged_inlet_energy
                &&& r.unsubmerged_inlet_energy == unsubmerged_inlet_energy
                &&& r.initial_energy_level == e_ai
                &&& r.benching_coefficient as int == spec_benching_coefficient(
                    benching,
                    e_ai,
                    outflow_diameter as int,
                )
                &&& r.angle_coefficient as int == (if outflow_flow > 0 {
                    div_trunc(
                        4500 * spec_sum_flow(non_plunging, non_plunging.len() as int)
                            * cos_half_weighted_angle,
                        outflow_flow * 1000,
                    )
                } else {
                    0int
                })
                &&& r.plunging_coefficient as int == (if outflow_flow > 0 {
                    div_trunc(
                        spec_plunge_sum(
                            plunging,
                            e_ai,
                            outflow_diameter as int,
                            plunging.len() as int,
                        ),
                        outflow_flow as int,
                    )
                } else {
                    0int
                })
                &&& r.additional_loss as int == spec_additional_loss(c_sum as int, e_ai, e_i)
                &&& r.additional_loss >= 0
                &&& r.final_energy_level == (if e_ai + r.additional_loss >= e_i {
                    e_ai + r.additional_loss
                } else {
                    e_i
                })
                &&& r.final_energy_level >= e_i
                &&& r.egl_elevation == r.final_energy_level + access_hole_invert
            }),
    {
        let outflow_energy = self.energy_head_from_egl(outflow_egl, outflow_invert);
        let outlet_control = self.outlet_control_energy(outflow_energy, outflow_velocity);
        proof {
            lemma_div_trunc_bound(
                outflow_velocity * outflow_velocity,
                2 * self.gravity as int,
            );
            assert(0 <= outflow_velocity * outflow_velocity <= 1000000000000)
                by (nonlinear_arith)
                requires
                    -1000000 <= outflow_velocity <= 1000000,
            ;
            lemma_div_trunc_bound(
                200 * spec_velocity_head(outflow_velocity as int, self.gravity as int),
                1000,
            );
            assert(0 <= 200 * spec_velocity_head(outflow_velocity as int, self.gravity as int)
                <= 200 * 1000000000000) by (nonlinear_arith)
                requires
                    0 <= spec_velocity_head(outflow_velocity as int, self.gravity as int)
                        <= 1000000000000,
            ;
        }
        let initial_energy = self.initial_energy_level(
            outlet_control,
            submerged_inlet_energy,
            unsubmerged_inlet_energy,
        );
        proof {
            // the outlet-control level sits at most one fifth of a
            // velocity head above the outflow energy head
            vstd::arithmetic::div_mod::lemma_div_is_ordered_by_denominator(
                outflow_velocity * outflow_velocity,
                2000,
                2 * self.gravity as int,
            );
            assert(spec_velocity_head(outflow_velocity as int, self.gravity as int)
                <= 500000000);
            crate::fixed::lemma_div_trunc_ordered(
                200 * spec_velocity_head(outflow_velocity as int, self.gravity as int),
                100000000000int,
                1000,
            );
            assert(0 <= initial_energy <= 2000000000);
        }

        // partition the inflows into plunging and non-plunging pipes
        let ghost plunge_pred = |pipe: InflowPipe| pipe.invert_offset > initial_energy as int;
        let ghost surface_pred = |pipe: InflowPipe| !(pipe.invert_offset > initial_energy as int);
        let mut plunging: Vec<InflowPipe> = Vec::new();
        let mut non_plunging: Vec<InflowPipe> = Vec::new();
        let np = inflow_pipes.len();
        assert(inflow_pipes@.subrange(0, 0).filter(plunge_pred) =~= Seq::<InflowPipe>::empty());
        assert(inflow_pipes@.subrange(0, 0).filter(surface_pred) =~= Seq::<InflowPipe>::empty());
        for i in 0..np
            invariant
                np == inflow_pipes@.len(),
                np <= 1000,
                forall|i2: int| 0 <= i2 < np ==> {
                    &&& 0 <= (#[trigger] inflow_pipes@[i2]).flow <= 1000000000000
                    &&& 0 <= inflow_pipes@[i2].angle <= 360000
                    &&& 0 <= inflow_pipes@[i2].invert_offset <= 1000000000
                },
                plunging@ == inflow_pipes@.subrange(0, i as int).filter(plunge_pred),
                non_plunging@ == inflow_pipes@.subrange(0, i as int).filter(surface_pred),
                spec_sum_flow(plunging@, plunging@.len() as int) + spec_sum_flow(
                    non_plunging@,
                    non_plunging@.len() as int,
                ) == spec_sum_flow(inflow_pipes@, i as int),
                forall|k: int| 0 <= k < plunging@.len() ==> {
                    &&& 0 <= (#[trigger] plunging@[k]).flow <= 1000000000000
                    &&& 0 <= plunging@[k].invert_offset <= 1000000000
                },
                forall|k: int| 0 <= k < non_plunging@.len() ==> {
                    &&& 0 <= (#[trigger] non_plunging@[k]).flow <= 1000000000000
                    &&& 0 <= non_plunging@[k].angle <= 360000
                },
                plunge_pred == (|pipe: InflowPipe| pipe.invert_offset > initial_energy as int),
                surface_pred == (|pipe: InflowPipe|
                    !(pipe.invert_offset > initial_energy as int)),
        {
            proof {
                assert(inflow_pipes@.subrange(0, i + 1) =~= inflow_pipes@.subrange(
                    0,
                    i as int,
                ).push(inflow_pipes@[i as int]));
                crate::seqs::lemma_filter_push(
                    inflow_pipes@.subrange(0, i as int),
                    plunge_pred,
                    inflow_pipes@[i as int],
                );
                crate::seqs::lemma_filter_push(
                    inflow_pipes@.subrange(0, i as int),
                    surface_pred,
                    inflow_pipes@[i as int],
                );
                lemma_sum_flow_prefix_eq(
                    plunging@.push(inflow_pipes@[i as int]),
                    plunging@,
                    plunging@.len() as int,
                );
                lemma_sum_flow_prefix_eq(
                    non_plunging@.push(inflow_pipes@[i as int]),
                    non_plunging@,
                    non_plunging@.len() as int,
                );
            }
            let pipe = inflow_pipes[i];
            if pipe.invert_offset > initial_energy {
                plunging.push(pipe);
            } else {
                non_plunging.push(pipe);
            }
        }
        proof {
            assert(inflow_pipes@.subrange(0, np as int) =~= inflow_pipes@);
            lemma_sum_flow_nonneg(plunging@, plunging@.len() as int);
            lemma_sum_flow_nonneg(non_plunging@, non_plunging@.len() as int);
        }

        let c_benching = self.benching_coefficient(benching, initial_energy, outflow_diameter);
        let mut total_non_plunging: i64 = 0;
        let npl = non_plunging.len();
        for i in 0..npl
            invariant
                npl == non_plunging@.len(),
                npl <= 1000,
                forall|k: int| 0 <= k < npl ==> 0 <= (#[trigger] non_plunging@[k]).flow
                    <= 1000000000000,
                total_non_plunging as int == spec_sum_flow(non_plunging@, i as int),
                0 <= total_non_plunging <= i * 1000000000000,
        {
            total_non_plunging = total_non_plunging + non_plunging[i].flow;
        }
        proof {
            lemma_sum_flow_nonneg(plunging@, plunging@.len() as int);
            assert(total_non_plunging <= outflow_flow);
        }
        let c_angle = self.angled_inflow_coefficient(
            total_non_plunging,
            outflow_flow,
            cos_half_weighted_angle,
        );
        proof {
            // the angled-inflow coefficient is a bounded multiple of
            // the inflow fraction
            if outflow_flow > 0 {
                assert(-4500 * (outflow_flow * 1000) <= 4500 * total_non_plunging
                    * cos_half_weighted_angle <= 4500 * (outflow_flow * 1000))
                    by (nonlinear_arith)
                    requires
                        0 <= total_non_plunging <= outflow_flow,
                        -1000 <= cos_half_weighted_angle <= 1000,
                ;
                crate::fixed::lemma_div_trunc_ordered_signed(
                    4500 * total_non_plunging * cos_half_weighted_angle,
                    4500 * (outflow_flow * 1000),
                    outflow_flow * 1000,
                );
                crate::fixed::lemma_div_trunc_ordered_signed(
                    -4500 * (outflow_flow * 1000),
                    4500 * total_non_plunging * cos_half_weighted_angle,
                    outflow_flow * 1000,
                );
                assert(div_trunc(4500 * (outflow_flow * 1000), outflow_flow * 1000) == 4500) by {
                    vstd::arithmetic::div_mod::lemma_div_multiples_vanish(
                        4500,
                        outflow_flow * 1000,
                    );
                    assert(4500 * (outflow_flow * 1000) == (outflow_flow * 1000) * 4500)
                        by (nonlinear_arith);
                    assert(4500 * (outflow_flow * 1000) >= 0) by (nonlinear_arith)
                        requires
                            outflow_flow > 0,
                    ;
                }
                assert(div_trunc(-4500 * (outflow_flow * 1000), outflow_flow * 1000) == -4500)
                    by {
                    vstd::arithmetic::div_mod::lemma_div_multiples_vanish(
                        4500,
                        outflow_flow * 1000,
                    );
                    assert(-4500 * (outflow_flow * 1000) == -((outflow_flow * 1000) * 4500))
                        by (nonlinear_arith);
                    assert((outflow_flow * 1000) * 4500 >= 0) by (nonlinear_arith)
                        requires
                            outflow_flow > 0,
                    ;
                }
            }
            assert(-4500 <= c_angle <= 4500);
        }
        let c_plunging = self.plunging_flow_coefficient(
            &plunging,
            initial_energy,
            outflow_flow,
            outflow_diameter,
        );
        proof {
            // the plunging coefficient is a flow-weighted mean of the
            // bounded plunge heights
            assert forall|k: int|
                0 <= k < plunging@.len() implies -20000000000 <= spec_plunge_height(
                (#[trigger] plunging@[k]).invert_offset as int,
                initial_energy as int,
                outflow_diameter as int,
            ) <= 10000 by {
                lemma_plunge_height_range(
                    plunging@[k].invert_offset as int,
                    initial_energy as int,
                    outflow_diameter as int,
                );
            }
            if outflow_flow > 0 {
                lemma_plunge_sum_weighted(
                    plunging@,
                    initial_energy as int,
                    outflow_diameter as int,
                    plunging@.len() as int,
                    -20000000000,
                    10000,
                );
                let psum = spec_plunge_sum(
                    plunging@,
                    initial_energy as int,
                    outflow_diameter as int,
                    plunging@.len() as int,
                );
                let pflow = spec_sum_flow(plunging@, plunging@.len() as int);
                assert(pflow * -20000000000 >= outflow_flow * -20000000000 && pflow * 10000
                    <= outflow_flow * 10000) by (nonlinear_arith)
                    requires
                        0 <= pflow <= outflow_flow,
                ;
                crate::fixed::lemma_div_trunc_ordered_signed(
                    psum,
                    outflow_flow * 10000,
                    outflow_flow as int,
                );
                crate::fixed::lemma_div_trunc_ordered_signed(
                    outflow_flow * -20000000000,
                    psum,
                    outflow_flow as int,
                );
                assert(div_trunc(outflow_flow * 10000, outflow_flow as int) == 10000) by {
                    vstd::arithmetic::div_mod::lemma_div_multiples_vanish(
                        10000,
                        outflow_flow as int,
                    );
                    assert(outflow_flow * 10000 == outflow_flow as int * 10000);
                    assert(outflow_flow * 10000 >= 0) by (nonlinear_arith)
                        requires
                            outflow_flow > 0,
                    ;
                }
                assert(div_trunc(outflow_flow * -20000000000, outflow_flow as int)
                    == -20000000000) by {
                    vstd::arithmetic::div_mod::lemma_div_multiples_vanish(
                        20000000000,
                        outflow_flow as int,
                    );
                    assert(outflow_flow * -20000000000 == -(outflow_flow as int
                        * 20000000000)) by (nonlinear_arith);
                    assert(outflow_flow as int * 20000000000 >= 0) by (nonlinear_arith)
                        requires
                            outflow_flow > 0,
                    ;
                }
            }
            assert(-20000000000 <= c_plunging <= 10000);
        }
        let additional_loss = self.total_additional_loss(
            c_benching,
            c_angle,
            c_plunging,
            initial_energy,
            outflow_energy,
        );
        proof {
            // a positive combined coefficient is small, so the loss is
            // bounded
            let c_sum = c_benching + c_angle + c_plunging;
            if mul_milli(c_sum as int, initial_energy - outflow_energy) >= 0 {
                assert(c_sum * (initial_energy - outflow_energy) <= 60000000000000int)
                    by (nonlinear_arith)
                    requires
                        c_sum <= 15000,
                        0 <= initial_energy - outflow_energy <= 4000000000,
                ;
                crate::fixed::lemma_div_trunc_ordered_signed(
                    c_sum * (initial_energy - outflow_energy),
                    60000000000000int,
                    1000,
                );
            }
            assert(0 <= additional_loss <= 10000000000000000);
        }
        let final_energy = self.final_energy_level(
            initial_energy,
            additional_loss,
            outflow_energy,
        );
        let egl_elevation = self.access_hole_egl(final_energy, access_hole_invert);
        AccessHoleResult {
            initial_energy_level: initial_energy,
            outlet_control_energy: outlet_control,
            submerged_inlet_energy,
            unsubmerged_inlet_energy,
            benching_coefficient: c_benching,
            angle_coefficient: c_angle,
            plunging_coefficient: c_plunging,
            additional_loss,
            final_energy_level: final_energy,
            egl_elevation,
        }
    }
}

/// The access-hole analysis record, in thousandths.
#[derive(Debug, Clone, PartialEq)]
pub struct AccessHoleResult {
    /// Initial access-hole energy level.
    pub initial_energy_level: i64,
    /// Outlet-control energy level.
    pub outlet_control_energy: i64,
    /// Submerged inlet-control energy level, as supplied.
    pub submerged_inlet_energy: i64,
    /// Unsubmerged inlet-control energy level, as supplied.
    pub unsubmerged_inlet_energy: i64,
    /// Benching loss coefficient.
    pub benching_coefficient: i64,
    /// Angled-inflow coefficient.
    pub angle_coefficient: i64,
    /// Plunging-flow coefficient.
    pub plunging_coefficient: i64,
    /// Combined additional loss.
    pub additional_loss: i64,
    /// Revised access-hole energy level.
    pub final_energy_level: i64,
    /// Access-hole energy grade line elevation.
    pub egl_elevation: i64,
}

/// The total flow of the first `upto` inflow pipes.
pub open spec fn spec_sum_flow(pipes: Seq<InflowPipe>, upto: int) -> int
    decreases upto,
{
    if upto <= 0 {
        0
    } else {
        spec_sum_flow(pipes, upto - 1) + pipes[upto - 1].flow as int
    }
}

/// The flow-weighted angle numerator of the first `upto` inflow pipes.
pub open spec fn spec_sum_flow_angle(pipes: Seq<InflowPipe>, upto: int) -> int
    decreases upto,
{
    if upto <= 0 {
        0
    } else {
        spec_sum_flow_angle(pipes, upto - 1) + pipes[upto - 1].flow as int * pipes[upto
            - 1].angle as int
    }
}

/// Sums of pipe flows over equal prefixes agree.
proof fn lemma_sum_flow_prefix_eq(s1: Seq<InflowPipe>, s2: Seq<InflowPipe>, upto: int)
    requires
        0 <= upto <= s1.len(),
        upto <= s2.len(),
        forall|i: int| 0 <= i < upto ==> (#[trigger] s1[i]).flow == s2[i].flow,
    ensures
        spec_sum_flow(s1, upto) == spec_sum_flow(s2, upto),
    decreases upto,
{
    if upto > 0 {
        lemma_sum_flow_prefix_eq(s1, s2, upto - 1);
    }
}

/// The sum of nonnegative pipe flows is nonnegative.
proof fn lemma_sum_flow_nonneg(pipes: Seq<InflowPipe>, upto: int)
    requires
        0 <= upto <= pipes.len(),
        forall|i: int| 0 <= i < pipes.len() ==> (#[trigger] pipes[i]).flow >= 0,
    ensures
        spec_sum_flow(pipes, upto) >= 0,
    decreases upto,
{
    if upto > 0 {
        lemma_sum_flow_nonneg(pipes, upto - 1);
    }
}

/// A plunge height computed from a nonnegative invert offset, a
/// nonnegative energy level and a barrel of at least a tenth of a unit
/// lies between minus the scaled energy level and the ten-diameter
/// cap.
proof fn lemma_plunge_height_range(z: int, e_ai: int, d_o: int)
    requires
        0 <= z <= 1000000000,
        0 <= e_ai <= 2000000000,
        100 <= d_o <= 1000000000,
    ensures
        -20000000000 <= spec_plunge_height(z, e_ai, d_o) <= 10000,
{
    let capped = if z <= 10 * d_o {
        z
    } else {
        10 * d_o
    };
    assert(0 <= capped <= 10 * d_o);
    // upper side: at most ten diameters above the energy level
    assert((capped - e_ai) * 1000 <= 10 * d_o * 1000) by (nonlinear_arith)
        requires
            capped - e_ai <= 10 * d_o,
            0 < d_o,
    ;
    crate::fixed::lemma_div_trunc_ordered_signed((capped - e_ai) * 1000, 10 * d_o * 1000, d_o);
    assert(div_trunc(10 * d_o * 1000, d_o) == 10000) by {
        vstd::arithmetic::div_mod::lemma_div_multiples_vanish(10000, d_o);
        assert(10 * d_o * 1000 == d_o * 10000) by (nonlinear_arith);
        assert(10 * d_o * 1000 >= 0) by (nonlinear_arith)
            requires
                d_o > 0,
        ;
    }
    // lower side: no deeper than the energy level over the smallest
    // barrel
    assert((capped - e_ai) * 1000 >= -2000000000000) by (nonlinear_arith)
        requires
            capped - e_ai >= -2000000000,
    ;
    crate::fixed::lemma_div_trunc_ordered_signed(-2000000000000, (capped - e_ai) * 1000, d_o);
    assert(div_trunc(-2000000000000, d_o) >= -20000000000) by {
        vstd::arithmetic::div_mod::lemma_div_is_ordered_by_denominator(2000000000000, 100, d_o);
        assert(2000000000000int / 100 == 20000000000);
    }
}

/// A flow-weighted sum of bounded plunge heights lies between the
/// scaled total flows.
proof fn lemma_plunge_sum_weighted(
    pipes: Seq<InflowPipe>,
    e_ai: int,
    d_o: int,
    upto: int,
    lo: int,
    hi: int,
)
    requires
        0 <= upto <= pipes.len(),
        lo <= 0 <= hi,
        forall|i: int| 0 <= i < pipes.len() ==> (#[trigger] pipes[i]).flow >= 0,
        forall|i: int|
            0 <= i < pipes.len() ==> lo <= spec_plunge_height(
                (#[trigger] pipes[i]).invert_offset as int,
                e_ai,
                d_o,
            ) <= hi,
    ensures
        spec_sum_flow(pipes, upto) * lo <= spec_plunge_sum(pipes, e_ai, d_o, upto)
            <= spec_sum_flow(pipes, upto) * hi,
    decreases upto,
{
    if upto > 0 {
        lemma_plunge_sum_weighted(pipes, e_ai, d_o, upto - 1, lo, hi);
        let q = pipes[upto - 1].flow as int;
        let h = spec_plunge_height(pipes[upto - 1].invert_offset as int, e_ai, d_o);
        assert(q * lo <= q * h <= q * hi) by (nonlinear_arith)
            requires
                q >= 0,
                lo <= h <= hi,
        ;
        assert(spec_sum_flow(pipes, upto) * lo == spec_sum_flow(pipes, upto - 1) * lo + q * lo
            && spec_sum_flow(pipes, upto) * hi == spec_sum_flow(pipes, upto - 1) * hi + q * hi)
            by (nonlinear_arith)
            requires
                spec_sum_flow(pipes, upto) == spec_sum_flow(pipes, upto - 1) + q,
        ;
    }
}

/// The plunge height of a pipe with bounded invert offset is itself
/// bounded.
proof fn lemma_plunge_height_bound(z: int, e_ai: int, d_o: int)
    requires
        0 < d_o <= 1000000000,
        -1000000000 <= z <= 1000000000,
        -2000000000 <= e_ai <= 2000000000,
    ensures
        -22000000000000 <= spec_plunge_height(z, e_ai, d_o) <= 22000000000000,
{
    let capped = if z <= 10 * d_o {
        z
    } else {
        10 * d_o
    };
    assert(-3000000000 <= capped - e_ai <= 12000000000);
    crate::fixed::lemma_div_trunc_bound((capped - e_ai) * 1000, d_o);
}

/// Improved benching never yields a larger access-hole energy level
/// than a flat floor, other inputs equal: its benching coefficient is
/// nonpositive where the flat one is zero, so the combined additional
/// loss, and with it `E_a = max(E_ai + H_a, E_i)`, can only shrink.
pub proof fn lemma_improved_benching_no_worse(
    c_angle: int,
    c_plunging: int,
    e_ai: int,
    e_i: int,
    d_o: int,
)
    requires
        e_ai >= e_i,
        d_o > 0,
    ensures
        spec_benching_coefficient(BenchingType::Improved, e_ai, d_o) <= spec_benching_coefficient(
            BenchingType::Flat,
            e_ai,
            d_o,
        ),
        ({
            let ha_improved = spec_additional_loss(
                spec_benching_coefficient(BenchingType::Improved, e_ai, d_o) + c_angle
                    + c_plunging,
                e_ai,
                e_i,
            );
            let ha_flat = spec_additional_loss(
                spec_benching_coefficient(BenchingType::Flat, e_ai, d_o) + c_angle + c_plunging,
                e_ai,
                e_i,
            );
            &&& 0 <= ha_improved <= ha_flat
            &&& (if e_ai + ha_improved >= e_i {
                e_ai + ha_improved
            } else {
                e_i
            }) <= (if e_ai + ha_flat >= e_i {
                e_ai + ha_flat
            } else {
                e_i
            })
        }),
{
    let cb_improved = spec_benching_coefficient(BenchingType::Improved, e_ai, d_o);
    let cb_flat = spec_benching_coefficient(BenchingType::Flat, e_ai, d_o);
    assert(cb_improved <= cb_flat);
    let si = cb_improved + c_angle + c_plunging;
    let sf = cb_flat + c_angle + c_plunging;
    assert(si * (e_ai - e_i) <= sf * (e_ai - e_i)) by (nonlinear_arith)
        requires
            si <= sf,
            e_ai - e_i >= 0,
    ;
    crate::fixed::lemma_div_trunc_ordered_signed(si * (e_ai - e_i), sf * (e_ai - e_i), 1000);
}

} // verus!
