//! Energy-loss library and flow regime classification.  Velocities and
//! heads in thousandths; coefficients in thousandths.

use hec22::hydraulics::{
    BenchingType, EnergyLoss, FhwaAccessHoleMethod, FlowRegime, InflowPipe, ManningsEquation,
};

#[test]
fn test_entrance_loss() {
    let energy_loss = EnergyLoss::us_customary();

    let velocity = 3_000;
    let k_entrance = 500;

    let he = energy_loss.entrance_loss(velocity, k_entrance);

    // H_e = 0.5 * 3^2 / (2 * 32.17), about 0.07
    assert!((he - 70).abs() < 10, "H_e = {}", he);
}

#[test]
fn test_flow_regime_classification() {
    let mannings = ManningsEquation::us_customary();

    assert_eq!(mannings.flow_regime(500), FlowRegime::Subcritical);
    assert_eq!(mannings.flow_regime(1_000), FlowRegime::Critical);
    assert_eq!(mannings.flow_regime(2_000), FlowRegime::Supercritical);
}

#[test]
fn test_expansion_loss() {
    let energy_loss = EnergyLoss::us_customary();

    let v_upstream = 5_000;
    let v_downstream = 2_800;
    let k_expansion = 300;

    let h_e = energy_loss.expansion_loss(v_upstream, v_downstream, k_expansion);

    assert!(h_e >= 0, "Expansion loss should be non-negative, got {}", h_e);
    assert!(h_e < 1_000, "Expansion loss seems excessive: {}", h_e);
}

#[test]
fn test_contraction_loss() {
    let energy_loss = EnergyLoss::us_customary();

    let v_upstream = 2_800;
    let v_downstream = 5_000;
    let k_contraction = 500;

    let h_c = energy_loss.contraction_loss(v_upstream, v_downstream, k_contraction);

    assert!(h_c >= 0, "Contraction loss should be non-negative, got {}", h_c);
    assert!(h_c < 1_000, "Contraction loss seems excessive: {}", h_c);
}

#[test]
fn test_approximate_access_hole_loss() {
    let energy_loss = EnergyLoss::us_customary();

    let v_outlet = 4_000;
    let k_ah = 1_200;

    let h_ah = energy_loss.approximate_access_hole_loss(v_outlet, k_ah);

    // H_ah = 1.2 * 4^2 / (2 * 32.17), about 0.30
    assert!((h_ah - 300).abs() < 50, "Access hole loss = {}", h_ah);
}

#[test]
fn test_fhwa_flow_weighted_angle() {
    let fhwa = FhwaAccessHoleMethod::us_customary();

    let inflow_pipes = vec![
        InflowPipe {
            flow: 3_000,
            velocity: 4_000,
            diameter: 1_500,
            area: 1_767,
            angle: 180_000,
            invert_offset: 0,
        },
        InflowPipe {
            flow: 2_000,
            velocity: 3_000,
            diameter: 1_000,
            area: 785,
            angle: 90_000,
            invert_offset: 0,
        },
    ];

    let theta_w = fhwa.flow_weighted_angle(&inflow_pipes);

    // theta_w = (3.0 * 180 + 2.0 * 90) / (3.0 + 2.0) = 144 degrees
    assert_eq!(theta_w, 144_000);
}

#[test]
fn test_benching_coefficients() {
    let fhwa = FhwaAccessHoleMethod::us_customary();

    let initial_energy = 3_000;
    let outflow_diameter = 2_000;

    let c_flat = fhwa.benching_coefficient(BenchingType::Flat, initial_energy, outflow_diameter);
    let c_depressed =
        fhwa.benching_coefficient(BenchingType::Depressed, initial_energy, outflow_diameter);
    let c_improved =
        fhwa.benching_coefficient(BenchingType::Improved, initial_energy, outflow_diameter);

    assert_eq!(c_flat, 0, "Flat benching coefficient should be 0");
    assert!(c_depressed > 0, "Depressed benching should increase losses");
    assert!(c_improved < 0, "Improved benching should reduce losses");
}

#[test]
fn test_access_hole_energy_sequence() {
    // A straight-through access hole: one non-plunging inflow, improved
    // benching, outlet pipe flowing 10 cfs through a 2 ft barrel.
    let fhwa = FhwaAccessHoleMethod::us_customary();

    let outflow_egl = 102_000;
    let outflow_invert = 100_000;
    let e_i = fhwa.energy_head_from_egl(outflow_egl, outflow_invert);
    assert_eq!(e_i, 2_000);

    let v_o = 3_183; // 10 cfs through about 3.14 sq ft
    let e_aio = fhwa.outlet_control_energy(e_i, v_o);
    assert!(e_aio >= e_i);

    // Inlet-control levels are below the outlet-control level here.
    let e_ai = fhwa.initial_energy_level(e_aio, 500, 1_100);
    assert_eq!(e_ai, e_aio);

    let c_b = fhwa.benching_coefficient(BenchingType::Improved, e_ai, 2_000);
    assert!(c_b <= 0);

    // A single straight inflow: cos(180/2 degrees) is zero.
    let c_theta = fhwa.angled_inflow_coefficient(10_000, 10_000, 0);
    assert_eq!(c_theta, 0);

    let h_a = fhwa.total_additional_loss(c_b, c_theta, 0, e_ai, e_i);
    assert!(h_a >= 0);

    let e_a = fhwa.final_energy_level(e_ai, h_a, e_i);
    assert!(e_a >= e_i);

    let egl_a = fhwa.access_hole_egl(e_a, outflow_invert);
    assert!(egl_a > outflow_invert);

    let inflow_egl = fhwa.inflow_pipe_egl(e_a, v_o);
    assert!(inflow_egl >= e_a);
}

#[test]
fn test_relative_plunge_height_caps_high_inverts() {
    let fhwa = FhwaAccessHoleMethod::us_customary();
    // z_k above ten outlet diameters is capped at ten diameters.
    let capped = fhwa.relative_plunge_height(50_000, 2_000, 2_000);
    assert_eq!(capped, ((10 * 2_000 - 2_000) * 1000) / 2_000);
    let below = fhwa.relative_plunge_height(1_000, 2_000, 2_000);
    assert_eq!(below, -500);
}

#[test]
fn test_improved_benching_never_raises_the_energy_level() {
    // The same junction with a flat floor and with improved benching:
    // the improved floor gives the smaller additional loss and the
    // smaller final energy level.
    let fhwa = FhwaAccessHoleMethod::us_customary();
    let e_i = 2_000;
    let e_ai = 2_600;
    let d_o = 2_000;
    let c_theta = 150;
    let c_p = 80;

    let c_flat = fhwa.benching_coefficient(BenchingType::Flat, e_ai, d_o);
    let c_improved = fhwa.benching_coefficient(BenchingType::Improved, e_ai, d_o);

    let h_flat = fhwa.total_additional_loss(c_flat, c_theta, c_p, e_ai, e_i);
    let h_improved = fhwa.total_additional_loss(c_improved, c_theta, c_p, e_ai, e_i);
    assert!(h_improved <= h_flat);
    assert!(h_improved >= 0);

    let e_flat = fhwa.final_energy_level(e_ai, h_flat, e_i);
    let e_improved = fhwa.final_energy_level(e_ai, h_improved, e_i);
    assert!(e_improved <= e_flat);
    assert!(e_improved >= e_i);
}

#[test]
fn test_plunging_flow() {
    let fhwa = FhwaAccessHoleMethod::us_customary();

    let initial_energy = 2_000;
    let outflow_diameter = 2_000;
    let outflow_flow = 10_000;

    // A plunging inflow: its invert sits above the initial energy level.
    let plunging_pipe = InflowPipe {
        flow: 4_000,
        velocity: 5_000,
        diameter: 1_500,
        area: 1_767,
        angle: 90_000,
        invert_offset: 3_000,
    };

    let c_p = fhwa.plunging_flow_coefficient(
        &vec![plunging_pipe],
        initial_energy,
        outflow_flow,
        outflow_diameter,
    );

    // h_k = (3 - 2) / 2 = 0.5; C_P = 4.0 * 0.5 / 10.0 = 0.2
    assert!(c_p > 0, "Plunging coefficient should be positive for plunging flow");
    assert_eq!(c_p, 200);
}
