//! The momentum junction loss, the access-hole composition, the
//! sweep's tailwater and results assembly, and sag inlet capacity.
//! Values in thousandths; angles enter through their cosines in
//! thousandths.

use hec22::analysis::{Severity, ViolationType};
use hec22::hydraulics::{BenchingType, EnergyLoss, FhwaAccessHoleMethod, InflowPipe};
use hec22::inlet::{isqrt, GrateInletSag};
use hec22::network::Network;
use hec22::node::{
    BoundaryCondition, InletLocation, InletProperties, InletType, Node, NodeType,
    OutfallProperties, ThroatType,
};
use hec22::solver::{
    assemble_node_results, check_has_outfall, hgl_violations, tailwater_elevation, FlowMap,
};

#[test]
fn test_junction_loss() {
    let energy_loss = EnergyLoss::us_customary();

    // A 90-degree junction: 24-inch outlet at 10 cfs, 18-inch trunk at
    // 6 cfs, 18-inch lateral at 4 cfs; cos(90 degrees) is zero.
    let hj = energy_loss.junction_loss(
        10_000, 6_000, 4_000, 3_183, 3_395, 2_264, 3_142, 1_767, 0,
    );

    assert!(hj > 0, "Junction loss should be positive, got {}", hj);
    assert!(hj < 2_000, "Junction loss seems excessive: {}", hj);
}

#[test]
fn test_junction_loss_straight_through() {
    let energy_loss = EnergyLoss::us_customary();

    // Straight through (cos(180 degrees) is minus one), no lateral,
    // equal pipes: the loss vanishes.
    let hj = energy_loss.junction_loss(
        5_000, 5_000, 0, 2_830, 2_830, 0, 1_767, 1_767, -1_000,
    );

    assert!(hj.abs() < 10, "Straight through junction loss should be near zero, got {}", hj);
}

#[test]
fn test_fhwa_complete_analysis() {
    let fhwa = FhwaAccessHoleMethod::us_customary();

    // A single straight-through inflow into a 24-inch barrel flowing
    // 10 cfs; the inlet-control levels and the cosine of half the
    // weighted angle (90 degrees) are supplied.
    let inflow = InflowPipe {
        flow: 10_000,
        velocity: 3_183,
        diameter: 2_000,
        area: 3_142,
        angle: 180_000,
        invert_offset: 0,
    };

    let result = fhwa.analyze_access_hole(
        105_000,
        100_000,
        3_183,
        10_000,
        2_000,
        315,
        1_723,
        0,
        &vec![inflow],
        BenchingType::Improved,
        100_000,
    );

    assert!(result.initial_energy_level > 0, "Initial energy should be positive");
    assert!(result.final_energy_level > 0, "Final energy should be positive");
    assert!(result.egl_elevation > 100_000, "EGL should be above invert");
    assert!(result.additional_loss >= 0, "Additional loss should be non-negative");
    // straight-through improved benching: no angled-inflow term, a
    // loss-reducing benching coefficient, no plunging
    assert!(result.benching_coefficient <= 0);
    assert_eq!(result.angle_coefficient, 0);
    assert_eq!(result.plunging_coefficient, 0);
}

#[test]
fn test_grate_inlet_sag() {
    let inlet = GrateInletSag::new(3_000, 2_000, 1, 500);

    let capacity_6in = inlet.capacity(500);
    let capacity_12in = inlet.capacity(1_000);

    assert!(capacity_12in > capacity_6in);
    assert!(capacity_6in > 0);
    // at one unit of ponding the orifice controls: 0.67 x 3 sq units
    // through a sqrt(2 g) head
    assert_eq!(capacity_12in, 16_122);
}

#[test]
fn test_isqrt_brackets_the_root() {
    assert_eq!(isqrt(0), 0);
    assert_eq!(isqrt(1), 1);
    assert_eq!(isqrt(999_999_999), 31_622);
    assert_eq!(isqrt(1_000_000_000), 31_622);
    assert_eq!(isqrt(u64::MAX), 4_294_967_295);
}

#[test]
fn test_sag_flooding_sweep() {
    let inlet = GrateInletSag::new(3_000, 2_000, 1, 500);
    // 5 cfs demand over a rim two units above the invert: the sweep
    // finds the first tenth of a unit whose capacity carries it.
    let (flooding, depth) = inlet.check_flooding(5_000, 102_000, 100_000);
    assert!(!flooding);
    assert_eq!(depth, 400);
    // an impossible demand floods at the rim depth
    let (flooding, depth) = inlet.check_flooding(500_000, 102_000, 100_000);
    assert!(flooding);
    assert_eq!(depth, 2_000);
}

fn outfall(id: &str, invert: i64, bc: BoundaryCondition, tw: Option<i64>) -> Node {
    Node::new_outfall(
        id.to_string(),
        invert,
        OutfallProperties { boundary_condition: bc, tailwater_elevation: tw, tidal_curve: None },
    )
}

#[test]
fn test_tailwater_elevation() {
    let free = outfall("O1", 120_000, BoundaryCondition::Free, Some(121_000));
    assert_eq!(tailwater_elevation(&free), Ok(120_000));

    let normal = outfall("O2", 120_000, BoundaryCondition::NormalDepth, Some(121_000));
    assert_eq!(tailwater_elevation(&normal), Ok(121_000));

    let normal_bare = outfall("O3", 120_000, BoundaryCondition::NormalDepth, None);
    assert_eq!(tailwater_elevation(&normal_bare), Ok(120_000));

    let fixed = outfall("O4", 120_000, BoundaryCondition::FixedStage, Some(122_500));
    assert_eq!(tailwater_elevation(&fixed), Ok(122_500));

    let fixed_bare = outfall("O5", 120_000, BoundaryCondition::FixedStage, None);
    assert!(tailwater_elevation(&fixed_bare).is_err());
}

#[test]
fn test_check_has_outfall() {
    let mut network = Network::new();
    assert!(check_has_outfall(&network).is_err());
    network.add_node(outfall("O1", 100_000, BoundaryCondition::Free, None));
    assert!(check_has_outfall(&network).is_ok());
}

#[test]
fn test_hgl_violations_and_node_results() {
    let mut network = Network::new();
    network.add_node(Node::new_inlet(
        "IN-1".to_string(),
        120_000,
        124_000,
        InletProperties {
            inlet_type: InletType::Grate,
            location: InletLocation::Sag,
            grate: None,
            curb_opening: Some(hec22::node::CurbOpeningProperties {
                length: Some(3_000),
                height: Some(500),
                throat_type: Some(ThroatType::Horizontal),
            }),
            local_depression: None,
            clogging_factor: Some(150),
        },
    ));
    network.add_node(outfall("OUT-1", 115_000, BoundaryCondition::Free, None));

    let mut hgls = FlowMap::new();
    hgls.set("IN-1", 124_500); // half a unit above the rim
    hgls.set("OUT-1", 115_000);

    let violations = hgl_violations(&network, &hgls);
    assert_eq!(violations.len(), 1);
    assert_eq!(violations[0].violation_type, ViolationType::Hgl);
    assert_eq!(violations[0].severity, Severity::Error);
    assert_eq!(violations[0].element_id, "IN-1");
    assert_eq!(violations[0].value, Some(124_500));
    assert_eq!(violations[0].limit, Some(124_000));

    let empty = FlowMap::new();
    let results = assemble_node_results(&network, &hgls, &empty, &empty);
    assert_eq!(results.len(), 2);
    assert_eq!(results[0].node_id, "IN-1");
    assert_eq!(results[0].hgl, Some(124_500));
    assert_eq!(results[0].depth, Some(4_500));
    assert_eq!(results[0].pressure_head, Some(4_500));
    assert_eq!(results[0].flooding, Some(true));
    assert_eq!(results[1].node_id, "OUT-1");
    assert_eq!(results[1].flooding, Some(false));
    assert_eq!(results[1].node_id, "OUT-1");
}

#[test]
fn test_outfall_node_type_is_checked() {
    let mut network = Network::new();
    network.add_node(outfall("O1", 100_000, BoundaryCondition::Free, None));
    assert_eq!(network.nodes[0].node_type, NodeType::Outfall);
    let not_an_outfall = Node::new_junction(
        "MH-1".to_string(),
        100_000,
        104_000,
        hec22::node::JunctionProperties {
            diameter: None,
            sump_depth: None,
            loss_coefficient: None,
            benching: None,
            drop_structure: None,
        },
    );
    assert!(tailwater_elevation(&not_an_outfall).is_err());
}
