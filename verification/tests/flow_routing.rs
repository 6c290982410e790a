//! Rational flows, flow maps and topological routing.  Flows in
//! thousandths of a cfs; areas in thousandths of an acre; intensities
//! in thousandths of an inch per hour.

use hec22::conduit::{Conduit, PipeMaterial, PipeProperties, PipeShape};
use hec22::drainage::DrainageArea;
use hec22::errors::NetworkError;
use hec22::network::Network;
use hec22::node::{
    BarConfiguration, BoundaryCondition, CurbOpeningProperties, GrateProperties, InletLocation,
    InletProperties, InletType, JunctionProperties, Node, OutfallProperties, ThroatType,
};
use hec22::project::UnitSystem;
use hec22::solver::{compute_rational_flows, route_flows, FlowMap, SolverConfig};

fn drainage_area(id: &str, area: i64, outlet: &str, c: i64, tc: i64) -> DrainageArea {
    DrainageArea {
        id: id.to_string(),
        name: None,
        area,
        outlet: outlet.to_string(),
        land_use: None,
        runoff_coefficient: Some(c),
        time_of_concentration: Some(tc),
        tc_calculation: None,
        curve_number: None,
    }
}

fn inlet(id: &str, invert: i64, rim: i64) -> Node {
    Node::new_inlet(
        id.to_string(),
        invert,
        rim,
        InletProperties {
            inlet_type: InletType::Combination,
            location: InletLocation::OnGrade,
            grate: Some(GrateProperties {
                length: Some(2_000),
                width: Some(1_500),
                bar_configuration: Some(BarConfiguration::Perpendicular),
            }),
            curb_opening: Some(CurbOpeningProperties {
                length: Some(3_000),
                height: Some(500),
                throat_type: Some(ThroatType::Horizontal),
            }),
            local_depression: Some(2_000),
            clogging_factor: Some(150),
        },
    )
}

fn pipe(id: &str, from: &str, to: &str, length: i64, diameter: i64, up: i64, down: i64) -> Conduit {
    let mut conduit = Conduit::new_pipe(
        id.to_string(),
        from.to_string(),
        to.to_string(),
        length,
        PipeProperties {
            shape: PipeShape::Circular,
            diameter: Some(diameter),
            width: None,
            height: None,
            material: Some(PipeMaterial::RCP),
            manning_n: 13,
            entrance_loss: Some(500),
            exit_loss: Some(1_000),
            bend_loss: Some(0),
        },
    );
    conduit.upstream_invert = Some(up);
    conduit.downstream_invert = Some(down);
    conduit
}

#[test]
fn test_solver_config() {
    let config = SolverConfig::us_customary();
    assert_eq!(config.unit_system, UnitSystem::US);
    assert_eq!(config.gravity, 32_170);
    assert_eq!(config.manning_k, 1_486);
}

#[test]
fn test_compute_rational_flows() {
    let areas = vec![drainage_area("DA-001", 1_000, "IN-001", 800, 10_000)];

    let flows = compute_rational_flows(&areas, 4_000);

    assert_eq!(flows.get("IN-001"), Some(3_200)); // 0.8 x 4.0 x 1.0
}

#[test]
fn test_flow_map_bindings() {
    let mut flows = FlowMap::new();
    assert_eq!(flows.get("P-1"), None);
    flows.set("P-1", 1_500);
    flows.set("P-2", 2_500);
    assert_eq!(flows.get("P-1"), Some(1_500));
    flows.set("P-1", 1_750);
    assert_eq!(flows.get("P-1"), Some(1_750));
    assert_eq!(flows.get("P-2"), Some(2_500));
    assert!(flows.contains_key("P-2"));
    assert!(!flows.contains_key("P-3"));
    assert_eq!(flows.len(), 2);
}

#[test]
fn test_simple_linear_network() {
    // IN-001 -> IN-002 -> OUT-001 with one drainage area per inlet.
    let mut network = Network::new();
    network.add_node(inlet("IN-001", 130_000, 134_000));
    network.add_node(inlet("IN-002", 125_000, 129_000));
    network.add_node(Node::new_outfall(
        "OUT-001".to_string(),
        120_000,
        OutfallProperties {
            boundary_condition: BoundaryCondition::NormalDepth,
            tailwater_elevation: Some(121_000),
            tidal_curve: None,
        },
    ));
    network.add_conduit(pipe("P-001", "IN-001", "IN-002", 200_000, 18_000, 130_000, 125_200));
    network.add_conduit(pipe("P-002", "IN-002", "OUT-001", 250_000, 24_000, 125_000, 120_300));

    network.validate_connectivity().expect("Network should be valid");

    assert_eq!(network.node_count(), 3, "Should have 3 nodes");
    assert_eq!(network.conduit_count(), 2, "Should have 2 conduits");
    assert_eq!(network.inlets().len(), 2, "Should have 2 inlets");
    assert_eq!(network.outfalls().len(), 1, "Should have 1 outfall");

    let drainage_areas = vec![
        drainage_area("DA-001", 1_500, "IN-001", 800, 15_000),
        drainage_area("DA-002", 1_000, "IN-002", 750, 12_000),
    ];

    let intensity = 4_000;
    let node_inflows = compute_rational_flows(&drainage_areas, intensity);

    assert!(node_inflows.contains_key("IN-001"), "Should have inflow at IN-001");
    assert!(node_inflows.contains_key("IN-002"), "Should have inflow at IN-002");

    // Q = C * i * A
    assert_eq!(node_inflows.get("IN-001"), Some(4_800));
    assert_eq!(node_inflows.get("IN-002"), Some(3_000));

    let conduit_flows = route_flows(&network, &node_inflows).expect("Flow routing should succeed");

    assert!(conduit_flows.contains_key("P-001"), "Should have flow in P-001");
    assert!(conduit_flows.contains_key("P-002"), "Should have flow in P-002");

    // P-001 carries IN-001's flow; P-002 the combined flow.
    assert_eq!(conduit_flows.get("P-001"), Some(4_800));
    assert_eq!(conduit_flows.get("P-002"), Some(7_800));
}

#[test]
fn test_branching_network() {
    // Two branches of two inlets each converge at MH-001 and discharge
    // through a trunk to OUT-001.
    let mut network = Network::new();
    network.add_node(inlet("IN-101", 140_000, 144_000));
    network.add_node(inlet("IN-102", 135_000, 139_000));
    network.add_node(inlet("IN-201", 138_000, 142_000));
    network.add_node(inlet("IN-202", 133_000, 137_000));
    network.add_node(Node::new_junction(
        "MH-001".to_string(),
        128_000,
        135_000,
        JunctionProperties {
            diameter: Some(4_000),
            sump_depth: Some(1_000),
            loss_coefficient: Some(200),
            benching: Some(true),
            drop_structure: Some(false),
        },
    ));
    network.add_node(Node::new_outfall(
        "OUT-001".to_string(),
        122_000,
        OutfallProperties {
            boundary_condition: BoundaryCondition::NormalDepth,
            tailwater_elevation: Some(123_500),
            tidal_curve: None,
        },
    ));
    network.add_conduit(pipe("P-101", "IN-101", "IN-102", 250_000, 15_000, 140_000, 135_200));
    network.add_conduit(pipe("P-102", "IN-102", "MH-001", 300_000, 18_000, 135_000, 128_500));
    network.add_conduit(pipe("P-201", "IN-201", "IN-202", 280_000, 15_000, 138_000, 133_200));
    network.add_conduit(pipe("P-202", "IN-202", "MH-001", 320_000, 18_000, 133_000, 128_700));
    network.add_conduit(pipe("P-301", "MH-001", "OUT-001", 350_000, 30_000, 128_000, 122_300));

    network.validate_connectivity().expect("Network should be valid");

    assert_eq!(network.node_count(), 6, "Should have 6 nodes");
    assert_eq!(network.conduit_count(), 5, "Should have 5 conduits");
    assert_eq!(network.inlets().len(), 4, "Should have 4 inlets");
    assert_eq!(network.junctions().len(), 1, "Should have 1 junction");
    assert_eq!(network.outfalls().len(), 1, "Should have 1 outfall");

    let drainage_areas = vec![
        drainage_area("DA-N1", 1_800, "IN-101", 550, 18_000),
        drainage_area("DA-N2", 1_200, "IN-102", 600, 15_000),
        drainage_area("DA-S1", 2_000, "IN-201", 700, 16_000),
        drainage_area("DA-S2", 1_500, "IN-202", 750, 14_000),
    ];

    let intensity = 4_500;
    let node_inflows = compute_rational_flows(&drainage_areas, intensity);

    assert_eq!(node_inflows.len(), 4, "Should have 4 inlet inflows");

    // Q = C * i * A per inlet; the last one truncates to the
    // thousandth below the exact product.
    let q_n1 = 4_455;
    let q_n2 = 3_240;
    let q_s1 = 6_300;
    let q_s2 = 5_062;
    assert_eq!(node_inflows.get("IN-101"), Some(q_n1));
    assert_eq!(node_inflows.get("IN-102"), Some(q_n2));
    assert_eq!(node_inflows.get("IN-201"), Some(q_s1));
    assert_eq!(node_inflows.get("IN-202"), Some(q_s2));

    let conduit_flows = route_flows(&network, &node_inflows).expect("Flow routing should succeed");

    assert_eq!(conduit_flows.len(), 5, "Should have flows in all 5 conduits");

    assert_eq!(conduit_flows.get("P-101"), Some(q_n1));
    assert_eq!(conduit_flows.get("P-102"), Some(q_n1 + q_n2));
    assert_eq!(conduit_flows.get("P-201"), Some(q_s1));
    assert_eq!(conduit_flows.get("P-202"), Some(q_s1 + q_s2));

    // The trunk carries the combined flow of both branches.
    let trunk_flow = conduit_flows.get("P-301").unwrap();
    assert!(trunk_flow > 0, "P-301 should have positive flow");
    assert_eq!(trunk_flow, q_n1 + q_n2 + q_s1 + q_s2);
}

#[test]
fn test_route_flows_detects_cycles() {
    let mut network = Network::new();
    network.add_node(inlet("A", 100_000, 104_000));
    network.add_node(inlet("B", 99_000, 103_000));
    network.add_conduit(pipe("P-AB", "A", "B", 100_000, 18_000, 100_000, 99_000));
    network.add_conduit(pipe("P-BA", "B", "A", 100_000, 18_000, 99_000, 100_000));

    let inflows = FlowMap::new();
    match route_flows(&network, &inflows) {
        Err(NetworkError::CycleDetected(_)) => {},
        other => panic!("expected a cycle, got {:?}", other),
    }
}

#[test]
fn test_route_flows_rejects_dangling_endpoints() {
    let mut network = Network::new();
    network.add_node(inlet("A", 100_000, 104_000));
    network.add_conduit(pipe("P-AX", "A", "X", 100_000, 18_000, 100_000, 99_000));

    let inflows = FlowMap::new();
    match route_flows(&network, &inflows) {
        Err(NetworkError::DanglingEndpoint(id, _)) => assert_eq!(id, "P-AX"),
        other => panic!("expected a dangling endpoint, got {:?}", other),
    }
}

#[test]
fn test_route_flows_rejects_duplicate_ids() {
    let mut network = Network::new();
    network.add_node(inlet("A", 100_000, 104_000));
    network.add_node(inlet("A", 101_000, 105_000));

    let inflows = FlowMap::new();
    match route_flows(&network, &inflows) {
        Err(NetworkError::DuplicateId(id)) => assert_eq!(id, "A"),
        other => panic!("expected a duplicate id, got {:?}", other),
    }
}

#[test]
fn test_route_flows_splits_evenly_at_diverging_nodes() {
    let mut network = Network::new();
    network.add_node(inlet("A", 100_000, 104_000));
    network.add_node(inlet("B", 99_000, 103_000));
    network.add_node(inlet("C", 99_000, 103_000));
    network.add_conduit(pipe("P-AB", "A", "B", 100_000, 18_000, 100_000, 99_000));
    network.add_conduit(pipe("P-AC", "A", "C", 100_000, 18_000, 100_000, 99_000));

    let mut inflows = FlowMap::new();
    inflows.set("A", 5_000);
    let flows = route_flows(&network, &inflows).expect("routing should succeed");
    assert_eq!(flows.get("P-AB"), Some(2_500));
    assert_eq!(flows.get("P-AC"), Some(2_500));
}
