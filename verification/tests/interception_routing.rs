//! Routing with inlet interception and surface bypass: an on-grade
//! inlet keeps the supplied net fraction of its approach flow and
//! passes the rest whole along its surface route.  Flows and
//! efficiencies in thousandths.

use hec22::conduit::{Conduit, PipeMaterial, PipeProperties, PipeShape};
use hec22::network::Network;
use hec22::node::{
    BoundaryCondition, GrateProperties, InletLocation, InletProperties, InletType, Node,
    OutfallProperties,
};
use hec22::solver::{route_flows_with_inlets, FlowMap};

fn inlet(id: &str, invert: i64, rim: i64, location: InletLocation) -> Node {
    Node::new_inlet(
        id.to_string(),
        invert,
        rim,
        InletProperties {
            inlet_type: InletType::Grate,
            location,
            grate: Some(GrateProperties {
                length: Some(3_000),
                width: Some(2_000),
                bar_configuration: None,
            }),
            curb_opening: None,
            local_depression: None,
            clogging_factor: Some(150),
        },
    )
}

fn pipe(id: &str, from: &str, to: &str) -> Conduit {
    Conduit::new_pipe(
        id.to_string(),
        from.to_string(),
        to.to_string(),
        100_000,
        PipeProperties {
            shape: PipeShape::Circular,
            diameter: Some(18_000),
            width: None,
            height: None,
            material: Some(PipeMaterial::RCP),
            manning_n: 13,
            entrance_loss: None,
            exit_loss: None,
            bend_loss: None,
        },
    )
}

#[test]
fn test_route_flows_with_inlets_carries_bypass() {
    // IN-A (on grade, 80 percent net efficiency) -> IN-B (sag) -> OUT.
    let mut network = Network::new();
    network.add_node(inlet("IN-A", 130_000, 134_000, InletLocation::OnGrade));
    network.add_node(inlet("IN-B", 125_000, 129_000, InletLocation::Sag));
    network.add_node(Node::new_outfall(
        "OUT".to_string(),
        120_000,
        OutfallProperties {
            boundary_condition: BoundaryCondition::Free,
            tailwater_elevation: None,
            tidal_curve: None,
        },
    ));
    network.add_conduit(pipe("P-1", "IN-A", "IN-B"));
    network.add_conduit(pipe("P-2", "IN-B", "OUT"));

    let mut inflows = FlowMap::new();
    inflows.set("IN-A", 4_000);

    let mut efficiencies = FlowMap::new();
    efficiencies.set("IN-A", 800);

    let (flows, intercepted, bypass) =
        route_flows_with_inlets(&network, &inflows, &efficiencies).expect("routing succeeds");

    // the on-grade inlet keeps 3.2 cfs and sends 0.8 cfs on the surface
    assert_eq!(intercepted.get("IN-A"), Some(3_200));
    assert_eq!(bypass.get("IN-A"), Some(800));
    assert_eq!(flows.get("P-1"), Some(3_200));

    // intercepted plus bypass equals the approach exactly
    assert_eq!(intercepted.get("IN-A").unwrap() + bypass.get("IN-A").unwrap(), 4_000);

    // the sag inlet captures its pipe inflow and the arriving bypass
    assert_eq!(intercepted.get("IN-B"), Some(4_000));
    assert_eq!(bypass.get("IN-B"), Some(0));
    assert_eq!(flows.get("P-2"), Some(4_000));

    // the outfall passes everything through with no bypass
    assert_eq!(intercepted.get("OUT"), Some(4_000));
    assert_eq!(bypass.get("OUT"), Some(0));
}

#[test]
fn test_route_flows_with_inlets_defaults_to_full_capture() {
    // with no efficiency entry, an on-grade inlet captures everything
    let mut network = Network::new();
    network.add_node(inlet("IN-A", 130_000, 134_000, InletLocation::OnGrade));
    network.add_node(Node::new_outfall(
        "OUT".to_string(),
        120_000,
        OutfallProperties {
            boundary_condition: BoundaryCondition::Free,
            tailwater_elevation: None,
            tidal_curve: None,
        },
    ));
    network.add_conduit(pipe("P-1", "IN-A", "OUT"));

    let mut inflows = FlowMap::new();
    inflows.set("IN-A", 2_500);
    let efficiencies = FlowMap::new();

    let (flows, intercepted, bypass) =
        route_flows_with_inlets(&network, &inflows, &efficiencies).expect("routing succeeds");
    assert_eq!(intercepted.get("IN-A"), Some(2_500));
    assert_eq!(bypass.get("IN-A"), Some(0));
    assert_eq!(flows.get("P-1"), Some(2_500));
}
