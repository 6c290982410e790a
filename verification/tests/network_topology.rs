//! Network construction, lookups and connectivity validation.

use hec22::conduit::{Conduit, ConduitType, PipeProperties, PipeShape};
use hec22::network::Network;
use hec22::node::{BoundaryCondition, Node, NodeType, OutfallProperties};
use hec22::project;
use hec22::DrainageNetwork;

#[test]
fn test_minimal_network() {
    let project = project::Project {
        name: "Test Project".to_string(),
        description: None,
        location: None,
        units: project::Units {
            system: project::UnitSystem::US,
            length: Some(project::LengthUnit::Feet),
            elevation: Some(project::LengthUnit::Feet),
            flow: Some(project::FlowUnit::Cfs),
            area: Some(project::AreaUnit::Acres),
        },
        author: None,
        created: None,
        modified: None,
    };

    let network = Network { nodes: vec![], conduits: vec![] };

    let drainage_network = DrainageNetwork::new(project, network);

    assert_eq!(drainage_network.version, "1.0.0");
    assert_eq!(drainage_network.project.name, "Test Project");
}

#[test]
fn test_empty_network() {
    let network = Network::new();
    assert_eq!(network.node_count(), 0);
    assert_eq!(network.conduit_count(), 0);
}

#[test]
fn test_add_nodes() {
    let mut network = Network::new();

    let outfall = Node::new_outfall(
        "OUT-1".to_string(),
        100_000,
        OutfallProperties {
            boundary_condition: BoundaryCondition::Free,
            tailwater_elevation: None,
            tidal_curve: None,
        },
    );

    network.add_node(outfall);
    assert_eq!(network.node_count(), 1);
    assert_eq!(network.outfalls().len(), 1);
}

#[test]
fn test_validate_connectivity() {
    let mut network = Network::new();

    network.add_node(Node {
        id: "N1".to_string(),
        node_type: NodeType::Inlet,
        name: None,
        invert_elevation: 120_000,
        rim_elevation: Some(125_000),
        coordinates: None,
        junction: None,
        inlet: None,
        outfall: None,
    });

    network.add_node(Node {
        id: "N2".to_string(),
        node_type: NodeType::Outfall,
        name: None,
        invert_elevation: 115_000,
        rim_elevation: None,
        coordinates: None,
        junction: None,
        inlet: None,
        outfall: None,
    });

    network.add_conduit(Conduit {
        id: "C1".to_string(),
        conduit_type: ConduitType::Pipe,
        name: None,
        from_node: "N1".to_string(),
        to_node: "N2".to_string(),
        length: 100_000,
        upstream_invert: None,
        downstream_invert: None,
        slope: None,
        pipe: Some(PipeProperties {
            shape: PipeShape::Circular,
            diameter: Some(18_000),
            width: None,
            height: None,
            material: None,
            manning_n: 13,
            entrance_loss: None,
            exit_loss: None,
            bend_loss: None,
        }),
        gutter: None,
        channel: None,
    });

    assert!(network.validate_connectivity().is_ok());

    network.add_conduit(Conduit {
        id: "C2".to_string(),
        conduit_type: ConduitType::Pipe,
        name: None,
        from_node: "N1".to_string(),
        to_node: "N3".to_string(),
        length: 100_000,
        upstream_invert: None,
        downstream_invert: None,
        slope: None,
        pipe: None,
        gutter: None,
        channel: None,
    });

    assert!(network.validate_connectivity().is_err());
}
