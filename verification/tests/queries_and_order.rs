//! Lookups on the top-level model and the downstream-first sweep order.

use hec22::conduit::{Conduit, GutterProperties};
use hec22::errors::NetworkError;
use hec22::network::Network;
use hec22::node::{BoundaryCondition, Node, NodeType, OutfallProperties};
use hec22::project::{Project, Units};
use hec22::solver::hgl_processing_order;
use hec22::DrainageNetwork;

fn outfall(id: &str, invert: i64) -> Node {
    Node::new_outfall(
        id.to_string(),
        invert,
        OutfallProperties {
            boundary_condition: BoundaryCondition::Free,
            tailwater_elevation: None,
            tidal_curve: None,
        },
    )
}

fn gutter(id: &str, from: &str, to: &str) -> Conduit {
    Conduit::new_gutter(
        id.to_string(),
        from.to_string(),
        to.to_string(),
        100_000,
        GutterProperties { cross_slope: 20, longitudinal_slope: 10, width: None, manning_n: 16 },
    )
}

fn sample_model() -> DrainageNetwork {
    let mut network = Network::new();
    network.add_node(outfall("A", 102_000));
    network.add_node(outfall("B", 101_000));
    network.add_node(outfall("C", 100_000));
    network.add_conduit(gutter("G-1", "A", "B"));
    network.add_conduit(gutter("G-2", "B", "C"));
    DrainageNetwork::new(
        Project {
            name: "Queries".to_string(),
            description: None,
            location: None,
            units: Units::us_customary(),
            author: None,
            created: None,
            modified: None,
        },
        network,
    )
}

#[test]
fn test_upstream_downstream_queries() {
    let model = sample_model();
    assert!(model.find_node("B").is_some());
    assert!(model.find_node("Z").is_none());
    assert!(model.find_conduit("G-2").is_some());
    assert!(model.find_conduit("G-9").is_none());
    assert_eq!(model.upstream_conduits("B").len(), 1);
    assert_eq!(model.downstream_conduits("B").len(), 1);
    assert_eq!(model.upstream_conduits("A").len(), 0);
    assert_eq!(model.nodes_by_type(NodeType::Outfall).len(), 3);
}

#[test]
fn test_hgl_order_is_downstream_first() {
    let model = sample_model();
    let order = hgl_processing_order(&model.network).expect("order should exist");
    assert_eq!(order.len(), 3);
    // C (index 2) drains last, so the sweep must reach it first; A
    // (index 0) is the most upstream and must come last.
    let pos = |v: usize| order.iter().position(|&x| x == v).unwrap();
    assert!(pos(2) < pos(1));
    assert!(pos(1) < pos(0));
}

#[test]
fn test_error_descriptions_name_the_element() {
    let err = NetworkError::NodeNotFound("MH-7".to_string());
    assert_eq!(err.describe(), "node not found: MH-7");
    let cyc = NetworkError::CycleDetected("A".to_string());
    assert_eq!(cyc.describe(), "cycle detected at node A");
    assert_eq!(NetworkError::NoOutfall.describe(), "network has no outfall nodes");
}
