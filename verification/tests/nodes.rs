//! Node construction.  Dimensional values are in thousandths of the
//! engine unit.

use hec22::node::{
    BarConfiguration, BoundaryCondition, GrateProperties, InletLocation, InletProperties,
    InletType, JunctionProperties, Node, NodeType, OutfallProperties,
};

#[test]
fn test_create_junction() {
    let props = JunctionProperties {
        diameter: Some(4000),
        sump_depth: Some(500),
        loss_coefficient: Some(150),
        benching: Some(true),
        drop_structure: Some(false),
    };

    let node = Node::new_junction("MH-001".to_string(), 120_000, 125_000, props);

    assert_eq!(node.id, "MH-001");
    assert_eq!(node.node_type, NodeType::Junction);
    assert!(node.is_junction());
    assert!(!node.is_inlet());
}

#[test]
fn test_create_inlet() {
    let props = InletProperties {
        inlet_type: InletType::Combination,
        location: InletLocation::OnGrade,
        grate: Some(GrateProperties {
            length: Some(2000),
            width: Some(1500),
            bar_configuration: Some(BarConfiguration::Perpendicular),
        }),
        curb_opening: None,
        local_depression: Some(2000),
        clogging_factor: Some(150),
    };

    let node = Node::new_inlet("IN-001".to_string(), 124_500, 128_000, props);

    assert_eq!(node.id, "IN-001");
    assert!(node.is_inlet());
    assert_eq!(node.inlet.as_ref().unwrap().inlet_type, InletType::Combination);
}

#[test]
fn test_create_outfall() {
    let props = OutfallProperties {
        boundary_condition: BoundaryCondition::NormalDepth,
        tailwater_elevation: None,
        tidal_curve: None,
    };

    let node = Node::new_outfall("OUT-001".to_string(), 115_000, props);

    assert_eq!(node.id, "OUT-001");
    assert!(node.is_outfall());
}
