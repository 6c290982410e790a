//! Node types for drainage networks.
//!
//! Nodes represent physical structures in the drainage network:
//! junctions (manholes), inlets (surface collection points) and
//! outfalls (discharge points).
//!
//! Every dimensional field carries its value in thousandths of the
//! project's engine unit (feet or metres), so `invert_elevation`
//! of `120_000` stands for an invert at elevation 120.

use vstd::prelude::*;

verus! {

/// A node in the drainage network.
#[derive(Debug, Clone, PartialEq)]
pub struct Node {
    /// Unique node identifier.
    pub id: String,
    /// Node kind.
    pub node_type: NodeType,
    /// Descriptive name (optional).
    pub name: Option<String>,
    /// Invert elevation of the lowest pipe, in thousandths.
    pub invert_elevation: i64,
    /// Ground or rim elevation for flooding checks, in thousandths (optional).
    pub rim_elevation: Option<i64>,
    /// Spatial location (optional).
    pub coordinates: Option<Coordinates>,
    /// Junction-specific properties.
    pub junction: Option<JunctionProperties>,
    /// Inlet-specific properties.
    pub inlet: Option<InletProperties>,
    /// Outfall-specific properties.
    pub outfall: Option<OutfallProperties>,
}

/// Node kind classification.
#[derive(Debug, Clone, Copy, PartialEq, Eq, Structural)]
pub enum NodeType {
    /// Junction or manhole (pipe connection point).
    Junction,
    /// Inlet (surface drainage collection).
    Inlet,
    /// Outfall (discharge point).
    Outfall,
}

/// Spatial coordinates, in thousandths of the project coordinate unit.
#[derive(Debug, Clone, PartialEq)]
pub struct Coordinates {
    /// X coordinate (optional).
    pub x: Option<i64>,
    /// Y coordinate (optional).
    pub y: Option<i64>,
    /// Latitude in thousandths of a decimal degree (optional).
    pub latitude: Option<i64>,
    /// Longitude in thousandths of a decimal degree (optional).
    pub longitude: Option<i64>,
}

/// Junction (manhole) properties.
#[derive(Debug, Clone, PartialEq)]
pub struct JunctionProperties {
    /// Manhole diameter, in thousandths (optional).
    pub diameter: Option<i64>,
    /// Sump depth below the lowest invert, in thousandths (optional).
    pub sump_depth: Option<i64>,
    /// Energy loss coefficient K, in thousandths (optional).
    pub loss_coefficient: Option<i64>,
    /// Whether benching is present (optional).
    pub benching: Option<bool>,
    /// Whether this is a drop structure (optional).
    pub drop_structure: Option<bool>,
}

/// Inlet properties.
#[derive(Debug, Clone, PartialEq)]
pub struct InletProperties {
    /// Kind of inlet.
    pub inlet_type: InletType,
    /// Location kind (on-grade or sag).
    pub location: InletLocation,
    /// Grate geometry (optional).
    pub grate: Option<GrateProperties>,
    /// Curb-opening geometry (optional).
    pub curb_opening: Option<CurbOpeningProperties>,
    /// Local depression depth, in thousandths (optional).
    pub local_depression: Option<i64>,
    /// Clogging fraction in thousandths, `0` to `1000` (optional).
    pub clogging_factor: Option<i64>,
}

/// Inlet kind classification.
#[derive(Debug, Clone, Copy, PartialEq, Eq, Structural)]
pub enum InletType {
    /// Grate inlet only.
    Grate,
    /// Curb opening inlet only.
    CurbOpening,
    /// Combination grate and curb opening.
    Combination,
    /// Slotted drain inlet.
    Slotted,
}

/// Inlet location kind.
#[derive(Debug, Clone, Copy, PartialEq, Eq, Structural)]
pub enum InletLocation {
    /// On a continuous grade; bypass flow is possible.
    OnGrade,
    /// At a low point; no bypass flow.
    Sag,
}

/// Grate inlet geometry.
#[derive(Debug, Clone, PartialEq)]
pub struct GrateProperties {
    /// Grate length, in thousandths (optional).
    pub length: Option<i64>,
    /// Grate width, in thousandths (optional).
    pub width: Option<i64>,
    /// Bar configuration relative to the flow direction (optional).
    pub bar_configuration: Option<BarConfiguration>,
}

/// Bar configuration for grate inlets.
#[derive(Debug, Clone, Copy, PartialEq, Eq, Structural)]
pub enum BarConfiguration {
    /// Bars parallel to the flow (better capacity).
    Parallel,
    /// Bars perpendicular to the flow (better debris handling).
    Perpendicular,
}

/// Curb-opening inlet geometry.
#[derive(Debug, Clone, PartialEq)]
pub struct CurbOpeningProperties {
    /// Opening length, in thousandths (optional).
    pub length: Option<i64>,
    /// Opening height, in thousandths (optional).
    pub height: Option<i64>,
    /// Throat kind (optional).
    pub throat_type: Option<ThroatType>,
}

/// Curb-opening throat kind.
#[derive(Debug, Clone, Copy, PartialEq, Eq, Structural)]
pub enum ThroatType {
    /// Horizontal throat (standard).
    Horizontal,
    /// Inclined throat (improved capacity).
    Inclined,
    /// Vertical throat (maximum capacity).
    Vertical,
}

/// Outfall properties.
#[derive(Debug, Clone, PartialEq)]
pub struct OutfallProperties {
    /// Downstream boundary condition kind.
    pub boundary_condition: BoundaryCondition,
    /// Fixed tailwater elevation, in thousandths (optional).
    pub tailwater_elevation: Option<i64>,
    /// Tidal stage variation (optional).
    pub tidal_curve: Option<Vec<TidalPoint>>,
}

/// Downstream boundary condition kind.
#[derive(Debug, Clone, Copy, PartialEq, Eq, Structural)]
pub enum BoundaryCondition {
    /// Free outfall.
    Free,
    /// Normal depth based on conduit slope.
    NormalDepth,
    /// Fixed stage elevation.
    FixedStage,
    /// Tidal boundary.
    Tidal,
}

/// Tidal stage data point.
#[derive(Debug, Clone, PartialEq)]
pub struct TidalPoint {
    /// Time from start, in thousandths of a minute.
    pub time: i64,
    /// Water surface elevation at this time, in thousandths.
    pub elevation: i64,
}

impl Node {
    /// Create a new junction node.
    pub fn new_junction(
        id: String,
        invert_elevation: i64,
        rim_elevation: i64,
        properties: JunctionProperties,
    ) -> (r: Node)
        ensures
            r.id == id,
            r.node_type == NodeType::Junction,
            r.name is None,
            r.invert_elevation == invert_elevation,
            r.rim_elevation == Some(rim_elevation),
            r.junction == Some(properties),
            r.inlet is None,
            r.outfall is None,
    {
        Node {
            id,
            node_type: NodeType::Junction,
            name: None,
            invert_elevation,
            rim_elevation: Some(rim_elevation),
            coordinates: None,
            junction: Some(properties),
            inlet: None,
            outfall: None,
        }
    }

    /// Create a new inlet node.
    pub fn new_inlet(
        id: String,
        invert_elevation: i64,
        rim_elevation: i64,
        properties: InletProperties,
    ) -> (r: Node)
        ensures
            r.id == id,
            r.node_type == NodeType::Inlet,
            r.name is None,
            r.invert_elevation == invert_elevation,
            r.rim_elevation == Some(rim_elevation),
            r.junction is None,
            r.inlet == Some(properties),
            r.outfall is None,
    {
        Node {
            id,
            node_type: NodeType::Inlet,
            name: None,
            invert_elevation,
            rim_elevation: Some(rim_elevation),
            coordinates: None,
            junction: None,
            inlet: Some(properties),
            outfall: None,
        }
    }

    /// Create a new outfall node.
    pub fn new_outfall(
        id: String,
        invert_elevation: i64,
        properties: OutfallProperties,
    ) -> (r: Node)
        ensures
            r.id == id,
            r.node_type == NodeType::Outfall,
            r.name is None,
            r.invert_elevation == invert_elevation,
            r.rim_elevation is None,
            r.junction is None,
            r.inlet is None,
            r.outfall == Some(properties),
    {
        Node {
            id,
            node_type: NodeType::Outfall,
            name: None,
            invert_elevation,
            rim_elevation: None,
            coordinates: None,
            junction: None,
            inlet: None,
            outfall: Some(properties),
        }
    }

    /// Check whether the node is an inlet.
    pub fn is_inlet(&self) -> (r: bool)
        ensures
            r == (self.node_type == NodeType::Inlet),
    {
        self.node_type == NodeType::Inlet
    }

    /// Check whether the node is a junction.
    pub fn is_junction(&self) -> (r: bool)
        ensures
            r == (self.node_type == NodeType::Junction),
    {
        self.node_type == NodeType::Junction
    }

    /// Check whether the node is an outfall.
    pub fn is_outfall(&self) -> (r: bool)
        ensures
            r == (self.node_type == NodeType::Outfall),
    {
        self.node_type == NodeType::Outfall
    }
}

} // verus!
