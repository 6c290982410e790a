//! Typed errors for structural, geometric, boundary and numerical
//! failures, carrying the offending identifiers.

use vstd::prelude::*;
use vstd::string::StringExecFns;
use crate::node::BoundaryCondition;
use crate::node::NodeType;

verus! {

/// Which end of a conduit an error refers to.
#[derive(Debug, Clone, Copy, PartialEq, Eq, Structural)]
pub enum Endpoint {
    /// The upstream (`from_node`) end.
    Upstream,
    /// The downstream (`to_node`) end.
    Downstream,
}

/// Errors raised by network validation, flow routing and the solver.
#[derive(Debug, Clone, PartialEq)]
pub enum NetworkError {
    /// No node carries the given ID.
    NodeNotFound(String),
    /// No conduit carries the given ID.
    ConduitNotFound(String),
    /// A conduit references a node ID that does not exist.
    DanglingEndpoint(String, Endpoint),
    /// Two nodes or two conduits share one ID.
    DuplicateId(String),
    /// The graph contains a cycle reachable from the named node.
    CycleDetected(String),
    /// The network has no outfall node.
    NoOutfall,
    /// A node is not of the kind an operation expects.
    KindMismatch(String, NodeType, NodeType),
    /// A pipe has no diameter.
    MissingDiameter(String),
    /// A conduit's slope is zero or negative where a positive slope is
    /// needed.
    NonPositiveSlope(String),
    /// A conduit's length is zero or negative.
    NonPositiveLength(String),
    /// An outfall's boundary condition needs a tailwater elevation that
    /// was not given.
    MissingTailwater(String, BoundaryCondition),
    /// An iterative routine ran out of its iteration budget.
    Diverged(String, u64),
    /// Inputs mix unit systems.
    UnitMismatch,
    /// The network holds no nodes.
    EmptyNetwork,
}

impl NetworkError {
    /// A short human-readable description.
    pub fn describe(&self) -> String {
        let mut out = String::new();
        match self {
            NetworkError::NodeNotFound(id) => {
                out.append("node not found: ");
                out.append(id.as_str());
            },
            NetworkError::ConduitNotFound(id) => {
                out.append("conduit not found: ");
                out.append(id.as_str());
            },
            NetworkError::DanglingEndpoint(id, end) => {
                out.append("conduit ");
                out.append(id.as_str());
                match end {
                    Endpoint::Upstream => out.append(" references a missing from_node"),
                    Endpoint::Downstream => out.append(" references a missing to_node"),
                }
            },
            NetworkError::DuplicateId(id) => {
                out.append("duplicate id: ");
                out.append(id.as_str());
            },
            NetworkError::CycleDetected(id) => {
                out.append("cycle detected at node ");
                out.append(id.as_str());
            },
            NetworkError::NoOutfall => {
                out.append("network has no outfall nodes");
            },
            NetworkError::KindMismatch(id, _, _) => {
                out.append("node ");
                out.append(id.as_str());
                out.append(" is not of the expected kind");
            },
            NetworkError::MissingDiameter(id) => {
                out.append("pipe diameter not specified for ");
                out.append(id.as_str());
            },
            NetworkError::NonPositiveSlope(id) => {
                out.append("slope must be positive for ");
                out.append(id.as_str());
            },
            NetworkError::NonPositiveLength(id) => {
                out.append("length must be positive for ");
                out.append(id.as_str());
            },
            NetworkError::MissingTailwater(id, _) => {
                out.append("outfall ");
                out.append(id.as_str());
                out.append(" is missing a tailwater elevation");
            },
            NetworkError::Diverged(op, _) => {
                out.append("iteration budget exhausted in ");
                out.append(op.as_str());
            },
            NetworkError::UnitMismatch => {
                out.append("inputs mix unit systems");
            },
            NetworkError::EmptyNetwork => {
                out.append("network holds no nodes");
            },
        }
        out
    }
}

} // verus!
