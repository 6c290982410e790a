//! Urban storm-drainage analysis following the FHWA HEC-22 (4th edition)
//! methodology.
//!
//! The engine works on a directed network of nodes (inlets, junctions,
//! outfalls) and conduits (pipes, gutters, channels).  Every dimensional
//! quantity is carried as a signed integer in thousandths of the engine
//! unit (feet and cubic feet per second in US customary projects, metres
//! and cubic metres per second in SI projects), so that the routing and
//! energy bookkeeping are exact integer arithmetic.  Conversion from and
//! to floating-point documents happens outside the engine.

pub mod analysis;
pub mod conduit;
pub mod drainage;
pub mod errors;
mod fixed;
pub mod hydraulics;
pub mod inlet;
pub mod network;
pub mod node;
pub mod project;
pub mod rainfall;
mod seqs;
pub mod solver;
mod text;
mod topo;

use vstd::prelude::*;
use vstd::string::StringExecFns;
use crate::conduit::Conduit;
use crate::network::Network;
use crate::network::spec_has_node;
use crate::node::Node;
use crate::node::NodeType;
use crate::seqs::lemma_filter_push;

verus! {

/// Root-level drainage network model: project metadata, topology,
/// hydrologic data and analysis results.
#[derive(Debug, Clone, PartialEq)]
pub struct DrainageNetwork {
    /// Schema version (semantic versioning).
    pub version: String,
    /// Project metadata and settings.
    pub project: project::Project,
    /// Network topology (nodes and conduits).
    pub network: Network,
    /// Rainfall events and IDF curves (optional).
    pub rainfall: Option<rainfall::Rainfall>,
    /// Drainage areas (optional).
    pub drainage_areas: Option<Vec<drainage::DrainageArea>>,
    /// Design criteria and constraints (optional).
    pub design_criteria: Option<analysis::DesignCriteria>,
    /// Analysis results (optional, populated by a solver).
    pub analysis: Option<analysis::Analysis>,
}

impl DrainageNetwork {
    /// Create a new drainage network with the minimal required fields.
    pub fn new(project: project::Project, network: Network) -> (r: DrainageNetwork)
        ensures
            r.version@ == "1.0.0"@,
            r.project == project,
            r.network == network,
            r.rainfall is None,
            r.drainage_areas is None,
            r.design_criteria is None,
            r.analysis is None,
    {
        DrainageNetwork {
            version: String::from_str("1.0.0"),
            project,
            network,
            rainfall: None,
            drainage_areas: None,
            design_criteria: None,
            analysis: None,
        }
    }

    /// All nodes of one kind, in network order.
    pub fn nodes_by_type(&self, node_type: NodeType) -> (r: Vec<&Node>)
        ensures
            ({
                let picked = self.network.nodes@.filter(|n: Node| n.node_type == node_type);
                &&& r@.len() == picked.len()
                &&& forall|k: int| 0 <= k < r@.len() ==> *r@[k] == picked[k]
            }),
    {
        let pred = Ghost(|n: Node| n.node_type == node_type);
        let mut result: Vec<&Node> = Vec::new();
        let n = self.network.nodes.len();
        assert(self.network.nodes@.subrange(0, 0).filter(pred@) =~= Seq::<Node>::empty());
        for i in 0..n
            invariant
                n == self.network.nodes@.len(),
                result@.len() == self.network.nodes@.subrange(0, i as int).filter(pred@).len(),
                forall|k: int| 0 <= k < result@.len() ==> *result@[k]
                    == self.network.nodes@.subrange(0, i as int).filter(pred@)[k],
                pred@ == (|n: Node| n.node_type == node_type),
        {
            proof {
                assert(self.network.nodes@.subrange(0, i + 1) =~= self.network.nodes@.subrange(
                    0,
                    i as int,
                ).push(self.network.nodes@[i as int]));
                lemma_filter_push(
                    self.network.nodes@.subrange(0, i as int),
                    pred@,
                    self.network.nodes@[i as int],
                );
            }
            if self.network.nodes[i].node_type == node_type {
                result.push(&self.network.nodes[i]);
            }
        }
        proof {
            assert(self.network.nodes@.subrange(0, n as int) =~= self.network.nodes@);
        }
        result
    }

    /// Find the first node with the given ID.
    pub fn find_node(&self, id: &str) -> (r: Option<&Node>)
        ensures
            match r {
                Some(n) => spec_has_node(self.network.nodes@, id@) && exists|i: int| {
                    &&& 0 <= i < self.network.nodes@.len()
                    &&& *n == self.network.nodes@[i]
                    &&& self.network.nodes@[i].id@ == id@
                },
                None => !spec_has_node(self.network.nodes@, id@),
            },
    {
        self.network.find_node(id)
    }

    /// Find the first conduit with the given ID.
    pub fn find_conduit(&self, id: &str) -> (r: Option<&Conduit>)
        ensures
            match r {
                Some(c) => exists|i: int| {
                    &&& 0 <= i < self.network.conduits@.len()
                    &&& *c == self.network.conduits@[i]
                    &&& self.network.conduits@[i].id@ == id@
                },
                None => forall|i: int|
                    0 <= i < self.network.conduits@.len() ==> self.network.conduits@[i].id@ != id@,
            },
    {
        self.network.find_conduit(id)
    }

    /// All conduits whose downstream end is the given node, in network
    /// order.
    pub fn upstream_conduits(&self, node_id: &str) -> (r: Vec<&Conduit>)
        ensures
            ({
                let picked = self.network.conduits@.filter(|c: Conduit| c.to_node@ == node_id@);
                &&& r@.len() == picked.len()
                &&& forall|k: int| 0 <= k < r@.len() ==> *r@[k] == picked[k]
            }),
    {
        self.network.upstream_conduits(node_id)
    }

    /// All conduits whose upstream end is the given node, in network
    /// order.
    pub fn downstream_conduits(&self, node_id: &str) -> (r: Vec<&Conduit>)
        ensures
            ({
                let picked = self.network.conduits@.filter(|c: Conduit| c.from_node@ == node_id@);
                &&& r@.len() == picked.len()
                &&& forall|k: int| 0 <= k < r@.len() ==> *r@[k] == picked[k]
            }),
    {
        self.network.downstream_conduits(node_id)
    }
}

} // verus!
