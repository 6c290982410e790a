//! Network topology: the directed graph of nodes and conduits.

use vstd::prelude::*;
use crate::conduit::Conduit;
use crate::errors::Endpoint;
use crate::errors::NetworkError;
use crate::node::Node;
use crate::node::NodeType;
use crate::seqs::lemma_filter_push;
use crate::text::str_eq;

verus! {

/// Drainage network topology.
///
/// The network is a directed graph where nodes represent physical
/// structures (junctions, inlets, outfalls) and conduits represent flow
/// paths (pipes, gutters, channels).  Conduits reference nodes by ID.
#[derive(Debug, Clone, PartialEq)]
pub struct Network {
    /// Collection of nodes in the network.
    pub nodes: Vec<Node>,
    /// Collection of conduits in the network.
    pub conduits: Vec<Conduit>,
}

/// Whether some node of `nodes` carries the ID `id`.
pub open spec fn spec_has_node(nodes: Seq<Node>, id: Seq<char>) -> bool {
    exists|i: int| 0 <= i < nodes.len() && nodes[i].id@ == id
}

/// Whether every conduit endpoint references an existing node.
pub open spec fn spec_connected(nodes: Seq<Node>, conduits: Seq<Conduit>) -> bool {
    forall|j: int| 0 <= j < conduits.len() ==> {
        &&& spec_has_node(nodes, #[trigger] conduits[j].from_node@)
        &&& spec_has_node(nodes, conduits[j].to_node@)
    }
}

impl Network {
    /// Create a new empty network.
    pub fn new() -> (r: Network)
        ensures
            r.nodes@.len() == 0,
            r.conduits@.len() == 0,
    {
        Network { nodes: Vec::new(), conduits: Vec::new() }
    }

    /// Add a node to the network.
    pub fn add_node(&mut self, node: Node)
        ensures
            final(self).nodes@ == old(self).nodes@.push(node),
            final(self).conduits@ == old(self).conduits@,
    {
        self.nodes.push(node);
    }

    /// Add a conduit to the network.
    pub fn add_conduit(&mut self, conduit: Conduit)
        ensures
            final(self).conduits@ == old(self).conduits@.push(conduit),
            final(self).nodes@ == old(self).nodes@,
    {
        self.conduits.push(conduit);
    }

    /// Find the first node with the given ID.
    pub fn find_node(&self, id: &str) -> (r: Option<&Node>)
        ensures
            match r {
                Some(n) => spec_has_node(self.nodes@, id@) && exists|i: int| {
                    &&& 0 <= i < self.nodes@.len()
                    &&& *n == self.nodes@[i]
                    &&& self.nodes@[i].id@ == id@
                    &&& forall|j: int| 0 <= j < i ==> self.nodes@[j].id@ != id@
                },
                None => !spec_has_node(self.nodes@, id@),
            },
    {
        let n = self.nodes.len();
        for i in 0..n
            invariant
                n == self.nodes@.len(),
                forall|j: int| 0 <= j < i ==> self.nodes@[j].id@ != id@,
        {
            if str_eq(self.nodes[i].id.as_str(), id) {
                return Some(&self.nodes[i]);
            }
        }
        None
    }

    /// Find the first conduit with the given ID.
    pub fn find_conduit(&self, id: &str) -> (r: Option<&Conduit>)
        ensures
            match r {
                Some(c) => exists|i: int| {
                    &&& 0 <= i < self.conduits@.len()
                    &&& *c == self.conduits@[i]
                    &&& self.conduits@[i].id@ == id@
                    &&& forall|j: int| 0 <= j < i ==> self.conduits@[j].id@ != id@
                },
                None => forall|i: int|
                    0 <= i < self.conduits@.len() ==> self.conduits@[i].id@ != id@,
            },
    {
        let n = self.conduits.len();
        for i in 0..n
            invariant
                n == self.conduits@.len(),
                forall|j: int| 0 <= j < i ==> self.conduits@[j].id@ != id@,
        {
            if str_eq(self.conduits[i].id.as_str(), id) {
                return Some(&self.conduits[i]);
            }
        }
        None
    }

    /// All conduits whose downstream end is the given node, in network
    /// order.
    pub fn upstream_conduits(&self, node_id: &str) -> (r: Vec<&Conduit>)
        ensures
            ({
                let picked = self.conduits@.filter(|c: Conduit| c.to_node@ == node_id@);
                &&& r@.len() == picked.len()
                &&& forall|k: int| 0 <= k < r@.len() ==> *r@[k] == picked[k]
            }),
    {
        let pred = Ghost(|c: Conduit| c.to_node@ == node_id@);
        let mut result: Vec<&Conduit> = Vec::new();
        let n = self.conduits.len();
        assert(self.conduits@.subrange(0, 0).filter(pred@) =~= Seq::<Conduit>::empty());
        for i in 0..n
            invariant
                n == self.conduits@.len(),
                result@.len() == self.conduits@.subrange(0, i as int).filter(pred@).len(),
                forall|k: int| 0 <= k < result@.len() ==> *result@[k] == self.conduits@.subrange(
                    0,
                    i as int,
                ).filter(pred@)[k],
                pred@ == (|c: Conduit| c.to_node@ == node_id@),
        {
            proof {
                assert(self.conduits@.subrange(0, i + 1).drop_last() =~= self.conduits@.subrange(
                    0,
                    i as int,
                ));
                assert(self.conduits@.subrange(0, i + 1) =~= self.conduits@.subrange(
                    0,
                    i as int,
                ).push(self.conduits@[i as int]));
                lemma_filter_push(
                    self.conduits@.subrange(0, i as int),
                    pred@,
                    self.conduits@[i as int],
                );
            }
            if str_eq(self.conduits[i].to_node.as_str(), node_id) {
                result.push(&self.conduits[i]);
            }
        }
        proof {
            assert(self.conduits@.subrange(0, n as int) =~= self.conduits@);
        }
        result
    }

    /// All conduits whose upstream end is the given node, in network
    /// order.
    pub fn downstream_conduits(&self, node_id: &str) -> (r: Vec<&Conduit>)
        ensures
            ({
                let picked = self.conduits@.filter(|c: Conduit| c.from_node@ == node_id@);
                &&& r@.len() == picked.len()
                &&& forall|k: int| 0 <= k < r@.len() ==> *r@[k] == picked[k]
            }),
    {
        let pred = Ghost(|c: Conduit| c.from_node@ == node_id@);
        let mut result: Vec<&Conduit> = Vec::new();
        let n = self.conduits.len();
        assert(self.conduits@.subrange(0, 0).filter(pred@) =~= Seq::<Conduit>::empty());
        for i in 0..n
            invariant
                n == self.conduits@.len(),
                result@.len() == self.conduits@.subrange(0, i as int).filter(pred@).len(),
                forall|k: int| 0 <= k < result@.len() ==> *result@[k] == self.conduits@.subrange(
                    0,
                    i as int,
                ).filter(pred@)[k],
                pred@ == (|c: Conduit| c.from_node@ == node_id@),
        {
            proof {
                assert(self.conduits@.subrange(0, i + 1) =~= self.conduits@.subrange(
                    0,
                    i as int,
                ).push(self.conduits@[i as int]));
                lemma_filter_push(
                    self.conduits@.subrange(0, i as int),
                    pred@,
                    self.conduits@[i as int],
                );
            }
            if str_eq(self.conduits[i].from_node.as_str(), node_id) {
                result.push(&self.conduits[i]);
            }
        }
        proof {
            assert(self.conduits@.subrange(0, n as int) =~= self.conduits@);
        }
        result
    }

    /// Validate connectivity: every conduit endpoint must reference a
    /// known node.  On failure, reports the first conduit with a dangling
    /// endpoint.
    #[verifier::rlimit(60)]
    #[verifier::spinoff_prover]
    pub fn validate_connectivity(&self) -> (r: Result<(), NetworkError>)
        ensures
            r is Ok <==> spec_connected(self.nodes@, self.conduits@),
            match r {
                Ok(()) => true,
                Err(e) => exists|j: int| {
                    &&& 0 <= j < self.conduits@.len()
                    &&& e == NetworkError::DanglingEndpoint(
                        self.conduits@[j].id,
                        if !spec_has_node(self.nodes@, self.conduits@[j].from_node@) {
                            Endpoint::Upstream
                        } else {
                            Endpoint::Downstream
                        },
                    )
                    &&& (!spec_has_node(self.nodes@, self.conduits@[j].from_node@)
                        || !spec_has_node(self.nodes@, self.conduits@[j].to_node@))
                    &&& forall|k: int| 0 <= k < j ==> {
                        &&& spec_has_node(self.nodes@, #[trigger] self.conduits@[k].from_node@)
                        &&& spec_has_node(self.nodes@, self.conduits@[k].to_node@)
                    }
                },
            },
    {
        let n = self.conduits.len();
        for j in 0..n
            invariant
                n == self.conduits@.len(),
                forall|k: int| 0 <= k < j ==> {
                    &&& spec_has_node(self.nodes@, #[trigger] self.conduits@[k].from_node@)
                    &&& spec_has_node(self.nodes@, self.conduits@[k].to_node@)
                },
        {
            if self.find_node(self.conduits[j].from_node.as_str()).is_none() {
                let offending = self.conduits[j].id.clone();
                proof {
                    assert(!spec_has_node(self.nodes@, self.conduits@[j as int].from_node@));
                    assert(offending@ == self.conduits@[j as int].id@);
                }
                return Err(NetworkError::DanglingEndpoint(offending, Endpoint::Upstream));
            }
            if self.find_node(self.conduits[j].to_node.as_str()).is_none() {
                let offending = self.conduits[j].id.clone();
                proof {
                    assert(spec_has_node(self.nodes@, self.conduits@[j as int].from_node@));
                    assert(!spec_has_node(self.nodes@, self.conduits@[j as int].to_node@));
                    assert(offending@ == self.conduits@[j as int].id@);
                }
                return Err(NetworkError::DanglingEndpoint(offending, Endpoint::Downstream));
            }
        }
        Ok(())
    }

    /// All outfall nodes, in network order.
    pub fn outfalls(&self) -> (r: Vec<&Node>)
        ensures
            ({
                let picked = self.nodes@.filter(|n: Node| n.node_type == NodeType::Outfall);
                &&& r@.len() == picked.len()
                &&& forall|k: int| 0 <= k < r@.len() ==> *r@[k] == picked[k]
            }),
    {
        self.nodes_of_type(NodeType::Outfall)
    }

    /// All inlet nodes, in network order.
    pub fn inlets(&self) -> (r: Vec<&Node>)
        ensures
            ({
                let picked = self.nodes@.filter(|n: Node| n.node_type == NodeType::Inlet);
                &&& r@.len() == picked.len()
                &&& forall|k: int| 0 <= k < r@.len() ==> *r@[k] == picked[k]
            }),
    {
        self.nodes_of_type(NodeType::Inlet)
    }

    /// All junction nodes, in network order.
    pub fn junctions(&self) -> (r: Vec<&Node>)
        ensures
            ({
                let picked = self.nodes@.filter(|n: Node| n.node_type == NodeType::Junction);
                &&& r@.len() == picked.len()
                &&& forall|k: int| 0 <= k < r@.len() ==> *r@[k] == picked[k]
            }),
    {
        self.nodes_of_type(NodeType::Junction)
    }

    /// All nodes of one kind, in network order.
    fn nodes_of_type(&self, node_type: NodeType) -> (r: Vec<&Node>)
        ensures
            ({
                let picked = self.nodes@.filter(|n: Node| n.node_type == node_type);
                &&& r@.len() == picked.len()
                &&& forall|k: int| 0 <= k < r@.len() ==> *r@[k] == picked[k]
            }),
    {
        let pred = Ghost(|n: Node| n.node_type == node_type);
        let mut result: Vec<&Node> = Vec::new();
        let n = self.nodes.len();
        assert(self.nodes@.subrange(0, 0).filter(pred@) =~= Seq::<Node>::empty());
        for i in 0..n
            invariant
                n == self.nodes@.len(),
                result@.len() == self.nodes@.subrange(0, i as int).filter(pred@).len(),
                forall|k: int| 0 <= k < result@.len() ==> *result@[k] == self.nodes@.subrange(
                    0,
                    i as int,
                ).filter(pred@)[k],
                pred@ == (|n: Node| n.node_type == node_type),
        {
            proof {
                assert(self.nodes@.subrange(0, i + 1) =~= self.nodes@.subrange(0, i as int).push(
                    self.nodes@[i as int],
                ));
                lemma_filter_push(self.nodes@.subrange(0, i as int), pred@, self.nodes@[i as int]);
            }
            if self.nodes[i].node_type == node_type {
                result.push(&self.nodes[i]);
            }
        }
        proof {
            assert(self.nodes@.subrange(0, n as int) =~= self.nodes@);
        }
        result
    }

    /// Count of nodes.
    pub fn node_count(&self) -> (r: usize)
        ensures
            r == self.nodes@.len(),
    {
        self.nodes.len()
    }

    /// Count of conduits.
    pub fn conduit_count(&self) -> (r: usize)
        ensures
            r == self.conduits@.len(),
    {
        self.conduits.len()
    }
}

impl Default for Network {
    /// An empty network.
    fn default() -> (r: Network)
        ensures
            r.nodes@.len() == 0,
            r.conduits@.len() == 0,
    {
        Network::new()
    }
}

} // verus!
