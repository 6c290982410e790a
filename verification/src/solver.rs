//! Surface-to-system flow routing and the solver-facing helpers: the
//! rational-method accumulation, Kahn-ordered routing with inlet
//! interception and bypass tracking, and the downstream-first conduit
//! order for the hydraulic-grade-line sweep.

use vstd::prelude::*;
use vstd::pervasive::VecAdditionalExecFns;
use vstd::string::StringExecFns;
use crate::conduit::Conduit;
use crate::drainage::DrainageArea;
use crate::drainage::spec_rational_runoff;
use crate::errors::Endpoint;
use crate::errors::NetworkError;
use crate::fixed::div_trunc;
use crate::network::Network;
use crate::node::InletLocation;
use crate::node::BoundaryCondition;
use crate::node::Node;
use crate::node::NodeType;
use crate::project::UnitSystem;
use crate::text::str_eq;
use crate::topo::topo_sort;
use crate::topo::topo_order_ok;

verus! {

/// Configuration of the hydraulic solver.  The gravitational constant
/// and Manning constant are in thousandths; the tolerance is in
/// thousandths of the engine unit.
#[derive(Debug, Clone, PartialEq)]
pub struct SolverConfig {
    /// Unit system.
    pub unit_system: UnitSystem,
    /// Gravitational constant in thousandths (32170 US, 9810 SI).
    pub gravity: i64,
    /// Manning constant in thousandths (1486 US, 1000 SI).
    pub manning_k: i64,
    /// Maximum iterations for iterative routines.
    pub max_iterations: usize,
    /// Convergence tolerance in thousandths.
    pub tolerance: i64,
}

impl SolverConfig {
    /// The US customary configuration.
    pub fn us_customary() -> (r: SolverConfig)
        ensures
            r.unit_system == UnitSystem::US,
            r.gravity == 32170,
            r.manning_k == 1486,
            r.max_iterations == 50,
            r.tolerance == 1,
    {
        SolverConfig {
            unit_system: UnitSystem::US,
            gravity: 32170,
            manning_k: 1486,
            max_iterations: 50,
            tolerance: 1,
        }
    }

    /// The SI metric configuration.
    pub fn si_metric() -> (r: SolverConfig)
        ensures
            r.unit_system == UnitSystem::SI,
            r.gravity == 9810,
            r.manning_k == 1000,
            r.max_iterations == 50,
            r.tolerance == 1,
    {
        SolverConfig {
            unit_system: UnitSystem::SI,
            gravity: 9810,
            manning_k: 1000,
            max_iterations: 50,
            tolerance: 1,
        }
    }
}

/// The value the association list binds to `key`: the first entry with
/// a matching identifier wins.
pub open spec fn spec_lookup(entries: Seq<(String, i64)>, key: Seq<char>) -> Option<i64>
    decreases entries.len(),
{
    if entries.len() == 0 {
        None
    } else if entries[0].0@ == key {
        Some(entries[0].1)
    } else {
        spec_lookup(entries.drop_first(), key)
    }
}

/// A map from element identifiers to flows in thousandths, kept as an
/// association list with distinct keys.
#[derive(Debug, Clone, PartialEq)]
pub struct FlowMap {
    /// The identifier-to-flow entries, with pairwise distinct
    /// identifiers.
    pub entries: Vec<(String, i64)>,
}

impl FlowMap {
    /// Whether the keys are pairwise distinct.
    pub open spec fn wf(self) -> bool {
        forall|i: int, j: int|
            0 <= i < j < self.entries@.len() ==> (#[trigger] self.entries@[i]).0@ != (
            #[trigger] self.entries@[j]).0@
    }

    /// An empty flow map.
    pub fn new() -> (r: FlowMap)
        ensures
            r.wf(),
            r.entries@.len() == 0,
            forall|key: Seq<char>| spec_lookup(r.entries@, key) is None,
    {
        let entries: Vec<(String, i64)> = Vec::new();
        FlowMap { entries }
    }

    /// The flow bound to the given identifier, if any.
    pub fn get(&self, key: &str) -> (r: Option<i64>)
        ensures
            r == spec_lookup(self.entries@, key@),
    {
        let n = self.entries.len();
        proof {
            assert(self.entries@.subrange(0, n as int) =~= self.entries@);
        }
        for i in 0..n
            invariant
                n == self.entries@.len(),
                spec_lookup(self.entries@, key@) == spec_lookup(
                    self.entries@.subrange(i as int, n as int),
                    key@,
                ),
        {
            proof {
                assert(self.entries@.subrange(i as int, n as int).drop_first()
                    =~= self.entries@.subrange(i + 1, n as int));
            }
            if str_eq(self.entries[i].0.as_str(), key) {
                return Some(self.entries[i].1);
            }
        }
        None
    }

    /// Whether the map binds the given identifier.
    pub fn contains_key(&self, key: &str) -> (r: bool)
        ensures
            r == (spec_lookup(self.entries@, key@) is Some),
    {
        self.get(key).is_some()
    }

    /// Bind `key` to `value`, replacing any previous binding.
    pub fn set(&mut self, key: &str, value: i64)
        requires
            old(self).wf(),
        ensures
            final(self).wf(),
            spec_lookup(final(self).entries@, key@) == Some(value),
            forall|other: Seq<char>|
                other != key@ ==> spec_lookup(final(self).entries@, other) == spec_lookup(
                    old(self).entries@,
                    other,
                ),
    {
        let ghost eold = self.entries@;
        let n = self.entries.len();
        for i in 0..n
            invariant
                self.entries@ == eold,
                n == eold.len(),
                old(self).wf(),
                self.entries@ == old(self).entries@,
                forall|j: int| 0 <= j < i ==> (#[trigger] eold[j]).0@ != key@,
        {
            if str_eq(self.entries[i].0.as_str(), key) {
                let id = self.entries[i].0.clone();
                self.entries.set(i, (id, value));
                proof {
                    lemma_lookup_at(self.entries@, key@, i as int);
                    assert forall|other: Seq<char>| other != key@ implies spec_lookup(
                        self.entries@,
                        other,
                    ) == spec_lookup(eold, other) by {
                        lemma_lookup_update_other(eold, self.entries@, other, i as int);
                    }
                }
                return;
            }
        }
        let ghost ebefore = self.entries@;
        let owned = String::from_str(key);
        self.entries.push((owned, value));
        proof {
            lemma_lookup_at(self.entries@, key@, n as int);
            assert forall|other: Seq<char>| other != key@ implies spec_lookup(
                self.entries@,
                other,
            ) == spec_lookup(ebefore, other) by {
                lemma_lookup_push_other(ebefore, (self.entries@[n as int].0, value), other);
            }
        }
    }

    /// The number of identifiers bound.
    pub fn len(&self) -> (r: usize)
        ensures
            r == self.entries@.len(),
    {
        self.entries.len()
    }

    /// The identifier of the entry at the given position.
    pub fn key_at(&self, i: usize) -> (r: &String)
        requires
            i < self.entries@.len(),
        ensures
            *r == self.entries@[i as int].0,
    {
        &self.entries[i].0
    }

    /// The flow of the entry at the given position.
    pub fn value_at(&self, i: usize) -> (r: i64)
        requires
            i < self.entries@.len(),
        ensures
            r == self.entries@[i as int].1,
    {
        self.entries[i].1
    }
}

/// When no earlier entry matches, the lookup finds the entry at `i`.
proof fn lemma_lookup_at(entries: Seq<(String, i64)>, key: Seq<char>, i: int)
    requires
        0 <= i < entries.len(),
        entries[i].0@ == key,
        forall|j: int| 0 <= j < i ==> (#[trigger] entries[j]).0@ != key,
    ensures
        spec_lookup(entries, key) == Some(entries[i].1),
    decreases i,
{
    if i > 0 {
        assert(entries.drop_first()[i - 1] == entries[i]);
        assert(forall|j: int|
            0 <= j < i - 1 ==> (#[trigger] entries.drop_first()[j]).0@ == entries[j + 1].0@);
        lemma_lookup_at(entries.drop_first(), key, i - 1);
    }
}

/// Replacing the entry at `i` does not change the binding of other
/// keys, provided the entry keeps its key.
proof fn lemma_lookup_update_other(
    before: Seq<(String, i64)>,
    after: Seq<(String, i64)>,
    other: Seq<char>,
    i: int,
)
    requires
        0 <= i < before.len(),
        after.len() == before.len(),
        forall|j: int| 0 <= j < before.len() && j != i ==> after[j] == before[j],
        after[i].0@ == before[i].0@,
        after[i].0@ != other,
    ensures
        spec_lookup(after, other) == spec_lookup(before, other),
    decreases before.len(),
{
    if before.len() > 0 {
        if i == 0 {
            assert(after.drop_first() =~= before.drop_first());
        } else {
            assert(after[0] == before[0]);
            if before[0].0@ != other {
                assert(forall|j: int|
                    0 <= j < before.drop_first().len() && j != i - 1
                        ==> #[trigger] after.drop_first()[j] == before.drop_first()[j]);
                assert(after.drop_first()[i - 1].0@ == before.drop_first()[i - 1].0@);
                lemma_lookup_update_other(before.drop_first(), after.drop_first(), other, i - 1);
            }
        }
    }
}

/// Appending an entry does not change the binding of other keys.
proof fn lemma_lookup_push_other(
    before: Seq<(String, i64)>,
    entry: (String, i64),
    other: Seq<char>,
)
    requires
        entry.0@ != other,
    ensures
        spec_lookup(before.push(entry), other) == spec_lookup(before, other),
    decreases before.len(),
{
    if before.len() == 0 {
        assert(before.push(entry)[0] == entry);
        assert(before.push(entry).drop_first() =~= Seq::<(String, i64)>::empty());
        assert(spec_lookup(before.push(entry).drop_first(), other) is None);
        assert(spec_lookup(before.push(entry), other) is None);
        assert(spec_lookup(before, other) is None);
    } else {
        assert(before.push(entry)[0] == before[0]);
        assert(before.push(entry).drop_first() =~= before.drop_first().push(entry));
        lemma_lookup_push_other(before.drop_first(), entry, other);
        if before[0].0@ == other {
            assert(spec_lookup(before.push(entry), other) == Some(before[0].1));
            assert(spec_lookup(before, other) == Some(before[0].1));
        } else {
            assert(spec_lookup(before.push(entry), other) == spec_lookup(
                before.drop_first().push(entry),
                other,
            ));
            assert(spec_lookup(before, other) == spec_lookup(before.drop_first(), other));
        }
    }
}

/// The rational-method flow that the drainage areas up to `upto`
/// contribute at the given outlet: the sum of `C * i * A` over the
/// areas that drain there and carry a runoff coefficient.
pub open spec fn spec_rational_sum(
    areas: Seq<DrainageArea>,
    intensity: int,
    outlet: Seq<char>,
    upto: int,
) -> int
    decreases upto,
{
    if upto <= 0 {
        0
    } else {
        spec_rational_sum(areas, intensity, outlet, upto - 1) + {
            let a = areas[upto - 1];
            if a.outlet@ == outlet && a.runoff_coefficient is Some {
                spec_rational_runoff(a.runoff_coefficient->0 as int, intensity, a.area as int)
            } else {
                0
            }
        }
    }
}

/// Whether any of the drainage areas up to `upto` contributes at the
/// given outlet.
pub open spec fn spec_contributes(areas: Seq<DrainageArea>, outlet: Seq<char>, upto: int) -> bool
    decreases upto,
{
    if upto <= 0 {
        false
    } else {
        spec_contributes(areas, outlet, upto - 1) || (areas[upto - 1].outlet@ == outlet
            && areas[upto - 1].runoff_coefficient is Some)
    }
}

/// Compute the rational-method peak inflow at each outlet node:
/// `Q = C * i * A` summed over the drainage areas that share an outlet.
/// Areas without a runoff coefficient contribute nothing.
pub fn compute_rational_flows(drainage_areas: &Vec<DrainageArea>, intensity: i64) -> (r: FlowMap)
    requires
        0 <= intensity <= 1000000000,
        drainage_areas@.len() <= 1000,
        forall|i: int| 0 <= i < drainage_areas@.len() ==> {
            &&& 0 <= (#[trigger] drainage_areas@[i]).area <= 1000000000
            &&& (drainage_areas@[i].runoff_coefficient is Some
                ==> 0 <= drainage_areas@[i].runoff_coefficient->0 <= 1000)
        },
    ensures
        r.wf(),
        forall|outlet: Seq<char>|
            #![trigger spec_lookup(r.entries@, outlet)]
            spec_lookup(r.entries@, outlet) == (if spec_contributes(
                drainage_areas@,
                outlet,
                drainage_areas@.len() as int,
            ) {
                Some(
                    spec_rational_sum(
                        drainage_areas@,
                        intensity as int,
                        outlet,
                        drainage_areas@.len() as int,
                    ) as i64,
                )
            } else {
                None::<i64>
            }),
{
    let mut flows = FlowMap::new();
    let n = drainage_areas.len();
    proof {
        assert forall|outlet: Seq<char>|
            #![trigger spec_lookup(flows.entries@, outlet)]
            spec_lookup(flows.entries@, outlet) == (if spec_contributes(drainage_areas@, outlet, 0) {
                Some(spec_rational_sum(drainage_areas@, intensity as int, outlet, 0) as i64)
            } else {
                None::<i64>
            }) by {
            assert(spec_lookup(flows.entries@, outlet) is None);
            assert(!spec_contributes(drainage_areas@, outlet, 0));
        }
    }
    for i in 0..n
        invariant
            n == drainage_areas@.len(),
            n <= 1000,
            0 <= intensity <= 1000000000,
            forall|j: int| 0 <= j < n ==> {
                &&& 0 <= (#[trigger] drainage_areas@[j]).area <= 1000000000
                &&& (drainage_areas@[j].runoff_coefficient is Some
                    ==> 0 <= drainage_areas@[j].runoff_coefficient->0 <= 1000)
            },
            flows.wf(),
            forall|outlet: Seq<char>|
                #![trigger spec_lookup(flows.entries@, outlet)]
                spec_lookup(flows.entries@, outlet) == (if spec_contributes(
                    drainage_areas@,
                    outlet,
                    i as int,
                ) {
                    Some(
                        spec_rational_sum(drainage_areas@, intensity as int, outlet, i as int) as i64,
                    )
                } else {
                    None::<i64>
                }),
    {
        let ghost fold_entries = flows.entries@;
        let area = &drainage_areas[i];
        let runoff = area.rational_method_runoff(intensity);
        proof {
            if area.runoff_coefficient is Some {
                assert(0 <= area.runoff_coefficient->0 as int * intensity as int
                    * area.area as int <= 1000000000000000000000) by (nonlinear_arith)
                    requires
                        0 <= area.runoff_coefficient->0 <= 1000,
                        0 <= intensity <= 1000000000,
                        0 <= area.area <= 1000000000,
                ;
                crate::fixed::lemma_div_trunc_ordered(
                    area.runoff_coefficient->0 as int * intensity as int * area.area as int,
                    1000000000000000000000,
                    1000000,
                );
                assert(div_trunc(1000000000000000000000, 1000000) == 1000000000000000);
            }
        }
        match runoff {
            Some(flow) => {
                let ghost q = spec_rational_runoff(
                    area.runoff_coefficient->0 as int,
                    intensity as int,
                    area.area as int,
                );
                proof {
                    assert(0 <= q <= 1000000000000000);
                    assert(flow == q);
                }
                let prior = flows.get(area.outlet.as_str());
                proof {
                    assert(prior == spec_lookup(fold_entries, area.outlet@));
                    lemma_rational_sum_bound(
                        drainage_areas@,
                        intensity as int,
                        area.outlet@,
                        i as int,
                    );
                }
                let total: i64 = match prior {
                    Some(t) => t + flow,
                    None => flow,
                };
                flows.set(area.outlet.as_str(), total);
                proof {
                    assert forall|outlet: Seq<char>|
                        #![trigger spec_lookup(flows.entries@, outlet)]
                        spec_lookup(flows.entries@, outlet) == (if spec_contributes(
                            drainage_areas@,
                            outlet,
                            i + 1,
                        ) {
                            Some(
                                spec_rational_sum(
                                    drainage_areas@,
                                    intensity as int,
                                    outlet,
                                    i + 1,
                                ) as i64,
                            )
                        } else {
                            None::<i64>
                        }) by {
                        if outlet == area.outlet@ {
                            lemma_rational_sum_bound(
                                drainage_areas@,
                                intensity as int,
                                outlet,
                                i as int,
                            );
                            assert(spec_lookup(flows.entries@, outlet) == Some(total));
                            assert(spec_contributes(drainage_areas@, outlet, i + 1));
                            assert(spec_rational_sum(drainage_areas@, intensity as int, outlet, i + 1)
                                == spec_rational_sum(
                                drainage_areas@,
                                intensity as int,
                                outlet,
                                i as int,
                            ) + q);
                            if !spec_contributes(drainage_areas@, outlet, i as int) {
                                lemma_rational_sum_absent(
                                    drainage_areas@,
                                    intensity as int,
                                    outlet,
                                    i as int,
                                );
                            }
                        } else {
                            assert(spec_lookup(flows.entries@, outlet) == spec_lookup(
                                fold_entries,
                                outlet,
                            ));
                            assert(spec_rational_sum(drainage_areas@, intensity as int, outlet, i + 1)
                                == spec_rational_sum(
                                drainage_areas@,
                                intensity as int,
                                outlet,
                                i as int,
                            ));
                            assert(spec_contributes(drainage_areas@, outlet, i + 1)
                                == spec_contributes(drainage_areas@, outlet, i as int));
                        }
                    }
                }
            },
            None => {
                proof {
                    assert forall|outlet: Seq<char>|
                        #![trigger spec_lookup(flows.entries@, outlet)]
                        spec_lookup(flows.entries@, outlet) == (if spec_contributes(
                            drainage_areas@,
                            outlet,
                            i + 1,
                        ) {
                            Some(
                                spec_rational_sum(
                                    drainage_areas@,
                                    intensity as int,
                                    outlet,
                                    i + 1,
                                ) as i64,
                            )
                        } else {
                            None::<i64>
                        }) by {
                        assert(spec_rational_sum(drainage_areas@, intensity as int, outlet, i + 1)
                            == spec_rational_sum(drainage_areas@, intensity as int, outlet, i as int));
                        assert(spec_contributes(drainage_areas@, outlet, i + 1) == spec_contributes(
                            drainage_areas@,
                            outlet,
                            i as int,
                        ));
                    }
                }
            },
        }
    }
    flows
}

/// The rational-method sum over a prefix of the drainage areas is
/// nonnegative and bounded by the prefix length times the largest
/// single contribution.
proof fn lemma_rational_sum_bound(
    areas: Seq<DrainageArea>,
    intensity: int,
    outlet: Seq<char>,
    upto: int,
)
    requires
        0 <= intensity <= 1000000000,
        0 <= upto <= areas.len(),
        forall|i: int| 0 <= i < areas.len() ==> {
            &&& 0 <= (#[trigger] areas[i]).area <= 1000000000
            &&& (areas[i].runoff_coefficient is Some ==> 0 <= areas[i].runoff_coefficient->0
                <= 1000)
        },
    ensures
        0 <= spec_rational_sum(areas, intensity, outlet, upto) <= upto * 1000000000000000,
    decreases upto,
{
    if upto > 0 {
        lemma_rational_sum_bound(areas, intensity, outlet, upto - 1);
        let a = areas[upto - 1];
        if a.outlet@ == outlet && a.runoff_coefficient is Some {
            assert(0 <= a.runoff_coefficient->0 as int * intensity * a.area as int
                <= 1000000000000000000000) by (nonlinear_arith)
                requires
                    0 <= a.runoff_coefficient->0 <= 1000,
                    0 <= intensity <= 1000000000,
                    0 <= a.area <= 1000000000,
            ;
            crate::fixed::lemma_div_trunc_ordered(
                a.runoff_coefficient->0 as int * intensity * a.area as int,
                1000000000000000000000,
                1000000,
            );
            assert(div_trunc(1000000000000000000000, 1000000) == 1000000000000000);
        }
    }
}

/// Where nothing contributes, the rational-method sum is zero.
proof fn lemma_rational_sum_absent(
    areas: Seq<DrainageArea>,
    intensity: int,
    outlet: Seq<char>,
    upto: int,
)
    requires
        !spec_contributes(areas, outlet, upto),
    ensures
        spec_rational_sum(areas, intensity, outlet, upto) == 0,
    decreases upto,
{
    if upto > 0 {
        lemma_rational_sum_absent(areas, intensity, outlet, upto - 1);
    }
}

/// Whether all node identifiers are pairwise distinct.
pub open spec fn spec_unique_node_ids(nodes: Seq<Node>) -> bool {
    forall|i: int, j: int|
        0 <= i < j < nodes.len() ==> (#[trigger] nodes[i]).id@ != (#[trigger] nodes[j]).id@
}

/// Whether all conduit identifiers are pairwise distinct.
pub open spec fn spec_unique_conduit_ids(conduits: Seq<Conduit>) -> bool {
    forall|i: int, j: int|
        0 <= i < j < conduits.len() ==> (#[trigger] conduits[i]).id@ != (
        #[trigger] conduits[j]).id@
}

/// The number of conduits among the first `upto` that leave the node
/// with the given identifier.
pub open spec fn spec_outdeg(conduits: Seq<Conduit>, id: Seq<char>, upto: int) -> int
    decreases upto,
{
    if upto <= 0 {
        0
    } else {
        spec_outdeg(conduits, id, upto - 1) + if conduits[upto - 1].from_node@ == id {
            1int
        } else {
            0int
        }
    }
}

/// The flow that the first `upto` conduits deliver into the node with
/// the given identifier, reading each conduit's flow from the entry at
/// its own position.
pub open spec fn spec_flow_into(
    conduits: Seq<Conduit>,
    entries: Seq<(String, i64)>,
    id: Seq<char>,
    upto: int,
) -> int
    decreases upto,
{
    if upto <= 0 {
        0
    } else {
        spec_flow_into(conduits, entries, id, upto - 1) + if conduits[upto - 1].to_node@ == id {
            entries[upto - 1].1 as int
        } else {
            0int
        }
    }
}

/// The direct inflow bound to a node identifier, or zero.
pub open spec fn spec_inflow(entries: Seq<(String, i64)>, id: Seq<char>) -> int {
    match spec_lookup(entries, id) {
        Some(q) => q as int,
        None => 0,
    }
}

/// Whether conduit `k` certifies that unmarked node `v` is blocked:
/// the conduit ends at `v` and every node carrying its source
/// identifier is unmarked.
#[verifier::opaque]
pub open spec fn spec_blocking_conduit(
    nodes: Seq<Node>,
    conduits: Seq<Conduit>,
    mark: Seq<bool>,
    v: int,
    k: int,
) -> bool {
    &&& 0 <= k < conduits.len()
    &&& conduits[k].to_node@ == nodes[v].id@
    &&& exists|w: int| 0 <= w < nodes.len() && nodes[w].id@ == conduits[k].from_node@
    &&& forall|w: int|
        0 <= w < nodes.len() && (#[trigger] nodes[w]).id@ == conduits[k].from_node@ ==> !mark[w]
}

/// A cycle certificate over the network graph: some node is unmarked,
/// and every unmarked node receives a conduit from unmarked nodes
/// only, so the unmarked nodes contain a cycle.
pub open spec fn spec_cycle_witness(
    nodes: Seq<Node>,
    conduits: Seq<Conduit>,
    mark: Seq<bool>,
) -> bool {
    &&& mark.len() == nodes.len()
    &&& exists|v: int| 0 <= v < nodes.len() && !mark[v]
    &&& forall|v: int|
        0 <= v < nodes.len() && !(#[trigger] mark[v]) ==> exists|k: int|
            spec_blocking_conduit(nodes, conduits, mark, v, k)
}

/// Whether conduit `k` certifies that unmarked node `v` is blocked in
/// the downstream-first sweep: the conduit leaves `v` and every node
/// carrying its downstream identifier is unmarked.
#[verifier::opaque]
pub open spec fn spec_feeding_conduit(
    nodes: Seq<Node>,
    conduits: Seq<Conduit>,
    mark: Seq<bool>,
    v: int,
    k: int,
) -> bool {
    &&& 0 <= k < conduits.len()
    &&& conduits[k].from_node@ == nodes[v].id@
    &&& exists|w: int| 0 <= w < nodes.len() && nodes[w].id@ == conduits[k].to_node@
    &&& forall|w: int|
        0 <= w < nodes.len() && (#[trigger] nodes[w]).id@ == conduits[k].to_node@ ==> !mark[w]
}

/// A cycle certificate over the reversed network graph: some node is
/// unmarked, and every unmarked node sends a conduit to unmarked nodes
/// only, so the unmarked nodes contain a cycle.
pub open spec fn spec_cycle_witness_downstream(
    nodes: Seq<Node>,
    conduits: Seq<Conduit>,
    mark: Seq<bool>,
) -> bool {
    &&& mark.len() == nodes.len()
    &&& exists|v: int| 0 <= v < nodes.len() && !mark[v]
    &&& forall|v: int|
        0 <= v < nodes.len() && !(#[trigger] mark[v]) ==> exists|k: int|
            spec_feeding_conduit(nodes, conduits, mark, v, k)
}

/// A bound lookup takes its value from one of the entries.
proof fn lemma_lookup_bounds(entries: Seq<(String, i64)>, key: Seq<char>, lo: i64, hi: i64)
    requires
        forall|j: int| 0 <= j < entries.len() ==> lo <= (#[trigger] entries[j]).1 <= hi,
        spec_lookup(entries, key) is Some,
    ensures
        lo <= spec_lookup(entries, key)->0 <= hi,
    decreases entries.len(),
{
    if entries.len() > 0 && entries[0].0@ != key {
        assert(forall|j: int|
            0 <= j < entries.drop_first().len() ==> lo <= (
            #[trigger] entries.drop_first()[j]).1 <= hi);
        lemma_lookup_bounds(entries.drop_first(), key, lo, hi);
    }
}

/// The index of the first node carrying the given identifier.
fn index_of_node(nodes: &Vec<Node>, id: &str) -> (r: Option<usize>)
    ensures
        match r {
            Some(i) => i < nodes@.len() && nodes@[i as int].id@ == id@,
            None => !crate::network::spec_has_node(nodes@, id@),
        },
{
    let n = nodes.len();
    for i in 0..n
        invariant
            n == nodes@.len(),
            forall|j: int| 0 <= j < i ==> (#[trigger] nodes@[j]).id@ != id@,
    {
        if str_eq(nodes[i].id.as_str(), id) {
            return Some(i);
        }
    }
    None
}

/// Find a pair of equal node identifiers, if any.
fn find_duplicate_node_id(nodes: &Vec<Node>) -> (r: Option<usize>)
    ensures
        match r {
            Some(i) => i < nodes@.len() && !spec_unique_node_ids(nodes@),
            None => spec_unique_node_ids(nodes@),
        },
{
    let n = nodes.len();
    for i in 0..n
        invariant
            n == nodes@.len(),
            forall|a: int, b: int|
                0 <= a < b < n && a < i ==> (#[trigger] nodes@[a]).id@ != (
                #[trigger] nodes@[b]).id@,
    {
        for j in (i + 1)..n
            invariant
                n == nodes@.len(),
                i < n,
                forall|a: int, b: int|
                    0 <= a < b < n && a < i ==> (#[trigger] nodes@[a]).id@ != (
                    #[trigger] nodes@[b]).id@,
                forall|b: int| i < b < j ==> (#[trigger] nodes@[b]).id@ != nodes@[i as int].id@,
        {
            if str_eq(nodes[i].id.as_str(), nodes[j].id.as_str()) {
                return Some(i);
            }
        }
    }
    None
}

/// Find a pair of equal conduit identifiers, if any.
fn find_duplicate_conduit_id(conduits: &Vec<Conduit>) -> (r: Option<usize>)
    ensures
        match r {
            Some(i) => i < conduits@.len() && !spec_unique_conduit_ids(conduits@),
            None => spec_unique_conduit_ids(conduits@),
        },
{
    let n = conduits.len();
    for i in 0..n
        invariant
            n == conduits@.len(),
            forall|a: int, b: int|
                0 <= a < b < n && a < i ==> (#[trigger] conduits@[a]).id@ != (
                #[trigger] conduits@[b]).id@,
    {
        for j in (i + 1)..n
            invariant
                n == conduits@.len(),
                i < n,
                forall|a: int, b: int|
                    0 <= a < b < n && a < i ==> (#[trigger] conduits@[a]).id@ != (
                    #[trigger] conduits@[b]).id@,
                forall|b: int|
                    i < b < j ==> (#[trigger] conduits@[b]).id@ != conduits@[i as int].id@,
        {
            if str_eq(conduits[i].id.as_str(), conduits[j].id.as_str()) {
                return Some(i);
            }
        }
    }
    None
}

/// The number of edges in `[lo, hi)` that leave node `u`.
pub open spec fn cnt_src(edges: Seq<(usize, usize)>, u: int, lo: int, hi: int) -> int
    decreases hi - lo,
{
    if lo >= hi {
        0
    } else {
        cnt_src(edges, u, lo, hi - 1) + if edges[hi - 1].0 == u {
            1int
        } else {
            0int
        }
    }
}

/// The count over `[lo, hi)` splits off its first edge.
proof fn lemma_cnt_src_peel_lo(edges: Seq<(usize, usize)>, u: int, lo: int, hi: int)
    requires
        lo < hi,
    ensures
        cnt_src(edges, u, lo, hi) == cnt_src(edges, u, lo + 1, hi) + if edges[lo].0 == u {
            1int
        } else {
            0int
        },
    decreases hi - lo,
{
    if lo + 1 < hi {
        lemma_cnt_src_peel_lo(edges, u, lo, hi - 1);
    } else {
        assert(cnt_src(edges, u, lo, hi - 1) == 0);
        assert(cnt_src(edges, u, lo + 1, hi) == 0);
    }
}

/// The count is bounded by the width of the range, and a zero count
/// excludes every edge in it.
proof fn lemma_cnt_src_bounds(edges: Seq<(usize, usize)>, u: int, lo: int, hi: int)
    requires
        lo <= hi,
    ensures
        0 <= cnt_src(edges, u, lo, hi) <= hi - lo,
        cnt_src(edges, u, lo, hi) == 0 ==> forall|k: int| lo <= k < hi ==> (#[trigger] edges[k]).0
            != u,
    decreases hi - lo,
{
    if lo < hi {
        lemma_cnt_src_bounds(edges, u, lo, hi - 1);
    }
}

/// With distinct node identifiers, the index-based out-degree agrees
/// with the identifier-based one.
proof fn lemma_outdeg_agrees(
    nodes: Seq<Node>,
    conduits: Seq<Conduit>,
    edges: Seq<(usize, usize)>,
    u: int,
    upto: int,
)
    requires
        spec_unique_node_ids(nodes),
        0 <= u < nodes.len(),
        edges.len() == conduits.len(),
        0 <= upto <= edges.len(),
        forall|k: int| 0 <= k < edges.len() ==> {
            &&& (#[trigger] edges[k]).0 < nodes.len()
            &&& edges[k].1 < nodes.len()
            &&& nodes[edges[k].0 as int].id@ == conduits[k].from_node@
            &&& nodes[edges[k].1 as int].id@ == conduits[k].to_node@
        },
    ensures
        cnt_src(edges, u, 0, upto) == spec_outdeg(conduits, nodes[u].id@, upto),
    decreases upto,
{
    if upto > 0 {
        lemma_outdeg_agrees(nodes, conduits, edges, u, upto - 1);
        if conduits[upto - 1].from_node@ == nodes[u].id@ && edges[upto - 1].0 != u {
            assert(nodes[edges[upto - 1].0 as int].id@ == nodes[u].id@);
            assert(false);
        }
    }
}

/// The flow delivered into node `v` by the edges in `[lo, hi)` whose
/// conduit is already routed.
pub open spec fn sum_into_idx(
    edges: Seq<(usize, usize)>,
    cdone: Seq<bool>,
    cflow: Seq<i64>,
    v: int,
    lo: int,
    hi: int,
) -> int
    decreases hi - lo,
{
    if lo >= hi {
        0
    } else {
        sum_into_idx(edges, cdone, cflow, v, lo, hi - 1) + if edges[hi - 1].1 == v && cdone[hi
            - 1] {
            cflow[hi - 1] as int
        } else {
            0int
        }
    }
}

/// The sum over `[lo, hi)` splits off its first edge.
proof fn lemma_sum_into_peel_lo(
    edges: Seq<(usize, usize)>,
    cdone: Seq<bool>,
    cflow: Seq<i64>,
    v: int,
    lo: int,
    hi: int,
)
    requires
        lo < hi,
    ensures
        sum_into_idx(edges, cdone, cflow, v, lo, hi) == sum_into_idx(
            edges,
            cdone,
            cflow,
            v,
            lo + 1,
            hi,
        ) + if edges[lo].1 == v && cdone[lo] {
            cflow[lo] as int
        } else {
            0int
        },
    decreases hi - lo,
{
    if lo + 1 < hi {
        lemma_sum_into_peel_lo(edges, cdone, cflow, v, lo, hi - 1);
    } else {
        assert(sum_into_idx(edges, cdone, cflow, v, lo, hi - 1) == 0);
        assert(sum_into_idx(edges, cdone, cflow, v, lo + 1, hi) == 0);
    }
}

/// With no conduit routed, nothing is delivered.
proof fn lemma_sum_into_zero(
    edges: Seq<(usize, usize)>,
    cdone: Seq<bool>,
    cflow: Seq<i64>,
    v: int,
    lo: int,
    hi: int,
)
    requires
        lo <= hi,
        forall|k: int| lo <= k < hi ==> !(#[trigger] cdone[k]),
    ensures
        sum_into_idx(edges, cdone, cflow, v, lo, hi) == 0,
    decreases hi - lo,
{
    if lo < hi {
        lemma_sum_into_zero(edges, cdone, cflow, v, lo, hi - 1);
    }
}

/// Two routing states that agree on every edge into `v` give the same
/// delivered sum.
proof fn lemma_sum_into_same(
    edges: Seq<(usize, usize)>,
    d1: Seq<bool>,
    f1: Seq<i64>,
    d2: Seq<bool>,
    f2: Seq<i64>,
    v: int,
    lo: int,
    hi: int,
)
    requires
        lo <= hi,
        forall|k: int|
            lo <= k < hi && (#[trigger] edges[k]).1 == v ==> d1[k] == d2[k] && f1[k] == f2[k],
    ensures
        sum_into_idx(edges, d1, f1, v, lo, hi) == sum_into_idx(edges, d2, f2, v, lo, hi),
    decreases hi - lo,
{
    if lo < hi {
        lemma_sum_into_same(edges, d1, f1, d2, f2, v, lo, hi - 1);
    }
}

/// With distinct node identifiers and every conduit routed, the
/// index-based delivered sum agrees with the identifier-based one.
proof fn lemma_sum_into_agrees(
    nodes: Seq<Node>,
    conduits: Seq<Conduit>,
    edges: Seq<(usize, usize)>,
    cdone: Seq<bool>,
    cflow: Seq<i64>,
    entries: Seq<(String, i64)>,
    v: int,
    upto: int,
)
    requires
        spec_unique_node_ids(nodes),
        0 <= v < nodes.len(),
        edges.len() == conduits.len(),
        cdone.len() == conduits.len(),
        cflow.len() == conduits.len(),
        entries.len() == conduits.len(),
        0 <= upto <= edges.len(),
        forall|k: int| 0 <= k < conduits.len() ==> (#[trigger] cdone[k]),
        forall|k: int| 0 <= k < conduits.len() ==> (#[trigger] entries[k]).1 == cflow[k],
        forall|k: int| 0 <= k < edges.len() ==> {
            &&& (#[trigger] edges[k]).0 < nodes.len()
            &&& edges[k].1 < nodes.len()
            &&& nodes[edges[k].0 as int].id@ == conduits[k].from_node@
            &&& nodes[edges[k].1 as int].id@ == conduits[k].to_node@
        },
    ensures
        sum_into_idx(edges, cdone, cflow, v, 0, upto) == spec_flow_into(
            conduits,
            entries,
            nodes[v].id@,
            upto,
        ),
    decreases upto,
{
    if upto > 0 {
        lemma_sum_into_agrees(nodes, conduits, edges, cdone, cflow, entries, v, upto - 1);
        if conduits[upto - 1].to_node@ == nodes[v].id@ && edges[upto - 1].1 != v {
            assert(nodes[edges[upto - 1].1 as int].id@ == nodes[v].id@);
            assert(false);
        }
    }
}

/// The bypass that the first `upto` edges deliver into node `v`: each
/// edge whose source is finished carries its source's whole bypass.
pub open spec fn sum_src_into(
    edges: Seq<(usize, usize)>,
    cdone: Seq<bool>,
    bout: Seq<i64>,
    v: int,
    lo: int,
    hi: int,
) -> int
    decreases hi - lo,
{
    if lo >= hi {
        0
    } else {
        sum_src_into(edges, cdone, bout, v, lo, hi - 1) + if edges[hi - 1].1 == v && cdone[hi
            - 1] {
            bout[edges[hi - 1].0 as int] as int
        } else {
            0int
        }
    }
}

/// The sum over `[lo, hi)` splits off its first edge.
proof fn lemma_sum_src_peel_lo(
    edges: Seq<(usize, usize)>,
    cdone: Seq<bool>,
    bout: Seq<i64>,
    v: int,
    lo: int,
    hi: int,
)
    requires
        lo < hi,
    ensures
        sum_src_into(edges, cdone, bout, v, lo, hi) == sum_src_into(
            edges,
            cdone,
            bout,
            v,
            lo + 1,
            hi,
        ) + if edges[lo].1 == v && cdone[lo] {
            bout[edges[lo].0 as int] as int
        } else {
            0int
        },
    decreases hi - lo,
{
    if lo + 1 < hi {
        lemma_sum_src_peel_lo(edges, cdone, bout, v, lo, hi - 1);
    } else {
        assert(sum_src_into(edges, cdone, bout, v, lo, hi - 1) == 0);
        assert(sum_src_into(edges, cdone, bout, v, lo + 1, hi) == 0);
    }
}

/// Two states that agree on every routed edge into `v` give the same
/// delivered bypass.
proof fn lemma_sum_src_same(
    edges: Seq<(usize, usize)>,
    d1: Seq<bool>,
    b1: Seq<i64>,
    d2: Seq<bool>,
    b2: Seq<i64>,
    v: int,
    lo: int,
    hi: int,
)
    requires
        lo <= hi,
        forall|k: int|
            lo <= k < hi && (#[trigger] edges[k]).1 == v ==> d1[k] == d2[k] && (d1[k] ==> b1[
                edges[k].0 as int
            ] == b2[edges[k].0 as int]),
    ensures
        sum_src_into(edges, d1, b1, v, lo, hi) == sum_src_into(edges, d2, b2, v, lo, hi),
    decreases hi - lo,
{
    if lo < hi {
        lemma_sum_src_same(edges, d1, b1, d2, b2, v, lo, hi - 1);
    }
}

/// With no edge routed, no bypass is delivered.
proof fn lemma_sum_src_zero(
    edges: Seq<(usize, usize)>,
    cdone: Seq<bool>,
    bout: Seq<i64>,
    v: int,
    lo: int,
    hi: int,
)
    requires
        lo <= hi,
        forall|k: int| lo <= k < hi ==> !(#[trigger] cdone[k]),
    ensures
        sum_src_into(edges, cdone, bout, v, lo, hi) == 0,
    decreases hi - lo,
{
    if lo < hi {
        lemma_sum_src_zero(edges, cdone, bout, v, lo, hi - 1);
    }
}

/// The bypass that the first `upto` conduits deliver into the node
/// with the given identifier, reading each source node's bypass from
/// the node-aligned entries.
pub open spec fn spec_bypass_into(
    conduits: Seq<Conduit>,
    bentries: Seq<(String, i64)>,
    id: Seq<char>,
    upto: int,
) -> int
    decreases upto,
{
    if upto <= 0 {
        0
    } else {
        spec_bypass_into(conduits, bentries, id, upto - 1) + if conduits[upto - 1].to_node@
            == id {
            match spec_lookup(bentries, conduits[upto - 1].from_node@) {
                Some(b) => b as int,
                None => 0,
            }
        } else {
            0int
        }
    }
}

/// On node-aligned entries with distinct node identifiers, the lookup
/// of a node's identifier reads that node's entry.
proof fn lemma_lookup_aligned(nodes: Seq<Node>, entries: Seq<(String, i64)>, v: int)
    requires
        spec_unique_node_ids(nodes),
        entries.len() == nodes.len(),
        forall|j: int| 0 <= j < entries.len() ==> (#[trigger] entries[j]).0@ == nodes[j].id@,
        0 <= v < nodes.len(),
    ensures
        spec_lookup(entries, nodes[v].id@) == Some(entries[v].1),
{
    assert forall|j: int| 0 <= j < v implies (#[trigger] entries[j]).0@ != nodes[v].id@ by {
        assert(entries[j].0@ == nodes[j].id@);
    }
    lemma_lookup_at(entries, nodes[v].id@, v);
}

/// With every conduit routed and node-aligned bypass entries, the
/// index-based delivered bypass agrees with the identifier-based one.
proof fn lemma_sum_src_agrees(
    nodes: Seq<Node>,
    conduits: Seq<Conduit>,
    edges: Seq<(usize, usize)>,
    cdone: Seq<bool>,
    bout: Seq<i64>,
    bentries: Seq<(String, i64)>,
    v: int,
    upto: int,
)
    requires
        spec_unique_node_ids(nodes),
        0 <= v < nodes.len(),
        edges.len() == conduits.len(),
        cdone.len() == conduits.len(),
        bout.len() == nodes.len(),
        bentries.len() == nodes.len(),
        0 <= upto <= edges.len(),
        forall|k: int| 0 <= k < conduits.len() ==> (#[trigger] cdone[k]),
        forall|j: int| 0 <= j < bentries.len() ==> (#[trigger] bentries[j]).0@ == nodes[j].id@,
        forall|j: int| 0 <= j < bentries.len() ==> (#[trigger] bentries[j]).1 == bout[j],
        forall|k: int| 0 <= k < edges.len() ==> {
            &&& (#[trigger] edges[k]).0 < nodes.len()
            &&& edges[k].1 < nodes.len()
            &&& nodes[edges[k].0 as int].id@ == conduits[k].from_node@
            &&& nodes[edges[k].1 as int].id@ == conduits[k].to_node@
        },
    ensures
        sum_src_into(edges, cdone, bout, v, 0, upto) == spec_bypass_into(
            conduits,
            bentries,
            nodes[v].id@,
            upto,
        ),
    decreases upto,
{
    if upto > 0 {
        lemma_sum_src_agrees(nodes, conduits, edges, cdone, bout, bentries, v, upto - 1);
        let k = upto - 1;
        if conduits[k].to_node@ == nodes[v].id@ {
            if edges[k].1 != v {
                assert(nodes[edges[k].1 as int].id@ == nodes[v].id@);
                assert(false);
            }
            lemma_lookup_aligned(nodes, bentries, edges[k].0 as int);
        } else {
            if edges[k].1 == v {
                assert(nodes[edges[k].1 as int].id@ == nodes[v].id@);
                assert(false);
            }
        }
    }
}

/// The supplied net interception efficiency of a node, in thousandths;
/// a node without an entry captures everything.
pub open spec fn spec_eff(entries: Seq<(String, i64)>, id: Seq<char>) -> int {
    match spec_lookup(entries, id) {
        Some(e) => e as int,
        None => 1000,
    }
}

/// Whether interception applies at a node: it carries inlet properties
/// and sits on a continuous grade, so part of the approach flow can
/// bypass it on the surface.
pub open spec fn spec_is_on_grade_inlet(node: Node) -> bool {
    node.inlet is Some && node.inlet->0.location == InletLocation::OnGrade
}

/// Resolve each conduit's endpoints to node indices.
fn build_edges(network: &Network) -> (r: Result<Vec<(usize, usize)>, NetworkError>)
    ensures
        match r {
            Ok(edges) => {
                &&& edges@.len() == network.conduits@.len()
                &&& forall|k: int| 0 <= k < edges@.len() ==> {
                    &&& (#[trigger] edges@[k]).0 < network.nodes@.len()
                    &&& edges@[k].1 < network.nodes@.len()
                    &&& network.nodes@[edges@[k].0 as int].id@ == network.conduits@[k].from_node@
                    &&& network.nodes@[edges@[k].1 as int].id@ == network.conduits@[k].to_node@
                }
            },
            Err(e) => e is DanglingEndpoint && !crate::network::spec_connected(
                network.nodes@,
                network.conduits@,
            ),
        },
{
    let m = network.conduits.len();
    let mut edges: Vec<(usize, usize)> = Vec::new();
    for k in 0..m
        invariant
            m == network.conduits@.len(),
            edges@.len() == k,
            forall|k2: int| 0 <= k2 < k ==> {
                &&& (#[trigger] edges@[k2]).0 < network.nodes@.len()
                &&& edges@[k2].1 < network.nodes@.len()
                &&& network.nodes@[edges@[k2].0 as int].id@ == network.conduits@[k2].from_node@
                &&& network.nodes@[edges@[k2].1 as int].id@ == network.conduits@[k2].to_node@
            },
    {
        let from = match index_of_node(&network.nodes, network.conduits[k].from_node.as_str()) {
            Some(i) => i,
            None => {
                return Err(
                    NetworkError::DanglingEndpoint(
                        network.conduits[k].id.clone(),
                        Endpoint::Upstream,
                    ),
                );
            },
        };
        let to = match index_of_node(&network.nodes, network.conduits[k].to_node.as_str()) {
            Some(i) => i,
            None => {
                return Err(
                    NetworkError::DanglingEndpoint(
                        network.conduits[k].id.clone(),
                        Endpoint::Downstream,
                    ),
                );
            },
        };
        edges.push((from, to));
    }
    Ok(edges)
}

/// Counts over adjacent ranges add up.
proof fn lemma_cnt_src_split(edges: Seq<(usize, usize)>, u: int, lo: int, mid: int, hi: int)
    requires
        lo <= mid <= hi,
    ensures
        cnt_src(edges, u, lo, hi) == cnt_src(edges, u, lo, mid) + cnt_src(edges, u, mid, hi),
    decreases hi - mid,
{
    if mid < hi {
        lemma_cnt_src_split(edges, u, lo, mid + 1, hi);
        lemma_cnt_src_peel_lo(edges, u, mid, hi);
        lemma_cnt_src_peel_lo(edges, u, mid, mid + 1);
    }
}

/// The unfinished totals, as a ghost summand sequence.
pub open spec fn unproc_totals(ndone: Seq<bool>, totals: Seq<i64>, n: int) -> Seq<int> {
    Seq::new(n as nat, |v: int| if ndone[v] { 0int } else { totals[v] as int })
}

/// Route the node inflows through the conduits, following a
/// topological order of the nodes: each node passes its accumulated
/// flow on, split evenly over its outgoing conduits.
#[verifier::rlimit(100)]
fn route_on_order(
    network: &Network,
    edges: &Vec<(usize, usize)>,
    order: &Vec<usize>,
    node_inflows: &FlowMap,
) -> (r: FlowMap)
    requires
        edges@.len() == network.conduits@.len(),
        network.nodes@.len() <= 100000,
        network.conduits@.len() <= 1000000000,
        forall|k: int| 0 <= k < edges@.len() ==> {
            &&& (#[trigger] edges@[k]).0 < network.nodes@.len()
            &&& edges@[k].1 < network.nodes@.len()
            &&& network.nodes@[edges@[k].0 as int].id@ == network.conduits@[k].from_node@
            &&& network.nodes@[edges@[k].1 as int].id@ == network.conduits@[k].to_node@
        },
        topo_order_ok(network.nodes@.len() as int, edges@, order@),
        spec_unique_node_ids(network.nodes@),
        spec_unique_conduit_ids(network.conduits@),
        node_inflows.wf(),
        forall|j: int|
            0 <= j < node_inflows.entries@.len() ==> 0 <= (
            #[trigger] node_inflows.entries@[j]).1 <= 1000000000000,
    ensures
        r.wf(),
        r.entries@.len() == network.conduits@.len(),
        forall|j: int|
            0 <= j < r.entries@.len() ==> (#[trigger] r.entries@[j]).0@ == network.conduits@[
                j
            ].id@,
        forall|j: int|
            0 <= j < r.entries@.len() ==> (#[trigger] r.entries@[j]).1 as int == div_trunc(
                spec_inflow(node_inflows.entries@, network.conduits@[j].from_node@)
                    + spec_flow_into(
                    network.conduits@,
                    r.entries@,
                    network.conduits@[j].from_node@,
                    network.conduits@.len() as int,
                ),
                spec_outdeg(
                    network.conduits@,
                    network.conduits@[j].from_node@,
                    network.conduits@.len() as int,
                ),
            ),
{
    let n = network.nodes.len();
    let m = network.conduits.len();

    // Direct inflow at each node.
    let mut totals: Vec<i64> = Vec::new();
    for v in 0..n
        invariant
            n == network.nodes@.len(),
            totals@.len() == v,
            node_inflows.wf(),
            forall|j: int|
                0 <= j < node_inflows.entries@.len() ==> 0 <= (
                #[trigger] node_inflows.entries@[j]).1 <= 1000000000000,
            forall|w: int|
                0 <= w < v ==> (#[trigger] totals@[w]) as int == spec_inflow(
                    node_inflows.entries@,
                    network.nodes@[w].id@,
                ),
            forall|w: int| 0 <= w < v ==> 0 <= (#[trigger] totals@[w]) <= 1000000000000,
    {
        match node_inflows.get(network.nodes[v].id.as_str()) {
            Some(q) => {
                proof {
                    lemma_lookup_bounds(
                        node_inflows.entries@,
                        network.nodes@[v as int].id@,
                        0,
                        1000000000000,
                    );
                }
                totals.push(q);
            },
            None => {
                totals.push(0);
            },
        }
    }

    // Out-degree of each node, over the edge list.
    let mut outdeg: Vec<usize> = Vec::new();
    for v in 0..n
        invariant
            outdeg@.len() == v,
            forall|w: int| 0 <= w < v ==> (#[trigger] outdeg@[w]) == 0,
    {
        outdeg.push(0);
    }
    for k in 0..m
        invariant
            n == network.nodes@.len(),
            m == edges@.len(),
            outdeg@.len() == n,
            forall|k2: int| 0 <= k2 < m ==> (#[trigger] edges@[k2]).0 < n && edges@[k2].1 < n,
            forall|w: int| 0 <= w < n ==> (#[trigger] outdeg@[w]) == cnt_src(
                edges@,
                w,
                0,
                k as int,
            ),
    {
        let u = edges[k].0;
        proof {
            lemma_cnt_src_bounds(edges@, u as int, 0, k as int);
        }
        let d = outdeg[u];
        outdeg.set(u, d + 1);
    }

    let mut cflow: Vec<i64> = Vec::new();
    let mut cdone: Vec<bool> = Vec::new();
    for k in 0..m
        invariant
            cflow@.len() == k,
            cdone@.len() == k,
            forall|k2: int| 0 <= k2 < k ==> (#[trigger] cflow@[k2]) == 0,
            forall|k2: int| 0 <= k2 < k ==> !(#[trigger] cdone@[k2]),
    {
        cflow.push(0);
        cdone.push(false);
    }
    let mut ndone: Vec<bool> = Vec::new();
    for v in 0..n
        invariant
            ndone@.len() == v,
            forall|w: int| 0 <= w < v ==> !(#[trigger] ndone@[w]),
    {
        ndone.push(false);
    }

    proof {
        assert forall|v: int|
            0 <= v < n implies unproc_totals(ndone@, totals@, n as int)[v] == totals@[v] as int
            && 0 <= unproc_totals(ndone@, totals@, n as int)[v] <= 1000000000000 by {}
        crate::seqs::lemma_sum_pointwise_bound(
            unproc_totals(ndone@, totals@, n as int),
            1000000000000,
        );
        assert(n * 1000000000000 <= 100000000000000000) by (nonlinear_arith)
            requires
                n <= 100000,
        ;
        assert forall|v: int| 0 <= v < n implies (#[trigger] totals@[v]) as int == spec_inflow(
            node_inflows.entries@,
            network.nodes@[v].id@,
        ) + sum_into_idx(edges@, cdone@, cflow@, v, 0, m as int) by {
            lemma_sum_into_zero(edges@, cdone@, cflow@, v, 0, m as int);
        }
    }

    for p in 0..n
        invariant
            n == network.nodes@.len(),
            m == network.conduits@.len(),
            m == edges@.len(),
            n <= 100000,
            m <= 1000000000,
            totals@.len() == n,
            outdeg@.len() == n,
            cflow@.len() == m,
            cdone@.len() == m,
            ndone@.len() == n,
            node_inflows.wf(),
            spec_unique_node_ids(network.nodes@),
            topo_order_ok(n as int, edges@, order@),
            forall|k: int| 0 <= k < m ==> {
                &&& (#[trigger] edges@[k]).0 < n
                &&& edges@[k].1 < n
                &&& network.nodes@[edges@[k].0 as int].id@ == network.conduits@[k].from_node@
                &&& network.nodes@[edges@[k].1 as int].id@ == network.conduits@[k].to_node@
            },
            forall|w: int| 0 <= w < n ==> (#[trigger] outdeg@[w]) == cnt_src(
                edges@,
                w,
                0,
                m as int,
            ),
            // processed nodes are exactly the order prefix
            forall|q: int| 0 <= q < p ==> ndone@[(#[trigger] order@[q]) as int],
            forall|v: int|
                0 <= v < n && (#[trigger] ndone@[v]) ==> exists|q: int|
                    0 <= q < p && order@[q] == (v as usize),
            // a conduit is routed exactly when its source is finished
            forall|k: int| 0 <= k < m ==> (#[trigger] cdone@[k]) == ndone@[edges@[k].0 as int],
            // routed conduits carry the even split of their source total
            forall|k: int|
                0 <= k < m && (#[trigger] cdone@[k]) ==> cflow@[k] as int == div_trunc(
                    totals@[edges@[k].0 as int] as int,
                    cnt_src(edges@, edges@[k].0 as int, 0, m as int),
                ) && cnt_src(edges@, edges@[k].0 as int, 0, m as int) >= 1,
            // every total is its inflow plus what routed conduits deliver
            forall|v: int|
                0 <= v < n ==> (#[trigger] totals@[v]) as int == spec_inflow(
                    node_inflows.entries@,
                    network.nodes@[v].id@,
                ) + sum_into_idx(edges@, cdone@, cflow@, v, 0, m as int),
            forall|v: int| 0 <= v < n ==> (#[trigger] totals@[v]) >= 0,
            forall|k: int| 0 <= k < m ==> (#[trigger] cflow@[k]) >= 0,
            crate::seqs::sum_seq(unproc_totals(ndone@, totals@, n as int))
                <= 100000000000000000,
    {
        let u = order[p];
        proof {
            assert(u < n);
            if ndone@[u as int] {
                let q0 = choose|q: int| 0 <= q < p && order@[q] == (u as usize);
                assert(order@[q0] == order@[p as int]);
                assert(false);
            }
            // every target of an edge out of u is still unfinished
            assert forall|k: int| 0 <= k < m && (#[trigger] edges@[k]).0 == u implies {
                &&& !ndone@[edges@[k].1 as int]
                &&& edges@[k].1 != u
            } by {
                if edges@[k].1 == u {
                    let pw = choose|pw: int| 0 <= pw < p as int && order@[pw] == edges@[k].0;
                    assert(order@[pw] == u);
                    assert(false);
                }
                if ndone@[edges@[k].1 as int] {
                    let q1 = choose|q: int|
                        0 <= q < p && order@[q] == (edges@[k].1 as usize);
                    let pw = choose|pw: int| 0 <= pw < q1 && order@[pw] == edges@[k].0;
                    assert(order@[pw] == u);
                    assert(ndone@[u as int]);
                    assert(false);
                }
            }
        }
        let ghost told = totals@;
        let ghost ndold = ndone@;
        let ghost cdold = cdone@;
        let ghost cfold = cflow@;
        let ghost tu = totals@[u as int] as int;
        let ghost sum0 = crate::seqs::sum_seq(unproc_totals(ndold, told, n as int));
        ndone.set(u, true);
        proof {
            assert(unproc_totals(ndone@, totals@, n as int) =~= unproc_totals(
                ndold,
                told,
                n as int,
            ).update(u as int, 0));
            crate::seqs::lemma_sum_update(unproc_totals(ndold, told, n as int), u as int, 0);
        }
        let d = outdeg[u];
        proof {
            lemma_cnt_src_bounds(edges@, u as int, 0, m as int);
            assert(d <= m);
            crate::seqs::lemma_sum_bounds_element(unproc_totals(ndold, told, n as int), u as int);
            assert(unproc_totals(ndold, told, n as int)[u as int] == told[u as int] as int);
            assert(tu <= sum0);
        }
        if d > 0 {
            let fp = crate::fixed::div_i64(totals[u], d as i64);
            proof {
                assert((d as i64) as int == d as int);
                crate::fixed::lemma_div_trunc_bound(tu, d as int);
                assert(0 <= fp <= tu);
                vstd::arithmetic::div_mod::lemma_fundamental_div_mod(tu, d as int);
                assert(d * fp <= tu);
                assert(tu <= sum0);
            }
            for k in 0..m
                invariant
                    n == network.nodes@.len(),
                    m == edges@.len(),
                    m == network.conduits@.len(),
                    u < n,
                    0 < d,
                    totals@.len() == n,
                    cflow@.len() == m,
                    cdone@.len() == m,
                    ndone@.len() == n,
                    ndold.len() == n,
                    cdold.len() == m,
                    cfold.len() == m,
                    told.len() == n,
                    !ndold[u as int],
                    ndone@ == ndold.update(u as int, true),
                    forall|k2: int| 0 <= k2 < m ==> (#[trigger] edges@[k2]).0 < n && edges@[
                        k2
                    ].1 < n,
                    forall|k2: int| 0 <= k2 < m && (#[trigger] edges@[k2]).0 == u ==> {
                        &&& !ndold[edges@[k2].1 as int]
                        &&& edges@[k2].1 != u
                    },
                    d == cnt_src(edges@, u as int, 0, m as int),
                    tu == totals@[u as int] as int,
                    tu >= 0,
                    0 <= fp,
                    fp == div_trunc(tu, d as int),
                    d * fp <= tu,
                    fp <= tu,
                    tu <= sum0,
                    // conduits scanned so far follow the new marking
                    forall|k2: int|
                        0 <= k2 < m ==> (#[trigger] cdone@[k2]) == (if k2 < k {
                            ndone@[edges@[k2].0 as int]
                        } else {
                            cdold[k2]
                        }),
                    forall|k2: int| 0 <= k2 < m ==> (#[trigger] cdold[k2]) == ndold[edges@[
                        k2
                    ].0 as int],
                    forall|k2: int|
                        k as int <= k2 < m ==> (#[trigger] cflow@[k2]) == cfold[k2],
                    forall|k2: int|
                        0 <= k2 < k && (#[trigger] edges@[k2]).0 != u ==> cflow@[k2] == cfold[
                            k2
                        ],
                    forall|k2: int|
                        0 <= k2 < k && (#[trigger] edges@[k2]).0 == u ==> cflow@[k2] == fp,
                    // routed conduits carry the even split
                    forall|k2: int|
                        0 <= k2 < m && (#[trigger] cdone@[k2]) ==> cflow@[k2] as int
                            == div_trunc(
                            totals@[edges@[k2].0 as int] as int,
                            cnt_src(edges@, edges@[k2].0 as int, 0, m as int),
                        ) && cnt_src(edges@, edges@[k2].0 as int, 0, m as int) >= 1,
                    // totals balance against the mixed routing state
                    forall|v: int|
                        0 <= v < n ==> (#[trigger] totals@[v]) as int == spec_inflow(
                            node_inflows.entries@,
                            network.nodes@[v].id@,
                        ) + sum_into_idx(edges@, cdone@, cflow@, v, 0, k as int)
                            + sum_into_idx(edges@, cdold, cfold, v, k as int, m as int),
                    forall|v: int| 0 <= v < n ==> (#[trigger] totals@[v]) >= 0,
                    forall|k2: int| 0 <= k2 < m ==> (#[trigger] cflow@[k2]) >= 0,
                    crate::seqs::sum_seq(unproc_totals(ndone@, totals@, n as int)) <= sum0 - tu
                        + cnt_src(edges@, u as int, 0, k as int) * fp,
                    sum0 <= 100000000000000000,
            {
                proof {
                    lemma_cnt_src_peel_lo(edges@, u as int, k as int, m as int);
                    lemma_cnt_src_split(edges@, u as int, 0, k as int, m as int);
                    lemma_cnt_src_bounds(edges@, u as int, 0, k as int);
                    lemma_cnt_src_bounds(edges@, u as int, k + 1, m as int);
                }
                if edges[k].0 == u {
                    let t = edges[k].1;
                    let ghost tmid = totals@;
                    let ghost cdmid = cdone@;
                    let ghost cfmid = cflow@;
                    cflow.set(k, fp);
                    cdone.set(k, true);
                    proof {
                        assert(!ndone@[t as int]);
                        assert((cnt_src(edges@, u as int, 0, k as int) + 1) * fp == cnt_src(
                            edges@,
                            u as int,
                            0,
                            k as int,
                        ) * fp + fp) by (nonlinear_arith);
                        // the element below the sum stays within budget
                        crate::seqs::lemma_sum_bounds_element(
                            unproc_totals(ndone@, totals@, n as int),
                            t as int,
                        );
                        assert(unproc_totals(ndone@, totals@, n as int)[t as int]
                            == totals@[t as int] as int);
                        assert(totals@[t as int] as int <= sum0 - tu + cnt_src(
                            edges@,
                            u as int,
                            0,
                            k as int,
                        ) * fp);
                        assert(cnt_src(edges@, u as int, 0, k as int) * fp <= d * fp)
                            by (nonlinear_arith)
                            requires
                                0 <= fp,
                                cnt_src(edges@, u as int, 0, k as int) <= d,
                        ;
                        assert(totals@[t as int] as int <= sum0);
                        assert(fp <= tu <= sum0 <= 100000000000000000);
                    }
                    let tw = totals[t];
                    totals.set(t, tw + fp);
                    proof {
                        assert(unproc_totals(ndone@, totals@, n as int) =~= unproc_totals(
                            ndone@,
                            tmid,
                            n as int,
                        ).update(t as int, tw + fp));
                        crate::seqs::lemma_sum_update(
                            unproc_totals(ndone@, tmid, n as int),
                            t as int,
                            tw + fp,
                        );
                        // the balance moves one edge from the stale to
                        // the fresh side
                        assert forall|v: int| 0 <= v < n implies (#[trigger] totals@[v]) as int
                            == spec_inflow(node_inflows.entries@, network.nodes@[v].id@)
                            + sum_into_idx(edges@, cdone@, cflow@, v, 0, k + 1) + sum_into_idx(
                            edges@,
                            cdold,
                            cfold,
                            v,
                            k + 1,
                            m as int,
                        ) by {
                            lemma_sum_into_peel_lo(edges@, cdold, cfold, v, k as int, m as int);
                            lemma_sum_into_same(
                                edges@,
                                cdmid,
                                cfmid,
                                cdone@,
                                cflow@,
                                v,
                                0,
                                k as int,
                            );
                            assert(!cdold[k as int]);
                            assert(sum_into_idx(edges@, cdone@, cflow@, v, 0, k + 1)
                                == sum_into_idx(edges@, cdone@, cflow@, v, 0, k as int) + (
                            if edges@[k as int].1 == v {
                                fp as int
                            } else {
                                0int
                            }));
                        }
                    }
                } else {
                    proof {
                        assert forall|v: int| 0 <= v < n implies (#[trigger] totals@[v]) as int
                            == spec_inflow(node_inflows.entries@, network.nodes@[v].id@)
                            + sum_into_idx(edges@, cdone@, cflow@, v, 0, k + 1) + sum_into_idx(
                            edges@,
                            cdold,
                            cfold,
                            v,
                            k + 1,
                            m as int,
                        ) by {
                            lemma_sum_into_peel_lo(edges@, cdold, cfold, v, k as int, m as int);
                            assert(cdone@[k as int] == cdold[k as int]);
                            assert(cflow@[k as int] == cfold[k as int]);
                            assert(sum_into_idx(edges@, cdone@, cflow@, v, 0, k + 1)
                                == sum_into_idx(edges@, cdone@, cflow@, v, 0, k as int) + (
                            if edges@[k as int].1 == v && cdone@[k as int] {
                                cflow@[k as int] as int
                            } else {
                                0int
                            }));
                        }
                    }
                }
            }
            proof {
                assert forall|v: int| 0 <= v < n implies (#[trigger] totals@[v]) as int
                    == spec_inflow(node_inflows.entries@, network.nodes@[v].id@) + sum_into_idx(
                    edges@,
                    cdone@,
                    cflow@,
                    v,
                    0,
                    m as int,
                ) by {
                    assert(sum_into_idx(edges@, cdold, cfold, v, m as int, m as int) == 0);
                }
            }
        } else {
            proof {
                lemma_cnt_src_bounds(edges@, u as int, 0, m as int);
                assert forall|v: int| 0 <= v < n implies (#[trigger] totals@[v]) as int
                    == spec_inflow(node_inflows.entries@, network.nodes@[v].id@) + sum_into_idx(
                    edges@,
                    cdone@,
                    cflow@,
                    v,
                    0,
                    m as int,
                ) by {
                    lemma_sum_into_same(edges@, cdold, cfold, cdone@, cflow@, v, 0, m as int);
                }
            }
        }
    }

    // With every node finished, each conduit carries its final flow.
    proof {
        assert forall|k: int| 0 <= k < m implies (#[trigger] cdone@[k]) by {
            assert(order@.contains(#[trigger] (edges@[k].0 as int as usize)));
            let q = choose|q: int| 0 <= q < order@.len() && order@[q] == (edges@[k].0 as usize);
            assert(ndone@[edges@[k].0 as int]);
        }
    }
    let mut result: Vec<(String, i64)> = Vec::new();
    for j in 0..m
        invariant
            m == network.conduits@.len(),
            cflow@.len() == m,
            result@.len() == j,
            forall|j2: int|
                0 <= j2 < j ==> (#[trigger] result@[j2]).0@ == network.conduits@[j2].id@,
            forall|j2: int| 0 <= j2 < j ==> (#[trigger] result@[j2]).1 == cflow@[j2],
    {
        let id = network.conduits[j].id.clone();
        result.push((id, cflow[j]));
    }
    proof {
        // identifier-based sums agree with the index-based state
        assert forall|j: int|
            0 <= j < result@.len() implies (#[trigger] result@[j]).1 as int == div_trunc(
            spec_inflow(node_inflows.entries@, network.conduits@[j].from_node@) + spec_flow_into(
                network.conduits@,
                result@,
                network.conduits@[j].from_node@,
                m as int,
            ),
            spec_outdeg(network.conduits@, network.conduits@[j].from_node@, m as int),
        ) by {
            let v = edges@[j].0 as int;
            assert(cdone@[j]);
            assert(cflow@[j] as int == div_trunc(
                totals@[v] as int,
                cnt_src(edges@, v, 0, m as int),
            ));
            assert(totals@[v] as int == spec_inflow(
                node_inflows.entries@,
                network.nodes@[v].id@,
            ) + sum_into_idx(edges@, cdone@, cflow@, v, 0, m as int));
            lemma_outdeg_agrees(network.nodes@, network.conduits@, edges@, v, m as int);
            lemma_sum_into_agrees(
                network.nodes@,
                network.conduits@,
                edges@,
                cdone@,
                cflow@,
                result@,
                v,
                m as int,
            );
            assert(network.nodes@[v].id@ == network.conduits@[j].from_node@);
        }
    }
    FlowMap { entries: result }
}

/// A stuck marking over the index graph yields a cycle certificate
/// over the network's identifiers.
proof fn lemma_cycle_witness_from_indices(
    nodes: Seq<Node>,
    conduits: Seq<Conduit>,
    edges: Seq<(usize, usize)>,
    mark: Seq<bool>,
)
    requires
        spec_unique_node_ids(nodes),
        edges.len() == conduits.len(),
        mark.len() == nodes.len(),
        forall|k: int| 0 <= k < edges.len() ==> {
            &&& (#[trigger] edges[k]).0 < nodes.len()
            &&& edges[k].1 < nodes.len()
            &&& nodes[edges[k].0 as int].id@ == conduits[k].from_node@
            &&& nodes[edges[k].1 as int].id@ == conduits[k].to_node@
        },
        exists|v: int| 0 <= v < nodes.len() && !mark[v],
        forall|v: int|
            0 <= v < nodes.len() && !(#[trigger] mark[v]) ==> exists|k: int|
                0 <= k < edges.len() && edges[k].1 == v && !mark[edges[k].0 as int],
    ensures
        spec_cycle_witness(nodes, conduits, mark),
{
    assert forall|v: int|
        0 <= v < nodes.len() && !(#[trigger] mark[v]) implies exists|k: int|
        spec_blocking_conduit(nodes, conduits, mark, v, k) by {
        lemma_blocking_for(nodes, conduits, edges, mark, v);
    }
}

/// One unmarked node with an unmarked index-level predecessor has a
/// blocking conduit.
proof fn lemma_blocking_for(
    nodes: Seq<Node>,
    conduits: Seq<Conduit>,
    edges: Seq<(usize, usize)>,
    mark: Seq<bool>,
    v: int,
)
    requires
        spec_unique_node_ids(nodes),
        edges.len() == conduits.len(),
        mark.len() == nodes.len(),
        0 <= v < nodes.len(),
        forall|k: int| 0 <= k < edges.len() ==> {
            &&& (#[trigger] edges[k]).0 < nodes.len()
            &&& edges[k].1 < nodes.len()
            &&& nodes[edges[k].0 as int].id@ == conduits[k].from_node@
            &&& nodes[edges[k].1 as int].id@ == conduits[k].to_node@
        },
        exists|k: int| 0 <= k < edges.len() && edges[k].1 == v && !mark[edges[k].0 as int],
    ensures
        exists|k: int| spec_blocking_conduit(nodes, conduits, mark, v, k),
{
    reveal(spec_blocking_conduit);
    let k0 = choose|k: int| 0 <= k < edges.len() && edges[k].1 == v && !mark[edges[k].0 as int];
    let x0 = edges[k0].0 as int;
    assert(conduits[k0].to_node@ == nodes[v].id@);
    assert(nodes[x0].id@ == conduits[k0].from_node@);
    assert(!mark[x0]);
    assert forall|w: int|
        0 <= w < nodes.len() && (#[trigger] nodes[w]).id@ == conduits[k0].from_node@
        implies !mark[w] by {
        if w != x0 {
            assert(nodes[w].id@ == nodes[x0].id@);
            assert(false);
        }
    }
    assert(spec_blocking_conduit(nodes, conduits, mark, v, k0));
}

/// A stuck marking over the reversed index graph yields a cycle
/// certificate over the network's identifiers.
proof fn lemma_cycle_witness_downstream_from_indices(
    nodes: Seq<Node>,
    conduits: Seq<Conduit>,
    edges: Seq<(usize, usize)>,
    mark: Seq<bool>,
)
    requires
        spec_unique_node_ids(nodes),
        edges.len() == conduits.len(),
        mark.len() == nodes.len(),
        forall|k: int| 0 <= k < edges.len() ==> {
            &&& (#[trigger] edges[k]).0 < nodes.len()
            &&& edges[k].1 < nodes.len()
            &&& nodes[edges[k].0 as int].id@ == conduits[k].from_node@
            &&& nodes[edges[k].1 as int].id@ == conduits[k].to_node@
        },
        exists|v: int| 0 <= v < nodes.len() && !mark[v],
        forall|v: int|
            0 <= v < nodes.len() && !(#[trigger] mark[v]) ==> exists|k: int|
                0 <= k < edges.len() && edges[k].0 == v && !mark[edges[k].1 as int],
    ensures
        spec_cycle_witness_downstream(nodes, conduits, mark),
{
    assert forall|v: int|
        0 <= v < nodes.len() && !(#[trigger] mark[v]) implies exists|k: int|
        spec_feeding_conduit(nodes, conduits, mark, v, k) by {
        lemma_feeding_for(nodes, conduits, edges, mark, v);
    }
}

/// One unmarked node with an unmarked index-level successor has a
/// feeding conduit.
proof fn lemma_feeding_for(
    nodes: Seq<Node>,
    conduits: Seq<Conduit>,
    edges: Seq<(usize, usize)>,
    mark: Seq<bool>,
    v: int,
)
    requires
        spec_unique_node_ids(nodes),
        edges.len() == conduits.len(),
        mark.len() == nodes.len(),
        0 <= v < nodes.len(),
        forall|k: int| 0 <= k < edges.len() ==> {
            &&& (#[trigger] edges[k]).0 < nodes.len()
            &&& edges[k].1 < nodes.len()
            &&& nodes[edges[k].0 as int].id@ == conduits[k].from_node@
            &&& nodes[edges[k].1 as int].id@ == conduits[k].to_node@
        },
        exists|k: int| 0 <= k < edges.len() && edges[k].0 == v && !mark[edges[k].1 as int],
    ensures
        exists|k: int| spec_feeding_conduit(nodes, conduits, mark, v, k),
{
    reveal(spec_feeding_conduit);
    let k0 = choose|k: int| 0 <= k < edges.len() && edges[k].0 == v && !mark[edges[k].1 as int];
    let x0 = edges[k0].1 as int;
    assert(conduits[k0].from_node@ == nodes[v].id@);
    assert(nodes[x0].id@ == conduits[k0].to_node@);
    assert(!mark[x0]);
    assert forall|w: int|
        0 <= w < nodes.len() && (#[trigger] nodes[w]).id@ == conduits[k0].to_node@
        implies !mark[w] by {
        if w != x0 {
            assert(nodes[w].id@ == nodes[x0].id@);
            assert(false);
        }
    }
    assert(spec_feeding_conduit(nodes, conduits, mark, v, k0));
}

/// Route node inflows through the network to per-conduit flows.
///
/// The network is first validated: node and conduit identifiers must
/// be unique and every conduit endpoint must exist.  The nodes are
/// then processed in a topological order; each node's accumulated flow
/// is split evenly over its outgoing conduits and delivered downstream,
/// so that on success each conduit's flow satisfies the balance
/// `flow = (inflow(from) + delivered(from)) / outdeg(from)` exactly.
#[verifier::rlimit(100)]
#[verifier::spinoff_prover]
pub fn route_flows(network: &Network, node_inflows: &FlowMap) -> (r: Result<
    FlowMap,
    NetworkError,
>)
    requires
        node_inflows.wf(),
        network.nodes@.len() <= 100000,
        network.conduits@.len() <= 1000000000,
        forall|j: int|
            0 <= j < node_inflows.entries@.len() ==> 0 <= (
            #[trigger] node_inflows.entries@[j]).1 <= 1000000000000,
    ensures
        match r {
            Ok(flows) => {
                &&& spec_unique_node_ids(network.nodes@)
                &&& spec_unique_conduit_ids(network.conduits@)
                &&& crate::network::spec_connected(network.nodes@, network.conduits@)
                &&& flows.wf()
                &&& flows.entries@.len() == network.conduits@.len()
                &&& forall|j: int|
                    0 <= j < flows.entries@.len() ==> (#[trigger] flows.entries@[j]).0@
                        == network.conduits@[j].id@
                &&& forall|j: int|
                    0 <= j < flows.entries@.len() ==> (#[trigger] flows.entries@[j]).1 as int
                        == div_trunc(
                        spec_inflow(node_inflows.entries@, network.conduits@[j].from_node@)
                            + spec_flow_into(
                            network.conduits@,
                            flows.entries@,
                            network.conduits@[j].from_node@,
                            network.conduits@.len() as int,
                        ),
                        spec_outdeg(
                            network.conduits@,
                            network.conduits@[j].from_node@,
                            network.conduits@.len() as int,
                        ),
                    )
            },
            Err(e) => match e {
                NetworkError::DuplicateId(_) => !spec_unique_node_ids(network.nodes@)
                    || !spec_unique_conduit_ids(network.conduits@),
                NetworkError::DanglingEndpoint(_, _) => !crate::network::spec_connected(
                    network.nodes@,
                    network.conduits@,
                ),
                NetworkError::CycleDetected(_) => exists|mark: Seq<bool>|
                    spec_cycle_witness(network.nodes@, network.conduits@, mark),
                _ => false,
            },
        },
{
    if let Some(i) = find_duplicate_node_id(&network.nodes) {
        return Err(NetworkError::DuplicateId(network.nodes[i].id.clone()));
    }
    if let Some(i) = find_duplicate_conduit_id(&network.conduits) {
        return Err(NetworkError::DuplicateId(network.conduits[i].id.clone()));
    }
    let edges = match build_edges(network) {
        Ok(edges) => edges,
        Err(e) => {
            return Err(e);
        },
    };
    proof {
        assert forall|j: int| 0 <= j < network.conduits@.len() implies
            crate::network::spec_has_node(
            network.nodes@,
            #[trigger] network.conduits@[j].from_node@,
        ) && crate::network::spec_has_node(network.nodes@, network.conduits@[j].to_node@) by {
            assert(network.nodes@[edges@[j].0 as int].id@ == network.conduits@[j].from_node@);
            assert(network.nodes@[edges@[j].1 as int].id@ == network.conduits@[j].to_node@);
        }
        assert(crate::network::spec_connected(network.nodes@, network.conduits@));
    }
    let n = network.nodes.len();
    match topo_sort(n, &edges) {
        Ok(order) => Ok(route_on_order(network, &edges, &order, node_inflows)),
        Err(done) => {
            let mut v: usize = 0;
            let ghost mark = done@;
            while v < n && done[v]
                invariant
                    n == network.nodes@.len(),
                    done@.len() == n,
                    v <= n,
                    mark == done@,
                    forall|w: int| 0 <= w < v ==> (#[trigger] done@[w]),
                decreases n - v,
            {
                v = v + 1;
            }
            proof {
                if v == n {
                    let w0 = choose|w: int| 0 <= w < n && !done@[w];
                    assert(false);
                }
                assert(v < n && !done@[v as int]);
                lemma_cycle_witness_from_indices(
                    network.nodes@,
                    network.conduits@,
                    edges@,
                    mark,
                );
            }
            Err(NetworkError::CycleDetected(network.nodes[v].id.clone()))
        },
    }
}

/// A downstream-first processing order for the hydraulic-grade-line
/// sweep: a topological order of the nodes over the reversed graph, so
/// that every conduit's downstream node appears before its upstream
/// node.  The sweep can then walk the order and resolve each node's
/// incoming conduits against an already-known downstream grade.
#[verifier::rlimit(100)]
#[verifier::spinoff_prover]
pub fn hgl_processing_order(network: &Network) -> (r: Result<Vec<usize>, NetworkError>)
    ensures
        match r {
            Ok(order) => {
                &&& spec_unique_node_ids(network.nodes@)
                &&& crate::network::spec_connected(network.nodes@, network.conduits@)
                &&& order@.len() == network.nodes@.len()
                &&& order@.no_duplicates()
                &&& forall|p: int| 0 <= p < order@.len() ==> (#[trigger] order@[p])
                    < network.nodes@.len()
                &&& forall|v: int|
                    0 <= v < network.nodes@.len() ==> order@.contains(#[trigger] (v as usize))
                &&& forall|k: int, p: int, q: int|
                    {
                        &&& 0 <= k < network.conduits@.len()
                        &&& 0 <= p < order@.len()
                        &&& 0 <= q < order@.len()
                        &&& network.nodes@[(#[trigger] order@[p]) as int].id@ == (
                        #[trigger] network.conduits@[k]).to_node@
                        &&& network.nodes@[(#[trigger] order@[q]) as int].id@
                            == network.conduits@[k].from_node@
                    } ==> p < q
            },
            Err(e) => match e {
                NetworkError::DuplicateId(_) => !spec_unique_node_ids(network.nodes@),
                NetworkError::DanglingEndpoint(_, _) => !crate::network::spec_connected(
                    network.nodes@,
                    network.conduits@,
                ),
                NetworkError::CycleDetected(_) => exists|mark: Seq<bool>|
                    spec_cycle_witness_downstream(network.nodes@, network.conduits@, mark),
                _ => false,
            },
        },
{
    if let Some(i) = find_duplicate_node_id(&network.nodes) {
        return Err(NetworkError::DuplicateId(network.nodes[i].id.clone()));
    }
    let edges = match build_edges(network) {
        Ok(edges) => edges,
        Err(e) => {
            return Err(e);
        },
    };
    proof {
        assert forall|j: int| 0 <= j < network.conduits@.len() implies
            crate::network::spec_has_node(
            network.nodes@,
            #[trigger] network.conduits@[j].from_node@,
        ) && crate::network::spec_has_node(network.nodes@, network.conduits@[j].to_node@) by {
            assert(network.nodes@[edges@[j].0 as int].id@ == network.conduits@[j].from_node@);
            assert(network.nodes@[edges@[j].1 as int].id@ == network.conduits@[j].to_node@);
        }
        assert(crate::network::spec_connected(network.nodes@, network.conduits@));
    }
    let m = edges.len();
    let mut reversed: Vec<(usize, usize)> = Vec::new();
    for k in 0..m
        invariant
            m == edges@.len(),
            reversed@.len() == k,
            forall|k2: int| 0 <= k2 < m ==> (#[trigger] edges@[k2]).0 < network.nodes@.len()
                && edges@[k2].1 < network.nodes@.len(),
            forall|k2: int| 0 <= k2 < k ==> (#[trigger] reversed@[k2]).0 == edges@[k2].1
                && reversed@[k2].1 == edges@[k2].0,
    {
        let e = edges[k];
        reversed.push((e.1, e.0));
    }
    let n = network.nodes.len();
    match topo_sort(n, &reversed) {
        Ok(order) => {
            proof {
                // every conduit's downstream node precedes its
                // upstream node: the reversed-edge order property
                // carried over through the unique identifiers
                assert forall|k: int, p: int, q: int|
                    {
                        &&& 0 <= k < network.conduits@.len()
                        &&& 0 <= p < order@.len()
                        &&& 0 <= q < order@.len()
                        &&& network.nodes@[(#[trigger] order@[p]) as int].id@ == (
                        #[trigger] network.conduits@[k]).to_node@
                        &&& network.nodes@[(#[trigger] order@[q]) as int].id@
                            == network.conduits@[k].from_node@
                    } implies p < q by {
                    // the unique identifiers pin the order entries to
                    // the edge's endpoints
                    assert(network.nodes@[edges@[k].1 as int].id@ == network.conduits@[
                        k
                    ].to_node@);
                    if order@[p] as int != edges@[k].1 as int {
                        assert(network.nodes@[order@[p] as int].id@ == network.nodes@[edges@[
                            k
                        ].1 as int].id@);
                        assert(false);
                    }
                    assert(network.nodes@[edges@[k].0 as int].id@ == network.conduits@[
                        k
                    ].from_node@);
                    if order@[q] as int != edges@[k].0 as int {
                        assert(network.nodes@[order@[q] as int].id@ == network.nodes@[edges@[
                            k
                        ].0 as int].id@);
                        assert(false);
                    }
                    // the reversed edge forces a strictly earlier
                    // position for the downstream node
                    assert(reversed@[k].1 == edges@[k].0 && order@[q] == reversed@[k].1);
                    let p2 = choose|p2: int| 0 <= p2 < q && order@[p2] == reversed@[k].0;
                    assert(order@[p2] == order@[p]);
                    if p2 != p {
                        assert(false);
                    }
                }
            }
            Ok(order)
        },
        Err(done) => {
            let mut v: usize = 0;
            let ghost mark = done@;
            while v < n && done[v]
                invariant
                    n == network.nodes@.len(),
                    done@.len() == n,
                    v <= n,
                    mark == done@,
                    forall|w: int| 0 <= w < v ==> (#[trigger] done@[w]),
                decreases n - v,
            {
                v = v + 1;
            }
            proof {
                if v == n {
                    let w0 = choose|w: int| 0 <= w < n && !done@[w];
                    assert(false);
                }
                assert(v < n && !done@[v as int]);
                // a stuck node of the reversed graph has an unfinished
                // successor in the forward graph
                assert forall|w: int|
                    0 <= w < n && !(#[trigger] mark[w]) implies exists|k: int|
                    0 <= k < edges@.len() && edges@[k].0 == w && !mark[edges@[k].1 as int] by {
                    let k0 = choose|k: int|
                        0 <= k < reversed@.len() && reversed@[k].1 == w && !done@[reversed@[
                            k
                        ].0 as int];
                    assert(edges@[k0].0 == w && !mark[edges@[k0].1 as int]);
                }
                lemma_cycle_witness_downstream_from_indices(
                    network.nodes@,
                    network.conduits@,
                    edges@,
                    mark,
                );
            }
            Err(NetworkError::CycleDetected(network.nodes[v].id.clone()))
        },
    }
}

/// The unfinished accumulated flow, piped and surface together, as a
/// ghost summand sequence.
pub open spec fn unproc_budget(
    ndone: Seq<bool>,
    tot: Seq<i64>,
    bin: Seq<i64>,
    n: int,
) -> Seq<int> {
    Seq::new(n as nat, |v: int| if ndone[v] { 0int } else { tot[v] + bin[v] })
}

/// What routing with interception computes: the conduit flows are
/// aligned with the conduits and the interception and bypass records
/// with the nodes; each node's approach balances its direct inflow,
/// the delivered pipe flow and the delivered whole bypass; an on-grade
/// inlet keeps the supplied net fraction of its approach and passes
/// the rest on the surface; every other node bypasses nothing; and
/// each conduit carries the even split of its source node's
/// intercepted flow.
pub open spec fn spec_routed_with_inlets(
    nodes: Seq<Node>,
    conduits: Seq<Conduit>,
    inflows: Seq<(String, i64)>,
    effs: Seq<(String, i64)>,
    flows: FlowMap,
    icpt: FlowMap,
    byp: FlowMap,
) -> bool {
    let m = conduits.len() as int;
    &&& flows.wf()
    &&& flows.entries@.len() == conduits.len()
    &&& forall|j: int| 0 <= j < m ==> (#[trigger] flows.entries@[j]).0@ == conduits[j].id@
    &&& icpt.entries@.len() == nodes.len()
    &&& forall|v: int|
        0 <= v < nodes.len() ==> (#[trigger] icpt.entries@[v]).0@ == nodes[v].id@
    &&& byp.entries@.len() == nodes.len()
    &&& forall|v: int| 0 <= v < nodes.len() ==> (#[trigger] byp.entries@[v]).0@ == nodes[v].id@
    &&& forall|v: int| 0 <= v < nodes.len() ==> (#[trigger] icpt.entries@[v]).1 >= 0
    &&& forall|v: int| 0 <= v < nodes.len() ==> (#[trigger] byp.entries@[v]).1 >= 0
    &&& forall|v: int|
        0 <= v < nodes.len() ==> (#[trigger] icpt.entries@[v]).1 + byp.entries@[v].1
            == spec_inflow(inflows, nodes[v].id@) + spec_flow_into(
            conduits,
            flows.entries@,
            nodes[v].id@,
            m,
        ) + spec_bypass_into(conduits, byp.entries@, nodes[v].id@, m)
    &&& forall|v: int|
        0 <= v < nodes.len() && spec_is_on_grade_inlet(#[trigger] nodes[v])
            ==> icpt.entries@[v].1 as int == div_trunc(
            (icpt.entries@[v].1 + byp.entries@[v].1) * spec_eff(effs, nodes[v].id@),
            1000,
        )
    &&& forall|v: int|
        0 <= v < nodes.len() && !spec_is_on_grade_inlet(#[trigger] nodes[v])
            ==> byp.entries@[v].1 == 0
    &&& forall|j: int|
        0 <= j < m ==> (#[trigger] flows.entries@[j]).1 as int == div_trunc(
            spec_lookup(icpt.entries@, conduits[j].from_node@)->0 as int,
            spec_outdeg(conduits, conduits[j].from_node@, m),
        ) && spec_lookup(icpt.entries@, conduits[j].from_node@) is Some
}

/// Route the node inflows with inlet interception and bypass
/// carry-over, following a topological order of the nodes.  Each node
/// accumulates piped flow and surface bypass; an on-grade inlet keeps
/// the supplied net fraction of the approach and passes the rest on
/// the surface, every other node passes everything into the system.
#[verifier::rlimit(100)]
#[verifier::spinoff_prover]
fn route_inlets_on_order(
    network: &Network,
    edges: &Vec<(usize, usize)>,
    order: &Vec<usize>,
    node_inflows: &FlowMap,
    net_efficiency: &FlowMap,
) -> (r: (FlowMap, FlowMap, FlowMap))
    requires
        edges@.len() == network.conduits@.len(),
        network.nodes@.len() <= 100000,
        network.conduits@.len() <= 1000000000,
        forall|k: int| 0 <= k < edges@.len() ==> {
            &&& (#[trigger] edges@[k]).0 < network.nodes@.len()
            &&& edges@[k].1 < network.nodes@.len()
            &&& network.nodes@[edges@[k].0 as int].id@ == network.conduits@[k].from_node@
            &&& network.nodes@[edges@[k].1 as int].id@ == network.conduits@[k].to_node@
        },
        topo_order_ok(network.nodes@.len() as int, edges@, order@),
        spec_unique_node_ids(network.nodes@),
        spec_unique_conduit_ids(network.conduits@),
        node_inflows.wf(),
        forall|j: int|
            0 <= j < node_inflows.entries@.len() ==> 0 <= (
            #[trigger] node_inflows.entries@[j]).1 <= 1000000000000,
        net_efficiency.wf(),
        forall|j: int|
            0 <= j < net_efficiency.entries@.len() ==> 0 <= (
            #[trigger] net_efficiency.entries@[j]).1 <= 1000,
        forall|v: int|
            0 <= v < network.nodes@.len() && spec_is_on_grade_inlet(#[trigger] network.nodes@[v])
                ==> cnt_src(edges@, v, 0, edges@.len() as int) <= 1,
    ensures
        spec_routed_with_inlets(
            network.nodes@,
            network.conduits@,
            node_inflows.entries@,
            net_efficiency.entries@,
            r.0,
            r.1,
            r.2,
        ),
{
    let n = network.nodes.len();
    let m = network.conduits.len();

    // Direct inflow at each node.
    let mut tot: Vec<i64> = Vec::new();
    for v in 0..n
        invariant
            n == network.nodes@.len(),
            tot@.len() == v,
            node_inflows.wf(),
            forall|j: int|
                0 <= j < node_inflows.entries@.len() ==> 0 <= (
                #[trigger] node_inflows.entries@[j]).1 <= 1000000000000,
            forall|w: int|
                0 <= w < v ==> (#[trigger] tot@[w]) as int == spec_inflow(
                    node_inflows.entries@,
                    network.nodes@[w].id@,
                ),
            forall|w: int| 0 <= w < v ==> 0 <= (#[trigger] tot@[w]) <= 1000000000000,
    {
        match node_inflows.get(network.nodes[v].id.as_str()) {
            Some(q) => {
                proof {
                    lemma_lookup_bounds(
                        node_inflows.entries@,
                        network.nodes@[v as int].id@,
                        0,
                        1000000000000,
                    );
                }
                tot.push(q);
            },
            None => {
                tot.push(0);
            },
        }
    }

    // Out-degree of each node, over the edge list.
    let mut outdeg: Vec<usize> = Vec::new();
    for v in 0..n
        invariant
            outdeg@.len() == v,
            forall|w: int| 0 <= w < v ==> (#[trigger] outdeg@[w]) == 0,
    {
        outdeg.push(0);
    }
    for k in 0..m
        invariant
            n == network.nodes@.len(),
            m == edges@.len(),
            outdeg@.len() == n,
            forall|k2: int| 0 <= k2 < m ==> (#[trigger] edges@[k2]).0 < n && edges@[k2].1 < n,
            forall|w: int| 0 <= w < n ==> (#[trigger] outdeg@[w]) == cnt_src(
                edges@,
                w,
                0,
                k as int,
            ),
    {
        let u = edges[k].0;
        proof {
            lemma_cnt_src_bounds(edges@, u as int, 0, k as int);
        }
        let d = outdeg[u];
        outdeg.set(u, d + 1);
    }

    let mut cflow: Vec<i64> = Vec::new();
    let mut cdone: Vec<bool> = Vec::new();
    for k in 0..m
        invariant
            cflow@.len() == k,
            cdone@.len() == k,
            forall|k2: int| 0 <= k2 < k ==> (#[trigger] cflow@[k2]) == 0,
            forall|k2: int| 0 <= k2 < k ==> !(#[trigger] cdone@[k2]),
    {
        cflow.push(0);
        cdone.push(false);
    }
    let mut bin: Vec<i64> = Vec::new();
    let mut iout: Vec<i64> = Vec::new();
    let mut bout: Vec<i64> = Vec::new();
    let mut ndone: Vec<bool> = Vec::new();
    for v in 0..n
        invariant
            bin@.len() == v,
            iout@.len() == v,
            bout@.len() == v,
            ndone@.len() == v,
            forall|w: int| 0 <= w < v ==> (#[trigger] bin@[w]) == 0,
            forall|w: int| 0 <= w < v ==> (#[trigger] iout@[w]) == 0,
            forall|w: int| 0 <= w < v ==> (#[trigger] bout@[w]) == 0,
            forall|w: int| 0 <= w < v ==> !(#[trigger] ndone@[w]),
    {
        bin.push(0);
        iout.push(0);
        bout.push(0);
        ndone.push(false);
    }

    proof {
        assert forall|v: int|
            0 <= v < n implies unproc_budget(ndone@, tot@, bin@, n as int)[v] == tot@[v] + bin@[v]
            && 0 <= unproc_budget(ndone@, tot@, bin@, n as int)[v] <= 1000000000000 by {}
        crate::seqs::lemma_sum_pointwise_bound(
            unproc_budget(ndone@, tot@, bin@, n as int),
            1000000000000,
        );
        assert(n * 1000000000000 <= 100000000000000000) by (nonlinear_arith)
            requires
                n <= 100000,
        ;
        assert forall|v: int| 0 <= v < n implies (#[trigger] tot@[v]) as int == spec_inflow(
            node_inflows.entries@,
            network.nodes@[v].id@,
        ) + sum_into_idx(edges@, cdone@, cflow@, v, 0, m as int) by {
            lemma_sum_into_zero(edges@, cdone@, cflow@, v, 0, m as int);
        }
        assert forall|v: int| 0 <= v < n implies (#[trigger] bin@[v]) as int == sum_src_into(
            edges@,
            cdone@,
            bout@,
            v,
            0,
            m as int,
        ) by {
            lemma_sum_src_zero(edges@, cdone@, bout@, v, 0, m as int);
        }
    }

    for p in 0..n
        invariant
            n == network.nodes@.len(),
            m == network.conduits@.len(),
            m == edges@.len(),
            n <= 100000,
            m <= 1000000000,
            tot@.len() == n,
            bin@.len() == n,
            iout@.len() == n,
            bout@.len() == n,
            outdeg@.len() == n,
            cflow@.len() == m,
            cdone@.len() == m,
            ndone@.len() == n,
            node_inflows.wf(),
            net_efficiency.wf(),
            forall|j: int|
                0 <= j < net_efficiency.entries@.len() ==> 0 <= (
                #[trigger] net_efficiency.entries@[j]).1 <= 1000,
            spec_unique_node_ids(network.nodes@),
            topo_order_ok(n as int, edges@, order@),
            forall|k: int| 0 <= k < m ==> {
                &&& (#[trigger] edges@[k]).0 < n
                &&& edges@[k].1 < n
                &&& network.nodes@[edges@[k].0 as int].id@ == network.conduits@[k].from_node@
                &&& network.nodes@[edges@[k].1 as int].id@ == network.conduits@[k].to_node@
            },
            forall|v: int|
                0 <= v < n && spec_is_on_grade_inlet(#[trigger] network.nodes@[v]) ==> cnt_src(
                    edges@,
                    v,
                    0,
                    m as int,
                ) <= 1,
            forall|w: int| 0 <= w < n ==> (#[trigger] outdeg@[w]) == cnt_src(
                edges@,
                w,
                0,
                m as int,
            ),
            // processed nodes are exactly the order prefix
            forall|q: int| 0 <= q < p ==> ndone@[(#[trigger] order@[q]) as int],
            forall|v: int|
                0 <= v < n && (#[trigger] ndone@[v]) ==> exists|q: int|
                    0 <= q < p && order@[q] == (v as usize),
            // a conduit is routed exactly when its source is finished
            forall|k: int| 0 <= k < m ==> (#[trigger] cdone@[k]) == ndone@[edges@[k].0 as int],
            // finished nodes carry their final interception split
            forall|v: int|
                0 <= v < n && (#[trigger] ndone@[v]) && spec_is_on_grade_inlet(
                    network.nodes@[v],
                ) ==> iout@[v] as int == div_trunc(
                    (tot@[v] + bin@[v]) * spec_eff(
                        net_efficiency.entries@,
                        network.nodes@[v].id@,
                    ),
                    1000,
                ),
            forall|v: int|
                0 <= v < n && (#[trigger] ndone@[v]) && !spec_is_on_grade_inlet(
                    network.nodes@[v],
                ) ==> iout@[v] == tot@[v] + bin@[v],
            forall|v: int|
                0 <= v < n && (#[trigger] ndone@[v]) ==> bout@[v] == tot@[v] + bin@[v] - iout@[
                    v
                ],
            forall|v: int| 0 <= v < n && !(#[trigger] ndone@[v]) ==> iout@[v] == 0 && bout@[v]
                == 0,
            // routed conduits carry the even split of their source's
            // intercepted flow
            forall|k: int|
                0 <= k < m && (#[trigger] cdone@[k]) ==> cflow@[k] as int == div_trunc(
                    iout@[edges@[k].0 as int] as int,
                    cnt_src(edges@, edges@[k].0 as int, 0, m as int),
                ) && cnt_src(edges@, edges@[k].0 as int, 0, m as int) >= 1,
            // every total is its inflow plus what routed conduits
            // deliver; every bypass accumulator is the delivered bypass
            forall|v: int|
                0 <= v < n ==> (#[trigger] tot@[v]) as int == spec_inflow(
                    node_inflows.entries@,
                    network.nodes@[v].id@,
                ) + sum_into_idx(edges@, cdone@, cflow@, v, 0, m as int),
            forall|v: int|
                0 <= v < n ==> (#[trigger] bin@[v]) as int == sum_src_into(
                    edges@,
                    cdone@,
                    bout@,
                    v,
                    0,
                    m as int,
                ),
            forall|v: int| 0 <= v < n ==> (#[trigger] tot@[v]) >= 0 && bin@[v] >= 0 && iout@[v]
                >= 0 && bout@[v] >= 0,
            forall|k: int| 0 <= k < m ==> (#[trigger] cflow@[k]) >= 0,
            crate::seqs::sum_seq(unproc_budget(ndone@, tot@, bin@, n as int))
                <= 100000000000000000,
    {
        let u = order[p];
        proof {
            assert(u < n);
            if ndone@[u as int] {
                let q0 = choose|q: int| 0 <= q < p && order@[q] == (u as usize);
                assert(order@[q0] == order@[p as int]);
                assert(false);
            }
            // every target of an edge out of u is still unfinished
            assert forall|k: int| 0 <= k < m && (#[trigger] edges@[k]).0 == u implies {
                &&& !ndone@[edges@[k].1 as int]
                &&& edges@[k].1 != u
            } by {
                if edges@[k].1 == u {
                    let pw = choose|pw: int| 0 <= pw < p as int && order@[pw] == edges@[k].0;
                    assert(order@[pw] == u);
                    assert(false);
                }
                if ndone@[edges@[k].1 as int] {
                    let q1 = choose|q: int|
                        0 <= q < p && order@[q] == (edges@[k].1 as usize);
                    let pw = choose|pw: int| 0 <= pw < q1 && order@[pw] == edges@[k].0;
                    assert(order@[pw] == u);
                    assert(ndone@[u as int]);
                    assert(false);
                }
            }
            crate::seqs::lemma_sum_bounds_element(
                unproc_budget(ndone@, tot@, bin@, n as int),
                u as int,
            );
            assert(unproc_budget(ndone@, tot@, bin@, n as int)[u as int] == tot@[u as int]
                + bin@[u as int]);
        }
        let ghost told = tot@;
        let ghost binold = bin@;
        let ghost ndold = ndone@;
        let ghost cdold = cdone@;
        let ghost cfold = cflow@;
        let ghost boutold = bout@;
        let ghost ioutold = iout@;
        let ghost sum0 = crate::seqs::sum_seq(unproc_budget(ndold, told, binold, n as int));
        let approach: i64 = tot[u] + bin[u];
        let ghost app = approach as int;
        let node_is_inlet = match &network.nodes[u].inlet {
            Some(props) => props.location == crate::node::InletLocation::OnGrade,
            None => false,
        };
        let intercepted: i64 = if node_is_inlet {
            let eff = match net_efficiency.get(network.nodes[u].id.as_str()) {
                Some(e) => e,
                None => 1000,
            };
            proof {
                if spec_lookup(net_efficiency.entries@, network.nodes@[u as int].id@)
                    is Some {
                    lemma_lookup_bounds(
                        net_efficiency.entries@,
                        network.nodes@[u as int].id@,
                        0,
                        1000,
                    );
                }
                assert(0 <= eff <= 1000);
                assert(0 <= app * eff <= app * 1000) by (nonlinear_arith)
                    requires
                        0 <= app,
                        0 <= eff <= 1000,
                ;
                crate::fixed::lemma_div_trunc_ordered(app * eff, app * 1000, 1000);
                vstd::arithmetic::div_mod::lemma_div_multiples_vanish(app, 1000);
            }
            crate::fixed::mul_div_thousand(approach, eff)
        } else {
            approach
        };
        proof {
            assert(0 <= intercepted <= approach);
        }
        let bypassed: i64 = approach - intercepted;
        iout.set(u, intercepted);
        bout.set(u, bypassed);
        ndone.set(u, true);
        proof {
            assert(unproc_budget(ndone@, tot@, bin@, n as int) =~= unproc_budget(
                ndold,
                told,
                binold,
                n as int,
            ).update(u as int, 0));
            crate::seqs::lemma_sum_update(
                unproc_budget(ndold, told, binold, n as int),
                u as int,
                0,
            );
            // bypass values of other finished nodes are untouched, so
            // the delivered-bypass accumulators keep their meaning
            assert forall|v: int| 0 <= v < n implies (#[trigger] bin@[v]) as int == sum_src_into(
                edges@,
                cdone@,
                bout@,
                v,
                0,
                m as int,
            ) by {
                assert forall|k: int|
                    0 <= k < m && (#[trigger] edges@[k]).1 == v implies cdone@[k] == cdold[k] && (
                cdone@[k] ==> bout@[edges@[k].0 as int] == boutold[edges@[k].0 as int]) by {
                    if cdold[k] {
                        assert(ndold[edges@[k].0 as int]);
                        assert(edges@[k].0 != u);
                    }
                }
                lemma_sum_src_same(edges@, cdone@, bout@, cdold, boutold, v, 0, m as int);
            }
        }
        let d = outdeg[u];
        proof {
            lemma_cnt_src_bounds(edges@, u as int, 0, m as int);
            assert(d <= m);
            if node_is_inlet {
                assert(spec_is_on_grade_inlet(network.nodes@[u as int]));
                assert(d <= 1);
            } else {
                assert(bypassed == 0);
            }
            assert forall|v: int|
                0 <= v < n implies (#[trigger] tot@[v]) >= 0 && bin@[v] >= 0 && iout@[v] >= 0
                && bout@[v] >= 0 by {
                if v == u as int {
                    assert(iout@[v] == intercepted && bout@[v] == bypassed);
                    assert(0 <= intercepted && 0 <= bypassed);
                } else {
                    assert(iout@ == ioutold.update(u as int, intercepted));
                    assert(iout@[v] == ioutold[v]);
                    assert(bout@[v] == boutold[v]);
                    assert(tot@[v] == told[v] && bin@[v] == binold[v]);
                    assert(told[v] >= 0 && binold[v] >= 0 && ioutold[v] >= 0 && boutold[v] >= 0);
                }
            }
        }
        if d > 0 {
            let fp = crate::fixed::div_i64(intercepted, d as i64);
            proof {
                assert((d as i64) as int == d as int);
                crate::fixed::lemma_div_trunc_bound(intercepted as int, d as int);
                assert(0 <= fp <= intercepted);
                vstd::arithmetic::div_mod::lemma_fundamental_div_mod(
                    intercepted as int,
                    d as int,
                );
                assert(d * fp <= intercepted);
                // the per-edge gain times the degree stays within the
                // consumed approach
                if d == 1 {
                    assert(d * (fp + bypassed) <= app) by (nonlinear_arith)
                        requires
                            d == 1,
                            fp + bypassed <= app,
                    ;
                } else {
                    assert(bypassed == 0);
                    assert(d * (fp + bypassed) == d * fp) by (nonlinear_arith)
                        requires
                            bypassed == 0,
                    ;
                }
                assert(d * (fp + bypassed) <= app);
                assert(tot@[u as int] + bin@[u as int] == app);
            }
            let ghost gain = fp + bypassed;
            for k in 0..m
                invariant
                    n == network.nodes@.len(),
                    m == edges@.len(),
                    m == network.conduits@.len(),
                    u < n,
                    0 < d,
                    tot@.len() == n,
                    bin@.len() == n,
                    iout@.len() == n,
                    bout@.len() == n,
                    cflow@.len() == m,
                    cdone@.len() == m,
                    ndone@.len() == n,
                    ndold.len() == n,
                    cdold.len() == m,
                    cfold.len() == m,
                    told.len() == n,
                    binold.len() == n,
                    !ndold[u as int],
                    ndone@ == ndold.update(u as int, true),
                    forall|k2: int| 0 <= k2 < m ==> (#[trigger] edges@[k2]).0 < n && edges@[
                        k2
                    ].1 < n,
                    forall|k2: int| 0 <= k2 < m && (#[trigger] edges@[k2]).0 == u ==> {
                        &&& !ndold[edges@[k2].1 as int]
                        &&& edges@[k2].1 != u
                    },
                    d == cnt_src(edges@, u as int, 0, m as int),
                    iout@[u as int] == intercepted,
                    bout@[u as int] == bypassed,
                    0 <= intercepted,
                    0 <= bypassed,
                    tot@[u as int] + bin@[u as int] == app,
                    app >= 0,
                    0 <= fp,
                    fp == div_trunc(intercepted as int, d as int),
                    gain == fp + bypassed,
                    d * gain <= app,
                    app <= sum0,
                    sum0 <= 100000000000000000,
                    // conduits scanned so far follow the new marking
                    forall|k2: int|
                        0 <= k2 < m ==> (#[trigger] cdone@[k2]) == (if k2 < k {
                            ndone@[edges@[k2].0 as int]
                        } else {
                            cdold[k2]
                        }),
                    forall|k2: int| 0 <= k2 < m ==> (#[trigger] cdold[k2]) == ndold[edges@[
                        k2
                    ].0 as int],
                    forall|k2: int|
                        k as int <= k2 < m ==> (#[trigger] cflow@[k2]) == cfold[k2],
                    forall|k2: int|
                        0 <= k2 < k && (#[trigger] edges@[k2]).0 != u ==> cflow@[k2] == cfold[
                            k2
                        ],
                    forall|k2: int|
                        0 <= k2 < k && (#[trigger] edges@[k2]).0 == u ==> cflow@[k2] == fp,
                    forall|v: int|
                        0 <= v < n && (#[trigger] ndone@[v]) ==> bout@[v] == tot@[v] + bin@[v]
                            - iout@[v],
                    forall|k2: int|
                        0 <= k2 < m && (#[trigger] cdone@[k2]) ==> cflow@[k2] as int
                            == div_trunc(
                            iout@[edges@[k2].0 as int] as int,
                            cnt_src(edges@, edges@[k2].0 as int, 0, m as int),
                        ) && cnt_src(edges@, edges@[k2].0 as int, 0, m as int) >= 1,
                    // totals and bypass accumulators balance against
                    // the mixed routing state
                    forall|v: int|
                        0 <= v < n ==> (#[trigger] tot@[v]) as int == spec_inflow(
                            node_inflows.entries@,
                            network.nodes@[v].id@,
                        ) + sum_into_idx(edges@, cdone@, cflow@, v, 0, k as int)
                            + sum_into_idx(edges@, cdold, cfold, v, k as int, m as int),
                    forall|v: int|
                        0 <= v < n ==> (#[trigger] bin@[v]) as int == sum_src_into(
                            edges@,
                            cdone@,
                            bout@,
                            v,
                            0,
                            k as int,
                        ) + sum_src_into(edges@, cdold, bout@, v, k as int, m as int),
                    forall|v: int|
                        0 <= v < n ==> (#[trigger] tot@[v]) >= 0 && bin@[v] >= 0 && iout@[v]
                            >= 0 && bout@[v] >= 0,
                    forall|k2: int| 0 <= k2 < m ==> (#[trigger] cflow@[k2]) >= 0,
                    crate::seqs::sum_seq(unproc_budget(ndone@, tot@, bin@, n as int)) <= sum0
                        - app + cnt_src(edges@, u as int, 0, k as int) * gain,
            {
                proof {
                    lemma_cnt_src_peel_lo(edges@, u as int, k as int, m as int);
                    lemma_cnt_src_split(edges@, u as int, 0, k as int, m as int);
                    lemma_cnt_src_bounds(edges@, u as int, 0, k as int);
                    lemma_cnt_src_bounds(edges@, u as int, k + 1, m as int);
                }
                if edges[k].0 == u {
                    let t = edges[k].1;
                    let ghost tmid = tot@;
                    let ghost binmid = bin@;
                    let ghost cdmid = cdone@;
                    let ghost cfmid = cflow@;
                    cflow.set(k, fp);
                    cdone.set(k, true);
                    proof {
                        assert(!ndone@[t as int]);
                        assert((cnt_src(edges@, u as int, 0, k as int) + 1) * gain == cnt_src(
                            edges@,
                            u as int,
                            0,
                            k as int,
                        ) * gain + gain) by (nonlinear_arith);
                        crate::seqs::lemma_sum_bounds_element(
                            unproc_budget(ndone@, tot@, bin@, n as int),
                            t as int,
                        );
                        assert(unproc_budget(ndone@, tot@, bin@, n as int)[t as int] == tot@[
                            t as int
                        ] + bin@[t as int]);
                        assert(cnt_src(edges@, u as int, 0, k as int) * gain <= d * gain)
                            by (nonlinear_arith)
                            requires
                                0 <= gain,
                                cnt_src(edges@, u as int, 0, k as int) <= d,
                        ;
                        assert(gain <= d * gain) by (nonlinear_arith)
                            requires
                                0 <= gain,
                                1 <= d,
                        ;
                        assert(fp <= gain && bypassed <= gain);
                        assert(gain <= app && app <= sum0 && sum0 <= 100000000000000000);
                        assert(tot@[t as int] + bin@[t as int] <= sum0);
                    }
                    let tw = tot[t];
                    tot.set(t, tw + fp);
                    let bw = bin[t];
                    bin.set(t, bw + bypassed);
                    proof {
                        assert(unproc_budget(ndone@, tot@, bin@, n as int) =~= unproc_budget(
                            ndone@,
                            tmid,
                            binmid,
                            n as int,
                        ).update(t as int, tw + fp + bw + bypassed));
                        crate::seqs::lemma_sum_update(
                            unproc_budget(ndone@, tmid, binmid, n as int),
                            t as int,
                            tw + fp + bw + bypassed,
                        );
                        // the balance moves one edge from the stale to
                        // the fresh side
                        assert forall|v: int| 0 <= v < n implies (#[trigger] tot@[v]) as int
                            == spec_inflow(node_inflows.entries@, network.nodes@[v].id@)
                            + sum_into_idx(edges@, cdone@, cflow@, v, 0, k + 1) + sum_into_idx(
                            edges@,
                            cdold,
                            cfold,
                            v,
                            k + 1,
                            m as int,
                        ) by {
                            lemma_sum_into_peel_lo(edges@, cdold, cfold, v, k as int, m as int);
                            lemma_sum_into_same(
                                edges@,
                                cdmid,
                                cfmid,
                                cdone@,
                                cflow@,
                                v,
                                0,
                                k as int,
                            );
                            assert(!cdold[k as int]);
                            assert(sum_into_idx(edges@, cdone@, cflow@, v, 0, k + 1)
                                == sum_into_idx(edges@, cdone@, cflow@, v, 0, k as int) + (
                            if edges@[k as int].1 == v {
                                fp as int
                            } else {
                                0int
                            }));
                        }
                        assert forall|v: int| 0 <= v < n implies (#[trigger] bin@[v]) as int
                            == sum_src_into(edges@, cdone@, bout@, v, 0, k + 1) + sum_src_into(
                            edges@,
                            cdold,
                            bout@,
                            v,
                            k + 1,
                            m as int,
                        ) by {
                            lemma_sum_src_peel_lo(edges@, cdold, bout@, v, k as int, m as int);
                            lemma_sum_src_same(
                                edges@,
                                cdmid,
                                bout@,
                                cdone@,
                                bout@,
                                v,
                                0,
                                k as int,
                            );
                            assert(!cdold[k as int]);
                            assert(sum_src_into(edges@, cdone@, bout@, v, 0, k + 1)
                                == sum_src_into(edges@, cdone@, bout@, v, 0, k as int) + (
                            if edges@[k as int].1 == v {
                                bypassed as int
                            } else {
                                0int
                            }));
                        }
                    }
                } else {
                    proof {
                        assert forall|v: int| 0 <= v < n implies (#[trigger] tot@[v]) as int
                            == spec_inflow(node_inflows.entries@, network.nodes@[v].id@)
                            + sum_into_idx(edges@, cdone@, cflow@, v, 0, k + 1) + sum_into_idx(
                            edges@,
                            cdold,
                            cfold,
                            v,
                            k + 1,
                            m as int,
                        ) by {
                            lemma_sum_into_peel_lo(edges@, cdold, cfold, v, k as int, m as int);
                            assert(cdone@[k as int] == cdold[k as int]);
                            assert(cflow@[k as int] == cfold[k as int]);
                            assert(sum_into_idx(edges@, cdone@, cflow@, v, 0, k + 1)
                                == sum_into_idx(edges@, cdone@, cflow@, v, 0, k as int) + (
                            if edges@[k as int].1 == v && cdone@[k as int] {
                                cflow@[k as int] as int
                            } else {
                                0int
                            }));
                        }
                        assert forall|v: int| 0 <= v < n implies (#[trigger] bin@[v]) as int
                            == sum_src_into(edges@, cdone@, bout@, v, 0, k + 1) + sum_src_into(
                            edges@,
                            cdold,
                            bout@,
                            v,
                            k + 1,
                            m as int,
                        ) by {
                            lemma_sum_src_peel_lo(edges@, cdold, bout@, v, k as int, m as int);
                            assert(cdone@[k as int] == cdold[k as int]);
                            assert(sum_src_into(edges@, cdone@, bout@, v, 0, k + 1)
                                == sum_src_into(edges@, cdone@, bout@, v, 0, k as int) + (
                            if edges@[k as int].1 == v && cdone@[k as int] {
                                bout@[edges@[k as int].0 as int] as int
                            } else {
                                0int
                            }));
                        }
                    }
                }
            }
            proof {
                assert forall|v: int| 0 <= v < n implies (#[trigger] tot@[v]) as int
                    == spec_inflow(node_inflows.entries@, network.nodes@[v].id@) + sum_into_idx(
                    edges@,
                    cdone@,
                    cflow@,
                    v,
                    0,
                    m as int,
                ) by {
                    assert(sum_into_idx(edges@, cdold, cfold, v, m as int, m as int) == 0);
                }
                assert forall|v: int| 0 <= v < n implies (#[trigger] bin@[v]) as int
                    == sum_src_into(edges@, cdone@, bout@, v, 0, m as int) by {
                    assert(sum_src_into(edges@, cdold, bout@, v, m as int, m as int) == 0);
                }
            }
        } else {
            proof {
                lemma_cnt_src_bounds(edges@, u as int, 0, m as int);
                assert forall|v: int| 0 <= v < n implies (#[trigger] tot@[v]) as int
                    == spec_inflow(node_inflows.entries@, network.nodes@[v].id@) + sum_into_idx(
                    edges@,
                    cdone@,
                    cflow@,
                    v,
                    0,
                    m as int,
                ) by {
                    lemma_sum_into_same(edges@, cdold, cfold, cdone@, cflow@, v, 0, m as int);
                }
            }
        }
    }

    // With every node finished, each conduit carries its final flow.
    proof {
        assert forall|k: int| 0 <= k < m implies (#[trigger] cdone@[k]) by {
            assert(order@.contains(#[trigger] (edges@[k].0 as int as usize)));
            let q = choose|q: int| 0 <= q < order@.len() && order@[q] == (edges@[k].0 as usize);
            assert(ndone@[edges@[k].0 as int]);
        }
        assert forall|v: int| 0 <= v < n implies (#[trigger] ndone@[v]) by {
            assert(order@.contains(#[trigger] (v as usize)));
            let q = choose|q: int| 0 <= q < order@.len() && order@[q] == (v as usize);
        }
    }
    let mut fresult: Vec<(String, i64)> = Vec::new();
    for j in 0..m
        invariant
            m == network.conduits@.len(),
            cflow@.len() == m,
            fresult@.len() == j,
            forall|j2: int|
                0 <= j2 < j ==> (#[trigger] fresult@[j2]).0@ == network.conduits@[j2].id@,
            forall|j2: int| 0 <= j2 < j ==> (#[trigger] fresult@[j2]).1 == cflow@[j2],
    {
        let id = network.conduits[j].id.clone();
        fresult.push((id, cflow[j]));
    }
    let mut iresult: Vec<(String, i64)> = Vec::new();
    let mut bresult: Vec<(String, i64)> = Vec::new();
    for v in 0..n
        invariant
            n == network.nodes@.len(),
            iout@.len() == n,
            bout@.len() == n,
            iresult@.len() == v,
            bresult@.len() == v,
            forall|v2: int|
                0 <= v2 < v ==> (#[trigger] iresult@[v2]).0@ == network.nodes@[v2].id@,
            forall|v2: int| 0 <= v2 < v ==> (#[trigger] iresult@[v2]).1 == iout@[v2],
            forall|v2: int|
                0 <= v2 < v ==> (#[trigger] bresult@[v2]).0@ == network.nodes@[v2].id@,
            forall|v2: int| 0 <= v2 < v ==> (#[trigger] bresult@[v2]).1 == bout@[v2],
    {
        let id = network.nodes[v].id.clone();
        let id2 = network.nodes[v].id.clone();
        iresult.push((id, iout[v]));
        bresult.push((id2, bout[v]));
    }
    proof {
        // identifier-based sums agree with the index-based state
        assert forall|v: int|
            0 <= v < n implies (#[trigger] iresult@[v]).1 + bresult@[v].1 == spec_inflow(
            node_inflows.entries@,
            network.nodes@[v].id@,
        ) + spec_flow_into(network.conduits@, fresult@, network.nodes@[v].id@, m as int)
            + spec_bypass_into(network.conduits@, bresult@, network.nodes@[v].id@, m as int) by {
            assert(iresult@[v].1 == iout@[v] && bresult@[v].1 == bout@[v]);
            assert(ndone@[v]);
            assert(bout@[v] == tot@[v] + bin@[v] - iout@[v]);
            assert(tot@[v] as int == spec_inflow(node_inflows.entries@, network.nodes@[v].id@)
                + sum_into_idx(edges@, cdone@, cflow@, v, 0, m as int));
            assert(bin@[v] as int == sum_src_into(edges@, cdone@, bout@, v, 0, m as int));
            lemma_sum_into_agrees(
                network.nodes@,
                network.conduits@,
                edges@,
                cdone@,
                cflow@,
                fresult@,
                v,
                m as int,
            );
            lemma_sum_src_agrees(
                network.nodes@,
                network.conduits@,
                edges@,
                cdone@,
                bout@,
                bresult@,
                v,
                m as int,
            );
        }
        // interception follows the supplied efficiency at on-grade
        // inlets, and nothing bypasses any other node
        assert forall|v: int|
            0 <= v < n && spec_is_on_grade_inlet(#[trigger] network.nodes@[v]) implies iresult@[
            v
        ].1 as int == div_trunc(
            (iresult@[v].1 + bresult@[v].1) * spec_eff(
                net_efficiency.entries@,
                network.nodes@[v].id@,
            ),
            1000,
        ) by {
            assert(ndone@[v]);
            assert(bout@[v] == tot@[v] + bin@[v] - iout@[v]);
            assert(iout@[v] as int == div_trunc(
                (tot@[v] + bin@[v]) * spec_eff(net_efficiency.entries@, network.nodes@[v].id@),
                1000,
            ));
        }
        assert forall|v: int|
            0 <= v < n && !spec_is_on_grade_inlet(#[trigger] network.nodes@[v]) implies bresult@[
            v
        ].1 == 0 by {
            assert(ndone@[v]);
            assert(iout@[v] == tot@[v] + bin@[v]);
            assert(bout@[v] == tot@[v] + bin@[v] - iout@[v]);
        }
        assert forall|j: int|
            0 <= j < m implies (#[trigger] fresult@[j]).1 as int == div_trunc(
            spec_lookup(iresult@, network.conduits@[j].from_node@)->0 as int,
            spec_outdeg(network.conduits@, network.conduits@[j].from_node@, m as int),
        ) && spec_lookup(iresult@, network.conduits@[j].from_node@) is Some by {
            let v = edges@[j].0 as int;
            lemma_lookup_aligned(network.nodes@, iresult@, v);
            lemma_outdeg_agrees(network.nodes@, network.conduits@, edges@, v, m as int);
            assert(cdone@[j]);
            assert(cflow@[j] as int == div_trunc(
                iout@[v] as int,
                cnt_src(edges@, v, 0, m as int),
            ));
        }
        assert forall|v: int|
            0 <= v < n implies (#[trigger] iresult@[v]).1 >= 0 && bresult@[v].1 >= 0 by {
            assert(tot@[v] >= 0);
        }
        // distinct conduit identifiers make the flow entries a map
        assert forall|i: int, j: int|
            0 <= i < j < fresult@.len() implies (#[trigger] fresult@[i]).0@ != (
        #[trigger] fresult@[j]).0@ by {
            assert(network.conduits@[i].id@ != network.conduits@[j].id@);
        }
        assert(spec_routed_with_inlets(
            network.nodes@,
            network.conduits@,
            node_inflows.entries@,
            net_efficiency.entries@,
            FlowMap { entries: fresult },
            FlowMap { entries: iresult },
            FlowMap { entries: bresult },
        ));
    }
    (FlowMap { entries: fresult }, FlowMap { entries: iresult }, FlowMap { entries: bresult })
}

/// Route node inflows to per-conduit flows with inlet interception
/// and surface bypass, the caller supplying each on-grade inlet's net
/// interception efficiency in thousandths (computed from the gutter
/// and inlet geometry; an inlet without an entry captures everything).
///
/// The network is validated first: node and conduit identifiers must
/// be unique and every conduit endpoint must exist.  The nodes are
/// then processed in a topological order; each node's approach flow is
/// its direct inflow plus delivered pipe flow plus arriving bypass; an
/// on-grade inlet keeps the net fraction and passes the rest whole to
/// its surface successor, every other node passes its whole approach
/// into the system, split evenly over its outgoing conduits.  Returns
/// the conduit flows, the intercepted flow per node and the bypass per
/// node, satisfying those balance equations exactly.
pub fn route_flows_with_inlets(
    network: &Network,
    node_inflows: &FlowMap,
    net_efficiency: &FlowMap,
) -> (r: Result<(FlowMap, FlowMap, FlowMap), NetworkError>)
    requires
        node_inflows.wf(),
        network.nodes@.len() <= 100000,
        network.conduits@.len() <= 1000000000,
        forall|j: int|
            0 <= j < node_inflows.entries@.len() ==> 0 <= (
            #[trigger] node_inflows.entries@[j]).1 <= 1000000000000,
        net_efficiency.wf(),
        forall|j: int|
            0 <= j < net_efficiency.entries@.len() ==> 0 <= (
            #[trigger] net_efficiency.entries@[j]).1 <= 1000,
        // a surface bypass continues along one route: an on-grade
        // inlet takes a single outgoing conduit, else the whole-bypass
        // duplication could exceed any fixed-width flow
        forall|v: int|
            0 <= v < network.nodes@.len() && spec_is_on_grade_inlet(#[trigger] network.nodes@[v])
                ==> spec_outdeg(
                network.conduits@,
                network.nodes@[v].id@,
                network.conduits@.len() as int,
            ) <= 1,
    ensures
        match r {
            Ok(routed) => {
                &&& spec_unique_node_ids(network.nodes@)
                &&& spec_unique_conduit_ids(network.conduits@)
                &&& crate::network::spec_connected(network.nodes@, network.conduits@)
                &&& spec_routed_with_inlets(
                    network.nodes@,
                    network.conduits@,
                    node_inflows.entries@,
                    net_efficiency.entries@,
                    routed.0,
                    routed.1,
                    routed.2,
                )
            },
            Err(e) => match e {
                NetworkError::DuplicateId(_) => !spec_unique_node_ids(network.nodes@)
                    || !spec_unique_conduit_ids(network.conduits@),
                NetworkError::DanglingEndpoint(_, _) => !crate::network::spec_connected(
                    network.nodes@,
                    network.conduits@,
                ),
                NetworkError::CycleDetected(_) => exists|mark: Seq<bool>|
                    spec_cycle_witness(network.nodes@, network.conduits@, mark),
                _ => false,
            },
        },
{
    if let Some(i) = find_duplicate_node_id(&network.nodes) {
        return Err(NetworkError::DuplicateId(network.nodes[i].id.clone()));
    }
    if let Some(i) = find_duplicate_conduit_id(&network.conduits) {
        return Err(NetworkError::DuplicateId(network.conduits[i].id.clone()));
    }
    let edges = match build_edges(network) {
        Ok(edges) => edges,
        Err(e) => {
            return Err(e);
        },
    };
    proof {
        assert forall|j: int| 0 <= j < network.conduits@.len() implies
            crate::network::spec_has_node(
            network.nodes@,
            #[trigger] network.conduits@[j].from_node@,
        ) && crate::network::spec_has_node(network.nodes@, network.conduits@[j].to_node@) by {
            assert(network.nodes@[edges@[j].0 as int].id@ == network.conduits@[j].from_node@);
            assert(network.nodes@[edges@[j].1 as int].id@ == network.conduits@[j].to_node@);
        }
        assert(crate::network::spec_connected(network.nodes@, network.conduits@));
        assert forall|v: int|
            0 <= v < network.nodes@.len() && spec_is_on_grade_inlet(
                #[trigger] network.nodes@[v],
            ) implies cnt_src(edges@, v, 0, edges@.len() as int) <= 1 by {
            lemma_outdeg_agrees(
                network.nodes@,
                network.conduits@,
                edges@,
                v,
                edges@.len() as int,
            );
        }
    }
    let n = network.nodes.len();
    match topo_sort(n, &edges) {
        Ok(order) => {
            let routed = route_inlets_on_order(
                network,
                &edges,
                &order,
                node_inflows,
                net_efficiency,
            );
            Ok(routed)
        },
        Err(done) => {
            let mut v: usize = 0;
            let ghost mark = done@;
            while v < n && done[v]
                invariant
                    n == network.nodes@.len(),
                    done@.len() == n,
                    v <= n,
                    mark == done@,
                    forall|w: int| 0 <= w < v ==> (#[trigger] done@[w]),
                decreases n - v,
            {
                v = v + 1;
            }
            proof {
                if v == n {
                    let w0 = choose|w: int| 0 <= w < n && !done@[w];
                    assert(false);
                }
                assert(v < n && !done@[v as int]);
                lemma_cycle_witness_from_indices(
                    network.nodes@,
                    network.conduits@,
                    edges@,
                    mark,
                );
            }
            Err(NetworkError::CycleDetected(network.nodes[v].id.clone()))
        },
    }
}

/// The tailwater elevation an outfall starts the sweep from, by its
/// boundary condition: a free outfall starts at its invert, a
/// normal-depth outfall at its tailwater or invert, and a fixed-stage
/// or tidal outfall needs an explicit tailwater elevation.
pub fn tailwater_elevation(node: &Node) -> (r: Result<i64, NetworkError>)
    ensures
        r == match node.outfall {
            None => Err::<i64, NetworkError>(
                NetworkError::KindMismatch(node.id, NodeType::Outfall, node.node_type),
            ),
            Some(props) => match props.boundary_condition {
                BoundaryCondition::Free => Ok::<i64, NetworkError>(node.invert_elevation),
                BoundaryCondition::NormalDepth => Ok::<i64, NetworkError>(
                    match props.tailwater_elevation {
                        Some(tw) => tw,
                        None => node.invert_elevation,
                    },
                ),
                BoundaryCondition::FixedStage | BoundaryCondition::Tidal => match props
                    .tailwater_elevation {
                    Some(tw) => Ok::<i64, NetworkError>(tw),
                    None => Err::<i64, NetworkError>(
                        NetworkError::MissingTailwater(node.id, props.boundary_condition),
                    ),
                },
            },
        },
{
    match &node.outfall {
        None => Err(
            NetworkError::KindMismatch(node.id.clone(), NodeType::Outfall, node.node_type),
        ),
        Some(props) => match props.boundary_condition {
            BoundaryCondition::Free => Ok(node.invert_elevation),
            BoundaryCondition::NormalDepth => match props.tailwater_elevation {
                Some(tw) => Ok(tw),
                None => Ok(node.invert_elevation),
            },
            BoundaryCondition::FixedStage | BoundaryCondition::Tidal => match props
                .tailwater_elevation {
                Some(tw) => Ok(tw),
                None => Err(
                    NetworkError::MissingTailwater(node.id.clone(), props.boundary_condition),
                ),
            },
        },
    }
}

/// Check that the network has at least one outfall, the sweep's
/// starting points.
pub fn check_has_outfall(network: &Network) -> (r: Result<(), NetworkError>)
    ensures
        r is Ok <==> exists|i: int|
            0 <= i < network.nodes@.len() && (#[trigger] network.nodes@[i]).node_type
                == NodeType::Outfall,
        r is Err ==> r->Err_0 == NetworkError::NoOutfall,
{
    let n = network.nodes.len();
    for i in 0..n
        invariant
            n == network.nodes@.len(),
            forall|j: int| 0 <= j < i ==> (#[trigger] network.nodes@[j]).node_type
                != NodeType::Outfall,
    {
        if network.nodes[i].node_type == NodeType::Outfall {
            proof {
                assert(0 <= i < network.nodes@.len() && network.nodes@[i as int].node_type
                    == NodeType::Outfall);
            }
            return Ok(());
        }
    }
    Err(NetworkError::NoOutfall)
}

/// The result record of one node, from the computed grade lines: the
/// depth and pressure head are the grade above the invert, and the
/// node floods exactly when the grade tops its rim.
pub open spec fn spec_node_result(
    node: Node,
    hgls: Seq<(String, i64)>,
    egls: Seq<(String, i64)>,
    junction_losses: Seq<(String, i64)>,
) -> crate::analysis::NodeResult {
    let h = spec_lookup(hgls, node.id@)->0;
    crate::analysis::NodeResult {
        node_id: node.id,
        hgl: Some(h),
        egl: Some(
            match spec_lookup(egls, node.id@) {
                Some(e) => e,
                None => h,
            },
        ),
        depth: Some((h - node.invert_elevation) as i64),
        velocity: Some(0i64),
        flooding: Some(
            match node.rim_elevation {
                Some(rim) => h > rim,
                None => false,
            },
        ),
        pressure_head: Some((h - node.invert_elevation) as i64),
        junction_loss: spec_lookup(junction_losses, node.id@),
    }
}

/// Assemble the per-node results of a sweep: one record for each node
/// with a computed hydraulic grade line, in network order.
pub fn assemble_node_results(
    network: &Network,
    hgls: &FlowMap,
    egls: &FlowMap,
    junction_losses: &FlowMap,
) -> (r: Vec<crate::analysis::NodeResult>)
    requires
        forall|j: int|
            0 <= j < hgls.entries@.len() ==> -1000000000000000 <= (
            #[trigger] hgls.entries@[j]).1 <= 1000000000000000,
        forall|i: int|
            0 <= i < network.nodes@.len() ==> -1000000000000000 <= (
            #[trigger] network.nodes@[i]).invert_elevation <= 1000000000000000,
    ensures
        ({
            let picked = network.nodes@.filter(
                |nd: Node| spec_lookup(hgls.entries@, nd.id@) is Some,
            );
            &&& r@.len() == picked.len()
            &&& forall|k: int|
                0 <= k < r@.len() ==> (#[trigger] r@[k]) == spec_node_result(
                    picked[k],
                    hgls.entries@,
                    egls.entries@,
                    junction_losses.entries@,
                )
        }),
{
    let pred = Ghost(|nd: Node| spec_lookup(hgls.entries@, nd.id@) is Some);
    let mut result: Vec<crate::analysis::NodeResult> = Vec::new();
    let n = network.nodes.len();
    assert(network.nodes@.subrange(0, 0).filter(pred@) =~= Seq::<Node>::empty());
    for i in 0..n
        invariant
            n == network.nodes@.len(),
            forall|j: int|
                0 <= j < hgls.entries@.len() ==> -1000000000000000 <= (
                #[trigger] hgls.entries@[j]).1 <= 1000000000000000,
            forall|i2: int|
                0 <= i2 < n ==> -1000000000000000 <= (
                #[trigger] network.nodes@[i2]).invert_elevation <= 1000000000000000,
            result@.len() == network.nodes@.subrange(0, i as int).filter(pred@).len(),
            forall|k: int|
                0 <= k < result@.len() ==> (#[trigger] result@[k]) == spec_node_result(
                    network.nodes@.subrange(0, i as int).filter(pred@)[k],
                    hgls.entries@,
                    egls.entries@,
                    junction_losses.entries@,
                ),
            pred@ == (|nd: Node| spec_lookup(hgls.entries@, nd.id@) is Some),
    {
        proof {
            assert(network.nodes@.subrange(0, i + 1) =~= network.nodes@.subrange(0, i as int).push(
                network.nodes@[i as int],
            ));
            crate::seqs::lemma_filter_push(
                network.nodes@.subrange(0, i as int),
                pred@,
                network.nodes@[i as int],
            );
        }
        let node = &network.nodes[i];
        match hgls.get(node.id.as_str()) {
            Some(h) => {
                proof {
                    lemma_lookup_bounds(
                        hgls.entries@,
                        node.id@,
                        -1000000000000000i64,
                        1000000000000000i64,
                    );
                }
                let egl = match egls.get(node.id.as_str()) {
                    Some(e) => e,
                    None => h,
                };
                let flooding = match node.rim_elevation {
                    Some(rim) => h > rim,
                    None => false,
                };
                result.push(crate::analysis::NodeResult {
                    node_id: node.id.clone(),
                    hgl: Some(h),
                    egl: Some(egl),
                    depth: Some(h - node.invert_elevation),
                    velocity: Some(0),
                    flooding: Some(flooding),
                    pressure_head: Some(h - node.invert_elevation),
                    junction_loss: junction_losses.get(node.id.as_str()),
                });
            },
            None => {},
        }
    }
    proof {
        assert(network.nodes@.subrange(0, n as int) =~= network.nodes@);
    }
    result
}

/// The violations pass over the hydraulic grade line: one violation of
/// severity `Error` for exactly the nodes whose computed grade tops
/// their rim elevation.
pub fn hgl_violations(network: &Network, hgls: &FlowMap) -> (r: Vec<crate::analysis::Violation>)
    requires
        forall|j: int|
            0 <= j < hgls.entries@.len() ==> -1000000000000000 <= (
            #[trigger] hgls.entries@[j]).1 <= 1000000000000000,
        forall|i: int|
            0 <= i < network.nodes@.len() ==> ((#[trigger] network.nodes@[i]).rim_elevation
                is Some ==> -1000000000000000 <= network.nodes@[i].rim_elevation->0
                <= 1000000000000000),
    ensures
        ({
            let picked = network.nodes@.filter(
                |nd: Node|
                    {
                        &&& spec_lookup(hgls.entries@, nd.id@) is Some
                        &&& nd.rim_elevation is Some
                        &&& spec_lookup(hgls.entries@, nd.id@)->0 > nd.rim_elevation->0
                    },
            );
            &&& r@.len() == picked.len()
            &&& forall|k: int| 0 <= k < r@.len() ==> {
                &&& (#[trigger] r@[k]).violation_type == crate::analysis::ViolationType::Hgl
                &&& r@[k].severity == crate::analysis::Severity::Error
                &&& r@[k].element_id == picked[k].id
                &&& r@[k].value == Some(spec_lookup(hgls.entries@, picked[k].id@)->0)
                &&& r@[k].limit == picked[k].rim_elevation
            }
        }),
{
    let pred = Ghost(
        |nd: Node|
            {
                &&& spec_lookup(hgls.entries@, nd.id@) is Some
                &&& nd.rim_elevation is Some
                &&& spec_lookup(hgls.entries@, nd.id@)->0 > nd.rim_elevation->0
            },
    );
    let mut result: Vec<crate::analysis::Violation> = Vec::new();
    let n = network.nodes.len();
    assert(network.nodes@.subrange(0, 0).filter(pred@) =~= Seq::<Node>::empty());
    for i in 0..n
        invariant
            n == network.nodes@.len(),
            forall|j: int|
                0 <= j < hgls.entries@.len() ==> -1000000000000000 <= (
                #[trigger] hgls.entries@[j]).1 <= 1000000000000000,
            forall|i2: int|
                0 <= i2 < n ==> ((#[trigger] network.nodes@[i2]).rim_elevation is Some
                    ==> -1000000000000000 <= network.nodes@[i2].rim_elevation->0
                    <= 1000000000000000),
            result@.len() == network.nodes@.subrange(0, i as int).filter(pred@).len(),
            forall|k: int| 0 <= k < result@.len() ==> {
                &&& (#[trigger] result@[k]).violation_type == crate::analysis::ViolationType::Hgl
                &&& result@[k].severity == crate::analysis::Severity::Error
                &&& result@[k].element_id == network.nodes@.subrange(0, i as int).filter(pred@)[
                    k
                ].id
                &&& result@[k].value == Some(
                    spec_lookup(
                        hgls.entries@,
                        network.nodes@.subrange(0, i as int).filter(pred@)[k].id@,
                    )->0,
                )
                &&& result@[k].limit == network.nodes@.subrange(0, i as int).filter(pred@)[
                    k
                ].rim_elevation
            },
            pred@ == (|nd: Node|
                {
                    &&& spec_lookup(hgls.entries@, nd.id@) is Some
                    &&& nd.rim_elevation is Some
                    &&& spec_lookup(hgls.entries@, nd.id@)->0 > nd.rim_elevation->0
                }),
    {
        proof {
            assert(network.nodes@.subrange(0, i + 1) =~= network.nodes@.subrange(0, i as int).push(
                network.nodes@[i as int],
            ));
            crate::seqs::lemma_filter_push(
                network.nodes@.subrange(0, i as int),
                pred@,
                network.nodes@[i as int],
            );
        }
        let node = &network.nodes[i];
        match hgls.get(node.id.as_str()) {
            Some(h) => match node.rim_elevation {
                Some(rim) => {
                    if h > rim {
                        proof {
                            lemma_lookup_bounds(
                                hgls.entries@,
                                node.id@,
                                -1000000000000000i64,
                                1000000000000000i64,
                            );
                        }
                        let violation = crate::analysis::Violation::hgl_violation(
                            node.id.clone(),
                            h,
                            rim,
                            crate::analysis::Severity::Error,
                        );
                        result.push(violation);
                    }
                },
                None => {},
            },
            None => {},
        }
    }
    proof {
        assert(network.nodes@.subrange(0, n as int) =~= network.nodes@);
    }
    result
}

/// The flow that the first `upto` conduits carry out of the node with


/// the given identifier, reading each conduit's flow from the entry at
/// its own position.
pub open spec fn spec_flow_out(
    conduits: Seq<Conduit>,
    entries: Seq<(String, i64)>,
    id: Seq<char>,
    upto: int,
) -> int
    decreases upto,
{
    if upto <= 0 {
        0
    } else {
        spec_flow_out(conduits, entries, id, upto - 1) + if conduits[upto - 1].from_node@ == id {
            entries[upto - 1].1 as int
        } else {
            0int
        }
    }
}

/// When every conduit out of a node carries the same share, the total
/// carried out is the out-degree times that share.
proof fn lemma_flow_out_even(
    conduits: Seq<Conduit>,
    entries: Seq<(String, i64)>,
    id: Seq<char>,
    q: int,
    upto: int,
)
    requires
        entries.len() == conduits.len(),
        0 <= upto <= conduits.len(),
        forall|j: int|
            0 <= j < conduits.len() && (#[trigger] conduits[j]).from_node@ == id ==> entries[
                j
            ].1 as int == q,
    ensures
        spec_flow_out(conduits, entries, id, upto) == spec_outdeg(conduits, id, upto) * q,
    decreases upto,
{
    if upto > 0 {
        lemma_flow_out_even(conduits, entries, id, q, upto - 1);
        if conduits[upto - 1].from_node@ == id {
            assert(spec_outdeg(conduits, id, upto) * q == spec_outdeg(conduits, id, upto - 1) * q
                + q) by (nonlinear_arith)
                requires
                    spec_outdeg(conduits, id, upto) == spec_outdeg(conduits, id, upto - 1) + 1,
            ;
        }
    }
}

/// Mass balance at a routed node.  Routing assigns every conduit out
/// of one node the same even share of the node's accumulated total, so
/// the flows leaving the node sum to that total, less only the integer
/// remainder of the even split; with a single outgoing conduit the
/// balance is exact.  The hypotheses are exactly what `route_flows`
/// ensures for the conduits leaving one node.
pub proof fn lemma_mass_balance_at_node(
    conduits: Seq<Conduit>,
    entries: Seq<(String, i64)>,
    id: Seq<char>,
    total: int,
)
    requires
        entries.len() == conduits.len(),
        total >= 0,
        spec_outdeg(conduits, id, conduits.len() as int) >= 1,
        forall|j: int|
            0 <= j < conduits.len() && (#[trigger] conduits[j]).from_node@ == id ==> entries[
                j
            ].1 as int == div_trunc(total, spec_outdeg(conduits, id, conduits.len() as int)),
    ensures
        spec_flow_out(conduits, entries, id, conduits.len() as int) == total - total % spec_outdeg(
            conduits,
            id,
            conduits.len() as int,
        ),
        spec_outdeg(conduits, id, conduits.len() as int) == 1 ==> spec_flow_out(
            conduits,
            entries,
            id,
            conduits.len() as int,
        ) == total,
{
    let d = spec_outdeg(conduits, id, conduits.len() as int);
    let q = div_trunc(total, d);
    lemma_flow_out_even(conduits, entries, id, q, conduits.len() as int);
    vstd::arithmetic::div_mod::lemma_fundamental_div_mod(total, d);
    if d == 1 {
        vstd::arithmetic::div_mod::lemma_mod_self_0(1);
        assert(total % 1int == 0) by {
            vstd::arithmetic::div_mod::lemma_small_mod(0nat, 1nat);
            vstd::arithmetic::div_mod::lemma_fundamental_div_mod(total, 1);
        }
    }
}

} // verus!
