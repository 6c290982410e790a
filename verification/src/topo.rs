//! Topological ordering of a directed graph by Kahn's algorithm:
//! repeatedly remove nodes with no unprocessed predecessor.
//!
//! The graph is given as a count of nodes and a list of edges over node
//! indices.  On success the order is a duplicate-free permutation that
//! places every edge's source before its target; on failure the
//! returned marking is a certificate of a cycle: some node is unmarked,
//! and every unmarked node has an unmarked predecessor.

use vstd::prelude::*;

verus! {

/// Whether edge `k` still blocks node `v`: it points into `v` and its
/// source is not yet done.
pub open spec fn pending(edges: Seq<(usize, usize)>, done: Seq<bool>, k: int, v: int) -> bool {
    edges[k].1 == v && !done[edges[k].0 as int]
}

/// The number of edges with index in `[lo, hi)` that still block `v`.
pub open spec fn cnt(edges: Seq<(usize, usize)>, done: Seq<bool>, v: int, lo: int, hi: int) -> int
    decreases hi - lo,
{
    if lo >= hi {
        0
    } else {
        cnt(edges, done, v, lo, hi - 1) + if pending(edges, done, hi - 1, v) {
            1int
        } else {
            0int
        }
    }
}

/// The count over `[lo, hi)` splits off its first edge.
proof fn lemma_cnt_peel_lo(edges: Seq<(usize, usize)>, done: Seq<bool>, v: int, lo: int, hi: int)
    requires
        lo < hi,
    ensures
        cnt(edges, done, v, lo, hi) == cnt(edges, done, v, lo + 1, hi) + if pending(
            edges,
            done,
            lo,
            v,
        ) {
            1int
        } else {
            0int
        },
    decreases hi - lo,
{
    if lo + 1 < hi {
        lemma_cnt_peel_lo(edges, done, v, lo, hi - 1);
    } else {
        assert(cnt(edges, done, v, lo, hi - 1) == 0);
        assert(cnt(edges, done, v, lo + 1, hi) == 0);
    }
}

/// The count is bounded by the width of the range.
proof fn lemma_cnt_bounds(edges: Seq<(usize, usize)>, done: Seq<bool>, v: int, lo: int, hi: int)
    requires
        lo <= hi,
    ensures
        0 <= cnt(edges, done, v, lo, hi) <= hi - lo,
    decreases hi - lo,
{
    if lo < hi {
        lemma_cnt_bounds(edges, done, v, lo, hi - 1);
    }
}

/// A zero count means no edge in the range blocks `v`.
proof fn lemma_cnt_zero(edges: Seq<(usize, usize)>, done: Seq<bool>, v: int, lo: int, hi: int)
    requires
        lo <= hi,
        cnt(edges, done, v, lo, hi) == 0,
    ensures
        forall|k: int| lo <= k < hi ==> !pending(edges, done, k, v),
    decreases hi - lo,
{
    if lo < hi {
        lemma_cnt_bounds(edges, done, v, lo, hi - 1);
        lemma_cnt_zero(edges, done, v, lo, hi - 1);
    }
}

/// A positive count names a blocking edge.
proof fn lemma_cnt_pos(edges: Seq<(usize, usize)>, done: Seq<bool>, v: int, lo: int, hi: int)
    requires
        lo <= hi,
        cnt(edges, done, v, lo, hi) > 0,
    ensures
        exists|k: int| lo <= k < hi && pending(edges, done, k, v),
    decreases hi - lo,
{
    if lo < hi {
        if pending(edges, done, hi - 1, v) {
            assert(lo <= hi - 1 < hi && pending(edges, done, hi - 1, v));
        } else {
            lemma_cnt_pos(edges, done, v, lo, hi - 1);
        }
    }
}

/// A valid topological order: a duplicate-free list of all `n` node
/// indices in which every edge's source appears before its target.
pub open spec fn topo_order_ok(n: int, edges: Seq<(usize, usize)>, order: Seq<usize>) -> bool {
    &&& order.len() == n
    &&& forall|p: int| 0 <= p < n ==> (#[trigger] order[p]) < n
    &&& order.no_duplicates()
    &&& forall|v: int| 0 <= v < n ==> order.contains(#[trigger] (v as usize))
    &&& forall|k: int, q: int|
        0 <= k < edges.len() && 0 <= q < n && (#[trigger] order[q]) == (#[trigger] edges[k]).1
            ==> exists|p: int| 0 <= p < q && order[p] == edges[k].0
}

/// A certificate of a cycle: some node is unmarked, and every unmarked
/// node has an edge into it from an unmarked node, so the unmarked
/// nodes contain a cycle.
pub open spec fn cycle_certificate(n: int, edges: Seq<(usize, usize)>, done: Seq<bool>) -> bool {
    &&& done.len() == n
    &&& exists|v: int| 0 <= v < n && !done[v]
    &&& forall|v: int|
        0 <= v < n && !(#[trigger] done[v]) ==> exists|k: int|
            0 <= k < edges.len() && edges[k].1 == v && !done[edges[k].0 as int]
}

/// The working state of Kahn's algorithm: the order lists exactly the
/// done nodes in an edge-respecting way, unfinished nodes carry exact
/// pending counts, and the worklist holds exactly the unblocked
/// unfinished nodes.
pub open spec fn kahn_inv(
    n: int,
    edges: Seq<(usize, usize)>,
    done: Seq<bool>,
    in_deg: Seq<usize>,
    queue: Seq<usize>,
    order: Seq<usize>,
) -> bool {
    &&& done.len() == n
    &&& in_deg.len() == n
    &&& forall|k2: int| 0 <= k2 < edges.len() ==> (#[trigger] edges[k2]).0 < n && edges[k2].1 < n
    &&& order.no_duplicates()
    &&& order.len() <= n
    &&& forall|p: int| 0 <= p < order.len() ==> (#[trigger] order[p]) < n
    &&& forall|p: int| 0 <= p < order.len() ==> done[(#[trigger] order[p]) as int]
    &&& forall|w: int| 0 <= w < n && done[w] ==> order.contains(w as usize)
    &&& forall|w: int|
        0 <= w < n && !done[w] ==> (#[trigger] in_deg[w]) == cnt(edges, done, w, 0, edges.len() as int)
    &&& forall|k: int|
        0 <= k < edges.len() && done[(#[trigger] edges[k]).1 as int] ==> done[edges[k].0 as int]
    &&& forall|k: int, q: int|
        0 <= k < edges.len() && 0 <= q < order.len() && (#[trigger] order[q]) == (
        #[trigger] edges[k]).1 ==> exists|p: int| 0 <= p < q && order[p] == edges[k].0
    &&& queue.no_duplicates()
    &&& forall|qi: int| 0 <= qi < queue.len() ==> (#[trigger] queue[qi]) < n
    &&& forall|qi: int| 0 <= qi < queue.len() ==> !done[(#[trigger] queue[qi]) as int]
    &&& forall|qi: int| 0 <= qi < queue.len() ==> in_deg[(#[trigger] queue[qi]) as int] == 0
    &&& forall|w: int| 0 <= w < n && !done[w] && in_deg[w] == 0 ==> queue.contains(w as usize)
}

/// One round of Kahn's algorithm: take an unblocked node from the
/// worklist, append it to the order, and release its successors.
fn kahn_step(
    n: usize,
    edges: &Vec<(usize, usize)>,
    done: &mut Vec<bool>,
    in_deg: &mut Vec<usize>,
    queue: &mut Vec<usize>,
    order: &mut Vec<usize>,
)
    requires
        kahn_inv(n as int, edges@, old(done)@, old(in_deg)@, old(queue)@, old(order)@),
        old(queue)@.len() > 0,
    ensures
        kahn_inv(n as int, edges@, final(done)@, final(in_deg)@, final(queue)@, final(order)@),
        final(order)@.len() == old(order)@.len() + 1,
{
    let m = edges.len();
    let ghost qold = queue@;
    let u = match queue.pop() {
        Some(x) => x,
        None => {
            proof {
                assert(false);
            }
            0
        },
    };
    proof {
        assert(queue@ =~= qold.drop_last());
        // the order holds distinct done nodes, none equal to u, so it
        // cannot yet cover all n
        assert(forall|p: int| 0 <= p < order@.len() ==> (#[trigger] order@[p]) != u);
        assert(order@.push(u).no_duplicates());
        lemma_distinct_bounded(order@.push(u), n as int);
        assert(order@.len() < n);
    }
    let ghost dold = done@;
    let ghost oold = order@;
    done.set(u, true);
    order.push(u);
    proof {
        // all edges into u come from sources that were already done
        lemma_cnt_zero(edges@, dold, u as int, 0, m as int);
        crate::seqs::lemma_push_preserves_contains(oold, u);
        // the order still lists every done node
        assert forall|w: int| 0 <= w < n && done@[w] implies order@.contains(w as usize) by {
            if w != u {
                assert(oold.contains(w as usize));
            }
        }
        // the new entry of the order respects the edges: every edge
        // into u has a done source, which the old order lists
        assert forall|k: int, q: int|
            0 <= k < m && 0 <= q < order@.len() && (#[trigger] order@[q]) == (
            #[trigger] edges@[k]).1 implies exists|p: int|
            0 <= p < q && order@[p] == edges@[k].0 by {
            if q == order@.len() - 1 {
                assert(!pending(edges@, dold, k, u as int));
                assert(dold[edges@[k].0 as int]);
                assert(oold.contains(edges@[k].0));
                let p = choose|p: int| 0 <= p < oold.len() && oold[p] == edges@[k].0;
                assert(order@[p] == edges@[k].0);
            } else {
                assert(oold[q] == order@[q]);
                let p0 = choose|p: int| 0 <= p < q && oold[p] == edges@[k].0;
                assert(order@[p0] == edges@[k].0);
            }
        }
        // the remaining worklist still lists every unblocked node
        crate::seqs::lemma_drop_last_contains(qold);
        assert forall|w: int|
            0 <= w < n && !done@[w] && in_deg@[w] == 0 implies queue@.contains(w as usize) by {
            assert(!dold[w] && w != u);
            assert(qold.contains(w as usize));
        }
    }
    for k in 0..m
        invariant
            m == edges@.len(),
            done@.len() == n,
            in_deg@.len() == n,
            u < n,
            forall|k2: int| 0 <= k2 < m ==> (#[trigger] edges@[k2]).0 < n && edges@[k2].1 < n,
            !dold[u as int],
            dold.len() == n,
            done@ == dold.update(u as int, true),
            forall|k2: int|
                0 <= k2 < m && dold[(#[trigger] edges@[k2]).1 as int] ==> dold[edges@[
                    k2
                ].0 as int],
            cnt(edges@, dold, u as int, 0, m as int) == 0,
            forall|w: int|
                0 <= w < n && !done@[w] ==> (#[trigger] in_deg@[w]) == cnt(
                    edges@,
                    done@,
                    w,
                    0,
                    k as int,
                ) + cnt(edges@, dold, w, k as int, m as int),
            queue@.no_duplicates(),
            forall|qi: int| 0 <= qi < queue@.len() ==> (#[trigger] queue@[qi]) < n,
            forall|qi: int| 0 <= qi < queue@.len() ==> !done@[(#[trigger] queue@[qi]) as int],
            forall|qi: int| 0 <= qi < queue@.len() ==> in_deg@[(#[trigger] queue@[qi]) as int] == 0,
            forall|w: int|
                0 <= w < n && !done@[w] && in_deg@[w] == 0 ==> queue@.contains(w as usize),
    {
        if edges[k].0 == u {
            let t = edges[k].1;
            proof {
                assert(pending(edges@, dold, k as int, t as int));
                if t == u {
                    // an edge from u into u would have blocked u
                    lemma_cnt_split(edges@, dold, u as int, 0, k as int, m as int);
                    lemma_cnt_peel_lo(edges@, dold, u as int, k as int, m as int);
                    lemma_cnt_bounds(edges@, dold, u as int, 0, k as int);
                    lemma_cnt_bounds(edges@, dold, u as int, k + 1, m as int);
                    assert(false);
                }
                if dold[t as int] {
                    // the target was done before this round, so its
                    // sources were too, yet u was not
                    assert(dold[edges@[k as int].0 as int]);
                    assert(false);
                }
                assert(!done@[t as int]);
                // the stale tail count names this edge, so the degree
                // is positive
                lemma_cnt_peel_lo(edges@, dold, t as int, k as int, m as int);
                lemma_cnt_bounds(edges@, done@, t as int, 0, k as int);
                lemma_cnt_bounds(edges@, dold, t as int, k + 1, m as int);
            }
            let d = in_deg[t];
            in_deg.set(t, d - 1);
            let ghost qold2 = queue@;
            if d - 1 == 0 {
                queue.push(t);
            }
            proof {
                crate::seqs::lemma_push_preserves_contains(qold2, t);
                assert forall|w: int|
                    0 <= w < n && !done@[w] implies (#[trigger] in_deg@[w]) == cnt(
                    edges@,
                    done@,
                    w,
                    0,
                    k + 1,
                ) + cnt(edges@, dold, w, k + 1, m as int) by {
                    lemma_cnt_peel_lo(edges@, dold, w, k as int, m as int);
                    if w == t as int {
                        assert(pending(edges@, dold, k as int, w));
                        assert(!pending(edges@, done@, k as int, w));
                    } else {
                        assert(!pending(edges@, dold, k as int, w));
                        assert(!pending(edges@, done@, k as int, w));
                    }
                }
                assert forall|w: int|
                    0 <= w < n && !done@[w] && in_deg@[w] == 0 implies queue@.contains(
                    w as usize,
                ) by {
                    if w != t as int {
                        assert(qold2.contains(w as usize));
                    }
                }
            }
        } else {
            proof {
                assert forall|w: int|
                    0 <= w < n && !done@[w] implies (#[trigger] in_deg@[w]) == cnt(
                    edges@,
                    done@,
                    w,
                    0,
                    k + 1,
                ) + cnt(edges@, dold, w, k + 1, m as int) by {
                    lemma_cnt_peel_lo(edges@, dold, w, k as int, m as int);
                    assert(pending(edges@, done@, k as int, w) == pending(
                        edges@,
                        dold,
                        k as int,
                        w,
                    ));
                }
            }
        }
    }
    proof {
        assert forall|w: int| 0 <= w < n && !done@[w] implies (#[trigger] in_deg@[w]) == cnt(
            edges@,
            done@,
            w,
            0,
            m as int,
        ) by {
            assert(cnt(edges@, dold, w, m as int, m as int) == 0);
        }
    }
}

/// Compute a topological order of the `n` nodes by Kahn's algorithm.
///
/// `Ok(order)` is a duplicate-free sequence of all `n` node indices in
/// which every edge's source appears before its target.  `Err(done)`
/// certifies a cycle: some node is unmarked, and every unmarked node
/// has an edge into it from an unmarked node.
/// Build the starting state of Kahn's algorithm: nothing done, exact
/// pending counts, and a worklist of the unblocked nodes.
fn kahn_init(n: usize, edges: &Vec<(usize, usize)>) -> (r: (Vec<bool>, Vec<usize>, Vec<usize>))
    requires
        forall|k: int| 0 <= k < edges@.len() ==> (#[trigger] edges@[k]).0 < n && edges@[k].1 < n,
    ensures
        kahn_inv(n as int, edges@, r.0@, r.1@, r.2@, Seq::<usize>::empty()),
        forall|w: int| 0 <= w < n ==> !(#[trigger] r.0@[w]),
{
    let m = edges.len();
    let mut done: Vec<bool> = Vec::new();
    let mut in_deg: Vec<usize> = Vec::new();
    for v in 0..n
        invariant
            done@.len() == v,
            in_deg@.len() == v,
            forall|w: int| 0 <= w < v ==> !(#[trigger] done@[w]),
            forall|w: int| 0 <= w < v ==> (#[trigger] in_deg@[w]) == 0,
    {
        done.push(false);
        in_deg.push(0);
    }

    // Count the edges into each node.
    for k in 0..m
        invariant
            m == edges@.len(),
            done@.len() == n,
            in_deg@.len() == n,
            forall|k2: int| 0 <= k2 < m ==> (#[trigger] edges@[k2]).0 < n && edges@[k2].1 < n,
            forall|w: int| 0 <= w < n ==> !(#[trigger] done@[w]),
            forall|w: int| 0 <= w < n ==> (#[trigger] in_deg@[w]) == cnt(
                edges@,
                done@,
                w,
                0,
                k as int,
            ),
    {
        let t = edges[k].1;
        proof {
            lemma_cnt_bounds(edges@, done@, t as int, 0, k as int);
        }
        let d = in_deg[t];
        in_deg.set(t, d + 1);
    }

    // Seed the worklist with the nodes no edge blocks.
    let mut queue: Vec<usize> = Vec::new();
    for v in 0..n
        invariant
            m == edges@.len(),
            done@.len() == n,
            in_deg@.len() == n,
            forall|w: int| 0 <= w < n ==> !(#[trigger] done@[w]),
            forall|w: int| 0 <= w < n ==> (#[trigger] in_deg@[w]) == cnt(edges@, done@, w, 0, m as int),
            queue@.no_duplicates(),
            forall|qi: int| 0 <= qi < queue@.len() ==> (#[trigger] queue@[qi]) < v,
            forall|qi: int| 0 <= qi < queue@.len() ==> in_deg@[(#[trigger] queue@[qi]) as int] == 0,
            forall|w: int|
                0 <= w < v && in_deg@[w] == 0 ==> queue@.contains(w as usize),
    {
        let ghost qold = queue@;
        if in_deg[v] == 0 {
            queue.push(v);
        }
        proof {
            crate::seqs::lemma_push_preserves_contains(qold, v);
            assert forall|w: int| 0 <= w < v + 1 && in_deg@[w] == 0 implies queue@.contains(
                w as usize,
            ) by {
                if w < v {
                    assert(qold.contains(w as usize));
                }
            }
        }
    }
    (done, in_deg, queue)
}

/// Compute a topological order of the `n` nodes by Kahn's algorithm.
///
/// `Ok(order)` is a duplicate-free sequence of all `n` node indices in
/// which every edge's source appears before its target.  `Err(done)`
/// certifies a cycle: some node is unmarked, and every unmarked node
/// has an edge into it from an unmarked node.
#[verifier::rlimit(100)]
#[verifier::spinoff_prover]
pub fn topo_sort(n: usize, edges: &Vec<(usize, usize)>) -> (r: Result<Vec<usize>, Vec<bool>>)
    requires
        forall|k: int| 0 <= k < edges@.len() ==> (#[trigger] edges@[k]).0 < n && edges@[k].1 < n,
    ensures
        r is Ok ==> topo_order_ok(n as int, edges@, r->Ok_0@),
        r is Err ==> cycle_certificate(n as int, edges@, r->Err_0@),
{
    let m = edges.len();
    let (mut done, mut in_deg, mut queue) = kahn_init(n, edges);
    let mut order: Vec<usize> = Vec::new();
    proof {
        assert(order@ =~= Seq::<usize>::empty());
    }
    loop
        invariant
            m == edges@.len(),
            kahn_inv(n as int, edges@, done@, in_deg@, queue@, order@),
        ensures
            queue@.len() == 0,
            kahn_inv(n as int, edges@, done@, in_deg@, queue@, order@),
        decreases n - order@.len(),
    {
        if queue.len() == 0 {
            break;
        }
        kahn_step(n, edges, &mut done, &mut in_deg, &mut queue, &mut order);
    }

    if order.len() == n {
        proof {
            assert forall|v: int| 0 <= v < n implies order@.contains(#[trigger] (v as usize)) by {
                if !order@.contains((v as usize)) {
                    assert(forall|p: int|
                        0 <= p < order@.len() ==> (#[trigger] order@[p]) != (v as usize));
                    assert(order@.push((v as usize)).no_duplicates());
                    lemma_distinct_bounded(order@.push((v as usize)), n as int);
                }
            }
            assert(topo_order_ok(n as int, edges@, order@));
        }
        Ok(order)
    } else {
        proof {
            assert forall|v: int| 0 <= v < n && !done@[v] implies in_deg@[v] != 0 by {
                assert(!queue@.contains(v as usize));
            }
            lemma_distinct_bounded(order@, n as int);
            lemma_stuck_certificate(edges@, done@, in_deg@, order@, n as int, m as int);
        }
        Err(done)
    }
}

/// When the worklist runs dry with nodes left over, the unfinished
/// nodes form a set in which every member has a predecessor: a cycle.
proof fn lemma_stuck_certificate(
    edges: Seq<(usize, usize)>,
    done: Seq<bool>,
    in_deg: Seq<usize>,
    order: Seq<usize>,
    n: int,
    m: int,
)
    requires
        0 <= n <= usize::MAX,
        m == edges.len(),
        done.len() == n,
        in_deg.len() == n,
        order.no_duplicates(),
        order.len() < n,
        forall|p: int| 0 <= p < order.len() ==> (#[trigger] order[p]) < n,
        forall|w: int| 0 <= w < n && done[w] ==> order.contains(w as usize),
        forall|w: int|
            0 <= w < n && !done[w] ==> (#[trigger] in_deg[w]) == cnt(edges, done, w, 0, m),
        forall|w: int| 0 <= w < n && !done[w] ==> (#[trigger] in_deg[w]) != 0,
    ensures
        cycle_certificate(n, edges, done),
{
    lemma_distinct_bounded(order, n);
    if forall|v: int| 0 <= v < n ==> done[v] {
        assert forall|v: int| 0 <= v < n implies order.contains(#[trigger] (v as usize)) by {
            assert(done[v]);
        }
        lemma_distinct_covering(order, n);
        assert(false);
    }
    assert forall|v: int| 0 <= v < n && !(#[trigger] done[v]) implies exists|k: int|
        0 <= k < edges.len() && edges[k].1 == v && !done[edges[k].0 as int] by {
        assert(in_deg[v] != 0);
        assert(cnt(edges, done, v, 0, m) == in_deg[v]);
        lemma_cnt_bounds(edges, done, v, 0, m);
        lemma_cnt_pos(edges, done, v, 0, m);
        let k = choose|k: int| 0 <= k < m && pending(edges, done, k, v);
        assert(edges[k].1 == v && !done[edges[k].0 as int]);
    }
}

/// A duplicate-free sequence of values below `n` has at most `n`
/// entries.
proof fn lemma_distinct_bounded(s: Seq<usize>, n: int)
    requires
        0 <= n <= usize::MAX,
        s.no_duplicates(),
        forall|p: int| 0 <= p < s.len() ==> (#[trigger] s[p]) < n,
    ensures
        s.len() <= n,
{
    broadcast use vstd::seq_lib::seq_to_set_is_finite;

    let si = s.map_values(|x: usize| x as int);
    assert(si.no_duplicates());
    si.unique_seq_to_set();
    assert(si.to_set().subset_of(vstd::set_lib::set_int_range(0, n))) by {
        assert forall|x: int| si.to_set().contains(x) implies vstd::set_lib::set_int_range(
            0,
            n,
        ).contains(x) by {
            let j = choose|j: int| 0 <= j < si.len() && si[j] == x;
            assert(s[j] < n);
        }
    }
    vstd::set_lib::lemma_int_range(0, n);
    vstd::set_lib::lemma_len_subset(si.to_set(), vstd::set_lib::set_int_range(0, n));
}

/// A duplicate-free sequence that contains every value below `n` has at
/// least `n` entries.
proof fn lemma_distinct_covering(s: Seq<usize>, n: int)
    requires
        0 <= n <= usize::MAX,
        s.no_duplicates(),
        forall|v: int| 0 <= v < n ==> s.contains(#[trigger] (v as usize)),
    ensures
        s.len() >= n,
{
    broadcast use vstd::seq_lib::seq_to_set_is_finite;

    let si = s.map_values(|x: usize| x as int);
    assert(si.no_duplicates());
    si.unique_seq_to_set();
    assert(vstd::set_lib::set_int_range(0, n).subset_of(si.to_set())) by {
        assert forall|x: int| vstd::set_lib::set_int_range(0, n).contains(x) implies
            si.to_set().contains(x) by {
            assert(s.contains((x as usize)));
            let j = choose|j: int| 0 <= j < s.len() && s[j] == (x as usize);
            assert(si[j] == x);
        }
    }
    vstd::set_lib::lemma_int_range(0, n);
    vstd::set_lib::lemma_len_subset(vstd::set_lib::set_int_range(0, n), si.to_set());
}

/// Counts over adjacent ranges add up.
proof fn lemma_cnt_split(
    edges: Seq<(usize, usize)>,
    done: Seq<bool>,
    v: int,
    lo: int,
    mid: int,
    hi: int,
)
    requires
        lo <= mid <= hi,
    ensures
        cnt(edges, done, v, lo, hi) == cnt(edges, done, v, lo, mid) + cnt(edges, done, v, mid, hi),
    decreases hi - mid,
{
    if mid < hi {
        lemma_cnt_split(edges, done, v, lo, mid + 1, hi);
        lemma_cnt_peel_lo(edges, done, v, mid, hi);
        lemma_cnt_peel_lo(edges, done, v, mid, mid + 1);
    }
}

} // verus!
