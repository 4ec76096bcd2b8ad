//! Conflict detection by per-function hash comparison: an agent submits the
//! hashes of the functions it last read; a function whose current hash
//! differs is reported with its current content.

use vstd::prelude::*;
use crate::graph_store::compute_out_edges;
use crate::ids::{EdgeId, FunctionId, NodeId};
use crate::program_graph::ProgramGraph;
use crate::schema::{ConflictDetail, FunctionDiff};
use crate::text::str_eq;

verus! {

/// Compute node `k` exists and belongs to function `id`.
pub open spec fn owned_by(g: ProgramGraph, k: u32, id: FunctionId) -> bool {
    g.cnodes().contains_key(k) && g.cnodes()[k].owner == id
}

/// Edge `e` joins two nodes of function `id`.
pub open spec fn intra_edge(g: ProgramGraph, e: u32, id: FunctionId) -> bool {
    &&& g.cedges().contains_key(e)
    &&& owned_by(g, g.cedges()[e].0, id)
    &&& owned_by(g, g.cedges()[e].1, id)
}

/// `d` is the diff reported for function `id`: its nodes by increasing
/// index and its intra-function edges as added, nothing removed or
/// modified.
pub open spec fn function_diff_is(g: ProgramGraph, id: FunctionId, d: FunctionDiff) -> bool {
    &&& forall|i: int, j: int| 0 <= i < j < d.added_nodes@.len() ==> d.added_nodes@[i].0 < d.added_nodes@[j].0
    &&& forall|k: u32| #[trigger] d.added_nodes@.contains(NodeId(k)) <==> owned_by(g, k, id)
    &&& forall|e: u32| #[trigger] d.added_edges@.contains(EdgeId(e)) <==> intra_edge(g, e, id)
    &&& d.removed_nodes@.len() == 0
    &&& d.modified_nodes@.len() == 0
    &&& d.removed_edges@.len() == 0
}

/// The current content of function `func_id`: all its nodes, and every
/// edge between two of them, reported as added (no earlier snapshot is
/// kept, so nothing is reported removed or modified).
pub fn build_function_diff(graph: &ProgramGraph, func_id: FunctionId) -> (r: FunctionDiff)
    requires
        graph.wf(),
    ensures
        function_diff_is(*graph, func_id, r),
{
    let func_nodes = graph.function_nodes(func_id);
    let mut edges: Vec<EdgeId> = Vec::new();
    let mut i: usize = 0;
    while i < func_nodes.len()
        invariant
            graph.wf(),
            i <= func_nodes@.len(),
            forall|k: u32| #[trigger] func_nodes@.contains(NodeId(k)) <==> owned_by(*graph, k, func_id),
            forall|e: u32| #[trigger]
                edges@.contains(EdgeId(e)) <==> (intra_edge(*graph, e, func_id) && exists|j: int|
                    0 <= j < i && #[trigger] func_nodes@[j].0 == graph.cedges()[e].0),
        decreases func_nodes.len() - i,
    {
        let n = func_nodes[i];
        proof {
            assert(func_nodes@.contains(n));
            assert(func_nodes@.contains(NodeId(n.0)));
        }
        let outs = compute_out_edges(graph.compute(), n.0);
        let ghost start = edges@;
        let mut k: usize = 0;
        while k < outs.len()
            invariant
                graph.wf(),
                i < func_nodes@.len(),
                n == func_nodes@[i as int],
                owned_by(*graph, n.0, func_id),
                k <= outs@.len(),
                crate::graph_store::lists_out_edges(outs@, graph.cedges(), n.0),
                forall|e: u32| #[trigger]
                    start.contains(EdgeId(e)) <==> (intra_edge(*graph, e, func_id) && exists|j: int|
                        0 <= j < i && #[trigger] func_nodes@[j].0 == graph.cedges()[e].0),
                forall|e: u32| #[trigger]
                    edges@.contains(EdgeId(e)) <==> (start.contains(EdgeId(e)) || exists|m: int|
                        0 <= m < k && #[trigger] outs@[m].0 == e && owned_by(*graph, outs@[m].1, func_id)),
            decreases outs.len() - k,
        {
            let (e, target, _) = outs[k];
            let keep = match graph.get_compute_node(NodeId(target)) {
                Some(node) => node.owner == func_id,
                None => false,
            };
            let ghost before_push = edges@;
            if keep {
                edges.push(EdgeId(e));
            }
            proof {
                if keep {
                    assert(edges@ == before_push.push(EdgeId(e)));
                } else {
                    assert(edges@ == before_push);
                }
                assert(keep <==> owned_by(*graph, target, func_id));
                assert(outs@[k as int].0 == e && outs@[k as int].1 == target);
                assert forall|x: u32| #[trigger]
                    edges@.contains(EdgeId(x)) <==> (start.contains(EdgeId(x)) || exists|m: int|
                        0 <= m < k + 1 && #[trigger] outs@[m].0 == x && owned_by(*graph, outs@[m].1, func_id)) by {
                    if exists|m: int| 0 <= m < k + 1 && #[trigger] outs@[m].0 == x && owned_by(*graph, outs@[m].1, func_id) {
                        let m = choose|m: int| 0 <= m < k + 1 && #[trigger] outs@[m].0 == x && owned_by(*graph, outs@[m].1, func_id);
                        if m == k {
                            assert(edges@[edges@.len() - 1] == EdgeId(x));
                        } else {
                            assert(before_push.contains(EdgeId(x)));
                            let idx = choose|idx: int| 0 <= idx < before_push.len() && before_push[idx] == EdgeId(x);
                            assert(edges@[idx] == EdgeId(x));
                        }
                        assert(edges@.contains(EdgeId(x)));
                    }
                    if start.contains(EdgeId(x)) {
                        assert(before_push.contains(EdgeId(x)));
                        let idx = choose|idx: int| 0 <= idx < before_push.len() && before_push[idx] == EdgeId(x);
                        assert(edges@[idx] == EdgeId(x));
                    }
                    if edges@.contains(EdgeId(x)) {
                        if before_push.contains(EdgeId(x)) {
                            assert(start.contains(EdgeId(x)) || exists|m: int|
                                0 <= m < k && #[trigger] outs@[m].0 == x && owned_by(*graph, outs@[m].1, func_id));
                            if !start.contains(EdgeId(x)) {
                                let m = choose|m: int| 0 <= m < k && #[trigger] outs@[m].0 == x && owned_by(*graph, outs@[m].1, func_id);
                                assert(0 <= m < k + 1 && outs@[m].0 == x && owned_by(*graph, outs@[m].1, func_id));
                            }
                        } else {
                            assert(keep);
                            let idx = choose|idx: int| 0 <= idx < edges@.len() && edges@[idx] == EdgeId(x);
                            assert(idx == before_push.len());
                            assert(x == e);
                            assert(0 <= k < k + 1 && outs@[k as int].0 == x && owned_by(*graph, outs@[k as int].1, func_id));
                        }
                    }
                }
            }
            k = k + 1;
        }
        proof {
            assert forall|x: u32| #[trigger]
                edges@.contains(EdgeId(x)) <==> (intra_edge(*graph, x, func_id) && exists|j: int|
                    0 <= j < i + 1 && #[trigger] func_nodes@[j].0 == graph.cedges()[x].0) by {
                if exists|m: int| 0 <= m < outs@.len() && #[trigger] outs@[m].0 == x && owned_by(*graph, outs@[m].1, func_id) {
                    let m = choose|m: int| 0 <= m < outs@.len() && #[trigger] outs@[m].0 == x && owned_by(*graph, outs@[m].1, func_id);
                    assert(graph.cedges().contains_key(outs@[m].0));
                    assert(func_nodes@[i as int].0 == graph.cedges()[x].0);
                }
                if intra_edge(*graph, x, func_id) && graph.cedges()[x].0 == n.0 {
                    assert(graph.cedges().contains_key(x) && graph.cedges()[x].0 == n.0);
                    let m = choose|m: int| 0 <= m < outs@.len() && (#[trigger] outs@[m]).0 == x;
                    assert(outs@[m].0 == x);
                }
                if intra_edge(*graph, x, func_id) && exists|j: int| 0 <= j < i + 1 && #[trigger] func_nodes@[j].0 == graph.cedges()[x].0 {
                    let j = choose|j: int| 0 <= j < i + 1 && #[trigger] func_nodes@[j].0 == graph.cedges()[x].0;
                    if j < i {
                        assert(exists|j2: int| 0 <= j2 < i && #[trigger] func_nodes@[j2].0 == graph.cedges()[x].0);
                    }
                }
            }
        }
        i = i + 1;
    }
    proof {
        assert forall|x: u32| #[trigger] edges@.contains(EdgeId(x)) <==> intra_edge(*graph, x, func_id) by {
            if intra_edge(*graph, x, func_id) {
                let src = graph.cedges()[x].0;
                assert(func_nodes@.contains(NodeId(src)));
                let j = choose|j: int| 0 <= j < func_nodes@.len() && func_nodes@[j] == NodeId(src);
                assert(func_nodes@[j].0 == graph.cedges()[x].0);
            }
        }
    }
    FunctionDiff {
        added_nodes: func_nodes,
        removed_nodes: Vec::new(),
        modified_nodes: Vec::new(),
        added_edges: edges,
        removed_edges: Vec::new(),
    }
}

/// The positions, in order, at which the current hash differs from the
/// expected one.
pub open spec fn mismatches(expected: Seq<(FunctionId, String)>, current: Seq<String>) -> Seq<int>
    decreases expected.len(),
{
    if expected.len() == 0 {
        seq![]
    } else {
        let i = expected.len() - 1;
        let before = mismatches(expected.drop_last(), current);
        if current[i]@ == expected[i].1@ {
            before
        } else {
            before.push(i)
        }
    }
}

/// `c` reports the conflict at position `i`: the function, both hashes and
/// its current content.
pub open spec fn conflict_at(g: ProgramGraph, expected: Seq<(FunctionId, String)>, current: Seq<String>, i: int, c: ConflictDetail) -> bool {
    &&& c.function_id == expected[i].0
    &&& c.expected_hash@ == expected[i].1@
    &&& c.current_hash@ == current[i]@
    &&& function_diff_is(g, expected[i].0, c.changes)
}

proof fn lemma_mismatches_bounded(expected: Seq<(FunctionId, String)>, current: Seq<String>)
    ensures
        forall|j: int| 0 <= j < mismatches(expected, current).len() ==> 0 <= #[trigger] mismatches(expected, current)[j] < expected.len(),
        mismatches(expected, current).len() == 0 <==> forall|i: int| 0 <= i < expected.len() ==> #[trigger] current[i]@ == expected[i].1@,
    decreases expected.len(),
{
    if expected.len() > 0 {
        lemma_mismatches_bounded(expected.drop_last(), current);
        let i = expected.len() - 1;
        assert forall|x: int| 0 <= x < i implies #[trigger] expected.drop_last()[x] == expected[x] by {}
    }
}

/// Compares each function's current hash with the one the agent expected.
/// `expected_hashes` pairs each function with its expected hash text and
/// `current_hashes` holds, at the same position, the function's current
/// hash text. `Ok` when every pair agrees; else the conflicts, one per
/// differing function in the given order, each with the function's current
/// content.
pub fn check_hashes(graph: &ProgramGraph, expected_hashes: &Vec<(FunctionId, String)>, current_hashes: &Vec<String>) -> (r: Result<(), Vec<ConflictDetail>>)
    requires
        graph.wf(),
        current_hashes@.len() == expected_hashes@.len(),
    ensures
        r is Ok <==> forall|i: int| 0 <= i < expected_hashes@.len() ==> #[trigger] current_hashes@[i]@ == expected_hashes@[i].1@,
        r matches Err(c) ==> {
            let m = mismatches(expected_hashes@, current_hashes@);
            &&& c@.len() == m.len()
            &&& forall|j: int| 0 <= j < c@.len() ==> conflict_at(*graph, expected_hashes@, current_hashes@, m[j], #[trigger] c@[j])
        },
{
    let mut conflicts: Vec<ConflictDetail> = Vec::new();
    let mut i: usize = 0;
    while i < expected_hashes.len()
        invariant
            graph.wf(),
            i <= expected_hashes@.len(),
            current_hashes@.len() == expected_hashes@.len(),
            conflicts@.len() == mismatches(expected_hashes@.take(i as int), current_hashes@).len(),
            forall|j: int| 0 <= j < conflicts@.len() ==> conflict_at(
                *graph,
                expected_hashes@,
                current_hashes@,
                mismatches(expected_hashes@.take(i as int), current_hashes@)[j],
                #[trigger] conflicts@[j],
            ),
            forall|j: int| 0 <= j < mismatches(expected_hashes@.take(i as int), current_hashes@).len() ==> 0 <= #[trigger] mismatches(expected_hashes@.take(i as int), current_hashes@)[j] < i,
        decreases expected_hashes.len() - i,
    {
        let (func_id, expected_hex) = (expected_hashes[i].0, &expected_hashes[i].1);
        let current_hex = &current_hashes[i];
        let ghost pre = expected_hashes@.take(i as int);
        let ghost post = expected_hashes@.take(i + 1);
        proof {
            assert(post.drop_last() =~= pre);
            lemma_mismatches_bounded(pre, current_hashes@);
        }
        if !str_eq(current_hex.as_str(), expected_hex.as_str()) {
            let diff = build_function_diff(graph, func_id);
            conflicts.push(ConflictDetail {
                function_id: func_id,
                expected_hash: expected_hex.clone(),
                current_hash: current_hex.clone(),
                changes: diff,
            });
        }
        i = i + 1;
    }
    proof {
        assert(expected_hashes@.take(expected_hashes@.len() as int) =~= expected_hashes@);
        lemma_mismatches_bounded(expected_hashes@, current_hashes@);
    }
    if conflicts.len() == 0 {
        Ok(())
    } else {
        Err(conflicts)
    }
}

} // verus!
