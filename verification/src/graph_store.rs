//! The two stable graphs of a program (`petgraph`'s `StableGraph`): the
//! computational graph of operation nodes and flow edges, and the semantic
//! graph of entities and relationships.
//!
//! Each graph is known here by what it holds: its nodes by index and its
//! edges by index, each edge with its source, target and weight. Removing
//! an item frees its index without renumbering the others.

use vstd::prelude::*;
use petgraph::stable_graph::{EdgeIndex, NodeIndex, StableGraph};
use petgraph::visit::{EdgeRef, IntoEdgeReferences};
use petgraph::{Directed, Direction};
use crate::edge::{FlowEdge, SemanticEdge};
use crate::node::SemanticNode;
use crate::ops::ComputeNode;

verus! {

/// `petgraph`'s stable graph, opaque to verification.
#[verifier::external_type_specification]
#[verifier::external_body]
#[verifier::reject_recursive_types(N)]
#[verifier::reject_recursive_types(E)]
#[verifier::reject_recursive_types(Ty)]
#[verifier::reject_recursive_types(Ix)]
pub struct ExStableGraph<N, E, Ty, Ix>(StableGraph<N, E, Ty, Ix>);

/// `Clone::clone` of `petgraph`'s stable graph: a copy with the same node
/// and edge indices. The graph type is generic here, so nothing is stated
/// of the copy.
pub assume_specification<N, E, Ty, Ix>[<StableGraph<N, E, Ty, Ix> as Clone>::clone](g: &StableGraph<N, E, Ty, Ix>) -> (r: StableGraph<N, E, Ty, Ix>)
    where
        N: Clone,
        E: Clone,
        Ix: Copy,
;

/// `petgraph`'s marker for directed graphs.
#[verifier::external_type_specification]
#[verifier::external_body]
pub struct ExDirected(Directed);

/// The nodes of a computational graph, by index.
pub uninterp spec fn compute_nodes(g: StableGraph<ComputeNode, FlowEdge, Directed, u32>) -> Map<u32, ComputeNode>;

/// The edges of a computational graph, by index: source, target, weight.
pub uninterp spec fn compute_edges(g: StableGraph<ComputeNode, FlowEdge, Directed, u32>) -> Map<u32, (u32, u32, FlowEdge)>;

/// The nodes of a semantic graph, by index.
pub uninterp spec fn semantic_nodes(g: StableGraph<SemanticNode, SemanticEdge, Directed, u32>) -> Map<u32, SemanticNode>;

/// The edges of a semantic graph, by index: source, target, weight.
pub uninterp spec fn semantic_edges(g: StableGraph<SemanticNode, SemanticEdge, Directed, u32>) -> Map<u32, (u32, u32, SemanticEdge)>;

/// The edges that survive the removal of node `n`: those not incident to it.
pub open spec fn edges_without<E>(edges: Map<u32, (u32, u32, E)>, n: u32) -> Map<u32, (u32, u32, E)> {
    edges.restrict(edges.dom().filter(|e: u32| edges[e].0 != n && edges[e].1 != n))
}

/// `vals` lists, without repetition, exactly the outgoing edges of `n`,
/// each with its target and weight.
pub open spec fn lists_out_edges<E>(vals: Seq<(u32, u32, E)>, edges: Map<u32, (u32, u32, E)>, n: u32) -> bool {
    &&& forall|i: int| 0 <= i < vals.len() ==> edges.contains_key(#[trigger] vals[i].0)
        && edges[vals[i].0] == (n, vals[i].1, vals[i].2)
    &&& forall|e: u32| #[trigger] edges.contains_key(e) && edges[e].0 == n ==> exists|i: int|
        0 <= i < vals.len() && (#[trigger] vals[i]).0 == e
    &&& forall|i: int, j: int| 0 <= i < j < vals.len() ==> (#[trigger] vals[i]).0 != (#[trigger] vals[j]).0
}

/// `StableGraph::new`: an empty directed graph.
#[verifier::external_body]
pub(crate) fn compute_graph_new() -> (g: StableGraph<ComputeNode, FlowEdge, Directed, u32>)
    ensures
        compute_nodes(g).dom() == Set::<u32>::empty(),
        compute_edges(g).dom() == Set::<u32>::empty(),
{
    StableGraph::with_capacity(0, 0)
}

/// `StableGraph::add_node`: stores the weight under an index that holds no
/// node, reusing a freed one first. It panics only when no freed index is
/// left and the index space is full, which fewer than `u32::MAX` nodes rule
/// out.
#[verifier::external_body]
pub(crate) fn compute_add_node(g: &mut StableGraph<ComputeNode, FlowEdge, Directed, u32>, w: ComputeNode) -> (i: u32)
    requires
        compute_nodes(*old(g)).dom().len() < u32::MAX,
        compute_nodes(*old(g)).dom().finite(),
    ensures
        !compute_nodes(*old(g)).contains_key(i),
        compute_nodes(*final(g)) == compute_nodes(*old(g)).insert(i, w),
        compute_edges(*final(g)) == compute_edges(*old(g)),
{
    g.add_node(w).index() as u32
}

/// `StableGraph::remove_node`: removes the node and every edge incident to
/// it, and gives the node's weight back; `None`, with nothing changed, when
/// the index holds no node.
#[verifier::external_body]
pub(crate) fn compute_remove_node(g: &mut StableGraph<ComputeNode, FlowEdge, Directed, u32>, i: u32) -> (r: Option<ComputeNode>)
    ensures
        compute_nodes(*old(g)).contains_key(i) ==> {
            &&& r == Some(compute_nodes(*old(g))[i])
            &&& compute_nodes(*final(g)) == compute_nodes(*old(g)).remove(i)
            &&& compute_edges(*final(g)) == edges_without(compute_edges(*old(g)), i)
        },
        !compute_nodes(*old(g)).contains_key(i) ==> {
            &&& r is None
            &&& compute_nodes(*final(g)) == compute_nodes(*old(g))
            &&& compute_edges(*final(g)) == compute_edges(*old(g))
        },
{
    g.remove_node(NodeIndex::new(i as usize))
}

/// `StableGraph::node_weight`: the node under an index, if any.
#[verifier::external_body]
pub(crate) fn compute_node<'a>(g: &'a StableGraph<ComputeNode, FlowEdge, Directed, u32>, i: u32) -> (r: Option<&'a ComputeNode>)
    ensures
        compute_nodes(*g).contains_key(i) ==> r == Some(&compute_nodes(*g)[i]),
        !compute_nodes(*g).contains_key(i) ==> r is None,
{
    g.node_weight(NodeIndex::new(i as usize))
}

/// `StableGraph::node_weight_mut`: the node under an index, to change in
/// place; the graph then holds the changed node there, and nothing else
/// changes. `None`, with nothing changed, when the index holds no node.
#[verifier::external_body]
pub(crate) fn compute_node_mut<'a>(g: &'a mut StableGraph<ComputeNode, FlowEdge, Directed, u32>, i: u32) -> (r: Option<
    &'a mut ComputeNode,
>)
    ensures
        compute_nodes(*old(g)).contains_key(i) ==> (r matches Some(n) && *n == compute_nodes(*old(g))[i]
            && compute_nodes(*final(g)) == compute_nodes(*old(g)).insert(i, *final(n))),
        !compute_nodes(*old(g)).contains_key(i) ==> (r is None && compute_nodes(*final(g)) == compute_nodes(*old(g))),
        compute_edges(*final(g)) == compute_edges(*old(g)),
{
    g.node_weight_mut(NodeIndex::new(i as usize))
}

/// `StableGraph::add_edge`: stores the edge under an index that holds no
/// edge, reusing a freed one first. It panics when an endpoint is not a
/// node, or when no freed index is left and the index space is full; both
/// endpoints present and fewer than `u32::MAX` edges rule these out.
#[verifier::external_body]
pub(crate) fn compute_add_edge(g: &mut StableGraph<ComputeNode, FlowEdge, Directed, u32>, a: u32, b: u32, w: FlowEdge) -> (e:
    u32)
    requires
        compute_nodes(*old(g)).contains_key(a),
        compute_nodes(*old(g)).contains_key(b),
        compute_edges(*old(g)).dom().len() < u32::MAX,
        compute_edges(*old(g)).dom().finite(),
    ensures
        !compute_edges(*old(g)).contains_key(e),
        compute_edges(*final(g)) == compute_edges(*old(g)).insert(e, (a, b, w)),
        compute_nodes(*final(g)) == compute_nodes(*old(g)),
{
    g.add_edge(NodeIndex::new(a as usize), NodeIndex::new(b as usize), w).index() as u32
}

/// `StableGraph::remove_edge`: removes the edge and gives its weight back;
/// `None`, with nothing changed, when the index holds no edge.
#[verifier::external_body]
pub(crate) fn compute_remove_edge(g: &mut StableGraph<ComputeNode, FlowEdge, Directed, u32>, e: u32) -> (r: Option<FlowEdge>)
    ensures
        compute_edges(*old(g)).contains_key(e) ==> {
            &&& r == Some(compute_edges(*old(g))[e].2)
            &&& compute_edges(*final(g)) == compute_edges(*old(g)).remove(e)
        },
        !compute_edges(*old(g)).contains_key(e) ==> {
            &&& r is None
            &&& compute_edges(*final(g)) == compute_edges(*old(g))
        },
        compute_nodes(*final(g)) == compute_nodes(*old(g)),
{
    g.remove_edge(EdgeIndex::new(e as usize))
}

/// `StableGraph::edge_endpoints`: the source and target of an edge, if any.
#[verifier::external_body]
pub(crate) fn compute_edge_endpoints(g: &StableGraph<ComputeNode, FlowEdge, Directed, u32>, e: u32) -> (r: Option<(u32, u32)>)
    ensures
        compute_edges(*g).contains_key(e) ==> r == Some((compute_edges(*g)[e].0, compute_edges(*g)[e].1)),
        !compute_edges(*g).contains_key(e) ==> r is None,
{
    match g.edge_endpoints(EdgeIndex::new(e as usize)) {
        Some((a, b)) => Some((a.index() as u32, b.index() as u32)),
        None => None,
    }
}

/// `StableGraph::node_count`: the number of nodes.
#[verifier::external_body]
pub(crate) fn compute_node_count(g: &StableGraph<ComputeNode, FlowEdge, Directed, u32>) -> (n: usize)
    requires
        compute_nodes(*g).dom().finite(),
    ensures
        n == compute_nodes(*g).dom().len(),
{
    g.node_count()
}

/// `StableGraph::edge_count`: the number of edges.
#[verifier::external_body]
pub(crate) fn compute_edge_count(g: &StableGraph<ComputeNode, FlowEdge, Directed, u32>) -> (n: usize)
    requires
        compute_edges(*g).dom().finite(),
    ensures
        n == compute_edges(*g).dom().len(),
{
    g.edge_count()
}

/// `StableGraph::node_indices`: the indices holding a node, in increasing
/// order.
#[verifier::external_body]
pub(crate) fn compute_node_indices(g: &StableGraph<ComputeNode, FlowEdge, Directed, u32>) -> (r: Vec<u32>)
    ensures
        forall|i: int, j: int| 0 <= i < j < r@.len() ==> r@[i] < r@[j],
        forall|k: u32| r@.contains(k) <==> compute_nodes(*g).contains_key(k),
{
    let mut out = Vec::new();
    for idx in g.node_indices() {
        out.push(idx.index() as u32);
    }
    out
}

/// `StableGraph::edges_directed` with `Outgoing`: the edges leaving a node,
/// each with its target and weight.
#[verifier::external_body]
pub(crate) fn compute_out_edges(g: &StableGraph<ComputeNode, FlowEdge, Directed, u32>, n: u32) -> (r: Vec<(u32, u32, FlowEdge)>)
    ensures
        lists_out_edges(r@, compute_edges(*g), n),
{
    let mut out = Vec::new();
    for e in g.edges_directed(NodeIndex::new(n as usize), Direction::Outgoing) {
        out.push((e.id().index() as u32, e.target().index() as u32, e.weight().clone()));
    }
    out
}

/// `vals` lists, by increasing index, every edge with its source, target
/// and weight.
pub open spec fn lists_edges<E>(vals: Seq<(u32, u32, u32, E)>, edges: Map<u32, (u32, u32, E)>) -> bool {
    &&& forall|i: int| 0 <= i < vals.len() ==> edges.contains_key(#[trigger] vals[i].0)
        && edges[vals[i].0] == (vals[i].1, vals[i].2, vals[i].3)
    &&& forall|e: u32| #[trigger] edges.contains_key(e) ==> exists|i: int| 0 <= i < vals.len() && (#[trigger] vals[i]).0 == e
    &&& forall|i: int, j: int| 0 <= i < j < vals.len() ==> (#[trigger] vals[i]).0 < (#[trigger] vals[j]).0
}

/// `edge_references` of a computational graph: every edge with its index,
/// source, target and weight, by increasing index.
#[verifier::external_body]
pub(crate) fn compute_edge_list(g: &StableGraph<ComputeNode, FlowEdge, Directed, u32>) -> (r: Vec<(u32, u32, u32, FlowEdge)>)
    ensures
        lists_edges(r@, compute_edges(*g)),
{
    let mut out = Vec::new();
    for e in g.edge_references() {
        out.push((e.id().index() as u32, e.source().index() as u32, e.target().index() as u32, e.weight().clone()));
    }
    out
}

/// `StableGraph::new`: an empty directed graph.
#[verifier::external_body]
pub(crate) fn semantic_graph_new() -> (g: StableGraph<SemanticNode, SemanticEdge, Directed, u32>)
    ensures
        semantic_nodes(g).dom() == Set::<u32>::empty(),
        semantic_edges(g).dom() == Set::<u32>::empty(),
{
    StableGraph::with_capacity(0, 0)
}

/// `StableGraph::add_node`: stores the weight under an index that holds no
/// node, reusing a freed one first. It panics only when no freed index is
/// left and the index space is full, which fewer than `u32::MAX` nodes rule
/// out.
#[verifier::external_body]
pub(crate) fn semantic_add_node(g: &mut StableGraph<SemanticNode, SemanticEdge, Directed, u32>, w: SemanticNode) -> (i: u32)
    requires
        semantic_nodes(*old(g)).dom().len() < u32::MAX,
        semantic_nodes(*old(g)).dom().finite(),
    ensures
        !semantic_nodes(*old(g)).contains_key(i),
        semantic_nodes(*final(g)) == semantic_nodes(*old(g)).insert(i, w),
        semantic_edges(*final(g)) == semantic_edges(*old(g)),
{
    g.add_node(w).index() as u32
}

/// `StableGraph::node_weight`: the node under an index, if any.
#[verifier::external_body]
pub(crate) fn semantic_node<'a>(g: &'a StableGraph<SemanticNode, SemanticEdge, Directed, u32>, i: u32) -> (r: Option<
    &'a SemanticNode,
>)
    ensures
        semantic_nodes(*g).contains_key(i) ==> r == Some(&semantic_nodes(*g)[i]),
        !semantic_nodes(*g).contains_key(i) ==> r is None,
{
    g.node_weight(NodeIndex::new(i as usize))
}

/// `StableGraph::node_weight_mut`: the node under an index, to change in
/// place; the graph then holds the changed node there, and nothing else
/// changes. `None`, with nothing changed, when the index holds no node.
#[verifier::external_body]
pub(crate) fn semantic_node_mut<'a>(g: &'a mut StableGraph<SemanticNode, SemanticEdge, Directed, u32>, i: u32) -> (r: Option<
    &'a mut SemanticNode,
>)
    ensures
        semantic_nodes(*old(g)).contains_key(i) ==> (r matches Some(n) && *n == semantic_nodes(*old(g))[i]
            && semantic_nodes(*final(g)) == semantic_nodes(*old(g)).insert(i, *final(n))),
        !semantic_nodes(*old(g)).contains_key(i) ==> (r is None && semantic_nodes(*final(g)) == semantic_nodes(*old(g))),
        semantic_edges(*final(g)) == semantic_edges(*old(g)),
{
    g.node_weight_mut(NodeIndex::new(i as usize))
}

/// `StableGraph::add_edge`: stores the edge under an index that holds no
/// edge, reusing a freed one first. It panics when an endpoint is not a
/// node, or when no freed index is left and the index space is full; both
/// endpoints present and fewer than `u32::MAX` edges rule these out.
#[verifier::external_body]
pub(crate) fn semantic_add_edge(g: &mut StableGraph<SemanticNode, SemanticEdge, Directed, u32>, a: u32, b: u32, w: SemanticEdge) -> (e:
    u32)
    requires
        semantic_nodes(*old(g)).contains_key(a),
        semantic_nodes(*old(g)).contains_key(b),
        semantic_edges(*old(g)).dom().len() < u32::MAX,
        semantic_edges(*old(g)).dom().finite(),
    ensures
        !semantic_edges(*old(g)).contains_key(e),
        semantic_edges(*final(g)) == semantic_edges(*old(g)).insert(e, (a, b, w)),
        semantic_nodes(*final(g)) == semantic_nodes(*old(g)),
{
    g.add_edge(NodeIndex::new(a as usize), NodeIndex::new(b as usize), w).index() as u32
}

/// `StableGraph::remove_edge`: removes the edge and gives its weight back;
/// `None`, with nothing changed, when the index holds no edge.
#[verifier::external_body]
pub(crate) fn semantic_remove_edge(g: &mut StableGraph<SemanticNode, SemanticEdge, Directed, u32>, e: u32) -> (r: Option<
    SemanticEdge,
>)
    ensures
        semantic_edges(*old(g)).contains_key(e) ==> {
            &&& r == Some(semantic_edges(*old(g))[e].2)
            &&& semantic_edges(*final(g)) == semantic_edges(*old(g)).remove(e)
        },
        !semantic_edges(*old(g)).contains_key(e) ==> {
            &&& r is None
            &&& semantic_edges(*final(g)) == semantic_edges(*old(g))
        },
        semantic_nodes(*final(g)) == semantic_nodes(*old(g)),
{
    g.remove_edge(EdgeIndex::new(e as usize))
}

/// `StableGraph::node_count`: the number of nodes.
#[verifier::external_body]
pub(crate) fn semantic_node_count(g: &StableGraph<SemanticNode, SemanticEdge, Directed, u32>) -> (n: usize)
    requires
        semantic_nodes(*g).dom().finite(),
    ensures
        n == semantic_nodes(*g).dom().len(),
{
    g.node_count()
}

/// `StableGraph::edge_count`: the number of edges.
#[verifier::external_body]
pub(crate) fn semantic_edge_count(g: &StableGraph<SemanticNode, SemanticEdge, Directed, u32>) -> (n: usize)
    requires
        semantic_edges(*g).dom().finite(),
    ensures
        n == semantic_edges(*g).dom().len(),
{
    g.edge_count()
}

/// `StableGraph::edges_directed` with `Outgoing`: the edges leaving a node,
/// each with its target and weight.
#[verifier::external_body]
pub(crate) fn semantic_out_edges(g: &StableGraph<SemanticNode, SemanticEdge, Directed, u32>, n: u32) -> (r: Vec<
    (u32, u32, SemanticEdge),
>)
    ensures
        lists_out_edges(r@, semantic_edges(*g), n),
{
    let mut out = Vec::new();
    for e in g.edges_directed(NodeIndex::new(n as usize), Direction::Outgoing) {
        out.push((e.id().index() as u32, e.target().index() as u32, *e.weight()));
    }
    out
}

/// `StableGraph::node_indices` of a semantic graph: the indices holding a
/// node, in increasing order.
#[verifier::external_body]
pub(crate) fn semantic_node_indices(g: &StableGraph<SemanticNode, SemanticEdge, Directed, u32>) -> (r: Vec<u32>)
    ensures
        forall|i: int, j: int| 0 <= i < j < r@.len() ==> r@[i] < r@[j],
        forall|k: u32| r@.contains(k) <==> semantic_nodes(*g).contains_key(k),
{
    let mut out = Vec::new();
    for idx in g.node_indices() {
        out.push(idx.index() as u32);
    }
    out
}

/// `edge_references` of a semantic graph: every edge with its index,
/// source, target and weight, by increasing index.
#[verifier::external_body]
pub(crate) fn semantic_edge_list(g: &StableGraph<SemanticNode, SemanticEdge, Directed, u32>) -> (r: Vec<(u32, u32, u32, SemanticEdge)>)
    ensures
        lists_edges(r@, semantic_edges(*g)),
{
    let mut out = Vec::new();
    for e in g.edge_references() {
        out.push((e.id().index() as u32, e.source().index() as u32, e.target().index() as u32, *e.weight()));
    }
    out
}

} // verus!
