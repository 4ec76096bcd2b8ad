//! The observability graph of a program: one node per semantic and compute
//! node the preset shows, the flow, relationship and function-boundary
//! edges between them, and one group per function.

use vstd::prelude::*;
use crate::api_error::ApiError;
use crate::edge::{FlowEdge, SemanticEdge};
use crate::graph_store::{compute_edge_list, compute_node_indices, lists_edges, semantic_edge_list, semantic_node_indices};
use crate::ids::{FunctionId, ModuleId, NodeId};
use crate::node::{kind_name, label_of, metadata_of, SemanticNode};
use crate::observability::{
    abbreviate_label, abbreviated, core_kind_name, observability_compute_node_id, observability_group_id,
    observability_semantic_node_id, op_kind_name, preset_includes_edge, preset_includes_layer, semantic_edge_kind,
    shows_edge, shows_layer, structured_debug, ObservabilityEdgeView, ObservabilityGraphRequest,
    ObservabilityGraphResponse, ObservabilityGroupView, ObservabilityLayer, ObservabilityNodeView, ObservabilityPreset,
};
use crate::ops::ComputeNodeOp;
use crate::program_graph::ProgramGraph;
use crate::text::{
    cat, cat3, chars_of, decimal_seq, lemma_lex_asymmetric, lemma_lex_common_prefix, lemma_lex_first_difference,
    lex_lt, opt_view, sort_by_text, sorted_by_text, u64_to_decimal,
};

verus! {

/// The positions of `keys`, ordered so that their keys never decrease.
pub open spec fn orders_by_text(keys: Seq<Seq<char>>, r: Seq<usize>) -> bool {
    &&& r.len() == keys.len()
    &&& forall|i: int| 0 <= i < r.len() ==> (#[trigger] r[i]) < keys.len()
    &&& forall|p: int| 0 <= p < keys.len() ==> #[trigger] r.contains(p as usize)
    &&& forall|a: int, b: int| 0 <= a < b < r.len() ==> !lex_lt(keys[#[trigger] r[b] as int], keys[#[trigger] r[a] as int])
}

/// Orders the positions of `keys` by their keys.
fn order_by_text(keys: Vec<Vec<char>>) -> (r: Vec<usize>)
    ensures
        orders_by_text(keys@.map_values(|k: Vec<char>| k@), r@),
{
    let ghost kv = keys@.map_values(|k: Vec<char>| k@);
    let n = keys.len();
    let mut rest = keys;
    let mut items: Vec<(Vec<char>, usize)> = Vec::new();
    while rest.len() > 0
        invariant
            rest@.len() <= n,
            kv.len() == n,
            forall|p: int| 0 <= p < rest@.len() ==> (#[trigger] rest@[p])@ == kv[p],
            items@.len() == n - rest@.len(),
            forall|j: int| 0 <= j < items@.len() ==> (#[trigger] items@[j]).1 == n - 1 - j && items@[j].0@ == kv[n - 1 - j],
        decreases rest.len(),
    {
        let p = rest.len() - 1;
        let k = rest.pop().unwrap();
        items.push((k, p));
    }
    let sorted = sort_by_text(items);
    let ghost before = items@;
    let mut r: Vec<usize> = Vec::new();
    let mut i: usize = 0;
    while i < sorted.len()
        invariant
            i <= sorted@.len(),
            sorted@.len() == n,
            kv.len() == n,
            before.len() == n,
            sorted@.to_multiset() == before.to_multiset(),
            sorted_by_text(sorted@),
            forall|j: int| 0 <= j < before.len() ==> (#[trigger] before[j]).1 == n - 1 - j && before[j].0@ == kv[n - 1 - j],
            r@.len() == i,
            forall|x: int| 0 <= x < i ==> (#[trigger] r@[x]) == sorted@[x].1,
        decreases sorted.len() - i,
    {
        r.push(sorted[i].1);
        i = i + 1;
    }
    proof {
        sorted@.to_multiset_ensures();
        before.to_multiset_ensures();
        assert forall|x: int| 0 <= x < n implies #[trigger] r@[x] < n && sorted@[x].0@ == kv[r@[x] as int] by {
            assert(sorted@.contains(sorted@[x]));
            assert(sorted@.to_multiset().count(sorted@[x]) > 0);
            assert(before.to_multiset().count(sorted@[x]) > 0);
            assert(before.contains(sorted@[x]));
            let j = choose|j: int| 0 <= j < before.len() && before[j] == sorted@[x];
            assert(before[j].1 == n - 1 - j);
        }
        assert forall|p: int| 0 <= p < n implies #[trigger] r@.contains(p as usize) by {
            let j = n - 1 - p;
            assert(before[j].1 == p);
            assert(before.contains(before[j]));
            assert(before.to_multiset().count(before[j]) > 0);
            assert(sorted@.to_multiset().count(before[j]) > 0);
            assert(sorted@.contains(before[j]));
            let x = choose|x: int| 0 <= x < sorted@.len() && sorted@[x] == before[j];
            assert(r@[x] == p);
        }
        assert forall|a: int, b: int| 0 <= a < b < r@.len() implies !lex_lt(kv[#[trigger] r@[b] as int], kv[#[trigger] r@[a] as int]) by {
            assert(sorted@[a].0@ == kv[r@[a] as int]);
            assert(sorted@[b].0@ == kv[r@[b] as int]);
        }
    }
    r
}

/// The id text of a compute node.
pub open spec fn compute_id_text(k: u32) -> Seq<char> {
    "compute:"@ + decimal_seq(k as nat)
}

/// The id text of a semantic node.
pub open spec fn semantic_id_text(k: u32) -> Seq<char> {
    "semantic:"@ + decimal_seq(k as nat)
}

/// The id text of a function's group.
pub open spec fn group_id_text(f: u32) -> Seq<char> {
    "function:"@ + decimal_seq(f as nat)
}

/// The name of function `f`, if the program has it.
pub open spec fn function_name_of(g: ProgramGraph, f: FunctionId) -> Option<Seq<char>> {
    if (f.0 as int) < g.fns().len() {
        Some(g.fns()[f.0 as int].name@)
    } else {
        None
    }
}

/// The function a semantic node belongs to.
pub open spec fn node_function(n: SemanticNode) -> Option<FunctionId> {
    match n {
        SemanticNode::Function(x) => Some(x.function_id),
        _ => metadata_of(n).ownership.function,
    }
}

/// The module a semantic node belongs to.
pub open spec fn node_module(n: SemanticNode) -> Option<ModuleId> {
    match n {
        SemanticNode::Module(x) => Some(x.module.id),
        _ => metadata_of(n).ownership.module,
    }
}

/// The kind name of an operation.
pub open spec fn op_kind_text(op: ComputeNodeOp) -> Seq<char> {
    match op {
        ComputeNodeOp::Core(inner) => core_kind_name(inner),
        ComputeNodeOp::Structured(inner) => structured_debug(inner),
    }
}

/// `v` shows semantic node `k`.
pub open spec fn semantic_view_is(g: ProgramGraph, k: u32, v: ObservabilityNodeView) -> bool {
    let n = g.snodes()[k];
    let fid = node_function(n);
    &&& v.id@ == semantic_id_text(k)
    &&& v.layer == ObservabilityLayer::Semantic
    &&& v.kind@ == kind_name(n)
    &&& v.label@ == label_of(n)
    &&& v.short_label@ == abbreviated(label_of(n), 20)
    &&& opt_view(v.group_id) == (match fid {
        Some(f) => Some(group_id_text(f.0)),
        None => None,
    })
    &&& v.function_id == fid
    &&& opt_view(v.function_name) == (match fid {
        Some(f) => function_name_of(g, f),
        None => None,
    })
    &&& v.module_id == node_module(n)
    &&& v.compute_node_id is None
    &&& v.semantic_node_id == Some(k)
    &&& opt_view(v.summary) == Some(metadata_of(n).summary.body@)
}

/// `v` shows compute node `k`.
pub open spec fn compute_view_is(g: ProgramGraph, k: u32, v: ObservabilityNodeView) -> bool {
    let n = g.cnodes()[k];
    let kind = op_kind_text(n.op);
    &&& v.id@ == compute_id_text(k)
    &&& v.layer == ObservabilityLayer::Compute
    &&& v.kind@ == kind
    &&& v.label@ == kind + " #"@ + decimal_seq(k as nat)
    &&& v.short_label@ == kind
    &&& opt_view(v.group_id) == Some(group_id_text(n.owner.0))
    &&& v.function_id == Some(n.owner)
    &&& opt_view(v.function_name) == function_name_of(g, n.owner)
    &&& v.module_id == (if (n.owner.0 as int) < g.fns().len() {
        Some(g.fns()[n.owner.0 as int].module)
    } else {
        None
    })
    &&& v.compute_node_id == Some(NodeId(k))
    &&& v.semantic_node_id is None
    &&& v.summary is None
}

fn semantic_node_view(graph: &ProgramGraph, k: u32) -> (v: ObservabilityNodeView)
    requires
        graph.wf(),
        graph.snodes().contains_key(k),
    ensures
        semantic_view_is(*graph, k, v),
{
    let node = crate::graph_store::semantic_node(graph.semantic(), k).unwrap();
    let function_id = node.function_id();
    let label = node.label();
    let function_name = match function_id {
        Some(f) => match graph.get_function(f) {
            Some(def) => Some(def.name.clone()),
            None => None,
        },
        None => None,
    };
    ObservabilityNodeView {
        id: observability_semantic_node_id(k),
        layer: ObservabilityLayer::Semantic,
        kind: String::from_str(node.kind()),
        short_label: abbreviate_label(label.as_str(), 20),
        label,
        group_id: match function_id {
            Some(f) => Some(observability_group_id(f)),
            None => None,
        },
        function_id,
        function_name,
        module_id: node.module_id(),
        compute_node_id: None,
        semantic_node_id: Some(k),
        summary: Some(node.metadata().summary.body.clone()),
    }
}

fn compute_node_view(graph: &ProgramGraph, k: u32) -> (v: ObservabilityNodeView)
    requires
        graph.wf(),
        graph.cnodes().contains_key(k),
    ensures
        compute_view_is(*graph, k, v),
{
    let node = graph.get_compute_node(NodeId(k)).unwrap();
    let kind = op_kind_name(&node.op);
    let label = cat3(kind.as_str(), " #", u64_to_decimal(k as u64).as_str());
    let (function_name, module_id) = match graph.get_function(node.owner) {
        Some(def) => (Some(def.name.clone()), Some(def.module)),
        None => (None, None),
    };
    ObservabilityNodeView {
        id: observability_compute_node_id(NodeId(k)),
        layer: ObservabilityLayer::Compute,
        short_label: kind.clone(),
        kind,
        label,
        group_id: Some(observability_group_id(node.owner)),
        function_id: Some(node.owner),
        function_name,
        module_id,
        compute_node_id: Some(NodeId(k)),
        semantic_node_id: None,
        summary: None,
    }
}

/// The kind name of a semantic relationship.
pub open spec fn relationship_text(w: SemanticEdge) -> Seq<char> {
    match w {
        SemanticEdge::Contains => "contains"@,
        SemanticEdge::Calls => "calls"@,
        SemanticEdge::UsesType => "usestype"@,
        SemanticEdge::Implements => "implements"@,
        SemanticEdge::Validates => "validates"@,
        SemanticEdge::Documents => "documents"@,
    }
}

/// `v` shows flow edge `e` from `a` to `b` with weight `w`.
pub open spec fn flow_edge_view(e: u32, a: u32, b: u32, w: FlowEdge, v: ObservabilityEdgeView) -> bool {
    &&& v.id@ == "compute-edge:"@ + decimal_seq(e as nat)
    &&& v.from@ == compute_id_text(a)
    &&& v.to@ == compute_id_text(b)
    &&& v.from_layer == ObservabilityLayer::Compute
    &&& v.to_layer == ObservabilityLayer::Compute
    &&& !v.cross_layer
    &&& v.relationship is None
    &&& match w {
        FlowEdge::Data { source_port, target_port, value_type } => {
            &&& v.edge_kind@ == "data"@
            &&& v.value_type == Some(value_type)
            &&& v.source_port == Some(source_port)
            &&& v.target_port == Some(target_port)
            &&& v.branch_index is None
        },
        FlowEdge::Control { branch_index } => {
            &&& v.edge_kind@ == "control"@
            &&& v.value_type is None
            &&& v.source_port is None
            &&& v.target_port is None
            &&& v.branch_index == branch_index
        },
    }
}

/// `v` shows relationship `e` from `a` to `b` of kind `w`.
pub open spec fn relationship_view(e: u32, a: u32, b: u32, w: SemanticEdge, v: ObservabilityEdgeView) -> bool {
    &&& v.id@ == "semantic-edge:"@ + decimal_seq(e as nat)
    &&& v.from@ == semantic_id_text(a)
    &&& v.to@ == semantic_id_text(b)
    &&& v.from_layer == ObservabilityLayer::Semantic
    &&& v.to_layer == ObservabilityLayer::Semantic
    &&& v.edge_kind@ == relationship_text(w)
    &&& !v.cross_layer
    &&& v.value_type is None
    &&& v.source_port is None
    &&& v.target_port is None
    &&& v.branch_index is None
    &&& v.relationship == Some(w)
}

/// The part of a function-boundary edge's id after `cross-edge:`.
pub open spec fn cross_key(f: u32, n: u32) -> Seq<char> {
    decimal_seq(f as nat) + ":"@ + compute_id_text(n)
}

/// `v` shows the boundary edge from the semantic node `anchor` of function
/// `f` to its compute node `n`.
pub open spec fn boundary_view(f: u32, anchor: u32, n: u32, v: ObservabilityEdgeView) -> bool {
    &&& v.id@ == "cross-edge:"@ + cross_key(f, n)
    &&& v.from@ == semantic_id_text(anchor)
    &&& v.to@ == compute_id_text(n)
    &&& v.from_layer == ObservabilityLayer::Semantic
    &&& v.to_layer == ObservabilityLayer::Compute
    &&& v.edge_kind@ == "function_boundary"@
    &&& v.cross_layer
    &&& v.value_type is None
    &&& v.source_port is None
    &&& v.target_port is None
    &&& v.branch_index is None
    &&& v.relationship is None
}

fn flow_edge_view_of(e: u32, a: u32, b: u32, w: &FlowEdge) -> (v: ObservabilityEdgeView)
    ensures
        flow_edge_view(e, a, b, *w, v),
{
    let id = cat("compute-edge:", u64_to_decimal(e as u64).as_str());
    let from = observability_compute_node_id(NodeId(a));
    let to = observability_compute_node_id(NodeId(b));
    match w {
        FlowEdge::Data { source_port, target_port, value_type } => ObservabilityEdgeView {
            id,
            from,
            to,
            from_layer: ObservabilityLayer::Compute,
            to_layer: ObservabilityLayer::Compute,
            edge_kind: String::from_str("data"),
            cross_layer: false,
            value_type: Some(*value_type),
            source_port: Some(*source_port),
            target_port: Some(*target_port),
            branch_index: None,
            relationship: None,
        },
        FlowEdge::Control { branch_index } => ObservabilityEdgeView {
            id,
            from,
            to,
            from_layer: ObservabilityLayer::Compute,
            to_layer: ObservabilityLayer::Compute,
            edge_kind: String::from_str("control"),
            cross_layer: false,
            value_type: None,
            source_port: None,
            target_port: None,
            branch_index: *branch_index,
            relationship: None,
        },
    }
}

fn relationship_view_of(e: u32, a: u32, b: u32, w: SemanticEdge) -> (v: ObservabilityEdgeView)
    ensures
        relationship_view(e, a, b, w, v),
{
    ObservabilityEdgeView {
        id: cat("semantic-edge:", u64_to_decimal(e as u64).as_str()),
        from: observability_semantic_node_id(a),
        to: observability_semantic_node_id(b),
        from_layer: ObservabilityLayer::Semantic,
        to_layer: ObservabilityLayer::Semantic,
        edge_kind: semantic_edge_kind(w),
        cross_layer: false,
        value_type: None,
        source_port: None,
        target_port: None,
        branch_index: None,
        relationship: Some(w),
    }
}

fn cross_key_text(f: u32, n: u32) -> (r: String)
    ensures
        r@ == cross_key(f, n),
{
    let node = observability_compute_node_id(NodeId(n));
    cat3(u64_to_decimal(f as u64).as_str(), ":", node.as_str())
}

fn boundary_view_of(f: u32, anchor: u32, n: u32) -> (v: ObservabilityEdgeView)
    ensures
        boundary_view(f, anchor, n, v),
{
    let key = cross_key_text(f, n);
    ObservabilityEdgeView {
        id: cat("cross-edge:", key.as_str()),
        from: observability_semantic_node_id(anchor),
        to: observability_compute_node_id(NodeId(n)),
        from_layer: ObservabilityLayer::Semantic,
        to_layer: ObservabilityLayer::Compute,
        edge_kind: String::from_str("function_boundary"),
        cross_layer: true,
        value_type: None,
        source_port: None,
        target_port: None,
        branch_index: None,
        relationship: None,
    }
}

/// `ns` lists the compute nodes of function `f` by increasing index.
pub open spec fn lists_function_nodes(g: ProgramGraph, f: FunctionId, ns: Seq<NodeId>) -> bool {
    &&& forall|i: int, j: int| 0 <= i < j < ns.len() ==> ns[i].0 < ns[j].0
    &&& forall|k: u32| #[trigger] ns.contains(NodeId(k)) <==> crate::conflict::owned_by(g, k, f)
}

/// `v` is the group of function `f`, whose nodes `ns` lists.
pub open spec fn group_view_is(g: ProgramGraph, f: int, ns: Seq<NodeId>, v: ObservabilityGroupView) -> bool {
    &&& v.id@ == group_id_text(f as u32)
    &&& v.function_id == FunctionId(f as u32)
    &&& v.function_name@ == g.fns()[f].name@
    &&& v.module_id == g.fns()[f].module
    &&& opt_view(v.semantic_anchor_id) == Some(semantic_id_text(g.fsem()[f]))
    &&& v.compute_node_ids@.len() == ns.len()
    &&& forall|i: int| 0 <= i < ns.len() ==> (#[trigger] v.compute_node_ids@[i])@ == compute_id_text(ns[i].0)
}

/// `v` is the group of function `f`.
pub open spec fn shows_group(g: ProgramGraph, f: int, v: ObservabilityGroupView) -> bool {
    exists|ns: Seq<NodeId>| #[trigger] lists_function_nodes(g, FunctionId(f as u32), ns) && group_view_is(g, f, ns, v)
}

fn function_group(graph: &ProgramGraph, f: u32) -> (v: ObservabilityGroupView)
    requires
        graph.wf(),
        (f as int) < graph.fns().len(),
    ensures
        shows_group(*graph, f as int, v),
{
    let def = &graph.functions()[f as usize];
    let nodes = graph.function_nodes(FunctionId(f));
    let mut ids: Vec<String> = Vec::new();
    let mut i: usize = 0;
    while i < nodes.len()
        invariant
            i <= nodes@.len(),
            ids@.len() == i,
            forall|x: int| 0 <= x < i ==> (#[trigger] ids@[x])@ == compute_id_text(nodes@[x].0),
        decreases nodes.len() - i,
    {
        ids.push(observability_compute_node_id(nodes[i]));
        i = i + 1;
    }
    let anchor = graph.function_semantic_indices()[f as usize];
    let v = ObservabilityGroupView {
        id: observability_group_id(FunctionId(f)),
        function_id: FunctionId(f),
        function_name: def.name.clone(),
        module_id: def.module,
        semantic_anchor_id: Some(observability_semantic_node_id(anchor)),
        compute_node_ids: ids,
    };
    proof {
        assert(lists_function_nodes(*graph, FunctionId(f), nodes@));
        assert(group_view_is(*graph, f as int, nodes@, v));
    }
    v
}

/// The positions of `vals`, ordered so that the decimal texts of their
/// values never decrease.
pub open spec fn orders_by_decimal(vals: Seq<u32>, r: Seq<usize>) -> bool {
    &&& r.len() == vals.len()
    &&& forall|i: int| 0 <= i < r.len() ==> (#[trigger] r[i]) < vals.len()
    &&& forall|p: int| 0 <= p < vals.len() ==> #[trigger] r.contains(p as usize)
    &&& forall|a: int, b: int|
        0 <= a < b < r.len() ==> !lex_lt(
            decimal_seq(vals[#[trigger] r[b] as int] as nat),
            decimal_seq(vals[#[trigger] r[a] as int] as nat),
        )
}

fn order_by_decimal(vals: &Vec<u32>) -> (r: Vec<usize>)
    ensures
        orders_by_decimal(vals@, r@),
{
    let mut texts: Vec<Vec<char>> = Vec::new();
    let mut i: usize = 0;
    while i < vals.len()
        invariant
            i <= vals@.len(),
            texts@.len() == i,
            forall|p: int| 0 <= p < i ==> (#[trigger] texts@[p])@ == decimal_seq(vals@[p] as nat),
        decreases vals.len() - i,
    {
        texts.push(chars_of(u64_to_decimal(vals[i] as u64).as_str()));
        i = i + 1;
    }
    let ghost kv = texts@.map_values(|k: Vec<char>| k@);
    let r = order_by_text(texts);
    proof {
        assert forall|a: int, b: int| 0 <= a < b < r@.len() implies !lex_lt(
            decimal_seq(vals@[#[trigger] r@[b] as int] as nat),
            decimal_seq(vals@[#[trigger] r@[a] as int] as nat),
        ) by {
            assert(kv[r@[b] as int] == decimal_seq(vals@[r@[b] as int] as nat));
            assert(kv[r@[a] as int] == decimal_seq(vals@[r@[a] as int] as nat));
        }
    }
    r
}

/// Increasing values without repetition: as many as the set they hold.
proof fn lemma_increasing_len(vals: Seq<u32>, dom: Set<u32>)
    requires
        forall|i: int, j: int| 0 <= i < j < vals.len() ==> vals[i] < vals[j],
        forall|k: u32| vals.contains(k) <==> dom.contains(k),
    ensures
        vals.len() == dom.len(),
{
    assert(vals.no_duplicates()) by {
        assert forall|i: int, j: int| 0 <= i < vals.len() && 0 <= j < vals.len() && i != j implies vals[i] != vals[j] by {
            if i < j {
            } else {
            }
        }
    }
    assert(vals.to_set() =~= dom);
    vals.unique_seq_to_set();
}

/// `v` shows some semantic node.
pub open spec fn shows_semantic_node(g: ProgramGraph, v: ObservabilityNodeView) -> bool {
    exists|k: u32| g.snodes().contains_key(k) && #[trigger] semantic_view_is(g, k, v)
}

/// `v` shows some compute node.
pub open spec fn shows_compute_node(g: ProgramGraph, v: ObservabilityNodeView) -> bool {
    exists|k: u32| g.cnodes().contains_key(k) && #[trigger] compute_view_is(g, k, v)
}

/// Semantic node views, ordered by id.
pub open spec fn semantic_block(g: ProgramGraph, vs: Seq<ObservabilityNodeView>) -> bool {
    &&& forall|i: int| 0 <= i < vs.len() ==> #[trigger] shows_semantic_node(g, vs[i])
    &&& forall|k: u32| #[trigger] g.snodes().contains_key(k) ==> exists|i: int| 0 <= i < vs.len() && semantic_view_is(g, k, #[trigger] vs[i])
    &&& vs.len() == g.snodes().dom().len()
    &&& forall|a: int, b: int| 0 <= a < b < vs.len() ==> !lex_lt((#[trigger] vs[b]).id@, (#[trigger] vs[a]).id@)
}

fn semantic_nodes_view(graph: &ProgramGraph) -> (r: Vec<ObservabilityNodeView>)
    requires
        graph.wf(),
    ensures
        semantic_block(*graph, r@),
{
    let keys = semantic_node_indices(graph.semantic());
    let order = order_by_decimal(&keys);
    let mut out: Vec<ObservabilityNodeView> = Vec::new();
    let mut i: usize = 0;
    while i < order.len()
        invariant
            graph.wf(),
            orders_by_decimal(keys@, order@),
            forall|k: u32| keys@.contains(k) <==> graph.snodes().contains_key(k),
            i <= order@.len(),
            out@.len() == i,
            forall|x: int| 0 <= x < i ==> semantic_view_is(*graph, keys@[order@[x] as int], #[trigger] out@[x]),
        decreases order.len() - i,
    {
        let k = keys[order[i]];
        proof {
            assert(keys@.contains(keys@[order@[i as int] as int]));
        }
        out.push(semantic_node_view(graph, k));
        i = i + 1;
    }
    proof {
        lemma_increasing_len(keys@, graph.snodes().dom());
        assert forall|x: int| 0 <= x < out@.len() implies #[trigger] shows_semantic_node(*graph, out@[x]) by {
            let k = keys@[order@[x] as int];
            assert(order@[x] < keys@.len());
            assert(keys@.contains(k));
            assert(graph.snodes().contains_key(k));
            assert(semantic_view_is(*graph, k, out@[x]));
        }
        assert forall|k: u32| #[trigger] graph.snodes().contains_key(k) implies exists|x: int| 0 <= x < out@.len() && semantic_view_is(*graph, k, #[trigger] out@[x]) by {
            assert(keys@.contains(k));
            let p = choose|p: int| 0 <= p < keys@.len() && keys@[p] == k;
            assert(order@.contains(p as usize));
            let x = choose|x: int| 0 <= x < order@.len() && order@[x] == p as usize;
            assert(semantic_view_is(*graph, k, out@[x]));
        }
        assert forall|a: int, b: int| 0 <= a < b < out@.len() implies !lex_lt((#[trigger] out@[b]).id@, (#[trigger] out@[a]).id@) by {
            lemma_lex_common_prefix(
                "semantic:"@,
                decimal_seq(keys@[order@[b] as int] as nat),
                decimal_seq(keys@[order@[a] as int] as nat),
            );
        }
    }
    out
}

/// Compute node views, ordered by id.
pub open spec fn compute_block(g: ProgramGraph, vs: Seq<ObservabilityNodeView>) -> bool {
    &&& forall|i: int| 0 <= i < vs.len() ==> #[trigger] shows_compute_node(g, vs[i])
    &&& forall|k: u32| #[trigger] g.cnodes().contains_key(k) ==> exists|i: int| 0 <= i < vs.len() && compute_view_is(g, k, #[trigger] vs[i])
    &&& vs.len() == g.cnodes().dom().len()
    &&& forall|a: int, b: int| 0 <= a < b < vs.len() ==> !lex_lt((#[trigger] vs[b]).id@, (#[trigger] vs[a]).id@)
}

fn compute_nodes_view(graph: &ProgramGraph) -> (r: Vec<ObservabilityNodeView>)
    requires
        graph.wf(),
    ensures
        compute_block(*graph, r@),
{
    let keys = compute_node_indices(graph.compute());
    let order = order_by_decimal(&keys);
    let mut out: Vec<ObservabilityNodeView> = Vec::new();
    let mut i: usize = 0;
    while i < order.len()
        invariant
            graph.wf(),
            orders_by_decimal(keys@, order@),
            forall|k: u32| keys@.contains(k) <==> graph.cnodes().contains_key(k),
            i <= order@.len(),
            out@.len() == i,
            forall|x: int| 0 <= x < i ==> compute_view_is(*graph, keys@[order@[x] as int], #[trigger] out@[x]),
        decreases order.len() - i,
    {
        let k = keys[order[i]];
        proof {
            assert(keys@.contains(keys@[order@[i as int] as int]));
        }
        out.push(compute_node_view(graph, k));
        i = i + 1;
    }
    proof {
        lemma_increasing_len(keys@, graph.cnodes().dom());
        assert forall|x: int| 0 <= x < out@.len() implies #[trigger] shows_compute_node(*graph, out@[x]) by {
            let k = keys@[order@[x] as int];
            assert(order@[x] < keys@.len());
            assert(keys@.contains(k));
            assert(graph.cnodes().contains_key(k));
            assert(compute_view_is(*graph, k, out@[x]));
        }
        assert forall|k: u32| #[trigger] graph.cnodes().contains_key(k) implies exists|x: int| 0 <= x < out@.len() && compute_view_is(*graph, k, #[trigger] out@[x]) by {
            assert(keys@.contains(k));
            let p = choose|p: int| 0 <= p < keys@.len() && keys@[p] == k;
            assert(order@.contains(p as usize));
            let x = choose|x: int| 0 <= x < order@.len() && order@[x] == p as usize;
            assert(compute_view_is(*graph, k, out@[x]));
        }
        assert forall|a: int, b: int| 0 <= a < b < out@.len() implies !lex_lt((#[trigger] out@[b]).id@, (#[trigger] out@[a]).id@) by {
            lemma_lex_common_prefix(
                "compute:"@,
                decimal_seq(keys@[order@[b] as int] as nat),
                decimal_seq(keys@[order@[a] as int] as nat),
            );
        }
    }
    out
}

/// `v` shows some flow edge.
pub open spec fn shows_flow_edge(g: ProgramGraph, v: ObservabilityEdgeView) -> bool {
    exists|e: u32| g.cedges().contains_key(e) && #[trigger] flow_edge_view(e, g.cedges()[e].0, g.cedges()[e].1, g.cedges()[e].2, v)
}

/// `v` shows some relationship.
pub open spec fn shows_relationship(g: ProgramGraph, v: ObservabilityEdgeView) -> bool {
    exists|e: u32| g.sedges().contains_key(e) && #[trigger] relationship_view(e, g.sedges()[e].0, g.sedges()[e].1, g.sedges()[e].2, v)
}

/// The owner of compute node `n`.
pub open spec fn owner_of(g: ProgramGraph, n: u32) -> u32 {
    g.cnodes()[n].owner.0
}

/// `v` shows the boundary edge of some compute node.
pub open spec fn shows_boundary(g: ProgramGraph, v: ObservabilityEdgeView) -> bool {
    exists|n: u32| g.cnodes().contains_key(n) && #[trigger] boundary_view(owner_of(g, n), g.fsem()[owner_of(g, n) as int], n, v)
}

/// Edge views, ordered by id.
pub open spec fn ids_ordered(vs: Seq<ObservabilityEdgeView>) -> bool {
    forall|a: int, b: int| 0 <= a < b < vs.len() ==> !lex_lt((#[trigger] vs[b]).id@, (#[trigger] vs[a]).id@)
}

/// The views of all flow edges, ordered by id.
pub open spec fn flow_block(g: ProgramGraph, vs: Seq<ObservabilityEdgeView>) -> bool {
    &&& forall|i: int| 0 <= i < vs.len() ==> #[trigger] shows_flow_edge(g, vs[i])
    &&& forall|e: u32| #[trigger] g.cedges().contains_key(e) ==> exists|i: int|
        0 <= i < vs.len() && flow_edge_view(e, g.cedges()[e].0, g.cedges()[e].1, g.cedges()[e].2, #[trigger] vs[i])
    &&& vs.len() == g.cedges().dom().len()
    &&& ids_ordered(vs)
}

/// The views of all relationships, ordered by id.
pub open spec fn relationship_block(g: ProgramGraph, vs: Seq<ObservabilityEdgeView>) -> bool {
    &&& forall|i: int| 0 <= i < vs.len() ==> #[trigger] shows_relationship(g, vs[i])
    &&& forall|e: u32| #[trigger] g.sedges().contains_key(e) ==> exists|i: int|
        0 <= i < vs.len() && relationship_view(e, g.sedges()[e].0, g.sedges()[e].1, g.sedges()[e].2, #[trigger] vs[i])
    &&& vs.len() == g.sedges().dom().len()
    &&& ids_ordered(vs)
}

/// The views of the boundary edges of all compute nodes, ordered by id.
pub open spec fn boundary_block(g: ProgramGraph, vs: Seq<ObservabilityEdgeView>) -> bool {
    &&& forall|i: int| 0 <= i < vs.len() ==> #[trigger] shows_boundary(g, vs[i])
    &&& forall|n: u32| #[trigger] g.cnodes().contains_key(n) ==> exists|i: int|
        0 <= i < vs.len() && boundary_view(owner_of(g, n), g.fsem()[owner_of(g, n) as int], n, #[trigger] vs[i])
    &&& vs.len() == g.cnodes().dom().len()
    &&& ids_ordered(vs)
}

fn edge_ids<E>(list: &Vec<(u32, u32, u32, E)>) -> (r: Vec<u32>)
    ensures
        r@.len() == list@.len(),
        forall|i: int| 0 <= i < r@.len() ==> #[trigger] r@[i] == list@[i].0,
{
    let mut r: Vec<u32> = Vec::new();
    let mut i: usize = 0;
    while i < list.len()
        invariant
            i <= list@.len(),
            r@.len() == i,
            forall|x: int| 0 <= x < i ==> #[trigger] r@[x] == list@[x].0,
        decreases list.len() - i,
    {
        r.push(list[i].0);
        i = i + 1;
    }
    r
}

fn flow_edges_view(graph: &ProgramGraph) -> (r: Vec<ObservabilityEdgeView>)
    requires
        graph.wf(),
    ensures
        flow_block(*graph, r@),
{
    let list = compute_edge_list(graph.compute());
    let ids = edge_ids(&list);
    let order = order_by_decimal(&ids);
    let mut out: Vec<ObservabilityEdgeView> = Vec::new();
    let mut i: usize = 0;
    while i < order.len()
        invariant
            lists_edges(list@, graph.cedges()),
            ids@.len() == list@.len(),
            forall|x: int| 0 <= x < ids@.len() ==> #[trigger] ids@[x] == list@[x].0,
            orders_by_decimal(ids@, order@),
            i <= order@.len(),
            out@.len() == i,
            forall|x: int| 0 <= x < i ==> {
                let t = list@[order@[x] as int];
                flow_edge_view(t.0, t.1, t.2, t.3, #[trigger] out@[x])
            },
        decreases order.len() - i,
    {
        let p = order[i];
        let t = &list[p];
        out.push(flow_edge_view_of(t.0, t.1, t.2, &t.3));
        i = i + 1;
    }
    proof {
        let ghost idset = ids@;
        assert forall|k: u32| idset.contains(k) <==> graph.cedges().dom().contains(k) by {
            if idset.contains(k) {
                let x = choose|x: int| 0 <= x < idset.len() && idset[x] == k;
                assert(list@[x].0 == k);
            }
            if graph.cedges().contains_key(k) {
                let x = choose|x: int| 0 <= x < list@.len() && (#[trigger] list@[x]).0 == k;
                assert(idset[x] == k);
            }
        }
        assert forall|a: int, b: int| 0 <= a < b < idset.len() implies idset[a] < idset[b] by {
            assert(list@[a].0 < list@[b].0);
        }
        lemma_increasing_len(idset, graph.cedges().dom());
        assert forall|x: int| 0 <= x < out@.len() implies #[trigger] shows_flow_edge(*graph, out@[x]) by {
            let t = list@[order@[x] as int];
            assert(order@[x] < list@.len());
            assert(graph.cedges().contains_key(t.0));
            assert(flow_edge_view(t.0, graph.cedges()[t.0].0, graph.cedges()[t.0].1, graph.cedges()[t.0].2, out@[x]));
        }
        assert forall|e: u32| #[trigger] graph.cedges().contains_key(e) implies exists|x: int|
            0 <= x < out@.len() && flow_edge_view(e, graph.cedges()[e].0, graph.cedges()[e].1, graph.cedges()[e].2, #[trigger] out@[x]) by {
            let p = choose|p: int| 0 <= p < list@.len() && (#[trigger] list@[p]).0 == e;
            assert(order@.contains(p as usize));
            let x = choose|x: int| 0 <= x < order@.len() && order@[x] == p as usize;
            assert(flow_edge_view(e, graph.cedges()[e].0, graph.cedges()[e].1, graph.cedges()[e].2, out@[x]));
        }
        assert forall|a: int, b: int| 0 <= a < b < out@.len() implies !lex_lt((#[trigger] out@[b]).id@, (#[trigger] out@[a]).id@) by {
            lemma_lex_common_prefix(
                "compute-edge:"@,
                decimal_seq(ids@[order@[b] as int] as nat),
                decimal_seq(ids@[order@[a] as int] as nat),
            );
        }
    }
    out
}

fn relationships_view(graph: &ProgramGraph) -> (r: Vec<ObservabilityEdgeView>)
    requires
        graph.wf(),
    ensures
        relationship_block(*graph, r@),
{
    let list = semantic_edge_list(graph.semantic());
    let ids = edge_ids(&list);
    let order = order_by_decimal(&ids);
    let mut out: Vec<ObservabilityEdgeView> = Vec::new();
    let mut i: usize = 0;
    while i < order.len()
        invariant
            lists_edges(list@, graph.sedges()),
            ids@.len() == list@.len(),
            forall|x: int| 0 <= x < ids@.len() ==> #[trigger] ids@[x] == list@[x].0,
            orders_by_decimal(ids@, order@),
            i <= order@.len(),
            out@.len() == i,
            forall|x: int| 0 <= x < i ==> {
                let t = list@[order@[x] as int];
                relationship_view(t.0, t.1, t.2, t.3, #[trigger] out@[x])
            },
        decreases order.len() - i,
    {
        let p = order[i];
        let t = &list[p];
        out.push(relationship_view_of(t.0, t.1, t.2, t.3));
        i = i + 1;
    }
    proof {
        let ghost idset = ids@;
        assert forall|k: u32| idset.contains(k) <==> graph.sedges().dom().contains(k) by {
            if idset.contains(k) {
                let x = choose|x: int| 0 <= x < idset.len() && idset[x] == k;
                assert(list@[x].0 == k);
            }
            if graph.sedges().contains_key(k) {
                let x = choose|x: int| 0 <= x < list@.len() && (#[trigger] list@[x]).0 == k;
                assert(idset[x] == k);
            }
        }
        assert forall|a: int, b: int| 0 <= a < b < idset.len() implies idset[a] < idset[b] by {
            assert(list@[a].0 < list@[b].0);
        }
        lemma_increasing_len(idset, graph.sedges().dom());
        assert forall|x: int| 0 <= x < out@.len() implies #[trigger] shows_relationship(*graph, out@[x]) by {
            let t = list@[order@[x] as int];
            assert(order@[x] < list@.len());
            assert(graph.sedges().contains_key(t.0));
            assert(relationship_view(t.0, graph.sedges()[t.0].0, graph.sedges()[t.0].1, graph.sedges()[t.0].2, out@[x]));
        }
        assert forall|e: u32| #[trigger] graph.sedges().contains_key(e) implies exists|x: int|
            0 <= x < out@.len() && relationship_view(e, graph.sedges()[e].0, graph.sedges()[e].1, graph.sedges()[e].2, #[trigger] out@[x]) by {
            let p = choose|p: int| 0 <= p < list@.len() && (#[trigger] list@[p]).0 == e;
            assert(order@.contains(p as usize));
            let x = choose|x: int| 0 <= x < order@.len() && order@[x] == p as usize;
            assert(relationship_view(e, graph.sedges()[e].0, graph.sedges()[e].1, graph.sedges()[e].2, out@[x]));
        }
        assert forall|a: int, b: int| 0 <= a < b < out@.len() implies !lex_lt((#[trigger] out@[b]).id@, (#[trigger] out@[a]).id@) by {
            lemma_lex_common_prefix(
                "semantic-edge:"@,
                decimal_seq(ids@[order@[b] as int] as nat),
                decimal_seq(ids@[order@[a] as int] as nat),
            );
        }
    }
    out
}

fn boundaries_view(graph: &ProgramGraph) -> (r: Vec<ObservabilityEdgeView>)
    requires
        graph.wf(),
    ensures
        boundary_block(*graph, r@),
{
    let keys = compute_node_indices(graph.compute());
    let fsem = graph.function_semantic_indices();
    let mut owners: Vec<u32> = Vec::new();
    let mut texts: Vec<Vec<char>> = Vec::new();
    let mut i: usize = 0;
    while i < keys.len()
        invariant
            graph.wf(),
            fsem@ == graph.fsem(),
            forall|k: u32| keys@.contains(k) <==> graph.cnodes().contains_key(k),
            i <= keys@.len(),
            owners@.len() == i,
            texts@.len() == i,
            forall|x: int| 0 <= x < i ==> #[trigger] owners@[x] == owner_of(*graph, keys@[x]),
            forall|x: int| 0 <= x < i ==> (#[trigger] texts@[x])@ == cross_key(owner_of(*graph, keys@[x]), keys@[x]),
        decreases keys.len() - i,
    {
        proof {
            assert(keys@.contains(keys@[i as int]));
        }
        let n = keys[i];
        let owner = graph.get_compute_node(NodeId(n)).unwrap().owner.0;
        owners.push(owner);
        texts.push(chars_of(cross_key_text(owner, n).as_str()));
        i = i + 1;
    }
    let ghost kv = texts@.map_values(|k: Vec<char>| k@);
    let order = order_by_text(texts);
    let mut out: Vec<ObservabilityEdgeView> = Vec::new();
    let mut j: usize = 0;
    while j < order.len()
        invariant
            graph.wf(),
            fsem@ == graph.fsem(),
            forall|k: u32| keys@.contains(k) <==> graph.cnodes().contains_key(k),
            owners@.len() == keys@.len(),
            kv.len() == keys@.len(),
            forall|x: int| 0 <= x < keys@.len() ==> #[trigger] owners@[x] == owner_of(*graph, keys@[x]),
            forall|x: int| 0 <= x < keys@.len() ==> #[trigger] kv[x] == cross_key(owner_of(*graph, keys@[x]), keys@[x]),
            orders_by_text(kv, order@),
            j <= order@.len(),
            out@.len() == j,
            forall|x: int| 0 <= x < j ==> {
                let n = keys@[order@[x] as int];
                boundary_view(owner_of(*graph, n), graph.fsem()[owner_of(*graph, n) as int], n, #[trigger] out@[x])
            },
        decreases order.len() - j,
    {
        let p = order[j];
        proof {
            assert(keys@.contains(keys@[p as int]));
            assert(owners@[p as int] == owner_of(*graph, keys@[p as int]));
        }
        let owner = owners[p];
        out.push(boundary_view_of(owner, fsem[owner as usize], keys[p]));
        j = j + 1;
    }
    proof {
        lemma_increasing_len(keys@, graph.cnodes().dom());
        assert forall|x: int| 0 <= x < out@.len() implies #[trigger] shows_boundary(*graph, out@[x]) by {
            let n = keys@[order@[x] as int];
            assert(order@[x] < keys@.len());
            assert(keys@.contains(n));
            assert(graph.cnodes().contains_key(n));
        }
        assert forall|n: u32| #[trigger] graph.cnodes().contains_key(n) implies exists|x: int|
            0 <= x < out@.len() && boundary_view(owner_of(*graph, n), graph.fsem()[owner_of(*graph, n) as int], n, #[trigger] out@[x]) by {
            assert(keys@.contains(n));
            let p = choose|p: int| 0 <= p < keys@.len() && keys@[p] == n;
            assert(order@.contains(p as usize));
            let x = choose|x: int| 0 <= x < order@.len() && order@[x] == p as usize;
            assert(boundary_view(owner_of(*graph, n), graph.fsem()[owner_of(*graph, n) as int], n, out@[x]));
        }
        assert forall|a: int, b: int| 0 <= a < b < out@.len() implies !lex_lt((#[trigger] out@[b]).id@, (#[trigger] out@[a]).id@) by {
            let pa = order@[a] as int;
            let pb = order@[b] as int;
            assert(!lex_lt(kv[pb], kv[pa]));
            lemma_lex_common_prefix("cross-edge:"@, kv[pb], kv[pa]);
        }
    }
    out
}

fn groups_view(graph: &ProgramGraph) -> (r: Vec<ObservabilityGroupView>)
    requires
        graph.wf(),
    ensures
        r@.len() == graph.fns().len(),
        forall|f: int| 0 <= f < r@.len() ==> #[trigger] shows_group(*graph, f, r@[f]),
{
    let n = graph.functions().len();
    let mut out: Vec<ObservabilityGroupView> = Vec::new();
    let mut f: usize = 0;
    while f < n
        invariant
            graph.wf(),
            n == graph.fns().len(),
            f <= n,
            out@.len() == f,
            forall|x: int| 0 <= x < f ==> #[trigger] shows_group(*graph, x, out@[x]),
        decreases n - f,
    {
        let g = function_group(graph, f as u32);
        out.push(g);
        f = f + 1;
    }
    out
}

/// The sort rank of a layer: semantic nodes before compute nodes.
pub open spec fn rank_of(l: ObservabilityLayer) -> int {
    if l == ObservabilityLayer::Semantic {
        0
    } else {
        1
    }
}

/// The nodes a preset shows: every node of each layer it shows, once,
/// semantic nodes first, each layer ordered by id.
pub open spec fn nodes_view_is(g: ProgramGraph, p: ObservabilityPreset, vs: Seq<ObservabilityNodeView>) -> bool {
    let sem = shows_layer(p, ObservabilityLayer::Semantic);
    let comp = shows_layer(p, ObservabilityLayer::Compute);
    &&& forall|i: int| 0 <= i < vs.len() ==> (sem && shows_semantic_node(g, #[trigger] vs[i])) || (comp && shows_compute_node(g, vs[i]))
    &&& sem ==> forall|k: u32| #[trigger] g.snodes().contains_key(k) ==> exists|i: int| 0 <= i < vs.len() && semantic_view_is(g, k, #[trigger] vs[i])
    &&& comp ==> forall|k: u32| #[trigger] g.cnodes().contains_key(k) ==> exists|i: int| 0 <= i < vs.len() && compute_view_is(g, k, #[trigger] vs[i])
    &&& vs.len() == (if sem { g.snodes().dom().len() } else { 0 }) + (if comp { g.cnodes().dom().len() } else { 0 })
    &&& forall|a: int, b: int| 0 <= a < b < vs.len() ==> rank_of((#[trigger] vs[a]).layer) < rank_of((#[trigger] vs[b]).layer)
        || (vs[a].layer == vs[b].layer && !lex_lt(vs[b].id@, vs[a].id@))
}

/// A preset shows the flow edges.
pub open spec fn flows_shown(p: ObservabilityPreset) -> bool {
    shows_layer(p, ObservabilityLayer::Compute) && shows_edge(p, false, ObservabilityLayer::Compute, ObservabilityLayer::Compute)
}

/// A preset shows the relationships.
pub open spec fn relationships_shown(p: ObservabilityPreset) -> bool {
    shows_layer(p, ObservabilityLayer::Semantic) && shows_edge(p, false, ObservabilityLayer::Semantic, ObservabilityLayer::Semantic)
}

/// A preset, with cross-layer edges asked for, shows the boundary edges.
pub open spec fn boundaries_shown(p: ObservabilityPreset, cross: bool) -> bool {
    &&& cross
    &&& shows_layer(p, ObservabilityLayer::Semantic)
    &&& shows_layer(p, ObservabilityLayer::Compute)
    &&& shows_edge(p, true, ObservabilityLayer::Semantic, ObservabilityLayer::Compute)
}

/// The edges a preset shows: every flow edge, boundary edge and
/// relationship of each kind it shows, once, ordered by id.
pub open spec fn edges_view_is(g: ProgramGraph, p: ObservabilityPreset, cross: bool, vs: Seq<ObservabilityEdgeView>) -> bool {
    &&& forall|i: int| 0 <= i < vs.len() ==> (flows_shown(p) && shows_flow_edge(g, #[trigger] vs[i])) || (boundaries_shown(p, cross)
        && shows_boundary(g, vs[i])) || (relationships_shown(p) && shows_relationship(g, vs[i]))
    &&& flows_shown(p) ==> forall|e: u32| #[trigger] g.cedges().contains_key(e) ==> exists|i: int|
        0 <= i < vs.len() && flow_edge_view(e, g.cedges()[e].0, g.cedges()[e].1, g.cedges()[e].2, #[trigger] vs[i])
    &&& boundaries_shown(p, cross) ==> forall|n: u32| #[trigger] g.cnodes().contains_key(n) ==> exists|i: int|
        0 <= i < vs.len() && boundary_view(owner_of(g, n), g.fsem()[owner_of(g, n) as int], n, #[trigger] vs[i])
    &&& relationships_shown(p) ==> forall|e: u32| #[trigger] g.sedges().contains_key(e) ==> exists|i: int|
        0 <= i < vs.len() && relationship_view(e, g.sedges()[e].0, g.sedges()[e].1, g.sedges()[e].2, #[trigger] vs[i])
    &&& vs.len() == (if flows_shown(p) { g.cedges().dom().len() } else { 0 }) + (if boundaries_shown(p, cross) {
        g.cnodes().dom().len()
    } else {
        0
    }) + (if relationships_shown(p) { g.sedges().dom().len() } else { 0 })
    &&& ids_ordered(vs)
}

fn edge_class_shown(preset: ObservabilityPreset, cross: bool, from: ObservabilityLayer, to: ObservabilityLayer) -> (r: bool)
    ensures
        r == (shows_layer(preset, from) && shows_layer(preset, to) && shows_edge(preset, cross, from, to)),
{
    let probe = ObservabilityEdgeView {
        id: String::new(),
        from: String::new(),
        to: String::new(),
        from_layer: from,
        to_layer: to,
        edge_kind: String::new(),
        cross_layer: cross,
        value_type: None,
        source_port: None,
        target_port: None,
        branch_index: None,
        relationship: None,
    };
    preset_includes_layer(preset, from) && preset_includes_layer(preset, to) && preset_includes_edge(preset, &probe)
}

/// Ids of flow edges come before those of boundary edges, and those before
/// the ids of relationships.
proof fn lemma_edge_kinds_ordered(x: Seq<char>, y: Seq<char>)
    ensures
        lex_lt("compute-edge:"@ + x, "cross-edge:"@ + y),
        lex_lt("cross-edge:"@ + x, "semantic-edge:"@ + y),
        lex_lt("compute-edge:"@ + x, "semantic-edge:"@ + y),
{
    reveal_strlit("compute-edge:");
    reveal_strlit("cross-edge:");
    reveal_strlit("semantic-edge:");
    let a = "compute-edge:"@ + x;
    let b = "cross-edge:"@ + y;
    let c = "semantic-edge:"@ + y;
    let b2 = "cross-edge:"@ + x;
    assert(a.take(1) =~= b.take(1));
    lemma_lex_first_difference(a, b, 1);
    assert(b2.take(0) =~= c.take(0));
    lemma_lex_first_difference(b2, c, 0);
    assert(a.take(0) =~= c.take(0));
    lemma_lex_first_difference(a, c, 0);
}

proof fn lemma_nodes_joined(g: ProgramGraph, p: ObservabilityPreset, sem_part: Seq<ObservabilityNodeView>, comp_part: Seq<ObservabilityNodeView>)
    requires
        shows_layer(p, ObservabilityLayer::Semantic) ==> semantic_block(g, sem_part),
        !shows_layer(p, ObservabilityLayer::Semantic) ==> sem_part.len() == 0,
        shows_layer(p, ObservabilityLayer::Compute) ==> compute_block(g, comp_part),
        !shows_layer(p, ObservabilityLayer::Compute) ==> comp_part.len() == 0,
    ensures
        nodes_view_is(g, p, sem_part + comp_part),
{
    let sem = shows_layer(p, ObservabilityLayer::Semantic);
    let comp = shows_layer(p, ObservabilityLayer::Compute);
    let vs = sem_part + comp_part;
    let n = sem_part.len() as int;
    assert forall|i: int| 0 <= i < vs.len() implies (sem && shows_semantic_node(g, #[trigger] vs[i])) || (comp
        && shows_compute_node(g, vs[i])) by {
        if i < n {
            assert(vs[i] == sem_part[i]);
        } else {
            assert(vs[i] == comp_part[i - n]);
        }
    }
    if sem {
        assert forall|k: u32| #[trigger] g.snodes().contains_key(k) implies exists|i: int|
            0 <= i < vs.len() && semantic_view_is(g, k, #[trigger] vs[i]) by {
            let i = choose|i: int| 0 <= i < sem_part.len() && semantic_view_is(g, k, #[trigger] sem_part[i]);
            assert(vs[i] == sem_part[i]);
        }
    }
    if comp {
        assert forall|k: u32| #[trigger] g.cnodes().contains_key(k) implies exists|i: int|
            0 <= i < vs.len() && compute_view_is(g, k, #[trigger] vs[i]) by {
            let i = choose|i: int| 0 <= i < comp_part.len() && compute_view_is(g, k, #[trigger] comp_part[i]);
            assert(vs[i + n] == comp_part[i]);
        }
    }
    assert forall|a: int, b: int| 0 <= a < b < vs.len() implies rank_of((#[trigger] vs[a]).layer) < rank_of(
        (#[trigger] vs[b]).layer,
    ) || (vs[a].layer == vs[b].layer && !lex_lt(vs[b].id@, vs[a].id@)) by {
        if a < n {
            assert(vs[a] == sem_part[a]);
            assert(shows_semantic_node(g, sem_part[a]));
            let k = choose|k: u32| g.snodes().contains_key(k) && #[trigger] semantic_view_is(g, k, sem_part[a]);
            assert(vs[a].layer == ObservabilityLayer::Semantic);
        } else {
            assert(vs[a] == comp_part[a - n]);
            assert(shows_compute_node(g, comp_part[a - n]));
            let k = choose|k: u32| g.cnodes().contains_key(k) && #[trigger] compute_view_is(g, k, comp_part[a - n]);
            assert(vs[a].layer == ObservabilityLayer::Compute);
        }
        if b < n {
            assert(vs[b] == sem_part[b]);
            assert(shows_semantic_node(g, sem_part[b]));
            let k = choose|k: u32| g.snodes().contains_key(k) && #[trigger] semantic_view_is(g, k, sem_part[b]);
            assert(vs[b].layer == ObservabilityLayer::Semantic);
        } else {
            assert(vs[b] == comp_part[b - n]);
            assert(shows_compute_node(g, comp_part[b - n]));
            let k = choose|k: u32| g.cnodes().contains_key(k) && #[trigger] compute_view_is(g, k, comp_part[b - n]);
            assert(vs[b].layer == ObservabilityLayer::Compute);
        }
        if b < n {
            assert(!lex_lt(sem_part[b].id@, sem_part[a].id@));
        } else if a >= n {
            assert(!lex_lt(comp_part[b - n].id@, comp_part[a - n].id@));
        }
    }
}

proof fn lemma_edges_joined(
    g: ProgramGraph,
    p: ObservabilityPreset,
    cross: bool,
    flow_part: Seq<ObservabilityEdgeView>,
    bound_part: Seq<ObservabilityEdgeView>,
    rel_part: Seq<ObservabilityEdgeView>,
)
    requires
        flows_shown(p) ==> flow_block(g, flow_part),
        !flows_shown(p) ==> flow_part.len() == 0,
        boundaries_shown(p, cross) ==> boundary_block(g, bound_part),
        !boundaries_shown(p, cross) ==> bound_part.len() == 0,
        relationships_shown(p) ==> relationship_block(g, rel_part),
        !relationships_shown(p) ==> rel_part.len() == 0,
    ensures
        edges_view_is(g, p, cross, flow_part + bound_part + rel_part),
{
    let vs = flow_part + bound_part + rel_part;
    let n1 = flow_part.len() as int;
    let n2 = n1 + bound_part.len();
    assert forall|i: int| 0 <= i < vs.len() implies (flows_shown(p) && shows_flow_edge(g, #[trigger] vs[i])) || (
    boundaries_shown(p, cross) && shows_boundary(g, vs[i])) || (relationships_shown(p) && shows_relationship(g, vs[i])) by {
        if i < n1 {
            assert(vs[i] == flow_part[i]);
        } else if i < n2 {
            assert(vs[i] == bound_part[i - n1]);
        } else {
            assert(vs[i] == rel_part[i - n2]);
        }
    }
    if flows_shown(p) {
        assert forall|e: u32| #[trigger] g.cedges().contains_key(e) implies exists|i: int|
            0 <= i < vs.len() && flow_edge_view(e, g.cedges()[e].0, g.cedges()[e].1, g.cedges()[e].2, #[trigger] vs[i]) by {
            let i = choose|i: int|
                0 <= i < flow_part.len() && flow_edge_view(e, g.cedges()[e].0, g.cedges()[e].1, g.cedges()[e].2, #[trigger] flow_part[i]);
            assert(vs[i] == flow_part[i]);
        }
    }
    if boundaries_shown(p, cross) {
        assert forall|n: u32| #[trigger] g.cnodes().contains_key(n) implies exists|i: int|
            0 <= i < vs.len() && boundary_view(owner_of(g, n), g.fsem()[owner_of(g, n) as int], n, #[trigger] vs[i]) by {
            let i = choose|i: int|
                0 <= i < bound_part.len() && boundary_view(owner_of(g, n), g.fsem()[owner_of(g, n) as int], n, #[trigger] bound_part[i]);
            assert(vs[i + n1] == bound_part[i]);
        }
    }
    if relationships_shown(p) {
        assert forall|e: u32| #[trigger] g.sedges().contains_key(e) implies exists|i: int|
            0 <= i < vs.len() && relationship_view(e, g.sedges()[e].0, g.sedges()[e].1, g.sedges()[e].2, #[trigger] vs[i]) by {
            let i = choose|i: int|
                0 <= i < rel_part.len() && relationship_view(e, g.sedges()[e].0, g.sedges()[e].1, g.sedges()[e].2, #[trigger] rel_part[i]);
            assert(vs[i + n2] == rel_part[i]);
        }
    }
    assert forall|a: int, b: int| 0 <= a < b < vs.len() implies !lex_lt((#[trigger] vs[b]).id@, (#[trigger] vs[a]).id@) by {
        lemma_edge_pair_ordered(g, p, cross, flow_part, bound_part, rel_part, a, b);
    }
}

proof fn lemma_edge_pair_ordered(
    g: ProgramGraph,
    p: ObservabilityPreset,
    cross: bool,
    flow_part: Seq<ObservabilityEdgeView>,
    bound_part: Seq<ObservabilityEdgeView>,
    rel_part: Seq<ObservabilityEdgeView>,
    a: int,
    b: int,
)
    requires
        flows_shown(p) ==> flow_block(g, flow_part),
        !flows_shown(p) ==> flow_part.len() == 0,
        boundaries_shown(p, cross) ==> boundary_block(g, bound_part),
        !boundaries_shown(p, cross) ==> bound_part.len() == 0,
        relationships_shown(p) ==> relationship_block(g, rel_part),
        !relationships_shown(p) ==> rel_part.len() == 0,
        0 <= a < b < (flow_part + bound_part + rel_part).len(),
    ensures
        !lex_lt((flow_part + bound_part + rel_part)[b].id@, (flow_part + bound_part + rel_part)[a].id@),
{
    let vs = flow_part + bound_part + rel_part;
    let n1 = flow_part.len() as int;
    let n2 = n1 + bound_part.len();
    if b < n1 {
        assert(vs[a] == flow_part[a] && vs[b] == flow_part[b]);
    } else if a >= n2 {
        assert(vs[a] == rel_part[a - n2] && vs[b] == rel_part[b - n2]);
    } else if a >= n1 && b < n2 {
        assert(vs[a] == bound_part[a - n1] && vs[b] == bound_part[b - n1]);
    } else {
        let x = vs[a];
        let y = vs[b];
        if a < n1 {
            assert(x == flow_part[a]);
            assert(shows_flow_edge(g, flow_part[a]));
            let e = choose|e: u32| g.cedges().contains_key(e) && #[trigger] flow_edge_view(e, g.cedges()[e].0, g.cedges()[e].1, g.cedges()[e].2, x);
            if b < n2 {
                assert(y == bound_part[b - n1]);
                assert(shows_boundary(g, bound_part[b - n1]));
                let m = choose|m: u32| g.cnodes().contains_key(m) && #[trigger] boundary_view(owner_of(g, m), g.fsem()[owner_of(g, m) as int], m, y);
                lemma_edge_kinds_ordered(decimal_seq(e as nat), cross_key(owner_of(g, m), m));
                lemma_lex_asymmetric(x.id@, y.id@);
            } else {
                assert(y == rel_part[b - n2]);
                assert(shows_relationship(g, rel_part[b - n2]));
                let f = choose|f: u32| g.sedges().contains_key(f) && #[trigger] relationship_view(f, g.sedges()[f].0, g.sedges()[f].1, g.sedges()[f].2, y);
                lemma_edge_kinds_ordered(decimal_seq(e as nat), decimal_seq(f as nat));
                lemma_lex_asymmetric(x.id@, y.id@);
            }
        } else {
            assert(x == bound_part[a - n1]);
            assert(y == rel_part[b - n2]);
            assert(shows_boundary(g, bound_part[a - n1]));
            assert(shows_relationship(g, rel_part[b - n2]));
            let m = choose|m: u32| g.cnodes().contains_key(m) && #[trigger] boundary_view(owner_of(g, m), g.fsem()[owner_of(g, m) as int], m, x);
            let f = choose|f: u32| g.sedges().contains_key(f) && #[trigger] relationship_view(f, g.sedges()[f].0, g.sedges()[f].1, g.sedges()[f].2, y);
            lemma_edge_kinds_ordered(cross_key(owner_of(g, m), m), decimal_seq(f as nat));
            lemma_lex_asymmetric(x.id@, y.id@);
        }
    }
}

/// The observability graph of a program for a request: the groups of all
/// functions by id, the nodes of the layers the preset shows, and the
/// edges it shows (see [`nodes_view_is`], [`edges_view_is`]).
pub fn observability_graph(graph: &ProgramGraph, request: &ObservabilityGraphRequest) -> (r: Result<ObservabilityGraphResponse, ApiError>)
    requires
        graph.wf(),
    ensures
        r matches Ok(resp) && {
            &&& resp.preset == request.preset
            &&& resp.node_count == resp.nodes@.len()
            &&& resp.edge_count == resp.edges@.len()
            &&& resp.groups@.len() == graph.fns().len()
            &&& forall|f: int| 0 <= f < resp.groups@.len() ==> #[trigger] shows_group(*graph, f, resp.groups@[f])
            &&& nodes_view_is(*graph, request.preset, resp.nodes@)
            &&& edges_view_is(*graph, request.preset, request.include_cross_layer, resp.edges@)
        },
{
    let preset = request.preset;
    let groups = groups_view(graph);
    let sem = preset_includes_layer(preset, ObservabilityLayer::Semantic);
    let comp = preset_includes_layer(preset, ObservabilityLayer::Compute);
    let mut nodes: Vec<ObservabilityNodeView> = if sem {
        semantic_nodes_view(graph)
    } else {
        Vec::new()
    };
    let ghost sem_part = nodes@;
    let mut comp_nodes: Vec<ObservabilityNodeView> = if comp {
        compute_nodes_view(graph)
    } else {
        Vec::new()
    };
    let ghost comp_part = comp_nodes@;
    nodes.append(&mut comp_nodes);
    proof {
        lemma_nodes_joined(*graph, preset, sem_part, comp_part);
    }
    let flows = edge_class_shown(preset, false, ObservabilityLayer::Compute, ObservabilityLayer::Compute);
    let bounds = request.include_cross_layer && edge_class_shown(
        preset,
        true,
        ObservabilityLayer::Semantic,
        ObservabilityLayer::Compute,
    );
    let rels = edge_class_shown(preset, false, ObservabilityLayer::Semantic, ObservabilityLayer::Semantic);
    let mut edges: Vec<ObservabilityEdgeView> = if flows {
        flow_edges_view(graph)
    } else {
        Vec::new()
    };
    let ghost flow_part = edges@;
    let mut boundary_edges: Vec<ObservabilityEdgeView> = if bounds {
        boundaries_view(graph)
    } else {
        Vec::new()
    };
    let ghost bound_part = boundary_edges@;
    let mut relationship_edges: Vec<ObservabilityEdgeView> = if rels {
        relationships_view(graph)
    } else {
        Vec::new()
    };
    let ghost rel_part = relationship_edges@;
    edges.append(&mut boundary_edges);
    edges.append(&mut relationship_edges);
    proof {
        lemma_edges_joined(*graph, preset, request.include_cross_layer, flow_part, bound_part, rel_part);
    }
    let node_count = nodes.len();
    let edge_count = edges.len();
    Ok(ObservabilityGraphResponse { preset, node_count, edge_count, nodes, edges, groups })
}

/// Some node of `nodes` has the id `id`.
pub open spec fn has_node_id(nodes: Seq<ObservabilityNodeView>, id: Seq<char>) -> bool {
    exists|j: int| 0 <= j < nodes.len() && (#[trigger] nodes[j]).id@ == id
}

/// Every edge of the observability graph joins two nodes the graph shows.
pub proof fn lemma_edges_join_shown_nodes(
    g: ProgramGraph,
    p: ObservabilityPreset,
    cross: bool,
    nodes: Seq<ObservabilityNodeView>,
    edges: Seq<ObservabilityEdgeView>,
)
    requires
        g.wf(),
        nodes_view_is(g, p, nodes),
        edges_view_is(g, p, cross, edges),
    ensures
        forall|i: int| 0 <= i < edges.len() ==> has_node_id(nodes, (#[trigger] edges[i]).from@) && has_node_id(nodes, edges[i].to@),
{
    assert forall|i: int| 0 <= i < edges.len() implies has_node_id(nodes, (#[trigger] edges[i]).from@) && has_node_id(nodes, edges[i].to@) by {
        let v = edges[i];
        if flows_shown(p) && shows_flow_edge(g, v) {
            let e = choose|e: u32| g.cedges().contains_key(e) && #[trigger] flow_edge_view(e, g.cedges()[e].0, g.cedges()[e].1, g.cedges()[e].2, v);
            let a = g.cedges()[e].0;
            let b = g.cedges()[e].1;
            assert(g.cnodes().contains_key(a) && g.cnodes().contains_key(b));
            let ja = choose|j: int| 0 <= j < nodes.len() && compute_view_is(g, a, #[trigger] nodes[j]);
            let jb = choose|j: int| 0 <= j < nodes.len() && compute_view_is(g, b, #[trigger] nodes[j]);
            assert(nodes[ja].id@ == v.from@);
            assert(nodes[jb].id@ == v.to@);
        } else if boundaries_shown(p, cross) && shows_boundary(g, v) {
            let n = choose|n: u32| g.cnodes().contains_key(n) && #[trigger] boundary_view(owner_of(g, n), g.fsem()[owner_of(g, n) as int], n, v);
            let f = owner_of(g, n) as int;
            assert(f < g.fsem().len());
            let anchor = g.fsem()[f];
            assert(g.snodes().contains_key(anchor));
            let ja = choose|j: int| 0 <= j < nodes.len() && semantic_view_is(g, anchor, #[trigger] nodes[j]);
            let jb = choose|j: int| 0 <= j < nodes.len() && compute_view_is(g, n, #[trigger] nodes[j]);
            assert(nodes[ja].id@ == v.from@);
            assert(nodes[jb].id@ == v.to@);
        } else {
            assert(relationships_shown(p) && shows_relationship(g, v));
            let e = choose|e: u32| g.sedges().contains_key(e) && #[trigger] relationship_view(e, g.sedges()[e].0, g.sedges()[e].1, g.sedges()[e].2, v);
            let a = g.sedges()[e].0;
            let b = g.sedges()[e].1;
            assert(g.snodes().contains_key(a) && g.snodes().contains_key(b));
            let ja = choose|j: int| 0 <= j < nodes.len() && semantic_view_is(g, a, #[trigger] nodes[j]);
            let jb = choose|j: int| 0 <= j < nodes.len() && semantic_view_is(g, b, #[trigger] nodes[j]);
            assert(nodes[ja].id@ == v.from@);
            assert(nodes[jb].id@ == v.to@);
        }
    }
}

} // verus!
