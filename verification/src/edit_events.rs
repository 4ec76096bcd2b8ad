//! Propagation events raised by edits: seeds named by kind through the API,
//! and the events that committed mutations enqueue.

use vstd::prelude::*;
use crate::api_error::ApiError;
use crate::edits::Mutation;
use crate::ids::{FunctionId, NodeId};
use crate::program_graph::ProgramGraph;
use crate::propagation::{ComputeEvent, PropagationEvent, PropagationEventKind, PropagationLayer, SemanticEvent};
use crate::schema::PropagationEventSeed;
use crate::text::{cat, cat3, str_eq};

verus! {

/// The text of an optional field, or `default` when absent.
pub open spec fn text_or(o: Option<String>, default: Seq<char>) -> Seq<char> {
    match o {
        Some(s) => s@,
        None => default,
    }
}

/// `e` is the event kind of a compute seed of kind `k` about `node`.
pub open spec fn compute_seed_kind(k: Seq<char>, s: PropagationEventSeed, node: u32, e: PropagationEventKind) -> bool {
    let f = FunctionId(s.function_id);
    if k == "compute.node_inserted"@ {
        e matches PropagationEventKind::Compute(ComputeEvent::NodeInserted { function_id, node_id, op_kind })
            && function_id == f && node_id == NodeId(node) && op_kind@ == text_or(s.op_kind, "Unknown"@)
    } else if k == "compute.node_modified"@ {
        e matches PropagationEventKind::Compute(ComputeEvent::NodeModified { function_id, node_id, op_kind })
            && function_id == f && node_id == NodeId(node) && op_kind@ == text_or(s.op_kind, "Unknown"@)
    } else {
        e == PropagationEventKind::Compute(ComputeEvent::NodeRemoved { function_id: f, node_id: NodeId(node) })
    }
}

/// Kinds of compute seeds that name a node.
pub open spec fn is_node_seed_kind(k: Seq<char>) -> bool {
    k == "compute.node_inserted"@ || k == "compute.node_modified"@ || k == "compute.node_removed"@
}

/// What a seed gives: the origin layer and event kind its kind names, or
/// `BadRequest` for a node event without a node, or for an unknown kind.
pub open spec fn seed_outcome(s: PropagationEventSeed, r: Result<(PropagationLayer, PropagationEventKind), ApiError>) -> bool {
    let k = s.kind@;
    let f = FunctionId(s.function_id);
    if k == "semantic.function_created"@ {
        r == Ok::<(PropagationLayer, PropagationEventKind), ApiError>(
            (PropagationLayer::Semantic, PropagationEventKind::Semantic(SemanticEvent::FunctionCreated { function_id: f })),
        )
    } else if k == "semantic.function_signature_changed"@ {
        r == Ok::<(PropagationLayer, PropagationEventKind), ApiError>(
            (
                PropagationLayer::Semantic,
                PropagationEventKind::Semantic(SemanticEvent::FunctionSignatureChanged { function_id: f }),
            ),
        )
    } else if k == "semantic.contract_added"@ {
        r matches Ok((l, PropagationEventKind::Semantic(SemanticEvent::ContractAdded { function_id, contract_name })))
            && l == PropagationLayer::Semantic && function_id == f && contract_name@ == text_or(
            s.contract_name,
            "contract"@,
        )
    } else if is_node_seed_kind(k) {
        match s.node_id {
            Some(n) => r matches Ok((l, e)) && l == PropagationLayer::Compute && compute_seed_kind(k, s, n, e),
            None => r matches Err(ApiError::BadRequest(m)) && m@ == "node_id required for "@ + k,
        }
    } else if k == "compute.control_flow_changed"@ {
        r == Ok::<(PropagationLayer, PropagationEventKind), ApiError>(
            (PropagationLayer::Compute, PropagationEventKind::Compute(ComputeEvent::ControlFlowChanged { function_id: f })),
        )
    } else {
        r matches Err(ApiError::BadRequest(m)) && m@ == "unknown propagation event kind '"@ + k + "'"@
    }
}

fn text_or_default(o: &Option<String>, default: &str) -> (r: String)
    ensures
        r@ == text_or(*o, default@),
{
    match o {
        Some(s) => s.clone(),
        None => String::from_str(default),
    }
}

/// The origin layer and event kind a propagation seed names (see
/// [`seed_outcome`]).
pub fn seed_event(seed: &PropagationEventSeed) -> (r: Result<(PropagationLayer, PropagationEventKind), ApiError>)
    ensures
        seed_outcome(*seed, r),
{
    let k = seed.kind.as_str();
    let f = FunctionId(seed.function_id);
    if str_eq(k, "semantic.function_created") {
        Ok((PropagationLayer::Semantic, PropagationEventKind::Semantic(SemanticEvent::FunctionCreated { function_id: f })))
    } else if str_eq(k, "semantic.function_signature_changed") {
        Ok((
            PropagationLayer::Semantic,
            PropagationEventKind::Semantic(SemanticEvent::FunctionSignatureChanged { function_id: f }),
        ))
    } else if str_eq(k, "semantic.contract_added") {
        Ok((
            PropagationLayer::Semantic,
            PropagationEventKind::Semantic(
                SemanticEvent::ContractAdded {
                    function_id: f,
                    contract_name: text_or_default(&seed.contract_name, "contract"),
                },
            ),
        ))
    } else if str_eq(k, "compute.node_inserted") || str_eq(k, "compute.node_modified") || str_eq(
        k,
        "compute.node_removed",
    ) {
        let node = match seed.node_id {
            Some(n) => n,
            None => {
                return Err(ApiError::BadRequest(cat("node_id required for ", k)));
            },
        };
        let e = if str_eq(k, "compute.node_inserted") {
            PropagationEventKind::Compute(
                ComputeEvent::NodeInserted {
                    function_id: f,
                    node_id: NodeId(node),
                    op_kind: text_or_default(&seed.op_kind, "Unknown"),
                },
            )
        } else if str_eq(k, "compute.node_modified") {
            PropagationEventKind::Compute(
                ComputeEvent::NodeModified {
                    function_id: f,
                    node_id: NodeId(node),
                    op_kind: text_or_default(&seed.op_kind, "Unknown"),
                },
            )
        } else {
            PropagationEventKind::Compute(ComputeEvent::NodeRemoved { function_id: f, node_id: NodeId(node) })
        };
        Ok((PropagationLayer::Compute, e))
    } else if str_eq(k, "compute.control_flow_changed") {
        Ok((PropagationLayer::Compute, PropagationEventKind::Compute(ComputeEvent::ControlFlowChanged { function_id: f })))
    } else {
        Err(ApiError::BadRequest(cat3("unknown propagation event kind '", k, "'")))
    }
}

/// `a` and `b` agree on everything but the propagation queue.
pub open spec fn same_layers(a: ProgramGraph, b: ProgramGraph) -> bool {
    &&& a.cnodes() == b.cnodes()
    &&& a.cedges() == b.cedges()
    &&& a.same_semantics(&b)
    &&& a.fns() == b.fns()
    &&& a.next_fn() == b.next_fn()
    &&& a.tree() == b.tree()
    &&& a.registry() == b.registry()
}

/// `e` is the event enqueued for seed `s` with id `id` and sequence number
/// `seq`: of the origin and kind the seed names, with no lineage.
pub open spec fn seed_enqueued(s: PropagationEventSeed, e: PropagationEvent, id: int, seq: int) -> bool {
    &&& seed_outcome(s, Ok((e.origin, e.kind)))
    &&& e.id == id
    &&& e.sequence == seq
    &&& e.lineage@.len() == 0
}

/// Enqueues the events the seeds name, in order. At the first seed that
/// names no event, it stops with that seed's error; the events of the
/// seeds before it stay enqueued.
pub fn enqueue_seed_events(graph: &mut ProgramGraph, events: &Vec<PropagationEventSeed>) -> (r: Result<(), ApiError>)
    requires
        old(graph).wf(),
        old(graph).queue_counters().0 + events@.len() < u64::MAX,
        old(graph).queue_counters().1 + events@.len() < u64::MAX,
    ensures
        final(graph).wf(),
        same_layers(*final(graph), *old(graph)),
        ({
            let n = final(graph).pending().len() - old(graph).pending().len();
            let (id0, seq0, _) = old(graph).queue_counters();
            &&& 0 <= n <= events@.len()
            &&& final(graph).pending().take(old(graph).pending().len() as int) == old(graph).pending()
            &&& final(graph).queue_counters() == ((id0 + n) as u64, (seq0 + n) as u64, old(graph).queue_counters().2)
            &&& forall|j: int| 0 <= j < n ==> #[trigger] seed_enqueued(
                events@[j],
                final(graph).pending()[old(graph).pending().len() + j],
                id0 + j,
                seq0 + j,
            )
            &&& (r is Ok <==> n == events@.len())
            &&& (r matches Err(e) ==> seed_outcome(events@[n], Err(e)))
        }),
{
    let ghost start = *graph;
    let mut i: usize = 0;
    while i < events.len()
        invariant
            start == *old(graph),
            graph.wf(),
            i <= events@.len(),
            start.queue_counters().0 + events@.len() < u64::MAX,
            start.queue_counters().1 + events@.len() < u64::MAX,
            same_layers(*graph, start),
            graph.pending().len() == start.pending().len() + i,
            graph.pending().take(start.pending().len() as int) == start.pending(),
            graph.queue_counters() == (
                (start.queue_counters().0 + i) as u64,
                (start.queue_counters().1 + i) as u64,
                start.queue_counters().2,
            ),
            forall|j: int| 0 <= j < i ==> #[trigger] seed_enqueued(
                events@[j],
                graph.pending()[start.pending().len() + j],
                start.queue_counters().0 + j,
                start.queue_counters().1 + j,
            ),
        decreases events.len() - i,
    {
        let ghost before = *graph;
        match seed_event(&events[i]) {
            Ok((layer, kind)) => {
                let ghost k = kind;
                let ghost layer_g = layer;
                graph.enqueue_propagation(layer, kind);
                proof {
                    assert(graph.pending().drop_last() == before.pending());
                    assert(graph.pending().take(start.pending().len() as int) =~= start.pending()) by {
                        assert(before.pending().take(start.pending().len() as int) == start.pending());
                        assert forall|x: int| 0 <= x < start.pending().len() implies graph.pending()[x] == before.pending()[x] by {
                            assert(graph.pending().drop_last()[x] == graph.pending()[x]);
                        }
                    }
                    assert forall|j: int| 0 <= j < i + 1 implies #[trigger] seed_enqueued(
                        events@[j],
                        graph.pending()[start.pending().len() + j],
                        start.queue_counters().0 + j,
                        start.queue_counters().1 + j,
                    ) by {
                        if j < i {
                            assert(seed_enqueued(
                                events@[j],
                                before.pending()[start.pending().len() + j],
                                start.queue_counters().0 + j,
                                start.queue_counters().1 + j,
                            ));
                            assert(graph.pending().drop_last()[start.pending().len() + j] == graph.pending()[start.pending().len() + j]);
                        } else {
                            assert(seed_outcome(events@[j], Ok((layer_g, k))));
                        }
                    }
                }
            },
            Err(e) => {
                return Err(e);
            },
        }
        i = i + 1;
    }
    Ok(())
}

/// Node `m` is the highest-numbered node of function `f`.
pub open spec fn is_last_node(g: ProgramGraph, f: FunctionId, m: u32) -> bool {
    &&& crate::conflict::owned_by(g, m, f)
    &&& forall|k: u32| #[trigger] crate::conflict::owned_by(g, k, f) ==> k <= m
}

/// Whether a committed mutation raises a propagation event on `g`: adding a
/// function (to a program that has one), inserting a node (into a function
/// that has one), and modifying, removing or adding an edge from a node the
/// graph still has.
pub open spec fn mutation_raises(g: ProgramGraph, m: Mutation) -> bool {
    match m {
        Mutation::AddFunction { .. } => g.fns().len() > 0,
        Mutation::InsertNode { owner, .. } => exists|k: u32| #[trigger] crate::conflict::owned_by(g, k, owner),
        Mutation::ModifyNode { node_id, .. } => g.cnodes().contains_key(node_id.0),
        Mutation::RemoveNode { node_id } => g.cnodes().contains_key(node_id.0),
        Mutation::AddEdge { from, .. } => g.cnodes().contains_key(from.0),
        Mutation::AddControlEdge { from, .. } => g.cnodes().contains_key(from.0),
        _ => false,
    }
}

/// `origin` and `kind` make the event mutation `m` raises on `g`, with `op_kind` naming the
/// operation of an inserted or modified node: the newest function was
/// created; the owner's highest-numbered node was inserted; the node was
/// modified or removed; the control flow of the edge's source function
/// changed.
pub open spec fn raised_kind_is(g: ProgramGraph, m: Mutation, op_kind: Seq<char>, origin: PropagationLayer, kind: PropagationEventKind) -> bool {
    match m {
        Mutation::AddFunction { .. } => origin == PropagationLayer::Semantic && kind == PropagationEventKind::Semantic(
            SemanticEvent::FunctionCreated { function_id: FunctionId((g.fns().len() - 1) as u32) },
        ),
        Mutation::InsertNode { owner, .. } => origin == PropagationLayer::Compute && (kind matches PropagationEventKind::Compute(
            ComputeEvent::NodeInserted { function_id, node_id, op_kind: k },
        ) && function_id == owner && is_last_node(g, owner, node_id.0) && k@ == op_kind),
        Mutation::ModifyNode { node_id, .. } => origin == PropagationLayer::Compute && (kind matches PropagationEventKind::Compute(
            ComputeEvent::NodeModified { function_id, node_id: n, op_kind: k },
        ) && function_id == g.cnodes()[node_id.0].owner && n == node_id && k@ == op_kind),
        Mutation::RemoveNode { node_id } => origin == PropagationLayer::Compute && kind == PropagationEventKind::Compute(
            ComputeEvent::NodeRemoved { function_id: g.cnodes()[node_id.0].owner, node_id },
        ),
        Mutation::AddEdge { from, .. } => origin == PropagationLayer::Compute && kind == PropagationEventKind::Compute(
            ComputeEvent::ControlFlowChanged { function_id: g.cnodes()[from.0].owner },
        ),
        Mutation::AddControlEdge { from, .. } => origin == PropagationLayer::Compute && kind == PropagationEventKind::Compute(
            ComputeEvent::ControlFlowChanged { function_id: g.cnodes()[from.0].owner },
        ),
        _ => false,
    }
}

/// `e` is the event mutation `m` raises on `g` (see [`raised_kind_is`]).
pub open spec fn mutation_event_is(g: ProgramGraph, m: Mutation, op_kind: Seq<char>, e: PropagationEvent) -> bool {
    raised_kind_is(g, m, op_kind, e.origin, e.kind)
}

proof fn lemma_events_follow_layers(a: ProgramGraph, b: ProgramGraph, m: Mutation, op_kind: Seq<char>, o: PropagationLayer, k: PropagationEventKind)
    requires
        a.cnodes() == b.cnodes(),
        a.fns() == b.fns(),
    ensures
        mutation_raises(a, m) == mutation_raises(b, m),
        raised_kind_is(a, m, op_kind, o, k) == raised_kind_is(b, m, op_kind, o, k),
{
    if let Mutation::InsertNode { owner, .. } = m {
        if exists|x: u32| #[trigger] crate::conflict::owned_by(a, x, owner) {
            let x = choose|x: u32| #[trigger] crate::conflict::owned_by(a, x, owner);
            assert(crate::conflict::owned_by(b, x, owner));
        }
        if exists|x: u32| #[trigger] crate::conflict::owned_by(b, x, owner) {
            let x = choose|x: u32| #[trigger] crate::conflict::owned_by(b, x, owner);
            assert(crate::conflict::owned_by(a, x, owner));
        }
        if let PropagationEventKind::Compute(ComputeEvent::NodeInserted { node_id, .. }) = k {
            if is_last_node(a, owner, node_id.0) {
                assert forall|x: u32| #[trigger] crate::conflict::owned_by(b, x, owner) implies x <= node_id.0 by {
                    assert(crate::conflict::owned_by(a, x, owner));
                }
            }
            if is_last_node(b, owner, node_id.0) {
                assert forall|x: u32| #[trigger] crate::conflict::owned_by(a, x, owner) implies x <= node_id.0 by {
                    assert(crate::conflict::owned_by(b, x, owner));
                }
            }
        }
    }
}

/// The event a committed mutation raises on the graph, if any.
fn mutation_event(graph: &ProgramGraph, m: &Mutation, op_kind: &String) -> (r: Option<(PropagationLayer, PropagationEventKind)>)
    requires
        graph.wf(),
    ensures
        r is Some <==> mutation_raises(*graph, *m),
        r matches Some((origin, kind)) ==> raised_kind_is(*graph, *m, op_kind@, origin, kind),
{
    match m {
        Mutation::AddFunction { .. } => {
            let n = graph.next_function_id();
            if n > 0 {
                Some((
                    PropagationLayer::Semantic,
                    PropagationEventKind::Semantic(SemanticEvent::FunctionCreated { function_id: FunctionId(n - 1) }),
                ))
            } else {
                None
            }
        },
        Mutation::InsertNode { owner, .. } => {
            let nodes = graph.function_nodes(*owner);
            if nodes.len() > 0 {
                let last = nodes[nodes.len() - 1];
                proof {
                    assert(nodes@.contains(last));
                    assert(nodes@.contains(NodeId(last.0)));
                    assert(crate::conflict::owned_by(*graph, last.0, *owner));
                    assert forall|k: u32| #[trigger] crate::conflict::owned_by(*graph, k, *owner) implies k <= last.0 by {
                        assert(nodes@.contains(NodeId(k)));
                        let x = choose|x: int| 0 <= x < nodes@.len() && nodes@[x] == NodeId(k);
                        if x < nodes@.len() - 1 {
                            assert(nodes@[x].0 < nodes@[nodes@.len() - 1].0);
                        }
                    }
                }
                Some((
                    PropagationLayer::Compute,
                    PropagationEventKind::Compute(
                        ComputeEvent::NodeInserted { function_id: *owner, node_id: last, op_kind: op_kind.clone() },
                    ),
                ))
            } else {
                proof {
                    assert forall|k: u32| !#[trigger] crate::conflict::owned_by(*graph, k, *owner) by {
                        if crate::conflict::owned_by(*graph, k, *owner) {
                            assert(nodes@.contains(NodeId(k)));
                        }
                    }
                }
                None
            }
        },
        Mutation::ModifyNode { node_id, .. } => match graph.get_compute_node(*node_id) {
            Some(node) => Some((
                PropagationLayer::Compute,
                PropagationEventKind::Compute(
                    ComputeEvent::NodeModified { function_id: node.owner, node_id: *node_id, op_kind: op_kind.clone() },
                ),
            )),
            None => None,
        },
        Mutation::RemoveNode { node_id } => match graph.get_compute_node(*node_id) {
            Some(node) => Some((
                PropagationLayer::Compute,
                PropagationEventKind::Compute(ComputeEvent::NodeRemoved { function_id: node.owner, node_id: *node_id }),
            )),
            None => None,
        },
        Mutation::AddEdge { from, .. } => match graph.get_compute_node(*from) {
            Some(node) => Some((
                PropagationLayer::Compute,
                PropagationEventKind::Compute(ComputeEvent::ControlFlowChanged { function_id: node.owner }),
            )),
            None => None,
        },
        Mutation::AddControlEdge { from, .. } => match graph.get_compute_node(*from) {
            Some(node) => Some((
                PropagationLayer::Compute,
                PropagationEventKind::Compute(ComputeEvent::ControlFlowChanged { function_id: node.owner }),
            )),
            None => None,
        },
        _ => None,
    }
}

/// `es` are the events the mutations raise on `g`, in order, one for each
/// mutation that raises one (`kinds` names the operation of each
/// mutation, by position).
pub open spec fn raised_events(g: ProgramGraph, ms: Seq<Mutation>, kinds: Seq<String>, es: Seq<PropagationEvent>) -> bool
    decreases ms.len(),
{
    if ms.len() == 0 {
        es.len() == 0
    } else {
        let m = ms.last();
        let k = kinds[ms.len() - 1]@;
        if mutation_raises(g, m) {
            &&& es.len() > 0
            &&& mutation_event_is(g, m, k, es.last())
            &&& raised_events(g, ms.drop_last(), kinds, es.drop_last())
        } else {
            raised_events(g, ms.drop_last(), kinds, es)
        }
    }
}

/// Events numbered in order from `id0` and `seq0`, without lineage.
pub open spec fn numbered_from(es: Seq<PropagationEvent>, id0: int, seq0: int) -> bool {
    forall|j: int| 0 <= j < es.len() ==> (#[trigger] es[j]).id == id0 + j && es[j].sequence == seq0 + j && es[j].lineage@.len() == 0
}

/// Enqueues the propagation events that committed mutations raise (see
/// [`mutation_event_is`]); `op_kinds` names, at each mutation's position,
/// the operation it inserts or sets.
pub fn enqueue_propagation_for_mutations(graph: &mut ProgramGraph, mutations: &Vec<Mutation>, op_kinds: &Vec<String>)
    requires
        old(graph).wf(),
        op_kinds@.len() == mutations@.len(),
        old(graph).queue_counters().0 + mutations@.len() < u64::MAX,
        old(graph).queue_counters().1 + mutations@.len() < u64::MAX,
    ensures
        final(graph).wf(),
        same_layers(*final(graph), *old(graph)),
        ({
            let base = old(graph).pending().len() as int;
            let es = final(graph).pending().skip(base);
            let (id0, seq0, limit) = old(graph).queue_counters();
            &&& final(graph).pending().len() >= base
            &&& final(graph).pending().take(base) == old(graph).pending()
            &&& raised_events(*old(graph), mutations@, op_kinds@, es)
            &&& numbered_from(es, id0 as int, seq0 as int)
            &&& final(graph).queue_counters() == ((id0 + es.len()) as u64, (seq0 + es.len()) as u64, limit)
        }),
{
    let ghost start = *graph;
    let ghost base = start.pending().len() as int;
    let mut i: usize = 0;
    proof {
        assert(mutations@.take(0) =~= Seq::<Mutation>::empty());
        assert(graph.pending().skip(base) =~= Seq::<PropagationEvent>::empty());
        assert(graph.pending().take(base) =~= start.pending());
    }
    while i < mutations.len()
        invariant
            start == *old(graph),
            base == start.pending().len(),
            graph.wf(),
            i <= mutations@.len(),
            op_kinds@.len() == mutations@.len(),
            start.queue_counters().0 + mutations@.len() < u64::MAX,
            start.queue_counters().1 + mutations@.len() < u64::MAX,
            same_layers(*graph, start),
            graph.pending().len() >= base,
            graph.pending().len() - base <= i,
            graph.pending().take(base) == start.pending(),
            raised_events(start, mutations@.take(i as int), op_kinds@, graph.pending().skip(base)),
            numbered_from(graph.pending().skip(base), start.queue_counters().0 as int, start.queue_counters().1 as int),
            graph.queue_counters() == (
                (start.queue_counters().0 + (graph.pending().len() - base)) as u64,
                (start.queue_counters().1 + (graph.pending().len() - base)) as u64,
                start.queue_counters().2,
            ),
        decreases mutations.len() - i,
    {
        let ghost before = *graph;
        let ghost es_before = graph.pending().skip(base);
        let ghost m = mutations@[i as int];
        let raised = mutation_event(graph, &mutations[i], &op_kinds[i]);
        proof {
            assert(mutations@.take(i + 1).drop_last() =~= mutations@.take(i as int));
            assert(mutations@.take(i + 1).last() == m);
            assert(mutations@[i as int] == m);
            match &raised {
                Some((o, k)) => {
                    lemma_events_follow_layers(before, start, m, op_kinds@[i as int]@, *o, *k);
                },
                None => {
                    lemma_events_follow_layers(before, start, m, op_kinds@[i as int]@, PropagationLayer::Compute, PropagationEventKind::Compute(ComputeEvent::ControlFlowChanged { function_id: FunctionId(0) }));
                },
            }
            assert(raised is Some <==> mutation_raises(start, m));
        }
        match raised {
            Some((layer, kind)) => {
                let ghost layer_g = layer;
                let ghost kind_g = kind;
                graph.enqueue_propagation(layer, kind);
                proof {
                    let es = graph.pending().skip(base);
                    assert(graph.pending().drop_last() == before.pending());
                    assert(es.drop_last() =~= es_before);
                    assert(es.last() == graph.pending().last());
                    assert(mutation_event_is(start, m, op_kinds@[i as int]@, es.last()));
                    assert(graph.pending().take(base) =~= start.pending()) by {
                        assert forall|x: int| 0 <= x < base implies graph.pending()[x] == start.pending()[x] by {
                            assert(graph.pending().drop_last()[x] == graph.pending()[x]);
                            assert(before.pending().take(base)[x] == before.pending()[x]);
                        }
                    }
                    assert forall|j: int| 0 <= j < es.len() implies (#[trigger] es[j]).id == start.queue_counters().0 + j
                        && es[j].sequence == start.queue_counters().1 + j && es[j].lineage@.len() == 0 by {
                        if j < es.len() - 1 {
                            assert(es[j] == es_before[j]);
                        }
                    }
                }
            },
            None => {},
        }
        i = i + 1;
    }
    proof {
        assert(mutations@.take(mutations@.len() as int) =~= mutations@);
    }
}

} // verus!
