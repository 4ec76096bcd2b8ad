//! Graph mutations as the edit API receives them, and the edit commands
//! recorded for each applied mutation (what undo and redo replay).

use vstd::prelude::*;
use crate::api_error::{api_error_of_core, display_of, ApiError};
use crate::edge::FlowEdge;
use crate::error::CoreError;
use crate::graph_store::compute_edge_endpoints;
use crate::ids::{EdgeId, FunctionId, ModuleId, NodeId, TypeId};
use crate::node::clone_params;
use crate::ops::{ComputeNode, ComputeNodeOp};
use crate::program_graph::{added_function, function_def_is, ProgramGraph};
use crate::schema::{CreatedEntity, DiagnosticError, ProposeEditResponse};
use crate::text::{cat3, decimal_seq, u64_to_decimal};
use crate::types::Visibility;

verus! {

/// A single primitive graph edit.
#[derive(Debug, Clone)]
pub enum Mutation {
    /// Insert a compute node.
    InsertNode { op: ComputeNodeOp, owner: FunctionId },
    /// Remove a compute node and its edges.
    RemoveNode { node_id: NodeId },
    /// Change the operation of a node.
    ModifyNode { node_id: NodeId, new_op: ComputeNodeOp },
    /// Add a data flow edge.
    AddEdge { from: NodeId, to: NodeId, source_port: u16, target_port: u16, value_type: TypeId },
    /// Add a control flow edge.
    AddControlEdge { from: NodeId, to: NodeId, branch_index: Option<u16> },
    /// Remove an edge.
    RemoveEdge { edge_id: EdgeId },
    /// Add a function.
    AddFunction {
        name: String,
        module: ModuleId,
        params: Vec<(String, TypeId)>,
        return_type: TypeId,
        visibility: Visibility,
    },
    /// Add a module; no parent means the root module.
    AddModule { name: String, parent: Option<ModuleId>, visibility: Visibility },
}

/// A recorded, replayable edit: what was done, with what it needs to be
/// undone.
#[derive(Debug)]
pub enum EditCommand {
    InsertNode { node_id: NodeId, op: ComputeNodeOp, owner: FunctionId },
    RemoveNode { node_id: NodeId, removed_node: ComputeNode },
    ModifyNode { node_id: NodeId, old_op: ComputeNodeOp, new_op: ComputeNodeOp, owner: FunctionId },
    InsertDataEdge {
        edge_id: EdgeId,
        from: NodeId,
        to: NodeId,
        source_port: u16,
        target_port: u16,
        value_type: TypeId,
    },
    InsertControlEdge { edge_id: EdgeId, from: NodeId, to: NodeId, branch_index: Option<u16> },
    RemoveEdge { edge_id: EdgeId, from: NodeId, to: NodeId, removed_edge: FlowEdge },
    AddFunction {
        func_id: FunctionId,
        name: String,
        module: ModuleId,
        params: Vec<(String, TypeId)>,
        return_type: TypeId,
        visibility: Visibility,
    },
    AddModule { module_id: ModuleId, name: String, parent: ModuleId, visibility: Visibility },
    Batch { commands: Vec<EditCommand> },
}

/// The capacity an edit needs: room for one more node and edge in either
/// layer, one more function and one more module id.
pub open spec fn edit_capacity(g: ProgramGraph) -> bool {
    &&& g.cnodes().dom().len() < u32::MAX
    &&& g.cedges().dom().len() < u32::MAX
    &&& g.snodes().dom().len() < u32::MAX
    &&& g.sedges().dom().len() < u32::MAX
    &&& g.next_fn() < u32::MAX
    &&& g.tree().next_id_view() < u32::MAX
}

/// The layers of `a` and `b` agree except for the compute layer.
pub open spec fn same_but_compute(a: ProgramGraph, b: ProgramGraph) -> bool {
    &&& a.same_semantics(&b)
    &&& a.fns() == b.fns()
    &&& a.next_fn() == b.next_fn()
    &&& a.tree() == b.tree()
    &&& a.registry() == b.registry()
    &&& a.pending() == b.pending()
    &&& a.queue_counters() == b.queue_counters()
}

/// What applying `mutation` to `before` gives: the graph `after` and the
/// result `r` (see [`apply_mutation`]).
pub open spec fn mutation_outcome(
    before: ProgramGraph,
    after: ProgramGraph,
    mutation: Mutation,
    r: Result<(Option<CreatedEntity>, EditCommand), ApiError>,
) -> bool {
    &&& (r is Err ==> after == before)
    &&& match mutation {
        Mutation::InsertNode { op, owner } => if owner.0 < before.next_fn() {
            r matches Ok((Some(CreatedEntity::Node { id }), EditCommand::InsertNode { node_id, op: o, owner: w }))
                && node_id == id && o == op && w == owner && !before.cnodes().contains_key(id.0)
                && after.cnodes() == before.cnodes().insert(id.0, ComputeNode { op, owner })
                && after.cedges() == before.cedges() && same_but_compute(after, before)
        } else {
            r matches Err(e) && api_error_of_core(e, CoreError::FunctionNotFound { id: owner })
        },
        Mutation::RemoveNode { node_id } => if before.cnodes().contains_key(node_id.0) {
            r matches Ok((None, EditCommand::RemoveNode { node_id: n, removed_node })) && n == node_id
                && removed_node == before.cnodes()[node_id.0] && after.cnodes() == before.cnodes().remove(
                node_id.0,
            ) && after.cedges() == crate::graph_store::edges_without(before.cedges(), node_id.0)
                && same_but_compute(after, before)
        } else {
            r matches Err(e) && api_error_of_core(e, CoreError::NodeNotFound { id: node_id })
        },
        Mutation::ModifyNode { node_id, new_op } => if before.cnodes().contains_key(node_id.0) {
            let prior = before.cnodes()[node_id.0];
            r matches Ok((None, EditCommand::ModifyNode { node_id: n, old_op, new_op: o, owner }))
                && n == node_id && old_op == prior.op && o == new_op && owner == prior.owner
                && after.cnodes() == before.cnodes().insert(node_id.0, ComputeNode { op: new_op, owner: prior.owner })
                && after.cedges() == before.cedges() && same_but_compute(after, before)
        } else {
            r matches Err(ApiError::NotFound(m)) && m@ == "node "@ + decimal_seq(node_id.0 as nat) + " not found"@
        },
        Mutation::AddEdge { from, to, source_port, target_port, value_type } => if !before.cnodes().contains_key(from.0) {
            r matches Err(e) && api_error_of_core(e, CoreError::NodeNotFound { id: from })
        } else if !before.cnodes().contains_key(to.0) {
            r matches Err(e) && api_error_of_core(e, CoreError::NodeNotFound { id: to })
        } else {
            let w = FlowEdge::Data { source_port, target_port, value_type };
            r matches Ok((Some(CreatedEntity::Edge { id }), EditCommand::InsertDataEdge { edge_id, from: f, to: t, source_port: sp, target_port: tp, value_type: vt }))
                && edge_id == id && f == from && t == to && sp == source_port && tp == target_port && vt == value_type
                && !before.cedges().contains_key(id.0) && after.cedges() == before.cedges().insert(id.0, (from.0, to.0, w))
                && after.cnodes() == before.cnodes() && same_but_compute(after, before)
        },
        Mutation::AddControlEdge { from, to, branch_index } => if !before.cnodes().contains_key(from.0) {
            r matches Err(e) && api_error_of_core(e, CoreError::NodeNotFound { id: from })
        } else if !before.cnodes().contains_key(to.0) {
            r matches Err(e) && api_error_of_core(e, CoreError::NodeNotFound { id: to })
        } else {
            r matches Ok((Some(CreatedEntity::Edge { id }), EditCommand::InsertControlEdge { edge_id, from: f, to: t, branch_index: b }))
                && edge_id == id && f == from && t == to && b == branch_index
                && !before.cedges().contains_key(id.0) && after.cedges() == before.cedges().insert(
                id.0,
                (from.0, to.0, FlowEdge::Control { branch_index }),
            ) && after.cnodes() == before.cnodes() && same_but_compute(after, before)
        },
        Mutation::RemoveEdge { edge_id } => if before.cedges().contains_key(edge_id.0) {
            let (a, b, w) = before.cedges()[edge_id.0];
            r matches Ok((None, EditCommand::RemoveEdge { edge_id: e, from, to, removed_edge })) && e == edge_id
                && from == NodeId(a) && to == NodeId(b) && removed_edge == w
                && after.cedges() == before.cedges().remove(edge_id.0)
                && after.cnodes() == before.cnodes() && same_but_compute(after, before)
        } else {
            r matches Err(ApiError::NotFound(m)) && m@ == "edge "@ + decimal_seq(edge_id.0 as nat) + " not found"@
        },
        Mutation::AddFunction { name, module, params, return_type, visibility } => if before.tree().modules_view().contains_key(
            module.0,
        ) {
            let id = FunctionId(before.next_fn());
            r matches Ok((Some(CreatedEntity::Function { id: x }), EditCommand::AddFunction { func_id, name: n, module: m, params: p, return_type: t, visibility: v }))
                && x == id && func_id == id && n@ == name@ && m == module && p@ == params@ && t == return_type
                && v == visibility && added_function(before, after, id, module, after.fsem().last())
                && function_def_is(after.fns().last(), id, name@, module, visibility, params@, return_type, None, seq![])
        } else {
            r matches Err(e) && api_error_of_core(e, CoreError::ModuleNotFound { id: module })
        },
        Mutation::AddModule { name, parent, visibility } => {
            let actual = match parent {
                Some(p) => p,
                None => before.tree().root_view(),
            };
            if before.tree().modules_view().contains_key(actual.0) {
                let id = ModuleId(before.tree().next_id_view());
                r matches Ok((Some(CreatedEntity::Module { id: x }), EditCommand::AddModule { module_id, name: n, parent: p, visibility: v }))
                    && x == id && module_id == id && n@ == name@ && p == actual && v == visibility
                    && after.tree().modules_view().contains_key(id.0)
                    && after.tree().modules_view()[id.0].name@ == name@
                    && after.tree().modules_view()[id.0].parent == Some(actual)
                    && after.tree().modules_view()[id.0].visibility == visibility
                    && after.tree().next_id_view() == id.0 + 1
                    && after.tree().children_view() == before.tree().children_view().insert(
                        actual.0,
                        crate::module::seq_at(before.tree().children_view(), actual.0).push(id),
                    ).insert(id.0, Seq::empty())
                    && (exists|k: u32| !before.snodes().contains_key(k) && after.snodes() == #[trigger] before.snodes().insert(k, after.snodes()[k])
                        && crate::program_graph::module_node_is(after.snodes()[k], after.tree().modules_view()[id.0]))
                    && (exists|e: u32| !before.sedges().contains_key(e) && after.sedges() == #[trigger] before.sedges().insert(e, after.sedges()[e]))
                    && after.cnodes() == before.cnodes() && after.cedges() == before.cedges() && after.fns() == before.fns()
            } else {
                r matches Err(e) && api_error_of_core(e, CoreError::ModuleNotFound { id: actual })
            }
        },
    }
}

/// Applies one mutation to the graph and gives back the entity it created,
/// if any, and the edit command recorded for it. A failing graph operation
/// is reported as its API error (see `ApiError::from_core_error`); a missing
/// node to modify or edge to remove is `NotFound` (`node <id> not found`,
/// `edge <id> not found`). A failed mutation leaves the graph unchanged.
pub fn apply_mutation(graph: &mut ProgramGraph, mutation: &Mutation) -> (r: Result<(Option<CreatedEntity>, EditCommand), ApiError>)
    requires
        old(graph).wf(),
        edit_capacity(*old(graph)),
    ensures
        final(graph).wf(),
        mutation_outcome(*old(graph), *final(graph), *mutation, r),
{
    match mutation {
        Mutation::InsertNode { op, owner } => match graph.add_compute_node(*op, *owner) {
            Ok(node_id) => Ok((Some(CreatedEntity::Node { id: node_id }), EditCommand::InsertNode { node_id, op: *op, owner: *owner })),
            Err(e) => Err(ApiError::from_core_error(&e)),
        },
        Mutation::RemoveNode { node_id } => match graph.remove_compute_node(*node_id) {
            Ok(removed_node) => Ok((None, EditCommand::RemoveNode { node_id: *node_id, removed_node })),
            Err(e) => Err(ApiError::from_core_error(&e)),
        },
        Mutation::ModifyNode { node_id, new_op } => {
            let owner = match graph.get_compute_node(*node_id) {
                Some(node) => node.owner,
                None => {
                    return Err(ApiError::NotFound(cat3("node ", u64_to_decimal(node_id.0 as u64).as_str(), " not found")));
                },
            };
            match graph.modify_compute_node_op(*node_id, *new_op) {
                Ok(old_op) => Ok((None, EditCommand::ModifyNode { node_id: *node_id, old_op, new_op: *new_op, owner })),
                Err(e) => Err(ApiError::from_core_error(&e)),
            }
        },
        Mutation::AddEdge { from, to, source_port, target_port, value_type } => match graph.add_data_edge(
            *from,
            *to,
            *source_port,
            *target_port,
            *value_type,
        ) {
            Ok(edge_id) => Ok((
                Some(CreatedEntity::Edge { id: edge_id }),
                EditCommand::InsertDataEdge {
                    edge_id,
                    from: *from,
                    to: *to,
                    source_port: *source_port,
                    target_port: *target_port,
                    value_type: *value_type,
                },
            )),
            Err(e) => Err(ApiError::from_core_error(&e)),
        },
        Mutation::AddControlEdge { from, to, branch_index } => match graph.add_control_edge(*from, *to, *branch_index) {
            Ok(edge_id) => Ok((
                Some(CreatedEntity::Edge { id: edge_id }),
                EditCommand::InsertControlEdge { edge_id, from: *from, to: *to, branch_index: *branch_index },
            )),
            Err(e) => Err(ApiError::from_core_error(&e)),
        },
        Mutation::RemoveEdge { edge_id } => {
            let (from, to) = match compute_edge_endpoints(graph.compute(), edge_id.0) {
                Some(ends) => ends,
                None => {
                    return Err(ApiError::NotFound(cat3("edge ", u64_to_decimal(edge_id.0 as u64).as_str(), " not found")));
                },
            };
            match graph.remove_edge(*edge_id) {
                Ok(removed_edge) => Ok((
                    None,
                    EditCommand::RemoveEdge { edge_id: *edge_id, from: NodeId(from), to: NodeId(to), removed_edge },
                )),
                Err(e) => Err(ApiError::from_core_error(&e)),
            }
        },
        Mutation::AddFunction { name, module, params, return_type, visibility } => match graph.add_function(
            name.clone(),
            *module,
            clone_params(params),
            *return_type,
            *visibility,
        ) {
            Ok(func_id) => Ok((
                Some(CreatedEntity::Function { id: func_id }),
                EditCommand::AddFunction {
                    func_id,
                    name: name.clone(),
                    module: *module,
                    params: clone_params(params),
                    return_type: *return_type,
                    visibility: *visibility,
                },
            )),
            Err(e) => Err(ApiError::from_core_error(&e)),
        },
        Mutation::AddModule { name, parent, visibility } => {
            let root = graph.root_module_id();
            let actual_parent = match parent {
                Some(p) => *p,
                None => root,
            };
            let ghost before = *graph;
            match graph.add_module(name.clone(), actual_parent, *visibility) {
                Ok(module_id) => {
                    proof {
                        let k = graph.msem()[module_id.0];
                        assert(!before.snodes().contains_key(k) && graph.snodes() == before.snodes().insert(k, graph.snodes()[k]));
                        let e = choose|e: u32|
                            !before.sedges().contains_key(e) && graph.sedges() == #[trigger] before.sedges().insert(
                                e,
                                (before.msem()[actual_parent.0], k, crate::edge::SemanticEdge::Contains),
                            );
                        assert(graph.sedges() == before.sedges().insert(e, graph.sedges()[e]));
                    }
                    Ok((
                        Some(CreatedEntity::Module { id: module_id }),
                        EditCommand::AddModule { module_id, name: name.clone(), parent: actual_parent, visibility: *visibility },
                    ))
                },
                Err(e) => Err(ApiError::from_core_error(&e)),
            }
        },
    }
}


/// How many primitive edits a command holds: one for each command but a
/// batch, the sum over its commands for a batch.
pub open spec fn command_count(cmd: EditCommand) -> nat
    decreases cmd,
{
    match cmd {
        EditCommand::Batch { commands } => commands_count(commands@),
        _ => 1,
    }
}

/// The primitive edits a sequence of commands holds.
pub open spec fn commands_count(cmds: Seq<EditCommand>) -> nat
    decreases cmds,
{
    if cmds.len() == 0 {
        0
    } else {
        commands_count(cmds.drop_last()) + command_count(cmds.last())
    }
}

/// Each of the graph's id spaces has room for `k` more entries.
pub open spec fn edit_headroom(g: ProgramGraph, k: nat) -> bool {
    &&& g.cnodes().dom().len() + k <= u32::MAX
    &&& g.cedges().dom().len() + k <= u32::MAX
    &&& g.snodes().dom().len() + k <= u32::MAX
    &&& g.sedges().dom().len() + k <= u32::MAX
    &&& g.next_fn() + k <= u32::MAX
    &&& g.tree().next_id_view() + k <= u32::MAX
}

/// No id space of `after` holds more than `k` entries beyond `before`.
pub open spec fn grown_within(before: ProgramGraph, after: ProgramGraph, k: nat) -> bool {
    &&& after.cnodes().dom().len() <= before.cnodes().dom().len() + k
    &&& after.cedges().dom().len() <= before.cedges().dom().len() + k
    &&& after.snodes().dom().len() <= before.snodes().dom().len() + k
    &&& after.sedges().dom().len() <= before.sedges().dom().len() + k
    &&& after.next_fn() <= before.next_fn() + k
    &&& after.tree().next_id_view() <= before.tree().next_id_view() + k
}

/// `e` is the error with which the primitive command `cmd` is refused on `g`
/// (never true of a batch).
pub open spec fn command_rejects(g: ProgramGraph, cmd: EditCommand, e: ApiError) -> bool {
    match cmd {
        EditCommand::InsertNode { owner, .. } => owner.0 >= g.next_fn() && api_error_of_core(
            e,
            CoreError::FunctionNotFound { id: owner },
        ),
        EditCommand::RemoveNode { node_id, .. } => !g.cnodes().contains_key(node_id.0) && api_error_of_core(
            e,
            CoreError::NodeNotFound { id: node_id },
        ),
        EditCommand::ModifyNode { node_id, .. } => !g.cnodes().contains_key(node_id.0) && api_error_of_core(
            e,
            CoreError::NodeNotFound { id: node_id },
        ),
        EditCommand::InsertDataEdge { from, to, .. } => if !g.cnodes().contains_key(from.0) {
            api_error_of_core(e, CoreError::NodeNotFound { id: from })
        } else {
            !g.cnodes().contains_key(to.0) && api_error_of_core(e, CoreError::NodeNotFound { id: to })
        },
        EditCommand::InsertControlEdge { from, to, .. } => if !g.cnodes().contains_key(from.0) {
            api_error_of_core(e, CoreError::NodeNotFound { id: from })
        } else {
            !g.cnodes().contains_key(to.0) && api_error_of_core(e, CoreError::NodeNotFound { id: to })
        },
        EditCommand::RemoveEdge { edge_id, .. } => !g.cedges().contains_key(edge_id.0) && (e matches ApiError::BadRequest(
            m,
        ) && m@ == "invalid edge: "@ + ("edge not found: EdgeId("@ + decimal_seq(edge_id.0 as nat) + ")"@)),
        EditCommand::AddFunction { module, .. } => !g.tree().modules_view().contains_key(module.0)
            && api_error_of_core(e, CoreError::ModuleNotFound { id: module }),
        EditCommand::AddModule { parent, .. } => !g.tree().modules_view().contains_key(parent.0)
            && api_error_of_core(e, CoreError::ModuleNotFound { id: parent }),
        EditCommand::Batch { .. } => false,
    }
}

/// The primitive command `cmd` applies to `g`: what it names exists.
pub open spec fn command_applies(g: ProgramGraph, cmd: EditCommand) -> bool {
    match cmd {
        EditCommand::InsertNode { owner, .. } => owner.0 < g.next_fn(),
        EditCommand::RemoveNode { node_id, .. } => g.cnodes().contains_key(node_id.0),
        EditCommand::ModifyNode { node_id, .. } => g.cnodes().contains_key(node_id.0),
        EditCommand::InsertDataEdge { from, to, .. } => g.cnodes().contains_key(from.0) && g.cnodes().contains_key(
            to.0,
        ),
        EditCommand::InsertControlEdge { from, to, .. } => g.cnodes().contains_key(from.0) && g.cnodes().contains_key(
            to.0,
        ),
        EditCommand::RemoveEdge { edge_id, .. } => g.cedges().contains_key(edge_id.0),
        EditCommand::AddFunction { module, .. } => g.tree().modules_view().contains_key(module.0),
        EditCommand::AddModule { parent, .. } => g.tree().modules_view().contains_key(parent.0),
        EditCommand::Batch { .. } => true,
    }
}

/// `after` is `before` with `cmd` applied. The ids that a command recorded
/// for undo play no part: an insertion takes a fresh id, a batch applies its
/// commands in order.
pub open spec fn command_effect(before: ProgramGraph, after: ProgramGraph, cmd: EditCommand) -> bool
    decreases cmd,
{
    match cmd {
        EditCommand::InsertNode { op, owner, .. } => {
            &&& exists|n: u32|
                !before.cnodes().contains_key(n) && after.cnodes() == #[trigger] before.cnodes().insert(
                    n,
                    ComputeNode { op, owner },
                )
            &&& after.cedges() == before.cedges()
            &&& same_but_compute(after, before)
        },
        EditCommand::RemoveNode { node_id, .. } => {
            &&& after.cnodes() == before.cnodes().remove(node_id.0)
            &&& after.cedges() == crate::graph_store::edges_without(before.cedges(), node_id.0)
            &&& same_but_compute(after, before)
        },
        EditCommand::ModifyNode { node_id, new_op, .. } => {
            &&& after.cnodes() == before.cnodes().insert(
                node_id.0,
                ComputeNode { op: new_op, owner: before.cnodes()[node_id.0].owner },
            )
            &&& after.cedges() == before.cedges()
            &&& same_but_compute(after, before)
        },
        EditCommand::InsertDataEdge { from, to, source_port, target_port, value_type, .. } => {
            &&& exists|x: u32|
                !before.cedges().contains_key(x) && after.cedges() == #[trigger] before.cedges().insert(
                    x,
                    (from.0, to.0, FlowEdge::Data { source_port, target_port, value_type }),
                )
            &&& after.cnodes() == before.cnodes()
            &&& same_but_compute(after, before)
        },
        EditCommand::InsertControlEdge { from, to, branch_index, .. } => {
            &&& exists|x: u32|
                !before.cedges().contains_key(x) && after.cedges() == #[trigger] before.cedges().insert(
                    x,
                    (from.0, to.0, FlowEdge::Control { branch_index }),
                )
            &&& after.cnodes() == before.cnodes()
            &&& same_but_compute(after, before)
        },
        EditCommand::RemoveEdge { edge_id, .. } => {
            &&& after.cedges() == before.cedges().remove(edge_id.0)
            &&& after.cnodes() == before.cnodes()
            &&& same_but_compute(after, before)
        },
        EditCommand::AddFunction { name, module, params, return_type, visibility, .. } => {
            let id = FunctionId(before.next_fn());
            &&& added_function(before, after, id, module, after.fsem().last())
            &&& function_def_is(after.fns().last(), id, name@, module, visibility, params@, return_type, None, seq![])
        },
        EditCommand::AddModule { name, parent, visibility, .. } => {
            let id = before.tree().next_id_view();
            &&& after.tree().modules_view().contains_key(id)
            &&& after.tree().modules_view()[id].name@ == name@
            &&& after.tree().modules_view()[id].parent == Some(parent)
            &&& after.tree().modules_view()[id].visibility == visibility
            &&& after.tree().next_id_view() == id + 1
            &&& after.cnodes() == before.cnodes()
            &&& after.cedges() == before.cedges()
            &&& after.fns() == before.fns()
        },
        EditCommand::Batch { commands } => commands_effect(before, after, commands@),
    }
}

/// `after` is `before` with the commands applied one after the other.
pub open spec fn commands_effect(before: ProgramGraph, after: ProgramGraph, cmds: Seq<EditCommand>) -> bool
    decreases cmds,
{
    if cmds.len() == 0 {
        after == before
    } else {
        exists|mid: ProgramGraph|
            #![trigger mid.cnodes()]
            commands_effect(before, mid, cmds.drop_last()) && command_effect(mid, after, cmds.last())
    }
}

/// Applying `cmd` to `before` failed with `e` and left `after`: a primitive
/// command is refused and changes nothing; a batch applied a prefix of its
/// commands, and the next one failed.
pub open spec fn command_fails(before: ProgramGraph, after: ProgramGraph, cmd: EditCommand, e: ApiError) -> bool
    decreases cmd,
{
    match cmd {
        EditCommand::Batch { commands } => exists|i: int, mid: ProgramGraph|
            0 <= i < commands@.len() && #[trigger] commands_effect(before, mid, commands@.take(i)) && command_fails(
                mid,
                after,
                commands@[i],
                e,
            ),
        _ => after == before && command_rejects(before, cmd, e),
    }
}

proof fn lemma_commands_count_prefix(cmds: Seq<EditCommand>, i: int)
    requires
        0 <= i < cmds.len(),
    ensures
        commands_count(cmds.take(i + 1)) == commands_count(cmds.take(i)) + command_count(cmds[i]),
        commands_count(cmds.take(i + 1)) <= commands_count(cmds),
    decreases cmds.len(),
{
    assert(cmds.take(i + 1).drop_last() =~= cmds.take(i));
    if i + 1 < cmds.len() {
        lemma_commands_count_prefix(cmds.drop_last(), i);
        assert(cmds.drop_last().take(i + 1) =~= cmds.take(i + 1));
    } else {
        assert(cmds.take(i + 1) =~= cmds);
    }
}

proof fn lemma_removal_shrinks(g: ProgramGraph, n: u32)
    requires
        g.wf(),
    ensures
        g.cnodes().remove(n).dom().len() <= g.cnodes().dom().len(),
        crate::graph_store::edges_without(g.cedges(), n).dom().len() <= g.cedges().dom().len(),
        g.cedges().remove(n).dom().len() <= g.cedges().dom().len(),
{
    let kept = crate::graph_store::edges_without(g.cedges(), n);
    assert(kept.dom().subset_of(g.cedges().dom()));
    vstd::set_lib::lemma_len_subset(kept.dom(), g.cedges().dom());
}

/// Applies a recorded edit command to the graph, as undo and redo replay
/// it: each primitive command performs its graph operation (a failure is
/// reported as its API error, see `ApiError::from_core_error`, and changes
/// nothing); a batch applies its commands in order and stops at the first
/// that fails, keeping what the earlier ones did.
pub fn apply_edit_command(graph: &mut ProgramGraph, cmd: &EditCommand) -> (r: Result<(), ApiError>)
    requires
        old(graph).wf(),
        edit_headroom(*old(graph), command_count(*cmd)),
    ensures
        final(graph).wf(),
        grown_within(*old(graph), *final(graph), command_count(*cmd)),
        r is Ok ==> command_effect(*old(graph), *final(graph), *cmd),
        (r matches Err(e) ==> command_fails(*old(graph), *final(graph), *cmd, e)),
        !(*cmd is Batch) ==> (r is Ok <==> command_applies(*old(graph), *cmd)),
    decreases *cmd,
{
    let ghost before = *graph;
    proof {
        lemma_removal_shrinks(before, 0);
    }
    match cmd {
        EditCommand::InsertNode { op, owner, .. } => match graph.add_compute_node(*op, *owner) {
            Ok(n) => {
                proof {
                    assert(!before.cnodes().contains_key(n.0) && graph.cnodes() == before.cnodes().insert(
                        n.0,
                        ComputeNode { op: *op, owner: *owner },
                    ));
                }
                Ok(())
            },
            Err(e) => Err(ApiError::from_core_error(&e)),
        },
        EditCommand::RemoveNode { node_id, .. } => {
            proof {
                lemma_removal_shrinks(before, node_id.0);
            }
            match graph.remove_compute_node(*node_id) {
                Ok(_) => Ok(()),
                Err(e) => Err(ApiError::from_core_error(&e)),
            }
        },
        EditCommand::ModifyNode { node_id, new_op, .. } => match graph.modify_compute_node_op(*node_id, *new_op) {
            Ok(_) => Ok(()),
            Err(e) => Err(ApiError::from_core_error(&e)),
        },
        EditCommand::InsertDataEdge { from, to, source_port, target_port, value_type, .. } => match graph.add_data_edge(
            *from,
            *to,
            *source_port,
            *target_port,
            *value_type,
        ) {
            Ok(x) => {
                proof {
                    assert(!before.cedges().contains_key(x.0) && graph.cedges() == before.cedges().insert(
                        x.0,
                        (from.0, to.0, FlowEdge::Data { source_port: *source_port, target_port: *target_port, value_type: *value_type }),
                    ));
                }
                Ok(())
            },
            Err(e) => Err(ApiError::from_core_error(&e)),
        },
        EditCommand::InsertControlEdge { from, to, branch_index, .. } => match graph.add_control_edge(
            *from,
            *to,
            *branch_index,
        ) {
            Ok(x) => {
                proof {
                    assert(!before.cedges().contains_key(x.0) && graph.cedges() == before.cedges().insert(
                        x.0,
                        (from.0, to.0, FlowEdge::Control { branch_index: *branch_index }),
                    ));
                }
                Ok(())
            },
            Err(e) => Err(ApiError::from_core_error(&e)),
        },
        EditCommand::RemoveEdge { edge_id, .. } => {
            proof {
                lemma_removal_shrinks(before, edge_id.0);
            }
            match graph.remove_edge(*edge_id) {
                Ok(_) => Ok(()),
                Err(e) => Err(ApiError::from_core_error(&e)),
            }
        },
        EditCommand::AddFunction { name, module, params, return_type, visibility, .. } => match graph.add_function(
            name.clone(),
            *module,
            clone_params(params),
            *return_type,
            *visibility,
        ) {
            Ok(_) => Ok(()),
            Err(e) => Err(ApiError::from_core_error(&e)),
        },
        EditCommand::AddModule { name, parent, visibility, .. } => match graph.add_module(
            name.clone(),
            *parent,
            *visibility,
        ) {
            Ok(_) => Ok(()),
            Err(e) => Err(ApiError::from_core_error(&e)),
        },
        EditCommand::Batch { commands } => {
            let mut i: usize = 0;
            proof {
                assert(commands@.take(0) =~= Seq::<EditCommand>::empty());
            }
            while i < commands.len()
                invariant
                    *cmd == (EditCommand::Batch { commands: *commands }),
                    before == *old(graph),
                    before.wf(),
                    graph.wf(),
                    0 <= i <= commands.len(),
                    edit_headroom(before, commands_count(commands@)),
                    commands_effect(before, *graph, commands@.take(i as int)),
                    grown_within(before, *graph, commands_count(commands@.take(i as int))),
                decreases commands.len() - i,
            {
                proof {
                    lemma_commands_count_prefix(commands@, i as int);
                }
                let ghost mid = *graph;
                proof {
                    assert(decreases_to!(*cmd => cmd->commands));
                    assert(decreases_to!(cmd->commands => cmd->commands@));
                    assert(decreases_to!(cmd->commands@ => cmd->commands@[i as int]));
                }
                let step = apply_edit_command(graph, &commands[i]);
                match step {
                    Ok(()) => {},
                    Err(e) => {
                        proof {
                            assert(commands_effect(before, mid, commands@.take(i as int)));
                            assert(command_fails(mid, *graph, commands@[i as int], e));
                        }
                        return Err(e);
                    },
                }
                proof {
                    let next = commands@.take(i + 1);
                    assert(next.drop_last() =~= commands@.take(i as int));
                    assert(next.last() == commands@[i as int]);
                    assert(commands_effect(before, mid, next.drop_last()));
                }
                i = i + 1;
            }
            proof {
                assert(commands@.take(commands@.len() as int) =~= commands@);
            }
            Ok(())
        },
    }
}

proof fn lemma_mutation_growth(
    before: ProgramGraph,
    after: ProgramGraph,
    m: Mutation,
    r: Result<(Option<CreatedEntity>, EditCommand), ApiError>,
)
    requires
        before.wf(),
        after.wf(),
        mutation_outcome(before, after, m, r),
    ensures
        grown_within(before, after, 1),
{
    lemma_removal_shrinks(before, 0);
    match m {
        Mutation::RemoveNode { node_id } => {
            lemma_removal_shrinks(before, node_id.0);
        },
        Mutation::RemoveEdge { edge_id } => {
            lemma_removal_shrinks(before, edge_id.0);
        },
        Mutation::ModifyNode { node_id, .. } => {
            if before.cnodes().contains_key(node_id.0) {
                assert(after.cnodes().dom() =~= before.cnodes().dom());
            }
        },
        _ => {},
    }
}

/// `after` is `before` with the mutations applied one after the other, and
/// `created` and `cmds` are what they reported: the entities in order, and
/// one command per mutation.
pub open spec fn mutations_applied(
    before: ProgramGraph,
    after: ProgramGraph,
    ms: Seq<Mutation>,
    created: Seq<CreatedEntity>,
    cmds: Seq<EditCommand>,
) -> bool
    decreases ms.len(),
{
    if ms.len() == 0 {
        &&& after == before
        &&& created.len() == 0
        &&& cmds.len() == 0
    } else {
        &&& cmds.len() > 0
        &&& exists|mid: ProgramGraph, made: Option<CreatedEntity>|
            #[trigger] mutation_outcome(mid, after, ms.last(), Ok((made, cmds.last()))) && match made {
                Some(x) => created.len() > 0 && created.last() == x && mutations_applied(
                    before,
                    mid,
                    ms.drop_last(),
                    created.drop_last(),
                    cmds.drop_last(),
                ),
                None => mutations_applied(before, mid, ms.drop_last(), created, cmds.drop_last()),
            }
    }
}

/// Applies mutations in order, stopping at the first that fails. On
/// success, the created entities and the edit commands, one per mutation;
/// on failure, the first failing mutation's error, with the earlier ones
/// applied (callers that want all or nothing apply the batch to a copy).
pub fn apply_mutations(graph: &mut ProgramGraph, mutations: &Vec<Mutation>) -> (r: Result<(Vec<CreatedEntity>, Vec<EditCommand>), ApiError>)
    requires
        old(graph).wf(),
        edit_headroom(*old(graph), mutations@.len()),
    ensures
        final(graph).wf(),
        (r matches Ok((created, cmds)) ==> mutations_applied(*old(graph), *final(graph), mutations@, created@, cmds@)),
        (r matches Err(e) ==> exists|i: int, mid: ProgramGraph, created: Seq<CreatedEntity>, cmds: Seq<EditCommand>|
            #![trigger mutations_applied(*old(graph), mid, mutations@.take(i), created, cmds), mutation_outcome(mid, *final(graph), mutations@[i], Err(e))]
            0 <= i < mutations@.len() && mutations_applied(*old(graph), mid, mutations@.take(i), created, cmds)
                && mutation_outcome(mid, *final(graph), mutations@[i], Err(e))),
{
    let ghost start = *graph;
    let mut created: Vec<CreatedEntity> = Vec::new();
    let mut cmds: Vec<EditCommand> = Vec::new();
    let mut i: usize = 0;
    proof {
        assert(mutations@.take(0) =~= Seq::<Mutation>::empty());
    }
    while i < mutations.len()
        invariant
            start == *old(graph),
            start.wf(),
            graph.wf(),
            i <= mutations@.len(),
            edit_headroom(start, mutations@.len()),
            grown_within(start, *graph, i as nat),
            mutations_applied(start, *graph, mutations@.take(i as int), created@, cmds@),
        decreases mutations.len() - i,
    {
        let ghost mid = *graph;
        let ghost made_before = created@;
        let ghost cmds_before = cmds@;
        let step = apply_mutation(graph, &mutations[i]);
        match step {
            Ok((made, cmd)) => {
                let ghost made_g = made;
                let ghost cmd_g = cmd;
                proof {
                    lemma_mutation_growth(mid, *graph, mutations@[i as int], Ok((made_g, cmd_g)));
                }
                match made {
                    Some(x) => created.push(x),
                    None => {},
                }
                cmds.push(cmd);
                proof {
                    let next = mutations@.take(i + 1);
                    assert(next.drop_last() =~= mutations@.take(i as int));
                    assert(next.last() == mutations@[i as int]);
                    assert(cmds@.drop_last() =~= cmds_before);
                    assert(cmds@.last() == cmd_g);
                    match made_g {
                        Some(x) => {
                            assert(created@.drop_last() =~= made_before);
                        },
                        None => {},
                    }
                    assert(mutation_outcome(mid, *graph, next.last(), Ok((made_g, cmds@.last()))));
                }
            },
            Err(e) => {
                proof {
                    assert(mutation_outcome(mid, *graph, mutations@[i as int], Err(e)));
                    assert(mutations_applied(start, mid, mutations@.take(i as int), made_before, cmds_before));
                }
                return Err(e);
            },
        }
        i = i + 1;
    }
    proof {
        assert(mutations@.take(mutations@.len() as int) =~= mutations@);
    }
    Ok((created, cmds))
}

/// The response to a proposal with no mutations: valid, with nothing
/// created or committed.
pub fn empty_edit_response() -> (r: ProposeEditResponse)
    ensures
        r.valid,
        !r.committed,
        r.created@.len() == 0,
        r.errors@.len() == 0,
        r.warnings@.len() == 0,
{
    ProposeEditResponse { valid: true, created: Vec::new(), errors: Vec::new(), warnings: Vec::new(), committed: false }
}

/// The response to a proposal one of whose mutations failed: invalid, not
/// committed, with one `MUTATION_FAILED` error carrying the failure's
/// description.
pub fn mutation_failed_response(e: &ApiError) -> (r: ProposeEditResponse)
    ensures
        !r.valid,
        !r.committed,
        r.created@.len() == 0,
        r.warnings@.len() == 0,
        r.errors@.len() == 1,
        r.errors@[0].code@ == "MUTATION_FAILED"@,
        r.errors@[0].message@ == display_of(*e),
        r.errors@[0].details is None,
{
    let mut errors: Vec<DiagnosticError> = Vec::new();
    errors.push(DiagnosticError { code: String::from_str("MUTATION_FAILED"), message: e.to_string(), details: None });
    ProposeEditResponse { valid: false, created: Vec::new(), errors, warnings: Vec::new(), committed: false }
}

/// Whether an applied proposal is kept: not a dry run, and validation
/// found nothing.
pub open spec fn edit_commits(dry_run: bool, errors: Seq<DiagnosticError>) -> bool {
    !dry_run && errors.len() == 0
}

/// The response once the mutations applied and the edited graph was
/// validated with `errors`. A dry run reports the created entities and is
/// valid exactly when there are no errors; otherwise the edit is committed
/// with its created entities when there are no errors, and refused with the
/// errors (and nothing created) when there are some.
pub fn validated_edit_response(dry_run: bool, created: Vec<CreatedEntity>, errors: Vec<DiagnosticError>) -> (r: ProposeEditResponse)
    ensures
        r.valid == (errors@.len() == 0),
        r.committed == edit_commits(dry_run, errors@),
        r.errors@ == errors@,
        r.warnings@.len() == 0,
        r.created@ == (if dry_run || errors@.len() == 0 { created@ } else { Seq::empty() }),
{
    let valid = errors.len() == 0;
    if dry_run {
        ProposeEditResponse { valid, created, errors, warnings: Vec::new(), committed: false }
    } else if valid {
        ProposeEditResponse { valid: true, created, errors, warnings: Vec::new(), committed: true }
    } else {
        ProposeEditResponse { valid: false, created: Vec::new(), errors, warnings: Vec::new(), committed: false }
    }
}

/// The command recorded for an applied mutation describes exactly the
/// change the mutation made: replaying it on the graph the mutation started
/// from has the same effect.
pub proof fn lemma_recorded_command_replays(
    before: ProgramGraph,
    after: ProgramGraph,
    m: Mutation,
    made: Option<CreatedEntity>,
    cmd: EditCommand,
)
    requires
        mutation_outcome(before, after, m, Ok((made, cmd))),
    ensures
        command_effect(before, after, cmd),
        !(cmd is Batch),
        command_applies(before, cmd),
{
    match m {
        Mutation::InsertNode { op, owner } => {
            if let EditCommand::InsertNode { node_id, .. } = cmd {
                assert(!before.cnodes().contains_key(node_id.0) && after.cnodes() == before.cnodes().insert(
                    node_id.0,
                    ComputeNode { op, owner },
                ));
            }
        },
        Mutation::AddEdge { from, to, source_port, target_port, value_type } => {
            if let Some(CreatedEntity::Edge { id }) = made {
                assert(!before.cedges().contains_key(id.0) && after.cedges() == before.cedges().insert(
                    id.0,
                    (from.0, to.0, FlowEdge::Data { source_port, target_port, value_type }),
                ));
            }
        },
        Mutation::AddControlEdge { from, to, branch_index } => {
            if let Some(CreatedEntity::Edge { id }) = made {
                assert(!before.cedges().contains_key(id.0) && after.cedges() == before.cedges().insert(
                    id.0,
                    (from.0, to.0, FlowEdge::Control { branch_index }),
                ));
            }
        },
        _ => {},
    }
}

} // verus!
