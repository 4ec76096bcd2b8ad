//! The dual-graph program container.
//!
//! A program is two stable graphs: the computational graph of operation
//! nodes with data and control flow edges (what gets compiled), and the
//! semantic graph, a skeleton of modules, functions, types and artifacts
//! with their relationships. Every mutation goes through [`ProgramGraph`],
//! which keeps the two layers consistent: each function and each module has
//! its own semantic node, created with it.

use std::collections::HashMap;
use vstd::prelude::*;
use petgraph::stable_graph::StableGraph;
use petgraph::Directed;
use crate::edge::{FlowEdge, SemanticEdge};
use crate::error::CoreError;
use crate::function::{Capture, FunctionDef};
use crate::graph_store::{
    compute_add_edge, compute_add_node, compute_edge_count, compute_edge_endpoints, compute_edges, compute_graph_new, compute_node,
    compute_node_count, compute_node_indices, compute_node_mut, compute_nodes, compute_remove_edge,
    compute_remove_node, edges_without, lists_out_edges, semantic_add_edge, semantic_add_node, semantic_edge_count,
    semantic_edges, semantic_graph_new, semantic_node, semantic_node_count, semantic_node_mut, semantic_nodes,
    semantic_out_edges, semantic_remove_edge,
};
use crate::ids::{EdgeId, FunctionId, ModuleId, NodeId, TypeId};
use crate::module::{seq_at, ModuleDef, ModuleTree};
use crate::node::{
    clone_params, fresh_metadata, function_refreshed, metadata_of, module_refreshed, summary_is, with_metadata, DocNode, EmbeddingPayload, EmbeddingVector,
    FunctionSignature, FunctionSummary, ModuleNode, SemanticMetadata, SemanticNode, SemanticSummaryPayload, SpecNode,
    TestNode,
};
use crate::ops::{ComputeNode, ComputeNodeOp, ComputeOp, StructuredOp};
use crate::propagation::{
    event_function, flush_report, flush_run, flush_start, lemma_flush_laws, strictly_increasing, PropagationEvent,
    PropagationEventKind, PropagationFlushReport, PropagationLayer, PropagationQueue, SemanticEvent,
};
use crate::verify_scope::insert_sorted;
use crate::text::{cat, cat3, decimal_seq, u64_to_decimal};
use crate::type_registry::TypeRegistry;
use crate::types::Visibility;

verus! {

broadcast use vstd::std_specs::hash::group_hash_axioms;

/// Every function is stored at the position of its id and belongs to a
/// known module.
pub open spec fn functions_indexed(fns: Seq<FunctionDef>, modules: Map<u32, ModuleDef>) -> bool {
    forall|i: int| 0 <= i < fns.len() ==> (#[trigger] fns[i]).id == FunctionId(i as u32) && modules.contains_key(
        fns[i].module.0,
    )
}

/// Function `i`'s semantic node is a function node for function `i`.
pub open spec fn functions_mirrored(fsem: Seq<u32>, snodes: Map<u32, SemanticNode>) -> bool {
    forall|i: int| 0 <= i < fsem.len() ==> snodes.contains_key(#[trigger] fsem[i]) && (snodes[fsem[i]] matches SemanticNode::Function(
        s,
    ) && s.function_id == FunctionId(i as u32))
}

/// Each known module has a semantic node, a module node for that module.
pub open spec fn modules_mirrored(modules: Map<u32, ModuleDef>, msem: Map<u32, u32>, snodes: Map<u32, SemanticNode>) -> bool {
    forall|m: u32| #[trigger] modules.contains_key(m) ==> msem.contains_key(m) && snodes.contains_key(msem[m]) && (
    snodes[msem[m]] matches SemanticNode::Module(x) && x.module.id == ModuleId(m))
}

/// Every edge joins two nodes of the graph.
pub open spec fn edges_closed<E>(edges: Map<u32, (u32, u32, E)>, nodes: Set<u32>) -> bool {
    forall|e: u32| #[trigger] edges.contains_key(e) ==> nodes.contains(edges[e].0) && nodes.contains(edges[e].1)
}

/// Every compute node belongs to a known function.
pub open spec fn owners_known(cnodes: Map<u32, ComputeNode>, next_fn: u32) -> bool {
    forall|n: u32| #[trigger] cnodes.contains_key(n) ==> cnodes[n].owner.0 < next_fn
}

/// `n` is the semantic node of module `def`, as it is created.
pub open spec fn module_node_is(n: SemanticNode, def: ModuleDef) -> bool {
    n matches SemanticNode::Module(x) && x.module == def && fresh_metadata(
        Some(def.id),
        None,
        x.metadata,
        "module"@,
        def.name@,
        "module "@ + def.name@ + " declaration"@,
    )
}

/// `n` is the semantic node of a function, as it is created: its summary
/// body is `body`.
pub open spec fn function_node_is(
    n: SemanticNode,
    id: FunctionId,
    name: Seq<char>,
    module: ModuleId,
    visibility: Visibility,
    params: Seq<(String, TypeId)>,
    return_type: TypeId,
    body: Seq<char>,
) -> bool {
    n matches SemanticNode::Function(s) && s.name@ == name && s.function_id == id && s.module == module
        && s.visibility == visibility && s.signature.params@ == params && s.signature.return_type == return_type
        && fresh_metadata(Some(module), Some(id), s.metadata, "function"@, name, body)
}

/// `f` is a freshly added function definition.
pub open spec fn function_def_is(
    f: FunctionDef,
    id: FunctionId,
    name: Seq<char>,
    module: ModuleId,
    visibility: Visibility,
    params: Seq<(String, TypeId)>,
    return_type: TypeId,
    parent: Option<FunctionId>,
    captures: Seq<Capture>,
) -> bool {
    &&& f.id == id
    &&& f.name@ == name
    &&& f.module == module
    &&& f.visibility == visibility
    &&& f.params@ == params
    &&& f.return_type == return_type
    &&& f.entry_node is None
    &&& f.captures@ == captures
    &&& f.is_closure == (parent is Some)
    &&& f.parent_function == parent
}

/// The program graph: both layers, the type registry, the module tree, the
/// function table and the pending propagation events.
#[derive(Debug, Clone)]
pub struct ProgramGraph {
    compute: StableGraph<ComputeNode, FlowEdge, Directed, u32>,
    semantic: StableGraph<SemanticNode, SemanticEdge, Directed, u32>,
    /// Type registry for nominal type identity.
    pub types: TypeRegistry,
    /// Module hierarchy.
    pub modules: ModuleTree,
    /// Function definitions, at the position of their id.
    functions: Vec<FunctionDef>,
    /// Module id to the index of its semantic node.
    module_semantic_nodes: HashMap<u32, u32>,
    /// Function id (position) to the index of its semantic node.
    function_semantic_nodes: Vec<u32>,
    next_function_id: u32,
    propagation: PropagationQueue,
}

impl ProgramGraph {
    /// The module tree.
    pub closed spec fn tree(&self) -> ModuleTree {
        self.modules
    }

    /// The type registry.
    pub closed spec fn registry(&self) -> TypeRegistry {
        self.types
    }

    /// The compute nodes, by index.
    pub closed spec fn cnodes(&self) -> Map<u32, ComputeNode> {
        compute_nodes(self.compute)
    }

    /// The compute edges, by index.
    pub closed spec fn cedges(&self) -> Map<u32, (u32, u32, FlowEdge)> {
        compute_edges(self.compute)
    }

    /// The semantic nodes, by index.
    pub closed spec fn snodes(&self) -> Map<u32, SemanticNode> {
        semantic_nodes(self.semantic)
    }

    /// The semantic edges, by index.
    pub closed spec fn sedges(&self) -> Map<u32, (u32, u32, SemanticEdge)> {
        semantic_edges(self.semantic)
    }

    /// The function table.
    pub closed spec fn fns(&self) -> Seq<FunctionDef> {
        self.functions@
    }

    /// The semantic node of each function, by function id.
    pub closed spec fn fsem(&self) -> Seq<u32> {
        self.function_semantic_nodes@
    }

    /// The semantic node of each module, by module id.
    pub closed spec fn msem(&self) -> Map<u32, u32> {
        self.module_semantic_nodes@
    }

    /// The id the next function receives.
    pub closed spec fn next_fn(&self) -> u32 {
        self.next_function_id
    }

    /// The pending propagation events, in queue order.
    pub closed spec fn pending(&self) -> Seq<crate::propagation::PropagationEvent> {
        self.propagation.queue_view()
    }

    /// The propagation queue's counters: next event id, next sequence
    /// number and replay limit.
    pub closed spec fn queue_counters(&self) -> (u64, u64, usize) {
        (self.propagation.next_id_view(), self.propagation.next_sequence_view(), self.propagation.replay_limit_view())
    }

    /// Well-formedness: the module tree and type registry are well formed;
    /// functions sit at their ids, each in a known module; every function
    /// and every module has its own semantic node; edges join nodes of their
    /// graph; every compute node belongs to a known function.
    pub open spec fn wf(&self) -> bool {
        &&& self.tree().wf()
        &&& self.registry().wf()
        &&& self.cnodes().dom().finite()
        &&& self.cedges().dom().finite()
        &&& self.snodes().dom().finite()
        &&& self.sedges().dom().finite()
        &&& self.fns().len() == self.next_fn() as int
        &&& self.fsem().len() == self.fns().len()
        &&& functions_indexed(self.fns(), self.tree().modules_view())
        &&& functions_mirrored(self.fsem(), self.snodes())
        &&& modules_mirrored(self.tree().modules_view(), self.msem(), self.snodes())
        &&& edges_closed(self.cedges(), self.cnodes().dom())
        &&& edges_closed(self.sedges(), self.snodes().dom())
        &&& owners_known(self.cnodes(), self.next_fn())
    }

    /// The compute layer and the function table are those of `other`.
    pub open spec fn same_program(&self, other: &Self) -> bool {
        &&& self.cnodes() == other.cnodes()
        &&& self.cedges() == other.cedges()
        &&& self.fns() == other.fns()
        &&& self.next_fn() == other.next_fn()
        &&& self.tree() == other.tree()
        &&& self.registry() == other.registry()
        &&& self.pending() == other.pending()
        &&& self.queue_counters() == other.queue_counters()
    }

    /// The semantic layer is that of `other`.
    pub open spec fn same_semantics(&self, other: &Self) -> bool {
        &&& self.snodes() == other.snodes()
        &&& self.sedges() == other.sedges()
        &&& self.fsem() == other.fsem()
        &&& self.msem() == other.msem()
    }

    /// A new program: a root module named `root_module_name` with its
    /// semantic node, empty computational graph, the built-in types, no
    /// functions and no pending events.
    pub fn new(root_module_name: &str) -> (g: Self)
        ensures
            g.wf(),
            g.tree().root_view() == ModuleId(0),
            g.tree().modules_view().dom() == set![0u32],
            g.tree().modules_view()[0u32].name@ == root_module_name@,
            g.tree().next_id_view() == 1,
            g.tree().children_view() == map![0u32 => Seq::<ModuleId>::empty()],
            g.tree().functions_view() == map![0u32 => Seq::<FunctionId>::empty()],
            g.tree().type_defs_view() == map![0u32 => Seq::<TypeId>::empty()],
            g.tree().linked(),
            g.tree().ids_dense(),
            g.registry().type_seq().len() == 9,
            g.cnodes().dom().len() == 0,
            g.cedges().dom().len() == 0,
            g.snodes().dom() == set![g.msem()[0u32]],
            module_node_is(g.snodes()[g.msem()[0u32]], g.tree().modules_view()[0u32]),
            g.sedges().dom().len() == 0,
            g.fns().len() == 0,
            g.pending().len() == 0,
    {
        let modules = ModuleTree::new(root_module_name);
        let root_id = modules.root_id();
        let root_def = modules.get_module(root_id).unwrap().duplicate();
        let mut semantic = semantic_graph_new();
        let body = cat3("module ", root_def.name.as_str(), " declaration");
        let metadata = SemanticMetadata::with_module("module", root_id, root_def.name.as_str(), body.as_str());
        proof {
            assert(semantic_nodes(semantic).dom() =~= Set::<u32>::empty());
        }
        let root_idx = semantic_add_node(&mut semantic, SemanticNode::Module(ModuleNode { module: root_def, metadata }));
        let mut module_semantic_nodes: HashMap<u32, u32> = HashMap::new();
        module_semantic_nodes.insert(0u32, root_idx);
        let g = ProgramGraph {
            compute: compute_graph_new(),
            semantic,
            types: TypeRegistry::new(),
            modules,
            functions: Vec::new(),
            module_semantic_nodes,
            function_semantic_nodes: Vec::new(),
            next_function_id: 0,
            propagation: PropagationQueue::new(),
        };
        proof {
            assert(g.snodes().dom() =~= set![root_idx]);
            assert(g.cnodes().dom() =~= Set::<u32>::empty());
            assert(g.cedges().dom() =~= Set::<u32>::empty());
            assert(g.sedges().dom() =~= Set::<u32>::empty());
            assert(g.tree().modules_view().dom() =~= set![0u32]);
        }
        g
    }

    /// Reassembles a program graph from stored parts, as they are, with an
    /// empty propagation queue numbering events from 1.
    pub fn from_parts(
        compute: StableGraph<ComputeNode, FlowEdge, Directed, u32>,
        semantic: StableGraph<SemanticNode, SemanticEdge, Directed, u32>,
        types: TypeRegistry,
        modules: ModuleTree,
        functions: Vec<FunctionDef>,
        module_semantic_nodes: HashMap<u32, u32>,
        function_semantic_nodes: Vec<u32>,
        next_function_id: u32,
    ) -> (g: Self)
        ensures
            g.cnodes() == compute_nodes(compute),
            g.cedges() == compute_edges(compute),
            g.snodes() == semantic_nodes(semantic),
            g.sedges() == semantic_edges(semantic),
            g.registry() == types,
            g.tree() == modules,
            g.fns() == functions@,
            g.msem() == module_semantic_nodes@,
            g.fsem() == function_semantic_nodes@,
            g.next_fn() == next_function_id,
            g.pending().len() == 0,
            g.queue_counters() == (1u64, 1u64, 1024usize),
    {
        ProgramGraph {
            compute,
            semantic,
            types,
            modules,
            functions,
            module_semantic_nodes,
            function_semantic_nodes,
            next_function_id,
            propagation: PropagationQueue::new(),
        }
    }

    /// The id of the root module.
    pub(crate) fn root_module_id(&self) -> (r: ModuleId)
        ensures
            r == self.tree().root_view(),
    {
        self.modules.root_id()
    }

    /// The computational graph, read-only.
    pub fn compute(&self) -> (r: &StableGraph<ComputeNode, FlowEdge, Directed, u32>)
        ensures
            compute_nodes(*r) == self.cnodes(),
            compute_edges(*r) == self.cedges(),
    {
        &self.compute
    }

    /// The semantic graph, read-only.
    pub fn semantic(&self) -> (r: &StableGraph<SemanticNode, SemanticEdge, Directed, u32>)
        ensures
            semantic_nodes(*r) == self.snodes(),
            semantic_edges(*r) == self.sedges(),
    {
        &self.semantic
    }

    /// The function table, at the position of each function's id.
    pub fn functions(&self) -> (r: &[FunctionDef])
        ensures
            r@ == self.fns(),
    {
        self.functions.as_slice()
    }

    /// Module id to the index of its semantic node.
    pub fn module_semantic_indices(&self) -> (r: &HashMap<u32, u32>)
        ensures
            r@ == self.msem(),
    {
        &self.module_semantic_nodes
    }

    /// The index of each function's semantic node, by function id.
    pub fn function_semantic_indices(&self) -> (r: &[u32])
        ensures
            r@ == self.fsem(),
    {
        self.function_semantic_nodes.as_slice()
    }

    /// The id and the sequence number the next propagation event receives.
    pub fn propagation_counters(&self) -> (r: (u64, u64))
        ensures
            r == (self.queue_counters().0, self.queue_counters().1),
    {
        self.propagation.counters()
    }

    /// The id the next function will receive.
    pub fn next_function_id(&self) -> (r: u32)
        ensures
            r == self.next_fn(),
    {
        self.next_function_id
    }

    /// The pending propagation events, in queue order.
    pub fn pending_propagation_events(&self) -> (r: &[crate::propagation::PropagationEvent])
        ensures
            r@ == self.pending(),
    {
        self.propagation.pending_propagation_events()
    }

    /// Adds a child module under `parent` (see `ModuleTree::add_module`),
    /// with its own semantic node and a `Contains` edge from the parent's.
    /// Fails with `ModuleNotFound`, changing nothing, when `parent` is not a
    /// known module.
    pub fn add_module(&mut self, name: String, parent: ModuleId, visibility: Visibility) -> (r: Result<
        ModuleId,
        CoreError,
    >)
        requires
            old(self).wf(),
            old(self).tree().next_id_view() < u32::MAX,
            old(self).snodes().dom().len() < u32::MAX,
            old(self).sedges().dom().len() < u32::MAX,
        ensures
            final(self).wf(),
            !old(self).tree().modules_view().contains_key(parent.0) ==> {
                &&& (r matches Err(CoreError::ModuleNotFound { id }) && id == parent)
                &&& *final(self) == *old(self)
            },
            old(self).tree().modules_view().contains_key(parent.0) ==> {
                let id = ModuleId(old(self).tree().next_id_view());
                let k = final(self).msem()[id.0];
                let def = final(self).tree().modules_view()[id.0];
                &&& (r matches Ok(x) && x == id)
                &&& final(self).tree().modules_view() == old(self).tree().modules_view().insert(id.0, def)
                &&& final(self).tree().next_id_view() == old(self).tree().next_id_view() + 1
                &&& final(self).tree().children_view() == old(self).tree().children_view().insert(
                    parent.0,
                    seq_at(old(self).tree().children_view(), parent.0).push(id),
                ).insert(id.0, Seq::empty())
                &&& (old(self).tree().linked() ==> final(self).tree().linked())
                &&& (old(self).tree().ids_dense() ==> final(self).tree().ids_dense())
                &&& def.id == id && def.name@ == name@ && def.parent == Some(parent) && def.visibility == visibility
                &&& final(self).msem() == old(self).msem().insert(id.0, k)
                &&& !old(self).snodes().contains_key(k)
                &&& final(self).snodes() == old(self).snodes().insert(k, final(self).snodes()[k])
                &&& module_node_is(final(self).snodes()[k], def)
                &&& exists|e: u32|
                    !old(self).sedges().contains_key(e) && final(self).sedges() == #[trigger] old(self).sedges().insert(
                        e,
                        (old(self).msem()[parent.0], k, SemanticEdge::Contains),
                    )
                &&& final(self).cnodes() == old(self).cnodes()
                &&& final(self).cedges() == old(self).cedges()
                &&& final(self).fns() == old(self).fns()
                &&& final(self).fsem() == old(self).fsem()
                &&& final(self).registry() == old(self).registry()
                &&& final(self).pending() == old(self).pending()
            },
    {
        let ghost old_tree = self.modules;
        let module_id = match self.modules.add_module(name, parent, visibility) {
            Ok(id) => id,
            Err(e) => {
                return Err(e);
            },
        };
        let module_def = self.modules.get_module(module_id).unwrap().duplicate();
        let body = cat3("module ", module_def.name.as_str(), " declaration");
        let metadata = SemanticMetadata::with_module("module", module_id, module_def.name.as_str(), body.as_str());
        let sem_idx = semantic_add_node(&mut self.semantic, SemanticNode::Module(ModuleNode { module: module_def, metadata }));
        let parent_sem = self.module_semantic_nodes.get(&parent.0);
        let parent_idx = match parent_sem {
            Some(p) => *p,
            None => {
                proof {
                    assert(old_tree.modules_view().contains_key(parent.0));
                }
                0
            },
        };
        self.module_semantic_nodes.insert(module_id.0, sem_idx);
        let e = semantic_add_edge(&mut self.semantic, parent_idx, sem_idx, SemanticEdge::Contains);
        proof {
            let old_m = old(self).tree().modules_view();
            let new_m = self.tree().modules_view();
            assert forall|i: int| 0 <= i < self.fns().len() implies (#[trigger] self.fns()[i]).id == FunctionId(i as u32)
                && new_m.contains_key(self.fns()[i].module.0) by {
                assert(old_m.contains_key(self.fns()[i].module.0));
            }
            assert forall|i: int| 0 <= i < self.fsem().len() implies self.snodes().contains_key(#[trigger] self.fsem()[i])
                && (self.snodes()[self.fsem()[i]] matches SemanticNode::Function(x) && x.function_id == FunctionId(i as u32)) by {
                assert(old(self).snodes().contains_key(self.fsem()[i]));
            }
            assert forall|m: u32| #[trigger] new_m.contains_key(m) implies self.msem().contains_key(m) && self.snodes().contains_key(
                self.msem()[m],
            ) && (self.snodes()[self.msem()[m]] matches SemanticNode::Module(x) && x.module.id == ModuleId(m)) by {
                if m != module_id.0 {
                    assert(old_m.contains_key(m));
                    assert(old(self).snodes().contains_key(old(self).msem()[m]));
                }
            }
            assert forall|x: u32| #[trigger] self.sedges().contains_key(x) implies self.snodes().dom().contains(
                self.sedges()[x].0,
            ) && self.snodes().dom().contains(self.sedges()[x].1) by {
                if x != e {
                    assert(old(self).sedges().contains_key(x));
                }
            }
            assert(self.sedges() == old(self).sedges().insert(e, (old(self).msem()[parent.0], sem_idx, SemanticEdge::Contains)));
        }
        Ok(module_id)
    }

    /// Adds a public or private function to a module: its definition under
    /// the next function id, its registration in the module tree, its
    /// semantic node and a `Contains` edge from the module's semantic node.
    /// Fails with `ModuleNotFound`, changing nothing, when the module is
    /// unknown.
    pub fn add_function(
        &mut self,
        name: String,
        module: ModuleId,
        params: Vec<(String, TypeId)>,
        return_type: TypeId,
        visibility: Visibility,
    ) -> (r: Result<FunctionId, CoreError>)
        requires
            old(self).wf(),
            old(self).next_fn() < u32::MAX,
            old(self).snodes().dom().len() < u32::MAX,
            old(self).sedges().dom().len() < u32::MAX,
        ensures
            final(self).wf(),
            !old(self).tree().modules_view().contains_key(module.0) ==> {
                &&& (r matches Err(CoreError::ModuleNotFound { id }) && id == module)
                &&& *final(self) == *old(self)
            },
            old(self).tree().modules_view().contains_key(module.0) ==> {
                let id = FunctionId(old(self).next_fn());
                let k = final(self).fsem().last();
                &&& (r matches Ok(x) && x == id)
                &&& added_function(*old(self), *final(self), id, module, k)
                &&& function_def_is(final(self).fns().last(), id, name@, module, visibility, params@, return_type, None, seq![])
                &&& function_node_is(final(self).snodes()[k], id, name@, module, visibility, params@, return_type,
                    "fn "@ + name@ + " signature declaration"@)
            },
    {
        self.add_function_entry(name, module, params, return_type, visibility, None, Vec::new())
    }

    /// Adds a closure nested in `parent` to a module, with its captures; like
    /// [`Self::add_function`], but the definition is a private closure and
    /// its semantic summary reads `closure <name> signature declaration`.
    /// Fails with `ModuleNotFound` when the module is unknown, else with
    /// `FunctionNotFound` when `parent` is not a known function, changing
    /// nothing.
    pub fn add_closure(
        &mut self,
        name: String,
        module: ModuleId,
        parent: FunctionId,
        params: Vec<(String, TypeId)>,
        return_type: TypeId,
        captures: Vec<Capture>,
    ) -> (r: Result<FunctionId, CoreError>)
        requires
            old(self).wf(),
            old(self).next_fn() < u32::MAX,
            old(self).snodes().dom().len() < u32::MAX,
            old(self).sedges().dom().len() < u32::MAX,
        ensures
            final(self).wf(),
            !old(self).tree().modules_view().contains_key(module.0) ==> {
                &&& (r matches Err(CoreError::ModuleNotFound { id }) && id == module)
                &&& *final(self) == *old(self)
            },
            old(self).tree().modules_view().contains_key(module.0) && parent.0 >= old(self).next_fn() ==> {
                &&& (r matches Err(CoreError::FunctionNotFound { id }) && id == parent)
                &&& *final(self) == *old(self)
            },
            old(self).tree().modules_view().contains_key(module.0) && parent.0 < old(self).next_fn() ==> {
                let id = FunctionId(old(self).next_fn());
                let k = final(self).fsem().last();
                &&& (r matches Ok(x) && x == id)
                &&& added_function(*old(self), *final(self), id, module, k)
                &&& function_def_is(final(self).fns().last(), id, name@, module, Visibility::Private, params@,
                    return_type, Some(parent), captures@)
                &&& function_node_is(final(self).snodes()[k], id, name@, module, Visibility::Private, params@,
                    return_type, "closure "@ + name@ + " signature declaration"@)
            },
    {
        if self.modules.get_module(module).is_none() {
            return Err(CoreError::ModuleNotFound { id: module });
        }
        if parent.0 >= self.next_function_id {
            return Err(CoreError::FunctionNotFound { id: parent });
        }
        self.add_function_entry(name, module, params, return_type, Visibility::Private, Some(parent), captures)
    }

    /// Adds a function or (with a parent) a closure.
    fn add_function_entry(
        &mut self,
        name: String,
        module: ModuleId,
        params: Vec<(String, TypeId)>,
        return_type: TypeId,
        visibility: Visibility,
        parent: Option<FunctionId>,
        captures: Vec<Capture>,
    ) -> (r: Result<FunctionId, CoreError>)
        requires
            old(self).wf(),
            old(self).next_fn() < u32::MAX,
            old(self).snodes().dom().len() < u32::MAX,
            old(self).sedges().dom().len() < u32::MAX,
            parent matches Some(p) ==> p.0 < old(self).next_fn() && visibility == Visibility::Private,
            parent is None ==> captures@.len() == 0,
        ensures
            final(self).wf(),
            !old(self).tree().modules_view().contains_key(module.0) ==> {
                &&& (r matches Err(CoreError::ModuleNotFound { id }) && id == module)
                &&& *final(self) == *old(self)
            },
            old(self).tree().modules_view().contains_key(module.0) ==> {
                let id = FunctionId(old(self).next_fn());
                let k = final(self).fsem().last();
                let body = if parent is Some { "closure "@ + name@ + " signature declaration"@ } else {
                    "fn "@ + name@ + " signature declaration"@
                };
                &&& (r matches Ok(x) && x == id)
                &&& added_function(*old(self), *final(self), id, module, k)
                &&& function_def_is(final(self).fns().last(), id, name@, module, visibility, params@, return_type,
                    parent, captures@)
                &&& function_node_is(final(self).snodes()[k], id, name@, module, visibility, params@, return_type, body)
            },
    {
        if self.modules.get_module(module).is_none() {
            return Err(CoreError::ModuleNotFound { id: module });
        }
        let ghost caps = captures@;
        let func_id = FunctionId(self.next_function_id);
        self.next_function_id = self.next_function_id + 1;
        let summary_params = clone_params(&params);
        let def = match parent {
            Some(p) => FunctionDef::closure(func_id, name.clone(), module, p, params, return_type, captures),
            None => {
                let mut d = FunctionDef::new(func_id, name.clone(), module, params, return_type);
                d.visibility = visibility;
                d
            },
        };
        self.functions.push(def);
        match self.modules.add_function(module, func_id) {
            Ok(()) => {},
            Err(e) => {
                return Err(e);
            },
        }
        let body = match parent {
            Some(_) => cat3("closure ", name.as_str(), " signature declaration"),
            None => cat3("fn ", name.as_str(), " signature declaration"),
        };
        let metadata = SemanticMetadata::with_function("function", module, func_id, name.as_str(), body.as_str());
        let summary = FunctionSummary {
            name,
            function_id: func_id,
            module,
            visibility,
            signature: FunctionSignature { params: summary_params, return_type },
            metadata,
        };
        let sem_idx = semantic_add_node(&mut self.semantic, SemanticNode::Function(summary));
        self.function_semantic_nodes.push(sem_idx);
        let module_idx = match self.module_semantic_nodes.get(&module.0) {
            Some(m) => *m,
            None => 0,
        };
        let e = semantic_add_edge(&mut self.semantic, module_idx, sem_idx, SemanticEdge::Contains);
        proof {
            assert(self.fns() =~= old(self).fns().push(self.fns().last()));
            assert(self.fns().drop_last() =~= old(self).fns());
            assert(self.fns().last().captures@ =~= caps);
            lemma_function_added_wf(*old(self), *self, func_id, module, sem_idx, e);
        }
        Ok(func_id)
    }

    /// The definition of function `id`, if known.
    pub fn get_function(&self, id: FunctionId) -> (r: Option<&FunctionDef>)
        ensures
            (id.0 as int) < self.fns().len() ==> r == Some(&self.fns()[id.0 as int]),
            (id.0 as int) >= self.fns().len() ==> r is None,
    {
        if (id.0 as usize) < self.functions.len() {
            Some(&self.functions[id.0 as usize])
        } else {
            None
        }
    }

    /// The definition of function `id`, to change in place (such as to set
    /// its entry node once the body exists); nothing else changes.
    pub fn get_function_mut(&mut self, id: FunctionId) -> (r: Option<&mut FunctionDef>)
        ensures
            (id.0 as int) < old(self).fns().len() ==> (r matches Some(f) && *f == old(self).fns()[id.0 as int]
                && final(self).fns() == old(self).fns().update(id.0 as int, *final(f))),
            (id.0 as int) >= old(self).fns().len() ==> (r is None && final(self).fns() == old(self).fns()),
            final(self).cnodes() == old(self).cnodes(),
            final(self).cedges() == old(self).cedges(),
            final(self).same_semantics(old(self)),
            final(self).next_fn() == old(self).next_fn(),
            final(self).tree() == old(self).tree(),
            final(self).registry() == old(self).registry(),
            final(self).pending() == old(self).pending(),
            final(self).queue_counters() == old(self).queue_counters(),
    {
        if (id.0 as usize) < self.functions.len() {
            Some(&mut self.functions[id.0 as usize])
        } else {
            None
        }
    }

    /// Adds a compute node with operation `op`, owned by function `owner`,
    /// under a fresh index; the semantic layer is untouched. Fails with
    /// `FunctionNotFound`, changing nothing, when the owner is unknown.
    pub fn add_compute_node(&mut self, op: ComputeNodeOp, owner: FunctionId) -> (r: Result<NodeId, CoreError>)
        requires
            old(self).wf(),
            old(self).cnodes().dom().len() < u32::MAX,
        ensures
            final(self).wf(),
            owner.0 >= old(self).next_fn() ==> {
                &&& (r matches Err(CoreError::FunctionNotFound { id }) && id == owner)
                &&& *final(self) == *old(self)
            },
            owner.0 < old(self).next_fn() ==> (r matches Ok(n) && {
                &&& !old(self).cnodes().contains_key(n.0)
                &&& final(self).cnodes() == old(self).cnodes().insert(n.0, ComputeNode { op, owner })
                &&& final(self).cedges() == old(self).cedges()
            }),
            final(self).same_semantics(old(self)),
            final(self).fns() == old(self).fns(),
            final(self).next_fn() == old(self).next_fn(),
            final(self).tree() == old(self).tree(),
            final(self).registry() == old(self).registry(),
            final(self).pending() == old(self).pending(),
            final(self).queue_counters() == old(self).queue_counters(),
    {
        if owner.0 >= self.next_function_id {
            return Err(CoreError::FunctionNotFound { id: owner });
        }
        let node = ComputeNode::new(op, owner);
        let idx = compute_add_node(&mut self.compute, node);
        proof {
            assert forall|x: u32| #[trigger] self.cedges().contains_key(x) implies self.cnodes().dom().contains(
                self.cedges()[x].0,
            ) && self.cnodes().dom().contains(self.cedges()[x].1) by {
                assert(old(self).cedges().contains_key(x));
            }
            assert forall|x: u32| #[trigger] self.cnodes().contains_key(x) implies self.cnodes()[x].owner.0 < self.next_fn() by {
                if x != idx {
                    assert(old(self).cnodes().contains_key(x));
                }
            }
        }
        Ok(NodeId(idx))
    }

    /// Adds a core (tier 1) operation node (see [`Self::add_compute_node`]).
    pub fn add_core_op(&mut self, op: ComputeOp, owner: FunctionId) -> (r: Result<NodeId, CoreError>)
        requires
            old(self).wf(),
            old(self).cnodes().dom().len() < u32::MAX,
        ensures
            final(self).wf(),
            owner.0 >= old(self).next_fn() ==> {
                &&& (r matches Err(CoreError::FunctionNotFound { id }) && id == owner)
                &&& *final(self) == *old(self)
            },
            owner.0 < old(self).next_fn() ==> (r matches Ok(n) && {
                &&& !old(self).cnodes().contains_key(n.0)
                &&& final(self).cnodes() == old(self).cnodes().insert(n.0, ComputeNode { op: ComputeNodeOp::Core(op), owner })
                &&& final(self).cedges() == old(self).cedges()
            }),
            final(self).same_semantics(old(self)),
            final(self).fns() == old(self).fns(),
            final(self).next_fn() == old(self).next_fn(),
            final(self).tree() == old(self).tree(),
            final(self).registry() == old(self).registry(),
            final(self).pending() == old(self).pending(),
            final(self).queue_counters() == old(self).queue_counters(),
    {
        self.add_compute_node(ComputeNodeOp::Core(op), owner)
    }

    /// Adds a structured (tier 2) operation node (see
    /// [`Self::add_compute_node`]).
    pub fn add_structured_op(&mut self, op: StructuredOp, owner: FunctionId) -> (r: Result<NodeId, CoreError>)
        requires
            old(self).wf(),
            old(self).cnodes().dom().len() < u32::MAX,
        ensures
            final(self).wf(),
            owner.0 >= old(self).next_fn() ==> {
                &&& (r matches Err(CoreError::FunctionNotFound { id }) && id == owner)
                &&& *final(self) == *old(self)
            },
            owner.0 < old(self).next_fn() ==> (r matches Ok(n) && {
                &&& !old(self).cnodes().contains_key(n.0)
                &&& final(self).cnodes() == old(self).cnodes().insert(
                    n.0,
                    ComputeNode { op: ComputeNodeOp::Structured(op), owner },
                )
                &&& final(self).cedges() == old(self).cedges()
            }),
            final(self).same_semantics(old(self)),
            final(self).fns() == old(self).fns(),
            final(self).next_fn() == old(self).next_fn(),
            final(self).tree() == old(self).tree(),
            final(self).registry() == old(self).registry(),
            final(self).pending() == old(self).pending(),
            final(self).queue_counters() == old(self).queue_counters(),
    {
        self.add_compute_node(ComputeNodeOp::Structured(op), owner)
    }

    /// Removes a compute node together with every edge incident to it, and
    /// gives the node back. Fails with `NodeNotFound`, changing nothing, when
    /// there is no such node.
    pub fn remove_compute_node(&mut self, id: NodeId) -> (r: Result<ComputeNode, CoreError>)
        requires
            old(self).wf(),
        ensures
            final(self).wf(),
            old(self).cnodes().contains_key(id.0) ==> {
                &&& r == Ok::<ComputeNode, CoreError>(old(self).cnodes()[id.0])
                &&& final(self).cnodes() == old(self).cnodes().remove(id.0)
                &&& final(self).cedges() == edges_without(old(self).cedges(), id.0)
            },
            !old(self).cnodes().contains_key(id.0) ==> {
                &&& (r matches Err(CoreError::NodeNotFound { id: x }) && x == id)
                &&& *final(self) == *old(self)
            },
            final(self).same_semantics(old(self)),
            final(self).fns() == old(self).fns(),
            final(self).next_fn() == old(self).next_fn(),
            final(self).tree() == old(self).tree(),
            final(self).registry() == old(self).registry(),
            final(self).pending() == old(self).pending(),
            final(self).queue_counters() == old(self).queue_counters(),
    {
        if compute_node(&self.compute, id.0).is_none() {
            return Err(CoreError::NodeNotFound { id });
        }
        let removed = compute_remove_node(&mut self.compute, id.0);
        proof {
            vstd::set_lib::lemma_len_subset(self.cedges().dom(), old(self).cedges().dom());
            assert forall|x: u32| #[trigger] self.cedges().contains_key(x) implies self.cnodes().dom().contains(
                self.cedges()[x].0,
            ) && self.cnodes().dom().contains(self.cedges()[x].1) by {
                assert(old(self).cedges().contains_key(x));
            }
            assert forall|x: u32| #[trigger] self.cnodes().contains_key(x) implies self.cnodes()[x].owner.0 < self.next_fn() by {
                assert(old(self).cnodes().contains_key(x));
            }
        }
        match removed {
            Some(node) => Ok(node),
            None => Err(CoreError::NodeNotFound { id }),
        }
    }

    /// The compute node `id`, if any.
    pub fn get_compute_node(&self, id: NodeId) -> (r: Option<&ComputeNode>)
        ensures
            self.cnodes().contains_key(id.0) ==> r == Some(&self.cnodes()[id.0]),
            !self.cnodes().contains_key(id.0) ==> r is None,
    {
        compute_node(&self.compute, id.0)
    }

    /// Replaces the operation of compute node `id`, keeping its owner, and
    /// gives the previous operation back. Fails with `NodeNotFound`,
    /// changing nothing, when there is no such node.
    pub fn modify_compute_node_op(&mut self, id: NodeId, new_op: ComputeNodeOp) -> (r: Result<ComputeNodeOp, CoreError>)
        requires
            old(self).wf(),
        ensures
            final(self).wf(),
            old(self).cnodes().contains_key(id.0) ==> {
                &&& r == Ok::<ComputeNodeOp, CoreError>(old(self).cnodes()[id.0].op)
                &&& final(self).cnodes() == old(self).cnodes().insert(
                    id.0,
                    ComputeNode { op: new_op, owner: old(self).cnodes()[id.0].owner },
                )
            },
            !old(self).cnodes().contains_key(id.0) ==> {
                &&& (r matches Err(CoreError::NodeNotFound { id: x }) && x == id)
                &&& *final(self) == *old(self)
            },
            final(self).cedges() == old(self).cedges(),
            final(self).same_semantics(old(self)),
            final(self).fns() == old(self).fns(),
            final(self).next_fn() == old(self).next_fn(),
            final(self).tree() == old(self).tree(),
            final(self).registry() == old(self).registry(),
            final(self).pending() == old(self).pending(),
            final(self).queue_counters() == old(self).queue_counters(),
    {
        if compute_node(&self.compute, id.0).is_none() {
            return Err(CoreError::NodeNotFound { id });
        }
        match compute_node_mut(&mut self.compute, id.0) {
            Some(node) => {
                let previous = node.op;
                node.op = new_op;
                proof {
                    assert forall|x: u32| #[trigger] self.cedges().contains_key(x) implies self.cnodes().dom().contains(
                        self.cedges()[x].0,
                    ) && self.cnodes().dom().contains(self.cedges()[x].1) by {
                        assert(old(self).cedges().contains_key(x));
                    }
                    assert forall|x: u32| #[trigger] self.cnodes().contains_key(x) implies self.cnodes()[x].owner.0
                        < self.next_fn() by {
                        assert(old(self).cnodes().contains_key(x));
                    }
                }
                Ok(previous)
            },
            None => Err(CoreError::NodeNotFound { id }),
        }
    }

    /// Adds a data flow edge between two compute nodes, carrying a value of
    /// `value_type` from `source_port` to `target_port`. Fails with
    /// `NodeNotFound` naming the first missing endpoint, changing nothing.
    pub fn add_data_edge(&mut self, from: NodeId, to: NodeId, source_port: u16, target_port: u16, value_type: TypeId) -> (r:
        Result<EdgeId, CoreError>)
        requires
            old(self).wf(),
            old(self).cedges().dom().len() < u32::MAX,
        ensures
            final(self).wf(),
            !old(self).cnodes().contains_key(from.0) ==> {
                &&& (r matches Err(CoreError::NodeNotFound { id }) && id == from)
                &&& *final(self) == *old(self)
            },
            old(self).cnodes().contains_key(from.0) && !old(self).cnodes().contains_key(to.0) ==> {
                &&& (r matches Err(CoreError::NodeNotFound { id }) && id == to)
                &&& *final(self) == *old(self)
            },
            old(self).cnodes().contains_key(from.0) && old(self).cnodes().contains_key(to.0) ==> (r matches Ok(e) && {
                &&& !old(self).cedges().contains_key(e.0)
                &&& final(self).cedges() == old(self).cedges().insert(
                    e.0,
                    (from.0, to.0, FlowEdge::Data { source_port, target_port, value_type }),
                )
            }),
            final(self).cnodes() == old(self).cnodes(),
            final(self).same_semantics(old(self)),
            final(self).fns() == old(self).fns(),
            final(self).next_fn() == old(self).next_fn(),
            final(self).tree() == old(self).tree(),
            final(self).registry() == old(self).registry(),
            final(self).pending() == old(self).pending(),
            final(self).queue_counters() == old(self).queue_counters(),
    {
        self.add_flow_edge(from, to, FlowEdge::Data { source_port, target_port, value_type })
    }

    /// Adds a control flow edge between two compute nodes, with an optional
    /// branch index. Fails with `NodeNotFound` naming the first missing
    /// endpoint, changing nothing.
    pub fn add_control_edge(&mut self, from: NodeId, to: NodeId, branch_index: Option<u16>) -> (r: Result<EdgeId, CoreError>)
        requires
            old(self).wf(),
            old(self).cedges().dom().len() < u32::MAX,
        ensures
            final(self).wf(),
            !old(self).cnodes().contains_key(from.0) ==> {
                &&& (r matches Err(CoreError::NodeNotFound { id }) && id == from)
                &&& *final(self) == *old(self)
            },
            old(self).cnodes().contains_key(from.0) && !old(self).cnodes().contains_key(to.0) ==> {
                &&& (r matches Err(CoreError::NodeNotFound { id }) && id == to)
                &&& *final(self) == *old(self)
            },
            old(self).cnodes().contains_key(from.0) && old(self).cnodes().contains_key(to.0) ==> (r matches Ok(e) && {
                &&& !old(self).cedges().contains_key(e.0)
                &&& final(self).cedges() == old(self).cedges().insert(e.0, (from.0, to.0, FlowEdge::Control { branch_index }))
            }),
            final(self).cnodes() == old(self).cnodes(),
            final(self).same_semantics(old(self)),
            final(self).fns() == old(self).fns(),
            final(self).next_fn() == old(self).next_fn(),
            final(self).tree() == old(self).tree(),
            final(self).registry() == old(self).registry(),
            final(self).pending() == old(self).pending(),
            final(self).queue_counters() == old(self).queue_counters(),
    {
        self.add_flow_edge(from, to, FlowEdge::Control { branch_index })
    }

    fn add_flow_edge(&mut self, from: NodeId, to: NodeId, edge: FlowEdge) -> (r: Result<EdgeId, CoreError>)
        requires
            old(self).wf(),
            old(self).cedges().dom().len() < u32::MAX,
        ensures
            final(self).wf(),
            !old(self).cnodes().contains_key(from.0) ==> {
                &&& (r matches Err(CoreError::NodeNotFound { id }) && id == from)
                &&& *final(self) == *old(self)
            },
            old(self).cnodes().contains_key(from.0) && !old(self).cnodes().contains_key(to.0) ==> {
                &&& (r matches Err(CoreError::NodeNotFound { id }) && id == to)
                &&& *final(self) == *old(self)
            },
            old(self).cnodes().contains_key(from.0) && old(self).cnodes().contains_key(to.0) ==> (r matches Ok(e) && {
                &&& !old(self).cedges().contains_key(e.0)
                &&& final(self).cedges() == old(self).cedges().insert(e.0, (from.0, to.0, edge))
            }),
            final(self).cnodes() == old(self).cnodes(),
            final(self).same_semantics(old(self)),
            final(self).fns() == old(self).fns(),
            final(self).next_fn() == old(self).next_fn(),
            final(self).tree() == old(self).tree(),
            final(self).registry() == old(self).registry(),
            final(self).pending() == old(self).pending(),
            final(self).queue_counters() == old(self).queue_counters(),
    {
        if compute_node(&self.compute, from.0).is_none() {
            return Err(CoreError::NodeNotFound { id: from });
        }
        if compute_node(&self.compute, to.0).is_none() {
            return Err(CoreError::NodeNotFound { id: to });
        }
        let e = compute_add_edge(&mut self.compute, from.0, to.0, edge);
        proof {
            assert forall|x: u32| #[trigger] self.cedges().contains_key(x) implies self.cnodes().dom().contains(
                self.cedges()[x].0,
            ) && self.cnodes().dom().contains(self.cedges()[x].1) by {
                if x != e {
                    assert(old(self).cedges().contains_key(x));
                }
            }
        }
        Ok(EdgeId(e))
    }

    /// Removes a compute edge and gives its weight back. Fails with
    /// `InvalidEdge` (`edge not found: EdgeId(<id>)`), changing nothing, when
    /// there is no such edge.
    pub fn remove_edge(&mut self, id: EdgeId) -> (r: Result<FlowEdge, CoreError>)
        requires
            old(self).wf(),
        ensures
            final(self).wf(),
            old(self).cedges().contains_key(id.0) ==> {
                &&& r == Ok::<FlowEdge, CoreError>(old(self).cedges()[id.0].2)
                &&& final(self).cedges() == old(self).cedges().remove(id.0)
            },
            !old(self).cedges().contains_key(id.0) ==> {
                &&& (r matches Err(CoreError::InvalidEdge { reason }) && reason@ == "edge not found: EdgeId("@
                    + decimal_seq(id.0 as nat) + ")"@)
                &&& *final(self) == *old(self)
            },
            final(self).cnodes() == old(self).cnodes(),
            final(self).same_semantics(old(self)),
            final(self).fns() == old(self).fns(),
            final(self).next_fn() == old(self).next_fn(),
            final(self).tree() == old(self).tree(),
            final(self).registry() == old(self).registry(),
            final(self).pending() == old(self).pending(),
            final(self).queue_counters() == old(self).queue_counters(),
    {
        if compute_edge_endpoints(&self.compute, id.0).is_none() {
            let n = u64_to_decimal(id.0 as u64);
            return Err(CoreError::InvalidEdge { reason: cat3("edge not found: EdgeId(", n.as_str(), ")") });
        }
        let removed = compute_remove_edge(&mut self.compute, id.0);
        proof {
            assert forall|x: u32| #[trigger] self.cedges().contains_key(x) implies self.cnodes().dom().contains(
                self.cedges()[x].0,
            ) && self.cnodes().dom().contains(self.cedges()[x].1) by {
                assert(old(self).cedges().contains_key(x));
            }
        }
        match removed {
            Some(edge) => Ok(edge),
            None => {
                let n = u64_to_decimal(id.0 as u64);
                Err(CoreError::InvalidEdge { reason: cat3("edge not found: EdgeId(", n.as_str(), ")") })
            },
        }
    }

    /// The compute nodes owned by function `id`, by increasing index.
    pub fn function_nodes(&self, id: FunctionId) -> (r: Vec<NodeId>)
        ensures
            forall|i: int, j: int| 0 <= i < j < r@.len() ==> r@[i].0 < r@[j].0,
            forall|k: u32| #[trigger] r@.contains(NodeId(k)) <==> (self.cnodes().contains_key(k) && self.cnodes()[k].owner
                == id),
    {
        let idx = compute_node_indices(&self.compute);
        let mut out: Vec<NodeId> = Vec::new();
        let mut i: usize = 0;
        while i < idx.len()
            invariant
                i <= idx@.len(),
                forall|a: int, b: int| 0 <= a < b < idx@.len() ==> idx@[a] < idx@[b],
                forall|k: u32| idx@.contains(k) <==> compute_nodes(self.compute).contains_key(k),
                forall|a: int, b: int| 0 <= a < b < out@.len() ==> out@[a].0 < out@[b].0,
                i < idx@.len() ==> forall|a: int| 0 <= a < out@.len() ==> out@[a].0 < idx@[i as int],
                forall|k: u32| #[trigger] out@.contains(NodeId(k)) <==> (idx@.subrange(0, i as int).contains(k)
                    && compute_nodes(self.compute).contains_key(k) && compute_nodes(self.compute)[k].owner == id),
            decreases idx@.len() - i,
        {
            let k = idx[i];
            assert(idx@.contains(k));
            let node = compute_node(&self.compute, k);
            let keep = match node {
                Some(n) => n.owner == id,
                None => false,
            };
            let ghost before = out@;
            if keep {
                out.push(NodeId(k));
            }
            proof {
                let pre = idx@.subrange(0, i as int);
                let pre1 = idx@.subrange(0, i as int + 1);
                assert(pre1 =~= pre.push(k));
                assert(pre1[i as int] == k);
                assert(pre1.contains(k));
                if keep {
                    assert(compute_nodes(self.compute).contains_key(k) && compute_nodes(self.compute)[k].owner == id);
                } else {
                    assert(out@ == before);
                }
                assert forall|q: u32| #[trigger] out@.contains(NodeId(q)) <==> (pre1.contains(q)
                    && compute_nodes(self.compute).contains_key(q) && compute_nodes(self.compute)[q].owner == id) by {
                    if keep {
                        assert(out@ == before.push(NodeId(k)));
                        if out@.contains(NodeId(q)) && q != k {
                            let w = choose|w: int| 0 <= w < out@.len() && #[trigger] out@[w] == NodeId(q);
                            assert(before[w] == NodeId(q));
                            assert(before.contains(NodeId(q)));
                        }
                        if before.contains(NodeId(q)) {
                            let w = choose|w: int| 0 <= w < before.len() && #[trigger] before[w] == NodeId(q);
                            assert(out@[w] == NodeId(q));
                        }
                        assert(out@[before.len() as int] == NodeId(k));
                    }
                    if before.contains(NodeId(q)) {
                        assert(pre.contains(q));
                    }
                    if pre.contains(q) {
                        let w = choose|w: int| 0 <= w < pre.len() && #[trigger] pre[w] == q;
                        assert(pre1[w] == q);
                    }
                    if pre1.contains(q) && q != k {
                        let w = choose|w: int| 0 <= w < pre1.len() && #[trigger] pre1[w] == q;
                        assert(w != i);
                        assert(pre[w] == q);
                        assert(pre.contains(q));
                        if compute_nodes(self.compute).contains_key(q) && compute_nodes(self.compute)[q].owner == id {
                            assert(before.contains(NodeId(q)));
                            let v = choose|v: int| 0 <= v < before.len() && #[trigger] before[v] == NodeId(q);
                            assert(out@[v] == NodeId(q));
                        }
                    }
                }
            }
            i = i + 1;
        }
        proof {
            assert(idx@.subrange(0, idx@.len() as int) =~= idx@);
        }
        out
    }

    /// The number of compute nodes.
    pub fn node_count(&self) -> (n: usize)
        requires
            self.wf(),
        ensures
            n == self.cnodes().dom().len(),
    {
        compute_node_count(&self.compute)
    }

    /// The number of compute edges.
    pub fn edge_count(&self) -> (n: usize)
        requires
            self.wf(),
        ensures
            n == self.cedges().dom().len(),
    {
        compute_edge_count(&self.compute)
    }

    /// The number of functions.
    pub fn function_count(&self) -> (n: usize)
        ensures
            n == self.fns().len(),
    {
        self.functions.len()
    }

    /// The number of semantic nodes.
    pub fn semantic_node_count(&self) -> (n: usize)
        requires
            self.wf(),
        ensures
            n == self.snodes().dom().len(),
    {
        semantic_node_count(&self.semantic)
    }

    /// The number of semantic edges.
    pub fn semantic_edge_count(&self) -> (n: usize)
        requires
            self.wf(),
        ensures
            n == self.sedges().dom().len(),
    {
        semantic_edge_count(&self.semantic)
    }

    /// Adds a semantic node under a fresh index with a fresh `Contains`
    /// edge from the semantic node of `module`.
    fn add_artifact_node(&mut self, module: ModuleId, node: SemanticNode) -> (k: u32)
        requires
            old(self).wf(),
            old(self).tree().modules_view().contains_key(module.0),
            old(self).snodes().dom().len() < u32::MAX,
            old(self).sedges().dom().len() < u32::MAX,
            !(node is Function),
            !(node is Module),
        ensures
            final(self).wf(),
            artifact_added(*old(self), *final(self), module, k, node),
    {
        let idx = semantic_add_node(&mut self.semantic, node);
        let module_idx = match self.module_semantic_nodes.get(&module.0) {
            Some(m) => *m,
            None => 0,
        };
        let e = semantic_add_edge(&mut self.semantic, module_idx, idx, SemanticEdge::Contains);
        proof {
            assert(self.sedges() == old(self).sedges().insert(e, (old(self).msem()[module.0], idx, SemanticEdge::Contains)));
            assert forall|x: u32| #[trigger] old(self).snodes().contains_key(x) implies node_ids_kept(
                old(self).snodes()[x],
                self.snodes()[x],
            ) && self.snodes().contains_key(x) by {
                assert(x != idx);
            }
            assert forall|x: u32| #[trigger] self.sedges().contains_key(x) implies self.snodes().dom().contains(
                self.sedges()[x].0,
            ) && self.snodes().dom().contains(self.sedges()[x].1) by {
                if x != e {
                    assert(old(self).sedges().contains_key(x));
                }
            }
            lemma_semantic_update_wf(*old(self), *self);
        }
        idx
    }

    /// Adds a specification node under a module: the spec with its id and
    /// title, summarised as `spec <title>`, linked by `Contains` from the
    /// module. Fails with `ModuleNotFound`, changing nothing, when the module
    /// is unknown.
    pub fn add_spec_node(&mut self, module: ModuleId, spec_id: String, title: String) -> (r: Result<u32, CoreError>)
        requires
            old(self).wf(),
            old(self).snodes().dom().len() < u32::MAX,
            old(self).sedges().dom().len() < u32::MAX,
        ensures
            final(self).wf(),
            !old(self).tree().modules_view().contains_key(module.0) ==> {
                &&& (r matches Err(CoreError::ModuleNotFound { id }) && id == module)
                &&& *final(self) == *old(self)
            },
            old(self).tree().modules_view().contains_key(module.0) ==> (r matches Ok(k) && {
                let n = final(self).snodes()[k];
                &&& artifact_added(*old(self), *final(self), module, k, n)
                &&& n matches SemanticNode::Spec(x) && x.spec_id@ == spec_id@ && x.title@ == title@ && fresh_metadata(
                    Some(module),
                    None,
                    x.metadata,
                    "spec"@,
                    spec_id@,
                    "spec "@ + title@,
                )
            }),
    {
        if self.modules.get_module(module).is_none() {
            return Err(CoreError::ModuleNotFound { id: module });
        }
        let body = cat("spec ", title.as_str());
        let metadata = SemanticMetadata::with_module("spec", module, spec_id.as_str(), body.as_str());
        let k = self.add_artifact_node(module, SemanticNode::Spec(SpecNode { spec_id, title, metadata }));
        Ok(k)
    }

    /// Adds a test node under a module, optionally targeting a function:
    /// summarised as `test <title>` and owned by the target function, linked
    /// by `Contains` from the module. Fails with `ModuleNotFound`, changing
    /// nothing, when the module is unknown.
    pub fn add_test_node(&mut self, module: ModuleId, test_id: String, title: String, target_function: Option<FunctionId>) -> (r:
        Result<u32, CoreError>)
        requires
            old(self).wf(),
            old(self).snodes().dom().len() < u32::MAX,
            old(self).sedges().dom().len() < u32::MAX,
        ensures
            final(self).wf(),
            !old(self).tree().modules_view().contains_key(module.0) ==> {
                &&& (r matches Err(CoreError::ModuleNotFound { id }) && id == module)
                &&& *final(self) == *old(self)
            },
            old(self).tree().modules_view().contains_key(module.0) ==> (r matches Ok(k) && {
                let n = final(self).snodes()[k];
                &&& artifact_added(*old(self), *final(self), module, k, n)
                &&& n matches SemanticNode::Test(x) && x.test_id@ == test_id@ && x.title@ == title@ && x.target_function
                    == target_function && fresh_metadata(
                    Some(module),
                    target_function,
                    x.metadata,
                    "test"@,
                    test_id@,
                    "test "@ + title@,
                )
            }),
    {
        if self.modules.get_module(module).is_none() {
            return Err(CoreError::ModuleNotFound { id: module });
        }
        let body = cat("test ", title.as_str());
        let mut metadata = SemanticMetadata::with_module("test", module, test_id.as_str(), body.as_str());
        metadata.ownership.function = target_function;
        let k = self.add_artifact_node(module, SemanticNode::Test(TestNode { test_id, title, target_function, metadata }));
        Ok(k)
    }

    /// Adds a documentation node under a module, summarised as
    /// `doc <title>`, linked by `Contains` from the module. Fails with
    /// `ModuleNotFound`, changing nothing, when the module is unknown.
    pub fn add_doc_node(&mut self, module: ModuleId, doc_id: String, title: String) -> (r: Result<u32, CoreError>)
        requires
            old(self).wf(),
            old(self).snodes().dom().len() < u32::MAX,
            old(self).sedges().dom().len() < u32::MAX,
        ensures
            final(self).wf(),
            !old(self).tree().modules_view().contains_key(module.0) ==> {
                &&& (r matches Err(CoreError::ModuleNotFound { id }) && id == module)
                &&& *final(self) == *old(self)
            },
            old(self).tree().modules_view().contains_key(module.0) ==> (r matches Ok(k) && {
                let n = final(self).snodes()[k];
                &&& artifact_added(*old(self), *final(self), module, k, n)
                &&& n matches SemanticNode::Doc(x) && x.doc_id@ == doc_id@ && x.title@ == title@ && fresh_metadata(
                    Some(module),
                    None,
                    x.metadata,
                    "doc"@,
                    doc_id@,
                    "doc "@ + title@,
                )
            }),
    {
        if self.modules.get_module(module).is_none() {
            return Err(CoreError::ModuleNotFound { id: module });
        }
        let body = cat("doc ", title.as_str());
        let metadata = SemanticMetadata::with_module("doc", module, doc_id.as_str(), body.as_str());
        let k = self.add_artifact_node(module, SemanticNode::Doc(DocNode { doc_id, title, metadata }));
        Ok(k)
    }

    /// Adds a semantic edge between two semantic nodes. Fails with
    /// `InvalidEdge` (`invalid semantic edge <from> -> <to>`), changing
    /// nothing, when either is missing.
    pub fn add_semantic_edge(&mut self, from_semantic_idx: u32, to_semantic_idx: u32, edge: SemanticEdge) -> (r: Result<
        u32,
        CoreError,
    >)
        requires
            old(self).wf(),
            old(self).sedges().dom().len() < u32::MAX,
        ensures
            final(self).wf(),
            !(old(self).snodes().contains_key(from_semantic_idx) && old(self).snodes().contains_key(to_semantic_idx)) ==> {
                &&& (r matches Err(CoreError::InvalidEdge { reason }) && reason@ == "invalid semantic edge "@ + decimal_seq(
                    from_semantic_idx as nat,
                ) + " -> "@ + decimal_seq(to_semantic_idx as nat))
                &&& *final(self) == *old(self)
            },
            old(self).snodes().contains_key(from_semantic_idx) && old(self).snodes().contains_key(to_semantic_idx) ==> (r matches Ok(
                e,
            ) && {
                &&& !old(self).sedges().contains_key(e)
                &&& final(self).sedges() == old(self).sedges().insert(e, (from_semantic_idx, to_semantic_idx, edge))
                &&& final(self).snodes() == old(self).snodes()
                &&& final(self).fsem() == old(self).fsem()
                &&& final(self).msem() == old(self).msem()
                &&& final(self).same_program(old(self))
            }),
    {
        if semantic_node(&self.semantic, from_semantic_idx).is_none() || semantic_node(&self.semantic, to_semantic_idx).is_none() {
            let mut reason = cat3("invalid semantic edge ", u64_to_decimal(from_semantic_idx as u64).as_str(), " -> ");
            reason.append(u64_to_decimal(to_semantic_idx as u64).as_str());
            return Err(CoreError::InvalidEdge { reason });
        }
        let e = semantic_add_edge(&mut self.semantic, from_semantic_idx, to_semantic_idx, edge);
        proof {
            assert forall|x: u32| #[trigger] old(self).snodes().contains_key(x) implies node_ids_kept(
                old(self).snodes()[x],
                self.snodes()[x],
            ) && self.snodes().contains_key(x) by {}
            assert forall|x: u32| #[trigger] self.sedges().contains_key(x) implies self.snodes().dom().contains(
                self.sedges()[x].0,
            ) && self.snodes().dom().contains(self.sedges()[x].1) by {
                if x != e {
                    assert(old(self).sedges().contains_key(x));
                }
            }
            lemma_semantic_update_wf(*old(self), *self);
        }
        Ok(e)
    }

    /// Replaces the summary of a semantic node with the deterministic
    /// summary of `kind`, `identifier` and `summary_body`, keeping the rest
    /// of the node. Fails with `GraphInconsistency` (`semantic node <idx> not
    /// found`), changing nothing, when there is no such node.
    pub fn update_semantic_summary(&mut self, semantic_idx: u32, kind: &str, identifier: &str, summary_body: &str) -> (r:
        Result<(), CoreError>)
        requires
            old(self).wf(),
        ensures
            final(self).wf(),
            !old(self).snodes().contains_key(semantic_idx) ==> {
                &&& (r matches Err(CoreError::GraphInconsistency { reason }) && reason@ == "semantic node "@
                    + decimal_seq(semantic_idx as nat) + " not found"@)
                &&& *final(self) == *old(self)
            },
            old(self).snodes().contains_key(semantic_idx) ==> {
                let n = final(self).snodes()[semantic_idx];
                let before = old(self).snodes()[semantic_idx];
                &&& r is Ok
                &&& final(self).snodes() == old(self).snodes().insert(semantic_idx, n)
                &&& n == with_metadata(before, SemanticMetadata { summary: metadata_of(n).summary, ..metadata_of(before) })
                &&& summary_is(metadata_of(n).summary, kind@, identifier@, summary_body@)
                &&& final(self).sedges() == old(self).sedges()
                &&& final(self).fsem() == old(self).fsem()
                &&& final(self).msem() == old(self).msem()
                &&& final(self).same_program(old(self))
            },
    {
        let summary = SemanticSummaryPayload::deterministic(kind, identifier, summary_body);
        if semantic_node(&self.semantic, semantic_idx).is_none() {
            let reason = cat3("semantic node ", u64_to_decimal(semantic_idx as u64).as_str(), " not found");
            return Err(CoreError::GraphInconsistency { reason });
        }
        match semantic_node_mut(&mut self.semantic, semantic_idx) {
            Some(node) => {
                node.set_summary(summary);
            },
            None => {
                let reason = cat3("semantic node ", u64_to_decimal(semantic_idx as u64).as_str(), " not found");
                return Err(CoreError::GraphInconsistency { reason });
            },
        }
        proof {
            assert forall|x: u32| #[trigger] old(self).snodes().contains_key(x) implies node_ids_kept(
                old(self).snodes()[x],
                self.snodes()[x],
            ) && self.snodes().contains_key(x) by {}
            assert forall|x: u32| #[trigger] self.sedges().contains_key(x) implies self.snodes().dom().contains(
                self.sedges()[x].0,
            ) && self.snodes().dom().contains(self.sedges()[x].1) by {
                assert(old(self).sedges().contains_key(x));
            }
            lemma_semantic_update_wf(*old(self), *self);
        }
        Ok(())
    }

    /// Replaces the embeddings of a semantic node with the given explicit
    /// vectors (components as `f32` bits), keeping the rest of the node.
    /// Fails with `GraphInconsistency` (`semantic node <idx> not found`),
    /// changing nothing, when there is no such node.
    pub fn update_semantic_embeddings(
        &mut self,
        semantic_idx: u32,
        node_embedding: Option<Vec<u32>>,
        subgraph_summary_embedding: Option<Vec<u32>>,
    ) -> (r: Result<(), CoreError>)
        requires
            old(self).wf(),
        ensures
            final(self).wf(),
            !old(self).snodes().contains_key(semantic_idx) ==> {
                &&& (r matches Err(CoreError::GraphInconsistency { reason }) && reason@ == "semantic node "@
                    + decimal_seq(semantic_idx as nat) + " not found"@)
                &&& *final(self) == *old(self)
            },
            old(self).snodes().contains_key(semantic_idx) ==> {
                let before = old(self).snodes()[semantic_idx];
                let payload = EmbeddingPayload {
                    node_embedding: match node_embedding {
                        Some(v) => Some(EmbeddingVector::Components(v)),
                        None => None,
                    },
                    subgraph_summary_embedding: match subgraph_summary_embedding {
                        Some(v) => Some(EmbeddingVector::Components(v)),
                        None => None,
                    },
                };
                &&& r is Ok
                &&& final(self).snodes() == old(self).snodes().insert(
                    semantic_idx,
                    with_metadata(before, SemanticMetadata { embeddings: payload, ..metadata_of(before) }),
                )
                &&& final(self).sedges() == old(self).sedges()
                &&& final(self).fsem() == old(self).fsem()
                &&& final(self).msem() == old(self).msem()
                &&& final(self).same_program(old(self))
            },
    {
        let payload = EmbeddingPayload {
            node_embedding: match node_embedding {
                Some(v) => Some(EmbeddingVector::Components(v)),
                None => None,
            },
            subgraph_summary_embedding: match subgraph_summary_embedding {
                Some(v) => Some(EmbeddingVector::Components(v)),
                None => None,
            },
        };
        if semantic_node(&self.semantic, semantic_idx).is_none() {
            let reason = cat3("semantic node ", u64_to_decimal(semantic_idx as u64).as_str(), " not found");
            return Err(CoreError::GraphInconsistency { reason });
        }
        match semantic_node_mut(&mut self.semantic, semantic_idx) {
            Some(node) => {
                node.set_embeddings(payload);
            },
            None => {
                let reason = cat3("semantic node ", u64_to_decimal(semantic_idx as u64).as_str(), " not found");
                return Err(CoreError::GraphInconsistency { reason });
            },
        }
        proof {
            assert forall|x: u32| #[trigger] old(self).snodes().contains_key(x) implies node_ids_kept(
                old(self).snodes()[x],
                self.snodes()[x],
            ) && self.snodes().contains_key(x) by {}
            assert forall|x: u32| #[trigger] self.sedges().contains_key(x) implies self.snodes().dom().contains(
                self.sedges()[x].0,
            ) && self.snodes().dom().contains(self.sedges()[x].1) by {
                assert(old(self).sedges().contains_key(x));
            }
            lemma_semantic_update_wf(*old(self), *self);
        }
        Ok(())
    }

    /// Appends a propagation event with the next id and sequence number and
    /// an empty lineage, and returns its id; nothing else changes.
    pub fn enqueue_propagation(&mut self, origin: PropagationLayer, kind: PropagationEventKind) -> (id: u64)
        requires
            old(self).wf(),
            old(self).queue_counters().0 < u64::MAX,
            old(self).queue_counters().1 < u64::MAX,
        ensures
            final(self).wf(),
            id == old(self).queue_counters().0,
            final(self).queue_counters() == (
                (old(self).queue_counters().0 + 1) as u64,
                (old(self).queue_counters().1 + 1) as u64,
                old(self).queue_counters().2,
            ),
            final(self).pending().len() == old(self).pending().len() + 1,
            final(self).pending().drop_last() == old(self).pending(),
            ({
                let e = final(self).pending().last();
                &&& e.id == id
                &&& e.sequence == old(self).queue_counters().1
                &&& e.origin == origin
                &&& e.kind == kind
                &&& e.lineage@.len() == 0
            }),
            final(self).cnodes() == old(self).cnodes(),
            final(self).cedges() == old(self).cedges(),
            final(self).same_semantics(old(self)),
            final(self).fns() == old(self).fns(),
            final(self).next_fn() == old(self).next_fn(),
            final(self).tree() == old(self).tree(),
            final(self).registry() == old(self).registry(),
    {
        let id = self.propagation.enqueue_propagation(origin, kind);
        proof {
            assert(self.pending().drop_last() =~= self.pending().subrange(0, old(self).pending().len() as int));
        }
        id
    }

    /// Drops every pending propagation event; nothing else changes.
    pub fn clear_propagation_queue(&mut self)
        requires
            old(self).wf(),
        ensures
            final(self).wf(),
            final(self).pending().len() == 0,
            final(self).queue_counters() == old(self).queue_counters(),
            final(self).cnodes() == old(self).cnodes(),
            final(self).cedges() == old(self).cedges(),
            final(self).same_semantics(old(self)),
            final(self).fns() == old(self).fns(),
            final(self).next_fn() == old(self).next_fn(),
            final(self).tree() == old(self).tree(),
            final(self).registry() == old(self).registry(),
    {
        self.propagation.clear_propagation_queue();
    }

    /// Refreshes the semantic node of a module: its summary counts the
    /// module's functions (see `SemanticNode::refresh_module`; an unknown
    /// module name reads `unknown`), and its index is recorded in
    /// `refreshed`. Fails with `ModuleNotFound`, changing nothing, when the
    /// module has no semantic node.
    fn refresh_module_semantics(&mut self, module_id: ModuleId, refreshed: &mut Vec<u32>) -> (r: Result<(), CoreError>)
        requires
            old(self).wf(),
        ensures
            final(self).wf(),
            !old(self).msem().contains_key(module_id.0) ==> {
                &&& (r matches Err(CoreError::ModuleNotFound { id }) && id == module_id)
                &&& *final(self) == *old(self)
                &&& final(refreshed)@ == old(refreshed)@
            },
            old(self).msem().contains_key(module_id.0) ==> {
                let k = old(self).msem()[module_id.0];
                let name = if old(self).tree().modules_view().contains_key(module_id.0) {
                    old(self).tree().modules_view()[module_id.0].name@
                } else {
                    "unknown"@
                };
                &&& r is Ok
                &&& old(self).snodes().contains_key(k) ==> {
                    &&& final(self).snodes() == old(self).snodes().insert(k, final(self).snodes()[k])
                    &&& module_refreshed(old(self).snodes()[k], final(self).snodes()[k], name, module_fn_count(
                        old(self).fns(),
                        module_id,
                    ))
                }
                &&& !old(self).snodes().contains_key(k) ==> final(self).snodes() == old(self).snodes()
                &&& final(self).sedges() == old(self).sedges()
                &&& final(self).fsem() == old(self).fsem()
                &&& final(self).msem() == old(self).msem()
                &&& final(self).same_program(old(self))
                &&& final(refreshed)@ == old(refreshed)@.push(k)
            },
    {
        let k = match self.module_semantic_nodes.get(&module_id.0) {
            Some(k) => *k,
            None => {
                return Err(CoreError::ModuleNotFound { id: module_id });
            },
        };
        let name = match self.modules.get_module(module_id) {
            Some(d) => d.name.clone(),
            None => String::from_str("unknown"),
        };
        let mut count: usize = 0;
        let mut i: usize = 0;
        while i < self.functions.len()
            invariant
                i <= self.functions@.len(),
                count <= i,
                count == module_fn_count(self.functions@.subrange(0, i as int), module_id),
            decreases self.functions@.len() - i,
        {
            proof {
                assert(self.functions@.subrange(0, i as int + 1).drop_last() =~= self.functions@.subrange(0, i as int));
            }
            if self.functions[i].module == module_id {
                count = count + 1;
            }
            i = i + 1;
        }
        proof {
            assert(self.functions@.subrange(0, i as int) =~= self.functions@);
        }
        match semantic_node_mut(&mut self.semantic, k) {
            Some(node) => {
                node.refresh_module(name.as_str(), count);
            },
            None => {},
        }
        refreshed.push(k);
        proof {
            assert forall|x: u32| #[trigger] old(self).snodes().contains_key(x) implies node_ids_kept(
                old(self).snodes()[x],
                self.snodes()[x],
            ) && self.snodes().contains_key(x) by {}
            assert forall|x: u32| #[trigger] self.sedges().contains_key(x) implies self.snodes().dom().contains(
                self.sedges()[x].0,
            ) && self.snodes().dom().contains(self.sedges()[x].1) by {
                assert(old(self).sedges().contains_key(x));
            }
            lemma_semantic_update_wf(*old(self), *self);
        }
        Ok(())
    }

    /// The functions called from the body of `f`, in increasing order.
    fn call_targets_of(&self, f: FunctionId) -> (r: Vec<u32>)
        requires
            self.wf(),
        ensures
            strictly_increasing(r@),
            forall|t: u32| r@.contains(t) <==> call_targets(self.cnodes(), f).contains(t),
            r@.len() <= self.cnodes().dom().len(),
    {
        let ids = self.function_nodes(f);
        let mut called: Vec<u32> = Vec::new();
        let mut i: usize = 0;
        while i < ids.len()
            invariant
                i <= ids@.len(),
                strictly_increasing(called@),
                called@.len() <= i,
                forall|a: int, b: int| 0 <= a < b < ids@.len() ==> ids@[a].0 < ids@[b].0,
                forall|k: u32| #[trigger] ids@.contains(NodeId(k)) <==> (compute_nodes(self.compute).contains_key(k)
                    && compute_nodes(self.compute)[k].owner == f),
                forall|t: u32| called@.contains(t) <==> exists|a: int| 0 <= a < i && compute_nodes(self.compute)[
                    (#[trigger] ids@[a]).0].op == ComputeNodeOp::Core(ComputeOp::Call { target: FunctionId(t) }),
            decreases ids@.len() - i,
        {
            let id = ids[i];
            assert(ids@.contains(id));
            let ghost before = called@;
            match compute_node(&self.compute, id.0) {
                Some(n) => match n.op {
                    ComputeNodeOp::Core(ComputeOp::Call { target }) => {
                        insert_sorted(&mut called, target.0);
                    },
                    _ => {},
                },
                None => {},
            }
            proof {
                if !before.contains(called@.last()) && called@.len() > before.len() {
                }
                assert(called@.len() <= before.len() + 1) by {
                    if called@.len() > before.len() {
                    }
                }
                assert forall|t: u32| called@.contains(t) <==> exists|a: int| 0 <= a < i + 1 && compute_nodes(
                    self.compute,
                )[(#[trigger] ids@[a]).0].op == ComputeNodeOp::Core(ComputeOp::Call { target: FunctionId(t) }) by {
                    assert(called@.to_set().contains(t) == called@.contains(t));
                    assert(before.to_set().contains(t) == before.contains(t));
                    if exists|a: int| 0 <= a < i + 1 && compute_nodes(self.compute)[(#[trigger] ids@[a]).0].op
                        == ComputeNodeOp::Core(ComputeOp::Call { target: FunctionId(t) }) {
                        let a = choose|a: int| 0 <= a < i + 1 && compute_nodes(self.compute)[(#[trigger] ids@[a]).0].op
                            == ComputeNodeOp::Core(ComputeOp::Call { target: FunctionId(t) });
                        if a < i {
                            assert(before.contains(t));
                        }
                    }
                }
            }
            i = i + 1;
        }
        proof {
            assert forall|t: u32| called@.contains(t) <==> call_targets(self.cnodes(), f).contains(t) by {
                if called@.contains(t) {
                    let a = choose|a: int| 0 <= a < ids@.len() && compute_nodes(self.compute)[(#[trigger] ids@[a]).0].op
                        == ComputeNodeOp::Core(ComputeOp::Call { target: FunctionId(t) });
                    assert(ids@.contains(ids@[a]));
                    assert(ids@.contains(NodeId(ids@[a].0)));
                    assert(self.cnodes().contains_key(ids@[a].0) && self.cnodes()[ids@[a].0].owner == f);
                }
                if call_targets(self.cnodes(), f).contains(t) {
                    let n = choose|n: u32| #[trigger] self.cnodes().contains_key(n) && self.cnodes()[n].owner == f
                        && self.cnodes()[n].op == ComputeNodeOp::Core(ComputeOp::Call { target: FunctionId(t) });
                    assert(ids@.contains(NodeId(n)));
                    let a = choose|a: int| 0 <= a < ids@.len() && ids@[a] == NodeId(n);
                    assert(ids@[a].0 == n);
                }
            }
            assert forall|a: int| 0 <= a < ids@.len() implies self.cnodes().dom().contains(#[trigger] ids@[a].0) by {
                assert(ids@.contains(ids@[a]));
                assert(ids@[a] == NodeId(ids@[a].0));
                assert(ids@.contains(NodeId(ids@[a].0)));
            }
            lemma_increasing_len_bound(ids@, self.cnodes().dom());
        }
        called
    }

    /// Removes every `Calls` edge leaving semantic node `s`.
    fn drop_call_edges(&mut self, s: u32)
        requires
            old(self).wf(),
        ensures
            final(self).wf(),
            final(self).sedges() == drop_calls_from(old(self).sedges(), s),
            final(self).snodes() == old(self).snodes(),
            final(self).fsem() == old(self).fsem(),
            final(self).msem() == old(self).msem(),
            final(self).same_program(old(self)),
    {
        let out = semantic_out_edges(&self.semantic, s);
        let ghost start = self.sedges();
        let mut j: usize = 0;
        while j < out.len()
            invariant
                j <= out@.len(),
                lists_out_edges(out@, start, s),
                start == old(self).sedges(),
                self.snodes() == old(self).snodes(),
                self.fsem() == old(self).fsem(),
                self.msem() == old(self).msem(),
                self.same_program(old(self)),
                forall|e: u32| #[trigger] self.sedges().contains_key(e) ==> start.contains_key(e) && self.sedges()[e]
                    == start[e],
                forall|e: u32| #[trigger] start.contains_key(e) && !is_call_from(start[e], s) ==> self.sedges().contains_key(e),
                forall|e: u32| #[trigger] start.contains_key(e) && is_call_from(start[e], s) && !self.sedges().contains_key(e)
                    ==> exists|a: int| 0 <= a < j && (#[trigger] out@[a]).0 == e,
                forall|a: int| 0 <= a < j && (#[trigger] out@[a]).2 == SemanticEdge::Calls ==> !self.sedges().contains_key(
                    out@[a].0,
                ),
            decreases out@.len() - j,
        {
            let (e, _t, w) = out[j];
            if w == SemanticEdge::Calls {
                semantic_remove_edge(&mut self.semantic, e);
            }
            proof {
                assert forall|a: int| 0 <= a < j + 1 && (#[trigger] out@[a]).2 == SemanticEdge::Calls implies !self.sedges().contains_key(
                    out@[a].0,
                ) by {
                    if a < j && out@[a].0 != e {
                    }
                }
                assert forall|x: u32| #[trigger] start.contains_key(x) && is_call_from(start[x], s) && !self.sedges().contains_key(x)
                    implies exists|a: int| 0 <= a < j + 1 && (#[trigger] out@[a]).0 == x by {
                    if x == e {
                        assert(out@[j as int].0 == x);
                    }
                }
            }
            j = j + 1;
        }
        proof {
            let target = drop_calls_from(start, s);
            assert forall|e: u32| #[trigger] start.contains_key(e) && is_call_from(start[e], s) implies !self.sedges().contains_key(e) by {
                let a = choose|a: int| 0 <= a < out@.len() && (#[trigger] out@[a]).0 == e;
                assert(start[out@[a].0] == (s, out@[a].1, out@[a].2));
            }
            assert(self.sedges() =~= target);
            vstd::set_lib::lemma_len_subset(self.sedges().dom(), start.dom());
            assert forall|x: u32| #[trigger] old(self).snodes().contains_key(x) implies node_ids_kept(
                old(self).snodes()[x],
                self.snodes()[x],
            ) && self.snodes().contains_key(x) by {}
            assert forall|x: u32| #[trigger] self.sedges().contains_key(x) implies self.snodes().dom().contains(
                self.sedges()[x].0,
            ) && self.snodes().dom().contains(self.sedges()[x].1) by {
                assert(old(self).sedges().contains_key(x));
            }
            lemma_semantic_update_wf(*old(self), *self);
        }
    }

    /// Adds one `Calls` edge from semantic node `s` to the semantic node of
    /// each known function in `callees` (in order).
    fn add_call_edges(&mut self, s: u32, callees: &Vec<u32>)
        requires
            old(self).wf(),
            old(self).snodes().contains_key(s),
            strictly_increasing(callees@),
            forall|e: u32| #[trigger] old(self).sedges().contains_key(e) ==> !is_call_from(old(self).sedges()[e], s),
            old(self).sedges().dom().len() + callees@.len() < u32::MAX,
        ensures
            final(self).wf(),
            drop_calls_from(final(self).sedges(), s) == old(self).sedges(),
            calls_exactly(final(self).sedges(), s, call_edge_targets(callees@.to_set(), old(self).fsem())),
            final(self).sedges().dom().len() <= old(self).sedges().dom().len() + callees@.len(),
            final(self).snodes() == old(self).snodes(),
            final(self).fsem() == old(self).fsem(),
            final(self).msem() == old(self).msem(),
            final(self).same_program(old(self)),
    {
        let ghost base = self.sedges();
        let ghost fsem = self.fsem();
        proof {
            lemma_fsem_injective(*old(self));
        }
        let mut j: usize = 0;
        while j < callees.len()
            invariant
                j <= callees@.len(),
                strictly_increasing(callees@),
                base == old(self).sedges(),
                fsem == old(self).fsem(),
                forall|a: int, b: int| 0 <= a < fsem.len() && 0 <= b < fsem.len() && fsem[a] == fsem[b] ==> a == b,
                forall|a: int| 0 <= a < fsem.len() ==> old(self).snodes().contains_key(#[trigger] fsem[a]),
                self.snodes() == old(self).snodes(),
                self.fsem() == old(self).fsem(),
                self.msem() == old(self).msem(),
                self.same_program(old(self)),
                self.sedges().dom().finite(),
                self.sedges().dom().len() <= base.dom().len() + j,
                base.dom().len() + callees@.len() < u32::MAX,
                old(self).snodes().contains_key(s),
                drop_calls_from(self.sedges(), s) == base,
                forall|e: u32| #[trigger] self.sedges().contains_key(e) && is_call_from(self.sedges()[e], s) ==> exists|a: int|
                    0 <= a < j && (callees@[a] as int) < fsem.len() && #[trigger] fsem[callees@[a] as int] == self.sedges()[e].1,
                forall|a: int| 0 <= a < j && (#[trigger] callees@[a] as int) < fsem.len() ==> exists|e: u32|
                    #[trigger] self.sedges().contains_key(e) && self.sedges()[e] == (s, fsem[callees@[a] as int], SemanticEdge::Calls),
                forall|e1: u32, e2: u32|
                    #[trigger] self.sedges().contains_key(e1) && #[trigger] self.sedges().contains_key(e2) && e1 != e2
                        && is_call_from(self.sedges()[e1], s) && is_call_from(self.sedges()[e2], s) ==> self.sedges()[e1].1
                        != self.sedges()[e2].1,
                forall|e: u32| #[trigger] self.sedges().contains_key(e) ==> self.snodes().dom().contains(self.sedges()[e].0)
                    && self.snodes().dom().contains(self.sedges()[e].1),
            decreases callees@.len() - j,
        {
            let c = callees[j];
            if (c as usize) < self.function_semantic_nodes.len() {
                let target = self.function_semantic_nodes[c as usize];
                let ghost cur = self.sedges();
                let e = semantic_add_edge(&mut self.semantic, s, target, SemanticEdge::Calls);
                proof {
                    assert(drop_calls_from(self.sedges(), s) =~= drop_calls_from(cur, s));
                    assert forall|e1: u32, e2: u32|
                        #[trigger] self.sedges().contains_key(e1) && #[trigger] self.sedges().contains_key(e2) && e1 != e2
                            && is_call_from(self.sedges()[e1], s) && is_call_from(self.sedges()[e2], s) implies self.sedges()[e1].1
                            != self.sedges()[e2].1 by {
                        if e1 == e || e2 == e {
                            let other = if e1 == e { e2 } else { e1 };
                            assert(cur.contains_key(other) && is_call_from(cur[other], s));
                            let a = choose|a: int| 0 <= a < j && (callees@[a] as int) < fsem.len() && #[trigger] fsem[callees@[a] as int] == cur[other].1;
                            assert(callees@[a] < c);
                        }
                    }
                    assert forall|a: int| 0 <= a < j + 1 && (#[trigger] callees@[a] as int) < fsem.len() implies exists|x: u32|
                        #[trigger] self.sedges().contains_key(x) && self.sedges()[x] == (s, fsem[callees@[a] as int], SemanticEdge::Calls) by {
                        if a == j {
                            assert(self.sedges().contains_key(e));
                        } else {
                            let x = choose|x: u32| #[trigger] cur.contains_key(x) && cur[x] == (s, fsem[callees@[a] as int], SemanticEdge::Calls);
                            assert(self.sedges().contains_key(x));
                        }
                    }
                    assert forall|x: u32| #[trigger] self.sedges().contains_key(x) && is_call_from(self.sedges()[x], s) implies exists|a: int|
                        0 <= a < j + 1 && (callees@[a] as int) < fsem.len() && #[trigger] fsem[callees@[a] as int] == self.sedges()[x].1 by {
                        if x == e {
                            assert(fsem[callees@[j as int] as int] == self.sedges()[x].1);
                        } else {
                            assert(cur.contains_key(x));
                        }
                    }
                }
            } else {
                proof {
                    assert forall|a: int| 0 <= a < j + 1 && (#[trigger] callees@[a] as int) < fsem.len() implies exists|x: u32|
                        #[trigger] self.sedges().contains_key(x) && self.sedges()[x] == (s, fsem[callees@[a] as int], SemanticEdge::Calls) by {
                    }
                    assert forall|x: u32| #[trigger] self.sedges().contains_key(x) && is_call_from(self.sedges()[x], s) implies exists|a: int|
                        0 <= a < j + 1 && (callees@[a] as int) < fsem.len() && #[trigger] fsem[callees@[a] as int] == self.sedges()[x].1 by {
                        let a = choose|a: int| 0 <= a < j && (callees@[a] as int) < fsem.len() && #[trigger] fsem[callees@[a] as int] == self.sedges()[x].1;
                    }
                }
            }
            j = j + 1;
        }
        proof {
            let targets = call_edge_targets(callees@.to_set(), fsem);
            assert forall|e: u32| #[trigger] self.sedges().contains_key(e) && is_call_from(self.sedges()[e], s) implies targets.contains(
                self.sedges()[e].1,
            ) by {
                let a = choose|a: int| 0 <= a < callees@.len() && (callees@[a] as int) < fsem.len() && #[trigger] fsem[callees@[a] as int] == self.sedges()[e].1;
                assert(callees@.to_set().contains(callees@[a]));
            }
            assert forall|x: u32| targets.contains(x) implies exists|e: u32| #[trigger] self.sedges().contains_key(e)
                && self.sedges()[e] == (s, x, SemanticEdge::Calls) by {
                let c = choose|c: u32| callees@.to_set().contains(c) && (c as int) < fsem.len() && fsem[c as int] == x;
                assert(callees@.contains(c));
                let a = choose|a: int| 0 <= a < callees@.len() && callees@[a] == c;
                assert((callees@[a] as int) < fsem.len());
            }
            assert forall|x: u32| #[trigger] old(self).snodes().contains_key(x) implies node_ids_kept(
                old(self).snodes()[x],
                self.snodes()[x],
            ) && self.snodes().contains_key(x) by {}
            lemma_semantic_update_wf(*old(self), *self);
        }
    }

    /// Refreshes the semantic layer of function `f` from its definition and
    /// body: its outgoing `Calls` edges are rebuilt, one to each known
    /// function its `Call` nodes call; its node takes the definition's
    /// signature and visibility, a summary counting its compute nodes, and
    /// advanced provenance (see `SemanticNode::refresh_function`); its index
    /// is recorded in `refreshed_semantic`; then its module is refreshed
    /// (see `refresh_module_semantics`). Fails with `FunctionNotFound`,
    /// changing nothing, when `f` is unknown.
    fn refresh_function_semantics(&mut self, f: FunctionId, refreshed_semantic: &mut Vec<u32>, refreshed_summary: &mut Vec<
        u32,
    >) -> (r: Result<(), CoreError>)
        requires
            old(self).wf(),
            old(self).sedges().dom().len() + old(self).cnodes().dom().len() < u32::MAX,
        ensures
            final(self).wf(),
            f.0 >= old(self).next_fn() ==> {
                &&& (r matches Err(CoreError::FunctionNotFound { id }) && id == f)
                &&& *final(self) == *old(self)
                &&& final(refreshed_semantic)@ == old(refreshed_semantic)@
                &&& final(refreshed_summary)@ == old(refreshed_summary)@
            },
            f.0 < old(self).next_fn() ==> {
                let sidx = old(self).fsem()[f.0 as int];
                let def = old(self).fns()[f.0 as int];
                let midx = old(self).msem()[def.module.0];
                &&& r is Ok
                &&& sidx != midx
                &&& final(self).snodes() == old(self).snodes().insert(sidx, final(self).snodes()[sidx]).insert(
                    midx,
                    final(self).snodes()[midx],
                )
                &&& function_refreshed(
                    old(self).snodes()[sidx],
                    final(self).snodes()[sidx],
                    def.params@,
                    def.return_type,
                    def.visibility,
                    owned_count(old(self).cnodes(), f) as u32,
                )
                &&& module_refreshed(
                    old(self).snodes()[midx],
                    final(self).snodes()[midx],
                    old(self).tree().modules_view()[def.module.0].name@,
                    module_fn_count(old(self).fns(), def.module),
                )
                &&& drop_calls_from(final(self).sedges(), sidx) == drop_calls_from(old(self).sedges(), sidx)
                &&& calls_exactly(final(self).sedges(), sidx, call_edge_targets(call_targets(old(self).cnodes(), f), old(self).fsem()))
                &&& final(refreshed_semantic)@ == old(refreshed_semantic)@.push(sidx)
                &&& final(refreshed_summary)@ == old(refreshed_summary)@.push(midx)
            },
            final(self).sedges().dom().len() <= old(self).sedges().dom().len() + old(self).cnodes().dom().len(),
            final(self).fsem() == old(self).fsem(),
            final(self).msem() == old(self).msem(),
            final(self).same_program(old(self)),
    {
        if (f.0 as usize) >= self.functions.len() {
            return Err(CoreError::FunctionNotFound { id: f });
        }
        let sidx = self.function_semantic_nodes[f.0 as usize];
        let ids = self.function_nodes(f);
        proof {
            lemma_owned_count(self.cnodes(), f, ids@);
        }
        let node_count = ids.len() as u32;
        let called = self.call_targets_of(f);
        let ghost g0 = *self;
        self.drop_call_edges(sidx);
        let ghost g1 = *self;
        proof {
            assert forall|e: u32| #[trigger] self.sedges().contains_key(e) implies !is_call_from(self.sedges()[e], sidx) by {}
            vstd::set_lib::lemma_len_subset(self.sedges().dom(), g0.sedges().dom());
            assert(called@.to_set() =~= call_targets(g0.cnodes(), f));
        }
        self.add_call_edges(sidx, &called);
        let params = clone_params(&self.functions[f.0 as usize].params);
        let return_type = self.functions[f.0 as usize].return_type;
        let visibility = self.functions[f.0 as usize].visibility;
        let module = self.functions[f.0 as usize].module;
        let ghost g2 = *self;
        match semantic_node_mut(&mut self.semantic, sidx) {
            Some(node) => {
                node.refresh_function(params, return_type, visibility, node_count);
            },
            None => {},
        }
        refreshed_semantic.push(sidx);
        proof {
            assert(self.snodes().contains_key(sidx));
            assert forall|x: u32| #[trigger] g2.snodes().contains_key(x) implies node_ids_kept(g2.snodes()[x], self.snodes()[x])
                && self.snodes().contains_key(x) by {}
            assert forall|x: u32| #[trigger] self.sedges().contains_key(x) implies self.snodes().dom().contains(
                self.sedges()[x].0,
            ) && self.snodes().dom().contains(self.sedges()[x].1) by {
                assert(g2.sedges().contains_key(x));
            }
            lemma_semantic_update_wf(g2, *self);
            assert(drop_calls_from(g1.sedges(), sidx) =~= drop_calls_from(g0.sedges(), sidx));
            assert(old(self).tree().modules_view().contains_key(module.0));
            assert(old(self).snodes().contains_key(old(self).msem()[module.0]));
        }
        let res = self.refresh_module_semantics(module, refreshed_summary);
        proof {
            let midx = old(self).msem()[module.0];
            assert(old(self).snodes()[sidx] matches SemanticNode::Function(_));
            assert(old(self).snodes()[midx] matches SemanticNode::Module(_));
            assert(self.snodes() =~= old(self).snodes().insert(sidx, self.snodes()[sidx]).insert(midx, self.snodes()[midx]));
        }
        res
    }

    /// Attaches a contract specification to function `f`: a spec node
    /// `contract-<f>-<name>` titled `contract <name>`, owned by the function
    /// and its module and summarised as `contract <name> for function
    /// <function name>`, linked by `Contains` from the module's semantic node
    /// and by `Implements` from the function's; its index is recorded in
    /// `refreshed`. Fails with `FunctionNotFound`, changing nothing, when `f`
    /// is unknown.
    fn attach_contract_spec(&mut self, f: FunctionId, contract_name: &str, refreshed: &mut Vec<u32>) -> (r: Result<(), CoreError>)
        requires
            old(self).wf(),
            old(self).snodes().dom().len() < u32::MAX,
            old(self).sedges().dom().len() + 2 < u32::MAX,
        ensures
            final(self).wf(),
            f.0 >= old(self).next_fn() ==> {
                &&& (r matches Err(CoreError::FunctionNotFound { id }) && id == f)
                &&& *final(self) == *old(self)
                &&& final(refreshed)@ == old(refreshed)@
            },
            f.0 < old(self).next_fn() ==> {
                let def = old(self).fns()[f.0 as int];
                let k = final(refreshed)@.last();
                let n = final(self).snodes()[k];
                &&& r is Ok
                &&& final(refreshed)@ == old(refreshed)@.push(k)
                &&& !old(self).snodes().contains_key(k)
                &&& final(self).snodes() == old(self).snodes().insert(k, n)
                &&& n matches SemanticNode::Spec(x) && x.spec_id@ == "contract-"@ + decimal_seq(f.0 as nat) + "-"@
                    + contract_name@ && x.title@ == "contract "@ + contract_name@ && fresh_metadata(
                    Some(def.module),
                    Some(f),
                    x.metadata,
                    "spec"@,
                    contract_name@,
                    "contract "@ + contract_name@ + " for function "@ + def.name@,
                )
                &&& exists|e1: u32, e2: u32|
                    !old(self).sedges().contains_key(e1) && !old(self).sedges().contains_key(e2) && e1 != e2
                        && final(self).sedges() == #[trigger] old(self).sedges().insert(
                        e1,
                        (old(self).msem()[def.module.0], k, SemanticEdge::Contains),
                    ).insert(e2, (old(self).fsem()[f.0 as int], k, SemanticEdge::Implements))
            },
            final(self).snodes().dom().len() <= old(self).snodes().dom().len() + 1,
            final(self).sedges().dom().len() <= old(self).sedges().dom().len() + 2,
            final(self).fsem() == old(self).fsem(),
            final(self).msem() == old(self).msem(),
            final(self).same_program(old(self)),
    {
        if (f.0 as usize) >= self.functions.len() {
            return Err(CoreError::FunctionNotFound { id: f });
        }
        let fidx = self.function_semantic_nodes[f.0 as usize];
        let module = self.functions[f.0 as usize].module;
        let midx = match self.module_semantic_nodes.get(&module.0) {
            Some(m) => *m,
            None => {
                return Err(CoreError::ModuleNotFound { id: module });
            },
        };
        let mut spec_id = cat("contract-", u64_to_decimal(f.0 as u64).as_str());
        spec_id.append("-");
        spec_id.append(contract_name);
        let title = cat("contract ", contract_name);
        let mut body = cat3("contract ", contract_name, " for function ");
        body.append(self.functions[f.0 as usize].name.as_str());
        let metadata = SemanticMetadata::with_function("spec", module, f, contract_name, body.as_str());
        let ghost g0 = *self;
        proof {
            assert(old(self).tree().modules_view().contains_key(module.0));
            assert(self.snodes().contains_key(fidx));
        }
        let k = semantic_add_node(&mut self.semantic, SemanticNode::Spec(SpecNode { spec_id, title, metadata }));
        let e1 = semantic_add_edge(&mut self.semantic, midx, k, SemanticEdge::Contains);
        let e2 = semantic_add_edge(&mut self.semantic, fidx, k, SemanticEdge::Implements);
        refreshed.push(k);
        proof {
            assert(self.sedges() == g0.sedges().insert(e1, (midx, k, SemanticEdge::Contains)).insert(
                e2,
                (fidx, k, SemanticEdge::Implements),
            ));
            assert forall|x: u32| #[trigger] g0.snodes().contains_key(x) implies node_ids_kept(g0.snodes()[x], self.snodes()[x])
                && self.snodes().contains_key(x) by {
                assert(x != k);
            }
            assert forall|x: u32| #[trigger] self.sedges().contains_key(x) implies self.snodes().dom().contains(
                self.sedges()[x].0,
            ) && self.snodes().dom().contains(self.sedges()[x].1) by {
                if x != e1 && x != e2 {
                    assert(g0.sedges().contains_key(x));
                }
            }
            lemma_semantic_update_wf(g0, *self);
        }
        Ok(())
    }

    /// Applies one propagation event: a contract addition attaches the
    /// contract spec, and every event refreshes the semantics of its
    /// function (see `refresh_function_semantics`).
    fn apply_propagation_event(&mut self, kind: &PropagationEventKind, refreshed_semantic: &mut Vec<u32>, refreshed_summary: &mut Vec<u32>) -> (r:
        Result<(), CoreError>)
        requires
            old(self).wf(),
            old(self).snodes().dom().len() < u32::MAX,
            old(self).sedges().dom().len() + old(self).cnodes().dom().len() + 2 < u32::MAX,
        ensures
            final(self).wf(),
            event_function(*kind).0 >= old(self).next_fn() ==> (r matches Err(CoreError::FunctionNotFound { id })
                && id == event_function(*kind)),
            event_function(*kind).0 < old(self).next_fn() ==> {
                let f = event_function(*kind);
                let sidx = old(self).fsem()[f.0 as int];
                let midx = old(self).msem()[old(self).fns()[f.0 as int].module.0];
                &&& r is Ok
                &&& final(refreshed_summary)@ == old(refreshed_summary)@.push(midx)
                &&& final(refreshed_semantic)@.contains(sidx)
                &&& forall|x: u32| #[trigger] final(refreshed_semantic)@.contains(x) ==> old(refreshed_semantic)@.contains(x)
                    || x == sidx || !old(self).snodes().contains_key(x)
                &&& forall|x: u32| #[trigger] old(refreshed_semantic)@.contains(x) ==> final(refreshed_semantic)@.contains(x)
            },
            r is Err ==> final(refreshed_summary)@ == old(refreshed_summary)@,
            r is Err ==> *final(self) == *old(self),
            r is Ok ==> event_applied(*old(self), *final(self), *kind),
            old(self).snodes().dom().subset_of(final(self).snodes().dom()),
            final(self).snodes().dom().len() <= old(self).snodes().dom().len() + 1,
            final(self).sedges().dom().len() <= old(self).sedges().dom().len() + old(self).cnodes().dom().len() + 2,
            final(self).fsem() == old(self).fsem(),
            final(self).msem() == old(self).msem(),
            final(self).same_program(old(self)),
    {
        let ghost sem0 = refreshed_semantic@;
        match kind {
            PropagationEventKind::Semantic(SemanticEvent::ContractAdded { function_id, contract_name }) => {
                match self.attach_contract_spec(*function_id, contract_name.as_str(), refreshed_semantic) {
                    Ok(()) => {},
                    Err(e) => {
                        return Err(e);
                    },
                }
            },
            _ => {},
        }
        let ghost mid = *self;
        let ghost sem1 = refreshed_semantic@;
        proof {
            if let PropagationEventKind::Semantic(SemanticEvent::ContractAdded { function_id, contract_name }) = kind {
                let k = sem1.last();
                assert(!old(self).snodes().contains_key(k) && mid.snodes() == old(self).snodes().insert(k, mid.snodes()[k]));
                assert(contract_attached(*old(self), mid, *function_id, contract_name@));
            }
            assert forall|x: u32| #[trigger] sem1.contains(x) implies sem0.contains(x) || !old(self).snodes().contains_key(x) by {
                if !sem0.contains(x) {
                    assert(x == sem1.last());
                }
            }
            assert forall|x: u32| #[trigger] sem0.contains(x) implies sem1.contains(x) by {
                if sem1 != sem0 {
                    let j = choose|j: int| 0 <= j < sem0.len() && sem0[j] == x;
                    assert(sem1[j] == x);
                }
            }
        }
        let res = self.refresh_function_semantics(kind.function_id(), refreshed_semantic, refreshed_summary);
        proof {
            if res is Ok {
                assert(function_semantics_refreshed(mid, *self, event_function(*kind)));
                if let PropagationEventKind::Semantic(SemanticEvent::ContractAdded { .. }) = kind {
                    // names the intermediate graph as the witness of `event_applied`
                    assert(mid.snodes() == mid.snodes());
                    assert(event_applied(*old(self), *self, *kind));
                }
            }
            if res is Ok {
                let sidx = old(self).fsem()[event_function(*kind).0 as int];
                assert(refreshed_semantic@ == sem1.push(sidx));
                assert(refreshed_semantic@[sem1.len() as int] == sidx);
                assert forall|x: u32| #[trigger] refreshed_semantic@.contains(x) implies sem0.contains(x) || x == sidx
                    || !old(self).snodes().contains_key(x) by {
                    if x != sidx {
                        let j = choose|j: int| 0 <= j < refreshed_semantic@.len() && refreshed_semantic@[j] == x;
                        assert(sem1[j] == x);
                        assert(sem1.contains(x));
                    }
                }
                assert forall|x: u32| #[trigger] sem0.contains(x) implies refreshed_semantic@.contains(x) by {
                    assert(sem1.contains(x));
                    let j = choose|j: int| 0 <= j < sem1.len() && sem1[j] == x;
                    assert(refreshed_semantic@[j] == x);
                }
            }
        }
        res
    }

    /// Flushes the pending propagation events (explicit-flush model): the
    /// flush decides, smallest event first (priority, then sequence, then
    /// id), which events to apply, skip or report as conflicts (see
    /// `plan_flush`), then applies the chosen ones in order (see
    /// `apply_propagation_event`). The queue is left empty. The flush fails
    /// with `FunctionNotFound` at the first chosen event whose function is
    /// unknown, and with `PropagationLoopDetected` when the replay limit
    /// stopped it with events left; otherwise the report gives the counts,
    /// the conflict diagnostics and the refreshed semantic and summary nodes.
    /// A flush of an empty queue is a no-op with an empty report. The
    /// semantic graph indexes nodes and edges by `u32`; each applied event
    /// adds at most one node and at most one edge per compute node (plus
    /// two), so the graph must have room for the events the flush applies.
    pub fn flush_propagation(&mut self) -> (r: Result<PropagationFlushReport, CoreError>)
        requires
            old(self).wf(),
            old(self).snodes().dom().len() + flush_run(
                old(self).pending(),
                flush_start(),
                old(self).queue_counters().2 as nat,
            ).applied.len() < u32::MAX,
            old(self).sedges().dom().len() + (flush_run(
                old(self).pending(),
                flush_start(),
                old(self).queue_counters().2 as nat,
            ).applied.len() + 1) * (old(self).cnodes().dom().len() + 2) < u32::MAX,
        ensures
            final(self).wf(),
            final(self).pending().len() == 0,
            final(self).queue_counters() == old(self).queue_counters(),
            final(self).cnodes() == old(self).cnodes(),
            final(self).cedges() == old(self).cedges(),
            final(self).fns() == old(self).fns(),
            final(self).next_fn() == old(self).next_fn(),
            final(self).tree() == old(self).tree(),
            final(self).registry() == old(self).registry(),
            final(self).fsem() == old(self).fsem(),
            final(self).msem() == old(self).msem(),
            old(self).pending().len() == 0 ==> *final(self) == *old(self),
            ({
                let run = flush_run(old(self).pending(), flush_start(), old(self).queue_counters().2 as nat);
                let n = old(self).next_fn();
                &&& old(self).pending().len() > 0 && all_known(run.applied, n, run.applied.len() as int) ==> events_applied(
                    *old(self),
                    *final(self),
                    run.applied,
                )
                &&& old(self).pending().len() > 0 ==> forall|i: int|
                    0 <= i < run.applied.len() && all_known(run.applied, n, i) && event_function(
                        (#[trigger] run.applied[i]).kind,
                    ).0 >= n ==> events_applied(*old(self), *final(self), run.applied.take(i))
                &&& forall|i: int|
                    0 <= i < run.applied.len() && all_known(run.applied, n, i) && event_function(
                        (#[trigger] run.applied[i]).kind,
                    ).0 >= n ==> (r matches Err(CoreError::FunctionNotFound { id }) && id == event_function(
                        run.applied[i].kind,
                    ))
                &&& all_known(run.applied, n, run.applied.len() as int) && run.limit_exceeded ==> (r matches Err(
                    CoreError::PropagationLoopDetected { reason },
                ) && reason@ == "flush exceeded replay limit ("@ + decimal_seq(old(self).queue_counters().2 as nat)
                    + ")"@)
                &&& all_known(run.applied, n, run.applied.len() as int) && !run.limit_exceeded ==> (r matches Ok(rep)
                    && {
                    &&& rep.processed_events == run.processed
                    &&& rep.applied_events == run.applied.len()
                    &&& rep.skipped_events == run.skipped
                    &&& rep.generated_events == 0
                    &&& rep.remaining_queue == 0
                    &&& rep.diagnostics@.map_values(|d: crate::propagation::PropagationConflictDiagnostic| crate::propagation::diagnostic_view(d))
                        == run.diagnostics
                    &&& strictly_increasing(rep.refreshed_summary_nodes@)
                    &&& rep.refreshed_summary_nodes@.to_set() == summary_targets(*old(self), run.applied)
                    &&& strictly_increasing(rep.refreshed_semantic_nodes@)
                    &&& forall|j: int| 0 <= j < run.applied.len() ==> rep.refreshed_semantic_nodes@.contains(
                        old(self).fsem()[event_function((#[trigger] run.applied[j]).kind).0 as int],
                    )
                    &&& forall|x: u32| #[trigger] rep.refreshed_semantic_nodes@.contains(x) ==> !old(self).snodes().contains_key(
                        x,
                    ) || exists|j: int| 0 <= j < run.applied.len() && x == old(self).fsem()[event_function(
                        (#[trigger] run.applied[j]).kind,
                    ).0 as int]
                })
            }),
    {
        if self.propagation.pending_propagation_events().len() == 0 {
            let report = PropagationFlushReport::default();
            proof {
                assert(report.diagnostics@.map_values(|d: crate::propagation::PropagationConflictDiagnostic| crate::propagation::diagnostic_view(d)) =~= Seq::empty());
                assert(report.refreshed_summary_nodes@.to_set() =~= Set::empty());
                assert(summary_targets(*old(self), Seq::empty()) =~= Set::empty());
            }
            return Ok(report);
        }
        let ghost start = *self;
        let ghost limit = self.queue_counters().2 as nat;
        let plan = self.propagation.plan_flush_propagation();
        let ghost run = flush_run(start.pending(), flush_start(), limit);
        let ghost k_cost: int = (start.cnodes().dom().len() + 2) as int;
        proof {
            crate::propagation::lemma_run_applied_bound(start.pending(), flush_start(), limit);
            assert(start == *old(self));
        }
        let m = plan.to_apply.len();
        proof {
            assert(run.applied.take(0) =~= Seq::<PropagationEvent>::empty());
        }
        let mut refreshed_semantic: Vec<u32> = Vec::new();
        let mut refreshed_summary: Vec<u32> = Vec::new();
        let mut i: usize = 0;
        while i < m
            invariant
                m == plan.to_apply@.len(),
                plan.to_apply@ == run.applied,
                start == *old(self),
                limit == start.queue_counters().2 as nat,
                run == flush_run(start.pending(), flush_start(), limit),
                m <= start.pending().len(),
                i <= m,
                self.wf(),
                self.pending().len() == 0,
                self.queue_counters() == start.queue_counters(),
                self.cnodes() == start.cnodes(),
                self.cedges() == start.cedges(),
                self.fns() == start.fns(),
                self.next_fn() == start.next_fn(),
                self.tree() == start.tree(),
                self.registry() == start.registry(),
                self.fsem() == start.fsem(),
                self.msem() == start.msem(),
                k_cost == start.cnodes().dom().len() + 2,
                start.snodes().dom().subset_of(self.snodes().dom()),
                self.snodes().dom().len() + (m - i) < u32::MAX,
                self.sedges().dom().len() + (m - i + 1) * k_cost < u32::MAX,
                all_known(run.applied, start.next_fn(), i as int),
                events_applied(start, *self, run.applied.take(i as int)),
                refreshed_summary@.to_set() == summary_targets(start, run.applied.subrange(0, i as int)),
                forall|j: int| 0 <= j < i ==> refreshed_semantic@.contains(
                    start.fsem()[event_function((#[trigger] run.applied[j]).kind).0 as int],
                ),
                forall|x: u32| #[trigger] refreshed_semantic@.contains(x) ==> !start.snodes().contains_key(x) || exists|j: int|
                    0 <= j < i && x == start.fsem()[event_function((#[trigger] run.applied[j]).kind).0 as int],
            decreases m - i,
        {
            proof {
                assert((m - i + 1) * k_cost >= k_cost) by (nonlinear_arith)
                    requires
                        m - i + 1 >= 1,
                        k_cost >= 0,
                ;
            }
            let ghost before = *self;
            let ghost sum0 = refreshed_summary@;
            let ghost sem0 = refreshed_semantic@;
            let res = self.apply_propagation_event(&plan.to_apply[i].kind, &mut refreshed_semantic, &mut refreshed_summary);
            match res {
                Ok(()) => {},
                Err(e) => {
                    proof {
                        let n = start.next_fn();
                        assert(event_function(run.applied[i as int].kind).0 >= n);
                        assert forall|k: int|
                            0 <= k < run.applied.len() && all_known(run.applied, n, k) && event_function(
                                (#[trigger] run.applied[k]).kind,
                            ).0 >= n implies k == i by {
                            if k > i {
                                assert(event_function(run.applied[i as int].kind).0 < n);
                            }
                        }
                        assert(!all_known(run.applied, n, run.applied.len() as int));
                        assert(flush_run(old(self).pending(), flush_start(), old(self).queue_counters().2 as nat) == run);
                        assert(plan.to_apply@[i as int].kind == run.applied[i as int].kind);
                        assert(e matches CoreError::FunctionNotFound { id } && id == event_function(run.applied[i as int].kind));
                        assert(events_applied(start, *self, run.applied.take(i as int)));
                    }
                    return Err(e);
                },
            }
            proof {
                let ev = run.applied[i as int];
                let f = event_function(ev.kind);
                assert(f.0 < start.next_fn());
                let nx = run.applied.take(i + 1);
                assert(nx.drop_last() =~= run.applied.take(i as int));
                assert(nx.last() == ev);
                assert(plan.to_apply@[i as int].kind == ev.kind);
                assert(events_applied(start, before, nx.drop_last()) && event_applied(before, *self, nx.last().kind));
                // names `before` as the intermediate graph of `events_applied`
                assert(before.snodes() == before.snodes());
                assert(events_applied(start, *self, nx));
                assert((m - i) * k_cost + k_cost == (m - i + 1) * k_cost) by (nonlinear_arith);
                assert forall|j: int| 0 <= j < i + 1 implies event_function((#[trigger] run.applied[j]).kind).0 < start.next_fn() by {}
                let midx = start.msem()[start.fns()[f.0 as int].module.0];
                assert(run.applied.subrange(0, i as int + 1) =~= run.applied.subrange(0, i as int).push(ev));
                sum0.lemma_push_to_set_commute(midx);
                assert(refreshed_summary@.to_set() =~= sum0.to_set().insert(midx));
                assert(summary_targets(start, run.applied.subrange(0, i as int + 1)) =~= summary_targets(
                    start,
                    run.applied.subrange(0, i as int),
                ).insert(midx)) by {
                    let a = run.applied.subrange(0, i as int);
                    let b = run.applied.subrange(0, i as int + 1);
                    assert forall|x: u32| summary_targets(start, b).contains(x) <==> summary_targets(start, a).insert(midx).contains(x) by {
                        if summary_targets(start, b).contains(x) {
                            let j = choose|j: int| 0 <= j < b.len() && x == start.msem()[start.fns()[event_function((#[trigger] b[j]).kind).0 as int].module.0];
                            if j < a.len() {
                                assert(a[j] == b[j]);
                            }
                        }
                        if summary_targets(start, a).contains(x) {
                            let j = choose|j: int| 0 <= j < a.len() && x == start.msem()[start.fns()[event_function((#[trigger] a[j]).kind).0 as int].module.0];
                            assert(a[j] == b[j]);
                        }
                        if x == midx {
                            assert(b[i as int] == ev);
                        }
                    }
                }
                assert forall|j: int| 0 <= j < i + 1 implies refreshed_semantic@.contains(
                    start.fsem()[event_function((#[trigger] run.applied[j]).kind).0 as int],
                ) by {
                    if j < i {
                        assert(sem0.contains(start.fsem()[event_function(run.applied[j].kind).0 as int]));
                    }
                }
                assert forall|x: u32| #[trigger] refreshed_semantic@.contains(x) implies !start.snodes().contains_key(x) || exists|j: int|
                    0 <= j < i + 1 && x == start.fsem()[event_function((#[trigger] run.applied[j]).kind).0 as int] by {
                    if sem0.contains(x) {
                        if start.snodes().contains_key(x) {
                            let j = choose|j: int| 0 <= j < i && x == start.fsem()[event_function((#[trigger] run.applied[j]).kind).0 as int];
                            assert(0 <= j < i + 1);
                        }
                    } else if x == start.fsem()[f.0 as int] {
                        assert(run.applied[i as int] == ev);
                    } else {
                        assert(!before.snodes().contains_key(x));
                    }
                }
            }
            i = i + 1;
        }
        proof {
            let n = start.next_fn();
            assert(run.applied.take(m as int) =~= run.applied);
            assert(all_known(run.applied, n, run.applied.len() as int));
            assert forall|k: int|
                0 <= k < run.applied.len() && all_known(run.applied, n, k) && event_function(
                    (#[trigger] run.applied[k]).kind,
                ).0 >= n implies false by {}
        }
        if plan.limit_exceeded {
            return Err(self.propagation.replay_limit_error());
        }
        proof {
            assert(run.applied.subrange(0, m as int) =~= run.applied);
        }
        let ghost sem = refreshed_semantic@;
        let report = flush_report(plan, m, refreshed_semantic, refreshed_summary);
        proof {
            assert forall|j: int| 0 <= j < run.applied.len() implies report.refreshed_semantic_nodes@.contains(
                start.fsem()[event_function((#[trigger] run.applied[j]).kind).0 as int],
            ) by {
                assert(sem.contains(start.fsem()[event_function(run.applied[j].kind).0 as int]));
                assert(sem.to_set().contains(start.fsem()[event_function(run.applied[j].kind).0 as int]));
            }
            assert forall|x: u32| #[trigger] report.refreshed_semantic_nodes@.contains(x) implies !start.snodes().contains_key(x)
                || exists|j: int| 0 <= j < run.applied.len() && x == start.fsem()[event_function(
                (#[trigger] run.applied[j]).kind,
            ).0 as int] by {
                assert(report.refreshed_semantic_nodes@.to_set().contains(x));
                assert(sem.contains(x));
            }
        }
        Ok(report)
    }

}

/// The functions of the first `upto` events are all known.
pub open spec fn all_known(evs: Seq<PropagationEvent>, n: u32, upto: int) -> bool {
    forall|j: int| 0 <= j < upto ==> event_function((#[trigger] evs[j]).kind).0 < n
}

/// The semantic nodes of the modules of the events' functions.
pub open spec fn summary_targets(g: ProgramGraph, evs: Seq<PropagationEvent>) -> Set<u32> {
    Set::new(
        |x: u32|
            exists|j: int| 0 <= j < evs.len() && x == g.msem()[g.fns()[event_function((#[trigger] evs[j]).kind).0 as int].module.0],
    )
}

/// The number of compute nodes owned by `f`.
pub open spec fn owned_count(cnodes: Map<u32, ComputeNode>, f: FunctionId) -> nat {
    cnodes.dom().filter(|n: u32| cnodes[n].owner == f).len()
}

/// An increasing listing of exactly the nodes owned by `f` is as long as
/// their count.
proof fn lemma_owned_count(cnodes: Map<u32, ComputeNode>, f: FunctionId, ids: Seq<NodeId>)
    requires
        cnodes.dom().finite(),
        forall|a: int, b: int| 0 <= a < b < ids.len() ==> ids[a].0 < ids[b].0,
        forall|k: u32| #[trigger] ids.contains(NodeId(k)) <==> (cnodes.contains_key(k) && cnodes[k].owner == f),
    ensures
        ids.len() == owned_count(cnodes, f),
        ids.len() <= cnodes.dom().len(),
{
    let keys = ids.map_values(|n: NodeId| n.0);
    assert forall|a: int, b: int| 0 <= a < keys.len() && 0 <= b < keys.len() && a != b implies keys[a] != keys[b] by {
        if a < b {
            assert(ids[a].0 < ids[b].0);
        } else {
            assert(ids[b].0 < ids[a].0);
        }
    }
    keys.unique_seq_to_set();
    let owned = cnodes.dom().filter(|n: u32| cnodes[n].owner == f);
    assert forall|x: u32| keys.to_set().contains(x) <==> owned.contains(x) by {
        if keys.to_set().contains(x) {
            let a = choose|a: int| 0 <= a < keys.len() && keys[a] == x;
            assert(ids.contains(ids[a]));
            assert(ids[a] == NodeId(x));
        }
        if owned.contains(x) {
            assert(ids.contains(NodeId(x)));
            let a = choose|a: int| 0 <= a < ids.len() && ids[a] == NodeId(x);
            assert(keys[a] == x);
        }
    }
    assert(keys.to_set() =~= owned);
    vstd::set_lib::lemma_len_subset(owned, cnodes.dom());
}

/// The edge is a `Calls` edge leaving `s`.
pub open spec fn is_call_from(w: (u32, u32, SemanticEdge), s: u32) -> bool {
    w.0 == s && w.2 == SemanticEdge::Calls
}

/// The edges without the `Calls` edges leaving `s`.
pub open spec fn drop_calls_from(edges: Map<u32, (u32, u32, SemanticEdge)>, s: u32) -> Map<u32, (u32, u32, SemanticEdge)> {
    edges.restrict(edges.dom().filter(|e: u32| !is_call_from(edges[e], s)))
}

/// The semantic nodes of the known functions among `callees`.
pub open spec fn call_edge_targets(callees: Set<u32>, fsem: Seq<u32>) -> Set<u32> {
    Set::new(|x: u32| exists|c: u32| callees.contains(c) && (c as int) < fsem.len() && fsem[c as int] == x)
}

/// The `Calls` edges leaving `s` go to exactly the nodes of `targets`, one
/// edge to each.
pub open spec fn calls_exactly(edges: Map<u32, (u32, u32, SemanticEdge)>, s: u32, targets: Set<u32>) -> bool {
    &&& forall|e: u32| #[trigger] edges.contains_key(e) && is_call_from(edges[e], s) ==> targets.contains(edges[e].1)
    &&& forall|x: u32| targets.contains(x) ==> exists|e: u32| #[trigger] edges.contains_key(e) && edges[e] == (
        s,
        x,
        SemanticEdge::Calls,
    )
    &&& forall|e1: u32, e2: u32|
        #[trigger] edges.contains_key(e1) && #[trigger] edges.contains_key(e2) && e1 != e2 && is_call_from(edges[e1], s)
            && is_call_from(edges[e2], s) ==> edges[e1].1 != edges[e2].1
}

/// Distinct functions have distinct semantic nodes.
proof fn lemma_fsem_injective(g: ProgramGraph)
    requires
        g.wf(),
    ensures
        forall|a: int, b: int| 0 <= a < g.fsem().len() && 0 <= b < g.fsem().len() && g.fsem()[a] == g.fsem()[b] ==> a == b,
        forall|a: int| 0 <= a < g.fsem().len() ==> g.snodes().contains_key(#[trigger] g.fsem()[a]),
{
    assert forall|a: int, b: int| 0 <= a < g.fsem().len() && 0 <= b < g.fsem().len() && g.fsem()[a] == g.fsem()[b] implies a == b by {
        assert(g.snodes().contains_key(g.fsem()[a]));
        assert(g.snodes().contains_key(g.fsem()[b]));
        assert(FunctionId(a as u32) == FunctionId(b as u32));
    }
}

/// The functions called by `Call` nodes owned by `f`.
pub open spec fn call_targets(cnodes: Map<u32, ComputeNode>, f: FunctionId) -> Set<u32> {
    Set::new(
        |t: u32|
            exists|n: u32| #[trigger] cnodes.contains_key(n) && cnodes[n].owner == f && cnodes[n].op
                == ComputeNodeOp::Core(ComputeOp::Call { target: FunctionId(t) }),
    )
}

/// A sequence of distinct (increasing) node ids drawn from a finite set is
/// no longer than the set.
proof fn lemma_increasing_len_bound(ids: Seq<NodeId>, dom: Set<u32>)
    requires
        dom.finite(),
        forall|a: int, b: int| 0 <= a < b < ids.len() ==> ids[a].0 < ids[b].0,
        forall|a: int| 0 <= a < ids.len() ==> dom.contains(#[trigger] ids[a].0),
    ensures
        ids.len() <= dom.len(),
{
    let keys = ids.map_values(|n: NodeId| n.0);
    assert forall|a: int, b: int| 0 <= a < keys.len() && 0 <= b < keys.len() && a != b implies keys[a] != keys[b] by {
        if a < b {
            assert(ids[a].0 < ids[b].0);
        } else {
            assert(ids[b].0 < ids[a].0);
        }
    }
    assert(keys.no_duplicates());
    keys.unique_seq_to_set();
    assert forall|x: u32| keys.to_set().contains(x) implies dom.contains(x) by {
        let a = choose|a: int| 0 <= a < keys.len() && keys[a] == x;
        assert(dom.contains(ids[a].0));
    }
    vstd::set_lib::lemma_len_subset(keys.to_set(), dom);
}

/// The number of functions of module `m`.
pub open spec fn module_fn_count(fns: Seq<FunctionDef>, m: ModuleId) -> nat
    decreases fns.len(),
{
    if fns.len() == 0 {
        0
    } else {
        module_fn_count(fns.drop_last(), m) + if fns.last().module == m { 1nat } else { 0nat }
    }
}

/// A semantic node keeps its kind and, for a function or module node, the
/// id it stands for.
pub open spec fn node_ids_kept(before: SemanticNode, after: SemanticNode) -> bool {
    &&& (before matches SemanticNode::Function(s) ==> (after matches SemanticNode::Function(t) && t.function_id
        == s.function_id))
    &&& (before matches SemanticNode::Module(m) ==> (after matches SemanticNode::Module(x) && x.module.id == m.module.id))
}

/// `after` is `before` with artifact node `n` added under the fresh index `k`
/// and a fresh `Contains` edge from the semantic node of `module` to it;
/// nothing else changes.
pub open spec fn artifact_added(before: ProgramGraph, after: ProgramGraph, module: ModuleId, k: u32, n: SemanticNode) -> bool {
    &&& !before.snodes().contains_key(k)
    &&& after.snodes() == before.snodes().insert(k, n)
    &&& exists|e: u32|
        !before.sedges().contains_key(e) && after.sedges() == #[trigger] before.sedges().insert(
            e,
            (before.msem()[module.0], k, SemanticEdge::Contains),
        )
    &&& after.fsem() == before.fsem()
    &&& after.msem() == before.msem()
    &&& after.same_program(&before)
}

/// A change confined to the semantic layer, which keeps every node's kind
/// and the ids that function and module nodes stand for, and keeps edges
/// between nodes, keeps a program graph well formed.
proof fn lemma_semantic_update_wf(before: ProgramGraph, after: ProgramGraph)
    requires
        before.wf(),
        after.same_program(&before),
        after.fsem() == before.fsem(),
        after.msem() == before.msem(),
        forall|x: u32| #[trigger] before.snodes().contains_key(x) ==> node_ids_kept(before.snodes()[x], after.snodes()[x])
            && after.snodes().contains_key(x),
        after.snodes().dom().finite(),
        after.sedges().dom().finite(),
        edges_closed(after.sedges(), after.snodes().dom()),
    ensures
        after.wf(),
{
    assert forall|i: int| 0 <= i < after.fsem().len() implies after.snodes().contains_key(#[trigger] after.fsem()[i])
        && (after.snodes()[after.fsem()[i]] matches SemanticNode::Function(x) && x.function_id == FunctionId(i as u32)) by {
        assert(before.snodes().contains_key(before.fsem()[i]));
    }
    assert forall|m: u32| #[trigger] after.tree().modules_view().contains_key(m) implies after.msem().contains_key(m)
        && after.snodes().contains_key(after.msem()[m]) && (after.snodes()[after.msem()[m]] matches SemanticNode::Module(x)
        && x.module.id == ModuleId(m)) by {
        assert(before.snodes().contains_key(before.msem()[m]));
    }
}

/// Adding a function keeps a program graph well formed.
proof fn lemma_function_added_wf(before: ProgramGraph, after: ProgramGraph, id: FunctionId, module: ModuleId, k: u32, e: u32)
    requires
        before.wf(),
        after.tree().wf(),
        before.tree().modules_view().contains_key(module.0),
        id == FunctionId(before.next_fn()),
        after.next_fn() == before.next_fn() + 1,
        after.fns() == before.fns().push(after.fns().last()),
        after.fns().last().id == id,
        after.fns().last().module == module,
        after.fsem() == before.fsem().push(k),
        !before.snodes().contains_key(k),
        after.snodes() == before.snodes().insert(k, after.snodes()[k]),
        after.snodes()[k] matches SemanticNode::Function(s) && s.function_id == id,
        !before.sedges().contains_key(e),
        after.sedges() == before.sedges().insert(e, (before.msem()[module.0], k, SemanticEdge::Contains)),
        after.msem() == before.msem(),
        after.tree().modules_view() == before.tree().modules_view(),
        after.registry() == before.registry(),
        after.cnodes() == before.cnodes(),
        after.cedges() == before.cedges(),
    ensures
        after.wf(),
{
    let n = before.fns().len();
    assert forall|i: int| 0 <= i < after.fns().len() implies (#[trigger] after.fns()[i]).id == FunctionId(i as u32)
        && after.tree().modules_view().contains_key(after.fns()[i].module.0) by {
        if i < n {
            assert(after.fns()[i] == before.fns()[i]);
        }
    }
    assert forall|i: int| 0 <= i < after.fsem().len() implies after.snodes().contains_key(#[trigger] after.fsem()[i])
        && (after.snodes()[after.fsem()[i]] matches SemanticNode::Function(x) && x.function_id == FunctionId(i as u32)) by {
        if i < n {
            assert(after.fsem()[i] == before.fsem()[i]);
            assert(before.snodes().contains_key(before.fsem()[i]));
        }
    }
    assert forall|m: u32| #[trigger] after.tree().modules_view().contains_key(m) implies after.msem().contains_key(m)
        && after.snodes().contains_key(after.msem()[m]) && (after.snodes()[after.msem()[m]] matches SemanticNode::Module(x)
        && x.module.id == ModuleId(m)) by {
        assert(before.snodes().contains_key(before.msem()[m]));
    }
    assert forall|x: u32| #[trigger] after.sedges().contains_key(x) implies after.snodes().dom().contains(
        after.sedges()[x].0,
    ) && after.snodes().dom().contains(after.sedges()[x].1) by {
        if x != e {
            assert(before.sedges().contains_key(x));
        }
    }
    assert forall|x: u32| #[trigger] after.cnodes().contains_key(x) implies after.cnodes()[x].owner.0 < after.next_fn() by {
        assert(before.cnodes().contains_key(x));
    }
}

/// `after` is `before` with the semantics of function `f` refreshed: its
/// summary node and its module's summary node rewritten, and its call
/// edges replaced by those its compute nodes now make.
pub open spec fn function_semantics_refreshed(before: ProgramGraph, after: ProgramGraph, f: FunctionId) -> bool {
    let sidx = before.fsem()[f.0 as int];
    let def = before.fns()[f.0 as int];
    let midx = before.msem()[def.module.0];
    &&& f.0 < before.next_fn()
    &&& after.snodes() == before.snodes().insert(sidx, after.snodes()[sidx]).insert(midx, after.snodes()[midx])
    &&& function_refreshed(
        before.snodes()[sidx],
        after.snodes()[sidx],
        def.params@,
        def.return_type,
        def.visibility,
        owned_count(before.cnodes(), f) as u32,
    )
    &&& module_refreshed(
        before.snodes()[midx],
        after.snodes()[midx],
        before.tree().modules_view()[def.module.0].name@,
        module_fn_count(before.fns(), def.module),
    )
    &&& drop_calls_from(after.sedges(), sidx) == drop_calls_from(before.sedges(), sidx)
    &&& calls_exactly(after.sedges(), sidx, call_edge_targets(call_targets(before.cnodes(), f), before.fsem()))
}

/// `after` is `before` with a contract spec node for `contract_name`
/// attached to function `f`: a new spec node, contained in the function's
/// module and implemented by the function.
pub open spec fn contract_attached(before: ProgramGraph, after: ProgramGraph, f: FunctionId, contract_name: Seq<char>) -> bool {
    let def = before.fns()[f.0 as int];
    &&& f.0 < before.next_fn()
    &&& exists|k: u32| {
        &&& !before.snodes().contains_key(k)
        &&& after.snodes() == #[trigger] before.snodes().insert(k, after.snodes()[k])
        &&& after.snodes()[k] matches SemanticNode::Spec(x) && x.spec_id@ == "contract-"@ + decimal_seq(f.0 as nat) + "-"@
            + contract_name && x.title@ == "contract "@ + contract_name && fresh_metadata(
            Some(def.module),
            Some(f),
            x.metadata,
            "spec"@,
            contract_name,
            "contract "@ + contract_name + " for function "@ + def.name@,
        )
        &&& exists|e1: u32, e2: u32|
            !before.sedges().contains_key(e1) && !before.sedges().contains_key(e2) && e1 != e2
                && after.sedges() == #[trigger] before.sedges().insert(
                e1,
                (before.msem()[def.module.0], k, SemanticEdge::Contains),
            ).insert(e2, (before.fsem()[f.0 as int], k, SemanticEdge::Implements))
    }
}

/// `after` is `before` with one propagation event applied: a contract
/// addition first attaches its contract, and every event then refreshes
/// the semantics of its function.
pub open spec fn event_applied(before: ProgramGraph, after: ProgramGraph, kind: PropagationEventKind) -> bool {
    match kind {
        PropagationEventKind::Semantic(SemanticEvent::ContractAdded { function_id, contract_name }) => exists|mid: ProgramGraph|
            #![trigger mid.snodes()]
            contract_attached(before, mid, function_id, contract_name@) && mid.same_program(&before) && mid.fsem() == before.fsem()
                && mid.msem() == before.msem() && function_semantics_refreshed(mid, after, function_id),
        _ => function_semantics_refreshed(before, after, event_function(kind)),
    }
}

/// `after` is `before` with the events applied one after the other, as far
/// as the semantic layer goes.
pub open spec fn events_applied(before: ProgramGraph, after: ProgramGraph, evs: Seq<PropagationEvent>) -> bool
    decreases evs.len(),
{
    if evs.len() == 0 {
        after.snodes() == before.snodes() && after.sedges() == before.sedges()
    } else {
        exists|mid: ProgramGraph|
            #![trigger mid.snodes()]
            events_applied(before, mid, evs.drop_last()) && event_applied(mid, after, evs.last().kind)
    }
}

/// `after` is `before` with function `id` added to `module`, its semantic
/// node under the fresh index `k` and a fresh `Contains` edge from the
/// module's semantic node to it; the compute layer is unchanged.
pub open spec fn added_function(before: ProgramGraph, after: ProgramGraph, id: FunctionId, module: ModuleId, k: u32) -> bool {
    &&& after.next_fn() == before.next_fn() + 1
    &&& after.fns().len() == before.fns().len() + 1
    &&& after.fns().drop_last() == before.fns()
    &&& after.fsem() == before.fsem().push(k)
    &&& !before.snodes().contains_key(k)
    &&& after.snodes() == before.snodes().insert(k, after.snodes()[k])
    &&& exists|e: u32|
        !before.sedges().contains_key(e) && after.sedges() == #[trigger] before.sedges().insert(
            e,
            (before.msem()[module.0], k, SemanticEdge::Contains),
        )
    &&& after.msem() == before.msem()
    &&& after.tree().functions_view() == before.tree().functions_view().insert(
        module.0,
        seq_at(before.tree().functions_view(), module.0).push(id),
    )
    &&& after.tree().modules_view() == before.tree().modules_view()
    &&& after.tree().children_view() == before.tree().children_view()
    &&& after.tree().root_view() == before.tree().root_view()
    &&& after.tree().next_id_view() == before.tree().next_id_view()
    &&& after.cnodes() == before.cnodes()
    &&& after.cedges() == before.cedges()
    &&& after.registry() == before.registry()
    &&& after.pending() == before.pending()
    &&& after.queue_counters() == before.queue_counters()
}

/// Removing a compute node right after adding it (the edit and its undo)
/// restores the computational graph: the node is gone and no edge was
/// touched, since no edge could reach the fresh index.
pub proof fn lemma_add_then_remove_node(
    cnodes: Map<u32, ComputeNode>,
    cedges: Map<u32, (u32, u32, FlowEdge)>,
    i: u32,
    node: ComputeNode,
)
    requires
        !cnodes.contains_key(i),
        edges_closed(cedges, cnodes.dom()),
    ensures
        cnodes.insert(i, node).remove(i) == cnodes,
        edges_without(cedges, i) == cedges,
{
    assert(cnodes.insert(i, node).remove(i) =~= cnodes);
    assert(edges_without(cedges, i) =~= cedges);
}

/// Setting a node's operation back to the one `modify_compute_node_op`
/// returned undoes the modification.
pub proof fn lemma_modify_op_undo(cnodes: Map<u32, ComputeNode>, i: u32, op: ComputeNodeOp)
    requires
        cnodes.contains_key(i),
    ensures
        cnodes.insert(i, ComputeNode { op, owner: cnodes[i].owner }).insert(
            i,
            ComputeNode { op: cnodes[i].op, owner: cnodes[i].owner },
        ) == cnodes,
{
    assert(cnodes.insert(i, ComputeNode { op, owner: cnodes[i].owner }).insert(
        i,
        ComputeNode { op: cnodes[i].op, owner: cnodes[i].owner },
    ) =~= cnodes);
}

/// Removing an edge right after adding it restores the edges.
pub proof fn lemma_add_then_remove_edge(cedges: Map<u32, (u32, u32, FlowEdge)>, e: u32, w: (u32, u32, FlowEdge))
    requires
        !cedges.contains_key(e),
    ensures
        cedges.insert(e, w).remove(e) == cedges,
{
    assert(cedges.insert(e, w).remove(e) =~= cedges);
}

/// In a well-formed program graph, each function's semantic node is a
/// function node standing for that function, each module's semantic node
/// is a module node standing for that module, and every compute node
/// belongs to a known function (dual-graph consistency).
pub proof fn lemma_dual_graph_consistency(g: ProgramGraph, f: FunctionId, m: ModuleId, n: u32)
    requires
        g.wf(),
    ensures
        f.0 < g.next_fn() ==> g.snodes().contains_key(g.fsem()[f.0 as int]) && (g.snodes()[g.fsem()[f.0 as int]] matches SemanticNode::Function(
            s,
        ) && s.function_id == f),
        g.tree().modules_view().contains_key(m.0) ==> g.snodes().contains_key(g.msem()[m.0]) && (
        g.snodes()[g.msem()[m.0]] matches SemanticNode::Module(x) && x.module.id == m),
        g.cnodes().contains_key(n) ==> g.cnodes()[n].owner.0 < g.next_fn(),
{
    if f.0 < g.next_fn() {
        assert(g.snodes().contains_key(g.fsem()[f.0 as int]));
    }
    if g.tree().modules_view().contains_key(m.0) {
        assert(g.msem().contains_key(m.0));
    }
}

} // verus!
