//! Bidirectional propagation events between the semantic and compute
//! layers, and the deterministic flush schedule that decides which queued
//! events are applied, skipped, or reported as conflicts.

use vstd::prelude::*;
use crate::error::CoreError;
use crate::ids::{FunctionId, NodeId};
use crate::text::{decimal_seq, u64_to_decimal};

verus! {

/// The layer where a propagation event originated.
#[derive(Debug, Clone, Copy, PartialEq, Eq, Structural)]
pub enum PropagationLayer {
    Semantic,
    Compute,
}

/// Semantic-origin changes that must propagate downward.
#[derive(Debug, Clone, PartialEq, Eq)]
pub enum SemanticEvent {
    FunctionCreated { function_id: FunctionId },
    FunctionSignatureChanged { function_id: FunctionId },
    ContractAdded { function_id: FunctionId, contract_name: String },
}

/// Compute-origin changes that must propagate upward.
#[derive(Debug, Clone, PartialEq, Eq)]
pub enum ComputeEvent {
    NodeInserted { function_id: FunctionId, node_id: NodeId, op_kind: String },
    NodeModified { function_id: FunctionId, node_id: NodeId, op_kind: String },
    NodeRemoved { function_id: FunctionId, node_id: NodeId },
    ControlFlowChanged { function_id: FunctionId },
}

/// A bidirectional propagation event.
#[derive(Debug, Clone, PartialEq, Eq)]
pub enum PropagationEventKind {
    Semantic(SemanticEvent),
    Compute(ComputeEvent),
}

/// Queue envelope with deterministic sequencing and causal lineage.
#[derive(Debug, Clone, PartialEq, Eq)]
pub struct PropagationEvent {
    pub id: u64,
    pub sequence: u64,
    pub origin: PropagationLayer,
    pub kind: PropagationEventKind,
    pub lineage: Vec<u64>,
}

/// Conflict priority class for deterministic dual-layer resolution.
#[derive(Debug, Clone, Copy, PartialEq, Eq, Structural)]
pub enum ConflictPriorityClass {
    SemanticAuthoritative,
    ComputeAuthoritative,
    Mergeable,
    DiagnosticRequired,
}

/// Structured diagnostic for an unresolved propagation conflict.
#[derive(Debug, Clone, PartialEq, Eq)]
pub struct PropagationConflictDiagnostic {
    pub event_id: u64,
    pub conflicting_event_id: u64,
    pub precedence: ConflictPriorityClass,
    pub reason: String,
    pub node_refs: Vec<u32>,
    pub remediation: String,
}

/// Report of one flush of the propagation queue.
#[derive(Debug, Clone, PartialEq, Eq)]
pub struct PropagationFlushReport {
    pub processed_events: usize,
    pub applied_events: usize,
    pub skipped_events: usize,
    pub generated_events: usize,
    pub remaining_queue: usize,
    pub refreshed_semantic_nodes: Vec<u32>,
    pub refreshed_summary_nodes: Vec<u32>,
    pub diagnostics: Vec<PropagationConflictDiagnostic>,
}

impl Default for PropagationFlushReport {
    fn default() -> (r: Self)
        ensures
            r.processed_events == 0,
            r.applied_events == 0,
            r.skipped_events == 0,
            r.generated_events == 0,
            r.remaining_queue == 0,
            r.refreshed_semantic_nodes@.len() == 0,
            r.refreshed_summary_nodes@.len() == 0,
            r.diagnostics@.len() == 0,
    {
        PropagationFlushReport {
            processed_events: 0,
            applied_events: 0,
            skipped_events: 0,
            generated_events: 0,
            remaining_queue: 0,
            refreshed_semantic_nodes: Vec::new(),
            refreshed_summary_nodes: Vec::new(),
            diagnostics: Vec::new(),
        }
    }
}

/// The first event id handed out by a fresh queue.
pub fn default_next_propagation_event_id() -> (r: u64)
    ensures
        r == 1,
{
    1
}

/// The first sequence number handed out by a fresh queue.
pub fn default_next_propagation_sequence() -> (r: u64)
    ensures
        r == 1,
{
    1
}

/// How many events one flush may process before it halts as a loop guard.
pub fn default_propagation_replay_limit() -> (r: usize)
    ensures
        r == 1024,
{
    1024
}

/// Semantic events come first (0), compute events second (1).
pub open spec fn priority_of(kind: PropagationEventKind) -> u8 {
    match kind {
        PropagationEventKind::Semantic(_) => 0,
        PropagationEventKind::Compute(_) => 1,
    }
}

/// The function an event concerns.
pub open spec fn event_function(kind: PropagationEventKind) -> FunctionId {
    match kind {
        PropagationEventKind::Semantic(SemanticEvent::FunctionCreated { function_id }) => function_id,
        PropagationEventKind::Semantic(SemanticEvent::FunctionSignatureChanged { function_id }) => function_id,
        PropagationEventKind::Semantic(SemanticEvent::ContractAdded { function_id, .. }) => function_id,
        PropagationEventKind::Compute(ComputeEvent::NodeInserted { function_id, .. }) => function_id,
        PropagationEventKind::Compute(ComputeEvent::NodeModified { function_id, .. }) => function_id,
        PropagationEventKind::Compute(ComputeEvent::NodeRemoved { function_id, .. }) => function_id,
        PropagationEventKind::Compute(ComputeEvent::ControlFlowChanged { function_id }) => function_id,
    }
}

/// The deduplication fingerprint of an event kind.
pub open spec fn fingerprint_of(kind: PropagationEventKind) -> Seq<char> {
    match kind {
        PropagationEventKind::Semantic(SemanticEvent::FunctionCreated { function_id }) =>
            "semantic:create_fn:"@ + decimal_seq(function_id.0 as nat),
        PropagationEventKind::Semantic(SemanticEvent::FunctionSignatureChanged { function_id }) =>
            "semantic:sig_fn:"@ + decimal_seq(function_id.0 as nat),
        PropagationEventKind::Semantic(SemanticEvent::ContractAdded { function_id, contract_name }) =>
            "semantic:contract:"@ + decimal_seq(function_id.0 as nat) + ":"@ + contract_name@,
        PropagationEventKind::Compute(ComputeEvent::NodeInserted { function_id, node_id, op_kind }) =>
            "compute:insert:"@ + decimal_seq(function_id.0 as nat) + ":"@ + decimal_seq(node_id.0 as nat)
                + ":"@ + op_kind@,
        PropagationEventKind::Compute(ComputeEvent::NodeModified { function_id, node_id, op_kind }) =>
            "compute:modify:"@ + decimal_seq(function_id.0 as nat) + ":"@ + decimal_seq(node_id.0 as nat)
                + ":"@ + op_kind@,
        PropagationEventKind::Compute(ComputeEvent::NodeRemoved { function_id, node_id }) =>
            "compute:remove:"@ + decimal_seq(function_id.0 as nat) + ":"@ + decimal_seq(node_id.0 as nat),
        PropagationEventKind::Compute(ComputeEvent::ControlFlowChanged { function_id }) =>
            "compute:control:"@ + decimal_seq(function_id.0 as nat),
    }
}

/// The graph element an event refers to in conflict diagnostics: the node
/// for node-level compute events, the function otherwise.
pub open spec fn node_ref_of(kind: PropagationEventKind) -> u32 {
    match kind {
        PropagationEventKind::Compute(ComputeEvent::NodeInserted { node_id, .. }) => node_id.0,
        PropagationEventKind::Compute(ComputeEvent::NodeModified { node_id, .. }) => node_id.0,
        PropagationEventKind::Compute(ComputeEvent::NodeRemoved { node_id, .. }) => node_id.0,
        _ => event_function(kind).0,
    }
}

/// How a later event on the same function relates to an earlier one.
pub open spec fn conflict_class(previous: PropagationEventKind, current: PropagationEventKind) -> ConflictPriorityClass {
    match (previous, current) {
        (
            PropagationEventKind::Semantic(SemanticEvent::FunctionSignatureChanged { .. }),
            PropagationEventKind::Compute(ComputeEvent::NodeModified { .. }),
        ) => ConflictPriorityClass::DiagnosticRequired,
        (
            PropagationEventKind::Compute(ComputeEvent::NodeModified { .. }),
            PropagationEventKind::Semantic(SemanticEvent::FunctionSignatureChanged { .. }),
        ) => ConflictPriorityClass::DiagnosticRequired,
        (
            PropagationEventKind::Semantic(SemanticEvent::ContractAdded { .. }),
            PropagationEventKind::Compute(_),
        ) => ConflictPriorityClass::SemanticAuthoritative,
        (
            PropagationEventKind::Compute(ComputeEvent::NodeRemoved { .. }),
            PropagationEventKind::Semantic(_),
        ) => ConflictPriorityClass::ComputeAuthoritative,
        _ => ConflictPriorityClass::Mergeable,
    }
}

impl SemanticEvent {
    /// A copy of this event.
    pub fn duplicate(&self) -> (r: Self)
        ensures
            r == *self,
    {
        match self {
            SemanticEvent::FunctionCreated { function_id } => SemanticEvent::FunctionCreated {
                function_id: *function_id,
            },
            SemanticEvent::FunctionSignatureChanged { function_id } =>
                SemanticEvent::FunctionSignatureChanged { function_id: *function_id },
            SemanticEvent::ContractAdded { function_id, contract_name } =>
                SemanticEvent::ContractAdded {
                    function_id: *function_id,
                    contract_name: contract_name.clone(),
                },
        }
    }
}

impl ComputeEvent {
    /// A copy of this event.
    pub fn duplicate(&self) -> (r: Self)
        ensures
            r == *self,
    {
        match self {
            ComputeEvent::NodeInserted { function_id, node_id, op_kind } =>
                ComputeEvent::NodeInserted {
                    function_id: *function_id,
                    node_id: *node_id,
                    op_kind: op_kind.clone(),
                },
            ComputeEvent::NodeModified { function_id, node_id, op_kind } =>
                ComputeEvent::NodeModified {
                    function_id: *function_id,
                    node_id: *node_id,
                    op_kind: op_kind.clone(),
                },
            ComputeEvent::NodeRemoved { function_id, node_id } => ComputeEvent::NodeRemoved {
                function_id: *function_id,
                node_id: *node_id,
            },
            ComputeEvent::ControlFlowChanged { function_id } => ComputeEvent::ControlFlowChanged {
                function_id: *function_id,
            },
        }
    }
}

impl PropagationEventKind {
    /// A copy of this event kind.
    pub fn duplicate(&self) -> (r: Self)
        ensures
            r == *self,
    {
        match self {
            PropagationEventKind::Semantic(e) => PropagationEventKind::Semantic(e.duplicate()),
            PropagationEventKind::Compute(e) => PropagationEventKind::Compute(e.duplicate()),
        }
    }

    /// The function this event concerns.
    pub fn function_id(&self) -> (r: FunctionId)
        ensures
            r == event_function(*self),
    {
        match self {
            PropagationEventKind::Semantic(SemanticEvent::FunctionCreated { function_id }) => *function_id,
            PropagationEventKind::Semantic(SemanticEvent::FunctionSignatureChanged { function_id }) => *function_id,
            PropagationEventKind::Semantic(SemanticEvent::ContractAdded { function_id, .. }) => *function_id,
            PropagationEventKind::Compute(ComputeEvent::NodeInserted { function_id, .. }) => *function_id,
            PropagationEventKind::Compute(ComputeEvent::NodeModified { function_id, .. }) => *function_id,
            PropagationEventKind::Compute(ComputeEvent::NodeRemoved { function_id, .. }) => *function_id,
            PropagationEventKind::Compute(ComputeEvent::ControlFlowChanged { function_id }) => *function_id,
        }
    }

    /// The graph element this event refers to in conflict diagnostics.
    pub fn node_ref(&self) -> (r: u32)
        ensures
            r == node_ref_of(*self),
    {
        match self {
            PropagationEventKind::Compute(ComputeEvent::NodeInserted { node_id, .. }) => node_id.0,
            PropagationEventKind::Compute(ComputeEvent::NodeModified { node_id, .. }) => node_id.0,
            PropagationEventKind::Compute(ComputeEvent::NodeRemoved { node_id, .. }) => node_id.0,
            _ => self.function_id().0,
        }
    }
}

fn concat2(a: &str, b: &String) -> (r: String)
    ensures
        r@ == a@ + b@,
{
    let mut s = String::from_str(a);
    s.append(b.as_str());
    s
}

fn concat3(a: &str, b: &String, c: &str) -> (r: String)
    ensures
        r@ == a@ + b@ + c@,
{
    let mut s = String::from_str(a);
    s.append(b.as_str());
    s.append(c);
    s
}

impl PropagationEvent {
    /// Queue priority: semantic events (0) before compute events (1).
    pub fn priority(&self) -> (r: u8)
        ensures
            r == priority_of(self.kind),
    {
        match self.kind {
            PropagationEventKind::Semantic(_) => 0,
            PropagationEventKind::Compute(_) => 1,
        }
    }

    /// The deduplication fingerprint of this event, such as
    /// `semantic:create_fn:3` or `compute:insert:1:4:Parameter`.
    pub fn fingerprint(&self) -> (r: String)
        ensures
            r@ == fingerprint_of(self.kind),
    {
        match &self.kind {
            PropagationEventKind::Semantic(SemanticEvent::FunctionCreated { function_id }) => {
                let f = u64_to_decimal(function_id.0 as u64);
                concat2("semantic:create_fn:", &f)
            },
            PropagationEventKind::Semantic(SemanticEvent::FunctionSignatureChanged { function_id }) => {
                let f = u64_to_decimal(function_id.0 as u64);
                concat2("semantic:sig_fn:", &f)
            },
            PropagationEventKind::Semantic(SemanticEvent::ContractAdded { function_id, contract_name }) => {
                let f = u64_to_decimal(function_id.0 as u64);
                let mut s = concat3("semantic:contract:", &f, ":");
                s.append(contract_name.as_str());
                s
            },
            PropagationEventKind::Compute(ComputeEvent::NodeInserted { function_id, node_id, op_kind }) => {
                let f = u64_to_decimal(function_id.0 as u64);
                let n = u64_to_decimal(node_id.0 as u64);
                let mut s = concat3("compute:insert:", &f, ":");
                s.append(n.as_str());
                s.append(":");
                s.append(op_kind.as_str());
                s
            },
            PropagationEventKind::Compute(ComputeEvent::NodeModified { function_id, node_id, op_kind }) => {
                let f = u64_to_decimal(function_id.0 as u64);
                let n = u64_to_decimal(node_id.0 as u64);
                let mut s = concat3("compute:modify:", &f, ":");
                s.append(n.as_str());
                s.append(":");
                s.append(op_kind.as_str());
                s
            },
            PropagationEventKind::Compute(ComputeEvent::NodeRemoved { function_id, node_id }) => {
                let f = u64_to_decimal(function_id.0 as u64);
                let n = u64_to_decimal(node_id.0 as u64);
                let mut s = concat3("compute:remove:", &f, ":");
                s.append(n.as_str());
                s
            },
            PropagationEventKind::Compute(ComputeEvent::ControlFlowChanged { function_id }) => {
                let f = u64_to_decimal(function_id.0 as u64);
                concat2("compute:control:", &f)
            },
        }
    }

    /// The key of the graph element the event targets: `function:<id>`.
    pub fn target_key(&self) -> (r: String)
        ensures
            r@ == "function:"@ + decimal_seq(event_function(self.kind).0 as nat),
    {
        let f = u64_to_decimal(self.kind.function_id().0 as u64);
        concat2("function:", &f)
    }
}

/// Classifies the conflict between an earlier and a later event on the same
/// function: a signature change and a node modification need a diagnostic,
/// a contract addition overrides later compute events, a node removal
/// overrides later semantic events, and everything else merges.
pub fn classify_conflict(previous: &PropagationEventKind, current: &PropagationEventKind) -> (r:
    ConflictPriorityClass)
    ensures
        r == conflict_class(*previous, *current),
{
    match (previous, current) {
        (
            PropagationEventKind::Semantic(SemanticEvent::FunctionSignatureChanged { .. }),
            PropagationEventKind::Compute(ComputeEvent::NodeModified { .. }),
        ) => ConflictPriorityClass::DiagnosticRequired,
        (
            PropagationEventKind::Compute(ComputeEvent::NodeModified { .. }),
            PropagationEventKind::Semantic(SemanticEvent::FunctionSignatureChanged { .. }),
        ) => ConflictPriorityClass::DiagnosticRequired,
        (
            PropagationEventKind::Semantic(SemanticEvent::ContractAdded { .. }),
            PropagationEventKind::Compute(_),
        ) => ConflictPriorityClass::SemanticAuthoritative,
        (
            PropagationEventKind::Compute(ComputeEvent::NodeRemoved { .. }),
            PropagationEventKind::Semantic(_),
        ) => ConflictPriorityClass::ComputeAuthoritative,
        _ => ConflictPriorityClass::Mergeable,
    }
}

/// The conflict table: a signature change against a later node
/// modification (or the reverse) needs a diagnostic; an added contract
/// overrides every later compute event; a removed node overrides every later
/// semantic event; any other pair merges.
pub proof fn lemma_conflict_table(f: FunctionId, g: FunctionId, name: String, n: NodeId, op: String, c: ComputeEvent, sev: SemanticEvent)
    ensures
        conflict_class(
            PropagationEventKind::Semantic(SemanticEvent::FunctionSignatureChanged { function_id: f }),
            PropagationEventKind::Compute(ComputeEvent::NodeModified { function_id: g, node_id: n, op_kind: op }),
        ) == ConflictPriorityClass::DiagnosticRequired,
        conflict_class(
            PropagationEventKind::Compute(ComputeEvent::NodeModified { function_id: g, node_id: n, op_kind: op }),
            PropagationEventKind::Semantic(SemanticEvent::FunctionSignatureChanged { function_id: f }),
        ) == ConflictPriorityClass::DiagnosticRequired,
        conflict_class(
            PropagationEventKind::Semantic(SemanticEvent::ContractAdded { function_id: f, contract_name: name }),
            PropagationEventKind::Compute(c),
        ) == ConflictPriorityClass::SemanticAuthoritative,
        conflict_class(
            PropagationEventKind::Compute(ComputeEvent::NodeRemoved { function_id: g, node_id: n }),
            PropagationEventKind::Semantic(sev),
        ) == ConflictPriorityClass::ComputeAuthoritative,
        conflict_class(
            PropagationEventKind::Semantic(SemanticEvent::FunctionCreated { function_id: f }),
            PropagationEventKind::Compute(c),
        ) == ConflictPriorityClass::Mergeable,
        conflict_class(
            PropagationEventKind::Compute(ComputeEvent::NodeInserted { function_id: g, node_id: n, op_kind: op }),
            PropagationEventKind::Semantic(sev),
        ) == ConflictPriorityClass::Mergeable,
        conflict_class(
            PropagationEventKind::Semantic(sev),
            PropagationEventKind::Semantic(SemanticEvent::FunctionCreated { function_id: f }),
        ) == ConflictPriorityClass::Mergeable,
        conflict_class(
            PropagationEventKind::Compute(c),
            PropagationEventKind::Compute(ComputeEvent::NodeRemoved { function_id: g, node_id: n }),
        ) == ConflictPriorityClass::Mergeable,
{
}

/// A flush step never applies a compute-origin compute event to a function
/// whose last applied event added a contract: the event is skipped and the
/// applied events stay as they were.
pub proof fn lemma_contract_blocks_compute(st: FlushState, e: PropagationEvent, name: String, f: FunctionId, id: u64)
    requires
        e.kind is Compute,
        e.origin == PropagationLayer::Compute,
        st.last.contains_key(event_function(e.kind).0),
        st.last[event_function(e.kind).0] == (id, PropagationEventKind::Semantic(SemanticEvent::ContractAdded { function_id: f, contract_name: name })),
    ensures
        flush_step(st, e).applied == st.applied,
        flush_step(st, e).skipped == st.skipped + 1,
        flush_step(st, e).processed == st.processed + 1,
{
}

/// A flush step skips an event whose lineage holds its own id, and an event
/// whose fingerprint it has already seen, applying neither.
pub proof fn lemma_flush_skips_loops_and_repeats(st: FlushState, e: PropagationEvent)
    requires
        e.lineage@.contains(e.id) || st.seen.contains(fingerprint_of(e.kind)),
    ensures
        flush_step(st, e).applied == st.applied,
        flush_step(st, e).skipped == st.skipped + 1,
        flush_step(st, e).last == st.last,
{
}

/// A flush step never applies a semantic-origin semantic event to a
/// function whose last applied event removed a node: the event is skipped.
pub proof fn lemma_node_removal_blocks_semantic(st: FlushState, e: PropagationEvent, f: FunctionId, n: NodeId, id: u64)
    requires
        e.kind is Semantic,
        e.origin == PropagationLayer::Semantic,
        st.last.contains_key(event_function(e.kind).0),
        st.last[event_function(e.kind).0] == (id, PropagationEventKind::Compute(ComputeEvent::NodeRemoved { function_id: f, node_id: n })),
    ensures
        flush_step(st, e).applied == st.applied,
        flush_step(st, e).skipped == st.skipped + 1,
{
}

/// A node modification after a signature change on the same function (or
/// the reverse) is not applied: the flush records a conflict diagnostic
/// naming both events.
pub proof fn lemma_signature_conflict_reported(st: FlushState, e: PropagationEvent, f: FunctionId, g: FunctionId, n: NodeId, op: String, id: u64)
    requires
        !e.lineage@.contains(e.id),
        !st.seen.contains(fingerprint_of(e.kind)),
        st.last.contains_key(event_function(e.kind).0),
        ({
            let sig = PropagationEventKind::Semantic(SemanticEvent::FunctionSignatureChanged { function_id: f });
            let modi = PropagationEventKind::Compute(ComputeEvent::NodeModified { function_id: g, node_id: n, op_kind: op });
            ||| e.kind == modi && st.last[event_function(e.kind).0] == (id, sig)
            ||| e.kind == sig && st.last[event_function(e.kind).0] == (id, modi)
        }),
    ensures
        flush_step(st, e).applied == st.applied,
        flush_step(st, e).diagnostics.len() == st.diagnostics.len() + 1,
        flush_step(st, e).diagnostics.last().0 == e.id,
        flush_step(st, e).diagnostics.last().1 == id,
{
}

/// A flush step applies a semantic-origin event after an added contract on
/// the same function, unless it is a repeat or its own descendant.
pub proof fn lemma_contract_lets_semantic_through(st: FlushState, e: PropagationEvent, name: String, f: FunctionId, id: u64)
    requires
        e.kind is Compute,
        e.origin == PropagationLayer::Semantic,
        !e.lineage@.contains(e.id),
        !st.seen.contains(fingerprint_of(e.kind)),
        st.last.contains_key(event_function(e.kind).0),
        st.last[event_function(e.kind).0] == (id, PropagationEventKind::Semantic(SemanticEvent::ContractAdded { function_id: f, contract_name: name })),
    ensures
        flush_step(st, e).applied == st.applied.push(e),
{
}

/// Whether a sequence is strictly increasing.
pub open spec fn strictly_increasing(s: Seq<u32>) -> bool {
    forall|i: int, j: int| 0 <= i < j < s.len() ==> s[i] < s[j]
}

/// The distinct values of `values` in ascending order.
pub fn dedupe_u32(values: Vec<u32>) -> (r: Vec<u32>)
    ensures
        strictly_increasing(r@),
        r@.to_set() == values@.to_set(),
{
    let mut out: Vec<u32> = Vec::new();
    let mut i: usize = 0;
    while i < values.len()
        invariant
            i <= values@.len(),
            strictly_increasing(out@),
            out@.to_set() == values@.subrange(0, i as int).to_set(),
        decreases values@.len() - i,
    {
        let v = values[i];
        let mut j: usize = 0;
        while j < out.len() && out[j] < v
            invariant
                j <= out@.len(),
                forall|k: int| 0 <= k < j ==> out@[k] < v,
            decreases out@.len() - j,
        {
            j = j + 1;
        }
        let ghost before = out@;
        if j == out.len() || out[j] != v {
            out.insert(j, v);
            proof {
                assert forall|a: int, b: int| 0 <= a < b < out@.len() implies out@[a] < out@[b] by {
                    if b < j {
                    } else if a < j && b == j {
                    } else if a < j {
                        assert(out@[b] == before[b - 1]);
                        if j < before.len() {
                            assert(before[j as int] > v);
                            assert(before[j as int] <= before[b - 1]) by {
                                if j < b - 1 {}
                            }
                        }
                    } else if a == j {
                        assert(out@[b] == before[b - 1]);
                        if j < before.len() {
                            assert(before[j as int] > v);
                            assert(before[j as int] <= before[b - 1]) by {
                                if j < b - 1 {}
                            }
                        }
                    } else {
                        assert(out@[a] == before[a - 1]);
                        assert(out@[b] == before[b - 1]);
                    }
                }
                assert(out@.to_set() =~= before.to_set().insert(v)) by {
                    assert forall|x: u32| out@.to_set().contains(x) implies before.to_set().insert(v).contains(x) by {
                        let k = choose|k: int| 0 <= k < out@.len() && out@[k] == x;
                        if k < j {
                            assert(before[k] == x);
                        } else if k > j {
                            assert(before[k - 1] == x);
                        }
                    }
                    assert forall|x: u32| before.to_set().insert(v).contains(x) implies out@.to_set().contains(x) by {
                        if x == v {
                            assert(out@[j as int] == v);
                        } else {
                            let k = choose|k: int| 0 <= k < before.len() && before[k] == x;
                            if k < j {
                                assert(out@[k] == x);
                            } else {
                                assert(out@[k + 1] == x);
                            }
                        }
                    }
                }
            }
        } else {
            proof {
                assert(before.to_set().insert(v) =~= before.to_set()) by {
                    assert(before[j as int] == v);
                }
            }
        }
        proof {
            assert(values@.subrange(0, i + 1) =~= values@.subrange(0, i as int).push(v));
            assert(values@.subrange(0, i + 1).to_set() =~= values@.subrange(0, i as int).to_set().insert(v)) by {
                let s = values@.subrange(0, i as int);
                assert forall|x: u32| s.push(v).to_set().contains(x) <==> s.to_set().insert(v).contains(x) by {
                    if s.push(v).to_set().contains(x) {
                        let k = choose|k: int| 0 <= k < s.push(v).len() && s.push(v)[k] == x;
                        if k < s.len() {
                            assert(s[k] == x);
                        }
                    }
                    if s.to_set().contains(x) {
                        let k = choose|k: int| 0 <= k < s.len() && s[k] == x;
                        assert(s.push(v)[k] == x);
                    }
                    if x == v {
                        assert(s.push(v)[s.len() as int] == v);
                    }
                }
            }
        }
        i = i + 1;
    }
    proof {
        assert(values@.subrange(0, values@.len() as int) =~= values@);
    }
    out
}

/// The graph elements two conflicting events refer to, deduplicated and in
/// ascending order.
pub fn conflict_node_refs(previous: &PropagationEventKind, current: &PropagationEventKind) -> (r:
    Vec<u32>)
    ensures
        strictly_increasing(r@),
        r@.to_set() == set![node_ref_of(*previous), node_ref_of(*current)],
{
    let mut refs: Vec<u32> = Vec::new();
    refs.push(previous.node_ref());
    refs.push(current.node_ref());
    let r = dedupe_u32(refs);
    proof {
        assert(refs@ =~= seq![node_ref_of(*previous), node_ref_of(*current)]);
        assert(refs@.to_set() =~= set![node_ref_of(*previous), node_ref_of(*current)]) by {
            assert forall|x: u32| refs@.to_set().contains(x) <==> set![node_ref_of(*previous), node_ref_of(*current)].contains(x) by {
                if x == node_ref_of(*previous) { assert(refs@[0] == x); }
                if x == node_ref_of(*current) { assert(refs@[1] == x); }
            }
        }
    }
    r
}


/// Queue order: by priority, then sequence number, then event id.
pub open spec fn key_le(a: PropagationEvent, b: PropagationEvent) -> bool {
    ||| priority_of(a.kind) < priority_of(b.kind)
    ||| priority_of(a.kind) == priority_of(b.kind) && a.sequence < b.sequence
    ||| priority_of(a.kind) == priority_of(b.kind) && a.sequence == b.sequence && a.id <= b.id
}

/// `i` is the first position of a smallest event of `s` in queue order.
pub open spec fn is_first_min(s: Seq<PropagationEvent>, i: int) -> bool {
    &&& 0 <= i < s.len()
    &&& forall|j: int| 0 <= j < s.len() ==> key_le(s[i], #[trigger] s[j])
    &&& forall|j: int| 0 <= j < i ==> !key_le(#[trigger] s[j], s[i])
}

/// The first position of a smallest event of a non-empty queue.
pub open spec fn first_min(s: Seq<PropagationEvent>) -> int {
    choose|i: int| is_first_min(s, i)
}

proof fn lemma_first_min_unique(s: Seq<PropagationEvent>, i: int)
    requires
        is_first_min(s, i),
    ensures
        first_min(s) == i,
{
    let k = first_min(s);
    assert(is_first_min(s, k));
    if k < i {
        assert(key_le(s[k], s[i]));
    } else if k > i {
        assert(key_le(s[i], s[k]));
    }
}

/// The position of the event that a flush processes next: the first one of
/// smallest (priority, sequence, id).
pub fn select_next(pending: &Vec<PropagationEvent>) -> (i: usize)
    requires
        pending@.len() > 0,
    ensures
        is_first_min(pending@, i as int),
{
    let mut best: usize = 0;
    let mut j: usize = 1;
    while j < pending.len()
        invariant
            pending@.len() > 0,
            best < j <= pending@.len(),
            forall|k: int| 0 <= k < j ==> key_le(pending@[best as int], #[trigger] pending@[k]),
            forall|k: int| 0 <= k < best ==> !key_le(#[trigger] pending@[k], pending@[best as int]),
        decreases pending@.len() - j,
    {
        let a = &pending[j];
        let b = &pending[best];
        let pa = a.priority();
        let pb = b.priority();
        let less = pa < pb || (pa == pb && (a.sequence < b.sequence || (a.sequence == b.sequence && a.id < b.id)));
        if less {
            best = j;
        }
        j = j + 1;
    }
    best
}

/// The observable effect of a conflict diagnostic: the event it blocks, the
/// earlier event it conflicts with, and the graph elements both refer to.
pub open spec fn diagnostic_view(d: PropagationConflictDiagnostic) -> (u64, u64, Set<u32>) {
    (d.event_id, d.conflicting_event_id, d.node_refs@.to_set())
}

/// The reason recorded on every conflict diagnostic.
pub open spec fn conflict_reason() -> Seq<char> {
    "conflict requires explicit human/agent remediation"@
}

/// The remediation recorded on every conflict diagnostic.
pub open spec fn conflict_remediation() -> Seq<char> {
    "flush conflicting edits separately after semantic correction"@
}

/// The state of a flush in progress.
pub struct FlushState {
    /// Fingerprints of the events processed past the lineage check.
    pub seen: Seq<Seq<char>>,
    /// For each function, the id and kind of the last event applied to it.
    pub last: Map<u32, (u64, PropagationEventKind)>,
    /// The events to apply, in order.
    pub applied: Seq<PropagationEvent>,
    pub processed: nat,
    pub skipped: nat,
    pub diagnostics: Seq<(u64, u64, Set<u32>)>,
    pub limit_exceeded: bool,
}

/// The state before a flush processes any event.
pub open spec fn flush_start() -> FlushState {
    FlushState {
        seen: Seq::empty(),
        last: Map::empty(),
        applied: Seq::empty(),
        processed: 0,
        skipped: 0,
        diagnostics: Seq::empty(),
        limit_exceeded: false,
    }
}

/// `st` after counting one more processed event, with the given seen list.
pub open spec fn with_seen(st: FlushState, seen: Seq<Seq<char>>) -> FlushState {
    FlushState {
        seen,
        last: st.last,
        applied: st.applied,
        processed: st.processed + 1,
        skipped: st.skipped,
        diagnostics: st.diagnostics,
        limit_exceeded: st.limit_exceeded,
    }
}

/// `st` with one more skipped event.
pub open spec fn skip_one(st: FlushState) -> FlushState {
    FlushState { skipped: st.skipped + 1, ..st }
}

/// `st` with `e` applied and recorded as the last event on its function.
pub open spec fn apply_one(st: FlushState, e: PropagationEvent) -> FlushState {
    FlushState {
        applied: st.applied.push(e),
        last: st.last.insert(event_function(e.kind).0, (e.id, e.kind)),
        ..st
    }
}

/// One flush step on event `e`: events whose lineage contains their own id
/// and repeated fingerprints are skipped; otherwise the event is checked
/// against the last event applied to the same function, and applied,
/// skipped by the authoritative layer, or reported as a conflict.
pub open spec fn flush_step(st: FlushState, e: PropagationEvent) -> FlushState {
    let fp = fingerprint_of(e.kind);
    if e.lineage@.contains(e.id) {
        skip_one(with_seen(st, st.seen))
    } else if st.seen.contains(fp) {
        skip_one(with_seen(st, st.seen))
    } else {
        let st2 = with_seen(st, st.seen.push(fp));
        let f = event_function(e.kind).0;
        if st.last.contains_key(f) {
            let prev = st.last[f];
            match conflict_class(prev.1, e.kind) {
                ConflictPriorityClass::Mergeable => apply_one(st2, e),
                ConflictPriorityClass::SemanticAuthoritative => if e.origin == PropagationLayer::Compute {
                    skip_one(st2)
                } else {
                    apply_one(st2, e)
                },
                ConflictPriorityClass::ComputeAuthoritative => if e.origin == PropagationLayer::Semantic {
                    skip_one(st2)
                } else {
                    apply_one(st2, e)
                },
                ConflictPriorityClass::DiagnosticRequired => skip_one(
                    FlushState {
                        diagnostics: st2.diagnostics.push(
                            (e.id, prev.0, set![node_ref_of(prev.1), node_ref_of(e.kind)]),
                        ),
                        ..st2
                    },
                ),
            }
        } else {
            apply_one(st2, e)
        }
    }
}

/// Processes the pending events smallest first until none is left, or until
/// `limit` events were processed with events still pending.
pub open spec fn flush_run(pending: Seq<PropagationEvent>, st: FlushState, limit: nat) -> FlushState
    decreases pending.len(),
{
    if pending.len() == 0 {
        st
    } else if st.processed >= limit {
        FlushState { limit_exceeded: true, ..st }
    } else {
        let i = first_min(pending);
        if 0 <= i < pending.len() {
            flush_run(pending.remove(i), flush_step(st, pending[i]), limit)
        } else {
            st
        }
    }
}

/// The properties a flush keeps at every step.
pub open spec fn run_inv(st: FlushState, pending: Seq<PropagationEvent>) -> bool {
    let a = st.applied;
    &&& st.processed == a.len() + st.skipped
    &&& forall|i: int, j: int| 0 <= i < j < a.len() ==> fingerprint_of(#[trigger] a[i].kind) != fingerprint_of(#[trigger] a[j].kind)
    &&& forall|i: int| 0 <= i < a.len() ==> st.seen.contains(fingerprint_of(#[trigger] a[i].kind))
    &&& forall|i: int, j: int| 0 <= i < j < a.len() ==> key_le(#[trigger] a[i], #[trigger] a[j])
    &&& forall|i: int, k: int| 0 <= i < a.len() && 0 <= k < pending.len() ==> key_le(#[trigger] a[i], #[trigger] pending[k])
    &&& forall|i: int| 0 <= i < a.len() ==> !(#[trigger] a[i]).lineage@.contains(a[i].id)
}

proof fn lemma_step_keeps_inv(st: FlushState, pending: Seq<PropagationEvent>, i: int)
    requires
        run_inv(st, pending),
        is_first_min(pending, i),
    ensures
        run_inv(flush_step(st, pending[i]), pending.remove(i)),
        flush_step(st, pending[i]).processed == st.processed + 1,
{
    let e = pending[i];
    let st2 = flush_step(st, e);
    let rest = pending.remove(i);
    assert forall|k: int| 0 <= k < rest.len() implies key_le(e, #[trigger] rest[k]) by {
        if k < i {
            assert(rest[k] == pending[k]);
        } else {
            assert(rest[k] == pending[k + 1]);
        }
    }
    assert forall|j: int, k: int| 0 <= j < st.applied.len() && 0 <= k < rest.len() implies key_le(#[trigger] st.applied[j], #[trigger] rest[k]) by {
        if k < i {
            assert(rest[k] == pending[k]);
        } else {
            assert(rest[k] == pending[k + 1]);
        }
    }
    if st2.applied.len() > st.applied.len() {
        assert(st2.applied == st.applied.push(e));
        assert(!st.seen.contains(fingerprint_of(e.kind)));
        assert(st2.seen == st.seen.push(fingerprint_of(e.kind)));
        assert forall|j: int| 0 <= j < st2.applied.len() implies st2.seen.contains(fingerprint_of(#[trigger] st2.applied[j].kind)) by {
            if j < st.applied.len() {
                assert(st.seen.contains(fingerprint_of(st.applied[j].kind)));
                let w = choose|w: int| 0 <= w < st.seen.len() && st.seen[w] == fingerprint_of(st.applied[j].kind);
                assert(st2.seen[w] == st.seen[w]);
            } else {
                assert(st2.seen[st.seen.len() as int] == fingerprint_of(e.kind));
            }
        }
        assert forall|a: int, b: int| 0 <= a < b < st2.applied.len() implies fingerprint_of(#[trigger] st2.applied[a].kind) != fingerprint_of(#[trigger] st2.applied[b].kind) by {
            if b == st.applied.len() {
                assert(st.seen.contains(fingerprint_of(st.applied[a].kind)));
            }
        }
        assert forall|a: int, b: int| 0 <= a < b < st2.applied.len() implies key_le(#[trigger] st2.applied[a], #[trigger] st2.applied[b]) by {
            if b == st.applied.len() {
                assert(key_le(st.applied[a], pending[i]));
            }
        }
        assert forall|j: int, k: int| 0 <= j < st2.applied.len() && 0 <= k < rest.len() implies key_le(#[trigger] st2.applied[j], #[trigger] rest[k]) by {
            if j < st.applied.len() {
                assert(st2.applied[j] == st.applied[j]);
            }
        }
    } else {
        assert(st2.applied == st.applied);
        assert forall|j: int| 0 <= j < st2.applied.len() implies st2.seen.contains(fingerprint_of(#[trigger] st2.applied[j].kind)) by {
            assert(st.seen.contains(fingerprint_of(st.applied[j].kind)));
            let w = choose|w: int| 0 <= w < st.seen.len() && st.seen[w] == fingerprint_of(st.applied[j].kind);
            if st2.seen != st.seen {
                assert(st2.seen == st.seen.push(fingerprint_of(e.kind)));
                assert(st2.seen[w] == st.seen[w]);
            }
        }
    }
}

proof fn lemma_run_keeps_inv(pending: Seq<PropagationEvent>, st: FlushState, limit: nat)
    requires
        run_inv(st, pending),
    ensures
        run_inv(flush_run(pending, st, limit), Seq::empty()),
        !flush_run(pending, st, limit).limit_exceeded && !st.limit_exceeded ==> flush_run(pending, st, limit).processed
            == st.processed + pending.len(),
    decreases pending.len(),
{
    if pending.len() == 0 {
    } else if st.processed >= limit {
    } else {
        let i = first_min(pending);
        assert(exists|j: int| is_first_min(pending, j)) by {
            lemma_first_min_exists(pending);
        }
        assert(is_first_min(pending, i));
        lemma_step_keeps_inv(st, pending, i);
        lemma_run_keeps_inv(pending.remove(i), flush_step(st, pending[i]), limit);
    }
}

/// A flush applies at most as many events as were pending.
pub proof fn lemma_run_applied_bound(pending: Seq<PropagationEvent>, st: FlushState, limit: nat)
    ensures
        flush_run(pending, st, limit).applied.len() <= st.applied.len() + pending.len(),
    decreases pending.len(),
{
    if pending.len() == 0 {
    } else if st.processed >= limit {
    } else {
        let i = first_min(pending);
        if 0 <= i < pending.len() {
            assert(flush_step(st, pending[i]).applied.len() <= st.applied.len() + 1);
            lemma_run_applied_bound(pending.remove(i), flush_step(st, pending[i]), limit);
        }
    }
}

proof fn lemma_first_min_exists(s: Seq<PropagationEvent>)
    requires
        s.len() > 0,
    ensures
        exists|i: int| is_first_min(s, i),
    decreases s.len(),
{
    if s.len() == 1 {
        assert(is_first_min(s, 0));
    } else {
        let t = s.drop_last();
        lemma_first_min_exists(t);
        let i = choose|i: int| is_first_min(t, i);
        if key_le(t[i], s.last()) {
            assert forall|j: int| 0 <= j < s.len() implies key_le(s[i], #[trigger] s[j]) by {
                if j < t.len() {
                    assert(s[j] == t[j]);
                }
            }
            assert forall|j: int| 0 <= j < i implies !key_le(#[trigger] s[j], s[i]) by {
                assert(s[j] == t[j]);
            }
            assert(is_first_min(s, i));
        } else {
            let n = s.len() - 1;
            assert forall|j: int| 0 <= j < s.len() implies key_le(s[n], #[trigger] s[j]) by {
                if j < t.len() {
                    assert(s[j] == t[j]);
                    assert(key_le(t[i], t[j]));
                }
            }
            assert forall|j: int| 0 <= j < n implies !key_le(#[trigger] s[j], s[n]) by {
                assert(s[j] == t[j]);
                assert(key_le(t[i], t[j]));
            }
            assert(is_first_min(s, n));
        }
    }
}

/// Laws of a flush, from the start on any queue: every processed event is
/// either applied or skipped; unless the replay limit stopped it, every
/// queued event is processed; no two applied events share a fingerprint;
/// applied events come in queue order (priority, then sequence, then id);
/// and no applied event lists its own id in its lineage.
pub proof fn lemma_flush_laws(pending: Seq<PropagationEvent>, limit: nat)
    ensures
        ({
            let r = flush_run(pending, flush_start(), limit);
            &&& r.processed == r.applied.len() + r.skipped
            &&& !r.limit_exceeded ==> r.processed == pending.len()
            &&& forall|i: int, j: int| 0 <= i < j < r.applied.len()
                ==> fingerprint_of(#[trigger] r.applied[i].kind) != fingerprint_of(#[trigger] r.applied[j].kind)
            &&& forall|i: int, j: int| 0 <= i < j < r.applied.len() ==> key_le(#[trigger] r.applied[i], #[trigger] r.applied[j])
            &&& forall|i: int| 0 <= i < r.applied.len() ==> !(#[trigger] r.applied[i]).lineage@.contains(r.applied[i].id)
        }),
{
    lemma_run_keeps_inv(pending, flush_start(), limit);
}

/// A flush applies all semantic events before any compute event, and within
/// a layer by sequence number, then by id.
pub proof fn lemma_flush_semantic_first(pending: Seq<PropagationEvent>, limit: nat)
    ensures
        ({
            let a = flush_run(pending, flush_start(), limit).applied;
            &&& forall|i: int, j: int| 0 <= i < j < a.len() ==> !((#[trigger] a[i]).kind is Compute && (#[trigger] a[j]).kind is Semantic)
            &&& forall|i: int, j: int| 0 <= i < j < a.len() && (#[trigger] a[i]).kind is Semantic == (#[trigger] a[j]).kind is Semantic
                ==> a[i].sequence < a[j].sequence || (a[i].sequence == a[j].sequence && a[i].id <= a[j].id)
        }),
{
    lemma_flush_laws(pending, limit);
    let a = flush_run(pending, flush_start(), limit).applied;
    assert forall|i: int, j: int| 0 <= i < j < a.len() implies !((#[trigger] a[i]).kind is Compute && (#[trigger] a[j]).kind is Semantic) by {
        assert(key_le(a[i], a[j]));
    }
    assert forall|i: int, j: int| 0 <= i < j < a.len() && (#[trigger] a[i]).kind is Semantic == (#[trigger] a[j]).kind is Semantic
        implies a[i].sequence < a[j].sequence || (a[i].sequence == a[j].sequence && a[i].id <= a[j].id) by {
        assert(key_le(a[i], a[j]));
    }
}

/// The decisions of one flush of the propagation queue: the events to apply
/// in order, the processed and skipped counts, the conflict diagnostics,
/// and whether the replay limit stopped the flush with events left.
#[derive(Debug)]
pub struct FlushPlan {
    pub to_apply: Vec<PropagationEvent>,
    pub processed_events: usize,
    pub skipped_events: usize,
    pub diagnostics: Vec<PropagationConflictDiagnostic>,
    pub limit_exceeded: bool,
}

/// `plan` carries exactly the decisions of flush state `st`.
pub open spec fn plan_matches(plan: FlushPlan, st: FlushState) -> bool {
    &&& plan.to_apply@ == st.applied
    &&& plan.processed_events == st.processed
    &&& plan.skipped_events == st.skipped
    &&& plan.limit_exceeded == st.limit_exceeded
    &&& plan.diagnostics@.map_values(|d: PropagationConflictDiagnostic| diagnostic_view(d)) == st.diagnostics
    &&& forall|i: int| 0 <= i < plan.diagnostics@.len() ==> {
        let d = #[trigger] plan.diagnostics@[i];
        &&& d.precedence == ConflictPriorityClass::DiagnosticRequired
        &&& d.reason@ == conflict_reason()
        &&& d.remediation@ == conflict_remediation()
        &&& strictly_increasing(d.node_refs@)
    }
}

fn seen_contains(seen: &Vec<String>, fp: &String) -> (r: bool)
    ensures
        r == seen@.map_values(|s: String| s@).contains(fp@),
{
    let mut i: usize = 0;
    while i < seen.len()
        invariant
            i <= seen@.len(),
            forall|k: int| 0 <= k < i ==> seen@[k]@ != fp@,
        decreases seen@.len() - i,
    {
        if seen[i] == *fp {
            proof {
                assert(seen@.map_values(|s: String| s@)[i as int] == fp@);
            }
            return true;
        }
        i = i + 1;
    }
    proof {
        if seen@.map_values(|s: String| s@).contains(fp@) {
            let views = seen@.map_values(|s: String| s@);
            let k = choose|k: int| 0 <= k < views.len() && #[trigger] views[k] == fp@;
            assert(seen@[k]@ == fp@);
        }
    }
    false
}

fn lineage_contains(lineage: &Vec<u64>, id: u64) -> (r: bool)
    ensures
        r == lineage@.contains(id),
{
    let mut i: usize = 0;
    while i < lineage.len()
        invariant
            i <= lineage@.len(),
            forall|k: int| 0 <= k < i ==> lineage@[k] != id,
        decreases lineage@.len() - i,
    {
        if lineage[i] == id {
            return true;
        }
        i = i + 1;
    }
    false
}

fn conflict_diagnostic(event_id: u64, previous_id: u64, previous: &PropagationEventKind, current: &PropagationEventKind)
    -> (d: PropagationConflictDiagnostic)
    ensures
        diagnostic_view(d) == (event_id, previous_id, set![node_ref_of(*previous), node_ref_of(*current)]),
        d.precedence == ConflictPriorityClass::DiagnosticRequired,
        d.reason@ == conflict_reason(),
        d.remediation@ == conflict_remediation(),
        strictly_increasing(d.node_refs@),
{
    PropagationConflictDiagnostic {
        event_id,
        conflicting_event_id: previous_id,
        precedence: ConflictPriorityClass::DiagnosticRequired,
        reason: String::from_str("conflict requires explicit human/agent remediation"),
        node_refs: conflict_node_refs(previous, current),
        remediation: String::from_str("flush conflicting edits separately after semantic correction"),
    }
}

/// Decides one flush of `pending`: repeatedly takes the first event of
/// smallest (priority, sequence, id), skips events whose lineage contains
/// their own id and repeated fingerprints, and checks each remaining event
/// against the last event applied to its function. Stops with
/// `limit_exceeded` once `replay_limit` events were processed while events
/// remain.
pub fn plan_flush(pending: Vec<PropagationEvent>, replay_limit: usize) -> (plan: FlushPlan)
    ensures
        plan_matches(plan, flush_run(pending@, flush_start(), replay_limit as nat)),
{
    broadcast use vstd::std_specs::hash::group_hash_axioms;
    let ghost orig = pending@;
    let mut pending = pending;
    let mut seen: Vec<String> = Vec::new();
    let mut last: std::collections::HashMap<u32, (u64, PropagationEventKind)> = std::collections::HashMap::new();
    let mut to_apply: Vec<PropagationEvent> = Vec::new();
    let mut processed: usize = 0;
    let mut skipped: usize = 0;
    let mut diagnostics: Vec<PropagationConflictDiagnostic> = Vec::new();
    let mut limit_exceeded = false;
    let ghost mut st = flush_start();
    proof {
        assert(seen@.map_values(|s: String| s@) =~= st.seen);
        assert(diagnostics@.map_values(|d: PropagationConflictDiagnostic| diagnostic_view(d)) =~= st.diagnostics);
    }
    while pending.len() > 0 && !limit_exceeded
        invariant
            flush_run(pending@, st, replay_limit as nat) == flush_run(orig, flush_start(), replay_limit as nat),
            limit_exceeded ==> st.limit_exceeded && flush_run(pending@, st, replay_limit as nat) == st,
            !limit_exceeded ==> !st.limit_exceeded,
            seen@.map_values(|s: String| s@) == st.seen,
            last@ == st.last,
            processed + pending@.len() <= orig.len(),
            skipped <= processed,
            plan_matches(
                FlushPlan { to_apply, processed_events: processed, skipped_events: skipped, diagnostics, limit_exceeded },
                st,
            ),
        decreases pending@.len(), (if limit_exceeded { 0int } else { 1int }),
    {
        if processed >= replay_limit {
            limit_exceeded = true;
            proof {
                st = FlushState { limit_exceeded: true, ..st };
            }
        } else {
            let idx = select_next(&pending);
            proof {
                lemma_first_min_unique(pending@, idx as int);
            }
            let ghost before = pending@;
            let event = pending.remove(idx);
            let ghost st_old = st;
            proof {
                st = flush_step(st, event);
            }
            processed = processed + 1;
            if lineage_contains(&event.lineage, event.id) {
                skipped = skipped + 1;
            } else {
                let fp = event.fingerprint();
                if seen_contains(&seen, &fp) {
                    skipped = skipped + 1;
                } else {
                    let ghost seen_before = seen@;
                    seen.push(fp);
                    proof {
                        assert(seen@.map_values(|s: String| s@) =~= seen_before.map_values(|s: String| s@).push(fingerprint_of(event.kind)));
                    }
                    let f = event.kind.function_id().0;
                    let mut apply = true;
                    match last.get(&f) {
                        Some(prev) => {
                            let class = classify_conflict(&prev.1, &event.kind);
                            match class {
                                ConflictPriorityClass::Mergeable => {},
                                ConflictPriorityClass::SemanticAuthoritative => {
                                    if event.origin == PropagationLayer::Compute {
                                        apply = false;
                                        skipped = skipped + 1;
                                    }
                                },
                                ConflictPriorityClass::ComputeAuthoritative => {
                                    if event.origin == PropagationLayer::Semantic {
                                        apply = false;
                                        skipped = skipped + 1;
                                    }
                                },
                                ConflictPriorityClass::DiagnosticRequired => {
                                    let d = conflict_diagnostic(event.id, prev.0, &prev.1, &event.kind);
                                    let ghost diags_before = diagnostics@;
                                    diagnostics.push(d);
                                    proof {
                                        assert(diagnostics@.map_values(|d: PropagationConflictDiagnostic| diagnostic_view(d))
                                            =~= diags_before.map_values(|d: PropagationConflictDiagnostic| diagnostic_view(d)).push(diagnostic_view(d)));
                                    }
                                    apply = false;
                                    skipped = skipped + 1;
                                },
                            }
                        },
                        None => {},
                    }
                    if apply {
                        let kind_copy = event.kind.duplicate();
                        last.insert(f, (event.id, kind_copy));
                        to_apply.push(event);
                    }
                }
            }
            proof {
                assert(before.remove(idx as int) == pending@);
            }
        }
    }
    FlushPlan { to_apply, processed_events: processed, skipped_events: skipped, diagnostics, limit_exceeded }
}


/// The pending propagation events of a program graph (explicit-flush
/// model), with the counters that number new events.
#[derive(Debug, Clone)]
pub struct PropagationQueue {
    queue: Vec<PropagationEvent>,
    next_propagation_event_id: u64,
    next_propagation_sequence: u64,
    propagation_replay_limit: usize,
}

impl PropagationQueue {
    /// The pending events, in queue order.
    pub closed spec fn queue_view(&self) -> Seq<PropagationEvent> {
        self.queue@
    }

    /// The id the next enqueued event receives.
    pub closed spec fn next_id_view(&self) -> u64 {
        self.next_propagation_event_id
    }

    /// The sequence number the next enqueued event receives.
    pub closed spec fn next_sequence_view(&self) -> u64 {
        self.next_propagation_sequence
    }

    /// How many events one flush may process.
    pub closed spec fn replay_limit_view(&self) -> usize {
        self.propagation_replay_limit
    }

    /// The id and the sequence number the next enqueued event receives.
    pub fn counters(&self) -> (r: (u64, u64))
        ensures
            r == (self.next_id_view(), self.next_sequence_view()),
    {
        (self.next_propagation_event_id, self.next_propagation_sequence)
    }

    /// An empty queue numbering events from 1, with the default replay limit.
    pub fn new() -> (q: Self)
        ensures
            q.queue_view().len() == 0,
            q.next_id_view() == 1,
            q.next_sequence_view() == 1,
            q.replay_limit_view() == 1024,
    {
        PropagationQueue {
            queue: Vec::new(),
            next_propagation_event_id: default_next_propagation_event_id(),
            next_propagation_sequence: default_next_propagation_sequence(),
            propagation_replay_limit: default_propagation_replay_limit(),
        }
    }

    /// Appends an event with the next id and sequence number and an empty
    /// lineage, and returns its id.
    pub fn enqueue_propagation(&mut self, origin: PropagationLayer, kind: PropagationEventKind) -> (id: u64)
        requires
            old(self).next_id_view() < u64::MAX,
            old(self).next_sequence_view() < u64::MAX,
        ensures
            id == old(self).next_id_view(),
            final(self).next_id_view() == old(self).next_id_view() + 1,
            final(self).next_sequence_view() == old(self).next_sequence_view() + 1,
            final(self).replay_limit_view() == old(self).replay_limit_view(),
            final(self).queue_view().len() == old(self).queue_view().len() + 1,
            final(self).queue_view().subrange(0, old(self).queue_view().len() as int) == old(self).queue_view(),
            ({
                let e = final(self).queue_view().last();
                &&& e.id == id
                &&& e.sequence == old(self).next_sequence_view()
                &&& e.origin == origin
                &&& e.kind == kind
                &&& e.lineage@.len() == 0
            }),
    {
        let event_id = self.next_propagation_event_id;
        let sequence = self.next_propagation_sequence;
        self.next_propagation_event_id = self.next_propagation_event_id + 1;
        self.next_propagation_sequence = self.next_propagation_sequence + 1;
        self.queue.push(PropagationEvent { id: event_id, sequence, origin, kind, lineage: Vec::new() });
        proof {
            assert(self.queue@.subrange(0, old(self).queue@.len() as int) =~= old(self).queue@);
        }
        event_id
    }

    /// Removes all pending events.
    pub fn clear_propagation_queue(&mut self)
        ensures
            final(self).queue_view().len() == 0,
            final(self).next_id_view() == old(self).next_id_view(),
            final(self).next_sequence_view() == old(self).next_sequence_view(),
            final(self).replay_limit_view() == old(self).replay_limit_view(),
    {
        self.queue.clear();
    }

    /// The pending events in queue order.
    pub fn pending_propagation_events(&self) -> (r: &[PropagationEvent])
        ensures
            r@ == self.queue_view(),
    {
        self.queue.as_slice()
    }

    /// Takes every pending event and decides the flush over them; the queue
    /// is left empty. An empty queue gives an empty plan.
    pub fn plan_flush_propagation(&mut self) -> (plan: FlushPlan)
        ensures
            plan_matches(plan, flush_run(old(self).queue_view(), flush_start(), old(self).replay_limit_view() as nat)),
            final(self).queue_view().len() == 0,
            final(self).next_id_view() == old(self).next_id_view(),
            final(self).next_sequence_view() == old(self).next_sequence_view(),
            final(self).replay_limit_view() == old(self).replay_limit_view(),
    {
        let mut pending = Vec::new();
        std::mem::swap(&mut pending, &mut self.queue);
        plan_flush(pending, self.propagation_replay_limit)
    }

    /// The error a flush reports when it stops at the replay limit:
    /// `flush exceeded replay limit (<limit>)`.
    pub fn replay_limit_error(&self) -> (e: CoreError)
        ensures
            e matches CoreError::PropagationLoopDetected { reason } && reason@ == "flush exceeded replay limit ("@
                + decimal_seq(self.replay_limit_view() as nat) + ")"@,
    {
        let n = u64_to_decimal(self.propagation_replay_limit as u64);
        CoreError::PropagationLoopDetected { reason: concat3("flush exceeded replay limit (", &n, ")") }
    }
}

/// Assembles the report of a completed flush from its plan, the number of
/// events actually applied, and the semantic and summary nodes the applied
/// events refreshed (deduplicated and sorted).
pub fn flush_report(plan: FlushPlan, applied_events: usize, refreshed_semantic_nodes: Vec<u32>, refreshed_summary_nodes: Vec<u32>)
    -> (r: PropagationFlushReport)
    ensures
        r.processed_events == plan.processed_events,
        r.applied_events == applied_events,
        r.skipped_events == plan.skipped_events,
        r.generated_events == 0,
        r.remaining_queue == 0,
        strictly_increasing(r.refreshed_semantic_nodes@),
        r.refreshed_semantic_nodes@.to_set() == refreshed_semantic_nodes@.to_set(),
        strictly_increasing(r.refreshed_summary_nodes@),
        r.refreshed_summary_nodes@.to_set() == refreshed_summary_nodes@.to_set(),
        r.diagnostics@ == plan.diagnostics@,
{
    PropagationFlushReport {
        processed_events: plan.processed_events,
        applied_events,
        skipped_events: plan.skipped_events,
        generated_events: 0,
        remaining_queue: 0,
        refreshed_semantic_nodes: dedupe_u32(refreshed_semantic_nodes),
        refreshed_summary_nodes: dedupe_u32(refreshed_summary_nodes),
        diagnostics: plan.diagnostics,
    }
}

} // verus!
