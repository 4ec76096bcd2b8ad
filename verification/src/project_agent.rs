//! Project-scoped agent sessions: assignment of an agent to a program, its
//! run state, its chat transcript and the execution evidence of its
//! autonomous runs.
//!
//! Timestamps are decimal seconds since the UNIX epoch. The `_at` variants
//! of the operations take that time as an argument; the others read the
//! clock.

use vstd::prelude::*;
use crate::autonomy::{
    attempts_view, clone_attempts, execution_status_name, opt_stop, stop_reason_code_name,
    ActionResultView, AttemptView, AutonomyActionExecutionResult, AutonomyActionStatus,
    AutonomyExecutionAttemptSummary, AutonomyExecutionOutcome, AutonomyExecutionStatus,
    OutcomeView, StopReason, StopReasonCode, StopReasonView,
};
use crate::clock::unix_seconds;
use crate::lock_manager::AgentId;
use crate::text::{
    cat, cat3, chars_of, clone_opt, decimal_seq, lemma_lex_asymmetric, lemma_lex_irreflexive,
    lemma_lex_total, lemma_lex_transitive, lex_less, lex_lt, opt_view, str_eq, u64_to_decimal,
};

verus! {

/// One entry of a session transcript.
#[derive(Debug, Clone, PartialEq, Eq)]
pub struct ProjectAgentMessage {
    pub role: String,
    pub content: String,
    pub timestamp: String,
}

/// The abstract value of a transcript entry.
pub struct MessageView {
    pub role: Seq<char>,
    pub content: Seq<char>,
    pub timestamp: Seq<char>,
}

impl View for ProjectAgentMessage {
    type V = MessageView;

    open spec fn view(&self) -> MessageView {
        MessageView { role: self.role@, content: self.content@, timestamp: self.timestamp@ }
    }
}

/// A transcript entry.
pub open spec fn message(role: Seq<char>, content: Seq<char>, t: Seq<char>) -> MessageView {
    MessageView { role, content, timestamp: t }
}

impl ProjectAgentMessage {
    /// A field-by-field copy.
    pub fn duplicate(&self) -> (r: Self)
        ensures
            r == *self,
    {
        ProjectAgentMessage {
            role: self.role.clone(),
            content: self.content.clone(),
            timestamp: self.timestamp.clone(),
        }
    }
}

/// The views of a transcript.
pub open spec fn transcript_view(s: Seq<ProjectAgentMessage>) -> Seq<MessageView> {
    s.map_values(|m: ProjectAgentMessage| m@)
}

fn clone_messages(v: &Vec<ProjectAgentMessage>) -> (r: Vec<ProjectAgentMessage>)
    ensures
        r@ == v@,
{
    let mut out: Vec<ProjectAgentMessage> = Vec::new();
    let n = v.len();
    for i in 0..n
        invariant
            n == v.len(),
            out@ == v@.subrange(0, i as int),
    {
        out.push(v[i].duplicate());
        assert(out@ =~= v@.subrange(0, i + 1));
    }
    assert(out@ =~= v@);
    out
}

/// Runtime state of one `(program, agent)` assignment.
#[derive(Debug, Clone, PartialEq)]
pub struct ProjectAgentSession {
    pub program_id: i64,
    pub agent_id: AgentId,
    pub name: Option<String>,
    pub run_status: String,
    pub active_goal: Option<String>,
    pub assigned_at: String,
    pub started_at: Option<String>,
    pub stopped_at: Option<String>,
    pub updated_at: String,
    pub transcript: Vec<ProjectAgentMessage>,
    pub stop_reason: Option<StopReason>,
    pub execution: Option<AutonomyExecutionOutcome>,
    pub execution_attempts: Vec<AutonomyExecutionAttemptSummary>,
}

/// The abstract value of a session.
pub struct SessionView {
    pub program_id: i64,
    pub agent_id: u128,
    pub name: Option<Seq<char>>,
    pub run_status: Seq<char>,
    pub active_goal: Option<Seq<char>>,
    pub assigned_at: Seq<char>,
    pub started_at: Option<Seq<char>>,
    pub stopped_at: Option<Seq<char>>,
    pub updated_at: Seq<char>,
    pub transcript: Seq<MessageView>,
    pub stop_reason: Option<StopReasonView>,
    pub execution: Option<OutcomeView>,
    pub execution_attempts: Seq<AttemptView>,
}

/// The view of an optional outcome.
pub open spec fn opt_outcome(o: Option<AutonomyExecutionOutcome>) -> Option<OutcomeView> {
    match o {
        Some(x) => Some(x@),
        None => None,
    }
}

impl View for ProjectAgentSession {
    type V = SessionView;

    open spec fn view(&self) -> SessionView {
        SessionView {
            program_id: self.program_id,
            agent_id: self.agent_id.0,
            name: opt_view(self.name),
            run_status: self.run_status@,
            active_goal: opt_view(self.active_goal),
            assigned_at: self.assigned_at@,
            started_at: opt_view(self.started_at),
            stopped_at: opt_view(self.stopped_at),
            updated_at: self.updated_at@,
            transcript: transcript_view(self.transcript@),
            stop_reason: opt_stop(self.stop_reason),
            execution: opt_outcome(self.execution),
            execution_attempts: attempts_view(self.execution_attempts@),
        }
    }
}

fn clone_opt_outcome(o: &Option<AutonomyExecutionOutcome>) -> (r: Option<AutonomyExecutionOutcome>)
    ensures
        opt_outcome(r) == opt_outcome(*o),
{
    match o {
        Some(x) => Some(x.duplicate()),
        None => None,
    }
}

fn clone_opt_stop(o: &Option<StopReason>) -> (r: Option<StopReason>)
    ensures
        opt_stop(r) == opt_stop(*o),
{
    match o {
        Some(s) => Some(s.duplicate()),
        None => None,
    }
}

/// The helper context for a targeted repair retry: the latest failed
/// action that carries diagnostics or an error, with its attempt numbers.
#[derive(Debug, Clone, PartialEq)]
pub struct LatestExecutionDiagnosticsContext {
    pub attempt: u32,
    pub max_attempts: u32,
    pub action: AutonomyActionExecutionResult,
}

/// Whether an action result is a failure that carries evidence.
pub open spec fn has_failure_evidence(a: ActionResultView) -> bool {
    a.status == AutonomyActionStatus::Failed && (a.diagnostics is Some || a.error is Some)
}

/// The position of the last of the first `n` results that is a failure
/// with evidence (-1 if there is none).
pub open spec fn last_evidence_in(rs: Seq<ActionResultView>, n: nat) -> int
    decreases n,
{
    if n == 0 {
        -1
    } else if has_failure_evidence(rs[n - 1]) {
        n - 1
    } else {
        last_evidence_in(rs, (n - 1) as nat)
    }
}

/// The latest (attempt position, action position) with failure evidence
/// among the first `n` attempts.
pub open spec fn latest_evidence_in(atts: Seq<AttemptView>, n: nat) -> Option<(int, int)>
    decreases n,
{
    if n == 0 {
        None
    } else {
        let j = last_evidence_in(atts[n - 1].action_results, atts[n - 1].action_results.len());
        if j >= 0 {
            Some(((n - 1) as int, j))
        } else {
            latest_evidence_in(atts, (n - 1) as nat)
        }
    }
}

impl ProjectAgentSession {
    /// A field-by-field copy.
    pub fn duplicate(&self) -> (r: Self)
        ensures
            r@ == self@,
    {
        let transcript = clone_messages(&self.transcript);
        let r = ProjectAgentSession {
            program_id: self.program_id,
            agent_id: self.agent_id,
            name: clone_opt(&self.name),
            run_status: self.run_status.clone(),
            active_goal: clone_opt(&self.active_goal),
            assigned_at: self.assigned_at.clone(),
            started_at: clone_opt(&self.started_at),
            stopped_at: clone_opt(&self.stopped_at),
            updated_at: self.updated_at.clone(),
            transcript,
            stop_reason: clone_opt_stop(&self.stop_reason),
            execution: clone_opt_outcome(&self.execution),
            execution_attempts: clone_attempts(&self.execution_attempts),
        };
        assert(transcript_view(r.transcript@) =~= transcript_view(self.transcript@));
        r
    }

    /// The latest failed action with diagnostics or an error, searching the
    /// attempts from the last one and each attempt's actions from the last.
    pub fn latest_execution_diagnostics(&self) -> (r: Option<LatestExecutionDiagnosticsContext>)
        ensures
            match latest_evidence_in(self@.execution_attempts, self@.execution_attempts.len()) {
                None => r is None,
                Some((ai, j)) => r matches Some(c) && c.attempt == self@.execution_attempts[ai].attempt
                    && c.max_attempts == self@.execution_attempts[ai].max_attempts
                    && c.action@ == self@.execution_attempts[ai].action_results[j],
            },
    {
        let n = self.execution_attempts.len();
        let mut i = n;
        while i > 0
            invariant
                i <= n,
                n == self.execution_attempts.len(),
                latest_evidence_in(self@.execution_attempts, n as nat)
                    == latest_evidence_in(self@.execution_attempts, i as nat),
            decreases i,
        {
            let attempt = &self.execution_attempts[i - 1];
            assert(self@.execution_attempts[i - 1] == attempt@);
            let m = attempt.action_results.len();
            let mut k = m;
            while k > 0
                invariant
                    k <= m,
                    0 < i <= n,
                    n == self.execution_attempts.len(),
                    self@.execution_attempts[i - 1] == attempt@,
                    latest_evidence_in(self@.execution_attempts, n as nat)
                        == latest_evidence_in(self@.execution_attempts, i as nat),
                    m == attempt.action_results.len(),
                    last_evidence_in(attempt@.action_results, m as nat)
                        == last_evidence_in(attempt@.action_results, k as nat),
                decreases k,
            {
                let a = &attempt.action_results[k - 1];
                assert(attempt@.action_results[k - 1] == a@);
                if a.status == AutonomyActionStatus::Failed && (a.diagnostics.is_some() || a.error.is_some()) {
                    return Some(LatestExecutionDiagnosticsContext {
                        attempt: attempt.attempt,
                        max_attempts: attempt.max_attempts,
                        action: a.duplicate(),
                    });
                }
                k = k - 1;
            }
            i = i - 1;
        }
        None
    }
}

// ----- the session operations, over views -----

/// The text of the error for a `(program, agent)` pair with no session.
pub open spec fn not_assigned_text() -> Seq<char> {
    "agent is not assigned to this project"@
}

/// A freshly assigned session.
pub open spec fn fresh_session(program_id: i64, agent_id: u128, name: Option<Seq<char>>, t: Seq<char>) -> SessionView {
    SessionView {
        program_id,
        agent_id,
        name,
        run_status: "idle"@,
        active_goal: None,
        assigned_at: t,
        started_at: None,
        stopped_at: None,
        updated_at: t,
        transcript: Seq::empty(),
        stop_reason: None,
        execution: None,
        execution_attempts: Seq::empty(),
    }
}

/// A session assigned again: only its name and update time change.
pub open spec fn renamed(s: SessionView, name: Option<Seq<char>>, t: Seq<char>) -> SessionView {
    SessionView { name, updated_at: t, ..s }
}

/// A session whose build was started with `goal`.
pub open spec fn started(s: SessionView, goal: Seq<char>, t: Seq<char>) -> SessionView {
    SessionView {
        run_status: "running"@,
        active_goal: Some(goal),
        started_at: Some(t),
        stopped_at: None,
        stop_reason: None,
        execution: None,
        execution_attempts: Seq::empty(),
        updated_at: t,
        transcript: s.transcript.push(message("system"@, "Build started: "@ + goal, t)),
        ..s
    }
}

/// The detail recorded when a build is stopped.
pub open spec fn stop_detail(reason: Option<Seq<char>>) -> Seq<char> {
    match reason {
        Some(r) => r,
        None => "no reason provided"@,
    }
}

/// A session whose build was stopped by the operator.
pub open spec fn stopped(s: SessionView, reason: Option<Seq<char>>, t: Seq<char>) -> SessionView {
    let detail = stop_detail(reason);
    SessionView {
        run_status: "stopped"@,
        stopped_at: Some(t),
        stop_reason: Some(StopReasonView { code: StopReasonCode::OperatorStopped, message: detail, detail: None }),
        updated_at: t,
        transcript: s.transcript.push(message("system"@, "Build stopped: "@ + detail, t)),
        ..s
    }
}

/// A session whose run status was set to `status`, with an optional note.
pub open spec fn with_status(s: SessionView, status: Seq<char>, note: Option<Seq<char>>, t: Seq<char>) -> SessionView {
    let stopped_at = if status == "stopped"@ {
        Some(t)
    } else if status == "running"@ {
        None
    } else {
        s.stopped_at
    };
    let stop_reason = if status != "stopped"@ && status == "running"@ {
        None
    } else {
        s.stop_reason
    };
    let started_at = if status != "stopped"@ && status == "running"@ && s.started_at is None {
        Some(t)
    } else {
        s.started_at
    };
    let transcript = match note {
        Some(n) => s.transcript.push(message("system"@, n, t)),
        None => s.transcript,
    };
    SessionView { run_status: status, stopped_at, stop_reason, started_at, updated_at: t, transcript, ..s }
}

/// A session with one more transcript entry.
pub open spec fn with_message(s: SessionView, role: Seq<char>, content: Seq<char>, t: Seq<char>) -> SessionView {
    SessionView { transcript: s.transcript.push(message(role, content, t)), updated_at: t, ..s }
}

/// The canned reply to a chat message, by run state.
pub open spec fn chat_base_reply(s: SessionView) -> Seq<char> {
    if s.run_status == "running"@ {
        match s.active_goal {
            Some(goal) => "Acknowledged. Continuing work on '"@ + goal
                + "'. Next step: inspect graph state and apply a safe mutation batch."@,
            None => "Acknowledged. Build is running; collecting context before proposing edits."@,
        }
    } else if s.run_status == "stopped"@ {
        "Agent is stopped. Start the build run before requesting new work."@
    } else {
        "Agent is idle. Start a run to begin building, then continue chat for iteration."@
    }
}

/// The reply to a chat message: the override if any, else the canned
/// reply with the action note appended if any.
pub open spec fn chat_reply(s: SessionView, action_note: Option<Seq<char>>, assistant_override: Option<Seq<char>>) -> Seq<char> {
    match assistant_override {
        Some(custom) => custom,
        None => match action_note {
            Some(note) => chat_base_reply(s) + "\n\nAction result: "@ + note,
            None => chat_base_reply(s),
        },
    }
}

/// A session after a chat exchange: the user's message at `t1`, the
/// reply at `t2`.
pub open spec fn chatted(s: SessionView, user: Seq<char>, reply: Seq<char>, t1: Seq<char>, t2: Seq<char>) -> SessionView {
    SessionView {
        transcript: s.transcript.push(message("user"@, user, t1)).push(message("assistant"@, reply, t2)),
        updated_at: t2,
        ..s
    }
}

/// The transcript note recording an execution attempt.
pub open spec fn attempt_note(a: AttemptView) -> Seq<char> {
    "Execution attempt "@ + decimal_seq(a.attempt as nat) + "/"@ + decimal_seq(a.max_attempts as nat)
        + " recorded ("@ + decimal_seq(a.action_count as nat) + " action(s), "@
        + decimal_seq(a.succeeded_actions as nat) + " succeeded)."@
}

/// A session with one more execution attempt recorded.
pub open spec fn with_attempt(s: SessionView, a: AttemptView, t: Seq<char>) -> SessionView {
    SessionView {
        execution_attempts: s.execution_attempts.push(a),
        updated_at: t,
        transcript: s.transcript.push(message("system"@, attempt_note(a), t)),
        ..s
    }
}

/// The transcript note recording an execution outcome.
pub open spec fn outcome_note(o: OutcomeView) -> Seq<char> {
    "Autonomous execution "@ + execution_status_name(o.status) + ": ["@
        + stop_reason_code_name(o.stop_reason.code) + "] "@ + o.stop_reason.message
}

/// A session with an execution outcome recorded; a failed outcome stops
/// the run.
pub open spec fn with_outcome(s: SessionView, o: OutcomeView, t: Seq<char>) -> SessionView {
    let failed = o.status == AutonomyExecutionStatus::Failed;
    SessionView {
        stop_reason: Some(o.stop_reason),
        execution_attempts: o.attempts,
        execution: Some(o),
        run_status: if failed { "stopped"@ } else { s.run_status },
        stopped_at: if failed { Some(t) } else { s.stopped_at },
        updated_at: t,
        transcript: s.transcript.push(message("system"@, outcome_note(o), t)),
        ..s
    }
}

/// The key of a session.
pub open spec fn key_of(s: SessionView) -> (i64, u128) {
    (s.program_id, s.agent_id)
}

/// No two sessions share a key.
pub open spec fn keys_unique(ss: Seq<SessionView>) -> bool {
    forall|i: int, j: int| 0 <= i < j < ss.len() ==> key_of(ss[i]) != key_of(ss[j])
}

/// The position of the last of the first `n` sessions with key `k`
/// (-1 if there is none).
pub open spec fn position_in(ss: Seq<SessionView>, k: (i64, u128), n: nat) -> int
    decreases n,
{
    if n == 0 {
        -1
    } else if key_of(ss[n - 1]) == k {
        n - 1
    } else {
        position_in(ss, k, (n - 1) as nat)
    }
}

/// The position of the session with key `k` (-1 if there is none).
pub open spec fn position(ss: Seq<SessionView>, k: (i64, u128)) -> int {
    position_in(ss, k, ss.len())
}

proof fn lemma_position_in(ss: Seq<SessionView>, k: (i64, u128), n: nat)
    requires
        n <= ss.len(),
    ensures
        -1 <= position_in(ss, k, n) < n,
        position_in(ss, k, n) >= 0 ==> key_of(ss[position_in(ss, k, n)]) == k,
        position_in(ss, k, n) == -1 ==> forall|i: int| 0 <= i < n ==> key_of(#[trigger] ss[i]) != k,
    decreases n,
{
    if n > 0 {
        lemma_position_in(ss, k, (n - 1) as nat);
    }
}

/// The session with key `k` is found where it stands, and is absent only
/// if no session has that key.
pub proof fn lemma_position(ss: Seq<SessionView>, k: (i64, u128))
    requires
        keys_unique(ss),
    ensures
        -1 <= position(ss, k) < ss.len(),
        position(ss, k) >= 0 ==> key_of(ss[position(ss, k)]) == k,
        position(ss, k) == -1 <==> forall|i: int| 0 <= i < ss.len() ==> key_of(#[trigger] ss[i]) != k,
        forall|i: int| 0 <= i < ss.len() && key_of(#[trigger] ss[i]) == k ==> position(ss, k) == i,
{
    lemma_position_in(ss, k, ss.len());
}

/// Manages the project-agent sessions of a server process.
pub struct ProjectAgentManager {
    sessions: Vec<ProjectAgentSession>,
}

impl ProjectAgentManager {
    /// The sessions, in assignment order.
    pub closed spec fn sessions(&self) -> Seq<SessionView> {
        self.sessions@.map_values(|s: ProjectAgentSession| s@)
    }

    /// Well-formedness: one session per `(program, agent)` pair.
    pub open spec fn wf(&self) -> bool {
        keys_unique(self.sessions())
    }

    /// A manager with no sessions.
    pub fn new() -> (r: Self)
        ensures
            r.wf(),
            r.sessions() == Seq::<SessionView>::empty(),
    {
        let r = ProjectAgentManager { sessions: Vec::new() };
        assert(r.sessions() =~= Seq::<SessionView>::empty());
        r
    }

    fn find(&self, program_id: i64, agent_id: u128) -> (r: Option<usize>)
        requires
            self.wf(),
        ensures
            match r {
                Some(i) => i == position(self.sessions(), (program_id, agent_id)) && i < self.sessions().len(),
                None => position(self.sessions(), (program_id, agent_id)) == -1,
            },
    {
        let ghost ss = self.sessions();
        let ghost k = (program_id, agent_id);
        let n = self.sessions.len();
        let mut i = n;
        while i > 0
            invariant
                i <= n,
                n == self.sessions@.len(),
                ss == self.sessions(),
                k == (program_id, agent_id),
                position(ss, k) == position_in(ss, k, i as nat),
            decreases i,
        {
            let s = &self.sessions[i - 1];
            assert(ss[i - 1] == s@);
            assert(key_of(ss[i - 1]) == (s.program_id, s.agent_id.0));
            if s.program_id == program_id && s.agent_id.0 == agent_id {
                assert(position_in(ss, k, i as nat) == i - 1);
                return Some(i - 1);
            }
            assert(position_in(ss, k, i as nat) == position_in(ss, k, (i - 1) as nat));
            i = i - 1;
        }
        None
    }

    fn replace_at(&mut self, i: usize, s: ProjectAgentSession)
        requires
            old(self).wf(),
            i < old(self).sessions().len(),
            key_of(s@) == key_of(old(self).sessions()[i as int]),
        ensures
            final(self).wf(),
            final(self).sessions() == old(self).sessions().update(i as int, s@),
    {
        let ghost before = self.sessions();
        self.sessions.set(i, s);
        assert(self.sessions() =~= before.update(i as int, s@));
    }

    /// Assigns an agent to a program at time `now`: a new idle session, or
    /// the existing one renamed. Returns the session.
    pub fn assign_at(&mut self, program_id: i64, agent_id: AgentId, name: Option<String>, now: u64) -> (r: ProjectAgentSession)
        requires
            old(self).wf(),
        ensures
            final(self).wf(),
            ({
                let ss = old(self).sessions();
                let i = position(ss, (program_id, agent_id.0));
                let t = decimal_seq(now as nat);
                if i >= 0 {
                    &&& final(self).sessions() == ss.update(i, renamed(ss[i], opt_view(name), t))
                    &&& r@ == renamed(ss[i], opt_view(name), t)
                } else {
                    &&& final(self).sessions() == ss.push(fresh_session(program_id, agent_id.0, opt_view(name), t))
                    &&& r@ == fresh_session(program_id, agent_id.0, opt_view(name), t)
                }
            }),
    {
        proof {
            lemma_position(self.sessions(), (program_id, agent_id.0));
        }
        let t = u64_to_decimal(now);
        match self.find(program_id, agent_id.0) {
            Some(i) => {
                let mut s = self.sessions[i].duplicate();
                s.name = name;
                s.updated_at = t;
                let out = s.duplicate();
                self.replace_at(i, s);
                out
            },
            None => {
                let s = ProjectAgentSession {
                    program_id,
                    agent_id,
                    name,
                    run_status: String::from_str("idle"),
                    active_goal: None,
                    assigned_at: t.clone(),
                    started_at: None,
                    stopped_at: None,
                    updated_at: t,
                    transcript: Vec::new(),
                    stop_reason: None,
                    execution: None,
                    execution_attempts: Vec::new(),
                };
                assert(transcript_view(s.transcript@) =~= Seq::<MessageView>::empty());
                assert(attempts_view(s.execution_attempts@) =~= Seq::<AttemptView>::empty());
                let out = s.duplicate();
                let ghost before = self.sessions();
                self.sessions.push(s);
                assert(self.sessions() =~= before.push(out@));
                out
            },
        }
    }

    /// The session of `(program_id, agent_id)`, if the agent is assigned.
    pub fn get(&self, program_id: i64, agent_id: AgentId) -> (r: Option<ProjectAgentSession>)
        requires
            self.wf(),
        ensures
            ({
                let i = position(self.sessions(), (program_id, agent_id.0));
                &&& r is Some <==> i >= 0
                &&& r matches Some(s) ==> s@ == self.sessions()[i]
            }),
    {
        match self.find(program_id, agent_id.0) {
            Some(i) => {
                assert(self.sessions()[i as int] == self.sessions@[i as int]@);
                Some(self.sessions[i].duplicate())
            },
            None => None,
        }
    }

    /// Starts a build run with `goal` at time `now`.
    pub fn start_at(&mut self, program_id: i64, agent_id: AgentId, goal: String, now: u64)
        -> (r: Result<ProjectAgentSession, String>)
        requires
            old(self).wf(),
        ensures
            final(self).wf(),
            ({
                let ss = old(self).sessions();
                let i = position(ss, (program_id, agent_id.0));
                if i >= 0 {
                    let s = started(ss[i], goal@, decimal_seq(now as nat));
                    &&& final(self).sessions() == ss.update(i, s)
                    &&& r matches Ok(x) && x@ == s
                } else {
                    &&& final(self).sessions() == ss
                    &&& r matches Err(e) && e@ == not_assigned_text()
                }
            }),
    {
        proof {
            lemma_position(self.sessions(), (program_id, agent_id.0));
        }
        match self.find(program_id, agent_id.0) {
            None => Err(String::from_str("agent is not assigned to this project")),
            Some(i) => {
                let t = u64_to_decimal(now);
                let ghost old_s = self.sessions()[i as int];
                let mut s = self.sessions[i].duplicate();
                s.run_status = String::from_str("running");
                s.active_goal = Some(goal.clone());
                s.started_at = Some(t.clone());
                s.stopped_at = None;
                s.stop_reason = None;
                s.execution = None;
                s.execution_attempts = Vec::new();
                s.updated_at = t.clone();
                let content = cat("Build started: ", goal.as_str());
                let ghost tr = s.transcript@;
                s.transcript.push(ProjectAgentMessage { role: String::from_str("system"), content, timestamp: t });
                assert(transcript_view(s.transcript@) =~= transcript_view(tr).push(
                    message("system"@, "Build started: "@ + goal@, decimal_seq(now as nat)),
                ));
                assert(attempts_view(s.execution_attempts@) =~= Seq::<AttemptView>::empty());
                assert(s@ == started(old_s, goal@, decimal_seq(now as nat)));
                let out = s.duplicate();
                self.replace_at(i, s);
                Ok(out)
            },
        }
    }

    /// Stops the build run at time `now`, recording the operator's reason.
    pub fn stop_at(&mut self, program_id: i64, agent_id: AgentId, reason: Option<String>, now: u64)
        -> (r: Result<ProjectAgentSession, String>)
        requires
            old(self).wf(),
        ensures
            final(self).wf(),
            ({
                let ss = old(self).sessions();
                let i = position(ss, (program_id, agent_id.0));
                if i >= 0 {
                    let s = stopped(ss[i], opt_view(reason), decimal_seq(now as nat));
                    &&& final(self).sessions() == ss.update(i, s)
                    &&& r matches Ok(x) && x@ == s
                } else {
                    &&& final(self).sessions() == ss
                    &&& r matches Err(e) && e@ == not_assigned_text()
                }
            }),
    {
        proof {
            lemma_position(self.sessions(), (program_id, agent_id.0));
        }
        match self.find(program_id, agent_id.0) {
            None => Err(String::from_str("agent is not assigned to this project")),
            Some(i) => {
                let t = u64_to_decimal(now);
                let ghost old_s = self.sessions()[i as int];
                let detail = match reason {
                    Some(r) => r,
                    None => String::from_str("no reason provided"),
                };
                let mut s = self.sessions[i].duplicate();
                s.run_status = String::from_str("stopped");
                s.stopped_at = Some(t.clone());
                s.stop_reason = Some(StopReason::new(StopReasonCode::OperatorStopped, detail.as_str()));
                s.updated_at = t.clone();
                let content = cat("Build stopped: ", detail.as_str());
                let ghost tr = s.transcript@;
                s.transcript.push(ProjectAgentMessage { role: String::from_str("system"), content, timestamp: t });
                assert(transcript_view(s.transcript@) =~= transcript_view(tr).push(
                    message("system"@, "Build stopped: "@ + detail@, decimal_seq(now as nat)),
                ));
                assert(s@ == stopped(old_s, opt_view(reason), decimal_seq(now as nat)));
                let out = s.duplicate();
                self.replace_at(i, s);
                Ok(out)
            },
        }
    }

    /// Sets the run status at time `now`, with an optional system note.
    pub fn set_run_status_at(
        &mut self,
        program_id: i64,
        agent_id: AgentId,
        run_status: &str,
        note: Option<String>,
        now: u64,
    ) -> (r: Result<ProjectAgentSession, String>)
        requires
            old(self).wf(),
        ensures
            final(self).wf(),
            ({
                let ss = old(self).sessions();
                let i = position(ss, (program_id, agent_id.0));
                if i >= 0 {
                    let s = with_status(ss[i], run_status@, opt_view(note), decimal_seq(now as nat));
                    &&& final(self).sessions() == ss.update(i, s)
                    &&& r matches Ok(x) && x@ == s
                } else {
                    &&& final(self).sessions() == ss
                    &&& r matches Err(e) && e@ == not_assigned_text()
                }
            }),
    {
        proof {
            lemma_position(self.sessions(), (program_id, agent_id.0));
        }
        match self.find(program_id, agent_id.0) {
            None => Err(String::from_str("agent is not assigned to this project")),
            Some(i) => {
                let t = u64_to_decimal(now);
                let ghost old_s = self.sessions()[i as int];
                let mut s = self.sessions[i].duplicate();
                s.run_status = String::from_str(run_status);
                if str_eq(run_status, "stopped") {
                    s.stopped_at = Some(t.clone());
                } else if str_eq(run_status, "running") {
                    s.stopped_at = None;
                    s.stop_reason = None;
                    if s.started_at.is_none() {
                        s.started_at = Some(t.clone());
                    }
                }
                s.updated_at = t.clone();
                let ghost tr = s.transcript@;
                match note {
                    Some(n) => {
                        s.transcript.push(ProjectAgentMessage { role: String::from_str("system"), content: n, timestamp: t });
                        assert(transcript_view(s.transcript@) =~= transcript_view(tr).push(
                            message("system"@, n@, decimal_seq(now as nat)),
                        ));
                    },
                    None => {},
                }
                assert(s@ == with_status(old_s, run_status@, opt_view(note), decimal_seq(now as nat)));
                let out = s.duplicate();
                self.replace_at(i, s);
                Ok(out)
            },
        }
    }

    /// Appends a transcript entry at time `now`.
    pub fn append_message_at(&mut self, program_id: i64, agent_id: AgentId, role: &str, content: String, now: u64)
        -> (r: Result<ProjectAgentSession, String>)
        requires
            old(self).wf(),
        ensures
            final(self).wf(),
            ({
                let ss = old(self).sessions();
                let i = position(ss, (program_id, agent_id.0));
                if i >= 0 {
                    let s = with_message(ss[i], role@, content@, decimal_seq(now as nat));
                    &&& final(self).sessions() == ss.update(i, s)
                    &&& r matches Ok(x) && x@ == s
                } else {
                    &&& final(self).sessions() == ss
                    &&& r matches Err(e) && e@ == not_assigned_text()
                }
            }),
    {
        proof {
            lemma_position(self.sessions(), (program_id, agent_id.0));
        }
        match self.find(program_id, agent_id.0) {
            None => Err(String::from_str("agent is not assigned to this project")),
            Some(i) => {
                let t = u64_to_decimal(now);
                let ghost old_s = self.sessions()[i as int];
                let mut s = self.sessions[i].duplicate();
                let ghost tr = s.transcript@;
                let ghost c = content@;
                s.transcript.push(ProjectAgentMessage { role: String::from_str(role), content, timestamp: t.clone() });
                assert(transcript_view(s.transcript@) =~= transcript_view(tr).push(
                    message(role@, c, decimal_seq(now as nat)),
                ));
                s.updated_at = t;
                assert(s@ == with_message(old_s, role@, c, decimal_seq(now as nat)));
                let out = s.duplicate();
                self.replace_at(i, s);
                Ok(out)
            },
        }
    }

    /// Records a chat exchange: the user's message at `now`, the reply at
    /// `reply_now`. Returns the session and the reply.
    pub fn chat_at(
        &mut self,
        program_id: i64,
        agent_id: AgentId,
        user_message: String,
        action_note: Option<String>,
        assistant_override: Option<String>,
        now: u64,
        reply_now: u64,
    ) -> (r: Result<(ProjectAgentSession, String), String>)
        requires
            old(self).wf(),
        ensures
            final(self).wf(),
            ({
                let ss = old(self).sessions();
                let i = position(ss, (program_id, agent_id.0));
                if i >= 0 {
                    let reply = chat_reply(ss[i], opt_view(action_note), opt_view(assistant_override));
                    let s = chatted(ss[i], user_message@, reply, decimal_seq(now as nat), decimal_seq(reply_now as nat));
                    &&& final(self).sessions() == ss.update(i, s)
                    &&& r matches Ok((x, y)) && x@ == s && y@ == reply
                } else {
                    &&& final(self).sessions() == ss
                    &&& r matches Err(e) && e@ == not_assigned_text()
                }
            }),
    {
        proof {
            lemma_position(self.sessions(), (program_id, agent_id.0));
        }
        match self.find(program_id, agent_id.0) {
            None => Err(String::from_str("agent is not assigned to this project")),
            Some(i) => {
                let t = u64_to_decimal(now);
                let ghost old_s = self.sessions()[i as int];
                let mut s = self.sessions[i].duplicate();
                let ghost tr = s.transcript@;
                let ghost um = user_message@;
                s.transcript.push(ProjectAgentMessage { role: String::from_str("user"), content: user_message, timestamp: t });
                let base_reply = if str_eq(s.run_status.as_str(), "running") {
                    match &s.active_goal {
                        Some(goal) => cat3(
                            "Acknowledged. Continuing work on '",
                            goal.as_str(),
                            "'. Next step: inspect graph state and apply a safe mutation batch.",
                        ),
                        None => String::from_str(
                            "Acknowledged. Build is running; collecting context before proposing edits.",
                        ),
                    }
                } else if str_eq(s.run_status.as_str(), "stopped") {
                    String::from_str("Agent is stopped. Start the build run before requesting new work.")
                } else {
                    String::from_str("Agent is idle. Start a run to begin building, then continue chat for iteration.")
                };
                assert(base_reply@ == chat_base_reply(old_s));
                let reply = match assistant_override {
                    Some(custom) => custom,
                    None => match action_note {
                        Some(note) => cat3(base_reply.as_str(), "\n\nAction result: ", note.as_str()),
                        None => base_reply,
                    },
                };
                assert(reply@ == chat_reply(old_s, opt_view(action_note), opt_view(assistant_override)));
                let reply_ts = u64_to_decimal(reply_now);
                s.transcript.push(ProjectAgentMessage {
                    role: String::from_str("assistant"),
                    content: reply.clone(),
                    timestamp: reply_ts.clone(),
                });
                s.updated_at = reply_ts;
                assert(transcript_view(s.transcript@) =~= transcript_view(tr).push(
                    message("user"@, um, decimal_seq(now as nat)),
                ).push(message("assistant"@, reply@, decimal_seq(reply_now as nat))));
                assert(s@ == chatted(old_s, um, reply@, decimal_seq(now as nat), decimal_seq(reply_now as nat)));
                let out = s.duplicate();
                self.replace_at(i, s);
                Ok((out, reply))
            },
        }
    }

    /// Records an execution attempt at time `now`.
    pub fn append_execution_attempt_at(
        &mut self,
        program_id: i64,
        agent_id: AgentId,
        attempt: AutonomyExecutionAttemptSummary,
        now: u64,
    ) -> (r: Result<ProjectAgentSession, String>)
        requires
            old(self).wf(),
        ensures
            final(self).wf(),
            ({
                let ss = old(self).sessions();
                let i = position(ss, (program_id, agent_id.0));
                if i >= 0 {
                    let s = with_attempt(ss[i], attempt@, decimal_seq(now as nat));
                    &&& final(self).sessions() == ss.update(i, s)
                    &&& r matches Ok(x) && x@ == s
                } else {
                    &&& final(self).sessions() == ss
                    &&& r matches Err(e) && e@ == not_assigned_text()
                }
            }),
    {
        proof {
            lemma_position(self.sessions(), (program_id, agent_id.0));
        }
        match self.find(program_id, agent_id.0) {
            None => Err(String::from_str("agent is not assigned to this project")),
            Some(i) => {
                let t = u64_to_decimal(now);
                let ghost old_s = self.sessions()[i as int];
                let mut s = self.sessions[i].duplicate();
                let note = attempt_text(&attempt);
                let ghost av = attempt@;
                let ghost atts = s.execution_attempts@;
                s.execution_attempts.push(attempt);
                assert(attempts_view(s.execution_attempts@) =~= attempts_view(atts).push(av));
                s.updated_at = t.clone();
                let ghost tr = s.transcript@;
                s.transcript.push(ProjectAgentMessage { role: String::from_str("system"), content: note, timestamp: t });
                assert(transcript_view(s.transcript@) =~= transcript_view(tr).push(
                    message("system"@, attempt_note(av), decimal_seq(now as nat)),
                ));
                assert(s@ == with_attempt(old_s, av, decimal_seq(now as nat)));
                let out = s.duplicate();
                self.replace_at(i, s);
                Ok(out)
            },
        }
    }

    /// Records the execution outcome at time `now`; a failed outcome stops
    /// the run.
    pub fn set_execution_outcome_at(
        &mut self,
        program_id: i64,
        agent_id: AgentId,
        outcome: AutonomyExecutionOutcome,
        now: u64,
    ) -> (r: Result<ProjectAgentSession, String>)
        requires
            old(self).wf(),
        ensures
            final(self).wf(),
            ({
                let ss = old(self).sessions();
                let i = position(ss, (program_id, agent_id.0));
                if i >= 0 {
                    let s = with_outcome(ss[i], outcome@, decimal_seq(now as nat));
                    &&& final(self).sessions() == ss.update(i, s)
                    &&& r matches Ok(x) && x@ == s
                } else {
                    &&& final(self).sessions() == ss
                    &&& r matches Err(e) && e@ == not_assigned_text()
                }
            }),
    {
        proof {
            lemma_position(self.sessions(), (program_id, agent_id.0));
        }
        match self.find(program_id, agent_id.0) {
            None => Err(String::from_str("agent is not assigned to this project")),
            Some(i) => {
                let t = u64_to_decimal(now);
                let ghost old_s = self.sessions()[i as int];
                let ghost ov = outcome@;
                let mut s = self.sessions[i].duplicate();
                let note = outcome_text(&outcome);
                let failed = outcome.status == AutonomyExecutionStatus::Failed;
                s.stop_reason = Some(outcome.stop_reason.duplicate());
                s.execution_attempts = clone_attempts(&outcome.attempts);
                s.execution = Some(outcome);
                if failed {
                    s.run_status = String::from_str("stopped");
                    s.stopped_at = Some(t.clone());
                }
                s.updated_at = t.clone();
                let ghost tr = s.transcript@;
                s.transcript.push(ProjectAgentMessage { role: String::from_str("system"), content: note, timestamp: t });
                assert(transcript_view(s.transcript@) =~= transcript_view(tr).push(
                    message("system"@, outcome_note(ov), decimal_seq(now as nat)),
                ));
                assert(s@ == with_outcome(old_s, ov, decimal_seq(now as nat)));
                let out = s.duplicate();
                self.replace_at(i, s);
                Ok(out)
            },
        }
    }

    /// Assigns an agent to a program at the current time (see
    /// [`Self::assign_at`]).
    pub fn assign(&mut self, program_id: i64, agent_id: AgentId, name: Option<String>) -> (r: ProjectAgentSession)
        requires
            old(self).wf(),
        ensures
            final(self).wf(),
            ({
                let ss = old(self).sessions();
                let i = position(ss, (program_id, agent_id.0));
                if i >= 0 {
                    &&& r@ == renamed(ss[i], opt_view(name), r@.updated_at)
                    &&& final(self).sessions() == ss.update(i, r@)
                } else {
                    &&& r@ == fresh_session(program_id, agent_id.0, opt_view(name), r@.updated_at)
                    &&& final(self).sessions() == ss.push(r@)
                }
            }),
    {
        let now = unix_seconds();
        self.assign_at(program_id, agent_id, name, now)
    }

    /// Starts a build run at the current time (see [`Self::start_at`]).
    pub fn start(&mut self, program_id: i64, agent_id: AgentId, goal: String) -> (r: Result<ProjectAgentSession, String>)
        requires
            old(self).wf(),
        ensures
            final(self).wf(),
            ({
                let ss = old(self).sessions();
                let i = position(ss, (program_id, agent_id.0));
                if i >= 0 {
                    &&& r matches Ok(x) && x@ == started(ss[i], goal@, x@.updated_at)
                        && final(self).sessions() == ss.update(i, x@)
                } else {
                    &&& final(self).sessions() == ss
                    &&& r matches Err(e) && e@ == not_assigned_text()
                }
            }),
    {
        let now = unix_seconds();
        self.start_at(program_id, agent_id, goal, now)
    }

    /// Stops the build run at the current time (see [`Self::stop_at`]).
    pub fn stop(&mut self, program_id: i64, agent_id: AgentId, reason: Option<String>) -> (r: Result<ProjectAgentSession, String>)
        requires
            old(self).wf(),
        ensures
            final(self).wf(),
            ({
                let ss = old(self).sessions();
                let i = position(ss, (program_id, agent_id.0));
                if i >= 0 {
                    &&& r matches Ok(x) && x@ == stopped(ss[i], opt_view(reason), x@.updated_at)
                        && final(self).sessions() == ss.update(i, x@)
                } else {
                    &&& final(self).sessions() == ss
                    &&& r matches Err(e) && e@ == not_assigned_text()
                }
            }),
    {
        let now = unix_seconds();
        self.stop_at(program_id, agent_id, reason, now)
    }

    /// Sets the run status at the current time (see
    /// [`Self::set_run_status_at`]).
    pub fn set_run_status(&mut self, program_id: i64, agent_id: AgentId, run_status: &str, note: Option<String>)
        -> (r: Result<ProjectAgentSession, String>)
        requires
            old(self).wf(),
        ensures
            final(self).wf(),
            ({
                let ss = old(self).sessions();
                let i = position(ss, (program_id, agent_id.0));
                if i >= 0 {
                    &&& r matches Ok(x) && x@ == with_status(ss[i], run_status@, opt_view(note), x@.updated_at)
                        && final(self).sessions() == ss.update(i, x@)
                } else {
                    &&& final(self).sessions() == ss
                    &&& r matches Err(e) && e@ == not_assigned_text()
                }
            }),
    {
        let now = unix_seconds();
        self.set_run_status_at(program_id, agent_id, run_status, note, now)
    }

    /// Appends a transcript entry at the current time (see
    /// [`Self::append_message_at`]).
    pub fn append_message(&mut self, program_id: i64, agent_id: AgentId, role: &str, content: String)
        -> (r: Result<ProjectAgentSession, String>)
        requires
            old(self).wf(),
        ensures
            final(self).wf(),
            ({
                let ss = old(self).sessions();
                let i = position(ss, (program_id, agent_id.0));
                if i >= 0 {
                    &&& r matches Ok(x) && x@ == with_message(ss[i], role@, content@, x@.updated_at)
                        && final(self).sessions() == ss.update(i, x@)
                } else {
                    &&& final(self).sessions() == ss
                    &&& r matches Err(e) && e@ == not_assigned_text()
                }
            }),
    {
        let now = unix_seconds();
        self.append_message_at(program_id, agent_id, role, content, now)
    }

    /// Records a chat exchange at the current time (see [`Self::chat_at`]).
    pub fn chat(
        &mut self,
        program_id: i64,
        agent_id: AgentId,
        user_message: String,
        action_note: Option<String>,
        assistant_override: Option<String>,
    ) -> (r: Result<(ProjectAgentSession, String), String>)
        requires
            old(self).wf(),
        ensures
            final(self).wf(),
            ({
                let ss = old(self).sessions();
                let i = position(ss, (program_id, agent_id.0));
                if i >= 0 {
                    &&& r matches Ok((x, y)) && y@ == chat_reply(ss[i], opt_view(action_note), opt_view(assistant_override))
                        && x@ == chatted(ss[i], user_message@, y@,
                            x@.transcript[ss[i].transcript.len() as int].timestamp, x@.updated_at)
                        && final(self).sessions() == ss.update(i, x@)
                } else {
                    &&& final(self).sessions() == ss
                    &&& r matches Err(e) && e@ == not_assigned_text()
                }
            }),
    {
        let now = unix_seconds();
        let reply_now = unix_seconds();
        self.chat_at(program_id, agent_id, user_message, action_note, assistant_override, now, reply_now)
    }

    /// Records an execution attempt at the current time (see
    /// [`Self::append_execution_attempt_at`]).
    pub fn append_execution_attempt(&mut self, program_id: i64, agent_id: AgentId, attempt: AutonomyExecutionAttemptSummary)
        -> (r: Result<ProjectAgentSession, String>)
        requires
            old(self).wf(),
        ensures
            final(self).wf(),
            ({
                let ss = old(self).sessions();
                let i = position(ss, (program_id, agent_id.0));
                if i >= 0 {
                    &&& r matches Ok(x) && x@ == with_attempt(ss[i], attempt@, x@.updated_at)
                        && final(self).sessions() == ss.update(i, x@)
                } else {
                    &&& final(self).sessions() == ss
                    &&& r matches Err(e) && e@ == not_assigned_text()
                }
            }),
    {
        let now = unix_seconds();
        self.append_execution_attempt_at(program_id, agent_id, attempt, now)
    }

    /// Records the execution outcome at the current time (see
    /// [`Self::set_execution_outcome_at`]).
    pub fn set_execution_outcome(&mut self, program_id: i64, agent_id: AgentId, outcome: AutonomyExecutionOutcome)
        -> (r: Result<ProjectAgentSession, String>)
        requires
            old(self).wf(),
        ensures
            final(self).wf(),
            ({
                let ss = old(self).sessions();
                let i = position(ss, (program_id, agent_id.0));
                if i >= 0 {
                    &&& r matches Ok(x) && x@ == with_outcome(ss[i], outcome@, x@.updated_at)
                        && final(self).sessions() == ss.update(i, x@)
                } else {
                    &&& final(self).sessions() == ss
                    &&& r matches Err(e) && e@ == not_assigned_text()
                }
            }),
    {
        let now = unix_seconds();
        self.set_execution_outcome_at(program_id, agent_id, outcome, now)
    }
}

/// Whether session `i` is listed before session `j` in a program's
/// listing: the later update time first, and of two equal times the
/// later-assigned session first.
pub open spec fn listed_before(ss: Seq<SessionView>, i: int, j: int) -> bool {
    lex_lt(ss[j].updated_at, ss[i].updated_at) || (ss[i].updated_at == ss[j].updated_at && i > j)
}

/// `ix` is sorted by [`listed_before`].
pub open spec fn listing_sorted(ss: Seq<SessionView>, ix: Seq<int>) -> bool {
    forall|a: int, b: int| 0 <= a < b < ix.len() ==> listed_before(ss, #[trigger] ix[a], #[trigger] ix[b])
}

/// `ix` lists, in listing order, exactly the positions of the sessions of
/// `program_id`, each once.
pub open spec fn is_program_listing(ss: Seq<SessionView>, program_id: i64, ix: Seq<int>) -> bool {
    &&& ix.no_duplicates()
    &&& forall|k: int| 0 <= k < ix.len() ==> 0 <= #[trigger] ix[k] < ss.len() && ss[ix[k]].program_id == program_id
    &&& forall|i: int| 0 <= i < ss.len() && (#[trigger] ss[i]).program_id == program_id ==> ix.contains(i)
    &&& listing_sorted(ss, ix)
}

/// The listing order is transitive.
pub proof fn lemma_listed_before_transitive(ss: Seq<SessionView>, x: int, y: int, z: int)
    requires
        listed_before(ss, x, y),
        listed_before(ss, y, z),
    ensures
        listed_before(ss, x, z),
{
    if lex_lt(ss[y].updated_at, ss[x].updated_at) && lex_lt(ss[z].updated_at, ss[y].updated_at) {
        lemma_lex_transitive(ss[z].updated_at, ss[y].updated_at, ss[x].updated_at);
    }
}

/// Of two different positions, one is listed before the other, and never
/// both.
pub proof fn lemma_listed_before_total(ss: Seq<SessionView>, x: int, y: int)
    requires
        x != y,
    ensures
        listed_before(ss, x, y) || listed_before(ss, y, x),
        !(listed_before(ss, x, y) && listed_before(ss, y, x)),
{
    lemma_lex_total(ss[x].updated_at, ss[y].updated_at);
    if lex_lt(ss[x].updated_at, ss[y].updated_at) {
        lemma_lex_asymmetric(ss[x].updated_at, ss[y].updated_at);
    }
    if lex_lt(ss[y].updated_at, ss[x].updated_at) {
        lemma_lex_asymmetric(ss[y].updated_at, ss[x].updated_at);
    }
    lemma_lex_irreflexive(ss[x].updated_at);
}

proof fn lemma_insert_keeps_sorted(ss: Seq<SessionView>, ix: Seq<int>, q: int, i: int)
    requires
        listing_sorted(ss, ix),
        0 <= q <= ix.len(),
        forall|a: int| 0 <= a < q ==> listed_before(ss, #[trigger] ix[a], i),
        q < ix.len() ==> listed_before(ss, i, ix[q]),
    ensures
        listing_sorted(ss, ix.insert(q, i)),
{
    let nx = ix.insert(q, i);
    ix.insert_ensures(q, i);
    assert forall|a: int, b: int| 0 <= a < b < nx.len() implies listed_before(ss, #[trigger] nx[a], #[trigger] nx[b]) by {
        if b < q {
            assert(nx[a] == ix[a] && nx[b] == ix[b]);
        } else if b == q {
            assert(nx[a] == ix[a]);
        } else if a < q {
            assert(nx[a] == ix[a] && nx[b] == ix[b - 1]);
        } else if a == q {
            assert(nx[b] == ix[b - 1]);
            if b - 1 > q {
                lemma_listed_before_transitive(ss, i, ix[q], ix[b - 1]);
            }
        } else {
            assert(nx[a] == ix[a - 1] && nx[b] == ix[b - 1]);
        }
    }
}

impl ProjectAgentManager {
    /// The sessions of `program_id`, most recently updated first (of two
    /// sessions updated at the same time, the later-assigned one first).
    pub fn list_for_program(&self, program_id: i64) -> (r: Vec<ProjectAgentSession>)
        requires
            self.wf(),
        ensures
            exists|ix: Seq<int>|
                #[trigger] is_program_listing(self.sessions(), program_id, ix) && r@.len() == ix.len()
                    && forall|k: int| 0 <= k < ix.len() ==> (#[trigger] r@[k])@ == self.sessions()[ix[k]],
    {
        let ghost ss = self.sessions();
        let n = self.sessions.len();
        let mut idx: Vec<usize> = Vec::new();
        for i in 0..n
            invariant
                n == self.sessions@.len(),
                ss == self.sessions(),
                forall|k: int| 0 <= k < idx@.len() ==> (#[trigger] idx@[k]) < i && ss[idx@[k] as int].program_id == program_id,
                forall|a: int, b: int| 0 <= a < b < idx@.len() ==> #[trigger] idx@[a] != #[trigger] idx@[b],
                forall|j: int| 0 <= j < i && (#[trigger] ss[j]).program_id == program_id ==> exists|k: int| 0 <= k < idx@.len() && idx@[k] == j,
                listing_sorted(ss, idx@.map_values(|u: usize| u as int)),
        {
            assert(ss[i as int] == self.sessions@[i as int]@);
            if self.sessions[i].program_id == program_id {
                let ui = chars_of(self.sessions[i].updated_at.as_str());
                let ghost ix = idx@.map_values(|u: usize| u as int);
                let mut q: usize = 0;
                while q < idx.len()
                    invariant
                        n == self.sessions@.len(),
                        ss == self.sessions(),
                        i < n,
                        ui@ == ss[i as int].updated_at,
                        ix == idx@.map_values(|u: usize| u as int),
                        forall|k: int| 0 <= k < idx@.len() ==> (#[trigger] idx@[k]) < i,
                        q <= idx@.len(),
                        forall|a: int| 0 <= a < q ==> listed_before(ss, #[trigger] ix[a], i as int),
                    ensures
                        q <= idx@.len(),
                        forall|a: int| 0 <= a < q ==> listed_before(ss, #[trigger] ix[a], i as int),
                        q < idx@.len() ==> !lex_lt(ss[i as int].updated_at, ss[ix[q as int]].updated_at),
                    decreases idx@.len() - q,
                {
                    let j = idx[q];
                    assert(ss[j as int] == self.sessions@[j as int]@);
                    let uq = chars_of(self.sessions[j].updated_at.as_str());
                    if !lex_less(ui.as_slice(), uq.as_slice()) {
                        break;
                    }
                    q = q + 1;
                }
                proof {
                    if q < idx@.len() {
                        lemma_lex_total(ss[ix[q as int]].updated_at, ss[i as int].updated_at);
                    }
                    lemma_insert_keeps_sorted(ss, ix, q as int, i as int);
                }
                let ghost old_idx = idx@;
                idx.insert(q, i);
                proof {
                    old_idx.insert_ensures(q as int, i);
                    assert(idx@.map_values(|u: usize| u as int) =~= ix.insert(q as int, i as int));
                    assert forall|j: int| 0 <= j < i + 1 && (#[trigger] ss[j]).program_id == program_id implies exists|k: int| 0 <= k < idx@.len() && idx@[k] == j by {
                        if j == i {
                            assert(idx@[q as int] == j);
                        } else {
                            let k = choose|k: int| 0 <= k < old_idx.len() && old_idx[k] == j;
                            if k < q {
                                assert(idx@[k] == j);
                            } else {
                                assert(idx@[k + 1] == j);
                            }
                        }
                    }
                }
            }
        }
        let ghost ix = idx@.map_values(|u: usize| u as int);
        let mut out: Vec<ProjectAgentSession> = Vec::new();
        let m = idx.len();
        for k in 0..m
            invariant
                m == idx@.len(),
                n == self.sessions@.len(),
                ss == self.sessions(),
                ix == idx@.map_values(|u: usize| u as int),
                forall|t: int| 0 <= t < idx@.len() ==> (#[trigger] idx@[t]) < n,
                out@.len() == k,
                forall|t: int| 0 <= t < k ==> (#[trigger] out@[t])@ == ss[ix[t]],
        {
            let j = idx[k];
            assert(ss[j as int] == self.sessions@[j as int]@);
            out.push(self.sessions[j].duplicate());
        }
        proof {
            assert(ix.no_duplicates());
            assert forall|j: int| 0 <= j < ss.len() && (#[trigger] ss[j]).program_id == program_id implies ix.contains(j) by {
                let k = choose|k: int| 0 <= k < idx@.len() && idx@[k] == j;
                assert(ix[k] == j);
            }
            assert(is_program_listing(ss, program_id, ix));
        }
        out
    }
}

/// Every session operation keeps the earlier transcript as a prefix of
/// the new one: transcripts are append-only.
pub proof fn lemma_transcript_append_only(
    s: SessionView,
    name: Option<Seq<char>>,
    goal: Seq<char>,
    reason: Option<Seq<char>>,
    status: Seq<char>,
    note: Option<Seq<char>>,
    role: Seq<char>,
    content: Seq<char>,
    reply: Seq<char>,
    attempt: AttemptView,
    outcome: OutcomeView,
    t: Seq<char>,
    t2: Seq<char>,
)
    ensures
        s.transcript.is_prefix_of(renamed(s, name, t).transcript),
        s.transcript.is_prefix_of(started(s, goal, t).transcript),
        s.transcript.is_prefix_of(stopped(s, reason, t).transcript),
        s.transcript.is_prefix_of(with_status(s, status, note, t).transcript),
        s.transcript.is_prefix_of(with_message(s, role, content, t).transcript),
        s.transcript.is_prefix_of(chatted(s, content, reply, t, t2).transcript),
        s.transcript.is_prefix_of(with_attempt(s, attempt, t).transcript),
        s.transcript.is_prefix_of(with_outcome(s, outcome, t).transcript),
{
    let n = s.transcript.len() as int;
    assert(started(s, goal, t).transcript.subrange(0, n) =~= s.transcript);
    assert(stopped(s, reason, t).transcript.subrange(0, n) =~= s.transcript);
    assert(with_status(s, status, note, t).transcript.subrange(0, n) =~= s.transcript);
    assert(with_message(s, role, content, t).transcript.subrange(0, n) =~= s.transcript);
    assert(chatted(s, content, reply, t, t2).transcript.subrange(0, n) =~= s.transcript);
    assert(with_attempt(s, attempt, t).transcript.subrange(0, n) =~= s.transcript);
    assert(with_outcome(s, outcome, t).transcript.subrange(0, n) =~= s.transcript);
    assert(renamed(s, name, t).transcript.subrange(0, n) =~= s.transcript);
}

/// Assigning an agent again only renames the session: its run state,
/// goal, transcript and execution evidence stay as they were.
pub proof fn lemma_reassign_keeps_run_state(s: SessionView, name: Option<Seq<char>>, t: Seq<char>)
    ensures
        ({
            let r = renamed(s, name, t);
            &&& key_of(r) == key_of(s)
            &&& r.run_status == s.run_status
            &&& r.active_goal == s.active_goal
            &&& r.transcript == s.transcript
            &&& r.assigned_at == s.assigned_at
            &&& r.execution_attempts == s.execution_attempts
            &&& r.name == name
        }),
{
}

/// Starting a build clears the previous run's evidence: no stop reason, no
/// outcome, no attempts, so no diagnostics context for a repair retry.
pub proof fn lemma_start_clears_evidence(s: SessionView, goal: Seq<char>, t: Seq<char>)
    ensures
        ({
            let r = started(s, goal, t);
            &&& r.run_status == "running"@
            &&& r.active_goal == Some(goal)
            &&& r.stop_reason is None
            &&& r.execution is None
            &&& r.execution_attempts.len() == 0
            &&& latest_evidence_in(r.execution_attempts, r.execution_attempts.len()) is None
        }),
{
}

/// A build started and then stopped is stopped by the operator with the
/// given detail, keeps its goal and start time, and its transcript ends
/// with the start and stop notes.
pub proof fn lemma_start_then_stop(s: SessionView, goal: Seq<char>, reason: Option<Seq<char>>, t1: Seq<char>, t2: Seq<char>)
    ensures
        ({
            let r = stopped(started(s, goal, t1), reason, t2);
            let n = s.transcript.len() as int;
            &&& r.run_status == "stopped"@
            &&& r.active_goal == Some(goal)
            &&& r.started_at == Some(t1)
            &&& r.stopped_at == Some(t2)
            &&& r.stop_reason matches Some(sr) && sr.code == StopReasonCode::OperatorStopped
                && sr.message == stop_detail(reason)
            &&& r.transcript.len() == n + 2
            &&& r.transcript[n] == message("system"@, "Build started: "@ + goal, t1)
            &&& r.transcript[n + 1] == message("system"@, "Build stopped: "@ + stop_detail(reason), t2)
        }),
{
}

/// Chat replies follow the run state: a running build acknowledges its
/// goal, a stopped one asks for a new start.
pub proof fn lemma_chat_reply_follows_run_state(s: SessionView, goal: Seq<char>, reason: Option<Seq<char>>, t: Seq<char>)
    ensures
        chat_base_reply(started(s, goal, t)) == "Acknowledged. Continuing work on '"@ + goal
            + "'. Next step: inspect graph state and apply a safe mutation batch."@,
        chat_base_reply(stopped(s, reason, t))
            == "Agent is stopped. Start the build run before requesting new work."@,
{
    reveal_strlit("running");
    reveal_strlit("stopped");
    assert("running"@[0] != "stopped"@[0]);
}

/// A failed execution outcome stops the run; a successful one leaves the
/// run status alone. Either way the outcome's attempts and stop reason
/// become the session's.
pub proof fn lemma_outcome_status(s: SessionView, o: OutcomeView, t: Seq<char>)
    ensures
        ({
            let r = with_outcome(s, o, t);
            &&& o.status == AutonomyExecutionStatus::Failed ==> r.run_status == "stopped"@ && r.stopped_at == Some(t)
            &&& o.status == AutonomyExecutionStatus::Succeeded ==> r.run_status == s.run_status
            &&& r.execution_attempts == o.attempts
            &&& r.stop_reason == Some(o.stop_reason)
            &&& r.execution == Some(o)
        }),
{
}

/// Setting the status to running clears any stop and keeps the first start
/// time; setting it to stopped records the stop time.
pub proof fn lemma_run_status_transitions(s: SessionView, note: Option<Seq<char>>, t: Seq<char>)
    ensures
        ({
            let r = with_status(s, "running"@, note, t);
            &&& r.stopped_at is None
            &&& r.stop_reason is None
            &&& r.started_at == (if s.started_at is Some { s.started_at } else { Some(t) })
        }),
        with_status(s, "stopped"@, note, t).stopped_at == Some(t),
{
    reveal_strlit("running");
    reveal_strlit("stopped");
    assert("running"@[0] != "stopped"@[0]);
}

fn attempt_text(a: &AutonomyExecutionAttemptSummary) -> (r: String)
    ensures
        r@ == attempt_note(a@),
{
    let mut s = String::from_str("Execution attempt ");
    s.append(u64_to_decimal(a.attempt as u64).as_str());
    s.append("/");
    s.append(u64_to_decimal(a.max_attempts as u64).as_str());
    s.append(" recorded (");
    s.append(u64_to_decimal(a.action_count as u64).as_str());
    s.append(" action(s), ");
    s.append(u64_to_decimal(a.succeeded_actions as u64).as_str());
    s.append(" succeeded).");
    s
}

fn outcome_text(o: &AutonomyExecutionOutcome) -> (r: String)
    ensures
        r@ == outcome_note(o@),
{
    let mut s = String::from_str("Autonomous execution ");
    s.append(o.status.name());
    s.append(": [");
    s.append(o.stop_reason.code.as_str());
    s.append("] ");
    s.append(o.stop_reason.message.as_str());
    s
}

} // verus!
