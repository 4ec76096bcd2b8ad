//! Structured execution evidence for autonomous runs: per-action results,
//! diagnostics for targeted repair, stop reasons and attempt summaries.
//!
//! Free-form JSON details travel as JSON text.

use vstd::prelude::*;
use crate::text::{clone_opt, clone_strings, opt_view};

verus! {

/// High-level status of one autonomous execution outcome.
#[derive(Debug, Clone, Copy, PartialEq, Eq, Structural)]
pub enum AutonomyExecutionStatus {
    Succeeded,
    Failed,
}

/// Status of one dispatched planner action.
#[derive(Debug, Clone, Copy, PartialEq, Eq, Structural)]
pub enum AutonomyActionStatus {
    Succeeded,
    Failed,
    Skipped,
}

/// Machine-readable classification of an action error.
#[derive(Debug, Clone, Copy, PartialEq, Eq, Structural)]
pub enum AutonomyExecutionErrorCode {
    InvalidActionPayload,
    UnsupportedAction,
    NotFound,
    BadRequest,
    ValidationFailed,
    Conflict,
    InternalError,
}

/// Diagnostic class emitted for autonomous repair feedback.
#[derive(Debug, Clone, Copy, PartialEq, Eq, Structural)]
pub enum AutonomyDiagnosticsClass {
    VerifyFailure,
    CompileFailure,
    ActionFailure,
}

/// Stable terminal reason codes for autonomous run stops.
#[derive(Debug, Clone, Copy, PartialEq, Eq, Structural)]
pub enum StopReasonCode {
    Completed,
    PlannerRejectedNonRetryable,
    PlannerRejectedRetryBudgetExhausted,
    ActionFailedRetryable,
    ActionFailedNonRetryable,
    VerifyFailed,
    RetryBudgetExhausted,
    OperatorStopped,
    RunnerInternalError,
}

/// The wire name (snake case) of a diagnostics class.
pub open spec fn diagnostics_class_name(c: AutonomyDiagnosticsClass) -> Seq<char> {
    match c {
        AutonomyDiagnosticsClass::VerifyFailure => "verify_failure"@,
        AutonomyDiagnosticsClass::CompileFailure => "compile_failure"@,
        AutonomyDiagnosticsClass::ActionFailure => "action_failure"@,
    }
}

impl AutonomyDiagnosticsClass {
    /// The wire name of the class.
    pub fn as_str(&self) -> (r: &'static str)
        ensures
            r@ == diagnostics_class_name(*self),
    {
        match self {
            AutonomyDiagnosticsClass::VerifyFailure => "verify_failure",
            AutonomyDiagnosticsClass::CompileFailure => "compile_failure",
            AutonomyDiagnosticsClass::ActionFailure => "action_failure",
        }
    }
}

/// The wire name (snake case) of a stop reason code.
pub open spec fn stop_reason_code_name(c: StopReasonCode) -> Seq<char> {
    match c {
        StopReasonCode::Completed => "completed"@,
        StopReasonCode::PlannerRejectedNonRetryable => "planner_rejected_non_retryable"@,
        StopReasonCode::PlannerRejectedRetryBudgetExhausted => "planner_rejected_retry_budget_exhausted"@,
        StopReasonCode::ActionFailedRetryable => "action_failed_retryable"@,
        StopReasonCode::ActionFailedNonRetryable => "action_failed_non_retryable"@,
        StopReasonCode::VerifyFailed => "verify_failed"@,
        StopReasonCode::RetryBudgetExhausted => "retry_budget_exhausted"@,
        StopReasonCode::OperatorStopped => "operator_stopped"@,
        StopReasonCode::RunnerInternalError => "runner_internal_error"@,
    }
}

impl StopReasonCode {
    /// The wire name of the code.
    pub fn as_str(&self) -> (r: &'static str)
        ensures
            r@ == stop_reason_code_name(*self),
    {
        match self {
            StopReasonCode::Completed => "completed",
            StopReasonCode::PlannerRejectedNonRetryable => "planner_rejected_non_retryable",
            StopReasonCode::PlannerRejectedRetryBudgetExhausted => "planner_rejected_retry_budget_exhausted",
            StopReasonCode::ActionFailedRetryable => "action_failed_retryable",
            StopReasonCode::ActionFailedNonRetryable => "action_failed_non_retryable",
            StopReasonCode::VerifyFailed => "verify_failed",
            StopReasonCode::RetryBudgetExhausted => "retry_budget_exhausted",
            StopReasonCode::OperatorStopped => "operator_stopped",
            StopReasonCode::RunnerInternalError => "runner_internal_error",
        }
    }
}

/// The wire name of an execution status.
pub open spec fn execution_status_name(s: AutonomyExecutionStatus) -> Seq<char> {
    match s {
        AutonomyExecutionStatus::Succeeded => "Succeeded"@,
        AutonomyExecutionStatus::Failed => "Failed"@,
    }
}

impl AutonomyExecutionStatus {
    /// The variant's name, as it is printed in transcripts.
    pub fn name(&self) -> (r: &'static str)
        ensures
            r@ == execution_status_name(*self),
    {
        match self {
            AutonomyExecutionStatus::Succeeded => "Succeeded",
            AutonomyExecutionStatus::Failed => "Failed",
        }
    }
}

/// Compact diagnostics metadata for targeted repair.
#[derive(Debug, Clone, PartialEq)]
pub struct AutonomyDiagnostics {
    pub class: AutonomyDiagnosticsClass,
    pub retryable: bool,
    pub summary: String,
    pub messages: Vec<String>,
    /// Optional JSON detail, as JSON text.
    pub detail: Option<String>,
}

/// The abstract value of [`AutonomyDiagnostics`].
pub struct DiagnosticsView {
    pub class: AutonomyDiagnosticsClass,
    pub retryable: bool,
    pub summary: Seq<char>,
    pub messages: Seq<String>,
    pub detail: Option<Seq<char>>,
}

impl View for AutonomyDiagnostics {
    type V = DiagnosticsView;

    open spec fn view(&self) -> DiagnosticsView {
        DiagnosticsView {
            class: self.class,
            retryable: self.retryable,
            summary: self.summary@,
            messages: self.messages@,
            detail: opt_view(self.detail),
        }
    }
}

/// The view of an optional diagnostics value.
pub open spec fn opt_diag(o: Option<AutonomyDiagnostics>) -> Option<DiagnosticsView> {
    match o {
        Some(d) => Some(d@),
        None => None,
    }
}

impl AutonomyDiagnostics {
    /// Diagnostics with no messages and no detail.
    pub fn new(class: AutonomyDiagnosticsClass, retryable: bool, summary: &str) -> (r: Self)
        ensures
            r@ == (DiagnosticsView {
                class,
                retryable,
                summary: summary@,
                messages: Seq::empty(),
                detail: None,
            }),
    {
        AutonomyDiagnostics {
            class,
            retryable,
            summary: String::from_str(summary),
            messages: Vec::new(),
            detail: None,
        }
    }

    /// The same diagnostics with `messages` in place of the old ones.
    pub fn with_messages(self, messages: Vec<String>) -> (r: Self)
        ensures
            r@ == (DiagnosticsView { messages: messages@, ..self@ }),
    {
        let mut d = self;
        d.messages = messages;
        d
    }

    /// The same diagnostics with a JSON detail.
    pub fn with_detail(self, detail: String) -> (r: Self)
        ensures
            r@ == (DiagnosticsView { detail: Some(detail@), ..self@ }),
    {
        let mut d = self;
        d.detail = Some(detail);
        d
    }

    /// A field-by-field copy.
    pub fn duplicate(&self) -> (r: Self)
        ensures
            r@ == self@,
    {
        AutonomyDiagnostics {
            class: self.class,
            retryable: self.retryable,
            summary: self.summary.clone(),
            messages: clone_strings(&self.messages),
            detail: clone_opt(&self.detail),
        }
    }
}

fn clone_opt_diag(o: &Option<AutonomyDiagnostics>) -> (r: Option<AutonomyDiagnostics>)
    ensures
        opt_diag(r) == opt_diag(*o),
{
    match o {
        Some(d) => Some(d.duplicate()),
        None => None,
    }
}

/// Structured action failure details.
#[derive(Debug, Clone, PartialEq)]
pub struct AutonomyExecutionError {
    pub code: AutonomyExecutionErrorCode,
    pub message: String,
    pub retryable: bool,
    /// Optional JSON details, as JSON text.
    pub details: Option<String>,
    pub diagnostics: Option<AutonomyDiagnostics>,
}

/// The abstract value of [`AutonomyExecutionError`].
pub struct ExecutionErrorView {
    pub code: AutonomyExecutionErrorCode,
    pub message: Seq<char>,
    pub retryable: bool,
    pub details: Option<Seq<char>>,
    pub diagnostics: Option<DiagnosticsView>,
}

impl View for AutonomyExecutionError {
    type V = ExecutionErrorView;

    open spec fn view(&self) -> ExecutionErrorView {
        ExecutionErrorView {
            code: self.code,
            message: self.message@,
            retryable: self.retryable,
            details: opt_view(self.details),
            diagnostics: opt_diag(self.diagnostics),
        }
    }
}

/// The view of an optional error.
pub open spec fn opt_error(o: Option<AutonomyExecutionError>) -> Option<ExecutionErrorView> {
    match o {
        Some(e) => Some(e@),
        None => None,
    }
}

impl AutonomyExecutionError {
    /// An error with no details and no diagnostics.
    pub fn new(code: AutonomyExecutionErrorCode, message: &str, retryable: bool) -> (r: Self)
        ensures
            r@ == (ExecutionErrorView {
                code,
                message: message@,
                retryable,
                details: None,
                diagnostics: None,
            }),
    {
        AutonomyExecutionError {
            code,
            message: String::from_str(message),
            retryable,
            details: None,
            diagnostics: None,
        }
    }

    /// The same error with JSON details.
    pub fn with_details(self, details: String) -> (r: Self)
        ensures
            r@ == (ExecutionErrorView { details: Some(details@), ..self@ }),
    {
        let mut e = self;
        e.details = Some(details);
        e
    }

    /// The same error with diagnostics attached.
    pub fn with_diagnostics(self, diagnostics: AutonomyDiagnostics) -> (r: Self)
        ensures
            r@ == (ExecutionErrorView { diagnostics: Some(diagnostics@), ..self@ }),
    {
        let mut e = self;
        e.diagnostics = Some(diagnostics);
        e
    }

    /// A field-by-field copy.
    pub fn duplicate(&self) -> (r: Self)
        ensures
            r@ == self@,
    {
        AutonomyExecutionError {
            code: self.code,
            message: self.message.clone(),
            retryable: self.retryable,
            details: clone_opt(&self.details),
            diagnostics: clone_opt_diag(&self.diagnostics),
        }
    }
}

fn clone_opt_error(o: &Option<AutonomyExecutionError>) -> (r: Option<AutonomyExecutionError>)
    ensures
        opt_error(r) == opt_error(*o),
{
    match o {
        Some(e) => Some(e.duplicate()),
        None => None,
    }
}

/// Typed result of one planner action execution.
#[derive(Debug, Clone, PartialEq)]
pub struct AutonomyActionExecutionResult {
    pub action_index: usize,
    pub kind: String,
    pub status: AutonomyActionStatus,
    pub summary: String,
    pub error: Option<AutonomyExecutionError>,
    /// Optional JSON detail, as JSON text.
    pub detail: Option<String>,
    pub diagnostics: Option<AutonomyDiagnostics>,
}

/// The abstract value of [`AutonomyActionExecutionResult`].
pub struct ActionResultView {
    pub action_index: usize,
    pub kind: Seq<char>,
    pub status: AutonomyActionStatus,
    pub summary: Seq<char>,
    pub error: Option<ExecutionErrorView>,
    pub detail: Option<Seq<char>>,
    pub diagnostics: Option<DiagnosticsView>,
}

impl View for AutonomyActionExecutionResult {
    type V = ActionResultView;

    open spec fn view(&self) -> ActionResultView {
        ActionResultView {
            action_index: self.action_index,
            kind: self.kind@,
            status: self.status,
            summary: self.summary@,
            error: opt_error(self.error),
            detail: opt_view(self.detail),
            diagnostics: opt_diag(self.diagnostics),
        }
    }
}

impl AutonomyActionExecutionResult {
    /// A successful action result.
    pub fn succeeded(action_index: usize, kind: &str, summary: &str) -> (r: Self)
        ensures
            r@ == (ActionResultView {
                action_index,
                kind: kind@,
                status: AutonomyActionStatus::Succeeded,
                summary: summary@,
                error: None,
                detail: None,
                diagnostics: None,
            }),
    {
        AutonomyActionExecutionResult {
            action_index,
            kind: String::from_str(kind),
            status: AutonomyActionStatus::Succeeded,
            summary: String::from_str(summary),
            error: None,
            detail: None,
            diagnostics: None,
        }
    }

    /// A failed action result carrying its error.
    pub fn failed(action_index: usize, kind: &str, summary: &str, error: AutonomyExecutionError) -> (r: Self)
        ensures
            r@ == (ActionResultView {
                action_index,
                kind: kind@,
                status: AutonomyActionStatus::Failed,
                summary: summary@,
                error: Some(error@),
                detail: None,
                diagnostics: None,
            }),
    {
        AutonomyActionExecutionResult {
            action_index,
            kind: String::from_str(kind),
            status: AutonomyActionStatus::Failed,
            summary: String::from_str(summary),
            error: Some(error),
            detail: None,
            diagnostics: None,
        }
    }

    /// The same result with a JSON detail.
    pub fn with_detail(self, detail: String) -> (r: Self)
        ensures
            r@ == (ActionResultView { detail: Some(detail@), ..self@ }),
    {
        let mut a = self;
        a.detail = Some(detail);
        a
    }

    /// The same result with diagnostics attached.
    pub fn with_diagnostics(self, diagnostics: AutonomyDiagnostics) -> (r: Self)
        ensures
            r@ == (ActionResultView { diagnostics: Some(diagnostics@), ..self@ }),
    {
        let mut a = self;
        a.diagnostics = Some(diagnostics);
        a
    }

    /// A field-by-field copy.
    pub fn duplicate(&self) -> (r: Self)
        ensures
            r@ == self@,
    {
        AutonomyActionExecutionResult {
            action_index: self.action_index,
            kind: self.kind.clone(),
            status: self.status,
            summary: self.summary.clone(),
            error: clone_opt_error(&self.error),
            detail: clone_opt(&self.detail),
            diagnostics: clone_opt_diag(&self.diagnostics),
        }
    }
}

/// The views of a list of action results.
pub open spec fn results_view(s: Seq<AutonomyActionExecutionResult>) -> Seq<ActionResultView> {
    s.map_values(|a: AutonomyActionExecutionResult| a@)
}

fn clone_results(v: &Vec<AutonomyActionExecutionResult>) -> (r: Vec<AutonomyActionExecutionResult>)
    ensures
        results_view(r@) == results_view(v@),
{
    let mut out: Vec<AutonomyActionExecutionResult> = Vec::new();
    let n = v.len();
    for i in 0..n
        invariant
            n == v.len(),
            out.len() == i,
            forall|j: int| 0 <= j < i ==> (#[trigger] out@[j])@ == v@[j]@,
    {
        out.push(v[i].duplicate());
    }
    assert(results_view(out@) =~= results_view(v@));
    out
}

/// Structured terminal stop reason.
#[derive(Debug, Clone, PartialEq)]
pub struct StopReason {
    pub code: StopReasonCode,
    pub message: String,
    /// Optional JSON detail, as JSON text.
    pub detail: Option<String>,
}

/// The abstract value of [`StopReason`].
pub struct StopReasonView {
    pub code: StopReasonCode,
    pub message: Seq<char>,
    pub detail: Option<Seq<char>>,
}

impl View for StopReason {
    type V = StopReasonView;

    open spec fn view(&self) -> StopReasonView {
        StopReasonView { code: self.code, message: self.message@, detail: opt_view(self.detail) }
    }
}

/// The view of an optional stop reason.
pub open spec fn opt_stop(o: Option<StopReason>) -> Option<StopReasonView> {
    match o {
        Some(s) => Some(s@),
        None => None,
    }
}

impl StopReason {
    /// A stop reason with no detail.
    pub fn new(code: StopReasonCode, message: &str) -> (r: Self)
        ensures
            r@ == (StopReasonView { code, message: message@, detail: None }),
    {
        StopReason { code, message: String::from_str(message), detail: None }
    }

    /// The same stop reason with a JSON detail.
    pub fn with_detail(self, detail: String) -> (r: Self)
        ensures
            r == (StopReason { detail: Some(detail), ..self }),
    {
        let mut s = self;
        s.detail = Some(detail);
        s
    }

    /// A field-by-field copy.
    pub fn duplicate(&self) -> (r: Self)
        ensures
            r == *self,
    {
        StopReason { code: self.code, message: self.message.clone(), detail: clone_opt(&self.detail) }
    }
}

fn clone_opt_stop(o: &Option<StopReason>) -> (r: Option<StopReason>)
    ensures
        r == *o,
{
    match o {
        Some(s) => Some(s.duplicate()),
        None => None,
    }
}

/// One autonomous attempt summary (for bounded retry loops).
#[derive(Debug, Clone, PartialEq)]
pub struct AutonomyExecutionAttemptSummary {
    pub attempt: u32,
    pub max_attempts: u32,
    pub planner_status: String,
    pub action_count: usize,
    pub succeeded_actions: usize,
    pub action_results: Vec<AutonomyActionExecutionResult>,
    pub stop_reason: Option<StopReason>,
}

/// The abstract value of [`AutonomyExecutionAttemptSummary`].
pub struct AttemptView {
    pub attempt: u32,
    pub max_attempts: u32,
    pub planner_status: Seq<char>,
    pub action_count: usize,
    pub succeeded_actions: usize,
    pub action_results: Seq<ActionResultView>,
    pub stop_reason: Option<StopReasonView>,
}

impl View for AutonomyExecutionAttemptSummary {
    type V = AttemptView;

    open spec fn view(&self) -> AttemptView {
        AttemptView {
            attempt: self.attempt,
            max_attempts: self.max_attempts,
            planner_status: self.planner_status@,
            action_count: self.action_count,
            succeeded_actions: self.succeeded_actions,
            action_results: results_view(self.action_results@),
            stop_reason: opt_stop(self.stop_reason),
        }
    }
}

/// The diagnostics an action result carries itself, or else those of its
/// error.
pub open spec fn own_diagnostics(a: ActionResultView) -> Option<DiagnosticsView> {
    match a.diagnostics {
        Some(d) => Some(d),
        None => match a.error {
            Some(e) => e.diagnostics,
            None => None,
        },
    }
}

/// The diagnostics of the last of the first `n` results that carries any.
pub open spec fn latest_diagnostics_in(s: Seq<ActionResultView>, n: nat) -> Option<DiagnosticsView>
    decreases n,
{
    if n == 0 {
        None
    } else {
        match own_diagnostics(s[n - 1]) {
            Some(d) => Some(d),
            None => latest_diagnostics_in(s, (n - 1) as nat),
        }
    }
}

impl AutonomyExecutionAttemptSummary {
    /// The same attempt with its own stop reason.
    pub fn with_stop_reason(self, reason: StopReason) -> (r: Self)
        ensures
            r@ == (AttemptView { stop_reason: Some(reason@), ..self@ }),
    {
        let mut a = self;
        a.stop_reason = Some(reason);
        a
    }

    /// The latest diagnostics of this attempt, from an action's own
    /// diagnostics or from those nested in its error.
    pub fn latest_diagnostics(&self) -> (r: Option<&AutonomyDiagnostics>)
        ensures
            (match r {
                Some(d) => Some(d@),
                None => None::<DiagnosticsView>,
            }) == latest_diagnostics_in(self@.action_results, self@.action_results.len()),
    {
        let n = self.action_results.len();
        let mut i = n;
        while i > 0
            invariant
                i <= n,
                n == self.action_results.len(),
                latest_diagnostics_in(self@.action_results, n as nat)
                    == latest_diagnostics_in(self@.action_results, i as nat),
            decreases i,
        {
            let a = &self.action_results[i - 1];
            assert(self@.action_results[i - 1] == a@);
            match &a.diagnostics {
                Some(d) => {
                    return Some(d);
                },
                None => {},
            }
            match &a.error {
                Some(e) => match &e.diagnostics {
                    Some(d) => {
                        return Some(d);
                    },
                    None => {},
                },
                None => {},
            }
            i = i - 1;
        }
        None
    }

    /// The attempt's own stop reason, falling back to `fallback`.
    pub fn terminal_stop_reason<'a>(&'a self, fallback: Option<&'a StopReason>) -> (r: Option<&'a StopReason>)
        ensures
            self.stop_reason matches Some(s) ==> r matches Some(x) && *x == s,
            self.stop_reason is None ==> r == fallback,
    {
        match &self.stop_reason {
            Some(s) => Some(s),
            None => fallback,
        }
    }

    /// A field-by-field copy.
    pub fn duplicate(&self) -> (r: Self)
        ensures
            r@ == self@,
    {
        AutonomyExecutionAttemptSummary {
            attempt: self.attempt,
            max_attempts: self.max_attempts,
            planner_status: self.planner_status.clone(),
            action_count: self.action_count,
            succeeded_actions: self.succeeded_actions,
            action_results: clone_results(&self.action_results),
            stop_reason: clone_opt_stop(&self.stop_reason),
        }
    }
}

/// The views of a list of attempts.
pub open spec fn attempts_view(s: Seq<AutonomyExecutionAttemptSummary>) -> Seq<AttemptView> {
    s.map_values(|a: AutonomyExecutionAttemptSummary| a@)
}

/// A copy of a list of attempts.
pub fn clone_attempts(v: &Vec<AutonomyExecutionAttemptSummary>) -> (r: Vec<AutonomyExecutionAttemptSummary>)
    ensures
        attempts_view(r@) == attempts_view(v@),
{
    let mut out: Vec<AutonomyExecutionAttemptSummary> = Vec::new();
    let n = v.len();
    for i in 0..n
        invariant
            n == v.len(),
            out.len() == i,
            forall|j: int| 0 <= j < i ==> (#[trigger] out@[j])@ == v@[j]@,
    {
        out.push(v[i].duplicate());
    }
    assert(attempts_view(out@) =~= attempts_view(v@));
    out
}

/// Top-level execution payload stored on sessions.
#[derive(Debug, Clone, PartialEq)]
pub struct AutonomyExecutionOutcome {
    pub goal: String,
    pub version: String,
    pub status: AutonomyExecutionStatus,
    pub attempts: Vec<AutonomyExecutionAttemptSummary>,
    pub stop_reason: StopReason,
}

/// The abstract value of [`AutonomyExecutionOutcome`].
pub struct OutcomeView {
    pub goal: Seq<char>,
    pub version: Seq<char>,
    pub status: AutonomyExecutionStatus,
    pub attempts: Seq<AttemptView>,
    pub stop_reason: StopReasonView,
}

impl View for AutonomyExecutionOutcome {
    type V = OutcomeView;

    open spec fn view(&self) -> OutcomeView {
        OutcomeView {
            goal: self.goal@,
            version: self.version@,
            status: self.status,
            attempts: attempts_view(self.attempts@),
            stop_reason: self.stop_reason@,
        }
    }
}

impl AutonomyExecutionOutcome {
    /// An outcome made of a single attempt.
    pub fn from_single_attempt(
        goal: &str,
        version: &str,
        status: AutonomyExecutionStatus,
        attempt: AutonomyExecutionAttemptSummary,
        stop_reason: StopReason,
    ) -> (r: Self)
        ensures
            r@ == (OutcomeView {
                goal: goal@,
                version: version@,
                status,
                attempts: seq![attempt@],
                stop_reason: stop_reason@,
            }),
    {
        let mut attempts: Vec<AutonomyExecutionAttemptSummary> = Vec::new();
        attempts.push(attempt);
        let r = AutonomyExecutionOutcome {
            goal: String::from_str(goal),
            version: String::from_str(version),
            status,
            attempts,
            stop_reason,
        };
        assert(attempts_view(r.attempts@) =~= seq![r.attempts@[0]@]);
        r
    }

    /// A field-by-field copy.
    pub fn duplicate(&self) -> (r: Self)
        ensures
            r@ == self@,
    {
        AutonomyExecutionOutcome {
            goal: self.goal.clone(),
            version: self.version.clone(),
            status: self.status,
            attempts: clone_attempts(&self.attempts),
            stop_reason: self.stop_reason.duplicate(),
        }
    }
}

/// The most recent `max_entries` attempts (all of them if there are fewer).
pub fn bounded_attempt_history(attempts: &[AutonomyExecutionAttemptSummary], max_entries: usize)
    -> (r: &[AutonomyExecutionAttemptSummary])
    ensures
        r@ == attempts@.subrange(
            if attempts@.len() > max_entries { attempts@.len() - max_entries } else { 0 },
            attempts@.len() as int,
        ),
{
    let start = attempts.len().saturating_sub(max_entries);
    vstd::slice::slice_subrange(attempts, start, attempts.len())
}

} // verus!
