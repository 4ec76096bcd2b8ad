//! Decisions of the background autonomous run loop of a project agent.
//!
//! The loop itself (sleeping, reading the session, executing commands,
//! asking the planner) runs outside the library; after each step it hands
//! the step's event to [`next_loop_state`], which returns the new failure
//! count and what to record, and whether the loop ends.

use vstd::prelude::*;
use crate::planner::{accepted_step_summary, accepted_text, rejected_step_reason, PlannerOutcome};
use crate::project_agent::{MessageView, ProjectAgentSession};
use crate::text::{cat, cat3, chars_of, contains_chars, contains_seq, lower_chars, lower_seq, str_eq};

verus! {

/// What one step of the run loop decided.
#[derive(Debug, Clone, PartialEq, Eq)]
pub enum StepDecision {
    /// Execute this chat command.
    Command(String),
    /// The planner accepted a structured plan (its summary).
    PlannerAccepted(String),
    /// The planner rejected the goal (its reason).
    PlannerRejected(String),
    /// The goal is reached.
    Done,
    /// Nothing to do this time.
    Noop,
}

/// The lower-cased contents of a transcript, joined by newlines.
pub open spec fn joined_lower(ms: Seq<MessageView>, n: nat) -> Seq<char>
    decreases n,
{
    if n == 0 {
        Seq::empty()
    } else if n == 1 {
        lower_seq(ms[0].content)
    } else {
        joined_lower(ms, (n - 1) as nat) + seq!['\n'] + lower_seq(ms[n - 1].content)
    }
}

/// The scripted step toward a "hello world" goal, given the lower-cased
/// goal and transcript text: `None` when the goal is not about hello
/// world, `Some(Some(command))` for the next command, `Some(None)` when
/// done.
pub open spec fn hello_world_step(goal: Seq<char>, text: Seq<char>) -> Option<Option<Seq<char>>> {
    if !contains_seq(goal, "hello world"@) {
        None
    } else {
        let has_scaffold = contains_seq(text, "hello world scaffold ready"@);
        let has_compile = contains_seq(text, "compiled hello_world"@);
        let has_run = contains_seq(text, "program executed"@);
        let wants_run = contains_seq(goal, "run"@) || contains_seq(goal, "execute"@) || contains_seq(
            goal,
            "bootstrap"@,
        );
        let wants_compile = wants_run || contains_seq(goal, "compile"@);
        if !has_scaffold {
            Some(Some("create hello world program"@))
        } else if wants_compile && !has_compile {
            Some(Some("compile program"@))
        } else if wants_run && !has_run {
            Some(Some("run program"@))
        } else {
            Some(None)
        }
    }
}

/// The scripted hello-world sequence starts with the scaffold, and a goal
/// that does not mention hello world has no scripted step.
pub proof fn lemma_hello_world_scaffold_first(goal: Seq<char>, text: Seq<char>)
    ensures
        !contains_seq(goal, "hello world"@) ==> hello_world_step(goal, text) is None,
        contains_seq(goal, "hello world"@) && !contains_seq(text, "hello world scaffold ready"@) ==> hello_world_step(
            goal,
            text,
        ) == Some(Some("create hello world program"@)),
{
}

/// A hello-world goal that asks to run, execute or bootstrap the program
/// gets, after the scaffold, "compile program" until the transcript shows
/// the compile, then "run program" until it shows the run, then is done.
pub proof fn lemma_hello_world_run_goal(goal: Seq<char>, text: Seq<char>, word: Seq<char>)
    requires
        word == "run"@ || word == "execute"@ || word == "bootstrap"@,
        contains_seq(goal, "hello world"@),
        contains_seq(goal, word),
        contains_seq(text, "hello world scaffold ready"@),
    ensures
        !contains_seq(text, "compiled hello_world"@) ==> hello_world_step(goal, text) == Some(Some("compile program"@)),
        contains_seq(text, "compiled hello_world"@) && !contains_seq(text, "program executed"@) ==> hello_world_step(
            goal,
            text,
        ) == Some(Some("run program"@)),
        contains_seq(text, "compiled hello_world"@) && contains_seq(text, "program executed"@) ==> hello_world_step(
            goal,
            text,
        ) == Some(None::<Seq<char>>),
{
}

/// A hello-world goal that asks only to compile gets, after the scaffold,
/// "compile program" until the transcript shows the compile, and is then
/// done without running; a goal that asks for neither is done right after
/// the scaffold.
pub proof fn lemma_hello_world_compile_only_goal(goal: Seq<char>, text: Seq<char>)
    requires
        contains_seq(goal, "hello world"@),
        !contains_seq(goal, "run"@),
        !contains_seq(goal, "execute"@),
        !contains_seq(goal, "bootstrap"@),
        contains_seq(text, "hello world scaffold ready"@),
    ensures
        contains_seq(goal, "compile"@) && !contains_seq(text, "compiled hello_world"@) ==> hello_world_step(goal, text)
            == Some(Some("compile program"@)),
        contains_seq(goal, "compile"@) && contains_seq(text, "compiled hello_world"@) ==> hello_world_step(goal, text)
            == Some(None::<Seq<char>>),
        !contains_seq(goal, "compile"@) ==> hello_world_step(goal, text) == Some(None::<Seq<char>>),
{
}

fn contains_lit(h: &Vec<char>, p: &str) -> (r: bool)
    ensures
        r == contains_seq(h@, p@),
{
    let pv = chars_of(p);
    contains_chars(h.as_slice(), pv.as_slice())
}

fn joined_transcript_lower(session: &ProjectAgentSession) -> (r: Vec<char>)
    ensures
        r@ == joined_lower(session@.transcript, session@.transcript.len()),
{
    let mut out: Vec<char> = Vec::new();
    let n = session.transcript.len();
    let mut i: usize = 0;
    while i < n
        invariant
            n == session.transcript@.len(),
            i <= n,
            out@ == joined_lower(session@.transcript, i as nat),
        decreases n - i,
    {
        assert(session@.transcript[i as int] == session.transcript@[i as int]@);
        let lower = lower_chars(chars_of(session.transcript[i].content.as_str()).as_slice());
        if i > 0 {
            out.push('\n');
        }
        let ghost before = out@;
        let mut k: usize = 0;
        while k < lower.len()
            invariant
                k <= lower@.len(),
                out@ == before + lower@.subrange(0, k as int),
            decreases lower@.len() - k,
        {
            out.push(lower[k]);
            assert(out@ =~= before + lower@.subrange(0, k + 1));
            k = k + 1;
        }
        assert(lower@.subrange(0, lower@.len() as int) =~= lower@);
        assert(i == 0 ==> out@ =~= joined_lower(session@.transcript, (i + 1) as nat));
        i = i + 1;
    }
    out
}

/// The scripted next step toward a "hello world" goal: scaffold, then
/// compile if the goal asks to compile or run, then run if it asks to run
/// (or execute, or bootstrap), then done. `None` when the goal does not
/// mention hello world. Matching ignores ASCII case.
pub fn deterministic_hello_world_step(goal: &str, session: &ProjectAgentSession) -> (r: Option<StepDecision>)
    ensures
        match hello_world_step(
            lower_seq(goal@),
            joined_lower(session@.transcript, session@.transcript.len()),
        ) {
            None => r is None,
            Some(None) => r == Some(StepDecision::Done),
            Some(Some(c)) => r matches Some(StepDecision::Command(x)) && x@ == c,
        },
{
    let goal_lower = lower_chars(chars_of(goal).as_slice());
    if !contains_lit(&goal_lower, "hello world") {
        return None;
    }
    let text = joined_transcript_lower(session);
    let has_scaffold = contains_lit(&text, "hello world scaffold ready");
    let has_compile = contains_lit(&text, "compiled hello_world");
    let has_run = contains_lit(&text, "program executed");
    let wants_run = contains_lit(&goal_lower, "run") || contains_lit(&goal_lower, "execute")
        || contains_lit(&goal_lower, "bootstrap");
    let wants_compile = wants_run || contains_lit(&goal_lower, "compile");
    if !has_scaffold {
        return Some(StepDecision::Command(String::from_str("create hello world program")));
    }
    if wants_compile && !has_compile {
        return Some(StepDecision::Command(String::from_str("compile program")));
    }
    if wants_run && !has_run {
        return Some(StepDecision::Command(String::from_str("run program")));
    }
    Some(StepDecision::Done)
}

/// The decision a step reaches before asking the planner: the scripted
/// hello-world step if it applies, else nothing to do when the agent is
/// unknown (`None`) or has no configured planner (`Some(false)`). `None`
/// means the planner must be asked.
pub fn decide_before_planner(goal: &str, session: &ProjectAgentSession, planner_configured: Option<bool>)
    -> (r: Option<StepDecision>)
    ensures
        match hello_world_step(
            lower_seq(goal@),
            joined_lower(session@.transcript, session@.transcript.len()),
        ) {
            None => match planner_configured {
                Some(true) => r is None,
                _ => r == Some(StepDecision::Noop),
            },
            Some(None) => r == Some(StepDecision::Done),
            Some(Some(c)) => r matches Some(StepDecision::Command(x)) && x@ == c,
        },
{
    match deterministic_hello_world_step(goal, session) {
        Some(d) => Some(d),
        None => match planner_configured {
            Some(true) => None,
            _ => Some(StepDecision::Noop),
        },
    }
}

/// The decision for a planner outcome: an accepted plan with its summary,
/// or a rejection with its code and message.
pub fn planner_decision(outcome: &PlannerOutcome) -> (r: StepDecision)
    ensures
        match *outcome {
            PlannerOutcome::Accepted(a) => r matches StepDecision::PlannerAccepted(s) && s@ == accepted_text(a),
            PlannerOutcome::Rejected(x) => r matches StepDecision::PlannerRejected(s)
                && s@ == "["@ + x.code@ + "] "@ + x.message@,
        },
{
    match outcome {
        PlannerOutcome::Accepted(a) => StepDecision::PlannerAccepted(accepted_step_summary(a)),
        PlannerOutcome::Rejected(x) => StepDecision::PlannerRejected(rejected_step_reason(x)),
    }
}

/// The number of most recent transcript entries shown to the planner.
pub const PLANNER_TRANSCRIPT_WINDOW: usize = 8;

/// The planner's view of the transcript: the last eight entries (all if
/// fewer), each as `"role: content"`.
pub fn planner_transcript(session: &ProjectAgentSession) -> (r: Vec<String>)
    ensures
        ({
            let t = session@.transcript;
            let start = if t.len() > 8 { t.len() - 8 } else { 0 };
            &&& r@.len() == t.len() - start
            &&& forall|k: int| 0 <= k < r@.len() ==> (#[trigger] r@[k])@ == t[start + k].role + ": "@
                + t[start + k].content
        }),
{
    let n = session.transcript.len();
    let start = if n > PLANNER_TRANSCRIPT_WINDOW { n - PLANNER_TRANSCRIPT_WINDOW } else { 0 };
    let mut out: Vec<String> = Vec::new();
    let mut i = start;
    while i < n
        invariant
            n == session.transcript@.len(),
            start <= i <= n,
            start == (if n > 8 { n - 8 } else { 0 }),
            out@.len() == i - start,
            forall|k: int| 0 <= k < out@.len() ==> (#[trigger] out@[k])@ == session@.transcript[start + k].role
                + ": "@ + session@.transcript[start + k].content,
        decreases n - i,
    {
        let m = &session.transcript[i];
        assert(session@.transcript[i as int] == m@);
        out.push(cat3(m.role.as_str(), ": ", m.content.as_str()));
        i = i + 1;
    }
    out
}

/// Whether the loop goes on with a session: it must still exist and be
/// running.
pub fn session_keeps_running(session: Option<&ProjectAgentSession>) -> (r: bool)
    ensures
        r == (session matches Some(s) && s@.run_status == "running"@),
{
    match session {
        Some(s) => str_eq(s.run_status.as_str(), "running"),
        None => false,
    }
}

/// What came of one loop step, as the loop hands it back.
#[derive(Debug, Clone, PartialEq, Eq)]
pub enum StepEvent {
    /// A command ran and produced a summary.
    CommandCompleted { command: String, summary: String },
    /// A command did not map to any action.
    CommandUnmapped { command: String },
    /// A command failed with an error.
    CommandFailed { command: String, error: String },
    /// The planner accepted a plan.
    PlannerAccepted { summary: String },
    /// The planner rejected the goal.
    PlannerRejected { reason: String },
    /// The goal is reached.
    Done,
    /// Nothing happened.
    Noop,
}

/// What the loop records after a step, and whether it ends.
#[derive(Debug, Clone, PartialEq, Eq)]
pub struct LoopEffects {
    /// A transcript entry to append: role and content.
    pub message: Option<(String, String)>,
    /// A run status to set, with its note.
    pub status: Option<(String, String)>,
    /// Whether the loop ends after this step.
    pub exit: bool,
}

/// The number of consecutive failures after which the loop gives up.
pub const MAX_LOOP_FAILURES: u8 = 3;

/// The abstract value of loop effects.
pub struct EffectsView {
    pub message: Option<(Seq<char>, Seq<char>)>,
    pub status: Option<(Seq<char>, Seq<char>)>,
    pub exit: bool,
}

impl View for LoopEffects {
    type V = EffectsView;

    open spec fn view(&self) -> EffectsView {
        EffectsView {
            message: match self.message {
                Some((a, b)) => Some((a@, b@)),
                None => None,
            },
            status: match self.status {
                Some((a, b)) => Some((a@, b@)),
                None => None,
            },
            exit: self.exit,
        }
    }
}

/// A failure count one higher, saturating at the largest `u8`.
pub open spec fn bump(failures: u8) -> u8 {
    if failures == u8::MAX { u8::MAX } else { (failures + 1) as u8 }
}

/// The loop's next failure count and effects after `event`.
pub open spec fn loop_step(failures: u8, event: StepEvent) -> (u8, EffectsView) {
    match event {
        StepEvent::CommandCompleted { command, summary } => (0, EffectsView {
            message: Some(("assistant"@, "Autonomous step `"@ + command@ + "` complete. "@ + summary@)),
            status: None,
            exit: false,
        }),
        StepEvent::CommandUnmapped { command } => (failures, EffectsView {
            message: Some((
                "system"@,
                "Autonomous step skipped: command `"@ + command@ + "` did not map to an action."@,
            )),
            status: None,
            exit: false,
        }),
        StepEvent::CommandFailed { command, error } => {
            let f = bump(failures);
            (f, EffectsView {
                message: Some(("system"@, "Autonomous step `"@ + command@ + "` failed: "@ + error@)),
                status: if f >= MAX_LOOP_FAILURES {
                    Some(("stopped"@, "Autonomous loop stopped after repeated failures."@))
                } else {
                    None
                },
                exit: f >= MAX_LOOP_FAILURES,
            })
        },
        StepEvent::PlannerAccepted { summary } => (failures, EffectsView {
            message: Some(("assistant"@, "Autonomous planner accepted structured plan: "@ + summary@)),
            status: Some((
                "idle"@,
                "Autonomous planner produced structured plan. Execution awaits generic planner action executor."@,
            )),
            exit: true,
        }),
        StepEvent::PlannerRejected { reason } => {
            let f = bump(failures);
            (f, EffectsView {
                message: Some(("system"@, "Autonomous planner rejected current goal: "@ + reason@)),
                status: if f >= MAX_LOOP_FAILURES {
                    Some(("stopped"@, "Autonomous loop stopped after repeated planner rejections."@))
                } else {
                    None
                },
                exit: f >= MAX_LOOP_FAILURES,
            })
        },
        StepEvent::Done => (failures, EffectsView {
            message: None,
            status: Some(("idle"@, "Autonomous run reached done state."@)),
            exit: true,
        }),
        StepEvent::Noop => (failures, EffectsView { message: None, status: None, exit: false }),
    }
}

/// The run loop's transition: from the failure count before a step and the
/// step's event, the failure count after it and what to record.
pub fn next_loop_state(failures: u8, event: StepEvent) -> (r: (u8, LoopEffects))
    ensures
        r.0 == loop_step(failures, event).0,
        r.1@ == loop_step(failures, event).1,
{
    match event {
        StepEvent::CommandCompleted { command, summary } => {
            let content = cat3("Autonomous step `", command.as_str(), "` complete. ");
            let content = cat(content.as_str(), summary.as_str());
            (0, LoopEffects {
                message: Some((String::from_str("assistant"), content)),
                status: None,
                exit: false,
            })
        },
        StepEvent::CommandUnmapped { command } => {
            let content = cat3(
                "Autonomous step skipped: command `",
                command.as_str(),
                "` did not map to an action.",
            );
            (failures, LoopEffects { message: Some((String::from_str("system"), content)), status: None, exit: false })
        },
        StepEvent::CommandFailed { command, error } => {
            let f = failures.saturating_add(1);
            let content = cat3("Autonomous step `", command.as_str(), "` failed: ");
            let content = cat(content.as_str(), error.as_str());
            let give_up = f >= MAX_LOOP_FAILURES;
            let status = if give_up {
                Some((
                    String::from_str("stopped"),
                    String::from_str("Autonomous loop stopped after repeated failures."),
                ))
            } else {
                None
            };
            (f, LoopEffects { message: Some((String::from_str("system"), content)), status, exit: give_up })
        },
        StepEvent::PlannerAccepted { summary } => {
            let content = cat("Autonomous planner accepted structured plan: ", summary.as_str());
            (failures, LoopEffects {
                message: Some((String::from_str("assistant"), content)),
                status: Some((
                    String::from_str("idle"),
                    String::from_str(
                        "Autonomous planner produced structured plan. Execution awaits generic planner action executor.",
                    ),
                )),
                exit: true,
            })
        },
        StepEvent::PlannerRejected { reason } => {
            let f = failures.saturating_add(1);
            let content = cat("Autonomous planner rejected current goal: ", reason.as_str());
            let give_up = f >= MAX_LOOP_FAILURES;
            let status = if give_up {
                Some((
                    String::from_str("stopped"),
                    String::from_str("Autonomous loop stopped after repeated planner rejections."),
                ))
            } else {
                None
            };
            (f, LoopEffects { message: Some((String::from_str("system"), content)), status, exit: give_up })
        },
        StepEvent::Done => {
            (failures, LoopEffects {
                message: None,
                status: Some((String::from_str("idle"), String::from_str("Autonomous run reached done state."))),
                exit: true,
            })
        },
        StepEvent::Noop => (failures, LoopEffects { message: None, status: None, exit: false }),
    }
}

/// The event of a `Command` step, from the outcome of executing it:
/// `Ok(Some(summary))`, `Ok(None)` when it mapped to no action, or
/// `Err(error)`.
pub fn command_event(command: String, outcome: Result<Option<String>, String>) -> (r: StepEvent)
    ensures
        match outcome {
            Ok(Some(s)) => r == (StepEvent::CommandCompleted { command, summary: s }),
            Ok(None) => r == (StepEvent::CommandUnmapped { command }),
            Err(e) => r == (StepEvent::CommandFailed { command, error: e }),
        },
{
    match outcome {
        Ok(Some(summary)) => StepEvent::CommandCompleted { command, summary },
        Ok(None) => StepEvent::CommandUnmapped { command },
        Err(error) => StepEvent::CommandFailed { command, error },
    }
}

/// A run of consecutive failures or planner rejections ends the loop at
/// the third one, and not before; a completed command resets the count.
pub proof fn lemma_loop_gives_up_after_three_failures(failures: u8, event: StepEvent)
    ensures
        (event is CommandFailed || event is PlannerRejected) ==> (loop_step(failures, event).1.exit
            <==> failures >= 2),
        (event is CommandFailed || event is PlannerRejected) && failures < 2 ==> loop_step(failures, event).0
            == failures + 1,
        event is CommandCompleted ==> loop_step(failures, event).0 == 0 && !loop_step(failures, event).1.exit,
        event is Noop ==> loop_step(failures, event) == (failures, EffectsView { message: None, status: None, exit: false }),
{
}

/// Every event that ends the loop also sets a run status, so the session
/// never stays marked running after the loop is gone.
pub proof fn lemma_exit_sets_status(failures: u8, event: StepEvent)
    ensures
        loop_step(failures, event).1.exit ==> loop_step(failures, event).1.status is Some,
        loop_step(failures, event).1.status is Some ==> loop_step(failures, event).1.exit,
{
}

/// Once the scaffold, compile and run marks are all in the transcript, a
/// hello-world goal is done; with no scaffold yet, the first step is
/// always to create it.
pub proof fn lemma_hello_world_progress(goal: Seq<char>, text: Seq<char>)
    requires
        contains_seq(goal, "hello world"@),
    ensures
        !contains_seq(text, "hello world scaffold ready"@) ==> hello_world_step(goal, text) == Some(
            Some("create hello world program"@),
        ),
        contains_seq(text, "hello world scaffold ready"@) && contains_seq(text, "compiled hello_world"@)
            && contains_seq(text, "program executed"@) ==> hello_world_step(goal, text) == Some(
            None::<Seq<char>>,
        ),
{
}

} // verus!
