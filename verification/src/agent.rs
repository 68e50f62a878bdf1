//! Agent runs: what a request for one comes to, in which project it may work,
//! how it is approved, stopped and reported, and what is left of it.
use vstd::prelude::*;

use crate::error;
use crate::error::{ApiError, Refusal};
use crate::intent;
use crate::intent::{AgentState, Continuation, MessageIntent};
use crate::text;

verus! {

/// How much a run may do.
#[derive(Clone, Copy, Debug, PartialEq, Eq, Structural)]
pub enum AgentMode {
    Chat,
    CodeAssist,
    Plan,
    Agent,
    Autonomous,
}

/// What a request for a run comes to.
#[derive(Debug, PartialEq, Eq)]
pub enum Opening {
    /// Nothing; the request is refused.
    Refused(ApiError),
    /// An answer that needs no run.
    Reply { disposition: &'static str, text: &'static str },
    /// Find the task to go on with.
    Continue,
    /// Start a run of the given work.
    Run(String),
}

/// The refusal of a request for a run that needs one.
pub open spec fn run_refusal(
    workspace: Seq<char>,
    folder_there: bool,
    mode: AgentMode,
) -> Option<Refusal> {
    if text::is_blank(workspace) {
        Some(
            error::bad_request(
                "workspace is empty"@,
                "Select a workspace folder first (§27); the agent never gets full-disk access."@,
            ),
        )
    } else if !folder_there {
        Some(
            error::bad_request(
                "workspace not found: "@ + workspace,
                "Select an existing workspace folder first (§27)."@,
            ),
        )
    } else if mode == AgentMode::Chat {
        Some(
            error::bad_request(
                "Chat mode has no tools"@,
                "Use code-assist, agent, or autonomous mode for tool runs."@,
            ),
        )
    } else {
        None
    }
}

/// What a request for a run comes to.
pub open spec fn opens(
    task: Seq<char>,
    workspace: Seq<char>,
    folder_there: bool,
    mode: AgentMode,
    meaning: MessageIntent,
    r: Opening,
) -> bool {
    if text::is_blank(task) {
        r matches Opening::Refused(e) && e@ == error::bad_request(
            "task is empty"@,
            "Describe what the agent should do."@,
        )
    } else if meaning == MessageIntent::Greeting {
        r matches Opening::Reply { disposition, text } && disposition@ == "conversation"@
            && text@ == "Hello! What would you like to work on?"@
    } else if meaning == MessageIntent::Acknowledgement {
        r matches Opening::Reply { disposition, text } && disposition@ == "conversation"@
            && text@ == "Got it. Let me know if you’d like anything else."@
    } else {
        match run_refusal(workspace, folder_there, mode) {
            Some(e) => r matches Opening::Refused(refused) && refused@ == e,
            None => if meaning == MessageIntent::Continue {
                r is Continue
            } else {
                r matches Opening::Run(t) && t@ == text::trimmed(task)
            },
        }
    }
}

/// A run is started only of a task that says something, in a folder that is
/// there, in a mode with tools; it is of the task as it was put. A courtesy
/// starts none, whatever folder and mode it names.
pub proof fn law_what_starts_a_run(
    task: Seq<char>,
    workspace: Seq<char>,
    folder_there: bool,
    mode: AgentMode,
    meaning: MessageIntent,
    r: Opening,
)
    requires
        opens(task, workspace, folder_there, mode, meaning, r),
    ensures
        r matches Opening::Run(t) ==> t@ == text::trimmed(task) && t@.len() > 0,
        r is Run || r is Continue ==> folder_there && mode != AgentMode::Chat && !text::is_blank(
            workspace,
        ),
        text::is_blank(task) ==> r is Refused,
        !text::is_blank(task) ==> {
            let fit = !text::is_blank(workspace) && folder_there && mode != AgentMode::Chat;
            &&& meaning == MessageIntent::Greeting || meaning == MessageIntent::Acknowledgement ==> r
                is Reply
            &&& meaning == MessageIntent::Task && fit ==> r is Run
            &&& meaning == MessageIntent::Continue && fit ==> r is Continue
            &&& (meaning == MessageIntent::Task || meaning == MessageIntent::Continue) && !fit ==> r
                is Refused
        },
{
    text::lemma_trimmed_empty_iff_blank(task);
}

/// What a request for a run comes to: a greeting or an acknowledgement is
/// answered without one; anything else needs a folder and a mode with tools.
pub fn open_run(
    task: &str,
    workspace: &str,
    folder_there: bool,
    mode: Option<AgentMode>,
    meaning: MessageIntent,
) -> (r: Opening)
    ensures
        opens(
            task@,
            workspace@,
            folder_there,
            match mode {
                Some(m) => m,
                None => AgentMode::Agent,
            },
            meaning,
            r,
        ),
{
    if text::blank(task) {
        return Opening::Refused(
            ApiError::bad("task is empty", "Describe what the agent should do."),
        );
    }
    if let Some(reply) = intent::canned_reply(meaning, false) {
        return Opening::Reply { disposition: "conversation", text: reply };
    }
    if text::blank(workspace) {
        return Opening::Refused(
            ApiError::bad(
                "workspace is empty",
                "Select a workspace folder first (§27); the agent never gets full-disk access.",
            ),
        );
    }
    if !folder_there {
        let mut m = "workspace not found: ".to_owned();
        m.append(workspace);
        return Opening::Refused(
            ApiError::bad(&m, "Select an existing workspace folder first (§27)."),
        );
    }
    if let Some(AgentMode::Chat) = mode {
        return Opening::Refused(
            ApiError::bad(
                "Chat mode has no tools",
                "Use code-assist, agent, or autonomous mode for tool runs.",
            ),
        );
    }
    match meaning {
        MessageIntent::Continue => Opening::Continue,
        _ => Opening::Run(text::trim(task)),
    }
}

/// What a request to go on comes to.
pub open spec fn goes_on(
    task: Seq<char>,
    found: Continuation,
    reply_asks: bool,
    r: Opening,
) -> bool {
    match found {
        Continuation::Task(saved) => r == Opening::Run(saved),
        Continuation::Reply(d, t) => if d@ == "needs_task"@ && reply_asks {
            r matches Opening::Run(run) && run@ == text::trimmed(task)
        } else {
            r == (Opening::Reply { disposition: d, text: t })
        },
    }
}

/// Saved work is taken up as it is saved, whatever the request to go on says.
/// Without any, the request starts a run only where the latest reply asked
/// something; a run that is going on, or waits for approval, is never joined by
/// another.
pub proof fn law_going_on_takes_up_saved_work(
    task: Seq<char>,
    found: Continuation,
    reply_asks: bool,
    r: Opening,
)
    requires
        goes_on(task, found, reply_asks, r),
    ensures
        found matches Continuation::Task(saved) ==> r == Opening::Run(saved),
        found is Reply && !reply_asks ==> r is Reply,
        found matches Continuation::Reply(d, t) && d@ == "conversation"@ ==> r == (Opening::Reply {
            disposition: found->Reply_0,
            text: found->Reply_1,
        }),
        found matches Continuation::Reply(d, t) && d@ == "needs_task"@ && reply_asks ==> r is Run
            && r->Run_0@ == text::trimmed(task),
        !(r is Refused) && !(r is Continue),
{
    reveal_strlit("needs_task");
    reveal_strlit("conversation");
    assert("needs_task"@.len() == 10 && "conversation"@.len() == 12);
}

/// What a request to go on comes to: the saved task; or, where there is none
/// and the latest reply offered something, the request itself, which accepts
/// the offer; or an answer.
pub fn continue_run(task: &str, found: Continuation, reply_asks: bool) -> (r: Opening)
    ensures
        goes_on(task@, found, reply_asks, r),
{
    match found {
        Continuation::Task(saved) => Opening::Run(saved),
        Continuation::Reply(d, t) => {
            if text::same(d, "needs_task") && reply_asks {
                Opening::Run(text::trim(task))
            } else {
                Opening::Reply { disposition: d, text: t }
            }
        },
    }
}

/// Why a run may not work in a folder.
pub open spec fn project_refusal(linked: Result<&str, &str>, requested: Result<&str, &str>) -> Option<
    Refusal,
> {
    match (linked, requested) {
        (Err(e), _) => Some(
            error::bad_request(
                "project unavailable: "@ + e@,
                "Reconnect this session to its intended project."@,
            ),
        ),
        (Ok(_), Err(e)) => Some(
            error::bad_request("project unavailable: "@ + e@, "Choose an accessible project."@),
        ),
        (Ok(a), Ok(b)) => if a@ != b@ {
            Some(
                error::bad_request(
                    "the requested folder differs from this session's linked project"@,
                    "Relink the session explicitly before starting work in a different project."@,
                ),
            )
        } else {
            None
        },
    }
}

/// A session's run works in the session's own project and in no other folder.
pub proof fn law_a_run_stays_in_its_project(linked: Result<&str, &str>, requested: Result<&str, &str>)
    ensures
        project_refusal(linked, requested) is None <==> (linked is Ok && requested is Ok
            && linked->Ok_0@ == requested->Ok_0@),
{
}

/// Refuses a run outside a code session's own project. The folders are given
/// by their real paths, or by why they have none.
pub fn admit_project(linked: Result<&str, &str>, requested: Result<&str, &str>) -> (r: Result<
    (),
    ApiError,
>)
    ensures
        error::refusal_of(r) == project_refusal(linked, requested),
{
    match linked {
        Err(e) => {
            let mut m = "project unavailable: ".to_owned();
            m.append(e);
            Err(ApiError::bad(&m, "Reconnect this session to its intended project."))
        },
        Ok(a) => match requested {
            Err(e) => {
                let mut m = "project unavailable: ".to_owned();
                m.append(e);
                Err(ApiError::bad(&m, "Choose an accessible project."))
            },
            Ok(b) => {
                if !text::same(a, b) {
                    return Err(
                        ApiError::bad(
                            "the requested folder differs from this session's linked project",
                            "Relink the session explicitly before starting work in a different project.",
                        ),
                    );
                }
                Ok(())
            },
        },
    }
}

/// A run thinks.
pub open spec fn thinks(asked: Option<bool>, session_default: bool, setting_default: bool) -> bool {
    match asked {
        Some(on) => on,
        None => session_default || setting_default,
    }
}

/// What is asked of a run decides whether it thinks; where nothing is asked it
/// thinks unless neither the session nor the setting wants it to.
pub proof fn law_what_is_asked_decides(on: bool, session_default: bool, setting_default: bool)
    ensures
        thinks(Some(on), session_default, setting_default) == on,
        thinks(None, true, setting_default),
        thinks(None, session_default, true),
        !thinks(None, false, false),
{
}

/// Whether a run thinks: as asked, and where nothing is asked if the session or
/// else the setting turns thinking on.
pub fn run_reasoning(asked: Option<bool>, session_default: bool, setting_default: bool) -> (r: bool)
    ensures
        r == thinks(asked, session_default, setting_default),
{
    match asked {
        Some(on) => on,
        None => session_default || setting_default,
    }
}

/// Refuses a run while the runtime is changed.
pub fn admit_run(runtime_free: bool) -> (r: Result<(), ApiError>)
    ensures
        error::refusal_of(r) == (if runtime_free {
            None
        } else {
            Some(
                Refusal {
                    status: 409,
                    message: "The model runtime is being updated."@,
                    hint: "Wait for the model to finish loading, then start the task."@,
                },
            )
        }),
{
    if runtime_free {
        Ok(())
    } else {
        Err(
            ApiError::new(
                409,
                "The model runtime is being updated.",
                "Wait for the model to finish loading, then start the task.",
            ),
        )
    }
}

/// What is left of a task, by the event of its run: nothing changes until the
/// run has ended.
pub open spec fn task_status(
    state: AgentState,
    mode: AgentMode,
    presents_plan: bool,
) -> Option<Seq<char>> {
    if !intent::ended(state) {
        None
    } else if state == AgentState::Completed {
        if mode == AgentMode::Plan && presents_plan {
            Some("planned"@)
        } else {
            Some("completed"@)
        }
    } else {
        Some("interrupted"@)
    }
}

/// What is left of a task, by the event of its run.
pub fn task_outcome(state: AgentState, mode: AgentMode, presents_plan: bool) -> (r: Option<
    &'static str,
>)
    ensures
        match task_status(state, mode, presents_plan) {
            Some(s) => r is Some && r->0@ == s,
            None => r is None,
        },
{
    match state {
        AgentState::Completed => {
            if mode == AgentMode::Plan && presents_plan {
                Some("planned")
            } else {
                Some("completed")
            }
        },
        AgentState::Failed | AgentState::Cancelled => Some("interrupted"),
        _ => None,
    }
}

/// A run that stopped can be taken up, and one that was done cannot: what a
/// finished run leaves behind is what a request to go on reads.
pub proof fn law_only_unfinished_work_is_taken_up(
    state: AgentState,
    mode: AgentMode,
    presents_plan: bool,
    meaning: MessageIntent,
)
    requires
        intent::ended(state),
        meaning == MessageIntent::Task,
    ensures
        intent::resumable(task_status(state, mode, presents_plan)->0, meaning) == (state
            != AgentState::Completed || (mode == AgentMode::Plan && presents_plan)),
{
    reveal_strlit("completed");
    reveal_strlit("planned");
    reveal_strlit("interrupted");
    assert("completed"@.len() == 9 && "planned"@.len() == 7 && "interrupted"@.len() == 11);
}

/// What a waiting run is told.
#[derive(Clone, Copy, Debug, PartialEq, Eq, Structural)]
pub enum ApprovalDecision {
    Approved { session: bool },
    Denied,
}

/// Why an approval is not taken.
pub open spec fn approval_refusal(known: bool, waiting: bool) -> Option<Refusal> {
    if !known {
        Some(error::missing("unknown agent run"@))
    } else if !waiting {
        Some(
            error::bad_request(
                "run is not waiting for approval"@,
                "The run either continues on its own or already finished."@,
            ),
        )
    } else {
        None
    }
}

/// What a waiting run is told.
pub open spec fn decided(approved: bool, grant_session: bool) -> ApprovalDecision {
    if approved {
        ApprovalDecision::Approved { session: grant_session }
    } else {
        ApprovalDecision::Denied
    }
}

/// Only a run that is there and waits is answered. It is approved only where
/// the user approves, for the session only where they grant that too; a denial
/// grants nothing, whatever else is asked with it.
pub proof fn law_only_an_approval_approves(
    known: bool,
    waiting: bool,
    approved: bool,
    grant_session: bool,
)
    ensures
        approval_refusal(known, waiting) is None <==> known && waiting,
        decided(approved, grant_session) is Approved <==> approved,
        decided(approved, grant_session) == (ApprovalDecision::Approved { session: true })
            <==> approved && grant_session,
        decided(false, grant_session) == ApprovalDecision::Denied,
{
}

/// Answers a run that waits for approval. A denial never grants a session.
pub fn resume_run(known: bool, waiting: bool, approved: bool, grant_session: bool) -> (r: Result<
    ApprovalDecision,
    ApiError,
>)
    ensures
        error::refusal_of(r) == approval_refusal(known, waiting),
        r matches Ok(d) ==> d == decided(approved, grant_session),
{
    if !known {
        return Err(ApiError::not_found("unknown agent run"));
    }
    if !waiting {
        return Err(
            ApiError::bad(
                "run is not waiting for approval",
                "The run either continues on its own or already finished.",
            ),
        );
    }
    Ok(
        if approved {
            ApprovalDecision::Approved { session: grant_session }
        } else {
            ApprovalDecision::Denied
        },
    )
}

/// What stopping a run comes to.
#[derive(Debug, PartialEq, Eq)]
pub enum Stopping {
    /// It had ended already.
    AlreadyFinished,
    /// Cancel it, deny what it waits for, and say so at this iteration.
    Cancel { message: &'static str, iteration: u32 },
}

/// What stopping a run comes to.
pub open spec fn stops(state: AgentState, last_iteration: Option<u32>, r: Stopping) -> bool {
    if intent::ended(state) {
        r is AlreadyFinished
    } else {
        r matches Stopping::Cancel { message, iteration } && message@
            == "Stopped by you. Completed actions and existing file changes have been kept."@
            && iteration == (match last_iteration {
            Some(n) => n,
            None => 0,
        })
    }
}

/// A run that has ended, in whatever way, is not cancelled again; one that goes
/// on or waits is, at the iteration it has come to.
pub proof fn law_a_run_is_stopped_once(state: AgentState, last_iteration: Option<u32>, r: Stopping)
    requires
        stops(state, last_iteration, r),
    ensures
        r is AlreadyFinished <==> (state == AgentState::Completed || state == AgentState::Failed
            || state == AgentState::Cancelled),
        r is Cancel && last_iteration is Some ==> r->iteration == last_iteration->0,
{
}

/// Stops a run unless it has ended.
pub fn stop_run(state: AgentState, last_iteration: Option<u32>) -> (r: Stopping)
    ensures
        stops(state, last_iteration, r),
{
    if intent::has_ended(state) {
        return Stopping::AlreadyFinished;
    }
    Stopping::Cancel {
        message: "Stopped by you. Completed actions and existing file changes have been kept.",
        iteration: match last_iteration {
            Some(n) => n,
            None => 0,
        },
    }
}

/// What a run that broke off unexpectedly says.
pub const BROKE_OFF: &'static str =
    "The agent stopped unexpectedly. Its recorded actions and any existing file changes were preserved; inspect them before retrying.";

/// What a run says before it has said anything.
pub const STARTING: &'static str = "Work is starting…";

/// The records of tool calls that are listed where no number is named.
pub fn default_exec_limit() -> (n: usize)
    ensures
        n == 50,
{
    50
}

/// The most records of tool calls that are listed: as asked, from 1 to 200.
pub fn record_limit(asked: usize) -> (n: usize)
    ensures
        n == crate::num::clamped(asked as int, 1, 200),
{
    if asked < 1 {
        1
    } else if asked > 200 {
        200
    } else {
        asked
    }
}

/// Whether nothing more comes of a run whose events had these states: one of
/// them is an end.
pub fn stream_ended(states: &[AgentState]) -> (r: bool)
    ensures
        r == exists|k: int| 0 <= k < states@.len() && crate::intent::ended(#[trigger] states@[k]),
{
    let mut i: usize = 0;
    while i < states.len()
        invariant
            i <= states@.len(),
            forall|k: int| 0 <= k < i ==> !crate::intent::ended(#[trigger] states@[k]),
        decreases states@.len() - i,
    {
        if crate::intent::has_ended(states[i]) {
            return true;
        }
        i += 1;
    }
    false
}

/// Where a run stands: by its last event, or nowhere yet.
pub fn run_standing(last: Option<(AgentState, u32)>) -> (r: (AgentState, u32))
    ensures
        r == (match last {
            Some(e) => e,
            None => (AgentState::Idle, 0),
        }),
{
    match last {
        Some(e) => e,
        None => (AgentState::Idle, 0),
    }
}

} // verus!
