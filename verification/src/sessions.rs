//! Sessions: how one is made, changed and branched off, which project it
//! belongs to, and how the list of them shows what each is doing.
use vstd::prelude::*;
use vstd::utf8::*;

use crate::decimal;
use crate::error;
use crate::error::{ApiError, Refusal};
use crate::intent::AgentState;
use crate::num;
use crate::text;
use crate::types;
use crate::workspace;
use crate::workspace::Workspace;

verus! {

/// Bytes of a title at most.
pub const MAX_TITLE_CHARS: usize = 200;

/// A session.
#[derive(Debug, PartialEq, Eq)]
pub struct Conversation {
    pub id: String,
    pub title: String,
    pub model_id: String,
    pub created_at: String,
    pub mode: String,
    pub workspace: String,
    pub reasoning_default: bool,
    pub search_default: bool,
    pub last_model: String,
    pub priority: String,
    pub related_to: String,
}

/// What a session is.
pub struct Session {
    pub id: Seq<char>,
    pub title: Seq<char>,
    pub model_id: Seq<char>,
    pub created_at: Seq<char>,
    pub mode: Seq<char>,
    pub workspace: Seq<char>,
    pub reasoning_default: bool,
    pub search_default: bool,
    pub last_model: Seq<char>,
    pub priority: Seq<char>,
    pub related_to: Seq<char>,
}

impl View for Conversation {
    type V = Session;

    open spec fn view(&self) -> Session {
        Session {
            id: self.id@,
            title: self.title@,
            model_id: self.model_id@,
            created_at: self.created_at@,
            mode: self.mode@,
            workspace: self.workspace@,
            reasoning_default: self.reasoning_default,
            search_default: self.search_default,
            last_model: self.last_model@,
            priority: self.priority@,
            related_to: self.related_to@,
        }
    }
}

// ---- a new session -------------------------------------------------------------------------------

/// What a new session is asked to be.
#[derive(Debug, PartialEq, Eq)]
pub struct NewConv {
    pub title: String,
    pub model_id: String,
    pub mode: String,
    pub workspace: String,
    pub reasoning_default: bool,
    pub search_default: bool,
}

/// The mode of a session that names none.
pub fn default_conv_mode() -> (s: String)
    ensures
        s@ == "chat"@,
{
    "chat".to_owned()
}

/// The refusal of a title.
pub open spec fn long_title() -> Refusal {
    error::bad_request("title too long"@, "Keep titles under 200 characters."@)
}

/// The refusal of a mode.
pub open spec fn bad_mode(mode: Seq<char>) -> Refusal {
    error::bad_request("invalid mode '"@ + mode + "'"@, "Mode must be 'chat' or 'code'."@)
}

/// Why a session cannot be made.
pub open spec fn creation_refusal(req: NewConv, project_known: bool) -> Option<Refusal> {
    if !text::is_blank(req.title@) && text::byte_len(req.title@) > MAX_TITLE_CHARS {
        Some(long_title())
    } else if req.mode@ != ""@ && req.mode@ != "chat"@ && req.mode@ != "code"@ {
        Some(bad_mode(req.mode@))
    } else if req.mode@ == "code"@ && text::is_blank(req.workspace@) {
        Some(
            error::bad_request(
                "code session has no workspace"@,
                "Select a project before starting a code session."@,
            ),
        )
    } else if req.mode@ == "code"@ && !project_known {
        Some(
            error::bad_request(
                "selected workspace no longer exists"@,
                "Select an available project and try again."@,
            ),
        )
    } else {
        None
    }
}

/// The session that is made.
pub open spec fn created(req: NewConv, id: Seq<char>, now: Seq<char>) -> Session {
    Session {
        id,
        title: if text::is_blank(req.title@) {
            "New chat"@
        } else {
            text::trimmed(req.title@)
        },
        model_id: req.model_id@,
        created_at: now,
        mode: if req.mode@ == "code"@ {
            "code"@
        } else {
            "chat"@
        },
        workspace: text::trimmed(req.workspace@),
        reasoning_default: req.reasoning_default,
        search_default: req.search_default,
        last_model: Seq::empty(),
        priority: "normal"@,
        related_to: Seq::empty(),
    }
}

fn invalid_mode(mode: &str) -> (e: ApiError)
    ensures
        e@ == bad_mode(mode@),
{
    let mut m = "invalid mode '".to_owned();
    m.append(mode);
    m.append("'");
    ApiError::bad(&m, "Mode must be 'chat' or 'code'.")
}

/// Makes a session. A code session belongs to a project that is there.
pub fn create_conversation(req: NewConv, project_known: bool, id: String, now: String) -> (r: Result<
    Conversation,
    ApiError,
>)
    ensures
        error::refusal_of(r) == creation_refusal(req, project_known),
        r matches Ok(c) ==> c@ == created(req, id@, now@),
{
    proof {
        reveal_strlit("");
        reveal_strlit("code");
        reveal_strlit("chat");
        assert("code"@[1] != "chat"@[1]);
    }
    let title = if text::blank(&req.title) {
        "New chat".to_owned()
    } else if text::bytes_in(&req.title) > MAX_TITLE_CHARS {
        return Err(ApiError::bad("title too long", "Keep titles under 200 characters."));
    } else {
        text::trim(&req.title)
    };
    let is_code = text::same(&req.mode, "code");
    if !is_code && !text::same(&req.mode, "") && !text::same(&req.mode, "chat") {
        return Err(invalid_mode(&req.mode));
    }
    let project = text::trim(&req.workspace);
    if is_code {
        if text::blank(&req.workspace) {
            return Err(
                ApiError::bad(
                    "code session has no workspace",
                    "Select a project before starting a code session.",
                ),
            );
        }
        if !project_known {
            return Err(
                ApiError::bad(
                    "selected workspace no longer exists",
                    "Select an available project and try again.",
                ),
            );
        }
    }
    Ok(
        Conversation {
            id,
            title,
            model_id: req.model_id,
            created_at: now,
            mode: if is_code { "code".to_owned() } else { "chat".to_owned() },
            workspace: project,
            reasoning_default: req.reasoning_default,
            search_default: req.search_default,
            last_model: String::new(),
            priority: "normal".to_owned(),
            related_to: String::new(),
        },
    )
}

/// A fresh session with the model, mode, project and defaults of another, or
/// with none of them.
pub open spec fn fresh(from: Option<Session>, id: Seq<char>, now: Seq<char>) -> Session {
    Session {
        id,
        title: "New chat"@,
        model_id: match from {
            Some(f) => f.model_id,
            None => Seq::empty(),
        },
        created_at: now,
        mode: match from {
            Some(f) => f.mode,
            None => Seq::empty(),
        },
        workspace: match from {
            Some(f) => f.workspace,
            None => Seq::empty(),
        },
        reasoning_default: match from {
            Some(f) => f.reasoning_default,
            None => false,
        },
        search_default: match from {
            Some(f) => f.search_default,
            None => false,
        },
        last_model: Seq::empty(),
        priority: "normal"@,
        related_to: Seq::empty(),
    }
}

/// A fresh session with the model, mode, project and defaults of another, or
/// with none of them.
pub fn fresh_conversation(from: Option<&Conversation>, id: String, now: String) -> (c: Conversation)
    ensures
        c@ == fresh(
            match from {
                Some(f) => Some(f@),
                None => None,
            },
            id@,
            now@,
        ),
{
    let mut c = Conversation {
        id,
        title: "New chat".to_owned(),
        model_id: String::new(),
        created_at: now,
        mode: String::new(),
        workspace: String::new(),
        reasoning_default: false,
        search_default: false,
        last_model: String::new(),
        priority: "normal".to_owned(),
        related_to: String::new(),
    };
    if let Some(f) = from {
        c.model_id = f.model_id.as_str().to_owned();
        c.mode = f.mode.as_str().to_owned();
        c.workspace = f.workspace.as_str().to_owned();
        c.reasoning_default = f.reasoning_default;
        c.search_default = f.search_default;
    }
    c
}

/// A session that branches off.
pub open spec fn forked(from: Session, title: Seq<char>, id: Seq<char>, now: Seq<char>) -> Session {
    Session {
        id,
        title: if text::is_blank(title) {
            from.title + " (fork)"@
        } else {
            text::trimmed(title)
        },
        created_at: now,
        ..from
    }
}

/// A session that branches off works as the one it comes from: with its model
/// and mode, in its project. One that begins afresh does so too, and keeps
/// nothing else of it. Either is a session of its own, made now, and a branch
/// without a title is told from its origin.
pub proof fn law_a_branch_works_as_its_origin(
    from: Session,
    title: Seq<char>,
    id: Seq<char>,
    now: Seq<char>,
)
    ensures
        ({
            let (fork, new) = (forked(from, title, id, now), fresh(Some(from), id, now));
            &&& fork.id == id && new.id == id && fork.created_at == now && new.created_at == now
            &&& fork.model_id == from.model_id && new.model_id == from.model_id
            &&& fork.mode == from.mode && new.mode == from.mode
            &&& fork.workspace == from.workspace && new.workspace == from.workspace
            &&& fork.reasoning_default == from.reasoning_default && new.reasoning_default
                == from.reasoning_default
            &&& fork.search_default == from.search_default && new.search_default
                == from.search_default
            &&& fork.last_model == from.last_model && fork.priority == from.priority
                && fork.related_to == from.related_to
            &&& new.last_model.len() == 0 && new.related_to.len() == 0 && new.priority == "normal"@
            &&& text::is_blank(title) ==> fork.title != from.title && from.title.is_prefix_of(
                fork.title,
            )
            &&& !text::is_blank(title) ==> fork.title == text::trimmed(title)
            &&& fresh(None, id, now).workspace.len() == 0 && fresh(None, id, now).model_id.len()
                == 0 && !fresh(None, id, now).search_default && !fresh(
                None,
                id,
                now,
            ).reasoning_default
        }),
{
    reveal_strlit(" (fork)");
    let fork = forked(from, title, id, now);
    if text::is_blank(title) {
        assert(fork.title.len() == from.title.len() + 7);
        assert(from.title =~= fork.title.subrange(0, from.title.len() as int));
    }
}

/// A session that branches off: everything of the other but its id, its time
/// and its title.
pub fn fork_conversation(from: &Conversation, title: &str, id: String, now: String) -> (c:
    Conversation)
    ensures
        c@ == forked(from@, title@, id@, now@),
{
    let name = if text::blank(title) {
        let mut t = from.title.as_str().to_owned();
        t.append(" (fork)");
        t
    } else {
        text::trim(title)
    };
    Conversation {
        id,
        title: name,
        model_id: from.model_id.as_str().to_owned(),
        created_at: now,
        mode: from.mode.as_str().to_owned(),
        workspace: from.workspace.as_str().to_owned(),
        reasoning_default: from.reasoning_default,
        search_default: from.search_default,
        last_model: from.last_model.as_str().to_owned(),
        priority: from.priority.as_str().to_owned(),
        related_to: from.related_to.as_str().to_owned(),
    }
}

/// The text of a message after an edit: trimmed, where it is text that a
/// message may have and the message is there.
pub fn edit_message(content: &str, message_there: bool) -> (r: Result<String, ApiError>)
    ensures
        error::refusal_of(r) == (match error::content_refusal(content@) {
            Some(e) => Some(e),
            None => if message_there {
                None
            } else {
                Some(error::missing("message not found"@))
            },
        }),
        r matches Ok(s) ==> s@ == text::trimmed(content@),
{
    match error::validate_content(content) {
        Ok(()) => {},
        Err(e) => {
            return Err(e);
        },
    }
    if !message_there {
        return Err(ApiError::not_found("message not found"));
    }
    Ok(text::trim(content))
}

// ---- a change --------------------------------------------------------------------------------------

/// A change to a session; what is absent stays.
#[derive(Debug, PartialEq, Eq)]
pub struct PatchConv {
    pub title: Option<String>,
    pub model_id: Option<String>,
    pub mode: Option<String>,
    pub workspace: Option<String>,
    pub reasoning_default: Option<bool>,
    pub search_default: Option<bool>,
    pub last_model: Option<String>,
}

/// What a change is held against.
#[derive(Debug, PartialEq, Eq)]
pub struct PatchFacts {
    /// The session's own project is registered.
    pub project_known: bool,
    /// The session has messages.
    pub has_messages: bool,
    /// What looking up the project it ends up with gave, and whether that
    /// project's folder is there.
    pub linked: Result<Option<Workspace>, String>,
    pub linked_is_dir: bool,
}

/// A text that may replace another.
pub open spec fn replaced(new: Option<String>, now: Seq<char>) -> Seq<char> {
    match new {
        Some(s) => s@,
        None => now,
    }
}

/// The session after the change.
pub open spec fn patched(c: Session, req: PatchConv) -> Session {
    Session {
        title: match req.title {
            Some(t) => if text::is_blank(t@) {
                c.title
            } else {
                text::trimmed(t@)
            },
            None => c.title,
        },
        model_id: replaced(req.model_id, c.model_id),
        mode: replaced(req.mode, c.mode),
        workspace: replaced(req.workspace, c.workspace),
        reasoning_default: match req.reasoning_default {
            Some(b) => b,
            None => c.reasoning_default,
        },
        search_default: match req.search_default {
            Some(b) => b,
            None => c.search_default,
        },
        last_model: replaced(req.last_model, c.last_model),
        ..c
    }
}

/// The change would take the session out of the project its messages belong to.
pub open spec fn leaves_its_project(c: Session, req: PatchConv, facts: PatchFacts) -> bool {
    req.workspace matches Some(w) && w@ != c.workspace && !text::is_blank(c.workspace)
        && facts.project_known && facts.has_messages
}

/// Why a change is refused; the first reason counts.
pub open spec fn patch_refusal(c: Session, req: PatchConv, facts: PatchFacts) -> Option<Refusal> {
    if req.title matches Some(t) && text::byte_len(t@) > MAX_TITLE_CHARS {
        Some(long_title())
    } else if req.mode matches Some(m) && m@ != "chat"@ && m@ != "code"@ {
        Some(bad_mode(req.mode->0@))
    } else if leaves_its_project(c, req, facts) {
        Some(
            Refusal {
                status: 409,
                message: "this session already works in another project"@,
                hint:
                    "A session stays in the project it started in. Start a new task in the other project."@,
            },
        )
    } else if req.workspace matches Some(w) && w@.len() > 0 && facts.linked is Err {
        Some(error::failure("storage error: "@ + facts.linked->Err_0@))
    } else if req.workspace matches Some(w) && w@.len() > 0 && facts.linked->Ok_0 is None {
        Some(error::missing("unknown workspace '"@ + req.workspace->0@ + "'"@))
    } else if (req.mode is Some || req.workspace is Some) && patched(c, req).mode == "code"@ {
        workspace::link_refusal(patched(c, req).workspace, facts.linked, facts.linked_is_dir)
    } else {
        None
    }
}

/// Changes a session. It keeps the project its messages belong to: their files
/// are in that folder.
pub fn patch_conversation(c: Conversation, req: PatchConv, facts: PatchFacts) -> (r: Result<
    Conversation,
    ApiError,
>)
    ensures
        error::refusal_of(r) == patch_refusal(c@, req, facts),
        r matches Ok(n) ==> n@ == patched(c@, req),
{
    let mut c = c;
    let ghost before = c@;
    let scope_changed = req.mode.is_some() || req.workspace.is_some();
    if let Some(t) = &req.title {
        if text::bytes_in(t) > MAX_TITLE_CHARS {
            return Err(ApiError::bad("title too long", "Keep titles under 200 characters."));
        }
        if !text::blank(t) {
            c.title = text::trim(t);
        }
    }
    if let Some(m) = &req.model_id {
        c.model_id = m.as_str().to_owned();
    }
    if let Some(m) = &req.mode {
        if !text::same(m, "chat") && !text::same(m, "code") {
            return Err(invalid_mode(m));
        }
        c.mode = m.as_str().to_owned();
    }
    if let Some(w) = &req.workspace {
        if !text::same(w, &c.workspace) && !text::blank(&c.workspace) && facts.project_known
            && facts.has_messages {
            return Err(
                ApiError::new(
                    409,
                    "this session already works in another project",
                    "A session stays in the project it started in. Start a new task in the other project.",
                ),
            );
        }
        if !w.as_str().is_empty() {
            match &facts.linked {
                Err(e) => {
                    let mut m = "storage error: ".to_owned();
                    m.append(e);
                    return Err(ApiError::internal(&m));
                },
                Ok(None) => {
                    let mut m = "unknown workspace '".to_owned();
                    m.append(w);
                    m.append("'");
                    return Err(ApiError::not_found(&m));
                },
                Ok(Some(_)) => {},
            }
        }
        c.workspace = w.as_str().to_owned();
    }
    if let Some(b) = req.reasoning_default {
        c.reasoning_default = b;
    }
    if let Some(b) = req.search_default {
        c.search_default = b;
    }
    if let Some(m) = &req.last_model {
        c.last_model = m.as_str().to_owned();
    }
    assert(c@ == patched(before, req));
    if scope_changed && text::same(&c.mode, "code") {
        match workspace::linked_code_workspace(&c.workspace, facts.linked, facts.linked_is_dir) {
            Ok(_) => {},
            Err(e) => {
                return Err(e);
            },
        }
    }
    Ok(c)
}

/// A session with messages in a registered project stays in it: no change
/// that is accepted moves it.
pub proof fn law_a_session_keeps_its_project(c: Session, req: PatchConv, facts: PatchFacts)
    requires
        facts.has_messages,
        facts.project_known,
        !text::is_blank(c.workspace),
        patch_refusal(c, req, facts) is None,
    ensures
        patched(c, req).workspace == c.workspace,
{
}

/// Nothing but what a change names is changed, and it never touches the id,
/// the time, the priority or the relation.
pub proof fn law_a_change_touches_only_what_it_names(c: Session, req: PatchConv)
    ensures
        patched(c, req).id == c.id,
        patched(c, req).created_at == c.created_at,
        patched(c, req).priority == c.priority,
        patched(c, req).related_to == c.related_to,
        req.title is None ==> patched(c, req).title == c.title,
        req.model_id is None ==> patched(c, req).model_id == c.model_id,
        req.mode is None ==> patched(c, req).mode == c.mode,
        req.workspace is None ==> patched(c, req).workspace == c.workspace,
        req.last_model is None ==> patched(c, req).last_model == c.last_model,
{
}

/// The priority is one there is.
pub open spec fn is_priority(p: Seq<char>) -> bool {
    p == "background"@ || p == "normal"@ || p == "high"@
}

/// Why a session's priority or relation is not changed.
pub open spec fn ranking_refusal(
    c: Session,
    priority: Option<String>,
    related_to: Option<String>,
    related_there: bool,
) -> Option<Refusal> {
    if priority matches Some(p) && !is_priority(p@) {
        Some(
            error::bad_request(
                "invalid priority '"@ + priority->0@ + "'"@,
                "Priority must be background, normal or high (§138)."@,
            ),
        )
    } else if related_to matches Some(o) && o@.len() > 0 && o@ != c.id && !related_there {
        Some(error::missing("related session not found"@))
    } else {
        None
    }
}

/// The session with another priority or relation.
pub open spec fn ranked(c: Session, priority: Option<String>, related_to: Option<String>) -> Session {
    Session {
        priority: replaced(priority, c.priority),
        related_to: replaced(related_to, c.related_to),
        ..c
    }
}

/// A session's priority is one of three and its relation to nothing, to itself
/// or to a session that is there: other changes are not taken. A change that is
/// taken makes what it names and leaves the rest.
pub proof fn law_a_session_is_ranked_as_asked(
    c: Session,
    priority: Option<String>,
    related_to: Option<String>,
    related_there: bool,
)
    ensures
        ranking_refusal(c, priority, related_to, related_there) is None <==> {
            &&& priority is Some ==> priority->0@ == "background"@ || priority->0@ == "normal"@
                || priority->0@ == "high"@
            &&& related_to is Some ==> related_to->0@.len() == 0 || related_to->0@ == c.id
                || related_there
        },
        priority matches Some(p) ==> ranked(c, priority, related_to).priority == p@,
        priority is None ==> ranked(c, priority, related_to).priority == c.priority,
        related_to matches Some(o) ==> ranked(c, priority, related_to).related_to == o@,
        related_to is None ==> ranked(c, priority, related_to).related_to == c.related_to,
        ranked(c, priority, related_to).id == c.id && ranked(c, priority, related_to).title == c.title
            && ranked(c, priority, related_to).workspace == c.workspace && ranked(
            c,
            priority,
            related_to,
        ).mode == c.mode && ranked(c, priority, related_to).model_id == c.model_id,
{
}

/// Changes a session's priority and what it is related to: nothing, itself, or
/// a session that is there.
pub fn patch_session(
    c: Conversation,
    priority: Option<String>,
    related_to: Option<String>,
    related_there: bool,
) -> (r: Result<Conversation, ApiError>)
    ensures
        error::refusal_of(r) == ranking_refusal(c@, priority, related_to, related_there),
        r matches Ok(n) ==> n@ == ranked(c@, priority, related_to),
{
    let mut c = c;
    if let Some(p) = priority {
        if !text::same(&p, "background") && !text::same(&p, "normal") && !text::same(&p, "high") {
            let mut m = "invalid priority '".to_owned();
            m.append(&p);
            m.append("'");
            return Err(ApiError::bad(&m, "Priority must be background, normal or high (§138)."));
        }
        c.priority = p;
    }
    if let Some(o) = related_to {
        if !o.as_str().is_empty() && !text::same(&o, &c.id) && !related_there {
            return Err(ApiError::not_found("related session not found"));
        }
        c.related_to = o;
    }
    Ok(c)
}

// ---- what each is doing -----------------------------------------------------------------------------

/// A run, as the list of sessions needs it.
#[derive(Debug, PartialEq, Eq)]
pub struct RunRow {
    pub id: String,
    pub conversation_id: String,
    pub state: AgentState,
    pub active: bool,
}

/// What a run's state is called in the list; `None` where it says nothing.
pub open spec fn activity_class(state: AgentState) -> Option<Seq<char>> {
    match state {
        AgentState::Planning | AgentState::Observing | AgentState::Compacting => Some(
            "thinking"@,
        ),
        AgentState::ExecutingTool => Some("tool"@),
        AgentState::WaitingPermission => Some("waiting"@),
        AgentState::Failed => Some("error"@),
        _ => None,
    }
}

fn class_of(state: AgentState) -> (r: Option<&'static str>)
    ensures
        match activity_class(state) {
            Some(c) => r is Some && r->0@ == c,
            None => r is None,
        },
{
    match state {
        AgentState::Planning | AgentState::Observing | AgentState::Compacting => Some("thinking"),
        AgentState::ExecutingTool => Some("tool"),
        AgentState::WaitingPermission => Some("waiting"),
        AgentState::Failed => Some("error"),
        _ => None,
    }
}

/// What the latest of the first `n` runs of the session that says anything
/// says.
pub open spec fn run_activity(runs: Seq<RunRow>, id: Seq<char>, n: int) -> Option<Seq<char>>
    decreases n,
{
    if n <= 0 {
        None
    } else if runs[n - 1].conversation_id@ == id && activity_class(runs[n - 1].state) is Some {
        activity_class(runs[n - 1].state)
    } else {
        run_activity(runs, id, n - 1)
    }
}

/// A run is working on the session.
pub open spec fn run_active(runs: Seq<RunRow>, id: Seq<char>) -> bool {
    exists|k: int|
        0 <= k < runs.len() && (#[trigger] runs[k]).active && runs[k].conversation_id@ == id
}

/// Something is being generated for the session.
pub open spec fn generating(active: Option<&str>, runs: Seq<RunRow>, id: Seq<char>) -> bool {
    id.len() > 0 && ((active matches Some(a) && a@ == id) || run_active(runs, id))
}

/// What the runs of a session say it is doing. Runs without a session belong
/// to none.
pub open spec fn session_activity(runs: Seq<RunRow>, id: Seq<char>) -> Option<Seq<char>> {
    if id.len() == 0 {
        None
    } else {
        run_activity(runs, id, runs.len() as int)
    }
}

/// Where a session stands in the list.
#[derive(Clone, Copy, Debug, PartialEq, Eq)]
pub struct Standing {
    pub residency: &'static str,
    pub activity: &'static str,
}

/// Where a session's state is kept, given what its runs say and whether
/// something is generated for it.
pub open spec fn residency(said: Option<Seq<char>>, busy: bool, warm: bool) -> Seq<char> {
    if busy || said is Some {
        "active"@
    } else if warm {
        "warm"@
    } else {
        "cold"@
    }
}

/// What a session is doing.
pub open spec fn activity(said: Option<Seq<char>>, busy: bool) -> Seq<char> {
    match said {
        Some(a) => a,
        None => if busy {
            "thinking"@
        } else {
            "idle"@
        },
    }
}

/// A session is active exactly while something is generated for it or its runs
/// say something, and warm only with the runtime up; what its runs say goes
/// before what else is known, and it is idle only where nothing is.
pub proof fn law_where_a_session_stands(said: Option<Seq<char>>, busy: bool, warm: bool)
    ensures
        residency(said, busy, warm) == "active"@ <==> busy || said is Some,
        residency(said, busy, warm) == "warm"@ <==> !busy && said is None && warm,
        residency(said, busy, warm) == "cold"@ <==> !busy && said is None && !warm,
        said matches Some(a) ==> activity(said, busy) == a,
        said is None ==> (activity(said, busy) == "idle"@ <==> !busy),
        said is None ==> (activity(said, busy) == "thinking"@ <==> busy),
{
    reveal_strlit("active");
    reveal_strlit("warm");
    reveal_strlit("cold");
    reveal_strlit("idle");
    reveal_strlit("thinking");
    assert("active"@.len() == 6 && "warm"@[0] == 'w' && "cold"@[0] == 'c' && "warm"@.len() == 4
        && "cold"@.len() == 4);
    assert("idle"@.len() == 4 && "thinking"@.len() == 8);
}

/// Where a session stands: active while something is generated for it or a run
/// of it says something, else warm while the runtime is up, else cold. What it
/// is doing is what its latest run says. `active` is the session that a reply
/// is being generated for.
pub fn session_standing(id: &str, active: Option<&str>, runs: &[RunRow], warm: bool) -> (s:
    Standing)
    ensures
        s.residency@ == residency(
            session_activity(runs@, id@),
            generating(active, runs@, id@),
            warm,
        ),
        s.activity@ == activity(session_activity(runs@, id@), generating(active, runs@, id@)),
{
    if text::char_count(id) == 0 {
        return Standing { residency: if warm { "warm" } else { "cold" }, activity: "idle" };
    }
    let mut busy = match active {
        Some(a) => text::same(a, id),
        None => false,
    };
    let first = busy;
    let mut said: Option<&'static str> = None;
    let mut i: usize = 0;
    while i < runs.len()
        invariant
            i <= runs@.len(),
            first == (active matches Some(a) && a@ == id@),
            busy == (first || run_active(runs@.take(i as int), id@)),
            match run_activity(runs@, id@, i as int) {
                Some(a) => said is Some && said->0@ == a,
                None => said is None,
            },
        decreases runs@.len() - i,
    {
        let r = &runs[i];
        let own = text::same(&r.conversation_id, id);
        proof {
            let before = runs@.take(i as int);
            let after = runs@.take(i + 1);
            assert(after[i as int] == runs@[i as int]);
            if run_active(before, id@) {
                let k = choose|k: int|
                    0 <= k < before.len() && (#[trigger] before[k]).active
                        && before[k].conversation_id@ == id@;
                assert(after[k].active && after[k].conversation_id@ == id@);
            }
            if run_active(after, id@) && !(own && r.active) {
                let k = choose|k: int|
                    0 <= k < after.len() && (#[trigger] after[k]).active
                        && after[k].conversation_id@ == id@;
                assert(before[k].active && before[k].conversation_id@ == id@);
            }
        }
        if own && r.active {
            busy = true;
        }
        if own {
            if let Some(c) = class_of(r.state) {
                said = Some(c);
            }
        }
        i += 1;
    }
    assert(runs@.take(i as int) =~= runs@);
    let residency = if busy || said.is_some() {
        "active"
    } else if warm {
        "warm"
    } else {
        "cold"
    };
    let activity = match said {
        Some(a) => a,
        None => if busy { "thinking" } else { "idle" },
    };
    Standing { residency, activity }
}

// ---- after a restart ----------------------------------------------------------------------------------

/// The session was last used with another model than the one that is loaded.
pub open spec fn is_stale(c: Session, loaded: Seq<char>) -> bool {
    c.last_model.len() > 0 && c.last_model != loaded
}

/// Those of the first `n` sessions that are stale, by position.
pub open spec fn stale_among(all: Seq<Conversation>, loaded: Seq<char>, n: int) -> Seq<int>
    decreases n,
{
    if n <= 0 {
        Seq::empty()
    } else if is_stale(all[n - 1]@, loaded) {
        stale_among(all, loaded, n - 1).push(n - 1)
    } else {
        stale_among(all, loaded, n - 1)
    }
}

/// The sessions that wait to be taken up with the loaded model or let go: the
/// first fifty.
pub fn stale_sessions(all: &[Conversation], loaded: &str) -> (r: Vec<usize>)
    ensures
        ({
            let stale = stale_among(all@, loaded@, all@.len() as int);
            r@.map_values(|i: usize| i as int) == stale.take(num::lesser(stale.len() as int, 50))
        }),
{
    let mut v: Vec<usize> = Vec::new();
    let mut i: usize = 0;
    assert(v@.map_values(|i: usize| i as int) =~= Seq::<int>::empty());
    while i < all.len()
        invariant
            i <= all@.len(),
            v@.map_values(|i: usize| i as int) == stale_among(all@, loaded@, i as int),
        decreases all@.len() - i,
    {
        let m = &all[i].last_model;
        if !m.as_str().is_empty() && !text::same(m, loaded) {
            let ghost was = v@;
            v.push(i);
            assert(v@.map_values(|i: usize| i as int) =~= was.map_values(|i: usize| i as int).push(
                i as int,
            ));
        }
        i += 1;
    }
    let ghost stale = v@.map_values(|i: usize| i as int);
    assert(stale.len() == v@.len());
    if v.len() > 50 {
        v.truncate(50);
    }
    assert(v@.map_values(|i: usize| i as int) =~= stale.take(num::lesser(stale.len() as int, 50)));
    v
}

// ---- row actions -----------------------------------------------------------------------------------------

/// What a row action does.
#[derive(Clone, Copy, Debug, PartialEq, Eq, Structural)]
pub enum RowAction {
    /// Stop what the session is doing.
    Stop,
    /// Compact the session.
    Reduce,
}

/// Why a row action is refused.
pub open spec fn row_refusal(action: Seq<char>, session_there: bool, running: bool) -> Option<
    Refusal,
> {
    if !session_there {
        Some(error::missing("conversation not found"@))
    } else if action == "pause"@ || action == "stop"@ {
        None
    } else if action == "reduce"@ {
        if running {
            None
        } else {
            Some(
                error::bad_request(
                    "cannot reduce without inference"@,
                    "Start inference first, then reduce (runs /compact)."@,
                ),
            )
        }
    } else {
        Some(
            error::bad_request(
                "unknown action '"@ + action + "'"@,
                "Action must be pause, stop or reduce (§139)."@,
            ),
        )
    }
}

/// What a row action that is taken does.
pub open spec fn row_does(action: Seq<char>) -> RowAction {
    if action == "pause"@ || action == "stop"@ {
        RowAction::Stop
    } else {
        RowAction::Reduce
    }
}

/// A session that is there can always be paused or stopped, and compacted only
/// while the runtime is up; nothing else can be done to it from its row.
pub proof fn law_what_a_row_action_does(action: Seq<char>, session_there: bool, running: bool)
    ensures
        row_refusal(action, session_there, running) is None <==> session_there && (action
            == "pause"@ || action == "stop"@ || (action == "reduce"@ && running)),
        row_does("pause"@) == RowAction::Stop,
        row_does("stop"@) == RowAction::Stop,
        row_does("reduce"@) == RowAction::Reduce,
{
    reveal_strlit("pause");
    reveal_strlit("stop");
    reveal_strlit("reduce");
    assert("pause"@.len() == 5 && "stop"@.len() == 4 && "reduce"@.len() == 6);
}

/// What a row action does; compacting needs the runtime.
pub fn row_action(action: &str, session_there: bool, running: bool) -> (r: Result<
    RowAction,
    ApiError,
>)
    ensures
        error::refusal_of(r) == row_refusal(action@, session_there, running),
        r matches Ok(a) ==> a == row_does(action@),
{
    if !session_there {
        return Err(ApiError::not_found("conversation not found"));
    }
    if text::same(action, "pause") || text::same(action, "stop") {
        return Ok(RowAction::Stop);
    }
    if text::same(action, "reduce") {
        if !running {
            return Err(
                ApiError::bad(
                    "cannot reduce without inference",
                    "Start inference first, then reduce (runs /compact).",
                ),
            );
        }
        return Ok(RowAction::Reduce);
    }
    let mut m = "unknown action '".to_owned();
    m.append(action);
    m.append("'");
    Err(ApiError::bad(&m, "Action must be pause, stop or reduce (§139)."))
}

/// The positions among the first `n` runs that are stopped with the session.
pub open spec fn stopped_among(runs: Seq<RunRow>, id: Seq<char>, n: int) -> Seq<int>
    decreases n,
{
    if n <= 0 {
        Seq::empty()
    } else if runs[n - 1].conversation_id@ == id && runs[n - 1].active {
        stopped_among(runs, id, n - 1).push(n - 1)
    } else {
        stopped_among(runs, id, n - 1)
    }
}

/// The runs that are stopped with the session: its own active ones.
pub fn runs_to_stop(runs: &[RunRow], id: &str) -> (r: Vec<usize>)
    ensures
        r@.map_values(|i: usize| i as int) == stopped_among(runs@, id@, runs@.len() as int),
{
    let mut v: Vec<usize> = Vec::new();
    let mut i: usize = 0;
    assert(v@.map_values(|i: usize| i as int) =~= Seq::<int>::empty());
    while i < runs.len()
        invariant
            i <= runs@.len(),
            v@.map_values(|i: usize| i as int) == stopped_among(runs@, id@, i as int),
        decreases runs@.len() - i,
    {
        if text::same(&runs[i].conversation_id, id) && runs[i].active {
            let ghost was = v@;
            v.push(i);
            assert(v@.map_values(|i: usize| i as int) =~= was.map_values(|i: usize| i as int).push(
                i as int,
            ));
        }
        i += 1;
    }
    v
}

/// What stopping did: how much of a reply was kept, and which runs ended. One
/// line each; nothing where there was nothing to stop.
pub fn stop_details(chars_kept: Option<usize>, run_ids: &[String]) -> (r: Vec<String>)
    ensures
        types::texts(r@) == (match chars_kept {
            Some(n) => seq![
                "generation stopped ("@ + decimal::digits(n as nat) + " chars kept)"@,
            ],
            None => Seq::empty(),
        }) + types::texts(run_ids@).map_values(
            |id: Seq<char>| "agent run "@ + text::first_chars(id, 8) + " stopped"@,
        ),
{
    let ghost lines = types::texts(run_ids@).map_values(
        |id: Seq<char>| "agent run "@ + text::first_chars(id, 8) + " stopped"@,
    );
    let mut v: Vec<String> = Vec::new();
    if let Some(n) = chars_kept {
        let mut s = "generation stopped (".to_owned();
        let kept = decimal::decimal(n as u64);
        s.append(&kept);
        s.append(" chars kept)");
        v.push(s);
    }
    let ghost head = types::texts(v@);
    proof {
        assert(head =~= (match chars_kept {
            Some(n) => seq![
                "generation stopped ("@ + decimal::digits(n as nat) + " chars kept)"@,
            ],
            None => Seq::empty(),
        }));
        assert(head + lines.take(0) =~= head);
    }
    let mut i: usize = 0;
    while i < run_ids.len()
        invariant
            i <= run_ids@.len(),
            lines == types::texts(run_ids@).map_values(
                |id: Seq<char>| "agent run "@ + text::first_chars(id, 8) + " stopped"@,
            ),
            types::texts(v@) == head + lines.take(i as int),
        decreases run_ids@.len() - i,
    {
        let mut s = "agent run ".to_owned();
        let short = text::take_chars(&run_ids[i], 8);
        s.append(&short);
        s.append(" stopped");
        let ghost was = v@;
        v.push(s);
        proof {
            assert(types::texts(run_ids@)[i as int] == run_ids@[i as int]@);
            assert(lines[i as int] == v@.last()@);
            assert(types::texts(v@) =~= types::texts(was).push(lines[i as int]));
            assert(lines.take(i + 1) =~= lines.take(i as int).push(lines[i as int]));
            assert(types::texts(v@) =~= head + lines.take(i + 1));
        }
        i += 1;
    }
    assert(lines.take(i as int) =~= lines);
    v
}

/// What stopping says where there was nothing to stop.
pub const NOTHING_LIVE: &'static str = "Session has no live generation or agent work.";

// ---- what sessions are -------------------------------------------------------------------------------

/// A session is made exactly where its title has at most 200 bytes or is blank,
/// its mode is chat, code or none, and a code session names a project that is
/// there. It is what was asked for, in chat unless code was asked for, and has a
/// title in any case.
pub proof fn law_a_session_is_made_as_asked(
    req: NewConv,
    project_known: bool,
    id: Seq<char>,
    now: Seq<char>,
)
    ensures
        creation_refusal(req, project_known) is None <==> {
            &&& text::is_blank(req.title@) || encode_utf8(req.title@).len() <= 200
            &&& req.mode@ == ""@ || req.mode@ == "chat"@ || req.mode@ == "code"@
            &&& req.mode@ == "code"@ ==> !text::is_blank(req.workspace@) && project_known
        },
        ({
            let c = created(req, id, now);
            &&& c.id == id && c.created_at == now
            &&& c.mode == "code"@ <==> req.mode@ == "code"@
            &&& c.mode == "chat"@ <==> req.mode@ != "code"@
            &&& !text::is_blank(req.title@) ==> c.title == text::trimmed(req.title@)
            &&& c.title.len() > 0
            &&& c.model_id == req.model_id@ && c.workspace == text::trimmed(req.workspace@)
            &&& c.reasoning_default == req.reasoning_default && c.search_default
                == req.search_default
            &&& c.priority == "normal"@ && c.last_model.len() == 0 && c.related_to.len() == 0
        }),
{
    text::lemma_byte_len(req.title@);
    text::lemma_trimmed_empty_iff_blank(req.title@);
    reveal_strlit("New chat");
    reveal_strlit("chat");
    reveal_strlit("code");
    assert("chat"@[1] == 'h' && "code"@[1] == 'o');
}

/// A change makes of a session what it names: a title that is not blank without
/// the white space around it, and all else as it is given.
pub proof fn law_a_change_makes_what_it_names(c: Session, req: PatchConv)
    ensures
        ({
            let n = patched(c, req);
            &&& req.title matches Some(t) ==> n.title == (if text::is_blank(t@) {
                c.title
            } else {
                text::trimmed(t@)
            })
            &&& req.model_id matches Some(m) ==> n.model_id == m@
            &&& req.mode matches Some(m) ==> n.mode == m@
            &&& req.workspace matches Some(w) ==> n.workspace == w@
            &&& req.reasoning_default matches Some(b) ==> n.reasoning_default == b
            &&& req.search_default matches Some(b) ==> n.search_default == b
            &&& req.last_model matches Some(m) ==> n.last_model == m@
            &&& req.reasoning_default is None ==> n.reasoning_default == c.reasoning_default
            &&& req.search_default is None ==> n.search_default == c.search_default
        }),
{
}

/// A change is taken only where the session is then still sound: its title short,
/// its mode chat or code, a project that it names there, and where the change
/// makes or moves a code session, that session's project there with its folder.
/// A change that names neither mode nor project is refused for its title alone.
pub proof fn law_a_changed_session_is_sound(c: Session, req: PatchConv, facts: PatchFacts)
    ensures
        patch_refusal(c, req, facts) is None ==> {
            let n = patched(c, req);
            &&& req.title matches Some(t) ==> encode_utf8(t@).len() <= 200
            &&& req.mode is Some ==> n.mode == "chat"@ || n.mode == "code"@
            &&& req.workspace is Some && req.workspace->0@.len() > 0 ==> facts.linked is Ok
                && facts.linked->Ok_0 is Some
            &&& (req.mode is Some || req.workspace is Some) && n.mode == "code"@
                ==> !text::is_blank(n.workspace) && facts.linked is Ok && facts.linked->Ok_0 is Some
                && facts.linked_is_dir
        },
        req.mode is None && req.workspace is None ==> (patch_refusal(c, req, facts) is None
            <==> req.title is None || encode_utf8(req.title->0@).len() <= 200),
{
    if let Some(t) = req.title {
        text::lemma_byte_len(t@);
    }
}

/// What a session is doing is what its latest run that says anything says: a
/// run of another session says nothing of it. Here `k` is that run, or -1.
pub proof fn law_the_latest_run_says(runs: Seq<RunRow>, id: Seq<char>, k: int)
    requires
        -1 <= k < runs.len(),
        k >= 0 ==> runs[k].conversation_id@ == id && activity_class(runs[k].state) is Some,
        forall|j: int|
            k < j < runs.len() && (#[trigger] runs[j]).conversation_id@ == id ==> activity_class(
                runs[j].state,
            ) is None,
    ensures
        run_activity(runs, id, runs.len() as int) == (if k >= 0 {
            activity_class(runs[k].state)
        } else {
            None
        }),
{
    lemma_run_activity(runs, id, k, runs.len() as int);
}

proof fn lemma_run_activity(runs: Seq<RunRow>, id: Seq<char>, k: int, n: int)
    requires
        -1 <= k < n <= runs.len() || (k == -1 && n == 0),
        k >= 0 ==> runs[k].conversation_id@ == id && activity_class(runs[k].state) is Some,
        forall|j: int|
            k < j < runs.len() && (#[trigger] runs[j]).conversation_id@ == id ==> activity_class(
                runs[j].state,
            ) is None,
    ensures
        run_activity(runs, id, n) == (if k >= 0 {
            activity_class(runs[k].state)
        } else {
            None
        }),
    decreases n,
{
    if n > 0 && n - 1 > k {
        lemma_run_activity(runs, id, k, n - 1);
    }
}

/// A run that waits for the user shows as waiting, one that uses a tool as that,
/// one that failed as an error, one that plans, looks or compacts as thinking;
/// one that is idle, done or stopped shows as nothing.
pub proof fn law_what_a_run_shows_as(state: AgentState)
    ensures
        activity_class(state) == Some("waiting"@) <==> state == AgentState::WaitingPermission,
        activity_class(state) == Some("tool"@) <==> state == AgentState::ExecutingTool,
        activity_class(state) == Some("error"@) <==> state == AgentState::Failed,
        activity_class(state) == Some("thinking"@) <==> (state == AgentState::Planning || state
            == AgentState::Observing || state == AgentState::Compacting),
        activity_class(state) is None <==> (state == AgentState::Idle || state
            == AgentState::Completed || state == AgentState::Cancelled),
{
    reveal_strlit("waiting");
    reveal_strlit("tool");
    reveal_strlit("error");
    reveal_strlit("thinking");
    assert("waiting"@.len() == 7 && "tool"@.len() == 4 && "error"@.len() == 5 && "thinking"@.len()
        == 8);
}

/// Stopping a session stops its own active runs, all of them and no others.
pub proof fn law_stopping_ends_the_sessions_own_runs(runs: Seq<RunRow>, id: Seq<char>, n: int)
    requires
        0 <= n <= runs.len(),
    ensures
        forall|k: int|
            stopped_among(runs, id, n).contains(k) <==> 0 <= k < n && (
            #[trigger] runs[k]).conversation_id@ == id && runs[k].active,
        stopped_among(runs, id, n).no_duplicates(),
    decreases n,
{
    if n > 0 {
        law_stopping_ends_the_sessions_own_runs(runs, id, n - 1);
        let before = stopped_among(runs, id, n - 1);
        let all = stopped_among(runs, id, n);
        assert forall|k: int|
            all.contains(k) <==> 0 <= k < n && (#[trigger] runs[k]).conversation_id@ == id
                && runs[k].active by {
            if all.len() > before.len() {
                assert(all == before.push(n - 1));
                assert(all[all.len() - 1] == n - 1);
                if before.contains(k) {
                    let j = choose|j: int| 0 <= j < before.len() && before[j] == k;
                    assert(all[j] == k);
                }
                if all.contains(k) && k != n - 1 {
                    let j = choose|j: int| 0 <= j < all.len() && all[j] == k;
                    assert(before[j] == k);
                }
            }
        }
        assert forall|i: int, j: int|
            0 <= i < all.len() && 0 <= j < all.len() && i != j implies all[i] != all[j] by {
            assert(forall|m: int| 0 <= m < before.len() ==> before.contains(#[trigger] before[m]));
            assert(!before.contains(n - 1));
            if all.len() > before.len() {
                assert(all[all.len() - 1] == n - 1);
            }
        }
    }
}

/// The sessions to be taken up or let go are those that were last used with
/// another model than the loaded one; a session that was never used with any is
/// not among them.
pub proof fn law_which_sessions_wait(all: Seq<Conversation>, loaded: Seq<char>, n: int)
    requires
        0 <= n <= all.len(),
    ensures
        forall|k: int|
            stale_among(all, loaded, n).contains(k) <==> 0 <= k < n && (
            #[trigger] all[k]).last_model@.len() > 0 && all[k].last_model@ != loaded,
    decreases n,
{
    if n > 0 {
        law_which_sessions_wait(all, loaded, n - 1);
        let before = stale_among(all, loaded, n - 1);
        let now = stale_among(all, loaded, n);
        assert forall|k: int|
            now.contains(k) <==> 0 <= k < n && (#[trigger] all[k]).last_model@.len() > 0
                && all[k].last_model@ != loaded by {
            if now.len() > before.len() {
                assert(now == before.push(n - 1));
                assert(now[now.len() - 1] == n - 1);
                if before.contains(k) {
                    let j = choose|j: int| 0 <= j < before.len() && before[j] == k;
                    assert(now[j] == k);
                }
                if now.contains(k) && k != n - 1 {
                    let j = choose|j: int| 0 <= j < now.len() && now[j] == k;
                    assert(before[j] == k);
                }
            }
        }
    }
}

/// Something is generated for a session exactly where the reply in progress is
/// its own or a run of it is active; for no session in particular never.
pub proof fn law_when_something_is_generated(active: Option<&str>, runs: Seq<RunRow>, id: Seq<char>)
    requires
        id.len() > 0,
    ensures
        active is Some && active->0@ == id ==> generating(active, runs, id),
        (forall|k: int|
            0 <= k < runs.len() && (#[trigger] runs[k]).conversation_id@ == id ==> !runs[k].active)
            ==> (generating(active, runs, id) <==> active is Some && active->0@ == id),
        (exists|k: int|
            0 <= k < runs.len() && (#[trigger] runs[k]).conversation_id@ == id && runs[k].active)
            ==> generating(active, runs, id),
        !generating(active, runs, Seq::empty()),
        session_activity(runs, Seq::empty()) is None,
        session_activity(runs, id) == run_activity(runs, id, runs.len() as int),
{
    assert(Seq::<char>::empty().len() == 0);
}

} // verus!
