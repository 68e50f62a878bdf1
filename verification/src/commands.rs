//! Slash commands: what each asks for, where it works, and what it answers.
use vstd::prelude::*;

use crate::agent::AgentMode;
use crate::decimal;
use crate::error;
use crate::error::{ApiError, Refusal};
use crate::gauge::ContextNumbers;
use crate::text;
use crate::types;
use crate::types::Message;
use crate::workspace::Workspace;

verus! {

/// What a command resolved to: plain text, or something the interface does.
#[derive(Debug, PartialEq, Eq)]
pub enum CommandOutcome {
    Message(String),
    NewConversation { id: String, message: String },
    AgentRun { run_id: String, message: String },
    Retry { text: String },
}

/// What the interface does: its kind, and the field it needs.
#[derive(Debug, PartialEq, Eq)]
pub struct Action {
    pub kind: &'static str,
    pub field: Option<(&'static str, String)>,
}

/// What an outcome says.
pub open spec fn outcome_text(o: CommandOutcome) -> Seq<char> {
    match o {
        CommandOutcome::Message(t) => t@,
        CommandOutcome::NewConversation { message, .. } => message@,
        CommandOutcome::AgentRun { message, .. } => message@,
        CommandOutcome::Retry { text } => "Retrying: "@ + text@,
    }
}

impl CommandOutcome {
    /// What the outcome says.
    pub fn text(&self) -> (s: String)
        ensures
            s@ == outcome_text(*self),
    {
        match self {
            CommandOutcome::Message(t) => t.as_str().to_owned(),
            CommandOutcome::NewConversation { message, .. } => message.as_str().to_owned(),
            CommandOutcome::AgentRun { message, .. } => message.as_str().to_owned(),
            CommandOutcome::Retry { text } => {
                let mut s = "Retrying: ".to_owned();
                s.append(text);
                s
            },
        }
    }

    /// What the interface does.
    pub fn action(&self) -> (a: Action)
        ensures
            match *self {
                CommandOutcome::Message(_) => a.kind@ == "message"@ && a.field is None,
                CommandOutcome::NewConversation { id, .. } => a.kind@ == "clear"@ && (
                a.field matches Some((name, value)) && name@ == "conversation_id"@ && value@
                    == id@),
                CommandOutcome::AgentRun { run_id, .. } => a.kind@ == "agent"@ && (
                a.field matches Some((name, value)) && name@ == "run_id"@ && value@ == run_id@),
                CommandOutcome::Retry { text } => a.kind@ == "retry"@ && (a.field matches Some(
                    (name, value),
                ) && name@ == "text"@ && value@ == text@),
            },
    {
        match self {
            CommandOutcome::Message(_) => Action { kind: "message", field: None },
            CommandOutcome::NewConversation { id, .. } => Action {
                kind: "clear",
                field: Some(("conversation_id", id.as_str().to_owned())),
            },
            CommandOutcome::AgentRun { run_id, .. } => Action {
                kind: "agent",
                field: Some(("run_id", run_id.as_str().to_owned())),
            },
            CommandOutcome::Retry { text } => Action {
                kind: "retry",
                field: Some(("text", text.as_str().to_owned())),
            },
        }
    }
}

/// What a command's chat turn shows, and whether it is saved: a refusal is
/// shown and not saved.
pub fn command_turn(outcome: &Result<CommandOutcome, ApiError>) -> (r: (String, bool))
    ensures
        r.0@ == (match *outcome {
            Ok(o) => outcome_text(o),
            Err(e) => "Command failed: "@ + e.message@,
        }),
        r.1 == outcome is Ok,
{
    match outcome {
        Ok(o) => (o.text(), true),
        Err(e) => {
            let mut s = "Command failed: ".to_owned();
            s.append(&e.message);
            (s, false)
        },
    }
}

// ---- where a command works -----------------------------------------------------------------------

/// The folder that a command works in: the session's project, where that is
/// registered and there, else the folder that the command names.
pub open spec fn folder(
    named: Option<&str>,
    named_is_dir: bool,
    linked: Option<Workspace>,
    linked_is_dir: bool,
) -> Result<Seq<char>, Refusal> {
    if linked is Some && linked_is_dir {
        Ok(linked->0.path@)
    } else if named matches Some(p) && !text::is_blank(p@) {
        if named_is_dir {
            Ok(text::trimmed(named->0@))
        } else {
            Err(
                error::bad_request(
                    "directory not found: "@ + named->0@,
                    "Pass an existing directory or link the chat to a workspace."@,
                ),
            )
        }
    } else {
        match linked {
            Some(w) => Err(
                error::bad_request(
                    "linked workspace '"@ + w.name@ + "' is missing: "@ + w.path@,
                    "Pick another workspace or pass a directory."@,
                ),
            ),
            None => Err(
                error::bad_request(
                    "no workspace linked"@,
                    "Link this chat to a workspace (Code mode) or pass a directory argument."@,
                ),
            ),
        }
    }
}

/// The folder that a command works in.
pub fn command_workspace(
    named: Option<&str>,
    named_is_dir: bool,
    linked: Option<Workspace>,
    linked_is_dir: bool,
) -> (r: Result<String, ApiError>)
    ensures
        match folder(named, named_is_dir, linked, linked_is_dir) {
            Ok(p) => r matches Ok(s) && s@ == p,
            Err(e) => r matches Err(refused) && refused@ == e,
        },
{
    let mut missing: Option<Workspace> = None;
    match linked {
        Some(w) => {
            if linked_is_dir {
                return Ok(w.path);
            }
            missing = Some(w);
        },
        None => {},
    }
    if let Some(p) = named {
        if !text::blank(p) {
            if named_is_dir {
                return Ok(text::trim(p));
            }
            let mut m = "directory not found: ".to_owned();
            m.append(p);
            return Err(
                ApiError::bad(&m, "Pass an existing directory or link the chat to a workspace."),
            );
        }
    }
    match missing {
        Some(w) => {
            let mut m = "linked workspace '".to_owned();
            m.append(&w.name);
            m.append("' is missing: ");
            m.append(&w.path);
            Err(ApiError::bad(&m, "Pick another workspace or pass a directory."))
        },
        None => Err(
            ApiError::bad(
                "no workspace linked",
                "Link this chat to a workspace (Code mode) or pass a directory argument.",
            ),
        ),
    }
}

// ---- what a command asks for ------------------------------------------------------------------------

/// What a command asks for.
#[derive(Debug, PartialEq, Eq)]
pub enum Request {
    /// Nothing; the command is refused.
    Refused(ApiError),
    /// An answer that needs nothing more.
    Answer(String),
    Help,
    Models,
    ShowModel,
    LoadModel,
    Status,
    Context,
    Clear,
    Compact,
    Permissions,
    Config,
    Stop,
    Retry,
    /// Search the session's project for the arguments.
    Search,
    /// Find files in the session's project.
    Find,
    /// Show what changed in the session's project.
    Diff,
    /// Start a run in the session's project.
    Work,
}

/// The command starts a run.
pub open spec fn is_work(name: Seq<char>) -> bool {
    name == "review"@ || name == "plan"@ || name == "init"@ || name == "build"@ || name == "test"@
        || name == "run"@
}

/// The refusal of a command that only makes sense in a chat.
pub open spec fn chat_only(name: Seq<char>) -> Refusal {
    error::bad_request("no conversation"@, "Run /"@ + name + " inside a chat."@)
}

fn only_in_chat(name: &str) -> (e: ApiError)
    ensures
        e@ == chat_only(name@),
{
    let mut hint = "Run /".to_owned();
    hint.append(name);
    hint.append(" inside a chat.");
    ApiError::bad("no conversation", &hint)
}

fn is_work_name(name: &str) -> (r: bool)
    ensures
        r == is_work(name@),
{
    text::same(name, "review") || text::same(name, "plan") || text::same(name, "init")
        || text::same(name, "build") || text::same(name, "test") || text::same(name, "run")
}

/// What a command asks for, or why it is refused.
pub open spec fn asks_for(name: Seq<char>, args: Seq<char>, in_chat: bool, r: Request) -> bool {
    if name == "help"@ {
        r is Help
    } else if name == "models"@ {
        r is Models
    } else if name == "model"@ {
        if args.len() == 0 {
            r is ShowModel
        } else {
            r is LoadModel
        }
    } else if name == "status"@ {
        r is Status
    } else if name == "context"@ {
        if in_chat {
            r is Context
        } else {
            r matches Request::Refused(e) && e@ == chat_only(name)
        }
    } else if name == "clear"@ {
        r is Clear
    } else if name == "compact"@ {
        if in_chat {
            r is Compact
        } else {
            r matches Request::Refused(e) && e@ == chat_only(name)
        }
    } else if name == "search"@ {
        if args.len() > 0 {
            r is Search
        } else {
            r matches Request::Refused(e) && e@ == error::bad_request(
                "query is empty"@,
                "Usage: /search <query>"@,
            )
        }
    } else if name == "find"@ {
        if args.len() > 0 {
            r is Find
        } else {
            r matches Request::Refused(e) && e@ == error::bad_request(
                "pattern is empty"@,
                "Usage: /find <pattern> (e.g. *.cpp)"@,
            )
        }
    } else if name == "diff"@ {
        r is Diff
    } else if is_work(name) {
        r is Work
    } else if name == "permissions"@ {
        r is Permissions
    } else if name == "config"@ {
        r is Config
    } else if name == "stop"@ {
        r is Stop
    } else if name == "retry"@ {
        if in_chat {
            r is Retry
        } else {
            r matches Request::Refused(e) && e@ == chat_only(name)
        }
    } else {
        r matches Request::Answer(t) && t@ == "Unknown command '/"@ + name + "'. Try /help."@
    }
}

/// What a command asks for.
pub fn resolve_command(name: &str, args: &str, in_chat: bool) -> (r: Request)
    ensures
        asks_for(name@, args@, in_chat, r),
{
    if text::same(name, "help") {
        Request::Help
    } else if text::same(name, "models") {
        Request::Models
    } else if text::same(name, "model") {
        if args.is_empty() {
            Request::ShowModel
        } else {
            Request::LoadModel
        }
    } else if text::same(name, "status") {
        Request::Status
    } else if text::same(name, "context") {
        if in_chat {
            Request::Context
        } else {
            Request::Refused(only_in_chat(name))
        }
    } else if text::same(name, "clear") {
        Request::Clear
    } else if text::same(name, "compact") {
        if in_chat {
            Request::Compact
        } else {
            Request::Refused(only_in_chat(name))
        }
    } else if text::same(name, "search") {
        if args.is_empty() {
            Request::Refused(ApiError::bad("query is empty", "Usage: /search <query>"))
        } else {
            Request::Search
        }
    } else if text::same(name, "find") {
        if args.is_empty() {
            Request::Refused(
                ApiError::bad("pattern is empty", "Usage: /find <pattern> (e.g. *.cpp)"),
            )
        } else {
            Request::Find
        }
    } else if text::same(name, "diff") {
        Request::Diff
    } else if is_work_name(name) {
        Request::Work
    } else if text::same(name, "permissions") {
        Request::Permissions
    } else if text::same(name, "config") {
        Request::Config
    } else if text::same(name, "stop") {
        Request::Stop
    } else if text::same(name, "retry") {
        if in_chat {
            Request::Retry
        } else {
            Request::Refused(only_in_chat(name))
        }
    } else {
        let mut s = "Unknown command '/".to_owned();
        s.append(name);
        s.append("'. Try /help.");
        Request::Answer(s)
    }
}

/// The arguments in brackets behind a word, or nothing.
pub open spec fn bracketed(word: Seq<char>, args: Seq<char>) -> Seq<char> {
    if args.len() == 0 {
        Seq::empty()
    } else {
        " ("@ + word + ": "@ + args + ")"@
    }
}

/// The task of a run that a command starts, or why there is none.
pub open spec fn work_task(name: Seq<char>, args: Seq<char>) -> Result<Seq<char>, Refusal> {
    if name == "review"@ {
        Ok(
            "Review "@ + (if args.len() == 0 {
                "the workspace"@
            } else {
                args
            }) + " without modifying any files. Report findings."@,
        )
    } else if name == "plan"@ {
        if args.len() == 0 {
            Err(error::bad_request("task is empty"@, "Usage: /plan <task>"@))
        } else {
            Ok(args)
        }
    } else if name == "init"@ {
        Ok(
            "Inspect this repository (structure, build system, key files) and summarize the project. Do not modify anything."@,
        )
    } else if name == "build"@ {
        Ok(
            "Build the project"@ + bracketed("target"@, args)
                + ". Report success or the first errors."@,
        )
    } else if name == "test"@ {
        Ok("Run project tests"@ + bracketed("filter"@, args) + ". Report results."@)
    } else {
        if args.len() == 0 {
            Err(error::bad_request("command is empty"@, "Usage: /run <command...>"@))
        } else {
            Ok("Run this project command and report the result: "@ + args)
        }
    }
}

/// The mode of a run that a command starts: those that only look cannot
/// change anything.
pub open spec fn work_mode(name: Seq<char>) -> AgentMode {
    if name == "plan"@ {
        AgentMode::Plan
    } else if name == "review"@ || name == "init"@ {
        AgentMode::CodeAssist
    } else {
        AgentMode::Agent
    }
}

fn in_brackets(word: &str, args: &str) -> (s: String)
    ensures
        s@ == bracketed(word@, args@),
{
    if args.is_empty() {
        return String::new();
    }
    let mut s = " (".to_owned();
    s.append(word);
    s.append(": ");
    s.append(args);
    s.append(")");
    s
}

/// The task and the mode of a run that a command starts, once there is a
/// folder for it.
pub fn work_of(name: &str, args: &str) -> (r: Result<(String, AgentMode), ApiError>)
    requires
        is_work(name@),
    ensures
        match work_task(name@, args@) {
            Ok(t) => r matches Ok((task, mode)) && task@ == t && mode == work_mode(name@),
            Err(e) => r matches Err(refused) && refused@ == e,
        },
{
    let mode = if text::same(name, "plan") {
        AgentMode::Plan
    } else if text::same(name, "review") || text::same(name, "init") {
        AgentMode::CodeAssist
    } else {
        AgentMode::Agent
    };
    if text::same(name, "review") {
        let mut s = "Review ".to_owned();
        s.append(if args.is_empty() { "the workspace" } else { args });
        s.append(" without modifying any files. Report findings.");
        return Ok((s, mode));
    }
    if text::same(name, "plan") {
        if args.is_empty() {
            return Err(ApiError::bad("task is empty", "Usage: /plan <task>"));
        }
        return Ok((args.to_owned(), mode));
    }
    if text::same(name, "init") {
        return Ok(
            (
                "Inspect this repository (structure, build system, key files) and summarize the project. Do not modify anything.".to_owned(),
                mode,
            ),
        );
    }
    if text::same(name, "build") {
        let mut s = "Build the project".to_owned();
        let target = in_brackets("target", args);
        s.append(&target);
        s.append(". Report success or the first errors.");
        return Ok((s, mode));
    }
    if text::same(name, "test") {
        let mut s = "Run project tests".to_owned();
        let filter = in_brackets("filter", args);
        s.append(&filter);
        s.append(". Report results.");
        return Ok((s, mode));
    }
    if args.is_empty() {
        return Err(ApiError::bad("command is empty", "Usage: /run <command...>"));
    }
    let mut s = "Run this project command and report the result: ".to_owned();
    s.append(args);
    Ok((s, mode))
}

/// The commands that only look start runs that cannot change files.
pub proof fn law_looking_never_changes(name: Seq<char>)
    requires
        name == "review"@ || name == "plan"@ || name == "init"@,
    ensures
        work_mode(name) != AgentMode::Agent,
        work_mode(name) != AgentMode::Autonomous,
{
}

/// What is said of a run that a command started.
pub fn work_started(name: &str, run_id: String) -> (o: CommandOutcome)
    ensures
        o matches CommandOutcome::AgentRun { run_id: id, message } && id@ == run_id@ && message@
            == (if name@ == "review"@ || name@ == "plan"@ || name@ == "init"@ {
            "Read-only agent run started ("@ + text::first_chars(run_id@, 8)
                + ") — watch the Agent tab."@
        } else {
            "Agent run started ("@ + text::first_chars(run_id@, 8)
                + ") — it will ask before builds/commands. Watch the Agent tab."@
        }),
{
    let short = text::take_chars(&run_id, 8);
    let looks = text::same(name, "review") || text::same(name, "plan") || text::same(name, "init");
    let message = if looks {
        let mut s = "Read-only agent run started (".to_owned();
        s.append(&short);
        s.append(") — watch the Agent tab.");
        s
    } else {
        let mut s = "Agent run started (".to_owned();
        s.append(&short);
        s.append(") — it will ask before builds/commands. Watch the Agent tab.");
        s
    };
    CommandOutcome::AgentRun { run_id, message }
}

// ---- what a command answers ------------------------------------------------------------------------------

/// A registered model, as it is listed.
#[derive(Debug, PartialEq, Eq)]
pub struct ModelRow {
    pub name: String,
    pub parameters: String,
    pub quantization: String,
    pub context_length: u32,
    pub loaded: bool,
    pub supports_reasoning: bool,
}

/// The first `n` models, one to a line.
pub open spec fn model_lines(models: Seq<ModelRow>, n: int) -> Seq<char>
    decreases n,
{
    if n <= 0 {
        Seq::empty()
    } else {
        let m = models[n - 1];
        model_lines(models, n - 1) + (if m.loaded {
            "●"@
        } else {
            "○"@
        }) + " "@ + m.name@ + " ("@ + m.parameters@ + " "@ + m.quantization@ + ", ctx "@
            + decimal::digits(m.context_length as nat) + ")"@ + (if m.supports_reasoning {
            " · reasoning"@
        } else {
            ""@
        }) + "\n"@
    }
}

/// The list of models.
pub fn models_text(models: &[ModelRow]) -> (s: String)
    ensures
        s@ == (if models@.len() == 0 {
            "No models registered. Add GGUF + metadata.json under models/, then Scan."@
        } else {
            "Installed models:\n"@ + model_lines(models@, models@.len() as int)
        }),
{
    if models.len() == 0 {
        return "No models registered. Add GGUF + metadata.json under models/, then Scan.".to_owned();
    }
    let mut s = "Installed models:\n".to_owned();
    let ghost head = s@;
    let mut i: usize = 0;
    assert(head + model_lines(models@, 0) =~= head);
    while i < models.len()
        invariant
            i <= models@.len(),
            s@ == head + model_lines(models@, i as int),
        decreases models@.len() - i,
    {
        let m = &models[i];
        s.append(if m.loaded { "●" } else { "○" });
        s.append(" ");
        s.append(&m.name);
        s.append(" (");
        s.append(&m.parameters);
        s.append(" ");
        s.append(&m.quantization);
        s.append(", ctx ");
        let n = decimal::decimal(m.context_length as u64);
        s.append(&n);
        s.append(")");
        s.append(if m.supports_reasoning { " · reasoning" } else { "" });
        s.append("\n");
        assert(s@ =~= head + model_lines(models@, i + 1));
        i += 1;
    }
    s
}

/// Which model is loaded.
pub fn active_model_text(current: Option<&str>) -> (s: String)
    ensures
        s@ == (match current {
            Some(id) => "Active model: "@ + id@ + "\nUsage: /model <id> (see /models)"@,
            None => "No model loaded. Usage: /model <id> (see /models)"@,
        }),
{
    match current {
        Some(id) => {
            let mut s = "Active model: ".to_owned();
            s.append(id);
            s.append("\nUsage: /model <id> (see /models)");
            s
        },
        None => "No model loaded. Usage: /model <id> (see /models)".to_owned(),
    }
}

/// The first `n` notices, each on a line of its own.
pub open spec fn notice_lines(notices: Seq<Seq<char>>, n: int) -> Seq<char>
    decreases n,
{
    if n <= 0 {
        Seq::empty()
    } else {
        notice_lines(notices, n - 1) + "\n"@ + notices[n - 1]
    }
}

/// What is said of a model that was loaded: everything the load reported.
pub fn loaded_text(id: &str, notices: &[String]) -> (s: String)
    ensures
        s@ == "Loaded "@ + id@ + "."@ + notice_lines(
            types::texts(notices@),
            notices@.len() as int,
        ),
{
    let ghost all = types::texts(notices@);
    let mut s = "Loaded ".to_owned();
    s.append(id);
    s.append(".");
    let ghost head = s@;
    let mut i: usize = 0;
    assert(head + notice_lines(all, 0) =~= head);
    while i < notices.len()
        invariant
            i <= notices@.len(),
            all == types::texts(notices@),
            s@ == head + notice_lines(all, i as int),
        decreases notices@.len() - i,
    {
        s.append("\n");
        s.append(&notices[i]);
        assert(all[i as int] == notices@[i as int]@);
        assert(s@ =~= head + notice_lines(all, i + 1));
        i += 1;
    }
    s
}

/// What is said of a fresh session.
pub fn cleared(id: String) -> (o: CommandOutcome)
    ensures
        o matches CommandOutcome::NewConversation { id: new, message } && new@ == id@ && message@
            == "New conversation started. The previous one remains available in history. Workspace, model and permissions are unchanged — /clear starts fresh context, /compact preserves continuity."@,
{
    CommandOutcome::NewConversation {
        id,
        message:
            "New conversation started. The previous one remains available in history. Workspace, model and permissions are unchanged — /clear starts fresh context, /compact preserves continuity.".to_owned(),
    }
}

/// What a search found.
pub fn search_text(query: &str, output: &str) -> (s: String)
    ensures
        s@ == "Search `"@ + query@ + "`:\n"@ + output@,
{
    let mut s = "Search `".to_owned();
    s.append(query);
    s.append("`:\n");
    s.append(output);
    s
}

/// The refusal of a search that could not run.
pub fn search_refused(reason: &str) -> (e: ApiError)
    ensures
        e@ == error::bad_request(reason@, "Fix the pattern and retry."@),
{
    ApiError::bad(reason, "Fix the pattern and retry.")
}

/// Which files were found.
pub fn find_text(pattern: &str, hits: &[String]) -> (s: String)
    ensures
        s@ == (if hits@.len() == 0 {
            "No files matching `"@ + pattern@ + "`."@
        } else {
            "Files matching `"@ + pattern@ + "`:\n"@ + text::joined(types::texts(hits@), "\n"@)
        }),
{
    if hits.len() == 0 {
        let mut s = "No files matching `".to_owned();
        s.append(pattern);
        s.append("`.");
        return s;
    }
    let mut s = "Files matching `".to_owned();
    s.append(pattern);
    s.append("`:\n");
    let all = text::join(hits, "\n");
    s.append(&all);
    s
}

/// What changed; `ran` is what git printed and its exit code, where it ran. Only
/// a git that ended well is believed.
pub fn diff_text(ran: Option<(&str, Option<i32>)>) -> (s: String)
    ensures
        s@ == (match ran {
            Some((t, code)) if code == Some(0i32) && !text::is_blank(t@) =>
                "Workspace changes:\n```\n"@ + text::first_chars(t@, 4000) + "\n```"@,
            _ => "No git changes (or not a git repository)."@,
        }),
{
    if let Some((t, code)) = ran {
        let ended_well = match code {
            Some(n) => n == 0,
            None => false,
        };
        if ended_well && !text::blank(t) {
            let mut s = "Workspace changes:\n```\n".to_owned();
            let cut = text::take_chars(t, 4000);
            s.append(&cut);
            s.append("\n```");
            return s;
        }
    }
    "No git changes (or not a git repository).".to_owned()
}

/// What stopping a reply did.
pub fn stopped_text(chars_kept: Option<usize>) -> (s: String)
    ensures
        s@ == (match chars_kept {
            Some(n) => "Stopped generation (kept "@ + decimal::digits(n as nat) + " chars)."@,
            None => "Nothing generating right now."@,
        }),
{
    match chars_kept {
        Some(n) => {
            let mut s = "Stopped generation (kept ".to_owned();
            let kept = decimal::decimal(n as u64);
            s.append(&kept);
            s.append(" chars).");
            s
        },
        None => "Nothing generating right now.".to_owned(),
    }
}

/// The last message of the user among the first `n`.
pub open spec fn last_user_text(messages: Seq<Message>, n: int) -> Option<Seq<char>>
    decreases n,
{
    if n <= 0 {
        None
    } else if messages[n - 1].role@ == "user"@ {
        Some(messages[n - 1].content@)
    } else {
        last_user_text(messages, n - 1)
    }
}

/// What is tried again: the user's last message.
pub fn retry_of(messages: &[Message]) -> (o: CommandOutcome)
    ensures
        match last_user_text(messages@, messages@.len() as int) {
            Some(t) => o matches CommandOutcome::Retry { text } && text@ == t,
            None => o matches CommandOutcome::Message(t) && t@ == "Nothing to retry yet."@,
        },
{
    let mut i: usize = messages.len();
    while i > 0
        invariant
            i <= messages@.len(),
            last_user_text(messages@, messages@.len() as int) == last_user_text(
                messages@,
                i as int,
            ),
        decreases i,
    {
        if text::same(&messages[i - 1].role, "user") {
            return CommandOutcome::Retry { text: messages[i - 1].content.as_str().to_owned() };
        }
        i -= 1;
    }
    CommandOutcome::Message("Nothing to retry yet.".to_owned())
}

/// What the machine is; sizes are given as they are shown.
#[derive(Debug, PartialEq, Eq)]
pub struct Machine {
    pub cpu: String,
    pub cores: u32,
    pub ram_gb: String,
    /// The first graphics card and its memory.
    pub gpu: Option<(String, String)>,
}

/// The line on the session, where its numbers are known.
pub open spec fn chat_line(n: Option<ContextNumbers>) -> Seq<char> {
    match n {
        Some(c) => "Chat: "@ + decimal::digits(c.kept as nat) + "/"@ + decimal::digits(
            c.total as nat,
        ) + " msgs in context (~"@ + decimal::digits(c.tokens as nat) + " tok, "@
            + decimal::digits(c.dropped as nat) + " dropped)\n"@,
        None => Seq::empty(),
    }
}

/// How the system stands, in a few lines.
pub fn status_text(
    running: bool,
    model: Option<&str>,
    context: u32,
    chat: Option<ContextNumbers>,
    machine: &Machine,
    live_runs: usize,
) -> (s: String)
    ensures
        s@ == "Model: "@ + (match model {
            Some(id) => id@,
            None => if running {
                "—"@
            } else {
                "none"@
            },
        }) + " ("@ + (if running {
            "llama-server"@
        } else {
            "stub"@
        }) + ", ctx "@ + decimal::digits(context as nat) + ")\n"@ + chat_line(chat) + "CPU: "@
            + machine.cpu@ + " ("@ + decimal::digits(machine.cores as nat) + " cores)\nRAM: "@
            + machine.ram_gb@ + " GB\nGPU: "@ + (match machine.gpu {
            Some((name, gb)) => name@ + " ("@ + gb@ + " GB)"@,
            None => "not enumerated"@,
        }) + "\nAgent runs live: "@ + decimal::digits(live_runs as nat),
{
    let mut s = "Model: ".to_owned();
    s.append(
        match model {
            Some(id) => id,
            None => if running { "—" } else { "none" },
        },
    );
    s.append(" (");
    s.append(if running { "llama-server" } else { "stub" });
    s.append(", ctx ");
    let n = decimal::decimal(context as u64);
    s.append(&n);
    s.append(")\n");
    let line = chat_line_of(chat);
    s.append(&line);
    s.append("CPU: ");
    s.append(&machine.cpu);
    s.append(" (");
    let cores = decimal::decimal(machine.cores as u64);
    s.append(&cores);
    s.append(" cores)\nRAM: ");
    s.append(&machine.ram_gb);
    s.append(" GB\nGPU: ");
    let gpu = match &machine.gpu {
        Some((name, gb)) => {
            let mut g = name.as_str().to_owned();
            g.append(" (");
            g.append(gb);
            g.append(" GB)");
            g
        },
        None => "not enumerated".to_owned(),
    };
    s.append(&gpu);
    s.append("\nAgent runs live: ");
    let live = decimal::decimal(live_runs as u64);
    s.append(&live);
    s
}

fn chat_line_of(n: Option<ContextNumbers>) -> (s: String)
    ensures
        s@ == chat_line(n),
{
    match n {
        Some(c) => {
            let mut s = "Chat: ".to_owned();
            let kept = decimal::decimal(c.kept as u64);
            s.append(&kept);
            s.append("/");
            let total = decimal::decimal(c.total as u64);
            s.append(&total);
            s.append(" msgs in context (~");
            let tokens = decimal::decimal(c.tokens as u64);
            s.append(&tokens);
            s.append(" tok, ");
            let dropped = decimal::decimal(c.dropped as u64);
            s.append(&dropped);
            s.append(" dropped)\n");
            s
        },
        None => String::new(),
    }
}

/// The app's own git reads. A repository's configuration can name commands
/// that git runs on these, so the reads switch them off.
pub const SAFE_GIT_DIFF_STAT: &'static str =
    "git -c core.fsmonitor=false diff --no-ext-diff --no-textconv --stat";

/// The whole diff, read safely.
pub const SAFE_GIT_DIFF_FULL: &'static str =
    "git -c core.fsmonitor=false diff --no-ext-diff --no-textconv --no-color --unified=3";

/// The state of the work tree, read safely.
pub const SAFE_GIT_STATUS: &'static str = "git -c core.fsmonitor=false status --short";

// ---- what commands do -----------------------------------------------------------------------------------

/// The names of the commands differ in their lengths or in these characters.
proof fn lemma_command_names()
    ensures
        "help"@.len() == 4,
        "models"@.len() == 6,
        "model"@.len() == 5,
        "status"@.len() == 6,
        "context"@.len() == 7,
        "clear"@.len() == 5,
        "compact"@.len() == 7,
        "search"@.len() == 6,
        "find"@.len() == 4,
        "diff"@.len() == 4,
        "review"@.len() == 6,
        "plan"@.len() == 4,
        "init"@.len() == 4,
        "build"@.len() == 5,
        "test"@.len() == 4,
        "run"@.len() == 3,
        "permissions"@.len() == 11,
        "config"@.len() == 6,
        "stop"@.len() == 4,
        "retry"@.len() == 5,
        "help"@[0] == 'h',
        "find"@[0] == 'f',
        "diff"@[0] == 'd',
        "plan"@[0] == 'p',
        "init"@[0] == 'i',
        "test"@[0] == 't',
        "stop"@[0] == 's',
        "models"@[3] == 'e',
        "status"@[3] == 't',
        "search"@[3] == 'r',
        "review"@[3] == 'i',
        "config"@[3] == 'f',
        "model"@[0] == 'm',
        "clear"@[0] == 'c',
        "build"@[0] == 'b',
        "retry"@[0] == 'r',
        "context"@[2] == 'n',
        "compact"@[2] == 'm',
{
    reveal_strlit("help");
    reveal_strlit("models");
    reveal_strlit("model");
    reveal_strlit("status");
    reveal_strlit("context");
    reveal_strlit("clear");
    reveal_strlit("compact");
    reveal_strlit("search");
    reveal_strlit("find");
    reveal_strlit("diff");
    reveal_strlit("review");
    reveal_strlit("plan");
    reveal_strlit("init");
    reveal_strlit("build");
    reveal_strlit("test");
    reveal_strlit("run");
    reveal_strlit("permissions");
    reveal_strlit("config");
    reveal_strlit("stop");
    reveal_strlit("retry");
}

/// A command that names no other starts nothing: runs come of the six commands
/// for them alone, and a command that there is not is only answered. The
/// commands for a chat are refused outside one, and a search for nothing always.
pub proof fn law_what_a_command_starts(name: Seq<char>, args: Seq<char>, in_chat: bool, r: Request)
    requires
        asks_for(name, args, in_chat, r),
    ensures
        r is Work <==> (name == "review"@ || name == "plan"@ || name == "init"@ || name == "build"@
            || name == "test"@ || name == "run"@),
        r is Compact <==> name == "compact"@ && in_chat,
        r is Context <==> name == "context"@ && in_chat,
        r is Retry <==> name == "retry"@ && in_chat,
        r is Clear <==> name == "clear"@,
        r is Stop <==> name == "stop"@,
        r is Search <==> name == "search"@ && args.len() > 0,
        r is Find <==> name == "find"@ && args.len() > 0,
        r is LoadModel <==> name == "model"@ && args.len() > 0,
        r is ShowModel <==> name == "model"@ && args.len() == 0,
        r is Refused <==> (!in_chat && (name == "compact"@ || name == "context"@ || name
            == "retry"@)) || (args.len() == 0 && (name == "search"@ || name == "find"@)),
        r matches Request::Answer(t) ==> ("Unknown command '/"@ + name).is_prefix_of(t@),
{
    lemma_command_names();
    if let Request::Answer(t) = r {
        let head = "Unknown command '/"@ + name;
        assert(head =~= t@.subrange(0, head.len() as int));
    }
}

/// A command works in the session's own project where that is there, whatever
/// folder it names; else in the folder that it names, where that is there; and
/// in no other.
pub proof fn law_a_command_works_in_the_sessions_project(
    named: Option<&str>,
    named_is_dir: bool,
    linked: Option<Workspace>,
    linked_is_dir: bool,
)
    ensures
        ({
            let f = folder(named, named_is_dir, linked, linked_is_dir);
            let there = linked is Some && linked_is_dir;
            let names = named is Some && !text::is_blank(named->0@);
            &&& there ==> f is Ok && f->Ok_0 == linked->0.path@
            &&& !there && names && named_is_dir ==> f is Ok && f->Ok_0 == text::trimmed(named->0@)
            &&& !there && !(names && named_is_dir) ==> f is Err
        }),
{
}

/// The task of a run says what the user asked for: it holds the arguments, and
/// where a command makes no sense without any there is no task.
pub proof fn law_a_task_holds_what_was_asked(name: Seq<char>, args: Seq<char>)
    requires
        is_work(name),
    ensures
        work_task(name, args) is Err <==> args.len() == 0 && (name == "plan"@ || name == "run"@),
        args.len() > 0 && name != "init"@ ==> text::holds(work_task(name, args)->Ok_0, args),
        name == "plan"@ && args.len() > 0 ==> work_task(name, args) == Ok::<Seq<char>, Refusal>(
            args,
        ),
        work_mode(name) == AgentMode::Plan <==> name == "plan"@,
        work_mode(name) == AgentMode::Agent <==> (name == "build"@ || name == "test"@ || name
            == "run"@),
{
    lemma_command_names();
    if args.len() > 0 && name != "init"@ {
        if name == "review"@ {
            lemma_held("Review "@, args, " without modifying any files. Report findings."@);
        } else if name == "plan"@ {
            lemma_held(Seq::empty(), args, Seq::empty());
            assert(Seq::<char>::empty() + args + Seq::<char>::empty() =~= args);
        } else if name == "build"@ {
            let a = "Build the project"@ + (" ("@ + "target"@ + ": "@);
            let b = ")"@ + ". Report success or the first errors."@;
            lemma_held(a, args, b);
            assert(work_task(name, args)->Ok_0 =~= a + args + b);
        } else if name == "test"@ {
            let a = "Run project tests"@ + (" ("@ + "filter"@ + ": "@);
            let b = ")"@ + ". Report results."@;
            lemma_held(a, args, b);
            assert(work_task(name, args)->Ok_0 =~= a + args + b);
        } else {
            let a = "Run this project command and report the result: "@;
            lemma_held(a, args, Seq::empty());
            assert(work_task(name, args)->Ok_0 =~= a + args + Seq::<char>::empty());
        }
    }
}

proof fn lemma_held(a: Seq<char>, part: Seq<char>, b: Seq<char>)
    ensures
        text::holds(a + part + b, part),
{
    assert((a + part + b).subrange(a.len() as int, (a.len() + part.len()) as int) =~= part);
    assert(text::occurs_at(a + part + b, part, a.len() as int));
}

/// What is tried again is the user's latest message, as it was; where `k` is
/// that message, or -1.
pub proof fn law_the_latest_message_is_tried_again(messages: Seq<Message>, k: int)
    requires
        -1 <= k < messages.len(),
        k >= 0 ==> messages[k].role@ == "user"@,
        forall|j: int| k < j < messages.len() ==> (#[trigger] messages[j]).role@ != "user"@,
    ensures
        last_user_text(messages, messages.len() as int) == (if k >= 0 {
            Some(messages[k].content@)
        } else {
            None
        }),
{
    lemma_last_user_text(messages, k, messages.len() as int);
}

proof fn lemma_last_user_text(messages: Seq<Message>, k: int, n: int)
    requires
        -1 <= k < n <= messages.len() || (k == -1 && n == 0),
        k >= 0 ==> messages[k].role@ == "user"@,
        forall|j: int| k < j < messages.len() ==> (#[trigger] messages[j]).role@ != "user"@,
    ensures
        last_user_text(messages, n) == (if k >= 0 {
            Some(messages[k].content@)
        } else {
            None
        }),
    decreases n,
{
    if n > 0 && n - 1 > k {
        lemma_last_user_text(messages, k, n - 1);
    }
}

proof fn lemma_model_lines(models: Seq<ModelRow>, k: int, n: int)
    requires
        0 <= k <= n,
    ensures
        model_lines(models, k).is_prefix_of(model_lines(models, n)),
    decreases n - k,
{
    let part = model_lines(models, k);
    if k < n {
        lemma_model_lines(models, k, n - 1);
        assert(part =~= model_lines(models, n).subrange(0, part.len() as int));
    } else {
        assert(part =~= part.subrange(0, part.len() as int));
    }
}

/// Every model is listed in its place, marked as loaded exactly where it is,
/// with its name, its size and its window.
pub proof fn law_every_model_is_listed(models: Seq<ModelRow>, k: int)
    requires
        0 <= k < models.len(),
    ensures
        ({
            let m = models[k];
            (model_lines(models, k) + (if m.loaded {
                "●"@
            } else {
                "○"@
            }) + " "@ + m.name@ + " ("@ + m.parameters@ + " "@ + m.quantization@ + ", ctx "@
                + decimal::digits(m.context_length as nat) + ")"@).is_prefix_of(
                model_lines(models, models.len() as int),
            )
        }),
        "●"@ != "○"@,
{
    let m = models[k];
    lemma_model_lines(models, k + 1, models.len() as int);
    let line = model_lines(models, k) + (if m.loaded {
        "●"@
    } else {
        "○"@
    }) + " "@ + m.name@ + " ("@ + m.parameters@ + " "@ + m.quantization@ + ", ctx "@
        + decimal::digits(m.context_length as nat) + ")"@;
    let all = model_lines(models, models.len() as int);
    let one = model_lines(models, k + 1);
    assert(line =~= one.subrange(0, line.len() as int));
    assert(line =~= all.subrange(0, line.len() as int)) by {
        assert(one == all.subrange(0, one.len() as int));
        assert(forall|i: int| 0 <= i < line.len() ==> line[i] == one[i]);
        assert(forall|i: int| 0 <= i < one.len() ==> one[i] == all[i]);
    }
    reveal_strlit("●");
    reveal_strlit("○");
    assert("●"@[0] != "○"@[0]);
}

/// Everything that a load reported is told, each on a line of its own, in order.
pub proof fn law_every_notice_is_told(notices: Seq<Seq<char>>, k: int)
    requires
        0 <= k < notices.len(),
    ensures
        (notice_lines(notices, k) + "\n"@ + notices[k]).is_prefix_of(
            notice_lines(notices, notices.len() as int),
        ),
{
    lemma_notice_lines(notices, k + 1, notices.len() as int);
}

proof fn lemma_notice_lines(notices: Seq<Seq<char>>, k: int, n: int)
    requires
        0 <= k <= n,
    ensures
        notice_lines(notices, k).is_prefix_of(notice_lines(notices, n)),
    decreases n - k,
{
    let part = notice_lines(notices, k);
    if k < n {
        lemma_notice_lines(notices, k, n - 1);
        assert(part =~= notice_lines(notices, n).subrange(0, part.len() as int));
    } else {
        assert(part =~= part.subrange(0, part.len() as int));
    }
}

/// The numbers of a session are told where they are known, and only there.
pub proof fn law_a_status_tells_the_numbers(n: ContextNumbers)
    ensures
        ("Chat: "@ + decimal::digits(n.kept as nat) + "/"@ + decimal::digits(
            n.total as nat,
        )).is_prefix_of(chat_line(Some(n))),
        chat_line(None) == Seq::<char>::empty(),
{
    let line = chat_line(Some(n));
    let head = "Chat: "@ + decimal::digits(n.kept as nat) + "/"@ + decimal::digits(n.total as nat);
    assert(head =~= line.subrange(0, head.len() as int));
}

} // verus!
