use companion_api::agent::{
    admit_project, admit_run, continue_run, default_exec_limit, open_run, record_limit, resume_run,
    run_reasoning, run_standing, stop_run, task_outcome, AgentMode, ApprovalDecision, Opening,
    Stopping, BROKE_OFF, STARTING,
};
use companion_api::commands::{
    active_model_text, cleared, command_turn, command_workspace, diff_text, find_text, loaded_text,
    models_text, resolve_command, retry_of, search_text, status_text, stopped_text, work_of,
    work_started, CommandOutcome, Machine, ModelRow, Request,
};
use companion_api::error::ApiError;
use companion_api::gauge::ContextNumbers;
use companion_api::intent::{
    resolve_continuation, AgentState, Continuation, LiveRun, MessageIntent, TaskContext,
};
use companion_api::offer::{ChatToolOffer, ToolCall};
use companion_api::settings::{
    attribution, changes_fit, check_settings, choose_permission_mode, releases,
    resume_auto_approved_runs, window_seconds, Approval, Channel, CheckedSettings, PausedRun,
    Waiting,
};
use companion_api::toolround::{
    call_label, chat_record, judge_call, outcome_text, refuse_call, result_status, runner_of,
    Runner, ToolOutcome, Verdict,
};
use companion_api::toolrun::{
    admit_call, audit, audit_search, content_disposition, document_failed, pass, recorded_query,
    records_grant, search_failed, search_query, session_of, tool_failed, via_word, Decision,
    ExecuteToolReq, Passage, Route, ToolFault, Via,
};
use companion_api::types::{ChatTurn, Message};
use companion_api::workspace::Workspace;

fn call(tool: &str, approved_once: bool) -> ExecuteToolReq {
    ExecuteToolReq {
        workspace: "/p".into(),
        tool: tool.into(),
        args: "{\"query\": \"lists\", \"n\": 3}".into(),
        approved_once,
        grant_session: false,
        conversation_id: " c1 ".into(),
    }
}

fn asks(reason: &str) -> Decision {
    Decision::RequireApproval { reason: reason.into() }
}

#[test]
fn a_call_needs_a_tool_and_a_folder() {
    assert_eq!(admit_call(&call(" ", true), true).unwrap_err().message, "tool is empty");
    let refused = admit_call(&call("read_file", true), false).unwrap_err();
    assert_eq!((refused.status, refused.message.as_str()), (400, "workspace not found: /p"));
    assert!(admit_call(&call("read_file", true), true).is_ok());
}

#[test]
fn tool_calls_require_approval_then_run_once() {
    match pass(&call("run_command", false), asks("risky")) {
        Passage::Refused { refusal, record } => {
            assert_eq!(refusal.status, 403);
            assert_eq!(refusal.message, "'run_command' needs approval: risky");
            assert_eq!(record, "denied, approval required: risky");
        }
        other => panic!("{other:?}"),
    }
    assert_eq!(
        pass(&call("run_command", true), asks("risky")),
        Passage::Run { route: Route::Tool, via: Via::Once }
    );
    assert_eq!(
        pass(&call("read_file", false), Decision::Allow),
        Passage::Run { route: Route::Tool, via: Via::Auto }
    );
    match pass(&call("run_command", true), Decision::Deny { reason: "plan mode".into() }) {
        Passage::Refused { refusal, record } => {
            assert_eq!(refusal.message, "'run_command' is not allowed: plan mode");
            assert_eq!(record, "denied: plan mode");
        }
        other => panic!("a denied call ran: {other:?}"),
    }
    assert_eq!(
        pass(&call("create_document", false), Decision::Allow),
        Passage::Run { route: Route::Document, via: Via::Once }
    );
    assert_eq!((via_word(Via::Auto), via_word(Via::Once)), ("auto", "once"));
}

#[test]
fn web_search_tool_needs_consent() {
    // Neither the mode nor a grant releases a search.
    match pass(&call("web_search", false), Decision::Allow) {
        Passage::Refused { refusal, .. } => {
            assert_eq!(
                refusal.message,
                "'web_search' needs approval: enable Search for this request"
            );
        }
        other => panic!("{other:?}"),
    }
    assert_eq!(
        pass(&call("web_search", true), Decision::Allow),
        Passage::Run { route: Route::Search, via: Via::Once }
    );
    assert_eq!(search_query("{\"query\": \"lists\"}"), "lists");
    assert_eq!(search_query("{\"query\": 3}"), "");
    assert_eq!(search_query("no json"), "");
    assert_eq!(recorded_query(&"q".repeat(600)).len(), 500);
    assert!(search_failed("timeout").message.ends_with("failed: timeout"));
}

#[test]
fn grants_are_recorded_beside_an_approval_only() {
    let mut req = call("edit_file", true);
    req.grant_session = true;
    assert!(records_grant(&req, true));
    assert!(!records_grant(&req, false), "a dangerous tool gets no grant");
    req.approved_once = false;
    assert!(!records_grant(&req, true));
}

#[test]
fn every_call_is_recorded() {
    let mut req = call("edit_file", true);
    req.args = "a".repeat(5000);
    let kept = audit(&req, true, &"r".repeat(5000));
    assert_eq!(kept.conversation_id, "c1");
    assert_eq!((kept.args.len(), kept.result.len()), (4000, 4000));
    assert!(kept.approved);
    req.conversation_id = " ".into();
    assert_eq!(audit(&req, false, "").conversation_id, "direct");
    assert_eq!(audit_search(&req, "out").tool, "web_search");
    assert_eq!(session_of(" c1 "), " c1 ");
    assert_eq!(tool_failed(ToolFault::InvalidArgs, "bad").status, 400);
    assert_eq!(tool_failed(ToolFault::UnknownTool, "bad").status, 400);
    assert_eq!(tool_failed(ToolFault::Workspace, "bad").status, 400);
    assert_eq!(tool_failed(ToolFault::Other, "bad").status, 500);
    assert_eq!(document_failed("no name").hint, "Fix the filename/spec and retry.");
    assert_eq!(content_disposition("a\"b\".txt"), "attachment; filename=\"ab.txt\"");
}

#[test]
fn a_chat_runs_only_what_it_offers() {
    let parsed = |name: &str| Some(ToolCall { name: name.into(), args: "{}".into() });
    let code = ChatToolOffer::for_request(true, false);
    let plain = ChatToolOffer::for_request(false, false);
    assert_eq!(judge_call(&parsed("read_file"), &code, true, true, true), Verdict::Run);
    assert_eq!(judge_call(&parsed("write_file"), &code, true, true, false), Verdict::Refused);
    assert_eq!(judge_call(&parsed("made_up"), &code, true, false, false), Verdict::NotAnAction);
    assert_eq!(judge_call(&parsed("read_file"), &plain, false, true, true), Verdict::NotAnAction);
    assert_eq!(judge_call(&None, &code, true, true, true), Verdict::NotAnAction);
    assert_eq!(runner_of("manage_context"), Runner::Evidence);
    assert_eq!(runner_of("create_document"), Runner::Document);
    assert_eq!(runner_of("read_file"), Runner::Project);
    let reading = ToolCall { name: "read_file".into(), args: "{\"path\": \"src/a.rs\"}".into() };
    assert_eq!(call_label(&reading), "Reading src/a.rs…");
    let listing = ToolCall { name: "list_directory".into(), args: "{}".into() };
    assert_eq!(call_label(&listing), "Listing .…");
    assert_eq!(result_status("Reading src/a.rs…", true), "✓ Reading src/a.rs");
    assert_eq!(result_status("Reading src/a.rs…", false), "⚠ Reading src/a.rs");
    assert_eq!(
        outcome_text(ToolOutcome::PermissionRequired { reason: "x".into() }, "{}"),
        (false, "Permission required: x".to_string())
    );
    assert_eq!(
        outcome_text(ToolOutcome::Failed { error: "e".into() }, "{}"),
        (false, "Tool failed: e\nYou sent args: {}".to_string())
    );
    assert_eq!(
        outcome_text(ToolOutcome::Ran { ok: true, output: "o".into() }, "{}"),
        (true, "o".to_string())
    );
    let kept = chat_record(None, &reading, &"o".repeat(3000));
    assert_eq!((kept.conversation_id.as_str(), kept.tool.as_str()), ("direct", "chat:read_file"));
    assert_eq!(kept.result.len(), 2000);
    assert!(!kept.approved);
    let mut turns = vec![ChatTurn::text("user", "q".into())];
    refuse_call(&mut turns, "text", "write_file");
    assert_eq!(turns.len(), 3);
    assert!(turns[2].content.contains("'write_file' tool needs explicit approval"));
}

#[test]
fn a_run_needs_a_task_a_folder_and_a_mode_with_tools() {
    let open = |task: &str, workspace: &str, there: bool, mode, meaning| {
        open_run(task, workspace, there, mode, meaning)
    };
    let refused = |o: Opening| match o {
        Opening::Refused(e) => e.message,
        other => panic!("{other:?}"),
    };
    assert_eq!(refused(open(" ", "w", true, None, MessageIntent::Task)), "task is empty");
    assert_eq!(refused(open("t", " ", true, None, MessageIntent::Task)), "workspace is empty");
    assert_eq!(refused(open("t", "w", false, None, MessageIntent::Task)), "workspace not found: w");
    assert_eq!(
        refused(open("t", "w", true, Some(AgentMode::Chat), MessageIntent::Task)),
        "Chat mode has no tools"
    );
    assert_eq!(
        open("thanks", "", false, None, MessageIntent::Acknowledgement),
        Opening::Reply {
            disposition: "conversation",
            text: "Got it. Let me know if you’d like anything else."
        },
        "an acknowledgement starts nothing"
    );
    assert!(matches!(
        open("hi", "", false, None, MessageIntent::Greeting),
        Opening::Reply { .. }
    ));
    assert_eq!(
        open(" fix it ", "w", true, None, MessageIntent::Task),
        Opening::Run("fix it".into())
    );
    assert_eq!(open("go on", "w", true, None, MessageIntent::Continue), Opening::Continue);
    assert_eq!(admit_run(false).unwrap_err().status, 409);
    assert!(admit_run(true).is_ok());
    assert!(run_reasoning(Some(true), false, false));
    assert!(!run_reasoning(Some(false), true, true));
    assert!(run_reasoning(None, false, true));
}

#[test]
fn continuation_requires_saved_unfinished_task_in_exact_project() {
    let saved = |status: &str| {
        Some(TaskContext { task: "build the site".into(), status: status.into() })
    };
    let reply = |c: Continuation| match c {
        Continuation::Reply(disposition, _) => disposition,
        Continuation::Task(task) => panic!("{task}"),
    };
    let task = MessageIntent::Task;
    assert_eq!(reply(resolve_continuation(None, true, None, task)), "needs_task");
    assert_eq!(reply(resolve_continuation(saved("planned"), false, None, task)), "needs_task");
    assert_eq!(reply(resolve_continuation(saved("completed"), true, None, task)), "needs_task");
    for status in ["planned", "interrupted"] {
        assert_eq!(
            resolve_continuation(saved(status), true, None, task),
            Continuation::Task("build the site".into())
        );
    }
    let run = |state, plan_presented| Some(LiveRun { state, plan_presented });
    assert_eq!(
        reply(resolve_continuation(
            saved("planned"),
            true,
            run(AgentState::WaitingPermission, false),
            task
        )),
        "conversation"
    );
    assert_eq!(
        resolve_continuation(saved("x"), true, run(AgentState::Completed, true), task),
        Continuation::Task("build the site".into())
    );
    // Nothing saved, but the latest reply made an offer.
    let nothing = || Continuation::Reply("needs_task", "What?");
    assert_eq!(continue_run(" go ahead ", nothing(), true), Opening::Run("go ahead".into()));
    assert_eq!(
        continue_run("go ahead", nothing(), false),
        Opening::Reply { disposition: "needs_task", text: "What?" }
    );
    assert_eq!(
        continue_run("x", Continuation::Reply("conversation", "Running"), true),
        Opening::Reply { disposition: "conversation", text: "Running" }
    );
    assert_eq!(continue_run("x", Continuation::Task("t".into()), true), Opening::Run("t".into()));
}

#[test]
fn agent_rejects_folder_different_from_linked_code_project() {
    assert!(admit_project(Ok("/a"), Ok("/a")).is_ok());
    assert!(admit_project(Ok("/a"), Ok("/b"))
        .unwrap_err()
        .message
        .contains("differs from this session's linked project"));
    assert_eq!(admit_project(Err("gone"), Ok("/b")).unwrap_err().message, "project unavailable: gone");
    assert_eq!(admit_project(Ok("/a"), Err("x")).unwrap_err().hint, "Choose an accessible project.");
}

#[test]
fn what_a_run_leaves_behind_is_what_continues() {
    assert_eq!(task_outcome(AgentState::Completed, AgentMode::Plan, true), Some("planned"));
    assert_eq!(task_outcome(AgentState::Completed, AgentMode::Agent, true), Some("completed"));
    assert_eq!(task_outcome(AgentState::Failed, AgentMode::Plan, true), Some("interrupted"));
    assert_eq!(task_outcome(AgentState::Cancelled, AgentMode::Agent, false), Some("interrupted"));
    assert_eq!(task_outcome(AgentState::Observing, AgentMode::Agent, false), None);
    assert_eq!(
        resume_run(true, true, true, true).unwrap(),
        ApprovalDecision::Approved { session: true }
    );
    assert_eq!(resume_run(true, true, false, true).unwrap(), ApprovalDecision::Denied);
    assert_eq!(resume_run(false, true, true, true).unwrap_err().status, 404);
    assert_eq!(
        resume_run(true, false, true, true).unwrap_err().message,
        "run is not waiting for approval"
    );
    assert_eq!(stop_run(AgentState::Failed, Some(3)), Stopping::AlreadyFinished);
    match stop_run(AgentState::Observing, Some(3)) {
        Stopping::Cancel { message, iteration } => {
            assert_eq!(iteration, 3);
            assert!(message.starts_with("Stopped by you."));
        }
        other => panic!("{other:?}"),
    }
    assert_eq!(run_standing(None), (AgentState::Idle, 0));
    assert_eq!((record_limit(0), record_limit(7), record_limit(900)), (1, 7, 200));
    assert_eq!(default_exec_limit(), 50);
    assert!(BROKE_OFF.contains("inspect them before retrying"));
    assert_eq!(STARTING, "Work is starting…");
}

#[test]
fn commands_resolve_without_a_model() {
    assert_eq!(resolve_command("help", "", false), Request::Help);
    assert_eq!(resolve_command("model", "", true), Request::ShowModel);
    assert_eq!(resolve_command("model", "tiny", true), Request::LoadModel);
    assert_eq!(resolve_command("review", "", false), Request::Work);
    assert_eq!(
        resolve_command("frobnicate", "", true),
        Request::Answer("Unknown command '/frobnicate'. Try /help.".into())
    );
    let hint = |r: Request| match r {
        Request::Refused(e) => e.hint,
        other => panic!("{other:?}"),
    };
    assert_eq!(hint(resolve_command("context", "", false)), "Run /context inside a chat.");
    assert_eq!(hint(resolve_command("compact", "", false)), "Run /compact inside a chat.");
    assert_eq!(hint(resolve_command("retry", "", false)), "Run /retry inside a chat.");
    assert_eq!(hint(resolve_command("search", "", true)), "Usage: /search <query>");
    assert_eq!(hint(resolve_command("find", "", true)), "Usage: /find <pattern> (e.g. *.cpp)");
    for (name, request) in [
        ("models", Request::Models),
        ("status", Request::Status),
        ("context", Request::Context),
        ("clear", Request::Clear),
        ("compact", Request::Compact),
        ("diff", Request::Diff),
        ("permissions", Request::Permissions),
        ("config", Request::Config),
        ("stop", Request::Stop),
        ("retry", Request::Retry),
    ] {
        assert_eq!(resolve_command(name, "", true), request);
    }
}

#[test]
fn commands_that_only_look_cannot_change_files() {
    assert_eq!(
        work_of("review", "src").unwrap(),
        (
            "Review src without modifying any files. Report findings.".to_string(),
            AgentMode::CodeAssist
        )
    );
    assert!(work_of("review", "").unwrap().0.starts_with("Review the workspace without"));
    assert_eq!(work_of("plan", "a site").unwrap(), ("a site".to_string(), AgentMode::Plan));
    assert_eq!(work_of("plan", "").unwrap_err().hint, "Usage: /plan <task>");
    assert_eq!(work_of("init", "").unwrap().1, AgentMode::CodeAssist);
    assert_eq!(
        work_of("build", "x").unwrap(),
        (
            "Build the project (target: x). Report success or the first errors.".to_string(),
            AgentMode::Agent
        )
    );
    assert_eq!(work_of("test", "").unwrap().0, "Run project tests. Report results.");
    assert_eq!(work_of("run", "").unwrap_err().message, "command is empty");
    assert_eq!(
        work_of("run", "make").unwrap().0,
        "Run this project command and report the result: make"
    );
    let started = work_started("plan", "0123456789".into());
    assert_eq!(started.text(), "Read-only agent run started (01234567) — watch the Agent tab.");
    assert!(work_started("build", "0123456789".into()).text().contains("ask before builds"));
    let action = started.action();
    assert_eq!(action.kind, "agent");
    assert_eq!(action.field, Some(("run_id", "0123456789".to_string())));
}

#[test]
fn a_command_works_in_the_linked_project() {
    let linked = || {
        Some(Workspace {
            id: "1".into(),
            name: "p".into(),
            path: "/p".into(),
            build_system: String::new(),
            created_at: String::new(),
        })
    };
    assert_eq!(command_workspace(None, false, linked(), true).unwrap(), "/p");
    assert_eq!(command_workspace(Some(" /x "), true, linked(), true).unwrap(), "/p");
    assert_eq!(command_workspace(Some(" /x "), true, linked(), false).unwrap(), "/x");
    assert_eq!(command_workspace(Some(" /x "), true, None, false).unwrap(), "/x");
    assert_eq!(
        command_workspace(Some("/x"), false, None, false).unwrap_err().message,
        "directory not found: /x"
    );
    assert_eq!(
        command_workspace(Some(" "), true, linked(), false).unwrap_err().message,
        "linked workspace 'p' is missing: /p"
    );
    assert_eq!(command_workspace(None, true, None, true).unwrap_err().message, "no workspace linked");
}

#[test]
fn commands_answer_in_words() {
    let row = |loaded, supports_reasoning| ModelRow {
        name: "Tiny".into(),
        parameters: "4B".into(),
        quantization: "Q4".into(),
        context_length: 8192,
        loaded,
        supports_reasoning,
    };
    assert_eq!(
        models_text(&[row(true, true), row(false, false)]),
        "Installed models:\n● Tiny (4B Q4, ctx 8192) · reasoning\n○ Tiny (4B Q4, ctx 8192)\n"
    );
    assert!(models_text(&[]).starts_with("No models registered."));
    assert_eq!(active_model_text(None), "No model loaded. Usage: /model <id> (see /models)");
    assert!(active_model_text(Some("tiny")).starts_with("Active model: tiny\n"));
    assert_eq!(loaded_text("tiny", &["CPU only".to_string()]), "Loaded tiny.\nCPU only");
    assert_eq!(search_text("q", "out"), "Search `q`:\nout");
    assert_eq!(find_text("*.c", &[]), "No files matching `*.c`.");
    assert_eq!(
        find_text("*.c", &["a.c".to_string(), "b.c".to_string()]),
        "Files matching `*.c`:\na.c\nb.c"
    );
    for ran in [Some((" ", Some(0))), Some(("1 file", Some(1))), Some(("1 file", None)), None] {
        assert_eq!(diff_text(ran), "No git changes (or not a git repository).");
    }
    assert_eq!(diff_text(Some(("1 file", Some(0)))), "Workspace changes:\n```\n1 file\n```");
    assert_eq!(stopped_text(Some(3)), "Stopped generation (kept 3 chars).");
    assert_eq!(stopped_text(None), "Nothing generating right now.");
    let said = |role: &str, content: &str| Message {
        id: "1".into(),
        conversation_id: "c".into(),
        role: role.into(),
        content: content.into(),
        prose: content.into(),
        created_at: String::new(),
    };
    let again = retry_of(&[said("user", "a"), said("user", "b"), said("assistant", "r")]);
    assert_eq!(again.text(), "Retrying: b");
    assert_eq!(again.action().field, Some(("text", "b".to_string())));
    assert_eq!(retry_of(&[]), CommandOutcome::Message("Nothing to retry yet.".into()));
    let fresh = cleared("new".into());
    assert_eq!(fresh.action().kind, "clear");
    assert_eq!(fresh.action().field, Some(("conversation_id", "new".to_string())));
    assert_eq!(CommandOutcome::Message("m".into()).action().kind, "message");
    assert_eq!(
        command_turn(&Err(ApiError::bad("oops", "hint"))),
        ("Command failed: oops".to_string(), false)
    );
    assert_eq!(command_turn(&Ok(again)), ("Retrying: b".to_string(), true));
    let machine = Machine {
        cpu: "CPU".into(),
        cores: 8,
        ram_gb: "32.0".into(),
        gpu: Some(("GPU".into(), "8.0".into())),
    };
    let numbers = ContextNumbers { total: 5, kept: 3, dropped: 2, tokens: 30 };
    assert_eq!(
        status_text(true, Some("tiny"), 8192, Some(numbers), &machine, 1),
        "Model: tiny (llama-server, ctx 8192)\nChat: 3/5 msgs in context (~30 tok, 2 dropped)\nCPU: CPU (8 cores)\nRAM: 32.0 GB\nGPU: GPU (8.0 GB)\nAgent runs live: 1"
    );
    assert!(status_text(false, None, 0, None, &machine, 0).starts_with("Model: none (stub, ctx 0)\nCPU"));
}

fn settings() -> CheckedSettings {
    CheckedSettings {
        context_size: 8192,
        temperature_in_range: true,
        sampling_in_range: true,
        top_k: 40,
        runtime_auto: false,
        cpu_threads: 8,
        gpu_layers: -1,
        batch_size: 512,
        threads_batch: 0,
        poll: Some(50),
        priority: Some(0),
        flash_attention: true,
        kv_cache: "q8_0".into(),
        compaction_keep_turns: 20,
        auto_compact: "automatic".into(),
        compact_at_pct: 90,
        speculative: "auto".into(),
        reasoning_budget: "medium".into(),
        search_provider: "duckduckgo".into(),
        max_results: 5,
        autonomous_search: "ask".into(),
    }
}

#[test]
fn settings_are_validated() {
    assert!(check_settings(&settings()).is_ok());
    let refused = |s: CheckedSettings| check_settings(&s).unwrap_err().message;
    assert_eq!(
        refused(CheckedSettings { context_size: 0, ..settings() }),
        "context_size must be > 0"
    );
    assert!(check_settings(&CheckedSettings { context_size: 1_048_577, ..settings() }).is_err());
    assert_eq!(
        refused(CheckedSettings { temperature_in_range: false, ..settings() }),
        "temperature out of range"
    );
    assert_eq!(refused(CheckedSettings { top_k: 1001, ..settings() }), "Invalid sampling settings.");
    assert_eq!(
        refused(CheckedSettings { sampling_in_range: false, ..settings() }),
        "Invalid sampling settings."
    );
    assert_eq!(
        refused(CheckedSettings { cpu_threads: 0, ..settings() }),
        "Invalid manual hardware settings."
    );
    assert!(check_settings(&CheckedSettings { cpu_threads: 0, runtime_auto: true, ..settings() })
        .is_ok());
    assert_eq!(
        refused(CheckedSettings { priority: Some(4), ..settings() }),
        "Invalid manual thread settings."
    );
    assert_eq!(
        refused(CheckedSettings { poll: Some(101), ..settings() }),
        "Invalid manual thread settings."
    );
    assert_eq!(
        refused(CheckedSettings { flash_attention: false, ..settings() }),
        "An 8-bit KV cache needs Flash Attention."
    );
    assert_eq!(
        refused(CheckedSettings { compaction_keep_turns: 1, ..settings() }),
        "Invalid recent message count."
    );
    assert_eq!(
        refused(CheckedSettings { auto_compact: "x".into(), ..settings() }),
        "unknown automatic compaction setting"
    );
    assert_eq!(
        refused(CheckedSettings { compact_at_pct: 40, ..settings() }),
        "Invalid compaction threshold."
    );
    assert!(check_settings(&CheckedSettings {
        compact_at_pct: 85,
        auto_compact: "off".into(),
        ..settings()
    })
    .is_ok());
    assert_eq!(
        refused(CheckedSettings { speculative: "x".into(), ..settings() }),
        "unknown speculative decoding setting"
    );
    assert_eq!(
        refused(CheckedSettings { kv_cache: "x".into(), ..settings() }),
        "unknown KV cache precision"
    );
    assert_eq!(
        refused(CheckedSettings { reasoning_budget: "x".into(), ..settings() }),
        "unknown reasoning budget"
    );
    assert_eq!(
        refused(CheckedSettings { search_provider: "x".into(), ..settings() }),
        "unknown search provider"
    );
    assert_eq!(refused(CheckedSettings { max_results: 11, ..settings() }), "max_results out of range");
    assert_eq!(
        refused(CheckedSettings { autonomous_search: "x".into(), ..settings() }),
        "unknown autonomous search policy"
    );
    assert!(changes_fit(1, 2, true, true, false));
    assert!(!changes_fit(2, 2, true, true, false));
}

#[test]
fn a_session_grant_never_releases_a_waiting_web_search() {
    let search = |search_enabled| Waiting {
        tool: "web_search".into(),
        mode_allows: true,
        search_enabled,
    };
    assert!(!releases(&search(true), false, false, &Decision::Allow), "only Auto releases it");
    assert!(releases(&search(true), false, true, &Decision::Allow));
    assert!(!releases(&search(true), true, true, &Decision::Allow), "a saved deny holds");
    assert!(!releases(&search(false), false, true, &Decision::Allow), "consent is per task");
    let edit = |mode_allows| Waiting {
        tool: "edit_file".into(),
        mode_allows,
        search_enabled: false,
    };
    assert!(releases(&edit(true), true, false, &Decision::Allow));
    assert!(!releases(&edit(false), false, true, &Decision::Allow), "a run keeps its mode");
    assert!(!releases(&edit(true), false, true, &asks("x")));
    assert!(choose_permission_mode("auto").unwrap());
    assert!(!choose_permission_mode("accept_edits").unwrap());
    assert_eq!(choose_permission_mode("yolo").unwrap_err().message, "unknown permission mode");
    assert_eq!((window_seconds("5m"), window_seconds(""), window_seconds("1h")), (300, 900, 3600));
    assert_eq!(window_seconds("30m"), 1800);
    assert_eq!(attribution(true, true), ("active", "measured (app total, active session)"));
    assert_eq!(attribution(true, false), ("active", "unknown"));
    assert_eq!(attribution(false, true), ("idle", "unknown"));
}

#[test]
fn every_released_run_is_answered_once() {
    let run = |id: &str, tool: &str, channel| PausedRun {
        id: id.into(),
        waiting: true,
        call: Some(Waiting { tool: tool.into(), mode_allows: true, search_enabled: true }),
        decision: Decision::Allow,
        channel,
    };
    let mut runs = vec![
        run("edit", "write_file", Channel::Open),
        run("gone", "write_file", Channel::Closed),
        run("search", "web_search", Channel::Open),
        run("answered", "write_file", Channel::Answered),
        PausedRun { waiting: false, ..run("busy", "write_file", Channel::Open) },
        PausedRun { call: None, ..run("idle", "write_file", Channel::Open) },
        PausedRun { decision: asks("x"), ..run("asks", "write_file", Channel::Open) },
    ];
    let approval = |id: &str| Approval { run: id.into(), session: false };
    // Only Auto releases a search.
    let (approvals, resumed) = resume_auto_approved_runs(&mut runs, false, false);
    assert_eq!(approvals, [approval("edit"), approval("gone")]);
    assert_eq!(resumed, 1, "the second run no longer listens");
    let channels = |runs: &[PausedRun]| runs.iter().map(|r| r.channel).collect::<Vec<_>>();
    assert_eq!(channels(&runs)[..3], [Channel::Answered, Channel::Answered, Channel::Open]);
    assert_eq!(channels(&runs)[4..], [Channel::Open; 3]);
    let (again, resumed) = resume_auto_approved_runs(&mut runs, false, false);
    assert_eq!((again.len(), resumed), (0, 0));
    let (search, resumed) = resume_auto_approved_runs(&mut runs, false, true);
    assert_eq!((search, resumed), (vec![approval("search")], 1));
    assert_eq!(resume_auto_approved_runs(&mut runs, false, true).1, 0);
}
