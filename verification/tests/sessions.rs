use companion_api::intent::AgentState;
use companion_api::memory::{
    add_memory, compaction_event, conversation_timeline, default_mem_scope, named_event,
    share_memory, MemoryEntry, NewMemory, TimelineEvent,
};
use companion_api::sessions::{
    create_conversation, default_conv_mode, edit_message, fork_conversation, fresh_conversation,
    patch_conversation, patch_session, row_action, runs_to_stop, session_standing, stale_sessions,
    stop_details, Conversation, NewConv, PatchConv, PatchFacts, RowAction, RunRow, NOTHING_LIVE,
};
use companion_api::share::{
    admit_share, changed_files, default_share_turns, default_true, exported_decisions,
    share_package, ShareReq,
};
use companion_api::toolround::ToolRecord;
use companion_api::types::{Attachment, Message};
use companion_api::workspace::Workspace;

fn message(id: &str, role: &str, content: &str) -> Message {
    Message {
        id: id.into(),
        conversation_id: "c".into(),
        role: role.into(),
        content: content.into(),
        prose: content.into(),
        created_at: String::new(),
    }
}

fn project(id: &str) -> Workspace {
    Workspace {
        id: id.into(),
        name: id.into(),
        path: format!("/projects/{id}"),
        build_system: String::new(),
        created_at: String::new(),
    }
}

fn session(id: &str, mode: &str, workspace: &str) -> Conversation {
    Conversation {
        id: id.into(),
        title: "Title".into(),
        model_id: "m".into(),
        created_at: "t0".into(),
        mode: mode.into(),
        workspace: workspace.into(),
        reasoning_default: true,
        search_default: false,
        last_model: "old".into(),
        priority: "normal".into(),
        related_to: String::new(),
    }
}

fn new_session(title: &str, mode: &str, workspace: &str) -> NewConv {
    NewConv {
        title: title.into(),
        model_id: "m".into(),
        mode: mode.into(),
        workspace: workspace.into(),
        reasoning_default: false,
        search_default: true,
    }
}

fn no_change() -> PatchConv {
    PatchConv {
        title: None,
        model_id: None,
        mode: None,
        workspace: None,
        reasoning_default: None,
        search_default: None,
        last_model: None,
    }
}

fn facts(has_messages: bool, linked: Option<Workspace>) -> PatchFacts {
    PatchFacts {
        project_known: true,
        has_messages,
        linked: Ok(linked),
        linked_is_dir: true,
    }
}

#[test]
fn a_session_is_created_or_refused() {
    let made =
        create_conversation(new_session("  ", "", " p "), false, "1".into(), "now".into()).unwrap();
    assert_eq!(made.title, "New chat");
    assert_eq!(made.mode, "chat");
    assert_eq!(made.workspace, "p");
    assert_eq!(made.priority, "normal");
    assert_eq!(made.created_at, "now");
    assert!(made.search_default);
    let refuse = |req: NewConv, known: bool| {
        create_conversation(req, known, "1".into(), "now".into()).unwrap_err()
    };
    assert_eq!(refuse(new_session(&"x".repeat(201), "", ""), true).message, "title too long");
    // A blank title of any length is no title.
    assert!(create_conversation(
        new_session(&" ".repeat(500), "", ""),
        true,
        "1".into(),
        "now".into()
    )
    .is_ok());
    assert_eq!(refuse(new_session("t", "agent", ""), true).message, "invalid mode 'agent'");
    assert_eq!(refuse(new_session("t", "code", " "), true).message, "code session has no workspace");
    assert_eq!(
        refuse(new_session("t", "code", "p"), false).message,
        "selected workspace no longer exists"
    );
    let code =
        create_conversation(new_session(" t ", "code", "p"), true, "1".into(), "now".into())
            .unwrap();
    assert_eq!((code.title.as_str(), code.mode.as_str()), ("t", "code"));
    assert_eq!(default_conv_mode(), "chat");
}

#[test]
fn code_session_keeps_its_project_once_it_has_messages() {
    let to = |workspace: &str| PatchConv { workspace: Some(workspace.into()), ..no_change() };
    // Before the first message the session can still be pointed elsewhere.
    let moved = patch_conversation(
        session("1", "code", "first"),
        to("second"),
        facts(false, Some(project("second"))),
    )
    .unwrap();
    assert_eq!(moved.workspace, "second");
    // Once it has messages it stays.
    let stay = |req: PatchConv| {
        patch_conversation(
            session("1", "code", "second"),
            req,
            facts(true, Some(project("second"))),
        )
    };
    let refused = stay(to("first")).unwrap_err();
    assert_eq!(refused.status, 409);
    assert!(refused.message.contains("another project"));
    assert_eq!(stay(to("")).unwrap_err().status, 409);
    assert!(stay(PatchConv { mode: Some("chat".into()), ..no_change() }).is_ok());
    assert_eq!(
        stay(PatchConv { mode: Some("code".into()), ..to("first") }).unwrap_err().status,
        409
    );
    // Naming the project it already has is not a move.
    let renamed = stay(PatchConv {
        mode: Some("code".into()),
        title: Some("Renamed".into()),
        ..to("second")
    })
    .unwrap();
    assert_eq!(renamed.workspace, "second");
    assert_eq!(renamed.title, "Renamed");
    // A project that is not registered any more is not kept.
    let mut gone = facts(true, Some(project("first")));
    gone.project_known = false;
    assert!(patch_conversation(session("1", "code", "second"), to("first"), gone).is_ok());
}

#[test]
fn changes_are_refused_for_the_first_reason() {
    let patch = |req: PatchConv, facts: PatchFacts| {
        patch_conversation(session("1", "chat", ""), req, facts)
    };
    let long = PatchConv { title: Some("x".repeat(201)), mode: Some("x".into()), ..no_change() };
    assert_eq!(patch(long, facts(false, None)).unwrap_err().message, "title too long");
    let mode = PatchConv { mode: Some("x".into()), ..no_change() };
    assert_eq!(patch(mode, facts(false, None)).unwrap_err().message, "invalid mode 'x'");
    let moved = || PatchConv { workspace: Some("w".into()), ..no_change() };
    assert_eq!(patch(moved(), facts(false, None)).unwrap_err().status, 404);
    let unread = PatchFacts { linked: Err("locked".into()), ..facts(false, None) };
    let failed = patch(moved(), unread).unwrap_err();
    assert_eq!((failed.status, failed.message.as_str()), (500, "storage error: locked"));
    let code = PatchConv { mode: Some("code".into()), ..no_change() };
    assert_eq!(
        patch(code, facts(false, None)).unwrap_err().message,
        "code session has no linked project"
    );
    // What is absent stays; a blank title changes nothing.
    let same = patch(
        PatchConv {
            title: Some(" ".into()),
            reasoning_default: Some(false),
            last_model: Some("new".into()),
            ..no_change()
        },
        facts(true, None),
    )
    .unwrap();
    assert_eq!(same.title, "Title");
    assert_eq!(same.last_model, "new");
    assert!(!same.reasoning_default);
    assert_eq!((same.id.as_str(), same.created_at.as_str()), ("1", "t0"));
}

#[test]
fn branches_and_fresh_sessions_take_over_what_they_should() {
    let from = session("1", "code", "p");
    let fork = fork_conversation(&from, "  ", "2".into(), "t1".into());
    assert_eq!(fork.title, "Title (fork)");
    assert_eq!((fork.id.as_str(), fork.created_at.as_str()), ("2", "t1"));
    assert_eq!((fork.workspace.as_str(), fork.last_model.as_str()), ("p", "old"));
    assert_eq!(fork_conversation(&from, " x ", "2".into(), "t1".into()).title, "x");
    let fresh = fresh_conversation(Some(&from), "3".into(), "t2".into());
    assert_eq!((fresh.title.as_str(), fresh.mode.as_str()), ("New chat", "code"));
    assert_eq!(fresh.last_model, "");
    assert!(fresh.reasoning_default);
    let bare = fresh_conversation(None, "4".into(), "t3".into());
    assert_eq!((bare.mode.as_str(), bare.workspace.as_str()), ("", ""));
    assert_eq!(edit_message(" new ", true).unwrap(), "new");
    assert_eq!(edit_message("x", false).unwrap_err().status, 404);
    assert_eq!(edit_message(" ", false).unwrap_err().status, 400);
}

#[test]
fn priorities_and_relations_are_checked() {
    let patch = |p: Option<&str>, r: Option<&str>, there: bool| {
        patch_session(
            session("1", "chat", ""),
            p.map(String::from),
            r.map(String::from),
            there,
        )
    };
    assert_eq!(patch(Some("high"), None, false).unwrap().priority, "high");
    assert_eq!(patch(Some("urgent"), None, false).unwrap_err().message, "invalid priority 'urgent'");
    assert_eq!(patch(None, Some("2"), false).unwrap_err().message, "related session not found");
    assert_eq!(patch(None, Some("2"), true).unwrap().related_to, "2");
    assert_eq!(patch(None, Some("1"), false).unwrap().related_to, "1");
    assert_eq!(patch(None, Some(""), false).unwrap().related_to, "");
}

#[test]
fn the_list_shows_what_each_session_is_doing() {
    let run = |conversation: &str, state, active| RunRow {
        id: "run-0123456789".into(),
        conversation_id: conversation.into(),
        state,
        active,
    };
    let runs = [
        run("a", AgentState::ExecutingTool, true),
        run("a", AgentState::WaitingPermission, true),
        run("b", AgentState::Completed, false),
        run("c", AgentState::Failed, false),
        run("d", AgentState::Idle, true),
    ];
    let standing = |id: &str, active: Option<&str>, warm: bool| {
        let s = session_standing(id, active, &runs, warm);
        (s.residency, s.activity)
    };
    assert_eq!(standing("a", None, false), ("active", "waiting"), "the latest run counts");
    assert_eq!(standing("b", None, true), ("warm", "idle"));
    assert_eq!(standing("b", None, false), ("cold", "idle"));
    assert_eq!(standing("b", Some("b"), false), ("active", "thinking"));
    assert_eq!(standing("c", None, false), ("active", "error"));
    assert_eq!(standing("d", None, false), ("active", "thinking"));
    assert_eq!(runs_to_stop(&runs, "a"), vec![0, 1]);
    assert!(runs_to_stop(&runs, "b").is_empty());
    assert_eq!(
        stop_details(Some(12), &["run-0123456789".to_string()]),
        vec!["generation stopped (12 chars kept)", "agent run run-0123 stopped"]
    );
    assert!(stop_details(None, &[]).is_empty());
    assert!(NOTHING_LIVE.contains("no live generation"));
}

#[test]
fn row_actions_are_known_ones() {
    assert_eq!(row_action("pause", true, false).unwrap(), RowAction::Stop);
    assert_eq!(row_action("stop", true, false).unwrap(), RowAction::Stop);
    assert_eq!(row_action("reduce", true, true).unwrap(), RowAction::Reduce);
    assert_eq!(
        row_action("reduce", true, false).unwrap_err().message,
        "cannot reduce without inference"
    );
    assert_eq!(row_action("jump", true, true).unwrap_err().message, "unknown action 'jump'");
    assert_eq!(row_action("stop", false, true).unwrap_err().status, 404);
}

#[test]
fn sessions_of_another_model_are_stale() {
    let mut all: Vec<Conversation> = (0..60).map(|i| session(&i.to_string(), "chat", "")).collect();
    all[0].last_model = String::new();
    all[1].last_model = "loaded".into();
    let stale = stale_sessions(&all, "loaded");
    assert_eq!(stale.len(), 50);
    assert_eq!(stale[0], 2);
    assert!(stale_sessions(&all[..2], "loaded").is_empty());
}

#[test]
fn only_what_was_picked_travels() {
    let history = vec![
        message("1", "user", "Decision: mine does not count"),
        message("2", "assistant", "Some text\r\n  Decision: use lists\n✓ done"),
        message("3", "assistant", "Summary: short\nnot this"),
    ];
    let file = Attachment {
        id: "f".into(),
        conversation_id: "c".into(),
        filename: "f.txt".into(),
        mime: "text/plain".into(),
        size_bytes: 12,
        text_excerpt: "excerpt".into(),
        kind: "text".into(),
        status: "ready".into(),
        created_at: String::new(),
    };
    let saved = MemoryEntry {
        id: "m".into(),
        scope: "global".into(),
        scope_id: String::new(),
        content: "prefers tabs".into(),
        source: "user".into(),
        created_at: String::new(),
        last_used: String::new(),
    };
    let nothing = ShareReq {
        target_id: "t".into(),
        turns: 2,
        note: " ".into(),
        messages: false,
        attachments: false,
        memory: false,
        summary: false,
    };
    let (text, turns) = share_package("Src", &nothing, &history, &[file], &[saved]);
    assert_eq!(text, "Shared context from 'Src':\n");
    assert_eq!(turns, 0);
    let all = ShareReq {
        note: " look ".into(),
        messages: true,
        attachments: true,
        memory: true,
        summary: true,
        ..nothing
    };
    let (text, turns) = share_package("Src", &all, &history, &[], &[]);
    assert_eq!(turns, 2);
    assert_eq!(
        text,
        "Shared context from 'Src':\nNote: look\nKey findings:\n- Decision: use lists\n- ✓ done\n- Summary: short\n\n[assistant] Some text\r\n  Decision: use lists\n✓ done\n\n[assistant] Summary: short\nnot this\n\nAttachments: none\n\nMemory: none visible to source\n"
    );
    assert_eq!(exported_decisions(&history), vec!["  Decision: use lists", "✓ done"]);
    assert_eq!(default_share_turns(), 6);
    assert!(default_true());
}

#[test]
fn a_share_needs_another_session() {
    assert_eq!(admit_share("1", " ", true, true).unwrap_err().message, "bad target");
    assert_eq!(admit_share("1", "1", true, true).unwrap_err().message, "bad target");
    assert_eq!(admit_share("1", "2", false, true).unwrap_err().message, "conversation not found");
    assert_eq!(
        admit_share("1", "2", true, false).unwrap_err().message,
        "target conversation not found"
    );
    assert!(admit_share("1", "2", true, true).is_ok());
}

#[test]
fn changed_files_are_the_calls_that_write() {
    let record = |tool: &str, args: &str| ToolRecord {
        conversation_id: "c".into(),
        tool: tool.into(),
        args: args.into(),
        result: String::new(),
        approved: true,
    };
    let mut records = vec![record("read_file", "{}"), record("write_file", &"a".repeat(200))];
    assert_eq!(changed_files(&records), vec![format!("write_file {}", "a".repeat(160))]);
    for _ in 0..60 {
        records.push(record("edit_file", "e"));
    }
    assert_eq!(changed_files(&records).len(), 50);
}

#[test]
fn memories_have_a_scope() {
    let new = |scope: &str, scope_id: &str, content: &str| NewMemory {
        scope: scope.into(),
        scope_id: scope_id.into(),
        content: content.into(),
        source: String::new(),
    };
    let kept = add_memory(&new("", " c1 ", " tabs "), "m", "now").unwrap();
    assert_eq!(kept.scope, "conversation");
    assert_eq!((kept.scope_id.as_str(), kept.content.as_str()), ("c1", "tabs"));
    assert_eq!(kept.source, "user");
    assert_eq!(add_memory(&new("", "c", " "), "m", "now").unwrap_err().message, "memory is empty");
    assert_eq!(
        add_memory(&new("", "c", &"x".repeat(8001)), "m", "now").unwrap_err().message,
        "memory too long"
    );
    assert_eq!(
        add_memory(&new("planet", "c", "x"), "m", "now").unwrap_err().message,
        "invalid scope 'planet'"
    );
    assert_eq!(
        add_memory(&new("workspace", " ", "x"), "m", "now").unwrap_err().message,
        "scope_id is empty"
    );
    assert!(add_memory(&new("global", "", "x"), "m", "now").is_ok());
    let shared = share_memory(&Some(kept), "global", "t", "m2", "later").unwrap();
    assert_eq!(shared.scope_id, "");
    assert_eq!(shared.source, "shared from conversation");
    assert_eq!(share_memory(&None, "global", "t", "m", "n").unwrap_err().status, 404);
    assert_eq!(share_memory(&None, "session", "t", "m", "n").unwrap_err().message, "invalid scope");
    assert_eq!(default_mem_scope(), "conversation");
}

#[test]
fn a_timeline_is_in_order_and_keeps_ties() {
    let event = |label: &str, at: &str| TimelineEvent {
        kind: "k".into(),
        label: label.into(),
        at: at.into(),
    };
    let sorted = conversation_timeline(vec![
        event("b", "2"),
        event("c", "2"),
        event("a", "1"),
        event("d", "10"),
    ]);
    let labels: Vec<&str> = sorted.iter().map(|e| e.label.as_str()).collect();
    assert_eq!(labels, vec!["a", "d", "b", "c"]);
    let many: Vec<TimelineEvent> = (0..400).map(|i| event("x", &i.to_string())).collect();
    assert_eq!(conversation_timeline(many).len(), 300);
    assert!(compaction_event("[Compacted context — summary", "t").is_some());
    assert!(compaction_event("text", "t").is_none());
    assert_eq!(named_event("tool", "Tool: ", "read_file", "t").label, "Tool: read_file");
}
