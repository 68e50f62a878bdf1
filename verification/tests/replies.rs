use companion_api::caller::{admit_caller, api_port, trusted_loopback_origins, ui_port, Header};
use companion_api::chat::{
    admit_chat, closing_activity, command_line, compacted_status, compacting_status,
    compaction_due, compaction_room, failed_activity, interrupted_reply, no_runtime_reply,
    note_relevant_files, reasoning_label, reply_as_file, resolve_reasoning, resolve_search,
    resumed_note, saved_file_note, shape_chat_turns, source_count, stored_reply, stub_reply,
    vision_label, web_block, word_tokens, SearchHit,
};
use companion_api::context::{
    assemble_request_context_with, direct_request_context, history_char_budget, latest_images_of,
    pending_message, RequestContext, RequestParts,
};
use companion_api::decimal::{decimal, group_thousands};
use companion_api::documents::{document_plan, plan_note_of, DocumentPlan};
use companion_api::error::{validate_content, validate_role, ApiError};
use companion_api::intent::{AgentState, Continuation, MessageIntent};
use companion_api::offer::ChatToolOffer;
use companion_api::prompt::{reasoning_preface, ReasoningMode};
use companion_api::reply::{
    clears_task, compaction_failed, continue_chat, end_reply, file_failed, open_chat,
    round_activity, search_failed, search_status, should_stop, show_pieces, ChatOpening, Piece,
    Shown, NOTHING_COMPACTED,
};
use companion_api::rounds::{
    chat_output_budget, discard_round_text, dropped_status, next_status, output_reserve,
    Generation, Next, Opening, Rounds, CHAT_TOOL_ROUNDS,
};
use companion_api::sse::sse_text;
use companion_api::types::{Attachment, ChatTurn, Message};

fn message(id: &str, role: &str, content: &str) -> Message {
    Message {
        id: id.into(),
        conversation_id: "c".into(),
        role: role.into(),
        content: content.into(),
        prose: content.into(),
        created_at: String::new(),
    }
}

fn image(id: &str) -> Attachment {
    Attachment {
        id: id.into(),
        conversation_id: "c".into(),
        filename: format!("{id}.png"),
        mime: "image/png".into(),
        size_bytes: 1,
        text_excerpt: String::new(),
        kind: "image".into(),
        status: "ready".into(),
        created_at: "2026-09-16T10:00:00+00:00".into(),
    }
}

#[test]
fn foreign_websites_cannot_reach_the_local_api() {
    let origins = trusted_loopback_origins(api_port(Some("0.0.0.0:4000")), ui_port(Some("x")));
    assert_eq!(origins.len(), 9);
    assert_eq!(origins[0], "http://localhost:3877");
    assert_eq!(origins[4], "http://127.0.0.1:4000");
    assert_eq!(origins[8], "http://[::1]:5173");
    assert_eq!(api_port(None), 3877);
    assert_eq!(api_port(Some("host")), 3877);
    assert_eq!(api_port(Some("host:70000")), 3877);
    assert_eq!(ui_port(Some("8080")), 8080);
    assert_eq!(trusted_loopback_origins(3877, 3877).len(), 3);
    let text = |s: &str| Header::Text(s.into());
    let visit = |path: &str, origin: Header, host: Header| {
        admit_caller(path, &origin, &host, &origins)
    };
    assert!(visit("/api/health", Header::Absent, Header::Absent).is_ok());
    assert!(visit("/api/health", text("http://localhost:5173"), text("localhost:3877")).is_ok());
    let foreign = visit("/api/chat", text("https://evil.example"), text("localhost:3877"));
    assert_eq!(foreign.unwrap_err().status, 403);
    assert!(visit("/api/chat", Header::Unreadable, Header::Absent).is_err());
    let rebound = visit("/api/chat", Header::Absent, text("evil.example:3877")).unwrap_err();
    assert_eq!(rebound.message, "Only local Companion hosts are allowed");
    assert!(visit("/api/chat", Header::Absent, Header::Unreadable).is_err());
    assert!(visit("/index.html", text("https://evil.example"), text("evil.example")).is_ok());
}

#[test]
fn message_validation_rejects_bad_role_and_empty() {
    assert!(validate_role("user").is_ok() && validate_role("tool").is_ok());
    assert_eq!(validate_role("system").unwrap_err().message, "invalid role 'system'");
    assert_eq!(validate_content(" \n").unwrap_err().message, "message is empty");
    let large = validate_content(&"é".repeat(100_001)).unwrap_err();
    assert_eq!(large.status, 413);
    assert_eq!(large.message, "message too large (200002 chars, max 200000)");
    assert!(validate_content(&"é".repeat(100_000)).is_ok());
    assert_eq!(ApiError::not_found("x").hint, "Check the id and try again.");
    assert_eq!(ApiError::internal("x").status, 500);
    assert_eq!(admit_chat("hi", 17, "").unwrap_err().message, "too many attachments");
    assert_eq!(admit_chat("hi", 16, " ").unwrap(), None);
    assert_eq!(admit_chat("hi", 0, "c1").unwrap().as_deref(), Some("c1"));
}

#[test]
fn event_text_has_no_carriage_returns() {
    assert_eq!(sse_text("a\r\nb\rc\n"), "a\nb\nc\n");
    assert_eq!(sse_text("plain"), "plain");
}

#[test]
fn numbers_are_written_in_groups() {
    assert_eq!((decimal(0), decimal(u64::MAX)), ("0".into(), "18446744073709551615".into()));
    assert_eq!(group_thousands(0), "0");
    assert_eq!(group_thousands(4_294_967_295), "4,294,967,295");
}

#[test]
fn a_message_opens_a_command_an_answer_or_a_reply() {
    let open = |message: &str, files, command, free, meaning, code| {
        open_chat(message, files, "c1", command, free, meaning, code)
    };
    let task = MessageIntent::Task;
    assert!(matches!(open(" ", 0, None, true, task, false), ChatOpening::Refused(_)));
    assert_eq!(open("/help", 0, Some(("help", true)), false, task, false), ChatOpening::Command);
    assert_eq!(
        open("/hlp", 0, Some(("hlp", false)), false, task, false),
        ChatOpening::Hint("Unknown command '/hlp'. Try /help.".into())
    );
    match open("x", 0, None, false, task, false) {
        ChatOpening::Refused(e) => assert_eq!(e.status, 409),
        other => panic!("{other:?}"),
    }
    assert_eq!(
        open("hi", 0, None, true, MessageIntent::Greeting, false),
        ChatOpening::Reply("Hello! What would you like to work on?")
    );
    assert_eq!(open("hi", 1, None, true, MessageIntent::Greeting, false), ChatOpening::Generate);
    assert_eq!(open("go on", 0, None, true, MessageIntent::Continue, true), ChatOpening::Continue);
    assert_eq!(open("go on", 0, None, true, MessageIntent::Continue, false), ChatOpening::Generate);
    assert_eq!(
        open_chat("go on", 0, "", None, true, MessageIntent::Continue, true),
        ChatOpening::Generate
    );
    assert_eq!(continue_chat(Continuation::Task("t".into())), Ok("t".to_string()));
    assert_eq!(continue_chat(Continuation::Reply("d", "r")), Err(("d", "r")));
    assert!(clears_task(true, task) && !clears_task(true, MessageIntent::Continue));
    assert_eq!(command_line("model", "tiny"), "/model tiny");
    assert_eq!(command_line("help", ""), "/help");
}

#[test]
fn chat_answers_honestly_without_a_model() {
    assert_eq!(stub_reply(true, " a  b\n"), "a b");
    assert_eq!(stub_reply(false, "a"), "No model loaded. Load a model first.");
    assert!(no_runtime_reply(true, "a").starts_with("The model runtime stopped unexpectedly."));
    assert_eq!(no_runtime_reply(false, "a"), "No model loaded. Load a model first.");
    assert_eq!(word_tokens("a b"), vec!["a ", "b "]);
}

#[test]
fn options_resolve_from_the_message_down() {
    assert_eq!(resolve_reasoning(Some(false), true, true, true), ReasoningMode::Off);
    assert_eq!(resolve_reasoning(None, true, false, true), ReasoningMode::Native);
    assert_eq!(resolve_reasoning(None, false, true, false), ReasoningMode::Extended);
    assert!(resolve_search(None, true) && !resolve_search(Some(false), true));
    assert!(!resolve_search(None, false), "there is no global switch");
    assert!(compaction_due(true, true, 90, 90));
    assert!(!compaction_due(true, true, 89, 90) && !compaction_due(false, true, 99, 90));
    assert_eq!(compaction_room(1001), 400);
    assert_eq!(resumed_note(None), "");
    assert!(resumed_note(Some("the site")).contains("same project: the site\n"));
    assert!(compacting_status(95, 90).starts_with("Compacting the conversation: 95%"));
    assert!(compacted_status(7, 900, 100).contains("7 older messages summarized (900 → 100"));
    assert!(compaction_failed("x").starts_with("Automatic compaction failed (x);"));
    assert!(NOTHING_COMPACTED.starts_with("Nothing older"));
    assert_eq!(search_status(0), "No web results — answering locally");
    assert_eq!(search_status(3), "Found 3 results");
    assert!(search_failed("x").starts_with("Internet search failed (x)."));
}

#[test]
fn options_touch_the_question_only() {
    let mut turns = vec![
        ChatTurn::text("user", "first".into()),
        ChatTurn::text("assistant", "answer".into()),
        ChatTurn::text("user", "second".into()),
    ];
    let web = web_block(
        "ddg",
        &[SearchHit { title: "T".into(), url: "U".into(), snippet: "S".into() }],
    );
    assert_eq!(
        web,
        "\n\n[Web search results via ddg — cite favorite sources as Sources 1..N]\n1. T (U)\nS\n"
    );
    shape_chat_turns(
        &mut turns,
        "system".into(),
        ReasoningMode::Extended,
        "high",
        false,
        &web,
        &DocumentPlan::Nothing,
    );
    assert_eq!(turns.len(), 4);
    assert_eq!((turns[0].role.as_str(), turns[0].content.as_str()), ("system", "system"));
    assert_eq!(turns[1].content, "first");
    assert_eq!(turns[2].content, "answer");
    assert_eq!(
        turns[3].content,
        format!("second\n\n{}{web}", reasoning_preface("high", false))
    );
    note_relevant_files(&mut turns, &["a.rs".to_string(), "b.rs".to_string()]);
    assert!(turns[3].content.ends_with(
        "\n\n[Relevant files (repo index): a.rs, b.rs. Read the ones that matter with read_file before answering.]"
    ));
    assert_eq!(document_plan(Some("docx".into()), false), DocumentPlan::Tool);
    assert_eq!(document_plan(Some("md".into()), true), DocumentPlan::Plain("md".into()));
    assert_eq!(document_plan(Some("docx".into()), true), DocumentPlan::Declined("docx".into()));
    assert_eq!(document_plan(None, true), DocumentPlan::Nothing);
    assert_eq!(plan_note_of(&DocumentPlan::Nothing), "");
    assert_eq!(source_count("Sources\n1. a\n2. b\n"), 2);
}

#[test]
fn only_prose_becomes_the_reply() {
    let mut visible = "Hello".to_string();
    let sent = show_pieces(
        &mut visible,
        vec![
            Piece::Prose(", world".into()),
            Piece::ActionStarted { name: None },
            Piece::ActionFinished { name: Some("read_file".into()) },
            Piece::ActionIncomplete { name: None },
            Piece::Prose("!".into()),
        ],
    );
    assert_eq!(visible, "Hello, world!");
    assert_eq!(
        sent,
        vec![
            Shown::Token(", world".into()),
            Shown::Action { state: "started", name: None },
            Shown::Action { state: "finished", name: Some("read_file".into()) },
            Shown::Action { state: "incomplete", name: None },
            Shown::Token("!".into()),
        ]
    );
    assert_eq!(discard_round_text("Hello, world!", 5), "Hello");
    assert_eq!(discard_round_text("Hé", 99), "Hé");
    assert!(should_stop(true, "x ```tool {}", true));
    assert!(!should_stop(false, "```tool", true) && !should_stop(true, "tool", true));
    assert_eq!(round_activity("reading", true, false), Some(("thought", AgentState::Observing)));
    assert_eq!(round_activity("done", false, false), Some(("response", AgentState::Completed)));
    assert_eq!(round_activity("half", false, true), Some(("response", AgentState::Observing)));
    assert_eq!(round_activity(" ", false, false), None);
}

#[test]
fn a_reply_is_saved_once_and_a_stop_is_no_failure() {
    let ended = end_reply(None, "text", false, true, true);
    assert_eq!((ended.save.as_deref(), ended.done, ended.error), (Some("text"), true, None));
    assert_eq!(end_reply(None, "text", false, false, true).save, None);
    assert_eq!(end_reply(None, "text", false, true, false).save, None);
    let failed = end_reply(Some("lost"), "", false, true, true);
    assert_eq!(failed.save.as_deref(), Some("Inference interrupted: lost"));
    assert_eq!(failed.error.as_deref(), Some("Inference failed: lost"));
    let stopped = end_reply(Some("lost"), "half", true, true, true);
    assert_eq!((stopped.save.as_deref(), stopped.error), (Some("half"), None));
    assert_eq!(interrupted_reply("half", "x"), "half");
    assert_eq!(stored_reply("text", "\n1. s"), "text\n1. s");
    assert_eq!(reasoning_label(ReasoningMode::Off, true), "native");
    assert_eq!(reasoning_label(ReasoningMode::Extended, true), "extended");
    assert_eq!((vision_label(0), vision_label(2)), ("off", "unsupported"));
    assert_eq!(closing_activity(true, true).unwrap().0, AgentState::Cancelled);
    assert_eq!(closing_activity(false, true).unwrap().0, AgentState::Completed);
    assert_eq!(closing_activity(false, false), None);
    assert_eq!(failed_activity(false, "x").0, AgentState::Failed);
    assert_eq!(failed_activity(true, "x").1, "Stopped. Partial work was kept.");
    let plan = DocumentPlan::Plain("md".into());
    assert_eq!(
        reply_as_file(&plan, "Write a markdown file about lists", "# T", false, false),
        Some(("lists.md".to_string(), "# T".to_string()))
    );
    assert_eq!(reply_as_file(&plan, "x", "# T", true, false), None);
    assert_eq!(reply_as_file(&plan, "x", " ", false, false), None);
    assert_eq!(reply_as_file(&DocumentPlan::Tool, "x", "# T", false, false), None);
    assert!(saved_file_note("a.md").starts_with("\n\nSaved as a.md in"));
    assert_eq!(file_failed("disk"), "The file could not be saved: disk");
}

fn generation(finish: &str) -> Generation {
    Generation {
        prompt_tokens: 10,
        generated_tokens: 5,
        gen_ms: 7,
        reasoning_present: false,
        finish_reason: Some(finish.into()),
        early_stopped: false,
    }
}

#[test]
fn rounds_are_bounded_and_corrected_once() {
    let offer = ChatToolOffer::for_request(false, true);
    let mut rounds = Rounds::new(true);
    let mut turns = vec![ChatTurn::text("user", "make a file".into())];
    assert_eq!(rounds.open_round(true, 8192), Opening::Stop);
    assert_eq!(rounds.open_round(false, 8192), Opening::Generate);
    assert!(rounds.generated(&generation("stop"), false));
    let text = "```tool\n{\"name\": \"create_document\", broken";
    assert_eq!(
        rounds.after_tools(&mut turns, text, false, false, Some("not JSON"), &offer),
        Next::Correct
    );
    assert_eq!(turns.len(), 3);
    assert!(turns[2].content.contains("could not be read (not JSON)"));
    assert_eq!(
        rounds.after_tools(&mut turns, text, false, false, Some("not JSON"), &offer),
        Next::Nudge,
        "one correction only"
    );
    assert_eq!(rounds.after_tools(&mut turns, text, false, false, None, &offer), Next::Done);
    assert_eq!(rounds.after_tools(&mut turns, text, true, true, None, &offer), Next::Again);
    assert!(rounds.document_created);
    assert_eq!(rounds.tool_uses, 1);
    assert_eq!(rounds.open_round(false, 8192), Opening::Release(2048));
    rounds.tool_uses = CHAT_TOOL_ROUNDS;
    assert!(!rounds.generated(&generation("length"), true));
    assert!(rounds.pending_tool_limit && !rounds.truncated);
    assert!(!rounds.generated(&generation("length"), false));
    assert!(rounds.truncated);
    assert_eq!((rounds.prompt_tokens, rounds.generated_tokens, rounds.gen_ms), (30, 15, 21));
    let before = turns.len();
    rounds.begin_generation(&mut turns, 8192, 100, ReasoningMode::Off, "low");
    assert_eq!(turns.len(), before + 1);
    assert!(turns[before].content.starts_with("[Inspection budget reached."));
    assert!(!rounds.released(false));
    assert!(rounds.failed.unwrap().starts_with("Inspection reached"));
    assert!(next_status(Next::Correct).is_some() && next_status(Next::Done).is_none());
}

#[test]
fn an_overflow_is_retried_once_before_any_tool() {
    let long = |role: &str| ChatTurn::text(role, "x".repeat(3000));
    let mut turns = vec![
        ChatTurn::text("system", "s".into()),
        long("user"),
        long("assistant"),
        ChatTurn::text("user", "q".into()),
    ];
    let mut rounds = Rounds::new(false);
    assert_eq!(rounds.generation_failed(&mut turns, "too long", Some((9000, 8192))), Some(2));
    assert_eq!(turns.len(), 2);
    assert_eq!(rounds.generation_failed(&mut turns, "too long", Some((9000, 8192))), None);
    assert_eq!(rounds.failed.as_deref(), Some("too long"));
    let mut late = Rounds::new(false);
    late.tool_uses = 1;
    assert_eq!(late.generation_failed(&mut turns, "e", Some((9000, 8192))), None);
    assert!(!late.overflow_retried);
    assert!(dropped_status(2).contains("leaving out the 2 oldest message(s)"));
    assert_eq!(chat_output_budget(100_000, 0, ReasoningMode::Off, "high"), 8192);
    assert_eq!(chat_output_budget(100_000, 0, ReasoningMode::Native, "high"), 16_384);
    assert_eq!(chat_output_budget(100_000, 0, ReasoningMode::Extended, "low"), 12_288);
    assert_eq!(chat_output_budget(4096, 3000, ReasoningMode::Off, "low"), 840);
    // The floor holds only where that much is left.
    assert_eq!(chat_output_budget(1024, 700, ReasoningMode::Off, "low"), 256);
    assert_eq!(chat_output_budget(1024, 768, ReasoningMode::Off, "low"), 256);
    assert_eq!(chat_output_budget(1024, 1000, ReasoningMode::Off, "low"), 24);
    assert_eq!(chat_output_budget(1024, 1024, ReasoningMode::Native, "high"), 0);
    assert_eq!(chat_output_budget(4096, 9000, ReasoningMode::Off, "low"), 0);
    assert_eq!((output_reserve(1000), output_reserve(8192), output_reserve(90_000)), (500, 2048, 8192));
}

fn parts(snapshot: &str, memory: &str) -> RequestParts {
    RequestParts {
        mode: "code".into(),
        reasoning_default: false,
        search_default: true,
        model_name: "Tiny".into(),
        images_wanted: true,
        history: vec![
            message("m1", "user", "look"),
            message("m2", "assistant", "I see."),
            pending_message("c", "and now?"),
        ],
        attachments: vec![image("a")],
        snapshot: snapshot.into(),
        memory: memory.into(),
        chat_workspace: None,
        images: vec![(0, "data:a".into())],
        images_failed: 1,
        n_ctx: 8192,
        legacy: false,
    }
}

#[test]
fn the_system_prompt_stays_the_same_while_the_project_changes() {
    let one = assemble_request_context_with(parts("src/", "[Memory]\n- a"));
    let other = assemble_request_context_with(parts("src/\nlib/", ""));
    assert_eq!(one.sys_prompt, other.sys_prompt);
    assert_eq!(one.turns.len(), 3);
    assert_eq!(one.turns[0].content, other.turns[0].content);
    assert!(one.turns[2].content.contains("[Linked project: current directory listing]\nsrc/"));
    assert!(one.turns[2].content.ends_with("[Memory]\n- a"));
    assert!(one.search_default && !one.reasoning_default);
    assert_eq!(one.images_skipped, 1);
    assert_eq!(one.history_chars, "lookI see.and now?".len());
    let direct = direct_request_context("Tiny", Some("hi"), 8192);
    assert_eq!(direct.turns.len(), 1);
    assert_eq!(direct.sys_mode, "chat");
}

#[test]
fn history_fills_the_room_it_has() {
    let mut c: RequestContext = direct_request_context("Tiny", None, 8192);
    c.history_chars = 450;
    c.history_room_chars = 1000;
    assert_eq!(c.history_usage_pct(), 45);
    c.history_room_chars = 0;
    assert_eq!(c.history_usage_pct(), 999);
    c.history_chars = usize::MAX;
    c.history_room_chars = usize::MAX;
    assert_eq!(c.history_usage_pct(), 1, "the product saturates");
    assert_eq!(history_char_budget(8192, 3000), (8192 - 1000 - 1536) * 3);
    assert_eq!(history_char_budget(0, 0), 4000);
    assert_eq!(history_char_budget(1_000_000, 0), 60_000);
    let files: Vec<Attachment> = (0..6).map(|i| image(&i.to_string())).collect();
    assert_eq!(latest_images_of(&files), vec![2, 3, 4, 5]);
}
