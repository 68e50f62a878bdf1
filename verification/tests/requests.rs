use companion_api::decimal::group_thousands;
use companion_api::documents::{
    document_tool_note, plain_document_body, plain_document_filename, structured_document_notice,
};
use companion_api::history::{build_turns, build_turns_with_owners};
use companion_api::intent::{latest_reply_asks, message_intent, MessageIntent};
use companion_api::load::context_limit_notice;
use companion_api::offer::{tool_name_in, ChatToolOffer, ToolCall};
use companion_api::prompt::{build_system_prompt, changing_context_block, LISTING_IN_LATEST_MESSAGE};
use companion_api::rounds::drop_oldest_history;
use companion_api::toolround::chat_tool_output;
use companion_api::types::{Attachment, ChatTurn, Message};

/// A reply of a small model: an invented tool name, ordinary code as its
/// argument, and an args object that never closes.
const INVENTED_TOOL_REPLY: &str = "```tool\n{\"name\": \"rust_program\", \"args\": {\"code\": \"fn main() {\\n  println!(\\\"Hello world!\\\");\\n}}\"}\n``` \n\nI've started with a basic Rust program that prints \"Hello world!\".";

fn message(id: &str, role: &str, content: &str, at: &str) -> Message {
    Message {
        id: id.into(),
        conversation_id: "c".into(),
        role: role.into(),
        content: content.into(),
        prose: content.into(),
        created_at: at.into(),
    }
}

fn attachment(name: &str, excerpt: &str, at: &str) -> Attachment {
    Attachment {
        id: name.into(),
        conversation_id: "c".into(),
        filename: name.into(),
        mime: "text/plain".into(),
        size_bytes: excerpt.len() as u64,
        text_excerpt: excerpt.into(),
        kind: "text".into(),
        status: "ready".into(),
        created_at: at.into(),
    }
}

#[test]
fn build_turns_folds_tool_and_appends_attachments() {
    let history = vec![message("1", "user", "hi", ""), message("2", "tool", "ls output", "")];
    let turns = build_turns(&history, &[], false);
    assert_eq!(turns.len(), 2);
    assert_eq!(turns[1].role, "user");
    assert!(turns[1].content.contains("[tool result]"));
}

#[test]
fn a_context_beyond_the_models_limit_is_announced() {
    let notice = context_limit_notice("Tiny", 32_768, 8_192).unwrap();
    assert!(notice.contains("Tiny supports at most 8,192 tokens"));
    assert!(notice.contains("32,768 was reduced to 8,192"));
    assert!(context_limit_notice("Tiny", 8_192, 8_192).is_none());
    assert!(context_limit_notice("Unknown", 32_768, 0).is_none());
    assert_eq!(group_thousands(262_144), "262,144");
    assert_eq!(group_thousands(512), "512");
}

#[test]
fn an_attachment_stays_on_the_message_it_was_sent_with() {
    let earlier = || {
        vec![
            message("m1", "user", "summarise this", "2026-09-16T10:00:05+00:00"),
            message("m2", "assistant", "It is about lists.", "2026-09-16T10:00:10+00:00"),
            message("m3", "user", "and this one?", "2026-09-16T10:01:05+00:00"),
            message("m4", "assistant", "About trees.", "2026-09-16T10:01:10+00:00"),
        ]
    };
    let mut history = earlier();
    history.push(message("pending", "user", "compare them", ""));
    let files = vec![
        attachment("lists.txt", "LISTS", "2026-09-16T10:00:00+00:00"),
        attachment("trees.txt", "TREES", "2026-09-16T10:01:00+00:00"),
    ];
    let (turns, ids) = build_turns_with_owners(&history, &files, 100_000, false);
    assert_eq!(ids, vec!["m1", "m2", "m3", "m4", "pending"]);
    assert!(turns[0].content.contains("[Attached file: lists.txt]"));
    assert!(turns[2].content.contains("[Attached file: trees.txt]"));
    assert!(
        !turns[4].content.contains("Attached file"),
        "the newest turn no longer collects every excerpt"
    );
    // The same request next turn renders the earlier turns identically.
    let mut next = earlier();
    next.push(message("m5", "user", "compare them", "2026-09-16T10:02:00+00:00"));
    next.push(message("m6", "assistant", "Lists are linear.", "2026-09-16T10:02:10+00:00"));
    next.push(message("pending", "user", "which is faster?", ""));
    let (later, _) = build_turns_with_owners(&next, &files, 100_000, false);
    assert_eq!(later[..4], turns[..4], "the prefix is byte-identical");
}

#[test]
fn turns_that_two_requests_share_are_sent_alike() {
    let shared = || {
        vec![
            message("m1", "user", "summarise this", "2026-09-16T10:00:05+00:00"),
            message("m2", "assistant", "It is about lists.", "2026-09-16T10:00:10+00:00"),
        ]
    };
    let (lists, trees, graphs) = (
        || attachment("lists.txt", "LISTS", "2026-09-16T10:00:00+00:00"),
        || attachment("trees.txt", "TREES", "2026-09-16T10:01:00+00:00"),
        || attachment("graphs.txt", "GRAPHS", "2026-09-16T10:03:00+00:00"),
    );
    let mut first = shared();
    first.push(message("m3", "user", "and this one?", "2026-09-16T10:01:05+00:00"));
    let mut second = shared();
    second.push(message("n3", "user", "something else", "2026-09-16T10:00:50+00:00"));
    second.push(message("n4", "assistant", "Yes.", "2026-09-16T10:00:55+00:00"));
    second.push(message("pending", "user", "and these?", ""));
    let (a, _) = build_turns_with_owners(&first, &[lists(), trees()], 100_000, false);
    let (b, _) = build_turns_with_owners(&second, &[lists(), trees()], 50_000, false);
    assert_eq!((a.len(), b.len()), (3, 5));
    assert!(a[0].content.ends_with("[Attached file: lists.txt]\nLISTS"));
    assert_eq!(a[..2], b[..2]);
    assert!(a[2].content.contains("trees.txt") && b[4].content.contains("trees.txt"));
    // A file sent since goes on a later turn.
    let files = [lists(), trees(), graphs()];
    let (c, _) = build_turns_with_owners(&second, &files, 50_000, false);
    assert_eq!(c[..4], b[..4]);
    assert!(c[4].content.contains("graphs.txt"));
}

#[test]
fn the_changing_context_block_carries_the_listing_and_memory() {
    let block = changing_context_block("src/\n  main.rs\n", "[Memory]\n- prefers tabs");
    assert!(block.starts_with("\n\n[Linked project: current directory listing]\nsrc/"));
    assert!(block.ends_with("[Memory]\n- prefers tabs"));
    assert_eq!(changing_context_block("", "  "), "");
    let prompt = build_system_prompt("code", LISTING_IN_LATEST_MESSAGE, "m");
    assert!(prompt.contains(LISTING_IN_LATEST_MESSAGE));
    assert!(!prompt.contains("no project linked"));
}

#[test]
fn a_plain_document_reply_is_saved_without_its_fence_under_a_name_from_the_request() {
    assert_eq!(plain_document_body("```markdown\n# Title\n\nBody\n```"), "# Title\n\nBody");
    assert_eq!(plain_document_body("# Title\nBody"), "# Title\nBody");
    assert_eq!(
        plain_document_filename("Write a markdown file about linked lists", "md"),
        "linked-lists.md"
    );
    assert_eq!(plain_document_filename("make a csv", "csv"), "document.csv");
    assert!(structured_document_notice("docx").contains(".txt, .md, .csv, .html or .json"));
}

#[test]
fn an_overflow_drops_the_oldest_history_but_never_the_system_prompt_or_the_question() {
    let mut turns = vec![
        ChatTurn::text("system", "rules".into()),
        ChatTurn::text("user", "a".repeat(3000)),
        ChatTurn::text("assistant", "b".repeat(3000)),
        ChatTurn::text("user", "c".repeat(3000)),
        ChatTurn::text("assistant", "d".repeat(3000)),
        ChatTurn::text("user", "the question".into()),
    ];
    let removed = drop_oldest_history(&mut turns, 1200);
    assert_eq!(removed, 2, "one message frees 1,000 tokens; its reply goes with it");
    assert_eq!(turns[0].role, "system");
    assert_eq!(turns[1].role, "user");
    assert_eq!(turns.last().unwrap().content, "the question");
    assert_eq!(drop_oldest_history(&mut turns, u32::MAX), 2);
    assert_eq!(turns.len(), 2);
    assert_eq!(drop_oldest_history(&mut turns, u32::MAX), 0, "nothing left to drop");
}

#[test]
fn a_chat_prompt_teaches_no_tool_protocol_and_claims_no_project() {
    let chat = build_system_prompt("chat", "", "Model");
    assert!(!chat.contains("```tool"), "{chat}");
    assert!(!chat.contains("create_document"));
    assert!(!chat.contains("linked project"));
    assert!(!chat.contains("run approved tools"));
    // The document protocol travels only with a request for a document.
    assert!(document_tool_note().contains("create_document"));
    // A code session still describes its project and its read tools.
    let code = build_system_prompt("code", "Project 'p' at C:/p", "Model");
    assert!(code.contains("read_file"));
    assert!(!code.contains("create_document"));
}

#[test]
fn only_an_offered_tool_is_an_action() {
    let plain_chat = ChatToolOffer::for_request(false, false);
    assert!(plain_chat.is_empty());
    assert!(plain_chat.call_in(None).is_none());
    let invented = ToolCall { name: "rust_program".into(), args: "{}".into() };
    assert!(plain_chat.call_in(Some(invented)).is_none());
    // Nothing offered: an unreadable block earns no correction, so the
    // model is never told its answer should have been a tool call.
    assert!(!plain_chat.attempted_in(INVENTED_TOOL_REPLY));

    let document = ChatToolOffer::for_request(false, true);
    assert!(document.offers("create_document"));
    assert!(!document.offers("read_file"));
    // Offered, but the model invented a different name: still no correction.
    assert!(!document.attempted_in(INVENTED_TOOL_REPLY));
    // A broken call to the offered tool is corrected.
    let broken_document = "```tool\n{\"name\":\"create_document\",\"args\":{\"filename\":\"a.md\",\"text\":\"x\"\n```";
    assert!(document.attempted_in(broken_document));

    let code = ChatToolOffer::for_request(true, false);
    assert!(code.offers("read_file") && code.offers("manage_context"));
    assert!(!code.offers("create_document") && !code.offers("write_file"));
}

#[test]
fn a_tool_name_is_read_from_a_call_whose_json_is_broken() {
    assert_eq!(tool_name_in(INVENTED_TOOL_REPLY).as_deref(), Some("rust_program"));
    assert_eq!(tool_name_in("{\"name\" : \"read_file\", \"args\": {"), Some("read_file".into()));
    assert_eq!(tool_name_in("no action here"), None);
}

#[test]
fn system_prompt_knows_projects() {
    let snap = "Project 'SampleEngine' at /projects/sample-engine\nBuild: CMake\nTree (top levels):\n  src/\n"
        .to_string();
    let p = build_system_prompt("code", &snap, "Example 14B");
    assert!(p.contains("SampleEngine"), "{p}");
    assert!(p.contains("/init"), "{p}");
    assert!(p.contains("Never claim you cannot"), "{p}");
    let p = build_system_prompt("code", "", "Example 14B");
    assert!(p.contains("no project linked"), "{p}");
    let p = build_system_prompt("chat", "", "Example 14B");
    assert!(!p.contains("/init"), "{p}");
}

#[test]
fn chat_inspection_prompt_supports_source_exploration_and_arbitrary_ranges() {
    let prompt = build_system_prompt("code", "src/\ntests/", "test");
    assert!(prompt.contains("source, callers, tests and configuration"));
    assert!(prompt.contains("ANY start_line/end_line"));
    assert!(prompt.contains("24 read-only actions"));
    let output = "x".repeat(18_000);
    assert!(chat_tool_output(&output).contains("Result truncated"));
}

#[test]
fn a_reply_that_ends_by_asking_invites_an_answer() {
    let message = |role: &str, content: &str| message(&format!("{role}-{}", content.len()), role, content, "");
    assert!(latest_reply_asks(&[
        message("user", "fix it"),
        message("assistant", "Found the bug in subtract.\n\nWould you like me to fix it?")
    ]));
    assert!(latest_reply_asks(&[message("assistant", "Shall I add tests? **")]));
    assert!(!latest_reply_asks(&[message("assistant", "Why? Because the sign was flipped. Fixed.")]));
    assert!(!latest_reply_asks(&[
        message("assistant", "Done?"),
        message("user", "hm"),
        message("assistant", "All tests pass.")
    ]));
    assert!(!latest_reply_asks(&[message("user", "anything?")]));
}

#[test]
fn conversational_intent_matches_whole_inputs_not_prefixes() {
    for input in ["Looks good to me!", "  THANKS  ", "👍🏽", "Okay.", "yes"] {
        assert_eq!(message_intent(input), MessageIntent::Acknowledgement, "{input}");
    }
    assert_eq!(message_intent("Hello!"), MessageIntent::Greeting);
    for input in ["continue", "Go ahead.", "implement the plan"] {
        assert_eq!(message_intent(input), MessageIntent::Continue);
    }
    for input in [
        "Thanks, now fix the tests",
        "looks good but change the title",
        "Hello, can you inspect README?",
        "continue fixing parser.rs",
        "yes, fix it",
        "why does this work?",
    ] {
        assert_eq!(message_intent(input), MessageIntent::Task, "{input}");
    }
}
