use companion_api::compact::{
    check_unchanged, compacted, compaction_range, fold_limits, not_worth_it, nothing_to_compact,
    previous_summary, recent_messages_within, saved_summary, saves, summary_prompt, take_summary,
    Fold, CONVERSATION_COMPACTION_PROMPT,
};
use companion_api::gauge::{
    breakdown, context_line, context_numbers, estimate_tokens, fill, health, live_context,
    recorded_context, usage_event, ContextNumbers, Fill, RecordedReply, RunMark,
};
use companion_api::intent::AgentState;
use companion_api::types::{Attachment, Message};

fn message(id: &str, role: &str, content: &str) -> Message {
    Message {
        id: id.into(),
        conversation_id: "c".into(),
        role: role.into(),
        content: content.into(),
        prose: content.into(),
        created_at: String::new(),
    }
}

#[test]
fn long_conversations_are_summarized_in_window_sized_chunks() {
    let messages: Vec<Message> = (0..40)
        .map(|i| {
            message(
                &format!("m{i}"),
                if i % 2 == 0 { "user" } else { "assistant" },
                &format!("message {i} ").repeat(120),
            )
        })
        .collect();
    let limits = fold_limits(2048);
    assert_eq!(limits.summary_tokens, 341);
    let limit = (2048 - 341 - 512) * 3;
    assert_eq!(limits.prompt_chars, limit);
    let mut prompts: Vec<String> = Vec::new();
    let mut fold = Fold::new("Earlier: hello.".into(), &messages);
    while let Some((prompt, end)) = fold.request(&messages, &limits) {
        prompts.push(prompt);
        let written = format!("Summary {}: the user is building a site.", prompts.len());
        assert!(fold.answered(end, &written).is_ok());
    }
    assert!(prompts.len() > 5, "{} requests", prompts.len());
    for prompt in &prompts {
        assert!(prompt.len() <= limit + 200, "a prompt of {} characters overflows", prompt.len());
    }
    assert!(prompts[0].contains("Earlier: hello."), "an existing summary is the starting point");
    assert!(prompts[1].contains("Summary 1:"), "each chunk updates the running summary");
    assert_eq!(fold.summary, format!("Summary {}: the user is building a site.", prompts.len()));
    assert_eq!(
        fold.before_chars,
        "Earlier: hello.".len() + messages.iter().map(|m| m.content.len()).sum::<usize>()
    );
    // Every message is in exactly one request.
    for m in &messages {
        let mark = format!("] {}", m.content.chars().take(11).collect::<String>());
        assert!(prompts.iter().any(|p| p.contains(&mark)), "{mark}");
    }
}

#[test]
fn an_empty_summary_changes_nothing() {
    let messages = vec![message("1", "user", "hello")];
    let limits = fold_limits(8192);
    let mut fold = Fold::new("before".into(), &messages);
    let (prompt, end) = fold.request(&messages, &limits).unwrap();
    assert_eq!(end, 1);
    assert!(prompt.starts_with(CONVERSATION_COMPACTION_PROMPT));
    assert!(prompt.ends_with("\n\nCurrent summary:\nbefore\n\nNew messages:\n[user] hello\n"));
    let refused = fold.answered(end, " \n ").unwrap_err();
    assert_eq!(refused.status, 400);
    assert_eq!(refused.message, "the model returned an empty context summary");
    assert_eq!(fold.summary, "before");
    assert_eq!(fold.next, 0);
    assert!(fold.answered(end, " kept \n").is_ok());
    assert_eq!(fold.summary, "kept");
    assert!(fold.request(&messages, &limits).is_none());
    assert_eq!(take_summary(" x ").unwrap(), "x");
    assert!(summary_prompt("  ", "l").contains("Current summary:\n(none yet)\n\nNew messages:\nl"));
}

#[test]
fn a_long_message_keeps_its_beginning_and_its_end() {
    let long = format!("{}{}", "a".repeat(5000), "z".repeat(5000));
    let messages = vec![message("1", "user", &long)];
    let limits = fold_limits(2048);
    assert_eq!(limits.excerpt_chars, 1195);
    let fold = Fold::new(String::new(), &messages);
    let (prompt, _) = fold.request(&messages, &limits).unwrap();
    let line = format!("[user] {} […] {}\n", "a".repeat(896), "z".repeat(298));
    assert!(prompt.ends_with(&line));
    // Small and large windows stay within their bounds.
    let small = fold_limits(0);
    assert_eq!((small.summary_tokens, small.prompt_chars, small.excerpt_chars), (256, 0, 600));
    // A request takes 3,000 characters at least, also out of the margin, but
    // never more than a small window holds beside the summary.
    for (n_ctx, chars, excerpt) in [
        (1_024, 2_304, 768),
        (1_255, 2_997, 999),
        (1_256, 3_000, 1_000),
        (1_536, 3_000, 1_000),
        (1_813, 3_000, 1_000),
        (1_814, 3_000, 1_000),
        (1_815, 3_003, 1_001),
        (2_048, 3_585, 1_195),
    ] {
        let narrow = fold_limits(n_ctx);
        assert_eq!((narrow.prompt_chars, narrow.excerpt_chars), (chars, excerpt), "{n_ctx}");
    }
    let large = fold_limits(1_000_000);
    assert_eq!(
        (large.summary_tokens, large.prompt_chars, large.excerpt_chars),
        (1024, 180_000, 3200)
    );
}

#[test]
fn recent_messages_keep_two_and_then_what_fits() {
    let messages: Vec<Message> =
        (0..10).map(|i| message(&i.to_string(), "user", &"x".repeat(100))).collect();
    assert_eq!(recent_messages_within(&messages, 350, 200), 3);
    assert_eq!(recent_messages_within(&messages, 10, 200), 2, "the newest two stay in any case");
    assert_eq!(recent_messages_within(&messages, 100_000, 4), 4);
    assert_eq!(recent_messages_within(&messages, 100_000, 200), 10);
    assert_eq!(recent_messages_within(&messages[..1], 100_000, 200), 2);
    assert_eq!(recent_messages_within(&[], 0, 0), 2);
}

#[test]
fn a_compaction_goes_on_where_the_last_one_ended() {
    let view = vec![message("1", "user", "a")];
    assert_eq!(compaction_range(10, &view, 4), Some((0, 6)));
    assert_eq!(compaction_range(10, &view, 0), Some((0, 9)), "at least one message stays");
    let summarized = vec![
        message("context-summary:c", "system", "s"),
        message("7", "user", "a"),
        message("8", "user", "b"),
        message("9", "user", "c"),
        message("10", "user", "d"),
    ];
    assert_eq!(compaction_range(10, &summarized, 2), Some((6, 8)));
    assert_eq!(compaction_range(10, &summarized, 4), None);
    let none = nothing_to_compact(10, 500);
    assert_eq!(
        none.text,
        "Nothing to compact: 10 messages, and everything older than the newest 200 is already summarized."
    );
    assert_eq!((none.before_chars, none.saved_pct, none.messages), (0, 0, 10));
    assert_eq!(none.status, "noop");
}

#[test]
fn a_saved_summary_is_read_back_without_its_header() {
    let saved = saved_summary(7, "the summary\nin two lines");
    assert_eq!(
        saved,
        "[Compacted context — summary of 7 older messages; original history preserved]\nthe summary\nin two lines"
    );
    assert_eq!(previous_summary(Some(&saved)), "the summary\nin two lines");
    assert_eq!(previous_summary(Some("plain text")), "plain text");
    assert_eq!(previous_summary(Some("[Compacted context — summary of nothing")), "");
    assert_eq!(previous_summary(None), "");
}

#[test]
fn a_summary_of_changed_messages_is_refused() {
    let then = vec![message("1", "user", "a"), message("2", "assistant", "b")];
    let more = vec![
        message("1", "user", "a"),
        message("2", "assistant", "b"),
        message("3", "user", "c"),
    ];
    assert!(check_unchanged(&more, &then, 2).is_ok(), "appended messages are safe");
    let edited = vec![message("1", "user", "A"), message("2", "assistant", "b")];
    let refused = check_unchanged(&edited, &then, 2).unwrap_err();
    assert_eq!(refused.message, "conversation changed during compaction");
    assert!(check_unchanged(&edited, &then, 0).is_ok());
    assert!(check_unchanged(&then[..1], &then, 2).is_err());
    assert!(saves(10, "123456789"));
    assert!(!saves(9, "123456789"));
    assert_eq!(not_worth_it(9, 4).after_chars, 9);
    let done = compacted(1000, 250, 12);
    assert_eq!(done.saved_pct, 75);
    assert_eq!(
        done.text,
        "✓ Context compacted\nBefore 1000 chars\nAfter 250 chars\nSaved 75% (12 messages → 1 context summary). Original messages, timestamps and tool history are preserved."
    );
    assert_eq!(compacted(0, 0, 0).saved_pct, 0);
}

#[test]
fn the_gauge_counts_what_the_model_would_see() {
    assert_eq!(estimate_tokens(403), 100);
    let view = vec![
        message("1", "user", &"q".repeat(40)),
        message("2", "tool", &"t".repeat(26)),
        message("3", "assistant", &"r".repeat(40)),
    ];
    let files = vec![Attachment {
        id: "f".into(),
        conversation_id: "c".into(),
        filename: "f.txt".into(),
        mime: "text/plain".into(),
        size_bytes: 400,
        text_excerpt: "e".repeat(400),
        kind: "text".into(),
        status: "ready".into(),
        created_at: String::new(),
    }];
    let plain = context_numbers(5, &view, &[], "m", false);
    // 40 + ("[tool result]\n" and 26) + 40 and one byte of memory.
    assert_eq!(plain, ContextNumbers { total: 5, kept: 3, dropped: 2, tokens: 30 });
    let parts = breakdown(200, 8192, &view, &files, &"m".repeat(8), false);
    assert_eq!(parts.system, 0);
    assert_eq!(parts.tools, 10);
    assert_eq!(parts.memory, 2);
    assert_eq!(parts.output_reserve, 819);
    assert!(parts.attachments >= 100, "{}", parts.attachments);
    assert_eq!(parts.conversation, 200 - parts.attachments - 10 - 2);
    assert_eq!(
        context_line(&plain, 8192, 1),
        "Context ~30/8192 tokens (1%) — 3/5 messages in window, 2 dropped. /compact frees space."
    );
    assert!(context_line(&plain, 0, 50).contains("(0%)"));
}

#[test]
fn fill_levels_have_names() {
    assert_eq!(fill(100, Some(7), 1, 2), Fill { usage_pct: 7, health_pct: 7 });
    assert_eq!(fill(100, None, 1, 2), Fill { usage_pct: 1, health_pct: 2 });
    assert_eq!(fill(0, None, 1, 2), Fill { usage_pct: 0, health_pct: 0 });
    assert_eq!((health(59), health(60), health(79)), ("healthy", "moderate", "moderate"));
    assert_eq!((health(80), health(89), health(90)), ("high", "high", "critical"));
}

#[test]
fn a_runs_context_is_its_last_report() {
    let mark = |state, iteration, reports_usage| RunMark { state, iteration, reports_usage };
    let events = [
        mark(AgentState::Planning, 1, true),
        mark(AgentState::ExecutingTool, 2, true),
        mark(AgentState::Observing, 3, false),
    ];
    assert_eq!(usage_event(&events), Some(1));
    let live = live_context(&events);
    assert!(live.active);
    assert_eq!((live.iteration, live.event), (2, Some(1)));
    let over = [mark(AgentState::Completed, 4, false)];
    assert!(!live_context(&over).active);
    assert_eq!(live_context(&over).event, None);
    assert!(live_context(&[]).active);
    let replies = [
        RecordedReply {
            role: "assistant".into(),
            events: vec![mark(AgentState::Observing, 5, true)],
        },
        RecordedReply { role: "user".into(), events: vec![mark(AgentState::Idle, 6, true)] },
        RecordedReply { role: "assistant".into(), events: vec![] },
    ];
    let (at, shown) = recorded_context(&replies).unwrap();
    assert_eq!(at, 0);
    assert!(!shown.active);
    assert_eq!(shown.iteration, 5);
    assert!(recorded_context(&replies[1..]).is_none());
}
