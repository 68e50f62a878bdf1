use companion_api::compact::kept_by_setting;
use companion_api::history::{attachment_turn, build_turns_budgeted, history_room_for};
use companion_api::intent::{answering_intent, canned_reply, reply_asks, MessageIntent};
use companion_api::memory::{conversation_timeline, TimelineEvent};
use companion_api::models::admit_deletion;
use companion_api::sessions::session_standing;
use companion_api::share::{share_package, ShareReq};
use companion_api::start::{search_goes_on, Asking};
use companion_api::types::{Attachment, ChatTurn, Message};
use companion_api::workspace::{missing_project, workspace_snapshot, TreeEntry};

fn entry(name: &str, is_dir: bool, kids: &[&str]) -> TreeEntry {
    TreeEntry { name: name.into(), is_dir, kids: kids.iter().map(|k| k.to_string()).collect() }
}

#[test]
fn workspace_snapshot_lists_tree() {
    let entries = [entry("AGENTS.md", false, &[]), entry("src", true, &["main.cpp"])];
    let instructions = Some(("AGENTS.md".to_string(), "Use C++17.".to_string()));
    let s = workspace_snapshot("/demo", "Demo", "", &entries, &instructions);
    assert!(s.contains("src/"), "{s}");
    assert!(s.contains("main.cpp"), "{s}");
    assert!(s.contains("C++17"), "{s}");
    assert_eq!(
        s,
        "Project 'Demo' at /demo\nBuild: \nTree (top levels):\n  AGENTS.md\n  src/\n    main.cpp\n\n\
         Project instructions (AGENTS.md, behavior only):\nUse C++17.\n"
    );
}

#[test]
fn a_snapshot_is_bounded_and_leaves_out_build_folders() {
    let many: Vec<String> = (0..15).map(|n| format!("k{n:02}")).collect();
    let kids: Vec<&str> = many.iter().map(|k| k.as_str()).collect();
    let entries = [entry(".git", true, &["x"]), entry("lib", true, &kids), entry("target", true, &["y"])];
    let s = workspace_snapshot("/p", "P", "cargo", &entries, &None);
    assert!(s.contains("    k11\n    … (3 more)\n"), "{s}");
    assert!(!s.contains("target") && !s.contains(".git"));
    let long = Some(("AGENTS.md".to_string(), "x".repeat(9000)));
    let wide: Vec<TreeEntry> = (0..60).map(|n| entry(&format!("{n}-{}", "f".repeat(80)), false, &[])).collect();
    assert_eq!(workspace_snapshot("/p", "P", "", &wide, &long).chars().count(), 4000);
    assert!(missing_project("/gone", "P").contains("directory missing (/gone)"));
}

#[test]
fn no_request_for_fits_is_lost() {
    let mut asking = Asking::new();
    assert!(asking.ask(), "nothing runs: a search begins");
    assert!(!asking.ask(), "one runs: it goes over the models again");
    assert!(asking.end());
    assert!(!asking.end());
    assert!(asking.ask());
    assert!(search_goes_on(false, false, true));
    assert!(!search_goes_on(true, false, true));
    assert!(!search_goes_on(false, true, true));
    assert!(!search_goes_on(false, false, false));
}

#[test]
fn a_compaction_by_hand_keeps_what_is_set() {
    assert_eq!((kept_by_setting(0), kept_by_setting(12), kept_by_setting(999)), (2, 12, 200));
}

#[test]
fn only_weights_in_the_registry_are_deleted() {
    assert!(admit_deletion("m", true, None).is_ok());
    for id in ["", "a/b", "a\\b", "..", "m.."] {
        assert_eq!(admit_deletion(id, true, None).unwrap_err().message, "invalid model id");
    }
    assert_eq!(admit_deletion("m", false, None).unwrap_err().status, 404);
    assert_eq!(admit_deletion("m", true, Some("outside")).unwrap_err().message, "outside");
}

fn event(label: &str, at: &str) -> TimelineEvent {
    TimelineEvent { kind: "tool".into(), label: label.into(), at: at.into() }
}

#[test]
fn a_timeline_keeps_its_events_in_order() {
    let r = conversation_timeline(vec![event("b", "2"), event("a", "1"), event("c", "2"), event("z", "0")]);
    let labels: Vec<&str> = r.iter().map(|e| e.label.as_str()).collect();
    assert_eq!(labels, vec!["z", "a", "b", "c"]);
}

fn said(id: &str, role: &str, content: &str) -> Message {
    Message {
        id: id.into(),
        conversation_id: "c".into(),
        role: role.into(),
        content: content.into(),
        prose: content.into(),
        created_at: "2026-01-01T00:00:00Z".into(),
    }
}

fn file(text_excerpt: &str, created_at: &str) -> Attachment {
    Attachment {
        id: "a".into(),
        conversation_id: "c".into(),
        filename: "f.txt".into(),
        mime: "text/plain".into(),
        size_bytes: 1,
        text_excerpt: text_excerpt.into(),
        kind: "text".into(),
        status: "ready".into(),
        created_at: created_at.into(),
    }
}

#[test]
fn a_package_depends_on_nothing_that_was_not_picked() {
    let req = ShareReq {
        target_id: "t".into(),
        turns: 5,
        note: " n ".into(),
        messages: false,
        attachments: false,
        memory: false,
        summary: false,
    };
    let one = share_package("T", &req, &[said("1", "user", "secret")], &[file("hidden", "")], &[]);
    let other = share_package("T", &req, &[], &[], &[]);
    assert_eq!(one, other);
    assert_eq!(one, ("Shared context from 'T':\nNote: n\n".to_string(), 0));
}

#[test]
fn a_session_without_an_id_is_never_busy() {
    let standing = session_standing("", Some(""), &[], false);
    assert_eq!((standing.residency, standing.activity), ("cold", "idle"));
    assert_eq!(session_standing("c", Some("c"), &[], false).activity, "thinking");
}

#[test]
fn excerpts_take_their_share_and_their_turn() {
    assert_eq!(history_room_for(10_000, &[file(&"x".repeat(30_000), "")]), 2_000);
    assert_eq!(history_room_for(30_000, &[file(&"x".repeat(30_000), "")]), 10_000);
    assert_eq!(history_room_for(60_000, &[file("abc", "")]), 59_997);
    let turns = [ChatTurn::text("user", "q".into()), ChatTurn::text("assistant", "a".into())];
    let ids = ["m1".to_string(), "m2".to_string()];
    let history = [said("m1", "user", "q")];
    let late = file("x", "2027-01-01T00:00:00+00:00");
    assert_eq!(attachment_turn(&turns, &ids, &history, &late), Some(0), "no message owns it yet");
    let early = file("x", "2025-12-31T23:59:59-00:00");
    assert_eq!(attachment_turn(&turns, &ids, &history, &early), Some(0));
    assert_eq!(attachment_turn(&turns, &ids[1..], &history, &early), None, "its message left");
    let built = build_turns_budgeted(&history, &[early], 5_000, false);
    assert_eq!(built[0].content, "q\n\n[Attached file: f.txt]\nx");
}

#[test]
fn a_short_answer_to_a_question_is_a_request() {
    assert!(reply_asks("I can do that.\n\nShall I add tests?"));
    assert!(!reply_asks("Done."));
    assert_eq!(answering_intent(MessageIntent::Acknowledgement, true), MessageIntent::Task);
    assert_eq!(answering_intent(MessageIntent::Acknowledgement, false), MessageIntent::Acknowledgement);
    assert_eq!(canned_reply(MessageIntent::Greeting, false), Some("Hello! What would you like to work on?"));
    assert_eq!(canned_reply(MessageIntent::Greeting, true), None);
}
