use companion_api::attach::{
    attachment_budget, invalid_filename, mime_of, openable, take_attachment, NewAttachment, Taken,
};
use companion_api::history::attachment_owner;
use companion_api::knowledge::{
    chunk_text, knowledge_block, query_terms, rank, rebase_knowledge, retrieve_knowledge,
    score_of, with_slashes, KnowledgeChunk,
};
use companion_api::office::{pdf_pages, printable_strings, sniff_office, zip_entry_names};
use companion_api::types::{Attachment, Message};
use companion_api::webp::{does_misfit, is_overrun};
use companion_api::workspace::{
    admit_plugin, admit_removal, build_label, count_folder, detect_build_system, diff_stat,
    folder_missing, folder_not_found, intake, linked_code_workspace, manifest_unknown_tools,
    missing_project, project_name, requested_path, shown_diff, skipped, Entry, Intake, RunSummary,
    Workspace,
};

#[test]
fn office_sniff_is_honest() {
    // Minimal PDF.
    let pdf = b"%PDF-1.4\n1 0 obj<</Type/Catalog/Pages 2 0 R>>endobj\n2 0 obj<</Type/Pages/Count 3>>endobj\n".to_vec();
    let sniffed = sniff_office("doc.pdf", &pdf);
    assert_eq!(sniffed.kind, "office");
    assert_eq!(sniffed.status, "partial");
    assert!(sniffed.excerpt.contains("3 page"), "{}", sniffed.excerpt);
    // Minimal ZIP with one stored entry.
    let mut zip = Vec::new();
    zip.extend_from_slice(b"PK\x03\x04\x14\x00\x00\x00\x00\x00\x00\x00\x00\x00\x00\x00\x00\x00\x05\x00\x00\x00\x05\x00\x1e\x00");
    zip.extend_from_slice(b"a.txt");
    zip.extend_from_slice(b"");
    zip.extend_from_slice(b"hello");
    let sniffed = sniff_office("doc.docx", &zip);
    assert_eq!(sniffed.kind, "office");
    assert!(sniffed.excerpt.contains("a.txt"), "{}", sniffed.excerpt);
    assert_eq!(sniffed.status, "partial");
    // Random bytes → unsupported, honestly.
    let sniffed = sniff_office("blob.bin", &[0, 1, 2, 3, 255, 254, 253]);
    assert_eq!(sniffed.status, "unsupported");
    assert_eq!(sniffed.kind, "binary");
}

#[test]
fn a_file_is_read_by_its_extension_in_any_case() {
    let sniffed = sniff_office("REPORT.PDF", b"no marker");
    assert_eq!((sniffed.kind.as_str(), sniffed.status.as_str()), ("office", "partial"));
    assert!(sniffed.excerpt.contains("~1 page(s), 9 bytes"), "{}", sniffed.excerpt);
    // Bytes that are not UTF-8 do not stop the pages from being counted.
    let mut bytes = vec![0xff, 0xfe];
    bytes.extend_from_slice(b"%PDF /Type/Page /Type/Pages /Type/Page");
    assert!(sniff_office("x.pdf", &bytes).excerpt.contains("~2 page(s)"));
    assert_eq!(pdf_pages("/Type/Page /Type/Pages /Type/Page"), 2);
    assert_eq!(pdf_pages("/Count 12 0 R"), 12);
    assert_eq!(pdf_pages("/Count/Kids[7 0 R]"), 7);
    assert_eq!(pdf_pages("/Count 1234567>>"), 1_234_567);
    assert_eq!(pdf_pages("/Count 0"), 1);
    assert_eq!(pdf_pages("/Count 99999999999999999999999999"), 1);
    assert_eq!(pdf_pages("/Count none"), 1);
    assert_eq!(pdf_pages(""), 1);
    let text = sniff_office("x.bin", b"\x01A long readable string of more than thirty-two.\x02");
    assert_eq!((text.kind.as_str(), text.status.as_str()), ("text", "partial"));
    assert_eq!(printable_strings(b"\x01abc\x02abcd\x03", 100), "abcd\n");
    assert!(zip_entry_names(b"PK", 10).is_empty());
}

fn upload(content: &str, base64: &str) -> NewAttachment {
    NewAttachment {
        filename: "f".into(),
        mime: "text/plain".into(),
        content: content.into(),
        content_base64: base64.into(),
    }
}

#[test]
fn a_declared_page_count_is_one_number() {
    let pdf = b"%PDF-1.4\n2 0 obj<</Type/Pages/Count 3>>endobj\n3 0 obj<<>>endobj\n";
    let sniffed = sniff_office("doc.pdf", pdf);
    assert_eq!((sniffed.kind.as_str(), sniffed.status.as_str()), ("office", "partial"));
    assert!(sniffed.excerpt.contains("~3 page(s)"), "{}", sniffed.excerpt);
}

/// A local file header without data, with a name of one byte.
fn empty_entry(name: u8) -> Vec<u8> {
    let mut entry = b"PK\x03\x04".to_vec();
    entry.extend_from_slice(&[0; 22]);
    entry.extend_from_slice(&[1, 0, 0, 0, name]);
    entry
}

#[test]
fn entries_without_data_are_all_listed() {
    let mut bytes = empty_entry(b'a');
    bytes.extend(empty_entry(b'b'));
    assert_eq!(zip_entry_names(&bytes, 10), ["a", "b"]);
    assert_eq!(zip_entry_names(&bytes, 1), ["a"]);
    // What lies between two headers is passed over.
    let mut spaced = empty_entry(b'a');
    spaced.extend_from_slice(b"###");
    spaced.extend(empty_entry(b'b'));
    assert_eq!(zip_entry_names(&spaced, 10), ["a", "b"]);
}

fn riff(mark: &[u8; 4], body: &[u8]) -> Vec<u8> {
    let mut chunk = mark.to_vec();
    chunk.extend_from_slice(&(body.len() as u32).to_le_bytes());
    chunk.extend_from_slice(body);
    chunk
}

fn webp(chunks: &[Vec<u8>]) -> String {
    let mut body = b"WEBP".to_vec();
    for chunk in chunks {
        body.extend_from_slice(chunk);
    }
    let file = riff(b"RIFF", &body);
    base64::Engine::encode(&base64::engine::general_purpose::STANDARD, file)
}

/// The size that an attached picture is kept with.
fn picture_size(base64: &str) -> (u32, u32) {
    match take_attachment("p.webp", true, &upload("", base64)).unwrap() {
        Taken::Image { width, height, .. } => (width, height),
        other => panic!("{other:?}"),
    }
}

/// An animated file with a canvas of 4 by 5 and one frame of the given size.
fn animation(width: u8, height: u8, content: &[Vec<u8>]) -> Vec<u8> {
    let mut frame = vec![0, 0, 0, 0, 0, 0, width - 1, 0, 0, height - 1, 0, 0, 0, 0, 0, 0];
    for chunk in content {
        frame.extend_from_slice(chunk);
    }
    let mut body = b"WEBP".to_vec();
    body.extend(riff(b"VP8X", &[0x02, 0, 0, 0, 3, 0, 0, 4, 0, 0]));
    body.extend(riff(b"ANIM", &[0; 6]));
    body.extend(riff(b"ANMF", &frame));
    riff(b"RIFF", &body)
}

/// A lossy picture of the given size, all of one colour.
fn lossy(width: u8, height: u8) -> Vec<u8> {
    let mut body = vec![0x10, 0x08, 0, 0x9d, 0x01, 0x2a, width, 0, height, 0];
    body.extend_from_slice(&[0; 256]);
    riff(b"VP8 ", &body)
}

/// An uncompressed alpha chunk for the given size, padded to even length.
fn alpha(width: u8, height: u8) -> Vec<u8> {
    let body = vec![0; 1 + usize::from(width) * usize::from(height)];
    let odd = body.len() % 2 == 1;
    let mut chunk = riff(b"ALPH", &body);
    if odd {
        chunk.push(0);
    }
    chunk
}

fn encoded(bytes: &[u8]) -> String {
    base64::Engine::encode(&base64::engine::general_purpose::STANDARD, bytes)
}

#[test]
fn an_animated_picture_has_the_size_of_its_canvas_where_its_first_frame_decodes() {
    let plain = animation(4, 4, &[lossy(4, 4)]);
    assert_eq!(picture_size(&encoded(&plain)), (4, 5));
    // A frame that does not decode, or is not of its frame's size, leaves no size.
    assert_eq!(picture_size(&encoded(&animation(4, 4, &[riff(b"VP8L", &[])]))), (0, 0));
    assert_eq!(picture_size(&encoded(&animation(4, 4, &[lossy(2, 2)]))), (0, 0));
    // A header without the chunks it announces is no picture.
    assert_eq!(picture_size(&webp(&[riff(b"VP8X", &[0x02, 0, 0, 0, 1, 0, 0, 2, 0, 0])])), (0, 0));
}

#[test]
fn a_picture_that_overruns_its_frame_is_not_decoded() {
    let file = |frame: (u8, u8), picture: (u8, u8)| {
        animation(frame.0, frame.1, &[alpha(frame.0, frame.1), lossy(picture.0, picture.1)])
    };
    // Of the frame's size, or smaller and drawn without anything left over.
    for (frame, picture) in [((4, 4), (4, 4)), ((3, 3), (3, 3)), ((2, 2), (1, 2)), ((4, 3), (4, 1)), ((4, 3), (2, 2))] {
        let bytes = file(frame, picture);
        assert!(!is_overrun(&bytes), "{frame:?} {picture:?}");
        assert_eq!(picture_size(&encoded(&bytes)), (4, 5), "{frame:?} {picture:?}");
    }
    // Larger, empty, or with a row left over that the picture does not have.
    for (frame, picture) in [((1, 1), (16, 16)), ((4, 4), (5, 4)), ((2, 2), (0, 2)), ((2, 2), (2, 0)), ((2, 2), (1, 1)), ((2, 2), (2, 1)), ((3, 3), (2, 2))] {
        let bytes = file(frame, picture);
        assert!(is_overrun(&bytes), "{frame:?} {picture:?}");
        assert_eq!(picture_size(&encoded(&bytes)), (0, 0), "{frame:?} {picture:?}");
    }
    // Only the first frame of an animated file with an alpha chunk counts.
    assert!(!is_overrun(&animation(1, 1, &[lossy(16, 16)])));
    let mut still = file((1, 1), (16, 16));
    still[20] = 0;
    assert!(!is_overrun(&still));
    assert!(!is_overrun(&still[..20]) && !is_overrun(&[]));
    assert!(does_misfit(2, 2, 3) && !does_misfit(2, 2, 4) && does_misfit(2, 2, 5));
}

#[test]
fn a_file_over_the_limit_is_refused() {
    let large = base64::Engine::encode(
        &base64::engine::general_purpose::STANDARD,
        vec![0u8; 5_000_001],
    );
    let image = take_attachment("p.png", true, &upload("", &large)).unwrap_err();
    assert_eq!(
        (image.status, image.message.as_str()),
        (413, "image too large (5000001 bytes, max 5000000)")
    );
    let file = take_attachment("f.bin", false, &upload("", &large)).unwrap_err();
    assert_eq!(
        (file.status, file.message.as_str()),
        (413, "file too large (5000001 bytes, max 5000000)")
    );
}

#[test]
fn files_are_taken_or_refused() {
    // A GIF header of one pixel.
    let gif = "R0lGODlhAQABAIAAAAAAAP///yH5BAEAAAAALAAAAAABAAEAAAIBRAA7";
    match take_attachment("p.gif", true, &upload("", gif)).unwrap() {
        Taken::Image { bytes, width, height } => {
            assert_eq!((width, height), (1, 1));
            assert_eq!(&bytes[..6], b"GIF89a");
        }
        other => panic!("{other:?}"),
    }
    let refused = |is_image, new: NewAttachment| {
        take_attachment("f", is_image, &new).unwrap_err().message
    };
    assert_eq!(refused(true, upload("", "")), "image bytes missing");
    assert_eq!(refused(true, upload("", "!!")), "bad base64");
    assert_eq!(refused(false, upload("", "!!")), "bad base64");
    assert_eq!(refused(false, upload("", "")), "attachment is empty");
    match take_attachment("f.bin", false, &upload("", "AAECAw==")).unwrap() {
        Taken::Binary { bytes, kind, status, .. } => {
            assert_eq!(bytes, vec![0, 1, 2, 3]);
            assert_eq!((kind.as_str(), status.as_str()), ("binary", "unsupported"));
        }
        other => panic!("{other:?}"),
    }
    match take_attachment("f.txt", false, &upload("text", "")).unwrap() {
        Taken::Text { excerpt } => assert_eq!(excerpt, "text"),
        other => panic!("{other:?}"),
    }
    assert_eq!((mime_of(""), mime_of("x/y")), ("text/plain".into(), "x/y".into()));
    assert_eq!(invalid_filename().status, 400);
    assert!(openable("text/html") && openable("image/png") && !openable("application/zip"));
}

fn attachment(kind: &str, status: &str, size: u64, at: &str) -> Attachment {
    Attachment {
        id: "a".into(),
        conversation_id: "c".into(),
        filename: "f".into(),
        mime: "image/png".into(),
        size_bytes: size,
        text_excerpt: String::new(),
        kind: kind.into(),
        status: status.into(),
        created_at: at.into(),
    }
}

#[test]
fn the_attachment_budget_warns_before_it_hurts() {
    let files: Vec<Attachment> =
        (0..4).map(|_| attachment("image", "partial", 20_000_000, "")).collect();
    let budget = attachment_budget(&files, false);
    assert_eq!((budget.count, budget.images, budget.partial), (4, 4, 4));
    assert_eq!(budget.bytes, 80_000_000);
    assert_eq!(budget.warnings.len(), 3);
    assert!(attachment_budget(&files[..1], true).warnings.is_empty());
    assert_eq!(attachment_budget(&[], false).count, 0);
}

#[test]
fn times_are_compared_as_instants() {
    let sent = |id: &str, at: &str| Message {
        id: id.into(),
        conversation_id: "c".into(),
        role: "user".into(),
        content: String::new(),
        prose: String::new(),
        created_at: at.into(),
    };
    // 10:00 in UTC+2 is 08:00 UTC, before an upload at 09:00 UTC.
    let history = [
        sent("early", "2026-09-16T10:00:00+02:00"),
        sent("late", "2026-09-16T09:00:00.5+00:00"),
    ];
    let file = attachment("text", "ready", 1, "2026-09-16T09:00:00Z");
    assert_eq!(attachment_owner(&history, &file), Some("late"));
    // Where a time is not readable the texts are compared.
    let file = attachment("text", "ready", 1, "2026-09-16T09");
    assert_eq!(attachment_owner(&history, &file), Some("early"));
}

fn chunk(path: &str, text: &str) -> KnowledgeChunk {
    KnowledgeChunk {
        id: "k".into(),
        workspace_id: "w".into(),
        path: path.into(),
        chunk_idx: 0,
        text: text.into(),
    }
}

#[test]
fn knowledge_is_found_by_its_words() {
    let chunks = [
        chunk("docs/trees.md", "Trees have leaves."),
        chunk("docs/lists.md", "Lists are linear. A list is a chain."),
        chunk("other.md", "Nothing here."),
    ];
    let found = retrieve_knowledge(&chunks, "How do LISTS work?", 4);
    assert_eq!(found.len(), 1);
    assert_eq!(found[0].path, "docs/lists.md");
    assert!(retrieve_knowledge(&chunks, "a is", 4).is_empty(), "short words do not count");
    assert_eq!(query_terms("größe und-maß x"), vec!["größe", "und", "maß"]);
    assert_eq!(score_of("aa aa aa aa aa aa", "p", &["aa".to_string()]), 5);
    assert_eq!(score_of("aa", "x/aa.md", &["aa".to_string()]), 3);
    assert_eq!(rank(&[1, 0, 5, 1], 3), vec![2, 0, 3]);
    assert_eq!(rank(&[1, 2], 0), vec![1]);
    let block = knowledge_block(&found);
    assert!(block.starts_with("\n\n[Local knowledge — cite the file when you use it]\n[docs/lists.md] "));
    assert_eq!(with_slashes("a\\b"), "a/b");
    let moved = rebase_knowledge(&[chunk("sub\\a.md", "x"), chunk("b.md", "y")], "sub/");
    assert_eq!(moved.len(), 1);
    assert_eq!(moved[0].path, "a.md");
}

#[test]
fn chunks_overlap_and_cover_the_text() {
    let text: String = (0..2000).map(|i| char::from(b'a' + (i % 26) as u8)).collect();
    let chunks = chunk_text(&text);
    assert_eq!(chunks.len(), 3);
    assert_eq!((chunks[0].len(), chunks[1].len(), chunks[2].len()), (800, 800, 600));
    assert_eq!(&chunks[0][700..], &chunks[1][..100]);
    assert!(chunk_text("").is_empty());
    assert!(chunk_text("   ").is_empty());
}

#[test]
fn a_project_is_linked_explicitly() {
    let project = || {
        Some(Workspace {
            id: "1".into(),
            name: "p".into(),
            path: "/p".into(),
            build_system: String::new(),
            created_at: String::new(),
        })
    };
    assert!(linked_code_workspace("1", Ok(project()), true).is_ok());
    let refused =
        |linked: &str, w, dir| linked_code_workspace(linked, Ok(w), dir).unwrap_err().message;
    let failed = linked_code_workspace("1", Err("locked".into()), true).unwrap_err();
    assert_eq!((failed.status, failed.message.as_str()), (500, "storage error: locked"));
    let unlinked = linked_code_workspace(" ", Err("locked".into()), true).unwrap_err();
    assert_eq!(unlinked.message, "code session has no linked project");
    assert_eq!(refused(" ", project(), true), "code session has no linked project");
    assert_eq!(refused("1", None, true), "the linked project no longer exists");
    assert_eq!(refused("1", project(), false), "project directory is unavailable: /p");
    assert_eq!(project_name(" My app ", true).unwrap(), "My app");
    assert_eq!(project_name(" ", false).unwrap_err().message, "name is empty");
    assert_eq!(project_name("a/b", true).unwrap_err().message, "invalid project name");
    assert_eq!(project_name("..", true).unwrap_err().message, "invalid project name");
    assert!(project_name("a/b", false).is_ok());
    assert_eq!(folder_not_found("/x").message, "directory not found: /x");
    assert_eq!(folder_missing().message, "workspace directory missing");
    assert!(missing_project("/x", "p").contains("/x"));
    let files = |v: &[&str]| v.iter().map(|s| s.to_string()).collect::<Vec<_>>();
    let build = |found: &[&str], there: &[&str]| detect_build_system(&files(found), &files(there));
    assert_eq!(build(&["package.json", "Cargo.toml"], &["a.sln"]), "Cargo");
    assert_eq!(build(&[], &["docs", "App.sln"]), "Visual Studio/C#");
    assert_eq!(build(&["App.csproj"], &["App.csproj"]), "Visual Studio/C#");
    assert_eq!(build(&["x"], &["x", ".sln", ".csproj", "a.slnx", "csproj"]), "");
    // A folder with the name of a marker is none.
    assert_eq!(build(&[], &["Makefile"]), "");
    assert_eq!(build_label("", 3), "unknown (3 files)");
    assert_eq!(build_label("Cargo", 3), "Cargo (3 files)");
}

#[test]
fn folders_are_walked_within_limits() {
    let entry = |name: &str, is_dir| Entry { name: name.into(), is_dir };
    let entries = [
        entry(".git", true),
        entry("a.rs", false),
        entry("src", true),
        entry("target", true),
        entry("b.rs", false),
    ];
    assert_eq!(count_folder(&entries, 0, 2000), (2, vec![2]));
    assert_eq!(count_folder(&entries, 0, 1), (1, vec![]));
    assert!(skipped("node_modules") && skipped(".x") && !skipped("src"));
    assert_eq!(intake("a.md", false, "MD"), Intake::Read);
    assert_eq!(intake("a.exe", false, "exe"), Intake::Skip);
    assert_eq!(intake("src", true, ""), Intake::Visit);
    assert_eq!(intake("dist", true, ""), Intake::Skip);
    assert_eq!((requested_path(" "), requested_path(" a ")), (".".into(), "a".into()));
    assert_eq!(diff_stat(Ok(("1 file", "warning"))), "1 file\nwarning");
    assert_eq!(diff_stat(Ok((&"x".repeat(5000), ""))).len(), 4000);
    assert_eq!(diff_stat(Err("no git")), "(no git diff: no git)");
    let (diff, truncated) = shown_diff(&"d".repeat(100_001));
    assert!(truncated && diff.len() == 100_000);
    assert_eq!(shown_diff("d"), ("d".to_string(), false));
}

#[test]
fn a_project_with_running_work_stays() {
    let run = |task: &str, conversation: &str, active| RunSummary {
        task: task.into(),
        conversation_id: conversation.into(),
        active,
    };
    let chats = ["c1".to_string()];
    assert!(admit_removal(true, &[run("t", "c1", false), run("t", "c2", true)], &chats).is_ok());
    let refused = admit_removal(true, &[run("say \"hi\"", "c1", true)], &chats).unwrap_err();
    assert_eq!(refused.status, 409);
    assert_eq!(refused.hint, "Stop the task \"say \\\"hi\\\"\" before removing the project.");
    assert_eq!(admit_removal(false, &[], &chats).unwrap_err().status, 404);
}

#[test]
fn plugins_run_only_what_their_manifest_declares() {
    let known: Vec<String> = ["read_file", "run_command"].iter().map(|s| s.to_string()).collect();
    let manifest = "{\"tools\": [{\"name\": \"read_file\"}, {\"name\": \"other\"}, {}]}";
    assert_eq!(manifest_unknown_tools(manifest, &known).unwrap(), vec!["other"]);
    assert_eq!(manifest_unknown_tools("no json", &known), None);
    assert!(manifest_unknown_tools("{}", &known).unwrap().is_empty());
    assert!(admit_plugin("p", "read_file", manifest, &known).unwrap().is_ok());
    let undeclared = admit_plugin("p", "run_command", manifest, &known).unwrap().unwrap_err();
    assert_eq!(undeclared.message, "plugin 'p' does not declare tool 'run_command'");
    assert_eq!(admit_plugin("p", "other", manifest, &known).unwrap().unwrap_err().status, 404);
    assert!(admit_plugin("p", "x", "no json", &known).is_none());
}
