//! What one session hands to another, and what is written out of a session:
//! packages of chosen parts, and digests of decisions and changed files.
use vstd::prelude::*;

use crate::decimal;
use crate::error;
use crate::error::ApiError;
use crate::memory::MemoryEntry;
use crate::num;
use crate::text;
use crate::toolround::ToolRecord;
use crate::types;
use crate::types::{Attachment, Message};

verus! {

// ---- findings ----------------------------------------------------------------------------------

/// The line states a finding: it begins, white space aside, with a decision, a
/// check mark or the given word.
pub open spec fn is_finding(line: Seq<char>, word: Seq<char>) -> bool {
    let t = text::trimmed_start(line);
    text::begins(t, "Decision:"@) || text::begins(t, "✓"@) || text::begins(t, word)
}

/// Those of the first `n` lines that state a finding.
pub open spec fn findings_in(lines: Seq<Seq<char>>, word: Seq<char>, n: int) -> Seq<Seq<char>>
    decreases n,
{
    if n <= 0 {
        Seq::empty()
    } else if is_finding(lines[n - 1], word) {
        findings_in(lines, word, n - 1).push(lines[n - 1])
    } else {
        findings_in(lines, word, n - 1)
    }
}

/// The findings that the assistant stated in the first `n` messages.
pub open spec fn findings_of(messages: Seq<Message>, word: Seq<char>, n: int) -> Seq<Seq<char>>
    decreases n,
{
    if n <= 0 {
        Seq::empty()
    } else {
        let before = findings_of(messages, word, n - 1);
        if messages[n - 1].role@ == "assistant"@ {
            let lines = text::lines(messages[n - 1].content@);
            before + findings_in(lines, word, lines.len() as int)
        } else {
            before
        }
    }
}

/// The first findings of a conversation, `most` at most.
pub open spec fn findings(messages: Seq<Message>, word: Seq<char>, most: nat) -> Seq<Seq<char>> {
    let all = findings_of(messages, word, messages.len() as int);
    all.take(num::lesser(all.len() as int, most as int))
}

/// Adds the findings of a message.
fn add_findings(found: &mut Vec<String>, content: &str, word: &str)
    ensures
        ({
            let lines = text::lines(content@);
            types::texts(final(found)@) == types::texts(old(found)@) + findings_in(
                lines,
                word@,
                lines.len() as int,
            )
        }),
{
    let lines = text::split_lines(content);
    let ghost all = text::lines(content@);
    let ghost before = types::texts(found@);
    let mut i: usize = 0;
    assert(before + Seq::<Seq<char>>::empty() =~= before);
    while i < lines.len()
        invariant
            i <= lines@.len(),
            lines@.map_values(|l: String| l@) == all,
            types::texts(found@) == before + findings_in(all, word@, i as int),
        decreases lines@.len() - i,
    {
        assert(lines@.map_values(|l: String| l@)[i as int] == lines@[i as int]@);
        let t = text::trim_start(&lines[i]);
        if text::starts_with(&t, "Decision:") || text::starts_with(&t, "✓") || text::starts_with(
            &t,
            word,
        ) {
            let ghost was = found@;
            found.push(lines[i].as_str().to_owned());
            proof {
                assert(types::texts(found@) =~= types::texts(was).push(all[i as int]));
                assert(types::texts(found@) =~= before + findings_in(all, word@, i + 1));
            }
        }
        i += 1;
    }
    assert(lines@.map_values(|l: String| l@).len() == lines@.len());
}

/// The first findings of a conversation, `most` at most.
pub fn find_findings(messages: &[Message], word: &str, most: usize) -> (r: Vec<String>)
    ensures
        types::texts(r@) == findings(messages@, word@, most as nat),
{
    let mut found: Vec<String> = Vec::new();
    let mut i: usize = 0;
    assert(types::texts(found@) =~= Seq::<Seq<char>>::empty());
    while i < messages.len()
        invariant
            i <= messages@.len(),
            types::texts(found@) == findings_of(messages@, word@, i as int),
        decreases messages@.len() - i,
    {
        if text::same(&messages[i].role, "assistant") {
            add_findings(&mut found, &messages[i].content, word);
        }
        i += 1;
    }
    let ghost all = types::texts(found@);
    assert(all.len() == found@.len());
    if found.len() > most {
        found.truncate(most);
    }
    assert(types::texts(found@) =~= all.take(num::lesser(all.len() as int, most as int)));
    found
}

// ---- a package for another session ----------------------------------------------------------------

/// What is to be shared.
#[derive(Debug, PartialEq, Eq)]
pub struct ShareReq {
    pub target_id: String,
    pub turns: usize,
    pub note: String,
    pub messages: bool,
    pub attachments: bool,
    pub memory: bool,
    pub summary: bool,
}

/// Turns that are shared where none are named.
pub fn default_share_turns() -> (n: usize)
    ensures
        n == 6,
{
    6
}

/// Messages are shared unless they are left out.
pub fn default_true() -> (b: bool)
    ensures
        b,
{
    true
}

/// Refuses to share into nothing, into the session itself, or between sessions
/// that are not there.
pub fn admit_share(id: &str, target: &str, source_there: bool, target_there: bool) -> (r: Result<
    (),
    ApiError,
>)
    ensures
        error::refusal_of(r) == (if text::is_blank(target@) || target@ == id@ {
            Some(error::bad_request("bad target"@, "Share into a different conversation."@))
        } else if !source_there {
            Some(error::missing("conversation not found"@))
        } else if !target_there {
            Some(error::missing("target conversation not found"@))
        } else {
            None
        }),
{
    if text::blank(target) || text::same(target, id) {
        return Err(ApiError::bad("bad target", "Share into a different conversation."));
    }
    if !source_there {
        return Err(ApiError::not_found("conversation not found"));
    }
    if !target_there {
        return Err(ApiError::not_found("target conversation not found"));
    }
    Ok(())
}

/// The first of the shared messages.
pub open spec fn share_start(total: nat, turns: nat) -> int {
    num::less(total as int, num::clamped(turns as int, 1, 20))
}

/// Findings, one to a line.
pub open spec fn finding_lines(found: Seq<Seq<char>>, n: int) -> Seq<char>
    decreases n,
{
    if n <= 0 {
        Seq::empty()
    } else {
        finding_lines(found, n - 1) + "- "@ + text::first_chars(text::trimmed(found[n - 1]), 300)
            + "\n"@
    }
}

/// The findings in a package.
pub open spec fn findings_part(found: Seq<Seq<char>>) -> Seq<char> {
    if found.len() == 0 {
        "Key findings: (no explicit decisions recorded)\n"@
    } else {
        "Key findings:\n"@ + finding_lines(found, found.len() as int)
    }
}

/// Messages from `from` up to `to` in a package.
pub open spec fn turns_part(messages: Seq<Message>, from: int, to: int) -> Seq<char>
    decreases to - from,
{
    if from >= to {
        Seq::empty()
    } else {
        turns_part(messages, from, to - 1) + "\n["@ + messages[to - 1].role@ + "] "@
            + text::first_chars(messages[to - 1].content@, 1500) + "\n"@
    }
}

/// Attachments, one to a line.
pub open spec fn attachment_lines(attachments: Seq<Attachment>, n: int) -> Seq<char>
    decreases n,
{
    if n <= 0 {
        Seq::empty()
    } else {
        let a = attachments[n - 1];
        attachment_lines(attachments, n - 1) + "- "@ + a.filename@ + " ("@ + a.mime@ + ", "@
            + decimal::digits(a.size_bytes as nat) + " bytes): "@ + text::first_chars(
            a.text_excerpt@,
            800,
        ) + "\n"@
    }
}

/// The attachments in a package: the first twenty.
pub open spec fn attachments_part(attachments: Seq<Attachment>) -> Seq<char> {
    if attachments.len() == 0 {
        "\nAttachments: none\n"@
    } else {
        "\nAttachments:\n"@ + attachment_lines(
            attachments,
            num::lesser(attachments.len() as int, 20),
        )
    }
}

/// Saved memory, one entry to a line.
pub open spec fn memory_lines(entries: Seq<MemoryEntry>, n: int) -> Seq<char>
    decreases n,
{
    if n <= 0 {
        Seq::empty()
    } else {
        memory_lines(entries, n - 1) + "- ["@ + entries[n - 1].scope@ + "] "@ + text::first_chars(
            entries[n - 1].content@,
            500,
        ) + "\n"@
    }
}

/// The saved memory in a package: the first twenty entries.
pub open spec fn memory_part(entries: Seq<MemoryEntry>) -> Seq<char> {
    if entries.len() == 0 {
        "\nMemory: none visible to source\n"@
    } else {
        "\nMemory:\n"@ + memory_lines(entries, num::lesser(entries.len() as int, 20))
    }
}

/// The part, where it is wanted.
pub open spec fn wanted(want: bool, part: Seq<char>) -> Seq<char> {
    if want {
        part
    } else {
        Seq::empty()
    }
}

/// The package for another session: only the parts that were picked travel.
pub open spec fn package(
    title: Seq<char>,
    req: ShareReq,
    messages: Seq<Message>,
    attachments: Seq<Attachment>,
    memory: Seq<MemoryEntry>,
) -> Seq<char> {
    "Shared context from '"@ + title + "':\n"@ + wanted(
        !text::is_blank(req.note@),
        "Note: "@ + text::trimmed(req.note@) + "\n"@,
    ) + wanted(req.summary, findings_part(findings(messages, "Summary:"@, 10))) + wanted(
        req.messages,
        turns_part(messages, share_start(messages.len(), req.turns as nat), messages.len() as int),
    ) + wanted(req.attachments, attachments_part(attachments)) + wanted(
        req.memory,
        memory_part(memory),
    )
}

fn findings_text(found: &[String]) -> (s: String)
    ensures
        s@ == findings_part(types::texts(found@)),
{
    let ghost all = types::texts(found@);
    assert(all.len() == found@.len());
    if found.len() == 0 {
        return "Key findings: (no explicit decisions recorded)\n".to_owned();
    }
    let mut s = "Key findings:\n".to_owned();
    let ghost head = s@;
    let mut i: usize = 0;
    assert(head + finding_lines(all, 0) =~= head);
    while i < found.len()
        invariant
            i <= found@.len(),
            all == types::texts(found@),
            s@ == head + finding_lines(all, i as int),
        decreases found@.len() - i,
    {
        let t = text::trim(&found[i]);
        let cut = text::take_chars(&t, 300);
        s.append("- ");
        s.append(&cut);
        s.append("\n");
        assert(all[i as int] == found@[i as int]@);
        assert(s@ =~= head + finding_lines(all, i + 1));
        i += 1;
    }
    s
}

fn turns_text(messages: &[Message], from: usize) -> (s: String)
    requires
        from <= messages@.len(),
    ensures
        s@ == turns_part(messages@, from as int, messages@.len() as int),
{
    let mut s = String::new();
    let mut i: usize = from;
    while i < messages.len()
        invariant
            from <= i <= messages@.len(),
            s@ == turns_part(messages@, from as int, i as int),
        decreases messages@.len() - i,
    {
        s.append("\n[");
        s.append(&messages[i].role);
        s.append("] ");
        let cut = text::take_chars(&messages[i].content, 1500);
        s.append(&cut);
        s.append("\n");
        i += 1;
    }
    s
}

fn attachments_text(attachments: &[Attachment]) -> (s: String)
    ensures
        s@ == attachments_part(attachments@),
{
    if attachments.len() == 0 {
        return "\nAttachments: none\n".to_owned();
    }
    let mut s = "\nAttachments:\n".to_owned();
    let ghost head = s@;
    let n: usize = if attachments.len() < 20 { attachments.len() } else { 20 };
    let mut i: usize = 0;
    assert(head + attachment_lines(attachments@, 0) =~= head);
    while i < n
        invariant
            i <= n <= attachments@.len(),
            s@ == head + attachment_lines(attachments@, i as int),
        decreases n - i,
    {
        let a = &attachments[i];
        s.append("- ");
        s.append(&a.filename);
        s.append(" (");
        s.append(&a.mime);
        s.append(", ");
        let size = decimal::decimal(a.size_bytes);
        s.append(&size);
        s.append(" bytes): ");
        let cut = text::take_chars(&a.text_excerpt, 800);
        s.append(&cut);
        s.append("\n");
        assert(s@ =~= head + attachment_lines(attachments@, i + 1));
        i += 1;
    }
    s
}

fn memory_text(entries: &[MemoryEntry]) -> (s: String)
    ensures
        s@ == memory_part(entries@),
{
    if entries.len() == 0 {
        return "\nMemory: none visible to source\n".to_owned();
    }
    let mut s = "\nMemory:\n".to_owned();
    let ghost head = s@;
    let n: usize = if entries.len() < 20 { entries.len() } else { 20 };
    let mut i: usize = 0;
    assert(head + memory_lines(entries@, 0) =~= head);
    while i < n
        invariant
            i <= n <= entries@.len(),
            s@ == head + memory_lines(entries@, i as int),
        decreases n - i,
    {
        s.append("- [");
        s.append(&entries[i].scope);
        s.append("] ");
        let cut = text::take_chars(&entries[i].content, 500);
        s.append(&cut);
        s.append("\n");
        assert(s@ =~= head + memory_lines(entries@, i + 1));
        i += 1;
    }
    s
}

/// The package for another session, and how many turns it holds.
pub fn share_package(
    title: &str,
    req: &ShareReq,
    messages: &[Message],
    attachments: &[Attachment],
    memory: &[MemoryEntry],
) -> (r: (String, usize))
    ensures
        r.0@ == package(title@, *req, messages@, attachments@, memory@),
        r.1 == (if req.messages {
            messages@.len() - share_start(messages@.len(), req.turns as nat)
        } else {
            0
        }),
{
    let take: usize = if req.turns < 1 {
        1
    } else if req.turns > 20 {
        20
    } else {
        req.turns
    };
    let start: usize = if messages.len() < take { 0 } else { messages.len() - take };
    let mut s = "Shared context from '".to_owned();
    s.append(title);
    s.append("':\n");
    let mut note = String::new();
    if !text::blank(&req.note) {
        note.append("Note: ");
        let t = text::trim(&req.note);
        note.append(&t);
        note.append("\n");
        assert(note@ =~= "Note: "@ + text::trimmed(req.note@) + "\n"@);
    }
    s.append(&note);
    let mut part = String::new();
    if req.summary {
        let found = find_findings(messages, "Summary:", 10);
        part = findings_text(&found);
    }
    s.append(&part);
    let mut turns = String::new();
    if req.messages {
        turns = turns_text(messages, start);
    }
    s.append(&turns);
    let mut files = String::new();
    if req.attachments {
        files = attachments_text(attachments);
    }
    s.append(&files);
    let mut saved = String::new();
    if req.memory {
        saved = memory_text(memory);
    }
    s.append(&saved);
    (s, if req.messages { messages.len() - start } else { 0 })
}

/// What was not picked does not travel: two sessions that agree on the parts
/// that are picked give the same package, whatever else they hold.
pub proof fn law_only_picked_parts_travel(
    title: Seq<char>,
    req: ShareReq,
    messages: (Seq<Message>, Seq<Message>),
    attachments: (Seq<Attachment>, Seq<Attachment>),
    memory: (Seq<MemoryEntry>, Seq<MemoryEntry>),
)
    requires
        req.messages || req.summary ==> messages.0 == messages.1,
        req.attachments ==> attachments.0 == attachments.1,
        req.memory ==> memory.0 == memory.1,
    ensures
        package(title, req, messages.0, attachments.0, memory.0) == package(
            title,
            req,
            messages.1,
            attachments.1,
            memory.1,
        ),
{
}

// ---- a digest ---------------------------------------------------------------------------------------

/// The tool changes a file.
pub open spec fn changes_files(tool: Seq<char>) -> bool {
    tool == "write_file"@ || tool == "append_file"@ || tool == "edit_file"@ || tool
        == "create_document"@
}

/// A call that changed a file, in a line.
pub open spec fn change_line(r: ToolRecord) -> Seq<char> {
    r.tool@ + " "@ + text::first_chars(r.args@, 160)
}

/// The calls among the first `n` that changed files, in lines.
pub open spec fn changes_among(records: Seq<ToolRecord>, n: int) -> Seq<Seq<char>>
    decreases n,
{
    if n <= 0 {
        Seq::empty()
    } else if changes_files(records[n - 1].tool@) {
        changes_among(records, n - 1).push(change_line(records[n - 1]))
    } else {
        changes_among(records, n - 1)
    }
}

/// The files that a session changed: the first fifty calls that did.
pub fn changed_files(records: &[ToolRecord]) -> (r: Vec<String>)
    ensures
        ({
            let all = changes_among(records@, records@.len() as int);
            types::texts(r@) == all.take(num::lesser(all.len() as int, 50))
        }),
{
    let mut v: Vec<String> = Vec::new();
    let mut i: usize = 0;
    assert(types::texts(v@) =~= Seq::<Seq<char>>::empty());
    while i < records.len()
        invariant
            i <= records@.len(),
            types::texts(v@) == changes_among(records@, i as int),
        decreases records@.len() - i,
    {
        let t = &records[i].tool;
        if text::same(t, "write_file") || text::same(t, "append_file") || text::same(t, "edit_file")
            || text::same(t, "create_document") {
            let mut line = records[i].tool.as_str().to_owned();
            line.append(" ");
            let args = text::take_chars(&records[i].args, 160);
            line.append(&args);
            let ghost was = v@;
            v.push(line);
            assert(types::texts(v@) =~= types::texts(was).push(change_line(records@[i as int])));
        }
        i += 1;
    }
    let ghost all = types::texts(v@);
    assert(all.len() == v@.len());
    if v.len() > 50 {
        v.truncate(50);
    }
    assert(types::texts(v@) =~= all.take(num::lesser(all.len() as int, 50)));
    v
}

/// The decisions that a session's digest shows.
pub fn exported_decisions(messages: &[Message]) -> (r: Vec<String>)
    ensures
        types::texts(r@) == findings(messages@, "Changed:"@, 30),
{
    find_findings(messages, "Changed:", 30)
}

// ---- what travels ---------------------------------------------------------------------------------

proof fn lemma_turns_part(messages: Seq<Message>, from: int, k: int, to: int)
    requires
        from <= k <= to,
    ensures
        turns_part(messages, from, k).is_prefix_of(turns_part(messages, from, to)),
    decreases to - k,
{
    let part = turns_part(messages, from, k);
    if k < to {
        lemma_turns_part(messages, from, k, to - 1);
        assert(part =~= turns_part(messages, from, to).subrange(0, part.len() as int));
    } else {
        assert(part =~= part.subrange(0, part.len() as int));
    }
}

/// Every shared turn is told in its place, with its speaker, and whole where it
/// has at most 1,500 characters; of a longer one the first 1,500 are.
pub proof fn law_every_shared_turn_is_told(messages: Seq<Message>, from: int, k: int, to: int)
    requires
        0 <= from <= k < to <= messages.len(),
    ensures
        ({
            let head = turns_part(messages, from, k) + "\n["@ + messages[k].role@ + "] "@;
            let said = messages[k].content@;
            let told = turns_part(messages, from, to);
            &&& said.len() <= 1500 ==> (head + said + "\n"@).is_prefix_of(told)
            &&& said.len() > 1500 ==> (head + said.take(1500) + "\n"@).is_prefix_of(told)
            &&& turns_part(messages, from, from) == Seq::<char>::empty()
        }),
{
    lemma_turns_part(messages, from, k + 1, to);
}

/// As many of the latest turns are shared as were asked for: at least one, where
/// there is any, twenty at most, and never more than there are.
pub proof fn law_the_latest_turns_are_shared(total: nat, turns: nat)
    ensures
        0 <= share_start(total, turns) <= total,
        1 <= turns <= 20 && turns <= total ==> total - share_start(total, turns) == turns,
        total - share_start(total, turns) <= 20,
        total > 0 ==> share_start(total, turns) < total,
        turns > 20 && total >= 20 ==> total - share_start(total, turns) == 20,
        turns > total && total <= 20 ==> share_start(total, turns) == 0,
{
}

proof fn lemma_holds_in_row(a: Seq<char>, part: Seq<char>, b: Seq<char>)
    ensures
        text::holds(a + part + b, part),
{
    assert((a + part + b).subrange(a.len() as int, (a.len() + part.len()) as int) =~= part);
    assert(text::occurs_at(a + part + b, part, a.len() as int));
}

proof fn lemma_parts_in_row(
    head: Seq<char>,
    a: Seq<char>,
    b: Seq<char>,
    c: Seq<char>,
    d: Seq<char>,
    e: Seq<char>,
)
    ensures
        ({
            let all = head + a + b + c + d + e;
            &&& head.is_prefix_of(all)
            &&& text::holds(all, a) && text::holds(all, b) && text::holds(all, c) && text::holds(
                all,
                d,
            )
            &&& e.is_suffix_of(all)
            &&& a.len() == 0 && b.len() == 0 && c.len() == 0 && d.len() == 0 && e.len() == 0 ==> all
                == head
        }),
{
    let all = head + a + b + c + d + e;
    assert(head =~= all.subrange(0, head.len() as int));
    assert(all =~= head + a + (b + c + d + e));
    lemma_holds_in_row(head, a, b + c + d + e);
    assert(all =~= head + a + b + (c + d + e));
    lemma_holds_in_row(head + a, b, c + d + e);
    assert(all =~= head + a + b + c + (d + e));
    lemma_holds_in_row(head + a + b, c, d + e);
    lemma_holds_in_row(head + a + b + c, d, e);
    assert(e =~= all.subrange(all.len() - e.len(), all.len() as int));
    if a.len() == 0 && b.len() == 0 && c.len() == 0 && d.len() == 0 && e.len() == 0 {
        assert(all =~= head);
    }
}

/// Everything that was picked travels, whole: the session's title first, then
/// the note, the findings, the turns, the files and the memory.
pub proof fn law_what_was_picked_travels(
    title: Seq<char>,
    req: ShareReq,
    messages: Seq<Message>,
    attachments: Seq<Attachment>,
    memory: Seq<MemoryEntry>,
)
    ensures
        ({
            let p = package(title, req, messages, attachments, memory);
            &&& ("Shared context from '"@ + title + "':\n"@).is_prefix_of(p)
            &&& !text::is_blank(req.note@) ==> text::holds(
                p,
                "Note: "@ + text::trimmed(req.note@) + "\n"@,
            )
            &&& req.summary ==> text::holds(
                p,
                findings_part(findings(messages, "Summary:"@, 10)),
            )
            &&& req.messages ==> text::holds(
                p,
                turns_part(
                    messages,
                    share_start(messages.len(), req.turns as nat),
                    messages.len() as int,
                ),
            )
            &&& req.attachments ==> text::holds(p, attachments_part(attachments))
            &&& req.memory ==> memory_part(memory).is_suffix_of(p)
            &&& text::is_blank(req.note@) && !req.summary && !req.messages && !req.attachments
                && !req.memory ==> p == "Shared context from '"@ + title + "':\n"@
        }),
{
    lemma_parts_in_row(
        "Shared context from '"@ + title + "':\n"@,
        wanted(!text::is_blank(req.note@), "Note: "@ + text::trimmed(req.note@) + "\n"@),
        wanted(req.summary, findings_part(findings(messages, "Summary:"@, 10))),
        wanted(
            req.messages,
            turns_part(
                messages,
                share_start(messages.len(), req.turns as nat),
                messages.len() as int,
            ),
        ),
        wanted(req.attachments, attachments_part(attachments)),
        wanted(req.memory, memory_part(memory)),
    );
}

proof fn lemma_findings_in_first(lines: Seq<Seq<char>>, line: Seq<char>, word: Seq<char>, n: int)
    requires
        0 <= n <= lines.len(),
    ensures
        findings_in(lines.push(line), word, n) == findings_in(lines, word, n),
    decreases n,
{
    if n > 0 {
        lemma_findings_in_first(lines, line, word, n - 1);
    }
}

/// A line is a finding by how it begins, white space aside: with a decision, a
/// check mark or the word asked for. Each such line is found, in its order, and
/// no other.
pub proof fn law_which_lines_are_findings(
    lines: Seq<Seq<char>>,
    line: Seq<char>,
    word: Seq<char>,
)
    ensures
        ({
            let t = text::trimmed_start(line);
            let n = lines.len() as int;
            let before = findings_in(lines, word, n);
            let after = findings_in(lines.push(line), word, n + 1);
            let finds = "Decision:"@.is_prefix_of(t) || "✓"@.is_prefix_of(t) || word.is_prefix_of(t);
            &&& finds ==> after == before.push(line)
            &&& !finds ==> after == before
            &&& findings_in(Seq::empty(), word, 0) == Seq::<Seq<char>>::empty()
        }),
{
    lemma_findings_in_first(lines, line, word, lines.len() as int);
    let t = text::trimmed_start(line);
    assert(forall|p: Seq<char>| #[trigger] p.is_prefix_of(t) ==> text::begins(t, p));
    assert(forall|p: Seq<char>| #[trigger] text::begins(t, p) ==> p.is_prefix_of(t));
}

proof fn lemma_findings_of_first(messages: Seq<Message>, m: Message, word: Seq<char>, n: int)
    requires
        0 <= n <= messages.len(),
    ensures
        findings_of(messages.push(m), word, n) == findings_of(messages, word, n),
    decreases n,
{
    if n > 0 {
        lemma_findings_of_first(messages, m, word, n - 1);
    }
}

/// Only what the assistant said counts as a finding, all of it in order; and of
/// all findings the first are told, as many as may be.
pub proof fn law_findings_are_the_assistants(
    messages: Seq<Message>,
    m: Message,
    word: Seq<char>,
    most: nat,
)
    ensures
        ({
            let n = messages.len() as int;
            let before = findings_of(messages, word, n);
            let after = findings_of(messages.push(m), word, n + 1);
            let lines = text::lines(m.content@);
            let told = findings(messages, word, most);
            &&& m.role@ != "assistant"@ ==> after == before
            &&& m.role@ == "assistant"@ ==> after == before + findings_in(
                lines,
                word,
                lines.len() as int,
            )
            &&& told.is_prefix_of(before)
            &&& told.len() <= most
            &&& told.len() < most ==> told == before
        }),
{
    lemma_findings_of_first(messages, m, word, messages.len() as int);
    let before = findings_of(messages, word, messages.len() as int);
    let told = findings(messages, word, most);
    assert(told =~= before.subrange(0, told.len() as int));
    if told.len() < most {
        assert(told =~= before);
    }
}

proof fn lemma_attachment_lines(attachments: Seq<Attachment>, k: int, n: int)
    requires
        0 <= k <= n,
    ensures
        attachment_lines(attachments, k).is_prefix_of(attachment_lines(attachments, n)),
    decreases n - k,
{
    let part = attachment_lines(attachments, k);
    if k < n {
        lemma_attachment_lines(attachments, k, n - 1);
        assert(part =~= attachment_lines(attachments, n).subrange(0, part.len() as int));
    } else {
        assert(part =~= part.subrange(0, part.len() as int));
    }
}

proof fn lemma_memory_lines(entries: Seq<MemoryEntry>, k: int, n: int)
    requires
        0 <= k <= n,
    ensures
        memory_lines(entries, k).is_prefix_of(memory_lines(entries, n)),
    decreases n - k,
{
    let part = memory_lines(entries, k);
    if k < n {
        lemma_memory_lines(entries, k, n - 1);
        assert(part =~= memory_lines(entries, n).subrange(0, part.len() as int));
    } else {
        assert(part =~= part.subrange(0, part.len() as int));
    }
}

proof fn lemma_finding_lines(found: Seq<Seq<char>>, k: int, n: int)
    requires
        0 <= k <= n,
    ensures
        finding_lines(found, k).is_prefix_of(finding_lines(found, n)),
    decreases n - k,
{
    let part = finding_lines(found, k);
    if k < n {
        lemma_finding_lines(found, k, n - 1);
        assert(part =~= finding_lines(found, n).subrange(0, part.len() as int));
    } else {
        assert(part =~= part.subrange(0, part.len() as int));
    }
}

/// Each of the first twenty files and memories is told in its place: a file by
/// its name, kind and size and the first 800 characters of its text, a memory
/// by its scope and its first 500 characters; and each finding by its first
/// 300, without the white space around it.
pub proof fn law_files_memories_and_findings_are_told(
    attachments: Seq<Attachment>,
    entries: Seq<MemoryEntry>,
    found: Seq<Seq<char>>,
    k: int,
)
    requires
        0 <= k < 20,
    ensures
        k < attachments.len() ==> ("\nAttachments:\n"@ + (attachment_lines(attachments, k) + "- "@
            + attachments[k].filename@ + " ("@ + attachments[k].mime@ + ", "@ + decimal::digits(
            attachments[k].size_bytes as nat,
        ) + " bytes): "@ + attachments[k].text_excerpt@.take(
            num::lesser(attachments[k].text_excerpt@.len() as int, 800),
        ) + "\n"@)).is_prefix_of(attachments_part(attachments)),
        k < entries.len() ==> ("\nMemory:\n"@ + (memory_lines(entries, k) + "- ["@
            + entries[k].scope@ + "] "@ + entries[k].content@.take(
            num::lesser(entries[k].content@.len() as int, 500),
        ) + "\n"@)).is_prefix_of(memory_part(entries)),
        k < found.len() ==> ("Key findings:\n"@ + (finding_lines(found, k) + "- "@ + text::trimmed(
            found[k],
        ).take(num::lesser(text::trimmed(found[k]).len() as int, 300)) + "\n"@)).is_prefix_of(
            findings_part(found),
        ),
{
    if k < attachments.len() {
        let a = attachments[k].text_excerpt@;
        assert(a.take(num::lesser(a.len() as int, 800)) =~= text::first_chars(a, 800));
        lemma_attachment_lines(attachments, k + 1, num::lesser(attachments.len() as int, 20));
        let line = "\nAttachments:\n"@ + attachment_lines(attachments, k + 1);
        assert(line =~= attachments_part(attachments).subrange(0, line.len() as int));
    }
    if k < entries.len() {
        let m = entries[k].content@;
        assert(m.take(num::lesser(m.len() as int, 500)) =~= text::first_chars(m, 500));
        lemma_memory_lines(entries, k + 1, num::lesser(entries.len() as int, 20));
        let line = "\nMemory:\n"@ + memory_lines(entries, k + 1);
        assert(line =~= memory_part(entries).subrange(0, line.len() as int));
    }
    if k < found.len() {
        let f = text::trimmed(found[k]);
        assert(f.take(num::lesser(f.len() as int, 300)) =~= text::first_chars(f, 300));
        lemma_finding_lines(found, k + 1, found.len() as int);
        let line = "Key findings:\n"@ + finding_lines(found, k + 1);
        assert(line =~= findings_part(found).subrange(0, line.len() as int));
    }
}

proof fn lemma_changes_of_first(records: Seq<ToolRecord>, r: ToolRecord, n: int)
    requires
        0 <= n <= records.len(),
    ensures
        changes_among(records.push(r), n) == changes_among(records, n),
    decreases n,
{
    if n > 0 {
        lemma_changes_of_first(records, r, n - 1);
    }
}

/// The calls that a digest lists are those that wrote, appended to, edited or
/// made a file, in their order, each by its tool and what it was given; calls
/// that only looked are not listed.
pub proof fn law_which_calls_changed_files(records: Seq<ToolRecord>, r: ToolRecord)
    ensures
        ({
            let n = records.len() as int;
            let before = changes_among(records, n);
            let after = changes_among(records.push(r), n + 1);
            let changed = r.tool@ == "write_file"@ || r.tool@ == "append_file"@ || r.tool@
                == "edit_file"@ || r.tool@ == "create_document"@;
            &&& !changed ==> after == before
            &&& changed ==> after.len() == before.len() + 1 && before.is_prefix_of(after)
            &&& changed && r.args@.len() <= 160 ==> after.last() == r.tool@ + " "@ + r.args@
            &&& changed && r.args@.len() > 160 ==> after.last() == r.tool@ + " "@ + r.args@.take(160)
        }),
{
    lemma_changes_of_first(records, r, records.len() as int);
    let before = changes_among(records, records.len() as int);
    let after = changes_among(records.push(r), 1 + records.len() as int);
    assert(after.len() > before.len() ==> before =~= after.subrange(0, before.len() as int));
}

} // verus!
