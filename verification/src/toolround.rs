//! One tool round of a chat reply: whether the call may run, how it is
//! announced, and what the model and the journal get of its result.
use vstd::prelude::*;

use crate::boundary;
use crate::intent::AgentState;
use crate::offer::{ChatToolOffer, ToolCall};
use crate::text;
use crate::types;
use crate::types::{ChatTurn, Turn};

verus! {

/// Characters of a tool's output that are sent at most.
pub const TOOL_OUTPUT_CHARS: usize = 16_000;

/// What a reply's call comes to.
#[derive(Clone, Copy, Debug, PartialEq, Eq, Structural)]
pub enum Verdict {
    /// The reply is text.
    NotAnAction,
    /// The tool is real but not for a chat: the model is told so.
    Refused,
    /// The call runs.
    Run,
}

/// What runs a call.
#[derive(Clone, Copy, Debug, PartialEq, Eq, Structural)]
pub enum Runner {
    /// The evidence kept of earlier results.
    Evidence,
    /// The document renderer.
    Document,
    /// The linked project.
    Project,
}

/// What a call comes to. What a request did not offer is no action, except a
/// real tool in a code session, which is refused aloud or the model would
/// keep asking. What is offered but not safe in a chat is refused too.
pub open spec fn verdict(
    offered: bool,
    name: Seq<char>,
    has_workspace: bool,
    registered: bool,
    chat_safe: bool,
) -> Verdict {
    let withheld = !offered && has_workspace && registered;
    if !offered && !withheld {
        Verdict::NotAnAction
    } else if withheld || (name != "manage_context"@ && !chat_safe) {
        Verdict::Refused
    } else {
        Verdict::Run
    }
}

/// What the call that a reply holds, if any, comes to. `registered` says
/// whether the tool exists, `chat_safe` whether it only inspects.
pub fn judge_call(
    call: &Option<ToolCall>,
    offer: &ChatToolOffer,
    has_workspace: bool,
    registered: bool,
    chat_safe: bool,
) -> (v: Verdict)
    ensures
        v == (match *call {
            Some(c) => verdict(
                offer.offered(c.name@),
                c.name@,
                has_workspace,
                registered,
                chat_safe,
            ),
            None => Verdict::NotAnAction,
        }),
{
    match call {
        None => Verdict::NotAnAction,
        Some(c) => {
            let offered = offer.offers(&c.name);
            let withheld = !offered && has_workspace && registered;
            if !offered && !withheld {
                Verdict::NotAnAction
            } else if withheld || (!text::same(&c.name, "manage_context") && !chat_safe) {
                Verdict::Refused
            } else {
                Verdict::Run
            }
        },
    }
}

/// A chat runs nothing but an offered tool that only inspects, or the
/// selection of evidence.
pub proof fn law_a_chat_runs_only_safe_tools(
    offered: bool,
    name: Seq<char>,
    has_workspace: bool,
    registered: bool,
    chat_safe: bool,
)
    ensures
        verdict(offered, name, has_workspace, registered, chat_safe) == Verdict::Run ==> offered
            && (chat_safe || name == "manage_context"@),
        !has_workspace && !offered ==> verdict(
            offered,
            name,
            has_workspace,
            registered,
            chat_safe,
        ) == Verdict::NotAnAction,
{
}

/// What runs a call of the given name.
pub open spec fn runs_in(name: Seq<char>) -> Runner {
    if name == "manage_context"@ {
        Runner::Evidence
    } else if name == "create_document"@ {
        Runner::Document
    } else {
        Runner::Project
    }
}

/// Only the two tools that do not work on the project run elsewhere: the one for
/// evidence, and the one for documents.
pub proof fn law_where_a_call_runs(name: Seq<char>)
    ensures
        runs_in(name) == Runner::Evidence <==> name == "manage_context"@,
        runs_in(name) == Runner::Document <==> name == "create_document"@,
        runs_in("read_file"@) == Runner::Project,
{
    reveal_strlit("manage_context");
    reveal_strlit("create_document");
    reveal_strlit("read_file");
    assert("manage_context"@.len() == 14 && "create_document"@.len() == 15 && "read_file"@.len()
        == 9);
}

/// What runs a call of the given name.
pub fn runner_of(name: &str) -> (r: Runner)
    ensures
        r == runs_in(name@),
{
    if text::same(name, "manage_context") {
        Runner::Evidence
    } else if text::same(name, "create_document") {
        Runner::Document
    } else {
        Runner::Project
    }
}

// ---- how a call is announced ---------------------------------------------------------

/// A field of the arguments, or what stands for it.
pub open spec fn or_else(field: Option<Seq<char>>, other: Seq<char>) -> Seq<char> {
    match field {
        Some(s) => s,
        None => other,
    }
}

/// How a call is announced, given the text fields of its arguments.
pub open spec fn label(
    name: Seq<char>,
    path: Option<Seq<char>>,
    query: Option<Seq<char>>,
    filename: Option<Seq<char>>,
) -> Seq<char> {
    if name == "manage_context"@ {
        "Selecting relevant evidence…"@
    } else if name == "read_file"@ {
        "Reading "@ + or_else(path, "file"@) + "…"@
    } else if name == "search_text"@ {
        "Searching for '"@ + or_else(query, ""@) + "'…"@
    } else if name == "list_directory"@ {
        "Listing "@ + or_else(path, "."@) + "…"@
    } else if name == "create_document"@ {
        "Creating "@ + or_else(filename, "document"@) + "…"@
    } else {
        "Running "@ + name + "…"@
    }
}

/// The text of an optional text.
pub open spec fn shown(s: Option<String>) -> Option<Seq<char>> {
    match s {
        Some(t) => Some(t@),
        None => None,
    }
}

/// `before`, then the field or what stands for it, then `after`.
fn phrase(before: &str, field: &Option<String>, other: &str, after: &str) -> (s: String)
    ensures
        s@ == before@ + or_else(shown(*field), other@) + after@,
{
    let mut s = before.to_owned();
    match field {
        Some(t) => s.append(t),
        None => s.append(other),
    }
    s.append(after);
    s
}

/// How a call is announced, given the text fields of its arguments.
pub fn label_of(
    name: &str,
    path: &Option<String>,
    query: &Option<String>,
    filename: &Option<String>,
) -> (s: String)
    ensures
        s@ == label(name@, shown(*path), shown(*query), shown(*filename)),
{
    if text::same(name, "manage_context") {
        "Selecting relevant evidence…".to_owned()
    } else if text::same(name, "read_file") {
        phrase("Reading ", path, "file", "…")
    } else if text::same(name, "search_text") {
        phrase("Searching for '", query, "", "'…")
    } else if text::same(name, "list_directory") {
        phrase("Listing ", path, ".", "…")
    } else if text::same(name, "create_document") {
        phrase("Creating ", filename, "document", "…")
    } else {
        let mut s = "Running ".to_owned();
        s.append(name);
        s.append("…");
        s
    }
}

/// How a call is announced.
pub fn call_label(call: &ToolCall) -> (s: String)
    ensures
        s@ == label(
            call.name@,
            boundary::json_string(call.args@, "path"@),
            boundary::json_string(call.args@, "query"@),
            boundary::json_string(call.args@, "filename"@),
        ),
{
    let path = boundary::json_string_field(&call.args, "path");
    let query = boundary::json_string_field(&call.args, "query");
    let filename = boundary::json_string_field(&call.args, "filename");
    label_of(&call.name, &path, &query, &filename)
}

/// `s` without `c`.
pub open spec fn without(s: Seq<char>, c: char) -> Seq<char>
    decreases s.len(),
{
    if s.len() == 0 {
        s
    } else if s.last() == c {
        without(s.drop_last(), c)
    } else {
        without(s.drop_last(), c).push(s.last())
    }
}

/// `s` without `c`.
fn remove_char(s: &str, c: char) -> (r: String)
    ensures
        r@ == without(s@, c),
{
    let v = text::chars_of(s);
    let mut r = String::new();
    let mut i: usize = 0;
    while i < v.len()
        invariant
            i <= v@.len(),
            r@ == without(v@.take(i as int), c),
        decreases v@.len() - i,
    {
        assert(v@.take(i + 1).drop_last() =~= v@.take(i as int));
        if v[i] != c {
            r.push(v[i]);
        }
        i += 1;
    }
    assert(v@.take(v@.len() as int) =~= v@);
    r
}

/// How the end of a call is announced.
pub fn result_status(label: &str, ok: bool) -> (s: String)
    ensures
        s@ == (if ok {
            "✓"@
        } else {
            "⚠"@
        }) + " "@ + without(label@, '…'),
{
    let mut s = if ok {
        "✓".to_owned()
    } else {
        "⚠".to_owned()
    };
    s.append(" ");
    let plain = remove_char(label, '…');
    s.append(&plain);
    s
}

// ---- the result ------------------------------------------------------------------------

/// How a tool came out.
#[derive(Debug, PartialEq, Eq)]
pub enum ToolOutcome {
    /// It ran and reported.
    Ran { ok: bool, output: String },
    /// It needs a permission.
    PermissionRequired { reason: String },
    /// It could not run.
    Failed { error: String },
}

/// Whether the tool succeeded, and the output that the model sees.
pub open spec fn outcome_view(outcome: ToolOutcome, args: Seq<char>) -> (bool, Seq<char>) {
    match outcome {
        ToolOutcome::Ran { ok, output } => (ok, output@),
        ToolOutcome::PermissionRequired { reason } => (false, "Permission required: "@ + reason@),
        ToolOutcome::Failed { error } => (
            false,
            "Tool failed: "@ + error@ + "\nYou sent args: "@ + args,
        ),
    }
}

/// Whether the tool succeeded, and the output that the model sees.
pub fn outcome_text(outcome: ToolOutcome, args: &str) -> (r: (bool, String))
    ensures
        (r.0, r.1@) == outcome_view(outcome, args@),
{
    match outcome {
        ToolOutcome::Ran { ok, output } => (ok, output),
        ToolOutcome::PermissionRequired { reason } => {
            let mut s = "Permission required: ".to_owned();
            s.append(&reason);
            (false, s)
        },
        ToolOutcome::Failed { error } => {
            let mut s = "Tool failed: ".to_owned();
            s.append(&error);
            s.append("\nYou sent args: ");
            s.append(args);
            (false, s)
        },
    }
}

/// The beginning of an output, with a note where that is not all of it.
pub open spec fn excerpted(output: Seq<char>, note: Seq<char>) -> Seq<char> {
    if output.len() <= TOOL_OUTPUT_CHARS {
        output
    } else {
        output.take(TOOL_OUTPUT_CHARS as int) + note
    }
}

/// What the model is told of an output that is cut.
pub const CUT_FOR_MODEL: &'static str =
    "\n[Result truncated. Narrow the search/directory, or request a smaller file range; omitted content was not read.]";

/// What a reader is told of an output that is cut.
pub const CUT_FOR_DISPLAY: &'static str = "\n[Output truncated for display]";

/// The beginning of an output, with a note where that is not all of it.
fn excerpt(output: &str, note: &str) -> (s: String)
    ensures
        s@ == excerpted(output@, note@),
{
    let n: usize = text::char_count(output);
    if n <= TOOL_OUTPUT_CHARS {
        output.to_owned()
    } else {
        let mut s = text::take_chars(output, TOOL_OUTPUT_CHARS);
        s.append(note);
        s
    }
}

/// An output as the model gets it. File chunks carry their own continuation
/// and fit below the limit.
pub fn chat_tool_output(output: &str) -> (s: String)
    ensures
        s@ == excerpted(output@, CUT_FOR_MODEL@),
{
    excerpt(output, CUT_FOR_MODEL)
}

/// An output as the journal shows it.
pub fn display_output(output: &str) -> (s: String)
    ensures
        s@ == excerpted(output@, CUT_FOR_DISPLAY@),
{
    excerpt(output, CUT_FOR_DISPLAY)
}

/// The title of a finished call in the journal.
pub open spec fn finished_title(document: bool, ok: bool) -> Seq<char> {
    if document {
        if ok {
            "Document created"@
        } else {
            "Document failed"@
        }
    } else if ok {
        "Inspection finished"@
    } else {
        "Inspection failed"@
    }
}

/// The title of a finished call in the journal.
pub fn result_title(document: bool, ok: bool) -> (s: &'static str)
    ensures
        s@ == finished_title(document, ok),
{
    if document {
        if ok {
            "Document created"
        } else {
            "Document failed"
        }
    } else if ok {
        "Inspection finished"
    } else {
        "Inspection failed"
    }
}

/// What follows the matches of a search.
pub const READ_NEXT: &'static str =
    "\n[Host guidance: these are search matches, not whole function bodies. If the original question asks about implementation or return values not visible here, your NEXT response must call read_file on the matching path/line range. Do not ask permission for that read; the user's question already requests this inspection. Otherwise answer from the evidence.]";

/// The result as the model is sent it.
pub open spec fn result_message(name: Seq<char>, output: Seq<char>, ok: bool) -> Seq<char> {
    "[tool result: "@ + name + "]\n"@ + excerpted(output, CUT_FOR_MODEL@) + (if name
        == "search_text"@ && ok {
        READ_NEXT@
    } else {
        Seq::empty()
    })
}

/// The refusal as the model is sent it.
pub open spec fn refusal_message(name: Seq<char>) -> Seq<char> {
    "[System: the '"@ + name
        + "' tool needs explicit approval and cannot run inside chat. Answer from what you have read, or tell the user to run /plan "@
        + name + ".]"@
}

/// Puts the reply and the refusal of its call on the request.
pub fn refuse_call(turns: &mut Vec<ChatTurn>, round_text: &str, name: &str)
    ensures
        types::turns(final(turns)@) == types::exchanged(
            types::turns(old(turns)@),
            round_text@,
            refusal_message(name@),
        ),
{
    let mut note = "[System: the '".to_owned();
    note.append(name);
    note.append(
        "' tool needs explicit approval and cannot run inside chat. Answer from what you have read, or tell the user to run /plan ",
    );
    note.append(name);
    note.append(".]");
    turns.push(ChatTurn::text("assistant", round_text.to_owned()));
    turns.push(ChatTurn::text("user", note));
    assert(types::turns(turns@) =~= types::turns(old(turns)@).push(
        types::text_turn("assistant"@, round_text@),
    ).push(types::text_turn("user"@, refusal_message(name@))));
}

/// Puts the reply and the result of its call on the request.
pub fn record_result(
    turns: &mut Vec<ChatTurn>,
    round_text: &str,
    name: &str,
    output: &str,
    ok: bool,
)
    ensures
        types::turns(final(turns)@) == types::exchanged(
            types::turns(old(turns)@),
            round_text@,
            result_message(name@, output@, ok),
        ),
{
    let mut note = "[tool result: ".to_owned();
    note.append(name);
    note.append("]\n");
    let sent = chat_tool_output(output);
    note.append(&sent);
    if ok && text::same(name, "search_text") {
        note.append(READ_NEXT);
    }
    assert(note@ =~= result_message(name@, output@, ok));
    turns.push(ChatTurn::text("assistant", round_text.to_owned()));
    turns.push(ChatTurn::text("user", note));
    assert(types::turns(turns@) =~= types::turns(old(turns)@).push(
        types::text_turn("assistant"@, round_text@),
    ).push(types::text_turn("user"@, result_message(name@, output@, ok))));
}

/// What the user is told of a refused call.
pub fn skipped_status(name: &str) -> (s: String)
    ensures
        s@ == "Skipped '"@ + name@
            + "' (needs approval — use the Agent panel or /plan for writes and commands)"@,
{
    let mut s = "Skipped '".to_owned();
    s.append(name);
    s.append("' (needs approval — use the Agent panel or /plan for writes and commands)");
    s
}

/// A call as it is kept for the record.
#[derive(Debug, PartialEq, Eq)]
pub struct ToolRecord {
    pub conversation_id: String,
    pub tool: String,
    pub args: String,
    pub result: String,
    pub approved: bool,
}

/// A chat's call as it is kept for the record: never approved, its result cut
/// to 2,000 characters.
pub fn chat_record(conversation: Option<&str>, call: &ToolCall, output: &str) -> (r: ToolRecord)
    ensures
        r.conversation_id@ == (match conversation {
            Some(id) => id@,
            None => "direct"@,
        }),
        r.tool@ == "chat:"@ + call.name@,
        r.args@ == call.args@,
        r.result@ == text::first_chars(output@, 2000),
        !r.approved,
{
    let mut tool = "chat:".to_owned();
    tool.append(&call.name);
    ToolRecord {
        conversation_id: match conversation {
            Some(id) => id.to_owned(),
            None => "direct".to_owned(),
        },
        tool,
        args: call.args.clone(),
        result: text::take_chars(output, 2000),
        approved: false,
    }
}

// ---- a whole round -------------------------------------------------------------------------

/// A call as the journal shows it.
#[derive(Debug, PartialEq, Eq)]
pub struct JournalEntry {
    pub kind: &'static str,
    pub state: AgentState,
    pub message: String,
    pub output: Option<String>,
}

/// What is journaled of a refused call.
pub const NOT_RUN: &'static str =
    "This action was not run. Ask mode only permits safe inspection; choose Agent to request changes.";

/// Turns a call away: what the journal shows, what the user is told, and on the
/// request the reply and its refusal.
pub fn turn_away(turns: &mut Vec<ChatTurn>, round_text: &str, name: &str) -> (r: (
    JournalEntry,
    String,
))
    ensures
        r.0.kind@ == "tool_error"@,
        r.0.state == AgentState::Observing,
        r.0.message@ == NOT_RUN@,
        r.0.output is None,
        r.1@ == "Skipped '"@ + name@
            + "' (needs approval — use the Agent panel or /plan for writes and commands)"@,
        types::turns(final(turns)@) == types::exchanged(
            types::turns(old(turns)@),
            round_text@,
            refusal_message(name@),
        ),
{
    let entry = JournalEntry {
        kind: "tool_error",
        state: AgentState::Observing,
        message: NOT_RUN.to_owned(),
        output: None,
    };
    let status = skipped_status(name);
    refuse_call(turns, round_text, name);
    (entry, status)
}

/// What the journal shows of a call that begins.
pub fn announce(label: &str) -> (e: JournalEntry)
    ensures
        e.kind@ == "tool_started"@,
        e.state == AgentState::ExecutingTool,
        e.message@ == label@,
        e.output is None,
{
    JournalEntry {
        kind: "tool_started",
        state: AgentState::ExecutingTool,
        message: label.to_owned(),
        output: None,
    }
}

/// What a finished call leaves.
#[derive(Debug, PartialEq, Eq)]
pub struct RoundReport {
    /// What the user is told.
    pub status: String,
    pub entry: JournalEntry,
    pub record: ToolRecord,
}

/// How a round with a call ends: what is shown, kept and told to the model.
pub open spec fn round_closed(
    before: Seq<Turn>,
    after: Seq<Turn>,
    round_text: Seq<char>,
    call: ToolCall,
    label: Seq<char>,
    conversation: Option<&str>,
    outcome: ToolOutcome,
    r: RoundReport,
) -> bool {
    let (ok, output) = outcome_view(outcome, call.args@);
    &&& r.status@ == (if ok {
        "✓"@
    } else {
        "⚠"@
    }) + " "@ + without(label, '…')
    &&& r.entry.kind@ == (if ok {
        "tool_result"@
    } else {
        "tool_error"@
    })
    &&& r.entry.state == AgentState::Observing
    &&& r.entry.message@ == finished_title(call.name@ == "create_document"@, ok)
    &&& r.entry.output is Some
    &&& r.entry.output->0@ == excerpted(output, CUT_FOR_DISPLAY@)
    &&& r.record.conversation_id@ == (match conversation {
        Some(id) => id@,
        None => "direct"@,
    })
    &&& r.record.tool@ == "chat:"@ + call.name@
    &&& r.record.args@ == call.args@
    &&& r.record.result@ == text::first_chars(output, 2000)
    &&& !r.record.approved
    &&& after == types::exchanged(
        before,
        round_text,
        result_message(call.name@, output, ok),
    )
}

/// What a call came to is told everywhere as the same: the user sees a tick only
/// where it went well, the journal has its output, the record its tool, its
/// arguments and the conversation it belongs to, and the model what it said and
/// then the outcome. No call of a chat counts as approved.
pub proof fn law_a_call_is_told_everywhere(
    before: Seq<Turn>,
    after: Seq<Turn>,
    round_text: Seq<char>,
    call: ToolCall,
    label: Seq<char>,
    conversation: Option<&str>,
    outcome: ToolOutcome,
    r: RoundReport,
)
    requires
        round_closed(before, after, round_text, call, label, conversation, outcome, r),
    ensures
        ({
            let (ok, output) = outcome_view(outcome, call.args@);
            &&& "✓"@.is_prefix_of(r.status@) <==> ok
            &&& r.entry.kind@ == "tool_result"@ <==> ok
            &&& r.entry.kind@ == "tool_error"@ <==> !ok
            &&& r.entry.output is Some
            &&& output.len() <= 16_000 ==> r.entry.output->0@ == output
            &&& output.len() <= 2000 ==> r.record.result@ == output
            &&& call.name@.is_suffix_of(r.record.tool@) && r.record.args@ == call.args@
            &&& conversation matches Some(id) ==> r.record.conversation_id@ == id@
            &&& !r.record.approved
            &&& before.is_prefix_of(after) && after.len() == before.len() + 2
            &&& after[before.len() as int].role == "assistant"@ && after[before.len() as int].content
                == round_text
            &&& after.last().role == "user"@ && after.last().content == result_message(
                call.name@,
                output,
                ok,
            )
        }),
{
    let (ok, output) = outcome_view(outcome, call.args@);
    types::law_an_answer_follows_what_was_said(
        before,
        round_text,
        result_message(call.name@, output, ok),
    );
    reveal_strlit("✓");
    reveal_strlit("⚠");
    reveal_strlit(" ");
    reveal_strlit("tool_result");
    reveal_strlit("tool_error");
    assert("tool_result"@.len() == 11 && "tool_error"@.len() == 10);
    assert("✓"@[0] != "⚠"@[0]);
    assert(r.status@[0] == (if ok {
        "✓"@[0]
    } else {
        "⚠"@[0]
    }));
    if ok {
        assert("✓"@ =~= r.status@.subrange(0, 1));
    } else {
        assert(r.status@.subrange(0, 1)[0] == r.status@[0]);
    }
    let tool = r.record.tool@;
    assert(call.name@ =~= tool.subrange(tool.len() - call.name@.len(), tool.len() as int));
}

/// Closes a round once its call has run: what the user is told, what the
/// journal shows, what is kept for the record, and on the request the reply and
/// the result.
pub fn close_round(
    turns: &mut Vec<ChatTurn>,
    round_text: &str,
    call: &ToolCall,
    label: &str,
    conversation: Option<&str>,
    outcome: ToolOutcome,
) -> (r: RoundReport)
    ensures
        round_closed(
            types::turns(old(turns)@),
            types::turns(final(turns)@),
            round_text@,
            *call,
            label@,
            conversation,
            outcome,
            r,
        ),
{
    let (ok, output) = outcome_text(outcome, &call.args);
    let status = result_status(label, ok);
    let title = result_title(text::same(&call.name, "create_document"), ok);
    let shown = display_output(&output);
    let record = chat_record(conversation, call, &output);
    record_result(turns, round_text, &call.name, &output, ok);
    RoundReport {
        status,
        entry: JournalEntry {
            kind: if ok { "tool_result" } else { "tool_error" },
            state: AgentState::Observing,
            message: title.to_owned(),
            output: Some(shown),
        },
        record,
    }
}

// ---- what the model sees of a result -----------------------------------------------------

/// The model sees what the tool reported: an output of at most 16,000
/// characters stands whole behind the name of its tool, and of a longer one the
/// first 16,000 do, with a word on the rest. So two results of one tool are
/// told apart wherever their outputs differ in that.
pub proof fn law_the_model_sees_the_output(
    name: Seq<char>,
    output: Seq<char>,
    other: Seq<char>,
    ok: bool,
)
    ensures
        output.len() <= 16_000 ==> ("[tool result: "@ + name + "]\n"@ + output).is_prefix_of(
            result_message(name, output, ok),
        ),
        output.len() <= 16_000 && !(name == "search_text"@ && ok) ==> result_message(
            name,
            output,
            ok,
        ) == "[tool result: "@ + name + "]\n"@ + output,
        output.len() > 16_000 ==> ("[tool result: "@ + name + "]\n"@ + output.take(16_000)
            + CUT_FOR_MODEL@).is_prefix_of(result_message(name, output, ok)),
        output != other && output.len() <= 16_000 && other.len() <= 16_000 ==> result_message(
            name,
            output,
            ok,
        ) != result_message(name, other, ok),
{
    let head = "[tool result: "@ + name + "]\n"@;
    let end = if name == "search_text"@ && ok {
        READ_NEXT@
    } else {
        Seq::empty()
    };
    lemma_result_parts(name, output, ok);
    lemma_result_parts(name, other, ok);
    let a = result_message(name, output, ok);
    let b = result_message(name, other, ok);
    if output.len() <= 16_000 {
        assert(head + output =~= a.subrange(0, (head + output).len() as int));
        assert(end.len() == 0 ==> a =~= head + output);
    } else {
        let cut = head + output.take(16_000) + CUT_FOR_MODEL@;
        assert(cut =~= a.subrange(0, cut.len() as int));
    }
    if output.len() <= 16_000 && other.len() <= 16_000 && a == b {
        assert(output.len() == other.len());
        assert forall|i: int| 0 <= i < output.len() implies output[i] == other[i] by {
            assert(a[head.len() + i] == output[i]);
            assert(b[head.len() + i] == other[i]);
        }
        assert(output =~= other);
    }
}

proof fn lemma_result_parts(name: Seq<char>, output: Seq<char>, ok: bool)
    ensures
        ({
            let head = "[tool result: "@ + name + "]\n"@;
            let end = if name == "search_text"@ && ok {
                READ_NEXT@
            } else {
                Seq::empty()
            };
            result_message(name, output, ok) == head + (if output.len() <= 16_000 {
                output
            } else {
                output.take(16_000) + CUT_FOR_MODEL@
            }) + end
        }),
{
}

/// What the model is told of a call that was turned away names the tool, and so
/// does what the user is told.
pub proof fn law_a_refusal_names_the_tool(name: Seq<char>, other: Seq<char>)
    ensures
        ("[System: the '"@ + name + "' tool needs explicit approval and cannot run inside chat."@)
            .is_prefix_of(refusal_message(name)),
        name.len() == other.len() && name != other ==> refusal_message(name) != refusal_message(
            other,
        ),
{
    let said = refusal_message(name);
    let head = "[System: the '"@ + name
        + "' tool needs explicit approval and cannot run inside chat."@;
    reveal_strlit("' tool needs explicit approval and cannot run inside chat.");
    reveal_strlit(
        "' tool needs explicit approval and cannot run inside chat. Answer from what you have read, or tell the user to run /plan ",
    );
    assert(head =~= said.subrange(0, head.len() as int));
    if name.len() == other.len() && said == refusal_message(other) {
        let at = "[System: the '"@.len() as int;
        assert forall|i: int| 0 <= i < name.len() implies name[i] == other[i] by {
            assert(said[at + i] == name[i]);
            assert(refusal_message(other)[at + i] == other[i]);
        }
        assert(name =~= other);
    }
}

/// How a tool came out is what it reported: its own word on whether it
/// succeeded and its own output. One that could not run did not succeed, and
/// its output gives the reason; where it failed, the arguments too.
pub proof fn law_an_outcome_is_what_the_tool_reported(outcome: ToolOutcome, args: Seq<char>)
    ensures
        outcome matches ToolOutcome::Ran { ok, output } ==> outcome_view(outcome, args).0 == ok
            && outcome_view(outcome, args).1 == output@,
        outcome matches ToolOutcome::PermissionRequired { reason } ==> !outcome_view(
            outcome,
            args,
        ).0 && reason@.is_suffix_of(outcome_view(outcome, args).1),
        outcome matches ToolOutcome::Failed { error } ==> !outcome_view(outcome, args).0
            && args.is_suffix_of(outcome_view(outcome, args).1) && ("Tool failed: "@
            + error@).is_prefix_of(outcome_view(outcome, args).1),
{
    let said = outcome_view(outcome, args).1;
    match outcome {
        ToolOutcome::Ran { .. } => {},
        ToolOutcome::PermissionRequired { reason } => {
            assert(reason@ =~= said.subrange(said.len() - reason@.len(), said.len() as int));
        },
        ToolOutcome::Failed { error } => {
            let head = "Tool failed: "@ + error@;
            assert(head =~= said.subrange(0, head.len() as int));
            assert(args =~= said.subrange(said.len() - args.len(), said.len() as int));
        },
    }
}

/// What runs in a chat: an offered tool that only inspects, and the selection
/// of evidence where it is offered. A real tool that a code session does not
/// offer is refused aloud; any other name is no action.
pub proof fn law_what_a_call_comes_to(
    offered: bool,
    name: Seq<char>,
    has_workspace: bool,
    registered: bool,
    chat_safe: bool,
)
    ensures
        offered && chat_safe ==> verdict(offered, name, has_workspace, registered, chat_safe)
            == Verdict::Run,
        offered && name == "manage_context"@ ==> verdict(
            offered,
            name,
            has_workspace,
            registered,
            chat_safe,
        ) == Verdict::Run,
        offered && !chat_safe && name != "manage_context"@ ==> verdict(
            offered,
            name,
            has_workspace,
            registered,
            chat_safe,
        ) == Verdict::Refused,
        !offered && has_workspace && registered ==> verdict(
            offered,
            name,
            has_workspace,
            registered,
            chat_safe,
        ) == Verdict::Refused,
        !offered && !registered ==> verdict(offered, name, has_workspace, registered, chat_safe)
            == Verdict::NotAnAction,
{
}

/// A call that reads, searches or writes is announced with what it reads,
/// searches for or writes.
pub proof fn law_an_announcement_names_the_subject(
    path: Seq<char>,
    query: Seq<char>,
    filename: Seq<char>,
    a: Option<Seq<char>>,
    b: Option<Seq<char>>,
)
    ensures
        label("read_file"@, Some(path), a, b) == "Reading "@ + path + "…"@,
        label("list_directory"@, Some(path), a, b) == "Listing "@ + path + "…"@,
        label("search_text"@, a, Some(query), b) == "Searching for '"@ + query + "'…"@,
        label("create_document"@, a, b, Some(filename)) == "Creating "@ + filename + "…"@,
{
    reveal_strlit("manage_context");
    reveal_strlit("read_file");
    reveal_strlit("search_text");
    reveal_strlit("list_directory");
    reveal_strlit("create_document");
    assert("read_file"@.len() == 9);
    assert("search_text"@.len() == 11);
    assert("list_directory"@.len() == 14);
    assert("manage_context"@.len() == 14);
    assert("create_document"@.len() == 15);
    assert("list_directory"@[0] != "manage_context"@[0]);
}

/// The end of a call is announced as its beginning was, without the mark of
/// something under way: every other character stays.
pub proof fn law_only_the_mark_is_taken_out(s: Seq<char>, c: char)
    ensures
        !without(s, c).contains(c),
        !s.contains(c) ==> without(s, c) == s,
        forall|a: Seq<char>, b: Seq<char>| s == #[trigger] (a + b) ==> without(s, c) == without(
            a,
            c,
        ) + without(b, c),
{
    lemma_without(s, c);
    assert forall|a: Seq<char>, b: Seq<char>| s == #[trigger] (a + b) implies without(s, c)
        == without(a, c) + without(b, c) by {
        lemma_without_both(a, b, c);
    }
}

proof fn lemma_without(s: Seq<char>, c: char)
    ensures
        !without(s, c).contains(c),
        !s.contains(c) ==> without(s, c) == s,
    decreases s.len(),
{
    if s.len() > 0 {
        let d = s.drop_last();
        lemma_without(d, c);
        if !s.contains(c) {
            assert forall|i: int| 0 <= i < d.len() implies d[i] != c by {
                assert(s.contains(s[i]));
            }
            assert(s.contains(s.last()));
            assert(d.push(s.last()) =~= s);
        }
        let kept = without(s, c);
        assert forall|i: int| 0 <= i < kept.len() implies kept[i] != c by {
            if i < without(d, c).len() {
                assert(without(d, c).contains(without(d, c)[i]));
                assert(kept[i] == without(d, c)[i]);
            }
        }
    }
}

proof fn lemma_without_both(a: Seq<char>, b: Seq<char>, c: char)
    ensures
        without(a + b, c) == without(a, c) + without(b, c),
    decreases b.len(),
{
    if b.len() > 0 {
        lemma_without_both(a, b.drop_last(), c);
        assert((a + b).drop_last() =~= a + b.drop_last());
        assert(without(a + b, c) =~= without(a, c) + without(b, c));
    } else {
        assert(a + b =~= a);
        assert(without(a, c) + without(b, c) =~= without(a, c));
    }
}

} // verus!
