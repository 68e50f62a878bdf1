//! The standing instructions of a session, and the notes that a single request
//! adds to them.
use vstd::prelude::*;

use crate::text;

verus! {

/// Who speaks, before the model's name.
pub const IDENTITY: &'static str =
    "You are the Local Companion, a local-first AI assistant running entirely on the user's PC (model: ";

/// The rest of the identity in a code session.
pub const CODE_IDENTITY: &'static str =
    "). \
    You are NOT a cloud chatbot: you can see the user's linked project and files described below, and the app can run approved tools for you. \
    Never claim you cannot interact with the user's project — describe what you can see and what to do next. \
    Be concise. Format code with fenced blocks.";

/// The rest of the identity in a chat.
pub const CHAT_IDENTITY: &'static str = "). \
    Be concise. Format code with fenced blocks.";

/// What a code session without a project says.
pub const NO_PROJECT: &'static str =
    "\n\n[Code session: no project linked yet. Ask the user to link a project directory, then offer /init to inspect it.]";

/// What comes before the listing of the linked project.
pub const PROJECT_HEADER: &'static str = "\n\n[Code session — linked project]\n";

/// How to inspect the linked project.
pub const PROJECT_GUIDE: &'static str =
    "\n\
    You can READ the project yourself with tool calls (no approval needed for reads). \
    When you need a file, emit exactly one tool call and wait for its result. Use this complete format with fence markers on separate lines:\n\
    ```tool\n{\"name\":\"read_file\",\"args\":{\"path\":\"README.md\"}}\n```\n\
    Explore according to the question: list directories, search relevant symbols, then inspect source, callers, tests and configuration. \
    Documentation is a starting point, not proof of current implementation. For implementation/status claims, verify relevant source and tests; do not stop at markdown or tools folders. \
    Follow relevant references inside this project, not every file indiscriminately. Distinguish documented plans from code you verified. \
    For a question about a named function, class, setting or error, FIRST use search_text for that symbol in the relevant directory/file, then read the matching line range and its callers/tests. \
    A search hit showing only a declaration is not the implementation. Immediately call read_file around that line to inspect the body before explaining what it does or returns. \
    The user's project question already authorizes necessary read-only inspection. Never ask 'would you like me to read more?' or stop with 'I would need to inspect' when another safe read can answer the current question. Perform that read now. \
    Do not page sequentially through thousands of lines looking for a symbol. If a chunk is unhelpful, change to a targeted search instead of reading the next unrelated chunk. A missing match in one excerpt does not mean the symbol is absent from the file. \
    The snapshot is a real directory listing; do not conclude a listed project is missing based on a text search.\n\
    Read tools: list_directory {\"path\": \".\"}, read_file {\"path\": \"src/main.cpp\", \"start_line\": 1, \"end_line\": 200}, \
    search_text {\"query\": \"temporal\", \"path\": \".\"} (regex), system_info {}, list_processes {}.\n\
    File reads return numbered chunks (200 lines by default, max 500 lines and about 12000 characters per chunk), total lines and continuation coordinates. \
    You can jump to ANY start_line/end_line, including deep into very large files. Use search match line numbers to read surrounding code. \
    Follow the returned start_line/start_column to read further chunks; omitted content has NOT been inspected. Cite paths and line ranges for code claims. \
    Results have evidence IDs such as chunk-1. After inspecting them, you may call manage_context {\"keep\":[\"chunk-1\"],\"release\":[\"chunk-2\"]} to retain important evidence or drop irrelevant chunks from working context. \
    Use actual returned IDs only. This never edits files or saved activity. Re-read released ranges if needed. As context fills, unmarked low-relevance chunks are released first, while your keep selections and latest result are protected. Keep only evidence essential to the answer. \
    You have up to 24 read-only actions this turn. Use them as needed for evidence, stop when the question is answered, and disclose remaining gaps. \
    Paths are workspace-relative and cannot escape. After tool results arrive, continue until you can \
    answer from files you actually read — never invent file contents.\n\
    Use the conversation to resolve follow-up references such as 'this project' and 'those tasks'. \
    If the linked folder contains sibling projects and the conversation identifies one, stay inside that project; \
    do not inspect unrelated siblings just because they appear in the tree.\n\
    Writes, edits, builds, commits and commands need approval: do NOT emit those tools here; \
    instead tell the user which command runs them: /init (inspect), /review [path], /plan <task>, \
    /build, /test [filter], /run <cmd>, /diff.";

/// What a chat can do.
pub const CHAT_SESSION: &'static str =
    "\n\n[Chat session: general assistant. Attached files appear as excerpts. Web search happens only when the user enables it.]";

/// The standing instructions of a session. They describe only what that
/// session can really do and teach no tool protocol it does not use.
pub open spec fn system_prompt(mode: Seq<char>, snapshot: Seq<char>, model: Seq<char>) -> Seq<char> {
    if mode == "code"@ {
        if snapshot.len() == 0 {
            IDENTITY@ + model + CODE_IDENTITY@ + NO_PROJECT@
        } else {
            IDENTITY@ + model + CODE_IDENTITY@ + PROJECT_HEADER@ + snapshot + PROJECT_GUIDE@
        }
    } else {
        IDENTITY@ + model + CHAT_IDENTITY@ + CHAT_SESSION@
    }
}

/// The standing instructions of a session.
pub fn build_system_prompt(mode: &str, snapshot: &str, model_name: &str) -> (p: String)
    ensures
        p@ == system_prompt(mode@, snapshot@, model_name@),
{
    let mut p = IDENTITY.to_owned();
    p.append(model_name);
    if text::same(mode, "code") {
        p.append(CODE_IDENTITY);
        if snapshot.is_empty() {
            p.append(NO_PROJECT);
        } else {
            p.append(PROJECT_HEADER);
            p.append(snapshot);
            p.append(PROJECT_GUIDE);
        }
    } else {
        p.append(CHAT_IDENTITY);
        p.append(CHAT_SESSION);
    }
    p
}

/// A chat's instructions do not depend on any project.
pub proof fn law_a_chat_prompt_knows_no_project(
    mode: Seq<char>,
    one: Seq<char>,
    other: Seq<char>,
    model: Seq<char>,
)
    requires
        mode != "code"@,
    ensures
        system_prompt(mode, one, model) == system_prompt(mode, other, model),
{
}

// ---- reasoning ----------------------------------------------------------------------

/// How one request reasons.
#[derive(Clone, Copy, Debug, PartialEq, Eq, Structural)]
pub enum ReasoningMode {
    Off,
    /// The model advertises reasoning of its own.
    Native,
    /// The model does not: it is asked for a longer, structured answer.
    Extended,
}

/// How deep to think for a budget.
pub open spec fn depth(budget: Seq<char>) -> Seq<char> {
    if budget == "low"@ {
        "Think briefly"@
    } else if budget == "high"@ {
        "Think very carefully, exploring alternatives"@
    } else {
        "Think step by step"@
    }
}

/// The instruction for a request that reasons.
pub open spec fn preface(budget: Seq<char>, native: bool) -> Seq<char> {
    if native {
        depth(budget) + " using your native reasoning mode, then answer."@
    } else {
        depth(budget)
            + " before answering. Give a concise explanation of your conclusions and useful next steps, not private step-by-step deliberation. This is an extended response budget, not a claim of native reasoning support."@
    }
}

/// The instruction for a request that reasons.
pub fn reasoning_preface(budget: &str, native: bool) -> (p: String)
    ensures
        p@ == preface(budget@, native),
{
    let mut p = if text::same(budget, "low") {
        "Think briefly".to_owned()
    } else if text::same(budget, "high") {
        "Think very carefully, exploring alternatives".to_owned()
    } else {
        "Think step by step".to_owned()
    };
    if native {
        p.append(" using your native reasoning mode, then answer.");
    } else {
        p.append(
            " before answering. Give a concise explanation of your conclusions and useful next steps, not private step-by-step deliberation. This is an extended response budget, not a claim of native reasoning support.",
        );
    }
    p
}

// ---- what changes during a conversation -----------------------------------------------

/// Stands in for the project listing inside the stable system prompt.
pub const LISTING_IN_LATEST_MESSAGE: &'static str =
    "(The project's current directory listing is attached to the latest message.)";

/// The listing, if there is one.
pub open spec fn listing_note(snapshot: Seq<char>) -> Seq<char> {
    if text::is_blank(snapshot) {
        Seq::empty()
    } else {
        "\n\n[Linked project: current directory listing]\n"@ + text::trimmed_end(snapshot)
    }
}

/// The saved memory, if there is any.
pub open spec fn memory_note(memory: Seq<char>) -> Seq<char> {
    if text::is_blank(memory) {
        Seq::empty()
    } else {
        "\n\n"@ + text::trimmed(memory)
    }
}

/// The changing context for the latest user turn: the listing, then the
/// memory.
pub open spec fn changing_context(snapshot: Seq<char>, memory: Seq<char>) -> Seq<char> {
    listing_note(snapshot) + memory_note(memory)
}

/// The changing context for the latest user turn.
pub fn changing_context_block(snapshot: &str, memory: &str) -> (b: String)
    ensures
        b@ == changing_context(snapshot@, memory@),
{
    let mut b = String::new();
    if !text::blank(snapshot) {
        b.append("\n\n[Linked project: current directory listing]\n");
        let listing = text::trim_end(snapshot);
        b.append(&listing);
    }
    assert(b@ =~= listing_note(snapshot@));
    if !text::blank(memory) {
        b.append("\n\n");
        let kept = text::trim(memory);
        b.append(&kept);
    }
    assert(b@ =~= changing_context(snapshot@, memory@));
    b
}

/// Every session tells the model its name first. A code session shows it the
/// whole listing of the project it is linked to, under the project's heading,
/// and says so where there is none; so two listings never give the same
/// instructions.
pub proof fn law_the_instructions_show_the_project(
    mode: Seq<char>,
    one: Seq<char>,
    other: Seq<char>,
    model: Seq<char>,
)
    ensures
        (IDENTITY@ + model).is_prefix_of(system_prompt(mode, one, model)),
        mode == "code"@ && one.len() > 0 ==> (IDENTITY@ + model + CODE_IDENTITY@
            + PROJECT_HEADER@ + one).is_prefix_of(system_prompt(mode, one, model)),
        mode == "code"@ && one.len() > 0 ==> PROJECT_GUIDE@.is_suffix_of(
            system_prompt(mode, one, model),
        ),
        mode == "code"@ && one.len() == 0 ==> NO_PROJECT@.is_suffix_of(
            system_prompt(mode, one, model),
        ),
        mode != "code"@ ==> CHAT_SESSION@.is_suffix_of(system_prompt(mode, one, model)),
        mode == "code"@ && one.len() > 0 && other.len() > 0 && one != other ==> system_prompt(
            mode,
            one,
            model,
        ) != system_prompt(mode, other, model),
{
    let p = system_prompt(mode, one, model);
    let q = system_prompt(mode, other, model);
    let name = IDENTITY@ + model;
    assert(name =~= p.subrange(0, name.len() as int));
    let head = name + CODE_IDENTITY@ + PROJECT_HEADER@;
    let n = head.len() as int;
    if mode == "code"@ {
        if one.len() > 0 {
            assert(head + one =~= p.subrange(0, (head + one).len() as int));
            assert(PROJECT_GUIDE@ =~= p.subrange(p.len() - PROJECT_GUIDE@.len(), p.len() as int));
            if other.len() > 0 && p == q {
                assert(one.len() == other.len());
                assert forall|i: int| 0 <= i < one.len() implies one[i] == other[i] by {
                    assert(p[n + i] == one[i]);
                    assert(q[n + i] == other[i]);
                }
                assert(one =~= other);
            }
        } else {
            assert(NO_PROJECT@ =~= p.subrange(p.len() - NO_PROJECT@.len(), p.len() as int));
        }
    } else {
        assert(CHAT_SESSION@ =~= p.subrange(p.len() - CHAT_SESSION@.len(), p.len() as int));
    }
}

/// The instruction to reason follows the budget, low, high or any other, and
/// says native reasoning only of a model that has it.
pub proof fn law_the_budget_sets_the_depth(budget: Seq<char>, native: bool)
    ensures
        budget == "low"@ <==> "Think briefly "@.is_prefix_of(preface(budget, native)),
        budget == "high"@ <==> "Think very carefully"@.is_prefix_of(preface(budget, native)),
        budget != "low"@ && budget != "high"@ <==> "Think step by step "@.is_prefix_of(
            preface(budget, native),
        ),
        preface(budget, true) != preface(budget, false),
        " using your native reasoning mode, then answer."@.is_suffix_of(preface(budget, true)),
{
    reveal_strlit("low");
    reveal_strlit("high");
    reveal_strlit("Think briefly ");
    reveal_strlit("Think very carefully");
    reveal_strlit("Think step by step ");
    reveal_strlit("Think briefly");
    reveal_strlit("Think very carefully, exploring alternatives");
    reveal_strlit("Think step by step");
    reveal_strlit(" using your native reasoning mode, then answer.");
    reveal_strlit(
        " before answering. Give a concise explanation of your conclusions and useful next steps, not private step-by-step deliberation. This is an extended response budget, not a claim of native reasoning support.",
    );
    let d = depth(budget);
    let p = preface(budget, native);
    assert("low"@.len() != "high"@.len());
    assert(forall|i: int| 0 <= i < d.len() ==> p[i] == d[i]);
    assert(p[d.len() as int] == ' ');
    let (low, high, other) = (
        "Think briefly "@,
        "Think very carefully"@,
        "Think step by step "@,
    );
    assert(low[6] == 'b' && high[6] == 'v' && other[6] == 's');
    assert(p[6] == d[6]);
    if budget == "low"@ {
        assert(low =~= p.subrange(0, low.len() as int));
        assert(d[6] == 'b');
    } else if budget == "high"@ {
        assert(high =~= p.subrange(0, high.len() as int));
        assert(d[6] == 'v');
    } else {
        assert(other =~= p.subrange(0, other.len() as int));
        assert(d[6] == 's');
    }
    if low.is_prefix_of(p) {
        assert(p.subrange(0, low.len() as int)[6] == p[6]);
    }
    if high.is_prefix_of(p) {
        assert(p.subrange(0, high.len() as int)[6] == p[6]);
    }
    if other.is_prefix_of(p) {
        assert(p.subrange(0, other.len() as int)[6] == p[6]);
    }
    let end = " using your native reasoning mode, then answer."@;
    let (yes, no) = (preface(budget, true), preface(budget, false));
    assert(end =~= yes.subrange(yes.len() - end.len(), yes.len() as int));
    assert(yes[1 + d.len() as int] == 'u' && no[1 + d.len() as int] == 'b');
}

/// What goes on the latest turn tells the listing, without the white space that
/// ends it, and then the memory, without the white space around it; what is
/// blank is not told, and of nothing there is nothing.
pub proof fn law_what_changes_is_told(snapshot: Seq<char>, memory: Seq<char>)
    ensures
        text::is_blank(snapshot) && text::is_blank(memory) ==> changing_context(snapshot, memory)
            == Seq::<char>::empty(),
        !text::is_blank(snapshot) ==> ("\n\n[Linked project: current directory listing]\n"@
            + text::trimmed_end(snapshot)).is_prefix_of(changing_context(snapshot, memory)),
        !text::is_blank(memory) ==> ("\n\n"@ + text::trimmed(memory)).is_suffix_of(
            changing_context(snapshot, memory),
        ),
        !text::is_blank(snapshot) && text::is_blank(memory) ==> text::trimmed_end(
            snapshot,
        ).is_suffix_of(changing_context(snapshot, memory)),
        text::is_blank(snapshot) && !text::is_blank(memory) ==> changing_context(snapshot, memory)
            == "\n\n"@ + text::trimmed(memory),
{
    let (a, b) = (listing_note(snapshot), memory_note(memory));
    let all = changing_context(snapshot, memory);
    assert(a =~= all.subrange(0, a.len() as int));
    assert(b =~= all.subrange(all.len() - b.len(), all.len() as int));
    let listed = text::trimmed_end(snapshot);
    if !text::is_blank(snapshot) && text::is_blank(memory) {
        assert(listed =~= all.subrange(all.len() - listed.len(), all.len() as int));
    }
    if text::is_blank(snapshot) {
        assert(all =~= b);
    }
}

} // verus!
