//! One chat message: whether it is taken, what the model is sent for it, and
//! what is kept and told of the reply.
use vstd::prelude::*;

use crate::decimal;
use crate::documents;
use crate::documents::DocumentPlan;
use crate::error;
use crate::error::{ApiError, Refusal};
use crate::history;
use crate::intent::AgentState;
use crate::prompt;
use crate::prompt::ReasoningMode;
use crate::text;
use crate::types;
use crate::types::{ChatTurn, Turn};

verus! {

/// Files on one message at most.
pub const MAX_CHAT_ATTACHMENTS: usize = 16;

// ---- taking the message ---------------------------------------------------------------

/// Why a chat message is refused.
pub open spec fn chat_refusal(message: Seq<char>, attachments: nat) -> Option<Refusal> {
    match error::content_refusal(message) {
        Some(refusal) => Some(refusal),
        None => if attachments > MAX_CHAT_ATTACHMENTS {
            Some(
                error::bad_request(
                    "too many attachments"@,
                    "Attach at most 16 files per message; large docs are chunked (§69)."@,
                ),
            )
        } else {
            None
        },
    }
}

/// Takes a chat message, and gives the conversation it belongs to, if any.
pub fn admit_chat(message: &str, attachments: usize, conversation_id: &str) -> (r: Result<
    Option<String>,
    ApiError,
>)
    ensures
        error::refusal_of(r) == chat_refusal(message@, attachments as nat),
        r matches Ok(id) ==> (match id {
            Some(id) => !text::is_blank(conversation_id@) && id@ == conversation_id@,
            None => text::is_blank(conversation_id@),
        }),
{
    match error::validate_content(message) {
        Ok(()) => {},
        Err(e) => return Err(e),
    }
    if attachments > MAX_CHAT_ATTACHMENTS {
        return Err(
            ApiError::bad(
                "too many attachments",
                "Attach at most 16 files per message; large docs are chunked (§69).",
            ),
        );
    }
    if text::blank(conversation_id) {
        Ok(None)
    } else {
        Ok(Some(conversation_id.to_owned()))
    }
}

/// The correction for a command that does not exist, so that no generation is
/// spent on a typing mistake.
pub fn unknown_command_hint(name: &str) -> (s: String)
    ensures
        s@ == "Unknown command '/"@ + name@ + "'. Try /help."@,
{
    let mut s = "Unknown command '/".to_owned();
    s.append(name);
    s.append("'. Try /help.");
    s
}

/// The refusal while the runtime is being changed.
pub fn runtime_busy() -> (e: ApiError)
    ensures
        e@ == (Refusal {
            status: 409,
            message: "The model runtime is being updated."@,
            hint: "Wait for the model to finish loading, then send your message."@,
        }),
{
    ApiError::new(
        409,
        "The model runtime is being updated.",
        "Wait for the model to finish loading, then send your message.",
    )
}

/// A command as it is saved in the conversation.
pub fn command_line(name: &str, args: &str) -> (s: String)
    ensures
        s@ == (if args@.len() == 0 {
            "/"@ + name@
        } else {
            "/"@ + name@ + " "@ + args@
        }),
{
    let mut s = "/".to_owned();
    s.append(name);
    if !args.is_empty() {
        s.append(" ");
        s.append(args);
    }
    s
}

// ---- without a model -----------------------------------------------------------------

/// The reply without a running model: the message's words where a model is
/// marked loaded, else what to do.
pub open spec fn stub(loaded: bool, message: Seq<char>) -> Seq<char> {
    if loaded {
        text::joined(text::words(message), " "@)
    } else {
        "No model loaded. Load a model first."@
    }
}

/// The reply without a running model.
pub fn stub_reply(loaded: bool, message: &str) -> (s: String)
    ensures
        s@ == stub(loaded, message@),
{
    if loaded {
        let words = text::split_words(message);
        text::join(&words, " ")
    } else {
        "No model loaded. Load a model first.".to_owned()
    }
}

/// What is answered when no runtime is live. A model that is merely marked
/// loaded never produces an echo: its runtime has stopped.
pub fn no_runtime_reply(marked_loaded: bool, message: &str) -> (s: String)
    ensures
        s@ == (if marked_loaded {
            "The model runtime stopped unexpectedly. Reload the model and send your message again; your message was saved."@
        } else {
            stub(false, message@)
        }),
{
    if marked_loaded {
        "The model runtime stopped unexpectedly. Reload the model and send your message again; your message was saved.".to_owned()
    } else {
        stub_reply(false, message)
    }
}

/// A complete text as the tokens it is streamed in: its words, each with a
/// space after it.
pub fn word_tokens(full: &str) -> (r: Vec<String>)
    ensures
        r@.len() == text::words(full@).len(),
        forall|i: int|
            0 <= i < r@.len() ==> (#[trigger] r@[i])@ == text::words(full@)[i] + " "@,
{
    let words = text::split_words(full);
    let ghost all = types::texts(words@);
    let mut r: Vec<String> = Vec::new();
    let mut i: usize = 0;
    while i < words.len()
        invariant
            i <= words@.len(),
            all == types::texts(words@),
            r@.len() == i,
            forall|k: int| 0 <= k < i ==> (#[trigger] r@[k])@ == all[k] + " "@,
        decreases words@.len() - i,
    {
        let mut t = words[i].clone();
        t.append(" ");
        r.push(t);
        i += 1;
    }
    r
}

// ---- what the request asks for -----------------------------------------------------------

/// How a request reasons, given what is on by default.
pub open spec fn reasoning_for(asked: Option<bool>, default: bool, native: bool) -> ReasoningMode {
    if !(match asked {
        Some(on) => on,
        None => default,
    }) {
        ReasoningMode::Off
    } else if native {
        ReasoningMode::Native
    } else {
        ReasoningMode::Extended
    }
}

/// The message decides how its request reasons where it says anything, and else
/// what is on by default does. A request that reasons uses the model's own
/// reasoning exactly where the model has it.
pub proof fn law_the_message_decides_on_reasoning(asked: bool, default: bool, native: bool)
    ensures
        reasoning_for(Some(asked), default, native) == ReasoningMode::Off <==> !asked,
        reasoning_for(None, default, native) == reasoning_for(Some(default), !default, native),
        reasoning_for(Some(true), default, true) == ReasoningMode::Native,
        reasoning_for(Some(true), default, false) == ReasoningMode::Extended,
{
}

/// How a request reasons: as the message asks, and where it asks nothing if the
/// conversation or else the setting turns reasoning on; a model without
/// reasoning of its own is asked for a longer answer.
pub fn resolve_reasoning(
    asked: Option<bool>,
    conversation_default: bool,
    setting_default: bool,
    native: bool,
) -> (r: ReasoningMode)
    ensures
        r == reasoning_for(asked, conversation_default || setting_default, native),
{
    let wanted = match asked {
        Some(on) => on,
        None => conversation_default || setting_default,
    };
    if !wanted {
        ReasoningMode::Off
    } else if native {
        ReasoningMode::Native
    } else {
        ReasoningMode::Extended
    }
}

/// The web is searched.
pub open spec fn web_asked(asked: Option<bool>, conversation_default: bool) -> bool {
    match asked {
        Some(on) => on,
        None => conversation_default,
    }
}

/// Nothing is searched for unless the message or its conversation asks, and a
/// message that says no is never searched for.
pub proof fn law_no_search_unasked(conversation_default: bool)
    ensures
        !web_asked(None, false),
        !web_asked(Some(false), conversation_default),
        web_asked(Some(true), conversation_default),
        web_asked(None, true),
{
}

/// Whether the web is searched: only where the message or the conversation
/// turns it on. There is no global switch.
pub fn resolve_search(asked: Option<bool>, conversation_default: bool) -> (r: bool)
    ensures
        r == web_asked(asked, conversation_default),
{
    match asked {
        Some(on) => on,
        None => conversation_default,
    }
}

/// The conversation is compacted before the reply.
pub open spec fn is_due(
    in_conversation: bool,
    automatic: bool,
    usage_pct: u32,
    threshold_pct: u32,
) -> bool {
    in_conversation && automatic && usage_pct >= threshold_pct
}

/// Nothing is compacted by itself while that is off, outside a conversation or
/// below the threshold; from the threshold on a conversation is.
pub proof fn law_compaction_waits_for_the_threshold(usage: u32, more: u32, threshold: u32)
    requires
        usage <= more,
    ensures
        !is_due(true, false, usage, threshold),
        !is_due(false, true, usage, threshold),
        usage < threshold ==> !is_due(true, true, usage, threshold),
        is_due(true, true, threshold, threshold),
        is_due(true, true, usage, threshold) ==> is_due(true, true, more, threshold),
{
}

/// Whether the conversation is compacted before the reply: automatic
/// compaction is on and history has reached the threshold.
pub fn compaction_due(
    in_conversation: bool,
    automatic: bool,
    usage_pct: u32,
    threshold_pct: u32,
) -> (r: bool)
    ensures
        r == is_due(in_conversation, automatic, usage_pct, threshold_pct),
{
    in_conversation && automatic && usage_pct >= threshold_pct
}

/// Characters kept as they are when a conversation is compacted.
pub open spec fn room_kept(room_chars: int) -> int {
    room_chars * 2 / 5
}

/// Two fifths of the room are kept, rounded down: a compaction leaves the room
/// less than half full, and so below every threshold that can be set.
pub proof fn law_a_compaction_leaves_room(room_chars: int)
    requires
        0 <= room_chars,
    ensures
        5 * room_kept(room_chars) <= 2 * room_chars < 5 * room_kept(room_chars) + 5,
        room_chars > 0 ==> 2 * room_kept(room_chars) < room_chars,
{
}

/// Characters kept as they are when a conversation is compacted: two fifths
/// of the room, so that the result lands well under the threshold.
pub fn compaction_room(room_chars: usize) -> (r: usize)
    ensures
        r == room_kept(room_chars as int),
{
    ((room_chars as u128 * 2) / 5) as usize
}

/// What is added to the instructions of a request that goes on with a task.
pub open spec fn resumed(task: Option<Seq<char>>) -> Seq<char> {
    match task {
        Some(task) =>
            "\nThe user's continuation refers only to this saved unfinished task in this same project: "@
            + task
            + "\nThis Ask reply remains read-only; continue inspection or explanation, never implement changes."@,
        None => Seq::empty(),
    }
}

/// What is added to the instructions of a request that goes on with a task.
pub fn resumed_note(task: Option<&str>) -> (s: String)
    ensures
        s@ == resumed(match task {
            Some(t) => Some(t@),
            None => None,
        }),
{
    match task {
        Some(task) => {
            let mut s =
                "\nThe user's continuation refers only to this saved unfinished task in this same project: ".to_owned();
            s.append(task);
            s.append(
                "\nThis Ask reply remains read-only; continue inspection or explanation, never implement changes.",
            );
            s
        },
        None => String::new(),
    }
}

/// What the user is told while the conversation is compacted.
pub fn compacting_status(pct: u32, threshold_pct: u32) -> (s: String)
    ensures
        s@ == "Compacting the conversation: "@ + decimal::digits(pct as nat)
            + "% of the usable context is in use (automatic compaction starts at "@
            + decimal::digits(threshold_pct as nat)
            + "%). The reply starts when the summary is ready…"@,
{
    let mut s = "Compacting the conversation: ".to_owned();
    let p = decimal::decimal(pct as u64);
    s.append(&p);
    s.append("% of the usable context is in use (automatic compaction starts at ");
    let t = decimal::decimal(threshold_pct as u64);
    s.append(&t);
    s.append("%). The reply starts when the summary is ready…");
    s
}

/// What the user is told once it is.
pub fn compacted_status(messages: usize, before_chars: usize, after_chars: usize) -> (s: String)
    ensures
        s@ == "Conversation compacted: "@ + decimal::digits(messages as nat)
            + " older messages summarized ("@ + decimal::digits(before_chars as nat) + " → "@
            + decimal::digits(after_chars as nat) + " characters). Writing the reply…"@,
{
    let mut s = "Conversation compacted: ".to_owned();
    let m = decimal::decimal(messages as u64);
    s.append(&m);
    s.append(" older messages summarized (");
    let b = decimal::decimal(before_chars as u64);
    s.append(&b);
    s.append(" → ");
    let a = decimal::decimal(after_chars as u64);
    s.append(&a);
    s.append(" characters). Writing the reply…");
    s
}

// ---- the web ---------------------------------------------------------------------------

/// One search result.
#[derive(Debug, PartialEq, Eq)]
pub struct SearchHit {
    pub title: String,
    pub url: String,
    pub snippet: String,
}

/// What the model is told when a search finds nothing.
pub const NO_WEB_RESULTS: &'static str =
    "\n\n[Web search returned no results. Answer from local knowledge and say so.]";

/// What the model is told when a search fails.
pub const WEB_FAILED: &'static str =
    "\n\n[Web search failed. Answer from local knowledge and say search was unavailable.]";

/// One result as the model sees it.
pub open spec fn hit_lines(number: nat, hit: SearchHit) -> Seq<char> {
    decimal::digits(number) + ". "@ + hit.title@ + " ("@ + hit.url@ + ")\n"@ + hit.snippet@ + "\n"@
}

/// The first `n` results as the model sees them, numbered from one.
pub open spec fn hits_listed(hits: Seq<SearchHit>, n: int) -> Seq<char>
    decreases n,
{
    if n <= 0 {
        Seq::empty()
    } else {
        hits_listed(hits, n - 1) + hit_lines(n as nat, hits[n - 1])
    }
}

/// The web context of a request.
pub open spec fn web_context(provider: Seq<char>, hits: Seq<SearchHit>) -> Seq<char> {
    if hits.len() == 0 {
        NO_WEB_RESULTS@
    } else {
        "\n\n[Web search results via "@ + provider
            + " — cite favorite sources as Sources 1..N]\n"@ + hits_listed(hits, hits.len() as int)
    }
}

/// The web context of a request.
pub fn web_block(provider: &str, hits: &[SearchHit]) -> (s: String)
    ensures
        s@ == web_context(provider@, hits@),
{
    if hits.len() == 0 {
        return NO_WEB_RESULTS.to_owned();
    }
    let mut listed = String::new();
    let mut i: usize = 0;
    assert(listed@ =~= hits_listed(hits@, 0));
    while i < hits.len()
        invariant
            i <= hits@.len(),
            listed@ == hits_listed(hits@, i as int),
        decreases hits@.len() - i,
    {
        let mut line = decimal::decimal(i as u64 + 1);
        line.append(". ");
        line.append(&hits[i].title);
        line.append(" (");
        line.append(&hits[i].url);
        line.append(")\n");
        line.append(&hits[i].snippet);
        line.append("\n");
        listed.append(&line);
        i += 1;
    }
    let mut s = "\n\n[Web search results via ".to_owned();
    s.append(provider);
    s.append(" — cite favorite sources as Sources 1..N]\n");
    s.append(&listed);
    s
}

/// How many numbered lines a text has: its lines that begin with a digit.
pub open spec fn numbered_lines(s: Seq<char>, n: int) -> nat
    decreases n,
{
    if n <= 0 {
        0
    } else {
        numbered_lines(s, n - 1) + (if '0' <= s[n - 1] <= '9' && (n == 1 || s[n - 2] == '\n') {
            1nat
        } else {
            0nat
        })
    }
}

/// How many sources a reply's citations list.
pub fn source_count(citations: &str) -> (r: usize)
    ensures
        r == numbered_lines(citations@, citations@.len() as int),
{
    let v = text::chars_of(citations);
    let mut count: usize = 0;
    let mut i: usize = 0;
    while i < v.len()
        invariant
            i <= v@.len(),
            v@ == citations@,
            count <= i,
            count == numbered_lines(v@, i as int),
        decreases v@.len() - i,
    {
        if '0' <= v[i] && v[i] <= '9' && (i == 0 || v[i - 1] == '\n') {
            count += 1;
        }
        i += 1;
    }
    count
}

// ---- the turns of the request ----------------------------------------------------------

/// A note at the end of the last user turn, where there is one.
pub open spec fn noted(turns: Seq<Turn>, note: Seq<char>) -> Seq<Turn> {
    match history::last_user(turns, turns.len() as int) {
        Some(i) => turns.update(i, history::with_note(turns[i], note)),
        None => turns,
    }
}

/// Puts a note at the end of the last user turn.
pub fn note_on_question(turns: &mut Vec<ChatTurn>, note: &str)
    ensures
        types::turns(final(turns)@) == noted(types::turns(old(turns)@), note@),
        final(turns)@.len() == old(turns)@.len(),
{
    proof {
        history::lemma_last_user(types::turns(turns@), turns@.len() as int);
    }
    if let Some(i) = history::latest_user_turn(turns) {
        turns[i].content.append(note);
        assert(types::turns(turns@) =~= noted(types::turns(old(turns)@), note@));
    }
}

/// The system turn, then the history with the reasoning instruction: on the
/// latest user turn, so that turning reasoning on or off leaves every earlier
/// turn as it is, or second where the earlier layout is asked for.
pub open spec fn instructed(
    turns: Seq<Turn>,
    system: Seq<char>,
    reasoning: ReasoningMode,
    budget: Seq<char>,
    legacy: bool,
) -> Seq<Turn> {
    let led = seq![types::text_turn("system"@, system)] + turns;
    if reasoning == ReasoningMode::Off {
        led
    } else {
        let instruction = prompt::preface(budget, reasoning == ReasoningMode::Native);
        if legacy {
            seq![types::text_turn("system"@, system), types::text_turn("system"@, instruction)]
                + turns
        } else {
            noted(led, "\n\n"@ + instruction)
        }
    }
}

/// The turns of a chat request before anything is known of the project.
pub open spec fn chat_turns(
    turns: Seq<Turn>,
    system: Seq<char>,
    reasoning: ReasoningMode,
    budget: Seq<char>,
    legacy: bool,
    web: Seq<char>,
    plan: DocumentPlan,
) -> Seq<Turn> {
    noted(
        noted(instructed(turns, system, reasoning, budget, legacy), web),
        documents::plan_note(plan),
    )
}

/// Builds the turns of a chat request: the system turn, the history, and on
/// the latest user turn the reasoning instruction, the web context and the
/// document note.
pub fn shape_chat_turns(
    turns: &mut Vec<ChatTurn>,
    system: String,
    reasoning: ReasoningMode,
    budget: &str,
    legacy: bool,
    web: &str,
    plan: &DocumentPlan,
)
    ensures
        types::turns(final(turns)@) == chat_turns(
            types::turns(old(turns)@),
            system@,
            reasoning,
            budget@,
            legacy,
            web@,
            *plan,
        ),
{
    let ghost before = types::turns(turns@);
    turns.insert(0, ChatTurn::text("system", system));
    let ghost led = seq![types::text_turn("system"@, system@)] + before;
    assert(types::turns(turns@) =~= led);
    if reasoning != ReasoningMode::Off {
        let instruction = prompt::reasoning_preface(budget, reasoning == ReasoningMode::Native);
        if legacy {
            let ghost shown = instruction@;
            turns.insert(1, ChatTurn::text("system", instruction));
            assert(types::turns(turns@) =~= instructed(before, system@, reasoning, budget@, legacy))
                by {
                assert(types::turns(turns@)[1] == types::text_turn("system"@, shown));
            }
        } else {
            let mut note = "\n\n".to_owned();
            note.append(&instruction);
            note_on_question(turns, &note);
        }
    }
    assert(types::turns(turns@) == instructed(before, system@, reasoning, budget@, legacy));
    note_on_question(turns, web);
    let note = documents::plan_note_of(plan);
    note_on_question(turns, &note);
}

/// What a request says of files that the index finds relevant.
pub open spec fn relevant_files(names: Seq<Seq<char>>) -> Seq<char> {
    "\n\n[Relevant files (repo index): "@ + text::joined(names, ", "@)
        + ". Read the ones that matter with read_file before answering.]"@
}

/// Names the relevant files on the latest user turn, if there are any.
pub fn note_relevant_files(turns: &mut Vec<ChatTurn>, names: &[String])
    ensures
        types::turns(final(turns)@) == (if names@.len() == 0 {
            types::turns(old(turns)@)
        } else {
            noted(types::turns(old(turns)@), relevant_files(types::texts(names@)))
        }),
{
    if names.len() == 0 {
        return;
    }
    let mut note = "\n\n[Relevant files (repo index): ".to_owned();
    let list = text::join(names, ", ");
    note.append(&list);
    note.append(". Read the ones that matter with read_file before answering.]");
    note_on_question(turns, &note);
}

/// Turning reasoning on or off, a web search or a file request changes
/// nothing but the latest user turn: every other turn stays as it was.
pub proof fn law_options_touch_the_question_only(
    turns: Seq<Turn>,
    system: Seq<char>,
    reasoning: ReasoningMode,
    budget: Seq<char>,
    web: Seq<char>,
    plan: DocumentPlan,
    k: int,
)
    requires
        0 <= k < turns.len(),
        history::last_user(turns, turns.len() as int) != Some(k),
    ensures
        ({
            let sent = chat_turns(turns, system, reasoning, budget, false, web, plan);
            &&& sent.len() == turns.len() + 1
            &&& sent[0] == types::text_turn("system"@, system)
            &&& sent[k + 1] == turns[k]
        }),
{
    let led = seq![types::text_turn("system"@, system)] + turns;
    lemma_last_user_shifts(turns, types::text_turn("system"@, system), turns.len() as int);
    reveal_strlit("system");
    reveal_strlit("user");
    assert("system"@.len() != "user"@.len());
    let one = instructed(turns, system, reasoning, budget, false);
    let two = noted(one, web);
    history::lemma_last_user(led, led.len() as int);
    lemma_noted_last_user(led, "\n\n"@ + prompt::preface(budget, reasoning == ReasoningMode::Native));
    lemma_noted_last_user(one, web);
    lemma_noted_last_user(two, documents::plan_note(plan));
}

/// A system turn in front moves the last user turn by one.
proof fn lemma_last_user_shifts(turns: Seq<Turn>, first: Turn, n: int)
    requires
        first.role == "system"@,
        0 <= n <= turns.len(),
    ensures
        history::last_user(seq![first] + turns, n + 1) == (match history::last_user(turns, n) {
            Some(i) => Some(i + 1),
            None => None,
        }),
    decreases n,
{
    reveal_strlit("system");
    reveal_strlit("user");
    assert("system"@.len() != "user"@.len());
    let led = seq![first] + turns;
    if n > 0 {
        assert(led[n] == turns[n - 1]);
        lemma_last_user_shifts(turns, first, n - 1);
    } else {
        assert(led[0] == first);
        assert(history::last_user(led, 0) is None);
    }
}

/// A note changes the last user turn alone and leaves it the last.
proof fn lemma_noted_last_user(turns: Seq<Turn>, note: Seq<char>)
    ensures
        noted(turns, note).len() == turns.len(),
        history::last_user(noted(turns, note), turns.len() as int) == history::last_user(
            turns,
            turns.len() as int,
        ),
        forall|k: int|
            0 <= k < turns.len() && history::last_user(turns, turns.len() as int) != Some(k)
                ==> #[trigger] noted(turns, note)[k] == turns[k],
{
    history::lemma_last_user(turns, turns.len() as int);
    let after = noted(turns, note);
    assert forall|i: int| 0 <= i < turns.len() implies (#[trigger] after[i]).role
        == turns[i].role by {}
    lemma_last_user_by_roles(turns, after, turns.len() as int);
}

proof fn lemma_last_user_by_roles(one: Seq<Turn>, other: Seq<Turn>, n: int)
    requires
        one.len() == other.len(),
        0 <= n <= one.len(),
        forall|i: int| 0 <= i < one.len() ==> (#[trigger] other[i]).role == one[i].role,
    ensures
        history::last_user(other, n) == history::last_user(one, n),
    decreases n,
{
    if n > 0 {
        assert(other[n - 1].role == one[n - 1].role);
        lemma_last_user_by_roles(one, other, n - 1);
    }
}

// ---- how the reply ends ------------------------------------------------------------------

/// The reply as it is saved: its citations with it.
pub fn stored_reply(full: &str, citations: &str) -> (s: String)
    ensures
        s@ == full@ + citations@,
{
    let mut s = full.to_owned();
    s.append(citations);
    s
}

/// What is saved of a reply that failed: what there is of it, or why.
pub fn interrupted_reply(stored: &str, error: &str) -> (s: String)
    ensures
        s@ == (if stored@.len() == 0 {
            "Inference interrupted: "@ + error@
        } else {
            stored@
        }),
{
    if stored.is_empty() {
        let mut s = "Inference interrupted: ".to_owned();
        s.append(error);
        s
    } else {
        stored.to_owned()
    }
}

/// How the reply reasoned, as the client is told.
pub open spec fn reasoned(mode: ReasoningMode, seen: bool) -> Seq<char> {
    match mode {
        ReasoningMode::Off => if seen {
            "native"@
        } else {
            "off"@
        },
        ReasoningMode::Native => "native"@,
        ReasoningMode::Extended => "extended"@,
    }
}

/// A reply is told as one without reasoning only where none was asked for and
/// none was seen, and as one with native reasoning never where it was only asked
/// to take longer.
pub proof fn law_reasoning_is_told_as_it_was(mode: ReasoningMode, seen: bool)
    ensures
        reasoned(mode, seen) == "off"@ <==> mode == ReasoningMode::Off && !seen,
        reasoned(mode, seen) == "extended"@ <==> mode == ReasoningMode::Extended,
        reasoned(mode, seen) == "native"@ <==> mode == ReasoningMode::Native || (mode
            == ReasoningMode::Off && seen),
{
    reveal_strlit("off");
    reveal_strlit("native");
    reveal_strlit("extended");
    assert("off"@.len() == 3 && "native"@.len() == 6 && "extended"@.len() == 8);
}

/// How the reply reasoned, as the client is told: what was seen counts over
/// what was asked.
pub fn reasoning_label(mode: ReasoningMode, seen: bool) -> (s: &'static str)
    ensures
        s@ == reasoned(mode, seen),
{
    match mode {
        ReasoningMode::Off => if seen {
            "native"
        } else {
            "off"
        },
        ReasoningMode::Native => "native",
        ReasoningMode::Extended => "extended",
    }
}

/// Whether the client is told that images were not seen.
pub fn vision_label(images_skipped: usize) -> (s: &'static str)
    ensures
        s@ == (if images_skipped > 0 {
            "unsupported"@
        } else {
            "off"@
        }),
{
    if images_skipped > 0 {
        "unsupported"
    } else {
        "off"
    }
}

/// The closing activity of a code session's reply that was stopped or ran
/// into the action limit.
pub fn closing_activity(cancelled: bool, pending_tool_limit: bool) -> (r: Option<
    (AgentState, &'static str),
>)
    ensures
        match r {
            Some((state, t)) => (cancelled && state == AgentState::Cancelled && t@
                == "Stopped. Completed inspections were kept."@) || (!cancelled
                && pending_tool_limit && state == AgentState::Completed && t@
                == "The read-only inspection reached its per-turn action limit. Any additional requested actions were not run; ask a follow-up to continue."@),
            None => !cancelled && !pending_tool_limit,
        },
{
    if cancelled {
        Some((AgentState::Cancelled, "Stopped. Completed inspections were kept."))
    } else if pending_tool_limit {
        Some(
            (
                AgentState::Completed,
                "The read-only inspection reached its per-turn action limit. Any additional requested actions were not run; ask a follow-up to continue.",
            ),
        )
    } else {
        None
    }
}

/// The activity of a code session's reply that failed.
pub fn failed_activity(cancelled: bool, error: &str) -> (r: (AgentState, String))
    ensures
        cancelled ==> r.0 == AgentState::Cancelled && r.1@ == "Stopped. Partial work was kept."@,
        !cancelled ==> r.0 == AgentState::Failed && r.1@ == "Inference interrupted: "@ + error@
            + ". Partial work was kept."@,
{
    if cancelled {
        (AgentState::Cancelled, "Stopped. Partial work was kept.".to_owned())
    } else {
        let mut s = "Inference interrupted: ".to_owned();
        s.append(error);
        s.append(". Partial work was kept.");
        (AgentState::Failed, s)
    }
}

/// The file that a reply is saved as: its name and what it holds.
pub open spec fn file_of(
    plan: DocumentPlan,
    message: Seq<char>,
    reply: Seq<char>,
    failed: bool,
    cancelled: bool,
) -> Option<(Seq<char>, Seq<char>)> {
    match plan {
        DocumentPlan::Plain(kind) => if failed || cancelled || text::is_blank(
            documents::document_body(reply),
        ) {
            None
        } else {
            Some(
                (
                    documents::file_name(documents::words_of(message), kind@),
                    documents::document_body(reply),
                ),
            )
        },
        _ => None,
    }
}

/// Only a whole reply to a request for a plain file becomes one: not a reply that
/// failed or was stopped, nor an empty one. The file is of the kind asked for and
/// holds what the reply says.
pub proof fn law_only_a_whole_reply_becomes_a_file(
    plan: DocumentPlan,
    message: Seq<char>,
    reply: Seq<char>,
    failed: bool,
    cancelled: bool,
)
    ensures
        file_of(plan, message, reply, failed, cancelled) is Some <==> plan is Plain && !failed
            && !cancelled && !text::is_blank(documents::document_body(reply)),
        file_of(plan, message, reply, failed, cancelled) matches Some((name, body)) ==> {
            &&& ("."@ + plan->Plain_0@).is_suffix_of(name)
            &&& body == documents::document_body(reply)
        },
{
    if let DocumentPlan::Plain(kind) = plan {
        documents::law_a_file_is_named_by_the_request(documents::words_of(message), kind@);
    }
}

/// The file that a reply is, where the plan says so: its name and content. A
/// failed, stopped or blank reply is none.
pub fn reply_as_file(
    plan: &DocumentPlan,
    message: &str,
    reply: &str,
    failed: bool,
    cancelled: bool,
) -> (r: Option<(String, String)>)
    ensures
        match r {
            Some((name, body)) => file_of(*plan, message@, reply@, failed, cancelled) == Some(
                (name@, body@),
            ),
            None => file_of(*plan, message@, reply@, failed, cancelled) is None,
        },
{
    match plan {
        DocumentPlan::Plain(kind) => {
            if failed || cancelled {
                return None;
            }
            let body = documents::plain_document_body(reply);
            if text::blank(&body) {
                return None;
            }
            Some((documents::plain_document_filename(message, kind), body))
        },
        _ => None,
    }
}

/// What the reply adds once its file is saved.
pub fn saved_file_note(saved_as: &str) -> (s: String)
    ensures
        s@ == "\n\nSaved as "@ + saved_as@ + " in this conversation's Artifacts panel."@,
{
    let mut s = "\n\nSaved as ".to_owned();
    s.append(saved_as);
    s.append(" in this conversation's Artifacts panel.");
    s
}

// ---- what the question carries -------------------------------------------------------------

/// The latest user turn carries what the request adds, in this order behind
/// what the user said: the instruction to reason where the request reasons, what
/// the web gave, and what is said of a file that was asked for.
pub proof fn law_the_question_carries_the_options(
    turns: Seq<Turn>,
    system: Seq<char>,
    reasoning: ReasoningMode,
    budget: Seq<char>,
    web: Seq<char>,
    plan: DocumentPlan,
    q: int,
)
    requires
        history::last_user(turns, turns.len() as int) == Some(q),
    ensures
        ({
            let sent = chat_turns(turns, system, reasoning, budget, false, web, plan);
            let asked = if reasoning == ReasoningMode::Off {
                turns[q].content
            } else {
                turns[q].content + ("\n\n"@ + prompt::preface(
                    budget,
                    reasoning == ReasoningMode::Native,
                ))
            };
            &&& sent[q + 1].role == "user"@
            &&& sent[q + 1].images == turns[q].images
            &&& sent[q + 1].content == asked + web + documents::plan_note(plan)
        }),
{
    let first = types::text_turn("system"@, system);
    let led = seq![first] + turns;
    lemma_last_user_shifts(turns, first, turns.len() as int);
    history::lemma_last_user(turns, turns.len() as int);
    assert(led.len() == turns.len() + 1);
    assert(history::last_user(led, led.len() as int) == Some(q + 1));
    assert(led[q + 1] == turns[q]);
    let one = instructed(turns, system, reasoning, budget, false);
    if reasoning != ReasoningMode::Off {
        lemma_noted_last_user(
            led,
            "\n\n"@ + prompt::preface(budget, reasoning == ReasoningMode::Native),
        );
    }
    lemma_noted_last_user(one, web);
    let two = noted(one, web);
    lemma_noted_last_user(two, documents::plan_note(plan));
}

/// A note goes at the end of the latest user turn and changes nothing else;
/// where no turn is the user's it goes nowhere.
pub proof fn law_a_note_goes_on_the_question(turns: Seq<Turn>, note: Seq<char>, k: int)
    requires
        0 <= k < turns.len(),
    ensures
        noted(turns, note).len() == turns.len(),
        turns[k].role == "user"@ && (forall|j: int|
            k < j < turns.len() ==> (#[trigger] turns[j]).role != "user"@) ==> {
            &&& noted(turns, note)[k].content == turns[k].content + note
            &&& noted(turns, note)[k].role == "user"@
            &&& noted(turns, note)[k].images == turns[k].images
        },
        turns[k].role != "user"@ ==> noted(turns, note)[k] == turns[k],
        (exists|j: int| k < j < turns.len() && (#[trigger] turns[j]).role == "user"@) ==> noted(
            turns,
            note,
        )[k] == turns[k],
{
    history::lemma_last_user(turns, turns.len() as int);
    history::lemma_no_last_user(turns, turns.len() as int);
    lemma_noted_last_user(turns, note);
}

/// The model sees every result of a search: its number from one, its title, its
/// address and what it says, in the order they were found, below the provider.
pub proof fn law_the_model_sees_every_result(provider: Seq<char>, hits: Seq<SearchHit>, k: int)
    requires
        0 <= k < hits.len(),
    ensures
        (hits_listed(hits, k) + (decimal::digits((k + 1) as nat) + ". "@ + hits[k].title@ + " ("@
            + hits[k].url@ + ")\n"@ + hits[k].snippet@ + "\n"@)).is_prefix_of(
            hits_listed(hits, hits.len() as int),
        ),
        hits_listed(hits, hits.len() as int).is_suffix_of(web_context(provider, hits)),
        ("\n\n[Web search results via "@ + provider).is_prefix_of(web_context(provider, hits)),
{
    lemma_hits_listed(hits, k, hits.len() as int);
    let all = hits_listed(hits, hits.len() as int);
    let told = web_context(provider, hits);
    let head = "\n\n[Web search results via "@ + provider;
    assert(all =~= told.subrange(told.len() - all.len(), told.len() as int));
    assert(head =~= told.subrange(0, head.len() as int));
}

proof fn lemma_hits_listed(hits: Seq<SearchHit>, k: int, n: int)
    requires
        0 <= k < n <= hits.len(),
    ensures
        hits_listed(hits, k + 1).is_prefix_of(hits_listed(hits, n)),
    decreases n,
{
    let part = hits_listed(hits, k + 1);
    if k + 1 < n {
        lemma_hits_listed(hits, k, n - 1);
        assert(part =~= hits_listed(hits, n).subrange(0, part.len() as int));
    } else {
        assert(part =~= part.subrange(0, part.len() as int));
    }
}

proof fn lemma_numbered_of_first(a: Seq<char>, b: Seq<char>, n: int)
    requires
        0 <= n <= a.len(),
    ensures
        numbered_lines(a + b, n) == numbered_lines(a, n),
    decreases n,
{
    if n > 0 {
        lemma_numbered_of_first(a, b, n - 1);
    }
}

proof fn lemma_numbered_of_rest(a: Seq<char>, b: Seq<char>, n: int)
    requires
        0 <= n <= b.len(),
    ensures
        numbered_lines(a + seq!['\n'] + b, a.len() + 1 + n) == numbered_lines(a, a.len() as int)
            + numbered_lines(b, n),
    decreases n,
{
    let s = a + seq!['\n'] + b;
    if n > 0 {
        lemma_numbered_of_rest(a, b, n - 1);
        assert(s[a.len() + n] == b[n - 1]);
        if n > 1 {
            assert(s[a.len() + n - 1] == b[n - 2]);
        } else {
            assert(s[a.len() as int] == '\n');
        }
    } else {
        assert(s =~= a + (seq!['\n'] + b));
        lemma_numbered_of_first(a, seq!['\n'] + b, a.len() as int);
        assert(s[a.len() as int] == '\n');
    }
}

proof fn lemma_numbered_in_one_line(s: Seq<char>, n: int)
    requires
        !s.contains('\n'),
        0 < n <= s.len(),
    ensures
        numbered_lines(s, n) == (if '0' <= s[0] <= '9' {
            1nat
        } else {
            0
        }),
    decreases n,
{
    if n > 1 {
        lemma_numbered_in_one_line(s, n - 1);
        assert(s.contains(s[n - 2]));
    } else {
        reveal_with_fuel(numbered_lines, 2);
    }
}

/// A reply has as many sources as its citations have lines that begin with a
/// digit: such a line counts for one, any other for none, and lines in a row
/// count together.
pub proof fn law_sources_are_numbered_lines(a: Seq<char>, b: Seq<char>)
    requires
        !a.contains('\n'),
    ensures
        a.len() > 0 ==> numbered_lines(a, a.len() as int) == (if '0' <= a[0] <= '9' {
            1nat
        } else {
            0
        }),
        numbered_lines(a + seq!['\n'] + b, (a + seq!['\n'] + b).len() as int) == numbered_lines(
            a,
            a.len() as int,
        ) + numbered_lines(b, b.len() as int),
{
    if a.len() > 0 {
        lemma_numbered_in_one_line(a, a.len() as int);
    }
    lemma_numbered_of_rest(a, b, b.len() as int);
}

/// A chat message is refused for its text first, and for more than sixteen
/// files; any other is taken.
pub proof fn law_which_chat_messages_are_taken(message: Seq<char>, attachments: nat)
    ensures
        chat_refusal(message, attachments) is None <==> error::content_refusal(message) is None
            && attachments <= 16,
        error::content_refusal(message) is Some ==> chat_refusal(message, attachments)
            == error::content_refusal(message),
{
}

/// A request that goes on with a task names it, and stays read-only.
pub proof fn law_a_resumed_task_is_named(task: Seq<char>)
    ensures
        resumed(None) == Seq::<char>::empty(),
        (task
            + "\nThis Ask reply remains read-only; continue inspection or explanation, never implement changes."@)
            .is_suffix_of(resumed(Some(task))),
{
    let said = resumed(Some(task));
    let end = task
        + "\nThis Ask reply remains read-only; continue inspection or explanation, never implement changes."@;
    assert(end =~= said.subrange(said.len() - end.len(), said.len() as int));
}

/// The names of all relevant files stand in what the model is told of them.
pub proof fn law_relevant_files_are_named(names: Seq<Seq<char>>)
    ensures
        ("\n\n[Relevant files (repo index): "@ + text::joined(names, ", "@)).is_prefix_of(
            relevant_files(names),
        ),
{
    let said = relevant_files(names);
    let head = "\n\n[Relevant files (repo index): "@ + text::joined(names, ", "@);
    assert(head =~= said.subrange(0, head.len() as int));
}

/// The system prompt is the first turn of every request, as the system's. In the
/// older order the instruction to reason follows it as the system's too, where
/// the request reasons, and then the history comes as long as it is.
pub proof fn law_a_request_begins_with_the_system_prompt(
    turns: Seq<Turn>,
    system: Seq<char>,
    reasoning: ReasoningMode,
    budget: Seq<char>,
    legacy: bool,
    web: Seq<char>,
    plan: DocumentPlan,
)
    ensures
        ({
            let sent = chat_turns(turns, system, reasoning, budget, legacy, web, plan);
            let instructs = legacy && reasoning != ReasoningMode::Off;
            &&& sent[0].role == "system"@ && sent[0].content == system
            &&& instructs ==> sent.len() == turns.len() + 2 && sent[1].role == "system"@
                && sent[1].content == prompt::preface(budget, reasoning == ReasoningMode::Native)
            &&& !instructs ==> sent.len() == turns.len() + 1
        }),
{
    reveal_strlit("system");
    reveal_strlit("user");
    assert("system"@.len() != "user"@.len());
    let one = instructed(turns, system, reasoning, budget, legacy);
    let led = seq![types::text_turn("system"@, system)] + turns;
    history::lemma_last_user(led, led.len() as int);
    if reasoning != ReasoningMode::Off && !legacy {
        lemma_noted_last_user(
            led,
            "\n\n"@ + prompt::preface(budget, reasoning == ReasoningMode::Native),
        );
        assert(one[0] == led[0]);
    }
    history::lemma_last_user(one, one.len() as int);
    lemma_noted_last_user(one, web);
    let two = noted(one, web);
    history::lemma_last_user(two, two.len() as int);
    lemma_noted_last_user(two, documents::plan_note(plan));
}

} // verus!
