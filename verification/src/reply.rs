//! The course of a chat reply: what a message opens, what is shown while the
//! reply is written, and what is kept of it in the end.
use vstd::prelude::*;

use crate::chat;
use crate::decimal;
use crate::error::{ApiError, Refusal};
use crate::intent;
use crate::intent::{AgentState, Continuation, MessageIntent};
use crate::text;

verus! {

// ---- what a message opens ----------------------------------------------------------------------

/// What a chat message opens.
#[derive(Debug, PartialEq, Eq)]
pub enum ChatOpening {
    /// Nothing; the message is refused.
    Refused(ApiError),
    /// A command that there is.
    Command,
    /// The correction of a command that there is not.
    Hint(String),
    /// An answer that needs no model.
    Reply(&'static str),
    /// Find the task to go on with.
    Continue,
    /// A reply of the model.
    Generate,
}

/// The refusal while the runtime is changed.
pub open spec fn busy_runtime() -> Refusal {
    Refusal {
        status: 409,
        message: "The model runtime is being updated."@,
        hint: "Wait for the model to finish loading, then send your message."@,
    }
}

/// What a chat message opens.
pub open spec fn opens(
    message: Seq<char>,
    attachments: nat,
    conversation_id: Seq<char>,
    command: Option<(Seq<char>, bool)>,
    runtime_free: bool,
    meaning: MessageIntent,
    code_session: bool,
    r: ChatOpening,
) -> bool {
    match chat::chat_refusal(message, attachments) {
        Some(e) => r matches ChatOpening::Refused(refused) && refused@ == e,
        None => match command {
            Some((name, known)) => if known {
                r is Command
            } else {
                r matches ChatOpening::Hint(t) && t@ == "Unknown command '/"@ + name
                    + "'. Try /help."@
            },
            None => if !runtime_free {
                r matches ChatOpening::Refused(refused) && refused@ == busy_runtime()
            } else if meaning == MessageIntent::Greeting && attachments == 0 {
                r matches ChatOpening::Reply(t) && t@ == "Hello! What would you like to work on?"@
            } else if meaning == MessageIntent::Acknowledgement && attachments == 0 {
                r matches ChatOpening::Reply(t) && t@
                    == "Got it. Let me know if you’d like anything else."@
            } else if meaning == MessageIntent::Continue && !text::is_blank(conversation_id)
                && code_session {
                r is Continue
            } else {
                r is Generate
            },
        },
    }
}

/// A message reaches the model only where it is taken, names no command and the
/// runtime is free, and then unless it is a courtesy without files or goes on
/// with a task of a code session. A command never waits for the runtime, and
/// one that there is not is never run.
pub proof fn law_what_reaches_the_model(
    message: Seq<char>,
    attachments: nat,
    conversation_id: Seq<char>,
    command: Option<(Seq<char>, bool)>,
    runtime_free: bool,
    meaning: MessageIntent,
    code_session: bool,
    r: ChatOpening,
)
    requires
        opens(
            message,
            attachments,
            conversation_id,
            command,
            runtime_free,
            meaning,
            code_session,
            r,
        ),
    ensures
        r is Generate ==> chat::chat_refusal(message, attachments) is None && command is None
            && runtime_free,
        chat::chat_refusal(message, attachments) is Some ==> r is Refused,
        chat::chat_refusal(message, attachments) is None ==> {
            &&& r is Command <==> (command matches Some((_, known)) && known)
            &&& r is Hint <==> (command matches Some((_, known)) && !known)
            &&& command is None && !runtime_free ==> r is Refused
            &&& command is None && runtime_free ==> {
                &&& meaning == MessageIntent::Task ==> r is Generate
                &&& attachments > 0 && meaning != MessageIntent::Continue ==> r is Generate
                &&& attachments == 0 && (meaning == MessageIntent::Greeting || meaning
                    == MessageIntent::Acknowledgement) ==> r is Reply
                &&& meaning == MessageIntent::Continue ==> (r is Continue <==> code_session
                    && !text::is_blank(conversation_id))
            }
        },
{
}

/// What a chat message opens: commands never reach the model, nor do they wait
/// for the runtime; short courtesies without files are answered without it; a
/// request to go on in a code session looks for its task first. `command` is
/// the command the message names and whether there is one of that name.
pub fn open_chat(
    message: &str,
    attachments: usize,
    conversation_id: &str,
    command: Option<(&str, bool)>,
    runtime_free: bool,
    meaning: MessageIntent,
    code_session: bool,
) -> (r: ChatOpening)
    ensures
        opens(
            message@,
            attachments as nat,
            conversation_id@,
            match command {
                Some((name, known)) => Some((name@, known)),
                None => None,
            },
            runtime_free,
            meaning,
            code_session,
            r,
        ),
{
    let conversation = match chat::admit_chat(message, attachments, conversation_id) {
        Ok(c) => c,
        Err(e) => {
            return ChatOpening::Refused(e);
        },
    };
    if let Some((name, known)) = command {
        if known {
            return ChatOpening::Command;
        }
        return ChatOpening::Hint(chat::unknown_command_hint(name));
    }
    if !runtime_free {
        return ChatOpening::Refused(chat::runtime_busy());
    }
    if let Some(reply) = intent::canned_reply(meaning, attachments > 0) {
        return ChatOpening::Reply(reply);
    }
    match meaning {
        MessageIntent::Continue => {
            if conversation.is_some() && code_session {
                ChatOpening::Continue
            } else {
                ChatOpening::Generate
            }
        },
        _ => ChatOpening::Generate,
    }
}

/// What a request to go on comes to in a chat: the task that the reply is
/// about, or an answer and its disposition.
pub fn continue_chat(found: Continuation) -> (r: Result<String, (&'static str, &'static str)>)
    ensures
        match found {
            Continuation::Task(task) => r == Ok::<String, (&'static str, &'static str)>(task),
            Continuation::Reply(d, t) => r matches Err((disposition, reply)) && disposition == d
                && reply == t,
        },
{
    match found {
        Continuation::Task(task) => Ok(task),
        Continuation::Reply(d, t) => Err((d, t)),
    }
}

/// What was left of the last task is over.
pub open spec fn clears(code_session: bool, meaning: MessageIntent) -> bool {
    code_session && meaning == MessageIntent::Task
}

/// Only a new task ends what was left of the last one: a courtesy or a request to
/// go on leaves it, and so does a chat.
pub proof fn law_only_a_new_task_ends_the_last(code_session: bool, meaning: MessageIntent)
    ensures
        clears(code_session, meaning) ==> meaning == MessageIntent::Task && code_session,
        !clears(code_session, MessageIntent::Continue),
        !clears(false, meaning),
        clears(true, MessageIntent::Task),
{
}

/// A new task in a code session ends what was left of the last one.
pub fn clears_task(code_session: bool, meaning: MessageIntent) -> (r: bool)
    ensures
        r == clears(code_session, meaning),
{
    code_session && meaning == MessageIntent::Task
}

// ---- what is told meanwhile ----------------------------------------------------------------------

/// What is told of a compaction that changed nothing.
pub const NOTHING_COMPACTED: &'static str =
    "Nothing older could be compacted; replying with the current context…";

/// What is told of a compaction that failed.
pub fn compaction_failed(error: &str) -> (s: String)
    ensures
        s@ == "Automatic compaction failed ("@ + error@
            + "); replying with the most recent messages that fit."@,
{
    let mut s = "Automatic compaction failed (".to_owned();
    s.append(error);
    s.append("); replying with the most recent messages that fit.");
    s
}

/// What is told of a search.
pub fn search_status(results: usize) -> (s: String)
    ensures
        s@ == (if results == 0 {
            "No web results — answering locally"@
        } else {
            "Found "@ + decimal::digits(results as nat) + " results"@
        }),
{
    if results == 0 {
        return "No web results — answering locally".to_owned();
    }
    let mut s = "Found ".to_owned();
    let n = decimal::decimal(results as u64);
    s.append(&n);
    s.append(" results");
    s
}

/// What is told of a search that failed.
pub fn search_failed(error: &str) -> (s: String)
    ensures
        s@ == "Internet search failed ("@ + error@ + "). Continuing without web. [Retry]"@,
{
    let mut s = "Internet search failed (".to_owned();
    s.append(error);
    s.append("). Continuing without web. [Retry]");
    s
}

/// A part of the model's text.
#[derive(Debug, PartialEq, Eq)]
pub enum Piece {
    /// What the user reads.
    Prose(String),
    /// A tool call begins, ends, or breaks off; the name where it is known.
    ActionStarted { name: Option<String> },
    ActionFinished { name: Option<String> },
    ActionIncomplete { name: Option<String> },
}

/// What the client is sent of a piece.
#[derive(Debug, PartialEq, Eq)]
pub enum Shown {
    Token(String),
    Action { state: &'static str, name: Option<String> },
}

/// What the client is sent of a piece: the prose, and of an action its state
/// and its name, never what it holds.
pub open spec fn shows(p: Piece, s: Shown) -> bool {
    match p {
        Piece::Prose(t) => s == Shown::Token(t),
        Piece::ActionStarted { name } => s matches Shown::Action { state, name: n } && state@
            == "started"@ && n == name,
        Piece::ActionFinished { name } => s matches Shown::Action { state, name: n } && state@
            == "finished"@ && n == name,
        Piece::ActionIncomplete { name } => s matches Shown::Action { state, name: n } && state@
            == "incomplete"@ && n == name,
    }
}

/// The prose of the first `n` pieces.
pub open spec fn prose(pieces: Seq<Piece>, n: int) -> Seq<char>
    decreases n,
{
    if n <= 0 {
        Seq::empty()
    } else {
        prose(pieces, n - 1) + (match pieces[n - 1] {
            Piece::Prose(t) => t@,
            _ => Seq::empty(),
        })
    }
}

/// Shows a piece.
fn show(visible: &mut String, piece: Piece) -> (s: Shown)
    ensures
        shows(piece, s),
        final(visible)@ == old(visible)@ + (match piece {
            Piece::Prose(t) => t@,
            _ => Seq::empty(),
        }),
{
    match piece {
        Piece::Prose(t) => {
            visible.append(&t);
            Shown::Token(t)
        },
        Piece::ActionStarted { name } => {
            assert(visible@ + Seq::<char>::empty() =~= visible@);
            Shown::Action { state: "started", name }
        },
        Piece::ActionFinished { name } => {
            assert(visible@ + Seq::<char>::empty() =~= visible@);
            Shown::Action { state: "finished", name }
        },
        Piece::ActionIncomplete { name } => {
            assert(visible@ + Seq::<char>::empty() =~= visible@);
            Shown::Action { state: "incomplete", name }
        },
    }
}

/// Shows pieces: the prose joins the visible text, and each piece is sent.
pub fn show_pieces(visible: &mut String, pieces: Vec<Piece>) -> (sent: Vec<Shown>)
    ensures
        final(visible)@ == old(visible)@ + prose(pieces@, pieces@.len() as int),
        sent@.len() == pieces@.len(),
        forall|i: int| 0 <= i < pieces@.len() ==> shows(#[trigger] pieces@[i], sent@[i]),
{
    let ghost all = pieces@;
    let ghost before = visible@;
    let mut sent: Vec<Shown> = Vec::new();
    assert(before + prose(all, 0) =~= before);
    let mut rest = pieces;
    let n: usize = rest.len();
    let mut i: usize = 0;
    while i < n
        invariant
            i <= n,
            n == all.len(),
            rest@ == all.skip(i as int),
            sent@.len() == i,
            visible@ == before + prose(all, i as int),
            forall|k: int| 0 <= k < i ==> shows(#[trigger] all[k], sent@[k]),
        decreases n - i,
    {
        let piece = rest.remove(0);
        assert(piece == all[i as int]);
        assert(all.skip(i as int).remove(0) =~= all.skip(i + 1));
        let s = show(visible, piece);
        sent.push(s);
        assert(visible@ =~= before + prose(all, i + 1));
        i += 1;
    }
    sent
}

/// What is kept of a reply is what its user read: pieces that are actions add
/// nothing to it.
pub proof fn law_actions_are_never_saved(pieces: Seq<Piece>)
    requires
        forall|i: int| 0 <= i < pieces.len() ==> !((#[trigger] pieces[i]) is Prose),
    ensures
        prose(pieces, pieces.len() as int) == Seq::<char>::empty(),
    decreases pieces.len(),
{
    lemma_no_prose(pieces, pieces.len() as int);
}

proof fn lemma_no_prose(pieces: Seq<Piece>, n: int)
    requires
        0 <= n <= pieces.len(),
        forall|i: int| 0 <= i < pieces.len() ==> !((#[trigger] pieces[i]) is Prose),
    ensures
        prose(pieces, n) == Seq::<char>::empty(),
    decreases n,
{
    if n > 0 {
        lemma_no_prose(pieces, n - 1);
        assert(!(pieces[n - 1] is Prose));
        assert(prose(pieces, n) =~= Seq::<char>::empty());
    }
}

/// A generation is ended early.
pub open spec fn stops(offers_anything: bool, so_far: Seq<char>, holds_offered_call: bool) -> bool {
    offers_anything && text::holds(so_far, "```tool"@) && holds_offered_call
}

/// A generation is ended early only for a call of an offered tool, once its fence
/// stands in the text: text that only speaks of tools, and any text where none is
/// offered, is generated to its end.
pub proof fn law_only_a_call_ends_a_generation(
    offers_anything: bool,
    so_far: Seq<char>,
    more: Seq<char>,
    holds_offered_call: bool,
)
    ensures
        !stops(false, so_far, holds_offered_call),
        !stops(offers_anything, so_far, false),
        stops(offers_anything, so_far, holds_offered_call) ==> text::holds(so_far, "```tool"@),
        stops(true, so_far + "```tool"@ + more, true),
{
    let s = so_far + "```tool"@ + more;
    let (i, n) = (so_far.len() as int, "```tool"@.len() as int);
    assert(s.subrange(i, i + n) =~= "```tool"@);
    assert(text::occurs_at(s, "```tool"@, i));
}

/// A generation ends early once its text holds a complete call of a tool that
/// the request offers.
pub fn should_stop(offers_anything: bool, so_far: &str, holds_offered_call: bool) -> (r: bool)
    ensures
        r == stops(offers_anything, so_far@, holds_offered_call),
{
    offers_anything && text::contains(so_far, "```tool") && holds_offered_call
}

/// How a round's narrative is shown.
pub open spec fn active_as(narrative: Seq<char>, has_tool: bool, cancelled: bool) -> Option<
    (Seq<char>, AgentState),
> {
    if text::is_blank(narrative) {
        None
    } else {
        Some(
            (
                if has_tool {
                    "thought"@
                } else {
                    "response"@
                },
                if has_tool || cancelled {
                    AgentState::Observing
                } else {
                    AgentState::Completed
                },
            ),
        )
    }
}

/// What is said before a tool is a thought, and what is said without one the
/// response; only a response that was not stopped completes the work, and of
/// nothing nothing is shown.
pub proof fn law_only_a_response_completes(narrative: Seq<char>, has_tool: bool, cancelled: bool)
    ensures
        active_as(narrative, has_tool, cancelled) is None <==> text::is_blank(narrative),
        active_as(narrative, has_tool, cancelled) matches Some((kind, state)) ==> {
            &&& kind == "thought"@ <==> has_tool
            &&& kind == "response"@ <==> !has_tool
            &&& state == AgentState::Completed <==> !has_tool && !cancelled
        },
{
    reveal_strlit("thought");
    reveal_strlit("response");
    assert("thought"@.len() == 7 && "response"@.len() == 8);
}

/// How a round of a code session is journaled: a thought before a tool, a
/// response otherwise; nothing where it says nothing.
pub fn round_activity(narrative: &str, has_tool: bool, cancelled: bool) -> (r: Option<
    (&'static str, AgentState),
>)
    ensures
        match r {
            Some((kind, state)) => active_as(narrative@, has_tool, cancelled) == Some((kind@, state)),
            None => active_as(narrative@, has_tool, cancelled) is None,
        },
{
    if text::blank(narrative) {
        return None;
    }
    Some(
        (
            if has_tool { "thought" } else { "response" },
            if has_tool || cancelled { AgentState::Observing } else { AgentState::Completed },
        ),
    )
}

// ---- what is kept ---------------------------------------------------------------------------------

/// How a reply ends.
#[derive(Debug, PartialEq, Eq)]
pub struct Ending {
    /// What is saved as the reply's message.
    pub save: Option<String>,
    /// The reply is reported as done, with its numbers.
    pub done: bool,
    /// What the client is told of the failure.
    pub error: Option<String>,
}

/// How a reply ends.
pub open spec fn ends(
    failed: Option<Seq<char>>,
    stored: Seq<char>,
    cancelled: bool,
    claimed: bool,
    in_conversation: bool,
    e: Ending,
) -> bool {
    &&& e.done == failed is None
    &&& if claimed && in_conversation {
        e.save is Some && e.save->0@ == (match failed {
            Some(why) => if stored.len() == 0 {
                "Inference interrupted: "@ + why
            } else {
                stored
            },
            None => stored,
        })
    } else {
        e.save is None
    }
    &&& match failed {
        Some(why) => if cancelled {
            e.error is None
        } else {
            e.error is Some && e.error->0@ == "Inference failed: "@ + why
        },
        None => e.error is None,
    }
}

/// What was said is kept, however the reply ended: the ending that may save it
/// saves what there is, and nothing is saved twice. A failure is reported with
/// its reason, unless the user stopped the reply; only a reply that did not
/// fail is done.
pub proof fn law_what_was_said_is_kept(
    failed: Option<Seq<char>>,
    stored: Seq<char>,
    cancelled: bool,
    claimed: bool,
    in_conversation: bool,
    e: Ending,
)
    requires
        ends(failed, stored, cancelled, claimed, in_conversation, e),
    ensures
        e.save is Some <==> claimed && in_conversation,
        e.save is Some && stored.len() > 0 ==> e.save->0@ == stored,
        e.save is Some && stored.len() == 0 && failed is Some ==> (failed->0).is_suffix_of(
            e.save->0@,
        ) && e.save->0@.len() > (failed->0).len(),
        e.done <==> failed is None,
        e.error is Some <==> failed is Some && !cancelled,
        e.error is Some ==> (failed->0).is_suffix_of(e.error->0@),
{
    reveal_strlit("Inference interrupted: ");
    if let Some(why) = failed {
        if let Some(saved) = e.save {
            if stored.len() == 0 {
                assert(why =~= saved@.subrange(saved@.len() - why.len(), saved@.len() as int));
            }
        }
        if let Some(told) = e.error {
            assert(why =~= told@.subrange(told@.len() - why.len(), told@.len() as int));
        }
    }
}

/// How a reply ends. It is saved once: only where this ending won the right to
/// save it over a stop, and only in a conversation. A failed reply keeps what
/// there is of it, and a stop on purpose is not reported as a failure.
pub fn end_reply(
    failed: Option<&str>,
    stored: &str,
    cancelled: bool,
    claimed: bool,
    in_conversation: bool,
) -> (e: Ending)
    ensures
        ends(
            match failed {
                Some(why) => Some(why@),
                None => None,
            },
            stored@,
            cancelled,
            claimed,
            in_conversation,
            e,
        ),
{
    let saves = claimed && in_conversation;
    match failed {
        None => Ending {
            save: if saves { Some(stored.to_owned()) } else { None },
            done: true,
            error: None,
        },
        Some(why) => {
            let error = if cancelled {
                None
            } else {
                let mut s = "Inference failed: ".to_owned();
                s.append(why);
                Some(s)
            };
            Ending {
                save: if saves { Some(chat::interrupted_reply(stored, why)) } else { None },
                done: false,
                error,
            }
        },
    }
}

/// What is told of a reply's file that could not be saved.
pub fn file_failed(error: &str) -> (s: String)
    ensures
        s@ == "The file could not be saved: "@ + error@,
{
    let mut s = "The file could not be saved: ".to_owned();
    s.append(error);
    s
}

/// What the user reads of two rows of pieces is what they read of the first and
/// then of the second; of a piece of prose it is the prose, and of an action
/// nothing.
pub proof fn law_prose_is_read_in_order(pieces: Seq<Piece>, more: Seq<Piece>, p: Piece)
    ensures
        prose(pieces + more, (pieces + more).len() as int) == prose(pieces, pieces.len() as int)
            + prose(more, more.len() as int),
        prose(seq![p], 1) == (match p {
            Piece::Prose(t) => t@,
            _ => Seq::empty(),
        }),
        prose(Seq::<Piece>::empty(), 0) == Seq::<char>::empty(),
{
    lemma_prose_of_both(pieces, more, more.len() as int);
    reveal_with_fuel(prose, 2);
    assert(prose(seq![p], 1) =~= (match p {
        Piece::Prose(t) => t@,
        _ => Seq::empty(),
    }));
}

proof fn lemma_prose_of_first(pieces: Seq<Piece>, more: Seq<Piece>, n: int)
    requires
        0 <= n <= pieces.len(),
    ensures
        prose(pieces + more, n) == prose(pieces, n),
    decreases n,
{
    if n > 0 {
        lemma_prose_of_first(pieces, more, n - 1);
        assert((pieces + more)[n - 1] == pieces[n - 1]);
    }
}

proof fn lemma_prose_of_both(pieces: Seq<Piece>, more: Seq<Piece>, n: int)
    requires
        0 <= n <= more.len(),
    ensures
        prose(pieces + more, pieces.len() + n) == prose(pieces, pieces.len() as int) + prose(
            more,
            n,
        ),
    decreases n,
{
    if n > 0 {
        lemma_prose_of_both(pieces, more, n - 1);
        assert((pieces + more)[pieces.len() + n - 1] == more[n - 1]);
        assert(prose(pieces + more, pieces.len() + n) =~= prose(pieces, pieces.len() as int)
            + prose(more, n));
    } else {
        lemma_prose_of_first(pieces, more, pieces.len() as int);
        assert(prose(pieces + more, pieces.len() as int) =~= prose(pieces, pieces.len() as int)
            + prose(more, 0));
    }
}

/// What the client is sent of a piece says what the piece is: prose as it is,
/// and of an action whether it began, ended or broke off, under its name.
pub proof fn law_pieces_are_shown_as_what_they_are(p: Piece, s: Shown)
    requires
        shows(p, s),
    ensures
        p matches Piece::Prose(t) ==> s == Shown::Token(t),
        !(p is Prose) ==> s is Action,
        s matches Shown::Action { state, name } ==> {
            &&& state@ == "started"@ <==> p == (Piece::ActionStarted { name })
            &&& state@ == "finished"@ <==> p == (Piece::ActionFinished { name })
            &&& state@ == "incomplete"@ <==> p == (Piece::ActionIncomplete { name })
        },
{
    reveal_strlit("started");
    reveal_strlit("finished");
    reveal_strlit("incomplete");
    assert("started"@.len() == 7);
    assert("finished"@.len() == 8);
    assert("incomplete"@.len() == 10);
}

} // verus!
