//! What a short message means, whether a reply asked something, and what a
//! request to go on refers to.
use vstd::prelude::*;

use crate::boundary;
use crate::text;
use crate::types::Message;

verus! {

/// What a message asks for.
#[derive(Clone, Copy, Debug, PartialEq, Eq, Structural)]
pub enum MessageIntent {
    Acknowledgement,
    Greeting,
    Continue,
    Task,
}

/// Punctuation that does not change what a short message means.
pub open spec fn is_punctuation(c: char) -> bool {
    c == '.' || c == '!' || c == '?' || c == ',' || c == ';' || c == ':'
}

/// Which characters are such punctuation.
pub open spec fn punctuation_marks(s: Seq<char>) -> Seq<bool> {
    s.map_values(|c: char| is_punctuation(c))
}

/// A message with the punctuation around it left out and single spaces
/// between its words.
pub open spec fn plain_words(message: Seq<char>) -> Seq<char> {
    let core = text::trimmed(message);
    text::joined(text::words(text::unmarked(core, punctuation_marks(core))), " "@)
}

/// A greeting.
pub open spec fn is_greeting(s: Seq<char>) -> bool {
    ||| s == "hi"@
    ||| s == "hey"@
    ||| s == "hello"@
    ||| s == "hello there"@
    ||| s == "good morning"@
    ||| s == "good afternoon"@
    ||| s == "good evening"@
}

/// An acknowledgement.
pub open spec fn is_acknowledgement(s: Seq<char>) -> bool {
    ||| s == "thanks"@
    ||| s == "thank you"@
    ||| s == "thank you very much"@
    ||| s == "thanks a lot"@
    ||| s == "thx"@
    ||| s == "ty"@
    ||| s == "looks good to me"@
    ||| s == "looks good"@
    ||| s == "sounds good"@
    ||| s == "sounds great"@
    ||| s == "that looks good"@
    ||| s == "that works"@
    ||| s == "works for me"@
    ||| s == "great"@
    ||| s == "nice"@
    ||| s == "perfect"@
    ||| s == "awesome"@
    ||| s == "cool"@
    ||| s == "okay"@
    ||| s == "ok"@
    ||| s == "understood"@
    ||| s == "got it"@
    ||| s == "well done"@
    ||| s == "yes"@
    ||| s == "yep"@
    ||| s == "sure"@
    ||| s == "👍"@
    ||| s == "👍🏻"@
    ||| s == "👍🏼"@
    ||| s == "👍🏽"@
    ||| s == "👍🏾"@
    ||| s == "👍🏿"@
    ||| s == "✅"@
}

/// A request to go on.
pub open spec fn is_continuation(s: Seq<char>) -> bool {
    ||| s == "continue"@
    ||| s == "go ahead"@
    ||| s == "proceed"@
    ||| s == "carry on"@
    ||| s == "keep going"@
    ||| s == "yes proceed"@
    ||| s == "yes, proceed"@
    ||| s == "yes go ahead"@
    ||| s == "yes, go ahead"@
    ||| s == "continue with the plan"@
    ||| s == "go ahead with the plan"@
    ||| s == "implement the plan"@
    ||| s == "implement it"@
    ||| s == "do it"@
}

/// What a message means, given its words in lower case. The whole message
/// counts, never its beginning.
pub open spec fn intent_of(normalized: Seq<char>) -> MessageIntent {
    if is_greeting(normalized) {
        MessageIntent::Greeting
    } else if is_acknowledgement(normalized) {
        MessageIntent::Acknowledgement
    } else if is_continuation(normalized) {
        MessageIntent::Continue
    } else {
        MessageIntent::Task
    }
}

fn greeting(s: &str) -> (r: bool)
    ensures
        r == is_greeting(s@),
{
    text::same(s, "hi") || text::same(s, "hey") || text::same(s, "hello")
        || text::same(s, "hello there") || text::same(s, "good morning")
        || text::same(s, "good afternoon") || text::same(s, "good evening")
}

fn acknowledgement(s: &str) -> (r: bool)
    ensures
        r == is_acknowledgement(s@),
{
    text::same(s, "thanks") || text::same(s, "thank you") || text::same(s, "thank you very much")
        || text::same(s, "thanks a lot") || text::same(s, "thx") || text::same(s, "ty")
        || text::same(s, "looks good to me") || text::same(s, "looks good")
        || text::same(s, "sounds good") || text::same(s, "sounds great")
        || text::same(s, "that looks good") || text::same(s, "that works")
        || text::same(s, "works for me") || text::same(s, "great") || text::same(s, "nice")
        || text::same(s, "perfect") || text::same(s, "awesome") || text::same(s, "cool")
        || text::same(s, "okay") || text::same(s, "ok") || text::same(s, "understood")
        || text::same(s, "got it") || text::same(s, "well done") || text::same(s, "yes")
        || text::same(s, "yep") || text::same(s, "sure") || text::same(s, "👍")
        || text::same(s, "👍🏻") || text::same(s, "👍🏼") || text::same(s, "👍🏽")
        || text::same(s, "👍🏾") || text::same(s, "👍🏿") || text::same(s, "✅")
}

fn continuation(s: &str) -> (r: bool)
    ensures
        r == is_continuation(s@),
{
    text::same(s, "continue") || text::same(s, "go ahead") || text::same(s, "proceed")
        || text::same(s, "carry on") || text::same(s, "keep going")
        || text::same(s, "yes proceed") || text::same(s, "yes, proceed")
        || text::same(s, "yes go ahead") || text::same(s, "yes, go ahead")
        || text::same(s, "continue with the plan") || text::same(s, "go ahead with the plan")
        || text::same(s, "implement the plan") || text::same(s, "implement it")
        || text::same(s, "do it")
}

/// What a message means, given its words in lower case.
pub fn intent_from_words(normalized: &str) -> (r: MessageIntent)
    ensures
        r == intent_of(normalized@),
{
    if greeting(normalized) {
        MessageIntent::Greeting
    } else if acknowledgement(normalized) {
        MessageIntent::Acknowledgement
    } else if continuation(normalized) {
        MessageIntent::Continue
    } else {
        MessageIntent::Task
    }
}

/// What a message means. "thanks, now fix X" and "looks good but change X"
/// remain requests.
pub fn message_intent(message: &str) -> (r: MessageIntent)
    ensures
        r == intent_of(boundary::lowercase(plain_words(message@))),
{
    let core = text::trim(message);
    let v = text::chars_of(&core);
    let mut marks: Vec<bool> = Vec::new();
    let mut i: usize = 0;
    while i < v.len()
        invariant
            i <= v@.len(),
            marks@ == punctuation_marks(v@).take(i as int),
        decreases v@.len() - i,
    {
        let c: char = v[i];
        marks.push(c == '.' || c == '!' || c == '?' || c == ',' || c == ';' || c == ':');
        assert(marks@ =~= punctuation_marks(v@).take(i + 1));
        i += 1;
    }
    assert(marks@ =~= punctuation_marks(v@));
    let inner = text::trim_marks(&v, &marks);
    let words = text::split_words(&inner);
    let joined = text::join(&words, " ");
    let normalized = joined.as_str().to_lowercase();
    intent_from_words(&normalized)
}

/// What a message means to a reply that asked something, or did not.
pub open spec fn as_answer(intent: MessageIntent, reply_asks: bool) -> MessageIntent {
    if intent == MessageIntent::Acknowledgement && reply_asks {
        MessageIntent::Task
    } else {
        intent
    }
}

/// A short answer to a question is a request, and never put off with a
/// courtesy; all else means what it means by itself.
pub proof fn law_an_answer_is_a_request(intent: MessageIntent, reply_asks: bool)
    ensures
        as_answer(MessageIntent::Acknowledgement, true) == MessageIntent::Task,
        as_answer(intent, true) != MessageIntent::Acknowledgement,
        as_answer(intent, false) == intent,
        intent != MessageIntent::Acknowledgement ==> as_answer(intent, reply_asks) == intent,
{
}

/// What a message means once it is known whether the latest reply asked
/// something: a short "yes" that answers a question is a request.
pub fn answering_intent(intent: MessageIntent, reply_asks: bool) -> (r: MessageIntent)
    ensures
        r == as_answer(intent, reply_asks),
{
    if intent == MessageIntent::Acknowledgement && reply_asks {
        MessageIntent::Task
    } else {
        intent
    }
}

/// The answer to a greeting or an acknowledgement without attachments, which
/// takes no model.
pub fn canned_reply(intent: MessageIntent, has_attachments: bool) -> (r: Option<&'static str>)
    ensures
        match r {
            Some(t) => !has_attachments && ((intent == MessageIntent::Greeting && t@
                == "Hello! What would you like to work on?"@) || (intent
                == MessageIntent::Acknowledgement && t@
                == "Got it. Let me know if you’d like anything else."@)),
            None => has_attachments || intent == MessageIntent::Continue || intent
                == MessageIntent::Task,
        },
{
    if has_attachments {
        return None;
    }
    match intent {
        MessageIntent::Greeting => Some("Hello! What would you like to work on?"),
        MessageIntent::Acknowledgement => Some("Got it. Let me know if you’d like anything else."),
        _ => None,
    }
}

// ---- does the latest reply ask? -----------------------------------------------------

/// What may follow the question mark of a question.
pub open spec fn is_closing(c: char) -> bool {
    text::is_space(c) || c == '*' || c == '_' || c == ')' || c == '"'
}

/// Which characters may follow a question mark.
pub open spec fn closing_marks(s: Seq<char>) -> Seq<bool> {
    s.map_values(|c: char| is_closing(c))
}

/// A reply ends by asking: its last line, as far as its last 240 characters
/// show it, ends in a question mark, closing marks left out.
pub open spec fn asks(content: Seq<char>) -> bool {
    let line = text::after_last(text::last_chars(text::trimmed_end(content), 240), '\n');
    let core = text::unmarked_end(line, closing_marks(line));
    core.len() > 0 && core.last() == '?'
}

/// The last assistant message among the first `n` asks.
pub open spec fn latest_asks(history: Seq<Message>, n: int) -> bool
    decreases n,
{
    if n <= 0 {
        false
    } else if history[n - 1].role@ == "assistant"@ {
        asks(history[n - 1].content@)
    } else {
        latest_asks(history, n - 1)
    }
}

/// Whether a reply ends by asking the user something.
pub fn reply_asks(content: &str) -> (r: bool)
    ensures
        r == asks(content@),
{
    let kept = text::trim_end(content);
    let tail = text::take_last_chars(&kept, 240);
    let v = text::chars_of(&tail);
    let from: usize = text::after_last_from(&v, '\n');
    let line = text::string_of(&v, from, v.len());
    assert(line@ =~= text::after_last(tail@, '\n'));
    let chars = text::chars_of(&line);
    let mut marks: Vec<bool> = Vec::new();
    let mut i: usize = 0;
    while i < chars.len()
        invariant
            i <= chars@.len(),
            marks@ == closing_marks(chars@).take(i as int),
        decreases chars@.len() - i,
    {
        let c: char = chars[i];
        marks.push(text::space(c) || c == '*' || c == '_' || c == ')' || c == '"');
        assert(marks@ =~= closing_marks(chars@).take(i + 1));
        i += 1;
    }
    assert(marks@ =~= closing_marks(chars@));
    let core = text::trim_end_marks(&chars, &marks);
    let c = text::chars_of(&core);
    c.len() > 0 && c[c.len() - 1] == '?'
}

/// Whether the latest assistant reply ends by asking the user something.
pub fn latest_reply_asks(history: &[Message]) -> (r: bool)
    ensures
        r == latest_asks(history@, history@.len() as int),
{
    let mut n: usize = history.len();
    while n > 0
        invariant
            n <= history@.len(),
            latest_asks(history@, history@.len() as int) == latest_asks(history@, n as int),
        decreases n,
    {
        if text::same(&history[n - 1].role, "assistant") {
            return reply_asks(&history[n - 1].content);
        }
        n -= 1;
    }
    false
}

// ---- going on ---------------------------------------------------------------------------

/// Where an agent run stands.
#[derive(Clone, Copy, Debug, PartialEq, Eq, Structural)]
pub enum AgentState {
    Idle,
    Planning,
    ExecutingTool,
    Observing,
    WaitingPermission,
    Compacting,
    Completed,
    Failed,
    Cancelled,
}

/// The run has ended, one way or the other.
pub open spec fn ended(s: AgentState) -> bool {
    s == AgentState::Completed || s == AgentState::Failed || s == AgentState::Cancelled
}

/// Whether the run has ended.
pub fn has_ended(s: AgentState) -> (r: bool)
    ensures
        r == ended(s),
{
    match s {
        AgentState::Completed | AgentState::Failed | AgentState::Cancelled => true,
        _ => false,
    }
}

/// The task that a session last worked on.
#[derive(Debug, PartialEq, Eq)]
pub struct TaskContext {
    pub task: String,
    pub status: String,
}

/// A live run of that task.
#[derive(Debug, PartialEq, Eq)]
pub struct LiveRun {
    pub state: AgentState,
    /// The run only plans, and has presented its plan.
    pub plan_presented: bool,
}

/// What a request to go on comes to.
#[derive(Debug, PartialEq, Eq)]
pub enum Continuation {
    /// Take up the saved work.
    Task(String),
    /// Answer with a disposition and a text.
    Reply(&'static str, &'static str),
}

/// The task may be taken up: its status says that it is unfinished and it
/// reads as a task.
pub open spec fn resumable(status: Seq<char>, task_intent: MessageIntent) -> bool {
    (status == "planned"@ || status == "interrupted"@) && task_intent == MessageIntent::Task
}

/// The status of a task once its live run is taken into account.
pub open spec fn status_now(saved: Seq<char>, run: Option<LiveRun>) -> Seq<char> {
    match run {
        Some(r) => if r.state == AgentState::Completed {
            if r.plan_presented {
                "planned"@
            } else {
                "completed"@
            }
        } else {
            "interrupted"@
        },
        None => saved,
    }
}

/// What a request to go on comes to.
pub open spec fn comes_to(
    context: Option<TaskContext>,
    same_project: bool,
    run: Option<LiveRun>,
    task_intent: MessageIntent,
    c: Continuation,
) -> bool {
    match context {
        None => c matches Continuation::Reply(d, t) && d@ == "needs_task"@ && t@
            == "What would you like me to continue? There is no saved unfinished task or proposed plan for this session."@,
        Some(saved) => if !same_project {
            c matches Continuation::Reply(d, t) && d@ == "needs_task"@ && t@
                == "The previous task belongs to a different or unavailable project. Select the intended project and tell me what to continue."@
        } else if run matches Some(r) && r.state == AgentState::WaitingPermission {
            c matches Continuation::Reply(d, t) && d@ == "conversation"@ && t@
                == "The current task is waiting for your approval. Use its Allow or Deny controls; a chat reply does not approve an action."@
        } else if run matches Some(r) && !ended(r.state) {
            c matches Continuation::Reply(d, t) && d@ == "conversation"@ && t@
                == "That task is already running. You can follow its progress in Activity."@
        } else if resumable(status_now(saved.status@, run), task_intent) {
            c matches Continuation::Task(task) && task@ == saved.task@
        } else if status_now(saved.status@, run) == "completed"@ {
            c matches Continuation::Reply(d, t) && d@ == "needs_task"@ && t@
                == "That task is already complete. What would you like me to do next?"@
        } else {
            c matches Continuation::Reply(d, t) && d@ == "needs_task"@ && t@
                == "I cannot confirm an unfinished task to resume. Tell me the specific next step you want."@
        },
    }
}

/// Nothing is guessed: work is taken up only where a task is saved for this
/// project, no run of it is going on, and it stopped short or was only planned;
/// then it is the saved task itself. A request to go on never approves an
/// action that waits for approval.
pub proof fn law_only_saved_work_is_taken_up(
    context: Option<TaskContext>,
    same_project: bool,
    run: Option<LiveRun>,
    task_intent: MessageIntent,
    c: Continuation,
)
    requires
        comes_to(context, same_project, run, task_intent, c),
    ensures
        c matches Continuation::Task(task) ==> {
            &&& context is Some && task@ == context->0.task@
            &&& same_project
            &&& task_intent == MessageIntent::Task
            &&& run matches Some(r) ==> r.state == AgentState::Completed && r.plan_presented
                || r.state == AgentState::Failed || r.state == AgentState::Cancelled
            &&& run is None ==> context->0.status@ == "planned"@ || context->0.status@
                == "interrupted"@
        },
        context is Some && same_project && task_intent == MessageIntent::Task ==> {
            &&& run is None && (context->0.status@ == "planned"@ || context->0.status@
                == "interrupted"@) ==> c is Task
            &&& (run matches Some(r) && (r.state == AgentState::Failed || r.state
                == AgentState::Cancelled || r.state == AgentState::Completed && r.plan_presented))
                ==> c is Task
        },
{
    reveal_strlit("planned");
    reveal_strlit("interrupted");
    reveal_strlit("completed");
    assert("planned"@.len() == 7 && "interrupted"@.len() == 11 && "completed"@.len() == 9);
}

/// What a request to go on comes to, given the saved task, whether it belongs
/// to the project at hand, a live run of it, and what its text means. Taking
/// up a task needs saved evidence of an unfinished one in this session and
/// project; nothing is guessed.
pub fn resolve_continuation(
    context: Option<TaskContext>,
    same_project: bool,
    run: Option<LiveRun>,
    task_intent: MessageIntent,
) -> (c: Continuation)
    ensures
        comes_to(context, same_project, run, task_intent, c),
{
    let saved = match context {
        Some(saved) => saved,
        None => {
            return Continuation::Reply(
                "needs_task",
                "What would you like me to continue? There is no saved unfinished task or proposed plan for this session.",
            );
        },
    };
    if !same_project {
        return Continuation::Reply(
            "needs_task",
            "The previous task belongs to a different or unavailable project. Select the intended project and tell me what to continue.",
        );
    }
    let status = match &run {
        Some(r) => match r.state {
            AgentState::Completed => if r.plan_presented {
                "planned".to_owned()
            } else {
                "completed".to_owned()
            },
            AgentState::Failed | AgentState::Cancelled => "interrupted".to_owned(),
            AgentState::WaitingPermission => {
                return Continuation::Reply(
                    "conversation",
                    "The current task is waiting for your approval. Use its Allow or Deny controls; a chat reply does not approve an action.",
                );
            },
            _ => {
                return Continuation::Reply(
                    "conversation",
                    "That task is already running. You can follow its progress in Activity.",
                );
            },
        },
        None => saved.status.clone(),
    };
    if (text::same(&status, "planned") || text::same(&status, "interrupted")) && task_intent
        == MessageIntent::Task {
        return Continuation::Task(saved.task);
    }
    if text::same(&status, "completed") {
        return Continuation::Reply(
            "needs_task",
            "That task is already complete. What would you like me to do next?",
        );
    }
    Continuation::Reply(
        "needs_task",
        "I cannot confirm an unfinished task to resume. Tell me the specific next step you want.",
    )
}

/// Only a short message is a courtesy or a request to go on: whatever is longer
/// than "continue with the plan" is a task, however it begins.
pub proof fn law_a_long_message_is_a_task(normalized: Seq<char>)
    requires
        normalized.len() > 22,
    ensures
        intent_of(normalized) == MessageIntent::Task,
{
    reveal_strlit("hi");
    reveal_strlit("hey");
    reveal_strlit("hello");
    reveal_strlit("hello there");
    reveal_strlit("good morning");
    reveal_strlit("good afternoon");
    reveal_strlit("good evening");
    reveal_strlit("thanks");
    reveal_strlit("thank you");
    reveal_strlit("thank you very much");
    reveal_strlit("thanks a lot");
    reveal_strlit("thx");
    reveal_strlit("ty");
    reveal_strlit("looks good to me");
    reveal_strlit("looks good");
    reveal_strlit("sounds good");
    reveal_strlit("sounds great");
    reveal_strlit("that looks good");
    reveal_strlit("that works");
    reveal_strlit("works for me");
    reveal_strlit("great");
    reveal_strlit("nice");
    reveal_strlit("perfect");
    reveal_strlit("awesome");
    reveal_strlit("cool");
    reveal_strlit("okay");
    reveal_strlit("ok");
    reveal_strlit("understood");
    reveal_strlit("got it");
    reveal_strlit("well done");
    reveal_strlit("yes");
    reveal_strlit("yep");
    reveal_strlit("sure");
    reveal_strlit("👍");
    reveal_strlit("👍🏻");
    reveal_strlit("👍🏼");
    reveal_strlit("👍🏽");
    reveal_strlit("👍🏾");
    reveal_strlit("👍🏿");
    reveal_strlit("✅");
    reveal_strlit("continue");
    reveal_strlit("go ahead");
    reveal_strlit("proceed");
    reveal_strlit("carry on");
    reveal_strlit("keep going");
    reveal_strlit("yes proceed");
    reveal_strlit("yes, proceed");
    reveal_strlit("yes go ahead");
    reveal_strlit("yes, go ahead");
    reveal_strlit("continue with the plan");
    reveal_strlit("go ahead with the plan");
    reveal_strlit("implement the plan");
    reveal_strlit("implement it");
    reveal_strlit("do it");
}

/// Every message means one thing: what is listed as a greeting is greeted, and a
/// message that is listed nowhere is a task.
pub proof fn law_what_is_not_listed_is_a_task(normalized: Seq<char>)
    ensures
        is_greeting(normalized) ==> intent_of(normalized) == MessageIntent::Greeting,
        intent_of(normalized) == MessageIntent::Task <==> !is_greeting(normalized)
            && !is_acknowledgement(normalized) && !is_continuation(normalized),
        intent_of(normalized) == MessageIntent::Acknowledgement ==> is_acknowledgement(normalized),
        intent_of(normalized) == MessageIntent::Continue ==> is_continuation(normalized),
{
}

// ---- questions -------------------------------------------------------------------------------

proof fn lemma_after_last(s: Seq<char>, c: char, n: int)
    requires
        0 <= n <= s.len(),
        forall|i: int| n <= i < s.len() ==> #[trigger] s[i] != c,
    ensures
        text::after_last(s, c).len() >= s.len() - n,
        forall|i: int|
            n <= i < s.len() ==> text::after_last(s, c)[text::after_last(s, c).len() - (s.len() - i)]
                == #[trigger] s[i],
    decreases s.len(),
{
    if n < s.len() {
        let t = s.drop_last();
        assert forall|i: int| n <= i < t.len() implies #[trigger] t[i] != c by {
            assert(t[i] == s[i]);
        }
        lemma_after_last(t, c, n);
        let (before, all) = (text::after_last(t, c), text::after_last(s, c));
        assert(s.last() == s[s.len() - 1]);
        assert(all == before.push(s.last()));
        assert forall|i: int| n <= i < s.len() implies all[all.len() - (s.len() - i)]
            == #[trigger] s[i] by {
            if i < t.len() {
                assert(before[before.len() - (t.len() - i)] == t[i]);
            }
        }
    }
}

/// A reply that ends in a question mark asks, also where the mark stands in
/// brackets, quotation marks or emphasis; one that ends in anything else that is
/// neither white space nor such a mark does not.
pub proof fn law_a_question_mark_at_the_end_asks(said: Seq<char>, closing: Seq<char>)
    requires
        said.len() > 0,
        closing.len() < 240,
        forall|i: int|
            0 <= i < closing.len() ==> #[trigger] closing[i] == '*' || closing[i] == '_' || closing[i]
                == ')' || closing[i] == '"',
        !is_closing(said.last()),
    ensures
        asks(said + closing) <==> said.last() == '?',
{
    let s = said + closing;
    let k = closing.len() as int;
    assert(s[s.len() - 1 - k] == said.last());
    assert forall|i: int| s.len() - k <= i < s.len() implies is_closing(#[trigger] s[i])
        && !text::is_space(s[i]) && s[i] != '\n' by {
        assert(s[i] == closing[i - said.len()]);
    }
    assert(!text::is_space(s[s.len() - 1]));
    text::lemma_trailing_space(s, 0);
    assert(s.take(s.len() as int) =~= s);
    assert(text::trimmed_end(s) == s);
    let shown = text::last_chars(s, 240);
    let cut = s.len() - shown.len();
    assert(shown.len() >= k + 1);
    assert forall|i: int| 0 <= i < shown.len() implies shown[i] == s[cut + i] by {}
    let from = shown.len() - 1 - k;
    assert forall|i: int| from <= i < shown.len() implies #[trigger] shown[i] != '\n' by {
        if i > from {
            assert(s[cut + i] != '\n');
        }
    }
    lemma_after_last(shown, '\n', from);
    let line = text::after_last(shown, '\n');
    let marks = closing_marks(line);
    let m = line.len() as int;
    assert(shown[from] == said.last());
    assert(line[m - (shown.len() - from)] == shown[from]);
    assert(line[m - 1 - k] == said.last());
    assert forall|i: int| m - k <= i < m implies #[trigger] marks[i] by {
        let j = i - m + shown.len();
        assert(line[m - (shown.len() - j)] == shown[j]);
        assert(is_closing(s[cut + j]));
    }
    text::lemma_trailing_marks(marks, k);
    let core = text::unmarked_end(line, marks);
    assert(core.len() == m - k);
    assert(core.last() == line[m - 1 - k]);
}

/// The latest reply decides: what an earlier one asked has been answered, and
/// where the assistant has not spoken nothing has been asked.
pub proof fn law_the_latest_reply_decides(history: Seq<Message>, k: int)
    requires
        -1 <= k < history.len(),
        forall|i: int| k < i < history.len() ==> (#[trigger] history[i]).role@ != "assistant"@,
        k >= 0 ==> history[k].role@ == "assistant"@,
    ensures
        latest_asks(history, history.len() as int) == (k >= 0 && asks(history[k].content@)),
{
    lemma_latest_asks(history, k, history.len() as int);
}

proof fn lemma_latest_asks(history: Seq<Message>, k: int, n: int)
    requires
        -1 <= k < n <= history.len() || k == -1 && n == 0,
        forall|i: int| k < i < history.len() ==> (#[trigger] history[i]).role@ != "assistant"@,
        k >= 0 ==> history[k].role@ == "assistant"@,
    ensures
        latest_asks(history, n) == (k >= 0 && asks(history[k].content@)),
    decreases n,
{
    if n > 0 && n - 1 > k {
        lemma_latest_asks(history, k, n - 1);
    }
}

/// Punctuation around a message does not change what it means, and neither does
/// white space around that: a word is read as itself.
pub proof fn law_punctuation_changes_no_meaning(
    space: Seq<char>,
    before: Seq<char>,
    word: Seq<char>,
    after: Seq<char>,
)
    requires
        text::is_blank(space),
        forall|i: int| 0 <= i < before.len() ==> is_punctuation(#[trigger] before[i]),
        forall|i: int| 0 <= i < after.len() ==> is_punctuation(#[trigger] after[i]),
        word.len() > 0,
        forall|i: int|
            0 <= i < word.len() ==> !is_punctuation(#[trigger] word[i]) && !text::is_space(word[i]),
    ensures
        plain_words(space + (before + word + after) + space) == word,
{
    let core = before + word + after;
    let s = space + core + space;
    let (n, m, k) = (space.len() as int, core.len() as int, before.len() as int);
    assert forall|i: int| 0 <= i < m implies !text::is_space(#[trigger] core[i]) by {
        if i < k {
            assert(core[i] == before[i]);
        } else if i < k + word.len() {
            assert(core[i] == word[i - k]);
        } else {
            assert(core[i] == after[i - k - word.len()]);
        }
    }
    assert forall|i: int| 0 <= i < n implies text::is_space(#[trigger] s[i]) by {
        assert(s[i] == space[i]);
    }
    assert(s[n] == core[0]);
    text::lemma_leading_space(s, n);
    let t = text::trimmed_start(s);
    assert(t =~= core + space);
    assert forall|i: int| t.len() - n <= i < t.len() implies text::is_space(#[trigger] t[i]) by {
        assert(t[i] == space[i - m]);
    }
    assert(t[m - 1] == core[m - 1]);
    text::lemma_trailing_space(t, n);
    assert(text::trimmed(s) =~= core);
    let marks = punctuation_marks(core);
    assert forall|i: int| 0 <= i < k implies #[trigger] marks[i] by {
        assert(core[i] == before[i]);
    }
    assert(core[k] == word[0]);
    text::lemma_leading_marks(marks, k);
    let (rest, left) = (core.skip(k), marks.skip(k));
    assert(rest =~= word + after);
    assert forall|i: int| left.len() - after.len() <= i < left.len() implies #[trigger] left[i] by {
        assert(core[k + i] == after[i - word.len()]);
    }
    assert(core[k + word.len() - 1] == word[word.len() - 1]);
    text::lemma_trailing_marks(left, after.len() as int);
    assert(text::unmarked(core, marks) =~= word);
    let gaps = text::space_marks(word);
    assert forall|i: int| 0 <= i < word.len() implies !(#[trigger] gaps[i]) by {}
    text::lemma_one_piece(word, gaps);
    reveal_with_fuel(text::nonempty, 2);
    assert(text::words(word) =~= seq![word]);
}

} // verus!
