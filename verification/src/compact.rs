//! Compaction: older messages folded into a running summary, chunk by chunk,
//! without touching the messages themselves; and the numbers that tell how
//! full a conversation is.
use vstd::prelude::*;
use vstd::utf8::*;

use crate::decimal;
use crate::error;
use crate::error::{ApiError, Refusal};
use crate::history;
use crate::num;
use crate::text;
use crate::types;
use crate::types::Message;

verus! {

/// What the model is asked for.
pub const CONVERSATION_COMPACTION_PROMPT: &'static str =
    "Update the running summary of a conversation between a user and an assistant so that it can replace the messages it covers. Keep the user's goals, constraints and preferences, decisions made, facts and figures, names of files and commands with their results, and every open question or unfinished task. Drop greetings and repetition. Write plain sentences or bullets, at most 250 words, and output only the updated summary.";

/// How a saved summary begins.
pub const COMPACTION_HEADER: &'static str = "[Compacted context — summary of";

// ---- what is kept as it is -----------------------------------------------------------------

/// The bytes of the last `k` messages.
pub open spec fn last_bytes(messages: Seq<Message>, k: int) -> nat {
    history::content_bytes(messages.skip(messages.len() - k))
}

/// How many of the newest messages are kept once `k` are: the newest two in
/// any case, then as many as fit, `max_keep` at most.
pub open spec fn keep_from(messages: Seq<Message>, max_chars: nat, max_keep: nat, k: int) -> int
    decreases messages.len() - k,
{
    if k < messages.len() && (k < 2 || (last_bytes(messages, k + 1) <= max_chars && k < max_keep)) {
        keep_from(messages, max_chars, max_keep, k + 1)
    } else {
        k
    }
}

/// Newest messages to keep as they are when compacting automatically: as many
/// as fit in `max_chars`, at least two (the new message and the reply before
/// it), at most `max_keep`.
pub fn recent_messages_within(messages: &[Message], max_chars: usize, max_keep: usize) -> (r: usize)
    ensures
        r == num::greater(
            keep_from(messages@, max_chars as nat, max_keep as nat, 0),
            2,
        ),
{
    let n: usize = messages.len();
    let mut chars: u128 = 0;
    let mut keep: usize = 0;
    assert(messages@.skip(n as int) =~= Seq::<Message>::empty());
    while keep < n
        invariant_except_break
            keep_from(messages@, max_chars as nat, max_keep as nat, 0) == keep_from(
                messages@,
                max_chars as nat,
                max_keep as nat,
                keep as int,
            ),
            chars == last_bytes(messages@, keep as int),
            chars <= keep * 0x1_0000_0000_0000_0000,
        invariant
            keep <= n,
            n == messages@.len(),
        ensures
            keep_from(messages@, max_chars as nat, max_keep as nat, 0) == keep,
        decreases n - keep,
    {
        let m = &messages[n - 1 - keep];
        proof {
            let longer = messages@.skip(n - keep - 1);
            assert(longer.remove(0) =~= messages@.skip(n - keep));
            history::lemma_content_bytes_remove(longer, 0);
        }
        chars = chars + text::bytes_in(&m.content) as u128;
        if keep >= 2 && (chars > max_chars as u128 || keep >= max_keep) {
            break;
        }
        keep += 1;
    }
    if keep < 2 {
        2
    } else {
        keep
    }
}

// ---- folding ----------------------------------------------------------------------------------

/// Limits of one summary request in a window.
pub struct FoldLimits {
    pub summary_tokens: u32,
    pub prompt_chars: usize,
    pub excerpt_chars: usize,
}

/// Tokens of a summary: a sixth of the window, from 256 to 1,024.
pub open spec fn summary_tokens(n_ctx: nat) -> int {
    num::clamped(n_ctx as int / 6, 256, 1024)
}

/// Characters of one request, three to a token, after the summary it writes
/// and a margin, from 3,000 to 180,000. The lower bound may take up the
/// margin, and yields where the window does not hold it beside the summary.
pub open spec fn prompt_chars(n_ctx: nat) -> int {
    let room = num::less(n_ctx as int, summary_tokens(n_ctx));
    num::lesser(num::clamped(num::less(room, 512) * 3, 3_000, 180_000), room * 3)
}

/// Characters of one message in a request.
pub open spec fn excerpt_chars(n_ctx: nat) -> int {
    num::clamped(prompt_chars(n_ctx) / 3, 600, 3_200)
}

/// Limits of one summary request in a window of `n_ctx` tokens.
pub fn fold_limits(n_ctx: u32) -> (l: FoldLimits)
    ensures
        l.summary_tokens == summary_tokens(n_ctx as nat),
        l.prompt_chars == prompt_chars(n_ctx as nat),
        l.excerpt_chars == excerpt_chars(n_ctx as nat),
        l.summary_tokens <= n_ctx ==> l.prompt_chars <= 3 * (n_ctx - l.summary_tokens),
{
    let sixth: u32 = n_ctx / 6;
    let tokens: u32 = if sixth < 256 {
        256
    } else if sixth > 1024 {
        1024
    } else {
        sixth
    };
    let room: u64 = if n_ctx < tokens {
        0
    } else {
        (n_ctx - tokens) as u64
    };
    let chars: u64 = if room < 512 {
        0
    } else {
        (room - 512) * 3
    };
    let bounded: u64 = if chars < 3_000 {
        3_000
    } else if chars > 180_000 {
        180_000
    } else {
        chars
    };
    let prompt: usize = if bounded < room * 3 {
        bounded as usize
    } else {
        (room * 3) as usize
    };
    let third: usize = prompt / 3;
    let excerpt: usize = if third < 600 {
        600
    } else if third > 3_200 {
        3_200
    } else {
        third
    };
    FoldLimits { summary_tokens: tokens, prompt_chars: prompt, excerpt_chars: excerpt }
}

/// A message's text in a request: all of it, or its beginning and its end.
pub open spec fn excerpt(content: Seq<char>, chars: nat) -> Seq<char> {
    if content.len() <= chars {
        content
    } else {
        text::first_chars(content, chars * 3 / 4) + " […] "@ + text::last_chars(
            content,
            chars / 4,
        )
    }
}

/// A message as it stands in a request.
pub open spec fn fold_line(m: Message, chars: nat) -> Seq<char> {
    "["@ + m.role@ + "] "@ + excerpt(m.content@, chars) + "\n"@
}

/// The lines of the messages from `from` up to `to`.
pub open spec fn fold_lines(messages: Seq<Message>, chars: nat, from: int, to: int) -> Seq<char>
    decreases to - from,
{
    if from >= to {
        Seq::empty()
    } else {
        fold_lines(messages, chars, from, to - 1) + fold_line(messages[to - 1], chars)
    }
}

/// The bytes of a request with the given summary and lines.
pub open spec fn request_bytes(summary: Seq<char>, lines: Seq<char>) -> nat {
    text::byte_len(CONVERSATION_COMPACTION_PROMPT@) + text::byte_len(summary) + text::byte_len(
        lines,
    )
}

/// The first message from `i` on that no longer fits behind the lines of the
/// messages from `from`; a request takes one message in any case.
pub open spec fn fold_end(
    messages: Seq<Message>,
    summary: Seq<char>,
    limit: nat,
    chars: nat,
    from: int,
    i: int,
) -> int
    decreases messages.len() - i,
{
    if i >= messages.len() {
        i
    } else if fold_lines(messages, chars, from, i).len() > 0 && request_bytes(
        summary,
        fold_lines(messages, chars, from, i),
    ) + text::byte_len(fold_line(messages[i], chars)) > limit {
        i
    } else {
        fold_end(messages, summary, limit, chars, from, i + 1)
    }
}

/// A message's text in a request.
fn excerpt_of(content: &str, chars: usize) -> (s: String)
    ensures
        s@ == excerpt(content@, chars as nat),
{
    if text::char_count(content) <= chars {
        return content.to_owned();
    }
    let head: usize = ((chars as u128 * 3) / 4) as usize;
    let mut s = text::take_chars(content, head);
    s.append(" […] ");
    let tail = text::take_last_chars(content, chars / 4);
    s.append(&tail);
    s
}

/// Takes the messages from `from` on that one request can hold, and gives
/// their lines and where the next request begins.
pub fn fold_chunk(messages: &[Message], summary: &str, limits: &FoldLimits, from: usize) -> (r: (
    String,
    usize,
))
    requires
        from <= messages@.len(),
    ensures
        r.1 == fold_end(
            messages@,
            summary@,
            limits.prompt_chars as nat,
            limits.excerpt_chars as nat,
            from as int,
            from as int,
        ),
        r.0@ == fold_lines(messages@, limits.excerpt_chars as nat, from as int, r.1 as int),
        from <= r.1 <= messages@.len(),
        from < messages@.len() ==> from < r.1,
{
    let chars: usize = limits.excerpt_chars;
    let fixed: u128 = text::bytes_in(CONVERSATION_COMPACTION_PROMPT) as u128 + text::bytes_in(
        summary,
    ) as u128;
    let mut lines = String::new();
    let mut i: usize = from;
    while i < messages.len()
        invariant_except_break
            fold_end(
                messages@,
                summary@,
                limits.prompt_chars as nat,
                chars as nat,
                from as int,
                from as int,
            ) == fold_end(
                messages@,
                summary@,
                limits.prompt_chars as nat,
                chars as nat,
                from as int,
                i as int,
            ),
        invariant
            from <= i <= messages@.len(),
            chars == limits.excerpt_chars,
            fixed == text::byte_len(CONVERSATION_COMPACTION_PROMPT@) + text::byte_len(summary@),
            fixed <= 0x2_0000_0000_0000_0000,
            lines@ == fold_lines(messages@, chars as nat, from as int, i as int),
            i == from ==> lines@.len() == 0,
        ensures
            i == fold_end(
                messages@,
                summary@,
                limits.prompt_chars as nat,
                chars as nat,
                from as int,
                from as int,
            ),
            from < messages@.len() ==> from < i,
        decreases messages@.len() - i,
    {
        let m = &messages[i];
        let mut line = "[".to_owned();
        line.append(&m.role);
        line.append("] ");
        let shown = excerpt_of(&m.content, chars);
        line.append(&shown);
        line.append("\n");
        let total: u128 = fixed + text::bytes_in(&lines) as u128 + text::bytes_in(&line) as u128;
        if !lines.as_str().is_empty() && total > limits.prompt_chars as u128 {
            break;
        }
        lines.append(&line);
        i += 1;
    }
    (lines, i)
}

proof fn lemma_fold_lines_nonempty(messages: Seq<Message>, chars: nat, from: int, to: int)
    requires
        from < to,
    ensures
        fold_lines(messages, chars, from, to).len() > 0,
{
    reveal_strlit("\n");
    assert("\n"@.len() == 1);
}

proof fn lemma_fold_end(
    messages: Seq<Message>,
    summary: Seq<char>,
    limit: nat,
    chars: nat,
    from: int,
    i: int,
)
    requires
        0 <= from < i <= messages.len(),
        i == from + 1 || request_bytes(summary, fold_lines(messages, chars, from, i)) <= limit,
    ensures
        ({
            let end = fold_end(messages, summary, limit, chars, from, i);
            &&& i <= end <= messages.len()
            &&& end == from + 1 || request_bytes(summary, fold_lines(messages, chars, from, end))
                <= limit
        }),
    decreases messages.len() - i,
{
    lemma_fold_lines_nonempty(messages, chars, from, i);
    if i < messages.len() && request_bytes(summary, fold_lines(messages, chars, from, i))
        + text::byte_len(fold_line(messages[i], chars)) <= limit {
        text::lemma_byte_len_concat(
            fold_lines(messages, chars, from, i),
            fold_line(messages[i], chars),
        );
        lemma_fold_end(messages, summary, limit, chars, from, i + 1);
    }
}

/// Every summary request fits its limit unless it holds a single message, and
/// takes at least one message, so folding comes to an end.
pub proof fn law_summary_requests_fit(
    messages: Seq<Message>,
    summary: Seq<char>,
    limit: nat,
    chars: nat,
    from: int,
)
    requires
        0 <= from < messages.len(),
    ensures
        ({
            let end = fold_end(messages, summary, limit, chars, from, from);
            &&& from < end <= messages.len()
            &&& end == from + 1 || request_bytes(summary, fold_lines(messages, chars, from, end))
                <= limit
        }),
{
    assert(fold_lines(messages, chars, from, from).len() == 0);
    assert(fold_end(messages, summary, limit, chars, from, from) == fold_end(
        messages,
        summary,
        limit,
        chars,
        from,
        from + 1,
    ));
    lemma_fold_end(messages, summary, limit, chars, from, from + 1);
}

/// No message is left out or folded twice: the lines of two requests in a row
/// are the lines of all their messages.
pub proof fn law_folding_takes_every_message_once(
    messages: Seq<Message>,
    chars: nat,
    from: int,
    mid: int,
    to: int,
)
    requires
        0 <= from <= mid <= to <= messages.len(),
    ensures
        fold_lines(messages, chars, from, to) == fold_lines(messages, chars, from, mid)
            + fold_lines(messages, chars, mid, to),
    decreases to - mid,
{
    if mid < to {
        law_folding_takes_every_message_once(messages, chars, from, mid, to - 1);
        assert(fold_lines(messages, chars, from, to) =~= fold_lines(messages, chars, from, mid)
            + fold_lines(messages, chars, mid, to));
    } else {
        assert(fold_lines(messages, chars, from, mid) + fold_lines(messages, chars, mid, to)
            =~= fold_lines(messages, chars, from, mid));
    }
}

/// What the model is asked.
pub open spec fn summary_request(summary: Seq<char>, lines: Seq<char>) -> Seq<char> {
    CONVERSATION_COMPACTION_PROMPT@ + "\n\nCurrent summary:\n"@ + (if text::is_blank(summary) {
        "(none yet)"@
    } else {
        text::trimmed(summary)
    }) + "\n\nNew messages:\n"@ + lines
}

/// What the model is asked.
pub fn summary_prompt(summary: &str, lines: &str) -> (s: String)
    ensures
        s@ == summary_request(summary@, lines@),
{
    let mut s = CONVERSATION_COMPACTION_PROMPT.to_owned();
    s.append("\n\nCurrent summary:\n");
    let t = text::trim(summary);
    if text::blank(summary) {
        s.append("(none yet)");
    } else {
        s.append(&t);
    }
    s.append("\n\nNew messages:\n");
    s.append(lines);
    s
}

/// The refusal of an empty summary.
pub open spec fn empty_summary() -> Refusal {
    error::bad_request(
        "the model returned an empty context summary"@,
        "Your transcript and existing context are unchanged. Retry with another model or a smaller conversation."@,
    )
}

/// Takes the summary that the model wrote. An empty one changes nothing.
pub fn take_summary(written: &str) -> (r: Result<String, ApiError>)
    ensures
        error::refusal_of(r) == (if text::is_blank(written@) {
            Some(empty_summary())
        } else {
            None
        }),
        r matches Ok(s) ==> s@ == text::trimmed(written@),
{
    if text::blank(written) {
        return Err(
            ApiError::bad(
                "the model returned an empty context summary",
                "Your transcript and existing context are unchanged. Retry with another model or a smaller conversation.",
            ),
        );
    }
    Ok(text::trim(written))
}

/// Where folding stands: the running summary, the first message that it does
/// not cover yet, and the bytes of everything it stands for in the end.
#[derive(Debug, PartialEq, Eq)]
pub struct Fold {
    pub summary: String,
    pub next: usize,
    pub before_chars: usize,
}

impl Fold {
    /// Folding starts from what was summarized before.
    pub fn new(previous: String, messages: &[Message]) -> (f: Fold)
        requires
            text::byte_len(previous@) + history::content_bytes(messages@) <= usize::MAX,
        ensures
            f.summary == previous,
            f.next == 0,
            f.before_chars == text::byte_len(previous@) + history::content_bytes(messages@),
    {
        let bytes: usize = text::bytes_in(&previous) + history::content_bytes_of(messages);
        Fold { summary: previous, next: 0, before_chars: bytes }
    }

    /// The next request to the model and the first message after it; `None`
    /// once every message is covered.
    pub fn request(&self, messages: &[Message], limits: &FoldLimits) -> (r: Option<(String, usize)>)
        requires
            self.next <= messages@.len(),
        ensures
            r is None <==> self.next == messages@.len(),
            r matches Some((prompt, end)) ==> {
                &&& end == fold_end(
                    messages@,
                    self.summary@,
                    limits.prompt_chars as nat,
                    limits.excerpt_chars as nat,
                    self.next as int,
                    self.next as int,
                )
                &&& self.next < end <= messages@.len()
                &&& prompt@ == summary_request(
                    self.summary@,
                    fold_lines(
                        messages@,
                        limits.excerpt_chars as nat,
                        self.next as int,
                        end as int,
                    ),
                )
            },
    {
        if self.next == messages.len() {
            return None;
        }
        let (lines, end) = fold_chunk(messages, &self.summary, limits, self.next);
        Some((summary_prompt(&self.summary, &lines), end))
    }

    /// Takes the model's answer to a request that ended at `end`. An empty one
    /// changes nothing.
    pub fn answered(&mut self, end: usize, written: &str) -> (r: Result<(), ApiError>)
        ensures
            r is Err <==> text::is_blank(written@),
            r matches Err(e) ==> *final(self) == *old(self) && e@ == empty_summary(),
            r is Ok ==> final(self).summary@ == text::trimmed(written@) && *final(self) == (Fold {
                summary: final(self).summary,
                next: end,
                ..*old(self)
            }),
    {
        match take_summary(written) {
            Ok(s) => {
                self.summary = s;
                self.next = end;
                Ok(())
            },
            Err(e) => Err(e),
        }
    }
}

// ---- one compaction ------------------------------------------------------------------------------

/// How a compaction went.
#[derive(Debug, PartialEq, Eq)]
pub struct CompactStats {
    pub text: String,
    pub before_chars: usize,
    pub after_chars: usize,
    pub saved_pct: usize,
    pub messages: usize,
    pub status: String,
}

/// The messages that a conversation's summary already covers, given that its
/// view is the summary and the messages it does not cover.
pub open spec fn covered(total: nat, view: Seq<Message>) -> int {
    if history::has_summary(view) {
        num::less(total as int, view.len() - 1)
    } else {
        0
    }
}

/// Where the messages that are kept begin.
pub open spec fn kept_start(total: nat, keep_recent: nat) -> int {
    num::less(total as int, num::clamped(keep_recent as int, 1, 200))
}

/// The messages that a compaction folds, as a range; `None` where everything
/// older than the newest is summarized already.
pub fn compaction_range(total: usize, view: &[Message], keep_recent: usize) -> (r: Option<
    (usize, usize),
>)
    ensures
        match r {
            Some((from, to)) => from == covered(total as nat, view@) && to == kept_start(
                total as nat,
                keep_recent as nat,
            ) && from < to <= total,
            None => kept_start(total as nat, keep_recent as nat) <= covered(total as nat, view@),
        },
{
    let keep: usize = if keep_recent < 1 {
        1
    } else if keep_recent > 200 {
        200
    } else {
        keep_recent
    };
    let from: usize = if view.len() > 0 && text::starts_with(&view[0].id, "context-summary:") {
        let uncovered: usize = view.len() - 1;
        if total < uncovered {
            0
        } else {
            total - uncovered
        }
    } else {
        0
    };
    let to: usize = if total < keep { 0 } else { total - keep };
    if to <= from {
        None
    } else {
        Some((from, to))
    }
}

/// The next compaction goes on where the last one ended: once the view is the
/// summary of the first `end` messages and the messages after them, those are
/// what counts as covered.
pub proof fn law_compaction_goes_on_where_it_ended(total: nat, end: nat, view: Seq<Message>)
    requires
        end <= total,
        history::has_summary(view),
        view.len() == 1 + total - end,
    ensures
        covered(total, view) == end,
{
}

/// The messages that a compaction asked for by hand keeps.
pub open spec fn kept_as_set(setting: int) -> int {
    num::clamped(setting, 2, 200)
}

/// The messages that a compaction asked for by hand keeps: as set, from 2 to
/// 200.
pub fn kept_by_setting(setting: usize) -> (n: usize)
    ensures
        n == kept_as_set(setting as int),
{
    if setting < 2 {
        2
    } else if setting > 200 {
        200
    } else {
        setting
    }
}

/// The outcome where nothing is left to fold.
pub fn nothing_to_compact(total: usize, keep_recent: usize) -> (s: CompactStats)
    ensures
        s.text@ == "Nothing to compact: "@ + decimal::digits(total as nat)
            + " messages, and everything older than the newest "@ + decimal::digits(
            num::clamped(keep_recent as int, 1, 200) as nat,
        ) + " is already summarized."@,
        s.before_chars == 0,
        s.after_chars == 0,
        s.saved_pct == 0,
        s.messages == total,
        s.status@ == "noop"@,
{
    let keep: usize = if keep_recent < 1 {
        1
    } else if keep_recent > 200 {
        200
    } else {
        keep_recent
    };
    let mut t = "Nothing to compact: ".to_owned();
    let n = decimal::decimal(total as u64);
    t.append(&n);
    t.append(" messages, and everything older than the newest ");
    let k = decimal::decimal(keep as u64);
    t.append(&k);
    t.append(" is already summarized.");
    CompactStats {
        text: t,
        before_chars: 0,
        after_chars: 0,
        saved_pct: 0,
        messages: total,
        status: "noop".to_owned(),
    }
}

/// What follows the first line of `s`, or nothing.
pub open spec fn below_first_line(s: Seq<char>) -> Seq<char> {
    match text::found(s, "\n"@, 0) {
        Some(i) => s.skip(i + 1),
        None => Seq::empty(),
    }
}

/// The summary that folding starts from: the saved one without its header.
pub open spec fn taken_up(saved: Option<Seq<char>>) -> Seq<char> {
    match saved {
        None => Seq::empty(),
        Some(t) => if text::begins(t, COMPACTION_HEADER@) {
            below_first_line(t)
        } else {
            t
        },
    }
}

/// The summary that folding starts from: the saved one without its header.
pub fn previous_summary(saved: Option<&str>) -> (s: String)
    ensures
        s@ == taken_up(
            match saved {
                Some(t) => Some(t@),
                None => None,
            },
        ),
{
    match saved {
        None => String::new(),
        Some(t) => {
            if !text::starts_with(t, COMPACTION_HEADER) {
                return t.to_owned();
            }
            let v = text::chars_of(t);
            let line_end = text::chars_of("\n");
            proof {
                reveal_strlit("\n");
                assert(line_end@.len() == 1);
            }
            match text::find_from(&v, &line_end, 0) {
                Some(i) => {
                    let s = text::string_of(&v, i + 1, v.len());
                    assert(s@ =~= t@.skip(i + 1));
                    s
                },
                None => String::new(),
            }
        },
    }
}

/// The first `end` messages are as they were when they were summarized.
pub open spec fn unchanged(now: Seq<Message>, then: Seq<Message>, end: int) -> bool {
    now.len() >= end && forall|k: int|
        0 <= k < end ==> (#[trigger] now[k]).id@ == then[k].id@ && now[k].content@
            == then[k].content@
}

/// The refusal of a summary of messages that have changed since.
pub open spec fn changed_meanwhile() -> Refusal {
    error::bad_request(
        "conversation changed during compaction"@,
        "Retry compaction on the current transcript."@,
    )
}

/// Refuses a summary of messages that have changed since. Messages added at
/// the end are safe.
pub fn check_unchanged(now: &[Message], then: &[Message], end: usize) -> (r: Result<(), ApiError>)
    requires
        end <= then@.len(),
    ensures
        error::refusal_of(r) == (if unchanged(now@, then@, end as int) {
            None
        } else {
            Some(changed_meanwhile())
        }),
{
    let mut same = now.len() >= end;
    let mut i: usize = 0;
    while i < end && same
        invariant
            i <= end <= then@.len(),
            same ==> now@.len() >= end,
            same ==> forall|k: int|
                0 <= k < i ==> (#[trigger] now@[k]).id@ == then@[k].id@ && now@[k].content@
                    == then@[k].content@,
            !same ==> !unchanged(now@, then@, end as int),
        decreases end - i,
    {
        same = text::same(&now[i].id, &then[i].id) && text::same(&now[i].content, &then[i].content);
        i += 1;
    }
    if same {
        Ok(())
    } else {
        Err(
            ApiError::bad(
                "conversation changed during compaction",
                "Retry compaction on the current transcript.",
            ),
        )
    }
}

/// The summary as it is saved.
pub open spec fn summary_to_save(end: nat, summary: Seq<char>) -> Seq<char> {
    COMPACTION_HEADER@ + " "@ + decimal::digits(end)
        + " older messages; original history preserved]\n"@ + summary
}

/// The summary as it is saved.
pub fn saved_summary(end: usize, summary: &str) -> (s: String)
    ensures
        s@ == summary_to_save(end as nat, summary@),
{
    let mut s = COMPACTION_HEADER.to_owned();
    s.append(" ");
    let n = decimal::decimal(end as u64);
    s.append(&n);
    s.append(" older messages; original history preserved]\n");
    s.append(summary);
    s
}

/// Whether a summary saves anything.
pub fn saves(before_chars: usize, summary: &str) -> (r: bool)
    ensures
        r == (text::byte_len(summary@) < before_chars),
{
    text::bytes_in(summary) < before_chars
}

/// The outcome where the summary would save nothing.
pub open spec fn dropped_stats(s: CompactStats, before_chars: usize, end: usize) -> bool {
    &&& s.text@
        == "The generated summary would not save context, so nothing was changed. Original history is intact."@
    &&& s.before_chars == before_chars
    &&& s.after_chars == before_chars
    &&& s.saved_pct == 0
    &&& s.messages == end
    &&& s.status@ == "noop"@
}

/// The outcome where the summary would save nothing: nothing is changed.
pub fn not_worth_it(before_chars: usize, end: usize) -> (s: CompactStats)
    ensures
        dropped_stats(s, before_chars, end),
{
    CompactStats {
        text:
            "The generated summary would not save context, so nothing was changed. Original history is intact.".to_owned(),
        before_chars,
        after_chars: before_chars,
        saved_pct: 0,
        messages: end,
        status: "noop".to_owned(),
    }
}

/// Hundredths saved.
pub open spec fn saved_share(before: nat, after: nat) -> int {
    if before == 0 {
        0
    } else {
        num::less(before as int, after as int) * 100 / before as int
    }
}

/// The outcome of a compaction.
pub open spec fn compacted_stats(
    s: CompactStats,
    before_chars: usize,
    after_chars: int,
    end: usize,
) -> bool {
    let pct = saved_share(before_chars as nat, after_chars as nat);
    &&& s.text@ == "✓ Context compacted\nBefore "@ + decimal::digits(before_chars as nat)
        + " chars\nAfter "@ + decimal::digits(after_chars as nat) + " chars\nSaved "@
        + decimal::digits(pct as nat) + "% ("@ + decimal::digits(end as nat)
        + " messages → 1 context summary). Original messages, timestamps and tool history are preserved."@
    &&& s.before_chars == before_chars
    &&& s.after_chars == after_chars
    &&& s.saved_pct == pct
    &&& s.messages == end
    &&& s.status@ == "compacted"@
}

/// The outcome of a compaction.
pub fn compacted(before_chars: usize, after_chars: usize, end: usize) -> (s: CompactStats)
    requires
        after_chars <= before_chars,
    ensures
        compacted_stats(s, before_chars, after_chars as int, end),
{
    let saved: u128 = (before_chars - after_chars) as u128 * 100;
    let pct: usize = if before_chars == 0 {
        0
    } else {
        proof {
            assert(saved / before_chars as u128 <= 100) by (nonlinear_arith)
                requires
                    saved == (before_chars - after_chars) * 100,
                    after_chars <= before_chars,
                    before_chars > 0,
            ;
        }
        (saved / before_chars as u128) as usize
    };
    let mut t = "✓ Context compacted\nBefore ".to_owned();
    let b = decimal::decimal(before_chars as u64);
    t.append(&b);
    t.append(" chars\nAfter ");
    let a = decimal::decimal(after_chars as u64);
    t.append(&a);
    t.append(" chars\nSaved ");
    let p = decimal::decimal(pct as u64);
    t.append(&p);
    t.append("% (");
    let e = decimal::decimal(end as u64);
    t.append(&e);
    t.append(
        " messages → 1 context summary). Original messages, timestamps and tool history are preserved.",
    );
    CompactStats {
        text: t,
        before_chars,
        after_chars,
        saved_pct: pct,
        messages: end,
        status: "compacted".to_owned(),
    }
}

/// The refusal of a compaction while no model runs.
pub fn needs_inference() -> (e: ApiError)
    ensures
        e@ == error::bad_request(
            "compaction needs inference running"@,
            "Start inference first, then /compact."@,
        ),
{
    ApiError::bad("compaction needs inference running", "Start inference first, then /compact.")
}

/// What a finished summary comes to.
#[derive(Debug, PartialEq, Eq)]
pub enum Conclusion {
    /// Nothing is changed.
    Keep(CompactStats),
    /// The summary is saved in place of the messages with these ids.
    Save { ids: Vec<String>, summary: String, stats: CompactStats },
}

/// What a compaction concludes with.
pub open spec fn concluded(
    before_chars: usize,
    summary: Seq<char>,
    now: Seq<Message>,
    then: Seq<Message>,
    end: usize,
    r: Result<Conclusion, ApiError>,
) -> bool {
    if text::byte_len(summary) >= before_chars {
        r matches Ok(Conclusion::Keep(stats)) && dropped_stats(stats, before_chars, end)
    } else if !unchanged(now, then, end as int) {
        error::refusal_of(r) == Some(changed_meanwhile())
    } else {
        r matches Ok(Conclusion::Save { ids, summary: saved, stats }) && types::texts(ids@)
            == history::ids_of(then.take(end as int)) && saved@ == summary_to_save(
            end as nat,
            summary,
        ) && compacted_stats(stats, before_chars, text::byte_len(summary) as int, end)
    }
}

/// A summary is saved only where it is shorter than what it stands for and that
/// has not changed since; then all the messages that it covers are marked and the
/// numbers are told as they are. One that saves nothing changes nothing.
pub proof fn law_a_summary_is_saved_where_it_saves(
    before_chars: usize,
    summary: Seq<char>,
    now: Seq<Message>,
    then: Seq<Message>,
    end: usize,
    r: Result<Conclusion, ApiError>,
)
    requires
        end <= then.len(),
        concluded(before_chars, summary, now, then, end, r),
    ensures
        (r is Ok && r->Ok_0 is Save) <==> encode_utf8(summary).len() < before_chars && unchanged(
            now,
            then,
            end as int,
        ),
        (r is Ok && r->Ok_0 is Keep) <==> encode_utf8(summary).len() >= before_chars,
        r matches Ok(Conclusion::Save { ids, summary: saved, stats }) ==> {
            &&& ids@.len() == end
            &&& forall|i: int| 0 <= i < end ==> (#[trigger] ids@[i])@ == then[i].id@
            &&& stats.before_chars == before_chars && stats.after_chars == encode_utf8(summary).len()
            &&& stats.messages == end
            &&& summary.is_suffix_of(saved@)
        },
        r matches Ok(Conclusion::Keep(stats)) ==> stats.before_chars == stats.after_chars
            && stats.saved_pct == 0,
{
    text::lemma_byte_len(summary);
    if let Ok(Conclusion::Save { ids, summary: saved, stats }) = r {
        let marked = types::texts(ids@);
        assert(marked.len() == ids@.len());
        assert forall|i: int| 0 <= i < end implies (#[trigger] ids@[i])@ == then[i].id@ by {
            assert(marked[i] == ids@[i]@);
        }
        assert(summary =~= saved@.subrange(saved@.len() - summary.len(), saved@.len() as int));
    }
}

/// A compaction asked for by hand keeps as many messages as are set, never fewer
/// than two nor more than two hundred.
pub proof fn law_kept_as_set(setting: int)
    ensures
        2 <= setting <= 200 ==> kept_as_set(setting) == setting,
        2 <= kept_as_set(setting) <= 200,
        setting > 200 ==> kept_as_set(setting) == 200,
        setting < 2 ==> kept_as_set(setting) == 2,
{
}

/// Concludes a compaction: a summary that saves nothing is dropped; one whose
/// messages changed while it was written is refused; any other is saved for the
/// first `end` messages.
pub fn conclude(
    before_chars: usize,
    summary: &str,
    now: &[Message],
    then: &[Message],
    end: usize,
) -> (r: Result<Conclusion, ApiError>)
    requires
        end <= then@.len(),
    ensures
        concluded(before_chars, summary@, now@, then@, end, r),
{
    if !saves(before_chars, summary) {
        return Ok(Conclusion::Keep(not_worth_it(before_chars, end)));
    }
    match check_unchanged(now, then, end) {
        Err(e) => Err(e),
        Ok(_) => {
            let mut ids: Vec<String> = Vec::new();
            let mut i: usize = 0;
            while i < end
                invariant
                    i <= end <= then@.len(),
                    types::texts(ids@) == history::ids_of(then@.take(i as int)),
                decreases end - i,
            {
                let ghost was = types::texts(ids@);
                ids.push(then[i].id.as_str().to_owned());
                assert(types::texts(ids@) =~= was.push(then@[i as int].id@));
                assert(history::ids_of(then@.take(i + 1)) =~= history::ids_of(
                    then@.take(i as int),
                ).push(then@[i as int].id@));
                i += 1;
            }
            let after: usize = text::bytes_in(summary);
            let saved = saved_summary(end, summary);
            Ok(Conclusion::Save { ids, summary: saved, stats: compacted(before_chars, after, end) })
        },
    }
}

// ---- what a summary is written from ------------------------------------------------------

/// A folded message is told as its speaker's: its line begins with the saved
/// role in brackets, and goes on with the beginning of what was said, all of it
/// where that is short enough; then the line ends. So what is said of two
/// messages differs where their speakers do.
pub proof fn law_a_folded_message_names_its_speaker(m: Message, other: Message, chars: nat)
    ensures
        ("["@ + m.role@ + "] "@).is_prefix_of(fold_line(m, chars)),
        fold_line(m, chars).last() == '\n',
        m.content@.len() <= chars ==> fold_line(m, chars) == "["@ + m.role@ + "] "@ + m.content@
            + "\n"@,
        m.content@.len() > chars ==> {
            &&& ("["@ + m.role@ + "] "@ + m.content@.take(chars as int * 3 / 4)).is_prefix_of(
                fold_line(m, chars),
            )
            &&& (m.content@.skip(m.content@.len() - chars as int / 4) + "\n"@).is_suffix_of(
                fold_line(m, chars),
            )
            &&& fold_line(m, chars).len() <= m.role@.len() + chars + 9
        },
        m.role@ != other.role@ && !m.role@.contains(']') && !other.role@.contains(']')
            ==> fold_line(m, chars) != fold_line(other, chars),
{
    lemma_line_parts(m, chars);
    lemma_line_parts(other, chars);
    if m.role@ != other.role@ && !m.role@.contains(']') && !other.role@.contains(']') {
        let a = fold_line(m, chars);
        let b = fold_line(other, chars);
        let (p, q) = (m.role@, other.role@);
        if a == b {
            if p.len() < q.len() {
                assert(a[1 + p.len() as int] == ']');
                assert(b[1 + p.len() as int] == q[p.len() as int]);
                assert(q.contains(q[p.len() as int]));
            } else if q.len() < p.len() {
                assert(b[1 + q.len() as int] == ']');
                assert(a[1 + q.len() as int] == p[q.len() as int]);
                assert(p.contains(p[q.len() as int]));
            } else {
                assert forall|i: int| 0 <= i < p.len() implies p[i] == q[i] by {
                    assert(a[1 + i] == p[i]);
                    assert(b[1 + i] == q[i]);
                }
                assert(p =~= q);
            }
        }
    }
}

proof fn lemma_line_parts(m: Message, chars: nat)
    ensures
        ({
            let line = fold_line(m, chars);
            let head = "["@ + m.role@ + "] "@;
            let told = excerpt(m.content@, chars);
            &&& head.len() == m.role@.len() + 3
            &&& line.len() == head.len() + told.len() + 1
            &&& head.is_prefix_of(line)
            &&& (head + told).is_prefix_of(line)
            &&& line.last() == '\n'
            &&& line[1 + m.role@.len() as int] == ']'
            &&& forall|i: int| 0 <= i < m.role@.len() ==> line[1 + i] == #[trigger] m.role@[i]
            &&& m.content@.len() > chars ==> {
                &&& told.len() <= chars + 5
                &&& (head + m.content@.take(chars as int * 3 / 4)).is_prefix_of(line)
                &&& (m.content@.skip(m.content@.len() - chars as int / 4) + "\n"@).is_suffix_of(
                    line,
                )
            }
        }),
{
    reveal_strlit("[");
    reveal_strlit("] ");
    reveal_strlit("\n");
    reveal_strlit(" […] ");
    let line = fold_line(m, chars);
    let head = "["@ + m.role@ + "] "@;
    let told = excerpt(m.content@, chars);
    assert(head =~= line.subrange(0, head.len() as int));
    assert(head + told =~= line.subrange(0, (head + told).len() as int));
    if m.content@.len() > chars {
        let begin = m.content@.take(chars as int * 3 / 4);
        let end = m.content@.skip(m.content@.len() - chars as int / 4);
        assert(told =~= begin + " […] "@ + end) by {
            if chars as int / 4 == 0 {
                assert(end =~= Seq::<char>::empty());
            }
        }
        assert(head + begin =~= line.subrange(0, (head + begin).len() as int));
        let tail = end + "\n"@;
        assert(tail =~= line.subrange(line.len() - tail.len(), line.len() as int));
    }
}

/// A request tells every message that it takes, in order, each under its
/// speaker: behind the lines of the messages before it and before those of the
/// messages after it.
pub proof fn law_a_request_tells_every_message(
    messages: Seq<Message>,
    summary: Seq<char>,
    chars: nat,
    from: int,
    to: int,
    i: int,
)
    requires
        0 <= from <= i < to <= messages.len(),
    ensures
        ({
            let lines = fold_lines(messages, chars, from, to);
            &&& lines == fold_lines(messages, chars, from, i) + fold_line(messages[i], chars)
                + fold_lines(messages, chars, i + 1, to)
            &&& ("\n\nNew messages:\n"@ + lines).is_suffix_of(summary_request(summary, lines))
            &&& CONVERSATION_COMPACTION_PROMPT@.is_prefix_of(summary_request(summary, lines))
            &&& !text::is_blank(summary) ==> summary_request(summary, lines)
                == CONVERSATION_COMPACTION_PROMPT@ + "\n\nCurrent summary:\n"@ + text::trimmed(
                summary,
            ) + ("\n\nNew messages:\n"@ + lines)
        }),
{
    let lines = fold_lines(messages, chars, from, to);
    law_folding_takes_every_message_once(messages, chars, from, i + 1, to);
    assert(lines =~= fold_lines(messages, chars, from, i) + fold_line(messages[i], chars)
        + fold_lines(messages, chars, i + 1, to));
    let request = summary_request(summary, lines);
    let tail = "\n\nNew messages:\n"@ + lines;
    let prompt = CONVERSATION_COMPACTION_PROMPT@;
    assert(tail =~= request.subrange(request.len() - tail.len(), request.len() as int));
    assert(prompt =~= request.subrange(0, prompt.len() as int));
    if !text::is_blank(summary) {
        assert(request =~= prompt + "\n\nCurrent summary:\n"@ + text::trimmed(summary) + tail);
    }
}

/// A request stops only where the next message would not fit: with its line
/// the instruction, the summary and the lines come to more bytes than the
/// limit.
pub proof fn law_a_request_takes_all_that_fits(
    messages: Seq<Message>,
    summary: Seq<char>,
    limit: nat,
    chars: nat,
    from: int,
)
    requires
        0 <= from < messages.len(),
    ensures
        ({
            let end = fold_end(messages, summary, limit, chars, from, from);
            let bytes = |to: int|
                encode_utf8(CONVERSATION_COMPACTION_PROMPT@).len() + encode_utf8(summary).len()
                    + encode_utf8(fold_lines(messages, chars, from, to)).len();
            &&& from < end <= messages.len()
            &&& end > from + 1 ==> bytes(end) <= limit
            &&& end < messages.len() ==> bytes(end + 1) > limit
        }),
{
    let end = fold_end(messages, summary, limit, chars, from, from);
    law_summary_requests_fit(messages, summary, limit, chars, from);
    lemma_fold_stops(messages, summary, limit, chars, from, from);
    text::lemma_byte_len(CONVERSATION_COMPACTION_PROMPT@);
    text::lemma_byte_len(summary);
    text::lemma_byte_len(fold_lines(messages, chars, from, end));
    text::lemma_byte_len(fold_lines(messages, chars, from, end + 1));
    if end < messages.len() {
        text::lemma_byte_len_concat(
            fold_lines(messages, chars, from, end),
            fold_line(messages[end], chars),
        );
    }
}

proof fn lemma_fold_stops(
    messages: Seq<Message>,
    summary: Seq<char>,
    limit: nat,
    chars: nat,
    from: int,
    i: int,
)
    requires
        0 <= from <= i <= messages.len(),
    ensures
        ({
            let end = fold_end(messages, summary, limit, chars, from, i);
            end < messages.len() ==> request_bytes(summary, fold_lines(messages, chars, from, end))
                + text::byte_len(fold_line(messages[end], chars)) > limit
        }),
    decreases messages.len() - i,
{
    if i < messages.len() {
        if fold_lines(messages, chars, from, i).len() > 0 && request_bytes(
            summary,
            fold_lines(messages, chars, from, i),
        ) + text::byte_len(fold_line(messages[i], chars)) > limit {
        } else {
            lemma_fold_stops(messages, summary, limit, chars, from, i + 1);
        }
    }
}

/// What a window allows: a summary of 256 to 1,024 tokens, no more than a sixth
/// of a window that holds so much; a request that leaves room for it and for
/// 512 tokens more at three characters to a token, as long as it may be in a
/// window of 2,048 tokens or more; and no less in a larger window.
pub proof fn law_limits_follow_the_window(n: nat, larger: nat)
    requires
        n <= larger,
    ensures
        256 <= summary_tokens(n) <= 1024,
        n >= 1536 ==> 6 * summary_tokens(n) <= n,
        n >= 6144 ==> summary_tokens(n) == 1024,
        1536 <= n <= 6144 ==> n < 6 * summary_tokens(n) + 6,
        prompt_chars(n) <= 180_000,
        n >= 2048 && prompt_chars(n) < 180_000 ==> prompt_chars(n) + 3 * summary_tokens(n) + 1536
            == 3 * n,
        n >= 2048 && prompt_chars(n) == 180_000 ==> prompt_chars(n) + 3 * summary_tokens(n) + 1536
            <= 3 * n,
        summary_tokens(n) <= n ==> prompt_chars(n) <= 3 * (n - summary_tokens(n)),
        summary_tokens(n) <= summary_tokens(larger),
        prompt_chars(n) <= prompt_chars(larger),
        600 <= excerpt_chars(n) <= 3_200,
        prompt_chars(n) >= 9_600 ==> excerpt_chars(n) == 3_200,
        1_800 <= prompt_chars(n) < 9_600 ==> 3 * excerpt_chars(n) <= prompt_chars(n) < 3
            * excerpt_chars(n) + 3,
{
}

/// What automatic compaction keeps: at least the two newest messages; any more
/// of them fit the characters given and stay within the number given; and one
/// more would not.
pub proof fn law_the_newest_messages_that_fit_are_kept(
    messages: Seq<Message>,
    max_chars: nat,
    max_keep: nat,
)
    ensures
        ({
            let kept = keep_from(messages, max_chars, max_keep, 0);
            let bytes = |k: int| history::content_bytes(messages.skip(messages.len() - k));
            &&& num::lesser(2, messages.len() as int) <= kept <= messages.len()
            &&& kept > 2 ==> bytes(kept) <= max_chars && kept <= max_keep
            &&& 2 <= kept < messages.len() ==> bytes(kept + 1) > max_chars || kept >= max_keep
        }),
{
    lemma_keep_from(messages, max_chars, max_keep, 0);
}

proof fn lemma_keep_from(messages: Seq<Message>, max_chars: nat, max_keep: nat, k: int)
    requires
        0 <= k <= messages.len(),
        k > 2 ==> last_bytes(messages, k) <= max_chars && k <= max_keep,
    ensures
        ({
            let kept = keep_from(messages, max_chars, max_keep, k);
            &&& k <= kept <= messages.len()
            &&& num::lesser(2, messages.len() as int) <= kept
            &&& kept > 2 ==> last_bytes(messages, kept) <= max_chars && kept <= max_keep
            &&& 2 <= kept < messages.len() ==> last_bytes(messages, kept + 1) > max_chars || kept
                >= max_keep
        }),
    decreases messages.len() - k,
{
    if k < messages.len() && (k < 2 || (last_bytes(messages, k + 1) <= max_chars && k < max_keep)) {
        lemma_keep_from(messages, max_chars, max_keep, k + 1);
    }
}

/// A compaction leaves the newest messages out, as many as are to be kept, from
/// one to 200; and it begins behind what the summary covers already.
pub proof fn law_a_compaction_leaves_the_newest(total: nat, keep: nat, view: Seq<Message>)
    ensures
        0 <= kept_start(total, keep) <= total,
        1 <= keep <= 200 && keep <= total ==> total - kept_start(total, keep) == keep,
        keep == 0 && total > 0 ==> total - kept_start(total, keep) == 1,
        keep > 200 && total >= 200 ==> total - kept_start(total, keep) == 200,
        !history::has_summary(view) ==> covered(total, view) == 0,
        history::has_summary(view) && view.len() <= total + 1 ==> covered(total, view)
            + view.len() == total + 1,
{
}

proof fn lemma_header_is_one_line(end: nat)
    ensures
        ({
            let head = COMPACTION_HEADER@ + " "@ + decimal::digits(end)
                + " older messages; original history preserved]"@;
            &&& !head.contains('\n')
            &&& COMPACTION_HEADER@.is_prefix_of(head)
        }),
{
    let head = COMPACTION_HEADER@ + " "@ + decimal::digits(end)
        + " older messages; original history preserved]"@;
    reveal_strlit("[Compacted context — summary of");
    reveal_strlit(" ");
    reveal_strlit(" older messages; original history preserved]");
    decimal::law_digits_name_the_number(end);
    assert(COMPACTION_HEADER@ =~= head.subrange(0, COMPACTION_HEADER@.len() as int));
    let a = COMPACTION_HEADER@.len() as int;
    let b = a + 1 + decimal::digits(end).len();
    assert forall|i: int| 0 <= i < head.len() implies head[i] != '\n' by {
        if i < a {
            assert(head[i] == COMPACTION_HEADER@[i]);
        } else if i == a {
            assert(head[i] == ' ');
        } else if i < b {
            assert(head[i] == decimal::digits(end)[i - a - 1]);
        } else {
            assert(head[i] == " older messages; original history preserved]"@[i - b]);
        }
    }
}

/// The next compaction starts from what the last one wrote: a summary that was
/// saved is taken up again as it was, without its header; any other text is
/// taken as it is, and without one nothing is.
pub proof fn law_a_saved_summary_is_taken_up_again(end: nat, summary: Seq<char>, other: Seq<char>)
    ensures
        taken_up(Some(summary_to_save(end, summary))) == summary,
        !COMPACTION_HEADER@.is_prefix_of(other) ==> taken_up(Some(other)) == other,
        taken_up(None) == Seq::<char>::empty(),
{
    let saved = summary_to_save(end, summary);
    let head = COMPACTION_HEADER@ + " "@ + decimal::digits(end)
        + " older messages; original history preserved]"@;
    let close = " older messages; original history preserved]\n"@;
    lemma_header_is_one_line(end);
    reveal_strlit("\n");
    reveal_strlit(" older messages; original history preserved]");
    reveal_strlit(" older messages; original history preserved]\n");
    assert(close =~= " older messages; original history preserved]"@ + "\n"@);
    assert(saved =~= head + "\n"@ + summary);
    assert(text::begins(saved, COMPACTION_HEADER@)) by {
        assert(saved.subrange(0, COMPACTION_HEADER@.len() as int) =~= COMPACTION_HEADER@);
    }
    text::lemma_found(saved, "\n"@, 0);
    let n = head.len() as int;
    assert(text::occurs_at(saved, "\n"@, n)) by {
        assert(saved.subrange(n, n + 1) =~= "\n"@);
    }
    assert forall|k: int| 0 <= k < n implies !#[trigger] text::occurs_at(saved, "\n"@, k) by {
        if text::occurs_at(saved, "\n"@, k) {
            assert(saved.subrange(k, k + 1)[0] == head[k]);
            assert(head.contains(head[k]));
        }
    }
    assert(text::found(saved, "\n"@, 0) == Some(n));
    assert(saved.skip(n + 1) =~= summary);
    if text::begins(other, COMPACTION_HEADER@) {
        assert(COMPACTION_HEADER@ =~= other.subrange(0, COMPACTION_HEADER@.len() as int));
    }
}

/// The share that a compaction is said to have saved is the share it saved, in
/// whole hundredths.
pub proof fn law_the_saved_share(before: nat, after: nat)
    requires
        after <= before,
    ensures
        0 <= saved_share(before, after) <= 100,
        before > 0 ==> saved_share(before, after) * before <= (before - after) * 100 < (saved_share(
            before,
            after,
        ) + 1) * before,
{
    if before > 0 {
        let saved = (before - after) * 100;
        vstd::arithmetic::div_mod::lemma_fundamental_div_mod(saved, before as int);
        vstd::arithmetic::mul::lemma_mul_is_commutative(before as int, saved / before as int);
        vstd::arithmetic::mul::lemma_mul_is_distributive_add(
            before as int,
            saved / before as int,
            1,
        );
        vstd::arithmetic::mul::lemma_mul_is_commutative(before as int, saved / before as int + 1);
        assert(saved / before as int <= 100) by (nonlinear_arith)
            requires
                before > 0,
                saved == (before - after) * 100,
                after <= before,
        ;
        assert(saved / before as int >= 0) by (nonlinear_arith)
            requires
                before > 0,
                saved == (before - after) * 100,
                after <= before,
        ;
    }
}

/// Messages that were only added to count as unchanged; one whose words or id
/// are another's, or that is gone, does not.
pub proof fn law_a_changed_message_is_noticed(
    now: Seq<Message>,
    then: Seq<Message>,
    more: Seq<Message>,
    end: int,
    k: int,
)
    requires
        0 <= k < end <= then.len(),
    ensures
        unchanged(then + more, then, end),
        now.len() < end ==> !unchanged(now, then, end),
        now.len() >= end && (now[k].content@ != then[k].content@ || now[k].id@ != then[k].id@)
            ==> !unchanged(now, then, end),
{
}

} // verus!
