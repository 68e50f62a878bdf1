//! The rounds of one chat reply: generate, run a tool, and go on, within
//! fixed limits; what is left out when the prompt does not fit; and how the
//! reply ends.
use vstd::prelude::*;
use vstd::utf8::*;

use crate::decimal;
use crate::history;
use crate::num;
use crate::offer::ChatToolOffer;
use crate::offer;
use crate::prompt::ReasoningMode;
use crate::text;
use crate::types;
use crate::types::{ChatTurn, Turn};

verus! {

/// Tool rounds of one reply at most.
pub const CHAT_TOOL_ROUNDS: u32 = 24;

// ---- room for the reply ------------------------------------------------------------

/// Tokens one reply may take: what the reasoning asked for allows and the
/// window holds after the input and 256 tokens of slack, and 256 where that
/// comes to less. Never more than the window holds after the input.
pub open spec fn output_budget(
    n_ctx: nat,
    input_tokens: nat,
    reasoning: ReasoningMode,
    budget: Seq<char>,
) -> int {
    let cap = match reasoning {
        ReasoningMode::Off => 8192int,
        _ => if budget == "high"@ {
            16384
        } else {
            12288
        },
    };
    let left = num::less(n_ctx as int, input_tokens as int);
    num::lesser(num::greater(num::lesser(cap, num::less(left, 256)), 256), left)
}

/// Output allowance for one chat reply: generous enough for a long code
/// answer, never larger than what the context can hold after the input.
pub fn chat_output_budget(n_ctx: u32, input_tokens: u32, reasoning: ReasoningMode, budget: &str)
    -> (r: u32)
    ensures
        r == output_budget(n_ctx as nat, input_tokens as nat, reasoning, budget@),
        input_tokens <= n_ctx ==> r <= n_ctx - input_tokens,
        input_tokens + 256 <= n_ctx ==> 256 <= r,
        r <= 16384,
{
    let cap: u32 = match reasoning {
        ReasoningMode::Off => 8192,
        _ => if text::same(budget, "high") {
            16384
        } else {
            12288
        },
    };
    let left: u32 = if n_ctx < input_tokens { 0 } else { n_ctx - input_tokens };
    let room: u32 = if left < 256 { 0 } else { left - 256 };
    let fit: u32 = if cap < room { cap } else { room };
    let floored: u32 = if fit < 256 { 256 } else { fit };
    if floored < left {
        floored
    } else {
        left
    }
}

/// Tokens kept for the reply while old tool results are released: a quarter
/// of the window, from 1,024 to 8,192, and no more than half of it.
pub open spec fn reserve(n_ctx: nat) -> int {
    num::lesser(num::clamped(n_ctx as int / 4, 1024, 8192), n_ctx as int / 2)
}

/// Tokens kept for the reply while old tool results are released.
pub fn output_reserve(n_ctx: u32) -> (r: u32)
    ensures
        r == reserve(n_ctx as nat),
{
    let quarter: u32 = n_ctx / 4;
    let held: u32 = if quarter < 1024 {
        1024
    } else if quarter > 8192 {
        8192
    } else {
        quarter
    };
    if held < n_ctx / 2 {
        held
    } else {
        n_ctx / 2
    }
}

// ---- leaving out the oldest history --------------------------------------------------

/// How many system turns lead.
pub open spec fn leading_system(turns: Seq<Turn>) -> nat
    decreases turns.len(),
{
    if turns.len() > 0 && turns[0].role == "system"@ {
        1 + leading_system(turns.skip(1))
    } else {
        0
    }
}

/// Tokens that dropping a turn frees, three bytes to a token, rounded up.
pub open spec fn turn_tokens(t: Turn) -> int {
    (text::byte_len(t.content) as int + 2) / 3
}

/// The first position from `from` on, up to `last`, before which turns worth
/// `tokens` stand.
pub open spec fn freed_at(turns: Seq<Turn>, from: int, last: int, tokens: int) -> int
    decreases last - from,
{
    if from < last && tokens > 0 {
        freed_at(turns, from + 1, last, tokens - turn_tokens(turns[from]))
    } else {
        from
    }
}

/// The first user turn from `from` on, or `last`.
pub open spec fn user_from(turns: Seq<Turn>, from: int, last: int) -> int
    decreases last - from,
{
    if from < last && turns[from].role != "user"@ {
        user_from(turns, from + 1, last)
    } else {
        from
    }
}

/// Where what is kept of the history begins, once `tokens` are freed.
pub open spec fn kept_from(turns: Seq<Turn>, tokens: int) -> int {
    match history::last_user(turns, turns.len() as int) {
        None => leading_system(turns) as int,
        Some(last) => user_from(
            turns,
            freed_at(turns, leading_system(turns) as int, last, tokens),
            last,
        ),
    }
}

/// The turns without the oldest history worth `tokens`.
pub open spec fn without_oldest(turns: Seq<Turn>, tokens: int) -> Seq<Turn> {
    turns.take(leading_system(turns) as int) + turns.skip(kept_from(turns, tokens))
}

proof fn lemma_leading_system(turns: Seq<Turn>, n: int)
    requires
        0 <= n <= turns.len(),
        forall|i: int| 0 <= i < n ==> (#[trigger] turns[i]).role == "system"@,
        n < turns.len() ==> turns[n].role != "system"@,
    ensures
        leading_system(turns) == n,
    decreases n,
{
    if n > 0 {
        let t = turns.skip(1);
        assert forall|i: int| 0 <= i < n - 1 implies (#[trigger] t[i]).role == "system"@ by {
            assert(t[i] == turns[i + 1]);
        }
        if n < turns.len() {
            assert(t[n - 1] == turns[n]);
        }
        lemma_leading_system(t, n - 1);
    }
}

proof fn lemma_leading_are_system(turns: Seq<Turn>)
    ensures
        leading_system(turns) <= turns.len(),
        forall|i: int|
            0 <= i < leading_system(turns) ==> (#[trigger] turns[i]).role == "system"@,
    decreases turns.len(),
{
    if turns.len() > 0 && turns[0].role == "system"@ {
        let t = turns.skip(1);
        lemma_leading_are_system(t);
        assert forall|i: int| 0 <= i < leading_system(turns) implies (#[trigger] turns[i]).role
            == "system"@ by {
            if i > 0 {
                assert(t[i - 1] == turns[i]);
            }
        }
    }
}

proof fn lemma_system_is_not_user()
    ensures
        "system"@ != "user"@,
{
    reveal_strlit("system");
    reveal_strlit("user");
    assert("system"@.len() != "user"@.len());
}

proof fn lemma_freed_at(turns: Seq<Turn>, from: int, last: int, tokens: int)
    requires
        0 <= from <= last <= turns.len(),
    ensures
        from <= freed_at(turns, from, last, tokens) <= last,
    decreases last - from,
{
    if from < last && tokens > 0 {
        lemma_freed_at(turns, from + 1, last, tokens - turn_tokens(turns[from]));
    }
}

proof fn lemma_user_from(turns: Seq<Turn>, from: int, last: int)
    requires
        0 <= from <= last < turns.len(),
        turns[last].role == "user"@,
    ensures
        from <= user_from(turns, from, last) <= last,
        turns[user_from(turns, from, last)].role == "user"@,
    decreases last - from,
{
    if from < last && turns[from].role != "user"@ {
        lemma_user_from(turns, from + 1, last);
    }
}

/// Removes the oldest saved-history turns until at least `tokens` are freed
/// (counted at 3 bytes per token, which over- rather than under-frees), never
/// the leading system turns or the latest user message and anything after it.
/// Returns how many turns were removed.
pub fn drop_oldest_history(turns: &mut Vec<ChatTurn>, tokens: u32) -> (removed: usize)
    ensures
        types::turns(final(turns)@) == without_oldest(types::turns(old(turns)@), tokens as int),
        removed == kept_from(types::turns(old(turns)@), tokens as int) - leading_system(
            types::turns(old(turns)@),
        ),
        final(turns)@.len() + removed == old(turns)@.len(),
{
    let ghost all = types::turns(turns@);
    let mut first: usize = 0;
    while first < turns.len() && text::same(&turns[first].role, "system")
        invariant
            first <= turns@.len(),
            all == types::turns(turns@),
            forall|i: int| 0 <= i < first ==> (#[trigger] all[i]).role == "system"@,
        decreases turns@.len() - first,
    {
        assert(all[first as int].role == turns@[first as int].role@);
        first += 1;
    }
    proof {
        if first < turns@.len() {
            assert(all[first as int].role == turns@[first as int].role@);
        }
        lemma_leading_system(all, first as int);
        history::lemma_last_user(all, all.len() as int);
    }
    let last: usize = match history::latest_user_turn(turns) {
        Some(last) => last,
        None => {
            assert(all.take(first as int) + all.skip(first as int) =~= all);
            return 0;
        },
    };
    proof {
        lemma_system_is_not_user();
        if last < first {
            assert(all[last as int].role == "system"@);
        }
    }
    let mut end: usize = first;
    let mut left: i128 = tokens as i128;
    while end < last && left > 0
        invariant
            first <= end <= last < turns@.len(),
            all == types::turns(turns@),
            left <= tokens,
            freed_at(all, first as int, last as int, tokens as int) == freed_at(
                all,
                end as int,
                last as int,
                left as int,
            ),
        decreases last - end,
    {
        let n: usize = text::bytes_in(&turns[end].content);
        let worth: u128 = (n as u128 + 2) / 3;
        assert(turn_tokens(all[end as int]) == worth);
        left = left - worth as i128;
        end += 1;
    }
    let ghost freed = end as int;
    while end < last && !text::same(&turns[end].role, "user")
        invariant
            first <= end <= last < turns@.len(),
            all == types::turns(turns@),
            user_from(all, freed, last as int) == user_from(all, end as int, last as int),
        decreases last - end,
    {
        assert(all[end as int].role == turns@[end as int].role@);
        end += 1;
    }
    proof {
        if end < last {
            assert(all[end as int].role == turns@[end as int].role@);
        }
        assert(kept_from(all, tokens as int) == end);
    }
    let removed: usize = end - first;
    let mut k: usize = 0;
    assert(all.take(first as int) + all.skip(first as int) =~= all);
    while k < removed
        invariant
            k <= removed,
            first + removed <= all.len(),
            turns@.len() + k == all.len(),
            types::turns(turns@) == all.take(first as int) + all.skip(first + k),
        decreases removed - k,
    {
        let ghost was = turns@;
        let _ = turns.remove(first);
        proof {
            assert(types::turns(was.remove(first as int)) =~= types::turns(was).remove(
                first as int,
            ));
            assert((all.take(first as int) + all.skip(first + k)).remove(first as int) =~= all.take(
                first as int,
            ) + all.skip(first + k + 1));
        }
        k += 1;
    }
    removed
}

/// Leaving out the oldest history keeps the leading system turns, the latest
/// user message and everything after it; what is left of the history begins
/// with a user turn.
pub proof fn law_overflow_keeps_the_prompt_and_the_question(turns: Seq<Turn>, tokens: int)
    ensures
        ({
            let first = leading_system(turns) as int;
            let kept = without_oldest(turns, tokens);
            &&& kept.take(first) == turns.take(first)
            &&& match history::last_user(turns, turns.len() as int) {
                None => kept == turns,
                Some(last) => {
                    let from = kept_from(turns, tokens);
                    &&& first <= from <= last
                    &&& kept == turns.take(first) + turns.skip(from)
                    &&& kept.skip(first + last - from) == turns.skip(last)
                    &&& kept[first].role == "user"@
                },
            }
        }),
{
    lemma_leading_are_system(turns);
    lemma_system_is_not_user();
    let first = leading_system(turns) as int;
    let kept = without_oldest(turns, tokens);
    history::lemma_last_user(turns, turns.len() as int);
    match history::last_user(turns, turns.len() as int) {
        None => {
            assert(kept =~= turns);
            assert(kept.take(first) =~= turns.take(first));
        },
        Some(last) => {
            if last < first {
                assert(turns[last].role == "system"@);
            }
            lemma_freed_at(turns, first, last, tokens);
            lemma_user_from(turns, freed_at(turns, first, last, tokens), last);
            let from = kept_from(turns, tokens);
            assert(kept.take(first) =~= turns.take(first));
            assert(kept.skip(first + last - from) =~= turns.skip(last));
        },
    }
}

/// The turns left out are worth the tokens asked for, unless everything
/// before the question is left out.
pub proof fn law_overflow_frees_enough(turns: Seq<Turn>, tokens: int)
    requires
        history::last_user(turns, turns.len() as int) is Some,
    ensures
        ({
            let first = leading_system(turns) as int;
            let from = kept_from(turns, tokens);
            from == history::last_user(turns, turns.len() as int)->0 || tokens_between(
                turns,
                first,
                from,
            ) >= tokens
        }),
{
    lemma_leading_are_system(turns);
    lemma_system_is_not_user();
    let first = leading_system(turns) as int;
    history::lemma_last_user(turns, turns.len() as int);
    let last = history::last_user(turns, turns.len() as int)->0;
    if last < first {
        assert(turns[last].role == "system"@);
    }
    lemma_freed_at(turns, first, last, tokens);
    lemma_freed_tokens(turns, first, last, tokens);
    let freed = freed_at(turns, first, last, tokens);
    lemma_user_from(turns, freed, last);
    lemma_tokens_between(turns, first, freed, user_from(turns, freed, last));
}

/// Tokens of the turns from `from` up to `to`.
pub open spec fn tokens_between(turns: Seq<Turn>, from: int, to: int) -> int
    decreases to - from,
{
    if from >= to {
        0
    } else {
        turn_tokens(turns[from]) + tokens_between(turns, from + 1, to)
    }
}

proof fn lemma_freed_tokens(turns: Seq<Turn>, from: int, last: int, tokens: int)
    requires
        0 <= from <= last <= turns.len(),
    ensures
        freed_at(turns, from, last, tokens) == last || tokens_between(
            turns,
            from,
            freed_at(turns, from, last, tokens),
        ) >= tokens,
    decreases last - from,
{
    if from < last && tokens > 0 {
        let rest = tokens - turn_tokens(turns[from]);
        lemma_freed_tokens(turns, from + 1, last, rest);
        lemma_freed_at(turns, from + 1, last, rest);
    }
}

proof fn lemma_tokens_between(turns: Seq<Turn>, from: int, mid: int, to: int)
    requires
        from <= mid <= to,
    ensures
        tokens_between(turns, from, to) >= tokens_between(turns, from, mid),
    decreases mid - from,
{
    if from < mid {
        lemma_tokens_between(turns, from + 1, mid, to);
    } else {
        lemma_tokens_nonnegative(turns, from, to);
    }
}

proof fn lemma_tokens_nonnegative(turns: Seq<Turn>, from: int, to: int)
    ensures
        tokens_between(turns, from, to) >= 0,
    decreases to - from,
{
    if from < to {
        lemma_tokens_nonnegative(turns, from + 1, to);
    }
}

/// What the user still sees once a round's text is taken back: the text as it
/// was when the round began.
pub fn discard_round_text(visible: &str, round_start: usize) -> (r: String)
    ensures
        r@ == text::prefix_within(visible@, round_start as nat),
        forall|before: Seq<char>, round: Seq<char>|
            visible@ == #[trigger] (before + round) && round_start == text::byte_len(before) ==> r@
                == before,
{
    proof {
        assert forall|before: Seq<char>, round: Seq<char>|
            visible@ == #[trigger] (before + round) && round_start == text::byte_len(
                before,
            ) implies text::prefix_within(visible@, round_start as nat) == before by {
            lemma_prefix_of_bytes(before, round);
        }
    }
    text::cut_to_bytes(visible, round_start)
}

proof fn lemma_prefix_of_bytes(a: Seq<char>, b: Seq<char>)
    ensures
        text::prefix_within(a + b, text::byte_len(a)) == a,
    decreases a.len(),
{
    let s = a + b;
    if a.len() == 0 {
        assert(text::prefix_within(s, 0) =~= a);
    } else {
        lemma_prefix_of_bytes(a.drop_first(), b);
        assert(s.drop_first() =~= a.drop_first() + b);
        let t = s.drop_first();
        let rest = text::byte_len(a.drop_first());
        assert(text::prefix_within(t, rest) == a.drop_first());
        text::lemma_prefix_within(t, rest);
        assert(text::prefix_within(s, text::byte_len(a)) =~= a);
    }
}

// ---- the rounds ------------------------------------------------------------------------

/// Where a reply stands.
#[derive(Debug, PartialEq, Eq)]
pub struct Rounds {
    /// The request asks for a file that the document tool makes.
    pub document_requested: bool,
    pub tool_uses: u32,
    pub corrections: u32,
    pub nudges: u32,
    pub overflow_retried: bool,
    pub document_created: bool,
    /// A tool was asked for that the limit did not let run.
    pub pending_tool_limit: bool,
    pub truncated: bool,
    pub reasoning_seen: bool,
    pub prompt_tokens: u32,
    pub generated_tokens: u32,
    pub gen_ms: u64,
    pub failed: Option<String>,
}

/// How one generation went.
#[derive(Debug, PartialEq, Eq)]
pub struct Generation {
    pub prompt_tokens: u32,
    pub generated_tokens: u32,
    pub gen_ms: u64,
    pub reasoning_present: bool,
    pub finish_reason: Option<String>,
    pub early_stopped: bool,
}

/// What to do at the start of a round.
#[derive(Clone, Copy, Debug, PartialEq, Eq, Structural)]
pub enum Opening {
    /// The user stopped the reply.
    Stop,
    /// Release old tool results, keeping this many tokens for the reply.
    Release(u32),
    /// Measure the input and generate.
    Generate,
}

/// What to do once a round's tools are done with.
#[derive(Clone, Copy, Debug, PartialEq, Eq, Structural)]
pub enum Next {
    /// A tool ran: another round.
    Again,
    /// The call could not be read: ask for it once more.
    Correct,
    /// The file is still missing: ask for it once.
    Nudge,
    /// The reply is complete.
    Done,
}

/// What the model is told once its tool rounds are used up.
pub const LIMIT_NOTE: &'static str =
    "[Inspection budget reached. Do not request more tools. Answer using the evidence already read, cite relevant paths/lines, and clearly identify unverified areas. Do not claim a complete project audit.]";

/// Why a reply fails whose evidence no longer fits.
pub const EVIDENCE_TOO_LARGE: &'static str =
    "Inspection reached the model's context capacity. Completed reads are saved in file activity; this is a partial inspection, not a completed answer. Continue with a narrower question or a larger context.";

/// What the model is told of a file that is still missing.
pub const NUDGE: &'static str =
    "[System: the user asked for a file, and no file has been produced. Produce it now with exactly one create_document call that contains the complete content (use what you wrote above). Do not paste the content into the chat instead.]";

/// What the model is told of a call that could not be read.
pub open spec fn correction(problem: Seq<char>) -> Seq<char> {
    "[System: your tool call could not be read ("@ + problem
        + "). Nothing was executed. Re-emit exactly one tool envelope with valid JSON: every string value in double quotes (a formula such as =SUM(C2:C6) is a string), no comments, no trailing commas.]"@
}

impl Rounds {
    /// The limits have not been passed.
    pub open spec fn well_formed(self) -> bool {
        self.tool_uses <= CHAT_TOOL_ROUNDS && self.corrections <= 1 && self.nudges <= 1
    }

    /// How many more rounds may follow the present one.
    pub open spec fn left(self) -> int {
        (CHAT_TOOL_ROUNDS - self.tool_uses) + (1 - self.corrections) + (1 - self.nudges) + (
        if self.overflow_retried {
            0int
        } else {
            1int
        })
    }

    /// A reply that has not begun.
    pub fn new(document_requested: bool) -> (r: Rounds)
        ensures
            r.well_formed(),
            r == (Rounds {
                document_requested,
                tool_uses: 0,
                corrections: 0,
                nudges: 0,
                overflow_retried: false,
                document_created: false,
                pending_tool_limit: false,
                truncated: false,
                reasoning_seen: false,
                prompt_tokens: 0,
                generated_tokens: 0,
                gen_ms: 0,
                failed: None,
            }),
            r.left() == CHAT_TOOL_ROUNDS + 3,
    {
        Rounds {
            document_requested,
            tool_uses: 0,
            corrections: 0,
            nudges: 0,
            overflow_retried: false,
            document_created: false,
            pending_tool_limit: false,
            truncated: false,
            reasoning_seen: false,
            prompt_tokens: 0,
            generated_tokens: 0,
            gen_ms: 0,
            failed: None,
        }
    }

    /// What to do at the start of a round.
    pub open spec fn opens(self, cancelled: bool, n_ctx: u32) -> Opening {
        if cancelled {
            Opening::Stop
        } else if self.tool_uses > 0 {
            Opening::Release(reserve(n_ctx as nat) as u32)
        } else {
            Opening::Generate
        }
    }

    /// The tools of a generation may run.
    pub open spec fn may_run(self) -> bool {
        self.tool_uses < CHAT_TOOL_ROUNDS
    }

    /// The rounds with one generation more.
    pub open spec fn with_generation(self, g: Generation, has_tool: bool) -> Rounds {
        Rounds {
            prompt_tokens: (self.prompt_tokens + g.prompt_tokens) as u32,
            generated_tokens: (self.generated_tokens + g.generated_tokens) as u32,
            gen_ms: (self.gen_ms + g.gen_ms) as u64,
            reasoning_seen: self.reasoning_seen || g.reasoning_present,
            truncated: self.truncated || (Self::cut_short(g) && !has_tool),
            pending_tool_limit: if self.may_run() {
                self.pending_tool_limit
            } else {
                has_tool
            },
            ..self
        }
    }

    /// What to do at the start of a round. Old tool results are released only
    /// once tools have run.
    pub fn open_round(&self, cancelled: bool, n_ctx: u32) -> (o: Opening)
        ensures
            o == self.opens(cancelled, n_ctx),
    {
        if cancelled {
            Opening::Stop
        } else if self.tool_uses > 0 {
            Opening::Release(output_reserve(n_ctx))
        } else {
            Opening::Generate
        }
    }

    /// Takes in whether the input fits after old results were released, and
    /// says whether the round goes on.
    pub fn released(&mut self, fits: bool) -> (go_on: bool)
        ensures
            go_on == fits,
            fits ==> *final(self) == *old(self),
            !fits ==> *final(self) == (Rounds { failed: final(self).failed, ..*old(self) })
                && final(self).failed is Some && final(self).failed->0@ == EVIDENCE_TOO_LARGE@,
    {
        if !fits {
            self.failed = Some(EVIDENCE_TOO_LARGE.to_owned());
        }
        fits
    }

    /// Tokens the reply may take, given the measured input. A model whose tool
    /// rounds are used up is told so.
    pub fn begin_generation(
        &self,
        turns: &mut Vec<ChatTurn>,
        n_ctx: u32,
        input_tokens: u32,
        reasoning: ReasoningMode,
        budget: &str,
    ) -> (max_tokens: u32)
        ensures
            max_tokens == output_budget(n_ctx as nat, input_tokens as nat, reasoning, budget@),
            types::turns(final(turns)@) == (if self.tool_uses == CHAT_TOOL_ROUNDS {
                types::turns(old(turns)@).push(types::text_turn("user"@, LIMIT_NOTE@))
            } else {
                types::turns(old(turns)@)
            }),
    {
        if self.tool_uses == CHAT_TOOL_ROUNDS {
            turns.push(ChatTurn::text("user", LIMIT_NOTE.to_owned()));
            assert(types::turns(turns@) =~= types::turns(old(turns)@).push(
                types::text_turn("user"@, LIMIT_NOTE@),
            ));
        }
        chat_output_budget(n_ctx, input_tokens, reasoning, budget)
    }

    /// The generation ran into its token limit without being ended early.
    pub open spec fn cut_short(g: Generation) -> bool {
        g.finish_reason matches Some(reason) && reason@ == "length"@ && !g.early_stopped
    }

    /// Takes in one generation, and says whether its tools may run.
    pub fn generated(&mut self, g: &Generation, has_tool: bool) -> (may_run: bool)
        requires
            old(self).prompt_tokens + g.prompt_tokens <= u32::MAX,
            old(self).generated_tokens + g.generated_tokens <= u32::MAX,
            old(self).gen_ms + g.gen_ms <= u64::MAX,
        ensures
            may_run == old(self).may_run(),
            *final(self) == old(self).with_generation(*g, has_tool),
    {
        self.prompt_tokens = self.prompt_tokens + g.prompt_tokens;
        self.generated_tokens = self.generated_tokens + g.generated_tokens;
        self.gen_ms = self.gen_ms + g.gen_ms;
        self.reasoning_seen = self.reasoning_seen || g.reasoning_present;
        let length = match &g.finish_reason {
            Some(reason) => text::same(reason, "length"),
            None => false,
        };
        if length && !g.early_stopped && !has_tool {
            self.truncated = true;
        }
        if self.tool_uses < CHAT_TOOL_ROUNDS {
            true
        } else {
            self.pending_tool_limit = has_tool;
            false
        }
    }

    /// What follows a round: another one where a tool ran; a correction where
    /// a call of an offered tool could not be read, once; a reminder where the
    /// file asked for is missing, once; else the end.
    pub open spec fn next(
        self,
        worked: bool,
        unreadable: bool,
        attempted: bool,
    ) -> Next {
        if worked {
            Next::Again
        } else if self.tool_uses >= CHAT_TOOL_ROUNDS {
            Next::Done
        } else if unreadable && self.corrections == 0 && attempted {
            Next::Correct
        } else if self.document_requested && !self.document_created && self.nudges == 0 {
            Next::Nudge
        } else {
            Next::Done
        }
    }

    /// Takes in how a round's tools went. `problem` says why an action in the
    /// text could not be read; `artifacts_added` whether the conversation now
    /// has a file more than before the reply.
    pub fn after_tools(
        &mut self,
        turns: &mut Vec<ChatTurn>,
        round_text: &str,
        worked: bool,
        artifacts_added: bool,
        problem: Option<&str>,
        tools: &ChatToolOffer,
    ) -> (next: Next)
        requires
            old(self).well_formed(),
            worked ==> old(self).tool_uses < CHAT_TOOL_ROUNDS,
        ensures
            final(self).well_formed(),
            next == old(self).next(
                worked,
                problem is Some,
                (tools.workspace || tools.document) && (match offer::tool_name(round_text@) {
                    Some(name) => tools.offered(name),
                    None => true,
                }),
            ),
            *final(self) == (match next {
                Next::Again => Rounds {
                    tool_uses: (old(self).tool_uses + 1) as u32,
                    document_created: old(self).document_created || artifacts_added,
                    ..*old(self)
                },
                Next::Correct => Rounds { corrections: 1, ..*old(self) },
                Next::Nudge => Rounds { nudges: 1, ..*old(self) },
                Next::Done => *old(self),
            }),
            types::turns(final(turns)@) == (match next {
                Next::Correct => types::exchanged(
                    types::turns(old(turns)@),
                    round_text@,
                    correction(problem->0@),
                ),
                Next::Nudge => types::exchanged(types::turns(old(turns)@), round_text@, NUDGE@),
                _ => types::turns(old(turns)@),
            }),
    {
        let ghost was = types::turns(turns@);
        if worked {
            self.tool_uses = self.tool_uses + 1;
            self.document_created = self.document_created || artifacts_added;
            return Next::Again;
        }
        if self.tool_uses >= CHAT_TOOL_ROUNDS {
            return Next::Done;
        }
        if let Some(problem) = problem {
            if self.corrections == 0 && tools.attempted_in(round_text) {
                self.corrections = 1;
                let mut note = "[System: your tool call could not be read (".to_owned();
                note.append(problem);
                note.append(
                    "). Nothing was executed. Re-emit exactly one tool envelope with valid JSON: every string value in double quotes (a formula such as =SUM(C2:C6) is a string), no comments, no trailing commas.]",
                );
                turns.push(ChatTurn::text("assistant", round_text.to_owned()));
                turns.push(ChatTurn::text("user", note));
                assert(types::turns(turns@) =~= was.push(
                    types::text_turn("assistant"@, round_text@),
                ).push(types::text_turn("user"@, correction(problem@))));
                return Next::Correct;
            }
        }
        if self.document_requested && !self.document_created && self.nudges == 0 {
            self.nudges = 1;
            turns.push(ChatTurn::text("assistant", round_text.to_owned()));
            turns.push(ChatTurn::text("user", NUDGE.to_owned()));
            assert(types::turns(turns@) =~= was.push(
                types::text_turn("assistant"@, round_text@),
            ).push(types::text_turn("user"@, NUDGE@)));
            return Next::Nudge;
        }
        Next::Done
    }

    /// The prompt did not fit, no tool has run and no retry was made.
    pub open spec fn may_retry(self, overflow: Option<(u32, u32)>) -> bool {
        overflow is Some && !self.overflow_retried && self.tool_uses == 0
    }

    /// Tokens to free for a prompt that did not fit, with a margin.
    pub open spec fn excess(overflow: (u32, u32)) -> int {
        num::lesser(num::less(overflow.0 as int, overflow.1 as int) + 512, u32::MAX as int)
    }

    /// Takes in a failed generation. Where the server measured that the prompt
    /// did not fit (`overflow`: its tokens and the window's), the oldest
    /// history is left out once, before any tool round, and the number of
    /// turns left out is returned; otherwise the reply has failed.
    pub fn generation_failed(
        &mut self,
        turns: &mut Vec<ChatTurn>,
        error: &str,
        overflow: Option<(u32, u32)>,
    ) -> (dropped: Option<usize>)
        ensures
            ({
                let before = types::turns(old(turns)@);
                let tried = old(self).may_retry(overflow);
                let tokens = Self::excess(overflow->0);
                let count = kept_from(before, tokens) - leading_system(before);
                &&& dropped is Some <==> tried && count > 0
                &&& dropped matches Some(n) ==> n == count
                &&& types::turns(final(turns)@) == (if tried {
                    without_oldest(before, tokens)
                } else {
                    before
                })
                &&& final(self).overflow_retried == (old(self).overflow_retried || tried)
                &&& dropped is Some ==> *final(self) == (Rounds {
                    overflow_retried: true,
                    ..*old(self)
                })
                &&& dropped is None ==> *final(self) == (Rounds {
                    overflow_retried: final(self).overflow_retried,
                    failed: final(self).failed,
                    ..*old(self)
                }) && final(self).failed is Some && final(self).failed->0@ == error@
            }),
    {
        if let Some((prompt_tokens, context)) = overflow {
            if !self.overflow_retried && self.tool_uses == 0 {
                self.overflow_retried = true;
                let over: u32 = if prompt_tokens < context { 0 } else { prompt_tokens - context };
                let excess: u32 = if over > u32::MAX - 512 { u32::MAX } else { over + 512 };
                let dropped: usize = drop_oldest_history(turns, excess);
                if dropped > 0 {
                    return Some(dropped);
                }
            }
        }
        self.failed = Some(error.to_owned());
        None
    }
}

/// What the user is told when a round is asked for again.
pub fn next_status(next: Next) -> (s: Option<&'static str>)
    ensures
        match next {
            Next::Correct => s is Some && s->0@
                == "The tool call was not valid JSON; asking for a corrected one…"@,
            Next::Nudge => s is Some && s->0@ == "Producing the requested file…"@,
            _ => s is None,
        },
{
    match next {
        Next::Correct => Some("The tool call was not valid JSON; asking for a corrected one…"),
        Next::Nudge => Some("Producing the requested file…"),
        _ => None,
    }
}

/// What the user is told when history is left out.
pub fn dropped_status(dropped: usize) -> (s: String)
    ensures
        s@ == "The conversation did not fit the model's context; leaving out the "@
            + decimal::digits(dropped as nat) + " oldest message(s) and trying again…"@,
{
    let mut s = "The conversation did not fit the model's context; leaving out the ".to_owned();
    let n = decimal::decimal(dropped as u64);
    s.append(&n);
    s.append(" oldest message(s) and trying again…");
    s
}

/// Every round that follows another uses up one of the rounds left, so a
/// reply of at most `CHAT_TOOL_ROUNDS + 3` further rounds ends; and once the
/// tool rounds are used up no tool runs.
pub proof fn law_a_reply_ends(
    before: Rounds,
    after: Rounds,
    next: Next,
    worked: bool,
    unreadable: bool,
    attempted: bool,
)
    requires
        before.well_formed(),
        worked ==> before.tool_uses < CHAT_TOOL_ROUNDS,
        next == before.next(worked, unreadable, attempted),
        match next {
            Next::Again => after.tool_uses == before.tool_uses + 1 && after.corrections
                == before.corrections && after.nudges == before.nudges,
            Next::Correct => after.tool_uses == before.tool_uses && after.corrections == 1
                && after.nudges == before.nudges,
            Next::Nudge => after.tool_uses == before.tool_uses && after.corrections
                == before.corrections && after.nudges == 1,
            Next::Done => after == before,
        },
        after.overflow_retried == before.overflow_retried,
    ensures
        0 <= before.left() <= CHAT_TOOL_ROUNDS + 3,
        next != Next::Done ==> after.well_formed() && after.left() < before.left(),
        before.tool_uses == CHAT_TOOL_ROUNDS ==> next == Next::Done,
{
}

/// A prompt that does not fit is retried at most once.
pub proof fn law_one_overflow_retry(before: Rounds, overflow: Option<(u32, u32)>)
    ensures
        before.overflow_retried ==> !before.may_retry(overflow),
        before.tool_uses > 0 ==> !before.may_retry(overflow),
{
}

// ---- what leaving out the oldest frees --------------------------------------------------

/// Tokens of texts of these lengths in bytes, three bytes to a token, each
/// rounded up.
pub open spec fn tokens_of_bytes(lengths: Seq<nat>) -> int
    decreases lengths.len(),
{
    if lengths.len() == 0 {
        0
    } else {
        tokens_of_bytes(lengths.drop_last()) + (lengths.last() + 2) / 3
    }
}

/// The lengths in bytes of what turns say.
pub open spec fn lengths_in_bytes(turns: Seq<Turn>) -> Seq<nat> {
    turns.map_values(|t: Turn| encode_utf8(t.content).len())
}

proof fn lemma_tokens_of_bytes(turns: Seq<Turn>, from: int, to: int)
    requires
        0 <= from <= to <= turns.len(),
    ensures
        tokens_of_bytes(lengths_in_bytes(turns.subrange(from, to))) == tokens_between(
            turns,
            from,
            to,
        ),
    decreases to - from,
{
    let part = turns.subrange(from, to);
    if from < to {
        lemma_tokens_of_bytes(turns, from, to - 1);
        text::lemma_byte_len(turns[to - 1].content);
        assert(lengths_in_bytes(part).drop_last() =~= lengths_in_bytes(
            turns.subrange(from, to - 1),
        ));
        lemma_tokens_last(turns, from, to);
    } else {
        assert(lengths_in_bytes(part) =~= Seq::empty());
    }
}

proof fn lemma_tokens_last(turns: Seq<Turn>, from: int, to: int)
    requires
        from < to,
    ensures
        tokens_between(turns, from, to) == tokens_between(turns, from, to - 1) + turn_tokens(
            turns[to - 1],
        ),
    decreases to - from,
{
    if from + 1 < to {
        lemma_tokens_last(turns, from + 1, to);
    } else {
        reveal_with_fuel(tokens_between, 3);
    }
}

/// No fewer turns than needed are left out: up to where enough was freed, less
/// than what was asked for stood before the last of them.
proof fn lemma_not_more_than_needed(turns: Seq<Turn>, from: int, last: int, tokens: int)
    requires
        0 <= from <= last <= turns.len(),
    ensures
        ({
            let freed = freed_at(turns, from, last, tokens);
            freed > from ==> tokens_between(turns, from, freed - 1) < tokens
        }),
    decreases last - from,
{
    if from < last && tokens > 0 {
        let rest = tokens - turn_tokens(turns[from]);
        lemma_not_more_than_needed(turns, from + 1, last, rest);
        lemma_freed_at(turns, from + 1, last, rest);
    }
}

proof fn lemma_no_user_between(turns: Seq<Turn>, from: int, last: int)
    requires
        0 <= from <= last <= turns.len(),
    ensures
        forall|i: int|
            from <= i < user_from(turns, from, last) ==> (#[trigger] turns[i]).role != "user"@,
    decreases last - from,
{
    if from < last && turns[from].role != "user"@ {
        lemma_no_user_between(turns, from + 1, last);
    }
}

proof fn lemma_leading_ends(turns: Seq<Turn>)
    ensures
        leading_system(turns) < turns.len() ==> turns[leading_system(turns) as int].role
            != "system"@,
    decreases turns.len(),
{
    if turns.len() > 0 && turns[0].role == "system"@ {
        lemma_leading_ends(turns.skip(1));
    }
}

/// Leaving out the oldest history frees what was asked for: unless everything
/// before the latest user turn goes, the turns left out come to that many
/// tokens at three bytes to a token. And no more goes than that takes: some
/// first of the turns left out come to less, and behind the turn that follows
/// those only turns go along that are not the user's.
pub proof fn law_what_is_left_out_comes_to_the_tokens_asked_for(turns: Seq<Turn>, tokens: int)
    requires
        history::last_user(turns, turns.len() as int) is Some,
    ensures
        ({
            let first = leading_system(turns) as int;
            let last = history::last_user(turns, turns.len() as int)->0;
            let kept = without_oldest(turns, tokens);
            let gone = turns.len() - kept.len();
            let left_out = turns.subrange(first, first + gone);
            &&& forall|i: int| 0 <= i < first ==> (#[trigger] turns[i]).role == "system"@
            &&& first <= last && turns[first].role != "system"@
            &&& turns[last].role == "user"@
            &&& forall|i: int| last < i < turns.len() ==> (#[trigger] turns[i]).role != "user"@
            &&& 0 <= gone <= last - first
            &&& kept == turns.take(first) + turns.skip(first + gone)
            &&& gone == last - first || tokens_of_bytes(lengths_in_bytes(left_out)) >= tokens
            &&& gone > 0 && tokens > 0 ==> exists|n: int|
                0 <= n < gone && #[trigger] tokens_of_bytes(
                    lengths_in_bytes(turns.subrange(first, first + n)),
                ) < tokens && forall|i: int|
                    n < i < gone ==> (#[trigger] left_out[i]).role != "user"@
        }),
{
    lemma_leading_are_system(turns);
    lemma_system_is_not_user();
    let first = leading_system(turns) as int;
    history::lemma_last_user(turns, turns.len() as int);
    let last = history::last_user(turns, turns.len() as int)->0;
    if last < first {
        assert(turns[last].role == "system"@);
    }
    history::lemma_no_last_user(turns, turns.len() as int);
    lemma_leading_ends(turns);
    let freed = freed_at(turns, first, last, tokens);
    let from = kept_from(turns, tokens);
    lemma_freed_at(turns, first, last, tokens);
    lemma_user_from(turns, freed, last);
    law_overflow_frees_enough(turns, tokens);
    lemma_tokens_of_bytes(turns, first, from);
    let kept = without_oldest(turns, tokens);
    let gone = turns.len() - kept.len();
    assert(gone == from - first);
    if gone > 0 && tokens > 0 {
        lemma_not_more_than_needed(turns, first, last, tokens);
        lemma_no_user_between(turns, freed, last);
        let left_out = turns.subrange(first, first + gone);
        let n = if freed > first {
            freed - 1 - first
        } else {
            0int
        };
        lemma_tokens_of_bytes(turns, first, first + n);
        if freed > first {
            assert(tokens_of_bytes(lengths_in_bytes(turns.subrange(first, first + n))) < tokens);
        }
        assert forall|i: int| n < i < gone implies (#[trigger] left_out[i]).role != "user"@ by {
            assert(left_out[i] == turns[first + i]);
        }
    }
}

/// What a reply may take: never more than the window holds after the input, and
/// 256 tokens of slack are left where that leaves 256 for the reply. Up to that
/// it takes what its way of reasoning allows: 8,192 tokens, 12,288, or 16,384
/// on a high budget. A longer input never gives it more.
pub proof fn law_a_reply_has_the_room_that_is_left(
    n_ctx: nat,
    input: nat,
    more: nat,
    reasoning: ReasoningMode,
    budget: Seq<char>,
)
    requires
        input <= more,
    ensures
        ({
            let cap = if reasoning == ReasoningMode::Off {
                8192int
            } else if budget == "high"@ {
                16384
            } else {
                12288
            };
            let given = output_budget(n_ctx, input, reasoning, budget);
            &&& given <= cap
            &&& input + given <= num::greater(n_ctx as int, input as int)
            &&& input + cap + 256 <= n_ctx ==> given == cap
            &&& input + 512 <= n_ctx && n_ctx < input + cap + 256 ==> input + given + 256 == n_ctx
            &&& input <= n_ctx < input + 256 ==> input + given == n_ctx
            &&& output_budget(n_ctx, more, reasoning, budget) <= given
        }),
{
}

/// The room kept for a reply while results are released grows with the window,
/// and is a quarter of it between 4,096 and 32,768 tokens.
pub proof fn law_the_room_kept_for_a_reply(n_ctx: nat)
    ensures
        2 * reserve(n_ctx) <= n_ctx,
        4096 <= n_ctx <= 32768 ==> n_ctx - 4 < 4 * reserve(n_ctx) <= n_ctx,
        n_ctx >= 32768 ==> reserve(n_ctx) == 8192,
        2048 <= n_ctx <= 4096 ==> reserve(n_ctx) == 1024,
{
}

/// What is freed for a prompt that did not fit is what it was too long by and
/// 512 tokens more.
pub proof fn law_an_overflow_is_freed_with_a_margin(prompt: u32, window: u32)
    ensures
        window <= prompt && prompt - window + 512 <= u32::MAX ==> Rounds::excess((prompt, window))
            == prompt - window + 512,
        prompt < window ==> Rounds::excess((prompt, window)) == 512,
{
}

/// A tool that ran is followed by another round. Where none ran, an unreadable
/// call of an offered tool is asked for again, once; a file that was asked for
/// and not made is asked for, once; and otherwise the reply is done.
pub proof fn law_what_follows_a_round(r: Rounds, unreadable: bool, attempted: bool)
    requires
        r.well_formed(),
    ensures
        r.next(true, unreadable, attempted) == Next::Again,
        r.next(false, unreadable, attempted) != Next::Again,
        r.tool_uses == CHAT_TOOL_ROUNDS ==> r.next(false, unreadable, attempted) == Next::Done,
        r.tool_uses < CHAT_TOOL_ROUNDS ==> {
            &&& r.next(false, unreadable, attempted) == Next::Correct <==> unreadable && attempted
                && r.corrections == 0
            &&& r.next(false, unreadable, attempted) == Next::Nudge <==> !(unreadable && attempted
                && r.corrections == 0) && r.document_requested && !r.document_created && r.nudges
                == 0
        },
        (Rounds { corrections: 1, ..r }).next(false, unreadable, attempted) != Next::Correct,
        (Rounds { nudges: 1, ..r }).next(false, unreadable, attempted) != Next::Nudge,
        (Rounds { document_created: true, ..r }).next(false, unreadable, attempted)
            != Next::Nudge,
{
}

/// The model that is asked for a call again is told what was wrong with it.
pub proof fn law_a_correction_gives_the_problem(problem: Seq<char>)
    ensures
        ("[System: your tool call could not be read ("@ + problem
            + "). Nothing was executed."@).is_prefix_of(correction(problem)),
{
    let said = correction(problem);
    let head = "[System: your tool call could not be read ("@ + problem
        + "). Nothing was executed."@;
    reveal_strlit("). Nothing was executed.");
    reveal_strlit(
        "). Nothing was executed. Re-emit exactly one tool envelope with valid JSON: every string value in double quotes (a formula such as =SUM(C2:C6) is a string), no comments, no trailing commas.]",
    );
    assert(head =~= said.subrange(0, head.len() as int));
}

/// What generations took is added up, never lost: tokens, time, and whether any
/// reasoned. A reply counts as cut short only where a generation ran into its
/// limit by itself and called no tool. No tool runs after twenty-four, and one
/// that was asked for then is noted.
pub proof fn law_generations_add_up(r: Rounds, g: Generation, has_tool: bool)
    requires
        r.prompt_tokens + g.prompt_tokens <= u32::MAX,
        r.generated_tokens + g.generated_tokens <= u32::MAX,
        r.gen_ms + g.gen_ms <= u64::MAX,
    ensures
        ({
            let after = r.with_generation(g, has_tool);
            let ran_out = g.finish_reason is Some && g.finish_reason->0@ == "length"@;
            &&& after.prompt_tokens == r.prompt_tokens + g.prompt_tokens
            &&& after.generated_tokens == r.generated_tokens + g.generated_tokens
            &&& after.gen_ms == r.gen_ms + g.gen_ms
            &&& after.reasoning_seen <==> r.reasoning_seen || g.reasoning_present
            &&& after.truncated <==> r.truncated || (ran_out && !g.early_stopped && !has_tool)
            &&& r.may_run() <==> r.tool_uses < 24
            &&& !r.may_run() ==> after.pending_tool_limit == has_tool
            &&& r.may_run() ==> after.pending_tool_limit == r.pending_tool_limit
            &&& after.tool_uses == r.tool_uses && after.document_created == r.document_created
                && after.corrections == r.corrections && after.nudges == r.nudges
        }),
{
}

/// A reply that the user stopped generates nothing more, and evidence is released
/// only once tools have run: the first generation of a reply starts at once.
pub proof fn law_how_a_round_opens(r: Rounds, n_ctx: u32)
    ensures
        r.opens(true, n_ctx) == Opening::Stop,
        r.tool_uses == 0 ==> r.opens(false, n_ctx) == Opening::Generate,
        r.tool_uses > 0 ==> r.opens(false, n_ctx) is Release,
{
}

} // verus!
