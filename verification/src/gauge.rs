//! How full a conversation is: the saved text against the room a request has,
//! by kind of text, and what the latest run reported.
use vstd::prelude::*;
use vstd::utf8::*;

use crate::decimal;
use crate::history;
use crate::intent;
use crate::intent::AgentState;
use crate::num;
use crate::text;
use crate::types;
use crate::types::{Attachment, ChatTurn, Message, Turn};

verus! {

/// Tokens that a text of so many bytes is taken for: one to four bytes.
pub open spec fn tokens(chars: nat) -> u32 {
    (chars / 4) as u32
}

/// Rough token estimate: one to four bytes.
pub fn estimate_tokens(chars: usize) -> (t: u32)
    ensures
        t == tokens(chars as nat),
        chars / 4 <= u32::MAX ==> t == chars / 4,
{
    #[verifier::truncate]
    let t: u32 = (chars / 4) as u32;
    t
}

/// Rough token estimate of a sum of bytes.
fn estimate_sum(bytes: u128) -> (t: u32)
    ensures
        t == tokens(bytes as nat),
{
    #[verifier::truncate]
    let t: u32 = (bytes / 4) as u32;
    t
}

/// The bytes of the turns' texts.
pub open spec fn turn_bytes(turns: Seq<Turn>) -> nat
    decreases turns.len(),
{
    if turns.len() == 0 {
        0
    } else {
        turn_bytes(turns.drop_last()) + text::byte_len(turns.last().content)
    }
}

/// The turns that report a tool's result.
pub open spec fn tool_turns(turns: Seq<Turn>) -> Seq<Turn> {
    turns.filter(|t: Turn| text::begins(t.content, "[tool result]\n"@))
}

/// The bytes of the turns' texts, and of those that report a tool's result.
fn turn_bytes_of(sent: &[ChatTurn]) -> (r: (u128, u128))
    ensures
        r.0 == turn_bytes(types::turns(sent@)),
        r.1 == turn_bytes(tool_turns(types::turns(sent@))),
        r.0 <= sent@.len() * 0x1_0000_0000_0000_0000,
        r.1 <= r.0,
{
    let ghost all = types::turns(sent@);
    let mut bytes: u128 = 0;
    let mut tool_bytes: u128 = 0;
    let mut i: usize = 0;
    while i < sent.len()
        invariant
            i <= sent@.len(),
            all == types::turns(sent@),
            bytes == turn_bytes(all.take(i as int)),
            tool_bytes == turn_bytes(tool_turns(all.take(i as int))),
            bytes <= i * 0x1_0000_0000_0000_0000,
            tool_bytes <= bytes,
        decreases sent@.len() - i,
    {
        let here: u128 = text::bytes_in(&sent[i].content) as u128;
        proof {
            let longer = all.take(i + 1);
            let is_tool = |t: Turn| text::begins(t.content, "[tool result]\n"@);
            assert(longer.drop_last() =~= all.take(i as int));
            assert(longer.last() == sent@[i as int]@);
            reveal(Seq::filter);
            assert(tool_turns(longer) == if is_tool(longer.last()) {
                tool_turns(longer.drop_last()).push(longer.last())
            } else {
                tool_turns(longer.drop_last())
            });
            if is_tool(longer.last()) {
                assert(tool_turns(longer).drop_last() =~= tool_turns(longer.drop_last()));
            }
        }
        if text::starts_with(&sent[i].content, "[tool result]\n") {
            tool_bytes = tool_bytes + here;
        }
        bytes = bytes + here;
        i += 1;
    }
    assert(all.take(i as int) =~= all);
    (bytes, tool_bytes)
}

/// How much of a conversation the model would see.
#[derive(Clone, Copy, Debug, PartialEq, Eq, Structural)]
pub struct ContextNumbers {
    pub total: usize,
    pub kept: usize,
    pub dropped: usize,
    pub tokens: u32,
}

/// Counts what the model would see of a conversation of `total` messages, whose
/// view is `view`, with the saved memory it would be given.
pub fn context_numbers(
    total: usize,
    view: &[Message],
    attachments: &[Attachment],
    memory: &str,
    legacy: bool,
) -> (r: ContextNumbers)
    ensures
        ({
            let turns = history::request_turns(
                view@,
                attachments@,
                history::HISTORY_CHARS as nat,
                legacy,
            );
            &&& r.total == total
            &&& r.kept == num::lesser(turns.len() as int, total as int)
            &&& r.dropped == num::less(total as int, turns.len() as int)
            &&& r.tokens == tokens(turn_bytes(turns) + text::byte_len(memory@))
        }),
        r.kept + r.dropped == r.total,
{
    let sent = history::build_turns(view, attachments, legacy);
    assert(types::turns(sent@).len() == sent@.len());
    let (bytes, _) = turn_bytes_of(&sent);
    let n: usize = sent.len();
    assert(bytes <= n * 0x1_0000_0000_0000_0000);
    let chars: u128 = bytes + text::bytes_in(memory) as u128;
    ContextNumbers {
        total,
        kept: if n < total { n } else { total },
        dropped: if total < n { 0 } else { total - n },
        tokens: estimate_sum(chars),
    }
}

/// Estimated tokens by kind of text.
#[derive(Clone, Copy, Debug, PartialEq, Eq, Structural)]
pub struct Breakdown {
    pub system: u32,
    pub conversation: u32,
    pub attachments: u32,
    pub tools: u32,
    pub memory: u32,
    pub output_reserve: u32,
}

/// Bytes that attachments add to the turns.
pub open spec fn attachment_bytes(
    view: Seq<Message>,
    attachments: Seq<Attachment>,
    legacy: bool,
) -> int {
    num::less(
        turn_bytes(
            history::request_turns(view, attachments, history::HISTORY_CHARS as nat, legacy),
        ) as int,
        turn_bytes(
            history::request_turns(view, Seq::empty(), history::HISTORY_CHARS as nat, legacy),
        ) as int,
    )
}

/// Estimated tokens by kind of text, out of `total_tokens`; a tenth of the
/// window is kept for the reply. The instructions are not saved text and count
/// for nothing here.
pub fn breakdown(
    total_tokens: u32,
    limit: u32,
    view: &[Message],
    attachments: &[Attachment],
    memory: &str,
    legacy: bool,
) -> (r: Breakdown)
    ensures
        ({
            let saved = history::request_turns(
                view@,
                Seq::empty(),
                history::HISTORY_CHARS as nat,
                legacy,
            );
            &&& r.system == 0
            &&& r.attachments == tokens(attachment_bytes(view@, attachments@, legacy) as nat)
            &&& r.tools == tokens(turn_bytes(tool_turns(saved)))
            &&& r.memory == tokens(text::byte_len(memory@))
            &&& r.output_reserve == limit / 10
            &&& r.conversation == num::less(
                num::less(
                    num::less(total_tokens as int, r.attachments as int),
                    r.tools as int,
                ),
                r.memory as int,
            )
        }),
        r.attachments + r.tools + r.memory <= total_tokens ==> r.system + r.conversation
            + r.attachments + r.tools + r.memory == total_tokens,
{
    let none: Vec<Attachment> = Vec::new();
    let saved_turns = history::build_turns(view, &none, legacy);
    let attached_turns = history::build_turns(view, attachments, legacy);
    assert(none@ =~= Seq::<Attachment>::empty());
    let (saved, tools) = turn_bytes_of(&saved_turns);
    let (attached, _) = turn_bytes_of(&attached_turns);
    let added: u128 = if attached < saved { 0 } else { attached - saved };
    let attach_tokens: u32 = estimate_sum(added);
    let tool_tokens: u32 = estimate_sum(tools);
    let memory_tokens: u32 = estimate_tokens(text::bytes_in(memory));
    let mut rest: u32 = total_tokens;
    rest = if rest < attach_tokens { 0 } else { rest - attach_tokens };
    rest = if rest < tool_tokens { 0 } else { rest - tool_tokens };
    rest = if rest < memory_tokens { 0 } else { rest - memory_tokens };
    Breakdown {
        system: 0,
        conversation: rest,
        attachments: attach_tokens,
        tools: tool_tokens,
        memory: memory_tokens,
        output_reserve: limit / 10,
    }
}

/// The fill levels that a gauge shows.
#[derive(Clone, Copy, Debug, PartialEq, Eq, Structural)]
pub struct Fill {
    pub usage_pct: u32,
    pub health_pct: u32,
}

/// The fill levels that a gauge shows.
pub open spec fn filled(
    limit: u32,
    room_pct: Option<u32>,
    plain_pct: u32,
    plain_with_reserve_pct: u32,
) -> Fill {
    match room_pct {
        Some(p) => Fill { usage_pct: p, health_pct: p },
        None => if limit > 0 {
            Fill { usage_pct: plain_pct, health_pct: plain_with_reserve_pct }
        } else {
            Fill { usage_pct: 0, health_pct: 0 }
        },
    }
}

/// What was measured of a request counts, for the level and for how it is called;
/// what is estimated counts only where nothing was measured and there is a window
/// to hold it against.
pub proof fn law_what_was_measured_counts(limit: u32, p: u32, plain: u32, reserved: u32)
    ensures
        filled(limit, Some(p), plain, reserved).usage_pct == p && filled(
            limit,
            Some(p),
            plain,
            reserved,
        ).health_pct == p,
        limit > 0 ==> filled(limit, None, plain, reserved).usage_pct == plain && filled(
            limit,
            None,
            plain,
            reserved,
        ).health_pct == reserved,
        filled(0, None, plain, reserved).usage_pct == 0 && filled(
            0,
            None,
            plain,
            reserved,
        ).health_pct == 0,
{
}

/// The fill level is measured against the room a request gives history, the
/// same measure automatic compaction uses; without a request to measure, the
/// plain shares of the window stand in, and without a window it is nothing.
pub fn fill(limit: u32, room_pct: Option<u32>, plain_pct: u32, plain_with_reserve_pct: u32) -> (r:
    Fill)
    ensures
        r == filled(limit, room_pct, plain_pct, plain_with_reserve_pct),
{
    match room_pct {
        Some(p) => Fill { usage_pct: p, health_pct: p },
        None => {
            if limit > 0 {
                Fill { usage_pct: plain_pct, health_pct: plain_with_reserve_pct }
            } else {
                Fill { usage_pct: 0, health_pct: 0 }
            }
        },
    }
}

/// What a fill level is called.
pub open spec fn health_name(pct: nat) -> Seq<char> {
    if pct < 60 {
        "healthy"@
    } else if pct < 80 {
        "moderate"@
    } else if pct < 90 {
        "high"@
    } else {
        "critical"@
    }
}

/// What a fill level is called.
pub fn health(pct: u32) -> (s: &'static str)
    ensures
        s@ == health_name(pct as nat),
{
    if pct < 60 {
        "healthy"
    } else if pct < 80 {
        "moderate"
    } else if pct < 90 {
        "high"
    } else {
        "critical"
    }
}

/// The numbers in one line.
pub fn context_line(n: &ContextNumbers, limit: u32, pct: u32) -> (s: String)
    ensures
        s@ == "Context ~"@ + decimal::digits(n.tokens as nat) + "/"@ + decimal::digits(limit as nat)
            + " tokens ("@ + decimal::digits(if limit > 0 {
            pct as nat
        } else {
            0
        }) + "%) — "@ + decimal::digits(n.kept as nat) + "/"@ + decimal::digits(n.total as nat)
            + " messages in window, "@ + decimal::digits(n.dropped as nat)
            + " dropped. /compact frees space."@,
{
    let mut s = "Context ~".to_owned();
    let used = decimal::decimal(n.tokens as u64);
    s.append(&used);
    s.append("/");
    let all = decimal::decimal(limit as u64);
    s.append(&all);
    s.append(" tokens (");
    let shown: u32 = if limit > 0 { pct } else { 0 };
    let share = decimal::decimal(shown as u64);
    s.append(&share);
    s.append("%) — ");
    let kept = decimal::decimal(n.kept as u64);
    s.append(&kept);
    s.append("/");
    let total = decimal::decimal(n.total as u64);
    s.append(&total);
    s.append(" messages in window, ");
    let dropped = decimal::decimal(n.dropped as u64);
    s.append(&dropped);
    s.append(" dropped. /compact frees space.");
    s
}

/// What an event of a run says of its context.
#[derive(Clone, Copy, Debug, PartialEq, Eq, Structural)]
pub struct RunMark {
    pub state: AgentState,
    pub iteration: u32,
    pub reports_usage: bool,
}

/// The last event that reports usage, up to `n`.
pub open spec fn last_report(events: Seq<RunMark>, n: int) -> Option<int>
    decreases n,
{
    if n <= 0 {
        None
    } else if events[n - 1].reports_usage {
        Some(n - 1)
    } else {
        last_report(events, n - 1)
    }
}

/// The last event that reports usage.
pub fn usage_event(events: &[RunMark]) -> (r: Option<usize>)
    ensures
        match last_report(events@, events@.len() as int) {
            Some(i) => r is Some && r->0 == i && i < events@.len(),
            None => r is None,
        },
{
    let mut i: usize = events.len();
    while i > 0
        invariant
            i <= events@.len(),
            last_report(events@, events@.len() as int) == last_report(events@, i as int),
        decreases i,
    {
        if events[i - 1].reports_usage {
            return Some(i - 1);
        }
        i -= 1;
    }
    None
}

/// What is shown of a run's context.
#[derive(Clone, Copy, Debug, PartialEq, Eq, Structural)]
pub struct RunContext {
    pub active: bool,
    pub iteration: u32,
    pub event: Option<usize>,
}

/// What a live run shows: whether it is still going by its last event, and the
/// last usage it reported.
pub fn live_context(events: &[RunMark]) -> (r: RunContext)
    ensures
        r.active == !intent::ended(if events@.len() == 0 {
            AgentState::Idle
        } else {
            events@.last().state
        }),
        match last_report(events@, events@.len() as int) {
            Some(i) => r.event is Some && r.event->0 == i && r.iteration == events@[i].iteration,
            None => r.event is None && r.iteration == 0,
        },
{
    let active = if events.len() == 0 {
        true
    } else {
        !intent::has_ended(events[events.len() - 1].state)
    };
    match usage_event(events) {
        Some(i) => RunContext { active, iteration: events[i].iteration, event: Some(i) },
        None => RunContext { active, iteration: 0, event: None },
    }
}

/// A reply and what the events recorded with it say.
#[derive(Debug, PartialEq, Eq)]
pub struct RecordedReply {
    pub role: String,
    pub events: Vec<RunMark>,
}

/// The latest of the first `n` messages that is the assistant's and has a
/// recorded usage.
pub open spec fn last_recorded(messages: Seq<RecordedReply>, n: int) -> Option<int>
    decreases n,
{
    if n <= 0 {
        None
    } else if messages[n - 1].role@ == "assistant"@ && last_report(
        messages[n - 1].events@,
        messages[n - 1].events@.len() as int,
    ) is Some {
        Some(n - 1)
    } else {
        last_recorded(messages, n - 1)
    }
}

/// The latest recorded usage: the message it belongs to, and what is shown of
/// it. A recorded run is over.
pub fn recorded_context(messages: &[RecordedReply]) -> (r: Option<(usize, RunContext)>)
    ensures
        match last_recorded(messages@, messages@.len() as int) {
            Some(i) => {
                let events = messages@[i].events@;
                let e = last_report(events, events.len() as int)->0;
                r matches Some((at, c)) && at == i && !c.active && c.event is Some && c.event->0
                    == e && c.iteration == events[e].iteration
            },
            None => r is None,
        },
{
    let mut i: usize = messages.len();
    while i > 0
        invariant
            i <= messages@.len(),
            last_recorded(messages@, messages@.len() as int) == last_recorded(
                messages@,
                i as int,
            ),
        decreases i,
    {
        let m = &messages[i - 1];
        if text::same(&m.role, "assistant") {
            if let Some(e) = usage_event(&m.events) {
                return Some(
                    (
                        i - 1,
                        RunContext {
                            active: false,
                            iteration: m.events[e].iteration,
                            event: Some(e),
                        },
                    ),
                );
            }
        }
        i -= 1;
    }
    None
}

// ---- what is counted --------------------------------------------------------------------------

/// Four bytes count for one token, and a rest of less than four for nothing.
pub proof fn law_four_bytes_to_a_token(bytes: nat)
    requires
        bytes / 4 <= u32::MAX,
    ensures
        4 * tokens(bytes) <= bytes < 4 * tokens(bytes) + 4,
{
}

/// The bytes of turns in a row are the bytes of the first and of the rest, and
/// of one turn those of its text as it is encoded.
pub proof fn law_bytes_of_turns_add_up(turns: Seq<Turn>, more: Seq<Turn>, t: Turn)
    ensures
        turn_bytes(turns + more) == turn_bytes(turns) + turn_bytes(more),
        turn_bytes(seq![t]) == encode_utf8(t.content).len(),
        turn_bytes(Seq::<Turn>::empty()) == 0,
    decreases more.len(),
{
    if more.len() > 0 {
        law_bytes_of_turns_add_up(turns, more.drop_last(), t);
        assert((turns + more).drop_last() =~= turns + more.drop_last());
        assert((turns + more).last() == more.last());
    } else {
        assert(turns + more =~= turns);
    }
    text::lemma_byte_len(t.content);
    assert(seq![t].drop_last() =~= Seq::<Turn>::empty());
    assert(turn_bytes(seq![t].drop_last()) == 0);
}

/// The turns that count as a tool's are those that begin as the report of one.
pub proof fn law_which_turns_are_a_tools(turns: Seq<Turn>, t: Turn)
    ensures
        "[tool result]\n"@.is_prefix_of(t.content) ==> tool_turns(turns.push(t)) == tool_turns(
            turns,
        ).push(t),
        !"[tool result]\n"@.is_prefix_of(t.content) ==> tool_turns(turns.push(t)) == tool_turns(
            turns,
        ),
{
    reveal(Seq::filter);
    assert(turns.push(t).drop_last() =~= turns);
    assert(turns.push(t).last() == t);
}

/// A conversation is full or not by the fill level alone: healthy below 60
/// percent, moderate from there and below 80, high from there and below 90,
/// critical from there on. So each level has one name, and the names change in
/// that order.
pub proof fn law_each_level_has_its_name(pct: nat)
    ensures
        health_name(pct) == "healthy"@ <==> pct < 60,
        health_name(pct) == "moderate"@ <==> 60 <= pct < 80,
        health_name(pct) == "high"@ <==> 80 <= pct < 90,
        health_name(pct) == "critical"@ <==> 90 <= pct,
{
    reveal_strlit("healthy");
    reveal_strlit("moderate");
    reveal_strlit("high");
    reveal_strlit("critical");
    assert("healthy"@.len() == 7 && "high"@.len() == 4);
    assert("moderate"@[0] == 'm' && "critical"@[0] == 'c' && "moderate"@.len() == 8
        && "critical"@.len() == 8);
}

/// What a run last said of its context is what the last event that reports any
/// says: no later event reports, and where none is found none does.
pub proof fn law_the_last_report_counts(events: Seq<RunMark>, n: int)
    requires
        0 <= n <= events.len(),
    ensures
        last_report(events, n) matches Some(i) ==> 0 <= i < n && events[i].reports_usage && forall|
            k: int,
        |
            i < k < n ==> !(#[trigger] events[k]).reports_usage,
        last_report(events, n) is None ==> forall|k: int|
            0 <= k < n ==> !(#[trigger] events[k]).reports_usage,
    decreases n,
{
    if n > 0 && !events[n - 1].reports_usage {
        law_the_last_report_counts(events, n - 1);
    }
}

/// What was recorded last is found with the latest reply of the assistant whose
/// events report any usage; messages of others do not count.
pub proof fn law_the_latest_recorded_reply_counts(messages: Seq<RecordedReply>, n: int, k: int)
    requires
        0 <= n <= messages.len(),
        0 <= k < n,
    ensures
        ({
            let reports = exists|e: int|
                0 <= e < messages[k].events@.len() && (#[trigger] messages[k].events@[e]).reports_usage;
            let at = last_recorded(messages, n);
            &&& at == Some(k) ==> messages[k].role@ == "assistant"@ && reports
            &&& messages[k].role@ == "assistant"@ && reports ==> (at matches Some(i) && k <= i < n)
        }),
    decreases n,
{
    let events = messages[k].events@;
    law_the_last_report_counts(events, events.len() as int);
    if k < n - 1 {
        law_the_latest_recorded_reply_counts(messages, n - 1, k);
    } else if n > 1 {
        lemma_recorded_before(messages, n - 1);
    }
}

proof fn lemma_recorded_before(messages: Seq<RecordedReply>, n: int)
    ensures
        last_recorded(messages, n) matches Some(i) ==> 0 <= i < n,
    decreases n,
{
    if n > 0 {
        lemma_recorded_before(messages, n - 1);
    }
}

/// Files count for what they add: nothing where there are none, and else just so
/// much that saved text and files together are what is sent.
pub proof fn law_files_count_for_what_they_add(
    view: Seq<Message>,
    attachments: Seq<Attachment>,
    legacy: bool,
)
    ensures
        attachment_bytes(view, Seq::empty(), legacy) == 0,
        ({
            let with = turn_bytes(history::request_turns(view, attachments, 60_000, legacy));
            let without = turn_bytes(history::request_turns(view, Seq::empty(), 60_000, legacy));
            &&& with >= without ==> without + attachment_bytes(view, attachments, legacy) == with
            &&& attachment_bytes(view, attachments, legacy) >= 0
        }),
{
}

} // verus!
