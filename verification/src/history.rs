//! The turns of a model request: which saved messages are sent, and where the
//! excerpts of attached files go.
use vstd::prelude::*;
use vstd::utf8::*;

use crate::boundary;
use crate::num;
use crate::text;
use crate::types;
use crate::types::{Attachment, ChatTurn, Message, Turn};

verus! {

/// Saved messages sent at most.
pub const HISTORY_TURNS: usize = 200;

/// Bytes of saved messages sent at most.
pub const HISTORY_CHARS: usize = 60_000;

/// Bytes of attachment excerpts on one turn at most.
pub const ATTACH_CHARS_PER_TURN: usize = 20_000;

// ---- the message an attachment was sent with ------------------------------

/// `a` is no later than `b`.
pub open spec fn instant_not_after(a: (i64, u32), b: (i64, u32)) -> bool {
    a.0 < b.0 || (a.0 == b.0 && a.1 <= b.1)
}

/// The message was saved at or after the upload, given the instants that the
/// two time stamps name. A pending message counts as latest; where a stamp
/// names no instant the stamps are held against each other as texts.
pub open spec fn saved_since(
    m: Message,
    sent: Option<(i64, u32)>,
    uploaded: Option<(i64, u32)>,
    uploaded_at: Seq<char>,
) -> bool {
    if m.id@ == "pending"@ || m.created_at@.len() == 0 {
        true
    } else {
        match (uploaded, sent) {
            (Some(u), Some(s)) => instant_not_after(u, s),
            _ => text::not_after(uploaded_at, m.created_at@),
        }
    }
}

/// `m` is a user message saved at or after the upload of `a`.
pub open spec fn may_own(m: Message, a: Attachment) -> bool {
    m.role@ == "user"@ && saved_since(
        m,
        boundary::rfc3339_value(m.created_at@),
        boundary::rfc3339_value(a.created_at@),
        a.created_at@,
    )
}

/// The first message from `from` on that may own `a`.
pub open spec fn owner_from(history: Seq<Message>, a: Attachment, from: int) -> Option<int>
    decreases history.len() - from,
{
    if from < 0 || from >= history.len() {
        None
    } else if may_own(history[from], a) {
        Some(from)
    } else {
        owner_from(history, a, from + 1)
    }
}

/// Whether the message was saved at or after the upload, given the instants
/// that the two time stamps name.
pub fn is_saved_since(
    m: &Message,
    sent: Option<(i64, u32)>,
    uploaded: Option<(i64, u32)>,
    uploaded_at: &str,
) -> (r: bool)
    ensures
        r == saved_since(*m, sent, uploaded, uploaded_at@),
{
    if text::same(&m.id, "pending") || m.created_at.as_str().is_empty() {
        return true;
    }
    match (uploaded, sent) {
        (Some(u), Some(s)) => u.0 < s.0 || (u.0 == s.0 && u.1 <= s.1),
        _ => text::at_most(uploaded_at, &m.created_at),
    }
}

/// The id of the user message an attachment was sent with: the first one
/// saved at or after the upload (a pending message counts as latest).
pub fn attachment_owner<'a>(history: &'a [Message], attachment: &Attachment) -> (r: Option<&'a str>)
    ensures
        match owner_from(history@, *attachment, 0) {
            Some(i) => r is Some && r->0@ == history@[i].id@,
            None => r is None,
        },
{
    let uploaded = boundary::rfc3339_instant(&attachment.created_at);
    let mut i: usize = 0;
    while i < history.len()
        invariant
            i <= history@.len(),
            uploaded == boundary::rfc3339_value(attachment.created_at@),
            owner_from(history@, *attachment, 0) == owner_from(history@, *attachment, i as int),
        decreases history@.len() - i,
    {
        let m = &history[i];
        if text::same(&m.role, "user") {
            let sent = boundary::rfc3339_instant(&m.created_at);
            if is_saved_since(m, sent, uploaded, &attachment.created_at) {
                return Some(m.id.as_str());
            }
        }
        i += 1;
    }
    None
}

// ---- the turn an attachment belongs on -------------------------------------

/// The first position from `from` on at which `id` stands.
pub open spec fn position_from(ids: Seq<Seq<char>>, id: Seq<char>, from: int) -> Option<int>
    decreases ids.len() - from,
{
    if from < 0 || from >= ids.len() {
        None
    } else if ids[from] == id {
        Some(from)
    } else {
        position_from(ids, id, from + 1)
    }
}

/// The last user turn among the first `n`.
pub open spec fn last_user(turns: Seq<Turn>, n: int) -> Option<int>
    decreases n,
{
    if n <= 0 || n > turns.len() {
        None
    } else if turns[n - 1].role == "user"@ {
        Some(n - 1)
    } else {
        last_user(turns, n - 1)
    }
}

/// The turn an attachment belongs on: its own message's where that message
/// is among `ids`, the last user turn where no message owns it yet.
pub open spec fn turn_for(
    turns: Seq<Turn>,
    ids: Seq<Seq<char>>,
    history: Seq<Message>,
    a: Attachment,
) -> Option<int> {
    match owner_from(history, a, 0) {
        Some(i) => position_from(ids, history[i].id@, 0),
        None => last_user(turns, turns.len() as int),
    }
}

/// The first position at which `id` stands among `ids`.
fn position_of(ids: &[String], id: &str) -> (r: Option<usize>)
    ensures
        match position_from(types::texts(ids@), id@, 0) {
            Some(i) => r is Some && r->0 == i,
            None => r is None,
        },
{
    let mut i: usize = 0;
    while i < ids.len()
        invariant
            i <= ids@.len(),
            position_from(types::texts(ids@), id@, 0) == position_from(
                types::texts(ids@),
                id@,
                i as int,
            ),
        decreases ids@.len() - i,
    {
        if text::same(&ids[i], id) {
            return Some(i);
        }
        i += 1;
    }
    None
}

/// The last turn with the user's role.
pub fn latest_user_turn(turns: &[ChatTurn]) -> (r: Option<usize>)
    ensures
        match last_user(types::turns(turns@), turns@.len() as int) {
            Some(i) => r is Some && r->0 == i,
            None => r is None,
        },
{
    let mut n: usize = turns.len();
    while n > 0
        invariant
            n <= turns@.len(),
            last_user(types::turns(turns@), turns@.len() as int) == last_user(
                types::turns(turns@),
                n as int,
            ),
        decreases n,
    {
        if text::same(&turns[n - 1].role, "user") {
            return Some(n - 1);
        }
        n -= 1;
    }
    None
}

/// The turn an attachment belongs on: its own message when that message is in
/// the window; the latest user turn when no message owns it yet; `None` when
/// its message has left the window.
pub fn attachment_turn(
    turns: &[ChatTurn],
    ids: &[String],
    history: &[Message],
    attachment: &Attachment,
) -> (r: Option<usize>)
    ensures
        match turn_for(types::turns(turns@), types::texts(ids@), history@, *attachment) {
            Some(i) => r is Some && r->0 == i,
            None => r is None,
        },
{
    match attachment_owner(history, attachment) {
        Some(owner) => position_of(ids, owner),
        None => latest_user_turn(turns),
    }
}

// ---- which messages are sent ------------------------------------------------

/// The id marks the summary that stands for compacted history.
pub open spec fn is_summary(id: Seq<char>) -> bool {
    text::begins(id, "context-summary:"@)
}

/// The history opens with a summary of what was compacted.
pub open spec fn has_summary(history: Seq<Message>) -> bool {
    history.len() > 0 && is_summary(history[0].id@)
}

/// The last `room` messages among the first `n`, summaries left out.
pub open spec fn recent(history: Seq<Message>, n: int, room: nat) -> Seq<Message>
    decreases n,
{
    if n <= 0 || n > history.len() || room == 0 {
        Seq::empty()
    } else if is_summary(history[n - 1].id@) {
        recent(history, n - 1, room)
    } else {
        recent(history, n - 1, (room - 1) as nat).push(history[n - 1])
    }
}

/// The messages considered: the opening summary, if there is one, and the
/// most recent others, `HISTORY_TURNS` in all at most.
pub open spec fn window(history: Seq<Message>) -> Seq<Message> {
    if has_summary(history) {
        seq![history[0]] + recent(history, history.len() as int, (HISTORY_TURNS - 1) as nat)
    } else {
        recent(history, history.len() as int, HISTORY_TURNS as nat)
    }
}

/// The bytes of the messages' contents.
pub open spec fn content_bytes(messages: Seq<Message>) -> nat
    decreases messages.len(),
{
    if messages.len() == 0 {
        0
    } else {
        content_bytes(messages.drop_last()) + text::byte_len(messages.last().content@)
    }
}

/// Drops the oldest message until the contents fit in `budget` bytes or one
/// message is left; an opening summary outlasts all but that one.
pub open spec fn within_budget(messages: Seq<Message>, summary: bool, budget: nat) -> Seq<Message>
    decreases messages.len(),
{
    if messages.len() > 1 && content_bytes(messages) > budget {
        within_budget(
            messages.remove(if summary && messages.len() > 2 { 1int } else { 0int }),
            summary,
            budget,
        )
    } else {
        messages
    }
}

/// The bytes of the attachments' excerpts.
pub open spec fn excerpt_bytes(attachments: Seq<Attachment>) -> nat
    decreases attachments.len(),
{
    if attachments.len() == 0 {
        0
    } else {
        excerpt_bytes(attachments.drop_last()) + text::byte_len(attachments.last().text_excerpt@)
    }
}

/// Bytes left for messages once the excerpts have their share, never below
/// 2,000.
pub open spec fn history_room(max_chars: nat, attachments: Seq<Attachment>) -> nat {
    num::greater(
        max_chars - num::lesser(excerpt_bytes(attachments) as int, ATTACH_CHARS_PER_TURN as int),
        2_000,
    ) as nat
}

/// The messages sent within a budget of `max_chars` bytes.
pub open spec fn sent_messages(
    history: Seq<Message>,
    attachments: Seq<Attachment>,
    max_chars: nat,
) -> Seq<Message> {
    within_budget(window(history), has_summary(history), history_room(max_chars, attachments))
}

/// Taking one message out takes its bytes out.
pub proof fn lemma_content_bytes_remove(messages: Seq<Message>, at: int)
    requires
        0 <= at < messages.len(),
    ensures
        content_bytes(messages.remove(at)) + text::byte_len(messages[at].content@) == content_bytes(
            messages,
        ),
    decreases messages.len(),
{
    if at == messages.len() - 1 {
        assert(messages.remove(at) =~= messages.drop_last());
    } else {
        lemma_content_bytes_remove(messages.drop_last(), at);
        assert(messages.remove(at).drop_last() =~= messages.drop_last().remove(at));
        assert(messages.remove(at).last() == messages.last());
    }
}

/// The bytes of the messages' contents.
pub fn content_bytes_of(messages: &[Message]) -> (n: usize)
    requires
        content_bytes(messages@) <= usize::MAX,
    ensures
        n == content_bytes(messages@),
{
    let mut n: usize = 0;
    let mut i: usize = 0;
    assert(messages@.take(0) =~= Seq::<Message>::empty());
    while i < messages.len()
        invariant
            i <= messages@.len(),
            content_bytes(messages@) <= usize::MAX,
            n == content_bytes(messages@.take(i as int)),
        decreases messages@.len() - i,
    {
        proof {
            assert(messages@.take(i + 1).drop_last() =~= messages@.take(i as int));
            lemma_content_bytes_take(messages@, i + 1);
        }
        n = n + text::bytes_in(&messages[i].content);
        i += 1;
    }
    assert(messages@.take(messages@.len() as int) =~= messages@);
    n
}

/// The first messages have no more bytes than all of them.
pub proof fn lemma_content_bytes_take(messages: Seq<Message>, n: int)
    requires
        0 <= n <= messages.len(),
    ensures
        content_bytes(messages.take(n)) <= content_bytes(messages),
    decreases messages.len(),
{
    if n < messages.len() {
        lemma_content_bytes_take(messages.drop_last(), n);
        assert(messages.drop_last().take(n) =~= messages.take(n));
    } else {
        assert(messages.take(n) =~= messages);
    }
}

/// The messages that references point to.
spec fn pointed(v: Seq<&Message>) -> Seq<Message> {
    v.map_values(|m: &Message| *m)
}

/// Whether the id marks a summary of compacted history.
fn marks_summary(id: &str) -> (r: bool)
    ensures
        r == is_summary(id@),
{
    text::starts_with(id, "context-summary:")
}

/// The excerpt bytes, counted up to `ATTACH_CHARS_PER_TURN`.
fn excerpt_share(attachments: &[Attachment]) -> (r: usize)
    ensures
        r == num::lesser(excerpt_bytes(attachments@) as int, ATTACH_CHARS_PER_TURN as int),
{
    let mut share: usize = 0;
    let mut i: usize = 0;
    assert(attachments@.take(0) =~= Seq::<Attachment>::empty());
    while i < attachments.len()
        invariant
            i <= attachments@.len(),
            share == num::lesser(
                excerpt_bytes(attachments@.take(i as int)) as int,
                ATTACH_CHARS_PER_TURN as int,
            ),
        decreases attachments@.len() - i,
    {
        let here: usize = text::bytes_in(&attachments[i].text_excerpt);
        assert(attachments@.take(i + 1).drop_last() =~= attachments@.take(i as int));
        if here >= ATTACH_CHARS_PER_TURN - share {
            share = ATTACH_CHARS_PER_TURN;
        } else {
            share = share + here;
        }
        i += 1;
    }
    assert(attachments@.take(attachments@.len() as int) =~= attachments@);
    share
}

/// Characters left for messages once attachment excerpts take their share of
/// a request's history budget.
pub fn history_room_for(max_chars: usize, attachments: &[Attachment]) -> (r: usize)
    ensures
        r == history_room(max_chars as nat, attachments@),
{
    let share: usize = excerpt_share(attachments);
    let left: usize = if max_chars < share { 0 } else { max_chars - share };
    if left < 2_000 {
        2_000
    } else {
        left
    }
}

/// The messages that `window` names.
fn window_of(history: &[Message]) -> (w: Vec<&Message>)
    ensures
        pointed(w@) == window(history@),
        w@.len() <= HISTORY_TURNS,
{
    let summary: bool = history.len() > 0 && marks_summary(&history[0].id);
    let mut room: usize = if summary { HISTORY_TURNS - 1 } else { HISTORY_TURNS };
    let ghost all = recent(history@, history@.len() as int, room as nat);
    let mut w: Vec<&Message> = Vec::new();
    let mut n: usize = history.len();
    while n > 0 && room > 0
        invariant
            n <= history@.len(),
            room + w@.len() <= HISTORY_TURNS,
            summary ==> room + w@.len() < HISTORY_TURNS,
            all == recent(history@, n as int, room as nat) + pointed(w@).reverse(),
        decreases n,
    {
        let m = &history[n - 1];
        if !marks_summary(&m.id) {
            proof {
                let before = recent(history@, n - 1, (room - 1) as nat);
                let was = pointed(w@);
                assert(pointed(w@.push(m)) =~= was.push(*m));
                assert(before.push(*m) + was.reverse() =~= before + was.push(*m).reverse());
            }
            w.push(m);
            room -= 1;
        }
        n -= 1;
    }
    assert(all =~= pointed(w@).reverse());
    let mut ordered: Vec<&Message> = Vec::new();
    if summary {
        ordered.push(&history[0]);
    }
    let ghost head = pointed(ordered@);
    let mut k: usize = w.len();
    while k > 0
        invariant
            k <= w@.len(),
            ordered@.len() == head.len() + w@.len() - k,
            pointed(ordered@) == head + all.take(w@.len() - k),
            all == pointed(w@).reverse(),
        decreases k,
    {
        let m = w[k - 1];
        proof {
            assert(all[w@.len() - k] == *m);
            assert(pointed(ordered@.push(m)) =~= pointed(ordered@).push(*m));
            assert(all.take(w@.len() - k + 1) =~= all.take(w@.len() - k).push(*m));
            assert(pointed(ordered@).push(*m) =~= head + all.take(w@.len() - k + 1));
        }
        ordered.push(m);
        k -= 1;
    }
    proof {
        assert(all.take(w@.len() as int) =~= all);
        assert(pointed(ordered@) =~= window(history@));
    }
    ordered
}

/// The messages that `sent_messages` names.
fn sent_of<'a>(history: &'a [Message], attachments: &[Attachment], max_chars: usize) -> (w: Vec<
    &'a Message,
>)
    ensures
        pointed(w@) == sent_messages(history@, attachments@, max_chars as nat),
{
    let summary: bool = history.len() > 0 && marks_summary(&history[0].id);
    let budget: usize = history_room_for(max_chars, attachments);
    let mut w = window_of(history);
    let mut bytes: u128 = 0;
    let mut i: usize = 0;
    assert(pointed(w@).take(0) =~= Seq::<Message>::empty());
    while i < w.len()
        invariant
            i <= w@.len(),
            w@.len() <= HISTORY_TURNS,
            bytes == content_bytes(pointed(w@).take(i as int)),
            bytes <= i * 0x1_0000_0000_0000_0000,
        decreases w@.len() - i,
    {
        let here: usize = text::bytes_in(&w[i].content);
        assert(pointed(w@).take(i + 1).drop_last() =~= pointed(w@).take(i as int));
        bytes = bytes + here as u128;
        i += 1;
    }
    assert(pointed(w@).take(w@.len() as int) =~= pointed(w@));
    while w.len() > 1 && bytes > budget as u128
        invariant
            bytes == content_bytes(pointed(w@)),
            within_budget(pointed(w@), summary, budget as nat) == sent_messages(
                history@,
                attachments@,
                max_chars as nat,
            ),
        decreases w@.len(),
    {
        let at: usize = if summary && w.len() > 2 { 1 } else { 0 };
        let here: usize = text::bytes_in(&w[at].content);
        proof {
            lemma_content_bytes_remove(pointed(w@), at as int);
            assert(pointed(w@.remove(at as int)) =~= pointed(w@).remove(at as int));
        }
        bytes = bytes - here as u128;
        let _ = w.remove(at);
    }
    w
}

// ---- what each message says as a turn ---------------------------------------

/// What stands for a reply that was nothing but tool envelopes.
pub const TOOLS_ONLY_REPLY: &'static str =
    "[This reply only ran tools; their results were shown to the user.]";

/// The turn of a saved message. A tool result is sent as the user's; of a
/// reply only the prose is sent.
pub open spec fn turn_of(m: Message) -> Turn {
    if m.role@ == "assistant"@ {
        types::text_turn(
            "assistant"@,
            if m.prose@.len() == 0 {
                TOOLS_ONLY_REPLY@
            } else {
                m.prose@
            },
        )
    } else if m.role@ == "tool"@ {
        types::text_turn("user"@, "[tool result]\n"@ + m.content@)
    } else {
        types::text_turn("user"@, m.content@)
    }
}

/// The turn of a saved message.
fn turn_from(m: &Message) -> (t: ChatTurn)
    ensures
        t@ == turn_of(*m),
{
    if text::same(&m.role, "assistant") {
        if m.prose.as_str().is_empty() {
            ChatTurn::text("assistant", TOOLS_ONLY_REPLY.to_owned())
        } else {
            ChatTurn::text("assistant", m.prose.clone())
        }
    } else if text::same(&m.role, "tool") {
        let mut content = "[tool result]\n".to_owned();
        content.append(&m.content);
        ChatTurn::text("user", content)
    } else {
        ChatTurn::text("user", m.content.clone())
    }
}

/// The turns of saved messages.
pub open spec fn turns_of(messages: Seq<Message>) -> Seq<Turn> {
    messages.map_values(|m: Message| turn_of(m))
}

/// The ids of saved messages.
pub open spec fn ids_of(messages: Seq<Message>) -> Seq<Seq<char>> {
    messages.map_values(|m: Message| m.id@)
}

// ---- where the excerpts go ---------------------------------------------------

/// How an excerpt is shown below the message.
pub open spec fn file_note(a: Attachment, excerpt: Seq<char>) -> Seq<char> {
    "\n\n[Attached file: "@ + a.filename@ + "]\n"@ + excerpt
}

/// How an excerpt is shown below the message.
fn file_note_of(a: &Attachment, excerpt: &str) -> (s: String)
    ensures
        s@ == file_note(*a, excerpt@),
{
    let mut s = "\n\n[Attached file: ".to_owned();
    s.append(&a.filename);
    s.append("]\n");
    s.append(excerpt);
    s
}

/// Turns, and for each the bytes of excerpt already on it.
pub struct Placement {
    pub turns: Seq<Turn>,
    pub used: Seq<nat>,
}

/// `turn` with `note` at its end.
pub open spec fn with_note(turn: Turn, note: Seq<char>) -> Turn {
    Turn { role: turn.role, content: turn.content + note, images: turn.images }
}

/// Puts one excerpt on its turn, as far as that turn has room for excerpts.
pub open spec fn with_excerpt(
    p: Placement,
    ids: Seq<Seq<char>>,
    history: Seq<Message>,
    a: Attachment,
) -> Placement {
    if a.text_excerpt@.len() == 0 {
        p
    } else {
        match turn_for(p.turns, ids, history, a) {
            None => p,
            Some(i) => if p.used[i] >= ATTACH_CHARS_PER_TURN {
                p
            } else {
                let kept = text::prefix_within(
                    a.text_excerpt@,
                    (ATTACH_CHARS_PER_TURN - p.used[i]) as nat,
                );
                Placement {
                    turns: p.turns.update(i, with_note(p.turns[i], file_note(a, kept))),
                    used: p.used.update(i, p.used[i] + text::byte_len(kept)),
                }
            },
        }
    }
}

/// Puts the excerpts on their turns, one attachment after the other.
pub open spec fn with_excerpts(
    p: Placement,
    ids: Seq<Seq<char>>,
    history: Seq<Message>,
    attachments: Seq<Attachment>,
) -> Placement
    decreases attachments.len(),
{
    if attachments.len() == 0 {
        p
    } else {
        with_excerpt(
            with_excerpts(p, ids, history, attachments.drop_last()),
            ids,
            history,
            attachments.last(),
        )
    }
}

/// No turn holds an excerpt yet.
pub open spec fn unused(turns: Seq<Turn>) -> Placement {
    Placement { turns, used: Seq::new(turns.len(), |i: int| 0nat) }
}

/// All excerpts in one block, and the bytes left of the share they have
/// together.
pub open spec fn one_block(attachments: Seq<Attachment>) -> (Seq<char>, nat)
    decreases attachments.len(),
{
    if attachments.len() == 0 {
        (Seq::empty(), ATTACH_CHARS_PER_TURN as nat)
    } else {
        let (block, left) = one_block(attachments.drop_last());
        let a = attachments.last();
        if left == 0 {
            (block, left)
        } else {
            let kept = text::prefix_within(a.text_excerpt@, left);
            (block + file_note(a, kept), (left - text::byte_len(kept)) as nat)
        }
    }
}

/// The block at the end of the last user turn, or on a turn of its own where
/// there is no user turn.
pub open spec fn with_block(turns: Seq<Turn>, block: Seq<char>) -> Seq<Turn> {
    if block.len() == 0 {
        turns
    } else {
        match last_user(turns, turns.len() as int) {
            Some(i) => turns.update(i, with_note(turns[i], block)),
            None => turns.push(types::text_turn("user"@, text::trimmed_start(block))),
        }
    }
}

/// The turns of a request: the messages sent, and the excerpts each on its
/// own message, or all on the last user turn where `legacy` is asked for.
pub open spec fn request_turns(
    history: Seq<Message>,
    attachments: Seq<Attachment>,
    max_chars: nat,
    legacy: bool,
) -> Seq<Turn> {
    let sent = sent_messages(history, attachments, max_chars);
    if legacy {
        with_block(turns_of(sent), one_block(attachments).0)
    } else {
        with_excerpts(unused(turns_of(sent)), ids_of(sent), history, attachments).turns
    }
}

/// Positions are positions.
proof fn lemma_turn_for_in_range(
    turns: Seq<Turn>,
    ids: Seq<Seq<char>>,
    history: Seq<Message>,
    a: Attachment,
)
    requires
        ids.len() == turns.len(),
    ensures
        turn_for(turns, ids, history, a) matches Some(i) ==> 0 <= i < turns.len(),
{
    if let Some(i) = owner_from(history, a, 0) {
        lemma_position_from(ids, history[i].id@, 0);
    } else {
        lemma_last_user(turns, turns.len() as int);
    }
}

/// A position found is one at which the id stands; none is found where it
/// stands nowhere.
pub proof fn lemma_position_from(ids: Seq<Seq<char>>, id: Seq<char>, from: int)
    requires
        0 <= from,
    ensures
        position_from(ids, id, from) matches Some(i) ==> from <= i < ids.len() && ids[i] == id,
        position_from(ids, id, from) is None ==> forall|k: int|
            from <= k < ids.len() ==> #[trigger] ids[k] != id,
    decreases ids.len() - from,
{
    if from < ids.len() && ids[from] != id {
        lemma_position_from(ids, id, from + 1);
    }
}

/// The last user turn is a user turn.
pub proof fn lemma_last_user(turns: Seq<Turn>, n: int)
    ensures
        last_user(turns, n) matches Some(i) ==> 0 <= i < n && i < turns.len() && turns[i].role
            == "user"@,
    decreases n,
{
    if 0 < n <= turns.len() && turns[n - 1].role != "user"@ {
        lemma_last_user(turns, n - 1);
    }
}

/// Placing excerpts changes no role and no count, and no turn takes more than
/// its share.
proof fn lemma_with_excerpts_shape(
    p: Placement,
    ids: Seq<Seq<char>>,
    history: Seq<Message>,
    attachments: Seq<Attachment>,
)
    requires
        ids.len() == p.turns.len() == p.used.len(),
        forall|i: int| 0 <= i < p.used.len() ==> #[trigger] p.used[i] <= ATTACH_CHARS_PER_TURN,
    ensures
        ({
            let q = with_excerpts(p, ids, history, attachments);
            &&& q.turns.len() == p.turns.len()
            &&& q.used.len() == p.used.len()
            &&& forall|i: int|
                0 <= i < q.used.len() ==> #[trigger] q.used[i] <= ATTACH_CHARS_PER_TURN
            &&& forall|i: int|
                0 <= i < q.turns.len() ==> (#[trigger] q.turns[i]).role == p.turns[i].role
                    && q.turns[i].images == p.turns[i].images
        }),
    decreases attachments.len(),
{
    if attachments.len() > 0 {
        lemma_with_excerpts_shape(p, ids, history, attachments.drop_last());
        let q = with_excerpts(p, ids, history, attachments.drop_last());
        let a = attachments.last();
        lemma_turn_for_in_range(q.turns, ids, history, a);
        if let Some(i) = turn_for(q.turns, ids, history, a) {
            text::lemma_prefix_within(
                a.text_excerpt@,
                (ATTACH_CHARS_PER_TURN - q.used[i]) as nat,
            );
        }
    }
}

/// The exec form of `one_block`.
fn one_block_of(attachments: &[Attachment]) -> (s: String)
    ensures
        s@ == one_block(attachments@).0,
{
    let mut block = String::new();
    let mut left: usize = ATTACH_CHARS_PER_TURN;
    let mut i: usize = 0;
    assert(attachments@.take(0) =~= Seq::<Attachment>::empty());
    while i < attachments.len()
        invariant
            i <= attachments@.len(),
            one_block(attachments@.take(i as int)) == (block@, left as nat),
        decreases attachments@.len() - i,
    {
        assert(attachments@.take(i + 1).drop_last() =~= attachments@.take(i as int));
        if left > 0 {
            let kept = text::cut_to_bytes(&attachments[i].text_excerpt, left);
            let note = file_note_of(&attachments[i], &kept);
            block.append(&note);
            left = left - text::bytes_in(&kept);
        }
        i += 1;
    }
    assert(attachments@.take(attachments@.len() as int) =~= attachments@);
    block
}

/// Appends attachment excerpts to the latest user turn (or adds one).
pub fn tap_append_attach(turns: &mut Vec<ChatTurn>, block: &str)
    ensures
        types::turns(final(turns)@) == with_block(types::turns(old(turns)@), block@),
{
    if block.is_empty() {
        return;
    }
    match latest_user_turn(turns) {
        Some(i) => {
            proof {
                lemma_last_user(types::turns(turns@), turns@.len() as int);
            }
            turns[i].content.append(block);
            assert(types::turns(turns@) =~= with_block(types::turns(old(turns)@), block@));
        },
        None => {
            let start = text::trim_start(block);
            turns.push(ChatTurn::text("user", start));
            assert(types::turns(turns@) =~= with_block(types::turns(old(turns)@), block@));
        },
    }
}

/// The history turns within budget and, for each, the id of the saved message
/// it came from. Each excerpt stays on the message it was sent with; with
/// `legacy` they all go on the latest user turn.
pub fn build_turns_with_owners(
    history: &[Message],
    attachments: &[Attachment],
    max_chars: usize,
    legacy: bool,
) -> (r: (Vec<ChatTurn>, Vec<String>))
    ensures
        types::turns(r.0@) == request_turns(history@, attachments@, max_chars as nat, legacy),
        types::texts(r.1@) == ids_of(sent_messages(history@, attachments@, max_chars as nat)),
{
    let sent = sent_of(history, attachments, max_chars);
    let ghost messages = pointed(sent@);
    let mut turns: Vec<ChatTurn> = Vec::new();
    let mut ids: Vec<String> = Vec::new();
    let mut used: Vec<usize> = Vec::new();
    let mut k: usize = 0;
    while k < sent.len()
        invariant
            k <= sent@.len(),
            messages == pointed(sent@),
            turns@.len() == k,
            ids@.len() == k,
            used@.len() == k,
            forall|j: int| 0 <= j < k ==> (#[trigger] turns@[j])@ == turn_of(messages[j]),
            forall|j: int| 0 <= j < k ==> (#[trigger] ids@[j])@ == messages[j].id@,
            forall|j: int| 0 <= j < k ==> #[trigger] used@[j] == 0,
        decreases sent@.len() - k,
    {
        turns.push(turn_from(sent[k]));
        ids.push(sent[k].id.clone());
        used.push(0);
        k += 1;
    }
    proof {
        assert(types::turns(turns@) =~= turns_of(messages));
        assert(types::texts(ids@) =~= ids_of(messages));
    }
    if legacy {
        let block = one_block_of(attachments);
        tap_append_attach(&mut turns, &block);
        return (turns, ids);
    }
    let ghost start = unused(turns_of(messages));
    let mut i: usize = 0;
    proof {
        assert(attachments@.take(0) =~= Seq::<Attachment>::empty());
        assert(used@.map_values(|n: usize| n as nat) =~= start.used);
    }
    while i < attachments.len()
        invariant
            i <= attachments@.len(),
            turns@.len() == ids@.len() == used@.len() == messages.len(),
            types::texts(ids@) == ids_of(messages),
            start == unused(turns_of(messages)),
            ({
                let q = with_excerpts(
                    start,
                    ids_of(messages),
                    history@,
                    attachments@.take(i as int),
                );
                &&& q.turns == types::turns(turns@)
                &&& q.used == used@.map_values(|n: usize| n as nat)
            }),
        decreases attachments@.len() - i,
    {
        let a = &attachments[i];
        let ghost q = with_excerpts(start, ids_of(messages), history@, attachments@.take(i as int));
        proof {
            assert(attachments@.take(i + 1).drop_last() =~= attachments@.take(i as int));
            lemma_turn_for_in_range(q.turns, ids_of(messages), history@, *a);
        }
        if !a.text_excerpt.as_str().is_empty() {
            if let Some(at) = attachment_turn(&turns, &ids, history, a) {
                let taken: usize = used[at];
                assert(q.used[at as int] == taken);
                if taken < ATTACH_CHARS_PER_TURN {
                    let kept = text::cut_to_bytes(&a.text_excerpt, ATTACH_CHARS_PER_TURN - taken);
                    let note = file_note_of(a, &kept);
                    let ghost was = turns@;
                    turns[at].content.append(&note);
                    used.set(at, taken + text::bytes_in(&kept));
                    proof {
                        let next = with_excerpt(q, ids_of(messages), history@, *a);
                        assert(next.turns =~= types::turns(turns@));
                        assert(next.used =~= used@.map_values(|n: usize| n as nat));
                    }
                }
            }
        }
        i += 1;
    }
    assert(attachments@.take(attachments@.len() as int) =~= attachments@);
    (turns, ids)
}

/// Turns within an explicit budget of bytes, derived from the loaded context
/// window, so that a small context and a large one each carry as much history
/// as they can hold.
pub fn build_turns_budgeted(
    history: &[Message],
    attachments: &[Attachment],
    max_chars: usize,
    legacy: bool,
) -> (r: Vec<ChatTurn>)
    ensures
        types::turns(r@) == request_turns(history@, attachments@, max_chars as nat, legacy),
{
    build_turns_with_owners(history, attachments, max_chars, legacy).0
}

/// The turns sent to the model: the newest `HISTORY_TURNS` messages within
/// `HISTORY_CHARS`, oldest first, with the attachment excerpts.
pub fn build_turns(history: &[Message], attachments: &[Attachment], legacy: bool) -> (r: Vec<
    ChatTurn,
>)
    ensures
        types::turns(r@) == request_turns(history@, attachments@, HISTORY_CHARS as nat, legacy),
{
    build_turns_budgeted(history, attachments, HISTORY_CHARS, legacy)
}

// ---- what holds of every request ----------------------------------------------

proof fn lemma_recent(history: Seq<Message>, n: int, room: nat)
    requires
        0 <= n <= history.len(),
    ensures
        recent(history, n, room).len() <= room,
        n > 0 && room > 0 && !is_summary(history[n - 1].id@) ==> recent(history, n, room).len() > 0
            && recent(history, n, room).last() == history[n - 1],
    decreases n,
{
    if n > 0 && room > 0 {
        if is_summary(history[n - 1].id@) {
            lemma_recent(history, n - 1, room);
        } else {
            lemma_recent(history, n - 1, (room - 1) as nat);
        }
    }
}

proof fn lemma_within_budget(messages: Seq<Message>, summary: bool, budget: nat)
    ensures
        ({
            let kept = within_budget(messages, summary, budget);
            &&& kept.len() <= messages.len()
            &&& messages.len() > 0 ==> kept.len() > 0 && kept.last() == messages.last()
            &&& kept.len() <= 1 || content_bytes(kept) <= budget
            &&& content_bytes(messages) <= budget ==> kept == messages
            &&& !summary ==> kept == messages.skip(messages.len() - kept.len())
            &&& summary && kept.len() > 1 ==> kept == seq![messages[0]] + messages.skip(
                messages.len() - kept.len() + 1,
            )
        }),
    decreases messages.len(),
{
    if messages.len() > 1 && content_bytes(messages) > budget {
        let at = if summary && messages.len() > 2 {
            1int
        } else {
            0int
        };
        let fewer = messages.remove(at);
        lemma_within_budget(fewer, summary, budget);
        let kept = within_budget(fewer, summary, budget);
        assert(fewer.last() == messages.last());
        if !summary {
            assert(fewer.skip(fewer.len() - kept.len()) =~= messages.skip(
                messages.len() - kept.len(),
            ));
        } else if kept.len() > 1 {
            assert(at == 1);
            assert(fewer.skip(fewer.len() - kept.len() + 1) =~= messages.skip(
                messages.len() - kept.len() + 1,
            ));
        }
    } else {
        assert(messages.skip(0) =~= messages);
        if messages.len() > 1 {
            assert(seq![messages[0]] + messages.skip(1) =~= messages);
        }
    }
}

/// A request carries at most `HISTORY_TURNS` messages, and their contents fit
/// the room left beside the excerpts unless a single message is left.
pub proof fn law_sent_messages_fit(
    history: Seq<Message>,
    attachments: Seq<Attachment>,
    max_chars: nat,
)
    ensures
        ({
            let sent = sent_messages(history, attachments, max_chars);
            &&& sent.len() <= HISTORY_TURNS
            &&& sent.len() <= 1 || content_bytes(sent) <= history_room(max_chars, attachments)
        }),
{
    let n = history.len() as int;
    lemma_recent(history, n, (HISTORY_TURNS - 1) as nat);
    lemma_recent(history, n, HISTORY_TURNS as nat);
    lemma_within_budget(
        window(history),
        has_summary(history),
        history_room(max_chars, attachments),
    );
}

/// The latest message is always sent, and sent last.
pub proof fn law_latest_message_is_sent(
    history: Seq<Message>,
    attachments: Seq<Attachment>,
    max_chars: nat,
)
    requires
        history.len() > 0,
        !is_summary(history.last().id@),
    ensures
        sent_messages(history, attachments, max_chars).len() > 0,
        sent_messages(history, attachments, max_chars).last() == history.last(),
{
    let n = history.len() as int;
    lemma_recent(history, n, (HISTORY_TURNS - 1) as nat);
    lemma_recent(history, n, HISTORY_TURNS as nat);
    lemma_within_budget(
        window(history),
        has_summary(history),
        history_room(max_chars, attachments),
    );
}

/// The summary of compacted history leads every request that carries more
/// than the latest message; what follows it is the end of the window.
pub proof fn law_summary_leads(
    history: Seq<Message>,
    attachments: Seq<Attachment>,
    max_chars: nat,
)
    requires
        has_summary(history),
        sent_messages(history, attachments, max_chars).len() > 1,
    ensures
        ({
            let sent = sent_messages(history, attachments, max_chars);
            &&& sent[0] == history[0]
            &&& sent.skip(1) == window(history).skip(window(history).len() - sent.len() + 1)
        }),
{
    let sent = sent_messages(history, attachments, max_chars);
    lemma_within_budget(window(history), true, history_room(max_chars, attachments));
    assert(sent.skip(1) =~= window(history).skip(window(history).len() - sent.len() + 1));
}

/// Without a summary what is dropped is the oldest: the messages sent are the
/// end of the window.
pub proof fn law_oldest_are_dropped_first(
    history: Seq<Message>,
    attachments: Seq<Attachment>,
    max_chars: nat,
)
    requires
        !has_summary(history),
    ensures
        ({
            let sent = sent_messages(history, attachments, max_chars);
            sent == window(history).skip(window(history).len() - sent.len())
        }),
{
    lemma_within_budget(window(history), false, history_room(max_chars, attachments));
}

/// A request has a turn for each message sent, and one more at most.
pub proof fn lemma_request_turns_len(
    history: Seq<Message>,
    attachments: Seq<Attachment>,
    max_chars: nat,
    legacy: bool,
)
    ensures
        request_turns(history, attachments, max_chars, legacy).len() >= ids_of(
            sent_messages(history, attachments, max_chars),
        ).len(),
{
    let sent = sent_messages(history, attachments, max_chars);
    lemma_last_user(turns_of(sent), turns_of(sent).len() as int);
    lemma_with_excerpts_shape(unused(turns_of(sent)), ids_of(sent), history, attachments);
}

/// No turn carries more than `ATTACH_CHARS_PER_TURN` bytes of excerpt, and
/// the excerpts change neither the number of turns nor who speaks.
pub proof fn law_excerpts_stay_in_their_share(
    messages: Seq<Message>,
    history: Seq<Message>,
    attachments: Seq<Attachment>,
)
    ensures
        ({
            let p = with_excerpts(
                unused(turns_of(messages)),
                ids_of(messages),
                history,
                attachments,
            );
            &&& p.turns.len() == messages.len()
            &&& p.used.len() == messages.len()
            &&& forall|i: int|
                0 <= i < messages.len() ==> #[trigger] p.used[i] <= ATTACH_CHARS_PER_TURN
            &&& forall|i: int|
                0 <= i < messages.len() ==> (#[trigger] p.turns[i]).role == turn_of(
                    messages[i],
                ).role
        }),
{
    lemma_with_excerpts_shape(unused(turns_of(messages)), ids_of(messages), history, attachments);
}

proof fn lemma_owner_kept(history: Seq<Message>, m: Message, a: Attachment, from: int)
    requires
        0 <= from <= history.len(),
    ensures
        owner_from(history, a, from) is Some ==> owner_from(history.push(m), a, from)
            == owner_from(history, a, from),
        owner_from(history, a, from) is None && may_own(m, a) ==> owner_from(
            history.push(m),
            a,
            from,
        ) == Some(history.len() as int),
        owner_from(history, a, from) matches Some(i) ==> from <= i < history.len(),
    decreases history.len() - from,
{
    if from < history.len() {
        assert(history.push(m)[from] == history[from]);
        if !may_own(history[from], a) {
            lemma_owner_kept(history, m, a, from + 1);
        }
    }
}

proof fn lemma_position_kept(ids: Seq<Seq<char>>, last: Seq<char>, id: Seq<char>, from: int)
    requires
        0 <= from <= ids.len(),
    ensures
        id != last ==> position_from(ids.push(last), id, from) == position_from(ids, id, from),
        id == last && !ids.contains(last) ==> position_from(ids.push(last), id, from) == Some(
            ids.len() as int,
        ),
    decreases ids.len() - from,
{
    if from < ids.len() {
        assert(ids.push(last)[from] == ids[from]);
        if ids[from] != id {
            lemma_position_kept(ids, last, id, from + 1);
        }
    } else {
        assert(ids.push(last)[from] == last);
        assert(position_from(ids.push(last), id, from + 1) is None);
    }
}

/// Attachments that earlier messages own are placed alike with a message
/// more.
proof fn lemma_owned_excerpts_kept(
    sent: Seq<Message>,
    history: Seq<Message>,
    m: Message,
    attachments: Seq<Attachment>,
)
    requires
        !ids_of(history).contains(m.id@),
        forall|k: int|
            0 <= k < attachments.len() ==> owner_from(history, #[trigger] attachments[k], 0) is Some,
    ensures
        ({
            let p = with_excerpts(unused(turns_of(sent)), ids_of(sent), history, attachments);
            let q = with_excerpts(
                unused(turns_of(sent.push(m))),
                ids_of(sent.push(m)),
                history.push(m),
                attachments,
            );
            &&& q.turns == p.turns.push(turn_of(m))
            &&& q.used == p.used.push(0)
        }),
    decreases attachments.len(),
{
    let grown = sent.push(m);
    assert(turns_of(grown) =~= turns_of(sent).push(turn_of(m)));
    assert(ids_of(grown) =~= ids_of(sent).push(m.id@));
    assert(unused(turns_of(grown)).used =~= unused(turns_of(sent)).used.push(0));
    if attachments.len() > 0 {
        let fewer = attachments.drop_last();
        let a = attachments.last();
        assert(owner_from(history, attachments[attachments.len() - 1], 0) is Some);
        assert forall|k: int| 0 <= k < fewer.len() implies owner_from(
            history,
            #[trigger] fewer[k],
            0,
        ) is Some by {
            assert(fewer[k] == attachments[k]);
        }
        lemma_owned_excerpts_kept(sent, history, m, fewer);
        let p = with_excerpts(unused(turns_of(sent)), ids_of(sent), history, fewer);
        let q = with_excerpts(unused(turns_of(grown)), ids_of(grown), history.push(m), fewer);
        lemma_owner_kept(history, m, a, 0);
        lemma_with_excerpts_shape(unused(turns_of(sent)), ids_of(sent), history, fewer);
        let i = owner_from(history, a, 0)->0;
        assert(ids_of(history)[i] == history[i].id@);
        assert(history[i].id@ != m.id@);
        assert(history.push(m)[i] == history[i]);
        lemma_position_kept(ids_of(sent), m.id@, history[i].id@, 0);
        lemma_position_from(ids_of(sent), history[i].id@, 0);
        assert(with_excerpt(q, ids_of(grown), history.push(m), a).turns =~= with_excerpt(
            p,
            ids_of(sent),
            history,
            a,
        ).turns.push(turn_of(m)));
        assert(with_excerpt(q, ids_of(grown), history.push(m), a).used =~= with_excerpt(
            p,
            ids_of(sent),
            history,
            a,
        ).used.push(0));
    }
}

/// Attachments that the last message owns touch its turn alone.
proof fn lemma_new_excerpts_on_last(
    p: Placement,
    ids: Seq<Seq<char>>,
    history: Seq<Message>,
    m: Message,
    attachments: Seq<Attachment>,
)
    requires
        p.turns.len() == p.used.len() == ids.len() + 1,
        forall|i: int| 0 <= i < p.used.len() ==> #[trigger] p.used[i] <= ATTACH_CHARS_PER_TURN,
        !ids.contains(m.id@),
        forall|k: int|
            0 <= k < attachments.len() ==> owner_from(history, #[trigger] attachments[k], 0) is None
                && may_own(m, attachments[k]),
    ensures
        with_excerpts(p, ids.push(m.id@), history.push(m), attachments).turns.len()
            == p.turns.len(),
        with_excerpts(p, ids.push(m.id@), history.push(m), attachments).turns.drop_last()
            == p.turns.drop_last(),
    decreases attachments.len(),
{
    if attachments.len() > 0 {
        let fewer = attachments.drop_last();
        let a = attachments.last();
        assert(a == attachments[attachments.len() - 1]);
        assert forall|k: int| 0 <= k < fewer.len() implies owner_from(
            history,
            #[trigger] fewer[k],
            0,
        ) is None && may_own(m, fewer[k]) by {
            assert(fewer[k] == attachments[k]);
        }
        lemma_new_excerpts_on_last(p, ids, history, m, fewer);
        let q = with_excerpts(p, ids.push(m.id@), history.push(m), fewer);
        lemma_with_excerpts_shape(p, ids.push(m.id@), history.push(m), fewer);
        lemma_owner_kept(history, m, a, 0);
        lemma_position_kept(ids, m.id@, m.id@, 0);
        assert(history.push(m)[history.len() as int] == m);
        assert(with_excerpt(q, ids.push(m.id@), history.push(m), a).turns.drop_last()
            =~= q.turns.drop_last());
    }
}

/// Earlier turns stay as they were when the conversation goes on: a message
/// more, with the files sent with it, changes none of the turns before it, as
/// long as it displaces no message. So a model server can reuse what it has
/// read of them.
pub proof fn law_earlier_turns_stay_the_same(
    history: Seq<Message>,
    m: Message,
    attachments: Seq<Attachment>,
    sent_with_m: Seq<Attachment>,
    max_chars: nat,
)
    requires
        sent_messages(history.push(m), attachments + sent_with_m, max_chars) == sent_messages(
            history,
            attachments,
            max_chars,
        ).push(m),
        !ids_of(history).contains(m.id@),
        forall|k: int|
            0 <= k < attachments.len() ==> owner_from(history, #[trigger] attachments[k], 0) is Some,
        forall|k: int|
            0 <= k < sent_with_m.len() ==> owner_from(history, #[trigger] sent_with_m[k], 0) is None
                && may_own(m, sent_with_m[k]),
    ensures
        request_turns(
            history.push(m),
            attachments + sent_with_m,
            max_chars,
            false,
        ).drop_last() == request_turns(history, attachments, max_chars, false),
{
    let sent = sent_messages(history, attachments, max_chars);
    let grown = sent.push(m);
    lemma_sent_ids(history, attachments, max_chars, m.id@);
    lemma_owned_excerpts_kept(sent, history, m, attachments);
    lemma_with_excerpts_shape(unused(turns_of(sent)), ids_of(sent), history, attachments);
    lemma_with_excerpts_shape(
        unused(turns_of(grown)),
        ids_of(grown),
        history.push(m),
        attachments,
    );
    let p = with_excerpts(unused(turns_of(sent)), ids_of(sent), history, attachments);
    let q = with_excerpts(unused(turns_of(grown)), ids_of(grown), history.push(m), attachments);
    assert(ids_of(grown) =~= ids_of(sent).push(m.id@));
    lemma_new_excerpts_on_last(q, ids_of(sent), history, m, sent_with_m);
    lemma_with_excerpts_split(
        unused(turns_of(grown)),
        ids_of(grown),
        history.push(m),
        attachments,
        sent_with_m,
    );
    assert(q.turns.drop_last() =~= p.turns);
}

/// Placing a list and then another is placing both in a row.
proof fn lemma_with_excerpts_split(
    p: Placement,
    ids: Seq<Seq<char>>,
    history: Seq<Message>,
    first: Seq<Attachment>,
    second: Seq<Attachment>,
)
    ensures
        with_excerpts(p, ids, history, first + second) == with_excerpts(
            with_excerpts(p, ids, history, first),
            ids,
            history,
            second,
        ),
    decreases second.len(),
{
    if second.len() == 0 {
        assert(first + second =~= first);
    } else {
        lemma_with_excerpts_split(p, ids, history, first, second.drop_last());
        assert((first + second).drop_last() =~= first + second.drop_last());
        assert((first + second).last() == second.last());
    }
}

proof fn lemma_owner_among_first(history: Seq<Message>, a: Attachment, k: int, from: int)
    requires
        0 <= from <= k <= history.len(),
    ensures
        match owner_from(history.take(k), a, from) {
            Some(i) => from <= i < k && owner_from(history, a, from) == Some(i),
            None => owner_from(history, a, from) matches Some(i) ==> k <= i < history.len(),
        },
    decreases history.len() - from,
{
    if from < k {
        assert(history.take(k)[from] == history[from]);
        if !may_own(history[from], a) {
            lemma_owner_among_first(history, a, k, from + 1);
        }
    } else {
        lemma_owner_from(history, a, from);
    }
}

proof fn lemma_owner_from(history: Seq<Message>, a: Attachment, from: int)
    requires
        0 <= from,
    ensures
        owner_from(history, a, from) matches Some(i) ==> from <= i < history.len(),
    decreases history.len() - from,
{
    if from < history.len() && !may_own(history[from], a) {
        lemma_owner_from(history, a, from + 1);
    }
}

/// Where all messages are sent and the last is the user's, an excerpt goes on
/// the message that owns it if that is among the first `k`, and after those
/// if not.
proof fn lemma_turn_among_first(
    turns: Seq<Turn>,
    history: Seq<Message>,
    a: Attachment,
    k: int,
)
    requires
        0 <= k < history.len(),
        turns.len() == history.len(),
        turns.last().role == "user"@,
        ids_of(history).no_duplicates(),
    ensures
        match owner_from(history.take(k), a, 0) {
            Some(i) => 0 <= i < k && turn_for(turns, ids_of(history), history, a) == Some(i),
            None => turn_for(turns, ids_of(history), history, a) matches Some(j) && k <= j
                < turns.len(),
        },
{
    lemma_owner_among_first(history, a, k, 0);
    match owner_from(history, a, 0) {
        Some(i) => {
            let ids = ids_of(history);
            assert(ids[i] == history[i].id@);
            lemma_position_from(ids, history[i].id@, 0);
        },
        None => {
            assert(turns[turns.len() - 1] == turns.last());
        },
    }
}

/// Excerpts of files that none of the first `k` messages owns leave the turns
/// of those as they are.
proof fn lemma_later_excerpts(
    p: Placement,
    history: Seq<Message>,
    attachments: Seq<Attachment>,
    k: int,
)
    requires
        0 <= k < history.len(),
        p.turns.len() == p.used.len() == history.len(),
        forall|i: int| 0 <= i < p.used.len() ==> #[trigger] p.used[i] <= ATTACH_CHARS_PER_TURN,
        p.turns.last().role == "user"@,
        ids_of(history).no_duplicates(),
        forall|i: int|
            0 <= i < attachments.len() ==> owner_from(
                history.take(k),
                #[trigger] attachments[i],
                0,
            ) is None,
    ensures
        with_excerpts(p, ids_of(history), history, attachments).turns.take(k) == p.turns.take(k),
    decreases attachments.len(),
{
    if attachments.len() > 0 {
        let fewer = attachments.drop_last();
        let a = attachments.last();
        assert(a == attachments[attachments.len() - 1]);
        assert forall|i: int| 0 <= i < fewer.len() implies owner_from(
            history.take(k),
            #[trigger] fewer[i],
            0,
        ) is None by {
            assert(fewer[i] == attachments[i]);
        }
        lemma_later_excerpts(p, history, fewer, k);
        lemma_with_excerpts_shape(p, ids_of(history), history, fewer);
        let q = with_excerpts(p, ids_of(history), history, fewer);
        assert(q.turns[q.turns.len() - 1].role == p.turns[p.turns.len() - 1].role);
        lemma_turn_among_first(q.turns, history, a, k);
        assert(with_excerpt(q, ids_of(history), history, a).turns.take(k) =~= q.turns.take(k));
    }
}

/// Two histories with the same first `k` messages place the excerpts alike on
/// those.
proof fn lemma_first_excerpts_alike(
    h1: Seq<Message>,
    h2: Seq<Message>,
    attachments: Seq<Attachment>,
    k: int,
)
    requires
        0 <= k < h1.len(),
        k < h2.len(),
        h1.take(k) == h2.take(k),
        ids_of(h1).no_duplicates(),
        ids_of(h2).no_duplicates(),
        h1.last().role@ == "user"@,
        h2.last().role@ == "user"@,
    ensures
        ({
            let p = with_excerpts(unused(turns_of(h1)), ids_of(h1), h1, attachments);
            let q = with_excerpts(unused(turns_of(h2)), ids_of(h2), h2, attachments);
            &&& p.turns.take(k) == q.turns.take(k)
            &&& p.used.take(k) == q.used.take(k)
            &&& p.turns.last().role == "user"@
            &&& q.turns.last().role == "user"@
        }),
    decreases attachments.len(),
{
    lemma_with_excerpts_shape(unused(turns_of(h1)), ids_of(h1), h1, attachments);
    lemma_with_excerpts_shape(unused(turns_of(h2)), ids_of(h2), h2, attachments);
    assert(turns_of(h1).last() == turn_of(h1.last()));
    assert(turns_of(h2).last() == turn_of(h2.last()));
    reveal_strlit("user");
    reveal_strlit("assistant");
    reveal_strlit("tool");
    assert("user"@.len() != "assistant"@.len());
    assert("user"@[0] != "tool"@[0]);
    if attachments.len() == 0 {
        assert forall|i: int| 0 <= i < k implies turns_of(h1)[i] == turns_of(h2)[i] by {
            assert(h1[i] == h1.take(k)[i] && h2[i] == h2.take(k)[i]);
        }
        assert(turns_of(h1).take(k) =~= turns_of(h2).take(k));
        assert(unused(turns_of(h1)).used.take(k) =~= unused(turns_of(h2)).used.take(k));
    } else {
        let fewer = attachments.drop_last();
        let a = attachments.last();
        lemma_first_excerpts_alike(h1, h2, fewer, k);
        lemma_with_excerpts_shape(unused(turns_of(h1)), ids_of(h1), h1, fewer);
        lemma_with_excerpts_shape(unused(turns_of(h2)), ids_of(h2), h2, fewer);
        let p = with_excerpts(unused(turns_of(h1)), ids_of(h1), h1, fewer);
        let q = with_excerpts(unused(turns_of(h2)), ids_of(h2), h2, fewer);
        lemma_turn_among_first(p.turns, h1, a, k);
        lemma_turn_among_first(q.turns, h2, a, k);
        if let Some(i) = owner_from(h1.take(k), a, 0) {
            assert(p.turns.take(k)[i] == q.turns.take(k)[i]);
            assert(p.used.take(k)[i] == q.used.take(k)[i]);
        }
        let p1 = with_excerpt(p, ids_of(h1), h1, a);
        let q1 = with_excerpt(q, ids_of(h2), h2, a);
        assert forall|j: int| 0 <= j < k implies p1.turns[j] == q1.turns[j] && p1.used[j]
            == q1.used[j] by {
            assert(p.turns.take(k)[j] == q.turns.take(k)[j]);
            assert(p.used.take(k)[j] == q.used.take(k)[j]);
        }
        assert(p1.turns.take(k) =~= q1.turns.take(k));
        assert(p1.used.take(k) =~= q1.used.take(k));
    }
}

/// What two requests have in common is sent alike: where the conversations
/// share their first `k` messages and all messages of both are sent, the first
/// `k` turns are the same, whatever follows and whatever the budgets are. So a
/// model server can reuse what it has read of them.
pub proof fn law_shared_turns_are_sent_alike(
    h1: Seq<Message>,
    h2: Seq<Message>,
    attachments: Seq<Attachment>,
    k: int,
    x: nat,
    y: nat,
)
    requires
        0 <= k < h1.len(),
        k < h2.len(),
        h1.take(k) == h2.take(k),
        ids_of(h1).no_duplicates(),
        ids_of(h2).no_duplicates(),
        h1.last().role@ == "user"@,
        h2.last().role@ == "user"@,
        sent_messages(h1, attachments, x) == h1,
        sent_messages(h2, attachments, y) == h2,
    ensures
        request_turns(h1, attachments, x, false).take(k) == request_turns(
            h2,
            attachments,
            y,
            false,
        ).take(k),
{
    lemma_first_excerpts_alike(h1, h2, attachments, k);
}

/// Files sent since leave the turns that two requests share as they are, as
/// long as none of the shared messages owns them.
pub proof fn law_new_files_leave_shared_turns(
    h1: Seq<Message>,
    h2: Seq<Message>,
    attachments: Seq<Attachment>,
    sent_since: Seq<Attachment>,
    k: int,
    x: nat,
    y: nat,
)
    requires
        0 <= k < h1.len(),
        k < h2.len(),
        h1.take(k) == h2.take(k),
        ids_of(h1).no_duplicates(),
        ids_of(h2).no_duplicates(),
        h1.last().role@ == "user"@,
        h2.last().role@ == "user"@,
        forall|i: int|
            0 <= i < sent_since.len() ==> owner_from(h2.take(k), #[trigger] sent_since[i], 0)
                is None,
        sent_messages(h1, attachments, x) == h1,
        sent_messages(h2, attachments + sent_since, y) == h2,
    ensures
        request_turns(h1, attachments, x, false).take(k) == request_turns(
            h2,
            attachments + sent_since,
            y,
            false,
        ).take(k),
{
    lemma_first_excerpts_alike(h1, h2, attachments, k);
    lemma_with_excerpts_shape(unused(turns_of(h2)), ids_of(h2), h2, attachments);
    lemma_with_excerpts_split(unused(turns_of(h2)), ids_of(h2), h2, attachments, sent_since);
    let q = with_excerpts(unused(turns_of(h2)), ids_of(h2), h2, attachments);
    lemma_later_excerpts(q, h2, sent_since, k);
}

proof fn lemma_recent_from(history: Seq<Message>, n: int, room: nat)
    requires
        0 <= n <= history.len(),
    ensures
        forall|k: int|
            0 <= k < recent(history, n, room).len() ==> history.contains(
                #[trigger] recent(history, n, room)[k],
            ),
    decreases n,
{
    if n > 0 && room > 0 {
        if is_summary(history[n - 1].id@) {
            lemma_recent_from(history, n - 1, room);
            assert(recent(history, n, room) == recent(history, n - 1, room));
        } else {
            lemma_recent_from(history, n - 1, (room - 1) as nat);
            let r = recent(history, n, room);
            let fewer = recent(history, n - 1, (room - 1) as nat);
            assert forall|k: int| 0 <= k < r.len() implies history.contains(#[trigger] r[k]) by {
                if k < fewer.len() {
                    assert(r[k] == fewer[k]);
                    assert(history.contains(fewer[k]));
                } else {
                    assert(r[k] == history[n - 1]);
                }
            }
        }
    }
}

proof fn lemma_within_budget_from(messages: Seq<Message>, summary: bool, budget: nat)
    ensures
        forall|k: int|
            0 <= k < within_budget(messages, summary, budget).len() ==> messages.contains(
                #[trigger] within_budget(messages, summary, budget)[k],
            ),
    decreases messages.len(),
{
    if messages.len() > 1 && content_bytes(messages) > budget {
        let at = if summary && messages.len() > 2 {
            1int
        } else {
            0int
        };
        let fewer = messages.remove(at);
        lemma_within_budget_from(fewer, summary, budget);
        let kept = within_budget(fewer, summary, budget);
        assert forall|k: int| 0 <= k < kept.len() implies messages.contains(#[trigger] kept[k]) by {
            assert(fewer.contains(kept[k]));
            let j = choose|j: int| 0 <= j < fewer.len() && fewer[j] == kept[k];
            if j < at {
                assert(messages[j] == kept[k]);
            } else {
                assert(messages[j + 1] == kept[k]);
            }
        }
    }
}

/// An id that no saved message has is on none of the messages sent.
proof fn lemma_sent_ids(
    history: Seq<Message>,
    attachments: Seq<Attachment>,
    max_chars: nat,
    id: Seq<char>,
)
    requires
        !ids_of(history).contains(id),
    ensures
        !ids_of(sent_messages(history, attachments, max_chars)).contains(id),
{
    let sent = sent_messages(history, attachments, max_chars);
    lemma_within_budget_from(
        window(history),
        has_summary(history),
        history_room(max_chars, attachments),
    );
    lemma_recent_from(history, history.len() as int, (HISTORY_TURNS - 1) as nat);
    lemma_recent_from(history, history.len() as int, HISTORY_TURNS as nat);
    assert forall|k: int| 0 <= k < sent.len() implies (#[trigger] ids_of(sent)[k]) != id by {
        assert(window(history).contains(sent[k]));
        let j = choose|j: int| 0 <= j < window(history).len() && window(history)[j] == sent[k];
        assert(history.contains(window(history)[j])) by {
            if has_summary(history) {
                if j == 0 {
                    assert(window(history)[0] == history[0]);
                } else {
                    assert(window(history)[j] == recent(
                        history,
                        history.len() as int,
                        (HISTORY_TURNS - 1) as nat,
                    )[j - 1]);
                }
            }
        }
        let i = choose|i: int| 0 <= i < history.len() && history[i] == sent[k];
        assert(ids_of(history)[i] == history[i].id@);
    }
}

// ---- whose words they are -------------------------------------------------------

/// The excerpts go behind what a turn says.
proof fn lemma_excerpts_follow(
    p: Placement,
    ids: Seq<Seq<char>>,
    history: Seq<Message>,
    attachments: Seq<Attachment>,
)
    requires
        ids.len() == p.turns.len() == p.used.len(),
        forall|i: int| 0 <= i < p.used.len() ==> #[trigger] p.used[i] <= ATTACH_CHARS_PER_TURN,
    ensures
        forall|i: int|
            0 <= i < p.turns.len() ==> (#[trigger] p.turns[i]).content.is_prefix_of(
                with_excerpts(p, ids, history, attachments).turns[i].content,
            ),
    decreases attachments.len(),
{
    if attachments.len() > 0 {
        let rest = attachments.drop_last();
        lemma_excerpts_follow(p, ids, history, rest);
        lemma_with_excerpts_shape(p, ids, history, rest);
        let q = with_excerpts(p, ids, history, rest);
        let r = with_excerpts(p, ids, history, attachments);
        lemma_turn_for_in_range(q.turns, ids, history, attachments.last());
        assert forall|i: int| 0 <= i < p.turns.len() implies (
        #[trigger] p.turns[i]).content.is_prefix_of(r.turns[i].content) by {
            let said = p.turns[i].content;
            assert(said.is_prefix_of(q.turns[i].content));
            assert(q.turns[i].content.is_prefix_of(r.turns[i].content));
            assert(said =~= r.turns[i].content.subrange(0, said.len() as int));
        }
    }
}

/// Every message sent keeps its speaker: the turn at its place is the
/// assistant's exactly where the saved message is, and the user's otherwise.
/// The one turn that may follow them holds the excerpts of files where the
/// user has not spoken.
pub proof fn law_every_message_keeps_its_speaker(
    history: Seq<Message>,
    attachments: Seq<Attachment>,
    max_chars: nat,
    legacy: bool,
)
    ensures
        ({
            let sent = sent_messages(history, attachments, max_chars);
            let turns = request_turns(history, attachments, max_chars, legacy);
            &&& sent.len() <= turns.len() <= sent.len() + 1
            &&& forall|i: int|
                0 <= i < sent.len() ==> (#[trigger] turns[i]).role == (if sent[i].role@
                    == "assistant"@ {
                    "assistant"@
                } else {
                    "user"@
                })
            &&& turns.len() > sent.len() ==> legacy && turns.last().role == "user"@ && forall|
                i: int,
            |
                0 <= i < sent.len() ==> (#[trigger] sent[i]).role@ == "assistant"@
        }),
{
    let sent = sent_messages(history, attachments, max_chars);
    let plain = turns_of(sent);
    lemma_with_excerpts_shape(unused(plain), ids_of(sent), history, attachments);
    lemma_last_user(plain, plain.len() as int);
    lemma_assistant_is_not_user();
    if legacy && last_user(plain, plain.len() as int) is None {
        lemma_no_last_user(plain, plain.len() as int);
        assert forall|i: int| 0 <= i < sent.len() implies (#[trigger] sent[i]).role@
            == "assistant"@ by {
            assert(plain[i].role != "user"@);
        }
    }
}

proof fn lemma_assistant_is_not_user()
    ensures
        "assistant"@ != "user"@,
        "assistant"@ != "tool"@,
        "tool"@ != "user"@,
{
    reveal_strlit("assistant");
    reveal_strlit("user");
    reveal_strlit("tool");
    assert("assistant"@.len() != "user"@.len());
    assert("assistant"@.len() != "tool"@.len());
    assert("tool"@[0] != "user"@[0]);
}

/// Where no user turn is found there is none.
pub proof fn lemma_no_last_user(turns: Seq<Turn>, n: int)
    requires
        0 <= n <= turns.len(),
    ensures
        last_user(turns, n) is None ==> forall|i: int|
            0 <= i < n ==> (#[trigger] turns[i]).role != "user"@,
        last_user(turns, n) matches Some(k) ==> forall|i: int|
            k < i < n ==> (#[trigger] turns[i]).role != "user"@,
    decreases n,
{
    if n > 0 && turns[n - 1].role != "user"@ {
        lemma_no_last_user(turns, n - 1);
    }
}

/// Every message sent says what it said: the user's words as they are saved, a
/// tool's result under its mark, and of a reply its prose. Files only ever add
/// to that, at its end; without files nothing is added.
pub proof fn law_every_message_keeps_its_words(
    history: Seq<Message>,
    attachments: Seq<Attachment>,
    max_chars: nat,
    legacy: bool,
    i: int,
)
    requires
        0 <= i < sent_messages(history, attachments, max_chars).len(),
    ensures
        ({
            let m = sent_messages(history, attachments, max_chars)[i];
            let turns = request_turns(history, attachments, max_chars, legacy);
            let turn = turns[i];
            &&& turn.images.len() == 0
            &&& m.role@ == "user"@ || m.role@ == "system"@ ==> m.content@.is_prefix_of(turn.content)
            &&& m.role@ == "tool"@ ==> ("[tool result]\n"@ + m.content@).is_prefix_of(turn.content)
            &&& m.role@ == "assistant"@ && m.prose@.len() > 0 ==> m.prose@.is_prefix_of(
                turn.content,
            )
            &&& attachments.len() == 0 ==> {
                &&& turns.len() == sent_messages(history, attachments, max_chars).len()
                &&& m.role@ == "user"@ ==> turn.content == m.content@
                &&& m.role@ == "tool"@ ==> turn.content == "[tool result]\n"@ + m.content@
                &&& m.role@ == "assistant"@ && m.prose@.len() > 0 ==> turn.content == m.prose@
            }
        }),
{
    let sent = sent_messages(history, attachments, max_chars);
    let plain = turns_of(sent);
    let turns = request_turns(history, attachments, max_chars, legacy);
    lemma_assistant_is_not_user();
    assert("system"@ != "assistant"@ && "system"@ != "tool"@) by {
        reveal_strlit("system");
        reveal_strlit("assistant");
        reveal_strlit("tool");
        assert("system"@.len() != "assistant"@.len());
        assert("system"@.len() != "tool"@.len());
    }
    lemma_excerpts_follow(unused(plain), ids_of(sent), history, attachments);
    lemma_with_excerpts_shape(unused(plain), ids_of(sent), history, attachments);
    lemma_last_user(plain, plain.len() as int);
    assert(plain[i] == turn_of(sent[i]));
    assert(plain[i].content.is_prefix_of(turns[i].content)) by {
        assert(unused(plain).turns[i] == plain[i]);
        assert(plain[i].content =~= plain[i].content.subrange(
            0,
            plain[i].content.len() as int,
        ));
        if legacy {
            let block = one_block(attachments).0;
            assert(plain[i].content =~= (plain[i].content + block).subrange(
                0,
                plain[i].content.len() as int,
            ));
        }
    }
}

// ---- which messages are sent -------------------------------------------------------

/// The room for messages: the budget where no files take their share, never
/// below 2,000 bytes; what the excerpts take of it is their bytes, 20,000 at
/// most.
pub proof fn law_files_take_their_share_of_the_room(
    max_chars: nat,
    attachments: Seq<Attachment>,
    a: Attachment,
)
    ensures
        excerpt_bytes(Seq::empty()) == 0,
        excerpt_bytes(attachments.push(a)) == excerpt_bytes(attachments) + encode_utf8(
            a.text_excerpt@,
        ).len(),
        history_room(max_chars, attachments) >= 2_000,
        max_chars >= 22_000 && excerpt_bytes(attachments) <= 20_000 ==> history_room(
            max_chars,
            attachments,
        ) + excerpt_bytes(attachments) == max_chars,
        max_chars >= 22_000 && excerpt_bytes(attachments) >= 20_000 ==> history_room(
            max_chars,
            attachments,
        ) + 20_000 == max_chars,
        max_chars < 22_000 ==> history_room(max_chars, attachments) <= num::greater(
            max_chars as int,
            2_000,
        ),
        max_chars < 22_000 && excerpt_bytes(attachments) <= 20_000 && excerpt_bytes(attachments)
            + 2_000 <= max_chars ==> history_room(max_chars, attachments) + excerpt_bytes(
            attachments,
        ) == max_chars,
{
    assert(attachments.push(a).drop_last() =~= attachments);
    text::lemma_byte_len(a.text_excerpt@);
}

/// The bytes of messages are those of their contents in UTF-8, together.
pub proof fn law_bytes_of_messages_add_up(messages: Seq<Message>, m: Message)
    ensures
        content_bytes(Seq::empty()) == 0,
        content_bytes(messages.push(m)) == content_bytes(messages) + encode_utf8(m.content@).len(),
{
    assert(messages.push(m).drop_last() =~= messages);
    text::lemma_byte_len(m.content@);
}

proof fn lemma_recent_plain(history: Seq<Message>, n: int, room: nat, lo: int)
    requires
        0 <= lo <= n <= history.len(),
        lo == 0 || (lo == 1 && is_summary(history[0].id@)),
        forall|i: int| lo <= i < n ==> !is_summary((#[trigger] history[i]).id@),
    ensures
        recent(history, n, room) == history.subrange(num::greater(lo, n - room), n),
    decreases n,
{
    if n > lo && room > 0 {
        lemma_recent_plain(history, n - 1, (room - 1) as nat, lo);
        assert(history.subrange(num::greater(lo, n - room), n - 1).push(history[n - 1])
            =~= history.subrange(num::greater(lo, n - room), n));
    } else {
        if n == 1 && lo == 1 && room > 0 {
            assert(recent(history, 0, room) =~= Seq::empty());
        }
        assert(history.subrange(n, n) =~= Seq::empty());
    }
}

proof fn lemma_dropped_did_not_fit(messages: Seq<Message>, summary: bool, budget: nat)
    ensures
        ({
            let kept = within_budget(messages, summary, budget);
            let n = messages.len() - kept.len();
            kept.len() < messages.len() ==> content_bytes(
                if summary && messages.len() > 1 && n < messages.len() {
                    if kept.len() > 1 {
                        seq![messages[0]] + messages.skip(n)
                    } else {
                        seq![messages[0]] + messages.skip(messages.len() - 1)
                    }
                } else {
                    messages.skip(n - 1)
                },
            ) > budget
        }),
    decreases messages.len(),
{
    lemma_within_budget(messages, summary, budget);
    if messages.len() > 1 && content_bytes(messages) > budget {
        let at = if summary && messages.len() > 2 {
            1int
        } else {
            0int
        };
        let fewer = messages.remove(at);
        lemma_dropped_did_not_fit(fewer, summary, budget);
        lemma_within_budget(fewer, summary, budget);
        let kept = within_budget(fewer, summary, budget);
        let n = messages.len() - kept.len();
        if !summary {
            if kept.len() < fewer.len() {
                assert(fewer.skip(n - 2) =~= messages.skip(n - 1));
            } else {
                assert(messages.skip(0) =~= messages);
            }
        } else if messages.len() > 2 {
            if kept.len() < fewer.len() {
                if kept.len() > 1 {
                    assert(seq![fewer[0]] + fewer.skip(n - 1) =~= seq![messages[0]]
                        + messages.skip(n));
                } else {
                    assert(seq![fewer[0]] + fewer.skip(fewer.len() - 1) =~= seq![messages[0]]
                        + messages.skip(messages.len() - 1));
                }
            } else {
                assert(seq![messages[0]] + messages.skip(1) =~= messages);
            }
        } else {
            assert(seq![messages[0]] + messages.skip(1) =~= messages);
        }
    }
}

/// The newest messages are sent, as many as fit: without compacted history they
/// are the end of the history, no more than 200, and one more would not fit the
/// room.
pub proof fn law_as_many_messages_as_fit_are_sent(
    history: Seq<Message>,
    attachments: Seq<Attachment>,
    max_chars: nat,
)
    requires
        forall|i: int| 0 <= i < history.len() ==> !is_summary((#[trigger] history[i]).id@),
    ensures
        ({
            let sent = sent_messages(history, attachments, max_chars);
            let older = history.len() - sent.len();
            &&& 0 <= older
            &&& sent == history.skip(older)
            &&& sent.len() <= 200
            &&& older > 0 && sent.len() < 200 ==> content_bytes(history.skip(older - 1))
                > history_room(max_chars, attachments)
        }),
{
    let room = history_room(max_chars, attachments);
    let n = history.len() as int;
    let shown = window(history);
    let sent = sent_messages(history, attachments, max_chars);
    lemma_recent_plain(history, n, HISTORY_TURNS as nat, 0);
    lemma_within_budget(shown, false, room);
    lemma_dropped_did_not_fit(shown, false, room);
    assert(!has_summary(history));
    assert(sent =~= history.skip(n - sent.len()));
    if sent.len() < shown.len() {
        assert(shown.skip(shown.len() - sent.len() - 1) =~= history.skip(n - sent.len() - 1));
    }
}

/// With compacted history its summary comes first and the newest messages
/// follow, as many as fit beside it, no more than 199; where not even one fits
/// beside it the newest message is sent alone.
pub proof fn law_the_summary_and_as_many_messages_as_fit_are_sent(
    history: Seq<Message>,
    attachments: Seq<Attachment>,
    max_chars: nat,
)
    requires
        history.len() > 1,
        is_summary(history[0].id@),
        forall|i: int| 1 <= i < history.len() ==> !is_summary((#[trigger] history[i]).id@),
    ensures
        ({
            let sent = sent_messages(history, attachments, max_chars);
            let older = history.len() - sent.len();
            let room = history_room(max_chars, attachments);
            if sent.len() > 1 {
                &&& sent == seq![history[0]] + history.skip(older + 1)
                &&& sent.len() <= 200
                &&& older > 0 && sent.len() < 200 ==> content_bytes(
                    seq![history[0]] + history.skip(older),
                ) > room
            } else {
                &&& sent == seq![history.last()]
                &&& content_bytes(seq![history[0], history.last()]) > room
            }
        }),
{
    let room = history_room(max_chars, attachments);
    let n = history.len() as int;
    let shown = window(history);
    let sent = sent_messages(history, attachments, max_chars);
    lemma_recent_plain(history, n, (HISTORY_TURNS - 1) as nat, 1);
    lemma_within_budget(shown, true, room);
    lemma_dropped_did_not_fit(shown, true, room);
    assert(has_summary(history));
    assert(shown.len() > 1);
    assert(shown[0] == history[0]);
    let newest = history.subrange(num::greater(1, n - 199), n);
    assert(shown =~= seq![history[0]] + newest);
    if sent.len() > 1 {
        assert(sent =~= seq![history[0]] + history.skip(n - sent.len() + 1));
        if sent.len() < shown.len() {
            assert(seq![shown[0]] + shown.skip(shown.len() - sent.len()) =~= seq![history[0]]
                + history.skip(n - sent.len()));
        }
    } else {
        assert(sent.len() == 1);
        assert(sent =~= seq![history.last()]);
        assert(seq![shown[0]] + shown.skip(shown.len() - 1) =~= seq![history[0], history.last()]);
    }
}

// ---- where files go ------------------------------------------------------------------

proof fn lemma_owner_is_first(history: Seq<Message>, a: Attachment, from: int)
    requires
        0 <= from <= history.len(),
    ensures
        match owner_from(history, a, from) {
            Some(i) => from <= i < history.len() && may_own(history[i], a) && forall|j: int|
                from <= j < i ==> !may_own(#[trigger] history[j], a),
            None => forall|j: int|
                from <= j < history.len() ==> !may_own(#[trigger] history[j], a),
        },
    decreases history.len() - from,
{
    if from < history.len() && !may_own(history[from], a) {
        lemma_owner_is_first(history, a, from + 1);
    }
}

/// A file goes with the first user message saved since it was uploaded: that
/// message is the user's, it is still pending or was saved no earlier than the
/// upload, and every user message before it was saved earlier. A file that goes
/// with none was uploaded after all of them.
pub proof fn law_a_file_goes_with_the_first_message_since(history: Seq<Message>, a: Attachment)
    ensures
        ({
            let owner = owner_from(history, a, 0);
            let earlier = |m: Message|
                match (boundary::rfc3339_value(m.created_at@), boundary::rfc3339_value(
                    a.created_at@,
                )) {
                    (Some(s), Some(u)) => s.0 < u.0 || (s.0 == u.0 && s.1 < u.1),
                    _ => true,
                };
            let later = |m: Message|
                match (boundary::rfc3339_value(m.created_at@), boundary::rfc3339_value(
                    a.created_at@,
                )) {
                    (Some(s), Some(u)) => s.0 > u.0 || (s.0 == u.0 && s.1 >= u.1),
                    _ => true,
                };
            &&& owner matches Some(i) ==> {
                &&& 0 <= i < history.len()
                &&& history[i].role@ == "user"@
                &&& history[i].id@ == "pending"@ || history[i].created_at@.len() == 0 || later(
                    history[i],
                )
            }
            &&& forall|j: int|
                0 <= j < (match owner {
                    Some(i) => i,
                    None => history.len() as int,
                }) && (#[trigger] history[j]).role@ == "user"@ ==> history[j].id@ != "pending"@
                    && history[j].created_at@.len() > 0 && earlier(history[j])
        }),
{
    lemma_owner_is_first(history, a, 0);
}

/// No turn has taken more of the excerpts than there is of them.
proof fn lemma_used_of_excerpts(
    turns: Seq<Turn>,
    ids: Seq<Seq<char>>,
    history: Seq<Message>,
    attachments: Seq<Attachment>,
)
    requires
        ids.len() == turns.len(),
    ensures
        ({
            let p = with_excerpts(unused(turns), ids, history, attachments);
            &&& p.used.len() == turns.len()
            &&& p.turns.len() == turns.len()
            &&& forall|i: int|
                0 <= i < turns.len() ==> #[trigger] p.used[i] <= excerpt_bytes(attachments)
        }),
    decreases attachments.len(),
{
    if attachments.len() > 0 {
        let rest = attachments.drop_last();
        lemma_used_of_excerpts(turns, ids, history, rest);
        let q = with_excerpts(unused(turns), ids, history, rest);
        let a = attachments.last();
        lemma_turn_for_in_range(q.turns, ids, history, a);
        if let Some(i) = turn_for(q.turns, ids, history, a) {
            let cap = (ATTACH_CHARS_PER_TURN - q.used[i]) as nat;
            text::lemma_prefix_within(a.text_excerpt@, cap);
            lemma_prefix_bytes(a.text_excerpt@, cap);
        }
    }
}

proof fn lemma_prefix_bytes(s: Seq<char>, cap: nat)
    ensures
        text::byte_len(text::prefix_within(s, cap)) <= text::byte_len(s),
{
    text::lemma_prefix_within(s, cap);
    let k = text::chars_within(s, cap) as int;
    assert(s =~= s.take(k) + s.skip(k));
    text::lemma_byte_len_concat(s.take(k), s.skip(k));
}

/// A file's excerpt is put on the message it was sent with, whole where there
/// is room for it and nowhere else: one file more, whose message is sent, adds
/// its name and its excerpt to that message's turn and changes no other turn.
pub proof fn law_an_excerpt_is_put_on_its_own_message(
    history: Seq<Message>,
    attachments: Seq<Attachment>,
    a: Attachment,
    max_chars: nat,
    owner: int,
    i: int,
)
    requires
        sent_messages(history, attachments.push(a), max_chars) == sent_messages(
            history,
            attachments,
            max_chars,
        ),
        a.text_excerpt@.len() > 0,
        excerpt_bytes(attachments.push(a)) <= 20_000,
        owner_from(history, a, 0) == Some(owner),
        0 <= i < sent_messages(history, attachments, max_chars).len(),
        sent_messages(history, attachments, max_chars)[i].id@ == history[owner].id@,
        ids_of(sent_messages(history, attachments, max_chars)).no_duplicates(),
    ensures
        ({
            let before = request_turns(history, attachments, max_chars, false);
            let after = request_turns(history, attachments.push(a), max_chars, false);
            &&& after.len() == before.len()
            &&& after[i].content == before[i].content + ("\n\n[Attached file: "@ + a.filename@
                + "]\n"@ + a.text_excerpt@)
            &&& forall|j: int| 0 <= j < before.len() && j != i ==> #[trigger] after[j] == before[j]
        }),
{
    let sent = sent_messages(history, attachments, max_chars);
    let ids = ids_of(sent);
    let p = with_excerpts(unused(turns_of(sent)), ids, history, attachments);
    lemma_used_of_excerpts(turns_of(sent), ids, history, attachments);
    assert(attachments.push(a).drop_last() =~= attachments);
    assert(attachments.push(a).last() == a);
    lemma_position_from(ids, history[owner].id@, 0);
    assert(ids[i] == history[owner].id@);
    assert(position_from(ids, history[owner].id@, 0) == Some(i));
    text::lemma_byte_len_bounds(a.text_excerpt@);
    let cap = (ATTACH_CHARS_PER_TURN - p.used[i]) as nat;
    assert(p.used[i] <= excerpt_bytes(attachments));
    text::lemma_prefix_within(a.text_excerpt@, cap);
}

/// A file whose message is no longer sent adds nothing.
pub proof fn law_a_file_without_its_message_adds_nothing(
    history: Seq<Message>,
    attachments: Seq<Attachment>,
    a: Attachment,
    max_chars: nat,
    owner: int,
)
    requires
        sent_messages(history, attachments.push(a), max_chars) == sent_messages(
            history,
            attachments,
            max_chars,
        ),
        owner_from(history, a, 0) == Some(owner),
        !ids_of(sent_messages(history, attachments, max_chars)).contains(history[owner].id@),
    ensures
        request_turns(history, attachments.push(a), max_chars, false) == request_turns(
            history,
            attachments,
            max_chars,
            false,
        ),
{
    let ids = ids_of(sent_messages(history, attachments, max_chars));
    assert(attachments.push(a).drop_last() =~= attachments);
    lemma_position_from(ids, history[owner].id@, 0);
    if let Some(k) = position_from(ids, history[owner].id@, 0) {
        assert(ids[k] == history[owner].id@);
    }
}

/// A file that goes with no message yet is put on the latest user turn, whole
/// where there is room for it.
pub proof fn law_a_new_file_goes_on_the_latest_question(
    history: Seq<Message>,
    attachments: Seq<Attachment>,
    a: Attachment,
    max_chars: nat,
    i: int,
)
    requires
        sent_messages(history, attachments.push(a), max_chars) == sent_messages(
            history,
            attachments,
            max_chars,
        ),
        a.text_excerpt@.len() > 0,
        excerpt_bytes(attachments.push(a)) <= 20_000,
        owner_from(history, a, 0) is None,
        0 <= i < sent_messages(history, attachments, max_chars).len(),
        sent_messages(history, attachments, max_chars)[i].role@ == "user"@,
        forall|j: int|
            i < j < sent_messages(history, attachments, max_chars).len() ==> (
            #[trigger] sent_messages(history, attachments, max_chars)[j]).role@ == "assistant"@,
    ensures
        ({
            let before = request_turns(history, attachments, max_chars, false);
            let after = request_turns(history, attachments.push(a), max_chars, false);
            &&& after.len() == before.len()
            &&& after[i].content == before[i].content + ("\n\n[Attached file: "@ + a.filename@
                + "]\n"@ + a.text_excerpt@)
            &&& forall|j: int| 0 <= j < before.len() && j != i ==> #[trigger] after[j] == before[j]
        }),
{
    let sent = sent_messages(history, attachments, max_chars);
    let ids = ids_of(sent);
    let p = with_excerpts(unused(turns_of(sent)), ids, history, attachments);
    lemma_used_of_excerpts(turns_of(sent), ids, history, attachments);
    lemma_with_excerpts_shape(unused(turns_of(sent)), ids, history, attachments);
    lemma_assistant_is_not_user();
    assert(attachments.push(a).drop_last() =~= attachments);
    assert(attachments.push(a).last() == a);
    lemma_last_user(p.turns, p.turns.len() as int);
    lemma_no_last_user(p.turns, p.turns.len() as int);
    assert(p.turns[i].role == turns_of(sent)[i].role);
    match last_user(p.turns, p.turns.len() as int) {
        None => {
            assert(p.turns[i].role != "user"@);
        },
        Some(k) => {
            if k > i {
                assert(p.turns[k].role == turns_of(sent)[k].role);
                assert(sent[k].role@ == "assistant"@);
            } else if k < i {
                assert(p.turns[i].role != "user"@);
            }
        },
    }
    text::lemma_byte_len_bounds(a.text_excerpt@);
    let cap = (ATTACH_CHARS_PER_TURN - p.used[i]) as nat;
    assert(p.used[i] <= excerpt_bytes(attachments));
    text::lemma_prefix_within(a.text_excerpt@, cap);
}

/// In the older order all files go on the latest user turn, one after the
/// other, each under its name and whole where there is room; no other turn
/// changes.
pub proof fn law_in_the_older_order_files_go_on_the_latest_question(
    history: Seq<Message>,
    attachments: Seq<Attachment>,
    a: Attachment,
    max_chars: nat,
    i: int,
)
    requires
        0 <= i < sent_messages(history, attachments, max_chars).len(),
        sent_messages(history, attachments, max_chars)[i].role@ == "user"@,
        forall|j: int|
            i < j < sent_messages(history, attachments, max_chars).len() ==> (
            #[trigger] sent_messages(history, attachments, max_chars)[j]).role@ == "assistant"@,
    ensures
        ({
            let sent = sent_messages(history, attachments, max_chars);
            let turns = request_turns(history, attachments, max_chars, true);
            &&& turns.len() == sent.len()
            &&& turns[i].content == sent[i].content@ + one_block(attachments).0
            &&& forall|j: int|
                0 <= j < sent.len() && j != i ==> #[trigger] turns[j] == turns_of(sent)[j]
        }),
        one_block(Seq::empty()).0 == Seq::<char>::empty(),
        excerpt_bytes(attachments) < 20_000 && excerpt_bytes(attachments.push(a)) <= 20_000
            ==> one_block(attachments.push(a)).0 == one_block(attachments).0 + (
        "\n\n[Attached file: "@ + a.filename@ + "]\n"@ + a.text_excerpt@),
        excerpt_bytes(attachments) <= 20_000 ==> one_block(attachments).1 + excerpt_bytes(
            attachments,
        ) == 20_000,
{
    let sent = sent_messages(history, attachments, max_chars);
    let plain = turns_of(sent);
    lemma_assistant_is_not_user();
    lemma_last_user(plain, plain.len() as int);
    lemma_no_last_user(plain, plain.len() as int);
    assert(plain[i].role == "user"@);
    match last_user(plain, plain.len() as int) {
        None => {
            assert(plain[i].role != "user"@);
        },
        Some(k) => {
            if k > i {
                assert(sent[k].role@ == "assistant"@);
            } else if k < i {
                assert(plain[i].role != "user"@);
            }
        },
    }
    let block = one_block(attachments).0;
    if block.len() == 0 {
        assert(sent[i].content@ + block =~= sent[i].content@);
    }
    assert(attachments.push(a).drop_last() =~= attachments);
    lemma_block_left(attachments);
    text::lemma_prefix_within(a.text_excerpt@, one_block(attachments).1);
}

proof fn lemma_block_left(attachments: Seq<Attachment>)
    ensures
        one_block(attachments).1 <= 20_000,
        excerpt_bytes(attachments) <= 20_000 ==> one_block(attachments).1 + excerpt_bytes(
            attachments,
        ) == 20_000,
    decreases attachments.len(),
{
    if attachments.len() > 0 {
        let rest = attachments.drop_last();
        lemma_block_left(rest);
        text::lemma_prefix_within(attachments.last().text_excerpt@, one_block(rest).1);
    }
}

/// The length that a file's name and the marks around it add to a turn.
pub open spec fn name_bytes(attachments: Seq<Attachment>) -> nat
    decreases attachments.len(),
{
    if attachments.len() == 0 {
        0
    } else {
        name_bytes(attachments.drop_last()) + encode_utf8(attachments.last().filename@).len() + 20
    }
}

proof fn lemma_note_bytes(a: Attachment, excerpt: Seq<char>)
    ensures
        text::byte_len(file_note(a, excerpt)) == encode_utf8(a.filename@).len() + 20
            + text::byte_len(excerpt),
{
    let open = "\n\n[Attached file: "@;
    let close = "]\n"@;
    text::lemma_byte_len_concat(open + a.filename@ + close, excerpt);
    text::lemma_byte_len_concat(open + a.filename@, close);
    text::lemma_byte_len_concat(open, a.filename@);
    text::lemma_byte_len(a.filename@);
    reveal_strlit("\n\n[Attached file: ");
    reveal_strlit("]\n");
    reveal_with_fuel(text::byte_len, 20);
    assert(text::byte_len(open) == 18);
    assert(text::byte_len(close) == 2);
}

/// However many files there are, no turn grows by more than 20,000 bytes of
/// their text beside their names.
pub proof fn law_no_turn_takes_more_than_its_share(
    turns: Seq<Turn>,
    ids: Seq<Seq<char>>,
    history: Seq<Message>,
    attachments: Seq<Attachment>,
    i: int,
)
    requires
        ids.len() == turns.len(),
        0 <= i < turns.len(),
    ensures
        ({
            let p = with_excerpts(unused(turns), ids, history, attachments);
            &&& text::byte_len(p.turns[i].content) <= text::byte_len(turns[i].content) + 20_000
                + name_bytes(attachments)
        }),
{
    lemma_share_of_turn(turns, ids, history, attachments, i);
}

proof fn lemma_share_of_turn(
    turns: Seq<Turn>,
    ids: Seq<Seq<char>>,
    history: Seq<Message>,
    attachments: Seq<Attachment>,
    i: int,
)
    requires
        ids.len() == turns.len(),
        0 <= i < turns.len(),
    ensures
        ({
            let p = with_excerpts(unused(turns), ids, history, attachments);
            &&& text::byte_len(p.turns[i].content) <= text::byte_len(turns[i].content) + p.used[i]
                + name_bytes(attachments)
            &&& p.used[i] <= 20_000
        }),
    decreases attachments.len(),
{
    if attachments.len() > 0 {
        let rest = attachments.drop_last();
        let a = attachments.last();
        lemma_share_of_turn(turns, ids, history, rest, i);
        lemma_used_of_excerpts(turns, ids, history, rest);
        let q = with_excerpts(unused(turns), ids, history, rest);
        lemma_turn_for_in_range(q.turns, ids, history, a);
        if let Some(k) = turn_for(q.turns, ids, history, a) {
            if k == i && q.used[i] < ATTACH_CHARS_PER_TURN && a.text_excerpt@.len() > 0 {
                let cap = (ATTACH_CHARS_PER_TURN - q.used[i]) as nat;
                let kept = text::prefix_within(a.text_excerpt@, cap);
                text::lemma_prefix_within(a.text_excerpt@, cap);
                text::lemma_byte_len_concat(q.turns[i].content, file_note(a, kept));
                lemma_note_bytes(a, kept);
            }
        }
    }
}

} // verus!
