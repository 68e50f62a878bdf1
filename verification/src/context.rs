//! The prefix that every request of a conversation starts from: the system
//! prompt, the history within the window's budget, the changing context and
//! the images.
use vstd::prelude::*;
use vstd::utf8::*;

use crate::history;
use crate::num;
use crate::prompt;
use crate::text;
use crate::types;
use crate::types::{Attachment, ChatTurn, Message, Turn};

verus! {

/// What a request starts from.
#[derive(Debug, PartialEq, Eq)]
pub struct RequestContext {
    pub sys_prompt: String,
    pub sys_mode: String,
    pub model_name: String,
    /// The history with its attachment excerpts, images applied.
    pub turns: Vec<ChatTurn>,
    pub images_skipped: usize,
    /// The id, name and root of the linked project.
    pub chat_workspace: Option<(String, String, String)>,
    pub reasoning_default: bool,
    pub search_default: bool,
    /// Characters of saved history, its summary with it, before any trimming.
    pub history_chars: usize,
    /// Characters the request gives history: the window minus the system
    /// prompt, the reply, a margin and attachment excerpts.
    pub history_room_chars: usize,
}

/// Saved history in hundredths of the room a request gives it, 999 at most.
pub open spec fn usage_pct(chars: nat, room: nat) -> int {
    num::lesser(num::lesser(chars as int * 100, usize::MAX as int) / num::greater(room as int, 1), 999)
}

impl RequestContext {
    /// How full saved history is against the room a request gives it.
    pub fn history_usage_pct(&self) -> (r: u32)
        ensures
            r == usage_pct(self.history_chars as nat, self.history_room_chars as nat),
            r <= 999,
    {
        let chars: usize = if self.history_chars > usize::MAX / 100 {
            usize::MAX
        } else {
            self.history_chars * 100
        };
        let room: usize = if self.history_room_chars < 1 { 1 } else { self.history_room_chars };
        let pct: usize = chars / room;
        if pct < 999 {
            pct as u32
        } else {
            999
        }
    }
}

/// Characters of history that a window of `n_ctx` tokens has room for beside a
/// system prompt: three to a token, with room for the reply and a margin.
pub open spec fn char_budget(n_ctx: nat, system_chars: nat) -> int {
    num::clamped(
        num::less(num::less(n_ctx as int, system_chars as int / 3), 1536) * 3,
        4_000,
        history::HISTORY_CHARS as int,
    )
}

/// The budget for a system prompt of any length.
fn budget_for(n_ctx: u32, system_chars: u128) -> (r: usize)
    ensures
        r == char_budget(n_ctx as nat, system_chars as nat),
{
    let system_tokens: u128 = system_chars / 3;
    let window: u128 = n_ctx as u128;
    let left: u128 = if window < system_tokens { 0 } else { window - system_tokens };
    let available: u128 = if left < 1536 { 0 } else { left - 1536 };
    let chars: u128 = available * 3;
    if chars < 4_000 {
        4_000
    } else if chars > history::HISTORY_CHARS as u128 {
        history::HISTORY_CHARS
    } else {
        chars as usize
    }
}

/// Bounded history in characters for a given context window: leave room for
/// the system prompt, the reply and a margin, then convert with a
/// conservative 3 chars a token. Never below a small floor so that the latest
/// turn always travels.
pub fn history_char_budget(n_ctx: u32, system_chars: usize) -> (r: usize)
    ensures
        r == char_budget(n_ctx as nat, system_chars as nat),
        4_000 <= r <= history::HISTORY_CHARS,
{
    budget_for(n_ctx, system_chars as u128)
}

/// A larger window never gives history less room, nor a longer system prompt
/// more.
pub proof fn law_budget_follows_the_window(small: nat, large: nat, short: nat, long: nat)
    requires
        small <= large,
        short <= long,
    ensures
        char_budget(small, long) <= char_budget(large, long),
        char_budget(large, long) <= char_budget(large, short),
{
}

// ---- images ---------------------------------------------------------------------

/// The attachment is an image.
pub open spec fn is_image(a: Attachment) -> bool {
    a.kind@ == "image"@
}

/// The positions of the images among the first `n` attachments.
pub open spec fn image_positions(attachments: Seq<Attachment>, n: int) -> Seq<int>
    decreases n,
{
    if n <= 0 {
        Seq::empty()
    } else if is_image(attachments[n - 1]) {
        image_positions(attachments, n - 1).push(n - 1)
    } else {
        image_positions(attachments, n - 1)
    }
}

/// The last four images.
pub open spec fn latest_images(attachments: Seq<Attachment>) -> Seq<int> {
    let all = image_positions(attachments, attachments.len() as int);
    all.skip(num::less(all.len() as int, 4))
}

/// The positions of a conversation's most recent images, four at most
/// (attachments are stored oldest first).
pub fn latest_images_of(attachments: &[Attachment]) -> (r: Vec<usize>)
    ensures
        r@.map_values(|i: usize| i as int) == latest_images(attachments@),
        forall|k: int| 0 <= k < r@.len() ==> #[trigger] r@[k] < attachments@.len(),
{
    let all = images_of(attachments);
    let from: usize = if all.len() < 4 { 0 } else { all.len() - 4 };
    let mut r: Vec<usize> = Vec::new();
    let mut i: usize = from;
    while i < all.len()
        invariant
            from <= i <= all@.len(),
            r@ == all@.subrange(from as int, i as int),
            forall|k: int| 0 <= k < all@.len() ==> #[trigger] all@[k] < attachments@.len(),
        decreases all@.len() - i,
    {
        r.push(all[i]);
        assert(r@ =~= all@.subrange(from as int, i + 1));
        i += 1;
    }
    assert(r@.map_values(|i: usize| i as int) =~= latest_images(attachments@));
    r
}

/// The positions of the images.
fn images_of(attachments: &[Attachment]) -> (r: Vec<usize>)
    ensures
        r@.map_values(|i: usize| i as int) == image_positions(
            attachments@,
            attachments@.len() as int,
        ),
        r@.len() <= attachments@.len(),
        forall|k: int| 0 <= k < r@.len() ==> #[trigger] r@[k] < attachments@.len(),
{
    let mut r: Vec<usize> = Vec::new();
    let mut i: usize = 0;
    assert(r@.map_values(|i: usize| i as int) =~= Seq::<int>::empty());
    while i < attachments.len()
        invariant
            i <= attachments@.len(),
            r@.len() <= i,
            r@.map_values(|i: usize| i as int) == image_positions(attachments@, i as int),
            forall|k: int| 0 <= k < r@.len() ==> #[trigger] r@[k] < attachments@.len(),
        decreases attachments@.len() - i,
    {
        if text::same(&attachments[i].kind, "image") {
            let ghost was = r@;
            r.push(i);
            assert(r@.map_values(|i: usize| i as int) =~= was.map_values(|i: usize| i as int).push(
                i as int,
            ));
        }
        i += 1;
    }
    r
}

/// `turn` with one image more.
pub open spec fn with_image(turn: Turn, url: Seq<char>) -> Turn {
    Turn { role: turn.role, content: turn.content, images: turn.images.push(url) }
}

/// The first `n` images, each on the message it was sent with.
pub open spec fn with_images(
    turns: Seq<Turn>,
    ids: Seq<Seq<char>>,
    messages: Seq<Message>,
    attachments: Seq<Attachment>,
    images: Seq<(usize, String)>,
    n: int,
) -> Seq<Turn>
    decreases n,
{
    if n <= 0 {
        turns
    } else {
        let before = with_images(turns, ids, messages, attachments, images, n - 1);
        let (at, url) = images[n - 1];
        match history::turn_for(before, ids, messages, attachments[at as int]) {
            Some(i) => before.update(i, with_image(before[i], url@)),
            None => before,
        }
    }
}

/// All images on the last user turn.
pub open spec fn with_images_last(turns: Seq<Turn>, urls: Seq<Seq<char>>) -> Seq<Turn> {
    match history::last_user(turns, turns.len() as int) {
        Some(i) => turns.update(
            i,
            Turn { role: turns[i].role, content: turns[i].content, images: urls },
        ),
        None => turns,
    }
}

// ---- the whole ---------------------------------------------------------------------

/// A request, as far as it is read from storage and the model's metadata.
#[derive(Debug, PartialEq, Eq)]
pub struct RequestParts {
    pub mode: String,
    pub reasoning_default: bool,
    pub search_default: bool,
    pub model_name: String,
    /// The model sees images, and they were asked for.
    pub images_wanted: bool,
    /// The history as saved, a pending message last.
    pub history: Vec<Message>,
    pub attachments: Vec<Attachment>,
    /// The listing of the linked project.
    pub snapshot: String,
    pub memory: String,
    pub chat_workspace: Option<(String, String, String)>,
    /// The prepared images, each with the position of its attachment.
    pub images: Vec<(usize, String)>,
    /// Images that could not be prepared.
    pub images_failed: usize,
    pub n_ctx: u32,
    pub legacy: bool,
}

impl RequestParts {
    /// The system prompt. Unless the earlier layout is asked for, the listing
    /// itself goes on the latest message and the memory with it.
    pub open spec fn system(self) -> Seq<char> {
        let listing = if self.legacy || self.snapshot@.len() == 0 {
            self.snapshot@
        } else {
            prompt::LISTING_IN_LATEST_MESSAGE@
        };
        let p = prompt::system_prompt(self.mode@, listing, self.model_name@);
        if self.legacy {
            p + self.memory@
        } else {
            p
        }
    }

    /// What goes on the latest message.
    pub open spec fn changing(self) -> Seq<char> {
        if self.legacy {
            Seq::empty()
        } else {
            prompt::changing_context(self.snapshot@, self.memory@)
        }
    }

    /// The budget for history.
    pub open spec fn budget(self) -> nat {
        char_budget(
            self.n_ctx as nat,
            text::byte_len(self.system()) + text::byte_len(self.changing()),
        ) as nat
    }

    /// The turns before images.
    pub open spec fn plain_turns(self) -> Seq<Turn> {
        history::with_block(
            history::request_turns(self.history@, self.attachments@, self.budget(), self.legacy),
            self.changing(),
        )
    }

    /// The ids of the messages sent.
    pub open spec fn sent_ids(self) -> Seq<Seq<char>> {
        history::ids_of(
            history::sent_messages(self.history@, self.attachments@, self.budget()),
        )
    }

    /// The turns sent.
    pub open spec fn request_turns(self) -> Seq<Turn> {
        if !self.images_wanted || self.images@.len() == 0 {
            self.plain_turns()
        } else if self.legacy {
            with_images_last(
                self.plain_turns(),
                self.images@.map_values(|p: (usize, String)| p.1@),
            )
        } else {
            with_images(
                self.plain_turns(),
                self.sent_ids(),
                self.history@,
                self.attachments@,
                self.images@,
                self.images@.len() as int,
            )
        }
    }

    /// The images that are not sent.
    pub open spec fn skipped(self) -> nat {
        if self.images_wanted {
            self.images_failed as nat
        } else {
            image_positions(self.attachments@, self.attachments@.len() as int).len()
        }
    }

    /// Every prepared image belongs to an attachment.
    pub open spec fn well_formed(self) -> bool {
        &&& forall|k: int|
            0 <= k < self.images@.len() ==> (#[trigger] self.images@[k]).0 < self.attachments@.len()
        &&& history::content_bytes(self.history@) <= usize::MAX
    }
}

/// The last user turn of a list of turns.
proof fn lemma_turn_for_turns(
    turns: Seq<Turn>,
    ids: Seq<Seq<char>>,
    messages: Seq<Message>,
    a: Attachment,
)
    requires
        ids.len() <= turns.len(),
    ensures
        history::turn_for(turns, ids, messages, a) matches Some(i) ==> 0 <= i < turns.len(),
{
    if let Some(i) = history::owner_from(messages, a, 0) {
        history::lemma_position_from(ids, messages[i].id@, 0);
    } else {
        history::lemma_last_user(turns, turns.len() as int);
    }
}

/// Puts the images on their messages.
fn place_images(turns: &mut Vec<ChatTurn>, ids: &[String], parts: &RequestParts)
    requires
        parts.well_formed(),
        ids@.len() <= old(turns)@.len(),
    ensures
        types::turns(final(turns)@) == with_images(
            types::turns(old(turns)@),
            types::texts(ids@),
            parts.history@,
            parts.attachments@,
            parts.images@,
            parts.images@.len() as int,
        ),
{
    let mut k: usize = 0;
    while k < parts.images.len()
        invariant
            k <= parts.images@.len(),
            parts.well_formed(),
            turns@.len() == old(turns)@.len(),
            ids@.len() <= turns@.len(),
            types::turns(turns@) == with_images(
                types::turns(old(turns)@),
                types::texts(ids@),
                parts.history@,
                parts.attachments@,
                parts.images@,
                k as int,
            ),
        decreases parts.images@.len() - k,
    {
        let at: usize = parts.images[k].0;
        let a = &parts.attachments[at];
        proof {
            lemma_turn_for_turns(types::turns(turns@), types::texts(ids@), parts.history@, *a);
        }
        if let Some(i) = history::attachment_turn(turns, ids, &parts.history, a) {
            let ghost was = turns@;
            let url = parts.images[k].1.clone();
            turns[i].images.push(url);
            proof {
                assert(turns@[i as int]@.images =~= was[i as int]@.images.push(url@));
                assert(types::turns(turns@) =~= types::turns(was).update(
                    i as int,
                    with_image(types::turns(was)[i as int], url@),
                ));
            }
        }
        k += 1;
    }
}

/// Puts all images on the last user turn.
fn place_images_last(turns: &mut Vec<ChatTurn>, parts: &RequestParts)
    ensures
        types::turns(final(turns)@) == with_images_last(
            types::turns(old(turns)@),
            parts.images@.map_values(|p: (usize, String)| p.1@),
        ),
{
    let mut urls: Vec<String> = Vec::new();
    let mut k: usize = 0;
    while k < parts.images.len()
        invariant
            k <= parts.images@.len(),
            urls@.len() == k,
            forall|j: int| 0 <= j < k ==> (#[trigger] urls@[j])@ == parts.images@[j].1@,
        decreases parts.images@.len() - k,
    {
        urls.push(parts.images[k].1.clone());
        k += 1;
    }
    proof {
        history::lemma_last_user(types::turns(turns@), turns@.len() as int);
        assert(types::texts(urls@) =~= parts.images@.map_values(|p: (usize, String)| p.1@));
    }
    if let Some(i) = history::latest_user_turn(turns) {
        let ghost was = turns@;
        let ghost shown = types::texts(urls@);
        turns[i].images = urls;
        assert(types::turns(turns@) =~= with_images_last(types::turns(was), shown));
    }
}

/// Assembles what a request of a saved conversation starts from.
pub fn assemble_request_context_with(parts: RequestParts) -> (c: RequestContext)
    requires
        parts.well_formed(),
    ensures
        c.sys_prompt@ == parts.system(),
        c.sys_mode@ == parts.mode@,
        c.model_name@ == parts.model_name@,
        types::turns(c.turns@) == parts.request_turns(),
        c.images_skipped == parts.skipped(),
        c.chat_workspace == parts.chat_workspace,
        c.reasoning_default == parts.reasoning_default,
        c.search_default == parts.search_default,
        c.history_chars == history::content_bytes(parts.history@),
        c.history_room_chars == history::history_room(parts.budget(), parts.attachments@),
{
    let listing: &str = if parts.legacy || parts.snapshot.as_str().is_empty() {
        parts.snapshot.as_str()
    } else {
        prompt::LISTING_IN_LATEST_MESSAGE
    };
    let mut sys_prompt = prompt::build_system_prompt(&parts.mode, listing, &parts.model_name);
    let changing = if parts.legacy {
        sys_prompt.append(&parts.memory);
        String::new()
    } else {
        prompt::changing_context_block(&parts.snapshot, &parts.memory)
    };
    let budget: usize = budget_for(
        parts.n_ctx,
        text::bytes_in(&sys_prompt) as u128 + text::bytes_in(&changing) as u128,
    );
    let history_chars: usize = history::content_bytes_of(&parts.history);
    let history_room_chars: usize = history::history_room_for(budget, &parts.attachments);
    let (mut turns, ids) = history::build_turns_with_owners(
        &parts.history,
        &parts.attachments,
        budget,
        parts.legacy,
    );
    proof {
        history::lemma_request_turns_len(
            parts.history@,
            parts.attachments@,
            parts.budget(),
            parts.legacy,
        );
        assert(types::texts(ids@).len() == ids@.len());
        assert(types::turns(turns@).len() == turns@.len());
    }
    let ghost before = types::turns(turns@);
    history::tap_append_attach(&mut turns, &changing);
    proof {
        history::lemma_last_user(before, before.len() as int);
        assert(types::turns(turns@).len() == turns@.len());
        assert(turns@.len() >= before.len());
    }
    let mut images_skipped: usize = parts.images_failed;
    if parts.images_wanted {
        if parts.images.len() > 0 {
            if parts.legacy {
                place_images_last(&mut turns, &parts);
            } else {
                place_images(&mut turns, &ids, &parts);
            }
        }
    } else {
        let all = images_of(&parts.attachments);
        assert(all@.map_values(|i: usize| i as int).len() == all@.len());
        images_skipped = all.len();
    }
    RequestContext {
        sys_prompt,
        sys_mode: parts.mode,
        model_name: parts.model_name,
        turns,
        images_skipped,
        chat_workspace: parts.chat_workspace,
        reasoning_default: parts.reasoning_default,
        search_default: parts.search_default,
        history_chars,
        history_room_chars,
    }
}

/// What a message outside any conversation starts from: the chat prompt and
/// that message alone.
pub fn direct_request_context(model_name: &str, pending: Option<&str>, n_ctx: u32) -> (c:
    RequestContext)
    ensures
        c.sys_prompt@ == prompt::system_prompt("chat"@, ""@, model_name@),
        c.sys_mode@ == "chat"@,
        c.model_name@ == model_name@,
        types::turns(c.turns@) == (match pending {
            Some(message) => seq![types::text_turn("user"@, message@)],
            None => Seq::<Turn>::empty(),
        }),
        c.images_skipped == 0,
        c.chat_workspace is None,
        !c.reasoning_default,
        !c.search_default,
        c.history_chars == (match pending {
            Some(message) => text::byte_len(message@) as int,
            None => 0,
        }),
        c.history_room_chars == char_budget(
            n_ctx as nat,
            text::byte_len(prompt::system_prompt("chat"@, ""@, model_name@)),
        ),
{
    let sys_prompt = prompt::build_system_prompt("chat", "", model_name);
    let history_room_chars: usize = history_char_budget(n_ctx, text::bytes_in(&sys_prompt));
    let mut turns: Vec<ChatTurn> = Vec::new();
    let mut history_chars: usize = 0;
    if let Some(message) = pending {
        turns.push(ChatTurn::text("user", message.to_owned()));
        history_chars = text::bytes_in(message);
        assert(types::turns(turns@) =~= seq![types::text_turn("user"@, message@)]);
    } else {
        assert(types::turns(turns@) =~= Seq::<Turn>::empty());
    }
    RequestContext {
        sys_prompt,
        sys_mode: "chat".to_owned(),
        model_name: model_name.to_owned(),
        turns,
        images_skipped: 0,
        chat_workspace: None,
        reasoning_default: false,
        search_default: false,
        history_chars,
        history_room_chars,
    }
}

/// The pending message laid out as it will be saved: the last user message,
/// under an id that counts as the latest.
pub fn pending_message(conversation_id: &str, content: &str) -> (m: Message)
    ensures
        m.id@ == "pending"@,
        m.conversation_id@ == conversation_id@,
        m.role@ == "user"@,
        m.content@ == content@,
        m.created_at@.len() == 0,
        history::turn_of(m) == types::text_turn("user"@, content@),
{
    proof {
        reveal_strlit("user");
        reveal_strlit("assistant");
        reveal_strlit("tool");
        assert("user"@.len() != "assistant"@.len());
        assert("user"@[0] != "tool"@[0]);
    }
    Message {
        id: "pending".to_owned(),
        conversation_id: conversation_id.to_owned(),
        role: "user".to_owned(),
        content: content.to_owned(),
        prose: content.to_owned(),
        created_at: String::new(),
    }
}

/// The system prompt stays the same while a project's listing and the saved
/// memory change, so that a model server can reuse what it has read of it.
pub proof fn law_system_prompt_is_stable(one: RequestParts, other: RequestParts)
    requires
        !one.legacy,
        !other.legacy,
        one.mode@ == other.mode@,
        one.model_name@ == other.model_name@,
        one.snapshot@.len() > 0,
        other.snapshot@.len() > 0,
    ensures
        one.system() == other.system(),
{
}

// ---- the room and the images --------------------------------------------------------------

/// History has the room that is left of the window: at three characters to a
/// token, the system prompt, 1,536 tokens for the reply and the history fill the
/// window, wherever that leaves history between 4,000 and 60,000 characters; and
/// it has 4,000 where it leaves less, and 60,000 where it leaves more.
pub proof fn law_history_has_the_room_that_is_left(n_ctx: nat, system_chars: nat)
    ensures
        ({
            let room = char_budget(n_ctx, system_chars);
            let others = 3 * (system_chars / 3) + 3 * 1536;
            &&& 4_000 <= room <= 60_000
            &&& 4_000 < room < 60_000 ==> room + others == 3 * n_ctx
            &&& room == 4_000 ==> 4_000 + others >= 3 * n_ctx
            &&& room == 60_000 ==> 60_000 + others <= 3 * n_ctx
        }),
{
}

/// The fill level is the share of the room in whole hundredths, rounded down: a
/// hundred exactly where the room is just taken up, never above 999, and more
/// text never lowers it.
pub proof fn law_the_fill_level_is_a_share(chars: nat, more: nat, room: nat)
    requires
        room > 0,
        chars <= more,
        more * 100 <= usize::MAX,
    ensures
        0 <= usage_pct(chars, room) <= 999,
        usage_pct(chars, room) * room <= 100 * chars,
        usage_pct(chars, room) < 999 ==> 100 * chars < (usage_pct(chars, room) + 1) * room,
        usage_pct(chars, room) <= usage_pct(more, room),
        room * 100 <= usize::MAX ==> usage_pct(room, room) == 100,
{
    let (a, b, r) = (chars as int * 100, more as int * 100, room as int);
    vstd::arithmetic::div_mod::lemma_fundamental_div_mod(a, r);
    vstd::arithmetic::div_mod::lemma_mod_bound(a, r);
    vstd::arithmetic::div_mod::lemma_div_is_ordered(a, b, r);
    vstd::arithmetic::div_mod::lemma_div_multiples_vanish(100, r);
    let q = a / r;
    assert(q >= 0) by (nonlinear_arith)
        requires
            q == a / r,
            a >= 0,
            r > 0,
    ;
    assert(q * r <= a && a < (q + 1) * r) by (nonlinear_arith)
        requires
            a == r * q + a % r,
            0 <= a % r < r,
    ;
    let p = usage_pct(chars, room);
    assert(p * r <= a) by (nonlinear_arith)
        requires
            p <= q,
            q * r <= a,
            r > 0,
    ;
    assert(r * 100 == 100 * r);
}

proof fn lemma_image_positions(attachments: Seq<Attachment>, n: int)
    requires
        0 <= n <= attachments.len(),
    ensures
        ({
            let all = image_positions(attachments, n);
            &&& forall|k: int|
                0 <= k < all.len() ==> 0 <= #[trigger] all[k] < n && is_image(attachments[all[k]])
            &&& forall|j: int, k: int| 0 <= j < k < all.len() ==> #[trigger] all[j] < #[trigger] all[k]
            &&& forall|i: int| 0 <= i < n && is_image(#[trigger] attachments[i]) ==> all.contains(i)
        }),
    decreases n,
{
    if n > 0 {
        lemma_image_positions(attachments, n - 1);
        let before = image_positions(attachments, n - 1);
        let all = image_positions(attachments, n);
        assert forall|i: int| 0 <= i < n && is_image(#[trigger] attachments[i]) implies all.contains(
            i,
        ) by {
            if i < n - 1 {
                let k = choose|k: int| 0 <= k < before.len() && before[k] == i;
                assert(all[k] == i);
            } else {
                assert(all[all.len() - 1] == i);
            }
        }
    }
}

/// The images sent are the latest: at most four, only images, oldest first; and
/// an image is left out only where four later ones go.
pub proof fn law_the_latest_images_go(attachments: Seq<Attachment>, i: int)
    requires
        0 <= i < attachments.len(),
    ensures
        ({
            let sent = latest_images(attachments);
            &&& sent.len() <= 4
            &&& sent.contains(i) ==> attachments[i].kind@ == "image"@
            &&& forall|j: int, k: int|
                0 <= j < k < sent.len() ==> #[trigger] sent[j] < #[trigger] sent[k]
            &&& attachments[i].kind@ == "image"@ && !sent.contains(i) ==> sent.len() == 4 && forall|
                k: int,
            |
                0 <= k < sent.len() ==> i < #[trigger] sent[k]
        }),
{
    lemma_image_positions(attachments, attachments.len() as int);
    let all = image_positions(attachments, attachments.len() as int);
    let sent = latest_images(attachments);
    let from = num::less(all.len() as int, 4);
    assert forall|k: int| 0 <= k < sent.len() implies #[trigger] sent[k] == all[from + k] by {}
    if sent.contains(i) {
        let k = choose|k: int| 0 <= k < sent.len() && sent[k] == i;
        assert(all[from + k] == i);
    }
    if is_image(attachments[i]) {
        let j = choose|j: int| 0 <= j < all.len() && all[j] == i;
        if j >= from {
            assert(sent[j - from] == i);
        } else {
            assert forall|k: int| 0 <= k < sent.len() implies i < #[trigger] sent[k] by {
                assert(all[j] < all[from + k]);
            }
        }
    }
}

/// An image goes on the message that it was sent with, behind those that are
/// there already, and on no other; it changes no words. Where its message is no
/// longer sent, it goes nowhere.
pub proof fn law_an_image_goes_with_its_message(
    turns: Seq<Turn>,
    ids: Seq<Seq<char>>,
    messages: Seq<Message>,
    attachments: Seq<Attachment>,
    images: Seq<(usize, String)>,
    n: int,
    owner: int,
)
    requires
        0 < n <= images.len(),
        images[n - 1].0 < attachments.len(),
        ids.len() <= turns.len(),
        ids.no_duplicates(),
        history::owner_from(messages, attachments[images[n - 1].0 as int], 0) == Some(owner),
    ensures
        ({
            let before = with_images(turns, ids, messages, attachments, images, n - 1);
            let after = with_images(turns, ids, messages, attachments, images, n);
            &&& after.len() == before.len()
            &&& forall|i: int|
                0 <= i < ids.len() && #[trigger] ids[i] == messages[owner].id@ ==> {
                    &&& after[i].images == before[i].images.push(images[n - 1].1@)
                    &&& after[i].content == before[i].content
                    &&& after[i].role == before[i].role
                }
            &&& forall|i: int|
                0 <= i < before.len() && (i >= ids.len() || ids[i] != messages[owner].id@)
                    ==> #[trigger] after[i] == before[i]
        }),
{
    lemma_images_keep_turns(turns, ids, messages, attachments, images, n - 1);
    history::lemma_position_from(ids, messages[owner].id@, 0);
}

proof fn lemma_images_keep_turns(
    turns: Seq<Turn>,
    ids: Seq<Seq<char>>,
    messages: Seq<Message>,
    attachments: Seq<Attachment>,
    images: Seq<(usize, String)>,
    n: int,
)
    requires
        0 <= n <= images.len(),
        ids.len() <= turns.len(),
    ensures
        ({
            let sent = with_images(turns, ids, messages, attachments, images, n);
            &&& sent.len() == turns.len()
            &&& forall|i: int|
                0 <= i < turns.len() ==> (#[trigger] sent[i]).content == turns[i].content
                    && sent[i].role == turns[i].role
        }),
    decreases n,
{
    if n > 0 {
        lemma_images_keep_turns(turns, ids, messages, attachments, images, n - 1);
        let before = with_images(turns, ids, messages, attachments, images, n - 1);
        let (at, url) = images[n - 1];
        lemma_turn_for_turns(before, ids, messages, attachments[at as int]);
    }
}

/// Images change neither what is said nor who says it.
pub proof fn law_images_change_no_words(
    turns: Seq<Turn>,
    ids: Seq<Seq<char>>,
    messages: Seq<Message>,
    attachments: Seq<Attachment>,
    images: Seq<(usize, String)>,
    urls: Seq<Seq<char>>,
    i: int,
)
    requires
        ids.len() <= turns.len(),
        0 <= i < turns.len(),
    ensures
        ({
            let each = with_images(turns, ids, messages, attachments, images, images.len() as int);
            let last = with_images_last(turns, urls);
            &&& each.len() == turns.len() && last.len() == turns.len()
            &&& each[i].content == turns[i].content && each[i].role == turns[i].role
            &&& last[i].content == turns[i].content && last[i].role == turns[i].role
            &&& turns[i].role != "user"@ ==> last[i].images == turns[i].images
            &&& turns[i].role == "user"@ && (forall|j: int|
                i < j < turns.len() ==> (#[trigger] turns[j]).role != "user"@) ==> last[i].images
                == urls
        }),
{
    lemma_images_keep_turns(turns, ids, messages, attachments, images, images.len() as int);
    history::lemma_last_user(turns, turns.len() as int);
    history::lemma_no_last_user(turns, turns.len() as int);
}

/// What changes during a conversation goes at the end of the latest user turn,
/// and nowhere else; in the older order it goes into the system prompt, behind
/// everything else.
pub proof fn law_what_changes_goes_on_the_latest_turn(parts: RequestParts, q: int)
    requires
        history::last_user(
            history::request_turns(parts.history@, parts.attachments@, parts.budget(), parts.legacy),
            history::request_turns(
                parts.history@,
                parts.attachments@,
                parts.budget(),
                parts.legacy,
            ).len() as int,
        ) == Some(q),
    ensures
        ({
            let saved = history::request_turns(
                parts.history@,
                parts.attachments@,
                parts.budget(),
                parts.legacy,
            );
            let sent = parts.plain_turns();
            &&& sent.len() == saved.len()
            &&& !parts.legacy ==> sent[q].content == saved[q].content + prompt::changing_context(
                parts.snapshot@,
                parts.memory@,
            )
            &&& parts.legacy ==> sent[q] == saved[q] && parts.memory@.is_suffix_of(parts.system())
            &&& forall|i: int| 0 <= i < saved.len() && i != q ==> #[trigger] sent[i] == saved[i]
        }),
{
    let saved = history::request_turns(
        parts.history@,
        parts.attachments@,
        parts.budget(),
        parts.legacy,
    );
    history::lemma_last_user(saved, saved.len() as int);
    let block = parts.changing();
    if block.len() == 0 {
        assert(saved[q].content + block =~= saved[q].content);
    }
    if parts.legacy {
        let s = parts.system();
        assert(parts.memory@ =~= s.subrange(s.len() - parts.memory@.len(), s.len() as int));
    }
}

/// Where the model cannot see images, every one of them counts as left out.
pub proof fn law_unseen_images_are_counted(parts: RequestParts, one: RequestParts, a: Attachment)
    requires
        !parts.images_wanted,
        !one.images_wanted,
        one.attachments@ == parts.attachments@.push(a),
    ensures
        parts.attachments@.len() == 0 ==> parts.skipped() == 0,
        one.skipped() == parts.skipped() + (if a.kind@ == "image"@ {
            1nat
        } else {
            0
        }),
        parts.request_turns() == parts.plain_turns(),
{
    lemma_positions_of_first(parts.attachments@, a, parts.attachments@.len() as int);
}

proof fn lemma_positions_of_first(attachments: Seq<Attachment>, a: Attachment, n: int)
    requires
        0 <= n <= attachments.len(),
    ensures
        image_positions(attachments.push(a), n) == image_positions(attachments, n),
    decreases n,
{
    if n > 0 {
        lemma_positions_of_first(attachments, a, n - 1);
    }
}

/// The system prompt and what changes take their bytes from the room of the
/// history: at three to a token they, the reply's share and the history fill the
/// window, wherever that leaves history between 4,000 and 60,000.
pub proof fn law_everything_sent_takes_room(parts: RequestParts)
    ensures
        ({
            let bytes = encode_utf8(parts.system()).len() + encode_utf8(parts.changing()).len();
            &&& 4_000 <= parts.budget() <= 60_000
            &&& 4_000 < parts.budget() < 60_000 ==> parts.budget() + 3 * (bytes / 3) + 4608 == 3
                * parts.n_ctx
        }),
{
    text::lemma_byte_len(parts.system());
    text::lemma_byte_len(parts.changing());
    law_history_has_the_room_that_is_left(
        parts.n_ctx as nat,
        text::byte_len(parts.system()) + text::byte_len(parts.changing()),
    );
}

/// With images or without, a request says what its turns say, each in its place
/// and by the same speaker; without any it is just its turns.
pub proof fn law_a_request_says_what_its_turns_say(parts: RequestParts, i: int)
    requires
        parts.sent_ids().len() <= parts.plain_turns().len(),
        0 <= i < parts.plain_turns().len(),
    ensures
        parts.request_turns().len() == parts.plain_turns().len(),
        parts.request_turns()[i].content == parts.plain_turns()[i].content,
        parts.request_turns()[i].role == parts.plain_turns()[i].role,
        !parts.images_wanted || parts.images@.len() == 0 ==> parts.request_turns()
            == parts.plain_turns(),
{
    law_images_change_no_words(
        parts.plain_turns(),
        parts.sent_ids(),
        parts.history@,
        parts.attachments@,
        parts.images@,
        parts.images@.map_values(|p: (usize, String)| p.1@),
        i,
    );
}

} // verus!
