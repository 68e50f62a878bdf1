//! What is remembered beyond a message, and a conversation's timeline.
use vstd::prelude::*;
use vstd::utf8::*;

use crate::error;
use crate::error::{ApiError, Refusal};
use crate::num;
use crate::text;

verus! {

/// Bytes of one memory at most.
pub const MAX_MEMORY_BYTES: usize = 8000;

/// Something to remember.
#[derive(Debug, PartialEq, Eq)]
pub struct NewMemory {
    pub scope: String,
    pub scope_id: String,
    pub content: String,
    pub source: String,
}

/// A memory as it is kept.
#[derive(Debug, PartialEq, Eq)]
pub struct MemoryEntry {
    pub id: String,
    pub scope: String,
    pub scope_id: String,
    pub content: String,
    pub source: String,
    pub created_at: String,
    pub last_used: String,
}

/// The scope of a memory that names none.
pub fn default_mem_scope() -> (s: String)
    ensures
        s@ == "conversation"@,
{
    "conversation".to_owned()
}

/// The scope that a memory has.
pub open spec fn scope_of(scope: Seq<char>) -> Seq<char> {
    if scope.len() == 0 {
        "conversation"@
    } else {
        scope
    }
}

/// A scope that a memory may be copied to.
pub open spec fn is_share_scope(scope: Seq<char>) -> bool {
    scope == "conversation"@ || scope == "workspace"@ || scope == "global"@
}

/// A scope that a memory may have.
pub open spec fn is_scope(scope: Seq<char>) -> bool {
    scope == "session"@ || is_share_scope(scope)
}

/// Why a memory is refused.
pub open spec fn memory_refusal(m: NewMemory) -> Option<Refusal> {
    let scope = scope_of(m.scope@);
    if text::is_blank(m.content@) {
        Some(error::bad_request("memory is empty"@, "Write what should be remembered."@))
    } else if text::byte_len(m.content@) > MAX_MEMORY_BYTES {
        Some(error::bad_request("memory too long"@, "Keep one memory under ~8000 chars."@))
    } else if !is_scope(scope) {
        Some(
            error::bad_request(
                "invalid scope '"@ + scope + "'"@,
                "Scope must be session, conversation, workspace or global (§84)."@,
            ),
        )
    } else if scope != "global"@ && text::is_blank(m.scope_id@) {
        Some(
            error::bad_request(
                "scope_id is empty"@,
                "Non-global memories need a conversation or workspace id."@,
            ),
        )
    } else {
        None
    }
}

/// Whether a memory may be copied to the scope.
fn share_scope(scope: &str) -> (r: bool)
    ensures
        r == is_share_scope(scope@),
{
    text::same(scope, "conversation") || text::same(scope, "workspace") || text::same(
        scope,
        "global",
    )
}

/// How a memory is kept.
pub open spec fn kept_as(m: NewMemory, id: Seq<char>, now: Seq<char>, e: MemoryEntry) -> bool {
    &&& e.id@ == id
    &&& e.scope@ == scope_of(m.scope@)
    &&& e.scope_id@ == text::trimmed(m.scope_id@)
    &&& e.content@ == text::trimmed(m.content@)
    &&& e.source@ == (if m.source@.len() == 0 {
        "user"@
    } else {
        m.source@
    })
    &&& e.created_at@ == now
    &&& e.last_used@ == now
}

/// A memory is kept as it was told: all of it but the white space around it, in
/// the scope that it names and under the one it belongs to; two that tell
/// different things are kept as different things. It is new: nothing has been
/// done with it since it was made.
pub proof fn law_a_memory_is_kept_as_told(
    m: NewMemory,
    other: NewMemory,
    id: Seq<char>,
    now: Seq<char>,
    e: MemoryEntry,
    f: MemoryEntry,
)
    requires
        memory_refusal(m) is None,
        kept_as(m, id, now, e),
        kept_as(other, id, now, f),
    ensures
        exists|a: int, b: int|
            0 <= a <= b <= m.content@.len() && e.content@ == #[trigger] m.content@.subrange(a, b)
                && text::is_blank(m.content@.take(a)) && text::is_blank(m.content@.skip(b)),
        e.content@.len() > 0,
        text::trimmed(m.content@) != text::trimmed(other.content@) ==> e.content@ != f.content@,
        e.scope@ == "session"@ || e.scope@ == "conversation"@ || e.scope@ == "workspace"@ || e.scope@
            == "global"@,
        m.scope@.len() > 0 ==> e.scope@ == m.scope@,
        e.scope@ != "global"@ ==> e.scope_id@.len() > 0,
        e.source@.len() > 0,
        e.id@ == id && e.created_at@ == now && e.last_used@ == now,
{
    text::law_trimming_takes_white_space_off(m.content@);
    text::lemma_trimmed_empty_iff_blank(m.content@);
    text::lemma_trimmed_empty_iff_blank(m.scope_id@);
    reveal_strlit("user");
}

/// A memory is kept exactly where it says something, in at most 8,000 bytes, in
/// one of the four scopes or none, and below something unless it is for all.
pub proof fn law_which_memories_are_kept(m: NewMemory)
    ensures
        memory_refusal(m) is None <==> {
            &&& exists|i: int| 0 <= i < m.content@.len() && !text::is_space(#[trigger] m.content@[i])
            &&& encode_utf8(m.content@).len() <= 8000
            &&& m.scope@.len() == 0 || m.scope@ == "session"@ || m.scope@ == "conversation"@
                || m.scope@ == "workspace"@ || m.scope@ == "global"@
            &&& m.scope@ == "global"@ || !text::is_blank(m.scope_id@)
        },
{
    text::lemma_byte_len(m.content@);
    reveal_strlit("global");
    reveal_strlit("conversation");
    assert("global"@.len() == 6 && "conversation"@.len() == 12);
}

/// Takes something to remember. `id` and `now` are the entry's id and time.
pub fn add_memory(m: &NewMemory, id: &str, now: &str) -> (r: Result<MemoryEntry, ApiError>)
    ensures
        error::refusal_of(r) == memory_refusal(*m),
        r matches Ok(e) ==> kept_as(*m, id@, now@, e),
{
    if text::blank(&m.content) {
        return Err(ApiError::bad("memory is empty", "Write what should be remembered."));
    }
    if text::bytes_in(&m.content) > MAX_MEMORY_BYTES {
        return Err(ApiError::bad("memory too long", "Keep one memory under ~8000 chars."));
    }
    let scope = if m.scope.as_str().is_empty() {
        default_mem_scope()
    } else {
        m.scope.clone()
    };
    if !text::same(&scope, "session") && !share_scope(&scope) {
        let mut message = "invalid scope '".to_owned();
        message.append(&scope);
        message.append("'");
        return Err(
            ApiError::bad(
                &message,
                "Scope must be session, conversation, workspace or global (§84).",
            ),
        );
    }
    if !text::same(&scope, "global") && text::blank(&m.scope_id) {
        return Err(
            ApiError::bad(
                "scope_id is empty",
                "Non-global memories need a conversation or workspace id.",
            ),
        );
    }
    Ok(
        MemoryEntry {
            id: id.to_owned(),
            scope,
            scope_id: text::trim(&m.scope_id),
            content: text::trim(&m.content),
            source: if m.source.as_str().is_empty() {
                "user".to_owned()
            } else {
                m.source.clone()
            },
            created_at: now.to_owned(),
            last_used: now.to_owned(),
        },
    )
}

/// Why a memory is not copied.
pub open spec fn share_refusal(scope: Seq<char>, source: Option<MemoryEntry>) -> Option<Refusal> {
    if !is_share_scope(scope) {
        Some(error::bad_request("invalid scope"@, "Use conversation, workspace or global."@))
    } else if source is None {
        Some(error::missing("unknown memory"@))
    } else {
        None
    }
}

/// How a copy of a memory is kept.
pub open spec fn copied_as(
    source: MemoryEntry,
    scope: Seq<char>,
    target_id: Seq<char>,
    id: Seq<char>,
    now: Seq<char>,
    e: MemoryEntry,
) -> bool {
    &&& e.id@ == id
    &&& e.scope@ == scope
    &&& e.scope_id@ == (if scope == "global"@ {
        Seq::empty()
    } else {
        target_id
    })
    &&& e.content@ == source.content@
    &&& e.source@ == "shared from "@ + source.scope@
    &&& e.created_at@ == now
    &&& e.last_used@ == now
}

/// A copy says what the memory says and where it came from; copies of memories
/// that differ differ. One for all belongs to nothing, any other to what it was
/// copied to; and a memory is never copied into a session.
pub proof fn law_a_copy_says_what_the_memory_says(
    source: MemoryEntry,
    other: MemoryEntry,
    scope: Seq<char>,
    target_id: Seq<char>,
    id: Seq<char>,
    now: Seq<char>,
    e: MemoryEntry,
    f: MemoryEntry,
)
    requires
        copied_as(source, scope, target_id, id, now, e),
        copied_as(other, scope, target_id, id, now, f),
    ensures
        source.content@ != other.content@ ==> e.content@ != f.content@,
        e.content@ == source.content@,
        source.scope@.is_suffix_of(e.source@) && e.source@.len() == source.scope@.len() + 12,
        e.scope@ == scope,
        e.scope_id@ == (if scope == "global"@ {
            Seq::<char>::empty()
        } else {
            target_id
        }),
        share_refusal(scope, Some(source)) is None <==> scope == "conversation"@ || scope
            == "workspace"@ || scope == "global"@,
        share_refusal("session"@, Some(source)) is Some,
{
    reveal_strlit("shared from ");
    assert(source.scope@ =~= e.source@.subrange(
        e.source@.len() - source.scope@.len(),
        e.source@.len() as int,
    ));
    reveal_strlit("session");
    reveal_strlit("conversation");
    reveal_strlit("workspace");
    reveal_strlit("global");
    assert("session"@.len() == 7 && "conversation"@.len() == 12 && "workspace"@.len() == 9
        && "global"@.len() == 6);
}

/// Copies a memory into another scope. The copy says where it came from; the
/// one it is copied from is left as it is.
pub fn share_memory(
    source: &Option<MemoryEntry>,
    scope: &str,
    target_id: &str,
    id: &str,
    now: &str,
) -> (r: Result<MemoryEntry, ApiError>)
    ensures
        error::refusal_of(r) == share_refusal(scope@, *source),
        r matches Ok(e) ==> copied_as(source->0, scope@, target_id@, id@, now@, e),
{
    if !share_scope(scope) {
        return Err(ApiError::bad("invalid scope", "Use conversation, workspace or global."));
    }
    match source {
        None => Err(ApiError::not_found("unknown memory")),
        Some(m) => {
            let mut from = "shared from ".to_owned();
            from.append(&m.scope);
            Ok(
                MemoryEntry {
                    id: id.to_owned(),
                    scope: scope.to_owned(),
                    scope_id: if text::same(scope, "global") {
                        String::new()
                    } else {
                        target_id.to_owned()
                    },
                    content: m.content.clone(),
                    source: from,
                    created_at: now.to_owned(),
                    last_used: now.to_owned(),
                },
            )
        },
    }
}

// ---- the timeline --------------------------------------------------------------------------

/// Events of a timeline at most.
pub const TIMELINE_EVENTS: usize = 300;

/// Something that happened in a conversation.
#[derive(Debug, PartialEq, Eq)]
pub struct TimelineEvent {
    pub kind: String,
    pub label: String,
    pub at: String,
}

/// Where an event goes among the first `n`: behind every one that is not later.
pub open spec fn event_at(events: Seq<TimelineEvent>, at: Seq<char>, n: int) -> int
    decreases n,
{
    if n <= 0 {
        0
    } else if text::not_after(events[n - 1].at@, at) {
        n
    } else {
        event_at(events, at, n - 1)
    }
}

/// The first `n` events by their times, of equal ones the first first.
pub open spec fn by_time(events: Seq<TimelineEvent>, n: int) -> Seq<TimelineEvent>
    decreases n,
{
    if n <= 0 {
        Seq::empty()
    } else {
        let before = by_time(events, n - 1);
        before.insert(
            event_at(before, events[n - 1].at@, before.len() as int),
            events[n - 1],
        )
    }
}

/// The events in the order of time, 300 at most.
pub open spec fn timeline(events: Seq<TimelineEvent>) -> Seq<TimelineEvent> {
    let all = by_time(events, events.len() as int);
    all.take(num::lesser(all.len() as int, TIMELINE_EVENTS as int))
}

proof fn lemma_event_at(events: Seq<TimelineEvent>, at: Seq<char>, n: int)
    requires
        0 <= n <= events.len(),
    ensures
        0 <= event_at(events, at, n) <= n,
        forall|k: int|
            event_at(events, at, n) <= k < n ==> !text::not_after((#[trigger] events[k]).at@, at),
        event_at(events, at, n) > 0 ==> text::not_after(
            events[event_at(events, at, n) - 1].at@,
            at,
        ),
    decreases n,
{
    if n > 0 && !text::not_after(events[n - 1].at@, at) {
        lemma_event_at(events, at, n - 1);
    }
}

/// A timeline holds its events, each of them once, in the order of time.
pub proof fn law_a_timeline_is_in_order(events: Seq<TimelineEvent>, n: int)
    requires
        0 <= n <= events.len(),
    ensures
        by_time(events, n).len() == n,
        by_time(events, n).to_multiset() == events.take(n).to_multiset(),
        forall|j: int, k: int|
            0 <= j < k < n ==> text::not_after(
                (#[trigger] by_time(events, n)[j]).at@,
                (#[trigger] by_time(events, n)[k]).at@,
            ),
    decreases n,
{
    if n > 0 {
        law_a_timeline_is_in_order(events, n - 1);
        let before = by_time(events, n - 1);
        let e = events[n - 1];
        let p = event_at(before, e.at@, before.len() as int);
        lemma_event_at(before, e.at@, before.len() as int);
        let r = before.insert(p, e);
        vstd::seq_lib::to_multiset_insert(before, p, e);
        vstd::seq_lib::to_multiset_insert(events.take(n - 1), n - 1, e);
        assert(events.take(n) =~= events.take(n - 1).insert(n - 1, e));
        assert forall|j: int, k: int| 0 <= j < k < n implies text::not_after(
            (#[trigger] r[j]).at@,
            (#[trigger] r[k]).at@,
        ) by {
            if k < p {
                assert(r[j] == before[j] && r[k] == before[k]);
            } else if k == p {
                assert(r[j] == before[j]);
                if j < p - 1 {
                    text::lemma_not_after_transitive(before[j].at@, before[p - 1].at@, e.at@);
                }
            } else {
                assert(r[k] == before[k - 1]);
                if j == p {
                    text::lemma_not_after_total(before[k - 1].at@, e.at@);
                } else if j < p {
                    assert(r[j] == before[j]);
                } else {
                    assert(r[j] == before[j - 1]);
                }
            }
        }
    } else {
        assert(events.take(n) =~= by_time(events, n));
    }
}

/// Puts the events in the order of time and keeps the first 300.
pub fn conversation_timeline(events: Vec<TimelineEvent>) -> (r: Vec<TimelineEvent>)
    ensures
        r@ == timeline(events@),
{
    let ghost all = events@;
    let n: usize = events.len();
    let mut rest = events;
    let mut r: Vec<TimelineEvent> = Vec::new();
    let mut i: usize = 0;
    while i < n
        invariant
            i <= n,
            n == all.len(),
            rest@ == all.skip(i as int),
            r@ == by_time(all, i as int),
            r@.len() == i,
        decreases n - i,
    {
        let e = rest.remove(0);
        assert(rest@ =~= all.skip(i + 1));
        let mut p: usize = r.len();
        while p > 0 && !text::at_most(&r[p - 1].at, &e.at)
            invariant
                p <= r@.len(),
                event_at(r@, e.at@, r@.len() as int) == event_at(r@, e.at@, p as int),
            decreases p,
        {
            p -= 1;
        }
        r.insert(p, e);
        i += 1;
    }
    if r.len() > TIMELINE_EVENTS {
        r.truncate(TIMELINE_EVENTS);
    } else {
        assert(r@.take(r@.len() as int) =~= r@);
    }
    r
}

/// The event of a message that stands for compacted history, if it does.
pub fn compaction_event(content: &str, at: &str) -> (r: Option<TimelineEvent>)
    ensures
        match r {
            Some(e) => text::begins(content@, "[Compacted context"@) && e.kind@ == "compaction"@
                && e.label@ == "Context compacted"@ && e.at@ == at@,
            None => !text::begins(content@, "[Compacted context"@),
        },
{
    if text::starts_with(content, "[Compacted context") {
        Some(
            TimelineEvent {
                kind: "compaction".to_owned(),
                label: "Context compacted".to_owned(),
                at: at.to_owned(),
            },
        )
    } else {
        None
    }
}

/// The event of something named: `before`, then the name.
pub fn named_event(kind: &str, before: &str, name: &str, at: &str) -> (e: TimelineEvent)
    ensures
        e.kind@ == kind@,
        e.label@ == before@ + name@,
        e.at@ == at@,
{
    let mut label = before.to_owned();
    label.append(name);
    TimelineEvent { kind: kind.to_owned(), label, at: at.to_owned() }
}

/// A timeline is in the order of time and goes from the beginning on: every
/// event is told where there are at most 300, and of more the earliest 300 are.
pub proof fn law_a_timeline_tells_the_earliest(events: Seq<TimelineEvent>)
    ensures
        ({
            let told = timeline(events);
            let all = by_time(events, events.len() as int);
            &&& told.len() == num::lesser(events.len() as int, 300)
            &&& events.len() <= 300 ==> told.to_multiset() == events.to_multiset()
            &&& forall|j: int, k: int|
                0 <= j < k < told.len() ==> text::not_after(
                    (#[trigger] told[j]).at@,
                    (#[trigger] told[k]).at@,
                )
            &&& forall|j: int, k: int|
                0 <= j < told.len() && told.len() <= k < all.len() ==> text::not_after(
                    (#[trigger] told[j]).at@,
                    (#[trigger] all[k]).at@,
                )
        }),
{
    law_a_timeline_is_in_order(events, events.len() as int);
    let told = timeline(events);
    let all = by_time(events, events.len() as int);
    assert(events.take(events.len() as int) =~= events);
    if events.len() <= 300 {
        assert(told =~= all);
    }
    assert forall|j: int| 0 <= j < told.len() implies #[trigger] told[j] == all[j] by {}
}

/// An event that is added goes behind all that are not later than it and before
/// all that are: so events of the same time keep their order.
pub proof fn law_events_of_one_time_keep_their_order(events: Seq<TimelineEvent>, e: TimelineEvent)
    ensures
        ({
            let n = events.len() as int;
            let before = by_time(events, n);
            let after = by_time(events.push(e), n + 1);
            exists|p: int|
                0 <= p <= before.len() && after == #[trigger] before.insert(p, e) && (forall|k: int|
                    0 <= k < p ==> text::not_after((#[trigger] before[k]).at@, e.at@)) && (forall|
                    k: int,
                |
                    p <= k < before.len() ==> !text::not_after((#[trigger] before[k]).at@, e.at@))
        }),
{
    let n = events.len() as int;
    lemma_by_time_first(events, e, n);
    law_a_timeline_is_in_order(events, n);
    let before = by_time(events, n);
    let p = event_at(before, e.at@, before.len() as int);
    lemma_event_at(before, e.at@, before.len() as int);
    assert forall|k: int| 0 <= k < p implies text::not_after((#[trigger] before[k]).at@, e.at@) by {
        if k < p - 1 {
            assert(text::not_after(before[k].at@, before[p - 1].at@));
            text::lemma_not_after_transitive(before[k].at@, before[p - 1].at@, e.at@);
        }
    }
    assert(by_time(events.push(e), n + 1) == before.insert(p, e));
}

proof fn lemma_by_time_first(events: Seq<TimelineEvent>, e: TimelineEvent, n: int)
    requires
        0 <= n <= events.len(),
    ensures
        by_time(events.push(e), n) == by_time(events, n),
    decreases n,
{
    if n > 0 {
        lemma_by_time_first(events, e, n - 1);
    }
}

} // verus!
