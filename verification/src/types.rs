//! The records that the API reads and writes, as plain values.
use vstd::prelude::*;

use crate::text;

verus! {

/// One saved message of a conversation.
#[derive(Debug, PartialEq, Eq)]
pub struct Message {
    pub id: String,
    pub conversation_id: String,
    pub role: String,
    pub content: String,
    /// What `content` says outside its tool envelopes; read of assistant
    /// messages only.
    pub prose: String,
    pub created_at: String,
}

/// A file attached to a conversation.
#[derive(Debug, PartialEq, Eq)]
pub struct Attachment {
    pub id: String,
    pub conversation_id: String,
    pub filename: String,
    pub mime: String,
    pub size_bytes: u64,
    pub text_excerpt: String,
    pub kind: String,
    pub status: String,
    pub created_at: String,
}

/// One turn of a model request.
#[derive(Debug, PartialEq, Eq)]
pub struct ChatTurn {
    pub role: String,
    pub content: String,
    pub images: Vec<String>,
}

/// What a turn says: its role, its text and its images.
pub struct Turn {
    pub role: Seq<char>,
    pub content: Seq<char>,
    pub images: Seq<Seq<char>>,
}

/// The texts of a list of strings.
pub open spec fn texts(v: Seq<String>) -> Seq<Seq<char>> {
    v.map_values(|s: String| s@)
}

/// Whether `wanted` is one of `list`.
pub fn among(list: &[String], wanted: &str) -> (r: bool)
    ensures
        r == texts(list@).contains(wanted@),
{
    let mut i: usize = 0;
    while i < list.len()
        invariant
            i <= list@.len(),
            forall|k: int| 0 <= k < i ==> (#[trigger] list@[k])@ != wanted@,
        decreases list@.len() - i,
    {
        if text::same(&list[i], wanted) {
            assert(texts(list@)[i as int] == wanted@);
            return true;
        }
        i += 1;
    }
    assert forall|k: int| 0 <= k < texts(list@).len() implies #[trigger] texts(list@)[k]
        != wanted@ by {
        assert(texts(list@)[k] == list@[k]@);
    }
    false
}

/// A list of the same strings.
pub fn copied(list: &[String]) -> (r: Vec<String>)
    ensures
        texts(r@) == texts(list@),
        r@.len() == list@.len(),
{
    let mut r: Vec<String> = Vec::new();
    let mut i: usize = 0;
    while i < list.len()
        invariant
            i <= list@.len(),
            r@.len() == i,
            forall|k: int| 0 <= k < i ==> (#[trigger] r@[k])@ == list@[k]@,
        decreases list@.len() - i,
    {
        r.push(list[i].clone());
        i += 1;
    }
    assert(texts(r@) =~= texts(list@));
    r
}

impl View for ChatTurn {
    type V = Turn;

    open spec fn view(&self) -> Turn {
        Turn { role: self.role@, content: self.content@, images: texts(self.images@) }
    }
}

/// What a list of turns says.
pub open spec fn turns(v: Seq<ChatTurn>) -> Seq<Turn> {
    v.map_values(|t: ChatTurn| t@)
}

/// A turn of text alone.
pub open spec fn text_turn(role: Seq<char>, content: Seq<char>) -> Turn {
    Turn { role, content, images: Seq::empty() }
}

/// The turns with what the model said at their end and what it is told of it.
pub open spec fn exchanged(turns: Seq<Turn>, said: Seq<char>, told: Seq<char>) -> Seq<Turn> {
    turns.push(text_turn("assistant"@, said)).push(text_turn("user"@, told))
}

/// What the model said stands as the assistant's, and what it is told of it
/// behind that as the user's; all that came before is as it was.
pub proof fn law_an_answer_follows_what_was_said(turns: Seq<Turn>, said: Seq<char>, told: Seq<char>)
    ensures
        ({
            let after = exchanged(turns, said, told);
            let n = turns.len() as int;
            &&& after.len() == n + 2
            &&& turns.is_prefix_of(after)
            &&& after[n].role == "assistant"@ && after[n].content == said
            &&& after[n + 1].role == "user"@ && after[n + 1].content == told
            &&& after[n].images.len() == 0 && after[n + 1].images.len() == 0
        }),
{
    let after = exchanged(turns, said, told);
    assert(turns =~= after.subrange(0, turns.len() as int));
}

impl ChatTurn {
    /// A turn of text alone.
    pub fn text(role: &str, content: String) -> (t: ChatTurn)
        ensures
            t@ == text_turn(role@, content@),
    {
        let t = ChatTurn { role: role.to_owned(), content, images: Vec::new() };
        assert(t@.images =~= Seq::<Seq<char>>::empty());
        t
    }
}

} // verus!
