//! The tools that one chat request offers the model, and what a reply counts
//! as: an action, an attempt at one, or plain text.
use vstd::prelude::*;

use crate::text;

verus! {

/// A tool call read from a reply.
#[derive(Debug, PartialEq, Eq)]
pub struct ToolCall {
    pub name: String,
    /// The arguments as JSON text.
    pub args: String,
}

/// The tools one chat request offers the model. Only an offered tool may run,
/// end the stream early, or earn a correction when its call is unreadable:
/// anything else a model writes in a tool fence is its answer text.
#[derive(Debug, PartialEq, Eq)]
pub struct ChatToolOffer {
    pub workspace: bool,
    pub document: bool,
}

/// A tool that reads the linked project.
pub open spec fn reads_project(name: Seq<char>) -> bool {
    name == "list_directory"@ || name == "read_file"@ || name == "search_text"@ || name
        == "system_info"@ || name == "list_processes"@ || name == "manage_context"@
}

impl ChatToolOffer {
    /// The tool is offered.
    pub open spec fn offered(self, name: Seq<char>) -> bool {
        (self.workspace && reads_project(name)) || (self.document && name == "create_document"@)
    }

    /// Project tools where there is a project, the document tool where a
    /// document was asked for.
    pub fn for_request(has_workspace: bool, document_requested: bool) -> (o: ChatToolOffer)
        ensures
            forall|name: Seq<char>| #[trigger]
                o.offered(name) <==> (has_workspace && reads_project(name)) || (document_requested
                    && name == "create_document"@),
            o.workspace == has_workspace,
            o.document == document_requested,
    {
        ChatToolOffer { workspace: has_workspace, document: document_requested }
    }

    /// Whether no tool is offered.
    pub fn is_empty(&self) -> (r: bool)
        ensures
            r == (forall|name: Seq<char>| !#[trigger] self.offered(name)),
            r == (!self.workspace && !self.document),
    {
        proof {
            if self.workspace {
                assert(self.offered("read_file"@));
            }
            if self.document {
                assert(self.offered("create_document"@));
            }
        }
        !self.workspace && !self.document
    }

    /// Whether the tool is offered.
    pub fn offers(&self, name: &str) -> (r: bool)
        ensures
            r == self.offered(name@),
    {
        (self.workspace && (text::same(name, "list_directory") || text::same(name, "read_file")
            || text::same(name, "search_text") || text::same(name, "system_info") || text::same(
            name,
            "list_processes",
        ) || text::same(name, "manage_context"))) || (self.document && text::same(
            name,
            "create_document",
        ))
    }

    /// The call that a reply holds, if its tool is offered.
    pub fn call_in(&self, parsed: Option<ToolCall>) -> (r: Option<ToolCall>)
        ensures
            r == (match parsed {
                Some(call) if self.offered(call.name@) => Some(call),
                _ => None,
            }),
    {
        match parsed {
            Some(call) => if self.offers(&call.name) {
                Some(call)
            } else {
                None
            },
            None => None,
        }
    }

    /// Whether an unreadable action in `text` was an attempt at an offered
    /// tool, judged by the name it gives when that much is legible. With
    /// nothing offered there is nothing to correct toward.
    pub fn attempted_in(&self, text: &str) -> (r: bool)
        ensures
            r == ((self.workspace || self.document) && (match tool_name(text@) {
                Some(name) => self.offered(name),
                None => true,
            })),
    {
        if self.is_empty() {
            return false;
        }
        match tool_name_in(text) {
            Some(name) => self.offers(&name),
            None => true,
        }
    }
}

// ---- the name in a call -----------------------------------------------------------

/// What follows `p` in `s`, where `s` begins with it.
pub open spec fn after(s: Seq<char>, p: Seq<char>) -> Option<Seq<char>> {
    if text::begins(s, p) {
        Some(s.skip(p.len() as int))
    } else {
        None
    }
}

/// What follows the first quoted `name` and its colon, up to a quotation mark
/// opened there.
pub open spec fn name_value(s: Seq<char>) -> Option<Seq<char>> {
    match text::found(s, "\"name\""@, 0) {
        None => None,
        Some(at) => match after(text::trimmed_start(s.skip(at + 6)), ":"@) {
            None => None,
            Some(value) => after(text::trimmed_start(value), "\""@),
        },
    }
}

/// The tool name that an action gives: the quoted text after `"name":`.
pub open spec fn tool_name(s: Seq<char>) -> Option<Seq<char>> {
    match name_value(s) {
        None => None,
        Some(value) => match text::found(value, "\""@, 0) {
            None => None,
            Some(end) => Some(value.take(end)),
        },
    }
}

/// What follows `p` in `s`, where `s` begins with it.
fn strip(s: &str, p: &str) -> (r: Option<String>)
    ensures
        match after(s@, p@) {
            Some(rest) => r is Some && r->0@ == rest,
            None => r is None,
        },
{
    let sv = text::chars_of(s);
    let pv = text::chars_of(p);
    if !text::stands_at(&sv, &pv, 0) {
        return None;
    }
    let rest = text::string_of(&sv, pv.len(), sv.len());
    assert(rest@ =~= s@.skip(p@.len() as int));
    Some(rest)
}

/// The tool name an action block gives, read leniently so a call whose JSON
/// is broken elsewhere still says which tool it meant.
pub fn tool_name_in(reply: &str) -> (r: Option<String>)
    ensures
        match tool_name(reply@) {
            Some(name) => r is Some && r->0@ == name,
            None => r is None,
        },
{
    let v = text::chars_of(reply);
    let key = text::chars_of("\"name\"");
    proof {
        reveal_strlit("\"name\"");
        assert(key@.len() == 6);
    }
    let at: usize = match text::find_from(&v, &key, 0) {
        Some(at) => at,
        None => return None,
    };
    let n: usize = v.len();
    let tail = text::string_of(&v, at + key.len(), n);
    assert(tail@ =~= reply@.skip(at + 6));
    let tail = text::trim_start(&tail);
    let value = match strip(&tail, ":") {
        Some(value) => value,
        None => return None,
    };
    let value = text::trim_start(&value);
    let value = match strip(&value, "\"") {
        Some(value) => value,
        None => return None,
    };
    let chars = text::chars_of(&value);
    let quote = text::chars_of("\"");
    match text::find_from(&chars, &quote, 0) {
        Some(end) => {
            let name = text::string_of(&chars, 0, end);
            assert(name@ =~= value@.take(end as int));
            Some(name)
        },
        None => None,
    }
}

/// A reply is an action only where it calls an offered tool, and with no tool
/// offered no reply is an action and none earns a correction.
pub proof fn law_only_an_offered_tool_is_an_action(offer: ChatToolOffer, name: Seq<char>)
    ensures
        offer.offered(name) ==> reads_project(name) || name == "create_document"@,
        !offer.workspace && !offer.document ==> !offer.offered(name),
        !offer.workspace ==> (offer.offered(name) ==> name == "create_document"@),
{
}

/// Exactly the reading tools are offered with a project, and exactly the one
/// that makes a file where a file was asked for; nothing that writes, runs or
/// fetches ever is.
pub proof fn law_which_tools_are_offered(offer: ChatToolOffer, name: Seq<char>)
    ensures
        offer.offered(name) ==> [
            "list_directory"@,
            "read_file"@,
            "search_text"@,
            "system_info"@,
            "list_processes"@,
            "manage_context"@,
            "create_document"@,
        ]@.contains(name),
        offer.workspace ==> offer.offered("list_directory"@) && offer.offered("read_file"@)
            && offer.offered("search_text"@) && offer.offered("system_info"@) && offer.offered(
            "list_processes"@,
        ) && offer.offered("manage_context"@),
        offer.offered("create_document"@) <==> offer.document,
        offer.offered("read_file"@) <==> offer.workspace,
{
    let names = [
        "list_directory"@,
        "read_file"@,
        "search_text"@,
        "system_info"@,
        "list_processes"@,
        "manage_context"@,
        "create_document"@,
    ]@;
    if offer.offered(name) {
        if name == "list_directory"@ {
            assert(names[0] == name);
        } else if name == "read_file"@ {
            assert(names[1] == name);
        } else if name == "search_text"@ {
            assert(names[2] == name);
        } else if name == "system_info"@ {
            assert(names[3] == name);
        } else if name == "list_processes"@ {
            assert(names[4] == name);
        } else if name == "manage_context"@ {
            assert(names[5] == name);
        } else {
            assert(names[6] == name);
        }
    }
    reveal_strlit("list_directory");
    reveal_strlit("read_file");
    reveal_strlit("search_text");
    reveal_strlit("system_info");
    reveal_strlit("list_processes");
    reveal_strlit("manage_context");
    reveal_strlit("create_document");
    assert("create_document"@.len() == 15);
    assert("read_file"@.len() == 9);
    assert("list_directory"@.len() == 14 && "search_text"@.len() == 11 && "system_info"@.len() == 11
        && "list_processes"@.len() == 14 && "manage_context"@.len() == 14);
}

proof fn lemma_value(tail: Seq<char>)
    ensures
        after(text::trimmed_start(seq![':', '"'] + tail), ":"@) == Some(seq!['"'] + tail),
        after(text::trimmed_start(seq!['"'] + tail), "\""@) == Some(tail),
{
    reveal_strlit(":");
    reveal_strlit("\"");
    let a = seq![':', '"'] + tail;
    let b = seq!['"'] + tail;
    text::lemma_leading_space(a, 0);
    text::lemma_leading_space(b, 0);
    assert(a.skip(0) =~= a && b.skip(0) =~= b);
    assert(a.subrange(0, 1) =~= ":"@);
    assert(b.subrange(0, 1) =~= "\""@);
    assert(a.skip(1) =~= b);
    assert(b.skip(1) =~= tail);
}

proof fn lemma_first_quote(name: Seq<char>, rest: Seq<char>)
    requires
        !name.contains('"'),
    ensures
        text::found(name + "\""@ + rest, "\""@, 0) == Some(name.len() as int),
        (name + "\""@ + rest).take(name.len() as int) == name,
{
    reveal_strlit("\"");
    let quoted = name + "\""@ + rest;
    let end = name.len() as int;
    text::lemma_found(quoted, "\""@, 0);
    assert(quoted.subrange(end, end + 1) =~= "\""@);
    assert(text::occurs_at(quoted, "\""@, end));
    assert forall|k: int| 0 <= k < end implies !#[trigger] text::occurs_at(quoted, "\""@, k) by {
        if text::occurs_at(quoted, "\""@, k) {
            assert(quoted.subrange(k, k + 1)[0] == name[k]);
            assert(name.contains(name[k]));
        }
    }
    assert(quoted.take(end) =~= name);
}

/// An action's tool is the quoted text behind the first quoted `name` and a
/// colon, whatever stands before and after them.
pub proof fn law_an_action_names_its_tool(before: Seq<char>, name: Seq<char>, after_it: Seq<char>)
    requires
        !name.contains('"'),
        forall|k: int|
            0 <= k < before.len() ==> !#[trigger] text::occurs_at(
                before + "\"name\":\""@ + name + "\""@ + after_it,
                "\"name\""@,
                k,
            ),
    ensures
        tool_name(before + "\"name\":\""@ + name + "\""@ + after_it) == Some(name),
{
    let s = before + "\"name\":\""@ + name + "\""@ + after_it;
    let n = before.len() as int;
    let tail = name + "\""@ + after_it;
    assert(s.skip(n + 6) == seq![':', '"'] + tail && text::occurs_at(s, "\"name\""@, n)) by {
        reveal_strlit("\"name\":\"");
        reveal_strlit("\"name\"");
        assert(s.subrange(n, n + 6) =~= "\"name\""@);
        assert(s.skip(n + 6) =~= seq![':', '"'] + tail);
    }
    text::lemma_found(s, "\"name\""@, 0);
    assert(text::found(s, "\"name\""@, 0) == Some(n));
    lemma_value(tail);
    lemma_first_quote(name, after_it);
}

} // verus!
