//! Choosing a model for a saved conversation: which one is meant, what is
//! said while it is loaded, and what would be lost by switching to it.
use vstd::prelude::*;

use crate::boundary;
use crate::decimal;
use crate::error;
use crate::error::ApiError;
use crate::text;
use crate::types::{Attachment, Message};

verus! {

/// The model that is meant: the one asked for, else the conversation's, else
/// the one that is loaded.
pub open spec fn target(asked: Seq<char>, conversation: Seq<char>, current: Seq<char>) -> Seq<char> {
    if !text::is_blank(asked) {
        text::trimmed(asked)
    } else if conversation.len() > 0 {
        conversation
    } else {
        current
    }
}

/// The model that is meant: the one asked for, else the conversation's, else
/// the one that is loaded. `None` where there is none.
pub fn prepare_target(asked: &str, conversation: &str, current: &str) -> (r: Option<String>)
    ensures
        match r {
            Some(s) => s@ == target(asked@, conversation@, current@) && s@.len() > 0,
            None => target(asked@, conversation@, current@).len() == 0,
        },
{
    let t = if !text::blank(asked) {
        text::trim(asked)
    } else if !conversation.is_empty() {
        conversation.to_owned()
    } else {
        current.to_owned()
    };
    if t.as_str().is_empty() {
        None
    } else {
        Some(t)
    }
}

/// What preparing a conversation can stop at.
#[derive(Debug, PartialEq, Eq)]
pub enum PrepareFailure {
    /// The conversation is gone.
    Missing,
    /// The saved memory cannot be read.
    Memory(String),
    /// There is no model to load.
    NoModel,
    /// The registry does not know the model.
    UnknownModel(String),
    /// The model did not load.
    LoadFailed(String),
    /// Another model was loaded meanwhile.
    Replaced,
    /// Something that has its own words.
    Other(String),
}

/// What a failure says.
pub open spec fn failure_text(f: PrepareFailure) -> Seq<char> {
    match f {
        PrepareFailure::Missing => "conversation not found"@,
        PrepareFailure::Memory(e) => "Could not read saved memory: "@ + e@,
        PrepareFailure::NoModel => "No model selected. Load a model first."@,
        PrepareFailure::UnknownModel(id) => "Unknown model '"@ + id@ + "'."@,
        PrepareFailure::LoadFailed(e) => "Model failed to load: "@ + e@
            + ". Try fewer GPU layers or a smaller context."@,
        PrepareFailure::Replaced =>
            "The running model changed while this session was being prepared. Saved history was preserved; check the current model before continuing."@,
        PrepareFailure::Other(e) => e@,
    }
}

impl PrepareFailure {
    /// What the failure says.
    pub fn text(&self) -> (s: String)
        ensures
            s@ == failure_text(*self),
    {
        match self {
            PrepareFailure::Missing => "conversation not found".to_owned(),
            PrepareFailure::Memory(e) => {
                let mut s = "Could not read saved memory: ".to_owned();
                s.append(e);
                s
            },
            PrepareFailure::NoModel => "No model selected. Load a model first.".to_owned(),
            PrepareFailure::UnknownModel(id) => {
                let mut s = "Unknown model '".to_owned();
                s.append(id);
                s.append("'.");
                s
            },
            PrepareFailure::LoadFailed(e) => {
                let mut s = "Model failed to load: ".to_owned();
                s.append(e);
                s.append(". Try fewer GPU layers or a smaller context.");
                s
            },
            PrepareFailure::Replaced =>
                "The running model changed while this session was being prepared. Saved history was preserved; check the current model before continuing.".to_owned(),
            PrepareFailure::Other(e) => e.as_str().to_owned(),
        }
    }
}

/// What is saved of a conversation.
#[derive(Debug, PartialEq, Eq)]
pub struct Saved {
    pub model_id: String,
    pub messages: usize,
    pub attachments: usize,
    pub memory_entries: usize,
}

/// Where preparing a conversation stands.
#[derive(Debug, PartialEq, Eq)]
pub enum Preparing {
    /// Check which model runs; load the target where it does not.
    Check { target: String },
    /// The target runs: say so and record the choice.
    Ready { target: String },
    /// Give up.
    Stopped(PrepareFailure),
}

/// How preparing a conversation begins.
pub open spec fn begun(
    busy: Option<&str>,
    saved: Result<Saved, PrepareFailure>,
    asked: Seq<char>,
    current: Seq<char>,
    r: Preparing,
) -> bool {
    &&& busy matches Some(e) ==> (r matches Preparing::Stopped(f) && failure_text(f) == e@)
    &&& busy is None ==> (match saved {
        Err(f) => r == Preparing::Stopped(f),
        Ok(s) => {
            let t = target(asked, s.model_id@, current);
            if t.len() == 0 {
                r == Preparing::Stopped(PrepareFailure::NoModel)
            } else {
                r matches Preparing::Check { target } && target@ == t
            }
        },
    })
}

/// How preparing a conversation ends.
pub open spec fn ended(
    target: String,
    known: bool,
    load_error: Option<&str>,
    busy: Option<&str>,
    still_running: bool,
    r: Preparing,
) -> bool {
    &&& !known ==> (r matches Preparing::Stopped(PrepareFailure::UnknownModel(id)) && id@ == target@)
    &&& known && load_error is Some ==> (r matches Preparing::Stopped(PrepareFailure::LoadFailed(e))
        && e@ == load_error->0@)
    &&& known && load_error is None && busy is Some ==> (r matches Preparing::Stopped(f)
        && failure_text(f) == busy->0@)
    &&& known && load_error is None && busy is None && !still_running ==> r == Preparing::Stopped(
        PrepareFailure::Replaced,
    )
    &&& known && load_error is None && busy is None && still_running ==> r == (Preparing::Ready {
        target,
    })
}

/// Nothing is checked while work is under way or without a conversation and a
/// model, and nothing is called ready that does not run: the model is known, was
/// loaded, nothing else began meanwhile and none replaced it. It is the model
/// that was meant all along.
pub proof fn law_only_what_runs_is_ready(
    busy: Option<&str>,
    saved: Result<Saved, PrepareFailure>,
    asked: Seq<char>,
    current: Seq<char>,
    first: Preparing,
    meant: String,
    known: bool,
    load_error: Option<&str>,
    busy_after: Option<&str>,
    still_running: bool,
    last: Preparing,
)
    requires
        begun(busy, saved, asked, current, first),
        ended(meant, known, load_error, busy_after, still_running, last),
    ensures
        first is Check <==> busy is None && saved is Ok && target(
            asked,
            saved->Ok_0.model_id@,
            current,
        ).len() > 0,
        first matches Preparing::Check { target: t } ==> t@ == target(
            asked,
            saved->Ok_0.model_id@,
            current,
        ),
        !(first is Ready),
        last is Ready <==> known && load_error is None && busy_after is None && still_running,
        last matches Preparing::Ready { target: t } ==> t@ == meant@,
        !(last is Check),
{
}

/// The first step, once the conversation has been read: which model to check.
/// Work that is under way is never interrupted for this.
pub fn begin_preparing(
    busy: Option<&str>,
    saved: Result<Saved, PrepareFailure>,
    asked: &str,
    current: &str,
) -> (r: Preparing)
    ensures
        begun(busy, saved, asked@, current@, r),
{
    if let Some(e) = busy {
        return Preparing::Stopped(PrepareFailure::Other(e.to_owned()));
    }
    match saved {
        Err(f) => Preparing::Stopped(f),
        Ok(s) => {
            match prepare_target(asked, &s.model_id, current) {
                None => Preparing::Stopped(PrepareFailure::NoModel),
                Some(target) => Preparing::Check { target },
            }
        },
    }
}

/// The last step, once the target was found running or was loaded: nothing is
/// called ready that another model has replaced meanwhile.
pub fn finish_preparing(
    target: String,
    known: bool,
    load_error: Option<&str>,
    busy: Option<&str>,
    still_running: bool,
) -> (r: Preparing)
    ensures
        ended(target, known, load_error, busy, still_running, r),
{
    if !known {
        return Preparing::Stopped(PrepareFailure::UnknownModel(target));
    }
    if let Some(e) = load_error {
        return Preparing::Stopped(PrepareFailure::LoadFailed(e.to_owned()));
    }
    if let Some(e) = busy {
        return Preparing::Stopped(PrepareFailure::Other(e.to_owned()));
    }
    if !still_running {
        return Preparing::Stopped(PrepareFailure::Replaced);
    }
    Preparing::Ready { target }
}

/// One line of progress.
#[derive(Debug, PartialEq, Eq)]
pub struct Stage {
    pub name: &'static str,
    pub status: &'static str,
    pub detail: String,
}

/// A line of progress, by its parts.
pub open spec fn stage_is(s: Stage, name: Seq<char>, status: Seq<char>, detail: Seq<char>) -> bool {
    s.name@ == name && s.status@ == status && s.detail@ == detail
}

/// The line that opens the check.
pub fn checking_stage(target: &str) -> (s: Stage)
    ensures
        stage_is(s, "model"@, "active"@, "checking "@ + target@),
{
    let mut detail = "checking ".to_owned();
    detail.append(target);
    Stage { name: "model", status: "active", detail }
}

fn counted(n: usize, tail: &str) -> (s: String)
    ensures
        s@ == decimal::digits(n as nat) + tail@,
{
    let mut s = decimal::decimal(n as u64);
    s.append(tail);
    s
}

/// The lines of a conversation that is ready: what was kept, and that nothing
/// has been submitted yet.
pub fn ready_stages(target: &str, saved: &Saved) -> (v: Vec<Stage>)
    ensures
        v@.len() == 5,
        stage_is(v@[0], "model"@, "done"@, target@ + " loaded"@),
        stage_is(
            v@[1],
            "system"@,
            "done"@,
            "Session instructions will be assembled with your next reply; nothing has been submitted to the model yet."@,
        ),
        stage_is(
            v@[2],
            "history"@,
            "done"@,
            decimal::digits(saved.messages as nat)
                + " saved messages retained. The recent context window is assembled when you send a message."@,
        ),
        stage_is(
            v@[3],
            "attachments"@,
            "done"@,
            decimal::digits(saved.attachments as nat)
                + " saved attachment(s) remain available; supported excerpts/images are included at request time."@,
        ),
        stage_is(
            v@[4],
            "memory"@,
            "done"@,
            decimal::digits(saved.memory_entries as nat)
                + " scoped saved memory entries available for the next reply."@,
        ),
{
    let mut loaded = target.to_owned();
    loaded.append(" loaded");
    let mut v: Vec<Stage> = Vec::new();
    v.push(Stage { name: "model", status: "done", detail: loaded });
    v.push(
        Stage {
            name: "system",
            status: "done",
            detail:
                "Session instructions will be assembled with your next reply; nothing has been submitted to the model yet.".to_owned(),
        },
    );
    v.push(
        Stage {
            name: "history",
            status: "done",
            detail: counted(
                saved.messages,
                " saved messages retained. The recent context window is assembled when you send a message.",
            ),
        },
    );
    v.push(
        Stage {
            name: "attachments",
            status: "done",
            detail: counted(
                saved.attachments,
                " saved attachment(s) remain available; supported excerpts/images are included at request time.",
            ),
        },
    );
    v.push(
        Stage {
            name: "memory",
            status: "done",
            detail: counted(
                saved.memory_entries,
                " scoped saved memory entries available for the next reply.",
            ),
        },
    );
    v
}

// ---- what a switch would lose -------------------------------------------------------------------

/// The model that a switch is assessed for.
pub fn switch_target(asked: &str, conversation: &str) -> (s: String)
    ensures
        s@ == (if text::is_blank(asked@) {
            conversation@
        } else {
            text::trimmed(asked@)
        }),
{
    if text::blank(asked) {
        conversation.to_owned()
    } else {
        text::trim(asked)
    }
}

/// A message holds a tool's result.
pub open spec fn any_tool_message(messages: Seq<Message>) -> bool {
    exists|i: int| 0 <= i < messages.len() && (#[trigger] messages[i]).role@ == "tool"@
}

/// How many of the attachments are images.
pub open spec fn image_count(attachments: Seq<Attachment>) -> nat
    decreases attachments.len(),
{
    if attachments.len() == 0 {
        0
    } else {
        image_count(attachments.drop_last()) + if text::begins(
            attachments.last().mime@,
            "image/"@,
        ) {
            1nat
        } else {
            0nat
        }
    }
}

/// What a model can take up of a conversation.
#[derive(Debug, PartialEq, Eq)]
pub struct Compatibility {
    pub tool_history: bool,
    pub vision: bool,
    pub tool_calling: bool,
    pub warnings: Vec<String>,
}

/// What is said of images that a model cannot see.
pub open spec fn image_warning(images: nat, name: Seq<char>) -> Seq<char> {
    decimal::digits(images)
        + " image attachment(s) cannot be directly processed by text-only "@ + name
        + ". Options: process with OCR, keep without analyzing, or switch back."@
}

/// What is said of tool calls that a model cannot make.
pub open spec fn tool_warning(name: Seq<char>) -> Seq<char> {
    "Thread contains tool calls but "@ + name
        + " does not advertise tool calling. History is preserved; the agent loop stays disabled."@
}

/// What a switch to a model comes to for a conversation with so many images,
/// with tool calls or without.
pub open spec fn assessed(
    tools: bool,
    images: nat,
    name: Seq<char>,
    sees: bool,
    calls_tools: bool,
    r: Compatibility,
) -> bool {
    let tools_lost = tools && !calls_tools;
    let images_lost = images > 0 && !sees;
    let n = if images_lost {
        1int
    } else {
        0int
    };
    &&& r.tool_history == !tools_lost
    &&& r.tool_calling == !tools_lost
    &&& r.vision == !images_lost
    &&& r.warnings@.len() == n + if tools_lost {
        1int
    } else {
        0int
    }
    &&& images_lost ==> r.warnings@[0]@ == image_warning(images, name)
    &&& tools_lost ==> r.warnings@[n]@ == tool_warning(name)
}

/// A switch loses images only where there are some and the model has no sight,
/// and tool calls only where there were some and the model makes none; whatever
/// is lost is warned of, and nothing else is.
pub proof fn law_a_switch_loses_only_what_the_model_lacks(
    tools: bool,
    images: nat,
    name: Seq<char>,
    sees: bool,
    calls_tools: bool,
    r: Compatibility,
)
    requires
        assessed(tools, images, name, sees, calls_tools, r),
    ensures
        !r.vision <==> images > 0 && !sees,
        !r.tool_calling <==> tools && !calls_tools,
        r.tool_history == r.tool_calling,
        r.warnings@.len() == 0 <==> r.vision && r.tool_calling,
        !r.vision && !r.tool_calling ==> r.warnings@.len() == 2,
        sees && calls_tools ==> r.warnings@.len() == 0,
{
}

/// Assesses a switch to a model: images need sight, tool calls need tool
/// calling, and each that is missing is warned of.
pub fn assess_switch(
    messages: &[Message],
    attachments: &[Attachment],
    name: &str,
    sees: bool,
    calls_tools: bool,
) -> (r: Compatibility)
    ensures
        assessed(
            any_tool_message(messages@),
            image_count(attachments@),
            name@,
            sees,
            calls_tools,
            r,
        ),
{
    let mut has_tools = false;
    let mut i: usize = 0;
    while i < messages.len()
        invariant
            i <= messages@.len(),
            has_tools == any_tool_message(messages@.take(i as int)),
        decreases messages@.len() - i,
    {
        let ghost before = messages@.take(i as int);
        let ghost after = messages@.take(i + 1);
        assert(after.drop_last() =~= before);
        let here = text::same(&messages[i].role, "tool");
        proof {
            assert(after[i as int] == messages@[i as int]);
            if any_tool_message(before) {
                let k = choose|k: int| 0 <= k < before.len() && (#[trigger] before[k]).role@ == "tool"@;
                assert(after[k].role@ == "tool"@);
            }
            if any_tool_message(after) && !here {
                let k = choose|k: int| 0 <= k < after.len() && (#[trigger] after[k]).role@ == "tool"@;
                assert(before[k].role@ == "tool"@);
            }
        }
        has_tools = has_tools || here;
        i += 1;
    }
    assert(messages@.take(i as int) =~= messages@);
    let mut images: usize = 0;
    let mut j: usize = 0;
    while j < attachments.len()
        invariant
            j <= attachments@.len(),
            images == image_count(attachments@.take(j as int)),
            images <= j,
        decreases attachments@.len() - j,
    {
        assert(attachments@.take(j + 1).drop_last() =~= attachments@.take(j as int));
        if text::starts_with(&attachments[j].mime, "image/") {
            images += 1;
        }
        j += 1;
    }
    assert(attachments@.take(j as int) =~= attachments@);
    let mut warnings: Vec<String> = Vec::new();
    if images > 0 && !sees {
        let mut w = decimal::decimal(images as u64);
        w.append(" image attachment(s) cannot be directly processed by text-only ");
        w.append(name);
        w.append(". Options: process with OCR, keep without analyzing, or switch back.");
        warnings.push(w);
    }
    if has_tools && !calls_tools {
        let mut w = "Thread contains tool calls but ".to_owned();
        w.append(name);
        w.append(
            " does not advertise tool calling. History is preserved; the agent loop stays disabled.",
        );
        warnings.push(w);
    }
    Compatibility {
        tool_history: !has_tools || calls_tools,
        vision: images == 0 || sees,
        tool_calling: !has_tools || calls_tools,
        warnings,
    }
}

// ---- loading by id, and the settings in words ------------------------------------------------------

/// Refuses an empty or an unknown model id.
pub fn admit_model(id: &str, known: bool) -> (r: Result<(), ApiError>)
    ensures
        error::refusal_of(r) == (if text::is_blank(id@) {
            Some(error::bad_request("model id is empty"@, "Usage: /model <id> (see /models)"@))
        } else if !known {
            Some(error::missing("unknown model '"@ + id@ + "'"@))
        } else {
            None
        }),
{
    if text::blank(id) {
        return Err(ApiError::bad("model id is empty", "Usage: /model <id> (see /models)"));
    }
    if !known {
        let mut m = "unknown model '".to_owned();
        m.append(id);
        m.append("'");
        return Err(ApiError::not_found(&m));
    }
    Ok(())
}

/// A section of the settings: its members, each value as JSON text, or where it
/// has no members its own JSON text.
#[derive(Debug, PartialEq, Eq)]
pub enum Section {
    Members(Vec<(String, String)>),
    Value(String),
}

/// The member that is never shown.
pub const SECRET_MEMBER: &'static str = "brave_key";

/// What stands in the place of a secret, as JSON text.
pub const SECRET_SHOWN: &'static str = "\"***\"";

/// One of the members is the secret.
pub open spec fn has_secret(members: Seq<(Seq<char>, Seq<char>)>) -> bool {
    exists|i: int| 0 <= i < members.len() && (#[trigger] members[i]).0 == SECRET_MEMBER@
}

/// The members as they are shown: in the search section the secret is masked,
/// and stands there masked where it was not there.
pub open spec fn shown_members(
    section: Seq<char>,
    members: Seq<(Seq<char>, Seq<char>)>,
) -> Seq<(Seq<char>, Seq<char>)> {
    if section != "search"@ {
        members
    } else {
        let masked = members.map_values(
            |m: (Seq<char>, Seq<char>)|
                if m.0 == SECRET_MEMBER@ {
                    (m.0, SECRET_SHOWN@)
                } else {
                    m
                },
        );
        if has_secret(members) {
            masked
        } else {
            masked.push((SECRET_MEMBER@, SECRET_SHOWN@))
        }
    }
}

/// The members as they are shown.
pub fn mask_members(section: &str, members: Vec<(String, String)>) -> (r: Vec<(String, String)>)
    ensures
        boundary::pair_texts(r@) == shown_members(section@, boundary::pair_texts(members@)),
{
    if !text::same(section, "search") {
        return members;
    }
    let ghost all = boundary::pair_texts(members@);
    let mut r: Vec<(String, String)> = Vec::new();
    let mut seen: bool = false;
    let mut i: usize = 0;
    while i < members.len()
        invariant
            i <= members@.len(),
            all == boundary::pair_texts(members@),
            r@.len() == i,
            seen == exists|j: int| 0 <= j < i && (#[trigger] all[j]).0 == SECRET_MEMBER@,
            forall|j: int|
                0 <= j < i ==> ((#[trigger] r@[j]).0@, r@[j].1@) == (if all[j].0
                    == SECRET_MEMBER@ {
                    (all[j].0, SECRET_SHOWN@)
                } else {
                    all[j]
                }),
        decreases members@.len() - i,
    {
        let secret = text::same(&members[i].0, SECRET_MEMBER);
        assert(all[i as int] == (members@[i as int].0@, members@[i as int].1@));
        let value = if secret {
            SECRET_SHOWN.to_owned()
        } else {
            members[i].1.as_str().to_owned()
        };
        if secret {
            seen = true;
        }
        r.push((members[i].0.as_str().to_owned(), value));
        i += 1;
    }
    if !seen {
        r.push((SECRET_MEMBER.to_owned(), SECRET_SHOWN.to_owned()));
    }
    assert(boundary::pair_texts(r@) =~= shown_members(section@, all));
    r
}

/// A section of the settings as JSON text, secrets masked.
pub open spec fn section_text(section: Seq<char>, part: Section) -> Seq<char> {
    match part {
        Section::Members(members) => boundary::pretty_object(
            shown_members(section, boundary::pair_texts(members@)),
        ),
        Section::Value(text) => boundary::pretty_json(text@),
    }
}

/// What `/config` answers.
pub open spec fn config_shown(section: Seq<char>, part: Option<Section>) -> Seq<char> {
    if text::is_blank(section) {
        "Sections: general, inference, hardware, agent, security, reasoning, search, appearance, workspace, memory, files, keyboard, privacy, network, advanced, diagnostics\n/config <section> for details."@
    } else {
        let name = text::trimmed(section);
        match part {
            Some(p) => name + ":\n```json\n"@ + section_text(name, p) + "\n```"@,
            None => "Unknown section '"@ + name + "'. Try /config with no args."@,
        }
    }
}

/// A section of the settings, as it is shown in a chat; `part` is the section,
/// where there is such a one. Secrets are never printed into a chat.
pub fn config_text(section: &str, part: Option<Section>) -> (s: String)
    ensures
        s@ == config_shown(section@, part),
{
    if text::blank(section) {
        return "Sections: general, inference, hardware, agent, security, reasoning, search, appearance, workspace, memory, files, keyboard, privacy, network, advanced, diagnostics\n/config <section> for details.".to_owned();
    }
    let name = text::trim(section);
    match part {
        Some(p) => {
            let shown = match p {
                Section::Members(members) => {
                    let members = mask_members(&name, members);
                    boundary::pretty_members(&members)
                },
                Section::Value(text) => boundary::pretty_value(&text),
            };
            let mut s = name;
            s.append(":\n```json\n");
            s.append(&shown);
            s.append("\n```");
            s
        },
        None => {
            let mut s = "Unknown section '".to_owned();
            s.append(&name);
            s.append("'. Try /config with no args.");
            s
        },
    }
}

/// Two search sections that differ in the secret alone are answered with the
/// same text: nothing of the secret is shown.
pub proof fn law_the_search_key_is_not_shown(section: Seq<char>, a: Section, b: Section)
    requires
        text::trimmed(section) == "search"@,
        a matches Section::Members(m) && b matches Section::Members(n) && m@.len() == n@.len()
            && forall|i: int|
            0 <= i < m@.len() ==> (#[trigger] m@[i]).0@ == n@[i].0@ && (m@[i].1@ == n@[i].1@
                || m@[i].0@ == SECRET_MEMBER@),
    ensures
        config_shown(section, Some(a)) == config_shown(section, Some(b)),
{
    let m = boundary::pair_texts(a->Members_0@);
    let n = boundary::pair_texts(b->Members_0@);
    assert forall|i: int| 0 <= i < m.len() implies (#[trigger] m[i]).0 == n[i].0 && (m[i].1
        == n[i].1 || m[i].0 == SECRET_MEMBER@) by {
        assert(a->Members_0@[i].0@ == b->Members_0@[i].0@);
    }
    if has_secret(m) {
        let i = choose|i: int| 0 <= i < m.len() && (#[trigger] m[i]).0 == SECRET_MEMBER@;
        assert(n[i].0 == SECRET_MEMBER@);
    }
    if has_secret(n) {
        let i = choose|i: int| 0 <= i < n.len() && (#[trigger] n[i]).0 == SECRET_MEMBER@;
        assert(m[i].0 == SECRET_MEMBER@);
    }
    assert(shown_members("search"@, m) =~= shown_members("search"@, n));
}

// ---- what is meant and what is lost ----------------------------------------------------------------------

/// The model that is asked for counts, then the conversation's own, then the one
/// that is loaded.
pub proof fn law_which_model_is_meant(
    asked: Seq<char>,
    conversation: Seq<char>,
    current: Seq<char>,
)
    ensures
        !text::is_blank(asked) ==> target(asked, conversation, current) == text::trimmed(asked),
        text::is_blank(asked) && conversation.len() > 0 ==> target(asked, conversation, current)
            == conversation,
        text::is_blank(asked) && conversation.len() == 0 ==> target(asked, conversation, current)
            == current,
{
}

/// A failure gives its reason: what went wrong with the memory or the load, and
/// which model is unknown.
pub proof fn law_a_failure_gives_its_reason(e: String)
    ensures
        e@.is_suffix_of(failure_text(PrepareFailure::Memory(e))),
        ("Unknown model '"@ + e@).is_prefix_of(failure_text(PrepareFailure::UnknownModel(e))),
        ("Model failed to load: "@ + e@).is_prefix_of(failure_text(PrepareFailure::LoadFailed(e))),
        failure_text(PrepareFailure::Other(e)) == e@,
{
    let a = failure_text(PrepareFailure::Memory(e));
    assert(e@ =~= a.subrange(a.len() - e@.len(), a.len() as int));
    let b = failure_text(PrepareFailure::UnknownModel(e));
    let x = "Unknown model '"@ + e@;
    assert(x =~= b.subrange(0, x.len() as int));
    let c = failure_text(PrepareFailure::LoadFailed(e));
    let y = "Model failed to load: "@ + e@;
    assert(y =~= c.subrange(0, y.len() as int));
}

/// Each attachment whose kind of content is an image's counts for one, any other
/// for none.
pub proof fn law_images_are_counted_by_their_kind(attachments: Seq<Attachment>, a: Attachment)
    ensures
        image_count(attachments.push(a)) == image_count(attachments) + (if "image/"@.is_prefix_of(
            a.mime@,
        ) {
            1nat
        } else {
            0
        }),
        image_count(Seq::empty()) == 0,
{
    assert(attachments.push(a).drop_last() =~= attachments);
    assert(attachments.push(a).last() == a);
}

/// The warnings of a switch tell how many images are lost and to which model.
pub proof fn law_a_switch_warns_of_what_is_lost(images: nat, name: Seq<char>)
    ensures
        decimal::digits(images).is_prefix_of(image_warning(images, name)),
        text::holds(image_warning(images, name), name),
        text::holds(tool_warning(name), name),
{
    let w = image_warning(images, name);
    let n = decimal::digits(images);
    assert(n =~= w.subrange(0, n.len() as int));
    let a = n + " image attachment(s) cannot be directly processed by text-only "@;
    assert(w.subrange(a.len() as int, (a.len() + name.len()) as int) =~= name);
    assert(text::occurs_at(w, name, a.len() as int));
    let t = tool_warning(name);
    let b = "Thread contains tool calls but "@;
    assert(t.subrange(b.len() as int, (b.len() + name.len()) as int) =~= name);
    assert(text::occurs_at(t, name, b.len() as int));
}

/// Of a section everything is shown as it is but the search key, which shows as
/// masked in its place and nowhere in the clear; sections other than that of the
/// search are shown as they are.
pub proof fn law_only_the_key_is_masked(
    section: Seq<char>,
    members: Seq<(Seq<char>, Seq<char>)>,
    k: int,
)
    requires
        0 <= k < members.len(),
    ensures
        section != "search"@ ==> shown_members(section, members) == members,
        shown_members("search"@, members)[k].0 == members[k].0,
        members[k].0 != "brave_key"@ ==> shown_members("search"@, members)[k] == members[k],
        members[k].0 == "brave_key"@ ==> shown_members("search"@, members)[k].1 == "\"***\""@,
        exists|i: int|
            0 <= i < shown_members("search"@, members).len() && (#[trigger] shown_members(
                "search"@,
                members,
            )[i]).0 == "brave_key"@,
{
    let shown = shown_members("search"@, members);
    if has_secret(members) {
        let i = choose|i: int|
            0 <= i < members.len() && (#[trigger] members[i]).0 == SECRET_MEMBER@;
        assert(shown[i].0 == SECRET_MEMBER@);
    } else {
        assert(shown[members.len() as int].0 == SECRET_MEMBER@);
    }
}

/// A section is shown under its name; without a name the sections are listed, and
/// one that there is not is told by its name.
pub proof fn law_a_section_is_shown_by_name(section: Seq<char>, part: Section)
    requires
        !text::is_blank(section),
    ensures
        (text::trimmed(section) + ":\n```json\n"@).is_prefix_of(config_shown(section, Some(part))),
        ("Unknown section '"@ + text::trimmed(section)).is_prefix_of(config_shown(section, None)),
{
    let a = config_shown(section, Some(part));
    let x = text::trimmed(section) + ":\n```json\n"@;
    assert(x =~= a.subrange(0, x.len() as int));
    let b = config_shown(section, None);
    let y = "Unknown section '"@ + text::trimmed(section);
    assert(y =~= b.subrange(0, y.len() as int));
}

} // verus!
