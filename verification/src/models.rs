//! The registry of models as its handlers use it: scans, deletions, what a
//! plan is made for, downloads and plugins.
use vstd::prelude::*;

use crate::error;
use crate::error::{ApiError, Refusal};
use crate::intent;
use crate::intent::AgentState;
use crate::num;
use crate::text;
use crate::toolround::ToolRecord;
use crate::types;

verus! {

/// How many of the models that a scan found were registered: those without a
/// warning.
pub fn registered(found: usize, warnings: usize) -> (n: usize)
    ensures
        n == num::less(found as int, warnings as int),
{
    if found < warnings {
        0
    } else {
        found - warnings
    }
}

/// The context that a model is described with.
pub open spec fn described(setting: int, model_limit: int) -> int {
    num::greater(num::lesser(setting, model_limit), 1)
}

/// A model is described with the context that is set, as far as it supports it.
pub proof fn law_described_as_set(setting: int, model_limit: int)
    ensures
        1 <= setting <= model_limit ==> described(setting, model_limit) == setting,
        1 <= model_limit <= setting ==> described(setting, model_limit) == model_limit,
        described(setting, model_limit) >= 1,
{
}

/// The context that a model is described with: the setting, within what the
/// model supports, and never nothing.
pub fn described_context(setting: u32, model_limit: u32) -> (n: u32)
    ensures
        n == described(setting as int, model_limit as int),
{
    let least: u32 = if setting < model_limit { setting } else { model_limit };
    if least < 1 {
        1
    } else {
        least
    }
}

/// What the runtime reported of a template's tools.
#[derive(Clone, Copy, Debug, PartialEq, Eq, Structural)]
pub enum Support {
    Yes,
    No,
    Unknown,
}

/// A model calls tools.
pub open spec fn calls_tools(reported: Support, template_says: bool) -> bool {
    match reported {
        Support::Yes => true,
        Support::No => false,
        Support::Unknown => template_says,
    }
}

/// Who says whether a model calls tools.
pub open spec fn known_from(reported: Support, template_says: bool) -> Option<Seq<char>> {
    if reported != Support::Unknown {
        Some("runtime"@)
    } else if template_says {
        Some("template"@)
    } else {
        None
    }
}

/// What the runtime reports counts over what the template says, and the template
/// counts only where the runtime reports nothing; where neither says so a model
/// is not taken to call tools.
pub proof fn law_the_runtime_counts_over_the_template(reported: Support, template_says: bool)
    ensures
        reported == Support::Yes ==> calls_tools(reported, template_says),
        reported == Support::No ==> !calls_tools(reported, template_says),
        reported == Support::Unknown ==> calls_tools(reported, template_says) == template_says,
        known_from(reported, template_says) == Some("runtime"@) <==> reported != Support::Unknown,
        known_from(reported, template_says) is None ==> !calls_tools(reported, template_says),
{
    reveal_strlit("runtime");
    reveal_strlit("template");
    assert("runtime"@.len() == 7 && "template"@.len() == 8);
}

/// Whether a model calls tools, and who says so: the runtime once it has
/// loaded the file, else the template's own text where it does.
pub fn tool_support(reported: Support, template_says: bool) -> (r: (bool, Option<&'static str>))
    ensures
        r.0 == calls_tools(reported, template_says),
        match known_from(reported, template_says) {
            Some(source) => r.1 is Some && r.1->0@ == source,
            None => r.1 is None,
        },
{
    match reported {
        Support::Yes => (true, Some("runtime")),
        Support::No => (false, Some("runtime")),
        Support::Unknown => if template_says {
            (true, Some("template"))
        } else {
            (false, None)
        },
    }
}

/// Some found model is not known yet.
pub open spec fn any_new(found: Seq<Seq<char>>, known: Seq<Seq<char>>) -> bool {
    exists|i: int| 0 <= i < found.len() && !known.contains(#[trigger] found[i])
}

/// Whether a scan found a model that is not known yet, whose fit is prepared.
pub fn has_new_model(found: &[String], known: &[String]) -> (r: bool)
    ensures
        r == any_new(types::texts(found@), types::texts(known@)),
{
    let ghost all = types::texts(found@);
    let mut i: usize = 0;
    while i < found.len()
        invariant
            i <= found@.len(),
            all == types::texts(found@),
            forall|k: int| 0 <= k < i ==> types::texts(known@).contains(#[trigger] all[k]),
        decreases found@.len() - i,
    {
        assert(all[i as int] == found@[i as int]@);
        if !types::among(known, &found[i]) {
            return true;
        }
        i += 1;
    }
    assert(all.len() == found@.len());
    false
}

/// The id could name something outside the registry.
pub open spec fn bad_id(id: Seq<char>) -> bool {
    text::is_blank(id) || text::holds(id, "/"@) || text::holds(id, "\\"@) || text::holds(id, ".."@)
}

/// Why a model is not deleted: its id could name something else, it is not
/// registered, or its weights are not inside the models folder.
pub open spec fn deletion_refusal(
    id: Seq<char>,
    known: bool,
    path_error: Option<Seq<char>>,
) -> Option<Refusal> {
    if bad_id(id) {
        Some(error::bad_request("invalid model id"@, "Use the id shown in the model list."@))
    } else if !known {
        Some(error::missing("unknown model '"@ + id + "'"@))
    } else {
        match path_error {
            Some(e) => Some(
                error::bad_request(
                    e,
                    "Only model weights inside the configured models directory can be deleted."@,
                ),
            ),
            None => None,
        }
    }
}

/// Refuses to delete what is not a registered model's weights inside the
/// models folder; `path_error` says why the weights are not.
pub fn admit_deletion(id: &str, known: bool, path_error: Option<&str>) -> (r: Result<(), ApiError>)
    ensures
        error::refusal_of(r) == deletion_refusal(
            id@,
            known,
            match path_error {
                Some(e) => Some(e@),
                None => None,
            },
        ),
{
    if text::blank(id) || text::contains(id, "/") || text::contains(id, "\\") || text::contains(
        id,
        "..",
    ) {
        return Err(ApiError::bad("invalid model id", "Use the id shown in the model list."));
    }
    if !known {
        let mut m = "unknown model '".to_owned();
        m.append(id);
        m.append("'");
        return Err(ApiError::not_found(&m));
    }
    match path_error {
        Some(e) => Err(
            ApiError::bad(
                e,
                "Only model weights inside the configured models directory can be deleted.",
            ),
        ),
        None => Ok(()),
    }
}

/// Nothing is deleted but a registered model's weights inside the models
/// folder, and never by an id that could climb out of it.
pub proof fn law_deletions_stay_in_the_registry(
    id: Seq<char>,
    known: bool,
    path_error: Option<Seq<char>>,
)
    requires
        deletion_refusal(id, known, path_error) is None,
    ensures
        known,
        path_error is None,
        !text::holds(id, "/"@) && !text::holds(id, "\\"@) && !text::holds(id, ".."@),
{
}

/// The model that a plan is made for.
#[derive(Clone, Copy, Debug, PartialEq, Eq, Structural)]
pub enum PlanModel {
    Asked,
    Current,
    Default,
    Nothing,
}

/// The model that a plan is made for.
pub open spec fn planned_for(
    asked: Option<&str>,
    asked_known: bool,
    has_current: bool,
    default_known: bool,
) -> PlanModel {
    if asked matches Some(id) && id@.len() > 0 {
        if asked_known {
            PlanModel::Asked
        } else {
            PlanModel::Nothing
        }
    } else if has_current {
        PlanModel::Current
    } else if default_known {
        PlanModel::Default
    } else {
        PlanModel::Nothing
    }
}

/// A plan for a model that was asked for is never made for another one, also
/// where that model is not there; without one asked for, the loaded model counts
/// before the default.
pub proof fn law_a_plan_is_for_the_model_asked_for(
    asked: Option<&str>,
    asked_known: bool,
    has_current: bool,
    default_known: bool,
)
    ensures
        ({
            let m = planned_for(asked, asked_known, has_current, default_known);
            let asks = asked is Some && asked->0@.len() > 0;
            &&& m == PlanModel::Asked <==> asks && asked_known
            &&& m == PlanModel::Current <==> !asks && has_current
            &&& m == PlanModel::Default <==> !asks && !has_current && default_known
        }),
{
}

/// The model that a plan is made for: the one asked for, where it is there;
/// without one asked for, the loaded one, else the default, where it is there.
pub fn plan_model(
    asked: Option<&str>,
    asked_known: bool,
    has_current: bool,
    default_known: bool,
) -> (m: PlanModel)
    ensures
        m == planned_for(asked, asked_known, has_current, default_known),
{
    if let Some(id) = asked {
        if !id.is_empty() {
            return if asked_known { PlanModel::Asked } else { PlanModel::Nothing };
        }
    }
    if has_current {
        PlanModel::Current
    } else if default_known {
        PlanModel::Default
    } else {
        PlanModel::Nothing
    }
}

/// The model that was asked for and is not there.
pub fn missing_model(asked: Option<&str>, asked_known: bool) -> (r: Option<String>)
    ensures
        match r {
            Some(id) => asked is Some && asked->0@.len() > 0 && !asked_known && id@ == asked->0@,
            None => asked is None || asked->0@.len() == 0 || asked_known,
        },
{
    match asked {
        Some(id) => {
            if !id.is_empty() && !asked_known {
                Some(id.to_owned())
            } else {
                None
            }
        },
        None => None,
    }
}

/// A choice, or what stands for none.
pub fn or_default(chosen: &str, default: &'static str) -> (s: String)
    ensures
        s@ == (if chosen@.len() == 0 {
            default@
        } else {
            chosen@
        }),
{
    if chosen.is_empty() {
        default.to_owned()
    } else {
        chosen.to_owned()
    }
}

/// How many of the first `n` runs have not ended.
pub open spec fn live_among(states: Seq<AgentState>, n: int) -> nat
    decreases n,
{
    if n <= 0 {
        0
    } else {
        live_among(states, n - 1) + if intent::ended(states[n - 1]) {
            0nat
        } else {
            1nat
        }
    }
}

/// How many sessions a new one would share the memory with: the runs that have
/// not ended.
pub fn other_sessions(states: &[AgentState]) -> (n: usize)
    ensures
        n == live_among(states@, states@.len() as int),
{
    let mut n: usize = 0;
    let mut i: usize = 0;
    while i < states.len()
        invariant
            i <= states@.len(),
            n == live_among(states@, i as int),
            n <= i,
        decreases states@.len() - i,
    {
        if !intent::has_ended(states[i]) {
            n += 1;
        }
        i += 1;
    }
    n
}

/// How many sessions share the device.
pub open spec fn sharers(generating: bool, active_runs: int) -> int {
    num::greater(
        active_runs + if generating {
            1int
        } else {
            0int
        },
        1,
    )
}

/// Everything that works on the device shares it: each active run and the reply
/// being generated; an idle device has one share.
pub proof fn law_what_works_shares_the_device(generating: bool, active_runs: int)
    requires
        0 <= active_runs,
    ensures
        sharers(true, active_runs) == active_runs + 1,
        active_runs > 0 ==> sharers(false, active_runs) == active_runs,
        sharers(false, 0) == 1,
{
}

/// How many sessions share the device: the reply being generated and the
/// active runs, at least one.
pub fn sharing(generating: bool, active_runs: usize) -> (n: usize)
    requires
        active_runs < usize::MAX,
    ensures
        n == sharers(generating, active_runs as int),
{
    let all: usize = if generating { active_runs + 1 } else { active_runs };
    if all < 1 {
        1
    } else {
        all
    }
}

/// The refusal of a model whose size cannot be read.
pub fn unreadable_size(parameters: &str) -> (e: ApiError)
    ensures
        e@ == error::bad_request(
            "cannot parse parameter count '"@ + parameters@ + "'"@,
            "Set parameters like '14B' in metadata.json."@,
        ),
{
    let mut m = "cannot parse parameter count '".to_owned();
    m.append(parameters);
    m.append("'");
    ApiError::bad(&m, "Set parameters like '14B' in metadata.json.")
}

/// What is done with a download.
#[derive(Clone, Copy, Debug, PartialEq, Eq, Structural)]
pub enum DownloadStep {
    Start,
    Pause,
    Resume,
    Cancel,
}

/// The refusal of a step of a download.
pub fn download_failed(step: DownloadStep, reason: &str) -> (e: ApiError)
    ensures
        e@ == (match step {
            DownloadStep::Start => error::bad_request(
                reason@,
                "Use a fresh id and an https:// file URL."@,
            ),
            DownloadStep::Pause => error::bad_request(
                reason@,
                "Only a running download can be paused."@,
            ),
            DownloadStep::Resume => error::bad_request(
                reason@,
                "Only a paused/failed download can resume."@,
            ),
            DownloadStep::Cancel => error::missing(reason@),
        }),
{
    match step {
        DownloadStep::Start => ApiError::bad(reason, "Use a fresh id and an https:// file URL."),
        DownloadStep::Pause => ApiError::bad(reason, "Only a running download can be paused."),
        DownloadStep::Resume => ApiError::bad(reason, "Only a paused/failed download can resume."),
        DownloadStep::Cancel => ApiError::not_found(reason),
    }
}

// ---- plugins and folders ----------------------------------------------------------------------------

/// A plugin's call as it is kept for the record.
pub fn plugin_record(plugin: &str, tool: &str, args: &str, output: &str, approved: bool) -> (r:
    ToolRecord)
    ensures
        r.conversation_id@ == "plugin:"@ + plugin@,
        r.tool@ == tool@,
        r.args@ == args@,
        r.result@ == text::first_chars(output@, 2000),
        r.approved == approved,
{
    let mut id = "plugin:".to_owned();
    id.append(plugin);
    ToolRecord {
        conversation_id: id,
        tool: tool.to_owned(),
        args: args.to_owned(),
        result: text::take_chars(output, 2000),
        approved,
    }
}

/// The refusal of a plugin's call: it needs an approval, or it failed.
pub fn plugin_failed(tool: &str, needs_approval: bool, reason: &str) -> (e: ApiError)
    ensures
        e@ == (if needs_approval {
            Refusal {
                status: 403,
                message: "Permission required for '"@ + tool@ + "': "@ + reason@,
                hint: "Retry with approved=true after user confirmation."@,
            }
        } else {
            error::bad_request(reason@, "Check tool arguments and retry."@)
        }),
{
    if needs_approval {
        let mut m = "Permission required for '".to_owned();
        m.append(tool);
        m.append("': ");
        m.append(reason);
        ApiError::new(403, &m, "Retry with approved=true after user confirmation.")
    } else {
        ApiError::bad(reason, "Check tool arguments and retry.")
    }
}

/// What is shown of a project's instructions: their first 4,000 characters.
pub fn instruction_excerpt(content: &str) -> (s: String)
    ensures
        s@ == text::first_chars(content@, 4000),
{
    text::take_chars(content, 4000)
}

/// What instructions are good for.
pub const INSTRUCTION_SCOPE: &'static str =
    "agent behavior only — cannot grant permissions or network access";

/// What a git read shows: what it printed, cut to 6,000 characters, or why it
/// could not run.
pub fn git_output(ran: Result<(&str, &str), &str>) -> (s: String)
    ensures
        s@ == (match ran {
            Ok((out, err)) => text::first_chars(out@ + err@, 6000),
            Err(e) => "(unavailable: "@ + e@ + ")"@,
        }),
{
    match ran {
        Ok((out, err)) => {
            let mut all = out.to_owned();
            all.append(err);
            text::take_chars(&all, 6000)
        },
        Err(e) => {
            let mut s = "(unavailable: ".to_owned();
            s.append(e);
            s.append(")");
            s
        },
    }
}

/// What is said of text in images.
pub fn ocr_detail(available: bool) -> (s: &'static str)
    ensures
        s@ == (if available {
            "Tesseract found on PATH; OCR extraction enabled."@
        } else {
            "No OCR engine on PATH. Image text uses the vision model when loaded, otherwise an honest fallback."@
        }),
{
    if available {
        "Tesseract found on PATH; OCR extraction enabled."
    } else {
        "No OCR engine on PATH. Image text uses the vision model when loaded, otherwise an honest fallback."
    }
}

/// The project whose memory is listed: the one named, else the session's.
pub fn memory_project(named: &str, conversation_id: &str, session_project: Option<&str>) -> (s:
    String)
    ensures
        s@ == (if named@.len() == 0 && conversation_id@.len() > 0 {
            match session_project {
                Some(p) => p@,
                None => Seq::empty(),
            }
        } else {
            named@
        }),
{
    if named.is_empty() && !conversation_id.is_empty() {
        return match session_project {
            Some(p) => p.to_owned(),
            None => String::new(),
        };
    }
    named.to_owned()
}

/// A registered model's weights inside the models folder are deleted where the
/// id is the model's own; the first thing that speaks against it is told.
pub proof fn law_a_registered_model_can_be_deleted(
    id: Seq<char>,
    known: bool,
    path_error: Option<Seq<char>>,
)
    ensures
        deletion_refusal(id, known, path_error) is None <==> !text::is_blank(id) && !id.contains('/')
            && !id.contains('\\') && !text::holds(id, ".."@) && known && path_error is None,
{
    lemma_holds_char(id, '/');
    lemma_holds_char(id, '\\');
    reveal_strlit("/");
    reveal_strlit("\\");
    assert("/"@ =~= seq!['/']);
    assert("\\"@ =~= seq!['\\']);
}

proof fn lemma_holds_char(s: Seq<char>, c: char)
    ensures
        text::holds(s, seq![c]) <==> s.contains(c),
{
    if s.contains(c) {
        let i = choose|i: int| 0 <= i < s.len() && s[i] == c;
        assert(s.subrange(i, i + 1) =~= seq![c]);
        assert(text::occurs_at(s, seq![c], i));
    }
    if text::holds(s, seq![c]) {
        let i = choose|i: int| text::occurs_at(s, seq![c], i);
        assert(s.subrange(i, i + 1)[0] == s[i]);
    }
}

/// Each run that has not ended counts for one, and one that has for none.
pub proof fn law_runs_that_have_not_ended_count(states: Seq<AgentState>, s: AgentState)
    ensures
        ({
            let n = states.len() as int;
            live_among(states.push(s), n + 1) == live_among(states, n) + (if s
                == AgentState::Completed || s == AgentState::Failed || s == AgentState::Cancelled {
                0nat
            } else {
                1
            })
        }),
        live_among(Seq::empty(), 0) == 0,
{
    lemma_live_first(states, s, states.len() as int);
}

proof fn lemma_live_first(states: Seq<AgentState>, s: AgentState, n: int)
    requires
        0 <= n <= states.len(),
    ensures
        live_among(states.push(s), n) == live_among(states, n),
    decreases n,
{
    if n > 0 {
        lemma_live_first(states, s, n - 1);
    }
}

/// A scan prepares fits where it found any model that was not known, and only
/// there.
pub proof fn law_a_new_model_is_noticed(found: Seq<Seq<char>>, known: Seq<Seq<char>>, id: Seq<char>)
    ensures
        found.contains(id) && !known.contains(id) ==> any_new(found, known),
        (forall|k: int| 0 <= k < found.len() ==> known.contains(#[trigger] found[k])) ==> !any_new(
            found,
            known,
        ),
        !any_new(known, known),
{
    if found.contains(id) && !known.contains(id) {
        let i = choose|i: int| 0 <= i < found.len() && found[i] == id;
        assert(!known.contains(found[i]));
    }
    assert(forall|k: int| 0 <= k < known.len() ==> known.contains(#[trigger] known[k]));
}

} // verus!
