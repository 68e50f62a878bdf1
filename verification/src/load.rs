//! Loading a model: whether it may be loaded now, with what configuration,
//! and what the person loading it is told.
use vstd::prelude::*;

use crate::decimal;
use crate::error;
use crate::error::{ApiError, Refusal};
use crate::fit;
use crate::fit::{FitDecision, Placement};
use crate::text;
use crate::types;

verus! {

// ---- progress ---------------------------------------------------------------------------

/// Where a load stands. `stage` is one of validating, loading,
/// checking_tools, health, ready, done, error, cancelled and idle.
#[derive(Debug, PartialEq, Eq)]
pub struct LoadProgress {
    pub model_id: String,
    pub stage: String,
    pub detail: String,
    pub updated_at: String,
    pub cancel_requested: bool,
}

/// A load that is at `stage` has been asked to stop.
pub open spec fn still_cancelled(asked: bool, stage: Seq<char>) -> bool {
    asked && stage != "validating"@
}

/// A request to stop is kept through every stage but the first: a load that
/// begins has not been asked to stop, and no stage asks for that by itself.
pub proof fn law_a_request_to_stop_is_kept(asked: bool, stage: Seq<char>)
    ensures
        !still_cancelled(asked, "validating"@),
        stage != "validating"@ ==> still_cancelled(asked, stage) == asked,
        !still_cancelled(false, stage),
{
}

impl LoadProgress {
    /// No load has been asked for.
    pub fn idle(now: &str) -> (p: LoadProgress)
        ensures
            p.model_id@ == ""@,
            p.stage@ == "idle"@,
            p.detail@ == ""@,
            p.updated_at@ == now@,
            !p.cancel_requested,
    {
        LoadProgress {
            model_id: "".to_owned(),
            stage: "idle".to_owned(),
            detail: "".to_owned(),
            updated_at: now.to_owned(),
            cancel_requested: false,
        }
    }

    /// Records a stage. A load that begins forgets an earlier request to
    /// cancel.
    pub fn advance(&mut self, model: &str, stage: &str, detail: &str, now: &str)
        ensures
            final(self).model_id@ == model@,
            final(self).stage@ == stage@,
            final(self).detail@ == detail@,
            final(self).updated_at@ == now@,
            final(self).cancel_requested == still_cancelled(old(self).cancel_requested, stage@),
    {
        self.model_id = model.to_owned();
        self.stage = stage.to_owned();
        self.detail = detail.to_owned();
        self.updated_at = now.to_owned();
        if text::same(stage, "validating") {
            self.cancel_requested = false;
        }
    }
}

impl LoadProgress {
    /// Records that the load was cancelled, and asks a load that is under way
    /// to stop.
    pub fn cancel(&mut self, now: &str)
        ensures
            final(self).model_id@ == ""@,
            final(self).stage@ == "cancelled"@,
            final(self).detail@ == "Load cancelled by the user."@,
            final(self).updated_at@ == now@,
            final(self).cancel_requested,
    {
        proof {
            reveal_strlit("cancelled");
            reveal_strlit("validating");
            assert("cancelled"@.len() != "validating"@.len());
        }
        self.cancel_requested = true;
        self.advance("", "cancelled", "Load cancelled by the user.", now);
    }
}

/// Why no load may begin now: a reply is being generated, or agent runs are
/// active and the load is not forced.
pub open spec fn busy_refusal(chat_active: bool, live: Seq<Seq<char>>, force: bool) -> Option<
    Refusal,
> {
    if chat_active {
        Some(
            Refusal {
                status: 409,
                message: "A chat response is still running."@,
                hint: "Stop the response or wait for it to finish before changing the model."@,
            },
        )
    } else if live.len() > 0 && !force {
        Some(
            Refusal {
                status: 409,
                message: decimal::digits(live.len()) + " agent run(s) active: "@ + text::joined(
                    live,
                    ", "@,
                ),
                hint: "Finish or stop the active run before switching models."@,
            },
        )
    } else {
        None
    }
}

/// Never ends work silently: a change of model waits for a running reply,
/// forced or not, and unless it is forced for active agent runs, whose ids are
/// `live`.
pub fn guard_agent_running(chat_active: bool, live: &[String], force: bool) -> (r: Result<
    (),
    ApiError,
>)
    ensures
        error::refusal_of(r) == busy_refusal(chat_active, types::texts(live@), force),
{
    if chat_active {
        return Err(
            ApiError::new(
                409,
                "A chat response is still running.",
                "Stop the response or wait for it to finish before changing the model.",
            ),
        );
    }
    assert(types::texts(live@).len() == live@.len());
    if live.len() > 0 && !force {
        let mut message = decimal::decimal(live.len() as u64);
        message.append(" agent run(s) active: ");
        let ids = text::join(live, ", ");
        message.append(&ids);
        return Err(
            ApiError::new(
                409,
                &message,
                "Finish or stop the active run before switching models.",
            ),
        );
    }
    Ok(())
}

/// What a start request names.
#[derive(Debug, PartialEq, Eq)]
pub enum StartTarget {
    /// A registered model.
    Model(String),
    /// A file.
    File(String),
    /// The model that is loaded now.
    Current,
    /// Nothing.
    Nothing,
}

/// What a start request names.
pub open spec fn target(
    model_id: Option<String>,
    model_path: Option<String>,
    has_current: bool,
) -> StartTarget {
    if model_id matches Some(id) && !text::is_blank(id@) {
        StartTarget::Model(model_id->0)
    } else if model_path matches Some(path) && !text::is_blank(path@) {
        StartTarget::File(model_path->0)
    } else if has_current {
        StartTarget::Current
    } else {
        StartTarget::Nothing
    }
}

/// A request for a model gets that model, whatever else it names; one for a file
/// gets the file; one for neither gets what is loaded, if anything is. A request
/// comes to nothing exactly where it names a model that there is not, or nothing
/// at all.
pub proof fn law_a_start_is_of_what_it_names(
    model_id: Option<String>,
    model_path: Option<String>,
    has_current: bool,
    registered: bool,
)
    ensures
        ({
            let t = target(model_id, model_path, has_current);
            let names = model_id is Some && !text::is_blank(model_id->0@);
            let points = model_path is Some && !text::is_blank(model_path->0@);
            &&& names ==> t == StartTarget::Model(model_id->0)
            &&& !names && points ==> t == StartTarget::File(model_path->0)
            &&& !names && !points ==> t == (if has_current {
                StartTarget::Current
            } else {
                StartTarget::Nothing
            })
            &&& target_refusal(t, registered) is Some <==> (names && !registered) || (!names
                && !points && !has_current)
        }),
{
}

/// What a start request names: a model id counts over a path, a path over the
/// model that is loaded; blank texts count as none.
pub fn start_target(model_id: Option<String>, model_path: Option<String>, has_current: bool) -> (t:
    StartTarget)
    ensures
        t == target(model_id, model_path, has_current),
{
    if let Some(id) = model_id {
        if !text::blank(&id) {
            return StartTarget::Model(id);
        }
    }
    if let Some(path) = model_path {
        if !text::blank(&path) {
            return StartTarget::File(path);
        }
    }
    if has_current {
        StartTarget::Current
    } else {
        StartTarget::Nothing
    }
}

/// Takes a request to load a model: the id without white space around it, or
/// the refusal of an empty one.
pub fn admit_load(id: &str) -> (r: Result<String, ApiError>)
    ensures
        error::refusal_of(r) == (if text::is_blank(id@) {
            Some(
                error::bad_request("model id is empty"@, "Pick a model from the selector first."@),
            )
        } else {
            None
        }),
        r matches Ok(s) ==> s@ == text::trimmed(id@),
{
    if text::blank(id) {
        Err(ApiError::bad("model id is empty", "Pick a model from the selector first."))
    } else {
        Ok(text::trim(id))
    }
}

/// Why a start request comes to nothing: the model it names is not registered,
/// or it names nothing.
pub open spec fn target_refusal(t: StartTarget, registered: bool) -> Option<Refusal> {
    match t {
        StartTarget::Model(id) => if registered {
            None
        } else {
            Some(error::missing("unknown model '"@ + id@ + "'"@))
        },
        StartTarget::Nothing => Some(
            error::bad_request(
                "no model selected"@,
                "Pass model_id, model_path, or load a model first."@,
            ),
        ),
        _ => None,
    }
}

/// Refuses a start request whose target is not there; `registered` says
/// whether the model that it names is.
pub fn admit_target(t: &StartTarget, registered: bool) -> (r: Result<(), ApiError>)
    ensures
        error::refusal_of(r) == target_refusal(*t, registered),
{
    match t {
        StartTarget::Model(id) => if registered {
            Ok(())
        } else {
            let mut m = "unknown model '".to_owned();
            m.append(id);
            m.append("'");
            Err(ApiError::not_found(&m))
        },
        StartTarget::Nothing => Err(
            ApiError::bad("no model selected", "Pass model_id, model_path, or load a model first."),
        ),
        _ => Ok(()),
    }
}

/// What a start is labelled with: the id, else the path, else nothing.
pub fn start_label(model_id: &Option<String>, model_path: &Option<String>) -> (s: String)
    ensures
        s@ == (match (*model_id, *model_path) {
            (Some(id), _) => id@,
            (None, Some(path)) => path@,
            (None, None) => ""@,
        }),
{
    match model_id {
        Some(id) => id.as_str().to_owned(),
        None => match model_path {
            Some(path) => path.as_str().to_owned(),
            None => "".to_owned(),
        },
    }
}

/// A request that changes which model runs.
#[derive(Clone, Copy, Debug, PartialEq, Eq, Structural)]
pub enum Changing {
    /// A registered model is loaded.
    Load,
    /// The runtime is started.
    Start,
}

/// What is said while a request is looked at.
pub fn opening_detail(what: Changing) -> (s: &'static str)
    ensures
        s@ == (match what {
            Changing::Load => "Checking model registry and agent guard."@,
            Changing::Start => "Resolving model and checking resources."@,
        }),
{
    match what {
        Changing::Load => "Checking model registry and agent guard.",
        Changing::Start => "Resolving model and checking resources.",
    }
}

/// The last stage of a request and what is said of it: the model is ready, or
/// why it is not.
pub fn closing_stage(what: Changing, failed: Option<&str>) -> (r: (&'static str, String))
    ensures
        match failed {
            Some(e) => r.0@ == "error"@ && r.1@ == e@,
            None => r.0@ == "ready"@ && r.1@ == (match what {
                Changing::Load => "Model loaded and ready for inference."@,
                Changing::Start => "Inference running and healthy."@,
            }),
        },
{
    match failed {
        Some(e) => ("error", e.to_owned()),
        None => (
            "ready",
            match what {
                Changing::Load => "Model loaded and ready for inference.".to_owned(),
                Changing::Start => "Inference running and healthy.".to_owned(),
            },
        ),
    }
}

// ---- the configuration ---------------------------------------------------------------------

/// The settings that a load starts from.
#[derive(Debug, PartialEq, Eq)]
pub struct LoadSettings {
    pub context_size: u32,
    pub batch_size: u32,
    pub cpu_threads: u32,
    pub threads_batch: u32,
    pub poll: Option<u32>,
    pub priority: Option<i32>,
    pub gpu_layers: i32,
    pub flash_attention: bool,
    pub kv_cache_gpu: bool,
    pub top_k: i32,
}

/// How the runtime was set up, and why.
#[derive(Debug, PartialEq, Eq)]
pub struct RuntimePolicy {
    pub speculative: String,
    pub spec_draft_n_max: Option<u32>,
    pub effective_context: u32,
    pub cache_type_k: String,
    pub cache_type_v: String,
    pub placement: String,
    pub threads: u32,
    pub context_note: Option<String>,
    pub notes: Vec<String>,
}

/// What a model's chat template takes: a turn of the system, and turns that do
/// not alternate.
#[derive(Clone, Copy, Debug, PartialEq, Eq, Structural)]
pub struct ChatTemplate {
    pub system_role: bool,
    pub strict_alternation: bool,
}

impl Default for ChatTemplate {
    /// A template that asks for nothing: it takes a turn of the system and
    /// turns in any order.
    fn default() -> (t: ChatTemplate)
        ensures
            t == (ChatTemplate { system_role: true, strict_alternation: false }),
    {
        ChatTemplate { system_role: true, strict_alternation: false }
    }
}

/// What a load reads of the model it is for: the path of its vision projector,
/// whether a file is there, and its chat template.
#[derive(Debug, PartialEq, Eq)]
pub struct ServedModel {
    pub projector: Option<String>,
    pub projector_is_file: bool,
    pub chat_template: ChatTemplate,
}

/// What a model is loaded with.
#[derive(Debug, PartialEq, Eq)]
pub struct InferenceConfig {
    pub model_path: String,
    pub projector_path: Option<String>,
    pub n_ctx: u32,
    pub n_batch: u32,
    pub n_threads: u32,
    pub n_threads_batch: u32,
    pub poll: Option<u32>,
    pub priority: Option<i32>,
    pub n_gpu_layers: i32,
    pub flash_attn: bool,
    pub kv_cache_gpu: bool,
    pub top_k: i32,
    pub seed: Option<u64>,
    pub speculative: String,
    pub spec_draft_n_max: Option<u32>,
    pub kv_cache_type_k: String,
    pub kv_cache_type_v: String,
    pub fit_target_mib: Option<u32>,
    pub micro_batch: Option<u32>,
    pub cache_ram_mib: Option<u64>,
    pub spec_ngram_length: Option<u32>,
    pub load_without_mmap: bool,
    pub builtin_chat_format: Option<String>,
    pub chat_template: ChatTemplate,
    pub runtime_policy: Option<RuntimePolicy>,
}

/// A number given, or the setting.
fn or_setting(given: Option<u32>, setting: u32) -> (r: u32)
    ensures
        r == (match given {
            Some(n) => n,
            None => setting,
        }),
{
    match given {
        Some(n) => n,
        None => setting,
    }
}

/// `c` is the load configuration from settings, before the runtime policy and
/// the fit adjust it.
pub open spec fn based_on(
    settings: LoadSettings,
    model_path: String,
    model: Option<ServedModel>,
    n_ctx: Option<u32>,
    n_gpu_layers: Option<i32>,
    n_threads: Option<u32>,
    speculative: String,
    cache_type: String,
    c: InferenceConfig,
) -> bool {
    &&& c.model_path == model_path
    &&& c.projector_path == (match model {
        Some(m) => if m.projector_is_file {
            m.projector
        } else {
            None
        },
        None => None,
    })
    &&& c.chat_template == (match model {
        Some(m) => m.chat_template,
        None => ChatTemplate { system_role: true, strict_alternation: false },
    })
    &&& c.n_ctx == (match n_ctx {
        Some(n) => n,
        None => settings.context_size,
    })
    &&& c.n_batch == settings.batch_size
    &&& c.n_threads == (match n_threads {
        Some(n) => n,
        None => settings.cpu_threads,
    })
    &&& c.n_threads_batch == settings.threads_batch
    &&& c.poll == settings.poll
    &&& c.priority == settings.priority
    &&& c.n_gpu_layers == (match n_gpu_layers {
        Some(n) => n,
        None => settings.gpu_layers,
    })
    &&& c.flash_attn == settings.flash_attention
    &&& c.kv_cache_gpu == settings.kv_cache_gpu
    &&& c.top_k == settings.top_k
    &&& c.seed is None
    &&& c.speculative == speculative
    &&& c.spec_draft_n_max is None
    &&& c.kv_cache_type_k@ == cache_type@
    &&& c.kv_cache_type_v@ == cache_type@
    &&& c.fit_target_mib is None
    &&& c.micro_batch is None
    &&& c.cache_ram_mib is None
    &&& c.spec_ngram_length is None
    &&& !c.load_without_mmap
    &&& c.builtin_chat_format is None
    &&& c.runtime_policy is None
}

/// What a request gives counts over the settings, and what it leaves open is as
/// they have it. The model's own projector is used where its file is there, and
/// no other; the cache is of one kind for keys and values.
pub proof fn law_a_request_counts_over_the_settings(
    settings: LoadSettings,
    model_path: String,
    model: Option<ServedModel>,
    n_ctx: Option<u32>,
    n_gpu_layers: Option<i32>,
    n_threads: Option<u32>,
    speculative: String,
    cache_type: String,
    c: InferenceConfig,
)
    requires
        based_on(
            settings,
            model_path,
            model,
            n_ctx,
            n_gpu_layers,
            n_threads,
            speculative,
            cache_type,
            c,
        ),
    ensures
        c.model_path@ == model_path@,
        n_ctx matches Some(n) ==> c.n_ctx == n,
        n_ctx is None ==> c.n_ctx == settings.context_size,
        n_gpu_layers matches Some(n) ==> c.n_gpu_layers == n,
        n_gpu_layers is None ==> c.n_gpu_layers == settings.gpu_layers,
        n_threads matches Some(n) ==> c.n_threads == n,
        n_threads is None ==> c.n_threads == settings.cpu_threads,
        c.n_batch == settings.batch_size && c.n_threads_batch == settings.threads_batch,
        c.flash_attn == settings.flash_attention && c.kv_cache_gpu == settings.kv_cache_gpu
            && c.top_k == settings.top_k,
        c.poll == settings.poll && c.priority == settings.priority,
        c.projector_path is Some ==> model is Some && model->0.projector_is_file
            && model->0.projector == c.projector_path,
        model is Some && model->0.projector_is_file ==> c.projector_path == model->0.projector,
        model is None ==> c.chat_template.system_role && !c.chat_template.strict_alternation,
        model matches Some(m) ==> c.chat_template == m.chat_template,
        c.kv_cache_type_k@ == c.kv_cache_type_v@ && c.kv_cache_type_k@ == cache_type@,
{
}

/// The load configuration from settings, before the runtime policy and the
/// fit adjust it: what the request gives counts over the setting. The vision
/// projector is the model's, where its file is there. The chat template is the
/// model's too: one that takes no turn of the system, or only turns that
/// alternate, holds for every request that the model serves.
pub fn base_inference_config(
    settings: &LoadSettings,
    model_path: String,
    model: Option<ServedModel>,
    n_ctx: Option<u32>,
    n_gpu_layers: Option<i32>,
    n_threads: Option<u32>,
    speculative: String,
    cache_type: String,
) -> (c: InferenceConfig)
    ensures
        based_on(
            *settings,
            model_path,
            model,
            n_ctx,
            n_gpu_layers,
            n_threads,
            speculative,
            cache_type,
            c,
        ),
{
    let (projector_path, chat_template) = match model {
        Some(m) => (if m.projector_is_file {
            m.projector
        } else {
            None
        }, m.chat_template),
        None => (None, ChatTemplate::default()),
    };
    InferenceConfig {
        model_path,
        projector_path,
        n_ctx: or_setting(n_ctx, settings.context_size),
        n_batch: settings.batch_size,
        n_threads: or_setting(n_threads, settings.cpu_threads),
        n_threads_batch: settings.threads_batch,
        poll: settings.poll,
        priority: settings.priority,
        n_gpu_layers: match n_gpu_layers {
            Some(n) => n,
            None => settings.gpu_layers,
        },
        flash_attn: settings.flash_attention,
        kv_cache_gpu: settings.kv_cache_gpu,
        top_k: settings.top_k,
        seed: None,
        speculative,
        spec_draft_n_max: None,
        kv_cache_type_k: cache_type.clone(),
        kv_cache_type_v: cache_type,
        fit_target_mib: None,
        micro_batch: None,
        cache_ram_mib: None,
        spec_ngram_length: None,
        load_without_mmap: false,
        builtin_chat_format: None,
        chat_template,
        runtime_policy: None,
    }
}

/// The notice for a requested context that the model does not support.
pub open spec fn limit_notice(model: Seq<char>, requested: u32, limit: u32) -> Option<Seq<char>> {
    if limit > 0 && requested > limit {
        Some(
            model + " supports at most "@ + decimal::grouped(decimal::digits(limit as nat))
                + " tokens of context. Your context size of "@ + decimal::grouped(
                decimal::digits(requested as nat),
            ) + " was reduced to "@ + decimal::grouped(decimal::digits(limit as nat))
                + " for this model; the setting itself is unchanged and applies in full to models that support it."@,
        )
    } else {
        None
    }
}

/// The notice for a requested context the model does not support, or `None`.
pub fn context_limit_notice(model_name: &str, requested: u32, model_limit: u32) -> (r: Option<
    String,
>)
    ensures
        match limit_notice(model_name@, requested, model_limit) {
            Some(notice) => r is Some && r->0@ == notice,
            None => r is None,
        },
{
    if model_limit == 0 || requested <= model_limit {
        return None;
    }
    let mut s = model_name.to_owned();
    let limit = decimal::group_thousands(model_limit);
    let asked = decimal::group_thousands(requested);
    s.append(" supports at most ");
    s.append(&limit);
    s.append(" tokens of context. Your context size of ");
    s.append(&asked);
    s.append(" was reduced to ");
    s.append(&limit);
    s.append(
        " for this model; the setting itself is unchanged and applies in full to models that support it.",
    );
    Some(s)
}

/// The chat format of a model file without a template: the format to name to
/// the runtime, and the notice. The generic format needs neither.
pub fn chat_format(format: &str, architecture: &str, listed: bool) -> (r: (
    Option<String>,
    Option<String>,
))
    ensures
        format@ == "chatml"@ ==> r.0 is None && r.1 is None,
        format@ != "chatml"@ && listed ==> r.0 is Some && r.0->0@ == format@ && r.1 is Some
            && r.1->0@
            == "This model file carries no chat template, so llama.cpp's built-in \""@ + format@
            + "\" chat format for the "@ + architecture@
            + " architecture is used. The runtime's generic format would leave the model without its own end-of-turn marker, and replies would run on to the output limit."@,
        format@ != "chatml"@ && !listed ==> r.0 is None && r.1 is Some && r.1->0@
            == "This model file carries no chat template, and the installed runtime does not list the built-in \""@
            + format@ + "\" format for the "@ + architecture@
            + " architecture, so its generic format is used: replies may be garbled or run on. Rebuilding the runtime with scripts/build-runtime usually adds it."@,
{
    if text::same(format, "chatml") {
        return (None, None);
    }
    if listed {
        let mut s =
            "This model file carries no chat template, so llama.cpp's built-in \"".to_owned();
        s.append(format);
        s.append("\" chat format for the ");
        s.append(architecture);
        s.append(
            " architecture is used. The runtime's generic format would leave the model without its own end-of-turn marker, and replies would run on to the output limit.",
        );
        (Some(format.to_owned()), Some(s))
    } else {
        let mut s =
            "This model file carries no chat template, and the installed runtime does not list the built-in \"".to_owned();
        s.append(format);
        s.append("\" format for the ");
        s.append(architecture);
        s.append(
            " architecture, so its generic format is used: replies may be garbled or run on. Rebuilding the runtime with scripts/build-runtime usually adds it.",
        );
        (None, Some(s))
    }
}

// ---- applying a fit ----------------------------------------------------------------------------

/// The note begins with one of the texts.
pub open spec fn begins_any(note: Seq<char>, starts: Seq<Seq<char>>) -> bool {
    exists|k: int| 0 <= k < starts.len() && text::begins(note, #[trigger] starts[k])
}

/// Those of the first `n` notes that begin with none of the texts.
pub open spec fn kept_notes(notes: Seq<Seq<char>>, starts: Seq<Seq<char>>, n: int) -> Seq<Seq<char>>
    decreases n,
{
    if n <= 0 {
        Seq::empty()
    } else if begins_any(notes[n - 1], starts) {
        kept_notes(notes, starts, n - 1)
    } else {
        kept_notes(notes, starts, n - 1).push(notes[n - 1])
    }
}

/// All notes that begin with none of the texts.
pub open spec fn without_notes(notes: Seq<Seq<char>>, starts: Seq<Seq<char>>) -> Seq<Seq<char>> {
    kept_notes(notes, starts, notes.len() as int)
}

/// Keeps the notes that begin with none of the texts.
fn drop_notes(notes: &mut Vec<String>, starts: &[&str])
    ensures
        types::texts(final(notes)@) == without_notes(
            types::texts(old(notes)@),
            starts@.map_values(|s: &str| s@),
        ),
{
    let ghost all = types::texts(notes@);
    let ghost wanted = starts@.map_values(|s: &str| s@);
    let mut kept: Vec<String> = Vec::new();
    let mut i: usize = 0;
    assert(types::texts(kept@) =~= Seq::<Seq<char>>::empty());
    while i < notes.len()
        invariant
            i <= notes@.len(),
            all == types::texts(notes@),
            wanted == starts@.map_values(|s: &str| s@),
            types::texts(kept@) == kept_notes(all, wanted, i as int),
        decreases notes@.len() - i,
    {
        let mut begins = false;
        let mut k: usize = 0;
        while k < starts.len()
            invariant
                k <= starts@.len(),
                i < notes@.len(),
                wanted == starts@.map_values(|s: &str| s@),
                begins == exists|j: int|
                    0 <= j < k && text::begins(notes@[i as int]@, #[trigger] wanted[j]),
            decreases starts@.len() - k,
        {
            let here = text::starts_with(&notes[i], starts[k]);
            assert(wanted[k as int] == starts@[k as int]@);
            begins = begins || here;
            k += 1;
        }
        if !begins {
            let ghost was = kept@;
            kept.push(notes[i].clone());
            assert(types::texts(kept@) =~= types::texts(was).push(notes@[i as int]@));
        }
        i += 1;
    }
    *notes = kept;
}

/// The names of ways to draft ahead.
#[derive(Debug, PartialEq, Eq)]
pub struct Drafting {
    /// Drafting with a model's own head.
    pub draft_head: String,
    /// Drafting without it.
    pub plain: String,
}

/// How headroom below the runtime's default is explained.
pub open spec fn headroom(margin: u32) -> Seq<char> {
    if margin < 1024 {
        " and "@ + decimal::digits(margin as nat)
            + " MiB of VRAM left free (the runtime's default leaves 1024; less headroom was measured to put more of the model on the GPU)"@
    } else {
        Seq::empty()
    }
}

/// How headroom below the runtime's default is explained.
fn headroom_of(margin: u32) -> (s: String)
    ensures
        s@ == headroom(margin),
{
    if margin < 1024 {
        let mut s = " and ".to_owned();
        let n = decimal::decimal(margin as u64);
        s.append(&n);
        s.append(
            " MiB of VRAM left free (the runtime's default leaves 1024; less headroom was measured to put more of the model on the GPU)",
        );
        s
    } else {
        String::new()
    }
}

/// What a decision means for the load, if that needs saying.
pub open spec fn outcome_note(d: FitDecision, requested: u32, estimated: u32) -> Option<Seq<char>> {
    let n = decimal::digits(d.context as nat);
    if d.placement == Placement::Gpu {
        Some(
            if d.context == requested {
                "Every layer fits on the GPU at the full "@ + n + "-token context with a "@
                    + d.cache@ + " cache"@ + headroom(d.margin)
                    + ", measured by the runtime's own memory fit."@
            } else {
                "Context set to "@ + n + " tokens with a "@ + d.cache@ + " cache"@ + headroom(
                    d.margin,
                )
                    + ": the largest size at which every layer stays on the GPU, measured by the runtime's own memory fit (the header estimate allowed "@
                    + decimal::digits(estimated as nat)
                    + "). The saved preference is unchanged; a smaller model or quantization allows more."@
            },
        )
    } else if d.margin < 1024 || d.cache@ != "f16"@ {
        Some(
            "Cache "@ + d.cache@ + headroom(d.margin)
                + ": the combination that puts the most of this model on the GPU."@,
        )
    } else {
        None
    }
}

/// How a confirmed decision is explained, given the seconds it took.
pub open spec fn confirmed_note(seconds: Seq<char>) -> Seq<char> {
    "This placement was found by an earlier fit search for this model on this machine and confirmed with one check at load ("@
        + seconds + " s) instead of searching again."@
}

/// The notes of a decision as they are shown, before they are joined.
pub open spec fn note_parts(
    d: FitDecision,
    requested: u32,
    estimated: u32,
    confirmed_in: Option<Seq<char>>,
) -> Seq<Seq<char>> {
    let one = match outcome_note(d, requested, estimated) {
        Some(note) => types::texts(d.notes@).push(note),
        None => types::texts(d.notes@),
    };
    match confirmed_in {
        Some(seconds) => one.push(confirmed_note(seconds)),
        None => one,
    }
}

/// The notes that a fitted load replaces.
pub open spec fn replaced_notes() -> Seq<Seq<char>> {
    seq!["Context reduced"@, "Context kept at"@, "The weights ("@]
}

/// The draft head is turned off by the decision.
pub open spec fn turns_head_off(d: FitDecision, c: InferenceConfig, drafting: Drafting) -> bool {
    d.draft_head_dropped && c.speculative@ == drafting.draft_head@
}

/// The runtime policy's notes under a decision.
pub open spec fn policy_notes(
    notes: Seq<Seq<char>>,
    head_off: bool,
    fitted: Seq<char>,
    micro: Option<String>,
) -> Seq<Seq<char>> {
    let kept = if head_off {
        without_notes(notes, seq!["This model carries a built-in draft head"@])
    } else {
        notes
    };
    let replaced = without_notes(kept, replaced_notes());
    let with_fit = if fitted.len() == 0 {
        replaced
    } else {
        replaced.push(fitted)
    };
    match micro {
        Some(note) => with_fit.push(note@),
        None => with_fit,
    }
}

/// The notes of a decision as they are shown.
fn note_parts_of(
    d: &FitDecision,
    requested: u32,
    estimated: u32,
    confirmed_in: Option<&str>,
) -> (r: Vec<String>)
    ensures
        types::texts(r@) == note_parts(
            *d,
            requested,
            estimated,
            match confirmed_in {
                Some(s) => Some(s@),
                None => None,
            },
        ),
{
    let mut r: Vec<String> = types::copied(&d.notes);
    let head = headroom_of(d.margin);
    let n = decimal::decimal(d.context as u64);
    let mut outcome: Option<String> = None;
    if d.placement == Placement::Gpu {
        if d.context == requested {
            let mut s = "Every layer fits on the GPU at the full ".to_owned();
            s.append(&n);
            s.append("-token context with a ");
            s.append(&d.cache);
            s.append(" cache");
            s.append(&head);
            s.append(", measured by the runtime's own memory fit.");
            outcome = Some(s);
        } else {
            let mut s = "Context set to ".to_owned();
            s.append(&n);
            s.append(" tokens with a ");
            s.append(&d.cache);
            s.append(" cache");
            s.append(&head);
            s.append(
                ": the largest size at which every layer stays on the GPU, measured by the runtime's own memory fit (the header estimate allowed ",
            );
            let e = decimal::decimal(estimated as u64);
            s.append(&e);
            s.append(
                "). The saved preference is unchanged; a smaller model or quantization allows more.",
            );
            outcome = Some(s);
        }
    } else if d.margin < 1024 || !text::same(&d.cache, "f16") {
        let mut s = "Cache ".to_owned();
        s.append(&d.cache);
        s.append(&head);
        s.append(": the combination that puts the most of this model on the GPU.");
        outcome = Some(s);
    }
    if let Some(note) = outcome {
        let ghost was = r@;
        let ghost shown = note@;
        r.push(note);
        assert(types::texts(r@) =~= types::texts(was).push(shown));
    }
    if let Some(seconds) = confirmed_in {
        let mut s =
            "This placement was found by an earlier fit search for this model on this machine and confirmed with one check at load (".to_owned();
        s.append(seconds);
        s.append(" s) instead of searching again.");
        let ghost was = r@;
        let ghost shown = s@;
        r.push(s);
        assert(types::texts(r@) =~= types::texts(was).push(shown));
    }
    r
}

/// `after` is `before` with a fit decision written into it.
pub open spec fn fit_applied(
    before: InferenceConfig,
    after: InferenceConfig,
    decision: FitDecision,
    requested: u32,
    confirmed_in: Option<Seq<char>>,
    drafting: Drafting,
) -> bool {
    let head_off = turns_head_off(decision, before, drafting);
    let parts = note_parts(
        decision,
        requested,
        before.n_ctx,
        confirmed_in,
    );
    let fitted = text::joined(parts, " "@);
    &&& after.n_ctx == decision.context
    &&& after.kv_cache_type_k@ == decision.cache@
    &&& after.kv_cache_type_v@ == decision.cache@
    &&& after.fit_target_mib == Some(decision.margin)
    &&& after.micro_batch == decision.micro_batch
    &&& after.speculative@ == (if head_off {
        drafting.plain@
    } else {
        before.speculative@
    })
    &&& after.spec_draft_n_max == (if head_off {
        None
    } else {
        before.spec_draft_n_max
    })
    &&& after.runtime_policy is Some == before.runtime_policy is Some
    &&& before.runtime_policy matches Some(p) ==> {
        let q = after.runtime_policy->0;
        &&& q.effective_context == decision.context
        &&& q.cache_type_k@ == decision.cache@
        &&& q.cache_type_v@ == decision.cache@
        &&& q.placement@ == fit::placement_name(decision.placement)
        &&& q.speculative@ == (if head_off {
            drafting.plain@
        } else {
            p.speculative@
        })
        &&& q.spec_draft_n_max == (if head_off {
            None
        } else {
            p.spec_draft_n_max
        })
        &&& q.threads == p.threads
        &&& match q.context_note {
            Some(note) => (decision.context < requested || decision.placement
                != Placement::Gpu) && fitted.len() > 0 && note@ == fitted,
            None => !((decision.context < requested || decision.placement
                != Placement::Gpu) && fitted.len() > 0),
        }
        &&& types::texts(q.notes@) == policy_notes(
            types::texts(p.notes@),
            head_off,
            fitted,
            decision.micro_batch_note,
        )
    }
    &&& after == (InferenceConfig {
        n_ctx: after.n_ctx,
        kv_cache_type_k: after.kv_cache_type_k,
        kv_cache_type_v: after.kv_cache_type_v,
        fit_target_mib: after.fit_target_mib,
        micro_batch: after.micro_batch,
        speculative: after.speculative,
        spec_draft_n_max: after.spec_draft_n_max,
        runtime_policy: after.runtime_policy,
        ..before
    })
}

/// A load runs with the window, the cache and the headroom that were found to
/// fit, and its explanation says so. It keeps everything else that it was set up
/// with: the file, the threads, the layers; and it drafts as before unless the
/// fit took the draft head away.
pub proof fn law_a_fitted_load_runs_as_decided(
    before: InferenceConfig,
    after: InferenceConfig,
    decision: FitDecision,
    requested: u32,
    confirmed_in: Option<Seq<char>>,
    drafting: Drafting,
)
    requires
        fit_applied(before, after, decision, requested, confirmed_in, drafting),
    ensures
        after.n_ctx == decision.context,
        after.kv_cache_type_k@ == decision.cache@ && after.kv_cache_type_v@ == decision.cache@,
        after.fit_target_mib == Some(decision.margin),
        after.micro_batch == decision.micro_batch,
        !decision.draft_head_dropped ==> after.speculative@ == before.speculative@
            && after.spec_draft_n_max == before.spec_draft_n_max,
        decision.draft_head_dropped && before.speculative@ == drafting.draft_head@
            ==> after.speculative@ == drafting.plain@ && after.spec_draft_n_max is None,
        after.model_path == before.model_path && after.projector_path == before.projector_path,
        after.n_batch == before.n_batch && after.n_threads == before.n_threads
            && after.n_threads_batch == before.n_threads_batch && after.n_gpu_layers
            == before.n_gpu_layers,
        after.flash_attn == before.flash_attn && after.kv_cache_gpu == before.kv_cache_gpu
            && after.top_k == before.top_k && after.chat_template == before.chat_template,
        before.runtime_policy is Some <==> after.runtime_policy is Some,
        before.runtime_policy is Some ==> {
            let (p, q) = (before.runtime_policy->0, after.runtime_policy->0);
            &&& q.effective_context == decision.context && q.threads == p.threads
            &&& q.cache_type_k@ == decision.cache@ && q.cache_type_v@ == decision.cache@
            &&& decision.context >= requested && decision.placement == Placement::Gpu
                ==> q.context_note is None
        },
{
}

/// Writes a fit decision, searched now or remembered, into the load's
/// configuration and its explanation. `confirmed_in` is how many seconds the
/// one probe took where the decision was remembered.
pub fn apply_fit_decision(
    decision: &FitDecision,
    requested: u32,
    cfg: &mut InferenceConfig,
    confirmed_in: Option<&str>,
    drafting: &Drafting,
)
    ensures
        fit_applied(
            *old(cfg),
            *final(cfg),
            *decision,
            requested,
            match confirmed_in {
                Some(s) => Some(s@),
                None => None,
            },
            *drafting,
        ),
{
    let head_off = decision.draft_head_dropped && text::same(
        &cfg.speculative,
        &drafting.draft_head,
    );
    let parts = note_parts_of(decision, requested, cfg.n_ctx, confirmed_in);
    let fitted = text::join(&parts, " ");
    if head_off {
        cfg.speculative = drafting.plain.clone();
        cfg.spec_draft_n_max = None;
    }
    cfg.n_ctx = decision.context;
    cfg.kv_cache_type_k = decision.cache.clone();
    cfg.kv_cache_type_v = decision.cache.clone();
    cfg.fit_target_mib = Some(decision.margin);
    cfg.micro_batch = decision.micro_batch;
    let policy = cfg.runtime_policy.take();
    if let Some(p) = policy {
        let mut q = p;
        let ghost before = types::texts(q.notes@);
        if head_off {
            q.speculative = drafting.plain.clone();
            q.spec_draft_n_max = None;
            drop_notes(&mut q.notes, &["This model carries a built-in draft head"]);
            assert(["This model carries a built-in draft head"]@.map_values(|s: &str| s@)
                =~= seq!["This model carries a built-in draft head"@]);
        }
        q.effective_context = decision.context;
        q.cache_type_k = decision.cache.clone();
        q.cache_type_v = decision.cache.clone();
        q.placement = fit::placement_text(decision.placement).to_owned();
        let shown = !fitted.as_str().is_empty();
        q.context_note =
        if (decision.context < requested || decision.placement != Placement::Gpu) && shown {
            Some(fitted.clone())
        } else {
            None
        };
        drop_notes(&mut q.notes, &["Context reduced", "Context kept at", "The weights ("]);
        assert(["Context reduced", "Context kept at", "The weights ("]@.map_values(|s: &str| s@)
            =~= replaced_notes());
        if shown {
            let ghost was = q.notes@;
            let ghost note = fitted@;
            q.notes.push(fitted);
            assert(types::texts(q.notes@) =~= types::texts(was).push(note));
        }
        if let Some(note) = &decision.micro_batch_note {
            let ghost was = q.notes@;
            q.notes.push(note.clone());
            assert(types::texts(q.notes@) =~= types::texts(was).push(note@));
        }
        cfg.runtime_policy = Some(q);
    }
}

// ---- what a load waits for and says --------------------------------------------------------------------

/// A change of model waits for a reply that is being generated, forced or not,
/// and for active runs unless it is forced; it waits for nothing else. The runs
/// that it waits for are told, how many and which.
pub proof fn law_no_work_is_ended_silently(chat_active: bool, live: Seq<Seq<char>>, force: bool)
    ensures
        busy_refusal(chat_active, live, force) is None <==> !chat_active && (live.len() == 0
            || force),
        !chat_active && live.len() > 0 && !force ==> {
            let told = busy_refusal(chat_active, live, force)->0.message;
            &&& decimal::digits(live.len()).is_prefix_of(told)
            &&& text::joined(live, ", "@).is_suffix_of(told)
        },
{
    if !chat_active && live.len() > 0 && !force {
        let told = busy_refusal(chat_active, live, force)->0.message;
        let (n, ids) = (decimal::digits(live.len()), text::joined(live, ", "@));
        assert(n =~= told.subrange(0, n.len() as int));
        assert(ids =~= told.subrange(told.len() - ids.len(), told.len() as int));
    }
}

/// A window that the model does not support is told, exactly where it was asked
/// for, with the model's name and its limit; a limit that is not known limits
/// nothing.
pub proof fn law_a_cut_window_is_told(model: Seq<char>, requested: u32, limit: u32)
    ensures
        limit_notice(model, requested, limit) is Some <==> 0 < limit < requested,
        limit_notice(model, requested, limit) matches Some(notice) ==> (model
            + " supports at most "@ + decimal::grouped(decimal::digits(limit as nat))).is_prefix_of(
            notice,
        ),
{
    if let Some(notice) = limit_notice(model, requested, limit) {
        let head = model + " supports at most "@ + decimal::grouped(decimal::digits(limit as nat));
        assert(head =~= notice.subrange(0, head.len() as int));
    }
}

proof fn lemma_kept_first(notes: Seq<Seq<char>>, note: Seq<char>, starts: Seq<Seq<char>>, n: int)
    requires
        0 <= n <= notes.len(),
    ensures
        kept_notes(notes.push(note), starts, n) == kept_notes(notes, starts, n),
    decreases n,
{
    if n > 0 {
        lemma_kept_first(notes, note, starts, n - 1);
    }
}

/// Of the notes exactly those go that begin with one of the texts; the others
/// stay as they are, in their order.
pub proof fn law_only_notes_that_begin_so_go(
    notes: Seq<Seq<char>>,
    note: Seq<char>,
    starts: Seq<Seq<char>>,
)
    ensures
        (exists|k: int| 0 <= k < starts.len() && (#[trigger] starts[k]).is_prefix_of(note))
            ==> without_notes(notes.push(note), starts) == without_notes(notes, starts),
        (forall|k: int| 0 <= k < starts.len() ==> !(#[trigger] starts[k]).is_prefix_of(note))
            ==> without_notes(notes.push(note), starts) == without_notes(notes, starts).push(note),
        without_notes(Seq::empty(), starts) == Seq::<Seq<char>>::empty(),
{
    lemma_kept_first(notes, note, starts, notes.len() as int);
    assert forall|k: int| 0 <= k < starts.len() implies (#[trigger] starts[k]).is_prefix_of(note)
        == text::begins(note, starts[k]) by {}
}

/// The policy's notes keep what a fit does not replace, with the fit's own note
/// and then that on its batches behind; without a note of the fit none is added.
pub proof fn law_a_fit_adds_its_notes(
    notes: Seq<Seq<char>>,
    head_off: bool,
    fitted: Seq<char>,
    micro: String,
)
    ensures
        ({
            let bare = policy_notes(notes, head_off, Seq::empty(), None);
            &&& fitted.len() > 0 ==> policy_notes(notes, head_off, fitted, None) == bare.push(fitted)
            &&& policy_notes(notes, head_off, fitted, Some(micro)) == policy_notes(
                notes,
                head_off,
                fitted,
                None,
            ).push(micro@)
            &&& !head_off ==> bare == without_notes(
                notes,
                seq!["Context reduced"@, "Context kept at"@, "The weights ("@],
            )
        }),
{
}

/// What is said of a fit is said where there is anything to say: that every layer
/// is on the GPU always, with the window it has; of a partial fit only where it
/// took less headroom or another cache than usual. The notes of the search come
/// first, and a remembered fit says that it was confirmed.
pub proof fn law_a_fit_is_explained(
    d: FitDecision,
    requested: u32,
    estimated: u32,
    seconds: Seq<char>,
)
    ensures
        outcome_note(d, requested, estimated) is Some <==> d.placement == Placement::Gpu || d.margin
            < 1024 || d.cache@ != "f16"@,
        d.placement == Placement::Gpu && d.context == requested
            ==> ("Every layer fits on the GPU at the full "@ + decimal::digits(
            d.context as nat,
        )).is_prefix_of(outcome_note(d, requested, estimated)->0),
        d.placement == Placement::Gpu && d.context != requested ==> ("Context set to "@
            + decimal::digits(d.context as nat)).is_prefix_of(
            outcome_note(d, requested, estimated)->0,
        ),
        types::texts(d.notes@).is_prefix_of(note_parts(d, requested, estimated, None)),
        note_parts(d, requested, estimated, Some(seconds)) == note_parts(
            d,
            requested,
            estimated,
            None,
        ).push(confirmed_note(seconds)),
        outcome_note(d, requested, estimated) matches Some(note) ==> note_parts(
            d,
            requested,
            estimated,
            None,
        ).last() == note,
{
    if d.placement == Placement::Gpu {
        let note = outcome_note(d, requested, estimated)->0;
        let head = (if d.context == requested {
            "Every layer fits on the GPU at the full "@
        } else {
            "Context set to "@
        }) + decimal::digits(d.context as nat);
        assert(head =~= note.subrange(0, head.len() as int));
    }
    let notes = types::texts(d.notes@);
    let parts = note_parts(d, requested, estimated, None);
    assert(notes =~= parts.subrange(0, notes.len() as int));
}

/// Headroom is told exactly where it is less than the runtime leaves by itself.
pub proof fn law_less_headroom_is_told(margin: u32)
    ensures
        headroom(margin).len() == 0 <==> margin >= 1024,
        margin < 1024 ==> (" and "@ + decimal::digits(margin as nat)).is_prefix_of(headroom(margin)),
{
    reveal_strlit(" and ");
    if margin < 1024 {
        let head = " and "@ + decimal::digits(margin as nat);
        assert(head =~= headroom(margin).subrange(0, head.len() as int));
        assert(headroom(margin).len() >= 5);
    }
}

} // verus!
