//! Starting the runtime with a model: what stops it, how the free memory is
//! shared out, how the model's way of calling tools is settled, and what the
//! person loading is told.
use vstd::prelude::*;

use crate::calibrate;
use crate::calibrate::Profile;
use crate::decimal;
use crate::error;
use crate::error::{ApiError, Refusal};
use crate::fit::Fit;
use crate::load::{InferenceConfig, RuntimePolicy};
use crate::num;
use crate::text;
use crate::types;

verus! {

/// Why a load cannot begin once no work is under way: the file is missing, or
/// the runtime is.
pub open spec fn start_refusal(
    file_there: bool,
    path: Seq<char>,
    runtime_error: Option<Seq<char>>,
) -> Option<Refusal> {
    if !file_there {
        Some(
            error::missing(
                "GGUF not found: "@ + path + ". Add the file under models/<id>/model.gguf."@,
            ),
        )
    } else {
        match runtime_error {
            Some(e) => Some(
                Refusal {
                    status: 503,
                    message: e,
                    hint: "The model is fine; the app needs its llama.cpp runtime first."@,
                },
            ),
            None => None,
        }
    }
}

/// Whether a load can begin: the model file is there, and so is the runtime.
pub fn admit_start(file_there: bool, path: &str, runtime_error: Option<&str>) -> (r: Result<
    (),
    ApiError,
>)
    ensures
        error::refusal_of(r) == start_refusal(
            file_there,
            path@,
            match runtime_error {
                Some(e) => Some(e@),
                None => None,
            },
        ),
{
    if !file_there {
        let mut m = "GGUF not found: ".to_owned();
        m.append(path);
        m.append(". Add the file under models/<id>/model.gguf.");
        return Err(ApiError::not_found(&m));
    }
    match runtime_error {
        Some(e) => Err(
            ApiError::new(
                503,
                e,
                "The model is fine; the app needs its llama.cpp runtime first.",
            ),
        ),
        None => Ok(()),
    }
}

/// What the runtime says of its devices.
#[derive(Clone, Copy, Debug, PartialEq, Eq, Structural)]
pub enum Devices {
    Available,
    Absent,
    Unknown,
}

/// The runtime fits the model itself.
pub open spec fn fits_itself(auto: bool, devices: Devices) -> bool {
    auto && devices == Devices::Available
}

/// A calibration is looked up.
pub open spec fn looks_up(known_model: bool, profile_chosen: bool, fit_applies: bool) -> bool {
    known_model && (profile_chosen || fit_applies)
}

/// Fits are prepared ahead of loads.
pub open spec fn prepares(
    auto: bool,
    runtime_there: bool,
    tool_there: bool,
    running: bool,
    devices: Devices,
) -> bool {
    auto && runtime_there && tool_there && !running && devices == Devices::Available
}

/// The search over the models goes on.
pub open spec fn goes_on(cancelled: bool, running: bool, runtime_free: bool) -> bool {
    !cancelled && !running && runtime_free
}

/// The model's tools are checked.
pub open spec fn is_due(state: ProfileState) -> bool {
    state != ProfileState::Current
}

/// The runtime places a model itself only where the user leaves that to it and
/// there is a device to place it on; what the user sets is never overridden, and
/// fits are prepared only where they would be used. Nothing is searched for while
/// a model runs, once it was cancelled or while the runtime is taken.
pub proof fn law_what_is_set_is_not_overridden(
    auto: bool,
    devices: Devices,
    there: bool,
    tool: bool,
    running: bool,
    cancelled: bool,
    free: bool,
)
    ensures
        !fits_itself(false, devices),
        devices != Devices::Available ==> !fits_itself(auto, devices),
        fits_itself(true, Devices::Available),
        prepares(auto, there, tool, running, devices) ==> fits_itself(auto, devices) && !running
            && there && tool,
        prepares(true, true, true, false, Devices::Available),
        goes_on(cancelled, running, free) <==> !cancelled && !running && free,
{
}

/// A calibration is looked up only for a model that is known, and where anything
/// of it would be used; the tools of a model are checked unless a check that still
/// holds is saved.
pub proof fn law_what_is_looked_up(known_model: bool, chosen: bool, applies: bool)
    ensures
        !looks_up(false, chosen, applies),
        !looks_up(known_model, false, false),
        looks_up(true, true, applies),
        looks_up(true, chosen, true),
        is_due(ProfileState::Absent) && is_due(ProfileState::Stale) && !is_due(
            ProfileState::Current,
        ),
{
}

/// The runtime fits the model itself: on automatic, with a device.
pub fn fit_applies(auto: bool, devices: Devices) -> (r: bool)
    ensures
        r == fits_itself(auto, devices),
{
    match devices {
        Devices::Available => auto,
        _ => false,
    }
}

/// A calibration is looked up for a known model when a profile is chosen or
/// the runtime's fit applies.
pub fn reads_calibration(known_model: bool, profile_chosen: bool, fit_applies: bool) -> (r: bool)
    ensures
        r == looks_up(known_model, profile_chosen, fit_applies),
{
    known_model && (profile_chosen || fit_applies)
}

/// `after` is `before` with one note more, where there is a policy to note it.
pub open spec fn noted(before: InferenceConfig, after: InferenceConfig, note: Seq<char>) -> bool {
    &&& after == InferenceConfig { runtime_policy: after.runtime_policy, ..before }
    &&& match (before.runtime_policy, after.runtime_policy) {
        (None, None) => true,
        (Some(p), Some(q)) => q == (RuntimePolicy { notes: q.notes, ..p }) && types::texts(q.notes@)
            == types::texts(p.notes@).push(note),
        _ => false,
    }
}

/// Adds a note to the policy, where there is one.
pub fn add_note(cfg: &mut InferenceConfig, note: String)
    ensures
        noted(*old(cfg), *final(cfg), note@),
{
    match cfg.runtime_policy.take() {
        Some(mut policy) => {
            let ghost before = policy.notes@;
            policy.notes.push(note);
            assert(types::texts(policy.notes@) =~= types::texts(before).push(note@));
            cfg.runtime_policy = Some(policy);
        },
        None => {},
    }
}

/// A load with the chosen profile of a known model's calibration, noted; as it
/// was where no profile is chosen.
pub open spec fn profile_used(
    before: InferenceConfig,
    after: InferenceConfig,
    profile: Option<&str>,
    known_model: bool,
    calibration: Option<(Seq<Profile>, bool)>,
) -> bool {
    match profile {
        Some(name) if known_model => {
            let (with, note) = calibrate::with_calibration(before, name@, calibration);
            noted(with, after, note)
        },
        _ => after == before,
    }
}

/// Uses the chosen profile of a known model's calibration, and notes what was
/// done.
pub fn use_profile(
    cfg: &mut InferenceConfig,
    profile: Option<&str>,
    known_model: bool,
    calibration: Option<(&[Profile], bool)>,
)
    ensures
        profile_used(
            *old(cfg),
            *final(cfg),
            profile,
            known_model,
            calibrate::calibration_view(calibration),
        ),
{
    if let Some(name) = profile {
        if known_model {
            let note = calibrate::apply_calibrated_profile(name, calibration, cfg);
            add_note(cfg, note);
        }
    }
}

/// What is said of shorter drafts.
pub open spec fn draft_note(prefix: Seq<char>, length: u32) -> Seq<char> {
    prefix + " of at most "@ + decimal::digits(length as nat)
        + " tokens: with part of the model in RAM, a rejected long draft costs a verification step on the CPU (measured on a mixture-of-experts model: file rewrites 42% faster than the runtime's default of 48, prose unchanged). Models fully on the GPU keep the default, which measured marginally faster there."@
}

/// Shortens n-gram drafts to `length` tokens and notes why; `prefix` is how
/// such a note begins.
pub fn shorten_drafts(cfg: &mut InferenceConfig, prefix: &str, length: u32)
    ensures
        noted(
            (InferenceConfig { spec_ngram_length: Some(length), ..*old(cfg) }),
            *final(cfg),
            draft_note(prefix@, length),
        ),
{
    cfg.spec_ngram_length = Some(length);
    let mut note = prefix.to_owned();
    note.append(" of at most ");
    let n = decimal::decimal(length as u64);
    note.append(&n);
    note.append(
        " tokens: with part of the model in RAM, a rejected long draft costs a verification step on the CPU (measured on a mixture-of-experts model: file rewrites 42% faster than the runtime's default of 48, prose unchanged). Models fully on the GPU keep the default, which measured marginally faster there.",
    );
    add_note(cfg, note);
}

/// What stays in RAM, in words.
pub open spec fn ram_part(fit: Fit) -> Seq<char> {
    match fit {
        Fit::ExpertsOnCpu { .. } => "expert weights"@,
        _ => "layers"@,
    }
}

/// What is said of a load into pinned memory.
pub open spec fn pinned_note(
    prefix: Seq<char>,
    fit: Fit,
    file_gb: Seq<char>,
    free_gb: Seq<char>,
) -> Seq<char> {
    prefix + ": the runtime is asked to read the "@ + ram_part(fit)
        + " that stay in RAM into pinned memory instead of mapping them from the "@ + file_gb
        + " GB file, so the GPU copies them faster while reading prompts (measured on a mixture-of-experts model: about 48% faster prompt reading at the same generation speed, 0.1 s longer start). Free RAM ("@
        + free_gb
        + " GB) holds the copy with at least 4 GB to spare. If pinned memory cannot be allocated the runtime uses ordinary memory."@
}

/// Loads into pinned memory instead of mapping the file, where that is wanted
/// and the runtime knows the argument, and notes it; the sizes are given as
/// they are shown.
pub fn load_pinned(
    cfg: &mut InferenceConfig,
    fit: &Fit,
    wanted: bool,
    supported: bool,
    prefix: &str,
    file_gb: &str,
    free_gb: &str,
)
    ensures
        !(wanted && supported) ==> *final(cfg) == *old(cfg),
        wanted && supported ==> noted(
            (InferenceConfig { load_without_mmap: true, ..*old(cfg) }),
            *final(cfg),
            pinned_note(prefix@, *fit, file_gb@, free_gb@),
        ),
{
    if wanted && supported {
        cfg.load_without_mmap = true;
        let mut note = prefix.to_owned();
        note.append(": the runtime is asked to read the ");
        let part = match fit {
            Fit::ExpertsOnCpu { .. } => "expert weights",
            _ => "layers",
        };
        note.append(part);
        note.append(" that stay in RAM into pinned memory instead of mapping them from the ");
        note.append(file_gb);
        note.append(
            " GB file, so the GPU copies them faster while reading prompts (measured on a mixture-of-experts model: about 48% faster prompt reading at the same generation speed, 0.1 s longer start). Free RAM (",
        );
        note.append(free_gb);
        note.append(
            " GB) holds the copy with at least 4 GB to spare. If pinned memory cannot be allocated the runtime uses ordinary memory.",
        );
        add_note(cfg, note);
    }
}

/// How a load is tuned to the fit it gets.
#[derive(Debug, PartialEq, Eq)]
pub struct Tuning {
    /// The tokens that n-gram drafts are kept to, where they are.
    pub draft_length: Option<u32>,
    pub draft_prefix: String,
    /// The fit keeps weights in RAM that has room for a copy of them.
    pub pinned: bool,
    /// The runtime can load without mapping the file.
    pub pinned_supported: bool,
    pub pinned_prefix: String,
    pub file_gb: String,
    pub free_gb: String,
}

/// `after` is `before` tuned to the fit: shorter drafts first, then pinned
/// memory, each noted.
pub open spec fn tuned(
    before: InferenceConfig,
    after: InferenceConfig,
    fit: Fit,
    t: Tuning,
) -> bool {
    exists|mid: InferenceConfig|
        #![trigger drafts_kept(before, mid, t)]
        drafts_kept(before, mid, t) && if t.pinned && t.pinned_supported {
            noted(
                (InferenceConfig { load_without_mmap: true, ..mid }),
                after,
                pinned_note(t.pinned_prefix@, fit, t.file_gb@, t.free_gb@),
            )
        } else {
            after == mid
        }
}

/// `after` is `before` with the drafts that the tuning asks for.
pub open spec fn drafts_kept(before: InferenceConfig, after: InferenceConfig, t: Tuning) -> bool {
    match t.draft_length {
        Some(length) => noted(
            (InferenceConfig { spec_ngram_length: Some(length), ..before }),
            after,
            draft_note(t.draft_prefix@, length),
        ),
        None => after == before,
    }
}

/// Tunes a load to the fit that the runtime gave it; without a fit it stays as
/// it is.
pub fn tune_for_fit(cfg: &mut InferenceConfig, fit: Option<Fit>, t: &Tuning)
    ensures
        match fit {
            Some(fit) => tuned(*old(cfg), *final(cfg), fit, *t),
            None => *final(cfg) == *old(cfg),
        },
{
    if let Some(fit) = fit {
        if let Some(length) = t.draft_length {
            shorten_drafts(cfg, &t.draft_prefix, length);
        }
        assert(drafts_kept(*old(cfg), *cfg, *t));
        load_pinned(
            cfg,
            &fit,
            t.pinned,
            t.pinned_supported,
            &t.pinned_prefix,
            &t.file_gb,
            &t.free_gb,
        );
    }
}

/// The model's memory that lives in RAM, by where its layers are: nothing on
/// the GPU; what the fit keeps there, or half the weights without a fit, and
/// the cache, when they are split; everything otherwise.
pub open spec fn ram_side(
    placement: Seq<char>,
    fit_bytes: Option<u64>,
    weights: u64,
    cache: int,
) -> int {
    if placement == "gpu"@ {
        0
    } else if placement == "hybrid"@ {
        match fit_bytes {
            Some(b) => b + cache,
            None => weights as int / 2 + cache,
        }
    } else {
        weights + cache
    }
}

/// The bytes of the cache for a context.
pub open spec fn cache_bytes(per_token: u64, n_ctx: u32) -> int {
    num::lesser(per_token * n_ctx, u64::MAX as int)
}

/// The model's memory that lives in RAM; `fit_bytes` is what the runtime's fit
/// keeps there, where it was asked.
pub fn model_ram(
    placement: &str,
    fit_bytes: Option<u64>,
    weights: u64,
    per_token: u64,
    n_ctx: u32,
) -> (r: u64)
    requires
        ram_side(placement@, fit_bytes, weights, cache_bytes(per_token, n_ctx)) <= u64::MAX,
    ensures
        r == ram_side(placement@, fit_bytes, weights, cache_bytes(per_token, n_ctx)),
{
    proof {
        assert(0 <= per_token * n_ctx <= 0xffff_ffff_ffff_ffff * 0xffff_ffff) by (nonlinear_arith)
            requires
                0 <= per_token <= 0xffff_ffff_ffff_ffff,
                0 <= n_ctx <= 0xffff_ffff,
        ;
    }
    let wide: u128 = per_token as u128 * n_ctx as u128;
    let cache: u64 = if wide > u64::MAX as u128 { u64::MAX } else { wide as u64 };
    if text::same(placement, "gpu") {
        0
    } else if text::same(placement, "hybrid") {
        match fit_bytes {
            Some(b) => b + cache,
            None => weights / 2 + cache,
        }
    } else {
        weights + cache
    }
}

/// What is said of the prompt cache.
pub open spec fn cache_note(mib: u64) -> Seq<char> {
    if mib == 0 {
        "The RAM prompt cache is off: free RAM is needed for the model itself. Switching conversations re-reads their history."@
    } else {
        "Prompt cache in RAM: up to "@ + decimal::digits(mib as nat)
            + " MiB (llama.cpp's default is 8192), sized from the free RAM at load so that switching conversations cannot push the model into paging."@
    }
}

/// Sets the size of the prompt cache and notes it.
pub fn set_prompt_cache(cfg: &mut InferenceConfig, mib: u64)
    ensures
        noted(
            (InferenceConfig { cache_ram_mib: Some(mib), ..*old(cfg) }),
            *final(cfg),
            cache_note(mib),
        ),
{
    cfg.cache_ram_mib = Some(mib);
    let note = if mib == 0 {
        "The RAM prompt cache is off: free RAM is needed for the model itself. Switching conversations re-reads their history.".to_owned()
    } else {
        let mut s = "Prompt cache in RAM: up to ".to_owned();
        let n = decimal::decimal(mib);
        s.append(&n);
        s.append(
            " MiB (llama.cpp's default is 8192), sized from the free RAM at load so that switching conversations cannot push the model into paging.",
        );
        s
    };
    add_note(cfg, note);
}

/// A text on its own, or nothing.
pub open spec fn just(t: Option<String>) -> Seq<Seq<char>> {
    match t {
        Some(s) => seq![s@],
        None => Seq::empty(),
    }
}

/// Everything the person loading the model should be told, in order: a
/// fallback, a context cut, a chat format.
pub fn load_notices(
    fallback: Option<String>,
    context: Option<String>,
    format: Option<String>,
) -> (v: Vec<String>)
    ensures
        types::texts(v@) == just(fallback) + just(context) + just(format),
{
    let mut v: Vec<String> = Vec::new();
    if let Some(s) = fallback {
        v.push(s);
    }
    if let Some(s) = context {
        v.push(s);
    }
    if let Some(s) = format {
        v.push(s);
    }
    assert(types::texts(v@) =~= just(fallback) + just(context) + just(format));
    v
}

/// A text without the prefix, however often it stands there.
pub open spec fn without_prefix(s: Seq<char>, p: Seq<char>) -> Seq<char>
    decreases s.len(),
{
    if p.len() > 0 && text::begins(s, p) {
        without_prefix(s.skip(p.len() as int), p)
    } else {
        s
    }
}

/// A prefix of the rest stands where the rest begins.
proof fn lemma_begins_rest(s: Seq<char>, p: Seq<char>, at: int)
    requires
        0 <= at <= s.len(),
    ensures
        text::begins(s.skip(at), p) == text::occurs_at(s, p, at),
{
    if at + p.len() <= s.len() {
        assert(s.skip(at).subrange(0, p.len() as int) =~= s.subrange(at, at + p.len()));
    }
}

/// A text without the prefix, however often it stands there.
pub fn strip_prefix(s: &str, p: &str) -> (r: String)
    ensures
        r@ == without_prefix(s@, p@),
{
    let v = text::chars_of(s);
    let w = text::chars_of(p);
    let n: usize = v.len();
    let mut at: usize = 0;
    assert(s@.skip(0) =~= s@);
    loop
        invariant
            v@ == s@,
            n == v@.len(),
            w@ == p@,
            at <= v@.len(),
            without_prefix(s@, p@) == without_prefix(s@.skip(at as int), p@),
        ensures
            without_prefix(s@, p@) == s@.skip(at as int),
        decreases v@.len() - at,
    {
        proof {
            lemma_begins_rest(s@, p@, at as int);
            if at + w@.len() <= v@.len() {
                assert(s@.skip(at as int).skip(w@.len() as int) =~= s@.skip(at + w@.len()));
            }
        }
        if w.len() == 0 || !text::stands_at(&v, &w, at) {
            break;
        }
        assert(at + w@.len() <= n);
        at = at + w.len();
    }
    let r = text::string_of(&v, at, n);
    assert(r@ =~= s@.skip(at as int));
    r
}

/// The refusal of a load that failed, in one plain sentence; `said` is what
/// the runtime said without its log lines.
pub fn load_failure(said: &str) -> (r: ApiError)
    ensures
        r@ == (Refusal {
            status: 500,
            message: without_prefix(said@, "Generation failed: "@),
            hint:
                "The runtime's own log lines are in the app log, which exported sessions include."@,
        }),
{
    let plain = strip_prefix(said, "Generation failed: ");
    ApiError::new(
        500,
        &plain,
        "The runtime's own log lines are in the app log, which exported sessions include.",
    )
}

/// Where a load stands once it was looked at: the stage to record, and the
/// refusal where it goes no further.
#[derive(Debug, PartialEq, Eq)]
pub struct Gate {
    pub stage: &'static str,
    pub detail: String,
    pub refusal: Option<ApiError>,
}

/// Where a load of a model stands.
pub open spec fn load_gated(busy: Option<ApiError>, cancelled: bool, g: Gate) -> bool {
    match busy {
        Some(e) => g.stage@ == "error"@ && g.detail@ == e.message@ && g.refusal == Some(e),
        None => if cancelled {
            &&& g.stage@ == "cancelled"@
            &&& g.detail@ == "Load cancelled by the user."@
            &&& g.refusal is Some
            &&& (g.refusal->0)@ == error::bad_request(
                "load cancelled"@,
                "The load was cancelled before starting."@,
            )
        } else {
            &&& g.stage@ == "loading"@
            &&& g.detail@ == "Loading model weights into the inference engine."@
            &&& g.refusal is None
        },
    }
}

/// Where a start of the runtime stands.
pub open spec fn start_gated(cancelled: bool, g: Gate) -> bool {
    if cancelled {
        &&& g.stage@ == "cancelled"@
        &&& g.detail@ == "Start cancelled by the user."@
        &&& g.refusal is Some
        &&& (g.refusal->0)@ == error::bad_request(
            "start cancelled"@,
            "Inference start was cancelled."@,
        )
    } else {
        &&& g.stage@ == "loading"@
        &&& g.detail@ == "Spawning llama-server and waiting for health."@
        &&& g.refusal is None
    }
}

/// Nothing is loaded while work is under way, which is told as it is, nor once
/// the load was cancelled; a load or a start that goes ahead shows as loading,
/// and only such a one does.
pub proof fn law_what_goes_ahead(busy: Option<ApiError>, cancelled: bool, g: Gate, h: Gate)
    requires
        load_gated(busy, cancelled, g),
        start_gated(cancelled, h),
    ensures
        g.refusal is None <==> busy is None && !cancelled,
        g.stage@ == "loading"@ <==> g.refusal is None,
        busy matches Some(e) ==> g.refusal == Some(e) && g.stage@ == "error"@,
        busy is None && cancelled ==> g.stage@ == "cancelled"@,
        h.refusal is None <==> !cancelled,
        h.stage@ == "loading"@ <==> h.refusal is None,
{
    reveal_strlit("loading");
    reveal_strlit("error");
    reveal_strlit("cancelled");
    assert("loading"@.len() == 7 && "error"@.len() == 5 && "cancelled"@.len() == 9);
}

/// Whether a load of a model goes ahead: not while work is under way, nor once
/// it was cancelled.
pub fn load_gate(busy: Option<ApiError>, cancelled: bool) -> (g: Gate)
    ensures
        load_gated(busy, cancelled, g),
{
    match busy {
        Some(e) => Gate {
            stage: "error",
            detail: e.message.as_str().to_owned(),
            refusal: Some(e),
        },
        None => {
            if cancelled {
                Gate {
                    stage: "cancelled",
                    detail: "Load cancelled by the user.".to_owned(),
                    refusal: Some(
                        ApiError::bad("load cancelled", "The load was cancelled before starting."),
                    ),
                }
            } else {
                Gate {
                    stage: "loading",
                    detail: "Loading model weights into the inference engine.".to_owned(),
                    refusal: None,
                }
            }
        },
    }
}

/// Whether a start of the runtime goes ahead: not once it was cancelled.
pub fn start_gate(cancelled: bool) -> (g: Gate)
    ensures
        start_gated(cancelled, g),
{
    if cancelled {
        Gate {
            stage: "cancelled",
            detail: "Start cancelled by the user.".to_owned(),
            refusal: Some(ApiError::bad("start cancelled", "Inference start was cancelled.")),
        }
    } else {
        Gate {
            stage: "loading",
            detail: "Spawning llama-server and waiting for health.".to_owned(),
            refusal: None,
        }
    }
}

/// What is shown of the engine.
#[derive(Debug, PartialEq, Eq)]
pub struct EngineStatus {
    pub engine: &'static str,
    pub model: Option<String>,
    pub context_size: u32,
    pub runtime_notice: Option<&'static str>,
}

/// What is shown of the engine: the runtime where it runs, with a notice where
/// nothing is on the GPU, else the stand-in, whose model is shown once loaded.
pub fn engine_status(
    running: Option<(u32, i32)>,
    current: Option<String>,
    stub_loaded: bool,
    stub_context: u32,
) -> (s: EngineStatus)
    ensures
        match running {
            Some((n_ctx, gpu_layers)) => {
                &&& s.engine@ == "llama-server"@
                &&& s.model == current
                &&& s.context_size == n_ctx
                &&& if gpu_layers == 0 {
                    s.runtime_notice is Some && s.runtime_notice->0@
                        == "Running on CPU. No dedicated GPU is required; responses may be slower."@
                } else {
                    s.runtime_notice is None
                }
            },
            None => {
                &&& s.engine@ == "stub"@
                &&& s.model == (if stub_loaded {
                    current
                } else {
                    None
                })
                &&& s.context_size == stub_context
                &&& s.runtime_notice is None
            },
        },
{
    match running {
        Some((n_ctx, gpu_layers)) => EngineStatus {
            engine: "llama-server",
            model: current,
            context_size: n_ctx,
            runtime_notice: if gpu_layers == 0 {
                Some("Running on CPU. No dedicated GPU is required; responses may be slower.")
            } else {
                None
            },
        },
        None => EngineStatus {
            engine: "stub",
            model: if stub_loaded { current } else { None },
            context_size: stub_context,
            runtime_notice: None,
        },
    }
}

// ---- how the model calls tools ------------------------------------------------------------------------

/// Whether a saved tool check still describes the model and the runtime.
#[derive(Clone, Copy, Debug, PartialEq, Eq, Structural)]
pub enum ProfileState {
    Current,
    Stale,
    Absent,
}

/// A load checks the model's tools unless a current check is saved.
pub fn checks_tools(state: ProfileState) -> (r: bool)
    ensures
        r == is_due(state),
{
    match state {
        ProfileState::Current => false,
        _ => true,
    }
}

/// The runtime build and the chat template that a check belongs to.
pub fn tooling_identity(runtime: &str, fingerprint: Option<&str>) -> (r: (String, String))
    ensures
        r.0@ == runtime@,
        r.1@ == (match fingerprint {
            Some(f) => f@,
            None => "none"@,
        }),
{
    (
        runtime.to_owned(),
        match fingerprint {
            Some(f) => f.to_owned(),
            None => "none".to_owned(),
        },
    )
}

/// Why a check ran.
pub open spec fn check_reason(state: ProfileState) -> Seq<char> {
    if state == ProfileState::Stale {
        "checked again because the check, the runtime or the model's chat template changed"@
    } else {
        "first load"@
    }
}

/// The notice after a check: what was found and in how many seconds, or why it
/// could not run.
pub fn tool_check_notice(state: ProfileState, outcome: Result<(&str, &str), &str>) -> (s: String)
    ensures
        s@ == (match outcome {
            Ok((seconds, summary)) => "Tool check ("@ + check_reason(state) + ", "@ + seconds@
                + " s): this model "@ + summary@ + "."@,
            Err(e) => "The tool check could not run ("@ + e@
                + "). Code sessions use the app's text format until it does; use Check again in the model's details."@,
        }),
{
    match outcome {
        Ok((seconds, summary)) => {
            let mut s = "Tool check (".to_owned();
            let why = match state {
                ProfileState::Stale =>
                    "checked again because the check, the runtime or the model's chat template changed",
                _ => "first load",
            };
            s.append(why);
            s.append(", ");
            s.append(seconds);
            s.append(" s): this model ");
            s.append(summary);
            s.append(".");
            s
        },
        Err(e) => {
            let mut s = "The tool check could not run (".to_owned();
            s.append(e);
            s.append(
                "). Code sessions use the app's text format until it does; use Check again in the model's details.",
            );
            s
        },
    }
}

/// Why a model cannot be checked again now.
pub open spec fn recheck_refusal(
    id: Seq<char>,
    known: bool,
    running: bool,
    loaded: Option<&str>,
    runtime_error: Option<&str>,
) -> Option<Refusal> {
    if !known {
        Some(error::missing("unknown model '"@ + id + "'"@))
    } else if !(running && loaded is Some && loaded->0@ == id) {
        Some(
            error::bad_request(
                "this model is not loaded"@,
                "The check runs on the loaded model. Load this model, then check again."@,
            ),
        )
    } else {
        match runtime_error {
            Some(e) => Some(
                error::bad_request("runtime not found: "@ + e@, "Build the runtime first."@),
            ),
            None => None,
        }
    }
}

/// Only the model that is loaded and running is checked, and only with the
/// runtime there: the outcome is never another model's.
pub proof fn law_only_the_loaded_model_is_checked(
    id: Seq<char>,
    known: bool,
    running: bool,
    loaded: Option<&str>,
    runtime_error: Option<&str>,
)
    ensures
        recheck_refusal(id, known, running, loaded, runtime_error) is None <==> known && running
            && loaded is Some && loaded->0@ == id && runtime_error is None,
{
}

/// Whether a model can be checked again now: it is known, it is the one that
/// is loaded and running, and the runtime is there.
pub fn admit_recheck(
    id: &str,
    known: bool,
    running: bool,
    loaded: Option<&str>,
    runtime_error: Option<&str>,
) -> (r: Result<(), ApiError>)
    ensures
        error::refusal_of(r) == recheck_refusal(id@, known, running, loaded, runtime_error),
{
    if !known {
        let mut m = "unknown model '".to_owned();
        m.append(id);
        m.append("'");
        return Err(ApiError::not_found(&m));
    }
    let is_loaded = match loaded {
        Some(l) => text::same(l, id),
        None => false,
    };
    if !(running && is_loaded) {
        return Err(
            ApiError::bad(
                "this model is not loaded",
                "The check runs on the loaded model. Load this model, then check again.",
            ),
        );
    }
    match runtime_error {
        Some(e) => {
            let mut m = "runtime not found: ".to_owned();
            m.append(e);
            Err(ApiError::bad(&m, "Build the runtime first."))
        },
        None => Ok(()),
    }
}

/// The refusal of a check that could not run.
pub fn recheck_failed(reason: &str) -> (r: ApiError)
    ensures
        r@ == (Refusal {
            status: 503,
            message: "the tool check could not run: "@ + reason@,
            hint: "Try again when the model is ready."@,
        }),
{
    let mut m = "the tool check could not run: ".to_owned();
    m.append(reason);
    ApiError::new(503, &m, "Try again when the model is ready.")
}

// ---- preparing fits ahead of loads ---------------------------------------------------------------------

/// The models in the order their fits are prepared: the default model first,
/// the others as they are.
pub open spec fn preparing_order(ids: Seq<Seq<char>>, default_model: Seq<char>) -> Seq<int> {
    indices_where(ids, default_model, true, ids.len() as int) + indices_where(
        ids,
        default_model,
        false,
        ids.len() as int,
    )
}

/// The positions among the first `n` whose id is, or is not, the given one.
pub open spec fn indices_where(ids: Seq<Seq<char>>, id: Seq<char>, is: bool, n: int) -> Seq<int>
    decreases n,
{
    if n <= 0 {
        Seq::empty()
    } else if (ids[n - 1] == id) == is {
        indices_where(ids, id, is, n - 1).push(n - 1)
    } else {
        indices_where(ids, id, is, n - 1)
    }
}

/// The positions whose id is, or is not, the given one.
fn positions(ids: &[String], id: &str, is: bool) -> (v: Vec<usize>)
    ensures
        v@.map_values(|i: usize| i as int) == indices_where(
            types::texts(ids@),
            id@,
            is,
            ids@.len() as int,
        ),
{
    let mut v: Vec<usize> = Vec::new();
    let mut i: usize = 0;
    assert(v@.map_values(|i: usize| i as int) =~= Seq::<int>::empty());
    while i < ids.len()
        invariant
            i <= ids@.len(),
            v@.map_values(|i: usize| i as int) == indices_where(
                types::texts(ids@),
                id@,
                is,
                i as int,
            ),
        decreases ids@.len() - i,
    {
        if text::same(&ids[i], id) == is {
            let ghost before = v@;
            v.push(i);
            assert(v@.map_values(|i: usize| i as int) =~= before.map_values(
                |i: usize| i as int,
            ).push(i as int));
        }
        i += 1;
    }
    v
}

/// The models in the order their fits are prepared.
pub fn preparation_order(ids: &[String], default_model: &str) -> (v: Vec<usize>)
    ensures
        v@.map_values(|i: usize| i as int) == preparing_order(types::texts(ids@), default_model@),
{
    let mut v = positions(ids, default_model, true);
    let rest = positions(ids, default_model, false);
    let ghost first = v@;
    let mut i: usize = 0;
    assert(first + rest@.take(0) =~= first);
    while i < rest.len()
        invariant
            i <= rest@.len(),
            v@ == first + rest@.take(i as int),
        decreases rest@.len() - i,
    {
        v.push(rest[i]);
        assert(rest@.take(i + 1) =~= rest@.take(i as int).push(rest@[i as int]));
        i += 1;
    }
    proof {
        assert(rest@.take(i as int) =~= rest@);
        assert((first + rest@).map_values(|i: usize| i as int) =~= first.map_values(
            |i: usize| i as int,
        ) + rest@.map_values(|i: usize| i as int));
    }
    v
}

/// Fits are prepared on automatic, with the runtime, its fitting tool and a
/// device there, and while no model is loaded.
pub fn prepares_fits(
    auto: bool,
    runtime_there: bool,
    tool_there: bool,
    running: bool,
    devices: Devices,
) -> (r: bool)
    ensures
        r == prepares(auto, runtime_there, tool_there, running, devices),
{
    match devices {
        Devices::Available => auto && runtime_there && tool_there && !running,
        _ => false,
    }
}

/// The asking for fits ahead of loads: whether a search over the models is
/// under way, and whether one was asked for since it began.
#[derive(Clone, Copy, Debug, PartialEq, Eq, Structural)]
pub struct Asking {
    pub running: bool,
    pub again: bool,
}

impl Asking {
    /// Asked for: a search begins, or the one under way goes over the models
    /// again when it ends.
    pub open spec fn asked(self) -> Asking {
        Asking { running: true, again: self.running }
    }

    /// A search over the models came to its end: it goes on where it was asked
    /// for again.
    pub open spec fn finished(self) -> Asking {
        Asking { running: self.again, again: false }
    }

    /// Nothing asked for.
    pub fn new() -> (a: Asking)
        ensures
            a == (Asking { running: false, again: false }),
    {
        Asking { running: false, again: false }
    }

    /// Asks for a search, and says whether one is to be begun.
    pub fn ask(&mut self) -> (begins: bool)
        ensures
            *final(self) == old(self).asked(),
            begins == !old(self).running,
    {
        let running = self.running;
        self.again = running;
        self.running = true;
        !running
    }

    /// Ends a search over the models, and says whether it goes over them again.
    pub fn end(&mut self) -> (goes_on: bool)
        ensures
            *final(self) == old(self).finished(),
            goes_on == old(self).again,
    {
        let again = self.again;
        self.running = again;
        self.again = false;
        again
    }
}

/// No request for fits is lost: whenever it comes, a search begins after it.
pub proof fn law_no_request_is_lost(a: Asking)
    ensures
        a.running ==> a.asked().again && a.asked().finished().running,
        !a.running ==> a.asked().running,
{
}

/// Whether the search goes on with its next model: nothing cancelled it, no
/// model runs, and neither a load nor a calibration is under way.
pub fn search_goes_on(cancelled: bool, running: bool, runtime_free: bool) -> (r: bool)
    ensures
        r == goes_on(cancelled, running, runtime_free),
{
    !cancelled && !running && runtime_free
}

// ---- what a start comes to --------------------------------------------------------------------------------

/// A load can begin exactly where the model's file and the runtime are there; a
/// missing file is told by its path, a missing runtime by its reason, and the
/// file first.
pub proof fn law_what_a_start_needs(
    file_there: bool,
    path: Seq<char>,
    runtime_error: Option<Seq<char>>,
)
    ensures
        start_refusal(file_there, path, runtime_error) is None <==> file_there && runtime_error
            is None,
        !file_there ==> start_refusal(file_there, path, runtime_error)->0.status == 404
            && ("GGUF not found: "@ + path).is_prefix_of(
            start_refusal(file_there, path, runtime_error)->0.message,
        ),
        file_there && runtime_error is Some ==> start_refusal(
            file_there,
            path,
            runtime_error,
        )->0.message == runtime_error->0 && start_refusal(file_there, path, runtime_error)->0.status
            == 503,
{
    if !file_there {
        let m = start_refusal(file_there, path, runtime_error)->0.message;
        let head = "GGUF not found: "@ + path;
        assert(head =~= m.subrange(0, head.len() as int));
    }
}

/// A note changes nothing but the notes: it comes last, where notes are kept,
/// and the load runs as it did.
pub proof fn law_a_note_changes_nothing_else(
    before: InferenceConfig,
    after: InferenceConfig,
    note: Seq<char>,
)
    requires
        noted(before, after, note),
    ensures
        after.n_ctx == before.n_ctx && after.model_path == before.model_path && after.n_gpu_layers
            == before.n_gpu_layers && after.n_threads == before.n_threads && after.n_batch
            == before.n_batch,
        after.speculative == before.speculative && after.load_without_mmap
            == before.load_without_mmap && after.spec_ngram_length == before.spec_ngram_length
            && after.cache_ram_mib == before.cache_ram_mib,
        after.runtime_policy is Some <==> before.runtime_policy is Some,
        before.runtime_policy is Some ==> {
            let (p, q) = (before.runtime_policy->0, after.runtime_policy->0);
            &&& types::texts(q.notes@).last() == note
            &&& types::texts(p.notes@).is_prefix_of(types::texts(q.notes@))
            &&& q.notes@.len() == p.notes@.len() + 1
            &&& q.effective_context == p.effective_context && q.placement == p.placement
                && q.threads == p.threads
        },
{
    if before.runtime_policy is Some {
        let (p, q) = (before.runtime_policy->0, after.runtime_policy->0);
        let (a, b) = (types::texts(p.notes@), types::texts(q.notes@));
        assert(a =~= b.subrange(0, a.len() as int));
        assert(b.len() == q.notes@.len());
        assert(a.len() == p.notes@.len());
    }
}

/// A load is tuned by what the tuning asks for and by nothing else: drafts are
/// shortened to the length named, the file is read into pinned memory where that
/// is wanted and can be done, and each is noted.
pub proof fn law_a_load_is_tuned_as_asked(
    before: InferenceConfig,
    after: InferenceConfig,
    fit: Fit,
    t: Tuning,
)
    requires
        tuned(before, after, fit, t),
    ensures
        t.draft_length matches Some(n) ==> after.spec_ngram_length == Some(n),
        t.draft_length is None ==> after.spec_ngram_length == before.spec_ngram_length,
        t.pinned && t.pinned_supported ==> after.load_without_mmap,
        !(t.pinned && t.pinned_supported) ==> after.load_without_mmap == before.load_without_mmap,
        after.n_ctx == before.n_ctx && after.model_path == before.model_path && after.n_gpu_layers
            == before.n_gpu_layers && after.speculative == before.speculative,
        before.runtime_policy is Some ==> after.runtime_policy is Some
            && after.runtime_policy->0.notes@.len() == before.runtime_policy->0.notes@.len() + (
        if t.draft_length is Some {
            1int
        } else {
            0
        }) + (if t.pinned && t.pinned_supported {
            1int
        } else {
            0
        }),
{
    let mid = choose|mid: InferenceConfig|
        #![trigger drafts_kept(before, mid, t)]
        drafts_kept(before, mid, t) && if t.pinned && t.pinned_supported {
            noted(
                (InferenceConfig { load_without_mmap: true, ..mid }),
                after,
                pinned_note(t.pinned_prefix@, fit, t.file_gb@, t.free_gb@),
            )
        } else {
            after == mid
        };
    assert(drafts_kept(before, mid, t));
    if before.runtime_policy is Some {
        let (p, m, q) = (
            before.runtime_policy->0,
            mid.runtime_policy->0,
            after.runtime_policy->0,
        );
        assert(types::texts(p.notes@).len() == p.notes@.len());
        assert(types::texts(m.notes@).len() == m.notes@.len());
        assert(types::texts(q.notes@).len() == q.notes@.len());
    }
}

/// The notes on drafts and pinned memory say what was set, behind their own
/// beginnings, by which they are found again.
pub proof fn law_tuning_notes_say_what_was_set(
    prefix: Seq<char>,
    length: u32,
    fit: Fit,
    file_gb: Seq<char>,
    free_gb: Seq<char>,
)
    ensures
        (prefix + " of at most "@ + decimal::digits(length as nat)).is_prefix_of(
            draft_note(prefix, length),
        ),
        prefix.is_prefix_of(pinned_note(prefix, fit, file_gb, free_gb)),
        text::holds(pinned_note(prefix, fit, file_gb, free_gb), file_gb),
        text::holds(pinned_note(prefix, fit, file_gb, free_gb), free_gb),
{
    let (d, p) = (draft_note(prefix, length), pinned_note(prefix, fit, file_gb, free_gb));
    let head = prefix + " of at most "@ + decimal::digits(length as nat);
    assert(head =~= d.subrange(0, head.len() as int));
    assert(prefix =~= p.subrange(0, prefix.len() as int));
    let a = prefix + ": the runtime is asked to read the "@ + ram_part(fit)
        + " that stay in RAM into pinned memory instead of mapping them from the "@;
    let b = a + file_gb
        + " GB file, so the GPU copies them faster while reading prompts (measured on a mixture-of-experts model: about 48% faster prompt reading at the same generation speed, 0.1 s longer start). Free RAM ("@;
    assert(p.subrange(a.len() as int, (a.len() + file_gb.len()) as int) =~= file_gb);
    assert(text::occurs_at(p, file_gb, a.len() as int));
    assert(p.subrange(b.len() as int, (b.len() + free_gb.len()) as int) =~= free_gb);
    assert(text::occurs_at(p, free_gb, b.len() as int));
}

/// A model on the GPU takes no RAM, one that is not takes all its weights and
/// its cache; a split one takes what its fit keeps there and the cache, and half
/// its weights where that is not known, never more than all of them.
pub proof fn law_what_a_model_takes_of_ram(
    placement: Seq<char>,
    fit_bytes: Option<u64>,
    weights: u64,
    cache: int,
)
    requires
        0 <= cache,
    ensures
        ram_side("gpu"@, fit_bytes, weights, cache) == 0,
        ram_side("hybrid"@, None, weights, cache) - cache <= weights,
        2 * (ram_side("hybrid"@, None, weights, cache) - cache) <= weights < 2 * (ram_side(
            "hybrid"@,
            None,
            weights,
            cache,
        ) - cache) + 2,
        fit_bytes matches Some(b) ==> ram_side("hybrid"@, fit_bytes, weights, cache) == b + cache,
        placement != "gpu"@ && placement != "hybrid"@ ==> ram_side(
            placement,
            fit_bytes,
            weights,
            cache,
        ) == weights + cache,
        ram_side(placement, None, weights, cache) <= ram_side("cpu"@, None, weights, cache),
{
    reveal_strlit("gpu");
    reveal_strlit("hybrid");
    reveal_strlit("cpu");
    assert("gpu"@.len() == 3 && "hybrid"@.len() == 6 && "cpu"@[0] == 'c' && "gpu"@[0] == 'g'
        && "cpu"@.len() == 3);
}

/// The cache takes so much for each token of the window, as far as that can be
/// counted.
pub proof fn law_the_cache_grows_with_the_window(per_token: u64, n_ctx: u32)
    ensures
        per_token * n_ctx <= u64::MAX ==> cache_bytes(per_token, n_ctx) == per_token * n_ctx,
        0 <= cache_bytes(per_token, n_ctx) <= u64::MAX,
        cache_bytes(per_token, 0) == 0,
        cache_bytes(per_token, 1) == per_token,
{
    assert(per_token * n_ctx >= 0) by (nonlinear_arith);
}

/// The prompt cache's note tells its size, and that it is off where it has none.
pub proof fn law_the_cache_note_tells_its_size(mib: u64)
    requires
        mib > 0,
    ensures
        ("Prompt cache in RAM: up to "@ + decimal::digits(mib as nat)).is_prefix_of(cache_note(mib)),
        cache_note(mib) != cache_note(0),
{
    let head = "Prompt cache in RAM: up to "@ + decimal::digits(mib as nat);
    assert(head =~= cache_note(mib).subrange(0, head.len() as int));
    reveal_strlit("Prompt cache in RAM: up to ");
    reveal_strlit(
        "The RAM prompt cache is off: free RAM is needed for the model itself. Switching conversations re-reads their history.",
    );
    assert(cache_note(mib)[0] == 'P');
    assert(cache_note(0)[0] == 'T');
}

/// A prefix is taken off as often as it stands there and nothing more is: what
/// is left is the end of the text and does not begin with it.
pub proof fn law_a_prefix_is_taken_off(s: Seq<char>, p: Seq<char>)
    requires
        p.len() > 0,
    ensures
        !p.is_prefix_of(without_prefix(s, p)),
        without_prefix(s, p).is_suffix_of(s),
        !p.is_prefix_of(s) ==> without_prefix(s, p) == s,
        without_prefix(p + s, p) == without_prefix(s, p),
    decreases s.len(),
{
    assert((p + s).subrange(0, p.len() as int) =~= p);
    assert((p + s).skip(p.len() as int) =~= s);
    if text::begins(s, p) {
        let rest = s.skip(p.len() as int);
        law_a_prefix_is_taken_off(rest, p);
        let left = without_prefix(rest, p);
        assert(left =~= s.subrange(s.len() - left.len(), s.len() as int)) by {
            assert(left == rest.subrange(rest.len() - left.len(), rest.len() as int));
        }
        assert(p =~= s.subrange(0, p.len() as int));
    } else {
        assert(s =~= s.subrange(0, s.len() as int));
    }
}

proof fn lemma_indices_where(ids: Seq<Seq<char>>, id: Seq<char>, is: bool, n: int)
    requires
        0 <= n <= ids.len(),
    ensures
        ({
            let at = indices_where(ids, id, is, n);
            &&& forall|k: int|
                0 <= k < at.len() ==> 0 <= #[trigger] at[k] < n && (ids[at[k]] == id) == is
            &&& forall|j: int, k: int| 0 <= j < k < at.len() ==> #[trigger] at[j] < #[trigger] at[k]
            &&& forall|i: int| 0 <= i < n && (#[trigger] ids[i] == id) == is ==> at.contains(i)
        }),
    decreases n,
{
    if n > 0 {
        lemma_indices_where(ids, id, is, n - 1);
        let before = indices_where(ids, id, is, n - 1);
        let at = indices_where(ids, id, is, n);
        assert forall|i: int| 0 <= i < n && (#[trigger] ids[i] == id) == is implies at.contains(
            i,
        ) by {
            if i < n - 1 {
                let k = choose|k: int| 0 <= k < before.len() && before[k] == i;
                assert(at[k] == i);
            } else {
                assert(at[at.len() - 1] == i);
            }
        }
    }
}

/// Every model's fit is prepared, once; the default model's before all others,
/// and the others in their order.
pub proof fn law_the_default_model_is_prepared_first(
    ids: Seq<Seq<char>>,
    default_model: Seq<char>,
    i: int,
)
    requires
        0 <= i < ids.len(),
    ensures
        ({
            let order = preparing_order(ids, default_model);
            &&& order.contains(i)
            &&& order.no_duplicates()
            &&& forall|j: int, k: int|
                0 <= j < k < order.len() && ids[#[trigger] order[k]] == default_model
                    ==> ids[#[trigger] order[j]] == default_model
        }),
{
    let n = ids.len() as int;
    lemma_indices_where(ids, default_model, true, n);
    lemma_indices_where(ids, default_model, false, n);
    let (a, b) = (
        indices_where(ids, default_model, true, n),
        indices_where(ids, default_model, false, n),
    );
    let order = preparing_order(ids, default_model);
    if ids[i] == default_model {
        let k = choose|k: int| 0 <= k < a.len() && a[k] == i;
        assert(order[k] == i);
    } else {
        let k = choose|k: int| 0 <= k < b.len() && b[k] == i;
        assert(order[a.len() + k] == i);
    }
    assert forall|k: int| 0 <= k < order.len() implies #[trigger] order[k] == (if k < a.len() {
        a[k]
    } else {
        b[k - a.len()]
    }) by {}
}

/// What the person loading is told keeps its order, and nothing of it is lost.
pub proof fn law_nothing_told_is_lost(one: String, other: Option<String>)
    ensures
        just(Some(one)) + just(other) == seq![one@] + just(other),
        just(None) == Seq::<Seq<char>>::empty(),
        just(Some(one)).len() == 1 && just(Some(one))[0] == one@,
{
}

/// A load uses a profile only where one is chosen for a model that is known; else
/// it is as it was. What was done with it is noted.
pub proof fn law_a_profile_is_used_where_chosen(
    before: InferenceConfig,
    after: InferenceConfig,
    profile: Option<&str>,
    known_model: bool,
    calibration: Option<(Seq<Profile>, bool)>,
)
    requires
        profile_used(before, after, profile, known_model, calibration),
    ensures
        profile is None || !known_model ==> after == before,
        profile is Some && known_model && before.runtime_policy is Some ==> {
            &&& after.runtime_policy is Some
            &&& after.runtime_policy->0.notes@.len() == before.runtime_policy->0.notes@.len() + 1
        },
        calibration is None || !(calibration->0).1 ==> after.n_threads == before.n_threads
            && after.n_threads_batch == before.n_threads_batch && after.poll == before.poll
            && after.priority == before.priority,
        after.n_ctx == before.n_ctx && after.model_path == before.model_path && after.n_gpu_layers
            == before.n_gpu_layers,
{
    if profile is Some && known_model && before.runtime_policy is Some {
        let (p, q) = (before.runtime_policy->0, after.runtime_policy->0);
        assert(types::texts(p.notes@).len() == p.notes@.len());
        assert(types::texts(q.notes@).len() == q.notes@.len());
    }
}

} // verus!
