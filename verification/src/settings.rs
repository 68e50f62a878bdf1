//! Settings: what is accepted, what a change of permissions releases, and what
//! a change has to be followed by.
use vstd::prelude::*;

use crate::error;
use crate::error::{ApiError, Refusal};
use crate::text;
use crate::toolrun::Decision;

verus! {

/// The settings that are checked. The fractional ones come with whether they
/// are in range.
#[derive(Debug, PartialEq, Eq)]
pub struct CheckedSettings {
    pub context_size: u32,
    /// From 0 to 2.
    pub temperature_in_range: bool,
    /// The share of probability from 0 to 1, the penalty from 0 to 2.
    pub sampling_in_range: bool,
    pub top_k: i32,
    pub runtime_auto: bool,
    pub cpu_threads: u32,
    pub gpu_layers: i32,
    pub batch_size: u32,
    pub threads_batch: u32,
    pub poll: Option<u32>,
    pub priority: Option<i32>,
    pub flash_attention: bool,
    pub kv_cache: String,
    pub compaction_keep_turns: usize,
    pub auto_compact: String,
    pub compact_at_pct: u32,
    pub speculative: String,
    pub reasoning_budget: String,
    pub search_provider: String,
    pub max_results: usize,
    pub autonomous_search: String,
}

/// Hardware set by hand is out of range.
pub open spec fn bad_hardware(s: CheckedSettings) -> bool {
    s.cpu_threads == 0 || s.cpu_threads > 1024 || s.gpu_layers < -1 || s.gpu_layers > 10000
        || s.batch_size == 0 || s.batch_size > 8192
}

/// Threads set by hand are out of range.
pub open spec fn bad_threads(s: CheckedSettings) -> bool {
    s.threads_batch > 1024 || (s.poll matches Some(p) && p > 100) || (s.priority matches Some(p)
        && !(-1 <= p <= 3))
}

/// Why settings are refused; the first reason counts.
pub open spec fn settings_refusal(s: CheckedSettings) -> Option<Refusal> {
    if s.context_size == 0 || s.context_size > 1_048_576 {
        Some(
            error::bad_request(
                "context_size must be > 0"@,
                "Use 8192 for Fast, 32768 for Balanced (§51)."@,
            ),
        )
    } else if !s.temperature_in_range {
        Some(
            error::bad_request(
                "temperature out of range"@,
                "Use 0.0–2.0 (0.2 for coding, 0.7 for chat)."@,
            ),
        )
    } else if !s.sampling_in_range || s.top_k > 1000 {
        Some(
            error::bad_request(
                "Invalid sampling settings."@,
                "Use top-p 0–1, top-k 0–1000 and repeat penalty 0–2."@,
            ),
        )
    } else if !s.runtime_auto && bad_hardware(s) {
        Some(
            error::bad_request(
                "Invalid manual hardware settings."@,
                "Use 1–1024 threads, -1 for automatic GPU placement (or 0–10000 layers), and batch size 1–8192."@,
            ),
        )
    } else if !s.runtime_auto && bad_threads(s) {
        Some(
            error::bad_request(
                "Invalid manual thread settings."@,
                "Use 0–1024 prompt threads (0 uses the generation threads), a wait of 0–100 and a priority from -1 (low) to 3 (realtime)."@,
            ),
        )
    } else if !s.runtime_auto && !s.flash_attention && s.kv_cache@ == "q8_0"@ {
        Some(
            error::bad_request(
                "An 8-bit KV cache needs Flash Attention."@,
                "llama.cpp cannot create a context with an 8-bit value cache while Flash Attention is off. Turn Flash Attention on, or use the f16 cache."@,
            ),
        )
    } else if !(2 <= s.compaction_keep_turns <= 200) {
        Some(
            error::bad_request(
                "Invalid recent message count."@,
                "Keep between 2 and 200 recent messages when compacting."@,
            ),
        )
    } else if s.auto_compact@ != "automatic"@ && s.auto_compact@ != "off"@ && s.auto_compact@
        != "ask"@ {
        Some(
            error::bad_request("unknown automatic compaction setting"@, "Use automatic or off."@),
        )
    } else if !(50 <= s.compact_at_pct <= 98) {
        Some(
            error::bad_request(
                "Invalid compaction threshold."@,
                "Compact at between 50% and 98% of the usable context."@,
            ),
        )
    } else if s.speculative@ != "auto"@ && s.speculative@ != "off"@ {
        Some(
            error::bad_request(
                "unknown speculative decoding setting"@,
                "Use auto (draft from context) or off."@,
            ),
        )
    } else if s.kv_cache@ != "f16"@ && s.kv_cache@ != "q8_0"@ {
        Some(
            error::bad_request(
                "unknown KV cache precision"@,
                "Use f16 (compatibility) or q8_0 (half the cache memory)."@,
            ),
        )
    } else if s.reasoning_budget@ != "automatic"@ && s.reasoning_budget@ != "low"@
        && s.reasoning_budget@ != "medium"@ && s.reasoning_budget@ != "high"@ {
        Some(
            error::bad_request(
                "unknown reasoning budget"@,
                "Use automatic, low, medium, or high (§112)."@,
            ),
        )
    } else if s.search_provider@ != "duckduckgo"@ && s.search_provider@ != "brave"@
        && s.search_provider@ != "custom"@ {
        Some(
            error::bad_request(
                "unknown search provider"@,
                "Use duckduckgo, brave, or custom (§123)."@,
            ),
        )
    } else if s.max_results == 0 || s.max_results > 10 {
        Some(error::bad_request("max_results out of range"@, "Use 1–10."@))
    } else if s.autonomous_search@ != "ask"@ && s.autonomous_search@ != "allow"@
        && s.autonomous_search@ != "deny"@ {
        Some(
            error::bad_request(
                "unknown autonomous search policy"@,
                "Use ask, allow, or deny (§124)."@,
            ),
        )
    } else {
        None
    }
}

/// The settings of the runtime are in range.
fn check_runtime(s: &CheckedSettings) -> (r: Result<(), ApiError>)
    ensures
        match r {
            Err(e) => settings_refusal(*s) == Some(e@),
            Ok(_) => {
                &&& 0 < s.context_size <= 1_048_576
                &&& s.temperature_in_range && s.sampling_in_range && s.top_k <= 1000
                &&& s.runtime_auto || (!bad_hardware(*s) && !bad_threads(*s) && (s.flash_attention
                    || s.kv_cache@ != "q8_0"@))
            },
        },
{
    if s.context_size == 0 || s.context_size > 1_048_576 {
        return Err(
            ApiError::bad(
                "context_size must be > 0",
                "Use 8192 for Fast, 32768 for Balanced (§51).",
            ),
        );
    }
    if !s.temperature_in_range {
        return Err(
            ApiError::bad(
                "temperature out of range",
                "Use 0.0–2.0 (0.2 for coding, 0.7 for chat).",
            ),
        );
    }
    if !s.sampling_in_range || s.top_k > 1000 {
        return Err(
            ApiError::bad(
                "Invalid sampling settings.",
                "Use top-p 0–1, top-k 0–1000 and repeat penalty 0–2.",
            ),
        );
    }
    if s.runtime_auto {
        return Ok(());
    }
    if s.cpu_threads == 0 || s.cpu_threads > 1024 || s.gpu_layers < -1 || s.gpu_layers > 10000
        || s.batch_size == 0 || s.batch_size > 8192 {
        return Err(
            ApiError::bad(
                "Invalid manual hardware settings.",
                "Use 1–1024 threads, -1 for automatic GPU placement (or 0–10000 layers), and batch size 1–8192.",
            ),
        );
    }
    let bad_poll = match s.poll {
        Some(p) => p > 100,
        None => false,
    };
    let bad_priority = match s.priority {
        Some(p) => p < -1 || p > 3,
        None => false,
    };
    if s.threads_batch > 1024 || bad_poll || bad_priority {
        return Err(
            ApiError::bad(
                "Invalid manual thread settings.",
                "Use 0–1024 prompt threads (0 uses the generation threads), a wait of 0–100 and a priority from -1 (low) to 3 (realtime).",
            ),
        );
    }
    if !s.flash_attention && text::same(&s.kv_cache, "q8_0") {
        return Err(
            ApiError::bad(
                "An 8-bit KV cache needs Flash Attention.",
                "llama.cpp cannot create a context with an 8-bit value cache while Flash Attention is off. Turn Flash Attention on, or use the f16 cache.",
            ),
        );
    }
    Ok(())
}

/// Accepts settings that are in range and name what there is.
pub fn check_settings(s: &CheckedSettings) -> (r: Result<(), ApiError>)
    ensures
        error::refusal_of(r) == settings_refusal(*s),
{
    match check_runtime(s) {
        Err(e) => {
            return Err(e);
        },
        Ok(_) => {},
    }
    if s.compaction_keep_turns < 2 || s.compaction_keep_turns > 200 {
        return Err(
            ApiError::bad(
                "Invalid recent message count.",
                "Keep between 2 and 200 recent messages when compacting.",
            ),
        );
    }
    let compact = &s.auto_compact;
    if !text::same(compact, "automatic") && !text::same(compact, "off") && !text::same(
        compact,
        "ask",
    ) {
        return Err(
            ApiError::bad("unknown automatic compaction setting", "Use automatic or off."),
        );
    }
    if s.compact_at_pct < 50 || s.compact_at_pct > 98 {
        return Err(
            ApiError::bad(
                "Invalid compaction threshold.",
                "Compact at between 50% and 98% of the usable context.",
            ),
        );
    }
    if !text::same(&s.speculative, "auto") && !text::same(&s.speculative, "off") {
        return Err(
            ApiError::bad(
                "unknown speculative decoding setting",
                "Use auto (draft from context) or off.",
            ),
        );
    }
    if !text::same(&s.kv_cache, "f16") && !text::same(&s.kv_cache, "q8_0") {
        return Err(
            ApiError::bad(
                "unknown KV cache precision",
                "Use f16 (compatibility) or q8_0 (half the cache memory).",
            ),
        );
    }
    let budget = &s.reasoning_budget;
    if !text::same(budget, "automatic") && !text::same(budget, "low") && !text::same(
        budget,
        "medium",
    ) && !text::same(budget, "high") {
        return Err(
            ApiError::bad(
                "unknown reasoning budget",
                "Use automatic, low, medium, or high (§112).",
            ),
        );
    }
    let provider = &s.search_provider;
    if !text::same(provider, "duckduckgo") && !text::same(provider, "brave") && !text::same(
        provider,
        "custom",
    ) {
        return Err(
            ApiError::bad("unknown search provider", "Use duckduckgo, brave, or custom (§123)."),
        );
    }
    if s.max_results == 0 || s.max_results > 10 {
        return Err(ApiError::bad("max_results out of range", "Use 1–10."));
    }
    let policy = &s.autonomous_search;
    if !text::same(policy, "ask") && !text::same(policy, "allow") && !text::same(policy, "deny") {
        return Err(
            ApiError::bad("unknown autonomous search policy", "Use ask, allow, or deny (§124)."),
        );
    }
    Ok(())
}

/// What is accepted can be loaded and compacted: the window and the share of
/// it are in range, and hardware set by hand is, too.
pub proof fn law_accepted_settings_are_in_range(s: CheckedSettings)
    requires
        settings_refusal(s) is None,
    ensures
        0 < s.context_size <= 1_048_576,
        50 <= s.compact_at_pct <= 98,
        2 <= s.compaction_keep_turns <= 200,
        0 < s.max_results <= 10,
        s.kv_cache@ == "f16"@ || s.kv_cache@ == "q8_0"@,
        !s.runtime_auto ==> 0 < s.cpu_threads <= 1024 && 0 < s.batch_size <= 8192 && -1
            <= s.gpu_layers <= 10000 && s.threads_batch <= 1024,
        !s.runtime_auto && s.kv_cache@ == "q8_0"@ ==> s.flash_attention,
{
}

/// A change needs its own fit.
pub open spec fn refits(
    context_before: u32,
    context_now: u32,
    auto_before: bool,
    auto_now: bool,
    runtime_changed: bool,
) -> bool {
    context_before != context_now || auto_before != auto_now || runtime_changed
}

/// A fit is kept exactly where all that it rests on stays: each change of the
/// window, of the automatic mode or of the runtime asks for another.
pub proof fn law_a_fit_is_kept_where_nothing_changes(
    before: u32,
    now: u32,
    auto_before: bool,
    auto_now: bool,
    runtime_changed: bool,
)
    ensures
        !refits(before, before, auto_before, auto_before, false),
        before != now ==> refits(before, now, auto_before, auto_now, runtime_changed),
        auto_before != auto_now ==> refits(before, now, auto_before, auto_now, runtime_changed),
        refits(before, now, auto_before, auto_now, true),
{
}

/// A change that needs its own fit: the window, the automatic mode or what the
/// runtime prefers.
pub fn changes_fit(
    context_before: u32,
    context_now: u32,
    auto_before: bool,
    auto_now: bool,
    runtime_changed: bool,
) -> (r: bool)
    ensures
        r == refits(context_before, context_now, auto_before, auto_now, runtime_changed),
{
    context_before != context_now || auto_before != auto_now || runtime_changed
}

// ---- permissions ------------------------------------------------------------------------------------

/// The permission modes.
pub open spec fn is_permission_mode(mode: Seq<char>) -> bool {
    mode == "ask"@ || mode == "accept_edits"@ || mode == "plan"@ || mode == "auto"@
}

/// Accepts a permission mode and says whether it makes the agent autonomous.
pub fn choose_permission_mode(mode: &str) -> (r: Result<bool, ApiError>)
    ensures
        error::refusal_of(r) == (if is_permission_mode(mode@) {
            None
        } else {
            Some(
                error::bad_request(
                    "unknown permission mode"@,
                    "Use ask, accept_edits, plan or auto."@,
                ),
            )
        }),
        r matches Ok(autonomous) ==> autonomous == (mode@ == "auto"@),
{
    let auto = text::same(mode, "auto");
    if auto || text::same(mode, "ask") || text::same(mode, "accept_edits") || text::same(
        mode,
        "plan",
    ) {
        Ok(auto)
    } else {
        Err(ApiError::bad("unknown permission mode", "Use ask, accept_edits, plan or auto."))
    }
}

/// What a waiting run waits for, and what it may do.
#[derive(Debug, PartialEq, Eq)]
pub struct Waiting {
    pub tool: String,
    /// The run's mode allows the tool's risk.
    pub mode_allows: bool,
    /// The run was started with the search on.
    pub search_enabled: bool,
}

/// A change of permissions releases the waiting call: the run's own mode
/// allows it, the permissions now do, and a web search was consented to, is
/// not denied, and the agent is autonomous.
pub open spec fn released(
    w: Waiting,
    search_denied: bool,
    autonomous: bool,
    decision: Decision,
) -> bool {
    &&& w.mode_allows
    &&& decision is Allow
    &&& w.tool@ == "web_search"@ ==> w.search_enabled && !search_denied && autonomous
}

/// Whether a change of permissions releases the waiting call. The release is
/// for this call only.
pub fn releases(w: &Waiting, search_denied: bool, autonomous: bool, decision: &Decision) -> (r:
    bool)
    ensures
        r == released(*w, search_denied, autonomous, *decision),
{
    if !w.mode_allows {
        return false;
    }
    if text::same(&w.tool, "web_search") && (!w.search_enabled || search_denied || !autonomous) {
        return false;
    }
    match decision {
        Decision::Allow => true,
        _ => false,
    }
}

/// A change of permissions never widens what a run may do: a call outside its
/// mode stays waiting, and so does a search without consent or while searching
/// is denied, whatever the permissions say.
pub proof fn law_a_run_keeps_its_scope(
    w: Waiting,
    search_denied: bool,
    autonomous: bool,
    decision: Decision,
)
    ensures
        !w.mode_allows ==> !released(w, search_denied, autonomous, decision),
        w.tool@ == "web_search"@ && (!w.search_enabled || search_denied) ==> !released(
            w,
            search_denied,
            autonomous,
            decision,
        ),
        w.tool@ == "web_search"@ && !autonomous ==> !released(
            w,
            search_denied,
            autonomous,
            decision,
        ),
{
}

/// Where the answer to a waiting call goes.
#[derive(Clone, Copy, Debug, PartialEq, Eq, Structural)]
pub enum Channel {
    /// The run listens.
    Open,
    /// The run no longer listens.
    Closed,
    /// The answer was given.
    Answered,
}

/// A run as a change of permissions finds it.
#[derive(Debug, PartialEq, Eq)]
pub struct PausedRun {
    pub id: String,
    /// The run waits for a permission.
    pub waiting: bool,
    /// The call it waits with.
    pub call: Option<Waiting>,
    /// What the permissions now say of that call.
    pub decision: Decision,
    pub channel: Channel,
}

/// An approval. One for the session would also hold for later calls.
#[derive(Debug, PartialEq, Eq)]
pub struct Approval {
    pub run: String,
    pub session: bool,
}

/// A change of permissions answers the run: it waits for a permission with a
/// call that the change releases, and has not been answered.
pub open spec fn answers(run: PausedRun, search_denied: bool, autonomous: bool) -> bool {
    run.waiting && run.channel != Channel::Answered && (run.call matches Some(w) && released(
        w,
        search_denied,
        autonomous,
        run.decision,
    ))
}

/// The run after a change of permissions.
pub open spec fn answered(run: PausedRun, search_denied: bool, autonomous: bool) -> PausedRun {
    if answers(run, search_denied, autonomous) {
        PausedRun { channel: Channel::Answered, ..run }
    } else {
        run
    }
}

/// The ids of those of the first `n` runs that are answered.
pub open spec fn answered_ids(
    runs: Seq<PausedRun>,
    search_denied: bool,
    autonomous: bool,
    n: int,
) -> Seq<Seq<char>>
    decreases n,
{
    if n <= 0 {
        Seq::empty()
    } else if answers(runs[n - 1], search_denied, autonomous) {
        answered_ids(runs, search_denied, autonomous, n - 1).push(runs[n - 1].id@)
    } else {
        answered_ids(runs, search_denied, autonomous, n - 1)
    }
}

/// How many of the first `n` runs hear their answer.
pub open spec fn resumed_among(
    runs: Seq<PausedRun>,
    search_denied: bool,
    autonomous: bool,
    n: int,
) -> nat
    decreases n,
{
    if n <= 0 {
        0
    } else {
        resumed_among(runs, search_denied, autonomous, n - 1) + (if answers(
            runs[n - 1],
            search_denied,
            autonomous,
        ) && runs[n - 1].channel == Channel::Open {
            1nat
        } else {
            0nat
        })
    }
}

/// Answers every run whose waiting call a change of permissions releases, each
/// for that call alone, and counts those that hear it. The other runs are left
/// as they are.
pub fn resume_auto_approved_runs(
    runs: &mut Vec<PausedRun>,
    search_denied: bool,
    autonomous: bool,
) -> (r: (Vec<Approval>, usize))
    ensures
        final(runs)@ == old(runs)@.map_values(
            |run: PausedRun| answered(run, search_denied, autonomous),
        ),
        r.0@.map_values(|a: Approval| a.run@) == answered_ids(
            old(runs)@,
            search_denied,
            autonomous,
            old(runs)@.len() as int,
        ),
        forall|i: int| 0 <= i < r.0@.len() ==> !(#[trigger] r.0@[i]).session,
        r.1 == resumed_among(old(runs)@, search_denied, autonomous, old(runs)@.len() as int),
{
    let mut approvals: Vec<Approval> = Vec::new();
    let mut resumed: usize = 0;
    let ghost was = runs@;
    let mut i: usize = 0;
    assert(approvals@.map_values(|a: Approval| a.run@) =~= Seq::<Seq<char>>::empty());
    while i < runs.len()
        invariant
            i <= runs@.len(),
            runs@.len() == was.len(),
            resumed <= i,
            forall|j: int|
                0 <= j < i ==> #[trigger] runs@[j] == answered(was[j], search_denied, autonomous),
            forall|j: int| i <= j < was.len() ==> #[trigger] runs@[j] == was[j],
            approvals@.map_values(|a: Approval| a.run@) == answered_ids(
                was,
                search_denied,
                autonomous,
                i as int,
            ),
            forall|j: int| 0 <= j < approvals@.len() ==> !(#[trigger] approvals@[j]).session,
            resumed == resumed_among(was, search_denied, autonomous, i as int),
        decreases runs@.len() - i,
    {
        let run = &runs[i];
        let released_now = match &run.call {
            Some(w) => releases(w, search_denied, autonomous, &run.decision),
            None => false,
        };
        if run.waiting && run.channel != Channel::Answered && released_now {
            if run.channel == Channel::Open {
                resumed += 1;
            }
            let ghost before = approvals@;
            approvals.push(Approval { run: run.id.as_str().to_owned(), session: false });
            assert(approvals@.map_values(|a: Approval| a.run@) =~= before.map_values(
                |a: Approval| a.run@,
            ).push(was[i as int].id@));
            runs[i].channel = Channel::Answered;
        }
        i += 1;
    }
    assert(runs@ =~= was.map_values(|run: PausedRun| answered(run, search_denied, autonomous)));
    (approvals, resumed)
}

/// An answer is given once: the same change of permissions, made again at
/// once, answers no run and resumes none.
pub proof fn law_no_run_is_resumed_twice(
    runs: Seq<PausedRun>,
    search_denied: bool,
    autonomous: bool,
    n: int,
)
    requires
        0 <= n <= runs.len(),
    ensures
        ({
            let after = runs.map_values(
                |run: PausedRun| answered(run, search_denied, autonomous),
            );
            answered_ids(after, search_denied, autonomous, n) == Seq::<Seq<char>>::empty()
                && resumed_among(after, search_denied, autonomous, n) == 0
        }),
    decreases n,
{
    if n > 0 {
        law_no_run_is_resumed_twice(runs, search_denied, autonomous, n - 1);
    }
}

// ---- the machine ----------------------------------------------------------------------------------------

/// The seconds that a window of samples spans.
pub fn window_seconds(window: &str) -> (n: u64)
    ensures
        n == (if window@ == "5m"@ {
            300int
        } else if window@ == "30m"@ {
            1800
        } else if window@ == "1h"@ {
            3600
        } else {
            900
        }),
{
    if text::same(window, "5m") {
        300
    } else if text::same(window, "30m") {
        1800
    } else if text::same(window, "1h") {
        3600
    } else {
        900
    }
}

/// What a session's numbers rest on: the whole app's sample for an active
/// session, where there is one; nothing is made up for the others.
pub fn attribution(active: bool, sampled: bool) -> (r: (&'static str, &'static str))
    ensures
        r.0@ == (if active {
            "active"@
        } else {
            "idle"@
        }),
        r.1@ == (if active && sampled {
            "measured (app total, active session)"@
        } else {
            "unknown"@
        }),
{
    (
        if active { "active" } else { "idle" },
        if active && sampled { "measured (app total, active session)" } else { "unknown" },
    )
}

// ---- what is taken, and who is told ------------------------------------------------------------

/// Settings that are in range, with names that there are, are taken; hardware
/// that the runtime chooses itself is not looked at.
pub proof fn law_settings_in_range_are_accepted(s: CheckedSettings)
    requires
        0 < s.context_size <= 1_048_576,
        s.temperature_in_range,
        s.sampling_in_range,
        s.top_k <= 1000,
        s.runtime_auto || {
            &&& 0 < s.cpu_threads <= 1024
            &&& -1 <= s.gpu_layers <= 10000
            &&& 0 < s.batch_size <= 8192
            &&& s.threads_batch <= 1024
            &&& s.poll matches Some(p) ==> p <= 100
            &&& s.priority matches Some(p) ==> -1 <= p <= 3
            &&& s.flash_attention || s.kv_cache@ == "f16"@
        },
        2 <= s.compaction_keep_turns <= 200,
        s.auto_compact@ == "automatic"@ || s.auto_compact@ == "off"@ || s.auto_compact@ == "ask"@,
        50 <= s.compact_at_pct <= 98,
        s.speculative@ == "auto"@ || s.speculative@ == "off"@,
        s.kv_cache@ == "f16"@ || s.kv_cache@ == "q8_0"@,
        s.reasoning_budget@ == "automatic"@ || s.reasoning_budget@ == "low"@ || s.reasoning_budget@
            == "medium"@ || s.reasoning_budget@ == "high"@,
        s.search_provider@ == "duckduckgo"@ || s.search_provider@ == "brave"@ || s.search_provider@
            == "custom"@,
        1 <= s.max_results <= 10,
        s.autonomous_search@ == "ask"@ || s.autonomous_search@ == "allow"@ || s.autonomous_search@
            == "deny"@,
    ensures
        settings_refusal(s) is None,
{
    reveal_strlit("f16");
    reveal_strlit("q8_0");
    assert("f16"@.len() == 3 && "q8_0"@.len() == 4);
}

/// What is accepted names what there is and samples in range.
pub proof fn law_accepted_settings_name_what_there_is(s: CheckedSettings)
    requires
        settings_refusal(s) is None,
    ensures
        s.temperature_in_range && s.sampling_in_range && s.top_k <= 1000,
        s.auto_compact@ == "automatic"@ || s.auto_compact@ == "off"@ || s.auto_compact@ == "ask"@,
        s.speculative@ == "auto"@ || s.speculative@ == "off"@,
        s.reasoning_budget@ == "automatic"@ || s.reasoning_budget@ == "low"@ || s.reasoning_budget@
            == "medium"@ || s.reasoning_budget@ == "high"@,
        s.search_provider@ == "duckduckgo"@ || s.search_provider@ == "brave"@ || s.search_provider@
            == "custom"@,
        s.autonomous_search@ == "ask"@ || s.autonomous_search@ == "allow"@ || s.autonomous_search@
            == "deny"@,
        !s.runtime_auto ==> {
            &&& s.poll matches Some(p) ==> p <= 100
            &&& s.priority matches Some(p) ==> -1 <= p <= 3
        },
{
}

/// A call that the run's mode and the permissions allow is released: any call
/// but a web search without more ado, and a web search where it was consented
/// to, is not denied and the agent is autonomous.
pub proof fn law_an_allowed_call_is_released(
    w: Waiting,
    search_denied: bool,
    autonomous: bool,
    decision: Decision,
)
    requires
        w.mode_allows,
        decision is Allow,
    ensures
        w.tool@ != "web_search"@ ==> released(w, search_denied, autonomous, decision),
        w.tool@ == "web_search"@ ==> (released(w, search_denied, autonomous, decision)
            <==> w.search_enabled && !search_denied && autonomous),
{
}

/// A change of permissions answers a run exactly where it waits with a call that
/// the change releases and has no answer yet. Then it is answered; and nothing
/// else of any run changes.
pub proof fn law_which_runs_are_answered(run: PausedRun, search_denied: bool, autonomous: bool)
    ensures
        ({
            let after = answered(run, search_denied, autonomous);
            let frees = run.call is Some && released(
                run.call->0,
                search_denied,
                autonomous,
                run.decision,
            );
            &&& after.id == run.id && after.waiting == run.waiting && after.call == run.call
                && after.decision == run.decision
            &&& run.waiting && frees ==> after.channel == Channel::Answered
            &&& !run.waiting || !frees ==> after == run
        }),
{
}

proof fn lemma_answers_of_first(
    runs: Seq<PausedRun>,
    run: PausedRun,
    search_denied: bool,
    autonomous: bool,
    n: int,
)
    requires
        0 <= n <= runs.len(),
    ensures
        answered_ids(runs.push(run), search_denied, autonomous, n) == answered_ids(
            runs,
            search_denied,
            autonomous,
            n,
        ),
        resumed_among(runs.push(run), search_denied, autonomous, n) == resumed_among(
            runs,
            search_denied,
            autonomous,
            n,
        ),
    decreases n,
{
    if n > 0 {
        lemma_answers_of_first(runs, run, search_denied, autonomous, n - 1);
    }
}

/// Every run that is answered gets an approval of its own, under its id, in the
/// order of the runs, and those that still listen count as resumed; a run that
/// is not answered gets none and does not count.
pub proof fn law_each_answer_goes_to_its_run(
    runs: Seq<PausedRun>,
    run: PausedRun,
    search_denied: bool,
    autonomous: bool,
)
    ensures
        ({
            let n = runs.len() as int;
            let more = runs.push(run);
            let ids = answered_ids(runs, search_denied, autonomous, n);
            let all = answered_ids(more, search_denied, autonomous, n + 1);
            let count = resumed_among(runs, search_denied, autonomous, n);
            let counted = resumed_among(more, search_denied, autonomous, n + 1);
            let told = answered(run, search_denied, autonomous) != run;
            &&& told ==> all == ids.push(run.id@)
            &&& !told ==> all == ids && counted == count
            &&& told && run.channel == Channel::Open ==> counted == count + 1
            &&& told && run.channel == Channel::Closed ==> counted == count
            &&& answered_ids(Seq::empty(), search_denied, autonomous, 0) == Seq::<Seq<char>>::empty()
            &&& resumed_among(Seq::empty(), search_denied, autonomous, 0) == 0
        }),
{
    lemma_answers_of_first(runs, run, search_denied, autonomous, runs.len() as int);
}

} // verus!
