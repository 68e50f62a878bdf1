//! Diagnostics: one row for each part of the system, whatever fails, and the
//! worst of them; what is left to set up; and the benchmark's limits.
use vstd::prelude::*;

use crate::decimal;
use crate::error;
use crate::error::{ApiError, Refusal};
use crate::num;
use crate::text;
use crate::types;
use crate::types::Message;

verus! {

/// How a part of the system is.
#[derive(Clone, Copy, Debug, PartialEq, Eq, Structural)]
pub enum Health {
    Good,
    Warned,
    Failed,
}

/// What a health is called.
pub fn health_word(h: Health) -> (s: &'static str)
    ensures
        s@ == (match h {
            Health::Good => "ok"@,
            Health::Warned => "warn"@,
            Health::Failed => "fail"@,
        }),
{
    match h {
        Health::Good => "ok",
        Health::Warned => "warn",
        Health::Failed => "fail",
    }
}

/// One row of the diagnosis.
#[derive(Debug, PartialEq, Eq)]
pub struct Check {
    pub id: &'static str,
    pub label: &'static str,
    pub status: Health,
    pub detail: String,
}

/// What a row says.
pub struct Row {
    pub id: Seq<char>,
    pub label: Seq<char>,
    pub status: Health,
    pub detail: Seq<char>,
}

impl View for Check {
    type V = Row;

    open spec fn view(&self) -> Row {
        Row { id: self.id@, label: self.label@, status: self.status, detail: self.detail@ }
    }
}

/// What was found of each part; a failure is given in its own words, and sizes
/// as they are shown.
#[derive(Debug, PartialEq, Eq)]
pub struct Findings {
    pub conversations: Result<usize, String>,
    pub models_dir: String,
    pub models_dir_there: bool,
    pub models: usize,
    pub models_with_file: usize,
    pub runtime: Result<(), String>,
    pub running: bool,
    pub model: Option<String>,
    pub ram_enough: bool,
    pub ram_available: String,
    pub ram_total: String,
    pub vram: Option<(String, String)>,
    /// How many projects there are, and the names of those whose folder is gone.
    pub projects: Result<(usize, Vec<String>), String>,
    pub tools: usize,
    pub search_provider: String,
    pub artifacts_dir: String,
    pub artifacts: Result<(), String>,
}

/// A row.
pub open spec fn row(id: Seq<char>, label: Seq<char>, status: Health, detail: Seq<char>) -> Row {
    Row { id, label, status, detail }
}

/// The rows, one for each part.
pub open spec fn rows(f: Findings) -> Seq<Row> {
    seq![
        row(
            "backend"@,
            "Backend connectivity"@,
            Health::Good,
            "doctor ran against the live API"@,
        ),
        match f.conversations {
            Ok(n) => row(
                "database"@,
                "Database"@,
                Health::Good,
                "SQLite readable ("@ + decimal::digits(n as nat) + " conversations)"@,
            ),
            Err(e) => row("database"@, "Database"@, Health::Failed, "SQLite error: "@ + e@),
        },
        if f.models_dir_there {
            row("models_dir"@, "Models directory"@, Health::Good, f.models_dir@)
        } else {
            row("models_dir"@, "Models directory"@, Health::Failed, "missing: "@ + f.models_dir@)
        },
        row(
            "models"@,
            "Models"@,
            if f.models == 0 {
                Health::Warned
            } else {
                Health::Good
            },
            decimal::digits(f.models as nat) + " registered, "@ + decimal::digits(
                f.models_with_file as nat,
            ) + " with GGUF on disk"@,
        ),
        match f.runtime {
            Ok(_) => row("sidecar"@, "llama-server binary"@, Health::Good, "binary found"@),
            Err(e) => row("sidecar"@, "llama-server binary"@, Health::Warned, e@),
        },
        row(
            "inference"@,
            "Inference"@,
            if f.running {
                Health::Good
            } else {
                Health::Warned
            },
            if f.running {
                match f.model {
                    Some(m) => "running ("@ + m@ + ")"@,
                    None => "running (unknown model)"@,
                }
            } else {
                "idle — load a model to start"@
            },
        ),
        row(
            "memory"@,
            "RAM"@,
            if f.ram_enough {
                Health::Good
            } else {
                Health::Warned
            },
            f.ram_available@ + " / "@ + f.ram_total@ + " GB available"@,
        ),
        match f.vram {
            Some((used, total)) => row(
                "gpu"@,
                "GPU/VRAM"@,
                Health::Good,
                "nvidia-smi: "@ + used@ + " / "@ + total@ + " GB used"@,
            ),
            None => row(
                "gpu"@,
                "GPU/VRAM"@,
                Health::Warned,
                "GPU telemetry unavailable. This does not rule out integrated or non-NVIDIA graphics; automatic loading checks the model runtime's device support."@,
            ),
        },
        match f.projects {
            Ok((n, missing)) => if missing@.len() == 0 {
                row(
                    "workspaces"@,
                    "Workspaces"@,
                    Health::Good,
                    decimal::digits(n as nat) + " linked"@,
                )
            } else {
                row(
                    "workspaces"@,
                    "Workspaces"@,
                    Health::Warned,
                    "missing dirs: "@ + text::joined(types::texts(missing@), ", "@),
                )
            },
            Err(e) => row("workspaces"@, "Workspaces"@, Health::Failed, "storage error: "@ + e@),
        },
        row(
            "tools"@,
            "Tool registry"@,
            Health::Good,
            decimal::digits(f.tools as nat) + " tools registered"@,
        ),
        row(
            "search"@,
            "Search provider"@,
            Health::Good,
            f.search_provider@ + " (opt-in per message)"@,
        ),
        match f.artifacts {
            Ok(_) => row("artifacts"@, "Artifact directory"@, Health::Good, f.artifacts_dir@),
            Err(e) => row("artifacts"@, "Artifact directory"@, Health::Failed, e@),
        },
    ]
}

fn with_tail(head: &str, middle: &str, tail: &str) -> (s: String)
    ensures
        s@ == head@ + middle@ + tail@,
{
    let mut s = head.to_owned();
    s.append(middle);
    s.append(tail);
    s
}

fn counted(n: usize, tail: &str) -> (s: String)
    ensures
        s@ == decimal::digits(n as nat) + tail@,
{
    let mut s = decimal::decimal(n as u64);
    s.append(tail);
    s
}

fn prefixed(head: &str, rest: &str) -> (s: String)
    ensures
        s@ == head@ + rest@,
{
    let mut s = head.to_owned();
    s.append(rest);
    s
}

fn check_database(found: &Result<usize, String>) -> (c: Check)
    ensures
        c@ == (match *found {
            Ok(n) => row(
                "database"@,
                "Database"@,
                Health::Good,
                "SQLite readable ("@ + decimal::digits(n as nat) + " conversations)"@,
            ),
            Err(e) => row("database"@, "Database"@, Health::Failed, "SQLite error: "@ + e@),
        }),
{
    match found {
        Ok(n) => {
            let count = decimal::decimal(*n as u64);
            Check {
                id: "database",
                label: "Database",
                status: Health::Good,
                detail: with_tail("SQLite readable (", &count, " conversations)"),
            }
        },
        Err(e) => Check {
            id: "database",
            label: "Database",
            status: Health::Failed,
            detail: prefixed("SQLite error: ", e),
        },
    }
}

fn check_models(f: &Findings) -> (c: Check)
    ensures
        c@ == rows(*f)[3],
{
    let mut detail = counted(f.models, " registered, ");
    let with_file = decimal::decimal(f.models_with_file as u64);
    detail.append(&with_file);
    detail.append(" with GGUF on disk");
    Check {
        id: "models",
        label: "Models",
        status: if f.models == 0 { Health::Warned } else { Health::Good },
        detail,
    }
}

fn check_inference(f: &Findings) -> (c: Check)
    ensures
        c@ == rows(*f)[5],
{
    let detail = if f.running {
        match &f.model {
            Some(m) => with_tail("running (", m, ")"),
            None => "running (unknown model)".to_owned(),
        }
    } else {
        "idle — load a model to start".to_owned()
    };
    Check {
        id: "inference",
        label: "Inference",
        status: if f.running { Health::Good } else { Health::Warned },
        detail,
    }
}

fn check_memory(f: &Findings) -> (c: Check)
    ensures
        c@ == rows(*f)[6],
{
    let mut detail = with_tail(&f.ram_available, " / ", &f.ram_total);
    detail.append(" GB available");
    Check {
        id: "memory",
        label: "RAM",
        status: if f.ram_enough { Health::Good } else { Health::Warned },
        detail,
    }
}

fn check_gpu(f: &Findings) -> (c: Check)
    ensures
        c@ == rows(*f)[7],
{
    match &f.vram {
        Some((used, total)) => {
            let mut detail = with_tail("nvidia-smi: ", used, " / ");
            detail.append(total);
            detail.append(" GB used");
            Check { id: "gpu", label: "GPU/VRAM", status: Health::Good, detail }
        },
        None => Check {
            id: "gpu",
            label: "GPU/VRAM",
            status: Health::Warned,
            detail:
                "GPU telemetry unavailable. This does not rule out integrated or non-NVIDIA graphics; automatic loading checks the model runtime's device support.".to_owned(),
        },
    }
}

fn check_projects(f: &Findings) -> (c: Check)
    ensures
        c@ == rows(*f)[8],
{
    match &f.projects {
        Ok((n, missing)) => {
            if missing.len() == 0 {
                return Check {
                    id: "workspaces",
                    label: "Workspaces",
                    status: Health::Good,
                    detail: counted(*n, " linked"),
                };
            }
            let names = text::join(missing, ", ");
            Check {
                id: "workspaces",
                label: "Workspaces",
                status: Health::Warned,
                detail: prefixed("missing dirs: ", &names),
            }
        },
        Err(e) => Check {
            id: "workspaces",
            label: "Workspaces",
            status: Health::Failed,
            detail: prefixed("storage error: ", e),
        },
    }
}

/// The diagnosis: a row for each part, whatever was found.
pub fn diagnose(f: &Findings) -> (v: Vec<Check>)
    ensures
        v@.map_values(|c: Check| c@) == rows(*f),
{
    let mut v: Vec<Check> = Vec::new();
    v.push(
        Check {
            id: "backend",
            label: "Backend connectivity",
            status: Health::Good,
            detail: "doctor ran against the live API".to_owned(),
        },
    );
    v.push(check_database(&f.conversations));
    v.push(
        if f.models_dir_there {
            Check {
                id: "models_dir",
                label: "Models directory",
                status: Health::Good,
                detail: f.models_dir.as_str().to_owned(),
            }
        } else {
            Check {
                id: "models_dir",
                label: "Models directory",
                status: Health::Failed,
                detail: prefixed("missing: ", &f.models_dir),
            }
        },
    );
    v.push(check_models(f));
    v.push(
        match &f.runtime {
            Ok(_) => Check {
                id: "sidecar",
                label: "llama-server binary",
                status: Health::Good,
                detail: "binary found".to_owned(),
            },
            Err(e) => Check {
                id: "sidecar",
                label: "llama-server binary",
                status: Health::Warned,
                detail: e.as_str().to_owned(),
            },
        },
    );
    v.push(check_inference(f));
    v.push(check_memory(f));
    v.push(check_gpu(f));
    v.push(check_projects(f));
    v.push(
        Check {
            id: "tools",
            label: "Tool registry",
            status: Health::Good,
            detail: counted(f.tools, " tools registered"),
        },
    );
    v.push(
        Check {
            id: "search",
            label: "Search provider",
            status: Health::Good,
            detail: prefixed(&f.search_provider, " (opt-in per message)"),
        },
    );
    v.push(
        match &f.artifacts {
            Ok(_) => Check {
                id: "artifacts",
                label: "Artifact directory",
                status: Health::Good,
                detail: f.artifacts_dir.as_str().to_owned(),
            },
            Err(e) => Check {
                id: "artifacts",
                label: "Artifact directory",
                status: Health::Failed,
                detail: e.as_str().to_owned(),
            },
        },
    );
    assert(v@.map_values(|c: Check| c@) =~= rows(*f));
    v
}

/// Some row has this health.
pub open spec fn any_row(checks: Seq<Row>, h: Health) -> bool {
    exists|i: int| 0 <= i < checks.len() && (#[trigger] checks[i]).status == h
}

/// The worst of the rows.
pub open spec fn worst(checks: Seq<Row>) -> Health {
    if any_row(checks, Health::Failed) {
        Health::Failed
    } else if any_row(checks, Health::Warned) {
        Health::Warned
    } else {
        Health::Good
    }
}

/// The worst of the rows.
pub fn worst_of(checks: &[Check]) -> (h: Health)
    ensures
        h == worst(checks@.map_values(|c: Check| c@)),
{
    let ghost all = checks@.map_values(|c: Check| c@);
    let mut warned = false;
    let mut i: usize = 0;
    while i < checks.len()
        invariant
            i <= checks@.len(),
            all == checks@.map_values(|c: Check| c@),
            warned ==> any_row(all, Health::Warned),
            forall|k: int| 0 <= k < i ==> (#[trigger] all[k]).status != Health::Failed,
            !warned ==> forall|k: int| 0 <= k < i ==> (#[trigger] all[k]).status != Health::Warned,
        decreases checks@.len() - i,
    {
        assert(all[i as int] == checks@[i as int]@);
        match checks[i].status {
            Health::Failed => {
                assert(all[i as int].status == Health::Failed);
                return Health::Failed;
            },
            Health::Warned => {
                assert(all[i as int].status == Health::Warned);
                warned = true;
            },
            Health::Good => {},
        }
        i += 1;
    }
    if warned {
        Health::Warned
    } else {
        Health::Good
    }
}

/// A broken part never hides the others: there are twelve rows whatever was
/// found, and a failed part fails the whole.
pub proof fn law_failures_become_rows(f: Findings)
    ensures
        rows(f).len() == 12,
        f.conversations is Err ==> worst(rows(f)) == Health::Failed,
        f.artifacts is Err ==> worst(rows(f)) == Health::Failed,
        f.projects is Err ==> worst(rows(f)) == Health::Failed,
{
    let all = rows(f);
    if f.conversations is Err {
        assert(all[1].status == Health::Failed);
    }
    if f.projects is Err {
        assert(all[8].status == Health::Failed);
    }
    if f.artifacts is Err {
        assert(all[11].status == Health::Failed);
    }
}

// ---- setting up ---------------------------------------------------------------------------------------

/// A step of setting up.
#[derive(Clone, Copy, Debug, PartialEq, Eq)]
pub struct SetupStep {
    pub id: &'static str,
    pub label: &'static str,
    pub done: bool,
}

/// A step, by its parts.
pub open spec fn step_is(s: SetupStep, id: Seq<char>, label: Seq<char>, done: bool) -> bool {
    s.id@ == id && s.label@ == label && s.done == done
}

/// The steps of setting up, and whether the first needs are missing.
pub fn setup_status(runtime_there: bool, models_with_file: usize, running: bool, sessions: usize) -> (
r: (Vec<SetupStep>, bool))
    ensures
        r.0@.len() == 5,
        step_is(r.0@[0], "hardware"@, "Hardware detected"@, true),
        step_is(r.0@[1], "binary"@, "llama-server binary installed"@, runtime_there),
        step_is(r.0@[2], "model"@, "Model downloaded (GGUF on disk)"@, models_with_file > 0),
        step_is(r.0@[3], "inference"@, "Inference tested"@, running),
        step_is(r.0@[4], "chat"@, "First chat started"@, sessions > 0),
        r.1 == (!runtime_there || models_with_file == 0),
{
    let mut v: Vec<SetupStep> = Vec::new();
    v.push(SetupStep { id: "hardware", label: "Hardware detected", done: true });
    v.push(
        SetupStep { id: "binary", label: "llama-server binary installed", done: runtime_there },
    );
    v.push(
        SetupStep {
            id: "model",
            label: "Model downloaded (GGUF on disk)",
            done: models_with_file > 0,
        },
    );
    v.push(SetupStep { id: "inference", label: "Inference tested", done: running });
    v.push(SetupStep { id: "chat", label: "First chat started", done: sessions > 0 });
    (v, !runtime_there || models_with_file == 0)
}

// ---- the benchmark --------------------------------------------------------------------------------------

/// What a benchmark generates from, and how much.
#[derive(Debug, PartialEq, Eq)]
pub struct Benchmark {
    pub prompt: String,
    pub max_tokens: u32,
}

/// What a benchmark generates from.
pub open spec fn measured_prompt(prompt: Seq<char>) -> Seq<char> {
    if text::is_blank(prompt) {
        "Repeat exactly: The quick brown fox jumps over the lazy dog."@
    } else {
        text::first_chars(text::trimmed(prompt), 2000)
    }
}

/// How much a benchmark generates.
pub open spec fn measured_tokens(asked: int) -> int {
    num::clamped(asked, 16, 256)
}

/// A benchmark runs on the prompt it is given, as far as 2,000 characters go, and
/// always on some; it generates what was asked for, from 16 tokens up to 256.
pub proof fn law_a_benchmark_runs_as_asked(prompt: Seq<char>, asked: int)
    ensures
        measured_prompt(prompt).len() > 0,
        measured_prompt(prompt).len() <= 2000,
        !text::is_blank(prompt) && text::trimmed(prompt).len() <= 2000 ==> measured_prompt(prompt)
            == text::trimmed(prompt),
        16 <= asked <= 256 ==> measured_tokens(asked) == asked,
        16 <= measured_tokens(asked) <= 256,
        asked > 256 ==> measured_tokens(asked) == 256,
        asked < 16 ==> measured_tokens(asked) == 16,
{
    text::lemma_trimmed_empty_iff_blank(prompt);
    reveal_strlit("Repeat exactly: The quick brown fox jumps over the lazy dog.");
}

/// A benchmark needs the runtime; it takes the prompt's first 2,000 characters,
/// or its own, and generates 16 to 256 tokens.
pub fn benchmark(running: bool, prompt: &str, max_tokens: u32) -> (r: Result<Benchmark, ApiError>)
    ensures
        error::refusal_of(r) == (if running {
            None
        } else {
            Some(
                Refusal {
                    status: 503,
                    message: "Inference is not running."@,
                    hint: "Load a model and start inference first, then benchmark."@,
                },
            )
        }),
        r matches Ok(b) ==> b.prompt@ == measured_prompt(prompt@) && b.max_tokens == measured_tokens(
            max_tokens as int,
        ),
{
    if !running {
        return Err(
            ApiError::new(
                503,
                "Inference is not running.",
                "Load a model and start inference first, then benchmark.",
            ),
        );
    }
    let used = if text::blank(prompt) {
        "Repeat exactly: The quick brown fox jumps over the lazy dog.".to_owned()
    } else {
        let t = text::trim(prompt);
        text::take_chars(&t, 2000)
    };
    let limit: u32 = if max_tokens < 16 {
        16
    } else if max_tokens > 256 {
        256
    } else {
        max_tokens
    };
    Ok(Benchmark { prompt: used, max_tokens: limit })
}

// ---- telemetry -----------------------------------------------------------------------------------------

/// The beginning of the message with that id, from `i` on.
pub open spec fn excerpt_from(messages: Seq<Message>, id: Seq<char>, i: int) -> Seq<char>
    decreases messages.len() - i,
{
    if i >= messages.len() {
        Seq::empty()
    } else if messages[i].id@ == id {
        text::first_chars(messages[i].content@, 120)
    } else {
        excerpt_from(messages, id, i + 1)
    }
}

/// The beginning of the message that a measurement belongs to, by which it is
/// matched to what is shown.
pub fn metric_excerpt(messages: &[Message], id: &str) -> (s: String)
    ensures
        s@ == excerpt_from(messages@, id@, 0),
{
    let mut i: usize = 0;
    while i < messages.len()
        invariant
            i <= messages@.len(),
            excerpt_from(messages@, id@, 0) == excerpt_from(messages@, id@, i as int),
        decreases messages@.len() - i,
    {
        if text::same(&messages[i].id, id) {
            return text::take_chars(&messages[i].content, 120);
        }
        i += 1;
    }
    String::new()
}

// ---- what the rows say -----------------------------------------------------------------------------------

/// The worst row decides: the whole has failed exactly where a row has, is good
/// exactly where all rows are, and one more row never makes it better.
pub proof fn law_the_worst_row_decides(checks: Seq<Row>, r: Row)
    ensures
        worst(checks) == Health::Failed <==> exists|i: int|
            0 <= i < checks.len() && (#[trigger] checks[i]).status == Health::Failed,
        worst(checks) == Health::Good <==> forall|i: int|
            0 <= i < checks.len() ==> (#[trigger] checks[i]).status == Health::Good,
        r.status == Health::Failed ==> worst(checks.push(r)) == Health::Failed,
        worst(checks) == Health::Failed ==> worst(checks.push(r)) == Health::Failed,
        r.status == Health::Good ==> worst(checks.push(r)) == worst(checks),
{
    let more = checks.push(r);
    assert(more[checks.len() as int] == r);
    assert forall|h: Health| any_row(checks, h) implies #[trigger] any_row(more, h) by {
        let i = choose|i: int| 0 <= i < checks.len() && (#[trigger] checks[i]).status == h;
        assert(more[i].status == h);
    }
    assert forall|h: Health| #[trigger] any_row(more, h) && r.status != h implies any_row(
        checks,
        h,
    ) by {
        let i = choose|i: int| 0 <= i < more.len() && (#[trigger] more[i]).status == h;
        assert(checks[i].status == h);
    }
    assert(any_row(checks, Health::Failed) ==> any_row(more, Health::Failed));
    assert(any_row(checks, Health::Warned) ==> any_row(more, Health::Warned));
    assert(r.status == Health::Failed ==> any_row(more, Health::Failed));
    if !any_row(checks, Health::Failed) && !any_row(checks, Health::Warned) {
        assert forall|i: int| 0 <= i < checks.len() implies (#[trigger] checks[i]).status
            == Health::Good by {}
    }
    if r.status == Health::Good {
        assert(any_row(more, Health::Failed) == any_row(checks, Health::Failed));
        assert(any_row(more, Health::Warned) == any_row(checks, Health::Warned));
    }
}

/// Each row tells what was found of its part: it is good only where the part is,
/// and a failure is told in its own words.
pub proof fn law_each_row_tells_its_part(f: Findings)
    ensures
        ({
            let r = rows(f);
            &&& r[1].status == Health::Good <==> f.conversations is Ok
            &&& f.conversations matches Err(e) ==> e@.is_suffix_of(r[1].detail)
            &&& r[2].status == Health::Good <==> f.models_dir_there
            &&& f.models_dir@.is_suffix_of(r[2].detail)
            &&& r[3].status == Health::Good <==> f.models > 0
            &&& decimal::digits(f.models as nat).is_prefix_of(r[3].detail)
            &&& r[4].status == Health::Good <==> f.runtime is Ok
            &&& f.runtime matches Err(e) ==> r[4].detail == e@
            &&& r[5].status == Health::Good <==> f.running
            &&& r[6].status == Health::Good <==> f.ram_enough
            &&& r[7].status == Health::Good <==> f.vram is Some
            &&& r[8].status == Health::Failed <==> f.projects is Err
            &&& f.projects is Ok ==> (r[8].status == Health::Good <==> (f.projects->Ok_0).1@.len()
                == 0)
            &&& r[11].status == Health::Failed <==> f.artifacts is Err
            &&& f.artifacts matches Err(e) ==> r[11].detail == e@
        }),
{
    let r = rows(f);
    if let Err(e) = f.conversations {
        let d = r[1].detail;
        assert(e@ =~= d.subrange(d.len() - e@.len(), d.len() as int));
    }
    let (dir, d) = (f.models_dir@, r[2].detail);
    assert(dir =~= d.subrange(d.len() - dir.len(), d.len() as int));
    let (n, m) = (decimal::digits(f.models as nat), r[3].detail);
    assert(n =~= m.subrange(0, n.len() as int));
}

/// A measurement is matched by the beginning of its own message, the first of
/// that id; where `k` is that message, or -1.
pub proof fn law_a_measurement_goes_to_its_message(messages: Seq<Message>, id: Seq<char>, k: int)
    requires
        -1 <= k < messages.len(),
        k >= 0 ==> messages[k].id@ == id,
        forall|j: int|
            0 <= j < messages.len() && (j < k || k == -1) ==> (#[trigger] messages[j]).id@ != id,
    ensures
        k == -1 ==> excerpt_from(messages, id, 0) == Seq::<char>::empty(),
        k >= 0 && messages[k].content@.len() <= 120 ==> excerpt_from(messages, id, 0)
            == messages[k].content@,
        k >= 0 && messages[k].content@.len() > 120 ==> excerpt_from(messages, id, 0)
            == messages[k].content@.take(120),
{
    lemma_excerpt_from(messages, id, k, 0);
}

proof fn lemma_excerpt_from(messages: Seq<Message>, id: Seq<char>, k: int, i: int)
    requires
        0 <= i <= messages.len(),
        -1 <= k < messages.len(),
        k == -1 || i <= k,
        k >= 0 ==> messages[k].id@ == id,
        forall|j: int|
            0 <= j < messages.len() && (j < k || k == -1) ==> (#[trigger] messages[j]).id@ != id,
    ensures
        excerpt_from(messages, id, i) == (if k >= 0 {
            text::first_chars(messages[k].content@, 120)
        } else {
            Seq::empty()
        }),
    decreases messages.len() - i,
{
    if i < messages.len() && i != k {
        lemma_excerpt_from(messages, id, k, i + 1);
    }
}

} // verus!
