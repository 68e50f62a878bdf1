//! Calibrating a model on this machine: what is measured, in which order, and
//! how a measured profile changes a load.
use vstd::prelude::*;

use crate::boundary;
use crate::decimal;
use crate::fit;
use crate::load::InferenceConfig;
use crate::num;
use crate::text;

verus! {

/// The prompt that a micro-batch is measured on.
pub const MICRO_BATCH_PROMPT_TOKENS: u32 = 4_096;

/// Where the runtime puts a model's layers.
#[derive(Clone, Copy, Debug, PartialEq, Eq, Structural)]
pub enum Layers {
    Gpu,
    Hybrid,
    Cpu,
}

/// The runtime's tools are missing.
pub const NO_TOOLS: &'static str =
    "The runtime has no llama-bench or llama-fit-params next to llama-server. Rebuild the runtime (scripts/build-runtime) to include its tools.";

/// Nothing usable was measured.
pub const NO_MEASUREMENTS: &'static str =
    "The benchmark ran but produced no usable generation measurements.";

/// The context that is measured.
pub open spec fn within_limit(setting: int, model_limit: int) -> int {
    num::lesser(setting, num::greater(model_limit, 1))
}

/// A model is measured at the context that it is used with: the setting, and no
/// more than the model supports.
pub proof fn law_measured_as_used(setting: int, model_limit: int)
    requires
        0 <= model_limit,
    ensures
        within_limit(setting, model_limit) <= setting,
        model_limit > 0 ==> within_limit(setting, model_limit) <= model_limit,
        setting <= model_limit ==> within_limit(setting, model_limit) == setting,
        setting >= model_limit > 0 ==> within_limit(setting, model_limit) == model_limit,
{
}

/// The context that is measured: the setting, within what the model supports.
pub fn measured_context(setting: u32, model_limit: u32) -> (r: u32)
    ensures
        r == within_limit(setting as int, model_limit as int),
{
    let limit: u32 = if model_limit < 1 { 1 } else { model_limit };
    if setting < limit {
        setting
    } else {
        limit
    }
}

/// Why a calibration cannot begin.
pub open spec fn start_refusal(
    busy: Option<Seq<char>>,
    known: bool,
    id: Seq<char>,
    runtime_error: Option<Seq<char>>,
    has_tools: bool,
) -> Option<Seq<char>> {
    match busy {
        Some(e) => Some(e),
        None => if !known {
            Some("unknown model '"@ + id + "'"@)
        } else {
            match runtime_error {
                Some(e) => Some(e),
                None => if !has_tools {
                    Some(NO_TOOLS@)
                } else {
                    None
                },
            }
        },
    }
}

/// The view of an optional text.
pub open spec fn opt_text(t: Option<&str>) -> Option<Seq<char>> {
    match t {
        Some(s) => Some(s@),
        None => None,
    }
}

/// Why a calibration cannot begin: work is under way, the model or the runtime
/// is missing, or the runtime lacks its tools, whichever is found first.
pub fn admit_calibration(
    busy: Option<&str>,
    known: bool,
    id: &str,
    runtime_error: Option<&str>,
    has_tools: bool,
) -> (r: Option<String>)
    ensures
        match start_refusal(opt_text(busy), known, id@, opt_text(runtime_error), has_tools) {
            Some(t) => r is Some && r->0@ == t,
            None => r is None,
        },
{
    if let Some(e) = busy {
        return Some(e.to_owned());
    }
    if !known {
        let mut s = "unknown model '".to_owned();
        s.append(id);
        s.append("'");
        return Some(s);
    }
    if let Some(e) = runtime_error {
        return Some(e.to_owned());
    }
    if !has_tools {
        return Some(NO_TOOLS.to_owned());
    }
    None
}

/// The model is loaded the way such a load would be: without mapping the file
/// where that is chosen and anything goes to the GPU.
pub fn measures_without_mmap(layers: Layers, chosen: bool) -> (r: bool)
    ensures
        r == (layers != Layers::Cpu && chosen),
{
    match layers {
        Layers::Cpu => false,
        _ => chosen,
    }
}

/// Where the layers are, in words.
pub open spec fn layers_name(layers: Layers, experts_in_ram: bool) -> Seq<char> {
    match layers {
        Layers::Gpu => "every layer on the GPU"@,
        Layers::Hybrid => if experts_in_ram {
            "every layer on the GPU, some expert weights in RAM"@
        } else {
            "layers split between GPU and CPU"@
        },
        Layers::Cpu => "CPU only"@,
    }
}

/// What is said when the thread settings are measured.
pub fn threads_stage(settings: usize, layers: Layers, experts_in_ram: bool) -> (s: String)
    ensures
        s@ == "Measuring "@ + decimal::digits(settings as nat) + " thread settings ("@
            + layers_name(layers, experts_in_ram)
            + "). This loads the model once and takes a minute or two; with a GPU, micro-batch sizes are measured afterwards (several minutes more, with a 2-minute pause)."@,
{
    let mut s = "Measuring ".to_owned();
    let n = decimal::decimal(settings as u64);
    s.append(&n);
    s.append(" thread settings (");
    let place = match layers {
        Layers::Gpu => "every layer on the GPU",
        Layers::Hybrid => {
            if experts_in_ram {
                "every layer on the GPU, some expert weights in RAM"
            } else {
                "layers split between GPU and CPU"
            }
        },
        Layers::Cpu => "CPU only",
    };
    s.append(place);
    s.append(
        "). This loads the model once and takes a minute or two; with a GPU, micro-batch sizes are measured afterwards (several minutes more, with a 2-minute pause).",
    );
    s
}

/// A measured profile; the rates are given as they are shown.
#[derive(Debug, PartialEq, Eq)]
pub struct Profile {
    pub name: String,
    pub threads: u32,
    pub threads_batch: u32,
    pub poll: u32,
    pub priority: i32,
    pub generation_tps: String,
    pub generation_share: u32,
    pub prompt_tps: String,
    pub free_cores_generating: u32,
}

/// The first profile of that name from `i` on.
pub open spec fn profile_from(profiles: Seq<Profile>, name: Seq<char>, i: int) -> Option<int>
    decreases profiles.len() - i,
{
    if i >= profiles.len() {
        None
    } else if profiles[i].name@ == name {
        Some(i)
    } else {
        profile_from(profiles, name, i + 1)
    }
}

/// The first profile of that name.
pub fn find_profile(profiles: &[Profile], name: &str) -> (r: Option<usize>)
    ensures
        match profile_from(profiles@, name@, 0) {
            Some(i) => r is Some && r->0 == i && i < profiles@.len(),
            None => r is None,
        },
{
    let mut i: usize = 0;
    while i < profiles.len()
        invariant
            i <= profiles@.len(),
            profile_from(profiles@, name@, 0) == profile_from(profiles@, name@, i as int),
        decreases profiles@.len() - i,
    {
        if text::same(&profiles[i].name, name) {
            return Some(i);
        }
        i += 1;
    }
    None
}

/// The threads of the fastest profile, else one for each core.
pub open spec fn fastest_threads(profiles: Seq<Profile>, physical_cores: u32) -> int {
    match profile_from(profiles, "fastest"@, 0) {
        Some(i) => profiles[i].threads as int,
        None => num::greater(physical_cores as int, 1),
    }
}

/// The threads that micro-batches are measured with: the fastest profile's,
/// else one for each core.
pub fn measuring_threads(profiles: &[Profile], physical_cores: u32) -> (r: u32)
    ensures
        r == fastest_threads(profiles@, physical_cores),
{
    match find_profile(profiles, "fastest") {
        Some(i) => profiles[i].threads,
        None => if physical_cores < 1 { 1 } else { physical_cores },
    }
}

// ---- the micro-batch --------------------------------------------------------------------------------

/// How the runtime places the model at a size.
#[derive(Clone, Copy, Debug, PartialEq, Eq, Structural)]
pub struct SizeFit {
    pub layers: Layers,
    pub gpu_layers: i32,
    pub expert_blocks_on_cpu: u32,
    pub load_without_mmap: bool,
}

/// A size that the runtime can place, and how.
#[derive(Clone, Copy, Debug, PartialEq, Eq, Structural)]
pub struct FittedSize {
    pub size: u32,
    pub fit: SizeFit,
}

/// The sizes to fit: none where nothing is on the GPU.
pub fn sizes_to_fit(layers: Layers, candidates: Vec<u32>) -> (r: Vec<u32>)
    ensures
        r@ == (if layers == Layers::Cpu {
            Seq::empty()
        } else {
            candidates@
        }),
{
    match layers {
        Layers::Cpu => Vec::new(),
        _ => candidates,
    }
}

/// How a size is placed: the default as the model was placed, the others as
/// the runtime answered.
pub open spec fn fit_at(size: u32, base: SizeFit, answer: Option<SizeFit>) -> Option<SizeFit> {
    if size == fit::DEFAULT_MICRO_BATCH {
        Some(base)
    } else {
        answer
    }
}

/// The sizes among the first `n` that are measured. One without a fit, or
/// whose fit leaves nothing on the GPU, is left out.
pub open spec fn fitted_among(
    sizes: Seq<u32>,
    base: SizeFit,
    answers: Seq<Option<SizeFit>>,
    n: int,
) -> Seq<FittedSize>
    decreases n,
{
    if n <= 0 {
        Seq::empty()
    } else {
        let before = fitted_among(sizes, base, answers, n - 1);
        match fit_at(sizes[n - 1], base, answers[n - 1]) {
            Some(fit) => if fit.layers != Layers::Cpu {
                before.push(FittedSize { size: sizes[n - 1], fit })
            } else {
                before
            },
            None => before,
        }
    }
}

/// The sizes that are measured, each with its placement.
pub fn fitted_sizes(sizes: &[u32], base: SizeFit, answers: &[Option<SizeFit>]) -> (r: Vec<
    FittedSize,
>)
    requires
        answers@.len() == sizes@.len(),
    ensures
        r@ == fitted_among(sizes@, base, answers@, sizes@.len() as int),
{
    let mut r: Vec<FittedSize> = Vec::new();
    let mut i: usize = 0;
    while i < sizes.len()
        invariant
            i <= sizes@.len(),
            answers@.len() == sizes@.len(),
            r@ == fitted_among(sizes@, base, answers@, i as int),
        decreases sizes@.len() - i,
    {
        let size: u32 = sizes[i];
        let answer: Option<SizeFit> = if size == fit::DEFAULT_MICRO_BATCH {
            Some(base)
        } else {
            answers[i]
        };
        if let Some(fit) = answer {
            if fit.layers != Layers::Cpu {
                r.push(FittedSize { size, fit });
            }
        }
        i += 1;
    }
    r
}

/// A run of the benchmark at one size.
#[derive(Clone, Copy, Debug, PartialEq, Eq, Structural)]
pub struct Run {
    pub pass: u32,
    pub size: u32,
}

/// What comes next in measuring micro-batches.
#[derive(Clone, Copy, Debug, PartialEq, Eq, Structural)]
pub enum Measure {
    /// Let the GPU cool.
    Pause,
    /// Measure this size, placed so.
    Size { run: Run, fit: SizeFit },
    /// All sizes are measured.
    Done,
}

/// The measuring of micro-batches: the runs in their order, how far it is, and
/// whether the pause was made.
#[derive(Debug, PartialEq, Eq)]
pub struct Measuring {
    pub fitted: Vec<FittedSize>,
    pub order: Vec<Run>,
    pub next: usize,
    pub paused: bool,
}

/// The placement of a size, from `i` on.
pub open spec fn fit_of(fitted: Seq<FittedSize>, size: u32, i: int) -> Option<SizeFit>
    decreases fitted.len() - i,
{
    if i >= fitted.len() {
        None
    } else if fitted[i].size == size {
        Some(fitted[i].fit)
    } else {
        fit_of(fitted, size, i + 1)
    }
}

fn find_fit(fitted: &[FittedSize], size: u32) -> (r: Option<SizeFit>)
    ensures
        r == fit_of(fitted@, size, 0),
{
    let mut i: usize = 0;
    while i < fitted.len()
        invariant
            i <= fitted@.len(),
            fit_of(fitted@, size, 0) == fit_of(fitted@, size, i as int),
        decreases fitted@.len() - i,
    {
        if fitted[i].size == size {
            return Some(fitted[i].fit);
        }
        i += 1;
    }
    None
}

/// The next step and where it leaves the measuring: the pause once, before the
/// second pass, then each run whose size was placed, in order.
pub open spec fn next_measure(
    fitted: Seq<FittedSize>,
    order: Seq<Run>,
    next: int,
    paused: bool,
) -> (Measure, int, bool)
    decreases order.len() - next,
{
    if next >= order.len() {
        (Measure::Done, next, paused)
    } else if order[next].pass == 1 && !paused {
        (Measure::Pause, next, true)
    } else {
        match fit_of(fitted, order[next].size, 0) {
            Some(fit) => (Measure::Size { run: order[next], fit }, next + 1, paused),
            None => next_measure(fitted, order, next + 1, paused),
        }
    }
}

impl Measuring {
    /// The measuring before its first run.
    pub fn new(fitted: Vec<FittedSize>, order: Vec<Run>) -> (m: Self)
        ensures
            m.fitted == fitted,
            m.order == order,
            m.next == 0,
            !m.paused,
    {
        Measuring { fitted, order, next: 0, paused: false }
    }

    /// What comes next.
    pub fn step(&mut self) -> (r: Measure)
        requires
            old(self).next <= old(self).order@.len(),
        ensures
            final(self).fitted == old(self).fitted,
            final(self).order == old(self).order,
            ({
                let (m, next, paused) = next_measure(
                    old(self).fitted@,
                    old(self).order@,
                    old(self).next as int,
                    old(self).paused,
                );
                r == m && final(self).next == next && final(self).paused == paused
            }),
            final(self).next <= final(self).order@.len(),
    {
        let mut i: usize = self.next;
        while i < self.order.len()
            invariant
                i <= self.order@.len(),
                *self == *old(self),
                next_measure(
                    self.fitted@,
                    self.order@,
                    self.next as int,
                    self.paused,
                ) == next_measure(self.fitted@, self.order@, i as int, self.paused),
            decreases self.order@.len() - i,
        {
            let run = self.order[i];
            if run.pass == 1 && !self.paused {
                self.next = i;
                self.paused = true;
                return Measure::Pause;
            }
            if let Some(fit) = find_fit(&self.fitted, run.size) {
                self.next = i + 1;
                return Measure::Size { run, fit };
            }
            i += 1;
        }
        self.next = i;
        Measure::Done
    }
}

/// The pause is made at most once, and every other step but the last moves on
/// to a later run, so the measuring ends.
pub proof fn law_measuring_ends(
    fitted: Seq<FittedSize>,
    order: Seq<Run>,
    next: int,
    paused: bool,
)
    requires
        0 <= next <= order.len(),
    ensures
        ({
            let (m, after, then_paused) = next_measure(fitted, order, next, paused);
            &&& next <= after <= order.len()
            &&& m is Pause ==> !paused && then_paused
            &&& m is Size ==> next < after && then_paused == paused
            &&& m is Done ==> after == order.len()
        }),
    decreases order.len() - next,
{
    if next < order.len() && !(order[next].pass == 1 && !paused) && fit_of(
        fitted,
        order[next].size,
        0,
    ) is None {
        law_measuring_ends(fitted, order, next + 1, paused);
    }
}

/// The GPU has cooled before any run of the second pass is measured.
pub proof fn law_second_pass_follows_the_pause(
    fitted: Seq<FittedSize>,
    order: Seq<Run>,
    next: int,
    paused: bool,
)
    requires
        0 <= next <= order.len(),
    ensures
        next_measure(fitted, order, next, paused).0 matches Measure::Size { run, fit } ==> (run.pass
            == 1 ==> paused),
    decreases order.len() - next,
{
    if next < order.len() && !(order[next].pass == 1 && !paused) && fit_of(
        fitted,
        order[next].size,
        0,
    ) is None {
        law_second_pass_follows_the_pause(fitted, order, next + 1, paused);
    }
}

/// What is said when a size is measured.
pub fn size_stage(run: Run, context: u32) -> (s: String)
    requires
        run.pass < u32::MAX,
    ensures
        s@ == "Measuring a micro-batch of "@ + decimal::grouped(decimal::digits(run.size as nat))
            + " tokens with the placement that fits at that size (reads a "@ + decimal::grouped(
            decimal::digits(num::lesser(MICRO_BATCH_PROMPT_TOKENS as int, context as int) as nat),
        ) + "-token prompt; pass "@ + decimal::digits((run.pass + 1) as nat) + " of 2)."@,
{
    let prompt: u32 = if MICRO_BATCH_PROMPT_TOKENS < context {
        MICRO_BATCH_PROMPT_TOKENS
    } else {
        context
    };
    let mut s = "Measuring a micro-batch of ".to_owned();
    let size = decimal::group_thousands(run.size);
    s.append(&size);
    s.append(" tokens with the placement that fits at that size (reads a ");
    let read = decimal::group_thousands(prompt);
    s.append(&read);
    s.append("-token prompt; pass ");
    let pass = decimal::decimal((run.pass + 1) as u64);
    s.append(&pass);
    s.append(" of 2).");
    s
}

/// The first of the earlier calibrations that was measured under the same
/// conditions, from `i` on.
pub open spec fn comparable_from(comparable: Seq<bool>, i: int) -> Option<int>
    decreases comparable.len() - i,
{
    if i >= comparable.len() {
        None
    } else if comparable[i] {
        Some(i)
    } else {
        comparable_from(comparable, i + 1)
    }
}

/// The earlier calibration that a new one is compared with.
pub fn earlier_calibration(comparable: &[bool]) -> (r: Option<usize>)
    ensures
        match comparable_from(comparable@, 0) {
            Some(i) => r is Some && r->0 == i && i < comparable@.len(),
            None => r is None,
        },
{
    let mut i: usize = 0;
    while i < comparable.len()
        invariant
            i <= comparable@.len(),
            comparable_from(comparable@, 0) == comparable_from(comparable@, i as int),
        decreases comparable@.len() - i,
    {
        if comparable[i] {
            return Some(i);
        }
        i += 1;
    }
    None
}

// ---- the course ---------------------------------------------------------------------------------------

/// Where a calibration stands.
#[derive(Clone, Copy, Debug, PartialEq, Eq, Structural)]
pub enum Course {
    /// The loaded model is unloaded, so that only one is in memory.
    Unloading,
    /// The runtime is asked where the layers fit.
    Placing,
    /// The thread settings are measured.
    Threads { placed: SizeFit },
    /// The lightest setting is measured once more, sleeping between operations.
    Quiet { placed: SizeFit },
    /// The micro-batches are measured.
    Sizes,
    /// What was measured is saved.
    Saving,
    Ended,
}

/// What happened in a calibration. Measurements come as the profiles chosen
/// from all of them so far, if any could be.
#[derive(Debug, PartialEq, Eq)]
pub enum Progress {
    Unloaded,
    Placed(Result<SizeFit, String>),
    ThreadsMeasured(Result<Option<Vec<Profile>>, String>),
    QuietMeasured(Option<Vec<Profile>>),
    SizesMeasured,
    Saved(Result<(), String>),
}

/// What is to be done next in a calibration.
#[derive(Debug, PartialEq, Eq)]
pub enum Doing {
    Place,
    MeasureThreads,
    MeasureQuiet { threads: u32 },
    MeasureSizes { threads: u32 },
    Save,
    Finish,
    Fail(String),
    /// Nothing; the event was not awaited.
    Wait,
}

/// Why a calibration fails, where it does. No micro-batch makes it fail.
pub open spec fn failure(c: Course, p: Progress) -> Option<Seq<char>> {
    match (c, p) {
        (Course::Placing, Progress::Placed(Err(e))) => Some(
            "The runtime could not place this model: "@ + e@,
        ),
        (Course::Threads { .. }, Progress::ThreadsMeasured(Err(e))) => Some(e@),
        (Course::Threads { .. }, Progress::ThreadsMeasured(Ok(None))) => Some(NO_MEASUREMENTS@),
        (Course::Quiet { .. }, Progress::QuietMeasured(None)) => Some(NO_MEASUREMENTS@),
        (Course::Saving, Progress::Saved(Err(e))) => Some(
            "Measured, but could not save the calibration: "@ + e@,
        ),
        _ => None,
    }
}

/// What follows once the profiles are settled: micro-batches are measured
/// where the model uses the GPU and there are sizes to measure.
pub open spec fn settled(
    placed: SizeFit,
    profiles: Seq<Profile>,
    physical_cores: u32,
    sizes: bool,
) -> (Course, Doing) {
    if placed.layers != Layers::Cpu && sizes {
        (
            Course::Sizes,
            Doing::MeasureSizes { threads: fastest_threads(profiles, physical_cores) as u32 },
        )
    } else {
        (Course::Saving, Doing::Save)
    }
}

/// What follows an event that is no failure. `sizes` says whether there are
/// micro-batches to measure.
pub open spec fn follows(c: Course, p: Progress, physical_cores: u32, sizes: bool) -> (
    Course,
    Doing,
) {
    match (c, p) {
        (Course::Unloading, Progress::Unloaded) => (Course::Placing, Doing::Place),
        (Course::Placing, Progress::Placed(Ok(placed))) => (
            Course::Threads { placed },
            Doing::MeasureThreads,
        ),
        (Course::Threads { placed }, Progress::ThreadsMeasured(Ok(Some(profiles)))) => {
            match profile_from(profiles@, "light"@, 0) {
                Some(i) => (
                    Course::Quiet { placed },
                    Doing::MeasureQuiet { threads: profiles@[i].threads },
                ),
                None => settled(placed, profiles@, physical_cores, sizes),
            }
        },
        (Course::Quiet { placed }, Progress::QuietMeasured(Some(profiles))) => settled(
            placed,
            profiles@,
            physical_cores,
            sizes,
        ),
        (Course::Sizes, Progress::SizesMeasured) => (Course::Saving, Doing::Save),
        (Course::Saving, Progress::Saved(Ok(_))) => (Course::Ended, Doing::Finish),
        _ => (c, Doing::Wait),
    }
}

/// What follows once the profiles are settled.
fn settle(placed: SizeFit, profiles: &[Profile], physical_cores: u32, sizes: bool) -> (r: (
    Course,
    Doing,
))
    ensures
        r == settled(placed, profiles@, physical_cores, sizes),
{
    match placed.layers {
        Layers::Cpu => (Course::Saving, Doing::Save),
        _ => if sizes {
            let threads: u32 = measuring_threads(profiles, physical_cores);
            (Course::Sizes, Doing::MeasureSizes { threads })
        } else {
            (Course::Saving, Doing::Save)
        },
    }
}

impl Course {
    /// Takes in what happened, and says what is to be done next.
    pub fn advance(self, p: &Progress, physical_cores: u32, sizes: bool) -> (r: (Course, Doing))
        ensures
            match failure(self, *p) {
                Some(t) => r.0 == Course::Ended && r.1 is Fail && r.1->0@ == t,
                None => r == follows(self, *p, physical_cores, sizes),
            },
    {
        match (self, p) {
            (Course::Unloading, Progress::Unloaded) => (Course::Placing, Doing::Place),
            (Course::Placing, Progress::Placed(Ok(placed))) => (
                Course::Threads { placed: *placed },
                Doing::MeasureThreads,
            ),
            (Course::Placing, Progress::Placed(Err(e))) => {
                let mut s = "The runtime could not place this model: ".to_owned();
                s.append(e);
                (Course::Ended, Doing::Fail(s))
            },
            (Course::Threads { placed }, Progress::ThreadsMeasured(Ok(Some(profiles)))) => {
                match find_profile(profiles, "light") {
                    Some(i) => (
                        Course::Quiet { placed },
                        Doing::MeasureQuiet { threads: profiles[i].threads },
                    ),
                    None => settle(placed, profiles, physical_cores, sizes),
                }
            },
            (Course::Threads { .. }, Progress::ThreadsMeasured(Ok(None))) => (
                Course::Ended,
                Doing::Fail(NO_MEASUREMENTS.to_owned()),
            ),
            (Course::Threads { .. }, Progress::ThreadsMeasured(Err(e))) => (
                Course::Ended,
                Doing::Fail(e.as_str().to_owned()),
            ),
            (Course::Quiet { placed }, Progress::QuietMeasured(Some(profiles))) => settle(
                placed,
                profiles,
                physical_cores,
                sizes,
            ),
            (Course::Quiet { .. }, Progress::QuietMeasured(None)) => (
                Course::Ended,
                Doing::Fail(NO_MEASUREMENTS.to_owned()),
            ),
            (Course::Sizes, Progress::SizesMeasured) => (Course::Saving, Doing::Save),
            (Course::Saving, Progress::Saved(Ok(_))) => (Course::Ended, Doing::Finish),
            (Course::Saving, Progress::Saved(Err(e))) => {
                let mut s = "Measured, but could not save the calibration: ".to_owned();
                s.append(e);
                (Course::Ended, Doing::Fail(s))
            },
            _ => (self, Doing::Wait),
        }
    }
}

/// How far a calibration has come.
pub open spec fn distance(c: Course) -> int {
    match c {
        Course::Unloading => 0,
        Course::Placing => 1,
        Course::Threads { .. } => 2,
        Course::Quiet { .. } => 3,
        Course::Sizes => 4,
        Course::Saving => 5,
        Course::Ended => 6,
    }
}

/// A calibration only goes forward: whatever is done next, it has come
/// further than before; and once it ended nothing is done any more.
pub proof fn law_a_calibration_goes_forward(
    c: Course,
    p: Progress,
    physical_cores: u32,
    sizes: bool,
)
    requires
        failure(c, p) is None,
    ensures
        ({
            let (next, doing) = follows(c, p, physical_cores, sizes);
            &&& doing is Wait ==> next == c
            &&& !(doing is Wait) ==> distance(next) > distance(c)
            &&& c == Course::Ended ==> doing is Wait
            &&& doing is Finish ==> c == Course::Saving && next == Course::Ended
        }),
{
}

/// Nothing that happens with the micro-batches makes a calibration fail: what
/// was measured before them is saved all the same.
pub proof fn law_micro_batches_never_fail(p: Progress, physical_cores: u32, sizes: bool)
    ensures
        failure(Course::Sizes, p) is None,
        follows(Course::Sizes, Progress::SizesMeasured, physical_cores, sizes) == (
            Course::Saving,
            Doing::Save,
        ),
{
}

// ---- using a profile ----------------------------------------------------------------------------------

/// A word with its first letter in upper case.
pub open spec fn titled(word: Seq<char>) -> Seq<char> {
    if word.len() == 0 {
        Seq::empty()
    } else {
        boundary::uppercase(word[0]) + word.skip(1)
    }
}

/// A word with its first letter in upper case.
pub fn title_case(word: &str) -> (s: String)
    ensures
        s@ == titled(word@),
{
    let v = text::chars_of(word);
    if v.len() == 0 {
        return String::new();
    }
    let mut s = boundary::uppercase_text(v[0]);
    let rest = text::string_of(&v, 1, v.len());
    s.append(&rest);
    assert(rest@ =~= word@.skip(1));
    s
}

/// What is said of a profile that was used.
pub open spec fn profile_note(name: Seq<char>, p: Profile) -> Seq<char> {
    titled(name) + " profile from this model's calibration: "@ + decimal::digits(p.threads as nat)
        + " generation thread"@ + (if p.threads == 1 {
        ""@
    } else {
        "s"@
    }) + " and "@ + decimal::digits(p.threads_batch as nat) + " for prompts"@ + (if p.poll == 0 {
        ", sleeping between operations"@
    } else {
        ""@
    }) + (if p.priority < 0 {
        ", yielding the CPU to other applications"@
    } else {
        ""@
    }) + "; measured "@ + p.generation_tps@ + " tok/s generating ("@ + decimal::digits(
        p.generation_share as nat,
    ) + "% of the fastest) and "@ + p.prompt_tps@ + " tok/s reading prompts, leaving "@
        + decimal::digits(p.free_cores_generating as nat) + " cores free while generating."@
}

fn profile_note_of(name: &str, p: &Profile) -> (s: String)
    ensures
        s@ == profile_note(name@, *p),
{
    let mut s = title_case(name);
    s.append(" profile from this model's calibration: ");
    let threads = decimal::decimal(p.threads as u64);
    s.append(&threads);
    s.append(" generation thread");
    s.append(if p.threads == 1 { "" } else { "s" });
    s.append(" and ");
    let batch = decimal::decimal(p.threads_batch as u64);
    s.append(&batch);
    s.append(" for prompts");
    s.append(if p.poll == 0 { ", sleeping between operations" } else { "" });
    s.append(if p.priority < 0 { ", yielding the CPU to other applications" } else { "" });
    s.append("; measured ");
    s.append(&p.generation_tps);
    s.append(" tok/s generating (");
    let share = decimal::decimal(p.generation_share as u64);
    s.append(&share);
    s.append("% of the fastest) and ");
    s.append(&p.prompt_tps);
    s.append(" tok/s reading prompts, leaving ");
    let free = decimal::decimal(p.free_cores_generating as u64);
    s.append(&free);
    s.append(" cores free while generating.");
    s
}

/// The profile that a load uses: the chosen one, where the calibration still
/// describes this machine.
pub open spec fn usable_profile(
    profiles: Seq<Profile>,
    comparable: bool,
    name: Seq<char>,
) -> Option<Profile> {
    if !comparable {
        None
    } else {
        match profile_from(profiles, name, 0) {
            Some(i) => Some(profiles[i]),
            None => None,
        }
    }
}

/// A load with a profile's settings.
pub open spec fn with_profile(cfg: InferenceConfig, p: Profile) -> InferenceConfig {
    InferenceConfig {
        n_threads: p.threads,
        n_threads_batch: p.threads_batch,
        poll: Some(p.poll),
        priority: Some(p.priority),
        runtime_policy: match cfg.runtime_policy {
            Some(policy) => Some(
                crate::load::RuntimePolicy { threads: p.threads, ..policy },
            ),
            None => None,
        },
        ..cfg
    }
}

/// A load with the chosen profile of a model's latest calibration, and what is
/// said of it. The calibration is its profiles, and whether it still describes
/// this machine.
pub open spec fn with_calibration(
    cfg: InferenceConfig,
    name: Seq<char>,
    calibration: Option<(Seq<Profile>, bool)>,
) -> (InferenceConfig, Seq<char>) {
    match calibration {
        None => (
            cfg,
            titled(name)
                + " profile selected, but this model has not been calibrated on this machine yet, so automatic settings were used. Calibrate it from its details on the Models page."@,
        ),
        Some((profiles, comparable)) => match usable_profile(profiles, comparable, name) {
            Some(p) => (with_profile(cfg, p), profile_note(name, p)),
            None => (
                cfg,
                if !comparable {
                    titled(name)
                        + " profile selected, but this model's calibration was measured under different conditions (runtime build, device or power source changed), so automatic settings were used. Calibrate it again to refresh the profiles."@
                } else {
                    "The saved calibration has no such profile; automatic settings were used."@
                },
            ),
        },
    }
}

/// The view of a calibration.
pub open spec fn calibration_view(c: Option<(&[Profile], bool)>) -> Option<(Seq<Profile>, bool)> {
    match c {
        Some((profiles, comparable)) => Some((profiles@, comparable)),
        None => None,
    }
}

/// Applies the chosen profile of a model's calibration to a load, where the
/// calibration still describes this machine, and says what was done either
/// way. `calibration` is the latest one's profiles and whether it does.
pub fn apply_calibrated_profile(
    name: &str,
    calibration: Option<(&[Profile], bool)>,
    cfg: &mut InferenceConfig,
) -> (note: String)
    ensures
        *final(cfg) == with_calibration(*old(cfg), name@, calibration_view(calibration)).0,
        note@ == with_calibration(*old(cfg), name@, calibration_view(calibration)).1,
{
    match calibration {
        None => {
            let mut s = title_case(name);
            s.append(
                " profile selected, but this model has not been calibrated on this machine yet, so automatic settings were used. Calibrate it from its details on the Models page.",
            );
            s
        },
        Some((profiles, comparable)) => {
            if !comparable {
                let mut s = title_case(name);
                s.append(
                    " profile selected, but this model's calibration was measured under different conditions (runtime build, device or power source changed), so automatic settings were used. Calibrate it again to refresh the profiles.",
                );
                return s;
            }
            match find_profile(profiles, name) {
                None =>
                    "The saved calibration has no such profile; automatic settings were used.".to_owned(),
                Some(i) => {
                    let p = &profiles[i];
                    cfg.n_threads = p.threads;
                    cfg.n_threads_batch = p.threads_batch;
                    cfg.poll = Some(p.poll);
                    cfg.priority = Some(p.priority);
                    match cfg.runtime_policy.take() {
                        Some(mut policy) => {
                            policy.threads = p.threads;
                            cfg.runtime_policy = Some(policy);
                        },
                        None => {},
                    }
                    profile_note_of(name, p)
                },
            }
        },
    }
}

/// What a load takes from a calibration.
pub open spec fn reused(choice: Option<(u32, u32)>, comparable: bool) -> Option<(u32, u32)> {
    if comparable {
        choice
    } else {
        None
    }
}

/// What was measured on another machine, or on this one under other conditions,
/// is not used; what was measured on it as it is, is used as it was measured.
pub proof fn law_only_what_still_holds_is_reused(choice: Option<(u32, u32)>)
    ensures
        reused(choice, false) is None,
        reused(choice, true) == choice,
{
}

/// The micro-batch that a load takes from a calibration, and the extra expert
/// blocks measured with it, where the calibration still describes this machine.
pub fn calibrated_micro_batch(choice: Option<(u32, u32)>, comparable: bool) -> (r: Option<
    (u32, u32),
>)
    ensures
        r == reused(choice, comparable),
{
    if comparable {
        choice
    } else {
        None
    }
}

// ---- what is measured and used --------------------------------------------------------------------------

/// A calibration begins exactly where no work is under way, the model is known,
/// the runtime is there and has its tools; else the first that is missing is
/// told.
pub proof fn law_what_a_calibration_needs(
    busy: Option<Seq<char>>,
    known: bool,
    id: Seq<char>,
    runtime_error: Option<Seq<char>>,
    has_tools: bool,
)
    ensures
        start_refusal(busy, known, id, runtime_error, has_tools) is None <==> busy is None && known
            && runtime_error is None && has_tools,
        busy matches Some(e) ==> start_refusal(busy, known, id, runtime_error, has_tools) == Some(e),
        busy is None && known && runtime_error is Some ==> start_refusal(
            busy,
            known,
            id,
            runtime_error,
            has_tools,
        ) == runtime_error,
{
}

proof fn lemma_profile_from(profiles: Seq<Profile>, name: Seq<char>, i: int)
    requires
        0 <= i,
    ensures
        profile_from(profiles, name, i) matches Some(k) ==> i <= k < profiles.len()
            && profiles[k].name@ == name && forall|j: int|
            i <= j < k ==> (#[trigger] profiles[j]).name@ != name,
        profile_from(profiles, name, i) is None ==> forall|j: int|
            i <= j < profiles.len() ==> (#[trigger] profiles[j]).name@ != name,
    decreases profiles.len() - i,
{
    if i < profiles.len() && profiles[i].name@ != name {
        lemma_profile_from(profiles, name, i + 1);
    }
}

/// A profile is used only where the calibration still describes this machine,
/// and only one of the name that was chosen, the first there is; a load is then
/// set up with its threads, and else stays as it was.
pub proof fn law_the_chosen_profile_is_used(
    cfg: InferenceConfig,
    profiles: Seq<Profile>,
    comparable: bool,
    name: Seq<char>,
    k: int,
)
    requires
        0 <= k < profiles.len(),
        profiles[k].name@ == name,
        forall|j: int| 0 <= j < k ==> (#[trigger] profiles[j]).name@ != name,
    ensures
        ({
            let after = with_calibration(cfg, name, Some((profiles, comparable))).0;
            let p = profiles[k];
            &&& !comparable ==> after == cfg
            &&& comparable ==> {
                &&& after.n_threads == p.threads && after.n_threads_batch == p.threads_batch
                &&& after.poll == Some(p.poll) && after.priority == Some(p.priority)
                &&& after.n_ctx == cfg.n_ctx && after.model_path == cfg.model_path
                    && after.n_gpu_layers == cfg.n_gpu_layers && after.n_batch == cfg.n_batch
                &&& after.kv_cache_type_k == cfg.kv_cache_type_k && after.speculative
                    == cfg.speculative
                &&& cfg.runtime_policy is Some ==> after.runtime_policy is Some
                    && after.runtime_policy->0.threads == p.threads
                    && after.runtime_policy->0.notes == cfg.runtime_policy->0.notes
            }
            &&& with_calibration(cfg, name, None).0 == cfg
        }),
{
    lemma_profile_from(profiles, name, 0);
}

/// Without a profile of the chosen name a load stays as it was.
pub proof fn law_no_other_profile_is_used(
    cfg: InferenceConfig,
    profiles: Seq<Profile>,
    comparable: bool,
    name: Seq<char>,
)
    requires
        forall|j: int| 0 <= j < profiles.len() ==> (#[trigger] profiles[j]).name@ != name,
    ensures
        with_calibration(cfg, name, Some((profiles, comparable))).0 == cfg,
        usable_profile(profiles, comparable, name) is None,
{
    lemma_profile_from(profiles, name, 0);
}

/// Micro-batches are measured with the threads of the fastest profile, and with
/// one for each core where there is none; never with none.
pub proof fn law_measured_with_the_fastest_threads(
    profiles: Seq<Profile>,
    physical_cores: u32,
    k: int,
)
    requires
        -1 <= k < profiles.len(),
        k >= 0 ==> profiles[k].name@ == "fastest"@,
        forall|j: int|
            0 <= j < profiles.len() && (j < k || k == -1) ==> (#[trigger] profiles[j]).name@
                != "fastest"@,
    ensures
        k >= 0 ==> fastest_threads(profiles, physical_cores) == profiles[k].threads,
        k == -1 && physical_cores > 0 ==> fastest_threads(profiles, physical_cores)
            == physical_cores,
        k == -1 ==> fastest_threads(profiles, physical_cores) >= 1,
{
    lemma_profile_from(profiles, "fastest"@, 0);
}

/// The runtime's own size is placed as the model was; any other as the runtime
/// answered. A size is measured exactly where it has a placement with anything
/// on the GPU, in the order of the sizes.
pub proof fn law_which_sizes_are_measured(
    sizes: Seq<u32>,
    base: SizeFit,
    answers: Seq<Option<SizeFit>>,
    size: u32,
    answer: Option<SizeFit>,
)
    requires
        answers.len() == sizes.len(),
    ensures
        ({
            let n = sizes.len() as int;
            let before = fitted_among(sizes, base, answers, n);
            let after = fitted_among(sizes.push(size), base, answers.push(answer), n + 1);
            let placed = if size == 512 {
                Some(base)
            } else {
                answer
            };
            &&& placed is None || placed->0.layers == Layers::Cpu ==> after == before
            &&& placed is Some && placed->0.layers != Layers::Cpu ==> after == before.push(
                FittedSize { size, fit: placed->0 },
            )
            &&& fitted_among(Seq::empty(), base, Seq::empty(), 0) == Seq::<FittedSize>::empty()
        }),
{
    lemma_fitted_first(sizes, base, answers, size, answer, sizes.len() as int);
}

proof fn lemma_fitted_first(
    sizes: Seq<u32>,
    base: SizeFit,
    answers: Seq<Option<SizeFit>>,
    size: u32,
    answer: Option<SizeFit>,
    n: int,
)
    requires
        answers.len() == sizes.len(),
        0 <= n <= sizes.len(),
    ensures
        fitted_among(sizes.push(size), base, answers.push(answer), n) == fitted_among(
            sizes,
            base,
            answers,
            n,
        ),
    decreases n,
{
    if n > 0 {
        lemma_fitted_first(sizes, base, answers, size, answer, n - 1);
    }
}

/// Each run is measured in its turn, with the placement of its size; a run whose
/// size has none is passed over, and the pause comes before the second pass.
pub proof fn law_each_run_is_measured_in_turn(
    fitted: Seq<FittedSize>,
    order: Seq<Run>,
    next: int,
    paused: bool,
    k: int,
)
    requires
        0 <= next < order.len(),
        -1 <= k < fitted.len(),
        k >= 0 ==> fitted[k].size == order[next].size,
        forall|j: int|
            0 <= j < fitted.len() && (j < k || k == -1) ==> (#[trigger] fitted[j]).size
                != order[next].size,
    ensures
        ({
            let (m, after, then_paused) = next_measure(fitted, order, next, paused);
            let waits = order[next].pass == 1 && !paused;
            &&& waits ==> m is Pause && after == next
            &&& !waits && k >= 0 ==> m == (Measure::Size { run: order[next], fit: fitted[k].fit })
                && after == next + 1
            &&& !waits && k == -1 ==> next_measure(fitted, order, next, paused) == next_measure(
                fitted,
                order,
                next + 1,
                paused,
            )
        }),
{
    lemma_fit_of(fitted, order[next].size, k, 0);
}

proof fn lemma_fit_of(fitted: Seq<FittedSize>, size: u32, k: int, i: int)
    requires
        0 <= i <= fitted.len(),
        -1 <= k < fitted.len(),
        k == -1 || i <= k,
        k >= 0 ==> fitted[k].size == size,
        forall|j: int|
            0 <= j < fitted.len() && (j < k || k == -1) ==> (#[trigger] fitted[j]).size != size,
    ensures
        fit_of(fitted, size, i) == (if k >= 0 {
            Some(fitted[k].fit)
        } else {
            None
        }),
    decreases fitted.len() - i,
{
    if i < fitted.len() && i != k {
        lemma_fit_of(fitted, size, k, i + 1);
    }
}

/// A calibration is compared with the first earlier one that was measured under
/// the same conditions, and with none where there is none.
pub proof fn law_compared_with_its_like(comparable: Seq<bool>, k: int)
    requires
        -1 <= k < comparable.len(),
        k >= 0 ==> comparable[k],
        forall|j: int|
            0 <= j < comparable.len() && (j < k || k == -1) ==> !(#[trigger] comparable[j]),
    ensures
        comparable_from(comparable, 0) == (if k >= 0 {
            Some(k)
        } else {
            None
        }),
{
    lemma_comparable(comparable, k, 0);
}

proof fn lemma_comparable(comparable: Seq<bool>, k: int, i: int)
    requires
        0 <= i <= comparable.len(),
        -1 <= k < comparable.len(),
        k == -1 || i <= k,
        k >= 0 ==> comparable[k],
        forall|j: int|
            0 <= j < comparable.len() && (j < k || k == -1) ==> !(#[trigger] comparable[j]),
    ensures
        comparable_from(comparable, i) == (if k >= 0 {
            Some(k)
        } else {
            None
        }),
    decreases comparable.len() - i,
{
    if i < comparable.len() && i != k {
        lemma_comparable(comparable, k, i + 1);
    }
}

/// The note on a profile begins with its name and the threads that were set.
pub proof fn law_a_used_profile_is_told(name: Seq<char>, p: Profile)
    ensures
        (titled(name) + " profile from this model's calibration: "@ + decimal::digits(
            p.threads as nat,
        )).is_prefix_of(profile_note(name, p)),
        name.len() > 0 ==> name.skip(1).is_suffix_of(titled(name)),
{
    let note = profile_note(name, p);
    let head = titled(name) + " profile from this model's calibration: "@ + decimal::digits(
        p.threads as nat,
    );
    assert(head =~= note.subrange(0, head.len() as int));
    if name.len() > 0 {
        let (t, rest) = (titled(name), name.skip(1));
        assert(rest =~= t.subrange(t.len() - rest.len(), t.len() as int));
    }
}

/// A calibration measures the lightest profile once more where there is one, and
/// micro-batches only where the model uses the GPU and there are sizes; then what
/// was measured is saved.
pub proof fn law_the_course_of_a_calibration(
    placed: SizeFit,
    profiles: Vec<Profile>,
    physical_cores: u32,
    sizes: bool,
    k: int,
)
    requires
        -1 <= k < profiles@.len(),
        k >= 0 ==> profiles@[k].name@ == "light"@,
        forall|j: int|
            0 <= j < profiles@.len() && (j < k || k == -1) ==> (#[trigger] profiles@[j]).name@
                != "light"@,
    ensures
        ({
            let (next, doing) = follows(
                Course::Threads { placed },
                Progress::ThreadsMeasured(Ok(Some(profiles))),
                physical_cores,
                sizes,
            );
            let (then, last) = follows(
                Course::Quiet { placed },
                Progress::QuietMeasured(Some(profiles)),
                physical_cores,
                sizes,
            );
            let measures = placed.layers != Layers::Cpu && sizes;
            &&& k >= 0 ==> doing == (Doing::MeasureQuiet { threads: profiles@[k].threads })
            &&& k == -1 && measures ==> doing is MeasureSizes
            &&& k == -1 && !measures ==> doing is Save
            &&& measures ==> last is MeasureSizes
            &&& !measures ==> last is Save
        }),
{
    lemma_profile_from(profiles@, "light"@, 0);
}

/// Where a model's layers are is told, each place by its own words.
pub proof fn law_each_place_has_its_words(layers: Layers, experts: bool)
    ensures
        layers_name(Layers::Cpu, experts) == "CPU only"@,
        layers_name(Layers::Gpu, experts) != layers_name(Layers::Hybrid, experts),
        layers_name(Layers::Cpu, experts) != layers_name(Layers::Hybrid, experts),
        layers_name(Layers::Gpu, experts) != layers_name(Layers::Cpu, experts),
{
    reveal_strlit("every layer on the GPU");
    reveal_strlit("every layer on the GPU, some expert weights in RAM");
    reveal_strlit("layers split between GPU and CPU");
    reveal_strlit("CPU only");
    assert("every layer on the GPU"@.len() == 22);
    assert("every layer on the GPU, some expert weights in RAM"@.len() == 50);
    assert("layers split between GPU and CPU"@.len() == 32);
    assert("CPU only"@.len() == 8);
}

/// A calibration fails where the model cannot be placed, where nothing usable was
/// measured and where what was measured cannot be saved, each with its reason;
/// no other event makes it fail, and none that it does not wait for.
pub proof fn law_when_a_calibration_fails(placed: SizeFit, e: String, profiles: Vec<Profile>)
    ensures
        failure(Course::Placing, Progress::Placed(Err(e))) is Some && e@.is_suffix_of(
            failure(Course::Placing, Progress::Placed(Err(e)))->0,
        ),
        failure(Course::Threads { placed }, Progress::ThreadsMeasured(Err(e))) == Some(e@),
        failure(Course::Threads { placed }, Progress::ThreadsMeasured(Ok(None))) is Some,
        failure(Course::Quiet { placed }, Progress::QuietMeasured(None)) is Some,
        failure(Course::Saving, Progress::Saved(Err(e))) is Some && e@.is_suffix_of(
            failure(Course::Saving, Progress::Saved(Err(e)))->0,
        ),
        failure(Course::Unloading, Progress::Placed(Err(e))) is None,
        failure(Course::Placing, Progress::Placed(Ok(placed))) is None,
        failure(Course::Threads { placed }, Progress::ThreadsMeasured(Ok(Some(profiles)))) is None,
        failure(Course::Quiet { placed }, Progress::QuietMeasured(Some(profiles))) is None,
        failure(Course::Saving, Progress::Saved(Ok(()))) is None,
        failure(Course::Ended, Progress::Saved(Err(e))) is None,
{
    let a = failure(Course::Placing, Progress::Placed(Err(e)))->0;
    assert(e@ =~= a.subrange(a.len() - e@.len(), a.len() as int));
    let b = failure(Course::Saving, Progress::Saved(Err(e)))->0;
    assert(e@ =~= b.subrange(b.len() - e@.len(), b.len() as int));
}

} // verus!
