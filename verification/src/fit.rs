//! How a model is placed on the GPU: which settings are probed, which one is
//! chosen, and how the choice is explained. The probes themselves are run
//! elsewhere; each step here takes their answers.
use vstd::prelude::*;

use crate::decimal;
use crate::num;
use crate::text;
use crate::types;

verus! {

/// The runtime's own micro-batch.
pub const DEFAULT_MICRO_BATCH: u32 = 512;

/// The larger micro-batch that is tried by default.
pub const BALANCED_MICRO_BATCH: u32 = 1024;

/// What the runtime fits on the GPU.
#[derive(Clone, Copy, Debug, PartialEq, Eq, Structural)]
pub enum Fit {
    /// Every layer.
    AllLayers,
    /// Every layer but the experts of some blocks.
    ExpertsOnCpu { blocks: u32, layers: u32 },
    /// Some layers.
    Layers(u32),
}

/// A cache precision and the VRAM left free with it.
#[derive(Debug, PartialEq, Eq)]
pub struct Combination {
    pub cache: String,
    pub margin: u32,
}

/// One question to the runtime: what fits with these settings?
#[derive(Debug, PartialEq, Eq)]
pub struct ProbeRequest {
    pub context: u32,
    pub cache: String,
    pub margin_mib: u32,
    pub micro_batch: u32,
}

/// What a question asks.
pub struct Probe {
    pub context: u32,
    pub cache: Seq<char>,
    pub margin_mib: int,
    pub micro_batch: u32,
}

impl View for ProbeRequest {
    type V = Probe;

    open spec fn view(&self) -> Probe {
        Probe {
            context: self.context,
            cache: self.cache@,
            margin_mib: self.margin_mib as int,
            micro_batch: self.micro_batch,
        }
    }
}

/// Where a model ends up.
#[derive(Clone, Copy, Debug, PartialEq, Eq, Structural)]
pub enum Placement {
    Gpu,
    Hybrid,
}

/// The name of a placement.
pub open spec fn placement_name(p: Placement) -> Seq<char> {
    match p {
        Placement::Gpu => "gpu"@,
        Placement::Hybrid => "hybrid"@,
    }
}

/// The name of a placement.
pub fn placement_text(p: Placement) -> (s: &'static str)
    ensures
        s@ == placement_name(p),
{
    match p {
        Placement::Gpu => "gpu",
        Placement::Hybrid => "hybrid",
    }
}

/// How a model is loaded, and why.
#[derive(Debug, PartialEq, Eq)]
pub struct FitDecision {
    pub requested: u32,
    pub context: u32,
    pub cache: String,
    pub margin: u32,
    pub micro_batch: Option<u32>,
    pub fit: Fit,
    pub placement: Placement,
    pub placement_at_default: Placement,
    pub draft_head_dropped: bool,
    pub notes: Vec<String>,
    pub micro_batch_note: Option<String>,
    pub free_vram_mib: Option<u64>,
}

// ---- a search -------------------------------------------------------------------------

/// A search for the best placement.
#[derive(Debug, PartialEq, Eq)]
pub struct FitSearch {
    pub requested: u32,
    /// In order of preference, the most permissive last.
    pub combinations: Vec<Combination>,
    /// The requested context is kept whatever it costs.
    pub keeps_requested: bool,
    /// The calibrated micro-batch and the expert blocks it was measured to
    /// move.
    pub calibrated: Option<(u32, u32)>,
    /// VRAM that the draft head takes beside the margin; none once it is off.
    pub reserve: u32,
    pub draft_head_dropped: bool,
    pub concurrency: usize,
    /// Probes have run side by side.
    pub batched: bool,
    pub notes: Vec<String>,
}

/// The question about one combination.
pub open spec fn probe_of(c: Combination, context: u32, reserve: u32, micro_batch: u32) -> Probe {
    Probe { context, cache: c.cache@, margin_mib: c.margin + reserve, micro_batch }
}

/// The answer ends a row of questions: everything fits, or the runtime cannot
/// say.
pub open spec fn settles(r: Result<Fit, String>) -> bool {
    match r {
        Ok(fit) => fit == Fit::AllLayers,
        Err(_) => true,
    }
}

/// Some answer among the first `n` settles the row.
pub open spec fn any_settles(results: Seq<Result<Fit, String>>, n: int) -> bool
    decreases n,
{
    n > 0 && (settles(results[n - 1]) || any_settles(results, n - 1))
}

/// The first answer from `from` on that is an error, before any that keeps
/// every layer on the GPU.
pub open spec fn first_error(results: Seq<Result<Fit, String>>, count: int, from: int) -> Option<int>
    decreases count - from,
{
    if from < 0 || from >= count || from >= results.len() {
        None
    } else {
        match results[from] {
            Err(_) => Some(from),
            Ok(fit) => if fit == Fit::AllLayers {
                None
            } else {
                first_error(results, count, from + 1)
            },
        }
    }
}

/// The fits from `from` on, up to the first that keeps every layer on the GPU
/// or the first error.
pub open spec fn fits_read(results: Seq<Result<Fit, String>>, count: int, from: int) -> Seq<Fit>
    decreases count - from,
{
    if from < 0 || from >= count || from >= results.len() {
        Seq::empty()
    } else {
        match results[from] {
            Err(_) => Seq::empty(),
            Ok(fit) => if fit == Fit::AllLayers {
                seq![fit]
            } else {
                seq![fit] + fits_read(results, count, from + 1)
            },
        }
    }
}

/// What becomes of the answers at the requested context.
#[derive(Debug, PartialEq, Eq)]
pub enum AtRequested {
    /// A probe failed: the notes to keep.
    Unavailable(Vec<String>),
    /// The draft head would cost layers: it is off now, ask again.
    Retry,
    /// The fits of the combinations in order, up to the first that keeps every
    /// layer.
    Fits(Vec<Fit>),
}

/// The note on a fit that could not be measured.
pub open spec fn unavailable_note(error: Seq<char>) -> Seq<char> {
    "The runtime's memory fit was unavailable ("@ + error + "); the estimated plan was used."@
}

/// The note on a fit that could not be measured.
pub fn unavailable(error: &str) -> (r: Vec<String>)
    ensures
        types::texts(r@) == seq![unavailable_note(error@)],
{
    let mut s = "The runtime's memory fit was unavailable (".to_owned();
    s.append(error);
    s.append("); the estimated plan was used.");
    let mut r: Vec<String> = Vec::new();
    r.push(s);
    assert(types::texts(r@) =~= seq![unavailable_note(error@)]);
    r
}

/// The note on a draft head that is off.
pub open spec fn draft_head_note(requested: u32) -> Seq<char> {
    "This model's built-in draft head is off for this load: its extra ~0.9 GB of VRAM would move layers to the CPU at "@
        + decimal::grouped(decimal::digits(requested as nat))
        + " tokens, which measured slower on a 27B model at 32K (generation 37.2 → 32.2 tok/s, 33.9 → 22.0 deep in the context). N-gram drafting stays on; a smaller context leaves room for the head."@
}

/// The smallest context that is tried.
pub open spec fn floor_of(requested: u32) -> u32 {
    if requested < 4096 {
        requested
    } else {
        4096
    }
}

/// What is known of the placement at the runtime's own micro-batch.
#[derive(Clone, Copy, Debug, PartialEq, Eq, Structural)]
pub struct Placed {
    pub context: u32,
    /// Position of the combination.
    pub at: usize,
    pub placement: Placement,
    pub fit: Fit,
}

/// What follows from the best fit at the requested context.
#[derive(Debug, PartialEq, Eq)]
pub enum Choice {
    /// Nothing was measured.
    Unavailable,
    Settled(Placed),
    /// Look for a smaller context that keeps every layer on the GPU.
    Shrink,
}

impl FitSearch {
    /// Every margin leaves room for the reserve in 32 bits.
    pub open spec fn well_formed(self) -> bool {
        forall|k: int|
            0 <= k < self.combinations@.len() ==> (#[trigger] self.combinations@[k]).margin
                + self.reserve <= u32::MAX
    }

    /// Starts a search. `reserve` is what the draft head takes, where there is
    /// one.
    pub fn new(
        requested: u32,
        combinations: Vec<Combination>,
        keeps_requested: bool,
        calibrated: Option<(u32, u32)>,
        draft_head: bool,
        draft_reserve_mib: u32,
        concurrency: usize,
    ) -> (s: FitSearch)
        requires
            forall|k: int|
                0 <= k < combinations@.len() ==> (#[trigger] combinations@[k]).margin
                    + draft_reserve_mib <= u32::MAX,
        ensures
            s.well_formed(),
            s.requested == requested,
            s.combinations == combinations,
            s.keeps_requested == keeps_requested,
            s.calibrated == calibrated,
            s.reserve == (if draft_head {
                draft_reserve_mib
            } else {
                0
            }),
            !s.draft_head_dropped,
            s.concurrency == concurrency,
            !s.batched,
            s.notes@.len() == 0,
    {
        FitSearch {
            requested,
            combinations,
            keeps_requested,
            calibrated,
            reserve: if draft_head {
                draft_reserve_mib
            } else {
                0
            },
            draft_head_dropped: false,
            concurrency,
            batched: false,
            notes: Vec::new(),
        }
    }

    /// The questions about the combinations from `from` up to `to`.
    pub fn probes(&self, from: usize, to: usize, context: u32, micro_batch: u32) -> (r: Vec<
        ProbeRequest,
    >)
        requires
            self.well_formed(),
            from <= to <= self.combinations@.len(),
        ensures
            r@.len() == to - from,
            forall|k: int|
                0 <= k < r@.len() ==> (#[trigger] r@[k])@ == probe_of(
                    self.combinations@[from + k],
                    context,
                    self.reserve,
                    micro_batch,
                ),
    {
        let mut r: Vec<ProbeRequest> = Vec::new();
        let mut i: usize = from;
        while i < to
            invariant
                self.well_formed(),
                from <= i <= to <= self.combinations@.len(),
                r@.len() == i - from,
                forall|k: int|
                    0 <= k < r@.len() ==> (#[trigger] r@[k])@ == probe_of(
                        self.combinations@[from + k],
                        context,
                        self.reserve,
                        micro_batch,
                    ),
            decreases to - i,
        {
            let c = &self.combinations[i];
            r.push(
                ProbeRequest {
                    context,
                    cache: c.cache.clone(),
                    margin_mib: c.margin + self.reserve,
                    micro_batch,
                },
            );
            i += 1;
        }
        r
    }

    /// The first question at the requested context: the preferred combination
    /// alone, which most models fit with.
    pub fn first_probes(&self) -> (r: Vec<ProbeRequest>)
        requires
            self.well_formed(),
        ensures
            r@.len() == num::lesser(self.combinations@.len() as int, 1),
            r@.len() == 1 ==> r@[0]@ == probe_of(
                self.combinations@[0],
                self.requested,
                self.reserve,
                DEFAULT_MICRO_BATCH,
            ),
    {
        let n: usize = if self.combinations.len() < 1 { 0 } else { 1 };
        self.probes(0, n, self.requested, DEFAULT_MICRO_BATCH)
    }

    /// The questions that follow the first at the requested context: none
    /// where its answer settles the matter, else about all other combinations.
    pub fn rest_probes(&mut self, first: &[Result<Fit, String>]) -> (r: Vec<ProbeRequest>)
        requires
            old(self).well_formed(),
            first@.len() == num::lesser(old(self).combinations@.len() as int, 1),
        ensures
            ({
                let n = old(self).combinations@.len() as int;
                let settled = any_settles(first@, first@.len() as int);
                &&& *final(self) == (FitSearch {
                    batched: old(self).batched || (old(self).concurrency > 1 && n > 1 && !settled),
                    ..*old(self)
                })
                &&& r@.len() == (if settled || n == 0 {
                    0
                } else {
                    n - 1
                })
                &&& forall|k: int|
                    0 <= k < r@.len() ==> (#[trigger] r@[k])@ == probe_of(
                        old(self).combinations@[k + 1],
                        old(self).requested,
                        old(self).reserve,
                        DEFAULT_MICRO_BATCH,
                    )
            }),
    {
        let n: usize = self.combinations.len();
        let settled = first.len() > 0 && (match &first[0] {
            Ok(fit) => *fit == Fit::AllLayers,
            Err(_) => true,
        });
        proof {
            reveal_with_fuel(any_settles, 2);
            assert(settled == any_settles(first@, first@.len() as int));
        }
        if settled || n == 0 {
            return Vec::new();
        }
        if self.concurrency > 1 && n > 1 {
            self.batched = true;
        }
        self.probes(1, n, self.requested, DEFAULT_MICRO_BATCH)
    }

    /// Reads the answers at the requested context, in the order of the
    /// combinations. The draft head stays on only where some combination still
    /// keeps every layer on the GPU.
    pub fn read_requested(&mut self, results: &[Result<Fit, String>]) -> (r: AtRequested)
        requires
            old(self).well_formed(),
        ensures
            final(self).well_formed(),
            ({
                let n = old(self).combinations@.len() as int;
                let fits = fits_read(results@, n, 0);
                match first_error(results@, n, 0) {
                    Some(k) => {
                        &&& *final(self) == *old(self)
                        &&& r matches AtRequested::Unavailable(notes) && types::texts(notes@)
                            == seq![unavailable_note(results@[k]->Err_0@)]
                    },
                    None => if old(self).reserve > 0 && fits.len() > 0 && !fits.contains(
                        Fit::AllLayers,
                    ) {
                        &&& r is Retry
                        &&& types::texts(final(self).notes@) == types::texts(old(self).notes@).push(
                            draft_head_note(old(self).requested),
                        )
                        &&& *final(self) == (FitSearch {
                            reserve: 0,
                            draft_head_dropped: true,
                            notes: final(self).notes,
                            ..*old(self)
                        })
                    } else {
                        &&& r matches AtRequested::Fits(v) && v@ == fits
                        &&& *final(self) == *old(self)
                    },
                }
            }),
    {
        let n: usize = if results.len() < self.combinations.len() {
            results.len()
        } else {
            self.combinations.len()
        };
        let ghost count = self.combinations@.len() as int;
        let mut fits: Vec<Fit> = Vec::new();
        let mut complete = false;
        let mut i: usize = 0;
        assert(fits@ + fits_read(results@, count, 0) =~= fits_read(results@, count, 0));
        while i < n
            invariant_except_break
                !complete,
                first_error(results@, count, 0) == first_error(results@, count, i as int),
                fits_read(results@, count, 0) == fits@ + fits_read(results@, count, i as int),
                forall|k: int| 0 <= k < fits@.len() ==> #[trigger] fits@[k] != Fit::AllLayers,
            invariant
                i <= n,
                n <= results@.len(),
                n <= count,
                n == results@.len() || n == count,
                self.well_formed(),
                *self == *old(self),
                count == self.combinations@.len(),
            ensures
                first_error(results@, count, 0) is None,
                fits_read(results@, count, 0) == fits@,
                complete == fits@.contains(Fit::AllLayers),
            decreases n - i,
        {
            match &results[i] {
                Err(e) => {
                    return AtRequested::Unavailable(unavailable(e));
                },
                Ok(fit) => {
                    let ghost was = fits@;
                    fits.push(*fit);
                    if *fit == Fit::AllLayers {
                        proof {
                            assert(was + seq![*fit] =~= fits@);
                            assert(fits@[fits@.len() - 1] == Fit::AllLayers);
                        }
                        complete = true;
                        break;
                    }
                    proof {
                        let rest = fits_read(results@, count, i + 1);
                        assert(was + (seq![*fit] + rest) =~= fits@ + rest);
                    }
                },
            }
            i += 1;
            proof {
                if i == n {
                    assert(fits@ + fits_read(results@, count, i as int) =~= fits@);
                }
            }
        }
        if self.reserve > 0 && fits.len() > 0 && !complete {
            self.reserve = 0;
            self.draft_head_dropped = true;
            let mut note =
                "This model's built-in draft head is off for this load: its extra ~0.9 GB of VRAM would move layers to the CPU at ".to_owned();
            let size = decimal::group_thousands(self.requested);
            note.append(&size);
            note.append(
                " tokens, which measured slower on a 27B model at 32K (generation 37.2 → 32.2 tok/s, 33.9 → 22.0 deep in the context). N-gram drafting stays on; a smaller context leaves room for the head.",
            );
            self.notes.push(note);
            assert(types::texts(self.notes@) =~= types::texts(old(self).notes@).push(
                draft_head_note(old(self).requested),
            ));
            return AtRequested::Retry;
        }
        AtRequested::Fits(fits)
    }
}

/// The note on a context that is kept though not every layer fits.
pub open spec fn kept_note(requested: u32, fit: Fit) -> Seq<char> {
    match fit {
        Fit::ExpertsOnCpu { .. } => "Context kept at "@ + decimal::digits(requested as nat)
            + " tokens as set; the runtime keeps some expert weights of this mixture-of-experts model in RAM, where the CPU runs only the experts each token uses."@,
        Fit::Layers(layers) => "Context kept at "@ + decimal::digits(requested as nat)
            + " tokens as set; at that size the runtime fits "@ + decimal::digits(layers as nat)
            + " layers on the GPU and runs the rest on the CPU, which is much slower (measured: two layers on the CPU cost an 8B model 28% of its speed)."@,
        Fit::AllLayers => Seq::empty(),
    }
}

/// The note on a context that is kept though not every layer fits.
fn kept_note_of(requested: u32, fit: Fit) -> (s: String)
    ensures
        s@ == kept_note(requested, fit),
{
    match fit {
        Fit::ExpertsOnCpu { .. } => {
            let mut s = "Context kept at ".to_owned();
            let n = decimal::decimal(requested as u64);
            s.append(&n);
            s.append(
                " tokens as set; the runtime keeps some expert weights of this mixture-of-experts model in RAM, where the CPU runs only the experts each token uses.",
            );
            s
        },
        Fit::Layers(layers) => {
            let mut s = "Context kept at ".to_owned();
            let n = decimal::decimal(requested as u64);
            s.append(&n);
            s.append(" tokens as set; at that size the runtime fits ");
            let l = decimal::decimal(layers as u64);
            s.append(&l);
            s.append(
                " layers on the GPU and runs the rest on the CPU, which is much slower (measured: two layers on the CPU cost an 8B model 28% of its speed).",
            );
            s
        },
        Fit::AllLayers => String::new(),
    }
}

/// The note on a model that never fits.
pub open spec fn never_fits_note(floor: u32, layers: u32) -> Seq<char> {
    "No setting keeps every layer on the GPU even at "@ + decimal::digits(floor as nat)
        + " tokens; the runtime fits "@ + decimal::digits(layers as nat)
        + " layers and runs the rest on the CPU."@
}

/// Two combinations are the same setting.
pub open spec fn same_setting(a: Combination, b: Combination) -> bool {
    a.cache@ == b.cache@ && a.margin == b.margin
}

/// The first combination from `from` on that is the same setting as the last.
pub open spec fn permissive_from(combinations: Seq<Combination>, from: int) -> int
    decreases combinations.len() - from,
{
    if from < 0 || from >= combinations.len() || same_setting(
        combinations[from],
        combinations.last(),
    ) {
        from
    } else {
        permissive_from(combinations, from + 1)
    }
}

/// The first answer from `from` on, among the first `count`, that keeps every
/// layer on the GPU.
pub open spec fn first_full(results: Seq<Result<Fit, String>>, count: int, from: int) -> Option<int>
    decreases count - from,
{
    if from < 0 || from >= count || from >= results.len() {
        None
    } else if results[from] == Ok::<Fit, String>(Fit::AllLayers) {
        Some(from)
    } else {
        first_full(results, count, from + 1)
    }
}

/// A placement at the requested context.
pub open spec fn placed_as_asked(requested: u32, at: usize, fit: Fit) -> Placed {
    Placed {
        context: requested,
        at,
        placement: if fit == Fit::AllLayers {
            Placement::Gpu
        } else {
            Placement::Hybrid
        },
        fit,
    }
}

/// What follows from the best fit at the requested context. Every layer on the
/// GPU settles it; where the context is to be kept, so does any fit; else a
/// smaller context is looked for.
pub open spec fn choice(requested: u32, keeps_requested: bool, best: Option<(usize, Fit)>) -> Choice {
    match best {
        None => Choice::Unavailable,
        Some((at, fit)) => if fit == Fit::AllLayers || keeps_requested {
            Choice::Settled(placed_as_asked(requested, at, fit))
        } else {
            Choice::Shrink
        },
    }
}

/// The placement at a smaller context that the last of `count` settings fits,
/// given the answers about the settings preferred to it.
pub open spec fn placed_smaller(
    context: u32,
    count: nat,
    headroom: Seq<Result<Fit, String>>,
) -> Placed {
    Placed {
        context,
        at: (match first_full(headroom, count as int, 0) {
            Some(k) => k,
            None => count - 1,
        }) as usize,
        placement: Placement::Gpu,
        fit: Fit::AllLayers,
    }
}

/// Where a search ends up, or `None` where the runtime could not be asked:
/// `best` is the best fit at the requested context, `smaller` the largest
/// context at which the last of `count` settings keeps every layer on the GPU,
/// and `headroom` the answers about the others there.
pub open spec fn search_result(
    requested: u32,
    keeps_requested: bool,
    count: nat,
    best: Option<(usize, Fit)>,
    smaller: Result<Option<u32>, String>,
    headroom: Seq<Result<Fit, String>>,
) -> Option<Placed> {
    match choice(requested, keeps_requested, best) {
        Choice::Unavailable => None,
        Choice::Settled(placed) => Some(placed),
        Choice::Shrink => match smaller {
            Err(_) => None,
            Ok(Some(context)) => Some(placed_smaller(context, count, headroom)),
            Ok(None) => Some(placed_as_asked(requested, (best->0).0, (best->0).1)),
        },
    }
}

/// The answer keeps every layer on the GPU.
fn is_full(r: &Result<Fit, String>) -> (b: bool)
    ensures
        b == (*r == Ok::<Fit, String>(Fit::AllLayers)),
{
    match r {
        Ok(fit) => *fit == Fit::AllLayers,
        Err(_) => false,
    }
}

impl FitSearch {
    /// What follows from the best fit at the requested context. Every layer on
    /// the GPU settles it; where the context is to be kept, so does any fit;
    /// else a smaller context is looked for.
    pub fn pick(&mut self, best: Option<(usize, Fit)>) -> (c: Choice)
        requires
            old(self).well_formed(),
        ensures
            final(self).well_formed(),
            c == choice(old(self).requested, old(self).keeps_requested, best),
            match best {
                None => *final(self) == *old(self),
                Some((at, fit)) => if fit == Fit::AllLayers {
                    *final(self) == *old(self)
                } else if old(self).keeps_requested {
                    &&& types::texts(final(self).notes@) == types::texts(old(self).notes@).push(
                        kept_note(old(self).requested, fit),
                    )
                    &&& *final(self) == (FitSearch { notes: final(self).notes, ..*old(self) })
                } else {
                    *final(self) == (FitSearch {
                        batched: old(self).batched || old(self).concurrency > 1,
                        ..*old(self)
                    })
                },
            },
    {
        match best {
            None => Choice::Unavailable,
            Some((at, fit)) => {
                if fit == Fit::AllLayers {
                    return Choice::Settled(
                        Placed { context: self.requested, at, placement: Placement::Gpu, fit },
                    );
                }
                if self.keeps_requested {
                    let note = kept_note_of(self.requested, fit);
                    self.notes.push(note);
                    assert(types::texts(self.notes@) =~= types::texts(old(self).notes@).push(
                        kept_note(old(self).requested, fit),
                    ));
                    return Choice::Settled(
                        Placed { context: self.requested, at, placement: Placement::Hybrid, fit },
                    );
                }
                if self.concurrency > 1 {
                    self.batched = true;
                }
                Choice::Shrink
            },
        }
    }

    /// The questions at a smaller context that the most permissive setting
    /// fits: about the settings preferred to it.
    pub fn headroom_probes(&self, context: u32) -> (r: Vec<ProbeRequest>)
        requires
            self.well_formed(),
            self.combinations@.len() > 0,
        ensures
            r@.len() == permissive_from(self.combinations@, 0),
            permissive_from(self.combinations@, 0) < self.combinations@.len(),
            forall|k: int|
                0 <= k < r@.len() ==> (#[trigger] r@[k])@ == probe_of(
                    self.combinations@[k],
                    context,
                    self.reserve,
                    DEFAULT_MICRO_BATCH,
                ),
    {
        let n: usize = self.combinations.len();
        let last = &self.combinations[n - 1];
        let mut i: usize = 0;
        while i < n - 1 && !(text::same(&self.combinations[i].cache, &last.cache)
            && self.combinations[i].margin == last.margin)
            invariant
                i < n,
                n == self.combinations@.len(),
                *last == self.combinations@.last(),
                permissive_from(self.combinations@, 0) == permissive_from(
                    self.combinations@,
                    i as int,
                ),
            decreases n - i,
        {
            i += 1;
        }
        self.probes(0, i, context, DEFAULT_MICRO_BATCH)
    }

    /// The placement at a smaller context: with the preferred setting that
    /// still keeps every layer on the GPU, or the most permissive one.
    pub fn shrunk(&self, context: u32, results: &[Result<Fit, String>]) -> (p: Placed)
        requires
            self.combinations@.len() > 0,
        ensures
            p == placed_smaller(context, self.combinations@.len(), results@),
            p.at < self.combinations@.len(),
    {
        let n: usize = self.combinations.len();
        let mut at: usize = n - 1;
        let mut i: usize = 0;
        while i < n && i < results.len()
            invariant_except_break
                first_full(results@, n as int, 0) == first_full(results@, n as int, i as int),
                at == n - 1,
            invariant
                i <= n,
                n == self.combinations@.len(),
                n > 0,
            ensures
                at < n,
                match first_full(results@, n as int, 0) {
                    Some(k) => at == k,
                    None => at == n - 1,
                },
            decreases n - i,
        {
            if is_full(&results[i]) {
                at = i;
                break;
            }
            i += 1;
        }
        Placed { context, at, placement: Placement::Gpu, fit: Fit::AllLayers }
    }

    /// The placement of a model that never fits: the request stays, with the
    /// most on the GPU.
    pub fn never_fits(&mut self, fallback: usize, fit: Fit) -> (p: Placed)
        ensures
            p == placed_as_asked(old(self).requested, fallback, fit),
            types::texts(final(self).notes@) == (match fit {
                Fit::Layers(layers) => types::texts(old(self).notes@).push(
                    never_fits_note(floor_of(old(self).requested), layers),
                ),
                _ => types::texts(old(self).notes@),
            }),
            *final(self) == (FitSearch { notes: final(self).notes, ..*old(self) }),
    {
        if let Fit::Layers(layers) = fit {
            let floor: u32 = if self.requested < 4096 { self.requested } else { 4096 };
            let mut note = "No setting keeps every layer on the GPU even at ".to_owned();
            let f = decimal::decimal(floor as u64);
            note.append(&f);
            note.append(" tokens; the runtime fits ");
            let l = decimal::decimal(layers as u64);
            note.append(&l);
            note.append(" layers and runs the rest on the CPU.");
            self.notes.push(note);
            assert(types::texts(self.notes@) =~= types::texts(old(self).notes@).push(
                never_fits_note(floor_of(old(self).requested), layers),
            ));
        }
        let placement = match fit {
            Fit::AllLayers => Placement::Gpu,
            _ => Placement::Hybrid,
        };
        Placed { context: self.requested, at: fallback, placement, fit }
    }
}

// ---- the micro-batch ----------------------------------------------------------------------

/// The micro-batches that are probed: the calibrated one, and the balanced one
/// unless the runtime's own was calibrated.
pub open spec fn sizes_probed(calibrated: Option<(u32, u32)>) -> Seq<u32> {
    match calibrated {
        Some((size, _)) => if size == DEFAULT_MICRO_BATCH {
            Seq::empty()
        } else if size == 0 || size == BALANCED_MICRO_BATCH {
            seq![BALANCED_MICRO_BATCH]
        } else {
            seq![size, BALANCED_MICRO_BATCH]
        },
        None => seq![BALANCED_MICRO_BATCH],
    }
}

/// The fit that was measured at a size.
pub open spec fn fit_at(sizes: Seq<u32>, fits: Seq<Option<Fit>>, size: u32) -> Option<Fit> {
    if sizes.len() > 0 && fits.len() > 0 && sizes[0] == size {
        fits[0]
    } else if sizes.len() > 1 && fits.len() > 1 && sizes[1] == size {
        fits[1]
    } else {
        None
    }
}

/// What the measured rule for trading speeds says.
pub const SPEED_RULE: &'static str =
    "the speed rule: at most 5% of generation given up, for at least 5x as much prompt reading gained";

/// Why a default micro-batch was chosen.
pub open spec fn size_reason(
    balanced: bool,
    at_size: Fit,
    at_default: Fit,
    measured: bool,
    free_blocks: u32,
) -> Seq<char> {
    if balanced {
        match at_size {
            Fit::AllLayers =>
                "every layer still fits on the GPU at that size, so prompts are read in larger steps at no cost to generation, which does not use the micro-batch."@,
            Fit::ExpertsOnCpu { blocks, .. } => if at_size == at_default || (at_default matches
                Fit::ExpertsOnCpu { blocks: b, .. } && b == blocks) {
                "the GPU keeps the same layers and expert weights at that size, so prompts are read in larger steps at no cost to generation."@
            } else {
                "its larger compute buffer moves the experts of at most "@ + decimal::digits(
                    free_blocks as nat,
                ) + " more block(s) to RAM, which "@ + SPEED_RULE@
                    + " allows (measured on a mixture-of-experts model: one more block cost 2.1% of generation for 46% faster prompt reading)."@
            },
            Fit::Layers(layers) => "the GPU keeps the same "@ + decimal::digits(layers as nat)
                + " layers at that size, so prompts are read in larger steps at no cost to generation."@,
        }
    } else if !measured {
        "the runtime's default; the fit at 1,024 could not be measured."@
    } else {
        "the runtime's default; 1,024 would move more of this model off the GPU than "@
            + SPEED_RULE@
            + " allows (a whole layer costs about 8% of generation, an expert block 2-5%)."@
    }
}

/// Why a default micro-batch was chosen.
fn size_reason_of(
    balanced: bool,
    at_size: Fit,
    at_default: Fit,
    measured: bool,
    free_blocks: u32,
) -> (s: String)
    ensures
        s@ == size_reason(balanced, at_size, at_default, measured, free_blocks),
{
    if balanced {
        match at_size {
            Fit::AllLayers =>
                "every layer still fits on the GPU at that size, so prompts are read in larger steps at no cost to generation, which does not use the micro-batch.".to_owned(),
            Fit::ExpertsOnCpu { blocks, .. } => {
                let same_blocks = match at_default {
                    Fit::ExpertsOnCpu { blocks: b, .. } => b == blocks,
                    _ => false,
                };
                if at_size == at_default || same_blocks {
                    "the GPU keeps the same layers and expert weights at that size, so prompts are read in larger steps at no cost to generation.".to_owned()
                } else {
                    let mut s =
                        "its larger compute buffer moves the experts of at most ".to_owned();
                    let n = decimal::decimal(free_blocks as u64);
                    s.append(&n);
                    s.append(" more block(s) to RAM, which ");
                    s.append(SPEED_RULE);
                    s.append(
                        " allows (measured on a mixture-of-experts model: one more block cost 2.1% of generation for 46% faster prompt reading).",
                    );
                    s
                }
            },
            Fit::Layers(layers) => {
                let mut s = "the GPU keeps the same ".to_owned();
                let n = decimal::decimal(layers as u64);
                s.append(&n);
                s.append(
                    " layers at that size, so prompts are read in larger steps at no cost to generation.",
                );
                s
            },
        }
    } else if !measured {
        "the runtime's default; the fit at 1,024 could not be measured.".to_owned()
    } else {
        let mut s =
            "the runtime's default; 1,024 would move more of this model off the GPU than ".to_owned();
        s.append(SPEED_RULE);
        s.append(" allows (a whole layer costs about 8% of generation, an expert block 2-5%).");
        s
    }
}

/// The answers about micro-batches, and what the rules say of them.
#[derive(Debug, PartialEq, Eq)]
pub struct SizeAnswers {
    /// The fits at the sizes probed, in their order.
    pub fits: Vec<Option<Fit>>,
    /// The fit at the calibrated size moves no more than was measured.
    pub calibrated_fits: bool,
    /// The size that the rule chooses without a calibration.
    pub default_size: u32,
    /// The expert blocks that the rule allows to move.
    pub free_blocks: u32,
}

/// The calibrated size is used: it is the runtime's own, or its fit was
/// measured and moves no more than the calibration did.
pub open spec fn uses_calibrated(calibrated: Option<(u32, u32)>, a: SizeAnswers) -> bool {
    calibrated matches Some((size, _)) && size > 0 && (size == DEFAULT_MICRO_BATCH || (fit_at(
        sizes_probed(calibrated),
        a.fits@,
        size,
    ) is Some && a.calibrated_fits))
}

/// A chosen micro-batch, the fit with it, and why.
#[derive(Debug, PartialEq, Eq)]
pub struct SizeChoice {
    pub size: u32,
    pub fit: Fit,
    pub note: String,
}

/// The fit with the chosen micro-batch.
pub open spec fn chosen_fit(
    calibrated: Option<(u32, u32)>,
    at_default: Fit,
    a: SizeAnswers,
) -> (u32, Fit) {
    if uses_calibrated(calibrated, a) {
        let size = (calibrated->0).0;
        (
            size,
            if size == DEFAULT_MICRO_BATCH {
                at_default
            } else {
                fit_at(sizes_probed(calibrated), a.fits@, size)->0
            },
        )
    } else {
        let balanced = fit_at(sizes_probed(calibrated), a.fits@, BALANCED_MICRO_BATCH);
        (
            a.default_size,
            if a.default_size == BALANCED_MICRO_BATCH && balanced is Some {
                balanced->0
            } else {
                at_default
            },
        )
    }
}

/// Why the chosen micro-batch was chosen.
pub open spec fn size_note(
    prefix: Seq<char>,
    calibrated: Option<(u32, u32)>,
    at_default: Fit,
    a: SizeAnswers,
) -> Seq<char> {
    let (size, fit) = chosen_fit(calibrated, at_default, a);
    let shown = prefix + decimal::grouped(decimal::digits(size as nat));
    if uses_calibrated(calibrated, a) {
        shown
            + " tokens while reading prompts, from this model's calibration: each size was measured on this machine with its own placement and this one chosen by "@
            + SPEED_RULE@ + "."@
    } else {
        shown + " tokens while reading prompts: "@ + size_reason(
            size == BALANCED_MICRO_BATCH,
            fit,
            at_default,
            fit_at(sizes_probed(calibrated), a.fits@, BALANCED_MICRO_BATCH) is Some,
            a.free_blocks,
        ) + (match calibrated {
            Some((c, _)) if c > 0 =>
                " This model's calibration chose "@ + decimal::grouped(decimal::digits(c as nat))
                + ", but at this load's context and cache that size would move more of the model off the GPU than the calibration measured (or could not be checked), so the default rule decided."@,
            _ => Seq::empty(),
        })
    }
}

/// The fit that was measured at a size.
fn fit_measured(sizes: &[u32], fits: &[Option<Fit>], size: u32) -> (r: Option<Fit>)
    ensures
        r == fit_at(sizes@, fits@, size),
{
    if sizes.len() > 0 && fits.len() > 0 && sizes[0] == size {
        fits[0]
    } else if sizes.len() > 1 && fits.len() > 1 && sizes[1] == size {
        fits[1]
    } else {
        None
    }
}

/// The micro-batches that are probed.
pub fn micro_batch_sizes(calibrated: Option<(u32, u32)>) -> (r: Vec<u32>)
    ensures
        r@ == sizes_probed(calibrated),
{
    let mut r: Vec<u32> = Vec::new();
    if let Some((size, _)) = calibrated {
        if size == DEFAULT_MICRO_BATCH {
            assert(r@ =~= sizes_probed(calibrated));
            return r;
        }
        if size != 0 && size != BALANCED_MICRO_BATCH {
            r.push(size);
        }
    }
    r.push(BALANCED_MICRO_BATCH);
    assert(r@ =~= sizes_probed(calibrated));
    r
}

/// Chooses the micro-batch: the calibrated one where this load moves no more
/// of the model than the calibration measured, else by the default rule.
pub fn choose_micro_batch(
    prefix: &str,
    calibrated: Option<(u32, u32)>,
    at_default: Fit,
    a: &SizeAnswers,
) -> (c: SizeChoice)
    ensures
        (c.size, c.fit) == chosen_fit(calibrated, at_default, *a),
        c.note@ == size_note(prefix@, calibrated, at_default, *a),
{
    let sizes = micro_batch_sizes(calibrated);
    let mut set_aside: Option<u32> = None;
    if let Some((size, _)) = calibrated {
        if size > 0 {
            let found = fit_measured(&sizes, &a.fits, size);
            let fit = if size == DEFAULT_MICRO_BATCH {
                Some(at_default)
            } else if a.calibrated_fits {
                found
            } else {
                None
            };
            if let Some(fit) = fit {
                let mut note = prefix.to_owned();
                let n = decimal::group_thousands(size);
                note.append(&n);
                note.append(
                    " tokens while reading prompts, from this model's calibration: each size was measured on this machine with its own placement and this one chosen by ",
                );
                note.append(SPEED_RULE);
                note.append(".");
                return SizeChoice { size, fit, note };
            }
            set_aside = Some(size);
        }
    }
    let balanced = fit_measured(&sizes, &a.fits, BALANCED_MICRO_BATCH);
    let size: u32 = a.default_size;
    let fit = match balanced {
        Some(f) => if size == BALANCED_MICRO_BATCH {
            f
        } else {
            at_default
        },
        None => at_default,
    };
    let reason = size_reason_of(
        size == BALANCED_MICRO_BATCH,
        fit,
        at_default,
        balanced.is_some(),
        a.free_blocks,
    );
    let mut aside = String::new();
    if let Some(c) = set_aside {
        aside.append(" This model's calibration chose ");
        let n = decimal::group_thousands(c);
        aside.append(&n);
        aside.append(
            ", but at this load's context and cache that size would move more of the model off the GPU than the calibration measured (or could not be checked), so the default rule decided.",
        );
    }
    proof {
        assert(!uses_calibrated(calibrated, *a));
        assert(aside@ =~= (match calibrated {
            Some((c, _)) if c > 0 =>
                " This model's calibration chose "@ + decimal::grouped(decimal::digits(c as nat))
                + ", but at this load's context and cache that size would move more of the model off the GPU than the calibration measured (or could not be checked), so the default rule decided."@,
            _ => Seq::empty(),
        }));
    }
    let mut note = prefix.to_owned();
    let n = decimal::group_thousands(size);
    note.append(&n);
    note.append(" tokens while reading prompts: ");
    note.append(&reason);
    note.append(&aside);
    SizeChoice { size, fit, note }
}

// ---- the decision ------------------------------------------------------------------------------

/// The note on a micro-batch that changes the kind of placement.
pub const TRADE_NOTE: &'static str =
    "Every layer fits on the GPU at the runtime's default micro-batch; the chosen micro-batch keeps some of the model in RAM, a trade measured for this model.";

/// The placement once the micro-batch is chosen: as before where the fit is,
/// else by the fit.
pub open spec fn placement_with(fit: Fit, at_default: Fit, before: Placement) -> Placement {
    if fit == at_default {
        before
    } else if fit == Fit::AllLayers {
        Placement::Gpu
    } else {
        Placement::Hybrid
    }
}

/// `d` is the decision of a search that placed a model so and chose that
/// micro-batch, if one.
pub open spec fn decided(
    search: FitSearch,
    placed: Placed,
    size: Option<SizeChoice>,
    d: FitDecision,
) -> bool {
    let fit = match size {
        Some(c) => c.fit,
        None => placed.fit,
    };
    let placement = placement_with(fit, placed.fit, placed.placement);
    &&& d.requested == search.requested
    &&& d.context == placed.context
    &&& d.cache@ == search.combinations@[placed.at as int].cache@
    &&& d.margin == search.combinations@[placed.at as int].margin
    &&& d.micro_batch == (match size {
        Some(c) => Some(c.size),
        None => None,
    })
    &&& d.fit == fit
    &&& d.placement == placement
    &&& d.placement_at_default == placed.placement
    &&& d.draft_head_dropped == search.draft_head_dropped
    &&& types::texts(d.notes@) == (if placed.placement == Placement::Gpu && placement
        == Placement::Hybrid {
        types::texts(search.notes@).push(TRADE_NOTE@)
    } else {
        types::texts(search.notes@)
    })
    &&& match size {
        Some(c) => d.micro_batch_note == Some(c.note),
        None => d.micro_batch_note is None,
    }
    &&& d.free_vram_mib is None
}

/// A decision is what was found: the context and the setting of the placement,
/// and the micro-batch with its fit where one was chosen. Every layer is on the
/// GPU only where the fit says so, and a micro-batch that takes layers off it is
/// noted; all that the search noted is kept.
pub proof fn law_a_decision_is_what_was_found(
    search: FitSearch,
    placed: Placed,
    size: Option<SizeChoice>,
    d: FitDecision,
)
    requires
        decided(search, placed, size, d),
        placed.at < search.combinations@.len(),
        placed.placement == Placement::Gpu <==> placed.fit == Fit::AllLayers,
    ensures
        d.requested == search.requested && d.context == placed.context,
        same_setting(
            search.combinations@[placed.at as int],
            (Combination { cache: d.cache, margin: d.margin }),
        ),
        size matches Some(c) ==> d.micro_batch == Some(c.size) && d.fit == c.fit,
        size is None ==> d.micro_batch is None && d.fit == placed.fit && d.placement
            == placed.placement,
        d.placement == Placement::Gpu <==> d.fit == Fit::AllLayers,
        d.placement_at_default == placed.placement,
        d.draft_head_dropped == search.draft_head_dropped,
        types::texts(search.notes@).is_prefix_of(types::texts(d.notes@)),
        d.placement == placed.placement ==> types::texts(d.notes@) == types::texts(search.notes@),
{
    let (a, b) = (types::texts(search.notes@), types::texts(d.notes@));
    assert(a =~= b.subrange(0, a.len() as int));
}

impl FitSearch {
    /// The questions about micro-batches, on the setting just chosen: none
    /// where nothing is on the GPU.
    pub fn size_probes(&mut self, placed: &Placed, uses_gpu: bool) -> (r: Vec<ProbeRequest>)
        requires
            old(self).well_formed(),
            placed.at < old(self).combinations@.len(),
        ensures
            ({
                let sizes = if uses_gpu {
                    sizes_probed(old(self).calibrated)
                } else {
                    Seq::empty()
                };
                &&& r@.len() == sizes.len()
                &&& forall|k: int|
                    0 <= k < r@.len() ==> (#[trigger] r@[k])@ == probe_of(
                        old(self).combinations@[placed.at as int],
                        placed.context,
                        old(self).reserve,
                        sizes[k],
                    )
                &&& *final(self) == (FitSearch {
                    batched: old(self).batched || (old(self).concurrency > 1 && sizes.len() > 1),
                    ..*old(self)
                })
            }),
    {
        let mut r: Vec<ProbeRequest> = Vec::new();
        if !uses_gpu {
            return r;
        }
        let sizes = micro_batch_sizes(self.calibrated);
        let c = &self.combinations[placed.at];
        let mut i: usize = 0;
        while i < sizes.len()
            invariant
                i <= sizes@.len(),
                r@.len() == i,
                c.margin + self.reserve <= u32::MAX,
                forall|k: int|
                    0 <= k < i ==> (#[trigger] r@[k])@ == probe_of(
                        *c,
                        placed.context,
                        self.reserve,
                        sizes@[k],
                    ),
            decreases sizes@.len() - i,
        {
            r.push(
                ProbeRequest {
                    context: placed.context,
                    cache: c.cache.clone(),
                    margin_mib: c.margin + self.reserve,
                    micro_batch: sizes[i],
                },
            );
            i += 1;
        }
        if self.concurrency > 1 && sizes.len() > 1 {
            self.batched = true;
        }
        r
    }

    /// The decision, from the placement at the runtime's own micro-batch and
    /// the micro-batch chosen, if one was.
    pub fn decide(self, placed: Placed, size: Option<SizeChoice>) -> (r: (FitDecision, bool))
        requires
            placed.at < self.combinations@.len(),
        ensures
            decided(self, placed, size, r.0),
            r.1 == self.batched,
    {
        let fit = match &size {
            Some(c) => c.fit,
            None => placed.fit,
        };
        let placement = if fit == placed.fit {
            placed.placement
        } else if fit == Fit::AllLayers {
            Placement::Gpu
        } else {
            Placement::Hybrid
        };
        let cache = self.combinations[placed.at].cache.clone();
        let margin: u32 = self.combinations[placed.at].margin;
        let mut notes = self.notes;
        if placed.placement == Placement::Gpu && placement == Placement::Hybrid {
            let ghost was = notes@;
            notes.push(TRADE_NOTE.to_owned());
            assert(types::texts(notes@) =~= types::texts(was).push(TRADE_NOTE@));
        }
        let (micro_batch, micro_batch_note) = match size {
            Some(c) => (Some(c.size), Some(c.note)),
            None => (None, None),
        };
        (
            FitDecision {
                requested: self.requested,
                context: placed.context,
                cache,
                margin,
                micro_batch,
                fit,
                placement,
                placement_at_default: placed.placement,
                draft_head_dropped: self.draft_head_dropped,
                notes,
                micro_batch_note,
                free_vram_mib: None,
            },
            self.batched,
        )
    }
}

/// What a search does to the context. It never exceeds the request. It is the
/// request where some setting keeps every layer on the GPU there, and where the
/// request is to be kept. A smaller one comes only with every layer on the GPU.
/// `answers` are those at the requested context in the order of the settings,
/// read up to the first that keeps every layer; the best of them keeps every
/// layer where one does, and the smaller context found is never above the
/// request.
pub proof fn law_the_context_shrinks_only_to_keep_every_layer(
    requested: u32,
    keeps_requested: bool,
    count: nat,
    answers: Seq<Result<Fit, String>>,
    best: Option<(usize, Fit)>,
    smaller: Result<Option<u32>, String>,
    headroom: Seq<Result<Fit, String>>,
)
    requires
        fits_read(answers, count as int, 0).contains(Fit::AllLayers) ==> (best matches Some(
            (_, fit),
        ) && fit == Fit::AllLayers),
        smaller matches Ok(Some(context)) ==> context <= requested,
    ensures
        search_result(requested, keeps_requested, count, best, smaller, headroom) matches Some(placed)
            ==> {
            &&& placed.context <= requested
            &&& keeps_requested ==> placed.context == requested
            &&& placed.context < requested ==> placed.placement == Placement::Gpu && placed.fit
                == Fit::AllLayers
        },
        first_error(answers, count as int, 0) is None && (exists|k: int|
            0 <= k < count && k < answers.len() && #[trigger] answers[k] == Ok::<Fit, String>(
                Fit::AllLayers,
            )) ==> search_result(requested, keeps_requested, count, best, smaller, headroom) == Some(
            placed_as_asked(requested, (best->0).0, Fit::AllLayers),
        ),
{
    if first_error(answers, count as int, 0) is None && exists|k: int|
        0 <= k < count && k < answers.len() && #[trigger] answers[k] == Ok::<Fit, String>(
            Fit::AllLayers,
        ) {
        let k = choose|k: int|
            0 <= k < count && k < answers.len() && #[trigger] answers[k] == Ok::<Fit, String>(
                Fit::AllLayers,
            );
        lemma_a_full_fit_is_read(answers, count as int, 0, k);
    }
}

/// An answer that keeps every layer on the GPU is read, or one before it is,
/// where no answer before it is an error.
proof fn lemma_a_full_fit_is_read(
    results: Seq<Result<Fit, String>>,
    count: int,
    from: int,
    k: int,
)
    requires
        0 <= from <= k < count,
        k < results.len(),
        results[k] == Ok::<Fit, String>(Fit::AllLayers),
        first_error(results, count, from) is None,
    ensures
        fits_read(results, count, from).contains(Fit::AllLayers),
    decreases k - from,
{
    let fits = fits_read(results, count, from);
    if results[from] == Ok::<Fit, String>(Fit::AllLayers) {
        assert(fits[0] == Fit::AllLayers);
    } else {
        lemma_a_full_fit_is_read(results, count, from + 1, k);
        let rest = fits_read(results, count, from + 1);
        let i = choose|i: int| 0 <= i < rest.len() && rest[i] == Fit::AllLayers;
        assert(fits[i + 1] == Fit::AllLayers);
    }
}

// ---- remembered decisions -------------------------------------------------------------------------

/// The context that is asked for.
pub open spec fn asked_context(requested: int, model_limit: int) -> int {
    num::greater(num::lesser(requested, num::greater(model_limit, 1)), 1)
}

/// A load asks for the context that was requested, as far as the model supports
/// it, and always for some.
pub proof fn law_no_load_asks_for_more_than_the_model_has(requested: int, model_limit: int)
    requires
        0 <= requested,
        0 <= model_limit,
    ensures
        asked_context(requested, model_limit) >= 1,
        model_limit > 0 ==> asked_context(requested, model_limit) <= model_limit,
        1 <= requested <= model_limit ==> asked_context(requested, model_limit) == requested,
        requested > model_limit && model_limit > 0 ==> asked_context(requested, model_limit)
            == model_limit,
{
}

/// The context that is asked for: never more than the model supports, never
/// nothing.
pub fn requested_context(requested: u32, model_limit: u32) -> (r: u32)
    ensures
        r == asked_context(requested as int, model_limit as int),
{
    let limit: u32 = if model_limit < 1 { 1 } else { model_limit };
    let fit: u32 = if requested < limit { requested } else { limit };
    if fit < 1 {
        1
    } else {
        fit
    }
}

/// Free VRAM in mebibytes.
pub open spec fn free_mib(total_bytes: int, used_bytes: int) -> int {
    num::less(total_bytes, used_bytes) / 1_048_576
}

/// What is free is what is not used, in whole mebibytes, and never less than
/// nothing.
pub proof fn law_what_is_free_is_not_used(total_bytes: int, used_bytes: int)
    requires
        0 <= used_bytes,
    ensures
        used_bytes <= total_bytes ==> used_bytes + free_mib(total_bytes, used_bytes) * 1_048_576
            <= total_bytes < used_bytes + (free_mib(total_bytes, used_bytes) + 1) * 1_048_576,
        used_bytes >= total_bytes ==> free_mib(total_bytes, used_bytes) == 0,
{
}

/// Free VRAM in mebibytes.
pub fn free_vram_mib(total_bytes: u64, used_bytes: u64) -> (r: u64)
    ensures
        r == free_mib(total_bytes as int, used_bytes as int),
{
    let free: u64 = if total_bytes < used_bytes { 0 } else { total_bytes - used_bytes };
    free / 1_048_576
}

/// Why a fit is looked up.
#[derive(Clone, Copy, Debug, PartialEq, Eq, Structural)]
pub enum FitPurpose {
    /// A model load: a remembered decision is confirmed with one probe.
    Load,
    /// The search ahead of a model's first load: a remembered decision is left
    /// alone.
    Prepare,
}

/// What is done about a fit.
#[derive(Clone, Copy, Debug, PartialEq, Eq, Structural)]
pub enum FitPlan {
    /// The remembered decision stands.
    Keep,
    /// It is confirmed with one probe.
    Confirm,
    /// A search is made.
    Search,
}

/// What is done about a fit, given whether a decision is remembered and
/// whether it can be reused on this machine as it is now.
pub open spec fn planned(purpose: FitPurpose, remembered: bool, reusable: bool) -> FitPlan {
    if !remembered {
        FitPlan::Search
    } else if purpose == FitPurpose::Prepare {
        FitPlan::Keep
    } else if reusable {
        FitPlan::Confirm
    } else {
        FitPlan::Search
    }
}

/// No load uses a remembered fit unconfirmed, or one that this machine has
/// outgrown; searching ahead of a load never goes over a fit that is remembered;
/// and where none is remembered one is searched for.
pub proof fn law_a_load_never_trusts_a_remembered_fit(
    purpose: FitPurpose,
    remembered: bool,
    reusable: bool,
)
    ensures
        planned(FitPurpose::Load, remembered, reusable) != FitPlan::Keep,
        planned(purpose, remembered, reusable) == FitPlan::Confirm <==> purpose == FitPurpose::Load
            && remembered && reusable,
        planned(FitPurpose::Prepare, true, reusable) == FitPlan::Keep,
        planned(purpose, false, reusable) == FitPlan::Search,
        planned(FitPurpose::Load, true, false) == FitPlan::Search,
{
}

/// What is done about a fit, given whether a decision is remembered and
/// whether it can be reused on this machine as it is now.
pub fn plan_fit(purpose: FitPurpose, remembered: bool, reusable: bool) -> (p: FitPlan)
    ensures
        p == planned(purpose, remembered, reusable),
{
    if !remembered {
        FitPlan::Search
    } else if purpose == FitPurpose::Prepare {
        FitPlan::Keep
    } else if reusable {
        FitPlan::Confirm
    } else {
        FitPlan::Search
    }
}

/// What the draft head takes under a decision.
pub open spec fn reserve_under(d: FitDecision, draft_head: bool, draft_reserve_mib: u32) -> u32 {
    if draft_head && !d.draft_head_dropped {
        draft_reserve_mib
    } else {
        0
    }
}

/// The question whose answer confirms a decision.
pub fn confirming_probe(d: &FitDecision, draft_head: bool, draft_reserve_mib: u32) -> (p:
    ProbeRequest)
    requires
        d.margin + draft_reserve_mib <= u32::MAX,
    ensures
        p@ == (Probe {
            context: d.context,
            cache: d.cache@,
            margin_mib: d.margin + reserve_under(*d, draft_head, draft_reserve_mib),
            micro_batch: match d.micro_batch {
                Some(size) => size,
                None => DEFAULT_MICRO_BATCH,
            },
        }),
{
    let reserve: u32 = if draft_head && !d.draft_head_dropped { draft_reserve_mib } else { 0 };
    ProbeRequest {
        context: d.context,
        cache: d.cache.clone(),
        margin_mib: d.margin + reserve,
        micro_batch: match d.micro_batch {
            Some(size) => size,
            None => DEFAULT_MICRO_BATCH,
        },
    }
}

/// Whether an answer confirms a decision: it is the very fit that was decided.
pub fn confirms(d: &FitDecision, answer: &Result<Fit, String>) -> (r: bool)
    ensures
        r == (*answer == Ok::<Fit, String>(d.fit)),
{
    match answer {
        Ok(fit) => *fit == d.fit,
        Err(_) => false,
    }
}

/// The questions that a decision must not answer with every layer on the GPU
/// when it is checked alone: a decision for a smaller context, at the next
/// size up; one without the draft head, with it at the requested context.
pub fn contrary_probes(
    d: &FitDecision,
    combinations: &[Combination],
    requested: u32,
    draft_head: bool,
    draft_reserve_mib: u32,
) -> (r: Vec<ProbeRequest>)
    requires
        forall|k: int|
            0 <= k < combinations@.len() ==> (#[trigger] combinations@[k]).margin
                + draft_reserve_mib <= u32::MAX,
    ensures
        ({
            let n = combinations@.len() as int;
            let smaller = d.placement_at_default == Placement::Gpu && d.context < requested && n
                > 0;
            let dropped = draft_head && d.draft_head_dropped;
            let first = if smaller {
                1int
            } else {
                0int
            };
            &&& r@.len() == first + (if dropped {
                n
            } else {
                0
            })
            &&& smaller ==> r@[0]@ == (Probe {
                context: num::lesser(d.context + 1024, requested as int) as u32,
                cache: combinations@[n - 1].cache@,
                margin_mib: combinations@[n - 1].margin + reserve_under(
                    *d,
                    draft_head,
                    draft_reserve_mib,
                ),
                micro_batch: DEFAULT_MICRO_BATCH,
            })
            &&& dropped ==> forall|k: int|
                first <= k < r@.len() ==> (#[trigger] r@[k])@ == probe_of(
                    combinations@[k - first],
                    requested,
                    draft_reserve_mib,
                    DEFAULT_MICRO_BATCH,
                )
        }),
{
    let mut r: Vec<ProbeRequest> = Vec::new();
    let reserve: u32 = if draft_head && !d.draft_head_dropped { draft_reserve_mib } else { 0 };
    let n: usize = combinations.len();
    if d.placement_at_default == Placement::Gpu && d.context < requested && n > 0 {
        let next: u32 = if requested - d.context < 1024 { requested } else { d.context + 1024 };
        let c = &combinations[n - 1];
        r.push(
            ProbeRequest {
                context: next,
                cache: c.cache.clone(),
                margin_mib: c.margin + reserve,
                micro_batch: DEFAULT_MICRO_BATCH,
            },
        );
    }
    let ghost first = r@;
    if draft_head && d.draft_head_dropped {
        let mut i: usize = 0;
        while i < n
            invariant
                i <= n,
                n == combinations@.len(),
                forall|k: int|
                    0 <= k < combinations@.len() ==> (#[trigger] combinations@[k]).margin
                        + draft_reserve_mib <= u32::MAX,
                r@.len() == first.len() + i,
                forall|k: int| 0 <= k < first.len() ==> #[trigger] r@[k] == first[k],
                forall|k: int|
                    first.len() <= k < r@.len() ==> (#[trigger] r@[k])@ == probe_of(
                        combinations@[k - first.len()],
                        requested,
                        draft_reserve_mib,
                        DEFAULT_MICRO_BATCH,
                    ),
            decreases n - i,
        {
            let c = &combinations[i];
            r.push(
                ProbeRequest {
                    context: requested,
                    cache: c.cache.clone(),
                    margin_mib: c.margin + draft_reserve_mib,
                    micro_batch: DEFAULT_MICRO_BATCH,
                },
            );
            i += 1;
        }
    }
    proof {
        if first.len() > 0 {
            assert(r@[0] == first[0]);
            assert(num::lesser(d.context + 1024, requested as int) <= u32::MAX);
        }
    }
    r
}

/// A search's outcome holds when it is checked alone.
pub open spec fn holds_alone(
    fit: Fit,
    confirming: Result<Fit, String>,
    contrary: Seq<Result<Fit, String>>,
) -> bool {
    confirming == Ok::<Fit, String>(fit) && forall|k: int|
        0 <= k < contrary.len() ==> #[trigger] contrary[k] != Ok::<Fit, String>(Fit::AllLayers)
}

/// An outcome holds only where the runtime gives the very same fit again; an
/// answer that fails or differs, or one setting that would have kept every layer
/// after all, undoes it.
pub proof fn law_only_the_same_fit_holds(
    fit: Fit,
    other: Fit,
    error: String,
    contrary: Seq<Result<Fit, String>>,
    k: int,
)
    ensures
        holds_alone(fit, Ok(fit), Seq::empty()),
        holds_alone(fit, Ok(other), contrary) ==> other == fit,
        !holds_alone(fit, Err(error), contrary),
        0 <= k < contrary.len() && contrary[k] == Ok::<Fit, String>(Fit::AllLayers)
            ==> !holds_alone(fit, Ok(fit), contrary),
{
}

/// Whether a search that ran probes side by side holds when checked alone:
/// its own setting gives the same fit, and none of the contrary questions is
/// answered with every layer on the GPU.
pub fn batched_fit_holds(
    d: &FitDecision,
    confirming: &Result<Fit, String>,
    contrary: &[Result<Fit, String>],
) -> (r: bool)
    ensures
        r == holds_alone(d.fit, *confirming, contrary@),
{
    if !confirms(d, confirming) {
        return false;
    }
    let mut i: usize = 0;
    while i < contrary.len()
        invariant
            i <= contrary@.len(),
            forall|k: int|
                0 <= k < i ==> #[trigger] contrary@[k] != Ok::<Fit, String>(Fit::AllLayers),
        decreases contrary@.len() - i,
    {
        if is_full(&contrary[i]) {
            return false;
        }
        i += 1;
    }
    true
}

// ---- how answers are read ------------------------------------------------------------------------------

/// The runtime is asked about the very setting, at the context and micro-batch in
/// question, and to leave free what the setting leaves and what the draft head
/// takes.
pub proof fn law_a_question_leaves_room_for_the_head(
    c: Combination,
    context: u32,
    reserve: u32,
    micro_batch: u32,
)
    ensures
        ({
            let p = probe_of(c, context, reserve, micro_batch);
            &&& p.context == context && p.cache == c.cache@ && p.micro_batch == micro_batch
            &&& p.margin_mib == c.margin + reserve
            &&& p.margin_mib >= c.margin
        }),
{
}

/// A row of questions ends at an answer that keeps every layer on the GPU or
/// fails, and only at such a one.
pub proof fn law_what_settles_a_row(results: Seq<Result<Fit, String>>, n: int)
    requires
        0 <= n <= results.len(),
    ensures
        any_settles(results, n) <==> exists|k: int|
            0 <= k < n && (#[trigger] results[k] is Err || results[k] == Ok::<Fit, String>(
                Fit::AllLayers,
            )),
    decreases n,
{
    if n > 0 {
        law_what_settles_a_row(results, n - 1);
        if settles(results[n - 1]) {
            assert(results[n - 1] is Err || results[n - 1] == Ok::<Fit, String>(Fit::AllLayers));
        }
    }
}

proof fn lemma_first_error(results: Seq<Result<Fit, String>>, count: int, from: int)
    requires
        0 <= from,
    ensures
        first_error(results, count, from) matches Some(k) ==> {
            &&& from <= k < count && k < results.len() && results[k] is Err
            &&& forall|i: int|
                from <= i < k ==> #[trigger] results[i] is Ok && results[i] != Ok::<Fit, String>(
                    Fit::AllLayers,
                )
        },
    decreases count - from,
{
    if from < count && from < results.len() && results[from] is Ok && results[from] != Ok::<
        Fit,
        String,
    >(Fit::AllLayers) {
        lemma_first_error(results, count, from + 1);
    }
}

proof fn lemma_no_error(results: Seq<Result<Fit, String>>, count: int, from: int, k: int)
    requires
        0 <= from <= k < count,
        k < results.len(),
        results[k] is Err,
        forall|i: int|
            from <= i < k ==> #[trigger] results[i] is Ok && results[i] != Ok::<Fit, String>(
                Fit::AllLayers,
            ),
    ensures
        first_error(results, count, from) == Some(k),
    decreases k - from,
{
    if from < k {
        assert(results[from] is Ok);
        lemma_no_error(results, count, from + 1, k);
    }
}

/// The error that counts is the first, and only where no answer before it keeps
/// every layer on the GPU: what comes after such an answer is not looked at.
pub proof fn law_which_error_counts(results: Seq<Result<Fit, String>>, count: int, k: int)
    requires
        0 <= k < count,
        k < results.len(),
    ensures
        first_error(results, count, 0) == Some(k) <==> results[k] is Err && forall|i: int|
            0 <= i < k ==> #[trigger] results[i] is Ok && results[i] != Ok::<Fit, String>(
                Fit::AllLayers,
            ),
{
    lemma_first_error(results, count, 0);
    if results[k] is Err && forall|i: int|
        0 <= i < k ==> #[trigger] results[i] is Ok && results[i] != Ok::<Fit, String>(
            Fit::AllLayers,
        ) {
        lemma_no_error(results, count, 0, k);
    }
}

proof fn lemma_fits_read(results: Seq<Result<Fit, String>>, count: int, from: int)
    requires
        0 <= from,
    ensures
        ({
            let fits = fits_read(results, count, from);
            &&& fits.len() == 0 || from + fits.len() <= count && from + fits.len() <= results.len()
            &&& forall|i: int|
                0 <= i < fits.len() ==> results[from + i] == Ok::<Fit, String>(#[trigger] fits[i])
            &&& forall|i: int| 0 <= i < fits.len() - 1 ==> #[trigger] fits[i] != Fit::AllLayers
            &&& fits.len() > 0 && fits.last() == Fit::AllLayers || from + fits.len() >= count || from
                + fits.len() >= results.len() || results[from + fits.len()] is Err
        }),
    decreases count - from,
{
    if from < count && from < results.len() {
        if let Ok(fit) = results[from] {
            if fit != Fit::AllLayers {
                lemma_fits_read(results, count, from + 1);
                let rest = fits_read(results, count, from + 1);
                let fits = fits_read(results, count, from);
                assert(fits =~= seq![fit] + rest);
                assert forall|i: int| 0 <= i < fits.len() implies results[from + i] == Ok::<
                    Fit,
                    String,
                >(#[trigger] fits[i]) by {
                    if i > 0 {
                        assert(fits[i] == rest[i - 1]);
                    }
                }
                assert forall|i: int| 0 <= i < fits.len() - 1 implies #[trigger] fits[i]
                    != Fit::AllLayers by {
                    if i > 0 {
                        assert(fits[i] == rest[i - 1]);
                    }
                }
                if rest.len() > 0 {
                    assert(fits.last() == rest.last());
                }
            }
        }
    }
}

/// The fits that are read are the answers in their order, up to the first that
/// keeps every layer on the GPU, which is read too; only an error or the end of
/// the settings ends them before that.
pub proof fn law_fits_are_read_in_order(results: Seq<Result<Fit, String>>, count: int, i: int)
    requires
        0 <= i < fits_read(results, count, 0).len(),
    ensures
        ({
            let fits = fits_read(results, count, 0);
            let n = fits.len() as int;
            &&& n <= count && n <= results.len()
            &&& results[i] == Ok::<Fit, String>(fits[i])
            &&& i < n - 1 ==> fits[i] != Fit::AllLayers
            &&& fits.last() == Fit::AllLayers || n == count || n == results.len() || results[n]
                is Err
        }),
{
    lemma_fits_read(results, count, 0);
}

proof fn lemma_first_full(results: Seq<Result<Fit, String>>, count: int, from: int)
    requires
        0 <= from,
    ensures
        first_full(results, count, from) matches Some(k) ==> from <= k < count && k < results.len()
            && results[k] == Ok::<Fit, String>(Fit::AllLayers) && forall|i: int|
            from <= i < k ==> #[trigger] results[i] != Ok::<Fit, String>(Fit::AllLayers),
        first_full(results, count, from) is None ==> forall|i: int|
            from <= i < count && i < results.len() ==> #[trigger] results[i] != Ok::<Fit, String>(
                Fit::AllLayers,
            ),
    decreases count - from,
{
    if from < count && from < results.len() && results[from] != Ok::<Fit, String>(Fit::AllLayers) {
        lemma_first_full(results, count, from + 1);
    }
}

/// At a smaller context the preferred setting is used that still keeps every
/// layer on the GPU there; where none of the preferred ones does, the last.
pub proof fn law_the_preferred_setting_is_used(
    context: u32,
    count: nat,
    headroom: Seq<Result<Fit, String>>,
)
    requires
        0 < count <= usize::MAX,
    ensures
        ({
            let p = placed_smaller(context, count, headroom);
            &&& p.context == context && p.placement == Placement::Gpu && p.fit == Fit::AllLayers
            &&& p.at < count
            &&& forall|i: int|
                0 <= i < p.at && i < headroom.len() ==> #[trigger] headroom[i] != Ok::<Fit, String>(
                    Fit::AllLayers,
                )
            &&& p.at < count - 1 ==> p.at < headroom.len() && headroom[p.at as int] == Ok::<
                Fit,
                String,
            >(Fit::AllLayers)
        }),
{
    lemma_first_full(headroom, count as int, 0);
}

proof fn lemma_permissive(combinations: Seq<Combination>, from: int)
    requires
        0 <= from < combinations.len(),
    ensures
        from <= permissive_from(combinations, from) < combinations.len(),
        same_setting(
            combinations[permissive_from(combinations, from)],
            combinations.last(),
        ),
        forall|i: int|
            from <= i < permissive_from(combinations, from) ==> !same_setting(
                #[trigger] combinations[i],
                combinations.last(),
            ),
    decreases combinations.len() - from,
{
    if !same_setting(combinations[from], combinations.last()) {
        lemma_permissive(combinations, from + 1);
    }
}

/// The settings that are asked about before the most permissive one are all that
/// are not the same as it, up to the first that is.
pub proof fn law_only_other_settings_are_asked_about(combinations: Seq<Combination>)
    requires
        combinations.len() > 0,
    ensures
        ({
            let n = permissive_from(combinations, 0);
            let last = combinations.last();
            &&& 0 <= n < combinations.len()
            &&& combinations[n].cache@ == last.cache@ && combinations[n].margin == last.margin
            &&& forall|i: int|
                0 <= i < n ==> (#[trigger] combinations[i]).cache@ != last.cache@
                    || combinations[i].margin != last.margin
        }),
{
    lemma_permissive(combinations, 0);
    let n = permissive_from(combinations, 0);
    assert forall|i: int| 0 <= i < n implies (#[trigger] combinations[i]).cache@
        != combinations.last().cache@ || combinations[i].margin != combinations.last().margin by {
        assert(!same_setting(combinations[i], combinations.last()));
    }
}

/// A best fit settles a search where it keeps every layer or the context is to be
/// kept, with its own setting and as it is; only the others shrink the context.
pub proof fn law_what_the_best_fit_settles(
    requested: u32,
    keeps_requested: bool,
    at: usize,
    fit: Fit,
)
    ensures
        ({
            let c = choice(requested, keeps_requested, Some((at, fit)));
            &&& c is Settled <==> fit == Fit::AllLayers || keeps_requested
            &&& c is Shrink <==> fit != Fit::AllLayers && !keeps_requested
            &&& c matches Choice::Settled(p) ==> p.context == requested && p.at == at && p.fit == fit
                && (p.placement == Placement::Gpu <==> fit == Fit::AllLayers)
            &&& choice(requested, keeps_requested, None) is Unavailable
        }),
{
}

/// The search for a smaller context stops at 4,096 tokens, or at what was asked
/// for where that is less.
pub proof fn law_the_smallest_context(requested: u32)
    ensures
        floor_of(requested) <= requested && floor_of(requested) <= 4096,
        floor_of(requested) == requested || floor_of(requested) == 4096,
{
}

/// A note on a fit tells the numbers it is about: the context that is kept, and
/// the layers that fit.
pub proof fn law_notes_tell_the_numbers(requested: u32, layers: u32, error: Seq<char>)
    ensures
        ("Context kept at "@ + decimal::digits(requested as nat)).is_prefix_of(
            kept_note(requested, Fit::Layers(layers)),
        ),
        text::holds(kept_note(requested, Fit::Layers(layers)), decimal::digits(layers as nat)),
        ("No setting keeps every layer on the GPU even at "@ + decimal::digits(requested as nat)
            + " tokens; the runtime fits "@ + decimal::digits(layers as nat)).is_prefix_of(
            never_fits_note(requested, layers),
        ),
        ("The runtime's memory fit was unavailable ("@ + error).is_prefix_of(
            unavailable_note(error),
        ),
{
    let kept = kept_note(requested, Fit::Layers(layers));
    let head = "Context kept at "@ + decimal::digits(requested as nat);
    assert(head =~= kept.subrange(0, head.len() as int));
    let before = head + " tokens as set; at that size the runtime fits "@;
    let n = decimal::digits(layers as nat);
    assert(kept.subrange(before.len() as int, (before.len() + n.len()) as int) =~= n);
    assert(text::occurs_at(kept, n, before.len() as int));
    let never = never_fits_note(requested, layers);
    let told = "No setting keeps every layer on the GPU even at "@ + decimal::digits(
        requested as nat,
    ) + " tokens; the runtime fits "@ + n;
    assert(told =~= never.subrange(0, told.len() as int));
    let note = unavailable_note(error);
    let why = "The runtime's memory fit was unavailable ("@ + error;
    assert(why =~= note.subrange(0, why.len() as int));
}

// ---- how a micro-batch is chosen ----------------------------------------------------------------------

/// The sizes asked about are those that may be chosen: the calibrated one and
/// the balanced one, each once; the runtime's own is known already, and where it
/// was calibrated nothing is asked.
pub proof fn law_which_sizes_are_asked_about(size: u32, moved: u32)
    ensures
        sizes_probed(None) == seq![1024u32],
        sizes_probed(Some((512, moved))).len() == 0,
        size != 512 ==> sizes_probed(Some((size, moved))).contains(1024),
        size != 512 && size > 0 ==> sizes_probed(Some((size, moved))).contains(size),
        !sizes_probed(Some((size, moved))).contains(512),
        sizes_probed(Some((size, moved))).no_duplicates(),
        sizes_probed(Some((size, moved))).len() <= 2,
{
    let probed = sizes_probed(Some((size, moved)));
    if size != 512 {
        assert(probed[probed.len() - 1] == 1024);
        if size > 0 {
            assert(probed[0] == size);
        }
    }
}

/// The fit at a size is the answer to the question about it.
pub proof fn law_the_fit_at_a_size_is_its_answer(sizes: Seq<u32>, fits: Seq<Option<Fit>>, k: int)
    requires
        sizes.no_duplicates(),
        sizes.len() <= 2,
        0 <= k < sizes.len(),
        k < fits.len(),
    ensures
        fit_at(sizes, fits, sizes[k]) == fits[k],
{
    if k == 1 {
        assert(sizes[0] != sizes[1]);
    }
}

/// A calibrated size is used exactly where it is the runtime's own, or its fit
/// was measured now and moves no more of the model than the calibration did;
/// else the rule's size is. The fit that is told is the one measured at the size
/// that is used.
pub proof fn law_a_calibrated_size_is_used_where_it_still_fits(
    size: u32,
    moved: u32,
    at_default: Fit,
    a: SizeAnswers,
)
    requires
        size > 0,
        a.fits@.len() == sizes_probed(Some((size, moved))).len(),
    ensures
        ({
            let calibrated = Some((size, moved));
            let (chosen, fit) = chosen_fit(calibrated, at_default, a);
            let still = size == 512 || (a.fits@[0] is Some && a.calibrated_fits);
            &&& uses_calibrated(calibrated, a) <==> still
            &&& still ==> chosen == size
            &&& !still ==> chosen == a.default_size
            &&& size == 512 ==> fit == at_default
            &&& still && size != 512 ==> Some(fit) == a.fits@[0]
            &&& !uses_calibrated(None, a)
        }),
{
}

/// A note on a micro-batch begins with its size.
pub proof fn law_a_size_is_told(
    prefix: Seq<char>,
    calibrated: Option<(u32, u32)>,
    at_default: Fit,
    a: SizeAnswers,
)
    ensures
        (prefix + decimal::grouped(
            decimal::digits(chosen_fit(calibrated, at_default, a).0 as nat),
        )).is_prefix_of(size_note(prefix, calibrated, at_default, a)),
{
    let note = size_note(prefix, calibrated, at_default, a);
    let head = prefix + decimal::grouped(
        decimal::digits(chosen_fit(calibrated, at_default, a).0 as nat),
    );
    assert(head =~= note.subrange(0, head.len() as int));
}

/// A remembered decision is confirmed with room for the draft head exactly where
/// the head is used under it.
pub proof fn law_a_dropped_head_takes_no_room(d: FitDecision, draft_head: bool, reserve: u32)
    ensures
        d.draft_head_dropped || !draft_head ==> reserve_under(d, draft_head, reserve) == 0,
        draft_head && !d.draft_head_dropped ==> reserve_under(d, draft_head, reserve) == reserve,
{
}

} // verus!
