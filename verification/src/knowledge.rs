//! Local documents as retrievable chunks: how a text is cut, and which chunks
//! a question brings up.
use vstd::prelude::*;

use crate::boundary;
use crate::error;
use crate::error::ApiError;
use crate::num;
use crate::text;
use crate::types;

verus! {

/// Characters of a chunk at most.
pub const CHUNK_CHARS: usize = 800;

/// Characters that a chunk shares with the one before.
pub const CHUNK_OVERLAP: usize = 100;

/// A piece of a project's file.
#[derive(Debug, PartialEq, Eq)]
pub struct KnowledgeChunk {
    pub id: String,
    pub workspace_id: String,
    pub path: String,
    pub chunk_idx: i64,
    pub text: String,
}

// ---- cutting ---------------------------------------------------------------------------

/// The chunks of `s` from `start` on: each of up to `CHUNK_CHARS` characters,
/// the next beginning `CHUNK_OVERLAP` before its end, blank ones left out.
pub open spec fn chunks_from(s: Seq<char>, start: int) -> Seq<Seq<char>>
    decreases s.len() - start,
{
    if start < 0 || start >= s.len() {
        Seq::empty()
    } else {
        let end = num::lesser(start + CHUNK_CHARS, s.len() as int);
        let piece = s.subrange(start, end);
        let rest = if end == s.len() {
            Seq::empty()
        } else {
            chunks_from(s, end - CHUNK_OVERLAP)
        };
        if text::is_blank(piece) {
            rest
        } else {
            seq![piece] + rest
        }
    }
}

/// Cuts a text into overlapping chunks, blank ones left out.
pub fn chunk_text(content: &str) -> (r: Vec<String>)
    ensures
        types::texts(r@) == chunks_from(content@, 0),
{
    let v = text::chars_of(content);
    let n: usize = v.len();
    let mut r: Vec<String> = Vec::new();
    let mut start: usize = 0;
    assert(types::texts(r@) + chunks_from(content@, 0) =~= chunks_from(content@, 0));
    while start < n
        invariant
            start <= n,
            n == v@.len(),
            v@ == content@,
            types::texts(r@) + chunks_from(content@, start as int) == chunks_from(content@, 0),
        decreases n - start,
    {
        let end: usize = if n - start < CHUNK_CHARS { n } else { start + CHUNK_CHARS };
        let piece = text::string_of(&v, start, end);
        let ghost was = types::texts(r@);
        if !text::blank(&piece) {
            let ghost shown = piece@;
            r.push(piece);
            proof {
                assert(types::texts(r@) =~= was.push(shown));
                let after = if end == n {
                    Seq::<Seq<char>>::empty()
                } else {
                    chunks_from(content@, end - CHUNK_OVERLAP)
                };
                assert(was + (seq![shown] + after) =~= types::texts(r@) + after);
            }
        }
        if end == n {
            proof {
                assert(types::texts(r@) + Seq::<Seq<char>>::empty() =~= types::texts(r@));
            }
            return r;
        }
        start = end - CHUNK_OVERLAP;
    }
    assert(types::texts(r@) + Seq::<Seq<char>>::empty() =~= types::texts(r@));
    r
}

/// Position `i` lies in the piece of `s` from `a` to `b`, which is among
/// `parts`.
pub open spec fn covered(parts: Seq<Seq<char>>, s: Seq<char>, i: int, a: int, b: int) -> bool {
    0 <= a <= i < b <= s.len() && parts.contains(s.subrange(a, b))
}

/// Every character that is not white space is in some chunk, and no chunk is
/// longer than `CHUNK_CHARS`.
pub proof fn law_chunks_cover_the_text(s: Seq<char>, start: int)
    requires
        0 <= start,
    ensures
        forall|k: int|
            0 <= k < chunks_from(s, start).len() ==> (#[trigger] chunks_from(s, start)[k]).len()
                <= CHUNK_CHARS,
        forall|i: int|
            start <= i < s.len() && !text::is_space(#[trigger] s[i]) ==> exists|a: int, b: int|
                #[trigger] covered(chunks_from(s, start), s, i, a, b),
    decreases s.len() - start,
{
    if start < s.len() {
        let end = num::lesser(start + CHUNK_CHARS, s.len() as int);
        let piece = s.subrange(start, end);
        let all = chunks_from(s, start);
        let rest = if end == s.len() {
            Seq::empty()
        } else {
            chunks_from(s, end - CHUNK_OVERLAP)
        };
        if end < s.len() {
            law_chunks_cover_the_text(s, end - CHUNK_OVERLAP);
        }
        let shift = if text::is_blank(piece) {
            0int
        } else {
            1int
        };
        assert(all == if text::is_blank(piece) {
            rest
        } else {
            seq![piece] + rest
        });
        assert forall|k: int| 0 <= k < all.len() implies (#[trigger] all[k]).len()
            <= CHUNK_CHARS by {
            if k >= shift {
                assert(all[k] == rest[k - shift]);
            }
        }
        assert forall|i: int| start <= i < s.len() && !text::is_space(#[trigger] s[i]) implies exists|
            a: int,
            b: int,
        | #[trigger] covered(all, s, i, a, b) by {
            if i < end {
                assert(piece[i - start] == s[i]);
                assert(!text::is_blank(piece));
                assert(all[0] == piece);
                assert(all.contains(s.subrange(start, end)));
                assert(covered(all, s, i, start, end));
            } else {
                let (a, b) = choose|a: int, b: int| #[trigger] covered(rest, s, i, a, b);
                let k = choose|k: int| 0 <= k < rest.len() && rest[k] == s.subrange(a, b);
                assert(all[k + shift] == s.subrange(a, b));
                assert(covered(all, s, i, a, b));
            }
        }
    }
}

// ---- taking files in ---------------------------------------------------------------------

/// Files that one request takes in at most.
pub const INGEST_FILES: usize = 50;

/// Bytes of a file that is taken in at most.
pub const INGEST_BYTES: u64 = 2_000_000;

/// Chunks of one file that are kept at most.
pub const INGEST_CHUNKS: usize = 200;

/// The chunks that are kept of a file, or none where it is too large or holds
/// no text.
pub open spec fn kept_chunks(size: u64, content: Option<Seq<char>>) -> Option<Seq<Seq<char>>> {
    match content {
        Some(t) => if size > INGEST_BYTES {
            None
        } else {
            let all = chunks_from(t, 0);
            Some(all.take(num::lesser(all.len() as int, INGEST_CHUNKS as int)))
        },
        None => None,
    }
}

/// What a path to take in turned out to be.
#[derive(Clone, Copy, Debug, PartialEq, Eq, Structural)]
pub enum PathKind {
    File,
    Folder,
    Neither,
}

/// Refuses a path with nothing to read; `resolved` is what the path is, or why
/// it is not inside the project.
pub fn admit_path(resolved: Result<PathKind, &str>) -> (r: Result<PathKind, ApiError>)
    ensures
        error::refusal_of(r) == (match resolved {
            Err(e) => Some(error::bad_request(e@, "Pick a path inside the workspace."@)),
            Ok(PathKind::Neither) => Some(
                error::bad_request(
                    "path is not a file or directory"@,
                    "Pick an existing file or folder."@,
                ),
            ),
            Ok(_) => None,
        }),
        r is Ok ==> r->Ok_0 == resolved->Ok_0,
{
    match resolved {
        Err(e) => Err(ApiError::bad(e, "Pick a path inside the workspace.")),
        Ok(PathKind::Neither) => Err(
            ApiError::bad("path is not a file or directory", "Pick an existing file or folder."),
        ),
        Ok(kind) => Ok(kind),
    }
}

/// How far a request to take files in has come.
#[derive(Debug, PartialEq, Eq)]
pub struct Ingest {
    pub files_seen: usize,
    pub files_indexed: usize,
    pub chunks_added: usize,
}

impl Ingest {
    /// A request never goes beyond its bounds.
    pub open spec fn wf(&self) -> bool {
        &&& self.files_indexed <= self.files_seen <= INGEST_FILES
        &&& self.chunks_added <= self.files_indexed * INGEST_CHUNKS
    }

    /// Nothing taken in yet.
    pub fn new() -> (r: Ingest)
        ensures
            r.wf(),
            r.files_seen == 0,
            r.files_indexed == 0,
            r.chunks_added == 0,
    {
        Ingest { files_seen: 0, files_indexed: 0, chunks_added: 0 }
    }

    /// Takes the next file in, with its size and its text where it has one, and
    /// returns the chunks to keep; nothing where the file is left out or enough
    /// files were seen.
    pub fn take_file(&mut self, size: u64, content: Option<&str>) -> (r: Option<Vec<String>>)
        requires
            old(self).wf(),
        ensures
            final(self).wf(),
            old(self).files_seen == INGEST_FILES ==> r is None && *final(self) == *old(self),
            old(self).files_seen < INGEST_FILES ==> {
                let kept = kept_chunks(
                    size,
                    match content {
                        Some(t) => Some(t@),
                        None => None,
                    },
                );
                &&& final(self).files_seen == old(self).files_seen + 1
                &&& match r {
                    Some(pieces) => {
                        &&& kept == Some(types::texts(pieces@))
                        &&& final(self).files_indexed == old(self).files_indexed + 1
                        &&& final(self).chunks_added == old(self).chunks_added + pieces@.len()
                    },
                    None => {
                        &&& kept is None
                        &&& final(self).files_indexed == old(self).files_indexed
                        &&& final(self).chunks_added == old(self).chunks_added
                    },
                }
            },
    {
        if self.files_seen >= INGEST_FILES {
            return None;
        }
        self.files_seen = self.files_seen + 1;
        match content {
            Some(t) => {
                if size > INGEST_BYTES {
                    return None;
                }
                let mut pieces = chunk_text(t);
                let ghost all = types::texts(pieces@);
                if pieces.len() > INGEST_CHUNKS {
                    pieces.truncate(INGEST_CHUNKS);
                }
                assert(types::texts(pieces@) =~= all.take(
                    num::lesser(all.len() as int, INGEST_CHUNKS as int),
                ));
                assert((self.files_indexed + 1) * INGEST_CHUNKS == self.files_indexed
                    * INGEST_CHUNKS + INGEST_CHUNKS && self.files_indexed * INGEST_CHUNKS <= 50
                    * 200) by (nonlinear_arith)
                    requires
                        self.files_indexed <= 50,
                        INGEST_CHUNKS == 200,
                ;
                self.files_indexed = self.files_indexed + 1;
                self.chunks_added = self.chunks_added + pieces.len();
                Some(pieces)
            },
            None => None,
        }
    }
}

// ---- scoring ----------------------------------------------------------------------------

/// How often `p` stands in `s` from `from` on, without overlap.
pub open spec fn count_from(s: Seq<char>, p: Seq<char>, from: int) -> nat
    decreases s.len() + 1 - from,
    when p.len() > 0
    via count_decreases
{
    match text::found(s, p, from) {
        Some(i) => if from < 0 {
            0
        } else {
            1 + count_from(s, p, i + p.len())
        },
        None => 0,
    }
}

#[via_fn]
proof fn count_decreases(s: Seq<char>, p: Seq<char>, from: int) {
    if from >= 0 {
        text::lemma_found(s, p, from);
    }
}

/// How often `p` stands in `s`, five at most.
fn hits_in(s: &[char], p: &[char]) -> (n: u128)
    requires
        p@.len() > 0,
    ensures
        n == num::lesser(count_from(s@, p@, 0) as int, 5),
{
    let mut n: u128 = 0;
    let mut from: usize = 0;
    while n < 5
        invariant
            n <= 5,
            p@.len() > 0,
            count_from(s@, p@, 0) == n + count_from(s@, p@, from as int),
        ensures
            n == num::lesser(count_from(s@, p@, 0) as int, 5),
        decreases 5 - n,
    {
        match text::find_from(s, p, from) {
            Some(i) => {
                n += 1;
                from = i + p.len();
            },
            None => {
                break;
            },
        }
    }
    n
}

/// What one term adds to a chunk's score: its occurrences, five at most, three
/// times as much where the path holds it.
pub open spec fn term_score(content: Seq<char>, path: Seq<char>, term: Seq<char>) -> nat {
    (num::lesser(count_from(content, term, 0) as int, 5) * (if text::holds(path, term) {
        3int
    } else {
        1int
    })) as nat
}

/// A chunk's score for the first `n` terms, all in lower case.
pub open spec fn score(content: Seq<char>, path: Seq<char>, terms: Seq<Seq<char>>, n: int) -> nat
    decreases n,
{
    if n <= 0 {
        0
    } else {
        score(content, path, terms, n - 1) + term_score(content, path, terms[n - 1])
    }
}

/// A chunk's score for the terms of a question, all in lower case.
pub fn score_of(content: &str, path: &str, terms: &[String]) -> (r: u128)
    requires
        forall|k: int| 0 <= k < terms@.len() ==> (#[trigger] terms@[k])@.len() > 0,
    ensures
        r == score(content@, path@, types::texts(terms@), terms@.len() as int),
{
    let v = text::chars_of(content);
    let mut r: u128 = 0;
    let mut i: usize = 0;
    while i < terms.len()
        invariant
            i <= terms@.len(),
            v@ == content@,
            forall|k: int| 0 <= k < terms@.len() ==> (#[trigger] terms@[k])@.len() > 0,
            r <= 15 * i,
            r == score(content@, path@, types::texts(terms@), i as int),
        decreases terms@.len() - i,
    {
        let t = text::chars_of(&terms[i]);
        let hits: u128 = hits_in(&v, &t);
        let weight: u128 = if text::contains(path, &terms[i]) { 3 } else { 1 };
        assert(types::texts(terms@)[i as int] == terms@[i as int]@);
        assert(hits * weight <= 15 && hits * weight == hits as int * weight as int)
            by (nonlinear_arith)
            requires
                hits <= 5,
                weight == 1 || weight == 3,
        ;
        r = r + hits * weight;
        i += 1;
    }
    r
}

// ---- ranking ----------------------------------------------------------------------------

/// Where a chunk of score `v` goes among the first `n` ranked: behind every
/// chunk that scores at least as much.
pub open spec fn rank_at(order: Seq<int>, scores: Seq<nat>, v: nat, n: int) -> int
    decreases n,
{
    if n <= 0 {
        0
    } else if scores[order[n - 1]] >= v {
        n
    } else {
        rank_at(order, scores, v, n - 1)
    }
}

/// The chunks among the first `n` that score at all, best first; of equal
/// ones the earlier first.
pub open spec fn ranked(scores: Seq<nat>, n: int) -> Seq<int>
    decreases n,
{
    if n <= 0 {
        Seq::empty()
    } else {
        let before = ranked(scores, n - 1);
        if scores[n - 1] == 0 {
            before
        } else {
            before.insert(rank_at(before, scores, scores[n - 1], before.len() as int), n - 1)
        }
    }
}

/// The best chunks, `limit` at most and never fewer than one where one scores.
pub open spec fn top(scores: Seq<nat>, limit: nat) -> Seq<int> {
    let all = ranked(scores, scores.len() as int);
    all.take(num::lesser(all.len() as int, num::greater(limit as int, 1)))
}

proof fn lemma_rank_at(order: Seq<int>, scores: Seq<nat>, v: nat, n: int)
    requires
        0 <= n <= order.len(),
    ensures
        0 <= rank_at(order, scores, v, n) <= n,
        forall|k: int|
            rank_at(order, scores, v, n) <= k < n ==> scores[#[trigger] order[k]] < v,
        rank_at(order, scores, v, n) > 0 ==> scores[order[rank_at(order, scores, v, n) - 1]] >= v,
    decreases n,
{
    if n > 0 && scores[order[n - 1]] < v {
        lemma_rank_at(order, scores, v, n - 1);
    }
}

proof fn lemma_ranked(scores: Seq<nat>, n: int)
    requires
        0 <= n <= scores.len(),
    ensures
        ({
            let r = ranked(scores, n);
            &&& r.len() <= n
            &&& forall|k: int|
                0 <= k < r.len() ==> 0 <= #[trigger] r[k] < n && scores[r[k]] > 0
            &&& forall|j: int, k: int|
                0 <= j < k < r.len() ==> (scores[#[trigger] r[j]] > scores[#[trigger] r[k]] || (
                scores[r[j]] == scores[r[k]] && r[j] < r[k]))
            &&& forall|i: int|
                0 <= i < n && #[trigger] scores[i] > 0 ==> r.contains(i)
        }),
    decreases n,
{
    if n > 0 {
        lemma_ranked(scores, n - 1);
        let before = ranked(scores, n - 1);
        let v = scores[n - 1];
        let at = rank_at(before, scores, v, before.len() as int);
        lemma_rank_at(before, scores, v, before.len() as int);
        if v > 0 {
            let r = before.insert(at, n - 1);
            assert(r == ranked(scores, n));
            assert forall|k: int| 0 <= k < r.len() implies 0 <= #[trigger] r[k] < n && scores[r[k]]
                > 0 by {
                if k < at {
                    assert(r[k] == before[k]);
                } else if k > at {
                    assert(r[k] == before[k - 1]);
                }
            }
            assert forall|j: int, k: int| 0 <= j < k < r.len() implies (scores[#[trigger] r[j]]
                > scores[#[trigger] r[k]] || (scores[r[j]] == scores[r[k]] && r[j] < r[k])) by {
                if j < at {
                    assert(r[j] == before[j]);
                    if at > 0 && j < at - 1 {
                        assert(scores[before[j]] >= scores[before[at - 1]]);
                    }
                } else if j > at {
                    assert(r[j] == before[j - 1]);
                }
                if k < at {
                    assert(r[k] == before[k]);
                } else if k > at {
                    assert(r[k] == before[k - 1]);
                }
            }
            assert forall|i: int| 0 <= i < n && #[trigger] scores[i] > 0 implies r.contains(i) by {
                if i == n - 1 {
                    assert(r[at] == i);
                } else {
                    assert(before.contains(i));
                    let k = choose|k: int| 0 <= k < before.len() && before[k] == i;
                    if k < at {
                        assert(r[k] == i);
                    } else {
                        assert(r[k + 1] == i);
                    }
                }
            }
        } else {
            assert(ranked(scores, n) == before);
        }
    }
}

/// What a question brings up are chunks that score, best first and of equal
/// ones the earlier first; none that is left out scores more than one that is
/// kept.
pub proof fn law_best_chunks_come_first(scores: Seq<nat>, limit: nat)
    ensures
        ({
            let r = top(scores, limit);
            &&& forall|k: int|
                0 <= k < r.len() ==> 0 <= #[trigger] r[k] < scores.len() && scores[r[k]] > 0
            &&& forall|j: int, k: int|
                0 <= j < k < r.len() ==> (scores[#[trigger] r[j]] > scores[#[trigger] r[k]] || (
                scores[r[j]] == scores[r[k]] && r[j] < r[k]))
            &&& forall|i: int, k: int|
                0 <= i < scores.len() && scores[i] > 0 && !r.contains(i) && 0 <= k < r.len()
                    ==> #[trigger] scores[i] <= scores[#[trigger] r[k]]
            &&& r.len() <= num::greater(limit as int, 1)
        }),
{
    let n = scores.len() as int;
    lemma_ranked(scores, n);
    let all = ranked(scores, n);
    let r = top(scores, limit);
    assert forall|k: int| 0 <= k < r.len() implies 0 <= #[trigger] r[k] < scores.len()
        && scores[r[k]] > 0 by {
        assert(r[k] == all[k]);
    }
    assert forall|j: int, k: int| 0 <= j < k < r.len() implies (scores[#[trigger] r[j]]
        > scores[#[trigger] r[k]] || (scores[r[j]] == scores[r[k]] && r[j] < r[k])) by {
        assert(r[j] == all[j] && r[k] == all[k]);
    }
    assert forall|i: int, k: int|
        0 <= i < scores.len() && scores[i] > 0 && !r.contains(i) && 0 <= k < r.len() implies #[trigger] scores[i]
        <= scores[#[trigger] r[k]] by {
        assert(all.contains(i));
        let j = choose|j: int| 0 <= j < all.len() && all[j] == i;
        if j < r.len() {
            assert(r[j] == i);
        }
        assert(r[k] == all[k]);
    }
}

/// The best chunks by their scores.
pub fn rank(scores: &[u128], limit: usize) -> (r: Vec<usize>)
    ensures
        r@.map_values(|i: usize| i as int) == top(
            scores@.map_values(|v: u128| v as nat),
            limit as nat,
        ),
        forall|k: int| 0 <= k < r@.len() ==> #[trigger] r@[k] < scores@.len(),
{
    let ghost values = scores@.map_values(|v: u128| v as nat);
    let mut order: Vec<usize> = Vec::new();
    let mut i: usize = 0;
    assert(order@.map_values(|i: usize| i as int) =~= ranked(values, 0));
    while i < scores.len()
        invariant
            i <= scores@.len(),
            order@.len() <= i,
            values == scores@.map_values(|v: u128| v as nat),
            forall|k: int| 0 <= k < order@.len() ==> #[trigger] order@[k] < i,
            order@.map_values(|i: usize| i as int) == ranked(values, i as int),
        decreases scores@.len() - i,
    {
        let v: u128 = scores[i];
        if v > 0 {
            let ghost was = order@.map_values(|i: usize| i as int);
            let mut at: usize = order.len();
            while at > 0 && scores[order[at - 1]] < v
                invariant
                    at <= order@.len(),
                    i < scores@.len(),
                    values == scores@.map_values(|v: u128| v as nat),
                    was == order@.map_values(|i: usize| i as int),
                    forall|k: int| 0 <= k < order@.len() ==> #[trigger] order@[k] < i,
                    rank_at(was, values, v as nat, order@.len() as int) == rank_at(
                        was,
                        values,
                        v as nat,
                        at as int,
                    ),
                decreases at,
            {
                assert(was[at - 1] == order@[at - 1] as int);
                at -= 1;
            }
            proof {
                if at > 0 {
                    assert(was[at - 1] == order@[at - 1] as int);
                }
                assert(values[i as int] == v as nat);
                assert(order@.insert(at as int, i).map_values(|i: usize| i as int) =~= was.insert(
                    at as int,
                    i as int,
                ));
            }
            order.insert(at, i);
        }
        i += 1;
    }
    let wanted: usize = if limit < 1 { 1 } else { limit };
    if order.len() > wanted {
        let ghost was = order@;
        order.truncate(wanted);
        assert(order@.map_values(|i: usize| i as int) =~= was.map_values(|i: usize| i as int).take(
            wanted as int,
        ));
    } else {
        assert(ranked(values, values.len() as int).take(order@.len() as int) =~= ranked(
            values,
            values.len() as int,
        ));
    }
    order
}

// ---- retrieving --------------------------------------------------------------------------

/// Which characters stand between the terms of a question.
pub open spec fn between_terms(s: Seq<char>) -> Seq<bool> {
    s.map_values(|c: char| !boundary::alphanumeric(c))
}

/// Those of the first `n` words that are longer than two bytes.
pub open spec fn long_words(words: Seq<Seq<char>>, n: int) -> Seq<Seq<char>>
    decreases n,
{
    if n <= 0 {
        Seq::empty()
    } else if text::byte_len(words[n - 1]) > 2 {
        long_words(words, n - 1).push(words[n - 1])
    } else {
        long_words(words, n - 1)
    }
}

/// The terms of a question in lower case.
pub open spec fn terms_of(lower: Seq<char>) -> Seq<Seq<char>> {
    let words = text::pieces(lower, between_terms(lower));
    long_words(words, words.len() as int)
}

/// The scores of the chunks for a question's terms.
pub open spec fn scores(chunks: Seq<KnowledgeChunk>, terms: Seq<Seq<char>>) -> Seq<nat> {
    chunks.map_values(
        |c: KnowledgeChunk|
            score(
                boundary::lowercase(c.text@),
                boundary::lowercase(c.path@),
                terms,
                terms.len() as int,
            ),
    )
}

/// The chunks that a question brings up.
pub open spec fn retrieved(chunks: Seq<KnowledgeChunk>, query: Seq<char>, limit: nat) -> Seq<int> {
    let terms = terms_of(boundary::lowercase(query));
    if terms.len() == 0 {
        Seq::empty()
    } else {
        top(scores(chunks, terms), limit)
    }
}

/// The terms of a question that is in lower case.
pub fn query_terms(lower: &str) -> (r: Vec<String>)
    ensures
        types::texts(r@) == terms_of(lower@),
        forall|k: int| 0 <= k < r@.len() ==> (#[trigger] r@[k])@.len() > 0,
{
    let v = text::chars_of(lower);
    let mut marks: Vec<bool> = Vec::new();
    let mut i: usize = 0;
    while i < v.len()
        invariant
            i <= v@.len(),
            marks@ == between_terms(v@).take(i as int),
        decreases v@.len() - i,
    {
        let mark = !v[i].is_alphanumeric();
        marks.push(mark);
        assert(marks@ =~= between_terms(v@).take(i + 1));
        i += 1;
    }
    assert(marks@ =~= between_terms(v@));
    let parts = text::split_at_marks(&v, &marks);
    let mut r: Vec<String> = Vec::new();
    let mut k: usize = 0;
    assert(types::texts(r@) =~= Seq::<Seq<char>>::empty());
    while k < parts.len()
        invariant
            k <= parts@.len(),
            types::texts(r@) == long_words(types::texts(parts@), k as int),
            forall|j: int| 0 <= j < r@.len() ==> (#[trigger] r@[j])@.len() > 0,
        decreases parts@.len() - k,
    {
        if text::bytes_in(&parts[k]) > 2 {
            let ghost was = r@;
            proof {
                text::lemma_byte_len_bounds(parts@[k as int]@);
            }
            r.push(parts[k].clone());
            assert(types::texts(r@) =~= types::texts(was).push(parts@[k as int]@));
        }
        k += 1;
    }
    r
}

/// The chunks that a question brings up, by the terms they share with it.
pub fn retrieve_knowledge<'a>(chunks: &'a [KnowledgeChunk], query: &str, limit: usize) -> (r: Vec<
    &'a KnowledgeChunk,
>)
    ensures
        r@.len() == retrieved(chunks@, query@, limit as nat).len(),
        forall|k: int|
            0 <= k < r@.len() ==> *(#[trigger] r@[k]) == chunks@[retrieved(
                chunks@,
                query@,
                limit as nat,
            )[k]],
{
    let lower = query.to_lowercase();
    let terms = query_terms(&lower);
    let mut r: Vec<&KnowledgeChunk> = Vec::new();
    if terms.len() == 0 {
        assert(types::texts(terms@).len() == 0);
        return r;
    }
    let ghost wanted = types::texts(terms@);
    let mut values: Vec<u128> = Vec::new();
    let mut i: usize = 0;
    while i < chunks.len()
        invariant
            i <= chunks@.len(),
            wanted == types::texts(terms@),
            forall|k: int| 0 <= k < terms@.len() ==> (#[trigger] terms@[k])@.len() > 0,
            values@.len() == i,
            forall|k: int|
                0 <= k < i ==> (#[trigger] values@[k]) as nat == scores(chunks@, wanted)[k],
        decreases chunks@.len() - i,
    {
        let content = chunks[i].text.as_str().to_lowercase();
        let path = chunks[i].path.as_str().to_lowercase();
        values.push(score_of(&content, &path, &terms));
        i += 1;
    }
    assert(values@.map_values(|v: u128| v as nat) =~= scores(chunks@, wanted));
    let order = rank(&values, limit);
    let ghost all = order@.map_values(|i: usize| i as int);
    let mut k: usize = 0;
    while k < order.len()
        invariant
            k <= order@.len(),
            all == order@.map_values(|i: usize| i as int),
            forall|j: int| 0 <= j < order@.len() ==> #[trigger] order@[j] < chunks@.len(),
            r@.len() == k,
            forall|j: int| 0 <= j < k ==> *(#[trigger] r@[j]) == chunks@[all[j]],
        decreases order@.len() - k,
    {
        r.push(&chunks[order[k]]);
        k += 1;
    }
    r
}

/// The chunks as the model sees them, the first `n`, 800 characters of each.
pub open spec fn chunk_lines(chunks: Seq<&KnowledgeChunk>, n: int) -> Seq<char>
    decreases n,
{
    if n <= 0 {
        "\n\n[Local knowledge — cite the file when you use it]"@
    } else {
        chunk_lines(chunks, n - 1) + ("\n["@ + chunks[n - 1].path@ + "] "@ + text::first_chars(
            chunks[n - 1].text@,
            800,
        ) + "\n"@)
    }
}

/// The chunks as the model sees them.
pub fn knowledge_block(chunks: &[&KnowledgeChunk]) -> (s: String)
    ensures
        s@ == chunk_lines(chunks@, chunks@.len() as int),
{
    let mut s = "\n\n[Local knowledge — cite the file when you use it]".to_owned();
    let mut i: usize = 0;
    while i < chunks.len()
        invariant
            i <= chunks@.len(),
            s@ == chunk_lines(chunks@, i as int),
        decreases chunks@.len() - i,
    {
        let mut line = "\n[".to_owned();
        line.append(&chunks[i].path);
        line.append("] ");
        let head = text::take_chars(&chunks[i].text, 800);
        line.append(&head);
        line.append("\n");
        s.append(&line);
        i += 1;
    }
    s
}

// ---- a project inside a project ------------------------------------------------------------

/// `s` with every backslash written as a slash.
pub open spec fn slashed(s: Seq<char>) -> Seq<char> {
    s.map_values(
        |c: char|
            if c == '\\' {
                '/'
            } else {
                c
            },
    )
}

/// `s` with every backslash written as a slash.
pub fn with_slashes(s: &str) -> (r: String)
    ensures
        r@ == slashed(s@),
{
    let v = text::chars_of(s);
    let mut r = String::new();
    let mut i: usize = 0;
    while i < v.len()
        invariant
            i <= v@.len(),
            v@ == s@,
            r@ == slashed(s@).take(i as int),
        decreases v@.len() - i,
    {
        if v[i] == '\\' {
            r.push('/');
        } else {
            r.push(v[i]);
        }
        assert(r@ =~= slashed(s@).take(i + 1));
        i += 1;
    }
    assert(r@ =~= slashed(s@));
    r
}

/// A chunk as seen from the folder `prefix`, if it is below it.
pub open spec fn path_below(path: Seq<char>, prefix: Seq<char>) -> Option<Seq<char>> {
    if text::begins(slashed(path), prefix) {
        Some(slashed(path).skip(prefix.len() as int))
    } else {
        None
    }
}

/// A chunk: its id, its project, its path, its place in the file and its text.
pub open spec fn chunk_view(c: KnowledgeChunk) -> (Seq<char>, Seq<char>, Seq<char>, int, Seq<char>) {
    (c.id@, c.workspace_id@, c.path@, c.chunk_idx as int, c.text@)
}

/// Those of the first `n` chunks that are below the folder, as seen from it.
pub open spec fn below(chunks: Seq<KnowledgeChunk>, prefix: Seq<char>, n: int) -> Seq<
    (Seq<char>, Seq<char>, Seq<char>, int, Seq<char>),
>
    decreases n,
{
    if n <= 0 {
        Seq::empty()
    } else {
        match path_below(chunks[n - 1].path@, prefix) {
            Some(path) => {
                let c = chunks[n - 1];
                below(chunks, prefix, n - 1).push(
                    (c.id@, c.workspace_id@, path, c.chunk_idx as int, c.text@),
                )
            },
            None => below(chunks, prefix, n - 1),
        }
    }
}

/// The chunks below a folder of the project, with their paths as seen from it
/// (`prefix` ends in a slash). Chunks of sibling folders are left out.
pub fn rebase_knowledge(chunks: &[KnowledgeChunk], prefix: &str) -> (r: Vec<KnowledgeChunk>)
    ensures
        r@.map_values(|c: KnowledgeChunk| chunk_view(c)) == below(
            chunks@,
            prefix@,
            chunks@.len() as int,
        ),
{
    let p = text::chars_of(prefix);
    let mut r: Vec<KnowledgeChunk> = Vec::new();
    let mut i: usize = 0;
    assert(r@.map_values(|c: KnowledgeChunk| chunk_view(c)) =~= below(chunks@, prefix@, 0));
    while i < chunks.len()
        invariant
            i <= chunks@.len(),
            p@ == prefix@,
            r@.map_values(|c: KnowledgeChunk| chunk_view(c)) == below(
                chunks@,
                prefix@,
                i as int,
            ),
        decreases chunks@.len() - i,
    {
        let c = &chunks[i];
        let path = with_slashes(&c.path);
        let v = text::chars_of(&path);
        if text::stands_at(&v, &p, 0) {
            let relative = text::string_of(&v, p.len(), v.len());
            let ghost was = r@;
            let ghost shown = relative@;
            assert(shown =~= slashed(c.path@).skip(prefix@.len() as int));
            r.push(
                KnowledgeChunk {
                    id: c.id.clone(),
                    workspace_id: c.workspace_id.clone(),
                    path: relative,
                    chunk_idx: c.chunk_idx,
                    text: c.text.clone(),
                },
            );
            assert(r@.map_values(|c: KnowledgeChunk| chunk_view(c)) =~= was.map_values(
                |c: KnowledgeChunk| chunk_view(c),
            ).push((c.id@, c.workspace_id@, shown, c.chunk_idx as int, c.text@)));
        }
        i += 1;
    }
    r
}

// ---- what a score is ----------------------------------------------------------------------

proof fn lemma_score_of_first(
    content: Seq<char>,
    path: Seq<char>,
    terms: Seq<Seq<char>>,
    more: Seq<Seq<char>>,
    n: int,
)
    requires
        0 <= n <= terms.len(),
    ensures
        score(content, path, terms + more, n) == score(content, path, terms, n),
    decreases n,
{
    if n > 0 {
        lemma_score_of_first(content, path, terms, more, n - 1);
        assert((terms + more)[n - 1] == terms[n - 1]);
    }
}

/// A chunk's score is what its terms add, together: for two lists of terms in a
/// row it is the sum of the scores for each. So the order of the terms does not
/// matter, and another term never takes away from a score.
pub proof fn law_terms_add_up(
    content: Seq<char>,
    path: Seq<char>,
    terms: Seq<Seq<char>>,
    more: Seq<Seq<char>>,
)
    ensures
        ({
            let of = |list: Seq<Seq<char>>| score(content, path, list, list.len() as int);
            &&& of(terms + more) == of(terms) + of(more)
            &&& of(terms + more) == of(more + terms)
            &&& of(terms + more) >= of(terms)
            &&& of(Seq::<Seq<char>>::empty()) == 0
        }),
{
    lemma_scores_of_both(content, path, terms, more, more.len() as int);
    lemma_scores_of_both(content, path, more, terms, terms.len() as int);
}

proof fn lemma_scores_of_both(
    content: Seq<char>,
    path: Seq<char>,
    terms: Seq<Seq<char>>,
    more: Seq<Seq<char>>,
    n: int,
)
    requires
        0 <= n <= more.len(),
    ensures
        score(content, path, terms + more, terms.len() + n) == score(
            content,
            path,
            terms,
            terms.len() as int,
        ) + score(content, path, more, n),
    decreases n,
{
    if n > 0 {
        lemma_scores_of_both(content, path, terms, more, n - 1);
        assert((terms + more)[terms.len() + n - 1] == more[n - 1]);
    } else {
        lemma_score_of_first(content, path, terms, more, terms.len() as int);
    }
}

/// The positions are such that `p` stands at each of them in `s`, one behind
/// the other without overlap.
pub open spec fn separate(s: Seq<char>, p: Seq<char>, at: Seq<int>) -> bool {
    &&& forall|i: int| 0 <= i < at.len() ==> text::occurs_at(s, p, #[trigger] at[i])
    &&& forall|i: int, j: int|
        0 <= i < j < at.len() ==> #[trigger] at[i] + p.len() <= #[trigger] at[j]
}

proof fn lemma_at_most_counted(s: Seq<char>, p: Seq<char>, at: Seq<int>, from: int)
    requires
        p.len() > 0,
        0 <= from,
        separate(s, p, at),
        at.len() > 0 ==> from <= at[0],
    ensures
        at.len() <= count_from(s, p, from),
    decreases at.len(),
{
    text::lemma_found(s, p, from);
    if at.len() > 0 {
        assert(text::occurs_at(s, p, at[0]));
        let i = text::found(s, p, from)->0;
        let rest = at.skip(1);
        assert(separate(s, p, rest)) by {
            assert forall|k: int| 0 <= k < rest.len() implies text::occurs_at(
                s,
                p,
                #[trigger] rest[k],
            ) by {
                assert(rest[k] == at[k + 1]);
            }
            assert forall|k: int, j: int| 0 <= k < j < rest.len() implies #[trigger] rest[k]
                + p.len() <= #[trigger] rest[j] by {
                assert(rest[k] == at[k + 1] && rest[j] == at[j + 1]);
            }
        }
        if rest.len() > 0 {
            assert(rest[0] == at[1]);
            assert(at[0] + p.len() <= at[1]);
        }
        lemma_at_most_counted(s, p, rest, i + p.len());
    }
}

proof fn lemma_counted(s: Seq<char>, p: Seq<char>, from: int) -> (at: Seq<int>)
    requires
        p.len() > 0,
        0 <= from,
    ensures
        separate(s, p, at),
        at.len() == count_from(s, p, from),
        at.len() > 0 ==> from <= at[0],
    decreases s.len() + 1 - from,
{
    text::lemma_found(s, p, from);
    match text::found(s, p, from) {
        None => Seq::empty(),
        Some(i) => {
            let rest = lemma_counted(s, p, i + p.len());
            let at = seq![i] + rest;
            assert forall|k: int| 0 <= k < at.len() implies text::occurs_at(
                s,
                p,
                #[trigger] at[k],
            ) by {
                if k > 0 {
                    assert(at[k] == rest[k - 1]);
                }
            }
            assert forall|k: int, j: int| 0 <= k < j < at.len() implies #[trigger] at[k] + p.len()
                <= #[trigger] at[j] by {
                assert(at[j] == rest[j - 1]);
                if k > 0 {
                    assert(at[k] == rest[k - 1]);
                } else if j > 1 {
                    assert(rest[0] + p.len() <= rest[j - 1]);
                }
            }
            at
        },
    }
}

/// A term is counted as often as it can stand in the text without overlap.
pub proof fn law_occurrences_are_counted(s: Seq<char>, p: Seq<char>)
    requires
        p.len() > 0,
    ensures
        exists|at: Seq<int>| #[trigger] separate(s, p, at) && at.len() == count_from(s, p, 0),
        forall|at: Seq<int>| #[trigger]
            separate(s, p, at) && at.len() > 0 ==> at.len() <= count_from(s, p, 0),
{
    let at = lemma_counted(s, p, 0);
    assert(separate(s, p, at));
    assert forall|at: Seq<int>| #[trigger] separate(s, p, at) && at.len() > 0 implies at.len()
        <= count_from(s, p, 0) by {
        assert(text::occurs_at(s, p, at[0]));
        lemma_at_most_counted(s, p, at, 0);
    }
}

/// What a term adds: nothing exactly where it does not occur; one for each
/// occurrence and five at most; three times that where the path holds the term
/// too. So it never adds less where it occurs more often.
pub proof fn law_what_a_term_adds(
    content: Seq<char>,
    other: Seq<char>,
    path: Seq<char>,
    elsewhere: Seq<char>,
    term: Seq<char>,
)
    requires
        term.len() > 0,
    ensures
        term_score(content, path, term) == 0 <==> !text::holds(content, term),
        count_from(content, term, 0) <= count_from(other, term, 0) ==> term_score(
            content,
            path,
            term,
        ) <= term_score(other, path, term),
        !text::holds(path, term) && count_from(content, term, 0) <= 5 ==> term_score(
            content,
            path,
            term,
        ) == count_from(content, term, 0),
        !text::holds(path, term) && count_from(content, term, 0) > 5 ==> term_score(
            content,
            path,
            term,
        ) == 5,
        !text::holds(path, term) && text::holds(elsewhere, term) ==> term_score(
            content,
            elsewhere,
            term,
        ) == 3 * term_score(content, path, term),
{
    text::lemma_found(content, term, 0);
    if text::holds(content, term) {
        let i = choose|i: int| text::occurs_at(content, term, i);
        assert(text::found(content, term, 0) is Some);
    } else if text::found(content, term, 0) is Some {
        assert(text::occurs_at(content, term, text::found(content, term, 0)->0));
    }
    let a = num::lesser(count_from(content, term, 0) as int, 5);
    let b = num::lesser(count_from(other, term, 0) as int, 5);
    assert(a * 3 <= b * 3 || a > b);
}

proof fn lemma_long_words(words: Seq<Seq<char>>, n: int)
    requires
        0 <= n <= words.len(),
    ensures
        forall|k: int|
            0 <= k < long_words(words, n).len() ==> text::byte_len(
                #[trigger] long_words(words, n)[k],
            ) > 2 && words.contains(long_words(words, n)[k]),
        forall|i: int|
            0 <= i < n && text::byte_len(#[trigger] words[i]) > 2 ==> long_words(
                words,
                n,
            ).contains(words[i]),
    decreases n,
{
    if n > 0 {
        lemma_long_words(words, n - 1);
        let before = long_words(words, n - 1);
        let now = long_words(words, n);
        assert forall|i: int| 0 <= i < n && text::byte_len(
            #[trigger] words[i],
        ) > 2 implies now.contains(words[i]) by {
            if i < n - 1 {
                let k = choose|k: int| 0 <= k < before.len() && before[k] == words[i];
                assert(now[k] == words[i]);
            } else {
                assert(now[now.len() - 1] == words[i]);
            }
        }
    }
}

/// The terms of a question are its longest stretches of letters and digits,
/// those of more than two bytes.
pub proof fn law_terms_are_the_long_words(lower: Seq<char>)
    ensures
        forall|k: int|
            0 <= k < terms_of(lower).len() ==> {
                &&& text::byte_len(#[trigger] terms_of(lower)[k]) > 2
                &&& exists|a: int, b: int| #[trigger]
                    text::is_stretch(lower, between_terms(lower), a, b) && terms_of(lower)[k]
                        == lower.subrange(a, b)
            },
        forall|a: int, b: int| #[trigger]
            text::is_stretch(lower, between_terms(lower), a, b) && text::byte_len(
                lower.subrange(a, b),
            ) > 2 ==> terms_of(lower).contains(lower.subrange(a, b)),
        forall|i: int|
            0 <= i < lower.len() ==> #[trigger] between_terms(lower)[i] == !boundary::alphanumeric(
                lower[i],
            ),
{
    let marks = between_terms(lower);
    let parts = text::pieces(lower, marks);
    text::law_pieces_are_the_stretches(lower, marks);
    lemma_long_words(parts, parts.len() as int);
    assert forall|k: int| 0 <= k < terms_of(lower).len() implies text::byte_len(
        #[trigger] terms_of(lower)[k],
    ) > 2 && exists|a: int, b: int| #[trigger]
        text::is_stretch(lower, marks, a, b) && terms_of(lower)[k] == lower.subrange(a, b) by {
        assert(parts.contains(terms_of(lower)[k]));
        let j = choose|j: int| 0 <= j < parts.len() && parts[j] == terms_of(lower)[k];
        let (a, b) = choose|a: int, b: int| #[trigger]
            text::is_stretch(lower, marks, a, b) && parts[j] == lower.subrange(a, b);
        assert(text::is_stretch(lower, marks, a, b));
    }
    assert forall|a: int, b: int| #[trigger]
        text::is_stretch(lower, marks, a, b) && text::byte_len(
            lower.subrange(a, b),
        ) > 2 implies terms_of(lower).contains(lower.subrange(a, b)) by {
        let j = choose|j: int| 0 <= j < parts.len() && parts[j] == lower.subrange(a, b);
        assert(text::byte_len(parts[j]) > 2);
    }
}

proof fn lemma_some_term_occurs(
    content: Seq<char>,
    path: Seq<char>,
    terms: Seq<Seq<char>>,
    n: int,
)
    requires
        0 <= n <= terms.len(),
        forall|k: int| 0 <= k < terms.len() ==> (#[trigger] terms[k]).len() > 0,
    ensures
        score(content, path, terms, n) > 0 <==> exists|k: int|
            0 <= k < n && text::holds(content, #[trigger] terms[k]),
    decreases n,
{
    if n > 0 {
        lemma_some_term_occurs(content, path, terms, n - 1);
        law_what_a_term_adds(content, content, path, path, terms[n - 1]);
    }
}

/// What a question brings up holds one of its terms, whatever the case of the
/// letters; and a chunk that holds one stays out only where the limit is
/// reached by chunks that score no less.
pub proof fn law_what_a_question_brings_up(
    chunks: Seq<KnowledgeChunk>,
    query: Seq<char>,
    limit: nat,
)
    ensures
        ({
            let terms = terms_of(boundary::lowercase(query));
            let r = retrieved(chunks, query, limit);
            let matching = |i: int|
                exists|t: int|
                    0 <= t < terms.len() && text::holds(
                        boundary::lowercase(chunks[i].text@),
                        #[trigger] terms[t],
                    );
            let value = |i: int|
                score(
                    boundary::lowercase(chunks[i].text@),
                    boundary::lowercase(chunks[i].path@),
                    terms,
                    terms.len() as int,
                );
            &&& forall|k: int|
                0 <= k < r.len() ==> 0 <= #[trigger] r[k] < chunks.len() && matching(r[k])
            &&& forall|j: int, k: int|
                0 <= j < k < r.len() ==> #[trigger] r[j] != #[trigger] r[k] && value(r[j])
                    >= value(r[k])
            &&& r.len() <= num::greater(limit as int, 1)
            &&& forall|i: int|
                0 <= i < chunks.len() && #[trigger] matching(i) && !r.contains(i) ==> r.len()
                    == num::greater(limit as int, 1) && forall|k: int|
                    0 <= k < r.len() ==> value(#[trigger] r[k]) >= value(i)
        }),
{
    let lower = boundary::lowercase(query);
    let terms = terms_of(lower);
    let all = scores(chunks, terms);
    let r = retrieved(chunks, query, limit);
    law_terms_are_the_long_words(lower);
    assert forall|k: int| 0 <= k < terms.len() implies (#[trigger] terms[k]).len() > 0 by {
        if terms[k].len() == 0 {
            text::lemma_byte_len_bounds(terms[k]);
        }
    }
    assert forall|i: int| 0 <= i < chunks.len() implies (#[trigger] all[i] > 0 <==> exists|t: int|
        0 <= t < terms.len() && text::holds(
            boundary::lowercase(chunks[i].text@),
            #[trigger] terms[t],
        )) by {
        lemma_some_term_occurs(
            boundary::lowercase(chunks[i].text@),
            boundary::lowercase(chunks[i].path@),
            terms,
            terms.len() as int,
        );
    }
    if terms.len() > 0 {
        law_best_chunks_come_first(all, limit);
        lemma_ranked(all, all.len() as int);
        let order = ranked(all, all.len() as int);
        assert forall|i: int|
            0 <= i < chunks.len() && all[i] > 0 && !#[trigger] r.contains(i) implies r.len()
            == num::greater(limit as int, 1) by {
            assert(order.contains(i));
            let k = choose|k: int| 0 <= k < order.len() && order[k] == i;
            if r.len() == order.len() {
                assert(r[k] == i);
            }
        }
    }
}

/// A text that fits one chunk is one chunk. Any chunk of a longer text is a
/// stretch of it that begins some multiple of 700 characters behind the start
/// and is 800 long or ends with the text.
pub proof fn law_chunks_are_stretches(s: Seq<char>, start: int)
    requires
        0 <= start,
    ensures
        s.len() - start <= 800 && start < s.len() && !text::is_blank(s.skip(start)) ==> chunks_from(
            s,
            start,
        ) == seq![s.skip(start)],
        forall|k: int|
            0 <= k < chunks_from(s, start).len() ==> exists|j: int|
                0 <= j && start + 700 * j < s.len() && #[trigger] chunks_from(s, start)[k]
                    == #[trigger] s.subrange(
                    start + 700 * j,
                    num::lesser(start + 700 * j + 800, s.len() as int),
                ),
    decreases s.len() - start,
{
    if start < s.len() {
        let end = num::lesser(start + CHUNK_CHARS, s.len() as int);
        let piece = s.subrange(start, end);
        if end == s.len() {
            assert(piece =~= s.skip(start));
            assert(start + 700 * 0 == start);
            assert(seq![piece] + Seq::<Seq<char>>::empty() =~= seq![piece]);
        } else {
            law_chunks_are_stretches(s, start + 700);
        }
        let all = chunks_from(s, start);
        assert forall|k: int| 0 <= k < all.len() implies exists|j: int|
            0 <= j && start + 700 * j < s.len() && #[trigger] all[k] == #[trigger] s.subrange(
                start + 700 * j,
                num::lesser(start + 700 * j + 800, s.len() as int),
            ) by {
            let first = if text::is_blank(piece) {
                0int
            } else {
                1int
            };
            if k < first {
                assert(all[k] == s.subrange(
                    start + 700 * 0,
                    num::lesser(start + 700 * 0 + 800, s.len() as int),
                ));
            } else {
                let rest = chunks_from(s, start + 700);
                assert(all[k] == rest[k - first]);
                let j = choose|j: int|
                    0 <= j && start + 700 + 700 * j < s.len() && rest[k - first]
                        == #[trigger] s.subrange(
                        start + 700 + 700 * j,
                        num::lesser(start + 700 + 700 * j + 800, s.len() as int),
                    );
                assert(start + 700 * (j + 1) == start + 700 + 700 * j);
                assert(all[k] == s.subrange(
                    start + 700 * (j + 1),
                    num::lesser(start + 700 * (j + 1) + 800, s.len() as int),
                ));
            }
        }
    }
}

/// The model sees each chunk under the path of its file, with up to 800
/// characters of its text.
pub proof fn law_the_model_sees_every_chunk(chunks: Seq<&KnowledgeChunk>, n: int, k: int)
    requires
        0 <= k < n <= chunks.len(),
    ensures
        (chunk_lines(chunks, k) + ("\n["@ + chunks[k].path@ + "] "@ + chunks[k].text@.take(
            num::lesser(chunks[k].text@.len() as int, 800),
        ) + "\n"@)).is_prefix_of(chunk_lines(chunks, n)),
    decreases n,
{
    let shown = chunk_lines(chunks, k + 1);
    assert(chunks[k].text@.take(chunks[k].text@.len() as int) =~= chunks[k].text@);
    if k < n - 1 {
        law_the_model_sees_every_chunk(chunks, n - 1, k);
        let before = chunk_lines(chunks, n - 1);
        assert(shown.is_prefix_of(before));
        assert(shown =~= chunk_lines(chunks, n).subrange(0, shown.len() as int));
    } else {
        assert(shown =~= shown.subrange(0, shown.len() as int));
    }
}

/// Seen from a folder, the chunks are those whose path begins with the folder,
/// with slashes for backslashes, and the folder before the new path is the old
/// one; everything else of a chunk is kept.
pub proof fn law_chunks_seen_from_a_folder(
    chunks: Seq<KnowledgeChunk>,
    prefix: Seq<char>,
    n: int,
)
    requires
        0 <= n <= chunks.len(),
    ensures
        forall|k: int|
            0 <= k < below(chunks, prefix, n).len() ==> exists|i: int|
                0 <= i < n && slashed((#[trigger] chunks[i]).path@) == prefix + (#[trigger] below(
                    chunks,
                    prefix,
                    n,
                )[k]).2 && below(chunks, prefix, n)[k].0 == chunks[i].id@ && below(
                    chunks,
                    prefix,
                    n,
                )[k].1 == chunks[i].workspace_id@ && below(chunks, prefix, n)[k].4
                    == chunks[i].text@,
        forall|i: int|
            0 <= i < n && prefix.is_prefix_of(slashed((#[trigger] chunks[i]).path@)) ==> exists|
                k: int,
            |
                0 <= k < below(chunks, prefix, n).len() && (#[trigger] below(
                    chunks,
                    prefix,
                    n,
                )[k]).0 == chunks[i].id@ && below(chunks, prefix, n)[k].4 == chunks[i].text@,
    decreases n,
{
    if n > 0 {
        law_chunks_seen_from_a_folder(chunks, prefix, n - 1);
        let before = below(chunks, prefix, n - 1);
        let now = below(chunks, prefix, n);
        let c = chunks[n - 1];
        let path = slashed(c.path@);
        if text::begins(path, prefix) {
            assert(path =~= prefix + path.skip(prefix.len() as int)) by {
                assert(path.subrange(0, prefix.len() as int) =~= prefix);
                assert forall|i: int| 0 <= i < prefix.len() implies path[i] == prefix[i] by {
                    assert(path.subrange(0, prefix.len() as int)[i] == path[i]);
                }
            }
            assert(now[now.len() - 1].2 == path.skip(prefix.len() as int));
        }
        assert forall|k: int| 0 <= k < now.len() implies exists|i: int|
            0 <= i < n && slashed((#[trigger] chunks[i]).path@) == prefix + (#[trigger] now[k]).2
                && now[k].0 == chunks[i].id@ && now[k].1 == chunks[i].workspace_id@ && now[k].4
                == chunks[i].text@ by {
            if k < before.len() {
                assert(now[k] == before[k]);
            } else {
                assert(slashed(chunks[n - 1].path@) == prefix + now[k].2);
            }
        }
        assert forall|i: int|
            0 <= i < n && prefix.is_prefix_of(
                slashed((#[trigger] chunks[i]).path@),
            ) implies exists|k: int|
            0 <= k < now.len() && (#[trigger] now[k]).0 == chunks[i].id@ && now[k].4
                == chunks[i].text@ by {
            if i < n - 1 {
                let k = choose|k: int|
                    0 <= k < before.len() && (#[trigger] before[k]).0 == chunks[i].id@
                        && before[k].4 == chunks[i].text@;
                assert(now[k] == before[k]);
            } else {
                assert(text::begins(path, prefix));
                assert(now[now.len() - 1].0 == chunks[i].id@);
            }
        }
    }
}

/// Writing slashes changes backslashes and nothing else.
pub proof fn law_slashes_for_backslashes(s: Seq<char>, i: int)
    requires
        0 <= i < s.len(),
    ensures
        slashed(s).len() == s.len(),
        s[i] == '\\' ==> slashed(s)[i] == '/',
        s[i] != '\\' ==> slashed(s)[i] == s[i],
{
}

/// Of a file that is taken in the first 200 chunks are kept, all of them where
/// there are fewer; a file of more than 2,000,000 bytes is left out.
pub proof fn law_what_is_kept_of_a_file(size: u64, content: Option<Seq<char>>)
    ensures
        kept_chunks(size, content) is Some <==> content is Some && size <= 2_000_000,
        kept_chunks(size, content) matches Some(kept) ==> {
            let all = chunks_from(content->0, 0);
            &&& kept.is_prefix_of(all)
            &&& kept.len() <= 200
            &&& kept.len() < all.len() ==> kept.len() == 200
        },
{
    if let Some(kept) = kept_chunks(size, content) {
        let all = chunks_from(content->0, 0);
        assert(kept =~= all.subrange(0, kept.len() as int));
    }
}

} // verus!
