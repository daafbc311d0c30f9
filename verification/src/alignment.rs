//! Alignment of token surfaces onto code-point intervals of a sentence.
//!
//! A tokenizer hands back the surfaces of its tokens but the playback engine
//! reports positions as code-point offsets. The alignment walks the surfaces
//! in order with a cursor: each surface is searched for from the cursor
//! onwards and placed at its first occurrence, or at the cursor itself when
//! it does not occur any more.

use vstd::prelude::*;

use crate::text::chars_of;

verus! {

/// A half-open interval `[start, end)` of code-point offsets into a sentence,
/// together with the index of the token it belongs to.
#[derive(Clone, Copy, Debug, PartialEq, Eq, Structural)]
pub struct AlignedInterval {
    pub start: usize,
    pub end: usize,
    pub token_index: usize,
}

impl AlignedInterval {
    /// Whether the code-point offset `idx` lies inside the interval.
    pub open spec fn covers(self, idx: int) -> bool {
        self.start <= idx < self.end
    }
}

/// Whether `pat` stands in `text` as a contiguous run that begins at `at`.
pub open spec fn occurs_at(text: Seq<char>, pat: Seq<char>, at: int) -> bool {
    &&& 0 <= at
    &&& at + pat.len() <= text.len()
    &&& text.subrange(at, at + pat.len()) == pat
}

/// Whether `pat` occurs in `text` at some offset that is not before `from`.
pub open spec fn occurs_from(text: Seq<char>, pat: Seq<char>, from: int) -> bool {
    exists|at: int| from <= at && #[trigger] occurs_at(text, pat, at)
}

/// `at` is the first offset, not before `from`, at which `pat` occurs in `text`.
pub open spec fn is_first_occurrence(text: Seq<char>, pat: Seq<char>, from: int, at: int) -> bool {
    &&& from <= at
    &&& occurs_at(text, pat, at)
    &&& forall|k: int| from <= k < at ==> !#[trigger] occurs_at(text, pat, k)
}

/// The offset at which a surface is placed while the cursor stands at `pos`:
/// its first occurrence from `pos` onwards, or `pos` itself when there is none.
pub open spec fn placement(text: Seq<char>, pat: Seq<char>, pos: int) -> int {
    if occurs_from(text, pat, pos) {
        choose|at: int| is_first_occurrence(text, pat, pos, at)
    } else {
        pos
    }
}

/// The cursor after the first `n` surfaces have been placed.
pub open spec fn cursor_after(text: Seq<char>, surfaces: Seq<Seq<char>>, n: int) -> int
    decreases n,
{
    if n <= 0 {
        0
    } else {
        placement(text, surfaces[n - 1], cursor_after(text, surfaces, n - 1)) + surfaces[n - 1].len()
    }
}

/// The offset at which surface `i` is placed.
pub open spec fn start_of(text: Seq<char>, surfaces: Seq<Seq<char>>, i: int) -> int {
    placement(text, surfaces[i], cursor_after(text, surfaces, i))
}

/// `out` is the alignment of `surfaces` onto `text`: one interval per
/// surface, in order, each as wide as its surface and placed by `placement`.
pub open spec fn is_alignment(
    text: Seq<char>,
    surfaces: Seq<Seq<char>>,
    out: Seq<AlignedInterval>,
) -> bool {
    &&& out.len() == surfaces.len()
    &&& forall|i: int|
        0 <= i < out.len() ==> {
            &&& (#[trigger] out[i]).token_index == i
            &&& out[i].start == start_of(text, surfaces, i)
            &&& out[i].end == start_of(text, surfaces, i) + surfaces[i].len()
        }
}

/// The code points of each string of `strings`.
pub open spec fn texts_of(strings: Seq<String>) -> Seq<Seq<char>> {
    strings.map_values(|s: String| s@)
}

/// The parts joined end to end.
pub open spec fn joined(parts: Seq<Seq<char>>) -> Seq<char>
    decreases parts.len(),
{
    if parts.len() == 0 {
        Seq::empty()
    } else {
        joined(parts.drop_last()) + parts.last()
    }
}

/// The pieces that the intervals cut out of `text`.
pub open spec fn slices(text: Seq<char>, out: Seq<AlignedInterval>) -> Seq<Seq<char>> {
    Seq::new(out.len(), |i: int| text.subrange(out[i].start as int, out[i].end as int))
}

/// The intervals lie end to end from offset 0 to offset `len`.
pub open spec fn tiles(out: Seq<AlignedInterval>, len: int) -> bool {
    &&& out.len() == 0 ==> len == 0
    &&& out.len() > 0 ==> out[0].start == 0 && out.last().end == len
    &&& forall|i: int| 0 < i < out.len() ==> (#[trigger] out[i]).start == out[i - 1].end
}

/// The cursor in front of interval `i`: where the previous interval ends.
pub open spec fn cursor_before(out: Seq<AlignedInterval>, i: int) -> int {
    if i <= 0 {
        0
    } else {
        out[i - 1].end as int
    }
}

/// A first occurrence is unique, so `placement` is the offset found by any
/// search that returns the first occurrence.
pub proof fn lemma_placement_found(text: Seq<char>, pat: Seq<char>, pos: int, at: int)
    requires
        is_first_occurrence(text, pat, pos, at),
    ensures
        occurs_from(text, pat, pos),
        placement(text, pat, pos) == at,
{
}

/// A surface is never placed before the cursor.
pub proof fn lemma_placement_not_before(text: Seq<char>, pat: Seq<char>, pos: int)
    ensures
        pos <= placement(text, pat, pos),
        occurs_from(text, pat, pos) ==> is_first_occurrence(
            text,
            pat,
            pos,
            placement(text, pat, pos),
        ),
{
    if occurs_from(text, pat, pos) {
        let a = choose|at: int| pos <= at && #[trigger] occurs_at(text, pat, at);
        lemma_first_occurrence_exists(text, pat, pos, a);
    }
}

/// Below an occurrence at `at` there is a first one.
proof fn lemma_first_occurrence_exists(text: Seq<char>, pat: Seq<char>, from: int, at: int)
    requires
        from <= at,
        occurs_at(text, pat, at),
    ensures
        exists|f: int| is_first_occurrence(text, pat, from, f),
    decreases at - from,
{
    if exists|k: int| from <= k < at && #[trigger] occurs_at(text, pat, k) {
        let k = choose|k: int| from <= k < at && #[trigger] occurs_at(text, pat, k);
        lemma_first_occurrence_exists(text, pat, from, k);
    } else {
        assert(is_first_occurrence(text, pat, from, at));
    }
}

/// The cursor never moves backwards.
pub proof fn lemma_cursor_monotonic(text: Seq<char>, surfaces: Seq<Seq<char>>, i: int, j: int)
    requires
        0 <= i <= j,
    ensures
        0 <= cursor_after(text, surfaces, i) <= cursor_after(text, surfaces, j),
    decreases j,
{
    if j > 0 {
        if i < j {
            lemma_cursor_monotonic(text, surfaces, i, j - 1);
            lemma_placement_not_before(
                text,
                surfaces[j - 1],
                cursor_after(text, surfaces, j - 1),
            );
        } else {
            lemma_cursor_monotonic(text, surfaces, 0, j - 1);
            lemma_placement_not_before(
                text,
                surfaces[j - 1],
                cursor_after(text, surfaces, j - 1),
            );
        }
    }
}

/// In an alignment the cursor in front of an interval is the end of the
/// interval before it.
pub proof fn lemma_cursor_is_previous_end(
    text: Seq<char>,
    surfaces: Seq<Seq<char>>,
    out: Seq<AlignedInterval>,
    i: int,
)
    requires
        is_alignment(text, surfaces, out),
        0 <= i <= out.len(),
    ensures
        cursor_after(text, surfaces, i) == cursor_before(out, i),
{
}

/// Searches `text` for the first occurrence of `pat` at or after `from`.
pub fn find_from(text: &[char], pat: &[char], from: usize) -> (found: Option<usize>)
    ensures
        match found {
            Some(at) => is_first_occurrence(text@, pat@, from as int, at as int),
            None => !occurs_from(text@, pat@, from as int),
        },
{
    let n = text.len();
    let m = pat.len();
    if m > n {
        return None;
    }
    let last = n - m;
    let mut start = from;
    while start <= last
        invariant
            n == text@.len(),
            m == pat@.len(),
            last == n - m,
            from <= start,
            forall|k: int| from <= k < start ==> !#[trigger] occurs_at(text@, pat@, k),
        decreases last + 1 - start,
    {
        if matches_at(text, pat, start) {
            return Some(start);
        }
        if start == last {
            return None;
        }
        start += 1;
    }
    None
}

/// Whether `pat` stands in `text` at offset `at`.
fn matches_at(text: &[char], pat: &[char], at: usize) -> (same: bool)
    requires
        at + pat@.len() <= text@.len(),
    ensures
        same == occurs_at(text@, pat@, at as int),
{
    let n = text.len();
    let m = pat.len();
    let mut j: usize = 0;
    while j < m
        invariant
            n == text@.len(),
            m == pat@.len(),
            at + m <= n,
            j <= m,
            forall|k: int| 0 <= k < j ==> text@[at + k] == #[trigger] pat@[k],
        decreases m - j,
    {
        if text[at + j] != pat[j] {
            return false;
        }
        j += 1;
    }
    assert(text@.subrange(at as int, at + m) =~= pat@);
    true
}

/// Aligns `surfaces` onto `sentence`, or returns `None` when an offset of the
/// result would not fit in `usize`.
pub fn try_build_char_offset_ranges(sentence: &str, surfaces: &[String]) -> (out: Option<
    Vec<AlignedInterval>,
>)
    ensures
        match out {
            Some(ranges) => is_alignment(sentence@, texts_of(surfaces@), ranges@),
            None => cursor_after(sentence@, texts_of(surfaces@), surfaces@.len() as int)
                > usize::MAX,
        },
{
    let sentence_chars = chars_of(sentence);
    let ghost text = sentence@;
    let ghost surfs = texts_of(surfaces@);
    let n = surfaces.len();
    let mut ranges: Vec<AlignedInterval> = Vec::new();
    let mut pos: usize = 0;
    let mut i: usize = 0;
    while i < n
        invariant
            n == surfaces@.len(),
            surfs == texts_of(surfaces@),
            text == sentence@,
            sentence_chars@ == text,
            i <= n,
            ranges@.len() == i,
            pos == cursor_after(text, surfs, i as int),
            forall|k: int|
                0 <= k < i ==> {
                    &&& (#[trigger] ranges@[k]).token_index == k
                    &&& ranges@[k].start == start_of(text, surfs, k)
                    &&& ranges@[k].end == start_of(text, surfs, k) + surfs[k].len()
                },
        decreases n - i,
    {
        let surf_chars = chars_of(surfaces[i].as_str());
        let start = match find_from(sentence_chars.as_slice(), surf_chars.as_slice(), pos) {
            Some(at) => {
                proof {
                    lemma_placement_found(text, surf_chars@, pos as int, at as int);
                }
                at
            },
            None => pos,
        };
        let end = match start.checked_add(surf_chars.len()) {
            Some(end) => end,
            None => {
                proof {
                    lemma_cursor_monotonic(text, surfs, i + 1, n as int);
                }
                return None;
            },
        };
        ranges.push(AlignedInterval { start, end, token_index: i });
        pos = end;
        i += 1;
    }
    Some(ranges)
}

/// Aligns `surfaces` onto `sentence`: one interval per surface, in order.
///
/// The offsets are counted in code points. A surface that occurs at or after
/// the cursor is placed at its first such occurrence; one that does not is
/// placed at the cursor, whatever text stands there, and may reach past the
/// end of the sentence.
pub fn build_char_offset_ranges(sentence: &str, surfaces: &[String]) -> (ranges: Vec<
    AlignedInterval,
>)
    requires
        cursor_after(sentence@, texts_of(surfaces@), surfaces@.len() as int) <= usize::MAX,
    ensures
        is_alignment(sentence@, texts_of(surfaces@), ranges@),
        ranges@.len() == surfaces@.len(),
        forall|i: int|
            0 <= i < ranges@.len() ==> (#[trigger] ranges@[i]).end - ranges@[i].start
                == surfaces@[i]@.len(),
        forall|i: int, j: int|
            0 <= i < j < ranges@.len() ==> (#[trigger] ranges@[i]).end <= (
            #[trigger] ranges@[j]).start,
{
    let out = try_build_char_offset_ranges(sentence, surfaces);
    let ranges = out.unwrap();
    proof {
        lemma_alignment_ordered(sentence@, texts_of(surfaces@), ranges@);
    }
    ranges
}

/// The tokens whose surface does not stand in the sentence where their
/// interval begins, in ascending order. In an alignment these are the
/// tokens whose surface the search did not find: their intervals were placed
/// at the cursor instead. Intervals without a surface, and surfaces without
/// an interval, are passed over.
pub fn fallback_tokens(sentence: &str, surfaces: &[String], ranges: &[AlignedInterval]) -> (missed:
    Vec<usize>)
    ensures
        forall|a: int, b: int|
            0 <= a < b < missed@.len() ==> (#[trigger] missed@[a]) < (#[trigger] missed@[b]),
        forall|a: int|
            0 <= a < missed@.len() ==> (#[trigger] missed@[a]) < ranges@.len() && missed@[a]
                < surfaces@.len(),
        forall|i: int|
            0 <= i < ranges@.len() && i < surfaces@.len() ==> (missed@.contains(i as usize)
                <==> !occurs_at(
                sentence@,
                #[trigger] texts_of(surfaces@)[i],
                ranges@[i].start as int,
            )),
{
    let sentence_chars = chars_of(sentence);
    let ghost text = sentence@;
    let ghost surfs = texts_of(surfaces@);
    let n = if ranges.len() < surfaces.len() {
        ranges.len()
    } else {
        surfaces.len()
    };
    let len = sentence_chars.len();
    let mut missed: Vec<usize> = Vec::new();
    let mut i: usize = 0;
    while i < n
        invariant
            n <= ranges@.len(),
            n <= surfaces@.len(),
            n == ranges@.len() || n == surfaces@.len(),
            surfs == texts_of(surfaces@),
            text == sentence@,
            sentence_chars@ == text,
            len == text.len(),
            i <= n,
            forall|a: int, b: int|
                0 <= a < b < missed@.len() ==> (#[trigger] missed@[a]) < (#[trigger] missed@[b]),
            forall|a: int| 0 <= a < missed@.len() ==> (#[trigger] missed@[a]) < i,
            forall|k: int|
                0 <= k < i ==> (missed@.contains(k as usize) <==> !occurs_at(
                    text,
                    #[trigger] surfs[k],
                    ranges@[k].start as int,
                )),
        decreases n - i,
    {
        let surf_chars = chars_of(surfaces[i].as_str());
        let start = ranges[i].start;
        let stands = surf_chars.len() <= len && start <= len - surf_chars.len() && matches_at(
            sentence_chars.as_slice(),
            surf_chars.as_slice(),
            start,
        );
        let ghost before = missed@;
        if !stands {
            missed.push(i);
            assert(missed@[before.len() as int] == i);
        }
        assert forall|k: int| 0 <= k < i + 1 implies (missed@.contains(k as usize) <==> !occurs_at(
            text,
            #[trigger] surfs[k],
            ranges@[k].start as int,
        )) by {
            if k < i && before.contains(k as usize) {
                let a = choose|a: int| 0 <= a < before.len() && before[a] == k as usize;
                assert(missed@[a] == k as usize);
            }
        }
        i += 1;
    }
    missed
}

/// An alignment has one interval per surface, each as wide as its surface,
/// and every interval begins where an earlier one has ended or later: the
/// starts never decrease and no two intervals overlap.
pub proof fn lemma_alignment_ordered(
    text: Seq<char>,
    surfaces: Seq<Seq<char>>,
    out: Seq<AlignedInterval>,
)
    requires
        is_alignment(text, surfaces, out),
    ensures
        out.len() == surfaces.len(),
        forall|i: int|
            0 <= i < out.len() ==> (#[trigger] out[i]).end - out[i].start == surfaces[i].len(),
        forall|i: int, j: int|
            0 <= i < j < out.len() ==> (#[trigger] out[i]).end <= (#[trigger] out[j]).start,
        forall|i: int, j: int|
            0 <= i <= j < out.len() ==> (#[trigger] out[i]).start <= (#[trigger] out[j]).start,
{
    assert forall|i: int, j: int| 0 <= i < j < out.len() implies (#[trigger] out[i]).end <= (
    #[trigger] out[j]).start by {
        lemma_cursor_is_previous_end(text, surfaces, out, i + 1);
        lemma_cursor_monotonic(text, surfaces, i + 1, j);
        lemma_placement_not_before(text, surfaces[j], cursor_after(text, surfaces, j));
    }
}

} // verus!
