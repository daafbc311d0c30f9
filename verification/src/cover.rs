//! What an alignment covers: when the surfaces spell the sentence the
//! intervals tile it, and a surface that is not found keeps the cursor.

use vstd::prelude::*;

use crate::alignment::{
    cursor_after, cursor_before, is_alignment, is_first_occurrence, joined,
    lemma_cursor_is_previous_end, lemma_placement_found, lemma_placement_not_before, occurs_at,
    occurs_from, slices, start_of, tiles, AlignedInterval,
};

verus! {

/// The length of the first `i` parts joined end to end.
pub open spec fn prefix_len(parts: Seq<Seq<char>>, i: int) -> int {
    joined(parts.take(i)).len() as int
}

/// Joining one part more appends that part.
pub proof fn lemma_joined_step(parts: Seq<Seq<char>>, i: int)
    requires
        0 <= i < parts.len(),
    ensures
        joined(parts.take(i + 1)) == joined(parts.take(i)) + parts[i],
        prefix_len(parts, i + 1) == prefix_len(parts, i) + parts[i].len(),
{
    assert(parts.take(i + 1).drop_last() =~= parts.take(i));
}

/// The first `i` parts joined are the beginning of all parts joined.
pub proof fn lemma_joined_prefix(parts: Seq<Seq<char>>, i: int)
    requires
        0 <= i <= parts.len(),
    ensures
        prefix_len(parts, i) <= joined(parts).len(),
        joined(parts).subrange(0, prefix_len(parts, i)) == joined(parts.take(i)),
    decreases parts.len() - i,
{
    if i == parts.len() {
        assert(parts.take(i) =~= parts);
    } else {
        lemma_joined_prefix(parts, i + 1);
        lemma_joined_step(parts, i);
    }
}

/// Part `i` stands in the joined parts right behind the parts before it.
pub proof fn lemma_part_occurs(parts: Seq<Seq<char>>, i: int)
    requires
        0 <= i < parts.len(),
    ensures
        occurs_at(joined(parts), parts[i], prefix_len(parts, i)),
{
    lemma_joined_prefix(parts, i + 1);
    lemma_joined_step(parts, i);
    let whole = joined(parts);
    let longer = joined(parts.take(i + 1));
    let at = prefix_len(parts, i);
    assert(whole.subrange(at, at + parts[i].len()) =~= longer.subrange(at, at + parts[i].len()));
    assert(longer.subrange(at, at + parts[i].len()) =~= parts[i]);
}

/// While the surfaces spell the text, the cursor after `i` surfaces stands
/// behind the first `i` surfaces joined.
pub proof fn lemma_cursor_of_exact_cover(text: Seq<char>, surfaces: Seq<Seq<char>>, i: int)
    requires
        joined(surfaces) == text,
        0 <= i <= surfaces.len(),
    ensures
        cursor_after(text, surfaces, i) == prefix_len(surfaces, i),
        i < surfaces.len() ==> start_of(text, surfaces, i) == prefix_len(surfaces, i),
    decreases i,
{
    if i > 0 {
        lemma_cursor_of_exact_cover(text, surfaces, i - 1);
        lemma_joined_step(surfaces, i - 1);
    }
    if i < surfaces.len() {
        let at = prefix_len(surfaces, i);
        lemma_part_occurs(surfaces, i);
        lemma_placement_found(text, surfaces[i], at, at);
    }
}

/// Where the surfaces, joined in order, spell the whole text, every surface
/// is found where the one before it ends: the intervals tile the text, each
/// interval cuts its own surface out of it, and the pieces joined are the
/// text again.
pub proof fn lemma_exact_cover(
    text: Seq<char>,
    surfaces: Seq<Seq<char>>,
    out: Seq<AlignedInterval>,
)
    requires
        is_alignment(text, surfaces, out),
        joined(surfaces) == text,
    ensures
        tiles(out, text.len() as int),
        forall|i: int|
            0 <= i < out.len() ==> occurs_at(text, surfaces[i], (#[trigger] out[i]).start as int),
        slices(text, out) == surfaces,
        joined(slices(text, out)) == text,
{
    let n = surfaces.len() as int;
    assert forall|i: int| 0 <= i < n implies out[i].start == prefix_len(surfaces, i) && out[i].end
        == prefix_len(surfaces, i + 1) && occurs_at(
        text,
        surfaces[i],
        (#[trigger] out[i]).start as int,
    ) by {
        lemma_cursor_of_exact_cover(text, surfaces, i);
        lemma_joined_step(surfaces, i);
        lemma_part_occurs(surfaces, i);
    }
    assert(slices(text, out) =~= surfaces);
}

/// Pieces cut by intervals that lie end to end from offset 0 join to the
/// text in front of the cursor.
pub proof fn lemma_tiles_join(text: Seq<char>, out: Seq<AlignedInterval>, i: int)
    requires
        0 <= i <= out.len(),
        out.len() > 0 ==> out[0].start == 0,
        forall|k: int| 0 < k < out.len() ==> (#[trigger] out[k]).start == out[k - 1].end,
        forall|k: int| 0 <= k < out.len() ==> (#[trigger] out[k]).start <= out[k].end <= text.len(),
    ensures
        joined(slices(text, out).take(i)) == text.subrange(0, cursor_before(out, i)),
    decreases i,
{
    let pieces = slices(text, out);
    if i > 0 {
        lemma_tiles_join(text, out, i - 1);
        assert(pieces.take(i).drop_last() =~= pieces.take(i - 1));
    }
}

/// Where every surface is found by the search and the intervals lie end to
/// end over the whole text, each interval cuts its own surface out of the
/// text and the pieces, joined in order, are the text again.
pub proof fn lemma_found_surfaces_rebuild_text(
    text: Seq<char>,
    surfaces: Seq<Seq<char>>,
    out: Seq<AlignedInterval>,
)
    requires
        is_alignment(text, surfaces, out),
        forall|i: int|
            0 <= i < surfaces.len() ==> occurs_from(
                text,
                #[trigger] surfaces[i],
                cursor_before(out, i),
            ),
        tiles(out, text.len() as int),
    ensures
        slices(text, out) == surfaces,
        joined(slices(text, out)) == text,
        joined(surfaces) == text,
{
    let n = out.len() as int;
    assert forall|i: int| 0 <= i < n implies occurs_at(
        text,
        surfaces[i],
        (#[trigger] out[i]).start as int,
    ) by {
        lemma_interval_placement(text, surfaces, out, i);
    }
    assert(slices(text, out) =~= surfaces);
    lemma_tiles_join(text, out, n);
    assert(slices(text, out).take(n) =~= slices(text, out));
}

/// The cursor stays within the length of the text and of the surfaces that
/// have been placed, taken together. Offsets of an alignment therefore fit
/// wherever that sum does.
pub proof fn lemma_cursor_bound(text: Seq<char>, surfaces: Seq<Seq<char>>, n: int)
    requires
        0 <= n <= surfaces.len(),
    ensures
        cursor_after(text, surfaces, n) <= text.len() + prefix_len(surfaces, n),
    decreases n,
{
    if n > 0 {
        lemma_cursor_bound(text, surfaces, n - 1);
        lemma_joined_step(surfaces, n - 1);
        lemma_placement_not_before(text, surfaces[n - 1], cursor_after(text, surfaces, n - 1));
    }
}

/// In an alignment the surface of a token does not stand where its interval
/// begins exactly when the search did not find it.
pub proof fn lemma_fallback_iff_misplaced(
    text: Seq<char>,
    surfaces: Seq<Seq<char>>,
    out: Seq<AlignedInterval>,
    i: int,
)
    requires
        is_alignment(text, surfaces, out),
        0 <= i < out.len(),
    ensures
        !occurs_at(text, surfaces[i], out[i].start as int) <==> !occurs_from(
            text,
            surfaces[i],
            cursor_before(out, i),
        ),
{
    lemma_interval_placement(text, surfaces, out, i);
}

/// The sentence and the surfaces decide the alignment: two alignments of the
/// same surfaces onto the same text are equal.
pub proof fn lemma_alignment_unique(
    text: Seq<char>,
    surfaces: Seq<Seq<char>>,
    one: Seq<AlignedInterval>,
    other: Seq<AlignedInterval>,
)
    requires
        is_alignment(text, surfaces, one),
        is_alignment(text, surfaces, other),
    ensures
        one == other,
{
    assert(one =~= other);
}

/// How one interval of an alignment is placed. A surface that occurs at or
/// after the cursor sits at its first such occurrence, and the interval cuts
/// that surface out of the text. A surface that does not occur there sits at
/// the cursor itself, with no gap in front of it. Either way the interval is
/// as wide as the surface.
pub proof fn lemma_interval_placement(
    text: Seq<char>,
    surfaces: Seq<Seq<char>>,
    out: Seq<AlignedInterval>,
    i: int,
)
    requires
        is_alignment(text, surfaces, out),
        0 <= i < out.len(),
    ensures
        out[i].token_index == i,
        out[i].end == out[i].start + surfaces[i].len(),
        cursor_before(out, i) <= out[i].start,
        occurs_from(text, surfaces[i], cursor_before(out, i)) ==> is_first_occurrence(
            text,
            surfaces[i],
            cursor_before(out, i),
            out[i].start as int,
        ) && text.subrange(out[i].start as int, out[i].end as int) == surfaces[i],
        !occurs_from(text, surfaces[i], cursor_before(out, i)) ==> out[i].start == cursor_before(
            out,
            i,
        ),
{
    lemma_cursor_is_previous_end(text, surfaces, out, i);
    lemma_placement_not_before(text, surfaces[i], cursor_before(out, i));
}

} // verus!
