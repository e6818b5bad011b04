//! The merge of two rows' column partitions, from which the junctions of
//! the border between the rows follow.
//!
//! A row partitions the table's columns into the spans of its cells. The
//! border between two rows has a junction wherever either row has a column
//! boundary, and the junction's shape tells which of the two rows has it.

use crate::layout::lemma_sum_first_drop_first;
use crate::layout::lemma_sum_first_one;
use crate::layout::lemma_sum_first_update;
use crate::layout::sum_first;
use vstd::prelude::*;

verus! {

/// What a border shows at the end of a run of columns.
#[derive(Debug, Clone, Copy, PartialEq, Eq)]
pub enum Intersection {
    /// The row above and the row below both have a column boundary here.
    Both,
    /// Only the row above has a column boundary here.
    Top,
    /// Only the row below has a column boundary here.
    Bottom,
}

/// The merge of two partitions of the columns, each given by its spans from
/// left to right. The result partitions the columns at every boundary of
/// either one: each part has the number of columns up to the next boundary,
/// and says which of the two has that boundary. A partition that ends before
/// the other one contributes nothing from there on.
pub open spec fn intersections(top: Seq<usize>, bottom: Seq<usize>) -> Seq<(usize, Intersection)>
    decreases top.len() + bottom.len(),
{
    if top.len() == 0 && bottom.len() == 0 {
        Seq::empty()
    } else if bottom.len() == 0 {
        seq![(top[0], Intersection::Top)] + intersections(top.drop_first(), bottom)
    } else if top.len() == 0 {
        seq![(bottom[0], Intersection::Bottom)] + intersections(top, bottom.drop_first())
    } else if top[0] == bottom[0] {
        seq![(top[0], Intersection::Both)] + intersections(top.drop_first(), bottom.drop_first())
    } else if top[0] < bottom[0] {
        seq![(top[0], Intersection::Top)] + intersections(
            top.drop_first(),
            bottom.update(0, (bottom[0] - top[0]) as usize),
        )
    } else {
        seq![(bottom[0], Intersection::Bottom)] + intersections(
            top.update(0, (top[0] - bottom[0]) as usize),
            bottom.drop_first(),
        )
    }
}

/// What is left of the spans `all` when those before index `i` have been
/// used up and `remaining` columns are left of the span with index `i`.
pub open spec fn remaining_spans(all: Seq<usize>, i: int, remaining: usize) -> Seq<usize> {
    if 0 <= i < all.len() {
        all.skip(i).update(0, remaining)
    } else {
        Seq::empty()
    }
}

/// What is left of two partitions after the first part of their merge.
pub open spec fn after_first_part(top: Seq<usize>, bottom: Seq<usize>) -> (Seq<usize>, Seq<usize>) {
    if bottom.len() == 0 {
        (top.drop_first(), bottom)
    } else if top.len() == 0 {
        (top, bottom.drop_first())
    } else if top[0] == bottom[0] {
        (top.drop_first(), bottom.drop_first())
    } else if top[0] < bottom[0] {
        (top.drop_first(), bottom.update(0, (bottom[0] - top[0]) as usize))
    } else {
        (top.update(0, (top[0] - bottom[0]) as usize), bottom.drop_first())
    }
}

/// `kind` with the two rows exchanged.
pub open spec fn flipped(kind: Intersection) -> Intersection {
    match kind {
        Intersection::Both => Intersection::Both,
        Intersection::Top => Intersection::Bottom,
        Intersection::Bottom => Intersection::Top,
    }
}

/// `parts` with the two rows exchanged.
pub open spec fn mirrored(parts: Seq<(usize, Intersection)>) -> Seq<(usize, Intersection)> {
    parts.map_values(|part: (usize, Intersection)| (part.0, flipped(part.1)))
}

/// Whether every one of `spans` is at least one column.
pub open spec fn positive(spans: Seq<usize>) -> bool {
    forall|i: int| 0 <= i < spans.len() ==> #[trigger] spans[i] >= 1
}

/// Whether a partition with these `spans` has a column boundary after the
/// first `p` columns: one of its spans ends there.
pub open spec fn has_boundary(spans: Seq<usize>, p: int) -> bool {
    exists|m: int| 0 < m <= spans.len() && #[trigger] sum_first(spans, m) == p
}

/// The spans of `parts`.
pub open spec fn part_spans(parts: Seq<(usize, Intersection)>) -> Seq<usize> {
    parts.map_values(|part: (usize, Intersection)| part.0)
}

/// The number of columns up to the end of the part with index `k`.
pub open spec fn part_end(parts: Seq<(usize, Intersection)>, k: int) -> nat {
    sum_first(part_spans(parts), k + 1)
}

/// The kind of junction that belongs after the first `p` columns, where at
/// least one of the two partitions has a boundary.
pub open spec fn kind_at(top: Seq<usize>, bottom: Seq<usize>, p: int) -> Intersection {
    if has_boundary(top, p) && has_boundary(bottom, p) {
        Intersection::Both
    } else if has_boundary(top, p) {
        Intersection::Top
    } else {
        Intersection::Bottom
    }
}

/// Lists all the intersections between two sets of column spans.
pub fn list_intersections(top: &[usize], bottom: &[usize]) -> (parts: Vec<(usize, Intersection)>)
    ensures
        parts@ == intersections(top@, bottom@),
{
    let mut parts: Vec<(usize, Intersection)> = Vec::new();
    let mut ti: usize = 0;
    let mut bi: usize = 0;
    let mut top_remaining: usize = if top.len() > 0 {
        top[0]
    } else {
        0
    };
    let mut bottom_remaining: usize = if bottom.len() > 0 {
        bottom[0]
    } else {
        0
    };
    proof {
        assert(remaining_spans(top@, 0, top_remaining) =~= top@);
        assert(remaining_spans(bottom@, 0, bottom_remaining) =~= bottom@);
    }
    while ti < top.len() || bi < bottom.len()
        invariant
            ti <= top.len(),
            bi <= bottom.len(),
            parts@ + intersections(
                remaining_spans(top@, ti as int, top_remaining),
                remaining_spans(bottom@, bi as int, bottom_remaining),
            ) == intersections(top@, bottom@),
        decreases (top.len() - ti) + (bottom.len() - bi),
    {
        let ghost t = remaining_spans(top@, ti as int, top_remaining);
        let ghost b = remaining_spans(bottom@, bi as int, bottom_remaining);
        let top_next: usize = if ti < top.len() && ti + 1 < top.len() {
            top[ti + 1]
        } else {
            0
        };
        let bottom_next: usize = if bi < bottom.len() && bi + 1 < bottom.len() {
            bottom[bi + 1]
        } else {
            0
        };
        proof {
            if ti < top.len() {
                assert(t.drop_first() =~= remaining_spans(top@, ti + 1, top_next));
            }
            if bi < bottom.len() {
                assert(b.drop_first() =~= remaining_spans(bottom@, bi + 1, bottom_next));
            }
        }
        if bi >= bottom.len() {
            parts.push((top_remaining, Intersection::Top));
            ti = ti + 1;
            top_remaining = top_next;
        } else if ti >= top.len() {
            parts.push((bottom_remaining, Intersection::Bottom));
            bi = bi + 1;
            bottom_remaining = bottom_next;
        } else if top_remaining == bottom_remaining {
            parts.push((top_remaining, Intersection::Both));
            ti = ti + 1;
            bi = bi + 1;
            top_remaining = top_next;
            bottom_remaining = bottom_next;
        } else if top_remaining < bottom_remaining {
            parts.push((top_remaining, Intersection::Top));
            bottom_remaining = bottom_remaining - top_remaining;
            ti = ti + 1;
            top_remaining = top_next;
            proof {
                assert(b.update(0, bottom_remaining) =~= remaining_spans(
                    bottom@,
                    bi as int,
                    bottom_remaining,
                ));
            }
        } else {
            parts.push((bottom_remaining, Intersection::Bottom));
            top_remaining = top_remaining - bottom_remaining;
            bi = bi + 1;
            bottom_remaining = bottom_next;
            proof {
                assert(t.update(0, top_remaining) =~= remaining_spans(
                    top@,
                    ti as int,
                    top_remaining,
                ));
            }
        }
        proof {
            let rest = intersections(
                remaining_spans(top@, ti as int, top_remaining),
                remaining_spans(bottom@, bi as int, bottom_remaining),
            );
        }
    }
    parts
}

/// The merge is symmetric: exchanging the two rows exchanges `Top` and
/// `Bottom` in every part and changes nothing else.
pub proof fn lemma_intersections_mirror(top: Seq<usize>, bottom: Seq<usize>)
    ensures
        intersections(bottom, top) == mirrored(intersections(top, bottom)),
    decreases top.len() + bottom.len(),
{
    if top.len() + bottom.len() > 0 {
        let (next_top, next_bottom) = after_first_part(top, bottom);
        lemma_intersections_mirror(next_top, next_bottom);
    }
}

/// The first `m` spans of a partition of spans that are at least one column
/// each take at least `m` columns and, if there are any, at least as many as
/// the first span.
pub proof fn lemma_positive_spans_add_up(spans: Seq<usize>, m: int)
    requires
        positive(spans),
        0 <= m <= spans.len(),
    ensures
        sum_first(spans, m) >= m,
        m >= 1 ==> sum_first(spans, m) >= spans[0],
    decreases m,
{
    if m > 0 {
        lemma_positive_spans_add_up(spans, m - 1);
    }
}

/// The boundaries of a partition are the end of its first span and, that many
/// columns further on, the boundaries of the rest.
pub proof fn lemma_boundary_drop_first(spans: Seq<usize>, p: int)
    requires
        spans.len() > 0,
    ensures
        has_boundary(spans, p) <==> p == spans[0] || has_boundary(spans.drop_first(), p - spans[0]),
{
    let rest = spans.drop_first();
    if has_boundary(spans, p) {
        let m = choose|m: int| 0 < m <= spans.len() && #[trigger] sum_first(spans, m) == p;
        lemma_sum_first_drop_first(spans, m - 1);
    }
    if p == spans[0] {
        lemma_sum_first_one(spans);
    }
    if has_boundary(rest, p - spans[0]) {
        let m = choose|m: int|
            0 < m <= rest.len() && #[trigger] sum_first(rest, m) == p - spans[0];
        lemma_sum_first_drop_first(spans, m);
    }
}

/// Taking `taken` columns off the first span of a partition moves every
/// boundary that many columns to the left.
pub proof fn lemma_boundary_update(spans: Seq<usize>, taken: usize, p: int)
    requires
        spans.len() > 0,
        taken <= spans[0],
    ensures
        has_boundary(spans, p) <==> has_boundary(
            spans.update(0, (spans[0] - taken) as usize),
            p - taken,
        ),
{
    let moved = spans.update(0, (spans[0] - taken) as usize);
    if has_boundary(spans, p) {
        let m = choose|m: int| 0 < m <= spans.len() && #[trigger] sum_first(spans, m) == p;
        lemma_sum_first_update(spans, (spans[0] - taken) as usize, m);
    }
    if has_boundary(moved, p - taken) {
        let m = choose|m: int|
            0 < m <= moved.len() && #[trigger] sum_first(moved, m) == p - taken;
        lemma_sum_first_update(spans, (spans[0] - taken) as usize, m);
    }
}

/// The end of a part, counted from the second part on.
pub proof fn lemma_part_end_shift(
    first: (usize, Intersection),
    rest: Seq<(usize, Intersection)>,
    k: int,
)
    requires
        0 <= k < rest.len(),
    ensures
        part_end(seq![first] + rest, k + 1) == first.0 + part_end(rest, k),
        part_end(seq![first] + rest, 0) == first.0,
{
    let parts = seq![first] + rest;
    assert(part_spans(parts).drop_first() =~= part_spans(rest));
    lemma_sum_first_drop_first(part_spans(parts), k + 1);
    lemma_sum_first_one(part_spans(parts));
}

/// The first part of a merge, and what the boundaries of the two partitions
/// are in terms of it and of what is left of them.
pub proof fn lemma_first_part(top: Seq<usize>, bottom: Seq<usize>, p: int)
    requires
        positive(top),
        positive(bottom),
        top.len() + bottom.len() > 0,
    ensures
        ({
            let parts = intersections(top, bottom);
            let (next_top, next_bottom) = after_first_part(top, bottom);
            let first = parts[0];
            &&& parts == seq![first] + intersections(next_top, next_bottom)
            &&& positive(next_top)
            &&& positive(next_bottom)
            &&& next_top.len() + next_bottom.len() < top.len() + bottom.len()
            &&& first.0 >= 1
            &&& first.1 == kind_at(top, bottom, first.0 as int)
            &&& has_boundary(top, first.0 as int) || has_boundary(bottom, first.0 as int)
            &&& has_boundary(top, p) <==> (first.1 != Intersection::Bottom && p == first.0)
                || has_boundary(next_top, p - first.0)
            &&& has_boundary(bottom, p) <==> (first.1 != Intersection::Top && p == first.0)
                || has_boundary(next_bottom, p - first.0)
        }),
{
    let (next_top, next_bottom) = after_first_part(top, bottom);
    let first = intersections(top, bottom)[0];
    let q = first.0 as int;
    if top.len() > 0 {
        lemma_boundary_drop_first(top, p);
        lemma_boundary_drop_first(top, q);
    }
    if bottom.len() > 0 {
        lemma_boundary_drop_first(bottom, p);
        lemma_boundary_drop_first(bottom, q);
    }
    if top.len() > 0 && bottom.len() > 0 {
        if top[0] < bottom[0] {
            lemma_boundary_update(bottom, top[0], p);
        } else if top[0] > bottom[0] {
            lemma_boundary_update(top, bottom[0], p);
        }
    }
}

/// The border has its junctions where the rows have their column boundaries.
///
/// For two partitions whose spans are at least one column each, every part
/// of their merge is at least one column wide and ends where at least one of
/// the two has a boundary; and the part's kind says which: `Both` where both
/// have one, `Top` where only the upper one has, `Bottom` where only the lower
/// one has.
pub proof fn lemma_parts_end_at_boundaries(top: Seq<usize>, bottom: Seq<usize>, k: int)
    requires
        positive(top),
        positive(bottom),
        0 <= k < intersections(top, bottom).len(),
    ensures
        ({
            let parts = intersections(top, bottom);
            let p = part_end(parts, k) as int;
            &&& parts[k].0 >= 1
            &&& p >= 1
            &&& has_boundary(top, p) || has_boundary(bottom, p)
            &&& parts[k].1 == kind_at(top, bottom, p)
        }),
    decreases top.len() + bottom.len(),
{
    let parts = intersections(top, bottom);
    let p = part_end(parts, k) as int;
    lemma_first_part(top, bottom, p);
    let (next_top, next_bottom) = after_first_part(top, bottom);
    let first = parts[0];
    let rest = intersections(next_top, next_bottom);
    if k == 0 {
        lemma_sum_first_one(part_spans(parts));
    } else {
        lemma_parts_end_at_boundaries(next_top, next_bottom, k - 1);
        lemma_part_end_shift(first, rest, k - 1);
    }
}

/// Every column boundary of either row gets a junction: for two partitions
/// whose spans are at least one column each, a part of their merge ends
/// wherever one of them has a boundary.
pub proof fn lemma_boundaries_end_parts(top: Seq<usize>, bottom: Seq<usize>, p: int)
    requires
        positive(top),
        positive(bottom),
        has_boundary(top, p) || has_boundary(bottom, p),
    ensures
        exists|k: int|
            0 <= k < intersections(top, bottom).len() && #[trigger] part_end(
                intersections(top, bottom),
                k,
            ) == p,
    decreases top.len() + bottom.len(),
{
    let parts = intersections(top, bottom);
    lemma_first_part(top, bottom, p);
    let (next_top, next_bottom) = after_first_part(top, bottom);
    let first = parts[0];
    let rest = intersections(next_top, next_bottom);
    if p == first.0 {
        lemma_sum_first_one(part_spans(parts));
        assert(part_end(parts, 0) == p);
    } else {
        lemma_boundaries_end_parts(next_top, next_bottom, p - first.0);
        let k = choose|k: int| 0 <= k < rest.len() && #[trigger] part_end(rest, k) == p - first.0;
        lemma_part_end_shift(first, rest, k);
    }
}

} // verus!
