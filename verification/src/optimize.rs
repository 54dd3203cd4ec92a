//! Reduction of the brush count: prisms that look alike and lie face to
//! face are joined, again and again, until no two are left to join.

use vstd::prelude::*;
use crate::brush::{brush_models, Brush, BrushModel, Face};
use crate::geometry::{lemma_joined_volume, Axis, Extent, Region};
use crate::prism::{
    is_prism, lemma_prism_region, lemma_prism_volume, prism_extent, prism_region, reshape, reshaped,
};

verus! {

/// Two brushes show the same: the same transparency, and face by face the
/// same texture laid out the same way. Their colours do not count.
pub open spec fn same_surface(a: BrushModel, b: BrushModel) -> bool {
    &&& a.transparency == b.transparency
    &&& a.faces.len() == b.faces.len()
    &&& forall|k: int|
        0 <= k < a.faces.len() ==> (#[trigger] a.faces[k]).texture == b.faces[k].texture
            && a.faces[k].u_axis == b.faces[k].u_axis && a.faces[k].v_axis == b.faces[k].v_axis
}

/// The first box ends where the second begins, face to face, along some axis.
pub open spec fn stacked(a: Region, b: Region) -> bool {
    a.meets(b, Axis::X) || a.meets(b, Axis::Y) || a.meets(b, Axis::Z)
}

/// Two brushes can be joined: both are prisms of positive volume, they show
/// the same, and they lie face to face along exactly one axis.
pub open spec fn mergeable(a: BrushModel, b: BrushModel) -> bool {
    match (prism_region(a), prism_region(b)) {
        (Some(ra), Some(rb)) => same_surface(a, b) && (stacked(ra, rb) || stacked(rb, ra)),
        _ => false,
    }
}

/// The box that two boxes fill together, one of which is stacked on the other.
pub open spec fn span(a: Region, b: Region) -> Region {
    if stacked(a, b) {
        a.joined(b)
    } else {
        b.joined(a)
    }
}

/// The prism that takes the place of two brushes that can be joined.
pub open spec fn merged(a: BrushModel, b: BrushModel) -> BrushModel {
    reshaped(a, span(prism_region(a).unwrap(), prism_region(b).unwrap()))
}

/// The least place from `from` on whose brush can be joined with the
/// brush at place `i`; the length of the sequence if there is none.
pub open spec fn partner(s: Seq<BrushModel>, i: int, from: int) -> int
    decreases s.len() - from,
{
    if from < 0 || from >= s.len() {
        s.len() as int
    } else if mergeable(s[i], s[from]) {
        from
    } else {
        partner(s, i, from + 1)
    }
}

/// The first pair of places, from place `i` on, whose brushes can be joined.
pub open spec fn first_pair(s: Seq<BrushModel>, i: int) -> Option<(int, int)>
    decreases s.len() - i,
{
    if i < 0 || i >= s.len() {
        None
    } else if partner(s, i, i + 1) < s.len() {
        Some((i, partner(s, i, i + 1)))
    } else {
        first_pair(s, i + 1)
    }
}

/// The sequence in which the brushes at places `i` and `j` are joined: the
/// joined brush stands at place `i`, and place `j` is taken out.
pub open spec fn joined_at(s: Seq<BrushModel>, i: int, j: int) -> Seq<BrushModel> {
    s.update(i, merged(s[i], s[j])).remove(j)
}

/// What is left when the first pair that can be joined is joined, until no
/// pair can be.
pub open spec fn optimized(s: Seq<BrushModel>) -> Seq<BrushModel>
    decreases s.len(),
{
    match first_pair(s, 0) {
        Some((i, j)) => if 0 <= i < j < s.len() {
            optimized(joined_at(s, i, j))
        } else {
            s
        },
        None => s,
    }
}

/// No two brushes of the sequence can be joined.
pub open spec fn settled(s: Seq<BrushModel>) -> bool {
    forall|i: int, j: int|
        0 <= i < s.len() && 0 <= j < s.len() && i != j ==> !mergeable(
            #[trigger] s[i],
            #[trigger] s[j],
        )
}

/// Six times the volume of all the brushes together.
pub open spec fn total_volume(s: Seq<BrushModel>) -> int
    decreases s.len(),
{
    if s.len() == 0 {
        0
    } else {
        total_volume(s.drop_last()) + s.last().volume6()
    }
}

/// The place in `optimized(s)` of the brush that the brush at place `i` of
/// `s` has gone into.
pub open spec fn owner(s: Seq<BrushModel>, i: int) -> int
    decreases s.len(),
{
    match first_pair(s, 0) {
        Some((a, b)) => if 0 <= a < b < s.len() {
            owner(
                joined_at(s, a, b),
                if i == b {
                    a
                } else if i > b {
                    i - 1
                } else {
                    i
                },
            )
        } else {
            i
        },
        None => i,
    }
}

/// Whether two brushes show the same.
pub fn look_alike(a: &Brush, b: &Brush) -> (same: bool)
    ensures
        same == same_surface(a@, b@),
{
    if !(a.transparency == b.transparency && a.faces.len() == b.faces.len()) {
        return false;
    }
    let mut k: usize = 0;
    while k < a.faces.len()
        invariant
            k <= a.faces.len(),
            a.faces.len() == b.faces.len(),
            forall|i: int|
                0 <= i < k ==> (#[trigger] a@.faces[i]).texture == b@.faces[i].texture
                    && a@.faces[i].u_axis == b@.faces[i].u_axis && a@.faces[i].v_axis
                    == b@.faces[i].v_axis,
        decreases a.faces.len() - k,
    {
        let f: &Face = &a.faces[k];
        let g: &Face = &b.faces[k];
        assert(a@.faces[k as int] == f@ && b@.faces[k as int] == g@);
        if !(f.texture == g.texture && f.u_axis == g.u_axis && f.v_axis == g.v_axis) {
            return false;
        }
        k += 1;
    }
    true
}

/// Whether `a` ends where `b` begins, face to face, along some axis.
pub fn is_stacked(a: &Extent, b: &Extent) -> (r: bool)
    ensures
        r == stacked(a@, b@),
{
    a.meets(b, Axis::X) || a.meets(b, Axis::Y) || a.meets(b, Axis::Z)
}

/// Whether two brushes can be joined.
pub fn can_merge(a: &Brush, b: &Brush) -> (r: bool)
    ensures
        r == mergeable(a@, b@),
{
    match (prism_extent(a), prism_extent(b)) {
        (Some(ea), Some(eb)) => look_alike(a, b) && (is_stacked(&ea, &eb) || is_stacked(&eb, &ea)),
        _ => false,
    }
}

/// Joins two brushes that can be joined.
pub fn merge(a: &Brush, b: &Brush) -> (m: Brush)
    requires
        mergeable(a@, b@),
    ensures
        m@ == merged(a@, b@),
{
    let ea: Extent = prism_extent(a).unwrap();
    let eb: Extent = prism_extent(b).unwrap();
    let e: Extent = if is_stacked(&ea, &eb) {
        ea.join(&eb)
    } else {
        eb.join(&ea)
    };
    reshape(a, &e)
}

/// For each brush the box that it fills, if it is a prism of positive volume.
pub open spec fn boxes_of(extents: Seq<Option<Extent>>, s: Seq<BrushModel>) -> bool {
    &&& extents.len() == s.len()
    &&& forall|k: int|
        0 <= k < s.len() ==> match #[trigger] extents[k] {
            Some(e) => prism_region(s[k]) == Some(e@),
            None => prism_region(s[k]) is None,
        }
}

/// No brush before place `row` can be joined with a brush after it.
pub open spec fn no_pair_before(s: Seq<BrushModel>, row: int) -> bool {
    forall|a: int, b: int|
        0 <= a < row && a < b < s.len() ==> !mergeable(#[trigger] s[a], #[trigger] s[b])
}

/// Whether two brushes can be joined, by the boxes that they fill.
fn can_merge_boxes(a: &Brush, ea: &Option<Extent>, b: &Brush, eb: &Option<Extent>) -> (r: bool)
    requires
        match ea {
            Some(e) => prism_region(a@) == Some(e@),
            None => prism_region(a@) is None,
        },
        match eb {
            Some(e) => prism_region(b@) == Some(e@),
            None => prism_region(b@) is None,
        },
    ensures
        r == mergeable(a@, b@),
{
    match (ea, eb) {
        (Some(ea), Some(eb)) => (is_stacked(ea, eb) || is_stacked(eb, ea)) && look_alike(a, b),
        _ => false,
    }
}

fn find_partner(brushes: &Vec<Brush>, extents: &Vec<Option<Extent>>, i: usize, from: usize) -> (j:
    usize)
    requires
        i < brushes.len(),
        from <= brushes.len(),
        boxes_of(extents@, brush_models(brushes@)),
    ensures
        j == partner(brush_models(brushes@), i as int, from as int),
        from <= j <= brushes.len(),
        j < brushes.len() ==> mergeable(brushes[i as int]@, brushes[j as int]@),
{
    let ghost s = brush_models(brushes@);
    let mut j: usize = from;
    while j < brushes.len()
        invariant
            from <= j <= brushes.len(),
            i < brushes.len(),
            s == brush_models(brushes@),
            boxes_of(extents@, s),
            partner(s, i as int, from as int) == partner(s, i as int, j as int),
        decreases brushes.len() - j,
    {
        assert(s[i as int] == brushes[i as int]@ && s[j as int] == brushes[j as int]@);
        if can_merge_boxes(&brushes[i], &extents[i], &brushes[j], &extents[j]) {
            return j;
        }
        j += 1;
    }
    j
}

/// The first place before `row` whose brush can be joined with the brush at
/// `row`; `row` if there is none.
fn find_row(brushes: &Vec<Brush>, extents: &Vec<Option<Extent>>, row: usize) -> (r: usize)
    requires
        row < brushes.len(),
        boxes_of(extents@, brush_models(brushes@)),
    ensures
        r <= row,
        r < row ==> mergeable(brushes[r as int]@, brushes[row as int]@),
        forall|a: int| 0 <= a < r ==> !mergeable(#[trigger] brushes[a]@, brushes[row as int]@),
{
    let ghost s = brush_models(brushes@);
    let mut r: usize = 0;
    while r < row
        invariant
            r <= row < brushes.len(),
            s == brush_models(brushes@),
            boxes_of(extents@, s),
            forall|a: int| 0 <= a < r ==> !mergeable(#[trigger] brushes[a]@, brushes[row as int]@),
        decreases row - r,
    {
        assert(s[r as int] == brushes[r as int]@ && s[row as int] == brushes[row as int]@);
        if can_merge_boxes(&brushes[r], &extents[r], &brushes[row], &extents[row]) {
            return r;
        }
        r += 1;
    }
    r
}

/// The boxes that the brushes fill.
fn measure(brushes: &Vec<Brush>) -> (extents: Vec<Option<Extent>>)
    ensures
        boxes_of(extents@, brush_models(brushes@)),
{
    let mut extents: Vec<Option<Extent>> = Vec::new();
    let mut k: usize = 0;
    while k < brushes.len()
        invariant
            k <= brushes.len(),
            extents.len() == k,
            forall|i: int|
                0 <= i < k ==> match #[trigger] extents[i] {
                    Some(e) => prism_region(brushes[i]@) == Some(e@),
                    None => prism_region(brushes[i]@) is None,
                },
        decreases brushes.len() - k,
    {
        extents.push(prism_extent(&brushes[k]));
        k += 1;
    }
    extents
}

/// Where nothing before a row can be joined, the first pair to join is
/// found from that row on.
proof fn lemma_skip_rows(s: Seq<BrushModel>, row: int)
    requires
        0 <= row,
        no_pair_before(s, row),
    ensures
        first_pair(s, 0) == first_pair(s, row),
    decreases row,
{
    if row > 0 {
        lemma_skip_rows(s, row - 1);
        if row - 1 < s.len() {
            lemma_partner(s, row - 1, row);
        }
    }
}

/// Joining the first pair that can be joined leaves nothing to join before
/// the first row whose brush can be joined with the joined brush.
proof fn lemma_joined_rows(s: Seq<BrushModel>, row: int, j: int, r: int)
    requires
        0 <= r <= row < j < s.len(),
        no_pair_before(s, row),
        forall|a: int| 0 <= a < r ==> !mergeable(#[trigger] joined_at(s, row, j)[a], joined_at(s, row, j)[row]),
    ensures
        no_pair_before(joined_at(s, row, j), r),
{
    let t = joined_at(s, row, j);
    assert forall|a: int, b: int| 0 <= a < r && a < b < t.len() implies !mergeable(
        #[trigger] t[a],
        #[trigger] t[b],
    ) by {
        assert(t[a] == s[a]);
        if b == row {
        } else if b < j {
            assert(t[b] == s[b]);
        } else {
            assert(t[b] == s[b + 1]);
        }
    }
}

/// Joins brushes until no two are left that can be joined: again and again
/// the first pair that can be joined, by the places of the two brushes.
pub fn optimize(brushes: Vec<Brush>) -> (out: Vec<Brush>)
    ensures
        brush_models(out@) == optimized(brush_models(brushes@)),
{
    let ghost start = brush_models(brushes@);
    let mut extents: Vec<Option<Extent>> = measure(&brushes);
    let mut work: Vec<Brush> = brushes;
    let mut row: usize = 0;
    while row < work.len()
        invariant
            row <= work.len(),
            boxes_of(extents@, brush_models(work@)),
            no_pair_before(brush_models(work@), row as int),
            optimized(brush_models(work@)) == optimized(start),
        decreases work.len(), work.len() - row,
    {
        let ghost before = brush_models(work@);
        let j: usize = find_partner(&work, &extents, row, row + 1);
        if j < work.len() {
            proof {
                lemma_skip_rows(before, row as int);
                lemma_merged(before[row as int], before[j as int]);
                assert(before[row as int] == work[row as int]@);
                assert(before[j as int] == work[j as int]@);
            }
            let ea: Extent = extents[row].unwrap();
            let eb: Extent = extents[j].unwrap();
            let e: Extent = if is_stacked(&ea, &eb) {
                ea.join(&eb)
            } else {
                eb.join(&ea)
            };
            proof {
                lemma_prism_region(before[row as int], ea@);
            }
            let m: Brush = reshape(&work[row], &e);
            work.set(row, m);
            work.remove(j);
            extents.set(row, Some(e));
            extents.remove(j);
            let ghost after = brush_models(work@);
            assert(after =~= joined_at(before, row as int, j as int));
            assert(boxes_of(extents@, after)) by {
                assert forall|k: int| 0 <= k < after.len() implies match #[trigger] extents@[k] {
                    Some(x) => prism_region(after[k]) == Some(x@),
                    None => prism_region(after[k]) is None,
                } by {
                    if k == row {
                    } else if k < j {
                        assert(after[k] == before[k]);
                    } else {
                        assert(after[k] == before[k + 1]);
                    }
                }
            }
            let r: usize = find_row(&work, &extents, row);
            proof {
                assert forall|a: int| 0 <= a < r implies !mergeable(
                    #[trigger] after[a],
                    after[row as int],
                ) by {
                    assert(after[a] == work[a]@ && after[row as int] == work[row as int]@);
                }
                lemma_joined_rows(before, row as int, j as int, r as int);
            }
            row = r;
        } else {
            proof {
                lemma_partner(before, row as int, row + 1);
            }
            row += 1;
        }
    }
    proof {
        let s = brush_models(work@);
        lemma_skip_rows(s, row as int);
    }
    work
}

/// What `partner` finds can be joined with the brush at place `i`, and
/// nothing before it can.
pub proof fn lemma_partner(s: Seq<BrushModel>, i: int, from: int)
    requires
        0 <= from <= s.len(),
    ensures
        from <= partner(s, i, from) <= s.len(),
        partner(s, i, from) < s.len() ==> mergeable(s[i], s[partner(s, i, from)]),
        forall|k: int| from <= k < partner(s, i, from) ==> !mergeable(s[i], #[trigger] s[k]),
    decreases s.len() - from,
{
    if from < s.len() && !mergeable(s[i], s[from]) {
        lemma_partner(s, i, from + 1);
    }
}

/// What `first_pair` finds can be joined, and no pair before it can.
pub proof fn lemma_first_pair(s: Seq<BrushModel>, from: int)
    requires
        0 <= from,
    ensures
        match first_pair(s, from) {
            Some((i, j)) => from <= i < j < s.len() && mergeable(s[i], s[j]),
            None => forall|i: int, j: int|
                from <= i < j < s.len() ==> !mergeable(#[trigger] s[i], #[trigger] s[j]),
        },
    decreases s.len() - from,
{
    if from < s.len() {
        lemma_partner(s, from, from + 1);
        if partner(s, from, from + 1) >= s.len() {
            lemma_first_pair(s, from + 1);
        }
    }
}

/// Whether two brushes can be joined does not depend on their order.
pub proof fn lemma_mergeable_symmetric(a: BrushModel, b: BrushModel)
    ensures
        mergeable(a, b) == mergeable(b, a),
{
    if mergeable(a, b) {
        assert(same_surface(b, a));
    }
    if mergeable(b, a) {
        assert(same_surface(a, b));
    }
}

/// A sequence is settled exactly if it holds no first pair to join, and it
/// is then left as it is.
pub proof fn lemma_settled(s: Seq<BrushModel>)
    ensures
        settled(s) <==> first_pair(s, 0) is None,
        settled(s) ==> optimized(s) == s,
{
    lemma_first_pair(s, 0);
    if first_pair(s, 0) is None {
        assert forall|i: int, j: int| 0 <= i < s.len() && 0 <= j < s.len() && i != j implies !mergeable(
            #[trigger] s[i],
            #[trigger] s[j],
        ) by {
            lemma_mergeable_symmetric(s[i], s[j]);
        }
    }
}

/// Joining never leaves more brushes than there were, and leaves no two that
/// can be joined.
pub proof fn law_optimized_is_settled(s: Seq<BrushModel>)
    ensures
        optimized(s).len() <= s.len(),
        settled(optimized(s)),
    decreases s.len(),
{
    lemma_settled(s);
    lemma_first_pair(s, 0);
    match first_pair(s, 0) {
        Some((i, j)) => {
            law_optimized_is_settled(joined_at(s, i, j));
        },
        None => {},
    }
}

/// Joining twice gives what joining once gives.
pub proof fn law_optimize_idempotent(s: Seq<BrushModel>)
    ensures
        optimized(optimized(s)) == optimized(s),
{
    law_optimized_is_settled(s);
    lemma_settled(optimized(s));
}

/// The volume of all brushes with one of them replaced.
pub proof fn lemma_total_update(s: Seq<BrushModel>, i: int, m: BrushModel)
    requires
        0 <= i < s.len(),
    ensures
        total_volume(s.update(i, m)) == total_volume(s) - s[i].volume6() + m.volume6(),
    decreases s.len(),
{
    if i == s.len() - 1 {
        assert(s.update(i, m).drop_last() =~= s.drop_last());
    } else {
        assert(s.update(i, m).drop_last() =~= s.drop_last().update(i, m));
        lemma_total_update(s.drop_last(), i, m);
    }
}

/// The volume of all brushes with one of them taken out.
pub proof fn lemma_total_remove(s: Seq<BrushModel>, j: int)
    requires
        0 <= j < s.len(),
    ensures
        total_volume(s.remove(j)) == total_volume(s) - s[j].volume6(),
    decreases s.len(),
{
    if j == s.len() - 1 {
        assert(s.remove(j) =~= s.drop_last());
    } else {
        assert(s.remove(j).drop_last() =~= s.drop_last().remove(j));
        assert(s.remove(j).last() == s.last());
        lemma_total_remove(s.drop_last(), j);
    }
}

/// The brush that two brushes are joined into is the prism of the box that
/// spans both; it shows what they show and has the volume of both together.
pub proof fn lemma_merged(a: BrushModel, b: BrushModel)
    requires
        mergeable(a, b),
    ensures
        prism_region(merged(a, b)) == Some(
            span(prism_region(a).unwrap(), prism_region(b).unwrap()),
        ),
        same_surface(a, merged(a, b)),
        same_surface(b, merged(a, b)),
        merged(a, b).volume6() == a.volume6() + b.volume6(),
        covers(merged(a, b), a),
        covers(merged(a, b), b),
{
    let ra = prism_region(a).unwrap();
    let rb = prism_region(b).unwrap();
    let m = merged(a, b);
    let r = span(ra, rb);
    lemma_prism_region(a, ra);
    lemma_prism_region(b, rb);
    assert(is_prism(m, r));
    if stacked(ra, rb) {
        let axis = if ra.meets(rb, Axis::X) {
            Axis::X
        } else if ra.meets(rb, Axis::Y) {
            Axis::Y
        } else {
            Axis::Z
        };
        lemma_joined_volume(ra, rb, axis);
        lemma_meeting_span(ra, rb, axis);
    } else {
        let axis = if rb.meets(ra, Axis::X) {
            Axis::X
        } else if rb.meets(ra, Axis::Y) {
            Axis::Y
        } else {
            Axis::Z
        };
        lemma_joined_volume(rb, ra, axis);
        lemma_meeting_span(rb, ra, axis);
    }
    lemma_prism_region(m, r);
    lemma_prism_volume(a, ra);
    lemma_prism_volume(b, rb);
    lemma_prism_volume(m, r);
}

/// Of two boxes that meet, the box that spans both holds both.
proof fn lemma_meeting_span(a: Region, b: Region, axis: Axis)
    requires
        a.meets(b, axis),
        a.solid(),
        b.solid(),
    ensures
        a.joined(b).low.le(a.low) && a.high.le(a.joined(b).high),
        a.joined(b).low.le(b.low) && b.high.le(a.joined(b).high),
{
    assert(Axis::X != axis ==> a.low.along(Axis::X) == b.low.along(Axis::X) && a.high.along(
        Axis::X,
    ) == b.high.along(Axis::X));
    assert(Axis::Y != axis ==> a.low.along(Axis::Y) == b.low.along(Axis::Y) && a.high.along(
        Axis::Y,
    ) == b.high.along(Axis::Y));
    assert(Axis::Z != axis ==> a.low.along(Axis::Z) == b.low.along(Axis::Z) && a.high.along(
        Axis::Z,
    ) == b.high.along(Axis::Z));
}

/// Joining keeps the volume of all the brushes together.
pub proof fn law_optimize_keeps_volume(s: Seq<BrushModel>)
    ensures
        total_volume(optimized(s)) == total_volume(s),
    decreases s.len(),
{
    lemma_first_pair(s, 0);
    match first_pair(s, 0) {
        Some((i, j)) => {
            let m = merged(s[i], s[j]);
            lemma_merged(s[i], s[j]);
            lemma_total_update(s, i, m);
            lemma_total_remove(s.update(i, m), j);
            law_optimize_keeps_volume(joined_at(s, i, j));
        },
        None => {},
    }
}

/// The first brush is the second, or both are prisms and the box of the
/// first holds the box of the second.
pub open spec fn covers(big: BrushModel, small: BrushModel) -> bool {
    big == small || match (prism_region(big), prism_region(small)) {
        (Some(rb), Some(rs)) => rb.low.le(rs.low) && rs.high.le(rb.high),
        _ => false,
    }
}

/// Every brush has gone into a brush of the result that shows the same and
/// covers it.
pub proof fn law_optimize_keeps_surface(s: Seq<BrushModel>, i: int)
    requires
        0 <= i < s.len(),
    ensures
        0 <= owner(s, i) < optimized(s).len(),
        same_surface(s[i], optimized(s)[owner(s, i)]),
        covers(optimized(s)[owner(s, i)], s[i]),
    decreases s.len(),
{
    lemma_first_pair(s, 0);
    match first_pair(s, 0) {
        Some((a, b)) => {
            let t = joined_at(s, a, b);
            let k = if i == b {
                a
            } else if i > b {
                i - 1
            } else {
                i
            };
            lemma_merged(s[a], s[b]);
            law_optimize_keeps_surface(t, k);
            let via = t[k];
            let end = optimized(t)[owner(t, k)];
            assert(same_surface(s[i], via) && covers(via, s[i])) by {
                if i == a || i == b {
                    assert(via == merged(s[a], s[b]));
                } else {
                    assert(via == s[i]);
                }
            }
            assert(same_surface(s[i], end));
        },
        None => {},
    }
}

/// Brushes that have gone into one brush showed the same before: brushes
/// that differ in texture or transparency are never joined.
pub proof fn law_optimize_joins_only_alike(s: Seq<BrushModel>, i: int, j: int)
    requires
        0 <= i < s.len(),
        0 <= j < s.len(),
        owner(s, i) == owner(s, j),
    ensures
        same_surface(s[i], s[j]),
{
    law_optimize_keeps_surface(s, i);
    law_optimize_keeps_surface(s, j);
    let end = optimized(s)[owner(s, i)];
    assert(same_surface(s[i], end));
    assert(same_surface(s[j], end));
}

/// Every brush of the sequence can stand in a document.
pub open spec fn all_sound(s: Seq<BrushModel>) -> bool {
    forall|i: int| 0 <= i < s.len() ==> (#[trigger] s[i]).sound()
}

/// No brush of the sequence shows the sky.
pub open spec fn all_sky_less(s: Seq<BrushModel>) -> bool {
    forall|i: int| 0 <= i < s.len() ==> (#[trigger] s[i]).sky_less()
}

/// The brush that two brushes are joined into can stand in a document, and
/// shows the sky nowhere if the first of the two does not.
proof fn lemma_merged_sound(a: BrushModel, b: BrushModel)
    ensures
        merged(a, b).sound(),
        a.faces.len() == 6 && a.sky_less() ==> merged(a, b).sky_less(),
{
    let m = merged(a, b);
    assert forall|i: int| 0 <= i < m.faces.len() implies (#[trigger] m.faces[i]).vertices.len() >= 3 by {
        assert(m.faces[i].vertices.len() == 4);
    }
    if a.faces.len() == 6 && a.sky_less() {
        assert forall|i: int| 0 <= i < m.faces.len() implies (#[trigger] m.faces[i]).texture
            != crate::texture::TextureRef::Skybox by {
            assert(m.faces[i].texture == a.faces[i].texture);
        }
    }
}

/// Joining keeps brushes fit for a document, and lets no sky in.
pub proof fn law_optimize_keeps_sound(s: Seq<BrushModel>)
    ensures
        all_sound(s) ==> all_sound(optimized(s)),
        all_sky_less(s) ==> all_sky_less(optimized(s)),
    decreases s.len(),
{
    lemma_first_pair(s, 0);
    match first_pair(s, 0) {
        Some((i, j)) => {
            let t = joined_at(s, i, j);
            lemma_merged_sound(s[i], s[j]);
            assert(prism_region(s[i]) is Some);
            if all_sound(s) {
                assert forall|k: int| 0 <= k < t.len() implies (#[trigger] t[k]).sound() by {
                    if k == i {
                    } else if k < j {
                        assert(t[k] == s[k]);
                    } else {
                        assert(t[k] == s[k + 1]);
                    }
                }
            }
            if all_sky_less(s) {
                assert(s[i].sky_less());
                assert forall|k: int| 0 <= k < t.len() implies (#[trigger] t[k]).sky_less() by {
                    if k == i {
                    } else if k < j {
                        assert(t[k] == s[k]);
                    } else {
                        assert(t[k] == s[k + 1]);
                    }
                }
            }
            law_optimize_keeps_sound(t);
        },
        None => {},
    }
}

} // verus!
