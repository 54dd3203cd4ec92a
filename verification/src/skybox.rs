//! The sky: one hollow box round everything, with room to spare.

use vstd::prelude::*;
use crate::brush::{brush_models, Brush, BrushModel, Color, Face, FaceModel};
use crate::geometry::{
    lemma_dot_simple, lemma_signs, lemma_zero_products, Direction, Extent, Region, Vec3, Vector,
};
use crate::prism::{
    corners, lemma_positive_product, lemma_unit_dot, plane_offset, side, side_at, side_corners,
};
use crate::texture::{with_texture, TextureAxis, TextureRef};

verus! {

/// The room that is left between the scene and the sky beyond the clearance
/// asked for, in half-millionths of a document unit.
pub const SKY_MARGIN: i64 = 32_000_000;

/// The largest magnitude of a coordinate of the sky.
pub const MAX_SKY_COORD: i64 = 4_000_000_000_000_000_000;

/// Why there is no sky.
#[derive(Clone, Copy, PartialEq, Eq, Debug, Structural)]
pub enum SkyboxError {
    /// There is no brush with a corner to put a sky round.
    Empty,
    /// The sky would reach beyond [`MAX_SKY_COORD`].
    OutOfRange,
}

/// The smallest box that holds the box `r`, if there is one, and the point `p`.
pub open spec fn stretch(r: Option<Region>, p: Vector) -> Option<Region> {
    match r {
        None => Some(Region { low: p, high: p }),
        Some(r) => Some(
            Region {
                low: Vector::new(
                    if p.x < r.low.x { p.x } else { r.low.x },
                    if p.y < r.low.y { p.y } else { r.low.y },
                    if p.z < r.low.z { p.z } else { r.low.z },
                ),
                high: Vector::new(
                    if p.x > r.high.x { p.x } else { r.high.x },
                    if p.y > r.high.y { p.y } else { r.high.y },
                    if p.z > r.high.z { p.z } else { r.high.z },
                ),
            },
        ),
    }
}

/// The smallest box that holds `r` and all the points.
pub open spec fn over_points(r: Option<Region>, points: Seq<Vector>) -> Option<Region>
    decreases points.len(),
{
    if points.len() == 0 {
        r
    } else {
        stretch(over_points(r, points.drop_last()), points.last())
    }
}

/// The smallest box that holds `r` and all the corners of the faces.
pub open spec fn over_faces(r: Option<Region>, faces: Seq<FaceModel>) -> Option<Region>
    decreases faces.len(),
{
    if faces.len() == 0 {
        r
    } else {
        over_points(over_faces(r, faces.drop_last()), faces.last().vertices)
    }
}

/// The smallest box that holds `r` and all the corners of the brushes.
pub open spec fn over_brushes(r: Option<Region>, brushes: Seq<BrushModel>) -> Option<Region>
    decreases brushes.len(),
{
    if brushes.len() == 0 {
        r
    } else {
        over_faces(over_brushes(r, brushes.drop_last()), brushes.last().faces)
    }
}

/// The bounding volume of the brushes: the smallest box that holds all
/// their corners, if they have any.
pub open spec fn bounding(brushes: Seq<BrushModel>) -> Option<Region> {
    over_brushes(None, brushes)
}

/// The model of a box that may be missing.
pub open spec fn region_of(e: Option<Extent>) -> Option<Region> {
    match e {
        Some(e) => Some(e@),
        None => None,
    }
}

/// The box `r` with `clearance` and the margin added on every side, and
/// `clearance` once more at the top.
pub open spec fn inflated(r: Region, clearance: int) -> Region {
    let room = clearance + SKY_MARGIN;
    Region {
        low: Vector::new(r.low.x - room, r.low.y - room, r.low.z - room),
        high: Vector::new(r.high.x + room, r.high.y + room, r.high.z + room + clearance),
    }
}

/// The side of the box `r` that looks in direction `d`, seen from within.
pub open spec fn hollow_face(r: Region, d: Direction, texel: u64) -> FaceModel {
    FaceModel {
        normal: d.opposite().unit(),
        offset: -plane_offset(r, d),
        vertices: Seq::new(4, |i: int| corners(r, d)[3 - i]),
        texture: TextureRef::Skybox,
        u_axis: TextureAxis::across(d.axis(), texel),
        v_axis: TextureAxis::down(d.axis(), texel),
    }
}

/// The hollow box whose six faces look inwards and show the sky.
pub open spec fn hollow_brush(r: Region, texel: u64) -> BrushModel {
    BrushModel {
        faces: Seq::new(6, |k: int| hollow_face(r, side(k), texel)),
        color: Color { red: 255, green: 255, blue: 255 },
        transparency: 0,
    }
}

/// The sky for the brushes, or why there is none.
pub open spec fn planned(brushes: Seq<BrushModel>, clearance: u64, texel: u64) -> Result<
    BrushModel,
    SkyboxError,
> {
    match bounding(brushes) {
        None => Err(SkyboxError::Empty),
        Some(r) => if inflated(r, clearance as int).within(MAX_SKY_COORD as int) {
            Ok(hollow_brush(inflated(r, clearance as int), texel))
        } else {
            Err(SkyboxError::OutOfRange)
        },
    }
}

fn stretch_to(e: Option<Extent>, p: Vec3) -> (r: Option<Extent>)
    ensures
        region_of(r) == stretch(region_of(e), p@),
{
    match e {
        None => Some(Extent { low: p, high: p }),
        Some(e) => Some(
            Extent {
                low: Vec3 {
                    x: if p.x < e.low.x { p.x } else { e.low.x },
                    y: if p.y < e.low.y { p.y } else { e.low.y },
                    z: if p.z < e.low.z { p.z } else { e.low.z },
                },
                high: Vec3 {
                    x: if p.x > e.high.x { p.x } else { e.high.x },
                    y: if p.y > e.high.y { p.y } else { e.high.y },
                    z: if p.z > e.high.z { p.z } else { e.high.z },
                },
            },
        ),
    }
}

fn stretch_over_face(e: Option<Extent>, f: &Face) -> (r: Option<Extent>)
    ensures
        region_of(r) == over_points(region_of(e), f@.vertices),
{
    let mut cur: Option<Extent> = e;
    let mut k: usize = 0;
    while k < f.vertices.len()
        invariant
            k <= f.vertices.len(),
            region_of(cur) == over_points(region_of(e), f@.vertices.take(k as int)),
        decreases f.vertices.len() - k,
    {
        proof {
            let next = f@.vertices.take(k + 1);
            assert(next.drop_last() =~= f@.vertices.take(k as int));
            assert(next.last() == f.vertices[k as int]@);
        }
        cur = stretch_to(cur, f.vertices[k]);
        k += 1;
    }
    assert(f@.vertices.take(k as int) =~= f@.vertices);
    cur
}

fn stretch_over_brush(e: Option<Extent>, b: &Brush) -> (r: Option<Extent>)
    ensures
        region_of(r) == over_faces(region_of(e), b@.faces),
{
    let mut cur: Option<Extent> = e;
    let mut k: usize = 0;
    while k < b.faces.len()
        invariant
            k <= b.faces.len(),
            region_of(cur) == over_faces(region_of(e), b@.faces.take(k as int)),
        decreases b.faces.len() - k,
    {
        proof {
            let next = b@.faces.take(k + 1);
            assert(next.drop_last() =~= b@.faces.take(k as int));
            assert(next.last() == b.faces[k as int]@);
        }
        cur = stretch_over_face(cur, &b.faces[k]);
        k += 1;
    }
    assert(b@.faces.take(k as int) =~= b@.faces);
    cur
}

/// The bounding volume of the brushes.
pub fn bounding_volume(brushes: &Vec<Brush>) -> (r: Option<Extent>)
    ensures
        region_of(r) == bounding(brush_models(brushes@)),
{
    let ghost s = brush_models(brushes@);
    let mut cur: Option<Extent> = None;
    let mut k: usize = 0;
    while k < brushes.len()
        invariant
            k <= brushes.len(),
            s == brush_models(brushes@),
            region_of(cur) == over_brushes(None, s.take(k as int)),
        decreases brushes.len() - k,
    {
        proof {
            let next = s.take(k + 1);
            assert(next.drop_last() =~= s.take(k as int));
            assert(next.last() == brushes[k as int]@);
        }
        cur = stretch_over_brush(cur, &brushes[k]);
        k += 1;
    }
    assert(s.take(k as int) =~= s);
    cur
}

/// A coordinate moved by `room`, if it stays within [`MAX_SKY_COORD`].
fn moved(c: i64, room: i128) -> (r: Option<i64>)
    requires
        -0x4_0000_0000_0000_0000 <= room <= 0x4_0000_0000_0000_0000,
    ensures
        r matches Some(v) ==> v == c + room && -MAX_SKY_COORD <= v <= MAX_SKY_COORD,
        r is None ==> !(-MAX_SKY_COORD <= c + room <= MAX_SKY_COORD),
{
    let v: i128 = c as i128 + room;
    if v < -(MAX_SKY_COORD as i128) || v > MAX_SKY_COORD as i128 {
        None
    } else {
        Some(v as i64)
    }
}

/// The box with the clearance and the margin added, if it stays within
/// [`MAX_SKY_COORD`].
pub fn inflate(e: &Extent, clearance: u64) -> (r: Option<Extent>)
    ensures
        r matches Some(x) ==> x@ == inflated(e@, clearance as int) && x@.within(MAX_SKY_COORD as int),
        r is None ==> !inflated(e@, clearance as int).within(MAX_SKY_COORD as int),
{
    let room: i128 = clearance as i128 + SKY_MARGIN as i128;
    let top: i128 = room + clearance as i128;
    let lx: Option<i64> = moved(e.low.x, -room);
    let ly: Option<i64> = moved(e.low.y, -room);
    let lz: Option<i64> = moved(e.low.z, -room);
    let hx: Option<i64> = moved(e.high.x, room);
    let hy: Option<i64> = moved(e.high.y, room);
    let hz: Option<i64> = moved(e.high.z, top);
    match (lx, ly, lz, hx, hy, hz) {
        (Some(lx), Some(ly), Some(lz), Some(hx), Some(hy), Some(hz)) => Some(
            Extent { low: Vec3 { x: lx, y: ly, z: lz }, high: Vec3 { x: hx, y: hy, z: hz } },
        ),
        _ => None,
    }
}

/// The hollow box that fills `e`.
pub fn make_hollow(e: &Extent, texel: u64) -> (b: Brush)
    ensures
        b@ == hollow_brush(e@, texel),
{
    let mut faces: Vec<Face> = Vec::new();
    let mut k: usize = 0;
    while k < 6
        invariant
            k <= 6,
            faces.len() == k,
            forall|i: int| 0 <= i < k ==> (#[trigger] faces[i])@ == hollow_face(e@, side(i), texel),
        decreases 6 - k,
    {
        let d: Direction = side_at(k);
        let c: Vec<Vec3> = side_corners(e, d);
        assert(c.len() == crate::brush::vectors(c@).len() == 4);
        let bound: i128 = e.side(d) as i128;
        let face: Face = Face {
            normal: d.reversed().to_unit(),
            offset: if d.positive() {
                -bound
            } else {
                bound
            },
            vertices: vec![c[3], c[2], c[1], c[0]],
            texture: TextureRef::Skybox,
            u_axis: TextureAxis::new_across(d.get_axis(), texel),
            v_axis: TextureAxis::new_down(d.get_axis(), texel),
        };
        proof {
            let want = hollow_face(e@, d, texel);
            assert(crate::brush::vectors(c@)[0] == c[0]@);
            assert(crate::brush::vectors(c@)[1] == c[1]@);
            assert(crate::brush::vectors(c@)[2] == c[2]@);
            assert(crate::brush::vectors(c@)[3] == c[3]@);
            assert(face@.vertices =~= want.vertices);
        }
        faces.push(face);
        k += 1;
    }
    let b: Brush = Brush { faces, color: Color { red: 255, green: 255, blue: 255 }, transparency: 0 };
    assert(b@.faces =~= hollow_brush(e@, texel).faces);
    b
}

/// Plans the sky: the hollow box round the bounding volume of the brushes,
/// `clearance` and the margin away from it on every side, and `clearance` more at the top.
pub fn plan(brushes: &Vec<Brush>, clearance: u64, texel: u64) -> (r: Result<Brush, SkyboxError>)
    ensures
        match planned(brush_models(brushes@), clearance, texel) {
            Ok(model) => r matches Ok(b) && b@ == model,
            Err(e) => r matches Err(x) && x == e,
        },
{
    match bounding_volume(brushes) {
        None => Err(SkyboxError::Empty),
        Some(e) => match inflate(&e, clearance) {
            Some(sky) => Ok(make_hollow(&sky, texel)),
            None => Err(SkyboxError::OutOfRange),
        },
    }
}

/// The corner at place `k` of face `j` of brush `i` is a corner of the brushes.
pub open spec fn is_corner(brushes: Seq<BrushModel>, i: int, j: int, k: int) -> bool {
    0 <= i < brushes.len() && 0 <= j < brushes[i].faces.len() && 0 <= k
        < brushes[i].faces[j].vertices.len()
}

/// The box `r` holds the box `inner`, if there is one.
pub open spec fn holds(r: Option<Region>, inner: Option<Region>) -> bool {
    match (r, inner) {
        (_, None) => true,
        (Some(r), Some(i)) => r.low.le(i.low) && i.high.le(r.high),
        (None, Some(_)) => false,
    }
}

proof fn lemma_over_points(r: Option<Region>, points: Seq<Vector>)
    ensures
        holds(over_points(r, points), r),
        forall|k: int|
            0 <= k < points.len() ==> over_points(r, points) is Some && over_points(
                r,
                points,
            ).unwrap().contains(#[trigger] points[k]),
        over_points(r, points) is None ==> r is None && points.len() == 0,
    decreases points.len(),
{
    if points.len() > 0 {
        lemma_over_points(r, points.drop_last());
        assert forall|k: int| 0 <= k < points.len() implies over_points(r, points).unwrap().contains(
            #[trigger] points[k],
        ) by {
            if k < points.len() - 1 {
                assert(points.drop_last()[k] == points[k]);
            }
        }
    }
}

proof fn lemma_over_faces(r: Option<Region>, faces: Seq<FaceModel>)
    ensures
        holds(over_faces(r, faces), r),
        forall|j: int, k: int|
            0 <= j < faces.len() && 0 <= k < faces[j].vertices.len() ==> over_faces(r, faces)
                is Some && over_faces(r, faces).unwrap().contains(#[trigger] faces[j].vertices[k]),
        over_faces(r, faces) is None ==> r is None && forall|j: int|
            0 <= j < faces.len() ==> (#[trigger] faces[j]).vertices.len() == 0,
    decreases faces.len(),
{
    if faces.len() > 0 {
        let before = over_faces(r, faces.drop_last());
        lemma_over_faces(r, faces.drop_last());
        lemma_over_points(before, faces.last().vertices);
        assert forall|j: int, k: int|
            0 <= j < faces.len() && 0 <= k < faces[j].vertices.len() implies over_faces(r, faces)
            is Some && over_faces(r, faces).unwrap().contains(#[trigger] faces[j].vertices[k]) by {
            if j < faces.len() - 1 {
                assert(faces.drop_last()[j] == faces[j]);
                assert(before.unwrap().contains(faces[j].vertices[k]));
            }
        }
        if over_faces(r, faces) is None {
            assert forall|j: int| 0 <= j < faces.len() implies (#[trigger] faces[j]).vertices.len()
                == 0 by {
                if j < faces.len() - 1 {
                    assert(faces.drop_last()[j] == faces[j]);
                }
            }
        }
    }
}

proof fn lemma_over_brushes(r: Option<Region>, brushes: Seq<BrushModel>)
    ensures
        holds(over_brushes(r, brushes), r),
        forall|i: int, j: int, k: int|
            is_corner(brushes, i, j, k) ==> over_brushes(r, brushes) is Some && over_brushes(
                r,
                brushes,
            ).unwrap().contains(#[trigger] brushes[i].faces[j].vertices[k]),
        over_brushes(r, brushes) is None ==> r is None && forall|i: int, j: int, k: int|
            !is_corner(brushes, i, j, k),
    decreases brushes.len(),
{
    if brushes.len() > 0 {
        let before = over_brushes(r, brushes.drop_last());
        lemma_over_brushes(r, brushes.drop_last());
        lemma_over_faces(before, brushes.last().faces);
        assert forall|i: int, j: int, k: int| is_corner(brushes, i, j, k) implies over_brushes(
            r,
            brushes,
        ) is Some && over_brushes(r, brushes).unwrap().contains(
            #[trigger] brushes[i].faces[j].vertices[k],
        ) by {
            if i < brushes.len() - 1 {
                assert(brushes.drop_last()[i] == brushes[i]);
                assert(is_corner(brushes.drop_last(), i, j, k));
                assert(before.unwrap().contains(brushes[i].faces[j].vertices[k]));
            }
        }
        if over_brushes(r, brushes) is None {
            assert forall|i: int, j: int, k: int| !is_corner(brushes, i, j, k) by {
                if is_corner(brushes, i, j, k) {
                    if i < brushes.len() - 1 {
                        assert(brushes.drop_last()[i] == brushes[i]);
                        assert(is_corner(brushes.drop_last(), i, j, k));
                    } else {
                        assert(brushes.last().faces[j].vertices.len() == 0);
                    }
                }
            }
        }
    }
}

/// The bounding volume holds every corner of every brush, and is missing
/// only where no brush has a corner.
pub proof fn law_bounding_holds_all(brushes: Seq<BrushModel>, i: int, j: int, k: int)
    requires
        is_corner(brushes, i, j, k),
    ensures
        bounding(brushes) is Some,
        bounding(brushes).unwrap().contains(brushes[i].faces[j].vertices[k]),
{
    lemma_over_brushes(None, brushes);
}

/// Some point of the sequence lies on the side of the box that looks in direction `d`.
pub open spec fn point_on_side(points: Seq<Vector>, r: Region, d: Direction) -> bool {
    exists|k: int| 0 <= k < points.len() && (#[trigger] points[k]).along(d.axis()) == r.bound(d)
}

/// Some corner of the faces lies on the side of the box that looks in direction `d`.
pub open spec fn face_on_side(faces: Seq<FaceModel>, r: Region, d: Direction) -> bool {
    exists|j: int, k: int|
        0 <= j < faces.len() && 0 <= k < faces[j].vertices.len() && (
        #[trigger] faces[j].vertices[k]).along(d.axis()) == r.bound(d)
}

/// Some corner of the brushes lies on the side of the box that looks in direction `d`.
pub open spec fn touched(brushes: Seq<BrushModel>, r: Region, d: Direction) -> bool {
    exists|i: int, j: int, k: int|
        is_corner(brushes, i, j, k) && (#[trigger] brushes[i].faces[j].vertices[k]).along(d.axis())
            == r.bound(d)
}

proof fn lemma_points_tight(r: Option<Region>, points: Seq<Vector>, d: Direction)
    ensures
        over_points(r, points) matches Some(b) ==> (r matches Some(a) && a.bound(d) == b.bound(d))
            || point_on_side(points, b, d),
    decreases points.len(),
{
    if points.len() > 0 {
        let before = over_points(r, points.drop_last());
        let b = over_points(r, points).unwrap();
        lemma_points_tight(r, points.drop_last(), d);
        let last = points.len() - 1;
        if points[last].along(d.axis()) == b.bound(d) {
            assert(point_on_side(points, b, d));
        } else {
            let a = before.unwrap();
            assert(a.bound(d) == b.bound(d));
            if point_on_side(points.drop_last(), a, d) {
                let k = choose|k: int|
                    0 <= k < points.drop_last().len() && (#[trigger] points.drop_last()[k]).along(
                        d.axis(),
                    ) == a.bound(d);
                assert(points[k] == points.drop_last()[k]);
                assert(point_on_side(points, b, d));
            }
        }
    }
}

proof fn lemma_faces_tight(r: Option<Region>, faces: Seq<FaceModel>, d: Direction)
    ensures
        over_faces(r, faces) matches Some(b) ==> (r matches Some(a) && a.bound(d) == b.bound(d))
            || face_on_side(faces, b, d),
    decreases faces.len(),
{
    if faces.len() > 0 && over_faces(r, faces) is Some {
        let before = over_faces(r, faces.drop_last());
        let b = over_faces(r, faces).unwrap();
        let last = faces.len() - 1;
        lemma_faces_tight(r, faces.drop_last(), d);
        lemma_points_tight(before, faces.last().vertices, d);
        if point_on_side(faces.last().vertices, b, d) {
            let k = choose|k: int|
                0 <= k < faces.last().vertices.len() && (#[trigger] faces.last().vertices[k]).along(
                    d.axis(),
                ) == b.bound(d);
            assert(faces[last].vertices[k].along(d.axis()) == b.bound(d));
            assert(face_on_side(faces, b, d));
        } else {
            let a = before.unwrap();
            assert(a.bound(d) == b.bound(d));
            if face_on_side(faces.drop_last(), a, d) {
                let (j, k) = choose|j: int, k: int|
                    0 <= j < faces.drop_last().len() && 0 <= k < faces.drop_last()[j].vertices.len()
                        && (#[trigger] faces.drop_last()[j].vertices[k]).along(d.axis()) == a.bound(
                        d,
                    );
                assert(faces[j] == faces.drop_last()[j]);
                assert(faces[j].vertices[k].along(d.axis()) == b.bound(d));
                assert(face_on_side(faces, b, d));
            }
        }
    }
}

proof fn lemma_brushes_tight(r: Option<Region>, brushes: Seq<BrushModel>, d: Direction)
    ensures
        over_brushes(r, brushes) matches Some(b) ==> (r matches Some(a) && a.bound(d) == b.bound(d))
            || touched(brushes, b, d),
    decreases brushes.len(),
{
    if brushes.len() > 0 && over_brushes(r, brushes) is Some {
        let before = over_brushes(r, brushes.drop_last());
        let b = over_brushes(r, brushes).unwrap();
        let last = brushes.len() - 1;
        lemma_brushes_tight(r, brushes.drop_last(), d);
        lemma_faces_tight(before, brushes.last().faces, d);
        if face_on_side(brushes.last().faces, b, d) {
            let (j, k) = choose|j: int, k: int|
                0 <= j < brushes.last().faces.len() && 0 <= k
                    < brushes.last().faces[j].vertices.len() && (
                #[trigger] brushes.last().faces[j].vertices[k]).along(d.axis()) == b.bound(d);
            assert(is_corner(brushes, last, j, k));
            assert(brushes[last].faces[j].vertices[k].along(d.axis()) == b.bound(d));
            assert(touched(brushes, b, d));
        } else {
            let a = before.unwrap();
            assert(a.bound(d) == b.bound(d));
            if touched(brushes.drop_last(), a, d) {
                let (i, j, k) = choose|i: int, j: int, k: int|
                    is_corner(brushes.drop_last(), i, j, k) && (
                    #[trigger] brushes.drop_last()[i].faces[j].vertices[k]).along(d.axis())
                        == a.bound(d);
                assert(brushes[i] == brushes.drop_last()[i]);
                assert(is_corner(brushes, i, j, k));
                assert(brushes[i].faces[j].vertices[k].along(d.axis()) == b.bound(d));
                assert(touched(brushes, b, d));
            }
        }
    }
}

/// The bounding volume is no larger than it must be: on each of its six
/// sides lies a corner of a brush.
pub proof fn law_bounding_is_tight(brushes: Seq<BrushModel>, d: Direction)
    requires
        bounding(brushes) is Some,
    ensures
        touched(brushes, bounding(brushes).unwrap(), d),
{
    lemma_brushes_tight(None, brushes, d);
}

/// The sky lies round the bounding volume of the brushes with more than the
/// clearance to spare on every side: every corner of every brush, moved by
/// the clearance along any axis, is strictly inside the box whose sides the
/// sky shows from within.
pub proof fn law_sky_clears_all(
    brushes: Seq<BrushModel>,
    clearance: u64,
    texel: u64,
    i: int,
    j: int,
    k: int,
)
    requires
        planned(brushes, clearance, texel) is Ok,
        is_corner(brushes, i, j, k),
    ensures
        ({
            let v = brushes[i].faces[j].vertices[k];
            let sky = inflated(bounding(brushes).unwrap(), clearance as int);
            let c = clearance as int;
            &&& planned(brushes, clearance, texel) == Ok::<BrushModel, SkyboxError>(
                hollow_brush(sky, texel),
            )
            &&& sky.low.lt(Vector::new(v.x - c, v.y - c, v.z - c))
            &&& Vector::new(v.x + c, v.y + c, v.z + c).lt(sky.high)
            &&& bounding(seq![hollow_brush(sky, texel)]) == Some(sky)
        }),
{
    law_bounding_holds_all(brushes, i, j, k);
    let sky = inflated(bounding(brushes).unwrap(), clearance as int);
    lemma_hollow_bounds(sky, texel);
}

/// Every corner of a hollow box is a corner of the box.
proof fn lemma_hollow_corner(r: Region, texel: u64, j: int, k: int)
    requires
        r.low.le(r.high),
        0 <= j < 6,
        0 <= k < 4,
    ensures
        hollow_brush(r, texel).faces[j].vertices.len() == 4,
        hollow_brush(r, texel).faces[j].vertices[k] == corners(r, side(j))[3 - k],
        r.contains(hollow_brush(r, texel).faces[j].vertices[k]),
{
}

/// The side of the bounding volume of a hollow box that looks in direction
/// `d` is no further out than the side of the box.
proof fn lemma_hollow_side(r: Region, texel: u64, d: Direction)
    requires
        r.low.le(r.high),
        bounding(seq![hollow_brush(r, texel)]) is Some,
    ensures
        ({
            let b = bounding(seq![hollow_brush(r, texel)]).unwrap();
            r.low.along(d.axis()) <= b.bound(d) <= r.high.along(d.axis())
        }),
{
    let s = seq![hollow_brush(r, texel)];
    let b = bounding(s).unwrap();
    law_bounding_is_tight(s, d);
    let (i, j, k) = choose|i: int, j: int, k: int|
        is_corner(s, i, j, k) && (#[trigger] s[i].faces[j].vertices[k]).along(d.axis()) == b.bound(
            d,
        );
    assert(i == 0);
    lemma_hollow_corner(r, texel, j, 0);
    lemma_hollow_corner(r, texel, j, k);
}

/// The bounding volume of a hollow box is the box.
pub proof fn lemma_hollow_bounds(r: Region, texel: u64)
    requires
        r.low.le(r.high),
    ensures
        bounding(seq![hollow_brush(r, texel)]) == Some(r),
{
    let s = seq![hollow_brush(r, texel)];
    lemma_hollow_corner(r, texel, 0, 2);
    lemma_hollow_corner(r, texel, 1, 3);
    assert(is_corner(s, 0, 0, 2) && is_corner(s, 0, 1, 3));
    law_bounding_holds_all(s, 0, 0, 2);
    law_bounding_holds_all(s, 0, 1, 3);
    assert(s[0].faces[0].vertices[2] == r.high);
    assert(s[0].faces[1].vertices[3] == r.low);
    lemma_hollow_side(r, texel, Direction::PosX);
    lemma_hollow_side(r, texel, Direction::NegX);
    lemma_hollow_side(r, texel, Direction::PosY);
    lemma_hollow_side(r, texel, Direction::NegY);
    lemma_hollow_side(r, texel, Direction::PosZ);
    lemma_hollow_side(r, texel, Direction::NegZ);
}

/// The faces of the sky look inwards: every corner lies on the plane of
/// its face, every corner of the sky lies on the plane of a face or on the
/// side to which its normal points, and the corners of each face run
/// clockwise for one who stands inside.
pub proof fn law_sky_looks_inwards(r: Region, texel: u64, i: int, j: int, k: int)
    requires
        r.solid(),
        0 <= i < 6,
        0 <= j < 6,
        0 <= k < 4,
    ensures
        ({
            let sky = hollow_brush(r, texel);
            &&& sky.faces.len() == 6 && sky.faces[j].vertices.len() == 4
            &&& sky.faces[i].normal == side(i).opposite().unit()
            &&& sky.faces[i].normal.dot(sky.faces[j].vertices[k]) >= sky.faces[i].offset
            &&& sky.faces[j].normal.dot(sky.faces[j].vertices[k]) == sky.faces[j].offset
            &&& sky.faces[i].clockwise()
        }),
{
    let sky = hollow_brush(r, texel);
    let f = sky.faces[i];
    let g = sky.faces[j];
    let p = g.vertices[k];
    assert(p == corners(r, side(j))[3 - k]);
    assert(r.contains(p));
    lemma_unit_dot(side(i).opposite(), p);
    lemma_unit_dot(side(j).opposite(), p);
    let v = f.vertices;
    let a = v[2].minus(v[0]);
    let b = v[1].minus(v[0]);
    let c = a.cross(b);
    let (dx, dy, dz) = (r.size().x, r.size().y, r.size().z);
    lemma_dot_simple(f.normal, c);
    lemma_zero_products(a, b);
    lemma_positive_product(dx, dy);
    lemma_positive_product(dx, dz);
    lemma_positive_product(dy, dz);
    lemma_signs(dx, dy);
    lemma_signs(dx, dz);
    lemma_signs(dy, dz);
    lemma_signs(dy, dx);
    lemma_signs(dz, dx);
    lemma_signs(dz, dy);
    match side(i) {
        Direction::PosX => {
            assert(a == Vector::new(0, dy, dz) && b == Vector::new(0, dy, 0));
        },
        Direction::NegX => {
            assert(a == Vector::new(0, dy, -dz) && b == Vector::new(0, dy, 0));
        },
        Direction::PosY => {
            assert(a == Vector::new(dx, 0, dz) && b == Vector::new(0, 0, dz));
        },
        Direction::NegY => {
            assert(a == Vector::new(-dx, 0, dz) && b == Vector::new(0, 0, dz));
        },
        Direction::PosZ => {
            assert(a == Vector::new(dx, dy, 0) && b == Vector::new(dx, 0, 0));
        },
        Direction::NegZ => {
            assert(a == Vector::new(dx, -dy, 0) && b == Vector::new(dx, 0, 0));
        },
    }
}

/// Every face of the sky shows the sky, and stands in the document under
/// the name that the sky is given; the sky can stand in a document.
pub proof fn law_sky_shows_its_name(r: Region, texel: u64, k: int, acc: Seq<char>, name: Seq<char>)
    requires
        0 <= k < 6,
    ensures
        hollow_brush(r, texel).sound(),
        hollow_brush(r, texel).faces.len() == 6,
        hollow_brush(r, texel).faces[k].texture == TextureRef::Skybox,
        with_texture(acc, hollow_brush(r, texel).faces[k].texture, name) == acc + name,
{
    let sky = hollow_brush(r, texel);
    assert forall|i: int| 0 <= i < sky.faces.len() implies (#[trigger] sky.faces[i]).vertices.len()
        >= 3 by {
        assert(sky.faces[i].vertices.len() == 4);
    }
}

} // verus!
