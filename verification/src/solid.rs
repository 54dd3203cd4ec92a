//! The solids that stand for wedges, corner wedges and round parts, in the
//! part's own frame: the origin is the part's centre, and lengths count
//! half-thousandths of a scene unit, so that the bounding box of a part of
//! size `s` reaches from `-s` to `s`.

use vstd::prelude::*;
use crate::brush::vectors;
use crate::geometry::{
    lemma_dot_simple, lemma_rotation_keeps_cross, lemma_rotation_keeps_differences,
    lemma_rotation_keeps_dot, lemma_zero_products, Direction, Rotation, Vec3, Vector,
};

verus! {

/// One face of a solid in the part's own frame.
#[derive(Clone, Debug)]
pub struct Facet {
    /// A vector that points out of the solid, at right angles to the face.
    pub normal: Vec3,
    /// The corners, in clockwise order for one who looks at the face from outside.
    pub corners: Vec<Vec3>,
    /// The side of the part whose texture the face shows.
    pub side: Direction,
}

/// The mathematical model of a [`Facet`].
pub struct FacetModel {
    pub normal: Vector,
    pub corners: Seq<Vector>,
    pub side: Direction,
}

impl View for Facet {
    type V = FacetModel;

    open spec fn view(&self) -> FacetModel {
        FacetModel { normal: self.normal@, corners: vectors(self.corners@), side: self.side }
    }
}

/// The models of a sequence of facets.
pub open spec fn facet_models(facets: Seq<Facet>) -> Seq<FacetModel> {
    Seq::new(facets.len(), |i: int| facets[i]@)
}

/// The faces of a wedge of size `s`: the floor, the upright back, the slope
/// that falls from the top of the back to the front edge of the floor, and the
/// two triangles at the sides.
pub open spec fn wedge_facets(s: Vector) -> Seq<FacetModel> {
    let (a, b, c) = (s.x, s.y, s.z);
    seq![
        FacetModel {
            normal: Vector::new(0, -1, 0),
            corners: seq![
                Vector::new(-a, -b, -c),
                Vector::new(-a, -b, c),
                Vector::new(a, -b, c),
                Vector::new(a, -b, -c),
            ],
            side: Direction::NegY,
        },
        FacetModel {
            normal: Vector::new(0, 0, 1),
            corners: seq![
                Vector::new(-a, b, c),
                Vector::new(a, b, c),
                Vector::new(a, -b, c),
                Vector::new(-a, -b, c),
            ],
            side: Direction::PosZ,
        },
        FacetModel {
            normal: Vector::new(0, c, -b),
            corners: seq![
                Vector::new(-a, -b, -c),
                Vector::new(a, -b, -c),
                Vector::new(a, b, c),
                Vector::new(-a, b, c),
            ],
            side: Direction::PosY,
        },
        FacetModel {
            normal: Vector::new(-1, 0, 0),
            corners: seq![Vector::new(-a, -b, -c), Vector::new(-a, b, c), Vector::new(-a, -b, c)],
            side: Direction::NegX,
        },
        FacetModel {
            normal: Vector::new(1, 0, 0),
            corners: seq![Vector::new(a, -b, c), Vector::new(a, b, c), Vector::new(a, -b, -c)],
            side: Direction::PosX,
        },
    ]
}

/// The faces of a corner wedge of size `s`: the floor, two upright triangles
/// that meet in the edge under the peak, and two slanted triangles that fall
/// from the peak to the far edges of the floor.
pub open spec fn corner_facets(s: Vector) -> Seq<FacetModel> {
    let (a, b, c) = (s.x, s.y, s.z);
    seq![
        FacetModel {
            normal: Vector::new(0, -1, 0),
            corners: seq![
                Vector::new(-a, -b, -c),
                Vector::new(-a, -b, c),
                Vector::new(a, -b, c),
                Vector::new(a, -b, -c),
            ],
            side: Direction::NegY,
        },
        FacetModel {
            normal: Vector::new(1, 0, 0),
            corners: seq![Vector::new(a, -b, c), Vector::new(a, b, -c), Vector::new(a, -b, -c)],
            side: Direction::PosX,
        },
        FacetModel {
            normal: Vector::new(0, 0, -1),
            corners: seq![Vector::new(-a, -b, -c), Vector::new(a, -b, -c), Vector::new(a, b, -c)],
            side: Direction::NegZ,
        },
        FacetModel {
            normal: Vector::new(0, c, b),
            corners: seq![Vector::new(a, -b, c), Vector::new(-a, -b, c), Vector::new(a, b, -c)],
            side: Direction::PosZ,
        },
        FacetModel {
            normal: Vector::new(-b, a, 0),
            corners: seq![Vector::new(-a, -b, c), Vector::new(-a, -b, -c), Vector::new(a, b, -c)],
            side: Direction::NegX,
        },
    ]
}

/// How far from the middle of a side of the bounding box the corners of the
/// eight-sided outline lie, for a side of half-length `half`.
pub open spec fn inset(half: int) -> int {
    half * 29 / 70
}

/// The corner at place `i` of the eight-sided outline in the plane across the
/// first axis, for a bounding box of size `s`; the corners run from the second
/// axis towards the third.
pub open spec fn outline(s: Vector, i: int) -> (int, int) {
    let (b, c) = (s.y, s.z);
    let (p, q) = (inset(b), inset(c));
    if i == 0 {
        (b, -q)
    } else if i == 1 {
        (b, q)
    } else if i == 2 {
        (p, c)
    } else if i == 3 {
        (-p, c)
    } else if i == 4 {
        (-b, q)
    } else if i == 5 {
        (-b, -q)
    } else if i == 6 {
        (-p, -c)
    } else {
        (p, -c)
    }
}

/// The outward normal, in the plane across the first axis, of the side of the
/// outline that runs from corner `i` to the next.
pub open spec fn outline_normal(s: Vector, i: int) -> (int, int) {
    let (b, c) = (s.y, s.z);
    let (p, q) = (inset(b), inset(c));
    if i == 0 {
        (1, 0)
    } else if i == 1 {
        (c - q, b - p)
    } else if i == 2 {
        (0, 1)
    } else if i == 3 {
        (-(c - q), b - p)
    } else if i == 4 {
        (-1, 0)
    } else if i == 5 {
        (-(c - q), -(b - p))
    } else if i == 6 {
        (0, -1)
    } else {
        (c - q, -(b - p))
    }
}

/// The side of the part whose texture the side of the outline from corner `i`
/// to the next shows.
pub open spec fn outline_side(i: int) -> Direction {
    if i == 0 {
        Direction::PosY
    } else if 1 <= i <= 3 {
        Direction::PosZ
    } else if i == 4 {
        Direction::NegY
    } else {
        Direction::NegZ
    }
}

/// The face at place `k` of the eight-sided prism along the first axis that
/// stands for a round part of size `s`: eight sides, then the two ends.
pub open spec fn round_facet(s: Vector, k: int) -> FacetModel {
    let a = s.x;
    if 0 <= k < 8 {
        let (y0, z0) = outline(s, k);
        let (y1, z1) = outline(s, (k + 1) % 8);
        let (ny, nz) = outline_normal(s, k);
        FacetModel {
            normal: Vector::new(0, ny, nz),
            corners: seq![
                Vector::new(a, y0, z0),
                Vector::new(a, y1, z1),
                Vector::new(-a, y1, z1),
                Vector::new(-a, y0, z0),
            ],
            side: outline_side(k),
        }
    } else if k == 8 {
        FacetModel {
            normal: Vector::new(1, 0, 0),
            corners: Seq::new(8, |i: int| Vector::new(a, outline(s, 7 - i).0, outline(s, 7 - i).1)),
            side: Direction::PosX,
        }
    } else {
        FacetModel {
            normal: Vector::new(-1, 0, 0),
            corners: Seq::new(8, |i: int| Vector::new(-a, outline(s, i).0, outline(s, i).1)),
            side: Direction::NegX,
        }
    }
}

/// The faces of the eight-sided prism along the first axis that stands for a
/// round part of size `s`.
pub open spec fn round_facets(s: Vector) -> Seq<FacetModel> {
    Seq::new(10, |k: int| round_facet(s, k))
}

/// A facet turned by a rotation.
pub open spec fn turned_facet(f: FacetModel, q: Rotation) -> FacetModel {
    FacetModel {
        normal: q.apply(f.normal),
        corners: Seq::new(f.corners.len(), |i: int| q.apply(f.corners[i])),
        side: q.turn(f.side),
    }
}

/// The rotation that turns the first axis upright: it takes the first axis
/// to the second, the second to the third and the third to the first.
pub open spec fn upright() -> Rotation {
    Rotation { x_image: Direction::PosY, y_image: Direction::PosZ, z_image: Direction::PosX }
}

/// The faces of the eight-sided upright prism that stands for a ball of size `s`.
pub open spec fn ball_facets(s: Vector) -> Seq<FacetModel> {
    let lying = Vector::new(s.y, s.z, s.x);
    Seq::new(10, |k: int| turned_facet(round_facet(lying, k), upright()))
}

/// The solid is closed and convex: it has at least four faces, each a
/// polygon in its plane, and every corner lies on or behind every face.
pub open spec fn facets_closed(fs: Seq<FacetModel>) -> bool {
    &&& fs.len() >= 4
    &&& forall|i: int| 0 <= i < fs.len() ==> (#[trigger] fs[i]).corners.len() >= 3
    &&& forall|i: int, k: int|
        0 <= i < fs.len() && 0 <= k < fs[i].corners.len() ==> fs[i].normal.dot(
            #[trigger] fs[i].corners[k],
        ) == fs[i].normal.dot(fs[i].corners[0])
    &&& forall|i: int, j: int, k: int|
        0 <= i < fs.len() && 0 <= j < fs.len() && 0 <= k < fs[j].corners.len() ==> (
        #[trigger] fs[i]).normal.dot(#[trigger] fs[j].corners[k]) <= fs[i].normal.dot(
            fs[i].corners[0],
        )
}

/// Every corner of the solid lies in the box from `-s` to `s`.
pub open spec fn facets_inside(fs: Seq<FacetModel>, s: Vector) -> bool {
    forall|j: int, k: int|
        0 <= j < fs.len() && 0 <= k < fs[j].corners.len() ==> (#[trigger] fs[j].corners[k]).within_box(s)
}

/// Products of two lengths with either sign.
proof fn lemma_signed_products(b: int, c: int)
    by (nonlinear_arith)
    requires
        b >= 0,
        c >= 0,
    ensures
        b * c >= 0,
        c * b == b * c,
        c * (-b) == -(b * c),
        (-b) * c == -(b * c),
        (-c) * b == -(b * c),
        b * (-c) == -(b * c),
        (-b) * (-c) == b * c,
        (-c) * (-b) == b * c,
{
}

/// The point is a corner of the wedge of size `s`.
pub open spec fn wedge_point(s: Vector, v: Vector) -> bool {
    &&& v.x == s.x || v.x == -s.x
    &&& (v.y == -s.y && (v.z == s.z || v.z == -s.z)) || (v.y == s.y && v.z == s.z)
}

/// A corner of the wedge lies on or behind each of its faces.
proof fn lemma_wedge_point(s: Vector, v: Vector, i: int)
    requires
        s.x >= 0 && s.y >= 0 && s.z >= 0,
        wedge_point(s, v),
        0 <= i < 5,
    ensures
        v.within_box(s),
        wedge_facets(s)[i].normal.dot(v) <= wedge_facets(s)[i].normal.dot(
            wedge_facets(s)[i].corners[0],
        ),
        wedge_facets(s)[i].corners.len() >= 3,
{
    lemma_signed_products(s.y, s.z);
    let f = wedge_facets(s)[i];
    lemma_dot_simple(f.normal, v);
    lemma_dot_simple(f.normal, f.corners[0]);
    assert(i == 0 || i == 1 || i == 2 || i == 3 || i == 4);
}

/// Each corner of each face of the wedge is a corner of the wedge and lies
/// on the plane of the face.
proof fn lemma_wedge_corner(s: Vector, j: int, k: int)
    requires
        s.x >= 0 && s.y >= 0 && s.z >= 0,
        0 <= j < 5,
        0 <= k < wedge_facets(s)[j].corners.len(),
    ensures
        wedge_point(s, wedge_facets(s)[j].corners[k]),
        wedge_facets(s)[j].normal.dot(wedge_facets(s)[j].corners[k]) == wedge_facets(
            s,
        )[j].normal.dot(wedge_facets(s)[j].corners[0]),
{
    let f = wedge_facets(s)[j];
    lemma_signed_products(s.y, s.z);
    lemma_dot_simple(f.normal, f.corners[k]);
    lemma_dot_simple(f.normal, f.corners[0]);
    assert(j == 0 || j == 1 || j == 2 || j == 3 || j == 4);
    assert(k == 0 || k == 1 || k == 2 || k == 3);
}

/// A wedge is a closed convex solid in its bounding box.
pub proof fn lemma_wedge_closed(s: Vector)
    requires
        s.x >= 0 && s.y >= 0 && s.z >= 0,
    ensures
        facets_closed(wedge_facets(s)),
        facets_inside(wedge_facets(s), s),
{
    let fs = wedge_facets(s);
    lemma_signed_products(s.y, s.z);
    assert forall|j: int, k: int| 0 <= j < fs.len() && 0 <= k < fs[j].corners.len() implies wedge_point(
        s,
        #[trigger] fs[j].corners[k],
    ) && fs[j].normal.dot(fs[j].corners[k]) == fs[j].normal.dot(fs[j].corners[0]) by {
        lemma_wedge_corner(s, j, k);
    }
    assert forall|j: int, k: int| 0 <= j < fs.len() && 0 <= k < fs[j].corners.len() implies (
    #[trigger] fs[j].corners[k]).within_box(s) by {
        lemma_wedge_point(s, fs[j].corners[k], 0);
    }
    assert forall|i: int| 0 <= i < fs.len() implies (#[trigger] fs[i]).corners.len() >= 3 by {
        lemma_wedge_point(s, fs[0].corners[0], i);
    }
    assert forall|i: int, j: int, k: int|
        0 <= i < fs.len() && 0 <= j < fs.len() && 0 <= k < fs[j].corners.len() implies (
    #[trigger] fs[i]).normal.dot(#[trigger] fs[j].corners[k]) <= fs[i].normal.dot(
        fs[i].corners[0],
    ) by {
        lemma_wedge_point(s, fs[j].corners[k], i);
    }
}

/// The point is a corner of the corner wedge of size `s`.
pub open spec fn corner_point(s: Vector, v: Vector) -> bool {
    ||| v.y == -s.y && (v.x == s.x || v.x == -s.x) && (v.z == s.z || v.z == -s.z)
    ||| v == Vector::new(s.x, s.y, -s.z)
}

/// A corner of the corner wedge lies on or behind each of its faces.
proof fn lemma_corner_point(s: Vector, v: Vector, i: int)
    requires
        s.x >= 0 && s.y >= 0 && s.z >= 0,
        corner_point(s, v),
        0 <= i < 5,
    ensures
        v.within_box(s),
        corner_facets(s)[i].normal.dot(v) <= corner_facets(s)[i].normal.dot(
            corner_facets(s)[i].corners[0],
        ),
        corner_facets(s)[i].corners.len() >= 3,
{
    lemma_signed_products(s.y, s.z);
    lemma_signed_products(s.x, s.y);
    let f = corner_facets(s)[i];
    lemma_dot_simple(f.normal, v);
    lemma_dot_simple(f.normal, f.corners[0]);
    assert(i == 0 || i == 1 || i == 2 || i == 3 || i == 4);
}

/// Each corner of each face of the corner wedge is a corner of the corner
/// wedge and lies on the plane of the face.
proof fn lemma_corner_corner(s: Vector, j: int, k: int)
    requires
        s.x >= 0 && s.y >= 0 && s.z >= 0,
        0 <= j < 5,
        0 <= k < corner_facets(s)[j].corners.len(),
    ensures
        corner_point(s, corner_facets(s)[j].corners[k]),
        corner_facets(s)[j].normal.dot(corner_facets(s)[j].corners[k]) == corner_facets(
            s,
        )[j].normal.dot(corner_facets(s)[j].corners[0]),
{
    let f = corner_facets(s)[j];
    lemma_signed_products(s.y, s.z);
    lemma_signed_products(s.x, s.y);
    lemma_dot_simple(f.normal, f.corners[k]);
    lemma_dot_simple(f.normal, f.corners[0]);
    assert(j == 0 || j == 1 || j == 2 || j == 3 || j == 4);
    assert(k == 0 || k == 1 || k == 2 || k == 3);
}

/// A corner wedge is a closed convex solid in its bounding box.
pub proof fn lemma_corner_closed(s: Vector)
    requires
        s.x >= 0 && s.y >= 0 && s.z >= 0,
    ensures
        facets_closed(corner_facets(s)),
        facets_inside(corner_facets(s), s),
{
    let fs = corner_facets(s);
    lemma_signed_products(s.y, s.z);
    lemma_signed_products(s.x, s.y);
    assert forall|j: int, k: int| 0 <= j < fs.len() && 0 <= k < fs[j].corners.len() implies corner_point(
        s,
        #[trigger] fs[j].corners[k],
    ) && fs[j].normal.dot(fs[j].corners[k]) == fs[j].normal.dot(fs[j].corners[0]) by {
        lemma_corner_corner(s, j, k);
    }
    assert forall|j: int, k: int| 0 <= j < fs.len() && 0 <= k < fs[j].corners.len() implies (
    #[trigger] fs[j].corners[k]).within_box(s) by {
        lemma_corner_point(s, fs[j].corners[k], 0);
    }
    assert forall|i: int| 0 <= i < fs.len() implies (#[trigger] fs[i]).corners.len() >= 3 by {
        lemma_corner_point(s, fs[0].corners[0], i);
    }
    assert forall|i: int, j: int, k: int|
        0 <= i < fs.len() && 0 <= j < fs.len() && 0 <= k < fs[j].corners.len() implies (
    #[trigger] fs[i]).normal.dot(#[trigger] fs[j].corners[k]) <= fs[i].normal.dot(
        fs[i].corners[0],
    ) by {
        lemma_corner_point(s, fs[j].corners[k], i);
    }
}

/// The point is a corner of the eight-sided prism for the size `s`.
pub open spec fn round_point(s: Vector, v: Vector) -> bool {
    let (b, c) = (s.y, s.z);
    let (p, q) = (inset(b), inset(c));
    &&& v.x == s.x || v.x == -s.x
    &&& ((v.y == b || v.y == -b) && (v.z == q || v.z == -q)) || ((v.y == p || v.y == -p) && (v.z
        == c || v.z == -c))
}

/// A scalar product in the plane is at most the product of the bounds.
proof fn lemma_bounded_dot(ny: int, nz: int, y: int, z: int, k: int, l: int, b: int, c: int)
    by (nonlinear_arith)
    requires
        -k <= ny <= k,
        -l <= nz <= l,
        -b <= y <= b,
        -c <= z <= c,
    ensures
        ny * y + nz * z <= k * b + l * c,
{
}

/// The two ends of a slanted side of the outline lie on one line.
proof fn lemma_slant(b: int, c: int, p: int, q: int)
    by (nonlinear_arith)
    ensures
        (c - q) * b + (b - p) * q == (c - q) * p + (b - p) * c,
{
}

/// A corner of the eight-sided prism lies on or behind each of its faces.
proof fn lemma_round_point(s: Vector, v: Vector, i: int)
    requires
        s.x >= 0 && s.y >= 0 && s.z >= 0,
        round_point(s, v),
        0 <= i < 10,
    ensures
        v.within_box(s),
        round_facet(s, i).normal.dot(v) <= round_facet(s, i).normal.dot(round_facet(s, i).corners[0]),
        round_facet(s, i).corners.len() >= 3,
{
    let (b, c) = (s.y, s.z);
    let (p, q) = (inset(b), inset(c));
    let (k, l) = (c - q, b - p);
    let f = round_facet(s, i);
    let n = f.normal;
    let o = f.corners[0];
    lemma_dot_simple(n, v);
    lemma_dot_simple(n, o);
    lemma_slant(b, c, p, q);
    lemma_signed_products(k, b);
    lemma_signed_products(k, p);
    lemma_signed_products(l, q);
    lemma_signed_products(l, c);
    if i == 1 || i == 3 || i == 5 || i == 7 {
        if (v.y == b || v.y == -b) && (v.z == q || v.z == -q) {
            lemma_bounded_dot(n.y, n.z, v.y, v.z, k, l, b, q);
        } else {
            lemma_bounded_dot(n.y, n.z, v.y, v.z, k, l, p, c);
        }
    }
    assert(i == 0 || i == 1 || i == 2 || i == 3 || i == 4 || i == 5 || i == 6 || i == 7 || i == 8
        || i == 9);
}

/// Each corner of each face of the eight-sided prism is a corner of the
/// prism and lies on the plane of the face.
proof fn lemma_round_corner(s: Vector, j: int, k: int)
    requires
        s.x >= 0 && s.y >= 0 && s.z >= 0,
        0 <= j < 10,
        0 <= k < round_facet(s, j).corners.len(),
    ensures
        round_point(s, round_facet(s, j).corners[k]),
        round_facet(s, j).normal.dot(round_facet(s, j).corners[k]) == round_facet(s, j).normal.dot(
            round_facet(s, j).corners[0],
        ),
{
    let f = round_facet(s, j);
    let (b, c) = (s.y, s.z);
    let (p, q) = (inset(b), inset(c));
    lemma_slant(b, c, p, q);
    lemma_signed_products(c - q, b);
    lemma_signed_products(c - q, p);
    lemma_signed_products(b - p, q);
    lemma_signed_products(b - p, c);
    lemma_dot_simple(f.normal, f.corners[k]);
    lemma_dot_simple(f.normal, f.corners[0]);
    assert(j == 0 || j == 1 || j == 2 || j == 3 || j == 4 || j == 5 || j == 6 || j == 7 || j == 8
        || j == 9);
    assert(k == 0 || k == 1 || k == 2 || k == 3 || k == 4 || k == 5 || k == 6 || k == 7);
}

/// The eight-sided prism is a closed convex solid in its bounding box.
pub proof fn lemma_round_closed(s: Vector)
    requires
        s.x >= 0 && s.y >= 0 && s.z >= 0,
    ensures
        facets_closed(round_facets(s)),
        facets_inside(round_facets(s), s),
{
    let fs = round_facets(s);
    let (b, c) = (s.y, s.z);
    let (p, q) = (inset(b), inset(c));
    let (k, l) = (c - q, b - p);
    lemma_slant(b, c, p, q);
    lemma_signed_products(k, b);
    lemma_signed_products(k, p);
    lemma_signed_products(l, q);
    lemma_signed_products(l, c);
    assert forall|j: int, k: int| 0 <= j < fs.len() && 0 <= k < fs[j].corners.len() implies round_point(
        s,
        #[trigger] fs[j].corners[k],
    ) && fs[j].normal.dot(fs[j].corners[k]) == fs[j].normal.dot(fs[j].corners[0]) by {
        lemma_round_corner(s, j, k);
    }
    assert forall|j: int, k: int| 0 <= j < fs.len() && 0 <= k < fs[j].corners.len() implies (
    #[trigger] fs[j].corners[k]).within_box(s) by {
        lemma_round_point(s, fs[j].corners[k], 0);
    }
    assert forall|i: int| 0 <= i < fs.len() implies (#[trigger] fs[i]).corners.len() >= 3 by {
        lemma_round_point(s, fs[0].corners[0], i);
    }
    assert forall|i: int, j: int, k: int|
        0 <= i < fs.len() && 0 <= j < fs.len() && 0 <= k < fs[j].corners.len() implies (
    #[trigger] fs[i]).normal.dot(#[trigger] fs[j].corners[k]) <= fs[i].normal.dot(
        fs[i].corners[0],
    ) by {
        lemma_round_point(s, fs[j].corners[k], i);
    }
}

/// How the first three corners of a facet turn about its normal: positive
/// where they run clockwise for one who looks at the facet against its normal.
pub open spec fn facet_turning(f: FacetModel) -> int {
    f.normal.dot(f.corners[2].minus(f.corners[0]).cross(f.corners[1].minus(f.corners[0])))
}

/// The corners of every facet run clockwise about its normal.
pub open spec fn facets_oriented(fs: Seq<FacetModel>) -> bool {
    forall|i: int|
        0 <= i < fs.len() ==> (#[trigger] fs[i]).corners.len() >= 3 && facet_turning(fs[i]) > 0
}

/// The sign of a product of two numbers.
proof fn lemma_sign_of_product(x: int, y: int)
    by (nonlinear_arith)
    ensures
        x == 0 || y == 0 ==> x * y == 0,
        (x > 0 && y > 0) || (x < 0 && y < 0) ==> x * y > 0,
        (x > 0 && y < 0) || (x < 0 && y > 0) ==> x * y < 0,
{
}

/// The signs of the products that make up the turning of three corners
/// about a normal.
proof fn lemma_turning_signs(n: Vector, a: Vector, b: Vector)
    ensures
        n.dot(a.cross(b)) == n.x * (a.y * b.z - a.z * b.y) + n.y * (a.z * b.x - a.x * b.z) + n.z * (
        a.x * b.y - a.y * b.x),
        n.x == 0 ==> n.x * (a.y * b.z - a.z * b.y) == 0,
        n.y == 0 ==> n.y * (a.z * b.x - a.x * b.z) == 0,
        n.z == 0 ==> n.z * (a.x * b.y - a.y * b.x) == 0,
        (n.x > 0 && a.y * b.z - a.z * b.y > 0) || (n.x < 0 && a.y * b.z - a.z * b.y < 0) ==> n.x * (
        a.y * b.z - a.z * b.y) > 0,
        (n.y > 0 && a.z * b.x - a.x * b.z > 0) || (n.y < 0 && a.z * b.x - a.x * b.z < 0) ==> n.y * (
        a.z * b.x - a.x * b.z) > 0,
        (n.z > 0 && a.x * b.y - a.y * b.x > 0) || (n.z < 0 && a.x * b.y - a.y * b.x < 0) ==> n.z * (
        a.x * b.y - a.y * b.x) > 0,
        a.y == 0 || b.z == 0 ==> a.y * b.z == 0,
        a.z == 0 || b.y == 0 ==> a.z * b.y == 0,
        a.z == 0 || b.x == 0 ==> a.z * b.x == 0,
        a.x == 0 || b.z == 0 ==> a.x * b.z == 0,
        a.x == 0 || b.y == 0 ==> a.x * b.y == 0,
        a.y == 0 || b.x == 0 ==> a.y * b.x == 0,
        (a.y > 0 && b.z > 0) || (a.y < 0 && b.z < 0) ==> a.y * b.z > 0,
        (a.z > 0 && b.y > 0) || (a.z < 0 && b.y < 0) ==> a.z * b.y > 0,
        (a.z > 0 && b.x > 0) || (a.z < 0 && b.x < 0) ==> a.z * b.x > 0,
        (a.x > 0 && b.z > 0) || (a.x < 0 && b.z < 0) ==> a.x * b.z > 0,
        (a.x > 0 && b.y > 0) || (a.x < 0 && b.y < 0) ==> a.x * b.y > 0,
        (a.y > 0 && b.x > 0) || (a.y < 0 && b.x < 0) ==> a.y * b.x > 0,
        (a.y > 0 && b.z < 0) || (a.y < 0 && b.z > 0) ==> a.y * b.z < 0,
        (a.z > 0 && b.y < 0) || (a.z < 0 && b.y > 0) ==> a.z * b.y < 0,
        (a.z > 0 && b.x < 0) || (a.z < 0 && b.x > 0) ==> a.z * b.x < 0,
        (a.x > 0 && b.z < 0) || (a.x < 0 && b.z > 0) ==> a.x * b.z < 0,
        (a.x > 0 && b.y < 0) || (a.x < 0 && b.y > 0) ==> a.x * b.y < 0,
        (a.y > 0 && b.x < 0) || (a.y < 0 && b.x > 0) ==> a.y * b.x < 0,
{
    lemma_sign_of_product(a.y, b.z);
    lemma_sign_of_product(a.z, b.y);
    lemma_sign_of_product(a.z, b.x);
    lemma_sign_of_product(a.x, b.z);
    lemma_sign_of_product(a.x, b.y);
    lemma_sign_of_product(a.y, b.x);
    lemma_sign_of_product(n.x, a.y * b.z - a.z * b.y);
    lemma_sign_of_product(n.y, a.z * b.x - a.x * b.z);
    lemma_sign_of_product(n.z, a.x * b.y - a.y * b.x);
}

/// The corners of the faces of a wedge run clockwise.
pub proof fn lemma_wedge_oriented(s: Vector)
    requires
        s.x > 0 && s.y > 0 && s.z > 0,
    ensures
        facets_oriented(wedge_facets(s)),
{
    let fs = wedge_facets(s);
    assert forall|i: int| 0 <= i < fs.len() implies (#[trigger] fs[i]).corners.len() >= 3
        && facet_turning(fs[i]) > 0 by {
        lemma_wedge_face_oriented(s, i);
    }
}

proof fn lemma_wedge_face_oriented(s: Vector, i: int)
    requires
        s.x > 0 && s.y > 0 && s.z > 0,
        0 <= i < 5,
    ensures
        wedge_facets(s)[i].corners.len() >= 3,
        facet_turning(wedge_facets(s)[i]) > 0,
{
    let f = wedge_facets(s)[i];
    lemma_turning_signs(
        f.normal,
        f.corners[2].minus(f.corners[0]),
        f.corners[1].minus(f.corners[0]),
    );
    assert(i == 0 || i == 1 || i == 2 || i == 3 || i == 4);
}

/// The corners of the faces of a corner wedge run clockwise.
pub proof fn lemma_corner_oriented(s: Vector)
    requires
        s.x > 0 && s.y > 0 && s.z > 0,
    ensures
        facets_oriented(corner_facets(s)),
{
    let fs = corner_facets(s);
    assert forall|i: int| 0 <= i < fs.len() implies (#[trigger] fs[i]).corners.len() >= 3
        && facet_turning(fs[i]) > 0 by {
        lemma_corner_face_oriented(s, i);
    }
}

proof fn lemma_corner_face_oriented(s: Vector, i: int)
    requires
        s.x > 0 && s.y > 0 && s.z > 0,
        0 <= i < 5,
    ensures
        corner_facets(s)[i].corners.len() >= 3,
        facet_turning(corner_facets(s)[i]) > 0,
{
    let f = corner_facets(s)[i];
    lemma_turning_signs(
        f.normal,
        f.corners[2].minus(f.corners[0]),
        f.corners[1].minus(f.corners[0]),
    );
    assert(i == 0 || i == 1 || i == 2 || i == 3 || i == 4);
}

/// The corners of the faces of the eight-sided prism run clockwise, if the
/// part is wide enough for the outline to have eight corners.
pub proof fn lemma_round_oriented(s: Vector)
    requires
        s.x > 0 && s.y >= 3 && s.z >= 3,
    ensures
        facets_oriented(round_facets(s)),
{
    let fs = round_facets(s);
    assert forall|i: int| 0 <= i < fs.len() implies (#[trigger] fs[i]).corners.len() >= 3
        && facet_turning(fs[i]) > 0 by {
        lemma_round_face_oriented(s, i);
    }
}

proof fn lemma_round_face_oriented(s: Vector, i: int)
    requires
        s.x > 0 && s.y >= 3 && s.z >= 3,
        0 <= i < 10,
    ensures
        round_facet(s, i).corners.len() >= 3,
        facet_turning(round_facet(s, i)) > 0,
{
    let f = round_facet(s, i);
    assert(0 < inset(s.y) < s.y && 0 < inset(s.z) < s.z);
    lemma_turning_signs(
        f.normal,
        f.corners[2].minus(f.corners[0]),
        f.corners[1].minus(f.corners[0]),
    );
    assert(i == 0 || i == 1 || i == 2 || i == 3 || i == 4 || i == 5 || i == 6 || i == 7 || i == 8
        || i == 9);
}

/// Turning the solid keeps the corners of its faces running clockwise.
pub proof fn lemma_turned_oriented(fs: Seq<FacetModel>, q: Rotation)
    requires
        facets_oriented(fs),
        q.orthonormal(),
    ensures
        facets_oriented(Seq::new(fs.len(), |k: int| turned_facet(fs[k], q))),
{
    let ts = Seq::new(fs.len(), |k: int| turned_facet(fs[k], q));
    assert forall|i: int| 0 <= i < ts.len() implies (#[trigger] ts[i]).corners.len() >= 3
        && facet_turning(ts[i]) > 0 by {
        let f = fs[i];
        assert(f.corners.len() >= 3 && facet_turning(f) > 0);
        lemma_turned_turning(f.normal, f.corners[0], f.corners[1], f.corners[2], q);
    }
}

/// A rotation keeps the turning of three corners about a normal.
pub proof fn lemma_turned_turning(n: Vector, c0: Vector, c1: Vector, c2: Vector, q: Rotation)
    requires
        q.orthonormal(),
    ensures
        q.apply(n).dot(q.apply(c2).minus(q.apply(c0)).cross(q.apply(c1).minus(q.apply(c0))))
            == n.dot(c2.minus(c0).cross(c1.minus(c0))),
{
    lemma_rotation_keeps_differences(q, c2, c0);
    lemma_rotation_keeps_differences(q, c1, c0);
    lemma_rotation_keeps_cross(q, c2.minus(c0), c1.minus(c0));
    lemma_rotation_keeps_dot(q, n, c2.minus(c0).cross(c1.minus(c0)));
}

/// The corners of the faces of the upright prism for a ball run clockwise,
/// if the part is wide enough for the outline to have eight corners.
pub proof fn lemma_ball_oriented(s: Vector)
    requires
        s.y > 0 && s.x >= 3 && s.z >= 3,
    ensures
        facets_oriented(ball_facets(s)),
{
    let lying = Vector::new(s.y, s.z, s.x);
    let fs = round_facets(lying);
    lemma_round_oriented(lying);
    lemma_turned_oriented(fs, upright());
    assert(ball_facets(s) =~= Seq::new(fs.len(), |k: int| turned_facet(fs[k], upright())));
}

/// The normal and the corners of the facet have coordinates of magnitude at most `limit`.
pub open spec fn facet_bounded(f: FacetModel, limit: int) -> bool {
    &&& f.normal.within(limit)
    &&& forall|k: int| 0 <= k < f.corners.len() ==> (#[trigger] f.corners[k]).within(limit)
}

/// Turning the solid keeps it closed and convex.
pub proof fn lemma_turned_closed(fs: Seq<FacetModel>, q: Rotation)
    requires
        facets_closed(fs),
        q.orthonormal(),
    ensures
        facets_closed(Seq::new(fs.len(), |k: int| turned_facet(fs[k], q))),
{
    let ts = Seq::new(fs.len(), |k: int| turned_facet(fs[k], q));
    assert forall|i: int, j: int, k: int|
        0 <= i < ts.len() && 0 <= j < ts.len() && 0 <= k < ts[j].corners.len() implies (
    #[trigger] ts[i]).normal.dot(#[trigger] ts[j].corners[k]) <= ts[i].normal.dot(
        ts[i].corners[0],
    ) && (i == j ==> ts[i].normal.dot(ts[j].corners[k]) == ts[i].normal.dot(ts[i].corners[0])) by {
        assert(fs[i].corners.len() >= 3);
        lemma_rotation_keeps_dot(q, fs[i].normal, fs[j].corners[k]);
        lemma_rotation_keeps_dot(q, fs[i].normal, fs[i].corners[0]);
        assert(fs[i].normal.dot(fs[j].corners[k]) <= fs[i].normal.dot(fs[i].corners[0]));
    }
    assert forall|i: int| 0 <= i < ts.len() implies (#[trigger] ts[i]).corners.len() >= 3 by {
        assert(fs[i].corners.len() >= 3);
    }
}

/// The upright prism for a ball is a closed convex solid in its bounding box.
pub proof fn lemma_ball_closed(s: Vector)
    requires
        s.x >= 0 && s.y >= 0 && s.z >= 0,
    ensures
        facets_closed(ball_facets(s)),
        facets_inside(ball_facets(s), s),
{
    let lying = Vector::new(s.y, s.z, s.x);
    let fs = round_facets(lying);
    lemma_round_closed(lying);
    lemma_turned_closed(fs, upright());
    assert(ball_facets(s) =~= Seq::new(fs.len(), |k: int| turned_facet(fs[k], upright())));
    let bs = ball_facets(s);
    assert forall|j: int, k: int| 0 <= j < bs.len() && 0 <= k < bs[j].corners.len() implies (
    #[trigger] bs[j].corners[k]).within_box(s) by {
        assert(fs[j].corners[k].within_box(lying));
    }
}

fn corner(x: i64, y: i64, z: i64) -> (v: Vec3)
    ensures
        v@ == Vector::new(x as int, y as int, z as int),
{
    Vec3 { x, y, z }
}

/// The faces of a wedge of size `s`.
pub fn wedge(s: &Vec3) -> (fs: Vec<Facet>)
    requires
        s.x > 0 && s.y > 0 && s.z > 0,
    ensures
        facet_models(fs@) == wedge_facets(s@),
{
    let (a, b, c) = (s.x, s.y, s.z);
    let (na, nb, nc) = (-a, -b, -c);
    let fs: Vec<Facet> = vec![
        Facet {
            normal: corner(0, -1, 0),
            corners: vec![corner(na, nb, nc), corner(na, nb, c), corner(a, nb, c), corner(a, nb, nc)],
            side: Direction::NegY,
        },
        Facet {
            normal: corner(0, 0, 1),
            corners: vec![corner(na, b, c), corner(a, b, c), corner(a, nb, c), corner(na, nb, c)],
            side: Direction::PosZ,
        },
        Facet {
            normal: corner(0, c, nb),
            corners: vec![corner(na, nb, nc), corner(a, nb, nc), corner(a, b, c), corner(na, b, c)],
            side: Direction::PosY,
        },
        Facet {
            normal: corner(-1, 0, 0),
            corners: vec![corner(na, nb, nc), corner(na, b, c), corner(na, nb, c)],
            side: Direction::NegX,
        },
        Facet {
            normal: corner(1, 0, 0),
            corners: vec![corner(a, nb, c), corner(a, b, c), corner(a, nb, nc)],
            side: Direction::PosX,
        },
    ];
    proof {
        let want = wedge_facets(s@);
        assert(fs@.len() == 5);
        assert(fs[0]@.corners =~= want[0].corners);
        assert(fs[1]@.corners =~= want[1].corners);
        assert(fs[2]@.corners =~= want[2].corners);
        assert(fs[3]@.corners =~= want[3].corners);
        assert(fs[4]@.corners =~= want[4].corners);
        assert(facet_models(fs@) =~= want);
    }
    fs
}

/// The faces of a corner wedge of size `s`.
pub fn corner_wedge(s: &Vec3) -> (fs: Vec<Facet>)
    requires
        s.x > 0 && s.y > 0 && s.z > 0,
    ensures
        facet_models(fs@) == corner_facets(s@),
{
    let (a, b, c) = (s.x, s.y, s.z);
    let (na, nb, nc) = (-a, -b, -c);
    let fs: Vec<Facet> = vec![
        Facet {
            normal: corner(0, -1, 0),
            corners: vec![corner(na, nb, nc), corner(na, nb, c), corner(a, nb, c), corner(a, nb, nc)],
            side: Direction::NegY,
        },
        Facet {
            normal: corner(1, 0, 0),
            corners: vec![corner(a, nb, c), corner(a, b, nc), corner(a, nb, nc)],
            side: Direction::PosX,
        },
        Facet {
            normal: corner(0, 0, -1),
            corners: vec![corner(na, nb, nc), corner(a, nb, nc), corner(a, b, nc)],
            side: Direction::NegZ,
        },
        Facet {
            normal: corner(0, c, b),
            corners: vec![corner(a, nb, c), corner(na, nb, c), corner(a, b, nc)],
            side: Direction::PosZ,
        },
        Facet {
            normal: corner(nb, a, 0),
            corners: vec![corner(na, nb, c), corner(na, nb, nc), corner(a, b, nc)],
            side: Direction::NegX,
        },
    ];
    proof {
        let want = corner_facets(s@);
        assert(fs@.len() == 5);
        assert(fs[0]@.corners =~= want[0].corners);
        assert(fs[1]@.corners =~= want[1].corners);
        assert(fs[2]@.corners =~= want[2].corners);
        assert(fs[3]@.corners =~= want[3].corners);
        assert(fs[4]@.corners =~= want[4].corners);
        assert(facet_models(fs@) =~= want);
    }
    fs
}

fn outline_at(s: &Vec3, i: usize) -> (v: (i64, i64))
    requires
        0 < s.y <= 1_000_000_000_000 && 0 < s.z <= 1_000_000_000_000,
        i < 8,
    ensures
        (v.0 as int, v.1 as int) == outline(s@, i as int),
{
    let (b, c) = (s.y, s.z);
    let (p, q) = (b * 29 / 70, c * 29 / 70);
    if i == 0 {
        (b, -q)
    } else if i == 1 {
        (b, q)
    } else if i == 2 {
        (p, c)
    } else if i == 3 {
        (-p, c)
    } else if i == 4 {
        (-b, q)
    } else if i == 5 {
        (-b, -q)
    } else if i == 6 {
        (-p, -c)
    } else {
        (p, -c)
    }
}

fn outline_normal_at(s: &Vec3, i: usize) -> (v: (i64, i64))
    requires
        0 < s.y <= 1_000_000_000_000 && 0 < s.z <= 1_000_000_000_000,
        i < 8,
    ensures
        (v.0 as int, v.1 as int) == outline_normal(s@, i as int),
{
    let (b, c) = (s.y, s.z);
    let (p, q) = (b * 29 / 70, c * 29 / 70);
    if i == 0 {
        (1, 0)
    } else if i == 1 {
        (c - q, b - p)
    } else if i == 2 {
        (0, 1)
    } else if i == 3 {
        (-(c - q), b - p)
    } else if i == 4 {
        (-1, 0)
    } else if i == 5 {
        (-(c - q), -(b - p))
    } else if i == 6 {
        (0, -1)
    } else {
        (c - q, -(b - p))
    }
}

fn outline_side_at(i: usize) -> (d: Direction)
    ensures
        d == outline_side(i as int),
{
    if i == 0 {
        Direction::PosY
    } else if 1 <= i && i <= 3 {
        Direction::PosZ
    } else if i == 4 {
        Direction::NegY
    } else {
        Direction::NegZ
    }
}

/// The outline at one end of the prism, forwards or backwards.
fn outline_ring(s: &Vec3, x: i64, backwards: bool) -> (ring: Vec<Vec3>)
    requires
        0 < s.y <= 1_000_000_000_000 && 0 < s.z <= 1_000_000_000_000,
    ensures
        ring.len() == 8,
        forall|i: int|
            0 <= i < 8 ==> (#[trigger] ring[i])@ == Vector::new(
                x as int,
                outline(s@, if backwards { 7 - i } else { i }).0,
                outline(s@, if backwards { 7 - i } else { i }).1,
            ),
{
    let mut ring: Vec<Vec3> = Vec::new();
    let mut i: usize = 0;
    while i < 8
        invariant
            i <= 8,
            ring.len() == i,
            0 < s.y <= 1_000_000_000_000 && 0 < s.z <= 1_000_000_000_000,
            forall|j: int|
                0 <= j < i ==> (#[trigger] ring[j])@ == Vector::new(
                    x as int,
                    outline(s@, if backwards { 7 - j } else { j }).0,
                    outline(s@, if backwards { 7 - j } else { j }).1,
                ),
        decreases 8 - i,
    {
        let (y, z) = outline_at(s, if backwards { 7 - i } else { i });
        ring.push(corner(x, y, z));
        i += 1;
    }
    ring
}

/// The face at place `k` of the eight-sided prism for the size `s`.
fn round_facet_at(s: &Vec3, k: usize) -> (f: Facet)
    requires
        0 < s.x <= 1_000_000_000_000,
        0 < s.y <= 1_000_000_000_000 && 0 < s.z <= 1_000_000_000_000,
        k < 10,
    ensures
        f@ == round_facet(s@, k as int),
{
    let a: i64 = s.x;
    if k < 8 {
        let (y0, z0) = outline_at(s, k);
        let (y1, z1) = outline_at(s, (k + 1) % 8);
        let (ny, nz) = outline_normal_at(s, k);
        let na: i64 = -a;
        let f: Facet = Facet {
            normal: corner(0, ny, nz),
            corners: vec![corner(a, y0, z0), corner(a, y1, z1), corner(na, y1, z1), corner(na, y0, z0)],
            side: outline_side_at(k),
        };
        assert(f@.corners =~= round_facet(s@, k as int).corners);
        f
    } else if k == 8 {
        let f: Facet = Facet {
            normal: corner(1, 0, 0),
            corners: outline_ring(s, a, true),
            side: Direction::PosX,
        };
        assert(f@.corners =~= round_facet(s@, k as int).corners);
        f
    } else {
        let f: Facet = Facet {
            normal: corner(-1, 0, 0),
            corners: outline_ring(s, -a, false),
            side: Direction::NegX,
        };
        assert(f@.corners =~= round_facet(s@, k as int).corners);
        f
    }
}

/// The faces of the eight-sided prism along the first axis for the size `s`.
pub fn round(s: &Vec3) -> (fs: Vec<Facet>)
    requires
        0 < s.x <= 1_000_000_000_000,
        0 < s.y <= 1_000_000_000_000 && 0 < s.z <= 1_000_000_000_000,
    ensures
        facet_models(fs@) == round_facets(s@),
{
    let mut fs: Vec<Facet> = Vec::new();
    let mut k: usize = 0;
    while k < 10
        invariant
            k <= 10,
            fs.len() == k,
            0 < s.x <= 1_000_000_000_000,
            0 < s.y <= 1_000_000_000_000 && 0 < s.z <= 1_000_000_000_000,
            forall|i: int| 0 <= i < k ==> (#[trigger] fs[i])@ == round_facet(s@, i),
        decreases 10 - k,
    {
        fs.push(round_facet_at(s, k));
        k += 1;
    }
    assert(facet_models(fs@) =~= round_facets(s@));
    fs
}

/// A facet turned by a rotation.
pub fn turn_facet(f: &Facet, q: &Rotation) -> (t: Facet)
    requires
        q.orthonormal(),
        facet_bounded(f@, 1_000_000_000_000),
    ensures
        t@ == turned_facet(f@, *q),
{
    let mut corners: Vec<Vec3> = Vec::new();
    let mut i: usize = 0;
    while i < f.corners.len()
        invariant
            i <= f.corners.len(),
            corners.len() == i,
            q.orthonormal(),
            facet_bounded(f@, 1_000_000_000_000),
            forall|j: int| 0 <= j < i ==> (#[trigger] corners[j])@ == q.apply(f.corners[j]@),
        decreases f.corners.len() - i,
    {
        assert(f@.corners[i as int] == f.corners[i as int]@);
        corners.push(q.rotate(f.corners[i]));
        i += 1;
    }
    let t: Facet = Facet { normal: q.rotate(f.normal), corners, side: q.turn_direction(f.side) };
    assert(t@.corners =~= turned_facet(f@, *q).corners);
    t
}

/// The faces of the eight-sided upright prism for a ball of size `s`.
pub fn ball(s: &Vec3) -> (fs: Vec<Facet>)
    requires
        0 < s.x <= 1_000_000_000_000,
        0 < s.y <= 1_000_000_000_000 && 0 < s.z <= 1_000_000_000_000,
    ensures
        facet_models(fs@) == ball_facets(s@),
{
    let lying: Vec3 = corner(s.y, s.z, s.x);
    let q: Rotation = Rotation {
        x_image: Direction::PosY,
        y_image: Direction::PosZ,
        z_image: Direction::PosX,
    };
    let flat: Vec<Facet> = round(&lying);
    assert(flat.len() == facet_models(flat@).len() == 10);
    let mut fs: Vec<Facet> = Vec::new();
    let mut k: usize = 0;
    while k < 10
        invariant
            k <= 10,
            fs.len() == k,
            flat.len() == 10,
            q == upright(),
            0 < s.x <= 1_000_000_000_000,
            0 < s.y <= 1_000_000_000_000 && 0 < s.z <= 1_000_000_000_000,
            lying@ == Vector::new(s.y as int, s.z as int, s.x as int),
            facet_models(flat@) == round_facets(lying@),
            forall|i: int|
                0 <= i < k ==> (#[trigger] fs[i])@ == turned_facet(round_facet(lying@, i), upright()),
        decreases 10 - k,
    {
        proof {
            assert(flat[k as int]@ == facet_models(flat@)[k as int]);
            lemma_round_bounded(lying@, k as int);
        }
        fs.push(turn_facet(&flat[k], &q));
        k += 1;
    }
    assert(facet_models(fs@) =~= ball_facets(s@));
    fs
}

/// The faces of the eight-sided prism have coordinates no larger than the size.
pub proof fn lemma_round_bounded(s: Vector, k: int)
    requires
        s.x >= 0 && s.y >= 0 && s.z >= 0,
        s.within(1_000_000_000_000),
        0 <= k < 10,
    ensures
        facet_bounded(round_facet(s, k), 1_000_000_000_000),
{
    lemma_round_closed(s);
    let fs = round_facets(s);
    assert(fs[k] == round_facet(s, k));
    assert forall|i: int| 0 <= i < fs[k].corners.len() implies (#[trigger] fs[k].corners[i]).within(
        1_000_000_000_000,
    ) by {
        assert(fs[k].corners[i].within_box(s));
    }
}

} // verus!
