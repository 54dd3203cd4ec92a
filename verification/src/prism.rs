//! Axis-aligned rectangular prisms as brushes.

use vstd::prelude::*;
use crate::brush::{face_models, fan, cones, vectors, Brush, BrushModel, Color, Face, FaceModel};
use crate::geometry::{
    lemma_dot_simple, lemma_signs, lemma_zero_products, Axis, Direction, Extent, Region, Vec3,
    Vector,
};
use crate::texture::{TextureAxis, TextureRef, TextureSet};

verus! {

/// The direction that the face at place `k` of a prism looks in.
pub open spec fn side(k: int) -> Direction {
    if k == 0 {
        Direction::PosX
    } else if k == 1 {
        Direction::NegX
    } else if k == 2 {
        Direction::PosY
    } else if k == 3 {
        Direction::NegY
    } else if k == 4 {
        Direction::PosZ
    } else {
        Direction::NegZ
    }
}

/// The four corners of the side of a box that looks in direction `d`, in
/// clockwise order for one who looks at the side from outside the box.
pub open spec fn corners(r: Region, d: Direction) -> Seq<Vector> {
    let (l, h) = (r.low, r.high);
    match d {
        Direction::PosX => seq![
            Vector::new(h.x, l.y, h.z),
            Vector::new(h.x, h.y, h.z),
            Vector::new(h.x, h.y, l.z),
            Vector::new(h.x, l.y, l.z),
        ],
        Direction::NegX => seq![
            Vector::new(l.x, l.y, l.z),
            Vector::new(l.x, h.y, l.z),
            Vector::new(l.x, h.y, h.z),
            Vector::new(l.x, l.y, h.z),
        ],
        Direction::PosY => seq![
            Vector::new(h.x, h.y, l.z),
            Vector::new(h.x, h.y, h.z),
            Vector::new(l.x, h.y, h.z),
            Vector::new(l.x, h.y, l.z),
        ],
        Direction::NegY => seq![
            Vector::new(l.x, l.y, l.z),
            Vector::new(l.x, l.y, h.z),
            Vector::new(h.x, l.y, h.z),
            Vector::new(h.x, l.y, l.z),
        ],
        Direction::PosZ => seq![
            Vector::new(l.x, h.y, h.z),
            Vector::new(h.x, h.y, h.z),
            Vector::new(h.x, l.y, h.z),
            Vector::new(l.x, l.y, h.z),
        ],
        Direction::NegZ => seq![
            Vector::new(l.x, l.y, l.z),
            Vector::new(h.x, l.y, l.z),
            Vector::new(h.x, h.y, l.z),
            Vector::new(l.x, h.y, l.z),
        ],
    }
}

/// The scalar product of the unit vector along `d` with the points of the
/// side of a box that looks in direction `d`.
pub open spec fn plane_offset(r: Region, d: Direction) -> int {
    if d.is_positive() {
        r.bound(d)
    } else {
        -r.bound(d)
    }
}

/// The side of a box that looks in direction `d`, as a face with the given texture.
pub open spec fn prism_face(
    r: Region,
    d: Direction,
    texture: TextureRef,
    u_axis: TextureAxis,
    v_axis: TextureAxis,
) -> FaceModel {
    FaceModel {
        normal: d.unit(),
        offset: plane_offset(r, d),
        vertices: corners(r, d),
        texture,
        u_axis,
        v_axis,
    }
}

/// The brush has the six sides of the box `r` as its faces, in the order of [`side`].
pub open spec fn is_prism(b: BrushModel, r: Region) -> bool {
    &&& b.faces.len() == 6
    &&& forall|k: int|
        0 <= k < 6 ==> #[trigger] b.faces[k] == prism_face(
            r,
            side(k),
            b.faces[k].texture,
            b.faces[k].u_axis,
            b.faces[k].v_axis,
        )
}

/// The prism that fills the box `r` and shows on each side what `b` shows there.
pub open spec fn reshaped(b: BrushModel, r: Region) -> BrushModel {
    BrushModel {
        faces: Seq::new(
            6,
            |k: int|
                prism_face(r, side(k), b.faces[k].texture, b.faces[k].u_axis, b.faces[k].v_axis),
        ),
        color: b.color,
        transparency: b.transparency,
    }
}

/// The box that a prism of positive volume fills; nothing for any other brush.
pub open spec fn prism_region(b: BrushModel) -> Option<Region> {
    if b.faces.len() == 6 && b.faces[0].vertices.len() == 4 && b.faces[1].vertices.len() == 4 {
        let p = b.faces[0].vertices[0];
        let q = b.faces[0].vertices[2];
        let o = b.faces[1].vertices[0];
        let r = Region { low: Vector::new(o.x, p.y, q.z), high: Vector::new(p.x, q.y, p.z) };
        if is_prism(b, r) && r.solid() {
            Some(r)
        } else {
            None
        }
    } else {
        None
    }
}

/// A brush has a box exactly if it is the prism of that box, and the box has
/// positive volume.
pub proof fn lemma_prism_region(b: BrushModel, r: Region)
    ensures
        prism_region(b) == Some(r) <==> is_prism(b, r) && r.solid(),
{
    if is_prism(b, r) {
        assert(b.faces[0].vertices =~= corners(r, side(0)));
        assert(b.faces[1].vertices =~= corners(r, side(1)));
    }
}

/// The scalar product with a unit vector along an axis picks a coordinate.
pub proof fn lemma_unit_dot(d: Direction, p: Vector)
    ensures
        d.unit().dot(p) == (if d.is_positive() {
            p.along(d.axis())
        } else {
            -p.along(d.axis())
        }),
{
    let u = d.unit();
    match d {
        Direction::PosX => {
            assert(u == Vector::new(1, 0, 0));
            assert(u.dot(p) == 1 * p.x + 0 * p.y + 0 * p.z);
        },
        Direction::NegX => {
            assert(u == Vector::new(-1, 0, 0));
        },
        Direction::PosY => {
            assert(u == Vector::new(0, 1, 0));
        },
        Direction::NegY => {
            assert(u == Vector::new(0, -1, 0));
        },
        Direction::PosZ => {
            assert(u == Vector::new(0, 0, 1));
        },
        Direction::NegZ => {
            assert(u == Vector::new(0, 0, -1));
        },
    }
}

/// The corners of a side of a box lie on the side's plane and in the box.
proof fn lemma_corners(r: Region, d: Direction, k: int)
    requires
        0 <= k < 4,
    ensures
        corners(r, d).len() == 4,
        d.unit().dot(corners(r, d)[k]) == plane_offset(r, d),
        r.low.le(r.high) ==> r.contains(corners(r, d)[k]),
{
    lemma_unit_dot(d, corners(r, d)[k]);
}

/// A prism is a closed convex solid that fills its box.
pub proof fn lemma_prism_closed(b: BrushModel, r: Region)
    requires
        is_prism(b, r),
        r.low.le(r.high),
    ensures
        b.closed(),
        b.inside(r.low, r.high),
{
    assert forall|i: int| 0 <= i < b.faces.len() implies (#[trigger] b.faces[i]).vertices.len() >= 3
        && b.faces[i].planar() by {
        let f = b.faces[i];
        lemma_corners(r, side(i), 0);
        assert forall|k: int| 0 <= k < f.vertices.len() implies f.normal.dot(
            #[trigger] f.vertices[k],
        ) == f.offset by {
            lemma_corners(r, side(i), k);
        }
    }
    assert forall|i: int, k: int|
        0 <= i < b.faces.len() && 0 <= k < b.faces[i].vertices.len() implies r.low.le(
        #[trigger] b.faces[i].vertices[k],
    ) && b.faces[i].vertices[k].le(r.high) by {
        lemma_corners(r, side(i), 0);
        lemma_corners(r, side(i), k);
    }
    assert forall|i: int, j: int, k: int|
        0 <= i < b.faces.len() && 0 <= j < b.faces.len() && 0 <= k
            < b.faces[j].vertices.len() implies (#[trigger] b.faces[i]).keeps(
        #[trigger] b.faces[j].vertices[k],
    ) by {
        let p = b.faces[j].vertices[k];
        assert(r.low.le(p) && p.le(r.high));
        lemma_unit_dot(side(i), p);
    }
}

pub proof fn lemma_positive_product(x: int, y: int)
    by (nonlinear_arith)
    requires
        x > 0,
        y > 0,
    ensures
        x * y > 0,
        y * x > 0,
{
}

/// The corners of each side of a box of positive volume run clockwise for
/// one who looks at the side from outside.
pub proof fn lemma_side_clockwise(
    r: Region,
    d: Direction,
    texture: TextureRef,
    u_axis: TextureAxis,
    v_axis: TextureAxis,
)
    requires
        r.solid(),
    ensures
        prism_face(r, d, texture, u_axis, v_axis).clockwise(),
{
    let f = prism_face(r, d, texture, u_axis, v_axis);
    let v = f.vertices;
    let a = v[2].minus(v[0]);
    let b = v[1].minus(v[0]);
    let c = a.cross(b);
    let (dx, dy, dz) = (r.size().x, r.size().y, r.size().z);
    lemma_dot_simple(f.normal, c);
    lemma_zero_products(a, b);
    lemma_zero_products(b, a);
    lemma_positive_product(dx, dy);
    lemma_positive_product(dx, dz);
    lemma_positive_product(dy, dz);
    lemma_signs(dx, dy);
    lemma_signs(dx, dz);
    lemma_signs(dy, dz);
    lemma_signs(dy, dx);
    lemma_signs(dz, dx);
    lemma_signs(dz, dy);
    match d {
        Direction::PosX => {
            assert(a == Vector::new(0, dy, -dz) && b == Vector::new(0, dy, 0));
            assert(c.x == dy * 0 - (-dz) * dy);
        },
        Direction::NegX => {
            assert(a == Vector::new(0, dy, dz) && b == Vector::new(0, dy, 0));
            assert(c.x == dy * 0 - dz * dy);
        },
        Direction::PosY => {
            assert(a == Vector::new(-dx, 0, dz) && b == Vector::new(0, 0, dz));
            assert(c.y == dz * 0 - (-dx) * dz);
        },
        Direction::NegY => {
            assert(a == Vector::new(dx, 0, dz) && b == Vector::new(0, 0, dz));
            assert(c.y == dz * 0 - dx * dz);
        },
        Direction::PosZ => {
            assert(a == Vector::new(dx, -dy, 0) && b == Vector::new(dx, 0, 0));
            assert(c.z == dx * 0 - (-dy) * dx);
        },
        Direction::NegZ => {
            assert(a == Vector::new(dx, dy, 0) && b == Vector::new(dx, 0, 0));
            assert(c.z == dx * 0 - dy * dx);
        },
    }
}

/// The corners of the faces of a prism of positive volume run clockwise.
pub proof fn lemma_prism_oriented(b: BrushModel, r: Region)
    requires
        is_prism(b, r),
        r.solid(),
    ensures
        b.oriented(),
{
    assert forall|i: int| 0 <= i < b.faces.len() implies (#[trigger] b.faces[i]).clockwise() by {
        lemma_side_clockwise(r, side(i), b.faces[i].texture, b.faces[i].u_axis, b.faces[i].v_axis);
    }
}

/// The volume of a prism is the volume of its box.
pub proof fn lemma_prism_volume(b: BrushModel, r: Region)
    requires
        is_prism(b, r),
    ensures
        b.volume6() == 6 * r.volume(),
{
    let (l, h) = (r.low, r.high);
    assert forall|i: int| 0 <= i < 6 implies (#[trigger] b.faces[i]).cone() == 2 * plane_offset(
        r,
        side(i),
    ) * face_area(r, side(i).axis()) by {
        let f = b.faces[i];
        let v = f.vertices;
        assert(v =~= corners(r, side(i)));
        reveal_with_fuel(fan, 5);
        lemma_side_cone(r, side(i));
    }
    reveal_with_fuel(cones, 7);
    let (dx, dy, dz) = (h.x - l.x, h.y - l.y, h.z - l.z);
    assert(2 * h.x * (dy * dz) + 2 * (-l.x) * (dy * dz) + 2 * h.y * (dx * dz) + 2 * (-l.y) * (dx
        * dz) + 2 * h.z * (dx * dy) + 2 * (-l.z) * (dx * dy) == 6 * (dx * dy * dz))
        by (nonlinear_arith)
        requires
            dx == h.x - l.x,
            dy == h.y - l.y,
            dz == h.z - l.z,
    ;
}

/// The area of the sides of a box that lie across `axis`.
pub open spec fn face_area(r: Region, axis: Axis) -> int {
    match axis {
        Axis::X => r.size().y * r.size().z,
        Axis::Y => r.size().x * r.size().z,
        Axis::Z => r.size().x * r.size().y,
    }
}

/// A product with a difference, and a product of two differences, written out.
proof fn lemma_expand(c: int, a: int, b: int, x: int, y: int)
    by (nonlinear_arith)
    ensures
        c * (a - b) == c * a - c * b,
        (a - b) * (x - y) == a * x - a * y - b * x + b * y,
        a * x == x * a,
        c * (a * x) == a * (c * x),
        c * (a * x) == x * (c * a),
        c * (a * x) == x * (a * c),
        c * (a * x) == a * (x * c),
        c * (a * x) == c * (x * a),
{
}

/// The triple product of three points with the same x coordinate.
proof fn lemma_triple_x(c: int, u0: int, w0: int, u1: int, w1: int, u2: int, w2: int)
    ensures
        Vector::new(c, u0, w0).dot(Vector::new(c, u2, w2).cross(Vector::new(c, u1, w1))) == c * ((u2
            - u0) * (w1 - w0)) - c * ((w2 - w0) * (u1 - u0)),
{
    lemma_planar_triple(c, u0, w0, u1, w1, u2, w2);
}

/// The triple product of three points with the same y coordinate.
proof fn lemma_triple_y(c: int, u0: int, w0: int, u1: int, w1: int, u2: int, w2: int)
    ensures
        Vector::new(u0, c, w0).dot(Vector::new(u2, c, w2).cross(Vector::new(u1, c, w1))) == c * ((w2
            - w0) * (u1 - u0)) - c * ((u2 - u0) * (w1 - w0)),
{
    lemma_planar_triple(c, w0, u0, w1, u1, w2, u2);
}

/// The triple product of three points with the same z coordinate.
proof fn lemma_triple_z(c: int, u0: int, w0: int, u1: int, w1: int, u2: int, w2: int)
    ensures
        Vector::new(u0, w0, c).dot(Vector::new(u2, w2, c).cross(Vector::new(u1, w1, c))) == c * ((u2
            - u0) * (w1 - w0)) - c * ((w2 - w0) * (u1 - u0)),
{
    lemma_planar_triple(c, u0, w0, u1, w1, u2, w2);
}

/// The polynomial identity behind the triple product of three points in a
/// plane across an axis.
proof fn lemma_planar_triple(c: int, u0: int, w0: int, u1: int, w1: int, u2: int, w2: int)
    ensures
        c * (u2 * w1 - w2 * u1) + u0 * (w2 * c - c * w1) + w0 * (c * u1 - u2 * c) == c * ((u2 - u0)
            * (w1 - w0)) - c * ((w2 - w0) * (u1 - u0)),
        u0 * (w2 * c - c * w1) + w0 * (c * u1 - u2 * c) + c * (u2 * w1 - w2 * u1) == c * ((u2 - u0)
            * (w1 - w0)) - c * ((w2 - w0) * (u1 - u0)),
        w0 * (u2 * c - c * u1) + c * (u1 * w2 - w1 * u2) + u0 * (c * w1 - w2 * c) == c * ((w2 - w0)
            * (u1 - u0)) - c * ((u2 - u0) * (w1 - w0)),
{
    lemma_expand(c, u2 * w1, w2 * u1, 0, 0);
    lemma_expand(u0, w2 * c, c * w1, 0, 0);
    lemma_expand(w0, c * u1, u2 * c, 0, 0);
    lemma_expand(w0, u2 * c, c * u1, 0, 0);
    lemma_expand(c, u1 * w2, w1 * u2, 0, 0);
    lemma_expand(u0, c * w1, w2 * c, 0, 0);
    lemma_expand(c, u2, u0, w1, w0);
    lemma_expand(c, w2, w0, u1, u0);
    let a = (u2 - u0) * (w1 - w0);
    let b = (w2 - w0) * (u1 - u0);
    assert(a == u2 * w1 - u2 * w0 - u0 * w1 + u0 * w0);
    assert(b == w2 * u1 - w2 * u0 - w0 * u1 + w0 * u0);
    lemma_expand(c, u2 * w1 - u2 * w0, u0 * w1 - u0 * w0, 0, 0);
    lemma_expand(c, u2 * w1, u2 * w0, 0, 0);
    lemma_expand(c, u0 * w1, u0 * w0, 0, 0);
    lemma_expand(c, w2 * u1 - w2 * u0, w0 * u1 - w0 * u0, 0, 0);
    lemma_expand(c, w2 * u1, w2 * u0, 0, 0);
    lemma_expand(c, w0 * u1, w0 * u0, 0, 0);
    lemma_expand(c, 0, 0, u2, w1);
    lemma_expand(c, 0, 0, w2, u1);
    lemma_expand(c, 0, 0, u0, w2);
    lemma_expand(c, 0, 0, u0, w1);
    lemma_expand(c, 0, 0, w0, u1);
    lemma_expand(c, 0, 0, w0, u2);
    lemma_expand(c, u2, 0, w1, 0);
    lemma_expand(c, w2, 0, u1, 0);
    lemma_expand(c, u0, 0, w2, 0);
    lemma_expand(c, u0, 0, w1, 0);
    lemma_expand(c, w0, 0, u1, 0);
    lemma_expand(c, w0, 0, u2, 0);
    lemma_expand(c, u2, 0, w0, 0);
    lemma_expand(c, w2, 0, u0, 0);
    lemma_expand(c, u1, 0, w2, 0);
    lemma_expand(c, w1, 0, u2, 0);
    lemma_expand(c, w1, 0, u0, 0);
    lemma_expand(c, u1, 0, w0, 0);
    lemma_expand(c, u0, 0, w0, 0);
    lemma_expand(c, w0, 0, u0, 0);
}

proof fn lemma_side_cone(r: Region, d: Direction)
    ensures
        ({
            let v = corners(r, d);
            v[0].dot(v[2].cross(v[1])) + v[0].dot(v[3].cross(v[2])) == 2 * plane_offset(r, d)
                * face_area(r, d.axis())
        }),
{
    let v = corners(r, d);
    let (dx, dy, dz) = (r.size().x, r.size().y, r.size().z);
    let t1 = v[0].dot(v[2].cross(v[1]));
    let t2 = v[0].dot(v[3].cross(v[2]));
    match d {
        Direction::PosX => {
            let c = r.high.x;
            lemma_triple_x(c, v[0].y, v[0].z, v[1].y, v[1].z, v[2].y, v[2].z);
            lemma_triple_x(c, v[0].y, v[0].z, v[2].y, v[2].z, v[3].y, v[3].z);
            lemma_products(c, dy, dz);
            lemma_products(c, dz, dy);
            lemma_products(c, dy, -dz);
            assert(t1 == c * (dy * 0) - c * ((-dz) * dy));
            assert(t2 == c * (0 * (-dz)) - c * ((-dz) * dy));
            assert(c * (dy * 0) == 0);
            assert(c * (0 * (-dz)) == 0);
            assert(c * ((-dz) * dy) == -(c * (dy * dz)));
            assert(t1 + t2 == 2 * (c * (dy * dz)));
            assert(plane_offset(r, d) == c);
            assert(face_area(r, d.axis()) == dy * dz);
            assert(2 * c * (dy * dz) == 2 * (c * (dy * dz)));
        },
        Direction::NegX => {
            let c = r.low.x;
            lemma_triple_x(c, v[0].y, v[0].z, v[1].y, v[1].z, v[2].y, v[2].z);
            lemma_triple_x(c, v[0].y, v[0].z, v[2].y, v[2].z, v[3].y, v[3].z);
            lemma_products(c, dy, dz);
            lemma_products(c, dz, dy);
            assert(t1 == c * (dy * 0) - c * (dz * dy));
            assert(t2 == c * (0 * 0) - c * (dz * dy));
            assert(c * (dy * 0) == 0);
            assert(c * (0 * 0) == 0);
            assert(c * (dz * dy) == c * (dy * dz));
            assert(t1 + t2 == -2 * (c * (dy * dz)));
            assert(plane_offset(r, d) == -c);
            assert(face_area(r, d.axis()) == dy * dz);
            assert(2 * (-c) * (dy * dz) == -2 * (c * (dy * dz)));
        },
        Direction::PosY => {
            let c = r.high.y;
            lemma_triple_y(c, v[0].x, v[0].z, v[1].x, v[1].z, v[2].x, v[2].z);
            lemma_triple_y(c, v[0].x, v[0].z, v[2].x, v[2].z, v[3].x, v[3].z);
            lemma_products(c, dz, dx);
            lemma_products(c, dx, dz);
            lemma_products(c, dz, -dx);
            assert(t1 == c * (dz * 0) - c * ((-dx) * dz));
            assert(t2 == c * (0 * (-dx)) - c * ((-dx) * dz));
            assert(c * (dz * 0) == 0);
            assert(c * (0 * (-dx)) == 0);
            assert(c * ((-dx) * dz) == -(c * (dx * dz)));
            assert(t1 + t2 == 2 * (c * (dx * dz)));
            assert(plane_offset(r, d) == c);
            assert(face_area(r, d.axis()) == dx * dz);
            assert(2 * c * (dx * dz) == 2 * (c * (dx * dz)));
        },
        Direction::NegY => {
            let c = r.low.y;
            lemma_triple_y(c, v[0].x, v[0].z, v[1].x, v[1].z, v[2].x, v[2].z);
            lemma_triple_y(c, v[0].x, v[0].z, v[2].x, v[2].z, v[3].x, v[3].z);
            lemma_products(c, dz, dx);
            lemma_products(c, dx, dz);
            assert(t1 == c * (dz * 0) - c * (dx * dz));
            assert(t2 == c * (0 * 0) - c * (dx * dz));
            assert(c * (dz * 0) == 0);
            assert(c * (0 * 0) == 0);
            assert(c * (dx * dz) == c * (dx * dz));
            assert(t1 + t2 == -2 * (c * (dx * dz)));
            assert(plane_offset(r, d) == -c);
            assert(face_area(r, d.axis()) == dx * dz);
            assert(2 * (-c) * (dx * dz) == -2 * (c * (dx * dz)));
        },
        Direction::PosZ => {
            let c = r.high.z;
            lemma_triple_z(c, v[0].x, v[0].y, v[1].x, v[1].y, v[2].x, v[2].y);
            lemma_triple_z(c, v[0].x, v[0].y, v[2].x, v[2].y, v[3].x, v[3].y);
            lemma_products(c, dx, dy);
            lemma_products(c, dy, dx);
            lemma_products(c, dx, -dy);
            assert(t1 == c * (dx * 0) - c * ((-dy) * dx));
            assert(t2 == c * (0 * (-dy)) - c * ((-dy) * dx));
            assert(c * (dx * 0) == 0);
            assert(c * (0 * (-dy)) == 0);
            assert(c * ((-dy) * dx) == -(c * (dx * dy)));
            assert(t1 + t2 == 2 * (c * (dx * dy)));
            assert(plane_offset(r, d) == c);
            assert(face_area(r, d.axis()) == dx * dy);
            assert(2 * c * (dx * dy) == 2 * (c * (dx * dy)));
        },
        Direction::NegZ => {
            let c = r.low.z;
            lemma_triple_z(c, v[0].x, v[0].y, v[1].x, v[1].y, v[2].x, v[2].y);
            lemma_triple_z(c, v[0].x, v[0].y, v[2].x, v[2].y, v[3].x, v[3].y);
            lemma_products(c, dx, dy);
            lemma_products(c, dy, dx);
            assert(t1 == c * (dx * 0) - c * (dy * dx));
            assert(t2 == c * (0 * 0) - c * (dy * dx));
            assert(c * (dx * 0) == 0);
            assert(c * (0 * 0) == 0);
            assert(c * (dy * dx) == c * (dx * dy));
            assert(t1 + t2 == -2 * (c * (dx * dy)));
            assert(plane_offset(r, d) == -c);
            assert(face_area(r, d.axis()) == dx * dy);
            assert(2 * (-c) * (dx * dy) == -2 * (c * (dx * dy)));
        },
    }
}

/// Products with zero and with negated factors, as the sides of a box need them.
proof fn lemma_products(c: int, a: int, b: int)
    by (nonlinear_arith)
    ensures
        c * (a * 0) == 0,
        c * (0 * b) == 0,
        c * (0 * a) == 0,
        c * (b * 0) == 0,
        c * ((-a) * b) == -(c * (a * b)),
        c * (a * (-b)) == -(c * (a * b)),
        c * ((-a) * (-b)) == c * (a * b),
        c * ((-b) * a) == -(c * (a * b)),
        c * (b * (-a)) == -(c * (a * b)),
        c * ((-b) * (-a)) == c * (a * b),
        c * (b * a) == c * (a * b),
        2 * c * (a * b) == 2 * (c * (a * b)),
        2 * (-c) * (a * b) == -2 * (c * (a * b)),
{
}

/// The prism that fills the box `r`, shows `textures` by the direction of
/// each side, and lays them out along the coordinate axes.
pub open spec fn box_brush(
    r: Region,
    textures: TextureSet,
    texel: u64,
    color: Color,
    transparency: u16,
) -> BrushModel {
    BrushModel {
        faces: Seq::new(
            6,
            |k: int|
                prism_face(
                    r,
                    side(k),
                    textures.on(side(k)),
                    TextureAxis::across(side(k).axis(), texel),
                    TextureAxis::down(side(k).axis(), texel),
                ),
        ),
        color,
        transparency,
    }
}

pub fn side_at(k: usize) -> (d: Direction)
    requires
        k < 6,
    ensures
        d == side(k as int),
{
    if k == 0 {
        Direction::PosX
    } else if k == 1 {
        Direction::NegX
    } else if k == 2 {
        Direction::PosY
    } else if k == 3 {
        Direction::NegY
    } else if k == 4 {
        Direction::PosZ
    } else {
        Direction::NegZ
    }
}

/// The corners of the side of `e` that looks in direction `d`.
pub fn side_corners(e: &Extent, d: Direction) -> (v: Vec<Vec3>)
    ensures
        vectors(v@) == corners(e@, d),
{
    let (l, h) = (e.low, e.high);
    let v: Vec<Vec3> = match d {
        Direction::PosX => vec![
            Vec3::new(h.x, l.y, h.z),
            Vec3::new(h.x, h.y, h.z),
            Vec3::new(h.x, h.y, l.z),
            Vec3::new(h.x, l.y, l.z),
        ],
        Direction::NegX => vec![
            Vec3::new(l.x, l.y, l.z),
            Vec3::new(l.x, h.y, l.z),
            Vec3::new(l.x, h.y, h.z),
            Vec3::new(l.x, l.y, h.z),
        ],
        Direction::PosY => vec![
            Vec3::new(h.x, h.y, l.z),
            Vec3::new(h.x, h.y, h.z),
            Vec3::new(l.x, h.y, h.z),
            Vec3::new(l.x, h.y, l.z),
        ],
        Direction::NegY => vec![
            Vec3::new(l.x, l.y, l.z),
            Vec3::new(l.x, l.y, h.z),
            Vec3::new(h.x, l.y, h.z),
            Vec3::new(h.x, l.y, l.z),
        ],
        Direction::PosZ => vec![
            Vec3::new(l.x, h.y, h.z),
            Vec3::new(h.x, h.y, h.z),
            Vec3::new(h.x, l.y, h.z),
            Vec3::new(l.x, l.y, h.z),
        ],
        Direction::NegZ => vec![
            Vec3::new(l.x, l.y, l.z),
            Vec3::new(h.x, l.y, l.z),
            Vec3::new(h.x, h.y, l.z),
            Vec3::new(l.x, h.y, l.z),
        ],
    };
    assert(vectors(v@) =~= corners(e@, d));
    v
}

/// The side of `e` that looks in direction `d`, as a face.
pub fn side_face(
    e: &Extent,
    d: Direction,
    texture: TextureRef,
    u_axis: TextureAxis,
    v_axis: TextureAxis,
) -> (f: Face)
    ensures
        f@ == prism_face(e@, d, texture, u_axis, v_axis),
{
    let bound: i128 = e.side(d) as i128;
    Face {
        normal: d.to_unit(),
        offset: if d.positive() {
            bound
        } else {
            -bound
        },
        vertices: side_corners(e, d),
        texture,
        u_axis,
        v_axis,
    }
}

/// The prism that fills `e`.
pub fn make_box(e: &Extent, textures: &TextureSet, texel: u64, color: Color, transparency: u16) -> (b:
    Brush)
    ensures
        b@ == box_brush(e@, *textures, texel, color, transparency),
        is_prism(b@, e@),
{
    let mut faces: Vec<Face> = Vec::new();
    let mut k: usize = 0;
    while k < 6
        invariant
            k <= 6,
            faces.len() == k,
            forall|i: int|
                0 <= i < k ==> (#[trigger] faces[i])@ == box_brush(
                    e@,
                    *textures,
                    texel,
                    color,
                    transparency,
                ).faces[i],
        decreases 6 - k,
    {
        let d: Direction = side_at(k);
        let face: Face = side_face(
            e,
            d,
            textures.get(d),
            TextureAxis::new_across(d.get_axis(), texel),
            TextureAxis::new_down(d.get_axis(), texel),
        );
        faces.push(face);
        k += 1;
    }
    let b: Brush = Brush { faces, color, transparency };
    assert(b@.faces =~= box_brush(e@, *textures, texel, color, transparency).faces);
    b
}

/// Whether `f` is the side of `e` that looks in direction `d`.
fn is_side(f: &Face, e: &Extent, d: Direction) -> (b: bool)
    ensures
        b == (f@ == prism_face(e@, d, f.texture, f.u_axis, f.v_axis)),
{
    let want: Face = side_face(e, d, f.texture, f.u_axis, f.v_axis);
    assert(want.vertices@.len() == vectors(want.vertices@).len() == 4);
    if f.vertices.len() != 4 {
        assert(f@.vertices.len() != want@.vertices.len());
        return false;
    }
    let same: bool = f.normal == want.normal && f.offset == want.offset && f.vertices[0]
        == want.vertices[0] && f.vertices[1] == want.vertices[1] && f.vertices[2]
        == want.vertices[2] && f.vertices[3] == want.vertices[3];
    proof {
        if same {
            assert(f@.vertices =~= want@.vertices);
        } else {
            assert(f@.vertices[0] == vectors(f.vertices@)[0]);
            assert(f@.vertices[1] == vectors(f.vertices@)[1]);
            assert(f@.vertices[2] == vectors(f.vertices@)[2]);
            assert(f@.vertices[3] == vectors(f.vertices@)[3]);
            assert(want@.vertices[0] == vectors(want.vertices@)[0]);
            assert(want@.vertices[1] == vectors(want.vertices@)[1]);
            assert(want@.vertices[2] == vectors(want.vertices@)[2]);
            assert(want@.vertices[3] == vectors(want.vertices@)[3]);
        }
    }
    same
}

/// The box that a brush fills, if the brush is a prism of positive volume.
pub fn prism_extent(b: &Brush) -> (r: Option<Extent>)
    ensures
        r matches Some(e) ==> prism_region(b@) == Some(e@),
        r is None ==> prism_region(b@) is None,
{
    if b.faces.len() != 6 {
        return None;
    }
    if b.faces[0].vertices.len() != 4 || b.faces[1].vertices.len() != 4 {
        return None;
    }
    let p: Vec3 = b.faces[0].vertices[0];
    let q: Vec3 = b.faces[0].vertices[2];
    let o: Vec3 = b.faces[1].vertices[0];
    let e: Extent = Extent { low: Vec3::new(o.x, p.y, q.z), high: Vec3::new(p.x, q.y, p.z) };
    let ghost first = b@.faces[0].vertices;
    let ghost second = b@.faces[1].vertices;
    proof {
        assert(first[0] == p@ && first[2] == q@ && second[0] == o@);
    }
    let mut k: usize = 0;
    while k < 6
        invariant
            k <= 6,
            b.faces.len() == 6,
            first == b@.faces[0].vertices,
            second == b@.faces[1].vertices,
            first.len() == 4 && second.len() == 4,
            e@ == (Region {
                low: Vector::new(second[0].x, first[0].y, first[2].z),
                high: Vector::new(first[0].x, first[2].y, first[0].z),
            }),
            forall|i: int|
                0 <= i < k ==> #[trigger] b@.faces[i] == prism_face(
                    e@,
                    side(i),
                    b@.faces[i].texture,
                    b@.faces[i].u_axis,
                    b@.faces[i].v_axis,
                ),
        decreases 6 - k,
    {
        if !is_side(&b.faces[k], &e, side_at(k)) {
            proof {
                let f = b@.faces[k as int];
                assert(f == b.faces[k as int]@);
                assert(f != prism_face(e@, side(k as int), f.texture, f.u_axis, f.v_axis));
            }
            return None;
        }
        assert(b@.faces[k as int] == b.faces[k as int]@);
        k += 1;
    }
    if e.is_solid() {
        Some(e)
    } else {
        None
    }
}

/// The prism that fills `e` and shows on each side what `b` shows there.
pub fn reshape(b: &Brush, e: &Extent) -> (r: Brush)
    requires
        b.faces.len() == 6,
    ensures
        r@ == reshaped(b@, e@),
        is_prism(r@, e@),
{
    let mut faces: Vec<Face> = Vec::new();
    let mut k: usize = 0;
    while k < 6
        invariant
            k <= 6,
            b.faces.len() == 6,
            faces.len() == k,
            forall|i: int| 0 <= i < k ==> (#[trigger] faces[i])@ == reshaped(b@, e@).faces[i],
        decreases 6 - k,
    {
        let old_face: &Face = &b.faces[k];
        assert(b@.faces[k as int] == old_face@);
        let face: Face = side_face(e, side_at(k), old_face.texture, old_face.u_axis, old_face.v_axis);
        faces.push(face);
        k += 1;
    }
    let r: Brush = Brush { faces, color: b.color, transparency: b.transparency };
    assert(r@.faces =~= reshaped(b@, e@).faces);
    r
}

} // verus!
