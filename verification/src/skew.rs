//! Parts that are turned out of the lattice. Their corners do not fall on
//! the lattice of the document: each is rounded to the nearest point of it.

use vstd::prelude::*;
use crate::brush::{Brush, BrushModel, Face, FaceModel};
use crate::geometry::{Axis, Direction, Extent, Region, Rotation, Vec3, Vector};
use crate::prism::{corners, side, side_at, side_corners};
use crate::scene::{Basis, Part, PartModel, Shape, Transform};
use crate::shape::{
    document_frame, dominant, dominant_axis, in_document, lemma_in_document,
    lemma_solid_bounded, lemma_solid_closed, place, solid_facets, texel_scale, texel_size,
    MAX_MAP_SCALE, MAX_SCENE_LENGTH,
};
use crate::solid::{
    ball, corner_wedge, facet_bounded, facet_models, round, wedge, Facet, FacetModel,
};
use crate::texture::{TextureAxis, TextureRef, TextureSet};

verus! {

/// The largest magnitude of a component of a basis vector, in thousandths.
pub const BASIS_LIMIT: i64 = 2000;

/// How far the scalar product of a basis vector with itself may be from one,
/// and with another basis vector from nothing, in millionths.
pub const BASIS_TOLERANCE: i64 = 5000;

/// The two numbers differ by no more than the tolerance.
pub open spec fn near(a: int, b: int) -> bool {
    -BASIS_TOLERANCE <= a - b <= BASIS_TOLERANCE
}

/// The vectors of the basis have length one and stand at right angles to
/// each other, as nearly as thousandths tell, and the third lies on the side
/// of the first two on which it lies in a right-handed frame.
pub open spec fn near_orthonormal(b: Basis) -> bool {
    let (x, y, z) = (b.x_image@, b.y_image@, b.z_image@);
    &&& x.within(BASIS_LIMIT as int) && y.within(BASIS_LIMIT as int) && z.within(BASIS_LIMIT as int)
    &&& near(x.dot(x), 1_000_000) && near(y.dot(y), 1_000_000) && near(z.dot(z), 1_000_000)
    &&& near(x.dot(y), 0) && near(y.dot(z), 0) && near(z.dot(x), 0)
    &&& x.cross(y).dot(z) > 0
}

/// The vector with the given coordinates in the basis, in millionths where
/// the coordinates are in thousandths.
pub open spec fn combine(b: Basis, c: Vector) -> Vector {
    b.x_image@.times(c.x).plus(b.y_image@.times(c.y)).plus(b.z_image@.times(c.z))
}

/// A thousandth of a number, rounded to the nearest whole number, halves upwards.
pub open spec fn rounded(n: int) -> int {
    (n + 500) / 1000
}

/// Where a point of the part's own frame, given in half-thousandths of a
/// scene unit from the part's centre, comes to lie in the document: on the
/// point of the lattice nearest to where the basis takes it.
pub open spec fn place_skewed(t: Transform, map_scale: int, c: Vector) -> Vector {
    let r = document_frame().apply(combine(t.basis, c).plus(t.position@.times(2000)));
    Vector {
        x: rounded(map_scale * r.x),
        y: rounded(map_scale * r.y),
        z: rounded(map_scale * r.z),
    }
}

/// The faces of a block of size `s` in its own frame: the six sides of the
/// box from `-s` to `s`.
pub open spec fn block_facets(s: Vector) -> Seq<FacetModel> {
    let r = Region { low: Vector::new(-s.x, -s.y, -s.z), high: s };
    Seq::new(
        6,
        |k: int| FacetModel { normal: side(k).unit(), corners: corners(r, side(k)), side: side(k) },
    )
}

/// The faces, in the part's own frame, of the solid that stands for a part.
pub open spec fn skew_facets(shape: Shape, size: Vector) -> Seq<FacetModel> {
    if shape == Shape::Block {
        block_facets(size)
    } else {
        solid_facets(shape, size)
    }
}

/// The face of the document that a face of a solid becomes under a
/// transform that turns it out of the lattice. The normal is as long as
/// the basis makes it.
pub open spec fn skewed(
    f: FacetModel,
    t: Transform,
    map_scale: int,
    textures: TextureSet,
    texel: u64,
) -> FaceModel {
    let normal = document_frame().apply(combine(t.basis, f.normal));
    FaceModel {
        normal,
        offset: normal.dot(place_skewed(t, map_scale, f.corners[0])),
        vertices: Seq::new(f.corners.len(), |i: int| place_skewed(t, map_scale, f.corners[i])),
        texture: textures.on(f.side),
        u_axis: TextureAxis::across(dominant(normal), texel),
        v_axis: TextureAxis::down(dominant(normal), texel),
    }
}

/// The brush of a part that is turned out of the lattice.
pub open spec fn skew_brush(part: PartModel, textures: TextureSet, map_scale: u32) -> BrushModel {
    let fs = skew_facets(part.shape, part.size@);
    BrushModel {
        faces: Seq::new(
            fs.len(),
            |k: int|
                skewed(fs[k], part.transform, map_scale as int, textures, texel_scale(map_scale)),
        ),
        color: part.color,
        transparency: part.transparency,
    }
}

proof fn lemma_bounded_product(a: int, b: int, high_a: int, high_b: int)
    by (nonlinear_arith)
    requires
        -high_a <= a <= high_a,
        -high_b <= b <= high_b,
    ensures
        -(high_a * high_b) <= a * b <= high_a * high_b,
{
}

fn product(a: i64, b: i64) -> (p: i64)
    requires
        -BASIS_LIMIT <= a <= BASIS_LIMIT,
        -4 * BASIS_LIMIT * BASIS_LIMIT <= b <= 4 * BASIS_LIMIT * BASIS_LIMIT,
    ensures
        p == a * b,
        -8 * BASIS_LIMIT * BASIS_LIMIT * BASIS_LIMIT <= p <= 8 * BASIS_LIMIT * BASIS_LIMIT
            * BASIS_LIMIT,
        -BASIS_LIMIT <= b <= BASIS_LIMIT ==> -BASIS_LIMIT * BASIS_LIMIT <= p <= BASIS_LIMIT
            * BASIS_LIMIT,
{
    proof {
        lemma_bounded_product(a as int, b as int, 2000, 16_000_000);
        if -BASIS_LIMIT <= b <= BASIS_LIMIT {
            lemma_bounded_product(a as int, b as int, 2000, 2000);
        }
    }
    a * b
}

fn scalar(a: &Vec3, b: &Vec3) -> (d: i64)
    requires
        a@.within(BASIS_LIMIT as int),
        b@.within(BASIS_LIMIT as int),
    ensures
        d == a@.dot(b@),
        -3 * BASIS_LIMIT * BASIS_LIMIT <= d <= 3 * BASIS_LIMIT * BASIS_LIMIT,
{
    product(a.x, b.x) + product(a.y, b.y) + product(a.z, b.z)
}

fn is_near(a: i64, b: i64) -> (r: bool)
    requires
        -3 * BASIS_LIMIT * BASIS_LIMIT <= a <= 3 * BASIS_LIMIT * BASIS_LIMIT,
        0 <= b <= 1_000_000,
    ensures
        r == near(a as int, b as int),
{
    -BASIS_TOLERANCE <= a - b && a - b <= BASIS_TOLERANCE
}

fn limited(v: &Vec3) -> (r: bool)
    ensures
        r == v@.within(BASIS_LIMIT as int),
{
    -BASIS_LIMIT <= v.x && v.x <= BASIS_LIMIT && -BASIS_LIMIT <= v.y && v.y <= BASIS_LIMIT
        && -BASIS_LIMIT <= v.z && v.z <= BASIS_LIMIT
}

/// Whether the basis is orthonormal and right-handed, as nearly as
/// thousandths tell.
pub fn is_near_orthonormal(b: &Basis) -> (r: bool)
    ensures
        r == near_orthonormal(*b),
{
    let (x, y, z) = (&b.x_image, &b.y_image, &b.z_image);
    if !(limited(x) && limited(y) && limited(z)) {
        return false;
    }
    let lengths: bool = is_near(scalar(x, x), 1_000_000) && is_near(scalar(y, y), 1_000_000)
        && is_near(scalar(z, z), 1_000_000);
    let angles: bool = is_near(scalar(x, y), 0) && is_near(scalar(y, z), 0) && is_near(
        scalar(z, x),
        0,
    );
    let cx: i64 = product(x.y, y.z) - product(x.z, y.y);
    let cy: i64 = product(x.z, y.x) - product(x.x, y.z);
    let cz: i64 = product(x.x, y.y) - product(x.y, y.x);
    let triple: i64 = product(z.x, cx) + product(z.y, cy) + product(z.z, cz);
    proof {
        let c = x@.cross(y@);
        assert(c == Vector::new(cx as int, cy as int, cz as int));
        assert(c.dot(z@) == cx * z.x + cy * z.y + cz * z.z);
        assert(cx * z.x == z.x * cx && cy * z.y == z.y * cy && cz * z.z == z.z * cz)
            by (nonlinear_arith);
    }
    lengths && angles && triple > 0
}

/// The faces of a block of size `s` in its own frame.
pub fn block(s: &Vec3) -> (fs: Vec<Facet>)
    requires
        s.x > 0 && s.y > 0 && s.z > 0,
    ensures
        facet_models(fs@) == block_facets(s@),
{
    let e: Extent = Extent { low: Vec3 { x: -s.x, y: -s.y, z: -s.z }, high: *s };
    let mut fs: Vec<Facet> = Vec::new();
    let mut k: usize = 0;
    while k < 6
        invariant
            k <= 6,
            fs.len() == k,
            e@ == (Region { low: Vector::new(-s.x, -s.y, -s.z), high: s@ }),
            forall|i: int| 0 <= i < k ==> (#[trigger] fs[i])@ == block_facets(s@)[i],
        decreases 6 - k,
    {
        let d: Direction = side_at(k);
        fs.push(Facet { normal: d.to_unit(), corners: side_corners(&e, d), side: d });
        k += 1;
    }
    assert(facet_models(fs@) =~= block_facets(s@));
    fs
}

/// The vector with the given coordinates in the basis.
fn combination(b: &Basis, c: &Vec3) -> (v: Vec3)
    requires
        near_orthonormal(*b),
        c@.within(MAX_SCENE_LENGTH as int),
    ensures
        v@ == combine(*b, c@),
        v@.within(3 * BASIS_LIMIT * MAX_SCENE_LENGTH),
{
    proof {
        lemma_bounded_product(c.x as int, b.x_image.x as int, 100_000_000_000, 2000);
        lemma_bounded_product(c.x as int, b.x_image.y as int, 100_000_000_000, 2000);
        lemma_bounded_product(c.x as int, b.x_image.z as int, 100_000_000_000, 2000);
        lemma_bounded_product(c.y as int, b.y_image.x as int, 100_000_000_000, 2000);
        lemma_bounded_product(c.y as int, b.y_image.y as int, 100_000_000_000, 2000);
        lemma_bounded_product(c.y as int, b.y_image.z as int, 100_000_000_000, 2000);
        lemma_bounded_product(c.z as int, b.z_image.x as int, 100_000_000_000, 2000);
        lemma_bounded_product(c.z as int, b.z_image.y as int, 100_000_000_000, 2000);
        lemma_bounded_product(c.z as int, b.z_image.z as int, 100_000_000_000, 2000);
    }
    Vec3 {
        x: c.x * b.x_image.x + c.y * b.y_image.x + c.z * b.z_image.x,
        y: c.x * b.x_image.y + c.y * b.y_image.y + c.z * b.z_image.y,
        z: c.x * b.x_image.z + c.y * b.y_image.z + c.z * b.z_image.z,
    }
}

/// A coordinate of the document from a coordinate of the scene in
/// millionths, doubled.
fn scaled_and_rounded(value: i64, map_scale: u32) -> (c: i64)
    requires
        -8 * BASIS_LIMIT * MAX_SCENE_LENGTH <= value <= 8 * BASIS_LIMIT * MAX_SCENE_LENGTH,
        map_scale <= MAX_MAP_SCALE,
    ensures
        c == rounded(map_scale * value),
        -2_000_000_000_000_000_000 <= c <= 2_000_000_000_000_000_000,
{
    proof {
        lemma_bounded_product(value as int, map_scale as int, 1_600_000_000_000_000, 1_000_000);
        assert(map_scale * value == value * map_scale) by (nonlinear_arith);
    }
    let product: i128 = (map_scale as i128) * (value as i128);
    let lifted: u128 = (product + 500 + 2_000_000_000_000_000_000_000) as u128;
    ((lifted / 1000) as i128 - 2_000_000_000_000_000_000) as i64
}

/// Where a point of the part's own frame comes to lie in the document.
fn place_skewed_point(t: &Transform, map_scale: u32, c: &Vec3) -> (w: Vec3)
    requires
        near_orthonormal(t.basis),
        t.position@.within(MAX_SCENE_LENGTH as int),
        c@.within(MAX_SCENE_LENGTH as int),
        map_scale <= MAX_MAP_SCALE,
    ensures
        w@ == place_skewed(*t, map_scale as int, c@),
        w@.within(2_000_000_000_000_000_000),
{
    let b: Vec3 = combination(&t.basis, c);
    let p: Vec3 = t.position;
    let frame: Rotation = Rotation {
        x_image: Direction::PosX,
        y_image: Direction::PosZ,
        z_image: Direction::NegY,
    };
    let r: Vec3 = frame.rotate(
        Vec3 { x: b.x + 2000 * p.x, y: b.y + 2000 * p.y, z: b.z + 2000 * p.z },
    );
    Vec3 {
        x: scaled_and_rounded(r.x, map_scale),
        y: scaled_and_rounded(r.y, map_scale),
        z: scaled_and_rounded(r.z, map_scale),
    }
}

/// The scalar product of a normal with a point of the document.
fn skewed_constant(n: &Vec3, v: &Vec3) -> (o: i128)
    requires
        n@.within(3 * BASIS_LIMIT * MAX_SCENE_LENGTH),
        v@.within(2_000_000_000_000_000_000),
    ensures
        o == n@.dot(v@),
{
    proof {
        lemma_bounded_product(
            n.x as int,
            v.x as int,
            600_000_000_000_000,
            2_000_000_000_000_000_000,
        );
        lemma_bounded_product(
            n.y as int,
            v.y as int,
            600_000_000_000_000,
            2_000_000_000_000_000_000,
        );
        lemma_bounded_product(
            n.z as int,
            v.z as int,
            600_000_000_000_000,
            2_000_000_000_000_000_000,
        );
    }
    (n.x as i128) * (v.x as i128) + (n.y as i128) * (v.y as i128) + (n.z as i128) * (v.z as i128)
}

/// The face of the document that a face of a solid becomes.
pub fn skew_facet(f: &Facet, t: &Transform, map_scale: u32, textures: &TextureSet, texel: u64) -> (face:
    Face)
    requires
        near_orthonormal(t.basis),
        t.position@.within(MAX_SCENE_LENGTH as int),
        facet_bounded(f@, MAX_SCENE_LENGTH as int),
        f.corners.len() >= 1,
        map_scale <= MAX_MAP_SCALE,
    ensures
        face@ == skewed(f@, *t, map_scale as int, *textures, texel),
{
    let frame: Rotation = Rotation {
        x_image: Direction::PosX,
        y_image: Direction::PosZ,
        z_image: Direction::NegY,
    };
    let normal: Vec3 = frame.rotate(combination(&t.basis, &f.normal));
    let mut vertices: Vec<Vec3> = Vec::new();
    let mut i: usize = 0;
    while i < f.corners.len()
        invariant
            i <= f.corners.len(),
            vertices.len() == i,
            near_orthonormal(t.basis),
            t.position@.within(MAX_SCENE_LENGTH as int),
            facet_bounded(f@, MAX_SCENE_LENGTH as int),
            map_scale <= MAX_MAP_SCALE,
            forall|j: int|
                0 <= j < i ==> (#[trigger] vertices[j])@ == place_skewed(
                    *t,
                    map_scale as int,
                    f.corners[j]@,
                ) && vertices[j]@.within(2_000_000_000_000_000_000),
        decreases f.corners.len() - i,
    {
        assert(f@.corners[i as int] == f.corners[i as int]@);
        vertices.push(place_skewed_point(t, map_scale, &f.corners[i]));
        i += 1;
    }
    assert(f@.corners[0] == f.corners[0]@);
    let offset: i128 = skewed_constant(&normal, &vertices[0]);
    let axis: Axis = dominant_axis(&normal);
    let face: Face = Face {
        normal,
        offset,
        vertices,
        texture: textures.get(f.side),
        u_axis: TextureAxis::new_across(axis, texel),
        v_axis: TextureAxis::new_down(axis, texel),
    };
    assert(face@.vertices =~= skewed(f@, *t, map_scale as int, *textures, texel).vertices);
    face
}

/// The part can be placed by its basis: the map scale is in range, the
/// basis is orthonormal and right-handed as nearly as thousandths tell, and
/// the size and the centre are in range.
pub open spec fn skewable(part: PartModel, map_scale: u32) -> bool {
    &&& 0 < map_scale <= MAX_MAP_SCALE
    &&& near_orthonormal(part.transform.basis)
    &&& part.size.x > 0 && part.size.y > 0 && part.size.z > 0
    &&& part.size@.within(MAX_SCENE_LENGTH as int)
    &&& part.transform.position@.within(MAX_SCENE_LENGTH as int)
}

/// The faces of a solid have coordinates no larger than its size.
proof fn lemma_skew_bounded(shape: Shape, size: Vector, k: int)
    requires
        size.x > 0 && size.y > 0 && size.z > 0,
        size.within(MAX_SCENE_LENGTH as int),
        0 <= k < skew_facets(shape, size).len(),
    ensures
        facet_bounded(skew_facets(shape, size)[k], MAX_SCENE_LENGTH as int),
        skew_facets(shape, size)[k].corners.len() >= 3,
{
    if shape == Shape::Block {
        let f = block_facets(size)[k];
        assert(f.corners.len() == 4);
        assert forall|i: int| 0 <= i < f.corners.len() implies (#[trigger] f.corners[i]).within(
            MAX_SCENE_LENGTH as int,
        ) by {
            assert(i == 0 || i == 1 || i == 2 || i == 3);
        }
    } else {
        lemma_solid_bounded(shape, size, k);
    }
}

/// The brush of a part that is turned out of the lattice.
pub fn synthesize_skewed(part: &Part, textures: &TextureSet, map_scale: u32) -> (b: Brush)
    requires
        skewable(part@, map_scale),
    ensures
        b@ == skew_brush(part@, *textures, map_scale),
{
    let texel: u64 = texel_size(map_scale);
    let facets: Vec<Facet> = match part.shape {
        Shape::Block => block(&part.size),
        Shape::Cylinder => round(&part.size),
        Shape::Sphere => ball(&part.size),
        Shape::Wedge => wedge(&part.size),
        Shape::CornerWedge => corner_wedge(&part.size),
    };
    let ghost fs = skew_facets(part.shape, part.size@);
    assert(facet_models(facets@) == fs);
    let mut faces: Vec<Face> = Vec::new();
    let mut k: usize = 0;
    while k < facets.len()
        invariant
            k <= facets.len(),
            faces.len() == k,
            facet_models(facets@) == fs,
            fs == skew_facets(part.shape, part.size@),
            skewable(part@, map_scale),
            forall|i: int|
                0 <= i < k ==> (#[trigger] faces[i])@ == skewed(
                    fs[i],
                    part.transform,
                    map_scale as int,
                    *textures,
                    texel,
                ),
        decreases facets.len() - k,
    {
        proof {
            assert(fs[k as int] == facets[k as int]@);
            lemma_skew_bounded(part.shape, part.size@, k as int);
        }
        faces.push(skew_facet(&facets[k], &part.transform, map_scale, textures, texel));
        k += 1;
    }
    let b: Brush = Brush { faces, color: part.color, transparency: part.transparency };
    assert(b@.faces =~= skew_brush(part@, *textures, map_scale).faces);
    b
}

/// Rounding moves a corner by no more than half a step of the lattice of
/// the document along each axis.
pub proof fn law_rounded_is_nearest(n: int)
    ensures
        n - 500 < 1000 * rounded(n) <= n + 500,
{
}

proof fn lemma_times_unit(c: int, v: Vector)
    by (nonlinear_arith)
    ensures
        v.x == 0 ==> c * v.x == 0,
        v.y == 0 ==> c * v.y == 0,
        v.z == 0 ==> c * v.z == 0,
        v.x == 1000 ==> c * v.x == 1000 * c,
        v.y == 1000 ==> c * v.y == 1000 * c,
        v.z == 1000 ==> c * v.z == 1000 * c,
        v.x == -1000 ==> c * v.x == -1000 * c,
        v.y == -1000 ==> c * v.y == -1000 * c,
        v.z == -1000 ==> c * v.z == -1000 * c,
{
}

proof fn lemma_rounded_thousands(m: int, y: int)
    by (nonlinear_arith)
    ensures
        rounded(m * (1000 * y)) == m * y,
{
}

/// A part that stands in the lattice comes to stand in the same place
/// whether it is placed by its basis or by the turn that its basis stands
/// for: nothing is lost in rounding.
pub proof fn law_skew_agrees_on_lattice(t: Transform, map_scale: int, c: Vector)
    requires
        t.placement() is Some,
        t.placement().unwrap().rotation.orthonormal(),
        t.position@.within(MAX_SCENE_LENGTH as int),
    ensures
        place_skewed(t, map_scale, c) == place(in_document(t.placement().unwrap()), map_scale, c),
{
    let at = t.placement().unwrap();
    let turned = at.rotation.apply(c).plus(t.position@.times(2));
    lemma_times_unit(c.x, t.basis.x_image@);
    lemma_times_unit(c.y, t.basis.y_image@);
    lemma_times_unit(c.z, t.basis.z_image@);
    assert(combine(t.basis, c) == at.rotation.apply(c).times(1000));
    assert(combine(t.basis, c).plus(t.position@.times(2000)) == turned.times(1000));
    lemma_in_document(at);
    let w = document_frame().apply(turned);
    assert(document_frame().apply(turned.times(1000)) == w.times(1000));
    assert(w == in_document(at).rotation.apply(c).plus(in_document(at).position@.times(2)));
    lemma_rounded_thousands(map_scale, w.x);
    lemma_rounded_thousands(map_scale, w.y);
    lemma_rounded_thousands(map_scale, w.z);
}

/// Where a point of the part's own frame would come to lie in the document
/// if nothing were rounded, in thousandths of a step of the lattice.
pub open spec fn place_unrounded(t: Transform, map_scale: int, c: Vector) -> Vector {
    document_frame().apply(combine(t.basis, c).plus(t.position@.times(2000))).times(map_scale)
}

/// The corner lies within half a step of the lattice of the point, along
/// each axis; the point is given in thousandths of a step.
pub open spec fn nearest(corner: Vector, point: Vector) -> bool {
    &&& point.x - 500 < 1000 * corner.x <= point.x + 500
    &&& point.y - 500 < 1000 * corner.y <= point.y + 500
    &&& point.z - 500 < 1000 * corner.z <= point.z + 500
}

/// The brush of a part that is turned out of the lattice has a face for each
/// face of the solid that stands for the part, with as many corners, at
/// least three; each face shows the texture of its side; and each corner
/// lies within half a step of the lattice of where the basis takes the corner
/// of the solid. The brush is the solid itself but for that rounding: what is
/// proved of the solid in its own frame, that it is closed and convex and
/// how its corners turn, holds of the brush only as nearly as that.
pub proof fn law_skew_brush(part: PartModel, textures: TextureSet, map_scale: u32)
    requires
        part.size.x > 0 && part.size.y > 0 && part.size.z > 0,
    ensures
        ({
            let b = skew_brush(part, textures, map_scale);
            let fs = skew_facets(part.shape, part.size@);
            &&& b.sound()
            &&& textures.sky_less() ==> b.sky_less()
            &&& b.faces.len() == fs.len()
            &&& b.color == part.color && b.transparency == part.transparency
            &&& forall|k: int|
                0 <= k < fs.len() ==> (#[trigger] b.faces[k]).vertices.len() == fs[k].corners.len()
                    && b.faces[k].texture == textures.on(fs[k].side)
            &&& forall|k: int, i: int|
                0 <= k < fs.len() && 0 <= i < fs[k].corners.len() ==> nearest(
                    #[trigger] b.faces[k].vertices[i],
                    place_unrounded(part.transform, map_scale as int, fs[k].corners[i]),
                )
        }),
{
    let b = skew_brush(part, textures, map_scale);
    let fs = skew_facets(part.shape, part.size@);
    if part.shape != Shape::Block {
        lemma_solid_closed(part.shape, part.size@);
    }
    assert forall|k: int| 0 <= k < fs.len() implies fs[k].corners.len() >= 3 by {
        if part.shape == Shape::Block {
            assert(fs[k].corners.len() == 4);
        }
    }
    assert forall|k: int| 0 <= k < b.faces.len() implies (#[trigger] b.faces[k]).vertices.len() >= 3
        && (textures.sky_less() ==> b.faces[k].texture != TextureRef::Skybox) by {
        assert(fs[k].corners.len() >= 3);
        assert(b.faces[k].texture == textures.on(fs[k].side));
    }
    assert forall|k: int, i: int| 0 <= k < fs.len() && 0 <= i < fs[k].corners.len() implies nearest(
        #[trigger] b.faces[k].vertices[i],
        place_unrounded(part.transform, map_scale as int, fs[k].corners[i]),
    ) by {
        let exact = place_unrounded(part.transform, map_scale as int, fs[k].corners[i]);
        law_rounded_is_nearest(exact.x);
        law_rounded_is_nearest(exact.y);
        law_rounded_is_nearest(exact.z);
    }
}

} // verus!
