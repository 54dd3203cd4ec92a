//! Brushes from parts: a part's shape, size and placement give the faces of
//! the solid that stands for it.

use vstd::prelude::*;
use crate::brush::{Brush, BrushModel, Face, FaceModel};
use crate::geometry::{
    lemma_cross_of_stretched, lemma_dot_of_stretched, lemma_permute, lemma_rotation_keeps_cross,
    lemma_rotation_keeps_differences, lemma_rotation_keeps_dot, Axis, Direction, Extent,
    Placement, Region, Rotation, Vec3, Vector,
};
use crate::prism::{
    box_brush, is_prism, lemma_prism_closed, lemma_prism_oriented, lemma_prism_region,
    lemma_prism_volume, make_box, prism_region, side,
};
use crate::scene::{Part, PartModel, Shape};
use crate::skew::{
    is_near_orthonormal, law_skew_brush, near_orthonormal, skew_brush, synthesize_skewed,
};
use crate::solid::{
    ball, ball_facets, corner_facets, corner_wedge, facet_bounded, facet_models, facet_turning,
    facets_closed, facets_inside, facets_oriented, lemma_ball_closed, lemma_ball_oriented,
    lemma_corner_closed, lemma_corner_oriented, lemma_round_closed, lemma_round_oriented,
    lemma_wedge_closed, lemma_wedge_oriented, round, round_facets, wedge, wedge_facets, Facet,
    FacetModel,
};
use crate::texture::{TextureAxis, TextureRef, TextureSet};

verus! {

/// The largest edge length of a part and the largest distance of its centre
/// from the origin along an axis, in thousandths of a scene unit.
pub const MAX_SCENE_LENGTH: i64 = 100_000_000_000;

/// The largest map scale, in thousandths.
pub const MAX_MAP_SCALE: u32 = 1_000_000;

/// The number of texels that a texture shows along one scene unit.
pub const TEXELS_PER_UNIT: u64 = 32;

/// Why a part has no brush.
#[derive(Clone, Copy, PartialEq, Eq, Debug, Structural)]
pub enum GeometryError {
    /// The map scale is zero or beyond [`MAX_MAP_SCALE`].
    Scale,
    /// The basis is not orthonormal and right-handed.
    Skewed,
    /// An edge length is zero or negative, or a round part is less than three
    /// thousandths across, so that corners of its outline would fall together.
    Degenerate,
    /// An edge length or a coordinate of the centre is beyond [`MAX_SCENE_LENGTH`].
    OutOfRange,
}

/// The length that one texel covers at the given map scale, in millionths of a
/// document unit.
pub open spec fn texel_scale(map_scale: u32) -> u64 {
    ((map_scale as int * 1000) / (TEXELS_PER_UNIT as int)) as u64
}

/// A part of this size and placement has a brush at this scale.
pub open spec fn placeable(size: Vector, t: Placement, map_scale: u32) -> bool {
    &&& 0 < map_scale <= MAX_MAP_SCALE
    &&& t.rotation.orthonormal()
    &&& size.x > 0 && size.y > 0 && size.z > 0
    &&& size.within(MAX_SCENE_LENGTH as int)
    &&& t.position@.within(MAX_SCENE_LENGTH as int)
}

/// The rotation from the frame of the scene, where the second axis points
/// up, to the frame of the document, where the third axis does.
pub open spec fn document_frame() -> Rotation {
    Rotation { x_image: Direction::PosX, y_image: Direction::PosZ, z_image: Direction::NegY }
}

/// The placement of a part in the frame of the document.
pub open spec fn in_document(t: Placement) -> Placement {
    Placement {
        position: Vec3 { x: t.position.x, y: (-t.position.z) as i64, z: t.position.y },
        rotation: document_frame().after(t.rotation),
    }
}

/// The change of frame keeps rotations and distances.
pub proof fn lemma_in_document(t: Placement)
    requires
        t.rotation.orthonormal(),
        t.position@.within(MAX_SCENE_LENGTH as int),
    ensures
        forall|size: Vector, map_scale: u32|
            placeable(size, t, map_scale) ==> #[trigger] placeable(
                size,
                in_document(t),
                map_scale,
            ),
        in_document(t).rotation.orthonormal(),
        in_document(t).position@ == document_frame().apply(t.position@),
        in_document(t).position@.within(MAX_SCENE_LENGTH as int),
        forall|v: Vector| #[trigger]
            in_document(t).rotation.apply(v) == document_frame().apply(t.rotation.apply(v)),
        forall|d: Direction| #[trigger]
            in_document(t).rotation.turn(d) == document_frame().turn(t.rotation.turn(d)),
{
}

/// Where a point of the part's own frame, given in half-thousandths of a
/// scene unit from the part's centre, comes to lie in the document.
pub open spec fn place(t: Placement, map_scale: int, v: Vector) -> Vector {
    t.rotation.apply(v).plus(t.position@.times(2)).times(map_scale)
}

/// The box that a block of the given size fills in the document, for its
/// placement in the frame of the document.
pub open spec fn block_region(size: Vector, t: Placement, map_scale: int) -> Region {
    let half = t.rotation.permute(size);
    let centre = t.position@.times(2);
    Region { low: centre.minus(half).times(map_scale), high: centre.plus(half).times(map_scale) }
}

/// The brush of a block.
pub open spec fn block_brush(part: PartModel, at: Placement, textures: TextureSet, map_scale: u32) -> BrushModel {
    box_brush(
        block_region(part.size@, in_document(at), map_scale as int),
        textures.turned(in_document(at).rotation),
        texel_scale(map_scale),
        part.color,
        part.transparency,
    )
}

/// Whether the part is wide enough for the outline of a round solid.
pub fn is_wide_enough(shape: Shape, size: &Vec3) -> (r: bool)
    ensures
        r == wide_enough(shape, size@),
{
    match shape {
        Shape::Cylinder => size.y >= 3 && size.z >= 3,
        Shape::Sphere => size.x >= 3 && size.z >= 3,
        _ => true,
    }
}

/// Checks the size and the position of a part.
pub fn check_extent(shape: Shape, size: &Vec3, position: &Vec3) -> (r: Result<(), GeometryError>)
    ensures
        match extent_error(shape, size@, position@) {
            Some(e) => r == Err::<(), GeometryError>(e),
            None => r is Ok,
        },
{
    if size.x <= 0 || size.y <= 0 || size.z <= 0 || !is_wide_enough(shape, size) {
        Err(GeometryError::Degenerate)
    } else if size.x > MAX_SCENE_LENGTH || size.y > MAX_SCENE_LENGTH || size.z > MAX_SCENE_LENGTH
        || position.x < -MAX_SCENE_LENGTH || position.x > MAX_SCENE_LENGTH || position.y
        < -MAX_SCENE_LENGTH || position.y > MAX_SCENE_LENGTH || position.z < -MAX_SCENE_LENGTH
        || position.z > MAX_SCENE_LENGTH {
        Err(GeometryError::OutOfRange)
    } else {
        Ok(())
    }
}

/// The length of a texel at the given map scale.
pub fn texel_size(map_scale: u32) -> (texel: u64)
    ensures
        texel == texel_scale(map_scale),
{
    map_scale as u64 * 1000 / TEXELS_PER_UNIT
}

/// A coordinate of the document from a doubled coordinate of the scene.
fn scaled(doubled: i64, map_scale: u32) -> (c: i64)
    requires
        -3 * MAX_SCENE_LENGTH <= doubled <= 3 * MAX_SCENE_LENGTH,
        map_scale <= MAX_MAP_SCALE,
    ensures
        c == map_scale * doubled,
        -3 * MAX_SCENE_LENGTH * MAX_MAP_SCALE <= c <= 3 * MAX_SCENE_LENGTH * MAX_MAP_SCALE,
{
    assert(-300_000_000_000 * 1_000_000 <= map_scale * doubled <= 300_000_000_000 * 1_000_000)
        by (nonlinear_arith)
        requires
            -300_000_000_000 <= doubled <= 300_000_000_000,
            0 <= map_scale <= 1_000_000,
    ;
    (map_scale as i64) * doubled
}

/// The box that a block fills in the document.
pub fn block_extent(size: &Vec3, t: &Placement, map_scale: u32) -> (e: Extent)
    requires
        placeable(size@, *t, map_scale),
    ensures
        e@ == block_region(size@, *t, map_scale as int),
        e@.solid(),
{
    let half: Vec3 = t.rotation.permuted(*size);
    let p: Vec3 = t.position;
    proof {
        lemma_permute(t.rotation, size@);
    }
    let e: Extent = Extent {
        low: Vec3 {
            x: scaled(2 * p.x - half.x, map_scale),
            y: scaled(2 * p.y - half.y, map_scale),
            z: scaled(2 * p.z - half.z, map_scale),
        },
        high: Vec3 {
            x: scaled(2 * p.x + half.x, map_scale),
            y: scaled(2 * p.y + half.y, map_scale),
            z: scaled(2 * p.z + half.z, map_scale),
        },
    };
    proof {
        let m = map_scale as int;
        assert(m * (2 * p.x - half.x) < m * (2 * p.x + half.x)) by (nonlinear_arith)
            requires
                m > 0,
                half.x > 0,
        ;
        assert(m * (2 * p.y - half.y) < m * (2 * p.y + half.y)) by (nonlinear_arith)
            requires
                m > 0,
                half.y > 0,
        ;
        assert(m * (2 * p.z - half.z) < m * (2 * p.z + half.z)) by (nonlinear_arith)
            requires
                m > 0,
                half.z > 0,
        ;
    }
    e
}

/// The placement of a part in the frame of the document.
pub fn to_document(t: &Placement) -> (d: Placement)
    requires
        t.position@.within(MAX_SCENE_LENGTH as int),
    ensures
        d == in_document(*t),
{
    let frame: Rotation = Rotation {
        x_image: Direction::PosX,
        y_image: Direction::PosZ,
        z_image: Direction::NegY,
    };
    Placement {
        position: Vec3 { x: t.position.x, y: -t.position.z, z: t.position.y },
        rotation: frame.compose(&t.rotation),
    }
}

/// The brush of a block.
pub fn synthesize_block(part: &Part, at: &Placement, textures: &TextureSet, map_scale: u32) -> (b:
    Brush)
    requires
        placeable(part.size@, *at, map_scale),
    ensures
        b@ == block_brush(part@, *at, *textures, map_scale),
{
    proof {
        lemma_in_document(*at);
    }
    let t: Placement = to_document(at);
    let e: Extent = block_extent(&part.size, &t, map_scale);
    let world: TextureSet = textures.turn(&t.rotation);
    make_box(&e, &world, texel_size(map_scale), part.color, part.transparency)
}

/// The edges of the box that a block fills are the edges of the block, in
/// the order that the rotation gives them, at the map scale; the document
/// counts half-millionths where the scene counts thousandths, which makes the factor two.
pub proof fn law_block_extent(size: Vector, t: Placement, map_scale: int)
    requires
        t.rotation.orthonormal(),
    ensures
        block_region(size, t, map_scale).size() == t.rotation.permute(size).times(2 * map_scale),
{
    let half = t.rotation.permute(size);
    let centre = t.position@.times(2);
    lemma_scaled_difference(map_scale, centre.x, half.x);
    lemma_scaled_difference(map_scale, centre.y, half.y);
    lemma_scaled_difference(map_scale, centre.z, half.z);
}

proof fn lemma_scaled_difference(m: int, c: int, h: int)
    by (nonlinear_arith)
    ensures
        m * (c + h) - m * (c - h) == (2 * m) * h,
{
}

/// A cube keeps its edge length whichever way it is turned: at a map scale of
/// `map_scale` thousandths the brush of a cube with edges of `edge`
/// thousandths of a scene unit fills a cube with edges of
/// `2 * map_scale * edge` half-millionths of a document unit, that is exactly
/// fifteen times the edge at a scale of fifteen. A cube at the origin lies
/// about the origin of the document.
pub proof fn law_cube_extent(part: PartModel, at: Placement, textures: TextureSet, map_scale: u32)
    requires
        placeable(part.size@, at, map_scale),
        part.shape == Shape::Block,
        part.size.x == part.size.y == part.size.z,
    ensures
        ({
            let edge = part.size.x as int;
            let r = block_region(part.size@, in_document(at), map_scale as int);
            &&& prism_region(block_brush(part, at, textures, map_scale)) == Some(r)
            &&& r.size() == Vector::new(
                2 * map_scale * edge,
                2 * map_scale * edge,
                2 * map_scale * edge,
            )
            &&& map_scale == 15000 ==> r.size() == Vector::new(
                30000 * edge,
                30000 * edge,
                30000 * edge,
            )
            &&& at.position@ == Vector::new(0, 0, 0) ==> r.low == Vector::new(
                -(map_scale * edge),
                -(map_scale * edge),
                -(map_scale * edge),
            ) && r.high == Vector::new(map_scale * edge, map_scale * edge, map_scale * edge)
        }),
{
    let edge = part.size.x as int;
    let m = map_scale as int;
    let t = in_document(at);
    lemma_in_document(at);
    law_block_extent(part.size@, t, m);
    law_block_brush(part, at, textures, map_scale);
    lemma_permute(t.rotation, part.size@);
    let p = t.rotation.permute(part.size@);
    assert(p == part.size@);
    assert((2 * m) * edge == 2 * m * edge);
    if map_scale == 15000 {
        assert(2 * m * edge == 30000 * edge);
    }
    if at.position@ == Vector::new(0, 0, 0) {
        assert(t.position@ == Vector::new(0, 0, 0));
        lemma_negated_product(m, edge);
    }
}

proof fn lemma_negated_product(m: int, e: int)
    by (nonlinear_arith)
    ensures
        m * (0 - e) == -(m * e),
        m * (0 + e) == m * e,
{
}

/// The brush of a block has six faces at right angles to the coordinate
/// axes, is closed and convex, and has the volume of the block at the map scale.
pub proof fn law_block_brush(part: PartModel, at: Placement, textures: TextureSet, map_scale: u32)
    requires
        placeable(part.size@, at, map_scale),
    ensures
        ({
            let b = block_brush(part, at, textures, map_scale);
            let m = 2 * map_scale as int;
            &&& b.faces.len() == 6
            &&& forall|k: int| 0 <= k < 6 ==> (#[trigger] b.faces[k]).normal == side(k).unit()
            &&& b.closed()
            &&& prism_region(b) == Some(
                block_region(part.size@, in_document(at), map_scale as int),
            )
            &&& b.volume6() == 6 * ((m * m * m) * (part.size.x * part.size.y * part.size.z))
        }),
{
    let b = block_brush(part, at, textures, map_scale);
    lemma_in_document(at);
    let t = in_document(at);
    let r = block_region(part.size@, t, map_scale as int);
    let m = 2 * map_scale as int;
    let p = t.rotation.permute(part.size@);
    law_block_extent(part.size@, t, map_scale as int);
    lemma_permute(t.rotation, part.size@);
    assert(is_prism(b, r));
    assert(r.low.le(r.high)) by {
        assert(m * p.x > 0 && m * p.y > 0 && m * p.z > 0) by (nonlinear_arith)
            requires
                m > 0,
                p.x > 0,
                p.y > 0,
                p.z > 0,
        ;
    }
    lemma_prism_closed(b, r);
    lemma_prism_volume(b, r);
    assert(r.solid()) by {
        assert(m * p.x > 0 && m * p.y > 0 && m * p.z > 0) by (nonlinear_arith)
            requires
                m > 0,
                p.x > 0,
                p.y > 0,
                p.z > 0,
        ;
    }
    lemma_prism_region(b, r);
    let (sx, sy, sz) = (part.size.x as int, part.size.y as int, part.size.z as int);
    assert(p.x * p.y * p.z == sx * sy * sz) by {
        lemma_product_order(sx, sy, sz);
    }
    assert((m * p.x) * (m * p.y) * (m * p.z) == (m * m * m) * (p.x * p.y * p.z))
        by (nonlinear_arith);
}

/// A product of three factors does not depend on their order.
proof fn lemma_product_order(a: int, b: int, c: int)
    by (nonlinear_arith)
    ensures
        a * c * b == a * b * c,
        b * a * c == a * b * c,
        b * c * a == a * b * c,
        c * a * b == a * b * c,
        c * b * a == a * b * c,
{
}

/// The coordinate axis that lies closest to a vector.
pub open spec fn dominant(n: Vector) -> Axis {
    let x = if n.x < 0 { -n.x } else { n.x };
    let y = if n.y < 0 { -n.y } else { n.y };
    let z = if n.z < 0 { -n.z } else { n.z };
    if z >= x && z >= y {
        Axis::Z
    } else if x >= y {
        Axis::X
    } else {
        Axis::Y
    }
}

/// The face of the document that a face of a solid becomes, for the
/// placement of the part in the frame of the document.
pub open spec fn placed(
    f: FacetModel,
    t: Placement,
    map_scale: int,
    textures: TextureSet,
    texel: u64,
) -> FaceModel {
    let normal = t.rotation.apply(f.normal);
    FaceModel {
        normal,
        offset: normal.dot(place(t, map_scale, f.corners[0])),
        vertices: Seq::new(f.corners.len(), |i: int| place(t, map_scale, f.corners[i])),
        texture: textures.on(f.side),
        u_axis: TextureAxis::across(dominant(normal), texel),
        v_axis: TextureAxis::down(dominant(normal), texel),
    }
}

/// The faces, in the part's own frame, of the solid that stands for a part
/// that is no block.
pub open spec fn solid_facets(shape: Shape, size: Vector) -> Seq<FacetModel> {
    match shape {
        Shape::Block => Seq::empty(),
        Shape::Cylinder => round_facets(size),
        Shape::Sphere => ball_facets(size),
        Shape::Wedge => wedge_facets(size),
        Shape::CornerWedge => corner_facets(size),
    }
}

/// The brush of a part that is no block.
pub open spec fn solid_brush(part: PartModel, at: Placement, textures: TextureSet, map_scale: u32) -> BrushModel {
    let fs = solid_facets(part.shape, part.size@);
    BrushModel {
        faces: Seq::new(
            fs.len(),
            |k: int|
                placed(
                    fs[k],
                    in_document(at),
                    map_scale as int,
                    textures,
                    texel_scale(map_scale),
                ),
        ),
        color: part.color,
        transparency: part.transparency,
    }
}

/// The part is wide enough for the outline of a round solid to have eight
/// corners apart from each other: at least three thousandths across. A part
/// that is not round always is.
pub open spec fn wide_enough(shape: Shape, size: Vector) -> bool {
    match shape {
        Shape::Cylinder => size.y >= 3 && size.z >= 3,
        Shape::Sphere => size.x >= 3 && size.z >= 3,
        _ => true,
    }
}

/// Why a part of this shape and size, whose centre is at this position, has
/// no brush, if that is for its size or its position.
pub open spec fn extent_error(shape: Shape, size: Vector, position: Vector) -> Option<
    GeometryError,
> {
    if size.x <= 0 || size.y <= 0 || size.z <= 0 || !wide_enough(shape, size) {
        Some(GeometryError::Degenerate)
    } else if !size.within(MAX_SCENE_LENGTH as int) || !position.within(MAX_SCENE_LENGTH as int) {
        Some(GeometryError::OutOfRange)
    } else {
        None
    }
}

/// Why a part has no brush at this scale, if it has none: the scale is
/// looked at first, then the basis, then the size, then the range.
pub open spec fn part_error(part: PartModel, map_scale: u32) -> Option<GeometryError> {
    if map_scale == 0 || map_scale > MAX_MAP_SCALE {
        Some(GeometryError::Scale)
    } else if match part.transform.placement() {
        Some(at) => !at.rotation.orthonormal(),
        None => !near_orthonormal(part.transform.basis),
    } {
        Some(GeometryError::Skewed)
    } else {
        extent_error(part.shape, part.size@, part.transform.position@)
    }
}

/// The brush of a part, or why it has none. A part whose basis takes every
/// axis to an axis is placed exactly; any other is placed by its basis, with
/// its corners rounded to the lattice of the document.
pub open spec fn synthesized(part: PartModel, textures: TextureSet, map_scale: u32) -> Result<
    BrushModel,
    GeometryError,
> {
    match part_error(part, map_scale) {
        Some(e) => Err(e),
        None => match part.transform.placement() {
            Some(at) => if part.shape == Shape::Block {
                Ok(block_brush(part, at, textures, map_scale))
            } else {
                Ok(solid_brush(part, at, textures, map_scale))
            },
            None => Ok(skew_brush(part, textures, map_scale)),
        },
    }
}

pub fn dominant_axis(n: &Vec3) -> (a: Axis)
    requires
        n.x > i64::MIN && n.y > i64::MIN && n.z > i64::MIN,
    ensures
        a == dominant(n@),
{
    let x: i64 = if n.x < 0 { -n.x } else { n.x };
    let y: i64 = if n.y < 0 { -n.y } else { n.y };
    let z: i64 = if n.z < 0 { -n.z } else { n.z };
    if z >= x && z >= y {
        Axis::Z
    } else if x >= y {
        Axis::X
    } else {
        Axis::Y
    }
}

/// Where a point of the part's own frame comes to lie in the document.
fn place_point(t: &Placement, map_scale: u32, v: &Vec3) -> (w: Vec3)
    requires
        t.rotation.orthonormal(),
        t.position@.within(MAX_SCENE_LENGTH as int),
        v@.within(MAX_SCENE_LENGTH as int),
        map_scale <= MAX_MAP_SCALE,
    ensures
        w@ == place(*t, map_scale as int, v@),
        w@.within(3 * MAX_SCENE_LENGTH * MAX_MAP_SCALE),
{
    let r: Vec3 = t.rotation.rotate(*v);
    let p: Vec3 = t.position;
    Vec3 {
        x: scaled(r.x + 2 * p.x, map_scale),
        y: scaled(r.y + 2 * p.y, map_scale),
        z: scaled(r.z + 2 * p.z, map_scale),
    }
}

/// The scalar product of a normal with a point of the document.
fn plane_constant(n: &Vec3, v: &Vec3) -> (o: i128)
    requires
        n@.within(MAX_SCENE_LENGTH as int),
        v@.within(3 * MAX_SCENE_LENGTH * MAX_MAP_SCALE),
    ensures
        o == n@.dot(v@),
{
    proof {
        lemma_product_bound(n.x as int, v.x as int);
        lemma_product_bound(n.y as int, v.y as int);
        lemma_product_bound(n.z as int, v.z as int);
    }
    (n.x as i128) * (v.x as i128) + (n.y as i128) * (v.y as i128) + (n.z as i128) * (v.z as i128)
}

proof fn lemma_product_bound(a: int, b: int)
    by (nonlinear_arith)
    requires
        -100_000_000_000 <= a <= 100_000_000_000,
        -300_000_000_000_000_000 <= b <= 300_000_000_000_000_000,
    ensures
        -30_000_000_000_000_000_000_000_000_000 <= a * b <= 30_000_000_000_000_000_000_000_000_000,
{
}

/// The face of the document that a face of a solid becomes.
pub fn place_facet(
    f: &Facet,
    t: &Placement,
    map_scale: u32,
    textures: &TextureSet,
    texel: u64,
) -> (face: Face)
    requires
        t.rotation.orthonormal(),
        t.position@.within(MAX_SCENE_LENGTH as int),
        facet_bounded(f@, MAX_SCENE_LENGTH as int),
        f.corners.len() >= 1,
        map_scale <= MAX_MAP_SCALE,
    ensures
        face@ == placed(f@, *t, map_scale as int, *textures, texel),
{
    let normal: Vec3 = t.rotation.rotate(f.normal);
    let mut vertices: Vec<Vec3> = Vec::new();
    let mut i: usize = 0;
    while i < f.corners.len()
        invariant
            i <= f.corners.len(),
            vertices.len() == i,
            t.rotation.orthonormal(),
            t.position@.within(MAX_SCENE_LENGTH as int),
            facet_bounded(f@, MAX_SCENE_LENGTH as int),
            map_scale <= MAX_MAP_SCALE,
            forall|j: int|
                0 <= j < i ==> (#[trigger] vertices[j])@ == place(
                    *t,
                    map_scale as int,
                    f.corners[j]@,
                ) && vertices[j]@.within(3 * MAX_SCENE_LENGTH * MAX_MAP_SCALE),
        decreases f.corners.len() - i,
    {
        assert(f@.corners[i as int] == f.corners[i as int]@);
        vertices.push(place_point(t, map_scale, &f.corners[i]));
        i += 1;
    }
    assert(f@.corners[0] == f.corners[0]@);
    let offset: i128 = plane_constant(&normal, &vertices[0]);
    let axis: Axis = dominant_axis(&normal);
    let face: Face = Face {
        normal,
        offset,
        vertices,
        texture: textures.get(f.side),
        u_axis: TextureAxis::new_across(axis, texel),
        v_axis: TextureAxis::new_down(axis, texel),
    };
    assert(face@.vertices =~= placed(f@, *t, map_scale as int, *textures, texel).vertices);
    face
}

/// The faces of a solid have coordinates no larger than its size.
pub proof fn lemma_solid_bounded(shape: Shape, size: Vector, k: int)
    requires
        size.x > 0 && size.y > 0 && size.z > 0,
        size.within(MAX_SCENE_LENGTH as int),
        0 <= k < solid_facets(shape, size).len(),
    ensures
        facet_bounded(solid_facets(shape, size)[k], MAX_SCENE_LENGTH as int),
        solid_facets(shape, size)[k].corners.len() >= 3,
{
    let fs = solid_facets(shape, size);
    lemma_solid_closed(shape, size);
    assert forall|i: int| 0 <= i < fs[k].corners.len() implies (#[trigger] fs[k].corners[i]).within(
        MAX_SCENE_LENGTH as int,
    ) by {
        assert(fs[k].corners[i].within_box(size));
    }
    match shape {
        Shape::Block => {},
        Shape::Cylinder => {},
        Shape::Sphere => {
            assert(round_facets(Vector::new(size.y, size.z, size.x))[k].normal.within(
                MAX_SCENE_LENGTH as int,
            ));
        },
        Shape::Wedge => {
            assert(k == 0 || k == 1 || k == 2 || k == 3 || k == 4);
        },
        Shape::CornerWedge => {
            assert(k == 0 || k == 1 || k == 2 || k == 3 || k == 4);
        },
    }
}

/// The solid that stands for a part that is no block is closed and convex
/// and lies in the part's bounding box.
pub proof fn lemma_solid_closed(shape: Shape, size: Vector)
    requires
        size.x > 0 && size.y > 0 && size.z > 0,
        shape != Shape::Block,
    ensures
        facets_closed(solid_facets(shape, size)),
        facets_inside(solid_facets(shape, size), size),
{
    match shape {
        Shape::Block => {},
        Shape::Cylinder => {
            lemma_round_closed(size);
        },
        Shape::Sphere => {
            lemma_ball_closed(size);
        },
        Shape::Wedge => {
            lemma_wedge_closed(size);
        },
        Shape::CornerWedge => {
            lemma_corner_closed(size);
        },
    }
}

/// The brush of a part that is no block.
pub fn synthesize_solid(part: &Part, at: &Placement, textures: &TextureSet, map_scale: u32) -> (b:
    Brush)
    requires
        placeable(part.size@, *at, map_scale),
        part.shape != Shape::Block,
    ensures
        b@ == solid_brush(part@, *at, *textures, map_scale),
{
    proof {
        lemma_in_document(*at);
    }
    let t: Placement = to_document(at);
    let texel: u64 = texel_size(map_scale);
    let facets: Vec<Facet> = match part.shape {
        Shape::Cylinder => round(&part.size),
        Shape::Sphere => ball(&part.size),
        Shape::Wedge => wedge(&part.size),
        _ => corner_wedge(&part.size),
    };
    let ghost fs = solid_facets(part.shape, part.size@);
    assert(facet_models(facets@) == fs);
    let mut faces: Vec<Face> = Vec::new();
    let mut k: usize = 0;
    while k < facets.len()
        invariant
            k <= facets.len(),
            faces.len() == k,
            facet_models(facets@) == fs,
            fs == solid_facets(part.shape, part.size@),
            placeable(part.size@, t, map_scale),
            forall|i: int|
                0 <= i < k ==> (#[trigger] faces[i])@ == placed(
                    fs[i],
                    t,
                    map_scale as int,
                    *textures,
                    texel,
                ),
        decreases facets.len() - k,
    {
        proof {
            assert(fs[k as int] == facets[k as int]@);
            lemma_solid_bounded(part.shape, part.size@, k as int);
        }
        faces.push(place_facet(&facets[k], &t, map_scale, textures, texel));
        k += 1;
    }
    let b: Brush = Brush { faces, color: part.color, transparency: part.transparency };
    assert(b@.faces =~= solid_brush(part@, *at, *textures, map_scale).faces);
    b
}

/// The brush of a part: the faces of the solid that stands for it, placed
/// in the document at the map scale, each with the texture of its side.
pub fn synthesize(part: &Part, textures: &TextureSet, map_scale: u32) -> (r: Result<
    Brush,
    GeometryError,
>)
    ensures
        match synthesized(part@, *textures, map_scale) {
            Ok(model) => r matches Ok(b) && b@ == model,
            Err(e) => r matches Err(x) && x == e,
        },
{
    if map_scale == 0 || map_scale > MAX_MAP_SCALE {
        return Err(GeometryError::Scale);
    }
    match part.transform.to_placement() {
        None => {
            if !is_near_orthonormal(&part.transform.basis) {
                return Err(GeometryError::Skewed);
            }
            match check_extent(part.shape, &part.size, &part.transform.position) {
                Err(e) => Err(e),
                Ok(()) => Ok(synthesize_skewed(part, textures, map_scale)),
            }
        },
        Some(at) => {
            if !at.rotation.is_orthonormal() {
                return Err(GeometryError::Skewed);
            }
            match check_extent(part.shape, &part.size, &part.transform.position) {
                Err(e) => Err(e),
                Ok(()) => {
                    if part.shape == Shape::Block {
                        Ok(synthesize_block(part, &at, textures, map_scale))
                    } else {
                        Ok(synthesize_solid(part, &at, textures, map_scale))
                    }
                },
            }
        },
    }
}

proof fn lemma_scaled_sum(n: int, m: int, a: int, b: int)
    by (nonlinear_arith)
    ensures
        n * (m * (a + b)) == m * (n * a) + m * (n * b),
{
}

proof fn lemma_scaled_terms(m: int, a: int, b: int, c: int, d: int, e: int, f: int)
    by (nonlinear_arith)
    ensures
        m * a + m * d + m * b + m * e + m * c + m * f == m * ((a + b + c) + (d + e + f)),
{
}

proof fn lemma_scale_monotone(m: int, x: int, y: int)
    by (nonlinear_arith)
    requires
        m > 0,
        x <= y,
    ensures
        m * x <= m * y,
{
}

/// The scalar product of a turned normal with a placed point, by the scalar
/// product of the two in the part's own frame.
proof fn lemma_placed_dot(t: Placement, m: int, n: Vector, c: Vector)
    requires
        t.rotation.orthonormal(),
    ensures
        t.rotation.apply(n).dot(place(t, m, c)) == m * (n.dot(c) + t.rotation.apply(n).dot(
            t.position@.times(2),
        )),
{
    let big = t.rotation.apply(n);
    let a = t.rotation.apply(c);
    let b = t.position@.times(2);
    lemma_rotation_keeps_dot(t.rotation, n, c);
    lemma_scaled_sum(big.x, m, a.x, b.x);
    lemma_scaled_sum(big.y, m, a.y, b.y);
    lemma_scaled_sum(big.z, m, a.z, b.z);
    lemma_scaled_terms(
        m,
        big.x * a.x,
        big.y * a.y,
        big.z * a.z,
        big.x * b.x,
        big.y * b.y,
        big.z * b.z,
    );
}

/// A point of the part's bounding box comes to lie in the box that a block of
/// the part's size fills.
proof fn lemma_placed_inside(t: Placement, m: int, size: Vector, c: Vector)
    requires
        t.rotation.orthonormal(),
        m > 0,
        size.x > 0 && size.y > 0 && size.z > 0,
        c.within_box(size),
    ensures
        block_region(size, t, m).contains(place(t, m, c)),
{
    let a = t.rotation.apply(c);
    let h = t.rotation.permute(size);
    let p = t.position@.times(2);
    lemma_permute(t.rotation, size);
    assert(a.within_box(h));
    lemma_scale_monotone(m, p.x - h.x, a.x + p.x);
    lemma_scale_monotone(m, p.y - h.y, a.y + p.y);
    lemma_scale_monotone(m, p.z - h.z, a.z + p.z);
    lemma_scale_monotone(m, a.x + p.x, p.x + h.x);
    lemma_scale_monotone(m, a.y + p.y, p.y + h.y);
    lemma_scale_monotone(m, a.z + p.z, p.z + h.z);
}

/// The brush of a part that is no block is a closed convex solid, and lies
/// within the box that a block of the part's size and placement fills.
pub proof fn law_solid_brush(part: PartModel, at: Placement, textures: TextureSet, map_scale: u32)
    requires
        placeable(part.size@, at, map_scale),
        part.shape != Shape::Block,
    ensures
        ({
            let b = solid_brush(part, at, textures, map_scale);
            let r = block_region(part.size@, in_document(at), map_scale as int);
            b.closed() && b.inside(r.low, r.high)
        }),
{
    let b = solid_brush(part, at, textures, map_scale);
    let t = in_document(at);
    let m = map_scale as int;
    let r = block_region(part.size@, t, m);
    let fs = solid_facets(part.shape, part.size@);
    lemma_in_document(at);
    lemma_solid_closed(part.shape, part.size@);
    assert forall|i: int, j: int, k: int|
        0 <= i < b.faces.len() && 0 <= j < b.faces.len() && 0 <= k
            < b.faces[j].vertices.len() implies (#[trigger] b.faces[i]).keeps(
        #[trigger] b.faces[j].vertices[k],
    ) && (i == j ==> b.faces[i].normal.dot(b.faces[j].vertices[k]) == b.faces[i].offset) by {
        let n = fs[i].normal;
        assert(fs[i].corners.len() >= 3);
        lemma_placed_dot(t, m, n, fs[j].corners[k]);
        lemma_placed_dot(t, m, n, fs[i].corners[0]);
        let w = t.rotation.apply(n).dot(t.position@.times(2));
        assert(n.dot(fs[j].corners[k]) <= n.dot(fs[i].corners[0]));
        lemma_scale_monotone(m, n.dot(fs[j].corners[k]) + w, n.dot(fs[i].corners[0]) + w);
        if i == j {
            assert(n.dot(fs[j].corners[k]) == n.dot(fs[i].corners[0]));
        }
    }
    assert forall|i: int| 0 <= i < b.faces.len() implies (#[trigger] b.faces[i]).vertices.len() >= 3
        && b.faces[i].planar() by {
        assert(fs[i].corners.len() >= 3);
        assert forall|k: int| 0 <= k < b.faces[i].vertices.len() implies b.faces[i].normal.dot(
            #[trigger] b.faces[i].vertices[k],
        ) == b.faces[i].offset by {
            assert(b.faces[i].keeps(b.faces[i].vertices[k]));
        }
    }
    assert forall|i: int, k: int|
        0 <= i < b.faces.len() && 0 <= k < b.faces[i].vertices.len() implies r.low.le(
        #[trigger] b.faces[i].vertices[k],
    ) && b.faces[i].vertices[k].le(r.high) by {
        assert(fs[i].corners[k].within_box(part.size@));
        lemma_placed_inside(t, m, part.size@, fs[i].corners[k]);
    }
}

/// Every brush of a part that stands in the lattice is a closed convex solid
/// within the box that a block of the part's size and placement fills.
pub proof fn law_brush_closed(part: PartModel, textures: TextureSet, map_scale: u32)
    requires
        synthesized(part, textures, map_scale) is Ok,
        part.transform.placement() is Some,
    ensures
        ({
            let b = synthesized(part, textures, map_scale).unwrap();
            let r = block_region(
                part.size@,
                in_document(part.transform.placement().unwrap()),
                map_scale as int,
            );
            b.closed() && b.inside(r.low, r.high)
        }),
{
    let at = part.transform.placement().unwrap();
    if part.shape == Shape::Block {
        law_block_brush(part, at, textures, map_scale);
        let b = block_brush(part, at, textures, map_scale);
        let r = block_region(part.size@, in_document(at), map_scale as int);
        lemma_prism_region(b, r);
        lemma_prism_closed(b, r);
    } else {
        law_solid_brush(part, at, textures, map_scale);
    }
}

proof fn lemma_placed_difference(t: Placement, m: int, a: Vector, b: Vector)
    requires
        t.rotation.orthonormal(),
    ensures
        place(t, m, a).minus(place(t, m, b)) == t.rotation.apply(a.minus(b)).times(m),
{
    lemma_rotation_keeps_differences(t.rotation, a, b);
    let (p, q) = (t.rotation.apply(a), t.rotation.apply(b));
    let o = t.position@.times(2);
    lemma_scaled_shift(m, p.x, q.x, o.x);
    lemma_scaled_shift(m, p.y, q.y, o.y);
    lemma_scaled_shift(m, p.z, q.z, o.z);
}

proof fn lemma_scaled_shift(m: int, x: int, y: int, o: int)
    by (nonlinear_arith)
    ensures
        m * (x + o) - m * (y + o) == m * (x - y),
{
}

proof fn lemma_positive_scale(m: int, x: int)
    by (nonlinear_arith)
    requires
        m > 0,
        x > 0,
    ensures
        (m * m) * x > 0,
{
}

/// A face of a solid keeps the turning of its corners when it is placed.
proof fn lemma_placed_turning(f: FacetModel, t: Placement, m: int, textures: TextureSet, texel: u64)
    requires
        t.rotation.orthonormal(),
        m > 0,
        f.corners.len() >= 3,
        facet_turning(f) > 0,
    ensures
        placed(f, t, m, textures, texel).clockwise(),
{
    let g = placed(f, t, m, textures, texel);
    let r = t.rotation;
    let a = f.corners[2].minus(f.corners[0]);
    let b = f.corners[1].minus(f.corners[0]);
    lemma_placed_difference(t, m, f.corners[2], f.corners[0]);
    lemma_placed_difference(t, m, f.corners[1], f.corners[0]);
    assert(g.vertices[2].minus(g.vertices[0]) == r.apply(a).times(m));
    assert(g.vertices[1].minus(g.vertices[0]) == r.apply(b).times(m));
    lemma_cross_of_stretched(r.apply(a), r.apply(b), m);
    lemma_rotation_keeps_cross(r, a, b);
    lemma_dot_of_stretched(g.normal, r.apply(a.cross(b)), m * m);
    lemma_rotation_keeps_dot(r, f.normal, a.cross(b));
    assert(g.turning() == (m * m) * facet_turning(f));
    lemma_positive_scale(m, facet_turning(f));
}

/// The corners of the faces of a solid run clockwise.
pub proof fn lemma_solid_oriented(shape: Shape, size: Vector)
    requires
        size.x > 0 && size.y > 0 && size.z > 0,
        shape != Shape::Block,
        wide_enough(shape, size),
    ensures
        facets_oriented(solid_facets(shape, size)),
{
    match shape {
        Shape::Block => {},
        Shape::Cylinder => {
            lemma_round_oriented(size);
        },
        Shape::Sphere => {
            lemma_ball_oriented(size);
        },
        Shape::Wedge => {
            lemma_wedge_oriented(size);
        },
        Shape::CornerWedge => {
            lemma_corner_oriented(size);
        },
    }
}

/// The corners of every face of the brush of a part that stands in the
/// lattice run clockwise for one who looks at the face from outside the
/// brush: the first three corners, which stand in the document for the plane
/// of the face, give the side of the plane on which the brush lies.
pub proof fn law_brush_oriented(part: PartModel, textures: TextureSet, map_scale: u32)
    requires
        synthesized(part, textures, map_scale) is Ok,
        part.transform.placement() is Some,
    ensures
        synthesized(part, textures, map_scale).unwrap().oriented(),
{
    let at = part.transform.placement().unwrap();
    let b = synthesized(part, textures, map_scale).unwrap();
    let t = in_document(at);
    let m = map_scale as int;
    lemma_in_document(at);
    if part.shape == Shape::Block {
        law_block_brush(part, at, textures, map_scale);
        let r = block_region(part.size@, t, m);
        lemma_prism_region(b, r);
        lemma_prism_oriented(b, r);
    } else {
        let fs = solid_facets(part.shape, part.size@);
        lemma_solid_oriented(part.shape, part.size@);
        assert forall|i: int| 0 <= i < b.faces.len() implies (#[trigger] b.faces[i]).clockwise() by {
            assert(fs[i].corners.len() >= 3 && facet_turning(fs[i]) > 0);
            lemma_placed_turning(fs[i], t, m, textures, texel_scale(map_scale));
        }
    }
}

/// The brush of a block has six faces, however the block is turned.
pub proof fn law_block_has_six_faces(part: PartModel, textures: TextureSet, map_scale: u32)
    requires
        synthesized(part, textures, map_scale) is Ok,
        part.shape == Shape::Block,
    ensures
        synthesized(part, textures, map_scale).unwrap().faces.len() == 6,
{
}

/// Every brush that a part has can stand in a document: it has no more
/// than ten faces, each with at least three corners; and it shows the sky on
/// no face, unless the textures that it is given do.
pub proof fn law_brush_is_sound(part: PartModel, textures: TextureSet, map_scale: u32)
    requires
        synthesized(part, textures, map_scale) is Ok,
    ensures
        synthesized(part, textures, map_scale).unwrap().sound(),
        textures.sky_less() ==> synthesized(part, textures, map_scale).unwrap().sky_less(),
{
    let b = synthesized(part, textures, map_scale).unwrap();
    match part.transform.placement() {
        Some(at) => {
            if part.shape == Shape::Block {
                assert forall|i: int| 0 <= i < b.faces.len() implies (
                #[trigger] b.faces[i]).vertices.len() >= 3 && (textures.sky_less()
                    ==> b.faces[i].texture != TextureRef::Skybox) by {
                    let d = in_document(at).rotation.source(side(i));
                    assert(b.faces[i].texture == textures.on(d));
                    assert(b.faces[i].vertices.len() == 4);
                }
            } else {
                let fs = solid_facets(part.shape, part.size@);
                lemma_solid_closed(part.shape, part.size@);
                assert forall|i: int| 0 <= i < b.faces.len() implies (
                #[trigger] b.faces[i]).vertices.len() >= 3 && (textures.sky_less()
                    ==> b.faces[i].texture != TextureRef::Skybox) by {
                    assert(fs[i].corners.len() >= 3);
                    assert(b.faces[i].texture == textures.on(fs[i].side));
                }
            }
        },
        None => {
            law_skew_brush(part, textures, map_scale);
        },
    }
}

} // verus!
