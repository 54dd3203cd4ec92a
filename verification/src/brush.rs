//! Faces and brushes: convex solids bounded by planar faces.

use vstd::prelude::*;
use crate::geometry::{Vec3, Vector};
use crate::texture::{TextureAxis, TextureRef};

verus! {

/// A colour, one byte per channel.
#[derive(Clone, Copy, PartialEq, Eq, Debug, Structural)]
pub struct Color {
    pub red: u8,
    pub green: u8,
    pub blue: u8,
}

/// A planar polygon that bounds a brush.
#[derive(Clone, Debug)]
pub struct Face {
    /// A vector that points out of the brush, at right angles to the face.
    pub normal: Vec3,
    /// The scalar product of the normal with any point of the face.
    pub offset: i128,
    /// The corners of the face, in order round it.
    pub vertices: Vec<Vec3>,
    pub texture: TextureRef,
    pub u_axis: TextureAxis,
    pub v_axis: TextureAxis,
}

/// The mathematical model of a [`Face`].
pub struct FaceModel {
    pub normal: Vector,
    pub offset: int,
    pub vertices: Seq<Vector>,
    pub texture: TextureRef,
    pub u_axis: TextureAxis,
    pub v_axis: TextureAxis,
}

/// A convex solid: the points that lie behind every one of its faces.
#[derive(Clone, Debug)]
pub struct Brush {
    pub faces: Vec<Face>,
    pub color: Color,
    /// How much light passes, in thousandths: 0 is opaque, 1000 is invisible.
    pub transparency: u16,
}

/// The mathematical model of a [`Brush`].
pub struct BrushModel {
    pub faces: Seq<FaceModel>,
    pub color: Color,
    pub transparency: u16,
}

/// The models of a sequence of vectors.
pub open spec fn vectors(points: Seq<Vec3>) -> Seq<Vector> {
    Seq::new(points.len(), |i: int| points[i]@)
}

/// The models of a sequence of faces.
pub open spec fn face_models(faces: Seq<Face>) -> Seq<FaceModel> {
    Seq::new(faces.len(), |i: int| faces[i]@)
}

/// The models of a sequence of brushes.
pub open spec fn brush_models(brushes: Seq<Brush>) -> Seq<BrushModel> {
    Seq::new(brushes.len(), |i: int| brushes[i]@)
}

impl View for Face {
    type V = FaceModel;

    open spec fn view(&self) -> FaceModel {
        FaceModel {
            normal: self.normal@,
            offset: self.offset as int,
            vertices: vectors(self.vertices@),
            texture: self.texture,
            u_axis: self.u_axis,
            v_axis: self.v_axis,
        }
    }
}

impl View for Brush {
    type V = BrushModel;

    open spec fn view(&self) -> BrushModel {
        BrushModel {
            faces: face_models(self.faces@),
            color: self.color,
            transparency: self.transparency,
        }
    }
}

impl FaceModel {
    /// Every corner lies on the face's plane.
    pub open spec fn planar(self) -> bool {
        forall|i: int| 0 <= i < self.vertices.len() ==> self.normal.dot(#[trigger] self.vertices[i]) == self.offset
    }

    /// The point lies on the face's plane or behind it.
    pub open spec fn keeps(self, point: Vector) -> bool {
        self.normal.dot(point) <= self.offset
    }

    /// How the first three corners turn about the normal: positive where
    /// they run clockwise for one who looks at the face against its normal.
    pub open spec fn turning(self) -> int {
        self.normal.dot(
            self.vertices[2].minus(self.vertices[0]).cross(
                self.vertices[1].minus(self.vertices[0]),
            ),
        )
    }

    /// The first three corners, which give the plane of the face in the
    /// document, do not lie in a line and run clockwise for one who looks at
    /// the face against its normal.
    pub open spec fn clockwise(self) -> bool {
        self.vertices.len() >= 3 && self.turning() > 0
    }

    /// Six times the volume of the cone from the origin over the face,
    /// counted positive where the face looks away from the origin.
    pub open spec fn cone(self) -> int {
        fan(self.vertices, self.vertices.len() as int)
    }
}

/// The sum of the triple products of the first corner with each pair of
/// later neighbours among the first `n` corners.
pub open spec fn fan(vertices: Seq<Vector>, n: int) -> int
    decreases n,
{
    if n < 3 || n > vertices.len() {
        0
    } else {
        fan(vertices, n - 1) + vertices[0].dot(vertices[n - 1].cross(vertices[n - 2]))
    }
}

impl BrushModel {
    /// Every corner of every face lies on or behind every face: the solid is convex
    /// and the faces close it.
    pub open spec fn convex(self) -> bool {
        forall|i: int, j: int, k: int|
            0 <= i < self.faces.len() && 0 <= j < self.faces.len() && 0 <= k
                < self.faces[j].vertices.len() ==> (#[trigger] self.faces[i]).keeps(
                #[trigger] self.faces[j].vertices[k],
            )
    }

    /// Every face is a polygon in its plane.
    pub open spec fn planar(self) -> bool {
        forall|i: int|
            0 <= i < self.faces.len() ==> (#[trigger] self.faces[i]).vertices.len() >= 3
                && self.faces[i].planar()
    }

    /// The brush is a closed convex solid.
    pub open spec fn closed(self) -> bool {
        self.faces.len() >= 4 && self.planar() && self.convex()
    }

    /// The brush can stand in a document: it has no more than ten faces, and
    /// every face has the three corners that give its plane.
    pub open spec fn sound(self) -> bool {
        &&& self.faces.len() <= 10
        &&& forall|i: int| 0 <= i < self.faces.len() ==> (#[trigger] self.faces[i]).vertices.len() >= 3
    }

    /// No face of the brush shows the sky.
    pub open spec fn sky_less(self) -> bool {
        forall|i: int|
            0 <= i < self.faces.len() ==> (#[trigger] self.faces[i]).texture != TextureRef::Skybox
    }

    /// The corners of every face run clockwise about its normal.
    pub open spec fn oriented(self) -> bool {
        forall|i: int| 0 <= i < self.faces.len() ==> (#[trigger] self.faces[i]).clockwise()
    }

    /// Every corner lies in the box from `low` to `high`.
    pub open spec fn inside(self, low: Vector, high: Vector) -> bool {
        forall|i: int, k: int|
            0 <= i < self.faces.len() && 0 <= k < self.faces[i].vertices.len() ==> low.le(
                #[trigger] self.faces[i].vertices[k],
            ) && self.faces[i].vertices[k].le(high)
    }

    /// Six times the volume of the brush.
    pub open spec fn volume6(self) -> int {
        cones(self.faces, self.faces.len() as int)
    }
}

/// The sum of the cones over the first `n` faces.
pub open spec fn cones(faces: Seq<FaceModel>, n: int) -> int
    decreases n,
{
    if n <= 0 || n > faces.len() {
        0
    } else {
        cones(faces, n - 1) + faces[n - 1].cone()
    }
}

} // verus!
