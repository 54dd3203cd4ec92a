//! The scene as it is read: parts, the nodes that group them, and the tree of both.

use vstd::prelude::*;
use crate::brush::Color;
use crate::geometry::{Direction, Placement, Rotation, Vec3};
use crate::material::Material;

verus! {

/// The solid that a part is.
#[derive(Clone, Copy, PartialEq, Eq, Debug, Structural)]
pub enum Shape {
    Block,
    Cylinder,
    Sphere,
    Wedge,
    CornerWedge,
}

/// The vectors into which a part's own axes are turned, in thousandths.
#[derive(Clone, Copy, PartialEq, Eq, Debug, Structural)]
pub struct Basis {
    pub x_image: Vec3,
    pub y_image: Vec3,
    pub z_image: Vec3,
}

/// Where a part stands and how it is turned, as the scene gives it.
#[derive(Clone, Copy, PartialEq, Eq, Debug, Structural)]
pub struct Transform {
    /// The centre of the part, in thousandths of a scene unit.
    pub position: Vec3,
    pub basis: Basis,
}

/// The direction of a vector of length one, in thousandths, along a coordinate axis.
pub open spec fn lattice_direction(v: Vec3) -> Option<Direction> {
    if v.y == 0 && v.z == 0 && v.x == 1000 {
        Some(Direction::PosX)
    } else if v.y == 0 && v.z == 0 && v.x == -1000 {
        Some(Direction::NegX)
    } else if v.x == 0 && v.z == 0 && v.y == 1000 {
        Some(Direction::PosY)
    } else if v.x == 0 && v.z == 0 && v.y == -1000 {
        Some(Direction::NegY)
    } else if v.x == 0 && v.y == 0 && v.z == 1000 {
        Some(Direction::PosZ)
    } else if v.x == 0 && v.y == 0 && v.z == -1000 {
        Some(Direction::NegZ)
    } else {
        None
    }
}

pub fn to_direction(v: &Vec3) -> (d: Option<Direction>)
    ensures
        d == lattice_direction(*v),
{
    if v.y == 0 && v.z == 0 && v.x == 1000 {
        Some(Direction::PosX)
    } else if v.y == 0 && v.z == 0 && v.x == -1000 {
        Some(Direction::NegX)
    } else if v.x == 0 && v.z == 0 && v.y == 1000 {
        Some(Direction::PosY)
    } else if v.x == 0 && v.z == 0 && v.y == -1000 {
        Some(Direction::NegY)
    } else if v.x == 0 && v.y == 0 && v.z == 1000 {
        Some(Direction::PosZ)
    } else if v.x == 0 && v.y == 0 && v.z == -1000 {
        Some(Direction::NegZ)
    } else {
        None
    }
}

impl Basis {
    /// The basis that turns nothing.
    pub open spec fn identity() -> Basis {
        Basis {
            x_image: Vec3 { x: 1000, y: 0, z: 0 },
            y_image: Vec3 { x: 0, y: 1000, z: 0 },
            z_image: Vec3 { x: 0, y: 0, z: 1000 },
        }
    }

    /// The turn that the basis stands for, if it takes every axis to an axis.
    pub open spec fn lattice(self) -> Option<Rotation> {
        match (
            lattice_direction(self.x_image),
            lattice_direction(self.y_image),
            lattice_direction(self.z_image),
        ) {
            (Some(x), Some(y), Some(z)) => Some(Rotation { x_image: x, y_image: y, z_image: z }),
            _ => None,
        }
    }

    pub fn new_identity() -> (b: Basis)
        ensures
            b == Basis::identity(),
    {
        Basis {
            x_image: Vec3 { x: 1000, y: 0, z: 0 },
            y_image: Vec3 { x: 0, y: 1000, z: 0 },
            z_image: Vec3 { x: 0, y: 0, z: 1000 },
        }
    }

    pub fn to_rotation(&self) -> (r: Option<Rotation>)
        ensures
            r == self.lattice(),
    {
        match (to_direction(&self.x_image), to_direction(&self.y_image), to_direction(&self.z_image)) {
            (Some(x), Some(y), Some(z)) => Some(Rotation { x_image: x, y_image: y, z_image: z }),
            _ => None,
        }
    }
}

impl Transform {
    /// The placement that the transform stands for, if its basis takes
    /// every axis to an axis.
    pub open spec fn placement(self) -> Option<Placement> {
        match self.basis.lattice() {
            Some(rotation) => Some(Placement { position: self.position, rotation }),
            None => None,
        }
    }

    pub fn to_placement(&self) -> (p: Option<Placement>)
        ensures
            p == self.placement(),
    {
        match self.basis.to_rotation() {
            Some(rotation) => Some(Placement { position: self.position, rotation }),
            None => None,
        }
    }
}

/// One primitive solid of the scene.
#[derive(Clone, Debug)]
pub struct Part {
    pub shape: Shape,
    /// The edge lengths of the part's bounding box in its own frame, in
    /// thousandths of a scene unit.
    pub size: Vec3,
    pub transform: Transform,
    pub material: Material,
    pub color: Color,
    /// How much light passes, in thousandths.
    pub transparency: u16,
    /// The decals and repeated textures laid over sides of the part.
    pub decals: Vec<Material>,
}

/// The mathematical model of a [`Part`].
pub struct PartModel {
    pub shape: Shape,
    pub size: Vec3,
    pub transform: Transform,
    pub material: Material,
    pub color: Color,
    pub transparency: u16,
    pub decals: Seq<Material>,
}

impl View for Part {
    type V = PartModel;

    open spec fn view(&self) -> PartModel {
        PartModel {
            shape: self.shape,
            size: self.size,
            transform: self.transform,
            material: self.material,
            color: self.color,
            transparency: self.transparency,
            decals: self.decals@,
        }
    }
}

/// What a node of the scene is.
#[derive(Clone, Debug)]
pub enum NodeKind {
    /// A primitive solid.
    Part(Part),
    /// A node that only groups others.
    Container,
    /// A node of a class that means nothing here.
    Unknown,
}

/// The mathematical model of a [`NodeKind`].
pub enum NodeKindModel {
    Part(PartModel),
    Container,
    Unknown,
}

impl View for NodeKind {
    type V = NodeKindModel;

    open spec fn view(&self) -> NodeKindModel {
        match self {
            NodeKind::Part(part) => NodeKindModel::Part(part@),
            NodeKind::Container => NodeKindModel::Container,
            NodeKind::Unknown => NodeKindModel::Unknown,
        }
    }
}

/// A node of the scene. The nodes stand in the order in which the document
/// opens them, so that the nodes below a node follow it without a gap.
#[derive(Clone, Debug)]
pub struct SceneNode {
    pub kind: NodeKind,
    /// The place of the node that holds this one.
    pub parent: Option<usize>,
    /// The place after the last node below this one.
    pub end: usize,
}

/// The mathematical model of a [`SceneNode`].
pub struct SceneNodeModel {
    pub kind: NodeKindModel,
    pub parent: Option<usize>,
    pub end: usize,
}

impl View for SceneNode {
    type V = SceneNodeModel;

    open spec fn view(&self) -> SceneNodeModel {
        SceneNodeModel { kind: self.kind@, parent: self.parent, end: self.end }
    }
}

/// The scene: its nodes, in the order in which the document opens them.
#[derive(Clone, Debug)]
pub struct SceneModel {
    pub nodes: Vec<SceneNode>,
}

/// The models of a sequence of nodes.
pub open spec fn node_models(nodes: Seq<SceneNode>) -> Seq<SceneNodeModel> {
    Seq::new(nodes.len(), |i: int| nodes[i]@)
}

impl View for SceneModel {
    type V = Seq<SceneNodeModel>;

    open spec fn view(&self) -> Seq<SceneNodeModel> {
        node_models(self.nodes@)
    }
}

} // verus!
