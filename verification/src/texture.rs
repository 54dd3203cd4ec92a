//! Texture references and the projection of a texture onto a face.

use vstd::prelude::*;
use vstd::string::*;
use crate::number::{push_decimal, with_decimal};
use crate::geometry::{Axis, Direction, Rotation};

verus! {

/// A texture image that ships with the converter.
#[derive(Clone, Copy, PartialEq, Eq, Hash, Debug, Structural)]
pub enum BuiltinTexture {
    Plastic,
    Wood,
    Slate,
    Concrete,
    Rust,
    DiamondPlate,
    Aluminium,
    Grass,
    Ice,
    Marble,
    Granite,
    Brick,
    Pebble,
    Sand,
    Fabric,
    SmoothPlastic,
    Metal,
    WoodPlanks,
    Cobblestone,
    Glass,
    ForceField,
    Decal,
    Studs,
    Inlet,
    SpawnLocation,
}

impl BuiltinTexture {
    /// The name under which the texture stands in the document.
    pub open spec fn name(self) -> Seq<char> {
        match self {
            BuiltinTexture::Plastic => "rbx/plastic"@,
            BuiltinTexture::Wood => "rbx/wood"@,
            BuiltinTexture::Slate => "rbx/slate"@,
            BuiltinTexture::Concrete => "rbx/concrete"@,
            BuiltinTexture::Rust => "rbx/rust"@,
            BuiltinTexture::DiamondPlate => "rbx/diamondplate"@,
            BuiltinTexture::Aluminium => "rbx/aluminium"@,
            BuiltinTexture::Grass => "rbx/grass"@,
            BuiltinTexture::Ice => "rbx/ice"@,
            BuiltinTexture::Marble => "rbx/marble"@,
            BuiltinTexture::Granite => "rbx/granite"@,
            BuiltinTexture::Brick => "rbx/brick"@,
            BuiltinTexture::Pebble => "rbx/pebble"@,
            BuiltinTexture::Sand => "rbx/sand"@,
            BuiltinTexture::Fabric => "rbx/fabric"@,
            BuiltinTexture::SmoothPlastic => "rbx/smoothplastic"@,
            BuiltinTexture::Metal => "rbx/metal"@,
            BuiltinTexture::WoodPlanks => "rbx/woodplanks"@,
            BuiltinTexture::Cobblestone => "rbx/cobblestone"@,
            BuiltinTexture::Glass => "rbx/glass"@,
            BuiltinTexture::ForceField => "rbx/forcefield"@,
            BuiltinTexture::Decal => "rbx/decal"@,
            BuiltinTexture::Studs => "rbx/studs"@,
            BuiltinTexture::Inlet => "rbx/inlet"@,
            BuiltinTexture::SpawnLocation => "rbx/spawnlocation"@,
        }
    }

    pub fn name_text(&self) -> (name: &'static str)
        ensures
            name@ == self.name(),
    {
        match self {
            BuiltinTexture::Plastic => "rbx/plastic",
            BuiltinTexture::Wood => "rbx/wood",
            BuiltinTexture::Slate => "rbx/slate",
            BuiltinTexture::Concrete => "rbx/concrete",
            BuiltinTexture::Rust => "rbx/rust",
            BuiltinTexture::DiamondPlate => "rbx/diamondplate",
            BuiltinTexture::Aluminium => "rbx/aluminium",
            BuiltinTexture::Grass => "rbx/grass",
            BuiltinTexture::Ice => "rbx/ice",
            BuiltinTexture::Marble => "rbx/marble",
            BuiltinTexture::Granite => "rbx/granite",
            BuiltinTexture::Brick => "rbx/brick",
            BuiltinTexture::Pebble => "rbx/pebble",
            BuiltinTexture::Sand => "rbx/sand",
            BuiltinTexture::Fabric => "rbx/fabric",
            BuiltinTexture::SmoothPlastic => "rbx/smoothplastic",
            BuiltinTexture::Metal => "rbx/metal",
            BuiltinTexture::WoodPlanks => "rbx/woodplanks",
            BuiltinTexture::Cobblestone => "rbx/cobblestone",
            BuiltinTexture::Glass => "rbx/glass",
            BuiltinTexture::ForceField => "rbx/forcefield",
            BuiltinTexture::Decal => "rbx/decal",
            BuiltinTexture::Studs => "rbx/studs",
            BuiltinTexture::Inlet => "rbx/inlet",
            BuiltinTexture::SpawnLocation => "rbx/spawnlocation",
        }
    }

    /// The name of the measuring grid that stands for the texture.
    pub open spec fn developer_name(self) -> Seq<char> {
        match self {
            BuiltinTexture::Plastic => "dev/reflectivity_50"@,
            BuiltinTexture::Wood => "dev/dev_measurewall01a"@,
            BuiltinTexture::Slate => "dev/reflectivity_30"@,
            BuiltinTexture::Concrete => "dev/dev_measuregeneric01b"@,
            BuiltinTexture::Rust => "dev/reflectivity_20"@,
            BuiltinTexture::DiamondPlate => "dev/reflectivity_40"@,
            BuiltinTexture::Aluminium => "dev/reflectivity_70"@,
            BuiltinTexture::Grass => "dev/dev_measuregeneric01"@,
            BuiltinTexture::Ice => "dev/reflectivity_90"@,
            BuiltinTexture::Marble => "dev/reflectivity_80"@,
            BuiltinTexture::Granite => "dev/reflectivity_30b"@,
            BuiltinTexture::Brick => "dev/dev_measurewall01d"@,
            BuiltinTexture::Pebble => "dev/reflectivity_40b"@,
            BuiltinTexture::Sand => "dev/reflectivity_60"@,
            BuiltinTexture::Fabric => "dev/reflectivity_60b"@,
            BuiltinTexture::SmoothPlastic => "dev/reflectivity_50b"@,
            BuiltinTexture::Metal => "dev/reflectivity_70b"@,
            BuiltinTexture::WoodPlanks => "dev/dev_measurewall01b"@,
            BuiltinTexture::Cobblestone => "dev/reflectivity_20b"@,
            BuiltinTexture::Glass => "dev/reflectivity_90b"@,
            BuiltinTexture::ForceField => "dev/reflectivity_10b"@,
            BuiltinTexture::Decal => "dev/dev_measurecrate01"@,
            BuiltinTexture::Studs => "dev/dev_measurecrate02"@,
            BuiltinTexture::Inlet => "dev/dev_measurecrate03"@,
            BuiltinTexture::SpawnLocation => "dev/dev_measuredesk"@,
        }
    }

    pub fn developer_name_text(&self) -> (name: &'static str)
        ensures
            name@ == self.developer_name(),
    {
        match self {
            BuiltinTexture::Plastic => "dev/reflectivity_50",
            BuiltinTexture::Wood => "dev/dev_measurewall01a",
            BuiltinTexture::Slate => "dev/reflectivity_30",
            BuiltinTexture::Concrete => "dev/dev_measuregeneric01b",
            BuiltinTexture::Rust => "dev/reflectivity_20",
            BuiltinTexture::DiamondPlate => "dev/reflectivity_40",
            BuiltinTexture::Aluminium => "dev/reflectivity_70",
            BuiltinTexture::Grass => "dev/dev_measuregeneric01",
            BuiltinTexture::Ice => "dev/reflectivity_90",
            BuiltinTexture::Marble => "dev/reflectivity_80",
            BuiltinTexture::Granite => "dev/reflectivity_30b",
            BuiltinTexture::Brick => "dev/dev_measurewall01d",
            BuiltinTexture::Pebble => "dev/reflectivity_40b",
            BuiltinTexture::Sand => "dev/reflectivity_60",
            BuiltinTexture::Fabric => "dev/reflectivity_60b",
            BuiltinTexture::SmoothPlastic => "dev/reflectivity_50b",
            BuiltinTexture::Metal => "dev/reflectivity_70b",
            BuiltinTexture::WoodPlanks => "dev/dev_measurewall01b",
            BuiltinTexture::Cobblestone => "dev/reflectivity_20b",
            BuiltinTexture::Glass => "dev/reflectivity_90b",
            BuiltinTexture::ForceField => "dev/reflectivity_10b",
            BuiltinTexture::Decal => "dev/dev_measurecrate01",
            BuiltinTexture::Studs => "dev/dev_measurecrate02",
            BuiltinTexture::Inlet => "dev/dev_measurecrate03",
            BuiltinTexture::SpawnLocation => "dev/dev_measuredesk",
        }
    }
}

/// What a face shows.
#[derive(Clone, Copy, PartialEq, Eq, Debug, Structural)]
pub enum TextureRef {
    /// A themed finish that ships with the converter.
    Themed(BuiltinTexture),
    /// The colour-coded measuring grid that stands for a finish.
    Developer(BuiltinTexture),
    /// An image fetched by its identifier and stored at the given pixel size.
    Asset { image: u64, size: u64 },
    /// What stands in for an image that could not be had.
    Placeholder,
    /// The sky, under the name that the run is set up with.
    Skybox,
}

/// The text `acc` followed by the name of a texture; the sky goes by the
/// name `sky`.
pub open spec fn with_texture(acc: Seq<char>, t: TextureRef, sky: Seq<char>) -> Seq<char> {
    match t {
        TextureRef::Themed(b) => acc + b.name(),
        TextureRef::Developer(b) => acc + b.developer_name(),
        TextureRef::Asset { image, size } => with_decimal(
            with_decimal(acc + "rbx/"@, image as nat) + "_"@,
            size as nat,
        ),
        TextureRef::Placeholder => acc + "rbx/placeholder"@,
        TextureRef::Skybox => acc + sky,
    }
}

/// Appends the name of a texture.
pub fn push_texture(out: &mut String, t: TextureRef, sky: &str)
    ensures
        final(out)@ == with_texture(old(out)@, t, sky@),
{
    match t {
        TextureRef::Themed(b) => {
            out.append(b.name_text());
        },
        TextureRef::Developer(b) => {
            out.append(b.developer_name_text());
        },
        TextureRef::Asset { image, size } => {
            out.append("rbx/");
            push_decimal(out, image as u128);
            out.append("_");
            push_decimal(out, size as u128);
        },
        TextureRef::Placeholder => {
            out.append("rbx/placeholder");
        },
        TextureRef::Skybox => {
            out.append(sky);
        },
    }
}

/// The name of a texture; the sky goes by the name `sky`.
pub fn texture_name(t: TextureRef, sky: &str) -> (name: String)
    ensures
        name@ == with_texture(Seq::empty(), t, sky@),
{
    let mut name: String = String::new();
    push_texture(&mut name, t, sky);
    name
}

/// The name of the file that holds the image of a texture: the name of the
/// texture and the ending of an image file.
pub fn texture_file_name(t: TextureRef, sky: &str) -> (name: String)
    ensures
        name@ == with_texture(Seq::empty(), t, sky@) + ".vtf"@,
{
    let mut name: String = String::new();
    push_texture(&mut name, t, sky);
    name.append(".vtf");
    name
}

/// One of the two axes along which a texture is laid over a face.
#[derive(Clone, Copy, PartialEq, Eq, Debug, Structural)]
pub struct TextureAxis {
    /// The direction in which the texture coordinate grows.
    pub direction: Direction,
    /// The shift of the texture along the axis, in texels.
    pub shift: i64,
    /// The length that one texel covers, in millionths of a document unit.
    pub scale: u64,
}

impl TextureAxis {
    /// The axis along which a texture runs across a face whose normal lies
    /// closest to `axis`, at `texel` millionths of a unit to the texel.
    pub open spec fn across(axis: Axis, texel: u64) -> TextureAxis {
        TextureAxis {
            direction: if axis == Axis::X {
                Direction::PosY
            } else {
                Direction::PosX
            },
            shift: 0,
            scale: texel,
        }
    }

    /// The axis along which a texture runs down a face whose normal lies
    /// closest to `axis`, at `texel` millionths of a unit to the texel.
    pub open spec fn down(axis: Axis, texel: u64) -> TextureAxis {
        TextureAxis {
            direction: if axis == Axis::Z {
                Direction::NegY
            } else {
                Direction::NegZ
            },
            shift: 0,
            scale: texel,
        }
    }

    pub fn new_across(axis: Axis, texel: u64) -> (a: TextureAxis)
        ensures
            a == TextureAxis::across(axis, texel),
    {
        TextureAxis {
            direction: match axis {
                Axis::X => Direction::PosY,
                _ => Direction::PosX,
            },
            shift: 0,
            scale: texel,
        }
    }

    pub fn new_down(axis: Axis, texel: u64) -> (a: TextureAxis)
        ensures
            a == TextureAxis::down(axis, texel),
    {
        TextureAxis {
            direction: match axis {
                Axis::Z => Direction::NegY,
                _ => Direction::NegZ,
            },
            shift: 0,
            scale: texel,
        }
    }
}

/// The texture of each of the six sides of a part, by the side's direction in
/// the part's own frame.
#[derive(Clone, Copy, PartialEq, Eq, Debug, Structural)]
pub struct TextureSet {
    pub pos_x: TextureRef,
    pub neg_x: TextureRef,
    pub pos_y: TextureRef,
    pub neg_y: TextureRef,
    pub pos_z: TextureRef,
    pub neg_z: TextureRef,
}

impl TextureSet {
    /// The set that shows `texture` on every side.
    pub open spec fn uniform(texture: TextureRef) -> TextureSet {
        TextureSet {
            pos_x: texture,
            neg_x: texture,
            pos_y: texture,
            neg_y: texture,
            pos_z: texture,
            neg_z: texture,
        }
    }

    /// The texture of the side that faces `side`.
    pub open spec fn on(self, side: Direction) -> TextureRef {
        match side {
            Direction::PosX => self.pos_x,
            Direction::NegX => self.neg_x,
            Direction::PosY => self.pos_y,
            Direction::NegY => self.neg_y,
            Direction::PosZ => self.pos_z,
            Direction::NegZ => self.neg_z,
        }
    }

    /// The set with the texture of one side replaced.
    pub open spec fn with(self, side: Direction, texture: TextureRef) -> TextureSet {
        match side {
            Direction::PosX => TextureSet { pos_x: texture, ..self },
            Direction::NegX => TextureSet { neg_x: texture, ..self },
            Direction::PosY => TextureSet { pos_y: texture, ..self },
            Direction::NegY => TextureSet { neg_y: texture, ..self },
            Direction::PosZ => TextureSet { pos_z: texture, ..self },
            Direction::NegZ => TextureSet { neg_z: texture, ..self },
        }
    }

    /// No side shows the sky.
    pub open spec fn sky_less(self) -> bool {
        forall|d: Direction| #[trigger] self.on(d) != TextureRef::Skybox
    }

    /// The set as it shows once the part is rotated: on the side that faces
    /// `d` stands what stood on the side that the rotation turns into `d`.
    pub open spec fn turned(self, r: Rotation) -> TextureSet {
        TextureSet {
            pos_x: self.on(r.source(Direction::PosX)),
            neg_x: self.on(r.source(Direction::NegX)),
            pos_y: self.on(r.source(Direction::PosY)),
            neg_y: self.on(r.source(Direction::NegY)),
            pos_z: self.on(r.source(Direction::PosZ)),
            neg_z: self.on(r.source(Direction::NegZ)),
        }
    }

    pub fn turn(&self, r: &Rotation) -> (set: TextureSet)
        ensures
            set == self.turned(*r),
    {
        TextureSet {
            pos_x: self.get(r.source_of(Direction::PosX)),
            neg_x: self.get(r.source_of(Direction::NegX)),
            pos_y: self.get(r.source_of(Direction::PosY)),
            neg_y: self.get(r.source_of(Direction::NegY)),
            pos_z: self.get(r.source_of(Direction::PosZ)),
            neg_z: self.get(r.source_of(Direction::NegZ)),
        }
    }

    pub fn new_uniform(texture: TextureRef) -> (set: TextureSet)
        ensures
            set == TextureSet::uniform(texture),
    {
        TextureSet {
            pos_x: texture,
            neg_x: texture,
            pos_y: texture,
            neg_y: texture,
            pos_z: texture,
            neg_z: texture,
        }
    }

    pub fn get(&self, side: Direction) -> (texture: TextureRef)
        ensures
            texture == self.on(side),
    {
        match side {
            Direction::PosX => self.pos_x,
            Direction::NegX => self.neg_x,
            Direction::PosY => self.pos_y,
            Direction::NegY => self.neg_y,
            Direction::PosZ => self.pos_z,
            Direction::NegZ => self.neg_z,
        }
    }

    pub fn set(&mut self, side: Direction, texture: TextureRef)
        ensures
            *final(self) == old(self).with(side, texture),
    {
        match side {
            Direction::PosX => { self.pos_x = texture; },
            Direction::NegX => { self.neg_x = texture; },
            Direction::PosY => { self.pos_y = texture; },
            Direction::NegY => { self.neg_y = texture; },
            Direction::PosZ => { self.pos_z = texture; },
            Direction::NegZ => { self.neg_z = texture; },
        }
    }
}

} // verus!
