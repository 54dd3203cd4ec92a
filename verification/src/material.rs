//! The finishes a part can have, and the textures that ship for them.

use vstd::prelude::*;
use vstd::string::*;
use crate::geometry::Direction;
use crate::texture::BuiltinTexture;

verus! {

/// What a part is made of, or what is laid over one of its sides.
#[derive(Clone, Debug)]
pub enum Material {
    Plastic,
    Wood,
    Slate,
    Concrete,
    CorrodedMetal,
    DiamondPlate,
    Foil,
    Grass,
    Ice,
    Marble,
    Granite,
    Brick,
    Pebble,
    Sand,
    Fabric,
    SmoothPlastic,
    Metal,
    WoodPlanks,
    Cobblestone,
    Glass,
    ForceField,
    /// A texture known by name, with the pixel size of its image.
    Custom { texture: Vec<u8>, width: u32, height: u32 },
    /// An image laid once over the side `face`.
    Decal { image: u64, size: u32, face: Direction },
    /// An image repeated over the side `face`.
    Texture { image: u64, size: u32, face: Direction },
}

/// Whether two byte strings are the same.
pub fn bytes_equal(a: &[u8], b: &[u8]) -> (same: bool)
    ensures
        same == (a@ == b@),
{
    if a.len() != b.len() {
        return false;
    }
    let mut i: usize = 0;
    while i < a.len()
        invariant
            a.len() == b.len(),
            i <= a.len(),
            forall|j: int| 0 <= j < i ==> a@[j] == b@[j],
        decreases a.len() - i,
    {
        if a[i] != b[i] {
            return false;
        }
        i += 1;
    }
    assert(a@ =~= b@);
    true
}

/// The texture that ships under a reserved name.
pub open spec fn reserved_texture(name: Seq<u8>) -> Option<BuiltinTexture> {
    if name == "decal".spec_bytes() {
        Some(BuiltinTexture::Decal)
    } else if name == "studs".spec_bytes() {
        Some(BuiltinTexture::Studs)
    } else if name == "inlet".spec_bytes() {
        Some(BuiltinTexture::Inlet)
    } else if name == "spawnlocation".spec_bytes() {
        Some(BuiltinTexture::SpawnLocation)
    } else {
        None
    }
}

/// Looks up the texture that ships under a reserved name.
pub fn find_reserved(name: &[u8]) -> (t: Option<BuiltinTexture>)
    ensures
        t == reserved_texture(name@),
{
    if bytes_equal(name, "decal".as_bytes()) {
        Some(BuiltinTexture::Decal)
    } else if bytes_equal(name, "studs".as_bytes()) {
        Some(BuiltinTexture::Studs)
    } else if bytes_equal(name, "inlet".as_bytes()) {
        Some(BuiltinTexture::Inlet)
    } else if bytes_equal(name, "spawnlocation".as_bytes()) {
        Some(BuiltinTexture::SpawnLocation)
    } else {
        None
    }
}

impl Material {
    /// The texture that ships for this material: one for each finish of the
    /// catalogue and for each reserved name, none for anything else.
    pub open spec fn builtin(self) -> Option<BuiltinTexture> {
        match self {
            Material::Plastic => Some(BuiltinTexture::Plastic),
            Material::Wood => Some(BuiltinTexture::Wood),
            Material::Slate => Some(BuiltinTexture::Slate),
            Material::Concrete => Some(BuiltinTexture::Concrete),
            Material::CorrodedMetal => Some(BuiltinTexture::Rust),
            Material::DiamondPlate => Some(BuiltinTexture::DiamondPlate),
            Material::Foil => Some(BuiltinTexture::Aluminium),
            Material::Grass => Some(BuiltinTexture::Grass),
            Material::Ice => Some(BuiltinTexture::Ice),
            Material::Marble => Some(BuiltinTexture::Marble),
            Material::Granite => Some(BuiltinTexture::Granite),
            Material::Brick => Some(BuiltinTexture::Brick),
            Material::Pebble => Some(BuiltinTexture::Pebble),
            Material::Sand => Some(BuiltinTexture::Sand),
            Material::Fabric => Some(BuiltinTexture::Fabric),
            Material::SmoothPlastic => Some(BuiltinTexture::SmoothPlastic),
            Material::Metal => Some(BuiltinTexture::Metal),
            Material::WoodPlanks => Some(BuiltinTexture::WoodPlanks),
            Material::Cobblestone => Some(BuiltinTexture::Cobblestone),
            Material::Glass => Some(BuiltinTexture::Glass),
            Material::ForceField => Some(BuiltinTexture::ForceField),
            Material::Custom { texture, .. } => reserved_texture(texture@),
            Material::Decal { .. } => None,
            Material::Texture { .. } => None,
        }
    }

    /// This is one of the finishes of the catalogue.
    pub open spec fn is_finish(self) -> bool {
        !(self is Custom) && !(self is Decal) && !(self is Texture)
    }

    /// The image that a decal or a repeated texture shows.
    pub open spec fn image(self) -> Option<u64> {
        match self {
            Material::Decal { image, .. } => Some(image),
            Material::Texture { image, .. } => Some(image),
            _ => None,
        }
    }

    /// The side that a decal or a repeated texture is laid over.
    pub open spec fn face(self) -> Option<Direction> {
        match self {
            Material::Decal { face, .. } => Some(face),
            Material::Texture { face, .. } => Some(face),
            _ => None,
        }
    }

    /// Selects the texture that ships for this material.
    pub fn texture_input(&self) -> (t: Option<BuiltinTexture>)
        ensures
            t == self.builtin(),
    {
        match self {
            Material::Plastic => Some(BuiltinTexture::Plastic),
            Material::Wood => Some(BuiltinTexture::Wood),
            Material::Slate => Some(BuiltinTexture::Slate),
            Material::Concrete => Some(BuiltinTexture::Concrete),
            Material::CorrodedMetal => Some(BuiltinTexture::Rust),
            Material::DiamondPlate => Some(BuiltinTexture::DiamondPlate),
            Material::Foil => Some(BuiltinTexture::Aluminium),
            Material::Grass => Some(BuiltinTexture::Grass),
            Material::Ice => Some(BuiltinTexture::Ice),
            Material::Marble => Some(BuiltinTexture::Marble),
            Material::Granite => Some(BuiltinTexture::Granite),
            Material::Brick => Some(BuiltinTexture::Brick),
            Material::Pebble => Some(BuiltinTexture::Pebble),
            Material::Sand => Some(BuiltinTexture::Sand),
            Material::Fabric => Some(BuiltinTexture::Fabric),
            Material::SmoothPlastic => Some(BuiltinTexture::SmoothPlastic),
            Material::Metal => Some(BuiltinTexture::Metal),
            Material::WoodPlanks => Some(BuiltinTexture::WoodPlanks),
            Material::Cobblestone => Some(BuiltinTexture::Cobblestone),
            Material::Glass => Some(BuiltinTexture::Glass),
            Material::ForceField => Some(BuiltinTexture::ForceField),
            Material::Custom { texture, .. } => find_reserved(texture.as_slice()),
            Material::Decal { .. } => None,
            Material::Texture { .. } => None,
        }
    }

    pub fn is_catalogue_finish(&self) -> (b: bool)
        ensures
            b == self.is_finish(),
    {
        match self {
            Material::Custom { .. } => false,
            Material::Decal { .. } => false,
            Material::Texture { .. } => false,
            _ => true,
        }
    }

    pub fn image_of(&self) -> (r: Option<u64>)
        ensures
            r == self.image(),
    {
        match self {
            Material::Decal { image, .. } => Some(*image),
            Material::Texture { image, .. } => Some(*image),
            _ => None,
        }
    }

    pub fn face_of(&self) -> (r: Option<Direction>)
        ensures
            r == self.face(),
    {
        match self {
            Material::Decal { face, .. } => Some(*face),
            Material::Texture { face, .. } => Some(*face),
            _ => None,
        }
    }
}

} // verus!
