//! From materials to textures. Finishes are looked up; images are fetched
//! once each, by whoever runs the conversion, and remembered.

use std::collections::HashMap;
use vstd::prelude::*;
use crate::config::ConversionConfig;
use crate::material::Material;
use crate::texture::TextureRef;

verus! {

broadcast use vstd::std_specs::hash::group_hash_axioms;

/// What is known of an image.
#[derive(Clone, Copy, PartialEq, Eq, Debug, Structural)]
pub enum CacheState {
    /// The image has been asked for and has not come yet.
    Pending,
    /// The image has the given texture, for good.
    Done(TextureRef),
}

/// An image to fetch and to store at the given pixel size.
#[derive(Clone, Copy, PartialEq, Eq, Debug, Structural)]
pub struct FetchRequest {
    pub image: u64,
    pub size: u64,
}

/// Why something stands in for the texture of a material.
#[derive(Clone, Copy, PartialEq, Eq, Debug, Structural)]
pub enum MaterialResolutionError {
    /// The material goes by a name under which nothing ships.
    UnknownName,
    /// There is no place to fetch the image from.
    NoSource,
    /// The image was asked for and did not come.
    FetchFailed,
}

/// The answer to a material.
#[derive(Clone, Copy, PartialEq, Eq, Debug, Structural)]
pub enum Resolution {
    /// The texture of the material; with the reason, where the texture only
    /// stands in for what could not be had.
    Ready { texture: TextureRef, fault: Option<MaterialResolutionError> },
    /// The image is to be fetched now; its texture is known once the fetch is settled.
    Fetch(FetchRequest),
    /// The image has been asked for before; its texture is known once that fetch is settled.
    Wait,
}

/// The textures of the images seen in one run.
pub struct MaterialResolver {
    pub cache: HashMap<u64, CacheState>,
}

impl View for MaterialResolver {
    type V = Map<u64, CacheState>;

    open spec fn view(&self) -> Map<u64, CacheState> {
        self.cache@
    }
}

/// The texture of a material that needs no image: the themed texture of a
/// finish or of a reserved name, or the measuring grid of a finish where
/// those are asked for; what stands in for a name that is not known.
pub open spec fn plain_resolution(material: Material, developer_textures: bool) -> Resolution {
    match material.builtin() {
        Some(b) => Resolution::Ready {
            texture: if developer_textures && material.is_finish() {
                TextureRef::Developer(b)
            } else {
                TextureRef::Themed(b)
            },
            fault: None,
        },
        None => Resolution::Ready {
            texture: TextureRef::Placeholder,
            fault: Some(MaterialResolutionError::UnknownName),
        },
    }
}

/// The answer to a material and what is known of the images afterwards.
pub open spec fn resolution(
    cache: Map<u64, CacheState>,
    material: Material,
    config: ConversionConfig,
) -> (Resolution, Map<u64, CacheState>) {
    match material.image() {
        None => (plain_resolution(material, config.developer_textures), cache),
        Some(image) => if cache.contains_key(image) {
            match cache[image] {
                CacheState::Done(texture) => (Resolution::Ready { texture, fault: None }, cache),
                CacheState::Pending => (Resolution::Wait, cache),
            }
        } else if !config.remote_fetch {
            (
                Resolution::Ready {
                    texture: TextureRef::Placeholder,
                    fault: Some(MaterialResolutionError::NoSource),
                },
                cache.insert(image, CacheState::Done(TextureRef::Placeholder)),
            )
        } else if !config.texture_output {
            (
                Resolution::Ready {
                    texture: TextureRef::Asset { image, size: config.decal_size },
                    fault: None,
                },
                cache,
            )
        } else {
            (
                Resolution::Fetch(FetchRequest { image, size: config.decal_size }),
                cache.insert(image, CacheState::Pending),
            )
        },
    }
}

/// The answer once a fetch has ended, and what is known of the images
/// afterwards: nothing changes for an image that was not being fetched.
pub open spec fn settlement(
    cache: Map<u64, CacheState>,
    request: FetchRequest,
    fetched: bool,
) -> (Option<Resolution>, Map<u64, CacheState>) {
    if cache.contains_key(request.image) && cache[request.image] == CacheState::Pending {
        let texture = if fetched {
            TextureRef::Asset { image: request.image, size: request.size }
        } else {
            TextureRef::Placeholder
        };
        (
            Some(
                Resolution::Ready {
                    texture,
                    fault: if fetched {
                        None
                    } else {
                        Some(MaterialResolutionError::FetchFailed)
                    },
                },
            ),
            cache.insert(request.image, CacheState::Done(texture)),
        )
    } else {
        (None, cache)
    }
}

impl MaterialResolver {
    /// A resolver that knows no image.
    pub fn new() -> (r: MaterialResolver)
        ensures
            r@ == Map::<u64, CacheState>::empty(),
    {
        MaterialResolver { cache: HashMap::new() }
    }

    /// What is known of an image.
    pub fn lookup(&self, image: u64) -> (r: Option<CacheState>)
        ensures
            r == (if self@.contains_key(image) {
                Some(self@[image])
            } else {
                None
            }),
    {
        match self.cache.get(&image) {
            Some(state) => Some(*state),
            None => None,
        }
    }

    /// Resolves a material. An image is asked for at most once: the first
    /// answer for it stands, whatever is asked later.
    pub fn resolve(&mut self, material: &Material, config: &ConversionConfig) -> (r: Resolution)
        ensures
            (r, final(self)@) == resolution(old(self)@, *material, *config),
    {
        match material.image_of() {
            None => match material.texture_input() {
                Some(b) => Resolution::Ready {
                    texture: if config.developer_textures && material.is_catalogue_finish() {
                        TextureRef::Developer(b)
                    } else {
                        TextureRef::Themed(b)
                    },
                    fault: None,
                },
                None => Resolution::Ready {
                    texture: TextureRef::Placeholder,
                    fault: Some(MaterialResolutionError::UnknownName),
                },
            },
            Some(image) => match self.lookup(image) {
                Some(CacheState::Done(texture)) => Resolution::Ready { texture, fault: None },
                Some(CacheState::Pending) => Resolution::Wait,
                None => {
                    if !config.remote_fetch {
                        self.cache.insert(image, CacheState::Done(TextureRef::Placeholder));
                        Resolution::Ready {
                            texture: TextureRef::Placeholder,
                            fault: Some(MaterialResolutionError::NoSource),
                        }
                    } else if !config.texture_output {
                        Resolution::Ready {
                            texture: TextureRef::Asset { image, size: config.decal_size },
                            fault: None,
                        }
                    } else {
                        self.cache.insert(image, CacheState::Pending);
                        Resolution::Fetch(FetchRequest { image, size: config.decal_size })
                    }
                },
            },
        }
    }

    /// Records how a fetch ended: the image has its texture if it came, and
    /// what stands in for it, with a warning, if it did not.
    pub fn settle(&mut self, request: FetchRequest, fetched: bool) -> (r: Option<Resolution>)
        ensures
            (r, final(self)@) == settlement(old(self)@, request, fetched),
    {
        match self.lookup(request.image) {
            Some(CacheState::Pending) => {
                let texture: TextureRef = if fetched {
                    TextureRef::Asset { image: request.image, size: request.size }
                } else {
                    TextureRef::Placeholder
                };
                self.cache.insert(request.image, CacheState::Done(texture));
                Some(
                    Resolution::Ready {
                        texture,
                        fault: if fetched {
                            None
                        } else {
                            Some(MaterialResolutionError::FetchFailed)
                        },
                    },
                )
            },
            _ => None,
        }
    }
}

/// Nothing is fetched where no texture files are written: the answer to
/// an image is a reference to it, and nothing is remembered, unless there is
/// no place to fetch from.
pub proof fn law_no_fetch_without_output(
    cache: Map<u64, CacheState>,
    material: Material,
    config: ConversionConfig,
)
    requires
        !config.texture_output,
    ensures
        !(resolution(cache, material, config).0 is Fetch),
        config.remote_fetch ==> resolution(cache, material, config).1 == cache,
{
}

/// Where there is no place to fetch from, an image of which nothing is known
/// gets what stands in for it, with the reason, whether texture files are
/// written or not; nothing is asked for, and the answer is remembered.
pub proof fn law_no_source_falls_back(
    cache: Map<u64, CacheState>,
    material: Material,
    config: ConversionConfig,
)
    requires
        material.image() is Some,
        !cache.contains_key(material.image().unwrap()),
        !config.remote_fetch,
    ensures
        resolution(cache, material, config) == (
            Resolution::Ready {
                texture: TextureRef::Placeholder,
                fault: Some(MaterialResolutionError::NoSource),
            },
            cache.insert(material.image().unwrap(), CacheState::Done(TextureRef::Placeholder)),
        ),
{
}

/// Nothing that is known of an image is the sky.
pub open spec fn sky_free(cache: Map<u64, CacheState>) -> bool {
    forall|image: u64| #[trigger]
        cache.contains_key(image) ==> cache[image] != CacheState::Done(TextureRef::Skybox)
}

/// No material is answered with the sky, and nothing that is remembered of
/// an image ever is the sky.
pub proof fn law_no_material_is_the_sky(
    cache: Map<u64, CacheState>,
    material: Material,
    config: ConversionConfig,
    request: FetchRequest,
    fetched: bool,
)
    requires
        sky_free(cache),
    ensures
        sky_free(Map::<u64, CacheState>::empty()),
        sky_free(resolution(cache, material, config).1),
        sky_free(settlement(cache, request, fetched).1),
        resolution(cache, material, config).0 matches Resolution::Ready { texture, .. }
            ==> texture != TextureRef::Skybox,
        settlement(cache, request, fetched).0 matches Some(Resolution::Ready { texture, .. })
            ==> texture != TextureRef::Skybox,
{
}


/// An image is asked for only if nothing was known of it, and is known of
/// afterwards: it is never asked for twice. What is known is never forgotten,
/// and a texture, once known, never changes.
pub proof fn law_fetch_once(
    cache: Map<u64, CacheState>,
    material: Material,
    config: ConversionConfig,
)
    ensures
        ({
            let (answer, after) = resolution(cache, material, config);
            &&& answer matches Resolution::Fetch(request) ==> material.image() == Some(request.image)
                && !cache.contains_key(request.image) && after.contains_key(request.image)
            &&& forall|image: u64| #[trigger]
                cache.contains_key(image) ==> after.contains_key(image) && after[image]
                    == cache[image]
        }),
{
}

/// The finishes of the catalogue need no image and no memory: their texture
/// depends on the material and the choice of measuring grids alone.
pub proof fn law_finishes_are_looked_up(
    cache: Map<u64, CacheState>,
    material: Material,
    config: ConversionConfig,
)
    requires
        material.image() is None,
    ensures
        resolution(cache, material, config) == (
            plain_resolution(material, config.developer_textures),
            cache,
        ),
{
}

} // verus!
