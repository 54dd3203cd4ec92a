use rbxlx2vmf::config::ConversionConfig;
use rbxlx2vmf::geometry::Direction;
use rbxlx2vmf::material::{bytes_equal, find_reserved, Material};
use rbxlx2vmf::resolver::{
    CacheState, FetchRequest, MaterialResolutionError, MaterialResolver, Resolution,
};
use rbxlx2vmf::texture::{BuiltinTexture, TextureRef};

fn config(texture_output: bool, developer_textures: bool, remote_fetch: bool) -> ConversionConfig {
    ConversionConfig {
        map_scale: 15000,
        decal_size: 256,
        texture_output,
        developer_textures,
        optimize: false,
        auto_skybox: false,
        skybox_clearance: 0,
        skybox_name: String::from("city"),
        remote_fetch,
    }
}

fn custom(name: &str) -> Material {
    Material::Custom { texture: name.as_bytes().to_vec(), width: 64, height: 64 }
}

fn decal(image: u64) -> Material {
    Material::Decal { image, size: 0, face: Direction::NegZ }
}

fn ready(texture: TextureRef) -> Resolution {
    Resolution::Ready { texture, fault: None }
}

#[test]
fn every_finish_has_the_texture_that_ships_for_it() {
    let table = [
        (Material::Plastic, BuiltinTexture::Plastic),
        (Material::Wood, BuiltinTexture::Wood),
        (Material::Slate, BuiltinTexture::Slate),
        (Material::Concrete, BuiltinTexture::Concrete),
        (Material::CorrodedMetal, BuiltinTexture::Rust),
        (Material::DiamondPlate, BuiltinTexture::DiamondPlate),
        (Material::Foil, BuiltinTexture::Aluminium),
        (Material::Grass, BuiltinTexture::Grass),
        (Material::Ice, BuiltinTexture::Ice),
        (Material::Marble, BuiltinTexture::Marble),
        (Material::Granite, BuiltinTexture::Granite),
        (Material::Brick, BuiltinTexture::Brick),
        (Material::Pebble, BuiltinTexture::Pebble),
        (Material::Sand, BuiltinTexture::Sand),
        (Material::Fabric, BuiltinTexture::Fabric),
        (Material::SmoothPlastic, BuiltinTexture::SmoothPlastic),
        (Material::Metal, BuiltinTexture::Metal),
        (Material::WoodPlanks, BuiltinTexture::WoodPlanks),
        (Material::Cobblestone, BuiltinTexture::Cobblestone),
        (Material::Glass, BuiltinTexture::Glass),
        (Material::ForceField, BuiltinTexture::ForceField),
        (custom("decal"), BuiltinTexture::Decal),
        (custom("studs"), BuiltinTexture::Studs),
        (custom("inlet"), BuiltinTexture::Inlet),
        (custom("spawnlocation"), BuiltinTexture::SpawnLocation),
    ];
    let mut resolver = MaterialResolver::new();
    for (material, texture) in table {
        assert_eq!(material.texture_input(), Some(texture));
        assert_eq!(
            resolver.resolve(&material, &config(true, false, true)),
            ready(TextureRef::Themed(texture))
        );
        let grid = resolver.resolve(&material, &config(true, true, true));
        if material.is_catalogue_finish() {
            assert_eq!(grid, ready(TextureRef::Developer(texture)));
        } else {
            assert_eq!(grid, ready(TextureRef::Themed(texture)));
        }
    }
    assert!(resolver.cache.is_empty());
}

#[test]
fn what_ships_for_nothing() {
    assert_eq!(custom("").texture_input(), None);
    assert_eq!(custom("Decal").texture_input(), None);
    assert_eq!(custom("decals").texture_input(), None);
    assert_eq!(custom("spawn-location").texture_input(), None);
    assert_eq!(decal(5).texture_input(), None);
    assert_eq!(Material::Texture { image: 5, size: 2, face: Direction::PosY }.texture_input(), None);
    assert_eq!(find_reserved(b"studs"), Some(BuiltinTexture::Studs));
    assert_eq!(find_reserved(b"stud"), None);
    assert!(bytes_equal(b"", b""));
    assert!(bytes_equal(b"abc", b"abc"));
    assert!(!bytes_equal(b"abc", b"abd"));
    assert!(!bytes_equal(b"abc", b"ab"));
    assert_eq!(decal(5).image_of(), Some(5));
    assert_eq!(decal(5).face_of(), Some(Direction::NegZ));
    assert_eq!(Material::Glass.image_of(), None);
    assert_eq!(Material::Glass.face_of(), None);
}

#[test]
fn unknown_name_gets_the_placeholder_and_a_warning() {
    let mut resolver = MaterialResolver::new();
    assert_eq!(
        resolver.resolve(&custom("marble2"), &config(true, false, true)),
        Resolution::Ready {
            texture: TextureRef::Placeholder,
            fault: Some(MaterialResolutionError::UnknownName)
        }
    );
    assert_eq!(
        resolver.resolve(&custom("marble2"), &config(true, true, false)),
        Resolution::Ready {
            texture: TextureRef::Placeholder,
            fault: Some(MaterialResolutionError::UnknownName)
        }
    );
    assert!(resolver.cache.is_empty());
}

#[test]
fn decal_without_a_place_to_fetch_from_gets_the_placeholder_and_one_warning() {
    let mut resolver = MaterialResolver::new();
    let cfg = config(true, false, false);
    assert_eq!(
        resolver.resolve(&decal(77), &cfg),
        Resolution::Ready {
            texture: TextureRef::Placeholder,
            fault: Some(MaterialResolutionError::NoSource)
        }
    );
    assert_eq!(resolver.lookup(77), Some(CacheState::Done(TextureRef::Placeholder)));
    // What was decided first stands, and is not warned of again.
    assert_eq!(resolver.resolve(&decal(77), &cfg), ready(TextureRef::Placeholder));
    assert_eq!(resolver.resolve(&decal(77), &config(true, false, true)), ready(TextureRef::Placeholder));
    assert_eq!(resolver.cache.len(), 1);
}

#[test]
fn nothing_is_fetched_or_remembered_where_no_textures_are_written() {
    let mut resolver = MaterialResolver::new();
    let cfg = config(false, false, true);
    for _ in 0..2 {
        assert_eq!(
            resolver.resolve(&decal(77), &cfg),
            ready(TextureRef::Asset { image: 77, size: 256 })
        );
        assert_eq!(
            resolver.resolve(&Material::Texture { image: 9, size: 4, face: Direction::PosX }, &cfg),
            ready(TextureRef::Asset { image: 9, size: 256 })
        );
    }
    assert!(resolver.cache.is_empty());
    assert_eq!(resolver.lookup(77), None);
}

#[test]
fn without_a_source_the_placeholder_stands_in_even_where_no_textures_are_written() {
    let mut resolver = MaterialResolver::new();
    let cfg = config(false, false, false);
    assert_eq!(
        resolver.resolve(&decal(77), &cfg),
        Resolution::Ready {
            texture: TextureRef::Placeholder,
            fault: Some(MaterialResolutionError::NoSource)
        }
    );
    assert_eq!(resolver.resolve(&decal(77), &cfg), ready(TextureRef::Placeholder));
    assert_eq!(resolver.lookup(77), Some(CacheState::Done(TextureRef::Placeholder)));
    assert_eq!(resolver.cache.len(), 1);
}

#[test]
fn an_image_is_asked_for_once() {
    let mut resolver = MaterialResolver::new();
    let cfg = config(true, false, true);
    let request = FetchRequest { image: 77, size: 256 };
    assert_eq!(resolver.resolve(&decal(77), &cfg), Resolution::Fetch(request));
    assert_eq!(resolver.lookup(77), Some(CacheState::Pending));
    assert_eq!(resolver.resolve(&decal(77), &cfg), Resolution::Wait);
    assert_eq!(
        resolver.resolve(&Material::Texture { image: 77, size: 1, face: Direction::PosY }, &cfg),
        Resolution::Wait
    );
    assert_eq!(
        resolver.resolve(&decal(78), &cfg),
        Resolution::Fetch(FetchRequest { image: 78, size: 256 })
    );
    assert_eq!(
        resolver.settle(request, true),
        Some(ready(TextureRef::Asset { image: 77, size: 256 }))
    );
    assert_eq!(resolver.settle(request, false), None);
    assert_eq!(
        resolver.settle(FetchRequest { image: 78, size: 256 }, false),
        Some(Resolution::Ready {
            texture: TextureRef::Placeholder,
            fault: Some(MaterialResolutionError::FetchFailed)
        })
    );
    assert_eq!(resolver.settle(FetchRequest { image: 79, size: 256 }, true), None);
    assert_eq!(resolver.lookup(79), None);
    assert_eq!(resolver.resolve(&decal(77), &cfg), ready(TextureRef::Asset { image: 77, size: 256 }));
    assert_eq!(resolver.resolve(&decal(78), &cfg), ready(TextureRef::Placeholder));
    assert_eq!(resolver.cache.len(), 2);
}
