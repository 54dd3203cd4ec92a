use rbxlx2vmf::config::ConversionConfig;
use rbxlx2vmf::convert::{
    clearance, collect_brushes, convert, prepare, settle_fetches, texture_of, textures_of, Warning,
};
use rbxlx2vmf::geometry::{Direction, Extent, Vec3};
use rbxlx2vmf::material::Material;
use rbxlx2vmf::parser::parse_scene;
use rbxlx2vmf::prism::prism_extent;
use rbxlx2vmf::resolver::{FetchRequest, MaterialResolutionError, MaterialResolver};
use rbxlx2vmf::scene::NodeKind;
use rbxlx2vmf::shape::GeometryError;
use rbxlx2vmf::skybox::SkyboxError;
use rbxlx2vmf::texture::{BuiltinTexture, TextureRef};

fn config(optimize: bool, auto_skybox: bool) -> ConversionConfig {
    ConversionConfig {
        map_scale: 15000,
        decal_size: 256,
        texture_output: true,
        developer_textures: false,
        optimize,
        auto_skybox,
        skybox_clearance: 0,
        skybox_name: String::from("sky_day01_05"),
        remote_fetch: false,
    }
}

fn part(class: &str, x: &str, size: &str, material: &str, children: &str) -> String {
    format!(
        "<Item class=\"{}\" referent=\"RBX1\">\n<Properties>\n<CoordinateFrame name=\"CFrame\">\n<X>{}</X><Y>0</Y><Z>0</Z>\n<R00>1</R00><R01>0</R01><R02>0</R02>\n<R10>0</R10><R11>1</R11><R12>0</R12>\n<R20>0</R20><R21>0</R21><R22>1</R22>\n</CoordinateFrame>\n<token name=\"Material\">{}</token>\n<token name=\"shape\">1</token>\n<Vector3 name=\"size\"><X>{}</X><Y>4</Y><Z>4</Z></Vector3>\n<float name=\"Transparency\">0</float>\n<Color3uint8 name=\"Color3uint8\">4288914085</Color3uint8>\n</Properties>\n{}</Item>\n",
        class, x, material, size, children
    )
}

fn decal(face: u8, address: &str) -> String {
    format!(
        "<Item class=\"Decal\"><Properties><token name=\"Face\">{}</token><Content name=\"Texture\"><url>{}</url></Content></Properties></Item>\n",
        face, address
    )
}

fn document(items: &str) -> String {
    format!(
        "<roblox version=\"4\">\n<Item class=\"Workspace\" referent=\"RBX0\">\n<Properties><string name=\"Name\">Workspace</string></Properties>\n{}</Item>\n</roblox>\n",
        items
    )
}

#[test]
fn one_concrete_block_gives_one_brush_with_six_concrete_faces() {
    let text = document(&part("Part", "0", "4", "816", ""));
    let scene = parse_scene(text.as_bytes()).unwrap();
    let mut resolver = MaterialResolver::new();
    let cfg = config(false, false);
    let (fetches, warnings) = prepare(&scene, &mut resolver, &cfg);
    assert!(fetches.is_empty());
    assert!(warnings.is_empty());
    let out = convert(&scene, &resolver, &cfg).unwrap();
    assert_eq!(out.brushes, 1);
    assert_eq!(out.warnings, Vec::<Warning>::new());
    let doc = out.document;
    assert_eq!(doc.matches("\tsolid\n").count(), 1);
    assert_eq!(doc.matches("\t\tside\n").count(), 6);
    assert_eq!(doc.matches("\"material\" \"rbx/concrete\"").count(), 6);
    assert_eq!(doc.matches("\"material\"").count(), 6);
    assert_eq!(doc.matches("\"id\"").count(), 8);
    for plane in [
        "(30 -30 30) (30 30 30) (30 30 -30)",
        "(-30 -30 -30) (-30 30 -30) (-30 30 30)",
        "(30 30 -30) (30 30 30) (-30 30 30)",
        "(-30 -30 -30) (-30 -30 30) (30 -30 30)",
        "(-30 30 30) (30 30 30) (30 -30 30)",
        "(-30 -30 -30) (30 -30 -30) (30 30 -30)",
    ] {
        assert!(doc.contains(&format!("\"plane\" \"{}\"", plane)), "{}", plane);
    }
    assert!(doc.contains("\"uaxis\" \"[1 0 0 0] 0.46875\""));
    assert!(doc.contains("\"color\" \"163 162 165\""));
    assert!(doc.contains("\"skyname\" \"sky_day01_05\""));
    assert!(doc.starts_with("versioninfo\n{\n"));
    assert!(doc.ends_with("\t}\n}\n"));
}

#[test]
fn two_blocks_face_to_face_collapse_when_asked_to() {
    let text = document(&format!(
        "{}{}",
        part("Part", "0", "4", "816", ""),
        part("Part", "4", "4", "816", "")
    ));
    let scene = parse_scene(text.as_bytes()).unwrap();
    let resolver = MaterialResolver::new();
    let apart = convert(&scene, &resolver, &config(false, false)).unwrap();
    assert_eq!(apart.brushes, 2);
    assert_eq!(apart.document.matches("\t\tside\n").count(), 12);
    let joined = convert(&scene, &resolver, &config(true, false)).unwrap();
    assert_eq!(joined.brushes, 1);
    assert!(joined.warnings.is_empty());
    assert_eq!(joined.document.matches("\tsolid\n").count(), 1);
    assert_eq!(joined.document.matches("\t\tside\n").count(), 6);
    assert!(joined.document.contains("\"plane\" \"(90 -30 30) (90 30 30) (90 30 -30)\""));
    assert!(joined.document.contains("\"plane\" \"(-30 -30 -30) (-30 30 -30) (-30 30 30)\""));
    let (brushes, _) = collect_brushes(&scene, &resolver, &config(true, false));
    assert_eq!(brushes.len(), 2);
    assert_eq!(
        prism_extent(&brushes[1]).unwrap(),
        Extent {
            low: Vec3::new(60_000_000, -60_000_000, -60_000_000),
            high: Vec3::new(180_000_000, 60_000_000, 60_000_000)
        }
    );
}

#[test]
fn blocks_of_different_material_stay_apart_in_the_document() {
    let text = document(&format!(
        "{}{}",
        part("Part", "0", "4", "816", ""),
        part("Part", "4", "4", "848", "")
    ));
    let scene = parse_scene(text.as_bytes()).unwrap();
    let out = convert(&scene, &MaterialResolver::new(), &config(true, false)).unwrap();
    assert_eq!(out.brushes, 2);
    assert_eq!(out.document.matches("rbx/concrete").count(), 6);
    assert_eq!(out.document.matches("rbx/brick").count(), 6);
}

#[test]
fn a_decal_that_cannot_be_fetched_gets_the_placeholder_and_one_warning() {
    let text = document(&part(
        "Part",
        "0",
        "4",
        "816",
        &decal(1, "http://www.roblox.com/asset/?id=4711"),
    ));
    let scene = parse_scene(text.as_bytes()).unwrap();
    let mut resolver = MaterialResolver::new();
    let cfg = config(false, false);
    let (fetches, warnings) = prepare(&scene, &mut resolver, &cfg);
    assert!(fetches.is_empty());
    assert_eq!(
        warnings,
        vec![Warning::Substituted { node: 1, reason: MaterialResolutionError::NoSource }]
    );
    let out = convert(&scene, &resolver, &cfg).unwrap();
    assert!(out.warnings.is_empty());
    assert_eq!(out.brushes, 1);
    assert_eq!(out.document.matches("\"material\" \"rbx/placeholder\"").count(), 1);
    assert_eq!(out.document.matches("\"material\" \"rbx/concrete\"").count(), 5);
    // The decal lies on top, and the top looks up in the document.
    let top = out.document.find("\"plane\" \"(-30 30 30) (30 30 30) (30 -30 30)\"").unwrap();
    let placeholder = out.document.find("rbx/placeholder").unwrap();
    assert!(top < placeholder && placeholder - top < 80);
}

#[test]
fn a_decal_without_a_source_falls_back_whatever_the_run_is_set_up_with() {
    let text = document(&part("Part", "0", "4", "816", &decal(5, "rbxassetid://4711")));
    let scene = parse_scene(text.as_bytes()).unwrap();
    for texture_output in [false, true] {
        for optimize in [false, true] {
            for auto_skybox in [false, true] {
                let mut cfg = config(optimize, auto_skybox);
                cfg.texture_output = texture_output;
                let mut resolver = MaterialResolver::new();
                let (fetches, warnings) = prepare(&scene, &mut resolver, &cfg);
                assert!(fetches.is_empty());
                assert_eq!(
                    warnings,
                    vec![Warning::Substituted {
                        node: 1,
                        reason: MaterialResolutionError::NoSource
                    }]
                );
                let out = convert(&scene, &resolver, &cfg).unwrap();
                assert!(out.warnings.is_empty());
                assert_eq!(out.brushes, 1);
                assert_eq!(out.document.matches("\"material\" \"rbx/placeholder\"").count(), 1);
                assert_eq!(out.document.matches("rbx/4711").count(), 0);
            }
        }
    }
    // Where images can be fetched but no texture files are written, the decal
    // is referred to and nothing is asked for.
    let mut cfg = config(false, false);
    cfg.texture_output = false;
    cfg.remote_fetch = true;
    let mut resolver = MaterialResolver::new();
    let (fetches, warnings) = prepare(&scene, &mut resolver, &cfg);
    assert!(fetches.is_empty());
    assert!(warnings.is_empty());
    let out = convert(&scene, &resolver, &cfg).unwrap();
    assert_eq!(out.document.matches("\"material\" \"rbx/4711_256\"").count(), 1);
}

#[test]
fn images_are_fetched_once_and_settled_before_the_brushes_are_made() {
    let text = document(&format!(
        "{}{}",
        part(
            "Part",
            "0",
            "4",
            "816",
            &format!("{}{}", decal(1, "rbxassetid://4711"), decal(5, "rbxassetid://4712"))
        ),
        part("Part", "9", "4", "816", &decal(0, "rbxassetid://4711"))
    ));
    let scene = parse_scene(text.as_bytes()).unwrap();
    let mut resolver = MaterialResolver::new();
    let mut cfg = config(false, false);
    cfg.remote_fetch = true;
    let (fetches, warnings) = prepare(&scene, &mut resolver, &cfg);
    assert_eq!(
        fetches,
        vec![FetchRequest { image: 4711, size: 256 }, FetchRequest { image: 4712, size: 256 }]
    );
    assert!(warnings.is_empty());
    // Before the fetches are settled nothing is known for good.
    let material = Material::Decal { image: 4711, size: 0, face: Direction::PosY };
    assert_eq!(texture_of(&resolver, &material, &cfg), TextureRef::Placeholder);
    let warnings = settle_fetches(&mut resolver, &fetches, &vec![true, false]);
    assert_eq!(warnings, vec![Warning::Unfetched { image: 4712 }]);
    assert_eq!(
        texture_of(&resolver, &material, &cfg),
        TextureRef::Asset { image: 4711, size: 256 }
    );
    let first = match &scene.nodes[1].kind {
        NodeKind::Part(p) => textures_of(&resolver, p, &cfg),
        _ => panic!("no part"),
    };
    assert_eq!(first.get(Direction::PosY), TextureRef::Asset { image: 4711, size: 256 });
    assert_eq!(first.get(Direction::NegZ), TextureRef::Placeholder);
    assert_eq!(first.get(Direction::PosX), TextureRef::Themed(BuiltinTexture::Concrete));
    let out = convert(&scene, &resolver, &cfg).unwrap();
    assert_eq!(out.document.matches("rbx/4711_256").count(), 2);
    assert_eq!(out.document.matches("rbx/placeholder").count(), 1);
    assert_eq!(out.document.matches("rbx/concrete").count(), 9);
    // Asked again, nothing is fetched again.
    let (fetches, warnings) = prepare(&scene, &mut resolver, &cfg);
    assert!(fetches.is_empty());
    assert!(warnings.is_empty());
}

#[test]
fn a_part_without_a_brush_is_left_out_with_a_warning() {
    let text = document(&format!(
        "{}{}{}{}",
        part("Part", "0", "0", "816", ""),
        part("Part", "4", "4", "816", "").replace("<R00>1</R00>", "<R00>0.5</R00>"),
        part("Part", "20", "4", "816", "")
            .replace("<R00>1</R00>", "<R00>0.8</R00>")
            .replace("<R01>0</R01>", "<R01>-0.6</R01>")
            .replace("<R10>0</R10>", "<R10>0.6</R10>")
            .replace("<R11>1</R11>", "<R11>0.8</R11>"),
        part("Part", "8", "4", "816", "")
    ));
    let scene = parse_scene(text.as_bytes()).unwrap();
    let out = convert(&scene, &MaterialResolver::new(), &config(true, true)).unwrap();
    assert_eq!(out.brushes, 2);
    assert_eq!(
        out.warnings,
        vec![
            Warning::Skipped { node: 1, error: GeometryError::Degenerate },
            Warning::Skipped { node: 2, error: GeometryError::Skewed }
        ]
    );
    assert_eq!(out.document.matches("\tsolid\n").count(), 3);
    // The part that is turned about the third axis of the scene: its first
    // side looks along (0.8, 0.6, 0) in the scene, (0.8, 0, 0.6) in the document.
    assert!(out.document.contains("\"plane\" \"(342 -30 -6) (306 -30 42) (306 30 42)\""));
}

#[test]
fn the_sky_is_put_round_the_scene_when_asked_for() {
    let text = document(&part("Part", "0", "4", "816", ""));
    let scene = parse_scene(text.as_bytes()).unwrap();
    let mut cfg = config(false, true);
    cfg.skybox_clearance = 2000;
    assert_eq!(clearance(&cfg), 60_000_000);
    let out = convert(&scene, &MaterialResolver::new(), &cfg).unwrap();
    assert_eq!(out.brushes, 1);
    assert!(out.warnings.is_empty());
    assert_eq!(out.document.matches("\tsolid\n").count(), 2);
    // The six faces of the sky show the name of the sky, and nothing else does.
    assert_eq!(out.document.matches("\"material\" \"sky_day01_05\"").count(), 6);
    assert_eq!(out.document.matches("\"material\" \"rbx/concrete\"").count(), 6);
    assert_eq!(out.document.matches("\"skyname\" \"sky_day01_05\"").count(), 1);
    let mut other = config(false, true);
    other.skybox_name = String::from("painted");
    let painted = convert(&scene, &MaterialResolver::new(), &other).unwrap();
    assert_eq!(painted.document.matches("\"material\" \"painted\"").count(), 6);
    assert_eq!(painted.document.matches("sky_day01_05").count(), 0);
    other.auto_skybox = false;
    let plain = convert(&scene, &MaterialResolver::new(), &other).unwrap();
    assert_eq!(plain.document.matches("painted").count(), 1);
    // Thirty units of the block, thirty of clearance, sixteen of margin; thirty more at the top.
    assert!(out.document.contains("\"plane\" \"(76 -76 -76) (76 76 -76) (76 76 106)\""));
    assert!(out.document.contains("\"plane\" \"(-76 76 -76) (76 76 -76) (76 -76 -76)\""));
    let nothing = parse_scene(document("").as_bytes()).unwrap();
    let out = convert(&nothing, &MaterialResolver::new(), &cfg).unwrap();
    assert_eq!(out.brushes, 0);
    assert_eq!(out.warnings, vec![Warning::NoSky { cause: SkyboxError::Empty }]);
    assert_eq!(out.document.matches("\tsolid\n").count(), 0);
    cfg.skybox_clearance = u64::MAX;
    assert_eq!(clearance(&cfg), u64::MAX);
    let out = convert(&scene, &MaterialResolver::new(), &cfg).unwrap();
    assert_eq!(out.warnings, vec![Warning::NoSky { cause: SkyboxError::OutOfRange }]);
}

#[test]
fn blocks_that_differ_in_colour_alone_are_joined() {
    let text = document(&format!(
        "{}{}",
        part("Part", "0", "4", "816", ""),
        part("Part", "4", "4", "816", "").replace("4288914085", "4278255615")
    ));
    let scene = parse_scene(text.as_bytes()).unwrap();
    let apart = convert(&scene, &MaterialResolver::new(), &config(false, false)).unwrap();
    assert_eq!(apart.brushes, 2);
    assert!(apart.document.contains("\"color\" \"0 255 255\""));
    let joined = convert(&scene, &MaterialResolver::new(), &config(true, false)).unwrap();
    assert_eq!(joined.brushes, 1);
    assert!(joined.document.contains("\"plane\" \"(90 -30 30) (90 30 30) (90 30 -30)\""));
    // The joined brush keeps the colour of the first.
    assert!(joined.document.contains("\"color\" \"163 162 165\""));
    assert!(!joined.document.contains("\"color\" \"0 255 255\""));
}

#[test]
fn measuring_grids_stand_in_when_asked_for() {
    let text = document(&part("Part", "0", "4", "1280", ""));
    let scene = parse_scene(text.as_bytes()).unwrap();
    let mut cfg = config(false, false);
    cfg.developer_textures = true;
    let out = convert(&scene, &MaterialResolver::new(), &cfg).unwrap();
    assert_eq!(out.document.matches("\"material\" \"dev/dev_measuregeneric01\"").count(), 6);
}
