use rbxlx2vmf::brush::{Brush, Color};
use rbxlx2vmf::geometry::{Extent, Vec3};
use rbxlx2vmf::prism::make_box;
use rbxlx2vmf::skybox::make_hollow;
use rbxlx2vmf::texture::{
    texture_file_name, texture_name, BuiltinTexture, TextureRef, TextureSet,
};
use rbxlx2vmf::writer::{write_document, WriteError};

fn cuboid(low: (i64, i64, i64), high: (i64, i64, i64), texture: TextureRef) -> Brush {
    make_box(
        &Extent { low: Vec3::new(low.0, low.1, low.2), high: Vec3::new(high.0, high.1, high.2) },
        &TextureSet::new_uniform(texture),
        468_750,
        Color { red: 1, green: 20, blue: 255 },
        0,
    )
}

fn identities(document: &str) -> Vec<u64> {
    document
        .lines()
        .filter_map(|line| line.trim().strip_prefix("\"id\" \""))
        .map(|rest| rest.trim_end_matches('"').parse().unwrap())
        .collect()
}

#[test]
fn document_of_nothing() {
    let out = write_document(&vec![], None, "sky_day01_05").unwrap();
    assert_eq!(
        out,
        "versioninfo\n{\n\t\"editorversion\" \"400\"\n\t\"editorbuild\" \"8000\"\n\t\"mapversion\" \"1\"\n\t\"formatversion\" \"100\"\n\t\"prefab\" \"0\"\n}\nworld\n{\n\t\"id\" \"1\"\n\t\"mapversion\" \"1\"\n\t\"classname\" \"worldspawn\"\n\t\"skyname\" \"sky_day01_05\"\n}\n"
    );
}

#[test]
fn document_of_one_face() {
    let mut b = cuboid(
        (-60_000_000, 1, -3_000_001),
        (60_000_000, 2_000_000, 15),
        TextureRef::Asset { image: 12, size: 256 },
    );
    b.faces.truncate(1);
    b.faces[0].u_axis.shift = -7;
    b.faces[0].v_axis.scale = 2_000_000;
    let out = write_document(&vec![b], None, "painted").unwrap();
    let want = "\tsolid\n\t{\n\t\t\"id\" \"2\"\n\t\tside\n\t\t{\n\t\t\t\"id\" \"3\"\n\t\t\t\"plane\" \"(30 0.0000005 0.0000075) (30 1 0.0000075) (30 1 -1.5000005)\"\n\t\t\t\"material\" \"rbx/12_256\"\n\t\t\t\"uaxis\" \"[0 1 0 -7] 0.46875\"\n\t\t\t\"vaxis\" \"[0 0 -1 0] 2\"\n\t\t\t\"rotation\" \"0\"\n\t\t\t\"lightmapscale\" \"16\"\n\t\t\t\"smoothing_groups\" \"0\"\n\t\t}\n\t\teditor\n\t\t{\n\t\t\t\"color\" \"1 20 255\"\n\t\t\t\"visgroupshown\" \"1\"\n\t\t\t\"visgroupautoshown\" \"1\"\n\t\t}\n\t}\n}\n";
    assert!(out.ends_with(want), "{}", out);
    assert!(out.contains("\"skyname\" \"painted\"\n\tsolid\n"));
}

#[test]
fn no_two_blocks_share_an_identity() {
    let mut brushes = Vec::new();
    for k in 0..40i64 {
        let mut b = cuboid((k, 0, 0), (k + 1, 1, 1), TextureRef::Themed(BuiltinTexture::Brick));
        b.faces.truncate((k % 7) as usize);
        brushes.push(b);
    }
    let sky = make_hollow(&Extent { low: Vec3::new(-9, -9, -9), high: Vec3::new(99, 9, 9) }, 1);
    let out = write_document(&brushes, Some(&sky), "city").unwrap();
    let ids = identities(&out);
    let faces: usize = brushes.iter().map(|b| b.faces.len()).sum();
    assert_eq!(ids.len(), 1 + 41 + faces + 6);
    for (k, id) in ids.iter().enumerate() {
        assert_eq!(*id, k as u64 + 1);
    }
    assert_eq!(out.matches("\tsolid\n").count(), 41);
    assert_eq!(out.matches("\t\tside\n").count(), faces + 6);
    assert_eq!(out.matches("\"material\" \"city\"").count(), 6);
    assert_eq!(out.matches("\"skyname\" \"city\"").count(), 1);
    assert_eq!(out.matches("city").count(), 7);
}

#[test]
fn the_sky_comes_last() {
    let b = cuboid((0, 0, 0), (2, 2, 2), TextureRef::Themed(BuiltinTexture::Brick));
    let sky = make_hollow(&Extent { low: Vec3::new(-2, -2, -2), high: Vec3::new(4, 4, 4) }, 1);
    let out = write_document(&vec![b], Some(&sky), "city").unwrap();
    let brick = out.rfind("rbx/brick").unwrap();
    let first_sky = out.find("\"material\" \"city\"").unwrap();
    assert!(brick < first_sky);
    assert_eq!(identities(&out), (1..=15).collect::<Vec<u64>>());
    // Seen from within, the side that lies at x = 4 runs the other way round.
    assert!(out.contains("\"plane\" \"(0.000002 -0.000001 -0.000001) (0.000002 0.000002 -0.000001) (0.000002 0.000002 0.000002)\""));
}

#[test]
fn a_face_without_a_plane_stops_the_document() {
    let good = cuboid((0, 0, 0), (2, 2, 2), TextureRef::Placeholder);
    let mut bad = cuboid((0, 0, 0), (2, 2, 2), TextureRef::Placeholder);
    bad.faces[5].vertices.truncate(2);
    assert_eq!(write_document(&vec![good.clone(), bad.clone()], None, "x").err(), Some(WriteError::Malformed));
    assert_eq!(write_document(&vec![good.clone()], Some(&bad), "x").err(), Some(WriteError::Malformed));
    bad.faces[5].vertices.push(Vec3::new(0, 0, 0));
    assert!(write_document(&vec![good], Some(&bad), "x").is_ok());
}

#[test]
fn names_of_textures() {
    assert_eq!(texture_name(TextureRef::Themed(BuiltinTexture::Concrete), "sky_day01_05"), "rbx/concrete");
    assert_eq!(texture_name(TextureRef::Themed(BuiltinTexture::Rust), "sky_day01_05"), "rbx/rust");
    assert_eq!(texture_name(TextureRef::Themed(BuiltinTexture::SpawnLocation), "sky_day01_05"), "rbx/spawnlocation");
    assert_eq!(texture_name(TextureRef::Developer(BuiltinTexture::Grass), "sky_day01_05"), "dev/dev_measuregeneric01");
    assert_eq!(texture_name(TextureRef::Developer(BuiltinTexture::Plastic), "sky_day01_05"), "dev/reflectivity_50");
    assert_eq!(texture_name(TextureRef::Asset { image: 123_456, size: 256 }, "sky_day01_05"), "rbx/123456_256");
    assert_eq!(texture_name(TextureRef::Asset { image: 0, size: 0 }, "sky_day01_05"), "rbx/0_0");
    assert_eq!(texture_name(TextureRef::Placeholder, "sky_day01_05"), "rbx/placeholder");
    assert_eq!(texture_name(TextureRef::Skybox, "sky_day01_05"), "sky_day01_05");
    assert_eq!(texture_name(TextureRef::Skybox, "city"), "city");
    assert_eq!(texture_name(TextureRef::Placeholder, "city"), "rbx/placeholder");
    assert_eq!(
        texture_file_name(TextureRef::Asset { image: u64::MAX, size: 512 }, "city"),
        "rbx/18446744073709551615_512.vtf"
    );
    assert_eq!(texture_file_name(TextureRef::Themed(BuiltinTexture::Wood), ""), "rbx/wood.vtf");
    let all = [
        BuiltinTexture::Plastic, BuiltinTexture::Wood, BuiltinTexture::Slate, BuiltinTexture::Concrete,
        BuiltinTexture::Rust, BuiltinTexture::DiamondPlate, BuiltinTexture::Aluminium,
        BuiltinTexture::Grass, BuiltinTexture::Ice, BuiltinTexture::Marble, BuiltinTexture::Granite,
        BuiltinTexture::Brick, BuiltinTexture::Pebble, BuiltinTexture::Sand, BuiltinTexture::Fabric,
        BuiltinTexture::SmoothPlastic, BuiltinTexture::Metal, BuiltinTexture::WoodPlanks,
        BuiltinTexture::Cobblestone, BuiltinTexture::Glass, BuiltinTexture::ForceField,
        BuiltinTexture::Decal, BuiltinTexture::Studs, BuiltinTexture::Inlet, BuiltinTexture::SpawnLocation,
    ];
    let mut themed: Vec<&str> = all.iter().map(|t| t.name_text()).collect();
    let mut grids: Vec<&str> = all.iter().map(|t| t.developer_name_text()).collect();
    assert!(themed.iter().all(|n| n.starts_with("rbx/")));
    assert!(grids.iter().all(|n| n.starts_with("dev/")));
    themed.sort();
    themed.dedup();
    grids.sort();
    grids.dedup();
    assert_eq!(themed.len(), 25);
    assert_eq!(grids.len(), 25);
}
