use rbxlx2vmf::brush::{Brush, Color};
use rbxlx2vmf::geometry::{Extent, Vec3};
use rbxlx2vmf::prism::make_box;
use rbxlx2vmf::skybox::{
    bounding_volume, inflate, make_hollow, plan, SkyboxError, MAX_SKY_COORD, SKY_MARGIN,
};
use rbxlx2vmf::texture::{BuiltinTexture, TextureRef, TextureSet};

fn cuboid(low: (i64, i64, i64), high: (i64, i64, i64)) -> Brush {
    make_box(
        &Extent { low: Vec3::new(low.0, low.1, low.2), high: Vec3::new(high.0, high.1, high.2) },
        &TextureSet::new_uniform(TextureRef::Themed(BuiltinTexture::Brick)),
        1000,
        Color { red: 0, green: 0, blue: 0 },
        0,
    )
}

#[test]
fn bounding_volume_is_the_smallest_box_round_all() {
    assert_eq!(bounding_volume(&vec![]), None);
    let empty = Brush { faces: vec![], color: Color { red: 0, green: 0, blue: 0 }, transparency: 0 };
    assert_eq!(bounding_volume(&vec![empty]), None);
    let set = vec![cuboid((0, 0, 0), (10, 10, 10)), cuboid((-5, 2, 3), (4, 50, 6)), cuboid((1, 1, -7), (2, 2, 2))];
    assert_eq!(
        bounding_volume(&set),
        Some(Extent { low: Vec3::new(-5, 0, -7), high: Vec3::new(10, 50, 10) })
    );
}

#[test]
fn sky_clears_everything_by_more_than_the_clearance() {
    let set = vec![cuboid((0, 0, 0), (10, 10, 10)), cuboid((-5, 2, 3), (4, 50, 6))];
    for clearance in [0u64, 1, 1000, 123_456_789] {
        let sky = plan(&set, clearance, 1000).unwrap();
        let c = clearance as i64;
        let e = bounding_volume(&vec![sky.clone()]).unwrap();
        assert_eq!(e.low, Vec3::new(-5 - c - SKY_MARGIN, -c - SKY_MARGIN, -c - SKY_MARGIN));
        assert_eq!(
            e.high,
            Vec3::new(10 + c + SKY_MARGIN, 50 + c + SKY_MARGIN, 10 + 2 * c + SKY_MARGIN)
        );
        for b in &set {
            for f in &b.faces {
                for v in &f.vertices {
                    assert!(e.low.x < v.x - c && v.x + c < e.high.x);
                    assert!(e.low.y < v.y - c && v.y + c < e.high.y);
                    assert!(e.low.z < v.z - c && v.z + c < e.high.z);
                }
            }
        }
    }
}

#[test]
fn sky_looks_inwards() {
    let sky = make_hollow(&Extent { low: Vec3::new(-1, -2, -3), high: Vec3::new(4, 5, 6) }, 250);
    assert_eq!(sky.faces.len(), 6);
    let solid = cuboid((-1, -2, -3), (4, 5, 6));
    for k in 0..6 {
        let (f, g) = (&sky.faces[k], &solid.faces[k]);
        assert_eq!(f.texture, TextureRef::Skybox);
        assert_eq!(f.normal, Vec3::new(-g.normal.x, -g.normal.y, -g.normal.z));
        assert_eq!(f.offset, -g.offset);
        let mut reversed = g.vertices.clone();
        reversed.reverse();
        assert_eq!(f.vertices, reversed);
        assert_eq!(f.u_axis.scale, 250);
        for v in &f.vertices {
            let d = f.normal.x as i128 * v.x as i128
                + f.normal.y as i128 * v.y as i128
                + f.normal.z as i128 * v.z as i128;
            assert_eq!(d, f.offset);
        }
    }
    assert_eq!(sky.color, Color { red: 255, green: 255, blue: 255 });
    assert_eq!(sky.transparency, 0);
}

#[test]
fn no_sky_round_nothing_or_beyond_the_range() {
    assert_eq!(plan(&vec![], 5, 1000).err(), Some(SkyboxError::Empty));
    let far = vec![cuboid((0, 0, 0), (MAX_SKY_COORD - SKY_MARGIN, 10, 10))];
    assert!(plan(&far, 0, 1000).is_ok());
    assert_eq!(plan(&far, 1, 1000).err(), Some(SkyboxError::OutOfRange));
    assert_eq!(plan(&far, u64::MAX, 1000).err(), Some(SkyboxError::OutOfRange));
    let e = Extent { low: Vec3::new(0, 0, 0), high: Vec3::new(1, 1, 1) };
    assert_eq!(
        inflate(&e, 10),
        Some(Extent {
            low: Vec3::new(-10 - SKY_MARGIN, -10 - SKY_MARGIN, -10 - SKY_MARGIN),
            high: Vec3::new(11 + SKY_MARGIN, 11 + SKY_MARGIN, 21 + SKY_MARGIN)
        })
    );
    assert_eq!(inflate(&e, u64::MAX), None);
}
