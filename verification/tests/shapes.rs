use rbxlx2vmf::brush::{Brush, Color};
use rbxlx2vmf::geometry::{Axis, Direction, Extent, Rotation, Vec3};
use rbxlx2vmf::material::Material;
use rbxlx2vmf::prism::prism_extent;
use rbxlx2vmf::scene::{Basis, Part, Shape, Transform};
use rbxlx2vmf::shape::{
    synthesize, texel_size, GeometryError, MAX_MAP_SCALE, MAX_SCENE_LENGTH,
};
use rbxlx2vmf::texture::{BuiltinTexture, TextureRef, TextureSet};

const DIRECTIONS: [Direction; 6] = [
    Direction::PosX,
    Direction::NegX,
    Direction::PosY,
    Direction::NegY,
    Direction::PosZ,
    Direction::NegZ,
];

fn scaled_unit(d: Direction) -> Vec3 {
    let u = d.to_unit();
    Vec3::new(u.x * 1000, u.y * 1000, u.z * 1000)
}

fn rotations() -> Vec<Rotation> {
    let mut all = Vec::new();
    for x in DIRECTIONS {
        for y in DIRECTIONS {
            if let Some(r) = Rotation::from_images(x, y) {
                all.push(r);
            }
        }
    }
    all
}

fn basis_of(r: &Rotation) -> Basis {
    Basis {
        x_image: scaled_unit(r.x_image),
        y_image: scaled_unit(r.y_image),
        z_image: scaled_unit(r.z_image),
    }
}

fn part_at(shape: Shape, size: Vec3, position: Vec3, basis: Basis) -> Part {
    Part {
        shape,
        size,
        transform: Transform { position, basis },
        material: Material::Concrete,
        color: Color { red: 10, green: 20, blue: 30 },
        transparency: 250,
        decals: Vec::new(),
    }
}

fn concrete() -> TextureSet {
    TextureSet::new_uniform(TextureRef::Themed(BuiltinTexture::Concrete))
}

fn dot(a: Vec3, b: Vec3) -> i128 {
    a.x as i128 * b.x as i128 + a.y as i128 * b.y as i128 + a.z as i128 * b.z as i128
}

fn cross(a: (i128, i128, i128), b: (i128, i128, i128)) -> (i128, i128, i128) {
    (a.1 * b.2 - a.2 * b.1, a.2 * b.0 - a.0 * b.2, a.0 * b.1 - a.1 * b.0)
}

fn minus(a: Vec3, b: Vec3) -> (i128, i128, i128) {
    (a.x as i128 - b.x as i128, a.y as i128 - b.y as i128, a.z as i128 - b.z as i128)
}

fn bounds(brush: &Brush) -> Extent {
    let first = brush.faces[0].vertices[0];
    let mut e = Extent { low: first, high: first };
    for f in &brush.faces {
        for v in &f.vertices {
            e.low.x = e.low.x.min(v.x);
            e.low.y = e.low.y.min(v.y);
            e.low.z = e.low.z.min(v.z);
            e.high.x = e.high.x.max(v.x);
            e.high.y = e.high.y.max(v.y);
            e.high.z = e.high.z.max(v.z);
        }
    }
    e
}

/// Six times the volume, by the cones from the origin over the faces.
fn volume6(brush: &Brush) -> i128 {
    let mut sum: i128 = 0;
    for f in &brush.faces {
        let v = &f.vertices;
        for k in 2..v.len() {
            let c = cross(minus(v[k], Vec3::new(0, 0, 0)), minus(v[k - 1], Vec3::new(0, 0, 0)));
            sum += v[0].x as i128 * c.0 + v[0].y as i128 * c.1 + v[0].z as i128 * c.2;
        }
    }
    sum
}

fn check_closed(brush: &Brush) {
    assert!(brush.faces.len() >= 4);
    for f in &brush.faces {
        assert!(f.vertices.len() >= 3);
        for v in &f.vertices {
            assert_eq!(dot(f.normal, *v), f.offset);
        }
        let c = cross(minus(f.vertices[2], f.vertices[0]), minus(f.vertices[1], f.vertices[0]));
        let turn = f.normal.x as i128 * c.0 + f.normal.y as i128 * c.1 + f.normal.z as i128 * c.2;
        assert!(turn > 0, "corners must run clockwise seen from outside");
        for g in &brush.faces {
            for w in &g.vertices {
                assert!(dot(f.normal, *w) <= f.offset);
            }
        }
    }
}

#[test]
fn block_has_six_axis_aligned_faces_and_the_volume_of_the_part() {
    for r in rotations() {
        let part = part_at(
            Shape::Block,
            Vec3::new(4000, 1000, 2000),
            Vec3::new(500, -250, 125),
            basis_of(&r),
        );
        let brush = synthesize(&part, &concrete(), 15000).unwrap();
        assert_eq!(brush.faces.len(), 6);
        for (k, f) in brush.faces.iter().enumerate() {
            assert_eq!(f.normal, DIRECTIONS[k].to_unit());
            assert_eq!(f.vertices.len(), 4);
        }
        check_closed(&brush);
        let e = prism_extent(&brush).unwrap();
        assert_eq!(e, bounds(&brush));
        let volume = (e.high.x - e.low.x) as i128
            * (e.high.y - e.low.y) as i128
            * (e.high.z - e.low.z) as i128;
        let scale: i128 = 2 * 15000;
        assert_eq!(volume, scale * scale * scale * 4000 * 1000 * 2000);
        assert_eq!(volume6(&brush), 6 * volume);
        assert_eq!(brush.color, Color { red: 10, green: 20, blue: 30 });
        assert_eq!(brush.transparency, 250);
    }
}

#[test]
fn block_extent_in_the_frame_of_the_document() {
    // Size (4, 1, 2) at (0.5, -0.25, 0.125): the second axis of the scene is
    // the third of the document, the third is the second, reversed.
    let part = part_at(
        Shape::Block,
        Vec3::new(4000, 1000, 2000),
        Vec3::new(500, -250, 125),
        Basis::new_identity(),
    );
    let brush = synthesize(&part, &concrete(), 15000).unwrap();
    let e = prism_extent(&brush).unwrap();
    assert_eq!(e.low, Vec3::new(15000 * (1000 - 4000), 15000 * (-250 - 2000), 15000 * (-500 - 1000)));
    assert_eq!(e.high, Vec3::new(15000 * (1000 + 4000), 15000 * (-250 + 2000), 15000 * (-500 + 1000)));
}

#[test]
fn cube_at_scale_fifteen_spans_fifteen_times_its_edge() {
    for edge in [1i64, 7, 1000, 4000, 123_456] {
        for r in rotations() {
            let part = part_at(
                Shape::Block,
                Vec3::new(edge, edge, edge),
                Vec3::new(0, 0, 0),
                basis_of(&r),
            );
            let brush = synthesize(&part, &concrete(), 15000).unwrap();
            let e = prism_extent(&brush).unwrap();
            // Thousandths of a scene unit in, half-millionths of a document unit out.
            assert_eq!(e.high.x - e.low.x, 30000 * edge);
            assert_eq!(e.high.y - e.low.y, 30000 * edge);
            assert_eq!(e.high.z - e.low.z, 30000 * edge);
            assert_eq!(e.low, Vec3::new(-15000 * edge, -15000 * edge, -15000 * edge));
        }
    }
}

#[test]
fn other_solids_are_closed_convex_and_inscribed() {
    let size = Vec3::new(4000, 1000, 2000);
    let position = Vec3::new(500, -250, 125);
    for (shape, faces) in
        [(Shape::Wedge, 5), (Shape::CornerWedge, 5), (Shape::Cylinder, 10), (Shape::Sphere, 10)]
    {
        for r in rotations() {
            let brush =
                synthesize(&part_at(shape, size, position, basis_of(&r)), &concrete(), 15000)
                    .unwrap();
            assert_eq!(brush.faces.len(), faces);
            check_closed(&brush);
            let block =
                synthesize(&part_at(Shape::Block, size, position, basis_of(&r)), &concrete(), 15000)
                    .unwrap();
            assert_eq!(bounds(&brush), prism_extent(&block).unwrap());
            assert!(prism_extent(&brush).is_none());
            assert!(volume6(&brush) > 0);
            assert!(volume6(&brush) < volume6(&block));
        }
    }
}

#[test]
fn wedge_fills_half_its_box() {
    let size = Vec3::new(4000, 1000, 2000);
    let part = part_at(Shape::Wedge, size, Vec3::new(0, 0, 0), Basis::new_identity());
    let brush = synthesize(&part, &concrete(), 1000).unwrap();
    let scale: i128 = 2 * 1000;
    assert_eq!(volume6(&brush), 3 * scale * scale * scale * 4000 * 1000 * 2000);
}

#[test]
fn corner_wedge_fills_a_third_of_its_box() {
    let size = Vec3::new(4000, 1000, 2000);
    let part = part_at(Shape::CornerWedge, size, Vec3::new(0, 0, 0), Basis::new_identity());
    let brush = synthesize(&part, &concrete(), 1000).unwrap();
    let scale: i128 = 2 * 1000;
    assert_eq!(volume6(&brush), 2 * scale * scale * scale * 4000 * 1000 * 2000);
}

#[test]
fn cylinder_outline_is_inset_by_twenty_nine_seventieths() {
    let part = part_at(
        Shape::Cylinder,
        Vec3::new(4000, 7000, 7000),
        Vec3::new(0, 0, 0),
        Basis::new_identity(),
    );
    let brush = synthesize(&part, &concrete(), 1).unwrap();
    // The first side looks along the second axis of the scene, the third of the document.
    let f = &brush.faces[0];
    assert_eq!(f.normal, Vec3::new(0, 0, 1));
    assert_eq!(
        f.vertices,
        vec![
            Vec3::new(4000, 2900, 7000),
            Vec3::new(4000, -2900, 7000),
            Vec3::new(-4000, -2900, 7000),
            Vec3::new(-4000, 2900, 7000),
        ]
    );
    assert_eq!(brush.faces[8].vertices.len(), 8);
    assert_eq!(brush.faces[9].vertices.len(), 8);
}

#[test]
fn parts_without_a_brush() {
    let good = Vec3::new(1000, 1000, 1000);
    let origin = Vec3::new(0, 0, 0);
    let id = Basis::new_identity();
    let t = concrete();
    for size in [Vec3::new(0, 1, 1), Vec3::new(1, -5, 1), Vec3::new(1, 1, 0)] {
        assert_eq!(
            synthesize(&part_at(Shape::Block, size, origin, id), &t, 15000).err(),
            Some(GeometryError::Degenerate)
        );
    }
    assert_eq!(
        synthesize(
            &part_at(Shape::Wedge, Vec3::new(MAX_SCENE_LENGTH + 1, 1, 1), origin, id),
            &t,
            15000
        )
        .err(),
        Some(GeometryError::OutOfRange)
    );
    assert_eq!(
        synthesize(
            &part_at(Shape::Block, good, Vec3::new(0, -MAX_SCENE_LENGTH - 1, 0), id),
            &t,
            15000
        )
        .err(),
        Some(GeometryError::OutOfRange)
    );
    assert!(synthesize(
        &part_at(
            Shape::Sphere,
            Vec3::new(MAX_SCENE_LENGTH, MAX_SCENE_LENGTH, MAX_SCENE_LENGTH),
            Vec3::new(MAX_SCENE_LENGTH, -MAX_SCENE_LENGTH, MAX_SCENE_LENGTH),
            id
        ),
        &t,
        MAX_MAP_SCALE
    )
    .is_ok());
    assert_eq!(
        synthesize(&part_at(Shape::Block, good, origin, id), &t, 0).err(),
        Some(GeometryError::Scale)
    );
    assert_eq!(
        synthesize(&part_at(Shape::Block, good, origin, id), &t, MAX_MAP_SCALE + 1).err(),
        Some(GeometryError::Scale)
    );
    let bases = [
        // Mirrored.
        Basis {
            x_image: Vec3::new(1000, 0, 0),
            y_image: Vec3::new(0, 1000, 0),
            z_image: Vec3::new(0, 0, -1000),
        },
        // Mirrored and turned.
        Basis {
            x_image: Vec3::new(707, 707, 0),
            y_image: Vec3::new(707, -707, 0),
            z_image: Vec3::new(0, 0, 1000),
        },
        // Stretched.
        Basis {
            x_image: Vec3::new(1003, 0, 0),
            y_image: Vec3::new(0, 1000, 0),
            z_image: Vec3::new(0, 0, 1000),
        },
        // Sheared.
        Basis {
            x_image: Vec3::new(1000, 6, 0),
            y_image: Vec3::new(0, 1000, 0),
            z_image: Vec3::new(0, 0, 1000),
        },
        // Flat.
        Basis {
            x_image: Vec3::new(0, 0, 0),
            y_image: Vec3::new(0, 0, 0),
            z_image: Vec3::new(0, 0, 0),
        },
        // Out of all proportion.
        Basis {
            x_image: Vec3::new(i64::MAX, i64::MIN, 0),
            y_image: Vec3::new(0, 1000, 0),
            z_image: Vec3::new(0, 0, 1000),
        },
    ];
    for basis in bases {
        for shape in [Shape::Block, Shape::Wedge, Shape::Sphere] {
            assert_eq!(
                synthesize(&part_at(shape, good, origin, basis), &t, 15000).err(),
                Some(GeometryError::Skewed)
            );
        }
        // The scale is looked at before anything else, the basis before the size.
        assert_eq!(
            synthesize(&part_at(Shape::Block, Vec3::new(0, 0, 0), origin, basis), &t, 0).err(),
            Some(GeometryError::Scale)
        );
        assert_eq!(
            synthesize(&part_at(Shape::Block, Vec3::new(0, 0, 0), origin, basis), &t, 1).err(),
            Some(GeometryError::Skewed)
        );
    }
    let tilted = Basis {
        x_image: Vec3::new(707, 707, 0),
        y_image: Vec3::new(-707, 707, 0),
        z_image: Vec3::new(0, 0, 1000),
    };
    assert_eq!(
        synthesize(&part_at(Shape::Block, Vec3::new(0, 1, 1), origin, tilted), &t, 15000).err(),
        Some(GeometryError::Degenerate)
    );
    assert_eq!(
        synthesize(
            &part_at(Shape::Block, good, Vec3::new(MAX_SCENE_LENGTH + 1, 0, 0), tilted),
            &t,
            15000
        )
        .err(),
        Some(GeometryError::OutOfRange)
    );
}

#[test]
fn a_tilted_block_is_placed_by_its_basis() {
    // Turned by a little less than an eighth of a turn about the third axis of the scene.
    let tilted = Basis {
        x_image: Vec3::new(707, 707, 0),
        y_image: Vec3::new(-707, 707, 0),
        z_image: Vec3::new(0, 0, 1000),
    };
    let part =
        part_at(Shape::Block, Vec3::new(4000, 2000, 1000), Vec3::new(1000, 0, 0), tilted);
    let brush = synthesize(&part, &concrete(), 15000).unwrap();
    assert_eq!(brush.faces.len(), 6);
    assert!(prism_extent(&brush).is_none());
    // The side that looks along the first axis of the part.
    let f = &brush.faces[0];
    assert_eq!(f.normal, Vec3::new(707, 0, 707));
    assert_eq!(
        f.vertices,
        vec![
            // 15 * (2 * 1 + 0.707 * 4 + 0.707 * 2), 15 * -1, 15 * (0.707 * 4 - 0.707 * 2), doubled.
            Vec3::new(15 * (2_000_000 + 2_828_000 + 1_414_000), -15_000_000, 15 * (2_828_000 - 1_414_000)),
            Vec3::new(15 * (2_000_000 + 2_828_000 - 1_414_000), -15_000_000, 15 * (2_828_000 + 1_414_000)),
            Vec3::new(15 * (2_000_000 + 2_828_000 - 1_414_000), 15_000_000, 15 * (2_828_000 + 1_414_000)),
            Vec3::new(15 * (2_000_000 + 2_828_000 + 1_414_000), 15_000_000, 15 * (2_828_000 - 1_414_000)),
        ]
    );
    assert_eq!(f.offset, dot(f.normal, f.vertices[0]));
    for f in &brush.faces {
        let c = cross(minus(f.vertices[2], f.vertices[0]), minus(f.vertices[1], f.vertices[0]));
        let turn = f.normal.x as i128 * c.0 + f.normal.y as i128 * c.1 + f.normal.z as i128 * c.2;
        assert!(turn > 0);
        assert_eq!(f.texture, TextureRef::Themed(BuiltinTexture::Concrete));
    }
    // The volume is that of the block, as nearly as the basis is orthonormal.
    let scale: i128 = 2 * 15000;
    let exact = 6 * scale * scale * scale * 4000 * 2000 * 1000;
    let got = volume6(&brush);
    assert!((got - exact).abs() * 1000 < exact);
    for shape in [Shape::Wedge, Shape::CornerWedge, Shape::Cylinder, Shape::Sphere] {
        let part = part_at(shape, Vec3::new(4000, 2000, 1000), Vec3::new(1000, 0, 0), tilted);
        let brush = synthesize(&part, &concrete(), 15000).unwrap();
        assert!(volume6(&brush) > 0);
        for f in &brush.faces {
            let c = cross(minus(f.vertices[2], f.vertices[0]), minus(f.vertices[1], f.vertices[0]));
            let turn =
                f.normal.x as i128 * c.0 + f.normal.y as i128 * c.1 + f.normal.z as i128 * c.2;
            assert!(turn > 0);
        }
    }
}

#[test]
fn corners_are_rounded_to_the_nearest_point_of_the_lattice() {
    // A basis that is as good as upright, and a scale of a thousandth.
    let basis = Basis {
        x_image: Vec3::new(1000, 1, 0),
        y_image: Vec3::new(0, 1000, 0),
        z_image: Vec3::new(0, 0, 1000),
    };
    let part = part_at(Shape::Block, Vec3::new(1499, 2, 2), Vec3::new(0, 0, 0), basis);
    let brush = synthesize(&part, &concrete(), 1).unwrap();
    // The far corner lies at (1499, 1.499 + 2, 2) in the scene: (1499, -2, 3.499) in the document.
    assert_eq!(brush.faces[0].vertices[1], Vec3::new(1499, -2, 3));
    // The near corner at (-1499, -1.499 + 2, 2): halves go upwards.
    assert_eq!(brush.faces[1].vertices[2], Vec3::new(-1499, -2, 1));
    let part = part_at(Shape::Block, Vec3::new(1500, 2, 2), Vec3::new(0, 0, 0), basis);
    let brush = synthesize(&part, &concrete(), 1).unwrap();
    assert_eq!(brush.faces[0].vertices[1], Vec3::new(1500, -2, 4));
    assert_eq!(brush.faces[1].vertices[2], Vec3::new(-1500, -2, 1));
}

#[test]
fn round_parts_too_narrow_for_their_outline_are_refused() {
    let origin = Vec3::new(0, 0, 0);
    let id = Basis::new_identity();
    let tilted = Basis {
        x_image: Vec3::new(707, 707, 0),
        y_image: Vec3::new(-707, 707, 0),
        z_image: Vec3::new(0, 0, 1000),
    };
    let t = concrete();
    for basis in [id, tilted] {
        // A cylinder lies along its first axis, a ball stands on its second.
        for size in [Vec3::new(1000, 2, 1000), Vec3::new(1000, 1000, 2), Vec3::new(1, 1, 1)] {
            assert_eq!(
                synthesize(&part_at(Shape::Cylinder, size, origin, basis), &t, 15000).err(),
                Some(GeometryError::Degenerate)
            );
        }
        for size in [Vec3::new(2, 1000, 1000), Vec3::new(1000, 1000, 2), Vec3::new(1, 1, 1)] {
            assert_eq!(
                synthesize(&part_at(Shape::Sphere, size, origin, basis), &t, 15000).err(),
                Some(GeometryError::Degenerate)
            );
        }
        for (shape, size) in [
            (Shape::Cylinder, Vec3::new(1, 3, 3)),
            (Shape::Sphere, Vec3::new(3, 1, 3)),
            (Shape::Block, Vec3::new(1, 1, 1)),
            (Shape::Wedge, Vec3::new(1, 1, 1)),
            (Shape::CornerWedge, Vec3::new(1, 1, 1)),
        ] {
            let brush = synthesize(&part_at(shape, size, origin, basis), &t, 15000).unwrap();
            for f in &brush.faces {
                assert!(f.vertices.len() >= 3);
                let c = cross(minus(f.vertices[2], f.vertices[0]), minus(f.vertices[1], f.vertices[0]));
                let turn =
                    f.normal.x as i128 * c.0 + f.normal.y as i128 * c.1 + f.normal.z as i128 * c.2;
                assert!(turn > 0, "the first three corners must give a plane");
            }
        }
    }
    // Too narrow comes before too large.
    assert_eq!(
        synthesize(
            &part_at(Shape::Cylinder, Vec3::new(MAX_SCENE_LENGTH + 1, 2, 5), origin, id),
            &t,
            15000
        )
        .err(),
        Some(GeometryError::Degenerate)
    );
}

#[test]
fn each_face_shows_the_texture_of_its_side() {
    let mut set = concrete();
    set.set(Direction::PosY, TextureRef::Themed(BuiltinTexture::Grass));
    set.set(Direction::NegX, TextureRef::Asset { image: 7, size: 256 });
    let part = part_at(
        Shape::Block,
        Vec3::new(1000, 2000, 3000),
        Vec3::new(0, 0, 0),
        Basis::new_identity(),
    );
    let brush = synthesize(&part, &set, 15000).unwrap();
    // The top of the part looks up in the document: along the third axis.
    assert_eq!(brush.faces[4].texture, TextureRef::Themed(BuiltinTexture::Grass));
    assert_eq!(brush.faces[1].texture, TextureRef::Asset { image: 7, size: 256 });
    assert_eq!(brush.faces[0].texture, TextureRef::Themed(BuiltinTexture::Concrete));
    // Turned upside down about the first axis, the top looks down.
    let turned = Rotation::from_images(Direction::PosX, Direction::NegY).unwrap();
    let part = part_at(Shape::Block, Vec3::new(1000, 2000, 3000), Vec3::new(0, 0, 0), basis_of(&turned));
    let brush = synthesize(&part, &set, 15000).unwrap();
    assert_eq!(brush.faces[5].texture, TextureRef::Themed(BuiltinTexture::Grass));
    assert_eq!(brush.faces[4].texture, TextureRef::Themed(BuiltinTexture::Concrete));
    assert_eq!(brush.faces[1].texture, TextureRef::Asset { image: 7, size: 256 });
}

#[test]
fn texture_axes_follow_the_map_scale() {
    assert_eq!(texel_size(15000), 468_750);
    assert_eq!(texel_size(1000), 31_250);
    assert_eq!(texel_size(1), 31);
    let part = part_at(Shape::Wedge, Vec3::new(1000, 1000, 1000), Vec3::new(0, 0, 0), Basis::new_identity());
    let brush = synthesize(&part, &concrete(), 30000).unwrap();
    for f in &brush.faces {
        assert_eq!(f.u_axis.scale, 937_500);
        assert_eq!(f.v_axis.scale, 937_500);
        assert_eq!(f.u_axis.shift, 0);
        assert_eq!(f.v_axis.shift, 0);
        assert_ne!(f.u_axis.direction.get_axis(), f.v_axis.direction.get_axis());
    }
    let up = &brush.faces[0];
    assert_eq!(up.normal, Vec3::new(0, 0, -1));
    assert_eq!(up.u_axis.direction, Direction::PosX);
    assert_eq!(up.v_axis.direction, Direction::NegY);
    assert_eq!(Direction::PosX.get_axis(), Axis::X);
}
