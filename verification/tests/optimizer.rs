use rbxlx2vmf::brush::{Brush, Color};
use rbxlx2vmf::geometry::{Direction, Extent, Vec3};
use rbxlx2vmf::material::Material;
use rbxlx2vmf::optimize::{can_merge, look_alike, merge, optimize};
use rbxlx2vmf::prism::{make_box, prism_extent};
use rbxlx2vmf::scene::{Basis, Part, Shape, Transform};
use rbxlx2vmf::shape::synthesize;
use rbxlx2vmf::texture::{BuiltinTexture, TextureRef, TextureSet};

fn solid(shape: Shape, x: i64, y: i64, z: i64, size: i64, texture: BuiltinTexture) -> Brush {
    let part = Part {
        shape,
        size: Vec3::new(size, size, size),
        transform: Transform { position: Vec3::new(x, y, z), basis: Basis::new_identity() },
        material: Material::Concrete,
        color: Color { red: 1, green: 2, blue: 3 },
        transparency: 0,
        decals: Vec::new(),
    };
    synthesize(&part, &TextureSet::new_uniform(TextureRef::Themed(texture)), 15000).unwrap()
}

fn block(x: i64, y: i64, z: i64, size: i64, texture: BuiltinTexture) -> Brush {
    solid(Shape::Block, x, y, z, size, texture)
}

fn cuboid(low: (i64, i64, i64), high: (i64, i64, i64)) -> Brush {
    make_box(
        &Extent { low: Vec3::new(low.0, low.1, low.2), high: Vec3::new(high.0, high.1, high.2) },
        &TextureSet::new_uniform(TextureRef::Themed(BuiltinTexture::Brick)),
        1000,
        Color { red: 0, green: 0, blue: 0 },
        0,
    )
}

fn volume(b: &Brush) -> i128 {
    // Six times the volume, by the cones from the origin over the faces.
    let mut sum: i128 = 0;
    for f in &b.faces {
        let v = &f.vertices;
        for k in 2..v.len() {
            let (a, b) = (v[k], v[k - 1]);
            let c = (
                a.y as i128 * b.z as i128 - a.z as i128 * b.y as i128,
                a.z as i128 * b.x as i128 - a.x as i128 * b.z as i128,
                a.x as i128 * b.y as i128 - a.y as i128 * b.x as i128,
            );
            sum += v[0].x as i128 * c.0 + v[0].y as i128 * c.1 + v[0].z as i128 * c.2;
        }
    }
    sum
}

fn total(brushes: &[Brush]) -> i128 {
    brushes.iter().map(volume).sum()
}

fn same(a: &[Brush], b: &[Brush]) -> bool {
    a.len() == b.len()
        && a.iter().zip(b).all(|(x, y)| {
            x.color == y.color
                && x.transparency == y.transparency
                && x.faces.len() == y.faces.len()
                && x.faces.iter().zip(&y.faces).all(|(f, g)| {
                    f.normal == g.normal
                        && f.offset == g.offset
                        && f.vertices == g.vertices
                        && f.texture == g.texture
                        && f.u_axis == g.u_axis
                        && f.v_axis == g.v_axis
                })
        })
}

#[test]
fn two_blocks_face_to_face_become_one() {
    let a = block(0, 0, 0, 4000, BuiltinTexture::Concrete);
    let b = block(4000, 0, 0, 4000, BuiltinTexture::Concrete);
    assert!(can_merge(&a, &b));
    assert!(can_merge(&b, &a));
    let out = optimize(vec![a, b]);
    assert_eq!(out.len(), 1);
    let e = prism_extent(&out[0]).unwrap();
    assert_eq!(
        e,
        Extent {
            low: Vec3::new(-60_000_000, -60_000_000, -60_000_000),
            high: Vec3::new(180_000_000, 60_000_000, 60_000_000)
        }
    );
    assert_eq!(out[0].faces.len(), 6);
    assert_eq!(out[0].faces[0].normal, Direction::PosX.to_unit());
    assert_eq!(out[0].faces[0].texture, TextureRef::Themed(BuiltinTexture::Concrete));
}

#[test]
fn merge_spans_both_whichever_comes_first() {
    let a = cuboid((0, 0, 0), (10, 20, 30));
    let b = cuboid((0, 20, 0), (10, 50, 30));
    let want = Extent { low: Vec3::new(0, 0, 0), high: Vec3::new(10, 50, 30) };
    assert_eq!(prism_extent(&merge(&a, &b)).unwrap(), want);
    assert_eq!(prism_extent(&merge(&b, &a)).unwrap(), want);
}

#[test]
fn blocks_of_different_texture_stay_apart() {
    let a = block(0, 0, 0, 4000, BuiltinTexture::Concrete);
    let b = block(4000, 0, 0, 4000, BuiltinTexture::Brick);
    assert!(!look_alike(&a, &b));
    assert!(!can_merge(&a, &b));
    let out = optimize(vec![a, b]);
    assert_eq!(out.len(), 2);
}

#[test]
fn blocks_of_different_transparency_or_texture_stay_apart() {
    let a = block(0, 0, 0, 4000, BuiltinTexture::Concrete);
    let mut b = block(4000, 0, 0, 4000, BuiltinTexture::Concrete);
    b.transparency = 500;
    assert!(!can_merge(&a, &b));
    let mut d = block(4000, 0, 0, 4000, BuiltinTexture::Concrete);
    d.faces[3].texture = TextureRef::Placeholder;
    assert!(!can_merge(&a, &d));
    let mut e = block(4000, 0, 0, 4000, BuiltinTexture::Concrete);
    e.faces[0].u_axis.scale += 1;
    assert!(!can_merge(&a, &e));
    assert_eq!(optimize(vec![a, b, d, e]).len(), 4);
}

#[test]
fn colour_does_not_keep_blocks_apart() {
    let a = block(0, 0, 0, 4000, BuiltinTexture::Concrete);
    let mut c = block(4000, 0, 0, 4000, BuiltinTexture::Concrete);
    c.color = Color { red: 9, green: 9, blue: 9 };
    assert!(look_alike(&a, &c));
    assert!(can_merge(&a, &c));
    assert!(can_merge(&c, &a));
    let out = optimize(vec![a.clone(), c.clone()]);
    assert_eq!(out.len(), 1);
    // The joined brush keeps the colour of the first of the two.
    assert_eq!(out[0].color, Color { red: 1, green: 2, blue: 3 });
    assert_eq!(
        prism_extent(&out[0]).unwrap(),
        Extent {
            low: Vec3::new(-60_000_000, -60_000_000, -60_000_000),
            high: Vec3::new(180_000_000, 60_000_000, 60_000_000)
        }
    );
    let out = optimize(vec![c, a]);
    assert_eq!(out.len(), 1);
    assert_eq!(out[0].color, Color { red: 9, green: 9, blue: 9 });
}

#[test]
fn only_exact_contact_counts() {
    let a = cuboid((0, 0, 0), (10, 10, 10));
    // A gap, an overlap, a shifted neighbour, a smaller face, contact along an edge only.
    assert!(!can_merge(&a, &cuboid((11, 0, 0), (20, 10, 10))));
    assert!(!can_merge(&a, &cuboid((9, 0, 0), (20, 10, 10))));
    assert!(!can_merge(&a, &cuboid((10, 1, 0), (20, 11, 10))));
    assert!(!can_merge(&a, &cuboid((10, 0, 0), (20, 10, 9))));
    assert!(!can_merge(&a, &cuboid((10, 10, 0), (20, 20, 10))));
    assert!(!can_merge(&a, &a));
    assert!(can_merge(&a, &cuboid((10, 0, 0), (20, 10, 10))));
    assert!(can_merge(&a, &cuboid((0, 0, -5), (10, 10, 0))));
}

#[test]
fn optimizing_twice_changes_nothing_more() {
    let sets: Vec<Vec<Brush>> = vec![
        vec![],
        vec![cuboid((0, 0, 0), (1, 1, 1))],
        (0..6).map(|k| cuboid((k * 10, 0, 0), (k * 10 + 10, 10, 10))).collect(),
        vec![
            cuboid((0, 0, 0), (10, 10, 10)),
            cuboid((10, 0, 0), (20, 10, 10)),
            cuboid((0, 10, 0), (10, 20, 10)),
            cuboid((10, 10, 0), (20, 20, 10)),
            solid(Shape::Wedge, 0, 0, 0, 1000, BuiltinTexture::Brick),
            cuboid((0, 0, 10), (20, 20, 30)),
        ],
        vec![
            cuboid((0, 0, 0), (10, 10, 10)),
            cuboid((10, 0, 0), (20, 10, 10)),
            cuboid((0, 10, 0), (10, 20, 10)),
        ],
    ];
    for set in sets {
        let before = total(&set);
        let count = set.len();
        let once = optimize(set);
        assert!(once.len() <= count);
        assert_eq!(total(&once), before);
        let twice = optimize(once.clone());
        assert!(same(&once, &twice));
        for i in 0..once.len() {
            for j in 0..once.len() {
                if i != j {
                    assert!(!can_merge(&once[i], &once[j]));
                }
            }
        }
    }
}

#[test]
fn a_row_and_a_square_collapse_to_one() {
    let row: Vec<Brush> = (0..6).map(|k| cuboid((k * 10, 0, 0), (k * 10 + 10, 10, 10))).collect();
    let out = optimize(row);
    assert_eq!(out.len(), 1);
    assert_eq!(
        prism_extent(&out[0]).unwrap(),
        Extent { low: Vec3::new(0, 0, 0), high: Vec3::new(60, 10, 10) }
    );
    let square = vec![
        cuboid((0, 0, 0), (10, 10, 10)),
        cuboid((10, 0, 0), (20, 10, 10)),
        cuboid((0, 10, 0), (10, 20, 10)),
        cuboid((10, 10, 0), (20, 20, 10)),
    ];
    let out = optimize(square);
    assert_eq!(out.len(), 1);
    assert_eq!(
        prism_extent(&out[0]).unwrap(),
        Extent { low: Vec3::new(0, 0, 0), high: Vec3::new(20, 20, 10) }
    );
}

#[test]
fn a_cube_of_cubes_collapses_to_one() {
    let mut cubes = Vec::new();
    for z in 0..10 {
        for y in 0..10 {
            for x in 0..10 {
                cubes.push(cuboid((x * 5, y * 5, z * 5), (x * 5 + 5, y * 5 + 5, z * 5 + 5)));
            }
        }
    }
    // One cube that touches nothing, and one that looks different.
    cubes.insert(500, cuboid((100, 100, 100), (105, 105, 105)));
    let mut odd = cuboid((50, 0, 0), (55, 50, 50));
    odd.transparency = 1;
    cubes.insert(250, odd);
    let before = total(&cubes);
    let out = optimize(cubes);
    assert_eq!(out.len(), 3);
    assert_eq!(total(&out), before);
    assert_eq!(
        prism_extent(&out[0]).unwrap(),
        Extent { low: Vec3::new(0, 0, 0), high: Vec3::new(50, 50, 50) }
    );
    assert_eq!(out[1].transparency, 1);
    assert_eq!(
        prism_extent(&out[2]).unwrap(),
        Extent { low: Vec3::new(100, 100, 100), high: Vec3::new(105, 105, 105) }
    );
}

#[test]
fn the_first_pair_is_joined_first() {
    // Three cubes in a corner: the first joins the second, and the third is left.
    let out = optimize(vec![
        cuboid((0, 0, 0), (10, 10, 10)),
        cuboid((10, 0, 0), (20, 10, 10)),
        cuboid((0, 10, 0), (10, 20, 10)),
    ]);
    assert_eq!(out.len(), 2);
    assert_eq!(
        prism_extent(&out[0]).unwrap(),
        Extent { low: Vec3::new(0, 0, 0), high: Vec3::new(20, 10, 10) }
    );
    assert_eq!(
        prism_extent(&out[1]).unwrap(),
        Extent { low: Vec3::new(0, 10, 0), high: Vec3::new(10, 20, 10) }
    );
}

#[test]
fn solids_that_are_no_prisms_pass_through() {
    let a = solid(Shape::Wedge, 0, 0, 0, 4000, BuiltinTexture::Concrete);
    let b = solid(Shape::Wedge, 4000, 0, 0, 4000, BuiltinTexture::Concrete);
    let c = solid(Shape::Cylinder, 8000, 0, 0, 4000, BuiltinTexture::Concrete);
    assert!(prism_extent(&a).is_none());
    assert!(!can_merge(&a, &b));
    let set = vec![a, b, c];
    let out = optimize(set.clone());
    assert!(same(&set, &out));
}

#[test]
fn a_flat_box_is_no_prism() {
    assert!(prism_extent(&cuboid((0, 0, 0), (10, 10, 0))).is_none());
    assert!(prism_extent(&cuboid((0, 0, 0), (10, 10, 1))).is_some());
    let mut broken = cuboid((0, 0, 0), (10, 10, 10));
    broken.faces[2].vertices[1].x += 1;
    assert!(prism_extent(&broken).is_none());
    let mut short = cuboid((0, 0, 0), (10, 10, 10));
    short.faces.pop();
    assert!(prism_extent(&short).is_none());
}
