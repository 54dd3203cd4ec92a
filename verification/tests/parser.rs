use rbxlx2vmf::brush::Color;
use rbxlx2vmf::geometry::{Direction, Vec3};
use rbxlx2vmf::markup::{read_markup, read_tag, MarkupErrorKind, TagKind};
use rbxlx2vmf::material::Material;
use rbxlx2vmf::parser::{
    color_for_code, copy_span, face_for_code, material_for_code, parse_scene, shape_for_code,
    transparency_for, ParseErrorKind,
};
use rbxlx2vmf::scene::{Basis, NodeKind, Part, Shape};
use rbxlx2vmf::text::Span;

const FRAME: &str = "<CoordinateFrame name=\"CFrame\"><X>1.5</X><Y>-2</Y><Z>0.25</Z><R00>0</R00><R01>-1</R01><R02>0</R02><R10>1</R10><R11>0</R11><R12>-4.37113883e-08</R12><R20>0</R20><R21>0</R21><R22>0.99999994</R22></CoordinateFrame>";

const SIZE: &str = "<Vector3 name=\"size\"><X>4</X><Y>1.2</Y><Z>2</Z></Vector3>";

fn item(class: &str, properties: &str, children: &str) -> String {
    format!("<Item class=\"{}\" referent=\"R\">\n <Properties>\n{}\n </Properties>\n{}</Item>\n", class, properties, children)
}

fn document(items: &str) -> String {
    format!("<?xml version=\"1.0\"?>\n<roblox version=\"4\">\n<External>null</External>\n{}</roblox>\n", items)
}

fn part_of(kind: &NodeKind) -> &Part {
    match kind {
        NodeKind::Part(part) => part,
        _ => panic!("no part"),
    }
}

fn path(error: &rbxlx2vmf::parser::ParseError) -> Vec<String> {
    error.path.iter().map(|p| String::from_utf8(p.clone()).unwrap()).collect()
}

#[test]
fn a_part_with_all_its_properties() {
    let properties = format!(
        "{}<token name=\"shape\">2</token>{}<token name=\"Material\">1280</token><Color3uint8 name=\"Color3uint8\">4278255615</Color3uint8><float name=\"Transparency\">0.5</float><string name=\"Name\">Pipe</string>",
        FRAME, SIZE
    );
    let text = document(&item("Part", &properties, ""));
    let scene = parse_scene(text.as_bytes()).unwrap();
    assert_eq!(scene.nodes.len(), 1);
    assert_eq!(scene.nodes[0].parent, None);
    assert_eq!(scene.nodes[0].end, 1);
    let part = part_of(&scene.nodes[0].kind);
    assert_eq!(part.shape, Shape::Cylinder);
    assert_eq!(part.size, Vec3::new(4000, 1200, 2000));
    assert_eq!(part.transform.position, Vec3::new(1500, -2000, 250));
    assert_eq!(
        part.transform.basis,
        Basis {
            x_image: Vec3::new(0, 1000, 0),
            y_image: Vec3::new(-1000, 0, 0),
            z_image: Vec3::new(0, 0, 1000)
        }
    );
    assert!(matches!(part.material, Material::Grass));
    assert_eq!(part.color, Color { red: 0, green: 255, blue: 255 });
    assert_eq!(part.transparency, 500);
    assert!(part.decals.is_empty());
    assert!(part.transform.to_placement().is_some());
}

#[test]
fn what_a_part_does_not_say_is_filled_in() {
    let text = document(&item("WedgePart", &format!("{}{}", SIZE, FRAME), ""));
    let scene = parse_scene(text.as_bytes()).unwrap();
    let part = part_of(&scene.nodes[0].kind);
    assert_eq!(part.shape, Shape::Wedge);
    assert!(matches!(part.material, Material::Plastic));
    assert_eq!(part.color, Color { red: 163, green: 162, blue: 165 });
    assert_eq!(part.transparency, 0);
    for (class, shape) in [
        ("CornerWedgePart", Shape::CornerWedge),
        ("SpawnLocation", Shape::Block),
        ("TrussPart", Shape::Block),
        ("Seat", Shape::Block),
        ("VehicleSeat", Shape::Block),
    ] {
        let text = document(&item(class, &format!("{}{}<token name=\"shape\">0</token>", SIZE, FRAME), ""));
        let scene = parse_scene(text.as_bytes()).unwrap();
        assert_eq!(part_of(&scene.nodes[0].kind).shape, shape);
    }
}

#[test]
fn the_tree_of_the_scene() {
    let block = format!("{}{}<token name=\"shape\">1</token>", SIZE, FRAME);
    let decal = item(
        "Decal",
        "<token name=\"Face\">1</token><Content name=\"Texture\"><url>http://www.roblox.com/asset/?id=4711</url></Content>",
        "",
    );
    let texture = item(
        "Texture",
        "<Content name=\"Texture\"><url>rbxassetid://12</url></Content><token name=\"Face\">3</token>",
        "",
    );
    let nothing = item("Decal", "<Content name=\"Texture\"><null></null></Content>", "");
    let model = item(
        "Model",
        "<string name=\"Name\">House</string>",
        &format!(
            "{}{}{}",
            item("Part", &block, &format!("{}{}{}", decal, nothing, texture)),
            item("Script", "<ProtectedString name=\"Source\"><![CDATA[if a < b then print(\"</Item>\") end]]></ProtectedString>", ""),
            item("Part", &block, "")
        ),
    );
    let text = document(&format!(
        "{}{}",
        item("Workspace", "", &format!("<!-- a comment <Item> -->{}", model)),
        item("Lighting", "", "")
    ));
    let scene = parse_scene(text.as_bytes()).unwrap();
    let kinds: Vec<&str> = scene
        .nodes
        .iter()
        .map(|n| match n.kind {
            NodeKind::Part(_) => "part",
            NodeKind::Container => "container",
            NodeKind::Unknown => "unknown",
        })
        .collect();
    assert_eq!(
        kinds,
        ["container", "container", "part", "unknown", "unknown", "unknown", "unknown", "part", "unknown"]
    );
    let parents: Vec<Option<usize>> = scene.nodes.iter().map(|n| n.parent).collect();
    assert_eq!(
        parents,
        [None, Some(0), Some(1), Some(2), Some(2), Some(2), Some(1), Some(1), None]
    );
    let ends: Vec<usize> = scene.nodes.iter().map(|n| n.end).collect();
    assert_eq!(ends, [8, 8, 6, 4, 5, 6, 7, 8, 9]);
    let part = part_of(&scene.nodes[2].kind);
    assert_eq!(part.decals.len(), 2);
    assert!(matches!(part.decals[0], Material::Decal { image: 4711, size: 0, face: Direction::PosY }));
    assert!(matches!(part.decals[1], Material::Texture { image: 12, size: 0, face: Direction::NegX }));
    assert!(part_of(&scene.nodes[7].kind).decals.is_empty());
}

#[test]
fn a_part_must_say_what_where_and_how_large() {
    let shape = "<token name=\"shape\">1</token>";
    let cases = [
        (format!("{}{}", SIZE, FRAME), ParseErrorKind::MissingShape),
        (format!("{}{}<token name=\"shape\">3</token>", SIZE, FRAME), ParseErrorKind::MissingShape),
        (format!("{}{}<token name=\"shape\">one</token>", SIZE, FRAME), ParseErrorKind::MissingShape),
        (format!("{}{}", shape, FRAME), ParseErrorKind::MissingSize),
        (format!("{}{}<Vector3 name=\"size\"><X>4</X><Y>1</Y></Vector3>", shape, FRAME), ParseErrorKind::MissingSize),
        (format!("{}{}<Vector3 name=\"size\"><X>4</X><Y>1</Y><Z>wide</Z></Vector3>", shape, FRAME), ParseErrorKind::MissingSize),
        (format!("{}{}", shape, SIZE), ParseErrorKind::MissingTransform),
        (format!("{}{}{}", shape, SIZE, FRAME.replace("<R21>0</R21>", "")), ParseErrorKind::MissingTransform),
        (format!("{}{}{}", shape, SIZE, FRAME.replace("<X>1.5</X>", "<X></X>")), ParseErrorKind::MissingTransform),
        (String::new(), ParseErrorKind::MissingShape),
        (shape.to_string(), ParseErrorKind::MissingSize),
    ];
    for (properties, kind) in cases {
        let text = document(&item("Workspace", "", &item("Model", "", &item("Part", &properties, ""))));
        let error = parse_scene(text.as_bytes()).err().unwrap();
        assert_eq!(error.kind, kind, "{}", properties);
        assert_eq!(path(&error), ["roblox", "Workspace", "Model", "Part"]);
        assert_eq!(&text[error.offset..error.offset + 4], "Item");
        assert_eq!(text[..error.offset + 4].matches("<Item").count(), 3);
    }
    // The first part at fault is named.
    let good = format!("{}{}{}", shape, SIZE, FRAME);
    let text = document(&format!(
        "{}{}{}",
        item("Part", &good, ""),
        item("WedgePart", FRAME, ""),
        item("Part", "", "")
    ));
    let error = parse_scene(text.as_bytes()).err().unwrap();
    assert_eq!(error.kind, ParseErrorKind::MissingSize);
    assert_eq!(path(&error), ["roblox", "WedgePart"]);
    // The properties of another item do not count.
    let text = document(&item("Part", "", &item("Folder", &good, "")));
    assert_eq!(parse_scene(text.as_bytes()).err().unwrap().kind, ParseErrorKind::MissingShape);
}

#[test]
fn items_of_unknown_classes_are_let_through() {
    let text = document(&format!(
        "{}{}<Meta name=\"x\"/><SharedStrings></SharedStrings>",
        item("Teleporter", "<Vector3 name=\"size\"><X>broken</X></Vector3>", ""),
        item("Folder", "", "")
    ));
    let scene = parse_scene(text.as_bytes()).unwrap();
    assert_eq!(scene.nodes.len(), 2);
    assert!(matches!(scene.nodes[0].kind, NodeKind::Unknown));
    assert!(matches!(scene.nodes[1].kind, NodeKind::Container));
    assert_eq!(parse_scene(b"").unwrap().nodes.len(), 0);
    assert_eq!(parse_scene(b"just text").unwrap().nodes.len(), 0);
    assert_eq!(parse_scene(b"<Item/>").unwrap().nodes.len(), 1);
    assert_eq!(parse_scene(b"<item class='Part'/><Items/>").unwrap().nodes.len(), 0);
}

#[test]
fn tags_that_do_not_nest() {
    let cases: [(&str, ParseErrorKind, usize, &[&str]); 12] = [
        ("<a><b></a></b>", ParseErrorKind::Mismatched, 6, &["a", "b"]),
        ("</a>", ParseErrorKind::Mismatched, 0, &[]),
        ("<a>", ParseErrorKind::Unclosed, 3, &["a"]),
        ("<a><Item class=\"Model\"><b/>", ParseErrorKind::Unclosed, 27, &["a", "Model"]),
        ("<a", ParseErrorKind::Malformed, 0, &[]),
        ("<a><", ParseErrorKind::Malformed, 3, &["a"]),
        ("<a b></a>", ParseErrorKind::Malformed, 0, &[]),
        ("<a b=c></a>", ParseErrorKind::Malformed, 0, &[]),
        ("<a b=\"c></a>", ParseErrorKind::Malformed, 0, &[]),
        ("<a><!-- never ends </a>", ParseErrorKind::Malformed, 3, &["a"]),
        ("<a></ a>", ParseErrorKind::Malformed, 3, &["a"]),
        ("<a><![CDATA[ ]] ></a>", ParseErrorKind::Malformed, 3, &["a"]),
    ];
    for (text, kind, offset, names) in cases {
        let error = parse_scene(text.as_bytes()).err().unwrap();
        assert_eq!(error.kind, kind, "{}", text);
        assert_eq!(error.offset, offset, "{}", text);
        assert_eq!(path(&error), names, "{}", text);
    }
}

#[test]
fn elements_of_the_document() {
    let text = b"<a x='1' name=\"n\" class = 'c' name='late'> hello <b/> tail <c>  </c><!--x--><c>t</c></a>";
    let (elements, error) = read_markup(text);
    assert_eq!(error, None);
    assert_eq!(elements.len(), 4);
    let bytes = |s: Span| String::from_utf8(copy_span(text, s)).unwrap();
    assert_eq!(bytes(elements[0].tag), "a");
    assert_eq!(bytes(elements[0].name.unwrap()), "n");
    assert_eq!(bytes(elements[0].class.unwrap()), "c");
    assert_eq!(bytes(elements[0].text), " hello ");
    assert_eq!(elements[0].parent, None);
    assert_eq!(elements[0].end, 4);
    assert_eq!(bytes(elements[1].tag), "b");
    assert_eq!(elements[1].parent, Some(0));
    assert_eq!(elements[1].end, 2);
    assert_eq!(elements[1].class, None);
    assert_eq!(bytes(elements[2].text), "  ");
    assert_eq!(elements[2].end, 3);
    assert_eq!(bytes(elements[3].text), "t");
    assert_eq!(elements[3].end, 4);
    let (elements, error) = read_markup(b"<a><b><c/></x>");
    assert_eq!(elements.len(), 3);
    let error = error.unwrap();
    assert_eq!(error.kind, MarkupErrorKind::Mismatched);
    assert_eq!(error.offset, 10);
    assert_eq!(error.inside, Some(1));
    assert_eq!(copy_span(b"abc", Span { start: 2, end: 1 }), b"");
    assert_eq!(copy_span(b"abc", Span { start: 1, end: 4 }), b"");
    assert_eq!(copy_span(b"abc", Span { start: 1, end: 3 }), b"bc");
}

#[test]
fn tags_one_by_one() {
    let t = read_tag(b"<Item class=\"Part\" referent='R1' >", 0);
    assert_eq!(t.kind, TagKind::Open);
    assert_eq!(t.name, Span { start: 1, end: 5 });
    assert_eq!(t.class, Some(Span { start: 13, end: 17 }));
    assert_eq!(t.label, None);
    assert_eq!(t.next, 34);
    let t = read_tag(b"..<X name=''/>", 2);
    assert_eq!(t.kind, TagKind::Empty);
    assert_eq!(t.label, Some(Span { start: 11, end: 11 }));
    assert_eq!(t.next, 14);
    let t = read_tag(b"</X  >", 0);
    assert_eq!((t.kind, t.name, t.next), (TagKind::Close, Span { start: 2, end: 3 }, 6));
    assert_eq!(read_tag(b"<!-- a > b -->x", 0).next, 14);
    assert_eq!(read_tag(b"<!-- a > b -->x", 0).kind, TagKind::Skip);
    assert_eq!(read_tag(b"<![CDATA[ a ]> b ]]>x", 0).next, 20);
    assert_eq!(read_tag(b"<?xml version=\"1.0\"?>x", 0).next, 21);
    assert_eq!(read_tag(b"<!DOCTYPE roblox>x", 0).next, 17);
    for bad in ["<", "< a>", "<>", "</>", "<a b>", "<a 'x'>", "<a b='>", "<!--", "<?", "<a/ >"] {
        assert_eq!(read_tag(bad.as_bytes(), 0).kind, TagKind::Bad, "{}", bad);
    }
}

#[test]
fn what_the_numbers_stand_for() {
    assert_eq!(shape_for_code(0), Some(Shape::Sphere));
    assert_eq!(shape_for_code(1), Some(Shape::Block));
    assert_eq!(shape_for_code(2), Some(Shape::Cylinder));
    assert_eq!(shape_for_code(3), None);
    assert!(matches!(material_for_code(256), Material::Plastic));
    assert!(matches!(material_for_code(272), Material::SmoothPlastic));
    assert!(matches!(material_for_code(512), Material::Wood));
    assert!(matches!(material_for_code(528), Material::WoodPlanks));
    assert!(matches!(material_for_code(784), Material::Marble));
    assert!(matches!(material_for_code(800), Material::Slate));
    assert!(matches!(material_for_code(816), Material::Concrete));
    assert!(matches!(material_for_code(832), Material::Granite));
    assert!(matches!(material_for_code(848), Material::Brick));
    assert!(matches!(material_for_code(864), Material::Pebble));
    assert!(matches!(material_for_code(880), Material::Cobblestone));
    assert!(matches!(material_for_code(1040), Material::CorrodedMetal));
    assert!(matches!(material_for_code(1056), Material::DiamondPlate));
    assert!(matches!(material_for_code(1072), Material::Foil));
    assert!(matches!(material_for_code(1088), Material::Metal));
    assert!(matches!(material_for_code(1280), Material::Grass));
    assert!(matches!(material_for_code(1296), Material::Sand));
    assert!(matches!(material_for_code(1312), Material::Fabric));
    assert!(matches!(material_for_code(1536), Material::Ice));
    assert!(matches!(material_for_code(1568), Material::Glass));
    assert!(matches!(material_for_code(1584), Material::ForceField));
    assert!(matches!(material_for_code(288), Material::Plastic));
    assert!(matches!(material_for_code(0), Material::Plastic));
    assert_eq!(face_for_code(Some(0)), Direction::PosX);
    assert_eq!(face_for_code(Some(1)), Direction::PosY);
    assert_eq!(face_for_code(Some(2)), Direction::PosZ);
    assert_eq!(face_for_code(Some(3)), Direction::NegX);
    assert_eq!(face_for_code(Some(4)), Direction::NegY);
    assert_eq!(face_for_code(Some(5)), Direction::NegZ);
    assert_eq!(face_for_code(Some(6)), Direction::NegZ);
    assert_eq!(face_for_code(None), Direction::NegZ);
    assert_eq!(color_for_code(Some(0xFF12_3456)), Color { red: 0x12, green: 0x34, blue: 0x56 });
    assert_eq!(color_for_code(Some(0x1_0000_0000_00FF)), Color { red: 0, green: 0, blue: 255 });
    assert_eq!(color_for_code(None), Color { red: 163, green: 162, blue: 165 });
    assert_eq!(transparency_for(Some(-1)), 0);
    assert_eq!(transparency_for(Some(0)), 0);
    assert_eq!(transparency_for(Some(999)), 999);
    assert_eq!(transparency_for(Some(1000)), 1000);
    assert_eq!(transparency_for(Some(1001)), 1000);
    assert_eq!(transparency_for(None), 0);
}
