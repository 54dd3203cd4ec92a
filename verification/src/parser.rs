//! The scene from its document: every `Item` of the document becomes a node,
//! and the items of the part classes become parts, with the shape, size,
//! placement and looks that their properties give.

use vstd::prelude::*;
use vstd::string::*;
use crate::brush::Color;
use crate::geometry::{Direction, Vec3};
use crate::markup::{
    lemma_markup_length, markup_of, read_markup, Element, MarkupError, MarkupErrorKind,
};
use crate::material::Material;
use crate::scene::{
    node_models, Basis, NodeKind, NodeKindModel, Part, PartModel, SceneModel, SceneNode,
    SceneNodeModel, Shape, Transform,
};
use crate::text::{
    decimal_of, parse_decimal, parse_trailing, parse_unsigned, span_is, trailing_of, unsigned_of,
    Span,
};

verus! {

/// What is wrong with the document.
#[derive(Clone, Copy, PartialEq, Eq, Debug, Structural)]
pub enum ParseErrorKind {
    /// What begins with an angle bracket is no tag.
    Malformed,
    /// A tag closes what the innermost open element is not, or nothing at all.
    Mismatched,
    /// The document ends inside an element.
    Unclosed,
    /// A part does not say which solid it is.
    MissingShape,
    /// A part does not say how large it is.
    MissingSize,
    /// A part does not say where it stands.
    MissingTransform,
}

/// What is wrong with the document, and where.
#[derive(Clone, Debug)]
pub struct ParseError {
    pub kind: ParseErrorKind,
    /// The place in the document.
    pub offset: usize,
    /// The classes of the items from the outermost down to the one at
    /// fault; for an element that is no item, the name of its tag.
    pub path: Vec<Vec<u8>>,
}

/// The mathematical model of a [`ParseError`].
pub struct ParseErrorModel {
    pub kind: ParseErrorKind,
    pub offset: usize,
    pub path: Seq<Seq<u8>>,
}

impl View for ParseError {
    type V = ParseErrorModel;

    open spec fn view(&self) -> ParseErrorModel {
        ParseErrorModel {
            kind: self.kind,
            offset: self.offset,
            path: Seq::new(self.path@.len(), |i: int| self.path@[i]@),
        }
    }
}

/// The place after the last element that can lie in the element at `parent`.
pub open spec fn limit_of(m: Seq<Element>, parent: int) -> int {
    if 0 <= parent < m.len() && parent < m[parent].end <= m.len() {
        m[parent].end as int
    } else {
        m.len() as int
    }
}

/// The element at `c` lies directly in the element at `parent` and goes by
/// `key`: by the value of its attribute `name`, or by the name of its tag.
pub open spec fn is_child(
    s: Seq<u8>,
    m: Seq<Element>,
    c: int,
    parent: int,
    key: Seq<u8>,
    by_name: bool,
) -> bool {
    &&& m[c].parent == Some(parent as usize)
    &&& if by_name {
        m[c].name matches Some(n) && n.start <= n.end <= s.len() && n.of(s) == key
    } else {
        m[c].tag.start <= m[c].tag.end <= s.len() && m[c].tag.of(s) == key
    }
}

/// The first element from `c` on that lies directly in the element at
/// `parent` and goes by `key`; the number of elements if there is none.
pub open spec fn child_from(
    s: Seq<u8>,
    m: Seq<Element>,
    parent: int,
    c: int,
    key: Seq<u8>,
    by_name: bool,
) -> int
    decreases limit_of(m, parent) - c,
{
    if c < 0 || c >= limit_of(m, parent) {
        m.len() as int
    } else if is_child(s, m, c, parent, key, by_name) {
        c
    } else {
        child_from(s, m, parent, c + 1, key, by_name)
    }
}

/// The first element that lies directly in the element at `parent` and has
/// a tag of the given name.
pub open spec fn child_tagged(s: Seq<u8>, m: Seq<Element>, parent: int, tag: Seq<u8>) -> int {
    child_from(s, m, parent, parent + 1, tag, false)
}

/// The property of the given name among the properties at `properties`.
pub open spec fn property(s: Seq<u8>, m: Seq<Element>, properties: int, name: Seq<u8>) -> int {
    child_from(s, m, properties, properties + 1, name, true)
}

/// The text of the element at `e`; an empty stretch if there is no such element.
pub open spec fn text_of(m: Seq<Element>, e: int) -> Span {
    if 0 <= e < m.len() {
        m[e].text
    } else {
        Span { start: 0, end: 0 }
    }
}

/// The number, in thousandths, in the element tagged `tag` in the element at `parent`.
pub open spec fn component(s: Seq<u8>, m: Seq<Element>, parent: int, tag: Seq<u8>) -> Option<i64> {
    decimal_of(s, text_of(m, child_tagged(s, m, parent, tag)))
}

/// The vector whose three coordinates stand in the elements tagged with
/// the three names in the element at `parent`.
pub open spec fn vector_in(
    s: Seq<u8>,
    m: Seq<Element>,
    parent: int,
    x: Seq<u8>,
    y: Seq<u8>,
    z: Seq<u8>,
) -> Option<Vec3> {
    match (component(s, m, parent, x), component(s, m, parent, y), component(s, m, parent, z)) {
        (Some(x), Some(y), Some(z)) => Some(Vec3 { x, y, z }),
        _ => None,
    }
}

/// The size that the properties give.
pub open spec fn size_in(s: Seq<u8>, m: Seq<Element>, properties: int) -> Option<Vec3> {
    vector_in(
        s,
        m,
        property(s, m, properties, "size".spec_bytes()),
        "X".spec_bytes(),
        "Y".spec_bytes(),
        "Z".spec_bytes(),
    )
}

/// The placement that the properties give: the centre, and the images of
/// the three axes, which stand in the columns of the matrix of the frame.
pub open spec fn transform_in(s: Seq<u8>, m: Seq<Element>, properties: int) -> Option<Transform> {
    let frame = property(s, m, properties, "CFrame".spec_bytes());
    match (
        vector_in(s, m, frame, "X".spec_bytes(), "Y".spec_bytes(), "Z".spec_bytes()),
        vector_in(s, m, frame, "R00".spec_bytes(), "R10".spec_bytes(), "R20".spec_bytes()),
        vector_in(s, m, frame, "R01".spec_bytes(), "R11".spec_bytes(), "R21".spec_bytes()),
        vector_in(s, m, frame, "R02".spec_bytes(), "R12".spec_bytes(), "R22".spec_bytes()),
    ) {
        (Some(position), Some(x_image), Some(y_image), Some(z_image)) => Some(
            Transform { position, basis: Basis { x_image, y_image, z_image } },
        ),
        _ => None,
    }
}

/// The whole number in the property of the given name.
pub open spec fn token_in(s: Seq<u8>, m: Seq<Element>, properties: int, name: Seq<u8>) -> Option<
    u64,
> {
    unsigned_of(s, text_of(m, property(s, m, properties, name)))
}

/// The solid that goes by a number.
pub open spec fn shape_of_code(code: u64) -> Option<Shape> {
    if code == 0 {
        Some(Shape::Sphere)
    } else if code == 1 {
        Some(Shape::Block)
    } else if code == 2 {
        Some(Shape::Cylinder)
    } else {
        None
    }
}

/// The finish that goes by a number; plastic for a number that stands for none.
pub open spec fn material_of_code(code: u64) -> Material {
    if code == 512 {
        Material::Wood
    } else if code == 800 {
        Material::Slate
    } else if code == 816 {
        Material::Concrete
    } else if code == 1040 {
        Material::CorrodedMetal
    } else if code == 1056 {
        Material::DiamondPlate
    } else if code == 1072 {
        Material::Foil
    } else if code == 1280 {
        Material::Grass
    } else if code == 1536 {
        Material::Ice
    } else if code == 784 {
        Material::Marble
    } else if code == 832 {
        Material::Granite
    } else if code == 848 {
        Material::Brick
    } else if code == 864 {
        Material::Pebble
    } else if code == 1296 {
        Material::Sand
    } else if code == 1312 {
        Material::Fabric
    } else if code == 272 {
        Material::SmoothPlastic
    } else if code == 1088 {
        Material::Metal
    } else if code == 528 {
        Material::WoodPlanks
    } else if code == 880 {
        Material::Cobblestone
    } else if code == 1568 {
        Material::Glass
    } else if code == 1584 {
        Material::ForceField
    } else {
        Material::Plastic
    }
}

/// The side that goes by a number; the front for a number that stands for none.
pub open spec fn face_of_code(code: Option<u64>) -> Direction {
    match code {
        Some(0) => Direction::PosX,
        Some(1) => Direction::PosY,
        Some(2) => Direction::PosZ,
        Some(3) => Direction::NegX,
        Some(4) => Direction::NegY,
        _ => Direction::NegZ,
    }
}

/// The colour that a number packs into its three low bytes: red, green, blue.
pub open spec fn color_of_code(code: Option<u64>) -> Color {
    match code {
        Some(c) => Color {
            red: ((c / 65536) % 256) as u8,
            green: ((c / 256) % 256) as u8,
            blue: (c % 256) as u8,
        },
        None => Color { red: 163, green: 162, blue: 165 },
    }
}

/// The transparency that a number gives, in thousandths, kept between
/// nothing and all.
pub open spec fn transparency_of(value: Option<i64>) -> u16 {
    match value {
        Some(v) => if v < 0 {
            0
        } else if v > 1000 {
            1000
        } else {
            v as u16
        },
        None => 0,
    }
}

/// The element is an item of the scene.
pub open spec fn is_item(s: Seq<u8>, e: Element) -> bool {
    e.tag.start <= e.tag.end <= s.len() && e.tag.of(s) == "Item".spec_bytes()
}

/// The element is an item of the given class.
pub open spec fn is_class(s: Seq<u8>, e: Element, class: Seq<u8>) -> bool {
    is_item(s, e) && (e.class matches Some(c) && c.start <= c.end <= s.len() && c.of(s) == class)
}

/// The solid that the class of an item stands for by itself, if any; for an
/// item of the class `Part` the properties say which solid it is.
pub open spec fn class_shape(s: Seq<u8>, e: Element) -> Option<Option<Shape>> {
    if is_class(s, e, "Part".spec_bytes()) {
        Some(None)
    } else if is_class(s, e, "WedgePart".spec_bytes()) {
        Some(Some(Shape::Wedge))
    } else if is_class(s, e, "CornerWedgePart".spec_bytes()) {
        Some(Some(Shape::CornerWedge))
    } else if is_class(s, e, "SpawnLocation".spec_bytes()) || is_class(
        s,
        e,
        "TrussPart".spec_bytes(),
    ) || is_class(s, e, "Seat".spec_bytes()) || is_class(s, e, "VehicleSeat".spec_bytes()) {
        Some(Some(Shape::Block))
    } else {
        None
    }
}

/// The item only groups others.
pub open spec fn is_container(s: Seq<u8>, e: Element) -> bool {
    is_class(s, e, "Workspace".spec_bytes()) || is_class(s, e, "Model".spec_bytes()) || is_class(
        s,
        e,
        "Folder".spec_bytes(),
    )
}

/// The decal or repeated texture that the item at `e` is, if it is one and
/// names an image.
pub open spec fn decal_of(s: Seq<u8>, m: Seq<Element>, e: int) -> Option<Material> {
    let properties = child_tagged(s, m, e, "Properties".spec_bytes());
    let content = property(s, m, properties, "Texture".spec_bytes());
    let address = child_tagged(s, m, content, "url".spec_bytes());
    let face = face_of_code(token_in(s, m, properties, "Face".spec_bytes()));
    match trailing_of(s, text_of(m, address)) {
        Some(image) => if is_class(s, m[e], "Decal".spec_bytes()) {
            Some(Material::Decal { image, size: 0, face })
        } else if is_class(s, m[e], "Texture".spec_bytes()) {
            Some(Material::Texture { image, size: 0, face })
        } else {
            None
        },
        None => None,
    }
}

/// The decals and repeated textures among the elements from `c` on that lie
/// directly in the element at `parent`, after those found so far.
pub open spec fn decals_from(
    s: Seq<u8>,
    m: Seq<Element>,
    parent: int,
    c: int,
    found: Seq<Material>,
) -> Seq<Material>
    decreases limit_of(m, parent) - c,
{
    if c < 0 || c >= limit_of(m, parent) {
        found
    } else if m[c].parent == Some(parent as usize) && decal_of(s, m, c) is Some {
        decals_from(s, m, parent, c + 1, found.push(decal_of(s, m, c).unwrap()))
    } else {
        decals_from(s, m, parent, c + 1, found)
    }
}

/// The part that the item at `e` is, for the solid that its class stands
/// for, or which of the properties that a part must have it lacks.
pub open spec fn part_of(s: Seq<u8>, m: Seq<Element>, e: int, implied: Option<Shape>) -> Result<
    PartModel,
    ParseErrorKind,
> {
    let properties = child_tagged(s, m, e, "Properties".spec_bytes());
    let shape = match implied {
        Some(shape) => Some(shape),
        None => match token_in(s, m, properties, "shape".spec_bytes()) {
            Some(code) => shape_of_code(code),
            None => None,
        },
    };
    let material = match token_in(s, m, properties, "Material".spec_bytes()) {
        Some(code) => material_of_code(code),
        None => Material::Plastic,
    };
    match (shape, size_in(s, m, properties), transform_in(s, m, properties)) {
        (None, _, _) => Err(ParseErrorKind::MissingShape),
        (Some(_), None, _) => Err(ParseErrorKind::MissingSize),
        (Some(_), Some(_), None) => Err(ParseErrorKind::MissingTransform),
        (Some(shape), Some(size), Some(transform)) => Ok(
            PartModel {
                shape,
                size,
                transform,
                material,
                color: color_of_code(token_in(s, m, properties, "Color3uint8".spec_bytes())),
                transparency: transparency_of(
                    decimal_of(
                        s,
                        text_of(m, property(s, m, properties, "Transparency".spec_bytes())),
                    ),
                ),
                decals: decals_from(s, m, e, e + 1, Seq::empty()),
            },
        ),
    }
}

/// What the item at `e` is.
pub open spec fn kind_of(s: Seq<u8>, m: Seq<Element>, e: int) -> Result<
    NodeKindModel,
    ParseErrorKind,
> {
    match class_shape(s, m[e]) {
        Some(implied) => match part_of(s, m, e, implied) {
            Ok(part) => Ok(NodeKindModel::Part(part)),
            Err(kind) => Err(kind),
        },
        None => if is_container(s, m[e]) {
            Ok(NodeKindModel::Container)
        } else {
            Ok(NodeKindModel::Unknown)
        },
    }
}

/// The number of items among the first `e` elements.
pub open spec fn items_before(s: Seq<u8>, m: Seq<Element>, e: int) -> nat
    decreases e,
{
    if e <= 0 || e > m.len() {
        0
    } else if is_item(s, m[e - 1]) {
        items_before(s, m, e - 1) + 1
    } else {
        items_before(s, m, e - 1)
    }
}

/// The node of the item that holds the element at `e`, if an item holds it.
pub open spec fn parent_node(s: Seq<u8>, m: Seq<Element>, e: int) -> Option<usize> {
    match m[e].parent {
        Some(p) => if p < e && is_item(s, m[p as int]) {
            Some(items_before(s, m, p as int) as usize)
        } else {
            None
        },
        None => None,
    }
}

/// The label of the element: its class, or the name of its tag if it has no class.
pub open spec fn label_of(s: Seq<u8>, e: Element) -> Seq<u8> {
    match e.class {
        Some(c) => c.of(s),
        None => e.tag.of(s),
    }
}

/// The labels of the elements from the outermost down to the one at `e`.
pub open spec fn path_of(s: Seq<u8>, m: Seq<Element>, e: int) -> Seq<Seq<u8>>
    decreases e,
{
    if 0 <= e < m.len() {
        match m[e].parent {
            Some(p) => if p < e {
                path_of(s, m, p as int).push(label_of(s, m[e]))
            } else {
                seq![label_of(s, m[e])]
            },
            None => seq![label_of(s, m[e])],
        }
    } else {
        Seq::empty()
    }
}

/// The node of the item at `e`, or what is wrong with the item.
pub open spec fn node_at(s: Seq<u8>, m: Seq<Element>, e: int) -> Result<
    SceneNodeModel,
    ParseErrorModel,
> {
    match kind_of(s, m, e) {
        Ok(kind) => Ok(
            SceneNodeModel {
                kind,
                parent: parent_node(s, m, e),
                end: items_before(s, m, limit_of(m, e)) as usize,
            },
        ),
        Err(kind) => Err(
            ParseErrorModel { kind, offset: m[e].tag.start, path: path_of(s, m, e) },
        ),
    }
}

/// The nodes of the items among the first `e` elements, or what is wrong
/// with the first item with which something is.
pub open spec fn nodes_upto(s: Seq<u8>, m: Seq<Element>, e: int) -> Result<
    Seq<SceneNodeModel>,
    ParseErrorModel,
>
    decreases e,
{
    if e <= 0 || e > m.len() {
        Ok(Seq::empty())
    } else {
        match nodes_upto(s, m, e - 1) {
            Err(error) => Err(error),
            Ok(nodes) => if is_item(s, m[e - 1]) {
                match node_at(s, m, e - 1) {
                    Ok(node) => Ok(nodes.push(node)),
                    Err(error) => Err(error),
                }
            } else {
                Ok(nodes)
            },
        }
    }
}

/// What is wrong with the document where the nesting of its tags goes wrong.
pub open spec fn markup_failure(s: Seq<u8>, m: Seq<Element>, error: MarkupError) -> ParseErrorModel {
    ParseErrorModel {
        kind: match error.kind {
            MarkupErrorKind::Malformed => ParseErrorKind::Malformed,
            MarkupErrorKind::Mismatched => ParseErrorKind::Mismatched,
            MarkupErrorKind::Unclosed => ParseErrorKind::Unclosed,
        },
        offset: error.offset,
        path: match error.inside {
            Some(e) => path_of(s, m, e as int),
            None => Seq::empty(),
        },
    }
}

/// The scene that the document describes, or what is wrong with the document.
pub open spec fn scene_of(s: Seq<u8>) -> Result<Seq<SceneNodeModel>, ParseErrorModel> {
    let (m, error) = markup_of(s);
    match error {
        Some(error) => Err(markup_failure(s, m, error)),
        None => nodes_upto(s, m, m.len() as int),
    }
}

fn limit(m: &Vec<Element>, parent: usize) -> (l: usize)
    ensures
        l == limit_of(m@, parent as int),
        l <= m.len(),
{
    if parent < m.len() && parent < m[parent].end && m[parent].end <= m.len() {
        m[parent].end
    } else {
        m.len()
    }
}

/// Finds an element that lies directly in another.
fn find_child(s: &[u8], m: &Vec<Element>, parent: usize, key: &[u8], by_name: bool) -> (c: usize)
    ensures
        c == child_from(s@, m@, parent as int, parent + 1, key@, by_name),
        c <= m.len(),
{
    let end: usize = limit(m, parent);
    if parent >= end {
        return m.len();
    }
    let mut c: usize = parent + 1;
    while c < end
        invariant
            parent < c <= end <= m.len(),
            end == limit_of(m@, parent as int),
            child_from(s@, m@, parent as int, parent + 1, key@, by_name) == child_from(
                s@,
                m@,
                parent as int,
                c as int,
                key@,
                by_name,
            ),
        decreases end - c,
    {
        let e: Element = m[c];
        let holds_it: bool = match e.parent {
            Some(p) => p == parent,
            None => false,
        };
        let goes_by: bool = if by_name {
            match e.name {
                Some(n) => span_is(s, n, key),
                None => false,
            }
        } else {
            span_is(s, e.tag, key)
        };
        if holds_it && goes_by {
            return c;
        }
        c += 1;
    }
    m.len()
}

fn text_at(m: &Vec<Element>, e: usize) -> (t: Span)
    ensures
        t == text_of(m@, e as int),
{
    if e < m.len() {
        m[e].text
    } else {
        Span { start: 0, end: 0 }
    }
}

fn read_component(s: &[u8], m: &Vec<Element>, parent: usize, tag: &[u8]) -> (r: Option<i64>)
    ensures
        r == component(s@, m@, parent as int, tag@),
{
    parse_decimal(s, text_at(m, find_child(s, m, parent, tag, false)))
}

fn read_vector(s: &[u8], m: &Vec<Element>, parent: usize, x: &[u8], y: &[u8], z: &[u8]) -> (r:
    Option<Vec3>)
    ensures
        r == vector_in(s@, m@, parent as int, x@, y@, z@),
{
    match (
        read_component(s, m, parent, x),
        read_component(s, m, parent, y),
        read_component(s, m, parent, z),
    ) {
        (Some(x), Some(y), Some(z)) => Some(Vec3 { x, y, z }),
        _ => None,
    }
}

fn read_transform(s: &[u8], m: &Vec<Element>, properties: usize) -> (r: Option<Transform>)
    ensures
        r == transform_in(s@, m@, properties as int),
{
    let frame: usize = find_child(s, m, properties, "CFrame".as_bytes(), true);
    match (
        read_vector(s, m, frame, "X".as_bytes(), "Y".as_bytes(), "Z".as_bytes()),
        read_vector(s, m, frame, "R00".as_bytes(), "R10".as_bytes(), "R20".as_bytes()),
        read_vector(s, m, frame, "R01".as_bytes(), "R11".as_bytes(), "R21".as_bytes()),
        read_vector(s, m, frame, "R02".as_bytes(), "R12".as_bytes(), "R22".as_bytes()),
    ) {
        (Some(position), Some(x_image), Some(y_image), Some(z_image)) => Some(
            Transform { position, basis: Basis { x_image, y_image, z_image } },
        ),
        _ => None,
    }
}

fn read_token(s: &[u8], m: &Vec<Element>, properties: usize, name: &[u8]) -> (r: Option<u64>)
    ensures
        r == token_in(s@, m@, properties as int, name@),
{
    parse_unsigned(s, text_at(m, find_child(s, m, properties, name, true)))
}

/// The solid that goes by a number.
pub fn shape_for_code(code: u64) -> (r: Option<Shape>)
    ensures
        r == shape_of_code(code),
{
    if code == 0 {
        Some(Shape::Sphere)
    } else if code == 1 {
        Some(Shape::Block)
    } else if code == 2 {
        Some(Shape::Cylinder)
    } else {
        None
    }
}

/// The finish that goes by a number.
pub fn material_for_code(code: u64) -> (r: Material)
    ensures
        r == material_of_code(code),
{
    if code == 512 {
        Material::Wood
    } else if code == 800 {
        Material::Slate
    } else if code == 816 {
        Material::Concrete
    } else if code == 1040 {
        Material::CorrodedMetal
    } else if code == 1056 {
        Material::DiamondPlate
    } else if code == 1072 {
        Material::Foil
    } else if code == 1280 {
        Material::Grass
    } else if code == 1536 {
        Material::Ice
    } else if code == 784 {
        Material::Marble
    } else if code == 832 {
        Material::Granite
    } else if code == 848 {
        Material::Brick
    } else if code == 864 {
        Material::Pebble
    } else if code == 1296 {
        Material::Sand
    } else if code == 1312 {
        Material::Fabric
    } else if code == 272 {
        Material::SmoothPlastic
    } else if code == 1088 {
        Material::Metal
    } else if code == 528 {
        Material::WoodPlanks
    } else if code == 880 {
        Material::Cobblestone
    } else if code == 1568 {
        Material::Glass
    } else if code == 1584 {
        Material::ForceField
    } else {
        Material::Plastic
    }
}

/// The side that goes by a number.
pub fn face_for_code(code: Option<u64>) -> (r: Direction)
    ensures
        r == face_of_code(code),
{
    match code {
        Some(0) => Direction::PosX,
        Some(1) => Direction::PosY,
        Some(2) => Direction::PosZ,
        Some(3) => Direction::NegX,
        Some(4) => Direction::NegY,
        _ => Direction::NegZ,
    }
}

/// The colour that a number packs into its three low bytes.
pub fn color_for_code(code: Option<u64>) -> (r: Color)
    ensures
        r == color_of_code(code),
{
    match code {
        Some(c) => Color {
            red: ((c / 65536) % 256) as u8,
            green: ((c / 256) % 256) as u8,
            blue: (c % 256) as u8,
        },
        None => Color { red: 163, green: 162, blue: 165 },
    }
}

/// The transparency that a number gives, in thousandths.
pub fn transparency_for(value: Option<i64>) -> (r: u16)
    ensures
        r == transparency_of(value),
{
    match value {
        Some(v) => if v < 0 {
            0
        } else if v > 1000 {
            1000
        } else {
            v as u16
        },
        None => 0,
    }
}

fn item(s: &[u8], e: &Element) -> (r: bool)
    ensures
        r == is_item(s@, *e),
{
    span_is(s, e.tag, "Item".as_bytes())
}

fn has_class(s: &[u8], e: &Element, class: &[u8]) -> (r: bool)
    ensures
        r == is_class(s@, *e, class@),
{
    item(s, e) && match e.class {
        Some(c) => span_is(s, c, class),
        None => false,
    }
}

fn shape_for_class(s: &[u8], e: &Element) -> (r: Option<Option<Shape>>)
    ensures
        r == class_shape(s@, *e),
{
    if has_class(s, e, "Part".as_bytes()) {
        Some(None)
    } else if has_class(s, e, "WedgePart".as_bytes()) {
        Some(Some(Shape::Wedge))
    } else if has_class(s, e, "CornerWedgePart".as_bytes()) {
        Some(Some(Shape::CornerWedge))
    } else if has_class(s, e, "SpawnLocation".as_bytes()) || has_class(s, e, "TrussPart".as_bytes())
        || has_class(s, e, "Seat".as_bytes()) || has_class(s, e, "VehicleSeat".as_bytes()) {
        Some(Some(Shape::Block))
    } else {
        None
    }
}

fn container(s: &[u8], e: &Element) -> (r: bool)
    ensures
        r == is_container(s@, *e),
{
    has_class(s, e, "Workspace".as_bytes()) || has_class(s, e, "Model".as_bytes()) || has_class(
        s,
        e,
        "Folder".as_bytes(),
    )
}

fn read_decal(s: &[u8], m: &Vec<Element>, e: usize) -> (r: Option<Material>)
    requires
        e < m.len(),
    ensures
        r == decal_of(s@, m@, e as int),
{
    let properties: usize = find_child(s, m, e, "Properties".as_bytes(), false);
    let content: usize = find_child(s, m, properties, "Texture".as_bytes(), true);
    let address: usize = find_child(s, m, content, "url".as_bytes(), false);
    let face: Direction = face_for_code(read_token(s, m, properties, "Face".as_bytes()));
    match parse_trailing(s, text_at(m, address)) {
        Some(image) => if has_class(s, &m[e], "Decal".as_bytes()) {
            Some(Material::Decal { image, size: 0, face })
        } else if has_class(s, &m[e], "Texture".as_bytes()) {
            Some(Material::Texture { image, size: 0, face })
        } else {
            None
        },
        None => None,
    }
}

fn read_decals(s: &[u8], m: &Vec<Element>, parent: usize) -> (found: Vec<Material>)
    ensures
        found@ == decals_from(s@, m@, parent as int, parent + 1, Seq::empty()),
{
    let mut found: Vec<Material> = Vec::new();
    let end: usize = limit(m, parent);
    if parent >= end {
        return found;
    }
    let mut c: usize = parent + 1;
    while c < end
        invariant
            parent < c <= end <= m.len(),
            end == limit_of(m@, parent as int),
            decals_from(s@, m@, parent as int, parent + 1, Seq::empty()) == decals_from(
                s@,
                m@,
                parent as int,
                c as int,
                found@,
            ),
        decreases end - c,
    {
        let holds_it: bool = match m[c].parent {
            Some(p) => p == parent,
            None => false,
        };
        if holds_it {
            match read_decal(s, m, c) {
                Some(decal) => {
                    found.push(decal);
                },
                None => {},
            }
        }
        c += 1;
    }
    found
}

fn read_part(s: &[u8], m: &Vec<Element>, e: usize, implied: Option<Shape>) -> (r: Result<
    Part,
    ParseErrorKind,
>)
    requires
        e < m.len(),
    ensures
        match part_of(s@, m@, e as int, implied) {
            Ok(model) => r matches Ok(part) && part@ == model,
            Err(kind) => r matches Err(k) && k == kind,
        },
{
    let properties: usize = find_child(s, m, e, "Properties".as_bytes(), false);
    let shape: Option<Shape> = match implied {
        Some(shape) => Some(shape),
        None => match read_token(s, m, properties, "shape".as_bytes()) {
            Some(code) => shape_for_code(code),
            None => None,
        },
    };
    let material: Material = match read_token(s, m, properties, "Material".as_bytes()) {
        Some(code) => material_for_code(code),
        None => Material::Plastic,
    };
    let size: Option<Vec3> = read_vector(
        s,
        m,
        find_child(s, m, properties, "size".as_bytes(), true),
        "X".as_bytes(),
        "Y".as_bytes(),
        "Z".as_bytes(),
    );
    let transform: Option<Transform> = read_transform(s, m, properties);
    match (shape, size, transform) {
        (None, _, _) => Err(ParseErrorKind::MissingShape),
        (Some(_), None, _) => Err(ParseErrorKind::MissingSize),
        (Some(_), Some(_), None) => Err(ParseErrorKind::MissingTransform),
        (Some(shape), Some(size), Some(transform)) => Ok(
            Part {
                shape,
                size,
                transform,
                material,
                color: color_for_code(read_token(s, m, properties, "Color3uint8".as_bytes())),
                transparency: transparency_for(
                    parse_decimal(
                        s,
                        text_at(m, find_child(s, m, properties, "Transparency".as_bytes(), true)),
                    ),
                ),
                decals: read_decals(s, m, e),
            },
        ),
    }
}

fn read_kind(s: &[u8], m: &Vec<Element>, e: usize) -> (r: Result<NodeKind, ParseErrorKind>)
    requires
        e < m.len(),
    ensures
        match kind_of(s@, m@, e as int) {
            Ok(model) => r matches Ok(kind) && kind@ == model,
            Err(kind) => r matches Err(k) && k == kind,
        },
{
    match shape_for_class(s, &m[e]) {
        Some(implied) => match read_part(s, m, e, implied) {
            Ok(part) => Ok(NodeKind::Part(part)),
            Err(kind) => Err(kind),
        },
        None => if container(s, &m[e]) {
            Ok(NodeKind::Container)
        } else {
            Ok(NodeKind::Unknown)
        },
    }
}

/// The bytes of a stretch of the input.
pub fn copy_span(s: &[u8], span: Span) -> (v: Vec<u8>)
    ensures
        v@ == span.of(s@),
{
    let mut v: Vec<u8> = Vec::new();
    if span.start > span.end || span.end > s.len() {
        return v;
    }
    let mut i: usize = span.start;
    while i < span.end
        invariant
            span.start <= i <= span.end <= s.len(),
            v@ == s@.subrange(span.start as int, i as int),
        decreases span.end - i,
    {
        v.push(s[i]);
        assert(v@ =~= s@.subrange(span.start as int, i + 1));
        i += 1;
    }
    v
}

fn label(s: &[u8], e: &Element) -> (v: Vec<u8>)
    ensures
        v@ == label_of(s@, *e),
{
    match e.class {
        Some(c) => copy_span(s, c),
        None => copy_span(s, e.tag),
    }
}

/// The view of a list of byte strings.
pub open spec fn strings(v: Seq<Vec<u8>>) -> Seq<Seq<u8>> {
    Seq::new(v.len(), |i: int| v[i]@)
}

fn path_to(s: &[u8], m: &Vec<Element>, e: usize) -> (path: Vec<Vec<u8>>)
    ensures
        strings(path@) == path_of(s@, m@, e as int),
    decreases e,
{
    if e < m.len() {
        let mut path: Vec<Vec<u8>> = match m[e].parent {
            Some(p) => if p < e {
                path_to(s, m, p)
            } else {
                Vec::new()
            },
            None => Vec::new(),
        };
        let ghost before = strings(path@);
        path.push(label(s, &m[e]));
        assert(strings(path@) =~= before.push(label_of(s@, m@[e as int])));
        assert(seq![label_of(s@, m@[e as int])] =~= Seq::<Seq<u8>>::empty().push(
            label_of(s@, m@[e as int]),
        ));
        path
    } else {
        let path: Vec<Vec<u8>> = Vec::new();
        assert(strings(path@) =~= Seq::<Seq<u8>>::empty());
        path
    }
}

/// The number of items before each element, and before the end.
fn count_items(s: &[u8], m: &Vec<Element>) -> (counts: Vec<usize>)
    ensures
        counts.len() == m.len() + 1,
        forall|e: int| 0 <= e <= m.len() ==> #[trigger] counts[e] == items_before(s@, m@, e),
{
    let mut counts: Vec<usize> = Vec::new();
    counts.push(0);
    let mut e: usize = 0;
    while e < m.len()
        invariant
            e <= m.len(),
            counts.len() == e + 1,
            forall|k: int| 0 <= k <= e ==> #[trigger] counts[k] == items_before(s@, m@, k),
            counts[e as int] <= e,
        decreases m.len() - e,
    {
        let before: usize = counts[e];
        let count: usize = if item(s, &m[e]) { before + 1 } else { before };
        counts.push(count);
        e += 1;
    }
    counts
}

fn markup_error(s: &[u8], m: &Vec<Element>, error: MarkupError) -> (e: ParseError)
    ensures
        e@ == markup_failure(s@, m@, error),
{
    let path: Vec<Vec<u8>> = match error.inside {
        Some(e) => path_to(s, m, e),
        None => Vec::new(),
    };
    let kind: ParseErrorKind = match error.kind {
        MarkupErrorKind::Malformed => ParseErrorKind::Malformed,
        MarkupErrorKind::Mismatched => ParseErrorKind::Mismatched,
        MarkupErrorKind::Unclosed => ParseErrorKind::Unclosed,
    };
    let e: ParseError = ParseError { kind, offset: error.offset, path };
    assert(e@.path =~= markup_failure(s@, m@, error).path);
    e
}

fn read_node(s: &[u8], m: &Vec<Element>, counts: &Vec<usize>, e: usize) -> (r: Result<
    SceneNode,
    ParseError,
>)
    requires
        e < m.len(),
        counts.len() == m.len() + 1,
        forall|k: int| 0 <= k <= m.len() ==> #[trigger] counts[k] == items_before(s@, m@, k),
    ensures
        match node_at(s@, m@, e as int) {
            Ok(model) => r matches Ok(node) && node@ == model,
            Err(error) => r matches Err(x) && x@ == error,
        },
{
    match read_kind(s, m, e) {
        Ok(kind) => {
            let parent: Option<usize> = match m[e].parent {
                Some(p) => if p < e && item(s, &m[p]) {
                    Some(counts[p])
                } else {
                    None
                },
                None => None,
            };
            Ok(SceneNode { kind, parent, end: counts[limit(m, e)] })
        },
        Err(kind) => {
            let error: ParseError = ParseError {
                kind,
                offset: m[e].tag.start,
                path: path_to(s, m, e),
            };
            assert(error@.path =~= path_of(s@, m@, e as int));
            Err(error)
        },
    }
}

fn read_nodes(s: &[u8], m: &Vec<Element>) -> (r: Result<SceneModel, ParseError>)
    ensures
        match nodes_upto(s@, m@, m.len() as int) {
            Ok(nodes) => r matches Ok(scene) && scene@ == nodes,
            Err(error) => r matches Err(e) && e@ == error,
        },
{
    let counts: Vec<usize> = count_items(s, m);
    let mut nodes: Vec<SceneNode> = Vec::new();
    let mut e: usize = 0;
    assert(node_models(nodes@) =~= Seq::<SceneNodeModel>::empty());
    while e < m.len()
        invariant
            e <= m.len(),
            counts.len() == m.len() + 1,
            forall|k: int| 0 <= k <= m.len() ==> #[trigger] counts[k] == items_before(s@, m@, k),
            nodes_upto(s@, m@, e as int) == Ok::<Seq<SceneNodeModel>, ParseErrorModel>(
                node_models(nodes@),
            ),
        decreases m.len() - e,
    {
        if item(s, &m[e]) {
            match read_node(s, m, &counts, e) {
                Ok(node) => {
                    let ghost before = node_models(nodes@);
                    let ghost model = node@;
                    nodes.push(node);
                    assert(node_models(nodes@) =~= before.push(model));
                },
                Err(error) => {
                    proof {
                        lemma_error_stays(s@, m@, e + 1, m.len() as int);
                    }
                    return Err(error);
                },
            }
        }
        e += 1;
    }
    Ok(SceneModel { nodes })
}

/// Reads the scene from its document.
pub fn parse_scene(s: &[u8]) -> (r: Result<SceneModel, ParseError>)
    ensures
        match scene_of(s@) {
            Ok(nodes) => r matches Ok(scene) && scene@ == nodes,
            Err(error) => r matches Err(e) && e@ == error,
        },
{
    let (m, failure) = read_markup(s);
    match failure {
        Some(error) => Err(markup_error(s, &m, error)),
        None => read_nodes(s, &m),
    }
}

/// What is wrong with the first item with which something is stays what is
/// wrong with the document.
pub proof fn lemma_error_stays(s: Seq<u8>, m: Seq<Element>, e: int, n: int)
    requires
        0 <= e <= n <= m.len(),
        nodes_upto(s, m, e) is Err,
    ensures
        nodes_upto(s, m, n) == nodes_upto(s, m, e),
    decreases n - e,
{
    if e < n {
        lemma_error_stays(s, m, e, n - 1);
    }
}

/// The nodes are laid out as a tree in the order of the document: the node
/// that holds a node comes before it, and the nodes below a node follow it
/// up to the place that the node names.
pub open spec fn laid_out(nodes: Seq<SceneNodeModel>) -> bool {
    forall|k: int|
        0 <= k < nodes.len() ==> {
            &&& k < (#[trigger] nodes[k]).end <= nodes.len()
            &&& nodes[k].parent matches Some(p) ==> p < k
        }
}

/// The nodes of a scene, if there is one.
pub open spec fn nodes_of(scene: Result<Seq<SceneNodeModel>, ParseErrorModel>) -> Seq<
    SceneNodeModel,
> {
    match scene {
        Ok(nodes) => nodes,
        Err(_) => Seq::empty(),
    }
}

/// There are no more items than elements.
pub proof fn lemma_items_bound(s: Seq<u8>, m: Seq<Element>, e: int)
    ensures
        0 <= e ==> items_before(s, m, e) <= e,
    decreases e,
{
    if 0 < e <= m.len() {
        lemma_items_bound(s, m, e - 1);
    }
}

/// The number of items grows with the number of elements looked at, by one
/// with each item.
pub proof fn lemma_items_before(s: Seq<u8>, m: Seq<Element>, a: int, b: int)
    requires
        0 <= a <= b <= m.len(),
    ensures
        items_before(s, m, a) <= items_before(s, m, b) <= b,
        a < b && is_item(s, m[a]) ==> items_before(s, m, a) < items_before(s, m, b),
    decreases b - a,
{
    lemma_items_bound(s, m, b);
    if a < b {
        lemma_items_before(s, m, a, b - 1);
    }
}

proof fn lemma_nodes_upto(s: Seq<u8>, m: Seq<Element>, e: int)
    requires
        0 <= e <= m.len() <= usize::MAX,
        nodes_upto(s, m, e) is Ok,
    ensures
        ({
            let nodes = nodes_of(nodes_upto(s, m, e));
            &&& nodes.len() == items_before(s, m, e)
            &&& forall|k: int|
                0 <= k < nodes.len() ==> {
                    &&& k < (#[trigger] nodes[k]).end <= items_before(s, m, m.len() as int)
                    &&& nodes[k].parent matches Some(p) ==> p < k
                }
        }),
    decreases e,
{
    if e > 0 {
        lemma_nodes_upto(s, m, e - 1);
        let before = nodes_of(nodes_upto(s, m, e - 1));
        let nodes = nodes_of(nodes_upto(s, m, e));
        if is_item(s, m[e - 1]) {
            let k = before.len() as int;
            let node = nodes[k];
            let limit = limit_of(m, e - 1);
            lemma_items_before(s, m, e - 1, limit);
            lemma_items_before(s, m, limit, m.len() as int);
            lemma_items_before(s, m, 0, m.len() as int);
            match m[e - 1].parent {
                Some(p) => {
                    if p < e - 1 {
                        lemma_items_before(s, m, p as int, e - 1);
                    }
                },
                None => {},
            }
            assert forall|j: int| 0 <= j < nodes.len() implies {
                &&& j < (#[trigger] nodes[j]).end <= items_before(s, m, m.len() as int)
                &&& nodes[j].parent matches Some(p) ==> p < j
            } by {
                if j < k {
                    assert(nodes[j] == before[j]);
                } else {
                    assert(nodes[j] == node);
                }
            }
        }
    }
}

/// The scene that a document describes is laid out as a tree.
pub proof fn law_scene_is_laid_out(s: Seq<u8>)
    requires
        s.len() <= usize::MAX,
        scene_of(s) is Ok,
    ensures
        laid_out(nodes_of(scene_of(s))),
{
    let (m, error) = markup_of(s);
    lemma_markup_length(s, 0, Seq::empty(), Seq::empty());
    lemma_nodes_upto(s, m, m.len() as int);
}

} // verus!
