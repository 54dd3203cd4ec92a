//! The map document: a world block that holds a solid block for each brush,
//! which holds a side block for each face, every block under an identity of its own.

use vstd::prelude::*;
use vstd::string::*;
use crate::brush::{brush_models, Brush, BrushModel, Face, FaceModel};
use crate::geometry::{Vec3, Vector};
use crate::number::{
    push_decimal, push_fixed, push_integer, push_signed_fixed, with_decimal, with_fixed,
    with_integer, with_signed_fixed,
};
use crate::texture::{push_texture, with_texture, TextureAxis};

verus! {

/// What stands before the name of the sky: the version of the format and
/// the beginning of the world block.
pub const HEADER: &'static str =
    "versioninfo\n{\n\t\"editorversion\" \"400\"\n\t\"editorbuild\" \"8000\"\n\t\"mapversion\" \"1\"\n\t\"formatversion\" \"100\"\n\t\"prefab\" \"0\"\n}\nworld\n{\n\t\"id\" \"1\"\n\t\"mapversion\" \"1\"\n\t\"classname\" \"worldspawn\"\n\t\"skyname\" \"";

/// What ends a value that ends a line.
pub const HEADER_END: &'static str = "\"\n";

/// What ends the world block.
pub const FOOTER: &'static str = "}\n";

/// What stands before the identity of a solid.
pub const SOLID_OPEN: &'static str = "\tsolid\n\t{\n\t\t\"id\" \"";

/// What stands before the colour of a solid.
pub const SOLID_COLOR: &'static str = "\t\teditor\n\t\t{\n\t\t\t\"color\" \"";

/// What ends a solid block.
pub const SOLID_CLOSE: &'static str =
    "\"\n\t\t\t\"visgroupshown\" \"1\"\n\t\t\t\"visgroupautoshown\" \"1\"\n\t\t}\n\t}\n";

/// What stands before the identity of a side.
pub const SIDE_OPEN: &'static str = "\t\tside\n\t\t{\n\t\t\t\"id\" \"";

/// What stands before the plane of a side.
pub const SIDE_PLANE: &'static str = "\"\n\t\t\t\"plane\" \"";

/// What stands before the texture of a side.
pub const SIDE_MATERIAL: &'static str = "\"\n\t\t\t\"material\" \"";

/// What stands before the first texture axis of a side.
pub const SIDE_UAXIS: &'static str = "\"\n\t\t\t\"uaxis\" \"";

/// What stands before the second texture axis of a side.
pub const SIDE_VAXIS: &'static str = "\"\n\t\t\t\"vaxis\" \"";

/// What ends a side block.
pub const SIDE_CLOSE: &'static str =
    "\"\n\t\t\t\"rotation\" \"0\"\n\t\t\t\"lightmapscale\" \"16\"\n\t\t\t\"smoothing_groups\" \"0\"\n\t\t}\n";

/// Why there is no document.
#[derive(Clone, Copy, PartialEq, Eq, Debug, Structural)]
pub enum WriteError {
    /// A face has fewer than three corners, so that nothing gives its plane.
    Malformed,
    /// There are more blocks than identities.
    TooManyBlocks,
}

/// The number of blocks that the first `n` solids take, sides included.
pub open spec fn blocks_before(solids: Seq<BrushModel>, n: int) -> int
    decreases n,
{
    if n <= 0 {
        0
    } else {
        blocks_before(solids, n - 1) + 1 + solids[n - 1].faces.len()
    }
}

/// The number of blocks of the document: the world, the solids and their sides.
pub open spec fn block_count(solids: Seq<BrushModel>) -> int {
    1 + blocks_before(solids, solids.len() as int)
}

/// The identity of the world block.
pub open spec fn world_id() -> int {
    1
}

/// The identity of the solid at place `i`.
pub open spec fn solid_id(solids: Seq<BrushModel>, i: int) -> int {
    2 + blocks_before(solids, i)
}

/// The identity of the side at place `j` of the solid at place `i`.
pub open spec fn side_id(solids: Seq<BrushModel>, i: int, j: int) -> int {
    solid_id(solids, i) + 1 + j
}

/// The text `acc` followed by a point in round brackets, in document units.
pub open spec fn with_point(acc: Seq<char>, v: Vector) -> Seq<char> {
    with_signed_fixed(
        with_signed_fixed(with_signed_fixed(acc + "("@, 5 * v.x, 7) + " "@, 5 * v.y, 7) + " "@,
        5 * v.z,
        7,
    ) + ")"@
}

/// The text `acc` followed by the first three corners of the face.
pub open spec fn with_plane(acc: Seq<char>, f: FaceModel) -> Seq<char> {
    with_point(
        with_point(with_point(acc, f.vertices[0]) + " "@, f.vertices[1]) + " "@,
        f.vertices[2],
    )
}

/// The text `acc` followed by a texture axis: its direction and shift in
/// square brackets, then its scale.
pub open spec fn with_axis(acc: Seq<char>, a: TextureAxis) -> Seq<char> {
    let d = a.direction.unit();
    with_fixed(
        with_integer(
            with_integer(with_integer(with_integer(acc + "["@, d.x) + " "@, d.y) + " "@, d.z)
                + " "@,
            a.shift as int,
        ) + "] "@,
        a.scale as nat,
        6,
    )
}

/// The text `acc` followed by the side block of a face under the identity
/// `id`; a face of the sky shows the material `sky`.
pub open spec fn with_side(acc: Seq<char>, f: FaceModel, id: int, sky: Seq<char>) -> Seq<char> {
    let a = with_decimal(acc + SIDE_OPEN@, id as nat);
    let b = with_plane(a + SIDE_PLANE@, f);
    let c = with_texture(b + SIDE_MATERIAL@, f.texture, sky);
    let d = with_axis(c + SIDE_UAXIS@, f.u_axis);
    let e = with_axis(d + SIDE_VAXIS@, f.v_axis);
    e + SIDE_CLOSE@
}

/// The text `acc` followed by the side blocks of the first `n` faces, under
/// the identities from `first` on.
pub open spec fn with_sides(
    acc: Seq<char>,
    faces: Seq<FaceModel>,
    n: int,
    first: int,
    sky: Seq<char>,
) -> Seq<char>
    decreases n,
{
    if n <= 0 {
        acc
    } else {
        with_side(with_sides(acc, faces, n - 1, first, sky), faces[n - 1], first + n - 1, sky)
    }
}

/// The text `acc` followed by the solid block of a brush under the identity
/// `id`; its sides take the identities that follow.
pub open spec fn with_solid(acc: Seq<char>, b: BrushModel, id: int, sky: Seq<char>) -> Seq<char> {
    let a = with_decimal(acc + SOLID_OPEN@, id as nat) + HEADER_END@;
    let s = with_sides(a, b.faces, b.faces.len() as int, id + 1, sky);
    let r = with_decimal(s + SOLID_COLOR@, b.color.red as nat);
    let g = with_decimal(r + " "@, b.color.green as nat);
    let c = with_decimal(g + " "@, b.color.blue as nat);
    c + SOLID_CLOSE@
}

/// The text `acc` followed by the solid blocks of the first `n` brushes.
pub open spec fn with_solids(acc: Seq<char>, solids: Seq<BrushModel>, n: int, sky: Seq<char>) -> Seq<
    char,
>
    decreases n,
{
    if n <= 0 {
        acc
    } else {
        with_solid(
            with_solids(acc, solids, n - 1, sky),
            solids[n - 1],
            solid_id(solids, n - 1),
            sky,
        )
    }
}

/// The text of the document. The name of the sky stands in the world block,
/// and as the material on every face that shows the sky.
pub open spec fn document_text(solids: Seq<BrushModel>, sky_name: Seq<char>) -> Seq<char> {
    with_solids(HEADER@ + sky_name + HEADER_END@, solids, solids.len() as int, sky_name) + FOOTER@
}

/// The brushes, and after them the sky, if there is one.
pub open spec fn all_solids(brushes: Seq<BrushModel>, sky: Option<BrushModel>) -> Seq<BrushModel> {
    match sky {
        Some(b) => brushes.push(b),
        None => brushes,
    }
}

/// Every face has the three corners that give its plane.
pub open spec fn writable(solids: Seq<BrushModel>) -> bool {
    forall|i: int, j: int|
        0 <= i < solids.len() && 0 <= j < solids[i].faces.len() ==> (
        #[trigger] solids[i].faces[j]).vertices.len() >= 3
}

/// The document, or why there is none.
pub open spec fn written(solids: Seq<BrushModel>, sky_name: Seq<char>) -> Result<
    Seq<char>,
    WriteError,
> {
    if !writable(solids) {
        Err(WriteError::Malformed)
    } else if block_count(solids) > u64::MAX {
        Err(WriteError::TooManyBlocks)
    } else {
        Ok(document_text(solids, sky_name))
    }
}

/// The models of the brushes behind a sequence of references.
pub open spec fn models_of(solids: Seq<&Brush>) -> Seq<BrushModel> {
    Seq::new(solids.len(), |i: int| solids[i]@)
}

/// The number of blocks grows with the number of solids.
pub proof fn lemma_blocks_grow(solids: Seq<BrushModel>, i: int, n: int)
    requires
        0 <= i <= n,
    ensures
        0 <= blocks_before(solids, i) <= blocks_before(solids, n),
        i < n ==> blocks_before(solids, i) + 1 + solids[i].faces.len() <= blocks_before(solids, n),
    decreases n,
{
    if i < n {
        lemma_blocks_grow(solids, i, n - 1);
    } else if i > 0 {
        lemma_blocks_grow(solids, i - 1, i - 1);
    }
}

/// Solids of no more than ten faces take no more than eleven blocks each.
pub proof fn lemma_blocks_bound(solids: Seq<BrushModel>, n: int)
    requires
        0 <= n <= solids.len(),
        forall|i: int| 0 <= i < solids.len() ==> (#[trigger] solids[i]).faces.len() <= 10,
    ensures
        blocks_before(solids, n) <= 11 * n,
    decreases n,
{
    if n > 0 {
        lemma_blocks_bound(solids, n - 1);
    }
}

/// The world, a solid or a side of the document.
pub enum Block {
    World,
    Solid { solid: int },
    Side { solid: int, side: int },
}

impl Block {
    /// The block is one of the document for these solids.
    pub open spec fn within(self, solids: Seq<BrushModel>) -> bool {
        match self {
            Block::World => true,
            Block::Solid { solid } => 0 <= solid < solids.len(),
            Block::Side { solid, side } => 0 <= solid < solids.len() && 0 <= side
                < solids[solid].faces.len(),
        }
    }

    /// The identity under which the block stands in the document.
    pub open spec fn identity(self, solids: Seq<BrushModel>) -> int {
        match self {
            Block::World => world_id(),
            Block::Solid { solid } => solid_id(solids, solid),
            Block::Side { solid, side } => side_id(solids, solid, side),
        }
    }

    /// The block comes before the other in the document.
    pub open spec fn before(self, other: Block) -> bool {
        match (self, other) {
            (Block::World, Block::World) => false,
            (Block::World, _) => true,
            (_, Block::World) => false,
            (Block::Solid { solid: a }, Block::Solid { solid: b }) => a < b,
            (Block::Solid { solid: a }, Block::Side { solid: b, .. }) => a <= b,
            (Block::Side { solid: a, .. }, Block::Solid { solid: b }) => a < b,
            (Block::Side { solid: a, side: i }, Block::Side { solid: b, side: j }) => a < b || (a
                == b && i < j),
        }
    }
}

/// The identities grow through the document: a block that comes before
/// another has the smaller identity, and all lie between one and the number
/// of blocks.
pub proof fn law_identities_increase(solids: Seq<BrushModel>, a: Block, b: Block)
    requires
        a.within(solids),
        b.within(solids),
        a.before(b),
    ensures
        1 <= a.identity(solids) < b.identity(solids) <= block_count(solids),
{
    let n = solids.len() as int;
    match a {
        Block::World => {},
        Block::Solid { solid } => {
            lemma_blocks_grow(solids, solid, n);
        },
        Block::Side { solid, side } => {
            lemma_blocks_grow(solids, solid, n);
        },
    }
    match b {
        Block::World => {},
        Block::Solid { solid } => {
            lemma_blocks_grow(solids, solid, n);
            match a {
                Block::World => {},
                Block::Solid { solid: first } => {
                    lemma_blocks_grow(solids, first, solid);
                },
                Block::Side { solid: first, side } => {
                    lemma_blocks_grow(solids, first, solid);
                },
            }
        },
        Block::Side { solid, side } => {
            lemma_blocks_grow(solids, solid, n);
            match a {
                Block::World => {},
                Block::Solid { solid: first } => {
                    lemma_blocks_grow(solids, first, solid);
                },
                Block::Side { solid: first, side: s } => {
                    lemma_blocks_grow(solids, first, solid);
                },
            }
        },
    }
}

/// No two blocks of the document have the same identity.
pub proof fn law_identities_differ(solids: Seq<BrushModel>, a: Block, b: Block)
    requires
        a.within(solids),
        b.within(solids),
        a != b,
    ensures
        a.identity(solids) != b.identity(solids),
{
    if a.before(b) {
        law_identities_increase(solids, a, b);
    } else {
        assert(b.before(a));
        law_identities_increase(solids, b, a);
    }
}

/// A solid of a document that can be written has faces with planes, and
/// identities for itself and all its sides.
proof fn lemma_solid_ready(s: Seq<BrushModel>, i: int)
    requires
        writable(s),
        block_count(s) <= u64::MAX,
        0 <= i < s.len(),
    ensures
        forall|j: int| 0 <= j < s[i].faces.len() ==> (#[trigger] s[i].faces[j]).vertices.len() >= 3,
        2 <= solid_id(s, i),
        solid_id(s, i) + s[i].faces.len() <= u64::MAX,
        solid_id(s, i + 1) == solid_id(s, i) + 1 + s[i].faces.len(),
{
    lemma_blocks_grow(s, i, s.len() as int);
}

fn push_point(out: &mut String, v: &Vec3)
    ensures
        final(out)@ == with_point(old(out)@, v@),
{
    out.append("(");
    push_signed_fixed(out, 5 * (v.x as i128), 7);
    out.append(" ");
    push_signed_fixed(out, 5 * (v.y as i128), 7);
    out.append(" ");
    push_signed_fixed(out, 5 * (v.z as i128), 7);
    out.append(")");
}

fn push_plane(out: &mut String, f: &Face)
    requires
        f.vertices.len() >= 3,
    ensures
        final(out)@ == with_plane(old(out)@, f@),
{
    assert(f@.vertices[0] == f.vertices[0]@);
    assert(f@.vertices[1] == f.vertices[1]@);
    assert(f@.vertices[2] == f.vertices[2]@);
    push_point(out, &f.vertices[0]);
    out.append(" ");
    push_point(out, &f.vertices[1]);
    out.append(" ");
    push_point(out, &f.vertices[2]);
}

fn push_axis(out: &mut String, a: &TextureAxis)
    ensures
        final(out)@ == with_axis(old(out)@, *a),
{
    let d: Vec3 = a.direction.to_unit();
    out.append("[");
    push_integer(out, d.x);
    out.append(" ");
    push_integer(out, d.y);
    out.append(" ");
    push_integer(out, d.z);
    out.append(" ");
    push_integer(out, a.shift);
    out.append("] ");
    push_fixed(out, a.scale as u128, 6);
}

fn push_side(out: &mut String, f: &Face, id: u64, sky: &str)
    requires
        f.vertices.len() >= 3,
    ensures
        final(out)@ == with_side(old(out)@, f@, id as int, sky@),
{
    out.append(SIDE_OPEN);
    push_decimal(out, id as u128);
    out.append(SIDE_PLANE);
    push_plane(out, f);
    out.append(SIDE_MATERIAL);
    push_texture(out, f.texture, sky);
    out.append(SIDE_UAXIS);
    push_axis(out, &f.u_axis);
    out.append(SIDE_VAXIS);
    push_axis(out, &f.v_axis);
    out.append(SIDE_CLOSE);
}

fn push_sides(out: &mut String, b: &Brush, id: u64, sky: &str)
    requires
        forall|j: int| 0 <= j < b.faces.len() ==> (#[trigger] b@.faces[j]).vertices.len() >= 3,
        id + b.faces.len() <= u64::MAX,
    ensures
        final(out)@ == with_sides(old(out)@, b@.faces, b.faces.len() as int, id + 1, sky@),
{
    let ghost start = out@;
    let mut j: usize = 0;
    while j < b.faces.len()
        invariant
            j <= b.faces.len(),
            id + b.faces.len() <= u64::MAX,
            forall|k: int| 0 <= k < b.faces.len() ==> (#[trigger] b@.faces[k]).vertices.len() >= 3,
            out@ == with_sides(start, b@.faces, j as int, id + 1, sky@),
        decreases b.faces.len() - j,
    {
        let f: &Face = &b.faces[j];
        assert(b@.faces[j as int] == f@);
        assert(f@.vertices.len() == f.vertices.len());
        push_side(out, f, id + 1 + j as u64, sky);
        j += 1;
    }
}

fn push_solid(out: &mut String, b: &Brush, id: u64, sky: &str)
    requires
        forall|j: int| 0 <= j < b.faces.len() ==> (#[trigger] b@.faces[j]).vertices.len() >= 3,
        id + b.faces.len() <= u64::MAX,
    ensures
        final(out)@ == with_solid(old(out)@, b@, id as int, sky@),
{
    out.append(SOLID_OPEN);
    push_decimal(out, id as u128);
    out.append(HEADER_END);
    push_sides(out, b, id, sky);
    out.append(SOLID_COLOR);
    push_decimal(out, b.color.red as u128);
    out.append(" ");
    push_decimal(out, b.color.green as u128);
    out.append(" ");
    push_decimal(out, b.color.blue as u128);
    out.append(SOLID_CLOSE);
}

/// Whether every face of the brush has the three corners that give its plane.
fn has_planes(b: &Brush) -> (ok: bool)
    ensures
        ok == forall|j: int| 0 <= j < b.faces.len() ==> (#[trigger] b@.faces[j]).vertices.len() >= 3,
{
    let mut j: usize = 0;
    while j < b.faces.len()
        invariant
            j <= b.faces.len(),
            forall|k: int| 0 <= k < j ==> (#[trigger] b@.faces[k]).vertices.len() >= 3,
        decreases b.faces.len() - j,
    {
        assert(b@.faces[j as int] == b.faces[j as int]@);
        assert(b.faces[j as int]@.vertices.len() == b.faces[j as int].vertices.len());
        if b.faces[j].vertices.len() < 3 {
            return false;
        }
        j += 1;
    }
    true
}

/// Checks that the solids can be written.
fn check_solids(solids: &Vec<&Brush>) -> (r: Result<(), WriteError>)
    ensures
        r is Ok ==> writable(models_of(solids@)) && block_count(models_of(solids@)) <= u64::MAX,
        r matches Err(e) ==> written(models_of(solids@), Seq::empty()) == Err::<
            Seq<char>,
            WriteError,
        >(e),
{
    let ghost s = models_of(solids@);
    let mut i: usize = 0;
    while i < solids.len()
        invariant
            i <= solids.len(),
            s == models_of(solids@),
            forall|a: int, j: int|
                0 <= a < i && 0 <= j < s[a].faces.len() ==> (#[trigger] s[a].faces[j]).vertices.len()
                    >= 3,
        decreases solids.len() - i,
    {
        assert(s[i as int] == solids[i as int]@);
        if !has_planes(solids[i]) {
            return Err(WriteError::Malformed);
        }
        i += 1;
    }
    let mut count: u64 = 1;
    let mut k: usize = 0;
    while k < solids.len()
        invariant
            k <= solids.len(),
            s == models_of(solids@),
            writable(s),
            count == 1 + blocks_before(s, k as int),
        decreases solids.len() - k,
    {
        assert(s[k as int] == solids[k as int]@);
        assert(s[k as int].faces.len() == solids[k as int].faces.len());
        let more: u128 = count as u128 + 1 + solids[k].faces.len() as u128;
        if more > u64::MAX as u128 {
            proof {
                lemma_blocks_grow(s, k as int, s.len() as int);
            }
            return Err(WriteError::TooManyBlocks);
        }
        count = more as u64;
        k += 1;
    }
    Ok(())
}

/// The brushes, and after them the sky, if there is one.
fn gather<'a>(brushes: &'a Vec<Brush>, sky: Option<&'a Brush>) -> (all: Vec<&'a Brush>)
    ensures
        models_of(all@) == all_solids(
            brush_models(brushes@),
            match sky {
                Some(b) => Some(b@),
                None => None,
            },
        ),
{
    let mut all: Vec<&Brush> = Vec::new();
    let mut i: usize = 0;
    while i < brushes.len()
        invariant
            i <= brushes.len(),
            all.len() == i,
            forall|k: int| 0 <= k < i ==> (#[trigger] all[k])@ == brushes[k]@,
        decreases brushes.len() - i,
    {
        all.push(&brushes[i]);
        i += 1;
    }
    assert(models_of(all@) =~= brush_models(brushes@));
    match sky {
        Some(b) => {
            all.push(b);
            assert(models_of(all@) =~= brush_models(brushes@).push(b@));
        },
        None => {},
    }
    all
}

/// Writes the document: the world block with a solid block for each brush
/// and, last, for the sky, every block under an identity of its own.
pub fn write_document(brushes: &Vec<Brush>, sky: Option<&Brush>, sky_name: &str) -> (r: Result<
    String,
    WriteError,
>)
    ensures
        ({
            let solids = all_solids(
                brush_models(brushes@),
                match sky {
                    Some(b) => Some(b@),
                    None => None,
                },
            );
            match written(solids, sky_name@) {
                Ok(text) => r matches Ok(out) && out@ == text,
                Err(e) => r matches Err(x) && x == e,
            }
        }),
{
    let all: Vec<&Brush> = gather(brushes, sky);
    let ghost s = models_of(all@);
    match check_solids(&all) {
        Err(e) => {
            return Err(e);
        },
        Ok(()) => {},
    }
    let mut out: String = String::from_str(HEADER);
    out.append(sky_name);
    out.append(HEADER_END);
    let ghost start = out@;
    let mut id: u128 = 2;
    let mut i: usize = 0;
    while i < all.len()
        invariant
            i <= all.len(),
            s == models_of(all@),
            writable(s),
            block_count(s) <= u64::MAX,
            id == solid_id(s, i as int),
            id <= u64::MAX + 1,
            out@ == with_solids(start, s, i as int, sky_name@),
        decreases all.len() - i,
    {
        let b: &Brush = all[i];
        proof {
            assert(s[i as int] == b@);
            lemma_solid_ready(s, i as int);
        }
        push_solid(&mut out, b, id as u64, sky_name);
        id = id + 1 + b.faces.len() as u128;
        i += 1;
    }
    out.append(FOOTER);
    Ok(out)
}

} // verus!
