//! The run: from the scene to the document.

use vstd::prelude::*;
use crate::brush::{brush_models, Brush, BrushModel};
use crate::config::ConversionConfig;
use crate::geometry::Direction;
use crate::material::Material;
use crate::optimize::{
    all_sky_less, all_sound, law_optimize_keeps_sound, law_optimized_is_settled, optimize,
    optimized,
};
use crate::resolver::{
    law_no_source_falls_back, plain_resolution, resolution, settlement, sky_free, CacheState,
    FetchRequest, MaterialResolutionError, MaterialResolver, Resolution,
};
use crate::scene::{NodeKind, NodeKindModel, Part, PartModel, SceneModel, SceneNodeModel};
use crate::shape::{
    law_brush_is_sound, synthesize, synthesized, texel_scale, texel_size, GeometryError,
};
use crate::skybox::{
    bounding, hollow_brush, inflated, law_sky_shows_its_name, plan, planned, SkyboxError,
};
use crate::texture::{with_texture, TextureRef, TextureSet};
use crate::writer::{
    all_solids, block_count, lemma_blocks_bound, writable, write_document, written, WriteError,
};

verus! {

broadcast use vstd::std_specs::hash::group_hash_axioms;

/// What went wrong without stopping the run.
#[derive(Clone, Copy, PartialEq, Eq, Debug, Structural)]
pub enum Warning {
    /// The part at this node has no brush; it is left out.
    Skipped { node: usize, error: GeometryError },
    /// A material of the part at this node could not be had; something stands in for it.
    Substituted { node: usize, reason: MaterialResolutionError },
    /// The image could not be fetched; something stands in for it.
    Unfetched { image: u64 },
    /// There is no sky.
    NoSky { cause: SkyboxError },
}

/// What is known while the materials of the scene are gone through: what
/// the resolver knows, the images to fetch and the warnings so far.
pub struct Preparation {
    pub cache: Map<u64, CacheState>,
    pub fetches: Seq<FetchRequest>,
    pub warnings: Seq<Warning>,
}

/// What is known after the material of the part at `node` is resolved.
pub open spec fn prepared_material(
    before: Preparation,
    material: Material,
    config: ConversionConfig,
    node: usize,
) -> Preparation {
    let (answer, cache) = resolution(before.cache, material, config);
    match answer {
        Resolution::Fetch(request) => Preparation {
            cache,
            fetches: before.fetches.push(request),
            warnings: before.warnings,
        },
        Resolution::Ready { fault, .. } => Preparation {
            cache,
            fetches: before.fetches,
            warnings: match fault {
                Some(reason) => before.warnings.push(Warning::Substituted { node, reason }),
                None => before.warnings,
            },
        },
        Resolution::Wait => Preparation { cache, ..before },
    }
}

/// What is known after the first `n` of the decals are resolved.
pub open spec fn prepared_decals(
    before: Preparation,
    decals: Seq<Material>,
    n: int,
    config: ConversionConfig,
    node: usize,
) -> Preparation
    decreases n,
{
    if n <= 0 || n > decals.len() {
        before
    } else {
        prepared_material(
            prepared_decals(before, decals, n - 1, config, node),
            decals[n - 1],
            config,
            node,
        )
    }
}

/// What is known after the materials of the parts among the first `n` nodes
/// are resolved: of each part its material, then its decals.
pub open spec fn prepared_nodes(
    before: Preparation,
    nodes: Seq<SceneNodeModel>,
    n: int,
    config: ConversionConfig,
) -> Preparation
    decreases n,
{
    if n <= 0 || n > nodes.len() {
        before
    } else {
        let so_far = prepared_nodes(before, nodes, n - 1, config);
        match nodes[n - 1].kind {
            NodeKindModel::Part(part) => prepared_decals(
                prepared_material(so_far, part.material, config, (n - 1) as usize),
                part.decals,
                part.decals.len() as int,
                config,
                (n - 1) as usize,
            ),
            _ => so_far,
        }
    }
}

/// What is known after the first `n` fetches are settled, and the warnings
/// for those that failed.
pub open spec fn settled_upto(
    cache: Map<u64, CacheState>,
    requests: Seq<FetchRequest>,
    fetched: Seq<bool>,
    n: int,
) -> (Map<u64, CacheState>, Seq<Warning>)
    decreases n,
{
    if n <= 0 || n > requests.len() || n > fetched.len() {
        (cache, Seq::empty())
    } else {
        let (before, warnings) = settled_upto(cache, requests, fetched, n - 1);
        let (answer, after) = settlement(before, requests[n - 1], fetched[n - 1]);
        match answer {
            Some(Resolution::Ready { fault: Some(_), .. }) => (
                after,
                warnings.push(Warning::Unfetched { image: requests[n - 1].image }),
            ),
            _ => (after, warnings),
        }
    }
}

/// The texture of a material once all fetches are settled: what the finish
/// or the reserved name gives, or what is known of the image. Of an image of
/// which nothing is known for good, a reference where images can be fetched
/// and no texture files are written, and what stands in for it otherwise.
pub open spec fn settled_texture(
    cache: Map<u64, CacheState>,
    material: Material,
    config: ConversionConfig,
) -> TextureRef {
    match material.image() {
        None => match plain_resolution(material, config.developer_textures) {
            Resolution::Ready { texture, .. } => texture,
            _ => TextureRef::Placeholder,
        },
        Some(image) => if cache.contains_key(image) {
            match cache[image] {
                CacheState::Done(texture) => texture,
                CacheState::Pending => TextureRef::Placeholder,
            }
        } else if config.remote_fetch && !config.texture_output {
            TextureRef::Asset { image, size: config.decal_size }
        } else {
            TextureRef::Placeholder
        },
    }
}

/// The textures of a part with the first `n` of its decals laid over its sides.
pub open spec fn decorated(
    cache: Map<u64, CacheState>,
    config: ConversionConfig,
    decals: Seq<Material>,
    n: int,
    base: TextureSet,
) -> TextureSet
    decreases n,
{
    if n <= 0 || n > decals.len() {
        base
    } else {
        let before = decorated(cache, config, decals, n - 1, base);
        match decals[n - 1].face() {
            Some(side) => before.with(side, settled_texture(cache, decals[n - 1], config)),
            None => before,
        }
    }
}

/// The textures of the six sides of a part: that of its material, and over
/// it those of its decals, a later one over an earlier one.
pub open spec fn part_textures(
    cache: Map<u64, CacheState>,
    config: ConversionConfig,
    part: PartModel,
) -> TextureSet {
    decorated(
        cache,
        config,
        part.decals,
        part.decals.len() as int,
        TextureSet::uniform(settled_texture(cache, part.material, config)),
    )
}

/// The brushes of the parts among the first `n` nodes, and a warning for
/// each part that has none.
pub open spec fn brushes_upto(
    nodes: Seq<SceneNodeModel>,
    n: int,
    cache: Map<u64, CacheState>,
    config: ConversionConfig,
) -> (Seq<BrushModel>, Seq<Warning>)
    decreases n,
{
    if n <= 0 || n > nodes.len() {
        (Seq::empty(), Seq::empty())
    } else {
        let (brushes, warnings) = brushes_upto(nodes, n - 1, cache, config);
        match nodes[n - 1].kind {
            NodeKindModel::Part(part) => match synthesized(
                part,
                part_textures(cache, config, part),
                config.map_scale,
            ) {
                Ok(brush) => (brushes.push(brush), warnings),
                Err(error) => (
                    brushes,
                    warnings.push(Warning::Skipped { node: (n - 1) as usize, error }),
                ),
            },
            _ => (brushes, warnings),
        }
    }
}

/// The clearance of the sky in half-millionths of a document unit, as far
/// as eight bytes hold it.
pub open spec fn clearance_of(config: ConversionConfig) -> u64 {
    let room = 2 * config.map_scale * config.skybox_clearance;
    if room > u64::MAX {
        u64::MAX
    } else {
        room as u64
    }
}

/// The brushes of the document before the sky: those of the parts, joined
/// where that is asked for.
pub open spec fn final_brushes(
    nodes: Seq<SceneNodeModel>,
    cache: Map<u64, CacheState>,
    config: ConversionConfig,
) -> Seq<BrushModel> {
    let brushes = brushes_upto(nodes, nodes.len() as int, cache, config).0;
    if config.optimize {
        optimized(brushes)
    } else {
        brushes
    }
}

/// The sky of the document, if one is asked for and can be had.
pub open spec fn final_sky(
    nodes: Seq<SceneNodeModel>,
    cache: Map<u64, CacheState>,
    config: ConversionConfig,
) -> Option<BrushModel> {
    if config.auto_skybox {
        match planned(
            final_brushes(nodes, cache, config),
            clearance_of(config),
            texel_scale(config.map_scale),
        ) {
            Ok(sky) => Some(sky),
            Err(_) => None,
        }
    } else {
        None
    }
}

/// The warnings of the run: one for each part without a brush, and one if a
/// sky is asked for and cannot be had.
pub open spec fn final_warnings(
    nodes: Seq<SceneNodeModel>,
    cache: Map<u64, CacheState>,
    config: ConversionConfig,
) -> Seq<Warning> {
    let warnings = brushes_upto(nodes, nodes.len() as int, cache, config).1;
    if config.auto_skybox {
        match planned(
            final_brushes(nodes, cache, config),
            clearance_of(config),
            texel_scale(config.map_scale),
        ) {
            Ok(_) => warnings,
            Err(cause) => warnings.push(Warning::NoSky { cause }),
        }
    } else {
        warnings
    }
}

/// The text of the document of the run, or why there is none.
pub open spec fn final_document(
    nodes: Seq<SceneNodeModel>,
    cache: Map<u64, CacheState>,
    config: ConversionConfig,
) -> Result<Seq<char>, WriteError> {
    written(
        all_solids(final_brushes(nodes, cache, config), final_sky(nodes, cache, config)),
        config.skybox_name@,
    )
}

/// What a run gives: the document and the warnings.
pub struct Conversion {
    pub document: String,
    pub warnings: Vec<Warning>,
    /// The number of brushes in the document, the sky not counted.
    pub brushes: usize,
}

fn prepare_material(
    resolver: &mut MaterialResolver,
    fetches: &mut Vec<FetchRequest>,
    warnings: &mut Vec<Warning>,
    material: &Material,
    config: &ConversionConfig,
    node: usize,
)
    ensures
        (Preparation {
            cache: final(resolver)@,
            fetches: final(fetches)@,
            warnings: final(warnings)@,
        }) == prepared_material(
            Preparation { cache: old(resolver)@, fetches: old(fetches)@, warnings: old(warnings)@ },
            *material,
            *config,
            node,
        ),
{
    match resolver.resolve(material, config) {
        Resolution::Fetch(request) => {
            fetches.push(request);
        },
        Resolution::Ready { texture, fault } => match fault {
            Some(reason) => {
                warnings.push(Warning::Substituted { node, reason });
            },
            None => {},
        },
        Resolution::Wait => {},
    }
}

/// Goes through the materials of the scene before any brush is made: says
/// which images to fetch, each once, and warns of each material for which
/// something stands in.
pub fn prepare(scene: &SceneModel, resolver: &mut MaterialResolver, config: &ConversionConfig) -> (r:
    (Vec<FetchRequest>, Vec<Warning>))
    ensures
        (Preparation { cache: final(resolver)@, fetches: r.0@, warnings: r.1@ }) == prepared_nodes(
            Preparation { cache: old(resolver)@, fetches: Seq::empty(), warnings: Seq::empty() },
            scene@,
            scene@.len() as int,
            *config,
        ),
{
    let mut fetches: Vec<FetchRequest> = Vec::new();
    let mut warnings: Vec<Warning> = Vec::new();
    let ghost start = Preparation {
        cache: resolver@,
        fetches: Seq::empty(),
        warnings: Seq::empty(),
    };
    let mut n: usize = 0;
    while n < scene.nodes.len()
        invariant
            n <= scene.nodes.len(),
            (Preparation { cache: resolver@, fetches: fetches@, warnings: warnings@ })
                == prepared_nodes(start, scene@, n as int, *config),
        decreases scene.nodes.len() - n,
    {
        assert(scene@[n as int] == scene.nodes[n as int]@);
        match &scene.nodes[n].kind {
            NodeKind::Part(part) => {
                prepare_material(resolver, &mut fetches, &mut warnings, &part.material, config, n);
                let ghost first = Preparation {
                    cache: resolver@,
                    fetches: fetches@,
                    warnings: warnings@,
                };
                let mut k: usize = 0;
                while k < part.decals.len()
                    invariant
                        k <= part.decals.len(),
                        (Preparation { cache: resolver@, fetches: fetches@, warnings: warnings@ })
                            == prepared_decals(first, part.decals@, k as int, *config, n),
                    decreases part.decals.len() - k,
                {
                    prepare_material(
                        resolver,
                        &mut fetches,
                        &mut warnings,
                        &part.decals[k],
                        config,
                        n,
                    );
                    k += 1;
                }
            },
            _ => {},
        }
        n += 1;
    }
    (fetches, warnings)
}

/// Records how the fetches ended, one after the other, and warns of each
/// image that did not come.
pub fn settle_fetches(
    resolver: &mut MaterialResolver,
    requests: &Vec<FetchRequest>,
    fetched: &Vec<bool>,
) -> (warnings: Vec<Warning>)
    requires
        requests.len() == fetched.len(),
    ensures
        (final(resolver)@, warnings@) == settled_upto(
            old(resolver)@,
            requests@,
            fetched@,
            requests.len() as int,
        ),
{
    let mut warnings: Vec<Warning> = Vec::new();
    let ghost start = resolver@;
    let mut n: usize = 0;
    while n < requests.len()
        invariant
            n <= requests.len(),
            requests.len() == fetched.len(),
            (resolver@, warnings@) == settled_upto(start, requests@, fetched@, n as int),
        decreases requests.len() - n,
    {
        match resolver.settle(requests[n], fetched[n]) {
            Some(Resolution::Ready { texture, fault }) => {
                if fault.is_some() {
                    warnings.push(Warning::Unfetched { image: requests[n].image });
                }
            },
            _ => {},
        }
        n += 1;
    }
    warnings
}

/// Looks up the texture of a material once all fetches are settled.
pub fn texture_of(resolver: &MaterialResolver, material: &Material, config: &ConversionConfig) -> (t:
    TextureRef)
    ensures
        t == settled_texture(resolver@, *material, *config),
{
    match material.image_of() {
        None => match material.texture_input() {
            Some(b) => if config.developer_textures && material.is_catalogue_finish() {
                TextureRef::Developer(b)
            } else {
                TextureRef::Themed(b)
            },
            None => TextureRef::Placeholder,
        },
        Some(image) => match resolver.lookup(image) {
            Some(CacheState::Done(texture)) => texture,
            Some(CacheState::Pending) => TextureRef::Placeholder,
            None => if config.remote_fetch && !config.texture_output {
                TextureRef::Asset { image, size: config.decal_size }
            } else {
                TextureRef::Placeholder
            },
        },
    }
}

/// The textures of the six sides of a part.
pub fn textures_of(resolver: &MaterialResolver, part: &Part, config: &ConversionConfig) -> (set:
    TextureSet)
    ensures
        set == part_textures(resolver@, *config, part@),
{
    let mut set: TextureSet = TextureSet::new_uniform(texture_of(resolver, &part.material, config));
    let ghost base = set;
    let mut k: usize = 0;
    while k < part.decals.len()
        invariant
            k <= part.decals.len(),
            set == decorated(resolver@, *config, part.decals@, k as int, base),
        decreases part.decals.len() - k,
    {
        match part.decals[k].face_of() {
            Some(side) => {
                set.set(side, texture_of(resolver, &part.decals[k], config));
            },
            None => {},
        }
        k += 1;
    }
    set
}

/// The brushes of the parts of the scene, and a warning for each part that has none.
pub fn collect_brushes(scene: &SceneModel, resolver: &MaterialResolver, config: &ConversionConfig) -> (r:
    (Vec<Brush>, Vec<Warning>))
    ensures
        (brush_models(r.0@), r.1@) == brushes_upto(
            scene@,
            scene@.len() as int,
            resolver@,
            *config,
        ),
{
    let mut brushes: Vec<Brush> = Vec::new();
    let mut warnings: Vec<Warning> = Vec::new();
    let mut n: usize = 0;
    assert(brush_models(brushes@) =~= Seq::<BrushModel>::empty());
    while n < scene.nodes.len()
        invariant
            n <= scene.nodes.len(),
            (brush_models(brushes@), warnings@) == brushes_upto(
                scene@,
                n as int,
                resolver@,
                *config,
            ),
        decreases scene.nodes.len() - n,
    {
        assert(scene@[n as int] == scene.nodes[n as int]@);
        match &scene.nodes[n].kind {
            NodeKind::Part(part) => {
                let textures: TextureSet = textures_of(resolver, part, config);
                match synthesize(part, &textures, config.map_scale) {
                    Ok(brush) => {
                        let ghost before = brush_models(brushes@);
                        let ghost model = brush@;
                        brushes.push(brush);
                        assert(brush_models(brushes@) =~= before.push(model));
                    },
                    Err(error) => {
                        warnings.push(Warning::Skipped { node: n, error });
                    },
                }
            },
            _ => {},
        }
        n += 1;
    }
    (brushes, warnings)
}

/// The clearance of the sky in half-millionths of a document unit.
pub fn clearance(config: &ConversionConfig) -> (c: u64)
    ensures
        c == clearance_of(*config),
{
    assert(2 * config.map_scale * config.skybox_clearance <= 2 * 0xffff_ffff
        * 0xffff_ffff_ffff_ffff) by (nonlinear_arith)
        requires
            config.map_scale <= 0xffff_ffff,
            config.skybox_clearance <= 0xffff_ffff_ffff_ffff,
    ;
    let room: u128 = 2 * (config.map_scale as u128) * (config.skybox_clearance as u128);
    if room > u64::MAX as u128 {
        u64::MAX
    } else {
        room as u64
    }
}

/// Converts the scene: a brush for each part that has one, the brushes
/// joined where that is asked for, a sky round them where that is asked
/// for, and all of it written as a document. The textures are those that the
/// resolver knows once all fetches are settled.
pub fn convert(scene: &SceneModel, resolver: &MaterialResolver, config: &ConversionConfig) -> (r:
    Result<Conversion, WriteError>)
    ensures
        match final_document(scene@, resolver@, *config) {
            Ok(text) => r matches Ok(c) && c.document@ == text && c.warnings@ == final_warnings(
                scene@,
                resolver@,
                *config,
            ) && c.brushes == final_brushes(scene@, resolver@, *config).len(),
            Err(e) => r matches Err(x) && x == e,
        },
{
    let (collected, mut warnings) = collect_brushes(scene, resolver, config);
    let brushes: Vec<Brush> = if config.optimize {
        optimize(collected)
    } else {
        collected
    };
    let mut sky: Option<Brush> = None;
    if config.auto_skybox {
        match plan(&brushes, clearance(config), texel_size(config.map_scale)) {
            Ok(b) => {
                sky = Some(b);
            },
            Err(cause) => {
                warnings.push(Warning::NoSky { cause });
            },
        }
    }
    let written: Result<String, WriteError> = write_document(
        &brushes,
        sky.as_ref(),
        config.skybox_name.as_str(),
    );
    match written {
        Ok(document) => Ok(Conversion { document, warnings, brushes: brushes.len() }),
        Err(e) => Err(e),
    }
}

/// The resolver answers a material with the texture that the material has
/// once all fetches are settled, where it answers with a texture at all.
pub proof fn law_answers_stand(
    cache: Map<u64, CacheState>,
    material: Material,
    config: ConversionConfig,
)
    ensures
        resolution(cache, material, config).0 matches Resolution::Ready { texture, .. }
            ==> settled_texture(resolution(cache, material, config).1, material, config)
            == texture,
{
}

/// A decal whose image is not known, where there is no place to fetch images
/// from: nothing is asked for, the part gets one warning, and the decal
/// shows what stands in for its image, whatever else the run is set up with.
pub proof fn law_decal_without_source(
    before: Preparation,
    material: Material,
    config: ConversionConfig,
    node: usize,
)
    requires
        material.image() is Some,
        !before.cache.contains_key(material.image().unwrap()),
        !config.remote_fetch,
    ensures
        ({
            let after = prepared_material(before, material, config, node);
            &&& after.fetches == before.fetches
            &&& after.warnings == before.warnings.push(
                Warning::Substituted { node, reason: MaterialResolutionError::NoSource },
            )
            &&& settled_texture(after.cache, material, config) == TextureRef::Placeholder
        }),
{
    law_no_source_falls_back(before.cache, material, config);
}

proof fn lemma_decorated_sky_less(
    cache: Map<u64, CacheState>,
    config: ConversionConfig,
    decals: Seq<Material>,
    n: int,
    base: TextureSet,
)
    requires
        sky_free(cache),
        base.sky_less(),
    ensures
        decorated(cache, config, decals, n, base).sky_less(),
    decreases n,
{
    if 0 < n <= decals.len() {
        lemma_decorated_sky_less(cache, config, decals, n - 1, base);
        let before = decorated(cache, config, decals, n - 1, base);
        let after = decorated(cache, config, decals, n, base);
        assert forall|d: Direction| #[trigger] after.on(d) != TextureRef::Skybox by {
            assert(before.on(d) != TextureRef::Skybox);
        }
    }
}

/// No part shows the sky, as long as nothing that is known of an image is
/// the sky.
pub proof fn law_parts_show_no_sky(
    cache: Map<u64, CacheState>,
    config: ConversionConfig,
    part: PartModel,
)
    requires
        sky_free(cache),
    ensures
        part_textures(cache, config, part).sky_less(),
{
    let base = TextureSet::uniform(settled_texture(cache, part.material, config));
    assert forall|d: Direction| #[trigger] base.on(d) != TextureRef::Skybox by {}
    lemma_decorated_sky_less(cache, config, part.decals, part.decals.len() as int, base);
}

proof fn lemma_brushes_upto(
    nodes: Seq<SceneNodeModel>,
    n: int,
    cache: Map<u64, CacheState>,
    config: ConversionConfig,
)
    requires
        0 <= n <= nodes.len(),
    ensures
        brushes_upto(nodes, n, cache, config).0.len() <= n,
        all_sound(brushes_upto(nodes, n, cache, config).0),
        sky_free(cache) ==> all_sky_less(brushes_upto(nodes, n, cache, config).0),
    decreases n,
{
    if n > 0 {
        lemma_brushes_upto(nodes, n - 1, cache, config);
        let before = brushes_upto(nodes, n - 1, cache, config).0;
        let after = brushes_upto(nodes, n, cache, config).0;
        match nodes[n - 1].kind {
            NodeKindModel::Part(part) => {
                let textures = part_textures(cache, config, part);
                if synthesized(part, textures, config.map_scale) is Ok {
                    law_brush_is_sound(part, textures, config.map_scale);
                    if sky_free(cache) {
                        law_parts_show_no_sky(cache, config, part);
                    }
                    assert forall|i: int| 0 <= i < after.len() implies (#[trigger] after[i]).sound()
                        && (sky_free(cache) ==> after[i].sky_less()) by {
                        if i < before.len() {
                            assert(after[i] == before[i]);
                        }
                    }
                }
            },
            _ => {},
        }
    }
}

/// The brushes of the document before the sky can stand in a document, are
/// no more than the scene has nodes, and show the sky nowhere, as long as
/// nothing that is known of an image is the sky.
pub proof fn law_final_brushes(
    nodes: Seq<SceneNodeModel>,
    cache: Map<u64, CacheState>,
    config: ConversionConfig,
)
    ensures
        final_brushes(nodes, cache, config).len() <= nodes.len(),
        all_sound(final_brushes(nodes, cache, config)),
        sky_free(cache) ==> all_sky_less(final_brushes(nodes, cache, config)),
{
    let brushes = brushes_upto(nodes, nodes.len() as int, cache, config).0;
    lemma_brushes_upto(nodes, nodes.len() as int, cache, config);
    law_optimize_keeps_sound(brushes);
    law_optimized_is_settled(brushes);
}

/// Only the sky shows the sky, and it shows it under the name that the run
/// is set up with: on each of its six faces the material written in the
/// document is that name. No brush of a part shows it, whatever the name is.
pub proof fn law_sky_material(
    nodes: Seq<SceneNodeModel>,
    cache: Map<u64, CacheState>,
    config: ConversionConfig,
    k: int,
    acc: Seq<char>,
)
    requires
        0 <= k < 6,
        sky_free(cache),
    ensures
        all_sky_less(final_brushes(nodes, cache, config)),
        final_sky(nodes, cache, config) matches Some(sky) ==> sky.faces.len() == 6
            && sky.faces[k].texture == TextureRef::Skybox && with_texture(
            acc,
            sky.faces[k].texture,
            config.skybox_name@,
        ) == acc + config.skybox_name@,
        final_sky(nodes, cache, config) is Some ==> config.auto_skybox,
{
    law_final_brushes(nodes, cache, config);
    if config.auto_skybox {
        match bounding(final_brushes(nodes, cache, config)) {
            Some(r) => {
                law_sky_shows_its_name(
                    inflated(r, clearance_of(config) as int),
                    texel_scale(config.map_scale),
                    k,
                    acc,
                    config.skybox_name@,
                );
            },
            None => {},
        }
    }
}

/// A run on a scene of no more than a million million million nodes ends
/// with a document: whatever goes wrong with a part, a material or the sky
/// is a warning.
pub proof fn law_run_completes(
    nodes: Seq<SceneNodeModel>,
    cache: Map<u64, CacheState>,
    config: ConversionConfig,
)
    requires
        nodes.len() <= 1_000_000_000_000_000_000,
    ensures
        final_document(nodes, cache, config) is Ok,
{
    let brushes = final_brushes(nodes, cache, config);
    let sky = final_sky(nodes, cache, config);
    let all = all_solids(brushes, sky);
    law_final_brushes(nodes, cache, config);
    match sky {
        Some(b) => {
            match bounding(brushes) {
                Some(r) => {
                    law_sky_shows_its_name(
                        inflated(r, clearance_of(config) as int),
                        texel_scale(config.map_scale),
                        0,
                        Seq::empty(),
                        Seq::empty(),
                    );
                },
                None => {},
            }
            assert(b.sound());
        },
        None => {},
    }
    assert forall|i: int| 0 <= i < all.len() implies (#[trigger] all[i]).sound() by {
        if i < brushes.len() {
            assert(all[i] == brushes[i]);
        }
    }
    assert(writable(all)) by {
        assert forall|i: int, j: int| 0 <= i < all.len() && 0 <= j < all[i].faces.len() implies (
        #[trigger] all[i].faces[j]).vertices.len() >= 3 by {
            assert(all[i].sound());
        }
    }
    assert forall|i: int| 0 <= i < all.len() implies (#[trigger] all[i]).faces.len() <= 10 by {
        assert(all[i].sound());
    }
    lemma_blocks_bound(all, all.len() as int);
}

} // verus!
