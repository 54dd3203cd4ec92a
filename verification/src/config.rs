//! What a run is set up with.

use vstd::prelude::*;
use vstd::string::*;
use crate::material::bytes_equal;
use crate::text::{decimal_of, parse_decimal, parse_unsigned, unsigned_of, Span};

verus! {

/// The settings of one run, fixed before it starts.
#[derive(Clone, Debug)]
pub struct ConversionConfig {
    /// The number of document units that one scene unit takes, in thousandths.
    pub map_scale: u32,
    /// The edge length, in pixels, at which fetched images are stored.
    pub decal_size: u64,
    /// Whether texture files are written at all.
    pub texture_output: bool,
    /// Whether measuring grids stand in for the themed finishes.
    pub developer_textures: bool,
    /// Whether brushes that look alike and lie face to face are joined.
    pub optimize: bool,
    /// Whether a sky is put round the scene.
    pub auto_skybox: bool,
    /// The room to leave between the scene and the sky, in thousandths of a scene unit.
    pub skybox_clearance: u64,
    /// The name of the sky.
    pub skybox_name: String,
    /// Whether images can be fetched: whether there is a place to fetch them from.
    pub remote_fetch: bool,
}

/// The name of the sky that goes with a game; a name that asks to be
/// replaced for a game that is not known.
pub open spec fn skybox_of(game: Seq<u8>) -> Seq<char> {
    if game == "css".spec_bytes() {
        "sky_day01_05"@
    } else if game == "csgo".spec_bytes() {
        "sky_day02_05"@
    } else if game == "gmod".spec_bytes() {
        "painted"@
    } else if game == "hl2".spec_bytes() {
        "sky_day01_04"@
    } else if game == "hl2e1".spec_bytes() {
        "sky_ep01_01"@
    } else if game == "hl2e2".spec_bytes() {
        "sky_ep02_01_hdr"@
    } else if game == "hl".spec_bytes() {
        "city"@
    } else if game == "hls".spec_bytes() {
        "sky_wasteland02"@
    } else if game == "l4d".spec_bytes() {
        "river_hdr"@
    } else if game == "l4d2".spec_bytes() {
        "sky_l4d_c1_2_hdr"@
    } else if game == "portal2".spec_bytes() {
        "sky_day01_01"@
    } else if game == "portal".spec_bytes() {
        "sky_day01_05_hdr"@
    } else if game == "tf2".spec_bytes() {
        "sky_day01_01"@
    } else {
        "default_skybox_fixme"@
    }
}

/// The name of the sky that goes with a game.
pub fn skybox_for_game(game: &str) -> (name: &'static str)
    ensures
        name@ == skybox_of(game.spec_bytes()),
{
    let g: &[u8] = game.as_bytes();
    if bytes_equal(g, "css".as_bytes()) {
        "sky_day01_05"
    } else if bytes_equal(g, "csgo".as_bytes()) {
        "sky_day02_05"
    } else if bytes_equal(g, "gmod".as_bytes()) {
        "painted"
    } else if bytes_equal(g, "hl2".as_bytes()) {
        "sky_day01_04"
    } else if bytes_equal(g, "hl2e1".as_bytes()) {
        "sky_ep01_01"
    } else if bytes_equal(g, "hl2e2".as_bytes()) {
        "sky_ep02_01_hdr"
    } else if bytes_equal(g, "hl".as_bytes()) {
        "city"
    } else if bytes_equal(g, "hls".as_bytes()) {
        "sky_wasteland02"
    } else if bytes_equal(g, "l4d".as_bytes()) {
        "river_hdr"
    } else if bytes_equal(g, "l4d2".as_bytes()) {
        "sky_l4d_c1_2_hdr"
    } else if bytes_equal(g, "portal2".as_bytes()) {
        "sky_day01_01"
    } else if bytes_equal(g, "portal".as_bytes()) {
        "sky_day01_05_hdr"
    } else if bytes_equal(g, "tf2".as_bytes()) {
        "sky_day01_01"
    } else {
        "default_skybox_fixme"
    }
}

/// What is wrong with the settings.
#[derive(Clone, Copy, PartialEq, Eq, Debug, Structural)]
pub enum ConfigError {
    /// The map scale is no number, or negative, or beyond what four bytes hold in thousandths.
    InvalidMapScale,
    /// The decal size is no whole number.
    InvalidDecalSize,
}

/// The settings as they are given: texts where numbers are meant.
pub struct Options<'a> {
    pub map_scale: &'a str,
    pub decal_size: &'a str,
    /// The room to leave round the scene for the sky, if any is asked for.
    pub skybox_height: Option<&'a str>,
    pub game: &'a str,
    pub texture_output: bool,
    pub developer_textures: bool,
    pub optimize: bool,
    pub auto_skybox: bool,
    /// The place to fetch images from; empty where there is none.
    pub web_origin: &'a str,
}

/// The whole of a text.
pub open spec fn whole(text: Seq<u8>) -> Span {
    Span { start: 0, end: text.len() as usize }
}

/// The map scale that a text gives, in thousandths.
pub open spec fn map_scale_of(text: Seq<u8>) -> Option<u32> {
    match decimal_of(text, whole(text)) {
        Some(v) => if 0 <= v <= u32::MAX {
            Some(v as u32)
        } else {
            None
        },
        None => None,
    }
}

/// The clearance that a text gives, in thousandths of a scene unit: none
/// where there is no text, or no number in it, or a negative one.
pub open spec fn clearance_of_text(text: Option<Seq<u8>>) -> u64 {
    match text {
        Some(t) => match decimal_of(t, whole(t)) {
            Some(v) => if v > 0 {
                v as u64
            } else {
                0
            },
            None => 0,
        },
        None => 0,
    }
}

/// Reads a map scale.
pub fn parse_map_scale(text: &str) -> (r: Option<u32>)
    ensures
        r == map_scale_of(text.spec_bytes()),
{
    let bytes: &[u8] = text.as_bytes();
    match parse_decimal(bytes, Span { start: 0, end: bytes.len() }) {
        Some(v) => if 0 <= v && v <= u32::MAX as i64 {
            Some(v as u32)
        } else {
            None
        },
        None => None,
    }
}

/// Reads a decal size.
pub fn parse_decal_size(text: &str) -> (r: Option<u64>)
    ensures
        r == unsigned_of(text.spec_bytes(), whole(text.spec_bytes())),
{
    let bytes: &[u8] = text.as_bytes();
    parse_unsigned(bytes, Span { start: 0, end: bytes.len() })
}

/// Reads the clearance of the sky.
pub fn parse_clearance(text: Option<&str>) -> (r: u64)
    ensures
        r == clearance_of_text(
            match text {
                Some(t) => Some(t.spec_bytes()),
                None => None,
            },
        ),
{
    match text {
        Some(t) => {
            let bytes: &[u8] = t.as_bytes();
            match parse_decimal(bytes, Span { start: 0, end: bytes.len() }) {
                Some(v) => if v > 0 {
                    v as u64
                } else {
                    0
                },
                None => 0,
            }
        },
        None => 0,
    }
}

impl ConversionConfig {
    /// The settings that the options give: the map scale is looked at
    /// first, then the decal size.
    pub fn from_options(options: &Options) -> (r: Result<ConversionConfig, ConfigError>)
        ensures
            match (
                map_scale_of(options.map_scale.spec_bytes()),
                unsigned_of(options.decal_size.spec_bytes(), whole(options.decal_size.spec_bytes())),
            ) {
                (None, _) => r matches Err(e) && e == ConfigError::InvalidMapScale,
                (Some(_), None) => r matches Err(e) && e == ConfigError::InvalidDecalSize,
                (Some(map_scale), Some(decal_size)) => r matches Ok(config) && config.map_scale
                    == map_scale && config.decal_size == decal_size && config.texture_output
                    == options.texture_output && config.developer_textures
                    == options.developer_textures && config.optimize == options.optimize
                    && config.auto_skybox == options.auto_skybox && config.skybox_clearance
                    == clearance_of_text(
                    match options.skybox_height {
                        Some(t) => Some(t.spec_bytes()),
                        None => None,
                    },
                ) && config.skybox_name@ == skybox_of(options.game.spec_bytes())
                    && config.remote_fetch == (options.web_origin.spec_bytes().len() > 0),
            },
    {
        let map_scale: u32 = match parse_map_scale(options.map_scale) {
            Some(v) => v,
            None => {
                return Err(ConfigError::InvalidMapScale);
            },
        };
        let decal_size: u64 = match parse_decal_size(options.decal_size) {
            Some(v) => v,
            None => {
                return Err(ConfigError::InvalidDecalSize);
            },
        };
        Ok(
            ConversionConfig {
                map_scale,
                decal_size,
                texture_output: options.texture_output,
                developer_textures: options.developer_textures,
                optimize: options.optimize,
                auto_skybox: options.auto_skybox,
                skybox_clearance: parse_clearance(options.skybox_height),
                skybox_name: String::from_str(skybox_for_game(options.game)),
                remote_fetch: options.web_origin.as_bytes().len() > 0,
            },
        )
    }
}

} // verus!
