//! Conversion of a block-built 3-D scene into brush geometry for a map editor.
//!
//! The scene is read from its document ([`parser`]), the materials of its
//! parts are resolved to textures ([`resolver`]), each part becomes a brush
//! ([`shape`]), brushes that look alike and lie face to face are joined
//! ([`optimize`]), a sky is put round them ([`skybox`]), and all of it is
//! written as a map document ([`writer`]). [`convert`] runs these one after the
//! other. Nothing here reads or writes a file or fetches an image: the
//! resolver says what to fetch, and is told how it went.
//!
//! All lengths are integers. Scene lengths count thousandths of a scene
//! unit; brush coordinates count half-millionths of a document unit, so that
//! the corners of a solid centred on a lattice point stay on the lattice. A
//! part whose axes lie along the axes of the scene is placed exactly; the
//! corners of any other part are rounded to the lattice.

pub mod geometry;
pub mod number;
pub mod text;
pub mod markup;
pub mod texture;
pub mod brush;
pub mod prism;
pub mod optimize;
pub mod material;
pub mod config;
pub mod resolver;
pub mod scene;
pub mod parser;
pub mod solid;
pub mod shape;
pub mod skew;
pub mod skybox;
pub mod writer;
pub mod convert;
