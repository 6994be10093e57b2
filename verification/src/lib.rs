//! Chunk assembly for a module bundler: ordered concatenation of rendered
//! fragments into one text, composition of their source maps into one
//! aggregate map, and rewriting of the map's source paths relative to the
//! directory the chunk is written to.

pub mod assembler;
pub mod concat_source;
pub mod fold;
pub mod order;
pub mod paths;
pub mod render;
pub mod rendered;
pub mod sourcemap;
pub mod text;
