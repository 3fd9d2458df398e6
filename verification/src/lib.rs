//! Packs independently rendered glyph bitmaps into one atlas texture.
//!
//! Given the characters to place and a font, the library ranks the glyphs by
//! packing priority, lays them out on shelves inside a width-bounded atlas,
//! splits the workload into disjoint slices for workers, composites every
//! rendered bitmap into one shared pixel buffer, and maps each placement to
//! normalized texture coordinates.
//!
//! The geometric heart of the build is proved: no two placements overlap,
//! every placement lies inside the computed atlas dimensions, the workload
//! slices cover the glyph list exactly once, and compositing leaves every
//! glyph's region holding exactly its own bitmap. Font introspection comes
//! from `ttf_parser` through a small trusted boundary; distance-field
//! rendering, image encoding and the C ABI are external collaborators and
//! stay outside the library.

pub mod args;
pub mod builder;
pub mod byte_buffer;
pub mod enums;
pub mod font;
pub mod font_data;
pub mod glyph_data;
pub mod glyph_package;
pub mod layout;
pub mod partition;
pub mod rank;
pub mod raw_img;
pub mod tracker;
pub mod utils;
