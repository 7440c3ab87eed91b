//! A text-layout-to-geometry engine: rich-text markup parsing, style
//! cascading, glyph-atlas shelf packing and triangle-mesh assembly.
//!
//! The crate turns a styled text document into a packed alpha atlas plus
//! GPU-ready quad buffers.  Shaping and outline rasterization are external
//! collaborators: a host feeds shaped glyph positions and rasterized alpha
//! coverage in as plain values and reads plain vertex data back out.
//!
//! All geometry in this crate is carried in 16.16 fixed-point units (see
//! [`fx::FX_ONE`]); a host converts to floating point at its own boundary.

pub mod atlas;
pub mod chars;
pub mod color;
pub mod fetch;
pub mod fx;
pub mod layers;
pub mod line;
pub mod mesh;
pub mod num;
pub mod parse;
pub mod plugin;
pub mod render;
pub mod shape;
pub mod style;
pub mod text;

pub use atlas::{AtlasImage, GlyphEntry, GlyphTextureOf, TextAtlas, URect};
pub use color::Color;
pub use fetch::{FetchedTextSegment, SharedTextSegment};
pub use layers::{DrawRequest, DrawType, Layer};
pub use line::{LineMetrics, LineMode, LineRun};
pub use mesh::{Fx2, Fx3, FxRect, MeshAssembler};
pub use parse::{ParseError, RejectResolver, TextResolver};
pub use plugin::{
    DrawStyle, LoadFonts, Text3dBounds, Text3dDimensionOut, Text3dPlugin, Text3dSet,
    TextProgressReportCallback, TouchMaterialSet,
};
pub use shape::{ShapedGlyph, ShapedRun};
pub use style::{
    GlyphMeta, SegmentStyle, StrokeJoin, Style, Text3dStyling, TextAlign, TextAnchor, Weight,
};
pub use text::{Text3d, Text3dSegment};
