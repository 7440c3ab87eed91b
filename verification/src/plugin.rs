//! Host-facing configuration and markers: atlas dimensions, device pixel
//! scale, font loading choices, scheduling markers, and the progress
//! callback for batch pre-rendering jobs.

use vstd::prelude::*;

use crate::fx::FX_ONE;
use crate::style::{Style, Weight};

verus! {

/// Configuration of the text engine, supplied by the host once.
#[derive(Debug)]
pub struct Text3dPlugin {
    /// Size of the default font atlas; the atlas only grows by doubling
    /// vertically.
    pub default_atlas_dimension: (usize, usize),
    /// The window's scale factor in 16.16 fixed point: at two, a glyph
    /// covers twice its nominal pixels on each axis.
    pub scale_factor: i64,
    /// Whether to follow the primary window's scale factor; a change
    /// clears every atlas so all text redraws at the new resolution.
    pub sync_scale_factor_with_main_window: bool,
    /// System locale, like `en-US`, handed to the shaping engine.
    pub locale: Option<String>,
    /// Whether to load system fonts.
    pub load_system_fonts: bool,
    /// Whether to load fonts on a worker instead of blocking startup.
    pub asynchronous_load: bool,
}

impl Default for Text3dPlugin {
    /// A 512 by 512 atlas at scale one, following the window's scale,
    /// loading no system fonts, synchronously.
    fn default() -> (r: Text3dPlugin)
        ensures
            r.default_atlas_dimension == (512usize, 512usize),
            r.scale_factor == FX_ONE,
            r.sync_scale_factor_with_main_window == true,
            r.locale is None,
            r.load_system_fonts == false,
            r.asynchronous_load == false,
    {
        Text3dPlugin {
            default_atlas_dimension: (512, 512),
            scale_factor: FX_ONE,
            sync_scale_factor_with_main_window: true,
            locale: None,
            load_system_fonts: false,
            asynchronous_load: false,
        }
    }
}

/// Paths and bytes of fonts to load before rendering starts.
#[derive(Debug)]
pub struct LoadFonts {
    /// Paths of font files to load.
    pub font_paths: Vec<String>,
    /// Paths of font directories to load.
    pub font_directories: Vec<String>,
    /// Fonts embedded in the executable.
    pub font_embedded: Vec<Vec<u8>>,
}

impl Default for LoadFonts {
    fn default() -> (r: LoadFonts)
        ensures
            r.font_paths@.len() == 0,
            r.font_directories@.len() == 0,
            r.font_embedded@.len() == 0,
    {
        LoadFonts { font_paths: Vec::new(), font_directories: Vec::new(), font_embedded: Vec::new() }
    }
}

/// Marker for the schedule slot in which text renders, before transform
/// propagation.
#[derive(Clone, Copy, PartialEq, Eq, Structural, Debug, Hash)]
pub struct Text3dSet;

/// Marker for the schedule slot that touches materials after text changes.
#[derive(Clone, Copy, PartialEq, Eq, Structural, Debug, Hash)]
pub struct TouchMaterialSet;

/// The wrap bound: the maximum width of rendered text, in 16.16 fixed
/// point; unbounded by default.
#[derive(Debug)]
pub struct Text3dBounds {
    pub width: i64,
}

impl Default for Text3dBounds {
    fn default() -> (r: Text3dBounds)
        ensures
            r.width == i64::MAX,
    {
        Text3dBounds { width: i64::MAX }
    }
}

/// The measured output of a render pass: the block's dimension and the
/// atlas dimension its texture coordinates were normalized by.
#[derive(Clone, Copy, PartialEq, Eq, Debug)]
pub struct Text3dDimensionOut {
    /// Width and height of the block, in 16.16 fixed point.
    pub dimension: (i64, i64),
    /// The atlas dimensions at normalization time, in pixels.
    pub atlas_dimension: (u32, u32),
}

impl Default for Text3dDimensionOut {
    fn default() -> (r: Text3dDimensionOut)
        ensures
            r.dimension == (0i64, 0i64),
            r.atlas_dimension == (0u32, 0u32),
    {
        Text3dDimensionOut { dimension: (0, 0), atlas_dimension: (0, 0) }
    }
}

/// Style that only concerns drawing but not layout, for batch
/// pre-rendering jobs.
#[derive(Debug)]
pub struct DrawStyle {
    /// Font family name; empty means the shaper's serif default.
    pub family: String,
    /// Font size, in 16.16 fixed point.
    pub size: i64,
    /// Stroke width as a percentage of the font size; zero means a fill.
    pub stroke: u32,
    /// Font weight.
    pub weight: Weight,
    /// Font slant.
    pub style: Style,
}

/// Progress notifications for long batch pre-rendering jobs, such as
/// warming an atlas behind a loading screen.  Every notification defaults
/// to a no-op.
pub trait TextProgressReportCallback {
    /// Called every time a glyph is drawn.
    fn glyph_drawn(&mut self);

    /// Called every time a style entry is drawn.
    fn style_drawn(&mut self);

    /// Called every time an atlas is drawn.
    fn atlas_drawn(&mut self);
}

impl TextProgressReportCallback for () {
    fn glyph_drawn(&mut self) {
    }

    fn style_drawn(&mut self) {
    }

    fn atlas_drawn(&mut self) {
    }
}

} // verus!
