//! The per-block render pass: alignment, atlas cache keys, glyph quad
//! placement, and the closing bounding/anchor pass.
//!
//! A host drives the pass per glyph: it plans draw requests with
//! [`crate::style::Text3dStyling::fill_draw_requests`], looks each glyph up
//! in the atlas, rasterizes misses externally and caches them with
//! [`crate::atlas::TextAtlas::cache`], and places quads here; once every
//! run is placed, [`finish_block`] anchors the block and normalizes the
//! texture coordinates.

use vstd::prelude::*;

use crate::atlas::{GlyphEntry, GlyphTextureOf, URect};
use crate::fx::{fx_mul, tdiv, FX_BOUND, FX_ONE};
use crate::mesh::{Fx2, FxRect, MeshAssembler, MESH_BOUND};
use crate::shape::ShapedGlyph;
use crate::style::{SegmentStyle, Text3dStyling, TextAlign};

verus! {

/// The leftward shift that aligns one line within its block: the line
/// width times the alignment fraction, negated.
pub fn align_offset(align: TextAlign, line_w: i64) -> (dx: i64)
    requires
        0 <= line_w <= FX_BOUND,
    ensures
        dx == -tdiv(line_w * (match align {
            TextAlign::Left => 0,
            TextAlign::Center => FX_ONE as int / 2,
            TextAlign::Right => FX_ONE as int,
        }), FX_ONE as int),
{
    let fac = align.as_fac();
    let scaled = fx_mul(line_w, fac);
    proof {
        crate::fx::lemma_tdiv_nonneg(line_w * (fac as int), FX_ONE as int);
        assert(0 <= line_w * fac <= FX_BOUND * FX_ONE) by (nonlinear_arith)
            requires
                0 <= line_w <= FX_BOUND,
                0 <= fac <= FX_ONE,
        ;
    }
    -scaled
}

/// The atlas cache key of one shaped glyph under a resolved style: the
/// face, the glyph, the join and weight, the size, and the stroke width
/// (zero for a fill).
pub fn glyph_entry_for(
    glyph: &ShapedGlyph,
    styling: &Text3dStyling,
    attrs: &SegmentStyle,
    stroke: u32,
) -> (e: GlyphEntry)
    ensures
        e.font == glyph.font_id,
        e.glyph_id == GlyphTextureOf::Id(glyph.glyph_id),
        e.join == styling.stroke_join,
        e.size == glyph.font_size,
        e.weight == match attrs@.weight {
            Some(w) => w,
            None => styling@.weight,
        },
        e.stroke == stroke,
{
    GlyphEntry {
        font: glyph.font_id,
        glyph_id: GlyphTextureOf::Id(glyph.glyph_id),
        join: styling.stroke_join,
        size: glyph.font_size,
        weight: match attrs.weight {
            Some(w) => w,
            None => styling.weight,
        },
        stroke,
    }
}

/// Where a glyph quad starts: the shaped position, plus the rasterizer's
/// draw-origin offset, plus the request's own offset, aligned within the
/// line and dropped to the line's baseline.
pub fn glyph_quad_base(
    glyph: &ShapedGlyph,
    rect_base: (i64, i64),
    request_offset: (i64, i64),
    dx: i64,
    line_y: i64,
) -> (b: Fx2)
    requires
        -MESH_BOUND <= glyph.x <= MESH_BOUND,
        -MESH_BOUND <= glyph.y <= MESH_BOUND,
        -0x100_0000 <= rect_base.0 <= 0x100_0000,
        -0x100_0000 <= rect_base.1 <= 0x100_0000,
        -0x100_0000 <= request_offset.0 <= 0x100_0000,
        -0x100_0000 <= request_offset.1 <= 0x100_0000,
        -MESH_BOUND <= dx <= MESH_BOUND,
        -MESH_BOUND <= line_y <= MESH_BOUND,
    ensures
        b.x == glyph.x + rect_base.0 + request_offset.0 + dx,
        b.y == glyph.y + rect_base.1 + request_offset.1 - line_y,
{
    Fx2 {
        x: glyph.x + rect_base.0 + request_offset.0 + dx,
        y: glyph.y + rect_base.1 + request_offset.1 - line_y,
    }
}

/// An atlas pixel rectangle as a fixed-point rectangle, for texture
/// coordinates.
pub fn pixel_rect_fx(rect: URect) -> (r: FxRect)
    requires
        rect.x + rect.w <= 0x10000,
        rect.y + rect.h <= 0x10000,
    ensures
        r.min.x == rect.x * FX_ONE,
        r.min.y == rect.y * FX_ONE,
        r.max.x == (rect.x + rect.w) * FX_ONE,
        r.max.y == (rect.y + rect.h) * FX_ONE,
{
    FxRect {
        min: Fx2 { x: (rect.x as i64) * FX_ONE, y: (rect.y as i64) * FX_ONE },
        max: Fx2 {
            x: ((rect.x + rect.w) as i64) * FX_ONE,
            y: ((rect.y + rect.h) as i64) * FX_ONE,
        },
    }
}

/// The dimension and center of a finished block, from the extremes the
/// pass gathered; a block with no horizontal extent gets a sliver of
/// width so the bounding box stays non-degenerate.
pub fn block_bounds(min_x: i64, max_x: i64, height: i64) -> (r: (Fx2, Fx2, Fx2))
    requires
        -MESH_BOUND <= min_x <= MESH_BOUND,
        -MESH_BOUND <= max_x <= MESH_BOUND,
        0 <= height <= MESH_BOUND,
    ensures
        ({
            let lo = if max_x < min_x {
                0int
            } else {
                min_x as int
            };
            let hi = if max_x < min_x {
                FX_ONE as int / 1000
            } else {
                max_x as int
            };
            &&& r.0 == (Fx2 { x: (hi - lo) as i64, y: height })
            &&& r.1 == (Fx2 { x: tdiv(hi + lo, 2) as i64, y: (-tdiv(height as int, 2)) as i64 })
            &&& r.2 == (Fx2 { x: lo as i64, y: (-height) as i64 })
        }),
{
    let (lo, hi): (i64, i64) = if max_x < min_x {
        (0, FX_ONE / 1000)
    } else {
        (min_x, max_x)
    };
    let dimension = Fx2 { x: hi - lo, y: height };
    let center = Fx2 { x: crate::fx::tdiv_exec(hi + lo, 2), y: -crate::fx::tdiv_exec(height, 2) };
    let bb_min = Fx2 { x: lo, y: -height };
    (dimension, center, bb_min)
}

/// The translation that puts the configured anchor point at local origin:
/// the anchor fraction times the dimension, minus the block center.
pub fn anchor_translation(anchor_x: i64, anchor_y: i64, dimension: Fx2, center: Fx2) -> (r: Fx2)
    requires
        -FX_ONE <= anchor_x <= FX_ONE,
        -FX_ONE <= anchor_y <= FX_ONE,
        0 <= dimension.x <= FX_BOUND,
        0 <= dimension.y <= FX_BOUND,
        -MESH_BOUND <= center.x <= MESH_BOUND,
        -MESH_BOUND <= center.y <= MESH_BOUND,
    ensures
        r.x == tdiv(anchor_x * dimension.x, FX_ONE as int) - center.x,
        r.y == tdiv(anchor_y * dimension.y, FX_ONE as int) - center.y,
{
    proof {
        assert(-(FX_BOUND * (FX_ONE as int)) <= anchor_x * dimension.x <= FX_BOUND * (
        FX_ONE as int)) by (nonlinear_arith)
            requires
                -FX_ONE <= anchor_x <= FX_ONE,
                0 <= dimension.x <= FX_BOUND,
        ;
        assert(-(FX_BOUND * (FX_ONE as int)) <= anchor_y * dimension.y <= FX_BOUND * (
        FX_ONE as int)) by (nonlinear_arith)
            requires
                -FX_ONE <= anchor_y <= FX_ONE,
                0 <= dimension.y <= FX_BOUND,
        ;
        crate::fx::lemma_tdiv_quotient_bound(
            anchor_x * dimension.x,
            FX_ONE as int,
            FX_BOUND as int,
        );
        crate::fx::lemma_tdiv_quotient_bound(
            anchor_y * dimension.y,
            FX_ONE as int,
            FX_BOUND as int,
        );
    }
    let ax = fx_mul(anchor_x, dimension.x);
    let ay = fx_mul(anchor_y, dimension.y);
    Fx2 { x: ax - center.x, y: ay - center.y }
}

/// Close a finished pass: fill the block-relative metadata channels,
/// translate the block so its anchor lands at local origin (rescaling
/// instead when an explicit world scale overrides the size of one em),
/// sort and depth-layer the quads, and normalize the texture coordinates
/// by the final atlas dimensions.  Returns the block's dimension.
pub fn finish_block(
    mesh: &mut MeshAssembler,
    styling: &Text3dStyling,
    min_x: i64,
    max_x: i64,
    height: i64,
    image_width: usize,
    image_height: usize,
) -> (dimension: Fx2)
    requires
        old(mesh).wf(),
        old(mesh).indices@.len() == 0,
        -MESH_BOUND <= min_x <= MESH_BOUND,
        -MESH_BOUND <= max_x <= MESH_BOUND,
        0 <= height <= MESH_BOUND,
        -FX_ONE <= styling.anchor.x <= FX_ONE,
        -FX_ONE <= styling.anchor.y <= FX_ONE,
        0 < styling.size,
        0 <= styling.layer_offset <= FX_BOUND,
        1 <= image_width <= 0x10000,
        1 <= image_height <= 0x10000,
        match styling.world_scale {
            Some(ws) => -FX_BOUND <= ws.0 <= FX_BOUND && -FX_BOUND <= ws.1 <= FX_BOUND,
            None => true,
        },
        styling.uv1.0 is RowX || styling.uv1.1 is RowX ==> min_x != max_x,
        styling.uv1.0 is ColY || styling.uv1.1 is ColY ==> 0 < height,
        forall|i: int|
            0 <= i < old(mesh).positions@.len() ==> -MESH_BOUND <= (
            #[trigger] old(mesh).positions@[i]).x <= MESH_BOUND && -MESH_BOUND <= old(mesh).positions@[i].y <= MESH_BOUND,
        forall|i: int|
            0 <= i < old(mesh).uv0@.len() ==> 0 <= (#[trigger] old(mesh).uv0@[i]).x <= FX_BOUND
                && 0 <= old(mesh).uv0@[i].y <= FX_BOUND,
    ensures
        old(mesh).sort@.len() == 0 ==> final(mesh).positions@.len() == 3 && final(mesh).indices@ == seq![0u16, 1u16, 2u16],
        old(mesh).sort@.len() > 0 ==> final(mesh).positions@.len() == 4 * old(mesh).sort@.len()
            && final(mesh).indices@.len() == 6 * old(mesh).sort@.len(),
        dimension.y == height,
{
    let (dimension, center, bb_min) = block_bounds(min_x, max_x, height);
    mesh.post_process_uv1(styling, bb_min, dimension);
    match styling.world_scale {
        Some(ws) => {
            mesh.rescale(ws, styling.size);
        },
        None => {
            proof {
                assert(-(FX_BOUND * (FX_ONE as int)) <= styling.anchor.x * dimension.x
                    <= FX_BOUND * (FX_ONE as int)) by (nonlinear_arith)
                    requires
                        -FX_ONE <= styling.anchor.x <= FX_ONE,
                        0 <= dimension.x <= FX_BOUND,
                ;
                assert(-(FX_BOUND * (FX_ONE as int)) <= styling.anchor.y * dimension.y
                    <= FX_BOUND * (FX_ONE as int)) by (nonlinear_arith)
                    requires
                        -FX_ONE <= styling.anchor.y <= FX_ONE,
                        0 <= dimension.y <= FX_BOUND,
                ;
                crate::fx::lemma_tdiv_quotient_bound(
                    styling.anchor.x * dimension.x,
                    FX_ONE as int,
                    FX_BOUND as int,
                );
                crate::fx::lemma_tdiv_quotient_bound(
                    styling.anchor.y * dimension.y,
                    FX_ONE as int,
                    FX_BOUND as int,
                );
            }
            let offset = anchor_translation(
                styling.anchor.x,
                styling.anchor.y,
                dimension,
                center,
            );
            mesh.translate(offset);
        },
    }
    mesh.finish(styling.layer_offset);
    proof {
        assert(forall|i: int|
            0 <= i < mesh.uv0@.len() ==> 0 <= (#[trigger] mesh.uv0@[i]).x && 0 <= mesh.uv0@[i].y);
    }
    mesh.pixel_to_uv(image_width, image_height);
    dimension
}

} // verus!
