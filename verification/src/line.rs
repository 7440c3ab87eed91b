//! Underline and strikethrough decorations: which glyphs share a run, how
//! far a decoration extends, and the rectangle it covers.
//!
//! Decorations are emitted as solid mesh rectangles (not as atlas-cached
//! stretched textures): each decorated glyph contributes one rectangle
//! whose span bisects the gap to any equally decorated neighbor, so
//! abutting runs appear continuous.

use vstd::prelude::*;

use crate::fx::{tdiv, tdiv_exec, FX_BOUND};
use crate::layers::DrawType;
use crate::mesh::{Fx2, FxRect, MESH_BOUND};
use crate::shape::ShapedGlyph;
use crate::style::{SegmentStyle, SegmentStyleV};
use crate::text::{segments_view, Text3dSegment, Text3dSegmentV};

verus! {

/// Which decoration line is being drawn.
#[derive(Clone, Copy, PartialEq, Eq, Structural, Debug)]
pub enum LineMode {
    Underline,
    Strikethrough,
}

/// A run of equally decorated glyphs, by source byte range and horizontal
/// extent.
#[derive(Clone, Copy, PartialEq, Eq, Structural, Debug)]
pub struct LineRun {
    pub min_index: usize,
    pub max_index: usize,
    /// Left edge in 16.16 fixed point.
    pub min_offset: i64,
    /// Right edge in 16.16 fixed point.
    pub max_offset: i64,
    /// Decoration thickness in 16.16 fixed point.
    pub size: i64,
}

impl Default for LineRun {
    /// An impossible byte range, so that `contains` never holds.
    fn default() -> (r: LineRun)
        ensures
            r.min_index == usize::MAX,
            r.max_index == usize::MAX,
            r.min_offset == 0,
            r.max_offset == 0,
            r.size == 0,
    {
        LineRun {
            min_index: usize::MAX,
            max_index: usize::MAX,
            min_offset: 0,
            max_offset: 0,
            size: 0,
        }
    }
}

impl LineRun {
    /// Whether a glyph's source range overlaps this run.
    pub fn contains(&self, glyph: &ShapedGlyph) -> (b: bool)
        ensures
            b == !(self.min_index > glyph.end || self.max_index < glyph.start),
    {
        !(self.min_index > glyph.end || self.max_index < glyph.start)
    }
}

/// The metrics of a decoration line, read from a font face and handed in
/// as plain values.
#[derive(Clone, Copy, PartialEq, Eq, Structural, Debug)]
pub struct LineMetrics {
    /// Vertical position of the line in font units, relative to baseline.
    pub position: i32,
    /// Thickness of the line in font units.
    pub thickness: i32,
    /// Font units per em.
    pub units_per_em: u16,
}

/// Whether a style asks for this decoration.
pub open spec fn spec_validate(mode: LineMode, style: SegmentStyleV) -> bool {
    match mode {
        LineMode::Underline => style.underline == Some(true),
        LineMode::Strikethrough => style.strikethrough == Some(true),
    }
}

/// Whether the glyph at `j` carries the same decoration in the same font
/// and size as `current`, so their decorations should merge.
pub open spec fn spec_neighbor_merges(
    glyphs: Seq<ShapedGlyph>,
    segments: Seq<(Text3dSegmentV, SegmentStyleV)>,
    current: ShapedGlyph,
    j: int,
    mode: LineMode,
) -> bool {
    &&& 0 <= j < glyphs.len()
    &&& glyphs[j].font_id == current.font_id
    &&& glyphs[j].font_size == current.font_size
    &&& 0 <= glyphs[j].metadata < segments.len()
    &&& spec_validate(mode, segments[glyphs[j].metadata as int].1)
}

/// Executable test for [`spec_neighbor_merges`].
fn neighbor_merges(
    glyphs: &Vec<ShapedGlyph>,
    segments: &Vec<(Text3dSegment, SegmentStyle)>,
    current: &ShapedGlyph,
    j: usize,
    mode: LineMode,
) -> (b: bool)
    requires
        j < glyphs@.len(),
    ensures
        b == spec_neighbor_merges(glyphs@, segments_view(segments@), *current, j as int, mode),
{
    let g = glyphs[j];
    if g.font_id != current.font_id || g.font_size != current.font_size {
        return false;
    }
    if g.metadata >= segments.len() {
        return false;
    }
    let (_, style) = &segments[g.metadata];
    proof {
        assert(segments_view(segments@)[g.metadata as int].1 == segments@[g.metadata as int].1@);
    }
    mode.validate(style)
}

impl LineMode {
    /// Pick one of two values by decoration kind.
    pub fn select<T>(&self, underline: T, strikethrough: T) -> (r: T)
        ensures
            self is Underline ==> r == underline,
            self is Strikethrough ==> r == strikethrough,
    {
        match self {
            LineMode::Underline => underline,
            LineMode::Strikethrough => strikethrough,
        }
    }

    /// The decoration a line draw request asks for.
    pub fn from_draw_req(req: DrawType) -> (r: LineMode)
        requires
            req is Line,
        ensures
            r == req->Line_1,
    {
        match req {
            DrawType::Line(_, mode) => mode,
            DrawType::Glyph(_) => LineMode::Underline,
        }
    }

    /// Whether a style asks for this decoration.
    pub fn validate(&self, style: &SegmentStyle) -> (b: bool)
        ensures
            b == spec_validate(*self, style@),
    {
        match self {
            LineMode::Underline => style.underline == Some(true),
            LineMode::Strikethrough => style.strikethrough == Some(true),
        }
    }

    /// The horizontal extent of the decoration under one glyph: the glyph's
    /// span widened by half the stroke, except that the gap to an equally
    /// decorated neighbor is bisected so abutting decorations join.
    pub fn boundary(
        &self,
        glyphs: &Vec<ShapedGlyph>,
        segments: &Vec<(Text3dSegment, SegmentStyle)>,
        index: usize,
        stroke: u32,
    ) -> (r: (i64, i64))
        requires
            index < glyphs@.len(),
            stroke <= 0x10000,
            forall|j: int|
                0 <= j < glyphs@.len() ==> -MESH_BOUND <= (#[trigger] glyphs@[j]).x <= MESH_BOUND
                    && 0 <= glyphs@[j].w <= MESH_BOUND,
        ensures
            ({
                let current = glyphs@[index as int];
                let half = tdiv(stroke * current.font_size, 200);
                let lo = if index > 0 && spec_neighbor_merges(
                    glyphs@,
                    segments_view(segments@),
                    current,
                    index - 1,
                    *self,
                ) {
                    tdiv(glyphs@[index - 1].x + glyphs@[index - 1].w + current.x, 2)
                } else {
                    current.x - half
                };
                let hi = if index + 1 < glyphs@.len() && spec_neighbor_merges(
                    glyphs@,
                    segments_view(segments@),
                    current,
                    index + 1,
                    *self,
                ) {
                    tdiv(current.x + current.w + glyphs@[index + 1].x, 2)
                } else {
                    current.x + current.w + half
                };
                r == (lo as i64, hi as i64)
            }),
    {
        let current = glyphs[index];
        proof {
            assert(0 <= stroke * current.font_size <= 0x10000 * 0x1_0000_0000)
                by (nonlinear_arith)
                requires
                    stroke <= 0x10000,
                    current.font_size <= 0x1_0000_0000,
            ;
            crate::fx::lemma_tdiv_nonneg(stroke * current.font_size, 200);
        }
        let half = tdiv_exec((stroke as i64) * (current.font_size as i64), 200);
        let mut lo = current.x - half;
        let mut hi = current.x + current.w + half;
        if index > 0 && neighbor_merges(glyphs, segments, &current, index - 1, *self) {
            let prev = glyphs[index - 1];
            lo = tdiv_exec(prev.x + prev.w + current.x, 2);
        }
        let n = glyphs.len();
        if index < n - 1 && neighbor_merges(glyphs, segments, &current, index + 1, *self) {
            let next = glyphs[index + 1];
            hi = tdiv_exec(current.x + current.w + next.x, 2);
        }
        (lo, hi)
    }

    /// The decoration's rectangle in block-local space: the font's line
    /// metrics scaled to the font size, widened by half the stroke.
    pub fn get_line_rect(
        &self,
        metrics: LineMetrics,
        size: i64,
        min: i64,
        max: i64,
        stroke: u32,
    ) -> (r: FxRect)
        requires
            0 < metrics.units_per_em,
            0 <= size <= FX_BOUND,
            -0x8000 <= metrics.position <= 0x8000,
            0 <= metrics.thickness <= 0x8000,
            stroke <= 0x10000,
        ensures
            ({
                let upem = metrics.units_per_em as int;
                let base = tdiv(metrics.position * size, upem);
                let height = tdiv(metrics.thickness * size, upem);
                let half = tdiv(stroke * size, 200);
                r == (FxRect {
                    min: Fx2 { x: min, y: (base - height - half) as i64 },
                    max: Fx2 { x: max, y: (base + half) as i64 },
                })
            }),
    {
        let upem = metrics.units_per_em as i64;
        proof {
            assert(-0x8000 * FX_BOUND <= metrics.position * size <= 0x8000 * FX_BOUND)
                by (nonlinear_arith)
                requires
                    -0x8000 <= metrics.position <= 0x8000,
                    0 <= size <= FX_BOUND,
            ;
            assert(0 <= metrics.thickness * size <= 0x8000 * FX_BOUND) by (nonlinear_arith)
                requires
                    0 <= metrics.thickness <= 0x8000,
                    0 <= size <= FX_BOUND,
            ;
            assert(0 <= stroke * size <= 0x10000 * FX_BOUND) by (nonlinear_arith)
                requires
                    stroke <= 0x10000,
                    0 <= size <= FX_BOUND,
            ;
            crate::fx::lemma_tdiv_bounds(metrics.position * size, upem as int, 0x8000 * FX_BOUND);
            crate::fx::lemma_tdiv_nonneg(metrics.thickness * size, upem as int);
            crate::fx::lemma_tdiv_nonneg(stroke * size, 200);
        }
        let base = tdiv_exec((metrics.position as i64) * size, upem);
        let height = tdiv_exec((metrics.thickness as i64) * size, upem);
        let half = tdiv_exec((stroke as i64) * size, 200);
        FxRect { min: Fx2 { x: min, y: base - height - half }, max: Fx2 { x: max, y: base + half } }
    }

    /// The decoration's thickness at a font size, from the font's metrics.
    pub fn size(&self, metrics: LineMetrics, size: i64) -> (r: i64)
        requires
            0 < metrics.units_per_em,
            0 <= size <= FX_BOUND,
            0 <= metrics.thickness <= 0x8000,
        ensures
            r == tdiv(metrics.thickness * size, metrics.units_per_em as int),
    {
        proof {
            assert(0 <= metrics.thickness * size <= 0x8000 * FX_BOUND) by (nonlinear_arith)
                requires
                    0 <= metrics.thickness <= 0x8000,
                    0 <= size <= FX_BOUND,
            ;
        }
        tdiv_exec((metrics.thickness as i64) * size, metrics.units_per_em as i64)
    }

    /// The run of equally decorated glyphs starting at `index`: following
    /// glyphs extend it while they keep the first glyph's font and size and
    /// their segment asks for the same decoration.
    pub fn new_run(
        &self,
        size: i64,
        index: usize,
        glyphs: &Vec<ShapedGlyph>,
        text: &Vec<(Text3dSegment, SegmentStyle)>,
    ) -> (r: LineRun)
        requires
            index < glyphs@.len(),
            forall|j: int|
                0 <= j < glyphs@.len() ==> -MESH_BOUND <= (#[trigger] glyphs@[j]).x <= MESH_BOUND
                    && 0 <= glyphs@[j].w <= MESH_BOUND,
        ensures
            r.size == size,
            r.min_index == glyphs@[index as int].start,
            r.min_offset == glyphs@[index as int].x,
            exists|j: int|
                index <= j < glyphs@.len() && r.max_index == (#[trigger] glyphs@[j]).end
                    && r.max_offset == glyphs@[j].x + glyphs@[j].w && (forall|k: int|
                    index < k <= j ==> spec_neighbor_merges(
                        glyphs@,
                        segments_view(text@),
                        glyphs@[index as int],
                        k,
                        *self,
                    )) && (j + 1 < glyphs@.len() ==> !spec_neighbor_merges(
                    glyphs@,
                    segments_view(text@),
                    glyphs@[index as int],
                    j + 1,
                    *self,
                )),
    {
        let first = glyphs[index];
        let n = glyphs.len();
        let mut last: usize = index;
        while last < n - 1 && neighbor_merges(glyphs, text, &first, last + 1, *self)
            invariant
                n == glyphs@.len(),
                index <= last < glyphs@.len(),
                first == glyphs@[index as int],
                forall|k: int|
                    index < k <= last ==> spec_neighbor_merges(
                        glyphs@,
                        segments_view(text@),
                        glyphs@[index as int],
                        k,
                        *self,
                    ),
            decreases glyphs@.len() - last,
        {
            last = last + 1;
        }
        let g_last = glyphs[last];
        let run = LineRun {
            min_index: first.start,
            max_index: g_last.end,
            min_offset: first.x,
            max_offset: g_last.x + g_last.w,
            size,
        };
        proof {
            assert(index <= last < glyphs@.len() && run.max_index == glyphs@[last as int].end
                && run.max_offset == glyphs@[last as int].x + glyphs@[last as int].w);
        }
        run
    }
}

} // verus!
