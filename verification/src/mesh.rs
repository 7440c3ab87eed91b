//! The mesh assembler: one textured quad per draw request, depth-layered by
//! tag, with two UV channels — atlas coordinates on the first and per-glyph
//! metadata on the second.
//!
//! All coordinates are 16.16 fixed point.  Texture coordinates stay in
//! atlas pixel units while quads accumulate, because the atlas may still
//! grow; [`MeshAssembler::pixel_to_uv`] normalizes them as the last step.
//! Triangle indices are 16-bit, which caps a mesh at 16384 quads.

use vstd::prelude::*;

use crate::color::Color;
use crate::fx::{fx_div, tdiv, FX_BOUND, FX_ONE};
use crate::layers::Layer;
use crate::style::{GlyphMeta, Text3dStyling};

verus! {

/// Magnitude bound on quad coordinates, advances and offsets handed to the
/// assembler: half of [`FX_BOUND`], so that one addition cannot overflow.
pub const MESH_BOUND: i64 = 0x4000_0000;

/// A point in 16.16 fixed point.
#[derive(Clone, Copy, PartialEq, Eq, Structural, Debug)]
pub struct Fx2 {
    pub x: i64,
    pub y: i64,
}

/// A point or direction with depth, in 16.16 fixed point.
#[derive(Clone, Copy, PartialEq, Eq, Structural, Debug)]
pub struct Fx3 {
    pub x: i64,
    pub y: i64,
    pub z: i64,
}

/// An axis-aligned rectangle in 16.16 fixed point.
#[derive(Clone, Copy, PartialEq, Eq, Structural, Debug)]
pub struct FxRect {
    pub min: Fx2,
    pub max: Fx2,
}

/// The four corners of a rectangle, in quad order: both bottom corners,
/// then both top corners.
pub open spec fn spec_corners(rect: FxRect) -> Seq<Fx2> {
    seq![
        Fx2 { x: rect.min.x, y: rect.min.y },
        Fx2 { x: rect.max.x, y: rect.min.y },
        Fx2 { x: rect.min.x, y: rect.max.y },
        Fx2 { x: rect.max.x, y: rect.max.y },
    ]
}

/// The metadata one secondary-UV channel carries at one corner of a quad.
/// Positions inside the block (`RowX`, `ColY`) are left zero here and
/// filled by [`MeshAssembler::post_process_uv1`] once the block's bounds
/// are known.
pub open spec fn spec_uv1_value(
    meta: GlyphMeta,
    corner: int,
    real_index: int,
    advance: int,
    rect_w: int,
    magic_number: int,
    size: int,
) -> int {
    match meta {
        GlyphMeta::Index => real_index * FX_ONE,
        GlyphMeta::Advance => if corner == 1 || corner == 3 {
            tdiv((advance + rect_w) * FX_ONE, size)
        } else {
            tdiv(advance * FX_ONE, size)
        },
        GlyphMeta::PerGlyphAdvance => tdiv((advance + rect_w / 2) * FX_ONE, size),
        GlyphMeta::MagicNumber => magic_number,
        GlyphMeta::RowX => 0,
        GlyphMeta::ColY => 0,
    }
}

/// Accumulates the vertex and index data of one text block, one quad per
/// draw request.  The public vectors are the final mesh once
/// [`MeshAssembler::finish`] has run.
#[derive(Debug)]
pub struct MeshAssembler {
    /// Vertex positions; depth is written by [`MeshAssembler::finish`].
    pub positions: Vec<Fx3>,
    /// Vertex normals, all facing the viewer.
    pub normals: Vec<Fx3>,
    /// Texture coordinates: atlas pixels until [`MeshAssembler::pixel_to_uv`].
    pub uv0: Vec<Fx2>,
    /// The secondary metadata channel.
    pub uv1: Vec<Fx2>,
    /// Per-vertex tint.
    pub colors: Vec<Color>,
    /// Triangle indices; filled by [`MeshAssembler::finish`].
    pub indices: Vec<u16>,
    /// One entry per quad: its layer tag and its first vertex index.
    pub sort: Vec<(Layer, u16)>,
}

impl MeshAssembler {
    /// Every vertex attribute runs in step, four vertices per quad, and
    /// every quad's vertices sit inside the buffers.
    pub open spec fn wf(&self) -> bool {
        &&& self.positions@.len() == self.normals@.len()
        &&& self.positions@.len() == self.uv0@.len()
        &&& self.positions@.len() == self.uv1@.len()
        &&& self.positions@.len() == self.colors@.len()
        &&& self.positions@.len() == 4 * self.sort@.len()
        &&& self.positions@.len() <= 0x10000
        &&& forall|q: int|
            0 <= q < self.sort@.len() ==> (#[trigger] self.sort@[q]).1 == 4 * q
    }

    /// A fresh, empty assembler.
    pub fn new() -> (m: MeshAssembler)
        ensures
            m.wf(),
            m.positions@.len() == 0,
            m.sort@.len() == 0,
            m.indices@.len() == 0,
    {
        MeshAssembler {
            positions: Vec::new(),
            normals: Vec::new(),
            uv0: Vec::new(),
            uv1: Vec::new(),
            colors: Vec::new(),
            indices: Vec::new(),
            sort: Vec::new(),
        }
    }

    /// Number of quads emitted so far.
    pub fn quad_count(&self) -> (n: usize)
        ensures
            n == self.sort@.len(),
    {
        self.sort.len()
    }

    /// Emit one quad covering `mesh_rect`, textured by the atlas rectangle
    /// `texture` (in pixel units), tinted `color`, on depth layer `layer`,
    /// carrying the glyph's metadata on the secondary UV channel.
    #[verifier::rlimit(100)]
    pub fn cache_rectangle2(
        &mut self,
        mesh_rect: FxRect,
        texture: FxRect,
        color: Color,
        layer: Layer,
        real_index: usize,
        advance: i64,
        magic_number: i64,
        styling: &Text3dStyling,
    )
        requires
            old(self).wf(),
            old(self).positions@.len() + 4 <= 0x10000,
            -MESH_BOUND <= mesh_rect.min.x <= mesh_rect.max.x <= MESH_BOUND,
            -MESH_BOUND <= mesh_rect.min.y <= mesh_rect.max.y <= MESH_BOUND,
            -MESH_BOUND <= advance <= MESH_BOUND,
            advance + mesh_rect.max.x - mesh_rect.min.x <= FX_BOUND,
            real_index <= 0x7FFF_FFFF,
            0 < styling.size,
        ensures
            final(self).wf(),
            final(self).positions@.len() == old(self).positions@.len() + 4,
            final(self).sort@ == old(self).sort@.push(
                (layer, old(self).positions@.len() as u16),
            ),
            final(self).indices@ == old(self).indices@,
            forall|i: int|
                0 <= i < old(self).positions@.len() ==> final(self).positions@[i] == old(self).positions@[i] && final(self).normals@[i] == old(self).normals@[i] && final(self).uv0@[i] == old(self).uv0@[i] && final(self).uv1@[i] == old(self).uv1@[i] && final(self).colors@[i] == old(self).colors@[i],
            forall|i: int|
                old(self).positions@.len() <= i < old(self).positions@.len() + 4 ==> {
                    let c = i - old(self).positions@.len();
                    &&& #[trigger] final(self).positions@[i] == (Fx3 {
                        x: spec_corners(mesh_rect)[c].x,
                        y: spec_corners(mesh_rect)[c].y,
                        z: 0,
                    })
                    &&& final(self).normals@[i] == (Fx3 { x: 0, y: 0, z: FX_ONE })
                    &&& final(self).uv0@[i] == spec_corners(texture)[c]
                    &&& final(self).colors@[i] == color
                    &&& final(self).uv1@[i] == (Fx2 {
                        x: spec_uv1_value(
                            styling.uv1.0,
                            c,
                            real_index as int,
                            advance as int,
                            mesh_rect.max.x - mesh_rect.min.x,
                            magic_number as int,
                            styling.size as int,
                        ) as i64,
                        y: spec_uv1_value(
                            styling.uv1.1,
                            c,
                            real_index as int,
                            advance as int,
                            mesh_rect.max.x - mesh_rect.min.x,
                            magic_number as int,
                            styling.size as int,
                        ) as i64,
                    })
                },
    {
        let base = self.positions.len() as u16;
        self.sort.push((layer, base));
        let rect_w = mesh_rect.max.x - mesh_rect.min.x;
        let u0 = self.uv1_value(styling.uv1.0, 0, real_index, advance, rect_w, magic_number,
            styling.size);
        let v0 = self.uv1_value(styling.uv1.1, 0, real_index, advance, rect_w, magic_number,
            styling.size);
        let u1 = self.uv1_value(styling.uv1.0, 1, real_index, advance, rect_w, magic_number,
            styling.size);
        let v1 = self.uv1_value(styling.uv1.1, 1, real_index, advance, rect_w, magic_number,
            styling.size);
        let u2 = self.uv1_value(styling.uv1.0, 2, real_index, advance, rect_w, magic_number,
            styling.size);
        let v2 = self.uv1_value(styling.uv1.1, 2, real_index, advance, rect_w, magic_number,
            styling.size);
        let u3 = self.uv1_value(styling.uv1.0, 3, real_index, advance, rect_w, magic_number,
            styling.size);
        let v3 = self.uv1_value(styling.uv1.1, 3, real_index, advance, rect_w, magic_number,
            styling.size);
        self.positions.push(Fx3 { x: mesh_rect.min.x, y: mesh_rect.min.y, z: 0 });
        self.positions.push(Fx3 { x: mesh_rect.max.x, y: mesh_rect.min.y, z: 0 });
        self.positions.push(Fx3 { x: mesh_rect.min.x, y: mesh_rect.max.y, z: 0 });
        self.positions.push(Fx3 { x: mesh_rect.max.x, y: mesh_rect.max.y, z: 0 });
        self.normals.push(Fx3 { x: 0, y: 0, z: FX_ONE });
        self.normals.push(Fx3 { x: 0, y: 0, z: FX_ONE });
        self.normals.push(Fx3 { x: 0, y: 0, z: FX_ONE });
        self.normals.push(Fx3 { x: 0, y: 0, z: FX_ONE });
        self.uv0.push(Fx2 { x: texture.min.x, y: texture.min.y });
        self.uv0.push(Fx2 { x: texture.max.x, y: texture.min.y });
        self.uv0.push(Fx2 { x: texture.min.x, y: texture.max.y });
        self.uv0.push(Fx2 { x: texture.max.x, y: texture.max.y });
        self.colors.push(color);
        self.colors.push(color);
        self.colors.push(color);
        self.colors.push(color);
        self.uv1.push(Fx2 { x: u0, y: v0 });
        self.uv1.push(Fx2 { x: u1, y: v1 });
        self.uv1.push(Fx2 { x: u2, y: v2 });
        self.uv1.push(Fx2 { x: u3, y: v3 });
        proof {
            assert forall|q: int| 0 <= q < self.sort@.len() implies (#[trigger] self.sort@[q]).1
                == 4 * q by {
                if q < old(self).sort@.len() {
                    assert(old(self).sort@[q].1 == 4 * q);
                }
            }
        }
    }

    /// The metadata value of one secondary-UV channel at one quad corner.
    fn uv1_value(
        &self,
        meta: GlyphMeta,
        corner: usize,
        real_index: usize,
        advance: i64,
        rect_w: i64,
        magic_number: i64,
        size: i64,
    ) -> (v: i64)
        requires
            corner < 4,
            -MESH_BOUND <= advance <= MESH_BOUND,
            0 <= rect_w,
            advance + rect_w <= FX_BOUND,
            real_index <= 0x7FFF_FFFF,
            0 < size,
        ensures
            v == spec_uv1_value(
                meta,
                corner as int,
                real_index as int,
                advance as int,
                rect_w as int,
                magic_number as int,
                size as int,
            ),
    {
        match meta {
            GlyphMeta::Index => (real_index as i64) * FX_ONE,
            GlyphMeta::Advance => {
                if corner == 1 || corner == 3 {
                    fx_div(advance + rect_w, size)
                } else {
                    fx_div(advance, size)
                }
            },
            GlyphMeta::PerGlyphAdvance => fx_div(advance + rect_w / 2, size),
            GlyphMeta::MagicNumber => magic_number,
            GlyphMeta::RowX => 0,
            GlyphMeta::ColY => 0,
        }
    }

    /// Emit one quad at `base`, sized by the atlas rectangle divided by the
    /// device pixel scale.
    pub fn cache_rectangle(
        &mut self,
        base: Fx2,
        texture: FxRect,
        color: Color,
        scale_factor: i64,
        layer: Layer,
        real_index: usize,
        advance: i64,
        magic_number: i64,
        styling: &Text3dStyling,
    )
        requires
            old(self).wf(),
            old(self).positions@.len() + 4 <= 0x10000,
            -MESH_BOUND / 2 <= base.x <= MESH_BOUND / 2,
            -MESH_BOUND / 2 <= base.y <= MESH_BOUND / 2,
            texture.min.x <= texture.max.x,
            texture.min.y <= texture.max.y,
            texture.max.x - texture.min.x <= FX_BOUND,
            texture.max.y - texture.min.y <= FX_BOUND,
            tdiv((texture.max.x - texture.min.x) * FX_ONE, scale_factor as int) <= MESH_BOUND / 2,
            tdiv((texture.max.y - texture.min.y) * FX_ONE, scale_factor as int) <= MESH_BOUND / 2,
            -MESH_BOUND <= advance <= MESH_BOUND,
            real_index <= 0x7FFF_FFFF,
            0 < styling.size,
            0 < scale_factor,
        ensures
            final(self).wf(),
            final(self).positions@.len() == old(self).positions@.len() + 4,
            ({
                let mesh_rect = FxRect {
                    min: base,
                    max: Fx2 {
                        x: (base.x + tdiv(
                            (texture.max.x - texture.min.x) * FX_ONE,
                            scale_factor as int,
                        )) as i64,
                        y: (base.y + tdiv(
                            (texture.max.y - texture.min.y) * FX_ONE,
                            scale_factor as int,
                        )) as i64,
                    },
                };
                &&& final(self).sort@ == old(self).sort@.push(
                    (layer, old(self).positions@.len() as u16),
                )
                &&& forall|i: int|
                    old(self).positions@.len() <= i < old(self).positions@.len() + 4 ==> {
                        let c = i - old(self).positions@.len();
                        &&& #[trigger] final(self).positions@[i] == (Fx3 {
                            x: spec_corners(mesh_rect)[c].x,
                            y: spec_corners(mesh_rect)[c].y,
                            z: 0,
                        })
                        &&& final(self).uv0@[i] == spec_corners(texture)[c]
                        &&& final(self).colors@[i] == color
                    }
                &&& forall|i: int|
                    0 <= i < old(self).positions@.len() ==> final(self).positions@[i] == old(self).positions@[i] && final(self).uv0@[i] == old(self).uv0@[i] && final(self).uv1@[i] == old(self).uv1@[i] && final(self).colors@[i] == old(self).colors@[i]
            }),
    {
        let dw = fx_div(texture.max.x - texture.min.x, scale_factor);
        let dh = fx_div(texture.max.y - texture.min.y, scale_factor);
        proof {
            crate::fx::lemma_tdiv_nonneg((texture.max.x - texture.min.x) * FX_ONE,
                scale_factor as int);
            crate::fx::lemma_tdiv_nonneg((texture.max.y - texture.min.y) * FX_ONE,
                scale_factor as int);
        }
        let mesh_rect = FxRect {
            min: base,
            max: Fx2 { x: base.x + dw, y: base.y + dh },
        };
        self.cache_rectangle2(
            mesh_rect,
            texture,
            color,
            layer,
            real_index,
            advance,
            magic_number,
            styling,
        );
    }
}

/// The value one secondary-UV coordinate takes after the block's bounds
/// are known: the block-relative position for `RowX` and `ColY`, the value
/// already written for everything else.
pub open spec fn spec_uv1_post(meta: GlyphMeta, old_val: i64, pos: Fx3, min: Fx2, dim: Fx2) -> int {
    match meta {
        GlyphMeta::RowX => tdiv((pos.x - min.x) * FX_ONE, dim.x as int),
        GlyphMeta::ColY => tdiv((pos.y - min.y) * FX_ONE, dim.y as int),
        _ => old_val as int,
    }
}

impl MeshAssembler {
    /// Fill the block-relative channels of the secondary UVs, once the
    /// block's bounding box (`min`, `dim`) is known.
    pub fn post_process_uv1(&mut self, styling: &Text3dStyling, min: Fx2, dim: Fx2)
        requires
            old(self).wf(),
            styling.uv1.0 is RowX || styling.uv1.1 is RowX ==> 0 < dim.x,
            styling.uv1.0 is ColY || styling.uv1.1 is ColY ==> 0 < dim.y,
            forall|i: int|
                0 <= i < old(self).positions@.len() ==> -FX_BOUND <= (
                #[trigger] old(self).positions@[i]).x - min.x <= FX_BOUND && -FX_BOUND <= old(self).positions@[i].y - min.y <= FX_BOUND,
        ensures
            final(self).wf(),
            final(self).positions@ == old(self).positions@,
            final(self).normals@ == old(self).normals@,
            final(self).uv0@ == old(self).uv0@,
            final(self).colors@ == old(self).colors@,
            final(self).indices@ == old(self).indices@,
            final(self).sort@ == old(self).sort@,
            final(self).uv1@.len() == old(self).uv1@.len(),
            forall|i: int|
                0 <= i < old(self).uv1@.len() ==> #[trigger] final(self).uv1@[i] == (Fx2 {
                    x: spec_uv1_post(
                        styling.uv1.0,
                        old(self).uv1@[i].x,
                        old(self).positions@[i],
                        min,
                        dim,
                    ) as i64,
                    y: spec_uv1_post(
                        styling.uv1.1,
                        old(self).uv1@[i].y,
                        old(self).positions@[i],
                        min,
                        dim,
                    ) as i64,
                }),
    {
        let mut i: usize = 0;
        while i < self.uv1.len()
            invariant
                self.wf(),
                i <= self.uv1@.len(),
                styling.uv1.0 is RowX || styling.uv1.1 is RowX ==> 0 < dim.x,
                styling.uv1.0 is ColY || styling.uv1.1 is ColY ==> 0 < dim.y,
                forall|j: int|
                    0 <= j < self.positions@.len() ==> -FX_BOUND <= (
                    #[trigger] self.positions@[j]).x - min.x <= FX_BOUND && -FX_BOUND
                        <= self.positions@[j].y - min.y <= FX_BOUND,
                self.positions@ == old(self).positions@,
                self.normals@ == old(self).normals@,
                self.uv0@ == old(self).uv0@,
                self.colors@ == old(self).colors@,
                self.indices@ == old(self).indices@,
                self.sort@ == old(self).sort@,
                self.uv1@.len() == old(self).uv1@.len(),
                forall|j: int|
                    0 <= j < i ==> #[trigger] self.uv1@[j] == (Fx2 {
                        x: spec_uv1_post(
                            styling.uv1.0,
                            old(self).uv1@[j].x,
                            old(self).positions@[j],
                            min,
                            dim,
                        ) as i64,
                        y: spec_uv1_post(
                            styling.uv1.1,
                            old(self).uv1@[j].y,
                            old(self).positions@[j],
                            min,
                            dim,
                        ) as i64,
                    }),
                forall|j: int| i <= j < self.uv1@.len() ==> #[trigger] self.uv1@[j] == old(self).uv1@[j],
            decreases self.uv1@.len() - i,
        {
            let pos = self.positions[i];
            let cur = self.uv1[i];
            let nx = self.uv1_post_value(styling.uv1.0, cur.x, pos, min, dim);
            let ny = self.uv1_post_value(styling.uv1.1, cur.y, pos, min, dim);
            self.uv1.set(i, Fx2 { x: nx, y: ny });
            i += 1;
        }
    }

    /// One coordinate of [`MeshAssembler::post_process_uv1`].
    fn uv1_post_value(&self, meta: GlyphMeta, old_val: i64, pos: Fx3, min: Fx2, dim: Fx2) -> (v:
        i64)
        requires
            meta is RowX ==> 0 < dim.x && -FX_BOUND <= pos.x - min.x <= FX_BOUND,
            meta is ColY ==> 0 < dim.y && -FX_BOUND <= pos.y - min.y <= FX_BOUND,
        ensures
            v == spec_uv1_post(meta, old_val, pos, min, dim),
    {
        match meta {
            GlyphMeta::RowX => fx_div(pos.x - min.x, dim.x),
            GlyphMeta::ColY => fx_div(pos.y - min.y, dim.y),
            _ => old_val,
        }
    }

    /// Translate every vertex in the plane; depth is untouched.
    pub fn translate(&mut self, offset: Fx2)
        requires
            old(self).wf(),
            forall|i: int|
                0 <= i < old(self).positions@.len() ==> i64::MIN <= (
                #[trigger] old(self).positions@[i]).x + offset.x <= i64::MAX && i64::MIN <= old(self).positions@[i].y + offset.y <= i64::MAX,
        ensures
            final(self).wf(),
            final(self).normals@ == old(self).normals@,
            final(self).uv0@ == old(self).uv0@,
            final(self).uv1@ == old(self).uv1@,
            final(self).colors@ == old(self).colors@,
            final(self).indices@ == old(self).indices@,
            final(self).sort@ == old(self).sort@,
            final(self).positions@.len() == old(self).positions@.len(),
            forall|i: int|
                0 <= i < old(self).positions@.len() ==> #[trigger] final(self).positions@[i] == (
                Fx3 {
                    x: (old(self).positions@[i].x + offset.x) as i64,
                    y: (old(self).positions@[i].y + offset.y) as i64,
                    z: old(self).positions@[i].z,
                }),
    {
        let mut i: usize = 0;
        while i < self.positions.len()
            invariant
                self.wf(),
                i <= self.positions@.len(),
                self.normals@ == old(self).normals@,
                self.uv0@ == old(self).uv0@,
                self.uv1@ == old(self).uv1@,
                self.colors@ == old(self).colors@,
                self.indices@ == old(self).indices@,
                self.sort@ == old(self).sort@,
                self.positions@.len() == old(self).positions@.len(),
                forall|j: int|
                    i <= j < old(self).positions@.len() ==> #[trigger] self.positions@[j] == old(self).positions@[j],
                forall|j: int|
                    0 <= j < i ==> #[trigger] self.positions@[j] == (Fx3 {
                        x: (old(self).positions@[j].x + offset.x) as i64,
                        y: (old(self).positions@[j].y + offset.y) as i64,
                        z: old(self).positions@[j].z,
                    }),
                forall|j: int|
                    0 <= j < old(self).positions@.len() ==> i64::MIN <= (
                    #[trigger] old(self).positions@[j]).x + offset.x <= i64::MAX && i64::MIN
                        <= old(self).positions@[j].y + offset.y <= i64::MAX,
            decreases self.positions@.len() - i,
        {
            let p = self.positions[i];
            self.positions.set(i, Fx3 { x: p.x + offset.x, y: p.y + offset.y, z: p.z });
            i += 1;
        }
    }

    /// Rescale every vertex by an explicit world scale over the font size,
    /// for blocks that override the size of one em in the emitted mesh.
    pub fn rescale(&mut self, world_scale: (i64, i64), size: i64)
        requires
            old(self).wf(),
            -FX_BOUND <= world_scale.0 <= FX_BOUND,
            -FX_BOUND <= world_scale.1 <= FX_BOUND,
            0 < size,
            forall|i: int|
                0 <= i < old(self).positions@.len() ==> -FX_BOUND <= (
                #[trigger] old(self).positions@[i]).x <= FX_BOUND && -FX_BOUND <= old(self).positions@[i].y <= FX_BOUND,
        ensures
            final(self).wf(),
            final(self).normals@ == old(self).normals@,
            final(self).uv0@ == old(self).uv0@,
            final(self).uv1@ == old(self).uv1@,
            final(self).colors@ == old(self).colors@,
            final(self).indices@ == old(self).indices@,
            final(self).sort@ == old(self).sort@,
            final(self).positions@.len() == old(self).positions@.len(),
            forall|i: int|
                0 <= i < old(self).positions@.len() ==> #[trigger] final(self).positions@[i] == (
                Fx3 {
                    x: tdiv(old(self).positions@[i].x * world_scale.0, size as int) as i64,
                    y: tdiv(old(self).positions@[i].y * world_scale.1, size as int) as i64,
                    z: old(self).positions@[i].z,
                }),
    {
        let mut i: usize = 0;
        while i < self.positions.len()
            invariant
                self.wf(),
                i <= self.positions@.len(),
                -FX_BOUND <= world_scale.0 <= FX_BOUND,
                -FX_BOUND <= world_scale.1 <= FX_BOUND,
                0 < size,
                self.normals@ == old(self).normals@,
                self.uv0@ == old(self).uv0@,
                self.uv1@ == old(self).uv1@,
                self.colors@ == old(self).colors@,
                self.indices@ == old(self).indices@,
                self.sort@ == old(self).sort@,
                self.positions@.len() == old(self).positions@.len(),
                forall|j: int|
                    i <= j < old(self).positions@.len() ==> #[trigger] self.positions@[j] == old(self).positions@[j],
                forall|j: int|
                    0 <= j < i ==> #[trigger] self.positions@[j] == (Fx3 {
                        x: tdiv(old(self).positions@[j].x * world_scale.0, size as int) as i64,
                        y: tdiv(old(self).positions@[j].y * world_scale.1, size as int) as i64,
                        z: old(self).positions@[j].z,
                    }),
                forall|j: int|
                    0 <= j < old(self).positions@.len() ==> -FX_BOUND <= (
                    #[trigger] old(self).positions@[j]).x <= FX_BOUND && -FX_BOUND <= old(self).positions@[j].y <= FX_BOUND,
            decreases self.positions@.len() - i,
        {
            let p = self.positions[i];
            let nx = crate::fx::fx_mul_div(p.x, world_scale.0, size);
            let ny = crate::fx::fx_mul_div(p.y, world_scale.1, size);
            self.positions.set(i, Fx3 { x: nx, y: ny, z: p.z });
            i += 1;
        }
    }

    /// Normalize the texture coordinates from atlas pixels to the unit
    /// square, by the final atlas dimensions.  Deferred to the very end of
    /// a pass because the atlas may grow while quads accumulate.
    pub fn pixel_to_uv(&mut self, width: usize, height: usize)
        requires
            1 <= width,
            1 <= height,
            width <= 0x10000,
            height <= 0x10000,
            forall|i: int|
                0 <= i < old(self).uv0@.len() ==> 0 <= (#[trigger] old(self).uv0@[i]).x && 0 <= old(self).uv0@[i].y,
        ensures
            final(self).positions@ == old(self).positions@,
            final(self).normals@ == old(self).normals@,
            final(self).uv1@ == old(self).uv1@,
            final(self).colors@ == old(self).colors@,
            final(self).indices@ == old(self).indices@,
            final(self).sort@ == old(self).sort@,
            final(self).uv0@.len() == old(self).uv0@.len(),
            forall|i: int|
                0 <= i < old(self).uv0@.len() ==> #[trigger] final(self).uv0@[i] == (Fx2 {
                    x: tdiv(old(self).uv0@[i].x as int, width as int) as i64,
                    y: tdiv(old(self).uv0@[i].y as int, height as int) as i64,
                }),
    {
        let mut i: usize = 0;
        while i < self.uv0.len()
            invariant
                i <= self.uv0@.len(),
                1 <= width <= 0x10000,
                1 <= height <= 0x10000,
                self.positions@ == old(self).positions@,
                self.normals@ == old(self).normals@,
                self.uv1@ == old(self).uv1@,
                self.colors@ == old(self).colors@,
                self.indices@ == old(self).indices@,
                self.sort@ == old(self).sort@,
                self.uv0@.len() == old(self).uv0@.len(),
                forall|j: int| i <= j < old(self).uv0@.len() ==> #[trigger] self.uv0@[j] == old(self).uv0@[j],
                forall|j: int|
                    0 <= j < i ==> #[trigger] self.uv0@[j] == (Fx2 {
                        x: tdiv(old(self).uv0@[j].x as int, width as int) as i64,
                        y: tdiv(old(self).uv0@[j].y as int, height as int) as i64,
                    }),
                forall|j: int|
                    0 <= j < old(self).uv0@.len() ==> 0 <= (#[trigger] old(self).uv0@[j]).x && 0
                        <= old(self).uv0@[j].y,
            decreases self.uv0@.len() - i,
        {
            let p = self.uv0[i];
            let nx = crate::fx::tdiv_exec(p.x, width as i64);
            let ny = crate::fx::tdiv_exec(p.y, height as i64);
            self.uv0.set(i, Fx2 { x: nx, y: ny });
            i += 1;
        }
    }

    /// Rescale already-normalized texture coordinates after the atlas image
    /// alone was resized: multiply by the old dimension over the new one,
    /// instead of rebuilding the geometry.
    pub fn rescale_uv0(&mut self, old_w: usize, old_h: usize, new_w: usize, new_h: usize)
        requires
            1 <= old_w <= 0x10000,
            1 <= old_h <= 0x10000,
            1 <= new_w <= 0x10000,
            1 <= new_h <= 0x10000,
            forall|i: int|
                0 <= i < old(self).uv0@.len() ==> 0 <= (#[trigger] old(self).uv0@[i]).x
                    <= FX_BOUND && 0 <= old(self).uv0@[i].y <= FX_BOUND,
        ensures
            final(self).positions@ == old(self).positions@,
            final(self).uv1@ == old(self).uv1@,
            final(self).uv0@.len() == old(self).uv0@.len(),
            forall|i: int|
                0 <= i < old(self).uv0@.len() ==> #[trigger] final(self).uv0@[i] == (Fx2 {
                    x: tdiv(old(self).uv0@[i].x * old_w, new_w as int) as i64,
                    y: tdiv(old(self).uv0@[i].y * old_h, new_h as int) as i64,
                }),
    {
        let mut i: usize = 0;
        while i < self.uv0.len()
            invariant
                i <= self.uv0@.len(),
                1 <= old_w <= 0x10000,
                1 <= old_h <= 0x10000,
                1 <= new_w <= 0x10000,
                1 <= new_h <= 0x10000,
                self.positions@ == old(self).positions@,
                self.normals@ == old(self).normals@,
                self.uv1@ == old(self).uv1@,
                self.colors@ == old(self).colors@,
                self.indices@ == old(self).indices@,
                self.sort@ == old(self).sort@,
                self.uv0@.len() == old(self).uv0@.len(),
                forall|j: int| i <= j < old(self).uv0@.len() ==> #[trigger] self.uv0@[j] == old(self).uv0@[j],
                forall|j: int|
                    0 <= j < i ==> #[trigger] self.uv0@[j] == (Fx2 {
                        x: tdiv(old(self).uv0@[j].x * old_w, new_w as int) as i64,
                        y: tdiv(old(self).uv0@[j].y * old_h, new_h as int) as i64,
                    }),
                forall|j: int|
                    0 <= j < old(self).uv0@.len() ==> 0 <= (#[trigger] old(self).uv0@[j]).x
                        <= FX_BOUND && 0 <= old(self).uv0@[j].y <= FX_BOUND,
            decreases self.uv0@.len() - i,
        {
            let p = self.uv0[i];
            let nx = crate::fx::fx_mul_div(p.x, old_w as i64, new_w as i64);
            let ny = crate::fx::fx_mul_div(p.y, old_h as i64, new_h as i64);
            self.uv0.set(i, Fx2 { x: nx, y: ny });
            i += 1;
        }
    }
}

/// Stable insertion of a quad entry into a layer-sorted run: it lands
/// after every entry whose tag does not exceed its own, so equal tags keep
/// their emission order.
pub open spec fn spec_insert_sorted(x: (Layer, u16), s: Seq<(Layer, u16)>) -> Seq<(Layer, u16)>
    decreases s.len(),
{
    if s.len() == 0 {
        seq![x]
    } else if x.0.0 < s[0].0.0 {
        seq![x] + s
    } else {
        seq![s[0]] + spec_insert_sorted(x, s.drop_first())
    }
}

/// Stable sort of the quad entries by layer tag.
pub open spec fn spec_sort_by_layer(s: Seq<(Layer, u16)>) -> Seq<(Layer, u16)>
    decreases s.len(),
{
    if s.len() == 0 {
        Seq::empty()
    } else {
        spec_insert_sorted(s.last(), spec_sort_by_layer(s.drop_last()))
    }
}

/// Whether quad entries run in nondecreasing layer order.
pub open spec fn spec_sorted_by_layer(s: Seq<(Layer, u16)>) -> bool {
    forall|i: int, j: int| 0 <= i <= j < s.len() ==> (#[trigger] s[i]).0.0 <= (#[trigger] s[j]).0.0
}

/// How many layer changes follow position `q` in a sorted run.
pub open spec fn spec_changes_from(s: Seq<(Layer, u16)>, q: int) -> int
    decreases s.len() - q,
{
    if q + 1 >= s.len() || q < 0 {
        0
    } else {
        (if s[q].0.0 != s[q + 1].0.0 {
            1int
        } else {
            0
        }) + spec_changes_from(s, q + 1)
    }
}

/// The depth of the quad at position `q` of the sorted order: zero for the
/// frontmost layer, one step more negative for each distinct layer behind.
pub open spec fn spec_quad_z(s: Seq<(Layer, u16)>, q: int, layer_offset: i64) -> int {
    -spec_changes_from(s, q) * layer_offset
}

/// A positional insertion that respects the run's order is the stable
/// insertion.
proof fn lemma_insert_at(x: (Layer, u16), s: Seq<(Layer, u16)>, p: int)
    requires
        0 <= p <= s.len(),
        forall|j: int| 0 <= j < p ==> (#[trigger] s[j]).0.0 <= x.0.0,
        forall|j: int| p <= j < s.len() ==> (#[trigger] s[j]).0.0 > x.0.0,
    ensures
        spec_insert_sorted(x, s) == s.insert(p, x),
    decreases p,
{
    if s.len() == 0 {
        assert(spec_insert_sorted(x, s) =~= s.insert(0, x));
    } else if p == 0 {
        assert(s[0].0.0 > x.0.0);
        assert(seq![x] + s =~= s.insert(0, x));
    } else {
        assert(s[0].0.0 <= x.0.0);
        assert forall|j: int| 0 <= j < p - 1 implies (#[trigger] s.drop_first()[j]).0.0
            <= x.0.0 by {
            assert(s.drop_first()[j] == s[j + 1]);
        }
        assert forall|j: int| p - 1 <= j < s.drop_first().len() implies (
        #[trigger] s.drop_first()[j]).0.0 > x.0.0 by {
            assert(s.drop_first()[j] == s[j + 1]);
        }
        lemma_insert_at(x, s.drop_first(), p - 1);
        assert(seq![s[0]] + s.drop_first().insert(p - 1, x) =~= s.insert(p, x));
    }
}

/// Counting layer changes from an earlier position counts at least as many,
/// and strictly more when the layers at the two positions differ in a
/// sorted run.
proof fn lemma_changes_mono(s: Seq<(Layer, u16)>, a: int, b: int)
    requires
        spec_sorted_by_layer(s),
        0 <= a <= b < s.len(),
    ensures
        spec_changes_from(s, a) >= spec_changes_from(s, b),
        s[a].0.0 != s[b].0.0 ==> spec_changes_from(s, a) > spec_changes_from(s, b),
    decreases b - a,
{
    if a < b {
        lemma_changes_mono(s, a + 1, b);
        if s[a].0.0 != s[b].0.0 && s[a].0.0 == s[a + 1].0.0 {
            assert(s[a + 1].0.0 != s[b].0.0);
        }
    }
}

/// No suffix has more changes than entries after its start.
proof fn lemma_changes_bound(s: Seq<(Layer, u16)>, q: int)
    ensures
        0 <= spec_changes_from(s, q),
        0 <= q <= s.len() ==> spec_changes_from(s, q) <= s.len() - q,
    decreases s.len() - q,
{
    if !(q + 1 >= s.len() || q < 0) {
        lemma_changes_bound(s, q + 1);
    }
}

impl MeshAssembler {
    /// Close the block: sort the quads by layer tag, assign one depth per
    /// distinct tag (the frontmost tag at depth zero, each tag behind it
    /// `layer_offset` farther back), and emit the triangle indices in
    /// sorted order.  An empty block emits a minimal placeholder triangle
    /// instead, since some hosts reject a truly empty mesh.
    ///
    /// The finished buffers always hold one quad (four vertices, six
    /// indices) per draw request, or the three-vertex placeholder.
    #[verifier::rlimit(100)]
    pub fn finish(&mut self, layer_offset: i64)
        requires
            old(self).wf(),
            0 <= layer_offset <= FX_BOUND,
        ensures
            old(self).sort@.len() == 0 ==> final(self).positions@.len() == 3 && final(self).normals@.len() == 3 && final(self).uv0@.len() == 3 && final(self).uv1@.len() == 3
                && final(self).colors@.len() == 3 && final(self).indices@ == seq![0u16, 1u16, 2u16]
                && final(self).uv0@ == old(self).uv0@ + seq![
                Fx2 { x: 0, y: 0 },
                Fx2 { x: 0, y: 0 },
                Fx2 { x: 0, y: 0 },
            ],
            old(self).sort@.len() > 0 ==> ({
                let ss = spec_sort_by_layer(old(self).sort@);
                &&& final(self).positions@.len() == old(self).positions@.len()
                &&& final(self).positions@.len() == 4 * old(self).sort@.len()
                &&& final(self).indices@.len() == 6 * old(self).sort@.len()
                &&& final(self).normals@ == old(self).normals@
                &&& final(self).uv0@ == old(self).uv0@
                &&& final(self).uv1@ == old(self).uv1@
                &&& final(self).colors@ == old(self).colors@
                &&& final(self).sort@ == old(self).sort@
                &&& ss.len() == old(self).sort@.len()
                &&& spec_sorted_by_layer(ss)
                &&& forall|q: int|
                    0 <= q < ss.len() ==> (#[trigger] ss[q]).1 + 4 <= final(self).positions@.len() && ss[q].1 % 4 == 0
                &&& forall|q: int|
                    0 <= q < ss.len() ==> {
                        let b = (#[trigger] ss[q]).1;
                        &&& final(self).indices@[6 * q] == b
                        &&& final(self).indices@[6 * q + 1] == b + 1
                        &&& final(self).indices@[6 * q + 2] == b + 2
                        &&& final(self).indices@[6 * q + 3] == b + 1
                        &&& final(self).indices@[6 * q + 4] == b + 3
                        &&& final(self).indices@[6 * q + 5] == b + 2
                    }
                &&& forall|i: int|
                    0 <= i < old(self).positions@.len() ==> (#[trigger] final(self).positions@[i]).x == old(self).positions@[i].x && final(self).positions@[i].y
                        == old(self).positions@[i].y
                &&& forall|q: int, c: int|
                    0 <= q < ss.len() && 0 <= c < 4 ==> #[trigger] final(self).positions@[ss[q].1
                        + c].z == spec_quad_z(ss, q, layer_offset)
                &&& forall|q1: int, q2: int|
                    0 <= q1 < ss.len() && 0 <= q2 < ss.len() && (#[trigger] ss[q1]).0.0 < (
                    #[trigger] ss[q2]).0.0 && layer_offset > 0 ==> final(self).positions@[ss[q1].1
                        as int].z < final(self).positions@[ss[q2].1 as int].z
            }),
    {
        if self.sort.len() == 0 {
            self.positions.push(Fx3 { x: 0, y: 0, z: 0 });
            self.positions.push(Fx3 { x: 0, y: 0, z: 0 });
            self.positions.push(Fx3 { x: 0, y: 0, z: 0 });
            self.normals.push(Fx3 { x: 0, y: FX_ONE, z: 0 });
            self.normals.push(Fx3 { x: 0, y: FX_ONE, z: 0 });
            self.normals.push(Fx3 { x: 0, y: FX_ONE, z: 0 });
            self.uv0.push(Fx2 { x: 0, y: 0 });
            self.uv0.push(Fx2 { x: 0, y: 0 });
            self.uv0.push(Fx2 { x: 0, y: 0 });
            self.uv1.push(Fx2 { x: 0, y: 0 });
            self.uv1.push(Fx2 { x: 0, y: 0 });
            self.uv1.push(Fx2 { x: 0, y: 0 });
            self.colors.push(Color { red: 0, green: 0, blue: 0, alpha: 0 });
            self.colors.push(Color { red: 0, green: 0, blue: 0, alpha: 0 });
            self.colors.push(Color { red: 0, green: 0, blue: 0, alpha: 0 });
            self.indices.clear();
            self.indices.push(0);
            self.indices.push(1);
            self.indices.push(2);
            proof {
                assert(self.indices@ =~= seq![0u16, 1u16, 2u16]);
                assert(self.uv0@ =~= old(self).uv0@ + seq![
                    Fx2 { x: 0, y: 0 },
                    Fx2 { x: 0, y: 0 },
                    Fx2 { x: 0, y: 0 },
                ]);
            }
            return ;
        }
        let ghost orig = self.sort@;
        let mut sorted_entries: Vec<(Layer, u16)> = Vec::new();
        let mut i: usize = 0;
        proof {
            assert(orig.take(0) =~= Seq::<(Layer, u16)>::empty());
        }
        while i < self.sort.len()
            invariant
                old(self).wf(),
                self.sort@ == orig,
                orig == old(self).sort@,
                self.positions@ == old(self).positions@,
                self.normals@ == old(self).normals@,
                self.uv0@ == old(self).uv0@,
                self.uv1@ == old(self).uv1@,
                self.colors@ == old(self).colors@,
                self.indices@ == old(self).indices@,
                i <= orig.len(),
                sorted_entries@ == spec_sort_by_layer(orig.take(i as int)),
                sorted_entries@.len() == i,
                spec_sorted_by_layer(sorted_entries@),
                forall|s1: int|
                    0 <= s1 < sorted_entries@.len() ==> exists|j: int|
                        0 <= j < i && (#[trigger] sorted_entries@[s1]) == orig[j],
                forall|s1: int, s2: int|
                    0 <= s1 < sorted_entries@.len() && 0 <= s2 < sorted_entries@.len() && s1 != s2
                        ==> (#[trigger] sorted_entries@[s1]).1 != (
                    #[trigger] sorted_entries@[s2]).1,
            decreases orig.len() - i,
        {
            let e = self.sort[i];
            let mut p: usize = sorted_entries.len();
            while p > 0 && sorted_entries[p - 1].0.0 > e.0.0
                invariant
                    p <= sorted_entries@.len(),
                    spec_sorted_by_layer(sorted_entries@),
                    forall|j: int|
                        p <= j < sorted_entries@.len() ==> (#[trigger] sorted_entries@[j]).0.0
                            > e.0.0,
                decreases p,
            {
                p -= 1;
            }
            proof {
                assert forall|j: int| 0 <= j < p implies (#[trigger] sorted_entries@[j]).0.0
                    <= e.0.0 by {
                    assert(sorted_entries@[p - 1].0.0 <= e.0.0);
                    assert(sorted_entries@[j].0.0 <= sorted_entries@[p - 1].0.0);
                }
                lemma_insert_at(e, sorted_entries@, p as int);
            }
            let ghost pre_sorted = sorted_entries@;
            sorted_entries.insert(p, e);
            proof {
                assert(orig.take(i + 1).drop_last() =~= orig.take(i as int));
                assert(orig.take(i + 1).last() == orig[i as int]);
                assert(sorted_entries@ == spec_sort_by_layer(orig.take(i + 1)));
                assert forall|a: int, b: int|
                    0 <= a <= b < sorted_entries@.len() implies (#[trigger] sorted_entries@[a]).0.0
                    <= (#[trigger] sorted_entries@[b]).0.0 by {
                    if a < p && b < p {
                        assert(sorted_entries@[a] == pre_sorted[a]);
                        assert(sorted_entries@[b] == pre_sorted[b]);
                    } else if a < p && b == p {
                        assert(sorted_entries@[a] == pre_sorted[a]);
                    } else if a < p && b > p {
                        assert(sorted_entries@[a] == pre_sorted[a]);
                        assert(sorted_entries@[b] == pre_sorted[b - 1]);
                        assert(pre_sorted[a].0.0 <= pre_sorted[b - 1].0.0);
                    } else if a == p && b > p {
                        assert(sorted_entries@[b] == pre_sorted[b - 1]);
                        assert(pre_sorted[b - 1].0.0 > e.0.0);
                    } else if a > p && b > p {
                        assert(sorted_entries@[a] == pre_sorted[a - 1]);
                        assert(sorted_entries@[b] == pre_sorted[b - 1]);
                    } else if a == p && b == p {
                    }
                }
                assert forall|s1: int| 0 <= s1 < sorted_entries@.len() implies exists|j: int|
                    0 <= j < i + 1 && (#[trigger] sorted_entries@[s1]) == orig[j] by {
                    if s1 < p {
                        assert(sorted_entries@[s1] == pre_sorted[s1]);
                        let j = choose|j: int| 0 <= j < i && pre_sorted[s1] == orig[j];
                        assert(sorted_entries@[s1] == orig[j]);
                    } else if s1 == p {
                        assert(sorted_entries@[s1] == orig[i as int]);
                    } else {
                        assert(sorted_entries@[s1] == pre_sorted[s1 - 1]);
                        let j = choose|j: int| 0 <= j < i && pre_sorted[s1 - 1] == orig[j];
                        assert(sorted_entries@[s1] == orig[j]);
                    }
                }
                assert forall|s1: int, s2: int|
                    0 <= s1 < sorted_entries@.len() && 0 <= s2 < sorted_entries@.len() && s1
                        != s2 implies (#[trigger] sorted_entries@[s1]).1 != (
                    #[trigger] sorted_entries@[s2]).1 by {
                    let a1 = if s1 < p {
                        s1
                    } else {
                        s1 - 1
                    };
                    let a2 = if s2 < p {
                        s2
                    } else {
                        s2 - 1
                    };
                    if s1 == p && s2 == p {
                    } else if s1 == p {
                        assert(sorted_entries@[s2] == pre_sorted[a2]);
                        let j = choose|j: int| 0 <= j < i && pre_sorted[a2] == orig[j];
                        assert(orig[j].1 == 4 * j && orig[i as int].1 == 4 * i);
                    } else if s2 == p {
                        assert(sorted_entries@[s1] == pre_sorted[a1]);
                        let j = choose|j: int| 0 <= j < i && pre_sorted[a1] == orig[j];
                        assert(orig[j].1 == 4 * j && orig[i as int].1 == 4 * i);
                    } else {
                        assert(sorted_entries@[s1] == pre_sorted[a1]);
                        assert(sorted_entries@[s2] == pre_sorted[a2]);
                        assert(a1 != a2);
                    }
                }
            }
            i += 1;
        }
        proof {
            assert(orig.take(orig.len() as int) =~= orig);
        }
        let ghost ss = sorted_entries@;
        proof {
            assert forall|q: int| 0 <= q < ss.len() implies (#[trigger] ss[q]).1 + 4
                <= self.positions@.len() && ss[q].1 % 4 == 0 by {
                let j = choose|j: int| 0 <= j < orig.len() && ss[q] == orig[j];
                assert(orig[j].1 == 4 * j);
            }
        }
        let quads = sorted_entries.len();
        let ghost pre_positions = self.positions@;
        let mut zoff: i64 = 0;
        let mut k: usize = quads;
        proof {
            assert(spec_changes_from(ss, quads as int) == 0);
            assert(zoff == -spec_changes_from(ss, quads as int) * layer_offset)
                by (nonlinear_arith)
                requires
                    zoff == 0,
                    spec_changes_from(ss, quads as int) == 0,
            ;
        }
        while k > 0
            invariant
                0 <= k <= quads,
                quads == ss.len(),
                ss == sorted_entries@,
                spec_sorted_by_layer(ss),
                0 <= layer_offset <= FX_BOUND,
                quads <= 0x4000,
                forall|q: int|
                    0 <= q < ss.len() ==> (#[trigger] ss[q]).1 + 4 <= pre_positions.len()
                        && ss[q].1 % 4 == 0,
                forall|q1: int, q2: int|
                    0 <= q1 < ss.len() && 0 <= q2 < ss.len() && q1 != q2 ==> (#[trigger] ss[q1]).1
                        != (#[trigger] ss[q2]).1,
                self.positions@.len() == pre_positions.len(),
                self.normals@ == old(self).normals@,
                self.uv0@ == old(self).uv0@,
                self.uv1@ == old(self).uv1@,
                self.colors@ == old(self).colors@,
                self.indices@ == old(self).indices@,
                self.sort@ == old(self).sort@,
                zoff == -spec_changes_from(ss, k as int) * layer_offset,
                forall|i2: int|
                    0 <= i2 < pre_positions.len() ==> (#[trigger] self.positions@[i2]).x
                        == pre_positions[i2].x && self.positions@[i2].y == pre_positions[i2].y,
                forall|q: int, c: int|
                    k <= q < ss.len() && 0 <= c < 4 ==> #[trigger] self.positions@[ss[q].1 + c].z
                        == spec_quad_z(ss, q, layer_offset),
            decreases k,
        {
            k -= 1;
            let ghost changes_next = spec_changes_from(ss, k + 1);
            proof {
                lemma_changes_bound(ss, k + 1);
                assert(-(0x4000 * (FX_BOUND as int)) <= -changes_next * layer_offset <= 0)
                    by (nonlinear_arith)
                    requires
                        0 <= changes_next <= 0x4000,
                        0 <= layer_offset <= FX_BOUND,
                ;
            }
            let mut changed: bool = false;
            if k + 1 < quads {
                let a = sorted_entries[k];
                let b2 = sorted_entries[k + 1];
                if a.0.0 != b2.0.0 {
                    zoff = zoff - layer_offset;
                    changed = true;
                }
            }
            proof {
                assert(spec_changes_from(ss, k as int) == changes_next + (if changed {
                    1int
                } else {
                    0
                }));
                assert(zoff == -spec_changes_from(ss, k as int) * layer_offset)
                    by (nonlinear_arith)
                    requires
                        zoff == -changes_next * layer_offset + (if changed {
                            -(layer_offset as int)
                        } else {
                            0
                        }),
                        spec_changes_from(ss, k as int) == changes_next + (if changed {
                            1int
                        } else {
                            0
                        }),
                ;
            }
            let b = sorted_entries[k].1 as usize;
            let ghost before = self.positions@;
            let p0 = self.positions[b];
            self.positions.set(b, Fx3 { x: p0.x, y: p0.y, z: zoff });
            let p1 = self.positions[b + 1];
            self.positions.set(b + 1, Fx3 { x: p1.x, y: p1.y, z: zoff });
            let p2 = self.positions[b + 2];
            self.positions.set(b + 2, Fx3 { x: p2.x, y: p2.y, z: zoff });
            let p3 = self.positions[b + 3];
            self.positions.set(b + 3, Fx3 { x: p3.x, y: p3.y, z: zoff });
            proof {
                assert forall|q: int, c: int| k <= q < ss.len() && 0 <= c < 4 implies
                    #[trigger] self.positions@[ss[q].1 + c].z == spec_quad_z(
                    ss,
                    q,
                    layer_offset,
                ) by {
                    if q == k {
                    } else {
                        assert(ss[q].1 != ss[k as int].1);
                        assert(ss[q].1 % 4 == 0 && ss[k as int].1 % 4 == 0);
                        assert(ss[q].1 + c != b && ss[q].1 + c != b + 1 && ss[q].1 + c != b + 2
                            && ss[q].1 + c != b + 3);
                        assert(self.positions@[ss[q].1 + c] == before[ss[q].1 + c]);
                    }
                }
            }
        }
        self.indices.clear();
        let mut q: usize = 0;
        while q < quads
            invariant
                q <= quads,
                quads == ss.len(),
                ss == sorted_entries@,
                forall|q2: int|
                    0 <= q2 < ss.len() ==> (#[trigger] ss[q2]).1 + 4 <= pre_positions.len()
                        && ss[q2].1 % 4 == 0,
                pre_positions.len() <= 0x10000,
                self.positions@.len() == pre_positions.len(),
                self.indices@.len() == 6 * q,
                forall|q2: int|
                    0 <= q2 < q ==> {
                        let b = (#[trigger] ss[q2]).1;
                        &&& self.indices@[6 * q2] == b
                        &&& self.indices@[6 * q2 + 1] == b + 1
                        &&& self.indices@[6 * q2 + 2] == b + 2
                        &&& self.indices@[6 * q2 + 3] == b + 1
                        &&& self.indices@[6 * q2 + 4] == b + 3
                        &&& self.indices@[6 * q2 + 5] == b + 2
                    },
                self.normals@ == old(self).normals@,
                self.uv0@ == old(self).uv0@,
                self.uv1@ == old(self).uv1@,
                self.colors@ == old(self).colors@,
                self.sort@ == old(self).sort@,
                forall|i2: int|
                    0 <= i2 < pre_positions.len() ==> (#[trigger] self.positions@[i2]).x
                        == pre_positions[i2].x && self.positions@[i2].y == pre_positions[i2].y,
                forall|q2: int, c: int|
                    0 <= q2 < ss.len() && 0 <= c < 4 ==> #[trigger] self.positions@[ss[q2].1
                        + c].z == spec_quad_z(ss, q2, layer_offset),
            decreases quads - q,
        {
            let b = sorted_entries[q].1;
            self.indices.push(b);
            self.indices.push(b + 1);
            self.indices.push(b + 2);
            self.indices.push(b + 1);
            self.indices.push(b + 3);
            self.indices.push(b + 2);
            q += 1;
        }
        proof {
            assert forall|q1: int, q2: int|
                0 <= q1 < ss.len() && 0 <= q2 < ss.len() && (#[trigger] ss[q1]).0.0 < (
                #[trigger] ss[q2]).0.0 && layer_offset > 0 implies self.positions@[ss[q1].1
                as int].z < self.positions@[ss[q2].1 as int].z by {
                assert(q1 < q2) by {
                    if q2 <= q1 {
                        assert(ss[q2].0.0 <= ss[q1].0.0);
                    }
                }
                lemma_changes_mono(ss, q1, q2);
                assert(self.positions@[ss[q1].1 + 0].z == spec_quad_z(ss, q1, layer_offset));
                assert(self.positions@[ss[q2].1 + 0].z == spec_quad_z(ss, q2, layer_offset));
                assert(-spec_changes_from(ss, q1) * layer_offset < -spec_changes_from(ss, q2)
                    * layer_offset) by (nonlinear_arith)
                    requires
                        spec_changes_from(ss, q1) > spec_changes_from(ss, q2),
                        layer_offset > 0,
                ;
            }
        }
    }
}

} // verus!
