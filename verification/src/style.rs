//! The style model: concrete block-level styling, sparse per-segment
//! overrides, the right-biased cascade (`join`) and its resolution against a
//! base style.

use vstd::prelude::*;

use crate::color::Color;
use crate::fx::FX_ONE;

verus! {

/// Font slant.
#[derive(Clone, Copy, PartialEq, Eq, Structural, Debug)]
pub enum Style {
    /// A face that is neither italic nor obliqued.
    Normal,
    /// A form that is generally cursive in nature.
    Italic,
    /// A typically-sloped version of the regular face.
    Oblique,
}

/// Weight of glyphs in the font: their degree of blackness or stroke
/// thickness, on the usual 100–900 scale.
#[derive(Clone, Copy, PartialEq, Eq, Structural, Debug, Hash)]
pub struct Weight(pub u16);

impl Weight {
    /// Thin weight (100), the thinnest value.
    pub fn thin() -> (w: Weight)
        ensures
            w.0 == 100,
    {
        Weight(100)
    }

    /// Light weight (300).
    pub fn light() -> (w: Weight)
        ensures
            w.0 == 300,
    {
        Weight(300)
    }

    /// Normal weight (400).
    pub fn normal() -> (w: Weight)
        ensures
            w.0 == 400,
    {
        Weight(400)
    }

    /// Medium weight (500).
    pub fn medium() -> (w: Weight)
        ensures
            w.0 == 500,
    {
        Weight(500)
    }

    /// Bold weight (700).
    pub fn bold() -> (w: Weight)
        ensures
            w.0 == 700,
    {
        Weight(700)
    }

    /// Black weight (900), the thickest value.
    pub fn black() -> (w: Weight)
        ensures
            w.0 == 900,
    {
        Weight(900)
    }
}

/// Horizontal alignment of text within its block.
#[derive(Clone, Copy, PartialEq, Eq, Structural, Debug)]
pub enum TextAlign {
    Left,
    Center,
    Right,
}

impl TextAlign {
    /// Alignment as a fraction of the line width, in 16.16 fixed point:
    /// 0 for left, one half for center, 1 for right.
    pub fn as_fac(&self) -> (f: i64)
        ensures
            f == match self {
                TextAlign::Left => 0,
                TextAlign::Center => FX_ONE as int / 2,
                TextAlign::Right => FX_ONE as int,
            },
    {
        match self {
            TextAlign::Left => 0,
            TextAlign::Center => FX_ONE / 2,
            TextAlign::Right => FX_ONE,
        }
    }
}

/// What kind of data a secondary-UV channel carries, per vertex.
#[derive(Clone, Copy, PartialEq, Eq, Structural, Debug)]
pub enum GlyphMeta {
    /// Left-to-right count of the glyph: 0, 1, and so on.
    Index,
    /// X position in em of a vertex, as if the text were one line.
    Advance,
    /// X position in em of the center of a glyph, as if the text were one line.
    PerGlyphAdvance,
    /// The horizontal position inside the block, as if it were a sprite.
    RowX,
    /// The vertical position inside the block, as if it were a sprite.
    ColY,
    /// The free-form numeric tag of the segment's style.
    MagicNumber,
}

/// Shape of stroke line joins.
#[derive(Clone, Copy, PartialEq, Eq, Structural, Debug, Hash)]
pub enum StrokeJoin {
    Round,
    Bevel,
    Miter,
}

/// The normalized point within a text block's bounding box treated as local
/// origin, usually within `(-1/2, -1/2)..=(1/2, 1/2)` in fixed point.
#[derive(Clone, Copy, PartialEq, Eq, Structural, Debug)]
pub struct TextAnchor {
    /// Horizontal anchor in 16.16 fixed point.
    pub x: i64,
    /// Vertical anchor in 16.16 fixed point.
    pub y: i64,
}

impl TextAnchor {
    pub fn new(x: i64, y: i64) -> (a: TextAnchor)
        ensures
            a == (TextAnchor { x, y }),
    {
        TextAnchor { x, y }
    }

    /// The center of the block.
    pub fn center() -> (a: TextAnchor)
        ensures
            a == (TextAnchor { x: 0, y: 0 }),
    {
        TextAnchor { x: 0, y: 0 }
    }
}

/// A sparse per-segment style override: every field optional, unset fields
/// fall through to the enclosing style.
#[derive(Debug)]
pub struct SegmentStyle {
    pub font: Option<String>,
    pub fill_color: Option<Color>,
    pub stroke_color: Option<Color>,
    pub fill: Option<bool>,
    /// Stroke width as a percentage of the font size; `s-0` clears it.
    pub stroke: Option<u32>,
    pub weight: Option<Weight>,
    pub style: Option<Style>,
    pub underline: Option<bool>,
    pub strikethrough: Option<bool>,
    /// Free-form numeric tag in 16.16 fixed point, readable through
    /// [`GlyphMeta::MagicNumber`].
    pub magic_number: Option<i64>,
}

/// The mathematical value of a [`SegmentStyle`]: the font name as a
/// character sequence, everything else as itself.
pub struct SegmentStyleV {
    pub font: Option<Seq<char>>,
    pub fill_color: Option<Color>,
    pub stroke_color: Option<Color>,
    pub fill: Option<bool>,
    pub stroke: Option<u32>,
    pub weight: Option<Weight>,
    pub style: Option<Style>,
    pub underline: Option<bool>,
    pub strikethrough: Option<bool>,
    pub magic_number: Option<i64>,
}

impl View for SegmentStyle {
    type V = SegmentStyleV;

    open spec fn view(&self) -> SegmentStyleV {
        SegmentStyleV {
            font: match self.font {
                Some(f) => Some(f@),
                None => None,
            },
            fill_color: self.fill_color,
            stroke_color: self.stroke_color,
            fill: self.fill,
            stroke: self.stroke,
            weight: self.weight,
            style: self.style,
            underline: self.underline,
            strikethrough: self.strikethrough,
            magic_number: self.magic_number,
        }
    }
}

/// The style with every field unset.
pub open spec fn spec_segment_style_empty() -> SegmentStyleV {
    SegmentStyleV {
        font: None,
        fill_color: None,
        stroke_color: None,
        fill: None,
        stroke: None,
        weight: None,
        style: None,
        underline: None,
        strikethrough: None,
        magic_number: None,
    }
}

impl Default for SegmentStyle {
    /// The style with every field unset.
    fn default() -> (r: SegmentStyle)
        ensures
            r@ == spec_segment_style_empty(),
    {
        SegmentStyle {
            font: None,
            fill_color: None,
            stroke_color: None,
            fill: None,
            stroke: None,
            weight: None,
            style: None,
            underline: None,
            strikethrough: None,
            magic_number: None,
        }
    }
}

impl Clone for SegmentStyle {
    fn clone(&self) -> (r: SegmentStyle)
        ensures
            r@ == self@,
    {
        SegmentStyle {
            font: match &self.font {
                Some(f) => Some(f.clone()),
                None => None,
            },
            fill_color: self.fill_color,
            stroke_color: self.stroke_color,
            fill: self.fill,
            stroke: self.stroke,
            weight: self.weight,
            style: self.style,
            underline: self.underline,
            strikethrough: self.strikethrough,
            magic_number: self.magic_number,
        }
    }
}

/// The mathematical value of a stack or list of segment styles.
pub open spec fn styles_view(v: Seq<SegmentStyle>) -> Seq<SegmentStyleV> {
    v.map_values(|s: SegmentStyle| s@)
}

/// Right-biased choice: the override when set, else the base.
pub open spec fn or_opt<T>(base: Option<T>, over: Option<T>) -> Option<T> {
    if over is Some {
        over
    } else {
        base
    }
}

/// Right-biased field-wise merge: every field of `over` that is set wins,
/// every unset field falls through to `base`.
pub open spec fn spec_join(base: SegmentStyleV, over: SegmentStyleV) -> SegmentStyleV {
    SegmentStyleV {
        font: or_opt(base.font, over.font),
        fill_color: or_opt(base.fill_color, over.fill_color),
        stroke_color: or_opt(base.stroke_color, over.stroke_color),
        fill: or_opt(base.fill, over.fill),
        stroke: or_opt(base.stroke, over.stroke),
        weight: or_opt(base.weight, over.weight),
        style: or_opt(base.style, over.style),
        underline: or_opt(base.underline, over.underline),
        strikethrough: or_opt(base.strikethrough, over.strikethrough),
        magic_number: or_opt(base.magic_number, over.magic_number),
    }
}

impl SegmentStyle {
    /// Merge `other` over `self`: each field takes `other`'s value when
    /// present, else `self`'s.
    pub fn join(&self, other: Self) -> (r: Self)
        ensures
            r@ == spec_join(self@, other@),
    {
        SegmentStyle {
            font: match other.font {
                Some(f) => Some(f),
                None => match &self.font {
                    Some(f) => Some(f.clone()),
                    None => None,
                },
            },
            fill_color: match other.fill_color {
                Some(c) => Some(c),
                None => self.fill_color,
            },
            stroke_color: match other.stroke_color {
                Some(c) => Some(c),
                None => self.stroke_color,
            },
            fill: match other.fill {
                Some(f) => Some(f),
                None => self.fill,
            },
            stroke: match other.stroke {
                Some(s) => Some(s),
                None => self.stroke,
            },
            weight: match other.weight {
                Some(w) => Some(w),
                None => self.weight,
            },
            style: match other.style {
                Some(s) => Some(s),
                None => self.style,
            },
            underline: match other.underline {
                Some(u) => Some(u),
                None => self.underline,
            },
            strikethrough: match other.strikethrough {
                Some(s) => Some(s),
                None => self.strikethrough,
            },
            magic_number: match other.magic_number {
                Some(m) => Some(m),
                None => self.magic_number,
            },
        }
    }
}

/// A chain of overrides folded onto a base, innermost last.
pub open spec fn spec_join_chain(base: SegmentStyleV, chain: Seq<SegmentStyleV>) -> SegmentStyleV
    decreases chain.len(),
{
    if chain.len() == 0 {
        base
    } else {
        spec_join_chain(spec_join(base, chain[0]), chain.drop_first())
    }
}

/// One optional field folded through a chain of overrides.
pub open spec fn fold_or<T>(base: Option<T>, chain: Seq<Option<T>>) -> Option<T>
    decreases chain.len(),
{
    if chain.len() == 0 {
        base
    } else {
        fold_or(or_opt(base, chain[0]), chain.drop_first())
    }
}

/// Joining a chain of overrides acts independently on every field: each
/// field of the result is that field's own fold through the chain.
pub proof fn lemma_join_chain_fields(base: SegmentStyleV, chain: Seq<SegmentStyleV>)
    ensures
        spec_join_chain(base, chain).font == fold_or(
            base.font,
            chain.map_values(|s: SegmentStyleV| s.font),
        ),
        spec_join_chain(base, chain).fill_color == fold_or(
            base.fill_color,
            chain.map_values(|s: SegmentStyleV| s.fill_color),
        ),
        spec_join_chain(base, chain).stroke_color == fold_or(
            base.stroke_color,
            chain.map_values(|s: SegmentStyleV| s.stroke_color),
        ),
        spec_join_chain(base, chain).fill == fold_or(
            base.fill,
            chain.map_values(|s: SegmentStyleV| s.fill),
        ),
        spec_join_chain(base, chain).stroke == fold_or(
            base.stroke,
            chain.map_values(|s: SegmentStyleV| s.stroke),
        ),
        spec_join_chain(base, chain).weight == fold_or(
            base.weight,
            chain.map_values(|s: SegmentStyleV| s.weight),
        ),
        spec_join_chain(base, chain).style == fold_or(
            base.style,
            chain.map_values(|s: SegmentStyleV| s.style),
        ),
        spec_join_chain(base, chain).underline == fold_or(
            base.underline,
            chain.map_values(|s: SegmentStyleV| s.underline),
        ),
        spec_join_chain(base, chain).strikethrough == fold_or(
            base.strikethrough,
            chain.map_values(|s: SegmentStyleV| s.strikethrough),
        ),
        spec_join_chain(base, chain).magic_number == fold_or(
            base.magic_number,
            chain.map_values(|s: SegmentStyleV| s.magic_number),
        ),
    decreases chain.len(),
{
    if chain.len() == 0 {
    } else {
        lemma_join_chain_fields(spec_join(base, chain[0]), chain.drop_first());
        assert(chain.map_values(|s: SegmentStyleV| s.font).drop_first() =~= chain.drop_first()
            .map_values(|s: SegmentStyleV| s.font));
        assert(chain.map_values(|s: SegmentStyleV| s.fill_color).drop_first() =~= chain.drop_first()
            .map_values(|s: SegmentStyleV| s.fill_color));
        assert(chain.map_values(|s: SegmentStyleV| s.stroke_color).drop_first()
            =~= chain.drop_first().map_values(|s: SegmentStyleV| s.stroke_color));
        assert(chain.map_values(|s: SegmentStyleV| s.fill).drop_first() =~= chain.drop_first()
            .map_values(|s: SegmentStyleV| s.fill));
        assert(chain.map_values(|s: SegmentStyleV| s.stroke).drop_first() =~= chain.drop_first()
            .map_values(|s: SegmentStyleV| s.stroke));
        assert(chain.map_values(|s: SegmentStyleV| s.weight).drop_first() =~= chain.drop_first()
            .map_values(|s: SegmentStyleV| s.weight));
        assert(chain.map_values(|s: SegmentStyleV| s.style).drop_first() =~= chain.drop_first()
            .map_values(|s: SegmentStyleV| s.style));
        assert(chain.map_values(|s: SegmentStyleV| s.underline).drop_first() =~= chain.drop_first()
            .map_values(|s: SegmentStyleV| s.underline));
        assert(chain.map_values(|s: SegmentStyleV| s.strikethrough).drop_first()
            =~= chain.drop_first().map_values(|s: SegmentStyleV| s.strikethrough));
        assert(chain.map_values(|s: SegmentStyleV| s.magic_number).drop_first()
            =~= chain.drop_first().map_values(|s: SegmentStyleV| s.magic_number));
    }
}

/// A field set by no override keeps the base's value through any chain.
pub proof fn lemma_fold_or_none<T>(base: Option<T>, chain: Seq<Option<T>>)
    requires
        forall|j: int| 0 <= j < chain.len() ==> chain[j] is None,
    ensures
        fold_or(base, chain) == base,
    decreases chain.len(),
{
    if chain.len() > 0 {
        lemma_fold_or_none(base, chain.drop_first());
    }
}

/// The innermost override that sets a field decides it: if `chain[i]` is
/// set and everything after `i` is unset, the fold yields `chain[i]`.
pub proof fn lemma_fold_or_last_set<T>(base: Option<T>, chain: Seq<Option<T>>, i: int)
    requires
        0 <= i < chain.len(),
        chain[i] is Some,
        forall|j: int| i < j < chain.len() ==> chain[j] is None,
    ensures
        fold_or(base, chain) == chain[i],
    decreases chain.len(),
{
    if i == 0 {
        assert forall|j: int| 0 <= j < chain.drop_first().len() implies chain.drop_first()[j]
            is None by {
            assert(chain.drop_first()[j] == chain[j + 1]);
        }
        lemma_fold_or_none(or_opt(base, chain[0]), chain.drop_first());
    } else {
        lemma_fold_or_last_set(or_opt(base, chain[0]), chain.drop_first(), i - 1);
    }
}

/// Concrete (non-optional) values for every stylable property of a text
/// block, plus block-level layout parameters.  All lengths and offsets are
/// in 16.16 fixed point.
#[derive(Debug)]
pub struct Text3dStyling {
    /// Size of the font, in world-space units.
    pub size: i64,
    /// Name of the font family; empty means the shaper's serif default.
    pub font: String,
    /// Slant of the font.
    pub style: Style,
    /// Weight of the font.
    pub weight: Weight,
    /// Horizontal alignment.
    pub align: TextAlign,
    /// Where local origin sits inside the block's bounding box.
    pub anchor: TextAnchor,
    /// Height of a line as a multiple of the font size.
    pub line_height: i64,
    /// Fill color.
    pub color: Color,
    /// Stroke color.
    pub stroke_color: Color,
    /// Whether glyph interiors are filled; unset makes hollow text.
    pub fill: bool,
    /// Stroke width as a percentage of the font size, when set.
    pub stroke: Option<u32>,
    /// If true, render the stroke in front of the fill.
    pub stroke_in_front: bool,
    /// Shape of stroke line joins.
    pub stroke_join: StrokeJoin,
    /// Depth distance between draw layers, such as stroke and fill.
    pub layer_offset: i64,
    /// What the two secondary-UV channels carry.
    pub uv1: (GlyphMeta, GlyphMeta),
    /// Tab width in spaces.
    pub tab_width: u16,
    /// When set, overrides the size of one em in the emitted mesh.
    pub world_scale: Option<(i64, i64)>,
    /// When set, a drop shadow: its color and offset.
    pub text_shadow: Option<(Color, (i64, i64))>,
}

/// The mathematical value of a [`Text3dStyling`].
pub struct Text3dStylingV {
    pub size: i64,
    pub font: Seq<char>,
    pub style: Style,
    pub weight: Weight,
    pub align: TextAlign,
    pub anchor: TextAnchor,
    pub line_height: i64,
    pub color: Color,
    pub stroke_color: Color,
    pub fill: bool,
    pub stroke: Option<u32>,
    pub stroke_in_front: bool,
    pub stroke_join: StrokeJoin,
    pub layer_offset: i64,
    pub uv1: (GlyphMeta, GlyphMeta),
    pub tab_width: u16,
    pub world_scale: Option<(i64, i64)>,
    pub text_shadow: Option<(Color, (i64, i64))>,
}

impl View for Text3dStyling {
    type V = Text3dStylingV;

    open spec fn view(&self) -> Text3dStylingV {
        Text3dStylingV {
            size: self.size,
            font: self.font@,
            style: self.style,
            weight: self.weight,
            align: self.align,
            anchor: self.anchor,
            line_height: self.line_height,
            color: self.color,
            stroke_color: self.stroke_color,
            fill: self.fill,
            stroke: self.stroke,
            stroke_in_front: self.stroke_in_front,
            stroke_join: self.stroke_join,
            layer_offset: self.layer_offset,
            uv1: self.uv1,
            tab_width: self.tab_width,
            world_scale: self.world_scale,
            text_shadow: self.text_shadow,
        }
    }
}

impl Default for Text3dStyling {
    /// White 16-unit serif text, centered anchor, line height 1, a small
    /// layer offset, glyph index and per-glyph advance on the secondary UVs.
    fn default() -> (r: Text3dStyling)
        ensures
            r@.size == 16 * FX_ONE,
            r@.font.len() == 0,
            r@.style == Style::Normal,
            r@.weight == Weight(400),
            r@.align == TextAlign::Left,
            r@.anchor == (TextAnchor { x: 0, y: 0 }),
            r@.line_height == FX_ONE,
            r@.color == (Color { red: 255, green: 255, blue: 255, alpha: 255 }),
            r@.stroke_color == (Color { red: 255, green: 255, blue: 255, alpha: 255 }),
            r@.fill == true,
            r@.stroke is None,
            r@.stroke_in_front == false,
            r@.stroke_join == StrokeJoin::Round,
            r@.layer_offset == FX_ONE as int / 100,
            r@.uv1 == (GlyphMeta::Index, GlyphMeta::PerGlyphAdvance),
            r@.tab_width == 4,
            r@.world_scale is None,
            r@.text_shadow is None,
    {
        Text3dStyling {
            size: 16 * FX_ONE,
            font: String::new(),
            style: Style::Normal,
            weight: Weight(400),
            align: TextAlign::Left,
            anchor: TextAnchor { x: 0, y: 0 },
            line_height: FX_ONE,
            color: Color { red: 255, green: 255, blue: 255, alpha: 255 },
            stroke_color: Color { red: 255, green: 255, blue: 255, alpha: 255 },
            fill: true,
            stroke: None,
            stroke_in_front: false,
            stroke_join: StrokeJoin::Round,
            layer_offset: FX_ONE / 100,
            uv1: (GlyphMeta::Index, GlyphMeta::PerGlyphAdvance),
            tab_width: 4,
            world_scale: None,
            text_shadow: None,
        }
    }
}

/// Every stylable property of one glyph run, with every gap filled from the
/// block's base style.
#[derive(Debug)]
pub struct ResolvedStyle {
    pub font: String,
    pub fill_color: Color,
    pub stroke_color: Color,
    pub fill: bool,
    pub stroke: Option<u32>,
    pub weight: Weight,
    pub style: Style,
    pub underline: bool,
    pub strikethrough: bool,
    pub magic_number: i64,
}

impl Text3dStyling {
    /// Resolve a segment override against this base style: each property
    /// takes the override's value when set, else the base's; decorations
    /// default off and the numeric tag to zero.
    pub fn resolve_effective(&self, segment: &SegmentStyle) -> (r: ResolvedStyle)
        ensures
            r.font@ == match segment@.font {
                Some(f) => f,
                None => self@.font,
            },
            r.fill_color == match segment@.fill_color {
                Some(c) => c,
                None => self@.color,
            },
            r.stroke_color == match segment@.stroke_color {
                Some(c) => c,
                None => self@.stroke_color,
            },
            r.fill == match segment@.fill {
                Some(f) => f,
                None => self@.fill,
            },
            r.stroke == match segment@.stroke {
                Some(s) => Some(s),
                None => self@.stroke,
            },
            r.weight == match segment@.weight {
                Some(w) => w,
                None => self@.weight,
            },
            r.style == match segment@.style {
                Some(s) => s,
                None => self@.style,
            },
            r.underline == match segment@.underline {
                Some(u) => u,
                None => false,
            },
            r.strikethrough == match segment@.strikethrough {
                Some(s) => s,
                None => false,
            },
            r.magic_number == match segment@.magic_number {
                Some(m) => m,
                None => 0,
            },
    {
        ResolvedStyle {
            font: match &segment.font {
                Some(f) => f.clone(),
                None => self.font.clone(),
            },
            fill_color: match segment.fill_color {
                Some(c) => c,
                None => self.color,
            },
            stroke_color: match segment.stroke_color {
                Some(c) => c,
                None => self.stroke_color,
            },
            fill: match segment.fill {
                Some(f) => f,
                None => self.fill,
            },
            stroke: match segment.stroke {
                Some(s) => Some(s),
                None => self.stroke,
            },
            weight: match segment.weight {
                Some(w) => w,
                None => self.weight,
            },
            style: match segment.style {
                Some(s) => s,
                None => self.style,
            },
            underline: match segment.underline {
                Some(u) => u,
                None => false,
            },
            strikethrough: match segment.strikethrough {
                Some(s) => s,
                None => false,
            },
            magic_number: match segment.magic_number {
                Some(m) => m,
                None => 0,
            },
        }
    }
}

} // verus!
