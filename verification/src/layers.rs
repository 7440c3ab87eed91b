//! Draw-request planning: which quads one styled glyph produces, in what
//! order, and on which depth layer each sits.
//!
//! Layers are bit flags combined into one tag; quads are later sorted by
//! tag and each distinct tag gets its own depth, so a larger tag draws in
//! front.  The shadow pass, when present, is emitted after the normal pass
//! and carries no high bit, putting every shadow behind every normal quad.

use vstd::prelude::*;

use crate::color::Color;
use crate::line::LineMode;
use crate::style::{SegmentStyle, SegmentStyleV, Text3dStyling, Text3dStylingV};

verus! {

/// A depth-layer tag: bit flags, combined with [`Layer::bitor`].  Quads
/// with a larger tag draw in front of quads with a smaller one.
#[derive(Clone, Copy, PartialEq, Eq, Structural, Debug)]
pub struct Layer(pub u8);

impl Layer {
    /// The normal (non-shadow) pass: in front of every shadow.
    pub fn no_shadow() -> (l: Layer)
        ensures
            l.0 == 0x80,
    {
        Layer(0x80)
    }

    /// Strikethrough decoration.
    pub fn strikethrough() -> (l: Layer)
        ensures
            l.0 == 0x4,
    {
        Layer(0x4)
    }

    /// Whichever of fill and stroke the style puts in front.
    pub fn higher() -> (l: Layer)
        ensures
            l.0 == 0x2,
    {
        Layer(0x2)
    }

    /// Underline decoration.
    pub fn underline() -> (l: Layer)
        ensures
            l.0 == 0x1,
    {
        Layer(0x1)
    }

    /// The empty tag.
    pub fn none() -> (l: Layer)
        ensures
            l.0 == 0,
    {
        Layer(0)
    }

    /// Combine two tags.
    pub fn bitor(self, rhs: Layer) -> (l: Layer)
        ensures
            l.0 == self.0 | rhs.0,
    {
        Layer(self.0 | rhs.0)
    }
}

/// What one draw request paints.  A stroke width of zero means a fill.
#[derive(Clone, Copy, PartialEq, Eq, Structural, Debug)]
pub enum DrawType {
    /// The glyph itself, filled or stroked.
    Glyph(u32),
    /// A decoration line, filled or stroked.
    Line(u32, LineMode),
}

/// One instruction to emit a quad for a glyph or decoration: its layer
/// tag, what to paint, the tint, and a positional offset in 16.16 fixed
/// point.  Produced fresh each pass and never persisted.
#[derive(Clone, Copy, PartialEq, Eq, Debug)]
pub struct DrawRequest {
    pub sort: Layer,
    pub request: DrawType,
    pub color: Color,
    pub offset: (i64, i64),
}

/// The requests of one glyph item within one pass: the glyph quad, then
/// its underline and strikethrough if the style asks for them.
pub open spec fn spec_item_requests(
    stroke: u32,
    color: Color,
    offset: (i64, i64),
    regular: u8,
    shadow: u8,
    underline: bool,
    strikethrough: bool,
) -> Seq<DrawRequest> {
    let glyph = seq![
        DrawRequest { sort: Layer(regular | shadow), request: DrawType::Glyph(stroke), color, offset },
    ];
    let with_u = if underline {
        glyph.push(
            DrawRequest {
                sort: Layer(regular | shadow | 0x1),
                request: DrawType::Line(stroke, LineMode::Underline),
                color,
                offset,
            },
        )
    } else {
        glyph
    };
    if strikethrough {
        with_u.push(
            DrawRequest {
                sort: Layer(regular | shadow | 0x4),
                request: DrawType::Line(stroke, LineMode::Strikethrough),
                color,
                offset,
            },
        )
    } else {
        with_u
    }
}

/// The requests of one pass (normal or shadow) over a resolved style.
pub open spec fn spec_pass_requests(
    base: Text3dStylingV,
    attrs: SegmentStyleV,
    shadow_color: Option<Color>,
    offset: (i64, i64),
    shadow: u8,
) -> Seq<DrawRequest> {
    let fill = match attrs.fill {
        Some(f) => f,
        None => base.fill,
    };
    let stroke = match attrs.stroke {
        Some(s) => Some(s),
        None => base.stroke,
    };
    let fill_color = match shadow_color {
        Some(c) => c,
        None => match attrs.fill_color {
            Some(c) => c,
            None => base.color,
        },
    };
    let stroke_color = match shadow_color {
        Some(c) => c,
        None => match attrs.stroke_color {
            Some(c) => c,
            None => base.stroke_color,
        },
    };
    let fill_layer: u8 = if base.stroke_in_front {
        0
    } else {
        0x2
    };
    let stroke_layer: u8 = if base.stroke_in_front {
        0x2
    } else {
        0
    };
    let underline = attrs.underline == Some(true);
    let strikethrough = attrs.strikethrough == Some(true);
    let fill_part = if fill {
        spec_item_requests(0, fill_color, offset, fill_layer, shadow, underline, strikethrough)
    } else {
        Seq::empty()
    };
    let stroke_part = match stroke {
        Some(s) => spec_item_requests(
            s,
            stroke_color,
            offset,
            stroke_layer,
            shadow,
            underline,
            strikethrough,
        ),
        None => Seq::empty(),
    };
    fill_part + stroke_part
}

/// Every request one styled glyph produces: the normal pass, then, when
/// the style has a shadow, the shadow pass behind it.
pub open spec fn spec_fill_draw_requests(base: Text3dStylingV, attrs: SegmentStyleV) -> Seq<
    DrawRequest,
> {
    match base.text_shadow {
        None => spec_pass_requests(base, attrs, None, (0, 0), 0),
        Some((color, offset)) => spec_pass_requests(base, attrs, None, (0, 0), 0x80)
            + spec_pass_requests(base, attrs, Some(color), offset, 0),
    }
}

/// Push the requests of one glyph item within one pass.
fn push_item_requests(
    requests: &mut Vec<DrawRequest>,
    stroke: u32,
    color: Color,
    offset: (i64, i64),
    regular: u8,
    shadow: u8,
    underline: bool,
    strikethrough: bool,
)
    ensures
        final(requests)@ == old(requests)@ + spec_item_requests(
            stroke,
            color,
            offset,
            regular,
            shadow,
            underline,
            strikethrough,
        ),
{
    requests.push(
        DrawRequest {
            sort: Layer(regular | shadow),
            request: DrawType::Glyph(stroke),
            color,
            offset,
        },
    );
    if underline {
        requests.push(
            DrawRequest {
                sort: Layer(regular | shadow | 0x1),
                request: DrawType::Line(stroke, LineMode::Underline),
                color,
                offset,
            },
        );
    }
    if strikethrough {
        requests.push(
            DrawRequest {
                sort: Layer(regular | shadow | 0x4),
                request: DrawType::Line(stroke, LineMode::Strikethrough),
                color,
                offset,
            },
        );
    }
    proof {
        assert(final(requests)@ =~= old(requests)@ + spec_item_requests(
            stroke,
            color,
            offset,
            regular,
            shadow,
            underline,
            strikethrough,
        ));
    }
}

/// Push the requests of one pass over a resolved style.
#[verifier::rlimit(60)]
fn push_pass_requests(
    requests: &mut Vec<DrawRequest>,
    base: &Text3dStyling,
    attrs: &SegmentStyle,
    shadow_color: Option<Color>,
    offset: (i64, i64),
    shadow: u8,
)
    ensures
        final(requests)@ == old(requests)@ + spec_pass_requests(
            base@,
            attrs@,
            shadow_color,
            offset,
            shadow,
        ),
{
    let fill = match attrs.fill {
        Some(f) => f,
        None => base.fill,
    };
    let stroke = match attrs.stroke {
        Some(s) => Some(s),
        None => base.stroke,
    };
    let fill_color = match shadow_color {
        Some(c) => c,
        None => match attrs.fill_color {
            Some(c) => c,
            None => base.color,
        },
    };
    let stroke_color = match shadow_color {
        Some(c) => c,
        None => match attrs.stroke_color {
            Some(c) => c,
            None => base.stroke_color,
        },
    };
    let fill_layer: u8 = if base.stroke_in_front {
        0
    } else {
        0x2
    };
    let stroke_layer: u8 = if base.stroke_in_front {
        0x2
    } else {
        0
    };
    let underline = attrs.underline == Some(true);
    let strikethrough = attrs.strikethrough == Some(true);
    if fill {
        push_item_requests(
            requests,
            0,
            fill_color,
            offset,
            fill_layer,
            shadow,
            underline,
            strikethrough,
        );
    }
    match stroke {
        Some(s) => {
            push_item_requests(
                requests,
                s,
                stroke_color,
                offset,
                stroke_layer,
                shadow,
                underline,
                strikethrough,
            );
        },
        None => {},
    }
    proof {
        assert(final(requests)@ =~= old(requests)@ + spec_pass_requests(
            base@,
            attrs@,
            shadow_color,
            offset,
            shadow,
        ));
    }
}

impl Text3dStyling {
    /// Plan every draw request for one glyph under a segment override:
    /// clears `requests` and fills it with the normal pass and, when a
    /// shadow is set, the shadow pass after it.
    pub fn fill_draw_requests(&self, attrs: &SegmentStyle, requests: &mut Vec<DrawRequest>)
        ensures
            final(requests)@ == spec_fill_draw_requests(self@, attrs@),
    {
        requests.clear();
        match self.text_shadow {
            None => {
                push_pass_requests(requests, self, attrs, None, (0, 0), 0);
            },
            Some((color, offset)) => {
                push_pass_requests(requests, self, attrs, None, (0, 0), 0x80);
                push_pass_requests(requests, self, attrs, Some(color), offset, 0);
            },
        }
        proof {
            assert(final(requests)@ =~= spec_fill_draw_requests(self@, attrs@));
        }
    }
}

/// The layer law for stroke order: when a style fills and strokes a glyph
/// and puts the stroke in front, the planned stroke request carries a
/// strictly larger layer tag than the fill request, in both the normal and
/// the shadow pass, so the depth assigned per tag draws the stroke on top.
pub proof fn lemma_stroke_in_front_layers(
    base: Text3dStylingV,
    attrs: SegmentStyleV,
    shadow_color: Option<Color>,
    offset: (i64, i64),
    shadow: u8,
)
    requires
        base.stroke_in_front,
        match attrs.fill {
            Some(f) => f,
            None => base.fill,
        },
        (match attrs.stroke {
            Some(s) => Some(s),
            None => base.stroke,
        }) is Some,
        shadow == 0 || shadow == 0x80,
    ensures
        ({
            let rs = spec_pass_requests(base, attrs, shadow_color, offset, shadow);
            let stroke_at = rs.len() - (if attrs.strikethrough == Some(true) {
                1int
            } else {
                0
            }) - (if attrs.underline == Some(true) {
                1int
            } else {
                0
            }) - 1;
            &&& rs.len() >= 2
            &&& rs[0].request is Glyph
            &&& rs[0].request->Glyph_0 == 0
            &&& rs[stroke_at].request is Glyph
            &&& rs[stroke_at].request->Glyph_0 == (match attrs.stroke {
                Some(s) => s,
                None => base.stroke->Some_0,
            })
            &&& rs[0].sort.0 < rs[stroke_at].sort.0
        }),
{
    assert((0u8 | 0u8) < (2u8 | 0u8) && (0u8 | 0x80u8) < (2u8 | 0x80u8)) by (bit_vector);
}

} // verus!
