use text3d_mesh::atlas::{empty_image, TextAtlas};
use text3d_mesh::fx::{fx_div, fx_mul, fx_mul_div};
use text3d_mesh::mesh::{Fx2, MeshAssembler};
use text3d_mesh::render::{
    align_offset, anchor_translation, block_bounds, finish_block, glyph_entry_for, glyph_quad_base,
    pixel_rect_fx,
};
use text3d_mesh::{
    FetchedTextSegment, GlyphTextureOf, SegmentStyle, ShapedGlyph, Text3dStyling, TextAlign,
    Weight,
};

const FX: i64 = 65536;

#[test]
fn fixed_point_rounds_toward_zero() {
    assert_eq!(fx_mul(3 * FX, FX / 2), 3 * FX / 2);
    assert_eq!(fx_mul(-3 * FX, FX / 2), -(3 * FX / 2));
    assert_eq!(fx_div(FX, 2 * FX), FX / 2);
    assert_eq!(fx_div(-3 * FX, 2 * FX), -(3 * FX / 2));
    assert_eq!(fx_mul_div(10 * FX, 3, 4), 10 * FX * 3 / 4);
    assert_eq!(fx_mul_div(-7, 3, 2), -10);
}

#[test]
fn alignment_fractions() {
    assert_eq!(align_offset(TextAlign::Left, 10 * FX), 0);
    assert_eq!(align_offset(TextAlign::Center, 10 * FX), -5 * FX);
    assert_eq!(align_offset(TextAlign::Right, 10 * FX), -10 * FX);
}

#[test]
fn glyph_entry_prefers_segment_weight() {
    let glyph = ShapedGlyph {
        x: 0,
        y: 0,
        w: 0,
        font_id: 3,
        glyph_id: 42,
        font_size: 16,
        start: 0,
        end: 0,
        metadata: 0,
    };
    let styling = Text3dStyling::default();
    let attrs = SegmentStyle { weight: Some(Weight(700)), ..SegmentStyle::default() };
    let e = glyph_entry_for(&glyph, &styling, &attrs, 5);
    assert_eq!(e.font, 3);
    assert_eq!(e.glyph_id, GlyphTextureOf::Id(42));
    assert_eq!(e.weight, Weight(700));
    assert_eq!(e.stroke, 5);
}

#[test]
fn quad_base_combines_offsets() {
    let glyph = ShapedGlyph {
        x: 10 * FX,
        y: FX,
        w: 0,
        font_id: 0,
        glyph_id: 0,
        font_size: 16,
        start: 0,
        end: 0,
        metadata: 0,
    };
    let b = glyph_quad_base(&glyph, (FX, -FX), (2 * FX, 0), -3 * FX, 5 * FX);
    assert_eq!(b.x, 10 * FX + FX + 2 * FX - 3 * FX);
    assert_eq!(b.y, FX - FX - 5 * FX);
}

#[test]
fn pixel_rects_scale_to_fixed_point() {
    let r = pixel_rect_fx(text3d_mesh::URect { x: 2, y: 3, w: 4, h: 5 });
    assert_eq!(r.min.x, 2 * FX);
    assert_eq!(r.max.y, 8 * FX);
}

#[test]
fn block_bounds_fall_back_on_empty() {
    let (dim, center, bb_min) = block_bounds(0, -1, 0);
    assert!(dim.x > 0);
    assert_eq!(dim.y, 0);
    assert_eq!(center.y, 0);
    assert_eq!(bb_min.x, 0);
    let (dim, center, bb_min) = block_bounds(2 * FX, 10 * FX, 4 * FX);
    assert_eq!(dim.x, 8 * FX);
    assert_eq!(center.x, 6 * FX);
    assert_eq!(center.y, -2 * FX);
    assert_eq!(bb_min.y, -4 * FX);
}

#[test]
fn anchor_lands_at_origin() {
    let dim = Fx2 { x: 10 * FX, y: 4 * FX };
    let center = Fx2 { x: 5 * FX, y: -2 * FX };
    // A centered anchor translates by minus the center.
    let t = anchor_translation(0, 0, dim, center);
    assert_eq!((t.x, t.y), (-5 * FX, 2 * FX));
    // A half-anchor adds half the dimension.
    let t = anchor_translation(FX / 2, FX / 2, dim, center);
    assert_eq!((t.x, t.y), (0, 4 * FX));
}

#[test]
fn finish_block_runs_whole_pipeline() {
    let styling = Text3dStyling::default();
    let mut atlas = TextAtlas::new();
    let mut img = empty_image(64, 64);
    let alpha: Vec<u8> = vec![128; 64];
    let entry = glyph_entry_for(
        &ShapedGlyph {
            x: 0,
            y: 0,
            w: 8 * FX,
            font_id: 1,
            glyph_id: 7,
            font_size: 16,
            start: 0,
            end: 1,
            metadata: 0,
        },
        &styling,
        &SegmentStyle::default(),
        0,
    );
    let rect = atlas.cache(&mut img, entry, (0, 0), 8, 8, &alpha).unwrap();
    let mut mesh = MeshAssembler::new();
    mesh.cache_rectangle(
        Fx2 { x: 0, y: 0 },
        pixel_rect_fx(rect),
        text3d_mesh::Color { red: 255, green: 255, blue: 255, alpha: 255 },
        FX,
        text3d_mesh::Layer(0),
        0,
        0,
        0,
        &styling,
    );
    let dim = finish_block(&mut mesh, &styling, 0, 8 * FX, 16 * FX, img.width, img.height);
    assert_eq!(dim.y, 16 * FX);
    assert_eq!(mesh.positions.len(), 4);
    assert_eq!(mesh.indices.len(), 6);
    // Texture coordinates were normalized to the unit square.
    for uv in &mesh.uv0 {
        assert!(0 <= uv.x && uv.x <= FX);
        assert!(0 <= uv.y && uv.y <= FX);
    }
}

#[test]
fn fetched_segment_changes_only_on_new_text() {
    let mut seg = FetchedTextSegment::empty();
    assert_eq!(seg.as_str(), "");
    assert!(seg.set_if_changed("score: 3"));
    assert!(!seg.set_if_changed("score: 3"));
    assert!(seg.set_if_changed("score: 4"));
    assert_eq!(seg.as_str(), "score: 4");
}
