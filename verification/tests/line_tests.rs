use text3d_mesh::line::LineMetrics;
use text3d_mesh::{
    DrawType, LineMode, LineRun, SegmentStyle, ShapedGlyph, Text3dSegment,
};

const FX: i64 = 65536;

fn glyph(x: i64, w: i64, metadata: usize) -> ShapedGlyph {
    ShapedGlyph {
        x,
        y: 0,
        w,
        font_id: 1,
        glyph_id: 0,
        font_size: 16,
        start: 0,
        end: 1,
        metadata,
    }
}

fn underlined() -> (Text3dSegment, SegmentStyle) {
    (
        Text3dSegment::String(String::from("u")),
        SegmentStyle { underline: Some(true), ..SegmentStyle::default() },
    )
}

fn plain() -> (Text3dSegment, SegmentStyle) {
    (Text3dSegment::String(String::from("p")), SegmentStyle::default())
}

#[test]
fn select_picks_by_mode() {
    assert_eq!(LineMode::Underline.select(1, 2), 1);
    assert_eq!(LineMode::Strikethrough.select(1, 2), 2);
}

#[test]
fn from_draw_req_reads_the_mode() {
    let req = DrawType::Line(0, LineMode::Strikethrough);
    assert_eq!(LineMode::from_draw_req(req), LineMode::Strikethrough);
}

#[test]
fn validate_reads_the_matching_flag() {
    let style = SegmentStyle { underline: Some(true), ..SegmentStyle::default() };
    assert!(LineMode::Underline.validate(&style));
    assert!(!LineMode::Strikethrough.validate(&style));
}

#[test]
fn boundary_bisects_gaps_between_decorated_neighbors() {
    let glyphs = vec![glyph(0, 10 * FX, 0), glyph(12 * FX, 10 * FX, 1), glyph(24 * FX, 10 * FX, 2)];
    let segments = vec![underlined(), underlined(), underlined()];
    let (lo, hi) = LineMode::Underline.boundary(&glyphs, &segments, 1, 0);
    // Halfway into the two-unit gaps on either side.
    assert_eq!(lo, 11 * FX);
    assert_eq!(hi, 23 * FX);
}

#[test]
fn boundary_widens_by_stroke_at_run_edges() {
    let glyphs = vec![glyph(0, 10 * FX, 0), glyph(12 * FX, 10 * FX, 1)];
    let segments = vec![underlined(), plain()];
    // The right neighbor is undecorated, so the extent widens by half the
    // stroke instead of bisecting: stroke percent times size over 200.
    let (lo, hi) = LineMode::Underline.boundary(&glyphs, &segments, 0, 50);
    let half = 50 * 16 / 200;
    assert_eq!(lo, -half);
    assert_eq!(hi, 10 * FX + half);
}

#[test]
fn new_run_extends_over_equal_decoration() {
    let mut g0 = glyph(0, 10 * FX, 0);
    g0.start = 0;
    g0.end = 1;
    let mut g1 = glyph(12 * FX, 10 * FX, 1);
    g1.start = 1;
    g1.end = 2;
    let mut g2 = glyph(24 * FX, 10 * FX, 2);
    g2.start = 2;
    g2.end = 3;
    let glyphs = vec![g0, g1, g2];
    let segments = vec![underlined(), underlined(), plain()];
    let run = LineMode::Underline.new_run(FX, 0, &glyphs, &segments);
    assert_eq!(run.min_index, 0);
    assert_eq!(run.max_index, 2);
    assert_eq!(run.min_offset, 0);
    assert_eq!(run.max_offset, 22 * FX);
    assert_eq!(run.size, FX);
}

#[test]
fn line_run_contains_by_byte_range() {
    let run = LineRun { min_index: 2, max_index: 5, min_offset: 0, max_offset: 0, size: 0 };
    let mut g = glyph(0, 0, 0);
    g.start = 4;
    g.end = 6;
    assert!(run.contains(&g));
    g.start = 6;
    g.end = 8;
    assert!(!run.contains(&g));
    let never = LineRun::default();
    assert!(!never.contains(&g));
}

#[test]
fn line_rect_scales_font_metrics() {
    let metrics = LineMetrics { position: -100, thickness: 50, units_per_em: 1000 };
    let size = 20 * FX;
    let rect = LineMode::Underline.get_line_rect(metrics, size, 0, 10 * FX, 0);
    // position and thickness scale by size / units_per_em.
    let base = -100 * size / 1000;
    let height = 50 * size / 1000;
    assert_eq!(rect.min.x, 0);
    assert_eq!(rect.max.x, 10 * FX);
    assert_eq!(rect.min.y, base - height);
    assert_eq!(rect.max.y, base);
}

#[test]
fn thickness_scales_by_size() {
    let metrics = LineMetrics { position: -100, thickness: 50, units_per_em: 1000 };
    assert_eq!(LineMode::Underline.size(metrics, 20 * FX), 50 * 20 * FX / 1000);
}
