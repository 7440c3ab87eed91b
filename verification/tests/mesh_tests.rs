use text3d_mesh::mesh::{Fx2, FxRect, MeshAssembler};
use text3d_mesh::{Color, DrawRequest, DrawType, SegmentStyle, Text3dStyling};

const FX: i64 = 65536;

fn rect(x0: i64, y0: i64, x1: i64, y1: i64) -> FxRect {
    FxRect { min: Fx2 { x: x0, y: y0 }, max: Fx2 { x: x1, y: y1 } }
}

fn white() -> Color {
    Color { red: 255, green: 255, blue: 255, alpha: 255 }
}

#[test]
fn quads_are_multiples_of_four_and_six() {
    let styling = Text3dStyling::default();
    let mut mesh = MeshAssembler::new();
    for i in 0..5usize {
        mesh.cache_rectangle2(
            rect(0, 0, FX, FX),
            rect(0, 0, 8 * FX, 8 * FX),
            white(),
            text3d_mesh::Layer(0),
            i,
            0,
            0,
            &styling,
        );
    }
    mesh.finish(styling.layer_offset);
    assert_eq!(mesh.positions.len(), 20);
    assert_eq!(mesh.positions.len() % 4, 0);
    assert_eq!(mesh.indices.len(), 30);
    assert_eq!(mesh.indices.len() % 6, 0);
    assert_eq!(mesh.normals.len(), 20);
    assert_eq!(mesh.uv0.len(), 20);
    assert_eq!(mesh.uv1.len(), 20);
    assert_eq!(mesh.colors.len(), 20);
}

#[test]
fn empty_block_emits_placeholder() {
    let styling = Text3dStyling::default();
    let mut mesh = MeshAssembler::new();
    mesh.finish(styling.layer_offset);
    assert_eq!(mesh.positions.len(), 3);
    assert_eq!(mesh.indices, vec![0u16, 1, 2]);
}

#[test]
fn quad_corners_and_indices() {
    let styling = Text3dStyling::default();
    let mut mesh = MeshAssembler::new();
    mesh.cache_rectangle2(
        rect(FX, 2 * FX, 3 * FX, 5 * FX),
        rect(0, 0, 4 * FX, 4 * FX),
        white(),
        text3d_mesh::Layer(0),
        0,
        0,
        0,
        &styling,
    );
    mesh.finish(0);
    assert_eq!((mesh.positions[0].x, mesh.positions[0].y), (FX, 2 * FX));
    assert_eq!((mesh.positions[1].x, mesh.positions[1].y), (3 * FX, 2 * FX));
    assert_eq!((mesh.positions[2].x, mesh.positions[2].y), (FX, 5 * FX));
    assert_eq!((mesh.positions[3].x, mesh.positions[3].y), (3 * FX, 5 * FX));
    assert_eq!(mesh.indices, vec![0u16, 1, 2, 1, 3, 2]);
}

#[test]
fn stroke_in_front_draws_on_top() {
    // A glyph with both fill and stroke, stroke in front: the stroke quad's
    // layer tag sorts after the fill quad's, and its assigned depth ends in
    // front once the block is finished.
    let mut styling = Text3dStyling::default();
    styling.stroke = Some(4);
    styling.stroke_in_front = true;
    let attrs = SegmentStyle::default();
    let mut requests: Vec<DrawRequest> = Vec::new();
    styling.fill_draw_requests(&attrs, &mut requests);
    assert_eq!(requests.len(), 2);
    assert!(matches!(requests[0].request, DrawType::Glyph(0)));
    assert!(matches!(requests[1].request, DrawType::Glyph(4)));
    assert!(requests[0].sort.0 < requests[1].sort.0);

    let mut mesh = MeshAssembler::new();
    for (i, req) in requests.iter().enumerate() {
        mesh.cache_rectangle2(
            rect(0, 0, FX, FX),
            rect(0, 0, 8 * FX, 8 * FX),
            req.color,
            req.sort,
            i,
            0,
            0,
            &styling,
        );
    }
    mesh.finish(styling.layer_offset);
    let fill_z = mesh.positions[0].z;
    let stroke_z = mesh.positions[4].z;
    assert!(stroke_z > fill_z);
    // The front-most layer sits at depth zero.
    assert_eq!(stroke_z, 0);
    assert_eq!(fill_z, -styling.layer_offset);
}

#[test]
fn shadow_pass_sits_behind() {
    let mut styling = Text3dStyling::default();
    styling.text_shadow = Some((Color { red: 0, green: 0, blue: 0, alpha: 128 }, (FX / 2, -FX / 2)));
    let attrs = SegmentStyle::default();
    let mut requests: Vec<DrawRequest> = Vec::new();
    styling.fill_draw_requests(&attrs, &mut requests);
    assert_eq!(requests.len(), 2);
    // The normal pass comes first and carries the high bit; the shadow
    // carries the offset and the shadow color.
    assert!(requests[0].sort.0 > requests[1].sort.0);
    assert_eq!(requests[1].offset, (FX / 2, -FX / 2));
    assert_eq!(requests[1].color.alpha, 128);
}

#[test]
fn underline_request_is_emitted() {
    let styling = Text3dStyling::default();
    let attrs = SegmentStyle { underline: Some(true), ..SegmentStyle::default() };
    let mut requests: Vec<DrawRequest> = Vec::new();
    styling.fill_draw_requests(&attrs, &mut requests);
    assert_eq!(requests.len(), 2);
    assert!(matches!(requests[1].request, DrawType::Line(0, text3d_mesh::LineMode::Underline)));
    assert_eq!(requests[1].sort.0, requests[0].sort.0 | 1);
}

#[test]
fn uv1_carries_index_and_center_advance() {
    // The default channels are glyph index and per-glyph advance.
    let styling = Text3dStyling::default();
    let mut mesh = MeshAssembler::new();
    mesh.cache_rectangle2(
        rect(0, 0, 2 * FX, FX),
        rect(0, 0, 4 * FX, 4 * FX),
        white(),
        text3d_mesh::Layer(0),
        3,
        32 * FX,
        0,
        &styling,
    );
    // Index channel: the glyph count as a fixed-point number.
    assert_eq!(mesh.uv1[0].x, 3 * FX);
    // Center advance: (advance + width / 2) / size em.
    assert_eq!(mesh.uv1[0].y, (32 * FX + FX) / 16);
    assert_eq!(mesh.uv1[0].y, mesh.uv1[1].y);
}

#[test]
fn pixel_to_uv_divides_by_dimensions() {
    let styling = Text3dStyling::default();
    let mut mesh = MeshAssembler::new();
    mesh.cache_rectangle2(
        rect(0, 0, FX, FX),
        rect(16 * FX, 32 * FX, 24 * FX, 48 * FX),
        white(),
        text3d_mesh::Layer(0),
        0,
        0,
        0,
        &styling,
    );
    mesh.finish(0);
    mesh.pixel_to_uv(64, 64);
    assert_eq!(mesh.uv0[0].x, 16 * FX / 64);
    assert_eq!(mesh.uv0[0].y, 32 * FX / 64);
    assert_eq!(mesh.uv0[3].x, 24 * FX / 64);
    assert_eq!(mesh.uv0[3].y, 48 * FX / 64);
}

#[test]
fn translate_moves_in_plane_only() {
    let styling = Text3dStyling::default();
    let mut mesh = MeshAssembler::new();
    mesh.cache_rectangle2(
        rect(0, 0, FX, FX),
        rect(0, 0, FX, FX),
        white(),
        text3d_mesh::Layer(0),
        0,
        0,
        0,
        &styling,
    );
    mesh.translate(Fx2 { x: 5 * FX, y: -2 * FX });
    assert_eq!((mesh.positions[0].x, mesh.positions[0].y), (5 * FX, -2 * FX));
    assert_eq!((mesh.positions[3].x, mesh.positions[3].y), (6 * FX, -FX));
    assert_eq!(mesh.positions[0].z, 0);
}
