use text3d_mesh::color::parse_color;
use text3d_mesh::{Color, SegmentStyle, Text3dStyling, Weight};

#[test]
fn join_is_right_biased() {
    let base = SegmentStyle {
        fill_color: Some(Color { red: 1, green: 2, blue: 3, alpha: 255 }),
        stroke: Some(4),
        ..SegmentStyle::default()
    };
    let over = SegmentStyle {
        fill_color: Some(Color { red: 9, green: 9, blue: 9, alpha: 255 }),
        underline: Some(true),
        ..SegmentStyle::default()
    };
    let joined = base.join(over);
    // The override's set field wins; its unset fields fall through.
    assert_eq!(joined.fill_color, Some(Color { red: 9, green: 9, blue: 9, alpha: 255 }));
    assert_eq!(joined.stroke, Some(4));
    assert_eq!(joined.underline, Some(true));
    assert!(joined.weight.is_none());
}

#[test]
fn join_chain_innermost_wins() {
    let base = SegmentStyle { magic_number: Some(1), ..SegmentStyle::default() };
    let mid = SegmentStyle { magic_number: Some(2), weight: Some(Weight(700)), ..SegmentStyle::default() };
    let inner = SegmentStyle { magic_number: Some(3), ..SegmentStyle::default() };
    let joined = base.join(mid).join(inner);
    assert_eq!(joined.magic_number, Some(3));
    assert_eq!(joined.weight, Some(Weight(700)));
}

#[test]
fn resolve_effective_fills_gaps_from_base() {
    let base = Text3dStyling::default();
    let seg = SegmentStyle {
        stroke: Some(7),
        strikethrough: Some(true),
        ..SegmentStyle::default()
    };
    let resolved = base.resolve_effective(&seg);
    assert_eq!(resolved.stroke, Some(7));
    assert!(resolved.strikethrough);
    assert!(!resolved.underline);
    assert_eq!(resolved.weight, Weight(400));
    assert_eq!(resolved.fill_color, Color { red: 255, green: 255, blue: 255, alpha: 255 });
    assert_eq!(resolved.magic_number, 0);
}

#[test]
fn hex_colors_parse() {
    assert_eq!(
        parse_color("#abc"),
        Some(Color { red: 0xaa, green: 0xbb, blue: 0xcc, alpha: 255 }),
    );
    assert_eq!(
        parse_color("#abcd"),
        Some(Color { red: 0xaa, green: 0xbb, blue: 0xcc, alpha: 0xdd }),
    );
    assert_eq!(
        parse_color("#12345678"),
        Some(Color { red: 0x12, green: 0x34, blue: 0x56, alpha: 0x78 }),
    );
    assert_eq!(
        parse_color("#FF8000"),
        Some(Color { red: 255, green: 128, blue: 0, alpha: 255 }),
    );
    assert_eq!(parse_color("#ab"), None);
    assert_eq!(parse_color("#xyz"), None);
}

#[test]
fn named_colors_parse() {
    assert_eq!(parse_color("red"), Some(Color { red: 255, green: 0, blue: 0, alpha: 255 }));
    assert_eq!(parse_color("teal"), Some(Color { red: 0, green: 0x80, blue: 0x80, alpha: 255 }));
    assert_eq!(
        parse_color("transparent"),
        Some(Color { red: 0, green: 0, blue: 0, alpha: 0 }),
    );
    assert_eq!(parse_color("Red"), None);
    assert_eq!(parse_color("not-a-color"), None);
}

#[test]
fn default_styling_values() {
    let s = Text3dStyling::default();
    assert_eq!(s.size, 16 << 16);
    assert_eq!(s.weight, Weight(400));
    assert!(s.fill);
    assert!(s.stroke.is_none());
    assert!(!s.stroke_in_front);
    assert_eq!(s.tab_width, 4);
}
