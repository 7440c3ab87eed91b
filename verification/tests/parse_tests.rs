use text3d_mesh::{ParseError, SegmentStyle, Text3d, Text3dSegment, Weight};

fn single_string(doc: &Text3d) -> (&str, &SegmentStyle) {
    assert_eq!(doc.segments.len(), 1);
    match &doc.segments[0].0 {
        Text3dSegment::String(s) => (s.as_str(), &doc.segments[0].1),
        Text3dSegment::Extract(_) => panic!("expected an owned segment"),
    }
}

#[test]
fn escaped_stars_stay_literal() {
    let doc = Text3d::parse_raw("\\*\\*literal\\*\\*").unwrap();
    let (text, style) = single_string(&doc);
    assert_eq!(text, "**literal**");
    assert!(style.weight.is_none());
    assert!(style.style.is_none());
}

#[test]
fn missing_close_bracket_is_rejected() {
    let r = Text3d::parse_raw("{red:text");
    assert!(matches!(r, Err(ParseError::BracketMismatch)));
}

#[test]
fn stray_close_bracket_is_rejected() {
    let r = Text3d::parse_raw("text}");
    assert!(matches!(r, Err(ParseError::BracketMismatch)));
}

#[test]
fn bold_markdown_splits_segments() {
    let doc = Text3d::parse_raw("Hello **World**!").unwrap();
    assert_eq!(doc.segments.len(), 3);
    match &doc.segments[0].0 {
        Text3dSegment::String(s) => assert_eq!(s, "Hello "),
        _ => panic!(),
    }
    assert!(doc.segments[0].1.weight.is_none());
    match &doc.segments[1].0 {
        Text3dSegment::String(s) => assert_eq!(s, "World"),
        _ => panic!(),
    }
    assert_eq!(doc.segments[1].1.weight, Some(Weight(700)));
    match &doc.segments[2].0 {
        Text3dSegment::String(s) => assert_eq!(s, "!"),
        _ => panic!(),
    }
    // The second toggle lands back on normal weight, now written out.
    assert_eq!(doc.segments[2].1.weight, Some(Weight(400)));
}

#[test]
fn nested_commands_chain_styles() {
    let doc = Text3d::parse_raw("{red:{s-4:X}}").unwrap();
    let (text, style) = single_string(&doc);
    assert_eq!(text, "X");
    let fill = style.fill_color.expect("fill color set");
    assert_eq!((fill.red, fill.green, fill.blue, fill.alpha), (255, 0, 0, 255));
    assert_eq!(style.stroke, Some(4));
}

#[test]
fn comma_chained_commands_join() {
    let doc = Text3d::parse_raw("{red, s-4: X}").unwrap();
    let (text, style) = single_string(&doc);
    assert_eq!(text, " X");
    assert_eq!(style.stroke, Some(4));
    let fill = style.fill_color.expect("fill color set");
    assert_eq!((fill.red, fill.green, fill.blue), (255, 0, 0));
}

#[test]
fn zero_stroke_clears_nothing() {
    let doc = Text3d::parse_raw("{s-0:X}").unwrap();
    let (_, style) = single_string(&doc);
    assert!(style.stroke.is_none());
}

#[test]
fn stroke_color_command() {
    let doc = Text3d::parse_raw("{s-blue:X}").unwrap();
    let (_, style) = single_string(&doc);
    let sc = style.stroke_color.expect("stroke color set");
    assert_eq!((sc.red, sc.green, sc.blue), (0, 0, 255));
    assert!(style.stroke.is_none());
}

#[test]
fn magic_number_command_is_fixed_point() {
    let doc = Text3d::parse_raw("{v-1.5:X}").unwrap();
    let (_, style) = single_string(&doc);
    assert_eq!(style.magic_number, Some(98304));
}

#[test]
fn negative_magic_number() {
    let doc = Text3d::parse_raw("{v--0.5:X}").unwrap();
    let (_, style) = single_string(&doc);
    assert_eq!(style.magic_number, Some(-32768));
}

#[test]
fn image_command_is_reserved() {
    let r = Text3d::parse_raw("{image:foo}");
    assert!(matches!(r, Err(ParseError::NotSupported(_))));
}

#[test]
fn dynamic_value_is_rejected_without_resolver() {
    let r = Text3d::parse_raw("{ value }");
    match r {
        Err(ParseError::BadCommand(s)) => assert_eq!(s, "value"),
        _ => panic!("expected a bad command"),
    }
}

#[test]
fn unknown_style_is_rejected_without_resolver() {
    let r = Text3d::parse_raw("{sparkly:X}");
    match r {
        Err(ParseError::MissingStyle(s)) => assert_eq!(s, "sparkly"),
        _ => panic!("expected a missing style"),
    }
}

#[test]
fn whitespace_collapses_to_one_space() {
    let doc = Text3d::parse_raw("a   \t b").unwrap();
    let (text, _) = single_string(&doc);
    assert_eq!(text, "a b");
}

#[test]
fn newlines_survive_collapsing() {
    let doc = Text3d::parse_raw("a \n\n b").unwrap();
    let (text, _) = single_string(&doc);
    assert_eq!(text, "a\n\nb");
}

#[test]
fn single_star_toggles_italic() {
    let doc = Text3d::parse_raw("a*b*c").unwrap();
    assert_eq!(doc.segments.len(), 3);
    assert!(doc.segments[0].1.style.is_none());
    assert_eq!(doc.segments[1].1.style, Some(text3d_mesh::Style::Italic));
    assert_eq!(doc.segments[2].1.style, Some(text3d_mesh::Style::Normal));
}

#[test]
fn even_star_run_is_noop() {
    let doc = Text3d::parse_raw("a****b").unwrap();
    assert_eq!(doc.segments.len(), 2);
    assert!(doc.segments[1].1.style.is_none());
    assert!(doc.segments[1].1.weight.is_none());
}

#[test]
fn triple_star_toggles_both() {
    let doc = Text3d::parse_raw("***b***").unwrap();
    assert_eq!(doc.segments.len(), 1);
    assert_eq!(doc.segments[0].1.weight, Some(Weight(700)));
    assert_eq!(doc.segments[0].1.style, Some(text3d_mesh::Style::Italic));
}

#[test]
fn closing_scope_restores_style() {
    let doc = Text3d::parse_raw("{red:a}b").unwrap();
    assert_eq!(doc.segments.len(), 2);
    assert!(doc.segments[0].1.fill_color.is_some());
    assert!(doc.segments[1].1.fill_color.is_none());
}

#[test]
fn empty_input_is_empty_document() {
    let doc = Text3d::parse_raw("").unwrap();
    assert_eq!(doc.segments.len(), 0);
}

#[test]
fn document_accessors() {
    let mut doc = Text3d::new(String::from("hi"));
    assert_eq!(doc.get_single().map(|s| s.as_str()), Some("hi"));
    if let Some(s) = doc.get_single_mut() {
        s.push('!');
    }
    assert_eq!(doc.get_single().map(|s| s.as_str()), Some("hi!"));
    let ext = Text3d::from_extract(7);
    assert!(ext.get_single().is_none());
}

#[test]
fn error_messages() {
    assert_eq!(ParseError::BracketMismatch.message(), "Bracket mismatch.");
    assert_eq!(
        ParseError::BadCommand(String::from("foo")).message(),
        "Bad command: foo",
    );
    assert_eq!(
        ParseError::MissingStyle(String::from("glow")).message(),
        "Style glow missing.",
    );
    assert_eq!(
        ParseError::NotSupported("image").message(),
        "Feature image is not supported.",
    );
    assert_eq!(ParseError::Custom(String::from("boom")).message(), "boom");
}
