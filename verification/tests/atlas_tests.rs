use text3d_mesh::atlas::{empty_image, GlyphEntry, GlyphTextureOf, TextAtlas};
use text3d_mesh::{StrokeJoin, Weight};

fn entry(id: u16) -> GlyphEntry {
    GlyphEntry {
        font: 1,
        glyph_id: GlyphTextureOf::Id(id),
        join: StrokeJoin::Round,
        size: 16 << 16,
        weight: Weight(400),
        stroke: 0,
    }
}

#[test]
fn empty_image_is_transparent_white() {
    let img = empty_image(8, 4);
    assert_eq!(img.width, 8);
    assert_eq!(img.height, 4);
    assert_eq!(img.data.len(), 8 * 4 * 4);
    for (i, b) in img.data.iter().enumerate() {
        if i % 4 == 3 {
            assert_eq!(*b, 0);
        } else {
            assert_eq!(*b, 255);
        }
    }
}

#[test]
fn cache_is_idempotent() {
    let mut atlas = TextAtlas::new();
    let mut img = empty_image(64, 64);
    let alpha: Vec<u8> = vec![9; 4 * 4];
    let first = atlas.cache(&mut img, entry(1), (0, 0), 4, 4, &alpha).unwrap();
    let data_after_first = img.data.clone();
    let again = atlas.cache(&mut img, entry(1), (0, 0), 4, 4, &alpha).unwrap();
    assert_eq!(first, again);
    assert_eq!(img.data, data_after_first);
    // A later distinct glyph packs exactly where it would have without the
    // repeated call, so the cursor did not move either.
    let third = atlas.cache(&mut img, entry(2), (0, 0), 4, 4, &alpha).unwrap();
    assert_eq!(third.x, first.x + first.w + 2);
    assert_eq!(third.y, first.y);
}

#[test]
fn cache_writes_alpha_only() {
    let mut atlas = TextAtlas::new();
    let mut img = empty_image(16, 16);
    let alpha: Vec<u8> = vec![1, 2, 3, 4];
    let rect = atlas.cache(&mut img, entry(1), (0, 0), 2, 2, &alpha).unwrap();
    assert_eq!((rect.w, rect.h), (2, 2));
    for dy in 0..2usize {
        for dx in 0..2usize {
            let p = ((rect.y + dy) * img.width + rect.x + dx) * 4;
            assert_eq!(img.data[p], 255);
            assert_eq!(img.data[p + 1], 255);
            assert_eq!(img.data[p + 2], 255);
            assert_eq!(img.data[p + 3], alpha[dy * 2 + dx]);
        }
    }
}

#[test]
fn rows_wrap_when_full() {
    let mut atlas = TextAtlas::new();
    let mut img = empty_image(16, 64);
    let alpha: Vec<u8> = vec![7; 36];
    let a = atlas.cache(&mut img, entry(1), (0, 0), 6, 6, &alpha).unwrap();
    let b = atlas.cache(&mut img, entry(2), (0, 0), 6, 6, &alpha).unwrap();
    // 6 + 2 padding twice leaves no room for a third box on the row.
    let c = atlas.cache(&mut img, entry(3), (0, 0), 6, 6, &alpha).unwrap();
    assert_eq!((a.x, a.y), (0, 0));
    assert_eq!((b.x, b.y), (8, 0));
    assert_eq!(c.x, 0);
    assert!(c.y >= 8);
}

#[test]
fn growth_doubles_height_and_keeps_rectangles() {
    let mut atlas = TextAtlas::new();
    let mut img = empty_image(32, 8);
    let alpha: Vec<u8> = vec![5; 16];
    let first = atlas.cache(&mut img, entry(1), (1, -2), 4, 4, &alpha).unwrap();
    assert_eq!(img.height, 8);
    let mut heights = Vec::new();
    for id in 2..8u16 {
        let alpha: Vec<u8> = vec![id as u8; 16];
        atlas.cache(&mut img, entry(id), (0, 0), 4, 4, &alpha).unwrap();
        heights.push(img.height);
    }
    // The image never shrank.
    let mut prev = 8;
    for h in heights {
        assert!(h >= prev);
        prev = h;
    }
    assert!(img.height > 8);
    // The first rectangle still resolves to the same coordinates and
    // offset after growth.
    let again = atlas.cache(&mut img, entry(1), (9, 9), 4, 4, &alpha).unwrap();
    assert_eq!(first, again);
    let (rect, base) = atlas.get(&entry(1)).unwrap();
    assert_eq!(rect, first);
    assert_eq!(base, (1, -2));
    // The grown rows were filled transparent white outside packed glyphs.
    let p = ((img.height - 1) * img.width) * 4;
    assert_eq!(&img.data[p..p + 4], &[255, 255, 255, 0]);
}

#[test]
fn clear_resets_everything() {
    let mut atlas = TextAtlas::new();
    let mut img = empty_image(32, 32);
    let alpha: Vec<u8> = vec![200; 16];
    let first = atlas.cache(&mut img, entry(1), (0, 0), 4, 4, &alpha).unwrap();
    atlas.clear(&mut img);
    assert!(atlas.get(&entry(1)).is_none());
    for (i, b) in img.data.iter().enumerate() {
        if i % 4 == 3 {
            assert_eq!(*b, 0);
        } else {
            assert_eq!(*b, 255);
        }
    }
    // Packing restarts at the origin.
    let again = atlas.cache(&mut img, entry(9), (0, 0), 4, 4, &alpha).unwrap();
    assert_eq!((again.x, again.y), (first.x, first.y));
}
