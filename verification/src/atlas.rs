//! The glyph atlas: a growable RGBA8 image packed by a shelf (row) packer,
//! and the cache mapping glyph identities to the rectangles already packed.
//!
//! Rectangles advance left to right along a row with two pixels of padding;
//! a rectangle that would leave the right edge starts a new row below the
//! tallest rectangle of the current one.  When a new row would leave the
//! bottom edge the image grows by doubling its height, up to a hard cap;
//! grown rows are transparent white, never transparent black, so sampling
//! near glyph edges stays bright.  Painting writes the alpha channel only:
//! the color channels stay white and per-vertex tint does the coloring.

use vstd::prelude::*;

use crate::style::{StrokeJoin, Weight};

verus! {

/// Padding in pixels between packed rectangles, on both axes.
pub const PADDING: usize = 2;

/// Hard cap on the atlas image width.
pub const MAX_ATLAS_WIDTH: usize = 4096;

/// Hard cap the growing atlas image height never exceeds.
pub const MAX_ATLAS_HEIGHT: usize = 65536;

/// What one cached texture renders: a font glyph, or a decoration line.
#[derive(Clone, Copy, PartialEq, Eq, Structural, Debug, Hash)]
pub enum GlyphTextureOf {
    /// A glyph, by its identifier in the font.
    Id(u16),
    /// The stretched square an underline is textured with.
    UnderlineTexture,
    /// The stretched square a strikethrough is textured with.
    StrikethroughTexture,
}

/// Identity of one rasterized bitmap in the atlas.  Identical entries
/// always resolve to the same cached rectangle; distinct renderings never
/// share an entry.
#[derive(Clone, Copy, PartialEq, Eq, Structural, Debug, Hash)]
pub struct GlyphEntry {
    /// The font face, by the host's font-database identifier.
    pub font: u32,
    /// The glyph or decoration this bitmap renders.
    pub glyph_id: GlyphTextureOf,
    /// Stroke join shape; joins draw differently at one nominal width.
    pub join: StrokeJoin,
    /// Font size key, in 16.16 fixed-point world units truncated to 32 bits.
    pub size: u32,
    /// Font weight.
    pub weight: Weight,
    /// Stroke width as a percentage of the font size; zero means a fill.
    pub stroke: u32,
}

/// A rectangle of whole pixels inside the atlas image.
#[derive(Clone, Copy, PartialEq, Eq, Structural, Debug)]
pub struct URect {
    pub x: usize,
    pub y: usize,
    pub w: usize,
    pub h: usize,
}

/// A CPU-side RGBA8 image, row-major, backing one atlas.
#[derive(Debug)]
pub struct AtlasImage {
    pub width: usize,
    pub height: usize,
    /// Four bytes per pixel: red, green, blue, alpha.
    pub data: Vec<u8>,
}

/// Index of one channel of one pixel in the backing bytes.
pub open spec fn pix(width: int, row: int, col: int, ch: int) -> int {
    (row * width + col) * 4 + ch
}

/// Distinct channels of distinct pixels live at distinct byte indexes.
proof fn lemma_pix_inj(width: int, r1: int, c1: int, ch1: int, r2: int, c2: int, ch2: int)
    requires
        0 <= c1 < width,
        0 <= c2 < width,
        0 <= ch1 < 4,
        0 <= ch2 < 4,
        0 <= r1,
        0 <= r2,
        pix(width, r1, c1, ch1) == pix(width, r2, c2, ch2),
    ensures
        r1 == r2 && c1 == c2 && ch1 == ch2,
{
    assert(r1 == r2 && c1 == c2 && ch1 == ch2) by (nonlinear_arith)
        requires
            0 <= c1 < width,
            0 <= c2 < width,
            0 <= ch1 < 4,
            0 <= ch2 < 4,
            0 <= r1,
            0 <= r2,
            (r1 * width + c1) * 4 + ch1 == (r2 * width + c2) * 4 + ch2,
    ;
}

/// Channel indexes stay inside the data for in-bounds pixels.
proof fn lemma_pix_bound(width: int, height: int, row: int, col: int, ch: int)
    requires
        0 <= col < width,
        0 <= row < height,
        0 <= ch < 4,
    ensures
        0 <= pix(width, row, col, ch) < width * height * 4,
{
    assert(0 <= (row * width + col) * 4 + ch < width * height * 4) by (nonlinear_arith)
        requires
            0 <= col < width,
            0 <= row < height,
            0 <= ch < 4,
    ;
}

/// The value of the transparent-white fill at one channel.
pub open spec fn blank_channel(ch: int) -> u8 {
    if ch == 3 {
        0
    } else {
        255
    }
}

impl AtlasImage {
    /// A well-formed image: capped dimensions and exactly four bytes per
    /// pixel.
    pub open spec fn wf(&self) -> bool {
        &&& 1 <= self.width <= MAX_ATLAS_WIDTH
        &&& 1 <= self.height <= MAX_ATLAS_HEIGHT
        &&& self.data@.len() == self.width * self.height * 4
    }

    /// One channel of one pixel, as the spec sees it.
    pub open spec fn at(&self, row: int, col: int, ch: int) -> u8 {
        self.data@[pix(self.width as int, row, col, ch)]
    }
}

/// Append `count` transparent-white pixels to image data.
fn push_blank_pixels(data: &mut Vec<u8>, count: usize)
    requires
        old(data)@.len() % 4 == 0,
        old(data)@.len() + count * 4 <= usize::MAX,
    ensures
        final(data)@.len() == old(data)@.len() + count * 4,
        forall|j: int| 0 <= j < old(data)@.len() ==> final(data)@[j] == old(data)@[j],
        forall|j: int|
            old(data)@.len() <= j < final(data)@.len() ==> final(data)@[j] == blank_channel(j % 4),
    decreases count,
{
    let mut k: usize = 0;
    while k < count
        invariant
            data@.len() == old(data)@.len() + k * 4,
            old(data)@.len() % 4 == 0,
            old(data)@.len() + count * 4 <= usize::MAX,
            k <= count,
            forall|j: int| 0 <= j < old(data)@.len() ==> data@[j] == old(data)@[j],
            forall|j: int|
                old(data)@.len() <= j < data@.len() ==> data@[j] == blank_channel(j % 4),
        decreases count - k,
    {
        proof {
            assert((k + 1) * 4 <= count * 4) by (nonlinear_arith)
                requires
                    k < count,
            ;
            assert(data@.len() % 4 == 0);
        }
        data.push(255);
        data.push(255);
        data.push(255);
        data.push(0);
        k += 1;
    }
}

/// Create an empty image filled with transparent white `(255,255,255,0)`.
pub fn empty_image(width: usize, height: usize) -> (img: AtlasImage)
    requires
        1 <= width <= MAX_ATLAS_WIDTH,
        1 <= height <= MAX_ATLAS_HEIGHT,
    ensures
        img.wf(),
        img.width == width,
        img.height == height,
        forall|j: int| 0 <= j < img.data@.len() ==> img.data@[j] == blank_channel(j % 4),
{
    let mut data: Vec<u8> = Vec::new();
    proof {
        assert(width * height <= MAX_ATLAS_WIDTH * MAX_ATLAS_HEIGHT) by (nonlinear_arith)
            requires
                1 <= width <= MAX_ATLAS_WIDTH,
                1 <= height <= MAX_ATLAS_HEIGHT,
        ;
    }
    let count = width * height;
    push_blank_pixels(&mut data, count);
    AtlasImage { width, height, data }
}

/// Grow an image to a taller target height, keeping every existing pixel
/// and filling the new rows with transparent white.
fn grow_image(img: &mut AtlasImage, target: usize)
    requires
        old(img).wf(),
        old(img).height <= target <= MAX_ATLAS_HEIGHT,
    ensures
        final(img).wf(),
        final(img).width == old(img).width,
        final(img).height == target,
        forall|j: int| 0 <= j < old(img).data@.len() ==> final(img).data@[j] == old(img).data@[j],
        forall|j: int|
            old(img).data@.len() <= j < final(img).data@.len() ==> final(img).data@[j]
                == blank_channel(j % 4),
{
    proof {
        assert(img.width * img.height <= img.width * target <= MAX_ATLAS_WIDTH * MAX_ATLAS_HEIGHT)
            by (nonlinear_arith)
            requires
                1 <= img.width <= MAX_ATLAS_WIDTH,
                1 <= img.height <= target <= MAX_ATLAS_HEIGHT,
        ;
        assert(img.data@.len() % 4 == 0) by (nonlinear_arith)
            requires
                img.data@.len() == img.width * img.height * 4,
        ;
    }
    let old_pixels = img.width * img.height;
    let new_pixels = img.width * target;
    let extra = new_pixels - old_pixels;
    push_blank_pixels(&mut img.data, extra);
    img.height = target;
}

/// Write an alpha coverage map into the image at a pixel offset, touching
/// the alpha channel only.
fn blit_alpha(img: &mut AtlasImage, px: usize, py: usize, w: usize, h: usize, alpha: &Vec<u8>)
    requires
        old(img).wf(),
        px + w <= old(img).width,
        py + h <= old(img).height,
        alpha@.len() == w * h,
    ensures
        final(img).wf(),
        final(img).width == old(img).width,
        final(img).height == old(img).height,
        final(img).data@.len() == old(img).data@.len(),
        forall|row: int, col: int, ch: int|
            0 <= row < old(img).height && 0 <= col < old(img).width && 0 <= ch < 4 && !(ch == 3
                && py <= row < py + h && px <= col < px + w) ==> final(img).at(row, col, ch) == old(
                img,
            ).at(row, col, ch),
        forall|row: int, col: int|
            py <= row < py + h && px <= col < px + w ==> final(img).at(row, col, 3) == alpha@[(row
                - py) * w + (col - px)],
{
    let ghost w0 = img.width as int;
    let mut x: usize = 0;
    while x < w
        invariant
            img.wf(),
            img.width == old(img).width,
            img.height == old(img).height,
            img.data@.len() == old(img).data@.len(),
            px + w <= img.width,
            py + h <= img.height,
            alpha@.len() == w * h,
            x <= w,
            w0 == img.width as int,
            forall|row: int, col: int, ch: int|
                0 <= row < img.height && 0 <= col < img.width && 0 <= ch < 4 && !(ch == 3 && py
                    <= row < py + h && px <= col < px + x) ==> img.at(row, col, ch) == old(img).at(
                    row,
                    col,
                    ch,
                ),
            forall|row: int, col: int|
                py <= row < py + h && px <= col < px + x ==> img.at(row, col, 3) == alpha@[(row
                    - py) * w + (col - px)],
        decreases w - x,
    {
        let mut y: usize = 0;
        while y < h
            invariant
                img.wf(),
                img.width == old(img).width,
                img.height == old(img).height,
                img.data@.len() == old(img).data@.len(),
                px + w <= img.width,
                py + h <= img.height,
                alpha@.len() == w * h,
                x < w,
                y <= h,
                w0 == img.width as int,
                forall|row: int, col: int, ch: int|
                    0 <= row < img.height && 0 <= col < img.width && 0 <= ch < 4 && !(ch == 3 && py
                        <= row < py + h && (px <= col < px + x || (col == px + x && py <= row < py
                        + y))) ==> img.at(row, col, ch) == old(img).at(row, col, ch),
                forall|row: int, col: int|
                    py <= row < py + h && px <= col < px + x ==> img.at(row, col, 3) == alpha@[(row
                        - py) * w + (col - px)],
                forall|row: int|
                    py <= row < py + y ==> #[trigger] img.at(row, px + x as int, 3) == alpha@[(row
                        - py) * w + x],
            decreases h - y,
        {
            proof {
                lemma_pix_bound(w0, img.height as int, py + y, px + x, 3);
                assert(y * w + x < h * w) by (nonlinear_arith)
                    requires
                        y < h,
                        x < w,
                ;
                assert(h * w == w * h) by (nonlinear_arith);
                assert((py + y) * img.width + (px + x) < img.width * img.height)
                    by (nonlinear_arith)
                    requires
                        py + y < img.height,
                        px + x < img.width,
                        0 <= py + y,
                        0 <= px + x,
                        1 <= img.width,
                ;
                assert(img.width * img.height <= MAX_ATLAS_WIDTH * MAX_ATLAS_HEIGHT)
                    by (nonlinear_arith)
                    requires
                        1 <= img.width <= MAX_ATLAS_WIDTH,
                        1 <= img.height <= MAX_ATLAS_HEIGHT,
                ;
            }
            let idx = (py + y) * img.width + (px + x);
            let alpha_len = alpha.len();
            proof {
                assert(y * w + x < alpha_len);
            }
            let a = alpha[y * w + x];
            let ghost img0 = *img;
            img.data.set(idx * 4 + 3, a);
            proof {
                assert forall|row: int, col: int, ch: int|
                    0 <= row < img.height && 0 <= col < img.width && 0 <= ch < 4 && !(row == py + y
                        && col == px + x && ch == 3) implies img.data@[#[trigger] pix(
                    w0,
                    row,
                    col,
                    ch,
                )] == img0.data@[pix(w0, row, col, ch)] by {
                    lemma_pix_bound(w0, img.height as int, row, col, ch);
                    if pix(w0, row, col, ch) == pix(w0, py + y, px + x, 3) {
                        lemma_pix_inj(w0, row, col, ch, py + y, px + x, 3);
                    }
                }
                assert(img.at(py + y, px + x as int, 3) == a);
                assert((py + y - py) * w + (px + x - px) == y * w + x) by (nonlinear_arith);
                assert forall|row: int, col: int| py <= row < py + h && px <= col < px
                    + x implies img.at(row, col, 3) == alpha@[(row - py) * w + (col
                    - px)] by {
                    assert(img0.at(row, col, 3) == alpha@[(row - py) * w + (col - px)]);
                    assert(!(row == py + y && col == px + x && 3 == 3));
                }
                assert forall|row: int| py <= row < py + y + 1 implies #[trigger] img.at(
                    row,
                    px + x as int,
                    3,
                ) == alpha@[(row - py) * w + x] by {
                    if row < py + y {
                        assert(img0.at(row, px + x as int, 3) == alpha@[(row - py) * w + x]);
                        assert(!(row == py + y));
                    }
                }
            }
            y += 1;
        }
        x += 1;
    }
}

/// The cache of packed rectangles: an association from glyph identities to
/// their pixel rectangle and draw-origin offset, plus the packing cursor.
#[derive(Debug)]
pub struct TextAtlas {
    glyphs: Vec<(GlyphEntry, URect, (i32, i32))>,
    pointer_x: usize,
    pointer_y: usize,
    descent: usize,
}

/// The map an association list denotes; a later entry would win, though a
/// well-formed atlas never repeats a key.
pub open spec fn assoc_map(s: Seq<(GlyphEntry, URect, (i32, i32))>) -> Map<
    GlyphEntry,
    (URect, (i32, i32)),
>
    decreases s.len(),
{
    if s.len() == 0 {
        Map::empty()
    } else {
        assoc_map(s.drop_last()).insert(s.last().0, (s.last().1, s.last().2))
    }
}

proof fn lemma_assoc_contains(s: Seq<(GlyphEntry, URect, (i32, i32))>, k: GlyphEntry)
    ensures
        assoc_map(s).contains_key(k) <==> exists|i: int| 0 <= i < s.len() && s[i].0 == k,
    decreases s.len(),
{
    if s.len() > 0 {
        lemma_assoc_contains(s.drop_last(), k);
        if s.last().0 == k {
            assert(s[s.len() - 1].0 == k);
        } else if assoc_map(s).contains_key(k) {
            let i = choose|i: int| 0 <= i < s.drop_last().len() && s.drop_last()[i].0 == k;
            assert(s[i].0 == k);
        } else {
            assert forall|i: int| 0 <= i < s.len() implies s[i].0 != k by {
                if i < s.len() - 1 {
                    assert(s.drop_last()[i] == s[i]);
                }
            }
        }
    }
}

proof fn lemma_assoc_get(s: Seq<(GlyphEntry, URect, (i32, i32))>, i: int)
    requires
        0 <= i < s.len(),
        forall|a: int, b: int| 0 <= a < b < s.len() ==> s[a].0 != s[b].0,
    ensures
        assoc_map(s).contains_key(s[i].0),
        assoc_map(s)[s[i].0] == (s[i].1, s[i].2),
    decreases s.len(),
{
    lemma_assoc_contains(s, s[i].0);
    if i == s.len() - 1 {
    } else {
        assert(s.last().0 != s[i].0);
        assert(s.drop_last()[i] == s[i]);
        assert(forall|a: int, b: int|
            0 <= a < b < s.drop_last().len() ==> s.drop_last()[a].0 != s.drop_last()[b].0);
        lemma_assoc_get(s.drop_last(), i);
    }
}

impl TextAtlas {
    /// A well-formed atlas: no glyph identity is cached twice.
    pub closed spec fn wf(&self) -> bool {
        forall|a: int, b: int|
            0 <= a < b < self.glyphs@.len() ==> self.glyphs@[a].0 != self.glyphs@[b].0
    }

    /// The cache as a map from glyph identities to their rectangle and
    /// draw-origin offset.
    pub closed spec fn spec_map(&self) -> Map<GlyphEntry, (URect, (i32, i32))> {
        assoc_map(self.glyphs@)
    }

    /// The packing cursor sits inside the image.
    pub closed spec fn fits(&self, img: &AtlasImage) -> bool {
        &&& self.pointer_x <= img.width
        &&& self.pointer_y + self.descent <= img.height
    }

    /// Create a new empty atlas.
    pub fn new() -> (a: TextAtlas)
        ensures
            a.wf(),
            a.spec_map() == Map::<GlyphEntry, (URect, (i32, i32))>::empty(),
            forall|img: &AtlasImage| a.fits(img),
    {
        TextAtlas { glyphs: Vec::new(), pointer_x: 0, pointer_y: 0, descent: 0 }
    }

    /// Look a glyph identity up in the cache.
    pub fn get(&self, key: &GlyphEntry) -> (r: Option<(URect, (i32, i32))>)
        requires
            self.wf(),
        ensures
            match r {
                Some(v) => self.spec_map().contains_key(*key) && self.spec_map()[*key] == v,
                None => !self.spec_map().contains_key(*key),
            },
    {
        let mut i: usize = 0;
        while i < self.glyphs.len()
            invariant
                self.wf(),
                i <= self.glyphs@.len(),
                forall|j: int| 0 <= j < i ==> self.glyphs@[j].0 != *key,
            decreases self.glyphs@.len() - i,
        {
            let (k, rect, base) = self.glyphs[i];
            if k == *key {
                proof {
                    lemma_assoc_get(self.glyphs@, i as int);
                }
                return Some((rect, base));
            }
            i += 1;
        }
        proof {
            lemma_assoc_contains(self.glyphs@, *key);
        }
        None
    }
}

/// A channel index is its position within the pixel, and pixels of later
/// rows live at later bytes.
proof fn lemma_pix_row_range(width: int, row: int, col: int, ch: int)
    requires
        0 <= col < width,
        0 <= row,
        0 <= ch < 4,
    ensures
        pix(width, row, col, ch) % 4 == ch,
        pix(width, row, col, ch) >= row * width * 4,
{
    assert(((row * width + col) * 4 + ch) % 4 == ch && (row * width + col) * 4 + ch >= row * width
        * 4) by (nonlinear_arith)
        requires
            0 <= col < width,
            0 <= row,
            0 <= ch < 4,
    ;
}

impl TextAtlas {
    /// Cache a rasterized bitmap, returning its packed pixel rectangle.
    ///
    /// An entry already cached is returned unchanged: nothing is repainted
    /// and the packing cursor does not move.  A new entry is packed on the
    /// current row, or on a fresh row below it, growing the image by
    /// doubling its height as far as the hard cap; the image never shrinks,
    /// every cached rectangle keeps its coordinates forever, and painting
    /// writes the alpha coverage alone, leaving color channels untouched
    /// and filling grown rows with transparent white.  `None` means the
    /// bitmap cannot fit under the cap: the atlas is left as it was, which
    /// callers treat as fatal.
    pub fn cache(
        &mut self,
        image: &mut AtlasImage,
        glyph: GlyphEntry,
        base: (i32, i32),
        width: usize,
        height: usize,
        alpha: &Vec<u8>,
    ) -> (r: Option<URect>)
        requires
            old(self).wf(),
            old(image).wf(),
            old(self).fits(old(image)),
            alpha@.len() == width * height,
            width + PADDING <= old(image).width,
            height + PADDING <= MAX_ATLAS_HEIGHT / 2,
        ensures
            final(self).wf(),
            final(image).wf(),
            final(self).fits(final(image)),
            final(image).width == old(image).width,
            final(image).height >= old(image).height,
            forall|k: GlyphEntry|
                old(self).spec_map().contains_key(k) ==> final(self).spec_map().contains_key(k)
                    && final(self).spec_map()[k] == old(self).spec_map()[k],
            old(self).spec_map().contains_key(glyph) ==> r == Some(
                old(self).spec_map()[glyph].0,
            ) && final(self).spec_map() == old(self).spec_map() && final(image).data@ == old(
                image,
            ).data@ && final(image).height == old(image).height && final(self).fits(old(image)),
            !old(self).spec_map().contains_key(glyph) ==> match r {
                Some(rect) => {
                    &&& final(self).spec_map() == old(self).spec_map().insert(glyph, (rect, base))
                    &&& rect.w == width
                    &&& rect.h == height
                    &&& rect.x + rect.w <= final(image).width
                    &&& rect.y + rect.h <= final(image).height
                    &&& forall|row: int, col: int|
                        rect.y <= row < rect.y + rect.h && rect.x <= col < rect.x + rect.w
                            ==> final(image).at(row, col, 3) == alpha@[(row - rect.y) * rect.w
                            + (col - rect.x)]
                    &&& forall|row: int, col: int, ch: int|
                        0 <= row < final(image).height && 0 <= col < final(image).width && 0 <= ch
                            < 4 && !(ch == 3 && rect.y <= row < rect.y + rect.h && rect.x <= col
                            < rect.x + rect.w) ==> final(image).at(row, col, ch) == (if row < old(
                            image,
                        ).height {
                            old(image).at(row, col, ch)
                        } else {
                            blank_channel(ch)
                        })
                },
                None => final(self).spec_map() == old(self).spec_map() && final(image).data@ == old(
                    image,
                ).data@ && final(image).height == old(image).height,
            },
    {
        match self.get(&glyph) {
            Some((rect, _)) => {
                return Some(rect);
            },
            None => {},
        }
        proof {
            lemma_assoc_contains(self.glyphs@, glyph);
        }
        let mut px = self.pointer_x;
        let mut py = self.pointer_y;
        let mut descent = self.descent;
        if px + width + PADDING > image.width {
            px = 0;
            py = py + (if descent > height {
                descent
            } else {
                height
            }) + PADDING;
            descent = 0;
        }
        let new_descent = if descent > height {
            descent
        } else {
            height
        };
        let needed = py + new_descent + PADDING + 1;
        let mut target = image.height;
        while target < needed
            invariant
                old(image).height <= target <= MAX_ATLAS_HEIGHT,
                1 <= target,
                self.glyphs@ == old(self).glyphs@,
                self.pointer_x == old(self).pointer_x,
                self.pointer_y == old(self).pointer_y,
                self.descent == old(self).descent,
                image.width == old(image).width,
                image.height == old(image).height,
                image.data@ == old(image).data@,
                old(self).wf(),
                old(image).wf(),
                old(self).fits(old(image)),
                !old(self).spec_map().contains_key(glyph),
            decreases MAX_ATLAS_HEIGHT - target,
        {
            if target > MAX_ATLAS_HEIGHT / 2 {
                return None;
            }
            target = target * 2;
        }
        if target > image.height {
            grow_image(image, target);
        }
        proof {
            assert(py + height <= image.height);
        }
        blit_alpha(image, px, py, width, height, alpha);
        let rect = URect { x: px, y: py, w: width, h: height };
        proof {
            lemma_assoc_contains(self.glyphs@, glyph);
        }
        self.glyphs.push((glyph, rect, base));
        self.pointer_x = px + width + PADDING;
        self.pointer_y = py;
        self.descent = new_descent;
        proof {
            assert(self.glyphs@.drop_last() =~= old(self).glyphs@);
            assert forall|a: int, b: int| 0 <= a < b < self.glyphs@.len() implies self.glyphs@[a].0
                != self.glyphs@[b].0 by {
                if b < self.glyphs@.len() - 1 {
                    assert(old(self).glyphs@[a].0 != old(self).glyphs@[b].0);
                } else {
                    assert(self.glyphs@[a].0 != glyph);
                }
            }
            assert forall|k: GlyphEntry| old(self).spec_map().contains_key(k) implies
                self.spec_map().contains_key(k) && self.spec_map()[k] == old(self).spec_map().index(
                k,
            ) by {
                lemma_assoc_contains(old(self).glyphs@, k);
            }
            let w0 = image.width as int;
            assert forall|row: int, col: int, ch: int|
                0 <= row < image.height && 0 <= col < image.width && 0 <= ch < 4 && !(ch == 3
                    && rect.y <= row < rect.y + rect.h && rect.x <= col < rect.x + rect.w) implies
                image.at(row, col, ch) == (if row < old(image).height {
                old(image).at(row, col, ch)
            } else {
                blank_channel(ch)
            }) by {
                lemma_pix_bound(w0, image.height as int, row, col, ch);
                lemma_pix_row_range(w0, row, col, ch);
                let oldh = old(image).height as int;
                if row < oldh {
                    lemma_pix_bound(w0, oldh, row, col, ch);
                } else {
                    assert(pix(w0, row, col, ch) >= oldh * w0 * 4) by (nonlinear_arith)
                        requires
                            pix(w0, row, col, ch) >= row * w0 * 4,
                            row >= oldh,
                            w0 >= 1,
                    ;
                    assert(oldh * w0 * 4 == w0 * oldh * 4) by (nonlinear_arith);
                }
            }
        }
        Some(rect)
    }

    /// Drop every cached entry, reset the packing cursor to the origin and
    /// repaint the whole image transparent white.  Used when global
    /// rendering state changes and every glyph must be rasterized afresh.
    pub fn clear(&mut self, image: &mut AtlasImage)
        requires
            old(self).wf(),
            old(image).wf(),
        ensures
            final(self).wf(),
            final(image).wf(),
            final(self).fits(final(image)),
            final(self).spec_map() == Map::<GlyphEntry, (URect, (i32, i32))>::empty(),
            final(image).width == old(image).width,
            final(image).height == old(image).height,
            forall|j: int|
                0 <= j < final(image).data@.len() ==> final(image).data@[j] == blank_channel(
                    j % 4,
                ),
    {
        self.glyphs.clear();
        self.pointer_x = 0;
        self.pointer_y = 0;
        self.descent = 0;
        proof {
            assert(self.spec_map() =~= Map::<GlyphEntry, (URect, (i32, i32))>::empty());
            assert(image.width * image.height <= MAX_ATLAS_WIDTH * MAX_ATLAS_HEIGHT)
                by (nonlinear_arith)
                requires
                    1 <= image.width <= MAX_ATLAS_WIDTH,
                    1 <= image.height <= MAX_ATLAS_HEIGHT,
            ;
        }
        let mut data: Vec<u8> = Vec::new();
        push_blank_pixels(&mut data, image.width * image.height);
        image.data = data;
    }
}

} // verus!
