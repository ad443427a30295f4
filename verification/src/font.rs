//! The glyph atlas: where each character sits in the font texture and how
//! far it moves the pen.

use vstd::prelude::*;

verus! {

/// Placement of one glyph in the atlas texture.
#[derive(Copy, Clone, Debug)]
pub struct GlyphInfo {
    /// Top-left texel of the glyph.
    pub uv0: (u16, u16),
    /// Bottom-right texel of the glyph.
    pub uv1: (u16, u16),
    /// Where the glyph's top-left corner lies relative to the pen, in pixels.
    pub offset: (i16, i16),
    /// How far the pen moves to the right after this glyph, in pixels.
    pub x_advance: i32,
}

impl GlyphInfo {
    /// Width of the glyph in pixels; a rectangle whose corners are swapped has none.
    pub open spec fn spec_width(self) -> u16 {
        if self.uv1.0 >= self.uv0.0 {
            (self.uv1.0 - self.uv0.0) as u16
        } else {
            0
        }
    }

    /// Height of the glyph in pixels; a rectangle whose corners are swapped has none.
    pub open spec fn spec_height(self) -> u16 {
        if self.uv1.1 >= self.uv0.1 {
            (self.uv1.1 - self.uv0.1) as u16
        } else {
            0
        }
    }

    #[verifier::when_used_as_spec(spec_width)]
    pub fn width(self) -> (w: u16)
        ensures
            w == self.spec_width(),
    {
        if self.uv1.0 >= self.uv0.0 {
            self.uv1.0 - self.uv0.0
        } else {
            0
        }
    }

    #[verifier::when_used_as_spec(spec_height)]
    pub fn height(self) -> (h: u16)
        ensures
            h == self.spec_height(),
    {
        if self.uv1.1 >= self.uv0.1 {
            self.uv1.1 - self.uv0.1
        } else {
            0
        }
    }

    /// The glyph for a baked character whose corners `(x0, y0)` and `(x1, y1)`
    /// may come in either order.
    pub fn from_corners(x0: u16, y0: u16, x1: u16, y1: u16, offset: (i16, i16), x_advance: i32) -> (glyph: GlyphInfo)
        ensures
            glyph.uv0.0 == if x0 <= x1 { x0 } else { x1 },
            glyph.uv1.0 == if x0 <= x1 { x1 } else { x0 },
            glyph.uv0.1 == if y0 <= y1 { y0 } else { y1 },
            glyph.uv1.1 == if y0 <= y1 { y1 } else { y0 },
            glyph.offset == offset,
            glyph.x_advance == x_advance,
    {
        let (min_x, max_x) = if x0 <= x1 { (x0, x1) } else { (x1, x0) };
        let (min_y, max_y) = if y0 <= y1 { (y0, y1) } else { (y1, y0) };
        GlyphInfo { uv0: (min_x, min_y), uv1: (max_x, max_y), offset, x_advance }
    }
}

/// A baked bitmap font.
#[derive(Debug)]
pub struct GlyphAtlas {
    /// Code of the character that `glyphs[0]` draws.
    pub first_char: u32,
    pub atlas_width: u32,
    pub atlas_height: u32,
    /// Distance between two lines of text, in pixels.
    pub font_height: u32,
    /// A texel that is fully opaque, sampled by solid shapes.
    pub opaque_pixel: (u16, u16),
    /// One entry per character, starting at `first_char`.
    pub glyphs: Vec<GlyphInfo>,
}

/// A font as mathematics: every field of the atlas, with the glyphs as a
/// sequence.
pub struct FontView {
    pub first_char: u32,
    pub atlas_width: u32,
    pub atlas_height: u32,
    pub font_height: u32,
    pub opaque_pixel: (u16, u16),
    pub glyphs: Seq<GlyphInfo>,
}

impl FontView {
    /// The glyph that draws `c`, if the font has one.
    pub open spec fn glyph(self, c: char) -> Option<GlyphInfo> {
        if c as u32 >= self.first_char && c as u32 - self.first_char < self.glyphs.len() {
            Some(self.glyphs[c as u32 - self.first_char])
        } else {
            None
        }
    }
}

impl View for GlyphAtlas {
    type V = FontView;

    open spec fn view(&self) -> FontView {
        FontView {
            first_char: self.first_char,
            atlas_width: self.atlas_width,
            atlas_height: self.atlas_height,
            font_height: self.font_height,
            opaque_pixel: self.opaque_pixel,
            glyphs: self.glyphs@,
        }
    }
}

impl GlyphAtlas {
    /// Looks up the glyph of a character. Characters before `first_char` or
    /// past the end of the table have none.
    pub fn glyph(&self, c: char) -> (found: Option<GlyphInfo>)
        ensures
            found == self@.glyph(c),
    {
        let code: u32 = c as u32;
        if code < self.first_char {
            return None;
        }
        let idx: u32 = code - self.first_char;
        if (idx as usize) < self.glyphs.len() {
            Some(self.glyphs[idx as usize])
        } else {
            None
        }
    }
}

/// One gray level per pixel, spread to opaque RGBA: each level three times,
/// then 255.
pub open spec fn gray_to_rgba(pixels: Seq<u8>) -> Seq<u8> {
    Seq::new(
        pixels.len() * 4,
        |i: int|
            if i % 4 == 3 {
                255u8
            } else {
                pixels[i / 4]
            },
    )
}

/// Expands a gray-scale bitmap to RGBA, ready for an image encoder.
pub fn expand_to_rgba(pixels: &[u8]) -> (rgba: Vec<u8>)
    ensures
        rgba@ == gray_to_rgba(pixels@),
{
    let mut rgba: Vec<u8> = Vec::new();
    let mut i: usize = 0;
    while i < pixels.len()
        invariant
            i <= pixels.len(),
            rgba@.len() == 4 * i,
            forall|k: int| 0 <= k < rgba@.len() ==> rgba@[k] == gray_to_rgba(pixels@)[k],
        decreases pixels.len() - i,
    {
        let p: u8 = pixels[i];
        rgba.push(p);
        rgba.push(p);
        rgba.push(p);
        rgba.push(255);
        i = i + 1;
    }
    assert(rgba@ =~= gray_to_rgba(pixels@));
    rgba
}

} // verus!
