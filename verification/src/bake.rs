//! Writing a baked font out as the source of a Rust module.

use vstd::prelude::*;
use vstd::string::{StrSliceExecFns, StringExecFns};
use crate::font::{GlyphAtlas, GlyphInfo};
use crate::text::{append_decimal, decimal, digit_char, push_chars, signed_decimal, format_int};

verus! {

/// The character of a hexadecimal digit, in upper case.
pub open spec fn hex_digit_char(d: int) -> char
    recommends
        0 <= d < 16,
{
    if d < 10 {
        digit_char(d)
    } else {
        ('A' as u8 + (d - 10)) as u8 as char
    }
}

/// A gray level as a hexadecimal literal, right-aligned in four
/// characters: ` 0x0`, `0x1F`.
pub open spec fn hex_level(level: u8) -> Seq<char> {
    if level < 16 {
        seq![' ', '0', 'x', hex_digit_char(level as int)]
    } else {
        seq!['0', 'x', hex_digit_char(level as int / 16), hex_digit_char(level as int % 16)]
    }
}

/// A row of gray levels as one line of an array: three spaces, then for
/// each level a space, its literal and a comma.
pub open spec fn level_row(levels: Seq<u8>) -> Seq<char>
    decreases levels.len(),
{
    if levels.len() == 0 {
        "   "@
    } else {
        level_row(levels.drop_last()) + " "@ + hex_level(levels.last()) + ","@
    }
}

/// The gray levels as the lines of an array, sixteen levels to a line.
pub open spec fn level_rows(levels: Seq<u8>) -> Seq<char>
    decreases levels.len(),
{
    if levels.len() == 0 {
        Seq::empty()
    } else {
        let rest = (levels.len() - 1) / 16 * 16;
        level_rows(levels.take(rest)) + level_row(levels.skip(rest)) + "\n"@
    }
}

/// A glyph as one line of an array.
pub open spec fn glyph_line(glyph: GlyphInfo) -> Seq<char> {
    "        GlyphInfo { uv0: ("@ + decimal(glyph.uv0.0 as nat) + ", "@ + decimal(glyph.uv0.1 as nat) + "), uv1: ("@ + decimal(glyph.uv1.0 as nat) + ", "@ + decimal(glyph.uv1.1 as nat)
        + "), offset: ("@ + signed_decimal(glyph.offset.0 as int) + ", "@ + signed_decimal(glyph.offset.1 as int) + "), x_advance: "@ + signed_decimal(glyph.x_advance as int) + " },\n"@
}

/// The glyphs as the lines of an array.
pub open spec fn glyph_lines(glyphs: Seq<GlyphInfo>) -> Seq<char>
    decreases glyphs.len(),
{
    if glyphs.len() == 0 {
        Seq::empty()
    } else {
        glyph_lines(glyphs.drop_last()) + glyph_line(glyphs.last())
    }
}

/// What follows the last `/` of a path; all of it if there is none.
pub open spec fn file_name(path: Seq<char>) -> Seq<char>
    decreases path.len(),
{
    if path.len() == 0 {
        path
    } else if path.last() == '/' {
        Seq::empty()
    } else {
        file_name(path.drop_last()).push(path.last())
    }
}

/// The source of a module that holds the font `font` and the first
/// `atlas_width * atlas_height` of the gray levels `pixels`.
pub open spec fn font_source(pixels: Seq<u8>, font: GlyphAtlas, font_path: Seq<char>) -> Seq<char> {
    "/// An embedded bitmap ascii font for debugging purposes.\n/// Generated from font "@
        + file_name(font_path) + ".\n\npub const FIRST_CHAR: u32 = "@ + decimal(font.first_char as nat) + ";\npub const ATLAS_WIDTH: u32 = "@ + decimal(font.atlas_width as nat)
        + ";\npub const ATLAS_HEIGHT: u32 = "@ + decimal(font.atlas_height as nat)
        + ";\npub const FONT_HEIGHT: u32 = "@ + decimal(font.font_height as nat)
        + ";\npub const OPAQUE_PIXEL: (u16, u16) = ("@ + decimal(font.opaque_pixel.0 as nat)
        + ", "@ + decimal(font.opaque_pixel.1 as nat)
        + ");\n\npub fn glyph_info() -> Vec<debug_overlay::GlyphInfo> {\n    use debug_overlay::GlyphInfo;\n    vec![\n"@ + glyph_lines(font.glyphs@) + "    ]\n}\n\npub const GLYPH_ATLAS: &[u8] = &[\n"@ + level_rows(pixels.take(font.atlas_width * font.atlas_height)) + "];\n\n"@
}

/// The character of a hexadecimal digit, in upper case.
fn hex_digit(d: u8) -> (c: char)
    requires
        d < 16,
    ensures
        c == hex_digit_char(d as int),
{
    if d < 10 {
        (48u8 + d) as char
    } else {
        (65u8 + (d - 10)) as char
    }
}

/// Appends a gray level as a hexadecimal literal, right-aligned in four characters.
fn append_hex_level(out: &mut String, level: u8)
    ensures
        final(out)@ == old(out)@ + hex_level(level),
{
    if level < 16 {
        out.push(' ');
        out.push('0');
        out.push('x');
        out.push(hex_digit(level));
    } else {
        out.push('0');
        out.push('x');
        out.push(hex_digit(level / 16));
        out.push(hex_digit(level % 16));
    }
    assert(out@ =~= old(out)@ + hex_level(level));
}

/// Appends the gray levels `pixels[from..to]` as one line of an array, without its end.
fn append_level_row(out: &mut String, pixels: &[u8], from: usize, to: usize)
    requires
        from <= to <= pixels@.len(),
    ensures
        final(out)@ == old(out)@ + level_row(pixels@.subrange(from as int, to as int)),
{
    out.append("   ");
    let mut i: usize = from;
    assert(pixels@.subrange(from as int, from as int) =~= Seq::<u8>::empty());
    while i < to
        invariant
            from <= i <= to,
            to <= pixels@.len(),
            out@ == old(out)@ + level_row(pixels@.subrange(from as int, i as int)),
        decreases to - i,
    {
        let ghost before = out@;
        out.append(" ");
        append_hex_level(out, pixels[i]);
        out.append(",");
        proof {
            let row = pixels@.subrange(from as int, i + 1);
            assert(row.drop_last() =~= pixels@.subrange(from as int, i as int));
            assert(row.last() == pixels@[i as int]);
            assert(out@ =~= old(out)@ + level_row(row));
        }
        i = i + 1;
    }
}

/// Appends the gray levels `pixels[..len]` as the lines of an array.
fn append_level_rows(out: &mut String, pixels: &[u8], len: usize)
    requires
        len <= pixels@.len(),
    ensures
        final(out)@ == old(out)@ + level_rows(pixels@.take(len as int)),
{
    let mut from: usize = 0;
    assert(pixels@.take(0) =~= Seq::<u8>::empty());
    while from < len
        invariant
            from <= len <= pixels@.len(),
            from % 16 == 0 || from == len,
            out@ == old(out)@ + level_rows(pixels@.take(from as int)),
        decreases len - from,
    {
        let to: usize = if len - from > 16 {
            from + 16
        } else {
            len
        };
        append_level_row(out, pixels, from, to);
        out.append("\n");
        proof {
            let done = pixels@.take(to as int);
            assert((done.len() - 1) / 16 * 16 == from);
            assert(done.take(from as int) =~= pixels@.take(from as int));
            assert(done.skip(from as int) =~= pixels@.subrange(from as int, to as int));
            assert(out@ =~= old(out)@ + level_rows(done));
        }
        from = to;
    }
}

/// Appends a whole number.
fn append_signed(out: &mut String, v: i64)
    ensures
        final(out)@ == old(out)@ + signed_decimal(v as int),
{
    let digits = format_int(v);
    push_chars(out, &digits);
}

/// Appends a glyph as one line of an array.
fn append_glyph_line(out: &mut String, glyph: &GlyphInfo)
    ensures
        final(out)@ == old(out)@ + glyph_line(*glyph),
{
    out.append("        GlyphInfo { uv0: (");
    append_decimal(out, glyph.uv0.0 as u64);
    out.append(", ");
    append_decimal(out, glyph.uv0.1 as u64);
    out.append("), uv1: (");
    append_decimal(out, glyph.uv1.0 as u64);
    out.append(", ");
    append_decimal(out, glyph.uv1.1 as u64);
    out.append("), offset: (");
    append_signed(out, glyph.offset.0 as i64);
    out.append(", ");
    append_signed(out, glyph.offset.1 as i64);
    out.append("), x_advance: ");
    append_signed(out, glyph.x_advance as i64);
    out.append(" },\n");
    assert(out@ =~= old(out)@ + glyph_line(*glyph));
}

/// The name of the file that a path leads to.
pub fn file_name_of(path: &str) -> (name: &str)
    ensures
        name@ == file_name(path@),
{
    let n: usize = path.unicode_len();
    let mut from: usize = n;
    assert(path@.subrange(n as int, n as int) =~= Seq::<char>::empty());
    assert(path@.take(n as int) =~= path@);
    assert(file_name(path@) + Seq::<char>::empty() =~= file_name(path@));
    while from > 0 && path.get_char(from - 1) != '/'
        invariant
            from <= n,
            n == path@.len(),
            file_name(path@) == file_name(path@.take(from as int)) + path@.subrange(from as int, n as int),
        decreases from,
    {
        proof {
            let head = path@.take(from as int);
            assert(head.drop_last() =~= path@.take(from - 1));
            assert(file_name(head) == file_name(path@.take(from - 1)).push(path@[from - 1]));
            assert(file_name(path@.take(from - 1)).push(path@[from - 1]) + path@.subrange(from as int, n as int) =~= file_name(path@.take(from - 1)) + path@.subrange(from - 1, n as int));
        }
        from = from - 1;
    }
    proof {
        let head = path@.take(from as int);
        if from > 0 {
            assert(head.last() == '/');
        }
        assert(file_name(head) =~= Seq::<char>::empty());
        assert(file_name(path@) =~= path@.subrange(from as int, n as int));
    }
    path.substring_char(from, n)
}

/// Writes the source of a module that holds the font and its atlas.
pub fn generate_code(pixels: &[u8], font: &GlyphAtlas, font_path: &str) -> (source: String)
    requires
        font.atlas_width * font.atlas_height <= pixels@.len(),
    ensures
        source@ == font_source(pixels@, *font, font_path@),
{
    let mut out = String::from_str(
        "/// An embedded bitmap ascii font for debugging purposes.\n/// Generated from font ",
    );
    out.append(file_name_of(font_path));
    out.append(".\n\npub const FIRST_CHAR: u32 = ");
    append_decimal(&mut out, font.first_char as u64);
    out.append(";\npub const ATLAS_WIDTH: u32 = ");
    append_decimal(&mut out, font.atlas_width as u64);
    out.append(";\npub const ATLAS_HEIGHT: u32 = ");
    append_decimal(&mut out, font.atlas_height as u64);
    out.append(";\npub const FONT_HEIGHT: u32 = ");
    append_decimal(&mut out, font.font_height as u64);
    out.append(";\npub const OPAQUE_PIXEL: (u16, u16) = (");
    append_decimal(&mut out, font.opaque_pixel.0 as u64);
    out.append(", ");
    append_decimal(&mut out, font.opaque_pixel.1 as u64);
    out.append(");\n\npub fn glyph_info() -> Vec<debug_overlay::GlyphInfo> {\n    use debug_overlay::GlyphInfo;\n    vec![\n");
    let ghost head = out@;
    let mut i: usize = 0;
    assert(font.glyphs@.take(0) =~= Seq::<GlyphInfo>::empty());
    while i < font.glyphs.len()
        invariant
            i <= font.glyphs@.len(),
            out@ == head + glyph_lines(font.glyphs@.take(i as int)),
        decreases font.glyphs@.len() - i,
    {
        append_glyph_line(&mut out, &font.glyphs[i]);
        proof {
            let done = font.glyphs@.take(i + 1);
            assert(done.drop_last() =~= font.glyphs@.take(i as int));
            assert(done.last() == font.glyphs@[i as int]);
            assert(out@ =~= head + glyph_lines(done));
        }
        i = i + 1;
    }
    assert(font.glyphs@.take(font.glyphs@.len() as int) =~= font.glyphs@);
    out.append("    ]\n}\n\npub const GLYPH_ATLAS: &[u8] = &[\n");
    let width: usize = font.atlas_width as usize;
    let height: usize = font.atlas_height as usize;
    let available: usize = pixels.len();
    assert(width * height == font.atlas_width * font.atlas_height);
    assert(width * height <= available);
    let len: usize = width * height;
    append_level_rows(&mut out, pixels, len);
    out.append("];\n\n");
    assert(out@ =~= font_source(pixels@, *font, font_path@));
    out
}

} // verus!
