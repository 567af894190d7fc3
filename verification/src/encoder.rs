//! The canonical text of a font: its present global properties in a fixed
//! order, then its glyphs, each with its labels, its bitmap and its own
//! properties.

use vstd::prelude::*;
use crate::kerning::{append_kerning_map, kerning_text};
use crate::label::{append_label, label_text};
use crate::models::{
    glyphs_view, labels_view, opt_int, opt_kerning, opt_pair, opt_quad, opt_text,
    opt_unsigned_pair, rows_view, Bitmap, BitmapView, FontSpacing, GlyphDefinition, GlyphView,
    KerningPair, KerningPairView, Label, LabelView, WritingDirection, YaffFont, YaffFontView,
};
use crate::text::{
    append_chars, append_indented_lines, append_signed_decimal, append_str, chars_of,
    contains_newline, ensure_blank_line, indent, indented_lines, join, lemma_join_next,
    pad_to_blank_line, signed_decimal_text, str_equals, string_of, trim_newlines,
    trim_trailing_newlines,
};

verus! {

/// The key of the format-version declaration. It alone is written as nothing
/// at all when its value is the empty string.
pub open spec fn version_key() -> Seq<char> {
    "yaff"@
}

/// The lines of one property, given its key and its formatted value: the key
/// alone and the value's lines indented below it when the value holds a
/// newline; the key alone when the value is empty; else key and value on one
/// line.
pub open spec fn property_text(key: Seq<char>, value: Seq<char>) -> Seq<char> {
    if value.contains('\n') {
        key + seq![':', '\n'] + indented_lines(value)
    } else if value.len() == 0 {
        if key == version_key() {
            Seq::empty()
        } else {
            key + seq![':', '\n']
        }
    } else {
        key + seq![':', ' '] + value + seq!['\n']
    }
}

/// The lines of a property that may be absent; an absent one has none.
pub open spec fn string_property(key: Seq<char>, value: Option<Seq<char>>) -> Seq<char> {
    match value {
        Some(v) => property_text(key, v),
        None => Seq::empty(),
    }
}

/// Two integers, separated by a space.
pub open spec fn pair_text(p: (int, int)) -> Seq<char> {
    signed_decimal_text(p.0) + seq![' '] + signed_decimal_text(p.1)
}

/// Four integers, separated by spaces.
pub open spec fn quad_text(q: (int, int, int, int)) -> Seq<char> {
    signed_decimal_text(q.0) + seq![' '] + signed_decimal_text(q.1) + seq![' '] + signed_decimal_text(
        q.2,
    ) + seq![' '] + signed_decimal_text(q.3)
}

/// The token of a spacing.
pub open spec fn spacing_text(spacing: FontSpacing) -> Seq<char> {
    match spacing {
        FontSpacing::Proportional => "proportional"@,
        FontSpacing::Monospace => "monospace"@,
        FontSpacing::CharacterCell => "character-cell"@,
        FontSpacing::MultiCell => "multi-cell"@,
    }
}

/// The token of a writing direction.
pub open spec fn direction_text(direction: WritingDirection) -> Seq<char> {
    match direction {
        WritingDirection::LeftToRight => "left-to-right"@,
        WritingDirection::RightToLeft => "right-to-left"@,
    }
}

/// The lines of an integer property.
pub open spec fn integer_property(key: Seq<char>, value: Option<int>) -> Seq<char> {
    match value {
        Some(v) => property_text(key, signed_decimal_text(v)),
        None => Seq::empty(),
    }
}

/// The lines of a property that holds two integers.
pub open spec fn pair_property(key: Seq<char>, value: Option<(int, int)>) -> Seq<char> {
    match value {
        Some(p) => property_text(key, pair_text(p)),
        None => Seq::empty(),
    }
}

/// The lines of a property that holds four integers.
pub open spec fn quad_property(key: Seq<char>, value: Option<(int, int, int, int)>) -> Seq<char> {
    match value {
        Some(q) => property_text(key, quad_text(q)),
        None => Seq::empty(),
    }
}

/// The lines of a spacing property.
pub open spec fn spacing_property(key: Seq<char>, value: Option<FontSpacing>) -> Seq<char> {
    match value {
        Some(s) => property_text(key, spacing_text(s)),
        None => Seq::empty(),
    }
}

/// The lines of a writing-direction property.
pub open spec fn direction_property(key: Seq<char>, value: Option<WritingDirection>) -> Seq<char> {
    match value {
        Some(d) => property_text(key, direction_text(d)),
        None => Seq::empty(),
    }
}

/// The global properties of a font that are present, each by its lines, in
/// the order that the format fixes.
pub open spec fn global_section(f: YaffFontView) -> Seq<char> {
    Seq::<char>::empty()
        + string_property("yaff"@, f.yaff_version)
        + string_property("name"@, f.name)
        + string_property("family"@, f.family)
        + string_property("subfamily"@, f.subfamily)
        + string_property("revision"@, f.revision)
        + string_property("point-size"@, f.point_size)
        + integer_property("line-height"@, f.line_height)
        + string_property("style"@, f.style)
        + string_property("weight"@, f.weight)
        + string_property("slant"@, f.slant)
        + string_property("setwidth"@, f.setwidth)
        + string_property("decoration"@, f.decoration)
        + integer_property("x-height"@, f.x_height)
        + integer_property("cap-height"@, f.cap_height)
        + integer_property("ascent"@, f.ascent)
        + integer_property("descent"@, f.descent)
        + integer_property("pixel-size"@, f.pixel_size)
        + integer_property("leading"@, f.leading)
        + quad_property("raster-bounds"@, f.raster_bounds)
        + quad_property("ink-bounds"@, f.ink_bounds)
        + pair_property("raster-size"@, f.raster_size)
        + pair_property("cell-size"@, f.cell_size)
        + pair_property("bounding-box"@, f.bounding_box)
        + string_property("average-width"@, f.average_width)
        + integer_property("max-width"@, f.max_width)
        + integer_property("cap-width"@, f.cap_width)
        + integer_property("digit-width"@, f.digit_width)
        + spacing_property("spacing"@, f.spacing)
        + direction_property("direction"@, f.direction)
        + integer_property("bold-smear"@, f.bold_smear)
        + pair_property("italic-pitch"@, f.italic_pitch)
        + integer_property("outline-thickness"@, f.outline_thickness)
        + integer_property("underline-thickness"@, f.underline_thickness)
        + integer_property("underline-descent"@, f.underline_descent)
        + integer_property("strikethrough-thickness"@, f.strikethrough_thickness)
        + integer_property("strikethrough-ascent"@, f.strikethrough_ascent)
        + integer_property("superscript-size"@, f.superscript_size)
        + pair_property("superscript-offset"@, f.superscript_offset)
        + integer_property("subscript-size"@, f.subscript_size)
        + pair_property("subscript-offset"@, f.subscript_offset)
        + integer_property("small-cap-size"@, f.small_cap_size)
        + integer_property("word-space"@, f.word_space)
        + integer_property("min-word-space"@, f.min_word_space)
        + integer_property("max-word-space"@, f.max_word_space)
        + integer_property("sentence-space"@, f.sentence_space)
        + string_property("author"@, f.author)
        + string_property("foundry"@, f.foundry)
        + string_property("copyright"@, f.copyright)
        + string_property("notice"@, f.notice)
        + string_property("device"@, f.device)
        + pair_property("pixel-aspect"@, f.pixel_aspect)
        + pair_property("dpi"@, f.dpi)
        + string_property("converter"@, f.converter)
        + string_property("source-name"@, f.source_name)
        + string_property("source-format"@, f.source_format)
        + string_property("history"@, f.history)
        + string_property("encoding"@, f.encoding)
        + string_property("default-char"@, f.default_char_label_raw)
        + string_property("word-boundary"@, f.word_boundary_label_raw)
        + integer_property("left-bearing"@, f.global_left_bearing)
        + integer_property("right-bearing"@, f.global_right_bearing)
        + integer_property("shift-up"@, f.global_shift_up)
}

/// One line per label: its canonical text and a colon.
pub open spec fn label_lines(labels: Seq<LabelView>) -> Seq<char>
    decreases labels.len(),
{
    if labels.len() == 0 {
        Seq::empty()
    } else {
        label_lines(labels.drop_last()) + label_text(labels.last()) + seq![':', '\n']
    }
}

/// The label lines of a glyph. A glyph without labels but with a bitmap is
/// marked by a bare colon.
pub open spec fn label_section(g: GlyphView) -> Seq<char> {
    if g.labels.len() == 0 && !g.bitmap.is_empty() {
        seq![':', '\n']
    } else {
        label_lines(g.labels)
    }
}

/// The character of one pixel.
pub open spec fn pixel_char(ink: bool) -> char {
    if ink {
        '@'
    } else {
        '.'
    }
}

/// The characters of the pixels of one row, from left to right.
pub open spec fn pixel_chars(row: Seq<bool>) -> Seq<char> {
    Seq::new(row.len(), |x: int| pixel_char(row[x]))
}

/// One indented line per row of pixels.
pub open spec fn pixel_lines(rows: Seq<Seq<bool>>) -> Seq<char>
    decreases rows.len(),
{
    if rows.len() == 0 {
        Seq::empty()
    } else {
        pixel_lines(rows.drop_last()) + indent() + pixel_chars(rows.last()) + seq!['\n']
    }
}

/// The bitmap of a glyph: its rows, or an indented dash when it is empty.
pub open spec fn bitmap_section(b: BitmapView) -> Seq<char> {
    if b.is_empty() {
        indent() + seq!['-', '\n']
    } else {
        pixel_lines(b.pixels)
    }
}

/// The block of a kerning mapping that has entries: its key on a line of its
/// own, then the text of the mapping. An absent or empty mapping has none.
pub open spec fn kerning_block(key: Seq<char>, kerning: Option<Seq<KerningPairView>>) -> Seq<char> {
    match kerning {
        Some(pairs) => if pairs.len() > 0 {
            key + seq![':', '\n'] + kerning_text(pairs) + seq!['\n']
        } else {
            Seq::empty()
        },
        None => Seq::empty(),
    }
}

/// Whether a kerning mapping is present and has entries.
pub open spec fn has_entries(kerning: Option<Seq<KerningPairView>>) -> bool {
    match kerning {
        Some(pairs) => pairs.len() > 0,
        None => false,
    }
}

/// The properties of a glyph that are present, in the order that the format
/// fixes, before indentation.
pub open spec fn glyph_properties(g: GlyphView) -> Seq<char> {
    Seq::<char>::empty()
        + integer_property("left-bearing"@, g.left_bearing)
        + integer_property("right-bearing"@, g.right_bearing)
        + integer_property("shift-up"@, g.shift_up)
        + integer_property("top-bearing"@, g.top_bearing)
        + integer_property("bottom-bearing"@, g.bottom_bearing)
        + integer_property("shift-left"@, g.shift_left)
        + string_property("scalable-width"@, g.scalable_width)
        + kerning_block("right-kerning"@, g.right_kerning)
        + kerning_block("left-kerning"@, g.left_kerning)
}

/// Whether the glyph has any property of its own.
pub open spec fn any_glyph_property(g: GlyphView) -> bool {
    ||| g.left_bearing is Some
    ||| g.right_bearing is Some
    ||| g.shift_up is Some
    ||| g.top_bearing is Some
    ||| g.bottom_bearing is Some
    ||| g.shift_left is Some
    ||| g.scalable_width is Some
    ||| has_entries(g.right_kerning)
    ||| has_entries(g.left_kerning)
}

/// The block of one glyph: its label lines, its bitmap and, where it has
/// properties of its own, an empty line and those properties, each line
/// indented by one unit.
pub open spec fn glyph_text(g: GlyphView) -> Seq<char> {
    let head = label_section(g) + bitmap_section(g.bitmap);
    if any_glyph_property(g) {
        head + seq!['\n'] + indented_lines(trim_newlines(glyph_properties(g)))
    } else {
        head
    }
}

/// The blocks of the glyphs, in order.
pub open spec fn glyph_blocks(glyphs: Seq<GlyphView>) -> Seq<Seq<char>> {
    Seq::new(glyphs.len(), |i: int| glyph_text(glyphs[i]))
}

/// The glyph section: the blocks of the glyphs in order, with an empty line
/// between each two.
pub open spec fn glyph_section(glyphs: Seq<GlyphView>) -> Seq<char> {
    join(glyph_blocks(glyphs), seq!['\n'])
}

/// Whether a text ends with a newline that closes a line which is not empty.
pub open spec fn ends_one_line(s: Seq<char>) -> bool {
    s.len() >= 2 && s[s.len() - 1] == '\n' && s[s.len() - 2] != '\n'
}

/// The label lines and the bitmap of any glyph end a line that is not empty:
/// one more newline leaves exactly one empty line behind them.
pub proof fn lemma_glyph_head_ends_line(g: GlyphView, prefix: Seq<char>)
    ensures
        ends_one_line(label_section(g) + bitmap_section(g.bitmap)),
        pad_to_blank_line(prefix + label_section(g) + bitmap_section(g.bitmap)) == prefix
            + label_section(g) + bitmap_section(g.bitmap) + seq!['\n'],
{
    let head = label_section(g) + bitmap_section(g.bitmap);
    if g.bitmap.is_empty() {
    } else if g.bitmap.pixels.len() > 0 {
        let row = pixel_chars(g.bitmap.pixels.last());
        if row.len() > 0 {
            assert(row.last() != '\n');
        }
    } else if g.labels.len() > 0 {
    }
    assert(ends_one_line(head));
    let whole = prefix + label_section(g) + bitmap_section(g.bitmap);
    assert(whole =~= prefix + head);
    assert(whole.last() == '\n');
    assert(whole[whole.len() - 2] != '\n');
}

/// The canonical text of a font: the global section; where there are glyphs,
/// the glyph section, behind an empty line if the global section holds any
/// line; and exactly one newline at the end.
pub open spec fn document_text(f: YaffFontView) -> Seq<char> {
    let globals = global_section(f);
    let body = if f.glyphs.len() == 0 {
        globals
    } else if globals.len() > 0 {
        pad_to_blank_line(globals) + glyph_section(f.glyphs)
    } else {
        glyph_section(f.glyphs)
    };
    trim_newlines(body) + seq!['\n']
}

/// A font whose only global property is a format version with the empty
/// string as its value has no global line: its text is its glyph section
/// alone, with no empty line before the first glyph.
pub proof fn empty_version_writes_nothing(glyphs: Seq<GlyphView>)
    requires
        glyphs.len() > 0,
    ensures
        document_text(
            YaffFontView { yaff_version: Some(Seq::empty()), glyphs, ..YaffFontView::blank() },
        ) == trim_newlines(glyph_section(glyphs)) + seq!['\n'],
{
    let f = YaffFontView { yaff_version: Some(Seq::empty()), glyphs, ..YaffFontView::blank() };
    assert(!Seq::<char>::empty().contains('\n'));
    assert(string_property(version_key(), f.yaff_version) =~= Seq::<char>::empty());
    assert(global_section(f) =~= Seq::<char>::empty());
}

/// The view of an optional formatted value.
pub open spec fn opt_chars(o: Option<Vec<char>>) -> Option<Seq<char>> {
    match o {
        Some(v) => Some(v@),
        None => None,
    }
}

/// Appends the lines of one property, given its key and its formatted value.
/// An absent value appends nothing.
pub fn append_property(buffer: &mut Vec<char>, key: &str, formatted: &Option<Vec<char>>)
    ensures
        final(buffer)@ == old(buffer)@ + string_property(key@, opt_chars(*formatted)),
{
    if let Some(value) = formatted {
        if contains_newline(value) {
            append_str(buffer, key);
            buffer.push(':');
            buffer.push('\n');
            append_indented_lines(buffer, value);
        } else if value.len() == 0 {
            if !str_equals(key, "yaff") {
                append_str(buffer, key);
                buffer.push(':');
                buffer.push('\n');
            }
        } else {
            append_str(buffer, key);
            buffer.push(':');
            buffer.push(' ');
            append_chars(buffer, value);
            buffer.push('\n');
        }
    }
}

/// Appends the lines of a string property.
pub fn append_string(buffer: &mut Vec<char>, key: &str, value_opt: &Option<String>)
    ensures
        final(buffer)@ == old(buffer)@ + string_property(key@, opt_text(*value_opt)),
{
    let formatted: Option<Vec<char>> = match value_opt {
        Some(s) => Some(chars_of(s.as_str())),
        None => None,
    };
    append_property(buffer, key, &formatted);
}

/// Appends the lines of an integer property.
pub fn append_i32(buffer: &mut Vec<char>, key: &str, value_opt: &Option<i32>)
    ensures
        final(buffer)@ == old(buffer)@ + integer_property(key@, opt_int(*value_opt)),
{
    let formatted: Option<Vec<char>> = match value_opt {
        Some(v) => {
            let mut text: Vec<char> = Vec::new();
            append_signed_decimal(&mut text, *v as i64);
            Some(text)
        },
        None => None,
    };
    append_property(buffer, key, &formatted);
}

/// Appends the lines of a property that holds two integers.
pub fn append_i32_tuple(buffer: &mut Vec<char>, key: &str, value_opt: &Option<(i32, i32)>)
    ensures
        final(buffer)@ == old(buffer)@ + pair_property(key@, opt_pair(*value_opt)),
{
    let formatted: Option<Vec<char>> = match value_opt {
        Some(p) => {
            let mut text: Vec<char> = Vec::new();
            append_signed_decimal(&mut text, p.0 as i64);
            text.push(' ');
            append_signed_decimal(&mut text, p.1 as i64);
            assert(text@ =~= pair_text((p.0 as int, p.1 as int)));
            Some(text)
        },
        None => None,
    };
    append_property(buffer, key, &formatted);
}

/// Appends the lines of a property that holds two unsigned integers.
pub fn append_u32_tuple(buffer: &mut Vec<char>, key: &str, value_opt: &Option<(u32, u32)>)
    ensures
        final(buffer)@ == old(buffer)@ + pair_property(key@, opt_unsigned_pair(*value_opt)),
{
    let formatted: Option<Vec<char>> = match value_opt {
        Some(p) => {
            let mut text: Vec<char> = Vec::new();
            append_signed_decimal(&mut text, p.0 as i64);
            text.push(' ');
            append_signed_decimal(&mut text, p.1 as i64);
            assert(text@ =~= pair_text((p.0 as int, p.1 as int)));
            Some(text)
        },
        None => None,
    };
    append_property(buffer, key, &formatted);
}

/// Appends the lines of a property that holds four integers.
pub fn append_i32_quad_tuple(
    buffer: &mut Vec<char>,
    key: &str,
    value_opt: &Option<(i32, i32, i32, i32)>,
)
    ensures
        final(buffer)@ == old(buffer)@ + quad_property(key@, opt_quad(*value_opt)),
{
    let formatted: Option<Vec<char>> = match value_opt {
        Some(q) => {
            let mut text: Vec<char> = Vec::new();
            append_signed_decimal(&mut text, q.0 as i64);
            text.push(' ');
            append_signed_decimal(&mut text, q.1 as i64);
            text.push(' ');
            append_signed_decimal(&mut text, q.2 as i64);
            text.push(' ');
            append_signed_decimal(&mut text, q.3 as i64);
            assert(text@ =~= quad_text((q.0 as int, q.1 as int, q.2 as int, q.3 as int)));
            Some(text)
        },
        None => None,
    };
    append_property(buffer, key, &formatted);
}

/// Appends the lines of a spacing property.
pub fn append_font_spacing(buffer: &mut Vec<char>, key: &str, value_opt: &Option<FontSpacing>)
    ensures
        final(buffer)@ == old(buffer)@ + spacing_property(key@, *value_opt),
{
    let formatted: Option<Vec<char>> = match value_opt {
        Some(FontSpacing::Proportional) => Some(chars_of("proportional")),
        Some(FontSpacing::Monospace) => Some(chars_of("monospace")),
        Some(FontSpacing::CharacterCell) => Some(chars_of("character-cell")),
        Some(FontSpacing::MultiCell) => Some(chars_of("multi-cell")),
        None => None,
    };
    append_property(buffer, key, &formatted);
}

/// Appends the lines of a writing-direction property.
pub fn append_writing_direction(
    buffer: &mut Vec<char>,
    key: &str,
    value_opt: &Option<WritingDirection>,
)
    ensures
        final(buffer)@ == old(buffer)@ + direction_property(key@, *value_opt),
{
    let formatted: Option<Vec<char>> = match value_opt {
        Some(WritingDirection::LeftToRight) => Some(chars_of("left-to-right")),
        Some(WritingDirection::RightToLeft) => Some(chars_of("right-to-left")),
        None => None,
    };
    append_property(buffer, key, &formatted);
}

/// The global section of a font.
pub fn global_properties(font: &YaffFont) -> (text: Vec<char>)
    ensures
        text@ == global_section(font@),
{
    let mut text: Vec<char> = Vec::new();
    let buffer = &mut text;
    append_string(buffer, "yaff", &font.yaff_version);
    append_string(buffer, "name", &font.name);
    append_string(buffer, "family", &font.family);
    append_string(buffer, "subfamily", &font.subfamily);
    append_string(buffer, "revision", &font.revision);
    append_string(buffer, "point-size", &font.point_size);
    append_i32(buffer, "line-height", &font.line_height);
    append_string(buffer, "style", &font.style);
    append_string(buffer, "weight", &font.weight);
    append_string(buffer, "slant", &font.slant);
    append_string(buffer, "setwidth", &font.setwidth);
    append_string(buffer, "decoration", &font.decoration);
    append_i32(buffer, "x-height", &font.x_height);
    append_i32(buffer, "cap-height", &font.cap_height);
    append_i32(buffer, "ascent", &font.ascent);
    append_i32(buffer, "descent", &font.descent);
    append_i32(buffer, "pixel-size", &font.pixel_size);
    append_i32(buffer, "leading", &font.leading);
    append_i32_quad_tuple(buffer, "raster-bounds", &font.raster_bounds);
    append_i32_quad_tuple(buffer, "ink-bounds", &font.ink_bounds);
    append_u32_tuple(buffer, "raster-size", &font.raster_size);
    append_u32_tuple(buffer, "cell-size", &font.cell_size);
    append_u32_tuple(buffer, "bounding-box", &font.bounding_box);
    append_string(buffer, "average-width", &font.average_width);
    append_i32(buffer, "max-width", &font.max_width);
    append_i32(buffer, "cap-width", &font.cap_width);
    append_i32(buffer, "digit-width", &font.digit_width);
    append_font_spacing(buffer, "spacing", &font.spacing);
    append_writing_direction(buffer, "direction", &font.direction);
    append_i32(buffer, "bold-smear", &font.bold_smear);
    append_i32_tuple(buffer, "italic-pitch", &font.italic_pitch);
    append_i32(buffer, "outline-thickness", &font.outline_thickness);
    append_i32(buffer, "underline-thickness", &font.underline_thickness);
    append_i32(buffer, "underline-descent", &font.underline_descent);
    append_i32(buffer, "strikethrough-thickness", &font.strikethrough_thickness);
    append_i32(buffer, "strikethrough-ascent", &font.strikethrough_ascent);
    append_i32(buffer, "superscript-size", &font.superscript_size);
    append_i32_tuple(buffer, "superscript-offset", &font.superscript_offset);
    append_i32(buffer, "subscript-size", &font.subscript_size);
    append_i32_tuple(buffer, "subscript-offset", &font.subscript_offset);
    append_i32(buffer, "small-cap-size", &font.small_cap_size);
    append_i32(buffer, "word-space", &font.word_space);
    append_i32(buffer, "min-word-space", &font.min_word_space);
    append_i32(buffer, "max-word-space", &font.max_word_space);
    append_i32(buffer, "sentence-space", &font.sentence_space);
    append_string(buffer, "author", &font.author);
    append_string(buffer, "foundry", &font.foundry);
    append_string(buffer, "copyright", &font.copyright);
    append_string(buffer, "notice", &font.notice);
    append_string(buffer, "device", &font.device);
    append_u32_tuple(buffer, "pixel-aspect", &font.pixel_aspect);
    append_u32_tuple(buffer, "dpi", &font.dpi);
    append_string(buffer, "converter", &font.converter);
    append_string(buffer, "source-name", &font.source_name);
    append_string(buffer, "source-format", &font.source_format);
    append_string(buffer, "history", &font.history);
    append_string(buffer, "encoding", &font.encoding);
    append_string(buffer, "default-char", &font.default_char_label_raw);
    append_string(buffer, "word-boundary", &font.word_boundary_label_raw);
    append_i32(buffer, "left-bearing", &font.global_left_bearing);
    append_i32(buffer, "right-bearing", &font.global_right_bearing);
    append_i32(buffer, "shift-up", &font.global_shift_up);
    text
}

/// Appends one line per label.
fn append_label_lines(buffer: &mut Vec<char>, labels: &Vec<Label>)
    ensures
        final(buffer)@ == old(buffer)@ + label_lines(labels_view(labels@)),
{
    let ghost views = labels_view(labels@);
    let mut i: usize = 0;
    while i < labels.len()
        invariant
            i <= labels.len(),
            views == labels_view(labels@),
            buffer@ == old(buffer)@ + label_lines(views.take(i as int)),
        decreases labels.len() - i,
    {
        assert(views.take(i + 1).drop_last() =~= views.take(i as int));
        append_label(buffer, &labels[i]);
        buffer.push(':');
        buffer.push('\n');
        i += 1;
    }
    assert(views.take(i as int) =~= views);
}

/// Appends one indented line per row of pixels.
fn append_pixel_lines(buffer: &mut Vec<char>, pixels: &Vec<Vec<bool>>)
    ensures
        final(buffer)@ == old(buffer)@ + pixel_lines(rows_view(pixels@)),
{
    let ghost rows = rows_view(pixels@);
    let mut y: usize = 0;
    while y < pixels.len()
        invariant
            y <= pixels.len(),
            rows == rows_view(pixels@),
            buffer@ == old(buffer)@ + pixel_lines(rows.take(y as int)),
        decreases pixels.len() - y,
    {
        let ghost before = buffer@;
        let row = &pixels[y];
        buffer.push(' ');
        buffer.push(' ');
        let mut x: usize = 0;
        while x < row.len()
            invariant
                x <= row.len(),
                buffer@ == before + indent() + pixel_chars(row@).take(x as int),
            decreases row.len() - x,
        {
            buffer.push(if row[x] { '@' } else { '.' });
            x += 1;
        }
        buffer.push('\n');
        proof {
            assert(pixel_chars(row@).take(x as int) =~= pixel_chars(row@));
            assert(rows.take(y + 1).drop_last() =~= rows.take(y as int));
            assert(rows.take(y + 1).last() == row@);
        }
        y += 1;
    }
    assert(rows.take(y as int) =~= rows);
}

/// Appends the bitmap of a glyph.
fn append_bitmap(buffer: &mut Vec<char>, bitmap: &Bitmap)
    ensures
        final(buffer)@ == old(buffer)@ + bitmap_section(bitmap@),
{
    if bitmap.is_empty() {
        buffer.push(' ');
        buffer.push(' ');
        buffer.push('-');
        buffer.push('\n');
    } else {
        append_pixel_lines(buffer, &bitmap.pixels);
    }
}

/// Appends the block of a kerning mapping.
fn append_kerning_block(buffer: &mut Vec<char>, key: &str, kerning: &Option<Vec<KerningPair>>)
    ensures
        final(buffer)@ == old(buffer)@ + kerning_block(key@, opt_kerning(*kerning)),
{
    if let Some(map) = kerning {
        if map.len() > 0 {
            append_str(buffer, key);
            buffer.push(':');
            buffer.push('\n');
            append_kerning_map(buffer, map);
            buffer.push('\n');
        }
    }
}

/// Whether a kerning mapping is present and has entries.
fn kerning_has_entries(kerning: &Option<Vec<KerningPair>>) -> (any: bool)
    ensures
        any == has_entries(opt_kerning(*kerning)),
{
    match kerning {
        Some(map) => map.len() > 0,
        None => false,
    }
}

/// The properties of a glyph, before indentation.
fn glyph_properties_text(glyph: &GlyphDefinition) -> (text: Vec<char>)
    ensures
        text@ == glyph_properties(glyph@),
{
    let mut text: Vec<char> = Vec::new();
    let buffer = &mut text;
    append_i32(buffer, "left-bearing", &glyph.left_bearing);
    append_i32(buffer, "right-bearing", &glyph.right_bearing);
    append_i32(buffer, "shift-up", &glyph.shift_up);
    append_i32(buffer, "top-bearing", &glyph.top_bearing);
    append_i32(buffer, "bottom-bearing", &glyph.bottom_bearing);
    append_i32(buffer, "shift-left", &glyph.shift_left);
    append_string(buffer, "scalable-width", &glyph.scalable_width);
    append_kerning_block(buffer, "right-kerning", &glyph.right_kerning);
    append_kerning_block(buffer, "left-kerning", &glyph.left_kerning);
    text
}

/// Whether the glyph has any property of its own.
fn has_glyph_property(glyph: &GlyphDefinition) -> (any: bool)
    ensures
        any == any_glyph_property(glyph@),
{
    glyph.left_bearing.is_some() || glyph.right_bearing.is_some() || glyph.shift_up.is_some()
        || glyph.top_bearing.is_some() || glyph.bottom_bearing.is_some()
        || glyph.shift_left.is_some() || glyph.scalable_width.is_some() || kerning_has_entries(
        &glyph.right_kerning,
    ) || kerning_has_entries(&glyph.left_kerning)
}

/// Appends the block of one glyph.
pub fn append_glyph(buffer: &mut Vec<char>, glyph: &GlyphDefinition)
    ensures
        final(buffer)@ == old(buffer)@ + glyph_text(glyph@),
{
    if glyph.labels.len() == 0 && !glyph.bitmap.is_empty() {
        buffer.push(':');
        buffer.push('\n');
    } else {
        append_label_lines(buffer, &glyph.labels);
    }
    append_bitmap(buffer, &glyph.bitmap);
    if has_glyph_property(glyph) {
        proof {
            lemma_glyph_head_ends_line(glyph@, old(buffer)@);
        }
        ensure_blank_line(buffer);
        let mut properties = glyph_properties_text(glyph);
        trim_trailing_newlines(&mut properties);
        append_indented_lines(buffer, &properties);
    }
}

/// Appends the glyph section.
pub fn append_glyphs(buffer: &mut Vec<char>, glyphs: &Vec<GlyphDefinition>)
    ensures
        final(buffer)@ == old(buffer)@ + glyph_section(glyphs_view(glyphs@)),
{
    let ghost blocks = glyph_blocks(glyphs_view(glyphs@));
    let mut i: usize = 0;
    while i < glyphs.len()
        invariant
            i <= glyphs.len(),
            blocks == glyph_blocks(glyphs_view(glyphs@)),
            buffer@ == old(buffer)@ + join(blocks.take(i as int), seq!['\n']),
        decreases glyphs.len() - i,
    {
        proof {
            lemma_join_next(blocks, seq!['\n'], i as int);
        }
        if i > 0 {
            buffer.push('\n');
        }
        append_glyph(buffer, &glyphs[i]);
        i += 1;
    }
    assert(blocks.take(i as int) =~= blocks);
}

/// The canonical text of a font.
pub fn to_yaff_string(font: &YaffFont) -> (text: String)
    ensures
        text@ == document_text(font@),
{
    let mut buffer = global_properties(font);
    if font.glyphs.len() > 0 {
        if buffer.len() > 0 {
            ensure_blank_line(&mut buffer);
        }
        let ghost before = buffer@;
        append_glyphs(&mut buffer, &font.glyphs);
        assert(before.len() == 0 ==> buffer@ =~= glyph_section(font@.glyphs));
    }
    trim_trailing_newlines(&mut buffer);
    buffer.push('\n');
    string_of(&buffer)
}

/// Encoding depends on the value of the font alone: fonts of equal value
/// have the same canonical text, character for character.
pub proof fn encoding_is_deterministic(a: YaffFont, b: YaffFont)
    requires
        a@ == b@,
    ensures
        document_text(a@) == document_text(b@),
{
}

} // verus!
