use libyaff::encoder::{
    append_font_spacing, append_i32, append_i32_quad_tuple, append_i32_tuple, append_property,
    append_string, append_u32_tuple, append_writing_direction,
};
use libyaff::{
    format_kerning_map_to_string, format_label_to_string, to_yaff_string, Bitmap, FontSpacing,
    GlyphDefinition, KerningPair, Label, WritingDirection, YaffFont,
};

fn text(buffer: &Vec<char>) -> String {
    buffer.iter().collect()
}

fn chars(s: &str) -> Vec<char> {
    s.chars().collect()
}

fn bitmap(rows: &[&str]) -> Bitmap {
    let pixels: Vec<Vec<bool>> = rows.iter().map(|r| r.chars().map(|c| c == '@').collect()).collect();
    let width = if rows.is_empty() { 0 } else { rows[0].len() };
    Bitmap { pixels, width, height: rows.len() }
}

fn pair(label: Label, adjustment: f32) -> KerningPair {
    KerningPair { label, adjustment: format!("{:.2}", adjustment) }
}

#[test]
fn test_encoder_basic_font() {
    let mut font = YaffFont::new();
    font.name = Some("Basic Font".to_string());
    font.ascent = Some(8);

    let yaff_output = to_yaff_string(&font);
    assert!(yaff_output.contains("name: Basic Font"));
    assert!(yaff_output.contains("ascent: 8"));
}

#[test]
fn basic_font_is_two_lines_and_nothing_else() {
    let mut font = YaffFont::new();
    font.name = Some("Basic Font".to_string());
    font.ascent = Some(8);
    assert_eq!(to_yaff_string(&font), "name: Basic Font\nascent: 8\n");
}

#[test]
fn empty_font_is_one_newline() {
    assert_eq!(to_yaff_string(&YaffFont::new()), "\n");
}

#[test]
fn encoding_twice_gives_the_same_text() {
    let mut font = YaffFont::new();
    font.name = Some("Twice".to_string());
    font.point_size = Some(format!("{}", 12.5f32));
    let mut glyph = GlyphDefinition::new();
    glyph.labels.push(Label::Unicode(vec![0x41]));
    glyph.bitmap = bitmap(&["@.", ".@"]);
    glyph.right_kerning = Some(vec![pair(Label::Tag("b".to_string()), 1.0), pair(Label::Tag("a".to_string()), 2.0)]);
    font.glyphs.push(glyph);
    let first = to_yaff_string(&font);
    let second = to_yaff_string(&font);
    assert_eq!(first, second);
    assert_eq!(to_yaff_string(&font.clone()), first);
    assert_eq!(
        first,
        "name: Twice\npoint-size: 12.5\n\n'A':\n  @.\n  .@\n\n  right-kerning:\n    \"a\" 2.00\n    \"b\" 1.00\n"
    );
}

#[test]
fn empty_bitmap_is_a_dash_and_no_property_block() {
    let mut font = YaffFont::new();
    let mut glyph = GlyphDefinition::new();
    glyph.labels.push(Label::Tag("empty".to_string()));
    font.glyphs.push(glyph);
    assert_eq!(to_yaff_string(&font), "\"empty\":\n  -\n");
}

#[test]
fn empty_bitmap_with_a_metric_has_a_property_block() {
    let mut font = YaffFont::new();
    let mut glyph = GlyphDefinition::new();
    glyph.labels.push(Label::Tag("space".to_string()));
    glyph.right_bearing = Some(4);
    font.glyphs.push(glyph);
    assert_eq!(to_yaff_string(&font), "\"space\":\n  -\n\n  right-bearing: 4\n");
}

#[test]
fn bitmap_with_width_but_no_height_is_a_dash() {
    let mut font = YaffFont::new();
    let mut glyph = GlyphDefinition::new();
    glyph.labels.push(Label::Codepoint(vec![0x20]));
    glyph.bitmap = Bitmap { pixels: Vec::new(), width: 5, height: 0 };
    font.glyphs.push(glyph);
    assert_eq!(to_yaff_string(&font), "0x20:\n  -\n");
}

#[test]
fn labels_keep_their_stored_order() {
    let mut font = YaffFont::new();
    let mut glyph = GlyphDefinition::new();
    glyph.labels.push(Label::Tag("A".to_string()));
    glyph.labels.push(Label::Unicode(vec![0x41]));
    font.glyphs.push(glyph);
    let out = to_yaff_string(&font);
    assert_eq!(out, "\"A\":\n'A':\n  -\n");
    let lines: Vec<&str> = out.lines().collect();
    assert_eq!(lines[0], "\"A\":");
    assert_eq!(lines[1], "'A':");
}

#[test]
fn glyph_without_labels_but_with_ink_is_marked_by_a_colon() {
    let mut font = YaffFont::new();
    let mut glyph = GlyphDefinition::new();
    glyph.bitmap = bitmap(&["@"]);
    font.glyphs.push(glyph);
    assert_eq!(to_yaff_string(&font), ":\n  @\n");
}

#[test]
fn glyph_without_labels_and_without_ink_has_no_label_line() {
    let mut font = YaffFont::new();
    font.glyphs.push(GlyphDefinition::new());
    assert_eq!(to_yaff_string(&font), "  -\n");
}

#[test]
fn globals_and_glyphs_are_parted_by_one_empty_line() {
    let mut font = YaffFont::new();
    font.name = Some("N".to_string());
    let mut a = GlyphDefinition::new();
    a.labels.push(Label::Unicode(vec![0x41]));
    a.bitmap = bitmap(&[".@.", "@@@"]);
    let mut b = GlyphDefinition::new();
    b.labels.push(Label::Codepoint(vec![0x42]));
    b.bitmap = bitmap(&["@"]);
    font.glyphs.push(a);
    font.glyphs.push(b);
    assert_eq!(to_yaff_string(&font), "name: N\n\n'A':\n  .@.\n  @@@\n\n0x42:\n  @\n");
}

#[test]
fn empty_version_is_written_as_nothing() {
    let mut font = YaffFont::new();
    font.yaff_version = Some(String::new());
    assert_eq!(to_yaff_string(&font), "\n");
    font.name = Some(String::new());
    assert_eq!(to_yaff_string(&font), "name:\n");
}

#[test]
fn empty_version_puts_no_empty_line_before_the_glyphs() {
    let mut font = YaffFont::new();
    font.yaff_version = Some(String::new());
    let mut glyph = GlyphDefinition::new();
    glyph.bitmap = bitmap(&["@"]);
    font.glyphs.push(glyph);
    assert_eq!(to_yaff_string(&font), ":\n  @\n");
}

#[test]
fn empty_version_and_a_labelled_glyph_without_ink() {
    let mut font = YaffFont::new();
    font.yaff_version = Some(String::new());
    let mut glyph = GlyphDefinition::new();
    glyph.labels.push(Label::Tag("A".to_string()));
    font.glyphs.push(glyph);
    assert_eq!(to_yaff_string(&font), "\"A\":\n  -\n");
}

#[test]
fn empty_version_beside_another_property_leaves_one_empty_line() {
    let mut font = YaffFont::new();
    font.yaff_version = Some(String::new());
    font.name = Some("N".to_string());
    let mut glyph = GlyphDefinition::new();
    glyph.bitmap = bitmap(&["@"]);
    font.glyphs.push(glyph);
    assert_eq!(to_yaff_string(&font), "name: N\n\n:\n  @\n");
}

#[test]
fn version_with_a_value_is_an_ordinary_line() {
    let mut font = YaffFont::new();
    font.yaff_version = Some("1.0.2".to_string());
    assert_eq!(to_yaff_string(&font), "yaff: 1.0.2\n");
}

#[test]
fn value_with_newlines_goes_below_its_key() {
    let mut font = YaffFont::new();
    font.copyright = Some("first\nsecond".to_string());
    assert_eq!(to_yaff_string(&font), "copyright:\n  first\n  second\n");
    font.copyright = Some("first\r\nsecond\r".to_string());
    assert_eq!(to_yaff_string(&font), "copyright:\n  first\n  second\r\n");
    font.copyright = Some("only\n".to_string());
    assert_eq!(to_yaff_string(&font), "copyright:\n  only\n");
    font.copyright = Some("a\n\nb".to_string());
    assert_eq!(to_yaff_string(&font), "copyright:\n  a\n  \n  b\n");
    font.copyright = Some("\n".to_string());
    assert_eq!(to_yaff_string(&font), "copyright:\n  \n");
}

#[test]
fn global_properties_come_in_the_fixed_order() {
    let mut font = YaffFont::new();
    font.global_shift_up = Some(-1);
    font.global_right_bearing = Some(2);
    font.global_left_bearing = Some(3);
    font.word_boundary_label_raw = Some("' '".to_string());
    font.default_char_label_raw = Some("0x3F".to_string());
    font.encoding = Some("ascii".to_string());
    font.dpi = Some((96, 96));
    font.pixel_aspect = Some((1, 1));
    font.sentence_space = Some(8);
    font.subscript_offset = Some((0, -2));
    font.superscript_offset = Some((0, 3));
    font.italic_pitch = Some((1, 4));
    font.direction = Some(WritingDirection::RightToLeft);
    font.spacing = Some(FontSpacing::CharacterCell);
    font.average_width = Some(format!("{}", 6.25f32));
    font.bounding_box = Some((8, 16));
    font.cell_size = Some((8, 16));
    font.raster_size = Some((7, 15));
    font.ink_bounds = Some((0, -3, 7, 12));
    font.raster_bounds = Some((-1, -4, 8, 13));
    font.leading = Some(0);
    font.descent = Some(4);
    font.ascent = Some(12);
    font.line_height = Some(16);
    font.point_size = Some(format!("{}", 12.0f32));
    font.revision = Some("3".to_string());
    font.family = Some("Fam".to_string());
    font.name = Some("Fam Regular".to_string());
    font.yaff_version = Some("1.0".to_string());
    let expected = "yaff: 1.0\n\
name: Fam Regular\n\
family: Fam\n\
revision: 3\n\
point-size: 12\n\
line-height: 16\n\
ascent: 12\n\
descent: 4\n\
leading: 0\n\
raster-bounds: -1 -4 8 13\n\
ink-bounds: 0 -3 7 12\n\
raster-size: 7 15\n\
cell-size: 8 16\n\
bounding-box: 8 16\n\
average-width: 6.25\n\
spacing: character-cell\n\
direction: right-to-left\n\
italic-pitch: 1 4\n\
superscript-offset: 0 3\n\
subscript-offset: 0 -2\n\
sentence-space: 8\n\
pixel-aspect: 1 1\n\
dpi: 96 96\n\
encoding: ascii\n\
default-char: 0x3F\n\
word-boundary: ' '\n\
left-bearing: 3\n\
right-bearing: 2\n\
shift-up: -1\n";
    assert_eq!(to_yaff_string(&font), expected);
}

#[test]
fn every_string_and_integer_property_has_its_key() {
    let mut font = YaffFont::new();
    font.subfamily = Some("a".to_string());
    font.style = Some("b".to_string());
    font.weight = Some("c".to_string());
    font.slant = Some("d".to_string());
    font.setwidth = Some("e".to_string());
    font.decoration = Some("f".to_string());
    font.x_height = Some(1);
    font.cap_height = Some(2);
    font.pixel_size = Some(3);
    font.max_width = Some(4);
    font.cap_width = Some(5);
    font.digit_width = Some(6);
    font.bold_smear = Some(7);
    font.outline_thickness = Some(8);
    font.underline_thickness = Some(9);
    font.underline_descent = Some(10);
    font.strikethrough_thickness = Some(11);
    font.strikethrough_ascent = Some(12);
    font.superscript_size = Some(13);
    font.subscript_size = Some(14);
    font.small_cap_size = Some(15);
    font.word_space = Some(16);
    font.min_word_space = Some(17);
    font.max_word_space = Some(18);
    font.author = Some("g".to_string());
    font.foundry = Some("h".to_string());
    font.copyright = Some("i".to_string());
    font.notice = Some("j".to_string());
    font.device = Some("k".to_string());
    font.converter = Some("l".to_string());
    font.source_name = Some("m".to_string());
    font.source_format = Some("n".to_string());
    font.history = Some("o".to_string());
    let expected = "subfamily: a\nstyle: b\nweight: c\nslant: d\nsetwidth: e\ndecoration: f\n\
x-height: 1\ncap-height: 2\npixel-size: 3\nmax-width: 4\ncap-width: 5\ndigit-width: 6\n\
bold-smear: 7\noutline-thickness: 8\nunderline-thickness: 9\nunderline-descent: 10\n\
strikethrough-thickness: 11\nstrikethrough-ascent: 12\nsuperscript-size: 13\n\
subscript-size: 14\nsmall-cap-size: 15\nword-space: 16\nmin-word-space: 17\n\
max-word-space: 18\nauthor: g\nfoundry: h\ncopyright: i\nnotice: j\ndevice: k\n\
converter: l\nsource-name: m\nsource-format: n\nhistory: o\n";
    assert_eq!(to_yaff_string(&font), expected);
}

#[test]
fn spacing_and_direction_tokens() {
    let cases = [
        (FontSpacing::Proportional, "spacing: proportional\n"),
        (FontSpacing::Monospace, "spacing: monospace\n"),
        (FontSpacing::CharacterCell, "spacing: character-cell\n"),
        (FontSpacing::MultiCell, "spacing: multi-cell\n"),
    ];
    for (spacing, expected) in cases {
        let mut buffer: Vec<char> = Vec::new();
        append_font_spacing(&mut buffer, "spacing", &Some(spacing));
        assert_eq!(text(&buffer), expected);
    }
    let mut buffer: Vec<char> = Vec::new();
    append_writing_direction(&mut buffer, "direction", &Some(WritingDirection::LeftToRight));
    append_writing_direction(&mut buffer, "direction", &Some(WritingDirection::RightToLeft));
    append_writing_direction(&mut buffer, "direction", &None);
    append_font_spacing(&mut buffer, "spacing", &None);
    assert_eq!(text(&buffer), "direction: left-to-right\ndirection: right-to-left\n");
}

#[test]
fn integers_are_written_in_decimal() {
    let mut buffer: Vec<char> = Vec::new();
    append_i32(&mut buffer, "a", &Some(0));
    append_i32(&mut buffer, "b", &Some(-7));
    append_i32(&mut buffer, "c", &Some(i32::MAX));
    append_i32(&mut buffer, "d", &Some(i32::MIN));
    append_i32(&mut buffer, "e", &None);
    append_i32(&mut buffer, "f", &Some(1000));
    assert_eq!(text(&buffer), "a: 0\nb: -7\nc: 2147483647\nd: -2147483648\nf: 1000\n");
}

#[test]
fn tuples_are_separated_by_spaces() {
    let mut buffer: Vec<char> = Vec::new();
    append_i32_tuple(&mut buffer, "p", &Some((-1, 20)));
    append_u32_tuple(&mut buffer, "u", &Some((0, u32::MAX)));
    append_i32_quad_tuple(&mut buffer, "q", &Some((1, -2, 30, i32::MIN)));
    append_i32_tuple(&mut buffer, "p", &None);
    append_u32_tuple(&mut buffer, "u", &None);
    append_i32_quad_tuple(&mut buffer, "q", &None);
    assert_eq!(text(&buffer), "p: -1 20\nu: 0 4294967295\nq: 1 -2 30 -2147483648\n");
}

#[test]
fn property_lines_follow_the_layout_rules() {
    let mut buffer: Vec<char> = chars("x\n");
    append_property(&mut buffer, "key", &None);
    assert_eq!(text(&buffer), "x\n");
    append_property(&mut buffer, "key", &Some(chars("value")));
    assert_eq!(text(&buffer), "x\nkey: value\n");
    append_property(&mut buffer, "key", &Some(chars("")));
    assert_eq!(text(&buffer), "x\nkey: value\nkey:\n");
    append_property(&mut buffer, "yaff", &Some(chars("")));
    assert_eq!(text(&buffer), "x\nkey: value\nkey:\n");
    append_property(&mut buffer, "yaff", &Some(chars("a\nb")));
    assert_eq!(text(&buffer), "x\nkey: value\nkey:\nyaff:\n  a\n  b\n");
}

#[test]
fn string_properties_are_written_verbatim() {
    let mut buffer: Vec<char> = Vec::new();
    append_string(&mut buffer, "name", &Some("Gr\u{fc}n: \u{1F600} \"q\"".to_string()));
    append_string(&mut buffer, "family", &None);
    assert_eq!(text(&buffer), "name: Gr\u{fc}n: \u{1F600} \"q\"\n");
}

#[test]
fn label_texts() {
    assert_eq!(format_label_to_string(&Label::Unicode(vec![])), "''");
    assert_eq!(format_label_to_string(&Label::Unicode(vec![0x41])), "'A'");
    assert_eq!(
        format_label_to_string(&Label::Unicode(vec![0x41, 0x27, 0x1F600, 0x7F, 0x20, 0x7E, 0x1F, 0xE9])),
        "'A', u+0027, u+1F600, u+007F, ' ', '~', u+001F, u+00E9"
    );
    assert_eq!(format_label_to_string(&Label::Unicode(vec![0])), "u+0000");
    assert_eq!(format_label_to_string(&Label::Unicode(vec![0xD800, 0x110000, 0xFFFF])), "u+D800, u+110000, u+FFFF");
    assert_eq!(format_label_to_string(&Label::Unicode(vec![u32::MAX])), "u+FFFFFFFF");
    assert_eq!(format_label_to_string(&Label::Codepoint(vec![])), "");
    assert_eq!(format_label_to_string(&Label::Codepoint(vec![0x41, 0x1FF, 0, 0xABCD, 10])), "0x41, 0x1FF, 0x0, 0xABCD, 0xA");
    assert_eq!(format_label_to_string(&Label::Tag("tag".to_string())), "\"tag\"");
    assert_eq!(format_label_to_string(&Label::Tag("a\"b".to_string())), "\"a\"b\"");
    assert_eq!(format_label_to_string(&Label::Tag(String::new())), "\"\"");
    assert_eq!(format_label_to_string(&Label::Anonymous), "");
}

#[test]
fn kerning_lines_are_sorted_by_label_text() {
    let map = vec![
        pair(Label::Codepoint(vec![0x41]), 0.5),
        pair(Label::Tag("b".to_string()), -1.0),
        pair(Label::Unicode(vec![0x41]), 2.0),
        pair(Label::Tag("a".to_string()), 1.256),
    ];
    assert_eq!(
        format_kerning_map_to_string(&map),
        "  \"a\" 1.26\n  \"b\" -1.00\n  'A' 2.00\n  0x41 0.50"
    );
    assert_eq!(format_kerning_map_to_string(&Vec::new()), "");
    assert_eq!(format_kerning_map_to_string(&vec![pair(Label::Anonymous, 3.0)]), "   3.00");
}

#[test]
fn kerning_text_does_not_depend_on_entry_order() {
    let entries = vec![
        pair(Label::Tag("z".to_string()), 1.0),
        pair(Label::Tag("\u{e9}".to_string()), 2.0),
        pair(Label::Tag("zz".to_string()), 3.0),
        pair(Label::Unicode(vec![0x10000]), 4.0),
        pair(Label::Unicode(vec![0xFFFF]), 5.0),
    ];
    let expected = "  \"z\" 1.00\n  \"zz\" 3.00\n  \"\u{e9}\" 2.00\n  u+10000 4.00\n  u+FFFF 5.00";
    let mut reversed = entries.clone();
    reversed.reverse();
    let mut rotated = entries.clone();
    rotated.rotate_left(2);
    assert_eq!(format_kerning_map_to_string(&entries), expected);
    assert_eq!(format_kerning_map_to_string(&reversed), expected);
    assert_eq!(format_kerning_map_to_string(&rotated), expected);
}

#[test]
fn kerning_entries_with_equal_text_keep_their_order() {
    let map = vec![pair(Label::Codepoint(vec![]), 2.0), pair(Label::Anonymous, 1.0)];
    assert_eq!(format_kerning_map_to_string(&map), "   2.00\n   1.00");
}

#[test]
fn glyph_properties_come_in_the_fixed_order_and_indented() {
    let mut font = YaffFont::new();
    let mut glyph = GlyphDefinition::new();
    glyph.labels.push(Label::Unicode(vec![0x41]));
    glyph.bitmap = bitmap(&["@.", ".@"]);
    glyph.left_kerning = Some(vec![pair(Label::Unicode(vec![0x56]), -2.0)]);
    glyph.right_kerning = Some(vec![pair(Label::Unicode(vec![0x57]), -1.5), pair(Label::Unicode(vec![0x42]), 0.25)]);
    glyph.scalable_width = Some(format!("{}", 7.5f32));
    glyph.shift_left = Some(6);
    glyph.bottom_bearing = Some(5);
    glyph.top_bearing = Some(4);
    glyph.shift_up = Some(-3);
    glyph.right_bearing = Some(2);
    glyph.left_bearing = Some(1);
    font.glyphs.push(glyph);
    let expected = "'A':\n  @.\n  .@\n\n  left-bearing: 1\n  right-bearing: 2\n  shift-up: -3\n  \
top-bearing: 4\n  bottom-bearing: 5\n  shift-left: 6\n  scalable-width: 7.5\n  right-kerning:\n    \
'B' 0.25\n    'W' -1.50\n  left-kerning:\n    'V' -2.00\n";
    assert_eq!(to_yaff_string(&font), expected);
}

#[test]
fn empty_kerning_mapping_is_no_property() {
    let mut font = YaffFont::new();
    let mut glyph = GlyphDefinition::new();
    glyph.bitmap = bitmap(&["@"]);
    glyph.right_kerning = Some(Vec::new());
    glyph.left_kerning = Some(Vec::new());
    font.glyphs.push(glyph);
    assert_eq!(to_yaff_string(&font), ":\n  @\n");
}

#[test]
fn glyphs_are_parted_by_one_empty_line_also_after_properties() {
    let mut font = YaffFont::new();
    let mut a = GlyphDefinition::new();
    a.labels.push(Label::Tag("a".to_string()));
    a.bitmap = bitmap(&["@"]);
    a.left_bearing = Some(1);
    let mut b = GlyphDefinition::new();
    b.labels.push(Label::Tag("b".to_string()));
    font.glyphs.push(a);
    font.glyphs.push(b);
    assert_eq!(to_yaff_string(&font), "\"a\":\n  @\n\n  left-bearing: 1\n\n\"b\":\n  -\n");
}

#[test]
fn a_label_with_a_newline_is_split_in_the_kerning_block() {
    let mut font = YaffFont::new();
    let mut glyph = GlyphDefinition::new();
    glyph.bitmap = bitmap(&["@"]);
    glyph.right_kerning = Some(vec![pair(Label::Tag("x\ny".to_string()), 1.0)]);
    font.glyphs.push(glyph);
    assert_eq!(to_yaff_string(&font), ":\n  @\n\n  right-kerning:\n    \"x\n  y\" 1.00\n");
}

#[test]
fn the_document_ends_with_exactly_one_newline() {
    let mut font = YaffFont::new();
    font.notice = Some("n".to_string());
    let mut glyph = GlyphDefinition::new();
    glyph.bitmap = bitmap(&["@@", ".."]);
    glyph.scalable_width = Some(format!("{}", 2.0f32));
    font.glyphs.push(glyph);
    let out = to_yaff_string(&font);
    assert!(out.ends_with('\n'));
    assert!(!out.ends_with("\n\n"));
    assert_eq!(out, "notice: n\n\n:\n  @@\n  ..\n\n  scalable-width: 2\n");
}
