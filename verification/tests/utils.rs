use libyaff::{
    calculate_ascent, convert_codepoint_to_unicode_labels, minimize_all_bounding_boxes,
    minimize_glyph_bounding_box, set_ascent, to_yaff_string, Bitmap, GlyphDefinition, Label,
    YaffFont,
};

fn grid(rows: &[&str]) -> Bitmap {
    let pixels: Vec<Vec<bool>> = rows.iter().map(|r| r.chars().map(|c| c == '@').collect()).collect();
    let width = if rows.is_empty() { 0 } else { rows[0].len() };
    Bitmap { pixels, width, height: rows.len() }
}

fn glyph(rows: &[&str]) -> GlyphDefinition {
    let mut g = GlyphDefinition::new();
    g.bitmap = grid(rows);
    g
}

fn advance(g: &GlyphDefinition) -> i64 {
    g.left_bearing.unwrap_or(0) as i64 + g.bitmap.width as i64 + g.right_bearing.unwrap_or(0) as i64
}

#[test]
fn ascent_of_no_glyphs_is_zero() {
    assert_eq!(calculate_ascent(&YaffFont::new()), 0);
}

#[test]
fn ascent_is_the_highest_top() {
    let mut font = YaffFont::new();
    let mut a = glyph(&["@", "@", "@"]);
    a.shift_up = Some(-2);
    let mut b = glyph(&["@", "@"]);
    b.shift_up = Some(5);
    let c = glyph(&["@", "@", "@", "@"]);
    font.glyphs.push(a);
    font.glyphs.push(b);
    font.glyphs.push(c);
    assert_eq!(calculate_ascent(&font), 7);
}

#[test]
fn ascent_may_be_negative() {
    let mut font = YaffFont::new();
    let mut a = GlyphDefinition::new();
    a.shift_up = Some(-5);
    let mut b = glyph(&["@"]);
    b.shift_up = Some(-9);
    font.glyphs.push(a);
    font.glyphs.push(b);
    assert_eq!(calculate_ascent(&font), -5);
}

#[test]
fn set_ascent_stores_the_calculated_ascent() {
    let mut font = YaffFont::new();
    font.name = Some("kept".to_string());
    font.ascent = Some(100);
    let mut a = glyph(&["@", "@"]);
    a.shift_up = Some(1);
    font.glyphs.push(a);
    let before = font.clone();
    set_ascent(&mut font);
    assert_eq!(font.ascent, Some(3));
    font.ascent = before.ascent;
    assert_eq!(font, before);
}

#[test]
fn minimizing_crops_to_the_ink_and_keeps_the_advance() {
    let mut g = glyph(&[".@@@.", ".@@@.", ".@@@."]);
    g.left_bearing = Some(1);
    g.right_bearing = Some(1);
    let before = advance(&g);
    minimize_glyph_bounding_box(&mut g, 8);
    assert_eq!(g.bitmap, grid(&["@@@", "@@@", "@@@"]));
    assert_eq!(g.bitmap.width, 3);
    assert_eq!(g.bitmap.height, 3);
    assert_eq!(g.left_bearing, Some(2));
    assert_eq!(g.right_bearing, Some(2));
    assert_eq!(g.top_bearing, Some(5));
    assert_eq!(g.shift_up, Some(2));
    assert_eq!(advance(&g), before);
}

#[test]
fn minimizing_crops_rows_and_columns() {
    let mut g = glyph(&["......", "..@...", "...@@.", "......", "......"]);
    g.shift_up = Some(-1);
    g.labels.push(Label::Tag("kept".to_string()));
    g.bottom_bearing = Some(9);
    g.shift_left = Some(7);
    let before = advance(&g);
    minimize_glyph_bounding_box(&mut g, 10);
    assert_eq!(g.bitmap, grid(&["@..", ".@@"]));
    assert_eq!(g.left_bearing, Some(2));
    assert_eq!(g.right_bearing, Some(1));
    // top bearing from the ascent: 10 - (-1 + 5) = 6, plus one row cut off
    assert_eq!(g.top_bearing, Some(7));
    assert_eq!(g.shift_up, Some(5));
    assert_eq!(g.labels, vec![Label::Tag("kept".to_string())]);
    assert_eq!(g.bottom_bearing, Some(9));
    assert_eq!(g.shift_left, Some(7));
    assert_eq!(advance(&g), before);
}

#[test]
fn minimizing_uses_a_stored_top_bearing() {
    let mut g = glyph(&["...", ".@.", "..."]);
    g.top_bearing = Some(2);
    g.shift_up = Some(40);
    minimize_glyph_bounding_box(&mut g, 100);
    assert_eq!(g.bitmap, grid(&["@"]));
    assert_eq!(g.top_bearing, Some(3));
    assert_eq!(g.shift_up, Some(2));
    assert_eq!(g.left_bearing, Some(1));
    assert_eq!(g.right_bearing, Some(1));
}

#[test]
fn minimizing_a_bitmap_without_ink_folds_its_width_into_the_right_bearing() {
    let mut g = glyph(&["...", "..."]);
    g.left_bearing = Some(1);
    g.shift_up = Some(3);
    let before = advance(&g);
    minimize_glyph_bounding_box(&mut g, 8);
    assert_eq!(g.bitmap, Bitmap { pixels: Vec::new(), width: 0, height: 0 });
    assert_eq!(g.left_bearing, Some(1));
    assert_eq!(g.right_bearing, Some(3));
    assert_eq!(g.shift_up, Some(3));
    assert_eq!(g.top_bearing, None);
    assert_eq!(advance(&g), before);
}

#[test]
fn minimizing_an_empty_bitmap_with_width() {
    let mut g = GlyphDefinition::new();
    g.bitmap = Bitmap { pixels: Vec::new(), width: 4, height: 0 };
    g.right_bearing = Some(-1);
    g.top_bearing = Some(6);
    g.shift_up = Some(1);
    minimize_glyph_bounding_box(&mut g, 8);
    assert_eq!(g.bitmap, Bitmap { pixels: Vec::new(), width: 0, height: 0 });
    assert_eq!(g.right_bearing, Some(3));
    assert_eq!(g.shift_up, Some(6));
    assert_eq!(g.top_bearing, Some(6));
}

#[test]
fn minimizing_the_bitmap_of_no_size_changes_nothing() {
    let mut g = GlyphDefinition::new();
    g.shift_up = Some(2);
    let before = g.clone();
    minimize_glyph_bounding_box(&mut g, 8);
    assert_eq!(g, before);
    assert_eq!(g.right_bearing, None);
}

#[test]
fn minimizing_twice_is_minimizing_once() {
    let mut inked = glyph(&["....", ".@..", ".@@.", "...."]);
    inked.left_bearing = Some(-1);
    inked.shift_up = Some(2);
    let mut blank = glyph(&["..", ".."]);
    blank.top_bearing = Some(3);
    let mut none = GlyphDefinition::new();
    none.bitmap = Bitmap { pixels: Vec::new(), width: 0, height: 7 };
    for g in [&mut inked, &mut blank, &mut none] {
        minimize_glyph_bounding_box(g, 9);
        let once = g.clone();
        minimize_glyph_bounding_box(g, 9);
        assert_eq!(*g, once);
    }
    assert_eq!(inked.bitmap, grid(&["@.", "@@"]));
}

#[test]
fn minimizing_all_uses_the_declared_ascent() {
    let mut font = YaffFont::new();
    font.ascent = Some(10);
    font.glyphs.push(glyph(&["..", ".@"]));
    font.glyphs.push(glyph(&["@"]));
    minimize_all_bounding_boxes(&mut font);
    assert_eq!(font.ascent, Some(10));
    assert_eq!(font.glyphs[0].bitmap, grid(&["@"]));
    assert_eq!(font.glyphs[0].top_bearing, Some(9));
    assert_eq!(font.glyphs[0].shift_up, Some(8));
    assert_eq!(font.glyphs[0].left_bearing, Some(1));
    assert_eq!(font.glyphs[0].right_bearing, Some(0));
    assert_eq!(font.glyphs[1].top_bearing, Some(9));
    assert_eq!(font.glyphs[1].shift_up, Some(8));
}

#[test]
fn minimizing_all_calculates_a_missing_ascent() {
    let mut font = YaffFont::new();
    font.glyphs.push(glyph(&["..", ".@"]));
    let mut tall = glyph(&["@", "@", "@"]);
    tall.shift_up = Some(1);
    font.glyphs.push(tall);
    minimize_all_bounding_boxes(&mut font);
    assert_eq!(font.ascent, None);
    // the ascent is 4: the first glyph's top bearing is 4 - 2 + 1
    assert_eq!(font.glyphs[0].top_bearing, Some(3));
    assert_eq!(font.glyphs[0].shift_up, Some(2));
    assert_eq!(font.glyphs[1].top_bearing, Some(0));
    assert_eq!(font.glyphs[1].shift_up, Some(-3));
    assert_eq!(
        to_yaff_string(&font),
        ":\n  @\n\n  left-bearing: 1\n  right-bearing: 0\n  shift-up: 2\n  top-bearing: 3\n\n\
:\n  @\n  @\n  @\n\n  left-bearing: 0\n  right-bearing: 0\n  shift-up: -3\n  top-bearing: 0\n"
    );
}

#[test]
fn printable_ascii_codepoints_give_unicode_labels() {
    let mut font = YaffFont::new();
    let mut g = GlyphDefinition::new();
    g.labels.push(Label::Tag("t".to_string()));
    g.labels.push(Label::Codepoint(vec![0x41, 0x1F, 0x7E, 0x7F, 0x20, 0x100]));
    font.glyphs.push(g);
    assert!(convert_codepoint_to_unicode_labels(&mut font));
    assert_eq!(
        font.glyphs[0].labels,
        vec![
            Label::Tag("t".to_string()),
            Label::Codepoint(vec![0x41, 0x1F, 0x7E, 0x7F, 0x20, 0x100]),
            Label::Unicode(vec![0x41]),
            Label::Unicode(vec![0x7E]),
            Label::Unicode(vec![0x20]),
        ]
    );
}

#[test]
fn only_the_first_codepoint_label_is_converted() {
    let mut font = YaffFont::new();
    font.encoding = Some("ascii".to_string());
    let mut g = GlyphDefinition::new();
    g.labels.push(Label::Codepoint(vec![0x41]));
    g.labels.push(Label::Codepoint(vec![0x42]));
    font.glyphs.push(g);
    assert!(convert_codepoint_to_unicode_labels(&mut font));
    assert_eq!(
        font.glyphs[0].labels,
        vec![Label::Codepoint(vec![0x41]), Label::Codepoint(vec![0x42]), Label::Unicode(vec![0x41])]
    );
}

#[test]
fn glyphs_with_a_unicode_label_are_left_alone() {
    let mut font = YaffFont::new();
    let mut with = GlyphDefinition::new();
    with.labels.push(Label::Codepoint(vec![0x41]));
    with.labels.push(Label::Unicode(vec![]));
    let mut without_codepoint = GlyphDefinition::new();
    without_codepoint.labels.push(Label::Anonymous);
    let mut out_of_range = GlyphDefinition::new();
    out_of_range.labels.push(Label::Codepoint(vec![0x80, 0x0A]));
    font.glyphs.push(with);
    font.glyphs.push(without_codepoint);
    font.glyphs.push(out_of_range);
    let before = font.clone();
    assert!(convert_codepoint_to_unicode_labels(&mut font));
    assert_eq!(font, before);
}

#[test]
fn another_encoding_changes_nothing() {
    for encoding in ["latin-1", "ASCII", "", "ascii "] {
        let mut font = YaffFont::new();
        font.encoding = Some(encoding.to_string());
        let mut g = GlyphDefinition::new();
        g.labels.push(Label::Codepoint(vec![0x41]));
        font.glyphs.push(g);
        let before = font.clone();
        assert!(!convert_codepoint_to_unicode_labels(&mut font));
        assert_eq!(font, before);
    }
}
