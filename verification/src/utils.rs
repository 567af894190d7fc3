//! Transformations of a font before it is encoded: the ascent that its
//! glyphs imply, the cropping of glyph bitmaps to their ink, and Unicode
//! labels derived from ASCII codepoint labels.

use vstd::prelude::*;
use crate::models::{
    glyphs_view, labels_view, rows_view, BitmapView, GlyphDefinition, GlyphView, Label, LabelView,
    YaffFont, YaffFontView,
};
use crate::text::str_equals;

verus! {

/// The value of an optional metric, an absent one counting as zero.
pub open spec fn or_zero(metric: Option<int>) -> int {
    match metric {
        Some(v) => v,
        None => 0,
    }
}

/// Whether a value can be held by a 32-bit signed metric.
pub open spec fn fits(v: int) -> bool {
    i32::MIN <= v <= i32::MAX
}

/// Whether an optional value, if present, can be held by a 32-bit signed
/// metric.
pub open spec fn opt_fits(metric: Option<int>) -> bool {
    match metric {
        Some(v) => fits(v),
        None => true,
    }
}

/// How far the top row of a glyph's bitmap lies above the baseline: its
/// shift-up plus the height of its bitmap.
pub open spec fn glyph_top(g: GlyphView) -> int {
    or_zero(g.shift_up) + g.bitmap.height
}

/// The ascent that the glyphs imply: the greatest `glyph_top` among them,
/// and zero when there is no glyph.
pub open spec fn highest_top(glyphs: Seq<GlyphView>) -> int
    decreases glyphs.len(),
{
    if glyphs.len() == 0 {
        0
    } else if glyphs.len() == 1 {
        glyph_top(glyphs[0])
    } else {
        let before = highest_top(glyphs.drop_last());
        let last = glyph_top(glyphs.last());
        if last > before {
            last
        } else {
            before
        }
    }
}

/// Whether the top of every glyph can be held by a 32-bit signed metric.
pub open spec fn tops_fit(glyphs: Seq<GlyphView>) -> bool {
    forall|i: int| 0 <= i < glyphs.len() ==> fits(glyph_top(#[trigger] glyphs[i]))
}

/// `highest_top` is the maximum of `glyph_top` over the glyphs: no glyph
/// lies above it, some glyph reaches it, and without glyphs it is zero.
pub proof fn highest_top_is_maximum(glyphs: Seq<GlyphView>)
    ensures
        glyphs.len() == 0 ==> highest_top(glyphs) == 0,
        forall|i: int| 0 <= i < glyphs.len() ==> glyph_top(#[trigger] glyphs[i]) <= highest_top(glyphs),
        glyphs.len() > 0 ==> exists|i: int|
            0 <= i < glyphs.len() && glyph_top(#[trigger] glyphs[i]) == highest_top(glyphs),
    decreases glyphs.len(),
{
    if glyphs.len() > 1 {
        let front = glyphs.drop_last();
        highest_top_is_maximum(front);
        assert forall|i: int| 0 <= i < glyphs.len() implies glyph_top(#[trigger] glyphs[i])
            <= highest_top(glyphs) by {
            if i < front.len() {
                assert(glyphs[i] == front[i]);
            }
        }
        if glyph_top(glyphs.last()) > highest_top(front) {
            assert(glyph_top(glyphs[glyphs.len() - 1]) == highest_top(glyphs));
        } else {
            let i = choose|i: int| 0 <= i < front.len() && glyph_top(#[trigger] front[i]) == highest_top(front);
            assert(glyph_top(glyphs[i]) == highest_top(glyphs));
        }
    } else if glyphs.len() == 1 {
        assert(glyph_top(glyphs[0]) == highest_top(glyphs));
    }
}

/// Whether the pixel in column `x` of row `y` exists and is ink.
pub open spec fn ink_at(pixels: Seq<Seq<bool>>, x: int, y: int) -> bool {
    0 <= y < pixels.len() && 0 <= x < pixels[y].len() && pixels[y][x]
}

/// Whether any pixel is ink.
pub open spec fn has_ink(pixels: Seq<Seq<bool>>) -> bool {
    exists|x: int, y: int| ink_at(pixels, x, y)
}

/// Whether row `y` holds ink.
pub open spec fn row_has_ink(pixels: Seq<Seq<bool>>, y: int) -> bool {
    exists|x: int| ink_at(pixels, x, y)
}

/// Whether column `x` holds ink.
pub open spec fn column_has_ink(pixels: Seq<Seq<bool>>, x: int) -> bool {
    exists|y: int| ink_at(pixels, x, y)
}

/// The first index from `lo` up to `hi` at which `holds` is true, or `hi`.
pub open spec fn first_from(holds: spec_fn(int) -> bool, lo: int, hi: int) -> int
    decreases hi - lo,
{
    if lo >= hi {
        hi
    } else if holds(lo) {
        lo
    } else {
        first_from(holds, lo + 1, hi)
    }
}

/// The last index below `hi` down to `lo` at which `holds` is true, or
/// `lo - 1`.
pub open spec fn last_below(holds: spec_fn(int) -> bool, lo: int, hi: int) -> int
    decreases hi - lo,
{
    if lo >= hi {
        lo - 1
    } else if holds(hi - 1) {
        hi - 1
    } else {
        last_below(holds, lo, hi - 1)
    }
}

/// The smallest rectangle that holds all ink of a bitmap, by its first and
/// last column and its first and last row.
pub struct InkBox {
    pub left: int,
    pub right: int,
    pub top: int,
    pub bottom: int,
}

/// The ink box of a bitmap.
pub open spec fn ink_box(b: BitmapView) -> InkBox {
    InkBox {
        left: first_from(|x: int| column_has_ink(b.pixels, x), 0, b.width as int),
        right: last_below(|x: int| column_has_ink(b.pixels, x), 0, b.width as int),
        top: first_from(|y: int| row_has_ink(b.pixels, y), 0, b.height as int),
        bottom: last_below(|y: int| row_has_ink(b.pixels, y), 0, b.height as int),
    }
}

/// The part of a bitmap inside a box.
pub open spec fn cropped(b: BitmapView, to: InkBox) -> BitmapView {
    BitmapView {
        width: (to.right - to.left + 1) as nat,
        height: (to.bottom - to.top + 1) as nat,
        pixels: Seq::new(
            (to.bottom - to.top + 1) as nat,
            |y: int| b.pixels[to.top + y].subrange(to.left, to.right + 1),
        ),
    }
}

/// The glyph with its bitmap cropped to its ink and its metrics adjusted so
/// that it stays where it was.
///
/// A bitmap without ink becomes the bitmap of no size; its width goes to the
/// right bearing, and a top bearing, if the glyph has one, becomes its
/// shift-up. A bitmap with ink is cropped to its ink box; what was cut off on
/// the left and on the right goes to the bearings, the top bearing (taken
/// from the ascent where the glyph has none) grows by the rows cut off above,
/// and the shift-up is the top bearing less the new height.
pub open spec fn minimized(g: GlyphView, ascent: int) -> GlyphView {
    if g.bitmap.is_empty() || !has_ink(g.bitmap.pixels) {
        GlyphView {
            bitmap: BitmapView::blank(),
            right_bearing: if g.bitmap.width > 0 {
                Some(or_zero(g.right_bearing) + g.bitmap.width)
            } else {
                g.right_bearing
            },
            shift_up: if g.top_bearing is Some {
                g.top_bearing
            } else {
                g.shift_up
            },
            ..g
        }
    } else {
        let ink = ink_box(g.bitmap);
        let old_top = match g.top_bearing {
            Some(t) => t,
            None => ascent - (or_zero(g.shift_up) + g.bitmap.height),
        };
        let top = old_top + ink.top;
        GlyphView {
            bitmap: cropped(g.bitmap, ink),
            left_bearing: Some(or_zero(g.left_bearing) + ink.left),
            right_bearing: Some(or_zero(g.right_bearing) + (g.bitmap.width - 1 - ink.right)),
            top_bearing: Some(top),
            shift_up: Some(top - (ink.bottom - ink.top + 1)),
            ..g
        }
    }
}

/// Whether the metrics of the minimized glyph can be held by 32-bit signed
/// metrics.
pub open spec fn minimized_fits(g: GlyphView, ascent: int) -> bool {
    let m = minimized(g, ascent);
    &&& opt_fits(m.left_bearing)
    &&& opt_fits(m.right_bearing)
    &&& opt_fits(m.top_bearing)
    &&& opt_fits(m.shift_up)
}

/// The horizontal advance of a glyph: left bearing, bitmap width and right
/// bearing, an absent bearing counting as zero.
pub open spec fn advance(g: GlyphView) -> int {
    or_zero(g.left_bearing) + g.bitmap.width + or_zero(g.right_bearing)
}

/// `first_from` lies in its range, nothing holds before it, and it holds
/// where it lies below the end of the range.
pub proof fn lemma_first_from(holds: spec_fn(int) -> bool, lo: int, hi: int)
    requires
        lo <= hi,
    ensures
        lo <= first_from(holds, lo, hi) <= hi,
        first_from(holds, lo, hi) < hi ==> holds(first_from(holds, lo, hi)),
        forall|k: int| lo <= k < first_from(holds, lo, hi) ==> !#[trigger] holds(k),
    decreases hi - lo,
{
    if lo < hi && !holds(lo) {
        lemma_first_from(holds, lo + 1, hi);
    }
}

/// `last_below` lies in its range, nothing holds behind it, and it holds
/// where it lies at or above the start of the range.
pub proof fn lemma_last_below(holds: spec_fn(int) -> bool, lo: int, hi: int)
    requires
        lo <= hi,
    ensures
        lo - 1 <= last_below(holds, lo, hi) < hi,
        last_below(holds, lo, hi) >= lo ==> holds(last_below(holds, lo, hi)),
        forall|k: int| last_below(holds, lo, hi) < k < hi ==> !#[trigger] holds(k),
    decreases hi - lo,
{
    if lo < hi && !holds(hi - 1) {
        lemma_last_below(holds, lo, hi - 1);
    }
}

/// The ink box of a well-formed bitmap with ink lies inside the bitmap, has
/// ink in its first and last column and in its first and last row, and holds
/// all ink.
pub proof fn lemma_ink_box(b: BitmapView)
    requires
        b.well_formed(),
        has_ink(b.pixels),
    ensures
        0 <= ink_box(b).left <= ink_box(b).right < b.width,
        0 <= ink_box(b).top <= ink_box(b).bottom < b.height,
        column_has_ink(b.pixels, ink_box(b).left),
        column_has_ink(b.pixels, ink_box(b).right),
        row_has_ink(b.pixels, ink_box(b).top),
        row_has_ink(b.pixels, ink_box(b).bottom),
        forall|x: int, y: int| #[trigger]
            ink_at(b.pixels, x, y) ==> ink_box(b).left <= x <= ink_box(b).right && ink_box(b).top
                <= y <= ink_box(b).bottom,
{
    let in_column = |x: int| column_has_ink(b.pixels, x);
    let in_row = |y: int| row_has_ink(b.pixels, y);
    let w = b.width as int;
    let h = b.height as int;
    lemma_first_from(in_column, 0, w);
    lemma_last_below(in_column, 0, w);
    lemma_first_from(in_row, 0, h);
    lemma_last_below(in_row, 0, h);
    let (x0, y0) = choose|x: int, y: int| ink_at(b.pixels, x, y);
    assert(ink_at(b.pixels, x0, y0));
    assert(b.pixels[y0].len() == w);
    assert(in_column(x0));
    assert(in_row(y0));
    assert forall|x: int, y: int| #[trigger] ink_at(b.pixels, x, y) implies ink_box(b).left <= x
        <= ink_box(b).right && ink_box(b).top <= y <= ink_box(b).bottom by {
        assert(b.pixels[y].len() == w);
        assert(in_column(x));
        assert(in_row(y));
    }
}

/// A bitmap cropped to its ink box is well formed, has ink, and has itself as
/// its ink box.
pub proof fn lemma_cropped_is_tight(b: BitmapView)
    requires
        b.well_formed(),
        has_ink(b.pixels),
    ensures
        cropped(b, ink_box(b)).well_formed(),
        !cropped(b, ink_box(b)).is_empty(),
        has_ink(cropped(b, ink_box(b)).pixels),
        ink_box(cropped(b, ink_box(b))) == (InkBox {
            left: 0,
            right: cropped(b, ink_box(b)).width - 1,
            top: 0,
            bottom: cropped(b, ink_box(b)).height - 1,
        }),
        cropped(cropped(b, ink_box(b)), ink_box(cropped(b, ink_box(b)))) == cropped(b, ink_box(b)),
{
    lemma_ink_box(b);
    let ink = ink_box(b);
    let c = cropped(b, ink);
    let w = c.width as int;
    let h = c.height as int;
    assert(b.pixels.len() == b.height);
    assert forall|y: int| 0 <= y < c.pixels.len() implies (#[trigger] c.pixels[y]).len() == c.width by {
        assert(b.pixels[ink.top + y].len() == b.width);
    }
    // Every pixel of the crop is the pixel of the bitmap at the same place.
    assert forall|x: int, y: int| 0 <= x < w && 0 <= y < h implies ink_at(c.pixels, x, y) == ink_at(
        b.pixels,
        ink.left + x,
        ink.top + y,
    ) by {
        assert(b.pixels[ink.top + y].len() == b.width);
    }
    let left_y = choose|y: int| ink_at(b.pixels, ink.left, y);
    let right_y = choose|y: int| ink_at(b.pixels, ink.right, y);
    let top_x = choose|x: int| ink_at(b.pixels, x, ink.top);
    let bottom_x = choose|x: int| ink_at(b.pixels, x, ink.bottom);
    assert(ink_at(c.pixels, 0, left_y - ink.top));
    assert(ink_at(c.pixels, w - 1, right_y - ink.top));
    assert(ink_at(c.pixels, top_x - ink.left, 0));
    assert(ink_at(c.pixels, bottom_x - ink.left, h - 1));
    let in_column = |x: int| column_has_ink(c.pixels, x);
    let in_row = |y: int| row_has_ink(c.pixels, y);
    assert(in_column(0));
    assert(in_column(w - 1));
    assert(in_row(0));
    assert(in_row(h - 1));
    assert(first_from(in_column, 0, w) == 0);
    assert(last_below(in_column, 0, w) == w - 1);
    assert(first_from(in_row, 0, h) == 0);
    assert(last_below(in_row, 0, h) == h - 1);
    let again = cropped(c, ink_box(c));
    assert(again.pixels =~= c.pixels) by {
        assert forall|y: int| 0 <= y < h implies #[trigger] again.pixels[y] =~= c.pixels[y] by {
            assert(c.pixels[y].len() == w);
        }
    }
}

/// Minimizing keeps a bitmap well formed.
pub proof fn minimized_is_well_formed(g: GlyphView, ascent: int)
    requires
        g.bitmap.well_formed(),
    ensures
        minimized(g, ascent).bitmap.well_formed(),
{
    if !g.bitmap.is_empty() && has_ink(g.bitmap.pixels) {
        lemma_cropped_is_tight(g.bitmap);
    }
}

/// Minimizing a glyph a second time changes nothing: neither a pixel of its
/// bitmap nor any of its metrics.
pub proof fn minimization_is_idempotent(g: GlyphView, ascent: int)
    requires
        g.bitmap.well_formed(),
    ensures
        minimized(minimized(g, ascent), ascent) == minimized(g, ascent),
{
    if !g.bitmap.is_empty() && has_ink(g.bitmap.pixels) {
        lemma_ink_box(g.bitmap);
        lemma_cropped_is_tight(g.bitmap);
    }
}

/// Minimizing a glyph leaves its horizontal advance as it was.
pub proof fn minimization_preserves_advance(g: GlyphView, ascent: int)
    requires
        g.bitmap.well_formed(),
    ensures
        advance(minimized(g, ascent)) == advance(g),
{
    if !g.bitmap.is_empty() && has_ink(g.bitmap.pixels) {
        lemma_ink_box(g.bitmap);
    }
}

/// The glyphs, each minimized.
pub open spec fn minimized_all(glyphs: Seq<GlyphView>, ascent: int) -> Seq<GlyphView> {
    Seq::new(glyphs.len(), |i: int| minimized(glyphs[i], ascent))
}

/// The ascent by which the glyphs of a font are minimized: the one it
/// declares, else the one its glyphs imply.
pub open spec fn effective_ascent(f: YaffFontView) -> int {
    match f.ascent {
        Some(a) => a,
        None => highest_top(f.glyphs),
    }
}

/// Whether every glyph of the font can be minimized: its bitmap is well
/// formed and its new metrics fit; and, where the ascent has to be taken
/// from the glyphs, their tops fit.
pub open spec fn can_minimize_all(f: YaffFontView) -> bool {
    &&& f.ascent is None ==> tops_fit(f.glyphs)
    &&& forall|i: int|
        0 <= i < f.glyphs.len() ==> (#[trigger] f.glyphs[i]).bitmap.well_formed() && minimized_fits(
            f.glyphs[i],
            effective_ascent(f),
        )
}

/// Whether an encoding is one for which Unicode labels are derived: none
/// declared, or ASCII.
pub open spec fn is_ascii_encoding(encoding: Option<Seq<char>>) -> bool {
    match encoding {
        Some(e) => e == "ascii"@,
        None => true,
    }
}

/// Whether a code value is printable ASCII.
pub open spec fn is_printable_ascii(v: u16) -> bool {
    0x20 <= v <= 0x7E
}

/// Whether any of the labels is a Unicode label.
pub open spec fn has_unicode_label(labels: Seq<LabelView>) -> bool {
    exists|i: int| 0 <= i < labels.len() && #[trigger] labels[i] is Unicode
}

/// The values of the first codepoint label at or after `from`, if there is
/// one.
pub open spec fn first_codepoints(labels: Seq<LabelView>, from: int) -> Option<Seq<u16>>
    decreases labels.len() - from,
{
    if from < 0 || from >= labels.len() {
        None
    } else {
        match labels[from] {
            LabelView::Codepoint(values) => Some(values),
            _ => first_codepoints(labels, from + 1),
        }
    }
}

/// One Unicode label of one code point for each value that is printable
/// ASCII, in order; the other values give none.
pub open spec fn derived_labels(values: Seq<u16>) -> Seq<LabelView>
    decreases values.len(),
{
    if values.len() == 0 {
        Seq::empty()
    } else if is_printable_ascii(values.last()) {
        derived_labels(values.drop_last()).push(LabelView::Unicode(seq![values.last() as u32]))
    } else {
        derived_labels(values.drop_last())
    }
}

/// The glyph with the Unicode labels that its first codepoint label gives,
/// added behind its labels. A glyph that has a Unicode label, or no
/// codepoint label, stays as it is.
pub open spec fn with_unicode_labels(g: GlyphView) -> GlyphView {
    if has_unicode_label(g.labels) {
        g
    } else {
        match first_codepoints(g.labels, 0) {
            Some(values) => GlyphView { labels: g.labels + derived_labels(values), ..g },
            None => g,
        }
    }
}

/// The glyphs, each with its derived Unicode labels.
pub open spec fn with_unicode_labels_all(glyphs: Seq<GlyphView>) -> Seq<GlyphView> {
    Seq::new(glyphs.len(), |i: int| with_unicode_labels(glyphs[i]))
}

/// Every derived label is a Unicode label of one code point, which is a
/// printable ASCII value of the codepoint label; and every such value has
/// its label.
pub proof fn derived_labels_are_printable_ascii(values: Seq<u16>)
    ensures
        forall|i: int|
            0 <= i < derived_labels(values).len() ==> exists|k: int|
                0 <= k < values.len() && is_printable_ascii(values[k]) && #[trigger] derived_labels(
                    values,
                )[i] == LabelView::Unicode(seq![values[k] as u32]),
        forall|k: int|
            0 <= k < values.len() && is_printable_ascii(#[trigger] values[k]) ==> derived_labels(
                values,
            ).contains(LabelView::Unicode(seq![values[k] as u32])),
    decreases values.len(),
{
    if values.len() > 0 {
        let front = values.drop_last();
        let all = derived_labels(values);
        derived_labels_are_printable_ascii(front);
        assert forall|i: int| 0 <= i < all.len() implies exists|k: int|
            0 <= k < values.len() && is_printable_ascii(values[k]) && #[trigger] all[i]
                == LabelView::Unicode(seq![values[k] as u32]) by {
            if i < derived_labels(front).len() {
                let k = choose|k: int|
                    0 <= k < front.len() && is_printable_ascii(front[k]) && derived_labels(front)[i]
                        == LabelView::Unicode(seq![front[k] as u32]);
                assert(values[k] == front[k]);
            } else {
                assert(all[i] == LabelView::Unicode(seq![values[values.len() - 1] as u32]));
            }
        }
        assert forall|k: int| 0 <= k < values.len() && is_printable_ascii(
            #[trigger] values[k],
        ) implies all.contains(LabelView::Unicode(seq![values[k] as u32])) by {
            if k < front.len() {
                assert(values[k] == front[k]);
                let label = LabelView::Unicode(seq![front[k] as u32]);
                assert(derived_labels(front).contains(label));
                let i = choose|i: int| 0 <= i < derived_labels(front).len() && derived_labels(front)[i] == label;
                assert(all[i] == label);
            } else {
                assert(all[all.len() - 1] == LabelView::Unicode(seq![values[k] as u32]));
            }
        }
    }
}

/// The ascent that the glyphs of the font imply: the greatest sum of
/// shift-up and bitmap height among them, and zero for a font without
/// glyphs.
pub fn calculate_ascent(font: &YaffFont) -> (ascent: i32)
    requires
        tops_fit(font@.glyphs),
    ensures
        ascent == highest_top(font@.glyphs),
        font@.glyphs.len() == 0 ==> ascent == 0,
        forall|i: int| 0 <= i < font@.glyphs.len() ==> glyph_top(#[trigger] font@.glyphs[i]) <= ascent,
        font@.glyphs.len() > 0 ==> exists|i: int|
            0 <= i < font@.glyphs.len() && glyph_top(#[trigger] font@.glyphs[i]) == ascent,
{
    let ghost glyphs = font@.glyphs;
    let mut ascent: i32 = 0;
    let mut i: usize = 0;
    while i < font.glyphs.len()
        invariant
            i <= font.glyphs.len(),
            glyphs == glyphs_view(font.glyphs@),
            tops_fit(glyphs),
            ascent == highest_top(glyphs.take(i as int)),
        decreases font.glyphs.len() - i,
    {
        let glyph = &font.glyphs[i];
        assert(fits(glyph_top(glyphs[i as int])));
        let shift_up: i128 = match glyph.shift_up {
            Some(v) => v as i128,
            None => 0,
        };
        let top: i32 = (shift_up + glyph.bitmap.height as i128) as i32;
        proof {
            assert(glyphs.take(i + 1).drop_last() =~= glyphs.take(i as int));
            assert(glyphs.take(i + 1).last() == glyphs[i as int]);
        }
        if i == 0 || top > ascent {
            ascent = top;
        }
        i += 1;
    }
    proof {
        assert(glyphs.take(i as int) =~= glyphs);
        highest_top_is_maximum(glyphs);
    }
    ascent
}

/// Sets the ascent of the font to the one that its glyphs imply.
pub fn set_ascent(font: &mut YaffFont)
    requires
        tops_fit(old(font)@.glyphs),
    ensures
        final(font)@ == (YaffFontView {
            ascent: Some(highest_top(old(font)@.glyphs)),
            ..old(font)@
        }),
{
    let ascent = calculate_ascent(font);
    font.ascent = Some(ascent);
}

/// The first and the last ink pixel of a row, if it has any.
fn row_ink_span(row: &Vec<bool>) -> (span: Option<(usize, usize)>)
    ensures
        match span {
            Some((first, last)) => {
                &&& first <= last < row@.len()
                &&& row@[first as int]
                &&& row@[last as int]
                &&& forall|x: int| 0 <= x < row@.len() && row@[x] ==> first <= x <= last
            },
            None => forall|x: int| 0 <= x < row@.len() ==> !row@[x],
        },
{
    let mut span: Option<(usize, usize)> = None;
    let mut x: usize = 0;
    while x < row.len()
        invariant
            x <= row.len(),
            match span {
                Some((first, last)) => {
                    &&& first <= last < x
                    &&& row@[first as int]
                    &&& row@[last as int]
                    &&& forall|k: int| 0 <= k < x && row@[k] ==> first <= k <= last
                },
                None => forall|k: int| 0 <= k < x ==> !row@[k],
            },
        decreases row.len() - x,
    {
        if row[x] {
            span = match span {
                Some((first, _)) => Some((first, x)),
                None => Some((x, x)),
            };
        }
        x += 1;
    }
    span
}

/// The ink box of a bitmap, if it has ink: first and last column, first and
/// last row.
fn find_ink_box(pixels: &Vec<Vec<bool>>, Ghost(b): Ghost<BitmapView>) -> (found: Option<
    (usize, usize, usize, usize),
>)
    requires
        b.well_formed(),
        !b.is_empty(),
        b.pixels == rows_view(pixels@),
    ensures
        match found {
            Some((left, right, top, bottom)) => has_ink(b.pixels) && ink_box(b) == (InkBox {
                left: left as int,
                right: right as int,
                top: top as int,
                bottom: bottom as int,
            }),
            None => !has_ink(b.pixels),
        },
{
    let ghost p = b.pixels;
    let mut found: Option<(usize, usize, usize, usize)> = None;
    let ghost mut at_left: int = 0;
    let ghost mut at_right: int = 0;
    let ghost mut at_top: int = 0;
    let ghost mut at_bottom: int = 0;
    let mut y: usize = 0;
    while y < pixels.len()
        invariant
            y <= pixels.len(),
            p == rows_view(pixels@),
            p == b.pixels,
            b.well_formed(),
            !b.is_empty(),
            match found {
                Some((left, right, top, bottom)) => {
                    &&& left <= right < b.width
                    &&& top <= bottom < y
                    &&& ink_at(p, left as int, at_left)
                    &&& ink_at(p, right as int, at_right)
                    &&& ink_at(p, at_top, top as int)
                    &&& ink_at(p, at_bottom, bottom as int)
                    &&& forall|i: int, j: int| #[trigger]
                        ink_at(p, i, j) && j < y ==> left <= i <= right && top <= j <= bottom
                },
                None => forall|i: int, j: int| #[trigger] ink_at(p, i, j) ==> j >= y,
            },
        decreases pixels.len() - y,
    {
        assert(p[y as int] == pixels@[y as int]@);
        assert(p[y as int].len() == b.width);
        match row_ink_span(&pixels[y]) {
            Some((first, last)) => {
                found = match found {
                    Some((left, right, top, _)) => {
                        let new_left = if first < left { first } else { left };
                        let new_right = if last > right { last } else { right };
                        proof {
                            if first < left {
                                at_left = y as int;
                            }
                            if last > right {
                                at_right = y as int;
                            }
                            at_bottom = first as int;
                        }
                        Some((new_left, new_right, top, y))
                    },
                    None => {
                        proof {
                            at_left = y as int;
                            at_right = y as int;
                            at_top = first as int;
                            at_bottom = first as int;
                        }
                        Some((first, last, y, y))
                    },
                };
            },
            None => {},
        }
        y += 1;
    }
    proof {
        assert(pixels.len() == b.height);
        match found {
            Some((left, right, top, bottom)) => {
                assert(has_ink(p));
                lemma_ink_box(b);
                let ink = ink_box(b);
                let y0 = choose|j: int| ink_at(p, ink.left, j);
                assert(ink_at(p, ink.left, y0));
                let y1 = choose|j: int| ink_at(p, ink.right, j);
                assert(ink_at(p, ink.right, y1));
                let x0 = choose|i: int| ink_at(p, i, ink.top);
                assert(ink_at(p, x0, ink.top));
                let x1 = choose|i: int| ink_at(p, i, ink.bottom);
                assert(ink_at(p, x1, ink.bottom));
            },
            None => {
                assert(!has_ink(p));
            },
        }
    }
    found
}

/// The pixels inside a box.
fn crop_pixels(pixels: &Vec<Vec<bool>>, left: usize, right: usize, top: usize, bottom: usize) -> (cut:
    Vec<Vec<bool>>)
    requires
        left <= right,
        top <= bottom < pixels@.len(),
        forall|y: int| top <= y <= bottom ==> right < (#[trigger] pixels@[y])@.len(),
    ensures
        rows_view(cut@) == Seq::new(
            (bottom - top + 1) as nat,
            |y: int| rows_view(pixels@)[top + y].subrange(left as int, right + 1),
        ),
{
    let ghost target = Seq::new(
        (bottom - top + 1) as nat,
        |y: int| rows_view(pixels@)[top + y].subrange(left as int, right + 1),
    );
    let mut cut: Vec<Vec<bool>> = Vec::new();
    let rows: usize = pixels.len();
    let mut y: usize = top;
    while y <= bottom
        invariant
            top <= y <= bottom + 1,
            bottom < rows,
            left <= right,
            bottom < pixels@.len(),
            forall|k: int| top <= k <= bottom ==> right < (#[trigger] pixels@[k])@.len(),
            target == Seq::new(
                (bottom - top + 1) as nat,
                |k: int| rows_view(pixels@)[top + k].subrange(left as int, right + 1),
            ),
            cut@.len() == y - top,
            forall|k: int| 0 <= k < cut@.len() ==> (#[trigger] cut@[k])@ == target[k],
        decreases bottom + 1 - y,
    {
        let row = &pixels[y];
        let columns: usize = row.len();
        let mut part: Vec<bool> = Vec::new();
        let mut x: usize = left;
        while x <= right
            invariant
                left <= x <= right + 1,
                right < columns,
                columns == row@.len(),
                part@ == row@.subrange(left as int, x as int),
            decreases right + 1 - x,
        {
            part.push(row[x]);
            x += 1;
        }
        cut.push(part);
        y += 1;
    }
    assert(rows_view(cut@) =~= target);
    cut
}

/// The value of an optional metric, an absent one counting as zero.
fn metric_or_zero(metric: Option<i32>) -> (v: i128)
    ensures
        v == or_zero(crate::models::opt_int(metric)),
{
    match metric {
        Some(v) => v as i128,
        None => 0,
    }
}

/// Replaces the bitmap of a glyph without ink by the bitmap of no size.
fn fold_blank_bitmap(glyph_def: &mut GlyphDefinition, ascent: Ghost<int>)
    requires
        old(glyph_def)@.bitmap.is_empty() || !has_ink(old(glyph_def)@.bitmap.pixels),
        minimized_fits(old(glyph_def)@, ascent@),
    ensures
        final(glyph_def)@ == minimized(old(glyph_def)@, ascent@),
{
    let width = glyph_def.bitmap.width;
    glyph_def.bitmap.width = 0;
    glyph_def.bitmap.height = 0;
    glyph_def.bitmap.pixels.clear();
    if width > 0 {
        let right: i128 = metric_or_zero(glyph_def.right_bearing) + width as i128;
        glyph_def.right_bearing = Some(right as i32);
    }
    if glyph_def.top_bearing.is_some() {
        glyph_def.shift_up = glyph_def.top_bearing;
    }
    assert(glyph_def@.bitmap.pixels =~= Seq::<Seq<bool>>::empty());
}

/// Crops the bitmap of a glyph to its ink and adjusts the glyph's metrics so
/// that its advance and its place above the baseline stay as they were.
pub fn minimize_glyph_bounding_box(glyph_def: &mut GlyphDefinition, ascent: i32)
    requires
        old(glyph_def)@.bitmap.well_formed(),
        minimized_fits(old(glyph_def)@, ascent as int),
    ensures
        final(glyph_def)@ == minimized(old(glyph_def)@, ascent as int),
        final(glyph_def)@.bitmap.well_formed(),
        advance(final(glyph_def)@) == advance(old(glyph_def)@),
{
    proof {
        minimized_is_well_formed(old(glyph_def)@, ascent as int);
        minimization_preserves_advance(old(glyph_def)@, ascent as int);
    }
    if glyph_def.bitmap.pixels.len() == 0 || glyph_def.bitmap.width == 0 {
        fold_blank_bitmap(glyph_def, Ghost(ascent as int));
        return;
    }
    let found = find_ink_box(&glyph_def.bitmap.pixels, Ghost(glyph_def@.bitmap));
    match found {
        None => {
            fold_blank_bitmap(glyph_def, Ghost(ascent as int));
        },
        Some((left, right, top, bottom)) => {
            let ghost before = glyph_def@;
            proof {
                lemma_ink_box(before.bitmap);
                assert forall|y: int| top <= y <= bottom implies right < (
                #[trigger] glyph_def.bitmap.pixels@[y])@.len() by {
                    assert(before.bitmap.pixels[y] == glyph_def.bitmap.pixels@[y]@);
                }
            }
            let new_pixels = crop_pixels(&glyph_def.bitmap.pixels, left, right, top, bottom);
            let old_width = glyph_def.bitmap.width;
            let old_height = glyph_def.bitmap.height;
            let new_width: usize = right - left + 1;
            let new_height: usize = bottom - top + 1;
            let old_top: i128 = match glyph_def.top_bearing {
                Some(t) => t as i128,
                None => ascent as i128 - (metric_or_zero(glyph_def.shift_up) + old_height as i128),
            };
            let new_left: i128 = metric_or_zero(glyph_def.left_bearing) + left as i128;
            let new_top: i128 = old_top + top as i128;
            let new_shift_up: i128 = new_top - new_height as i128;
            let new_right: i128 = metric_or_zero(glyph_def.right_bearing) + (old_width as i128 - 1
                - right as i128);
            glyph_def.left_bearing = Some(new_left as i32);
            glyph_def.top_bearing = Some(new_top as i32);
            glyph_def.shift_up = Some(new_shift_up as i32);
            glyph_def.right_bearing = Some(new_right as i32);
            glyph_def.bitmap.pixels = new_pixels;
            glyph_def.bitmap.width = new_width;
            glyph_def.bitmap.height = new_height;
            assert(glyph_def@.bitmap.pixels =~= cropped(before.bitmap, ink_box(before.bitmap)).pixels);
        },
    }
}

/// Minimizes every glyph of the font, by the ascent that the font declares
/// or, where it declares none, by the one that its glyphs imply.
pub fn minimize_all_bounding_boxes(font: &mut YaffFont)
    requires
        can_minimize_all(old(font)@),
    ensures
        final(font)@ == (YaffFontView {
            glyphs: minimized_all(old(font)@.glyphs, effective_ascent(old(font)@)),
            ..old(font)@
        }),
{
    let ascent: i32 = match font.ascent {
        Some(a) => a,
        None => calculate_ascent(font),
    };
    let ghost glyphs = old(font)@.glyphs;
    let mut i: usize = 0;
    while i < font.glyphs.len()
        invariant
            i <= font.glyphs.len(),
            font.glyphs@.len() == glyphs.len(),
            glyphs == old(font)@.glyphs,
            ascent == effective_ascent(old(font)@),
            can_minimize_all(old(font)@),
            font@ == (YaffFontView { glyphs: font@.glyphs, ..old(font)@ }),
            forall|k: int| 0 <= k < i ==> #[trigger] font@.glyphs[k] == minimized(glyphs[k], ascent as int),
            forall|k: int| i <= k < glyphs.len() ==> #[trigger] font@.glyphs[k] == glyphs[k],
        decreases font.glyphs.len() - i,
    {
        assert(font@.glyphs[i as int] == glyphs[i as int]);
        assert(glyphs[i as int].bitmap.well_formed());
        let ghost held = font.glyphs@;
        let ghost shown = font@.glyphs;
        minimize_glyph_bounding_box(&mut font.glyphs[i], ascent);
        proof {
            assert forall|k: int| 0 <= k < glyphs.len() && k != i implies #[trigger] font@.glyphs[k]
                == shown[k] by {
                assert(font.glyphs@[k] == held[k]);
            }
        }
        i += 1;
    }
    assert(font@.glyphs =~= minimized_all(glyphs, ascent as int));
}

/// The Unicode labels that the values of a codepoint label give.
fn derive_labels(values: &Vec<u16>) -> (labels: Vec<Label>)
    ensures
        labels_view(labels@) == derived_labels(values@),
{
    let mut labels: Vec<Label> = Vec::new();
    let mut i: usize = 0;
    while i < values.len()
        invariant
            i <= values.len(),
            labels_view(labels@) == derived_labels(values@.take(i as int)),
        decreases values.len() - i,
    {
        let value: u16 = values[i];
        proof {
            assert(values@.take(i + 1).drop_last() =~= values@.take(i as int));
            assert(values@.take(i + 1).last() == value);
        }
        if 0x20 <= value && value <= 0x7E {
            let mut code_points: Vec<u32> = Vec::new();
            code_points.push(value as u32);
            assert(code_points@ =~= seq![value as u32]);
            labels.push(Label::Unicode(code_points));
        }
        i += 1;
    }
    assert(values@.take(i as int) =~= values@);
    labels
}

/// Adds to a glyph without a Unicode label the Unicode labels that its first
/// codepoint label gives.
fn add_unicode_labels(glyph: &mut GlyphDefinition)
    ensures
        final(glyph)@ == with_unicode_labels(old(glyph)@),
{
    let ghost views = glyph@.labels;
    let mut i: usize = 0;
    while i < glyph.labels.len()
        invariant
            i <= glyph.labels.len(),
            *glyph == *old(glyph),
            views == labels_view(glyph.labels@),
            forall|k: int| 0 <= k < i ==> !(#[trigger] views[k] is Unicode),
        decreases glyph.labels.len() - i,
    {
        if let Label::Unicode(_) = &glyph.labels[i] {
            assert(views[i as int] is Unicode);
            return;
        }
        i += 1;
    }
    assert(!has_unicode_label(views));
    let mut k: usize = 0;
    while k < glyph.labels.len()
        invariant
            k <= glyph.labels.len(),
            *glyph == *old(glyph),
            views == labels_view(glyph.labels@),
            !has_unicode_label(views),
            first_codepoints(views, k as int) == first_codepoints(views, 0),
        decreases glyph.labels.len() - k,
    {
        if let Label::Codepoint(values) = &glyph.labels[k] {
            assert(views[k as int] == LabelView::Codepoint(values@));
            let mut derived = derive_labels(values);
            let ghost added = labels_view(derived@);
            glyph.labels.append(&mut derived);
            assert(glyph@.labels =~= views + added);
            return;
        }
        k += 1;
    }
}

/// Derives Unicode labels from codepoint labels, for a font that declares no
/// encoding or the encoding `ascii`: every glyph without a Unicode label gets,
/// behind its labels, one Unicode label for each printable ASCII value of its
/// first codepoint label. A font of another encoding is left as it is.
///
/// Returns whether the encoding was one for which labels are derived.
pub fn convert_codepoint_to_unicode_labels(font: &mut YaffFont) -> (converted: bool)
    ensures
        converted == is_ascii_encoding(old(font)@.encoding),
        converted ==> final(font)@ == (YaffFontView {
            glyphs: with_unicode_labels_all(old(font)@.glyphs),
            ..old(font)@
        }),
        !converted ==> final(font)@ == old(font)@,
{
    let supported = match &font.encoding {
        Some(encoding) => str_equals(encoding.as_str(), "ascii"),
        None => true,
    };
    if !supported {
        return false;
    }
    let ghost glyphs = old(font)@.glyphs;
    let mut i: usize = 0;
    while i < font.glyphs.len()
        invariant
            i <= font.glyphs.len(),
            font.glyphs@.len() == glyphs.len(),
            glyphs == old(font)@.glyphs,
            font@ == (YaffFontView { glyphs: font@.glyphs, ..old(font)@ }),
            forall|k: int| 0 <= k < i ==> #[trigger] font@.glyphs[k] == with_unicode_labels(glyphs[k]),
            forall|k: int| i <= k < glyphs.len() ==> #[trigger] font@.glyphs[k] == glyphs[k],
        decreases font.glyphs.len() - i,
    {
        assert(font@.glyphs[i as int] == glyphs[i as int]);
        let ghost held = font.glyphs@;
        let ghost shown = font@.glyphs;
        add_unicode_labels(&mut font.glyphs[i]);
        proof {
            assert forall|k: int| 0 <= k < glyphs.len() && k != i implies #[trigger] font@.glyphs[k]
                == shown[k] by {
                assert(font.glyphs@[k] == held[k]);
            }
        }
        i += 1;
    }
    assert(font@.glyphs =~= with_unicode_labels_all(glyphs));
    true
}

} // verus!
