//! The in-memory font: its global properties, its glyphs with their bitmaps,
//! labels, metrics and kerning, and the mathematical view of each.
//!
//! Real-valued quantities (point size, average width, scalable width and the
//! kerning adjustments) are carried as the decimal text in which the document
//! shows them; this crate places that text and never computes with it.

use vstd::prelude::*;

verus! {

/// How the glyphs of a font are spaced.
#[derive(Clone, Copy, Debug, PartialEq, Eq)]
pub enum FontSpacing {
    Proportional,
    Monospace,
    CharacterCell,
    MultiCell,
}

/// The direction in which text runs.
#[derive(Clone, Copy, Debug, PartialEq, Eq)]
pub enum WritingDirection {
    LeftToRight,
    RightToLeft,
}

/// An identifier attached to a glyph.
#[derive(Clone, Debug, PartialEq, Eq, Hash)]
pub enum Label {
    /// A sequence of Unicode code points, possibly empty.
    Unicode(Vec<u32>),
    /// A sequence of code values of a legacy encoding.
    Codepoint(Vec<u16>),
    /// An arbitrary name.
    Tag(String),
    /// No identifier at all.
    Anonymous,
}

/// The mathematical value of a [`Label`].
pub enum LabelView {
    Unicode(Seq<u32>),
    Codepoint(Seq<u16>),
    Tag(Seq<char>),
    Anonymous,
}

impl View for Label {
    type V = LabelView;

    open spec fn view(&self) -> LabelView {
        match *self {
            Label::Unicode(values) => LabelView::Unicode(values@),
            Label::Codepoint(values) => LabelView::Codepoint(values@),
            Label::Tag(tag) => LabelView::Tag(tag@),
            Label::Anonymous => LabelView::Anonymous,
        }
    }
}

/// The views of a sequence of labels, in order.
pub open spec fn labels_view(labels: Seq<Label>) -> Seq<LabelView> {
    Seq::new(labels.len(), |i: int| labels[i]@)
}

/// The views of the rows of a grid, in order.
pub open spec fn rows_view(rows: Seq<Vec<bool>>) -> Seq<Seq<bool>> {
    Seq::new(rows.len(), |y: int| rows[y]@)
}

/// A grid of pixels, row by row from the top; `true` is ink.
#[derive(Clone, Debug, PartialEq, Eq)]
pub struct Bitmap {
    pub pixels: Vec<Vec<bool>>,
    pub width: usize,
    pub height: usize,
}

/// The mathematical value of a [`Bitmap`].
pub struct BitmapView {
    pub width: nat,
    pub height: nat,
    pub pixels: Seq<Seq<bool>>,
}

impl BitmapView {
    /// A bitmap without width or without height holds no ink.
    pub open spec fn is_empty(self) -> bool {
        self.width == 0 || self.height == 0
    }

    /// The grid is rectangular: `height` rows of `width` pixels each, and no
    /// rows at all when the bitmap is empty.
    pub open spec fn well_formed(self) -> bool {
        if self.is_empty() {
            self.pixels.len() == 0
        } else {
            &&& self.pixels.len() == self.height
            &&& forall|y: int| 0 <= y < self.pixels.len() ==> (#[trigger] self.pixels[y]).len() == self.width
        }
    }

    /// The bitmap of no size.
    pub open spec fn blank() -> BitmapView {
        BitmapView { width: 0, height: 0, pixels: Seq::empty() }
    }
}

impl View for Bitmap {
    type V = BitmapView;

    open spec fn view(&self) -> BitmapView {
        BitmapView {
            width: self.width as nat,
            height: self.height as nat,
            pixels: rows_view(self.pixels@),
        }
    }
}

impl Bitmap {
    /// The bitmap of no size.
    pub fn new() -> (bitmap: Bitmap)
        ensures
            bitmap@ == BitmapView::blank(),
    {
        let bitmap = Bitmap { pixels: Vec::new(), width: 0, height: 0 };
        assert(bitmap@.pixels =~= Seq::<Seq<bool>>::empty());
        bitmap
    }

    /// Whether the bitmap has no width or no height.
    pub fn is_empty(&self) -> (empty: bool)
        ensures
            empty == self@.is_empty(),
    {
        self.width == 0 || self.height == 0
    }
}

/// One entry of a kerning mapping: the label of the neighbouring glyph and
/// the adjustment, as the decimal text to be written for it.
#[derive(Clone, Debug, PartialEq, Eq)]
pub struct KerningPair {
    pub label: Label,
    pub adjustment: String,
}

/// The mathematical value of a [`KerningPair`].
pub struct KerningPairView {
    pub label: LabelView,
    pub adjustment: Seq<char>,
}

impl View for KerningPair {
    type V = KerningPairView;

    open spec fn view(&self) -> KerningPairView {
        KerningPairView { label: self.label@, adjustment: self.adjustment@ }
    }
}

/// The views of the entries of a kerning mapping, in the order they are held.
pub open spec fn kerning_view(pairs: Seq<KerningPair>) -> Seq<KerningPairView> {
    Seq::new(pairs.len(), |i: int| pairs[i]@)
}

/// The view of an optional kerning mapping.
pub open spec fn opt_kerning(o: Option<Vec<KerningPair>>) -> Option<Seq<KerningPairView>> {
    match o {
        Some(pairs) => Some(kerning_view(pairs@)),
        None => None,
    }
}

/// The view of an optional string.
pub open spec fn opt_text(o: Option<String>) -> Option<Seq<char>> {
    match o {
        Some(s) => Some(s@),
        None => None,
    }
}

/// The view of an optional integer.
pub open spec fn opt_int(o: Option<i32>) -> Option<int> {
    match o {
        Some(v) => Some(v as int),
        None => None,
    }
}

/// The view of an optional pair of integers.
pub open spec fn opt_pair(o: Option<(i32, i32)>) -> Option<(int, int)> {
    match o {
        Some(p) => Some((p.0 as int, p.1 as int)),
        None => None,
    }
}

/// The view of an optional pair of unsigned integers.
pub open spec fn opt_unsigned_pair(o: Option<(u32, u32)>) -> Option<(int, int)> {
    match o {
        Some(p) => Some((p.0 as int, p.1 as int)),
        None => None,
    }
}

/// The view of an optional quadruple of integers.
pub open spec fn opt_quad(o: Option<(i32, i32, i32, i32)>) -> Option<(int, int, int, int)> {
    match o {
        Some(q) => Some((q.0 as int, q.1 as int, q.2 as int, q.3 as int)),
        None => None,
    }
}

/// A glyph: its labels in the order given, its bitmap, its metrics and its
/// kerning against neighbours to the right and to the left.
#[derive(Clone, Debug, PartialEq, Eq)]
pub struct GlyphDefinition {
    pub labels: Vec<Label>,
    pub bitmap: Bitmap,
    pub left_bearing: Option<i32>,
    pub right_bearing: Option<i32>,
    pub shift_up: Option<i32>,
    pub top_bearing: Option<i32>,
    pub bottom_bearing: Option<i32>,
    pub shift_left: Option<i32>,
    pub scalable_width: Option<String>,
    pub right_kerning: Option<Vec<KerningPair>>,
    pub left_kerning: Option<Vec<KerningPair>>,
}

/// The mathematical value of a [`GlyphDefinition`].
pub struct GlyphView {
    pub labels: Seq<LabelView>,
    pub bitmap: BitmapView,
    pub left_bearing: Option<int>,
    pub right_bearing: Option<int>,
    pub shift_up: Option<int>,
    pub top_bearing: Option<int>,
    pub bottom_bearing: Option<int>,
    pub shift_left: Option<int>,
    pub scalable_width: Option<Seq<char>>,
    pub right_kerning: Option<Seq<KerningPairView>>,
    pub left_kerning: Option<Seq<KerningPairView>>,
}

impl View for GlyphDefinition {
    type V = GlyphView;

    open spec fn view(&self) -> GlyphView {
        GlyphView {
            labels: labels_view(self.labels@),
            bitmap: self.bitmap@,
            left_bearing: opt_int(self.left_bearing),
            right_bearing: opt_int(self.right_bearing),
            shift_up: opt_int(self.shift_up),
            top_bearing: opt_int(self.top_bearing),
            bottom_bearing: opt_int(self.bottom_bearing),
            shift_left: opt_int(self.shift_left),
            scalable_width: opt_text(self.scalable_width),
            right_kerning: opt_kerning(self.right_kerning),
            left_kerning: opt_kerning(self.left_kerning),
        }
    }
}

impl GlyphView {
    /// The glyph with no label, no ink, no metric and no kerning.
    pub open spec fn blank() -> GlyphView {
        GlyphView {
            labels: Seq::empty(),
            bitmap: BitmapView::blank(),
            left_bearing: None,
            right_bearing: None,
            shift_up: None,
            top_bearing: None,
            bottom_bearing: None,
            shift_left: None,
            scalable_width: None,
            right_kerning: None,
            left_kerning: None,
        }
    }
}

impl GlyphDefinition {
    /// The glyph with no label, no ink, no metric and no kerning.
    pub fn new() -> (glyph: GlyphDefinition)
        ensures
            glyph@ == GlyphView::blank(),
    {
        let glyph = GlyphDefinition {
            labels: Vec::new(),
            bitmap: Bitmap::new(),
            left_bearing: None,
            right_bearing: None,
            shift_up: None,
            top_bearing: None,
            bottom_bearing: None,
            shift_left: None,
            scalable_width: None,
            right_kerning: None,
            left_kerning: None,
        };
        assert(glyph@.labels =~= Seq::<LabelView>::empty());
        glyph
    }
}

/// The views of a sequence of glyphs, in order.
pub open spec fn glyphs_view(glyphs: Seq<GlyphDefinition>) -> Seq<GlyphView> {
    Seq::new(glyphs.len(), |i: int| glyphs[i]@)
}

/// A font: its global properties, each of which may be absent, and its glyphs
/// in document order.
#[derive(Clone, Debug, PartialEq, Eq)]
pub struct YaffFont {
    pub yaff_version: Option<String>,
    pub name: Option<String>,
    pub family: Option<String>,
    pub subfamily: Option<String>,
    pub revision: Option<String>,
    pub point_size: Option<String>,
    pub line_height: Option<i32>,
    pub style: Option<String>,
    pub weight: Option<String>,
    pub slant: Option<String>,
    pub setwidth: Option<String>,
    pub decoration: Option<String>,
    pub x_height: Option<i32>,
    pub cap_height: Option<i32>,
    pub ascent: Option<i32>,
    pub descent: Option<i32>,
    pub pixel_size: Option<i32>,
    pub leading: Option<i32>,
    pub raster_bounds: Option<(i32, i32, i32, i32)>,
    pub ink_bounds: Option<(i32, i32, i32, i32)>,
    pub raster_size: Option<(u32, u32)>,
    pub cell_size: Option<(u32, u32)>,
    pub bounding_box: Option<(u32, u32)>,
    pub average_width: Option<String>,
    pub max_width: Option<i32>,
    pub cap_width: Option<i32>,
    pub digit_width: Option<i32>,
    pub spacing: Option<FontSpacing>,
    pub direction: Option<WritingDirection>,
    pub bold_smear: Option<i32>,
    pub italic_pitch: Option<(i32, i32)>,
    pub outline_thickness: Option<i32>,
    pub underline_thickness: Option<i32>,
    pub underline_descent: Option<i32>,
    pub strikethrough_thickness: Option<i32>,
    pub strikethrough_ascent: Option<i32>,
    pub superscript_size: Option<i32>,
    pub superscript_offset: Option<(i32, i32)>,
    pub subscript_size: Option<i32>,
    pub subscript_offset: Option<(i32, i32)>,
    pub small_cap_size: Option<i32>,
    pub word_space: Option<i32>,
    pub min_word_space: Option<i32>,
    pub max_word_space: Option<i32>,
    pub sentence_space: Option<i32>,
    pub author: Option<String>,
    pub foundry: Option<String>,
    pub copyright: Option<String>,
    pub notice: Option<String>,
    pub device: Option<String>,
    pub pixel_aspect: Option<(u32, u32)>,
    pub dpi: Option<(u32, u32)>,
    pub converter: Option<String>,
    pub source_name: Option<String>,
    pub source_format: Option<String>,
    pub history: Option<String>,
    pub encoding: Option<String>,
    pub default_char_label_raw: Option<String>,
    pub word_boundary_label_raw: Option<String>,
    pub global_left_bearing: Option<i32>,
    pub global_right_bearing: Option<i32>,
    pub global_shift_up: Option<i32>,
    pub glyphs: Vec<GlyphDefinition>,
}

/// The mathematical value of a [`YaffFont`].
pub struct YaffFontView {
    pub yaff_version: Option<Seq<char>>,
    pub name: Option<Seq<char>>,
    pub family: Option<Seq<char>>,
    pub subfamily: Option<Seq<char>>,
    pub revision: Option<Seq<char>>,
    pub point_size: Option<Seq<char>>,
    pub line_height: Option<int>,
    pub style: Option<Seq<char>>,
    pub weight: Option<Seq<char>>,
    pub slant: Option<Seq<char>>,
    pub setwidth: Option<Seq<char>>,
    pub decoration: Option<Seq<char>>,
    pub x_height: Option<int>,
    pub cap_height: Option<int>,
    pub ascent: Option<int>,
    pub descent: Option<int>,
    pub pixel_size: Option<int>,
    pub leading: Option<int>,
    pub raster_bounds: Option<(int, int, int, int)>,
    pub ink_bounds: Option<(int, int, int, int)>,
    pub raster_size: Option<(int, int)>,
    pub cell_size: Option<(int, int)>,
    pub bounding_box: Option<(int, int)>,
    pub average_width: Option<Seq<char>>,
    pub max_width: Option<int>,
    pub cap_width: Option<int>,
    pub digit_width: Option<int>,
    pub spacing: Option<FontSpacing>,
    pub direction: Option<WritingDirection>,
    pub bold_smear: Option<int>,
    pub italic_pitch: Option<(int, int)>,
    pub outline_thickness: Option<int>,
    pub underline_thickness: Option<int>,
    pub underline_descent: Option<int>,
    pub strikethrough_thickness: Option<int>,
    pub strikethrough_ascent: Option<int>,
    pub superscript_size: Option<int>,
    pub superscript_offset: Option<(int, int)>,
    pub subscript_size: Option<int>,
    pub subscript_offset: Option<(int, int)>,
    pub small_cap_size: Option<int>,
    pub word_space: Option<int>,
    pub min_word_space: Option<int>,
    pub max_word_space: Option<int>,
    pub sentence_space: Option<int>,
    pub author: Option<Seq<char>>,
    pub foundry: Option<Seq<char>>,
    pub copyright: Option<Seq<char>>,
    pub notice: Option<Seq<char>>,
    pub device: Option<Seq<char>>,
    pub pixel_aspect: Option<(int, int)>,
    pub dpi: Option<(int, int)>,
    pub converter: Option<Seq<char>>,
    pub source_name: Option<Seq<char>>,
    pub source_format: Option<Seq<char>>,
    pub history: Option<Seq<char>>,
    pub encoding: Option<Seq<char>>,
    pub default_char_label_raw: Option<Seq<char>>,
    pub word_boundary_label_raw: Option<Seq<char>>,
    pub global_left_bearing: Option<int>,
    pub global_right_bearing: Option<int>,
    pub global_shift_up: Option<int>,
    pub glyphs: Seq<GlyphView>,
}

impl View for YaffFont {
    type V = YaffFontView;

    open spec fn view(&self) -> YaffFontView {
        YaffFontView {
            yaff_version: opt_text(self.yaff_version),
            name: opt_text(self.name),
            family: opt_text(self.family),
            subfamily: opt_text(self.subfamily),
            revision: opt_text(self.revision),
            point_size: opt_text(self.point_size),
            line_height: opt_int(self.line_height),
            style: opt_text(self.style),
            weight: opt_text(self.weight),
            slant: opt_text(self.slant),
            setwidth: opt_text(self.setwidth),
            decoration: opt_text(self.decoration),
            x_height: opt_int(self.x_height),
            cap_height: opt_int(self.cap_height),
            ascent: opt_int(self.ascent),
            descent: opt_int(self.descent),
            pixel_size: opt_int(self.pixel_size),
            leading: opt_int(self.leading),
            raster_bounds: opt_quad(self.raster_bounds),
            ink_bounds: opt_quad(self.ink_bounds),
            raster_size: opt_unsigned_pair(self.raster_size),
            cell_size: opt_unsigned_pair(self.cell_size),
            bounding_box: opt_unsigned_pair(self.bounding_box),
            average_width: opt_text(self.average_width),
            max_width: opt_int(self.max_width),
            cap_width: opt_int(self.cap_width),
            digit_width: opt_int(self.digit_width),
            spacing: self.spacing,
            direction: self.direction,
            bold_smear: opt_int(self.bold_smear),
            italic_pitch: opt_pair(self.italic_pitch),
            outline_thickness: opt_int(self.outline_thickness),
            underline_thickness: opt_int(self.underline_thickness),
            underline_descent: opt_int(self.underline_descent),
            strikethrough_thickness: opt_int(self.strikethrough_thickness),
            strikethrough_ascent: opt_int(self.strikethrough_ascent),
            superscript_size: opt_int(self.superscript_size),
            superscript_offset: opt_pair(self.superscript_offset),
            subscript_size: opt_int(self.subscript_size),
            subscript_offset: opt_pair(self.subscript_offset),
            small_cap_size: opt_int(self.small_cap_size),
            word_space: opt_int(self.word_space),
            min_word_space: opt_int(self.min_word_space),
            max_word_space: opt_int(self.max_word_space),
            sentence_space: opt_int(self.sentence_space),
            author: opt_text(self.author),
            foundry: opt_text(self.foundry),
            copyright: opt_text(self.copyright),
            notice: opt_text(self.notice),
            device: opt_text(self.device),
            pixel_aspect: opt_unsigned_pair(self.pixel_aspect),
            dpi: opt_unsigned_pair(self.dpi),
            converter: opt_text(self.converter),
            source_name: opt_text(self.source_name),
            source_format: opt_text(self.source_format),
            history: opt_text(self.history),
            encoding: opt_text(self.encoding),
            default_char_label_raw: opt_text(self.default_char_label_raw),
            word_boundary_label_raw: opt_text(self.word_boundary_label_raw),
            global_left_bearing: opt_int(self.global_left_bearing),
            global_right_bearing: opt_int(self.global_right_bearing),
            global_shift_up: opt_int(self.global_shift_up),
            glyphs: glyphs_view(self.glyphs@),
        }
    }
}

impl YaffFontView {
    /// The font with every property absent and no glyphs.
    pub open spec fn blank() -> YaffFontView {
        YaffFontView {
            yaff_version: None,
            name: None,
            family: None,
            subfamily: None,
            revision: None,
            point_size: None,
            line_height: None,
            style: None,
            weight: None,
            slant: None,
            setwidth: None,
            decoration: None,
            x_height: None,
            cap_height: None,
            ascent: None,
            descent: None,
            pixel_size: None,
            leading: None,
            raster_bounds: None,
            ink_bounds: None,
            raster_size: None,
            cell_size: None,
            bounding_box: None,
            average_width: None,
            max_width: None,
            cap_width: None,
            digit_width: None,
            spacing: None,
            direction: None,
            bold_smear: None,
            italic_pitch: None,
            outline_thickness: None,
            underline_thickness: None,
            underline_descent: None,
            strikethrough_thickness: None,
            strikethrough_ascent: None,
            superscript_size: None,
            superscript_offset: None,
            subscript_size: None,
            subscript_offset: None,
            small_cap_size: None,
            word_space: None,
            min_word_space: None,
            max_word_space: None,
            sentence_space: None,
            author: None,
            foundry: None,
            copyright: None,
            notice: None,
            device: None,
            pixel_aspect: None,
            dpi: None,
            converter: None,
            source_name: None,
            source_format: None,
            history: None,
            encoding: None,
            default_char_label_raw: None,
            word_boundary_label_raw: None,
            global_left_bearing: None,
            global_right_bearing: None,
            global_shift_up: None,
            glyphs: Seq::empty(),
        }
    }
}

impl YaffFont {
    /// The font with every property absent and no glyphs.
    pub fn new() -> (font: YaffFont)
        ensures
            font@ == YaffFontView::blank(),
    {
        let font = YaffFont {
            yaff_version: None,
            name: None,
            family: None,
            subfamily: None,
            revision: None,
            point_size: None,
            line_height: None,
            style: None,
            weight: None,
            slant: None,
            setwidth: None,
            decoration: None,
            x_height: None,
            cap_height: None,
            ascent: None,
            descent: None,
            pixel_size: None,
            leading: None,
            raster_bounds: None,
            ink_bounds: None,
            raster_size: None,
            cell_size: None,
            bounding_box: None,
            average_width: None,
            max_width: None,
            cap_width: None,
            digit_width: None,
            spacing: None,
            direction: None,
            bold_smear: None,
            italic_pitch: None,
            outline_thickness: None,
            underline_thickness: None,
            underline_descent: None,
            strikethrough_thickness: None,
            strikethrough_ascent: None,
            superscript_size: None,
            superscript_offset: None,
            subscript_size: None,
            subscript_offset: None,
            small_cap_size: None,
            word_space: None,
            min_word_space: None,
            max_word_space: None,
            sentence_space: None,
            author: None,
            foundry: None,
            copyright: None,
            notice: None,
            device: None,
            pixel_aspect: None,
            dpi: None,
            converter: None,
            source_name: None,
            source_format: None,
            history: None,
            encoding: None,
            default_char_label_raw: None,
            word_boundary_label_raw: None,
            global_left_bearing: None,
            global_right_bearing: None,
            global_shift_up: None,
            glyphs: Vec::new(),
        };
        assert(font@.glyphs =~= Seq::<GlyphView>::empty());
        font
    }
}

} // verus!
