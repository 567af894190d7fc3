//! A codec for the plain-text bitmap-font description format YAFF: the
//! canonical text encoder of an in-memory font, and the transformations that
//! bring glyph geometry into canonical form.

pub mod encoder;
pub mod kerning;
pub mod label;
pub mod models;
pub mod text;
pub mod utils;

pub use encoder::to_yaff_string;
pub use kerning::format_kerning_map_to_string;
pub use label::format_label_to_string;
pub use models::{
    Bitmap, FontSpacing, GlyphDefinition, KerningPair, Label, WritingDirection, YaffFont,
};
pub use utils::{
    calculate_ascent, convert_codepoint_to_unicode_labels, minimize_all_bounding_boxes,
    minimize_glyph_bounding_box, set_ascent,
};
