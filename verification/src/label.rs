//! The canonical text of a label. It is what the document shows for the
//! label, and it is the key by which kerning entries are ordered.

use vstd::prelude::*;
use crate::models::{Label, LabelView};
use crate::text::{append_hex, append_str, hex_text, join, lemma_join_next, string_of};

verus! {

/// Whether a code point is shown as a quoted character: printable ASCII other
/// than the quote itself.
pub open spec fn is_quotable(v: u32) -> bool {
    0x20 <= v <= 0x7E && v != 0x27
}

/// One code point of a Unicode label: `'c'` where it is quotable, else `u+`
/// and at least four upper-case hexadecimal digits.
pub open spec fn code_point_text(v: u32) -> Seq<char> {
    if is_quotable(v) {
        seq!['\'', v as char, '\'']
    } else {
        seq!['u', '+'] + hex_text(v as nat, 4)
    }
}

/// One value of a codepoint label: `0x` and its upper-case hexadecimal digits.
pub open spec fn code_value_text(v: u16) -> Seq<char> {
    seq!['0', 'x'] + hex_text(v as nat, 1)
}

/// The separator between the values of one label.
pub open spec fn value_separator() -> Seq<char> {
    seq![',', ' ']
}

/// The canonical text of a label.
pub open spec fn label_text(label: LabelView) -> Seq<char> {
    match label {
        LabelView::Unicode(values) => if values.len() == 0 {
            seq!['\'', '\'']
        } else {
            join(Seq::new(values.len(), |i: int| code_point_text(values[i])), value_separator())
        },
        LabelView::Codepoint(values) => join(
            Seq::new(values.len(), |i: int| code_value_text(values[i])),
            value_separator(),
        ),
        LabelView::Tag(tag) => seq!['"'] + tag + seq!['"'],
        LabelView::Anonymous => Seq::empty(),
    }
}

/// Appends the text of one code point of a Unicode label.
fn append_code_point(buffer: &mut Vec<char>, v: u32)
    ensures
        final(buffer)@ == old(buffer)@ + code_point_text(v),
{
    if 0x20 <= v && v <= 0x7E && v != 0x27 {
        let c: char = (v as u8) as char;
        buffer.push('\'');
        buffer.push(c);
        buffer.push('\'');
    } else {
        buffer.push('u');
        buffer.push('+');
        append_hex(buffer, v, 4);
    }
}

/// Appends the canonical text of a label.
pub fn append_label(buffer: &mut Vec<char>, label: &Label)
    ensures
        final(buffer)@ == old(buffer)@ + label_text(label@),
{
    match label {
        Label::Unicode(values) => {
            if values.len() == 0 {
                buffer.push('\'');
                buffer.push('\'');
            } else {
                let ghost items = Seq::new(values@.len(), |i: int| code_point_text(values@[i]));
                let mut i: usize = 0;
                while i < values.len()
                    invariant
                        i <= values.len(),
                        items == Seq::new(values@.len(), |k: int| code_point_text(values@[k])),
                        buffer@ == old(buffer)@ + join(items.take(i as int), value_separator()),
                    decreases values.len() - i,
                {
                    proof {
                        lemma_join_next(items, value_separator(), i as int);
                    }
                    if i > 0 {
                        buffer.push(',');
                        buffer.push(' ');
                    }
                    append_code_point(buffer, values[i]);
                    i += 1;
                }
                assert(items.take(i as int) =~= items);
            }
        },
        Label::Codepoint(values) => {
            let ghost items = Seq::new(values@.len(), |i: int| code_value_text(values@[i]));
            let mut i: usize = 0;
            while i < values.len()
                invariant
                    i <= values.len(),
                    items == Seq::new(values@.len(), |k: int| code_value_text(values@[k])),
                    buffer@ == old(buffer)@ + join(items.take(i as int), value_separator()),
                decreases values.len() - i,
            {
                proof {
                    lemma_join_next(items, value_separator(), i as int);
                }
                if i > 0 {
                    buffer.push(',');
                    buffer.push(' ');
                }
                buffer.push('0');
                buffer.push('x');
                append_hex(buffer, values[i] as u32, 1);
                i += 1;
            }
            assert(items.take(i as int) =~= items);
        },
        Label::Tag(tag) => {
            buffer.push('"');
            append_str(buffer, tag.as_str());
            buffer.push('"');
        },
        Label::Anonymous => {},
    }
}

/// The canonical text of a label, as a string.
pub fn format_label_to_string(label: &Label) -> (s: String)
    ensures
        s@ == label_text(label@),
{
    let mut buffer: Vec<char> = Vec::new();
    append_label(&mut buffer, label);
    string_of(&buffer)
}

} // verus!
