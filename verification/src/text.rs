//! Text as sequences of characters.
//!
//! Every formatter of this crate builds its output in a `Vec<char>` and states
//! what it built as a `Seq<char>`. This module holds the vocabulary they share:
//! numerals, lines, indentation and the handling of trailing newlines.

use vstd::prelude::*;

verus! {

/// Trusted: `String::push` of the standard library. The string afterwards is
/// the string before with the one character added at its end.
pub assume_specification[ String::push ](s: &mut String, c: char)
    ensures
        final(s)@ == old(s)@.push(c),
;

/// One indent unit: two spaces.
pub open spec fn indent() -> Seq<char> {
    seq![' ', ' ']
}

/// The character for a digit value below sixteen, letters in upper case.
pub open spec fn digit_char(d: int) -> char
    recommends
        0 <= d < 16,
{
    if d < 10 {
        ((48 + d) as u8) as char
    } else {
        ((55 + d) as u8) as char
    }
}

/// The decimal numeral of `n`: no sign, no leading zero, `"0"` for zero.
pub open spec fn decimal_text(n: nat) -> Seq<char>
    decreases n,
{
    if n < 10 {
        seq![digit_char(n as int)]
    } else {
        decimal_text(n / 10).push(digit_char((n % 10) as int))
    }
}

/// The decimal numeral of an integer, with a leading `-` when it is negative.
pub open spec fn signed_decimal_text(v: int) -> Seq<char> {
    if v < 0 {
        seq!['-'] + decimal_text((-v) as nat)
    } else {
        decimal_text(v as nat)
    }
}

/// The upper-case hexadecimal numeral of `n`, padded with leading zeros to
/// at least `min_digits` digits and never shorter than one digit.
pub open spec fn hex_text(n: nat, min_digits: nat) -> Seq<char>
    decreases n, min_digits,
{
    if n < 16 && min_digits <= 1 {
        seq![digit_char(n as int)]
    } else {
        hex_text(n / 16, if min_digits > 0 { (min_digits - 1) as nat } else { 0 }).push(
            digit_char((n % 16) as int),
        )
    }
}

/// `s` without the newlines at its end.
pub open spec fn trim_newlines(s: Seq<char>) -> Seq<char>
    decreases s.len(),
{
    if s.len() > 0 && s.last() == '\n' {
        trim_newlines(s.drop_last())
    } else {
        s
    }
}

/// Whether `s` ends with an empty line, that is with two newlines.
pub open spec fn ends_with_blank_line(s: Seq<char>) -> bool {
    s.len() >= 2 && s[s.len() - 1] == '\n' && s[s.len() - 2] == '\n'
}

/// `s` followed by as few newlines as make it end with an empty line.
pub open spec fn pad_to_blank_line(s: Seq<char>) -> Seq<char> {
    if ends_with_blank_line(s) {
        s
    } else if s.len() > 0 && s.last() == '\n' {
        s.push('\n')
    } else {
        s.push('\n').push('\n')
    }
}

/// The position of the first newline of `s` at or after `from`, or the length
/// of `s` when there is none.
pub open spec fn line_end(s: Seq<char>, from: int) -> int
    decreases s.len() - from,
{
    if from < 0 || from >= s.len() {
        s.len() as int
    } else if s[from] == '\n' {
        from
    } else {
        line_end(s, from + 1)
    }
}

/// A line without the carriage return that stood before its newline.
pub open spec fn strip_carriage_return(line: Seq<char>) -> Seq<char> {
    if line.len() > 0 && line.last() == '\r' {
        line.drop_last()
    } else {
        line
    }
}

/// The lines of `s` from position `from` on. A line ends at a newline, or at
/// a carriage return directly followed by a newline; neither is part of the
/// line. What follows the last newline is a line too unless it is empty.
pub open spec fn lines_from(s: Seq<char>, from: int) -> Seq<Seq<char>>
    decreases s.len() - from,
{
    if from < 0 || from >= s.len() {
        Seq::empty()
    } else {
        let end = line_end(s, from);
        if from <= end < s.len() {
            seq![strip_carriage_return(s.subrange(from, end))] + lines_from(s, end + 1)
        } else {
            seq![s.subrange(from, s.len() as int)]
        }
    }
}

/// The lines of `s`.
pub open spec fn lines(s: Seq<char>) -> Seq<Seq<char>> {
    lines_from(s, 0)
}

/// Each line behind one indent unit and closed by a newline, in order.
pub open spec fn indent_each(ls: Seq<Seq<char>>) -> Seq<char>
    decreases ls.len(),
{
    if ls.len() == 0 {
        Seq::empty()
    } else {
        indent() + ls.first() + seq!['\n'] + indent_each(ls.drop_first())
    }
}

/// The lines of `s`, each indented by one unit and closed by a newline.
pub open spec fn indented_lines(s: Seq<char>) -> Seq<char> {
    indent_each(lines(s))
}

/// The items in order, with the separator between each two neighbours.
pub open spec fn join(items: Seq<Seq<char>>, separator: Seq<char>) -> Seq<char>
    decreases items.len(),
{
    if items.len() == 0 {
        Seq::empty()
    } else if items.len() == 1 {
        items[0]
    } else {
        join(items.drop_last(), separator) + separator + items.last()
    }
}

/// Joining one item more: the separator comes before it unless it is the
/// first.
pub proof fn lemma_join_next(items: Seq<Seq<char>>, separator: Seq<char>, n: int)
    requires
        0 <= n < items.len(),
    ensures
        join(items.take(n + 1), separator) == if n == 0 {
            items[n]
        } else {
            join(items.take(n), separator) + separator + items[n]
        },
{
    assert(items.take(n + 1).drop_last() =~= items.take(n));
}

/// The characters of a string slice, in order.
pub fn chars_of(s: &str) -> (v: Vec<char>)
    ensures
        v@ == s@,
{
    let mut v: Vec<char> = Vec::new();
    for c in it: s.chars()
        invariant
            v@ == it.seq().take(it.index() as int),
            it.seq() == s@,
    {
        v.push(c);
    }
    v
}

/// Whether two string slices hold the same characters.
pub fn str_equals(a: &str, b: &str) -> (same: bool)
    ensures
        same == (a@ == b@),
{
    let x = chars_of(a);
    let y = chars_of(b);
    if x.len() != y.len() {
        return false;
    }
    let mut i: usize = 0;
    while i < x.len()
        invariant
            i <= x.len(),
            x.len() == y.len(),
            x@ == a@,
            y@ == b@,
            forall|k: int| 0 <= k < i ==> x@[k] == y@[k],
        decreases x.len() - i,
    {
        if x[i] != y[i] {
            return false;
        }
        i += 1;
    }
    assert(x@ =~= y@);
    true
}

/// The string that holds exactly the given characters.
pub fn string_of(v: &Vec<char>) -> (s: String)
    ensures
        s@ == v@,
{
    let mut s = String::new();
    let mut i: usize = 0;
    while i < v.len()
        invariant
            i <= v.len(),
            s@ == v@.take(i as int),
        decreases v.len() - i,
    {
        s.push(v[i]);
        i += 1;
    }
    s
}

/// Appends the characters of `s` to `buffer`.
pub fn append_chars(buffer: &mut Vec<char>, s: &Vec<char>)
    ensures
        final(buffer)@ == old(buffer)@ + s@,
{
    let mut i: usize = 0;
    while i < s.len()
        invariant
            i <= s.len(),
            buffer@ == old(buffer)@ + s@.take(i as int),
        decreases s.len() - i,
    {
        buffer.push(s[i]);
        i += 1;
    }
}

/// Appends the characters of a string slice to `buffer`.
pub fn append_str(buffer: &mut Vec<char>, s: &str)
    ensures
        final(buffer)@ == old(buffer)@ + s@,
{
    for c in it: s.chars()
        invariant
            buffer@ == old(buffer)@ + it.seq().take(it.index() as int),
            it.seq() == s@,
    {
        buffer.push(c);
    }
}

/// The character of a digit value below sixteen.
pub fn digit(d: u8) -> (c: char)
    requires
        d < 16,
    ensures
        c == digit_char(d as int),
{
    if d < 10 {
        (48u8 + d) as char
    } else {
        (55u8 + d) as char
    }
}

/// Appends the decimal numeral of `n`.
pub fn append_decimal(buffer: &mut Vec<char>, n: u64)
    ensures
        final(buffer)@ == old(buffer)@ + decimal_text(n as nat),
    decreases n,
{
    if n >= 10 {
        append_decimal(buffer, n / 10);
    }
    buffer.push(digit((n % 10) as u8));
}

/// Appends the decimal numeral of a signed integer.
pub fn append_signed_decimal(buffer: &mut Vec<char>, v: i64)
    ensures
        final(buffer)@ == old(buffer)@ + signed_decimal_text(v as int),
{
    if v < 0 {
        let magnitude: u64 = (-(v + 1)) as u64 + 1;
        buffer.push('-');
        append_decimal(buffer, magnitude);
    } else {
        append_decimal(buffer, v as u64);
    }
}

/// Appends the upper-case hexadecimal numeral of `n` with at least
/// `min_digits` digits.
pub fn append_hex(buffer: &mut Vec<char>, n: u32, min_digits: u8)
    ensures
        final(buffer)@ == old(buffer)@ + hex_text(n as nat, min_digits as nat),
    decreases n, min_digits,
{
    if n >= 16 || min_digits > 1 {
        append_hex(buffer, n / 16, if min_digits > 0 { min_digits - 1 } else { 0 });
    }
    buffer.push(digit((n % 16) as u8));
}

/// Whether the text holds a newline.
pub fn contains_newline(text: &Vec<char>) -> (found: bool)
    ensures
        found == text@.contains('\n'),
{
    let mut i: usize = 0;
    while i < text.len()
        invariant
            i <= text.len(),
            forall|k: int| 0 <= k < i ==> text@[k] != '\n',
        decreases text.len() - i,
    {
        if text[i] == '\n' {
            return true;
        }
        i += 1;
    }
    false
}

/// Removes the newlines at the end of `buffer`.
pub fn trim_trailing_newlines(buffer: &mut Vec<char>)
    ensures
        final(buffer)@ == trim_newlines(old(buffer)@),
{
    while buffer.len() > 0 && buffer[buffer.len() - 1] == '\n'
        invariant
            trim_newlines(buffer@) == trim_newlines(old(buffer)@),
        decreases buffer.len(),
    {
        buffer.pop();
    }
}

/// Adds newlines to `buffer` until it ends with an empty line.
pub fn ensure_blank_line(buffer: &mut Vec<char>)
    ensures
        final(buffer)@ == pad_to_blank_line(old(buffer)@),
{
    let n: usize = buffer.len();
    if n >= 2 && buffer[n - 1] == '\n' && buffer[n - 2] == '\n' {
    } else if n >= 1 && buffer[n - 1] == '\n' {
        buffer.push('\n');
    } else {
        buffer.push('\n');
        buffer.push('\n');
    }
}

/// Appends the lines of `text`, each behind one indent unit and closed by a
/// newline.
pub fn append_indented_lines(buffer: &mut Vec<char>, text: &Vec<char>)
    ensures
        final(buffer)@ == old(buffer)@ + indented_lines(text@),
{
    let n: usize = text.len();
    let mut start: usize = 0;
    while start < n
        invariant
            n == text.len(),
            start <= n,
            buffer@ + indent_each(lines_from(text@, start as int)) == old(buffer)@
                + indented_lines(text@),
        decreases n - start,
    {
        let ghost before = buffer@;
        let mut end: usize = start;
        while end < n && text[end] != '\n'
            invariant
                n == text.len(),
                start <= end <= n,
                line_end(text@, end as int) == line_end(text@, start as int),
            decreases n - end,
        {
            end += 1;
        }
        let mut stop: usize = end;
        if end < n && end > start && text[end - 1] == '\r' {
            stop = end - 1;
        }
        buffer.push(' ');
        buffer.push(' ');
        let mut i: usize = start;
        while i < stop
            invariant
                start <= i <= stop <= n,
                n == text.len(),
                buffer@ == before + indent() + text@.subrange(start as int, i as int),
            decreases stop - i,
        {
            buffer.push(text[i]);
            i += 1;
        }
        buffer.push('\n');
        proof {
            let s = text@;
            let rest = lines_from(s, start as int);
            if end < n {
                let line = strip_carriage_return(s.subrange(start as int, end as int));
                assert(line == s.subrange(start as int, stop as int));
                assert(rest.first() == line);
                assert(rest.drop_first() == lines_from(s, end + 1));
            } else {
                assert(rest.first() == s.subrange(start as int, n as int));
                assert(rest.drop_first() == Seq::<Seq<char>>::empty());
                assert(lines_from(s, n as int) == Seq::<Seq<char>>::empty());
            }
        }
        if end < n {
            start = end + 1;
        } else {
            start = n;
        }
    }
}

} // verus!
