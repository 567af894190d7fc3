//! The text of a kerning mapping: one line per entry, the entries ordered by
//! the bytes of their labels' canonical text.

use vstd::prelude::*;
use vstd::seq_lib::{
    to_multiset_build, to_multiset_contains, to_multiset_insert, to_multiset_len,
    to_multiset_remove,
};
use vstd::utf8::{encode_utf8, encode_utf8_decode_utf8};
use crate::label::{format_label_to_string, label_text};
use crate::models::{kerning_view, KerningPair, KerningPairView};
use crate::text::{append_str, indent, join, lemma_join_next, string_of};

verus! {

/// Whether `a` comes strictly before `b` in lexicographic order, given that
/// the two agree before position `i`.
pub open spec fn bytes_before_from(a: Seq<u8>, b: Seq<u8>, i: int) -> bool
    decreases a.len() - i,
{
    if i < 0 || i >= b.len() {
        false
    } else if i >= a.len() {
        true
    } else if a[i] != b[i] {
        a[i] < b[i]
    } else {
        bytes_before_from(a, b, i + 1)
    }
}

/// Whether `a` comes strictly before `b` in lexicographic byte order.
pub open spec fn bytes_before(a: Seq<u8>, b: Seq<u8>) -> bool {
    bytes_before_from(a, b, 0)
}

/// The key by which a kerning entry is ordered: the UTF-8 bytes of its
/// label's canonical text.
pub open spec fn sort_key(pair: KerningPairView) -> Seq<u8> {
    encode_utf8(label_text(pair.label))
}

/// Where a new entry goes into an ordered sequence, searching from `from`:
/// before the first entry whose key comes after its own, so behind every
/// entry with an equal key.
pub open spec fn insert_position(sorted: Seq<KerningPairView>, pair: KerningPairView, from: int) -> int
    decreases sorted.len() - from,
{
    if from < 0 || from >= sorted.len() {
        sorted.len() as int
    } else if bytes_before(sort_key(pair), sort_key(sorted[from])) {
        from
    } else {
        insert_position(sorted, pair, from + 1)
    }
}

/// An ordered sequence with one more entry in its place.
pub open spec fn insert_sorted(sorted: Seq<KerningPairView>, pair: KerningPairView) -> Seq<KerningPairView> {
    sorted.insert(insert_position(sorted, pair, 0), pair)
}

/// The entries in ascending order of their keys; entries with equal keys keep
/// the order in which they were held.
pub open spec fn sorted_pairs(pairs: Seq<KerningPairView>) -> Seq<KerningPairView>
    decreases pairs.len(),
{
    if pairs.len() == 0 {
        Seq::empty()
    } else {
        insert_sorted(sorted_pairs(pairs.drop_last()), pairs.last())
    }
}

/// The line of one entry: an indent unit, the label, a space, the adjustment.
pub open spec fn kerning_line(pair: KerningPairView) -> Seq<char> {
    indent() + label_text(pair.label) + seq![' '] + pair.adjustment
}

/// The lines of the entries, in the order given.
pub open spec fn kerning_lines(pairs: Seq<KerningPairView>) -> Seq<Seq<char>> {
    Seq::new(pairs.len(), |i: int| kerning_line(pairs[i]))
}

/// The text of a kerning mapping: the lines of its entries in ascending order
/// of their keys, joined by newlines, with no newline at the end.
pub open spec fn kerning_text(pairs: Seq<KerningPairView>) -> Seq<char> {
    join(kerning_lines(sorted_pairs(pairs)), seq!['\n'])
}

/// Whether no entry's key comes before that of an earlier entry.
pub open spec fn ordered(pairs: Seq<KerningPairView>) -> bool {
    forall|i: int, j: int|
        0 <= i < j < pairs.len() ==> !bytes_before(
            #[trigger] sort_key(pairs[j]),
            #[trigger] sort_key(pairs[i]),
        )
}

/// Whether no two entries have labels with the same canonical text.
pub open spec fn distinct_label_texts(pairs: Seq<KerningPairView>) -> bool {
    forall|i: int, j: int|
        0 <= i < j < pairs.len() ==> #[trigger] label_text(pairs[i].label) != #[trigger] label_text(
            pairs[j].label,
        )
}

proof fn lemma_bytes_before_irreflexive(a: Seq<u8>, i: int)
    requires
        0 <= i,
    ensures
        !bytes_before_from(a, a, i),
    decreases a.len() - i,
{
    if i < a.len() {
        lemma_bytes_before_irreflexive(a, i + 1);
    }
}

proof fn lemma_bytes_before_transitive(a: Seq<u8>, b: Seq<u8>, c: Seq<u8>, i: int)
    requires
        0 <= i,
        bytes_before_from(a, b, i),
        bytes_before_from(b, c, i),
    ensures
        bytes_before_from(a, c, i),
    decreases a.len() - i,
{
    if i < a.len() && a[i] == b[i] && b[i] == c[i] {
        lemma_bytes_before_transitive(a, b, c, i + 1);
    }
}

proof fn lemma_bytes_before_total(a: Seq<u8>, b: Seq<u8>, i: int)
    requires
        0 <= i <= a.len(),
        i <= b.len(),
        forall|k: int| 0 <= k < i ==> a[k] == b[k],
    ensures
        bytes_before_from(a, b, i) || bytes_before_from(b, a, i) || a == b,
    decreases a.len() - i,
{
    if i < a.len() && i < b.len() {
        if a[i] == b[i] {
            lemma_bytes_before_total(a, b, i + 1);
        }
    } else if i == a.len() && i == b.len() {
        assert(a =~= b);
    }
}

/// Two canonical texts with the same bytes are the same text.
proof fn lemma_sort_key_injective(p: KerningPairView, q: KerningPairView)
    requires
        sort_key(p) == sort_key(q),
    ensures
        label_text(p.label) == label_text(q.label),
{
    encode_utf8_decode_utf8(label_text(p.label));
    encode_utf8_decode_utf8(label_text(q.label));
}

proof fn lemma_insert_position(sorted: Seq<KerningPairView>, pair: KerningPairView, from: int)
    requires
        0 <= from <= sorted.len(),
    ensures
        from <= insert_position(sorted, pair, from) <= sorted.len(),
        forall|k: int|
            from <= k < insert_position(sorted, pair, from) ==> !bytes_before(
                sort_key(pair),
                #[trigger] sort_key(sorted[k]),
            ),
        insert_position(sorted, pair, from) < sorted.len() ==> bytes_before(
            sort_key(pair),
            sort_key(sorted[insert_position(sorted, pair, from)]),
        ),
    decreases sorted.len() - from,
{
    if from < sorted.len() && !bytes_before(sort_key(pair), sort_key(sorted[from])) {
        lemma_insert_position(sorted, pair, from + 1);
    }
}

proof fn lemma_insert_sorted_ordered(sorted: Seq<KerningPairView>, pair: KerningPairView)
    requires
        ordered(sorted),
    ensures
        ordered(insert_sorted(sorted, pair)),
{
    let at = insert_position(sorted, pair, 0);
    let result = insert_sorted(sorted, pair);
    lemma_insert_position(sorted, pair, 0);
    assert forall|i: int, j: int| 0 <= i < j < result.len() implies !bytes_before(
        #[trigger] sort_key(result[j]),
        #[trigger] sort_key(result[i]),
    ) by {
        if i == at {
            let later = sorted[j - 1];
            assert(result[j] == later);
            if bytes_before(sort_key(later), sort_key(pair)) {
                lemma_bytes_before_transitive(sort_key(later), sort_key(pair), sort_key(sorted[at]), 0);
                if j - 1 == at {
                    lemma_bytes_before_irreflexive(sort_key(later), 0);
                } else {
                    assert(!bytes_before(sort_key(sorted[j - 1]), sort_key(sorted[at])));
                }
            }
        } else if j == at {
            assert(result[i] == sorted[i]);
        } else {
            let from_i = if i < at { i } else { i - 1 };
            let from_j = if j < at { j } else { j - 1 };
            assert(result[i] == sorted[from_i]);
            assert(result[j] == sorted[from_j]);
            assert(!bytes_before(sort_key(sorted[from_j]), sort_key(sorted[from_i])));
        }
    }
}

/// The ordered entries are ordered, and they are the entries given: each as
/// often as it was held.
pub proof fn lemma_sorted_pairs(pairs: Seq<KerningPairView>)
    ensures
        ordered(sorted_pairs(pairs)),
        sorted_pairs(pairs).to_multiset() == pairs.to_multiset(),
        sorted_pairs(pairs).len() == pairs.len(),
    decreases pairs.len(),
{
    if pairs.len() > 0 {
        let front = pairs.drop_last();
        lemma_sorted_pairs(front);
        lemma_insert_sorted_ordered(sorted_pairs(front), pairs.last());
        lemma_insert_position(sorted_pairs(front), pairs.last(), 0);
        to_multiset_insert(sorted_pairs(front), insert_position(sorted_pairs(front), pairs.last(), 0), pairs.last());
        assert(front.push(pairs.last()) =~= pairs);
        to_multiset_build(front, pairs.last());
    } else {
        assert(sorted_pairs(pairs) =~= pairs);
    }
}

/// A rearrangement of entries with distinct label texts has distinct label
/// texts.
proof fn lemma_distinct_rearranged(a: Seq<KerningPairView>, b: Seq<KerningPairView>)
    requires
        a.to_multiset() == b.to_multiset(),
        distinct_label_texts(a),
    ensures
        distinct_label_texts(b),
{
    assert forall|i: int, j: int| 0 <= i < a.len() && 0 <= j < a.len() && i != j implies a[i]
        != a[j] by {
        if i < j {
            assert(label_text(a[i].label) != label_text(a[j].label));
        } else {
            assert(label_text(a[j].label) != label_text(a[i].label));
        }
    }
    a.lemma_multiset_has_no_duplicates();
    b.lemma_multiset_has_no_duplicates_conv();
    assert forall|i: int, j: int| 0 <= i < j < b.len() implies #[trigger] label_text(b[i].label)
        != #[trigger] label_text(b[j].label) by {
        to_multiset_contains(b, b[i]);
        to_multiset_contains(b, b[j]);
        to_multiset_contains(a, b[i]);
        to_multiset_contains(a, b[j]);
        assert(b.contains(b[i]));
        assert(b.contains(b[j]));
        let p = choose|p: int| 0 <= p < a.len() && a[p] == b[i];
        let q = choose|q: int| 0 <= q < a.len() && a[q] == b[j];
        assert(b[i] != b[j]);
        if p < q {
            assert(label_text(a[p].label) != label_text(a[q].label));
        } else {
            assert(label_text(a[q].label) != label_text(a[p].label));
        }
    }
}

/// Two ordered sequences that hold the same entries, with distinct label
/// texts, are the same sequence.
proof fn lemma_ordered_unique(x: Seq<KerningPairView>, y: Seq<KerningPairView>)
    requires
        ordered(x),
        ordered(y),
        x.to_multiset() == y.to_multiset(),
        distinct_label_texts(x),
    ensures
        x == y,
    decreases x.len(),
{
    to_multiset_len(x);
    to_multiset_len(y);
    if x.len() == 0 {
        assert(x =~= y);
    } else {
        to_multiset_contains(x, x[0]);
        to_multiset_contains(y, x[0]);
        to_multiset_contains(x, y[0]);
        to_multiset_contains(y, y[0]);
        assert(x.contains(x[0]));
        assert(y.contains(y[0]));
        let k = choose|k: int| 0 <= k < y.len() && y[k] == x[0];
        let m = choose|m: int| 0 <= m < x.len() && x[m] == y[0];
        assert(!bytes_before(sort_key(x[0]), sort_key(y[0]))) by {
            if k > 0 {
                assert(!bytes_before(sort_key(y[k]), sort_key(y[0])));
            } else {
                lemma_bytes_before_irreflexive(sort_key(y[0]), 0);
            }
        }
        assert(!bytes_before(sort_key(y[0]), sort_key(x[0]))) by {
            if m > 0 {
                assert(!bytes_before(sort_key(x[m]), sort_key(x[0])));
            } else {
                lemma_bytes_before_irreflexive(sort_key(x[0]), 0);
            }
        }
        lemma_bytes_before_total(sort_key(x[0]), sort_key(y[0]), 0);
        lemma_sort_key_injective(x[0], y[0]);
        if m > 0 {
            assert(label_text(x[0].label) != label_text(x[m].label));
        }
        assert(x[0] == y[0]);
        let xs = x.drop_first();
        let ys = y.drop_first();
        assert(x.remove(0) =~= xs);
        assert(y.remove(0) =~= ys);
        to_multiset_remove(x, 0);
        to_multiset_remove(y, 0);
        assert(ordered(xs)) by {
            assert forall|i: int, j: int| 0 <= i < j < xs.len() implies !bytes_before(
                #[trigger] sort_key(xs[j]),
                #[trigger] sort_key(xs[i]),
            ) by {
                assert(!bytes_before(sort_key(x[j + 1]), sort_key(x[i + 1])));
            }
        }
        assert(ordered(ys)) by {
            assert forall|i: int, j: int| 0 <= i < j < ys.len() implies !bytes_before(
                #[trigger] sort_key(ys[j]),
                #[trigger] sort_key(ys[i]),
            ) by {
                assert(!bytes_before(sort_key(y[j + 1]), sort_key(y[i + 1])));
            }
        }
        assert(distinct_label_texts(xs)) by {
            assert forall|i: int, j: int| 0 <= i < j < xs.len() implies #[trigger] label_text(
                xs[i].label,
            ) != #[trigger] label_text(xs[j].label) by {
                assert(label_text(x[i + 1].label) != label_text(x[j + 1].label));
            }
        }
        lemma_ordered_unique(xs, ys);
        assert(x =~= seq![x[0]] + xs);
        assert(y =~= seq![y[0]] + ys);
    }
}

/// The text of a kerning mapping depends on the entries alone, not on the
/// order in which the mapping holds them: two mappings with the same entries,
/// no two of which have labels with the same canonical text, give the same
/// text.
pub proof fn kerning_text_ignores_entry_order(a: Seq<KerningPairView>, b: Seq<KerningPairView>)
    requires
        a.to_multiset() == b.to_multiset(),
        distinct_label_texts(a),
    ensures
        kerning_text(a) == kerning_text(b),
{
    lemma_sorted_pairs(a);
    lemma_sorted_pairs(b);
    lemma_distinct_rearranged(a, sorted_pairs(a));
    lemma_ordered_unique(sorted_pairs(a), sorted_pairs(b));
}

/// Whether `a` comes strictly before `b` in lexicographic byte order.
fn bytes_precede(a: &[u8], b: &[u8]) -> (before: bool)
    ensures
        before == bytes_before(a@, b@),
{
    let mut i: usize = 0;
    while i < a.len() && i < b.len()
        invariant
            i <= a.len(),
            i <= b.len(),
            bytes_before_from(a@, b@, i as int) == bytes_before(a@, b@),
        decreases a.len() - i,
    {
        if a[i] != b[i] {
            return a[i] < b[i];
        }
        i += 1;
    }
    i < b.len()
}

/// An entry of the mapping by its position, with the text of its label.
struct Keyed {
    key: String,
    index: usize,
}

/// Whether the keyed entries stand for the entries of `sorted`, one for one.
spec fn keyed_matches(keyed: Seq<Keyed>, map: Seq<KerningPair>, sorted: Seq<KerningPairView>) -> bool {
    &&& keyed.len() == sorted.len()
    &&& forall|i: int|
        0 <= i < keyed.len() ==> {
            &&& (#[trigger] keyed[i]).index < map.len()
            &&& map[keyed[i].index as int]@ == sorted[i]
            &&& keyed[i].key@ == label_text(sorted[i].label)
        }
}

/// The entries of the mapping in ascending order of their keys.
fn keyed_in_order(map: &Vec<KerningPair>) -> (keyed: Vec<Keyed>)
    ensures
        keyed_matches(keyed@, map@, sorted_pairs(kerning_view(map@))),
{
    let ghost pairs = kerning_view(map@);
    let mut keyed: Vec<Keyed> = Vec::new();
    let mut n: usize = 0;
    while n < map.len()
        invariant
            n <= map.len(),
            pairs == kerning_view(map@),
            keyed_matches(keyed@, map@, sorted_pairs(pairs.take(n as int))),
        decreases map.len() - n,
    {
        let ghost sorted = sorted_pairs(pairs.take(n as int));
        let ghost pair = pairs[n as int];
        let key = format_label_to_string(&map[n].label);
        let mut at: usize = 0;
        while at < keyed.len() && !bytes_precede(key.as_str().as_bytes(), keyed[at].key.as_str().as_bytes())
            invariant
                at <= keyed.len(),
                keyed_matches(keyed@, map@, sorted),
                key@ == label_text(pair.label),
                insert_position(sorted, pair, at as int) == insert_position(sorted, pair, 0),
            decreases keyed.len() - at,
        {
            at += 1;
        }
        keyed.insert(at, Keyed { key, index: n });
        proof {
            assert(pairs.take(n + 1).drop_last() =~= pairs.take(n as int));
            assert(pairs.take(n + 1).last() == pair);
            assert(sorted_pairs(pairs.take(n + 1)) == sorted.insert(at as int, pair));
        }
        n += 1;
    }
    assert(pairs.take(n as int) =~= pairs);
    keyed
}

/// Appends the text of a kerning mapping.
pub fn append_kerning_map(buffer: &mut Vec<char>, map: &Vec<KerningPair>)
    ensures
        final(buffer)@ == old(buffer)@ + kerning_text(kerning_view(map@)),
{
    let keyed = keyed_in_order(map);
    let ghost sorted = sorted_pairs(kerning_view(map@));
    let ghost lines = kerning_lines(sorted);
    let mut i: usize = 0;
    while i < keyed.len()
        invariant
            i <= keyed.len(),
            keyed_matches(keyed@, map@, sorted),
            lines == kerning_lines(sorted),
            buffer@ == old(buffer)@ + join(lines.take(i as int), seq!['\n']),
        decreases keyed.len() - i,
    {
        proof {
            lemma_join_next(lines, seq!['\n'], i as int);
        }
        if i > 0 {
            buffer.push('\n');
        }
        buffer.push(' ');
        buffer.push(' ');
        append_str(buffer, keyed[i].key.as_str());
        buffer.push(' ');
        append_str(buffer, map[keyed[i].index].adjustment.as_str());
        i += 1;
    }
    assert(lines.take(i as int) =~= lines);
}

/// The text of a kerning mapping, as a string.
pub fn format_kerning_map_to_string(map: &Vec<KerningPair>) -> (s: String)
    ensures
        s@ == kerning_text(kerning_view(map@)),
{
    let mut buffer: Vec<char> = Vec::new();
    append_kerning_map(&mut buffer, map);
    string_of(&buffer)
}

} // verus!
