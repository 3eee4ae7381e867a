use vstd::prelude::*;
use vstd::utf8::{encode_utf8, encode_utf8_decode_utf8};

verus! {

/// The pieces of `text` between the occurrences of `sep`, empty pieces included.
/// There is always at least one piece.
pub open spec fn split_on(text: Seq<char>, sep: char) -> Seq<Seq<char>>
    decreases text.len(),
{
    if text.len() == 0 {
        seq![text]
    } else {
        let before = split_on(text.drop_last(), sep);
        if text.last() == sep {
            before.push(Seq::empty())
        } else {
            before.drop_last().push(before.last().push(text.last()))
        }
    }
}

/// `pieces` one after the other, with one `sep` between neighbours.
pub open spec fn join_with(pieces: Seq<Seq<char>>, sep: char) -> Seq<char>
    decreases pieces.len(),
{
    if pieces.len() == 0 {
        Seq::empty()
    } else if pieces.len() == 1 {
        pieces[0]
    } else {
        join_with(pieces.drop_last(), sep).push(sep) + pieces.last()
    }
}

/// Splits `text` at every `sep`.
pub fn split(text: &str, sep: char) -> (pieces: Vec<String>)
    ensures
        pieces.deep_view() == split_on(text@, sep),
{
    let len: usize = text.unicode_len();
    let mut pieces: Vec<String> = Vec::new();
    let mut start: usize = 0;
    let mut end: usize = 0;
    proof {
        assert(text@.take(0) =~= Seq::empty());
        assert(text@.subrange(0, 0) =~= Seq::empty());
    }
    for c in it: text.chars()
        invariant
            it.seq() == text@,
            len == text@.len(),
            end == it.index(),
            start <= end <= len,
            pieces.deep_view().push(text@.subrange(start as int, end as int)) == split_on(
                text@.take(end as int),
                sep,
            ),
    {
        let ghost piece = text@.subrange(start as int, end as int);
        proof {
            let next = text@.take(end + 1);
            assert(next.drop_last() =~= text@.take(end as int));
            assert(pieces.deep_view().push(piece).drop_last() =~= pieces.deep_view());
            assert(text@.subrange(start as int, end + 1) =~= piece.push(c));
        }
        if c == sep {
            let ghost before = pieces.deep_view();
            pieces.push(text.substring_char(start, end).to_owned());
            start = end + 1;
            assert(pieces.deep_view() =~= before.push(piece));
            assert(text@.subrange(end + 1, end + 1) =~= Seq::empty());
        }
        end = end + 1;
    }
    let ghost before = pieces.deep_view();
    pieces.push(text.substring_char(start, end).to_owned());
    assert(text@.take(end as int) =~= text@);
    assert(pieces.deep_view() =~= before.push(text@.subrange(start as int, end as int)));
    pieces
}

/// Whether the two texts hold the same characters.
pub fn same_text(a: &str, b: &str) -> (same: bool)
    ensures
        same == (a@ == b@),
{
    let left = a.as_bytes();
    let right = b.as_bytes();
    if left.len() != right.len() {
        return false;
    }
    for i in 0..left.len()
        invariant
            left@ == encode_utf8(a@),
            right@ == encode_utf8(b@),
            left@.len() == right@.len(),
            forall|j: int| 0 <= j < i ==> left@[j] == right@[j],
    {
        if left[i] != right[i] {
            return false;
        }
    }
    proof {
        encode_utf8_decode_utf8(a@);
        encode_utf8_decode_utf8(b@);
        assert(left@ =~= right@);
    }
    true
}

/// Splitting gives at least one piece, none of which holds the separator, and joining the
/// pieces again gives the text back.
pub proof fn law_split_then_join(text: Seq<char>, sep: char)
    ensures
        split_on(text, sep).len() > 0,
        forall|i: int|
            0 <= i < split_on(text, sep).len() ==> !(#[trigger] split_on(text, sep)[i]).contains(
                sep,
            ),
        join_with(split_on(text, sep), sep) == text,
    decreases text.len(),
{
    let pieces = split_on(text, sep);
    if text.len() == 0 {
        assert(join_with(pieces, sep) =~= text);
    } else {
        let before = split_on(text.drop_last(), sep);
        law_split_then_join(text.drop_last(), sep);
        if text.last() == sep {
            assert(pieces.drop_last() =~= before);
            assert(join_with(pieces, sep) =~= text);
        } else {
            let grown = before.last().push(text.last());
            assert(!grown.contains(sep)) by {
                if grown.contains(sep) {
                    let k = choose|k: int| 0 <= k < grown.len() && grown[k] == sep;
                    assert(before.last()[k] == sep);
                }
            }
            assert(pieces.drop_last() =~= before.drop_last());
            assert(text.drop_last().push(text.last()) =~= text);
            assert(join_with(pieces, sep) =~= join_with(before, sep).push(text.last()));
        }
    }
}

/// A text without the separator is its own only piece.
pub proof fn lemma_split_plain(text: Seq<char>, sep: char)
    requires
        !text.contains(sep),
    ensures
        split_on(text, sep) == seq![text],
    decreases text.len(),
{
    if text.len() > 0 {
        let shorter = text.drop_last();
        assert(!shorter.contains(sep)) by {
            if shorter.contains(sep) {
                let k = choose|k: int| 0 <= k < shorter.len() && shorter[k] == sep;
                assert(text[k] == sep);
            }
        }
        lemma_split_plain(shorter, sep);
        assert(shorter.push(text.last()) =~= text);
        assert(text.contains(text.last()));
        assert(split_on(text, sep) =~= seq![text]);
    }
}

/// The pieces on both sides of a separator are found independently of each other.
pub proof fn lemma_split_concat(left: Seq<char>, right: Seq<char>, sep: char)
    ensures
        split_on(left.push(sep) + right, sep) == split_on(left, sep) + split_on(right, sep),
    decreases right.len(),
{
    let whole = left.push(sep) + right;
    if right.len() == 0 {
        assert(right =~= Seq::empty());
        assert(whole =~= left.push(sep));
        assert(whole.drop_last() =~= left);
        assert(split_on(whole, sep) =~= split_on(left, sep) + split_on(right, sep));
    } else {
        let shorter = right.drop_last();
        lemma_split_concat(left, shorter, sep);
        law_split_then_join(shorter, sep);
        let near = split_on(left, sep);
        let far = split_on(shorter, sep);
        assert(whole.drop_last() =~= left.push(sep) + shorter);
        assert(whole.last() == right.last());
        assert((near + far).drop_last() =~= near + far.drop_last());
        assert((near + far).last() == far.last());
        assert(split_on(whole, sep) =~= split_on(left, sep) + split_on(right, sep));
    }
}

/// Pieces that do not hold the separator come back from a split of their join.
pub proof fn law_join_then_split(pieces: Seq<Seq<char>>, sep: char)
    requires
        pieces.len() > 0,
        forall|i: int| 0 <= i < pieces.len() ==> !(#[trigger] pieces[i]).contains(sep),
    ensures
        split_on(join_with(pieces, sep), sep) == pieces,
    decreases pieces.len(),
{
    lemma_split_plain(pieces.last(), sep);
    if pieces.len() == 1 {
        assert(seq![pieces[0]] =~= pieces);
    } else {
        let shorter = pieces.drop_last();
        assert forall|i: int| 0 <= i < shorter.len() implies !(#[trigger] shorter[i]).contains(
            sep,
        ) by {
            assert(shorter[i] == pieces[i]);
        }
        law_join_then_split(shorter, sep);
        lemma_split_concat(join_with(shorter, sep), pieces.last(), sep);
        assert(shorter + seq![pieces.last()] =~= pieces);
    }
}

} // verus!
