//! Breaking a long line into pieces that fit a width, at the places where
//! Unicode allows a line to end.
//!
//! Widths and positions count bytes, as positions in a string slice do.

use vstd::prelude::*;
use vstd::string::*;
use vstd::utf8::{
    decode_utf8, decode_utf8_split, encode_utf8, encode_utf8_decode_utf8, encode_utf8_valid_utf8,
    is_ascii_chars, is_ascii_chars_concat, is_ascii_chars_encode_utf8, is_char_boundary,
    is_char_boundary_iff_not_is_continuation_byte, is_char_boundary_start_end_of_seq,
};

verus! {

/// The positions at which a line of `text` may end, as the Unicode line
/// breaking algorithm gives them, in order: each is the byte index of the
/// character that follows the break, or the length of the text.
pub uninterp spec fn break_positions(text: Seq<char>) -> Seq<int>;

/// The positions of `positions` as integers.
pub open spec fn position_views(positions: Seq<usize>) -> Seq<int> {
    positions.map_values(|p: usize| p as int)
}

/// `unicode_linebreak::linebreaks` yields the break opportunities of the
/// text in order, each with the byte index at which it lies; this keeps the
/// indices. The function walks the characters of the text by their byte
/// indices and then the end of the text, and looks each pair of neighbours
/// up in a table. So the indices grow strictly, each is the index of a
/// character or the length of the text, and none is nought: the table
/// allows no break behind the start of the text.
#[verifier::external_body]
pub(crate) fn line_breaks(text: &str) -> (positions: Vec<usize>)
    ensures
        position_views(positions@) == break_positions(text@),
        forall|i: int, j: int|
            0 <= i < j < positions@.len() ==> (#[trigger] positions@[i]) < (
            #[trigger] positions@[j]),
        forall|i: int|
            0 <= i < positions@.len() ==> 0 < (#[trigger] positions@[i])
                <= text.spec_bytes().len() && is_char_boundary(
                text.spec_bytes(),
                positions@[i] as int,
            ),
{
    unicode_linebreak::linebreaks(text).map(|(position, _)| position).collect()
}

/// How many positions at the front of `positions` lie before `width`.
pub open spec fn leading_below(positions: Seq<int>, width: int) -> int
    decreases positions.len(),
{
    if positions.len() == 0 || positions.first() >= width {
        0
    } else {
        1 + leading_below(positions.drop_first(), width)
    }
}

/// Where a line of `len` bytes with breaks at `positions` is cut so that the
/// first piece fits `width`: a line shorter than the width is not cut; else
/// the cut is at the last of the leading breaks that lie before the width,
/// and at the width itself when there is none.
pub open spec fn break_index(len: int, positions: Seq<int>, width: int) -> int {
    if len < width {
        len
    } else {
        let k = leading_below(positions, width);
        if k == 0 {
            width
        } else {
            positions[k - 1]
        }
    }
}

/// Where a line of `len` bytes with breaks at `positions` is cut.
pub fn break_index_of(len: usize, positions: &Vec<usize>, width: usize) -> (idx: usize)
    ensures
        idx == break_index(len as int, position_views(positions@), width as int),
        idx <= len,
{
    if len < width {
        return len;
    }
    let ghost all = position_views(positions@);
    let mut k: usize = 0;
    assert(all.skip(0) =~= all);
    while k < positions.len() && positions[k] < width
        invariant
            k <= positions.len(),
            all == position_views(positions@),
            leading_below(all, width as int) == k + leading_below(all.skip(k as int), width as int),
            forall|i: int| 0 <= i < k ==> (#[trigger] positions@[i]) < width,
        decreases positions.len() - k,
    {
        proof {
            let rest = all.skip(k as int);
            assert(rest.first() == positions@[k as int] as int);
            assert(rest.drop_first() =~= all.skip(k as int + 1));
        }
        k += 1;
    }
    proof {
        let rest = all.skip(k as int);
        if k < positions.len() {
            assert(rest.first() == positions@[k as int] as int);
        }
        assert(leading_below(rest, width as int) == 0);
    }
    if k == 0 {
        width
    } else {
        assert(all[k - 1] == positions@[k - 1] as int);
        positions[k - 1]
    }
}

/// Whether a line of `len` bytes with breaks at `positions` is cut at the
/// width itself, for want of a break before it.
pub open spec fn hard_cut(len: int, positions: Seq<int>, width: int) -> bool {
    len >= width && leading_below(positions, width) == 0
}

/// Every index into text of the first 128 characters alone is the index of
/// a character, or the length of the text.
pub proof fn lemma_ascii_boundaries(chars: Seq<char>, index: int)
    requires
        is_ascii_chars(chars),
        0 <= index <= encode_utf8(chars).len(),
    ensures
        is_char_boundary(encode_utf8(chars), index),
{
    let bytes = encode_utf8(chars);
    encode_utf8_valid_utf8(chars);
    is_ascii_chars_encode_utf8(chars);
    if index == bytes.len() {
        is_char_boundary_start_end_of_seq(bytes);
    } else {
        is_char_boundary_iff_not_is_continuation_byte(bytes, index);
        assert('\0' <= chars[index] <= '\u{7f}');
        assert(bytes[index] == chars[index] as u8);
    }
}

/// Where `line` is cut so that its first piece fits `width`. The cut lies
/// within the line, and behind its first byte unless the line or the width
/// is nought; it lies between two characters, unless it is a cut at the
/// width itself; and no break before the width lies behind it.
pub fn get_break_idx(line: &str, width: usize) -> (idx: usize)
    ensures
        idx == break_index(
            line.spec_bytes().len() as int,
            break_positions(line@),
            width as int,
        ),
        idx <= line.spec_bytes().len(),
        width >= 1 && line.spec_bytes().len() >= 1 ==> idx >= 1,
        !hard_cut(line.spec_bytes().len() as int, break_positions(line@), width as int)
            ==> is_char_boundary(line.spec_bytes(), idx as int),
        forall|i: int|
            0 <= i < break_positions(line@).len() && (#[trigger] break_positions(line@)[i])
                < width ==> break_positions(line@)[i] <= idx,
{
    let positions = line_breaks(line);
    let idx = break_index_of(line.as_bytes().len(), &positions, width);
    proof {
        let found = position_views(positions@);
        let k = leading_below(found, width as int);
        lemma_leading_below(found, width as int);
        encode_utf8_valid_utf8(line@);
        is_char_boundary_start_end_of_seq(line.spec_bytes());
        if line.spec_bytes().len() >= width && k > 0 {
            assert(found[k - 1] == positions@[k - 1]);
        }
        assert forall|i: int| 0 <= i < found.len() && (#[trigger] found[i]) < width implies found[i]
            <= idx by {
            assert(found[i] == positions@[i]);
            if line.spec_bytes().len() >= width {
                if k < found.len() {
                    assert(found[k] == positions@[k]);
                    if i > k {
                        assert(positions@[k] < positions@[i]);
                    }
                }
                if i < k - 1 {
                    assert(found[k - 1] == positions@[k - 1]);
                    assert(positions@[i] < positions@[k - 1]);
                }
            }
        }
    }
    idx
}

/// `first`, followed by `more` where there are more.
pub open spec fn followed_by(first: Seq<Seq<u8>>, more: Option<Seq<Seq<u8>>>) -> Option<
    Seq<Seq<u8>>,
> {
    match more {
        Some(pieces) => Some(first + pieces),
        None => None,
    }
}

/// The pieces into which the line with the bytes `line` is broken for
/// `width`: the line is cut where `break_index` says, and what is left is
/// broken in the same way until nothing is left. The pieces together are the
/// line. There are no such pieces when a cut would fall inside a character,
/// and when a cut leaves the whole line over, since then no number of cuts
/// comes to an end.
pub open spec fn wrapped(line: Seq<u8>, width: int) -> Option<Seq<Seq<u8>>>
    decreases line.len(),
{
    let idx = break_index(line.len() as int, break_positions(decode_utf8(line)), width);
    if idx < 0 || idx > line.len() || !is_char_boundary(line, idx) {
        None
    } else if idx == line.len() {
        Some(seq![line])
    } else if idx == 0 {
        None
    } else {
        followed_by(seq![line.take(idx)], wrapped(line.skip(idx), width))
    }
}

/// The pieces one after the other.
pub open spec fn concat(pieces: Seq<Seq<u8>>) -> Seq<u8>
    decreases pieces.len(),
{
    if pieces.len() == 0 {
        Seq::<u8>::empty()
    } else {
        pieces.first() + concat(pieces.drop_first())
    }
}

/// The breaks that are counted at the front of `positions` are there, the
/// last of them lies before the width, and the one behind them does not.
pub proof fn lemma_leading_below(positions: Seq<int>, width: int)
    ensures
        0 <= leading_below(positions, width) <= positions.len(),
        leading_below(positions, width) > 0 ==> positions[leading_below(positions, width) - 1]
            < width,
        leading_below(positions, width) < positions.len() ==> positions[leading_below(
            positions,
            width,
        )] >= width,
    decreases positions.len(),
{
    if positions.len() > 0 && positions.first() < width {
        let rest = positions.drop_first();
        lemma_leading_below(rest, width);
        let k = leading_below(rest, width);
        if k > 0 {
            assert(rest[k - 1] == positions[k]);
        }
        if k < rest.len() {
            assert(rest[k] == positions[k + 1]);
        }
    }
}

/// A cut never lies beyond the width.
pub proof fn lemma_break_within_width(len: int, positions: Seq<int>, width: int)
    ensures
        break_index(len, positions, width) <= width,
{
    lemma_leading_below(positions, width);
}

/// Breaking a line loses nothing and fits the width: the pieces one after
/// the other are the line, and no piece is longer than the width.
pub proof fn lemma_wrapped_pieces(line: Seq<u8>, width: int)
    ensures
        wrapped(line, width) matches Some(pieces) ==> {
            &&& concat(pieces) == line
            &&& pieces.len() >= 1
            &&& forall|i: int| 0 <= i < pieces.len() ==> (#[trigger] pieces[i]).len() <= width
        },
    decreases line.len(),
{
    let idx = break_index(line.len() as int, break_positions(decode_utf8(line)), width);
    lemma_break_within_width(line.len() as int, break_positions(decode_utf8(line)), width);
    match wrapped(line, width) {
        None => {},
        Some(pieces) => {
            if idx == line.len() {
                assert(pieces =~= seq![line]);
                assert(pieces.first() == line);
                assert(pieces.drop_first() =~= Seq::<Seq<u8>>::empty());
                assert(concat(pieces.drop_first()) =~= Seq::<u8>::empty());
                assert(line + Seq::<u8>::empty() =~= line);
            } else {
                let rest = line.skip(idx);
                lemma_wrapped_pieces(rest, width);
                let more = wrapped(rest, width)->0;
                assert(pieces =~= seq![line.take(idx)] + more);
                assert(pieces.drop_first() =~= more);
                assert(pieces.first() == line.take(idx));
                assert(line.take(idx) + rest =~= line);
                assert forall|i: int| 0 <= i < pieces.len() implies (#[trigger] pieces[i]).len()
                    <= width by {
                    if i > 0 {
                        assert(pieces[i] == more[i - 1]);
                    }
                }
            }
        },
    }
}

/// The bytes of each of `pieces`.
pub open spec fn piece_bytes(pieces: Seq<&str>) -> Seq<Seq<u8>> {
    pieces.map_values(|p: &str| p.spec_bytes())
}

/// Breaks `longline` into pieces for `width`, or returns `None` where it
/// cannot be broken: where a cut would fall inside a character, or would
/// leave the whole line over. Neither happens to text of the first 128
/// characters alone at a width of one or more: such text can always be
/// broken.
pub fn break_at<'a>(longline: &'a str, width: usize) -> (r: Option<Vec<&'a str>>)
    ensures
        match r {
            Some(pieces) => wrapped(longline.spec_bytes(), width as int) == Some(
                piece_bytes(pieces@),
            ),
            None => wrapped(longline.spec_bytes(), width as int) is None,
        },
        width >= 1 && is_ascii_chars(longline@) ==> r is Some,
{
    let mut pieces: Vec<&'a str> = Vec::new();
    let mut rest: &'a str = longline;
    assert(Seq::<Seq<u8>>::empty() + seq![longline.spec_bytes()] =~= seq![
        longline.spec_bytes(),
    ]);
    assert(piece_bytes(pieces@) =~= Seq::<Seq<u8>>::empty());
    loop
        invariant
            wrapped(longline.spec_bytes(), width as int) == followed_by(
                piece_bytes(pieces@),
                wrapped(rest.spec_bytes(), width as int),
            ),
            is_ascii_chars(longline@) ==> is_ascii_chars(rest@),
        decreases rest.spec_bytes().len(),
    {
        let idx = get_break_idx(rest, width);
        proof {
            encode_utf8_decode_utf8(rest@);
            encode_utf8_valid_utf8(rest@);
            if is_ascii_chars(rest@) {
                lemma_ascii_boundaries(rest@, idx as int);
            }
        }
        if !rest.is_char_boundary(idx) {
            return None;
        }
        let (head, tail) = rest.split_at(idx);
        let ghost before = piece_bytes(pieces@);
        pieces.push(head);
        proof {
            assert(piece_bytes(pieces@) =~= before.push(head.spec_bytes()));
            assert(head.spec_bytes() =~= rest.spec_bytes().take(idx as int));
            assert(tail.spec_bytes() =~= rest.spec_bytes().skip(idx as int));
        }
        if tail.as_bytes().len() == 0 {
            assert(head.spec_bytes() =~= rest.spec_bytes());
            assert(before + seq![rest.spec_bytes()] =~= before.push(head.spec_bytes()));
            return Some(pieces);
        }
        if idx == 0 {
            return None;
        }
        proof {
            let more = wrapped(tail.spec_bytes(), width as int);
            if more is Some {
                assert(before + (seq![head.spec_bytes()] + more->0) =~= before.push(
                    head.spec_bytes(),
                ) + more->0);
            }
            let bytes = rest.spec_bytes();
            decode_utf8_split(bytes, idx as int);
            encode_utf8_decode_utf8(head@);
            encode_utf8_decode_utf8(tail@);
            assert(head.spec_bytes() =~= bytes.subrange(0, idx as int));
            assert(tail.spec_bytes() =~= bytes.subrange(idx as int, bytes.len() as int));
            assert(rest@ =~= head@ + tail@);
            is_ascii_chars_concat(rest@, head@, tail@);
        }
        rest = tail;
    }
}

} // verus!
