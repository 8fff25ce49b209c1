//! Bytes written as hexadecimal text, the form in which a document's bytes
//! are kept in the index.

use vstd::prelude::*;
use vstd::string::*;

verus! {

/// The lower-case hexadecimal digit that stands for `n`.
pub open spec fn digit(n: int) -> char
    recommends
        0 <= n < 16,
{
    if n < 10 {
        ('0' as int + n) as char
    } else {
        ('a' as int + n - 10) as char
    }
}

/// What the hexadecimal digit `c` stands for, in either case.
pub open spec fn digit_value(c: char) -> Option<int> {
    if '0' <= c <= '9' {
        Some(c as int - '0' as int)
    } else if 'a' <= c <= 'f' {
        Some(c as int - 'a' as int + 10)
    } else if 'A' <= c <= 'F' {
        Some(c as int - 'A' as int + 10)
    } else {
        None
    }
}

/// `bytes` as text: two lower-case digits for each byte, the high one first.
pub open spec fn hex_text(bytes: Seq<u8>) -> Seq<char>
    decreases bytes.len(),
{
    if bytes.len() == 0 {
        Seq::<char>::empty()
    } else {
        hex_text(bytes.drop_last()).push(digit(bytes.last() as int / 16)).push(
            digit(bytes.last() as int % 16),
        )
    }
}

/// The bytes that `text` stands for: each pair of digits is one byte. Text
/// of odd length and text with a character that is no digit stand for none.
pub open spec fn hex_bytes(text: Seq<char>) -> Option<Seq<u8>>
    decreases text.len(),
{
    if text.len() == 0 {
        Some(Seq::<u8>::empty())
    } else if text.len() == 1 {
        None
    } else {
        let high = digit_value(text[text.len() - 2]);
        let low = digit_value(text.last());
        match hex_bytes(text.take(text.len() - 2)) {
            Some(bytes) => if high is Some && low is Some {
                Some(bytes.push((16 * high->0 + low->0) as u8))
            } else {
                None
            },
            None => None,
        }
    }
}

/// The error of `hex::decode`.
#[verifier::external_type_specification]
#[verifier::external_body]
pub struct ExFromHexError(hex::FromHexError);

/// `hex::encode` writes each byte as two lower-case hexadecimal digits, the
/// high one first.
#[verifier::external_body]
pub(crate) fn hex_encode(bytes: &[u8]) -> (text: String)
    ensures
        text@ == hex_text(bytes@),
{
    hex::encode(bytes)
}

/// `hex::decode` reads each pair of hexadecimal digits, of either case, as
/// one byte, and fails on text of odd length and on any other character.
#[verifier::external_body]
pub(crate) fn hex_decode(text: &str) -> (r: Result<Vec<u8>, hex::FromHexError>)
    ensures
        match r {
            Ok(bytes) => hex_bytes(text@) == Some(bytes@),
            Err(_) => hex_bytes(text@) is None,
        },
{
    hex::decode(text)
}

/// Every digit stands for the number that it was written for.
pub proof fn lemma_digit_value(n: int)
    requires
        0 <= n < 16,
    ensures
        digit_value(digit(n)) == Some(n),
{
}

/// What was written as text is read back as the same bytes.
pub proof fn lemma_hex_round_trip(bytes: Seq<u8>)
    ensures
        hex_text(bytes).len() == 2 * bytes.len(),
        hex_bytes(hex_text(bytes)) == Some(bytes),
    decreases bytes.len(),
{
    if bytes.len() > 0 {
        let init = bytes.drop_last();
        let last = bytes.last() as int;
        lemma_hex_round_trip(init);
        let text = hex_text(bytes);
        assert(text.take(text.len() - 2) =~= hex_text(init));
        lemma_digit_value(last / 16);
        lemma_digit_value(last % 16);
        assert(text[text.len() - 2] == digit(last / 16));
        assert(text.last() == digit(last % 16));
        assert(16 * (last / 16) + last % 16 == last);
        assert(init.push(bytes.last()) =~= bytes);
    }
}

} // verus!
