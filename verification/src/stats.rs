//! Ability scores as they are shown in a stat block.

use vstd::prelude::*;
use vstd::string::*;

verus! {

/// The decimal digit that stands for `d`.
pub open spec fn digit_char(d: nat) -> char
    recommends
        d < 10,
{
    ('0' as nat + d) as char
}

/// The decimal digits of `n`, without leading zeros.
pub open spec fn digits(n: nat) -> Seq<char>
    decreases n,
{
    if n < 10 {
        seq![digit_char(n)]
    } else {
        digits(n / 10).push(digit_char(n % 10))
    }
}

/// `v` in decimal, with a minus sign before a negative number.
pub open spec fn decimal(v: int) -> Seq<char> {
    if v < 0 {
        seq!['-'] + digits((-v) as nat)
    } else {
        digits(v as nat)
    }
}

/// `i32::to_string` writes the number in decimal, with a minus sign before a
/// negative number and no sign before any other.
#[verifier::external_body]
pub(crate) fn decimal_string(v: i32) -> (s: String)
    ensures
        s@ == decimal(v as int),
{
    v.to_string()
}

/// The modifier that goes with the ability score `val`: half of what the
/// score has above ten, rounded towards zero.
pub open spec fn modifier(val: int) -> int {
    if val >= 10 {
        (val - 10) / 2
    } else {
        -((10 - val) / 2)
    }
}

/// The modifier that goes with an ability score.
pub fn calc_modifier(val: i32) -> (m: i32)
    requires
        val >= i32::MIN + 10,
    ensures
        m == modifier(val as int),
{
    (val - 10) / 2
}

/// A score with its modifier in brackets, the modifier always with its
/// sign: `14(+2)`, `8(-1)`.
pub open spec fn stat_text(val: int) -> Seq<char> {
    let m = modifier(val);
    let sign = if m >= 0 {
        seq!['+']
    } else {
        Seq::<char>::empty()
    };
    decimal(val) + seq!['('] + sign + decimal(m) + seq![')']
}

/// The cell of a stat block for the score `val`, nine characters wide: the
/// text of the score between spaces, two on each side of five characters,
/// two before and one behind six, one on each side of seven. A score whose
/// text is longer has no cell.
pub open spec fn stat_cell(val: int) -> Option<Seq<char>> {
    let text = stat_text(val);
    if text.len() == 5 {
        Some(seq![' ', ' '] + text + seq![' ', ' '])
    } else if text.len() == 6 {
        Some(seq![' ', ' '] + text + seq![' '])
    } else if text.len() == 7 {
        Some(seq![' '] + text + seq![' '])
    } else {
        None
    }
}

/// Every cell of a stat block is nine characters wide.
pub proof fn lemma_cell_width(val: int)
    ensures
        stat_cell(val) matches Some(cell) ==> cell.len() == 9,
{
}

/// Numbers of four digits and more have four digits and more.
proof fn lemma_long_numbers(n: nat)
    requires
        n >= 1000,
    ensures
        digits(n).len() >= 4,
{
    reveal_with_fuel(digits, 4);
}

/// Every number has a digit.
proof fn lemma_digits_nonempty(n: nat)
    ensures
        digits(n).len() >= 1,
{
}

/// Formats one ability score for a stat block.
pub fn format_stat(val: i32) -> (cell: Option<String>)
    ensures
        match cell {
            Some(c) => stat_cell(val as int) == Some(c@),
            None => stat_cell(val as int) is None,
        },
{
    if val < -1000 {
        proof {
            lemma_long_numbers((-(val as int)) as nat);
            lemma_digits_nonempty((-modifier(val as int)) as nat);
            assert(stat_text(val as int).len() > 7);
        }
        return None;
    }
    let m = calc_modifier(val);
    let mut text = decimal_string(val);
    text.append("(");
    if m >= 0 {
        text.append("+");
    }
    let number = decimal_string(m);
    text.append(number.as_str());
    text.append(")");
    proof {
        reveal_strlit("(");
        reveal_strlit("+");
        reveal_strlit(")");
        assert("("@ =~= seq!['(']);
        assert("+"@ =~= seq!['+']);
        assert(")"@ =~= seq![')']);
        assert(text@ =~= stat_text(val as int));
    }
    let len = text.as_str().unicode_len();
    proof {
        reveal_strlit("  ");
        reveal_strlit(" ");
        assert("  "@ =~= seq![' ', ' ']);
        assert(" "@ =~= seq![' ']);
    }
    if len == 5 {
        let mut cell = String::from_str("  ");
        cell.append(text.as_str());
        cell.append("  ");
        Some(cell)
    } else if len == 6 {
        let mut cell = String::from_str("  ");
        cell.append(text.as_str());
        cell.append(" ");
        Some(cell)
    } else if len == 7 {
        let mut cell = String::from_str(" ");
        cell.append(text.as_str());
        cell.append(" ");
        Some(cell)
    } else {
        None
    }
}

} // verus!
