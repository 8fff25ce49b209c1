//! Where the lines of an entry go on the canvas: text that is broken to the
//! width of the canvas, with a title in bold laid over its beginning, and
//! the blocks of actions in a monster's entry.
//!
//! Rows count from the top of the canvas and may be negative: an entry that
//! is scrolled down begins above the canvas, and what falls there is not
//! drawn.

use vstd::prelude::*;
use vstd::string::*;
use vstd::utf8::encode_utf8;
use crate::stats::{decimal, decimal_string};
use crate::text::{join_all, joined, text_view, views};
use crate::wrap::{break_at, piece_bytes, wrapped};

verus! {

/// The row at which an entry begins that is scrolled down by `scroll` rows:
/// so many rows above the canvas. There is none where the rows run out of
/// numbers.
pub fn first_row(scroll: usize) -> (row: Option<i32>)
    ensures
        match row {
            Some(r) => r == -(scroll as int),
            None => scroll > i32::MAX,
        },
{
    if scroll > 0x7fff_ffff {
        None
    } else {
        Some(-(scroll as i32))
    }
}

/// The row of the canvas that the row `row` of an entry falls on, if it
/// falls on the canvas.
pub fn visible_row(row: i32) -> (on_canvas: Option<usize>)
    ensures
        match on_canvas {
            Some(r) => row >= 0 && r == row,
            None => row < 0,
        },
{
    if row >= 0 {
        Some(row as usize)
    } else {
        None
    }
}

/// A text with its place, as a mathematical value.
pub struct PlacedView {
    pub row: int,
    pub col: int,
    pub bytes: Seq<u8>,
    pub bold: bool,
}

/// A text with its place on the canvas.
#[derive(Debug)]
pub struct Placed {
    pub row: i32,
    pub col: usize,
    pub text: String,
    pub bold: bool,
}

impl View for Placed {
    type V = PlacedView;

    open spec fn view(&self) -> PlacedView {
        PlacedView {
            row: self.row as int,
            col: self.col as int,
            bytes: encode_utf8(self.text@),
            bold: self.bold,
        }
    }
}

/// The texts of `placed` as mathematical values.
pub open spec fn placed_views(placed: Seq<Placed>) -> Seq<PlacedView> {
    placed.map_values(|p: Placed| p@)
}

/// The text under a title: the title, a space and the text; the text alone
/// where there is no title.
pub open spec fn titled(text: Seq<char>, title: Option<Seq<char>>) -> Seq<char> {
    match title {
        Some(t) => t + seq![' '] + text,
        None => text,
    }
}

/// The pieces of a text, one below the other from `row` on.
pub open spec fn stacked(row: int, col: int, pieces: Seq<Seq<u8>>) -> Seq<PlacedView> {
    Seq::new(
        pieces.len(),
        |k: int| PlacedView { row: row + k, col, bytes: pieces[k], bold: false },
    )
}

/// A text under a title, broken for `width` and laid out from `row` on, and
/// the number of rows that it takes. The title is part of the first row,
/// and is laid over it once more in bold. There is no layout where the text
/// cannot be broken, and where the rows run out of numbers.
pub open spec fn title_block(
    row: int,
    col: int,
    width: int,
    text: Seq<char>,
    title: Option<Seq<char>>,
) -> Option<(Seq<PlacedView>, int)> {
    match wrapped(encode_utf8(titled(text, title)), width) {
        None => None,
        Some(pieces) => if pieces.len() > i32::MAX || row + pieces.len() > i32::MAX {
            None
        } else {
            let lines = stacked(row, col, pieces);
            let over = match title {
                Some(t) => seq![PlacedView { row, col, bytes: encode_utf8(t), bold: true }],
                None => Seq::<PlacedView>::empty(),
            };
            Some((lines + over, pieces.len() as int))
        },
    }
}

/// Lays the pieces of a text out one below the other from `row` on, after
/// what `placed` holds. Returns whether the rows sufficed; `placed` is
/// meaningless if they did not.
fn stack(placed: &mut Vec<Placed>, row: i32, col: usize, pieces: &Vec<&str>) -> (fits: bool)
    ensures
        fits == (row + pieces@.len() <= i32::MAX),
        fits ==> placed_views(final(placed)@) == placed_views(old(placed)@) + stacked(
            row as int,
            col as int,
            piece_bytes(pieces@),
        ),
{
    let ghost before = placed_views(placed@);
    let ghost bytes = piece_bytes(pieces@);
    let mut k: usize = 0;
    let mut at: i32 = row;
    assert(placed_views(placed@) =~= before + stacked(row as int, col as int, bytes.take(0)));
    while k < pieces.len()
        invariant
            k <= pieces.len(),
            at == row + k,
            bytes == piece_bytes(pieces@),
            placed_views(placed@) == before + stacked(
                row as int,
                col as int,
                bytes.take(k as int),
            ),
        decreases pieces.len() - k,
    {
        if at == i32::MAX {
            return false;
        }
        let ghost so_far = placed_views(placed@);
        placed.push(Placed { row: at, col, text: String::from_str(pieces[k]), bold: false });
        proof {
            let added = PlacedView {
                row: row + k,
                col: col as int,
                bytes: bytes[k as int],
                bold: false,
            };
            assert(placed_views(placed@) =~= so_far.push(added));
            assert(stacked(row as int, col as int, bytes.take(k as int + 1)) =~= stacked(
                row as int,
                col as int,
                bytes.take(k as int),
            ).push(added));
        }
        at += 1;
        k += 1;
    }
    assert(bytes.take(pieces.len() as int) =~= bytes);
    true
}

/// Lays a text out under a title.
pub fn print_with_title(row: i32, col: usize, width: usize, text: &str, title: Option<&str>) -> (r:
    Option<(Vec<Placed>, i32)>)
    ensures
        match r {
            Some((placed, rows)) => title_block(
                row as int,
                col as int,
                width as int,
                text@,
                text_view(title),
            ) == Some((placed_views(placed@), rows as int)),
            None => title_block(
                row as int,
                col as int,
                width as int,
                text@,
                text_view(title),
            ) is None,
        },
{
    let mut s = String::new();
    match title {
        Some(t) => {
            s.append(t);
            s.push(' ');
        },
        None => {},
    }
    s.append(text);
    assert(s@ =~= titled(text@, text_view(title)));
    let pieces = match break_at(s.as_str(), width) {
        Some(pieces) => pieces,
        None => {
            return None;
        },
    };
    if pieces.len() > 0x7fff_ffff {
        return None;
    }
    let mut placed: Vec<Placed> = Vec::new();
    assert(placed_views(placed@) =~= Seq::<PlacedView>::empty());
    if !stack(&mut placed, row, col, &pieces) {
        return None;
    }
    let ghost lines = placed_views(placed@);
    assert(lines =~= stacked(row as int, col as int, piece_bytes(pieces@)));
    match title {
        Some(t) => {
            placed.push(Placed { row, col, text: String::from_str(t), bold: true });
            assert(placed_views(placed@) =~= lines + seq![
                PlacedView { row: row as int, col: col as int, bytes: encode_utf8(t@), bold: true },
            ]);
        },
        None => {
            assert(placed_views(placed@) =~= lines + Seq::<PlacedView>::empty());
        },
    }
    let rows = pieces.len();
    Some((placed, rows as i32))
}

/// How often an ability can be used.
#[derive(Debug)]
pub enum Usage {
    /// Again after a rest of one of these kinds.
    RechargeAfterRest(Vec<String>),
    /// Again when a roll of the dice comes to `min_val` or more.
    RechargeOnRoll { min_val: i32, dice: String },
    /// So many times a day.
    PerDay(i32),
    /// In some other way, of which nothing is shown.
    Other,
}

/// The note on how often an ability can be used.
pub open spec fn usage_text(usage: &Usage) -> Seq<char> {
    match usage {
        Usage::RechargeAfterRest(kinds) => "(Recharges after a "@ + joined(
            views(kinds@),
            " or "@,
        ) + " rest)"@,
        Usage::RechargeOnRoll { min_val, dice } => "(Recharge "@ + decimal(*min_val as int)
            + ", "@ + dice@ + "+)"@,
        Usage::PerDay(times) => "("@ + decimal(*times as int) + "/day)"@,
        Usage::Other => Seq::<char>::empty(),
    }
}

/// Writes the note on how often an ability can be used.
pub fn format_usage(usage: &Usage) -> (text: String)
    ensures
        text@ == usage_text(usage),
{
    match usage {
        Usage::RechargeAfterRest(kinds) => {
            let mut text = String::from_str("(Recharges after a ");
            let kinds = join_all(kinds, " or ");
            text.append(kinds.as_str());
            text.append(" rest)");
            text
        },
        Usage::RechargeOnRoll { min_val, dice } => {
            let mut text = String::from_str("(Recharge ");
            let number = decimal_string(*min_val);
            text.append(number.as_str());
            text.append(", ");
            text.append(dice.as_str());
            text.append("+)");
            text
        },
        Usage::PerDay(times) => {
            let mut text = String::from_str("(");
            let number = decimal_string(*times);
            text.append(number.as_str());
            text.append("/day)");
            text
        },
        Usage::Other => String::new(),
    }
}

/// One action of a monster.
#[derive(Debug)]
pub struct ActionEntry {
    pub name: Option<String>,
    pub usage: Option<Usage>,
    pub desc: Option<String>,
}

/// The heading of an action: its name, the note on its usage if it has
/// one, and a full stop. An action without a name has no heading.
pub open spec fn heading(entry: &ActionEntry) -> Seq<char> {
    match entry.name {
        Some(name) => name@ + match entry.usage {
            Some(usage) => seq![' '] + usage_text(&usage),
            None => Seq::<char>::empty(),
        } + ". "@,
        None => Seq::<char>::empty(),
    }
}

/// Writes the heading of an action.
pub fn action_heading(entry: &ActionEntry) -> (text: String)
    ensures
        text@ == heading(entry),
{
    let mut text = String::new();
    match &entry.name {
        Some(name) => {
            text.append(name.as_str());
            match &entry.usage {
                Some(usage) => {
                    text.push(' ');
                    let note = format_usage(usage);
                    text.append(note.as_str());
                },
                None => {},
            }
            text.append(". ");
            assert(text@ =~= heading(entry));
        },
        None => {},
    }
    text
}

/// One action laid out from `row` on, and the number of rows that it takes:
/// the heading and the description are broken for `width` as one text, the
/// heading is laid over its beginning in bold, and one row is left free
/// below. An action without a description takes the free row only.
pub open spec fn action_block(row: int, width: int, entry: &ActionEntry) -> Option<
    (Seq<PlacedView>, int),
> {
    match entry.desc {
        None => Some((Seq::<PlacedView>::empty(), 1)),
        Some(desc) => match wrapped(encode_utf8(heading(entry) + desc@), width) {
            None => None,
            Some(pieces) => if pieces.len() >= i32::MAX || row + pieces.len() > i32::MAX {
                None
            } else {
                Some(
                    (
                        stacked(row, 0, pieces) + seq![
                            PlacedView {
                                row,
                                col: 0,
                                bytes: encode_utf8(heading(entry)),
                                bold: true,
                            },
                        ],
                        pieces.len() as int + 1,
                    ),
                )
            },
        },
    }
}

/// The first `n` of `entries` laid out one below the other from `row` on,
/// and the number of rows that they take together.
pub open spec fn action_blocks(row: int, width: int, entries: Seq<ActionEntry>, n: int) -> Option<
    (Seq<PlacedView>, int),
>
    decreases n,
{
    if n <= 0 {
        Some((Seq::<PlacedView>::empty(), 0))
    } else {
        match action_blocks(row, width, entries, n - 1) {
            None => None,
            Some((above, rows)) => match action_block(row + rows, width, &entries[n - 1]) {
                None => None,
                Some((block, more)) => if rows + more > i32::MAX || row + rows + more
                    > i32::MAX {
                    None
                } else {
                    Some((above + block, rows + more))
                },
            },
        }
    }
}

/// Once some actions cannot be laid out, no further action mends it.
proof fn lemma_blocks_fail_on(row: int, width: int, entries: Seq<ActionEntry>, n: int, m: int)
    requires
        0 <= n <= m,
        action_blocks(row, width, entries, n) is None,
    ensures
        action_blocks(row, width, entries, m) is None,
    decreases m - n,
{
    if n < m {
        lemma_blocks_fail_on(row, width, entries, n, m - 1);
    }
}

/// Lays the actions of a monster out one below the other from `row` on.
/// Returns what is to be drawn and the number of rows taken, or `None`
/// where a text cannot be broken or the rows run out of numbers.
pub fn draw_actions(actions: &Vec<ActionEntry>, width: usize, row: i32) -> (r: Option<
    (Vec<Placed>, i32),
>)
    ensures
        match r {
            Some((placed, rows)) => action_blocks(
                row as int,
                width as int,
                actions@,
                actions@.len() as int,
            ) == Some((placed_views(placed@), rows as int)),
            None => action_blocks(row as int, width as int, actions@, actions@.len() as int)
                is None,
        },
{
    let mut placed: Vec<Placed> = Vec::new();
    let mut idx: i32 = 0;
    let mut n: usize = 0;
    assert(placed_views(placed@) =~= Seq::<PlacedView>::empty());
    while n < actions.len()
        invariant
            n <= actions.len(),
            0 <= idx,
            row + idx <= i32::MAX,
            action_blocks(row as int, width as int, actions@, n as int) == Some(
                (placed_views(placed@), idx as int),
            ),
        decreases actions.len() - n,
    {
        let entry = &actions[n];
        let start: i32 = row + idx;
        let ghost above = placed_views(placed@);
        let mut used: i32 = 0;
        match &entry.desc {
            Some(desc) => {
                let head = action_heading(entry);
                let mut line = head.clone();
                line.append(desc.as_str());
                let pieces = match break_at(line.as_str(), width) {
                    Some(pieces) => pieces,
                    None => {
                        proof {
                            lemma_blocks_fail_on(
                                row as int,
                                width as int,
                                actions@,
                                n as int + 1,
                                actions@.len() as int,
                            );
                        }
                        return None;
                    },
                };
                if pieces.len() >= 0x7fff_ffff || !stack(&mut placed, start, 0, &pieces) {
                    proof {
                        lemma_blocks_fail_on(
                            row as int,
                            width as int,
                            actions@,
                            n as int + 1,
                            actions@.len() as int,
                        );
                    }
                    return None;
                }
                let ghost lines = placed_views(placed@);
                placed.push(Placed { row: start, col: 0, text: head, bold: true });
                proof {
                    let over = PlacedView {
                        row: start as int,
                        col: 0,
                        bytes: encode_utf8(heading(entry)),
                        bold: true,
                    };
                    assert(placed_views(placed@) =~= lines.push(over));
                    assert(placed_views(placed@) =~= above + (stacked(
                        start as int,
                        0,
                        piece_bytes(pieces@),
                    ) + seq![over]));
                }
                used = pieces.len() as i32;
            },
            None => {
                assert(placed_views(placed@) =~= above + Seq::<PlacedView>::empty());
            },
        }
        used = used + 1;
        if used > i32::MAX - idx || (row > 0 && idx + used > i32::MAX - row) {
            proof {
                lemma_blocks_fail_on(
                    row as int,
                    width as int,
                    actions@,
                    n as int + 1,
                    actions@.len() as int,
                );
            }
            return None;
        }
        idx = idx + used;
        n += 1;
    }
    Some((placed, idx))
}

} // verus!
