use fuzzy5e::layout::{
    action_heading, draw_actions, format_usage, print_with_title, visible_row, ActionEntry,
    Placed, Usage,
};
use fuzzy5e::text::join_all;
use fuzzy5e::wrap::{break_at, break_index_of, get_break_idx};

#[test]
fn a_short_line_is_not_cut() {
    assert_eq!(get_break_idx("Hello", 10), 5);
    assert_eq!(get_break_idx("", 3), 0);
    assert_eq!(break_at("Hello", 10), Some(vec!["Hello"]));
    assert_eq!(break_at("", 3), Some(vec![""]));
}

#[test]
fn a_long_line_is_cut_at_the_last_break_before_the_width() {
    assert_eq!(get_break_idx("Hello world!", 8), 6);
    assert_eq!(get_break_idx("a b c d e f", 6), 4);
    assert_eq!(
        break_at("Hello world!", 8),
        Some(vec!["Hello ", "world!"])
    );
    assert_eq!(
        break_at("the quick brown fox jumps", 11),
        Some(vec!["the quick ", "brown fox ", "jumps"])
    );
    assert_eq!(
        break_at("the quick brown fox jumps", 10),
        Some(vec!["the ", "quick ", "brown ", "fox jumps"])
    );
}

#[test]
fn a_word_longer_than_the_width_is_cut_at_the_width() {
    assert_eq!(get_break_idx("abcdefghij", 4), 4);
    assert_eq!(
        break_at("abcdefghij", 4),
        Some(vec!["abcd", "efgh", "ij"])
    );
    assert_eq!(break_at("abcd", 4), Some(vec!["abcd"]));
}

#[test]
fn the_pieces_together_are_the_line() {
    let line = "Each creature in a 20-foot-radius sphere centered on that point must make a Dexterity saving throw.";
    for width in [5, 12, 20, 40, 200] {
        let pieces = break_at(line, width).expect("the line can be broken");
        assert_eq!(pieces.concat(), line);
        for piece in &pieces {
            assert!(piece.len() <= width);
            assert!(!piece.is_empty());
        }
    }
}

#[test]
fn a_line_that_cannot_be_broken_has_no_pieces() {
    assert_eq!(break_at("abc", 0), None);
    assert_eq!(break_at("ééé", 3), None);
    assert_eq!(break_at("ééé", 4), Some(vec!["éé", "é"]));
    assert_eq!(break_at("", 0), Some(vec![""]));
}

#[test]
fn the_cut_follows_the_breaks_that_lie_before_the_width() {
    assert_eq!(break_index_of(3, &vec![2, 3], 5), 3);
    assert_eq!(break_index_of(12, &vec![6, 12], 8), 6);
    assert_eq!(break_index_of(12, &vec![6, 12], 6), 6);
    assert_eq!(break_index_of(12, &vec![6, 12], 7), 6);
    assert_eq!(break_index_of(12, &vec![2, 4, 6, 12], 7), 6);
    assert_eq!(break_index_of(12, &vec![12], 5), 5);
    assert_eq!(break_index_of(12, &Vec::new(), 12), 12);
    assert_eq!(break_index_of(12, &vec![9, 3, 12], 5), 5);
    assert_eq!(break_index_of(12, &vec![3, 9, 4, 12], 5), 3);
}

#[test]
fn rows_above_the_canvas_are_not_drawn() {
    assert_eq!(visible_row(0), Some(0));
    assert_eq!(visible_row(17), Some(17));
    assert_eq!(visible_row(-1), None);
    assert_eq!(visible_row(i32::MIN), None);
}

fn shown(placed: &[Placed]) -> Vec<(i32, usize, &str, bool)> {
    placed
        .iter()
        .map(|p| (p.row, p.col, p.text.as_str(), p.bold))
        .collect()
}

#[test]
fn a_title_is_laid_over_the_first_row() {
    let (placed, rows) =
        print_with_title(3, 1, 12, "60 feet away", Some("Range:")).expect("a layout");
    assert_eq!(rows, 2);
    assert_eq!(
        shown(&placed),
        vec![
            (3, 1, "Range: 60 ", false),
            (4, 1, "feet away", false),
            (3, 1, "Range:", true),
        ]
    );
}

#[test]
fn text_without_a_title_is_only_stacked() {
    let (placed, rows) = print_with_title(-1, 0, 80, "Evocation", None).expect("a layout");
    assert_eq!(rows, 1);
    assert_eq!(shown(&placed), vec![(-1, 0, "Evocation", false)]);
}

#[test]
fn text_that_cannot_be_broken_has_no_layout() {
    assert!(print_with_title(0, 0, 0, "abc", None).is_none());
    assert!(print_with_title(i32::MAX, 0, 80, "abc", None).is_none());
    assert!(print_with_title(i32::MAX - 1, 0, 80, "abc", None).is_some());
}

#[test]
fn usage_notes_are_written_out() {
    assert_eq!(
        format_usage(&Usage::RechargeAfterRest(vec![
            String::from("short"),
            String::from("long")
        ])),
        "(Recharges after a short or long rest)"
    );
    assert_eq!(
        format_usage(&Usage::RechargeAfterRest(Vec::new())),
        "(Recharges after a  rest)"
    );
    assert_eq!(
        format_usage(&Usage::RechargeOnRoll {
            min_val: 5,
            dice: String::from("1d6")
        }),
        "(Recharge 5, 1d6+)"
    );
    assert_eq!(format_usage(&Usage::PerDay(3)), "(3/day)");
    assert_eq!(format_usage(&Usage::PerDay(-12)), "(-12/day)");
    assert_eq!(format_usage(&Usage::Other), "");
}

#[test]
fn parts_are_joined_with_the_separator_between_them() {
    assert_eq!(join_all(&Vec::new(), ", "), "");
    assert_eq!(join_all(&vec![String::from("V")], ", "), "V");
    assert_eq!(
        join_all(
            &vec![String::from("V"), String::from("S"), String::from("M")],
            ", "
        ),
        "V, S, M"
    );
    assert_eq!(
        join_all(&vec![String::new(), String::new()], "-"),
        "-"
    );
}

fn action(name: Option<&str>, usage: Option<Usage>, desc: Option<&str>) -> ActionEntry {
    ActionEntry {
        name: name.map(String::from),
        usage,
        desc: desc.map(String::from),
    }
}

#[test]
fn an_action_is_headed_by_its_name_and_usage() {
    assert_eq!(
        action_heading(&action(Some("Bite"), None, None)),
        "Bite. "
    );
    assert_eq!(
        action_heading(&action(Some("Fire Breath"), Some(Usage::PerDay(2)), None)),
        "Fire Breath (2/day). "
    );
    assert_eq!(
        action_heading(&action(Some("Claw"), Some(Usage::Other), None)),
        "Claw . "
    );
    assert_eq!(
        action_heading(&action(None, Some(Usage::PerDay(2)), Some("x"))),
        ""
    );
}

#[test]
fn actions_are_laid_out_one_below_the_other() {
    let actions = vec![
        action(Some("Bite"), None, Some("Melee Weapon Attack: +5 to hit")),
        action(Some("Roar"), None, None),
        action(None, None, Some("It also flies.")),
    ];
    let (placed, rows) = draw_actions(&actions, 20, 2).expect("a layout");
    assert_eq!(
        shown(&placed),
        vec![
            (2, 0, "Bite. Melee Weapon ", false),
            (3, 0, "Attack: +5 to hit", false),
            (2, 0, "Bite. ", true),
            (6, 0, "It also flies.", false),
            (6, 0, "", true),
        ]
    );
    assert_eq!(rows, 6);
}

#[test]
fn no_actions_take_no_rows() {
    let (placed, rows) = draw_actions(&Vec::new(), 20, -5).expect("a layout");
    assert!(placed.is_empty());
    assert_eq!(rows, 0);
}

#[test]
fn actions_that_cannot_be_laid_out_have_no_layout() {
    let actions = vec![
        action(Some("Bite"), None, None),
        action(Some("Claw"), None, Some("Slash")),
    ];
    assert!(draw_actions(&actions, 0, 0).is_none());
    assert!(draw_actions(&actions, 20, i32::MAX).is_none());
    assert!(draw_actions(&actions, 20, i32::MAX - 3).is_some());
}

#[test]
fn plain_text_can_always_be_broken() {
    let lines = [
        "",
        "a",
        "abcdefghijklmnopqrstuvwxyz",
        "Each creature in a 20-foot-radius sphere must make a saving throw.",
        "  leading and trailing  ",
        "tabs\tand\nnewlines\r\n",
        "hyphen-ated words/with:punctuation (and) [brackets] 1,000.50",
    ];
    for line in lines {
        for width in 1..=line.len() + 2 {
            let pieces = break_at(line, width)
                .unwrap_or_else(|| panic!("{:?} at {} has no pieces", line, width));
            assert_eq!(pieces.concat(), line);
            for piece in &pieces {
                assert!(piece.len() <= width);
            }
        }
    }
}

#[test]
fn the_cut_is_the_last_break_before_the_width() {
    let line = "the quick brown fox jumps over the lazy dog";
    let breaks = [4, 10, 16, 20, 26, 31, 35, 40, 43];
    for width in 1..50 {
        let idx = get_break_idx(line, width);
        if line.len() < width {
            assert_eq!(idx, line.len());
        } else {
            match breaks.iter().filter(|b| **b < width).last() {
                Some(last) => assert_eq!(idx, *last),
                None => assert_eq!(idx, width),
            }
        }
    }
}
