use fuzzy5e::db::{connection_url, DATABASE_NAME};
use fuzzy5e::model::{order_by_ids, split_id, Color, Kind, Model};
use fuzzy5e::screen::{
    input_line, key_to_action, match_line, needs_refresh, Action, Key, Layout, Outcome, Query,
    Screen5e, Scroll, TermEvent,
};
use fuzzy5e::stats::{calc_modifier, format_stat};

#[test]
fn keys_ask_for_actions() {
    let key = |k| key_to_action(TermEvent::Key(k));
    assert_eq!(key_to_action(TermEvent::Resize), Some(Action::Resize));
    assert_eq!(key_to_action(TermEvent::Other), None);
    assert_eq!(key(Key::Esc), Some(Action::Quit));
    for c in ['c', 'd', 'q'] {
        assert_eq!(key(Key::Ctrl(c)), Some(Action::Quit));
    }
    assert_eq!(key(Key::Ctrl('w')), Some(Action::DeleteWord));
    assert_eq!(key(Key::Ctrl('n')), Some(Action::SelectNext));
    assert_eq!(key(Key::Ctrl('p')), Some(Action::SelectPrevious));
    assert_eq!(key(Key::Ctrl('x')), None);
    assert_eq!(key(Key::Backspace), Some(Action::Backspace));
    assert_eq!(key(Key::Char('/')), Some(Action::SetLayout(Layout::Querying)));
    assert_eq!(key(Key::Char('a')), Some(Action::AddChar('a')));
    assert_eq!(key(Key::Char(' ')), Some(Action::AddChar(' ')));
    assert_eq!(key(Key::Enter), Some(Action::SetLayout(Layout::Selected)));
    assert_eq!(key(Key::PageDown), Some(Action::ScrollDown(10)));
    assert_eq!(key(Key::PageUp), Some(Action::ScrollUp(10)));
    assert_eq!(key(Key::Down), Some(Action::ScrollDown(1)));
    assert_eq!(key(Key::Up), Some(Action::ScrollUp(1)));
    assert_eq!(key(Key::Other), None);
}

fn typed(text: &str) -> Query {
    let mut q = Query::new();
    for ch in text.chars() {
        q.push(ch);
    }
    q
}

#[test]
fn a_query_is_typed_and_untyped() {
    let mut q = Query::new();
    assert!(q.is_empty());
    q.backspace();
    assert!(q.is_empty());
    q.push('f');
    q.push('i');
    assert_eq!(q.to_string(), "fi");
    q.backspace();
    assert_eq!(q.to_string(), "f");
    assert!(!q.is_empty());
    assert_eq!(q.clone().to_string(), "f");
}

#[test]
fn deleting_a_word_keeps_the_space_before_it() {
    for (before, after) in [
        ("", ""),
        ("fire", ""),
        ("fire ball", "fire "),
        ("fire ", ""),
        ("fire  ", "fire "),
        ("a b c", "a b "),
        (" ", ""),
        ("  ", " "),
        ("fire ball ", "fire "),
    ] {
        let mut q = typed(before);
        q.delete_word();
        assert_eq!(q.to_string(), after, "from {:?}", before);
    }
}

#[test]
fn the_cursor_stands_behind_the_query() {
    assert_eq!(Query::new().cursor_column(), 2);
    assert_eq!(typed("fire").cursor_column(), 6);
    assert_eq!(typed("é").cursor_column(), 4);
}

#[test]
fn the_input_line_invites_or_shows_the_query() {
    assert_eq!(input_line(&Query::new()), "? Begin typing...");
    assert_eq!(input_line(&typed("fire")), "? fire");
}

#[test]
fn the_selected_match_is_marked() {
    assert_eq!(match_line("Fireball", true), "> Fireball");
    assert_eq!(match_line("Fireball", false), "  Fireball");
}

#[test]
fn matches_are_looked_up_for_a_new_query_only() {
    assert!(needs_refresh("fire", ""));
    assert!(needs_refresh("fire", "fir"));
    assert!(!needs_refresh("fire", "fire"));
    assert!(!needs_refresh("", "fire"));
    assert!(!needs_refresh("", ""));
}

#[test]
fn the_selection_stays_within_the_matches() {
    let mut s = Screen5e::new();
    assert_eq!((s.selected, s.scroll, s.layout), (0, 0, Layout::Querying));
    assert!(!s.select_next(0));
    assert!(!s.select_next(1));
    assert!(!s.select_prev());
    s.scroll(Scroll::Down(4));
    assert!(s.select_next(3));
    assert_eq!((s.selected, s.scroll), (1, 0));
    assert!(s.select_next(3));
    assert!(!s.select_next(3));
    assert_eq!(s.selected, 2);
    s.scroll(Scroll::Down(4));
    assert!(s.select_prev());
    assert_eq!((s.selected, s.scroll), (1, 0));
}

#[test]
fn scrolling_stops_at_the_top() {
    let mut s = Screen5e::new();
    s.scroll(Scroll::Up(1));
    assert_eq!(s.scroll, 0);
    s.scroll(Scroll::Down(10));
    s.scroll(Scroll::Down(1));
    assert_eq!(s.scroll, 11);
    s.scroll(Scroll::Up(10));
    assert_eq!(s.scroll, 1);
    s.scroll(Scroll::Up(10));
    assert_eq!(s.scroll, 0);
    s.scroll(Scroll::Down(usize::MAX));
    s.scroll(Scroll::Down(1));
    assert_eq!(s.scroll, usize::MAX);
}

#[test]
fn typing_changes_the_query_and_selects_the_first_match() {
    let mut s = Screen5e::new();
    let mut q = typed("fir");
    s.set_selected(2);
    assert_eq!(s.handle(&mut q, Action::AddChar('e'), 5), Outcome::Redraw);
    assert_eq!(q.to_string(), "fire");
    assert_eq!(s.selected, 0);
    s.set_selected(2);
    assert_eq!(s.handle(&mut q, Action::Backspace, 5), Outcome::Redraw);
    assert_eq!(q.to_string(), "fir");
    assert_eq!(s.selected, 0);
    s.set_selected(2);
    assert_eq!(s.handle(&mut q, Action::DeleteWord, 5), Outcome::Redraw);
    assert_eq!(q.to_string(), "");
    assert_eq!(s.selected, 2);
}

#[test]
fn a_shown_entry_keeps_query_and_selection_out_of_reach() {
    let mut s = Screen5e::new();
    let mut q = typed("fire");
    s.set_selected(1);
    assert_eq!(
        s.handle(&mut q, Action::SetLayout(Layout::Selected), 3),
        Outcome::Redraw
    );
    for action in [
        Action::AddChar('x'),
        Action::Backspace,
        Action::DeleteWord,
        Action::SelectNext,
        Action::SelectPrevious,
    ] {
        assert_eq!(s.handle(&mut q, action, 3), Outcome::Ignored);
    }
    assert_eq!(q.to_string(), "fire");
    assert_eq!((s.selected, s.layout), (1, Layout::Selected));
    assert_eq!(s.handle(&mut q, Action::ScrollDown(10), 3), Outcome::Redraw);
    assert_eq!(s.scroll, 10);
    assert_eq!(s.handle(&mut q, Action::ScrollUp(1), 3), Outcome::Redraw);
    assert_eq!(s.scroll, 9);
    assert_eq!(s.handle(&mut q, Action::Resize, 3), Outcome::Redraw);
}

#[test]
fn quitting_leaves_the_shown_entry_first() {
    let mut s = Screen5e::new();
    let mut q = Query::new();
    s.set_layout(Layout::Selected);
    assert_eq!(s.handle(&mut q, Action::Quit, 0), Outcome::Redraw);
    assert_eq!(s.layout, Layout::Querying);
    assert_eq!(s.handle(&mut q, Action::Quit, 0), Outcome::Exit);
    assert_eq!(s.layout, Layout::Querying);
}

#[test]
fn selecting_redraws_only_when_the_selection_moves() {
    let mut s = Screen5e::new();
    let mut q = Query::new();
    assert_eq!(s.handle(&mut q, Action::SelectPrevious, 2), Outcome::Ignored);
    assert_eq!(s.handle(&mut q, Action::SelectNext, 2), Outcome::Redraw);
    assert_eq!(s.handle(&mut q, Action::SelectNext, 2), Outcome::Ignored);
    assert_eq!(s.handle(&mut q, Action::SelectPrevious, 2), Outcome::Redraw);
    assert_eq!(s.selected, 0);
    s.set_layout(Layout::Selected);
    s.cleanup();
    assert_eq!(s.layout, Layout::Querying);
}

#[test]
fn modifiers_round_towards_zero() {
    for (score, modifier) in [
        (10, 0),
        (11, 0),
        (12, 1),
        (9, 0),
        (8, -1),
        (7, -1),
        (3, -3),
        (1, -4),
        (0, -5),
        (30, 10),
        (-1, -5),
        (i32::MAX, 1073741818),
        (i32::MIN + 10, -1073741824),
    ] {
        assert_eq!(calc_modifier(score), modifier, "for {}", score);
    }
}

#[test]
fn stats_fill_a_cell_of_nine() {
    assert_eq!(format_stat(8), Some(String::from("  8(-1)  ")));
    assert_eq!(format_stat(9), Some(String::from("  9(+0)  ")));
    assert_eq!(format_stat(0), Some(String::from("  0(-5)  ")));
    assert_eq!(format_stat(14), Some(String::from("  14(+2) ")));
    assert_eq!(format_stat(-5), Some(String::from("  -5(-7) ")));
    assert_eq!(format_stat(30), Some(String::from(" 30(+10) ")));
    assert_eq!(format_stat(99), Some(String::from(" 99(+44) ")));
}

#[test]
fn stats_that_do_not_fit_have_no_cell() {
    assert_eq!(format_stat(100), None);
    assert_eq!(format_stat(-10), None);
    assert_eq!(format_stat(-99), None);
    assert_eq!(format_stat(-1000), None);
    assert_eq!(format_stat(-1001), None);
    assert_eq!(format_stat(i32::MAX), None);
    assert_eq!(format_stat(i32::MIN), None);
}

fn spell() -> Model {
    Model {
        kind: Kind::Spell,
        id: String::from("5f0c"),
        name: String::from("Fireball"),
        desc: vec![String::from("A bright streak"), String::from("The fire spreads")],
    }
}

fn quad(c: &str, f: &str, id: &str, t: &str) -> (String, String, String, String) {
    (String::from(c), String::from(f), String::from(id), String::from(t))
}

#[test]
fn kinds_have_their_collections() {
    let names: Vec<&str> = [
        Kind::Spell,
        Kind::Class,
        Kind::Monster,
        Kind::Condition,
        Kind::MagicSchool,
        Kind::Equipment,
        Kind::Feature,
    ]
    .iter()
    .map(|k| k.collection())
    .collect();
    assert_eq!(
        names,
        vec![
            "spells",
            "classes",
            "monsters",
            "conditions",
            "magic-schools",
            "equipment",
            "features"
        ]
    );
}

#[test]
fn an_entry_is_known_by_collection_and_identifier() {
    assert_eq!(spell().id(), "spells:5f0c");
    let school = Model {
        kind: Kind::MagicSchool,
        id: String::new(),
        name: String::new(),
        desc: Vec::new(),
    };
    assert_eq!(school.id(), "magic-schools:");
}

#[test]
fn the_texts_of_an_entry_are_indexed_in_its_collection() {
    assert_eq!(
        spell().own_tuples(),
        vec![
            quad("spells", "name", "5f0c", "Fireball"),
            quad("spells", "desc", "5f0c", "A bright streak"),
            quad("spells", "desc", "5f0c", "The fire spreads"),
        ]
    );
    let monster = Model { kind: Kind::Monster, ..spell() };
    assert_eq!(
        monster.own_tuples(),
        vec![
            quad("monsters", "name", "5f0c", "Fireball"),
            quad("monsters", "type", "5f0c", "Fireball"),
        ]
    );
    let class = Model { kind: Kind::Class, ..spell() };
    assert_eq!(
        class.own_tuples(),
        vec![quad("classes", "name", "5f0c", "Fireball")]
    );
    let bare = Model { kind: Kind::Equipment, desc: Vec::new(), ..spell() };
    assert_eq!(
        bare.own_tuples(),
        vec![quad("equipment", "name", "5f0c", "Fireball")]
    );
}

#[test]
fn the_texts_of_an_entry_are_indexed_among_all_entries() {
    assert_eq!(
        spell().tuples(),
        vec![
            quad("all", "name", "spells:5f0c", "Fireball"),
            quad("all", "desc", "spells:5f0c", "A bright streak"),
            quad("all", "desc", "spells:5f0c", "The fire spreads"),
        ]
    );
    let monster = Model { kind: Kind::Monster, ..spell() };
    assert_eq!(
        monster.tuples(),
        vec![
            quad("all", "name", "monsters:5f0c", "Fireball"),
            quad("all", "type", "monsters:5f0c", "Fireball"),
        ]
    );
}

#[test]
fn entries_are_listed_behind_the_sign_of_their_kind() {
    assert_eq!(
        spell().display_name(),
        (String::from("\u{1f52e} Fireball"), Color::Magenta)
    );
    let shown = |kind| Model { kind, ..spell() }.display_name();
    assert_eq!(shown(Kind::Condition), (String::from("\u{1f4a2} Fireball"), Color::Default));
    assert_eq!(shown(Kind::Class), (String::from("\u{1f464} Fireball"), Color::Blue));
    assert_eq!(shown(Kind::Monster), (String::from("\u{1f479} Fireball"), Color::Red));
    assert_eq!(shown(Kind::MagicSchool), (String::from(" Fireball"), Color::Green));
    assert_eq!(shown(Kind::Equipment), (String::from("\u{1f3f9} Fireball"), Color::LightYellow));
    assert_eq!(shown(Kind::Feature), (String::from("\u{1f4a1} Fireball"), Color::LightGreen));
}

#[test]
fn an_identifier_is_taken_apart_at_its_colons() {
    assert_eq!(
        split_id("spells:5f0c"),
        Some((String::from("spells"), String::from("5f0c")))
    );
    assert_eq!(
        split_id("spells:5f0c:x"),
        Some((String::from("spells"), String::from("5f0c")))
    );
    assert_eq!(split_id(":"), Some((String::new(), String::new())));
    assert_eq!(split_id("spells"), None);
    assert_eq!(split_id(""), None);
}

#[test]
fn what_was_found_is_put_into_the_order_of_the_index() {
    let ids = vec![
        String::from("spells:2"),
        String::from("monsters:9"),
        String::from("spells:1"),
        String::from("spells:2"),
    ];
    let found = vec![
        String::from("spells:1"),
        String::from("spells:2"),
        String::from("classes:4"),
        String::from("spells:2"),
    ];
    assert_eq!(order_by_ids(&ids, &found), vec![3, 0, 3]);
    assert_eq!(order_by_ids(&ids, &Vec::new()), Vec::<usize>::new());
    assert_eq!(order_by_ids(&Vec::new(), &found), Vec::<usize>::new());
}

#[test]
fn the_document_store_is_addressed_by_a_connection_string() {
    assert_eq!(DATABASE_NAME, "5e-database");
    assert_eq!(
        connection_url("localhost:27017"),
        "mongodb://localhost:27017/?connectTimeoutMS=2000&serverSelectionTimeoutMS=2000"
    );
    assert_eq!(
        connection_url(""),
        "mongodb:///?connectTimeoutMS=2000&serverSelectionTimeoutMS=2000"
    );
}

#[test]
fn an_identifier_made_of_parts_is_taken_apart_into_them() {
    for kind in [
        Kind::Spell,
        Kind::Class,
        Kind::Monster,
        Kind::Condition,
        Kind::MagicSchool,
        Kind::Equipment,
        Kind::Feature,
    ] {
        let entry = Model { kind, ..spell() };
        assert_eq!(
            split_id(&entry.id()),
            Some((String::from(kind.collection()), String::from("5f0c")))
        );
    }
}
