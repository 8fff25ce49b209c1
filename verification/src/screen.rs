//! What the screen shows and how it answers the keyboard: the query that is
//! being typed, which match is selected, how far the selected entry is
//! scrolled, and which of the two layouts is up.

use vstd::prelude::*;
use vstd::string::*;

verus! {

/// How the screen is laid out.
#[derive(Clone, Copy, Debug, PartialEq, Eq, Structural)]
pub enum Layout {
    /// The input line and the matches are shown beside the selected entry.
    Querying,
    /// Only the selected entry is shown.
    Selected,
}

/// What a key asks for.
#[derive(Clone, Copy, Debug, PartialEq, Eq, Structural)]
pub enum Action {
    Quit,
    Backspace,
    DeleteWord,
    AddChar(char),
    SelectPrevious,
    SelectNext,
    SetLayout(Layout),
    ScrollUp(usize),
    ScrollDown(usize),
    Resize,
}

/// A direction and a number of rows.
#[derive(Clone, Copy, Debug, PartialEq, Eq, Structural)]
pub enum Scroll {
    Up(usize),
    Down(usize),
}

/// The keys that the screen knows of.
#[derive(Clone, Copy, Debug, PartialEq, Eq, Structural)]
pub enum Key {
    Esc,
    Ctrl(char),
    Backspace,
    Char(char),
    Enter,
    PageDown,
    PageUp,
    Down,
    Up,
    /// Any other key.
    Other,
}

/// What the terminal reports.
#[derive(Clone, Copy, Debug, PartialEq, Eq, Structural)]
pub enum TermEvent {
    /// The terminal has a new size.
    Resize,
    /// A key was pressed.
    Key(Key),
    /// Anything else.
    Other,
}

/// What an event of the terminal asks for, if anything.
pub open spec fn action_of(ev: TermEvent) -> Option<Action> {
    match ev {
        TermEvent::Resize => Some(Action::Resize),
        TermEvent::Other => None,
        TermEvent::Key(key) => match key {
            Key::Esc => Some(Action::Quit),
            Key::Ctrl(c) => if c == 'c' || c == 'd' || c == 'q' {
                Some(Action::Quit)
            } else if c == 'w' {
                Some(Action::DeleteWord)
            } else if c == 'n' {
                Some(Action::SelectNext)
            } else if c == 'p' {
                Some(Action::SelectPrevious)
            } else {
                None
            },
            Key::Backspace => Some(Action::Backspace),
            Key::Char(c) => if c == '/' {
                Some(Action::SetLayout(Layout::Querying))
            } else {
                Some(Action::AddChar(c))
            },
            Key::Enter => Some(Action::SetLayout(Layout::Selected)),
            Key::PageDown => Some(Action::ScrollDown(10)),
            Key::PageUp => Some(Action::ScrollUp(10)),
            Key::Down => Some(Action::ScrollDown(1)),
            Key::Up => Some(Action::ScrollUp(1)),
            Key::Other => None,
        },
    }
}

/// Reads an event of the terminal as an action.
pub fn key_to_action(ev: TermEvent) -> (action: Option<Action>)
    ensures
        action == action_of(ev),
{
    match ev {
        TermEvent::Resize => Some(Action::Resize),
        TermEvent::Other => None,
        TermEvent::Key(key) => match key {
            Key::Esc => Some(Action::Quit),
            Key::Ctrl(c) => {
                if c == 'c' || c == 'd' || c == 'q' {
                    Some(Action::Quit)
                } else if c == 'w' {
                    Some(Action::DeleteWord)
                } else if c == 'n' {
                    Some(Action::SelectNext)
                } else if c == 'p' {
                    Some(Action::SelectPrevious)
                } else {
                    None
                }
            },
            Key::Backspace => Some(Action::Backspace),
            Key::Char(c) => {
                if c == '/' {
                    Some(Action::SetLayout(Layout::Querying))
                } else {
                    Some(Action::AddChar(c))
                }
            },
            Key::Enter => Some(Action::SetLayout(Layout::Selected)),
            Key::PageDown => Some(Action::ScrollDown(10)),
            Key::PageUp => Some(Action::ScrollUp(10)),
            Key::Down => Some(Action::ScrollDown(1)),
            Key::Up => Some(Action::ScrollUp(1)),
            Key::Other => None,
        },
    }
}

/// `text` without the characters after its last space; without anything if
/// it has no space.
pub open spec fn up_to_last_space(text: Seq<char>) -> Seq<char>
    decreases text.len(),
{
    if text.len() == 0 || text.last() == ' ' {
        text
    } else {
        up_to_last_space(text.drop_last())
    }
}

/// `text` without its last word: the last character goes whatever it is,
/// and with it the characters before it back to the nearest space, which
/// stays.
pub open spec fn without_last_word(text: Seq<char>) -> Seq<char> {
    if text.len() == 0 {
        text
    } else {
        up_to_last_space(text.drop_last())
    }
}

/// The query that is being typed.
#[derive(Debug)]
pub struct Query {
    inner: String,
}

impl View for Query {
    type V = Seq<char>;

    closed spec fn view(&self) -> Seq<char> {
        self.inner@
    }
}

impl Clone for Query {
    fn clone(&self) -> (q: Self)
        ensures
            q@ == self@,
    {
        Query { inner: self.inner.clone() }
    }
}

impl Query {
    /// An empty query.
    pub fn new() -> (q: Query)
        ensures
            q@ == Seq::<char>::empty(),
    {
        Query { inner: String::new() }
    }

    /// Whether nothing has been typed.
    pub fn is_empty(&self) -> (empty: bool)
        ensures
            empty == (self@.len() == 0),
    {
        self.inner.as_str().is_empty()
    }

    /// Adds a character at the end.
    pub fn push(&mut self, ch: char)
        ensures
            final(self)@ == old(self)@.push(ch),
    {
        self.inner.push(ch);
    }

    /// Takes the last character away, if there is one.
    pub fn backspace(&mut self)
        ensures
            final(self)@ == if old(self)@.len() == 0 {
                old(self)@
            } else {
                old(self)@.drop_last()
            },
    {
        let _ = self.inner.pop();
    }

    /// Takes the last word away.
    pub fn delete_word(&mut self)
        ensures
            final(self)@ == without_last_word(old(self)@),
    {
        let mut didpop = false;
        while !self.is_empty()
            invariant
                didpop || self@ == old(self)@,
                didpop ==> up_to_last_space(self@) == without_last_word(old(self)@),
            ensures
                self@ == without_last_word(old(self)@),
            decreases self@.len(),
        {
            let ghost before = self@;
            match self.inner.pop() {
                Some(ch) => {
                    if ch == ' ' && didpop {
                        self.inner.push(' ');
                        assert(self@ =~= before);
                        break;
                    }
                },
                None => {},
            }
            didpop = true;
        }
    }

    /// The column of the cursor in the input line: behind the question
    /// mark, the space and the bytes of the query, as far as numbers go.
    pub fn cursor_column(&self) -> (col: usize)
        ensures
            col == if vstd::utf8::encode_utf8(self@).len() + 2 > usize::MAX {
                usize::MAX as int
            } else {
                vstd::utf8::encode_utf8(self@).len() as int + 2
            },
    {
        let len = self.inner.as_str().as_bytes().len();
        if len > usize::MAX - 2 {
            usize::MAX
        } else {
            len + 2
        }
    }

    /// The query as text.
    pub fn to_string(&self) -> (s: String)
        ensures
            s@ == self@,
    {
        self.inner.clone()
    }
}

/// What the screen shows.
#[derive(Clone, Copy, Debug, PartialEq, Eq, Structural)]
pub struct Screen5e {
    /// The position of the selected match.
    pub selected: usize,
    /// How many rows the selected entry is scrolled down.
    pub scroll: usize,
    pub layout: Layout,
}

/// What handling an action came to.
#[derive(Clone, Copy, Debug, PartialEq, Eq, Structural)]
pub enum Outcome {
    /// Nothing has changed.
    Ignored,
    /// The screen is to be drawn again.
    Redraw,
    /// The screen is to be drawn again, and the program ends.
    Exit,
}

/// `rows` rows further down, as far as numbers go.
pub open spec fn scrolled_down(scroll: usize, rows: usize) -> usize {
    if scroll + rows > usize::MAX {
        usize::MAX
    } else {
        (scroll + rows) as usize
    }
}

/// `rows` rows further up, as far as the top.
pub open spec fn scrolled_up(scroll: usize, rows: usize) -> usize {
    if scroll < rows {
        0
    } else {
        (scroll - rows) as usize
    }
}

impl Screen5e {
    /// The screen after the selection has moved to the next of `matches`
    /// matches: at the last match, and without matches, it stays as it is;
    /// else the next entry is shown from its top.
    pub open spec fn next_selected(self, matches: usize) -> Screen5e {
        if matches > 0 && self.selected < matches - 1 {
            Screen5e { selected: (self.selected + 1) as usize, scroll: 0, layout: self.layout }
        } else {
            self
        }
    }

    /// The screen after the selection has moved to the match before: at the
    /// first match it stays as it is; else the entry before is shown from
    /// its top.
    pub open spec fn prev_selected(self) -> Screen5e {
        if self.selected > 0 {
            Screen5e { selected: (self.selected - 1) as usize, scroll: 0, layout: self.layout }
        } else {
            self
        }
    }

    /// The screen after it has been scrolled.
    pub open spec fn scrolled(self, scroll: Scroll) -> Screen5e {
        Screen5e {
            selected: self.selected,
            scroll: match scroll {
                Scroll::Up(rows) => scrolled_up(self.scroll, rows),
                Scroll::Down(rows) => scrolled_down(self.scroll, rows),
            },
            layout: self.layout,
        }
    }

    /// The screen at the start: the first match selected and shown from its
    /// top, beside the input line.
    pub fn new() -> (screen: Screen5e)
        ensures
            screen == (Screen5e { selected: 0, scroll: 0, layout: Layout::Querying }),
    {
        Screen5e { selected: 0, scroll: 0, layout: Layout::Querying }
    }

    /// Leaves the screen as the program found it: with the input line.
    pub fn cleanup(&mut self)
        ensures
            *final(self) == (Screen5e { layout: Layout::Querying, ..*old(self) }),
    {
        self.set_layout(Layout::Querying);
    }

    /// Selects the match at `selected`.
    pub fn set_selected(&mut self, selected: usize)
        ensures
            *final(self) == (Screen5e { selected, ..*old(self) }),
    {
        self.selected = selected;
    }

    /// Changes the layout.
    pub fn set_layout(&mut self, layout: Layout)
        ensures
            *final(self) == (Screen5e { layout, ..*old(self) }),
    {
        self.layout = layout;
    }

    /// Moves the selection to the next of `matches` matches, and says
    /// whether it has moved.
    pub fn select_next(&mut self, matches: usize) -> (moved: bool)
        ensures
            *final(self) == old(self).next_selected(matches),
            moved == (matches > 0 && old(self).selected < matches - 1),
    {
        if matches > 0 && self.selected < matches - 1 {
            self.selected += 1;
            self.scroll = 0;
            true
        } else {
            false
        }
    }

    /// Moves the selection to the match before, and says whether it has
    /// moved.
    pub fn select_prev(&mut self) -> (moved: bool)
        ensures
            *final(self) == old(self).prev_selected(),
            moved == (old(self).selected > 0),
    {
        if self.selected > 0 {
            self.selected -= 1;
            self.scroll = 0;
            true
        } else {
            false
        }
    }

    /// Scrolls the selected entry.
    pub fn scroll(&mut self, scroll: Scroll)
        ensures
            *final(self) == old(self).scrolled(scroll),
    {
        match scroll {
            Scroll::Up(rows) => {
                if self.scroll < rows {
                    self.scroll = 0;
                } else {
                    self.scroll -= rows;
                }
            },
            Scroll::Down(rows) => {
                if rows > usize::MAX - self.scroll {
                    self.scroll = usize::MAX;
                } else {
                    self.scroll += rows;
                }
            },
        }
    }

    /// What `action` makes of the screen and of the query while `matches`
    /// matches are listed. While only the selected entry is shown, the
    /// query and the selection are out of reach: typing, deleting and
    /// selecting do nothing, and quitting leads back to the input line.
    pub open spec fn handled(self, query: Seq<char>, action: Action, matches: usize) -> (
        Screen5e,
        Seq<char>,
        Outcome,
    ) {
        let hidden = self.layout == Layout::Selected;
        match action {
            Action::Quit => (
                Screen5e { layout: Layout::Querying, ..self },
                query,
                if hidden {
                    Outcome::Redraw
                } else {
                    Outcome::Exit
                },
            ),
            Action::Backspace => if hidden {
                (self, query, Outcome::Ignored)
            } else {
                (
                    Screen5e { selected: 0, ..self },
                    if query.len() == 0 {
                        query
                    } else {
                        query.drop_last()
                    },
                    Outcome::Redraw,
                )
            },
            Action::DeleteWord => if hidden {
                (self, query, Outcome::Ignored)
            } else {
                (self, without_last_word(query), Outcome::Redraw)
            },
            Action::AddChar(ch) => if hidden {
                (self, query, Outcome::Ignored)
            } else {
                (Screen5e { selected: 0, ..self }, query.push(ch), Outcome::Redraw)
            },
            Action::SelectNext => if hidden || self.next_selected(matches) == self {
                (self, query, Outcome::Ignored)
            } else {
                (self.next_selected(matches), query, Outcome::Redraw)
            },
            Action::SelectPrevious => if hidden || self.prev_selected() == self {
                (self, query, Outcome::Ignored)
            } else {
                (self.prev_selected(), query, Outcome::Redraw)
            },
            Action::SetLayout(layout) => (Screen5e { layout, ..self }, query, Outcome::Redraw),
            Action::ScrollUp(rows) => (self.scrolled(Scroll::Up(rows)), query, Outcome::Redraw),
            Action::ScrollDown(rows) => (
                self.scrolled(Scroll::Down(rows)),
                query,
                Outcome::Redraw,
            ),
            Action::Resize => (self, query, Outcome::Redraw),
        }
    }

    /// Handles one action.
    pub fn handle(&mut self, query: &mut Query, action: Action, matches: usize) -> (outcome:
        Outcome)
        ensures
            (*final(self), final(query)@, outcome) == old(self).handled(
                old(query)@,
                action,
                matches,
            ),
    {
        let hidden = match self.layout {
            Layout::Selected => true,
            Layout::Querying => false,
        };
        match action {
            Action::Quit => {
                if hidden {
                    self.set_layout(Layout::Querying);
                    Outcome::Redraw
                } else {
                    self.cleanup();
                    Outcome::Exit
                }
            },
            Action::Backspace => {
                if hidden {
                    Outcome::Ignored
                } else {
                    query.backspace();
                    self.set_selected(0);
                    Outcome::Redraw
                }
            },
            Action::DeleteWord => {
                if hidden {
                    Outcome::Ignored
                } else {
                    query.delete_word();
                    Outcome::Redraw
                }
            },
            Action::AddChar(ch) => {
                if hidden {
                    Outcome::Ignored
                } else {
                    query.push(ch);
                    self.set_selected(0);
                    Outcome::Redraw
                }
            },
            Action::SelectNext => {
                if !hidden && self.select_next(matches) {
                    Outcome::Redraw
                } else {
                    Outcome::Ignored
                }
            },
            Action::SelectPrevious => {
                if !hidden && self.select_prev() {
                    Outcome::Redraw
                } else {
                    Outcome::Ignored
                }
            },
            Action::SetLayout(layout) => {
                self.set_layout(layout);
                Outcome::Redraw
            },
            Action::ScrollUp(rows) => {
                self.scroll(Scroll::Up(rows));
                Outcome::Redraw
            },
            Action::ScrollDown(rows) => {
                self.scroll(Scroll::Down(rows));
                Outcome::Redraw
            },
            Action::Resize => Outcome::Redraw,
        }
    }
}

/// Whether the selection of `screen` points at one of `matches` matches, or
/// at the first place of an empty list.
pub open spec fn selection_in_list(screen: Screen5e, matches: usize) -> bool {
    screen.selected < matches || (matches == 0 && screen.selected == 0)
}

/// Whatever is done, the selection stays in the list of matches, as long as
/// the list stays as it is.
pub proof fn lemma_selection_stays_in_list(
    screen: Screen5e,
    query: Seq<char>,
    action: Action,
    matches: usize,
)
    requires
        selection_in_list(screen, matches),
    ensures
        selection_in_list(screen.handled(query, action, matches).0, matches),
{
}

/// What the screen ignores it leaves alone: the screen and the query are as
/// they were.
pub proof fn lemma_ignored_changes_nothing(
    screen: Screen5e,
    query: Seq<char>,
    action: Action,
    matches: usize,
)
    requires
        screen.handled(query, action, matches).2 == Outcome::Ignored,
    ensures
        screen.handled(query, action, matches).0 == screen,
        screen.handled(query, action, matches).1 == query,
{
}

/// While only the selected entry is shown, no action changes the query.
pub proof fn lemma_shown_entry_guards_query(
    screen: Screen5e,
    query: Seq<char>,
    action: Action,
    matches: usize,
)
    requires
        screen.layout == Layout::Selected,
    ensures
        screen.handled(query, action, matches).1 == query,
{
}

/// Whether the matches are to be looked up again: when the query is not the
/// one that was looked up last, and is not empty.
pub fn needs_refresh(query: &str, last: &str) -> (refresh: bool)
    ensures
        refresh == (query@ != last@ && query@.len() > 0),
{
    !query.eq(last) && !query.is_empty()
}

/// The line of a match in the list of matches: its name behind a marker if
/// it is the selected one, behind two spaces if not.
pub fn match_line(name: &str, selected: bool) -> (line: String)
    ensures
        line@ == if selected {
            "> "@
        } else {
            "  "@
        } + name@,
{
    let mut line = if selected {
        String::from_str("> ")
    } else {
        String::from_str("  ")
    };
    line.append(name);
    line
}

/// The input line: the query behind a question mark, or an invitation to
/// type while there is no query.
pub fn input_line(query: &Query) -> (line: String)
    ensures
        line@ == if query@.len() == 0 {
            "? Begin typing..."@
        } else {
            "? "@ + query@
        },
{
    if query.is_empty() {
        String::from_str("? Begin typing...")
    } else {
        let mut line = String::from_str("? ");
        let text = query.to_string();
        line.append(text.as_str());
        line
    }
}

} // verus!
