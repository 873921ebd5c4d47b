//! The interactive GPU picker: a list with a cursor, and the state machine that
//! consumes one key at a time.
use crate::text::push_char;
use crate::xml::{filter_items, sort_by_id_desc, sorted_by_id_desc, spec_filter, XmlGpuEntry};
use vstd::prelude::*;

verus! {

/// Where the cursor goes when it moves down a list of `len` items: one step
/// further, back to the top past the last item; nowhere on an empty list.
pub open spec fn next_index(len: nat, selected: Option<usize>) -> Option<usize> {
    if len == 0 {
        None
    } else {
        match selected {
            None => Some(0usize),
            Some(i) => if i + 1 >= len {
                Some(0usize)
            } else {
                Some((i + 1) as usize)
            },
        }
    }
}

/// Where the cursor goes when it moves up a list of `len` items: one step back,
/// to the last item past the top; nowhere on an empty list.
pub open spec fn previous_index(len: nat, selected: Option<usize>) -> Option<usize> {
    if len == 0 {
        None
    } else {
        match selected {
            None => Some(0usize),
            Some(i) => if i == 0 {
                Some((len - 1) as usize)
            } else {
                Some((i - 1) as usize)
            },
        }
    }
}

/// A list of items with an optional cursor that always points into the list.
pub struct StatefulList<T> {
    items: Vec<T>,
    selected: Option<usize>,
}

impl<T> StatefulList<T> {
    #[verifier::type_invariant]
    spec fn cursor_in_bounds(self) -> bool {
        self.selected matches Some(i) ==> i < self.items.len()
    }

    /// The items, in display order.
    pub closed spec fn spec_items(self) -> Seq<T> {
        self.items@
    }

    /// The index the cursor is on, if any.
    pub closed spec fn spec_selected(self) -> Option<usize> {
        self.selected
    }

    /// A list of `items` with no cursor.
    pub fn with_items(items: Vec<T>) -> (r: StatefulList<T>)
        ensures
            r.spec_items() == items@,
            r.spec_selected() is None,
    {
        StatefulList { items, selected: None }
    }

    /// The items, in display order.
    pub fn items(&self) -> (r: &Vec<T>)
        ensures
            r@ == self.spec_items(),
    {
        &self.items
    }

    /// The index the cursor is on, if any.
    pub fn selected(&self) -> (r: Option<usize>)
        ensures
            r == self.spec_selected(),
            r matches Some(i) ==> i < self.spec_items().len(),
    {
        proof {
            use_type_invariant(self);
        }
        self.selected
    }

    /// Replaces the items; the cursor is cleared, since an index into the old
    /// items means nothing in the new ones.
    pub fn set_items(&mut self, items: Vec<T>)
        ensures
            final(self).spec_items() == items@,
            final(self).spec_selected() is None,
    {
        self.selected = None;
        self.items = items;
    }

    /// Moves the cursor down one item, wrapping to the first past the last.
    pub fn next(&mut self)
        ensures
            final(self).spec_items() == old(self).spec_items(),
            final(self).spec_selected() == next_index(
                old(self).spec_items().len(),
                old(self).spec_selected(),
            ),
    {
        proof {
            use_type_invariant(&*self);
        }
        let len = self.items.len();
        if len == 0 {
            self.selected = None;
        } else {
            let i: usize = match self.selected {
                Some(i) => if i >= len - 1 {
                    0
                } else {
                    i + 1
                },
                None => 0,
            };
            self.selected = Some(i);
        }
    }

    /// Moves the cursor up one item, wrapping to the last past the first.
    pub fn previous(&mut self)
        ensures
            final(self).spec_items() == old(self).spec_items(),
            final(self).spec_selected() == previous_index(
                old(self).spec_items().len(),
                old(self).spec_selected(),
            ),
    {
        proof {
            use_type_invariant(&*self);
        }
        let len = self.items.len();
        if len == 0 {
            self.selected = None;
        } else {
            let i: usize = match self.selected {
                Some(i) => if i == 0 {
                    len - 1
                } else {
                    i - 1
                },
                None => 0,
            };
            self.selected = Some(i);
        }
    }

    /// Clears the cursor.
    pub fn unselect(&mut self)
        ensures
            final(self).spec_items() == old(self).spec_items(),
            final(self).spec_selected() is None,
    {
        self.selected = None;
    }
}

/// What keys currently do.
#[derive(Clone, Copy, Debug, PartialEq, Eq, Structural)]
pub enum InputMode {
    /// Browsing: arrows move the cursor, `s` starts a search, `q` quits, Enter picks.
    Normal,
    /// Searching: typed characters edit the query; Enter or Esc go back to browsing.
    Search,
}

/// A key press, as far as the picker tells keys apart.
#[derive(Clone, Copy, Debug, PartialEq, Eq, Structural)]
pub enum Key {
    Char(char),
    Enter,
    Esc,
    Backspace,
    Up,
    Down,
    Left,
    /// Any key the picker has no use for.
    Other,
}

/// What the picker's loop does after a key.
#[derive(Clone, Debug)]
pub enum Outcome {
    /// Keep running.
    Continue,
    /// The user picked this entry.
    Selected(XmlGpuEntry),
    /// The user quit without picking.
    Cancelled,
}

/// The picker's state, as contracts see it.
pub ghost struct AppView {
    /// Every catalog entry, highest device id first.
    pub all: Seq<XmlGpuEntry>,
    /// The entries on show.
    pub filtered: Seq<XmlGpuEntry>,
    /// The index of the entry under the cursor, if any.
    pub cursor: Option<usize>,
    pub mode: InputMode,
    pub query: Seq<char>,
}

/// The state after `key` in state `s`, and what the loop does next.
pub open spec fn spec_step(s: AppView, key: Key) -> (AppView, Outcome) {
    match s.mode {
        InputMode::Normal => match key {
            Key::Char(c) => if c == 'q' {
                (s, Outcome::Cancelled)
            } else if c == 's' {
                (
                    AppView {
                        filtered: Seq::empty(),
                        cursor: None,
                        mode: InputMode::Search,
                        query: Seq::empty(),
                        ..s
                    },
                    Outcome::Continue,
                )
            } else {
                (s, Outcome::Continue)
            },
            Key::Left => (AppView { cursor: None, ..s }, Outcome::Continue),
            Key::Down => (
                AppView { cursor: next_index(s.filtered.len(), s.cursor), ..s },
                Outcome::Continue,
            ),
            Key::Up => (
                AppView { cursor: previous_index(s.filtered.len(), s.cursor), ..s },
                Outcome::Continue,
            ),
            Key::Enter => match s.cursor {
                Some(i) => (s, Outcome::Selected(s.filtered[i as int])),
                None => (s, Outcome::Continue),
            },
            _ => (s, Outcome::Continue),
        },
        InputMode::Search => match key {
            Key::Enter | Key::Esc => (AppView { mode: InputMode::Normal, ..s }, Outcome::Continue),
            Key::Char(c) => (
                AppView {
                    filtered: spec_filter(s.all, s.query.push(c)),
                    cursor: None,
                    query: s.query.push(c),
                    ..s
                },
                Outcome::Continue,
            ),
            Key::Backspace => {
                let query = if s.query.len() > 0 {
                    s.query.drop_last()
                } else {
                    s.query
                };
                (
                    AppView { filtered: spec_filter(s.all, query), cursor: None, query, ..s },
                    Outcome::Continue,
                )
            },
            _ => (s, Outcome::Continue),
        },
    }
}

/// The state of the GPU picker.
pub struct App {
    all_items: Vec<XmlGpuEntry>,
    filtered_items: StatefulList<XmlGpuEntry>,
    input_mode: InputMode,
    query: String,
}

impl View for App {
    type V = AppView;

    closed spec fn view(&self) -> AppView {
        AppView {
            all: self.all_items@,
            filtered: self.filtered_items.spec_items(),
            cursor: self.filtered_items.spec_selected(),
            mode: self.input_mode,
            query: self.query@,
        }
    }
}

impl App {
    /// A picker over `items`, browsing the whole catalog with no cursor. The
    /// entries are ordered by device id, highest first.
    pub fn new(items: Vec<XmlGpuEntry>) -> (r: App)
        ensures
            sorted_by_id_desc(r@.all, items@),
            r@.filtered == r@.all,
            r@.cursor is None,
            r@.mode == InputMode::Normal,
            r@.query.len() == 0,
    {
        let mut items = items;
        sort_by_id_desc(&mut items);
        let shown = copy_entries(&items);
        App {
            all_items: items,
            filtered_items: StatefulList::with_items(shown),
            input_mode: InputMode::Normal,
            query: String::new(),
        }
    }

    /// Every catalog entry, highest device id first.
    pub fn all_items(&self) -> (r: &Vec<XmlGpuEntry>)
        ensures
            r@ == self@.all,
    {
        &self.all_items
    }

    /// The entries on show and the cursor.
    pub fn filtered_items(&self) -> (r: &StatefulList<XmlGpuEntry>)
        ensures
            r.spec_items() == self@.filtered,
            r.spec_selected() == self@.cursor,
    {
        &self.filtered_items
    }

    pub fn input_mode(&self) -> (r: InputMode)
        ensures
            r == self@.mode,
    {
        self.input_mode
    }

    pub fn query(&self) -> (r: &str)
        ensures
            r@ == self@.query,
    {
        self.query.as_str()
    }

    /// Shows the entries that match the current query, with no cursor.
    fn refilter(&mut self)
        ensures
            final(self)@ == (AppView {
                filtered: spec_filter(old(self)@.all, old(self)@.query),
                cursor: None,
                ..old(self)@
            }),
    {
        let shown = filter_items(&self.all_items, self.query.as_str());
        self.filtered_items.set_items(shown);
    }

    /// Consumes one key press.
    pub fn handle_key(&mut self, key: Key) -> (r: Outcome)
        ensures
            (final(self)@, r) == spec_step(old(self)@, key),
    {
        match self.input_mode {
            InputMode::Normal => match key {
                Key::Char(c) => {
                    if c == 'q' {
                        return Outcome::Cancelled;
                    } else if c == 's' {
                        self.input_mode = InputMode::Search;
                        self.query = String::new();
                        self.filtered_items.set_items(Vec::new());
                    }
                },
                Key::Left => self.filtered_items.unselect(),
                Key::Down => self.filtered_items.next(),
                Key::Up => self.filtered_items.previous(),
                Key::Enter => {
                    if let Some(i) = self.filtered_items.selected() {
                        return Outcome::Selected(self.filtered_items.items()[i].duplicate());
                    }
                },
                _ => {},
            },
            InputMode::Search => match key {
                Key::Enter | Key::Esc => {
                    self.input_mode = InputMode::Normal;
                },
                Key::Char(c) => {
                    push_char(&mut self.query, c);
                    self.refilter();
                },
                Key::Backspace => {
                    let n = self.query.as_str().unicode_len();
                    if n > 0 {
                        self.query = self.query.as_str().substring_char(0, n - 1).to_owned();
                    }
                    self.refilter();
                },
                _ => {},
            },
        }
        Outcome::Continue
    }
}

/// A copy of every entry.
fn copy_entries(items: &Vec<XmlGpuEntry>) -> (r: Vec<XmlGpuEntry>)
    ensures
        r@ == items@,
{
    let mut out: Vec<XmlGpuEntry> = Vec::new();
    let mut i: usize = 0;
    while i < items.len()
        invariant
            i <= items@.len(),
            out@ == items@.subrange(0, i as int),
        decreases items@.len() - i,
    {
        out.push(items[i].duplicate());
        assert(out@ =~= items@.subrange(0, i + 1));
        i = i + 1;
    }
    assert(items@.subrange(0, i as int) =~= items@);
    out
}

/// Wrap-around: on a non-empty list, moving down from the last index lands on
/// the first, and moving up from the first lands on the last.
pub proof fn lemma_wrap_around(len: nat)
    requires
        0 < len <= usize::MAX,
    ensures
        next_index(len, Some((len - 1) as usize)) == Some(0usize),
        previous_index(len, Some(0usize)) == Some((len - 1) as usize),
{
}

/// On an empty list, moving either way leaves the cursor unset.
pub proof fn lemma_empty_list_moves(selected: Option<usize>)
    ensures
        next_index(0, selected) is None,
        previous_index(0, selected) is None,
{
}

/// While searching, typing a character and erasing it again shows exactly the
/// entries the query showed before the character was typed.
pub proof fn lemma_type_then_erase(s: AppView, c: char)
    requires
        s.mode == InputMode::Search,
    ensures
        spec_step(spec_step(s, Key::Char(c)).0, Key::Backspace).0.filtered == spec_filter(
            s.all,
            s.query,
        ),
        spec_step(spec_step(s, Key::Char(c)).0, Key::Backspace).0.query == s.query,
{
    assert(s.query.push(c).drop_last() =~= s.query);
}

} // verus!
