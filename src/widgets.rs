use vstd::prelude::*;

use crate::commit::{push_char, CommitData, CommitModifications, EditableField};
use crate::validation::{datetime_format, format_date_for_edit, FULL_FORMAT};
use crate::state::{AppMode, VisualType};
use crate::validation::{is_space, is_space_char};

verus! {

/// The characters of a text, in order.
pub fn chars_of(s: &str) -> (r: Vec<char>)
    ensures
        r@ == s@,
{
    let n = s.unicode_len();
    let mut r: Vec<char> = Vec::new();
    let mut i: usize = 0;
    while i < n
        invariant
            n == s@.len(),
            i <= n,
            r@ == s@.subrange(0, i as int),
        decreases n - i,
    {
        r.push(s.get_char(i));
        i = i + 1;
        assert(r@ =~= s@.subrange(0, i as int));
    }
    assert(r@ =~= s@);
    r
}

/// The text made of the given characters.
pub fn string_of(v: &Vec<char>) -> (r: String)
    ensures
        r@ == v@,
{
    let mut r = String::new();
    let mut i: usize = 0;
    while i < v.len()
        invariant
            i <= v@.len(),
            r@ == v@.subrange(0, i as int),
        decreases v.len() - i,
    {
        push_char(&mut r, v[i]);
        i = i + 1;
        assert(r@ =~= v@.subrange(0, i as int));
    }
    assert(r@ =~= v@);
    r
}

/// Start of the run of white space that ends at `p`.
pub open spec fn skip_space_back(q: Seq<char>, p: int) -> int
    decreases p,
{
    if p > 0 && p <= q.len() && is_space_char(q[p - 1]) {
        skip_space_back(q, p - 1)
    } else {
        p
    }
}

/// Start of the run of non-space characters that ends at `p`.
pub open spec fn skip_word_back(q: Seq<char>, p: int) -> int
    decreases p,
{
    if p > 0 && p <= q.len() && !is_space_char(q[p - 1]) {
        skip_word_back(q, p - 1)
    } else {
        p
    }
}

/// End of the run of non-space characters that starts at `p`.
pub open spec fn skip_word_forward(q: Seq<char>, p: int) -> int
    decreases q.len() - p,
{
    if 0 <= p < q.len() && !is_space_char(q[p]) {
        skip_word_forward(q, p + 1)
    } else {
        p
    }
}

/// End of the run of white space that starts at `p`.
pub open spec fn skip_space_forward(q: Seq<char>, p: int) -> int
    decreases q.len() - p,
{
    if 0 <= p < q.len() && is_space_char(q[p]) {
        skip_space_forward(q, p + 1)
    } else {
        p
    }
}

/// The start of the word before position `p`.
pub open spec fn word_left(q: Seq<char>, p: int) -> int {
    skip_word_back(q, skip_space_back(q, p))
}

/// The start of the word after the one at position `p`.
pub open spec fn word_right(q: Seq<char>, p: int) -> int {
    skip_space_forward(q, skip_word_forward(q, p))
}

proof fn lemma_back_bounds(q: Seq<char>, p: int)
    requires
        0 <= p <= q.len(),
    ensures
        0 <= skip_space_back(q, p) <= p,
        0 <= skip_word_back(q, p) <= p,
        0 <= skip_word_back(q, skip_space_back(q, p)) <= p,
    decreases p,
{
    if p > 0 {
        lemma_back_bounds(q, p - 1);
    }
    let a = skip_space_back(q, p);
    if a < p {
        lemma_back_bounds(q, a);
    }
}

proof fn lemma_forward_bounds(q: Seq<char>, p: int)
    requires
        0 <= p <= q.len(),
    ensures
        p <= skip_word_forward(q, p) <= q.len(),
        p <= skip_space_forward(q, p) <= q.len(),
        p <= skip_space_forward(q, skip_word_forward(q, p)) <= q.len(),
    decreases q.len() - p,
{
    if p < q.len() {
        lemma_forward_bounds(q, p + 1);
    }
    let a = skip_word_forward(q, p);
    if a > p {
        lemma_forward_bounds(q, a);
    }
}

fn word_left_of(q: &Vec<char>, p: usize) -> (r: usize)
    requires
        p <= q@.len(),
    ensures
        r == word_left(q@, p as int),
        r <= p,
{
    let mut pos = p;
    while pos > 0 && is_space(q[pos - 1])
        invariant
            pos <= p <= q@.len(),
            skip_space_back(q@, p as int) == skip_space_back(q@, pos as int),
        decreases pos,
    {
        pos = pos - 1;
    }
    let ghost a = pos;
    while pos > 0 && !is_space(q[pos - 1])
        invariant
            pos <= a <= p <= q@.len(),
            a == skip_space_back(q@, p as int),
            skip_word_back(q@, a as int) == skip_word_back(q@, pos as int),
        decreases pos,
    {
        pos = pos - 1;
    }
    pos
}

fn word_right_of(q: &Vec<char>, p: usize) -> (r: usize)
    requires
        p <= q@.len(),
    ensures
        r == word_right(q@, p as int),
        p <= r <= q@.len(),
{
    let len = q.len();
    let mut pos = p;
    while pos < len && !is_space(q[pos])
        invariant
            len == q@.len(),
            p <= pos <= len,
            skip_word_forward(q@, p as int) == skip_word_forward(q@, pos as int),
        decreases len - pos,
    {
        pos = pos + 1;
    }
    let ghost a = pos;
    while pos < len && is_space(q[pos])
        invariant
            len == q@.len(),
            p <= a <= pos <= len,
            a == skip_word_forward(q@, p as int),
            skip_space_forward(q@, a as int) == skip_space_forward(q@, pos as int),
        decreases len - pos,
    {
        pos = pos + 1;
    }
    pos
}

/// `q` without the characters in `from..to`.
pub open spec fn cut(q: Seq<char>, from: int, to: int) -> Seq<char> {
    q.subrange(0, from) + q.subrange(to, q.len() as int)
}

fn cut_chars(q: &Vec<char>, from: usize, to: usize) -> (r: Vec<char>)
    requires
        from <= to <= q@.len(),
    ensures
        r@ == cut(q@, from as int, to as int),
{
    let mut r: Vec<char> = Vec::new();
    let mut i: usize = 0;
    while i < from
        invariant
            i <= from <= to <= q@.len(),
            r@ == q@.subrange(0, i as int),
        decreases from - i,
    {
        r.push(q[i]);
        i = i + 1;
        assert(r@ =~= q@.subrange(0, i as int));
    }
    let mut j: usize = to;
    while j < q.len()
        invariant
            from <= to <= j <= q@.len(),
            r@ == q@.subrange(0, from as int) + q@.subrange(to as int, j as int),
        decreases q@.len() - j,
    {
        r.push(q[j]);
        j = j + 1;
        assert(r@ =~= q@.subrange(0, from as int) + q@.subrange(to as int, j as int));
    }
    r
}

/// The text of the search bar with its cursor, a position between characters.
pub struct SearchState {
    pub query: String,
    pub cursor: usize,
}

impl SearchState {
    /// The cursor lies within the text.
    pub open spec fn wf(&self) -> bool {
        self.cursor <= self.query@.len()
    }

    pub fn new() -> (r: SearchState)
        ensures
            r.query@.len() == 0,
            r.cursor == 0,
            r.wf(),
    {
        SearchState { query: String::new(), cursor: 0 }
    }

    /// Starts from an existing query with the cursor at its end.
    pub fn from_query(query: &str) -> (r: SearchState)
        ensures
            r.query@ == query@,
            r.cursor == query@.len(),
            r.wf(),
    {
        SearchState { query: String::from_str(query), cursor: query.unicode_len() }
    }

    /// Inserts `c` at the cursor and moves past it.
    pub fn insert(&mut self, c: char)
        requires
            old(self).wf(),
        ensures
            final(self).query@ == old(self).query@.insert(old(self).cursor as int, c),
            final(self).cursor == old(self).cursor + 1,
            final(self).wf(),
    {
        let mut v = chars_of(self.query.as_str());
        v.insert(self.cursor, c);
        let n = v.len();
        assert(self.cursor < n);
        self.query = string_of(&v);
        self.cursor = self.cursor + 1;
    }

    /// Deletes the character before the cursor.
    pub fn backspace(&mut self)
        requires
            old(self).wf(),
        ensures
            old(self).cursor > 0 ==> final(self).query@ == old(self).query@.remove(
                old(self).cursor - 1,
            ) && final(self).cursor == old(self).cursor - 1,
            old(self).cursor == 0 ==> final(self).query@ == old(self).query@ && final(self).cursor == 0,
            final(self).wf(),
    {
        if self.cursor > 0 {
            let mut v = chars_of(self.query.as_str());
            v.remove(self.cursor - 1);
            self.query = string_of(&v);
            self.cursor = self.cursor - 1;
        }
    }

    /// Deletes the character after the cursor.
    pub fn delete(&mut self)
        requires
            old(self).wf(),
        ensures
            old(self).cursor < old(self).query@.len() ==> final(self).query@ == old(self).query@.remove(
                old(self).cursor as int,
            ),
            old(self).cursor == old(self).query@.len() ==> final(self).query@ == old(self).query@,
            final(self).cursor == old(self).cursor,
            final(self).wf(),
    {
        let n = self.query.unicode_len();
        if self.cursor < n {
            let mut v = chars_of(self.query.as_str());
            v.remove(self.cursor);
            self.query = string_of(&v);
        }
    }

    pub fn move_left(&mut self)
        ensures
            final(self).query == old(self).query,
            final(self).cursor == if old(self).cursor > 0 {
                old(self).cursor - 1
            } else {
                0
            },
    {
        if self.cursor > 0 {
            self.cursor = self.cursor - 1;
        }
    }

    pub fn move_right(&mut self)
        ensures
            final(self).query == old(self).query,
            old(self).cursor < old(self).query@.len() ==> final(self).cursor == old(self).cursor + 1,
            old(self).cursor >= old(self).query@.len() ==> final(self).cursor == old(self).cursor,
    {
        if self.cursor < self.query.unicode_len() {
            self.cursor = self.cursor + 1;
        }
    }

    pub fn move_start(&mut self)
        ensures
            final(self).query == old(self).query,
            final(self).cursor == 0,
    {
        self.cursor = 0;
    }

    pub fn move_end(&mut self)
        ensures
            final(self).query == old(self).query,
            final(self).cursor == old(self).query@.len(),
    {
        self.cursor = self.query.unicode_len();
    }

    /// Moves to the start of the previous word: past any white space before
    /// the cursor, then past the word before it.
    pub fn move_word_left(&mut self)
        requires
            old(self).wf(),
        ensures
            final(self).query == old(self).query,
            final(self).cursor == word_left(old(self).query@, old(self).cursor as int),
            final(self).wf(),
    {
        let v = chars_of(self.query.as_str());
        self.cursor = word_left_of(&v, self.cursor);
    }

    /// Moves to the start of the next word: past the rest of the current
    /// word, then past the white space after it.
    pub fn move_word_right(&mut self)
        requires
            old(self).wf(),
        ensures
            final(self).query == old(self).query,
            final(self).cursor == word_right(old(self).query@, old(self).cursor as int),
            final(self).wf(),
    {
        let v = chars_of(self.query.as_str());
        self.cursor = word_right_of(&v, self.cursor);
    }

    /// Deletes from the start of the previous word to the cursor.
    pub fn delete_word_backward(&mut self)
        requires
            old(self).wf(),
        ensures
            ({
                let p = word_left(old(self).query@, old(self).cursor as int);
                &&& final(self).query@ == cut(old(self).query@, p, old(self).cursor as int)
                &&& final(self).cursor == p
            }),
            final(self).wf(),
    {
        let v = chars_of(self.query.as_str());
        let start = self.cursor;
        let p = word_left_of(&v, start);
        let r = cut_chars(&v, p, start);
        self.query = string_of(&r);
        self.cursor = p;
        proof {
            if p == start {
                assert(cut(old(self).query@, p as int, start as int) =~= old(self).query@);
            }
        }
    }

    /// Deletes from the cursor to the start of the next word.
    pub fn delete_word_forward(&mut self)
        requires
            old(self).wf(),
        ensures
            ({
                let p = word_right(old(self).query@, old(self).cursor as int);
                &&& final(self).query@ == cut(old(self).query@, old(self).cursor as int, p)
                &&& final(self).cursor == old(self).cursor
            }),
            final(self).wf(),
    {
        let v = chars_of(self.query.as_str());
        let start = self.cursor;
        let p = word_right_of(&v, start);
        let r = cut_chars(&v, start, p);
        self.query = string_of(&r);
    }

    /// Deletes everything before the cursor.
    pub fn delete_to_start(&mut self)
        requires
            old(self).wf(),
        ensures
            final(self).query@ == old(self).query@.subrange(old(self).cursor as int, old(self).query@.len() as int),
            final(self).cursor == 0,
            final(self).wf(),
    {
        let v = chars_of(self.query.as_str());
        let r = cut_chars(&v, 0, self.cursor);
        self.query = string_of(&r);
        self.cursor = 0;
        assert(cut(v@, 0, old(self).cursor as int) =~= v@.subrange(old(self).cursor as int, v@.len() as int));
    }

    /// Deletes everything after the cursor.
    pub fn delete_to_end(&mut self)
        requires
            old(self).wf(),
        ensures
            final(self).query@ == old(self).query@.subrange(0, old(self).cursor as int),
            final(self).cursor == old(self).cursor,
            final(self).wf(),
    {
        let mut v = chars_of(self.query.as_str());
        v.truncate(self.cursor);
        self.query = string_of(&v);
    }

    pub fn clear(&mut self)
        ensures
            final(self).query@.len() == 0,
            final(self).cursor == 0,
    {
        self.query = String::new();
        self.cursor = 0;
    }
}

impl Default for SearchState {
    fn default() -> (r: SearchState)
        ensures
            r.query@.len() == 0,
            r.cursor == 0,
    {
        SearchState::new()
    }
}

/// Which button of a confirmation dialog has the focus: 0 is yes, 1 is no.
pub struct ConfirmDialogState {
    pub selected_button: usize,
}

impl Default for ConfirmDialogState {
    /// The focus starts on "no".
    fn default() -> (r: ConfirmDialogState)
        ensures
            r.selected_button == 1,
    {
        ConfirmDialogState { selected_button: 1 }
    }
}

impl ConfirmDialogState {
    pub fn select_yes(&mut self)
        ensures
            final(self).selected_button == 0,
    {
        self.selected_button = 0;
    }

    pub fn select_no(&mut self)
        ensures
            final(self).selected_button == 1,
    {
        self.selected_button = 1;
    }

    /// Moves the focus to the other button.
    pub fn toggle(&mut self)
        ensures
            final(self).selected_button == (old(self).selected_button + 1) % 2,
    {
        self.selected_button = if self.selected_button % 2 == 0 {
            1
        } else {
            0
        };
    }

    pub fn is_yes_selected(&self) -> (r: bool)
        ensures
            r == (self.selected_button == 0),
    {
        self.selected_button == 0
    }
}

/// The columns of the commit table, left to right.
#[derive(Debug, Clone, Copy, PartialEq, Eq, Structural)]
pub enum Column {
    Selection,
    Hash,
    Name,
    Email,
    Date,
    Message,
}

pub open spec fn column_index(c: Column) -> int {
    match c {
        Column::Selection => 0,
        Column::Hash => 1,
        Column::Name => 2,
        Column::Email => 3,
        Column::Date => 4,
        Column::Message => 5,
    }
}

impl Column {
    pub open spec fn from_index_spec(idx: usize) -> Option<Column> {
        if idx == 0 {
            Some(Column::Selection)
        } else if idx == 1 {
            Some(Column::Hash)
        } else if idx == 2 {
            Some(Column::Name)
        } else if idx == 3 {
            Some(Column::Email)
        } else if idx == 4 {
            Some(Column::Date)
        } else if idx == 5 {
            Some(Column::Message)
        } else {
            None
        }
    }

    pub fn from_index(idx: usize) -> (r: Option<Column>)
        ensures
            r == Column::from_index_spec(idx),
            idx < 6 ==> (r matches Some(c) && column_index(c) == idx),
            idx >= 6 ==> r is None,
    {
        match idx {
            0 => Some(Column::Selection),
            1 => Some(Column::Hash),
            2 => Some(Column::Name),
            3 => Some(Column::Email),
            4 => Some(Column::Date),
            5 => Some(Column::Message),
            _ => None,
        }
    }

    /// Position of the column, from 0.
    pub fn index(&self) -> (r: usize)
        ensures
            r == column_index(*self),
    {
        match self {
            Column::Selection => 0,
            Column::Hash => 1,
            Column::Name => 2,
            Column::Email => 3,
            Column::Date => 4,
            Column::Message => 5,
        }
    }

    /// The checkbox and hash columns cannot be edited.
    pub fn is_editable(&self) -> (r: bool)
        ensures
            r <==> column_index(*self) >= 2,
    {
        !matches!(self, Column::Selection | Column::Hash)
    }

    /// The author field a column edits.
    pub fn to_editable_field(&self) -> (r: Option<EditableField>)
        ensures
            r == match self {
                Column::Name => Some(EditableField::AuthorName),
                Column::Email => Some(EditableField::AuthorEmail),
                Column::Date => Some(EditableField::AuthorDate),
                Column::Message => Some(EditableField::Message),
                _ => None::<EditableField>,
            },
    {
        match self {
            Column::Name => Some(EditableField::AuthorName),
            Column::Email => Some(EditableField::AuthorEmail),
            Column::Date => Some(EditableField::AuthorDate),
            Column::Message => Some(EditableField::Message),
            _ => None,
        }
    }
}

/// The editable column after `col`, wrapping; the first one when `col` is
/// not editable.
pub fn next_editable_column(col: usize) -> (r: usize)
    ensures
        2 <= col < 5 ==> r == col + 1,
        col == 5 ==> r == 2,
        (col < 2 || col > 5) ==> r == 2,
{
    if col >= 2 && col < 5 {
        col + 1
    } else {
        2
    }
}

/// The editable column before `col`, wrapping; the last one when `col` is
/// not editable.
pub fn prev_editable_column(col: usize) -> (r: usize)
    ensures
        2 < col <= 5 ==> r == col - 1,
        col == 2 ==> r == 5,
        (col < 2 || col > 5) ==> r == 5,
{
    if col > 2 && col <= 5 {
        col - 1
    } else {
        5
    }
}

/// A visual selection as drawn: a row range, and a column range for blocks.
pub struct VisualSelection {
    pub visual_type: VisualType,
    pub start_row: usize,
    pub end_row: usize,
    pub start_col: usize,
    pub end_col: usize,
}

impl VisualSelection {
    pub fn contains_cell(&self, row: usize, col: usize) -> (r: bool)
        ensures
            r == (self.start_row <= row <= self.end_row && (self.visual_type == VisualType::Line || (
            self.start_col <= col <= self.end_col))),
    {
        let row_in_range = row >= self.start_row && row <= self.end_row;
        match self.visual_type {
            VisualType::Line => row_in_range,
            VisualType::Block => row_in_range && col >= self.start_col && col <= self.end_col,
        }
    }
}

/// The key hints shown in the status bar for a mode.
pub open spec fn keybindings_spec(mode: AppMode) -> Seq<(Seq<char>, Seq<char>)> {
    match mode {
        AppMode::Normal => seq![
            ("h/j/k/l"@, "nav"@),
            ("V"@, "visual"@),
            ("^V"@, "block"@),
            ("Space"@, "sel"@),
            ("Enter"@, "edit"@),
            ("/"@, "search"@),
            ("w"@, "write"@),
            ("?"@, "help"@),
        ],
        AppMode::Visual { visual_type: VisualType::Line, .. } => seq![
            ("j/k"@, "extend"@),
            ("e"@, "edit"@),
            ("Space"@, "toggle"@),
            ("^V"@, "block"@),
            ("Esc"@, "cancel"@),
        ],
        AppMode::Visual { visual_type: VisualType::Block, .. } => seq![
            ("h/j/k/l"@, "extend"@),
            ("e"@, "edit"@),
            ("Space"@, "toggle"@),
            ("V"@, "line"@),
            ("Esc"@, "cancel"@),
        ],
        AppMode::Editing { .. } => seq![("Enter"@, "save"@), ("Esc"@, "cancel"@), ("Tab"@, "next"@)],
        AppMode::Search => seq![("Enter"@, "filter"@), ("Esc"@, "cancel"@)],
        AppMode::Reorder => seq![("Esc"@, "cancel"@)],
        AppMode::Confirming(_) => seq![("y"@, "yes"@), ("n"@, "no"@), ("Esc"@, "cancel"@)],
        AppMode::Help => seq![("q/Esc"@, "close"@)],
        AppMode::Quitting => seq![("y"@, "quit"@), ("n"@, "stay"@)],
    }
}

pub open spec fn pair_views(v: Seq<(&'static str, &'static str)>) -> Seq<(Seq<char>, Seq<char>)> {
    v.map_values(|p: (&'static str, &'static str)| (p.0@, p.1@))
}

/// The key hints for a mode (see [`keybindings_spec`]).
pub fn get_keybindings(mode: &AppMode) -> (r: Vec<(&'static str, &'static str)>)
    ensures
        pair_views(r@) == keybindings_spec(*mode),
{
    let r = match mode {
        AppMode::Normal => vec![
            ("h/j/k/l", "nav"),
            ("V", "visual"),
            ("^V", "block"),
            ("Space", "sel"),
            ("Enter", "edit"),
            ("/", "search"),
            ("w", "write"),
            ("?", "help"),
        ],
        AppMode::Visual { visual_type, .. } => match visual_type {
            VisualType::Line => vec![
                ("j/k", "extend"),
                ("e", "edit"),
                ("Space", "toggle"),
                ("^V", "block"),
                ("Esc", "cancel"),
            ],
            VisualType::Block => vec![
                ("h/j/k/l", "extend"),
                ("e", "edit"),
                ("Space", "toggle"),
                ("V", "line"),
                ("Esc", "cancel"),
            ],
        },
        AppMode::Editing { .. } => vec![("Enter", "save"), ("Esc", "cancel"), ("Tab", "next")],
        AppMode::Search => vec![("Enter", "filter"), ("Esc", "cancel")],
        AppMode::Reorder => vec![("Esc", "cancel")],
        AppMode::Confirming(_) => vec![("y", "yes"), ("n", "no"), ("Esc", "cancel")],
        AppMode::Help => vec![("q/Esc", "close")],
        AppMode::Quitting => vec![("y", "quit"), ("n", "stay")],
    };
    assert(pair_views(r@) =~= keybindings_spec(*mode));
    r
}

/// The value a table cell shows for editing: the overlay's value if set,
/// else the original; dates in the canonical format.
pub open spec fn column_value(c: CommitData, m: Option<CommitModifications>, column: Column) -> Seq<char> {
    match column {
        Column::Selection => Seq::empty(),
        Column::Hash => c.short_hash@,
        Column::Name => match m {
            Some(x) if x.author_name is Some => x.author_name->Some_0@,
            _ => c.author.name@,
        },
        Column::Email => match m {
            Some(x) if x.author_email is Some => x.author_email->Some_0@,
            _ => c.author.email@,
        },
        Column::Date => match m {
            Some(x) if x.author_date is Some => datetime_format(
                x.author_date->Some_0.seconds,
                x.author_date->Some_0.offset_seconds,
                FULL_FORMAT@,
            ),
            _ => datetime_format(c.author_date.seconds, c.author_date.offset_seconds, FULL_FORMAT@),
        },
        Column::Message => match m {
            Some(x) if x.message is Some => x.message->Some_0@,
            _ => c.message@,
        },
    }
}

/// The value of a cell (see [`column_value`]).
pub fn get_column_value(commit: &CommitData, mods: Option<&CommitModifications>, column: Column) -> (r: String)
    ensures
        r@ == column_value(*commit, match mods {
            Some(m) => Some(*m),
            None => None,
        }, column),
{
    match column {
        Column::Selection => String::new(),
        Column::Hash => commit.short_hash.clone(),
        Column::Name => match mods {
            Some(m) if m.author_name.is_some() => m.author_name.clone().unwrap(),
            _ => commit.author.name.clone(),
        },
        Column::Email => match mods {
            Some(m) if m.author_email.is_some() => m.author_email.clone().unwrap(),
            _ => commit.author.email.clone(),
        },
        Column::Date => match mods {
            Some(m) if m.author_date.is_some() => format_date_for_edit(&m.author_date.unwrap()),
            _ => format_date_for_edit(&commit.author_date),
        },
        Column::Message => match mods {
            Some(m) if m.message.is_some() => m.message.clone().unwrap(),
            _ => commit.message.clone(),
        },
    }
}

} // verus!
