use vstd::prelude::*;

use crate::action::Action;
use crate::action::Mode;
use crate::cursor::Cursor;
use crate::cursor::dec_sat;
use crate::cursor::inc_sat;
use crate::text::flat_text;
use crate::text::join_lines;
use crate::text::line_split;
use crate::text::lines_view;
use crate::text::split_lines;

verus! {

/// The abstract editing state the contracts speak of: the buffer as a
/// sequence of lines and the cursor as integer coordinates. The mode is
/// carried separately, since no editing operation reads it.
#[verifier::ext_equal]
pub struct EditState {
    pub lines: Seq<Seq<char>>,
    pub col: int,
    pub row: int,
}

/// An insertion applies when the row addresses an existing line, the column
/// lies inside that line or just past its end, and the grown column is still
/// representable as a coordinate.
pub open spec fn insert_applies(s: EditState) -> bool {
    &&& 0 <= s.row < s.lines.len()
    &&& 0 <= s.col <= s.lines[s.row].len()
    &&& s.col < u16::MAX
}

/// Inserting a character at the cursor: the addressed line grows by that
/// character at the cursor column and the cursor steps right past it. Out of
/// bounds, the state is left unchanged.
pub open spec fn insert_char_at(s: EditState, ch: char) -> EditState {
    if insert_applies(s) {
        EditState {
            lines: s.lines.update(s.row, s.lines[s.row].insert(s.col, ch)),
            col: s.col + 1,
            row: s.row,
        }
    } else {
        s
    }
}

/// A backspace at column zero joins with the line above; it applies when a
/// line stands above the addressed line and the join point is still
/// representable as a column.
pub open spec fn join_applies(s: EditState) -> bool {
    &&& s.col == 0
    &&& 0 < s.row < s.lines.len()
    &&& s.lines[s.row - 1].len() <= u16::MAX
}

/// A backspace inside a line removes the character left of the cursor; it
/// applies when the row addresses an existing line and the column lies
/// inside that line or just past its end.
pub open spec fn delete_applies(s: EditState) -> bool {
    &&& s.col > 0
    &&& 0 <= s.row < s.lines.len()
    &&& s.col <= s.lines[s.row].len()
}

/// Removing a character at the cursor. At column zero the addressed line is
/// taken out of the buffer and appended to the line above, and the cursor
/// moves to the join point: the end of what that line was before. At a
/// positive column the character left of the cursor is removed and the
/// cursor steps left onto its place. Out of bounds, the state is left
/// unchanged.
pub open spec fn remove_char_at(s: EditState) -> EditState {
    if join_applies(s) {
        EditState {
            lines: s.lines.update(s.row - 1, s.lines[s.row - 1] + s.lines[s.row]).remove(s.row),
            col: s.lines[s.row - 1].len() as int,
            row: s.row - 1,
        }
    } else if delete_applies(s) {
        EditState {
            lines: s.lines.update(s.row, s.lines[s.row].remove(s.col - 1)),
            col: s.col - 1,
            row: s.row,
        }
    } else {
        s
    }
}

/// A line split applies when the row addresses an existing line, the column
/// lies inside that line or just past its end, and the grown row is still
/// representable as a coordinate.
pub open spec fn split_applies(s: EditState) -> bool {
    &&& 0 <= s.row < s.lines.len()
    &&& 0 <= s.col <= s.lines[s.row].len()
    &&& s.row < u16::MAX
}

/// Breaking the addressed line at the cursor: the part before the cursor
/// keeps the line's place, the part from the cursor on becomes the next
/// line, and the cursor moves to the start of that next line. Out of
/// bounds, the state is left unchanged.
pub open spec fn split_line_at(s: EditState) -> EditState {
    if split_applies(s) {
        EditState {
            lines: s.lines.update(s.row, s.lines[s.row].take(s.col)).insert(
                s.row + 1,
                s.lines[s.row].skip(s.col),
            ),
            col: 0,
            row: s.row + 1,
        }
    } else {
        s
    }
}

/// What one action does to the editing state. Movement touches only the
/// cursor: decrements saturate at zero, increments stop at the largest
/// representable coordinate; no move is checked against the buffer. Quit
/// and mode changes leave the state alone.
pub open spec fn action_applied(s: EditState, a: Action) -> EditState {
    match a {
        Action::Quit => s,
        Action::MoveUp => EditState { row: dec_sat(s.row), ..s },
        Action::MoveDown => EditState { row: inc_sat(s.row), ..s },
        Action::MoveLeft => EditState { col: dec_sat(s.col), ..s },
        Action::MoveRight => EditState { col: inc_sat(s.col), ..s },
        Action::InsertChar(ch) => insert_char_at(s, ch),
        Action::RemoveChar => remove_char_at(s),
        Action::NewLine => split_line_at(s),
        Action::ChangeMode(_) => s,
    }
}

/// What one action does to the mode: a mode change sets it, everything else
/// leaves it.
pub open spec fn mode_applied(m: Mode, a: Action) -> Mode {
    match a {
        Action::ChangeMode(m2) => m2,
        _ => m,
    }
}

/// The in-memory editor: the line buffer, the edit point and the mode.
pub struct Editor {
    pub cursor: Cursor,
    pub lines: Vec<Vec<char>>,
    pub mode: Mode,
}

impl Editor {
    /// The buffer as the abstract sequence of lines.
    pub open spec fn buffer(&self) -> Seq<Seq<char>> {
        lines_view(self.lines@)
    }

    /// The abstract editing state of this editor.
    pub open spec fn state(&self) -> EditState {
        EditState { lines: self.buffer(), col: self.cursor.x as int, row: self.cursor.y as int }
    }

    /// A fresh editor over the given text: the text split into lines, the
    /// cursor at the origin, the mode Normal.
    pub fn new(content: Vec<char>) -> (ed: Editor)
        ensures
            ed.buffer() == line_split(content@),
            ed.cursor.x == 0,
            ed.cursor.y == 0,
            ed.mode == Mode::Normal,
    {
        Editor { cursor: Cursor::new(0, 0), lines: split_lines(&content), mode: Mode::Normal }
    }

    /// The buffer joined back into one text, as it would be written to disk.
    pub fn to_text(&self) -> (text: Vec<char>)
        ensures
            text@ == flat_text(self.buffer()),
    {
        join_lines(&self.lines)
    }

    /// Inserts `ch` at the cursor and steps the cursor right, when the
    /// cursor is in bounds; out of bounds the call changes nothing.
    pub fn insert_char(&mut self, ch: char)
        ensures
            final(self).state() == insert_char_at(old(self).state(), ch),
            final(self).mode == old(self).mode,
    {
        let y = self.cursor.y as usize;
        if y < self.lines.len() {
            let x = self.cursor.x as usize;
            if x <= self.lines[y].len() && self.cursor.x < u16::MAX {
                self.lines[y].insert(x, ch);
                self.cursor.move_right();
                proof {
                    let s0 = old(self).state();
                    assert(self.buffer() =~= insert_char_at(s0, ch).lines);
                    assert(self.state() =~= insert_char_at(s0, ch));
                }
            }
        }
    }

    /// A backspace at the cursor: at column zero it joins the addressed line
    /// onto the line above and puts the cursor on the join point, further
    /// right it removes the character left of the cursor and steps the
    /// cursor left; out of bounds the call changes nothing.
    pub fn remove_char(&mut self)
        ensures
            final(self).state() == remove_char_at(old(self).state()),
            final(self).mode == old(self).mode,
    {
        let y = self.cursor.y as usize;
        if self.cursor.x == 0 {
            if self.cursor.y != 0 && y < self.lines.len() && self.lines[y - 1].len()
                <= u16::MAX as usize {
                let mut old_line = self.lines.remove(y);
                self.cursor.move_up();
                self.cursor.x = self.lines[y - 1].len() as u16;
                self.lines[y - 1].append(&mut old_line);
                proof {
                    let s0 = old(self).state();
                    assert(join_applies(s0));
                    assert(self.buffer() =~= remove_char_at(s0).lines);
                    assert(self.state() =~= remove_char_at(s0));
                }
            }
        } else {
            if y < self.lines.len() {
                let x = self.cursor.x as usize;
                if x <= self.lines[y].len() {
                    self.cursor.move_left();
                    self.lines[y].remove(x - 1);
                    proof {
                        let s0 = old(self).state();
                        assert(delete_applies(s0));
                        assert(self.buffer() =~= remove_char_at(s0).lines);
                        assert(self.state() =~= remove_char_at(s0));
                    }
                }
            }
        }
    }

    /// Breaks the addressed line at the cursor into two consecutive lines
    /// and moves the cursor to the start of the second one, when the cursor
    /// is in bounds; out of bounds the call changes nothing.
    pub fn new_line(&mut self)
        ensures
            final(self).state() == split_line_at(old(self).state()),
            final(self).mode == old(self).mode,
    {
        let y = self.cursor.y as usize;
        if y < self.lines.len() && self.cursor.y < u16::MAX {
            let x = self.cursor.x as usize;
            if x <= self.lines[y].len() {
                let right = self.lines[y].split_off(x);
                self.lines.insert(y + 1, right);
                self.cursor.x = 0;
                self.cursor.move_down();
                proof {
                    let s0 = old(self).state();
                    assert(split_applies(s0));
                    assert(self.buffer() =~= split_line_at(s0).lines);
                    assert(self.state() =~= split_line_at(s0));
                }
            }
        }
    }

    /// Applies one action to the editor and reports whether it asks to end
    /// the session. Quit touches nothing; every other action changes the
    /// state and the mode exactly as the dispatch model says.
    pub fn step(&mut self, action: Action) -> (quit: bool)
        ensures
            final(self).state() == action_applied(old(self).state(), action),
            final(self).mode == mode_applied(old(self).mode, action),
            quit == (action is Quit),
    {
        match action {
            Action::Quit => true,
            Action::MoveUp => {
                self.cursor.move_up();
                false
            },
            Action::MoveDown => {
                if self.cursor.y < u16::MAX {
                    self.cursor.move_down();
                }
                false
            },
            Action::MoveLeft => {
                self.cursor.move_left();
                false
            },
            Action::MoveRight => {
                if self.cursor.x < u16::MAX {
                    self.cursor.move_right();
                }
                false
            },
            Action::InsertChar(ch) => {
                self.insert_char(ch);
                false
            },
            Action::RemoveChar => {
                self.remove_char();
                false
            },
            Action::NewLine => {
                self.new_line();
                false
            },
            Action::ChangeMode(m) => {
                self.mode = m;
                false
            },
        }
    }
}

/// The state after a whole sequence of actions, applied front to back.
pub open spec fn actions_applied(s: EditState, acts: Seq<Action>) -> EditState
    decreases acts.len(),
{
    if acts.len() == 0 {
        s
    } else {
        actions_applied(action_applied(s, acts[0]), acts.skip(1))
    }
}

/// Law: under every sequence of horizontal moves the column saturates at
/// zero — starting from a non-negative column it never goes negative.
pub proof fn lemma_column_never_negative(s: EditState, acts: Seq<Action>)
    requires
        s.col >= 0,
        forall|k: int| 0 <= k < acts.len() ==> acts[k] is MoveLeft || acts[k] is MoveRight,
    ensures
        actions_applied(s, acts).col >= 0,
    decreases acts.len(),
{
    if acts.len() > 0 {
        assert(acts[0] is MoveLeft || acts[0] is MoveRight);
        let s1 = action_applied(s, acts[0]);
        assert(s1.col >= 0);
        assert forall|k: int| 0 <= k < acts.skip(1).len() implies acts.skip(1)[k] is MoveLeft
            || acts.skip(1)[k] is MoveRight by {
            assert(acts.skip(1)[k] == acts[k + 1]);
        }
        lemma_column_never_negative(s1, acts.skip(1));
    }
}

/// Law: under every sequence of vertical moves the row saturates at zero —
/// starting from a non-negative row it never goes negative.
pub proof fn lemma_row_never_negative(s: EditState, acts: Seq<Action>)
    requires
        s.row >= 0,
        forall|k: int| 0 <= k < acts.len() ==> acts[k] is MoveUp || acts[k] is MoveDown,
    ensures
        actions_applied(s, acts).row >= 0,
    decreases acts.len(),
{
    if acts.len() > 0 {
        assert(acts[0] is MoveUp || acts[0] is MoveDown);
        let s1 = action_applied(s, acts[0]);
        assert(s1.row >= 0);
        assert forall|k: int| 0 <= k < acts.skip(1).len() implies acts.skip(1)[k] is MoveUp
            || acts.skip(1)[k] is MoveDown by {
            assert(acts.skip(1)[k] == acts[k + 1]);
        }
        lemma_row_never_negative(s1, acts.skip(1));
    }
}

/// Law: an insertion within bounds grows the addressed line by exactly one
/// character, leaves every other line unchanged, and moves the column one
/// step right.
pub proof fn lemma_insert_char_effect(s: EditState, ch: char)
    requires
        insert_applies(s),
    ensures
        insert_char_at(s, ch).lines.len() == s.lines.len(),
        insert_char_at(s, ch).lines[s.row].len() == s.lines[s.row].len() + 1,
        forall|i: int|
            0 <= i < s.lines.len() && i != s.row ==> insert_char_at(s, ch).lines[i] == s.lines[i],
        insert_char_at(s, ch).col == s.col + 1,
        insert_char_at(s, ch).row == s.row,
{
}

/// Law: removing right after inserting restores the state. Inserting a
/// character within bounds and then removing at the resulting cursor gives
/// back the original buffer, column and row.
pub proof fn lemma_remove_char_undoes_insert_char(s: EditState, ch: char)
    requires
        insert_applies(s),
    ensures
        remove_char_at(insert_char_at(s, ch)) == s,
{
    let s1 = insert_char_at(s, ch);
    assert(!join_applies(s1));
    assert(delete_applies(s1));
    assert(s1.lines[s.row].remove(s.col) =~= s.lines[s.row]);
    assert(remove_char_at(s1).lines =~= s.lines);
    assert(remove_char_at(s1) =~= s);
}

/// Law: a backspace at the start of the freshly created line undoes a line
/// split. Splitting within bounds and then removing at the resulting cursor
/// gives back the original buffer, column and row, provided the column is a
/// representable coordinate.
pub proof fn lemma_remove_char_undoes_split_line(s: EditState)
    requires
        split_applies(s),
        s.col <= u16::MAX,
    ensures
        remove_char_at(split_line_at(s)) == s,
{
    let s1 = split_line_at(s);
    assert(s1.lines[s.row] == s.lines[s.row].take(s.col));
    assert(join_applies(s1));
    assert(s1.lines[s.row] + s1.lines[s.row + 1] =~= s.lines[s.row]);
    assert(remove_char_at(s1).lines =~= s.lines);
    assert(remove_char_at(s1) =~= s);
}

} // verus!

