//! The editing session: a document, the cursor in it and the viewport offset,
//! changed together by each edit or movement.
use crate::cursor::{move_position, moved, scroll, scrolled, Movement, Position};
use crate::document::{delete_rows, insert_rows, new_line_rows, Document};
use crate::row::{word_end, word_start};
use crate::terminal::Size;
use vstd::prelude::*;

verus! {

/// The rows after deleting `n` times at the same position.
pub open spec fn delete_repeated(rows: Seq<Seq<char>>, p: Position, n: nat) -> Seq<Seq<char>>
    decreases n,
{
    if n == 0 {
        rows
    } else {
        delete_repeated(delete_rows(rows, p), p, (n - 1) as nat)
    }
}

/// How many steps right a jump to the next word takes from `p`: none when
/// there is no row `p.y`.
pub open spec fn next_word_distance(rows: Seq<Seq<char>>, p: Position) -> int {
    if p.y < rows.len() {
        word_end(rows[p.y as int], p.x as int) - p.x
    } else {
        0
    }
}

/// How many steps left a jump to the previous word start takes from `p`: none
/// when there is no row `p.y`.
pub open spec fn word_start_distance(rows: Seq<Seq<char>>, p: Position) -> int {
    if p.y < rows.len() {
        p.x - word_start(rows[p.y as int], p.x as int)
    } else {
        0
    }
}

/// What an edit changes in a session: the row texts, the cursor, the viewport
/// offset, and whether the document is modified.
pub type EditState = (Seq<Seq<char>>, Position, Position, bool);

/// The session after typing `c`: it goes in at the cursor, which then moves right.
pub open spec fn after_char(s: EditState, c: char, size: Size) -> EditState {
    let rows = insert_rows(s.0, s.1, c);
    let cursor = moved(rows, s.1, Movement::Right, size.height as int);
    (rows, cursor, scrolled(cursor, s.2, size), s.3 || s.1.y <= s.0.len())
}

/// The session after typing `c` `n` times.
pub open spec fn after_chars(s: EditState, c: char, size: Size, n: nat) -> EditState
    decreases n,
{
    if n == 0 {
        s
    } else {
        after_chars(after_char(s, c, size), c, size, (n - 1) as nat)
    }
}

/// The session after a backspace: unless the cursor is at the very start, it
/// moves left and the cluster (or line break) there is deleted.
pub open spec fn after_backspace(s: EditState, size: Size) -> EditState {
    if s.1.x > 0 || s.1.y > 0 {
        let cursor = moved(s.0, s.1, Movement::Left, size.height as int);
        (
            delete_rows(s.0, cursor),
            cursor,
            scrolled(cursor, s.2, size),
            s.3 || cursor.y < s.0.len(),
        )
    } else {
        s
    }
}

/// The session after a line break at the cursor, which then moves right (onto
/// the new line).
pub open spec fn after_enter(s: EditState, size: Size) -> EditState {
    let rows = new_line_rows(s.0, s.1);
    let cursor = moved(rows, s.1, Movement::Right, size.height as int);
    (rows, cursor, scrolled(cursor, s.2, size), s.3 || s.1.y <= s.0.len())
}

/// The number of spaces that a tab key inserts.
pub const TAB_WIDTH: usize = 4;

/// A document being edited, the cursor in it, and the offset of the viewport.
pub struct Editor {
    pub document: Document,
    pub cursor_position: Position,
    pub offset: Position,
}

impl Editor {
    /// The row texts, cursor, offset and modified flag of the session.
    pub open spec fn state(&self) -> EditState {
        (self.document.texts(), self.cursor_position, self.offset, self.document.modified())
    }

    /// A session on `document` with the cursor and the viewport at the top left.
    pub fn new(document: Document) -> (r: Editor)
        ensures
            r.document == document,
            r.cursor_position == (Position { x: 0, y: 0 }),
            r.offset == (Position { x: 0, y: 0 }),
    {
        Editor { document, cursor_position: Position { x: 0, y: 0 }, offset: Position { x: 0, y: 0 } }
    }

    /// Applies movement `m` to the cursor and scrolls to keep it visible.
    pub fn move_cursor(&mut self, m: Movement, size: &Size)
        ensures
            final(self).document == old(self).document,
            final(self).cursor_position == moved(
                old(self).document.texts(),
                old(self).cursor_position,
                m,
                size.height as int,
            ),
            final(self).offset == scrolled(final(self).cursor_position, old(self).offset, *size),
    {
        let pos = move_position(&self.cursor_position, m, &self.document, size);
        self.cursor_position = pos;
        self.offset = scroll(&pos, &self.offset, size);
    }

    /// Places the cursor at `pos` and scrolls to keep it visible.
    fn place_cursor(&mut self, pos: Position, size: &Size)
        ensures
            final(self).document == old(self).document,
            final(self).cursor_position == pos,
            final(self).offset == scrolled(pos, old(self).offset, *size),
    {
        self.cursor_position = pos;
        self.offset = scroll(&pos, &self.offset, size);
    }

    /// Moves the cursor right past the separators and the word after them, on
    /// its row; returns the number of single steps taken.
    pub fn jump_to_next_word(&mut self, size: &Size) -> (r: usize)
        ensures
            final(self).document == old(self).document,
            r == next_word_distance(old(self).document.texts(), old(self).cursor_position),
            final(self).cursor_position == (Position {
                x: (old(self).cursor_position.x + r) as usize,
                y: old(self).cursor_position.y,
            }),
            final(self).offset == scrolled(final(self).cursor_position, old(self).offset, *size),
    {
        let pos = self.cursor_position;
        match self.document.row(pos.y) {
            Some(row) => {
                let dist = row.distance_to_end(pos.x);
                let n = row.len();
                assert(pos.x + dist <= if pos.x <= n { n } else { pos.x });
                self.place_cursor(Position { x: pos.x + dist, y: pos.y }, size);
                dist
            },
            None => {
                self.place_cursor(pos, size);
                0
            },
        }
    }

    /// Moves the cursor left over the separators and the word before them, on
    /// its row; returns the number of single steps taken.
    pub fn jump_to_word_start(&mut self, size: &Size) -> (r: usize)
        ensures
            final(self).document == old(self).document,
            r == word_start_distance(old(self).document.texts(), old(self).cursor_position),
            final(self).cursor_position == (Position {
                x: (old(self).cursor_position.x - r) as usize,
                y: old(self).cursor_position.y,
            }),
            final(self).offset == scrolled(final(self).cursor_position, old(self).offset, *size),
    {
        let pos = self.cursor_position;
        match self.document.row(pos.y) {
            Some(row) => {
                let dist = row.distance_to_start(pos.x);
                self.place_cursor(Position { x: pos.x - dist, y: pos.y }, size);
                dist
            },
            None => {
                self.place_cursor(pos, size);
                0
            },
        }
    }
}

impl Editor {
    /// Types `c` at the cursor and moves the cursor right.
    pub fn insert_char(&mut self, c: char, size: &Size)
        ensures
            final(self).state() == after_char(old(self).state(), c, *size),
            final(self).document.file_name() == old(self).document.file_name(),
    {
        self.document.insert(&self.cursor_position, c);
        self.move_cursor(Movement::Right, size);
    }

    /// Types as many spaces as a tab is wide.
    pub fn insert_tab(&mut self, size: &Size)
        ensures
            final(self).state() == after_chars(old(self).state(), ' ', *size, TAB_WIDTH as nat),
            final(self).document.file_name() == old(self).document.file_name(),
    {
        let mut i: usize = 0;
        while i < TAB_WIDTH
            invariant
                i <= TAB_WIDTH,
                after_chars(old(self).state(), ' ', *size, TAB_WIDTH as nat) == after_chars(
                    self.state(),
                    ' ',
                    *size,
                    (TAB_WIDTH - i) as nat,
                ),
                self.document.file_name() == old(self).document.file_name(),
            decreases TAB_WIDTH - i,
        {
            self.insert_char(' ', size);
            i = i + 1;
        }
    }

    /// Deletes what lies before the cursor: the cluster to its left, or the
    /// line break before its row; nothing at the very start.
    pub fn backspace(&mut self, size: &Size)
        ensures
            final(self).state() == after_backspace(old(self).state(), *size),
            final(self).document.file_name() == old(self).document.file_name(),
    {
        if self.cursor_position.x > 0 || self.cursor_position.y > 0 {
            self.move_cursor(Movement::Left, size);
            self.document.delete(&self.cursor_position);
        }
    }

    /// Deletes the cluster under the cursor, or joins the next row to the
    /// cursor's row at its end.
    pub fn delete_forward(&mut self)
        ensures
            final(self).document.texts() == delete_rows(
                old(self).document.texts(),
                old(self).cursor_position,
            ),
            final(self).document.modified() == (old(self).document.modified()
                || old(self).cursor_position.y < old(self).document.texts().len()),
            final(self).document.file_name() == old(self).document.file_name(),
            final(self).cursor_position == old(self).cursor_position,
            final(self).offset == old(self).offset,
    {
        self.document.delete(&self.cursor_position);
    }

    /// Breaks the line at the cursor and moves the cursor onto the new line.
    pub fn enter(&mut self, size: &Size)
        ensures
            final(self).state() == after_enter(old(self).state(), *size),
            final(self).document.file_name() == old(self).document.file_name(),
    {
        self.document.new_line(&self.cursor_position);
        self.move_cursor(Movement::Right, size);
    }

    /// Deletes from the start of the previous word to the cursor, which moves
    /// there.
    pub fn delete_word(&mut self, size: &Size)
        ensures
            final(self).cursor_position == (Position {
                x: (old(self).cursor_position.x - word_start_distance(
                    old(self).document.texts(),
                    old(self).cursor_position,
                )) as usize,
                y: old(self).cursor_position.y,
            }),
            final(self).offset == scrolled(final(self).cursor_position, old(self).offset, *size),
            final(self).document.texts() == delete_repeated(
                old(self).document.texts(),
                final(self).cursor_position,
                word_start_distance(old(self).document.texts(), old(self).cursor_position) as nat,
            ),
            final(self).document.modified() == (old(self).document.modified() || (
            word_start_distance(old(self).document.texts(), old(self).cursor_position) > 0
                && old(self).cursor_position.y < old(self).document.texts().len())),
            final(self).document.file_name() == old(self).document.file_name(),
    {
        let dist = self.jump_to_word_start(size);
        let ghost start = self.document.texts();
        let ghost was_modified = self.document.modified();
        let mut i: usize = 0;
        while i < dist
            invariant
                i <= dist,
                self.cursor_position == (Position {
                    x: (old(self).cursor_position.x - dist) as usize,
                    y: old(self).cursor_position.y,
                }),
                self.offset == scrolled(self.cursor_position, old(self).offset, *size),
                start == old(self).document.texts(),
                was_modified == old(self).document.modified(),
                delete_repeated(start, self.cursor_position, dist as nat) == delete_repeated(
                    self.document.texts(),
                    self.cursor_position,
                    (dist - i) as nat,
                ),
                (self.cursor_position.y < self.document.texts().len()) == (
                old(self).cursor_position.y < start.len()),
                self.document.modified() == (was_modified || (i > 0
                    && old(self).cursor_position.y < start.len())),
                self.document.file_name() == old(self).document.file_name(),
            decreases dist - i,
        {
            self.document.delete(&self.cursor_position);
            i = i + 1;
        }
    }
}

} // verus!
