//! Cursor positions, movement through a document, and scrolling.
use crate::document::{row_len, Document};
use crate::row::{delete_text, insert_text};
use crate::text::{grapheme_count, graphemes_of};
use crate::terminal::Size;
use vstd::prelude::*;

verus! {

/// A movement of the cursor.
#[derive(Clone, Copy, Debug, PartialEq, Eq, Structural)]
pub enum Movement {
    Up,
    Down,
    Left,
    Right,
    PageUp,
    PageDown,
    Home,
    End,
}

/// Whether `p` lies in a document with these rows: on a row or one past the
/// last, and at most at the end of its row.
pub open spec fn valid_position(rows: Seq<Seq<char>>, p: Position) -> bool {
    &&& p.y <= rows.len()
    &&& p.x <= row_len(rows, p.y as int)
}

/// Where movement `m` takes `p` before clamping; `page` is the viewport height.
pub open spec fn step(rows: Seq<Seq<char>>, p: Position, m: Movement, page: int) -> (int, int) {
    let (x, y) = (p.x as int, p.y as int);
    let height = rows.len() as int;
    let width = row_len(rows, y) as int;
    match m {
        Movement::Up => (x, if y > 0 { y - 1 } else { 0 }),
        Movement::Down => (x, if y < height { y + 1 } else { y }),
        Movement::Left => if x > 0 {
            (x - 1, y)
        } else if y > 0 {
            (row_len(rows, y - 1) as int, y - 1)
        } else {
            (x, y)
        },
        Movement::Right => if x < width {
            (x + 1, y)
        } else if y < height {
            (0, y + 1)
        } else {
            (x, y)
        },
        Movement::PageUp => (x, if y > page { y - page } else { 0 }),
        Movement::PageDown => (x, if y + page >= height { height } else { y + page }),
        Movement::Home => (0, y),
        Movement::End => (width, y),
    }
}

/// Where movement `m` takes `p`: the row is kept within the document and the
/// column within the row it lands on.
pub open spec fn moved(rows: Seq<Seq<char>>, p: Position, m: Movement, page: int) -> Position {
    let (x, y) = step(rows, p, m, page);
    let y2 = if y > rows.len() { rows.len() as int } else { y };
    let w = row_len(rows, y2) as int;
    let x2 = if x > w { w } else { x };
    Position { x: x2 as usize, y: y2 as usize }
}

/// The offset along one axis that keeps `c` inside `[o, o + extent)`, moving
/// as little as possible.
pub open spec fn scroll_axis(c: int, o: int, extent: int) -> int {
    if c < o {
        c
    } else if c - o >= extent {
        if c - extent + 1 > usize::MAX {
            usize::MAX as int
        } else {
            c - extent + 1
        }
    } else {
        o
    }
}

/// The viewport offset after the cursor has moved to `c`.
pub open spec fn scrolled(c: Position, o: Position, size: Size) -> Position {
    Position {
        x: scroll_axis(c.x as int, o.x as int, size.width as int) as usize,
        y: scroll_axis(c.y as int, o.y as int, size.height as int) as usize,
    }
}

/// Whether `c` is inside the viewport of this size at offset `o`.
pub open spec fn visible(c: Position, o: Position, size: Size) -> bool {
    &&& o.x <= c.x < o.x + size.width
    &&& o.y <= c.y < o.y + size.height
}

/// A place in a document: `x` is a cluster index within row `y`.
#[derive(Clone, Copy, Debug, PartialEq, Eq, Structural)]
pub struct Position {
    pub x: usize,
    pub y: usize,
}

impl Default for Position {
    /// The top-left position.
    fn default() -> (r: Position)
        ensures
            r == (Position { x: 0, y: 0 }),
    {
        Position { x: 0, y: 0 }
    }
}

/// A row made of one cluster, however many characters that cluster has, is
/// one unit: its length is 1, deleting at 0 empties it, typing at 0 goes
/// before the whole cluster, and one step right or left crosses it.
pub proof fn lemma_cluster_is_one_unit(rows: Seq<Seq<char>>, y: usize, c: char, page: int)
    requires
        y < rows.len(),
        graphemes_of(rows[y as int]) == seq![rows[y as int]],
    ensures
        grapheme_count(rows[y as int]) == 1,
        delete_text(rows[y as int], 0) == Seq::<char>::empty(),
        insert_text(rows[y as int], 0, c) == seq![c] + rows[y as int],
        moved(rows, Position { x: 0, y }, Movement::Right, page) == (Position { x: 1, y }),
        moved(rows, Position { x: 1, y }, Movement::Left, page) == (Position { x: 0, y }),
{
    let t = rows[y as int];
    let gs = graphemes_of(t);
    assert(gs.take(0) =~= Seq::<Seq<char>>::empty());
    assert(gs.skip(1) =~= Seq::<Seq<char>>::empty());
    assert(gs.skip(0) =~= gs);
    gs.lemma_flatten_singleton();
    assert(Seq::<Seq<char>>::empty().flatten() =~= Seq::<char>::empty());
    assert(Seq::<char>::empty() + seq![c] + t =~= seq![c] + t);
    assert(Seq::<char>::empty() + Seq::<char>::empty() =~= Seq::<char>::empty());
}

/// Left at the start of row `k > 0` lands at the end of row `k - 1`.
pub proof fn lemma_left_at_line_start(rows: Seq<Seq<char>>, k: usize, page: int)
    requires
        0 < k <= rows.len(),
    ensures
        moved(rows, Position { x: 0, y: k }, Movement::Left, page) == (Position {
            x: row_len(rows, k - 1) as usize,
            y: (k - 1) as usize,
        }),
{
}

/// Right at the end of the last row lands at the start of the line past it.
pub proof fn lemma_right_at_document_end(rows: Seq<Seq<char>>, p: Position, page: int)
    requires
        rows.len() > 0,
        p.y == rows.len() - 1,
        p.x == row_len(rows, p.y as int),
    ensures
        moved(rows, p, Movement::Right, page) == (Position { x: 0, y: rows.len() as usize }),
{
}

/// While the cursor stays inside the viewport, the offset does not move.
pub proof fn lemma_visible_keeps_offset(c: Position, o: Position, size: Size)
    requires
        visible(c, o, size),
    ensures
        scrolled(c, o, size) == o,
{
}

/// Number of clusters of row `y`, or 0 when there is no such row.
fn row_length(doc: &Document, y: usize) -> (r: usize)
    ensures
        r == row_len(doc.texts(), y as int),
{
    match doc.row(y) {
        Some(row) => row.len(),
        None => 0,
    }
}

/// Where movement `m` takes `pos` in `doc`; `size.height` is one page.
pub fn move_position(pos: &Position, m: Movement, doc: &Document, size: &Size) -> (r: Position)
    ensures
        r == moved(doc.texts(), *pos, m, size.height as int),
        valid_position(doc.texts(), r),
{
    let page = size.height as usize;
    let height = doc.len();
    let mut x = pos.x;
    let mut y = pos.y;
    let width = row_length(doc, y);
    match m {
        Movement::Up => {
            y = y.saturating_sub(1);
        },
        Movement::Down => {
            if y < height {
                y = y + 1;
            }
        },
        Movement::Left => {
            if x > 0 {
                x = x - 1;
            } else if y > 0 {
                y = y - 1;
                x = row_length(doc, y);
            }
        },
        Movement::Right => {
            if x < width {
                x = x + 1;
            } else if y < height {
                x = 0;
                y = y + 1;
            }
        },
        Movement::PageUp => {
            y = if y > page {
                y - page
            } else {
                0
            };
        },
        Movement::PageDown => {
            y = if y >= height || height - y <= page {
                height
            } else {
                y + page
            };
        },
        Movement::Home => {
            x = 0;
        },
        Movement::End => {
            x = width;
        },
    }
    if y > height {
        y = height;
    }
    let w = row_length(doc, y);
    if x > w {
        x = w;
    }
    Position { x, y }
}

/// The offset along one axis that keeps `c` inside `[o, o + extent)`.
fn scroll_offset(c: usize, o: usize, extent: usize) -> (r: usize)
    ensures
        r == scroll_axis(c as int, o as int, extent as int),
{
    if c < o {
        c
    } else if c - o >= extent {
        (c - extent).saturating_add(1)
    } else {
        o
    }
}

/// The viewport offset after the cursor moved to `cursor`: unchanged while the
/// cursor stays visible, else moved just far enough to show it.
pub fn scroll(cursor: &Position, offset: &Position, size: &Size) -> (r: Position)
    ensures
        r == scrolled(*cursor, *offset, *size),
        size.width > 0 && size.height > 0 ==> visible(*cursor, r, *size),
{
    Position {
        x: scroll_offset(cursor.x, offset.x, size.width as usize),
        y: scroll_offset(cursor.y, offset.y, size.height as usize),
    }
}

} // verus!
