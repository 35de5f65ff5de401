//! The ordered rows of the edited text, with position-addressed edits.
use crate::cursor::Position;
use crate::row::{
    delete_text, head_text, insert_text, lemma_single_char, render_text, tail_text, Row,
};
use crate::text::{grapheme_count, graphemes_of, segmented};
use vstd::prelude::*;
use vstd::string::*;

verus! {

broadcast use vstd::string::group_string_axioms;

/// `l` without one carriage return at its end.
pub open spec fn strip_cr(l: Seq<char>) -> Seq<char> {
    if l.len() > 0 && l.last() == '\r' {
        l.drop_last()
    } else {
        l
    }
}

/// Reading `s` from the start: the lines ended by a newline so far (each without
/// its terminator and one carriage return before it), and the unfinished line.
pub open spec fn line_pieces(s: Seq<char>) -> (Seq<Seq<char>>, Seq<char>)
    decreases s.len(),
{
    if s.len() == 0 {
        (Seq::empty(), Seq::empty())
    } else {
        let (done, cur) = line_pieces(s.drop_last());
        if s.last() == '\n' {
            (done.push(strip_cr(cur)), Seq::empty())
        } else {
            (done, cur.push(s.last()))
        }
    }
}

/// The lines of `s`: split at each newline, a carriage return just before a
/// newline dropped too, and no empty line after a final newline.
pub open spec fn lines_of(s: Seq<char>) -> Seq<Seq<char>> {
    let (done, cur) = line_pieces(s);
    if cur.len() == 0 {
        done
    } else {
        done.push(cur)
    }
}

/// Every row text is well segmented; this holds of each document's rows.
pub open spec fn rows_segmented(rows: Seq<Seq<char>>) -> bool {
    forall|i: int| 0 <= i < rows.len() ==> segmented(#[trigger] rows[i])
}

/// Typing at one past the last row adds exactly one row, and that row shows
/// just the typed character (a tab shows as a space, so it is left out).
pub proof fn lemma_insert_past_end(rows: Seq<Seq<char>>, p: Position, c: char)
    requires
        p.y == rows.len(),
        rows_segmented(insert_rows(rows, p, c)),
        c != '\t',
    ensures
        insert_rows(rows, p, c).len() == rows.len() + 1,
        insert_rows(rows, p, c).last() == seq![c],
        render_text(
            insert_rows(rows, p, c).last(),
            0,
            grapheme_count(insert_rows(rows, p, c).last()) as int,
        ) == seq![c],
{
    let after = insert_rows(rows, p, c);
    assert(after[rows.len() as int] == seq![c]);
    lemma_single_char(c);
}

/// Breaking row `p.y` and then deleting at the end of that row (`q`) gives back
/// the rows from before the break.
pub proof fn lemma_new_line_then_join(rows: Seq<Seq<char>>, p: Position, q: Position)
    requires
        rows_segmented(rows),
        p.y < rows.len(),
        q.y == p.y,
        q.x == grapheme_count(new_line_rows(rows, p)[p.y as int]),
    ensures
        delete_rows(new_line_rows(rows, p), q) == rows,
{
    let t = rows[p.y as int];
    let gs = graphemes_of(t);
    let split = new_line_rows(rows, p);
    assert(segmented(t));
    if p.x >= gs.len() {
        assert(head_text(t, p.x as int) + tail_text(t, p.x as int) =~= t);
    } else {
        assert(gs =~= gs.take(p.x as int) + gs.skip(p.x as int));
        vstd::seq_lib::lemma_flatten_concat(gs.take(p.x as int), gs.skip(p.x as int));
    }
    assert(split[p.y + 1] == tail_text(t, p.x as int));
    assert(delete_rows(split, q) =~= rows);
}

/// The texts of a list of rows.
pub open spec fn row_texts(rows: Seq<Row>) -> Seq<Seq<char>> {
    rows.map_values(|r: Row| r@)
}

/// Number of clusters of row `y`, or 0 when there is no such row.
pub open spec fn row_len(rows: Seq<Seq<char>>, y: int) -> nat {
    if 0 <= y < rows.len() {
        grapheme_count(rows[y])
    } else {
        0
    }
}

/// The rows after putting `c` at `p`: a new row when `p` is one past the last
/// row, nothing when it is further.
pub open spec fn insert_rows(rows: Seq<Seq<char>>, p: Position, c: char) -> Seq<Seq<char>> {
    if p.y > rows.len() {
        rows
    } else if p.y == rows.len() {
        rows.push(seq![c])
    } else {
        rows.update(p.y as int, insert_text(rows[p.y as int], p.x as int, c))
    }
}

/// The rows after deleting at `p`: at the end of a row that has a successor
/// the two are joined, elsewhere the cluster at `p` goes.
pub open spec fn delete_rows(rows: Seq<Seq<char>>, p: Position) -> Seq<Seq<char>> {
    if p.y >= rows.len() {
        rows
    } else if p.x == grapheme_count(rows[p.y as int]) && p.y + 1 < rows.len() {
        rows.update(p.y as int, rows[p.y as int] + rows[p.y + 1]).remove(p.y + 1)
    } else {
        rows.update(p.y as int, delete_text(rows[p.y as int], p.x as int))
    }
}

/// The rows after breaking the line at `p`: an empty row when `p` is one past
/// the last row, nothing when it is further.
pub open spec fn new_line_rows(rows: Seq<Seq<char>>, p: Position) -> Seq<Seq<char>> {
    if p.y > rows.len() {
        rows
    } else if p.y == rows.len() {
        rows.push(Seq::empty())
    } else {
        rows.update(p.y as int, head_text(rows[p.y as int], p.x as int)).insert(
            p.y + 1,
            tail_text(rows[p.y as int], p.x as int),
        )
    }
}

/// The rows joined by single newlines, with none after the last.
pub open spec fn joined(rows: Seq<Seq<char>>) -> Seq<char>
    decreases rows.len(),
{
    if rows.len() == 0 {
        Seq::empty()
    } else if rows.len() == 1 {
        rows[0]
    } else {
        joined(rows.drop_last()) + seq!['\n'] + rows.last()
    }
}

/// The ordered rows of a document, its file name, and whether it changed since
/// it was last saved.
pub struct Document {
    rows: Vec<Row>,
    pub filename: Option<String>,
    dirty: bool,
}

impl Document {
    /// The text of each row, in order.
    pub closed spec fn texts(&self) -> Seq<Seq<char>> {
        row_texts(self.rows@)
    }

    /// The name of the file that the document is saved to, if any.
    pub closed spec fn file_name(&self) -> Option<Seq<char>> {
        match self.filename {
            Some(f) => Some(f@),
            None => None,
        }
    }

    /// Whether the document changed since it was last saved.
    pub closed spec fn modified(&self) -> bool {
        self.dirty
    }

    /// Number of rows.
    pub fn len(&self) -> (r: usize)
        ensures
            r == self.texts().len(),
    {
        self.rows.len()
    }

    /// Whether the document has no rows.
    pub fn is_empty(&self) -> (r: bool)
        ensures
            r == (self.texts().len() == 0),
    {
        self.rows.len() == 0
    }

    /// Whether the document changed since it was last saved.
    pub fn is_dirty(&self) -> (r: bool)
        ensures
            r == self.modified(),
    {
        self.dirty
    }

    /// Row `index`, or `None` past the last row.
    pub fn row(&self, index: usize) -> (r: Option<&Row>)
        ensures
            r.is_some() == (index < self.texts().len()),
            r matches Some(row) ==> row@ == self.texts()[index as int],
    {
        if index < self.rows.len() {
            Some(&self.rows[index])
        } else {
            None
        }
    }

    /// Puts `c` at `pos`; see [`insert_rows`]. Any change marks the document modified.
    pub fn insert(&mut self, pos: &Position, c: char)
        ensures
            final(self).texts() == insert_rows(old(self).texts(), *pos, c),
            rows_segmented(old(self).texts()) ==> rows_segmented(final(self).texts()),
            final(self).modified() == (old(self).modified() || pos.y <= old(self).texts().len()),
            final(self).file_name() == old(self).file_name(),
    {
        if pos.y > self.rows.len() {
            return;
        }
        self.dirty = true;
        if pos.y == self.rows.len() {
            let mut row = Row::default();
            row.insert(0, c);
            proof {
                assert(Seq::<char>::empty().push(c) =~= seq![c]);
            }
            self.rows.push(row);
            proof {
                assert(self.texts() =~= insert_rows(old(self).texts(), *pos, c));
            }
        } else {
            self.rows[pos.y].insert(pos.x, c);
            proof {
                assert(self.texts() =~= insert_rows(old(self).texts(), *pos, c));
            }
        }
    }

    /// Deletes at `pos`; see [`delete_rows`]. Any position on a row marks the
    /// document modified.
    pub fn delete(&mut self, pos: &Position)
        ensures
            final(self).texts() == delete_rows(old(self).texts(), *pos),
            rows_segmented(old(self).texts()) ==> rows_segmented(final(self).texts()),
            final(self).modified() == (old(self).modified() || pos.y < old(self).texts().len()),
            final(self).file_name() == old(self).file_name(),
    {
        if pos.y >= self.rows.len() {
            return;
        }
        self.dirty = true;
        if pos.x == self.rows[pos.y].len() && pos.y + 1 < self.rows.len() {
            let next_row = self.rows.remove(pos.y + 1);
            self.rows[pos.y].append(&next_row);
            proof {
                assert(self.texts() =~= delete_rows(old(self).texts(), *pos));
            }
        } else {
            self.rows[pos.y].delete(pos.x);
            proof {
                assert(self.texts() =~= delete_rows(old(self).texts(), *pos));
            }
        }
    }

    /// Breaks the line at `pos`; see [`new_line_rows`]. Any change marks the
    /// document modified.
    pub fn new_line(&mut self, pos: &Position)
        ensures
            final(self).texts() == new_line_rows(old(self).texts(), *pos),
            rows_segmented(old(self).texts()) ==> rows_segmented(final(self).texts()),
            final(self).modified() == (old(self).modified() || pos.y <= old(self).texts().len()),
            final(self).file_name() == old(self).file_name(),
    {
        if pos.y > self.rows.len() {
            return;
        }
        self.dirty = true;
        if pos.y == self.rows.len() {
            self.rows.push(Row::default());
            proof {
                assert(self.texts() =~= new_line_rows(old(self).texts(), *pos));
            }
        } else {
            let new_row = self.rows[pos.y].split(pos.x);
            self.rows.insert(pos.y + 1, new_row);
            proof {
                assert(self.texts() =~= new_line_rows(old(self).texts(), *pos));
            }
        }
    }

    /// The text that a save writes: the rows joined by single newlines.
    pub fn contents(&self) -> (r: String)
        ensures
            r@ == joined(self.texts()),
    {
        let mut out = String::new();
        let mut i: usize = 0;
        while i < self.rows.len()
            invariant
                0 <= i <= self.rows.len(),
                out@ == joined(self.texts().take(i as int)),
            decreases self.rows.len() - i,
        {
            if i > 0 {
                out.push('\n');
            }
            out.append(self.rows[i].as_str());
            proof {
                let ts = self.texts();
                assert(ts.take(i + 1).drop_last() =~= ts.take(i as int));
                assert(ts.take(i + 1).last() == ts[i as int]);
                if i == 0 {
                    assert(out@ =~= ts.take(1)[0]);
                }
            }
            i = i + 1;
        }
        proof {
            assert(self.texts().take(i as int) =~= self.texts());
        }
        out
    }

    /// The text to write when saving: the rows joined by single newlines, or
    /// `None` when no file name is set and a save does nothing.
    pub fn save_text(&self) -> (r: Option<String>)
        ensures
            r.is_some() == self.file_name().is_some(),
            r matches Some(t) ==> t@ == joined(self.texts()),
    {
        if self.filename.is_some() {
            Some(self.contents())
        } else {
            None
        }
    }

    /// Records that the current text was written out.
    pub fn mark_saved(&mut self)
        ensures
            final(self).texts() == old(self).texts(),
            final(self).file_name() == old(self).file_name(),
            !final(self).modified(),
    {
        self.dirty = false;
    }

    /// A document named `filename` whose rows are the lines of `contents`.
    pub fn from_contents(filename: &str, contents: &str) -> (r: Document)
        ensures
            r.texts() == lines_of(contents@),
            rows_segmented(r.texts()),
            r.file_name() == Some(filename@),
            !r.modified(),
    {
        let mut rows: Vec<Row> = Vec::new();
        let mut cur = String::new();
        let mut pending_cr = false;
        let ghost mut seen: Seq<char> = Seq::empty();
        for ch in it: contents.chars()
            invariant
                it.seq() == contents@,
                seen == it.seq().take(it.index() as int),
                ({
                    let (done, c) = line_pieces(seen);
                    &&& row_texts(rows@) == done
                    &&& c == if pending_cr { cur@.push('\r') } else { cur@ }
                }),
                !pending_cr ==> cur@.len() == 0 || cur@.last() != '\r',
                rows_segmented(row_texts(rows@)),
        {
            let ghost prefix = seen;
            proof {
                assert(it.seq().take(it.index() + 1) =~= prefix.push(ch));
                assert(prefix.push(ch).drop_last() =~= prefix);
            }
            if ch == '\n' {
                proof {
                    if pending_cr {
                        assert(cur@.push('\r').drop_last() =~= cur@);
                    }
                }
                rows.push(Row::from(cur.as_str()));
                proof {
                    assert(row_texts(rows@) =~= line_pieces(prefix).0.push(
                        strip_cr(line_pieces(prefix).1),
                    ));
                }
                cur = String::new();
                pending_cr = false;
            } else {
                if pending_cr {
                    cur.push('\r');
                }
                if ch == '\r' {
                    pending_cr = true;
                } else {
                    cur.push(ch);
                    pending_cr = false;
                }
            }
            proof {
                seen = seen.push(ch);
            }
        }
        if pending_cr {
            cur.push('\r');
        }
        proof {
            assert(seen =~= contents@);
        }
        if !cur.as_str().is_empty() {
            rows.push(Row::from(cur.as_str()));
            proof {
                assert(row_texts(rows@) =~= line_pieces(contents@).0.push(line_pieces(contents@).1));
            }
        }
        Document { rows, filename: Some(filename.to_owned()), dirty: false }
    }
}

impl Default for Document {
    /// An empty, unnamed, unmodified document.
    fn default() -> (r: Document)
        ensures
            r.texts() == Seq::<Seq<char>>::empty(),
            rows_segmented(r.texts()),
            r.file_name().is_none(),
            !r.modified(),
    {
        let r = Document { rows: Vec::new(), filename: None, dirty: false };
        proof {
            assert(r.texts() =~= Seq::<Seq<char>>::empty());
        }
        r
    }
}

} // verus!
