//! One line of text, indexed by grapheme cluster.
use crate::clusters::{
    cluster_is_alphanumeric, delete_from_clusters, deleted, distance_to_word_end,
    distance_to_word_start, head, insert_into_clusters, inserted, lemma_flatten_len_ge,
    next_word_end, prev_word_start, render_clusters, shown, shown_range, split_clusters, tail,
    alnum_at,
};
use crate::text::{grapheme_count, graphemes, graphemes_of, segmented};
use vstd::prelude::*;
use vstd::string::*;
use vstd::utf8::encode_utf8;

verus! {

/// The text shown for clusters `[start, end)` of `t`: `end` is clamped to the
/// number of clusters and `start` to `end`; a tab shows as one space.
pub open spec fn render_text(t: Seq<char>, start: int, end: int) -> Seq<char> {
    shown_range(graphemes_of(t), start, end)
}

/// `t` with `c` put before cluster `i`, or at the end when `i` is past the last cluster.
pub open spec fn insert_text(t: Seq<char>, i: int, c: char) -> Seq<char> {
    if i >= grapheme_count(t) {
        t.push(c)
    } else {
        inserted(graphemes_of(t), i, c)
    }
}

/// `t` without cluster `i`; `t` itself when there is no cluster `i`.
pub open spec fn delete_text(t: Seq<char>, i: int) -> Seq<char> {
    if i >= grapheme_count(t) {
        t
    } else {
        deleted(graphemes_of(t), i)
    }
}

/// The first `i` clusters of `t` (all of them when `i` is past the end).
pub open spec fn head_text(t: Seq<char>, i: int) -> Seq<char> {
    head(graphemes_of(t), i)
}

/// The clusters of `t` from index `i` on (none when `i` is past the end).
pub open spec fn tail_text(t: Seq<char>, i: int) -> Seq<char> {
    tail(graphemes_of(t), i)
}

/// Where a jump to the next word lands from cluster `x` of `t`.
pub open spec fn word_end(t: Seq<char>, x: int) -> int {
    next_word_end(graphemes_of(t), x)
}

/// Where a jump to the previous word start lands from cluster `x` of `t`.
pub open spec fn word_start(t: Seq<char>, x: int) -> int {
    prev_word_start(graphemes_of(t), x)
}

/// One line of a document: its text and the number of its grapheme clusters.
pub struct Row {
    string: String,
    len: usize,
}

impl View for Row {
    type V = Seq<char>;

    closed spec fn view(&self) -> Seq<char> {
        self.string@
    }
}

impl Row {
    #[verifier::type_invariant]
    spec fn counted(&self) -> bool {
        &&& self.len == grapheme_count(self.string@)
        &&& segmented(self.string@)
    }

    /// A row holding `string`, with its clusters counted.
    fn from_string(string: String) -> (r: Row)
        ensures
            r@ == string@,
            segmented(r@),
    {
        let gs = graphemes(string.as_str());
        Row { string, len: gs.len() }
    }

    /// A row holding `slice`.
    pub fn from(slice: &str) -> (r: Row)
        ensures
            r@ == slice@,
            segmented(r@),
    {
        Row::from_string(slice.to_owned())
    }

    /// Number of grapheme clusters in the row.
    pub fn len(&self) -> (r: usize)
        ensures
            r == grapheme_count(self@),
    {
        proof {
            use_type_invariant(self);
        }
        self.len
    }

    /// Whether the row holds no text.
    pub fn is_empty(&self) -> (r: bool)
        ensures
            r == (self@.len() == 0),
    {
        proof {
            use_type_invariant(self);
            if self@.len() > 0 && graphemes_of(self@).len() == 0 {
                assert(graphemes_of(self@).flatten() == Seq::<char>::empty());
            }
            if self@.len() == 0 && graphemes_of(self@).len() > 0 {
                lemma_flatten_len_ge(graphemes_of(self@), 0);
            }
        }
        self.len == 0
    }

    /// The text shown for clusters `[start, end)`, clamped to the row, with
    /// each tab shown as one space.
    pub fn render(&self, start: usize, end: usize) -> (r: String)
        ensures
            r@ == render_text(self@, start as int, end as int),
    {
        let gs = graphemes(self.string.as_str());
        render_clusters(&gs, start, end)
    }

    /// Puts `c` before cluster `index`, or at the end when `index` is past the
    /// last cluster.
    pub fn insert(&mut self, index: usize, c: char)
        ensures
            final(self)@ == insert_text(old(self)@, index as int, c),
            segmented(final(self)@),
    {
        proof {
            use_type_invariant(&*self);
        }
        if index >= self.len {
            let mut string = String::new();
            string.append(self.string.as_str());
            string.push(c);
            *self = Row::from_string(string);
            return;
        }
        let gs = graphemes(self.string.as_str());
        *self = Row::from_string(insert_into_clusters(&gs, index, c));
    }

    /// Removes cluster `index`; does nothing when there is no such cluster.
    pub fn delete(&mut self, index: usize)
        ensures
            final(self)@ == delete_text(old(self)@, index as int),
            segmented(final(self)@),
    {
        proof {
            use_type_invariant(&*self);
        }
        if index >= self.len {
            return;
        }
        let gs = graphemes(self.string.as_str());
        *self = Row::from_string(delete_from_clusters(&gs, index));
    }

    /// Keeps the first `index` clusters and returns a row holding the rest.
    pub fn split(&mut self, index: usize) -> (r: Row)
        ensures
            final(self)@ == head_text(old(self)@, index as int),
            r@ == tail_text(old(self)@, index as int),
            segmented(final(self)@),
            segmented(r@),
    {
        let gs = graphemes(self.string.as_str());
        let (front, back) = split_clusters(&gs, index);
        *self = Row::from_string(front);
        Row::from_string(back)
    }

    /// Adds the text of `other` at the end of this row.
    pub fn append(&mut self, other: &Row)
        ensures
            final(self)@ == old(self)@ + other@,
            segmented(final(self)@),
    {
        let mut string = String::new();
        string.append(self.string.as_str());
        string.append(other.string.as_str());
        *self = Row::from_string(string);
    }

    /// The row's text.
    pub fn as_str(&self) -> (r: &str)
        ensures
            r@ == self@,
    {
        self.string.as_str()
    }

    /// The row's text as UTF-8 bytes.
    pub fn as_bytes(&self) -> (r: &[u8])
        ensures
            r@ == encode_utf8(self@),
    {
        self.string.as_str().as_bytes()
    }

    /// Whether cluster `index` exists and begins with an alphanumeric character.
    pub fn is_alphanumeric(&self, index: usize) -> (r: bool)
        ensures
            r == alnum_at(graphemes_of(self@), index as int),
    {
        let gs = graphemes(self.string.as_str());
        cluster_is_alphanumeric(&gs, index)
    }

    /// How many single steps to the right reach the end of the next word.
    pub fn distance_to_end(&self, x: usize) -> (r: usize)
        ensures
            r == word_end(self@, x as int) - x,
            x <= grapheme_count(self@) ==> x + r <= grapheme_count(self@),
            x > grapheme_count(self@) ==> r == 0,
    {
        let gs = graphemes(self.string.as_str());
        distance_to_word_end(&gs, x)
    }

    /// How many single steps to the left reach the start of the previous word.
    pub fn distance_to_start(&self, x: usize) -> (r: usize)
        ensures
            r == x - word_start(self@, x as int),
            r <= x,
    {
        let gs = graphemes(self.string.as_str());
        distance_to_word_start(&gs, x)
    }
}

impl Default for Row {
    /// An empty row.
    fn default() -> (r: Row)
        ensures
            r@ == Seq::<char>::empty(),
            grapheme_count(r@) == 0,
            segmented(r@),
    {
        let r = Row::from_string(String::new());
        proof {
            use_type_invariant(&r);
            if graphemes_of(r@).len() > 0 {
                lemma_flatten_len_ge(graphemes_of(r@), 0);
            }
        }
        r
    }
}

/// Deleting cluster `i` and then typing `c` at `i` gives the text with just
/// cluster `i` replaced by `c`, whenever the deletion leaves the other clusters
/// as they were.
pub proof fn lemma_delete_then_insert(t: Seq<char>, i: int, c: char)
    requires
        0 <= i < grapheme_count(t),
        graphemes_of(delete_text(t, i)) == graphemes_of(t).remove(i),
    ensures
        insert_text(delete_text(t, i), i, c) == graphemes_of(t).update(i, seq![c]).flatten(),
{
    let gs = graphemes_of(t);
    let d = delete_text(t, i);
    let ds = graphemes_of(d);
    let target = gs.update(i, seq![c]);
    assert(target =~= gs.take(i) + seq![seq![c]] + gs.skip(i + 1));
    vstd::seq_lib::lemma_flatten_concat(gs.take(i) + seq![seq![c]], gs.skip(i + 1));
    vstd::seq_lib::lemma_flatten_concat(gs.take(i), seq![seq![c]]);
    seq![seq![c]].lemma_flatten_singleton();
    if i >= ds.len() {
        assert(gs.skip(i + 1) =~= Seq::<Seq<char>>::empty());
        assert(d =~= gs.take(i).flatten() + Seq::<Seq<char>>::empty().flatten());
    } else {
        assert(ds.take(i) =~= gs.take(i));
        assert(ds.skip(i) =~= gs.skip(i + 1));
    }
}

/// A one-character text is one cluster, and it shows as itself unless it is
/// a tab.
pub proof fn lemma_single_char(c: char)
    requires
        segmented(seq![c]),
    ensures
        graphemes_of(seq![c]) == seq![seq![c]],
        grapheme_count(seq![c]) == 1,
        c != '\t' ==> render_text(seq![c], 0, 1) == seq![c],
{
    let gs = graphemes_of(seq![c]);
    if gs.len() == 0 {
        assert(gs.flatten().len() == 0);
    }
    assert(gs.flatten() == gs[0] + gs.drop_first().flatten());
    if gs.len() > 1 {
        lemma_flatten_len_ge(gs.drop_first(), 0);
        assert(gs.drop_first()[0] == gs[1]);
    }
    assert(gs.drop_first() =~= Seq::<Seq<char>>::empty());
    assert(gs =~= seq![seq![c]]);
    let shown_gs = gs.subrange(0, 1).map_values(|g: Seq<char>| shown(g));
    assert(shown_gs =~= seq![shown(seq![c])]);
    shown_gs.lemma_flatten_singleton();
}

} // verus!
