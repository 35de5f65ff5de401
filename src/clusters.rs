//! Editing a line given as its sequence of grapheme clusters.
//!
//! Each function here takes the clusters of a line, as `text::graphemes` gives
//! them, and builds the new text of the line from them.
use crate::text::{alphanumeric, is_alphanumeric_char, views};
use vstd::prelude::*;
use vstd::string::*;

verus! {

/// How a cluster is shown on screen: a tab as one space, anything else as is.
pub open spec fn shown(g: Seq<char>) -> Seq<char> {
    if g == seq!['\t'] {
        seq![' ']
    } else {
        g
    }
}

/// The text shown for clusters `[start, end)`: `end` is clamped to the number
/// of clusters and `start` to `end`.
pub open spec fn shown_range(vs: Seq<Seq<char>>, start: int, end: int) -> Seq<char> {
    let e = if end < vs.len() { end } else { vs.len() as int };
    let s = if start < e { start } else { e };
    vs.subrange(s, e).map_values(|g: Seq<char>| shown(g)).flatten()
}

/// The clusters spelled out with `c` put before cluster `i`, or at the end
/// when there is no cluster `i`.
pub open spec fn inserted(vs: Seq<Seq<char>>, i: int, c: char) -> Seq<char> {
    if i >= vs.len() {
        vs.flatten().push(c)
    } else {
        vs.take(i).flatten() + seq![c] + vs.skip(i).flatten()
    }
}

/// The clusters spelled out without cluster `i`.
pub open spec fn deleted(vs: Seq<Seq<char>>, i: int) -> Seq<char> {
    if i >= vs.len() {
        vs.flatten()
    } else {
        vs.take(i).flatten() + vs.skip(i + 1).flatten()
    }
}

/// The first `i` clusters spelled out (all of them when `i` is past the end).
pub open spec fn head(vs: Seq<Seq<char>>, i: int) -> Seq<char> {
    if i >= vs.len() {
        vs.flatten()
    } else {
        vs.take(i).flatten()
    }
}

/// The clusters from index `i` on spelled out (none when `i` is past the end).
pub open spec fn tail(vs: Seq<Seq<char>>, i: int) -> Seq<char> {
    if i >= vs.len() {
        Seq::empty()
    } else {
        vs.skip(i).flatten()
    }
}

/// Whether cluster `i` exists and begins with an alphanumeric character.
pub open spec fn alnum_at(vs: Seq<Seq<char>>, i: int) -> bool {
    &&& 0 <= i < vs.len()
    &&& vs[i].len() > 0
    &&& alphanumeric(vs[i][0])
}

/// The first index from `i` on whose cluster is not of the kind `alnum` (or the
/// end of the line).
pub open spec fn skip_forward(vs: Seq<Seq<char>>, i: int, alnum: bool) -> int
    decreases vs.len() - i,
{
    if 0 <= i < vs.len() && alnum_at(vs, i) == alnum {
        skip_forward(vs, i + 1, alnum)
    } else {
        i
    }
}

/// Walking back from `i`, the first index whose preceding cluster is not of
/// the kind `alnum` (or the start of the line).
pub open spec fn skip_backward(vs: Seq<Seq<char>>, i: int, alnum: bool) -> int
    decreases i,
{
    if 0 < i <= vs.len() && alnum_at(vs, i - 1) == alnum {
        skip_backward(vs, i - 1, alnum)
    } else {
        i
    }
}

/// Where a jump to the next word lands from `x`: past the separators, then past
/// the word that follows.
pub open spec fn next_word_end(vs: Seq<Seq<char>>, x: int) -> int {
    skip_forward(vs, skip_forward(vs, x, false), true)
}

/// Where a jump to the previous word start lands from `x`: back over the
/// separators, then back over the word before them.
pub open spec fn prev_word_start(vs: Seq<Seq<char>>, x: int) -> int {
    skip_backward(vs, skip_backward(vs, x, false), true)
}

/// Taking one more element of a sequence of texts adds that text to the flattening.
pub proof fn lemma_take_one_more(vs: Seq<Seq<char>>, k: int)
    requires
        0 <= k < vs.len(),
    ensures
        vs.take(k + 1).flatten() == vs.take(k).flatten() + vs[k],
{
    assert(vs.take(k + 1) =~= vs.take(k).push(vs[k]));
    vs.take(k).lemma_flatten_push(vs[k]);
}

/// Extending a range of texts by one adds that text to the flattening.
pub proof fn lemma_range_one_more(vs: Seq<Seq<char>>, a: int, k: int)
    requires
        0 <= a <= k < vs.len(),
    ensures
        vs.subrange(a, k + 1).flatten() == vs.subrange(a, k).flatten() + vs[k],
{
    assert(vs.subrange(a, k + 1) =~= vs.subrange(a, k).push(vs[k]));
    vs.subrange(a, k).lemma_flatten_push(vs[k]);
}

/// A flattened sequence is at least as long as each of its parts.
pub proof fn lemma_flatten_len_ge(vs: Seq<Seq<char>>, i: int)
    requires
        0 <= i < vs.len(),
    ensures
        vs.flatten().len() >= vs[i].len(),
    decreases vs.len(),
{
    if i > 0 {
        lemma_flatten_len_ge(vs.drop_first(), i - 1);
    }
}

/// The text shown for clusters `[start, end)`, clamped, with each tab shown as
/// one space.
pub fn render_clusters(gs: &Vec<String>, start: usize, end: usize) -> (r: String)
    ensures
        r@ == shown_range(views(gs@), start as int, end as int),
{
    let end = if end < gs.len() {
        end
    } else {
        gs.len()
    };
    let start = if start < end {
        start
    } else {
        end
    };
    let ghost vs = views(gs@);
    let ghost shown_vs = vs.subrange(start as int, end as int).map_values(|g: Seq<char>| shown(g));
    let mut result = String::new();
    let mut i: usize = start;
    while i < end
        invariant
            start <= i <= end <= gs.len(),
            vs == views(gs@),
            shown_vs == vs.subrange(start as int, end as int).map_values(|g: Seq<char>| shown(g)),
            result@ == shown_vs.take(i - start).flatten(),
        decreases end - i,
    {
        let g = gs[i].as_str();
        assert(g@ == vs[i as int]);
        if g.unicode_len() == 1 && g.get_char(0) == '\t' {
            proof {
                reveal_strlit(" ");
                assert(g@ =~= seq!['\t']);
            }
            result.append(" ");
        } else {
            result.append(g);
        }
        proof {
            assert(shown_vs[i - start] == shown(vs[i as int]));
            lemma_take_one_more(shown_vs, i - start);
        }
        i = i + 1;
    }
    proof {
        assert(shown_vs.take(end - start) =~= shown_vs);
    }
    result
}

/// The clusters spelled out with `c` before cluster `index`, or at the end.
pub fn insert_into_clusters(gs: &Vec<String>, index: usize, c: char) -> (r: String)
    ensures
        r@ == inserted(views(gs@), index as int, c),
{
    let ghost vs = views(gs@);
    let mut result = String::new();
    let mut i: usize = 0;
    while i < gs.len()
        invariant
            0 <= i <= gs.len(),
            vs == views(gs@),
            i <= index ==> result@ == vs.take(i as int).flatten(),
            i > index ==> result@ == vs.take(index as int).flatten() + seq![c] + vs.subrange(
                index as int,
                i as int,
            ).flatten(),
        decreases gs.len() - i,
    {
        let g = gs[i].as_str();
        assert(g@ == vs[i as int]);
        if i == index {
            result.push(c);
            proof {
                assert(vs.subrange(index as int, index as int) =~= Seq::<Seq<char>>::empty());
            }
        }
        result.append(g);
        proof {
            if i < index {
                lemma_take_one_more(vs, i as int);
            } else {
                lemma_range_one_more(vs, index as int, i as int);
            }
        }
        i = i + 1;
    }
    if index >= gs.len() {
        result.push(c);
        proof {
            assert(vs.take(vs.len() as int) =~= vs);
        }
    } else {
        proof {
            assert(vs.subrange(index as int, vs.len() as int) =~= vs.skip(index as int));
        }
    }
    result
}

/// The clusters spelled out without cluster `index`.
pub fn delete_from_clusters(gs: &Vec<String>, index: usize) -> (r: String)
    ensures
        r@ == deleted(views(gs@), index as int),
{
    let ghost vs = views(gs@);
    let mut result = String::new();
    let mut i: usize = 0;
    while i < gs.len()
        invariant
            0 <= i <= gs.len(),
            vs == views(gs@),
            i <= index ==> result@ == vs.take(i as int).flatten(),
            i > index ==> result@ == vs.take(index as int).flatten() + vs.subrange(
                index + 1,
                i as int,
            ).flatten(),
        decreases gs.len() - i,
    {
        let g = gs[i].as_str();
        assert(g@ == vs[i as int]);
        if i != index {
            result.append(g);
            proof {
                if i < index {
                    lemma_take_one_more(vs, i as int);
                } else {
                    lemma_range_one_more(vs, index + 1, i as int);
                }
            }
        } else {
            proof {
                assert(vs.subrange(index + 1, index + 1) =~= Seq::<Seq<char>>::empty());
            }
        }
        i = i + 1;
    }
    proof {
        if index >= gs.len() {
            assert(vs.take(vs.len() as int) =~= vs);
        } else {
            assert(vs.subrange(index + 1, vs.len() as int) =~= vs.skip(index + 1));
        }
    }
    result
}

/// The first `index` clusters spelled out, and the rest.
pub fn split_clusters(gs: &Vec<String>, index: usize) -> (r: (String, String))
    ensures
        r.0@ == head(views(gs@), index as int),
        r.1@ == tail(views(gs@), index as int),
{
    let ghost vs = views(gs@);
    let cut = if index < gs.len() {
        index
    } else {
        gs.len()
    };
    let mut front = String::new();
    let mut back = String::new();
    let mut i: usize = 0;
    while i < gs.len()
        invariant
            0 <= i <= gs.len(),
            cut == if index < gs.len() { index } else { gs.len() },
            vs == views(gs@),
            i <= cut ==> front@ == vs.take(i as int).flatten() && back@ == Seq::<char>::empty(),
            i > cut ==> front@ == vs.take(cut as int).flatten() && back@ == vs.subrange(
                cut as int,
                i as int,
            ).flatten(),
        decreases gs.len() - i,
    {
        let g = gs[i].as_str();
        assert(g@ == vs[i as int]);
        if i < cut {
            front.append(g);
            proof {
                lemma_take_one_more(vs, i as int);
            }
        } else {
            back.append(g);
            proof {
                if i == cut {
                    assert(vs.subrange(cut as int, cut as int) =~= Seq::<Seq<char>>::empty());
                }
                lemma_range_one_more(vs, cut as int, i as int);
            }
        }
        i = i + 1;
    }
    proof {
        assert(vs.subrange(cut as int, vs.len() as int) =~= vs.skip(cut as int));
        assert(vs.take(vs.len() as int) =~= vs);
        if cut == gs.len() {
            assert(vs.subrange(cut as int, cut as int) =~= Seq::<Seq<char>>::empty());
        }
    }
    (front, back)
}

/// Whether cluster `i` exists and begins with an alphanumeric character.
pub fn cluster_is_alphanumeric(gs: &Vec<String>, i: usize) -> (r: bool)
    ensures
        r == alnum_at(views(gs@), i as int),
{
    if i >= gs.len() {
        return false;
    }
    let g = gs[i].as_str();
    assert(g@ == views(gs@)[i as int]);
    if g.unicode_len() == 0 {
        return false;
    }
    is_alphanumeric_char(g.get_char(0))
}

/// How many single steps to the right reach the end of the next word from `x`.
pub fn distance_to_word_end(gs: &Vec<String>, x: usize) -> (r: usize)
    ensures
        r == next_word_end(views(gs@), x as int) - x,
        x <= gs.len() ==> x + r <= gs.len(),
        x > gs.len() ==> r == 0,
{
    let ghost vs = views(gs@);
    let n = gs.len();
    let mut i: usize = x;
    loop
        invariant
            x <= i,
            vs == views(gs@),
            n == vs.len(),
            i > n ==> i == x,
            x <= n ==> i <= n,
            skip_forward(vs, i as int, false) == skip_forward(vs, x as int, false),
        ensures
            x <= i,
            i > n ==> i == x,
            x <= n ==> i <= n,
            skip_forward(vs, i as int, false) == i,
            skip_forward(vs, i as int, false) == skip_forward(vs, x as int, false),
        decreases n - i,
    {
        if i >= n || cluster_is_alphanumeric(gs, i) {
            break;
        }
        i = i + 1;
    }
    let mid = i;
    loop
        invariant
            x <= mid <= i,
            vs == views(gs@),
            n == vs.len(),
            i > n ==> i == x,
            x <= n ==> i <= n,
            skip_forward(vs, mid as int, false) == mid,
            skip_forward(vs, i as int, true) == skip_forward(vs, mid as int, true),
        ensures
            x <= i,
            x <= n ==> i <= n,
            i > n ==> i == x,
            skip_forward(vs, i as int, true) == i,
            skip_forward(vs, i as int, true) == skip_forward(vs, mid as int, true),
        decreases n - i,
    {
        if i >= n || !cluster_is_alphanumeric(gs, i) {
            break;
        }
        i = i + 1;
    }
    i - x
}

/// How many single steps to the left reach the start of the previous word from `x`.
pub fn distance_to_word_start(gs: &Vec<String>, x: usize) -> (r: usize)
    ensures
        r == x - prev_word_start(views(gs@), x as int),
        r <= x,
{
    let ghost vs = views(gs@);
    let n = gs.len();
    let mut i: usize = x;
    loop
        invariant
            i <= x,
            vs == views(gs@),
            n == vs.len(),
            i > n ==> i == x,
            skip_backward(vs, i as int, false) == skip_backward(vs, x as int, false),
        ensures
            i <= x,
            i > n ==> i == x,
            skip_backward(vs, i as int, false) == i,
            skip_backward(vs, i as int, false) == skip_backward(vs, x as int, false),
        decreases i,
    {
        if i == 0 || i > n || cluster_is_alphanumeric(gs, i - 1) {
            break;
        }
        i = i - 1;
    }
    let mid = i;
    loop
        invariant
            i <= mid <= x,
            vs == views(gs@),
            n == vs.len(),
            i > n ==> i == x,
            skip_backward(vs, mid as int, false) == mid,
            skip_backward(vs, i as int, true) == skip_backward(vs, mid as int, true),
        ensures
            i <= x,
            skip_backward(vs, i as int, true) == i,
            skip_backward(vs, i as int, true) == skip_backward(vs, mid as int, true),
        decreases i,
    {
        if i == 0 || i > n || !cluster_is_alphanumeric(gs, i - 1) {
            break;
        }
        i = i - 1;
    }
    x - i
}

} // verus!
