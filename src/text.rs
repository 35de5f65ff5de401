//! Grapheme clusters and the character classes that the editor relies on.
use unicode_segmentation::UnicodeSegmentation;
use vstd::prelude::*;

verus! {

/// The extended grapheme clusters of a text, in order.
pub uninterp spec fn graphemes_of(s: Seq<char>) -> Seq<Seq<char>>;

/// Whether a character is alphabetic or numeric in the Unicode sense.
pub uninterp spec fn alphanumeric(c: char) -> bool;

/// The texts of a sequence of strings.
pub open spec fn views(v: Seq<String>) -> Seq<Seq<char>> {
    v.map_values(|s: String| s@)
}

/// A text whose clusters are non-empty and spell the text out again.
pub open spec fn segmented(t: Seq<char>) -> bool {
    &&& graphemes_of(t).flatten() == t
    &&& forall|i: int| 0 <= i < graphemes_of(t).len() ==> (#[trigger] graphemes_of(t)[i]).len() > 0
}

/// Number of grapheme clusters in a text.
pub open spec fn grapheme_count(t: Seq<char>) -> nat {
    graphemes_of(t).len()
}

/// Relies on `UnicodeSegmentation::graphemes` with extended clusters: it yields
/// consecutive non-empty slices of the text which together make up the text.
#[verifier::external_body]
pub(crate) fn split_graphemes(s: &str) -> (r: Vec<String>)
    ensures
        views(r@) == graphemes_of(s@),
        views(r@).flatten() == s@,
        forall|i: int| 0 <= i < r@.len() ==> (#[trigger] r@[i])@.len() > 0,
{
    s.graphemes(true).map(String::from).collect()
}

/// Relies on `char::is_alphanumeric`.
#[verifier::external_body]
pub(crate) fn is_alphanumeric_char(c: char) -> (r: bool)
    ensures
        r == alphanumeric(c),
{
    c.is_alphanumeric()
}

/// Relies on `String::push`: the character is added at the end.
pub assume_specification[ String::push ](s: &mut String, ch: char)
    ensures
        final(s)@ == old(s)@.push(ch),
;

/// Splits a text into its grapheme clusters.
pub fn graphemes(s: &str) -> (r: Vec<String>)
    ensures
        views(r@) == graphemes_of(s@),
        segmented(s@),
{
    let r = split_graphemes(s);
    proof {
        assert forall|i: int| 0 <= i < graphemes_of(s@).len() implies (
        #[trigger] graphemes_of(s@)[i]).len() > 0 by {
            assert(views(r@)[i] == r@[i]@);
        }
    }
    r
}

} // verus!
