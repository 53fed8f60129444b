//! Grapheme clusters: what a reader would call the letters of a text, as
//! opposed to its `char` scalar values.

use vstd::prelude::*;

verus! {

/// The extended grapheme clusters of a text, in order. What a cluster is
/// takes the Unicode segmentation rules to state; the division depends on
/// the characters alone.
pub uninterp spec fn grapheme_split(s: Seq<char>) -> Seq<Seq<char>>;

/// Relies on unicode_segmentation's `UnicodeSegmentation::graphemes` (in
/// extended mode): the pieces are the extended grapheme clusters of the
/// text, and concatenated they give the text back.
#[verifier::external_body]
fn grapheme_pieces(s: &str) -> (r: Vec<String>)
    ensures
        r.deep_view() == grapheme_split(s@),
        r.deep_view().flatten() == s@,
{
    unicode_segmentation::UnicodeSegmentation::graphemes(s, true)
        .map(|g| g.to_string())
        .collect()
}

/// How many grapheme clusters the text has: how many letters a reader
/// would count, not how many scalar values it stores.
pub fn cluster_count(s: &str) -> (r: usize)
    ensures
        r == grapheme_split(s@).len(),
{
    let pieces = grapheme_pieces(s);
    proof {
        assert(pieces.deep_view().len() == pieces@.len());
    }
    pieces.len()
}

} // verus!
