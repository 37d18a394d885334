//! Grapheme-cluster segmentation of candidate strings. Candidates are
//! measured and split by grapheme clusters, not bytes, so that multi-byte
//! look-alike digits are rejected rather than miscounted.

use crate::text::{digit_val, is_digit_char};
use unicode_segmentation::UnicodeSegmentation;
use vstd::prelude::*;

verus! {

/// The grapheme clusters of a character sequence, in order, as
/// unicode_segmentation's extended grapheme clusters (UAX #29) give them.
pub uninterp spec fn graphemes_of(s: Seq<char>) -> Seq<Seq<char>>;

/// Relies on unicode_segmentation's `UnicodeSegmentation::graphemes` with
/// `is_extended = true`: the segmentation into extended grapheme clusters of
/// UAX #29 depends on the characters alone, and a string made only of ASCII
/// digits has a boundary between every two characters, so it splits into one
/// single-character cluster per digit.
#[verifier::external_body]
pub fn grapheme_clusters(s: &str) -> (r: Vec<String>)
    ensures
        r.deep_view() == graphemes_of(s@),
        (forall|i: int| 0 <= i < s@.len() ==> is_digit_char(s@[i])) ==> r.deep_view() =~~= Seq::new(
            s@.len(),
            |i: int| seq![s@[i]],
        ),
{
    s.graphemes(true).map(|g| g.to_string()).collect()
}

/// Whether a grapheme cluster is a single ASCII decimal digit.
pub open spec fn grapheme_is_digit(g: Seq<char>) -> bool {
    g.len() == 1 && is_digit_char(g[0])
}

/// The value of a single-digit grapheme cluster.
pub open spec fn grapheme_val(g: Seq<char>) -> u8
    recommends
        grapheme_is_digit(g),
{
    digit_val(g[0]) as u8
}

/// Reads a grapheme cluster as a decimal digit: a cluster that is exactly one
/// ASCII digit character gives its value, any other cluster gives nothing.
pub fn grapheme_digit(g: &str) -> (r: Option<u8>)
    ensures
        grapheme_is_digit(g@) ==> r == Some(grapheme_val(g@)),
        !grapheme_is_digit(g@) ==> r is None,
        r matches Some(d) ==> d < 10,
{
    if g.unicode_len() != 1 {
        return None;
    }
    let c = g.get_char(0);
    let u = c as u32;
    if 48 <= u && u <= 57 {
        Some((u - 48) as u8)
    } else {
        None
    }
}

} // verus!
