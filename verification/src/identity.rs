//! Device identity: a probe response is accepted when it contains one of the
//! configured identity markers.

use vstd::prelude::*;

verus! {

/// `needle` occurs in `text` as a run of consecutive characters.
pub open spec fn occurs_in(needle: Seq<char>, text: Seq<char>) -> bool {
    exists|at: int|
        0 <= at && at + needle.len() <= text.len() && #[trigger] text.subrange(
            at,
            at + needle.len(),
        ) == needle
}

/// The character sequences of a list of strings.
pub open spec fn texts_of(strings: Seq<String>) -> Seq<Seq<char>> {
    strings.map_values(|s: String| s@)
}

/// `response` contains at least one of `markers`.
pub open spec fn accepted(response: Seq<char>, markers: Seq<Seq<char>>) -> bool {
    exists|k: int| 0 <= k < markers.len() && occurs_in(#[trigger] markers[k], response)
}

/// The text that lossy UTF-8 decoding makes of `bytes`: valid sequences
/// decoded, invalid ones replaced by U+FFFD.
pub uninterp spec fn utf8_lossy(bytes: Seq<u8>) -> Seq<char>;

/// Calls `String::from_utf8_lossy`. Trusted: the result is the lossy decoding
/// of the bytes, a function of the bytes alone, which is given a name and
/// not spelled out.
#[verifier::external_body]
pub(crate) fn decode_lossy(bytes: &[u8]) -> (text: String)
    ensures
        text@ == utf8_lossy(bytes@),
{
    String::from_utf8_lossy(bytes).into_owned()
}

/// Calls `str::contains` with a string pattern. Trusted: it returns whether
/// the pattern matches a sub-slice of the text, which for a string pattern is
/// an occurrence of its characters in a row.
#[verifier::external_body]
pub(crate) fn text_contains(text: &str, needle: &str) -> (found: bool)
    ensures
        found == occurs_in(needle@, text@),
{
    text.contains(needle)
}

/// Whether `response` contains one of `markers`.
pub fn matches_identity(response: &str, markers: &Vec<String>) -> (found: bool)
    ensures
        found == accepted(response@, texts_of(markers@)),
{
    let ghost texts = texts_of(markers@);
    let mut k: usize = 0;
    while k < markers.len()
        invariant
            k <= markers.len(),
            texts == texts_of(markers@),
            forall|j: int| 0 <= j < k ==> !occurs_in(#[trigger] texts[j], response@),
        decreases markers.len() - k,
    {
        if text_contains(response, markers[k].as_str()) {
            assert(occurs_in(texts[k as int], response@));
            return true;
        }
        k += 1;
    }
    false
}

} // verus!
