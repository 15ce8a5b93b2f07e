//! Percent-encoding of URL query parts.
//!
//! The encoding itself is done by the `urlencoding` crate; this module gives
//! its result a name that the URL builders' contracts speak of.

use vstd::prelude::*;

verus! {

/// What `urlencoding::encode` returns for the given characters.
pub uninterp spec fn url_encoded_of(s: Seq<char>) -> Seq<char>;

/// A character the encoding keeps as it is: an ASCII letter, a digit,
/// `-`, `_`, `.` or `~`.
pub open spec fn is_unreserved(c: char) -> bool {
    ('0' <= c && c <= '9') || ('a' <= c && c <= 'z') || ('A' <= c && c <= 'Z') || c == '-' || c
        == '_' || c == '.' || c == '~'
}

/// Every character unreserved.
pub open spec fn all_unreserved(s: Seq<char>) -> bool {
    forall|i: int| 0 <= i < s.len() ==> is_unreserved(#[trigger] s[i])
}

/// Relies on `urlencoding::encode`: it percent-encodes every byte except
/// the ASCII letters, digits, `-`, `_`, `.` and `~`, which stay themselves —
/// so a string of those characters alone comes back unchanged.
#[verifier::external_body]
pub fn url_encode(s: &str) -> (r: String)
    ensures
        r@ == url_encoded_of(s@),
        all_unreserved(s@) ==> r@ == s@,
{
    urlencoding::encode(s).into_owned()
}

} // verus!
