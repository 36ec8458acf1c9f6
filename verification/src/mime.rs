//! Media-type lookup by file extension.
//!
//! The lookup itself is a fixed table keyed by the extension alone, case
//! insensitively; it lives in an outside crate and is named here rather
//! than restated.

use vstd::prelude::*;

verus! {

/// The first media type that the lookup table holds for the given file
/// extension, as text, or nothing when the table holds none. The result is
/// a function of the extension alone.
pub uninterp spec fn mime_first_of(ext: Seq<char>) -> Option<Seq<char>>;

/// Relies on `mime_guess::from_ext` followed by `MimeGuess::first`: a
/// lookup in a fixed table keyed by the extension alone, whose result is
/// rendered as text; an empty extension has no known media type.
#[verifier::external_body]
pub(crate) fn mime_lookup(ext: &str) -> (r: Option<String>)
    ensures
        r is Some <==> mime_first_of(ext@) is Some,
        r matches Some(m) ==> mime_first_of(ext@) == Some(m@),
        ext@.len() == 0 ==> r is None,
{
    mime_guess::from_ext(ext).first().map(|m| m.to_string())
}

} // verus!
