//! Percent-encoding of query values, done by the `urlencoding` crate
//! behind a trusted wrapper.

use vstd::prelude::*;

verus! {

/// The percent-encoding of `s`: a fixed function of the text alone.
pub uninterp spec fn spec_url_encoded(s: Seq<char>) -> Seq<char>;

/// Relies on `urlencoding::encode`: the percent-encoding of `s`, which
/// leaves ASCII alphanumerics and `-`, `_`, `.`, `~` as they are and
/// encodes every other byte.
#[verifier::external_body]
pub(crate) fn url_encode(s: &str) -> (r: String)
    ensures
        r@ == spec_url_encoded(s@),
{
    urlencoding::encode(s).into_owned()
}

} // verus!
