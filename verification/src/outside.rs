//! Trusted declarations for the outside functions the adapters lean on.
//!
//! Each wrapper's contract is believed, not proved: it states no more than
//! the outside crate's own documentation and source show.

use vstd::prelude::*;

verus! {

/// The percent-encoding of a character sequence. Named, not spelled out:
/// the encoding table is the outside crate's own.
pub uninterp spec fn url_encoded(s: Seq<char>) -> Seq<char>;

/// Relies on urlencoding::encode: percent-encodes every byte except ASCII
/// alphanumerics and `-`, `_`, `.`, `~`; the result is a function of the
/// input characters alone, and an empty input stays empty.
#[verifier::external_body]
pub(crate) fn url_encode(s: &str) -> (r: String)
    ensures
        r@ == url_encoded(s@),
        s@.len() == 0 ==> r@.len() == 0,
{
    urlencoding::encode(s).into_owned()
}

/// The path component of a string parsed as an absolute URL, or nothing when
/// the string is not one. Named, not spelled out: the parse is the outside
/// crate's own.
pub uninterp spec fn url_path(s: Seq<char>) -> Option<Seq<char>>;

/// Relies on url::Url::parse and url::Url::path: parsing is deterministic in
/// the input string, and `path` reads a component of the parsed value.
#[verifier::external_body]
pub(crate) fn url_path_of(s: &str) -> (r: Option<String>)
    ensures
        match r {
            Some(p) => url_path(s@) == Some(p@),
            None => url_path(s@) is None,
        },
{
    match url::Url::parse(s) {
        Ok(u) => Some(u.path().to_string()),
        Err(_) => None,
    }
}

} // verus!
