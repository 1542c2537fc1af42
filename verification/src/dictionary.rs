//! The bundled offline dictionary: how a spelling is looked up in it.
//!
//! The dictionary itself is a read-only database opened by the caller. Lookup
//! is by exact spelling, case-insensitively: the typed spelling is trimmed and
//! lowercased, the way every entry in it is stored.
use vstd::prelude::*;

use crate::text::{trim, trimmed};

verus! {

/// What `str::to_lowercase` makes of a text.
pub uninterp spec fn lowercase(s: Seq<char>) -> Seq<char>;

/// `s` lowercased, by std's `str::to_lowercase`. The contract claims only
/// that the result is `lowercase` of `s`.
#[verifier::external_body]
fn lowered(s: &str) -> (l: String)
    ensures
        l@ == lowercase(s@),
{
    s.to_lowercase()
}

/// The key `spelling` is looked up by: trimmed, then lowercased.
pub fn lookup_key(spelling: &str) -> (key: String)
    ensures
        key@ == lowercase(trimmed(spelling@)),
{
    let t = trim(spelling);
    lowered(t.as_str())
}

} // verus!
