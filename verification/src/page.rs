//! The one decision of the page server: whether a request asks for the
//! page.

use vstd::prelude::*;

verus! {

/// Whether `request` asks for the page at `/`: it begins with `GET / `.
pub open spec fn asks_for_page(request: Seq<char>) -> bool {
    "GET / "@.is_prefix_of(request)
}

/// Tells with `str::starts_with` whether `text` begins with `prefix`.
#[verifier::external_body]
fn starts_with(text: &str, prefix: &str) -> (r: bool)
    ensures
        r == prefix@.is_prefix_of(text@),
{
    text.starts_with(prefix)
}

/// Whether `request` asks for the page at `/`.
pub fn wants_page(request: &str) -> (r: bool)
    ensures
        r == asks_for_page(request@),
{
    starts_with(request, "GET / ")
}

} // verus!
