//! Calls into outside crates, each behind a contract that the crate's
//! documentation and source support.
use vstd::prelude::*;

verus! {

/// What sanitizing a file name yields; it depends on the name alone.
pub uninterp spec fn sanitized(name: Seq<char>) -> Seq<char>;

/// Relies on `sanitize_filename::sanitize_with_options`, with the options of
/// a non-Windows host (the platform an instance host runs on): illegal
/// characters (among them `/`, `\` and `:`) are removed, so an empty name
/// stays empty and no separator survives.
#[verifier::external_body]
pub(crate) fn sanitize_name(name: &str) -> (r: String)
    ensures
        r@ == sanitized(name@),
        name@.len() == 0 ==> r@.len() == 0,
        forall|i: int| 0 <= i < r@.len() ==> #[trigger] r@[i] != '/' && r@[i] != '\\' && r@[i] != ':',
{
    sanitize_filename::sanitize_with_options(
        name,
        sanitize_filename::Options { windows: false, truncate: true, replacement: "" },
    )
}

/// Relies on `uuid::Uuid::new_v4` and its hyphenated text form (`Display`
/// goes through `LowerHex` of the hyphenated form): a fresh random
/// identifier of 36 characters, of which nothing else is promised.
#[verifier::external_body]
pub(crate) fn new_uuid() -> (r: String)
    ensures
        r@.len() == 36,
{
    uuid::Uuid::new_v4().to_string()
}

} // verus!
