//! The module-naming convention of the generated code.

use vstd::prelude::*;

verus! {

/// The snake-case rendering of a name: the result depends on the
/// characters of the name alone.
pub uninterp spec fn snake_of(s: Seq<char>) -> Seq<char>;

/// Relies on heck's `to_snek_case`: lowercases the name and joins its
/// words with underscores, as a pure function of the characters.
#[verifier::external_body]
pub(crate) fn snake_case(s: &str) -> (r: String)
    ensures
        r@ == snake_of(s@),
{
    heck::SnekCase::to_snek_case(s)
}

/// The upper-camel-case rendering of a name: the result depends on the
/// characters of the name alone.
pub uninterp spec fn camel_of(s: Seq<char>) -> Seq<char>;

/// Relies on heck's `to_camel_case`: capitalizes each word of the name
/// and joins them, as a pure function of the characters.
#[verifier::external_body]
pub(crate) fn camel_case(s: &str) -> (r: String)
    ensures
        r@ == camel_of(s@),
{
    heck::CamelCase::to_camel_case(s)
}

} // verus!
