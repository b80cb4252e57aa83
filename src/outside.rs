use vstd::prelude::*;

verus! {

/// Whether a text is a well-formed Rust path, as `syn::parse_str::<syn::Path>`
/// decides it.
pub uninterp spec fn is_path_text(s: Seq<char>) -> bool;

/// The snake-case form of an identifier, as Inflector's `to_snake_case` gives it.
pub uninterp spec fn snake_of(s: Seq<char>) -> Seq<char>;

/// Relies on `syn::parse_str::<syn::Path>`: whether it succeeds depends on the
/// text alone.
#[verifier::external_body]
pub(crate) fn parses_as_path(s: &str) -> (r: bool)
    ensures
        r == is_path_text(s@),
{
    syn::parse_str::<syn::Path>(s).is_ok()
}

/// Relies on `inflector::cases::snakecase::to_snake_case`: the result depends on
/// the characters alone.
#[verifier::external_body]
pub(crate) fn snake_case(s: &str) -> (r: String)
    ensures
        r@ == snake_of(s@),
{
    inflector::cases::snakecase::to_snake_case(s)
}

} // verus!
