//! Identifier case conversions (PascalCase, snake_case, camelCase,
//! kebab-case) as `convert_case` performs them.

use vstd::prelude::*;

use convert_case::{Case, Casing};

verus! {

/// `convert_case`'s PascalCase of a text.
pub uninterp spec fn pascal_case(s: Seq<char>) -> Seq<char>;

/// `convert_case`'s snake_case of a text.
pub uninterp spec fn snake_case(s: Seq<char>) -> Seq<char>;

/// `convert_case`'s camelCase of a text.
pub uninterp spec fn camel_case(s: Seq<char>) -> Seq<char>;

/// `convert_case`'s kebab-case of a text.
pub uninterp spec fn kebab_case(s: Seq<char>) -> Seq<char>;

/// `Casing::to_case(Case::Pascal)`: splits the text into words at the
/// default boundaries and joins them capitalized. Only that the result is a
/// function of the text is stated.
#[verifier::external_body]
pub(crate) fn to_pascal(s: &str) -> (r: String)
    ensures
        r@ == pascal_case(s@),
{
    s.to_case(Case::Pascal)
}

/// `Casing::to_case(Case::Snake)`: lowercase words joined by `_`. Only that
/// the result is a function of the text is stated.
#[verifier::external_body]
pub(crate) fn to_snake(s: &str) -> (r: String)
    ensures
        r@ == snake_case(s@),
{
    s.to_case(Case::Snake)
}

/// `Casing::to_case(Case::Camel)`: like PascalCase with a lowercase first
/// word. Only that the result is a function of the text is stated.
#[verifier::external_body]
pub(crate) fn to_camel(s: &str) -> (r: String)
    ensures
        r@ == camel_case(s@),
{
    s.to_case(Case::Camel)
}

/// `Casing::to_case(Case::Kebab)`: lowercase words joined by `-`. Only that
/// the result is a function of the text is stated.
#[verifier::external_body]
pub(crate) fn to_kebab(s: &str) -> (r: String)
    ensures
        r@ == kebab_case(s@),
{
    s.to_case(Case::Kebab)
}

} // verus!
