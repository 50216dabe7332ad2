//! Derived identifiers: the dispatch construct's name and the field names
//! of generated tables, both built from a declared identifier by snake-case
//! folding.

use vstd::prelude::*;
use vstd::string::StringExecFns;

verus! {

/// What snake-case folding makes of a string of characters; the result
/// depends on the characters alone.
pub uninterp spec fn snake_of(s: Seq<char>) -> Seq<char>;

/// Relies on convert_case's `Casing::to_case` with the snake case: a pure
/// function from the characters of its receiver to a freshly built string.
#[verifier::external_body]
fn to_snake_case(s: &str) -> (r: String)
    ensures
        r@ == snake_of(s@),
{
    convert_case::Casing::to_case(&s, convert_case::Case::Snake)
}

/// The name of the generated dispatch construct for a sum type: its
/// identifier folded to snake case, after a fixed prefix.
pub fn delegate_macro_ident(enum_ident: &String) -> (r: String)
    ensures
        r@ == "delegate_"@ + snake_of(enum_ident@),
{
    let mut out: String = "delegate_".to_owned();
    let snake = to_snake_case(enum_ident.as_str());
    out.append(snake.as_str());
    out
}

/// The field a variant owns in a generated table: the variant's identifier
/// folded to snake case.
pub fn var_to_field_ident(ident: &String) -> (r: String)
    ensures
        r@ == snake_of(ident@),
{
    to_snake_case(ident.as_str())
}

} // verus!
