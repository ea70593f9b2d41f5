use convert_case::{Case, Casing};
use vstd::prelude::*;

verus! {

/// The case conventions that text can be converted to.
pub enum TextCase {
    Upper,
    Lower,
    Title,
    Alternating,
    Camel,
    Pascal,
    Snake,
    ScreamingSnake,
    Kebab,
}

/// The text converted to a case convention: split into words at the default
/// boundaries, each word cased, then joined with the convention's delimiter.
pub uninterp spec fn cased(s: Seq<char>, case: TextCase) -> Seq<char>;

/// Relies on `Casing::to_case` of convert_case: the result depends on the
/// text and the case alone.
#[verifier::external_body]
fn to_case(text: &str, case: TextCase) -> (r: String)
    ensures
        r@ == cased(text@, case),
{
    let case = match case {
        TextCase::Upper => Case::Upper,
        TextCase::Lower => Case::Lower,
        TextCase::Title => Case::Title,
        TextCase::Alternating => Case::Alternating,
        TextCase::Camel => Case::Camel,
        TextCase::Pascal => Case::Pascal,
        TextCase::Snake => Case::Snake,
        TextCase::ScreamingSnake => Case::ScreamingSnake,
        TextCase::Kebab => Case::Kebab,
    };
    text.to_case(case)
}

/// `text` in UPPER CASE, words separated by spaces.
pub fn upper(text: &str) -> (r: String)
    ensures
        r@ == cased(text@, TextCase::Upper),
{
    to_case(text, TextCase::Upper)
}

/// `text` in lower case, words separated by spaces.
pub fn lower(text: &str) -> (r: String)
    ensures
        r@ == cased(text@, TextCase::Lower),
{
    to_case(text, TextCase::Lower)
}

/// `text` in Title Case.
pub fn title(text: &str) -> (r: String)
    ensures
        r@ == cased(text@, TextCase::Title),
{
    to_case(text, TextCase::Title)
}

/// `text` in aLtErNaTiNg cAsE.
pub fn alternating(text: &str) -> (r: String)
    ensures
        r@ == cased(text@, TextCase::Alternating),
{
    to_case(text, TextCase::Alternating)
}

/// `text` in camelCase.
pub fn camel(text: &str) -> (r: String)
    ensures
        r@ == cased(text@, TextCase::Camel),
{
    to_case(text, TextCase::Camel)
}

/// `text` in PascalCase.
pub fn pascal(text: &str) -> (r: String)
    ensures
        r@ == cased(text@, TextCase::Pascal),
{
    to_case(text, TextCase::Pascal)
}

/// `text` in snake_case.
pub fn snake(text: &str) -> (r: String)
    ensures
        r@ == cased(text@, TextCase::Snake),
{
    to_case(text, TextCase::Snake)
}

/// `text` in SCREAMING_SNAKE_CASE.
pub fn screaming(text: &str) -> (r: String)
    ensures
        r@ == cased(text@, TextCase::ScreamingSnake),
{
    to_case(text, TextCase::ScreamingSnake)
}

/// `text` in kebab-case.
pub fn kebab(text: &str) -> (r: String)
    ensures
        r@ == cased(text@, TextCase::Kebab),
{
    to_case(text, TextCase::Kebab)
}

} // verus!
