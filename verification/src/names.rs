//! The names of generated items.

use vstd::prelude::*;
use vstd::string::*;
use convert_case::Casing;
use crate::text::{char_is_alpha, char_is_ident, chars_of, is_alpha, is_ident_char, str_eq};

verus! {

/// The cases that generated names are written in.
#[derive(Debug, Clone, Copy, PartialEq, Eq, Structural)]
pub enum NameCase {
    /// `snake_case`: fields, functions and local names.
    Snake,
    /// `PascalCase`: types and traits.
    Pascal,
    /// `CONSTANT_CASE`: constants.
    Constant,
}

/// `s` written in the case `case`.
pub uninterp spec fn case_converted(s: Seq<char>, case: NameCase) -> Seq<char>;

/// `convert_case::Casing::to_case`: `s` split into words at the crate's
/// default boundaries and joined again in the pattern and with the delimiter
/// of the case.
#[verifier::external_body]
pub(crate) fn to_case(s: &str, case: NameCase) -> (r: String)
    ensures
        r@ == case_converted(s@, case),
{
    s.to_case(
        match case {
            NameCase::Snake => convert_case::Case::Snake,
            NameCase::Pascal => convert_case::Case::Pascal,
            NameCase::Constant => convert_case::Case::Constant,
        },
    )
}

/// The name of the constant for `s`.
pub open spec fn const_name(s: Seq<char>) -> Seq<char> {
    case_converted(s, NameCase::Constant)
}

/// The name of the field, function or local for `s`.
pub open spec fn field_name(s: Seq<char>) -> Seq<char> {
    case_converted(s, NameCase::Snake)
}

/// The name of the type for `s`; with `append`, the type for `s` that the
/// word `append` qualifies.
pub open spec fn struct_name(s: Seq<char>, append: Option<Seq<char>>) -> Seq<char> {
    match append {
        Some(a) => case_converted(
            case_converted(s, NameCase::Snake) + "_"@ + case_converted(a, NameCase::Snake),
            NameCase::Pascal,
        ),
        None => case_converted(s, NameCase::Pascal),
    }
}

/// The name of the constant for `s`.
pub fn str_to_const_name(s: &str) -> (r: String)
    ensures
        r@ == const_name(s@),
{
    to_case(s, NameCase::Constant)
}

/// The name of the field, function or local for `s`.
pub fn str_to_field_name(s: &str) -> (r: String)
    ensures
        r@ == field_name(s@),
{
    to_case(s, NameCase::Snake)
}

/// The name of the type for `s`; with `append`, the type for `s` that the
/// word `append` qualifies.
pub fn str_to_struct_name(s: &str, append: Option<&str>) -> (r: String)
    ensures
        r@ == struct_name(
            s@,
            match append {
                Some(a) => Some(a@),
                None => None,
            },
        ),
{
    match append {
        Some(a) => {
            let joined = to_case(s, NameCase::Snake).concat("_").concat(
                to_case(a, NameCase::Snake).as_str(),
            );
            to_case(joined.as_str(), NameCase::Pascal)
        },
        None => to_case(s, NameCase::Pascal),
    }
}

/// Whether `s` is a word that the language keeps for itself, in use or in
/// reserve, and so cannot name anything.
pub open spec fn is_keyword(s: Seq<char>) -> bool {
    ||| s == "abstract"@
    ||| s == "as"@
    ||| s == "async"@
    ||| s == "await"@
    ||| s == "become"@
    ||| s == "box"@
    ||| s == "break"@
    ||| s == "const"@
    ||| s == "continue"@
    ||| s == "crate"@
    ||| s == "do"@
    ||| s == "dyn"@
    ||| s == "else"@
    ||| s == "enum"@
    ||| s == "extern"@
    ||| s == "false"@
    ||| s == "final"@
    ||| s == "fn"@
    ||| s == "for"@
    ||| s == "if"@
    ||| s == "impl"@
    ||| s == "in"@
    ||| s == "let"@
    ||| s == "loop"@
    ||| s == "macro"@
    ||| s == "match"@
    ||| s == "mod"@
    ||| s == "move"@
    ||| s == "mut"@
    ||| s == "override"@
    ||| s == "priv"@
    ||| s == "pub"@
    ||| s == "ref"@
    ||| s == "return"@
    ||| s == "Self"@
    ||| s == "self"@
    ||| s == "static"@
    ||| s == "struct"@
    ||| s == "super"@
    ||| s == "trait"@
    ||| s == "true"@
    ||| s == "try"@
    ||| s == "type"@
    ||| s == "typeof"@
    ||| s == "unsafe"@
    ||| s == "unsized"@
    ||| s == "use"@
    ||| s == "virtual"@
    ||| s == "where"@
    ||| s == "while"@
    ||| s == "yield"@
}

/// Whether `s` can stand as an identifier in generated source: a letter or
/// `_` first, then letters, digits and `_`, more than a lone `_`, and no
/// keyword.
pub open spec fn is_identifier(s: Seq<char>) -> bool {
    &&& s.len() > 0
    &&& is_alpha(s[0]) || s[0] == '_'
    &&& forall|i: int| 0 <= i < s.len() ==> is_ident_char(#[trigger] s[i])
    &&& s != seq!['_']
    &&& !is_keyword(s)
}

/// Whether `s` is a keyword.
pub fn check_keyword(s: &str) -> (r: bool)
    ensures
        r == is_keyword(s@),
{
    str_eq(s, "abstract")
        || str_eq(s, "as")
        || str_eq(s, "async")
        || str_eq(s, "await")
        || str_eq(s, "become")
        || str_eq(s, "box")
        || str_eq(s, "break")
        || str_eq(s, "const")
        || str_eq(s, "continue")
        || str_eq(s, "crate")
        || str_eq(s, "do")
        || str_eq(s, "dyn")
        || str_eq(s, "else")
        || str_eq(s, "enum")
        || str_eq(s, "extern")
        || str_eq(s, "false")
        || str_eq(s, "final")
        || str_eq(s, "fn")
        || str_eq(s, "for")
        || str_eq(s, "if")
        || str_eq(s, "impl")
        || str_eq(s, "in")
        || str_eq(s, "let")
        || str_eq(s, "loop")
        || str_eq(s, "macro")
        || str_eq(s, "match")
        || str_eq(s, "mod")
        || str_eq(s, "move")
        || str_eq(s, "mut")
        || str_eq(s, "override")
        || str_eq(s, "priv")
        || str_eq(s, "pub")
        || str_eq(s, "ref")
        || str_eq(s, "return")
        || str_eq(s, "Self")
        || str_eq(s, "self")
        || str_eq(s, "static")
        || str_eq(s, "struct")
        || str_eq(s, "super")
        || str_eq(s, "trait")
        || str_eq(s, "true")
        || str_eq(s, "try")
        || str_eq(s, "type")
        || str_eq(s, "typeof")
        || str_eq(s, "unsafe")
        || str_eq(s, "unsized")
        || str_eq(s, "use")
        || str_eq(s, "virtual")
        || str_eq(s, "where")
        || str_eq(s, "while")
        || str_eq(s, "yield")
}

/// Whether `s` can stand as an identifier in generated source.
pub fn check_identifier(s: &str) -> (r: bool)
    ensures
        r == is_identifier(s@),
{
    let v = chars_of(s);
    let n: usize = v.len();
    if n == 0 {
        return false;
    }
    if !(char_is_alpha(v[0]) || v[0] == '_') {
        return false;
    }
    if n == 1 && v[0] == '_' {
        assert(v@ =~= seq!['_']);
        return false;
    }
    let mut i: usize = 0;
    while i < n
        invariant
            n == v@.len(),
            v@ == s@,
            i <= n,
            forall|k: int| 0 <= k < i ==> is_ident_char(#[trigger] v@[k]),
        decreases n - i,
    {
        if !char_is_ident(v[i]) {
            return false;
        }
        i = i + 1;
    }
    assert(v@ != seq!['_']) by {
        if v@ == seq!['_'] {
            assert(seq!['_'].len() == 1);
        }
    }
    !check_keyword(s)
}

} // verus!
