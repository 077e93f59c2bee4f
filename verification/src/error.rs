//! The errors of the compiler.

use vstd::prelude::*;
use vstd::string::*;
use crate::text::string_from_chars;

verus! {

/// Why a schema was rejected.
#[derive(Debug, Clone, PartialEq, Eq)]
pub enum SolGenError {
    /// A token of another kind was expected: the expected and the found.
    ExpectedToken(String, String),
    /// A number that does not fit the width of an id; it carries the digits.
    ParseInt(String),
    /// A character that starts no token.
    InvalidChar(char),
    /// A second `contract` block.
    DuplicateContract,
    /// No `contract` block.
    MissingContract,
    /// Two accounts of one instruction share an id: the instruction and the
    /// second of the two accounts.
    DuplicateId(String, String),
    /// An account is created and also mutable or signed: the instruction and
    /// the account.
    ContradictoryFlags(String, String),
    /// An account's payload type is not declared: the instruction, the account
    /// and the type.
    UndefinedType(String, String, String),
    /// A field of a type for which nothing can be generated: the record and
    /// the field.
    UnsupportedType(String, String),
    /// An entry of an account list with the number 0: the list and the entry.
    ZeroNumber(String, String),
    /// An instruction names an account list that is not declared: the
    /// instruction and the list.
    UndefinedAccounts(String, String),
    /// The tags cannot be as wide as asked; it carries the width.
    DiscriminatorSize(usize),
    /// A generated name that cannot stand as an identifier.
    InvalidName(String),
    /// The generated source is not valid syntax.
    Codegen,
}

/// What a [`SolGenError`] holds, as plain values.
pub ghost enum SolGenErrorView {
    ExpectedToken(Seq<char>, Seq<char>),
    ParseInt(Seq<char>),
    InvalidChar(char),
    DuplicateContract,
    MissingContract,
    DuplicateId(Seq<char>, Seq<char>),
    ContradictoryFlags(Seq<char>, Seq<char>),
    UndefinedType(Seq<char>, Seq<char>, Seq<char>),
    UnsupportedType(Seq<char>, Seq<char>),
    ZeroNumber(Seq<char>, Seq<char>),
    UndefinedAccounts(Seq<char>, Seq<char>),
    DiscriminatorSize(usize),
    InvalidName(Seq<char>),
    Codegen,
}

impl View for SolGenError {
    type V = SolGenErrorView;

    open spec fn view(&self) -> SolGenErrorView {
        match self {
            SolGenError::ExpectedToken(a, b) => SolGenErrorView::ExpectedToken(a@, b@),
            SolGenError::ParseInt(a) => SolGenErrorView::ParseInt(a@),
            SolGenError::InvalidChar(c) => SolGenErrorView::InvalidChar(*c),
            SolGenError::DuplicateContract => SolGenErrorView::DuplicateContract,
            SolGenError::MissingContract => SolGenErrorView::MissingContract,
            SolGenError::DuplicateId(a, b) => SolGenErrorView::DuplicateId(a@, b@),
            SolGenError::ContradictoryFlags(a, b) => SolGenErrorView::ContradictoryFlags(a@, b@),
            SolGenError::UndefinedType(a, b, c) => SolGenErrorView::UndefinedType(a@, b@, c@),
            SolGenError::UnsupportedType(a, b) => SolGenErrorView::UnsupportedType(a@, b@),
            SolGenError::ZeroNumber(a, b) => SolGenErrorView::ZeroNumber(a@, b@),
            SolGenError::UndefinedAccounts(a, b) => SolGenErrorView::UndefinedAccounts(a@, b@),
            SolGenError::DiscriminatorSize(n) => SolGenErrorView::DiscriminatorSize(*n),
            SolGenError::InvalidName(a) => SolGenErrorView::InvalidName(a@),
            SolGenError::Codegen => SolGenErrorView::Codegen,
        }
    }
}

/// The text of an error, as it is shown to the user.
pub open spec fn error_text(e: SolGenErrorView) -> Seq<char> {
    match e {
        SolGenErrorView::ExpectedToken(a, b) => "expected "@ + a + " found "@ + b,
        SolGenErrorView::ParseInt(a) => "number too large to fit in target type: "@ + a,
        SolGenErrorView::InvalidChar(c) => "invalid char '"@ + seq![c] + "'"@,
        SolGenErrorView::DuplicateContract => "Only a single contract can be defined"@,
        SolGenErrorView::MissingContract => "A contract must be defined"@,
        SolGenErrorView::DuplicateId(a, b) => "duplicate id in "@ + a + " accounts("@ + b + ")"@,
        SolGenErrorView::ContradictoryFlags(a, b) => "id("@ + a + ") account("@ + b
            + ") cant be create and mutable or signed"@,
        SolGenErrorView::UndefinedType(a, b, c) => "id("@ + a + ") account("@ + b + ") type "@ + c
            + " not defined"@,
        SolGenErrorView::UnsupportedType(a, b) => "type of "@ + a + "."@ + b
            + " is not supported"@,
        SolGenErrorView::ZeroNumber(a, b) => "number of "@ + a + "."@ + b + " must not be 0"@,
        SolGenErrorView::UndefinedAccounts(a, b) => "id("@ + a + ") accounts "@ + b
            + " not defined"@,
        SolGenErrorView::DiscriminatorSize(_) => "discriminator size is larger than the digest"@,
        SolGenErrorView::InvalidName(a) => "invalid name "@ + a,
        SolGenErrorView::Codegen => "failed to parse token stream"@,
    }
}

impl SolGenError {
    /// The text of the error.
    pub fn message(&self) -> (r: String)
        ensures
            r@ == error_text(self@),
    {
        match self {
            SolGenError::ExpectedToken(a, b) => {
                String::from_str("expected ").concat(a.as_str()).concat(" found ").concat(
                    b.as_str(),
                )
            },
            SolGenError::ParseInt(a) => {
                String::from_str("number too large to fit in target type: ").concat(a.as_str())
            },
            SolGenError::InvalidChar(c) => {
                let mut v: Vec<char> = Vec::new();
                v.push(*c);
                let s = string_from_chars(&v);
                assert(s@ =~= seq![*c]);
                String::from_str("invalid char '").concat(s.as_str()).concat("'")
            },
            SolGenError::DuplicateContract => String::from_str(
                "Only a single contract can be defined",
            ),
            SolGenError::MissingContract => String::from_str("A contract must be defined"),
            SolGenError::DuplicateId(a, b) => {
                String::from_str("duplicate id in ").concat(a.as_str()).concat(" accounts(").concat(
                    b.as_str(),
                ).concat(")")
            },
            SolGenError::ContradictoryFlags(a, b) => {
                String::from_str("id(").concat(a.as_str()).concat(") account(").concat(
                    b.as_str(),
                ).concat(") cant be create and mutable or signed")
            },
            SolGenError::UndefinedType(a, b, c) => {
                String::from_str("id(").concat(a.as_str()).concat(") account(").concat(
                    b.as_str(),
                ).concat(") type ").concat(c.as_str()).concat(" not defined")
            },
            SolGenError::UnsupportedType(a, b) => {
                String::from_str("type of ").concat(a.as_str()).concat(".").concat(
                    b.as_str(),
                ).concat(" is not supported")
            },
            SolGenError::ZeroNumber(a, b) => {
                String::from_str("number of ").concat(a.as_str()).concat(".").concat(
                    b.as_str(),
                ).concat(" must not be 0")
            },
            SolGenError::UndefinedAccounts(a, b) => {
                String::from_str("id(").concat(a.as_str()).concat(") accounts ").concat(
                    b.as_str(),
                ).concat(" not defined")
            },
            SolGenError::DiscriminatorSize(_) => String::from_str(
                "discriminator size is larger than the digest",
            ),
            SolGenError::InvalidName(a) => String::from_str("invalid name ").concat(a.as_str()),
            SolGenError::Codegen => String::from_str("failed to parse token stream"),
        }
    }
}

} // verus!
