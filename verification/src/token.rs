//! Tokens of the schema language.

use vstd::prelude::*;

verus! {

/// A half-open range of byte offsets into the source text.
#[derive(Debug, Clone, Copy, PartialEq, Eq, Structural)]
pub struct Span {
    pub start: usize,
    pub end: usize,
}

/// A token: its kind and the place where it stands.
#[derive(Debug, Clone, Copy, PartialEq, Eq, Structural)]
pub struct Token {
    pub span: Span,
    pub kind: TokenType,
}

/// The kinds of tokens.
#[derive(Debug, Clone, Copy, PartialEq, Eq, Structural)]
pub enum TokenType {
    // keywords
    Account,
    Accounts,
    Contract,
    Init,
    Instruction,
    Message,
    Mutable,
    // types
    Bool,
    Option,
    Signer,
    Str,
    U64,
    U8,
    // runs of characters
    Identifer,
    Intager,
    // punctuation
    Comma,
    Assign,
    Colon,
    SimiColon,
    LParam,
    RParam,
    LBrace,
    RBrace,
    LBracket,
    RBracket,
    /// A character that starts no token.
    InvalidChar(char),
}

} // verus!
