//! A schema compiler for on-chain programs: it lexes and parses a contract
//! description, validates it, derives the binary tags of its instructions and
//! accounts, and generates the source of a dispatcher, typed account loaders
//! and data records. A small parser for program logs sits beside it.

pub mod ast;
pub mod codegen;
pub mod config;
pub mod discriminator;
pub mod emit;
pub mod error;
pub mod generate;
pub mod lexer;
pub mod lower;
pub mod my_idl;
pub mod names;
pub mod order;
pub mod parse;
pub mod parsed_log;
pub mod raw_log;
pub mod structured_log;
pub mod text;
pub mod token;
