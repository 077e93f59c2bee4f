//! The syntax tree of a schema.

use vstd::prelude::*;
use vstd::string::*;
use crate::text::views;
use crate::token::Span;

verus! {

/// A name in the source, with its place.
#[derive(Debug, PartialEq, Eq)]
pub struct Identifer<'a> {
    pub span: Span,
    pub value: &'a str,
}

/// What a [`Identifer`] holds, as plain values.
pub ghost struct IdentiferView {
    pub span: Span,
    pub value: Seq<char>,
}

impl<'a> View for Identifer<'a> {
    type V = IdentiferView;

    open spec fn view(&self) -> IdentiferView {
        IdentiferView { span: self.span, value: self.value@ }
    }
}

/// The type of a field.
#[derive(Debug, PartialEq, Eq)]
pub enum Type {
    Bool,
    U8,
    U64,
    F32,
    F64,
    Str(Str),
    Arr(Arr),
}

/// A string of at most `max` bytes.
#[derive(Debug, PartialEq, Eq)]
pub struct Str {
    pub max: u8,
}

/// An array of at most `max` items.
#[derive(Debug, PartialEq, Eq)]
pub struct Arr {
    pub max: u8,
    pub ty: Box<Type>,
}

/// A field of a message: `name: type = number;`.
#[derive(Debug, PartialEq, Eq)]
pub struct MessageField<'a> {
    pub span: Span,
    pub number: u8,
    pub name: Identifer<'a>,
    pub ty: Type,
}

/// What a field of a message or of an account holds, as plain values.
pub ghost struct FieldView {
    pub span: Span,
    pub number: u8,
    pub name: IdentiferView,
    pub ty: Type,
}

impl<'a> View for MessageField<'a> {
    type V = FieldView;

    open spec fn view(&self) -> FieldView {
        FieldView { span: self.span, number: self.number, name: self.name@, ty: self.ty }
    }
}

impl<'a> MessageField<'a> {
    /// The field's name as written.
    pub fn name(&self) -> (r: String)
        ensures
            r@ == self.name.value@,
    {
        String::from_str(self.name.value)
    }
}

/// A message: a named record of fields.
#[derive(Debug, PartialEq, Eq)]
pub struct Message<'a> {
    pub span: Span,
    pub name: Identifer<'a>,
    pub fields: Vec<MessageField<'a>>,
}

/// What a message or an account holds, as plain values.
pub ghost struct RecordView {
    pub span: Span,
    pub name: IdentiferView,
    pub fields: Seq<FieldView>,
}

impl<'a> View for Message<'a> {
    type V = RecordView;

    open spec fn view(&self) -> RecordView {
        RecordView {
            span: self.span,
            name: self.name@,
            fields: views(self.fields@),
        }
    }
}

/// A field of an account: `name: type = number;`.
#[derive(Debug, PartialEq, Eq)]
pub struct AccountField<'a> {
    pub span: Span,
    pub number: u8,
    pub name: Identifer<'a>,
    pub ty: Type,
}

impl<'a> View for AccountField<'a> {
    type V = FieldView;

    open spec fn view(&self) -> FieldView {
        FieldView { span: self.span, number: self.number, name: self.name@, ty: self.ty }
    }
}

impl<'a> AccountField<'a> {
    /// The field's name as written.
    pub fn name(&self) -> (r: String)
        ensures
            r@ == self.name.value@,
    {
        String::from_str(self.name.value)
    }
}

/// An account: a named record of fields that is stored on chain.
#[derive(Debug, PartialEq, Eq)]
pub struct Account<'a> {
    pub span: Span,
    pub name: Identifer<'a>,
    pub fields: Vec<AccountField<'a>>,
}

impl<'a> View for Account<'a> {
    type V = RecordView;

    open spec fn view(&self) -> RecordView {
        RecordView {
            span: self.span,
            name: self.name@,
            fields: views(self.fields@),
        }
    }
}

/// One account of an account list: `[mutable] [init] name: Account = number;`.
#[derive(Debug, PartialEq, Eq)]
pub struct AccountsField<'a> {
    pub span: Span,
    pub number: u8,
    pub init: bool,
    pub mutable: bool,
    pub name: Identifer<'a>,
    pub account: Identifer<'a>,
}

/// What a [`AccountsField`] holds, as plain values.
pub ghost struct AccountsFieldView {
    pub span: Span,
    pub number: u8,
    pub init: bool,
    pub mutable: bool,
    pub name: IdentiferView,
    pub account: IdentiferView,
}

impl<'a> View for AccountsField<'a> {
    type V = AccountsFieldView;

    open spec fn view(&self) -> AccountsFieldView {
        AccountsFieldView {
            span: self.span,
            number: self.number,
            init: self.init,
            mutable: self.mutable,
            name: self.name@,
            account: self.account@,
        }
    }
}

/// The list of accounts that an instruction takes.
#[derive(Debug, PartialEq, Eq)]
pub struct Accounts<'a> {
    pub span: Span,
    pub name: Identifer<'a>,
    pub fields: Vec<AccountsField<'a>>,
}

/// What a [`Accounts`] holds, as plain values.
pub ghost struct AccountsView {
    pub span: Span,
    pub name: IdentiferView,
    pub fields: Seq<AccountsFieldView>,
}

impl<'a> View for Accounts<'a> {
    type V = AccountsView;

    open spec fn view(&self) -> AccountsView {
        AccountsView {
            span: self.span,
            name: self.name@,
            fields: views(self.fields@),
        }
    }
}

/// An instruction: `instruction name(Accounts[, Payload]) = number;`.
#[derive(Debug, PartialEq, Eq)]
pub struct Instruction<'a> {
    pub span: Span,
    pub number: u8,
    pub name: Identifer<'a>,
    pub accounts: Identifer<'a>,
    pub payload: Option<Identifer<'a>>,
}

/// What a [`Instruction`] holds, as plain values.
pub ghost struct InstructionView {
    pub span: Span,
    pub number: u8,
    pub name: IdentiferView,
    pub accounts: IdentiferView,
    pub payload: Option<IdentiferView>,
}

impl<'a> View for Instruction<'a> {
    type V = InstructionView;

    open spec fn view(&self) -> InstructionView {
        InstructionView {
            span: self.span,
            number: self.number,
            name: self.name@,
            accounts: self.accounts@,
            payload: match self.payload {
                Some(p) => Some(p@),
                None => None,
            },
        }
    }
}

/// The contract: the instructions of the program.
#[derive(Debug, PartialEq, Eq)]
pub struct Contract<'a> {
    pub span: Span,
    pub name: Identifer<'a>,
    pub instructions: Vec<Instruction<'a>>,
}

/// What a [`Contract`] holds, as plain values.
pub ghost struct ContractView {
    pub span: Span,
    pub name: IdentiferView,
    pub instructions: Seq<InstructionView>,
}

impl<'a> View for Contract<'a> {
    type V = ContractView;

    open spec fn view(&self) -> ContractView {
        ContractView {
            span: self.span,
            name: self.name@,
            instructions: views(self.instructions@),
        }
    }
}

/// Everything that a schema declares.
#[derive(Debug, PartialEq, Eq)]
pub struct Definitions<'src> {
    pub message: Vec<Message<'src>>,
    pub account: Vec<Account<'src>>,
    pub accounts: Vec<Accounts<'src>>,
    pub contract: Contract<'src>,
}

/// What a [`Definitions`] holds, as plain values.
pub ghost struct DefinitionsView {
    pub message: Seq<RecordView>,
    pub account: Seq<RecordView>,
    pub accounts: Seq<AccountsView>,
    pub contract: ContractView,
}

impl<'src> View for Definitions<'src> {
    type V = DefinitionsView;

    open spec fn view(&self) -> DefinitionsView {
        DefinitionsView {
            message: views(self.message@),
            account: views(self.account@),
            accounts: views(self.accounts@),
            contract: self.contract@,
        }
    }
}

} // verus!
