//! From the syntax tree of a schema to the description of the program that
//! it declares, from which code is generated as from any description.

use vstd::prelude::*;
use vstd::string::*;
use crate::ast::{
    Account, Accounts, AccountsField, AccountsFieldView, AccountsView, Definitions,
    DefinitionsView, FieldView, Instruction, InstructionView, Message, RecordView, Type,
};
use crate::config;
use crate::config::{
    named_views, Config, ConfigView, DiscriminatorType, Ix, IxAccount, IxAccountView, IxConfig,
    IxView, MessageView, Program, ProgramView, TypeView,
};
use crate::emit::{compile, compiled};
use crate::error::{SolGenError, SolGenErrorView};
use crate::generate::{is_signer, INSTRUCTION_TAG_SIZE};
use crate::lexer::Lexer;
use crate::parse::{definitions, token_stream, Parser};
use crate::text::{str_eq, views};

verus! {

/// The type of the description for a type of the schema; strings and arrays
/// have none.
pub open spec fn lowered_type(t: Type) -> Option<TypeView> {
    match t {
        Type::Bool => Some(TypeView::Bool),
        Type::U8 => Some(TypeView::U8),
        Type::U64 => Some(TypeView::U64),
        Type::F32 => Some(TypeView::Defined("f32"@)),
        Type::F64 => Some(TypeView::Defined("f64"@)),
        _ => None,
    }
}

/// The fields of a record from the `k`-th on, after those of `acc`, in the
/// order in which they are declared.
pub open spec fn lowered_fields(r: RecordView, k: int, acc: Seq<(Seq<char>, TypeView)>) -> Result<
    Seq<(Seq<char>, TypeView)>,
    SolGenErrorView,
>
    decreases r.fields.len() - k,
{
    if k < 0 || k >= r.fields.len() {
        Ok(acc)
    } else {
        match lowered_type(r.fields[k].ty) {
            Some(t) => lowered_fields(r, k + 1, acc.push((r.fields[k].name.value, t))),
            None => Err(
                SolGenErrorView::UnsupportedType(r.name.value, r.fields[k].name.value),
            ),
        }
    }
}

/// The message type for a message or for the fields of an account.
pub open spec fn lowered_record(r: RecordView) -> Result<MessageView, SolGenErrorView> {
    match lowered_fields(r, 0, Seq::empty()) {
        Ok(fields) => Ok(MessageView::Struct(fields)),
        Err(e) => Err(e),
    }
}

/// The message types from the `k`-th message on, after those of `acc`.
pub open spec fn lowered_messages(
    ms: Seq<RecordView>,
    k: int,
    acc: Seq<(Seq<char>, MessageView)>,
) -> Result<Seq<(Seq<char>, MessageView)>, SolGenErrorView>
    decreases ms.len() - k,
{
    if k < 0 || k >= ms.len() {
        Ok(acc)
    } else {
        match lowered_record(ms[k]) {
            Ok(m) => lowered_messages(ms, k + 1, acc.push((ms[k].name.value, m))),
            Err(e) => Err(e),
        }
    }
}

/// The account kinds from the `k`-th account on, after those of `acc`. The
/// id of an account kind is its place among the accounts.
pub open spec fn lowered_accounts(
    accounts: Seq<RecordView>,
    k: int,
    acc: Seq<(Seq<char>, config::AccountView)>,
) -> Result<Seq<(Seq<char>, config::AccountView)>, SolGenErrorView>
    decreases accounts.len() - k,
{
    if k < 0 || k >= accounts.len() {
        Ok(acc)
    } else {
        match lowered_record(accounts[k]) {
            Ok(m) => lowered_accounts(
                accounts,
                k + 1,
                acc.push(
                    (
                        accounts[k].name.value,
                        config::AccountView {
                            id: k as usize,
                            payload: m,
                            seed: None,
                            discriminator: None,
                        },
                    ),
                ),
            ),
            Err(e) => Err(e),
        }
    }
}

/// The account of an instruction for an entry of an account list. Its id is
/// the place before the entry's number; `init` creates it; the signer is
/// signed and carries nothing, any other account carries the account kind
/// that the entry names.
pub open spec fn lowered_entry(f: AccountsFieldView) -> IxAccountView {
    IxAccountView {
        id: (f.number - 1) as usize,
        create: f.init,
        mutable: f.mutable,
        signed: is_signer(f),
        ty: if is_signer(f) {
            None
        } else {
            Some(f.account.value)
        },
        seed: None,
    }
}

/// The accounts of an account list from the `k`-th entry on, after those of
/// `acc`. An entry with the number 0 has no place.
pub open spec fn lowered_entries(
    list: AccountsView,
    k: int,
    acc: Seq<(Seq<char>, IxAccountView)>,
) -> Result<Seq<(Seq<char>, IxAccountView)>, SolGenErrorView>
    decreases list.fields.len() - k,
{
    if k < 0 || k >= list.fields.len() {
        Ok(acc)
    } else if list.fields[k].number == 0 {
        Err(SolGenErrorView::ZeroNumber(list.name.value, list.fields[k].name.value))
    } else {
        lowered_entries(
            list,
            k + 1,
            acc.push((list.fields[k].name.value, lowered_entry(list.fields[k]))),
        )
    }
}

/// The first account list of the name `name`, from the `k`-th on.
pub open spec fn find_list(lists: Seq<AccountsView>, name: Seq<char>, k: int) -> Option<
    AccountsView,
>
    decreases lists.len() - k,
{
    if k < 0 || k >= lists.len() {
        None
    } else if lists[k].name.value == name {
        Some(lists[k])
    } else {
        find_list(lists, name, k + 1)
    }
}

/// Whether a message or an account of the name `name` is declared.
pub open spec fn declared(defs: DefinitionsView, name: Seq<char>) -> bool {
    ||| exists|k: int| 0 <= k < defs.message.len() && (#[trigger] defs.message[k]).name.value == name
    ||| exists|k: int| 0 <= k < defs.account.len() && (#[trigger] defs.account[k]).name.value == name
}

/// The arguments of an instruction: its payload under the name `payload`, or
/// none.
pub open spec fn lowered_args(ix: InstructionView) -> Seq<(Seq<char>, TypeView)> {
    match ix.payload {
        Some(p) => seq![("payload"@, TypeView::Defined(p.value))],
        None => Seq::empty(),
    }
}

/// The instruction of the description for an instruction of the contract:
/// its number as its id, the accounts of the account list that it names, and
/// its payload as its one argument. The account list and the payload type
/// have to be declared.
pub open spec fn lowered_instruction(defs: DefinitionsView, ix: InstructionView) -> Result<
    (Seq<char>, IxView),
    SolGenErrorView,
> {
    match find_list(defs.accounts, ix.accounts.value, 0) {
        None => Err(SolGenErrorView::UndefinedAccounts(ix.name.value, ix.accounts.value)),
        Some(list) => if ix.payload is Some && !declared(defs, ix.payload->Some_0.value) {
            Err(
                SolGenErrorView::UndefinedType(
                    ix.name.value,
                    "payload"@,
                    ix.payload->Some_0.value,
                ),
            )
        } else {
            match lowered_entries(list, 0, Seq::empty()) {
                Ok(accounts) => Ok(
                    (
                        ix.name.value,
                        IxView { id: ix.number as usize, args: lowered_args(ix), accounts },
                    ),
                ),
                Err(e) => Err(e),
            }
        },
    }
}

/// The instructions from the `k`-th on, after those of `acc`.
pub open spec fn lowered_instructions(
    defs: DefinitionsView,
    k: int,
    acc: Seq<(Seq<char>, IxView)>,
) -> Result<Seq<(Seq<char>, IxView)>, SolGenErrorView>
    decreases defs.contract.instructions.len() - k,
{
    if k < 0 || k >= defs.contract.instructions.len() {
        Ok(acc)
    } else {
        match lowered_instruction(defs, defs.contract.instructions[k]) {
            Ok(ix) => lowered_instructions(defs, k + 1, acc.push(ix)),
            Err(e) => Err(e),
        }
    }
}

/// The description that a schema declares: the program of the contract's
/// name, with tags of four bytes by the hash strategy; the messages and the
/// accounts as message types and account kinds; the instructions of the
/// contract. The error is the first thing amiss among the messages, then the
/// accounts, then the instructions.
pub open spec fn lowered(defs: DefinitionsView) -> Result<ConfigView, SolGenErrorView> {
    match lowered_messages(defs.message, 0, Seq::empty()) {
        Err(e) => Err(e),
        Ok(message) => match lowered_accounts(defs.account, 0, Seq::empty()) {
            Err(e) => Err(e),
            Ok(accounts) => match lowered_instructions(defs, 0, Seq::empty()) {
                Err(e) => Err(e),
                Ok(ix) => Ok(
                    ConfigView {
                        program: ProgramView {
                            name: defs.contract.name.value,
                            version: (0u8, 0u8, 0u8),
                        },
                        ix,
                        ix_config: IxConfig {
                            discriminator_size: INSTRUCTION_TAG_SIZE as u8,
                            discriminator_type: DiscriminatorType::Hash,
                        },
                        accounts,
                        message,
                    },
                ),
            },
        },
    }
}

/// The text of the generated file for the schema `src`, or why there is none:
/// the first error of the parser, then of the schema's declarations, then of
/// the compilation of the description that it declares.
pub open spec fn compiled_schema(src: Seq<char>) -> Result<Seq<char>, SolGenErrorView> {
    match definitions(src, token_stream(src, 0)) {
        Err(e) => Err(e),
        Ok(defs) => match lowered(defs) {
            Err(e) => Err(e),
            Ok(cfg) => compiled(cfg),
        },
    }
}

/// The type of the description for a type of the schema.
pub fn lower_type(t: &Type) -> (r: Option<config::Type>)
    ensures
        match r {
            Some(c) => lowered_type(*t) == Some(c@),
            None => lowered_type(*t) is None,
        },
{
    match t {
        Type::Bool => Some(config::Type::Bool),
        Type::U8 => Some(config::Type::U8),
        Type::U64 => Some(config::Type::U64),
        Type::F32 => Some(config::Type::Defined(String::from_str("f32"))),
        Type::F64 => Some(config::Type::Defined(String::from_str("f64"))),
        _ => None,
    }
}

impl<'a> Message<'a> {
    /// The message type that the message declares.
    pub fn lower(&self) -> (r: Result<config::Message, SolGenError>)
        ensures
            match r {
                Ok(m) => lowered_record(self@) == Ok::<MessageView, SolGenErrorView>(m@),
                Err(e) => lowered_record(self@) == Err::<MessageView, SolGenErrorView>(e@),
            },
    {
        let mut fields: Vec<(String, config::Type)> = Vec::new();
        let mut k: usize = 0;
        assert(named_views(fields@) =~= Seq::<(Seq<char>, TypeView)>::empty());
        while k < self.fields.len()
            invariant
                k <= self.fields@.len(),
                lowered_fields(self@, k as int, named_views(fields@)) == lowered_fields(
                    self@,
                    0,
                    Seq::empty(),
                ),
            decreases self.fields@.len() - k,
        {
            assert(self@.fields[k as int] == self.fields@[k as int]@);
            match lower_type(&self.fields[k].ty) {
                Some(t) => {
                    let name = String::from_str(self.fields[k].name.value);
                    assert(named_views(fields@.push((name, t))) =~= named_views(fields@).push(
                        (name@, t@),
                    ));
                    fields.push((name, t));
                },
                None => {
                    return Err(
                        SolGenError::UnsupportedType(
                            String::from_str(self.name.value),
                            String::from_str(self.fields[k].name.value),
                        ),
                    );
                },
            }
            k = k + 1;
        }
        Ok(config::Message::Struct(fields))
    }
}

impl<'a> Account<'a> {
    /// The message type of the fields that the account declares.
    pub fn lower(&self) -> (r: Result<config::Message, SolGenError>)
        ensures
            match r {
                Ok(m) => lowered_record(self@) == Ok::<MessageView, SolGenErrorView>(m@),
                Err(e) => lowered_record(self@) == Err::<MessageView, SolGenErrorView>(e@),
            },
    {
        let mut fields: Vec<(String, config::Type)> = Vec::new();
        let mut k: usize = 0;
        assert(named_views(fields@) =~= Seq::<(Seq<char>, TypeView)>::empty());
        while k < self.fields.len()
            invariant
                k <= self.fields@.len(),
                lowered_fields(self@, k as int, named_views(fields@)) == lowered_fields(
                    self@,
                    0,
                    Seq::empty(),
                ),
            decreases self.fields@.len() - k,
        {
            assert(self@.fields[k as int] == self.fields@[k as int]@);
            match lower_type(&self.fields[k].ty) {
                Some(t) => {
                    let name = String::from_str(self.fields[k].name.value);
                    assert(named_views(fields@.push((name, t))) =~= named_views(fields@).push(
                        (name@, t@),
                    ));
                    fields.push((name, t));
                },
                None => {
                    return Err(
                        SolGenError::UnsupportedType(
                            String::from_str(self.name.value),
                            String::from_str(self.fields[k].name.value),
                        ),
                    );
                },
            }
            k = k + 1;
        }
        Ok(config::Message::Struct(fields))
    }
}

impl<'a> AccountsField<'a> {
    /// The account of an instruction that the entry declares.
    pub fn lower(&self) -> (r: IxAccount)
        requires
            self.number >= 1,
        ensures
            r@ == lowered_entry(self@),
    {
        let signer = str_eq(self.account.value, "Signer");
        IxAccount {
            id: (self.number - 1) as usize,
            create: self.init,
            mutable: self.mutable,
            signed: signer,
            ty: if signer {
                None
            } else {
                Some(String::from_str(self.account.value))
            },
            seed: None,
        }
    }
}

impl<'a> Accounts<'a> {
    /// The accounts of an instruction that the account list declares.
    pub fn lower(&self) -> (r: Result<Vec<(String, IxAccount)>, SolGenError>)
        ensures
            match r {
                Ok(v) => lowered_entries(self@, 0, Seq::empty()) == Ok::<
                    Seq<(Seq<char>, IxAccountView)>,
                    SolGenErrorView,
                >(named_views(v@)),
                Err(e) => lowered_entries(self@, 0, Seq::empty()) == Err::<
                    Seq<(Seq<char>, IxAccountView)>,
                    SolGenErrorView,
                >(e@),
            },
    {
        let mut out: Vec<(String, IxAccount)> = Vec::new();
        let mut k: usize = 0;
        assert(named_views(out@) =~= Seq::<(Seq<char>, IxAccountView)>::empty());
        while k < self.fields.len()
            invariant
                k <= self.fields@.len(),
                lowered_entries(self@, k as int, named_views(out@)) == lowered_entries(
                    self@,
                    0,
                    Seq::empty(),
                ),
            decreases self.fields@.len() - k,
        {
            assert(self@.fields[k as int] == self.fields@[k as int]@);
            let f = &self.fields[k];
            if f.number == 0 {
                return Err(
                    SolGenError::ZeroNumber(
                        String::from_str(self.name.value),
                        String::from_str(f.name.value),
                    ),
                );
            }
            let name = String::from_str(f.name.value);
            let account = f.lower();
            assert(named_views(out@.push((name, account))) =~= named_views(out@).push(
                (name@, account@),
            ));
            out.push((name, account));
            k = k + 1;
        }
        Ok(out)
    }
}

impl<'src> Definitions<'src> {
    /// Whether a message or an account of the name `name` is declared.
    pub fn declares(&self, name: &str) -> (r: bool)
        ensures
            r == declared(self@, name@),
    {
        let mut k: usize = 0;
        while k < self.message.len()
            invariant
                k <= self.message@.len(),
                forall|m: int| 0 <= m < k ==> (#[trigger] self@.message[m]).name.value != name@,
            decreases self.message@.len() - k,
        {
            assert(self@.message[k as int] == self.message@[k as int]@);
            if str_eq(self.message[k].name.value, name) {
                return true;
            }
            k = k + 1;
        }
        let mut k: usize = 0;
        while k < self.account.len()
            invariant
                k <= self.account@.len(),
                forall|m: int|
                    0 <= m < self.message@.len() ==> (#[trigger] self@.message[m]).name.value
                        != name@,
                forall|m: int| 0 <= m < k ==> (#[trigger] self@.account[m]).name.value != name@,
            decreases self.account@.len() - k,
        {
            assert(self@.account[k as int] == self.account@[k as int]@);
            if str_eq(self.account[k].name.value, name) {
                return true;
            }
            k = k + 1;
        }
        false
    }

    /// The instruction of the description for an instruction of the contract.
    pub fn lower_instruction(&self, ix: &Instruction<'src>) -> (r: Result<
        (String, Ix),
        SolGenError,
    >)
        ensures
            match r {
                Ok(v) => lowered_instruction(self@, ix@) == Ok::<
                    (Seq<char>, IxView),
                    SolGenErrorView,
                >((v.0@, v.1@)),
                Err(e) => lowered_instruction(self@, ix@) == Err::<
                    (Seq<char>, IxView),
                    SolGenErrorView,
                >(e@),
            },
    {
        let mut k: usize = 0;
        while k < self.accounts.len()
            invariant
                k <= self.accounts@.len(),
                find_list(self@.accounts, ix@.accounts.value, k as int) == find_list(
                    self@.accounts,
                    ix@.accounts.value,
                    0,
                ),
            decreases self.accounts@.len() - k,
        {
            assert(self@.accounts[k as int] == self.accounts@[k as int]@);
            if str_eq(self.accounts[k].name.value, ix.accounts.value) {
                let args = match &ix.payload {
                    Some(p) => {
                        if !self.declares(p.value) {
                            return Err(
                                SolGenError::UndefinedType(
                                    String::from_str(ix.name.value),
                                    String::from_str("payload"),
                                    String::from_str(p.value),
                                ),
                            );
                        }
                        let mut args: Vec<(String, config::Type)> = Vec::new();
                        args.push(
                            (
                                String::from_str("payload"),
                                config::Type::Defined(String::from_str(p.value)),
                            ),
                        );
                        assert(named_views(args@) =~= lowered_args(ix@));
                        args
                    },
                    None => {
                        let args: Vec<(String, config::Type)> = Vec::new();
                        assert(named_views(args@) =~= lowered_args(ix@));
                        args
                    },
                };
                let accounts = self.accounts[k].lower()?;
                return Ok(
                    (
                        String::from_str(ix.name.value),
                        Ix { id: ix.number as usize, args, accounts },
                    ),
                );
            }
            k = k + 1;
        }
        Err(
            SolGenError::UndefinedAccounts(
                String::from_str(ix.name.value),
                String::from_str(ix.accounts.value),
            ),
        )
    }

    /// The description that the schema declares.
    pub fn to_config(&self) -> (r: Result<Config, SolGenError>)
        ensures
            match r {
                Ok(c) => lowered(self@) == Ok::<ConfigView, SolGenErrorView>(c@),
                Err(e) => lowered(self@) == Err::<ConfigView, SolGenErrorView>(e@),
            },
    {
        let mut message: Vec<(String, config::Message)> = Vec::new();
        let mut k: usize = 0;
        assert(named_views(message@) =~= Seq::<(Seq<char>, MessageView)>::empty());
        while k < self.message.len()
            invariant
                k <= self.message@.len(),
                lowered_messages(self@.message, k as int, named_views(message@))
                    == lowered_messages(self@.message, 0, Seq::empty()),
            decreases self.message@.len() - k,
        {
            assert(self@.message[k as int] == self.message@[k as int]@);
            let m = self.message[k].lower()?;
            let name = String::from_str(self.message[k].name.value);
            assert(named_views(message@.push((name, m))) =~= named_views(message@).push(
                (name@, m@),
            ));
            message.push((name, m));
            k = k + 1;
        }
        let mut accounts: Vec<(String, config::Account)> = Vec::new();
        let mut k: usize = 0;
        assert(named_views(accounts@) =~= Seq::<(Seq<char>, config::AccountView)>::empty());
        while k < self.account.len()
            invariant
                k <= self.account@.len(),
                lowered_messages(self@.message, 0, Seq::empty()) == Ok::<
                    Seq<(Seq<char>, MessageView)>,
                    SolGenErrorView,
                >(named_views(message@)),
                lowered_accounts(self@.account, k as int, named_views(accounts@))
                    == lowered_accounts(self@.account, 0, Seq::empty()),
            decreases self.account@.len() - k,
        {
            assert(self@.account[k as int] == self.account@[k as int]@);
            let m = self.account[k].lower()?;
            let name = String::from_str(self.account[k].name.value);
            let a = config::Account { id: k, payload: m, seed: None, discriminator: None };
            assert(named_views(accounts@.push((name, a))) =~= named_views(accounts@).push(
                (name@, a@),
            ));
            accounts.push((name, a));
            k = k + 1;
        }
        let mut ix: Vec<(String, Ix)> = Vec::new();
        let mut k: usize = 0;
        assert(named_views(ix@) =~= Seq::<(Seq<char>, IxView)>::empty());
        while k < self.contract.instructions.len()
            invariant
                k <= self.contract.instructions@.len(),
                lowered_messages(self@.message, 0, Seq::empty()) == Ok::<
                    Seq<(Seq<char>, MessageView)>,
                    SolGenErrorView,
                >(named_views(message@)),
                lowered_accounts(self@.account, 0, Seq::empty()) == Ok::<
                    Seq<(Seq<char>, config::AccountView)>,
                    SolGenErrorView,
                >(named_views(accounts@)),
                lowered_instructions(self@, k as int, named_views(ix@)) == lowered_instructions(
                    self@,
                    0,
                    Seq::empty(),
                ),
            decreases self.contract.instructions@.len() - k,
        {
            assert(self@.contract.instructions[k as int] == self.contract.instructions@[k as int]@);
            let lowered = self.lower_instruction(&self.contract.instructions[k])?;
            assert(named_views(ix@.push(lowered)) =~= named_views(ix@).push(
                (lowered.0@, lowered.1@),
            ));
            ix.push(lowered);
            k = k + 1;
        }
        Ok(
            Config {
                program: Program {
                    name: String::from_str(self.contract.name.value),
                    version: (0, 0, 0),
                },
                ix,
                ix_config: IxConfig {
                    discriminator_size: 4,
                    discriminator_type: DiscriminatorType::Hash,
                },
                accounts,
                message,
            },
        )
    }
}

/// Compiles a schema: lexes and parses the text, takes the description that
/// its declarations make, and compiles that description. The first failure
/// ends the compilation, and nothing is generated then.
pub fn compile_schema(src: &str) -> (r: Result<String, SolGenError>)
    ensures
        match r {
            Ok(text) => compiled_schema(src@) == Ok::<Seq<char>, SolGenErrorView>(text@),
            Err(e) => compiled_schema(src@) == Err::<Seq<char>, SolGenErrorView>(e@),
        },
{
    let defs = Parser::new(Lexer::new(src)).parse()?;
    let config = defs.to_config()?;
    compile(config)
}

} // verus!
