//! The code generator: from the normalized model to the declarations of the
//! generated source. What it builds is a tree of records, account lists, a
//! trait and a dispatcher; the emitter turns that tree into text.

use vstd::prelude::*;
use vstd::string::*;
use crate::config::DiscriminatorType;
use crate::discriminator::{
    DiscriminatorGen, HashDiscriminatorGen, IndexDiscriminatorGen, TagSeed, TagSeedView,
};
use crate::my_idl::{
    Account, AccountView, Field, FieldView, Instruction, InstructionAccount,
    InstructionAccountView, InstructionView, IxAccountState, MyIdl, MyIdlView, Type,
};
use crate::config::TypeView;
use crate::names::{
    const_name, field_name, str_to_const_name, str_to_field_name, str_to_struct_name, struct_name,
};
use crate::text::views;

verus! {

/// The data record of an account kind, with the seed and the width of its
/// tag.
#[derive(Debug, PartialEq, Eq)]
pub struct AccountRecord {
    pub name: String,
    pub fields: Vec<Field>,
    pub seed: TagSeed,
    pub size: usize,
}

/// What a [`AccountRecord`] holds, as plain values.
pub ghost struct AccountRecordView {
    pub name: Seq<char>,
    pub fields: Seq<FieldView>,
    pub seed: TagSeedView,
    pub size: usize,
}

impl View for AccountRecord {
    type V = AccountRecordView;

    open spec fn view(&self) -> AccountRecordView {
        AccountRecordView {
            name: self.name@,
            fields: views(self.fields@),
            seed: self.seed@,
            size: self.size,
        }
    }
}

/// What an account handle carries: nothing, or the data of an account kind
/// behind a tag of a width.
#[derive(Debug, PartialEq, Eq)]
pub enum Payload {
    Empty,
    Data(usize, String),
}

/// What a [`Payload`] holds, as plain values.
pub ghost enum PayloadView {
    Empty,
    Data(usize, Seq<char>),
}

impl View for Payload {
    type V = PayloadView;

    open spec fn view(&self) -> PayloadView {
        match self {
            Payload::Empty => PayloadView::Empty,
            Payload::Data(n, s) => PayloadView::Data(*n, s@),
        }
    }
}

/// A typed account handle of an instruction: its capability, and the place in
/// the account list from which it is loaded.
#[derive(Debug, PartialEq, Eq)]
pub struct AccountHandle {
    pub name: String,
    pub payload: Payload,
    pub state: IxAccountState,
    pub signed: bool,
    pub index: usize,
}

/// What a [`AccountHandle`] holds, as plain values.
pub ghost struct AccountHandleView {
    pub name: Seq<char>,
    pub payload: PayloadView,
    pub state: IxAccountState,
    pub signed: bool,
    pub index: usize,
}

impl View for AccountHandle {
    type V = AccountHandleView;

    open spec fn view(&self) -> AccountHandleView {
        AccountHandleView {
            name: self.name@,
            payload: self.payload@,
            state: self.state,
            signed: self.signed,
            index: self.index,
        }
    }
}

/// The accounts record of an instruction: its handles in the order of their
/// ids.
#[derive(Debug, PartialEq, Eq)]
pub struct AccountsRecord {
    pub name: String,
    pub handles: Vec<AccountHandle>,
}

/// What a [`AccountsRecord`] holds, as plain values.
pub ghost struct AccountsRecordView {
    pub name: Seq<char>,
    pub handles: Seq<AccountHandleView>,
}

impl View for AccountsRecord {
    type V = AccountsRecordView;

    open spec fn view(&self) -> AccountsRecordView {
        AccountsRecordView { name: self.name@, handles: views(self.handles@) }
    }
}

/// The generated types: a record for each account kind, then an accounts
/// record for each instruction.
#[derive(Debug, PartialEq, Eq)]
pub struct GeneratedTypes {
    pub account_types: Vec<AccountRecord>,
    pub accounts_types: Vec<AccountsRecord>,
}

/// What a [`GeneratedTypes`] holds, as plain values.
pub ghost struct GeneratedTypesView {
    pub account_types: Seq<AccountRecordView>,
    pub accounts_types: Seq<AccountsRecordView>,
}

impl View for GeneratedTypes {
    type V = GeneratedTypesView;

    open spec fn view(&self) -> GeneratedTypesView {
        GeneratedTypesView {
            account_types: views(self.account_types@),
            accounts_types: views(self.accounts_types@),
        }
    }
}

/// A method of the handler trait: one per instruction.
#[derive(Debug, PartialEq, Eq)]
pub struct Method {
    pub name: String,
    pub accounts: String,
    pub args: Vec<Field>,
}

/// What a [`Method`] holds, as plain values.
pub ghost struct MethodView {
    pub name: Seq<char>,
    pub accounts: Seq<char>,
    pub args: Seq<FieldView>,
}

impl View for Method {
    type V = MethodView;

    open spec fn view(&self) -> MethodView {
        MethodView { name: self.name@, accounts: self.accounts@, args: views(self.args@) }
    }
}

/// The handler trait.
#[derive(Debug, PartialEq, Eq)]
pub struct ContractTrait {
    pub name: String,
    pub methods: Vec<Method>,
}

/// What a [`ContractTrait`] holds, as plain values.
pub ghost struct ContractTraitView {
    pub name: Seq<char>,
    pub methods: Seq<MethodView>,
}

impl View for ContractTrait {
    type V = ContractTraitView;

    open spec fn view(&self) -> ContractTraitView {
        ContractTraitView { name: self.name@, methods: views(self.methods@) }
    }
}

/// How a branch gets the arguments of its instruction from the payload:
/// no step where there is none, one value where there is one, a tuple that is
/// taken apart where there are more.
#[derive(Debug, PartialEq, Eq)]
pub enum ArgBinding {
    NoArgs,
    Single(String),
    Tuple(Vec<String>),
}

/// What a [`ArgBinding`] holds, as plain values.
pub ghost enum ArgBindingView {
    NoArgs,
    Single(Seq<char>),
    Tuple(Seq<Seq<char>>),
}

impl View for ArgBinding {
    type V = ArgBindingView;

    open spec fn view(&self) -> ArgBindingView {
        match self {
            ArgBinding::NoArgs => ArgBindingView::NoArgs,
            ArgBinding::Single(s) => ArgBindingView::Single(s@),
            ArgBinding::Tuple(v) => ArgBindingView::Tuple(crate::config::string_views(v@)),
        }
    }
}

/// A branch of the dispatcher: the tag that selects it, the accounts record
/// that it loads and the method that it calls.
#[derive(Debug, PartialEq, Eq)]
pub struct Branch {
    pub tag_name: String,
    pub tag: Vec<u8>,
    pub accounts: String,
    pub method: String,
    pub args: ArgBinding,
}

/// What a [`Branch`] holds, as plain values.
pub ghost struct BranchView {
    pub tag_name: Seq<char>,
    pub tag: Seq<u8>,
    pub accounts: Seq<char>,
    pub method: Seq<char>,
    pub args: ArgBindingView,
}

impl View for Branch {
    type V = BranchView;

    open spec fn view(&self) -> BranchView {
        BranchView {
            tag_name: self.tag_name@,
            tag: self.tag@,
            accounts: self.accounts@,
            method: self.method@,
            args: self.args@,
        }
    }
}

/// The dispatcher: one branch per instruction, in the order of the model,
/// and one fallback for every other tag. `tag_size` is the number of bytes of
/// each tag.
#[derive(Debug, PartialEq, Eq)]
pub struct Dispatcher {
    pub name: String,
    pub contract: String,
    pub tag_size: usize,
    pub branches: Vec<Branch>,
}

/// What a [`Dispatcher`] holds, as plain values.
pub ghost struct DispatcherView {
    pub name: Seq<char>,
    pub contract: Seq<char>,
    pub tag_size: usize,
    pub branches: Seq<BranchView>,
}

impl View for Dispatcher {
    type V = DispatcherView;

    open spec fn view(&self) -> DispatcherView {
        DispatcherView {
            name: self.name@,
            contract: self.contract@,
            tag_size: self.tag_size,
            branches: views(self.branches@),
        }
    }
}

/// Everything that is generated for a program.
#[derive(Debug, PartialEq, Eq)]
pub struct Generated {
    pub types: GeneratedTypes,
    pub contract: ContractTrait,
    pub dispatcher: Dispatcher,
}

/// What a [`Generated`] holds, as plain values.
pub ghost struct GeneratedView {
    pub types: GeneratedTypesView,
    pub contract: ContractTraitView,
    pub dispatcher: DispatcherView,
}

impl View for Generated {
    type V = GeneratedView;

    open spec fn view(&self) -> GeneratedView {
        GeneratedView { types: self.types@, contract: self.contract@, dispatcher: self.dispatcher@ }
    }
}

/// The width of an account's tag where none is declared.
pub const DEFAULT_ACCOUNT_TAG_SIZE: usize = 4;

/// The width of the tag of an account kind.
pub open spec fn account_tag_size(account: AccountView) -> usize {
    match account.discriminator {
        Some(d) => d.size as usize,
        None => DEFAULT_ACCOUNT_TAG_SIZE,
    }
}

/// The fields of a record, each under its generated name; where the account
/// lives at a derived address with a bump, the bump is its last field.
pub open spec fn record_fields(account: AccountView) -> Seq<FieldView> {
    let fields = Seq::new(
        account.fields.len(),
        |k: int|
            FieldView { name: field_name(account.fields[k].name), ty: account.fields[k].ty },
    );
    if account.seed is Some && account.seed->Some_0.bump {
        fields.push(FieldView { name: "bump"@, ty: TypeView::U8 })
    } else {
        fields
    }
}

/// The record of an account kind.
pub open spec fn account_record<D: DiscriminatorGen>(
    program_name: Seq<char>,
    account: AccountView,
) -> AccountRecordView {
    AccountRecordView {
        name: struct_name(account.name, None),
        fields: record_fields(account),
        seed: D::account_seed_token(program_name, account),
        size: account_tag_size(account),
    }
}

/// The first account kind of the name `name`, if there is one.
pub open spec fn find_account(accounts: Seq<AccountView>, name: Seq<char>, from: int) -> Option<
    AccountView,
>
    decreases accounts.len() - from,
{
    if from < 0 || from >= accounts.len() {
        None
    } else if accounts[from].name == name {
        Some(accounts[from])
    } else {
        find_account(accounts, name, from + 1)
    }
}

/// What a handle carries: the data of the account kind that the account names
/// as its payload, behind a tag of that kind's width (of the default width
/// where no account kind has the name); nothing where it names none.
pub open spec fn payload_of(accounts: Seq<AccountView>, payload: Option<Seq<char>>) -> PayloadView {
    match payload {
        None => PayloadView::Empty,
        Some(p) => PayloadView::Data(
            match find_account(accounts, p, 0) {
                Some(a) => account_tag_size(a),
                None => DEFAULT_ACCOUNT_TAG_SIZE,
            },
            struct_name(p, None),
        ),
    }
}

/// The handle of an account of an instruction.
pub open spec fn handle_of(accounts: Seq<AccountView>, acc: InstructionAccountView) -> AccountHandleView {
    AccountHandleView {
        name: field_name(acc.name),
        payload: payload_of(accounts, acc.payload),
        state: acc.state,
        signed: acc.is_signed,
        index: acc.id as usize,
    }
}

/// The name of the accounts record of an instruction.
pub open spec fn accounts_name(ix_name: Seq<char>) -> Seq<char> {
    struct_name(ix_name, Some("Accounts"@))
}

/// The accounts record of an instruction.
pub open spec fn accounts_record(accounts: Seq<AccountView>, ix: InstructionView) -> AccountsRecordView {
    AccountsRecordView {
        name: accounts_name(ix.name),
        handles: Seq::new(ix.accounts.len(), |k: int| handle_of(accounts, ix.accounts[k])),
    }
}

/// The generated types of a model.
pub open spec fn types_of<D: DiscriminatorGen>(idl: MyIdlView) -> GeneratedTypesView {
    GeneratedTypesView {
        account_types: Seq::new(
            idl.accounts.len(),
            |k: int| account_record::<D>(idl.name, idl.accounts[k]),
        ),
        accounts_types: Seq::new(
            idl.instructions.len(),
            |k: int| accounts_record(idl.accounts, idl.instructions[k]),
        ),
    }
}

/// The method of the handler trait for an instruction.
pub open spec fn method_of(ix: InstructionView) -> MethodView {
    MethodView { name: field_name(ix.name), accounts: accounts_name(ix.name), args: ix.args }
}

/// The handler trait of a model.
pub open spec fn contract_of(idl: MyIdlView) -> ContractTraitView {
    ContractTraitView {
        name: struct_name(idl.name, Some("Contract"@)),
        methods: Seq::new(idl.instructions.len(), |k: int| method_of(idl.instructions[k])),
    }
}

/// How the arguments `args` are taken from the payload.
pub open spec fn binding_of(args: Seq<FieldView>) -> ArgBindingView {
    if args.len() == 0 {
        ArgBindingView::NoArgs
    } else if args.len() == 1 {
        ArgBindingView::Single(field_name(args[0].name))
    } else {
        ArgBindingView::Tuple(Seq::new(args.len(), |k: int| field_name(args[k].name)))
    }
}

/// The branch of the dispatcher for an instruction. It depends on the
/// program's name, the width of the tags and the instruction alone.
pub open spec fn branch_of<D: DiscriminatorGen>(
    program_name: Seq<char>,
    size: usize,
    ix: InstructionView,
) -> BranchView {
    BranchView {
        tag_name: const_name(ix.name),
        tag: D::instruction_tag(program_name, ix, size),
        accounts: accounts_name(ix.name),
        method: field_name(ix.name),
        args: binding_of(ix.args),
    }
}

/// The dispatcher of a model.
pub open spec fn dispatcher_of<D: DiscriminatorGen>(idl: MyIdlView) -> DispatcherView {
    DispatcherView {
        name: struct_name(idl.name, Some("Dispatcher"@)),
        contract: struct_name(idl.name, Some("Contract"@)),
        tag_size: D::tag_len(idl.instruction_discriminator_size),
        branches: Seq::new(
            idl.instructions.len(),
            |k: int|
                branch_of::<D>(idl.name, idl.instruction_discriminator_size, idl.instructions[k]),
        ),
    }
}

/// Everything that is generated for a model.
pub open spec fn generated_of<D: DiscriminatorGen>(idl: MyIdlView) -> GeneratedView {
    GeneratedView {
        types: types_of::<D>(idl),
        contract: contract_of(idl),
        dispatcher: dispatcher_of::<D>(idl),
    }
}

/// Everything that is generated for a model, with the strategy that the
/// model names.
pub open spec fn generated(idl: MyIdlView) -> GeneratedView {
    match idl.instruction_discriminator_type {
        DiscriminatorType::Hash => generated_of::<HashDiscriminatorGen>(idl),
        DiscriminatorType::Index => generated_of::<IndexDiscriminatorGen>(idl),
    }
}

/// Whether the strategy that a model names can make tags of the width that
/// the model asks for.
pub open spec fn tag_size_ok(idl: MyIdlView) -> bool {
    match idl.instruction_discriminator_type {
        DiscriminatorType::Hash => HashDiscriminatorGen::size_ok(idl.instruction_discriminator_size),
        DiscriminatorType::Index => IndexDiscriminatorGen::size_ok(
            idl.instruction_discriminator_size,
        ),
    }
}

/// Whether every tag of the dispatcher has `len` bytes.
pub open spec fn tags_have_len(d: Dispatcher, len: nat) -> bool {
    forall|k: int| 0 <= k < d.branches@.len() ==> (#[trigger] d.branches@[k]).tag@.len() == len
}

/// The number of bytes of the tags that a description asks for: the width
/// that it names by the hash strategy, one by the index strategy.
pub open spec fn tag_len_of(c: crate::config::IxConfig) -> nat {
    match c.discriminator_type {
        DiscriminatorType::Hash => HashDiscriminatorGen::tag_len(c.discriminator_size as usize) as nat,
        DiscriminatorType::Index => IndexDiscriminatorGen::tag_len(
            c.discriminator_size as usize,
        ) as nat,
    }
}

/// The fields `fields`, each under its generated name.
pub fn gen_fields(fields: &Vec<Field>) -> (r: Vec<Field>)
    ensures
        views(r@) == Seq::new(
            fields@.len(),
            |k: int| FieldView { name: field_name(fields@[k]@.name), ty: fields@[k]@.ty },
        ),
{
    let mut out: Vec<Field> = Vec::new();
    let mut k: usize = 0;
    while k < fields.len()
        invariant
            k <= fields@.len(),
            out@.len() == k,
            forall|m: int|
                0 <= m < k ==> (#[trigger] out@[m])@ == (FieldView {
                    name: field_name(fields@[m]@.name),
                    ty: fields@[m]@.ty,
                }),
        decreases fields@.len() - k,
    {
        out.push(
            Field { name: str_to_field_name(fields[k].name.as_str()), ty: fields[k].ty.duplicate() },
        );
        k = k + 1;
    }
    assert(views(out@) =~= Seq::new(
        fields@.len(),
        |k: int| FieldView { name: field_name(fields@[k]@.name), ty: fields@[k]@.ty },
    ));
    out
}

/// A copy of the fields `fields`.
pub fn copy_fields(fields: &Vec<Field>) -> (r: Vec<Field>)
    ensures
        views(r@) == views(fields@),
{
    let mut out: Vec<Field> = Vec::new();
    let mut k: usize = 0;
    while k < fields.len()
        invariant
            k <= fields@.len(),
            out@.len() == k,
            forall|m: int| 0 <= m < k ==> (#[trigger] out@[m])@ == fields@[m]@,
        decreases fields@.len() - k,
    {
        out.push(Field { name: fields[k].name.clone(), ty: fields[k].ty.duplicate() });
        k = k + 1;
    }
    assert(views(out@) =~= views(fields@));
    out
}

/// The width of the tag of an account kind.
pub fn tag_size_of(account: &Account) -> (r: usize)
    ensures
        r == account_tag_size(account@),
{
    match account.discriminator {
        Some(d) => d.size as usize,
        None => DEFAULT_ACCOUNT_TAG_SIZE,
    }
}

/// Generates the record of an account kind.
pub fn gen_account<D: DiscriminatorGen>(program_name: &str, account: &Account) -> (r:
    AccountRecord)
    ensures
        r@ == account_record::<D>(program_name@, account@),
{
    let mut fields = gen_fields(&account.fields);
    let ghost base = views(fields@);
    let bump = match &account.seed {
        Some(seed) => seed.bump,
        None => false,
    };
    if bump {
        fields.push(Field { name: String::from_str("bump"), ty: Type::U8 });
        assert(views(fields@) =~= base.push(FieldView { name: "bump"@, ty: TypeView::U8 }));
    }
    assert(views(fields@) =~= record_fields(account@)) by {
        assert(base =~= Seq::new(
            account@.fields.len(),
            |k: int|
                FieldView { name: field_name(account@.fields[k].name), ty: account@.fields[k].ty },
        ));
    }
    AccountRecord {
        name: str_to_struct_name(account.name.as_str(), None),
        fields,
        seed: D::account_token(program_name, account),
        size: tag_size_of(account),
    }
}

/// What a handle of the payload `payload` carries.
pub fn gen_payload(accounts: &Vec<Account>, payload: &Option<String>) -> (r: Payload)
    ensures
        r@ == payload_of(
            views(accounts@),
            match payload {
                Some(p) => Some(p@),
                None => None,
            },
        ),
{
    match payload {
        None => Payload::Empty,
        Some(p) => {
            let name = str_to_struct_name(p.as_str(), None);
            let mut k: usize = 0;
            while k < accounts.len()
                invariant
                    k <= accounts@.len(),
                    *payload == Some(*p),
                    name@ == struct_name(p@, None),
                    find_account(views(accounts@), p@, k as int) == find_account(
                        views(accounts@),
                        p@,
                        0,
                    ),
                decreases accounts@.len() - k,
            {
                assert(views(accounts@)[k as int] == accounts@[k as int]@);
                if accounts[k].name == *p {
                    return Payload::Data(tag_size_of(&accounts[k]), name);
                }
                k = k + 1;
            }
            Payload::Data(DEFAULT_ACCOUNT_TAG_SIZE, name)
        },
    }
}

/// Generates the accounts record of the instruction `ix`: a typed handle
/// for each of its accounts, in the order of the model.
pub fn gen_accounts(accounts: &Vec<Account>, ix: &Instruction) -> (r: AccountsRecord)
    ensures
        r@ == accounts_record(views(accounts@), ix@),
{
    let mut handles: Vec<AccountHandle> = Vec::new();
    let mut k: usize = 0;
    while k < ix.accounts.len()
        invariant
            k <= ix.accounts@.len(),
            handles@.len() == k,
            forall|m: int|
                0 <= m < k ==> (#[trigger] handles@[m])@ == handle_of(
                    views(accounts@),
                    ix.accounts@[m]@,
                ),
        decreases ix.accounts@.len() - k,
    {
        let acc = &ix.accounts[k];
        handles.push(
            AccountHandle {
                name: str_to_field_name(acc.name.as_str()),
                payload: gen_payload(accounts, &acc.payload),
                state: acc.state,
                signed: acc.is_signed,
                index: acc.id as usize,
            },
        );
        k = k + 1;
    }
    let r = AccountsRecord {
        name: str_to_struct_name(ix.name.as_str(), Some("Accounts")),
        handles,
    };
    assert(r@.handles =~= accounts_record(views(accounts@), ix@).handles);
    r
}

/// Generates the types of a model: a record for each account kind, then an
/// accounts record for each instruction.
pub fn gen_types<D: DiscriminatorGen>(idl: &MyIdl) -> (r: GeneratedTypes)
    ensures
        r@ == types_of::<D>(idl@),
{
    let mut account_types: Vec<AccountRecord> = Vec::new();
    let mut k: usize = 0;
    while k < idl.accounts.len()
        invariant
            k <= idl.accounts@.len(),
            account_types@.len() == k,
            forall|m: int|
                0 <= m < k ==> (#[trigger] account_types@[m])@ == account_record::<D>(
                    idl@.name,
                    idl.accounts@[m]@,
                ),
        decreases idl.accounts@.len() - k,
    {
        account_types.push(gen_account::<D>(idl.name.as_str(), &idl.accounts[k]));
        k = k + 1;
    }
    let mut accounts_types: Vec<AccountsRecord> = Vec::new();
    let mut k: usize = 0;
    while k < idl.instructions.len()
        invariant
            k <= idl.instructions@.len(),
            accounts_types@.len() == k,
            forall|m: int|
                0 <= m < k ==> (#[trigger] accounts_types@[m])@ == accounts_record(
                    views(idl.accounts@),
                    idl.instructions@[m]@,
                ),
        decreases idl.instructions@.len() - k,
    {
        accounts_types.push(gen_accounts(&idl.accounts, &idl.instructions[k]));
        k = k + 1;
    }
    let r = GeneratedTypes { account_types, accounts_types };
    assert(r@.account_types =~= types_of::<D>(idl@).account_types);
    assert(r@.accounts_types =~= types_of::<D>(idl@).accounts_types);
    r
}

/// Generates the handler trait of a model: one method per instruction, in
/// the order of the model.
pub fn gen_contract(idl: &MyIdl) -> (r: ContractTrait)
    ensures
        r@ == contract_of(idl@),
{
    let mut methods: Vec<Method> = Vec::new();
    let mut k: usize = 0;
    while k < idl.instructions.len()
        invariant
            k <= idl.instructions@.len(),
            methods@.len() == k,
            forall|m: int|
                0 <= m < k ==> (#[trigger] methods@[m])@ == method_of(idl.instructions@[m]@),
        decreases idl.instructions@.len() - k,
    {
        let ix = &idl.instructions[k];
        methods.push(
            Method {
                name: str_to_field_name(ix.name.as_str()),
                accounts: str_to_struct_name(ix.name.as_str(), Some("Accounts")),
                args: copy_fields(&ix.args),
            },
        );
        k = k + 1;
    }
    let r = ContractTrait { name: str_to_struct_name(idl.name.as_str(), Some("Contract")), methods };
    assert(r@.methods =~= contract_of(idl@).methods);
    r
}

/// How the arguments `args` are taken from the payload.
pub fn gen_binding(args: &Vec<Field>) -> (r: ArgBinding)
    ensures
        r@ == binding_of(views(args@)),
{
    if args.len() == 0 {
        ArgBinding::NoArgs
    } else if args.len() == 1 {
        assert(views(args@)[0] == args@[0]@);
        ArgBinding::Single(str_to_field_name(args[0].name.as_str()))
    } else {
        let mut names: Vec<String> = Vec::new();
        let mut k: usize = 0;
        while k < args.len()
            invariant
                k <= args@.len(),
                names@.len() == k,
                forall|m: int| 0 <= m < k ==> (#[trigger] names@[m])@ == field_name(args@[m]@.name),
            decreases args@.len() - k,
        {
            names.push(str_to_field_name(args[k].name.as_str()));
            k = k + 1;
        }
        let r = ArgBinding::Tuple(names);
        assert(crate::config::string_views(names@) =~= Seq::new(
            views(args@).len(),
            |k: int| field_name(views(args@)[k].name),
        ));
        r
    }
}

/// Generates the dispatcher of a model: one branch per instruction, in the
/// order of the model, each under the tag of its instruction.
pub fn gen_dispatcher<D: DiscriminatorGen>(idl: &MyIdl) -> (r: Result<
    Dispatcher,
    crate::error::SolGenError,
>)
    requires
        D::size_ok(idl@.instruction_discriminator_size),
    ensures
        r is Ok,
        r->Ok_0@ == dispatcher_of::<D>(idl@),
        tags_have_len(r->Ok_0, D::tag_len(idl@.instruction_discriminator_size) as nat),
{
    let size: usize = idl.instruction_discriminator_size;
    let mut branches: Vec<Branch> = Vec::new();
    let mut k: usize = 0;
    while k < idl.instructions.len()
        invariant
            k <= idl.instructions@.len(),
            branches@.len() == k,
            size == idl@.instruction_discriminator_size,
            D::size_ok(size),
            forall|m: int|
                0 <= m < k ==> (#[trigger] branches@[m])@ == branch_of::<D>(
                    idl@.name,
                    size,
                    idl.instructions@[m]@,
                ),
            forall|m: int| 0 <= m < k ==> (#[trigger] branches@[m]).tag@.len() == D::tag_len(size),
        decreases idl.instructions@.len() - k,
    {
        let ix = &idl.instructions[k];
        branches.push(
            Branch {
                tag_name: str_to_const_name(ix.name.as_str()),
                tag: D::from_instruction(idl.name.as_str(), ix, size),
                accounts: str_to_struct_name(ix.name.as_str(), Some("Accounts")),
                method: str_to_field_name(ix.name.as_str()),
                args: gen_binding(&ix.args),
            },
        );
        k = k + 1;
    }
    let r = Dispatcher {
        name: str_to_struct_name(idl.name.as_str(), Some("Dispatcher")),
        contract: str_to_struct_name(idl.name.as_str(), Some("Contract")),
        tag_size: D::tag_width(size),
        branches,
    };
    assert(r@.branches =~= dispatcher_of::<D>(idl@).branches);
    Ok(r)
}

/// Generates everything for a model with the strategy `D`.
pub fn gen_from_idl<D: DiscriminatorGen>(idl: &MyIdl) -> (r: Result<
    Generated,
    crate::error::SolGenError,
>)
    requires
        D::size_ok(idl@.instruction_discriminator_size),
    ensures
        r is Ok,
        r->Ok_0@ == generated_of::<D>(idl@),
        tags_have_len(
            r->Ok_0.dispatcher,
            D::tag_len(idl@.instruction_discriminator_size) as nat,
        ),
{
    let dispatcher = gen_dispatcher::<D>(idl)?;
    let contract = gen_contract(idl);
    let types = gen_types::<D>(idl);
    Ok(Generated { types, contract, dispatcher })
}

/// Generates everything for a description: normalizes it and generates with
/// the strategy that it names. It fails where that strategy cannot make tags
/// of the width asked for, and only there.
pub fn gen_from_config(config: crate::config::Config) -> (r: Result<
    Generated,
    crate::error::SolGenError,
>)
    ensures
        match r {
            Ok(g) => tag_size_ok(crate::my_idl::normalized(config@)) && g@ == generated(
                crate::my_idl::normalized(config@),
            ) && tags_have_len(g.dispatcher, tag_len_of(config@.ix_config)),
            Err(e) => !tag_size_ok(crate::my_idl::normalized(config@)) && e@
                == crate::error::SolGenErrorView::DiscriminatorSize(
                config@.ix_config.discriminator_size as usize,
            ),
        },
{
    let idl = MyIdl::from_config(&config);
    match idl.instruction_discriminator_type {
        DiscriminatorType::Hash => {
            if idl.instruction_discriminator_size <= 32 {
                gen_from_idl::<HashDiscriminatorGen>(&idl)
            } else {
                Err(
                    crate::error::SolGenError::DiscriminatorSize(
                        idl.instruction_discriminator_size,
                    ),
                )
            }
        },
        DiscriminatorType::Index => gen_from_idl::<IndexDiscriminatorGen>(&idl),
    }
}

/// The branch that a tag selects: the first whose tag it is, or none.
pub open spec fn route(branches: Seq<BranchView>, tag: Seq<u8>, from: int) -> Option<int>
    decreases branches.len() - from,
{
    if from < 0 || from >= branches.len() {
        None
    } else if branches[from].tag == tag {
        Some(from)
    } else {
        route(branches, tag, from + 1)
    }
}

/// A tag selects no branch exactly when it is the tag of none; a tag that
/// selects a branch is the tag of that branch and of none before it.
pub proof fn lemma_route(branches: Seq<BranchView>, tag: Seq<u8>, from: int)
    requires
        0 <= from <= branches.len(),
    ensures
        match route(branches, tag, from) {
            Some(i) => from <= i < branches.len() && branches[i].tag == tag && forall|j: int|
                from <= j < i ==> (#[trigger] branches[j]).tag != tag,
            None => forall|j: int| from <= j < branches.len() ==> (#[trigger] branches[j]).tag != tag,
        },
    decreases branches.len() - from,
{
    if from < branches.len() && branches[from].tag != tag {
        lemma_route(branches, tag, from + 1);
    }
}

/// Where a tag goes in the generated dispatcher.
#[derive(Debug, Clone, Copy, PartialEq, Eq, Structural)]
pub enum Dispatch {
    /// To the branch at this place.
    Branch(usize),
    /// To the one fallback: invalid instruction data.
    InvalidInstructionData,
}

impl Dispatcher {
    /// Where the generated dispatcher sends a tag: to the first branch whose
    /// tag it is, and to the fallback where it is the tag of no branch.
    pub fn dispatch(&self, tag: &[u8]) -> (r: Dispatch)
        ensures
            match r {
                Dispatch::Branch(i) => route(self@.branches, tag@, 0) == Some(i as int),
                Dispatch::InvalidInstructionData => route(self@.branches, tag@, 0) is None,
            },
            r is InvalidInstructionData <==> forall|j: int|
                0 <= j < self@.branches.len() ==> (#[trigger] self@.branches[j]).tag != tag@,
    {
        proof {
            lemma_route(self@.branches, tag@, 0);
        }
        let mut i: usize = 0;
        while i < self.branches.len()
            invariant
                i <= self.branches@.len(),
                route(self@.branches, tag@, i as int) == route(self@.branches, tag@, 0),
            decreases self.branches@.len() - i,
        {
            assert(self@.branches[i as int] == self.branches@[i as int]@);
            if bytes_eq(&self.branches[i].tag, tag) {
                return Dispatch::Branch(i);
            }
            i = i + 1;
        }
        Dispatch::InvalidInstructionData
    }
}

/// Whether two byte strings are equal.
pub fn bytes_eq(a: &Vec<u8>, b: &[u8]) -> (r: bool)
    ensures
        r == (a@ == b@),
{
    if a.len() != b.len() {
        return false;
    }
    let mut i: usize = 0;
    while i < a.len()
        invariant
            i <= a@.len(),
            a@.len() == b@.len(),
            forall|k: int| 0 <= k < i ==> a@[k] == b@[k],
        decreases a@.len() - i,
    {
        if a[i] != b[i] {
            return false;
        }
        i = i + 1;
    }
    assert(a@ =~= b@);
    true
}

/// Order independence: the order in which a description declares its
/// instructions, and that of its account kinds and messages, changes nothing
/// of the generated dispatcher, of its branches and their tags, or of the
/// handler trait. Both descriptions are well formed and declare the same
/// instructions.
pub proof fn lemma_dispatcher_order_independent(
    a: crate::config::ConfigView,
    b: crate::config::ConfigView,
)
    requires
        a.program == b.program,
        a.ix_config == b.ix_config,
        crate::order::same_items(a.ix, b.ix),
        crate::config::well_formed(a),
        crate::config::well_formed(b),
    ensures
        generated(crate::my_idl::normalized(a)).dispatcher == generated(
            crate::my_idl::normalized(b),
        ).dispatcher,
        generated(crate::my_idl::normalized(a)).contract == generated(
            crate::my_idl::normalized(b),
        ).contract,
{
    crate::my_idl::lemma_instructions_order_independent(a.ix, b.ix);
}

/// The branch of an instruction is the same wherever and beside whatever
/// the instruction is declared: other instructions do not change its tag.
pub proof fn lemma_branch_of_instruction_alone<D: DiscriminatorGen>(
    a: MyIdlView,
    b: MyIdlView,
    i: int,
    j: int,
)
    requires
        a.name == b.name,
        a.instruction_discriminator_size == b.instruction_discriminator_size,
        0 <= i < a.instructions.len(),
        0 <= j < b.instructions.len(),
        a.instructions[i] == b.instructions[j],
    ensures
        dispatcher_of::<D>(a).branches[i] == dispatcher_of::<D>(b).branches[j],
{
}

} // verus!
