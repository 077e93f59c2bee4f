//! The normalized model: what a valid description comes to, with its
//! instructions and their accounts in the order of their ids. Code is
//! generated from this model alone.

use vstd::prelude::*;
use vstd::string::*;
use vstd::std_specs::convert::FromSpecImpl;
use crate::config;
use crate::config::{named_views, names_distinct, string_views, DiscriminatorType, TypeView};
use crate::order::{
    has, key_less, key_order, key_views, keyed, lemma_key_order_sorts, lemma_sort_by_key_items,
    lemma_sort_by_key_order_independent, lemma_sort_by_key_ordered, same_items, sort_by_key,
    sorted_positions, Key, SortKey,
};
use crate::text::{chars_of, views};

verus! {

/// The type of a field or of an argument.
#[derive(Debug, PartialEq, Eq)]
pub enum Type {
    Bool,
    U8,
    U16,
    U32,
    U64,
    U128,
    I8,
    I16,
    I32,
    I64,
    I128,
    Bytes,
    String,
    PublicKey,
    Option(Box<Type>),
    FixedArray(Box<Type>, usize),
    DynamicArray(Box<Type>),
    Defined(String),
}

/// The type of the model that stands for a type of the description.
pub open spec fn type_from(t: config::Type) -> Type
    decreases t,
{
    match t {
        config::Type::Bool => Type::Bool,
        config::Type::U8 => Type::U8,
        config::Type::U16 => Type::U16,
        config::Type::U32 => Type::U32,
        config::Type::U64 => Type::U64,
        config::Type::U128 => Type::U128,
        config::Type::I8 => Type::I8,
        config::Type::I16 => Type::I16,
        config::Type::I32 => Type::I32,
        config::Type::I64 => Type::I64,
        config::Type::I128 => Type::I128,
        config::Type::Bytes => Type::Bytes,
        config::Type::String => Type::String,
        config::Type::PublicKey => Type::PublicKey,
        config::Type::Option(t) => Type::Option(Box::new(type_from(*t))),
        config::Type::FixedArray(t, n) => Type::FixedArray(Box::new(type_from(*t)), n),
        config::Type::DynamicArray(t) => Type::DynamicArray(Box::new(type_from(*t))),
        config::Type::Defined(s) => Type::Defined(s),
    }
}

/// What a [`Type`] holds, as plain values.
pub open spec fn type_view(t: Type) -> TypeView
    decreases t,
{
    match t {
        Type::Bool => TypeView::Bool,
        Type::U8 => TypeView::U8,
        Type::U16 => TypeView::U16,
        Type::U32 => TypeView::U32,
        Type::U64 => TypeView::U64,
        Type::U128 => TypeView::U128,
        Type::I8 => TypeView::I8,
        Type::I16 => TypeView::I16,
        Type::I32 => TypeView::I32,
        Type::I64 => TypeView::I64,
        Type::I128 => TypeView::I128,
        Type::Bytes => TypeView::Bytes,
        Type::String => TypeView::String,
        Type::PublicKey => TypeView::PublicKey,
        Type::Option(t) => TypeView::Option(Box::new(type_view(*t))),
        Type::FixedArray(t, n) => TypeView::FixedArray(Box::new(type_view(*t)), n),
        Type::DynamicArray(t) => TypeView::DynamicArray(Box::new(type_view(*t))),
        Type::Defined(s) => TypeView::Defined(s@),
    }
}

impl View for Type {
    type V = TypeView;

    open spec fn view(&self) -> TypeView {
        type_view(*self)
    }
}

/// A type of the model holds what the type of the description held.
pub proof fn lemma_type_from_view(t: config::Type)
    ensures
        type_from(t)@ == t@,
    decreases t,
{
    match t {
        config::Type::Option(i) => lemma_type_from_view(*i),
        config::Type::FixedArray(i, _) => lemma_type_from_view(*i),
        config::Type::DynamicArray(i) => lemma_type_from_view(*i),
        _ => {},
    }
}

impl Type {
    /// A copy of the type.
    pub fn duplicate(&self) -> (r: Type)
        ensures
            r@ == self@,
        decreases self,
    {
        match self {
            Type::Bool => Type::Bool,
            Type::U8 => Type::U8,
            Type::U16 => Type::U16,
            Type::U32 => Type::U32,
            Type::U64 => Type::U64,
            Type::U128 => Type::U128,
            Type::I8 => Type::I8,
            Type::I16 => Type::I16,
            Type::I32 => Type::I32,
            Type::I64 => Type::I64,
            Type::I128 => Type::I128,
            Type::Bytes => Type::Bytes,
            Type::String => Type::String,
            Type::PublicKey => Type::PublicKey,
            Type::Option(t) => Type::Option(Box::new(t.duplicate())),
            Type::FixedArray(t, n) => Type::FixedArray(Box::new(t.duplicate()), *n),
            Type::DynamicArray(t) => Type::DynamicArray(Box::new(t.duplicate())),
            Type::Defined(s) => Type::Defined(s.clone()),
        }
    }

    /// The type of the model for a type of the description.
    pub fn of_config(value: &config::Type) -> (r: Type)
        ensures
            r@ == value@,
        decreases value,
    {
        match value {
            config::Type::Bool => Type::Bool,
            config::Type::U8 => Type::U8,
            config::Type::U16 => Type::U16,
            config::Type::U32 => Type::U32,
            config::Type::U64 => Type::U64,
            config::Type::U128 => Type::U128,
            config::Type::I8 => Type::I8,
            config::Type::I16 => Type::I16,
            config::Type::I32 => Type::I32,
            config::Type::I64 => Type::I64,
            config::Type::I128 => Type::I128,
            config::Type::Bytes => Type::Bytes,
            config::Type::String => Type::String,
            config::Type::PublicKey => Type::PublicKey,
            config::Type::Option(ty) => Type::Option(Box::new(Type::of_config(ty))),
            config::Type::FixedArray(ty, n) => Type::FixedArray(Box::new(Type::of_config(ty)), *n),
            config::Type::DynamicArray(ty) => Type::DynamicArray(Box::new(Type::of_config(ty))),
            config::Type::Defined(ty) => Type::Defined(ty.clone()),
        }
    }

    /// The type of the model for a type of the description, which it takes
    /// over.
    pub fn convert(value: config::Type) -> (r: Type)
        ensures
            r == type_from(value),
        decreases value,
    {
        match value {
            config::Type::Bool => Type::Bool,
            config::Type::U8 => Type::U8,
            config::Type::U16 => Type::U16,
            config::Type::U32 => Type::U32,
            config::Type::U64 => Type::U64,
            config::Type::U128 => Type::U128,
            config::Type::I8 => Type::I8,
            config::Type::I16 => Type::I16,
            config::Type::I32 => Type::I32,
            config::Type::I64 => Type::I64,
            config::Type::I128 => Type::I128,
            config::Type::Bytes => Type::Bytes,
            config::Type::String => Type::String,
            config::Type::PublicKey => Type::PublicKey,
            config::Type::Option(ty) => Type::Option(Box::new(Type::convert(*ty))),
            config::Type::FixedArray(ty, n) => Type::FixedArray(Box::new(Type::convert(*ty)), n),
            config::Type::DynamicArray(ty) => Type::DynamicArray(Box::new(Type::convert(*ty))),
            config::Type::Defined(ty) => Type::Defined(ty),
        }
    }
}

impl FromSpecImpl<config::Type> for Type {
    open spec fn obeys_from_spec() -> bool {
        true
    }

    open spec fn from_spec(value: config::Type) -> Type {
        type_from(value)
    }
}

impl From<config::Type> for Type {
    /// The type of the model for a type of the description: the same type,
    /// with what it holds unchanged.
    fn from(value: config::Type) -> (r: Type)
        ensures
            r == type_from(value),
            r@ == value@,
    {
        proof {
            lemma_type_from_view(value);
        }
        Type::convert(value)
    }
}

/// The version of a program.
#[derive(Debug, PartialEq, Eq, Clone, Copy, Structural)]
pub struct Version {
    pub major: u8,
    pub minor: u8,
    pub patch: u8,
}

/// The width of the tag of an account's data.
#[derive(Debug, PartialEq, Eq, Clone, Copy, Structural)]
pub struct AccountDiscriminator {
    pub size: u8,
}

/// A part of a seed: a literal, or an input by its name.
#[derive(Debug, PartialEq, Eq)]
pub enum Seed {
    Defined(String),
    Input(String),
}

/// What a [`Seed`] holds, as plain values.
pub ghost enum SeedView {
    Defined(Seq<char>),
    Input(Seq<char>),
}

impl View for Seed {
    type V = SeedView;

    open spec fn view(&self) -> SeedView {
        match self {
            Seed::Defined(s) => SeedView::Defined(s@),
            Seed::Input(s) => SeedView::Input(s@),
        }
    }
}

/// The seed of an account at a derived address.
#[derive(Debug, PartialEq, Eq)]
pub struct AccountSeed {
    pub bump: bool,
    pub seeds: Vec<Seed>,
}

/// What a [`AccountSeed`] holds, as plain values.
pub ghost struct AccountSeedView {
    pub bump: bool,
    pub seeds: Seq<SeedView>,
}

impl View for AccountSeed {
    type V = AccountSeedView;

    open spec fn view(&self) -> AccountSeedView {
        AccountSeedView { bump: self.bump, seeds: views(self.seeds@) }
    }
}

/// A named field with its type.
#[derive(Debug, PartialEq, Eq)]
pub struct Field {
    pub name: String,
    pub ty: Type,
}

/// What a [`Field`] holds, as plain values.
pub ghost struct FieldView {
    pub name: Seq<char>,
    pub ty: TypeView,
}

impl View for Field {
    type V = FieldView;

    open spec fn view(&self) -> FieldView {
        FieldView { name: self.name@, ty: self.ty@ }
    }
}

/// An account type.
#[derive(Debug, PartialEq, Eq)]
pub struct Account {
    pub id: u8,
    pub name: String,
    pub fields: Vec<Field>,
    pub seed: Option<AccountSeed>,
    pub discriminator: Option<AccountDiscriminator>,
}

/// What a [`Account`] holds, as plain values.
pub ghost struct AccountView {
    pub id: u8,
    pub name: Seq<char>,
    pub fields: Seq<FieldView>,
    pub seed: Option<AccountSeedView>,
    pub discriminator: Option<AccountDiscriminator>,
}

impl View for Account {
    type V = AccountView;

    open spec fn view(&self) -> AccountView {
        AccountView {
            id: self.id,
            name: self.name@,
            fields: views(self.fields@),
            seed: match self.seed {
                Some(s) => Some(s@),
                None => None,
            },
            discriminator: self.discriminator,
        }
    }
}

/// What an instruction may do with an account.
#[derive(Debug, PartialEq, Eq, Clone, Copy, Structural)]
pub enum IxAccountState {
    Create,
    ReadOnly,
    Mutable,
}

impl IxAccountState {
    /// Whether the account is created.
    pub fn is_create(self) -> (r: bool)
        ensures
            r == (self == IxAccountState::Create),
    {
        self == IxAccountState::Create
    }

    /// Whether the account is written.
    pub fn is_mutable(self) -> (r: bool)
        ensures
            r == (self == IxAccountState::Mutable),
    {
        self == IxAccountState::Mutable
    }
}

/// An account that an instruction takes.
#[derive(Debug, PartialEq, Eq)]
pub struct InstructionAccount {
    pub id: u8,
    pub name: String,
    pub state: IxAccountState,
    pub is_signed: bool,
    pub seed: Option<Vec<String>>,
    pub payload: Option<String>,
}

/// What a [`InstructionAccount`] holds, as plain values.
pub ghost struct InstructionAccountView {
    pub id: u8,
    pub name: Seq<char>,
    pub state: IxAccountState,
    pub is_signed: bool,
    pub seed: Option<Seq<Seq<char>>>,
    pub payload: Option<Seq<char>>,
}

impl View for InstructionAccount {
    type V = InstructionAccountView;

    open spec fn view(&self) -> InstructionAccountView {
        InstructionAccountView {
            id: self.id,
            name: self.name@,
            state: self.state,
            is_signed: self.is_signed,
            seed: match self.seed {
                Some(s) => Some(string_views(s@)),
                None => None,
            },
            payload: match self.payload {
                Some(p) => Some(p@),
                None => None,
            },
        }
    }
}

/// An instruction: its accounts in the order of their ids, and its
/// arguments.
#[derive(Debug, PartialEq, Eq)]
pub struct Instruction {
    pub id: u8,
    pub name: String,
    pub accounts: Vec<InstructionAccount>,
    pub args: Vec<Field>,
}

/// What a [`Instruction`] holds, as plain values.
pub ghost struct InstructionView {
    pub id: u8,
    pub name: Seq<char>,
    pub accounts: Seq<InstructionAccountView>,
    pub args: Seq<FieldView>,
}

impl View for Instruction {
    type V = InstructionView;

    open spec fn view(&self) -> InstructionView {
        InstructionView {
            id: self.id,
            name: self.name@,
            accounts: views(self.accounts@),
            args: views(self.args@),
        }
    }
}

/// The normalized model of a program.
#[derive(Debug, PartialEq, Eq)]
pub struct MyIdl {
    pub version: Version,
    pub name: String,
    pub accounts: Vec<Account>,
    pub instructions: Vec<Instruction>,
    pub instruction_discriminator_size: usize,
    pub instruction_discriminator_type: DiscriminatorType,
}

/// What a [`MyIdl`] holds, as plain values.
pub ghost struct MyIdlView {
    pub version: Version,
    pub name: Seq<char>,
    pub accounts: Seq<AccountView>,
    pub instructions: Seq<InstructionView>,
    pub instruction_discriminator_size: usize,
    pub instruction_discriminator_type: DiscriminatorType,
}

impl View for MyIdl {
    type V = MyIdlView;

    open spec fn view(&self) -> MyIdlView {
        MyIdlView {
            version: self.version,
            name: self.name@,
            accounts: views(self.accounts@),
            instructions: views(self.instructions@),
            instruction_discriminator_size: self.instruction_discriminator_size,
            instruction_discriminator_type: self.instruction_discriminator_type,
        }
    }
}

/// The byte that an id is kept as: its lowest eight bits.
pub open spec fn id_byte(id: usize) -> u8 {
    (id % 256) as u8
}

/// The fields of a record, in the order given.
pub open spec fn fields_of(fs: Seq<(Seq<char>, TypeView)>) -> Seq<FieldView> {
    Seq::new(fs.len(), |k: int| FieldView { name: fs[k].0, ty: fs[k].1 })
}

/// The part of a seed, with an input named.
pub open spec fn seed_of(s: config::SeedTypeView, inputs: Seq<Seq<char>>) -> SeedView {
    match s {
        config::SeedTypeView::Defined(t) => SeedView::Defined(t),
        config::SeedTypeView::Input(i) => SeedView::Input(inputs[i as int]),
    }
}

/// The seed of the model for a seed of the description: each input by its
/// name.
pub open spec fn account_seed_of(s: config::AccountSeedView) -> AccountSeedView {
    AccountSeedView {
        bump: s.bump,
        seeds: Seq::new(s.func.func.len(), |k: int| seed_of(s.func.func[k], s.func.inputs)),
    }
}

/// The account type of the model for one of the description.
pub open spec fn account_of(name: Seq<char>, acc: config::AccountView) -> AccountView {
    AccountView {
        id: id_byte(acc.id),
        name,
        fields: match acc.payload {
            config::MessageView::Struct(fs) => fields_of(fs),
        },
        seed: match acc.seed {
            Some(s) => Some(account_seed_of(s)),
            None => None,
        },
        discriminator: match acc.discriminator {
            Some(config::AccountDiscriminator::Hash { size }) => Some(
                AccountDiscriminator { size },
            ),
            None => None,
        },
    }
}

/// What an instruction may do with an account, from its flags.
pub open spec fn state_of(create: bool, mutable: bool) -> IxAccountState {
    if create {
        IxAccountState::Create
    } else if mutable {
        IxAccountState::Mutable
    } else {
        IxAccountState::ReadOnly
    }
}

/// The account of the model for an account of an instruction.
pub open spec fn ix_account_of(name: Seq<char>, acc: config::IxAccountView) -> InstructionAccountView {
    InstructionAccountView {
        id: id_byte(acc.id),
        name,
        state: state_of(acc.create, acc.mutable),
        is_signed: acc.signed,
        seed: acc.seed,
        payload: acc.ty,
    }
}

/// The keys by which the accounts of an instruction are ordered.
pub open spec fn account_keys(accounts: Seq<(Seq<char>, config::IxAccountView)>) -> Seq<Key> {
    Seq::new(accounts.len(), |i: int| (accounts[i].1.id, accounts[i].0))
}

/// The accounts of an instruction in the order of their ids (and of their
/// names, where ids are equal).
pub open spec fn ix_accounts_of(accounts: Seq<(Seq<char>, config::IxAccountView)>) -> Seq<
    InstructionAccountView,
> {
    let o = key_order(account_keys(accounts));
    Seq::new(accounts.len(), |k: int| ix_account_of(accounts[o[k]].0, accounts[o[k]].1))
}

/// The instruction of the model for an instruction of the description.
pub open spec fn instruction_of(name: Seq<char>, ix: config::IxView) -> InstructionView {
    InstructionView {
        id: id_byte(ix.id),
        name,
        accounts: ix_accounts_of(ix.accounts),
        args: fields_of(ix.args),
    }
}

/// The keys by which the instructions are ordered.
pub open spec fn instruction_keys(ixs: Seq<(Seq<char>, config::IxView)>) -> Seq<Key> {
    Seq::new(ixs.len(), |i: int| (ixs[i].1.id, ixs[i].0))
}

/// The instructions in the order of their ids (and of their names, where ids
/// are equal).
pub open spec fn instructions_of(ixs: Seq<(Seq<char>, config::IxView)>) -> Seq<InstructionView> {
    let o = key_order(instruction_keys(ixs));
    Seq::new(ixs.len(), |k: int| instruction_of(ixs[o[k]].0, ixs[o[k]].1))
}

/// The account types, in the order given.
pub open spec fn accounts_of(accounts: Seq<(Seq<char>, config::AccountView)>) -> Seq<AccountView> {
    Seq::new(accounts.len(), |k: int| account_of(accounts[k].0, accounts[k].1))
}

/// The normalized model of a description.
pub open spec fn normalized(cfg: config::ConfigView) -> MyIdlView {
    MyIdlView {
        version: Version {
            major: cfg.program.version.0,
            minor: cfg.program.version.1,
            patch: cfg.program.version.2,
        },
        name: cfg.program.name,
        accounts: accounts_of(cfg.accounts),
        instructions: instructions_of(cfg.ix),
        instruction_discriminator_size: cfg.ix_config.discriminator_size as usize,
        instruction_discriminator_type: cfg.ix_config.discriminator_type,
    }
}

/// The fields of the model for the named types of the description.
pub fn fields_from(fs: &Vec<(String, config::Type)>) -> (r: Vec<Field>)
    ensures
        views(r@) == fields_of(named_views(fs@)),
{
    let mut out: Vec<Field> = Vec::new();
    let mut k: usize = 0;
    while k < fs.len()
        invariant
            k <= fs@.len(),
            out@.len() == k,
            forall|m: int| 0 <= m < k ==> (#[trigger] out@[m])@ == fields_of(named_views(fs@))[m],
        decreases fs@.len() - k,
    {
        out.push(Field { name: fs[k].0.clone(), ty: Type::of_config(&fs[k].1) });
        k = k + 1;
    }
    assert(views(out@) =~= fields_of(named_views(fs@)));
    out
}

/// A copy of a list of strings.
pub fn copy_strings(v: &Vec<String>) -> (r: Vec<String>)
    ensures
        string_views(r@) == string_views(v@),
{
    let mut out: Vec<String> = Vec::new();
    let mut k: usize = 0;
    while k < v.len()
        invariant
            k <= v@.len(),
            out@.len() == k,
            forall|m: int| 0 <= m < k ==> (#[trigger] out@[m])@ == v@[m]@,
        decreases v@.len() - k,
    {
        out.push(v[k].clone());
        k = k + 1;
    }
    assert(string_views(out@) =~= string_views(v@));
    out
}

impl AccountSeed {
    /// The seed of the model for a seed of the description: each input by its
    /// name.
    pub fn from_config(seed: &config::AccountSeed) -> (r: AccountSeed)
        ensures
            r@ == account_seed_of(seed@),
    {
        let func = seed.func.func();
        let inputs = seed.func.inputs();
        let mut seeds: Vec<Seed> = Vec::new();
        let mut k: usize = 0;
        while k < func.len()
            invariant
                k <= func@.len(),
                seeds@.len() == k,
                views(func@) == seed@.func.func,
                string_views(inputs@) == seed@.func.inputs,
                config::inputs_in_range(seed@.func),
                forall|m: int| 0 <= m < k ==> (#[trigger] seeds@[m])@ == account_seed_of(
                    seed@,
                ).seeds[m],
            decreases func@.len() - k,
        {
            assert(views(func@)[k as int] == func@[k as int]@);
            let s = match &func[k] {
                config::SeedType::Defined(s) => Seed::Defined(s.clone()),
                config::SeedType::Input(i) => {
                    assert(*i < inputs@.len());
                    assert(string_views(inputs@)[*i as int] == inputs@[*i as int]@);
                    Seed::Input(inputs[*i].clone())
                },
            };
            seeds.push(s);
            k = k + 1;
        }
        let r = AccountSeed { bump: seed.bump, seeds };
        assert(r@.seeds =~= account_seed_of(seed@).seeds);
        r
    }
}

impl Account {
    /// The account type of the model for the account type `acc` of the name
    /// `name`.
    pub fn from_config(name: &String, acc: &config::Account) -> (r: Account)
        ensures
            r@ == account_of(name@, acc@),
    {
        Account {
            id: (acc.id % 256) as u8,
            name: name.clone(),
            fields: match &acc.payload {
                config::Message::Struct(fields) => fields_from(fields),
            },
            seed: match &acc.seed {
                Some(s) => Some(AccountSeed::from_config(s)),
                None => None,
            },
            discriminator: match acc.discriminator {
                Some(config::AccountDiscriminator::Hash { size }) => Some(
                    AccountDiscriminator { size },
                ),
                None => None,
            },
        }
    }
}

impl InstructionAccount {
    /// The account of the model for the account `acc` of the name `name`.
    pub fn from_config(name: &String, acc: &config::IxAccount) -> (r: InstructionAccount)
        ensures
            r@ == ix_account_of(name@, acc@),
    {
        InstructionAccount {
            id: (acc.id % 256) as u8,
            name: name.clone(),
            state: if acc.create {
                IxAccountState::Create
            } else if acc.mutable {
                IxAccountState::Mutable
            } else {
                IxAccountState::ReadOnly
            },
            is_signed: acc.signed,
            seed: match &acc.seed {
                Some(s) => Some(copy_strings(s)),
                None => None,
            },
            payload: match &acc.ty {
                Some(t) => Some(t.clone()),
                None => None,
            },
        }
    }
}

impl Instruction {
    /// The accounts of an instruction in the order of their ids.
    pub fn accounts_from(accounts: &Vec<(String, config::IxAccount)>) -> (r: Vec<
        InstructionAccount,
    >)
        ensures
            views(r@) == ix_accounts_of(named_views(accounts@)),
    {
        let n: usize = accounts.len();
        let mut keys: Vec<SortKey> = Vec::new();
        let mut i: usize = 0;
        while i < n
            invariant
                n == accounts@.len(),
                i <= n,
                keys@.len() == i,
                forall|m: int| 0 <= m < i ==> (#[trigger] keys@[m])@ == account_keys(
                    named_views(accounts@),
                )[m],
            decreases n - i,
        {
            keys.push(SortKey { id: accounts[i].1.id, name: chars_of(accounts[i].0.as_str()) });
            i = i + 1;
        }
        assert(key_views(keys@) =~= account_keys(named_views(accounts@)));
        let order = sorted_positions(&keys);
        let mut out: Vec<InstructionAccount> = Vec::new();
        let mut k: usize = 0;
        while k < n
            invariant
                n == accounts@.len(),
                k <= n,
                order@.len() == n,
                out@.len() == k,
                forall|m: int| 0 <= m < n ==> (#[trigger] order@[m]) < n,
                forall|m: int|
                    0 <= m < n ==> (#[trigger] order@[m]) as int == key_order(
                        account_keys(named_views(accounts@)),
                    )[m],
                forall|m: int|
                    0 <= m < k ==> (#[trigger] out@[m])@ == ix_accounts_of(named_views(accounts@))[m],
            decreases n - k,
        {
            let p: usize = order[k];
            out.push(InstructionAccount::from_config(&accounts[p].0, &accounts[p].1));
            k = k + 1;
        }
        assert(views(out@) =~= ix_accounts_of(named_views(accounts@)));
        out
    }

    /// The instruction of the model for the instruction `ix` of the name
    /// `name`.
    pub fn from_config(name: &String, ix: &config::Ix) -> (r: Instruction)
        ensures
            r@ == instruction_of(name@, ix@),
    {
        Instruction {
            id: (ix.id % 256) as u8,
            name: name.clone(),
            accounts: Instruction::accounts_from(&ix.accounts),
            args: fields_from(&ix.args),
        }
    }
}

impl MyIdl {
    /// The instructions in the order of their ids.
    pub fn instructions_from(ixs: &Vec<(String, config::Ix)>) -> (r: Vec<Instruction>)
        ensures
            views(r@) == instructions_of(named_views(ixs@)),
    {
        let n: usize = ixs.len();
        let mut keys: Vec<SortKey> = Vec::new();
        let mut i: usize = 0;
        while i < n
            invariant
                n == ixs@.len(),
                i <= n,
                keys@.len() == i,
                forall|m: int| 0 <= m < i ==> (#[trigger] keys@[m])@ == instruction_keys(
                    named_views(ixs@),
                )[m],
            decreases n - i,
        {
            keys.push(SortKey { id: ixs[i].1.id, name: chars_of(ixs[i].0.as_str()) });
            i = i + 1;
        }
        assert(key_views(keys@) =~= instruction_keys(named_views(ixs@)));
        let order = sorted_positions(&keys);
        let mut out: Vec<Instruction> = Vec::new();
        let mut k: usize = 0;
        while k < n
            invariant
                n == ixs@.len(),
                k <= n,
                order@.len() == n,
                out@.len() == k,
                forall|m: int| 0 <= m < n ==> (#[trigger] order@[m]) < n,
                forall|m: int|
                    0 <= m < n ==> (#[trigger] order@[m]) as int == key_order(
                        instruction_keys(named_views(ixs@)),
                    )[m],
                forall|m: int|
                    0 <= m < k ==> (#[trigger] out@[m])@ == instructions_of(named_views(ixs@))[m],
            decreases n - k,
        {
            let p: usize = order[k];
            out.push(Instruction::from_config(&ixs[p].0, &ixs[p].1));
            k = k + 1;
        }
        assert(views(out@) =~= instructions_of(named_views(ixs@)));
        out
    }

    /// The account types, in the order given.
    pub fn accounts_from(accounts: &Vec<(String, config::Account)>) -> (r: Vec<Account>)
        ensures
            views(r@) == accounts_of(named_views(accounts@)),
    {
        let mut out: Vec<Account> = Vec::new();
        let mut k: usize = 0;
        while k < accounts.len()
            invariant
                k <= accounts@.len(),
                out@.len() == k,
                forall|m: int|
                    0 <= m < k ==> (#[trigger] out@[m])@ == accounts_of(named_views(accounts@))[m],
            decreases accounts@.len() - k,
        {
            out.push(Account::from_config(&accounts[k].0, &accounts[k].1));
            k = k + 1;
        }
        assert(views(out@) =~= accounts_of(named_views(accounts@)));
        out
    }

    /// The normalized model of a description: its instructions, and the
    /// accounts of each, in the order of their ids; everything else as given.
    pub fn from_config(value: &config::Config) -> (r: MyIdl)
        ensures
            r@ == normalized(value@),
    {
        MyIdl {
            version: Version {
                major: value.program.version.0,
                minor: value.program.version.1,
                patch: value.program.version.2,
            },
            name: value.program.name.clone(),
            instruction_discriminator_size: value.ix_config.discriminator_size as usize,
            instruction_discriminator_type: value.ix_config.discriminator_type,
            accounts: MyIdl::accounts_from(&value.accounts),
            instructions: MyIdl::instructions_from(&value.ix),
        }
    }
}

impl FromSpecImpl<config::Config> for MyIdl {
    open spec fn obeys_from_spec() -> bool {
        false
    }

    open spec fn from_spec(value: config::Config) -> MyIdl {
        arbitrary()
    }
}

impl From<config::Config> for MyIdl {
    /// The normalized model of a description: its instructions, and the
    /// accounts of each, in the order of their ids; everything else as given.
    fn from(value: config::Config) -> (r: MyIdl)
        ensures
            r@ == normalized(value@),
    {
        MyIdl::from_config(&value)
    }
}

/// The order in which the instructions of a description are declared does
/// not matter to the model: two lists of the same instructions, no two of
/// them of the same name, come to the same list of the model.
pub proof fn lemma_instructions_order_independent(
    a: Seq<(Seq<char>, config::IxView)>,
    b: Seq<(Seq<char>, config::IxView)>,
)
    requires
        same_items(a, b),
        names_distinct(a),
        names_distinct(b),
    ensures
        instructions_of(a) == instructions_of(b),
{
    let ka = keyed(instruction_keys(a), a);
    let kb = keyed(instruction_keys(b), b);
    assert forall|i: int| 0 <= i < ka.len() implies has(kb, #[trigger] ka[i]) by {
        let j = choose|j: int| 0 <= j < b.len() && b[j] == a[i];
        assert(kb[j] == ka[i]);
    }
    assert forall|i: int| 0 <= i < kb.len() implies has(ka, #[trigger] kb[i]) by {
        let j = choose|j: int| 0 <= j < a.len() && a[j] == b[i];
        assert(ka[j] == kb[i]);
    }
    assert forall|i: int, j: int| 0 <= i < j < ka.len() implies (#[trigger] ka[i]).0 != (
    #[trigger] ka[j]).0 by {
        assert(a[i].0 != a[j].0);
    }
    assert forall|i: int, j: int| 0 <= i < j < kb.len() implies (#[trigger] kb[i]).0 != (
    #[trigger] kb[j]).0 by {
        assert(b[i].0 != b[j].0);
    }
    lemma_sort_by_key_order_independent(ka, kb);
    lemma_key_order_sorts(instruction_keys(a), a);
    lemma_key_order_sorts(instruction_keys(b), b);
    let oa = key_order(instruction_keys(a));
    let ob = key_order(instruction_keys(b));
    assert forall|k: int| 0 <= k < a.len() implies instructions_of(a)[k] == instructions_of(
        b,
    )[k] by {
        assert(a[oa[k]] == sort_by_key(ka)[k].1);
        assert(b[ob[k]] == sort_by_key(kb)[k].1);
    }
    assert(instructions_of(a) =~= instructions_of(b));
}

/// The order in which the accounts of an instruction are declared does not
/// matter to the model: two lists of the same accounts, no two of them of
/// the same name, come to the same list of the model.
pub proof fn lemma_accounts_order_independent(
    a: Seq<(Seq<char>, config::IxAccountView)>,
    b: Seq<(Seq<char>, config::IxAccountView)>,
)
    requires
        same_items(a, b),
        names_distinct(a),
        names_distinct(b),
    ensures
        ix_accounts_of(a) == ix_accounts_of(b),
{
    let ka = keyed(account_keys(a), a);
    let kb = keyed(account_keys(b), b);
    assert forall|i: int| 0 <= i < ka.len() implies has(kb, #[trigger] ka[i]) by {
        let j = choose|j: int| 0 <= j < b.len() && b[j] == a[i];
        assert(kb[j] == ka[i]);
    }
    assert forall|i: int| 0 <= i < kb.len() implies has(ka, #[trigger] kb[i]) by {
        let j = choose|j: int| 0 <= j < a.len() && a[j] == b[i];
        assert(ka[j] == kb[i]);
    }
    assert forall|i: int, j: int| 0 <= i < j < ka.len() implies (#[trigger] ka[i]).0 != (
    #[trigger] ka[j]).0 by {
        assert(a[i].0 != a[j].0);
    }
    assert forall|i: int, j: int| 0 <= i < j < kb.len() implies (#[trigger] kb[i]).0 != (
    #[trigger] kb[j]).0 by {
        assert(b[i].0 != b[j].0);
    }
    lemma_sort_by_key_order_independent(ka, kb);
    lemma_key_order_sorts(account_keys(a), a);
    lemma_key_order_sorts(account_keys(b), b);
    let oa = key_order(account_keys(a));
    let ob = key_order(account_keys(b));
    assert forall|k: int| 0 <= k < a.len() implies ix_accounts_of(a)[k] == ix_accounts_of(b)[k] by {
        assert(a[oa[k]] == sort_by_key(ka)[k].1);
        assert(b[ob[k]] == sort_by_key(kb)[k].1);
    }
    assert(ix_accounts_of(a) =~= ix_accounts_of(b));
}

/// The instructions of the model in the order in which the description
/// declares them.
pub open spec fn instructions_as_declared(ixs: Seq<(Seq<char>, config::IxView)>) -> Seq<
    InstructionView,
> {
    Seq::new(ixs.len(), |i: int| instruction_of(ixs[i].0, ixs[i].1))
}

/// The instructions of the model are those of the description: none is left
/// out and none is added.
pub proof fn lemma_instructions_are_those_declared(ixs: Seq<(Seq<char>, config::IxView)>)
    ensures
        same_items(instructions_of(ixs), instructions_as_declared(ixs)),
{
    let keys = instruction_keys(ixs);
    let k = keyed(keys, ixs);
    lemma_key_order_sorts(keys, ixs);
    lemma_sort_by_key_items(k);
    let o = key_order(keys);
    let a = instructions_of(ixs);
    let b = instructions_as_declared(ixs);
    assert forall|i: int| 0 <= i < a.len() implies has(b, #[trigger] a[i]) by {
        assert(b[o[i]] == a[i]);
    }
    assert forall|i: int| 0 <= i < b.len() implies has(a, #[trigger] b[i]) by {
        assert(k[i] == (keys[i], ixs[i]));
        let m = choose|m: int| 0 <= m < sort_by_key(k).len() && sort_by_key(k)[m] == k[i];
        assert(ixs[o[m]] == sort_by_key(k)[m].1);
        assert(a[m] == b[i]);
    }
}

/// The instructions of the model stand in the order of their ids: no
/// instruction has a smaller id than one before it.
pub proof fn lemma_instructions_in_id_order(ixs: Seq<(Seq<char>, config::IxView)>, i: int, j: int)
    requires
        0 <= i <= j < ixs.len(),
    ensures
        0 <= key_order(instruction_keys(ixs))[i] < ixs.len(),
        0 <= key_order(instruction_keys(ixs))[j] < ixs.len(),
        ixs[key_order(instruction_keys(ixs))[i]].1.id <= ixs[key_order(
            instruction_keys(ixs),
        )[j]].1.id,
{
    let keys = instruction_keys(ixs);
    lemma_key_order_sorts(keys, ixs);
    lemma_sort_by_key_ordered(keyed(keys, ixs));
    let s = sort_by_key(keyed(keys, ixs));
    lemma_sort_by_key_items(keyed(keys, ixs));
    let a = choose|a: int| 0 <= a < ixs.len() && keyed(keys, ixs)[a] == s[i];
    let b = choose|b: int| 0 <= b < ixs.len() && keyed(keys, ixs)[b] == s[j];
    assert(s[i].0.0 == s[i].1.1.id);
    assert(s[j].0.0 == s[j].1.1.id);
    if i < j {
        assert(!key_less(s[j].0, s[i].0));
    }
}

} // verus!
