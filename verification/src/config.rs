//! The declarative description of a program, and the rules that it has to
//! meet before code is generated from it.

use vstd::prelude::*;
use vstd::string::*;
use crate::error::{SolGenError, SolGenErrorView};
use crate::text::{
    chars_of, copy_range, ranges_of, split_all, split_all_in, split_once, split_once_in,
    string_from_chars, strip_prefix, strip_prefix_in, strip_suffix, strip_suffix_in, trim_in,
    trimmed, views, Range,
};

verus! {

/// The type of a field or of an argument.
#[derive(Debug, PartialEq, Eq)]
pub enum Type {
    Bool,
    U8,
    U16,
    U32,
    U64,
    U128,
    I8,
    I16,
    I32,
    I64,
    I128,
    Bytes,
    String,
    PublicKey,
    Option(Box<Type>),
    FixedArray(Box<Type>, usize),
    DynamicArray(Box<Type>),
    Defined(String),
}

/// What a [`Type`] holds, as plain values.
pub ghost enum TypeView {
    Bool,
    U8,
    U16,
    U32,
    U64,
    U128,
    I8,
    I16,
    I32,
    I64,
    I128,
    Bytes,
    String,
    PublicKey,
    Option(Box<TypeView>),
    FixedArray(Box<TypeView>, usize),
    DynamicArray(Box<TypeView>),
    Defined(Seq<char>),
}

/// What a [`Type`] holds, as plain values.
pub open spec fn type_view(t: Type) -> TypeView
    decreases t,
{
    match t {
        Type::Bool => TypeView::Bool,
        Type::U8 => TypeView::U8,
        Type::U16 => TypeView::U16,
        Type::U32 => TypeView::U32,
        Type::U64 => TypeView::U64,
        Type::U128 => TypeView::U128,
        Type::I8 => TypeView::I8,
        Type::I16 => TypeView::I16,
        Type::I32 => TypeView::I32,
        Type::I64 => TypeView::I64,
        Type::I128 => TypeView::I128,
        Type::Bytes => TypeView::Bytes,
        Type::String => TypeView::String,
        Type::PublicKey => TypeView::PublicKey,
        Type::Option(t) => TypeView::Option(Box::new(type_view(*t))),
        Type::FixedArray(t, n) => TypeView::FixedArray(Box::new(type_view(*t)), n),
        Type::DynamicArray(t) => TypeView::DynamicArray(Box::new(type_view(*t))),
        Type::Defined(s) => TypeView::Defined(s@),
    }
}

impl View for Type {
    type V = TypeView;

    open spec fn view(&self) -> TypeView {
        type_view(*self)
    }
}

impl Type {
    /// A copy of the type.
    pub fn duplicate(&self) -> (r: Type)
        ensures
            r@ == self@,
        decreases self,
    {
        match self {
            Type::Bool => Type::Bool,
            Type::U8 => Type::U8,
            Type::U16 => Type::U16,
            Type::U32 => Type::U32,
            Type::U64 => Type::U64,
            Type::U128 => Type::U128,
            Type::I8 => Type::I8,
            Type::I16 => Type::I16,
            Type::I32 => Type::I32,
            Type::I64 => Type::I64,
            Type::I128 => Type::I128,
            Type::Bytes => Type::Bytes,
            Type::String => Type::String,
            Type::PublicKey => Type::PublicKey,
            Type::Option(t) => Type::Option(Box::new(t.duplicate())),
            Type::FixedArray(t, n) => Type::FixedArray(Box::new(t.duplicate()), *n),
            Type::DynamicArray(t) => Type::DynamicArray(Box::new(t.duplicate())),
            Type::Defined(s) => Type::Defined(s.clone()),
        }
    }
}

/// The views of named items, each with its name.
pub open spec fn named_views<T: View>(s: Seq<(String, T)>) -> Seq<(Seq<char>, T::V)> {
    Seq::new(s.len(), |i: int| (s[i].0@, s[i].1@))
}

/// The strings of `s` as plain values.
pub open spec fn string_views(s: Seq<String>) -> Seq<Seq<char>> {
    Seq::new(s.len(), |i: int| s[i]@)
}

/// The program's name and version.
#[derive(Debug, PartialEq, Eq)]
pub struct Program {
    pub name: String,
    pub version: (u8, u8, u8),
}

/// What a [`Program`] holds, as plain values.
pub ghost struct ProgramView {
    pub name: Seq<char>,
    pub version: (u8, u8, u8),
}

impl View for Program {
    type V = ProgramView;

    open spec fn view(&self) -> ProgramView {
        ProgramView { name: self.name@, version: self.version }
    }
}

/// How the binary tag of an instruction is derived.
#[derive(Debug, PartialEq, Eq, Clone, Copy, Structural)]
pub enum DiscriminatorType {
    Hash,
    Index,
}

/// The width of the tags of instructions and how they are derived.
#[derive(Debug, PartialEq, Eq, Clone, Copy, Structural)]
pub struct IxConfig {
    pub discriminator_size: u8,
    pub discriminator_type: DiscriminatorType,
}

/// An account that an instruction takes, with its capability flags.
#[derive(Debug, PartialEq, Eq)]
pub struct IxAccount {
    pub id: usize,
    pub create: bool,
    pub mutable: bool,
    pub signed: bool,
    pub ty: Option<String>,
    pub seed: Option<Vec<String>>,
}

/// What a [`IxAccount`] holds, as plain values.
pub ghost struct IxAccountView {
    pub id: usize,
    pub create: bool,
    pub mutable: bool,
    pub signed: bool,
    pub ty: Option<Seq<char>>,
    pub seed: Option<Seq<Seq<char>>>,
}

impl View for IxAccount {
    type V = IxAccountView;

    open spec fn view(&self) -> IxAccountView {
        IxAccountView {
            id: self.id,
            create: self.create,
            mutable: self.mutable,
            signed: self.signed,
            ty: match self.ty {
                Some(t) => Some(t@),
                None => None,
            },
            seed: match self.seed {
                Some(s) => Some(string_views(s@)),
                None => None,
            },
        }
    }
}

/// An instruction: its id, its arguments and the accounts it takes, each
/// under its name.
#[derive(Debug, PartialEq, Eq)]
pub struct Ix {
    pub id: usize,
    pub args: Vec<(String, Type)>,
    pub accounts: Vec<(String, IxAccount)>,
}

/// What a [`Ix`] holds, as plain values.
pub ghost struct IxView {
    pub id: usize,
    pub args: Seq<(Seq<char>, TypeView)>,
    pub accounts: Seq<(Seq<char>, IxAccountView)>,
}

impl View for Ix {
    type V = IxView;

    open spec fn view(&self) -> IxView {
        IxView {
            id: self.id,
            args: named_views(self.args@),
            accounts: named_views(self.accounts@),
        }
    }
}

/// A record of named fields.
#[derive(Debug, PartialEq, Eq)]
pub enum Message {
    Struct(Vec<(String, Type)>),
}

/// What a [`Message`] holds, as plain values.
pub ghost enum MessageView {
    Struct(Seq<(Seq<char>, TypeView)>),
}

impl View for Message {
    type V = MessageView;

    open spec fn view(&self) -> MessageView {
        match self {
            Message::Struct(fields) => MessageView::Struct(named_views(fields@)),
        }
    }
}

/// A part of the seed of a derived address: a literal, or the input at an
/// index of the seed function's inputs.
#[derive(Debug, PartialEq, Eq)]
pub enum SeedType {
    Defined(String),
    Input(usize),
}

/// What a [`SeedType`] holds, as plain values.
pub ghost enum SeedTypeView {
    Defined(Seq<char>),
    Input(usize),
}

impl View for SeedType {
    type V = SeedTypeView;

    open spec fn view(&self) -> SeedTypeView {
        match self {
            SeedType::Defined(s) => SeedTypeView::Defined(s@),
            SeedType::Input(i) => SeedTypeView::Input(*i),
        }
    }
}

/// Whether every input that the parts of a seed function name by its index is
/// among the function's inputs.
pub open spec fn inputs_in_range(f: AccountSeedFuncView) -> bool {
    forall|k: int|
        0 <= k < f.func.len() ==> match #[trigger] f.func[k] {
            SeedTypeView::Input(i) => i < f.inputs.len(),
            SeedTypeView::Defined(_) => true,
        }
}

/// A seed function: the names of its inputs and the parts that it joins. A
/// part that names an input names one of these inputs.
#[derive(Debug, PartialEq, Eq)]
pub struct AccountSeedFunc {
    inputs: Vec<String>,
    func: Vec<SeedType>,
}

/// What a [`AccountSeedFunc`] holds, as plain values.
pub ghost struct AccountSeedFuncView {
    pub inputs: Seq<Seq<char>>,
    pub func: Seq<SeedTypeView>,
}

impl View for AccountSeedFunc {
    type V = AccountSeedFuncView;

    closed spec fn view(&self) -> AccountSeedFuncView {
        AccountSeedFuncView { inputs: string_views(self.inputs@), func: views(self.func@) }
    }
}

impl AccountSeedFunc {
    #[verifier::type_invariant]
    spec fn inv(self) -> bool {
        inputs_in_range(self@)
    }

    /// A seed function of the given inputs and parts, if every part that names
    /// an input names one of them.
    pub fn new(inputs: Vec<String>, func: Vec<SeedType>) -> (r: Option<AccountSeedFunc>)
        ensures
            match r {
                Some(f) => f@.inputs == string_views(inputs@) && f@.func == views(func@)
                    && inputs_in_range(f@),
                None => !inputs_in_range(
                    AccountSeedFuncView { inputs: string_views(inputs@), func: views(func@) },
                ),
            },
    {
        let ghost v = AccountSeedFuncView { inputs: string_views(inputs@), func: views(func@) };
        let mut k: usize = 0;
        while k < func.len()
            invariant
                k <= func@.len(),
                v == (AccountSeedFuncView { inputs: string_views(inputs@), func: views(func@) }),
                forall|m: int|
                    0 <= m < k ==> match #[trigger] v.func[m] {
                        SeedTypeView::Input(i) => i < v.inputs.len(),
                        SeedTypeView::Defined(_) => true,
                    },
            decreases func@.len() - k,
        {
            assert(v.func[k as int] == func@[k as int]@);
            match &func[k] {
                SeedType::Input(i) => {
                    if *i >= inputs.len() {
                        return None;
                    }
                },
                SeedType::Defined(_) => {},
            }
            k = k + 1;
        }
        Some(AccountSeedFunc { inputs, func })
    }

    /// The names of the inputs.
    pub fn inputs(&self) -> (r: &Vec<String>)
        ensures
            string_views(r@) == self@.inputs,
    {
        &self.inputs
    }

    /// The parts that the function joins.
    pub fn func(&self) -> (r: &Vec<SeedType>)
        ensures
            views(r@) == self@.func,
            inputs_in_range(self@),
    {
        proof {
            use_type_invariant(self);
        }
        &self.func
    }
}

/// The seed of an account at a derived address.
#[derive(Debug, PartialEq, Eq)]
pub struct AccountSeed {
    pub bump: bool,
    pub func: AccountSeedFunc,
}

/// What a [`AccountSeed`] holds, as plain values.
pub ghost struct AccountSeedView {
    pub bump: bool,
    pub func: AccountSeedFuncView,
}

impl View for AccountSeed {
    type V = AccountSeedView;

    open spec fn view(&self) -> AccountSeedView {
        AccountSeedView { bump: self.bump, func: self.func@ }
    }
}

/// How an account's data is tagged.
#[derive(Debug, PartialEq, Eq, Clone, Copy, Structural)]
pub enum AccountDiscriminator {
    Hash { size: u8 },
}

/// An account type: its id, its fields and, where it lives at a derived
/// address, its seed.
#[derive(Debug, PartialEq, Eq)]
pub struct Account {
    pub id: usize,
    pub payload: Message,
    pub seed: Option<AccountSeed>,
    pub discriminator: Option<AccountDiscriminator>,
}

/// What a [`Account`] holds, as plain values.
pub ghost struct AccountView {
    pub id: usize,
    pub payload: MessageView,
    pub seed: Option<AccountSeedView>,
    pub discriminator: Option<AccountDiscriminator>,
}

impl View for Account {
    type V = AccountView;

    open spec fn view(&self) -> AccountView {
        AccountView {
            id: self.id,
            payload: self.payload@,
            seed: match self.seed {
                Some(s) => Some(s@),
                None => None,
            },
            discriminator: self.discriminator,
        }
    }
}

/// The description of a program: its instructions, account types and
/// message types. Each list stands for a map from names and is kept in the
/// order in which it was given; the description is well formed
/// ([`well_formed`]) when no name occurs twice in a list.
#[derive(Debug, PartialEq, Eq)]
pub struct Config {
    pub program: Program,
    pub ix: Vec<(String, Ix)>,
    pub ix_config: IxConfig,
    pub accounts: Vec<(String, Account)>,
    pub message: Vec<(String, Message)>,
}

/// What a [`Config`] holds, as plain values.
pub ghost struct ConfigView {
    pub program: ProgramView,
    pub ix: Seq<(Seq<char>, IxView)>,
    pub ix_config: IxConfig,
    pub accounts: Seq<(Seq<char>, AccountView)>,
    pub message: Seq<(Seq<char>, MessageView)>,
}

impl View for Config {
    type V = ConfigView;

    open spec fn view(&self) -> ConfigView {
        ConfigView {
            program: self.program@,
            ix: named_views(self.ix@),
            ix_config: self.ix_config,
            accounts: named_views(self.accounts@),
            message: named_views(self.message@),
        }
    }
}

/// Whether no two of the named entries have the same name.
pub open spec fn names_distinct<T>(s: Seq<(Seq<char>, T)>) -> bool {
    forall|i: int, j: int| 0 <= i < j < s.len() ==> (#[trigger] s[i]).0 != (#[trigger] s[j]).0
}

/// Whether no two fields of a message type have the same name.
pub open spec fn message_well_formed(m: MessageView) -> bool {
    match m {
        MessageView::Struct(fields) => names_distinct(fields),
    }
}

/// A well-formed description: each of its lists is a map from names, so that
/// no name occurs twice among the instructions, among the arguments or the
/// accounts of one instruction, among the account kinds, among the message
/// types, or among the fields of one account kind or message type.
pub open spec fn well_formed(cfg: ConfigView) -> bool {
    &&& names_distinct(cfg.ix)
    &&& names_distinct(cfg.accounts)
    &&& names_distinct(cfg.message)
    &&& forall|i: int|
        0 <= i < cfg.ix.len() ==> names_distinct((#[trigger] cfg.ix[i]).1.args) && names_distinct(
            cfg.ix[i].1.accounts,
        )
    &&& forall|i: int|
        0 <= i < cfg.accounts.len() ==> message_well_formed((#[trigger] cfg.accounts[i]).1.payload)
    &&& forall|i: int| 0 <= i < cfg.message.len() ==> message_well_formed((#[trigger] cfg.message[i]).1)
}

/// Whether no two of the named entries have the same name.
pub fn has_distinct_names<T: View>(v: &Vec<(String, T)>) -> (r: bool)
    ensures
        r == names_distinct(named_views(v@)),
{
    let mut j: usize = 0;
    while j < v.len()
        invariant
            j <= v@.len(),
            forall|a: int, b: int|
                0 <= a < b < j ==> (#[trigger] named_views(v@)[a]).0 != (#[trigger] named_views(
                    v@,
                )[b]).0,
        decreases v@.len() - j,
    {
        let mut i: usize = 0;
        while i < j
            invariant
                i <= j < v@.len(),
                forall|a: int| 0 <= a < i ==> (#[trigger] named_views(v@)[a]).0 != named_views(v@)[j as int].0,
            decreases j - i,
        {
            if v[i].0 == v[j].0 {
                assert(named_views(v@)[i as int].0 == named_views(v@)[j as int].0);
                return false;
            }
            i = i + 1;
        }
        j = j + 1;
    }
    true
}

impl Message {
    /// Whether no two fields of the message type have the same name.
    pub fn is_well_formed(&self) -> (r: bool)
        ensures
            r == message_well_formed(self@),
    {
        match self {
            Message::Struct(fields) => has_distinct_names(fields),
        }
    }
}

/// Whether an account type or a message type of the name `ty` is declared.
pub open spec fn declares(cfg: ConfigView, ty: Seq<char>) -> bool {
    ||| exists|k: int| 0 <= k < cfg.accounts.len() && (#[trigger] cfg.accounts[k]).0 == ty
    ||| exists|k: int| 0 <= k < cfg.message.len() && (#[trigger] cfg.message[k]).0 == ty
}

/// Whether an account before the `j`-th of the list has the id of the `j`-th.
pub open spec fn shares_id(accounts: Seq<(Seq<char>, IxAccountView)>, j: int) -> bool {
    exists|k: int| 0 <= k < j && (#[trigger] accounts[k]).1.id == accounts[j].1.id
}

/// What is wrong with the `j`-th account of the instruction `ix`, if anything:
/// an id that an earlier account of the instruction has; creation together
/// with `mutable` or `signed`; a payload type that is not declared.
pub open spec fn account_fault(
    cfg: ConfigView,
    ix: Seq<char>,
    accounts: Seq<(Seq<char>, IxAccountView)>,
    j: int,
) -> Option<SolGenErrorView> {
    let name = accounts[j].0;
    let acc = accounts[j].1;
    if shares_id(accounts, j) {
        Some(SolGenErrorView::DuplicateId(ix, name))
    } else if acc.create && (acc.mutable || acc.signed) {
        Some(SolGenErrorView::ContradictoryFlags(ix, name))
    } else if acc.ty is Some && !declares(cfg, acc.ty->Some_0) {
        Some(SolGenErrorView::UndefinedType(ix, name, acc.ty->Some_0))
    } else {
        None
    }
}

/// The first fault among the accounts of an instruction from the `j`-th on.
pub open spec fn accounts_fault(
    cfg: ConfigView,
    ix: Seq<char>,
    accounts: Seq<(Seq<char>, IxAccountView)>,
    j: int,
) -> Option<SolGenErrorView>
    decreases accounts.len() - j,
{
    if j < 0 || j >= accounts.len() {
        None
    } else {
        match account_fault(cfg, ix, accounts, j) {
            Some(e) => Some(e),
            None => accounts_fault(cfg, ix, accounts, j + 1),
        }
    }
}

/// The first fault among the instructions from the `i`-th on.
pub open spec fn config_fault(cfg: ConfigView, i: int) -> Option<SolGenErrorView>
    decreases cfg.ix.len() - i,
{
    if i < 0 || i >= cfg.ix.len() {
        None
    } else {
        match accounts_fault(cfg, cfg.ix[i].0, cfg.ix[i].1.accounts, 0) {
            Some(e) => Some(e),
            None => config_fault(cfg, i + 1),
        }
    }
}

/// The first fault of a description, in the order of its instructions and of
/// their accounts.
pub open spec fn first_fault(cfg: ConfigView) -> Option<SolGenErrorView> {
    config_fault(cfg, 0)
}

/// A valid description: within each instruction no two accounts share an id,
/// no account is created and also mutable or signed, and every payload type
/// that an account names is declared.
pub open spec fn valid(cfg: ConfigView) -> bool {
    forall|i: int, j: int|
        0 <= i < cfg.ix.len() && 0 <= j < cfg.ix[i].1.accounts.len() ==> (#[trigger] account_fault(
            cfg,
            cfg.ix[i].0,
            cfg.ix[i].1.accounts,
            j,
        )) is None
}

/// The accounts of an instruction from the `j`-th on have no fault exactly
/// when none of them has one.
pub proof fn lemma_accounts_fault(
    cfg: ConfigView,
    ix: Seq<char>,
    accounts: Seq<(Seq<char>, IxAccountView)>,
    j: int,
)
    requires
        0 <= j <= accounts.len(),
    ensures
        accounts_fault(cfg, ix, accounts, j) is None <==> forall|k: int|
            j <= k < accounts.len() ==> (#[trigger] account_fault(cfg, ix, accounts, k)) is None,
    decreases accounts.len() - j,
{
    if j < accounts.len() {
        lemma_accounts_fault(cfg, ix, accounts, j + 1);
    }
}

/// The instructions from the `i`-th on have no fault exactly when no account
/// of any of them has one.
pub proof fn lemma_config_fault(cfg: ConfigView, i: int)
    requires
        0 <= i <= cfg.ix.len(),
    ensures
        config_fault(cfg, i) is None <==> forall|a: int, j: int|
            i <= a < cfg.ix.len() && 0 <= j < cfg.ix[a].1.accounts.len() ==> (
            #[trigger] account_fault(cfg, cfg.ix[a].0, cfg.ix[a].1.accounts, j)) is None,
    decreases cfg.ix.len() - i,
{
    if i < cfg.ix.len() {
        lemma_config_fault(cfg, i + 1);
        lemma_accounts_fault(cfg, cfg.ix[i].0, cfg.ix[i].1.accounts, 0);
    }
}

/// A description has no fault exactly when it is valid.
pub proof fn lemma_no_fault_iff_valid(cfg: ConfigView)
    ensures
        first_fault(cfg) is None <==> valid(cfg),
{
    lemma_config_fault(cfg, 0);
}

/// A description in which two accounts of one instruction share an id is
/// rejected.
pub proof fn lemma_duplicate_id_rejected(cfg: ConfigView, i: int, a: int, b: int)
    requires
        0 <= i < cfg.ix.len(),
        0 <= a < b < cfg.ix[i].1.accounts.len(),
        cfg.ix[i].1.accounts[a].1.id == cfg.ix[i].1.accounts[b].1.id,
    ensures
        first_fault(cfg) is Some,
        !valid(cfg),
{
    lemma_no_fault_iff_valid(cfg);
    let accounts = cfg.ix[i].1.accounts;
    assert(shares_id(accounts, b)) by {
        assert(accounts[a].1.id == accounts[b].1.id);
    }
    assert(account_fault(cfg, cfg.ix[i].0, accounts, b) is Some);
}

/// A description with an account that is created and also mutable or signed
/// is rejected.
pub proof fn lemma_contradictory_flags_rejected(cfg: ConfigView, i: int, j: int)
    requires
        0 <= i < cfg.ix.len(),
        0 <= j < cfg.ix[i].1.accounts.len(),
        cfg.ix[i].1.accounts[j].1.create,
        cfg.ix[i].1.accounts[j].1.mutable || cfg.ix[i].1.accounts[j].1.signed,
    ensures
        first_fault(cfg) is Some,
        !valid(cfg),
{
    lemma_no_fault_iff_valid(cfg);
    assert(account_fault(cfg, cfg.ix[i].0, cfg.ix[i].1.accounts, j) is Some);
}

impl Config {
    /// Whether the description is well formed: whether no name occurs twice in
    /// any of its lists.
    pub fn is_well_formed(&self) -> (r: bool)
        ensures
            r == well_formed(self@),
    {
        if !has_distinct_names(&self.ix) || !has_distinct_names(&self.accounts)
            || !has_distinct_names(&self.message) {
            return false;
        }
        let mut i: usize = 0;
        while i < self.ix.len()
            invariant
                i <= self.ix@.len(),
                forall|k: int|
                    0 <= k < i ==> names_distinct((#[trigger] self@.ix[k]).1.args)
                        && names_distinct(self@.ix[k].1.accounts),
            decreases self.ix@.len() - i,
        {
            assert(self@.ix[i as int].1 == self.ix@[i as int].1@);
            if !has_distinct_names(&self.ix[i].1.args) || !has_distinct_names(
                &self.ix[i].1.accounts,
            ) {
                return false;
            }
            i = i + 1;
        }
        let mut i: usize = 0;
        while i < self.accounts.len()
            invariant
                i <= self.accounts@.len(),
                forall|k: int|
                    0 <= k < self@.ix.len() ==> names_distinct((#[trigger] self@.ix[k]).1.args)
                        && names_distinct(self@.ix[k].1.accounts),
                forall|k: int|
                    0 <= k < i ==> message_well_formed((#[trigger] self@.accounts[k]).1.payload),
            decreases self.accounts@.len() - i,
        {
            assert(self@.accounts[i as int].1 == self.accounts@[i as int].1@);
            if !self.accounts[i].1.payload.is_well_formed() {
                return false;
            }
            i = i + 1;
        }
        let mut i: usize = 0;
        while i < self.message.len()
            invariant
                i <= self.message@.len(),
                forall|k: int|
                    0 <= k < self@.ix.len() ==> names_distinct((#[trigger] self@.ix[k]).1.args)
                        && names_distinct(self@.ix[k].1.accounts),
                forall|k: int|
                    0 <= k < self@.accounts.len() ==> message_well_formed(
                        (#[trigger] self@.accounts[k]).1.payload,
                    ),
                forall|k: int| 0 <= k < i ==> message_well_formed((#[trigger] self@.message[k]).1),
            decreases self.message@.len() - i,
        {
            assert(self@.message[i as int].1 == self.message@[i as int].1@);
            if !self.message[i].1.is_well_formed() {
                return false;
            }
            i = i + 1;
        }
        true
    }

    /// Whether a type of the name `ty` is declared among the account types or
    /// the message types.
    pub fn declares_type(&self, ty: &String) -> (r: bool)
        ensures
            r == declares(self@, ty@),
    {
        let mut k: usize = 0;
        while k < self.accounts.len()
            invariant
                k <= self.accounts@.len(),
                forall|m: int| 0 <= m < k ==> (#[trigger] self@.accounts[m]).0 != ty@,
            decreases self.accounts@.len() - k,
        {
            if self.accounts[k].0 == *ty {
                assert(self@.accounts[k as int].0 == ty@);
                return true;
            }
            k = k + 1;
        }
        let mut k: usize = 0;
        while k < self.message.len()
            invariant
                k <= self.message@.len(),
                forall|m: int| 0 <= m < self.accounts@.len() ==> (#[trigger] self@.accounts[m]).0
                    != ty@,
                forall|m: int| 0 <= m < k ==> (#[trigger] self@.message[m]).0 != ty@,
            decreases self.message@.len() - k,
        {
            if self.message[k].0 == *ty {
                assert(self@.message[k as int].0 == ty@);
                return true;
            }
            k = k + 1;
        }
        false
    }

    /// Checks the `j`-th account of the `i`-th instruction.
    pub fn check_account(&self, i: usize, j: usize) -> (r: Result<(), SolGenError>)
        requires
            i < self.ix@.len(),
            j < self.ix@[i as int].1.accounts@.len(),
        ensures
            match r {
                Ok(_) => account_fault(self@, self@.ix[i as int].0, self@.ix[i as int].1.accounts, j as int)
                    is None,
                Err(e) => account_fault(
                    self@,
                    self@.ix[i as int].0,
                    self@.ix[i as int].1.accounts,
                    j as int,
                ) == Some(e@),
            },
    {
        let ix_name = &self.ix[i].0;
        let accounts = &self.ix[i].1.accounts;
        let acc_name = &accounts[j].0;
        let acc = &accounts[j].1;
        let ghost list = self@.ix[i as int].1.accounts;
        assert(list[j as int] == (acc_name@, acc@));
        let mut k: usize = 0;
        while k < j
            invariant
                k <= j < accounts@.len(),
                i < self.ix@.len(),
                list == named_views(accounts@),
                list == self@.ix[i as int].1.accounts,
                ix_name@ == self@.ix[i as int].0,
                acc_name@ == list[j as int].0,
                forall|m: int| 0 <= m < k ==> (#[trigger] list[m]).1.id != list[j as int].1.id,
            decreases j - k,
        {
            if accounts[k].1.id == accounts[j].1.id {
                assert(list[k as int].1.id == list[j as int].1.id);
                return Err(SolGenError::DuplicateId(ix_name.clone(), acc_name.clone()));
            }
            k = k + 1;
        }
        if acc.create && (acc.mutable || acc.signed) {
            return Err(SolGenError::ContradictoryFlags(ix_name.clone(), acc_name.clone()));
        }
        match &acc.ty {
            Some(ty) => {
                if !self.declares_type(ty) {
                    return Err(
                        SolGenError::UndefinedType(ix_name.clone(), acc_name.clone(), ty.clone()),
                    );
                }
            },
            None => {},
        }
        Ok(())
    }

    /// Checks the rules of a description and reports the first fault: within
    /// an instruction, an id that two accounts share; an account that is
    /// created and also mutable or signed; a payload type that is not declared.
    ///
    /// The seeds that an account of an instruction names are not checked
    /// against the inputs of the seed function of its kind: a description that
    /// passes may still name a seed that resolves to nothing.
    pub fn validate(&self) -> (r: Result<(), SolGenError>)
        ensures
            r is Ok <==> valid(self@),
            match r {
                Ok(_) => first_fault(self@) is None,
                Err(e) => first_fault(self@) == Some(e@),
            },
    {
        proof {
            lemma_no_fault_iff_valid(self@);
        }
        let mut i: usize = 0;
        while i < self.ix.len()
            invariant
                i <= self.ix@.len(),
                config_fault(self@, i as int) == first_fault(self@),
            decreases self.ix@.len() - i,
        {
            let n: usize = self.ix[i].1.accounts.len();
            let mut j: usize = 0;
            while j < n
                invariant
                    i < self.ix@.len(),
                    n == self.ix@[i as int].1.accounts@.len(),
                    j <= n,
                    config_fault(self@, i as int) == first_fault(self@),
                    accounts_fault(self@, self@.ix[i as int].0, self@.ix[i as int].1.accounts, j as int)
                        == accounts_fault(
                        self@,
                        self@.ix[i as int].0,
                        self@.ix[i as int].1.accounts,
                        0,
                    ),
                decreases n - j,
            {
                self.check_account(i, j)?;
                j = j + 1;
            }
            i = i + 1;
        }
        Ok(())
    }
}

/// The place of the first of `inputs` that is `name`.
pub open spec fn position_of(inputs: Seq<Seq<char>>, name: Seq<char>, from: int) -> Option<int>
    decreases inputs.len() - from,
{
    if from < 0 || from >= inputs.len() {
        None
    } else if inputs[from] == name {
        Some(from)
    } else {
        position_of(inputs, name, from + 1)
    }
}

/// A part of a seed function, from its text without the white space around
/// it: a literal between single quotes, or the name of one of the inputs.
pub open spec fn seed_part(text: Seq<char>, inputs: Seq<Seq<char>>) -> Result<
    SeedTypeView,
    Seq<char>,
> {
    let t = trimmed(text);
    let literal = match strip_prefix(t, "'"@) {
        Some(rest) => strip_suffix(rest, "'"@),
        None => None,
    };
    match literal {
        Some(l) => Ok(SeedTypeView::Defined(l)),
        None => match position_of(inputs, t, 0) {
            Some(i) => Ok(SeedTypeView::Input(i as usize)),
            None => Err("Invalid seed func arg not defined: "@ + t),
        },
    }
}

/// The parts of a seed function from the `k`-th text on, after those of
/// `acc`; the first part that names no input is the error.
pub open spec fn seed_parts(
    texts: Seq<Seq<char>>,
    inputs: Seq<Seq<char>>,
    k: int,
    acc: Seq<SeedTypeView>,
) -> Result<Seq<SeedTypeView>, Seq<char>>
    decreases texts.len() - k,
{
    if k < 0 || k >= texts.len() {
        Ok(acc)
    } else {
        match seed_part(texts[k], inputs) {
            Ok(p) => seed_parts(texts, inputs, k + 1, acc.push(p)),
            Err(e) => Err(e),
        }
    }
}

/// The names of the inputs: the texts between commas, each without the white
/// space around it.
pub open spec fn input_names(list: Seq<char>) -> Seq<Seq<char>> {
    Seq::new(split_all(list, ',').len(), |k: int| trimmed(split_all(list, ',')[k]))
}

/// The seed function that `s` writes, as `[input, ..] => part + ..`: the
/// inputs between the first `[` and the next `]` before the first `=>`, the
/// parts behind it. The error is the message for the first thing amiss.
pub open spec fn seed_func(s: Seq<char>) -> Result<AccountSeedFuncView, Seq<char>> {
    match split_once(s, "=>"@) {
        None => Err("Invalid seed func format: "@ + s),
        Some((head, body)) => {
            let list = match split_once(head, "["@) {
                Some((_, after)) => match split_once(after, "]"@) {
                    Some((list, _)) => Some(list),
                    None => None,
                },
                None => None,
            };
            match list {
                None => Err("Invalid seed input format: "@ + s),
                Some(list) => match seed_parts(
                    split_all(body, '+'),
                    input_names(list),
                    0,
                    Seq::empty(),
                ) {
                    Ok(func) => Ok(AccountSeedFuncView { inputs: input_names(list), func }),
                    Err(e) => Err(e),
                },
            }
        },
    }
}

impl AccountSeedFunc {
    /// Reads one part of a seed function from the range `r` of `v`.
    fn parse_part(v: &Vec<char>, r: Range, inputs: &Vec<String>) -> (out: Result<
        SeedType,
        String,
    >)
        requires
            r.within(v@.len()),
        ensures
            match out {
                Ok(p) => seed_part(r.of(v@), string_views(inputs@)) == Ok::<
                    SeedTypeView,
                    Seq<char>,
                >(p@) && (match p {
                    SeedType::Input(i) => i < inputs@.len(),
                    SeedType::Defined(_) => true,
                }),
                Err(e) => seed_part(r.of(v@), string_views(inputs@)) == Err::<
                    SeedTypeView,
                    Seq<char>,
                >(e@),
            },
    {
        let t = trim_in(v, r);
        let literal = match strip_prefix_in(v, t, &chars_of("'")) {
            Some(rest) => strip_suffix_in(v, rest, &chars_of("'")),
            None => None,
        };
        match literal {
            Some(l) => {
                return Ok(SeedType::Defined(string_from_chars(&copy_range(v, l))));
            },
            None => {},
        }
        let name = string_from_chars(&copy_range(v, t));
        let mut k: usize = 0;
        while k < inputs.len()
            invariant
                k <= inputs@.len(),
                name@ == trimmed(r.of(v@)),
                t.of(v@) == trimmed(r.of(v@)),
                (match strip_prefix(t.of(v@), "'"@) {
                    Some(rest) => strip_suffix(rest, "'"@),
                    None => None,
                }) is None,
                position_of(string_views(inputs@), name@, k as int) == position_of(
                    string_views(inputs@),
                    name@,
                    0,
                ),
            decreases inputs@.len() - k,
        {
            assert(string_views(inputs@)[k as int] == inputs@[k as int]@);
            if inputs[k] == name {
                return Ok(SeedType::Input(k));
            }
            k = k + 1;
        }
        Err(String::from_str("Invalid seed func arg not defined: ").concat(name.as_str()))
    }

    /// Reads a seed function from its text `[input, ..] => part + ..`, where a
    /// part is a literal between single quotes or the name of an input.
    pub fn from_str(s: &str) -> (r: Result<AccountSeedFunc, String>)
        ensures
            match r {
                Ok(f) => seed_func(s@) == Ok::<AccountSeedFuncView, Seq<char>>(f@),
                Err(e) => seed_func(s@) == Err::<AccountSeedFuncView, Seq<char>>(e@),
            },
    {
        let v = chars_of(s);
        let all = Range { lo: 0, hi: v.len() };
        assert(all.of(v@) =~= s@);
        let (head, body) = match split_once_in(&v, all, &chars_of("=>")) {
            Some(parts) => parts,
            None => {
                return Err(String::from_str("Invalid seed func format: ").concat(s));
            },
        };
        let list = match split_once_in(&v, head, &chars_of("[")) {
            Some((_, after)) => match split_once_in(&v, after, &chars_of("]")) {
                Some((list, _)) => Some(list),
                None => None,
            },
            None => None,
        };
        let list = match list {
            Some(list) => list,
            None => {
                return Err(String::from_str("Invalid seed input format: ").concat(s));
            },
        };
        let names = split_all_in(&v, list, ',');
        let mut inputs: Vec<String> = Vec::new();
        let mut k: usize = 0;
        while k < names.len()
            invariant
                k <= names@.len(),
                inputs@.len() == k,
                ranges_of(names@, v@) == split_all(list.of(v@), ','),
                forall|m: int| 0 <= m < names@.len() ==> (#[trigger] names@[m]).within(v@.len()),
                forall|m: int|
                    0 <= m < k ==> (#[trigger] inputs@[m])@ == input_names(list.of(v@))[m],
            decreases names@.len() - k,
        {
            assert(ranges_of(names@, v@)[k as int] == names@[k as int].of(v@));
            let t = trim_in(&v, names[k]);
            inputs.push(string_from_chars(&copy_range(&v, t)));
            k = k + 1;
        }
        assert(string_views(inputs@) =~= input_names(list.of(v@)));
        let texts = split_all_in(&v, body, '+');
        let mut func: Vec<SeedType> = Vec::new();
        let mut k: usize = 0;
        assert(views(func@) =~= Seq::<SeedTypeView>::empty());
        while k < texts.len()
            invariant
                k <= texts@.len(),
                ranges_of(texts@, v@) == split_all(body.of(v@), '+'),
                forall|m: int| 0 <= m < texts@.len() ==> (#[trigger] texts@[m]).within(v@.len()),
                string_views(inputs@) == input_names(list.of(v@)),
                seed_parts(ranges_of(texts@, v@), string_views(inputs@), k as int, views(func@))
                    == seed_parts(
                    split_all(body.of(v@), '+'),
                    input_names(list.of(v@)),
                    0,
                    Seq::empty(),
                ),
                seed_func(s@) == (match seed_parts(
                    split_all(body.of(v@), '+'),
                    input_names(list.of(v@)),
                    0,
                    Seq::empty(),
                ) {
                    Ok(func) => Ok::<AccountSeedFuncView, Seq<char>>(
                        AccountSeedFuncView { inputs: input_names(list.of(v@)), func },
                    ),
                    Err(e) => Err::<AccountSeedFuncView, Seq<char>>(e),
                }),
                forall|m: int|
                    0 <= m < func@.len() ==> match #[trigger] func@[m] {
                        SeedType::Input(i) => i < inputs@.len(),
                        SeedType::Defined(_) => true,
                    },
            decreases texts@.len() - k,
        {
            assert(ranges_of(texts@, v@)[k as int] == texts@[k as int].of(v@));
            let part = AccountSeedFunc::parse_part(&v, texts[k], &inputs)?;
            proof {
                assert(views(func@.push(part)) =~= views(func@).push(part@));
            }
            func.push(part);
            k = k + 1;
        }
        proof {
            let fv = AccountSeedFuncView { inputs: string_views(inputs@), func: views(func@) };
            assert forall|m: int| 0 <= m < fv.func.len() implies match #[trigger] fv.func[m] {
                SeedTypeView::Input(i) => i < fv.inputs.len(),
                SeedTypeView::Defined(_) => true,
            } by {
                assert(fv.func[m] == func@[m]@);
            }
        }
        Ok(AccountSeedFunc { inputs, func })
    }
}

impl core::str::FromStr for AccountSeedFunc {
    type Err = String;

    /// Reads a seed function from its text, as the function of the same name
    /// of the type does: the seed function that `s` writes, or the message
    /// for the first thing amiss.
    fn from_str(s: &str) -> (r: Result<Self, String>)
        ensures
            match r {
                Ok(f) => seed_func(s@) == Ok::<AccountSeedFuncView, Seq<char>>(f@),
                Err(e) => seed_func(s@) == Err::<AccountSeedFuncView, Seq<char>>(e@),
            },
    {
        AccountSeedFunc::from_str(s)
    }
}

} // verus!
