//! Source text straight from the syntax tree: each declaration of a schema
//! as the declaration that is generated for it.

use vstd::prelude::*;
use vstd::string::*;
use crate::ast::{
    Account, AccountField, Accounts, AccountsField, AccountsFieldView, AccountsView, Contract,
    ContractView, FieldView, Instruction, InstructionView, Message, MessageField, RecordView, Type,
};
use crate::config::string_views;
use vstd::utf8::encode_utf8;
use crate::discriminator::{hash_tag, instruction_seed_text, sha256, sha256_digest};
use crate::emit::{append_all, append_joined, byte_texts, concat_all, decimal, decimal_string, join_with};
use crate::names::{case_converted, to_case, NameCase};
use crate::text::str_eq;

verus! {

/// The name of the type that is generated for a declaration of the name
/// `name`.
pub open spec fn pascal_name(name: Seq<char>) -> Seq<char> {
    case_converted(name, NameCase::Pascal)
}

/// Whether source can be generated for a type: strings and arrays have no
/// generated form.
pub open spec fn type_supported(t: Type) -> bool {
    !(t is Str || t is Arr)
}

/// A type, as generated source writes it.
pub open spec fn ast_type_text(t: Type) -> Seq<char> {
    match t {
        Type::Bool => "bool"@,
        Type::U8 => "u8"@,
        Type::U64 => "u64"@,
        Type::F32 => "f32"@,
        Type::F64 => "f64"@,
        _ => Seq::empty(),
    }
}

/// A field of a record: `pub name: type,`.
pub open spec fn ast_field_text(f: FieldView) -> Seq<char> {
    "pub "@ + f.name.value + ": "@ + ast_type_text(f.ty) + ",\n"@
}

/// The fields of a record.
pub open spec fn ast_field_texts(fields: Seq<FieldView>) -> Seq<Seq<char>> {
    Seq::new(fields.len(), |k: int| ast_field_text(fields[k]))
}

/// Whether source can be generated for every one of the fields.
pub open spec fn fields_supported(fields: Seq<FieldView>) -> bool {
    forall|k: int| 0 <= k < fields.len() ==> type_supported((#[trigger] fields[k]).ty)
}

/// The record that is generated for a message.
pub open spec fn message_text(m: RecordView) -> Seq<char> {
    "#[derive(Debug, BorshDeserialize)]\npub struct "@ + pascal_name(m.name.value) + " {\n"@
        + concat_all(ast_field_texts(m.fields)) + "}\n"@
}

/// The record that is generated for an account.
pub open spec fn account_text(a: RecordView) -> Seq<char> {
    "#[derive(Debug, BorshSerialize, BorshDeserialize, AccountData)]\npub struct "@ + pascal_name(
        a.name.value,
    ) + " {\n"@ + concat_all(ast_field_texts(a.fields)) + "}\n"@
}

/// Whether an entry of an account list names the signer.
pub open spec fn is_signer(f: AccountsFieldView) -> bool {
    f.account.value == "Signer"@
}

/// Whether source can be generated for an entry of an account list: its
/// number is not 0, and the signer is not created.
pub open spec fn entry_supported(f: AccountsFieldView) -> bool {
    f.number >= 1 && !(is_signer(f) && f.init)
}

/// The expression that takes the account of an entry: the one at the place
/// before its number.
pub open spec fn entry_account_text(f: AccountsFieldView) -> Seq<char> {
    "accounts.get("@ + decimal((f.number - 1) as nat)
        + "usize).ok_or(pinocchio::ProgramError::NotEnoughAccountKeys)?"@
}

/// The access that an entry has, as the marker type of its handle.
pub open spec fn entry_access_text(f: AccountsFieldView) -> Seq<char> {
    if f.mutable {
        "Mutable"@
    } else {
        "Read"@
    }
}

/// The function that makes the account handle of an entry.
pub open spec fn entry_info_text(f: AccountsFieldView) -> Seq<char> {
    if f.mutable {
        "AccountInfo::new_mut("@
    } else {
        "AccountInfo::new_read("@
    }
}

/// The field of the accounts record for an entry.
pub open spec fn entry_field_text(f: AccountsFieldView) -> Seq<char> {
    if !is_signer(f) && f.init {
        "pub "@ + f.name.value + ": Account<'info, PhantomData<"@ + f.account.value
            + ">, Init>,\n"@
    } else {
        "pub "@ + f.name.value + ": Account<'info, "@ + f.account.value + ", "@
            + entry_access_text(f) + ">,\n"@
    }
}

/// The line that loads the handle of an entry.
pub open spec fn entry_load_text(f: AccountsFieldView) -> Seq<char> {
    if is_signer(f) {
        f.name.value + ": Account::new_singer("@ + entry_info_text(f) + entry_account_text(f)
            + ")?)?,\n"@
    } else if f.init {
        f.name.value + ": Account::new_init(AccountInfo::new_init("@ + entry_account_text(f)
            + ")?),\n"@
    } else {
        f.name.value + ": Account::new("@ + entry_info_text(f) + entry_account_text(f)
            + ")?)?,\n"@
    }
}

/// The fields of an accounts record.
pub open spec fn entry_field_texts(fields: Seq<AccountsFieldView>) -> Seq<Seq<char>> {
    Seq::new(fields.len(), |k: int| entry_field_text(fields[k]))
}

/// The lines that load the handles of an accounts record.
pub open spec fn entry_load_texts(fields: Seq<AccountsFieldView>) -> Seq<Seq<char>> {
    Seq::new(fields.len(), |k: int| entry_load_text(fields[k]))
}

/// Whether source can be generated for every entry of an account list.
pub open spec fn entries_supported(fields: Seq<AccountsFieldView>) -> bool {
    forall|k: int| 0 <= k < fields.len() ==> entry_supported(#[trigger] fields[k])
}

/// The accounts record that is generated for an account list, with its
/// loader.
pub open spec fn accounts_text(a: AccountsView) -> Seq<char> {
    "pub struct "@ + pascal_name(a.name.value) + "<'info> {\n"@ + concat_all(
        entry_field_texts(a.fields),
    ) + "}\nimpl<'info> "@ + pascal_name(a.name.value)
        + "<'info> {\npub fn load(accounts: &'info [pinocchio::AccountInfo]) -> Result<Self, pinocchio::ProgramError> {\nOk(Self {\n"@
        + concat_all(entry_load_texts(a.fields)) + "})\n}\n}\n"@
}

/// The width of the tags of the instructions of a contract.
pub const INSTRUCTION_TAG_SIZE: usize = 4;

/// The tag of an instruction of the contract `contract_name`: the first four
/// bytes of the SHA-256 digest of `<contract>|ix|<instruction>`.
pub open spec fn instruction_tag(contract_name: Seq<char>, ix: InstructionView) -> Seq<u8> {
    hash_tag(instruction_seed_text(contract_name, ix.name.value), INSTRUCTION_TAG_SIZE)
}

/// The branch of the dispatcher for an instruction.
pub open spec fn instruction_branch_text(contract_name: Seq<char>, ix: InstructionView) -> Seq<
    char,
> {
    "["@ + join_with(byte_texts(instruction_tag(contract_name, ix)), ", "@)
        + "] => {\nlet ctx = sol_ez::Context { program_id, accounts: super::"@
        + ix.accounts.value + "::load(accounts)? };\nT::"@ + ix.name.value + (match ix.payload {
        Some(_) => "(ctx, instruction_data.deserialize_data()?)\n}\n"@,
        None => "(ctx)\n}\n"@,
    })
}

/// The method of the handler trait for an instruction.
pub open spec fn instruction_method_text(ix: InstructionView) -> Seq<char> {
    "fn "@ + ix.name.value + "(accounts: sol_ez::Context<super::"@ + ix.accounts.value + ">"@ + (
    match ix.payload {
        Some(p) => ", payload: super::"@ + p.value,
        None => Seq::empty(),
    }) + ") -> ProgramResult;\n"@
}

/// The branches of the dispatcher of a contract.
pub open spec fn instruction_branch_texts(
    contract_name: Seq<char>,
    ixs: Seq<InstructionView>,
) -> Seq<Seq<char>> {
    Seq::new(ixs.len(), |k: int| instruction_branch_text(contract_name, ixs[k]))
}

/// The methods of the handler trait of a contract.
pub open spec fn instruction_method_texts(ixs: Seq<InstructionView>) -> Seq<Seq<char>> {
    Seq::new(ixs.len(), |k: int| instruction_method_text(ixs[k]))
}

/// The module that is generated for a contract: the dispatcher with one
/// branch per instruction and one fallback, and the handler trait. The tags
/// are those of the instructions in the contract of the name of its type.
pub open spec fn contract_module_text(c: ContractView) -> Seq<char> {
    let name = pascal_name(c.name.value);
    "pub mod "@ + case_converted(name + "Contract"@, NameCase::Snake)
        + " {\nuse core::marker::PhantomData;\nuse pinocchio::{account_info::AccountInfo, ProgramResult, program_error::ProgramError, pubkey::Pubkey};\npub struct "@
        + name + "Dispatcher<T> {\ninner: PhantomData<T>\n}\nimpl<T> sol_ez::Contract for "@
        + name + "Dispatcher<T> where T: "@ + name
        + "Contract {\nfn dispatch<'info>(program_id: &Pubkey, accounts: &'info [AccountInfo], payload: &[u8]) -> ProgramResult {\nlet instruction_data = sol_ez::InstructionData::new(payload)?;\nmatch instruction_data.ix {\n"@
        + concat_all(instruction_branch_texts(name, c.instructions))
        + "_ => Err(ProgramError::InvalidInstructionData)\n}\n}\n}\npub trait "@ + name
        + "Contract {\n"@ + concat_all(instruction_method_texts(c.instructions)) + "}\n}\n"@
}

impl Type {
    /// The type as generated source writes it.
    pub fn generate(&self) -> (r: String)
        requires
            type_supported(*self),
        ensures
            r@ == ast_type_text(*self),
    {
        match self {
            Type::Bool => String::from_str("bool"),
            Type::U8 => String::from_str("u8"),
            Type::U64 => String::from_str("u64"),
            Type::F32 => String::from_str("f32"),
            Type::F64 => String::from_str("f64"),
            _ => String::new(),
        }
    }

    /// Whether source can be generated for the type.
    pub fn supported(&self) -> (r: bool)
        ensures
            r == type_supported(*self),
    {
        match self {
            Type::Str(_) => false,
            Type::Arr(_) => false,
            _ => true,
        }
    }
}

impl<'a> MessageField<'a> {
    /// The field of the generated record.
    pub fn generate(&self) -> (r: String)
        requires
            type_supported(self.ty),
        ensures
            r@ == ast_field_text(self@),
    {
        String::from_str("pub ").concat(self.name.value).concat(": ").concat(
            self.ty.generate().as_str(),
        ).concat(",\n")
    }
}

impl<'a> AccountField<'a> {
    /// The field of the generated record.
    pub fn generate(&self) -> (r: String)
        requires
            type_supported(self.ty),
        ensures
            r@ == ast_field_text(self@),
    {
        String::from_str("pub ").concat(self.name.value).concat(": ").concat(
            self.ty.generate().as_str(),
        ).concat(",\n")
    }
}

impl<'a> Message<'a> {
    /// The name of the generated record.
    pub fn name(&self) -> (r: String)
        ensures
            r@ == pascal_name(self@.name.value),
    {
        to_case(self.name.value, NameCase::Pascal)
    }

    /// The record that is generated for the message.
    pub fn generate(&self) -> (r: String)
        requires
            fields_supported(self@.fields),
        ensures
            r@ == message_text(self@),
    {
        let mut lines: Vec<String> = Vec::new();
        let mut k: usize = 0;
        while k < self.fields.len()
            invariant
                k <= self.fields@.len(),
                lines@.len() == k,
                fields_supported(self@.fields),
                forall|j: int|
                    0 <= j < k ==> (#[trigger] lines@[j])@ == ast_field_text(self.fields@[j]@),
            decreases self.fields@.len() - k,
        {
            assert(self@.fields[k as int] == self.fields@[k as int]@);
            lines.push(self.fields[k].generate());
            k = k + 1;
        }
        assert(string_views(lines@) =~= ast_field_texts(self@.fields));
        let mut out = String::from_str("#[derive(Debug, BorshDeserialize)]\npub struct ").concat(
            self.name().as_str(),
        ).concat(" {\n");
        append_all(&mut out, &lines);
        out.append("}\n");
        out
    }
}

impl<'a> Account<'a> {
    /// The name of the generated record.
    pub fn name(&self) -> (r: String)
        ensures
            r@ == pascal_name(self@.name.value),
    {
        to_case(self.name.value, NameCase::Pascal)
    }

    /// The record that is generated for the account.
    pub fn generate(&self) -> (r: String)
        requires
            fields_supported(self@.fields),
        ensures
            r@ == account_text(self@),
    {
        let mut lines: Vec<String> = Vec::new();
        let mut k: usize = 0;
        while k < self.fields.len()
            invariant
                k <= self.fields@.len(),
                lines@.len() == k,
                fields_supported(self@.fields),
                forall|j: int|
                    0 <= j < k ==> (#[trigger] lines@[j])@ == ast_field_text(self.fields@[j]@),
            decreases self.fields@.len() - k,
        {
            assert(self@.fields[k as int] == self.fields@[k as int]@);
            lines.push(self.fields[k].generate());
            k = k + 1;
        }
        assert(string_views(lines@) =~= ast_field_texts(self@.fields));
        let mut out = String::from_str(
            "#[derive(Debug, BorshSerialize, BorshDeserialize, AccountData)]\npub struct ",
        ).concat(self.name().as_str()).concat(" {\n");
        append_all(&mut out, &lines);
        out.append("}\n");
        out
    }
}

impl<'a> AccountsField<'a> {
    /// The name of the entry as a type name.
    pub fn name(&self) -> (r: String)
        ensures
            r@ == pascal_name(self@.name.value),
    {
        to_case(self.name.value, NameCase::Pascal)
    }

    /// Whether source can be generated for the entry.
    pub fn supported(&self) -> (r: bool)
        ensures
            r == entry_supported(self@),
    {
        self.number >= 1 && !(str_eq(self.account.value, "Signer") && self.init)
    }

    /// The expression that takes the account of the entry.
    fn account_at(&self) -> (r: String)
        requires
            self.number >= 1,
        ensures
            r@ == entry_account_text(self@),
    {
        let idx: usize = (self.number - 1) as usize;
        String::from_str("accounts.get(").concat(decimal_string(idx).as_str()).concat(
            "usize).ok_or(pinocchio::ProgramError::NotEnoughAccountKeys)?",
        )
    }

    /// The field of the accounts record for the entry, and the line that
    /// loads it: the handle of a signer, of an account that is created, of
    /// one that is written, or of one that is read.
    pub fn generate(&self) -> (r: (String, String))
        requires
            entry_supported(self@),
        ensures
            r.0@ == entry_field_text(self@),
            r.1@ == entry_load_text(self@),
    {
        let signer = str_eq(self.account.value, "Signer");
        let access = if self.mutable {
            "Mutable"
        } else {
            "Read"
        };
        let info = if self.mutable {
            "AccountInfo::new_mut("
        } else {
            "AccountInfo::new_read("
        };
        let at = self.account_at();
        let field = if !signer && self.init {
            String::from_str("pub ").concat(self.name.value).concat(
                ": Account<'info, PhantomData<",
            ).concat(self.account.value).concat(">, Init>,\n")
        } else {
            String::from_str("pub ").concat(self.name.value).concat(": Account<'info, ").concat(
                self.account.value,
            ).concat(", ").concat(access).concat(">,\n")
        };
        let load = if signer {
            String::from_str(self.name.value).concat(": Account::new_singer(").concat(info).concat(
                at.as_str(),
            ).concat(")?)?,\n")
        } else if self.init {
            String::from_str(self.name.value).concat(
                ": Account::new_init(AccountInfo::new_init(",
            ).concat(at.as_str()).concat(")?),\n")
        } else {
            String::from_str(self.name.value).concat(": Account::new(").concat(info).concat(
                at.as_str(),
            ).concat(")?)?,\n")
        };
        (field, load)
    }
}

impl<'a> Accounts<'a> {
    /// The name of the generated accounts record.
    pub fn name(&self) -> (r: String)
        ensures
            r@ == pascal_name(self@.name.value),
    {
        to_case(self.name.value, NameCase::Pascal)
    }

    /// The accounts record that is generated for the account list, with its
    /// loader.
    pub fn generate(&self) -> (r: String)
        requires
            entries_supported(self@.fields),
        ensures
            r@ == accounts_text(self@),
    {
        let mut fields: Vec<String> = Vec::new();
        let mut loads: Vec<String> = Vec::new();
        let mut k: usize = 0;
        while k < self.fields.len()
            invariant
                k <= self.fields@.len(),
                fields@.len() == k,
                loads@.len() == k,
                entries_supported(self@.fields),
                forall|j: int|
                    0 <= j < k ==> (#[trigger] fields@[j])@ == entry_field_text(self.fields@[j]@),
                forall|j: int|
                    0 <= j < k ==> (#[trigger] loads@[j])@ == entry_load_text(self.fields@[j]@),
            decreases self.fields@.len() - k,
        {
            assert(self@.fields[k as int] == self.fields@[k as int]@);
            let (field, load) = self.fields[k].generate();
            fields.push(field);
            loads.push(load);
            k = k + 1;
        }
        assert(string_views(fields@) =~= entry_field_texts(self@.fields));
        assert(string_views(loads@) =~= entry_load_texts(self@.fields));
        let name = self.name();
        let mut out = String::from_str("pub struct ").concat(name.as_str()).concat(
            "<'info> {\n",
        );
        append_all(&mut out, &fields);
        out.append("}\nimpl<'info> ");
        out.append(name.as_str());
        out.append(
            "<'info> {\npub fn load(accounts: &'info [pinocchio::AccountInfo]) -> Result<Self, pinocchio::ProgramError> {\nOk(Self {\n",
        );
        append_all(&mut out, &loads);
        out.append("})\n}\n}\n");
        out
    }
}

impl<'a> Instruction<'a> {
    /// The tag of the instruction in the contract `contract_name`.
    pub fn discriminator(&self, contract_name: &str) -> (r: Vec<u8>)
        ensures
            r@ == instruction_tag(contract_name@, self@),
            r@.len() == INSTRUCTION_TAG_SIZE,
            sha256(encode_utf8(instruction_seed_text(contract_name@, self@.name.value))).len()
                == 32,
    {
        let seed = String::from_str(contract_name).concat("|ix|").concat(self.name.value);
        let text = seed.as_str();
        let data = text.as_bytes();
        let hash = sha256_digest(data);
        let mut bytes: Vec<u8> = Vec::new();
        let mut i: usize = 0;
        while i < INSTRUCTION_TAG_SIZE
            invariant
                i <= INSTRUCTION_TAG_SIZE,
                hash@.len() == 32,
                bytes@ == hash@.subrange(0, i as int),
            decreases INSTRUCTION_TAG_SIZE - i,
        {
            bytes.push(hash[i]);
            assert(hash@.subrange(0, i as int).push(hash@[i as int]) =~= hash@.subrange(
                0,
                i + 1,
            ));
            i = i + 1;
        }
        bytes
    }

    /// The branch of the dispatcher for the instruction, and its method of
    /// the handler trait. A branch with a payload hands the decoded payload on;
    /// one without takes nothing from the data.
    pub fn generate(&self, contract_name: &str) -> (r: (String, String))
        ensures
            r.0@ == instruction_branch_text(contract_name@, self@),
            r.1@ == instruction_method_text(self@),
    {
        let tag = self.discriminator(contract_name);
        let mut bytes: Vec<String> = Vec::new();
        let mut k: usize = 0;
        while k < tag.len()
            invariant
                k <= tag@.len(),
                bytes@.len() == k,
                forall|j: int|
                    0 <= j < k ==> (#[trigger] bytes@[j])@ == decimal(tag@[j] as nat) + "u8"@,
            decreases tag@.len() - k,
        {
            bytes.push(decimal_string(tag[k] as usize).concat("u8"));
            k = k + 1;
        }
        assert(string_views(bytes@) =~= byte_texts(tag@));
        let mut branch = String::from_str("[");
        append_joined(&mut branch, &bytes, ", ");
        branch.append("] => {\nlet ctx = sol_ez::Context { program_id, accounts: super::");
        branch.append(self.accounts.value);
        branch.append("::load(accounts)? };\nT::");
        branch.append(self.name.value);
        let mut method = String::from_str("fn ").concat(self.name.value).concat(
            "(accounts: sol_ez::Context<super::",
        ).concat(self.accounts.value).concat(">");
        match &self.payload {
            Some(p) => {
                branch.append("(ctx, instruction_data.deserialize_data()?)\n}\n");
                method.append(", payload: super::");
                method.append(p.value);
                assert(method@ =~= "fn "@ + self@.name.value + "(accounts: sol_ez::Context<super::"@
                    + self@.accounts.value + ">"@ + (", payload: super::"@ + p@.value));
            },
            None => {
                branch.append("(ctx)\n}\n");
                assert(method@ =~= "fn "@ + self@.name.value + "(accounts: sol_ez::Context<super::"@
                    + self@.accounts.value + ">"@ + Seq::<char>::empty());
            },
        }
        method.append(") -> ProgramResult;\n");
        (branch, method)
    }
}

impl<'a> Contract<'a> {
    /// The name of the contract as a type name.
    pub fn name(&self) -> (r: String)
        ensures
            r@ == pascal_name(self@.name.value),
    {
        to_case(self.name.value, NameCase::Pascal)
    }

    /// The module that is generated for the contract: the dispatcher, with
    /// one branch per instruction in the order of the declarations and one
    /// fallback for every other tag, and the handler trait.
    pub fn generate(&self) -> (r: String)
        ensures
            r@ == contract_module_text(self@),
    {
        let name = self.name();
        let mut branches: Vec<String> = Vec::new();
        let mut methods: Vec<String> = Vec::new();
        let mut k: usize = 0;
        while k < self.instructions.len()
            invariant
                k <= self.instructions@.len(),
                branches@.len() == k,
                methods@.len() == k,
                name@ == pascal_name(self.name.value@),
                forall|j: int|
                    0 <= j < k ==> (#[trigger] branches@[j])@ == instruction_branch_text(
                        name@,
                        self.instructions@[j]@,
                    ),
                forall|j: int|
                    0 <= j < k ==> (#[trigger] methods@[j])@ == instruction_method_text(
                        self.instructions@[j]@,
                    ),
            decreases self.instructions@.len() - k,
        {
            let (branch, method) = self.instructions[k].generate(name.as_str());
            branches.push(branch);
            methods.push(method);
            k = k + 1;
        }
        assert(string_views(branches@) =~= instruction_branch_texts(name@, self@.instructions));
        assert(string_views(methods@) =~= instruction_method_texts(self@.instructions));
        let module = to_case(name.clone().concat("Contract").as_str(), NameCase::Snake);
        let mut out = String::from_str("pub mod ").concat(module.as_str()).concat(
            " {\nuse core::marker::PhantomData;\nuse pinocchio::{account_info::AccountInfo, ProgramResult, program_error::ProgramError, pubkey::Pubkey};\npub struct ",
        ).concat(name.as_str()).concat(
            "Dispatcher<T> {\ninner: PhantomData<T>\n}\nimpl<T> sol_ez::Contract for ",
        ).concat(name.as_str()).concat("Dispatcher<T> where T: ").concat(name.as_str()).concat(
            "Contract {\nfn dispatch<'info>(program_id: &Pubkey, accounts: &'info [AccountInfo], payload: &[u8]) -> ProgramResult {\nlet instruction_data = sol_ez::InstructionData::new(payload)?;\nmatch instruction_data.ix {\n",
        );
        append_all(&mut out, &branches);
        out.append("_ => Err(ProgramError::InvalidInstructionData)\n}\n}\n}\npub trait ");
        out.append(name.as_str());
        out.append("Contract {\n");
        append_all(&mut out, &methods);
        out.append("}\n}\n");
        out
    }
}

} // verus!
