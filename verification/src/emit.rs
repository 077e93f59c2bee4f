//! The emitter: from the generated declarations to source text, and through
//! one deterministic pretty-printing pass to the text of the generated file.

use vstd::prelude::*;
use vstd::string::*;
use crate::codegen::{
    AccountHandle, AccountHandleView, AccountRecord, AccountRecordView, AccountsRecord,
    AccountsRecordView, ArgBinding, ArgBindingView, Branch, BranchView, ContractTrait,
    ContractTraitView, Dispatcher, DispatcherView, Generated, GeneratedView, Method, MethodView,
    Payload, PayloadView,
};
use crate::codegen::{gen_from_config, generated, tag_size_ok};
use crate::config::{first_fault, string_views, Config, ConfigView, TypeView};
use crate::error::{SolGenError, SolGenErrorView};
use crate::my_idl::normalized;
use crate::names::{check_identifier, is_identifier};
use crate::discriminator::{TagSeed, TagSeedView};
use crate::my_idl::{Field, FieldView, IxAccountState, Type};
use crate::text::{chars_of, string_from_chars, views};

verus! {

/// The parts `parts` one after another.
pub open spec fn concat_all(parts: Seq<Seq<char>>) -> Seq<char>
    decreases parts.len(),
{
    if parts.len() == 0 {
        Seq::empty()
    } else {
        concat_all(parts.drop_last()) + parts.last()
    }
}

/// The parts `parts` one after another, with `sep` between them.
pub open spec fn join_with(parts: Seq<Seq<char>>, sep: Seq<char>) -> Seq<char>
    decreases parts.len(),
{
    if parts.len() == 0 {
        Seq::empty()
    } else if parts.len() == 1 {
        parts[0]
    } else {
        join_with(parts.drop_last(), sep) + sep + parts.last()
    }
}

/// The decimal digit of a number below ten.
pub open spec fn digit_char(d: nat) -> char {
    if d == 0 {
        '0'
    } else if d == 1 {
        '1'
    } else if d == 2 {
        '2'
    } else if d == 3 {
        '3'
    } else if d == 4 {
        '4'
    } else if d == 5 {
        '5'
    } else if d == 6 {
        '6'
    } else if d == 7 {
        '7'
    } else if d == 8 {
        '8'
    } else {
        '9'
    }
}

/// `n` in decimal, without leading zeros.
pub open spec fn decimal(n: nat) -> Seq<char>
    decreases n,
{
    if n < 10 {
        seq![digit_char(n)]
    } else {
        decimal(n / 10).push(digit_char(n % 10))
    }
}

/// One character of a string, as it stands in a string literal.
pub open spec fn escaped_char(c: char) -> Seq<char> {
    if c == '"' {
        seq!['\\', '"']
    } else if c == '\\' {
        seq!['\\', '\\']
    } else if c == '\n' {
        seq!['\\', 'n']
    } else if c == '\r' {
        seq!['\\', 'r']
    } else if c == '\t' {
        seq!['\\', 't']
    } else if c == '\0' {
        seq!['\\', '0']
    } else {
        seq![c]
    }
}

/// The characters of `s`, as they stand in a string literal.
pub open spec fn escaped(s: Seq<char>) -> Seq<char>
    decreases s.len(),
{
    if s.len() == 0 {
        Seq::empty()
    } else {
        escaped(s.drop_last()) + escaped_char(s.last())
    }
}

/// The string literal that writes `s`.
pub open spec fn string_literal(s: Seq<char>) -> Seq<char> {
    seq!['"'] + escaped(s) + seq!['"']
}

/// A type, as generated source writes it.
pub open spec fn type_text(t: TypeView) -> Seq<char>
    decreases t,
{
    match t {
        TypeView::Bool => "bool"@,
        TypeView::U8 => "u8"@,
        TypeView::U16 => "u16"@,
        TypeView::U32 => "u32"@,
        TypeView::U64 => "u64"@,
        TypeView::U128 => "u128"@,
        TypeView::I8 => "i8"@,
        TypeView::I16 => "i16"@,
        TypeView::I32 => "i32"@,
        TypeView::I64 => "i64"@,
        TypeView::I128 => "i128"@,
        TypeView::Bytes => "Vec<u8>"@,
        TypeView::String => "String"@,
        TypeView::PublicKey => "[u8; 32]"@,
        TypeView::Option(t) => "Option<"@ + type_text(*t) + ">"@,
        TypeView::FixedArray(t, n) => "["@ + type_text(*t) + "; "@ + decimal(n as nat) + "usize]"@,
        TypeView::DynamicArray(t) => "Vec<"@ + type_text(*t) + ">"@,
        TypeView::Defined(name) => name,
    }
}

/// A seed, as the attribute of a record writes it.
pub open spec fn seed_text(seed: TagSeedView) -> Seq<char> {
    match seed {
        TagSeedView::Text(s) => string_literal(s),
        TagSeedView::Id(n) => decimal(n as nat) + "u8"@,
    }
}

/// A field of a record: `pub name: type,`.
pub open spec fn field_line(f: FieldView) -> Seq<char> {
    "pub "@ + f.name + ": "@ + type_text(f.ty) + ",\n"@
}

/// The lines of the fields of a record.
pub open spec fn field_lines(fields: Seq<FieldView>) -> Seq<Seq<char>> {
    Seq::new(fields.len(), |k: int| field_line(fields[k]))
}

/// The record of an account kind.
pub open spec fn account_record_text(r: AccountRecordView) -> Seq<char> {
    "#[derive(BorshSerialize, BorshDeserialize, AccountDataConfig)]\n#[account_data(hash(seed = "@
        + seed_text(r.seed) + ", size = "@ + decimal(r.size as nat) + "usize))]\npub struct "@
        + r.name + " {\n"@ + concat_all(field_lines(r.fields)) + "}\n"@
}

/// What a handle carries, as a type.
pub open spec fn payload_text(p: PayloadView) -> Seq<char> {
    match p {
        PayloadView::Empty => "Empty"@,
        PayloadView::Data(size, name) => "AccountData<"@ + decimal(size as nat) + "usize, "@ + name
            + ">"@,
    }
}

/// The handle type that stands for a capability: read or write, signed or
/// not.
pub open spec fn capability_text(state: IxAccountState, signed: bool) -> Seq<char> {
    match state {
        IxAccountState::Mutable => if signed {
            "AccountWritableSigned"@
        } else {
            "AccountWritable"@
        },
        _ => if signed {
            "AccountReadOnlySigned"@
        } else {
            "AccountReadOnly"@
        },
    }
}

/// The field of an accounts record for a handle.
pub open spec fn handle_field_line(h: AccountHandleView) -> Seq<char> {
    if h.state == IxAccountState::Create {
        "pub "@ + h.name + ": Account<'info, PhantomData<"@ + payload_text(h.payload)
            + ">, Init, Unsigned>,\n"@
    } else {
        "pub "@ + h.name + ": "@ + capability_text(h.state, h.signed) + "<'info, "@ + payload_text(
            h.payload,
        ) + ">,\n"@
    }
}

/// The expression that takes the account at a place of the account list, and
/// fails where the list is too short.
pub open spec fn account_at_text(index: usize) -> Seq<char> {
    "accounts.get("@ + decimal(index as nat)
        + "usize).ok_or(ProgramError::NotEnoughAccountKeys)?"@
}

/// The steps that build a handle, after the account is taken: the payload,
/// write access and the signature are checked where the handle has them.
pub open spec fn builder_steps_text(h: AccountHandleView) -> Seq<char> {
    (if h.payload is Data {
        ".set_payload()"@
    } else {
        Seq::empty()
    }) + (if h.state == IxAccountState::Mutable {
        ".mutable()?"@
    } else {
        Seq::empty()
    }) + (if h.signed {
        ".signed()?"@
    } else {
        Seq::empty()
    }) + ".build()?"@
}

/// The line that loads a handle.
pub open spec fn handle_load_line(h: AccountHandleView) -> Seq<char> {
    if h.state == IxAccountState::Create {
        h.name + ": Account::new_init(AccountInfo::new_init("@ + account_at_text(h.index)
            + ")?),\n"@
    } else {
        h.name + ": AccountBuilder::new("@ + account_at_text(h.index) + ")"@ + builder_steps_text(h)
            + ",\n"@
    }
}

/// The fields of an accounts record.
pub open spec fn handle_field_lines(handles: Seq<AccountHandleView>) -> Seq<Seq<char>> {
    Seq::new(handles.len(), |k: int| handle_field_line(handles[k]))
}

/// The lines that load the handles of an accounts record.
pub open spec fn handle_load_lines(handles: Seq<AccountHandleView>) -> Seq<Seq<char>> {
    Seq::new(handles.len(), |k: int| handle_load_line(handles[k]))
}

/// The accounts record of an instruction, with its loader.
pub open spec fn accounts_record_text(r: AccountsRecordView) -> Seq<char> {
    "pub struct "@ + r.name + "<'info> {\n"@ + concat_all(handle_field_lines(r.handles))
        + "}\nimpl<'info> "@ + r.name
        + "<'info> {\npub fn load(accounts: &'info [pinocchio::account_info::AccountInfo]) -> Result<Self, ProgramError> {\nOk(Self {\n"@
        + concat_all(handle_load_lines(r.handles)) + "})\n}\n}\n"@
}

/// An argument of a method: `, name: type`.
pub open spec fn arg_text(f: FieldView) -> Seq<char> {
    ", "@ + f.name + ": "@ + type_text(f.ty)
}

/// The arguments of a method.
pub open spec fn arg_texts(args: Seq<FieldView>) -> Seq<Seq<char>> {
    Seq::new(args.len(), |k: int| arg_text(args[k]))
}

/// The declaration of a method of the handler trait.
pub open spec fn method_line(m: MethodView) -> Seq<char> {
    "fn "@ + m.name + "(program_id: &Pubkey, accounts: "@ + m.accounts + concat_all(
        arg_texts(m.args),
    ) + ") -> Result<(), ProgramError>;\n"@
}

/// The declarations of the methods of the handler trait.
pub open spec fn method_lines(methods: Seq<MethodView>) -> Seq<Seq<char>> {
    Seq::new(methods.len(), |k: int| method_line(methods[k]))
}

/// The handler trait.
pub open spec fn contract_text(c: ContractTraitView) -> Seq<char> {
    "pub trait "@ + c.name + " {\n"@ + concat_all(method_lines(c.methods)) + "}\n"@
}

/// A byte of a tag: `<n>u8`.
pub open spec fn byte_texts(tag: Seq<u8>) -> Seq<Seq<char>> {
    Seq::new(tag.len(), |k: int| decimal(tag[k] as nat) + "u8"@)
}

/// The constant that holds the tag of a branch.
pub open spec fn tag_line(b: BranchView, tag_size: usize) -> Seq<char> {
    "pub const "@ + b.tag_name + ": [u8; "@ + decimal(tag_size as nat) + "usize] = ["@ + join_with(
        byte_texts(b.tag),
        ", "@,
    ) + "];\n"@
}

/// The constants that hold the tags of the branches.
pub open spec fn tag_lines(branches: Seq<BranchView>, tag_size: usize) -> Seq<Seq<char>> {
    Seq::new(branches.len(), |k: int| tag_line(branches[k], tag_size))
}

/// The step of a branch that takes the arguments from the payload: none for
/// no argument, one value for one, a tuple taken apart for more.
pub open spec fn binding_text(a: ArgBindingView) -> Seq<char> {
    match a {
        ArgBindingView::NoArgs => Seq::empty(),
        ArgBindingView::Single(name) => "let "@ + name + " = ix_data.deserialize_data()?; "@,
        ArgBindingView::Tuple(names) => "let ("@ + join_with(names, ", "@)
            + ") = ix_data.deserialize_data()?; "@,
    }
}

/// The arguments that a branch hands to the method, after the program id and
/// the accounts.
pub open spec fn passed_text(a: ArgBindingView) -> Seq<char> {
    match a {
        ArgBindingView::NoArgs => Seq::empty(),
        ArgBindingView::Single(name) => ", "@ + name,
        ArgBindingView::Tuple(names) => ", "@ + join_with(names, ", "@),
    }
}

/// A branch of the dispatcher.
pub open spec fn branch_line(b: BranchView) -> Seq<char> {
    "&"@ + b.tag_name + " => { let accounts = "@ + b.accounts + "::load(accounts)?; "@
        + binding_text(b.args) + "T::"@ + b.method + "(program_id, accounts"@ + passed_text(b.args)
        + ") },\n"@
}

/// The branches of the dispatcher.
pub open spec fn branch_lines(branches: Seq<BranchView>) -> Seq<Seq<char>> {
    Seq::new(branches.len(), |k: int| branch_line(branches[k]))
}

/// The dispatcher: its type, the tags, and the match with one branch per
/// instruction and one fallback.
pub open spec fn dispatcher_text(d: DispatcherView) -> Seq<char> {
    "pub struct "@ + d.name + "<T> {\ninner: PhantomData<T>\n}\n"@ + concat_all(
        tag_lines(d.branches, d.tag_size),
    ) + "impl<T> sol_ez::Contract for "@ + d.name + "<T> where T: "@ + d.contract
        + " {\nfn dispatch<'info>(program_id: &Pubkey, accounts: &'info [pinocchio::account_info::AccountInfo], payload: &[u8]) -> Result<(), ProgramError> {\nlet ix_data = sol_ez::InstructionData::new(payload)?;\nmatch ix_data.ix {\n"@
        + concat_all(branch_lines(d.branches))
        + "_ => Err(ProgramError::InvalidInstructionData)\n}\n}\n}\n"@
}

/// The records of the account kinds.
pub open spec fn account_record_texts(records: Seq<AccountRecordView>) -> Seq<Seq<char>> {
    Seq::new(records.len(), |k: int| account_record_text(records[k]))
}

/// The accounts records of the instructions.
pub open spec fn accounts_record_texts(records: Seq<AccountsRecordView>) -> Seq<Seq<char>> {
    Seq::new(records.len(), |k: int| accounts_record_text(records[k]))
}

/// The imports that the generated file starts with.
pub open spec fn prelude_text() -> Seq<char> {
    "use core::marker::PhantomData;\nuse borsh::{BorshDeserialize, BorshSerialize};\nuse sol_ez::{account::*, account_info::*, AccountData, AccountDataConfig, DataSize};\nuse pinocchio::{program_error::ProgramError, pubkey::Pubkey};\n"@
}

/// The source of everything that is generated: the imports, the records of
/// the account kinds, the accounts records, the handler trait and the
/// dispatcher.
pub open spec fn source_text(g: GeneratedView) -> Seq<char> {
    prelude_text() + concat_all(account_record_texts(g.types.account_types)) + concat_all(
        accounts_record_texts(g.types.accounts_types),
    ) + contract_text(g.contract) + dispatcher_text(g.dispatcher)
}

/// Appends the parts to `out`, one after another.
pub fn append_all(out: &mut String, parts: &Vec<String>)
    ensures
        final(out)@ == old(out)@ + concat_all(string_views(parts@)),
{
    let mut k: usize = 0;
    let ghost all = string_views(parts@);
    assert(all.take(0) =~= Seq::<Seq<char>>::empty());
    while k < parts.len()
        invariant
            k <= parts@.len(),
            all == string_views(parts@),
            out@ == old(out)@ + concat_all(all.take(k as int)),
        decreases parts@.len() - k,
    {
        out.append(parts[k].as_str());
        proof {
            let t = all.take(k + 1);
            assert(t.drop_last() =~= all.take(k as int));
            assert(t.last() == parts@[k as int]@);
            assert(old(out)@ + concat_all(all.take(k as int)) + parts@[k as int]@ =~= old(out)@
                + concat_all(t));
        }
        k = k + 1;
    }
    assert(all.take(parts@.len() as int) =~= all);
}

/// Appends the parts to `out`, with `sep` between them.
pub fn append_joined(out: &mut String, parts: &Vec<String>, sep: &str)
    ensures
        final(out)@ == old(out)@ + join_with(string_views(parts@), sep@),
{
    let mut k: usize = 0;
    let ghost all = string_views(parts@);
    assert(all.take(0) =~= Seq::<Seq<char>>::empty());
    while k < parts.len()
        invariant
            k <= parts@.len(),
            all == string_views(parts@),
            out@ == old(out)@ + join_with(all.take(k as int), sep@),
        decreases parts@.len() - k,
    {
        if k > 0 {
            out.append(sep);
        }
        out.append(parts[k].as_str());
        proof {
            let t = all.take(k + 1);
            assert(t.drop_last() =~= all.take(k as int));
            assert(t.last() == parts@[k as int]@);
            if k == 0 {
                assert(t[0] == parts@[0]@);
                assert(old(out)@ + join_with(all.take(0), sep@) + parts@[0]@ =~= old(out)@
                    + join_with(t, sep@));
            } else {
                assert(old(out)@ + join_with(all.take(k as int), sep@) + sep@ + parts@[k as int]@
                    =~= old(out)@ + join_with(t, sep@));
            }
        }
        k = k + 1;
    }
    assert(all.take(parts@.len() as int) =~= all);
}

/// `n` in decimal.
pub fn decimal_string(n: usize) -> (r: String)
    ensures
        r@ == decimal(n as nat),
{
    let mut digits: Vec<char> = Vec::new();
    let mut rest: usize = n;
    assert(decimal(n as nat) =~= decimal(rest as nat) + digits@.reverse());
    // The digits from the last to the first.
    loop
        invariant_except_break
            decimal(n as nat) == decimal(rest as nat) + digits@.reverse(),
        ensures
            decimal(n as nat) == digits@.reverse(),
        decreases rest,
    {
        let d: usize = rest % 10;
        let c = digit_of(d);
        proof {
            let pushed = digits@.push(c);
            assert(pushed.reverse() =~= seq![c] + digits@.reverse());
            if rest >= 10 {
                assert(decimal(rest as nat) == decimal((rest / 10) as nat).push(c));
                assert(decimal((rest / 10) as nat).push(c) + digits@.reverse() =~= decimal(
                    (rest / 10) as nat,
                ) + pushed.reverse());
            } else {
                assert(decimal(rest as nat) == seq![c]);
            }
        }
        digits.push(c);
        if rest < 10 {
            break ;
        }
        rest = rest / 10;
    }
    let mut out: Vec<char> = Vec::new();
    let mut k: usize = digits.len();
    while k > 0
        invariant
            k <= digits@.len(),
            out@ == digits@.reverse().take(digits@.len() - k),
        decreases k,
    {
        k = k - 1;
        out.push(digits[k]);
        assert(digits@.reverse().take(digits@.len() - k) =~= digits@.reverse().take(
            digits@.len() - k - 1,
        ).push(digits@[k as int]));
    }
    assert(digits@.reverse().take(digits@.len() as int) =~= digits@.reverse());
    string_from_chars(&out)
}

/// The decimal digit of a number below ten.
pub fn digit_of(d: usize) -> (c: char)
    requires
        d < 10,
    ensures
        c == digit_char(d as nat),
{
    if d == 0 {
        '0'
    } else if d == 1 {
        '1'
    } else if d == 2 {
        '2'
    } else if d == 3 {
        '3'
    } else if d == 4 {
        '4'
    } else if d == 5 {
        '5'
    } else if d == 6 {
        '6'
    } else if d == 7 {
        '7'
    } else if d == 8 {
        '8'
    } else {
        '9'
    }
}

/// The string literal that writes `s`.
pub fn string_literal_of(s: &str) -> (r: String)
    ensures
        r@ == string_literal(s@),
{
    let v = chars_of(s);
    let mut out: Vec<char> = Vec::new();
    out.push('"');
    let mut k: usize = 0;
    assert(v@.take(0) =~= Seq::<char>::empty());
    assert(out@ =~= seq!['"'] + escaped(v@.take(0)));
    while k < v.len()
        invariant
            k <= v@.len(),
            out@ == seq!['"'] + escaped(v@.take(k as int)),
        decreases v@.len() - k,
    {
        let c = v[k];
        let ghost before = out@;
        if c == '"' {
            out.push('\\');
            out.push('"');
        } else if c == '\\' {
            out.push('\\');
            out.push('\\');
        } else if c == '\n' {
            out.push('\\');
            out.push('n');
        } else if c == '\r' {
            out.push('\\');
            out.push('r');
        } else if c == '\t' {
            out.push('\\');
            out.push('t');
        } else if c == '\0' {
            out.push('\\');
            out.push('0');
        } else {
            out.push(c);
        }
        proof {
            let t = v@.take(k + 1);
            assert(t.drop_last() =~= v@.take(k as int));
            assert(t.last() == c);
            assert(out@ =~= before + escaped_char(c));
            assert(out@ =~= seq!['"'] + escaped(t));
        }
        k = k + 1;
    }
    assert(v@.take(v@.len() as int) =~= v@);
    out.push('"');
    let r = string_from_chars(&out);
    assert(r@ =~= string_literal(s@));
    r
}

/// A type, as generated source writes it.
pub fn type_string(t: &Type) -> (r: String)
    ensures
        r@ == type_text(t@),
    decreases t,
{
    match t {
        Type::Bool => String::from_str("bool"),
        Type::U8 => String::from_str("u8"),
        Type::U16 => String::from_str("u16"),
        Type::U32 => String::from_str("u32"),
        Type::U64 => String::from_str("u64"),
        Type::U128 => String::from_str("u128"),
        Type::I8 => String::from_str("i8"),
        Type::I16 => String::from_str("i16"),
        Type::I32 => String::from_str("i32"),
        Type::I64 => String::from_str("i64"),
        Type::I128 => String::from_str("i128"),
        Type::Bytes => String::from_str("Vec<u8>"),
        Type::String => String::from_str("String"),
        Type::PublicKey => String::from_str("[u8; 32]"),
        Type::Option(inner) => String::from_str("Option<").concat(
            type_string(inner).as_str(),
        ).concat(">"),
        Type::FixedArray(inner, n) => String::from_str("[").concat(
            type_string(inner).as_str(),
        ).concat("; ").concat(decimal_string(*n).as_str()).concat("usize]"),
        Type::DynamicArray(inner) => String::from_str("Vec<").concat(
            type_string(inner).as_str(),
        ).concat(">"),
        Type::Defined(name) => name.clone(),
    }
}

/// A seed, as the attribute of a record writes it.
pub fn seed_string(seed: &TagSeed) -> (r: String)
    ensures
        r@ == seed_text(seed@),
{
    match seed {
        TagSeed::Text(s) => string_literal_of(s.as_str()),
        TagSeed::Id(n) => decimal_string(*n as usize).concat("u8"),
    }
}

/// A field of a record.
pub fn field_line_string(f: &Field) -> (r: String)
    ensures
        r@ == field_line(f@),
{
    String::from_str("pub ").concat(f.name.as_str()).concat(": ").concat(
        type_string(&f.ty).as_str(),
    ).concat(",\n")
}

/// The record of an account kind.
pub fn account_record_string(r: &AccountRecord) -> (out: String)
    ensures
        out@ == account_record_text(r@),
{
    let mut lines: Vec<String> = Vec::new();
    let mut k: usize = 0;
    while k < r.fields.len()
        invariant
            k <= r.fields@.len(),
            lines@.len() == k,
            forall|m: int| 0 <= m < k ==> (#[trigger] lines@[m])@ == field_line(r.fields@[m]@),
        decreases r.fields@.len() - k,
    {
        lines.push(field_line_string(&r.fields[k]));
        k = k + 1;
    }
    assert(string_views(lines@) =~= field_lines(r@.fields));
    let mut out = String::from_str(
        "#[derive(BorshSerialize, BorshDeserialize, AccountDataConfig)]\n#[account_data(hash(seed = ",
    ).concat(seed_string(&r.seed).as_str()).concat(", size = ").concat(
        decimal_string(r.size).as_str(),
    ).concat("usize))]\npub struct ").concat(r.name.as_str()).concat(" {\n");
    append_all(&mut out, &lines);
    out.append("}\n");
    out
}

/// What a handle carries, as a type.
pub fn payload_string(p: &Payload) -> (r: String)
    ensures
        r@ == payload_text(p@),
{
    match p {
        Payload::Empty => String::from_str("Empty"),
        Payload::Data(size, name) => String::from_str("AccountData<").concat(
            decimal_string(*size).as_str(),
        ).concat("usize, ").concat(name.as_str()).concat(">"),
    }
}

/// The handle type that stands for a capability.
pub fn capability_string(state: IxAccountState, signed: bool) -> (r: String)
    ensures
        r@ == capability_text(state, signed),
{
    match state {
        IxAccountState::Mutable => if signed {
            String::from_str("AccountWritableSigned")
        } else {
            String::from_str("AccountWritable")
        },
        _ => if signed {
            String::from_str("AccountReadOnlySigned")
        } else {
            String::from_str("AccountReadOnly")
        },
    }
}

/// The field of an accounts record for a handle.
pub fn handle_field_string(h: &AccountHandle) -> (r: String)
    ensures
        r@ == handle_field_line(h@),
{
    if h.state.is_create() {
        String::from_str("pub ").concat(h.name.as_str()).concat(
            ": Account<'info, PhantomData<",
        ).concat(payload_string(&h.payload).as_str()).concat(">, Init, Unsigned>,\n")
    } else {
        String::from_str("pub ").concat(h.name.as_str()).concat(": ").concat(
            capability_string(h.state, h.signed).as_str(),
        ).concat("<'info, ").concat(payload_string(&h.payload).as_str()).concat(">,\n")
    }
}

/// The expression that takes the account at a place of the account list.
pub fn account_at_string(index: usize) -> (r: String)
    ensures
        r@ == account_at_text(index),
{
    String::from_str("accounts.get(").concat(decimal_string(index).as_str()).concat(
        "usize).ok_or(ProgramError::NotEnoughAccountKeys)?",
    )
}

/// The steps that build a handle, after the account is taken.
pub fn builder_steps_string(h: &AccountHandle) -> (r: String)
    ensures
        r@ == builder_steps_text(h@),
{
    let mut out = String::new();
    let has_payload = match &h.payload {
        Payload::Data(_, _) => true,
        Payload::Empty => false,
    };
    if has_payload {
        out.append(".set_payload()");
    }
    if h.state.is_mutable() {
        out.append(".mutable()?");
    }
    if h.signed {
        out.append(".signed()?");
    }
    out.append(".build()?");
    assert(out@ =~= builder_steps_text(h@));
    out
}

/// The line that loads a handle.
pub fn handle_load_string(h: &AccountHandle) -> (r: String)
    ensures
        r@ == handle_load_line(h@),
{
    if h.state.is_create() {
        h.name.clone().concat(": Account::new_init(AccountInfo::new_init(").concat(
            account_at_string(h.index).as_str(),
        ).concat(")?),\n")
    } else {
        h.name.clone().concat(": AccountBuilder::new(").concat(
            account_at_string(h.index).as_str(),
        ).concat(")").concat(builder_steps_string(h).as_str()).concat(",\n")
    }
}

/// The accounts record of an instruction, with its loader.
pub fn accounts_record_string(r: &AccountsRecord) -> (out: String)
    ensures
        out@ == accounts_record_text(r@),
{
    let mut fields: Vec<String> = Vec::new();
    let mut loads: Vec<String> = Vec::new();
    let mut k: usize = 0;
    while k < r.handles.len()
        invariant
            k <= r.handles@.len(),
            fields@.len() == k,
            loads@.len() == k,
            forall|m: int|
                0 <= m < k ==> (#[trigger] fields@[m])@ == handle_field_line(r.handles@[m]@),
            forall|m: int|
                0 <= m < k ==> (#[trigger] loads@[m])@ == handle_load_line(r.handles@[m]@),
        decreases r.handles@.len() - k,
    {
        fields.push(handle_field_string(&r.handles[k]));
        loads.push(handle_load_string(&r.handles[k]));
        k = k + 1;
    }
    assert(string_views(fields@) =~= handle_field_lines(r@.handles));
    assert(string_views(loads@) =~= handle_load_lines(r@.handles));
    let mut out = String::from_str("pub struct ").concat(r.name.as_str()).concat("<'info> {\n");
    append_all(&mut out, &fields);
    out.append("}\nimpl<'info> ");
    out.append(r.name.as_str());
    out.append(
        "<'info> {\npub fn load(accounts: &'info [pinocchio::account_info::AccountInfo]) -> Result<Self, ProgramError> {\nOk(Self {\n",
    );
    append_all(&mut out, &loads);
    out.append("})\n}\n}\n");
    out
}

/// The declaration of a method of the handler trait.
pub fn method_string(m: &Method) -> (out: String)
    ensures
        out@ == method_line(m@),
{
    let mut args: Vec<String> = Vec::new();
    let mut k: usize = 0;
    while k < m.args.len()
        invariant
            k <= m.args@.len(),
            args@.len() == k,
            forall|j: int| 0 <= j < k ==> (#[trigger] args@[j])@ == arg_text(m.args@[j]@),
        decreases m.args@.len() - k,
    {
        let f = &m.args[k];
        args.push(
            String::from_str(", ").concat(f.name.as_str()).concat(": ").concat(
                type_string(&f.ty).as_str(),
            ),
        );
        k = k + 1;
    }
    assert(string_views(args@) =~= arg_texts(m@.args));
    let mut out = String::from_str("fn ").concat(m.name.as_str()).concat(
        "(program_id: &Pubkey, accounts: ",
    ).concat(m.accounts.as_str());
    append_all(&mut out, &args);
    out.append(") -> Result<(), ProgramError>;\n");
    out
}

/// The handler trait.
pub fn contract_string(c: &ContractTrait) -> (out: String)
    ensures
        out@ == contract_text(c@),
{
    let mut lines: Vec<String> = Vec::new();
    let mut k: usize = 0;
    while k < c.methods.len()
        invariant
            k <= c.methods@.len(),
            lines@.len() == k,
            forall|j: int| 0 <= j < k ==> (#[trigger] lines@[j])@ == method_line(c.methods@[j]@),
        decreases c.methods@.len() - k,
    {
        lines.push(method_string(&c.methods[k]));
        k = k + 1;
    }
    assert(string_views(lines@) =~= method_lines(c@.methods));
    let mut out = String::from_str("pub trait ").concat(c.name.as_str()).concat(" {\n");
    append_all(&mut out, &lines);
    out.append("}\n");
    out
}

/// The constant that holds the tag of a branch.
pub fn tag_line_string(b: &Branch, tag_size: usize) -> (out: String)
    ensures
        out@ == tag_line(b@, tag_size),
{
    let mut bytes: Vec<String> = Vec::new();
    let mut k: usize = 0;
    while k < b.tag.len()
        invariant
            k <= b.tag@.len(),
            bytes@.len() == k,
            forall|j: int|
                0 <= j < k ==> (#[trigger] bytes@[j])@ == decimal(b.tag@[j] as nat) + "u8"@,
        decreases b.tag@.len() - k,
    {
        bytes.push(decimal_string(b.tag[k] as usize).concat("u8"));
        k = k + 1;
    }
    assert(string_views(bytes@) =~= byte_texts(b@.tag));
    let mut out = String::from_str("pub const ").concat(b.tag_name.as_str()).concat(
        ": [u8; ",
    ).concat(decimal_string(tag_size).as_str()).concat("usize] = [");
    append_joined(&mut out, &bytes, ", ");
    out.append("];\n");
    out
}

/// The step of a branch that takes the arguments from the payload.
pub fn binding_string(a: &ArgBinding) -> (out: String)
    ensures
        out@ == binding_text(a@),
{
    match a {
        ArgBinding::NoArgs => String::new(),
        ArgBinding::Single(name) => String::from_str("let ").concat(name.as_str()).concat(
            " = ix_data.deserialize_data()?; ",
        ),
        ArgBinding::Tuple(names) => {
            let mut out = String::from_str("let (");
            append_joined(&mut out, names, ", ");
            out.append(") = ix_data.deserialize_data()?; ");
            out
        },
    }
}

/// The arguments that a branch hands to the method.
pub fn passed_string(a: &ArgBinding) -> (out: String)
    ensures
        out@ == passed_text(a@),
{
    match a {
        ArgBinding::NoArgs => String::new(),
        ArgBinding::Single(name) => String::from_str(", ").concat(name.as_str()),
        ArgBinding::Tuple(names) => {
            let mut out = String::from_str(", ");
            append_joined(&mut out, names, ", ");
            out
        },
    }
}

/// A branch of the dispatcher.
pub fn branch_string(b: &Branch) -> (out: String)
    ensures
        out@ == branch_line(b@),
{
    String::from_str("&").concat(b.tag_name.as_str()).concat(" => { let accounts = ").concat(
        b.accounts.as_str(),
    ).concat("::load(accounts)?; ").concat(binding_string(&b.args).as_str()).concat("T::").concat(
        b.method.as_str(),
    ).concat("(program_id, accounts").concat(passed_string(&b.args).as_str()).concat(") },\n")
}

/// The dispatcher.
pub fn dispatcher_string(d: &Dispatcher) -> (out: String)
    ensures
        out@ == dispatcher_text(d@),
{
    let mut tags: Vec<String> = Vec::new();
    let mut branches: Vec<String> = Vec::new();
    let mut k: usize = 0;
    while k < d.branches.len()
        invariant
            k <= d.branches@.len(),
            tags@.len() == k,
            branches@.len() == k,
            forall|j: int|
                0 <= j < k ==> (#[trigger] tags@[j])@ == tag_line(d.branches@[j]@, d.tag_size),
            forall|j: int| 0 <= j < k ==> (#[trigger] branches@[j])@ == branch_line(d.branches@[j]@),
        decreases d.branches@.len() - k,
    {
        tags.push(tag_line_string(&d.branches[k], d.tag_size));
        branches.push(branch_string(&d.branches[k]));
        k = k + 1;
    }
    assert(string_views(tags@) =~= tag_lines(d@.branches, d@.tag_size));
    assert(string_views(branches@) =~= branch_lines(d@.branches));
    let mut out = String::from_str("pub struct ").concat(d.name.as_str()).concat(
        "<T> {\ninner: PhantomData<T>\n}\n",
    );
    append_all(&mut out, &tags);
    out.append("impl<T> sol_ez::Contract for ");
    out.append(d.name.as_str());
    out.append("<T> where T: ");
    out.append(d.contract.as_str());
    out.append(
        " {\nfn dispatch<'info>(program_id: &Pubkey, accounts: &'info [pinocchio::account_info::AccountInfo], payload: &[u8]) -> Result<(), ProgramError> {\nlet ix_data = sol_ez::InstructionData::new(payload)?;\nmatch ix_data.ix {\n",
    );
    append_all(&mut out, &branches);
    out.append("_ => Err(ProgramError::InvalidInstructionData)\n}\n}\n}\n");
    out
}

/// The source of everything that is generated, before it is pretty-printed.
pub fn render(g: &Generated) -> (out: String)
    ensures
        out@ == source_text(g@),
{
    let mut records: Vec<String> = Vec::new();
    let mut k: usize = 0;
    while k < g.types.account_types.len()
        invariant
            k <= g.types.account_types@.len(),
            records@.len() == k,
            forall|j: int|
                0 <= j < k ==> (#[trigger] records@[j])@ == account_record_text(
                    g.types.account_types@[j]@,
                ),
        decreases g.types.account_types@.len() - k,
    {
        records.push(account_record_string(&g.types.account_types[k]));
        k = k + 1;
    }
    assert(string_views(records@) =~= account_record_texts(g@.types.account_types));
    let mut lists: Vec<String> = Vec::new();
    let mut k: usize = 0;
    while k < g.types.accounts_types.len()
        invariant
            k <= g.types.accounts_types@.len(),
            lists@.len() == k,
            forall|j: int|
                0 <= j < k ==> (#[trigger] lists@[j])@ == accounts_record_text(
                    g.types.accounts_types@[j]@,
                ),
        decreases g.types.accounts_types@.len() - k,
    {
        lists.push(accounts_record_string(&g.types.accounts_types[k]));
        k = k + 1;
    }
    assert(string_views(lists@) =~= accounts_record_texts(g@.types.accounts_types));
    let mut out = String::from_str(
        "use core::marker::PhantomData;\nuse borsh::{BorshDeserialize, BorshSerialize};\nuse sol_ez::{account::*, account_info::*, AccountData, AccountDataConfig, DataSize};\nuse pinocchio::{program_error::ProgramError, pubkey::Pubkey};\n",
    );
    append_all(&mut out, &records);
    append_all(&mut out, &lists);
    out.append(contract_string(&g.contract).as_str());
    out.append(dispatcher_string(&g.dispatcher).as_str());
    out
}

/// The lists `parts` one after another.
pub open spec fn flat(parts: Seq<Seq<Seq<char>>>) -> Seq<Seq<char>>
    decreases parts.len(),
{
    if parts.len() == 0 {
        Seq::empty()
    } else {
        flat(parts.drop_last()) + parts.last()
    }
}

/// The names that a type holds: that of each defined type in it.
pub open spec fn type_names(t: TypeView) -> Seq<Seq<char>>
    decreases t,
{
    match t {
        TypeView::Option(t) => type_names(*t),
        TypeView::FixedArray(t, _) => type_names(*t),
        TypeView::DynamicArray(t) => type_names(*t),
        TypeView::Defined(name) => seq![name],
        _ => Seq::empty(),
    }
}

/// The names of a field: its own and those of its type.
pub open spec fn field_names(f: FieldView) -> Seq<Seq<char>> {
    seq![f.name] + type_names(f.ty)
}

/// The names of the fields `fields`.
pub open spec fn fields_names(fields: Seq<FieldView>) -> Seq<Seq<char>> {
    flat(Seq::new(fields.len(), |k: int| field_names(fields[k])))
}

/// The names of the record of an account kind.
pub open spec fn account_record_names(r: AccountRecordView) -> Seq<Seq<char>> {
    seq![r.name] + fields_names(r.fields)
}

/// The names of a handle: its own and that of what it carries.
pub open spec fn handle_names(h: AccountHandleView) -> Seq<Seq<char>> {
    match h.payload {
        PayloadView::Empty => seq![h.name],
        PayloadView::Data(_, name) => seq![h.name, name],
    }
}

/// The names of an accounts record.
pub open spec fn accounts_record_names(r: AccountsRecordView) -> Seq<Seq<char>> {
    seq![r.name] + flat(Seq::new(r.handles.len(), |k: int| handle_names(r.handles[k])))
}

/// The names of a method of the handler trait.
pub open spec fn method_names(m: MethodView) -> Seq<Seq<char>> {
    seq![m.name, m.accounts] + fields_names(m.args)
}

/// The names that a branch binds the arguments to.
pub open spec fn binding_names(a: ArgBindingView) -> Seq<Seq<char>> {
    match a {
        ArgBindingView::NoArgs => Seq::empty(),
        ArgBindingView::Single(name) => seq![name],
        ArgBindingView::Tuple(names) => names,
    }
}

/// The names of a branch of the dispatcher.
pub open spec fn branch_names(b: BranchView) -> Seq<Seq<char>> {
    seq![b.tag_name, b.accounts, b.method] + binding_names(b.args)
}

/// Every name that stands as an identifier in the generated source, in the
/// order of the source.
pub open spec fn names_of(g: GeneratedView) -> Seq<Seq<char>> {
    flat(
        Seq::new(
            g.types.account_types.len(),
            |k: int| account_record_names(g.types.account_types[k]),
        ),
    ) + flat(
        Seq::new(
            g.types.accounts_types.len(),
            |k: int| accounts_record_names(g.types.accounts_types[k]),
        ),
    ) + seq![g.contract.name] + flat(
        Seq::new(g.contract.methods.len(), |k: int| method_names(g.contract.methods[k])),
    ) + seq![g.dispatcher.name, g.dispatcher.contract] + flat(
        Seq::new(g.dispatcher.branches.len(), |k: int| branch_names(g.dispatcher.branches[k])),
    )
}

/// The first of `names` that cannot stand as an identifier, from the `k`-th
/// on.
pub open spec fn first_invalid(names: Seq<Seq<char>>, k: int) -> Option<Seq<char>>
    decreases names.len() - k,
{
    if k < 0 || k >= names.len() {
        None
    } else if !is_identifier(names[k]) {
        Some(names[k])
    } else {
        first_invalid(names, k + 1)
    }
}

/// Whether every generated name can stand as an identifier.
pub open spec fn names_valid(g: GeneratedView) -> bool {
    first_invalid(names_of(g), 0) is None
}

/// Appends copies of the strings `more` to `out`.
pub fn extend_names(out: &mut Vec<String>, more: &Vec<String>)
    ensures
        string_views(final(out)@) == string_views(old(out)@) + string_views(more@),
{
    let mut k: usize = 0;
    assert(string_views(out@) =~= string_views(old(out)@) + string_views(more@).take(0));
    while k < more.len()
        invariant
            k <= more@.len(),
            string_views(out@) == string_views(old(out)@) + string_views(more@).take(k as int),
        decreases more@.len() - k,
    {
        let ghost before = out@;
        out.push(more[k].clone());
        assert(string_views(out@) =~= string_views(before).push(more@[k as int]@));
        assert(string_views(out@) =~= string_views(old(out)@) + string_views(more@).take(
            k + 1,
        ));
        k = k + 1;
    }
    assert(string_views(more@).take(more@.len() as int) =~= string_views(more@));
}

/// The names that a type holds.
pub fn collect_type_names(t: &Type) -> (r: Vec<String>)
    ensures
        string_views(r@) == type_names(t@),
    decreases t,
{
    match t {
        Type::Option(inner) => collect_type_names(inner),
        Type::FixedArray(inner, _) => collect_type_names(inner),
        Type::DynamicArray(inner) => collect_type_names(inner),
        Type::Defined(name) => {
            let mut v: Vec<String> = Vec::new();
            v.push(name.clone());
            assert(string_views(v@) =~= seq![name@]);
            v
        },
        _ => {
            let v: Vec<String> = Vec::new();
            assert(string_views(v@) =~= Seq::<Seq<char>>::empty());
            v
        },
    }
}

/// The names of the fields `fields`.
pub fn collect_fields_names(fields: &Vec<Field>) -> (r: Vec<String>)
    ensures
        string_views(r@) == fields_names(views(fields@)),
{
    let mut out: Vec<String> = Vec::new();
    let ghost parts = Seq::new(views(fields@).len(), |k: int| field_names(views(fields@)[k]));
    let mut k: usize = 0;
    assert(parts.take(0) =~= Seq::<Seq<Seq<char>>>::empty());
    assert(string_views(out@) =~= flat(parts.take(0)));
    while k < fields.len()
        invariant
            k <= fields@.len(),
            parts == Seq::new(views(fields@).len(), |k: int| field_names(views(fields@)[k])),
            string_views(out@) == flat(parts.take(k as int)),
        decreases fields@.len() - k,
    {
        let ghost before = string_views(out@);
        out.push(fields[k].name.clone());
        assert(string_views(out@) =~= before.push(fields@[k as int].name@));
        let more = collect_type_names(&fields[k].ty);
        extend_names(&mut out, &more);
        proof {
            let t = parts.take(k + 1);
            assert(t.drop_last() =~= parts.take(k as int));
            assert(t.last() == field_names(fields@[k as int]@));
            assert(string_views(out@) =~= flat(t));
        }
        k = k + 1;
    }
    assert(parts.take(fields@.len() as int) =~= parts);
    out
}

/// Every name that stands as an identifier in the generated source.
pub fn collect_names(g: &Generated) -> (r: Vec<String>)
    ensures
        string_views(r@) == names_of(g@),
{
    let mut out: Vec<String> = Vec::new();
    // The records of the account kinds.
    let ghost record_parts = Seq::new(
        g@.types.account_types.len(),
        |k: int| account_record_names(g@.types.account_types[k]),
    );
    let mut k: usize = 0;
    assert(record_parts.take(0) =~= Seq::<Seq<Seq<char>>>::empty());
    assert(string_views(out@) =~= flat(record_parts.take(0)));
    while k < g.types.account_types.len()
        invariant
            k <= g.types.account_types@.len(),
            record_parts == Seq::new(
                g@.types.account_types.len(),
                |k: int| account_record_names(g@.types.account_types[k]),
            ),
            string_views(out@) == flat(record_parts.take(k as int)),
        decreases g.types.account_types@.len() - k,
    {
        let r = &g.types.account_types[k];
        let ghost before = string_views(out@);
        out.push(r.name.clone());
        assert(string_views(out@) =~= before.push(r.name@));
        let more = collect_fields_names(&r.fields);
        extend_names(&mut out, &more);
        proof {
            let t = record_parts.take(k + 1);
            assert(t.drop_last() =~= record_parts.take(k as int));
            assert(t.last() == account_record_names(r@));
            assert(string_views(out@) =~= flat(t));
        }
        k = k + 1;
    }
    assert(record_parts.take(g.types.account_types@.len() as int) =~= record_parts);
    // The accounts records.
    let ghost s1 = string_views(out@);
    let ghost list_parts = Seq::new(
        g@.types.accounts_types.len(),
        |k: int| accounts_record_names(g@.types.accounts_types[k]),
    );
    let mut k: usize = 0;
    assert(list_parts.take(0) =~= Seq::<Seq<Seq<char>>>::empty());
    assert(string_views(out@) =~= s1 + flat(list_parts.take(0)));
    while k < g.types.accounts_types.len()
        invariant
            k <= g.types.accounts_types@.len(),
            list_parts == Seq::new(
                g@.types.accounts_types.len(),
                |k: int| accounts_record_names(g@.types.accounts_types[k]),
            ),
            string_views(out@) == s1 + flat(list_parts.take(k as int)),
        decreases g.types.accounts_types@.len() - k,
    {
        let r = &g.types.accounts_types[k];
        let more = collect_accounts_record_names(r);
        extend_names(&mut out, &more);
        proof {
            let t = list_parts.take(k + 1);
            assert(t.drop_last() =~= list_parts.take(k as int));
            assert(t.last() == accounts_record_names(r@));
            assert(string_views(out@) =~= s1 + flat(t));
        }
        k = k + 1;
    }
    assert(list_parts.take(g.types.accounts_types@.len() as int) =~= list_parts);
    // The handler trait.
    let ghost before = string_views(out@);
    out.push(g.contract.name.clone());
    assert(string_views(out@) =~= before.push(g.contract.name@));
    let ghost s2 = string_views(out@);
    let ghost method_parts = Seq::new(
        g@.contract.methods.len(),
        |k: int| method_names(g@.contract.methods[k]),
    );
    let mut k: usize = 0;
    assert(method_parts.take(0) =~= Seq::<Seq<Seq<char>>>::empty());
    assert(string_views(out@) =~= s2 + flat(method_parts.take(0)));
    while k < g.contract.methods.len()
        invariant
            k <= g.contract.methods@.len(),
            method_parts == Seq::new(g@.contract.methods.len(), |k: int| method_names(g@.contract.methods[k])),
            string_views(out@) == s2 + flat(method_parts.take(k as int)),
        decreases g.contract.methods@.len() - k,
    {
        let m = &g.contract.methods[k];
        let ghost before = string_views(out@);
        out.push(m.name.clone());
        out.push(m.accounts.clone());
        assert(string_views(out@) =~= before + seq![m.name@, m.accounts@]);
        let more = collect_fields_names(&m.args);
        extend_names(&mut out, &more);
        proof {
            let t = method_parts.take(k + 1);
            assert(t.drop_last() =~= method_parts.take(k as int));
            assert(t.last() == method_names(m@));
            assert(string_views(out@) =~= s2 + flat(t));
        }
        k = k + 1;
    }
    assert(method_parts.take(g.contract.methods@.len() as int) =~= method_parts);
    // The dispatcher.
    let ghost before = string_views(out@);
    out.push(g.dispatcher.name.clone());
    out.push(g.dispatcher.contract.clone());
    assert(string_views(out@) =~= before + seq![g.dispatcher.name@, g.dispatcher.contract@]);
    let ghost s3 = string_views(out@);
    let ghost branch_parts = Seq::new(
        g@.dispatcher.branches.len(),
        |k: int| branch_names(g@.dispatcher.branches[k]),
    );
    let mut k: usize = 0;
    assert(branch_parts.take(0) =~= Seq::<Seq<Seq<char>>>::empty());
    assert(string_views(out@) =~= s3 + flat(branch_parts.take(0)));
    while k < g.dispatcher.branches.len()
        invariant
            k <= g.dispatcher.branches@.len(),
            branch_parts == Seq::new(
                g@.dispatcher.branches.len(),
                |k: int| branch_names(g@.dispatcher.branches[k]),
            ),
            string_views(out@) == s3 + flat(branch_parts.take(k as int)),
        decreases g.dispatcher.branches@.len() - k,
    {
        let b = &g.dispatcher.branches[k];
        let ghost before = string_views(out@);
        out.push(b.tag_name.clone());
        out.push(b.accounts.clone());
        out.push(b.method.clone());
        assert(string_views(out@) =~= before + seq![b.tag_name@, b.accounts@, b.method@]);
        let ghost mid = string_views(out@);
        match &b.args {
            ArgBinding::NoArgs => {},
            ArgBinding::Single(name) => {
                out.push(name.clone());
                assert(string_views(out@) =~= mid + seq![name@]);
            },
            ArgBinding::Tuple(names) => {
                extend_names(&mut out, names);
            },
        }
        proof {
            assert(string_views(out@) =~= mid + binding_names(b@.args));
            let t = branch_parts.take(k + 1);
            assert(t.drop_last() =~= branch_parts.take(k as int));
            assert(t.last() == branch_names(b@));
            assert(string_views(out@) =~= s3 + flat(t));
        }
        k = k + 1;
    }
    assert(branch_parts.take(g.dispatcher.branches@.len() as int) =~= branch_parts);
    assert(string_views(out@) =~= names_of(g@));
    out
}

/// The names of an accounts record.
pub fn collect_accounts_record_names(r: &AccountsRecord) -> (out: Vec<String>)
    ensures
        string_views(out@) == accounts_record_names(r@),
{
    let mut out: Vec<String> = Vec::new();
    out.push(r.name.clone());
    let ghost head = string_views(out@);
    assert(head =~= seq![r.name@]);
    let ghost parts = Seq::new(r@.handles.len(), |k: int| handle_names(r@.handles[k]));
    let mut k: usize = 0;
    assert(parts.take(0) =~= Seq::<Seq<Seq<char>>>::empty());
    assert(string_views(out@) =~= head + flat(parts.take(0)));
    while k < r.handles.len()
        invariant
            k <= r.handles@.len(),
            parts == Seq::new(r@.handles.len(), |k: int| handle_names(r@.handles[k])),
            head == seq![r.name@],
            string_views(out@) == head + flat(parts.take(k as int)),
        decreases r.handles@.len() - k,
    {
        let h = &r.handles[k];
        let ghost before = string_views(out@);
        out.push(h.name.clone());
        assert(string_views(out@) =~= before.push(h.name@));
        match &h.payload {
            Payload::Empty => {},
            Payload::Data(_, name) => {
                let ghost mid = string_views(out@);
                out.push(name.clone());
                assert(string_views(out@) =~= mid.push(name@));
            },
        }
        proof {
            let t = parts.take(k + 1);
            assert(t.drop_last() =~= parts.take(k as int));
            assert(t.last() == handle_names(h@));
            assert(string_views(out@) =~= before + handle_names(h@));
            assert(string_views(out@) =~= head + flat(t));
        }
        k = k + 1;
    }
    assert(parts.take(r.handles@.len() as int) =~= parts);
    out
}

/// The first of `names` that cannot stand as an identifier.
pub fn find_invalid(names: &Vec<String>) -> (r: Option<String>)
    ensures
        match r {
            Some(n) => first_invalid(string_views(names@), 0) == Some(n@),
            None => first_invalid(string_views(names@), 0) is None,
        },
{
    let mut k: usize = 0;
    while k < names.len()
        invariant
            k <= names@.len(),
            first_invalid(string_views(names@), k as int) == first_invalid(
                string_views(names@),
                0,
            ),
        decreases names@.len() - k,
    {
        assert(string_views(names@)[k as int] == names@[k as int]@);
        if !check_identifier(names[k].as_str()) {
            return Some(names[k].clone());
        }
        k = k + 1;
    }
    None
}

/// The pretty-printed form of the source `src`, or `None` where `src` is not
/// the source of a file.
pub uninterp spec fn formatted(src: Seq<char>) -> Option<Seq<char>>;

/// `syn::parse_file`, and on the file that it gives `prettyplease::unparse`:
/// the text of the file in the printer's layout, or `None` where the text
/// does not parse as a file. The printer does not return on the few forms of
/// syntax that the parser keeps as raw tokens. Each of them starts with a
/// keyword, so declarations rendered by this library hold none of them where
/// no name is a keyword: that is part of the check of the names.
#[verifier::external_body]
pub(crate) fn format_source(src: &str) -> (r: Option<String>)
    requires
        exists|g: GeneratedView| names_valid(g) && #[trigger] source_text(g) == src@,
    ensures
        match r {
            Some(s) => formatted(src@) == Some(s@),
            None => formatted(src@) is None,
        },
{
    match syn::parse_file(src) {
        Ok(file) => Some(prettyplease::unparse(&file)),
        Err(_) => None,
    }
}

/// The text of the generated file for the declarations `g`, or why there is
/// none.
pub open spec fn emitted(g: GeneratedView) -> Result<Seq<char>, SolGenErrorView> {
    match first_invalid(names_of(g), 0) {
        Some(name) => Err(SolGenErrorView::InvalidName(name)),
        None => match formatted(source_text(g)) {
            Some(text) => Ok(text),
            None => Err(SolGenErrorView::Codegen),
        },
    }
}

/// Turns the generated declarations into the text of the generated file:
/// checks that every generated name can stand as an identifier, renders the
/// declarations and pretty-prints them.
pub fn emit(g: &Generated) -> (r: Result<String, SolGenError>)
    ensures
        match r {
            Ok(text) => emitted(g@) == Ok::<Seq<char>, SolGenErrorView>(text@),
            Err(e) => emitted(g@) == Err::<Seq<char>, SolGenErrorView>(e@),
        },
{
    let names = collect_names(g);
    match find_invalid(&names) {
        Some(name) => Err(SolGenError::InvalidName(name)),
        None => {
            let src = render(g);
            assert(names_valid(g@) && source_text(g@) == src@);
            match format_source(src.as_str()) {
                Some(text) => Ok(text),
                None => Err(SolGenError::Codegen),
            }
        },
    }
}

/// The text of the generated file for a description, or why there is none:
/// the first fault of the description; a width that its strategy cannot make;
/// a generated name that is no identifier; source that does not parse.
pub open spec fn compiled(cfg: ConfigView) -> Result<Seq<char>, SolGenErrorView> {
    match first_fault(cfg) {
        Some(e) => Err(e),
        None => if !tag_size_ok(normalized(cfg)) {
            Err(SolGenErrorView::DiscriminatorSize(cfg.ix_config.discriminator_size as usize))
        } else {
            emitted(generated(normalized(cfg)))
        },
    }
}

/// Compiles a description: validates it, normalizes it, generates the
/// declarations and emits the text of the generated file. The first failure
/// ends the compilation, and nothing is generated then.
pub fn compile(config: Config) -> (r: Result<String, SolGenError>)
    ensures
        match r {
            Ok(text) => compiled(config@) == Ok::<Seq<char>, SolGenErrorView>(text@),
            Err(e) => compiled(config@) == Err::<Seq<char>, SolGenErrorView>(e@),
        },
{
    config.validate()?;
    let g = gen_from_config(config)?;
    emit(&g)
}

/// To compile a description again gives the same text or the same error: the
/// result is a function of what the description holds.
pub proof fn lemma_compile_idempotent(a: ConfigView, b: ConfigView)
    requires
        a == b,
    ensures
        compiled(a) == compiled(b),
{
}

} // verus!
