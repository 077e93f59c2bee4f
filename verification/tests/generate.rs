use sol_gen::ast::{
    Account, AccountField, Accounts, AccountsField, Arr, Contract, Identifer, Instruction, Message,
    MessageField, Str, Type,
};
use sol_gen::lexer::Lexer;
use sol_gen::parse::Parser;
use sol_gen::token::Span;

fn ident(value: &str) -> Identifer<'_> {
    Identifer { span: Span { start: 0, end: value.len() }, value }
}

fn entry<'a>(name: &'a str, account: &'a str, number: u8, init: bool, mutable: bool) -> AccountsField<'a> {
    AccountsField {
        span: Span { start: 0, end: 0 },
        number,
        init,
        mutable,
        name: ident(name),
        account: ident(account),
    }
}

#[test]
fn names_of_declarations_are_in_pascal_case() {
    let defs = Parser::new(Lexer::new(
        "message inital_value { } account user_state { } accounts open_accounts { payer_one: Singer = 1; } contract my_counter { }",
    ))
    .parse()
    .unwrap();
    assert_eq!("InitalValue", defs.message[0].name());
    assert_eq!("UserState", defs.account[0].name());
    assert_eq!("OpenAccounts", defs.accounts[0].name());
    assert_eq!("PayerOne", defs.accounts[0].fields[0].name());
    assert_eq!("MyCounter", defs.contract.name());
}

#[test]
fn field_names_are_as_written() {
    let m = Parser::new(Lexer::new("message A { some_Value: u8 = 1; }")).parse_message().unwrap();
    assert_eq!("some_Value", m.fields[0].name());
    let a = Parser::new(Lexer::new("account A { some_Value: u8 = 1; }")).parse_account().unwrap();
    assert_eq!("some_Value", a.fields[0].name());
}

#[test]
fn types_generate_their_names() {
    assert_eq!("bool", Type::Bool.generate());
    assert_eq!("u8", Type::U8.generate());
    assert_eq!("u64", Type::U64.generate());
    assert_eq!("f32", Type::F32.generate());
    assert_eq!("f64", Type::F64.generate());
    assert!(Type::U8.supported());
    assert!(Type::F64.supported());
    assert!(!Type::Str(Str { max: 4 }).supported());
    assert!(!Type::Arr(Arr { max: 4, ty: Box::new(Type::U8) }).supported());
}

#[test]
fn message_generates_a_record() {
    let m = Parser::new(Lexer::new("message inital_value { value: u8 = 1; flag: bool = 2; }"))
        .parse_message()
        .unwrap();
    assert_eq!(
        "#[derive(Debug, BorshDeserialize)]\npub struct InitalValue {\npub value: u8,\npub flag: bool,\n}\n",
        m.generate()
    );
    assert_eq!("pub value: u8,\n", m.fields[0].generate());
}

#[test]
fn account_generates_a_record() {
    let a = Parser::new(Lexer::new("account Counter { count: u64 = 1; }"))
        .parse_account()
        .unwrap();
    assert_eq!(
        "#[derive(Debug, BorshSerialize, BorshDeserialize, AccountData)]\npub struct Counter {\npub count: u64,\n}\n",
        a.generate()
    );
    assert_eq!("pub count: u64,\n", a.fields[0].generate());
    let empty = Account { span: Span { start: 0, end: 0 }, name: ident("x"), fields: vec![] };
    assert_eq!(
        "#[derive(Debug, BorshSerialize, BorshDeserialize, AccountData)]\npub struct X {\n}\n",
        empty.generate()
    );
    let f = AccountField { span: Span { start: 0, end: 0 }, number: 1, name: ident("a"), ty: Type::F32 };
    assert_eq!("pub a: f32,\n", f.generate());
    let f = MessageField { span: Span { start: 0, end: 0 }, number: 1, name: ident("a"), ty: Type::F64 };
    assert_eq!("pub a: f64,\n", f.generate());
}

#[test]
fn accounts_field_generates_by_capability() {
    let get = |n: &str| format!("accounts.get({}usize).ok_or(pinocchio::ProgramError::NotEnoughAccountKeys)?", n);
    assert_eq!(
        (
            "pub user: Account<'info, User, Read>,\n".to_string(),
            format!("user: Account::new(AccountInfo::new_read({})?)?,\n", get("0")),
        ),
        entry("user", "User", 1, false, false).generate()
    );
    assert_eq!(
        (
            "pub user: Account<'info, User, Mutable>,\n".to_string(),
            format!("user: Account::new(AccountInfo::new_mut({})?)?,\n", get("2")),
        ),
        entry("user", "User", 3, false, true).generate()
    );
    assert_eq!(
        (
            "pub user: Account<'info, PhantomData<User>, Init>,\n".to_string(),
            format!("user: Account::new_init(AccountInfo::new_init({})?),\n", get("254")),
        ),
        entry("user", "User", 255, true, false).generate()
    );
    assert_eq!(
        (
            "pub payer: Account<'info, Signer, Read>,\n".to_string(),
            format!("payer: Account::new_singer(AccountInfo::new_read({})?)?,\n", get("0")),
        ),
        entry("payer", "Signer", 1, false, false).generate()
    );
    assert_eq!(
        (
            "pub payer: Account<'info, Signer, Mutable>,\n".to_string(),
            format!("payer: Account::new_singer(AccountInfo::new_mut({})?)?,\n", get("9")),
        ),
        entry("payer", "Signer", 10, false, true).generate()
    );
}

#[test]
fn accounts_field_support() {
    assert!(entry("user", "User", 1, true, false).supported());
    assert!(!entry("user", "User", 0, false, false).supported());
    assert!(!entry("payer", "Signer", 1, true, false).supported());
    assert!(entry("payer", "Signer", 1, false, true).supported());
    assert!(entry("payer", "Singer", 1, true, false).supported());
}

#[test]
fn accounts_generate_a_record_with_its_loader() {
    let a = Accounts {
        span: Span { start: 0, end: 0 },
        name: ident("initalize"),
        fields: vec![entry("user", "User", 1, true, false), entry("payer", "Signer", 2, false, true)],
    };
    let want = "pub struct Initalize<'info> {\n\
pub user: Account<'info, PhantomData<User>, Init>,\n\
pub payer: Account<'info, Signer, Mutable>,\n\
}\n\
impl<'info> Initalize<'info> {\n\
pub fn load(accounts: &'info [pinocchio::AccountInfo]) -> Result<Self, pinocchio::ProgramError> {\n\
Ok(Self {\n\
user: Account::new_init(AccountInfo::new_init(accounts.get(0usize).ok_or(pinocchio::ProgramError::NotEnoughAccountKeys)?)?),\n\
payer: Account::new_singer(AccountInfo::new_mut(accounts.get(1usize).ok_or(pinocchio::ProgramError::NotEnoughAccountKeys)?)?)?,\n\
})\n\
}\n\
}\n";
    assert_eq!(want, a.generate());
}

fn instruction<'a>(name: &'a str, accounts: &'a str, payload: Option<&'a str>) -> Instruction<'a> {
    Instruction {
        span: Span { start: 0, end: 0 },
        number: 1,
        name: ident(name),
        accounts: ident(accounts),
        payload: payload.map(ident),
    }
}

#[test]
fn instruction_tag_is_the_start_of_the_digest() {
    assert_eq!(vec![24, 126, 32, 228], instruction("initalize", "Init", None).discriminator("test"));
    assert_eq!(
        vec![78, 77, 163, 125],
        instruction("create_config", "Init", None).discriminator("claim")
    );
}

#[test]
fn instruction_generates_a_branch_and_a_method() {
    let (branch, method) = instruction("initalize", "Init", None).generate("test");
    assert_eq!(
        "[24u8, 126u8, 32u8, 228u8] => {\nlet ctx = sol_ez::Context { program_id, accounts: super::Init::load(accounts)? };\nT::initalize(ctx)\n}\n",
        branch
    );
    assert_eq!("fn initalize(accounts: sol_ez::Context<super::Init>) -> ProgramResult;\n", method);
    let (branch, method) = instruction("initalize", "Init", Some("Amount")).generate("test");
    assert_eq!(
        "[24u8, 126u8, 32u8, 228u8] => {\nlet ctx = sol_ez::Context { program_id, accounts: super::Init::load(accounts)? };\nT::initalize(ctx, instruction_data.deserialize_data()?)\n}\n",
        branch
    );
    assert_eq!(
        "fn initalize(accounts: sol_ez::Context<super::Init>, payload: super::Amount) -> ProgramResult;\n",
        method
    );
}

#[test]
fn contract_generates_a_module() {
    let c = Contract {
        span: Span { start: 0, end: 0 },
        name: ident("test"),
        instructions: vec![instruction("initalize", "Init", None)],
    };
    let want = "pub mod test_contract {\n\
use core::marker::PhantomData;\n\
use pinocchio::{account_info::AccountInfo, ProgramResult, program_error::ProgramError, pubkey::Pubkey};\n\
pub struct TestDispatcher<T> {\n\
inner: PhantomData<T>\n\
}\n\
impl<T> sol_ez::Contract for TestDispatcher<T> where T: TestContract {\n\
fn dispatch<'info>(program_id: &Pubkey, accounts: &'info [AccountInfo], payload: &[u8]) -> ProgramResult {\n\
let instruction_data = sol_ez::InstructionData::new(payload)?;\n\
match instruction_data.ix {\n\
[97u8, 229u8, 248u8, 64u8] => {\n\
let ctx = sol_ez::Context { program_id, accounts: super::Init::load(accounts)? };\n\
T::initalize(ctx)\n\
}\n\
_ => Err(ProgramError::InvalidInstructionData)\n\
}\n\
}\n\
}\n\
pub trait TestContract {\n\
fn initalize(accounts: sol_ez::Context<super::Init>) -> ProgramResult;\n\
}\n\
}\n";
    assert_eq!(want, c.generate());
    let empty = Contract { span: Span { start: 0, end: 0 }, name: ident("a_b"), instructions: vec![] };
    assert!(empty.generate().starts_with("pub mod ab_contract {\n"));
}
