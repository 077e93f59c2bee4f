use sol_gen::ast::{Arr, Str, Type as AstType};
use sol_gen::config::{
    Account, Config, DiscriminatorType, Ix, IxAccount, IxConfig, Message, Program, Type,
};
use sol_gen::emit::compile;
use sol_gen::error::SolGenError;
use sol_gen::lexer::Lexer;
use sol_gen::lower::{compile_schema, lower_type};
use sol_gen::parse::Parser;

const SCHEMA: &str = "
message Amount { value: u64 = 1; }
account Counter { count: u64 = 1; live: bool = 2; }
accounts Bump { mutable counter: Counter = 2; payer: Signer = 1; }
accounts Open { init counter: Counter = 1; mutable payer: Signer = 2; }
contract counter {
    instruction bump(Bump, Amount) = 2;
    instruction open(Open) = 1;
}
";

fn account(id: usize) -> IxAccount {
    IxAccount { id, create: false, mutable: false, signed: false, ty: None, seed: None }
}

fn counter() -> Config {
    Config {
        program: Program { name: "counter".to_string(), version: (0, 0, 0) },
        ix_config: IxConfig { discriminator_size: 4, discriminator_type: DiscriminatorType::Hash },
        message: vec![(
            "Amount".to_string(),
            Message::Struct(vec![("value".to_string(), Type::U64)]),
        )],
        accounts: vec![(
            "Counter".to_string(),
            Account {
                id: 0,
                payload: Message::Struct(vec![
                    ("count".to_string(), Type::U64),
                    ("live".to_string(), Type::Bool),
                ]),
                seed: None,
                discriminator: None,
            },
        )],
        ix: vec![
            (
                "bump".to_string(),
                Ix {
                    id: 2,
                    args: vec![("payload".to_string(), Type::Defined("Amount".to_string()))],
                    accounts: vec![
                        (
                            "counter".to_string(),
                            IxAccount { mutable: true, ty: Some("Counter".to_string()), ..account(1) },
                        ),
                        ("payer".to_string(), IxAccount { signed: true, ..account(0) }),
                    ],
                },
            ),
            (
                "open".to_string(),
                Ix {
                    id: 1,
                    args: vec![],
                    accounts: vec![
                        (
                            "counter".to_string(),
                            IxAccount { create: true, ty: Some("Counter".to_string()), ..account(0) },
                        ),
                        ("payer".to_string(), IxAccount { mutable: true, signed: true, ..account(1) }),
                    ],
                },
            ),
        ],
    }
}

fn lower(src: &str) -> Result<Config, SolGenError> {
    Parser::new(Lexer::new(src)).parse().unwrap().to_config()
}

#[test]
fn schema_declares_a_description() {
    assert_eq!(Ok(counter()), lower(SCHEMA));
}

#[test]
fn schema_compiles_as_its_description() {
    let text = compile_schema(SCHEMA).unwrap();
    assert_eq!(Ok(text.clone()), compile(counter()));
    let flat = text.split_whitespace().collect::<Vec<&str>>().join(" ");
    assert!(flat.contains("pub const OPEN: [u8; 4usize] = [172u8, 153u8, 42u8, 143u8];"));
    assert!(flat.contains("pub const BUMP: [u8; 4usize] = [195u8, 184u8, 96u8, 1u8];"));
    assert!(flat.contains("pub trait CounterContract {"));
    assert!(flat.contains("let payload = ix_data.deserialize_data()?;"));
    assert!(flat.contains("fn bump( program_id: &Pubkey, accounts: BumpAccounts, payload: Amount, ) -> Result<(), ProgramError>;")
        || flat.contains("fn bump(program_id: &Pubkey, accounts: BumpAccounts, payload: Amount) -> Result<(), ProgramError>;"));
    assert!(flat.find("&OPEN =>").unwrap() < flat.find("&BUMP =>").unwrap());
}

#[test]
fn schema_compilation_does_not_depend_on_the_order_of_declarations() {
    let other = "
contract counter {
    instruction open(Open) = 1;
    instruction bump(Bump, Amount) = 2;
}
accounts Open { mutable payer: Signer = 2; init counter: Counter = 1; }
accounts Bump { payer: Signer = 1; mutable counter: Counter = 2; }
account Counter { count: u64 = 1; live: bool = 2; }
message Amount { value: u64 = 1; }
";
    assert!(compile_schema(SCHEMA).is_ok());
    assert_eq!(compile_schema(SCHEMA), compile_schema(other));
}

#[test]
fn schema_errors_come_from_the_first_stage_that_fails() {
    assert_eq!(Err(SolGenError::InvalidChar('$')), compile_schema("$"));
    assert_eq!(Err(SolGenError::MissingContract), compile_schema("message A { }"));
    assert_eq!(
        Err(SolGenError::ExpectedToken(
            "Identifer".to_string(),
            "Some(Token { span: Span { start: 9, end: 10 }, type: LBrace })".to_string()
        )),
        compile_schema("contract { }")
    );
    assert_eq!(
        Err(SolGenError::UndefinedAccounts("open".to_string(), "Open".to_string())),
        compile_schema("contract c { instruction open(Open) = 1; }")
    );
    assert_eq!(
        Err(SolGenError::UndefinedType(
            "open".to_string(),
            "payload".to_string(),
            "Amount".to_string()
        )),
        compile_schema("accounts Open { } contract c { instruction open(Open, Amount) = 1; }")
    );
    assert_eq!(
        Err(SolGenError::ZeroNumber("Open".to_string(), "payer".to_string())),
        compile_schema("accounts Open { payer: Signer = 0; } contract c { instruction open(Open) = 1; }")
    );
    assert_eq!(
        Err(SolGenError::DuplicateId("open".to_string(), "b".to_string())),
        compile_schema(
            "accounts Open { a: Signer = 1; b: Signer = 1; } contract c { instruction open(Open) = 1; }"
        )
    );
    assert_eq!(
        Err(SolGenError::ContradictoryFlags("open".to_string(), "a".to_string())),
        compile_schema("accounts Open { init a: Signer = 1; } contract c { instruction open(Open) = 1; }")
    );
    assert_eq!(
        Err(SolGenError::UndefinedType("open".to_string(), "a".to_string(), "Vault".to_string())),
        compile_schema("accounts Open { a: Vault = 1; } contract c { instruction open(Open) = 1; }")
    );
}

#[test]
fn schema_with_no_instruction_compiles() {
    let text = compile_schema("contract empty { }").unwrap();
    assert!(text.contains("pub trait EmptyContract {}"));
    assert!(text.contains("_ => Err(ProgramError::InvalidInstructionData),"));
}

#[test]
fn schema_types_lower() {
    assert_eq!(Some(Type::Bool), lower_type(&AstType::Bool));
    assert_eq!(Some(Type::U8), lower_type(&AstType::U8));
    assert_eq!(Some(Type::U64), lower_type(&AstType::U64));
    assert_eq!(Some(Type::Defined("f32".to_string())), lower_type(&AstType::F32));
    assert_eq!(Some(Type::Defined("f64".to_string())), lower_type(&AstType::F64));
    assert_eq!(None, lower_type(&AstType::Str(Str { max: 3 })));
    assert_eq!(None, lower_type(&AstType::Arr(Arr { max: 3, ty: Box::new(AstType::U8) })));
}

#[test]
fn schema_parts_lower() {
    let defs = Parser::new(Lexer::new(SCHEMA)).parse().unwrap();
    assert!(defs.declares("Amount"));
    assert!(defs.declares("Counter"));
    assert!(!defs.declares("Bump"));
    assert_eq!(
        Ok(Message::Struct(vec![("value".to_string(), Type::U64)])),
        defs.message[0].lower()
    );
    assert_eq!(
        Ok(Message::Struct(vec![
            ("count".to_string(), Type::U64),
            ("live".to_string(), Type::Bool)
        ])),
        defs.account[0].lower()
    );
    assert_eq!(counter().ix[0].1.accounts, defs.accounts[0].lower().unwrap());
    assert_eq!(counter().ix[1].1.accounts[1].1, defs.accounts[1].fields[1].lower());
    assert_eq!(
        Ok(("open".to_string(), sol_gen::config::Ix {
            id: 1,
            args: vec![],
            accounts: counter().ix.pop().unwrap().1.accounts,
        })),
        defs.lower_instruction(&defs.contract.instructions[1])
    );
}

#[test]
fn schema_with_a_type_that_has_no_generated_form() {
    let mut defs = Parser::new(Lexer::new("message A { x: u8 = 1; y: u8 = 2; } contract c { }"))
        .parse()
        .unwrap();
    defs.message[0].fields[1].ty = AstType::Str(Str { max: 8 });
    assert_eq!(
        Err(SolGenError::UnsupportedType("A".to_string(), "y".to_string())),
        defs.to_config()
    );
    assert_eq!(
        Err(SolGenError::UnsupportedType("A".to_string(), "y".to_string())),
        defs.message[0].lower()
    );
}

#[test]
fn more_error_messages() {
    assert_eq!(
        "type of A.y is not supported",
        SolGenError::UnsupportedType("A".to_string(), "y".to_string()).message()
    );
    assert_eq!(
        "number of Open.payer must not be 0",
        SolGenError::ZeroNumber("Open".to_string(), "payer".to_string()).message()
    );
    assert_eq!(
        "id(open) accounts Open not defined",
        SolGenError::UndefinedAccounts("open".to_string(), "Open".to_string()).message()
    );
    assert_eq!(
        "discriminator size is larger than the digest",
        SolGenError::DiscriminatorSize(33).message()
    );
    assert_eq!("invalid name a b", SolGenError::InvalidName("a b".to_string()).message());
    assert_eq!("failed to parse token stream", SolGenError::Codegen.message());
    assert_eq!(
        "number too large to fit in target type: 256",
        SolGenError::ParseInt("256".to_string()).message()
    );
}
