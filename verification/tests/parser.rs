use sol_gen::ast::{
    Account, AccountField, Accounts, AccountsField, Contract, Identifer, Instruction, Message,
    MessageField, Type,
};
use sol_gen::error::SolGenError;
use sol_gen::lexer::Lexer;
use sol_gen::parse::{Parser, TokenHandler};
use sol_gen::token::{Span, TokenType};

#[test]
fn test_message_parse() {
    let src = " message InitalValue { value: u8 = 1; } ";
    let msg = Parser::new(Lexer::new(src))
        .parse_message()
        .expect("failed to parse message src");

    assert_eq!(
        Message {
            span: Span { start: 1, end: 39 },
            name: Identifer {
                span: Span { start: 9, end: 20 },
                value: "InitalValue"
            },
            fields: vec![MessageField {
                span: Span { start: 23, end: 37 },
                number: 1,
                name: Identifer {
                    span: Span { start: 23, end: 28 },
                    value: "value"
                },
                ty: Type::U8
            }]
        },
        msg
    )
}

#[test]
fn test_account_parse() {
    let src = " account InitalValue { value: u8 = 1; } ";
    let account = Parser::new(Lexer::new(src))
        .parse_account()
        .expect("failed to parse account src");

    assert_eq!(
        Account {
            span: Span { start: 1, end: 39 },
            name: Identifer {
                span: Span { start: 9, end: 20 },
                value: "InitalValue"
            },
            fields: vec![AccountField {
                span: Span { start: 23, end: 37 },
                number: 1,
                name: Identifer {
                    span: Span { start: 23, end: 28 },
                    value: "value"
                },
                ty: Type::U8
            }]
        },
        account
    )
}

#[test]
fn test_accounts_parse() {
    let src = " accounts Initalize { user: User = 1; } ";
    let accoutns = Parser::new(Lexer::new(src))
        .parse_accounts()
        .expect("failed to parse accounts src");

    assert_eq!(
        Accounts {
            span: Span { start: 1, end: 39 },
            name: Identifer {
                span: Span { start: 10, end: 19 },
                value: "Initalize"
            },
            fields: vec![AccountsField {
                span: Span { start: 22, end: 37 },
                number: 1,
                init: false,
                mutable: false,
                name: Identifer {
                    span: Span { start: 22, end: 26 },
                    value: "user"
                },
                account: Identifer {
                    span: Span { start: 28, end: 32 },
                    value: "User"
                }
            }]
        },
        accoutns
    )
}

#[test]
fn test_contract_parse() {
    let src = r#"
            contract test {
                instruction initalize(Init) = 1;
            }
        "#;
    let contract = Parser::new(Lexer::new(src))
        .parse_contract()
        .expect("failed to parse contract src");

    assert_eq!(
        Contract {
            span: Span { start: 13, end: 91 },
            name: Identifer {
                span: Span { start: 22, end: 26 },
                value: "test"
            },
            instructions: vec![Instruction {
                span: Span { start: 45, end: 77 },
                number: 1,
                name: Identifer {
                    span: Span { start: 57, end: 66 },
                    value: "initalize"
                },
                accounts: Identifer {
                    span: Span { start: 67, end: 71 },
                    value: "Init"
                },
                payload: None
            }]
        },
        contract
    )
}

const SCHEMA: &str = "
message Amount { value: u64 = 1; }
account Counter { count: u64 = 1; live: bool = 2; }
accounts Bump { mutable counter: Counter = 1; payer: Singer = 2; }
accounts Open { init counter: Counter = 1; }
contract counter {
    instruction open(Open) = 1;
    instruction bump(Bump, Amount) = 2;
}
";

#[test]
fn parse_reads_a_whole_schema() {
    let defs = Parser::new(Lexer::new(SCHEMA)).parse().expect("schema");
    assert_eq!(1, defs.message.len());
    assert_eq!(1, defs.account.len());
    assert_eq!(2, defs.accounts.len());
    assert_eq!("counter", defs.contract.name.value);
    assert_eq!(2, defs.contract.instructions.len());
    assert_eq!("Amount", defs.message[0].name.value);
    assert_eq!(Type::U64, defs.message[0].fields[0].ty);
    assert_eq!(2, defs.account[0].fields.len());
    assert_eq!(Type::Bool, defs.account[0].fields[1].ty);
    assert_eq!(2, defs.account[0].fields[1].number);

    let bump = &defs.accounts[0];
    assert!(bump.fields[0].mutable);
    assert!(!bump.fields[0].init);
    assert_eq!("Counter", bump.fields[0].account.value);
    assert_eq!("Singer", bump.fields[1].account.value);
    assert!(!bump.fields[1].mutable);
    let open = &defs.accounts[1];
    assert!(open.fields[0].init);
    assert!(!open.fields[0].mutable);

    let ix = &defs.contract.instructions[1];
    assert_eq!("bump", ix.name.value);
    assert_eq!("Bump", ix.accounts.value);
    assert_eq!(Some("Amount"), ix.payload.as_ref().map(|p| p.value));
    assert_eq!(2, ix.number);
    assert_eq!(None, defs.contract.instructions[0].payload);
}

#[test]
fn parse_needs_a_contract() {
    let r = Parser::new(Lexer::new("message A { } account B { }")).parse();
    assert_eq!(Err(SolGenError::MissingContract), r);
    assert_eq!(Err(SolGenError::MissingContract), Parser::new(Lexer::new("")).parse());
}

#[test]
fn parse_takes_one_contract_only() {
    let r = Parser::new(Lexer::new("contract a { } contract b { }")).parse();
    assert_eq!(Err(SolGenError::DuplicateContract), r);
}

#[test]
fn parse_stops_at_an_invalid_character() {
    let r = Parser::new(Lexer::new("contract a { } # message B { }")).parse();
    assert_eq!(Err(SolGenError::InvalidChar('#')), r);
}

#[test]
fn parse_rejects_another_token_at_top_level() {
    let r = Parser::new(Lexer::new("contract a { } mutable")).parse();
    assert_eq!(
        Err(SolGenError::ExpectedToken(
            "account, accounts, or contract".to_string(),
            "Mutable".to_string()
        )),
        r
    );
}

#[test]
fn parse_reports_expected_and_found() {
    let r = Parser::new(Lexer::new("message A { value u8 = 1; }")).parse_message();
    assert_eq!(
        Err(SolGenError::ExpectedToken(
            "Colon".to_string(),
            "Some(Token { span: Span { start: 18, end: 20 }, type: U8 })".to_string()
        )),
        r
    );
    let r = Parser::new(Lexer::new("message A { value: u8 = 1;")).parse_message();
    assert_eq!(
        Err(SolGenError::ExpectedToken("RBrace".to_string(), "None".to_string())),
        r
    );
    let r = Parser::new(Lexer::new("message A { value: str = 1; }")).parse_message();
    assert_eq!(
        Err(SolGenError::ExpectedToken(
            "u8, u64, or bool".to_string(),
            "Identifer".to_string()
        )),
        r
    );
    let r = Parser::new(Lexer::new("message A { value: ")).parse_message();
    assert_eq!(
        Err(SolGenError::ExpectedToken("u8, u64, or bool".to_string(), "None".to_string())),
        r
    );
}

#[test]
fn parse_rejects_an_id_above_a_byte() {
    let r = Parser::new(Lexer::new("message A { value: u8 = 256; }")).parse_message();
    assert_eq!(Err(SolGenError::ParseInt("256".to_string())), r);
    let ok = Parser::new(Lexer::new("message A { value: u8 = 0255; }")).parse_message();
    assert_eq!(255, ok.unwrap().fields[0].number);
}

#[test]
fn parse_rejects_mutable_and_init_together() {
    let r = Parser::new(Lexer::new("accounts A { mutable init a: B = 1; }")).parse_accounts();
    assert_eq!(
        Err(SolGenError::ExpectedToken(
            "Identifer".to_string(),
            "Some(Token { span: Span { start: 21, end: 25 }, type: Init })".to_string()
        )),
        r
    );
}

#[test]
fn error_messages() {
    assert_eq!(
        "expected Colon found U8",
        SolGenError::ExpectedToken("Colon".to_string(), "U8".to_string()).message()
    );
    assert_eq!("invalid char '#'", SolGenError::InvalidChar('#').message());
    assert_eq!(
        "duplicate id in open accounts(payer)",
        SolGenError::DuplicateId("open".to_string(), "payer".to_string()).message()
    );
    assert_eq!(
        "id(open) account(payer) cant be create and mutable or signed",
        SolGenError::ContradictoryFlags("open".to_string(), "payer".to_string()).message()
    );
    assert_eq!(
        "id(open) account(payer) type Vault not defined",
        SolGenError::UndefinedType("open".to_string(), "payer".to_string(), "Vault".to_string())
            .message()
    );
    assert_eq!("A contract must be defined", SolGenError::MissingContract.message());
    assert_eq!(
        "Only a single contract can be defined",
        SolGenError::DuplicateContract.message()
    );
}

#[test]
fn consume_if_names_the_token_that_it_found() {
    let mut tokens = TokenHandler::new(Lexer::new("  name # '"));
    assert_eq!(
        Err(SolGenError::ExpectedToken(
            "LBrace".to_string(),
            "Some(Token { span: Span { start: 2, end: 6 }, type: Identifer })".to_string()
        )),
        tokens.consume_if(TokenType::LBrace)
    );
    assert_eq!(TokenType::Identifer, tokens.curr().unwrap().kind);
    assert_eq!(TokenType::InvalidChar('#'), tokens.peek().unwrap().kind);
    tokens.bump();
    assert_eq!(
        Err(SolGenError::ExpectedToken(
            "InvalidChar('x')".to_string(),
            "Some(Token { span: Span { start: 7, end: 8 }, type: InvalidChar('#') })".to_string()
        )),
        tokens.consume_if(TokenType::InvalidChar('x'))
    );
    tokens.bump();
    assert_eq!(
        Err(SolGenError::ExpectedToken(
            "InvalidChar('\\n')".to_string(),
            "Some(Token { span: Span { start: 9, end: 10 }, type: InvalidChar('\\'') })"
                .to_string()
        )),
        tokens.consume_if(TokenType::InvalidChar('\n'))
    );
    tokens.bump();
    assert_eq!(
        Err(SolGenError::ExpectedToken("Comma".to_string(), "None".to_string())),
        tokens.consume_if(TokenType::Comma)
    );
}

#[test]
fn parser_reads_names_behind_wide_characters() {
    let src = "\u{2003}message N\u{e4}me\u{a0}{ value: u8 = 1; }";
    let r = Parser::new(Lexer::new(src)).parse_message();
    assert_eq!(
        Err(SolGenError::ExpectedToken(
            "LBrace".to_string(),
            "Some(Token { span: Span { start: 12, end: 14 }, type: InvalidChar('\u{e4}') })"
                .to_string()
        )),
        r
    );
    let src = "\u{2003}message Name\u{a0}{ v\u{2003}: u8 = 1; }";
    let m = Parser::new(Lexer::new(src)).parse_message().unwrap();
    assert_eq!(Span { start: 3, end: src.len() }, m.span);
    assert_eq!(Identifer { span: Span { start: 11, end: 15 }, value: "Name" }, m.name);
    assert_eq!(Span { start: 19, end: 20 }, m.fields[0].name.span);
    assert_eq!("v", m.fields[0].name.value);
    assert_eq!(&src[19..20], m.fields[0].name.value);
}

#[test]
fn token_handler_looks_two_tokens_ahead() {
    let mut tokens = TokenHandler::new(Lexer::new("a : 1"));
    assert_eq!(TokenType::Identifer, tokens.curr().unwrap().kind);
    assert_eq!(TokenType::Colon, tokens.peek().unwrap().kind);
    assert_eq!(TokenType::Identifer, tokens.bump().unwrap().kind);
    assert_eq!(TokenType::Colon, tokens.curr().unwrap().kind);
    assert_eq!(TokenType::Intager, tokens.peek().unwrap().kind);
    assert!(tokens.consume_if(TokenType::Comma).is_err());
    assert_eq!(TokenType::Colon, tokens.curr().unwrap().kind);
    let colon = tokens.consume_if(TokenType::Colon).unwrap();
    assert_eq!(Span { start: 2, end: 3 }, colon.span);
    let one = tokens.bump().unwrap();
    assert_eq!("1", tokens.src_span(one.span));
    assert_eq!(None, tokens.curr());
    assert_eq!(None, tokens.peek());
    assert_eq!(None, tokens.bump());
}
