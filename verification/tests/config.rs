use sol_gen::config::{
    Account, AccountDiscriminator, AccountSeed, AccountSeedFunc, Config, DiscriminatorType, Ix,
    IxAccount, IxConfig, Message, Program, SeedType, Type,
};
use sol_gen::error::SolGenError;

fn account(id: usize) -> IxAccount {
    IxAccount { id, create: false, mutable: false, signed: false, ty: None, seed: None }
}

fn claim() -> Config {
    Config {
        program: Program { name: "claim".to_string(), version: (0, 1, 0) },
        ix_config: IxConfig { discriminator_size: 4, discriminator_type: DiscriminatorType::Hash },
        accounts: vec![(
            "config".to_string(),
            Account {
                id: 0,
                payload: Message::Struct(vec![
                    ("token".to_string(), Type::PublicKey),
                    ("total".to_string(), Type::U64),
                ]),
                seed: Some(AccountSeed {
                    bump: true,
                    func: AccountSeedFunc::from_str("[user] => 'config' + user").unwrap(),
                }),
                discriminator: None,
            },
        )],
        message: vec![],
        ix: vec![
            (
                "claim".to_string(),
                Ix {
                    id: 1,
                    args: vec![("amount".to_string(), Type::U64)],
                    accounts: vec![
                        (
                            "config".to_string(),
                            IxAccount { ty: Some("config".to_string()), ..account(0) },
                        ),
                        ("user".to_string(), IxAccount { mutable: true, signed: true, ..account(1) }),
                    ],
                },
            ),
            (
                "close".to_string(),
                Ix {
                    id: 2,
                    args: vec![],
                    accounts: vec![(
                        "config".to_string(),
                        IxAccount { mutable: true, ty: Some("config".to_string()), ..account(0) },
                    )],
                },
            ),
            (
                "create_config".to_string(),
                Ix {
                    id: 0,
                    args: vec![
                        ("bump".to_string(), Type::U8),
                        ("token".to_string(), Type::FixedArray(Box::new(Type::U8), 32)),
                    ],
                    accounts: vec![
                        (
                            "config".to_string(),
                            IxAccount { create: true, ty: Some("config".to_string()), ..account(1) },
                        ),
                        ("payer".to_string(), IxAccount { mutable: true, signed: true, ..account(0) }),
                    ],
                },
            ),
        ],
    }
}

#[test]
fn validate_accepts_a_valid_description() {
    assert_eq!(Ok(()), claim().validate());
}

#[test]
fn validate_rejects_a_duplicate_id() {
    let mut config = claim();
    config.ix[0].1.accounts[1].1.id = 0;
    assert_eq!(
        Err(SolGenError::DuplicateId("claim".to_string(), "user".to_string())),
        config.validate()
    );
}

#[test]
fn validate_rejects_a_duplicate_id_among_many() {
    let mut config = claim();
    config.ix[0].1.accounts.push(("extra".to_string(), account(7)));
    config.ix[0].1.accounts.push(("other".to_string(), account(1)));
    assert_eq!(
        Err(SolGenError::DuplicateId("claim".to_string(), "other".to_string())),
        config.validate()
    );
}

#[test]
fn validate_rejects_create_with_mutable() {
    let mut config = claim();
    config.ix[2].1.accounts[0].1.mutable = true;
    assert_eq!(
        Err(SolGenError::ContradictoryFlags("create_config".to_string(), "config".to_string())),
        config.validate()
    );
}

#[test]
fn validate_rejects_create_with_signed() {
    let mut config = claim();
    config.ix[2].1.accounts[0].1.signed = true;
    assert_eq!(
        Err(SolGenError::ContradictoryFlags("create_config".to_string(), "config".to_string())),
        config.validate()
    );
}

#[test]
fn validate_rejects_an_undeclared_type() {
    let mut config = claim();
    config.ix[1].1.accounts[0].1.ty = Some("vault".to_string());
    assert_eq!(
        Err(SolGenError::UndefinedType(
            "close".to_string(),
            "config".to_string(),
            "vault".to_string()
        )),
        config.validate()
    );
}

#[test]
fn validate_takes_a_message_type_as_declared() {
    let mut config = claim();
    config.message.push(("vault".to_string(), Message::Struct(vec![])));
    config.ix[1].1.accounts[0].1.ty = Some("vault".to_string());
    assert_eq!(Ok(()), config.validate());
    assert!(config.declares_type(&"vault".to_string()));
    assert!(config.declares_type(&"config".to_string()));
    assert!(!config.declares_type(&"other".to_string()));
}

#[test]
fn validate_reports_the_first_fault() {
    let mut config = claim();
    config.ix[1].1.accounts[0].1.ty = Some("vault".to_string());
    config.ix[0].1.accounts[1].1.create = true;
    assert_eq!(
        Err(SolGenError::ContradictoryFlags("claim".to_string(), "user".to_string())),
        config.validate()
    );
}

#[test]
fn validate_takes_the_same_id_in_two_instructions() {
    let config = claim();
    assert_eq!(config.ix[0].1.accounts[0].1.id, config.ix[1].1.accounts[0].1.id);
    assert_eq!(Ok(()), config.validate());
}

#[test]
fn duplicate_id_comes_before_the_flags_of_the_same_account() {
    let mut config = claim();
    config.ix[0].1.accounts[1].1.id = 0;
    config.ix[0].1.accounts[1].1.create = true;
    assert_eq!(
        Err(SolGenError::DuplicateId("claim".to_string(), "user".to_string())),
        config.validate()
    );
}

#[test]
fn seed_func_reads_inputs_and_parts() {
    let f = AccountSeedFunc::from_str("[user, mint] => 'vault' + user + mint").unwrap();
    assert_eq!(&vec!["user".to_string(), "mint".to_string()], f.inputs());
    assert_eq!(
        &vec![SeedType::Defined("vault".to_string()), SeedType::Input(0), SeedType::Input(1)],
        f.func()
    );
}

#[test]
fn seed_func_takes_the_first_of_equal_inputs() {
    let f = AccountSeedFunc::from_str("seeds[a,b,a]=>a+'x y'+ b").unwrap();
    assert_eq!(3, f.inputs().len());
    assert_eq!(
        &vec![SeedType::Input(0), SeedType::Defined("x y".to_string()), SeedType::Input(1)],
        f.func()
    );
}

#[test]
fn seed_func_errors() {
    assert_eq!(
        Err("Invalid seed func format: [a] -> a".to_string()),
        AccountSeedFunc::from_str("[a] -> a")
    );
    assert_eq!(
        Err("Invalid seed input format: a => a".to_string()),
        AccountSeedFunc::from_str("a => a")
    );
    assert_eq!(
        Err("Invalid seed input format: [a => a".to_string()),
        AccountSeedFunc::from_str("[a => a")
    );
    assert_eq!(
        Err("Invalid seed func arg not defined: b".to_string()),
        AccountSeedFunc::from_str("[a] => a + b")
    );
    assert_eq!(
        Err("Invalid seed func arg not defined: '".to_string()),
        AccountSeedFunc::from_str("[a] => '")
    );
}

#[test]
fn seed_func_of_an_empty_list_has_one_empty_input() {
    let f = AccountSeedFunc::from_str("[] => ''").unwrap();
    assert_eq!(&vec!["".to_string()], f.inputs());
    assert_eq!(&vec![SeedType::Defined("".to_string())], f.func());
    let g = AccountSeedFunc::from_str("[] => ").unwrap();
    assert_eq!(&vec![SeedType::Input(0)], g.func());
}

#[test]
fn seed_func_new_checks_the_inputs() {
    assert!(AccountSeedFunc::new(vec!["a".to_string()], vec![SeedType::Input(0)]).is_some());
    assert!(AccountSeedFunc::new(vec!["a".to_string()], vec![SeedType::Input(1)]).is_none());
    assert!(AccountSeedFunc::new(vec![], vec![SeedType::Defined("x".to_string())]).is_some());
}

#[test]
fn seed_func_from_str_trait() {
    let f: AccountSeedFunc = "[a] => a".parse().unwrap();
    assert_eq!(&vec![SeedType::Input(0)], f.func());
    assert_eq!(&vec!["a".to_string()], f.inputs());
    let g: AccountSeedFunc = "[user, mint] => 'vault' + mint".parse().unwrap();
    assert_eq!(Ok(g), AccountSeedFunc::from_str("[user, mint] => 'vault' + mint"));
    let bad: Result<AccountSeedFunc, String> = "[a] => b".parse();
    assert_eq!(Err("Invalid seed func arg not defined: b".to_string()), bad);
    let bad: Result<AccountSeedFunc, String> = "a".parse();
    assert_eq!(Err("Invalid seed func format: a".to_string()), bad);
}

#[test]
fn well_formed_descriptions_name_nothing_twice() {
    assert!(claim().is_well_formed());
    let mut config = claim();
    config.ix.push(("claim".to_string(), Ix { id: 9, args: vec![], accounts: vec![] }));
    assert!(!config.is_well_formed());
    let mut config = claim();
    config.ix[0].1.accounts.push(("user".to_string(), account(5)));
    assert!(!config.is_well_formed());
    assert_eq!(Ok(()), config.validate());
    let mut config = claim();
    config.ix[2].1.args.push(("bump".to_string(), Type::U64));
    assert!(!config.is_well_formed());
    let mut config = claim();
    config.message.push(("m".to_string(), Message::Struct(vec![])));
    config.message.push(("n".to_string(), Message::Struct(vec![])));
    assert!(config.is_well_formed());
    config.message.push((
        "m".to_string(),
        Message::Struct(vec![("a".to_string(), Type::U8)]),
    ));
    assert!(!config.is_well_formed());
    let mut config = claim();
    config.message.push((
        "m".to_string(),
        Message::Struct(vec![("a".to_string(), Type::U8), ("a".to_string(), Type::U8)]),
    ));
    assert!(!config.is_well_formed());
    assert!(!Message::Struct(vec![("a".to_string(), Type::U8), ("a".to_string(), Type::U64)])
        .is_well_formed());
    let mut config = claim();
    let again = claim().accounts.pop().unwrap();
    config.accounts.push(again);
    assert!(!config.is_well_formed());
}

#[test]
fn type_duplicate_copies() {
    let t = Type::Option(Box::new(Type::FixedArray(
        Box::new(Type::Defined("config".to_string())),
        3,
    )));
    assert_eq!(t, t.duplicate());
}

#[test]
fn account_discriminator_is_kept() {
    let d = AccountDiscriminator::Hash { size: 8 };
    assert_eq!(AccountDiscriminator::Hash { size: 8 }, d);
}
