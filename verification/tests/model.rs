use sol_gen::config::{
    Account, AccountDiscriminator, AccountSeed, AccountSeedFunc, Config, DiscriminatorType, Ix,
    IxAccount, IxConfig, Message, Program, Type as ConfigType,
};
use sol_gen::discriminator::{
    DiscriminatorGen, HashDiscriminatorGen, IndexDiscriminatorGen, TagSeed,
};
use sol_gen::my_idl::{
    Account as IdlAccount, AccountDiscriminator as IdlDiscriminator, Field, Instruction,
    InstructionAccount, IxAccountState, MyIdl, Seed, Type, Version,
};
use sol_gen::order::{key_before, name_before, sorted_positions, SortKey};

fn ix_account(id: usize) -> IxAccount {
    IxAccount { id, create: false, mutable: false, signed: false, ty: None, seed: None }
}

fn ix(id: usize, accounts: Vec<(String, IxAccount)>) -> Ix {
    Ix { id, args: vec![], accounts }
}

fn config(ixs: Vec<(String, Ix)>) -> Config {
    Config {
        program: Program { name: "claim".to_string(), version: (1, 2, 3) },
        ix_config: IxConfig { discriminator_size: 4, discriminator_type: DiscriminatorType::Index },
        accounts: vec![],
        message: vec![],
        ix: ixs,
    }
}

fn names(idl: &MyIdl) -> Vec<String> {
    idl.instructions.iter().map(|i| i.name.clone()).collect()
}

#[test]
fn model_sorts_instructions_by_id() {
    let idl = MyIdl::from_config(&config(vec![
        ("c".to_string(), ix(2, vec![])),
        ("a".to_string(), ix(0, vec![])),
        ("b".to_string(), ix(1, vec![])),
    ]));
    assert_eq!(vec!["a", "b", "c"], names(&idl));
    assert_eq!(vec![0u8, 1, 2], idl.instructions.iter().map(|i| i.id).collect::<Vec<u8>>());
    assert_eq!(Version { major: 1, minor: 2, patch: 3 }, idl.version);
    assert_eq!("claim", idl.name);
    assert_eq!(4, idl.instruction_discriminator_size);
    assert_eq!(DiscriminatorType::Index, idl.instruction_discriminator_type);
}

#[test]
fn model_orders_equal_ids_by_name() {
    let idl = MyIdl::from_config(&config(vec![
        ("zeta".to_string(), ix(1, vec![])),
        ("alpha".to_string(), ix(1, vec![])),
        ("alphabet".to_string(), ix(1, vec![])),
        ("first".to_string(), ix(0, vec![])),
    ]));
    assert_eq!(vec!["first", "alpha", "alphabet", "zeta"], names(&idl));
}

#[test]
fn model_does_not_depend_on_the_order_of_declarations() {
    let a = MyIdl::from_config(&config(vec![
        ("open".to_string(), ix(3, vec![("x".to_string(), ix_account(1)), ("y".to_string(), ix_account(0))])),
        ("shut".to_string(), ix(1, vec![])),
        ("bump".to_string(), ix(2, vec![])),
    ]));
    let b = MyIdl::from_config(&config(vec![
        ("bump".to_string(), ix(2, vec![])),
        ("open".to_string(), ix(3, vec![("y".to_string(), ix_account(0)), ("x".to_string(), ix_account(1))])),
        ("shut".to_string(), ix(1, vec![])),
    ]));
    assert_eq!(a, b);
    assert_eq!(vec!["shut", "bump", "open"], names(&a));
}

#[test]
fn model_sorts_the_accounts_of_an_instruction() {
    let idl = MyIdl::from_config(&config(vec![(
        "open".to_string(),
        ix(
            0,
            vec![
                ("payer".to_string(), IxAccount { mutable: true, signed: true, ..ix_account(2) }),
                (
                    "vault".to_string(),
                    IxAccount { create: true, ty: Some("vault".to_string()), ..ix_account(0) },
                ),
                (
                    "owner".to_string(),
                    IxAccount { seed: Some(vec!["a".to_string()]), ..ix_account(1) },
                ),
            ],
        ),
    )]));
    let accounts = &idl.instructions[0].accounts;
    assert_eq!(
        &vec![
            InstructionAccount {
                id: 0,
                name: "vault".to_string(),
                state: IxAccountState::Create,
                is_signed: false,
                seed: None,
                payload: Some("vault".to_string()),
            },
            InstructionAccount {
                id: 1,
                name: "owner".to_string(),
                state: IxAccountState::ReadOnly,
                is_signed: false,
                seed: Some(vec!["a".to_string()]),
                payload: None,
            },
            InstructionAccount {
                id: 2,
                name: "payer".to_string(),
                state: IxAccountState::Mutable,
                is_signed: true,
                seed: None,
                payload: None,
            },
        ],
        accounts
    );
}

#[test]
fn model_keeps_the_low_byte_of_an_id() {
    let idl = MyIdl::from_config(&config(vec![
        ("far".to_string(), ix(258, vec![("a".to_string(), ix_account(513))])),
        ("near".to_string(), ix(3, vec![])),
    ]));
    assert_eq!(vec!["near", "far"], names(&idl));
    assert_eq!(2, idl.instructions[1].id);
    assert_eq!(1, idl.instructions[1].accounts[0].id);
}

#[test]
fn model_from_a_description_by_value() {
    let by_value = MyIdl::from(config(vec![
        ("b".to_string(), ix(1, vec![])),
        ("a".to_string(), ix(0, vec![])),
    ]));
    let by_reference = MyIdl::from_config(&config(vec![
        ("b".to_string(), ix(1, vec![])),
        ("a".to_string(), ix(0, vec![])),
    ]));
    assert_eq!(by_reference, by_value);
    assert_eq!(vec!["a", "b"], names(&by_value));
}

#[test]
fn model_create_wins_over_mutable() {
    let idl = MyIdl::from_config(&config(vec![(
        "open".to_string(),
        ix(0, vec![("a".to_string(), IxAccount { create: true, mutable: true, ..ix_account(0) })]),
    )]));
    assert_eq!(IxAccountState::Create, idl.instructions[0].accounts[0].state);
}

#[test]
fn model_takes_account_kinds_as_given() {
    let mut c = config(vec![(
        "open".to_string(),
        Ix {
            id: 0,
            args: vec![
                ("amount".to_string(), ConfigType::U64),
                ("memo".to_string(), ConfigType::Option(Box::new(ConfigType::String))),
            ],
            accounts: vec![],
        },
    )]);
    c.accounts = vec![
        (
            "vault".to_string(),
            Account {
                id: 7,
                payload: Message::Struct(vec![("owner".to_string(), ConfigType::PublicKey)]),
                seed: Some(AccountSeed {
                    bump: true,
                    func: AccountSeedFunc::from_str("[user] => 'vault' + user").unwrap(),
                }),
                discriminator: Some(AccountDiscriminator::Hash { size: 8 }),
            },
        ),
        (
            "config".to_string(),
            Account { id: 2, payload: Message::Struct(vec![]), seed: None, discriminator: None },
        ),
    ];
    let idl = MyIdl::from_config(&c);
    assert_eq!(2, idl.accounts.len());
    assert_eq!(
        IdlAccount {
            id: 7,
            name: "vault".to_string(),
            fields: vec![Field { name: "owner".to_string(), ty: Type::PublicKey }],
            seed: Some(sol_gen::my_idl::AccountSeed {
                bump: true,
                seeds: vec![Seed::Defined("vault".to_string()), Seed::Input("user".to_string())],
            }),
            discriminator: Some(IdlDiscriminator { size: 8 }),
        },
        idl.accounts[0]
    );
    assert_eq!("config", idl.accounts[1].name);
    assert_eq!(
        vec![
            Field { name: "amount".to_string(), ty: Type::U64 },
            Field { name: "memo".to_string(), ty: Type::Option(Box::new(Type::String)) },
        ],
        idl.instructions[0].args
    );
}

#[test]
fn type_conversions_agree() {
    let t = ConfigType::FixedArray(
        Box::new(ConfigType::DynamicArray(Box::new(ConfigType::Defined("x".to_string())))),
        4,
    );
    let want = Type::FixedArray(
        Box::new(Type::DynamicArray(Box::new(Type::Defined("x".to_string())))),
        4,
    );
    assert_eq!(want, Type::of_config(&t));
    assert_eq!(want, Type::from(t.duplicate()));
    assert_eq!(want, Type::convert(t));
    assert_eq!(want, want.duplicate());
    assert_eq!(Type::I128, Type::from(ConfigType::I128));
}

#[test]
fn account_state_tests() {
    assert!(IxAccountState::Create.is_create());
    assert!(!IxAccountState::Mutable.is_create());
    assert!(!IxAccountState::ReadOnly.is_create());
    assert!(IxAccountState::Mutable.is_mutable());
    assert!(!IxAccountState::Create.is_mutable());
    assert!(!IxAccountState::ReadOnly.is_mutable());
}

fn key(id: usize, name: &str) -> SortKey {
    SortKey { id, name: name.chars().collect() }
}

#[test]
fn sorted_positions_orders_by_id_then_name() {
    let keys = vec![key(2, "a"), key(1, "b"), key(1, "a"), key(0, "z"), key(1, "ab")];
    assert_eq!(vec![3, 2, 4, 1, 0], sorted_positions(&keys));
    assert_eq!(Vec::<usize>::new(), sorted_positions(&vec![]));
}

#[test]
fn sorted_positions_keeps_equal_keys_in_place() {
    let keys = vec![key(1, "a"), key(0, "b"), key(1, "a"), key(0, "b")];
    assert_eq!(vec![1, 3, 0, 2], sorted_positions(&keys));
}

#[test]
fn name_order_is_that_of_strings() {
    let v = |s: &str| s.chars().collect::<Vec<char>>();
    assert!(name_before(&v("a"), &v("b")));
    assert!(!name_before(&v("b"), &v("a")));
    assert!(name_before(&v(""), &v("a")));
    assert!(!name_before(&v("a"), &v("")));
    assert!(!name_before(&v("abc"), &v("abc")));
    assert!(name_before(&v("ab"), &v("abc")));
    assert!(name_before(&v("Z"), &v("a")));
    assert!(name_before(&v("abd"), &v("b")));
    assert!(key_before(&key(1, "z"), &key(2, "a")));
    assert!(!key_before(&key(2, "a"), &key(1, "z")));
    assert!(key_before(&key(1, "a"), &key(1, "b")));
    assert!(!key_before(&key(1, "a"), &key(1, "a")));
}

fn instruction(id: u8, name: &str) -> Instruction {
    Instruction { id, name: name.to_string(), accounts: vec![], args: vec![] }
}

fn account_kind(id: u8, name: &str) -> IdlAccount {
    IdlAccount { id, name: name.to_string(), fields: vec![], seed: None, discriminator: None }
}

#[test]
fn hash_discriminator_is_the_start_of_the_digest() {
    let ix = instruction(9, "create_config");
    assert_eq!(
        vec![78, 77, 163, 125],
        HashDiscriminatorGen::from_instruction("claim", &ix, 4)
    );
    assert_eq!(
        vec![78, 77, 163, 125, 43, 52, 87, 60],
        HashDiscriminatorGen::from_instruction("claim", &ix, 8)
    );
    assert_eq!(Vec::<u8>::new(), HashDiscriminatorGen::from_instruction("claim", &ix, 0));
    let whole = HashDiscriminatorGen::from_instruction("claim", &ix, 32);
    assert_eq!(32, whole.len());
    assert_eq!(0xa3, whole[31]);
    assert_eq!(
        vec![215, 137, 13, 96],
        HashDiscriminatorGen::from_account("claim", &account_kind(3, "config"), 4)
    );
}

#[test]
fn hash_discriminator_seeds() {
    let ix = instruction(9, "create_config");
    assert_eq!("claim|ix|create_config", HashDiscriminatorGen::instruction_seed("claim", &ix));
    assert_eq!(
        "claim|account|config",
        HashDiscriminatorGen::account_seed("claim", &account_kind(3, "config"))
    );
    assert_eq!(
        TagSeed::Text("claim|account|config".to_string()),
        HashDiscriminatorGen::account_token("claim", &account_kind(3, "config"))
    );
    assert_eq!(
        vec![29, 37, 118, 180],
        HashDiscriminatorGen::discriminator("claim|ix|claim".to_string(), 4)
    );
}

#[test]
fn hash_discriminator_does_not_depend_on_the_id() {
    assert_eq!(
        HashDiscriminatorGen::from_instruction("claim", &instruction(0, "close"), 4),
        HashDiscriminatorGen::from_instruction("claim", &instruction(200, "close"), 4)
    );
    assert_eq!(
        vec![226, 54, 42, 119],
        HashDiscriminatorGen::from_instruction("claim", &instruction(0, "close"), 4)
    );
}

#[test]
fn index_discriminator_is_the_id() {
    let ix = instruction(9, "create_config");
    assert_eq!(vec![9], IndexDiscriminatorGen::from_instruction("claim", &ix, 4));
    assert_eq!(vec![9], IndexDiscriminatorGen::from_instruction("other", &ix, 0));
    assert_eq!(vec![3], IndexDiscriminatorGen::from_account("claim", &account_kind(3, "config"), 4));
    assert_eq!(9, IndexDiscriminatorGen::instruction_seed("claim", &ix));
    assert_eq!(3, IndexDiscriminatorGen::account_seed("claim", &account_kind(3, "config")));
    assert_eq!(vec![7], IndexDiscriminatorGen::discriminator(7, 2));
    assert_eq!(
        TagSeed::Id(3),
        IndexDiscriminatorGen::account_token("claim", &account_kind(3, "config"))
    );
}
