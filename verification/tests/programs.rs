use sol_gen::config::{
    Account, AccountSeed, AccountSeedFunc, Config, DiscriminatorType, Ix, IxAccount, IxConfig,
    Message, Program, Type,
};
use sol_gen::emit::compile;

fn account(id: usize) -> IxAccount {
    IxAccount { id, create: false, mutable: false, signed: false, ty: None, seed: None }
}

fn kind(id: usize, fields: Vec<(&str, Type)>) -> Account {
    Account {
        id,
        payload: Message::Struct(fields.into_iter().map(|(n, t)| (n.to_string(), t)).collect()),
        seed: Some(AccountSeed {
            bump: true,
            func: AccountSeedFunc::from_str("[user] => 'seed' + user").unwrap(),
        }),
        discriminator: None,
    }
}

fn ix(id: usize, args: Vec<(&str, Type)>, accounts: Vec<(&str, IxAccount)>) -> Ix {
    Ix {
        id,
        args: args.into_iter().map(|(n, t)| (n.to_string(), t)).collect(),
        accounts: accounts.into_iter().map(|(n, a)| (n.to_string(), a)).collect(),
    }
}

fn program(name: &str, accounts: Vec<(&str, Account)>, ixs: Vec<(&str, Ix)>) -> Config {
    Config {
        program: Program { name: name.to_string(), version: (0, 1, 0) },
        ix_config: IxConfig { discriminator_size: 4, discriminator_type: DiscriminatorType::Hash },
        accounts: accounts.into_iter().map(|(n, a)| (n.to_string(), a)).collect(),
        message: vec![],
        ix: ixs.into_iter().map(|(n, i)| (n.to_string(), i)).collect(),
    }
}

fn signer(id: usize) -> IxAccount {
    IxAccount { signed: true, ..account(id) }
}

fn payer(id: usize) -> IxAccount {
    IxAccount { mutable: true, signed: true, ..account(id) }
}

fn read(id: usize, ty: &str) -> IxAccount {
    IxAccount { ty: Some(ty.to_string()), ..account(id) }
}

fn write(id: usize, ty: &str) -> IxAccount {
    IxAccount { mutable: true, ty: Some(ty.to_string()), ..account(id) }
}

fn create(id: usize, ty: &str) -> IxAccount {
    IxAccount { create: true, ty: Some(ty.to_string()), ..account(id) }
}

fn counter() -> Config {
    program(
        "counter",
        vec![("count", kind(0, vec![("authority", Type::PublicKey), ("value", Type::U8)]))],
        vec![
            ("close", ix(2, vec![], vec![("count", write(1, "count")), ("user", payer(0))])),
            ("increment", ix(1, vec![], vec![("count", write(1, "count")), ("user", payer(0))])),
            (
                "initalize",
                ix(
                    0,
                    vec![("amount", Type::U8)],
                    vec![("count", create(1, "count")), ("user", payer(0))],
                ),
            ),
        ],
    )
}

fn claim() -> Config {
    program(
        "claim",
        vec![
            (
                "claim",
                kind(
                    0,
                    vec![
                        ("amount_acquired", Type::U64),
                        ("claim_authority", Type::PublicKey),
                        ("manager_authority", Type::PublicKey),
                    ],
                ),
            ),
            (
                "claim_config",
                kind(
                    1,
                    vec![
                        ("manager_authority", Type::PublicKey),
                        ("min_amount_to_claim", Type::U64),
                        ("token_id", Type::PublicKey),
                    ],
                ),
            ),
        ],
        vec![
            (
                "claim",
                ix(
                    2,
                    vec![],
                    vec![
                        ("claim", write(2, "claim")),
                        (
                            "claim_authority",
                            IxAccount { mutable: true, ..account(0) },
                        ),
                        ("claim_config", read(1, "claim_config")),
                        ("manager_authority", account(3)),
                        ("user_authority", signer(4)),
                    ],
                ),
            ),
            (
                "create_claim",
                ix(
                    0,
                    vec![("amount", Type::U64), ("claim_authority", Type::PublicKey)],
                    vec![
                        ("claim", create(2, "claim")),
                        ("claim_config", read(1, "claim_config")),
                        ("manager_authority", payer(0)),
                    ],
                ),
            ),
            (
                "create_config",
                ix(
                    3,
                    vec![("config_bump", Type::U8), ("token_id", Type::PublicKey)],
                    vec![("claim_config", create(1, "claim_config")), ("manager_authority", payer(0))],
                ),
            ),
            (
                "update_claim",
                ix(
                    1,
                    vec![("amount_to_add", Type::U64)],
                    vec![
                        ("claim", write(2, "claim")),
                        ("claim_config", read(1, "claim_config")),
                        ("manager_authority", signer(0)),
                    ],
                ),
            ),
            (
                "update_config",
                ix(
                    4,
                    vec![("min_amount_to_claim", Type::U64)],
                    vec![("claim_config", write(1, "claim_config")), ("manager_authority", signer(0))],
                ),
            ),
        ],
    )
}

const COUNTER_SOURCE: &str = r##"use core::marker::PhantomData;
use borsh::{BorshDeserialize, BorshSerialize};
use sol_ez::{account::*, account_info::*, AccountData, AccountDataConfig, DataSize};
use pinocchio::{program_error::ProgramError, pubkey::Pubkey};
#[derive(BorshSerialize, BorshDeserialize, AccountDataConfig)]
#[account_data(hash(seed = "counter|account|count", size = 4usize))]
pub struct Count {
    pub authority: [u8; 32],
    pub value: u8,
    pub bump: u8,
}
pub struct InitalizeAccounts<'info> {
    pub user: AccountWritableSigned<'info, Empty>,
    pub count: Account<'info, PhantomData<AccountData<4usize, Count>>, Init, Unsigned>,
}
impl<'info> InitalizeAccounts<'info> {
    pub fn load(
        accounts: &'info [pinocchio::account_info::AccountInfo],
    ) -> Result<Self, ProgramError> {
        Ok(Self {
            user: AccountBuilder::new(
                    accounts.get(0usize).ok_or(ProgramError::NotEnoughAccountKeys)?,
                )
                .mutable()?
                .signed()?
                .build()?,
            count: Account::new_init(
                AccountInfo::new_init(
                    accounts.get(1usize).ok_or(ProgramError::NotEnoughAccountKeys)?,
                )?,
            ),
        })
    }
}
pub struct IncrementAccounts<'info> {
    pub user: AccountWritableSigned<'info, Empty>,
    pub count: AccountWritable<'info, AccountData<4usize, Count>>,
}
impl<'info> IncrementAccounts<'info> {
    pub fn load(
        accounts: &'info [pinocchio::account_info::AccountInfo],
    ) -> Result<Self, ProgramError> {
        Ok(Self {
            user: AccountBuilder::new(
                    accounts.get(0usize).ok_or(ProgramError::NotEnoughAccountKeys)?,
                )
                .mutable()?
                .signed()?
                .build()?,
            count: AccountBuilder::new(
                    accounts.get(1usize).ok_or(ProgramError::NotEnoughAccountKeys)?,
                )
                .set_payload()
                .mutable()?
                .build()?,
        })
    }
}
pub struct CloseAccounts<'info> {
    pub user: AccountWritableSigned<'info, Empty>,
    pub count: AccountWritable<'info, AccountData<4usize, Count>>,
}
impl<'info> CloseAccounts<'info> {
    pub fn load(
        accounts: &'info [pinocchio::account_info::AccountInfo],
    ) -> Result<Self, ProgramError> {
        Ok(Self {
            user: AccountBuilder::new(
                    accounts.get(0usize).ok_or(ProgramError::NotEnoughAccountKeys)?,
                )
                .mutable()?
                .signed()?
                .build()?,
            count: AccountBuilder::new(
                    accounts.get(1usize).ok_or(ProgramError::NotEnoughAccountKeys)?,
                )
                .set_payload()
                .mutable()?
                .build()?,
        })
    }
}
pub trait CounterContract {
    fn initalize(
        program_id: &Pubkey,
        accounts: InitalizeAccounts,
        amount: u8,
    ) -> Result<(), ProgramError>;
    fn increment(
        program_id: &Pubkey,
        accounts: IncrementAccounts,
    ) -> Result<(), ProgramError>;
    fn close(program_id: &Pubkey, accounts: CloseAccounts) -> Result<(), ProgramError>;
}
pub struct CounterDispatcher<T> {
    inner: PhantomData<T>,
}
pub const INITALIZE: [u8; 4usize] = [165u8, 109u8, 64u8, 236u8];
pub const INCREMENT: [u8; 4usize] = [139u8, 113u8, 235u8, 106u8];
pub const CLOSE: [u8; 4usize] = [9u8, 199u8, 35u8, 185u8];
impl<T> sol_ez::Contract for CounterDispatcher<T>
where
    T: CounterContract,
{
    fn dispatch<'info>(
        program_id: &Pubkey,
        accounts: &'info [pinocchio::account_info::AccountInfo],
        payload: &[u8],
    ) -> Result<(), ProgramError> {
        let ix_data = sol_ez::InstructionData::new(payload)?;
        match ix_data.ix {
            &INITALIZE => {
                let accounts = InitalizeAccounts::load(accounts)?;
                let amount = ix_data.deserialize_data()?;
                T::initalize(program_id, accounts, amount)
            }
            &INCREMENT => {
                let accounts = IncrementAccounts::load(accounts)?;
                T::increment(program_id, accounts)
            }
            &CLOSE => {
                let accounts = CloseAccounts::load(accounts)?;
                T::close(program_id, accounts)
            }
            _ => Err(ProgramError::InvalidInstructionData),
        }
    }
}
"##;

const CLAIM_SOURCE: &str = r##"use core::marker::PhantomData;
use borsh::{BorshDeserialize, BorshSerialize};
use sol_ez::{account::*, account_info::*, AccountData, AccountDataConfig, DataSize};
use pinocchio::{program_error::ProgramError, pubkey::Pubkey};
#[derive(BorshSerialize, BorshDeserialize, AccountDataConfig)]
#[account_data(hash(seed = "claim|account|claim", size = 4usize))]
pub struct Claim {
    pub amount_acquired: u64,
    pub claim_authority: [u8; 32],
    pub manager_authority: [u8; 32],
    pub bump: u8,
}
#[derive(BorshSerialize, BorshDeserialize, AccountDataConfig)]
#[account_data(hash(seed = "claim|account|claim_config", size = 4usize))]
pub struct ClaimConfig {
    pub manager_authority: [u8; 32],
    pub min_amount_to_claim: u64,
    pub token_id: [u8; 32],
    pub bump: u8,
}
pub struct CreateClaimAccounts<'info> {
    pub manager_authority: AccountWritableSigned<'info, Empty>,
    pub claim_config: AccountReadOnly<'info, AccountData<4usize, ClaimConfig>>,
    pub claim: Account<'info, PhantomData<AccountData<4usize, Claim>>, Init, Unsigned>,
}
impl<'info> CreateClaimAccounts<'info> {
    pub fn load(
        accounts: &'info [pinocchio::account_info::AccountInfo],
    ) -> Result<Self, ProgramError> {
        Ok(Self {
            manager_authority: AccountBuilder::new(
                    accounts.get(0usize).ok_or(ProgramError::NotEnoughAccountKeys)?,
                )
                .mutable()?
                .signed()?
                .build()?,
            claim_config: AccountBuilder::new(
                    accounts.get(1usize).ok_or(ProgramError::NotEnoughAccountKeys)?,
                )
                .set_payload()
                .build()?,
            claim: Account::new_init(
                AccountInfo::new_init(
                    accounts.get(2usize).ok_or(ProgramError::NotEnoughAccountKeys)?,
                )?,
            ),
        })
    }
}
pub struct UpdateClaimAccounts<'info> {
    pub manager_authority: AccountReadOnlySigned<'info, Empty>,
    pub claim_config: AccountReadOnly<'info, AccountData<4usize, ClaimConfig>>,
    pub claim: AccountWritable<'info, AccountData<4usize, Claim>>,
}
impl<'info> UpdateClaimAccounts<'info> {
    pub fn load(
        accounts: &'info [pinocchio::account_info::AccountInfo],
    ) -> Result<Self, ProgramError> {
        Ok(Self {
            manager_authority: AccountBuilder::new(
                    accounts.get(0usize).ok_or(ProgramError::NotEnoughAccountKeys)?,
                )
                .signed()?
                .build()?,
            claim_config: AccountBuilder::new(
                    accounts.get(1usize).ok_or(ProgramError::NotEnoughAccountKeys)?,
                )
                .set_payload()
                .build()?,
            claim: AccountBuilder::new(
                    accounts.get(2usize).ok_or(ProgramError::NotEnoughAccountKeys)?,
                )
                .set_payload()
                .mutable()?
                .build()?,
        })
    }
}
pub struct ClaimAccounts<'info> {
    pub claim_authority: AccountWritable<'info, Empty>,
    pub claim_config: AccountReadOnly<'info, AccountData<4usize, ClaimConfig>>,
    pub claim: AccountWritable<'info, AccountData<4usize, Claim>>,
    pub manager_authority: AccountReadOnly<'info, Empty>,
    pub user_authority: AccountReadOnlySigned<'info, Empty>,
}
impl<'info> ClaimAccounts<'info> {
    pub fn load(
        accounts: &'info [pinocchio::account_info::AccountInfo],
    ) -> Result<Self, ProgramError> {
        Ok(Self {
            claim_authority: AccountBuilder::new(
                    accounts.get(0usize).ok_or(ProgramError::NotEnoughAccountKeys)?,
                )
                .mutable()?
                .build()?,
            claim_config: AccountBuilder::new(
                    accounts.get(1usize).ok_or(ProgramError::NotEnoughAccountKeys)?,
                )
                .set_payload()
                .build()?,
            claim: AccountBuilder::new(
                    accounts.get(2usize).ok_or(ProgramError::NotEnoughAccountKeys)?,
                )
                .set_payload()
                .mutable()?
                .build()?,
            manager_authority: AccountBuilder::new(
                    accounts.get(3usize).ok_or(ProgramError::NotEnoughAccountKeys)?,
                )
                .build()?,
            user_authority: AccountBuilder::new(
                    accounts.get(4usize).ok_or(ProgramError::NotEnoughAccountKeys)?,
                )
                .signed()?
                .build()?,
        })
    }
}
pub struct CreateConfigAccounts<'info> {
    pub manager_authority: AccountWritableSigned<'info, Empty>,
    pub claim_config: Account<
        'info,
        PhantomData<AccountData<4usize, ClaimConfig>>,
        Init,
        Unsigned,
    >,
}
impl<'info> CreateConfigAccounts<'info> {
    pub fn load(
        accounts: &'info [pinocchio::account_info::AccountInfo],
    ) -> Result<Self, ProgramError> {
        Ok(Self {
            manager_authority: AccountBuilder::new(
                    accounts.get(0usize).ok_or(ProgramError::NotEnoughAccountKeys)?,
                )
                .mutable()?
                .signed()?
                .build()?,
            claim_config: Account::new_init(
                AccountInfo::new_init(
                    accounts.get(1usize).ok_or(ProgramError::NotEnoughAccountKeys)?,
                )?,
            ),
        })
    }
}
pub struct UpdateConfigAccounts<'info> {
    pub manager_authority: AccountReadOnlySigned<'info, Empty>,
    pub claim_config: AccountWritable<'info, AccountData<4usize, ClaimConfig>>,
}
impl<'info> UpdateConfigAccounts<'info> {
    pub fn load(
        accounts: &'info [pinocchio::account_info::AccountInfo],
    ) -> Result<Self, ProgramError> {
        Ok(Self {
            manager_authority: AccountBuilder::new(
                    accounts.get(0usize).ok_or(ProgramError::NotEnoughAccountKeys)?,
                )
                .signed()?
                .build()?,
            claim_config: AccountBuilder::new(
                    accounts.get(1usize).ok_or(ProgramError::NotEnoughAccountKeys)?,
                )
                .set_payload()
                .mutable()?
                .build()?,
        })
    }
}
pub trait ClaimContract {
    fn create_claim(
        program_id: &Pubkey,
        accounts: CreateClaimAccounts,
        amount: u64,
        claim_authority: [u8; 32],
    ) -> Result<(), ProgramError>;
    fn update_claim(
        program_id: &Pubkey,
        accounts: UpdateClaimAccounts,
        amount_to_add: u64,
    ) -> Result<(), ProgramError>;
    fn claim(program_id: &Pubkey, accounts: ClaimAccounts) -> Result<(), ProgramError>;
    fn create_config(
        program_id: &Pubkey,
        accounts: CreateConfigAccounts,
        config_bump: u8,
        token_id: [u8; 32],
    ) -> Result<(), ProgramError>;
    fn update_config(
        program_id: &Pubkey,
        accounts: UpdateConfigAccounts,
        min_amount_to_claim: u64,
    ) -> Result<(), ProgramError>;
}
pub struct ClaimDispatcher<T> {
    inner: PhantomData<T>,
}
pub const CREATE_CLAIM: [u8; 4usize] = [109u8, 226u8, 7u8, 61u8];
pub const UPDATE_CLAIM: [u8; 4usize] = [3u8, 255u8, 115u8, 253u8];
pub const CLAIM: [u8; 4usize] = [29u8, 37u8, 118u8, 180u8];
pub const CREATE_CONFIG: [u8; 4usize] = [78u8, 77u8, 163u8, 125u8];
pub const UPDATE_CONFIG: [u8; 4usize] = [88u8, 6u8, 10u8, 242u8];
impl<T> sol_ez::Contract for ClaimDispatcher<T>
where
    T: ClaimContract,
{
    fn dispatch<'info>(
        program_id: &Pubkey,
        accounts: &'info [pinocchio::account_info::AccountInfo],
        payload: &[u8],
    ) -> Result<(), ProgramError> {
        let ix_data = sol_ez::InstructionData::new(payload)?;
        match ix_data.ix {
            &CREATE_CLAIM => {
                let accounts = CreateClaimAccounts::load(accounts)?;
                let (amount, claim_authority) = ix_data.deserialize_data()?;
                T::create_claim(program_id, accounts, amount, claim_authority)
            }
            &UPDATE_CLAIM => {
                let accounts = UpdateClaimAccounts::load(accounts)?;
                let amount_to_add = ix_data.deserialize_data()?;
                T::update_claim(program_id, accounts, amount_to_add)
            }
            &CLAIM => {
                let accounts = ClaimAccounts::load(accounts)?;
                T::claim(program_id, accounts)
            }
            &CREATE_CONFIG => {
                let accounts = CreateConfigAccounts::load(accounts)?;
                let (config_bump, token_id) = ix_data.deserialize_data()?;
                T::create_config(program_id, accounts, config_bump, token_id)
            }
            &UPDATE_CONFIG => {
                let accounts = UpdateConfigAccounts::load(accounts)?;
                let min_amount_to_claim = ix_data.deserialize_data()?;
                T::update_config(program_id, accounts, min_amount_to_claim)
            }
            _ => Err(ProgramError::InvalidInstructionData),
        }
    }
}
"##;

#[test]
fn counter_program_compiles_to_its_source() {
    assert_eq!(Ok(COUNTER_SOURCE.to_string()), compile(counter()));
}

#[test]
fn claim_program_compiles_to_its_source() {
    assert_eq!(Ok(CLAIM_SOURCE.to_string()), compile(claim()));
}
