use ree_metadata::account::{AccountInfo, Action, AuthorityType, PendingStore, Step};
use ree_metadata::error::{ProgramError, ReeMetaError};
use ree_metadata::instruction::{
    AddRoyaltyArgs, CreateMetadataArgs, MetadataArgs, MetadataArgsRRA, NftTransactionArgs,
    ReeMetadataInstruction,
};
use ree_metadata::processor::{
    check_create_accounts, create_metadata, process_add_royalty, process_create_metadata,
    process_lock_nft, process_mint_nft, process_nft_transaction, Processor,
};
use ree_metadata::pubkey::{rent_sysvar_id, system_program_id, token_program_id, Pubkey};
use ree_metadata::state::{
    ArtNft, CustomNft, Kind, Metadata, Royalty, UpdateType, LAYOUT_VERSION,
};
use ree_metadata::token::{AccountState, Mint, TokenAccount};
use ree_metadata::utils::{assert_initialized, assert_owned_by, assert_valid_mint_authority};
use ree_metadata::{check_program_account, id};
use solana_program::program_option::COption;
use solana_program::program_pack::Pack;
use std::str::FromStr;

fn key(n: u8) -> Pubkey {
    Pubkey { bytes: [n; 32] }
}

fn outside(key: &Pubkey) -> solana_program::pubkey::Pubkey {
    solana_program::pubkey::Pubkey::new_from_array(key.bytes)
}

fn account(n: u8) -> AccountInfo {
    AccountInfo {
        key: key(n),
        owner: key(200),
        lamports: 0,
        is_signer: false,
        is_writable: true,
        data: Vec::new(),
    }
}

fn signer(n: u8) -> AccountInfo {
    AccountInfo { is_signer: true, ..account(n) }
}

fn program(id: Pubkey) -> AccountInfo {
    AccountInfo { key: id, is_writable: false, ..account(0) }
}

fn custom(code: ReeMetaError) -> ProgramError {
    ProgramError::Custom(code.code())
}

fn holder(n: u8, share: u16) -> Royalty {
    Royalty { address: key(n), share, verified: true }
}

fn record(royalties: Vec<Royalty>) -> Metadata<ArtNft> {
    Metadata {
        version: LAYOUT_VERSION,
        kind: Kind::RoyaltyArt,
        mint: key(2),
        is_modifiable: true,
        update_type: UpdateType::WalletSigner,
        collection: None,
        update_authority: Some(key(3)),
        data: ArtNft {
            name: "Sunset".to_string(),
            symbol: "SUN".to_string(),
            uri: "https://example.org/sunset.json".to_string(),
            resale_fee: 10,
            initial_sale: true,
            collection: None,
            royalties,
        },
    }
}

fn opaque(data: Vec<u8>) -> Metadata<CustomNft> {
    Metadata {
        version: LAYOUT_VERSION,
        kind: Kind::Uninitialized,
        mint: key(2),
        is_modifiable: true,
        update_type: UpdateType::WalletSigner,
        collection: None,
        update_authority: Some(key(3)),
        data: CustomNft { data },
    }
}

/// The account of a record, owned by the program `key(100)`.
fn home(data: Vec<u8>) -> AccountInfo {
    AccountInfo { owner: key(100), lamports: 500, data, ..account(1) }
}

// Identities.

#[test]
fn identities_of_the_programs_of_the_ledger() {
    assert_eq!(system_program_id().bytes, solana_program::system_program::ID.to_bytes());
    assert_eq!(rent_sysvar_id().bytes, solana_program::sysvar::rent::ID.to_bytes());
    assert_eq!(token_program_id().bytes, spl_token::ID.to_bytes());
}

#[test]
fn identity_of_this_program() {
    let expected =
        solana_program::pubkey::Pubkey::from_str("Epf86va8B3wDCJ2t47nV6EVT9fVipnnTbLihtLZiL7am")
            .unwrap();
    assert_eq!(id().bytes, expected.to_bytes());
    assert_eq!(check_program_account(&id()), Ok(()));
    assert_eq!(check_program_account(&key(1)), Err(ProgramError::IncorrectProgramId));
    assert_eq!(check_program_account(&system_program_id()), Err(ProgramError::IncorrectProgramId));
}

#[test]
fn identities_are_compared_byte_by_byte() {
    let mut other = key(5);
    assert_eq!(key(5), other);
    other.bytes[31] = 6;
    assert_ne!(key(5), other);
    other.bytes[31] = 5;
    other.bytes[0] = 4;
    assert_ne!(key(5), other);
    assert_eq!(Pubkey::new_from_array([7; 32]).to_bytes(), [7; 32]);
}

// Failures.

#[test]
fn failures_have_codes_in_their_order() {
    let all = [
        ReeMetaError::InvalidInstruction,
        ReeMetaError::Uninitialized,
        ReeMetaError::InvalidMintAuthority,
        ReeMetaError::IncorrectOwner,
        ReeMetaError::InvalidNFTKind,
        ReeMetaError::NoUpdateAuthority,
        ReeMetaError::InvalidUpdateAuthority,
        ReeMetaError::AlreadyLocked,
        ReeMetaError::NoRoyalties,
        ReeMetaError::InsufficientShare,
        ReeMetaError::RoyaltyAddressInvalid,
    ];
    for (code, error) in all.iter().enumerate() {
        assert_eq!(error.code(), code as u32);
        assert_eq!(ReeMetaError::from_code(code as u32), Some(*error));
        assert_eq!(ProgramError::from(*error), ProgramError::Custom(code as u32));
    }
    assert_eq!(ReeMetaError::from_code(11), None);
    assert_eq!(ReeMetaError::from_code(u32::MAX), None);
}

#[test]
fn failures_have_messages() {
    assert_eq!(ReeMetaError::InvalidInstruction.message(), "Invalid Instruction");
    assert_eq!(ReeMetaError::Uninitialized.message(), "Uninitialized");
    assert_eq!(ReeMetaError::InvalidMintAuthority.message(), "invalid Mint authority");
    assert_eq!(ReeMetaError::IncorrectOwner.message(), "Invalid ownership");
    assert_eq!(ReeMetaError::InvalidNFTKind.message(), "Invalid Kind");
    assert_eq!(ReeMetaError::NoUpdateAuthority.message(), "No Update Authority");
    assert_eq!(ReeMetaError::InvalidUpdateAuthority.message(), "invalid update authority");
    assert_eq!(ReeMetaError::AlreadyLocked.message(), "Already Locked");
    assert_eq!(ReeMetaError::NoRoyalties.message(), "No Royalty System");
    assert_eq!(ReeMetaError::InsufficientShare.message(), "Insufficient Share");
    assert_eq!(ReeMetaError::RoyaltyAddressInvalid.message(), "Royalty Address Invalid");
    assert_eq!(ReeMetaError::type_of(), "Metadata Error");
}

// Mints and token accounts.

fn packed_mint(authority: COption<solana_program::pubkey::Pubkey>, initialized: bool) -> Vec<u8> {
    let mint = spl_token::state::Mint {
        mint_authority: authority,
        supply: 77,
        decimals: 0,
        is_initialized: initialized,
        freeze_authority: COption::Some(outside(&key(50))),
    };
    let mut data = vec![0u8; spl_token::state::Mint::LEN];
    spl_token::state::Mint::pack(mint, &mut data).unwrap();
    data
}

fn packed_token_account(mint: &Pubkey, state: spl_token::state::AccountState) -> Vec<u8> {
    let account = spl_token::state::Account {
        mint: outside(mint),
        owner: outside(&key(60)),
        amount: 5,
        delegate: COption::Some(outside(&key(61))),
        state,
        is_native: COption::Some(9),
        delegated_amount: 2,
        close_authority: COption::None,
    };
    let mut data = vec![0u8; spl_token::state::Account::LEN];
    spl_token::state::Account::pack(account, &mut data).unwrap();
    data
}

fn mint_account(authority: Option<u8>, initialized: bool) -> AccountInfo {
    let authority = match authority {
        Some(n) => COption::Some(outside(&key(n))),
        None => COption::None,
    };
    AccountInfo { owner: token_program_id(), data: packed_mint(authority, initialized), ..account(20) }
}

fn token_account(mint: &Pubkey, state: spl_token::state::AccountState) -> AccountInfo {
    AccountInfo { owner: token_program_id(), data: packed_token_account(mint, state), ..account(22) }
}

#[test]
fn mint_is_read_from_its_account() {
    assert_eq!(
        assert_initialized::<Mint>(&mint_account(Some(21), true)),
        Ok(Mint { mint_authority: Some(key(21)), is_initialized: true })
    );
    assert_eq!(
        assert_initialized::<Mint>(&mint_account(None, true)),
        Ok(Mint { mint_authority: None, is_initialized: true })
    );
}

#[test]
fn a_mint_that_is_not_initialized_is_refused() {
    assert_eq!(
        assert_initialized::<Mint>(&mint_account(Some(21), false)),
        Err(custom(ReeMetaError::Uninitialized))
    );
    assert_eq!(
        assert_initialized::<Mint>(&AccountInfo { data: vec![0; 82], ..account(20) }),
        Err(custom(ReeMetaError::Uninitialized))
    );
}

#[test]
fn what_is_no_mint_is_refused() {
    let good = mint_account(Some(21), true);
    for len in [0usize, 81, 83, 165] {
        let mut data = good.data.clone();
        data.resize(len, 0);
        assert_eq!(
            assert_initialized::<Mint>(&AccountInfo { data, ..account(20) }),
            Err(ProgramError::InvalidAccountData)
        );
    }
    for (at, value) in [(0usize, 2u8), (1, 1), (3, 1), (45, 2), (46, 2), (49, 1)] {
        let mut data = good.data.clone();
        data[at] = value;
        assert_eq!(
            assert_initialized::<Mint>(&AccountInfo { data, ..account(20) }),
            Err(ProgramError::InvalidAccountData),
            "byte {}",
            at
        );
    }
}

#[test]
fn token_account_is_read_from_its_account() {
    assert_eq!(
        assert_initialized::<TokenAccount>(&token_account(
            &key(20),
            spl_token::state::AccountState::Initialized
        )),
        Ok(TokenAccount { mint: key(20), state: AccountState::Initialized })
    );
    assert_eq!(
        assert_initialized::<TokenAccount>(&token_account(
            &key(20),
            spl_token::state::AccountState::Frozen
        )),
        Ok(TokenAccount { mint: key(20), state: AccountState::Frozen })
    );
    assert_eq!(
        assert_initialized::<TokenAccount>(&token_account(
            &key(20),
            spl_token::state::AccountState::Uninitialized
        )),
        Err(custom(ReeMetaError::Uninitialized))
    );
}

#[test]
fn what_is_no_token_account_is_refused() {
    let good = token_account(&key(20), spl_token::state::AccountState::Initialized);
    for len in [0usize, 82, 164, 166] {
        let mut data = good.data.clone();
        data.resize(len, 0);
        assert_eq!(
            assert_initialized::<TokenAccount>(&AccountInfo { data, ..account(22) }),
            Err(ProgramError::InvalidAccountData)
        );
    }
    for (at, value) in [(72usize, 2u8), (73, 1), (108, 3), (109, 2), (112, 1), (129, 2), (130, 1)] {
        let mut data = good.data.clone();
        data[at] = value;
        assert_eq!(
            assert_initialized::<TokenAccount>(&AccountInfo { data, ..account(22) }),
            Err(ProgramError::InvalidAccountData),
            "byte {}",
            at
        );
    }
}

/// The tag of an optional field of the token program at `at`.
fn tag_at(data: &[u8], at: usize) -> Option<bool> {
    match data[at..at + 4] {
        [0, 0, 0, 0] => Some(false),
        [1, 0, 0, 0] => Some(true),
        _ => None,
    }
}

fn key_at(data: &[u8], at: usize) -> Pubkey {
    let mut bytes = [0u8; 32];
    bytes.copy_from_slice(&data[at..at + 32]);
    Pubkey { bytes }
}

fn expected_mint(data: &[u8]) -> Result<Mint, ProgramError> {
    if data.len() != 82 || tag_at(data, 0).is_none() || data[45] > 1 || tag_at(data, 46).is_none()
    {
        return Err(ProgramError::InvalidAccountData);
    }
    if data[45] == 0 {
        return Err(custom(ReeMetaError::Uninitialized));
    }
    let mint_authority =
        if tag_at(data, 0) == Some(true) { Some(key_at(data, 4)) } else { None };
    Ok(Mint { mint_authority, is_initialized: true })
}

fn expected_token_account(data: &[u8]) -> Result<TokenAccount, ProgramError> {
    if data.len() != 165
        || tag_at(data, 72).is_none()
        || data[108] > 2
        || tag_at(data, 109).is_none()
        || tag_at(data, 129).is_none()
    {
        return Err(ProgramError::InvalidAccountData);
    }
    let state = match data[108] {
        0 => return Err(custom(ReeMetaError::Uninitialized)),
        1 => AccountState::Initialized,
        _ => AccountState::Frozen,
    };
    Ok(TokenAccount { mint: key_at(data, 0), state })
}

#[test]
fn a_mint_is_read_by_its_layout_whatever_byte_is_changed() {
    for authority in [Some(21u8), None] {
        for initialized in [true, false] {
            let good = mint_account(authority, initialized).data;
            assert_eq!(good.len(), 82);
            for at in 0..good.len() {
                for value in [0u8, 1, 2, 3, 128, 255] {
                    let mut data = good.clone();
                    data[at] = value;
                    assert_eq!(
                        assert_initialized::<Mint>(&AccountInfo { data: data.clone(), ..account(20) }),
                        expected_mint(&data),
                        "byte {} set to {}",
                        at,
                        value
                    );
                }
            }
        }
    }
}

#[test]
fn a_token_account_is_read_by_its_layout_whatever_byte_is_changed() {
    for state in [
        spl_token::state::AccountState::Uninitialized,
        spl_token::state::AccountState::Initialized,
        spl_token::state::AccountState::Frozen,
    ] {
        let good = token_account(&key(20), state).data;
        assert_eq!(good.len(), 165);
        for at in 0..good.len() {
            for value in [0u8, 1, 2, 3, 128, 255] {
                let mut data = good.clone();
                data[at] = value;
                assert_eq!(
                    assert_initialized::<TokenAccount>(&AccountInfo {
                        data: data.clone(),
                        ..account(22)
                    }),
                    expected_token_account(&data),
                    "byte {} set to {}",
                    at,
                    value
                );
            }
        }
    }
}

#[test]
fn mint_authority_must_be_the_account_given() {
    assert_eq!(assert_valid_mint_authority(&Some(key(21)), &account(21)), Ok(()));
    assert_eq!(
        assert_valid_mint_authority(&Some(key(21)), &account(23)),
        Err(custom(ReeMetaError::InvalidMintAuthority))
    );
    assert_eq!(
        assert_valid_mint_authority(&None, &account(21)),
        Err(custom(ReeMetaError::InvalidMintAuthority))
    );
}

#[test]
fn owner_must_be_the_program_given() {
    assert_eq!(assert_owned_by(&account(1), &key(200)), Ok(()));
    assert_eq!(assert_owned_by(&account(1), &key(201)), Err(custom(ReeMetaError::IncorrectOwner)));
}

// Minting.

fn minting() -> Vec<AccountInfo> {
    vec![
        mint_account(Some(21), true),
        signer(21),
        token_account(&key(20), spl_token::state::AccountState::Initialized),
        program(token_program_id()),
    ]
}

#[test]
fn minting_mints_one_token_and_closes_the_mint() {
    assert_eq!(
        process_mint_nft(&key(100), &minting()),
        Ok(vec![
            Action::MintTo {
                token_program: token_program_id(),
                mint: key(20),
                recipient: key(22),
                authority: key(21),
                amount: 1,
            },
            Action::SetAuthority {
                token_program: token_program_id(),
                mint: key(20),
                new_authority: None,
                authority_type: AuthorityType::MintTokens,
                current: key(21),
            },
        ])
    );
}

#[test]
fn minting_is_refused_for_each_reason_in_turn() {
    let good = minting();
    assert_eq!(process_mint_nft(&key(100), &good[..3]), Err(ProgramError::NotEnoughAccountKeys));

    let mut accounts = good.clone();
    accounts[0].data.pop();
    assert_eq!(process_mint_nft(&key(100), &accounts), Err(ProgramError::InvalidAccountData));

    let mut accounts = good.clone();
    accounts[0] = mint_account(Some(21), false);
    assert_eq!(process_mint_nft(&key(100), &accounts), Err(custom(ReeMetaError::Uninitialized)));

    let mut accounts = good.clone();
    accounts[2].data.push(0);
    assert_eq!(process_mint_nft(&key(100), &accounts), Err(ProgramError::InvalidAccountData));

    let mut accounts = good.clone();
    accounts[2] = token_account(&key(20), spl_token::state::AccountState::Uninitialized);
    assert_eq!(process_mint_nft(&key(100), &accounts), Err(custom(ReeMetaError::Uninitialized)));

    let mut accounts = good.clone();
    accounts[1] = signer(29);
    assert_eq!(
        process_mint_nft(&key(100), &accounts),
        Err(custom(ReeMetaError::InvalidMintAuthority))
    );

    let mut accounts = good.clone();
    accounts[0] = mint_account(None, true);
    assert_eq!(
        process_mint_nft(&key(100), &accounts),
        Err(custom(ReeMetaError::InvalidMintAuthority))
    );

    let mut accounts = good.clone();
    accounts[0].owner = key(100);
    assert_eq!(process_mint_nft(&key(100), &accounts), Err(custom(ReeMetaError::IncorrectOwner)));

    let mut accounts = good.clone();
    accounts[2].owner = key(100);
    assert_eq!(process_mint_nft(&key(100), &accounts), Err(custom(ReeMetaError::IncorrectOwner)));

    let mut accounts = good.clone();
    accounts[2] = token_account(&key(99), spl_token::state::AccountState::Initialized);
    assert_eq!(
        process_mint_nft(&key(100), &accounts),
        Err(custom(ReeMetaError::InvalidInstruction))
    );

    let mut accounts = good.clone();
    accounts[3] = program(system_program_id());
    assert_eq!(process_mint_nft(&key(100), &accounts), Err(ProgramError::IncorrectProgramId));
}

// Locking through the processor.

#[test]
fn lock_is_dispatched_by_the_first_byte() {
    let metadata = record(vec![holder(4, 100)]);
    let mut locked = metadata.clone();
    locked.is_modifiable = false;
    let accounts = vec![home(metadata.to_bytes().unwrap()), signer(10), signer(3)];
    assert_eq!(
        process_lock_nft(&key(100), &accounts),
        Ok(vec![Action::Write { account: key(1), data: locked.to_bytes().unwrap() }])
    );

    let metadata = opaque(vec![1, 2, 3]);
    let mut locked = metadata.clone();
    locked.is_modifiable = false;
    let accounts = vec![home(metadata.to_bytes().unwrap()), signer(10), signer(3)];
    assert_eq!(
        process_lock_nft(&key(100), &accounts),
        Ok(vec![Action::Write { account: key(1), data: locked.to_bytes().unwrap() }])
    );
}

#[test]
fn lock_through_the_processor_is_refused() {
    let metadata = record(vec![holder(4, 100)]);
    let accounts = vec![home(metadata.to_bytes().unwrap()), signer(10), signer(3)];
    assert_eq!(process_lock_nft(&key(100), &accounts[..2]), Err(ProgramError::NotEnoughAccountKeys));
    assert_eq!(process_lock_nft(&key(101), &accounts), Err(custom(ReeMetaError::IncorrectOwner)));
    let mut cut = accounts.clone();
    cut[0].data.truncate(50);
    assert_eq!(process_lock_nft(&key(100), &cut), Err(ProgramError::BorshIoError));
    let mut empty = accounts.clone();
    empty[0].data.clear();
    assert_eq!(process_lock_nft(&key(100), &empty), Err(ProgramError::BorshIoError));
    let mut unsigned = accounts.clone();
    unsigned[2] = account(3);
    assert_eq!(
        process_lock_nft(&key(100), &unsigned),
        Err(custom(ReeMetaError::InvalidUpdateAuthority))
    );
}

#[test]
fn lock_twice_through_the_processor() {
    let metadata = record(vec![holder(4, 100)]);
    let mut accounts = vec![home(metadata.to_bytes().unwrap()), signer(10), signer(3)];
    let actions = process_lock_nft(&key(100), &accounts).unwrap();
    match &actions[0] {
        Action::Write { account, data } => {
            assert_eq!(*account, accounts[0].key);
            accounts[0].data[..data.len()].copy_from_slice(data);
        }
        other => panic!("not a write: {:?}", other),
    }
    let stored = accounts[0].data.clone();
    assert_eq!(process_lock_nft(&key(100), &accounts), Err(custom(ReeMetaError::AlreadyLocked)));
    assert_eq!(accounts[0].data, stored);
}

// Entering a holder through the processor.

fn entering(data: Vec<u8>) -> Vec<AccountInfo> {
    vec![
        home(data),
        signer(10),
        signer(3),
        account(5),
        program(system_program_id()),
        program(rent_sysvar_id()),
    ]
}

#[test]
fn holder_is_entered_through_the_processor() {
    let metadata = record(vec![holder(4, 100)]);
    let mut grown = metadata.clone();
    grown.data.royalties = vec![holder(4, 70), holder(5, 30)];
    let data = grown.to_bytes().unwrap();
    assert_eq!(
        process_add_royalty(
            &key(100),
            &entering(metadata.to_bytes().unwrap()),
            AddRoyaltyArgs { share: 30 }
        ),
        Ok(PendingStore {
            account: key(1),
            payer: key(10),
            balance: 500,
            resize: vec![Action::Realloc { account: key(1), len: data.len() }],
            data,
        })
    );
}

#[test]
fn only_a_royalty_bearing_record_takes_holders() {
    let accounts = entering(opaque(vec![1, 2, 3]).to_bytes().unwrap());
    assert_eq!(
        process_add_royalty(&key(100), &accounts, AddRoyaltyArgs { share: 30 }),
        Err(custom(ReeMetaError::InvalidNFTKind))
    );
    let accounts = entering(vec![]);
    assert_eq!(
        process_add_royalty(&key(100), &accounts, AddRoyaltyArgs { share: 30 }),
        Err(custom(ReeMetaError::InvalidNFTKind))
    );
}

#[test]
fn entering_through_the_processor_is_refused() {
    let metadata = record(vec![holder(4, 100)]);
    let accounts = entering(metadata.to_bytes().unwrap());
    assert_eq!(
        process_add_royalty(&key(100), &[], AddRoyaltyArgs { share: 30 }),
        Err(ProgramError::NotEnoughAccountKeys)
    );
    assert_eq!(
        process_add_royalty(&key(101), &accounts, AddRoyaltyArgs { share: 30 }),
        Err(custom(ReeMetaError::IncorrectOwner))
    );
    assert_eq!(
        process_add_royalty(&key(100), &accounts[..1], AddRoyaltyArgs { share: 30 }),
        Err(ProgramError::NotEnoughAccountKeys)
    );
    assert_eq!(
        process_add_royalty(&key(100), &accounts, AddRoyaltyArgs { share: 101 }),
        Err(custom(ReeMetaError::InsufficientShare))
    );
    let mut cut = accounts.clone();
    cut[0].data.truncate(80);
    assert_eq!(
        process_add_royalty(&key(100), &cut, AddRoyaltyArgs { share: 30 }),
        Err(ProgramError::BorshIoError)
    );
}

// Paying through the processor.

fn paying(data: Vec<u8>, holders: &[u8]) -> Vec<AccountInfo> {
    let mut accounts = vec![home(data), signer(10), account(11), program(system_program_id())];
    for n in holders {
        accounts.push(account(*n));
    }
    accounts
}

#[test]
fn payment_is_split_through_the_processor() {
    let metadata = record(vec![holder(4, 60), holder(5, 40)]);
    assert_eq!(
        process_nft_transaction(
            &key(100),
            &paying(metadata.to_bytes().unwrap(), &[4, 5]),
            NftTransactionArgs { amount: 1000 }
        ),
        Some(Ok(vec![
            Action::Transfer { from: key(10), to: key(4), lamports: 60 },
            Action::Transfer { from: key(10), to: key(5), lamports: 40 },
            Action::Transfer { from: key(10), to: key(11), lamports: 900 },
        ]))
    );
}

#[test]
fn payment_for_a_record_without_royalties_goes_to_the_seller() {
    let accounts = paying(opaque(vec![1, 2, 3]).to_bytes().unwrap(), &[]);
    assert_eq!(
        process_nft_transaction(&key(100), &accounts, NftTransactionArgs { amount: 1000 }),
        Some(Ok(vec![Action::Transfer { from: key(10), to: key(11), lamports: 1000 }]))
    );
    // Any first byte but the tag of the royalty-bearing kind will do.
    for data in [vec![], vec![0], vec![2, 9, 9], vec![255]] {
        assert_eq!(
            process_nft_transaction(&key(100), &paying(data, &[]), NftTransactionArgs { amount: 7 }),
            Some(Ok(vec![Action::Transfer { from: key(10), to: key(11), lamports: 7 }]))
        );
    }
    assert_eq!(
        process_nft_transaction(&key(100), &accounts[..3], NftTransactionArgs { amount: 1000 }),
        Some(Err(ProgramError::NotEnoughAccountKeys))
    );
    let mut wrong = accounts.clone();
    wrong[3] = program(rent_sysvar_id());
    assert_eq!(
        process_nft_transaction(&key(100), &wrong, NftTransactionArgs { amount: 1000 }),
        Some(Err(custom(ReeMetaError::InvalidInstruction)))
    );
}

#[test]
fn payment_through_the_processor_is_refused() {
    let metadata = record(vec![holder(4, 100)]);
    let accounts = paying(metadata.to_bytes().unwrap(), &[4]);
    assert_eq!(
        process_nft_transaction(&key(100), &[], NftTransactionArgs { amount: 1 }),
        Some(Err(ProgramError::NotEnoughAccountKeys))
    );
    assert_eq!(
        process_nft_transaction(&key(101), &accounts, NftTransactionArgs { amount: 1 }),
        Some(Err(custom(ReeMetaError::IncorrectOwner)))
    );
    let mut cut = accounts.clone();
    cut[0].data.truncate(40);
    assert_eq!(
        process_nft_transaction(&key(100), &cut, NftTransactionArgs { amount: 1 }),
        Some(Err(ProgramError::BorshIoError))
    );
    assert_eq!(
        process_nft_transaction(&key(100), &accounts[..4], NftTransactionArgs { amount: 1 }),
        Some(Err(ProgramError::NotEnoughAccountKeys))
    );
}

#[test]
fn a_record_that_cannot_split_a_payment_is_not_paid_for() {
    let mut metadata = record(vec![holder(4, 100)]);
    metadata.data.resale_fee = 101;
    assert_eq!(
        process_nft_transaction(
            &key(100),
            &paying(metadata.to_bytes().unwrap(), &[4]),
            NftTransactionArgs { amount: 1000 }
        ),
        None
    );
    let metadata = record(vec![holder(4, 100), holder(5, 1)]);
    assert_eq!(
        process_nft_transaction(
            &key(100),
            &paying(metadata.to_bytes().unwrap(), &[4, 5]),
            NftTransactionArgs { amount: 1000 }
        ),
        None
    );
}

// Creating.

fn derived(program_id: &Pubkey, mint: &Pubkey) -> (Pubkey, u8) {
    let (address, bump) = solana_program::pubkey::Pubkey::find_program_address(
        &[b"ree-metadata", &program_id.bytes, &mint.bytes],
        &outside(program_id),
    );
    (Pubkey { bytes: address.to_bytes() }, bump)
}

fn args(update_type: UpdateType, in_collection: bool) -> CreateMetadataArgs {
    CreateMetadataArgs {
        metadata: MetadataArgs {
            kind: Kind::RoyaltyArt,
            is_modifiable: true,
            update_type,
            in_collection,
        },
        aar_data: MetadataArgsRRA {
            name: "Sunset".to_string(),
            symbol: "SUN".to_string(),
            uri: "https://example.org/sunset.json".to_string(),
            resale_fee: 10,
        },
    }
}

/// The accounts of a creation by the program `key(100)` for the mint `key(20)`.
fn creating(update_authority: bool, collection: bool) -> Vec<AccountInfo> {
    let (address, _) = derived(&key(100), &key(20));
    let mut accounts = vec![
        AccountInfo { key: address, lamports: 10, ..account(0) },
        AccountInfo { owner: token_program_id(), ..account(20) },
        account(4),
        signer(21),
        account(23),
        signer(10),
    ];
    if update_authority {
        accounts.push(account(3));
    }
    accounts.push(program(system_program_id()));
    accounts.push(program(rent_sysvar_id()));
    accounts.push(program(token_program_id()));
    if collection {
        accounts.push(account(30));
    }
    accounts
}

fn created(update_authority: Option<Pubkey>, collection: Option<Pubkey>) -> Metadata<ArtNft> {
    Metadata {
        version: LAYOUT_VERSION,
        kind: Kind::RoyaltyArt,
        mint: key(20),
        is_modifiable: true,
        update_type: if update_authority.is_some() {
            UpdateType::WalletSigner
        } else {
            UpdateType::Nobody
        },
        collection,
        update_authority,
        data: ArtNft {
            name: "Sunset".to_string(),
            symbol: "SUN".to_string(),
            uri: "https://example.org/sunset.json".to_string(),
            resale_fee: 10,
            initial_sale: false,
            collection: None,
            royalties: vec![holder(4, 100)],
        },
    }
}

#[test]
fn address_of_a_record_is_derived_from_prefix_program_and_mint() {
    let create = args(UpdateType::WalletSigner, false);
    for (program, mint) in [(100u8, 20u8), (101, 20), (100, 21), (0, 0), (255, 255)] {
        let (address, bump) = derived(&key(program), &key(mint));
        assert_ne!(address, key(program));
        assert_ne!(address, key(mint));
        let mut accounts = creating(true, false);
        accounts[0].key = address;
        accounts[1].key = key(mint);
        let pending = process_create_metadata(
            &key(program),
            &accounts,
            create.metadata,
            create.aar_data.clone(),
        )
        .unwrap()
        .unwrap();
        assert_eq!(pending.account, address);
        assert_eq!(
            pending.resize[1],
            Action::Assign { account: address, owner: key(program), mint: key(mint), bump }
        );
    }
}

#[test]
fn record_is_created_with_the_full_share_for_the_first_holder() {
    let (address, bump) = derived(&key(100), &key(20));
    let args = args(UpdateType::WalletSigner, false);
    let pending =
        process_create_metadata(&key(100), &creating(true, false), args.metadata, args.aar_data)
            .unwrap()
            .unwrap();
    let record = created(Some(key(3)), None);
    let data = record.to_bytes().unwrap();
    assert_eq!(Metadata::<ArtNft>::from_slice(&pending.data), Ok(record));
    assert_eq!(
        pending,
        PendingStore {
            account: address,
            payer: key(10),
            balance: 10,
            resize: vec![
                Action::Allocate { account: address, space: data.len() as u64, mint: key(20), bump },
                Action::Assign { account: address, owner: key(100), mint: key(20), bump },
                Action::SetAuthority {
                    token_program: token_program_id(),
                    mint: key(20),
                    new_authority: Some(key(23)),
                    authority_type: AuthorityType::MintTokens,
                    current: key(21),
                },
            ],
            data,
        }
    );
}

#[test]
fn created_record_is_funded_allocated_and_written_in_this_order() {
    let (address, bump) = derived(&key(100), &key(20));
    let args = args(UpdateType::Nobody, true);
    let mut accounts = creating(false, true);
    accounts[4] = account(21); // the mint authority stays
    let pending = process_create_metadata(&key(100), &accounts, args.metadata, args.aar_data)
        .unwrap()
        .unwrap();
    let data = created(None, Some(key(30))).to_bytes().unwrap();
    assert_eq!(pending.len(), data.len());
    assert_eq!(
        pending.settle(1_000),
        vec![
            Action::Transfer { from: key(10), to: address, lamports: 990 },
            Action::Allocate { account: address, space: data.len() as u64, mint: key(20), bump },
            Action::Assign { account: address, owner: key(100), mint: key(20), bump },
            Action::Write { account: address, data },
        ]
    );
}

#[test]
fn creation_is_refused_at_another_address() {
    let args = args(UpdateType::WalletSigner, false);
    let mut accounts = creating(true, false);
    accounts[0].key = key(1);
    assert_eq!(
        process_create_metadata(&key(100), &accounts, args.metadata, args.aar_data.clone()),
        Some(Err(custom(ReeMetaError::InvalidInstruction)))
    );
    // The address of another program, or of another mint.
    let accounts = creating(true, false);
    assert_eq!(
        process_create_metadata(&key(101), &accounts, args.metadata, args.aar_data.clone()),
        Some(Err(custom(ReeMetaError::InvalidInstruction)))
    );
    let mut accounts = creating(true, false);
    accounts[1].key = key(19);
    assert_eq!(
        process_create_metadata(&key(100), &accounts, args.metadata, args.aar_data),
        Some(Err(custom(ReeMetaError::InvalidInstruction)))
    );
}

#[test]
fn creation_is_refused_for_each_reason_in_turn() {
    let with = args(UpdateType::WalletSigner, true);
    let good = creating(true, true);
    let address = derived(&key(100), &key(20));
    for len in 0..10 {
        assert_eq!(
            create_metadata(&key(100), &good[..len], with.metadata, with.aar_data.clone(), address),
            Err(ProgramError::NotEnoughAccountKeys),
            "{} accounts",
            len
        );
        assert_eq!(
            check_create_accounts(&good[..len], UpdateType::WalletSigner),
            Err(ProgramError::NotEnoughAccountKeys)
        );
    }
    // The collection is looked for last.
    assert_eq!(
        create_metadata(&key(100), &good[..10], with.metadata, with.aar_data.clone(), address),
        Err(ProgramError::NotEnoughAccountKeys)
    );
    assert_eq!(check_create_accounts(&good[..10], UpdateType::WalletSigner), Ok(()));
    for at in [7usize, 8, 9] {
        let mut accounts = good.clone();
        accounts[at] = account(77);
        assert_eq!(
            create_metadata(&key(100), &accounts, with.metadata, with.aar_data.clone(), address),
            Err(custom(ReeMetaError::InvalidInstruction)),
            "account {}",
            at
        );
    }
    let mut accounts = good.clone();
    accounts[1].owner = key(100);
    assert_eq!(
        create_metadata(&key(100), &accounts, with.metadata, with.aar_data.clone(), address),
        Err(custom(ReeMetaError::IncorrectOwner))
    );
    assert_eq!(
        create_metadata(&key(100), &good, with.metadata, with.aar_data.clone(), (key(1), 255)),
        Err(custom(ReeMetaError::InvalidInstruction))
    );
    assert!(create_metadata(&key(100), &good, with.metadata, with.aar_data, address).is_ok());
}

#[test]
fn without_update_authority_the_fixed_accounts_follow_the_payer() {
    let without = args(UpdateType::Nobody, false);
    assert_eq!(check_create_accounts(&creating(false, false), UpdateType::Nobody), Ok(()));
    assert_eq!(
        check_create_accounts(&creating(false, false), UpdateType::NftToken),
        Err(ProgramError::NotEnoughAccountKeys)
    );
    assert_eq!(
        check_create_accounts(&creating(true, false), UpdateType::Nobody),
        Err(custom(ReeMetaError::InvalidInstruction))
    );
    let pending = process_create_metadata(
        &key(100),
        &creating(false, false),
        without.metadata,
        without.aar_data,
    )
    .unwrap()
    .unwrap();
    assert_eq!(Metadata::<ArtNft>::from_slice(&pending.data), Ok(created(None, None)));
}

// The whole way.

#[test]
fn invocation_is_decided_by_its_payload() {
    let metadata = record(vec![holder(4, 60), holder(5, 40)]);
    let data = metadata.to_bytes().unwrap();

    let payload = ReeMetadataInstruction::NftTransaction(NftTransactionArgs { amount: 1000 })
        .try_to_vec()
        .unwrap();
    assert_eq!(
        Processor::process(&key(100), &paying(data.clone(), &[4, 5]), &payload),
        Some(Ok(Step::Done(vec![
            Action::Transfer { from: key(10), to: key(4), lamports: 60 },
            Action::Transfer { from: key(10), to: key(5), lamports: 40 },
            Action::Transfer { from: key(10), to: key(11), lamports: 900 },
        ])))
    );

    let mut locked = metadata.clone();
    locked.is_modifiable = false;
    assert_eq!(
        Processor::process(&key(100), &[home(data.clone()), signer(10), signer(3)], &[2]),
        Some(Ok(Step::Done(vec![Action::Write {
            account: key(1),
            data: locked.to_bytes().unwrap()
        }])))
    );

    let step = Processor::process(&key(100), &entering(data.clone()), &[3, 30, 0]);
    match step {
        Some(Ok(Step::Store(pending))) => {
            assert_eq!(
                Metadata::<ArtNft>::from_slice(&pending.data).unwrap().data.royalties,
                vec![holder(4, 30), holder(5, 40), holder(5, 30)]
            );
            assert_eq!(pending.len(), data.len() + 35);
        }
        other => panic!("not a pending store: {:?}", other),
    }

    assert_eq!(
        Processor::process(&key(100), &minting(), &[1]),
        Some(process_mint_nft(&key(100), &minting()).map(Step::Done))
    );

    let create = args(UpdateType::WalletSigner, false);
    let payload = ReeMetadataInstruction::CreateMetaData(create.clone()).try_to_vec().unwrap();
    assert_eq!(
        Processor::process(&key(100), &creating(true, false), &payload),
        process_create_metadata(&key(100), &creating(true, false), create.metadata, create.aar_data)
            .map(|outcome| outcome.map(Step::Store))
    );
}

#[test]
fn invocation_with_a_malformed_payload_is_refused() {
    let accounts = vec![home(vec![]), signer(10), signer(3)];
    for payload in [vec![], vec![9], vec![3, 1], vec![4, 0, 0], vec![0, 1, 1, 1]] {
        assert_eq!(
            Processor::process(&key(100), &accounts, &payload),
            Some(Err(custom(ReeMetaError::InvalidInstruction)))
        );
    }
}
