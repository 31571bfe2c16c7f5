//! The instructions of the program: from the accounts and the payload of an
//! invocation to what is left to do on the ledger.

use crate::account::{
    push_action, AccountInfo, Action, ActionView, AuthorityType, PendingStore, PendingStoreView,
    Step, StepView,
};
use crate::art_nft;
use crate::art_nft::{add_royalty_outcome, genesis, payable, transaction_outcome};
use crate::custom_nft;
use crate::error::{custom, fail, ProgramError, ReeMetaError};
use crate::instruction::{
    spec_unpack, AddRoyaltyArgs, CreateMetadataArgsView, InstructionView, MetadataArgs,
    MetadataArgsRRA, NftTransactionArgs, ReeMetadataInstruction,
};
use crate::pubkey::{
    program_address, rent_sysvar_id, system_program_id, token_program_id, try_find_program_address,
    Pubkey,
};
use crate::state::{
    peek_kind, ArtNft, ArtNftView, CustomNft, Kind, Metadata, MetadataData, MetadataView, Royalty,
    UpdateType, LAYOUT_VERSION, PREFIX,
};
use crate::token::{spec_unpack_mint, spec_unpack_token_account, AccountState, Mint, TokenAccount};
use crate::utils::{
    assert_initialized, assert_owned_by, assert_valid_mint_authority, lock_outcome,
};
use crate::wire::{key_of, lemma_key_of, put_key};
use vstd::prelude::*;
use vstd::slice::*;
use vstd::utf8::*;

verus! {

/// Where an invocation is decided.
pub struct Processor;

impl Processor {
    /// Decides an invocation: which instruction the payload stands for, and
    /// what that instruction comes to on the accounts given.
    pub fn process(
        program_id: &Pubkey,
        accounts: &[AccountInfo],
        input: &[u8],
    ) -> (outcome: Option<Result<Step, ProgramError>>)
        ensures
            match outcome {
                Some(Ok(step)) => process_outcome(*program_id, accounts@, input@) == Some(
                    Ok::<StepView, ProgramError>(step@),
                ),
                Some(Err(error)) => process_outcome(*program_id, accounts@, input@) == Some(
                    Err::<StepView, ProgramError>(error),
                ),
                None => process_outcome(*program_id, accounts@, input@) is None,
            },
    {
        let instruction = match ReeMetadataInstruction::unpack(input) {
            Ok(instruction) => instruction,
            Err(error) => return Some(Err(error)),
        };
        match instruction {
            ReeMetadataInstruction::CreateMetaData(args) => {
                match process_create_metadata(program_id, accounts, args.metadata, args.aar_data) {
                    Some(Ok(pending)) => Some(Ok(Step::Store(pending))),
                    Some(Err(error)) => Some(Err(error)),
                    None => None,
                }
            },
            ReeMetadataInstruction::MintNFT() => {
                match process_mint_nft(program_id, accounts) {
                    Ok(actions) => Some(Ok(Step::Done(actions))),
                    Err(error) => Some(Err(error)),
                }
            },
            ReeMetadataInstruction::LockNFT() => {
                match process_lock_nft(program_id, accounts) {
                    Ok(actions) => Some(Ok(Step::Done(actions))),
                    Err(error) => Some(Err(error)),
                }
            },
            ReeMetadataInstruction::AddRoyalty(args) => {
                match process_add_royalty(program_id, accounts, args) {
                    Ok(pending) => Some(Ok(Step::Store(pending))),
                    Err(error) => Some(Err(error)),
                }
            },
            ReeMetadataInstruction::NftTransaction(args) => {
                match process_nft_transaction(program_id, accounts, args) {
                    Some(Ok(actions)) => Some(Ok(Step::Done(actions))),
                    Some(Err(error)) => Some(Err(error)),
                    None => None,
                }
            },
        }
    }
}

/// What an invocation comes to: a payload that stands for no instruction is
/// refused, and any other comes to what its instruction comes to.
pub open spec fn process_outcome(program_id: Pubkey, accounts: Seq<AccountInfo>, input: Seq<u8>)
    -> Option<Result<StepView, ProgramError>> {
    match spec_unpack(input) {
        Err(error) => Some(Err(error)),
        Ok(InstructionView::CreateMetaData(args)) => match process_create_outcome(
            program_id,
            accounts,
            args,
        ) {
            Some(Ok(pending)) => Some(Ok(StepView::Store(pending))),
            Some(Err(error)) => Some(Err(error)),
            None => None,
        },
        Ok(InstructionView::MintNFT) => match process_mint_outcome(accounts) {
            Ok(actions) => Some(Ok(StepView::Done(actions))),
            Err(error) => Some(Err(error)),
        },
        Ok(InstructionView::LockNFT) => match process_lock_outcome(program_id, accounts) {
            Ok(actions) => Some(Ok(StepView::Done(actions))),
            Err(error) => Some(Err(error)),
        },
        Ok(InstructionView::AddRoyalty(args)) => match process_add_royalty_outcome(
            program_id,
            accounts,
            args.share,
        ) {
            Ok(pending) => Some(Ok(StepView::Store(pending))),
            Err(error) => Some(Err(error)),
        },
        Ok(InstructionView::NftTransaction(args)) => match process_transaction_outcome(
            program_id,
            accounts,
            args.amount,
        ) {
            Some(Ok(actions)) => Some(Ok(StepView::Done(actions))),
            Some(Err(error)) => Some(Err(error)),
            None => None,
        },
    }
}

/// The seeds from which the address of the record of a mint is derived.
pub open spec fn metadata_seeds(program_id: Pubkey, mint: Pubkey) -> Seq<Seq<u8>> {
    seq![encode_utf8(PREFIX@), program_id.bytes@, mint.bytes@]
}

fn metadata_address_seeds(program_id: &Pubkey, mint: &Pubkey) -> (seeds: Vec<Vec<u8>>)
    ensures
        seeds.deep_view() == metadata_seeds(*program_id, *mint),
{
    let prefix = slice_to_vec(PREFIX.as_bytes());
    let mut program: Vec<u8> = Vec::new();
    put_key(&mut program, program_id);
    let mut asset: Vec<u8> = Vec::new();
    put_key(&mut asset, mint);
    let mut seeds: Vec<Vec<u8>> = Vec::new();
    proof {
        assert(prefix.deep_view() =~= encode_utf8(PREFIX@));
        assert(program.deep_view() =~= program_id.bytes@);
        assert(asset.deep_view() =~= mint.bytes@);
    }
    seeds.push(prefix);
    seeds.push(program);
    seeds.push(asset);
    proof {
        assert(seeds.deep_view() =~= metadata_seeds(*program_id, *mint));
    }
    seeds
}

/// How many accounts stand in front of the system program when a record is
/// created: the six that every record needs and, unless nobody may update
/// the record, the update authority.
pub open spec fn fixed_accounts(update_type: UpdateType) -> int {
    if update_type != UpdateType::Nobody {
        7
    } else {
        6
    }
}

/// Why the accounts given do not allow to create a record, if they do not:
/// an account up to the token program is missing; or the system program, the
/// rent parameters or the token program are not what they must be; or the
/// mint is not owned by the token program. The first of these that holds is
/// the reason.
pub open spec fn create_refusal(accounts: Seq<AccountInfo>, update_type: UpdateType) -> Option<
    ProgramError,
> {
    let fixed = fixed_accounts(update_type);
    if accounts.len() < fixed + 3 {
        Some(ProgramError::NotEnoughAccountKeys)
    } else if accounts[fixed].key != system_program_id() || accounts[fixed + 1].key
        != rent_sysvar_id() || accounts[fixed + 2].key != token_program_id() {
        Some(custom(ReeMetaError::InvalidInstruction))
    } else if accounts[1].owner != accounts[fixed + 2].key {
        Some(custom(ReeMetaError::IncorrectOwner))
    } else {
        None
    }
}

/// The record that is created from the accounts and the arguments given: a
/// royalty-bearing payload, not yet sold, whose first royalty holder has the
/// full share.
pub open spec fn new_record(accounts: Seq<AccountInfo>, args: CreateMetadataArgsView)
    -> MetadataView<ArtNftView> {
    let fixed = fixed_accounts(args.metadata.update_type);
    MetadataView {
        version: LAYOUT_VERSION,
        kind: args.metadata.kind,
        mint: accounts[1].key,
        is_modifiable: args.metadata.is_modifiable,
        update_type: args.metadata.update_type,
        collection: if args.metadata.in_collection {
            Some(accounts[fixed + 3].key)
        } else {
            None
        },
        update_authority: if args.metadata.update_type != UpdateType::Nobody {
            Some(accounts[6].key)
        } else {
            None
        },
        data: ArtNftView {
            name: args.aar_data.name,
            symbol: args.aar_data.symbol,
            uri: args.aar_data.uri,
            resale_fee: args.aar_data.resale_fee,
            initial_sale: false,
            collection: None,
            royalties: genesis(accounts[2].key),
        },
    }
}

/// What makes the account of a new record ready for the record: it is given
/// the room that the record takes and handed to this program, and the mint
/// gets its new mint authority, if that is another one.
pub open spec fn creation_steps(
    program_id: Pubkey,
    accounts: Seq<AccountInfo>,
    update_type: UpdateType,
    len: int,
    bump: u8,
) -> Seq<ActionView> {
    let fixed = fixed_accounts(update_type);
    let account = accounts[0].key;
    let mint = accounts[1].key;
    let claim = seq![
        ActionView::Allocate { account, space: len as u64, mint, bump },
        ActionView::Assign { account, owner: program_id, mint, bump },
    ];
    if accounts[3].key != accounts[4].key {
        claim.push(
            ActionView::SetAuthority {
                token_program: accounts[fixed + 2].key,
                mint,
                new_authority: Some(accounts[4].key),
                authority_type: AuthorityType::MintTokens,
                current: accounts[3].key,
            },
        )
    } else {
        claim
    }
}

/// What creating a record comes to, where `address` is the address derived
/// for the record of the mint, with its bump seed. The accounts are the
/// account of the record, the mint, the first royalty holder, the mint
/// authority, the mint authority to be, the payer, the update authority
/// unless nobody may update the record, the system program, the rent
/// parameters, the token program and, if the record is part of one, the
/// collection.
///
/// The request is refused, in this order: where the accounts do not allow
/// it; where the account of the record is not at the derived address; where
/// the collection is missing; where the record cannot be stored. Else the
/// record waits to be stored in its account.
pub open spec fn create_outcome(
    program_id: Pubkey,
    accounts: Seq<AccountInfo>,
    args: CreateMetadataArgsView,
    address: (Pubkey, u8),
) -> Result<PendingStoreView, ProgramError> {
    let fixed = fixed_accounts(args.metadata.update_type);
    match create_refusal(accounts, args.metadata.update_type) {
        Some(error) => Err(error),
        None => if address.0 != accounts[0].key {
            Err(custom(ReeMetaError::InvalidInstruction))
        } else if args.metadata.in_collection && accounts.len() < fixed + 4 {
            Err(ProgramError::NotEnoughAccountKeys)
        } else {
            let record = new_record(accounts, args);
            let bytes = Metadata::<ArtNft>::encoding(record);
            if ArtNft::storable(record.data) {
                Ok(
                    PendingStoreView {
                        account: accounts[0].key,
                        payer: accounts[5].key,
                        balance: accounts[0].lamports,
                        resize: creation_steps(
                            program_id,
                            accounts,
                            args.metadata.update_type,
                            bytes.len() as int,
                            address.1,
                        ),
                        data: bytes,
                    },
                )
            } else {
                Err(ProgramError::BorshIoError)
            }
        },
    }
}

/// Says why the accounts given do not allow to create a record, if they do not.
pub fn check_create_accounts(
    accounts: &[AccountInfo],
    update_type: UpdateType,
) -> (checked: Result<(), ProgramError>)
    ensures
        checked == match create_refusal(accounts@, update_type) {
            Some(error) => Err::<(), ProgramError>(error),
            None => Ok::<(), ProgramError>(()),
        },
{
    let fixed: usize = match update_type {
        UpdateType::Nobody => 6,
        _ => 7,
    };
    if accounts.len() < fixed + 3 {
        return Err(ProgramError::NotEnoughAccountKeys);
    }
    let mint_account_info = &accounts[1];
    let system_info = &accounts[fixed];
    let rent_info = &accounts[fixed + 1];
    let token_info = &accounts[fixed + 2];
    if system_info.key != system_program_id() || rent_info.key != rent_sysvar_id()
        || token_info.key != token_program_id() {
        return fail(ReeMetaError::InvalidInstruction);
    }
    assert_owned_by(mint_account_info, &token_info.key)
}

/// Creates the record of an asset, given the address derived for it.
pub fn create_metadata(
    program_id: &Pubkey,
    accounts: &[AccountInfo],
    metadata_data: MetadataArgs,
    aar_data: MetadataArgsRRA,
    address: (Pubkey, u8),
) -> (outcome: Result<PendingStore, ProgramError>)
    ensures
        match outcome {
            Ok(pending) => create_outcome(
                *program_id,
                accounts@,
                CreateMetadataArgsView { metadata: metadata_data, aar_data: aar_data@ },
                address,
            ) == Ok::<PendingStoreView, ProgramError>(pending@),
            Err(error) => create_outcome(
                *program_id,
                accounts@,
                CreateMetadataArgsView { metadata: metadata_data, aar_data: aar_data@ },
                address,
            ) == Err::<PendingStoreView, ProgramError>(error),
        },
{
    match check_create_accounts(accounts, metadata_data.update_type) {
        Ok(_) => {},
        Err(error) => return Err(error),
    }
    let fixed: usize = match metadata_data.update_type {
        UpdateType::Nobody => 6,
        _ => 7,
    };
    let metadata_account_info = &accounts[0];
    let mint_account_info = &accounts[1];
    let royalty_owner_account_info = &accounts[2];
    let mint_authority_account_info = &accounts[3];
    let new_mint_authority_account_info = &accounts[4];
    let payer_account_info = &accounts[5];
    let update_authority: Option<Pubkey> = match metadata_data.update_type {
        UpdateType::Nobody => None,
        _ => Some(accounts[6].key),
    };
    let token_info = &accounts[fixed + 2];
    let (metadata_key, metadata_bump_seed) = address;
    if metadata_key != metadata_account_info.key {
        return fail(ReeMetaError::InvalidInstruction);
    }
    let genesis_royalty = Royalty {
        address: royalty_owner_account_info.key,
        share: 100,
        verified: true,
    };
    let mut royalties: Vec<Royalty> = Vec::new();
    royalties.push(genesis_royalty);
    assert(royalties@ =~= genesis(accounts@[2].key));
    let art_nft: ArtNft = ArtNft {
        name: aar_data.name,
        symbol: aar_data.symbol,
        uri: aar_data.uri,
        resale_fee: aar_data.resale_fee,
        initial_sale: false,
        collection: None,
        royalties: royalties,
    };
    let mut metadata: Metadata<ArtNft> = Metadata {
        version: LAYOUT_VERSION,
        kind: metadata_data.kind,
        mint: mint_account_info.key,
        data: art_nft,
        is_modifiable: metadata_data.is_modifiable,
        update_type: metadata_data.update_type,
        collection: None,
        update_authority: update_authority,
    };
    if metadata_data.in_collection {
        if accounts.len() < fixed + 4 {
            return Err(ProgramError::NotEnoughAccountKeys);
        }
        let collection_account_info = &accounts[fixed + 3];
        metadata.collection = Some(collection_account_info.key);
    }
    let bytes = match metadata.to_bytes() {
        Ok(bytes) => bytes,
        Err(error) => return Err(error),
    };
    let mut resize: Vec<Action> = Vec::new();
    assert(resize.deep_view() =~= Seq::<ActionView>::empty());
    push_action(
        &mut resize,
        Action::Allocate {
            account: metadata_account_info.key,
            space: bytes.len() as u64,
            mint: mint_account_info.key,
            bump: metadata_bump_seed,
        },
    );
    push_action(
        &mut resize,
        Action::Assign {
            account: metadata_account_info.key,
            owner: *program_id,
            mint: mint_account_info.key,
            bump: metadata_bump_seed,
        },
    );
    if mint_authority_account_info.key != new_mint_authority_account_info.key {
        push_action(
            &mut resize,
            Action::SetAuthority {
                token_program: token_info.key,
                mint: mint_account_info.key,
                new_authority: Some(new_mint_authority_account_info.key),
                authority_type: AuthorityType::MintTokens,
                current: mint_authority_account_info.key,
            },
        );
    }
    proof {
        assert(resize.deep_view() =~= creation_steps(
            *program_id,
            accounts@,
            metadata_data.update_type,
            bytes@.len() as int,
            metadata_bump_seed,
        ));
    }
    Ok(
        PendingStore {
            account: metadata_account_info.key,
            payer: payer_account_info.key,
            balance: metadata_account_info.lamports,
            resize,
            data: bytes,
        },
    )
}

/// What the instruction that creates a record comes to: it is refused where
/// the accounts do not allow it; it comes to nothing where no address can be
/// derived for the record of the mint; else it comes to what creating the
/// record at the derived address comes to.
pub open spec fn process_create_outcome(
    program_id: Pubkey,
    accounts: Seq<AccountInfo>,
    args: CreateMetadataArgsView,
) -> Option<Result<PendingStoreView, ProgramError>> {
    match create_refusal(accounts, args.metadata.update_type) {
        Some(error) => Some(Err(error)),
        None => match program_address(
            metadata_seeds(program_id, accounts[1].key),
            program_id.bytes@,
        ) {
            Some((address, bump)) => Some(
                create_outcome(program_id, accounts, args, (key_of(address), bump)),
            ),
            None => None,
        },
    }
}

/// Creates the record of an asset at the address derived for its mint.
/// Answers `None` where no address can be derived.
pub fn process_create_metadata(
    program_id: &Pubkey,
    accounts: &[AccountInfo],
    metadata_data: MetadataArgs,
    aar_data: MetadataArgsRRA,
) -> (outcome: Option<Result<PendingStore, ProgramError>>)
    ensures
        match outcome {
            Some(Ok(pending)) => process_create_outcome(
                *program_id,
                accounts@,
                CreateMetadataArgsView { metadata: metadata_data, aar_data: aar_data@ },
            ) == Some(Ok::<PendingStoreView, ProgramError>(pending@)),
            Some(Err(error)) => process_create_outcome(
                *program_id,
                accounts@,
                CreateMetadataArgsView { metadata: metadata_data, aar_data: aar_data@ },
            ) == Some(Err::<PendingStoreView, ProgramError>(error)),
            None => process_create_outcome(
                *program_id,
                accounts@,
                CreateMetadataArgsView { metadata: metadata_data, aar_data: aar_data@ },
            ) is None,
        },
{
    match check_create_accounts(accounts, metadata_data.update_type) {
        Ok(_) => {},
        Err(error) => return Some(Err(error)),
    }
    let seeds = metadata_address_seeds(program_id, &accounts[1].key);
    match try_find_program_address(&seeds, program_id) {
        Some(address) => {
            proof {
                lemma_key_of(address.0, address.0.bytes@);
            }
            Some(create_metadata(program_id, accounts, metadata_data, aar_data, address))
        },
        None => None,
    }
}

/// What minting the token of an asset comes to. The accounts are the mint,
/// the mint authority, the token account of the recipient and the token
/// program.
///
/// The request is refused, in this order: where an account is missing; where
/// the mint cannot be read or is not initialized; where the token account
/// cannot be read or is not initialized; where the second account is not the
/// mint authority; where the token program does not own the mint, or the
/// token account; where the token account is of another mint; where the last
/// account is not the token program. Else one token is minted to the
/// recipient, and the mint loses its mint authority.
pub open spec fn process_mint_outcome(accounts: Seq<AccountInfo>) -> Result<
    Seq<ActionView>,
    ProgramError,
> {
    if accounts.len() < 4 {
        Err(ProgramError::NotEnoughAccountKeys)
    } else {
        match spec_unpack_mint(accounts[0].data@) {
            None => Err(ProgramError::InvalidAccountData),
            Some(mint) => if !mint.is_initialized {
                Err(custom(ReeMetaError::Uninitialized))
            } else {
                match spec_unpack_token_account(accounts[2].data@) {
                    None => Err(ProgramError::InvalidAccountData),
                    Some(recipient) => if recipient.state == AccountState::Uninitialized {
                        Err(custom(ReeMetaError::Uninitialized))
                    } else if mint.mint_authority != Some(accounts[1].key) {
                        Err(custom(ReeMetaError::InvalidMintAuthority))
                    } else if accounts[0].owner != token_program_id() || accounts[2].owner
                        != token_program_id() {
                        Err(custom(ReeMetaError::IncorrectOwner))
                    } else if recipient.mint != accounts[0].key {
                        Err(custom(ReeMetaError::InvalidInstruction))
                    } else if accounts[3].key != token_program_id() {
                        Err(ProgramError::IncorrectProgramId)
                    } else {
                        Ok(
                            seq![
                                ActionView::MintTo {
                                    token_program: accounts[3].key,
                                    mint: accounts[0].key,
                                    recipient: accounts[2].key,
                                    authority: accounts[1].key,
                                    amount: 1,
                                },
                                ActionView::SetAuthority {
                                    token_program: accounts[3].key,
                                    mint: accounts[0].key,
                                    new_authority: None,
                                    authority_type: AuthorityType::MintTokens,
                                    current: accounts[1].key,
                                },
                            ],
                        )
                    },
                }
            },
        }
    }
}

/// Mints the one token of an asset and takes the mint authority from the mint.
pub fn process_mint_nft(
    _program_id: &Pubkey,
    accounts: &[AccountInfo],
) -> (outcome: Result<Vec<Action>, ProgramError>)
    ensures
        match outcome {
            Ok(actions) => process_mint_outcome(accounts@) == Ok::<Seq<ActionView>, ProgramError>(
                actions.deep_view(),
            ),
            Err(error) => process_mint_outcome(accounts@) == Err::<Seq<ActionView>, ProgramError>(
                error,
            ),
        },
{
    if accounts.len() < 4 {
        return Err(ProgramError::NotEnoughAccountKeys);
    }
    let mint_account_info = &accounts[0];
    let authority_account_info = &accounts[1];
    let recipient_token_account_info = &accounts[2];
    let token_program_info = &accounts[3];
    let mint: Mint = match assert_initialized(mint_account_info) {
        Ok(mint) => mint,
        Err(error) => return Err(error),
    };
    let recipient_token_account: TokenAccount = match assert_initialized(
        recipient_token_account_info,
    ) {
        Ok(account) => account,
        Err(error) => return Err(error),
    };
    match assert_valid_mint_authority(&mint.mint_authority, authority_account_info) {
        Ok(_) => {},
        Err(error) => return Err(error),
    }
    match assert_owned_by(mint_account_info, &token_program_id()) {
        Ok(_) => {},
        Err(error) => return Err(error),
    }
    match assert_owned_by(recipient_token_account_info, &token_program_id()) {
        Ok(_) => {},
        Err(error) => return Err(error),
    }
    if recipient_token_account.mint != mint_account_info.key {
        return fail(ReeMetaError::InvalidInstruction);
    }
    if token_program_info.key != token_program_id() {
        return Err(ProgramError::IncorrectProgramId);
    }
    // Mint the token, then take the mint authority from the mint.
    let mut actions: Vec<Action> = Vec::new();
    assert(actions.deep_view() =~= Seq::<ActionView>::empty());
    push_action(
        &mut actions,
        Action::MintTo {
            token_program: token_program_info.key,
            mint: mint_account_info.key,
            recipient: recipient_token_account_info.key,
            authority: authority_account_info.key,
            amount: 1,
        },
    );
    push_action(
        &mut actions,
        Action::SetAuthority {
            token_program: token_program_info.key,
            mint: mint_account_info.key,
            new_authority: None,
            authority_type: AuthorityType::MintTokens,
            current: authority_account_info.key,
        },
    );
    proof {
        assert(actions.deep_view() =~= process_mint_outcome(accounts@)->Ok_0);
    }
    Ok(actions)
}

/// What the instruction that locks a record comes to. The accounts are the
/// account of the record, the payer and the update authority.
///
/// The request is refused where an account is missing, where this program
/// does not own the account of the record, and where no record of the kind
/// that the first byte announces can be read from the account. Else it comes
/// to what locking that record comes to.
pub open spec fn process_lock_outcome(program_id: Pubkey, accounts: Seq<AccountInfo>) -> Result<
    Seq<ActionView>,
    ProgramError,
> {
    if accounts.len() < 3 {
        Err(ProgramError::NotEnoughAccountKeys)
    } else if accounts[0].owner != program_id {
        Err(custom(ReeMetaError::IncorrectOwner))
    } else if peek_kind(accounts[0].data@) == Kind::RoyaltyArt {
        match Metadata::<ArtNft>::stored_at(accounts[0].data@, 0) {
            Some((record, _)) => lock_outcome::<ArtNft>(record, accounts[0], accounts[2]),
            None => Err(ProgramError::BorshIoError),
        }
    } else {
        match Metadata::<CustomNft>::stored_at(accounts[0].data@, 0) {
            Some((record, _)) => lock_outcome::<CustomNft>(record, accounts[0], accounts[2]),
            None => Err(ProgramError::BorshIoError),
        }
    }
}

/// Locks the record in the first account, whatever its kind.
pub fn process_lock_nft(
    program_id: &Pubkey,
    accounts: &[AccountInfo],
) -> (outcome: Result<Vec<Action>, ProgramError>)
    ensures
        match outcome {
            Ok(actions) => process_lock_outcome(*program_id, accounts@) == Ok::<
                Seq<ActionView>,
                ProgramError,
            >(actions.deep_view()),
            Err(error) => process_lock_outcome(*program_id, accounts@) == Err::<
                Seq<ActionView>,
                ProgramError,
            >(error),
        },
{
    if accounts.len() < 3 {
        return Err(ProgramError::NotEnoughAccountKeys);
    }
    let metadata_account_info = &accounts[0];
    let _payer_account_info = &accounts[1];
    let update_authority_account_info = &accounts[2];
    match assert_owned_by(metadata_account_info, program_id) {
        Ok(_) => {},
        Err(error) => return Err(error),
    }
    let kind = match Metadata::<ArtNft>::get_kind(metadata_account_info) {
        Ok(kind) => kind,
        Err(error) => return Err(error),
    };
    match kind {
        Kind::RoyaltyArt => {
            let metadata = match Metadata::<ArtNft>::from_account_info(metadata_account_info) {
                Ok(metadata) => metadata,
                Err(error) => return Err(error),
            };
            art_nft::lock_nft(metadata, metadata_account_info, update_authority_account_info)
        },
        Kind::Uninitialized => {
            let metadata = match Metadata::<CustomNft>::from_account_info(metadata_account_info) {
                Ok(metadata) => metadata,
                Err(error) => return Err(error),
            };
            custom_nft::lock_nft(metadata, metadata_account_info, update_authority_account_info)
        },
    }
}

/// What the instruction that enters a royalty holder comes to.
///
/// The request is refused where there is no account, where this program does
/// not own the first account, where the first byte of that account does not
/// announce a royalty-bearing record, and where no such record can be read
/// from it. Else it comes to what entering the holder in that record comes to.
pub open spec fn process_add_royalty_outcome(
    program_id: Pubkey,
    accounts: Seq<AccountInfo>,
    share: u16,
) -> Result<PendingStoreView, ProgramError> {
    if accounts.len() < 1 {
        Err(ProgramError::NotEnoughAccountKeys)
    } else if accounts[0].owner != program_id {
        Err(custom(ReeMetaError::IncorrectOwner))
    } else if peek_kind(accounts[0].data@) == Kind::RoyaltyArt {
        match Metadata::<ArtNft>::stored_at(accounts[0].data@, 0) {
            Some((record, _)) => add_royalty_outcome(accounts, record, share),
            None => Err(ProgramError::BorshIoError),
        }
    } else {
        Err(custom(ReeMetaError::InvalidNFTKind))
    }
}

/// Enters a royalty holder in the record in the first account.
pub fn process_add_royalty(
    program_id: &Pubkey,
    accounts: &[AccountInfo],
    data: AddRoyaltyArgs,
) -> (outcome: Result<PendingStore, ProgramError>)
    ensures
        match outcome {
            Ok(pending) => process_add_royalty_outcome(*program_id, accounts@, data.share) == Ok::<
                PendingStoreView,
                ProgramError,
            >(pending@),
            Err(error) => process_add_royalty_outcome(*program_id, accounts@, data.share) == Err::<
                PendingStoreView,
                ProgramError,
            >(error),
        },
{
    if accounts.len() < 1 {
        return Err(ProgramError::NotEnoughAccountKeys);
    }
    let metadata_account_info = &accounts[0];
    match assert_owned_by(metadata_account_info, program_id) {
        Ok(_) => {},
        Err(error) => return Err(error),
    }
    let kind = match Metadata::<ArtNft>::get_kind(metadata_account_info) {
        Ok(kind) => kind,
        Err(error) => return Err(error),
    };
    match kind {
        Kind::RoyaltyArt => {
            let metadata = match Metadata::<ArtNft>::from_account_info(metadata_account_info) {
                Ok(metadata) => metadata,
                Err(error) => return Err(error),
            };
            art_nft::add_royalty(accounts, metadata, data)
        },
        Kind::Uninitialized => {
            return fail(ReeMetaError::InvalidNFTKind)
        },
    }
}

/// What the instruction that pays for an asset comes to.
///
/// The request is refused where there is no account and where this program
/// does not own the first account. Where the first byte of that account
/// announces a royalty-bearing record, the request is refused where no such
/// record can be read; it comes to nothing where the record cannot split a
/// payment; else it comes to what the payment comes to by that record. For
/// every other account the payer, the seller and the system program must
/// follow, and the seller is paid the whole amount.
pub open spec fn process_transaction_outcome(
    program_id: Pubkey,
    accounts: Seq<AccountInfo>,
    amount: u64,
) -> Option<Result<Seq<ActionView>, ProgramError>> {
    if accounts.len() < 1 {
        Some(Err(ProgramError::NotEnoughAccountKeys))
    } else if accounts[0].owner != program_id {
        Some(Err(custom(ReeMetaError::IncorrectOwner)))
    } else if peek_kind(accounts[0].data@) == Kind::RoyaltyArt {
        match Metadata::<ArtNft>::stored_at(accounts[0].data@, 0) {
            Some((record, _)) => if payable(record.data) {
                Some(transaction_outcome(accounts, record, amount))
            } else {
                None
            },
            None => Some(Err(ProgramError::BorshIoError)),
        }
    } else if accounts.len() < 4 {
        Some(Err(ProgramError::NotEnoughAccountKeys))
    } else if accounts[3].key != system_program_id() {
        Some(Err(custom(ReeMetaError::InvalidInstruction)))
    } else {
        Some(
            Ok(
                seq![
                    ActionView::Transfer {
                        from: accounts[1].key,
                        to: accounts[2].key,
                        lamports: amount,
                    },
                ],
            ),
        )
    }
}

/// Pays for the asset whose record is in the first account. Answers `None`
/// where that record cannot split a payment.
pub fn process_nft_transaction(
    program_id: &Pubkey,
    accounts: &[AccountInfo],
    data: NftTransactionArgs,
) -> (outcome: Option<Result<Vec<Action>, ProgramError>>)
    ensures
        match outcome {
            Some(Ok(actions)) => process_transaction_outcome(*program_id, accounts@, data.amount)
                == Some(Ok::<Seq<ActionView>, ProgramError>(actions.deep_view())),
            Some(Err(error)) => process_transaction_outcome(*program_id, accounts@, data.amount)
                == Some(Err::<Seq<ActionView>, ProgramError>(error)),
            None => process_transaction_outcome(*program_id, accounts@, data.amount) is None,
        },
{
    if accounts.len() < 1 {
        return Some(Err(ProgramError::NotEnoughAccountKeys));
    }
    let metadata_account_info = &accounts[0];
    match assert_owned_by(metadata_account_info, program_id) {
        Ok(_) => {},
        Err(error) => return Some(Err(error)),
    }
    let kind = match Metadata::<ArtNft>::get_kind(metadata_account_info) {
        Ok(kind) => kind,
        Err(error) => return Some(Err(error)),
    };
    match kind {
        Kind::RoyaltyArt => {
            let metadata = match Metadata::<ArtNft>::from_account_info(metadata_account_info) {
                Ok(metadata) => metadata,
                Err(error) => return Some(Err(error)),
            };
            if !metadata.data.is_payable() {
                return None;
            }
            Some(art_nft::nft_transaction(accounts, metadata, data))
        },
        _ => {
            // No royalties: the whole amount goes to the seller.
            if accounts.len() < 4 {
                return Some(Err(ProgramError::NotEnoughAccountKeys));
            }
            let payer_account_info = &accounts[1];
            let target_account_info = &accounts[2];
            let system_info = &accounts[3];
            if system_info.key != system_program_id() {
                return Some(fail(ReeMetaError::InvalidInstruction));
            }
            let mut actions: Vec<Action> = Vec::new();
            assert(actions.deep_view() =~= Seq::<ActionView>::empty());
            push_action(
                &mut actions,
                Action::Transfer {
                    from: payer_account_info.key,
                    to: target_account_info.key,
                    lamports: data.amount,
                },
            );
            proof {
                assert(actions.deep_view() =~= seq![
                    ActionView::Transfer {
                        from: accounts@[1].key,
                        to: accounts@[2].key,
                        lamports: data.amount,
                    },
                ]);
            }
            Some(Ok(actions))
        },
    }
}

} // verus!
