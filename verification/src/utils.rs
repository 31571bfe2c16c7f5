//! The checks that the operations share.

use crate::account::{overwritten, AccountInfo, Action, ActionView};
use crate::error::{custom, fail, ProgramError, ReeMetaError};
use crate::pubkey::Pubkey;
use crate::state::{Metadata, MetadataData, MetadataView, LAYOUT_VERSION};
use crate::token::{IsInitialized, Pack};
use crate::wire::lemma_holds_at_start;
use vstd::prelude::*;

verus! {

/// Reads the state of an account of another program and accepts it only if
/// it has been initialized.
pub fn assert_initialized<T: Pack + IsInitialized>(
    account_info: &AccountInfo,
) -> (state: Result<T, ProgramError>)
    ensures
        state == match T::unpacked(account_info.data@) {
            Some(account) => if account.spec_is_initialized() {
                Ok::<T, ProgramError>(account)
            } else {
                Err::<T, ProgramError>(custom(ReeMetaError::Uninitialized))
            },
            None => Err::<T, ProgramError>(ProgramError::InvalidAccountData),
        },
{
    let account: T = match T::unpack_unchecked(account_info.data.as_slice()) {
        Ok(account) => account,
        Err(error) => return Err(error),
    };
    if !account.is_initialized() {
        fail(ReeMetaError::Uninitialized)
    } else {
        Ok(account)
    }
}

/// Accepts the account only if it is the mint authority.
pub fn assert_valid_mint_authority(
    mint_authority: &Option<Pubkey>,
    mint_authority_info: &AccountInfo,
) -> (checked: Result<(), ProgramError>)
    ensures
        checked == if *mint_authority == Some(mint_authority_info.key) {
            Ok::<(), ProgramError>(())
        } else {
            Err::<(), ProgramError>(custom(ReeMetaError::InvalidMintAuthority))
        },
{
    match mint_authority {
        None => {
            return fail(ReeMetaError::InvalidMintAuthority)
        },
        Some(key) => {
            if mint_authority_info.key != *key {
                return fail(ReeMetaError::InvalidMintAuthority)
            } else {
                return Ok(())
            }
        },
    }
}

/// Accepts the account only if `owner` owns it.
pub fn assert_owned_by(
    account: &AccountInfo,
    owner: &Pubkey,
) -> (checked: Result<(), ProgramError>)
    ensures
        checked == if account.owner == *owner {
            Ok::<(), ProgramError>(())
        } else {
            Err::<(), ProgramError>(custom(ReeMetaError::IncorrectOwner))
        },
{
    if account.owner != *owner {
        fail(ReeMetaError::IncorrectOwner)
    } else {
        Ok(())
    }
}

/// Why `authority` may not change the record, if it may not: the record is
/// locked; or it has no update authority; or `authority` did not sign, or is
/// not the update authority. The first of these that holds is the reason.
pub open spec fn refusal<D>(record: MetadataView<D>, authority: AccountInfo) -> Option<
    ReeMetaError,
> {
    if !record.is_modifiable {
        Some(ReeMetaError::AlreadyLocked)
    } else if record.update_authority is None {
        Some(ReeMetaError::NoUpdateAuthority)
    } else if !authority.is_signer || record.update_authority != Some(authority.key) {
        Some(ReeMetaError::InvalidUpdateAuthority)
    } else {
        None
    }
}

/// Accepts the account only if it may change the record.
pub fn assert_update_authority<T: MetadataData>(
    metadata: &Metadata<T>,
    update_authority_account_info: &AccountInfo,
) -> (checked: Result<(), ProgramError>)
    ensures
        checked == match refusal(metadata@, *update_authority_account_info) {
            Some(error) => Err::<(), ProgramError>(custom(error)),
            None => Ok::<(), ProgramError>(()),
        },
{
    if !metadata.is_modifiable {
        return fail(ReeMetaError::AlreadyLocked);
    }
    if metadata.update_authority.is_none() {
        return fail(ReeMetaError::NoUpdateAuthority);
    }
    if !update_authority_account_info.is_signer || metadata.update_authority != Some(
        update_authority_account_info.key,
    ) {
        return fail(ReeMetaError::InvalidUpdateAuthority);
    }
    Ok(())
}

/// The action that writes `record` over the front of the buffer of
/// `account`, where the record can be stored and the buffer has room for it.
pub open spec fn stored<T: MetadataData>(record: MetadataView<T::V>, account: AccountInfo) -> Result<
    ActionView,
    ProgramError,
> {
    let bytes = Metadata::<T>::encoding(record);
    if T::storable(record.data) && bytes.len() <= account.data@.len() {
        Ok(ActionView::Write { account: account.key, data: bytes })
    } else {
        Err(ProgramError::BorshIoError)
    }
}

/// Asks for the record to be written over the front of the buffer of its account.
pub fn store<T: MetadataData>(
    metadata: &Metadata<T>,
    metadata_account_info: &AccountInfo,
) -> (action: Result<Action, ProgramError>)
    ensures
        match action {
            Ok(action) => stored::<T>(metadata@, *metadata_account_info) == Ok::<
                ActionView,
                ProgramError,
            >(action@),
            Err(error) => stored::<T>(metadata@, *metadata_account_info) == Err::<
                ActionView,
                ProgramError,
            >(error),
        },
{
    let bytes = match metadata.to_bytes() {
        Ok(bytes) => bytes,
        Err(error) => return Err(error),
    };
    if bytes.len() > metadata_account_info.data.len() {
        return Err(ProgramError::BorshIoError);
    }
    Ok(Action::Write { account: metadata_account_info.key, data: bytes })
}

/// A record after it has been locked: it can no longer be modified, and
/// nothing else has changed.
pub open spec fn locked<D>(record: MetadataView<D>) -> MetadataView<D> {
    MetadataView { is_modifiable: false, ..record }
}

/// What locking a record comes to: it is refused where `authority` may not
/// change the record, and it fails where the locked record cannot be written;
/// else the locked record is written to the account, and nothing else is done.
pub open spec fn lock_outcome<T: MetadataData>(
    record: MetadataView<T::V>,
    account: AccountInfo,
    authority: AccountInfo,
) -> Result<Seq<ActionView>, ProgramError> {
    match refusal(record, authority) {
        Some(error) => Err(custom(error)),
        None => match stored::<T>(locked(record), account) {
            Ok(action) => Ok(seq![action]),
            Err(error) => Err(error),
        },
    }
}

/// Locks a record of any payload.
pub fn lock<T: MetadataData>(
    metadata: Metadata<T>,
    metadata_account_info: &AccountInfo,
    update_authority_account_info: &AccountInfo,
) -> (outcome: Result<Vec<Action>, ProgramError>)
    ensures
        match outcome {
            Ok(actions) => lock_outcome::<T>(
                metadata@,
                *metadata_account_info,
                *update_authority_account_info,
            ) == Ok::<Seq<ActionView>, ProgramError>(actions.deep_view()),
            Err(error) => lock_outcome::<T>(
                metadata@,
                *metadata_account_info,
                *update_authority_account_info,
            ) == Err::<Seq<ActionView>, ProgramError>(error),
        },
{
    match assert_update_authority(&metadata, update_authority_account_info) {
        Ok(_) => {},
        Err(error) => return Err(error),
    }
    let mut metadata = metadata;
    metadata.is_modifiable = false;
    let action = match store(&metadata, metadata_account_info) {
        Ok(action) => action,
        Err(error) => return Err(error),
    };
    let mut actions: Vec<Action> = Vec::new();
    actions.push(action);
    assert(actions.deep_view() =~= seq![action@]);
    Ok(actions)
}

/// A locked record stays locked: whoever asks to lock it again, and with
/// whatever account, is refused, and nothing is written.
pub proof fn lemma_locked_stays_locked<T: MetadataData>(
    record: MetadataView<T::V>,
    account: AccountInfo,
    authority: AccountInfo,
)
    requires
        !record.is_modifiable,
    ensures
        lock_outcome::<T>(record, account, authority) == Err::<Seq<ActionView>, ProgramError>(
            custom(ReeMetaError::AlreadyLocked),
        ),
{
}

/// Locking works once. Where a record has been locked and the one action
/// that this comes to has been performed, the account holds the record as it
/// was but for being locked, and every later request to lock what the
/// account holds is refused as already locked.
pub proof fn lemma_lock_once<T: MetadataData>(
    record: MetadataView<T::V>,
    account: AccountInfo,
    authority: AccountInfo,
    later: AccountInfo,
    later_authority: AccountInfo,
)
    requires
        record.version == LAYOUT_VERSION,
        lock_outcome::<T>(record, account, authority) is Ok,
        later.data@ == overwritten(account.data@, Metadata::<T>::encoding(locked(record))),
    ensures
        lock_outcome::<T>(record, account, authority) == Ok::<Seq<ActionView>, ProgramError>(
            seq![
                ActionView::Write {
                    account: account.key,
                    data: Metadata::<T>::encoding(locked(record)),
                },
            ],
        ),
        later.data@.len() == account.data@.len(),
        Metadata::<T>::stored_at(later.data@, 0) == Some(
            (locked(record), Metadata::<T>::encoding(locked(record)).len() as int),
        ),
        lock_outcome::<T>(locked(record), later, later_authority) == Err::<
            Seq<ActionView>,
            ProgramError,
        >(custom(ReeMetaError::AlreadyLocked)),
{
    let piece = Metadata::<T>::encoding(locked(record));
    let tail = account.data@.subrange(piece.len() as int, account.data@.len() as int);
    lemma_holds_at_start(piece, tail);
    Metadata::<T>::lemma_stored_at(later.data@, 0, locked(record));
}

} // verus!
