//! Records without royalty semantics. All that can be done to one is to lock it.

use crate::account::{AccountInfo, Action, ActionView};
use crate::error::ProgramError;
use crate::state::{CustomNft, Metadata};
use crate::utils::{lock, lock_outcome};
use vstd::prelude::*;

verus! {

/// Locks a record without royalty semantics: asks for the record, no longer
/// modifiable, to be written to its account.
pub fn lock_nft(
    metadata: Metadata<CustomNft>,
    metadata_account_info: &AccountInfo,
    update_authority_account_info: &AccountInfo,
) -> (outcome: Result<Vec<Action>, ProgramError>)
    ensures
        match outcome {
            Ok(actions) => lock_outcome::<CustomNft>(
                metadata@,
                *metadata_account_info,
                *update_authority_account_info,
            ) == Ok::<Seq<ActionView>, ProgramError>(actions.deep_view()),
            Err(error) => lock_outcome::<CustomNft>(
                metadata@,
                *metadata_account_info,
                *update_authority_account_info,
            ) == Err::<Seq<ActionView>, ProgramError>(error),
        },
{
    lock(metadata, metadata_account_info, update_authority_account_info)
}

} // verus!
