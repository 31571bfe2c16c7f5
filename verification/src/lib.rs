//! On-chain metadata records for non-fungible assets with resale royalties.
//!
//! A record names the asset it describes, who may still change it, and how the
//! proceeds of a sale are split among its royalty holders.

use vstd::prelude::*;

pub mod account;
pub mod art_nft;
pub mod custom_nft;
pub mod error;
pub mod instruction;
pub mod processor;
pub mod pubkey;
pub mod state;
pub mod token;
pub mod unpack;
pub mod utils;
pub mod wire;

use crate::error::ProgramError;
use crate::pubkey::Pubkey;

verus! {

/// The identity under which this program is deployed.
pub open spec fn spec_id() -> Pubkey {
    Pubkey {
        bytes: [
            205u8, 93u8, 85u8, 80u8, 157u8, 222u8, 0u8, 56u8, 149u8, 201u8, 136u8, 70u8, 98u8,
            220u8, 29u8, 152u8, 203u8, 104u8, 72u8, 13u8, 162u8, 130u8, 203u8, 160u8, 188u8, 245u8,
            50u8, 51u8, 108u8, 235u8, 207u8, 70u8,
        ],
    }
}

/// The identity under which this program is deployed.
#[verifier::when_used_as_spec(spec_id)]
pub fn id() -> (id: Pubkey)
    ensures
        id == spec_id(),
{
    Pubkey {
        bytes: [
            205u8, 93u8, 85u8, 80u8, 157u8, 222u8, 0u8, 56u8, 149u8, 201u8, 136u8, 70u8, 98u8,
            220u8, 29u8, 152u8, 203u8, 104u8, 72u8, 13u8, 162u8, 130u8, 203u8, 160u8, 188u8, 245u8,
            50u8, 51u8, 108u8, 235u8, 207u8, 70u8,
        ],
    }
}

/// Accepts `ree_meta_program_id` only if it names this program.
pub fn check_program_account(ree_meta_program_id: &Pubkey) -> (checked: Result<(), ProgramError>)
    ensures
        checked == if *ree_meta_program_id == id() {
            Ok::<(), ProgramError>(())
        } else {
            Err::<(), ProgramError>(ProgramError::IncorrectProgramId)
        },
{
    if *ree_meta_program_id != id() {
        return Err(ProgramError::IncorrectProgramId);
    }
    Ok(())
}

} // verus!
