//! Account identities.

use vstd::prelude::*;

verus! {

/// The identity of an account: 32 bytes, compared byte by byte.
#[derive(Clone, Copy, Debug, Eq)]
pub struct Pubkey {
    pub bytes: [u8; 32],
}

impl PartialEq for Pubkey {
    fn eq(&self, other: &Pubkey) -> (same: bool) {
        let mut i: usize = 0;
        while i < 32
            invariant
                i <= 32,
                forall|j: int| 0 <= j < i ==> self.bytes[j] == other.bytes[j],
            decreases 32 - i,
        {
            if self.bytes[i] != other.bytes[i] {
                return false;
            }
            i += 1;
        }
        assert(self.bytes =~= other.bytes);
        true
    }
}

impl vstd::std_specs::cmp::PartialEqSpecImpl for Pubkey {
    open spec fn obeys_eq_spec() -> bool {
        true
    }

    open spec fn eq_spec(&self, other: &Pubkey) -> bool {
        self.bytes == other.bytes
    }
}

impl Pubkey {
    /// The identity with the bytes given.
    pub fn new_from_array(bytes: [u8; 32]) -> (key: Pubkey)
        ensures
            key.bytes == bytes,
    {
        Pubkey { bytes }
    }

    /// The bytes of the identity.
    pub fn to_bytes(&self) -> (bytes: [u8; 32])
        ensures
            bytes == self.bytes,
    {
        self.bytes
    }
}

/// The identity of the system program, which moves lamports and allocates accounts.
pub open spec fn spec_system_program_id() -> Pubkey {
    Pubkey {
        bytes: [
            0u8, 0u8, 0u8, 0u8, 0u8, 0u8, 0u8, 0u8, 0u8, 0u8, 0u8, 0u8, 0u8, 0u8, 0u8, 0u8,
            0u8, 0u8, 0u8, 0u8, 0u8, 0u8, 0u8, 0u8, 0u8, 0u8, 0u8, 0u8, 0u8, 0u8, 0u8, 0u8,
        ],
    }
}

/// The identity of the account that publishes the rent parameters.
pub open spec fn spec_rent_sysvar_id() -> Pubkey {
    Pubkey {
        bytes: [
            6u8, 167u8, 213u8, 23u8, 25u8, 44u8, 92u8, 81u8, 33u8, 140u8, 201u8, 76u8, 61u8, 74u8,
            241u8, 127u8, 88u8, 218u8, 238u8, 8u8, 155u8, 161u8, 253u8, 68u8, 227u8, 219u8, 217u8,
            138u8, 0u8, 0u8, 0u8, 0u8,
        ],
    }
}

/// The identity of the token program, which owns mints and token accounts.
pub open spec fn spec_token_program_id() -> Pubkey {
    Pubkey {
        bytes: [
            6u8, 221u8, 246u8, 225u8, 215u8, 101u8, 161u8, 147u8, 217u8, 203u8, 225u8, 70u8, 206u8,
            235u8, 121u8, 172u8, 28u8, 180u8, 133u8, 237u8, 95u8, 91u8, 55u8, 145u8, 58u8, 140u8,
            245u8, 133u8, 126u8, 255u8, 0u8, 169u8,
        ],
    }
}

/// The identity of the system program.
#[verifier::when_used_as_spec(spec_system_program_id)]
pub fn system_program_id() -> (id: Pubkey)
    ensures
        id == spec_system_program_id(),
{
    Pubkey {
        bytes: [
            0u8, 0u8, 0u8, 0u8, 0u8, 0u8, 0u8, 0u8, 0u8, 0u8, 0u8, 0u8, 0u8, 0u8, 0u8, 0u8,
            0u8, 0u8, 0u8, 0u8, 0u8, 0u8, 0u8, 0u8, 0u8, 0u8, 0u8, 0u8, 0u8, 0u8, 0u8, 0u8,
        ],
    }
}

/// The identity of the account that publishes the rent parameters.
#[verifier::when_used_as_spec(spec_rent_sysvar_id)]
pub fn rent_sysvar_id() -> (id: Pubkey)
    ensures
        id == spec_rent_sysvar_id(),
{
    Pubkey {
        bytes: [
            6u8, 167u8, 213u8, 23u8, 25u8, 44u8, 92u8, 81u8, 33u8, 140u8, 201u8, 76u8, 61u8, 74u8,
            241u8, 127u8, 88u8, 218u8, 238u8, 8u8, 155u8, 161u8, 253u8, 68u8, 227u8, 219u8, 217u8,
            138u8, 0u8, 0u8, 0u8, 0u8,
        ],
    }
}

/// The identity of the token program.
#[verifier::when_used_as_spec(spec_token_program_id)]
pub fn token_program_id() -> (id: Pubkey)
    ensures
        id == spec_token_program_id(),
{
    Pubkey {
        bytes: [
            6u8, 221u8, 246u8, 225u8, 215u8, 101u8, 161u8, 147u8, 217u8, 203u8, 225u8, 70u8, 206u8,
            235u8, 121u8, 172u8, 28u8, 180u8, 133u8, 237u8, 95u8, 91u8, 55u8, 145u8, 58u8, 140u8,
            245u8, 133u8, 126u8, 255u8, 0u8, 169u8,
        ],
    }
}

/// The address that is derived for a program from seeds, with the bump seed
/// that was found for it: the bytes of the address and the bump seed, or
/// nothing where no address can be derived.
pub uninterp spec fn program_address(seeds: Seq<Seq<u8>>, program_id: Seq<u8>) -> Option<
    (Seq<u8>, u8),
>;

/// `Pubkey::try_find_program_address` of `solana_program`: the address derived
/// for the program from the seeds, and its bump seed. It depends on the seeds
/// and the program alone.
#[verifier::external_body]
pub(crate) fn try_find_program_address(seeds: &Vec<Vec<u8>>, program_id: &Pubkey) -> (found: Option<
    (Pubkey, u8),
>)
    ensures
        match found {
            Some((address, bump)) => program_address(seeds.deep_view(), program_id.bytes@) == Some(
                (address.bytes@, bump),
            ),
            None => program_address(seeds.deep_view(), program_id.bytes@) is None,
        },
{
    let seeds: Vec<&[u8]> = seeds.iter().map(|seed| seed.as_slice()).collect();
    let program_id = solana_program::pubkey::Pubkey::new_from_array(program_id.bytes);
    solana_program::pubkey::Pubkey::try_find_program_address(&seeds, &program_id).map(
        |(address, bump)| (Pubkey { bytes: address.to_bytes() }, bump),
    )
}

} // verus!
