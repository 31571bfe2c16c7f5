//! Failures reported to the caller of an operation.

use vstd::prelude::*;

verus! {

/// The failures that the metadata program itself raises.
///
/// The order of the variants fixes the numeric code of each failure.
#[derive(Clone, Copy, Debug, PartialEq, Eq, Structural)]
pub enum ReeMetaError {
    /// Malformed payload, or wrong fixed system accounts supplied.
    InvalidInstruction,
    /// A referenced account has not been initialized by its owning program.
    Uninitialized,
    /// The mint authority is not the expected identity.
    InvalidMintAuthority,
    /// The account's owner is not the expected program.
    IncorrectOwner,
    /// The operation is not defined for the record's payload kind.
    InvalidNFTKind,
    /// The record has no update authority.
    NoUpdateAuthority,
    /// The caller did not sign, or is not the stored update authority.
    InvalidUpdateAuthority,
    /// The record can no longer be modified.
    AlreadyLocked,
    /// The record has no royalty system.
    NoRoyalties,
    /// The first royalty holder has less share than was requested.
    InsufficientShare,
    /// The royalty accounts supplied do not match the stored holders, in order.
    RoyaltyAddressInvalid,
}

impl ReeMetaError {
    /// The numeric code of a failure: its position in the enumeration.
    pub open spec fn spec_code(self) -> u32 {
        match self {
            ReeMetaError::InvalidInstruction => 0,
            ReeMetaError::Uninitialized => 1,
            ReeMetaError::InvalidMintAuthority => 2,
            ReeMetaError::IncorrectOwner => 3,
            ReeMetaError::InvalidNFTKind => 4,
            ReeMetaError::NoUpdateAuthority => 5,
            ReeMetaError::InvalidUpdateAuthority => 6,
            ReeMetaError::AlreadyLocked => 7,
            ReeMetaError::NoRoyalties => 8,
            ReeMetaError::InsufficientShare => 9,
            ReeMetaError::RoyaltyAddressInvalid => 10,
        }
    }

    /// The failure with a given numeric code, if there is one.
    pub open spec fn spec_from_code(code: u32) -> Option<ReeMetaError> {
        if code == 0 {
            Some(ReeMetaError::InvalidInstruction)
        } else if code == 1 {
            Some(ReeMetaError::Uninitialized)
        } else if code == 2 {
            Some(ReeMetaError::InvalidMintAuthority)
        } else if code == 3 {
            Some(ReeMetaError::IncorrectOwner)
        } else if code == 4 {
            Some(ReeMetaError::InvalidNFTKind)
        } else if code == 5 {
            Some(ReeMetaError::NoUpdateAuthority)
        } else if code == 6 {
            Some(ReeMetaError::InvalidUpdateAuthority)
        } else if code == 7 {
            Some(ReeMetaError::AlreadyLocked)
        } else if code == 8 {
            Some(ReeMetaError::NoRoyalties)
        } else if code == 9 {
            Some(ReeMetaError::InsufficientShare)
        } else if code == 10 {
            Some(ReeMetaError::RoyaltyAddressInvalid)
        } else {
            None
        }
    }

    /// The text shown for a failure.
    pub open spec fn spec_message(self) -> Seq<char> {
        match self {
            ReeMetaError::InvalidInstruction => "Invalid Instruction"@,
            ReeMetaError::Uninitialized => "Uninitialized"@,
            ReeMetaError::InvalidMintAuthority => "invalid Mint authority"@,
            ReeMetaError::IncorrectOwner => "Invalid ownership"@,
            ReeMetaError::InvalidNFTKind => "Invalid Kind"@,
            ReeMetaError::NoUpdateAuthority => "No Update Authority"@,
            ReeMetaError::InvalidUpdateAuthority => "invalid update authority"@,
            ReeMetaError::AlreadyLocked => "Already Locked"@,
            ReeMetaError::NoRoyalties => "No Royalty System"@,
            ReeMetaError::InsufficientShare => "Insufficient Share"@,
            ReeMetaError::RoyaltyAddressInvalid => "Royalty Address Invalid"@,
        }
    }

    /// The numeric code of the failure.
    pub fn code(&self) -> (code: u32)
        ensures
            code == self.spec_code(),
    {
        match self {
            ReeMetaError::InvalidInstruction => 0,
            ReeMetaError::Uninitialized => 1,
            ReeMetaError::InvalidMintAuthority => 2,
            ReeMetaError::IncorrectOwner => 3,
            ReeMetaError::InvalidNFTKind => 4,
            ReeMetaError::NoUpdateAuthority => 5,
            ReeMetaError::InvalidUpdateAuthority => 6,
            ReeMetaError::AlreadyLocked => 7,
            ReeMetaError::NoRoyalties => 8,
            ReeMetaError::InsufficientShare => 9,
            ReeMetaError::RoyaltyAddressInvalid => 10,
        }
    }

    /// The failure with the numeric code `code`, if there is one.
    pub fn from_code(code: u32) -> (error: Option<ReeMetaError>)
        ensures
            error == ReeMetaError::spec_from_code(code),
    {
        match code {
            0 => Some(ReeMetaError::InvalidInstruction),
            1 => Some(ReeMetaError::Uninitialized),
            2 => Some(ReeMetaError::InvalidMintAuthority),
            3 => Some(ReeMetaError::IncorrectOwner),
            4 => Some(ReeMetaError::InvalidNFTKind),
            5 => Some(ReeMetaError::NoUpdateAuthority),
            6 => Some(ReeMetaError::InvalidUpdateAuthority),
            7 => Some(ReeMetaError::AlreadyLocked),
            8 => Some(ReeMetaError::NoRoyalties),
            9 => Some(ReeMetaError::InsufficientShare),
            10 => Some(ReeMetaError::RoyaltyAddressInvalid),
            _ => None,
        }
    }

    /// The text shown for the failure.
    pub fn message(&self) -> (text: String)
        ensures
            text@ == self.spec_message(),
    {
        let text: &str = match self {
            ReeMetaError::InvalidInstruction => "Invalid Instruction",
            ReeMetaError::Uninitialized => "Uninitialized",
            ReeMetaError::InvalidMintAuthority => "invalid Mint authority",
            ReeMetaError::IncorrectOwner => "Invalid ownership",
            ReeMetaError::InvalidNFTKind => "Invalid Kind",
            ReeMetaError::NoUpdateAuthority => "No Update Authority",
            ReeMetaError::InvalidUpdateAuthority => "invalid update authority",
            ReeMetaError::AlreadyLocked => "Already Locked",
            ReeMetaError::NoRoyalties => "No Royalty System",
            ReeMetaError::InsufficientShare => "Insufficient Share",
            ReeMetaError::RoyaltyAddressInvalid => "Royalty Address Invalid",
        };
        text.to_owned()
    }

    /// The name under which this family of failures is reported.
    pub fn type_of() -> (name: &'static str)
        ensures
            name@ == "Metadata Error"@,
    {
        "Metadata Error"
    }

    /// A code names the failure it was taken from, and no other.
    pub proof fn lemma_code_round_trip(self)
        ensures
            ReeMetaError::spec_from_code(self.spec_code()) == Some(self),
    {
    }

    /// A failure found for a code has that code.
    pub proof fn lemma_from_code_sound(code: u32)
        ensures
            ReeMetaError::spec_from_code(code) matches Some(error) ==> error.spec_code() == code,
    {
    }
}

/// Why an operation was refused.
#[derive(Clone, Copy, Debug, PartialEq, Eq, Structural)]
pub enum ProgramError {
    /// A failure of the metadata program, by its numeric code.
    Custom(u32),
    /// The data of an account of another program could not be read.
    InvalidAccountData,
    /// Fewer accounts were supplied than the operation reads.
    NotEnoughAccountKeys,
    /// A program account is not the program that was expected.
    IncorrectProgramId,
    /// A record could not be read from, or written to, an account's data.
    BorshIoError,
}

impl From<ReeMetaError> for ProgramError {
    fn from(error: ReeMetaError) -> (failure: ProgramError) {
        ProgramError::Custom(error.code())
    }
}

impl vstd::std_specs::convert::FromSpecImpl<ReeMetaError> for ProgramError {
    open spec fn obeys_from_spec() -> bool {
        true
    }

    open spec fn from_spec(error: ReeMetaError) -> ProgramError {
        ProgramError::Custom(error.spec_code())
    }
}

/// The failure that reports `error` to the caller.
pub open spec fn custom(error: ReeMetaError) -> ProgramError {
    ProgramError::Custom(error.spec_code())
}

/// Reports `error` to the caller.
pub fn fail<T>(error: ReeMetaError) -> (refused: Result<T, ProgramError>)
    ensures
        refused == Err::<T, ProgramError>(custom(error)),
{
    Err(ProgramError::from(error))
}

} // verus!
