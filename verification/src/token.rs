//! Mints and token accounts of the token program, as far as this program
//! reads them.

use crate::error::ProgramError;
use crate::pubkey::Pubkey;
use crate::wire::key_of;
use vstd::prelude::*;

verus! {

/// A mint of the token program.
#[derive(Clone, Copy, Debug, PartialEq)]
pub struct Mint {
    /// Who may mint new tokens, if anybody.
    pub mint_authority: Option<Pubkey>,
    /// Whether the mint has been initialized.
    pub is_initialized: bool,
}

/// The state of a token account.
#[derive(Clone, Copy, Debug, PartialEq, Eq, Structural)]
pub enum AccountState {
    Uninitialized,
    Initialized,
    Frozen,
}

/// A token account of the token program.
#[derive(Clone, Copy, Debug, PartialEq)]
pub struct TokenAccount {
    /// The mint whose tokens the account holds.
    pub mint: Pubkey,
    pub state: AccountState,
}

/// The tag in front of an optional field of the token program, at the offset
/// `at`: four bytes, 0 for an absent and 1 for a present value, little-endian.
pub open spec fn option_tag(data: Seq<u8>, at: int) -> Option<bool> {
    let tag = data.subrange(at, at + 4);
    if tag == seq![0u8, 0u8, 0u8, 0u8] {
        Some(false)
    } else if tag == seq![1u8, 0u8, 0u8, 0u8] {
        Some(true)
    } else {
        None
    }
}

/// The mint that 82 bytes stand for: the optional mint authority in the first
/// 36, the initialization flag at offset 45, and the tag of the optional
/// freeze authority at offset 46. Other lengths, tags and flags stand for none.
pub open spec fn spec_unpack_mint(data: Seq<u8>) -> Option<Mint> {
    if data.len() == 82 && option_tag(data, 0) is Some && data[45] <= 1 && option_tag(data, 46)
        is Some {
        Some(
            Mint {
                mint_authority: if option_tag(data, 0) == Some(true) {
                    Some(key_of(data.subrange(4, 36)))
                } else {
                    None
                },
                is_initialized: data[45] == 1,
            },
        )
    } else {
        None
    }
}

/// The state that a byte stands for.
pub open spec fn state_of(byte: u8) -> AccountState {
    if byte == 0 {
        AccountState::Uninitialized
    } else if byte == 1 {
        AccountState::Initialized
    } else {
        AccountState::Frozen
    }
}

/// The token account that 165 bytes stand for: the mint in the first 32, the
/// state at offset 108, and the tags of the optional delegate, native reserve
/// and close authority at the offsets 72, 109 and 129. Other lengths, tags
/// and states stand for none.
pub open spec fn spec_unpack_token_account(data: Seq<u8>) -> Option<TokenAccount> {
    if data.len() == 165 && option_tag(data, 72) is Some && data[108] <= 2 && option_tag(data, 109)
        is Some && option_tag(data, 129) is Some {
        Some(TokenAccount { mint: key_of(data.subrange(0, 32)), state: state_of(data[108]) })
    } else {
        None
    }
}

/// `Pack::unpack_unchecked` of `spl_token::state::Mint`, with the failure
/// reduced to `None`: reads a mint from exactly 82 bytes and refuses every
/// other length, an optional authority whose tag is neither 0 nor 1, and an
/// initialization flag that is neither 0 nor 1.
#[verifier::external_body]
fn unpack_mint(input: &[u8]) -> (mint: Option<Mint>)
    ensures
        mint == spec_unpack_mint(input@),
{
    match <spl_token::state::Mint as solana_program::program_pack::Pack>::unpack_unchecked(input) {
        Ok(mint) => Some(
            Mint {
                mint_authority: Option::from(mint.mint_authority).map(
                    |key: solana_program::pubkey::Pubkey| Pubkey { bytes: key.to_bytes() },
                ),
                is_initialized: mint.is_initialized,
            },
        ),
        Err(_) => None,
    }
}

/// `Pack::unpack_unchecked` of `spl_token::state::Account`, with the failure
/// reduced to `None`: reads a token account from exactly 165 bytes and
/// refuses every other length, an optional field whose tag is neither 0 nor
/// 1, and a state other than 0, 1 and 2.
#[verifier::external_body]
fn unpack_token_account(input: &[u8]) -> (account: Option<TokenAccount>)
    ensures
        account == spec_unpack_token_account(input@),
{
    match <spl_token::state::Account as solana_program::program_pack::Pack>::unpack_unchecked(input) {
        Ok(account) => Some(
            TokenAccount {
                mint: Pubkey { bytes: account.mint.to_bytes() },
                state: match account.state {
                    spl_token::state::AccountState::Uninitialized => AccountState::Uninitialized,
                    spl_token::state::AccountState::Initialized => AccountState::Initialized,
                    spl_token::state::AccountState::Frozen => AccountState::Frozen,
                },
            },
        ),
        Err(_) => None,
    }
}

/// A state that tells whether it has been initialized.
pub trait IsInitialized {
    spec fn spec_is_initialized(&self) -> bool;

    fn is_initialized(&self) -> (initialized: bool)
        ensures
            initialized == self.spec_is_initialized(),
    ;
}

/// A state that is stored in the buffer of an account in a fixed form.
pub trait Pack: Sized {
    /// The state that `input` stands for, if it stands for one.
    spec fn unpacked(input: Seq<u8>) -> Option<Self>;

    /// Reads the state from `input`, initialized or not.
    fn unpack_unchecked(input: &[u8]) -> (state: Result<Self, ProgramError>)
        ensures
            state == match Self::unpacked(input@) {
                Some(state) => Ok::<Self, ProgramError>(state),
                None => Err::<Self, ProgramError>(ProgramError::InvalidAccountData),
            },
    ;
}

impl IsInitialized for Mint {
    open spec fn spec_is_initialized(&self) -> bool {
        self.is_initialized
    }

    fn is_initialized(&self) -> (initialized: bool) {
        self.is_initialized
    }
}

impl Pack for Mint {
    open spec fn unpacked(input: Seq<u8>) -> Option<Mint> {
        spec_unpack_mint(input)
    }

    fn unpack_unchecked(input: &[u8]) -> (state: Result<Mint, ProgramError>) {
        match unpack_mint(input) {
            Some(mint) => Ok(mint),
            None => Err(ProgramError::InvalidAccountData),
        }
    }
}

impl IsInitialized for TokenAccount {
    open spec fn spec_is_initialized(&self) -> bool {
        self.state != AccountState::Uninitialized
    }

    fn is_initialized(&self) -> (initialized: bool) {
        self.state != AccountState::Uninitialized
    }
}

impl Pack for TokenAccount {
    open spec fn unpacked(input: Seq<u8>) -> Option<TokenAccount> {
        spec_unpack_token_account(input)
    }

    fn unpack_unchecked(input: &[u8]) -> (state: Result<TokenAccount, ProgramError>) {
        match unpack_token_account(input) {
            Some(account) => Ok(account),
            None => Err(ProgramError::InvalidAccountData),
        }
    }
}

} // verus!
