//! What an operation sees of the accounts it is given, and what it asks the
//! ledger to do in return.
//!
//! An operation never touches the ledger. It reads the accounts as plain
//! values and answers with the actions that carry out its effect, in the order
//! in which they are to be performed. Either all of them are performed or the
//! invocation is discarded as a whole.

use crate::pubkey::Pubkey;
use vstd::prelude::*;

verus! {

/// An account as the ledger hands it to an invocation.
#[derive(Clone, Debug, PartialEq)]
pub struct AccountInfo {
    /// The identity of the account.
    pub key: Pubkey,
    /// The program that owns the account, and alone may change its data.
    pub owner: Pubkey,
    /// The balance of the account.
    pub lamports: u64,
    /// Whether the holder of `key` authorized the invocation.
    pub is_signer: bool,
    /// Whether the invocation may change the account.
    pub is_writable: bool,
    /// The byte buffer of the account.
    pub data: Vec<u8>,
}

/// Which authority of a mint an action replaces.
#[derive(Clone, Copy, Debug, PartialEq, Eq, Structural)]
pub enum AuthorityType {
    /// The authority to mint new tokens.
    MintTokens,
}

/// One request to the ledger.
#[derive(Clone, Debug, PartialEq)]
pub enum Action {
    /// Move `lamports` from `from` to `to`.
    Transfer { from: Pubkey, to: Pubkey, lamports: u64 },
    /// Give the new account `account`, whose address was derived for `mint`
    /// with the bump seed `bump`, a buffer of `space` bytes.
    Allocate { account: Pubkey, space: u64, mint: Pubkey, bump: u8 },
    /// Hand the new account `account`, derived as for `Allocate`, to the program `owner`.
    Assign { account: Pubkey, owner: Pubkey, mint: Pubkey, bump: u8 },
    /// Grow the buffer of `account` to `len` bytes.
    Realloc { account: Pubkey, len: usize },
    /// Replace the first bytes of the buffer of `account` by `data`.
    Write { account: Pubkey, data: Vec<u8> },
    /// Mint `amount` tokens of `mint` to the token account `recipient`.
    MintTo { token_program: Pubkey, mint: Pubkey, recipient: Pubkey, authority: Pubkey, amount: u64 },
    /// Replace an authority of `mint`, held by `current`, by `new_authority`.
    SetAuthority {
        token_program: Pubkey,
        mint: Pubkey,
        new_authority: Option<Pubkey>,
        authority_type: AuthorityType,
        current: Pubkey,
    },
}

/// An action, with the bytes it carries as a sequence.
pub enum ActionView {
    Transfer { from: Pubkey, to: Pubkey, lamports: u64 },
    Allocate { account: Pubkey, space: u64, mint: Pubkey, bump: u8 },
    Assign { account: Pubkey, owner: Pubkey, mint: Pubkey, bump: u8 },
    Realloc { account: Pubkey, len: usize },
    Write { account: Pubkey, data: Seq<u8> },
    MintTo { token_program: Pubkey, mint: Pubkey, recipient: Pubkey, authority: Pubkey, amount: u64 },
    SetAuthority {
        token_program: Pubkey,
        mint: Pubkey,
        new_authority: Option<Pubkey>,
        authority_type: AuthorityType,
        current: Pubkey,
    },
}

impl View for Action {
    type V = ActionView;

    open spec fn view(&self) -> ActionView {
        match *self {
            Action::Transfer { from, to, lamports } => ActionView::Transfer { from, to, lamports },
            Action::Allocate { account, space, mint, bump } => ActionView::Allocate {
                account,
                space,
                mint,
                bump,
            },
            Action::Assign { account, owner, mint, bump } => ActionView::Assign {
                account,
                owner,
                mint,
                bump,
            },
            Action::Realloc { account, len } => ActionView::Realloc { account, len },
            Action::Write { account, data } => ActionView::Write { account, data: data@ },
            Action::MintTo { token_program, mint, recipient, authority, amount } => {
                ActionView::MintTo { token_program, mint, recipient, authority, amount }
            },
            Action::SetAuthority { token_program, mint, new_authority, authority_type, current } => {
                ActionView::SetAuthority {
                    token_program,
                    mint,
                    new_authority,
                    authority_type,
                    current,
                }
            },
        }
    }
}

impl DeepView for Action {
    type V = ActionView;

    open spec fn deep_view(&self) -> ActionView {
        self@
    }
}

/// The buffer `buffer` after `piece` has replaced its first bytes.
pub open spec fn overwritten(buffer: Seq<u8>, piece: Seq<u8>) -> Seq<u8> {
    piece + buffer.subrange(piece.len() as int, buffer.len() as int)
}

/// What the account of a record lacks of the balance that its new size
/// asks for: the minimum, or one lamport where the minimum is nothing, less
/// what the account holds, and nothing where it holds as much.
pub open spec fn rent_shortfall(minimum_balance: u64, balance: u64) -> int {
    let needed = if minimum_balance < 1 {
        1int
    } else {
        minimum_balance as int
    };
    if needed > balance {
        needed - balance
    } else {
        0
    }
}

/// A record that was changed and waits to be stored at its new size.
///
/// What is still open is the balance that the ledger asks of an account of
/// `data.len()` bytes. Once that is known, `settle` gives the actions.
#[derive(Clone, Debug, PartialEq)]
pub struct PendingStore {
    /// The account of the record.
    pub account: Pubkey,
    /// Who pays what the account lacks.
    pub payer: Pubkey,
    /// What the account holds now.
    pub balance: u64,
    /// What brings the buffer of the account to its new size.
    pub resize: Vec<Action>,
    /// The stored form of the record.
    pub data: Vec<u8>,
}

/// A record that waits to be stored, as a mathematical value.
pub struct PendingStoreView {
    pub account: Pubkey,
    pub payer: Pubkey,
    pub balance: u64,
    pub resize: Seq<ActionView>,
    pub data: Seq<u8>,
}

impl View for PendingStore {
    type V = PendingStoreView;

    open spec fn view(&self) -> PendingStoreView {
        PendingStoreView {
            account: self.account,
            payer: self.payer,
            balance: self.balance,
            resize: self.resize.deep_view(),
            data: self.data@,
        }
    }
}

impl PendingStoreView {
    /// The actions that store the record where the ledger asks
    /// `minimum_balance` of its account: the payer first makes up what the
    /// account lacks, then the buffer is brought to its size, and only then
    /// is the record written.
    pub open spec fn settled(self, minimum_balance: u64) -> Seq<ActionView> {
        let shortfall = rent_shortfall(minimum_balance, self.balance);
        let funding = if shortfall > 0 {
            seq![
                ActionView::Transfer { from: self.payer, to: self.account, lamports: shortfall as u64 },
            ]
        } else {
            Seq::<ActionView>::empty()
        };
        funding + self.resize + seq![ActionView::Write { account: self.account, data: self.data }]
    }
}

impl PendingStore {
    /// The number of bytes that the account must have.
    pub fn len(&self) -> (len: usize)
        ensures
            len == self@.data.len(),
    {
        self.data.len()
    }

    /// The actions that store the record, given the balance that the ledger
    /// asks of an account of `self.len()` bytes.
    pub fn settle(self, minimum_balance: u64) -> (actions: Vec<Action>)
        ensures
            actions.deep_view() == self@.settled(minimum_balance),
    {
        let PendingStore { account, payer, balance, resize, data } = self;
        let needed = if minimum_balance < 1 {
            1
        } else {
            minimum_balance
        };
        let required_lamports = needed.saturating_sub(balance);
        let mut actions: Vec<Action> = Vec::new();
        assert(actions.deep_view() =~= Seq::<ActionView>::empty());
        if required_lamports > 0 {
            push_action(
                &mut actions,
                Action::Transfer { from: payer, to: account, lamports: required_lamports },
            );
        }
        let mut resize = resize;
        append_actions(&mut actions, &mut resize);
        push_action(&mut actions, Action::Write { account, data });
        proof {
            assert(actions.deep_view() =~= self@.settled(minimum_balance));
        }
        actions
    }
}

/// What is left to do after an instruction has been decided.
#[derive(Clone, Debug, PartialEq)]
pub enum Step {
    /// Perform the actions, in their order.
    Done(Vec<Action>),
    /// Ask the ledger which balance it asks of an account of
    /// `PendingStore::len` bytes, and perform the actions of `PendingStore::settle`.
    Store(PendingStore),
}

/// A step as a mathematical value.
pub enum StepView {
    Done(Seq<ActionView>),
    Store(PendingStoreView),
}

impl View for Step {
    type V = StepView;

    open spec fn view(&self) -> StepView {
        match self {
            Step::Done(actions) => StepView::Done(actions.deep_view()),
            Step::Store(pending) => StepView::Store(pending@),
        }
    }
}

/// Puts `action` behind the actions of `actions`.
pub fn push_action(actions: &mut Vec<Action>, action: Action)
    ensures
        final(actions).deep_view() == old(actions).deep_view().push(action@),
{
    actions.push(action);
    assert(actions.deep_view() =~= old(actions).deep_view().push(action@));
}

/// Moves the actions of `more` behind those of `actions`.
pub fn append_actions(actions: &mut Vec<Action>, more: &mut Vec<Action>)
    ensures
        final(actions).deep_view() == old(actions).deep_view() + old(more).deep_view(),
        final(more)@.len() == 0,
{
    actions.append(more);
    assert(actions.deep_view() =~= old(actions).deep_view() + old(more).deep_view());
}

} // verus!
