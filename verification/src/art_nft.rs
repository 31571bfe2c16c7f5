//! Royalty-bearing records: locking them, entering royalty holders, and
//! splitting a payment among the holders.

use crate::account::{push_action, AccountInfo, Action, ActionView, PendingStore, PendingStoreView};
use crate::error::{custom, fail, ProgramError, ReeMetaError};
use crate::instruction::{AddRoyaltyArgs, NftTransactionArgs};
use crate::pubkey::{rent_sysvar_id, system_program_id, Pubkey};
use crate::state::{
    lemma_art_nft_size, ArtNft, ArtNftView, Metadata, MetadataData, MetadataView, Royalty,
};
use crate::utils::{assert_update_authority, lock, lock_outcome, refusal, store, stored};
use vstd::prelude::*;

verus! {

/// The shares of the first `count` royalties, added up.
pub open spec fn share_sum(royalties: Seq<Royalty>, count: int) -> int
    decreases count,
{
    if count <= 0 {
        0
    } else {
        share_sum(royalties, count - 1) + royalties[count - 1].share
    }
}

/// The shares of all the royalties, added up.
pub open spec fn total_share(royalties: Seq<Royalty>) -> int {
    share_sum(royalties, royalties.len() as int)
}

/// The sum of the first shares depends on those shares alone.
pub proof fn lemma_share_sum_same(first: Seq<Royalty>, second: Seq<Royalty>, count: int)
    requires
        count <= first.len(),
        count <= second.len(),
        forall|i: int| 0 <= i < count ==> first[i].share == second[i].share,
    ensures
        share_sum(first, count) == share_sum(second, count),
    decreases count,
{
    if count > 0 {
        lemma_share_sum_same(first, second, count - 1);
    }
}

/// Shares add up to more and more, and no share is more than the whole.
pub proof fn lemma_share_sum_grows(royalties: Seq<Royalty>, fewer: int, count: int)
    requires
        0 <= fewer <= count <= royalties.len(),
    ensures
        0 <= share_sum(royalties, fewer) <= share_sum(royalties, count),
        fewer < count ==> share_sum(royalties, fewer) + royalties[fewer].share <= share_sum(
            royalties,
            count,
        ),
    decreases count,
{
    if fewer < count {
        lemma_share_sum_grows(royalties, fewer, count - 1);
    } else if count > 0 {
        lemma_share_sum_grows(royalties, fewer - 1, count - 1);
    }
}

/// The royalties after a new holder has taken over `share` from the first
/// one: the first entry holds that much less, every other entry is as it was,
/// and the new entry stands at the end.
pub open spec fn with_royalty(royalties: Seq<Royalty>, holder: Pubkey, share: u16) -> Seq<Royalty>
    recommends
        royalties.len() > 0,
        royalties[0].share >= share,
{
    royalties.update(
        0,
        Royalty { share: (royalties[0].share - share) as u16, ..royalties[0] },
    ).push(Royalty { address: holder, share, verified: true })
}

/// Entering a holder moves share and makes none: the shares add up to what
/// they added up to before.
pub proof fn lemma_share_transfer(royalties: Seq<Royalty>, holder: Pubkey, share: u16)
    requires
        royalties.len() > 0,
        royalties[0].share >= share,
    ensures
        total_share(with_royalty(royalties, holder, share)) == total_share(royalties),
        with_royalty(royalties, holder, share).len() == royalties.len() + 1,
{
    let count = royalties.len() as int;
    let lowered = royalties.update(
        0,
        Royalty { share: (royalties[0].share - share) as u16, ..royalties[0] },
    );
    let grown = with_royalty(royalties, holder, share);
    lemma_share_sum_same(grown, lowered, count);
    lemma_lowered_sum(royalties, lowered, share as int, count);
}

proof fn lemma_lowered_sum(royalties: Seq<Royalty>, lowered: Seq<Royalty>, share: int, count: int)
    requires
        1 <= count <= royalties.len(),
        lowered.len() == royalties.len(),
        lowered[0].share == royalties[0].share - share,
        forall|i: int| 1 <= i < royalties.len() ==> lowered[i].share == royalties[i].share,
    ensures
        share_sum(lowered, count) == share_sum(royalties, count) - share,
    decreases count,
{
    if count > 1 {
        lemma_lowered_sum(royalties, lowered, share, count - 1);
    } else {
        assert(share_sum(lowered, 0) == 0);
        assert(share_sum(royalties, 0) == 0);
    }
}

/// The royalties of a new record: the first holder has the full share.
pub open spec fn genesis(holder: Pubkey) -> Seq<Royalty> {
    seq![Royalty { address: holder, share: 100, verified: true }]
}

/// The royalties after a run of requests, each by a holder for a share. A
/// request for more than the first holder has is refused and changes nothing.
pub open spec fn after_requests(royalties: Seq<Royalty>, requests: Seq<(Pubkey, u16)>) -> Seq<
    Royalty,
>
    decreases requests.len(),
{
    if requests.len() == 0 {
        royalties
    } else {
        let before = after_requests(royalties, requests.drop_last());
        let (holder, share) = requests.last();
        if before.len() > 0 && before[0].share >= share {
            with_royalty(before, holder, share)
        } else {
            before
        }
    }
}

/// Whatever is requested of a new record, and in whatever order, its shares
/// add up to 100 after every request.
pub proof fn lemma_shares_conserved(holder: Pubkey, requests: Seq<(Pubkey, u16)>)
    ensures
        total_share(after_requests(genesis(holder), requests)) == 100,
        after_requests(genesis(holder), requests).len() >= 1,
    decreases requests.len(),
{
    if requests.len() == 0 {
        reveal_with_fuel(share_sum, 2);
    } else {
        lemma_shares_conserved(holder, requests.drop_last());
        let before = after_requests(genesis(holder), requests.drop_last());
        let (new_holder, share) = requests.last();
        if before[0].share >= share {
            lemma_share_transfer(before, new_holder, share);
        }
    }
}

/// Moves `share` from the first royalty holder to the new holder `holder`,
/// who is entered at the end. Where there is no first holder, or where the
/// first holder has less than `share`, nothing is changed.
pub fn transfer_share(
    royalties: &mut Vec<Royalty>,
    holder: Pubkey,
    share: u16,
) -> (moved: Result<(), ProgramError>)
    ensures
        moved == if old(royalties)@.len() == 0 || old(royalties)@[0].share < share {
            Err::<(), ProgramError>(custom(ReeMetaError::InsufficientShare))
        } else {
            Ok::<(), ProgramError>(())
        },
        final(royalties)@ == if moved is Ok {
            with_royalty(old(royalties)@, holder, share)
        } else {
            old(royalties)@
        },
        moved is Ok ==> total_share(final(royalties)@) == total_share(old(royalties)@),
{
    if royalties.len() == 0 || royalties[0].share < share {
        return fail(ReeMetaError::InsufficientShare);
    }
    proof {
        lemma_share_transfer(royalties@, holder, share);
    }
    let first = royalties[0];
    let new_royalty = Royalty { address: holder, share: share, verified: true };
    royalties.set(
        0,
        Royalty { address: first.address, share: first.share - share, verified: first.verified },
    );
    royalties.push(new_royalty);
    Ok(())
}

/// Locks a royalty-bearing record: asks for the record, no longer
/// modifiable, to be written to its account.
pub fn lock_nft(
    metadata: Metadata<ArtNft>,
    metadata_account_info: &AccountInfo,
    update_authority_account_info: &AccountInfo,
) -> (outcome: Result<Vec<Action>, ProgramError>)
    ensures
        match outcome {
            Ok(actions) => lock_outcome::<ArtNft>(
                metadata@,
                *metadata_account_info,
                *update_authority_account_info,
            ) == Ok::<Seq<ActionView>, ProgramError>(actions.deep_view()),
            Err(error) => lock_outcome::<ArtNft>(
                metadata@,
                *metadata_account_info,
                *update_authority_account_info,
            ) == Err::<Seq<ActionView>, ProgramError>(error),
        },
{
    lock(metadata, metadata_account_info, update_authority_account_info)
}

/// A record after a new holder has taken over `share` from the first one.
pub open spec fn with_holder(record: MetadataView<ArtNftView>, holder: Pubkey, share: u16)
    -> MetadataView<ArtNftView> {
    MetadataView {
        data: ArtNftView {
            royalties: with_royalty(record.data.royalties, holder, share),
            ..record.data
        },
        ..record
    }
}

/// A record with a new holder takes the 35 bytes of one royalty more than
/// it took before.
pub proof fn lemma_holder_grows_record(record: MetadataView<ArtNftView>, holder: Pubkey, share: u16)
    requires
        record.data.royalties.len() > 0,
    ensures
        Metadata::<ArtNft>::encoding(with_holder(record, holder, share)).len()
            == Metadata::<ArtNft>::encoding(record).len() + 35,
{
    let grown = with_holder(record, holder, share);
    assert(grown.data.royalties.len() == record.data.royalties.len() + 1);
    Metadata::<ArtNft>::lemma_size(record);
    Metadata::<ArtNft>::lemma_size(grown);
    lemma_art_nft_size(record.data);
    lemma_art_nft_size(grown.data);
}

/// What entering a royalty holder comes to. The accounts are the account of
/// the record, the payer, the update authority, the new holder, the system
/// program and the rent parameters. The request is refused, in this order:
/// where an account is missing; where the last two are not what they must
/// be; where the authority may not change the record; where the first holder
/// has less than the share. Else the record with the new holder waits to be
/// stored in its account, grown to the size of the record.
pub open spec fn add_royalty_outcome(
    accounts: Seq<AccountInfo>,
    record: MetadataView<ArtNftView>,
    share: u16,
) -> Result<PendingStoreView, ProgramError> {
    if accounts.len() < 6 {
        Err(ProgramError::NotEnoughAccountKeys)
    } else if accounts[4].key != system_program_id() || accounts[5].key != rent_sysvar_id() {
        Err(custom(ReeMetaError::InvalidInstruction))
    } else {
        match refusal(record, accounts[2]) {
            Some(error) => Err(custom(error)),
            None => if record.data.royalties.len() == 0 || record.data.royalties[0].share < share {
                Err(custom(ReeMetaError::InsufficientShare))
            } else {
                let grown = with_holder(record, accounts[3].key, share);
                let bytes = Metadata::<ArtNft>::encoding(grown);
                if ArtNft::storable(grown.data) {
                    Ok(
                        PendingStoreView {
                            account: accounts[0].key,
                            payer: accounts[1].key,
                            balance: accounts[0].lamports,
                            resize: seq![
                                ActionView::Realloc {
                                    account: accounts[0].key,
                                    len: bytes.len() as usize,
                                },
                            ],
                            data: bytes,
                        },
                    )
                } else {
                    Err(ProgramError::BorshIoError)
                }
            },
        }
    }
}

/// Entering a holder changes nothing of a record but its royalties, and
/// among these it moves share without making or losing any: where the
/// request is granted, what waits to be stored is the record with the new
/// holder, and its shares add up to what they added up to before.
pub proof fn lemma_add_royalty_conserves(
    accounts: Seq<AccountInfo>,
    record: MetadataView<ArtNftView>,
    share: u16,
)
    requires
        add_royalty_outcome(accounts, record, share) is Ok,
    ensures
        add_royalty_outcome(accounts, record, share)->Ok_0.data == Metadata::<ArtNft>::encoding(
            with_holder(record, accounts[3].key, share),
        ),
        total_share(with_holder(record, accounts[3].key, share).data.royalties) == total_share(
            record.data.royalties,
        ),
        with_holder(record, accounts[3].key, share).data.royalties.len()
            == record.data.royalties.len() + 1,
{
    lemma_share_transfer(record.data.royalties, accounts[3].key, share);
}

/// Where the accounts are in order, a locked record takes no new holder,
/// and a record that may be changed takes none for more than its first
/// holder has.
pub proof fn lemma_add_royalty_refused(
    accounts: Seq<AccountInfo>,
    record: MetadataView<ArtNftView>,
    share: u16,
)
    requires
        accounts.len() >= 6,
        accounts[4].key == system_program_id(),
        accounts[5].key == rent_sysvar_id(),
    ensures
        !record.is_modifiable ==> add_royalty_outcome(accounts, record, share) == Err::<
            PendingStoreView,
            ProgramError,
        >(custom(ReeMetaError::AlreadyLocked)),
        refusal(record, accounts[2]) is None && (record.data.royalties.len() == 0
            || record.data.royalties[0].share < share) ==> add_royalty_outcome(
            accounts,
            record,
            share,
        ) == Err::<PendingStoreView, ProgramError>(custom(ReeMetaError::InsufficientShare)),
{
}

/// Enters a royalty holder, who takes over a share of the first one.
pub fn add_royalty(
    accounts: &[AccountInfo],
    metadata: Metadata<ArtNft>,
    data: AddRoyaltyArgs,
) -> (outcome: Result<PendingStore, ProgramError>)
    ensures
        match outcome {
            Ok(pending) => add_royalty_outcome(accounts@, metadata@, data.share) == Ok::<
                PendingStoreView,
                ProgramError,
            >(pending@),
            Err(error) => add_royalty_outcome(accounts@, metadata@, data.share) == Err::<
                PendingStoreView,
                ProgramError,
            >(error),
        },
{
    if accounts.len() < 6 {
        return Err(ProgramError::NotEnoughAccountKeys);
    }
    let metadata_account_info = &accounts[0];
    let payer_account_info = &accounts[1];
    let update_authority_account_info = &accounts[2];
    let new_royalty_account_info = &accounts[3];
    let system_info = &accounts[4];
    let rent_info = &accounts[5];
    if system_info.key != system_program_id() || rent_info.key != rent_sysvar_id() {
        return fail(ReeMetaError::InvalidInstruction);
    }
    match assert_update_authority(&metadata, update_authority_account_info) {
        Ok(_) => {},
        Err(error) => return Err(error),
    }
    let ghost before = metadata@;
    let mut metadata = metadata;
    match transfer_share(&mut metadata.data.royalties, new_royalty_account_info.key, data.share) {
        Ok(_) => {},
        Err(error) => return Err(error),
    }
    let bytes = match metadata.to_bytes() {
        Ok(bytes) => bytes,
        Err(error) => return Err(error),
    };
    let mut resize: Vec<Action> = Vec::new();
    resize.push(Action::Realloc { account: metadata_account_info.key, len: bytes.len() });
    let pending = PendingStore {
        account: metadata_account_info.key,
        payer: payer_account_info.key,
        balance: metadata_account_info.lamports,
        resize,
        data: bytes,
    };
    proof {
        let expected = add_royalty_outcome(accounts@, before, data.share);
        assert(metadata@ == with_holder(before, accounts@[3].key, data.share));
        assert(pending@.resize =~= expected->Ok_0.resize);
    }
    Ok(pending)
}

/// `percent` hundredths of `amount`, rounded down.
pub open spec fn percent_of(percent: int, amount: int) -> int {
    amount * percent / 100
}

/// What goes to the royalty holders of a payment of `amount`: all of a first
/// sale, and the resale fee of a later one.
pub open spec fn royalty_payout(payload: ArtNftView, amount: u64) -> int {
    if !payload.initial_sale {
        amount as int
    } else {
        percent_of(payload.resale_fee as int, amount as int)
    }
}

/// What goes to the seller of a payment of `amount`: what the royalty
/// holders do not get.
pub open spec fn target_payout(payload: ArtNftView, amount: u64) -> int {
    amount - royalty_payout(payload, amount)
}

/// What the first `count` holders get of `pool` by their shares, each share
/// rounded down on its own.
pub open spec fn shares_paid(royalties: Seq<Royalty>, pool: int, count: int) -> int
    decreases count,
{
    if count <= 0 {
        0
    } else {
        shares_paid(royalties, pool, count - 1) + percent_of(
            royalties[count - 1].share as int,
            pool,
        )
    }
}

/// What the holder at position `i` gets of `pool`: the last holder gets what
/// the others leave, and each other holder gets its share, rounded down.
pub open spec fn holder_payout(royalties: Seq<Royalty>, pool: int, i: int) -> int {
    if i == royalties.len() - 1 {
        pool - shares_paid(royalties, pool, i)
    } else {
        percent_of(royalties[i].share as int, pool)
    }
}

/// What the first `count` holders get of `pool`, added up.
pub open spec fn paid_out(royalties: Seq<Royalty>, pool: int, count: int) -> int
    decreases count,
{
    if count <= 0 {
        0
    } else {
        paid_out(royalties, pool, count - 1) + holder_payout(royalties, pool, count - 1)
    }
}

/// The holders together get the pool, to the last unit: rounding neither
/// makes nor loses any of it, however many holders there are and whatever
/// their shares.
pub proof fn lemma_payouts_conserved(royalties: Seq<Royalty>, pool: int)
    requires
        royalties.len() >= 1,
    ensures
        paid_out(royalties, pool, royalties.len() as int) == pool,
{
    let last = royalties.len() - 1;
    lemma_paid_out_by_shares(royalties, pool, last);
}

proof fn lemma_paid_out_by_shares(royalties: Seq<Royalty>, pool: int, count: int)
    requires
        0 <= count < royalties.len(),
    ensures
        paid_out(royalties, pool, count) == shares_paid(royalties, pool, count),
    decreases count,
{
    if count > 0 {
        lemma_paid_out_by_shares(royalties, pool, count - 1);
    }
}

/// What holders get by their shares is no more of the pool than their
/// shares, in hundredths, are of the whole.
pub proof fn lemma_shares_paid_bound(royalties: Seq<Royalty>, pool: int, count: int)
    requires
        0 <= pool,
        0 <= count <= royalties.len(),
    ensures
        0 <= shares_paid(royalties, pool, count),
        100 * shares_paid(royalties, pool, count) <= pool * share_sum(royalties, count),
    decreases count,
{
    if count > 0 {
        lemma_shares_paid_bound(royalties, pool, count - 1);
        let share = royalties[count - 1].share as int;
        let before = share_sum(royalties, count - 1);
        assert(pool * share >= 0) by (nonlinear_arith)
            requires
                pool >= 0,
                share >= 0,
        ;
        assert(pool * (before + share) == pool * before + pool * share) by (nonlinear_arith);
    } else {
        assert(pool * 0 == 0) by (nonlinear_arith);
    }
}

/// Holders whose shares add up to no more than the whole get no more than
/// the pool, so that the last holder gets what is left and no payout is
/// negative.
pub proof fn lemma_payouts_in_pool(royalties: Seq<Royalty>, pool: int, i: int)
    requires
        0 <= pool,
        total_share(royalties) <= 100,
        0 <= i < royalties.len(),
    ensures
        0 <= shares_paid(royalties, pool, i) <= pool,
        0 <= holder_payout(royalties, pool, i) <= pool,
        royalties[i].share <= 100,
{
    let count = royalties.len() as int;
    lemma_shares_paid_bound(royalties, pool, i);
    lemma_shares_paid_bound(royalties, pool, i + 1);
    lemma_share_sum_grows(royalties, i, count);
    lemma_share_sum_grows(royalties, i + 1, count);
    let sum = share_sum(royalties, i);
    let more = share_sum(royalties, i + 1);
    assert(pool * sum <= pool * 100) by (nonlinear_arith)
        requires
            pool >= 0,
            sum <= 100,
    ;
    assert(pool * more <= pool * 100) by (nonlinear_arith)
        requires
            pool >= 0,
            more <= 100,
    ;
}

/// The fee of a payment is no more than the payment.
pub proof fn lemma_percent_in_amount(percent: int, amount: int)
    requires
        0 <= percent <= 100,
        0 <= amount,
    ensures
        0 <= percent_of(percent, amount) <= amount,
{
    assert(0 <= amount * percent <= amount * 100) by (nonlinear_arith)
        requires
            0 <= percent <= 100,
            0 <= amount,
    ;
}

/// `Percentage::from(percent).apply_to(amount)` of the crate `percentage`,
/// computed at 128 bits so that the product cannot overflow: `percent`
/// hundredths of `amount`, rounded down. `Percentage::from` panics above 100.
#[verifier::external_body]
fn apply_percentage(percent: u16, amount: u64) -> (part: u64)
    requires
        percent <= 100,
    ensures
        part == percent_of(percent as int, amount as int),
{
    percentage::Percentage::from(percent).apply_to(amount as u128) as u64
}

/// Whether a payment can be split by a payload: its shares add up to no more
/// than the whole, and, once the first sale is over, its resale fee is no
/// more than the whole.
pub open spec fn payable(payload: ArtNftView) -> bool {
    &&& total_share(payload.royalties) <= 100
    &&& payload.initial_sale ==> payload.resale_fee <= 100
}

impl ArtNft {
    /// Whether a payment can be split by this payload.
    pub fn is_payable(&self) -> (payable: bool)
        ensures
            payable == self::payable(self@),
    {
        if self.initial_sale && self.resale_fee > 100 {
            return false;
        }
        let count = self.royalties.len();
        let mut sum: u64 = 0;
        let mut i: usize = 0;
        while i < count
            invariant
                i <= count,
                count == self.royalties@.len(),
                sum == share_sum(self.royalties@, i as int),
                sum <= 100,
            decreases count - i,
        {
            sum = sum + self.royalties[i].share as u64;
            i += 1;
            if sum > 100 {
                proof {
                    lemma_share_sum_grows(self.royalties@, i as int, count as int);
                }
                return false;
            }
        }
        true
    }
}

/// The lamports that the first `count` actions move, added up.
pub open spec fn lamports_moved(actions: Seq<ActionView>, count: int) -> int
    decreases count,
{
    if count <= 0 {
        0
    } else {
        lamports_moved(actions, count - 1) + match actions[count - 1] {
            ActionView::Transfer { lamports, .. } => lamports as int,
            _ => 0int,
        }
    }
}

/// The payments to the royalty holders move the royalty payout, to the last
/// lamport: no value is made, and none is lost, by rounding.
pub proof fn lemma_royalties_paid_in_full(payer: Pubkey, royalties: Seq<Royalty>, pool: int)
    requires
        royalties.len() >= 1,
        0 <= pool <= u64::MAX,
        total_share(royalties) <= 100,
    ensures
        lamports_moved(royalty_transfers(payer, royalties, pool), royalties.len() as int) == pool,
{
    lemma_payouts_conserved(royalties, pool);
    lemma_moved_is_paid_out(payer, royalties, pool, royalties.len() as int);
}

proof fn lemma_moved_is_paid_out(payer: Pubkey, royalties: Seq<Royalty>, pool: int, count: int)
    requires
        0 <= pool <= u64::MAX,
        total_share(royalties) <= 100,
        0 <= count <= royalties.len(),
    ensures
        lamports_moved(royalty_transfers(payer, royalties, pool), count) == paid_out(
            royalties,
            pool,
            count,
        ),
    decreases count,
{
    if count > 0 {
        lemma_moved_is_paid_out(payer, royalties, pool, count - 1);
        lemma_payouts_in_pool(royalties, pool, count - 1);
    }
}

/// Whether the account of the holder at position `i` stands where it must:
/// behind the four fixed accounts, at the position of the holder.
pub open spec fn holder_supplied(accounts: Seq<AccountInfo>, royalties: Seq<Royalty>, i: int) -> bool {
    4 + i < accounts.len() && accounts[4 + i].key == royalties[i].address
}

/// The first holder from position `from` on whose account is missing or is
/// another account.
pub open spec fn first_unsupplied(accounts: Seq<AccountInfo>, royalties: Seq<Royalty>, from: int)
    -> Option<int>
    decreases royalties.len() - from,
{
    if from < 0 || from >= royalties.len() {
        None
    } else if !holder_supplied(accounts, royalties, from) {
        Some(from)
    } else {
        first_unsupplied(accounts, royalties, from + 1)
    }
}

/// The payments to the royalty holders, in their order.
pub open spec fn royalty_transfers(payer: Pubkey, royalties: Seq<Royalty>, pool: int) -> Seq<
    ActionView,
> {
    Seq::new(
        royalties.len(),
        |i: int|
            ActionView::Transfer {
                from: payer,
                to: royalties[i].address,
                lamports: holder_payout(royalties, pool, i) as u64,
            },
    )
}

/// A record after its first sale.
pub open spec fn sold(record: MetadataView<ArtNftView>) -> MetadataView<ArtNftView> {
    MetadataView { data: ArtNftView { initial_sale: true, ..record.data }, ..record }
}

/// What a payment of `amount` comes to. The accounts are the account of the
/// record, the payer, the seller and the system program, followed by the
/// royalty holders in the order of the record.
///
/// The payment is refused where one of the four is missing, where the fourth
/// is not the system program, and where the account of a holder is missing
/// or is not the holder's: the first such holder decides which. Else every
/// holder is paid its part of the royalty payout, in order. After a first
/// sale the record, now sold, is written back, and the seller gets nothing;
/// the payment fails where the record cannot be written. After a later sale
/// the seller is paid what is left, unless that is nothing.
pub open spec fn transaction_outcome(
    accounts: Seq<AccountInfo>,
    record: MetadataView<ArtNftView>,
    amount: u64,
) -> Result<Seq<ActionView>, ProgramError> {
    if accounts.len() < 4 {
        Err(ProgramError::NotEnoughAccountKeys)
    } else if accounts[3].key != system_program_id() {
        Err(custom(ReeMetaError::InvalidInstruction))
    } else {
        match first_unsupplied(accounts, record.data.royalties, 0) {
            Some(i) => if 4 + i < accounts.len() {
                Err(custom(ReeMetaError::RoyaltyAddressInvalid))
            } else {
                Err(ProgramError::NotEnoughAccountKeys)
            },
            None => {
                let pool = royalty_payout(record.data, amount);
                let rest = target_payout(record.data, amount);
                let transfers = royalty_transfers(accounts[1].key, record.data.royalties, pool);
                if !record.data.initial_sale {
                    match stored::<ArtNft>(sold(record), accounts[0]) {
                        Ok(write) => Ok(transfers.push(write)),
                        Err(error) => Err(error),
                    }
                } else if rest > 0 {
                    Ok(
                        transfers.push(
                            ActionView::Transfer {
                                from: accounts[1].key,
                                to: accounts[2].key,
                                lamports: rest as u64,
                            },
                        ),
                    )
                } else {
                    Ok(transfers)
                }
            },
        }
    }
}

/// Splits a payment among the royalty holders and the seller.
pub fn nft_transaction(
    accounts: &[AccountInfo],
    metadata: Metadata<ArtNft>,
    data: NftTransactionArgs,
) -> (outcome: Result<Vec<Action>, ProgramError>)
    requires
        payable(metadata@.data),
    ensures
        match outcome {
            Ok(actions) => transaction_outcome(accounts@, metadata@, data.amount) == Ok::<
                Seq<ActionView>,
                ProgramError,
            >(actions.deep_view()),
            Err(error) => transaction_outcome(accounts@, metadata@, data.amount) == Err::<
                Seq<ActionView>,
                ProgramError,
            >(error),
        },
{
    if accounts.len() < 4 {
        return Err(ProgramError::NotEnoughAccountKeys);
    }
    let metadata_account_info = &accounts[0];
    let payer_account_info = &accounts[1];
    let target_account_info = &accounts[2];
    let system_info = &accounts[3];
    if system_info.key != system_program_id() {
        return fail(ReeMetaError::InvalidInstruction);
    }
    // Of a first sale all goes to the royalty holders; of a later one, the resale fee.
    let royalty_payout: u64;
    let mut target_payout: u64 = 0;
    if !metadata.data.initial_sale {
        royalty_payout = data.amount;
    } else {
        proof {
            lemma_percent_in_amount(metadata.data.resale_fee as int, data.amount as int);
        }
        royalty_payout = apply_percentage(metadata.data.resale_fee, data.amount);
        target_payout = data.amount - royalty_payout;
    }
    let ghost royalties = metadata@.data.royalties;
    let ghost pool = royalty_payout as int;
    let count = metadata.data.royalties.len();
    let mut actions: Vec<Action> = Vec::new();
    let mut current_payout: u64 = 0;
    let mut i: usize = 0;
    assert(actions.deep_view() =~= royalty_transfers(payer_account_info.key, royalties, pool).take(
        0,
    ));
    while i < count
        invariant
            i <= count,
            count == royalties.len(),
            royalties == metadata@.data.royalties,
            pool == royalty_payout,
            total_share(royalties) <= 100,
            accounts@.len() >= 4,
            accounts@[3].key == system_program_id(),
            payer_account_info == &accounts@[1],
            first_unsupplied(accounts@, royalties, i as int) == first_unsupplied(
                accounts@,
                royalties,
                0,
            ),
            i < count ==> current_payout == shares_paid(royalties, pool, i as int),
            actions.deep_view() == royalty_transfers(payer_account_info.key, royalties, pool).take(
                i as int,
            ),
        ensures
            i == count,
            first_unsupplied(accounts@, royalties, 0) is None,
            actions.deep_view() == royalty_transfers(payer_account_info.key, royalties, pool),
        decreases count - i,
    {
        let royalty = &metadata.data.royalties[i];
        if accounts.len() - 4 <= i {
            assert(first_unsupplied(accounts@, royalties, i as int) == Some(i as int));
            return Err(ProgramError::NotEnoughAccountKeys);
        }
        let royalty_account_info = &accounts[4 + i];
        if royalty.address != royalty_account_info.key {
            assert(first_unsupplied(accounts@, royalties, i as int) == Some(i as int));
            return fail(ReeMetaError::RoyaltyAddressInvalid);
        }
        assert(first_unsupplied(accounts@, royalties, i as int) == first_unsupplied(
            accounts@,
            royalties,
            i + 1,
        ));
        proof {
            lemma_payouts_in_pool(royalties, pool, i as int);
            if i + 1 < count {
                lemma_payouts_in_pool(royalties, pool, i + 1);
            }
        }
        let amount: u64;
        if i == count - 1 {
            // The last holder gets what is left, so that all of the payout is paid.
            amount = royalty_payout - current_payout;
        } else {
            amount = apply_percentage(royalty.share, royalty_payout);
            current_payout += amount;
        }
        let ghost before = actions.deep_view();
        push_action(
            &mut actions,
            Action::Transfer {
                from: payer_account_info.key,
                to: royalty_account_info.key,
                lamports: amount,
            },
        );
        i += 1;
        proof {
            let all = royalty_transfers(payer_account_info.key, royalties, pool);
            assert(all.take(i as int) =~= all.take(i - 1).push(all[i - 1]));
            if i == count {
                assert(all.take(i as int) =~= all);
            }
        }
    }
    if !metadata.data.initial_sale {
        // All of the first sale went to the royalty holders: the record is sold now.
        let mut metadata = metadata;
        metadata.data.initial_sale = true;
        let write = match store(&metadata, metadata_account_info) {
            Ok(write) => write,
            Err(error) => return Err(error),
        };
        push_action(&mut actions, write);
        return Ok(actions);
    }
    if target_payout > 0 {
        push_action(
            &mut actions,
            Action::Transfer {
                from: payer_account_info.key,
                to: target_account_info.key,
                lamports: target_payout,
            },
        );
    }
    Ok(actions)
}

} // verus!
