//! The instructions of the program: their payloads, and how a client builds them.
//!
//! A payload is a tag byte followed by the arguments of the instruction.

use crate::error::{custom, fail, ProgramError, ReeMetaError};
use crate::pubkey::{system_program_id, Pubkey};
use crate::state::{Kind, UpdateType};
use crate::wire::{
    bool_encoding, get_text, get_u16, get_u64, lemma_bool_at, lemma_byte_at, lemma_concat_assoc,
    lemma_holds_at_concat, lemma_text_at, lemma_u16_at, lemma_u16_value, lemma_u64_value,
    put_bool, put_byte, put_text, put_u16, put_u64, text_at, text_encoding, u16_at, u16_encoding,
    u16_value, u64_encoding, u64_value,
};
use vstd::prelude::*;
use vstd::slice::*;
use vstd::utf8::*;

verus! {

/// What every new record is told, whatever its kind.
#[derive(PartialEq, Debug, Clone, Copy)]
pub struct MetadataArgs {
    pub kind: Kind,
    pub is_modifiable: bool,
    pub update_type: UpdateType,
    pub in_collection: bool,
}

/// What a new royalty-bearing record is told.
#[derive(PartialEq, Debug, Clone)]
pub struct MetadataArgsRRA {
    pub name: String,
    pub symbol: String,
    pub uri: String,
    pub resale_fee: u16,
}

/// What a new record is told.
#[derive(PartialEq, Debug, Clone)]
pub struct CreateMetadataArgs {
    pub metadata: MetadataArgs,
    pub aar_data: MetadataArgsRRA,
}

/// What a new royalty holder asks for.
#[derive(PartialEq, Debug, Clone, Copy)]
pub struct AddRoyaltyArgs {
    /// The share that the new holder takes over from the first one.
    pub share: u16,
}

/// What a payment is made of.
#[derive(PartialEq, Debug, Clone, Copy)]
pub struct NftTransactionArgs {
    /// What the buyer pays, in lamports.
    pub amount: u64,
}

/// The instructions of the program, with the accounts that each one reads,
/// in their order.
#[derive(PartialEq, Debug, Clone)]
pub enum ReeMetadataInstruction {
    /// Create the record of an asset.
    ///
    /// Accounts: the account of the record, at its derived address; the mint
    /// of the asset; the first royalty holder; the mint authority, signing;
    /// the mint authority to be; the payer, signing; the update authority,
    /// unless the update type is `Nobody`; the system program; the rent
    /// parameters; the token program; the collection, if the record is to be
    /// part of one.
    CreateMetaData(CreateMetadataArgs),
    /// Mint the one token of an asset and close its mint.
    ///
    /// Accounts: the mint; the mint authority, signing; the token account of
    /// the recipient; the token program.
    MintNFT(),
    /// Lock a record against every further change but the first sale.
    ///
    /// Accounts: the account of the record; the payer, signing; the update
    /// authority, signing.
    LockNFT(),
    /// Enter a royalty holder, who takes over a share of the first one.
    ///
    /// Accounts: the account of the record; the payer, signing; the update
    /// authority, signing; the new holder; the system program; the rent
    /// parameters.
    AddRoyalty(AddRoyaltyArgs),
    /// Pay for an asset. The first sale goes to the royalty holders as a
    /// whole. Of a later one they get the resale fee, and the seller the rest.
    ///
    /// Accounts: the account of the record; the payer, signing; the seller;
    /// the system program; the royalty holders, in the order of the record.
    NftTransaction(NftTransactionArgs),
}

/// The arguments of a new royalty-bearing record as a mathematical value.
pub struct MetadataArgsRRAView {
    pub name: Seq<char>,
    pub symbol: Seq<char>,
    pub uri: Seq<char>,
    pub resale_fee: u16,
}

impl View for MetadataArgsRRA {
    type V = MetadataArgsRRAView;

    open spec fn view(&self) -> MetadataArgsRRAView {
        MetadataArgsRRAView {
            name: self.name@,
            symbol: self.symbol@,
            uri: self.uri@,
            resale_fee: self.resale_fee,
        }
    }
}

/// The arguments of a new record as a mathematical value.
pub struct CreateMetadataArgsView {
    pub metadata: MetadataArgs,
    pub aar_data: MetadataArgsRRAView,
}

impl View for CreateMetadataArgs {
    type V = CreateMetadataArgsView;

    open spec fn view(&self) -> CreateMetadataArgsView {
        CreateMetadataArgsView { metadata: self.metadata, aar_data: self.aar_data@ }
    }
}

/// An instruction as a mathematical value.
pub enum InstructionView {
    CreateMetaData(CreateMetadataArgsView),
    MintNFT,
    LockNFT,
    AddRoyalty(AddRoyaltyArgs),
    NftTransaction(NftTransactionArgs),
}

impl View for ReeMetadataInstruction {
    type V = InstructionView;

    open spec fn view(&self) -> InstructionView {
        match self {
            ReeMetadataInstruction::CreateMetaData(args) => InstructionView::CreateMetaData(args@),
            ReeMetadataInstruction::MintNFT() => InstructionView::MintNFT,
            ReeMetadataInstruction::LockNFT() => InstructionView::LockNFT,
            ReeMetadataInstruction::AddRoyalty(args) => InstructionView::AddRoyalty(*args),
            ReeMetadataInstruction::NftTransaction(args) => InstructionView::NftTransaction(*args),
        }
    }
}

/// The arguments of a new record that stand at the front of `data`: four
/// bytes for the kind, whether the record can be modified, the update type
/// and whether the record is part of a collection, then the three texts and
/// the resale fee. A byte of the first four that is no defined tag stands for
/// the first tag, and any byte but 0 for "yes". What follows the resale fee
/// is not looked at.
pub open spec fn spec_unpack_create_metadata_args(data: Seq<u8>) -> Option<
    CreateMetadataArgsView,
> {
    match text_at(data, 4) {
        Some((name, a)) => match text_at(data, a) {
            Some((symbol, b)) => match text_at(data, b) {
                Some((uri, c)) => match u16_at(data, c) {
                    Some((resale_fee, _)) => Some(
                        CreateMetadataArgsView {
                            metadata: MetadataArgs {
                                kind: Kind::of_byte(data[0]),
                                is_modifiable: data[1] != 0,
                                update_type: UpdateType::of_byte(data[2]),
                                in_collection: data[3] != 0,
                            },
                            aar_data: MetadataArgsRRAView { name, symbol, uri, resale_fee },
                        },
                    ),
                    None => None,
                },
                None => None,
            },
            None => None,
        },
        None => None,
    }
}

/// The instruction that a payload stands for: by its tag, 0 to 4, and the
/// arguments behind it. A share is exactly two bytes and an amount exactly
/// eight. An empty payload, another tag, or arguments that cannot be read
/// make the payload invalid.
pub open spec fn spec_unpack(input: Seq<u8>) -> Result<InstructionView, ProgramError> {
    let invalid = Err::<InstructionView, ProgramError>(custom(ReeMetaError::InvalidInstruction));
    if input.len() == 0 {
        invalid
    } else {
        let tag = input[0];
        let rest = input.subrange(1, input.len() as int);
        if tag == 0 {
            match spec_unpack_create_metadata_args(rest) {
                Some(args) => Ok(InstructionView::CreateMetaData(args)),
                None => invalid,
            }
        } else if tag == 1 {
            Ok(InstructionView::MintNFT)
        } else if tag == 2 {
            Ok(InstructionView::LockNFT)
        } else if tag == 3 {
            if rest.len() == 2 {
                Ok(InstructionView::AddRoyalty(AddRoyaltyArgs { share: u16_value(rest) }))
            } else {
                invalid
            }
        } else if tag == 4 {
            if rest.len() == 8 {
                Ok(
                    InstructionView::NftTransaction(
                        NftTransactionArgs { amount: u64_value(rest) },
                    ),
                )
            } else {
                invalid
            }
        } else {
            invalid
        }
    }
}

/// The bytes that carry the arguments of a new record.
pub open spec fn create_metadata_args_encoding(args: CreateMetadataArgsView) -> Seq<u8> {
    seq![args.metadata.kind.spec_tag()] + (bool_encoding(args.metadata.is_modifiable)
        + (seq![args.metadata.update_type.spec_tag()] + (bool_encoding(args.metadata.in_collection)
        + (text_encoding(args.aar_data.name) + (text_encoding(args.aar_data.symbol)
        + (text_encoding(args.aar_data.uri) + u16_encoding(args.aar_data.resale_fee)))))))
}

/// The payload that carries an instruction.
pub open spec fn instruction_encoding(instruction: InstructionView) -> Seq<u8> {
    match instruction {
        InstructionView::CreateMetaData(args) => seq![0u8] + create_metadata_args_encoding(args),
        InstructionView::MintNFT => seq![1u8],
        InstructionView::LockNFT => seq![2u8],
        InstructionView::AddRoyalty(args) => seq![3u8] + u16_encoding(args.share),
        InstructionView::NftTransaction(args) => seq![4u8] + u64_encoding(args.amount),
    }
}

/// Whether an instruction can be carried: whether each of its texts fits the
/// four bytes of its length.
pub open spec fn packable(instruction: InstructionView) -> bool {
    match instruction {
        InstructionView::CreateMetaData(args) => {
            &&& encode_utf8(args.aar_data.name).len() <= u32::MAX
            &&& encode_utf8(args.aar_data.symbol).len() <= u32::MAX
            &&& encode_utf8(args.aar_data.uri).len() <= u32::MAX
        },
        _ => true,
    }
}

/// The arguments of a new record are read back from their bytes, whatever follows.
pub proof fn lemma_unpack_create_metadata_args(args: CreateMetadataArgsView, tail: Seq<u8>)
    requires
        packable(InstructionView::CreateMetaData(args)),
    ensures
        spec_unpack_create_metadata_args(create_metadata_args_encoding(args) + tail) == Some(args),
{
    let kind = seq![args.metadata.kind.spec_tag()];
    let modifiable = bool_encoding(args.metadata.is_modifiable);
    let update_type = seq![args.metadata.update_type.spec_tag()];
    let collection = bool_encoding(args.metadata.in_collection);
    let name = text_encoding(args.aar_data.name);
    let symbol = text_encoding(args.aar_data.symbol);
    let uri = text_encoding(args.aar_data.uri);
    let fee = u16_encoding(args.aar_data.resale_fee);
    let rest6 = uri + fee;
    let rest5 = symbol + rest6;
    let rest4 = name + rest5;
    let rest3 = collection + rest4;
    let rest2 = update_type + rest3;
    let rest1 = modifiable + rest2;
    let piece = create_metadata_args_encoding(args);
    let data = piece + tail;
    assert(data.subrange(0, piece.len() as int) =~= piece);
    let a: int = 4int + name.len() as int;
    let b: int = a + symbol.len();
    let c: int = b + uri.len();
    lemma_byte_at(data, 0, args.metadata.kind.spec_tag());
    lemma_bool_at(data, 1, args.metadata.is_modifiable);
    lemma_byte_at(data, 2, args.metadata.update_type.spec_tag());
    lemma_bool_at(data, 3, args.metadata.in_collection);
    lemma_text_at(data, 4, args.aar_data.name);
    lemma_text_at(data, a, args.aar_data.symbol);
    lemma_text_at(data, b, args.aar_data.uri);
    lemma_u16_at(data, c, args.aar_data.resale_fee);
    lemma_holds_at_concat(data, 0, kind, rest1);
    lemma_holds_at_concat(data, 1, modifiable, rest2);
    lemma_holds_at_concat(data, 2, update_type, rest3);
    lemma_holds_at_concat(data, 3, collection, rest4);
    lemma_holds_at_concat(data, 4, name, rest5);
    lemma_holds_at_concat(data, a, symbol, rest6);
    lemma_holds_at_concat(data, b, uri, fee);
}

/// An instruction is read back from the payload that carries it.
pub proof fn lemma_unpack_pack(instruction: InstructionView)
    requires
        packable(instruction),
    ensures
        spec_unpack(instruction_encoding(instruction)) == Ok::<InstructionView, ProgramError>(
            instruction,
        ),
{
    let payload = instruction_encoding(instruction);
    let rest = payload.subrange(1, payload.len() as int);
    match instruction {
        InstructionView::CreateMetaData(args) => {
            assert(rest =~= create_metadata_args_encoding(args) + Seq::<u8>::empty());
            lemma_unpack_create_metadata_args(args, Seq::empty());
        },
        InstructionView::MintNFT => {},
        InstructionView::LockNFT => {},
        InstructionView::AddRoyalty(args) => {
            lemma_u16_value(args.share, rest);
            assert(rest =~= u16_encoding(args.share));
        },
        InstructionView::NftTransaction(args) => {
            lemma_u64_value(args.amount, rest);
            assert(rest =~= u64_encoding(args.amount));
        },
    }
}

impl ReeMetadataInstruction {
    /// Reads the instruction that a payload stands for.
    pub fn unpack(input: &[u8]) -> (unpacked: Result<Self, ProgramError>)
        ensures
            match unpacked {
                Ok(instruction) => spec_unpack(input@) == Ok::<InstructionView, ProgramError>(
                    instruction@,
                ),
                Err(error) => spec_unpack(input@) == Err::<InstructionView, ProgramError>(error),
            },
    {
        if input.len() == 0 {
            return fail(ReeMetaError::InvalidInstruction);
        }
        let tag = input[0];
        let rest = slice_subrange(input, 1, input.len());
        Ok(
            match tag {
                0 => match Self::unpack_create_metadata_args(rest) {
                    Ok(args) => ReeMetadataInstruction::CreateMetaData(args),
                    Err(error) => return Err(error),
                },
                1 => ReeMetadataInstruction::MintNFT(),
                2 => ReeMetadataInstruction::LockNFT(),
                3 => match Self::unpack_add_royalty_args(rest) {
                    Ok(args) => ReeMetadataInstruction::AddRoyalty(args),
                    Err(error) => return Err(error),
                },
                4 => match Self::unpack_nft_transaction_args(rest) {
                    Ok(args) => ReeMetadataInstruction::NftTransaction(args),
                    Err(error) => return Err(error),
                },
                _ => return fail(ReeMetaError::InvalidInstruction),
            },
        )
    }

    /// Reads the arguments of a new record from what follows the tag.
    pub fn unpack_create_metadata_args(
        data: &[u8],
    ) -> (unpacked: Result<CreateMetadataArgs, ProgramError>)
        ensures
            match unpacked {
                Ok(args) => spec_unpack_create_metadata_args(data@) == Some(args@),
                Err(error) => error == custom(ReeMetaError::InvalidInstruction)
                    && spec_unpack_create_metadata_args(data@) is None,
            },
    {
        if data.len() < 4 {
            return fail(ReeMetaError::InvalidInstruction);
        }
        let metadata = MetadataArgs {
            kind: Kind::from(&data[0]),
            is_modifiable: data[1] != 0,
            update_type: UpdateType::from(&data[2]),
            in_collection: data[3] != 0,
        };
        let (name, a) = match get_text(data, 4) {
            Some(found) => found,
            None => return fail(ReeMetaError::InvalidInstruction),
        };
        let (symbol, b) = match get_text(data, a) {
            Some(found) => found,
            None => return fail(ReeMetaError::InvalidInstruction),
        };
        let (uri, c) = match get_text(data, b) {
            Some(found) => found,
            None => return fail(ReeMetaError::InvalidInstruction),
        };
        let resale_fee = match get_u16(data, c) {
            Some((fee, _)) => fee,
            None => return fail(ReeMetaError::InvalidInstruction),
        };
        let aar = MetadataArgsRRA { name: name, symbol: symbol, uri: uri, resale_fee: resale_fee };
        Ok(CreateMetadataArgs { metadata: metadata, aar_data: aar })
    }

    /// Reads a share from what follows the tag: exactly two bytes.
    pub fn unpack_add_royalty_args(data: &[u8]) -> (unpacked: Result<AddRoyaltyArgs, ProgramError>)
        ensures
            unpacked == if data@.len() == 2 {
                Ok::<AddRoyaltyArgs, ProgramError>(
                    AddRoyaltyArgs { share: u16_value(data@) },
                )
            } else {
                Err::<AddRoyaltyArgs, ProgramError>(custom(ReeMetaError::InvalidInstruction))
            },
    {
        if data.len() != 2 {
            return fail(ReeMetaError::InvalidInstruction);
        }
        match get_u16(data, 0) {
            Some((share, _)) => {
                assert(data@.subrange(0, 2) =~= data@);
                Ok(AddRoyaltyArgs { share })
            },
            None => fail(ReeMetaError::InvalidInstruction),
        }
    }

    /// Reads an amount from what follows the tag: exactly eight bytes.
    pub fn unpack_nft_transaction_args(
        data: &[u8],
    ) -> (unpacked: Result<NftTransactionArgs, ProgramError>)
        ensures
            unpacked == if data@.len() == 8 {
                Ok::<NftTransactionArgs, ProgramError>(
                    NftTransactionArgs { amount: u64_value(data@) },
                )
            } else {
                Err::<NftTransactionArgs, ProgramError>(custom(ReeMetaError::InvalidInstruction))
            },
    {
        if data.len() != 8 {
            return fail(ReeMetaError::InvalidInstruction);
        }
        match get_u64(data, 0) {
            Some((amount, _)) => {
                assert(data@.subrange(0, 8) =~= data@);
                Ok(NftTransactionArgs { amount })
            },
            None => fail(ReeMetaError::InvalidInstruction),
        }
    }

    /// The payload that carries the instruction, if it can be carried.
    pub fn try_to_vec(&self) -> (packed: Result<Vec<u8>, ProgramError>)
        ensures
            match packed {
                Ok(payload) => packable(self@) && payload@ == instruction_encoding(self@),
                Err(error) => error == ProgramError::BorshIoError && !packable(self@),
            },
    {
        let mut out: Vec<u8> = Vec::new();
        match self {
            ReeMetadataInstruction::CreateMetaData(args) => {
                let name = args.aar_data.name.as_str();
                let symbol = args.aar_data.symbol.as_str();
                let uri = args.aar_data.uri.as_str();
                let limit = u32::MAX as usize;
                if name.as_bytes().len() > limit || symbol.as_bytes().len() > limit
                    || uri.as_bytes().len() > limit {
                    return Err(ProgramError::BorshIoError);
                }
                put_byte(&mut out, 0);
                let ghost out0 = out@;
                put_byte(&mut out, args.metadata.kind.tag());
                let ghost out1 = out@;
                put_bool(&mut out, args.metadata.is_modifiable);
                let ghost out2 = out@;
                put_byte(&mut out, args.metadata.update_type.tag());
                let ghost out3 = out@;
                put_bool(&mut out, args.metadata.in_collection);
                let ghost out4 = out@;
                put_text(&mut out, name);
                let ghost out5 = out@;
                put_text(&mut out, symbol);
                let ghost out6 = out@;
                put_text(&mut out, uri);
                let ghost out7 = out@;
                put_u16(&mut out, args.aar_data.resale_fee);
                proof {
                    let view = args@;
                    let part1 = seq![view.metadata.kind.spec_tag()];
                    let part2 = bool_encoding(view.metadata.is_modifiable);
                    let part3 = seq![view.metadata.update_type.spec_tag()];
                    let part4 = bool_encoding(view.metadata.in_collection);
                    let part5 = text_encoding(view.aar_data.name);
                    let part6 = text_encoding(view.aar_data.symbol);
                    let part7 = text_encoding(view.aar_data.uri);
                    let part8 = u16_encoding(view.aar_data.resale_fee);
                    let rest7 = part7 + part8;
                    let rest6 = part6 + rest7;
                    let rest5 = part5 + rest6;
                    let rest4 = part4 + rest5;
                    let rest3 = part3 + rest4;
                    let rest2 = part2 + rest3;
                    let r1 = part1 + rest2;
                    lemma_concat_assoc(out6, part7, part8);
                    lemma_concat_assoc(out5, part6, rest7);
                    lemma_concat_assoc(out4, part5, rest6);
                    lemma_concat_assoc(out3, part4, rest5);
                    lemma_concat_assoc(out2, part3, rest4);
                    lemma_concat_assoc(out1, part2, rest3);
                    lemma_concat_assoc(out0, part1, rest2);
                    assert(out0 =~= seq![0u8]);
                }
            },
            ReeMetadataInstruction::MintNFT() => {
                put_byte(&mut out, 1);
                assert(out@ =~= seq![1u8]);
            },
            ReeMetadataInstruction::LockNFT() => {
                put_byte(&mut out, 2);
                assert(out@ =~= seq![2u8]);
            },
            ReeMetadataInstruction::AddRoyalty(args) => {
                put_byte(&mut out, 3);
                put_u16(&mut out, args.share);
                assert(out@ =~= seq![3u8] + u16_encoding(args.share));
            },
            ReeMetadataInstruction::NftTransaction(args) => {
                put_byte(&mut out, 4);
                put_u64(&mut out, args.amount);
                assert(out@ =~= seq![4u8] + u64_encoding(args.amount));
            },
        }
        Ok(out)
    }
}

/// How an instruction refers to one of its accounts.
#[derive(PartialEq, Debug, Clone, Copy)]
pub struct AccountMeta {
    pub pubkey: Pubkey,
    /// Whether the holder of the account must sign the transaction.
    pub is_signer: bool,
    /// Whether the instruction may change the account.
    pub is_writable: bool,
}

impl AccountMeta {
    /// An account that the instruction may change.
    pub fn new(pubkey: Pubkey, is_signer: bool) -> (meta: AccountMeta)
        ensures
            meta == (AccountMeta { pubkey, is_signer, is_writable: true }),
    {
        AccountMeta { pubkey, is_signer, is_writable: true }
    }

    /// An account that the instruction only reads.
    pub fn new_readonly(pubkey: Pubkey, is_signer: bool) -> (meta: AccountMeta)
        ensures
            meta == (AccountMeta { pubkey, is_signer, is_writable: false }),
    {
        AccountMeta { pubkey, is_signer, is_writable: false }
    }
}

/// An instruction as a client sends it: the program, the accounts, the payload.
#[derive(PartialEq, Debug, Clone)]
pub struct Instruction {
    pub program_id: Pubkey,
    pub accounts: Vec<AccountMeta>,
    pub data: Vec<u8>,
}

/// The instruction that mints the one token of an asset.
pub fn mint_nft(
    program_id: &Pubkey,
    token_program: &Pubkey,
    metadata_pda: &Pubkey,
    mint_authority: &Pubkey,
    recipient: &Pubkey,
) -> (instruction: Instruction)
    ensures
        instruction.program_id == *program_id,
        instruction.accounts@ == seq![
            AccountMeta { pubkey: *metadata_pda, is_signer: false, is_writable: true },
            AccountMeta { pubkey: *mint_authority, is_signer: true, is_writable: false },
            AccountMeta { pubkey: *recipient, is_signer: false, is_writable: true },
            AccountMeta { pubkey: *token_program, is_signer: false, is_writable: true },
        ],
        instruction.data@ == instruction_encoding(InstructionView::MintNFT),
{
    let mut accounts: Vec<AccountMeta> = Vec::new();
    accounts.push(AccountMeta::new(*metadata_pda, false));
    accounts.push(AccountMeta::new_readonly(*mint_authority, true));
    accounts.push(AccountMeta::new(*recipient, false));
    accounts.push(AccountMeta::new(*token_program, false));
    let mut data: Vec<u8> = Vec::new();
    put_byte(&mut data, 1);
    proof {
        assert(accounts@ =~= seq![
            AccountMeta { pubkey: *metadata_pda, is_signer: false, is_writable: true },
            AccountMeta { pubkey: *mint_authority, is_signer: true, is_writable: false },
            AccountMeta { pubkey: *recipient, is_signer: false, is_writable: true },
            AccountMeta { pubkey: *token_program, is_signer: false, is_writable: true },
        ]);
        assert(data@ =~= seq![1u8]);
    }
    Instruction { program_id: *program_id, accounts, data }
}

/// The accounts of a payment: the record, the payer, the seller, the system
/// program, then the royalty holders in the order given.
pub open spec fn funding_accounts(
    metadata_pda: Pubkey,
    payer: Pubkey,
    target: Pubkey,
    royalties: Seq<Pubkey>,
) -> Seq<AccountMeta> {
    seq![
        AccountMeta { pubkey: metadata_pda, is_signer: false, is_writable: false },
        AccountMeta { pubkey: payer, is_signer: true, is_writable: true },
        AccountMeta { pubkey: target, is_signer: false, is_writable: true },
        AccountMeta { pubkey: system_program_id(), is_signer: false, is_writable: false },
    ] + Seq::new(
        royalties.len(),
        |i: int| AccountMeta { pubkey: royalties[i], is_signer: false, is_writable: true },
    )
}

/// The instruction that pays for an asset.
pub fn nft_funding_sol(
    program_id: &Pubkey,
    metadata_pda: &Pubkey,
    payer: &Pubkey,
    target: &Pubkey,
    royalties: Vec<Pubkey>,
    data: NftTransactionArgs,
) -> (instruction: Instruction)
    ensures
        instruction.program_id == *program_id,
        instruction.accounts@ == funding_accounts(*metadata_pda, *payer, *target, royalties@),
        instruction.data@ == instruction_encoding(InstructionView::NftTransaction(data)),
{
    let mut accounts: Vec<AccountMeta> = Vec::new();
    accounts.push(AccountMeta::new_readonly(*metadata_pda, false));
    accounts.push(AccountMeta::new(*payer, true));
    accounts.push(AccountMeta::new(*target, false));
    accounts.push(AccountMeta::new_readonly(system_program_id(), false));
    let ghost fixed = accounts@;
    let mut i: usize = 0;
    while i < royalties.len()
        invariant
            i <= royalties.len(),
            accounts@ == fixed + Seq::new(
                i as nat,
                |j: int| AccountMeta { pubkey: royalties@[j], is_signer: false, is_writable: true },
            ),
        decreases royalties.len() - i,
    {
        accounts.push(AccountMeta::new(royalties[i], false));
        i += 1;
        assert(accounts@ =~= fixed + Seq::new(
            i as nat,
            |j: int| AccountMeta { pubkey: royalties@[j], is_signer: false, is_writable: true },
        ));
    }
    let mut payload: Vec<u8> = Vec::new();
    put_byte(&mut payload, 4);
    put_u64(&mut payload, data.amount);
    proof {
        assert(accounts@ =~= funding_accounts(*metadata_pda, *payer, *target, royalties@));
        assert(payload@ =~= seq![4u8] + u64_encoding(data.amount));
    }
    Instruction { program_id: *program_id, accounts, data: payload }
}

} // verus!
