//! Metadata records, their payloads and their stored form.
//!
//! A record is stored as
//! `[kind:1][mint:32][is_modifiable:1][update_type:1][collection?][update_authority?][payload]`,
//! where an optional identity is a flag byte followed, where the flag is 1, by
//! the 32 bytes. The payload of a royalty-bearing record is
//! `[name][symbol][uri][resale_fee:2][initial_sale:1][collection?][count:4][royalties]`
//! with each text preceded by its length in four bytes and each royalty taking
//! `[address:32][share:2][verified:1]`. The payload of any other record is a
//! byte string preceded by its length in four bytes. The layout carries no
//! version: every record of this layout has the version `LAYOUT_VERSION`.

use crate::account::AccountInfo;
use crate::error::ProgramError;
use crate::pubkey::Pubkey;
use crate::wire::{
    blob_at, blob_encoding, bool_at, bool_encoding, byte_at, get_blob, get_bool, get_byte,
    get_key, get_optional_key, get_text, get_u16, get_u32, holds_at, key_at, key_encoding,
    lemma_blob_at, lemma_bool_at, lemma_byte_at, lemma_concat_assoc, lemma_holds_at_concat,
    lemma_key_at, lemma_optional_key_at, lemma_text_at, lemma_u16_at, lemma_u32_at,
    optional_key_at, optional_key_encoding, put_blob, put_bool, put_byte, put_key,
    put_optional_key, put_text, put_u16, put_u32, text_at, text_encoding, u16_at, u16_encoding,
    u32_at, u32_encoding,
};
use vstd::prelude::*;
use vstd::utf8::*;

verus! {

/// The first seed of the address of a record's account.
pub const PREFIX: &'static str = "ree-metadata";

/// The version of the layout that this library reads and writes.
pub const LAYOUT_VERSION: u8 = 0;

/// Which payload a record carries.
#[derive(Clone, Copy, Debug, PartialEq, Eq, Structural)]
pub enum Kind {
    /// No royalty semantics: the payload is an uninterpreted byte string.
    Uninitialized,
    /// A royalty-bearing payload.
    RoyaltyArt,
}

impl Kind {
    /// The kind that a discriminant byte stands for. Every byte stands for a
    /// kind: 1 for the royalty-bearing one, any other for the opaque one.
    pub open spec fn of_byte(byte: u8) -> Kind {
        if byte == 1 {
            Kind::RoyaltyArt
        } else {
            Kind::Uninitialized
        }
    }

    /// The discriminant byte under which a kind is stored.
    pub open spec fn spec_tag(self) -> u8 {
        match self {
            Kind::Uninitialized => 0,
            Kind::RoyaltyArt => 1,
        }
    }

    /// The byte under which the value is stored.
    pub fn tag(&self) -> (tag: u8)
        ensures
            tag == self.spec_tag(),
    {
        match self {
            Kind::Uninitialized => 0,
            Kind::RoyaltyArt => 1,
        }
    }
}

impl From<&u8> for Kind {
    fn from(orig: &u8) -> (kind: Kind) {
        match *orig {
            1 => Kind::RoyaltyArt,
            _ => Kind::Uninitialized,
        }
    }
}

impl vstd::std_specs::convert::FromSpecImpl<&u8> for Kind {
    open spec fn obeys_from_spec() -> bool {
        true
    }

    open spec fn from_spec(orig: &u8) -> Kind {
        Kind::of_byte(*orig)
    }
}

/// Who may update a record.
#[derive(Clone, Copy, Debug, PartialEq, Eq, Structural)]
pub enum UpdateType {
    /// Nobody. (Stored as 0.)
    Nobody,
    /// The holder of a wallet, by signing.
    WalletSigner,
    /// The holder of a token.
    NftToken,
}

impl UpdateType {
    /// The update type that a byte stands for: 1 and 2 for the two
    /// authorities, any other for none.
    pub open spec fn of_byte(byte: u8) -> UpdateType {
        if byte == 1 {
            UpdateType::WalletSigner
        } else if byte == 2 {
            UpdateType::NftToken
        } else {
            UpdateType::Nobody
        }
    }

    /// The byte under which an update type is stored.
    pub open spec fn spec_tag(self) -> u8 {
        match self {
            UpdateType::Nobody => 0,
            UpdateType::WalletSigner => 1,
            UpdateType::NftToken => 2,
        }
    }

    /// The byte under which the value is stored.
    pub fn tag(&self) -> (tag: u8)
        ensures
            tag == self.spec_tag(),
    {
        match self {
            UpdateType::Nobody => 0,
            UpdateType::WalletSigner => 1,
            UpdateType::NftToken => 2,
        }
    }
}

impl From<&u8> for UpdateType {
    fn from(orig: &u8) -> (update_type: UpdateType) {
        match *orig {
            1 => UpdateType::WalletSigner,
            2 => UpdateType::NftToken,
            _ => UpdateType::Nobody,
        }
    }
}

impl vstd::std_specs::convert::FromSpecImpl<&u8> for UpdateType {
    open spec fn obeys_from_spec() -> bool {
        true
    }

    open spec fn from_spec(orig: &u8) -> UpdateType {
        UpdateType::of_byte(*orig)
    }
}

/// The kind stored at an offset: only the two defined tags are accepted.
pub open spec fn kind_at(data: Seq<u8>, at: int) -> Option<(Kind, int)> {
    match byte_at(data, at) {
        Some((tag, next)) => if tag <= 1 {
            Some((Kind::of_byte(tag), next))
        } else {
            None
        },
        None => None,
    }
}

/// The update type stored at an offset: only the three defined tags are accepted.
pub open spec fn update_type_at(data: Seq<u8>, at: int) -> Option<(UpdateType, int)> {
    match byte_at(data, at) {
        Some((tag, next)) => if tag <= 2 {
            Some((UpdateType::of_byte(tag), next))
        } else {
            None
        },
        None => None,
    }
}

/// A kind is read at an offset exactly where its tag stands there.
pub proof fn lemma_kind_at(data: Seq<u8>, at: int, kind: Kind)
    ensures
        kind_at(data, at) == Some((kind, at + 1)) <==> holds_at(data, at, seq![kind.spec_tag()]),
{
    lemma_byte_at(data, at, 0);
    lemma_byte_at(data, at, 1);
}

/// An update type is read at an offset exactly where its tag stands there.
pub proof fn lemma_update_type_at(data: Seq<u8>, at: int, update_type: UpdateType)
    ensures
        update_type_at(data, at) == Some((update_type, at + 1)) <==> holds_at(
            data,
            at,
            seq![update_type.spec_tag()],
        ),
{
    lemma_byte_at(data, at, 0);
    lemma_byte_at(data, at, 1);
    lemma_byte_at(data, at, 2);
}

/// One holder's part of the royalties.
#[derive(Clone, Copy, Debug, PartialEq)]
pub struct Royalty {
    /// The holder.
    pub address: Pubkey,
    /// The holder's part of the proceeds, in percent.
    pub share: u16,
    /// Whether the entry was made by the program itself.
    pub verified: bool,
}

impl Royalty {
    /// The number of bytes that store one royalty.
    pub fn size() -> (size: usize)
        ensures
            size == 35,
    {
        3 + 32
    }
}

/// The bytes that store a royalty: the holder, the share and the flag.
pub open spec fn royalty_encoding(royalty: Royalty) -> Seq<u8> {
    key_encoding(royalty.address) + (u16_encoding(royalty.share) + bool_encoding(
        royalty.verified,
    ))
}

/// The royalty stored at an offset, and the offset behind it.
pub open spec fn royalty_at(data: Seq<u8>, at: int) -> Option<(Royalty, int)> {
    match key_at(data, at) {
        Some((address, a)) => match u16_at(data, a) {
            Some((share, b)) => match bool_at(data, b) {
                Some((verified, next)) => Some((Royalty { address, share, verified }, next)),
                None => None,
            },
            None => None,
        },
        None => None,
    }
}

/// A royalty is read at an offset exactly where its 35 bytes stand there.
pub proof fn lemma_royalty_at(data: Seq<u8>, at: int, royalty: Royalty)
    ensures
        royalty_encoding(royalty).len() == 35,
        royalty_at(data, at) == Some((royalty, at + 35)) <==> holds_at(
            data,
            at,
            royalty_encoding(royalty),
        ),
{
    let share = u16_encoding(royalty.share);
    let verified = bool_encoding(royalty.verified);
    lemma_key_at(data, at, royalty.address);
    lemma_u16_at(data, at + 32, royalty.share);
    lemma_bool_at(data, at + 34, royalty.verified);
    lemma_holds_at_concat(data, at, key_encoding(royalty.address), share + verified);
    lemma_holds_at_concat(data, at + 32, share, verified);
}

/// The royalties one behind the other, without their count.
pub open spec fn entries_encoding(entries: Seq<Royalty>) -> Seq<u8>
    decreases entries.len(),
{
    if entries.len() == 0 {
        Seq::empty()
    } else {
        entries_encoding(entries.drop_last()) + royalty_encoding(entries.last())
    }
}

/// The `count` royalties stored one behind the other from an offset on.
pub open spec fn entries_at(data: Seq<u8>, at: int, count: nat) -> Option<(Seq<Royalty>, int)>
    decreases count,
{
    if count == 0 {
        Some((Seq::empty(), at))
    } else {
        match entries_at(data, at, (count - 1) as nat) {
            Some((init, mid)) => match royalty_at(data, mid) {
                Some((last, next)) => Some((init.push(last), next)),
                None => None,
            },
            None => None,
        }
    }
}

/// Each royalty takes 35 bytes.
pub proof fn lemma_entries_len(entries: Seq<Royalty>)
    ensures
        entries_encoding(entries).len() == 35 * entries.len(),
    decreases entries.len(),
{
    if entries.len() > 0 {
        lemma_entries_len(entries.drop_last());
        lemma_royalty_at(Seq::empty(), 0, entries.last());
    }
}

/// What is read for a count has that many entries and ends 35 bytes further
/// for each of them.
pub proof fn lemma_entries_found(data: Seq<u8>, at: int, count: nat)
    ensures
        entries_at(data, at, count) matches Some((found, next)) ==> found.len() == count && next
            == at + 35 * count,
    decreases count,
{
    if count > 0 {
        lemma_entries_found(data, at, (count - 1) as nat);
    }
}

/// Royalties are read at an offset exactly where they stand there one behind
/// the other.
pub proof fn lemma_entries_at(data: Seq<u8>, at: int, entries: Seq<Royalty>)
    requires
        0 <= at <= data.len(),
    ensures
        entries_at(data, at, entries.len()) == Some((entries, at + 35 * entries.len()))
            <==> holds_at(data, at, entries_encoding(entries)),
    decreases entries.len(),
{
    let count = entries.len();
    if count == 0 {
        assert(data.subrange(at, at) =~= Seq::<u8>::empty());
        assert(entries =~= Seq::<Royalty>::empty());
    } else {
        let init = entries.drop_last();
        let last = entries.last();
        let mid = at + 35 * (count - 1);
        lemma_entries_len(init);
        lemma_royalty_at(data, mid, last);
        lemma_holds_at_concat(data, at, entries_encoding(init), royalty_encoding(last));
        lemma_entries_at(data, at, init);
        lemma_entries_found(data, at, (count - 1) as nat);
        assert(init.push(last) =~= entries);
        match entries_at(data, at, (count - 1) as nat) {
            Some((found, end)) => {
                match royalty_at(data, end) {
                    Some((tail, after)) => {
                        if found.push(tail) == entries {
                            assert(found =~= init);
                            assert(tail == last);
                        }
                    },
                    None => {},
                }
            },
            None => {},
        }
    }
}

/// The royalties behind their count.
pub open spec fn royalties_encoding(royalties: Seq<Royalty>) -> Seq<u8> {
    u32_encoding(royalties.len() as u32) + entries_encoding(royalties)
}

/// The royalties stored behind their count at an offset, and the offset
/// behind them.
pub open spec fn royalties_at(data: Seq<u8>, at: int) -> Option<(Seq<Royalty>, int)> {
    match u32_at(data, at) {
        Some((count, body)) => entries_at(data, body, count as nat),
        None => None,
    }
}

/// Royalties are read behind their count exactly where both stand, and their
/// count fits the four bytes in front.
pub proof fn lemma_royalties_at(data: Seq<u8>, at: int, royalties: Seq<Royalty>)
    ensures
        royalties_encoding(royalties).len() == 4 + 35 * royalties.len(),
        royalties_at(data, at) == Some((royalties, at + royalties_encoding(royalties).len()))
            <==> royalties.len() <= u32::MAX && holds_at(data, at, royalties_encoding(royalties)),
        royalties_at(data, at) matches Some((found, next)) ==> next == at + royalties_encoding(
            found,
        ).len() && found.len() <= u32::MAX,
{
    let count = royalties.len() as u32;
    lemma_entries_len(royalties);
    lemma_u32_at(data, at, count);
    lemma_holds_at_concat(data, at, u32_encoding(count), entries_encoding(royalties));
    if 0 <= at && at + 4 <= data.len() {
        lemma_entries_at(data, at + 4, royalties);
        let stored = u32_at(data, at).unwrap().0;
        lemma_entries_found(data, at + 4, stored as nat);
        lemma_u32_at(data, at, stored);
        match entries_at(data, at + 4, stored as nat) {
            Some((found, end)) => {
                lemma_entries_len(found);
            },
            None => {},
        }
    }
}

/// Once no royalties are read for a count, none are read for a larger one.
pub proof fn lemma_entries_cut(data: Seq<u8>, at: int, count: nat, more: nat)
    requires
        entries_at(data, at, count) is None,
        count <= more,
    ensures
        entries_at(data, at, more) is None,
    decreases more,
{
    if count < more {
        lemma_entries_cut(data, at, count, (more - 1) as nat);
    }
}

/// Appends a royalty.
pub fn put_royalty(out: &mut Vec<u8>, royalty: &Royalty)
    ensures
        final(out)@ == old(out)@ + royalty_encoding(*royalty),
{
    put_key(out, &royalty.address);
    put_u16(out, royalty.share);
    put_bool(out, royalty.verified);
    assert(out@ =~= old(out)@ + royalty_encoding(*royalty));
}

/// Reads the royalty at an offset.
pub fn get_royalty(data: &[u8], at: usize) -> (got: Option<(Royalty, usize)>)
    ensures
        match got {
            Some((royalty, next)) => royalty_at(data@, at as int) == Some((royalty, next as int)),
            None => royalty_at(data@, at as int) is None,
        },
{
    match get_key(data, at) {
        Some((address, a)) => match get_u16(data, a) {
            Some((share, b)) => match get_bool(data, b) {
                Some((verified, next)) => Some((Royalty { address, share, verified }, next)),
                None => None,
            },
            None => None,
        },
        None => None,
    }
}

/// Appends royalties behind their count.
pub fn put_royalties(out: &mut Vec<u8>, royalties: &Vec<Royalty>)
    requires
        royalties@.len() <= u32::MAX,
    ensures
        final(out)@ == old(out)@ + royalties_encoding(royalties@),
{
    let count = royalties.len();
    put_u32(out, count as u32);
    let ghost head = out@;
    let mut i: usize = 0;
    while i < count
        invariant
            i <= count,
            count == royalties.len(),
            out@ == head + entries_encoding(royalties@.take(i as int)),
        decreases count - i,
    {
        put_royalty(out, &royalties[i]);
        proof {
            let longer = royalties@.take(i + 1);
            assert(longer.drop_last() =~= royalties@.take(i as int));
        }
        i += 1;
    }
    proof {
        assert(royalties@.take(count as int) =~= royalties@);
        assert(out@ =~= old(out)@ + royalties_encoding(royalties@));
    }
}

/// Reads the royalties behind their count at an offset.
pub fn get_royalties(data: &[u8], at: usize) -> (got: Option<(Vec<Royalty>, usize)>)
    ensures
        match got {
            Some((royalties, next)) => royalties_at(data@, at as int) == Some(
                (royalties@, next as int),
            ),
            None => royalties_at(data@, at as int) is None,
        },
{
    let (count, body) = match get_u32(data, at) {
        Some(found) => found,
        None => return None,
    };
    let mut royalties: Vec<Royalty> = Vec::new();
    let mut next = body;
    let mut i: u32 = 0;
    while i < count
        invariant
            i <= count,
            u32_at(data@, at as int) == Some((count, body as int)),
            entries_at(data@, body as int, i as nat) == Some((royalties@, next as int)),
        decreases count - i,
    {
        match get_royalty(data, next) {
            Some((royalty, after)) => {
                royalties.push(royalty);
                next = after;
            },
            None => {
                proof {
                    assert(entries_at(data@, body as int, (i + 1) as nat) is None);
                    lemma_entries_cut(data@, body as int, (i + 1) as nat, count as nat);
                }
                return None;
            },
        }
        i += 1;
    }
    Some((royalties, next))
}

/// What a record carries besides its header. A payload knows its stored form.
pub trait MetadataData: View + Sized {
    /// The bytes that store a payload.
    spec fn encoding(payload: Self::V) -> Seq<u8>;

    /// Whether a payload can be stored: whether the length of each of its
    /// variable parts fits the four bytes in front of the part.
    spec fn storable(payload: Self::V) -> bool;

    /// The payload stored in `data` from the offset `at` on, and the offset behind it.
    spec fn stored_at(data: Seq<u8>, at: int) -> Option<(Self::V, int)>;

    /// A payload is read at an offset exactly where its bytes stand there,
    /// provided that it can be stored; and what is read ends where its bytes end.
    proof fn lemma_stored_at(data: Seq<u8>, at: int, payload: Self::V)
        ensures
            Self::stored_at(data, at) == Some((payload, at + Self::encoding(payload).len()))
                <==> Self::storable(payload) && holds_at(data, at, Self::encoding(payload)),
            Self::stored_at(data, at) matches Some((found, next)) ==> next == at + Self::encoding(
                found,
            ).len(),
    ;

    /// The number of bytes that store the payload.
    fn size(&self) -> (size: usize)
        requires
            Self::encoding(self@).len() <= usize::MAX,
        ensures
            size == Self::encoding(self@).len(),
    ;

    /// Appends the stored form of the payload to `out`, if the payload can be
    /// stored, and says whether it did.
    fn write(&self, out: &mut Vec<u8>) -> (written: bool)
        ensures
            written == Self::storable(self@),
            final(out)@ == if written {
                old(out)@ + Self::encoding(self@)
            } else {
                old(out)@
            },
    ;

    /// Reads the payload stored in `data` from the offset `at` on.
    fn read(data: &[u8], at: usize) -> (read: Option<(Self, usize)>)
        ensures
            match read {
                Some((payload, next)) => Self::stored_at(data@, at as int) == Some(
                    (payload@, next as int),
                ),
                None => Self::stored_at(data@, at as int) is None,
            },
    ;
}

/// The payload of a record without royalty semantics.
#[derive(Clone, Debug, PartialEq)]
pub struct CustomNft {
    pub data: Vec<u8>,
}

impl View for CustomNft {
    type V = Seq<u8>;

    open spec fn view(&self) -> Seq<u8> {
        self.data@
    }
}

impl MetadataData for CustomNft {
    open spec fn encoding(payload: Seq<u8>) -> Seq<u8> {
        blob_encoding(payload)
    }

    open spec fn storable(payload: Seq<u8>) -> bool {
        payload.len() <= u32::MAX
    }

    open spec fn stored_at(data: Seq<u8>, at: int) -> Option<(Seq<u8>, int)> {
        blob_at(data, at)
    }

    proof fn lemma_stored_at(data: Seq<u8>, at: int, payload: Seq<u8>) {
        lemma_blob_at(data, at, payload);
        match blob_at(data, at) {
            Some((found, next)) => {
                lemma_blob_at(data, at, found);
            },
            None => {},
        }
    }

    fn size(&self) -> (size: usize) {
        proof {
            lemma_blob_at(Seq::empty(), 0, self.data@);
        }
        return 4 + self.data.len()
    }

    fn write(&self, out: &mut Vec<u8>) -> (written: bool) {
        if self.data.len() > u32::MAX as usize {
            return false;
        }
        put_blob(out, self.data.as_slice());
        true
    }

    fn read(data: &[u8], at: usize) -> (read: Option<(CustomNft, usize)>) {
        match get_blob(data, at) {
            Some((bytes, next)) => Some((CustomNft { data: bytes }, next)),
            None => None,
        }
    }
}

/// The payload of a royalty-bearing record.
#[derive(Clone, Debug, PartialEq)]
pub struct ArtNft {
    pub name: String,
    pub symbol: String,
    pub uri: String,
    /// The part of a resale, in percent, that goes to the royalty holders.
    pub resale_fee: u16,
    /// Whether the first sale has taken place.
    pub initial_sale: bool,
    pub collection: Option<Pubkey>,
    /// The royalty holders, in the order in which they were entered. The
    /// first one holds what is left of the full share.
    pub royalties: Vec<Royalty>,
}

/// A royalty-bearing payload as a mathematical value.
pub struct ArtNftView {
    pub name: Seq<char>,
    pub symbol: Seq<char>,
    pub uri: Seq<char>,
    pub resale_fee: u16,
    pub initial_sale: bool,
    pub collection: Option<Pubkey>,
    pub royalties: Seq<Royalty>,
}

impl View for ArtNft {
    type V = ArtNftView;

    open spec fn view(&self) -> ArtNftView {
        ArtNftView {
            name: self.name@,
            symbol: self.symbol@,
            uri: self.uri@,
            resale_fee: self.resale_fee,
            initial_sale: self.initial_sale,
            collection: self.collection,
            royalties: self.royalties@,
        }
    }
}

/// The number of bytes that store a royalty-bearing payload.
pub open spec fn art_nft_size(payload: ArtNftView) -> int {
    4 + encode_utf8(payload.name).len() + 4 + encode_utf8(payload.symbol).len() + 4 + encode_utf8(
        payload.uri,
    ).len() + 2 + 1 + 1 + (if payload.collection is Some {
        32int
    } else {
        0int
    }) + 4 + 35 * payload.royalties.len()
}

/// The stored form of a royalty-bearing payload has `art_nft_size` bytes.
pub proof fn lemma_art_nft_size(payload: ArtNftView)
    ensures
        ArtNft::encoding(payload).len() == art_nft_size(payload),
{
    let data = Seq::<u8>::empty();
    lemma_text_at(data, 0, payload.name);
    lemma_text_at(data, 0, payload.symbol);
    lemma_text_at(data, 0, payload.uri);
    lemma_u16_at(data, 0, payload.resale_fee);
    lemma_optional_key_at(data, 0, payload.collection);
    lemma_royalties_at(data, 0, payload.royalties);
}

impl MetadataData for ArtNft {
    open spec fn encoding(payload: ArtNftView) -> Seq<u8> {
        text_encoding(payload.name) + (text_encoding(payload.symbol) + (text_encoding(payload.uri)
            + (u16_encoding(payload.resale_fee) + (bool_encoding(payload.initial_sale)
            + (optional_key_encoding(payload.collection) + royalties_encoding(
            payload.royalties,
        ))))))
    }

    open spec fn storable(payload: ArtNftView) -> bool {
        &&& encode_utf8(payload.name).len() <= u32::MAX
        &&& encode_utf8(payload.symbol).len() <= u32::MAX
        &&& encode_utf8(payload.uri).len() <= u32::MAX
        &&& payload.royalties.len() <= u32::MAX
    }

    open spec fn stored_at(data: Seq<u8>, at: int) -> Option<(ArtNftView, int)> {
        match text_at(data, at) {
            Some((name, a)) => match text_at(data, a) {
                Some((symbol, b)) => match text_at(data, b) {
                    Some((uri, c)) => match u16_at(data, c) {
                        Some((resale_fee, d)) => match bool_at(data, d) {
                            Some((initial_sale, e)) => match optional_key_at(data, e) {
                                Some((collection, f)) => match royalties_at(data, f) {
                                    Some((royalties, next)) => Some(
                                        (
                                            ArtNftView {
                                                name,
                                                symbol,
                                                uri,
                                                resale_fee,
                                                initial_sale,
                                                collection,
                                                royalties,
                                            },
                                            next,
                                        ),
                                    ),
                                    None => None,
                                },
                                None => None,
                            },
                            None => None,
                        },
                        None => None,
                    },
                    None => None,
                },
                None => None,
            },
            None => None,
        }
    }

    proof fn lemma_stored_at(data: Seq<u8>, at: int, payload: ArtNftView) {
        lemma_art_nft_at(data, at, payload);
        match Self::stored_at(data, at) {
            Some((found, next)) => {
                lemma_art_nft_at(data, at, found);
            },
            None => {},
        }
    }

    fn size(&self) -> (size: usize) {
        proof {
            lemma_art_nft_size(self@);
        }
        let mut size = 4  // length of the name
         + self.name.as_str().as_bytes().len() + 4  // length of the symbol
         + self.symbol.as_str().as_bytes().len() + 4  // length of the uri
         + self.uri.as_str().as_bytes().len() + 2  // resale fee
         + 1  // first sale flag
         + 1;  // collection flag
        size += match &self.collection {
            Some(_) => 32,
            None => 0,
        };
        size += 4 + Royalty::size() * self.royalties.len();
        return size;
    }

    fn write(&self, out: &mut Vec<u8>) -> (written: bool) {
        let name = self.name.as_str();
        let symbol = self.symbol.as_str();
        let uri = self.uri.as_str();
        let limit = u32::MAX as usize;
        if name.as_bytes().len() > limit || symbol.as_bytes().len() > limit || uri.as_bytes().len()
            > limit || self.royalties.len() > limit {
            return false;
        }
        put_text(out, name);
        let ghost out1 = out@;
        put_text(out, symbol);
        let ghost out2 = out@;
        put_text(out, uri);
        let ghost out3 = out@;
        put_u16(out, self.resale_fee);
        let ghost out4 = out@;
        put_bool(out, self.initial_sale);
        let ghost out5 = out@;
        put_optional_key(out, &self.collection);
        put_royalties(out, &self.royalties);
        proof {
            let payload = self@;
            let part7 = royalties_encoding(payload.royalties);
            let part6 = optional_key_encoding(payload.collection);
            let part5 = bool_encoding(payload.initial_sale);
            let part4 = u16_encoding(payload.resale_fee);
            let part3 = text_encoding(payload.uri);
            let part2 = text_encoding(payload.symbol);
            let part1 = text_encoding(payload.name);
            let rest6 = part6 + part7;
            let rest5 = part5 + rest6;
            let rest4 = part4 + rest5;
            let rest3 = part3 + rest4;
            let rest2 = part2 + rest3;
            lemma_concat_assoc(out5, part6, part7);
            lemma_concat_assoc(out4, part5, rest6);
            lemma_concat_assoc(out3, part4, rest5);
            lemma_concat_assoc(out2, part3, rest4);
            lemma_concat_assoc(out1, part2, rest3);
            lemma_concat_assoc(old(out)@, part1, rest2);
        }
        true
    }

    fn read(data: &[u8], at: usize) -> (read: Option<(ArtNft, usize)>) {
        let (name, a) = match get_text(data, at) {
            Some(found) => found,
            None => return None,
        };
        let (symbol, b) = match get_text(data, a) {
            Some(found) => found,
            None => return None,
        };
        let (uri, c) = match get_text(data, b) {
            Some(found) => found,
            None => return None,
        };
        let (resale_fee, d) = match get_u16(data, c) {
            Some(found) => found,
            None => return None,
        };
        let (initial_sale, e) = match get_bool(data, d) {
            Some(found) => found,
            None => return None,
        };
        let (collection, f) = match get_optional_key(data, e) {
            Some(found) => found,
            None => return None,
        };
        let (royalties, next) = match get_royalties(data, f) {
            Some(found) => found,
            None => return None,
        };
        Some(
            (ArtNft { name, symbol, uri, resale_fee, initial_sale, collection, royalties }, next),
        )
    }
}

/// A royalty-bearing payload is read at an offset exactly where its bytes
/// stand there, provided that it can be stored.
pub proof fn lemma_art_nft_at(data: Seq<u8>, at: int, payload: ArtNftView)
    ensures
        ArtNft::stored_at(data, at) == Some((payload, at + ArtNft::encoding(payload).len()))
            <==> ArtNft::storable(payload) && holds_at(data, at, ArtNft::encoding(payload)),
        ArtNft::stored_at(data, at) matches Some((found, next)) ==> (found == payload ==> next
            == at + ArtNft::encoding(payload).len()),
{
    let name = text_encoding(payload.name);
    let symbol = text_encoding(payload.symbol);
    let uri = text_encoding(payload.uri);
    let fee = u16_encoding(payload.resale_fee);
    let sale = bool_encoding(payload.initial_sale);
    let collection = optional_key_encoding(payload.collection);
    let royalties = royalties_encoding(payload.royalties);
    let rest5 = collection + royalties;
    let rest4 = sale + rest5;
    let rest3 = fee + rest4;
    let rest2 = uri + rest3;
    let rest1 = symbol + rest2;
    let a = at + name.len();
    let b = a + symbol.len();
    let c = b + uri.len();
    let d = c + 2;
    let e = d + 1;
    let f = e + collection.len();
    lemma_text_at(data, at, payload.name);
    lemma_text_at(data, a, payload.symbol);
    lemma_text_at(data, b, payload.uri);
    lemma_u16_at(data, c, payload.resale_fee);
    lemma_bool_at(data, d, payload.initial_sale);
    lemma_optional_key_at(data, e, payload.collection);
    lemma_royalties_at(data, f, payload.royalties);
    lemma_holds_at_concat(data, at, name, rest1);
    lemma_holds_at_concat(data, a, symbol, rest2);
    lemma_holds_at_concat(data, b, uri, rest3);
    lemma_holds_at_concat(data, c, fee, rest4);
    lemma_holds_at_concat(data, d, sale, rest5);
    lemma_holds_at_concat(data, e, collection, royalties);
}

impl ArtNft {
    /// Reads the payload that stands at the start of `data`. What follows it
    /// in `data` is not looked at.
    pub fn from_slice(data: &[u8]) -> (read: Result<ArtNft, ProgramError>)
        ensures
            match read {
                Ok(payload) => ArtNft::storable(payload@) && holds_at(
                    data@,
                    0,
                    ArtNft::encoding(payload@),
                ),
                Err(error) => error == ProgramError::BorshIoError && forall|other: ArtNftView|
                    ArtNft::storable(other) ==> !holds_at(
                        data@,
                        0,
                        #[trigger] ArtNft::encoding(other),
                    ),
            },
    {
        match ArtNft::read(data, 0) {
            Some((payload, _)) => {
                proof {
                    ArtNft::lemma_stored_at(data@, 0, payload@);
                }
                Ok(payload)
            },
            None => {
                proof {
                    assert forall|other: ArtNftView| ArtNft::storable(other) implies !holds_at(
                        data@,
                        0,
                        #[trigger] ArtNft::encoding(other),
                    ) by {
                        ArtNft::lemma_stored_at(data@, 0, other);
                    }
                }
                Err(ProgramError::BorshIoError)
            },
        }
    }
}

/// A metadata record: what is known of an asset, and the payload of its kind.
#[derive(Clone, Debug, PartialEq)]
pub struct Metadata<T: MetadataData> {
    /// The version of the layout of the record.
    pub version: u8,
    /// Which payload the record carries.
    pub kind: Kind,
    /// The mint of the asset's token.
    pub mint: Pubkey,
    /// Whether the record may still be changed. Once false, it stays false.
    pub is_modifiable: bool,
    /// Who may update the record.
    pub update_type: UpdateType,
    /// The collection that the asset belongs to, if any.
    pub collection: Option<Pubkey>,
    /// Who may change the record, if anybody.
    pub update_authority: Option<Pubkey>,
    /// The payload.
    pub data: T,
}

/// A record as a mathematical value, over the mathematical value of its payload.
pub struct MetadataView<D> {
    pub version: u8,
    pub kind: Kind,
    pub mint: Pubkey,
    pub is_modifiable: bool,
    pub update_type: UpdateType,
    pub collection: Option<Pubkey>,
    pub update_authority: Option<Pubkey>,
    pub data: D,
}

impl<T: MetadataData> View for Metadata<T> {
    type V = MetadataView<T::V>;

    open spec fn view(&self) -> MetadataView<T::V> {
        MetadataView {
            version: self.version,
            kind: self.kind,
            mint: self.mint,
            is_modifiable: self.is_modifiable,
            update_type: self.update_type,
            collection: self.collection,
            update_authority: self.update_authority,
            data: self.data@,
        }
    }
}

/// The number of bytes that store the header of a record.
pub open spec fn header_size<D>(record: MetadataView<D>) -> int {
    1 + 32 + 1 + 1 + 1 + (if record.collection is Some {
        32int
    } else {
        0int
    }) + 1 + (if record.update_authority is Some {
        32int
    } else {
        0int
    })
}

/// The kind that the first byte of a buffer stands for. Every buffer has a
/// kind: one that starts with the tag of the royalty-bearing kind has that
/// kind, and any other, the empty one too, has the opaque kind.
pub open spec fn peek_kind(data: Seq<u8>) -> Kind {
    if data.len() > 0 {
        Kind::of_byte(data[0])
    } else {
        Kind::Uninitialized
    }
}

/// Only the tag of the royalty-bearing kind announces that kind: every other
/// first byte, 0 too, and the empty buffer announce the opaque kind.
pub proof fn lemma_peek_kind(data: Seq<u8>)
    ensures
        peek_kind(data) == Kind::RoyaltyArt <==> data.len() > 0 && data[0] == 1,
        peek_kind(data) == Kind::Uninitialized <==> !(data.len() > 0 && data[0] == 1),
{
}

impl<T: MetadataData> Metadata<T> {
    /// The bytes that store a record: its header, then its payload.
    pub open spec fn encoding(record: MetadataView<T::V>) -> Seq<u8> {
        seq![record.kind.spec_tag()] + (key_encoding(record.mint) + (bool_encoding(
            record.is_modifiable,
        ) + (seq![record.update_type.spec_tag()] + (optional_key_encoding(record.collection)
            + (optional_key_encoding(record.update_authority) + T::encoding(record.data))))))
    }

    /// The record stored in `data` from the offset `at` on, and the offset behind it.
    pub open spec fn stored_at(data: Seq<u8>, at: int) -> Option<(MetadataView<T::V>, int)> {
        match kind_at(data, at) {
            Some((kind, a)) => match key_at(data, a) {
                Some((mint, b)) => match bool_at(data, b) {
                    Some((is_modifiable, c)) => match update_type_at(data, c) {
                        Some((update_type, d)) => match optional_key_at(data, d) {
                            Some((collection, e)) => match optional_key_at(data, e) {
                                Some((update_authority, f)) => match T::stored_at(data, f) {
                                    Some((payload, next)) => Some(
                                        (
                                            MetadataView {
                                                version: LAYOUT_VERSION,
                                                kind,
                                                mint,
                                                is_modifiable,
                                                update_type,
                                                collection,
                                                update_authority,
                                                data: payload,
                                            },
                                            next,
                                        ),
                                    ),
                                    None => None,
                                },
                                None => None,
                            },
                            None => None,
                        },
                        None => None,
                    },
                    None => None,
                },
                None => None,
            },
            None => None,
        }
    }

    /// The stored form of a record has the bytes of its header and those of its payload.
    pub proof fn lemma_size(record: MetadataView<T::V>)
        ensures
            Self::encoding(record).len() == header_size(record) + T::encoding(record.data).len(),
    {
        let data = Seq::<u8>::empty();
        lemma_key_at(data, 0, record.mint);
        lemma_optional_key_at(data, 0, record.collection);
        lemma_optional_key_at(data, 0, record.update_authority);
    }

    proof fn lemma_found_at(data: Seq<u8>, at: int, record: MetadataView<T::V>)
        ensures
            Self::stored_at(data, at) == Some((record, at + Self::encoding(record).len()))
                <==> record.version == LAYOUT_VERSION && T::storable(record.data) && holds_at(
                data,
                at,
                Self::encoding(record),
            ),
            Self::stored_at(data, at) matches Some((found, next)) ==> (found == record ==> next
                == at + Self::encoding(record).len()),
    {
        let kind = seq![record.kind.spec_tag()];
        let mint = key_encoding(record.mint);
        let modifiable = bool_encoding(record.is_modifiable);
        let update_type = seq![record.update_type.spec_tag()];
        let collection = optional_key_encoding(record.collection);
        let authority = optional_key_encoding(record.update_authority);
        let payload = T::encoding(record.data);
        let rest5 = authority + payload;
        let rest4 = collection + rest5;
        let rest3 = update_type + rest4;
        let rest2 = modifiable + rest3;
        let rest1 = mint + rest2;
        let a = at + 1;
        let b = a + 32;
        let c = b + 1;
        let d = c + 1;
        let e = d + collection.len();
        let f = e + authority.len();
        lemma_kind_at(data, at, record.kind);
        lemma_key_at(data, a, record.mint);
        lemma_bool_at(data, b, record.is_modifiable);
        lemma_update_type_at(data, c, record.update_type);
        lemma_optional_key_at(data, d, record.collection);
        lemma_optional_key_at(data, e, record.update_authority);
        T::lemma_stored_at(data, f, record.data);
        lemma_holds_at_concat(data, at, kind, rest1);
        lemma_holds_at_concat(data, a, mint, rest2);
        lemma_holds_at_concat(data, b, modifiable, rest3);
        lemma_holds_at_concat(data, c, update_type, rest4);
        lemma_holds_at_concat(data, d, collection, rest5);
        lemma_holds_at_concat(data, e, authority, payload);
    }

    /// A record is read at an offset exactly where its bytes stand there,
    /// provided that it has the version of the layout and that its payload
    /// can be stored; and what is read ends where its bytes end.
    pub proof fn lemma_stored_at(data: Seq<u8>, at: int, record: MetadataView<T::V>)
        ensures
            Self::stored_at(data, at) == Some((record, at + Self::encoding(record).len()))
                <==> record.version == LAYOUT_VERSION && T::storable(record.data) && holds_at(
                data,
                at,
                Self::encoding(record),
            ),
            Self::stored_at(data, at) matches Some((found, next)) ==> next == at + Self::encoding(
                found,
            ).len(),
    {
        Self::lemma_found_at(data, at, record);
        match Self::stored_at(data, at) {
            Some((found, next)) => {
                Self::lemma_found_at(data, at, found);
            },
            None => {},
        }
    }

    /// The number of bytes that store the record. It is computed from the
    /// record as it is now, never remembered: a record grows with its royalties.
    pub fn size(&self) -> (size: usize)
        requires
            Self::encoding(self@).len() <= usize::MAX,
        ensures
            size == Self::encoding(self@).len(),
    {
        proof {
            Self::lemma_size(self@);
        }
        let mut size = 1  // kind
         + 32  // mint
         + 1  // whether it can be modified
         + 1  // update type
         + self.data.size() + 1;  // collection flag
        size += match self.collection {
            None => 0,
            Some(_) => 32,
        };
        size += 1;  // update authority flag
        return match self.update_authority {
            None => size,
            Some(_) => size + 32,
        }
    }

    /// Appends the stored form of the record to `out`, if its payload can be
    /// stored, and says whether it did.
    pub fn write(&self, out: &mut Vec<u8>) -> (written: bool)
        ensures
            written == T::storable(self@.data),
            final(out)@ == if written {
                old(out)@ + Self::encoding(self@)
            } else {
                old(out)@
            },
    {
        let mut payload: Vec<u8> = Vec::new();
        if !self.data.write(&mut payload) {
            return false;
        }
        put_byte(out, self.kind.tag());
        let ghost out1 = out@;
        put_key(out, &self.mint);
        let ghost out2 = out@;
        put_bool(out, self.is_modifiable);
        let ghost out3 = out@;
        put_byte(out, self.update_type.tag());
        let ghost out4 = out@;
        put_optional_key(out, &self.collection);
        let ghost out5 = out@;
        put_optional_key(out, &self.update_authority);
        let ghost out6 = out@;
        out.append(&mut payload);
        proof {
            let record = self@;
            let part1 = seq![record.kind.spec_tag()];
            let part2 = key_encoding(record.mint);
            let part3 = bool_encoding(record.is_modifiable);
            let part4 = seq![record.update_type.spec_tag()];
            let part5 = optional_key_encoding(record.collection);
            let part6 = optional_key_encoding(record.update_authority);
            let part7 = T::encoding(record.data);
            let rest6 = part6 + part7;
            let rest5 = part5 + rest6;
            let rest4 = part4 + rest5;
            let rest3 = part3 + rest4;
            let rest2 = part2 + rest3;
            assert(out@ =~= out6 + part7);
            lemma_concat_assoc(out5, part6, part7);
            lemma_concat_assoc(out4, part5, rest6);
            lemma_concat_assoc(out3, part4, rest5);
            lemma_concat_assoc(out2, part3, rest4);
            lemma_concat_assoc(out1, part2, rest3);
            lemma_concat_assoc(old(out)@, part1, rest2);
        }
        true
    }

    /// The stored form of the record, if its payload can be stored.
    pub fn to_bytes(&self) -> (bytes: Result<Vec<u8>, ProgramError>)
        ensures
            match bytes {
                Ok(bytes) => T::storable(self@.data) && bytes@ == Self::encoding(self@),
                Err(error) => error == ProgramError::BorshIoError && !T::storable(self@.data),
            },
    {
        let mut out: Vec<u8> = Vec::new();
        if !self.write(&mut out) {
            return Err(ProgramError::BorshIoError);
        }
        assert(out@ =~= Self::encoding(self@));
        Ok(out)
    }

    /// Reads the record stored in `data` from the offset `at` on.
    pub fn read(data: &[u8], at: usize) -> (read: Option<(Metadata<T>, usize)>)
        ensures
            match read {
                Some((record, next)) => Self::stored_at(data@, at as int) == Some(
                    (record@, next as int),
                ),
                None => Self::stored_at(data@, at as int) is None,
            },
    {
        let (kind_tag, a) = match get_byte(data, at) {
            Some(found) => found,
            None => return None,
        };
        if kind_tag > 1 {
            return None;
        }
        let (mint, b) = match get_key(data, a) {
            Some(found) => found,
            None => return None,
        };
        let (is_modifiable, c) = match get_bool(data, b) {
            Some(found) => found,
            None => return None,
        };
        let (update_tag, d) = match get_byte(data, c) {
            Some(found) => found,
            None => return None,
        };
        if update_tag > 2 {
            return None;
        }
        let (collection, e) = match get_optional_key(data, d) {
            Some(found) => found,
            None => return None,
        };
        let (update_authority, f) = match get_optional_key(data, e) {
            Some(found) => found,
            None => return None,
        };
        let (payload, next) = match T::read(data, f) {
            Some(found) => found,
            None => return None,
        };
        Some(
            (
                Metadata {
                    version: LAYOUT_VERSION,
                    kind: Kind::from(&kind_tag),
                    mint,
                    is_modifiable,
                    update_type: UpdateType::from(&update_tag),
                    collection,
                    update_authority,
                    data: payload,
                },
                next,
            ),
        )
    }

    /// Reads the record that stands at the start of `data`. What follows it
    /// in `data` is not looked at. The record that is read is the only one
    /// whose stored form stands there; where there is none, the reading fails.
    pub fn from_slice(data: &[u8]) -> (read: Result<Metadata<T>, ProgramError>)
        ensures
            match read {
                Ok(record) => record@.version == LAYOUT_VERSION && T::storable(record@.data)
                    && holds_at(data@, 0, Self::encoding(record@)),
                Err(error) => error == ProgramError::BorshIoError && forall|
                    other: MetadataView<T::V>,
                |
                    T::storable(other.data) ==> !holds_at(
                        data@,
                        0,
                        #[trigger] Self::encoding(other),
                    ),
            },
            read is Ok <==> Self::stored_at(data@, 0) is Some,
            read matches Ok(record) ==> Self::stored_at(data@, 0).unwrap().0 == record@,
    {
        match Self::read(data, 0) {
            Some((record, _)) => {
                proof {
                    Self::lemma_stored_at(data@, 0, record@);
                }
                Ok(record)
            },
            None => {
                proof {
                    assert forall|other: MetadataView<T::V>| T::storable(other.data) implies !holds_at(
                        data@,
                        0,
                        #[trigger] Self::encoding(other),
                    ) by {
                        let same = MetadataView { version: LAYOUT_VERSION, ..other };
                        Self::lemma_stored_at(data@, 0, same);
                    }
                }
                Err(ProgramError::BorshIoError)
            },
        }
    }

    /// Reads the record that stands at the start of the account's buffer.
    pub fn from_account_info(
        account_info: &AccountInfo,
    ) -> (read: Result<Metadata<T>, ProgramError>)
        ensures
            match read {
                Ok(record) => record@.version == LAYOUT_VERSION && T::storable(record@.data)
                    && holds_at(account_info.data@, 0, Self::encoding(record@)),
                Err(error) => error == ProgramError::BorshIoError && forall|
                    other: MetadataView<T::V>,
                |
                    T::storable(other.data) ==> !holds_at(
                        account_info.data@,
                        0,
                        #[trigger] Self::encoding(other),
                    ),
            },
            read is Ok <==> Self::stored_at(account_info.data@, 0) is Some,
            read matches Ok(record) ==> Self::stored_at(account_info.data@, 0).unwrap().0
                == record@,
    {
        Self::from_slice(account_info.data.as_slice())
    }

    /// The kind of the record in the account's buffer, told from the first
    /// byte alone. Nothing else is read, and every buffer has a kind.
    pub fn get_kind(account_info: &AccountInfo) -> (kind: Result<Kind, ProgramError>)
        ensures
            kind == Ok::<Kind, ProgramError>(peek_kind(account_info.data@)),
    {
        if account_info.data.len() == 0 {
            return Ok(Kind::Uninitialized);
        }
        Ok(Kind::from(&account_info.data[0]))
    }
}

} // verus!
