use borsh::{BorshDeserialize, BorshSerialize};
use ree_metadata::account::AccountInfo;
use ree_metadata::error::ProgramError;
use ree_metadata::pubkey::Pubkey;
use ree_metadata::state::{
    ArtNft, CustomNft, Kind, Metadata, MetadataData, Royalty, UpdateType, LAYOUT_VERSION, PREFIX,
};
use ree_metadata::unpack::unpack_string;

fn key(n: u8) -> Pubkey {
    Pubkey { bytes: [n; 32] }
}

fn art(name: &str, symbol: &str, uri: &str, royalties: Vec<Royalty>) -> ArtNft {
    ArtNft {
        name: name.to_string(),
        symbol: symbol.to_string(),
        uri: uri.to_string(),
        resale_fee: 10,
        initial_sale: false,
        collection: None,
        royalties,
    }
}

fn record(data: ArtNft) -> Metadata<ArtNft> {
    Metadata {
        version: LAYOUT_VERSION,
        kind: Kind::RoyaltyArt,
        mint: key(2),
        is_modifiable: true,
        update_type: UpdateType::WalletSigner,
        collection: None,
        update_authority: Some(key(3)),
        data,
    }
}

fn holder(n: u8, share: u16) -> Royalty {
    Royalty { address: key(n), share, verified: true }
}

fn account_with(data: Vec<u8>) -> AccountInfo {
    AccountInfo {
        key: key(1),
        owner: key(9),
        lamports: 0,
        is_signer: false,
        is_writable: true,
        data,
    }
}

fn sample_bytes() -> Vec<u8> {
    let mut expected: Vec<u8> = Vec::new();
    expected.push(1); // kind
    expected.extend_from_slice(&[2u8; 32]); // mint
    expected.push(1); // is_modifiable
    expected.push(1); // update type
    expected.push(0); // no collection
    expected.push(1); // update authority
    expected.extend_from_slice(&[3u8; 32]);
    expected.extend_from_slice(&[2, 0, 0, 0, b'a', b'b']); // name
    expected.extend_from_slice(&[1, 0, 0, 0, b'S']); // symbol
    expected.extend_from_slice(&[0, 0, 0, 0]); // uri
    expected.extend_from_slice(&[10, 0]); // resale fee
    expected.push(0); // initial sale
    expected.push(0); // no collection in the payload
    expected.extend_from_slice(&[1, 0, 0, 0]); // one royalty
    expected.extend_from_slice(&[4u8; 32]);
    expected.extend_from_slice(&[100, 0]);
    expected.push(1);
    expected
}

#[test]
fn prefix_is_the_seed_of_record_addresses() {
    assert_eq!(PREFIX, "ree-metadata");
}

#[test]
fn record_is_stored_field_by_field() {
    let metadata = record(art("ab", "S", "", vec![holder(4, 100)]));
    assert_eq!(metadata.to_bytes(), Ok(sample_bytes()));
}

#[test]
fn size_counts_every_stored_byte() {
    let metadata = record(art("ab", "S", "", vec![holder(4, 100)]));
    assert_eq!(metadata.size(), 127);
    assert_eq!(metadata.size(), metadata.to_bytes().unwrap().len());
    assert_eq!(metadata.data.size(), 58);
    assert_eq!(Royalty::size(), 35);
}

#[test]
fn size_counts_the_optional_identities() {
    let mut metadata = record(art("name", "SYM", "https://example.org/1", vec![holder(4, 100)]));
    let without = metadata.size();
    metadata.collection = Some(key(7));
    assert_eq!(metadata.size(), without + 32);
    metadata.update_authority = None;
    assert_eq!(metadata.size(), without);
    metadata.data.collection = Some(key(8));
    assert_eq!(metadata.size(), without + 32);
    assert_eq!(metadata.size(), metadata.to_bytes().unwrap().len());
}

#[test]
fn size_counts_text_in_bytes_not_in_characters() {
    let payload = art("h\u{e9}llo", "\u{20ac}", "", vec![]);
    // 4 + 6, 4 + 3, 4 + 0, fee 2, sale 1, collection flag 1, count 4
    assert_eq!(payload.size(), 10 + 7 + 4 + 2 + 1 + 1 + 4);
}

#[test]
fn custom_payload_is_a_length_and_its_bytes() {
    let payload = CustomNft { data: vec![9, 8, 7] };
    assert_eq!(payload.size(), 7);
    let mut out = vec![0xaa];
    assert!(payload.write(&mut out));
    assert_eq!(out, vec![0xaa, 3, 0, 0, 0, 9, 8, 7]);
    assert_eq!(CustomNft::read(&out, 1), Some((CustomNft { data: vec![9, 8, 7] }, 8)));
    assert_eq!(CustomNft::read(&out, 2), None);
}

#[test]
fn record_is_read_back_as_it_was_stored() {
    let mut metadata = record(art(
        "Sunset",
        "SUN",
        "https://example.org/sunset.json",
        vec![holder(4, 70), holder(5, 30)],
    ));
    metadata.collection = Some(key(6));
    metadata.data.collection = Some(key(7));
    metadata.data.initial_sale = true;
    let bytes = metadata.to_bytes().unwrap();
    assert_eq!(Metadata::<ArtNft>::from_slice(&bytes), Ok(metadata.clone()));
    assert_eq!(Metadata::<ArtNft>::read(&bytes, 0), Some((metadata, bytes.len())));
}

#[test]
fn what_follows_a_record_is_not_read() {
    let metadata = record(art("ab", "S", "", vec![holder(4, 100)]));
    let mut bytes = sample_bytes();
    bytes.extend_from_slice(&[0xff; 40]);
    assert_eq!(Metadata::<ArtNft>::from_slice(&bytes), Ok(metadata.clone()));
    assert_eq!(Metadata::<ArtNft>::from_account_info(&account_with(bytes)), Ok(metadata));
}

#[test]
fn a_record_read_has_the_version_of_the_layout() {
    let mut metadata = record(art("ab", "S", "", vec![holder(4, 100)]));
    metadata.version = 7;
    let bytes = metadata.to_bytes().unwrap();
    assert_eq!(bytes, sample_bytes());
    assert_eq!(Metadata::<ArtNft>::from_slice(&bytes).unwrap().version, LAYOUT_VERSION);
}

#[test]
fn a_cut_record_is_not_read() {
    let bytes = sample_bytes();
    for len in 0..bytes.len() {
        assert_eq!(
            Metadata::<ArtNft>::from_slice(&bytes[..len]),
            Err(ProgramError::BorshIoError),
            "cut at {}",
            len
        );
    }
}

#[test]
fn an_undefined_tag_or_flag_is_not_read() {
    let at_kind = 0;
    let at_modifiable = 33;
    let at_update_type = 34;
    let at_collection = 35;
    let at_authority = 36;
    let at_sale = 69 + 6 + 5 + 4 + 2;
    let at_verified = sample_bytes().len() - 1;
    for (at, value) in [
        (at_kind, 2u8),
        (at_modifiable, 2),
        (at_update_type, 3),
        (at_collection, 2),
        (at_authority, 2),
        (at_sale, 2),
        (at_sale + 1, 2),
        (at_verified, 2),
    ] {
        let mut bytes = sample_bytes();
        bytes[at] = value;
        assert_eq!(
            Metadata::<ArtNft>::from_slice(&bytes),
            Err(ProgramError::BorshIoError),
            "byte {}",
            at
        );
    }
}

#[test]
fn text_that_is_not_utf8_is_not_read() {
    let mut bytes = sample_bytes();
    bytes[69 + 4] = 0xff;
    assert_eq!(Metadata::<ArtNft>::from_slice(&bytes), Err(ProgramError::BorshIoError));
}

#[test]
fn payload_is_read_from_the_front_of_a_slice() {
    let payload = art("ab", "S", "", vec![holder(4, 100)]);
    let bytes = sample_bytes();
    assert_eq!(ArtNft::from_slice(&bytes[69..]), Ok(payload));
    assert_eq!(ArtNft::from_slice(&bytes[70..]), Err(ProgramError::BorshIoError));
}

#[test]
fn custom_record_is_read_back_as_it_was_stored() {
    let metadata: Metadata<CustomNft> = Metadata {
        version: LAYOUT_VERSION,
        kind: Kind::Uninitialized,
        mint: key(2),
        is_modifiable: false,
        update_type: UpdateType::Nobody,
        collection: Some(key(5)),
        update_authority: None,
        data: CustomNft { data: vec![1, 2, 3, 4, 5] },
    };
    let bytes = metadata.to_bytes().unwrap();
    assert_eq!(bytes.len(), 1 + 32 + 1 + 1 + 33 + 1 + 4 + 5);
    assert_eq!(metadata.size(), bytes.len());
    assert_eq!(bytes[0], 0);
    assert_eq!(bytes[34], 0);
    assert_eq!(Metadata::<CustomNft>::from_slice(&bytes), Ok(metadata));
}

#[test]
fn stored_form_is_the_one_of_borsh() {
    let metadata = record(art(
        "Sunset",
        "SUN",
        "https://example.org/sunset.json",
        vec![holder(4, 70), holder(5, 30)],
    ));
    let mut expected: Vec<u8> = Vec::new();
    expected.extend(1u8.try_to_vec().unwrap());
    expected.extend([2u8; 32].try_to_vec().unwrap());
    expected.extend(true.try_to_vec().unwrap());
    expected.extend(1u8.try_to_vec().unwrap());
    expected.extend(Option::<[u8; 32]>::None.try_to_vec().unwrap());
    expected.extend(Some([3u8; 32]).try_to_vec().unwrap());
    expected.extend("Sunset".to_string().try_to_vec().unwrap());
    expected.extend("SUN".to_string().try_to_vec().unwrap());
    expected.extend("https://example.org/sunset.json".to_string().try_to_vec().unwrap());
    expected.extend(10u16.try_to_vec().unwrap());
    expected.extend(false.try_to_vec().unwrap());
    expected.extend(Option::<[u8; 32]>::None.try_to_vec().unwrap());
    expected.extend(
        vec![([4u8; 32], 70u16, true), ([5u8; 32], 30u16, true)].try_to_vec().unwrap(),
    );
    assert_eq!(metadata.to_bytes(), Ok(expected));
}

fn optional_key(bytes: Option<[u8; 32]>) -> Option<Pubkey> {
    bytes.map(|bytes| Pubkey { bytes })
}

/// Reads a record field by field with the readers of borsh.
fn read_with_borsh(data: &[u8]) -> Result<Metadata<ArtNft>, ProgramError> {
    fn read(mut buf: &[u8]) -> std::io::Result<Metadata<ArtNft>> {
        let buf = &mut buf;
        let invalid = || std::io::Error::new(std::io::ErrorKind::InvalidInput, "tag");
        let kind = match u8::deserialize(buf)? {
            0 => Kind::Uninitialized,
            1 => Kind::RoyaltyArt,
            _ => return Err(invalid()),
        };
        let mint = Pubkey { bytes: <[u8; 32]>::deserialize(buf)? };
        let is_modifiable = bool::deserialize(buf)?;
        let update_type = match u8::deserialize(buf)? {
            0 => UpdateType::Nobody,
            1 => UpdateType::WalletSigner,
            2 => UpdateType::NftToken,
            _ => return Err(invalid()),
        };
        let collection = optional_key(Option::<[u8; 32]>::deserialize(buf)?);
        let update_authority = optional_key(Option::<[u8; 32]>::deserialize(buf)?);
        let name = String::deserialize(buf)?;
        let symbol = String::deserialize(buf)?;
        let uri = String::deserialize(buf)?;
        let resale_fee = u16::deserialize(buf)?;
        let initial_sale = bool::deserialize(buf)?;
        let payload_collection = optional_key(Option::<[u8; 32]>::deserialize(buf)?);
        let royalties = Vec::<([u8; 32], u16, bool)>::deserialize(buf)?
            .into_iter()
            .map(|(bytes, share, verified)| Royalty { address: Pubkey { bytes }, share, verified })
            .collect();
        Ok(Metadata {
            version: LAYOUT_VERSION,
            kind,
            mint,
            is_modifiable,
            update_type,
            collection,
            update_authority,
            data: ArtNft {
                name,
                symbol,
                uri,
                resale_fee,
                initial_sale,
                collection: payload_collection,
                royalties,
            },
        })
    }
    read(data).map_err(|_| ProgramError::BorshIoError)
}

#[test]
fn records_are_read_as_borsh_reads_them_whatever_byte_is_changed() {
    let mut second = record(art("h\u{e9}", "S", "u", vec![holder(4, 70), holder(5, 30)]));
    second.collection = Some(key(6));
    second.data.collection = Some(key(7));
    for good in [sample_bytes(), second.to_bytes().unwrap()] {
        assert_eq!(Metadata::<ArtNft>::from_slice(&good), read_with_borsh(&good));
        assert!(read_with_borsh(&good).is_ok());
        for at in 0..good.len() {
            for value in [0u8, 1, 2, 3, 4, 35, 128, 255] {
                let mut data = good.clone();
                data[at] = value;
                assert_eq!(
                    Metadata::<ArtNft>::from_slice(&data),
                    read_with_borsh(&data),
                    "byte {} set to {}",
                    at,
                    value
                );
            }
        }
        for len in 0..good.len() {
            assert_eq!(Metadata::<ArtNft>::from_slice(&good[..len]), read_with_borsh(&good[..len]));
        }
    }
}

#[test]
fn kind_is_told_from_the_first_byte() {
    assert_eq!(Metadata::<ArtNft>::get_kind(&account_with(vec![1, 2, 3])), Ok(Kind::RoyaltyArt));
    assert_eq!(Metadata::<ArtNft>::get_kind(&account_with(vec![0, 2, 3])), Ok(Kind::Uninitialized));
    assert_eq!(Metadata::<ArtNft>::get_kind(&account_with(sample_bytes())), Ok(Kind::RoyaltyArt));
}

#[test]
fn every_other_first_byte_is_the_opaque_kind() {
    for byte in 0..=255u8 {
        let expected = if byte == 1 { Kind::RoyaltyArt } else { Kind::Uninitialized };
        assert_eq!(Metadata::<CustomNft>::get_kind(&account_with(vec![byte])), Ok(expected));
        assert_eq!(Kind::from(&byte), expected);
    }
    assert_eq!(Metadata::<CustomNft>::get_kind(&account_with(vec![])), Ok(Kind::Uninitialized));
}

#[test]
fn tags_of_kind_and_update_type() {
    assert_eq!(Kind::Uninitialized.tag(), 0);
    assert_eq!(Kind::RoyaltyArt.tag(), 1);
    assert_eq!(UpdateType::Nobody.tag(), 0);
    assert_eq!(UpdateType::WalletSigner.tag(), 1);
    assert_eq!(UpdateType::NftToken.tag(), 2);
    assert_eq!(UpdateType::from(&0), UpdateType::Nobody);
    assert_eq!(UpdateType::from(&1), UpdateType::WalletSigner);
    assert_eq!(UpdateType::from(&2), UpdateType::NftToken);
    assert_eq!(UpdateType::from(&3), UpdateType::Nobody);
    assert_eq!(UpdateType::from(&255), UpdateType::Nobody);
}

#[test]
fn unpack_string_reads_length_then_text() {
    let data = [3, 0, 0, 0, b'a', b'b', b'c', 9, 9];
    let (text, rest) = unpack_string(&data).unwrap();
    assert_eq!(text, "abc");
    assert_eq!(rest, &[9, 9]);
}

#[test]
fn unpack_string_reads_an_empty_text() {
    let data = [0, 0, 0, 0, 7];
    let (text, rest) = unpack_string(&data).unwrap();
    assert_eq!(text, "");
    assert_eq!(rest, &[7]);
    let (text, rest) = unpack_string(&data[..4]).unwrap();
    assert_eq!(text, "");
    assert!(rest.is_empty());
}

#[test]
fn unpack_string_reads_text_of_several_bytes_a_character() {
    let data = [5, 0, 0, 0, 0xe2, 0x82, 0xac, 0xc3, 0xa9];
    let (text, rest) = unpack_string(&data).unwrap();
    assert_eq!(text, "\u{20ac}\u{e9}");
    assert!(rest.is_empty());
}

#[test]
fn unpack_string_refuses_short_data() {
    assert_eq!(unpack_string(&[]), None);
    assert_eq!(unpack_string(&[1, 0, 0]), None);
    assert_eq!(unpack_string(&[2, 0, 0, 0, b'a']), None);
    assert_eq!(unpack_string(&[0xff, 0xff, 0xff, 0xff, b'a']), None);
}

#[test]
fn unpack_string_refuses_what_is_not_utf8() {
    assert_eq!(unpack_string(&[2, 0, 0, 0, 0xc3, 0x28]), None);
    assert_eq!(unpack_string(&[1, 0, 0, 0, 0x80]), None);
    // A character cut in the middle.
    assert_eq!(unpack_string(&[2, 0, 0, 0, 0xe2, 0x82, 0xac]), None);
}
