//! The byte framing shared by stored records and instruction payloads.
//!
//! Integers are little-endian and of fixed width. A flag is one byte, 0 or 1.
//! A byte string or a text is preceded by its length in bytes, as a 32-bit
//! integer; a text is UTF-8. An identity is its 32 bytes. An optional value is
//! a flag, followed by the value where the flag is 1.
//!
//! For each form there is the sequence of bytes that stores a value
//! (`.._encoding`), the value stored in a buffer at an offset, together with
//! the offset behind it (`.._at`), and a law that says that the two agree.

use crate::pubkey::Pubkey;
use vstd::prelude::*;
use vstd::slice::*;
use vstd::utf8::*;

verus! {

/// `piece` stands in `data` from offset `at` on.
pub open spec fn holds_at(data: Seq<u8>, at: int, piece: Seq<u8>) -> bool {
    &&& 0 <= at
    &&& at + piece.len() <= data.len()
    &&& data.subrange(at, at + piece.len()) == piece
}

/// Two pieces stand one behind the other exactly where their concatenation stands.
pub proof fn lemma_holds_at_concat(data: Seq<u8>, at: int, first: Seq<u8>, second: Seq<u8>)
    ensures
        holds_at(data, at, first + second) <==> holds_at(data, at, first) && holds_at(
            data,
            at + first.len(),
            second,
        ),
{
    let both = first + second;
    let mid = at + first.len();
    if holds_at(data, at, both) {
        assert forall|i: int| 0 <= i < first.len() implies data.subrange(at, mid)[i] == first[i] by {
            assert(data.subrange(at, at + both.len())[i] == both[i]);
        }
        assert(data.subrange(at, mid) =~= first);
        assert forall|i: int| 0 <= i < second.len() implies data.subrange(
            mid,
            mid + second.len(),
        )[i] == second[i] by {
            assert(data.subrange(at, at + both.len())[i + first.len()] == both[i + first.len()]);
        }
        assert(data.subrange(mid, mid + second.len()) =~= second);
    }
    if holds_at(data, at, first) && holds_at(data, mid, second) {
        assert forall|i: int| 0 <= i < both.len() implies data.subrange(at, at + both.len())[i]
            == both[i] by {
            if i < first.len() {
                assert(data.subrange(at, mid)[i] == first[i]);
            } else {
                assert(data.subrange(mid, mid + second.len())[i - first.len()] == second[i
                    - first.len()]);
            }
        }
        assert(data.subrange(at, at + both.len()) =~= both);
    }
}

/// A piece that stands at the start of a buffer stands there whatever follows the buffer.
pub proof fn lemma_holds_at_start(piece: Seq<u8>, tail: Seq<u8>)
    ensures
        holds_at(piece + tail, 0, piece),
{
    assert((piece + tail).subrange(0, piece.len() as int) =~= piece);
}

/// Pieces may be joined in any grouping.
pub proof fn lemma_concat_assoc(first: Seq<u8>, second: Seq<u8>, third: Seq<u8>)
    ensures
        (first + second) + third == first + (second + third),
{
    assert((first + second) + third =~= first + (second + third));
}

/// The byte that stores a flag: 1 for yes, 0 for no.
pub open spec fn bool_encoding(value: bool) -> Seq<u8> {
    seq![if value { 1u8 } else { 0u8 }]
}

/// The flag stored at an offset, and the offset behind it. A byte other than
/// 0 and 1 is no flag.
pub open spec fn bool_at(data: Seq<u8>, at: int) -> Option<(bool, int)> {
    if 0 <= at < data.len() && data[at] <= 1 {
        Some((data[at] == 1, at + 1))
    } else {
        None
    }
}

/// A flag is read at an offset exactly where its byte stands there.
pub proof fn lemma_bool_at(data: Seq<u8>, at: int, value: bool)
    ensures
        bool_at(data, at) == Some((value, at + 1)) <==> holds_at(data, at, bool_encoding(value)),
{
    let piece = bool_encoding(value);
    if holds_at(data, at, piece) {
        assert(data.subrange(at, at + 1)[0] == piece[0]);
    }
    if bool_at(data, at) == Some((value, at + 1)) {
        assert(data.subrange(at, at + 1) =~= piece);
    }
}

/// The byte at an offset, and the offset behind it.
pub open spec fn byte_at(data: Seq<u8>, at: int) -> Option<(u8, int)> {
    if 0 <= at < data.len() {
        Some((data[at], at + 1))
    } else {
        None
    }
}

/// A byte is read at an offset exactly where it stands there.
pub proof fn lemma_byte_at(data: Seq<u8>, at: int, value: u8)
    ensures
        byte_at(data, at) == Some((value, at + 1)) <==> holds_at(data, at, seq![value]),
{
    let piece = seq![value];
    if holds_at(data, at, piece) {
        assert(data.subrange(at, at + 1)[0] == piece[0]);
    }
    if byte_at(data, at) == Some((value, at + 1)) {
        assert(data.subrange(at, at + 1) =~= piece);
    }
}

/// The bytes that store a 16-bit integer: two, the low one first.
pub open spec fn u16_encoding(value: u16) -> Seq<u8> {
    seq![(value % 256) as u8, (value / 256) as u8]
}

/// The bytes that store a 32-bit integer: four, the lowest first.
pub open spec fn u32_encoding(value: u32) -> Seq<u8> {
    seq![
        (value % 256) as u8,
        (value / 0x100 % 256) as u8,
        (value / 0x1_0000 % 256) as u8,
        (value / 0x100_0000) as u8,
    ]
}

/// The bytes that store a 64-bit integer: eight, the lowest first.
pub open spec fn u64_encoding(value: u64) -> Seq<u8> {
    seq![
        (value % 256) as u8,
        (value / 0x100 % 256) as u8,
        (value / 0x1_0000 % 256) as u8,
        (value / 0x100_0000 % 256) as u8,
        (value / 0x1_0000_0000 % 256) as u8,
        (value / 0x100_0000_0000 % 256) as u8,
        (value / 0x1_0000_0000_0000 % 256) as u8,
        (value / 0x100_0000_0000_0000) as u8,
    ]
}

/// The 16-bit integer that two bytes stand for, the low one first.
pub open spec fn u16_value(bytes: Seq<u8>) -> u16 {
    (bytes[0] + 0x100 * bytes[1]) as u16
}

/// The 32-bit integer that four bytes stand for, the lowest first.
pub open spec fn u32_value(bytes: Seq<u8>) -> u32 {
    (bytes[0] + 0x100 * bytes[1] + 0x1_0000 * bytes[2] + 0x100_0000 * bytes[3]) as u32
}

/// The 64-bit integer that eight bytes stand for, the lowest first.
pub open spec fn u64_value(bytes: Seq<u8>) -> u64 {
    (bytes[0] + 0x100 * bytes[1] + 0x1_0000 * bytes[2] + 0x100_0000 * bytes[3] + 0x1_0000_0000
        * bytes[4] + 0x100_0000_0000 * bytes[5] + 0x1_0000_0000_0000 * bytes[6]
        + 0x100_0000_0000_0000 * bytes[7]) as u64
}

/// Bytes stand for the integer that they store, and for no other.
pub proof fn lemma_u16_value(value: u16, bytes: Seq<u8>)
    requires
        bytes.len() == 2,
    ensures
        u16_value(u16_encoding(value)) == value,
        u16_encoding(u16_value(bytes)) == bytes,
{
    assert(u16_encoding(u16_value(bytes)) =~= bytes);
}

/// A number is its lowest byte and, 256 times, what is above that byte.
proof fn lemma_low_byte(low: int, high: int)
    requires
        0 <= low < 256,
    ensures
        (low + 256 * high) % 256 == low,
        (low + 256 * high) / 256 == high,
{
}

/// To cut off several bytes at once is to cut them off one by one.
proof fn lemma_cut_bytes(value: int)
    requires
        0 <= value,
    ensures
        value / 0x1_0000 == value / 0x100 / 0x100,
        value / 0x100_0000 == value / 0x100 / 0x100 / 0x100,
        value / 0x1_0000_0000 == value / 0x100 / 0x100 / 0x100 / 0x100,
        value / 0x100_0000_0000 == value / 0x100 / 0x100 / 0x100 / 0x100 / 0x100,
        value / 0x1_0000_0000_0000 == value / 0x100 / 0x100 / 0x100 / 0x100 / 0x100 / 0x100,
        value / 0x100_0000_0000_0000 == value / 0x100 / 0x100 / 0x100 / 0x100 / 0x100 / 0x100
            / 0x100,
{
    let a = value / 0x100;
    let b = a / 0x100;
    let c = b / 0x100;
    let d = c / 0x100;
    let e = d / 0x100;
    let f = e / 0x100;
    assert(value / 0x1_0000 == b);
    assert(value / 0x100_0000 == c);
    assert(value / 0x1_0000_0000 == d);
    assert(value / 0x100_0000_0000 == e);
    assert(value / 0x1_0000_0000_0000 == f);
    assert(value / 0x100_0000_0000_0000 == f / 0x100);
}

/// Bytes stand for the integer that they store, and for no other.
pub proof fn lemma_u32_value(value: u32, bytes: Seq<u8>)
    requires
        bytes.len() == 4,
    ensures
        u32_value(u32_encoding(value)) == value,
        u32_encoding(u32_value(bytes)) == bytes,
{
    lemma_cut_bytes(value as int);
    let above2 = bytes[2] + 256 * bytes[3];
    let above1 = bytes[1] + 256 * above2;
    let all = bytes[0] + 256 * above1;
    lemma_low_byte(bytes[0] as int, above1);
    lemma_low_byte(bytes[1] as int, above2);
    lemma_low_byte(bytes[2] as int, bytes[3] as int);
    lemma_cut_bytes(all);
    assert(u32_value(bytes) == all);
    assert(u32_encoding(u32_value(bytes)) =~= bytes);
}

/// Bytes stand for the integer that they store, and for no other.
pub proof fn lemma_u64_value(value: u64, bytes: Seq<u8>)
    requires
        bytes.len() == 8,
    ensures
        u64_value(u64_encoding(value)) == value,
        u64_encoding(u64_value(bytes)) == bytes,
{
    lemma_cut_bytes(value as int);
    let above6 = bytes[6] + 256 * bytes[7];
    let above5 = bytes[5] + 256 * above6;
    let above4 = bytes[4] + 256 * above5;
    let above3 = bytes[3] + 256 * above4;
    let above2 = bytes[2] + 256 * above3;
    let above1 = bytes[1] + 256 * above2;
    let all = bytes[0] + 256 * above1;
    lemma_low_byte(bytes[0] as int, above1);
    lemma_low_byte(bytes[1] as int, above2);
    lemma_low_byte(bytes[2] as int, above3);
    lemma_low_byte(bytes[3] as int, above4);
    lemma_low_byte(bytes[4] as int, above5);
    lemma_low_byte(bytes[5] as int, above6);
    lemma_low_byte(bytes[6] as int, bytes[7] as int);
    lemma_cut_bytes(all);
    assert(u64_value(bytes) == all);
    assert(u64_encoding(u64_value(bytes)) =~= bytes);
}

/// The 16-bit integer stored at an offset, little-endian, and the offset
/// behind it.
pub open spec fn u16_at(data: Seq<u8>, at: int) -> Option<(u16, int)> {
    if 0 <= at && at + 2 <= data.len() {
        Some((u16_value(data.subrange(at, at + 2)), at + 2))
    } else {
        None
    }
}

/// The 32-bit integer stored at an offset, little-endian, and the offset
/// behind it.
pub open spec fn u32_at(data: Seq<u8>, at: int) -> Option<(u32, int)> {
    if 0 <= at && at + 4 <= data.len() {
        Some((u32_value(data.subrange(at, at + 4)), at + 4))
    } else {
        None
    }
}

/// The 64-bit integer stored at an offset, little-endian, and the offset
/// behind it.
pub open spec fn u64_at(data: Seq<u8>, at: int) -> Option<(u64, int)> {
    if 0 <= at && at + 8 <= data.len() {
        Some((u64_value(data.subrange(at, at + 8)), at + 8))
    } else {
        None
    }
}

/// An integer is read at an offset exactly where its bytes stand there.
pub proof fn lemma_u16_at(data: Seq<u8>, at: int, value: u16)
    ensures
        u16_encoding(value).len() == 2,
        u16_at(data, at) == Some((value, at + 2)) <==> holds_at(data, at, u16_encoding(value)),
{
    if 0 <= at && at + 2 <= data.len() {
        lemma_u16_value(value, data.subrange(at, at + 2));
    }
}

/// An integer is read at an offset exactly where its bytes stand there.
pub proof fn lemma_u32_at(data: Seq<u8>, at: int, value: u32)
    ensures
        u32_encoding(value).len() == 4,
        u32_at(data, at) == Some((value, at + 4)) <==> holds_at(data, at, u32_encoding(value)),
{
    if 0 <= at && at + 4 <= data.len() {
        lemma_u32_value(value, data.subrange(at, at + 4));
    }
}

/// An integer is read at an offset exactly where its bytes stand there.
pub proof fn lemma_u64_at(data: Seq<u8>, at: int, value: u64)
    ensures
        u64_encoding(value).len() == 8,
        u64_at(data, at) == Some((value, at + 8)) <==> holds_at(data, at, u64_encoding(value)),
{
    if 0 <= at && at + 8 <= data.len() {
        lemma_u64_value(value, data.subrange(at, at + 8));
    }
}

/// The bytes that store a byte string: its length, in four bytes, and the
/// string itself.
pub open spec fn blob_encoding(bytes: Seq<u8>) -> Seq<u8> {
    u32_encoding(bytes.len() as u32) + bytes
}

/// The byte string stored at an offset, and the offset behind it. There is
/// none where the buffer ends before the length does, or before the bytes
/// that the length announces.
pub open spec fn blob_at(data: Seq<u8>, at: int) -> Option<(Seq<u8>, int)> {
    match u32_at(data, at) {
        Some((len, body)) => if body + len <= data.len() {
            Some((data.subrange(body, body + len), body + len))
        } else {
            None
        },
        None => None,
    }
}

/// A byte string is read at an offset exactly where its length and its
/// bytes stand there, and its length fits the four bytes in front.
pub proof fn lemma_blob_at(data: Seq<u8>, at: int, bytes: Seq<u8>)
    ensures
        blob_encoding(bytes).len() == 4 + bytes.len(),
        blob_at(data, at) == Some((bytes, at + 4 + bytes.len())) <==> bytes.len() <= u32::MAX
            && holds_at(data, at, blob_encoding(bytes)),
        blob_at(data, at) matches Some((found, next)) ==> next == at + 4 + found.len()
            && found.len() <= u32::MAX,
{
    let len = bytes.len() as u32;
    lemma_u32_at(data, at, len);
    lemma_holds_at_concat(data, at, u32_encoding(len), bytes);
    if blob_at(data, at) == Some((bytes, at + 4 + bytes.len())) {
        let stored = u32_at(data, at).unwrap().0;
        assert(stored == bytes.len());
        assert(stored == len);
    }
}

/// The bytes that store a text: its UTF-8 form as a byte string.
pub open spec fn text_encoding(text: Seq<char>) -> Seq<u8> {
    blob_encoding(encode_utf8(text))
}

/// The text stored at an offset, and the offset behind it. There is none
/// where no byte string is stored there, or one that is not UTF-8.
pub open spec fn text_at(data: Seq<u8>, at: int) -> Option<(Seq<char>, int)> {
    match blob_at(data, at) {
        Some((bytes, next)) => if valid_utf8(bytes) {
            Some((decode_utf8(bytes), next))
        } else {
            None
        },
        None => None,
    }
}

/// A text is read at an offset exactly where the length of its UTF-8 form
/// and that form stand there, and the length fits the four bytes in front.
pub proof fn lemma_text_at(data: Seq<u8>, at: int, text: Seq<char>)
    ensures
        text_encoding(text).len() == 4 + encode_utf8(text).len(),
        text_at(data, at) == Some((text, at + text_encoding(text).len())) <==> encode_utf8(
            text,
        ).len() <= u32::MAX && holds_at(data, at, text_encoding(text)),
        text_at(data, at) matches Some((found, next)) ==> next == at + text_encoding(found).len()
            && encode_utf8(found).len() <= u32::MAX,
{
    let bytes = encode_utf8(text);
    lemma_blob_at(data, at, bytes);
    encode_utf8_valid_utf8(text);
    encode_utf8_decode_utf8(text);
    match blob_at(data, at) {
        Some((stored, next)) => {
            lemma_blob_at(data, at, stored);
            if valid_utf8(stored) {
                decode_utf8_encode_utf8(stored);
                lemma_blob_at(data, at, encode_utf8(decode_utf8(stored)));
            }
        },
        None => {},
    }
}

/// The bytes that store an identity: its own 32 bytes.
pub open spec fn key_encoding(key: Pubkey) -> Seq<u8> {
    key.bytes@
}

/// The identity made of the first 32 bytes of `bytes`.
pub open spec fn key_of(bytes: Seq<u8>) -> Pubkey {
    Pubkey {
        bytes: [
            bytes[0], bytes[1], bytes[2], bytes[3], bytes[4], bytes[5], bytes[6], bytes[7],
            bytes[8], bytes[9], bytes[10], bytes[11], bytes[12], bytes[13], bytes[14], bytes[15],
            bytes[16], bytes[17], bytes[18], bytes[19], bytes[20], bytes[21], bytes[22], bytes[23],
            bytes[24], bytes[25], bytes[26], bytes[27], bytes[28], bytes[29], bytes[30], bytes[31],
        ],
    }
}

/// The identity stored at an offset, and the offset behind it.
pub open spec fn key_at(data: Seq<u8>, at: int) -> Option<(Pubkey, int)> {
    if 0 <= at && at + 32 <= data.len() {
        Some((key_of(data.subrange(at, at + 32)), at + 32))
    } else {
        None
    }
}

/// An identity is made of its own bytes, and of no others.
pub proof fn lemma_key_of(key: Pubkey, bytes: Seq<u8>)
    requires
        bytes.len() == 32,
    ensures
        key_of(bytes).bytes@ == bytes,
        key_of(key.bytes@) == key,
        key.bytes@.len() == 32,
{
    assert(key_of(bytes).bytes@ =~= bytes);
    assert(key_of(key.bytes@).bytes =~= key.bytes);
}

/// An identity is read at an offset exactly where its bytes stand there.
pub proof fn lemma_key_at(data: Seq<u8>, at: int, key: Pubkey)
    ensures
        key_encoding(key).len() == 32,
        key_at(data, at) == Some((key, at + 32)) <==> holds_at(data, at, key_encoding(key)),
{
    if 0 <= at && at + 32 <= data.len() {
        lemma_key_of(key, data.subrange(at, at + 32));
    }
}

/// The bytes that store an optional identity: a flag and, where there is an
/// identity, its bytes.
pub open spec fn optional_key_encoding(key: Option<Pubkey>) -> Seq<u8> {
    match key {
        Some(key) => seq![1u8] + key_encoding(key),
        None => seq![0u8],
    }
}

/// The optional identity stored at an offset, and the offset behind it.
pub open spec fn optional_key_at(data: Seq<u8>, at: int) -> Option<(Option<Pubkey>, int)> {
    match bool_at(data, at) {
        Some((present, body)) => if present {
            match key_at(data, body) {
                Some((key, next)) => Some((Some(key), next)),
                None => None,
            }
        } else {
            Some((None, body))
        },
        None => None,
    }
}

/// An optional identity is read at an offset exactly where its flag and,
/// behind a flag of 1, its bytes stand there.
pub proof fn lemma_optional_key_at(data: Seq<u8>, at: int, key: Option<Pubkey>)
    ensures
        optional_key_encoding(key).len() == if key is Some {
            33int
        } else {
            1int
        },
        optional_key_at(data, at) == Some((key, at + optional_key_encoding(key).len()))
            <==> holds_at(data, at, optional_key_encoding(key)),
        optional_key_at(data, at) matches Some((found, next)) ==> next == at
            + optional_key_encoding(found).len(),
{
    lemma_bool_at(data, at, true);
    lemma_bool_at(data, at, false);
    assert(bool_encoding(true) =~= seq![1u8]);
    assert(bool_encoding(false) =~= seq![0u8]);
    match key {
        Some(inner) => {
            lemma_key_at(data, at + 1, inner);
            lemma_holds_at_concat(data, at, seq![1u8], key_encoding(inner));
        },
        None => {},
    }
    match optional_key_at(data, at) {
        Some((Some(found), next)) => {
            lemma_key_at(data, at + 1, found);
        },
        _ => {},
    }
}

/// `String::from_utf8`, with the failure reduced to `None`: succeeds exactly
/// on valid UTF-8, and then gives the text that the bytes encode.
#[verifier::external_body]
fn string_from_utf8(bytes: Vec<u8>) -> (text: Option<String>)
    ensures
        text is Some <==> valid_utf8(bytes@),
        text matches Some(text) ==> text@ == decode_utf8(bytes@),
{
    String::from_utf8(bytes).ok()
}

/// Appends `bytes` as they are.
pub fn put_bytes(out: &mut Vec<u8>, bytes: &[u8])
    ensures
        final(out)@ == old(out)@ + bytes@,
{
    let mut i: usize = 0;
    while i < bytes.len()
        invariant
            i <= bytes.len(),
            out@ == old(out)@ + bytes@.subrange(0, i as int),
        decreases bytes.len() - i,
    {
        out.push(bytes[i]);
        i += 1;
        assert(out@ =~= old(out)@ + bytes@.subrange(0, i as int));
    }
    assert(bytes@.subrange(0, i as int) =~= bytes@);
}

/// Appends one byte.
pub fn put_byte(out: &mut Vec<u8>, value: u8)
    ensures
        final(out)@ == old(out)@ + seq![value],
{
    out.push(value);
    assert(out@ =~= old(out)@ + seq![value]);
}

/// Appends a flag.
pub fn put_bool(out: &mut Vec<u8>, value: bool)
    ensures
        final(out)@ == old(out)@ + bool_encoding(value),
{
    out.push(if value { 1u8 } else { 0u8 });
    assert(out@ =~= old(out)@ + bool_encoding(value));
}

/// Appends a 16-bit integer, little-endian.
pub fn put_u16(out: &mut Vec<u8>, value: u16)
    ensures
        final(out)@ == old(out)@ + u16_encoding(value),
{
    out.push((value % 256) as u8);
    out.push((value / 256) as u8);
    assert(out@ =~= old(out)@ + u16_encoding(value));
}

/// Appends a 32-bit integer, little-endian.
pub fn put_u32(out: &mut Vec<u8>, value: u32)
    ensures
        final(out)@ == old(out)@ + u32_encoding(value),
{
    out.push((value % 256) as u8);
    out.push((value / 0x100 % 256) as u8);
    out.push((value / 0x1_0000 % 256) as u8);
    out.push((value / 0x100_0000) as u8);
    assert(out@ =~= old(out)@ + u32_encoding(value));
}

/// Appends a 64-bit integer, little-endian.
pub fn put_u64(out: &mut Vec<u8>, value: u64)
    ensures
        final(out)@ == old(out)@ + u64_encoding(value),
{
    out.push((value % 256) as u8);
    out.push((value / 0x100 % 256) as u8);
    out.push((value / 0x1_0000 % 256) as u8);
    out.push((value / 0x100_0000 % 256) as u8);
    out.push((value / 0x1_0000_0000 % 256) as u8);
    out.push((value / 0x100_0000_0000 % 256) as u8);
    out.push((value / 0x1_0000_0000_0000 % 256) as u8);
    out.push((value / 0x100_0000_0000_0000) as u8);
    assert(out@ =~= old(out)@ + u64_encoding(value));
}

/// Appends a byte string behind its length.
pub fn put_blob(out: &mut Vec<u8>, bytes: &[u8])
    requires
        bytes@.len() <= u32::MAX,
    ensures
        final(out)@ == old(out)@ + blob_encoding(bytes@),
{
    put_u32(out, bytes.len() as u32);
    put_bytes(out, bytes);
    assert(out@ =~= old(out)@ + blob_encoding(bytes@));
}

/// Appends a text: its UTF-8 form behind the length of that form.
pub fn put_text(out: &mut Vec<u8>, text: &str)
    requires
        encode_utf8(text@).len() <= u32::MAX,
    ensures
        final(out)@ == old(out)@ + text_encoding(text@),
{
    put_blob(out, text.as_bytes());
}

/// Appends an identity.
pub fn put_key(out: &mut Vec<u8>, key: &Pubkey)
    ensures
        final(out)@ == old(out)@ + key_encoding(*key),
{
    let mut i: usize = 0;
    while i < 32
        invariant
            i <= 32,
            out@ == old(out)@ + key.bytes@.subrange(0, i as int),
        decreases 32 - i,
    {
        out.push(key.bytes[i]);
        i += 1;
        assert(out@ =~= old(out)@ + key.bytes@.subrange(0, i as int));
    }
    assert(key.bytes@.subrange(0, 32) =~= key.bytes@);
}

/// Appends an optional identity.
pub fn put_optional_key(out: &mut Vec<u8>, key: &Option<Pubkey>)
    ensures
        final(out)@ == old(out)@ + optional_key_encoding(*key),
{
    match key {
        Some(inner) => {
            out.push(1u8);
            put_key(out, inner);
            assert(out@ =~= old(out)@ + optional_key_encoding(*key));
        },
        None => {
            out.push(0u8);
            assert(out@ =~= old(out)@ + optional_key_encoding(*key));
        },
    }
}

/// Whether `count` more bytes stand in a buffer of `len` bytes from `at` on.
fn has_room(len: usize, at: usize, count: usize) -> (room: bool)
    ensures
        room == (at + count <= len),
{
    at <= len && count <= len - at
}

/// Reads the byte at an offset.
pub fn get_byte(data: &[u8], at: usize) -> (got: Option<(u8, usize)>)
    ensures
        match got {
            Some((value, next)) => byte_at(data@, at as int) == Some((value, next as int)),
            None => byte_at(data@, at as int) is None,
        },
{
    if at < data.len() {
        Some((data[at], at + 1))
    } else {
        None
    }
}

/// Reads the flag at an offset.
pub fn get_bool(data: &[u8], at: usize) -> (got: Option<(bool, usize)>)
    ensures
        match got {
            Some((value, next)) => bool_at(data@, at as int) == Some((value, next as int)),
            None => bool_at(data@, at as int) is None,
        },
{
    if at < data.len() && data[at] <= 1 {
        Some((data[at] == 1, at + 1))
    } else {
        None
    }
}

/// Reads the 16-bit integer at an offset.
pub fn get_u16(data: &[u8], at: usize) -> (got: Option<(u16, usize)>)
    ensures
        match got {
            Some((value, next)) => u16_at(data@, at as int) == Some((value, next as int)),
            None => u16_at(data@, at as int) is None,
        },
{
    if has_room(data.len(), at, 2) {
        let value: u16 = data[at] as u16 + 0x100 * (data[at + 1] as u16);
        Some((value, at + 2))
    } else {
        None
    }
}

/// Reads the 32-bit integer at an offset.
pub fn get_u32(data: &[u8], at: usize) -> (got: Option<(u32, usize)>)
    ensures
        match got {
            Some((value, next)) => u32_at(data@, at as int) == Some((value, next as int)),
            None => u32_at(data@, at as int) is None,
        },
{
    if has_room(data.len(), at, 4) {
        let value: u32 = data[at] as u32 + 0x100 * (data[at + 1] as u32) + 0x1_0000 * (data[at
            + 2] as u32) + 0x100_0000 * (data[at + 3] as u32);
        Some((value, at + 4))
    } else {
        None
    }
}

/// Reads the 64-bit integer at an offset.
pub fn get_u64(data: &[u8], at: usize) -> (got: Option<(u64, usize)>)
    ensures
        match got {
            Some((value, next)) => u64_at(data@, at as int) == Some((value, next as int)),
            None => u64_at(data@, at as int) is None,
        },
{
    if has_room(data.len(), at, 8) {
        let value: u64 = data[at] as u64 + 0x100 * (data[at + 1] as u64) + 0x1_0000 * (data[at
            + 2] as u64) + 0x100_0000 * (data[at + 3] as u64) + 0x1_0000_0000 * (data[at
            + 4] as u64) + 0x100_0000_0000 * (data[at + 5] as u64) + 0x1_0000_0000_0000 * (data[at
            + 6] as u64) + 0x100_0000_0000_0000 * (data[at + 7] as u64);
        Some((value, at + 8))
    } else {
        None
    }
}

/// Reads the byte string at an offset.
pub fn get_blob(data: &[u8], at: usize) -> (got: Option<(Vec<u8>, usize)>)
    ensures
        match got {
            Some((bytes, next)) => blob_at(data@, at as int) == Some((bytes@, next as int)),
            None => blob_at(data@, at as int) is None,
        },
{
    match get_u32(data, at) {
        Some((len, body)) => {
            if has_room(data.len(), body, len as usize) {
                let next = body + len as usize;
                Some((slice_to_vec(slice_subrange(data, body, next)), next))
            } else {
                None
            }
        },
        None => None,
    }
}

/// Reads the text at an offset.
pub fn get_text(data: &[u8], at: usize) -> (got: Option<(String, usize)>)
    ensures
        match got {
            Some((text, next)) => text_at(data@, at as int) == Some((text@, next as int)),
            None => text_at(data@, at as int) is None,
        },
{
    match get_blob(data, at) {
        Some((bytes, next)) => match string_from_utf8(bytes) {
            Some(text) => Some((text, next)),
            None => None,
        },
        None => None,
    }
}

/// Reads the identity at an offset.
pub fn get_key(data: &[u8], at: usize) -> (got: Option<(Pubkey, usize)>)
    ensures
        match got {
            Some((key, next)) => key_at(data@, at as int) == Some((key, next as int)),
            None => key_at(data@, at as int) is None,
        },
{
    if !has_room(data.len(), at, 32) {
        return None;
    }
    let mut bytes = [0u8;32];
    let mut i: usize = 0;
    while i < 32
        invariant
            i <= 32,
            at + 32 <= data.len(),
            forall|j: int| 0 <= j < i ==> bytes[j] == data[at + j],
        decreases 32 - i,
    {
        bytes[i] = data[at + i];
        i += 1;
    }
    let key = Pubkey { bytes };
    proof {
        let stored = data@.subrange(at as int, at + 32);
        assert(key.bytes =~= key_of(stored).bytes);
    }
    Some((key, at + 32))
}

/// Reads the optional identity at an offset.
pub fn get_optional_key(data: &[u8], at: usize) -> (got: Option<(Option<Pubkey>, usize)>)
    ensures
        match got {
            Some((key, next)) => optional_key_at(data@, at as int) == Some((key, next as int)),
            None => optional_key_at(data@, at as int) is None,
        },
{
    match get_bool(data, at) {
        Some((present, body)) => {
            if present {
                match get_key(data, body) {
                    Some((key, next)) => Some((Some(key), next)),
                    None => None,
                }
            } else {
                Some((None, body))
            }
        },
        None => None,
    }
}

} // verus!
