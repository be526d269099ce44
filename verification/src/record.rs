//! The two records and their binary encoding.
//!
//! An index record is its counter as four little-endian bytes. An item
//! record is the byte length of its text as four little-endian bytes,
//! followed by the text in UTF-8.

use vstd::prelude::*;
use vstd::utf8::{decode_utf8, encode_utf8, valid_utf8};

verus! {

/// Number of bytes of an encoded index record, and of the length prefix of
/// an encoded item record.
pub const WORD_BYTES: usize = 4;

/// The counter of one owner: how many items were appended so far.
#[derive(Clone, Copy, Debug, PartialEq, Eq, Structural)]
pub struct PostlyAccountIndex {
    pub post_n: u32,
}

/// One item: a text.
#[derive(Debug)]
pub struct PostlyAccount {
    pub post: String,
}

impl Clone for PostlyAccount {
    fn clone(&self) -> (copy: Self)
        ensures
            copy@ == self@,
    {
        PostlyAccount { post: self.post.clone() }
    }
}

impl View for PostlyAccount {
    type V = Seq<char>;

    open spec fn view(&self) -> Seq<char> {
        self.post@
    }
}

/// Why bytes or a record were refused.
#[derive(Clone, Copy, Debug, PartialEq, Eq, Structural)]
pub enum RecordError {
    /// The bytes are not the encoding of a record of the kind asked for.
    Malformed,
    /// The text takes more bytes than a length prefix can count.
    TooLong,
}

/// The four little-endian bytes of `x`.
pub open spec fn word_bytes(x: u32) -> Seq<u8> {
    seq![
        (x % 256) as u8,
        ((x / 256) % 256) as u8,
        ((x / 65536) % 256) as u8,
        ((x / 16777216) % 256) as u8,
    ]
}

/// The number whose little-endian bytes are the first four of `bytes`.
pub open spec fn word_value(bytes: Seq<u8>) -> u32
    recommends
        bytes.len() >= 4,
{
    (bytes[0] + 256 * bytes[1] + 65536 * bytes[2] + 16777216 * bytes[3]) as u32
}

/// The encoding of an index record with counter `count`.
pub open spec fn index_encoding(count: u32) -> Seq<u8> {
    word_bytes(count)
}

/// The counter of the index record that `bytes` encode, if they encode one:
/// exactly four bytes do.
pub open spec fn index_decoding(bytes: Seq<u8>) -> Option<u32> {
    if bytes.len() == 4 {
        Some(word_value(bytes))
    } else {
        None
    }
}

/// Whether a text can be framed: its UTF-8 length fits the prefix.
pub open spec fn frameable(text: Seq<char>) -> bool {
    encode_utf8(text).len() <= u32::MAX
}

/// The encoding of an item record with the text `text`.
pub open spec fn item_encoding(text: Seq<char>) -> Seq<u8>
    recommends
        frameable(text),
{
    word_bytes(encode_utf8(text).len() as u32) + encode_utf8(text)
}

/// Whether `bytes` are a length prefix followed by exactly that many bytes
/// of valid UTF-8.
pub open spec fn is_item_encoding(bytes: Seq<u8>) -> bool {
    &&& bytes.len() >= 4
    &&& bytes.len() == 4 + word_value(bytes)
    &&& valid_utf8(bytes.subrange(4, bytes.len() as int))
}

/// The text of the item record that `bytes` encode, if they encode one.
pub open spec fn item_decoding(bytes: Seq<u8>) -> Option<Seq<char>> {
    if is_item_encoding(bytes) {
        Some(decode_utf8(bytes.subrange(4, bytes.len() as int)))
    } else {
        None
    }
}

/// The error of the serializer's reader and writer.
#[verifier::external_type_specification]
#[verifier::external_body]
pub struct ExIoError(std::io::Error);

/// `borsh::to_vec` on a `u32`: the four little-endian bytes of the number,
/// written to a fresh vector, which cannot fail.
#[verifier::external_body]
fn borsh_encode_u32(x: u32) -> (r: Result<Vec<u8>, std::io::Error>)
    ensures
        r is Ok,
        r->Ok_0@ == word_bytes(x),
{
    borsh::to_vec(&x)
}

/// `borsh::BorshDeserialize::try_from_slice` for `u32`: it reads four
/// little-endian bytes and refuses a slice that is shorter or has bytes
/// left over.
#[verifier::external_body]
fn borsh_decode_u32(bytes: &[u8]) -> (r: Result<u32, std::io::Error>)
    ensures
        r is Ok <==> bytes@.len() == 4,
        r is Ok ==> r->Ok_0 == word_value(bytes@),
{
    <u32 as borsh::BorshDeserialize>::try_from_slice(bytes)
}

/// `borsh::to_vec` on a `str`: the byte length of the text as a `u32` in
/// little-endian order, then the UTF-8 bytes of the text. It fails exactly
/// when the length does not fit a `u32`.
#[verifier::external_body]
fn borsh_encode_str(text: &str) -> (r: Result<Vec<u8>, std::io::Error>)
    ensures
        r is Ok <==> frameable(text@),
        r is Ok ==> r->Ok_0@ == item_encoding(text@),
{
    borsh::to_vec(text)
}

/// `borsh::BorshDeserialize::try_from_slice` for `String`: it reads a
/// little-endian `u32` length, then that many bytes, which must be valid
/// UTF-8, and refuses a slice that is shorter or has bytes left over.
#[verifier::external_body]
fn borsh_decode_string(bytes: &[u8]) -> (r: Result<String, std::io::Error>)
    ensures
        r is Ok <==> is_item_encoding(bytes@),
        r is Ok ==> r->Ok_0@ == decode_utf8(bytes@.subrange(4, bytes@.len() as int)),
{
    <String as borsh::BorshDeserialize>::try_from_slice(bytes)
}

impl PostlyAccountIndex {
    /// The encoding of this record.
    pub fn to_bytes(&self) -> (bytes: Vec<u8>)
        ensures
            bytes@ == index_encoding(self.post_n),
            bytes@.len() == WORD_BYTES,
    {
        match borsh_encode_u32(self.post_n) {
            Ok(bytes) => bytes,
            Err(_) => vstd::pervasive::unreached(),
        }
    }

    /// Decodes an index record. The bytes must be the whole record.
    pub fn try_from_slice(bytes: &[u8]) -> (r: Result<PostlyAccountIndex, RecordError>)
        ensures
            match r {
                Ok(index) => index_decoding(bytes@) == Some(index.post_n),
                Err(e) => index_decoding(bytes@) is None && e == RecordError::Malformed,
            },
    {
        match borsh_decode_u32(bytes) {
            Ok(post_n) => Ok(PostlyAccountIndex { post_n }),
            Err(_) => Err(RecordError::Malformed),
        }
    }
}

impl PostlyAccount {
    /// The encoding of this record, unless its text is too long to frame.
    pub fn to_bytes(&self) -> (r: Result<Vec<u8>, RecordError>)
        ensures
            match r {
                Ok(bytes) => frameable(self@) && bytes@ == item_encoding(self@),
                Err(e) => !frameable(self@) && e == RecordError::TooLong,
            },
    {
        match borsh_encode_str(self.post.as_str()) {
            Ok(bytes) => Ok(bytes),
            Err(_) => Err(RecordError::TooLong),
        }
    }

    /// Decodes an item record. The bytes must be the whole record.
    pub fn try_from_slice(bytes: &[u8]) -> (r: Result<PostlyAccount, RecordError>)
        ensures
            match r {
                Ok(item) => item_decoding(bytes@) == Some(item@),
                Err(e) => item_decoding(bytes@) is None && e == RecordError::Malformed,
            },
    {
        match borsh_decode_string(bytes) {
            Ok(post) => Ok(PostlyAccount { post }),
            Err(_) => Err(RecordError::Malformed),
        }
    }
}

/// The bytes of a word give the word back.
pub proof fn lemma_word_round_trip(x: u32)
    ensures
        word_bytes(x).len() == 4,
        word_value(word_bytes(x)) == x,
{
}

/// Four bytes are the bytes of the word they give.
pub proof fn lemma_word_bytes_of_value(bytes: Seq<u8>)
    requires
        bytes.len() == 4,
    ensures
        word_bytes(word_value(bytes)) == bytes,
{
    let b0 = bytes[0] as int;
    let b1 = bytes[1] as int;
    let b2 = bytes[2] as int;
    let b3 = bytes[3] as int;
    let v = b0 + 256 * b1 + 65536 * b2 + 16777216 * b3;
    assert(word_value(bytes) == v);
    assert(v % 256 == b0 && v / 256 == b1 + 256 * b2 + 65536 * b3) by {
        assert(v == 256 * (b1 + 256 * b2 + 65536 * b3) + b0);
    }
    assert((v / 256) % 256 == b1);
    assert(v / 65536 == b2 + 256 * b3) by {
        assert(v == 65536 * (b2 + 256 * b3) + (b0 + 256 * b1));
    }
    assert((v / 65536) % 256 == b2);
    assert(v / 16777216 == b3) by {
        assert(v == 16777216 * b3 + (b0 + 256 * b1 + 65536 * b2));
    }
    assert(word_bytes(word_value(bytes)) =~= bytes);
}

/// Decoding the encoding of an index record gives the record back.
pub proof fn lemma_index_round_trip(count: u32)
    ensures
        index_decoding(index_encoding(count)) == Some(count),
{
    lemma_word_round_trip(count);
}

/// Bytes that decode as an index record are the encoding of that record.
pub proof fn lemma_index_encoding_unique(bytes: Seq<u8>)
    requires
        index_decoding(bytes) is Some,
    ensures
        index_encoding(index_decoding(bytes)->Some_0) == bytes,
{
    lemma_word_bytes_of_value(bytes);
}

/// Decoding the encoding of an item record gives the record back.
pub proof fn lemma_item_round_trip(text: Seq<char>)
    requires
        frameable(text),
    ensures
        item_decoding(item_encoding(text)) == Some(text),
{
    let payload = encode_utf8(text);
    let bytes = item_encoding(text);
    lemma_word_round_trip(payload.len() as u32);
    assert(bytes.subrange(4, bytes.len() as int) =~= payload);
    vstd::utf8::encode_utf8_valid_utf8(text);
    vstd::utf8::encode_utf8_decode_utf8(text);
}

/// Bytes that decode as an item record are the encoding of that record.
pub proof fn lemma_item_encoding_unique(bytes: Seq<u8>)
    requires
        item_decoding(bytes) is Some,
    ensures
        frameable(item_decoding(bytes)->Some_0),
        item_encoding(item_decoding(bytes)->Some_0) == bytes,
{
    let payload = bytes.subrange(4, bytes.len() as int);
    vstd::utf8::decode_utf8_encode_utf8(payload);
    lemma_word_bytes_of_value(bytes.subrange(0, 4));
    assert(word_value(bytes.subrange(0, 4)) == word_value(bytes));
    assert(item_encoding(decode_utf8(payload)) =~= bytes);
}

} // verus!
