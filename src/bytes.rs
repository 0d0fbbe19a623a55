//! The dynamic `bytes` adapter.
use vstd::prelude::*;

use crate::encoding::{
    bytes_encoded_size, bytes_encoding, decoded_bytes, declared_length_fits, lemma_be_bytes_len,
    lemma_decoded_bytes_of, lemma_overlong_length_not_encoding, word_at, be_value,
};
use crate::error::DecodeError;
use alloy_sol_types::abi::token::PackedSeqToken;
use alloy_sol_types::sol_data;
use alloy_sol_types::SolType;

verus! {

/// A Solidity `bytes` value: an owned, growable sequence of bytes.
#[derive(Debug, Clone, PartialEq, Eq, Hash, PartialOrd, Ord)]
pub struct Bytes(pub Vec<u8>);

/// The Solidity type that `Bytes` values are encoded as.
pub struct BytesSolType;

impl View for Bytes {
    type V = Seq<u8>;

    open spec fn view(&self) -> Seq<u8> {
        self.0@
    }
}

impl From<Vec<u8>> for Bytes {
    fn from(b: Vec<u8>) -> (r: Bytes) {
        Bytes(b)
    }
}

impl vstd::std_specs::convert::FromSpecImpl<Vec<u8>> for Bytes {
    open spec fn obeys_from_spec() -> bool {
        true
    }

    open spec fn from_spec(b: Vec<u8>) -> Bytes {
        Bytes(b)
    }
}

impl From<Bytes> for Vec<u8> {
    fn from(b: Bytes) -> (r: Vec<u8>) {
        b.0
    }
}

impl vstd::std_specs::convert::FromSpecImpl<Bytes> for Vec<u8> {
    open spec fn obeys_from_spec() -> bool {
        true
    }

    open spec fn from_spec(b: Bytes) -> Vec<u8> {
        b.0
    }
}

impl core::ops::Deref for Bytes {
    type Target = Vec<u8>;

    fn deref(&self) -> &Vec<u8> {
        &self.0
    }
}

impl core::ops::DerefMut for Bytes {
    fn deref_mut(&mut self) -> &mut Vec<u8> {
        &mut self.0
    }
}

impl AsRef<[u8]> for Bytes {
    fn as_ref(&self) -> &[u8] {
        self.0.as_slice()
    }
}

impl AsMut<[u8]> for Bytes {
    fn as_mut(&mut self) -> &mut [u8] {
        self.0.as_mut_slice()
    }
}

/// Relies on `SolType::abi_encode` of `sol_data::Bytes`: the offset word 32,
/// a word holding the length, the bytes, then zeros to a word boundary.
#[verifier::external_body]
fn sol_bytes_encode(b: &[u8]) -> (r: Vec<u8>)
    ensures
        r@ == bytes_encoding(b@),
{
    <sol_data::Bytes as SolType>::abi_encode(b)
}

/// Relies on `SolType::abi_decode` of `sol_data::Bytes` with validation on:
/// a value is returned only when encoding it again gives back `data`, and the
/// encoding of any value is accepted. The length word is added to an offset
/// before the bounds are checked, so it must not be near `usize::MAX`.
#[verifier::external_body]
fn sol_bytes_decode(data: &[u8]) -> (r: Result<Vec<u8>, alloy_sol_types::Error>)
    requires
        declared_length_fits(data@),
    ensures
        r matches Ok(v) ==> bytes_encoding(v@) == data@,
        (exists|b: Seq<u8>| bytes_encoding(b) == data@) ==> r is Ok,
{
    match <sol_data::Bytes as SolType>::abi_decode(data, true) {
        Ok(v) => Ok(v.into()),
        Err(e) => Err(e),
    }
}

/// Relies on `SolType::abi_encoded_size` of `sol_data::Bytes`: 64 bytes for
/// the offset and length words, plus the bytes rounded up to whole words.
#[verifier::external_body]
fn sol_bytes_encoded_size(b: &[u8]) -> (r: usize)
    requires
        b@.len() + 95 <= usize::MAX,
    ensures
        r == bytes_encoded_size(b@.len()),
{
    <sol_data::Bytes as SolType>::abi_encoded_size(b)
}

/// Relies on `SolType::abi_encode_packed_to` of `sol_data::Bytes`: the packed
/// form of `bytes` is its bytes as they are, appended to `out`.
#[verifier::external_body]
fn sol_bytes_encode_packed_to(b: &[u8], out: &mut Vec<u8>)
    ensures
        final(out)@ == old(out)@ + b@,
{
    <sol_data::Bytes as SolType>::abi_encode_packed_to(b, out)
}

/// The EIP-712 data word of a `bytes` value (the Keccak-256 hash of its bytes).
pub uninterp spec fn eip712_bytes_word(b: Seq<u8>) -> Seq<u8>;

/// Relies on `SolType::eip712_data_word` of `sol_data::Bytes`: a 32-byte word
/// that depends on the bytes alone.
#[verifier::external_body]
fn sol_bytes_eip712_word(b: &[u8]) -> (r: [u8; 32])
    ensures
        r@ == eip712_bytes_word(b@),
{
    <sol_data::Bytes as SolType>::eip712_data_word(b).0
}

/// Relies on `SolType::SOL_NAME` of `sol_data::Bytes`, which is `"bytes"`.
#[verifier::external_body]
fn sol_bytes_name() -> (r: &'static str)
    ensures
        r@ == "bytes"@,
{
    <sol_data::Bytes as SolType>::SOL_NAME
}

/// Relies on `SolType::valid_token` of `sol_data::Bytes`, which accepts every
/// packed-sequence token.
#[verifier::external_body]
fn sol_bytes_valid_token(token: &[u8]) -> (r: bool)
    ensures
        r,
{
    <sol_data::Bytes as SolType>::valid_token(&PackedSeqToken(token))
}

/// Relies on `SolType::detokenize` of `sol_data::Bytes`, which copies the
/// token's bytes.
#[verifier::external_body]
fn sol_bytes_detokenize(token: &[u8]) -> (r: Vec<u8>)
    ensures
        r@ == token@,
{
    <sol_data::Bytes as SolType>::detokenize(PackedSeqToken(token)).into()
}

/// Relies on `SolType::tokenize` of `sol_data::Bytes`, whose token borrows
/// the bytes unchanged.
#[verifier::external_body]
fn sol_bytes_tokenize(b: &[u8]) -> (r: &[u8])
    ensures
        r@ == b@,
{
    <sol_data::Bytes as SolType>::tokenize(b).0
}

/// A bound above any buffer length, at which word values are cut off.
const WORD_VALUE_CAP: u128 = 0x1_0000_0000_0000_0000_0000_0000;

/// The value of the word at `pos`, or `WORD_VALUE_CAP` where it is larger.
fn capped_word(data: &[u8], pos: usize) -> (r: u128)
    requires
        pos + 32 <= data@.len(),
    ensures
        r == if word_at(data@, pos as int) < WORD_VALUE_CAP {
            word_at(data@, pos as int)
        } else {
            WORD_VALUE_CAP as nat
        },
{
    let len = data.len();
    let mut v: u128 = 0;
    let mut i: usize = 0;
    while i < 32
        invariant
            i <= 32,
            len == data@.len(),
            pos + 32 <= data@.len(),
            v == if be_value(data@.subrange(pos as int, pos + i)) < WORD_VALUE_CAP {
                be_value(data@.subrange(pos as int, pos + i))
            } else {
                WORD_VALUE_CAP as nat
            },
        decreases 32 - i,
    {
        let ghost prefix = data@.subrange(pos as int, pos + i);
        assert(data@.subrange(pos as int, pos + i + 1).drop_last() =~= prefix);
        let b = data[pos + i];
        if v < WORD_VALUE_CAP {
            let w = v * 256 + b as u128;
            v = if w < WORD_VALUE_CAP {
                w
            } else {
                WORD_VALUE_CAP
            };
        }
        i += 1;
    }
    v
}

impl Bytes {
    /// The bytes, as a slice.
    pub fn as_slice(&self) -> (r: &[u8])
        ensures
            r@ == self@,
    {
        self.0.as_slice()
    }

    /// Mutable access to the underlying vector.
    pub fn as_mut_vec(&mut self) -> (r: &mut Vec<u8>)
        ensures
            *r == old(self).0,
            final(self).0 == *final(r),
    {
        &mut self.0
    }

    /// The packed-sequence token of this value: its bytes.
    pub fn to_token(&self) -> (r: &[u8])
        ensures
            r@ == self@,
    {
        sol_bytes_tokenize(self.0.as_slice())
    }

    /// The number of bytes in `abi_encode`'s result.
    pub fn abi_encoded_size(&self) -> (r: usize)
        requires
            self@.len() + 95 <= usize::MAX,
        ensures
            r == bytes_encoded_size(self@.len()),
    {
        sol_bytes_encoded_size(self.0.as_slice())
    }

    /// Appends the packed (non-standard) encoding, the bytes themselves, to `out`.
    pub fn abi_encode_packed_to(&self, out: &mut Vec<u8>)
        ensures
            final(out)@ == old(out)@ + self@,
    {
        sol_bytes_encode_packed_to(self.0.as_slice(), out)
    }

    /// The EIP-712 data word of this value.
    pub fn eip712_data_word(&self) -> (r: [u8; 32])
        ensures
            r@ == eip712_bytes_word(self@),
    {
        sol_bytes_eip712_word(self.0.as_slice())
    }

    /// The ABI encoding of this value on its own.
    pub fn abi_encode(&self) -> (r: Vec<u8>)
        ensures
            r@ == bytes_encoding(self@),
    {
        sol_bytes_encode(self.0.as_slice())
    }
}

impl BytesSolType {
    /// The Solidity name of the type.
    pub fn sol_type_name() -> (r: &'static str)
        ensures
            r@ == "bytes"@,
    {
        sol_bytes_name()
    }

    /// Whether a token can be turned into a value: every token can.
    pub fn valid_token(token: &[u8]) -> (r: bool)
        ensures
            r,
    {
        sol_bytes_valid_token(token)
    }

    /// The value that a token holds.
    pub fn detokenize(token: &[u8]) -> (r: Bytes)
        ensures
            r@ == token@,
    {
        Bytes::from(sol_bytes_detokenize(token))
    }

    /// Decodes a value from its ABI encoding, strictly: the buffer must be
    /// exactly the encoding of one value, with zero padding.
    pub fn abi_decode(data: &[u8]) -> (r: Result<Bytes, DecodeError>)
        ensures
            match r {
                Ok(v) => decoded_bytes(data@) == Some(v@),
                Err(_) => decoded_bytes(data@) is None,
            },
    {
        let len = data.len();
        if len >= 32 {
            let offset = capped_word(data, 0);
            if offset + 32 <= len as u128 {
                let declared = capped_word(data, offset as usize);
                if declared > len as u128 {
                    proof {
                        lemma_overlong_length_not_encoding(data@);
                    }
                    return Err(DecodeError::Malformed);
                }
            }
        }
        match sol_bytes_decode(data) {
            Ok(v) => {
                proof {
                    lemma_be_bytes_len(v@.len(), 32);
                    lemma_be_bytes_len(32, 32);
                    lemma_decoded_bytes_of(data@, v@);
                }
                Ok(Bytes(v))
            },
            Err(_) => Err(DecodeError::Malformed),
        }
    }
}

} // verus!
