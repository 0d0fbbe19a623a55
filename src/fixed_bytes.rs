//! The fixed-size `bytesN` adapter.
use vstd::prelude::*;

use crate::encoding::{decoded_fixed, fixed_word, zeros};
use crate::error::DecodeError;
use alloy_sol_types::sol_data;
use alloy_sol_types::sol_data::{ByteCount, SupportedFixedBytes};
use alloy_sol_types::SolType;

verus! {

/// A Solidity `bytesN` value: exactly `N` bytes, for `N` from 1 to 32.
#[derive(Debug, Clone, Copy, PartialEq, Eq, Hash, PartialOrd, Ord)]
pub struct FixedBytes<const N: usize>(pub [u8; N]);

impl<const N: usize> View for FixedBytes<N> {
    type V = Seq<u8>;

    open spec fn view(&self) -> Seq<u8> {
        self.0@
    }
}

impl<const N: usize> From<[u8; N]> for FixedBytes<N> {
    fn from(a: [u8; N]) -> (r: FixedBytes<N>) {
        FixedBytes(a)
    }
}

impl<const N: usize> vstd::std_specs::convert::FromSpecImpl<[u8; N]> for FixedBytes<N> {
    open spec fn obeys_from_spec() -> bool {
        true
    }

    open spec fn from_spec(a: [u8; N]) -> FixedBytes<N> {
        FixedBytes(a)
    }
}

/// Relies on `SolType::abi_encode` of `sol_data::FixedBytes<N>`: one word
/// that starts with the `N` bytes and is zero after them.
#[verifier::external_body]
fn sol_fixed_encode<const N: usize>(a: &[u8; N]) -> (r: Vec<u8>)
    where
        ByteCount<N>: SupportedFixedBytes,
    ensures
        r@ == fixed_word(a@),
{
    <sol_data::FixedBytes<N> as SolType>::abi_encode(a)
}

/// Relies on `SolType::abi_decode` of `sol_data::FixedBytes<N>` with
/// validation on: it takes one word, refuses non-zero bytes after the first
/// `N`, and refuses a buffer that is not that word alone.
#[verifier::external_body]
fn sol_fixed_decode<const N: usize>(data: &[u8]) -> (r: Result<[u8; N], alloy_sol_types::Error>)
    where
        ByteCount<N>: SupportedFixedBytes,
    ensures
        r matches Ok(a) ==> data@.len() == 32 && fixed_word(a@) == data@,
        (data@.len() == 32 && data@.subrange(N as int, 32) == zeros((32 - N) as nat)) ==> r is Ok,
{
    match <sol_data::FixedBytes<N> as SolType>::abi_decode(data, true) {
        Ok(v) => Ok(v.0),
        Err(e) => Err(e),
    }
}

impl<const N: usize> FixedBytes<N> where ByteCount<N>: SupportedFixedBytes {
    /// The bytes, as a slice.
    pub fn as_slice(&self) -> (r: &[u8])
        ensures
            r@ == self@,
    {
        self.0.as_slice()
    }

    /// The ABI encoding of this value: its single word.
    pub fn abi_encode(&self) -> (r: Vec<u8>)
        ensures
            r@ == fixed_word(self@),
    {
        sol_fixed_encode(&self.0)
    }

    /// Decodes a value from its ABI encoding, strictly: the buffer must be one
    /// word whose bytes after the first `N` are zero.
    pub fn abi_decode(data: &[u8]) -> (r: Result<FixedBytes<N>, DecodeError>)
        ensures
            match r {
                Ok(v) => decoded_fixed(N as nat, data@) == Some(v@),
                Err(_) => decoded_fixed(N as nat, data@) is None,
            },
    {
        match sol_fixed_decode::<N>(data) {
            Ok(a) => {
                assert(data@.subrange(0, N as int) =~= a@);
                assert(data@.subrange(N as int, 32) =~= zeros((32 - N) as nat));
                Ok(FixedBytes(a))
            },
            Err(_) => Err(DecodeError::Malformed),
        }
    }
}

} // verus!
