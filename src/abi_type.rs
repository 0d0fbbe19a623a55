//! Solidity type names and the signatures used to declare them.
use vstd::prelude::*;

use crate::bytes::{Bytes, BytesSolType};
use crate::fixed_bytes::FixedBytes;

verus! {

/// A value type with a Solidity counterpart: its canonical name, and how it is
/// written as a function argument and as a return value.
pub trait AbiType {
    /// The canonical Solidity name.
    spec fn abi_spec() -> Seq<char>;

    /// The type as written for a function argument.
    spec fn export_abi_arg_spec() -> Seq<char>;

    /// The type as written for a return value.
    spec fn export_abi_ret_spec() -> Seq<char>;

    fn abi() -> (r: String)
        ensures
            r@ == Self::abi_spec(),
    ;

    fn export_abi_arg() -> (r: String)
        ensures
            r@ == Self::export_abi_arg_spec(),
    ;

    fn export_abi_ret() -> (r: String)
        ensures
            r@ == Self::export_abi_ret_spec(),
    ;
}

/// The character of the decimal digit `d`.
pub open spec fn digit_char(d: nat) -> char {
    seq!['0', '1', '2', '3', '4', '5', '6', '7', '8', '9'][d as int]
}

/// The decimal numeral of `n`, without leading zeros.
pub open spec fn decimal(n: nat) -> Seq<char>
    decreases n,
{
    if n < 10 {
        seq![digit_char(n)]
    } else {
        decimal(n / 10).push(digit_char(n % 10))
    }
}

fn digit_str(d: usize) -> (r: &'static str)
    requires
        d < 10,
    ensures
        r@ == seq![digit_char(d as nat)],
{
    proof {
        reveal_strlit("0");
        reveal_strlit("1");
        reveal_strlit("2");
        reveal_strlit("3");
        reveal_strlit("4");
        reveal_strlit("5");
        reveal_strlit("6");
        reveal_strlit("7");
        reveal_strlit("8");
        reveal_strlit("9");
    }
    match d {
        0 => "0",
        1 => "1",
        2 => "2",
        3 => "3",
        4 => "4",
        5 => "5",
        6 => "6",
        7 => "7",
        8 => "8",
        _ => "9",
    }
}

/// Appends the decimal numeral of `n` to `s`.
pub fn push_decimal(s: &mut String, n: usize)
    ensures
        final(s)@ == old(s)@ + decimal(n as nat),
    decreases n,
{
    if n >= 10 {
        push_decimal(s, n / 10);
    }
    s.append(digit_str(n % 10));
}

impl AbiType for Bytes {
    open spec fn abi_spec() -> Seq<char> {
        "bytes"@
    }

    open spec fn export_abi_arg_spec() -> Seq<char> {
        "bytes"@ + " calldata"@
    }

    open spec fn export_abi_ret_spec() -> Seq<char> {
        "bytes"@ + " memory"@
    }

    fn abi() -> (r: String) {
        String::from_str("bytes")
    }

    fn export_abi_arg() -> (r: String) {
        let mut s = Self::abi();
        s.append(" calldata");
        s
    }

    fn export_abi_ret() -> (r: String) {
        let mut s = Self::abi();
        s.append(" memory");
        s
    }
}

/// The name is `bytes` followed by the width in decimal. Only the widths 1 to 32
/// can be encoded: `FixedBytes::abi_encode` and `FixedBytes::abi_decode` exist
/// for those alone.
impl<const N: usize> AbiType for FixedBytes<N> {
    open spec fn abi_spec() -> Seq<char> {
        "bytes"@ + decimal(N as nat)
    }

    open spec fn export_abi_arg_spec() -> Seq<char> {
        Self::abi_spec()
    }

    open spec fn export_abi_ret_spec() -> Seq<char> {
        Self::abi_spec()
    }

    fn abi() -> (r: String) {
        let mut s = String::from_str("bytes");
        push_decimal(&mut s, N);
        s
    }

    fn export_abi_arg() -> (r: String) {
        Self::abi()
    }

    fn export_abi_ret() -> (r: String) {
        Self::abi()
    }
}

} // verus!
