//! A mathematical model of the contract ABI encoding of `bytes` and `bytesN`.
use vstd::prelude::*;

verus! {

/// `256` raised to the power `k`.
pub open spec fn pow256(k: nat) -> nat
    decreases k,
{
    if k == 0 {
        1
    } else {
        256 * pow256((k - 1) as nat)
    }
}

/// The unsigned integer spelled by `s` in big-endian byte order.
pub open spec fn be_value(s: Seq<u8>) -> nat
    decreases s.len(),
{
    if s.len() == 0 {
        0
    } else {
        be_value(s.drop_last()) * 256 + s.last() as nat
    }
}

/// The `k` low-order bytes of `n`, most significant first.
pub open spec fn be_bytes(n: nat, k: nat) -> Seq<u8>
    decreases k,
{
    if k == 0 {
        Seq::empty()
    } else {
        be_bytes(n / 256, (k - 1) as nat).push((n % 256) as u8)
    }
}

/// `n` as one 32-byte big-endian word.
pub open spec fn uint_word(n: nat) -> Seq<u8> {
    be_bytes(n, 32)
}

/// The value of the 32-byte word that starts at `pos` in `data`.
pub open spec fn word_at(data: Seq<u8>, pos: int) -> nat {
    be_value(data.subrange(pos, pos + 32))
}

/// `n` zero bytes.
pub open spec fn zeros(n: nat) -> Seq<u8> {
    Seq::new(n, |i: int| 0u8)
}

/// The number of zero bytes that bring `len` up to a multiple of 32.
pub open spec fn padding_len(len: nat) -> nat {
    ((32 - len % 32) % 32) as nat
}

/// The tail of a dynamic `bytes` value: a word holding its length, its bytes,
/// then zeros up to the next word boundary.
pub open spec fn bytes_tail(b: Seq<u8>) -> Seq<u8> {
    uint_word(b.len()) + b + zeros(padding_len(b.len()))
}

/// A `bytes` value encoded on its own: the offset word of its one-element
/// tuple, which points just past itself, followed by the tail.
pub open spec fn bytes_encoding(b: Seq<u8>) -> Seq<u8> {
    uint_word(32) + bytes_tail(b)
}

/// The number of bytes in `bytes_encoding` of a value of length `len`.
pub open spec fn bytes_encoded_size(len: nat) -> nat {
    64 + len + padding_len(len)
}

/// The value that `data` is the encoding of, if it is one.
pub open spec fn decoded_bytes(data: Seq<u8>) -> Option<Seq<u8>> {
    if exists|b: Seq<u8>| bytes_encoding(b) == data {
        Some(choose|b: Seq<u8>| bytes_encoding(b) == data)
    } else {
        None
    }
}

/// Whether the length word that `data` points to is no larger than `data`
/// itself, wherever the first word of `data` points within it.
pub open spec fn declared_length_fits(data: Seq<u8>) -> bool {
    (data.len() >= 32 && word_at(data, 0) + 32 <= data.len()) ==> word_at(
        data,
        word_at(data, 0) as int,
    ) <= data.len()
}

/// A `bytesN` value in its word: its bytes first, then zeros up to 32.
pub open spec fn fixed_word(a: Seq<u8>) -> Seq<u8> {
    a + zeros((32 - a.len()) as nat)
}

/// The `n` bytes that the word `data` holds as a `bytesN` value, if it is one.
pub open spec fn decoded_fixed(n: nat, data: Seq<u8>) -> Option<Seq<u8>> {
    if data.len() == 32 && data.subrange(n as int, 32) == zeros((32 - n) as nat) {
        Some(data.subrange(0, n as int))
    } else {
        None
    }
}

pub proof fn lemma_be_bytes_len(n: nat, k: nat)
    ensures
        be_bytes(n, k).len() == k,
    decreases k,
{
    if k > 0 {
        lemma_be_bytes_len(n / 256, (k - 1) as nat);
    }
}

/// Reading back the bytes of a number that fits gives the number.
pub proof fn lemma_be_value_of_be_bytes(n: nat, k: nat)
    requires
        n < pow256(k),
    ensures
        be_value(be_bytes(n, k)) == n,
    decreases k,
{
    if k > 0 {
        let p = pow256((k - 1) as nat);
        let q = n / 256;
        assert(q < p) by (nonlinear_arith)
            requires
                n < 256 * p,
                q == n / 256,
        ;
        lemma_be_value_of_be_bytes(q, (k - 1) as nat);
        let s = be_bytes(q, (k - 1) as nat);
        let x = (n % 256) as u8;
        assert(s.push(x).drop_last() =~= s);
        assert(q * 256 + n % 256 == n) by (nonlinear_arith)
            requires
                q == n / 256,
        ;
    }
}

pub proof fn lemma_pow256_word()
    ensures
        pow256(32) > usize::MAX + 64,
{
    reveal_with_fuel(pow256, 33);
}

/// A word holding a number that fits in `usize` reads back as that number.
pub proof fn lemma_uint_word(n: nat)
    requires
        n <= usize::MAX + 64,
    ensures
        uint_word(n).len() == 32,
        be_value(uint_word(n)) == n,
{
    lemma_pow256_word();
    lemma_be_bytes_len(n, 32);
    lemma_be_value_of_be_bytes(n, 32);
}

/// The layout of `bytes_encoding`: where its words and bytes lie.
pub proof fn lemma_bytes_encoding_layout(b: Seq<u8>)
    requires
        b.len() <= usize::MAX,
    ensures
        bytes_encoding(b).len() == bytes_encoded_size(b.len()),
        bytes_encoded_size(b.len()) % 32 == 0,
        word_at(bytes_encoding(b), 0) == 32,
        word_at(bytes_encoding(b), 32) == b.len(),
        bytes_encoding(b).subrange(64, 64 + b.len() as int) == b,
        bytes_encoding(b).subrange(64 + b.len() as int, bytes_encoded_size(b.len()) as int) == zeros(
            padding_len(b.len()),
        ),
{
    let e = bytes_encoding(b);
    let l = b.len() as int;
    lemma_uint_word(32);
    lemma_uint_word(b.len());
    assert(e.subrange(0, 32) =~= uint_word(32));
    assert(e.subrange(32, 64) =~= uint_word(b.len()));
    assert(e.subrange(64, 64 + l) =~= b);
    assert(e.subrange(64 + l, e.len() as int) =~= zeros(padding_len(b.len())));
}

/// Two values with the same encoding are the same value.
pub proof fn lemma_bytes_encoding_injective(b1: Seq<u8>, b2: Seq<u8>)
    requires
        b1.len() <= usize::MAX,
        bytes_encoding(b1) == bytes_encoding(b2),
    ensures
        b1 == b2,
{
    let e = bytes_encoding(b1);
    lemma_bytes_encoding_layout(b1);
    lemma_uint_word(32);
    lemma_be_bytes_len(b2.len(), 32);
    assert(b2.len() <= usize::MAX + 64);
    lemma_uint_word(b2.len());
    assert(e.subrange(32, 64) =~= uint_word(b2.len()));
    assert(bytes_encoding(b2).subrange(64, 64 + b2.len() as int) =~= b2);
}

/// A sequence that encodes `b`, with `b` of a size a buffer can have,
/// decodes to `b`.
pub proof fn lemma_decoded_bytes_of(data: Seq<u8>, b: Seq<u8>)
    requires
        b.len() <= usize::MAX,
        bytes_encoding(b) == data,
    ensures
        decoded_bytes(data) == Some(b),
{
    let c = choose|c: Seq<u8>| bytes_encoding(c) == data;
    lemma_bytes_encoding_injective(b, c);
}

/// A buffer whose first word points at a length word larger than the
/// buffer is not the encoding of any value.
pub proof fn lemma_overlong_length_not_encoding(data: Seq<u8>)
    requires
        data.len() <= usize::MAX,
        !declared_length_fits(data),
    ensures
        decoded_bytes(data) is None,
{
    if exists|b: Seq<u8>| bytes_encoding(b) == data {
        let b = choose|b: Seq<u8>| bytes_encoding(b) == data;
        lemma_bytes_encoding_layout(b);
    }
}

/// Decoding the encoding of any byte sequence gives that sequence back.
pub proof fn bytes_round_trip(b: Seq<u8>)
    requires
        b.len() <= usize::MAX,
    ensures
        decoded_bytes(bytes_encoding(b)) == Some(b),
{
    lemma_decoded_bytes_of(bytes_encoding(b), b);
}

/// Decoding the word of any `bytesN` value, for `N` from 1 to 32, gives that
/// value back.
pub proof fn fixed_round_trip(a: Seq<u8>)
    requires
        1 <= a.len() <= 32,
    ensures
        decoded_fixed(a.len(), fixed_word(a)) == Some(a),
{
    let w = fixed_word(a);
    assert(w.subrange(a.len() as int, 32) =~= zeros((32 - a.len()) as nat));
    assert(w.subrange(0, a.len() as int) =~= a);
}

/// The tail of a `bytes` value of length `L` is `32 * ceil((32 + L) / 32)`
/// bytes: the length word, the bytes, then padding that is all zero.
pub proof fn bytes_tail_padding(b: Seq<u8>)
    ensures
        bytes_tail(b).len() == 32 * ((b.len() + 63) / 32),
        bytes_tail(b).subrange(0, 32) == uint_word(b.len()),
        bytes_tail(b).subrange(32, 32 + b.len() as int) == b,
        forall|i: int| 32 + b.len() <= i < bytes_tail(b).len() ==> bytes_tail(b)[i] == 0,
{
    let l = b.len();
    let t = bytes_tail(b);
    lemma_be_bytes_len(l, 32);
    let p = padding_len(l);
    assert(32 + l + p == 32 * ((l + 63) / 32)) by (nonlinear_arith)
        requires
            p == (32 - l % 32) % 32,
    ;
    assert(t.subrange(0, 32) =~= uint_word(l));
    assert(t.subrange(32, 32 + l as int) =~= b);
}

/// The word of a `bytesN` value holds the `N` bytes at its start and zeros in
/// the remaining `32 - N` places.
pub proof fn fixed_word_layout(a: Seq<u8>)
    requires
        1 <= a.len() <= 32,
    ensures
        fixed_word(a).len() == 32,
        fixed_word(a).subrange(0, a.len() as int) == a,
        forall|i: int| a.len() <= i < 32 ==> fixed_word(a)[i] == 0,
{
    assert(fixed_word(a).subrange(0, a.len() as int) =~= a);
}

/// A buffer whose length word declares more bytes than follow it is not the
/// encoding of any value, so decoding it fails.
pub proof fn overlong_length_rejected(data: Seq<u8>)
    requires
        data.len() <= usize::MAX,
        data.len() >= 64,
        word_at(data, 32) + 64 > data.len(),
    ensures
        decoded_bytes(data) is None,
{
    if exists|b: Seq<u8>| bytes_encoding(b) == data {
        let b = choose|b: Seq<u8>| bytes_encoding(b) == data;
        lemma_bytes_encoding_layout(b);
    }
}

} // verus!
