use stylus_abi_bytes::abi_type::{push_decimal, AbiType};
use stylus_abi_bytes::bytes::{Bytes, BytesSolType};
use stylus_abi_bytes::error::DecodeError;
use stylus_abi_bytes::fixed_bytes::FixedBytes;

fn word(n: u64) -> Vec<u8> {
    let mut w = vec![0u8; 24];
    w.extend_from_slice(&n.to_be_bytes());
    w
}

#[test]
fn bytes_encoding_of_three_bytes() {
    let b = Bytes::from(vec![0x01, 0x02, 0x03]);
    let enc = b.abi_encode();
    let mut expected = word(32);
    expected.extend(word(3));
    expected.extend([0x01, 0x02, 0x03]);
    expected.extend([0u8; 29]);
    assert_eq!(enc, expected);
}

#[test]
fn fixed_encoding_of_three_bytes() {
    let f = FixedBytes::<3>([0x01, 0x02, 0x03]);
    let enc = f.abi_encode();
    let mut expected = vec![0x01, 0x02, 0x03];
    expected.extend([0u8; 29]);
    assert_eq!(enc, expected);
}

#[test]
fn bytes_round_trip_various_lengths() {
    for len in [0usize, 1, 3, 31, 32, 33, 64, 100] {
        let v: Vec<u8> = (0..len).map(|i| (i * 7 + 1) as u8).collect();
        let b = Bytes::from(v.clone());
        let enc = b.abi_encode();
        let dec = BytesSolType::abi_decode(&enc).unwrap();
        assert_eq!(dec, b);
        assert_eq!(Vec::from(dec), v);
    }
}

#[test]
fn fixed_round_trip_various_widths() {
    let a1 = FixedBytes::<1>([0xff]);
    assert_eq!(FixedBytes::<1>::abi_decode(&a1.abi_encode()), Ok(a1));
    let a4 = FixedBytes::<4>([0xde, 0xad, 0xbe, 0xef]);
    assert_eq!(FixedBytes::<4>::abi_decode(&a4.abi_encode()), Ok(a4));
    let a20 = FixedBytes::<20>([0x11; 20]);
    assert_eq!(FixedBytes::<20>::abi_decode(&a20.abi_encode()), Ok(a20));
    let a32 = FixedBytes::<32>([0xab; 32]);
    assert_eq!(FixedBytes::<32>::abi_decode(&a32.abi_encode()), Ok(a32));
}

#[test]
fn bytes_tail_length_and_zero_padding() {
    for len in [0usize, 1, 5, 31, 32, 33, 63, 64, 65] {
        let b = Bytes::from(vec![0xffu8; len]);
        let enc = b.abi_encode();
        let tail = &enc[32..];
        assert_eq!(tail.len(), 32 * ((32 + len + 31) / 32));
        assert_eq!(&tail[..32], word(len as u64).as_slice());
        assert!(tail[32..32 + len].iter().all(|x| *x == 0xff));
        assert!(tail[32 + len..].iter().all(|x| *x == 0));
    }
}

#[test]
fn fixed_word_places_bytes_first() {
    let f = FixedBytes::<5>([1, 2, 3, 4, 5]);
    let enc = f.abi_encode();
    assert_eq!(enc.len(), 32);
    assert_eq!(&enc[..5], &[1, 2, 3, 4, 5]);
    assert!(enc[5..].iter().all(|x| *x == 0));
}

#[test]
fn fixed_names() {
    assert_eq!(<FixedBytes<4> as AbiType>::abi(), "bytes4");
    assert_eq!(<FixedBytes<32> as AbiType>::abi(), "bytes32");
    assert_eq!(<FixedBytes<1> as AbiType>::abi(), "bytes1");
    assert_eq!(<FixedBytes<10> as AbiType>::abi(), "bytes10");
}

#[test]
fn bytes_signatures() {
    assert_eq!(<Bytes as AbiType>::abi(), "bytes");
    assert_eq!(<Bytes as AbiType>::export_abi_arg(), "bytes calldata");
    assert_eq!(<Bytes as AbiType>::export_abi_ret(), "bytes memory");
}

#[test]
fn fixed_signatures_are_bare_name() {
    assert_eq!(<FixedBytes<32> as AbiType>::export_abi_arg(), "bytes32");
    assert_eq!(<FixedBytes<32> as AbiType>::export_abi_ret(), "bytes32");
    assert_eq!(<FixedBytes<4> as AbiType>::export_abi_arg(), "bytes4");
    assert_eq!(<FixedBytes<4> as AbiType>::export_abi_ret(), "bytes4");
}

#[test]
fn decimal_numerals() {
    let mut s = String::from("x");
    push_decimal(&mut s, 0);
    assert_eq!(s, "x0");
    let mut s = String::new();
    push_decimal(&mut s, 1234567);
    assert_eq!(s, "1234567");
}

#[test]
fn declared_length_exceeds_buffer() {
    let mut data = word(32);
    data.extend(word(40));
    data.extend([7u8; 32]);
    assert_eq!(BytesSolType::abi_decode(&data), Err(DecodeError::Malformed));
}

#[test]
fn huge_declared_length_is_an_error() {
    let mut data = word(32);
    data.extend(word(u64::MAX));
    data.extend([7u8; 32]);
    assert_eq!(BytesSolType::abi_decode(&data), Err(DecodeError::Malformed));
    let mut data = word(32);
    data.extend(word(u64::MAX - 31));
    assert_eq!(BytesSolType::abi_decode(&data), Err(DecodeError::Malformed));
}

#[test]
fn huge_offset_is_an_error() {
    let mut data = word(u64::MAX);
    data.extend(word(0));
    assert_eq!(BytesSolType::abi_decode(&data), Err(DecodeError::Malformed));
}

#[test]
fn short_buffers_are_errors() {
    assert_eq!(BytesSolType::abi_decode(&[]), Err(DecodeError::Malformed));
    assert_eq!(BytesSolType::abi_decode(&word(32)), Err(DecodeError::Malformed));
    assert_eq!(FixedBytes::<4>::abi_decode(&[1, 2, 3, 4]), Err(DecodeError::Malformed));
}

#[test]
fn bytes_nonzero_padding_rejected() {
    let mut enc = Bytes::from(vec![1, 2, 3]).abi_encode();
    let last = enc.len() - 1;
    enc[last] = 1;
    assert_eq!(BytesSolType::abi_decode(&enc), Err(DecodeError::Malformed));
}

#[test]
fn bytes_trailing_data_rejected() {
    let mut enc = Bytes::from(vec![1, 2, 3]).abi_encode();
    enc.extend([0u8; 32]);
    assert_eq!(BytesSolType::abi_decode(&enc), Err(DecodeError::Malformed));
}

#[test]
fn fixed_nonzero_padding_rejected() {
    let mut enc = FixedBytes::<4>([1, 2, 3, 4]).abi_encode();
    enc[4] = 9;
    assert_eq!(FixedBytes::<4>::abi_decode(&enc), Err(DecodeError::Malformed));
    let mut long = FixedBytes::<4>([1, 2, 3, 4]).abi_encode();
    long.push(0);
    assert_eq!(FixedBytes::<4>::abi_decode(&long), Err(DecodeError::Malformed));
}

#[test]
fn encoded_sizes() {
    assert_eq!(Bytes::from(vec![]).abi_encoded_size(), 64);
    assert_eq!(Bytes::from(vec![0; 3]).abi_encoded_size(), 96);
    assert_eq!(Bytes::from(vec![0; 32]).abi_encoded_size(), 96);
    assert_eq!(Bytes::from(vec![0; 33]).abi_encoded_size(), 128);
}

#[test]
fn packed_encoding_appends_bytes() {
    let mut out = vec![9u8];
    Bytes::from(vec![1, 2, 3]).abi_encode_packed_to(&mut out);
    assert_eq!(out, vec![9, 1, 2, 3]);
}

#[test]
fn eip712_word_is_keccak_of_bytes() {
    let b = Bytes::from(vec![1, 2, 3]);
    let w = b.eip712_data_word();
    assert_eq!(w, alloy_primitives::keccak256([1u8, 2, 3]).0);
    let empty = Bytes::from(vec![]).eip712_data_word();
    assert_eq!(empty[..4], [0xc5, 0xd2, 0x46, 0x01]);
}

#[test]
fn tokens_and_names() {
    let b = Bytes::from(vec![4, 5]);
    assert_eq!(b.to_token(), &[4, 5]);
    assert_eq!(BytesSolType::sol_type_name(), "bytes");
    assert!(BytesSolType::valid_token(&[1, 2, 3]));
    assert_eq!(BytesSolType::detokenize(&[6, 7]), Bytes(vec![6, 7]));
}

#[test]
fn views_and_mutation() {
    let mut b = Bytes::from(vec![1, 2]);
    b.push(3);
    b[0] = 10;
    assert_eq!(b.len(), 3);
    assert_eq!(b.as_slice(), &[10, 2, 3]);
    b.as_mut_vec().push(4);
    b.as_mut()[1] = 20;
    let r: &[u8] = b.as_ref();
    assert_eq!(r, &[10, 20, 3, 4]);
    assert_eq!(FixedBytes::from([1u8, 2]).as_slice(), &[1, 2]);
}
