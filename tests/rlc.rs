use mpt_circuit::field::{Fp, MODULUS};
use mpt_circuit::memory::{KeyData, MemoryChannel};
use mpt_circuit::error::AssignError;
use mpt_circuit::rlc::{mult, rlc, rlc_range};
use mpt_circuit::rlp::{parse_leaf_key, parse_rlp_value};

#[test]
fn field_arithmetic() {
    let a = Fp::from_u64(MODULUS - 1);
    assert_eq!(a.add(Fp::from_u64(2)), Fp::one());
    assert_eq!(Fp::zero().sub(Fp::one()), a);
    assert_eq!(a.mul(a), Fp::one());
    assert_eq!(Fp::from_u64(MODULUS), Fp::zero());
    assert_eq!(Fp::from_u64(3).pow(4), Fp::from_u64(81));
    assert_eq!(Fp::from_u64(2).pow(61), Fp::one());
    assert_eq!(Fp::from_u64(7).value(), 7);
}

#[test]
fn rlc_formula() {
    let r = Fp::from_u64(10);
    assert_eq!(rlc(&vec![1, 2, 3], r), Fp::from_u64(321));
    assert_eq!(rlc(&vec![], r), Fp::zero());
    assert_eq!(rlc_range(&vec![9, 1, 2, 3, 9], 1, 4, r), Fp::from_u64(321));
    let r = Fp::from_u64(256);
    assert_eq!(rlc(&vec![0x01, 0x02], r), Fp::from_u64(0x0201));
    assert_eq!(mult(r, 3), Fp::from_u64(1 << 24));
}

#[test]
fn rlc_distinguishes_same_length() {
    let r = Fp::from_u64(0x0123_4567_89ab_cdef);
    assert_ne!(rlc(&vec![1, 2, 3], r), rlc(&vec![1, 3, 2], r));
    assert_ne!(rlc(&vec![0; 32], r), rlc(&vec![0; 31].into_iter().chain([1]).collect(), r));
    let r = Fp::from_u64(256);
    assert_ne!(rlc(&vec![0xff, 0x00], r), rlc(&vec![0x00, 0x01], r));
}

#[test]
fn rlp_value_forms() {
    let r = Fp::from_u64(1000);
    let v = parse_rlp_value(&vec![0x05, 0, 0], 0, 3, r).unwrap();
    assert_eq!((v.num_bytes, v.len), (1, 1));
    assert_eq!(v.value_rlc, Fp::from_u64(5));
    assert_eq!(v.rlp_rlc, Fp::from_u64(5));
    let v = parse_rlp_value(&vec![0x82, 0x03, 0xe8, 0], 0, 4, r).unwrap();
    assert_eq!((v.num_bytes, v.len), (3, 2));
    assert_eq!(v.value_rlc, Fp::from_u64(3 + 0xe8 * 1000));
    assert_eq!(v.rlp_rlc, Fp::from_u64(0x82 + 3 * 1000 + 0xe8 * 1000 * 1000));
    let v = parse_rlp_value(&vec![0x80], 0, 1, r).unwrap();
    assert_eq!((v.num_bytes, v.len), (1, 0));
    assert_eq!(v.value_rlc, Fp::zero());
}

#[test]
fn rlp_value_errors() {
    let r = Fp::from_u64(1000);
    assert_eq!(parse_rlp_value(&vec![0x83, 1, 2], 0, 3, r).unwrap_err(), AssignError::Truncated);
    assert_eq!(parse_rlp_value(&vec![0x83, 1, 2], 1, 1, r).unwrap_err(), AssignError::Truncated);
    assert_eq!(parse_rlp_value(&vec![0xb8, 1], 0, 2, r).unwrap_err(), AssignError::UnsupportedHeader);
}

#[test]
fn leaf_key_forms() {
    let r = Fp::from_u64(1000);
    let k = parse_leaf_key(&vec![0xc5, 0x82, 0x35, 0x67, 0, 0], r).unwrap();
    assert_eq!(k.num_bytes, 6);
    assert_eq!(k.num_bytes_on_key_row, 4);
    assert!(k.is_odd);
    assert_eq!(k.num_nibbles, 3);
    assert_eq!(k.first_nibble, 5);
    assert_eq!(k.tail_rlc, Fp::from_u64(0x67));
    assert_eq!(k.row_rlc, rlc(&vec![0xc5, 0x82, 0x35, 0x67], r));
    // Ancestors left nibble 4 open at multiplier 1: the key is 0x45 0x67.
    assert_eq!(k.key_rlc(Fp::from_u64(0x40), Fp::one(), r), Fp::from_u64(0x45 + 0x67 * 1000));
    let k = parse_leaf_key(&vec![0xc1, 0x20], r).unwrap();
    assert_eq!(k.num_nibbles, 0);
    assert!(!k.is_odd);
    assert_eq!(k.num_bytes_on_key_row, 2);
}

#[test]
fn leaf_key_errors() {
    let r = Fp::from_u64(1000);
    assert_eq!(parse_leaf_key(&vec![], r).unwrap_err(), AssignError::Truncated);
    assert_eq!(parse_leaf_key(&vec![0xf8], r).unwrap_err(), AssignError::Truncated);
    assert_eq!(parse_leaf_key(&vec![0x05], r).unwrap_err(), AssignError::UnsupportedHeader);
    assert_eq!(parse_leaf_key(&vec![0xc3, 0xb9], r).unwrap_err(), AssignError::UnsupportedHeader);
    assert_eq!(parse_leaf_key(&vec![0xc3, 0x80], r).unwrap_err(), AssignError::BadKeyEncoding);
    assert_eq!(parse_leaf_key(&vec![0xc3, 0x82, 0x10, 0x00], r).unwrap_err(), AssignError::BadKeyEncoding);
    assert_eq!(parse_leaf_key(&vec![0xc3, 0x83, 0x20, 0x00], r).unwrap_err(), AssignError::Truncated);
}

#[test]
fn memory_channel_loads_by_depth() {
    let mut ch: MemoryChannel<u64> = MemoryChannel::new();
    assert_eq!(ch.load(0), Err(AssignError::MissingStore));
    ch.store(10);
    ch.store(20);
    assert_eq!(ch.load(0), Ok(20));
    assert_eq!(ch.load(1), Ok(10));
    assert_eq!(ch.load(2), Err(AssignError::MissingStore));
    assert_eq!(ch.len(), 2);
    let mut keys: MemoryChannel<KeyData> = MemoryChannel::new();
    keys.store(KeyData::start());
    assert_eq!(keys.load(0).unwrap().num_nibbles, 0);
}
