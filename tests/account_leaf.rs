use mpt_circuit::account_leaf::{AccountLeafConfig, AccountLeafWitness, HashEntry};
use mpt_circuit::error::AssignError;
use mpt_circuit::field::Fp;
use mpt_circuit::memory::{KeyData, ParentData, ProofMemory};
use mpt_circuit::rlc::rlc;
use mpt_circuit::selectors::ProofType;

fn challenge() -> Fp {
    Fp::from_u64(0x0123_4567_89ab_cdef)
}

fn key_a() -> Vec<u8> {
    (0..32u8).map(|i| i.wrapping_mul(37).wrapping_add(0x1a)).collect()
}

/// The key of `key_a` with nibble 3 (the low half of byte 1) changed.
fn key_b_nibble3() -> Vec<u8> {
    let mut k = key_a();
    k[1] ^= 0x05;
    k
}

/// A key whose first nibble differs from `key_a`'s.
fn key_b_other_slot() -> Vec<u8> {
    let mut k = key_a();
    k[0] ^= 0x70;
    k
}

fn rlp_scalar(bytes: &[u8]) -> Vec<u8> {
    if bytes.len() == 1 && bytes[0] < 0x80 && bytes[0] != 0 {
        bytes.to_vec()
    } else {
        let mut v = vec![0x80 + bytes.len() as u8];
        v.extend_from_slice(bytes);
        v
    }
}

/// The bytes of an account value after the key: the headers and four fields.
fn value_bytes(nonce: &[u8], balance: &[u8], storage: &[u8], codehash: &[u8]) -> Vec<u8> {
    let n = rlp_scalar(nonce);
    let b = rlp_scalar(balance);
    let list_len = (n.len() + b.len() + 66) as u8;
    let mut v = vec![0xb8, list_len + 2, 0xf8, list_len];
    v.extend_from_slice(&n);
    v.extend_from_slice(&b);
    v.push(0xa0);
    v.extend_from_slice(storage);
    v.push(0xa0);
    v.extend_from_slice(codehash);
    v
}

/// The key row of a leaf that holds the whole key (64 nibbles).
fn key_row_full(key: &[u8], value_len: usize) -> Vec<u8> {
    let mut v = vec![0xf8, (34 + value_len) as u8, 0xa1, 0x20];
    v.extend_from_slice(key);
    v
}

/// The key row of a leaf below one branch (63 nibbles).
fn key_row_below_branch(key: &[u8], value_len: usize) -> Vec<u8> {
    let mut v = vec![0xf8, (33 + value_len) as u8, 0xa0, 0x30 | (key[0] & 0x0f)];
    v.extend_from_slice(&key[1..]);
    v
}

fn nonce_balance_row(nonce: &[u8], balance: &[u8]) -> Vec<u8> {
    let n = rlp_scalar(nonce);
    let b = rlp_scalar(balance);
    let list_len = (n.len() + b.len() + 66) as u8;
    let mut row = vec![0u8; 68];
    row[0] = 0xb8;
    row[1] = list_len + 2;
    row[2..2 + n.len()].copy_from_slice(&n);
    row[34] = 0xf8;
    row[35] = list_len;
    row[36..36 + b.len()].copy_from_slice(&b);
    row
}

fn storage_codehash_row(storage: &[u8], codehash: &[u8]) -> Vec<u8> {
    let mut row = vec![0u8; 68];
    row[1] = 0xa0;
    row[2..34].copy_from_slice(storage);
    row[35] = 0xa0;
    row[36..68].copy_from_slice(codehash);
    row
}

fn storage_root() -> Vec<u8> {
    (0..32u8).map(|i| 0x90 ^ i).collect()
}

fn code_hash() -> Vec<u8> {
    (0..32u8).map(|i| 0xc5u8.wrapping_add(i.wrapping_mul(3))).collect()
}

fn concat(a: &[u8], b: &[u8]) -> Vec<u8> {
    let mut v = a.to_vec();
    v.extend_from_slice(b);
    v
}

fn root_key_data() -> KeyData {
    KeyData::start()
}

/// The key data after one branch, at the slot of the key's first nibble.
fn key_data_below_branch(key: &[u8], drifted_key: &[u8]) -> KeyData {
    KeyData {
        rlc: Fp::from_u64(((key[0] >> 4) as u64) * 16),
        mult: Fp::one(),
        num_nibbles: 1,
        is_odd: true,
        is_placeholder_leaf_s: false,
        is_placeholder_leaf_c: false,
        drifted_rlc: Fp::from_u64(((drifted_key[0] >> 4) as u64) * 16),
        drifted_mult: Fp::one(),
        drifted_num_nibbles: 1,
        drifted_is_odd: true,
    }
}

fn parent(rlc: u64, is_placeholder: bool, hash_rlc: u64) -> ParentData {
    ParentData {
        rlc: Fp::from_u64(rlc),
        is_placeholder,
        is_placeholder_leaf: false,
        hash_rlc: Fp::from_u64(hash_rlc),
    }
}

fn memory_with(ks: KeyData, kc: KeyData, ps: ParentData, pc: ParentData) -> ProofMemory {
    let mut m = ProofMemory::new();
    m.key_s.store(ks);
    m.key_c.store(kc);
    m.parent_s.store(ps);
    m.parent_c.store(pc);
    m
}

/// A single-account trie whose nonce goes from 5 to 6.
fn nonce_change_rows() -> Vec<Vec<u8>> {
    let key = key_a();
    let vs = value_bytes(&[5], &[0x03, 0xe8], &storage_root(), &code_hash());
    vec![
        key_row_full(&key, vs.len()),
        key_row_full(&key, vs.len()),
        vec![0u8; 68],
        nonce_balance_row(&[5], &[0x03, 0xe8]),
        nonce_balance_row(&[6], &[0x03, 0xe8]),
        storage_codehash_row(&storage_root(), &code_hash()),
        storage_codehash_row(&storage_root(), &code_hash()),
        vec![0u8; 68],
    ]
}

fn assign_nonce_change() -> (AccountLeafWitness, ProofMemory) {
    let cfg = AccountLeafConfig::configure(challenge());
    let mut mem = memory_with(root_key_data(), root_key_data(), parent(111, false, 0), parent(
        222,
        false,
        0,
    ));
    let address = rlc(&key_a(), challenge());
    let w = cfg
        .assign(&nonce_change_rows(), 1, &mut mem, ProofType::NonceChanged, address)
        .unwrap();
    (w, mem)
}

fn nonce_change_table(w: &AccountLeafWitness) -> Vec<HashEntry> {
    vec![
        HashEntry { rlc: w.s.leaf_rlc, len: w.s.key.num_bytes, hash_rlc: Fp::from_u64(111) },
        HashEntry { rlc: w.c.leaf_rlc, len: w.c.key.num_bytes, hash_rlc: Fp::from_u64(222) },
    ]
}

#[test]
fn nonce_change_single_account() {
    let r = challenge();
    let (w, mem) = assign_nonce_change();
    let cfg = AccountLeafConfig::configure(r);
    assert!(cfg.check(&nonce_change_rows(), 1, &mem, &w, &nonce_change_table(&w)));
    // Only the nonce differs.
    assert_eq!(w.s.nonce.value_rlc, Fp::from_u64(5));
    assert_eq!(w.c.nonce.value_rlc, Fp::from_u64(6));
    assert_eq!(w.s.balance.value_rlc, w.c.balance.value_rlc);
    assert_eq!(w.s.storage.value_rlc, w.c.storage.value_rlc);
    assert_eq!(w.s.codehash.value_rlc, w.c.codehash.value_rlc);
    // The key RLC is the RLC of the account's key hash on both sides.
    assert_eq!(w.s.key_rlc, rlc(&key_a(), r));
    assert_eq!(w.c.key_rlc, rlc(&key_a(), r));
    // Nothing special fires.
    assert!(w.drifted.is_none());
    assert!(w.wrong.is_none());
    // The nonce row publishes the change with the nonce code.
    assert_eq!(w.nonce_row.proof_type, 1);
    assert_eq!(w.nonce_row.offset, 3);
    assert_eq!(w.nonce_row.value_prev, Fp::from_u64(5));
    assert_eq!(w.nonce_row.value, Fp::from_u64(6));
    assert_eq!(w.balance_row.proof_type, 0);
    assert_eq!(w.key_s_row.proof_type, 0);
    assert_eq!(w.existence_row.proof_type, 0);
    assert_eq!(w.codehash_row.proof_type, 0);
}

#[test]
fn leaf_rlc_is_rlc_of_leaf_encoding() {
    let r = challenge();
    let (w, _) = assign_nonce_change();
    let vs = value_bytes(&[5], &[0x03, 0xe8], &storage_root(), &code_hash());
    let key_row = key_row_full(&key_a(), vs.len());
    let leaf = concat(&key_row, &vs);
    assert_eq!(w.s.leaf_rlc, rlc(&leaf, r));
    assert_eq!(w.s.leaf_no_key_rlc, rlc(&vs, r));
    assert_eq!(w.s.key.num_bytes as usize, leaf.len());
    assert_eq!(w.s.key.num_bytes_on_key_row, 36);
    assert_eq!(w.s.key.num_nibbles, 64);
    assert_eq!(w.s.storage.value_rlc, rlc(&storage_root(), r));
}

#[test]
fn nonce_change_stores_storage_parent() {
    let (w, mem) = assign_nonce_change();
    assert_eq!(mem.key_s.len(), 2);
    assert_eq!(mem.parent_c.len(), 2);
    let p = mem.parent_s.load(0).unwrap();
    assert_eq!(p.rlc, w.s.storage.value_rlc);
    assert!(!p.is_placeholder);
    assert_eq!(mem.key_c.load(0).unwrap(), KeyData::start());
    // The state before the leaf is still there one store down.
    assert_eq!(mem.parent_c.load(1).unwrap().rlc, Fp::from_u64(222));
}

#[test]
fn balance_change_under_nonce_proof_is_rejected() {
    let r = challenge();
    let cfg = AccountLeafConfig::configure(r);
    let mut rows = nonce_change_rows();
    rows[4] = nonce_balance_row(&[6], &[0x03, 0xe9]);
    let mut mem = memory_with(root_key_data(), root_key_data(), parent(111, false, 0), parent(
        222,
        false,
        0,
    ));
    let w = cfg.assign(&rows, 1, &mut mem, ProofType::NonceChanged, rlc(&key_a(), r)).unwrap();
    assert!(!cfg.check(&rows, 1, &mem, &w, &nonce_change_table(&w)));
}

#[test]
fn leaf_missing_from_hash_table_is_rejected() {
    let (w, mem) = assign_nonce_change();
    let cfg = AccountLeafConfig::configure(challenge());
    let table = vec![nonce_change_table(&w)[0]];
    assert!(!cfg.check(&nonce_change_rows(), 1, &mem, &w, &table));
}

#[test]
fn wrong_address_is_rejected() {
    let r = challenge();
    let cfg = AccountLeafConfig::configure(r);
    let mut mem = memory_with(root_key_data(), root_key_data(), parent(111, false, 0), parent(
        222,
        false,
        0,
    ));
    let w = cfg
        .assign(&nonce_change_rows(), 1, &mut mem, ProofType::NonceChanged, rlc(&key_b_nibble3(), r))
        .unwrap();
    assert!(!cfg.check(&nonce_change_rows(), 1, &mem, &w, &nonce_change_table(&w)));
}

#[test]
fn cells_must_match_rows() {
    let (w, mem) = assign_nonce_change();
    let cfg = AccountLeafConfig::configure(challenge());
    let mut rows = nonce_change_rows();
    rows[4] = nonce_balance_row(&[7], &[0x03, 0xe8]);
    assert!(!cfg.check(&rows, 1, &mem, &w, &nonce_change_table(&w)));
    assert!(!cfg.check(&nonce_change_rows(), 0, &mem, &w, &nonce_change_table(&w)));
}

#[test]
fn loaded_data_must_come_from_memory() {
    let (w, _) = assign_nonce_change();
    let cfg = AccountLeafConfig::configure(challenge());
    let other = memory_with(root_key_data(), root_key_data(), parent(111, false, 0), parent(
        999,
        false,
        0,
    ));
    assert!(!cfg.check(&nonce_change_rows(), 1, &other, &w, &nonce_change_table(&w)));
}

#[test]
fn assignment_is_deterministic() {
    let (w1, m1) = assign_nonce_change();
    let (w2, m2) = assign_nonce_change();
    assert_eq!(format!("{:?}", w1), format!("{:?}", w2));
    assert_eq!(m1.parent_s.load(0).unwrap(), m2.parent_s.load(0).unwrap());
    assert_eq!(m1.key_c.load(0).unwrap(), m2.key_c.load(0).unwrap());
}

/// A non-existence proof for `key_a` where the trie holds a leaf for a key
/// that differs from it at nibble 3, below one branch.
fn non_existence_rows() -> Vec<Vec<u8>> {
    let found = key_b_nibble3();
    let vs = value_bytes(&[1], &[0x10], &storage_root(), &code_hash());
    vec![
        key_row_below_branch(&found, vs.len()),
        key_row_below_branch(&found, vs.len()),
        key_row_below_branch(&key_a(), vs.len()),
        nonce_balance_row(&[1], &[0x10]),
        nonce_balance_row(&[1], &[0x10]),
        storage_codehash_row(&storage_root(), &code_hash()),
        storage_codehash_row(&storage_root(), &code_hash()),
        vec![0u8; 68],
    ]
}

#[test]
fn non_existence_with_other_leaf() {
    let r = challenge();
    let cfg = AccountLeafConfig::configure(r);
    let found = key_b_nibble3();
    let kd = key_data_below_branch(&found, &found);
    let mut mem = memory_with(kd, kd, parent(333, false, 0), parent(333, false, 0));
    let address = rlc(&key_a(), r);
    let w = cfg
        .assign(&non_existence_rows(), 1, &mut mem, ProofType::AccountDoesNotExist, address)
        .unwrap();
    // The found leaf's key is the other key, continued from the branch.
    assert_eq!(w.s.key_rlc, rlc(&found, r));
    assert_eq!(w.s.key.num_nibbles, 63);
    // The wrong-leaf gadget fires and rebuilds the asked-for key.
    let wrong = w.wrong.unwrap();
    assert_eq!(wrong.key_rlc, address);
    assert_ne!(wrong.key_rlc, w.s.key_rlc);
    assert_eq!(w.existence_row.proof_type, 4);
    assert_eq!(w.existence_row.offset, 2);
    // The found leaf hashes into its parent.
    let vs = value_bytes(&[1], &[0x10], &storage_root(), &code_hash());
    let leaf = concat(&key_row_below_branch(&found, vs.len()), &vs);
    assert_eq!(w.s.leaf_rlc, rlc(&leaf, r));
    let table = vec![HashEntry {
        rlc: rlc(&leaf, r),
        len: leaf.len() as u64,
        hash_rlc: Fp::from_u64(333),
    }];
    assert!(cfg.check(&non_existence_rows(), 1, &mem, &w, &table));
    assert!(!cfg.check(&non_existence_rows(), 1, &mem, &w, &vec![]));
}

#[test]
fn non_existence_of_present_key_is_rejected() {
    let r = challenge();
    let cfg = AccountLeafConfig::configure(r);
    let found = key_b_nibble3();
    let kd = key_data_below_branch(&found, &found);
    let mut rows = non_existence_rows();
    // The asked-for key is the found key: no mismatch at nibble 3.
    rows[2] = rows[0].clone();
    let mut mem = memory_with(kd, kd, parent(333, false, 0), parent(333, false, 0));
    let address = rlc(&found, r);
    let w = cfg.assign(&rows, 1, &mut mem, ProofType::AccountDoesNotExist, address).unwrap();
    let table = vec![HashEntry { rlc: w.s.leaf_rlc, len: w.s.key.num_bytes, hash_rlc: Fp::from_u64(333) }];
    assert!(!cfg.check(&rows, 1, &mem, &w, &table));
}

/// Deleting `key_a` from a branch whose other leaf then moves up to the root.
fn deletion_rows() -> Vec<Vec<u8>> {
    let sibling = key_b_other_slot();
    let vs = value_bytes(&[2], &[0x20], &storage_root(), &code_hash());
    vec![
        key_row_below_branch(&key_a(), vs.len()),
        key_row_full(&sibling, vs.len()),
        vec![0u8; 68],
        nonce_balance_row(&[2], &[0x20]),
        nonce_balance_row(&[2], &[0x20]),
        storage_codehash_row(&storage_root(), &code_hash()),
        storage_codehash_row(&storage_root(), &code_hash()),
        key_row_below_branch(&sibling, vs.len()),
    ]
}

fn deletion_memory(c_placeholder: bool) -> ProofMemory {
    let ks = key_data_below_branch(&key_a(), &key_b_other_slot());
    memory_with(ks, root_key_data(), parent(444, false, 0), parent(555, c_placeholder, 666))
}

fn deletion_table(w: &AccountLeafWitness) -> Vec<HashEntry> {
    let mut t = vec![
        HashEntry { rlc: w.s.leaf_rlc, len: w.s.key.num_bytes, hash_rlc: Fp::from_u64(444) },
        HashEntry { rlc: w.c.leaf_rlc, len: w.c.key.num_bytes, hash_rlc: Fp::from_u64(555) },
    ];
    if let Some(d) = w.drifted {
        t.push(HashEntry { rlc: d.leaf_rlc, len: d.key.num_bytes, hash_rlc: Fp::from_u64(666) });
    }
    t
}

#[test]
fn deletion_with_drifted_sibling() {
    let r = challenge();
    let cfg = AccountLeafConfig::configure(r);
    let mut mem = deletion_memory(true);
    let address = rlc(&key_a(), r);
    let w = cfg
        .assign(&deletion_rows(), 1, &mut mem, ProofType::AccountDeleteMod, address)
        .unwrap();
    let d = w.drifted.unwrap();
    assert!(!d.is_s);
    // The sibling's key, rebuilt through its old slot in the branch, is its
    // key after the deletion.
    assert_eq!(d.key_rlc, rlc(&key_b_other_slot(), r));
    assert_eq!(d.key_rlc, w.c.key_rlc);
    // The drifted leaf is the sibling's old encoding.
    let vs = value_bytes(&[2], &[0x20], &storage_root(), &code_hash());
    let old_leaf = concat(&key_row_below_branch(&key_b_other_slot(), vs.len()), &vs);
    assert_eq!(d.leaf_rlc, rlc(&old_leaf, r));
    assert_eq!(w.key_s_row.proof_type, 5);
    assert_eq!(w.key_s_row.offset, 0);
    assert!(cfg.check(&deletion_rows(), 1, &mem, &w, &deletion_table(&w)));
}

#[test]
fn deletion_without_placeholder_is_rejected() {
    let r = challenge();
    let cfg = AccountLeafConfig::configure(r);
    let mut mem = deletion_memory(false);
    let w = cfg
        .assign(&deletion_rows(), 1, &mut mem, ProofType::AccountDeleteMod, rlc(&key_a(), r))
        .unwrap();
    assert!(w.drifted.is_none());
    assert!(!cfg.check(&deletion_rows(), 1, &mem, &w, &deletion_table(&w)));
}

#[test]
fn drifted_leaf_missing_from_branch_is_rejected() {
    let r = challenge();
    let cfg = AccountLeafConfig::configure(r);
    let mut mem = deletion_memory(true);
    let w = cfg
        .assign(&deletion_rows(), 1, &mut mem, ProofType::AccountDeleteMod, rlc(&key_a(), r))
        .unwrap();
    let table = deletion_table(&w)[..2].to_vec();
    assert!(!cfg.check(&deletion_rows(), 1, &mem, &w, &table));
}

#[test]
fn assign_error_row_missing() {
    let cfg = AccountLeafConfig::configure(challenge());
    let mut mem = memory_with(root_key_data(), root_key_data(), parent(1, false, 0), parent(1, false, 0));
    let rows = nonce_change_rows();
    assert_eq!(
        cfg.assign(&rows, 0, &mut mem, ProofType::NonceChanged, Fp::zero()).unwrap_err(),
        AssignError::RowMissing
    );
    assert_eq!(
        cfg.assign(&rows, 2, &mut mem, ProofType::NonceChanged, Fp::zero()).unwrap_err(),
        AssignError::RowMissing
    );
    // A failed assignment leaves the memory as it was.
    assert_eq!(mem.key_s.len(), 1);
}

#[test]
fn assign_error_row_too_short() {
    let cfg = AccountLeafConfig::configure(challenge());
    let mut mem = memory_with(root_key_data(), root_key_data(), parent(1, false, 0), parent(1, false, 0));
    let mut rows = nonce_change_rows();
    rows[5].truncate(67);
    assert_eq!(
        cfg.assign(&rows, 1, &mut mem, ProofType::NonceChanged, Fp::zero()).unwrap_err(),
        AssignError::RowTooShort
    );
}

#[test]
fn assign_error_missing_store() {
    let cfg = AccountLeafConfig::configure(challenge());
    let mut mem = ProofMemory::new();
    mem.key_s.store(KeyData::start());
    assert_eq!(
        cfg.assign(&nonce_change_rows(), 1, &mut mem, ProofType::NonceChanged, Fp::zero())
            .unwrap_err(),
        AssignError::MissingStore
    );
}

#[test]
fn assign_error_bad_headers() {
    let cfg = AccountLeafConfig::configure(challenge());
    let fresh = || memory_with(root_key_data(), root_key_data(), parent(1, false, 0), parent(1, false, 0));
    let mut rows = nonce_change_rows();
    rows[0][0] = 0x12;
    assert_eq!(
        cfg.assign(&rows, 1, &mut fresh(), ProofType::NonceChanged, Fp::zero()).unwrap_err(),
        AssignError::UnsupportedHeader
    );
    let mut rows = nonce_change_rows();
    rows[1][3] = 0x11;
    assert_eq!(
        cfg.assign(&rows, 1, &mut fresh(), ProofType::NonceChanged, Fp::zero()).unwrap_err(),
        AssignError::BadKeyEncoding
    );
    let mut rows = nonce_change_rows();
    rows[3][36] = 0xb8;
    assert_eq!(
        cfg.assign(&rows, 1, &mut fresh(), ProofType::NonceChanged, Fp::zero()).unwrap_err(),
        AssignError::UnsupportedHeader
    );
    let mut rows = nonce_change_rows();
    rows[6][35] = 0xa1;
    assert_eq!(
        cfg.assign(&rows, 1, &mut fresh(), ProofType::NonceChanged, Fp::zero()).unwrap_err(),
        AssignError::Truncated
    );
}

#[test]
fn non_existence_needs_wrong_row() {
    let r = challenge();
    let cfg = AccountLeafConfig::configure(r);
    let found = key_b_nibble3();
    let kd = key_data_below_branch(&found, &found);
    let mut rows = non_existence_rows();
    rows[2] = vec![0u8; 68];
    let mut mem = memory_with(kd, kd, parent(333, false, 0), parent(333, false, 0));
    assert_eq!(
        cfg.assign(&rows, 1, &mut mem, ProofType::AccountDoesNotExist, rlc(&key_a(), r))
            .unwrap_err(),
        AssignError::UnsupportedHeader
    );
}
