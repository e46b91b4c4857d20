use vstd::prelude::*;
use crate::error::AssignError;
use crate::field::{f_add, f_mul, power, Fp, MODULUS};
use crate::memory::{stored, KeyData, ParentData, ProofMemory};
use crate::rlc::{
    lemma_mul_add_mod,
    lemma_power_add,
    lemma_rlc_concat,
    mult,
    mult_spec,
    rlc,
    rlc_int,
    rlc_spec,
    MULT_TABLE_MAX,
};
use crate::rlp::{key_layout, parse_leaf_key, parse_rlp_value, value_header, LeafKey, RlpValue};
use crate::selectors::{ProofType, RowType};

verus! {

/// The number of nibbles of a full account key (a 256-bit key hash).
pub const KEY_LEN_IN_NIBBLES: u64 = 64;
/// The byte width of a hash: storage roots and code hashes.
pub const HASH_WIDTH: u64 = 32;
/// The byte width of the nonce-balance and storage-codehash rows.
pub const VALUE_ROW_WIDTH: usize = 68;
/// Where the nonce's RLP value stands on a nonce-balance row.
pub const NONCE_START: usize = 2;
pub const NONCE_END: usize = 34;
/// Where the balance's RLP value stands on a nonce-balance row.
pub const BALANCE_START: usize = 36;
pub const BALANCE_END: usize = 68;
/// Where the storage root's RLP value stands on a storage-codehash row.
pub const STORAGE_START: usize = 1;
pub const STORAGE_END: usize = 34;
/// Where the code hash's RLP value stands on a storage-codehash row.
pub const CODEHASH_START: usize = 35;
pub const CODEHASH_END: usize = 68;
/// The header byte of a string with one length byte (the account value).
pub const STRING_LONG_ONE: u8 = 0xb8;
/// The header byte of a list with one length byte (the account fields).
pub const LIST_LONG_ONE: u8 = 0xf8;

/// The root hash of the empty trie, `keccak(rlp(""))`.
pub open spec fn empty_trie_root() -> Seq<u8> {
    seq![
        0x56u8, 0xe8, 0x1f, 0x17, 0x1b, 0xcc, 0x55, 0xa6, 0xff, 0x83, 0x45, 0xe6, 0x92, 0xc0,
        0xf8, 0x6e, 0x5b, 0x48, 0xe0, 0x1b, 0x99, 0x6c, 0xad, 0xc0, 0x01, 0x62, 0x2f, 0xb5,
        0xe3, 0x63, 0xb4, 0x21,
    ]
}

pub fn empty_trie_root_bytes() -> (r: Vec<u8>)
    ensures
        r@ == empty_trie_root(),
{
    let r: Vec<u8> = vec![
        0x56u8, 0xe8, 0x1f, 0x17, 0x1b, 0xcc, 0x55, 0xa6, 0xff, 0x83, 0x45, 0xe6, 0x92, 0xc0,
        0xf8, 0x6e, 0x5b, 0x48, 0xe0, 0x1b, 0x99, 0x6c, 0xad, 0xc0, 0x01, 0x62, 0x2f, 0xb5,
        0xe3, 0x63, 0xb4, 0x21,
    ];
    assert(r@ =~= empty_trie_root());
    r
}

/// The cells of one side (S or C) of an account leaf.
#[derive(Clone, Copy, Debug)]
pub struct LeafSide {
    pub key_data: KeyData,
    pub parent_data: ParentData,
    /// The parent hash is the root of the empty trie.
    pub is_empty_trie: bool,
    pub key: LeafKey,
    /// The header of the account value string: `0xb8` and its length.
    pub string_rlp1: u8,
    pub string_rlp2: u8,
    /// The header of the list of account fields: `0xf8` and its length.
    pub list_rlp1: u8,
    pub list_rlp2: u8,
    pub nonce: RlpValue,
    pub balance: RlpValue,
    pub storage: RlpValue,
    pub codehash: RlpValue,
    /// `r` to the number of leaf bytes on the key row.
    pub key_mult: Fp,
    /// `r` to the number of bytes of the value headers and the nonce.
    pub nonce_mult: Fp,
    /// `r` to the number of bytes of the balance.
    pub balance_mult: Fp,
    /// RLC of the leaf's bytes after the key.
    pub leaf_no_key_rlc: Fp,
    /// RLC of the whole leaf encoding.
    pub leaf_rlc: Fp,
    /// RLC of the full account key.
    pub key_rlc: Fp,
}

/// The four header bytes of the account value as one sequence.
pub open spec fn value_rlp_seq(s: LeafSide) -> Seq<u8> {
    seq![s.string_rlp1, s.string_rlp2, s.list_rlp1, s.list_rlp2]
}

/// RLC of the leaf's bytes after the key, chained from its parts: the value
/// headers and the nonce, then the balance, the storage root and the code
/// hash, each shifted by the multiplier of what precedes it.
pub open spec fn value_chain(s: LeafSide, r: nat) -> nat {
    f_add(
        f_add(rlc_spec(value_rlp_seq(s), r), f_mul(mult_spec(r, 4), s.nonce.rlp_rlc.val())),
        f_mul(
            s.nonce_mult.val(),
            f_add(
                s.balance.rlp_rlc.val(),
                f_mul(
                    s.balance_mult.val(),
                    f_add(
                        s.storage.rlp_rlc.val(),
                        f_mul(mult_spec(r, (1 + HASH_WIDTH) as nat), s.codehash.rlp_rlc.val()),
                    ),
                ),
            ),
        ),
    )
}

impl LeafSide {
    /// The cells that follow from the others: the multipliers (as the
    /// multiplier table holds them), the chained RLCs of the leaf, its key
    /// RLC, and the empty-trie flag.
    pub open spec fn derived(self, r: nat) -> bool {
        &&& self.key.num_bytes_on_key_row <= MULT_TABLE_MAX
        &&& self.nonce.num_bytes + 4 <= MULT_TABLE_MAX
        &&& self.balance.num_bytes <= MULT_TABLE_MAX
        &&& self.key_mult.val() == mult_spec(r, self.key.num_bytes_on_key_row as nat)
        &&& self.nonce_mult.val() == mult_spec(r, (self.nonce.num_bytes + 4) as nat)
        &&& self.balance_mult.val() == mult_spec(r, self.balance.num_bytes as nat)
        &&& self.leaf_no_key_rlc.val() == value_chain(self, r)
        &&& self.leaf_rlc.val() == f_add(
            self.key.row_rlc.val(),
            f_mul(self.key_mult.val(), self.leaf_no_key_rlc.val()),
        )
        &&& self.key_rlc.val() == f_add(
            self.key_data.rlc.val(),
            self.key.contribution(self.key_data.mult.val(), r),
        )
        &&& self.is_empty_trie == (self.parent_data.rlc.val() == rlc_spec(empty_trie_root(), r))
    }

    /// The decoding cells hold what the side's rows hold: the leaf key of
    /// the key row, the value headers and the four fields of the
    /// nonce-balance and storage-codehash rows.
    pub open spec fn reads(self, key_row: Seq<u8>, nb_row: Seq<u8>, sc_row: Seq<u8>, r: nat) -> bool {
        &&& nb_row.len() >= VALUE_ROW_WIDTH
        &&& sc_row.len() >= VALUE_ROW_WIDTH
        &&& self.key.decodes(key_row, r)
        &&& self.string_rlp1 == nb_row[0]
        &&& self.string_rlp2 == nb_row[1]
        &&& self.list_rlp1 == nb_row[NONCE_END as int]
        &&& self.list_rlp2 == nb_row[NONCE_END + 1]
        &&& self.nonce.decodes(nb_row.subrange(NONCE_START as int, NONCE_END as int), r)
        &&& self.balance.decodes(nb_row.subrange(BALANCE_START as int, BALANCE_END as int), r)
        &&& self.storage.decodes(sc_row.subrange(STORAGE_START as int, STORAGE_END as int), r)
        &&& self.codehash.decodes(sc_row.subrange(CODEHASH_START as int, CODEHASH_END as int), r)
    }

    /// `self` is what assignment makes of the key row, the nonce-balance row
    /// and the storage-codehash row of its side, with the loaded key and
    /// parent data.
    pub open spec fn assigned_from(
        self,
        key_row: Seq<u8>,
        nb_row: Seq<u8>,
        sc_row: Seq<u8>,
        key_data: KeyData,
        parent_data: ParentData,
        r: nat,
    ) -> bool {
        &&& self.key_data == key_data
        &&& self.parent_data == parent_data
        &&& self.reads(key_row, nb_row, sc_row, r)
        &&& self.derived(r)
    }
}

/// The bytes of the account value as the rows hold them: the value
/// headers, then the encodings of the nonce, the balance, the storage root
/// and the code hash.
pub open spec fn value_encoding(s: LeafSide, nb_row: Seq<u8>, sc_row: Seq<u8>) -> Seq<u8> {
    value_rlp_seq(s) + (nb_row.subrange(
        NONCE_START as int,
        NONCE_START + s.nonce.num_bytes,
    ) + (nb_row.subrange(BALANCE_START as int, BALANCE_START + s.balance.num_bytes) + (
    sc_row.subrange(STORAGE_START as int, STORAGE_START + s.storage.num_bytes) + sc_row.subrange(
        CODEHASH_START as int,
        CODEHASH_START + s.codehash.num_bytes,
    ))))
}

/// The bytes of the whole leaf: its part of the key row, then the value.
pub open spec fn leaf_encoding(s: LeafSide, key_row: Seq<u8>, nb_row: Seq<u8>, sc_row: Seq<u8>) -> Seq<
    u8,
> {
    key_row.subrange(0, s.key.num_bytes_on_key_row as int) + value_encoding(s, nb_row, sc_row)
}

/// The leaf RLC that the gadget chains from the field RLCs and the
/// multipliers is the RLC of the leaf's whole encoding, and the RLC without
/// the key is that of the value's encoding.
pub proof fn lemma_leaf_rlc_is_encoding_rlc(
    s: LeafSide,
    key_row: Seq<u8>,
    nb_row: Seq<u8>,
    sc_row: Seq<u8>,
    r: nat,
)
    requires
        s.reads(key_row, nb_row, sc_row, r),
        s.derived(r),
        s.storage.len == HASH_WIDTH,
    ensures
        s.leaf_no_key_rlc.val() == rlc_spec(value_encoding(s, nb_row, sc_row), r),
        s.leaf_rlc.val() == rlc_spec(leaf_encoding(s, key_row, nb_row, sc_row), r),
{
    let ri = r as int;
    let n = s.nonce.num_bytes as int;
    let b = s.balance.num_bytes as int;
    let sn = s.storage.num_bytes as int;
    let cn = s.codehash.num_bytes as int;
    let nw = nb_row.subrange(NONCE_START as int, NONCE_END as int);
    let bw = nb_row.subrange(BALANCE_START as int, BALANCE_END as int);
    let sw = sc_row.subrange(STORAGE_START as int, STORAGE_END as int);
    let cw = sc_row.subrange(CODEHASH_START as int, CODEHASH_END as int);
    let head = value_rlp_seq(s);
    let ne = nb_row.subrange(NONCE_START as int, NONCE_START + n);
    let be = nb_row.subrange(BALANCE_START as int, BALANCE_START + b);
    let se = sc_row.subrange(STORAGE_START as int, STORAGE_START + sn);
    let ce = sc_row.subrange(CODEHASH_START as int, CODEHASH_START + cn);
    assert(nw.subrange(0, n) =~= ne);
    assert(bw.subrange(0, b) =~= be);
    assert(sw.subrange(0, sn) =~= se);
    assert(cw.subrange(0, cn) =~= ce);
    assert(sn == 1 + HASH_WIDTH);
    let a_ = rlc_int(head, ri);
    let n_ = rlc_int(ne, ri);
    let b_ = rlc_int(be, ri);
    let s_ = rlc_int(se, ri);
    let c_ = rlc_int(ce, ri);
    let x1 = s_ + power(ri, (1 + HASH_WIDTH) as nat) * c_;
    let x2 = b_ + power(ri, b as nat) * x1;
    let x0 = a_ + power(ri, 4) * n_;
    lemma_rlc_concat(se, ce, ri);
    lemma_rlc_concat(be, se + ce, ri);
    lemma_rlc_concat(ne, be + (se + ce), ri);
    lemma_rlc_concat(head, ne + (be + (se + ce)), ri);
    lemma_mul_add_mod(s_, power(ri, (1 + HASH_WIDTH) as nat), c_);
    lemma_mul_add_mod(b_, power(ri, b as nat), x1);
    lemma_mul_add_mod(a_, power(ri, 4), n_);
    lemma_mul_add_mod(x0, power(ri, (n + 4) as nat), x2);
    lemma_power_add(ri, n as nat, 4);
    let p4 = power(ri, 4);
    let pn = power(ri, n as nat);
    assert(p4 * (n_ + pn * x2) == p4 * n_ + (pn * p4) * x2) by (nonlinear_arith);
    assert(s.leaf_no_key_rlc.val() == rlc_spec(value_encoding(s, nb_row, sc_row), r));
    let k = s.key.num_bytes_on_key_row as int;
    let ke = key_row.subrange(0, k);
    let v = value_encoding(s, nb_row, sc_row);
    lemma_rlc_concat(ke, v, ri);
    lemma_mul_add_mod(rlc_int(ke, ri), power(ri, k as nat), rlc_int(v, ri));
}

/// The first error that decoding one side's rows meets, if any.
pub open spec fn side_error(key_row: Seq<u8>, nb_row: Seq<u8>, sc_row: Seq<u8>) -> Option<
    AssignError,
> {
    if key_layout(key_row) is Err {
        Some(key_layout(key_row)->Err_0)
    } else if value_header(nb_row.subrange(NONCE_START as int, NONCE_END as int)) is Err {
        Some(value_header(nb_row.subrange(NONCE_START as int, NONCE_END as int))->Err_0)
    } else if value_header(nb_row.subrange(BALANCE_START as int, BALANCE_END as int)) is Err {
        Some(value_header(nb_row.subrange(BALANCE_START as int, BALANCE_END as int))->Err_0)
    } else if value_header(sc_row.subrange(STORAGE_START as int, STORAGE_END as int)) is Err {
        Some(value_header(sc_row.subrange(STORAGE_START as int, STORAGE_END as int))->Err_0)
    } else if value_header(sc_row.subrange(CODEHASH_START as int, CODEHASH_END as int)) is Err {
        Some(value_header(sc_row.subrange(CODEHASH_START as int, CODEHASH_END as int))->Err_0)
    } else {
        None
    }
}

/// Assigns the cells of one side of an account leaf from its rows and the
/// key and parent data loaded for that side.
fn assign_side(
    key_row: &Vec<u8>,
    nb_row: &Vec<u8>,
    sc_row: &Vec<u8>,
    key_data: KeyData,
    parent_data: ParentData,
    r: Fp,
) -> (res: Result<LeafSide, AssignError>)
    requires
        nb_row@.len() >= VALUE_ROW_WIDTH,
        sc_row@.len() >= VALUE_ROW_WIDTH,
    ensures
        match side_error(key_row@, nb_row@, sc_row@) {
            Some(e) => res == Err::<LeafSide, AssignError>(e),
            None => res matches Ok(s) && s.assigned_from(
                key_row@,
                nb_row@,
                sc_row@,
                key_data,
                parent_data,
                r.val(),
            ),
        },
{
    let key = parse_leaf_key(key_row, r)?;
    let nonce = parse_rlp_value(nb_row, NONCE_START, NONCE_END, r)?;
    let balance = parse_rlp_value(nb_row, BALANCE_START, BALANCE_END, r)?;
    let storage = parse_rlp_value(sc_row, STORAGE_START, STORAGE_END, r)?;
    let codehash = parse_rlp_value(sc_row, CODEHASH_START, CODEHASH_END, r)?;
    let string_rlp1 = nb_row[0];
    let string_rlp2 = nb_row[1];
    let list_rlp1 = nb_row[NONCE_END];
    let list_rlp2 = nb_row[NONCE_END + 1];
    let key_mult = mult(r, key.num_bytes_on_key_row);
    let nonce_mult = mult(r, nonce.num_bytes + 4);
    let balance_mult = mult(r, balance.num_bytes);
    let head = vec![string_rlp1, string_rlp2, list_rlp1, list_rlp2];
    let head_rlc = rlc(&head, r).add(mult(r, 4).mul(nonce.rlp_rlc));
    let tail = storage.rlp_rlc.add(mult(r, 1 + HASH_WIDTH).mul(codehash.rlp_rlc));
    let leaf_no_key_rlc = head_rlc.add(nonce_mult.mul(balance.rlp_rlc.add(balance_mult.mul(tail))));
    let leaf_rlc = key.row_rlc.add(key_mult.mul(leaf_no_key_rlc));
    let key_rlc = key.key_rlc(key_data.rlc, key_data.mult, r);
    let empty_rlc = rlc(&empty_trie_root_bytes(), r);
    let is_empty_trie = parent_data.rlc == empty_rlc;
    proof {
        Fp::lemma_val_eq(parent_data.rlc, empty_rlc);
    }
    let side = LeafSide {
        key_data,
        parent_data,
        is_empty_trie,
        key,
        string_rlp1,
        string_rlp2,
        list_rlp1,
        list_rlp2,
        nonce,
        balance,
        storage,
        codehash,
        key_mult,
        nonce_mult,
        balance_mult,
        leaf_no_key_rlc,
        leaf_rlc,
        key_rlc,
    };
    assert(head@ =~= value_rlp_seq(side));
    Ok(side)
}

/// A leaf that changed its position when a branch appeared or vanished
/// beside it, as it stands on the drifted row.
#[derive(Clone, Copy, Debug)]
pub struct DriftedLeaf {
    /// The side whose parent is the placeholder branch.
    pub is_s: bool,
    pub key: LeafKey,
    /// `r` to the number of leaf bytes on the drifted row.
    pub key_mult: Fp,
    /// The leaf's key RLC, continued from the other side's ancestors.
    pub key_rlc: Fp,
    /// RLC of the drifted leaf: its key, then the side's value bytes.
    pub leaf_rlc: Fp,
}

impl DriftedLeaf {
    /// The cells that follow from the key, the other side's path to the
    /// drifted leaf's slot and the placeholder side's value bytes.
    pub open spec fn derived(self, other_key_data: KeyData, leaf_no_key_rlc: Fp, r: nat) -> bool {
        &&& self.key.num_bytes_on_key_row <= MULT_TABLE_MAX
        &&& self.key_mult.val() == mult_spec(r, self.key.num_bytes_on_key_row as nat)
        &&& self.key_rlc.val() == f_add(
            other_key_data.drifted_rlc.val(),
            self.key.contribution(other_key_data.drifted_mult.val(), r),
        )
        &&& self.leaf_rlc.val() == f_add(
            self.key.row_rlc.val(),
            f_mul(self.key_mult.val(), leaf_no_key_rlc.val()),
        )
    }
}

/// The leaf that stands where a non-existence proof looked: its key row holds
/// the key that was asked for, continued from the found leaf's ancestors.
#[derive(Clone, Copy, Debug)]
pub struct WrongLeaf {
    pub key: LeafKey,
    pub key_rlc: Fp,
}

/// One row that an account leaf publishes to the MPT table.
#[derive(Clone, Copy, Debug, PartialEq, Eq, Structural)]
pub struct MptRow {
    /// The row of the table, counted from the table's start.
    pub offset: usize,
    pub address_rlc: Fp,
    pub key_rlc: Fp,
    /// The code of the proof type published here, or zero.
    pub proof_type: u64,
    pub value: Fp,
    pub value_prev: Fp,
}

/// All cells of one account leaf region.
#[derive(Clone, Copy, Debug)]
pub struct AccountLeafWitness {
    pub s: LeafSide,
    pub c: LeafSide,
    pub drifted: Option<DriftedLeaf>,
    pub wrong: Option<WrongLeaf>,
    pub proof_type: ProofType,
    pub address_rlc: Fp,
    /// The account key S row: the deletion code.
    pub key_s_row: MptRow,
    /// The non-existing account row: the non-existence code.
    pub existence_row: MptRow,
    pub nonce_row: MptRow,
    pub balance_row: MptRow,
    pub storage_row: MptRow,
    pub codehash_row: MptRow,
}

/// The bytes of row `i`.
pub open spec fn row_at(rows: Seq<Vec<u8>>, i: int) -> Seq<u8> {
    rows[i]@
}

/// The most recent record of a channel.
pub open spec fn top<T>(log: Seq<T>) -> T {
    log[log.len() - 1]
}

/// Whether a region needs its drifted row: one side's parent is a
/// placeholder branch.
pub open spec fn needs_drifted(ps: ParentData, pc: ParentData) -> bool {
    ps.is_placeholder || pc.is_placeholder
}

/// Whether a region needs its wrong row: a non-existence proof that found a
/// leaf (and not a placeholder standing for none).
pub open spec fn needs_wrong(proof_type: ProofType, ks: KeyData) -> bool {
    proof_type == ProofType::AccountDoesNotExist && !ks.is_placeholder_leaf_s
}

/// The first error that assigning the region at `offset` meets, if any.
pub open spec fn assign_error(
    rows: Seq<Vec<u8>>,
    offset: int,
    mem: ProofMemory,
    proof_type: ProofType,
) -> Option<AssignError> {
    if offset < 1 || offset + 6 >= rows.len() {
        Some(AssignError::RowMissing)
    } else if row_at(rows, offset + 2).len() < VALUE_ROW_WIDTH || row_at(rows, offset + 3).len()
        < VALUE_ROW_WIDTH || row_at(rows, offset + 4).len() < VALUE_ROW_WIDTH || row_at(
        rows,
        offset + 5,
    ).len() < VALUE_ROW_WIDTH {
        Some(AssignError::RowTooShort)
    } else if mem.key_s@.len() == 0 || mem.parent_s@.len() == 0 || mem.key_c@.len() == 0
        || mem.parent_c@.len() == 0 {
        Some(AssignError::MissingStore)
    } else if side_error(
        row_at(rows, offset - 1),
        row_at(rows, offset + 2),
        row_at(rows, offset + 4),
    ) is Some {
        side_error(row_at(rows, offset - 1), row_at(rows, offset + 2), row_at(rows, offset + 4))
    } else if side_error(
        row_at(rows, offset),
        row_at(rows, offset + 3),
        row_at(rows, offset + 5),
    ) is Some {
        side_error(row_at(rows, offset), row_at(rows, offset + 3), row_at(rows, offset + 5))
    } else if needs_drifted(top(mem.parent_s@), top(mem.parent_c@)) && key_layout(
        row_at(rows, offset + 6),
    ) is Err {
        Some(key_layout(row_at(rows, offset + 6))->Err_0)
    } else if needs_wrong(proof_type, top(mem.key_s@)) && key_layout(row_at(rows, offset + 1)) is Err {
        Some(key_layout(row_at(rows, offset + 1))->Err_0)
    } else {
        None
    }
}

/// The row published at `offset` with a code (when `flag`) and a value pair.
pub open spec fn published(
    row: MptRow,
    offset: int,
    address_rlc: Fp,
    flag: bool,
    code: u64,
    value_prev: nat,
    value: nat,
) -> bool {
    &&& row.offset == offset
    &&& row.address_rlc == address_rlc
    &&& row.key_rlc.val() == 0
    &&& row.proof_type == (if flag {
        code
    } else {
        0
    })
    &&& row.value_prev.val() == value_prev
    &&& row.value.val() == value
}

/// The parent data that an account leaf leaves for its storage trie.
pub open spec fn storage_parent(s: LeafSide) -> ParentData {
    ParentData {
        rlc: s.storage.value_rlc,
        is_placeholder: false,
        is_placeholder_leaf: false,
        hash_rlc: s.storage.value_rlc,
    }
}

impl AccountLeafWitness {
    /// `self` is what assignment makes of the region at `offset` of `rows`,
    /// with the key and parent data on top of the channels of `mem`.
    pub open spec fn assigned_from(
        self,
        rows: Seq<Vec<u8>>,
        offset: int,
        mem: ProofMemory,
        proof_type: ProofType,
        address_rlc: Fp,
        r: nat,
    ) -> bool {
        let ks = top(mem.key_s@);
        let kc = top(mem.key_c@);
        let ps = top(mem.parent_s@);
        let pc = top(mem.parent_c@);
        &&& self.s.assigned_from(
            row_at(rows, offset - 1),
            row_at(rows, offset + 2),
            row_at(rows, offset + 4),
            ks,
            ps,
            r,
        )
        &&& self.c.assigned_from(
            row_at(rows, offset),
            row_at(rows, offset + 3),
            row_at(rows, offset + 5),
            kc,
            pc,
            r,
        )
        &&& self.proof_type == proof_type
        &&& self.address_rlc == address_rlc
        &&& (if needs_drifted(ps, pc) {
            self.drifted matches Some(d) && d.is_s == ps.is_placeholder && d.key.decodes(
                row_at(rows, offset + 6),
                r,
            ) && d.derived(
                if d.is_s {
                    kc
                } else {
                    ks
                },
                if d.is_s {
                    self.s.leaf_no_key_rlc
                } else {
                    self.c.leaf_no_key_rlc
                },
                r,
            )
        } else {
            self.drifted is None
        })
        &&& (if needs_wrong(proof_type, ks) {
            self.wrong matches Some(w) && w.key.decodes(row_at(rows, offset + 1), r)
                && w.key_rlc.val() == f_add(ks.rlc.val(), w.key.contribution(ks.mult.val(), r))
        } else {
            self.wrong is None
        })
        &&& published(
            self.key_s_row,
            offset - 1,
            address_rlc,
            proof_type == ProofType::AccountDeleteMod,
            5,
            0,
            0,
        )
        &&& published(
            self.existence_row,
            offset + 1,
            address_rlc,
            proof_type == ProofType::AccountDoesNotExist,
            4,
            0,
            0,
        )
        &&& published(
            self.nonce_row,
            offset + 2,
            address_rlc,
            proof_type == ProofType::NonceChanged,
            1,
            self.s.nonce.value_rlc.val(),
            self.c.nonce.value_rlc.val(),
        )
        &&& published(
            self.balance_row,
            offset + 3,
            address_rlc,
            proof_type == ProofType::BalanceChanged,
            2,
            self.s.balance.value_rlc.val(),
            self.c.balance.value_rlc.val(),
        )
        &&& published(
            self.storage_row,
            offset + 4,
            address_rlc,
            false,
            0,
            self.s.storage.value_rlc.val(),
            self.c.storage.value_rlc.val(),
        )
        &&& published(
            self.codehash_row,
            offset + 5,
            address_rlc,
            proof_type == ProofType::CodeHashExists,
            3,
            self.s.codehash.value_rlc.val(),
            self.c.codehash.value_rlc.val(),
        )
    }
}

/// Builds a published row.
fn publish(offset: usize, address_rlc: Fp, code: u64, value_prev: Fp, value: Fp) -> (r: MptRow)
    ensures
        r.offset == offset,
        r.address_rlc == address_rlc,
        r.key_rlc.val() == 0,
        r.proof_type == code,
        r.value_prev == value_prev,
        r.value == value,
{
    MptRow { offset, address_rlc, key_rlc: Fp::zero(), proof_type: code, value, value_prev }
}

/// The account leaf gadget, configured with the challenge under which its
/// RLCs are taken. Its region spans the key S row, the key C row, the wrong
/// (non-existing account) row, the nonce-balance rows S and C, the
/// storage-codehash rows S and C, and the drifted row.
#[derive(Clone, Copy, Debug)]
pub struct AccountLeafConfig {
    pub r: Fp,
}

impl AccountLeafConfig {
    pub fn configure(r: Fp) -> (c: AccountLeafConfig)
        ensures
            c.r == r,
    {
        AccountLeafConfig { r }
    }

    /// Assigns the account leaf region whose key C row is `rows[offset]`:
    /// loads the key and parent data of both sides, decodes the rows,
    /// computes every cell and the published rows, and stores the state that
    /// a storage proof under this account starts from. `proof_type` is the
    /// kind of the proof and `address_rlc` the RLC of the account key that it
    /// claims. On an error the memory is left as it was.
    pub fn assign(
        &self,
        rows: &Vec<Vec<u8>>,
        offset: usize,
        memory: &mut ProofMemory,
        proof_type: ProofType,
        address_rlc: Fp,
    ) -> (res: Result<AccountLeafWitness, AssignError>)
        ensures
            match assign_error(rows@, offset as int, *old(memory), proof_type) {
                Some(e) => res == Err::<AccountLeafWitness, AssignError>(e) && *final(memory)
                    == *old(memory),
                None => res matches Ok(w) && w.assigned_from(
                    rows@,
                    offset as int,
                    *old(memory),
                    proof_type,
                    address_rlc,
                    self.r.val(),
                ) && final(memory).key_s@ == old(memory).key_s@.push(KeyData::start_spec())
                    && final(memory).key_c@ == old(memory).key_c@.push(KeyData::start_spec())
                    && final(memory).parent_s@ == old(memory).parent_s@.push(storage_parent(w.s))
                    && final(memory).parent_c@ == old(memory).parent_c@.push(
                    storage_parent(w.c),
                ),
            },
    {
        let r = self.r;
        if offset < 1 || offset >= rows.len() || rows.len() - offset <= 6 {
            return Err(AssignError::RowMissing);
        }
        if rows[offset + 2].len() < VALUE_ROW_WIDTH || rows[offset + 3].len() < VALUE_ROW_WIDTH
            || rows[offset + 4].len() < VALUE_ROW_WIDTH || rows[offset + 5].len()
            < VALUE_ROW_WIDTH {
            return Err(AssignError::RowTooShort);
        }
        if memory.key_s.len() == 0 || memory.parent_s.len() == 0 || memory.key_c.len() == 0
            || memory.parent_c.len() == 0 {
            return Err(AssignError::MissingStore);
        }
        let ks = memory.key_s.load(0)?;
        let ps = memory.parent_s.load(0)?;
        let kc = memory.key_c.load(0)?;
        let pc = memory.parent_c.load(0)?;
        let s = assign_side(&rows[offset - 1], &rows[offset + 2], &rows[offset + 4], ks, ps, r)?;
        let c = assign_side(&rows[offset], &rows[offset + 3], &rows[offset + 5], kc, pc, r)?;
        let drifted = if ps.is_placeholder || pc.is_placeholder {
            let key = parse_leaf_key(&rows[offset + 6], r)?;
            let is_s = ps.is_placeholder;
            let (other, leaf_no_key_rlc) = if is_s {
                (kc, s.leaf_no_key_rlc)
            } else {
                (ks, c.leaf_no_key_rlc)
            };
            let key_mult = mult(r, key.num_bytes_on_key_row);
            let key_rlc = key.key_rlc(other.drifted_rlc, other.drifted_mult, r);
            let leaf_rlc = key.row_rlc.add(key_mult.mul(leaf_no_key_rlc));
            Some(DriftedLeaf { is_s, key, key_mult, key_rlc, leaf_rlc })
        } else {
            None
        };
        let wrong = if proof_type == ProofType::AccountDoesNotExist && !ks.is_placeholder_leaf_s {
            let key = parse_leaf_key(&rows[offset + 1], r)?;
            let key_rlc = key.key_rlc(ks.rlc, ks.mult, r);
            Some(WrongLeaf { key, key_rlc })
        } else {
            None
        };
        let zero = Fp::zero();
        let code = proof_type.code();
        let key_s_row = publish(
            offset - 1,
            address_rlc,
            if proof_type == ProofType::AccountDeleteMod {
                code
            } else {
                0
            },
            zero,
            zero,
        );
        let existence_row = publish(
            offset + 1,
            address_rlc,
            if proof_type == ProofType::AccountDoesNotExist {
                code
            } else {
                0
            },
            zero,
            zero,
        );
        let nonce_row = publish(
            offset + 2,
            address_rlc,
            if proof_type == ProofType::NonceChanged {
                code
            } else {
                0
            },
            s.nonce.value_rlc,
            c.nonce.value_rlc,
        );
        let balance_row = publish(
            offset + 3,
            address_rlc,
            if proof_type == ProofType::BalanceChanged {
                code
            } else {
                0
            },
            s.balance.value_rlc,
            c.balance.value_rlc,
        );
        let storage_row = publish(
            offset + 4,
            address_rlc,
            0,
            s.storage.value_rlc,
            c.storage.value_rlc,
        );
        let codehash_row = publish(
            offset + 5,
            address_rlc,
            if proof_type == ProofType::CodeHashExists {
                code
            } else {
                0
            },
            s.codehash.value_rlc,
            c.codehash.value_rlc,
        );
        memory.key_s.store(KeyData::start());
        memory.key_c.store(KeyData::start());
        memory.parent_s.store(
            ParentData {
                rlc: s.storage.value_rlc,
                is_placeholder: false,
                is_placeholder_leaf: false,
                hash_rlc: s.storage.value_rlc,
            },
        );
        memory.parent_c.store(
            ParentData {
                rlc: c.storage.value_rlc,
                is_placeholder: false,
                is_placeholder_leaf: false,
                hash_rlc: c.storage.value_rlc,
            },
        );
        Ok(
            AccountLeafWitness {
                s,
                c,
                drifted,
                wrong,
                proof_type,
                address_rlc,
                key_s_row,
                existence_row,
                nonce_row,
                balance_row,
                storage_row,
                codehash_row,
            },
        )
    }
}

/// One entry of the hash table: the RLC and length of some bytes, and the
/// RLC of their hash.
#[derive(Clone, Copy, Debug, PartialEq, Eq, Structural)]
pub struct HashEntry {
    pub rlc: Fp,
    pub len: u64,
    pub hash_rlc: Fp,
}

/// The hash table holds the entry `(rlc, len, hash_rlc)`.
pub open spec fn in_hash_table(t: Seq<HashEntry>, rlc: Fp, len: u64, hash_rlc: Fp) -> bool {
    exists|i: int| 0 <= i < t.len() && #[trigger] t[i] == (HashEntry { rlc, len, hash_rlc })
}

/// Whether the hash table holds `(rlc, len, hash_rlc)`.
pub fn hash_lookup(t: &Vec<HashEntry>, rlc: Fp, len: u64, hash_rlc: Fp) -> (r: bool)
    ensures
        r == in_hash_table(t@, rlc, len, hash_rlc),
{
    let e = HashEntry { rlc, len, hash_rlc };
    let mut i: usize = 0;
    while i < t.len()
        invariant
            i <= t@.len(),
            e == (HashEntry { rlc, len, hash_rlc }),
            forall|j: int| 0 <= j < i ==> t@[j] != e,
        decreases t@.len() - i,
    {
        if t[i] == e {
            assert(t@[i as int] == e);
            return true;
        }
        i = i + 1;
    }
    false
}

/// The placeholder side of a region, if any: S where the S parent is a
/// placeholder branch, else C where the C parent is.
pub open spec fn placeholder_side(w: AccountLeafWitness) -> Option<bool> {
    if w.s.parent_data.is_placeholder {
        Some(true)
    } else if w.c.parent_data.is_placeholder {
        Some(false)
    } else {
        None
    }
}

pub open spec fn side_of(w: AccountLeafWitness, is_s: bool) -> LeafSide {
    if is_s {
        w.s
    } else {
        w.c
    }
}

impl LeafSide {
    /// The leaf must hash into its parent unless the parent is a real node
    /// whose hash is the empty trie's (the leaf is a placeholder).
    pub open spec fn hash_required(self) -> bool {
        self.parent_data.is_placeholder || !self.is_empty_trie
    }

    /// The identities of one side of an account leaf.
    pub open spec fn constraints_hold(self, r: nat, t: Seq<HashEntry>) -> bool {
        &&& self.derived(r)
        &&& self.storage.len == HASH_WIDTH
        &&& self.codehash.len == HASH_WIDTH
        &&& self.key_data.num_nibbles + self.key.num_nibbles == KEY_LEN_IN_NIBBLES
        &&& self.key.is_odd == self.key_data.is_odd
        &&& self.string_rlp1 == STRING_LONG_ONE
        &&& self.string_rlp2 == self.list_rlp2 + 2
        &&& self.list_rlp1 == LIST_LONG_ONE
        &&& self.list_rlp2 == self.nonce.num_bytes + self.balance.num_bytes + 2 * (1 + HASH_WIDTH)
        &&& self.key.num_bytes == self.key.num_bytes_on_key_row + self.string_rlp2 + 2
        &&& (self.hash_required() ==> in_hash_table(
            t,
            self.leaf_rlc,
            self.key.num_bytes,
            self.parent_data.rlc,
        ))
    }
}

impl AccountLeafWitness {
    /// The drifted leaf keeps its key and hashes into the branch that its
    /// placeholder side stands for.
    pub open spec fn drifted_ok(self, r: nat, t: Seq<HashEntry>) -> bool {
        match placeholder_side(self) {
            None => true,
            Some(is_s) => {
                let x = side_of(self, is_s);
                let o = side_of(self, !is_s);
                self.drifted matches Some(d) && d.is_s == is_s && d.derived(
                    o.key_data,
                    x.leaf_no_key_rlc,
                    r,
                ) && d.key_rlc == x.key_rlc && d.key.num_nibbles + o.key_data.drifted_num_nibbles
                    == KEY_LEN_IN_NIBBLES && d.key.is_odd == o.key_data.drifted_is_odd
                    && in_hash_table(
                    t,
                    d.leaf_rlc,
                    d.key.num_bytes,
                    x.parent_data.hash_rlc,
                )
            },
        }
    }

    /// A non-existence proof that found a leaf: the key asked for, continued
    /// from the found leaf's ancestors, is the published address and differs
    /// from the found leaf's key.
    pub open spec fn wrong_ok(self, r: nat) -> bool {
        needs_wrong(self.proof_type, self.s.key_data) ==> (self.wrong matches Some(wl)
            && wl.key_rlc.val() == f_add(
            self.s.key_data.rlc.val(),
            wl.key.contribution(self.s.key_data.mult.val(), r),
        ) && wl.key_rlc == self.address_rlc && wl.key_rlc != self.s.key_rlc
            && wl.key.num_nibbles + self.s.key_data.num_nibbles == KEY_LEN_IN_NIBBLES
            && wl.key.is_odd == self.s.key_data.is_odd)
    }

    /// Only the field that the proof type names may change, except when the
    /// account is deleted; a deletion leaves a placeholder leaf or a
    /// placeholder branch on the C side.
    pub open spec fn modification_ok(self) -> bool {
        let pt = self.proof_type;
        &&& (pt == ProofType::AccountDeleteMod ==> self.c.key_data.is_placeholder_leaf_c
            || self.c.parent_data.is_placeholder)
        &&& (pt != ProofType::AccountDeleteMod ==> {
            &&& (pt != ProofType::NonceChanged ==> self.s.nonce.value_rlc
                == self.c.nonce.value_rlc)
            &&& (pt != ProofType::BalanceChanged ==> self.s.balance.value_rlc
                == self.c.balance.value_rlc)
            &&& (pt != ProofType::StorageChanged ==> self.s.storage.value_rlc
                == self.c.storage.value_rlc)
            &&& (pt != ProofType::CodeHashExists ==> self.s.codehash.value_rlc
                == self.c.codehash.value_rlc)
        })
    }

    /// The key of each side is the published address, unless the side's
    /// parent is a placeholder or the proof is of non-existence.
    pub open spec fn address_ok(self) -> bool {
        let non_existing = self.proof_type == ProofType::AccountDoesNotExist;
        &&& (!self.s.parent_data.is_placeholder && !non_existing ==> self.address_rlc
            == self.s.key_rlc)
        &&& (!self.c.parent_data.is_placeholder && !non_existing ==> self.address_rlc
            == self.c.key_rlc)
    }

    /// The published values are the field RLCs before and after.
    pub open spec fn lookups_ok(self) -> bool {
        &&& self.nonce_row.value_prev == self.s.nonce.value_rlc
        &&& self.nonce_row.value == self.c.nonce.value_rlc
        &&& self.balance_row.value_prev == self.s.balance.value_rlc
        &&& self.balance_row.value == self.c.balance.value_rlc
        &&& self.storage_row.value_prev == self.s.storage.value_rlc
        &&& self.storage_row.value == self.c.storage.value_rlc
        &&& self.codehash_row.value_prev == self.s.codehash.value_rlc
        &&& self.codehash_row.value == self.c.codehash.value_rlc
    }

    /// The decoding cells of the region hold what the region's rows hold.
    pub open spec fn reads_rows(self, rows: Seq<Vec<u8>>, offset: int, r: nat) -> bool {
        &&& 1 <= offset
        &&& offset + 6 < rows.len()
        &&& self.s.reads(
            row_at(rows, offset - 1),
            row_at(rows, offset + 2),
            row_at(rows, offset + 4),
            r,
        )
        &&& self.c.reads(row_at(rows, offset), row_at(rows, offset + 3), row_at(rows, offset + 5), r)
        &&& (self.drifted matches Some(d) ==> d.key.decodes(row_at(rows, offset + 6), r))
        &&& (self.wrong matches Some(wl) ==> wl.key.decodes(row_at(rows, offset + 1), r))
    }

    /// The key and parent data of each side are what some store to that
    /// side's channel wrote.
    pub open spec fn loads_ok(self, mem: ProofMemory) -> bool {
        &&& stored(mem.key_s@, self.s.key_data)
        &&& stored(mem.parent_s@, self.s.parent_data)
        &&& stored(mem.key_c@, self.c.key_data)
        &&& stored(mem.parent_c@, self.c.parent_data)
    }

    /// All identities of the account leaf region whose key C row is
    /// `rows[offset]`, with the channels of `mem`.
    pub open spec fn constraints_hold(
        self,
        rows: Seq<Vec<u8>>,
        offset: int,
        mem: ProofMemory,
        r: nat,
        t: Seq<HashEntry>,
    ) -> bool {
        &&& self.reads_rows(rows, offset, r)
        &&& self.loads_ok(mem)
        &&& self.s.constraints_hold(r, t)
        &&& self.c.constraints_hold(r, t)
        &&& self.drifted_ok(r, t)
        &&& self.wrong_ok(r)
        &&& self.modification_ok()
        &&& self.address_ok()
        &&& self.lookups_ok()
    }
}

proof fn lemma_rlp_value_unique(a: RlpValue, b: RlpValue, w: Seq<u8>, r: nat)
    requires
        a.decodes(w, r),
        b.decodes(w, r),
    ensures
        a == b,
{
    Fp::lemma_val_eq(a.value_rlc, b.value_rlc);
    Fp::lemma_val_eq(a.rlp_rlc, b.rlp_rlc);
}

proof fn lemma_leaf_key_unique(a: LeafKey, b: LeafKey, w: Seq<u8>, r: nat)
    requires
        a.decodes(w, r),
        b.decodes(w, r),
    ensures
        a == b,
{
    Fp::lemma_val_eq(a.row_rlc, b.row_rlc);
    Fp::lemma_val_eq(a.tail_rlc, b.tail_rlc);
}

fn same_rlp_value(a: &RlpValue, b: &RlpValue) -> (r: bool)
    ensures
        r == (*a == *b),
{
    proof {
        Fp::lemma_val_eq(a.value_rlc, b.value_rlc);
        Fp::lemma_val_eq(a.rlp_rlc, b.rlp_rlc);
    }
    a.num_bytes == b.num_bytes && a.len == b.len && a.value_rlc == b.value_rlc && a.rlp_rlc
        == b.rlp_rlc
}

fn same_leaf_key(a: &LeafKey, b: &LeafKey) -> (r: bool)
    ensures
        r == (*a == *b),
{
    proof {
        Fp::lemma_val_eq(a.row_rlc, b.row_rlc);
        Fp::lemma_val_eq(a.tail_rlc, b.tail_rlc);
    }
    a.num_bytes == b.num_bytes && a.num_bytes_on_key_row == b.num_bytes_on_key_row && a.is_odd
        == b.is_odd && a.num_nibbles == b.num_nibbles && a.first_nibble == b.first_nibble
        && a.row_rlc == b.row_rlc && a.tail_rlc == b.tail_rlc
}

/// Whether the key cells are the decoding of `row`.
fn key_reads(k: &LeafKey, row: &Vec<u8>, r: Fp) -> (ok: bool)
    ensures
        ok == k.decodes(row@, r.val()),
{
    match parse_leaf_key(row, r) {
        Ok(p) => {
            proof {
                if k.decodes(row@, r.val()) {
                    lemma_leaf_key_unique(*k, p, row@, r.val());
                }
            }
            same_leaf_key(k, &p)
        },
        Err(_) => false,
    }
}

/// Whether the value cells are the decoding of `row[start..end]`.
fn value_reads(v: &RlpValue, row: &Vec<u8>, start: usize, end: usize, r: Fp) -> (ok: bool)
    requires
        start <= end <= row@.len(),
    ensures
        ok == v.decodes(row@.subrange(start as int, end as int), r.val()),
{
    match parse_rlp_value(row, start, end, r) {
        Ok(p) => {
            proof {
                if v.decodes(row@.subrange(start as int, end as int), r.val()) {
                    lemma_rlp_value_unique(*v, p, row@.subrange(start as int, end as int), r.val());
                }
            }
            same_rlp_value(v, &p)
        },
        Err(_) => false,
    }
}

/// Whether the decoding cells of one side hold what its rows hold.
fn side_reads(s: &LeafSide, key_row: &Vec<u8>, nb_row: &Vec<u8>, sc_row: &Vec<u8>, r: Fp) -> (ok:
    bool)
    ensures
        ok == s.reads(key_row@, nb_row@, sc_row@, r.val()),
{
    if nb_row.len() < VALUE_ROW_WIDTH || sc_row.len() < VALUE_ROW_WIDTH {
        return false;
    }
    key_reads(&s.key, key_row, r) && s.string_rlp1 == nb_row[0] && s.string_rlp2 == nb_row[1]
        && s.list_rlp1 == nb_row[NONCE_END] && s.list_rlp2 == nb_row[NONCE_END + 1] && value_reads(
        &s.nonce,
        nb_row,
        NONCE_START,
        NONCE_END,
        r,
    ) && value_reads(&s.balance, nb_row, BALANCE_START, BALANCE_END, r) && value_reads(
        &s.storage,
        sc_row,
        STORAGE_START,
        STORAGE_END,
        r,
    ) && value_reads(&s.codehash, sc_row, CODEHASH_START, CODEHASH_END, r)
}

/// Whether the cells of one side agree with what follows from them.
fn side_derived(s: &LeafSide, r: Fp) -> (ok: bool)
    ensures
        ok == s.derived(r.val()),
{
    if s.key.num_bytes_on_key_row > MULT_TABLE_MAX || s.nonce.num_bytes > MULT_TABLE_MAX - 4
        || s.balance.num_bytes > MULT_TABLE_MAX {
        return false;
    }
    let key_mult = mult(r, s.key.num_bytes_on_key_row);
    let nonce_mult = mult(r, s.nonce.num_bytes + 4);
    let balance_mult = mult(r, s.balance.num_bytes);
    let head = vec![s.string_rlp1, s.string_rlp2, s.list_rlp1, s.list_rlp2];
    assert(head@ =~= value_rlp_seq(*s));
    let head_rlc = rlc(&head, r).add(mult(r, 4).mul(s.nonce.rlp_rlc));
    let tail = s.storage.rlp_rlc.add(mult(r, 1 + HASH_WIDTH).mul(s.codehash.rlp_rlc));
    let leaf_no_key_rlc = head_rlc.add(
        s.nonce_mult.mul(s.balance.rlp_rlc.add(s.balance_mult.mul(tail))),
    );
    let leaf_rlc = s.key.row_rlc.add(s.key_mult.mul(s.leaf_no_key_rlc));
    let key_rlc = s.key.key_rlc(s.key_data.rlc, s.key_data.mult, r);
    let empty_rlc = rlc(&empty_trie_root_bytes(), r);
    proof {
        Fp::lemma_val_eq(key_mult, s.key_mult);
        Fp::lemma_val_eq(nonce_mult, s.nonce_mult);
        Fp::lemma_val_eq(balance_mult, s.balance_mult);
        Fp::lemma_val_eq(leaf_no_key_rlc, s.leaf_no_key_rlc);
        Fp::lemma_val_eq(leaf_rlc, s.leaf_rlc);
        Fp::lemma_val_eq(key_rlc, s.key_rlc);
        Fp::lemma_val_eq(empty_rlc, s.parent_data.rlc);
    }
    key_mult == s.key_mult && nonce_mult == s.nonce_mult && balance_mult == s.balance_mult
        && leaf_no_key_rlc == s.leaf_no_key_rlc && leaf_rlc == s.leaf_rlc && key_rlc == s.key_rlc
        && s.is_empty_trie == (s.parent_data.rlc == empty_rlc)
}

/// Whether the identities of one side hold.
fn side_constraints(s: &LeafSide, r: Fp, t: &Vec<HashEntry>) -> (ok: bool)
    ensures
        ok == s.constraints_hold(r.val(), t@),
{
    if !side_derived(s, r) {
        return false;
    }
    if s.storage.len != HASH_WIDTH || s.codehash.len != HASH_WIDTH {
        return false;
    }
    if s.key_data.num_nibbles > KEY_LEN_IN_NIBBLES || s.key.num_nibbles != KEY_LEN_IN_NIBBLES
        - s.key_data.num_nibbles || s.key.is_odd != s.key_data.is_odd {
        return false;
    }
    if s.string_rlp1 != STRING_LONG_ONE || s.list_rlp1 != LIST_LONG_ONE
        || s.string_rlp2 as u64 != s.list_rlp2 as u64 + 2 {
        return false;
    }
    if s.list_rlp2 as u64
        != s.nonce.num_bytes + s.balance.num_bytes + 2 * (1 + HASH_WIDTH) {
        return false;
    }
    if s.key.num_bytes != s.key.num_bytes_on_key_row
        + s.string_rlp2 as u64 + 2 {
        return false;
    }
    let hash_required = s.parent_data.is_placeholder || !s.is_empty_trie;
    if hash_required && !hash_lookup(t, s.leaf_rlc, s.key.num_bytes, s.parent_data.rlc) {
        return false;
    }
    true
}

/// Whether the cells of a drifted leaf agree with what follows from them.
fn drifted_derived(d: &DriftedLeaf, other_key_data: KeyData, leaf_no_key_rlc: Fp, r: Fp) -> (ok:
    bool)
    ensures
        ok == d.derived(other_key_data, leaf_no_key_rlc, r.val()),
{
    if d.key.num_bytes_on_key_row > MULT_TABLE_MAX {
        return false;
    }
    let key_mult = mult(r, d.key.num_bytes_on_key_row);
    let key_rlc = d.key.key_rlc(other_key_data.drifted_rlc, other_key_data.drifted_mult, r);
    let leaf_rlc = d.key.row_rlc.add(d.key_mult.mul(leaf_no_key_rlc));
    proof {
        Fp::lemma_val_eq(key_mult, d.key_mult);
        Fp::lemma_val_eq(key_rlc, d.key_rlc);
        Fp::lemma_val_eq(leaf_rlc, d.leaf_rlc);
    }
    key_mult == d.key_mult && key_rlc == d.key_rlc && leaf_rlc == d.leaf_rlc
}

/// Whether `extra` nibbles complete `prior` ones to a full key.
fn completes_key(prior: u64, extra: u64) -> (ok: bool)
    ensures
        ok == (prior + extra == KEY_LEN_IN_NIBBLES),
{
    prior <= KEY_LEN_IN_NIBBLES && extra == KEY_LEN_IN_NIBBLES - prior
}

impl AccountLeafConfig {
    /// Whether all identities of the account leaf region whose key C row is
    /// `rows[offset]` hold on the cells `w`, with the channels of `memory`
    /// and `t` as the hash table.
    pub fn check(
        &self,
        rows: &Vec<Vec<u8>>,
        offset: usize,
        memory: &ProofMemory,
        w: &AccountLeafWitness,
        t: &Vec<HashEntry>,
    ) -> (ok: bool)
        ensures
            ok == w.constraints_hold(rows@, offset as int, *memory, self.r.val(), t@),
    {
        let r = self.r;
        if !memory.key_s.holds(w.s.key_data) || !memory.parent_s.holds(w.s.parent_data)
            || !memory.key_c.holds(w.c.key_data) || !memory.parent_c.holds(w.c.parent_data) {
            return false;
        }
        if offset < 1 || offset >= rows.len() || rows.len() - offset <= 6 {
            return false;
        }
        if !side_reads(&w.s, &rows[offset - 1], &rows[offset + 2], &rows[offset + 4], r)
            || !side_reads(&w.c, &rows[offset], &rows[offset + 3], &rows[offset + 5], r) {
            return false;
        }
        if let Some(d) = w.drifted {
            if !key_reads(&d.key, &rows[offset + 6], r) {
                return false;
            }
        }
        if let Some(wl) = w.wrong {
            if !key_reads(&wl.key, &rows[offset + 1], r) {
                return false;
            }
        }
        if !side_constraints(&w.s, r, t) || !side_constraints(&w.c, r, t) {
            return false;
        }
        let placeholder: Option<bool> = if w.s.parent_data.is_placeholder {
            Some(true)
        } else if w.c.parent_data.is_placeholder {
            Some(false)
        } else {
            None
        };
        if let Some(is_s) = placeholder {
            let (x, o) = if is_s {
                (&w.s, &w.c)
            } else {
                (&w.c, &w.s)
            };
            match w.drifted {
                None => {
                    return false;
                },
                Some(d) => {
                    if d.is_s != is_s || !drifted_derived(&d, o.key_data, x.leaf_no_key_rlc, r)
                        || d.key_rlc != x.key_rlc || !completes_key(
                        o.key_data.drifted_num_nibbles,
                        d.key.num_nibbles,
                    ) || d.key.is_odd != o.key_data.drifted_is_odd || !hash_lookup(
                        t,
                        d.leaf_rlc,
                        d.key.num_bytes,
                        x.parent_data.hash_rlc,
                    ) {
                        return false;
                    }
                },
            }
        }
        if w.proof_type == ProofType::AccountDoesNotExist && !w.s.key_data.is_placeholder_leaf_s {
            match w.wrong {
                None => {
                    return false;
                },
                Some(wl) => {
                    let k = wl.key.key_rlc(w.s.key_data.rlc, w.s.key_data.mult, r);
                    proof {
                        Fp::lemma_val_eq(k, wl.key_rlc);
                    }
                    if k != wl.key_rlc || wl.key_rlc != w.address_rlc || wl.key_rlc == w.s.key_rlc
                        || !completes_key(w.s.key_data.num_nibbles, wl.key.num_nibbles)
                        || wl.key.is_odd != w.s.key_data.is_odd {
                        return false;
                    }
                },
            }
        }
        let pt = w.proof_type;
        if pt == ProofType::AccountDeleteMod {
            if !(w.c.key_data.is_placeholder_leaf_c || w.c.parent_data.is_placeholder) {
                return false;
            }
        } else {
            if (pt != ProofType::NonceChanged && w.s.nonce.value_rlc != w.c.nonce.value_rlc) || (pt
                != ProofType::BalanceChanged && w.s.balance.value_rlc != w.c.balance.value_rlc)
                || (pt != ProofType::StorageChanged && w.s.storage.value_rlc
                != w.c.storage.value_rlc) || (pt != ProofType::CodeHashExists
                && w.s.codehash.value_rlc != w.c.codehash.value_rlc) {
                return false;
            }
        }
        let non_existing = pt == ProofType::AccountDoesNotExist;
        if (!w.s.parent_data.is_placeholder && !non_existing && w.address_rlc != w.s.key_rlc) || (
        !w.c.parent_data.is_placeholder && !non_existing && w.address_rlc != w.c.key_rlc) {
            return false;
        }
        w.nonce_row.value_prev == w.s.nonce.value_rlc && w.nonce_row.value == w.c.nonce.value_rlc
            && w.balance_row.value_prev == w.s.balance.value_rlc && w.balance_row.value
            == w.c.balance.value_rlc && w.storage_row.value_prev == w.s.storage.value_rlc
            && w.storage_row.value == w.c.storage.value_rlc && w.codehash_row.value_prev
            == w.s.codehash.value_rlc && w.codehash_row.value == w.c.codehash.value_rlc
    }
}

/// On every account leaf that the identities accept, the nibbles that the
/// ancestors consumed and those of the leaf make a full key, on both sides.
pub proof fn lemma_full_key_length(
    w: AccountLeafWitness,
    rows: Seq<Vec<u8>>,
    offset: int,
    mem: ProofMemory,
    r: nat,
    t: Seq<HashEntry>,
)
    requires
        w.constraints_hold(rows, offset, mem, r, t),
    ensures
        w.s.key_data.num_nibbles + w.s.key.num_nibbles == KEY_LEN_IN_NIBBLES,
        w.c.key_data.num_nibbles + w.c.key.num_nibbles == KEY_LEN_IN_NIBBLES,
{
}

/// On every account leaf that the identities accept, unless the account is
/// deleted, each field that the proof type does not name has the same RLC
/// before and after.
pub proof fn lemma_unnamed_fields_kept(
    w: AccountLeafWitness,
    rows: Seq<Vec<u8>>,
    offset: int,
    mem: ProofMemory,
    r: nat,
    t: Seq<HashEntry>,
)
    requires
        w.constraints_hold(rows, offset, mem, r, t),
        w.proof_type != ProofType::AccountDeleteMod,
    ensures
        w.proof_type != ProofType::NonceChanged ==> w.s.nonce.value_rlc == w.c.nonce.value_rlc,
        w.proof_type != ProofType::BalanceChanged ==> w.s.balance.value_rlc
            == w.c.balance.value_rlc,
        w.proof_type != ProofType::StorageChanged ==> w.s.storage.value_rlc
            == w.c.storage.value_rlc,
        w.proof_type != ProofType::CodeHashExists ==> w.s.codehash.value_rlc
            == w.c.codehash.value_rlc,
{
}

proof fn lemma_side_unique(
    a: LeafSide,
    b: LeafSide,
    key_row: Seq<u8>,
    nb_row: Seq<u8>,
    sc_row: Seq<u8>,
    key_data: KeyData,
    parent_data: ParentData,
    r: nat,
)
    requires
        a.assigned_from(key_row, nb_row, sc_row, key_data, parent_data, r),
        b.assigned_from(key_row, nb_row, sc_row, key_data, parent_data, r),
    ensures
        a == b,
{
    lemma_leaf_key_unique(a.key, b.key, key_row, r);
    lemma_rlp_value_unique(
        a.nonce,
        b.nonce,
        nb_row.subrange(NONCE_START as int, NONCE_END as int),
        r,
    );
    lemma_rlp_value_unique(
        a.balance,
        b.balance,
        nb_row.subrange(BALANCE_START as int, BALANCE_END as int),
        r,
    );
    lemma_rlp_value_unique(
        a.storage,
        b.storage,
        sc_row.subrange(STORAGE_START as int, STORAGE_END as int),
        r,
    );
    lemma_rlp_value_unique(
        a.codehash,
        b.codehash,
        sc_row.subrange(CODEHASH_START as int, CODEHASH_END as int),
        r,
    );
    Fp::lemma_val_eq(a.key_mult, b.key_mult);
    Fp::lemma_val_eq(a.nonce_mult, b.nonce_mult);
    Fp::lemma_val_eq(a.balance_mult, b.balance_mult);
    assert(value_rlp_seq(a) == value_rlp_seq(b));
    Fp::lemma_val_eq(a.leaf_no_key_rlc, b.leaf_no_key_rlc);
    Fp::lemma_val_eq(a.leaf_rlc, b.leaf_rlc);
    Fp::lemma_val_eq(a.key_rlc, b.key_rlc);
}

proof fn lemma_row_unique(
    a: MptRow,
    b: MptRow,
    offset: int,
    address_rlc: Fp,
    flag: bool,
    code: u64,
    value_prev: nat,
    value: nat,
)
    requires
        published(a, offset, address_rlc, flag, code, value_prev, value),
        published(b, offset, address_rlc, flag, code, value_prev, value),
    ensures
        a == b,
{
    Fp::lemma_val_eq(a.key_rlc, b.key_rlc);
    Fp::lemma_val_eq(a.value, b.value);
    Fp::lemma_val_eq(a.value_prev, b.value_prev);
}

/// Witness assignment is a function of its inputs: two assignments of the
/// same region, from the same rows, memory, proof type, address and
/// challenge, give the same cells.
pub proof fn lemma_assignment_deterministic(
    w1: AccountLeafWitness,
    w2: AccountLeafWitness,
    rows: Seq<Vec<u8>>,
    offset: int,
    mem: ProofMemory,
    proof_type: ProofType,
    address_rlc: Fp,
    r: nat,
)
    requires
        w1.assigned_from(rows, offset, mem, proof_type, address_rlc, r),
        w2.assigned_from(rows, offset, mem, proof_type, address_rlc, r),
    ensures
        w1 == w2,
{
    let ks = top(mem.key_s@);
    let kc = top(mem.key_c@);
    let ps = top(mem.parent_s@);
    let pc = top(mem.parent_c@);
    lemma_side_unique(
        w1.s,
        w2.s,
        row_at(rows, offset - 1),
        row_at(rows, offset + 2),
        row_at(rows, offset + 4),
        ks,
        ps,
        r,
    );
    lemma_side_unique(
        w1.c,
        w2.c,
        row_at(rows, offset),
        row_at(rows, offset + 3),
        row_at(rows, offset + 5),
        kc,
        pc,
        r,
    );
    if needs_drifted(ps, pc) {
        let d1 = w1.drifted->Some_0;
        let d2 = w2.drifted->Some_0;
        lemma_leaf_key_unique(d1.key, d2.key, row_at(rows, offset + 6), r);
        Fp::lemma_val_eq(d1.key_mult, d2.key_mult);
        Fp::lemma_val_eq(d1.key_rlc, d2.key_rlc);
        Fp::lemma_val_eq(d1.leaf_rlc, d2.leaf_rlc);
    }
    if needs_wrong(proof_type, ks) {
        let x1 = w1.wrong->Some_0;
        let x2 = w2.wrong->Some_0;
        lemma_leaf_key_unique(x1.key, x2.key, row_at(rows, offset + 1), r);
        Fp::lemma_val_eq(x1.key_rlc, x2.key_rlc);
    }
    lemma_row_unique(
        w1.key_s_row,
        w2.key_s_row,
        offset - 1,
        address_rlc,
        proof_type == ProofType::AccountDeleteMod,
        5,
        0,
        0,
    );
    lemma_row_unique(
        w1.existence_row,
        w2.existence_row,
        offset + 1,
        address_rlc,
        proof_type == ProofType::AccountDoesNotExist,
        4,
        0,
        0,
    );
    lemma_row_unique(
        w1.nonce_row,
        w2.nonce_row,
        offset + 2,
        address_rlc,
        proof_type == ProofType::NonceChanged,
        1,
        w1.s.nonce.value_rlc.val(),
        w1.c.nonce.value_rlc.val(),
    );
    lemma_row_unique(
        w1.balance_row,
        w2.balance_row,
        offset + 3,
        address_rlc,
        proof_type == ProofType::BalanceChanged,
        2,
        w1.s.balance.value_rlc.val(),
        w1.c.balance.value_rlc.val(),
    );
    lemma_row_unique(
        w1.storage_row,
        w2.storage_row,
        offset + 4,
        address_rlc,
        false,
        0,
        w1.s.storage.value_rlc.val(),
        w1.c.storage.value_rlc.val(),
    );
    lemma_row_unique(
        w1.codehash_row,
        w2.codehash_row,
        offset + 5,
        address_rlc,
        proof_type == ProofType::CodeHashExists,
        3,
        w1.s.codehash.value_rlc.val(),
        w1.c.codehash.value_rlc.val(),
    );
}

/// The row type of the row `k` rows after the key C row of an account leaf
/// region (the key S row is at `k == -1`).
pub open spec fn account_row_type(k: int) -> RowType {
    if k == -1 {
        RowType::AccKeyS
    } else if k == 0 {
        RowType::AccKeyC
    } else if k == 1 {
        RowType::AccNonExistRow
    } else if k == 2 {
        RowType::AccNonceBalS
    } else if k == 3 {
        RowType::AccNonceBalC
    } else if k == 4 {
        RowType::AccStorCodeS
    } else if k == 5 {
        RowType::AccStorCodeC
    } else {
        RowType::AccInAddedBranch
    }
}

/// A published row carries no code, or the proof type's code on the proof
/// type's own lookup row.
pub open spec fn code_allowed(row: MptRow, offset: int, proof_type: ProofType) -> bool {
    row.proof_type != 0 ==> row.proof_type == proof_type.code_spec() && account_row_type(
        row.offset - offset,
    ) == proof_type.lookup_row_type()
}

/// Assignment publishes a proof-type code only where the selector
/// identities let it stand: on the lookup row of the proof's type.
pub proof fn lemma_codes_on_lookup_rows(
    w: AccountLeafWitness,
    rows: Seq<Vec<u8>>,
    offset: int,
    mem: ProofMemory,
    proof_type: ProofType,
    address_rlc: Fp,
    r: nat,
)
    requires
        w.assigned_from(rows, offset, mem, proof_type, address_rlc, r),
    ensures
        code_allowed(w.key_s_row, offset, proof_type),
        code_allowed(w.existence_row, offset, proof_type),
        code_allowed(w.nonce_row, offset, proof_type),
        code_allowed(w.balance_row, offset, proof_type),
        code_allowed(w.storage_row, offset, proof_type),
        code_allowed(w.codehash_row, offset, proof_type),
{
}

/// What assignment makes of a region reads the region's rows and loads what
/// the channels hold, so that of the identities only those on the trie's
/// content remain to be met.
pub proof fn lemma_assigned_cells_read_rows(
    w: AccountLeafWitness,
    rows: Seq<Vec<u8>>,
    offset: int,
    mem: ProofMemory,
    proof_type: ProofType,
    address_rlc: Fp,
    r: nat,
)
    requires
        assign_error(rows, offset, mem, proof_type) is None,
        w.assigned_from(rows, offset, mem, proof_type, address_rlc, r),
    ensures
        w.reads_rows(rows, offset, r),
        w.loads_ok(mem),
        w.s.derived(r),
        w.c.derived(r),
{
    assert(mem.key_s@[mem.key_s@.len() - 1] == w.s.key_data);
    assert(mem.parent_s@[mem.parent_s@.len() - 1] == w.s.parent_data);
    assert(mem.key_c@[mem.key_c@.len() - 1] == w.c.key_data);
    assert(mem.parent_c@[mem.parent_c@.len() - 1] == w.c.parent_data);
}

} // verus!
