use vstd::prelude::*;
use crate::error::AssignError;
use crate::field::{f_add, f_mul, Fp};
use crate::rlc::{rlc_range, rlc_spec};

verus! {

/// The first header byte of a short string: below it a byte stands for itself.
pub const RLP_SHORT: u8 = 0x80;
/// The last header byte of a short string (payload of at most 55 bytes).
pub const RLP_LONG: u8 = 0xb7;
/// The first header byte of a short list.
pub const RLP_LIST_SHORT: u8 = 0xc0;
/// The last header byte of a short list.
pub const RLP_LIST_LONG: u8 = 0xf7;
/// The largest key string of a leaf: one hex-prefix byte and 32 key bytes.
pub const MAX_KEY_LEN: u8 = 33;

/// The header of an RLP value: the number of header bytes and of payload
/// bytes, or why the bytes are no value that the layout admits.
pub open spec fn value_header(b: Seq<u8>) -> Result<(nat, nat), AssignError> {
    if b.len() == 0 {
        Err(AssignError::Truncated)
    } else if b[0] < RLP_SHORT {
        Ok((0, 1))
    } else if b[0] <= RLP_LONG {
        let l = (b[0] - RLP_SHORT) as nat;
        if b.len() < 1 + l {
            Err(AssignError::Truncated)
        } else {
            Ok((1, l))
        }
    } else {
        Err(AssignError::UnsupportedHeader)
    }
}

/// A decoded RLP value (a nonce, a balance, a storage root, a code hash).
#[derive(Clone, Copy, Debug)]
pub struct RlpValue {
    /// Header and payload bytes together.
    pub num_bytes: u64,
    /// Payload bytes.
    pub len: u64,
    /// RLC of the payload.
    pub value_rlc: Fp,
    /// RLC of the whole encoding, header included.
    pub rlp_rlc: Fp,
}

impl RlpValue {
    /// `self` is the decoding of the bytes `w` under the challenge `r`.
    pub open spec fn decodes(self, w: Seq<u8>, r: nat) -> bool {
        match value_header(w) {
            Ok((h, l)) => {
                &&& self.num_bytes == h + l
                &&& self.len == l
                &&& self.value_rlc.val() == rlc_spec(w.subrange(h as int, (h + l) as int), r)
                &&& self.rlp_rlc.val() == rlc_spec(w.subrange(0, (h + l) as int), r)
            },
            Err(_) => false,
        }
    }
}

/// Decodes the RLP value held in `row[start..end]`.
pub fn parse_rlp_value(row: &Vec<u8>, start: usize, end: usize, r: Fp) -> (res: Result<
    RlpValue,
    AssignError,
>)
    requires
        start <= end <= row@.len(),
    ensures
        ({
            let w = row@.subrange(start as int, end as int);
            match value_header(w) {
                Ok(_) => res matches Ok(v) && v.decodes(w, r.val()),
                Err(e) => res == Err::<RlpValue, AssignError>(e),
            }
        }),
{
    let ghost w = row@.subrange(start as int, end as int);
    if start == end {
        return Err(AssignError::Truncated);
    }
    let b0 = row[start];
    let (h, l): (usize, usize) = if b0 < RLP_SHORT {
        (0, 1)
    } else if b0 <= RLP_LONG {
        let l = (b0 - RLP_SHORT) as usize;
        if end - start < 1 + l {
            return Err(AssignError::Truncated);
        }
        (1, l)
    } else {
        return Err(AssignError::UnsupportedHeader);
    };
    let value_rlc = rlc_range(row, start + h, start + h + l, r);
    let rlp_rlc = rlc_range(row, start, start + h + l, r);
    proof {
        assert(w.subrange(h as int, (h + l) as int) =~= row@.subrange(
            start + h,
            start + h + l,
        ));
        assert(w.subrange(0, (h + l) as int) =~= row@.subrange(start as int, start + h + l));
    }
    Ok(RlpValue { num_bytes: (h + l) as u64, len: l as u64, value_rlc, rlp_rlc })
}

/// Where the key of a leaf stands on its key row: the list header's length,
/// the list payload length it declares, where the key string's payload
/// starts and how long it is; or why the row holds no leaf key.
pub open spec fn key_layout(b: Seq<u8>) -> Result<(nat, nat, nat, nat), AssignError> {
    if b.len() == 0 {
        Err(AssignError::Truncated)
    } else if RLP_LIST_SHORT <= b[0] && b[0] <= RLP_LIST_LONG {
        key_after_list_header(b, 1, (b[0] - RLP_LIST_SHORT) as nat)
    } else if b[0] == RLP_LIST_LONG + 1 {
        if b.len() < 2 {
            Err(AssignError::Truncated)
        } else {
            key_after_list_header(b, 2, b[1] as nat)
        }
    } else {
        Err(AssignError::UnsupportedHeader)
    }
}

/// The key string that follows a list header of `lh` bytes.
pub open spec fn key_after_list_header(b: Seq<u8>, lh: nat, total: nat) -> Result<
    (nat, nat, nat, nat),
    AssignError,
> {
    if b.len() <= lh {
        Err(AssignError::Truncated)
    } else if b[lh as int] < RLP_SHORT {
        key_string(b, lh, total, lh, 1)
    } else if b[lh as int] <= RLP_LONG {
        key_string(b, lh, total, lh + 1, (b[lh as int] - RLP_SHORT) as nat)
    } else {
        Err(AssignError::UnsupportedHeader)
    }
}

/// The key string payload `b[ks..ks + kl]`, whose first byte is the leaf
/// hex-prefix flag: `0x20` for an even number of nibbles, `0x3n` for an odd
/// one whose first nibble is `n`.
pub open spec fn key_string(b: Seq<u8>, lh: nat, total: nat, ks: nat, kl: nat) -> Result<
    (nat, nat, nat, nat),
    AssignError,
> {
    if kl == 0 || kl > MAX_KEY_LEN {
        Err(AssignError::BadKeyEncoding)
    } else if b.len() < ks + kl {
        Err(AssignError::Truncated)
    } else if b[ks as int] != 0x20 && b[ks as int] / 16 != 3 {
        Err(AssignError::BadKeyEncoding)
    } else {
        Ok((lh, total, ks, kl))
    }
}

/// The key part of a leaf as it stands on its key row.
#[derive(Clone, Copy, Debug)]
pub struct LeafKey {
    /// The length of the whole leaf encoding that the list header declares.
    pub num_bytes: u64,
    /// The bytes of the leaf that stand on the key row: list header and key.
    pub num_bytes_on_key_row: u64,
    /// Whether the key holds an odd number of nibbles.
    pub is_odd: bool,
    /// The number of key nibbles that the leaf holds.
    pub num_nibbles: u64,
    /// The first nibble of an odd key (the low half of the flag byte).
    pub first_nibble: u8,
    /// RLC of the bytes on the key row that belong to the leaf.
    pub row_rlc: Fp,
    /// RLC of the key bytes after the flag byte.
    pub tail_rlc: Fp,
}

impl LeafKey {
    /// `self` is the decoding of the key row `b` under the challenge `r`.
    pub open spec fn decodes(self, b: Seq<u8>, r: nat) -> bool {
        match key_layout(b) {
            Ok((lh, total, ks, kl)) => {
                let flag = b[ks as int];
                let odd = flag / 16 == 3;
                &&& self.num_bytes == lh + total
                &&& self.num_bytes_on_key_row == ks + kl
                &&& self.is_odd == odd
                &&& self.num_nibbles == 2 * (kl - 1) + (if odd {
                    1nat
                } else {
                    0nat
                })
                &&& self.first_nibble == flag % 16
                &&& self.row_rlc.val() == rlc_spec(b.subrange(0, (ks + kl) as int), r)
                &&& self.tail_rlc.val() == rlc_spec(b.subrange((ks + 1) as int, (ks + kl) as int), r)
            },
            Err(_) => false,
        }
    }

    /// What the leaf's key adds to the key RLC accumulated by its ancestors,
    /// whose next key byte stands at the multiplier `mult`. An odd key first
    /// completes the byte whose high nibble the ancestors left open.
    pub open spec fn contribution(self, mult: nat, r: nat) -> nat {
        if self.is_odd {
            f_add(
                f_mul(self.first_nibble as nat, mult),
                f_mul(f_mul(mult, r), self.tail_rlc.val()),
            )
        } else {
            f_mul(mult, self.tail_rlc.val())
        }
    }

    /// The key RLC of the leaf, given the ancestors' key RLC and multiplier.
    pub fn key_rlc(&self, prev_rlc: Fp, mult: Fp, r: Fp) -> (out: Fp)
        ensures
            out.val() == f_add(prev_rlc.val(), self.contribution(mult.val(), r.val())),
    {
        let c = if self.is_odd {
            Fp::from_u64(self.first_nibble as u64).mul(mult).add(mult.mul(r).mul(self.tail_rlc))
        } else {
            mult.mul(self.tail_rlc)
        };
        proof {
            vstd::arithmetic::div_mod::lemma_small_mod(
                self.first_nibble as nat,
                crate::field::MODULUS as nat,
            );
        }
        prev_rlc.add(c)
    }
}

/// Decodes the leaf key that stands at the start of a key row.
pub fn parse_leaf_key(row: &Vec<u8>, r: Fp) -> (res: Result<LeafKey, AssignError>)
    ensures
        match key_layout(row@) {
            Ok(_) => res matches Ok(k) && k.decodes(row@, r.val()),
            Err(e) => res == Err::<LeafKey, AssignError>(e),
        },
{
    let n = row.len();
    if n == 0 {
        return Err(AssignError::Truncated);
    }
    let b0 = row[0];
    let (lh, total): (usize, usize) = if RLP_LIST_SHORT <= b0 && b0 <= RLP_LIST_LONG {
        (1, (b0 - RLP_LIST_SHORT) as usize)
    } else if b0 == RLP_LIST_LONG + 1 {
        if n < 2 {
            return Err(AssignError::Truncated);
        }
        (2, row[1] as usize)
    } else {
        return Err(AssignError::UnsupportedHeader);
    };
    if n <= lh {
        return Err(AssignError::Truncated);
    }
    let kh = row[lh];
    let (ks, kl): (usize, usize) = if kh < RLP_SHORT {
        (lh, 1)
    } else if kh <= RLP_LONG {
        (lh + 1, (kh - RLP_SHORT) as usize)
    } else {
        return Err(AssignError::UnsupportedHeader);
    };
    if kl == 0 || kl > MAX_KEY_LEN as usize {
        return Err(AssignError::BadKeyEncoding);
    }
    if n < ks + kl {
        return Err(AssignError::Truncated);
    }
    let flag = row[ks];
    if flag != 0x20 && flag / 16 != 3 {
        return Err(AssignError::BadKeyEncoding);
    }
    let is_odd = flag / 16 == 3;
    let num_nibbles: u64 = 2 * (kl as u64 - 1) + if is_odd {
        1
    } else {
        0
    };
    let row_rlc = rlc_range(row, 0, ks + kl, r);
    let tail_rlc = rlc_range(row, ks + 1, ks + kl, r);
    Ok(
        LeafKey {
            num_bytes: (lh + total) as u64,
            num_bytes_on_key_row: (ks + kl) as u64,
            is_odd,
            num_nibbles,
            first_nibble: flag % 16,
            row_rlc,
            tail_rlc,
        },
    )
}

} // verus!
