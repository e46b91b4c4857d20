use vstd::prelude::*;
use vstd::arithmetic::div_mod::{
    lemma_add_mod_noop,
    lemma_add_mod_noop_right,
    lemma_mod_bound,
    lemma_mul_mod_noop,
    lemma_mul_mod_noop_right,
    lemma_small_mod,
};
use crate::field::{f_add, f_mul, power, Fp, MODULUS};

verus! {

/// The largest exponent `n` for which the multiplier table holds `r^n`.
pub const MULT_TABLE_MAX: u64 = 64;

/// `Σ b[i]·r^i` over the integers, written by Horner's rule from the front:
/// `b[0] + r·(b[1] + r·(…))`.
pub open spec fn rlc_int(b: Seq<u8>, r: int) -> int
    decreases b.len(),
{
    if b.len() == 0 {
        0
    } else {
        b[0] as int + r * rlc_int(b.drop_first(), r)
    }
}

/// The random linear combination of `b` under the challenge `r`, in the field.
pub open spec fn rlc_spec(b: Seq<u8>, r: nat) -> nat {
    (rlc_int(b, r as int) % MODULUS as int) as nat
}

/// `r^n` in the field: the multiplier that shifts an RLC past `n` bytes.
pub open spec fn mult_spec(r: nat, n: nat) -> nat {
    (power(r as int, n) % MODULUS as int) as nat
}

/// The RLC of a concatenation is the RLC of the first part plus the RLC of
/// the second part shifted by the length of the first.
pub proof fn lemma_rlc_concat(x: Seq<u8>, y: Seq<u8>, r: int)
    ensures
        rlc_int(x + y, r) == rlc_int(x, r) + power(r, x.len()) * rlc_int(y, r),
    decreases x.len(),
{
    if x.len() == 0 {
        assert(x + y =~= y);
    } else {
        let t = x.drop_first();
        lemma_rlc_concat(t, y, r);
        assert((x + y).drop_first() =~= t + y);
        let a = rlc_int(t, r);
        let b = rlc_int(y, r);
        let p = power(r, t.len());
        assert(r * (a + p * b) == r * a + (r * p) * b) by (nonlinear_arith);
    }
}

/// Under any challenge of at least 256, read as a polynomial in the
/// challenge, the encoding is injective on sequences of one length: two
/// sequences of equal length with equal RLCs are equal.
pub proof fn lemma_rlc_injective(b1: Seq<u8>, b2: Seq<u8>, r: int)
    requires
        b1.len() == b2.len(),
        r >= 256,
        rlc_int(b1, r) == rlc_int(b2, r),
    ensures
        b1 == b2,
    decreases b1.len(),
{
    if b1.len() == 0 {
        assert(b1 =~= b2);
    } else {
        let t1 = b1.drop_first();
        let t2 = b2.drop_first();
        lemma_rlc_nonneg(t1, r);
        lemma_rlc_nonneg(t2, r);
        let x1 = rlc_int(t1, r);
        let x2 = rlc_int(t2, r);
        let d1 = b1[0] as int;
        let d2 = b2[0] as int;
        assert(x1 == x2 && d1 == d2) by (nonlinear_arith)
            requires
                d1 + r * x1 == d2 + r * x2,
                0 <= d1 < 256,
                0 <= d2 < 256,
                r >= 256,
                x1 >= 0,
                x2 >= 0,
        {
            if x1 > x2 {
                assert(r * x1 >= r * (x2 + 1));
            } else if x2 > x1 {
                assert(r * x2 >= r * (x1 + 1));
            }
        }
        lemma_rlc_injective(t1, t2, r);
        assert(b1 =~= b2) by {
            assert forall|i: int| 0 <= i < b1.len() implies b1[i] == b2[i] by {
                if i > 0 {
                    assert(b1[i] == t1[i - 1]);
                    assert(b2[i] == t2[i - 1]);
                }
            }
        }
    }
}

/// The RLC of bytes under a non-negative challenge is non-negative.
pub proof fn lemma_rlc_nonneg(b: Seq<u8>, r: int)
    requires
        r >= 0,
    ensures
        rlc_int(b, r) >= 0,
    decreases b.len(),
{
    if b.len() > 0 {
        lemma_rlc_nonneg(b.drop_first(), r);
        let x = rlc_int(b.drop_first(), r);
        assert(r * x >= 0) by (nonlinear_arith)
            requires
                r >= 0,
                x >= 0,
        ;
    }
}

/// Powers add their exponents.
pub proof fn lemma_power_add(r: int, a: nat, b: nat)
    ensures
        power(r, a + b) == power(r, a) * power(r, b),
    decreases a,
{
    if a > 0 {
        lemma_power_add(r, (a - 1) as nat, b);
        let x = power(r, (a - 1) as nat);
        let y = power(r, b);
        assert(power(r, a + b) == r * power(r, (a - 1 + b) as nat));
        assert(r * (x * y) == (r * x) * y) by (nonlinear_arith);
    }
}

/// A multiply-add of reduced operands in the field is the reduced
/// multiply-add over the integers.
pub proof fn lemma_mul_add_mod(a: int, b: int, c: int)
    ensures
        f_add((a % MODULUS as int) as nat, f_mul((b % MODULUS as int) as nat, (c % MODULUS as int) as nat))
            == (a + b * c) % MODULUS as int,
{
    let m = MODULUS as int;
    lemma_mod_bound(a, m);
    lemma_mod_bound(b, m);
    lemma_mod_bound(c, m);
    lemma_mul_mod_noop(b, c, m);
    lemma_mod_bound(b * c, m);
    lemma_add_mod_noop(a, b * c, m);
    vstd::arithmetic::div_mod::lemma_mod_twice(b * c, m);
}

/// One step of Horner's rule in the field agrees with the integer RLC taken
/// modulo the field size.
proof fn lemma_horner_step(byte: u8, x: int, r: nat)
    ensures
        f_add(byte as nat, f_mul(r, (x % MODULUS as int) as nat)) == (byte as int + r * x)
            % MODULUS as int,
{
    let m = MODULUS as int;
    lemma_small_mod(byte as nat, m as nat);
    lemma_mod_bound(x, m);
    let xm = x % m;
    lemma_mul_mod_noop_right(r as int, x, m);
    lemma_add_mod_noop_right(byte as int, r * xm, m);
    lemma_add_mod_noop_right(byte as int, r * x, m);
}

/// The RLC of `bytes[start..end]` under the challenge `r`.
pub fn rlc_range(bytes: &Vec<u8>, start: usize, end: usize, r: Fp) -> (out: Fp)
    requires
        start <= end <= bytes@.len(),
    ensures
        out.val() == rlc_spec(bytes@.subrange(start as int, end as int), r.val()),
{
    let mut acc = Fp::zero();
    let mut i: usize = end;
    proof {
        assert(bytes@.subrange(end as int, end as int) =~= Seq::<u8>::empty());
        lemma_small_mod(0, MODULUS as nat);
    }
    while i > start
        invariant
            start <= i <= end <= bytes@.len(),
            acc.val() == rlc_spec(bytes@.subrange(i as int, end as int), r.val()),
        decreases i - start,
    {
        let ghost tail = bytes@.subrange(i as int, end as int);
        let b = bytes[i - 1];
        acc = Fp::from_u64(b as u64).add(r.mul(acc));
        proof {
            lemma_small_mod(b as nat, MODULUS as nat);
            lemma_horner_step(b, rlc_int(tail, r.val() as int), r.val());
            assert(bytes@.subrange(i - 1, end as int).drop_first() =~= tail);
        }
        i = i - 1;
    }
    acc
}

/// The RLC of all of `bytes`.
pub fn rlc(bytes: &Vec<u8>, r: Fp) -> (out: Fp)
    ensures
        out.val() == rlc_spec(bytes@, r.val()),
{
    let out = rlc_range(bytes, 0, bytes.len(), r);
    proof {
        assert(bytes@.subrange(0, bytes@.len() as int) =~= bytes@);
    }
    out
}

/// The multiplier `r^n`, as the multiplier table holds it.
pub fn mult(r: Fp, n: u64) -> (out: Fp)
    ensures
        out.val() == mult_spec(r.val(), n as nat),
{
    r.pow(n)
}

} // verus!
