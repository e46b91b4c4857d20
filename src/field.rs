use vstd::prelude::*;
use vstd::arithmetic::div_mod::{
    lemma_mod_add_multiples_vanish,
    lemma_mod_sub_multiples_vanish,
    lemma_mul_mod_noop_left,
    lemma_small_mod,
};

verus! {

/// The modulus of the scalar field: the Mersenne prime 2^61 - 1.
pub const MODULUS: u64 = 0x1fff_ffff_ffff_ffff;

/// `b` raised to the natural power `e`, over the integers.
pub open spec fn power(b: int, e: nat) -> int
    decreases e,
{
    if e == 0 {
        1
    } else {
        b * power(b, (e - 1) as nat)
    }
}

/// Addition in the field, on canonical representatives.
pub open spec fn f_add(a: nat, b: nat) -> nat {
    ((a + b) as int % MODULUS as int) as nat
}

/// Multiplication in the field, on canonical representatives.
pub open spec fn f_mul(a: nat, b: nat) -> nat {
    ((a * b) as int % MODULUS as int) as nat
}

/// Subtraction in the field, on canonical representatives.
pub open spec fn f_sub(a: nat, b: nat) -> nat {
    ((a as int - b as int) % MODULUS as int) as nat
}

/// An element of the prime field of `MODULUS` elements, always held in
/// canonical form (its representative is below the modulus).
#[derive(Clone, Copy, Debug, PartialEq, Eq, Structural)]
pub struct Fp {
    v: u64,
}

impl Fp {
    #[verifier::type_invariant]
    spec fn canonical(self) -> bool {
        self.v < MODULUS
    }

    /// The canonical representative, in `0 .. MODULUS`.
    pub closed spec fn val(self) -> nat {
        self.v as nat
    }

    /// Two elements are equal exactly when their representatives are.
    pub proof fn lemma_val_eq(a: Fp, b: Fp)
        ensures
            (a.val() == b.val()) == (a == b),
    {
    }

    pub closed spec fn zero_spec() -> Fp {
        Fp { v: 0 }
    }

    pub closed spec fn one_spec() -> Fp {
        Fp { v: 1 }
    }

    pub fn zero() -> (r: Fp)
        ensures
            r.val() == 0,
            r == Fp::zero_spec(),
    {
        Fp { v: 0 }
    }

    pub fn one() -> (r: Fp)
        ensures
            r.val() == 1,
            r == Fp::one_spec(),
    {
        Fp { v: 1 }
    }

    /// The element `x mod MODULUS`.
    pub fn from_u64(x: u64) -> (r: Fp)
        ensures
            r.val() == x as int % MODULUS as int,
    {
        Fp { v: x % MODULUS }
    }

    /// The canonical representative as a machine integer.
    pub fn value(&self) -> (r: u64)
        ensures
            r as nat == self.val(),
            r < MODULUS,
    {
        proof {
            use_type_invariant(self);
        }
        self.v
    }

    pub fn add(self, o: Fp) -> (r: Fp)
        ensures
            r.val() == f_add(self.val(), o.val()),
    {
        proof {
            use_type_invariant(self);
            use_type_invariant(o);
        }
        let s: u64 = self.v + o.v;
        let ghost m = MODULUS as int;
        if s >= MODULUS {
            proof {
                lemma_small_mod((s - MODULUS) as nat, m as nat);
                lemma_mod_sub_multiples_vanish(s as int, m);
            }
            Fp { v: s - MODULUS }
        } else {
            proof {
                lemma_small_mod(s as nat, m as nat);
            }
            Fp { v: s }
        }
    }

    pub fn sub(self, o: Fp) -> (r: Fp)
        ensures
            r.val() == f_sub(self.val(), o.val()),
    {
        proof {
            use_type_invariant(self);
            use_type_invariant(o);
        }
        let ghost m = MODULUS as int;
        if self.v >= o.v {
            proof {
                lemma_small_mod((self.v - o.v) as nat, m as nat);
            }
            Fp { v: self.v - o.v }
        } else {
            let d: u64 = MODULUS - o.v + self.v;
            proof {
                lemma_small_mod(d as nat, m as nat);
                lemma_mod_add_multiples_vanish(self.v - o.v, m);
            }
            Fp { v: d }
        }
    }

    pub fn mul(self, o: Fp) -> (r: Fp)
        ensures
            r.val() == f_mul(self.val(), o.val()),
    {
        proof {
            use_type_invariant(self);
            use_type_invariant(o);
        }
        let a: u128 = self.v as u128;
        let b: u128 = o.v as u128;
        assert(a * b < 0x1_0000_0000_0000_0000_0000_0000_0000_0000) by (nonlinear_arith)
            requires
                a < 0x2000_0000_0000_0000,
                b < 0x2000_0000_0000_0000,
        ;
        let p: u128 = a * b;
        let q: u128 = p % (MODULUS as u128);
        Fp { v: q as u64 }
    }

    /// `self` raised to the power `n`.
    pub fn pow(self, n: u64) -> (r: Fp)
        ensures
            r.val() == power(self.val() as int, n as nat) % MODULUS as int,
    {
        let mut acc = Fp::one();
        let mut i: u64 = 0;
        proof {
            lemma_small_mod(1, MODULUS as nat);
        }
        while i < n
            invariant
                i <= n,
                acc.val() == power(self.val() as int, i as nat) % MODULUS as int,
            decreases n - i,
        {
            let ghost prev = power(self.val() as int, i as nat);
            acc = acc.mul(self);
            proof {
                lemma_mul_mod_noop_left(prev, self.val() as int, MODULUS as int);
                assert(power(self.val() as int, (i + 1) as nat) == self.val() * prev);
            }
            i = i + 1;
        }
        acc
    }
}

} // verus!
