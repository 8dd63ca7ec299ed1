//! A 256-bit unsigned integer held as four 64-bit limbs, with verified
//! decimal rendering and parsing for the string-safe scalar wrapper.
use vstd::prelude::*;

use crate::digits::{
    all_dec_digits, dec_digits_of, dec_val, dec_val_of, is_dec_digit, lemma_dec_val_prefix_le,
};

verus! {

/// Two to the 64th power.
pub open spec fn pow2_64() -> nat {
    0x10000000000000000
}

/// Two to the 128th power.
pub open spec fn pow2_128() -> nat {
    0x10000000000000000 * 0x10000000000000000
}

/// Two to the 192nd power.
pub open spec fn pow2_192() -> nat {
    0x10000000000000000 * 0x10000000000000000 * 0x10000000000000000
}

/// One more than the largest value a 256-bit unsigned integer can hold.
pub open spec fn u256_limit() -> nat {
    0x10000000000000000 * 0x10000000000000000 * 0x10000000000000000 * 0x10000000000000000
}

/// An unsigned 256-bit integer; limb `n0` is least significant.
#[derive(Clone, Copy, Debug, PartialEq, Eq, Structural, Hash)]
pub struct U256 {
    pub n0: u64,
    pub n1: u64,
    pub n2: u64,
    pub n3: u64,
}

impl View for U256 {
    type V = nat;

    open spec fn view(&self) -> nat {
        self.n0 as nat + 0x10000000000000000 * (self.n1 as nat + 0x10000000000000000 * (
        self.n2 as nat + 0x10000000000000000 * (self.n3 as nat)))
    }
}

impl U256 {
    /// The zero value.
    pub fn zero() -> (r: U256)
        ensures
            r@ == 0,
    {
        U256 { n0: 0, n1: 0, n2: 0, n3: 0 }
    }

    /// The largest representable value.
    pub fn max_value() -> (r: U256)
        ensures
            r@ == u256_limit() - 1,
    {
        U256 { n0: u64::MAX, n1: u64::MAX, n2: u64::MAX, n3: u64::MAX }
    }

    /// Widens a 128-bit value.
    pub fn from_u128(v: u128) -> (r: U256)
        ensures
            r@ == v as nat,
    {
        U256 {
            n0: (v % 0x10000000000000000) as u64,
            n1: (v / 0x10000000000000000) as u64,
            n2: 0,
            n3: 0,
        }
    }

    /// Whether the value is zero.
    pub fn is_zero(&self) -> (r: bool)
        ensures
            r == (self@ == 0),
    {
        self.n0 == 0 && self.n1 == 0 && self.n2 == 0 && self.n3 == 0
    }

    /// Divides by ten, returning quotient and remainder.
    pub fn divmod10(&self) -> (r: (U256, u8))
        ensures
            r.0@ == self@ / 10,
            r.1 as nat == self@ % 10,
            r.1 < 10,
    {
        let c3: u128 = self.n3 as u128;
        let q3: u64 = (c3 / 10) as u64;
        let r3: u128 = c3 % 10;
        let c2: u128 = r3 * 0x10000000000000000 + self.n2 as u128;
        let q2: u64 = (c2 / 10) as u64;
        let r2: u128 = c2 % 10;
        let c1: u128 = r2 * 0x10000000000000000 + self.n1 as u128;
        let q1: u64 = (c1 / 10) as u64;
        let r1: u128 = c1 % 10;
        let c0: u128 = r1 * 0x10000000000000000 + self.n0 as u128;
        let q0: u64 = (c0 / 10) as u64;
        let r0: u8 = (c0 % 10) as u8;
        let q = U256 { n0: q0, n1: q1, n2: q2, n3: q3 };
        proof {
            assert(self.n3 as int == q3 as int * 10 + r3 as int);
            assert(r3 as int * 0x10000000000000000 + self.n2 as int == q2 as int * 10 + r2 as int);
            assert(r2 as int * 0x10000000000000000 + self.n1 as int == q1 as int * 10 + r1 as int);
            assert(r1 as int * 0x10000000000000000 + self.n0 as int == q0 as int * 10 + r0 as int);
            assert(self@ as int == q@ as int * 10 + r0 as int) by (nonlinear_arith)
                requires
                    self@ as int == self.n0 as int + 0x10000000000000000 * (self.n1 as int
                        + 0x10000000000000000 * (self.n2 as int + 0x10000000000000000
                        * self.n3 as int)),
                    q@ as int == q0 as int + 0x10000000000000000 * (q1 as int
                        + 0x10000000000000000 * (q2 as int + 0x10000000000000000 * q3 as int)),
                    self.n3 as int == q3 as int * 10 + r3 as int,
                    r3 as int * 0x10000000000000000 + self.n2 as int == q2 as int * 10 + r2 as int,
                    r2 as int * 0x10000000000000000 + self.n1 as int == q1 as int * 10 + r1 as int,
                    r1 as int * 0x10000000000000000 + self.n0 as int == q0 as int * 10 + r0 as int,
            ;
            assert(self@ == q@ * 10 + r0 as nat);
            vstd::arithmetic::div_mod::lemma_fundamental_div_mod_converse(
                self@ as int,
                10,
                q@ as int,
                r0 as int,
            );
        }
        (q, r0)
    }

    /// Multiplies by ten and adds a digit, failing exactly on overflow.
    pub fn mul10_add(&self, d: u8) -> (r: Option<U256>)
        requires
            d < 10,
        ensures
            r matches Some(x) ==> x@ == self@ * 10 + d as nat,
            r is None ==> self@ * 10 + d as nat >= u256_limit(),
    {
        let c0: u128 = self.n0 as u128 * 10 + d as u128;
        let m0: u64 = (c0 % 0x10000000000000000) as u64;
        let k0: u128 = c0 / 0x10000000000000000;
        let c1: u128 = self.n1 as u128 * 10 + k0;
        let m1: u64 = (c1 % 0x10000000000000000) as u64;
        let k1: u128 = c1 / 0x10000000000000000;
        let c2: u128 = self.n2 as u128 * 10 + k1;
        let m2: u64 = (c2 % 0x10000000000000000) as u64;
        let k2: u128 = c2 / 0x10000000000000000;
        let c3: u128 = self.n3 as u128 * 10 + k2;
        let m3: u64 = (c3 % 0x10000000000000000) as u64;
        let k3: u128 = c3 / 0x10000000000000000;
        let x = U256 { n0: m0, n1: m1, n2: m2, n3: m3 };
        proof {
            assert(self.n0 as int * 10 + d as int == k0 as int * 0x10000000000000000 + m0 as int);
            assert(self.n1 as int * 10 + k0 as int == k1 as int * 0x10000000000000000 + m1 as int);
            assert(self.n2 as int * 10 + k1 as int == k2 as int * 0x10000000000000000 + m2 as int);
            assert(self.n3 as int * 10 + k2 as int == k3 as int * 0x10000000000000000 + m3 as int);
            assert(self@ as int * 10 + d as int == x@ as int + k3 as int * (0x10000000000000000
                * 0x10000000000000000 * 0x10000000000000000 * 0x10000000000000000))
                by (nonlinear_arith)
                requires
                    self@ as int == self.n0 as int + 0x10000000000000000 * (self.n1 as int
                        + 0x10000000000000000 * (self.n2 as int + 0x10000000000000000
                        * self.n3 as int)),
                    x@ as int == m0 as int + 0x10000000000000000 * (m1 as int
                        + 0x10000000000000000 * (m2 as int + 0x10000000000000000 * m3 as int)),
                    self.n0 as int * 10 + d as int == k0 as int * 0x10000000000000000 + m0 as int,
                    self.n1 as int * 10 + k0 as int == k1 as int * 0x10000000000000000 + m1 as int,
                    self.n2 as int * 10 + k1 as int == k2 as int * 0x10000000000000000 + m2 as int,
                    self.n3 as int * 10 + k2 as int == k3 as int * 0x10000000000000000 + m3 as int,
            ;
            assert(self@ * 10 + d as nat == x@ + k3 as nat * u256_limit());
        }
        if k3 == 0 {
            Some(x)
        } else {
            None
        }
    }

    /// Renders the value as its canonical decimal character sequence.
    pub fn to_dec_chars(&self) -> (r: Vec<char>)
        ensures
            r@ == dec_digits_of(self@),
    {
        let mut low_first: Vec<char> = Vec::new();
        let mut m: U256 = *self;
        let ghost n = self@;
        while !(m.n0 == 0 && m.n1 == 0 && m.n2 == 0 && m.n3 == 0)
            invariant
                m@ != 0 ==> dec_digits_of(n) == dec_digits_of(m@) + low_first@.reverse(),
                m@ == 0 ==> (n == 0 || dec_digits_of(n) == low_first@.reverse()),
                n == 0 ==> m@ == 0 && low_first@.len() == 0,
                m@ == 0 <==> (m.n0 == 0 && m.n1 == 0 && m.n2 == 0 && m.n3 == 0),
            decreases m@,
        {
            let (q, dr) = m.divmod10();
            let c: char = ((48 + dr) as u8) as char;
            let ghost prev = low_first@;
            low_first.push(c);
            proof {
                assert(low_first@.reverse() =~= seq![c] + prev.reverse());
                vstd::arithmetic::div_mod::lemma_fundamental_div_mod(m@ as int, 10);
                assert(dec_val(c) == m@ % 10);
                if m@ >= 10 {
                    assert(dec_digits_of(m@) == dec_digits_of(m@ / 10).push(c));
                    assert(dec_digits_of(m@ / 10) + low_first@.reverse() =~= dec_digits_of(m@)
                        + prev.reverse());
                } else {
                    assert(dec_digits_of(m@) =~= seq![c]);
                    if n != 0 {
                        assert(dec_digits_of(n) =~= dec_digits_of(m@) + prev.reverse());
                        assert(dec_digits_of(n) =~= low_first@.reverse());
                    }
                }
                assert(q@ < m@ || m@ == 0);
            }
            m = q;
        }
        if self.is_zero() {
            let mut r: Vec<char> = Vec::new();
            r.push('0');
            proof {
                assert(r@ =~= dec_digits_of(0));
            }
            return r;
        }
        let mut r: Vec<char> = Vec::new();
        let mut j: usize = low_first.len();
        while j > 0
            invariant
                j <= low_first.len(),
                r@.len() == low_first@.len() - j,
                forall|k: int| 0 <= k < r@.len() ==> r@[k] == low_first@[low_first@.len() - 1 - k],
            decreases j,
        {
            j = j - 1;
            r.push(low_first[j]);
        }
        proof {
            assert(r@ =~= low_first@.reverse());
        }
        r
    }
}

/// `s` is the decimal rendering of some value below two to the 256th power.
pub open spec fn is_u256_dec(s: Seq<char>) -> bool {
    s.len() >= 1 && all_dec_digits(s) && dec_val_of(s) < u256_limit()
}

/// Parses a decimal segment as a 256-bit value; fails exactly on empty
/// input, a non-digit, or overflow.
pub fn parse_dec_u256(s: &Vec<char>, from: usize, to: usize) -> (r: Option<U256>)
    requires
        from <= to <= s@.len(),
    ensures
        r is Some <==> is_u256_dec(s@.subrange(from as int, to as int)),
        r matches Some(v) ==> v@ == dec_val_of(s@.subrange(from as int, to as int)),
{
    let ghost seg = s@.subrange(from as int, to as int);
    if from == to {
        return None;
    }
    let mut acc: U256 = U256::zero();
    let mut i: usize = from;
    while i < to
        invariant
            from <= i <= to <= s@.len(),
            seg == s@.subrange(from as int, to as int),
            all_dec_digits(seg.take(i - from)),
            acc@ == dec_val_of(seg.take(i - from)),
            acc@ < u256_limit(),
        decreases to - i,
    {
        let c: char = s[i];
        let cv: u32 = c as u32;
        let ghost pre = seg.take(i - from);
        proof {
            assert(seg.take(i - from + 1).drop_last() =~= pre);
            assert(seg.take(i - from + 1).last() == seg[i - from]);
        }
        if !(48 <= cv && cv <= 57) {
            assert(!is_dec_digit(seg[i - from]));
            return None;
        }
        let d: u8 = (cv - 48) as u8;
        match acc.mul10_add(d) {
            Some(next) => {
                proof {
                    lemma_u256_val_bound(next);
                }
                acc = next;
            },
            None => {
                proof {
                    assert(dec_val_of(seg.take(i - from + 1)) >= u256_limit());
                    lemma_dec_val_prefix_le(seg, i - from + 1);
                }
                return None;
            },
        }
        i = i + 1;
    }
    proof {
        assert(seg.take(to - from) =~= seg);
    }
    Some(acc)
}

/// Every representable value lies below two to the 256th power.
pub proof fn lemma_u256_val_bound(a: U256)
    ensures
        a@ < u256_limit(),
{
    assert((a@ as int) < 0x10000000000000000 * 0x10000000000000000 * 0x10000000000000000
        * 0x10000000000000000) by (nonlinear_arith)
        requires
            a@ as int == a.n0 as int + 0x10000000000000000 * (a.n1 as int + 0x10000000000000000
                * (a.n2 as int + 0x10000000000000000 * a.n3 as int)),
            (a.n0 as int) < 0x10000000000000000,
            (a.n1 as int) < 0x10000000000000000,
            (a.n2 as int) < 0x10000000000000000,
            (a.n3 as int) < 0x10000000000000000,
    ;
}

/// Two 256-bit integers with the same value have the same limbs.
pub proof fn lemma_u256_val_injective(a: U256, b: U256)
    requires
        a@ == b@,
    ensures
        a == b,
{
    lemma_u256_limbs_of_val(a);
    lemma_u256_limbs_of_val(b);
}

/// Each limb is a fixed digit of the value in base two to the 64th power.
proof fn lemma_u256_limbs_of_val(a: U256)
    ensures
        a.n0 as int == a@ as int % pow2_64() as int,
        a.n1 as int == (a@ as int / pow2_64() as int) % pow2_64() as int,
        a.n2 as int == (a@ as int / pow2_128() as int) % pow2_64() as int,
        a.n3 as int == a@ as int / pow2_192() as int,
{
    let v: int = a@ as int;
    let r1: int = a.n1 as int + 0x10000000000000000 * (a.n2 as int + 0x10000000000000000
        * a.n3 as int);
    let r2: int = a.n2 as int + 0x10000000000000000 * a.n3 as int;
    assert(v == 0x10000000000000000 * r1 + a.n0 as int);
    assert(r1 == 0x10000000000000000 * r2 + a.n1 as int);
    assert(r2 == 0x10000000000000000 * a.n3 as int + a.n2 as int);
    vstd::arithmetic::div_mod::lemma_fundamental_div_mod_converse(
        v,
        0x10000000000000000,
        r1,
        a.n0 as int,
    );
    vstd::arithmetic::div_mod::lemma_fundamental_div_mod_converse(
        r1,
        0x10000000000000000,
        r2,
        a.n1 as int,
    );
    vstd::arithmetic::div_mod::lemma_fundamental_div_mod_converse(
        r2,
        0x10000000000000000,
        a.n3 as int,
        a.n2 as int,
    );
    vstd::arithmetic::div_mod::lemma_div_denominator(v, 0x10000000000000000, 0x10000000000000000);
    vstd::arithmetic::div_mod::lemma_div_denominator(
        v,
        (0x10000000000000000 * 0x10000000000000000) as int,
        0x10000000000000000,
    );
}

} // verus!
