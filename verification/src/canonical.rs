//! Canonical binary framing of the primitive shapes the library hashes and
//! decodes: unsigned LEB128 lengths and fixed-width little-endian integers.
use vstd::prelude::*;

verus! {

/// Unsigned LEB128 encoding of `n`.
pub open spec fn uleb_bytes(n: nat) -> Seq<u8>
    decreases n,
{
    if n < 128 {
        seq![n as u8]
    } else {
        seq![(n % 128 + 128) as u8] + uleb_bytes(n / 128)
    }
}

/// Little-endian encoding of `n` in `w` bytes, least significant first.
pub open spec fn le_bytes(n: nat, w: nat) -> Seq<u8>
    decreases w,
{
    if w == 0 {
        Seq::empty()
    } else {
        seq![(n % 256) as u8] + le_bytes(n / 256, (w - 1) as nat)
    }
}

/// Value of a little-endian byte sequence.
pub open spec fn le_val(s: Seq<u8>) -> nat
    decreases s.len(),
{
    if s.len() == 0 {
        0
    } else {
        s[0] as nat + 256 * le_val(s.drop_first())
    }
}

/// 256 to the `k`th power.
pub open spec fn pow256(k: nat) -> nat
    decreases k,
{
    if k == 0 {
        1
    } else {
        256 * pow256((k - 1) as nat)
    }
}

/// A little-endian sequence's value is bounded by 256 to its length.
pub proof fn lemma_le_val_bound(s: Seq<u8>)
    ensures
        le_val(s) < pow256(s.len()),
    decreases s.len(),
{
    if s.len() == 0 {
    } else {
        lemma_le_val_bound(s.drop_first());
    }
}

/// Encoding a value below 256 to the `w`th and reading it back recovers it.
pub proof fn lemma_le_round_trip(n: nat, w: nat)
    requires
        n < pow256(w),
    ensures
        le_bytes(n, w).len() == w,
        le_val(le_bytes(n, w)) == n,
    decreases w,
{
    if w == 0 {
    } else {
        assert(n / 256 < pow256((w - 1) as nat)) by {
            vstd::arithmetic::div_mod::lemma_fundamental_div_mod(n as int, 256);
        }
        lemma_le_round_trip(n / 256, (w - 1) as nat);
        assert(le_bytes(n, w).drop_first() =~= le_bytes(n / 256, (w - 1) as nat));
    }
}

/// Appends the unsigned LEB128 encoding of `n`.
pub fn encode_uleb(n: usize, out: &mut Vec<u8>)
    ensures
        final(out)@ == old(out)@ + uleb_bytes(n as nat),
{
    let ghost n0 = n as nat;
    let ghost base = out@;
    let mut m: usize = n;
    while m >= 128
        invariant
            base + uleb_bytes(n0) == out@ + uleb_bytes(m as nat),
        decreases m,
    {
        out.push((m % 128 + 128) as u8);
        proof {
            assert(uleb_bytes(m as nat) == seq![(m as nat % 128 + 128) as u8] + uleb_bytes(
                m as nat / 128,
            ));
        }
        m = m / 128;
    }
    out.push(m as u8);
    proof {
        assert(uleb_bytes(m as nat) =~= seq![m as u8]);
        assert(out@ =~= base + uleb_bytes(n0));
    }
}

/// Appends the eight-byte little-endian encoding of `n`.
pub fn encode_u64_le(n: u64, out: &mut Vec<u8>)
    ensures
        final(out)@ == old(out)@ + le_bytes(n as nat, 8),
{
    let ghost base = out@;
    let mut m: u64 = n;
    let mut i: usize = 0;
    while i < 8
        invariant
            i <= 8,
            base + le_bytes(n as nat, 8) == out@ + le_bytes(m as nat, (8 - i) as nat),
        decreases 8 - i,
    {
        out.push((m % 256) as u8);
        proof {
            assert(le_bytes(m as nat, (8 - i) as nat) == seq![(m as nat % 256) as u8] + le_bytes(
                m as nat / 256,
                (8 - i - 1) as nat,
            ));
        }
        m = m / 256;
        i = i + 1;
    }
    proof {
        assert(le_bytes(m as nat, 0) =~= Seq::<u8>::empty());
        assert(out@ =~= base + le_bytes(n as nat, 8));
    }
}

/// Reads an eight-byte little-endian integer; fails exactly when the
/// input is not eight bytes long.
pub fn decode_u64_le(bytes: &Vec<u8>) -> (r: Option<u64>)
    ensures
        r is Some <==> bytes@.len() == 8,
        r matches Some(v) ==> v as nat == le_val(bytes@) && le_bytes(v as nat, 8) == bytes@,
{
    if bytes.len() != 8 {
        return None;
    }
    let mut acc: u64 = 0;
    let mut i: usize = 8;
    while i > 0
        invariant
            i <= 8,
            bytes@.len() == 8,
            acc as nat == le_val(bytes@.skip(i as int)),
            (acc as nat) < pow256((8 - i) as nat),
        decreases i,
    {
        proof {
            assert(bytes@.skip(i - 1).drop_first() =~= bytes@.skip(i as int));
            assert(bytes@.skip(i - 1)[0] == bytes@[i - 1]);
            assert(pow256((8 - i + 1) as nat) == 256 * pow256((8 - i) as nat));
            assert(pow256(8) == 256 * pow256(7) && pow256(7) == 256 * pow256(6) && pow256(6) == 256
                * pow256(5) && pow256(5) == 256 * pow256(4) && pow256(4) == 256 * pow256(3)
                && pow256(3) == 256 * pow256(2) && pow256(2) == 256 * pow256(1) && pow256(1) == 256
                * pow256(0));
        }
        i = i - 1;
        acc = acc * 256 + bytes[i] as u64;
    }
    proof {
        assert(bytes@.skip(0) =~= bytes@);
        lemma_le_round_trip(acc as nat, 8);
        lemma_le_val_injective(le_bytes(acc as nat, 8), bytes@);
    }
    Some(acc)
}

/// Two little-endian sequences of one length and one value are equal.
pub proof fn lemma_le_val_injective(a: Seq<u8>, b: Seq<u8>)
    requires
        a.len() == b.len(),
        le_val(a) == le_val(b),
    ensures
        a == b,
    decreases a.len(),
{
    if a.len() == 0 {
        assert(a =~= b);
    } else {
        vstd::arithmetic::div_mod::lemma_fundamental_div_mod_converse(
            le_val(a) as int,
            256,
            le_val(a.drop_first()) as int,
            a[0] as int,
        );
        vstd::arithmetic::div_mod::lemma_fundamental_div_mod_converse(
            le_val(b) as int,
            256,
            le_val(b.drop_first()) as int,
            b[0] as int,
        );
        lemma_le_val_injective(a.drop_first(), b.drop_first());
        assert forall|i: int| 0 <= i < a.len() implies a[i] == b[i] by {
            if i > 0 {
                assert(a[i] == a.drop_first()[i - 1]);
                assert(b[i] == b.drop_first()[i - 1]);
            }
        }
        assert(a =~= b);
    }
}

/// Appends a copy of `src`.
pub fn push_bytes(out: &mut Vec<u8>, src: &Vec<u8>)
    ensures
        final(out)@ == old(out)@ + src@,
{
    let ghost base = out@;
    let mut i: usize = 0;
    while i < src.len()
        invariant
            i <= src@.len(),
            out@ == base + src@.take(i as int),
        decreases src@.len() - i,
    {
        out.push(src[i]);
        proof {
            assert(base + src@.take(i + 1) =~= (base + src@.take(i as int)).push(src@[i as int]));
        }
        i = i + 1;
    }
    proof {
        assert(src@.take(src@.len() as int) =~= src@);
    }
}

} // verus!
