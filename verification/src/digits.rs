//! Decimal and hexadecimal digit arithmetic over character sequences.
//!
//! All text produced or accepted by the library (event-identity strings,
//! scalar renderings, hex dumps of byte payloads) is specified here, as
//! functions from numbers to `Seq<char>` and back.
use vstd::prelude::*;

verus! {

/// `c` is an ASCII decimal digit.
pub open spec fn is_dec_digit(c: char) -> bool {
    48 <= c as u32 <= 57
}

/// Numeric value of a decimal digit character.
pub open spec fn dec_val(c: char) -> nat {
    (c as u32 - 48) as nat
}

/// The decimal digit character for a value below ten.
pub open spec fn dec_digit(d: nat) -> char
    recommends
        d < 10,
{
    ((48 + d) as u8) as char
}

/// Canonical decimal rendering of `n`: no leading zeros, `"0"` for zero.
pub open spec fn dec_digits_of(n: nat) -> Seq<char>
    decreases n,
{
    if n < 10 {
        seq![dec_digit(n)]
    } else {
        dec_digits_of(n / 10).push(dec_digit(n % 10))
    }
}

/// Value of a decimal digit string, most significant digit first.
pub open spec fn dec_val_of(s: Seq<char>) -> nat
    decreases s.len(),
{
    if s.len() == 0 {
        0
    } else {
        dec_val_of(s.drop_last()) * 10 + dec_val(s.last())
    }
}

/// Every character of `s` is a decimal digit.
pub open spec fn all_dec_digits(s: Seq<char>) -> bool {
    forall|i: int| 0 <= i < s.len() ==> is_dec_digit(#[trigger] s[i])
}

/// The canonical decimal rendering consists solely of digits and is non-empty.
pub proof fn lemma_dec_digits_shape(n: nat)
    ensures
        dec_digits_of(n).len() >= 1,
        all_dec_digits(dec_digits_of(n)),
    decreases n,
{
    if n < 10 {
    } else {
        lemma_dec_digits_shape(n / 10);
        let s = dec_digits_of(n / 10);
        assert forall|i: int| 0 <= i < dec_digits_of(n).len() implies is_dec_digit(
            #[trigger] dec_digits_of(n)[i],
        ) by {
            if i < s.len() {
                assert(dec_digits_of(n)[i] == s[i]);
            }
        }
    }
}

/// Reading back the canonical decimal rendering of `n` yields `n`.
pub proof fn lemma_dec_round_trip(n: nat)
    ensures
        dec_val_of(dec_digits_of(n)) == n,
    decreases n,
{
    if n < 10 {
        let s = dec_digits_of(n);
        assert(s =~= seq![dec_digit(n)]);
        assert(s.drop_last() =~= Seq::<char>::empty());
        assert(dec_val_of(s.drop_last()) == 0);
        assert(s.last() == dec_digit(n));
        assert(((48 + n) as u8) as char as u32 == 48 + n);
        assert(dec_val(dec_digit(n)) == n);
    } else {
        lemma_dec_round_trip(n / 10);
        assert(dec_digits_of(n).drop_last() =~= dec_digits_of(n / 10));
        assert(dec_digits_of(n).last() == dec_digit(n % 10));
        assert(((48 + n % 10) as u8) as char as u32 == 48 + n % 10);
        assert(dec_val(dec_digit(n % 10)) == n % 10);
        assert(dec_val_of(dec_digits_of(n)) == (n / 10) * 10 + n % 10);
        assert((n / 10) * 10 + n % 10 == n) by {
            vstd::arithmetic::div_mod::lemma_fundamental_div_mod(n as int, 10);
        }
    }
}

/// Extending a digit string on the right never lowers its value.
pub proof fn lemma_dec_val_prefix_le(s: Seq<char>, i: int)
    requires
        0 <= i <= s.len(),
    ensures
        dec_val_of(s.take(i)) <= dec_val_of(s),
    decreases s.len() - i,
{
    if i == s.len() {
        assert(s.take(i) =~= s);
    } else {
        lemma_dec_val_prefix_le(s, i + 1);
        assert(s.take(i + 1).drop_last() =~= s.take(i));
        assert(dec_val_of(s.take(i + 1)) == dec_val_of(s.take(i)) * 10 + dec_val(
            s.take(i + 1).last(),
        ));
    }
}

/// Renders `n` as its canonical decimal character sequence.
pub fn u128_to_dec_chars(n: u128) -> (r: Vec<char>)
    ensures
        r@ == dec_digits_of(n as nat),
{
    let mut low_first: Vec<char> = Vec::new();
    let mut m: u128 = n;
    while m != 0
        invariant
            m != 0 ==> dec_digits_of(n as nat) == dec_digits_of(m as nat) + low_first@.reverse(),
            m == 0 ==> (n == 0 || dec_digits_of(n as nat) == low_first@.reverse()),
            n == 0 ==> m == 0 && low_first@.len() == 0,
        decreases m,
    {
        let d: u8 = (m % 10) as u8;
        let c: char = ((48 + d) as u8) as char;
        let ghost prev = low_first@;
        low_first.push(c);
        proof {
            assert(low_first@.reverse() =~= seq![c] + prev.reverse());
            if m >= 10 {
                assert(dec_digits_of(m as nat) == dec_digits_of((m as nat) / 10).push(c));
                assert(dec_digits_of((m as nat) / 10) + low_first@.reverse() =~= dec_digits_of(
                    m as nat,
                ) + prev.reverse());
            } else {
                assert(dec_digits_of(m as nat) =~= seq![c]);
                if n != 0 {
                    assert(dec_digits_of(n as nat) =~= dec_digits_of(m as nat) + prev.reverse());
                    assert(dec_digits_of(n as nat) =~= low_first@.reverse());
                }
            }
        }
        m = m / 10;
    }
    if n == 0 {
        let mut r: Vec<char> = Vec::new();
        r.push('0');
        proof {
            assert(r@ =~= dec_digits_of(0));
        }
        return r;
    }
    let mut r: Vec<char> = Vec::new();
    let mut j: usize = low_first.len();
    while j > 0
        invariant
            j <= low_first.len(),
            r@.len() == low_first@.len() - j,
            forall|k: int| 0 <= k < r@.len() ==> r@[k] == low_first@[low_first@.len() - 1 - k],
        decreases j,
    {
        j = j - 1;
        r.push(low_first[j]);
    }
    proof {
        assert(r@ =~= low_first@.reverse());
    }
    r
}

/// `s` is the decimal rendering of some value that fits in a `u128`.
pub open spec fn is_u128_dec(s: Seq<char>) -> bool {
    s.len() >= 1 && all_dec_digits(s) && dec_val_of(s) <= u128::MAX
}

/// `s` is the decimal rendering of some value that fits in a `u64`.
pub open spec fn is_u64_dec(s: Seq<char>) -> bool {
    s.len() >= 1 && all_dec_digits(s) && dec_val_of(s) <= u64::MAX
}

/// Parses the characters of `s` between `from` and `to` as an unsigned
/// decimal number; fails exactly on empty input, a non-digit, or overflow.
pub fn parse_dec_u128(s: &Vec<char>, from: usize, to: usize) -> (r: Option<u128>)
    requires
        from <= to <= s@.len(),
    ensures
        r is Some <==> is_u128_dec(s@.subrange(from as int, to as int)),
        r matches Some(v) ==> v as nat == dec_val_of(s@.subrange(from as int, to as int)),
{
    let ghost seg = s@.subrange(from as int, to as int);
    if from == to {
        return None;
    }
    let mut acc: u128 = 0;
    let mut i: usize = from;
    while i < to
        invariant
            from <= i <= to <= s@.len(),
            seg == s@.subrange(from as int, to as int),
            all_dec_digits(seg.take(i - from)),
            acc as nat == dec_val_of(seg.take(i - from)),
        decreases to - i,
    {
        let c: char = s[i];
        let cv: u32 = c as u32;
        let ghost pre = seg.take(i - from);
        proof {
            assert(seg.take(i - from + 1).drop_last() =~= pre);
            assert(seg.take(i - from + 1).last() == seg[i - from]);
        }
        if !(48 <= cv && cv <= 57) {
            assert(!is_dec_digit(seg[i - from]));
            return None;
        }
        let d: u128 = (cv - 48) as u128;
        if acc > (u128::MAX - d) / 10 {
            proof {
                vstd::arithmetic::div_mod::lemma_fundamental_div_mod(
                    (u128::MAX - d as nat) as int,
                    10,
                );
                assert(acc as nat * 10 >= ((u128::MAX - d as nat) / 10 + 1) * 10);
                assert(dec_val_of(seg.take(i - from + 1)) == acc as nat * 10 + d as nat);
                assert(dec_val_of(seg.take(i - from + 1)) > u128::MAX);
                lemma_dec_val_prefix_le(seg, i - from + 1);
            }
            return None;
        }
        proof {
            vstd::arithmetic::div_mod::lemma_fundamental_div_mod((u128::MAX - d as nat) as int, 10);
            assert(acc as nat * 10 <= ((u128::MAX - d as nat) / 10) * 10);
        }
        acc = acc * 10 + d;
        i = i + 1;
    }
    proof {
        assert(seg.take(to - from) =~= seg);
    }
    Some(acc)
}

/// Parses a decimal segment as a `u64`; fails exactly on empty input,
/// a non-digit, or a value over `u64::MAX`.
pub fn parse_dec_u64(s: &Vec<char>, from: usize, to: usize) -> (r: Option<u64>)
    requires
        from <= to <= s@.len(),
    ensures
        r is Some <==> is_u64_dec(s@.subrange(from as int, to as int)),
        r matches Some(v) ==> v as nat == dec_val_of(s@.subrange(from as int, to as int)),
{
    match parse_dec_u128(s, from, to) {
        Some(v) => {
            if v <= u64::MAX as u128 {
                Some(v as u64)
            } else {
                None
            }
        },
        None => None,
    }
}

/// `c` is an ASCII hexadecimal digit, either case.
pub open spec fn is_hex_digit(c: char) -> bool {
    48 <= c as u32 <= 57 || 97 <= c as u32 <= 102 || 65 <= c as u32 <= 70
}

/// Numeric value of a hexadecimal digit character.
pub open spec fn hex_val(c: char) -> nat {
    if 48 <= c as u32 <= 57 {
        (c as u32 - 48) as nat
    } else if 97 <= c as u32 <= 102 {
        (c as u32 - 87) as nat
    } else {
        (c as u32 - 55) as nat
    }
}

/// The lowercase hexadecimal digit character for a value below sixteen.
pub open spec fn hex_digit(d: nat) -> char
    recommends
        d < 16,
{
    if d < 10 {
        ((48 + d) as u8) as char
    } else {
        ((87 + d) as u8) as char
    }
}

/// Lowercase two-digits-per-byte hexadecimal rendering of a byte sequence.
pub open spec fn hex_chars_of(data: Seq<u8>) -> Seq<char> {
    Seq::new(
        data.len() * 2,
        |i: int|
            if i % 2 == 0 {
                hex_digit((data[i / 2] / 16) as nat)
            } else {
                hex_digit((data[i / 2] % 16) as nat)
            },
    )
}

/// Emitted hexadecimal digits are valid digits and read back to their value.
pub proof fn lemma_hex_digit_val(d: nat)
    requires
        d < 16,
    ensures
        is_hex_digit(hex_digit(d)),
        hex_val(hex_digit(d)) == d,
{
    if d < 10 {
        assert(((48 + d) as u8) as char as u32 == 48 + d);
    } else {
        assert(((87 + d) as u8) as char as u32 == 87 + d);
    }
}

/// Classifies a character as a hexadecimal digit and returns its value.
pub fn hex_digit_val(c: char) -> (r: Option<u8>)
    ensures
        r is Some <==> is_hex_digit(c),
        r matches Some(v) ==> v as nat == hex_val(c) && v < 16,
{
    let cv: u32 = c as u32;
    if 48 <= cv && cv <= 57 {
        Some((cv - 48) as u8)
    } else if 97 <= cv && cv <= 102 {
        Some((cv - 87) as u8)
    } else if 65 <= cv && cv <= 70 {
        Some((cv - 55) as u8)
    } else {
        None
    }
}

/// Renders a byte sequence as lowercase hexadecimal characters.
pub fn bytes_to_hex_chars(data: &[u8]) -> (r: Vec<char>)
    ensures
        r@ == hex_chars_of(data@),
{
    let mut r: Vec<char> = Vec::new();
    let mut i: usize = 0;
    while i < data.len()
        invariant
            i <= data@.len(),
            r@.len() == 2 * i,
            forall|k: int| 0 <= k < r@.len() ==> r@[k] == hex_chars_of(data@)[k],
        decreases data@.len() - i,
    {
        let b: u8 = data[i];
        let hi: u8 = b / 16;
        let lo: u8 = b % 16;
        let hc: char = if hi < 10 {
            ((48 + hi) as u8) as char
        } else {
            ((87 + hi) as u8) as char
        };
        let lc: char = if lo < 10 {
            ((48 + lo) as u8) as char
        } else {
            ((87 + lo) as u8) as char
        };
        r.push(hc);
        r.push(lc);
        i = i + 1;
    }
    proof {
        assert(r@ =~= hex_chars_of(data@));
    }
    r
}

} // verus!
