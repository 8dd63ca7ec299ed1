//! String renderings of the wrapped scalars: wide integers as decimal
//! digits, byte payloads as `0x`-prefixed hexadecimal. Decoding accepts
//! exactly the canonical shapes and recovers the value bit for bit.
use vstd::prelude::*;

use crate::digits::{
    all_dec_digits, bytes_to_hex_chars, dec_digits_of, dec_val_of, hex_chars_of, hex_digit_val,
    hex_val, is_hex_digit, lemma_dec_digits_shape, lemma_dec_round_trip, lemma_hex_digit_val,
    parse_dec_u128, u128_to_dec_chars,
};
use crate::strings::{str_chars, string_from_chars};
use crate::u256::{is_u256_dec, parse_dec_u256, U256};
use crate::view::StrView;

verus! {

/// The text handed to a scalar decoder does not spell a value of the
/// expected shape.
#[derive(Debug, Clone, Copy, PartialEq, Eq, Structural)]
pub struct MalformedScalar;

/// The text form of a byte payload: `0x`, then two lowercase digits per
/// byte.
pub open spec fn bytes_hex_chars(data: Seq<u8>) -> Seq<char> {
    seq!['0', 'x'] + hex_chars_of(data)
}

/// `s` is an acceptable byte payload rendering: `0x` and an even number
/// of hexadecimal digits.
pub open spec fn is_bytes_hex(s: Seq<char>) -> bool {
    &&& s.len() >= 2
    &&& s.len() % 2 == 0
    &&& s[0] == '0'
    &&& s[1] == 'x'
    &&& forall|i: int| 2 <= i < s.len() ==> is_hex_digit(#[trigger] s[i])
}

/// The bytes spelled by a sequence of hexadecimal digit pairs.
pub open spec fn bytes_of_hex(digits: Seq<char>) -> Seq<u8> {
    Seq::new(
        digits.len() / 2,
        |i: int| (hex_val(digits[2 * i]) * 16 + hex_val(digits[2 * i + 1])) as u8,
    )
}

impl StrView<u8> {
    /// Renders the value as decimal digits.
    pub fn encode(&self) -> (r: String)
        ensures
            r@ == dec_digits_of(self.0 as nat),
    {
        string_from_chars(u128_to_dec_chars(self.0 as u128))
    }

    /// Reads a decimal rendering back; fails exactly on empty input, a
    /// non-digit, or a value over the width's maximum.
    pub fn decode(s: &str) -> (r: Result<StrView<u8>, MalformedScalar>)
        ensures
            r is Ok <==> s@.len() >= 1 && all_dec_digits(s@) && dec_val_of(s@) <= u8::MAX,
            r matches Ok(w) ==> w.0 as nat == dec_val_of(s@),
    {
        let chars = str_chars(s);
        proof {
            assert(chars@.subrange(0, chars@.len() as int) =~= s@);
        }
        match parse_dec_u128(&chars, 0, chars.len()) {
            Some(v) => {
                if v <= u8::MAX as u128 {
                    Ok(StrView(v as u8))
                } else {
                    Err(MalformedScalar)
                }
            },
            None => Err(MalformedScalar),
        }
    }
}

impl StrView<u16> {
    /// Renders the value as decimal digits.
    pub fn encode(&self) -> (r: String)
        ensures
            r@ == dec_digits_of(self.0 as nat),
    {
        string_from_chars(u128_to_dec_chars(self.0 as u128))
    }

    /// Reads a decimal rendering back; fails exactly on empty input, a
    /// non-digit, or a value over the width's maximum.
    pub fn decode(s: &str) -> (r: Result<StrView<u16>, MalformedScalar>)
        ensures
            r is Ok <==> s@.len() >= 1 && all_dec_digits(s@) && dec_val_of(s@) <= u16::MAX,
            r matches Ok(w) ==> w.0 as nat == dec_val_of(s@),
    {
        let chars = str_chars(s);
        proof {
            assert(chars@.subrange(0, chars@.len() as int) =~= s@);
        }
        match parse_dec_u128(&chars, 0, chars.len()) {
            Some(v) => {
                if v <= u16::MAX as u128 {
                    Ok(StrView(v as u16))
                } else {
                    Err(MalformedScalar)
                }
            },
            None => Err(MalformedScalar),
        }
    }
}

impl StrView<u32> {
    /// Renders the value as decimal digits.
    pub fn encode(&self) -> (r: String)
        ensures
            r@ == dec_digits_of(self.0 as nat),
    {
        string_from_chars(u128_to_dec_chars(self.0 as u128))
    }

    /// Reads a decimal rendering back; fails exactly on empty input, a
    /// non-digit, or a value over the width's maximum.
    pub fn decode(s: &str) -> (r: Result<StrView<u32>, MalformedScalar>)
        ensures
            r is Ok <==> s@.len() >= 1 && all_dec_digits(s@) && dec_val_of(s@) <= u32::MAX,
            r matches Ok(w) ==> w.0 as nat == dec_val_of(s@),
    {
        let chars = str_chars(s);
        proof {
            assert(chars@.subrange(0, chars@.len() as int) =~= s@);
        }
        match parse_dec_u128(&chars, 0, chars.len()) {
            Some(v) => {
                if v <= u32::MAX as u128 {
                    Ok(StrView(v as u32))
                } else {
                    Err(MalformedScalar)
                }
            },
            None => Err(MalformedScalar),
        }
    }
}

impl StrView<u64> {
    /// Renders the value as decimal digits.
    pub fn encode(&self) -> (r: String)
        ensures
            r@ == dec_digits_of(self.0 as nat),
    {
        string_from_chars(u128_to_dec_chars(self.0 as u128))
    }

    /// Reads a decimal rendering back; fails exactly on empty input, a
    /// non-digit, or a value over the width's maximum.
    pub fn decode(s: &str) -> (r: Result<StrView<u64>, MalformedScalar>)
        ensures
            r is Ok <==> s@.len() >= 1 && all_dec_digits(s@) && dec_val_of(s@) <= u64::MAX,
            r matches Ok(w) ==> w.0 as nat == dec_val_of(s@),
    {
        let chars = str_chars(s);
        proof {
            assert(chars@.subrange(0, chars@.len() as int) =~= s@);
        }
        match parse_dec_u128(&chars, 0, chars.len()) {
            Some(v) => {
                if v <= u64::MAX as u128 {
                    Ok(StrView(v as u64))
                } else {
                    Err(MalformedScalar)
                }
            },
            None => Err(MalformedScalar),
        }
    }
}

impl StrView<u128> {
    /// Renders the value as decimal digits.
    pub fn encode(&self) -> (r: String)
        ensures
            r@ == dec_digits_of(self.0 as nat),
    {
        string_from_chars(u128_to_dec_chars(self.0))
    }

    /// Reads a decimal rendering back; fails exactly on empty input, a
    /// non-digit, or a value over the width's maximum.
    pub fn decode(s: &str) -> (r: Result<StrView<u128>, MalformedScalar>)
        ensures
            r is Ok <==> s@.len() >= 1 && all_dec_digits(s@) && dec_val_of(s@) <= u128::MAX,
            r matches Ok(w) ==> w.0 as nat == dec_val_of(s@),
    {
        let chars = str_chars(s);
        proof {
            assert(chars@.subrange(0, chars@.len() as int) =~= s@);
        }
        match parse_dec_u128(&chars, 0, chars.len()) {
            Some(v) => Ok(StrView(v)),
            None => Err(MalformedScalar),
        }
    }
}

impl StrView<U256> {
    /// Renders the value as decimal digits.
    pub fn encode(&self) -> (r: String)
        ensures
            r@ == dec_digits_of(self.0@),
    {
        string_from_chars(self.0.to_dec_chars())
    }

    /// Reads a decimal rendering back; fails exactly on empty input, a
    /// non-digit, or a value over the width's maximum.
    pub fn decode(s: &str) -> (r: Result<StrView<U256>, MalformedScalar>)
        ensures
            r is Ok <==> is_u256_dec(s@),
            r matches Ok(w) ==> w.0@ == dec_val_of(s@),
    {
        let chars = str_chars(s);
        proof {
            assert(chars@.subrange(0, chars@.len() as int) =~= s@);
        }
        match parse_dec_u256(&chars, 0, chars.len()) {
            Some(v) => Ok(StrView(v)),
            None => Err(MalformedScalar),
        }
    }
}

impl StrView<Vec<u8>> {
    /// Renders the payload as `0x` and two lowercase digits per byte.
    pub fn encode(&self) -> (r: String)
        ensures
            r@ == bytes_hex_chars(self.0@),
    {
        let mut cs: Vec<char> = Vec::new();
        cs.push('0');
        cs.push('x');
        let mut digits = bytes_to_hex_chars(self.0.as_slice());
        cs.append(&mut digits);
        proof {
            assert(cs@ =~= bytes_hex_chars(self.0@));
        }
        string_from_chars(cs)
    }

    /// Reads a payload rendering back; fails exactly when the text is not
    /// `0x` followed by an even number of hexadecimal digits.
    pub fn decode(s: &str) -> (r: Result<StrView<Vec<u8>>, MalformedScalar>)
        ensures
            r is Ok <==> is_bytes_hex(s@),
            r matches Ok(w) ==> w.0@ == bytes_of_hex(s@.skip(2)),
    {
        let chars = str_chars(s);
        let n = chars.len();
        if n < 2 || n % 2 != 0 {
            return Err(MalformedScalar);
        }
        if !(chars[0] == '0' && chars[1] == 'x') {
            return Err(MalformedScalar);
        }
        let ghost digits = s@.skip(2);
        let mut out: Vec<u8> = Vec::new();
        let mut i: usize = 2;
        while i < n
            invariant
                2 <= i <= n,
                i % 2 == 0,
                n % 2 == 0,
                n == chars@.len(),
                chars@ == s@,
                digits == s@.skip(2),
                out@.len() == (i - 2) / 2,
                forall|k: int| 0 <= k < out@.len() ==> #[trigger] out@[k] == bytes_of_hex(digits)[k],
                forall|k: int| 2 <= k < i ==> is_hex_digit(#[trigger] s@[k]),
            decreases n - i,
        {
            let hi = match hex_digit_val(chars[i]) {
                Some(v) => v,
                None => {
                    return Err(MalformedScalar);
                },
            };
            let lo = match hex_digit_val(chars[i + 1]) {
                Some(v) => v,
                None => {
                    return Err(MalformedScalar);
                },
            };
            proof {
                assert(digits[(i - 2) as int] == s@[i as int]);
                assert(digits[(i - 1) as int] == s@[i + 1]);
            }
            out.push(hi * 16 + lo);
            i = i + 2;
        }
        proof {
            assert(out@ =~= bytes_of_hex(digits));
        }
        Ok(StrView(out))
    }
}

/// The decimal rendering of any value consists of digits and reads back
/// to that value: the scalar wrapper's decode of its encode is the
/// identity, at every supported width.
pub proof fn lemma_decimal_round_trip(n: nat)
    ensures
        dec_digits_of(n).len() >= 1,
        all_dec_digits(dec_digits_of(n)),
        dec_val_of(dec_digits_of(n)) == n,
{
    lemma_dec_digits_shape(n);
    lemma_dec_round_trip(n);
}

/// The hexadecimal rendering of any payload is acceptable and reads back
/// to the same bytes: decode of encode is the identity for payloads.
pub proof fn lemma_bytes_hex_round_trip(data: Seq<u8>)
    ensures
        is_bytes_hex(bytes_hex_chars(data)),
        bytes_of_hex(bytes_hex_chars(data).skip(2)) == data,
{
    let s = bytes_hex_chars(data);
    let digits = hex_chars_of(data);
    assert(s.skip(2) =~= digits);
    assert forall|i: int| 2 <= i < s.len() implies is_hex_digit(#[trigger] s[i]) by {
        let j = i - 2;
        if j % 2 == 0 {
            lemma_hex_digit_val((data[j / 2] / 16) as nat);
        } else {
            lemma_hex_digit_val((data[j / 2] % 16) as nat);
        }
    }
    assert forall|i: int| 0 <= i < data.len() implies bytes_of_hex(digits)[i] == data[i] by {
        lemma_hex_digit_val((data[i] / 16) as nat);
        lemma_hex_digit_val((data[i] % 16) as nat);
        assert(digits[2 * i] == crate::digits::hex_digit((data[i] / 16) as nat));
        assert(digits[2 * i + 1] == crate::digits::hex_digit((data[i] % 16) as nat));
        assert((data[i] / 16) * 16 + data[i] % 16 == data[i]);
    }
    assert(bytes_of_hex(digits) =~= data);
}

} // verus!
