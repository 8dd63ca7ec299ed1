//! Account addresses, object identifiers and 32-byte digests, with their
//! canonical `0x`-prefixed hexadecimal text form.
use vstd::prelude::*;

use crate::digits::{
    hex_chars_of, hex_digit, hex_val, is_hex_digit, lemma_hex_digit_val, bytes_to_hex_chars,
    hex_digit_val,
};

verus! {

/// Number of bytes in an account address, an object id and a digest.
pub const ADDRESS_LENGTH: usize = 32;

/// The all-zero address byte sequence.
pub open spec fn zero_address_bytes() -> Seq<u8> {
    Seq::new(32, |i: int| 0u8)
}

/// Byte sequence of the address that hosts the standard library modules of
/// the execution engine: all zero but for a final `2`.
pub open spec fn std_address_bytes() -> Seq<u8> {
    Seq::new(32, |i: int| if i == 31 { 2u8 } else { 0u8 })
}

/// A 32-byte account address of the runtime value model.
#[derive(Debug, PartialEq, Eq, PartialOrd, Ord, Hash)]
pub struct AccountAddress {
    bytes: Vec<u8>,
}

impl Clone for AccountAddress {
    /// Clones the address; the copy has the same bytes.
    fn clone(&self) -> (r: Self)
        ensures
            r@ == self@,
    {
        AccountAddress { bytes: clone_bytes(&self.bytes) }
    }
}

impl View for AccountAddress {
    type V = Seq<u8>;

    closed spec fn view(&self) -> Seq<u8> {
        self.bytes@
    }
}

/// The canonical text form of an address: `0x` and 64 lowercase digits.
pub open spec fn address_hex_literal(a: Seq<u8>) -> Seq<char> {
    seq!['0', 'x'] + hex_chars_of(a)
}

/// `s` is an acceptable address literal: `0x` and 1 to 64 hex digits.
pub open spec fn is_address_hex_literal(s: Seq<char>) -> bool {
    &&& 3 <= s.len() <= 66
    &&& s[0] == '0'
    &&& s[1] == 'x'
    &&& forall|i: int| 2 <= i < s.len() ==> is_hex_digit(#[trigger] s[i])
}

/// Nibble `j` (of 64) encoded by the digit characters of a literal, counting
/// absent leading digits as zero.
pub open spec fn address_nibble(digits: Seq<char>, j: int) -> nat {
    if j < 64 - digits.len() {
        0
    } else {
        hex_val(digits[j - (64 - digits.len())])
    }
}

/// The 32 address bytes encoded by the digit characters of a literal.
pub open spec fn address_of_hex_digits(digits: Seq<char>) -> Seq<u8> {
    Seq::new(
        32,
        |i: int| (address_nibble(digits, 2 * i) * 16 + address_nibble(digits, 2 * i + 1)) as u8,
    )
}

impl AccountAddress {
    /// The address is well formed: exactly 32 bytes.
    pub open spec fn wf(&self) -> bool {
        self@.len() == 32
    }

    /// Wraps 32 raw bytes as an address.
    pub fn new(bytes: Vec<u8>) -> (r: AccountAddress)
        requires
            bytes@.len() == 32,
        ensures
            r@ == bytes@,
            r.wf(),
    {
        AccountAddress { bytes }
    }

    /// The all-zero address.
    pub fn zero() -> (r: AccountAddress)
        ensures
            r@ == zero_address_bytes(),
            r.wf(),
    {
        let mut bytes: Vec<u8> = Vec::new();
        let mut i: usize = 0;
        while i < 32
            invariant
                i <= 32,
                bytes@.len() == i,
                forall|k: int| 0 <= k < i ==> bytes@[k] == 0u8,
            decreases 32 - i,
        {
            bytes.push(0u8);
            i = i + 1;
        }
        proof {
            assert(bytes@ =~= zero_address_bytes());
        }
        AccountAddress { bytes }
    }

    /// The address hosting the engine's standard library modules.
    pub fn std_address() -> (r: AccountAddress)
        ensures
            r@ == std_address_bytes(),
            r.wf(),
    {
        let mut bytes: Vec<u8> = Vec::new();
        let mut i: usize = 0;
        while i < 31
            invariant
                i <= 31,
                bytes@.len() == i,
                forall|k: int| 0 <= k < i ==> bytes@[k] == 0u8,
            decreases 31 - i,
        {
            bytes.push(0u8);
            i = i + 1;
        }
        bytes.push(2u8);
        proof {
            assert(bytes@ =~= std_address_bytes());
        }
        AccountAddress { bytes }
    }

    /// Reads the raw bytes.
    pub fn as_bytes(&self) -> (r: &Vec<u8>)
        ensures
            r@ == self@,
    {
        &self.bytes
    }

    /// Renders the address as its canonical `0x`-prefixed literal.
    pub fn hex_literal_chars(&self) -> (r: Vec<char>)
        ensures
            r@ == address_hex_literal(self@),
    {
        let mut r: Vec<char> = Vec::new();
        r.push('0');
        r.push('x');
        let mut digits = bytes_to_hex_chars(self.bytes.as_slice());
        r.append(&mut digits);
        proof {
            assert(r@ =~= address_hex_literal(self@));
        }
        r
    }

    /// Parses the characters of `s` between `from` and `to` as an address
    /// literal; fails exactly when the segment is not `0x` followed by
    /// 1 to 64 hexadecimal digits.
    pub fn from_hex_literal(s: &Vec<char>, from: usize, to: usize) -> (r: Option<AccountAddress>)
        requires
            from <= to <= s@.len(),
        ensures
            r is Some <==> is_address_hex_literal(s@.subrange(from as int, to as int)),
            r matches Some(a) ==> a.wf() && a@ == address_of_hex_digits(
                s@.subrange(from as int, to as int).skip(2),
            ),
    {
        let ghost seg = s@.subrange(from as int, to as int);
        if to - from < 3 || to - from > 66 {
            return None;
        }
        if !(s[from] == '0' && s[from + 1] == 'x') {
            return None;
        }
        let ghost digits = seg.skip(2);
        let pad: usize = 64 - (to - from - 2);
        let mut nibs: Vec<u8> = Vec::new();
        let mut i: usize = 0;
        while i < pad
            invariant
                i <= pad,
                nibs@.len() == i,
                forall|k: int| 0 <= k < i ==> nibs@[k] == 0u8,
            decreases pad - i,
        {
            nibs.push(0u8);
            i = i + 1;
        }
        let mut j: usize = from + 2;
        while j < to
            invariant
                from + 2 <= j <= to <= s@.len(),
                seg == s@.subrange(from as int, to as int),
                digits == seg.skip(2),
                pad == 64 - (to - from - 2),
                nibs@.len() == pad + (j - from - 2),
                forall|k: int| 0 <= k < nibs@.len() ==> #[trigger] nibs@[k] < 16,
                forall|k: int|
                    0 <= k < nibs@.len() ==> #[trigger] nibs@[k] as nat == address_nibble(
                        digits,
                        k,
                    ),
                forall|k: int| 2 <= k < j - from ==> is_hex_digit(#[trigger] seg[k]),
            decreases to - j,
        {
            let c: char = s[j];
            match crate::digits::hex_digit_val(c) {
                Some(v) => {
                    proof {
                        assert(digits[j - from - 2] == seg[j - from]);
                        assert(seg[j - from] == s@[j as int]);
                        assert(address_nibble(digits, pad + (j - from - 2)) == hex_val(
                            digits[j - from - 2],
                        ));
                    }
                    nibs.push(v);
                },
                None => {
                    assert(!is_hex_digit(seg[j - from]));
                    return None;
                },
            }
            j = j + 1;
        }
        let mut bytes: Vec<u8> = Vec::new();
        let mut bi: usize = 0;
        while bi < 32
            invariant
                bi <= 32,
                bytes@.len() == bi,
                nibs@.len() == 64,
                forall|k: int| 0 <= k < nibs@.len() ==> #[trigger] nibs@[k] < 16,
                forall|k: int|
                    0 <= k < nibs@.len() ==> #[trigger] nibs@[k] as nat == address_nibble(
                        digits,
                        k,
                    ),
                forall|k: int| 0 <= k < bi ==> bytes@[k] == address_of_hex_digits(digits)[k],
            decreases 32 - bi,
        {
            proof {
                assert(nibs@[2 * bi as int] < 16);
                assert(nibs@[2 * bi as int + 1] < 16);
            }
            let b: u8 = nibs[2 * bi] * 16 + nibs[2 * bi + 1];
            bytes.push(b);
            bi = bi + 1;
        }
        proof {
            assert(bytes@ =~= address_of_hex_digits(digits));
        }
        Some(AccountAddress { bytes })
    }
}

/// Compares two addresses by their bytes.
pub fn address_eq(a: &AccountAddress, b: &AccountAddress) -> (r: bool)
    ensures
        r == (a@ == b@),
{
    bytes_eq(a.as_bytes(), b.as_bytes())
}

/// Copies a byte vector element by element.
pub fn clone_bytes(src: &Vec<u8>) -> (r: Vec<u8>)
    ensures
        r@ == src@,
{
    let mut r: Vec<u8> = Vec::new();
    let mut i: usize = 0;
    while i < src.len()
        invariant
            i <= src@.len(),
            r@ == src@.take(i as int),
        decreases src@.len() - i,
    {
        r.push(src[i]);
        proof {
            assert(r@ =~= src@.take(i + 1));
        }
        i = i + 1;
    }
    proof {
        assert(src@.take(src@.len() as int) =~= src@);
    }
    r
}

/// Compares two byte vectors for element-wise equality.
pub fn bytes_eq(a: &Vec<u8>, b: &Vec<u8>) -> (r: bool)
    ensures
        r == (a@ == b@),
{
    if a.len() != b.len() {
        return false;
    }
    let mut i: usize = 0;
    while i < a.len()
        invariant
            i <= a@.len(),
            a@.len() == b@.len(),
            forall|k: int| 0 <= k < i ==> a@[k] == b@[k],
        decreases a@.len() - i,
    {
        if a[i] != b[i] {
            return false;
        }
        i = i + 1;
    }
    proof {
        assert(a@ =~= b@);
    }
    true
}

/// Reading back the canonical literal of a 32-byte address recovers it.
pub proof fn lemma_address_literal_round_trip(a: Seq<u8>)
    requires
        a.len() == 32,
    ensures
        is_address_hex_literal(address_hex_literal(a)),
        address_of_hex_digits(address_hex_literal(a).skip(2)) == a,
{
    let lit = address_hex_literal(a);
    let digits = hex_chars_of(a);
    assert(lit.skip(2) =~= digits);
    assert forall|i: int| 2 <= i < lit.len() implies is_hex_digit(#[trigger] lit[i]) by {
        let j = i - 2;
        if j % 2 == 0 {
            lemma_hex_digit_val((a[j / 2] / 16) as nat);
        } else {
            lemma_hex_digit_val((a[j / 2] % 16) as nat);
        }
    }
    assert forall|i: int| 0 <= i < 32 implies address_of_hex_digits(digits)[i] == a[i] by {
        lemma_hex_digit_val((a[i] / 16) as nat);
        lemma_hex_digit_val((a[i] % 16) as nat);
        assert(digits[2 * i] == hex_digit((a[i] / 16) as nat));
        assert(digits[2 * i + 1] == hex_digit((a[i] % 16) as nat));
        assert(address_nibble(digits, 2 * i) == (a[i] / 16) as nat);
        assert(address_nibble(digits, 2 * i + 1) == (a[i] % 16) as nat);
        assert((a[i] / 16) * 16 + a[i] % 16 == a[i]);
    }
    assert(address_of_hex_digits(digits) =~= a);
}

/// A globally unique identifier of an object held by the execution engine;
/// an event stream is identified by one.
#[derive(Debug, PartialEq, Eq, PartialOrd, Ord, Hash)]
pub struct ObjectID {
    address: AccountAddress,
}

impl Clone for ObjectID {
    /// Clones the identifier; the copy has the same bytes.
    fn clone(&self) -> (r: Self)
        ensures
            r@ == self@,
    {
        ObjectID { address: self.address.clone() }
    }
}

impl View for ObjectID {
    type V = Seq<u8>;

    closed spec fn view(&self) -> Seq<u8> {
        self.address@
    }
}

impl ObjectID {
    /// The identifier is well formed: exactly 32 bytes.
    pub open spec fn wf(&self) -> bool {
        self@.len() == 32
    }

    /// Wraps an address as an object identifier.
    pub fn new(address: AccountAddress) -> (r: ObjectID)
        ensures
            r@ == address@,
    {
        ObjectID { address }
    }

    /// Reads the raw bytes.
    pub fn as_bytes(&self) -> (r: &Vec<u8>)
        ensures
            r@ == self@,
    {
        self.address.as_bytes()
    }

    /// Renders the identifier in its canonical `0x`-prefixed literal form.
    pub fn hex_literal_chars(&self) -> (r: Vec<char>)
        ensures
            r@ == address_hex_literal(self@),
    {
        self.address.hex_literal_chars()
    }

    /// Parses an object identifier literal; accepts exactly what
    /// `AccountAddress::from_hex_literal` accepts.
    pub fn from_hex_literal(s: &Vec<char>, from: usize, to: usize) -> (r: Option<ObjectID>)
        requires
            from <= to <= s@.len(),
        ensures
            r is Some <==> is_address_hex_literal(s@.subrange(from as int, to as int)),
            r matches Some(o) ==> o.wf() && o@ == address_of_hex_digits(
                s@.subrange(from as int, to as int).skip(2),
            ),
    {
        match AccountAddress::from_hex_literal(s, from, to) {
            Some(address) => Some(ObjectID { address }),
            None => None,
        }
    }
}

/// Compares two object identifiers by their bytes.
pub fn object_id_eq(a: &ObjectID, b: &ObjectID) -> (r: bool)
    ensures
        r == (a@ == b@),
{
    bytes_eq(a.as_bytes(), b.as_bytes())
}

/// A 32-byte cryptographic digest.
#[derive(Debug, PartialEq, Eq, Hash)]
pub struct H256 {
    bytes: Vec<u8>,
}

impl Clone for H256 {
    /// Clones the digest; the copy has the same bytes.
    fn clone(&self) -> (r: Self)
        ensures
            r@ == self@,
    {
        H256 { bytes: clone_bytes(&self.bytes) }
    }
}

impl View for H256 {
    type V = Seq<u8>;

    closed spec fn view(&self) -> Seq<u8> {
        self.bytes@
    }
}

impl H256 {
    /// The digest is well formed: exactly 32 bytes.
    pub open spec fn wf(&self) -> bool {
        self@.len() == 32
    }

    /// Wraps 32 raw bytes as a digest.
    pub fn new(bytes: Vec<u8>) -> (r: H256)
        requires
            bytes@.len() == 32,
        ensures
            r@ == bytes@,
            r.wf(),
    {
        H256 { bytes }
    }

    /// Reads the raw bytes.
    pub fn as_bytes(&self) -> (r: &Vec<u8>)
        ensures
            r@ == self@,
    {
        &self.bytes
    }
}

} // verus!
