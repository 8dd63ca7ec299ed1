//! The boundary between character vectors, which the verified formatting and
//! parsing logic works on, and `String` values handed to callers.
use vstd::prelude::*;
use vstd::string::StrSliceExecFns;

use crate::digits::{dec_digits_of, u128_to_dec_chars};

verus! {

/// Renders a value as its canonical decimal string.
pub fn u128_to_dec_string(n: u128) -> (r: String)
    ensures
        r@ == dec_digits_of(n as nat),
{
    string_from_chars(u128_to_dec_chars(n))
}

/// Relies on `String: FromIterator<char>`: collecting an iterator of
/// characters yields the string of exactly those characters, in order.
#[verifier::external_body]
pub fn string_from_chars(chars: Vec<char>) -> (r: String)
    ensures
        r@ == chars@,
{
    chars.into_iter().collect()
}

/// Appends the characters of a string slice.
pub fn push_str_chars(out: &mut Vec<char>, s: &str)
    ensures
        final(out)@ == old(out)@ + s@,
{
    let ghost base = out@;
    let n: usize = s.unicode_len();
    let mut i: usize = 0;
    while i < n
        invariant
            i <= n,
            n == s@.len(),
            out@ == base + s@.take(i as int),
        decreases n - i,
    {
        let c: char = s.get_char(i);
        out.push(c);
        proof {
            assert(base + s@.take(i + 1) =~= (base + s@.take(i as int)).push(s@[i as int]));
        }
        i = i + 1;
    }
    proof {
        assert(s@.take(n as int) =~= s@);
    }
}

/// Collects the characters of a string slice into a vector.
pub fn str_chars(s: &str) -> (r: Vec<char>)
    ensures
        r@ == s@,
{
    let n: usize = s.unicode_len();
    let mut r: Vec<char> = Vec::new();
    let mut i: usize = 0;
    while i < n
        invariant
            i <= n,
            n == s@.len(),
            r@ == s@.take(i as int),
        decreases n - i,
    {
        let c: char = s.get_char(i);
        r.push(c);
        proof {
            assert(r@ =~= s@.take(i + 1));
        }
        i = i + 1;
    }
    proof {
        assert(s@.take(n as int) =~= s@);
    }
    r
}

} // verus!
