//! Text helpers: characters of a string, decoding bytes as text.

use crate::errors::ScanError;
use vstd::prelude::*;

verus! {

/// The characters of `s`, collected into a vector.
pub fn chars_of(s: &str) -> (r: Vec<char>)
    ensures
        r@ == s@,
{
    let n = s.unicode_len();
    let mut r: Vec<char> = Vec::new();
    let mut i: usize = 0;
    while i < n
        invariant
            n == s@.len(),
            0 <= i <= n,
            r@ == s@.take(i as int),
        decreases n - i,
    {
        r.push(s.get_char(i));
        i = i + 1;
        proof {
            assert(r@ =~= s@.take(i as int));
        }
    }
    proof {
        assert(s@.take(n as int) =~= s@);
    }
    r
}

/// What a byte sequence holds when decoded as UTF-8 text, or nothing when it
/// is not valid UTF-8.  Relied upon by [`utf8_line`].
pub uninterp spec fn utf8_of(b: Seq<u8>) -> Option<Seq<char>>;

/// Relies on std's String::from_utf8: whether a byte sequence is valid UTF-8,
/// and which characters it holds, depend on the bytes alone.
#[verifier::external_body]
pub fn utf8_line(b: &Vec<u8>) -> (r: Result<String, ScanError>)
    ensures
        match r {
            Ok(s) => utf8_of(b@) == Some(s@),
            Err(e) => utf8_of(b@) is None && e == ScanError::Encoding,
        },
{
    match String::from_utf8(b.clone()) {
        Ok(s) => Ok(s),
        Err(_) => Err(ScanError::Encoding),
    }
}

} // verus!
