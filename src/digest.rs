//! Content digests: BLAKE2b-512 of a text's UTF-8 bytes, written as lower-case hex.
use vstd::prelude::*;

use crate::text::push_char;

verus! {

/// The BLAKE2b-512 digest of a byte sequence.
pub uninterp spec fn blake2b_512(data: Seq<u8>) -> Seq<u8>;

/// Relies on blake2's `Blake2b512::digest`: the 64-byte BLAKE2b-512 digest of `data`.
#[verifier::external_body]
fn blake2b(data: &[u8]) -> (r: Vec<u8>)
    ensures
        r@ == blake2b_512(data@),
        r@.len() == 64,
{
    <blake2::Blake2b512 as blake2::Digest>::digest(data).to_vec()
}

/// The lower-case hexadecimal digit for `n < 16`.
pub open spec fn hex_digit(n: u8) -> char
    recommends
        n < 16,
{
    if n < 10 {
        (('0' as u8) + n) as char
    } else {
        (('a' as u8) + (n - 10)) as char
    }
}

/// Two lower-case hex digits per byte, most significant nibble first.
pub open spec fn hex_of(b: Seq<u8>) -> Seq<char> {
    Seq::new(
        2 * b.len(),
        |i: int|
            if i % 2 == 0 {
                hex_digit(b[i / 2] / 16)
            } else {
                hex_digit(b[i / 2] % 16)
            },
    )
}

/// The digest of a text, as stored in a digest sidecar.
pub open spec fn digest_hex(s: Seq<char>) -> Seq<char> {
    hex_of(blake2b_512(vstd::utf8::encode_utf8(s)))
}

fn hex_char(n: u8) -> (c: char)
    requires
        n < 16,
    ensures
        c == hex_digit(n),
{
    if n < 10 {
        (('0' as u8) + n) as char
    } else {
        (('a' as u8) + (n - 10)) as char
    }
}

/// Lower-case hex rendering of a byte sequence.
pub fn to_hex(b: &[u8]) -> (r: String)
    requires
        b@.len() < usize::MAX / 2,
    ensures
        r@ == hex_of(b@),
{
    let mut r = String::new();
    let mut i: usize = 0;
    while i < b.len()
        invariant
            i <= b@.len(),
            b@.len() < usize::MAX / 2,
            r@ =~= hex_of(b@.subrange(0, i as int)),
        decreases b@.len() - i,
    {
        let x = b[i];
        push_char(&mut r, hex_char(x / 16));
        push_char(&mut r, hex_char(x % 16));
        assert(r@ =~= hex_of(b@.subrange(0, i + 1)));
        i = i + 1;
    }
    assert(b@.subrange(0, b@.len() as int) =~= b@);
    r
}

/// The digest of `s`, in the form a digest sidecar holds.
pub fn digest_of(s: &str) -> (r: String)
    ensures
        r@ == digest_hex(s@),
{
    let d = blake2b(s.as_bytes());
    to_hex(d.as_slice())
}

} // verus!
