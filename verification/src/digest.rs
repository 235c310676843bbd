//! SHA-256 of a downloaded file, written in hexadecimal.

use sha2::{Digest, Sha256};
use vstd::prelude::*;

verus! {

/// The SHA-256 digest of the bytes.
pub uninterp spec fn sha256(data: Seq<u8>) -> Seq<u8>;

/// Calls `sha2::Sha256::digest`. The digest has 32 bytes and depends on the
/// data alone; which bytes they are is not said.
#[verifier::external_body]
fn sha256_of(data: &[u8]) -> (r: Vec<u8>)
    ensures
        r@ == sha256(data@),
        r@.len() == 32,
{
    Sha256::digest(data).to_vec()
}

/// The lowercase hexadecimal digit for a number below 16.
pub open spec fn hex_digit(n: int) -> char {
    if n < 10 {
        (48 + n) as char
    } else {
        (87 + n) as char
    }
}

/// Bytes in lowercase hexadecimal, two digits each.
pub open spec fn hex(data: Seq<u8>) -> Seq<char>
    decreases data.len(),
{
    if data.len() == 0 {
        Seq::empty()
    } else {
        hex(data.drop_last()).push(hex_digit(data.last() as int / 16)).push(
            hex_digit(data.last() as int % 16),
        )
    }
}

fn hex_char(n: u8) -> (r: char)
    requires
        n < 16,
    ensures
        r == hex_digit(n as int),
{
    if n < 10 {
        (48 + n) as char
    } else {
        (87 + n) as char
    }
}

/// Bytes in lowercase hexadecimal, two digits each.
pub fn to_hex(data: &[u8]) -> (r: String)
    ensures
        r@ == hex(data@),
{
    let mut out = String::new();
    let mut i: usize = 0;
    while i < data.len()
        invariant
            i <= data@.len(),
            out@ == hex(data@.take(i as int)),
        decreases data@.len() - i,
    {
        proof {
            assert(data@.take(i + 1).drop_last() =~= data@.take(i as int));
        }
        out.push(hex_char(data[i] / 16));
        out.push(hex_char(data[i] % 16));
        i += 1;
    }
    assert(data@.take(data@.len() as int) =~= data@);
    out
}

/// The SHA-256 digest of a file's bytes, in lowercase hexadecimal.
pub fn file_digest(data: &[u8]) -> (r: String)
    ensures
        r@ == hex(sha256(data@)),
{
    let digest = sha256_of(data);
    to_hex(digest.as_slice())
}

/// Two digits for every byte.
pub proof fn law_hex_length(data: Seq<u8>)
    ensures
        hex(data).len() == 2 * data.len(),
    decreases data.len(),
{
    if data.len() > 0 {
        law_hex_length(data.drop_last());
    }
}

/// Different rows of bytes have different hexadecimal texts.
pub proof fn law_hex_is_faithful(a: Seq<u8>, b: Seq<u8>)
    requires
        hex(a) == hex(b),
    ensures
        a == b,
    decreases a.len(),
{
    law_hex_length(a);
    law_hex_length(b);
    if a.len() > 0 {
        let n = hex(a).len() as int;
        let x = a.last();
        let y = b.last();
        assert(hex(a)[n - 1] == hex_digit(x as int % 16));
        assert(hex(b)[n - 1] == hex_digit(y as int % 16));
        assert(hex(a)[n - 2] == hex_digit(x as int / 16));
        assert(hex(b)[n - 2] == hex_digit(y as int / 16));
        assert(hex(a).take(n - 2) =~= hex(a.drop_last()));
        assert(hex(b).take(n - 2) =~= hex(b.drop_last()));
        law_hex_is_faithful(a.drop_last(), b.drop_last());
        assert(a =~= a.drop_last().push(x));
        assert(b =~= b.drop_last().push(y));
    } else {
        assert(a =~= b);
    }
}

/// Each byte is written as two digits of `0123456789abcdef`, the higher one
/// first.
pub proof fn law_hex_digits(data: Seq<u8>, i: int)
    requires
        0 <= i < data.len(),
    ensures
        hex(data).len() == 2 * data.len(),
        hex(data)[2 * i] == "0123456789abcdef"@[data[i] as int / 16],
        hex(data)[2 * i + 1] == "0123456789abcdef"@[data[i] as int % 16],
    decreases data.len(),
{
    reveal_strlit("0123456789abcdef");
    law_hex_length(data);
    law_hex_length(data.drop_last());
    if i < data.len() - 1 {
        law_hex_digits(data.drop_last(), i);
        assert(data.drop_last()[i] == data[i]);
    }
}

} // verus!
