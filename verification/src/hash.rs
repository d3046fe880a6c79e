//! SHA-256 digests and their hexadecimal text.

use sha2::Digest;
use vstd::prelude::*;
use vstd::string::*;

verus! {

/// What `sha2::Sha256::digest` returns for some bytes.
pub uninterp spec fn sha256_digest(bytes: Seq<u8>) -> Seq<u8>;

/// `sha2::Sha256::digest`: the 32 bytes of the SHA-256 digest.
#[verifier::external_body]
fn sha256(bytes: &[u8]) -> (r: Vec<u8>)
    ensures
        r@ == sha256_digest(bytes@),
        r@.len() == 32,
{
    sha2::Sha256::digest(bytes).to_vec()
}

/// The hexadecimal digit of a number below sixteen.
pub open spec fn hex_digit(d: int) -> char {
    if d < 10 {
        (48 + d) as char
    } else {
        (87 + d) as char
    }
}

/// Bytes in lowercase hexadecimal, two digits each.
pub open spec fn hex_text(bytes: Seq<u8>) -> Seq<char> {
    Seq::new(
        2 * bytes.len(),
        |i: int|
            if i % 2 == 0 {
                hex_digit(bytes[i / 2] as int / 16)
            } else {
                hex_digit(bytes[i / 2] as int % 16)
            },
    )
}

fn hex_char(d: u8) -> (r: char)
    requires
        d < 16,
    ensures
        r == hex_digit(d as int),
{
    if d < 10 {
        (48 + d) as char
    } else {
        (87 + d) as char
    }
}

/// The first `n` bytes in lowercase hexadecimal.
fn to_hex(bytes: &Vec<u8>, n: usize) -> (r: String)
    requires
        n <= bytes@.len(),
    ensures
        r@ == hex_text(bytes@.take(n as int)),
{
    let mut s = String::new();
    let mut i: usize = 0;
    while i < n
        invariant
            i <= n <= bytes@.len(),
            s@ == hex_text(bytes@.take(i as int)),
        decreases n - i,
    {
        let b: u8 = bytes[i];
        s.push(hex_char(b / 16));
        s.push(hex_char(b % 16));
        assert(s@ =~= hex_text(bytes@.take(i + 1)));
        i = i + 1;
    }
    s
}

/// The SHA-256 digest of a text's UTF-8 bytes, in hexadecimal.
pub open spec fn full_hash(s: Seq<char>) -> Seq<char> {
    hex_text(sha256_digest(vstd::utf8::encode_utf8(s)))
}

/// The first sixteen hexadecimal digits of the SHA-256 digest of a text's UTF-8 bytes.
pub open spec fn short_hash(s: Seq<char>) -> Seq<char> {
    hex_text(sha256_digest(vstd::utf8::encode_utf8(s)).take(8))
}

/// The SHA-256 digest of a text, in hexadecimal.
pub fn hash_text(s: &str) -> (r: String)
    ensures
        r@ == full_hash(s@),
        r@.len() == 64,
{
    let d = sha256(s.as_bytes());
    assert(d@.take(32) =~= d@);
    to_hex(&d, 32)
}

/// Sixteen lowercase hexadecimal digits.
pub open spec fn is_short_hash(s: Seq<char>) -> bool {
    &&& s.len() == 16
    &&& forall|k: int| 0 <= k < s.len() ==> '0' <= #[trigger] s[k] <= '9' || 'a' <= s[k] <= 'f'
}

/// The first sixteen hexadecimal digits of a text's SHA-256 digest.
pub fn hash_prefix(s: &str) -> (r: String)
    ensures
        r@ == short_hash(s@),
        is_short_hash(r@),
{
    to_hex(&sha256(s.as_bytes()), 8)
}

} // verus!
