//! Blobs are kept once, under the hash of their bytes.

use vstd::prelude::*;

verus! {

/// The BLAKE3 digest of bytes.
pub uninterp spec fn blake3_digest(bytes: Seq<u8>) -> Seq<u8>;

/// `blake3::hash`: 32 bytes that depend on the input alone.
#[verifier::external_body]
fn digest(bytes: &[u8]) -> (r: Vec<u8>)
    ensures
        r@ == blake3_digest(bytes@),
        r@.len() == 32,
{
    blake3::hash(bytes).as_bytes().to_vec()
}

/// The key under which a blob is kept: the digest of its bytes.
pub fn blob_key(bytes: &[u8]) -> (r: Vec<u8>)
    ensures
        r@ == blake3_digest(bytes@),
        r@.len() == 32,
{
    digest(bytes)
}

/// The small hexadecimal digit for a number below sixteen.
pub open spec fn small_hex(n: nat) -> char {
    if n < 10 {
        ('0' as u32 + n) as char
    } else {
        ('a' as u32 + (n - 10)) as char
    }
}

/// Bytes in hexadecimal, two small digits each.
pub open spec fn hex_text(bytes: Seq<u8>) -> Seq<char> {
    Seq::new(
        2 * bytes.len(),
        |i: int|
            if i % 2 == 0 {
                small_hex((bytes[i / 2] / 16) as nat)
            } else {
                small_hex((bytes[i / 2] % 16) as nat)
            },
    )
}

fn hex_char(n: u8) -> (r: char)
    requires
        n < 16,
    ensures
        r == small_hex(n as nat),
{
    if n < 10 {
        (48 + n) as char
    } else {
        (87 + n) as char
    }
}

/// See [`hex_text`].
pub fn blob_hash_hex(hash: &[u8]) -> (r: String)
    ensures
        r@ == hex_text(hash@),
{
    let mut out = String::new();
    let mut i: usize = 0;
    while i < hash.len()
        invariant
            i <= hash.len(),
            out@ == hex_text(hash@).take(2 * i),
        decreases hash.len() - i,
    {
        let b: u8 = hash[i];
        let ghost was = out@;
        out.push(hex_char(b / 16));
        out.push(hex_char(b % 16));
        proof {
            let all = hex_text(hash@);
            assert(all[2 * i] == small_hex((b / 16) as nat)) by {
                assert((2 * i) % 2 == 0 && (2 * i) / 2 == i);
            }
            assert(all[2 * i + 1] == small_hex((b % 16) as nat)) by {
                assert((2 * i + 1) % 2 == 1 && (2 * i + 1) / 2 == i);
            }
            assert(all.take(2 * (i + 1)) =~= was.push(all[2 * i]).push(all[2 * i + 1]));
        }
        i += 1;
    }
    assert(hex_text(hash@).take((2 * hash@.len()) as int) =~= hex_text(hash@));
    out
}

/// The length of a blob as the archive reports it; never negative.
pub fn blob_len(reported: i64) -> (r: u64)
    ensures
        r == if reported < 0 {
            0
        } else {
            reported as int
        },
{
    if reported < 0 {
        0
    } else {
        reported as u64
    }
}

} // verus!
