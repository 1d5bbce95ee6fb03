//! Deterministic content checksums for drift detection: the FNV-1a
//! 64-bit hash over a string's UTF-8 bytes, rendered as sixteen hex
//! digits. Chosen for stability and portability, not security.

use vstd::prelude::*;

use crate::strutil::{hex16, u64_to_hex16};

verus! {

/// The FNV-1a offset basis.
pub open spec fn fnv_offset() -> u64 {
    0xcbf29ce484222325
}

/// The FNV-1a prime.
pub open spec fn fnv_prime() -> u64 {
    0x100000001b3
}

/// One FNV-1a step: fold a byte into the running hash.
pub open spec fn fnv1a_step(hash: u64, byte: u8) -> u64 {
    vstd::wrapping::u64_specs::wrapping_mul(hash ^ (byte as u64), fnv_prime())
}

/// The FNV-1a hash of the bytes from `acc`, front to back.
pub open spec fn fnv1a_from(acc: u64, bytes: Seq<u8>) -> u64
    decreases bytes.len(),
{
    if bytes.len() == 0 {
        acc
    } else {
        fnv1a_from(fnv1a_step(acc, bytes[0]), bytes.drop_first())
    }
}

/// The FNV-1a 64-bit hash of a byte sequence.
pub open spec fn fnv1a(bytes: Seq<u8>) -> u64 {
    fnv1a_from(fnv_offset(), bytes)
}

/// The checksum of a text: FNV-1a over its UTF-8 bytes, in hex.
pub open spec fn spec_checksum(text: Seq<char>) -> Seq<char> {
    hex16(fnv1a(vstd::utf8::encode_utf8(text)))
}

/// Computes the deterministic content checksum of a text.
pub fn simple_checksum(content: &str) -> (r: String)
    ensures
        r@ == spec_checksum(content@),
{
    let bytes = content.as_bytes_vec();
    let ghost bs = vstd::utf8::encode_utf8(content@);
    assert(bytes@ == bs);
    let mut hash: u64 = 0xcbf29ce484222325;
    let mut i: usize = 0;
    proof {
        assert(bs.subrange(0, bs.len() as int) =~= bs);
    }
    while i < bytes.len()
        invariant
            bytes@ == bs,
            i <= bs.len(),
            fnv1a(bs) == fnv1a_from(hash, bs.subrange(i as int, bs.len() as int)),
        decreases bs.len() - i,
    {
        let ghost tail = bs.subrange(i as int, bs.len() as int);
        assert(tail[0] == bs[i as int]);
        hash = hash ^ (bytes[i] as u64);
        hash = hash.wrapping_mul(0x100000001b3);
        proof {
            assert(tail.drop_first() =~= bs.subrange(i + 1, bs.len() as int));
        }
        i = i + 1;
    }
    u64_to_hex16(hash)
}

} // verus!
