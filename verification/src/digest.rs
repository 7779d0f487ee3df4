//! SHA-256 content digests, the addresses of every blob the registry serves.

use sha2::{Digest, Sha256};
use vstd::prelude::*;

use crate::text::{hex_digit, hex_lower};

verus! {

/// The SHA-256 hash of a byte string, as the `sha2` crate computes it.
pub uninterp spec fn sha256(data: Seq<u8>) -> Seq<u8>;

/// Calls `sha2::Sha256::digest` on `data`. Trusted: the result is the
/// 32-byte SHA-256 hash of exactly these bytes, the same for the same bytes.
#[verifier::external_body]
pub(crate) fn sha256_bytes(data: &[u8]) -> (hash: Vec<u8>)
    ensures
        hash@ == sha256(data@),
        hash@.len() == 32,
{
    Sha256::digest(data).to_vec()
}

/// A digest in OCI form: the algorithm, a colon, and the lowercase hex hash.
pub open spec fn digest_text(hash: Seq<u8>) -> Seq<char> {
    "sha256:"@ + hex_lower(hash)
}

/// The OCI digest of a byte string.
pub open spec fn digest_of(data: Seq<u8>) -> Seq<char> {
    digest_text(sha256(data))
}

/// Two hex digits per byte.
pub proof fn lemma_hex_lower_len(bytes: Seq<u8>)
    ensures
        hex_lower(bytes).len() == 2 * bytes.len(),
    decreases bytes.len(),
{
    if bytes.len() > 0 {
        lemma_hex_lower_len(bytes.drop_last());
    }
}

/// Different hex digits for different nibbles.
proof fn lemma_hex_digit_injective(a: int, b: int)
    requires
        0 <= a < 16,
        0 <= b < 16,
        hex_digit(a) == hex_digit(b),
    ensures
        a == b,
{
}

/// Lowercase hex is injective: equal encodings come from equal bytes.
pub proof fn lemma_hex_lower_injective(a: Seq<u8>, b: Seq<u8>)
    requires
        hex_lower(a) == hex_lower(b),
    ensures
        a == b,
    decreases a.len(),
{
    lemma_hex_lower_len(a);
    lemma_hex_lower_len(b);
    if a.len() > 0 {
        let ha = hex_lower(a.drop_last());
        let hb = hex_lower(b.drop_last());
        lemma_hex_lower_len(a.drop_last());
        lemma_hex_lower_len(b.drop_last());
        let x = a.last();
        let y = b.last();
        let n = ha.len() as int;
        assert(hex_lower(a)[n] == hex_digit((x / 16) as int));
        assert(hex_lower(b)[n] == hex_digit((y / 16) as int));
        assert(hex_lower(a)[n + 1] == hex_digit((x % 16) as int));
        assert(hex_lower(b)[n + 1] == hex_digit((y % 16) as int));
        lemma_hex_digit_injective((x / 16) as int, (y / 16) as int);
        lemma_hex_digit_injective((x % 16) as int, (y % 16) as int);
        assert(x == y);
        assert(ha =~= hex_lower(a).subrange(0, n));
        assert(hb =~= hex_lower(b).subrange(0, n));
        lemma_hex_lower_injective(a.drop_last(), b.drop_last());
        assert(a =~= a.drop_last().push(x));
        assert(b =~= b.drop_last().push(y));
    }
}

/// Digests name hashes one-to-one: two byte strings with the same digest
/// have the same SHA-256 hash.
pub proof fn lemma_digest_names_hash(a: Seq<u8>, b: Seq<u8>)
    requires
        digest_of(a) == digest_of(b),
    ensures
        sha256(a) == sha256(b),
{
    let p = "sha256:"@;
    assert(hex_lower(sha256(a)) =~= digest_of(a).subrange(p.len() as int, digest_of(a).len() as int));
    assert(hex_lower(sha256(b)) =~= digest_of(b).subrange(p.len() as int, digest_of(b).len() as int));
    lemma_hex_lower_injective(sha256(a), sha256(b));
}

} // verus!
