//! The seed hasher: a fixed, documented digest of input text.
//!
//! Callers rely on "same text, same artwork" as a product contract, so the
//! digest must be stable across processes, runs and platforms.  It is built
//! from SHA-256: the digest of a seed string `s` is the 32 bytes of
//! `SHA-256(s)` followed by the 32 bytes of `SHA-256(s + '|')`, 64 bytes in
//! all, so that every generator index stays within range.  Determinism is
//! the contract here, not collision resistance.

use vstd::prelude::*;
use vstd::string::StringExecFns;

use sha2::Digest;

verus! {

/// The 32-byte SHA-256 digest of the UTF-8 encoding of a character
/// sequence.  SHA-256 is a fixed public function of its input alone, so the
/// name stands for one value per input.
pub uninterp spec fn sha256_of(s: Seq<char>) -> Seq<u8>;

/// Relies on the `sha2` crate's `Sha256::digest`: a one-shot SHA-256 of the
/// UTF-8 bytes of `input`, always exactly 32 bytes, depending on the input
/// characters alone.
#[verifier::external_body]
pub fn sha256(input: &str) -> (r: Vec<u8>)
    ensures
        r@ == sha256_of(input@),
        r@.len() == 32,
{
    sha2::Sha256::digest(input.as_bytes()).to_vec()
}

/// The 64 digest bytes derived from seed text `s`: `SHA-256(s)` followed by
/// `SHA-256(s + '|')`.
pub open spec fn digest_bytes(s: Seq<char>) -> Seq<u8> {
    sha256_of(s) + sha256_of(s.push('|'))
}

/// The concatenation of `parts` in order, as one character sequence.
pub open spec fn concat_parts(parts: Seq<String>) -> Seq<char>
    decreases parts.len(),
{
    if parts.len() == 0 {
        Seq::empty()
    } else {
        concat_parts(parts.drop_last()) + parts.last()@
    }
}

/// An immutable fixed-length digest derived once per request from
/// caller-supplied strings; purely derived data, never a credential.
pub struct SeedDigest {
    pub bytes: Vec<u8>,
}

impl SeedDigest {
    /// A digest always holds exactly 64 bytes.
    pub open spec fn wf(self) -> bool {
        self.bytes@.len() == 64
    }

    /// The digest is the canonical digest of seed text `s`.
    pub open spec fn is_digest_of(self, s: Seq<char>) -> bool {
        self.bytes@ == digest_bytes(s)
    }

    /// Derives the digest of the concatenation of `parts`, in caller order.
    /// Pure and total: same parts, same digest, on every platform.
    pub fn of_parts(parts: &Vec<String>) -> (d: SeedDigest)
        ensures
            d.wf(),
            d.is_digest_of(concat_parts(parts@)),
    {
        let mut joined = String::new();
        let n = parts.len();
        let mut i: usize = 0;
        while i < n
            invariant
                i <= n,
                n == parts@.len(),
                joined@ == concat_parts(parts@.take(i as int)),
            decreases n - i,
        {
            joined.append(parts[i].as_str());
            proof {
                assert(parts@.take(i + 1 as int).drop_last() =~= parts@.take(i as int));
                assert(parts@.take(i + 1 as int).last() == parts@[i as int]);
            }
            i = i + 1;
        }
        proof {
            assert(parts@.take(n as int) =~= parts@);
        }
        Self::of_text(joined.as_str())
    }

    /// Derives the digest of one seed string.
    pub fn of_text(text: &str) -> (d: SeedDigest)
        ensures
            d.wf(),
            d.is_digest_of(text@),
    {
        let tail = text.to_owned().concat("|");
        proof {
            reveal_strlit("|");
            assert(tail@ =~= text@.push('|'));
        }
        let mut bytes = sha256(text);
        let mut second = sha256(tail.as_str());
        bytes.append(&mut second);
        SeedDigest { bytes }
    }
}

} // verus!
