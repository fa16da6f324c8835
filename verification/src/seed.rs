use vstd::prelude::*;
use vstd::string::*;
use crate::crypto::{keccak256_bytes, keccak_of};
use crate::errors::ContenderError;
use crate::hex::{hex_decode, hex_decoded, valid_hex};
use vstd::bytes::{lemma_auto_spec_u64_to_from_le_bytes, spec_u64_to_le_bytes, u64_to_le_bytes};

verus! {

/// ASCII whitespace, as trimmed from the edges of a seed file.
pub open spec fn is_ws(b: u8) -> bool {
    b == 32 || b == 9 || b == 10 || b == 13
}

/// The byte string without its leading ASCII whitespace.
pub open spec fn trim_start(s: Seq<u8>) -> Seq<u8>
    decreases s.len(),
{
    if s.len() > 0 && is_ws(s[0]) {
        trim_start(s.drop_first())
    } else {
        s
    }
}

/// The byte string without its trailing ASCII whitespace.
pub open spec fn trim_end(s: Seq<u8>) -> Seq<u8>
    decreases s.len(),
{
    if s.len() > 0 && is_ws(s.last()) {
        trim_end(s.drop_last())
    } else {
        s
    }
}

/// The byte string without ASCII whitespace on either edge.
pub open spec fn trimmed(s: Seq<u8>) -> Seq<u8> {
    trim_end(trim_start(s))
}

fn is_ws_exec(b: u8) -> (r: bool)
    ensures
        r == is_ws(b),
{
    b == 32 || b == 9 || b == 10 || b == 13
}

/// Copies the input without ASCII whitespace on either edge.
pub fn trim_ascii(s: &[u8]) -> (r: Vec<u8>)
    ensures
        r@ == trimmed(s@),
{
    let len: usize = s.len();
    let mut start: usize = 0;
    proof {
        assert(s@.skip(0) =~= s@);
    }
    while start < len && is_ws_exec(s[start])
        invariant
            len == s@.len(),
            start <= len,
            trim_start(s@) == trim_start(s@.skip(start as int)),
        decreases len - start,
    {
        proof {
            assert(s@.skip(start as int).drop_first() =~= s@.skip(start as int + 1));
        }
        start += 1;
    }
    proof {
        assert(trim_start(s@) == s@.skip(start as int));
    }
    let mut end: usize = len;
    while end > start && is_ws_exec(s[end - 1])
        invariant
            len == s@.len(),
            start <= end <= len,
            trim_start(s@) == s@.skip(start as int),
            trim_end(s@.skip(start as int)) == trim_end(s@.subrange(start as int, end as int)),
        decreases end,
    {
        proof {
            assert(s@.subrange(start as int, end as int).drop_last() =~= s@.subrange(
                start as int,
                end as int - 1,
            ));
        }
        end -= 1;
    }
    proof {
        assert(trimmed(s@) == s@.subrange(start as int, end as int));
    }
    let mut out: Vec<u8> = Vec::new();
    let mut i: usize = start;
    while i < end
        invariant
            len == s@.len(),
            start <= i <= end <= len,
            out@ == s@.subrange(start as int, i as int),
        decreases end - i,
    {
        out.push(s[i]);
        proof {
            assert(out@ =~= s@.subrange(start as int, i as int + 1));
        }
        i += 1;
    }
    out
}

/// A deterministic seed: the root secret from which every signer in every
/// pool is derived. Never empty.
pub struct RandSeed {
    seed: Vec<u8>,
}

impl View for RandSeed {
    type V = Seq<u8>;

    closed spec fn view(&self) -> Seq<u8> {
        self.seed@
    }
}

/// The byte string hashed to derive the key for (seed, pool, index): the seed
/// bytes, then the pool-name bytes, then the index in little-endian order.
pub open spec fn spec_derive_input(seed: Seq<u8>, pool: Seq<u8>, index: u64) -> Seq<u8> {
    seed + pool + spec_u64_to_le_bytes(index)
}

/// The signing key derived for (seed, pool, index).
pub open spec fn spec_derive_key(seed: Seq<u8>, pool: Seq<u8>, index: u64) -> Seq<u8> {
    keccak_of(spec_derive_input(seed, pool, index))
}

impl RandSeed {
    /// A seed is well-formed when it holds at least one byte.
    pub open spec fn wf(&self) -> bool {
        self@.len() > 0
    }

    /// Builds a seed from raw bytes.
    pub fn seed_from_bytes(b: &[u8]) -> (r: RandSeed)
        requires
            b@.len() > 0,
        ensures
            r@ == b@,
            r.wf(),
    {
        RandSeed { seed: vstd::slice::slice_to_vec(b) }
    }

    /// Parses seed-file contents: trims ASCII whitespace, decodes the hex,
    /// and refuses an empty result. Succeeds exactly on a file whose trimmed
    /// contents are valid, non-empty hex.
    pub fn parse_seed_file(contents: &[u8]) -> (r: Result<RandSeed, ContenderError>)
        ensures
            match r {
                Ok(seed) => valid_hex(trimmed(contents@)) && hex_decoded(trimmed(contents@)).len()
                    > 0 && seed@ == hex_decoded(trimmed(contents@)) && seed.wf(),
                Err(e) => (!valid_hex(trimmed(contents@)) && e.spec_label()
                    == "Invalid hex data in seed file"@) || (valid_hex(trimmed(contents@))
                    && hex_decoded(trimmed(contents@)).len() == 0 && e.spec_label()
                    == "Empty seed file"@),
            },
    {
        let t = trim_ascii(contents);
        let decoded = match hex_decode(t.as_slice()) {
            Some(d) => d,
            None => {
                return Err(
                    ContenderError::AdminError(
                        "Invalid hex data in seed file",
                        String::from_str("seed must be a hex-encoded byte string"),
                    ),
                );
            },
        };
        if decoded.len() == 0 {
            return Err(
                ContenderError::AdminError(
                    "Empty seed file",
                    String::from_str("seed must hold at least one byte"),
                ),
            );
        }
        Ok(RandSeed { seed: decoded })
    }

    /// Parses a seed from a hex string, as `parse_seed_file` does.
    pub fn seed_from_str(s: &str) -> (r: Result<RandSeed, ContenderError>)
        ensures
            match r {
                Ok(seed) => valid_hex(trimmed(s.spec_bytes())) && hex_decoded(
                    trimmed(s.spec_bytes()),
                ).len() > 0 && seed@ == hex_decoded(trimmed(s.spec_bytes())) && seed.wf(),
                Err(e) => (!valid_hex(trimmed(s.spec_bytes())) && e.spec_label()
                    == "Invalid hex data in seed file"@) || (valid_hex(trimmed(s.spec_bytes()))
                    && hex_decoded(trimmed(s.spec_bytes())).len() == 0 && e.spec_label()
                    == "Empty seed file"@),
            },
    {
        RandSeed::parse_seed_file(s.as_bytes())
    }

    /// The seed bytes, for display or persistence by the caller.
    pub fn as_bytes(&self) -> (r: &Vec<u8>)
        ensures
            r@ == self@,
    {
        &self.seed
    }

    /// Derives the signing key for one (pool, index) slot: the Keccak-256
    /// digest of seed, pool name and index. Deterministic, 32 bytes.
    pub fn derive_signing_key(&self, pool: &str, index: usize) -> (r: Vec<u8>)
        ensures
            r@ == spec_derive_key(self@, pool.spec_bytes(), index as u64),
            r@.len() == 32,
    {
        let mut input: Vec<u8> = vstd::slice::slice_to_vec(self.seed.as_slice());
        let mut pool_bytes: Vec<u8> = vstd::slice::slice_to_vec(pool.as_bytes());
        input.append(&mut pool_bytes);
        let mut index_bytes: Vec<u8> = u64_to_le_bytes(index as u64);
        input.append(&mut index_bytes);
        keccak256_bytes(&input)
    }
}

/// Determinism: the derived key is a function of seed, pool name and index
/// alone; two derivations from the same inputs are byte-identical.
pub proof fn lemma_derive_deterministic(
    seed: Seq<u8>,
    pool: Seq<u8>,
    index: u64,
    k1: Seq<u8>,
    k2: Seq<u8>,
)
    requires
        k1 == spec_derive_key(seed, pool, index),
        k2 == spec_derive_key(seed, pool, index),
    ensures
        k1 == k2,
{
}

/// Distinct indices hash distinct derivation inputs for a fixed seed and
/// pool: the two derived keys collide only if Keccak-256 itself collides.
pub proof fn lemma_derive_input_distinct(seed: Seq<u8>, pool: Seq<u8>, i: u64, j: u64)
    requires
        i != j,
    ensures
        spec_derive_input(seed, pool, i) != spec_derive_input(seed, pool, j),
{
    lemma_auto_spec_u64_to_from_le_bytes();
    let a = spec_derive_input(seed, pool, i);
    let b = spec_derive_input(seed, pool, j);
    let l = (seed.len() + pool.len()) as int;
    if a == b {
        assert(a.subrange(l, l + 8) =~= spec_u64_to_le_bytes(i));
        assert(b.subrange(l, l + 8) =~= spec_u64_to_le_bytes(j));
        assert(spec_u64_to_le_bytes(i) == spec_u64_to_le_bytes(j));
        assert(vstd::bytes::spec_u64_from_le_bytes(spec_u64_to_le_bytes(i)) == i);
        assert(vstd::bytes::spec_u64_from_le_bytes(spec_u64_to_le_bytes(j)) == j);
        assert(false);
    }
}

} // verus!
