use vstd::prelude::*;
use vstd::string::*;
use crate::crypto::{address_of_key, key_address};
use crate::errors::ContenderError;
use crate::seed::{spec_derive_key, RandSeed};

verus! {

/// An administrative request against a deployment: listing derived account
/// addresses, reporting the latest run id, or showing the seed.
#[derive(Debug)]
pub enum AdminCommand {
    /// Print the addresses derived for a pool.
    Accounts {
        /// The pool to derive accounts for.
        from_pool: String,
        /// How many signers to derive.
        num_signers: usize,
        /// Whether to ask for confirmation before showing sensitive data.
        confirm: bool,
    },
    /// Print the latest assigned run id.
    LatestRunId,
    /// Print the seed itself.
    Seed,
}

/// The addresses of the first `num_signers` accounts derived for a pool
/// (the pure half of the accounts listing). Fails exactly when some derived
/// key is not a valid secp256k1 scalar.
pub fn accounts_for_pool(seed: &RandSeed, pool: &str, num_signers: usize) -> (r: Result<
    Vec<Vec<u8>>,
    ContenderError,
>)
    ensures
        match r {
            Ok(v) => v@.len() == num_signers && forall|i: int|
                0 <= i < num_signers ==> address_of_key(
                    spec_derive_key(seed@, pool.spec_bytes(), i as u64),
                ) == Some((#[trigger] v@[i])@),
            Err(e) => (exists|i: int|
                0 <= i < num_signers && address_of_key(
                    #[trigger] spec_derive_key(seed@, pool.spec_bytes(), i as u64),
                ) is None) && e.spec_label() == "Failed to create signing key"@,
        },
{
    let mut out: Vec<Vec<u8>> = Vec::new();
    let mut i: usize = 0;
    while i < num_signers
        invariant
            i <= num_signers,
            out@.len() == i,
            forall|j: int|
                0 <= j < i ==> address_of_key(spec_derive_key(seed@, pool.spec_bytes(), j as u64))
                    == Some((#[trigger] out@[j])@),
        decreases num_signers - i,
    {
        let key = seed.derive_signing_key(pool, i);
        match key_address(&key) {
            Some(addr) => {
                out.push(addr);
            },
            None => {
                return Err(
                    ContenderError::AdminError(
                        "Failed to create signing key",
                        String::from_str("derived bytes are not a valid secp256k1 scalar"),
                    ),
                );
            },
        }
        i += 1;
    }
    Ok(out)
}

} // verus!
