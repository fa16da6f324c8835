use vstd::prelude::*;
use vstd::string::*;
use crate::seed::{spec_derive_key, RandSeed};

verus! {

/// One derived sender identity: its 32-byte signing key. Owned by the pool
/// that derived it; never persisted.
pub struct SignerIdentity {
    pub key: Vec<u8>,
}

impl SignerIdentity {
    pub open spec fn wf(&self) -> bool {
        self.key@.len() == 32
    }
}

/// An ordered pool of signers derived from one seed and pool name.
pub struct SignerStore {
    pub signers: Vec<SignerIdentity>,
}

impl SignerStore {
    /// Every signer holds exactly the key derived for its position.
    pub open spec fn derived_from(&self, seed: Seq<u8>, pool: Seq<u8>) -> bool {
        forall|i: int|
            0 <= i < self.signers@.len() ==> (#[trigger] self.signers@[i]).key@ == spec_derive_key(
                seed,
                pool,
                i as u64,
            )
    }

    pub open spec fn wf(&self) -> bool {
        forall|i: int| 0 <= i < self.signers@.len() ==> (#[trigger] self.signers@[i]).wf()
    }

    /// Derives `count` signers for (seed, pool name), in index order.
    pub fn new_random(count: usize, seed: &RandSeed, pool_name: &str) -> (r: SignerStore)
        ensures
            r.signers@.len() == count,
            r.derived_from(seed@, pool_name.spec_bytes()),
            r.wf(),
    {
        let mut signers: Vec<SignerIdentity> = Vec::new();
        let mut i: usize = 0;
        while i < count
            invariant
                i <= count,
                signers@.len() == i,
                forall|j: int|
                    0 <= j < i ==> (#[trigger] signers@[j]).key@ == spec_derive_key(
                        seed@,
                        pool_name.spec_bytes(),
                        j as u64,
                    ),
                forall|j: int| 0 <= j < i ==> (#[trigger] signers@[j]).wf(),
            decreases count - i,
        {
            signers.push(SignerIdentity { key: seed.derive_signing_key(pool_name, i) });
            i += 1;
        }
        SignerStore { signers }
    }

    pub fn len(&self) -> (r: usize)
        ensures
            r == self.signers@.len(),
    {
        self.signers.len()
    }

    /// The signer assigned round-robin to submission `i`.
    pub fn round_robin(&self, i: usize) -> (r: &SignerIdentity)
        requires
            self.signers@.len() > 0,
        ensures
            *r == self.signers@[i as int % self.signers@.len() as int],
    {
        &self.signers[i % self.signers.len()]
    }
}

/// The first pool bound to `name` among the agents, if any.
pub open spec fn spec_find_agent(agents: Seq<(String, SignerStore)>, name: Seq<char>) -> Option<
    SignerStore,
>
    decreases agents.len(),
{
    if agents.len() == 0 {
        None
    } else if agents[0].0@ == name {
        Some(agents[0].1)
    } else {
        spec_find_agent(agents.drop_first(), name)
    }
}

/// Named signer pools: the sender identities available to a run, read-only
/// once the run starts.
pub struct AgentStore {
    pub agents: Vec<(String, SignerStore)>,
}

impl AgentStore {
    pub fn new() -> (r: AgentStore)
        ensures
            r.agents@.len() == 0,
    {
        AgentStore { agents: Vec::new() }
    }

    /// Binds a pool under a name, after any earlier bindings.
    pub fn add_agent(&mut self, name: &str, store: SignerStore)
        ensures
            final(self).agents@.len() == old(self).agents@.len() + 1,
            final(self).agents@[old(self).agents@.len() as int].0@ == name@,
            final(self).agents@[old(self).agents@.len() as int].1 == store,
            forall|i: int|
                0 <= i < old(self).agents@.len() ==> final(self).agents@[i] == old(
                    self,
                ).agents@[i],
    {
        self.agents.push((name.to_owned(), store));
    }

    /// The first pool bound to `name`, if any.
    pub fn get_agent(&self, name: &str) -> (r: Option<&SignerStore>)
        ensures
            match r {
                Some(s) => spec_find_agent(self.agents@, name@) == Some(*s),
                None => spec_find_agent(self.agents@, name@) is None,
            },
    {
        let owned = name.to_owned();
        let mut i: usize = 0;
        proof {
            assert(self.agents@.skip(0) =~= self.agents@);
        }
        while i < self.agents.len()
            invariant
                i <= self.agents@.len(),
                owned@ == name@,
                spec_find_agent(self.agents@, name@) == spec_find_agent(
                    self.agents@.skip(i as int),
                    name@,
                ),
        decreases self.agents@.len() - i,
        {
            proof {
                assert(self.agents@.skip(i as int)[0] == self.agents@[i as int]);
            }
            if self.agents[i].0 == owned {
                proof {
                    assert(self.agents@[i as int].0@ == owned@);
                    assert(owned@ == name@);
                    assert(self.agents@.skip(i as int).len() > 0);
                    assert(self.agents@.skip(i as int)[0].0@ == name@);
                    assert(spec_find_agent(self.agents@.skip(i as int), name@) == Some(
                        self.agents@[i as int].1,
                    ));
                }
                return Some(&self.agents[i].1);
            }
            proof {
                assert(self.agents@.skip(i as int).drop_first() =~= self.agents@.skip(
                    i as int + 1,
                ));
            }
            i += 1;
        }
        None
    }

    pub fn len(&self) -> (r: usize)
        ensures
            r == self.agents@.len(),
    {
        self.agents.len()
    }
}

} // verus!
