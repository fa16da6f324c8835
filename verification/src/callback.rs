use vstd::prelude::*;
use vstd::string::*;
use crate::dec::{parse_u64, parse_u64_spec};

verus! {

/// Free-form per-transaction metadata: ordered key/value pairs. The first
/// binding of a key wins.
pub struct Metadata {
    pub entries: Vec<(String, String)>,
}

impl View for Metadata {
    type V = Seq<(Seq<char>, Seq<char>)>;

    open spec fn view(&self) -> Seq<(Seq<char>, Seq<char>)> {
        self.entries@.map(|i: int, e: (String, String)| (e.0@, e.1@))
    }
}

/// The first value bound to `key`, if any.
pub open spec fn spec_lookup(entries: Seq<(Seq<char>, Seq<char>)>, key: Seq<char>) -> Option<
    Seq<char>,
>
    decreases entries.len(),
{
    if entries.len() == 0 {
        None
    } else if entries[0].0 == key {
        Some(entries[0].1)
    } else {
        spec_lookup(entries.drop_first(), key)
    }
}

impl Metadata {
    pub fn new() -> (r: Metadata)
        ensures
            r@.len() == 0,
    {
        Metadata { entries: Vec::new() }
    }

    /// Appends a binding after any earlier ones.
    pub fn insert(&mut self, key: String, value: String)
        ensures
            final(self)@ == old(self)@.push((key@, value@)),
    {
        let ghost k = key@;
        let ghost v = value@;
        self.entries.push((key, value));
        proof {
            assert(self@ =~= old(self)@.push((k, v)));
        }
    }

    /// The first value bound to `key`, if any.
    pub fn lookup(&self, key: &str) -> (r: Option<&String>)
        ensures
            match r {
                Some(v) => spec_lookup(self@, key@) == Some(v@),
                None => spec_lookup(self@, key@) is None,
            },
    {
        let owned = key.to_owned();
        let mut i: usize = 0;
        proof {
            assert(self@.skip(0) =~= self@);
        }
        while i < self.entries.len()
            invariant
                i <= self.entries@.len(),
                self@.len() == self.entries@.len(),
                owned@ == key@,
                spec_lookup(self@, key@) == spec_lookup(self@.skip(i as int), key@),
            decreases self.entries@.len() - i,
        {
            proof {
                assert(self@.skip(i as int)[0] == self@[i as int]);
                assert(self@[i as int] == (self.entries@[i as int].0@, self.entries@[i as int].1@));
            }
            if self.entries[i].0 == owned {
                proof {
                    assert(spec_lookup(self@.skip(i as int), key@) == Some(self@[i as int].1));
                }
                return Some(&self.entries[i].1);
            }
            proof {
                assert(self@.skip(i as int).drop_first() =~= self@.skip(i as int + 1));
            }
            i += 1;
        }
        None
    }
}

/// One transaction outcome record: hash, submission start time, logical
/// kind, and the error string of a failed submission.
#[derive(Clone, Debug)]
pub struct CacheTx {
    pub tx_hash: Vec<u8>,
    pub start_timestamp: u64,
    pub kind: Option<String>,
    pub error: Option<String>,
}

/// The ghost image of a `CacheTx`.
pub struct CacheTxSpec {
    pub tx_hash: Seq<u8>,
    pub start_timestamp: u64,
    pub kind: Option<Seq<char>>,
    pub error: Option<Seq<char>>,
}

impl View for CacheTx {
    type V = CacheTxSpec;

    open spec fn view(&self) -> CacheTxSpec {
        CacheTxSpec {
            tx_hash: self.tx_hash@,
            start_timestamp: self.start_timestamp,
            kind: match self.kind {
                Some(k) => Some(k@),
                None => None,
            },
            error: match self.error {
                Some(e) => Some(e@),
                None => None,
            },
        }
    }
}

/// Per-transaction hook: a pure decision from the submission outcome to an
/// optional record for the result actor.
pub trait OnTxSent {
    /// The record this strategy produces, if any.
    spec fn tx_record(&self, tx_hash: Seq<u8>, extra: Seq<(Seq<char>, Seq<char>)>) -> Option<
        CacheTxSpec,
    >;

    /// Invoked once per submitted transaction, success or failure alike.
    fn on_tx_sent(&self, tx_hash: &Vec<u8>, extra: &Metadata) -> (r: Option<CacheTx>)
        ensures
            match r {
                Some(c) => self.tx_record(tx_hash@, extra@) == Some(c@),
                None => self.tx_record(tx_hash@, extra@) is None,
            },
    ;
}

/// What a strategy may do once a whole batch has been dispatched.
#[derive(Clone, Copy, PartialEq, Eq, Structural, Debug)]
pub enum BatchAction {
    /// Leave chain timing untouched (measurement runs).
    DoNothing,
    /// Ask the chain-advancing collaborator for one more block.
    AdvanceChain,
}

/// Per-batch hook: a pure decision taken once per completed period.
pub trait OnBatchSent {
    /// The action this strategy takes after a batch.
    spec fn batch_action(&self) -> BatchAction;

    /// Invoked once per completed period.
    fn on_batch_sent(&self) -> (r: BatchAction)
        ensures
            r == self.batch_action(),
    ;
}

/// Strategy that records nothing and never perturbs chain timing.
#[derive(Clone, Copy)]
pub struct NilCallback;

impl OnTxSent for NilCallback {
    open spec fn tx_record(&self, tx_hash: Seq<u8>, extra: Seq<(Seq<char>, Seq<char>)>) -> Option<
        CacheTxSpec,
    > {
        None
    }

    fn on_tx_sent(&self, tx_hash: &Vec<u8>, extra: &Metadata) -> (r: Option<CacheTx>) {
        None
    }
}

impl OnBatchSent for NilCallback {
    open spec fn batch_action(&self) -> BatchAction {
        BatchAction::DoNothing
    }

    fn on_batch_sent(&self) -> (r: BatchAction) {
        BatchAction::DoNothing
    }
}

/// What the logging strategy extracts from the metadata: no record without a
/// parsable start timestamp; kind and error are carried over as found.
pub open spec fn spec_extract(tx_hash: Seq<u8>, extra: Seq<(Seq<char>, Seq<char>)>) -> Option<
    CacheTxSpec,
> {
    match spec_lookup(extra, "start_timestamp"@) {
        None => None,
        Some(ts) => match parse_u64_spec(ts) {
            None => None,
            Some(t) => Some(
                CacheTxSpec {
                    tx_hash,
                    start_timestamp: t,
                    kind: spec_lookup(extra, "kind"@),
                    error: spec_lookup(extra, "error"@),
                },
            ),
        },
    }
}

/// Strategy that builds a `CacheTx` from each submission and may drive a
/// controlled test chain forward after each batch.
pub struct LogCallback {
    /// Whether batch completion should advance the chain.
    pub send_fcu: bool,
    /// Whether a chain-advancing collaborator is attached.
    pub has_auth_provider: bool,
}

impl LogCallback {
    pub fn new(send_fcu: bool, has_auth_provider: bool) -> (r: LogCallback)
        ensures
            r.send_fcu == send_fcu,
            r.has_auth_provider == has_auth_provider,
    {
        LogCallback { send_fcu, has_auth_provider }
    }
}

impl OnTxSent for LogCallback {
    open spec fn tx_record(&self, tx_hash: Seq<u8>, extra: Seq<(Seq<char>, Seq<char>)>) -> Option<
        CacheTxSpec,
    > {
        spec_extract(tx_hash, extra)
    }

    fn on_tx_sent(&self, tx_hash: &Vec<u8>, extra: &Metadata) -> (r: Option<CacheTx>) {
        let ts_str = match extra.lookup("start_timestamp") {
            Some(v) => v,
            None => {
                return None;
            },
        };
        let start_timestamp = match parse_u64(ts_str.as_str()) {
            Some(t) => t,
            None => {
                return None;
            },
        };
        let kind = match extra.lookup("kind") {
            Some(v) => Some(v.clone()),
            None => None,
        };
        let error = match extra.lookup("error") {
            Some(v) => Some(v.clone()),
            None => None,
        };
        Some(
            CacheTx {
                tx_hash: vstd::slice::slice_to_vec(tx_hash.as_slice()),
                start_timestamp,
                kind,
                error,
            },
        )
    }
}

impl OnBatchSent for LogCallback {
    open spec fn batch_action(&self) -> BatchAction {
        if self.send_fcu && self.has_auth_provider {
            BatchAction::AdvanceChain
        } else {
            BatchAction::DoNothing
        }
    }

    fn on_batch_sent(&self) -> (r: BatchAction) {
        if self.send_fcu && self.has_auth_provider {
            BatchAction::AdvanceChain
        } else {
            BatchAction::DoNothing
        }
    }
}

} // verus!
