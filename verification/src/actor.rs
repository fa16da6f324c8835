use vstd::prelude::*;
use vstd::string::*;
use crate::callback::{CacheTx, CacheTxSpec};
use crate::errors::ContenderError;

verus! {

/// The persisted aggregate of one run's outcome records.
pub struct RunRecord {
    pub run_id: u64,
    pub txs: Vec<CacheTx>,
}

/// Persisted run outcomes, one record list per run id. Run ids are assigned
/// 1, 2, ... in order and never reused.
pub struct RunStore {
    runs: Vec<RunRecord>,
}

impl RunStore {
    /// Run ids are exactly 1..=len, in order.
    pub closed spec fn wf(&self) -> bool {
        forall|i: int| 0 <= i < self.runs@.len() ==> (#[trigger] self.runs@[i]).run_id == i + 1
    }

    /// The latest assigned run id.
    pub closed spec fn spec_num_runs(&self) -> nat {
        self.runs@.len()
    }

    /// The records flushed under `run_id`, in arrival order; empty for an
    /// unassigned id.
    pub closed spec fn run_txs(&self, run_id: u64) -> Seq<CacheTxSpec> {
        if 1 <= run_id <= self.runs@.len() {
            self.runs@[run_id as int - 1].txs@.map(|i: int, t: CacheTx| t@)
        } else {
            Seq::<CacheTxSpec>::empty()
        }
    }

    pub fn new() -> (r: RunStore)
        ensures
            r.wf(),
            r.spec_num_runs() == 0,
    {
        RunStore { runs: Vec::new() }
    }

    /// The latest assigned run id (the number of runs begun).
    pub fn num_runs(&self) -> (r: u64)
        ensures
            r == self.spec_num_runs(),
    {
        self.runs.len() as u64
    }

    /// Begins a new run: allocates the next run id, one above the latest.
    /// Every run id ever handed out is distinct.
    pub fn begin_run(&mut self) -> (run_id: u64)
        requires
            old(self).wf(),
            old(self).spec_num_runs() < u64::MAX,
        ensures
            final(self).wf(),
            run_id == old(self).spec_num_runs() + 1,
            final(self).spec_num_runs() == run_id,
            final(self).run_txs(run_id) == Seq::<CacheTxSpec>::empty(),
            forall|m: u64| m != run_id ==> final(self).run_txs(m) == old(self).run_txs(m),
    {
        let id = self.runs.len() as u64 + 1;
        self.runs.push(RunRecord { run_id: id, txs: Vec::new() });
        proof {
            assert(self.run_txs(id) =~= Seq::<CacheTxSpec>::empty());
            assert forall|m: u64| m != id implies self.run_txs(m) =~= old(self).run_txs(m) by {}
        }
        id
    }

    /// Inserts one record under an assigned run id. Run isolation: every
    /// other run's records are left exactly as they were. Fails exactly on
    /// an unassigned id.
    pub fn insert_run_tx(&mut self, run_id: u64, tx: CacheTx) -> (r: Result<(), ContenderError>)
        requires
            old(self).wf(),
        ensures
            final(self).wf(),
            final(self).spec_num_runs() == old(self).spec_num_runs(),
            match r {
                Ok(()) => 1 <= run_id <= old(self).spec_num_runs() && final(self).run_txs(run_id)
                    == old(self).run_txs(run_id).push(tx@) && forall|m: u64|
                    m != run_id ==> final(self).run_txs(m) == old(self).run_txs(m),
                Err(e) => !(1 <= run_id <= old(self).spec_num_runs()) && *final(self) == *old(self)
                    && e.spec_label() == "unknown run id"@,
            },
    {
        if run_id < 1 || run_id > self.runs.len() as u64 {
            return Err(
                ContenderError::SpamError(
                    "unknown run id",
                    String::from_str("no run was begun under this id"),
                ),
            );
        }
        let idx: usize = (run_id - 1) as usize;
        let mut rec = self.runs.remove(idx);
        let ghost old_txs = rec.txs@;
        rec.txs.push(tx);
        self.runs.insert(idx, rec);
        proof {
            assert(self.runs@ =~= old(self).runs@.update(
                idx as int,
                RunRecord { run_id: run_id, txs: self.runs@[idx as int].txs },
            ));
            assert(self.run_txs(run_id) =~= old(self).run_txs(run_id).push(tx@));
            assert forall|m: u64| m != run_id implies self.run_txs(m) =~= old(self).run_txs(
                m,
            ) by {}
        }
        Ok(())
    }

    /// The records under `run_id`, or `None` for an unassigned id.
    pub fn get_run_txs(&self, run_id: u64) -> (r: Option<&Vec<CacheTx>>)
        ensures
            match r {
                Some(v) => 1 <= run_id <= self.spec_num_runs() && v@.map(|i: int, t: CacheTx| t@)
                    == self.run_txs(run_id),
                None => !(1 <= run_id <= self.spec_num_runs()),
            },
    {
        if run_id < 1 || run_id > self.runs.len() as u64 {
            return None;
        }
        let idx: usize = (run_id - 1) as usize;
        Some(&self.runs[idx].txs)
    }
}

/// The single writer of one run's in-memory outcome table. Concurrent
/// submitters reach it only through messages; this type is the state those
/// messages mutate, one at a time.
pub struct TxActor {
    cache: Vec<CacheTx>,
    shut_down: bool,
}

impl TxActor {
    /// Whether the actor still accepts messages.
    pub closed spec fn is_open(&self) -> bool {
        !self.shut_down
    }

    /// The accumulated records, in arrival order.
    pub closed spec fn cache_view(&self) -> Seq<CacheTxSpec> {
        self.cache@.map(|i: int, t: CacheTx| t@)
    }

    pub fn new() -> (r: TxActor)
        ensures
            r.is_open(),
            r.cache_view() == Seq::<CacheTxSpec>::empty(),
    {
        let r = TxActor { cache: Vec::new(), shut_down: false };
        proof {
            assert(r.cache_view() =~= Seq::<CacheTxSpec>::empty());
        }
        r
    }

    /// Enqueues one outcome record. Fails exactly when the actor has shut
    /// down (a stale handle); the record is then dropped.
    pub fn cache_run_tx(&mut self, tx: CacheTx) -> (r: Result<(), ContenderError>)
        ensures
            final(self).is_open() == old(self).is_open(),
            match r {
                Ok(()) => old(self).is_open() && final(self).cache_view() == old(self).cache_view().push(tx@),
                Err(e) => !old(self).is_open() && final(self).cache_view() == old(self).cache_view() && e.spec_label() == "failed to cache run tx"@,
            },
    {
        if self.shut_down {
            return Err(
                ContenderError::SpamError(
                    "failed to cache run tx",
                    String::from_str("the tx actor has shut down"),
                ),
            );
        }
        self.cache.push(tx);
        proof {
            assert(self.cache_view() =~= old(self).cache_view().push(tx@));
        }
        Ok(())
    }

    /// Stops the actor; later messages fail. The unflushed table is kept.
    pub fn shutdown(&mut self)
        ensures
            !final(self).is_open(),
            final(self).cache_view() == old(self).cache_view(),
    {
        self.shut_down = true;
    }

    /// Flushes every accumulated record, in order, under `run_id`, then
    /// clears the table. Run isolation: no other run id's records change.
    /// Fails exactly when the actor has shut down or the id is unassigned,
    /// touching nothing.
    pub fn flush_cache(&mut self, run_id: u64, store: &mut RunStore) -> (r: Result<
        (),
        ContenderError,
    >)
        requires
            old(store).wf(),
        ensures
            final(store).wf(),
            final(store).spec_num_runs() == old(store).spec_num_runs(),
            final(self).is_open() == old(self).is_open(),
            match r {
                Ok(()) => old(self).is_open() && 1 <= run_id <= old(store).spec_num_runs()
                    && final(store).run_txs(run_id) == old(store).run_txs(run_id)
                    + old(self).cache_view() && (forall|m: u64|
                    m != run_id ==> final(store).run_txs(m) == old(store).run_txs(m))
                    && final(self).cache_view() == Seq::<CacheTxSpec>::empty(),
                Err(e) => (!old(self).is_open() || !(1 <= run_id
                    <= old(store).spec_num_runs())) && final(self).cache_view()
                    == old(self).cache_view() && *final(store) == *old(store),
            },
    {
        if self.shut_down {
            return Err(
                ContenderError::SpamError(
                    "failed to flush cache",
                    String::from_str("the tx actor has shut down"),
                ),
            );
        }
        if run_id < 1 || run_id > store.num_runs() {
            return Err(
                ContenderError::SpamError(
                    "unknown run id",
                    String::from_str("no run was begun under this id"),
                ),
            );
        }
        let ghost old_cache = self.cache_view();
        let ghost old_len = self.cache@.len() as int;
        while self.cache.len() > 0
            invariant
                store.wf(),
                self.is_open(),
                self.shut_down == false,
                1 <= run_id <= store.spec_num_runs(),
                store.spec_num_runs() == old(store).spec_num_runs(),
                old_len == old_cache.len(),
                self.cache@.len() <= old_len,
                self.cache_view() == old_cache.skip(old_len - self.cache@.len()),
                store.run_txs(run_id) == old(store).run_txs(run_id) + old_cache.take(
                    old_len - self.cache@.len(),
                ),
                forall|m: u64| m != run_id ==> store.run_txs(m) == old(store).run_txs(m),
            decreases self.cache@.len(),
        {
            let ghost done = old_len - self.cache@.len();
            let ghost pre = *self;
            let tx = self.cache.remove(0);
            proof {
                assert(pre.cache_view()[0] == pre.cache@[0]@);
                assert(tx@ == old_cache[done]);
                assert(self.cache@ =~= pre.cache@.skip(1));
                assert forall|k: int|
                    0 <= k < self.cache@.len() implies #[trigger] self.cache_view()[k]
                    == old_cache.skip(done + 1)[k] by {
                    assert(self.cache_view()[k] == self.cache@[k]@);
                    assert(self.cache@[k] == pre.cache@[k + 1]);
                    assert(pre.cache_view()[k + 1] == pre.cache@[k + 1]@);
                    assert(pre.cache_view()[k + 1] == old_cache.skip(done)[k + 1]);
                }
                assert(self.cache_view() =~= old_cache.skip(done + 1));
                assert(old_cache.take(done + 1) =~= old_cache.take(done).push(old_cache[done]));
            }
            match store.insert_run_tx(run_id, tx) {
                Ok(()) => {},
                Err(e) => {
                    proof {
                        assert(false);
                    }
                    return Err(e);
                },
            }
        }
        proof {
            assert(old_cache.take(old_len) =~= old_cache);
            assert(self.cache_view() =~= Seq::<CacheTxSpec>::empty());
        }
        Ok(())
    }
}

} // verus!
