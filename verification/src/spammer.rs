use vstd::prelude::*;
use vstd::string::*;
use crate::actor::TxActor;
use crate::callback::{
    spec_extract, spec_lookup, CacheTxSpec, LogCallback, Metadata, OnBatchSent, OnTxSent,
};
use crate::dec::{lemma_dec_round_trip, u64_to_dec, u64_to_dec_string};
use crate::errors::ContenderError;

verus! {

/// One scheduling event: a new block arrived, or a timer tick elapsed.
#[derive(Clone, Debug, PartialEq, Eq)]
pub enum SpamTrigger {
    BlockHash(Vec<u8>),
    Timestamp(u64),
}

/// Trigger source that paces waves on new blocks.
pub struct BlockwiseSpammer;

impl BlockwiseSpammer {
    pub fn new() -> (r: BlockwiseSpammer) {
        BlockwiseSpammer
    }

    /// The pure half of the block-watching trigger source. The RPC edge
    /// tries to establish the block subscription and hands over the hashes
    /// it delivers (`None` when it could not be established): each block
    /// becomes one trigger, in block order, and a failed subscription is
    /// the run-fatal condition.
    pub fn on_spam(&self, poller: Option<Vec<Vec<u8>>>) -> (r: Result<
        Vec<SpamTrigger>,
        ContenderError,
    >)
        ensures
            match r {
                Ok(ts) => poller is Some && ts@.len() == poller->Some_0@.len() && forall|i: int|
                    0 <= i < ts@.len() ==> ts@[i] == SpamTrigger::BlockHash(poller->Some_0@[i]),
                Err(e) => poller is None && e.spec_label() == "failed to get block stream"@,
            },
    {
        match poller {
            Some(blocks) => Ok(triggers_of_blocks(blocks)),
            None => Err(
                ContenderError::SpamError(
                    "failed to get block stream",
                    String::from_str("the block subscription could not be established"),
                ),
            ),
        }
    }
}

/// Maps each observed block hash to one `BlockHash` trigger, in block order
/// (the pure half of the block-watching trigger source; the subscription
/// itself lives at the RPC edge).
pub fn triggers_of_blocks(blocks: Vec<Vec<u8>>) -> (r: Vec<SpamTrigger>)
    ensures
        r@.len() == blocks@.len(),
        forall|i: int|
            0 <= i < blocks@.len() ==> r@[i] == SpamTrigger::BlockHash(blocks@[i]),
{
    let ghost orig = blocks@;
    let mut blocks = blocks;
    let mut r: Vec<SpamTrigger> = Vec::new();
    while blocks.len() > 0
        invariant
            r@.len() + blocks@.len() == orig.len(),
            blocks@ =~= orig.skip(r@.len() as int),
            forall|i: int| 0 <= i < r@.len() ==> r@[i] == SpamTrigger::BlockHash(orig[i]),
        decreases blocks@.len(),
    {
        let b = blocks.remove(0);
        proof {
            assert(b == orig[r@.len() as int]);
            assert(blocks@ =~= orig.skip(r@.len() as int + 1));
        }
        r.push(SpamTrigger::BlockHash(b));
    }
    r
}

/// Trigger source that paces waves on a fixed timer.
pub struct TimedSpammer {
    /// The configured wait between ticks, in milliseconds.
    pub interval_millis: u64,
}

impl TimedSpammer {
    pub fn new(interval_millis: u64) -> (r: TimedSpammer)
        ensures
            r.interval_millis == interval_millis,
    {
        TimedSpammer { interval_millis }
    }

    /// The trigger produced by the `n`-th elapsed tick.
    pub fn tick_trigger(&self, n: u64) -> (r: SpamTrigger)
        ensures
            r == SpamTrigger::Timestamp(n),
    {
        SpamTrigger::Timestamp(n)
    }
}

/// The outcome of one dispatched submission, as the RPC edge hands it back:
/// the transaction hash, when submission started, the request's logical
/// kind, and the error string of a failed submission.
#[derive(Clone, Debug)]
pub struct Submission {
    pub tx_hash: Vec<u8>,
    pub start_timestamp: u64,
    pub kind: Option<String>,
    pub error: Option<String>,
}

/// The view of an optional string.
pub open spec fn opt_view(o: Option<String>) -> Option<Seq<char>> {
    match o {
        Some(s) => Some(s@),
        None => None,
    }
}

/// The metadata the orchestrator attaches to one submission: the start
/// timestamp in decimal, then the kind and the error where present.
pub open spec fn submission_meta(s: Submission) -> Seq<(Seq<char>, Seq<char>)> {
    let base = seq![("start_timestamp"@, u64_to_dec(s.start_timestamp as int))];
    let with_kind = match s.kind {
        Some(k) => base.push(("kind"@, k@)),
        None => base,
    };
    match s.error {
        Some(e) => with_kind.push(("error"@, e@)),
        None => with_kind,
    }
}

/// Builds the metadata for one submission.
pub fn build_metadata(s: &Submission) -> (m: Metadata)
    ensures
        m@ == submission_meta(*s),
{
    let mut m = Metadata::new();
    proof {
        assert(m@ =~= Seq::<(Seq<char>, Seq<char>)>::empty());
    }
    m.insert(String::from_str("start_timestamp"), u64_to_dec_string(s.start_timestamp));
    match &s.kind {
        Some(k) => m.insert(String::from_str("kind"), k.clone()),
        None => (),
    }
    match &s.error {
        Some(e) => m.insert(String::from_str("error"), e.clone()),
        None => (),
    }
    proof {
        assert(m@ =~= submission_meta(*s));
    }
    m
}

/// One observed callback invocation.
#[derive(Clone, Copy, PartialEq, Eq, Structural, Debug)]
pub enum SpamEvent {
    /// The per-transaction hook ran.
    TxSent,
    /// The per-batch hook ran.
    BatchSent,
}

/// The callback events of one period: the per-transaction hook once for
/// each of the `txs` submissions, then the per-batch hook once.
pub open spec fn period_events(txs: nat) -> Seq<SpamEvent> {
    Seq::new(txs, |i: int| SpamEvent::TxSent).push(SpamEvent::BatchSent)
}

/// The callback events of a whole run of `periods` periods.
pub open spec fn run_events(periods: nat, txs: nat) -> Seq<SpamEvent>
    decreases periods,
{
    if periods == 0 {
        Seq::<SpamEvent>::empty()
    } else {
        run_events((periods - 1) as nat, txs) + period_events(txs)
    }
}

/// The records a per-transaction strategy produces over a submission
/// sequence, in order, skipping submissions it declines to record.
pub open spec fn run_records<C: OnTxSent>(cb: C, subs: Seq<Submission>) -> Seq<CacheTxSpec>
    decreases subs.len(),
{
    if subs.len() == 0 {
        Seq::<CacheTxSpec>::empty()
    } else {
        let rest = run_records(cb, subs.drop_last());
        match cb.tx_record(subs.last().tx_hash@, submission_meta(subs.last())) {
            Some(r) => rest.push(r),
            None => rest,
        }
    }
}

/// How many periods a run executes: the configured count, unless the
/// trigger sequence is exhausted first.
pub open spec fn spec_executed(periods: int, n_triggers: int) -> int {
    if n_triggers < periods {
        n_triggers
    } else {
        periods
    }
}

/// The orchestrator loop over the triggers that arrived and the outcomes of
/// the submissions dispatched for them: for each consumed trigger it invokes
/// the per-transaction hook once per submission of that period, forwards
/// each produced record to the result actor, then invokes the per-batch hook
/// once. A failed submission is recorded like any other and never shortens
/// the run: the run length depends only on the trigger and period counts.
pub fn spam_run<C: OnTxSent + OnBatchSent>(
    cb: &C,
    triggers: &Vec<SpamTrigger>,
    txs_per_period: usize,
    periods: usize,
    submissions: &Vec<Submission>,
    actor: &mut TxActor,
) -> (events: Vec<SpamEvent>)
    requires
        old(actor).is_open(),
        submissions@.len() == spec_executed(periods as int, triggers@.len() as int) * (
        txs_per_period as int),
    ensures
        final(actor).is_open(),
        events@ == run_events(
            spec_executed(periods as int, triggers@.len() as int) as nat,
            txs_per_period as nat,
        ),
        final(actor).cache_view() == old(actor).cache_view() + run_records(*cb, submissions@),
{
    let executed: usize = if triggers.len() < periods {
        triggers.len()
    } else {
        periods
    };
    let n_subs: usize = submissions.len();
    let mut events: Vec<SpamEvent> = Vec::new();
    let mut p: usize = 0;
    proof {
        assert(events@ =~= run_events(0, txs_per_period as nat));
        assert(submissions@.take(0) =~= Seq::<Submission>::empty());
        assert(actor.cache_view() =~= actor.cache_view() + run_records(
            *cb,
            submissions@.take(0),
        ));
    }
    while p < executed
        invariant
            executed == spec_executed(periods as int, triggers@.len() as int),
            submissions@.len() == executed * (txs_per_period as int),
            n_subs == submissions@.len(),
            p <= executed,
            actor.is_open(),
            events@ == run_events(p as nat, txs_per_period as nat),
            actor.cache_view() == old(actor).cache_view() + run_records(
                *cb,
                submissions@.take(p as int * txs_per_period as int),
            ),
        decreases executed - p,
    {
        proof {
            assert((p as int + 1) * (txs_per_period as int) <= executed as int * (
            txs_per_period as int)) by (nonlinear_arith)
                requires
                    p as int + 1 <= executed as int,
                    0 <= txs_per_period as int,
            ;
            assert((p as int + 1) * (txs_per_period as int) == p as int * (txs_per_period as int)
                + txs_per_period as int) by (nonlinear_arith);
            assert(p as int * (txs_per_period as int) + txs_per_period as int
                <= submissions@.len());
        }
        let base: usize = p * txs_per_period;
        let mut t: usize = 0;
        proof {
            assert(events@ + Seq::new(0, |i: int| SpamEvent::TxSent) =~= events@);
        }
        let ghost events_before = events@;
        while t < txs_per_period
            invariant
                executed == spec_executed(periods as int, triggers@.len() as int),
                submissions@.len() == executed * (txs_per_period as int),
                n_subs == submissions@.len(),
                p < executed,
                t <= txs_per_period,
                base as int == p as int * txs_per_period as int,
                base as int + txs_per_period as int <= submissions@.len(),
                actor.is_open(),
                events_before == run_events(p as nat, txs_per_period as nat),
                events@ == events_before + Seq::new(t as nat, |i: int| SpamEvent::TxSent),
                actor.cache_view() == old(actor).cache_view() + run_records(
                    *cb,
                    submissions@.take(base as int + t as int),
                ),
            decreases txs_per_period - t,
        {
            let idx: usize = base + t;
            let sub = &submissions[idx];
            let meta = build_metadata(sub);
            let rec = cb.on_tx_sent(&sub.tx_hash, &meta);
            proof {
                assert(submissions@.take(idx as int + 1).drop_last() =~= submissions@.take(
                    idx as int,
                ));
                assert(submissions@.take(idx as int + 1).last() == submissions@[idx as int]);
            }
            match rec {
                Some(c) => {
                    match actor.cache_run_tx(c) {
                        Ok(()) => {},
                        Err(_) => {
                            proof {
                                assert(false);
                            }
                        },
                    }
                },
                None => {},
            }
            events.push(SpamEvent::TxSent);
            proof {
                assert(events@ =~= events_before + Seq::new(
                    t as nat + 1,
                    |i: int| SpamEvent::TxSent,
                ));
            }
            t += 1;
        }
        let _ = cb.on_batch_sent();
        events.push(SpamEvent::BatchSent);
        proof {
            assert(events@ =~= run_events(p as nat, txs_per_period as nat) + period_events(
                txs_per_period as nat,
            ));
            assert(events@ == run_events(p as nat + 1, txs_per_period as nat));
        }
        p += 1;
    }
    proof {
        assert(submissions@.take(executed as int * txs_per_period as int) =~= submissions@);
    }
    events
}

/// The number of events equal to `e` in a sequence.
pub open spec fn count_events(s: Seq<SpamEvent>, e: SpamEvent) -> int
    decreases s.len(),
{
    if s.len() == 0 {
        0
    } else {
        count_events(s.drop_last(), e) + if s.last() == e {
            1int
        } else {
            0int
        }
    }
}

proof fn lemma_count_events_add(a: Seq<SpamEvent>, b: Seq<SpamEvent>, e: SpamEvent)
    ensures
        count_events(a + b, e) == count_events(a, e) + count_events(b, e),
    decreases b.len(),
{
    if b.len() == 0 {
        assert(a + b =~= a);
    } else {
        lemma_count_events_add(a, b.drop_last(), e);
        assert((a + b).drop_last() =~= a + b.drop_last());
        assert((a + b).last() == b.last());
    }
}

proof fn lemma_count_tx_run(n: nat)
    ensures
        count_events(Seq::new(n, |i: int| SpamEvent::TxSent), SpamEvent::TxSent) == n,
        count_events(Seq::new(n, |i: int| SpamEvent::TxSent), SpamEvent::BatchSent) == 0,
    decreases n,
{
    if n > 0 {
        lemma_count_tx_run((n - 1) as nat);
        assert(Seq::new(n, |i: int| SpamEvent::TxSent).drop_last() =~= Seq::new(
            (n - 1) as nat,
            |i: int| SpamEvent::TxSent,
        ));
    }
}

/// Trigger-to-batch pairing: a run of `periods` periods of `txs`
/// transactions each raises exactly `periods` per-batch invocations and
/// `periods * txs` per-transaction invocations, and each period's slice of
/// the event sequence is exactly `txs` transaction events followed by one
/// batch event.
#[verifier::spinoff_prover]
#[verifier::rlimit(60)]
pub proof fn lemma_trigger_batch_pairing(periods: nat, txs: nat)
    ensures
        run_events(periods, txs).len() == periods * (txs + 1),
        count_events(run_events(periods, txs), SpamEvent::BatchSent) == periods,
        count_events(run_events(periods, txs), SpamEvent::TxSent) == periods * txs,
        forall|q: int|
            0 <= q < periods ==> #[trigger] run_events(periods, txs).subrange(
                q * (txs + 1),
                (q + 1) * (txs + 1),
            ) == period_events(txs),
    decreases periods,
{
    let pe = period_events(txs);
    assert(pe.len() == txs + 1);
    if periods == 0 {
        assert(run_events(0, txs).len() == 0);
    } else {
        let prev = run_events((periods - 1) as nat, txs);
        let cur = run_events(periods, txs);
        lemma_trigger_batch_pairing((periods - 1) as nat, txs);
        assert(cur == prev + pe);
        assert(cur.len() == prev.len() + pe.len());
        assert(periods * (txs + 1) == (periods - 1) * (txs + 1) + (txs + 1)) by (nonlinear_arith);
        lemma_count_events_add(prev, pe, SpamEvent::BatchSent);
        lemma_count_events_add(prev, pe, SpamEvent::TxSent);
        lemma_count_tx_run(txs);
        assert(pe.drop_last() =~= Seq::new(txs, |i: int| SpamEvent::TxSent));
        assert(count_events(pe, SpamEvent::BatchSent) == 1);
        assert(count_events(pe, SpamEvent::TxSent) == txs);
        assert(periods * txs == (periods - 1) * txs + txs) by (nonlinear_arith);
        assert(cur.len() == periods * (txs + 1));
        assert(count_events(cur, SpamEvent::BatchSent) == periods);
        assert(count_events(cur, SpamEvent::TxSent) == periods * txs);
        assert forall|q: int| 0 <= q < periods implies #[trigger] cur.subrange(
            q * (txs + 1),
            (q + 1) * (txs + 1),
        ) == pe by {
            assert(0 <= q * (txs + 1)) by (nonlinear_arith)
                requires
                    0 <= q,
                    0 <= txs,
            ;
            assert(q * (txs + 1) <= (q + 1) * (txs + 1)) by (nonlinear_arith)
                requires
                    0 <= txs,
            ;
            assert((q + 1) * (txs + 1) <= periods * (txs + 1)) by (nonlinear_arith)
                requires
                    q + 1 <= periods,
                    0 <= txs,
            ;
            if q < periods - 1 {
                assert((q + 1) * (txs + 1) <= prev.len()) by (nonlinear_arith)
                    requires
                        q + 1 <= periods - 1,
                        prev.len() == (periods - 1) * (txs + 1),
                        0 <= txs,
                ;
                assert(cur.subrange(q * (txs + 1), (q + 1) * (txs + 1)) =~= prev.subrange(
                    q * (txs + 1),
                    (q + 1) * (txs + 1),
                ));
            } else {
                assert(q == periods - 1);
                assert(q * (txs + 1) == prev.len());
                assert(cur.subrange(q * (txs + 1), (q + 1) * (txs + 1)) =~= pe);
            }
        }
    }
}

/// The record the logging strategy builds for one submission: hash,
/// timestamp, kind and error carried over unchanged.
pub open spec fn log_record_of(s: Submission) -> CacheTxSpec {
    CacheTxSpec {
        tx_hash: s.tx_hash@,
        start_timestamp: s.start_timestamp,
        kind: opt_view(s.kind),
        error: opt_view(s.error),
    }
}

/// On the metadata the orchestrator builds, the logging strategy always
/// produces a record, and it reproduces the submission exactly.
proof fn lemma_log_extract(s: Submission)
    ensures
        spec_extract(s.tx_hash@, submission_meta(s)) == Some(log_record_of(s)),
{
    reveal_strlit("start_timestamp");
    reveal_strlit("kind");
    reveal_strlit("error");
    reveal_with_fuel(spec_lookup, 5);
    lemma_dec_round_trip(s.start_timestamp);
    let st = "start_timestamp"@;
    let kd = "kind"@;
    let er = "error"@;
    assert(st.len() == 15);
    assert(kd.len() == 4);
    assert(er.len() == 5);
    let ts = u64_to_dec(s.start_timestamp as int);
    let base = seq![(st, ts)];
    let m = submission_meta(s);
    match (s.kind, s.error) {
        (Some(k), Some(e)) => {
            assert(m =~= seq![(st, ts), (kd, k@), (er, e@)]);
            assert(m.drop_first() =~= seq![(kd, k@), (er, e@)]);
            assert(m.drop_first().drop_first() =~= seq![(er, e@)]);
            assert(spec_lookup(m, st) == Some(ts));
            assert(spec_lookup(m, kd) == Some(k@));
            assert(spec_lookup(m.drop_first().drop_first(), er) == Some(e@));
            assert(spec_lookup(m, er) == Some(e@));
        },
        (Some(k), None) => {
            assert(m =~= seq![(st, ts), (kd, k@)]);
            assert(m.drop_first() =~= seq![(kd, k@)]);
            assert(m.drop_first().drop_first() =~= Seq::<(Seq<char>, Seq<char>)>::empty());
            assert(spec_lookup(m, st) == Some(ts));
            assert(spec_lookup(m, kd) == Some(k@));
            assert(spec_lookup(m, er) is None);
        },
        (None, Some(e)) => {
            assert(m =~= seq![(st, ts), (er, e@)]);
            assert(m.drop_first() =~= seq![(er, e@)]);
            assert(m.drop_first().drop_first() =~= Seq::<(Seq<char>, Seq<char>)>::empty());
            assert(spec_lookup(m, st) == Some(ts));
            assert(spec_lookup(m, kd) is None);
            assert(spec_lookup(m, er) == Some(e@));
        },
        (None, None) => {
            assert(m =~= seq![(st, ts)]);
            assert(m.drop_first() =~= Seq::<(Seq<char>, Seq<char>)>::empty());
            assert(spec_lookup(m, st) == Some(ts));
            assert(spec_lookup(m, kd) is None);
            assert(spec_lookup(m, er) is None);
        },
    }
}

/// Submission-failure tolerance: under the logging strategy every
/// submission leaves exactly one record, carrying that submission's hash,
/// timestamp, kind and error; so if `k` of `n` submissions fail, exactly
/// `k` records carry an error and `n - k` carry none, and the run itself is
/// never shortened (see `spam_run`: its events depend only on the trigger
/// and period counts).
pub proof fn lemma_submission_failure_tolerance(cb: LogCallback, subs: Seq<Submission>)
    ensures
        run_records(cb, subs).len() == subs.len(),
        forall|i: int|
            0 <= i < subs.len() ==> #[trigger] run_records(cb, subs)[i] == log_record_of(subs[i]),
        count_error_records(run_records(cb, subs)) == count_failed(subs),
    decreases subs.len(),
{
    if subs.len() > 0 {
        lemma_submission_failure_tolerance(cb, subs.drop_last());
        lemma_log_extract(subs.last());
        assert(run_records(cb, subs) == run_records(cb, subs.drop_last()).push(
            log_record_of(subs.last()),
        ));
        assert(run_records(cb, subs).drop_last() =~= run_records(cb, subs.drop_last()));
        assert forall|i: int|
            0 <= i < subs.len() implies #[trigger] run_records(cb, subs)[i] == log_record_of(
            subs[i],
        ) by {
            if i < subs.len() - 1 {
                assert(run_records(cb, subs)[i] == run_records(cb, subs.drop_last())[i]);
                assert(subs[i] == subs.drop_last()[i]);
            }
        }
    }
}

/// The number of records that carry an error.
pub open spec fn count_error_records(recs: Seq<CacheTxSpec>) -> int
    decreases recs.len(),
{
    if recs.len() == 0 {
        0
    } else {
        count_error_records(recs.drop_last()) + if recs.last().error is Some {
            1int
        } else {
            0int
        }
    }
}

/// The number of submissions that failed.
pub open spec fn count_failed(subs: Seq<Submission>) -> int
    decreases subs.len(),
{
    if subs.len() == 0 {
        0
    } else {
        count_failed(subs.drop_last()) + if subs.last().error is Some {
            1int
        } else {
            0int
        }
    }
}

} // verus!
