use std::collections::HashSet;

use contender::actor::{RunStore, TxActor};
use contender::admin::accounts_for_pool;
use contender::callback::{
    BatchAction, CacheTx, LogCallback, Metadata, NilCallback, OnBatchSent, OnTxSent,
};
use contender::dec::{parse_u64, u64_to_dec_string};
use contender::errors::ContenderError;
use contender::hex::{hex_decode, hex_encode};
use contender::pool::{AgentStore, SignerStore};
use contender::seed::RandSeed;
use contender::spammer::{
    spam_run, triggers_of_blocks, BlockwiseSpammer, SpamEvent, SpamTrigger, Submission,
    TimedSpammer,
};

fn seed_of(hex: &str) -> RandSeed {
    RandSeed::seed_from_str(hex).expect("valid seed")
}

fn submission(hash: u8, ts: u64, kind: Option<&str>, error: Option<&str>) -> Submission {
    Submission {
        tx_hash: vec![hash; 32],
        start_timestamp: ts,
        kind: kind.map(|k| k.to_string()),
        error: error.map(|e| e.to_string()),
    }
}

#[test]
fn derive_is_deterministic() {
    let s1 = seed_of("444444444444");
    let s2 = seed_of("444444444444");
    let k1 = s1.derive_signing_key("pool1", 7);
    let k2 = s1.derive_signing_key("pool1", 7);
    let k3 = s2.derive_signing_key("pool1", 7);
    assert_eq!(k1, k2);
    assert_eq!(k1, k3);
    assert_eq!(k1.len(), 32);
}

#[test]
fn derive_matches_keccak_of_input() {
    // The derivation is the Keccak-256 digest of seed || pool || index-le.
    let seed = seed_of("eeeeeeee");
    let key = seed.derive_signing_key("pool1", 3);
    let mut input: Vec<u8> = vec![0xee, 0xee, 0xee, 0xee];
    input.extend_from_slice("pool1".as_bytes());
    input.extend_from_slice(&3u64.to_le_bytes());
    let expected = alloy::primitives::keccak256(&input);
    assert_eq!(key.as_slice(), expected.as_slice());
}

#[test]
fn derive_first_thousand_keys_distinct() {
    let seed = seed_of("444444444444");
    let mut seen: HashSet<Vec<u8>> = HashSet::new();
    for i in 0..1000 {
        assert!(seen.insert(seed.derive_signing_key("pool1", i)));
    }
    assert_eq!(seen.len(), 1000);
}

#[test]
fn distinct_pools_give_distinct_keys() {
    let seed = seed_of("444444444444");
    assert_ne!(
        seed.derive_signing_key("pool1", 0),
        seed.derive_signing_key("pool2", 0)
    );
}

#[test]
fn seed_file_rejects_empty() {
    let r = RandSeed::parse_seed_file(b"");
    match r {
        Err(e) => assert_eq!(e.label(), "Empty seed file"),
        Ok(_) => panic!("empty seed accepted"),
    }
    let r = RandSeed::parse_seed_file(b"  \n\t ");
    match r {
        Err(e) => assert_eq!(e.label(), "Empty seed file"),
        Ok(_) => panic!("whitespace seed accepted"),
    }
}

#[test]
fn seed_file_rejects_non_hex() {
    for bad in [&b"zz"[..], &b"abc"[..], &b"0xee"[..], &b"ee ee"[..]] {
        match RandSeed::parse_seed_file(bad) {
            Err(e) => {
                assert_eq!(e.label(), "Invalid hex data in seed file");
                assert!(!e.describe().is_empty());
            }
            Ok(_) => panic!("non-hex seed accepted"),
        }
    }
}

#[test]
fn seed_file_accepts_trimmed_hex() {
    let seed = RandSeed::parse_seed_file(b"  eeEEeeEE\n").expect("valid seed");
    assert_eq!(seed.as_bytes().as_slice(), &[0xee, 0xee, 0xee, 0xee]);
}

#[test]
fn hex_round_trip_matches_alloy() {
    let bytes: Vec<u8> = (0u8..=255).collect();
    let encoded = hex_encode(&bytes);
    assert_eq!(String::from_utf8(encoded.clone()).unwrap(), alloy::hex::encode(&bytes));
    let decoded = hex_decode(&encoded).expect("round trip");
    assert_eq!(decoded, bytes);
    assert!(hex_decode(b"abc").is_none());
    assert!(hex_decode(b"0g").is_none());
    assert_eq!(hex_decode(b"").unwrap(), Vec::<u8>::new());
}

#[test]
fn decimal_round_trip() {
    for n in [0u64, 1, 9, 10, 12345, u64::MAX] {
        let s = u64_to_dec_string(n);
        assert_eq!(s, n.to_string());
        assert_eq!(parse_u64(&s), Some(n));
    }
    assert_eq!(parse_u64(""), None);
    assert_eq!(parse_u64("+5"), None);
    assert_eq!(parse_u64("12a"), None);
    assert_eq!(parse_u64("18446744073709551615"), Some(u64::MAX));
    assert_eq!(parse_u64("18446744073709551616"), None);
}

#[test]
fn log_callback_extracts_record() {
    let cb = LogCallback::new(false, false);
    let mut meta = Metadata::new();
    meta.insert("start_timestamp".to_string(), "1234".to_string());
    meta.insert("kind".to_string(), "transfer".to_string());
    meta.insert("error".to_string(), "nonce too low".to_string());
    let hash = vec![0xabu8; 32];
    let rec = cb.on_tx_sent(&hash, &meta).expect("record");
    assert_eq!(rec.tx_hash, hash);
    assert_eq!(rec.start_timestamp, 1234);
    assert_eq!(rec.kind.as_deref(), Some("transfer"));
    assert_eq!(rec.error.as_deref(), Some("nonce too low"));
}

#[test]
fn log_callback_skips_malformed_metadata() {
    let cb = LogCallback::new(false, false);
    let hash = vec![1u8; 32];
    let empty = Metadata::new();
    assert!(cb.on_tx_sent(&hash, &empty).is_none());
    let mut no_ts = Metadata::new();
    no_ts.insert("kind".to_string(), "transfer".to_string());
    assert!(cb.on_tx_sent(&hash, &no_ts).is_none());
    let mut bad_ts = Metadata::new();
    bad_ts.insert("start_timestamp".to_string(), "not-a-number".to_string());
    assert!(cb.on_tx_sent(&hash, &bad_ts).is_none());
}

#[test]
fn nil_callback_does_nothing() {
    let cb = NilCallback;
    let mut meta = Metadata::new();
    meta.insert("start_timestamp".to_string(), "1".to_string());
    assert!(cb.on_tx_sent(&vec![0u8; 32], &meta).is_none());
    assert_eq!(cb.on_batch_sent(), BatchAction::DoNothing);
}

#[test]
fn batch_action_depends_on_fcu_and_provider() {
    assert_eq!(LogCallback::new(false, false).on_batch_sent(), BatchAction::DoNothing);
    assert_eq!(LogCallback::new(false, true).on_batch_sent(), BatchAction::DoNothing);
    assert_eq!(LogCallback::new(true, false).on_batch_sent(), BatchAction::DoNothing);
    assert_eq!(LogCallback::new(true, true).on_batch_sent(), BatchAction::AdvanceChain);
}

#[test]
fn run_isolation_across_run_ids() {
    let mut store = RunStore::new();
    let run1 = store.begin_run();
    let run2 = store.begin_run();
    assert_eq!((run1, run2), (1, 2));
    store
        .insert_run_tx(
            run1,
            CacheTx { tx_hash: vec![1; 32], start_timestamp: 10, kind: None, error: None },
        )
        .unwrap();
    let mut actor = TxActor::new();
    actor
        .cache_run_tx(CacheTx {
            tx_hash: vec![2; 32],
            start_timestamp: 20,
            kind: None,
            error: None,
        })
        .unwrap();
    actor.flush_cache(run2, &mut store).unwrap();
    let txs1 = store.get_run_txs(run1).unwrap();
    let txs2 = store.get_run_txs(run2).unwrap();
    assert_eq!(txs1.len(), 1);
    assert_eq!(txs1[0].tx_hash, vec![1; 32]);
    assert_eq!(txs2.len(), 1);
    assert_eq!(txs2[0].tx_hash, vec![2; 32]);
    assert!(store.get_run_txs(3).is_none());
}

#[test]
fn actor_fails_after_shutdown() {
    let mut actor = TxActor::new();
    actor.shutdown();
    let err = actor
        .cache_run_tx(CacheTx { tx_hash: vec![0; 32], start_timestamp: 0, kind: None, error: None })
        .unwrap_err();
    assert_eq!(err.label(), "failed to cache run tx");
    let mut store = RunStore::new();
    let run = store.begin_run();
    let err = actor.flush_cache(run, &mut store).unwrap_err();
    assert_eq!(err.label(), "failed to flush cache");
}

#[test]
fn flush_unknown_run_id_fails() {
    let mut actor = TxActor::new();
    let mut store = RunStore::new();
    let err = actor.flush_cache(1, &mut store).unwrap_err();
    assert_eq!(err.label(), "unknown run id");
    let err = store
        .insert_run_tx(
            9,
            CacheTx { tx_hash: vec![0; 32], start_timestamp: 0, kind: None, error: None },
        )
        .unwrap_err();
    assert_eq!(err.label(), "unknown run id");
}

#[test]
fn failed_submissions_do_not_shorten_run() {
    // 2 periods x 3 txs, 2 of the 6 submissions fail.
    let cb = LogCallback::new(false, false);
    let triggers = triggers_of_blocks(vec![vec![1; 32], vec![2; 32]]);
    let mut subs = Vec::new();
    for i in 0..6u8 {
        let error = if i == 1 || i == 4 { Some("connection reset") } else { None };
        subs.push(submission(i, 100 + i as u64, Some("transfer"), error));
    }
    let mut actor = TxActor::new();
    let events = spam_run(&cb, &triggers, 3, 2, &subs, &mut actor);
    assert_eq!(events.len(), 2 * 4);
    let mut store = RunStore::new();
    let run = store.begin_run();
    actor.flush_cache(run, &mut store).unwrap();
    let recs = store.get_run_txs(run).unwrap();
    assert_eq!(recs.len(), 6);
    let failed = recs.iter().filter(|r| r.error.is_some()).count();
    assert_eq!(failed, 2);
    assert_eq!(recs.len() - failed, 4);
    for (i, rec) in recs.iter().enumerate() {
        assert_eq!(rec.start_timestamp, 100 + i as u64);
    }
}

#[test]
fn three_periods_of_ten_pair_with_three_batches() {
    let cb = NilCallback;
    let triggers: Vec<SpamTrigger> =
        triggers_of_blocks((0u8..3).map(|i| vec![i; 32]).collect());
    let subs: Vec<Submission> =
        (0..30u8).map(|i| submission(i, i as u64, None, None)).collect();
    let mut actor = TxActor::new();
    let events = spam_run(&cb, &triggers, 10, 3, &subs, &mut actor);
    assert_eq!(events.len(), 33);
    let batches: Vec<usize> = events
        .iter()
        .enumerate()
        .filter(|(_, e)| **e == SpamEvent::BatchSent)
        .map(|(i, _)| i)
        .collect();
    assert_eq!(batches, vec![10, 21, 32]);
    for chunk in events.chunks(11) {
        assert_eq!(chunk.iter().filter(|e| **e == SpamEvent::TxSent).count(), 10);
        assert_eq!(chunk[10], SpamEvent::BatchSent);
    }
    // NilCallback records nothing.
    let mut store = RunStore::new();
    let run = store.begin_run();
    actor.flush_cache(run, &mut store).unwrap();
    assert_eq!(store.get_run_txs(run).unwrap().len(), 0);
}

#[test]
fn end_to_end_scenario_model() {
    // A pool seeded with "eeeeeeee" sized 3, a block-watching trigger source
    // producing one block per period, 9 txs per period over 3 periods.
    let seed = seed_of("444444444444");
    let pool = SignerStore::new_random(3, &seed, "eeeeeeee");
    let mut agents = AgentStore::new();
    agents.add_agent("pool1", pool);
    let pool = agents.get_agent("pool1").unwrap();
    assert!(agents.get_agent("nope").is_none());

    let mut store = RunStore::new();
    let before = store.num_runs();
    let run = store.begin_run();
    assert_eq!(store.num_runs(), before + 1);

    let blocks: Vec<Vec<u8>> = (0u8..3).map(|i| vec![i; 32]).collect();
    let triggers = triggers_of_blocks(blocks);
    assert_eq!(triggers[0], SpamTrigger::BlockHash(vec![0; 32]));

    let cb = LogCallback::new(true, true);
    let mut senders: HashSet<Vec<u8>> = HashSet::new();
    let mut subs = Vec::new();
    for i in 0..27usize {
        let signer = pool.round_robin(i);
        senders.insert(signer.key.clone());
        subs.push(submission(i as u8, i as u64, Some("spam"), None));
    }
    assert!(senders.len() >= 3 && senders.len() <= 9);
    assert_eq!(senders.len(), 3);

    let mut actor = TxActor::new();
    let events = spam_run(&cb, &triggers, 9, 3, &subs, &mut actor);
    assert_eq!(
        events.iter().filter(|e| **e == SpamEvent::BatchSent).count(),
        3
    );
    actor.flush_cache(run, &mut store).unwrap();
    assert_eq!(store.get_run_txs(run).unwrap().len(), 27);
    assert_eq!(store.num_runs(), before + 1);
}

#[test]
fn run_stops_when_triggers_run_out() {
    let cb = NilCallback;
    let triggers = triggers_of_blocks(vec![vec![7; 32]]);
    let subs: Vec<Submission> = (0..5u8).map(|i| submission(i, 0, None, None)).collect();
    let mut actor = TxActor::new();
    // 4 periods configured, but only one trigger arrives: one period runs.
    let events = spam_run(&cb, &triggers, 5, 4, &subs, &mut actor);
    assert_eq!(events.len(), 6);
    assert_eq!(events.iter().filter(|e| **e == SpamEvent::BatchSent).count(), 1);
}

#[test]
fn accounts_for_pool_matches_alloy_addresses() {
    let seed = seed_of("eeeeeeee");
    let addrs = accounts_for_pool(&seed, "pool1", 3).expect("addresses");
    assert_eq!(addrs.len(), 3);
    for (i, addr) in addrs.iter().enumerate() {
        assert_eq!(addr.len(), 20);
        let key = seed.derive_signing_key("pool1", i);
        let signer = alloy::signers::local::PrivateKeySigner::from_bytes(
            &alloy::primitives::B256::from_slice(&key),
        )
        .expect("valid key");
        assert_eq!(addr.as_slice(), signer.address().as_slice());
    }
    let unique: HashSet<Vec<u8>> = addrs.into_iter().collect();
    assert_eq!(unique.len(), 3);
}

#[test]
fn on_spam_maps_blocks_or_reports_stream_failure() {
    let spammer = BlockwiseSpammer::new();
    let triggers = spammer
        .on_spam(Some(vec![vec![9; 32], vec![8; 32]]))
        .expect("stream established");
    assert_eq!(triggers.len(), 2);
    assert_eq!(triggers[0], SpamTrigger::BlockHash(vec![9; 32]));
    let err = spammer.on_spam(None).unwrap_err();
    assert_eq!(err.label(), "failed to get block stream");
}

#[test]
fn trigger_sources_produce_expected_triggers() {
    let _spammer = BlockwiseSpammer::new();
    let triggers = triggers_of_blocks(vec![vec![5; 32], vec![6; 32]]);
    assert_eq!(triggers.len(), 2);
    assert_eq!(triggers[1], SpamTrigger::BlockHash(vec![6; 32]));
    let timed = TimedSpammer::new(250);
    assert_eq!(timed.interval_millis, 250);
    assert_eq!(timed.tick_trigger(4), SpamTrigger::Timestamp(4));
}

#[test]
fn error_describe_joins_label_and_context() {
    let e = ContenderError::SpamError("failed to get block stream", "subscription refused".to_string());
    assert_eq!(e.label(), "failed to get block stream");
    assert_eq!(e.describe(), "failed to get block stream: subscription refused");
}
