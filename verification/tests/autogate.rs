//! The proof ledger and the swap gate.

use rollout::autogate::{
    default_proofs_path, gate, ledger_path, GateConfig, GateVerdict, LedgerRead, LedgerWrite,
    ProofEntry, ProofLedger,
};

fn make_ledger(entries: Vec<ProofEntry>) -> ProofLedger {
    let mut ledger = ProofLedger::default();
    for e in entries {
        ledger.upsert(e);
    }
    ledger
}

fn make_proof(
    daemon: &str,
    binary_hash: &str,
    deafness_ms: u64,
    events_missed_window: u64,
) -> ProofEntry {
    ProofEntry {
        daemon: daemon.to_owned(),
        binary_hash: binary_hash.to_owned(),
        deafness_ms,
        events_missed_window,
        recorded_at: "2026-06-13T00:00:00Z".to_owned(),
        strategy: None,
    }
}

#[test]
fn test_gate_no_proof() {
    let ledger = ProofLedger::default();
    let config = GateConfig::default();
    let verdict = gate("wm-audio", "abc123", &ledger, &config);
    assert!(
        matches!(verdict, GateVerdict::Refuse { .. }),
        "expected Refuse when no proof exists"
    );
    if let GateVerdict::Refuse { reason } = verdict {
        assert!(reason.contains("no proof"), "reason should mention no proof: {reason}");
    }
}

#[test]
fn test_gate_stale_hash() {
    let ledger = make_ledger(vec![make_proof("wm-audio", "oldhash", 0, 0)]);
    let config = GateConfig::default();
    let verdict = gate("wm-audio", "newhash", &ledger, &config);
    assert!(
        matches!(verdict, GateVerdict::Refuse { .. }),
        "expected Refuse for mismatched hash"
    );
    if let GateVerdict::Refuse { reason } = verdict {
        assert!(reason.contains("stale"), "reason should mention stale: {reason}");
    }
}

#[test]
fn test_gate_allow_matching_hash_zero_events() {
    let ledger = make_ledger(vec![make_proof("wm-audio", "goodhash", 0, 0)]);
    let config = GateConfig::default();
    let verdict = gate("wm-audio", "goodhash", &ledger, &config);
    assert_eq!(verdict, GateVerdict::Allow, "expected Allow for matching hash + 0 events lost");
}

#[test]
fn test_gate_events_exceeded() {
    let ledger = make_ledger(vec![make_proof("wm-audio", "goodhash", 0, 3)]);
    let config = GateConfig { max_events_lost: 0, max_deafness_ms: None };
    let verdict = gate("wm-audio", "goodhash", &ledger, &config);
    assert!(
        matches!(verdict, GateVerdict::Refuse { .. }),
        "expected Refuse when events_missed_window > max_events_lost"
    );
    if let GateVerdict::Refuse { reason } = verdict {
        assert!(
            reason.contains("events_missed_window"),
            "reason should mention events_missed_window: {reason}"
        );
    }
}

#[test]
fn test_gate_deafness_exceeded() {
    let ledger = make_ledger(vec![make_proof("wm-audio", "goodhash", 500, 0)]);
    let config = GateConfig { max_events_lost: 0, max_deafness_ms: Some(100) };
    let verdict = gate("wm-audio", "goodhash", &ledger, &config);
    assert!(
        matches!(verdict, GateVerdict::Refuse { .. }),
        "expected Refuse when deafness_ms > max_deafness_ms"
    );
}

#[test]
fn test_gate_deafness_within_limit() {
    let ledger = make_ledger(vec![make_proof("wm-audio", "goodhash", 50, 0)]);
    let config = GateConfig { max_events_lost: 0, max_deafness_ms: Some(100) };
    let verdict = gate("wm-audio", "goodhash", &ledger, &config);
    assert_eq!(verdict, GateVerdict::Allow);
}

#[test]
fn test_ledger_upsert_replaces() {
    let mut ledger = ProofLedger::default();
    ledger.upsert(make_proof("wm-audio", "hash1", 0, 0));
    ledger.upsert(make_proof("wm-audio", "hash2", 0, 0));
    let entry = ledger.get("wm-audio").expect("entry must exist");
    assert_eq!(entry.binary_hash, "hash2", "second upsert should replace first");
}

#[test]
fn gate_reasons_are_told_in_full() {
    let ledger = make_ledger(vec![make_proof("wm-audio", "h", 500, 3)]);
    let reason = |daemon: &str, hash: &str, config: GateConfig| match gate(
        daemon, hash, &ledger, &config,
    ) {
        GateVerdict::Refuse { reason } => reason,
        GateVerdict::Allow => panic!("expected a refusal"),
    };
    assert_eq!(
        reason("recalld", "h", GateConfig::default()),
        "no proof found for daemon `recalld`; run `changeover probe` first"
    );
    assert_eq!(
        reason("wm-audio", "g", GateConfig::default()),
        "stale proof: proof binary_hash=h but current binary_hash=g; \
         re-run `changeover probe` after the latest build"
    );
    assert_eq!(
        reason("wm-audio", "h", GateConfig::default()),
        "events_missed_window=3 exceeds max_events_lost=0; swap was not loss-free"
    );
    assert_eq!(
        reason("wm-audio", "h", GateConfig { max_events_lost: 3, max_deafness_ms: Some(499) }),
        "deafness_ms=500 exceeds max_deafness_ms=499"
    );
    assert_eq!(
        gate(
            "wm-audio",
            "h",
            &ledger,
            &GateConfig { max_events_lost: 3, max_deafness_ms: Some(500) }
        ),
        GateVerdict::Allow
    );
}

#[test]
fn recording_one_proof_leaves_the_others() {
    let mut ledger = make_ledger(vec![make_proof("a", "1", 0, 0), make_proof("b", "2", 0, 0)]);
    ledger.upsert(make_proof("a", "3", 0, 0));
    assert_eq!(ledger.get("b").unwrap().binary_hash, "2");
    assert_eq!(ledger.get("a").unwrap().binary_hash, "3");
    assert!(ledger.get("c").is_none());
    let mut names = ledger.names();
    names.sort();
    assert_eq!(names, vec!["a".to_owned(), "b".to_owned()]);
}

#[test]
fn ledger_files_are_read_as_they_are_found() {
    assert!(ProofLedger::load("/p", LedgerRead::Missing).unwrap().names().is_empty());
    let err = |read| match ProofLedger::load("/p", read) {
        Err(e) => e.to_string(),
        Ok(_) => panic!("expected an error"),
    };
    assert_eq!(
        err(LedgerRead::Unreadable("denied".to_owned())),
        "fleet.toml error: cannot read /p: denied"
    );
    assert_eq!(
        err(LedgerRead::Unparseable("bad".to_owned())),
        "fleet.toml error: proofs.json parse error at /p: bad"
    );
    let parsed = ProofLedger::load(
        "/p",
        LedgerRead::Parsed(vec![
            ("x".to_owned(), make_proof("y", "1", 0, 0)),
            ("x".to_owned(), make_proof("y", "2", 0, 0)),
        ]),
    )
    .unwrap();
    assert_eq!(parsed.get("x").unwrap().binary_hash, "2");
    assert!(parsed.get("y").is_none());
}

#[test]
fn ledger_writes_fail_by_their_cause() {
    assert!(ProofLedger::save("/p", LedgerWrite::Written).is_ok());
    let err = |write| ProofLedger::save("/p", write).unwrap_err().to_string();
    assert_eq!(
        err(LedgerWrite::NoDirectory { dir: "/d".to_owned(), why: "ro".to_owned() }),
        "fleet.toml error: cannot create dir /d: ro"
    );
    assert_eq!(err(LedgerWrite::NotSerialised("x".to_owned())), "JSON parse error: x");
    assert_eq!(
        err(LedgerWrite::NotWritten("full".to_owned())),
        "fleet.toml error: cannot write /p: full"
    );
}

#[test]
fn ledger_lies_under_home_unless_given() {
    assert_eq!(
        default_proofs_path(Some("/home/u")).unwrap(),
        "/home/u/.config/rollout/proofs.json"
    );
    assert_eq!(ledger_path(Some("/x"), None).unwrap(), "/x");
    assert_eq!(
        ledger_path(None, None).unwrap_err().to_string(),
        "fleet.toml error: $HOME not set"
    );
}

#[test]
fn written_ledger_reads_back() {
    let ledger = make_ledger(vec![
        make_proof("wm-audio", "h1", 5, 0),
        make_proof("wm-stt", "h2", 0, 3),
        make_proof("wm-audio", "h3", 7, 1),
    ]);
    let mut entries: Vec<(String, ProofEntry)> = ledger.entries();
    assert_eq!(entries.len(), 2);
    entries.reverse();
    let read = ProofLedger::load("/p", LedgerRead::Parsed(entries)).unwrap();
    let mut names = read.names();
    names.sort();
    assert_eq!(names, vec!["wm-audio", "wm-stt"]);
    for name in names {
        let (a, b) = (ledger.get(&name).unwrap(), read.get(&name).unwrap());
        assert_eq!(
            (&a.daemon, &a.binary_hash, a.deafness_ms, a.events_missed_window, &a.recorded_at),
            (&b.daemon, &b.binary_hash, b.deafness_ms, b.events_missed_window, &b.recorded_at)
        );
        assert_eq!(a.strategy, b.strategy);
    }
}
