//! Proving daemons.

use rollout::autogate::{
    gate, GateConfig, GateVerdict, LedgerRead, LedgerWrite, ProofEntry, ProofLedger,
};
use rollout::error::RolloutError;
use rollout::fleet::{DaemonRecipe, FleetConfig, FleetRead};
use rollout::output::Line;
use rollout::prove::{
    compute_verdict, format_verdict, read_proof, run_probe, run_prove, run_record_proof, ProbeRun,
    ProofRead, ProveAction, ProveEvent, ProveRun, ProveTargets,
};

fn entry(daemon: &str, hash: &str, deafness_ms: u64, missed: u64) -> ProofEntry {
    ProofEntry {
        daemon: daemon.to_owned(),
        binary_hash: hash.to_owned(),
        deafness_ms,
        events_missed_window: missed,
        recorded_at: "2026-06-13T00:00:00Z".to_owned(),
        strategy: Some("warm-swap".to_owned()),
    }
}

/// Proves the daemons of `probes` in their order, from the entries of `ledger`.
fn drive(
    probes: Vec<ProofEntry>,
    ledger: Vec<ProofEntry>,
    dry_run: bool,
) -> (Result<(), RolloutError>, Vec<Line>, Option<Vec<ProofEntry>>) {
    let names: Vec<String> = probes.iter().map(|p| p.daemon.clone()).collect();
    drive_run(
        ProveRun::new(names, "/p.json".to_owned(), dry_run, false, "changeover".to_owned()),
        probes,
        ledger,
    )
}

fn drive_run(
    mut run: ProveRun,
    probes: Vec<ProofEntry>,
    ledger: Vec<ProofEntry>,
) -> (Result<(), RolloutError>, Vec<Line>, Option<Vec<ProofEntry>>) {
    let mut probes = probes.into_iter();
    let mut ledger = Some(ledger);
    let mut lines = Vec::new();
    let mut saved = None;
    let mut event = ProveEvent::Begin;
    loop {
        let step = run.prove_daemons(event);
        lines.extend(step.lines);
        event = match step.action {
            ProveAction::LoadLedger { path } => {
                assert_eq!(path, "/p.json");
                let list = ledger.take().unwrap();
                ProveEvent::Loaded(LedgerRead::Parsed(
                    list.into_iter().map(|e| (e.daemon.clone(), e)).collect(),
                ))
            }
            ProveAction::Probe { bin, daemon } => {
                assert_eq!(bin, "changeover");
                let found = probes.next().unwrap();
                assert_eq!(daemon, found.daemon);
                ProveEvent::Probed(ProbeRun::Proof(found))
            }
            ProveAction::SaveLedger { path } => {
                assert_eq!(path, "/p.json");
                let mut entries = run.ledger().entries();
                entries.sort_by(|a, b| a.0.cmp(&b.0));
                saved = Some(entries.into_iter().map(|(_, e)| e).collect::<Vec<_>>());
                ProveEvent::Saved(LedgerWrite::Written)
            }
            ProveAction::Finish(r) => return (r, lines, saved),
            ProveAction::Ignored => panic!("unexpected event"),
        };
    }
}

/// A proof as a probe of the given values gives it.
fn fixture_probe(daemon: &str, hash: &str, deafness_ms: u64, missed: u64) -> ProofEntry {
    let mut probe = entry(daemon, hash, deafness_ms, missed);
    probe.strategy = None;
    probe
}

/// The ledger that a file with these entries loads as.
fn reload(saved: Vec<ProofEntry>) -> ProofLedger {
    let entries = saved.into_iter().map(|e| (e.daemon.clone(), e)).collect();
    ProofLedger::load("/p.json", LedgerRead::Parsed(entries)).expect("load")
}

#[test]
fn test_prove_writes_ledger() {
    let (result, _, saved) = drive(vec![fixture_probe("wm-audio", "abc123", 10, 0)], vec![], false);
    assert!(result.is_ok(), "prove should succeed: {result:?}");
    let written = saved.expect("ledger written");
    assert_eq!(written[0].daemon, "wm-audio", "ledger must contain daemon name");
    assert_eq!(written[0].binary_hash, "abc123", "ledger must contain binary hash");
}

#[test]
fn test_prove_refuse_exits_nonzero() {
    let (result, _, _) = drive(vec![fixture_probe("wm-audio", "abc123", 10, 5)], vec![], false);
    assert!(result.is_err(), "should be Err on Refuse verdict");
    let err_msg = result.unwrap_err().to_string();
    assert!(err_msg.contains("Refuse"), "error should mention Refuse: {err_msg}");
}

#[test]
fn test_prove_dry_run_no_write() {
    let (result, _, saved) = drive(vec![fixture_probe("wm-audio", "abc123", 10, 0)], vec![], true);
    assert!(result.is_ok(), "dry-run should succeed: {result:?}");
    assert!(saved.is_none(), "dry-run must not create ledger file");
}

#[test]
fn test_hash_change_invalidates_prior_proof() {
    let (result, _, saved) = drive(vec![fixture_probe("wm-audio", "hash1", 0, 0)], vec![], false);
    result.expect("first prove");
    let first = saved.expect("ledger written");
    let ledger = reload(first.clone());
    assert_eq!(ledger.get("wm-audio").expect("entry").binary_hash, "hash1");

    let (result, _, saved) = drive(vec![fixture_probe("wm-audio", "hash2", 0, 0)], first, false);
    result.expect("second prove");
    let ledger2 = reload(saved.expect("ledger written"));
    assert_eq!(
        ledger2.get("wm-audio").expect("entry2").binary_hash,
        "hash2",
        "ledger must reflect updated hash"
    );

    let verdict = gate("wm-audio", "hash1", &ledger2, &GateConfig::default());
    assert!(
        matches!(verdict, GateVerdict::Refuse { .. }),
        "old hash must produce Refuse after hash changes"
    );
}

#[test]
fn test_prove_all_produces_one_entry_per_daemon() {
    let (result, _, saved) = drive(vec![fixture_probe("wm-audio", "h1", 0, 0)], vec![], false);
    result.expect("audio");
    let first = saved.expect("ledger written");
    let (result, _, saved) = drive(vec![fixture_probe("wm-stt", "h2", 0, 0)], first, false);
    result.expect("stt");
    let ledger = reload(saved.expect("ledger written"));
    assert!(ledger.get("wm-audio").is_some(), "wm-audio entry must exist");
    assert!(ledger.get("wm-stt").is_some(), "wm-stt entry must exist");
}

#[test]
fn proof_is_recorded() {
    let (result, lines, saved) = drive(vec![entry("wm-audio", "abc123", 10, 0)], vec![], false);
    assert!(result.is_ok());
    let saved = saved.expect("the ledger is saved");
    assert_eq!(saved.len(), 1);
    assert_eq!((saved[0].daemon.as_str(), saved[0].binary_hash.as_str()), ("wm-audio", "abc123"));
    assert_eq!(saved[0].strategy.as_deref(), Some("warm-swap"));
    assert_eq!(
        lines,
        vec![
            Line::Part("rollout prove [1/1]: probing wm-audio… ".to_owned()),
            Line::Out("Allow  hash=abc123  window=10ms  events_lost=0".to_owned()),
            Line::Out("rollout prove: ledger written → /p.json".to_owned()),
        ]
    );
}

#[test]
fn refused_proof_fails_the_run_but_is_recorded() {
    let (result, lines, saved) =
        drive(vec![entry("wm-audio", "0123456789abcdef", 10, 5)], vec![], false);
    let text = result.unwrap_err().to_string();
    assert!(text.contains("Refuse"), "error should mention Refuse: {text}");
    assert_eq!(text, "prove Refuse: one or more daemons returned a Refuse proof");
    assert!(saved.is_some());
    assert_eq!(
        lines[1],
        Line::Out("Refuse  hash=0123456789ab  window=10ms  events_lost=5".to_owned())
    );
}

#[test]
fn refused_proof_keeps_the_ledger_of_an_all_or_nothing_run() {
    let all_or_nothing = |missed| {
        let names = vec!["wm-audio".to_owned(), "wm-stt".to_owned()];
        let run = ProveRun::new(names, "/p.json".to_owned(), false, true, "changeover".to_owned());
        drive_run(
            run,
            vec![entry("wm-audio", "h1", 0, missed), entry("wm-stt", "h2", 0, 0)],
            vec![entry("wm-audio", "h0", 0, 0)],
        )
    };
    let (result, lines, saved) = all_or_nothing(1);
    assert!(matches!(result, Err(RolloutError::ProveRefused { .. })));
    assert!(saved.is_none());
    assert_eq!(lines.len(), 4);
    let (result, _, saved) = all_or_nothing(0);
    assert!(result.is_ok());
    assert_eq!(saved.unwrap().len(), 2);
}

#[test]
fn dry_run_saves_nothing() {
    let (result, lines, saved) = drive(vec![entry("wm-audio", "abc123", 10, 0)], vec![], true);
    assert!(result.is_ok());
    assert!(saved.is_none());
    assert_eq!(
        lines[2],
        Line::Out("  [dry-run] would record proof for `wm-audio` → /p.json".to_owned())
    );
    let (result, _, saved) = drive(vec![entry("wm-audio", "abc123", 10, 1)], vec![], true);
    assert!(result.is_err() && saved.is_none());
}

#[test]
fn new_hash_invalidates_the_earlier_proof() {
    let (_, _, saved) = drive(
        vec![entry("wm-audio", "hash2", 0, 0)],
        vec![entry("wm-audio", "hash1", 0, 0), entry("other", "x", 0, 0)],
        false,
    );
    let mut ledger = ProofLedger::default();
    for e in saved.unwrap() {
        ledger.upsert(e);
    }
    assert_eq!(ledger.get("wm-audio").unwrap().binary_hash, "hash2");
    assert_eq!(ledger.get("other").unwrap().binary_hash, "x");
    let verdict = gate("wm-audio", "hash1", &ledger, &GateConfig::default());
    assert!(matches!(verdict, GateVerdict::Refuse { .. }));
}

#[test]
fn last_proof_of_a_daemon_counts() {
    let (_, _, saved) =
        drive(vec![entry("wm-audio", "h1", 0, 0), entry("wm-audio", "h2", 0, 0)], vec![], false);
    let saved = saved.unwrap();
    assert_eq!(saved.len(), 1);
    assert_eq!(saved[0].binary_hash, "h2");
}

#[test]
fn every_daemon_gets_an_entry() {
    let (result, lines, saved) =
        drive(vec![entry("wm-audio", "h1", 0, 0), entry("wm-stt", "h2", 0, 0)], vec![], false);
    assert!(result.is_ok());
    let names: Vec<String> = saved.unwrap().into_iter().map(|e| e.daemon).collect();
    assert_eq!(names, vec!["wm-audio", "wm-stt"]);
    assert_eq!(lines[2], Line::Part("rollout prove [2/2]: probing wm-stt… ".to_owned()));
}

#[test]
fn failed_steps_end_the_run() {
    let end = |events: Vec<ProveEvent>| {
        let mut run =
            ProveRun::new(vec!["d".to_owned()], "/p".to_owned(), false, false, "co".to_owned());
        for event in events {
            if let ProveAction::Finish(r) = run.prove_daemons(event).action {
                return r.unwrap_err().to_string();
            }
        }
        panic!("the run has not ended")
    };
    assert_eq!(
        end(vec![ProveEvent::Begin, ProveEvent::Loaded(LedgerRead::Unreadable("x".to_owned()))]),
        "fleet.toml error: cannot read /p: x"
    );
    let probed = |run| {
        end(vec![
            ProveEvent::Begin,
            ProveEvent::Loaded(LedgerRead::Missing),
            ProveEvent::Probed(run),
        ])
    };
    assert_eq!(
        probed(ProbeRun::NotSpawned("x".to_owned())),
        "build/install step for `d` failed: failed to spawn `co probe`: x"
    );
    assert_eq!(
        end(vec![
            ProveEvent::Begin,
            ProveEvent::Loaded(LedgerRead::Missing),
            ProveEvent::Probed(ProbeRun::Proof(entry("d", "h", 0, 0))),
            ProveEvent::Saved(LedgerWrite::NotWritten("full".to_owned())),
        ]),
        "fleet.toml error: cannot write /p: full"
    );
}

#[test]
fn probes_fail_by_their_cause() {
    let text = |run| run_probe("co", "d", run).unwrap_err().to_string();
    assert_eq!(
        text(ProbeRun::Failed { code: Some(-3), stderr: "boom".to_owned() }),
        "build/install step for `d` failed: `co probe d` exited Some(-3): boom"
    );
    assert_eq!(
        text(ProbeRun::Failed { code: None, stderr: String::new() }),
        "build/install step for `d` failed: `co probe d` exited None: "
    );
    assert_eq!(
        text(ProbeRun::NotText("x".to_owned())),
        "binstale scan failed: `co probe d` produced non-UTF-8 output: x"
    );
    assert_eq!(
        text(ProbeRun::NoProof { output: "raw".to_owned(), why: "x".to_owned() }),
        "fleet.toml error: changeover probe for `d` returned unparseable JSON: x\nraw output:\nraw"
    );
    assert_eq!(run_probe("co", "d", ProbeRun::Proof(entry("e", "h", 1, 2))).unwrap().daemon, "e");
}

#[test]
fn verdict_of_a_proof_is_its_missed_events() {
    assert_eq!(compute_verdict(&entry("d", "h", 9_999_999, 0)), GateVerdict::Allow);
    let refused = compute_verdict(&entry("d", "h", 0, 1));
    assert!(matches!(refused, GateVerdict::Refuse { .. }));
    assert_eq!(format_verdict(&GateVerdict::Allow), "Allow");
    assert_eq!(format_verdict(&refused), "Refuse");
}

#[test]
fn proofs_are_read_and_recorded() {
    let text = |from, read| read_proof(from, read).unwrap_err().to_string();
    assert_eq!(
        text("-", ProofRead::Unreadable("x".to_owned())),
        "binstale scan failed: read stdin: x"
    );
    assert_eq!(
        text("/f", ProofRead::Unreadable("x".to_owned())),
        "binstale scan failed: read /f: x"
    );
    assert_eq!(
        text("/f", ProofRead::Unparseable("x".to_owned())),
        "fleet.toml error: probe JSON parse error: x"
    );
    let found = read_proof("/f", ProofRead::Parsed(entry("d", "h", 1, 2))).unwrap();
    let mut ledger = ProofLedger::default();
    let line = run_record_proof(&mut ledger, found, "/p");
    assert_eq!(line, Line::Out("record-proof: saved proof for `d` → /p".to_owned()));
    assert_eq!(ledger.get("d").unwrap().events_missed_window, 2);
}

#[test]
fn targets_are_named_or_all() {
    let recipe = |name: &str| DaemonRecipe {
        name: name.to_owned(),
        repo: None,
        build_cmd: "true".to_owned(),
        install_cmd: "true".to_owned(),
        launch_cmd: "true".to_owned(),
        unit: None,
        healthcheck: None,
        grace_period_secs: 5,
        warm_swap: false,
        claim_key: None,
    };
    let fleet =
        FleetConfig::load("/f", FleetRead::Parsed(vec![recipe("a"), recipe("b")])).unwrap();
    let empty = FleetConfig::load("/f", FleetRead::Parsed(vec![])).unwrap();
    match run_prove(true, None, &fleet) {
        Ok(ProveTargets::Daemons(mut names)) => {
            names.sort();
            assert_eq!(names, vec!["a", "b"]);
        }
        _ => panic!("expected all daemons"),
    }
    match run_prove(false, Some("x"), &fleet) {
        Ok(ProveTargets::Daemons(names)) => assert_eq!(names, vec!["x"]),
        _ => panic!("expected the named daemon"),
    }
    match run_prove(true, None, &empty) {
        Ok(ProveTargets::Nothing(line)) => assert_eq!(
            line,
            Line::Out("rollout prove: no daemons in fleet recipe. Nothing to prove.".to_owned())
        ),
        _ => panic!("expected nothing"),
    }
    match run_prove(false, None, &fleet) {
        Err(e) => assert_eq!(
            e.to_string(),
            "fleet.toml error: rollout prove: specify --daemon <unit> or --all"
        ),
        Ok(_) => panic!("expected an error"),
    }
}
