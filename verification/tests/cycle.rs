//! The unattended cycle.

use rollout::autogate::{ProofEntry, ProofLedger};
use rollout::calendar::format_unix_secs;
use rollout::command::CommandOutcome;
use rollout::cycle::{
    auto_enabled_from_str, cycle_mode, iso_now, now_ms, receipt_path, resolve_receipt_dir,
    CycleAction, CycleEvent, CycleReceipt, CycleRun,
};
use rollout::error::RolloutError;
use rollout::fleet::{DaemonRecipe, FleetConfig, FleetRead};
use rollout::health::VoiceActivityState;
use rollout::output::Line;
use rollout::scan::BinstaleEntry;
use rollout::warmswap::WarmSwapResult;

#[test]
fn test_auto_enabled_parse_true() {
    assert!(auto_enabled_from_str("1"), "\"1\" should mean enabled");
}

#[test]
fn test_auto_enabled_parse_false_zero() {
    assert!(!auto_enabled_from_str("0"), "\"0\" should mean disabled");
}

#[test]
fn test_auto_enabled_parse_false_empty() {
    assert!(!auto_enabled_from_str(""), "empty string should mean disabled");
}

#[test]
fn test_auto_enabled_parse_false_other() {
    assert!(!auto_enabled_from_str("yes"), "\"yes\" should mean disabled (only \"1\" enables)");
}

#[test]
fn test_format_unix_secs_epoch() {
    let s = format_unix_secs(0);
    assert_eq!(s, "1970-01-01T00:00:00Z");
}

#[test]
fn test_format_unix_secs_known_date() {
    let s = format_unix_secs(1_767_225_600);
    assert_eq!(s, "2026-01-01T00:00:00Z");
}

#[test]
fn test_resolve_receipt_dir_creates_path() {
    let target = "/tmp/base/a/b/c";
    let resolved = resolve_receipt_dir(Some(target), None).expect("resolve");
    assert_eq!(resolved, target);
}

#[test]
fn receipt_dir_lies_under_home_unless_given() {
    assert_eq!(
        resolve_receipt_dir(None, Some("/home/u")).unwrap(),
        "/home/u/.local/state/rollout/receipts"
    );
    assert_eq!(
        resolve_receipt_dir(None, None).unwrap_err().to_string(),
        "fleet.toml error: HOME env var not set"
    );
}

#[test]
fn receipt_name_has_no_colons() {
    assert_eq!(
        receipt_path("/r", "2026-06-13T12:34:56Z"),
        "/r/cycle-2026-06-13T12-34-56Z.json"
    );
    assert_eq!(
        receipt_path("/r/", "2026-06-13T00:00:00Z"),
        "/r/cycle-2026-06-13T00-00-00Z.json"
    );
}

#[test]
fn clocks_are_clamped() {
    assert_eq!(now_ms(None), 0);
    assert_eq!(now_ms(Some(1_781_136_000_123)), 1_781_136_000_123);
    assert_eq!(now_ms(Some(1 << 80)), u64::MAX);
    assert_eq!(iso_now(None), "1970-01-01T00:00:00Z");
    assert_eq!(iso_now(Some(951_782_399)), "2000-02-28T23:59:59Z");
}

#[test]
fn mode_is_live_only_when_enabled_and_not_dry() {
    let (live, line) = cycle_mode(false, "1");
    assert!(live);
    assert_eq!(
        line,
        Line::Out("rollout cycle: LIVE mode (ROLLOUT_AUTO_ENABLED=1)".to_owned())
    );
    let (live, line) = cycle_mode(false, "0");
    assert!(!live);
    assert_eq!(
        line,
        Line::Out(
            "rollout cycle: DRY-RUN mode (ROLLOUT_AUTO_ENABLED=0 — set to 1 to enable live swaps)"
                .to_owned()
        )
    );
    assert!(!cycle_mode(true, "1").0);
    assert!(!cycle_mode(false, "").0);
}

fn recipe(name: &str, unit: Option<&str>) -> DaemonRecipe {
    DaemonRecipe {
        name: name.to_owned(),
        repo: None,
        build_cmd: format!("build {name}"),
        install_cmd: "true".to_owned(),
        launch_cmd: "true".to_owned(),
        unit: unit.map(|u| u.to_owned()),
        healthcheck: None,
        grace_period_secs: 5,
        warm_swap: false,
        claim_key: None,
    }
}

fn entry(name: &str, pid: u32) -> BinstaleEntry {
    BinstaleEntry {
        pid,
        comm: name.to_owned(),
        exe_path: format!("/bin/{name}"),
        verdict: "inode-drift".to_owned(),
    }
}

fn fleet() -> FleetConfig {
    FleetConfig::load(
        "/fleet.toml",
        FleetRead::Parsed(vec![
            recipe("recalld", Some("recalld.service")),
            recipe("bare", None),
            recipe("broken", Some("broken.service")),
            recipe("wm-stt", Some("wm-stt.service")),
            recipe("wm-tts", Some("wm-tts.service")),
        ]),
    )
    .unwrap()
}

/// Stands for the digest of the binary at a path.
fn digest(path: &str) -> String {
    format!("digest of {path}")
}

fn measured(daemon: &str, missed: u64) -> ProofEntry {
    ProofEntry {
        daemon: daemon.to_owned(),
        binary_hash: digest(&format!("/bin/{daemon}")),
        deafness_ms: 1,
        events_missed_window: missed,
        recorded_at: "2026-06-13T00:00:00Z".to_owned(),
        strategy: None,
    }
}

struct Script {
    live: bool,
    proved: Result<(), RolloutError>,
    stale: Result<Vec<BinstaleEntry>, RolloutError>,
    proofs: Vec<ProofEntry>,
    voice: Vec<VoiceActivityState>,
    swaps: Vec<WarmSwapResult>,
    counts: Vec<Option<usize>>,
}

struct Ran {
    lines: Vec<Line>,
    swaps: Vec<(String, String, u32)>,
    builds: Vec<String>,
    receipt: CycleReceipt,
    prove_dry: bool,
    result: Result<(), RolloutError>,
}

fn run(script: Script) -> Ran {
    let mut run = CycleRun::new(fleet(), script.live, "2026-06-13T00:00:00Z".to_owned());
    let mut lines = Vec::new();
    let mut swaps = Vec::new();
    let mut builds = Vec::new();
    let mut receipt = None;
    let mut prove_dry = false;
    let mut proved = Some(script.proved);
    let mut stale = Some(script.stale);
    let mut proofs = Some(script.proofs);
    let mut voice = script.voice.into_iter();
    let mut results = script.swaps.into_iter();
    let mut counts = script.counts.into_iter();
    let mut event = CycleEvent::Go;
    loop {
        let step = run.run_cycle(event);
        lines.extend(step.lines);
        event = match step.action {
            CycleAction::Continue => CycleEvent::Go,
            CycleAction::Prove { dry_run, all_or_nothing } => {
                assert!(all_or_nothing);
                prove_dry = dry_run;
                CycleEvent::Proved(proved.take().unwrap())
            }
            CycleAction::Scan => CycleEvent::Scanned(stale.take().unwrap()),
            CycleAction::LoadLedger => {
                let mut ledger = ProofLedger::default();
                for p in proofs.take().unwrap() {
                    ledger.upsert(p);
                }
                CycleEvent::Loaded(Ok(ledger))
            }
            CycleAction::ProbeVoice => CycleEvent::Voice(voice.next().unwrap()),
            CycleAction::ReadHash { path } => {
                CycleEvent::Hash(if path == "/bin/lost" { None } else { Some(digest(&path)) })
            }
            CycleAction::Build { cmd, dir } => {
                assert_eq!(dir, None);
                let success = cmd != "build broken";
                builds.push(cmd);
                CycleEvent::Built(CommandOutcome::Exited {
                    success,
                    code: Some(if success { 0 } else { 101 }),
                })
            }
            CycleAction::Swap { recipe, claim_path, pid } => {
                assert_eq!(builds.last(), Some(&recipe.build_cmd));
                swaps.push((recipe.name, claim_path, pid));
                CycleEvent::Swapped { result: results.next().unwrap(), start_ms: 100, end_ms: 142 }
            }
            CycleAction::CountHolders { .. } => CycleEvent::Counted(counts.next().unwrap()),
            CycleAction::WriteReceipt(r) => {
                receipt = Some(r);
                CycleEvent::Written(Ok("/r/x.json".to_owned()))
            }
            CycleAction::Finish(result) => {
                return Ran { lines, swaps, builds, receipt: receipt.unwrap(), prove_dry, result };
            }
            CycleAction::Ignored => panic!("unexpected event"),
        };
    }
}

fn out(text: &str) -> Line {
    Line::Out(text.to_owned())
}

#[test]
fn live_cycle_swaps_what_the_ledger_allows() {
    let ran = run(Script {
        live: true,
        proved: Ok(()),
        stale: Ok(vec![
            entry("ghost", 1),
            entry("bare", 2),
            entry("recalld", 3),
            entry("wm-stt", 4),
            entry("wm-tts", 5),
        ]),
        proofs: vec![measured("recalld", 0), measured("wm-stt", 0), measured("wm-tts", 2)],
        voice: vec![
            VoiceActivityState::InFlight { reason: "turn".to_owned() },
            VoiceActivityState::Idle,
        ],
        swaps: vec![WarmSwapResult::Success { prev_pid: 3, new_pid: Some(9) }],
        counts: vec![Some(1)],
    });
    assert!(!ran.prove_dry);
    assert!(ran.result.is_ok());
    assert_eq!(
        ran.swaps,
        vec![("recalld".to_owned(), "agorabus://daemon/recalld".to_owned(), 3)]
    );
    let names: Vec<&str> = ran.receipt.daemons.iter().map(|d| d.name.as_str()).collect();
    assert_eq!(names, vec!["ghost", "bare", "recalld", "wm-stt", "wm-tts"]);
    let reasons: Vec<Option<&str>> =
        ran.receipt.daemons.iter().map(|d| d.skip_reason.as_deref()).collect();
    assert_eq!(
        reasons,
        vec![
            Some("no fleet.toml recipe"),
            Some("no claim path (warm-swap only)"),
            None,
            Some("voice active: turn"),
            Some(
                "gate Refuse: events_missed_window=2 exceeds max_events_lost=0; \
                 swap was not loss-free"
            ),
        ]
    );
    assert_eq!(ran.receipt.daemons[2].swap_ms, Some(42));
    assert_eq!(ran.receipt.daemons[2].verify_ok, Some(true));
    assert_eq!(ran.receipt.daemons[2].claim_holders, Some(1));
    assert_eq!((ran.receipt.rolled_count, ran.receipt.verify_fail_count), (1, 0));
    assert_eq!(ran.receipt.outcome, "ok");
    assert!(!ran.receipt.dry_run);
    assert_eq!(
        ran.lines,
        vec![
            out("rollout cycle [1/3]: refreshing proof ledger (prove --all)…"),
            out("rollout cycle [2/3]: live stale daemon check + apply --auto (warm-swap only)…"),
            out(
                "rollout cycle: bare skipped — no claim path (warm-swap-only mode; hard-restart skipped)"
            ),
            out("rollout cycle: recalld gate Allow — warm-swapping…"),
            out("rollout cycle: recalld warm-swap ok (42ms)"),
            out("rollout cycle: recalld verify ok (1 claim holder)"),
            out("rollout cycle: wm-stt deferred — voice active: turn"),
            out(
                "rollout cycle: wm-tts skipped — gate Refuse: events_missed_window=2 exceeds max_events_lost=0; swap was not loss-free"
            ),
            out("rollout cycle [3/3]: outcome=ok rolled=1 verify_fail=0"),
            out("rollout cycle: receipt → /r/x.json"),
        ]
    );
}

#[test]
fn dormant_cycle_only_tells() {
    let ran = run(Script {
        live: false,
        proved: Err(RolloutError::ProveRefused { reason: "r".to_owned() }),
        stale: Ok(vec![entry("recalld", 3), entry("wm-stt", 4), entry("wm-tts", 5)]),
        proofs: vec![measured("recalld", 0)],
        voice: vec![VoiceActivityState::BusUnreachable, VoiceActivityState::Idle],
        swaps: vec![],
        counts: vec![],
    });
    assert!(ran.prove_dry);
    assert!(ran.swaps.is_empty());
    assert!(ran.result.is_ok(), "a dry run always ends well");
    assert_eq!(ran.receipt.outcome, "dry-run");
    assert!(ran.receipt.dry_run);
    assert_eq!(ran.receipt.rolled_count, 0);
    let reasons: Vec<Option<&str>> =
        ran.receipt.daemons.iter().map(|d| d.skip_reason.as_deref()).collect();
    assert_eq!(
        reasons,
        vec![
            Some("dry-run (would warm-swap)"),
            Some("agorabus unreachable"),
            Some("dry-run (would skip (gate Refuse))"),
        ]
    );
    assert!(ran.lines.contains(&Line::Warn(
        "rollout cycle: prove step warning: prove Refuse: r".to_owned()
    )));
    assert!(ran.builds.is_empty());
    for line in [
        "rollout cycle [dry-run]: recalld — would warm-swap",
        "rollout cycle [dry-run]: recalld — would verify 1 claim holder on 'agorabus://daemon/recalld'",
        "rollout cycle [dry-run]: wm-tts — would skip (gate Refuse)",
        "rollout cycle [dry-run]: wm-tts — would verify nothing",
    ] {
        assert!(ran.lines.contains(&out(line)), "{line}");
    }
}

#[test]
fn daemon_that_cannot_be_built_is_skipped() {
    let ran = run(Script {
        live: true,
        proved: Ok(()),
        stale: Ok(vec![entry("broken", 1), entry("recalld", 3)]),
        proofs: vec![measured("broken", 0), measured("recalld", 0)],
        voice: vec![],
        swaps: vec![WarmSwapResult::Success { prev_pid: 3, new_pid: None }],
        counts: vec![Some(1)],
    });
    assert!(ran.result.is_ok());
    assert_eq!(ran.builds, vec!["build broken", "build recalld"]);
    assert_eq!(ran.swaps.len(), 1);
    let broken = &ran.receipt.daemons[0];
    assert_eq!(
        broken.skip_reason.as_deref(),
        Some("build/install step for `broken` failed: build cmd exited 101")
    );
    assert_eq!((broken.restarted, broken.verify_ok, broken.swap_ms), (false, None, None));
    assert!(ran.lines.contains(&Line::Warn(
        "rollout cycle: broken skipped — build/install step for `broken` failed: \
         build cmd exited 101"
            .to_owned()
    )));
}

#[test]
fn proof_is_held_against_the_installed_binary() {
    let mut drifted = entry("recalld", 3);
    drifted.exe_path = "/bin/recalld (deleted)".to_owned();
    let mut lost = entry("wm-stt", 4);
    lost.exe_path = "/bin/lost".to_owned();
    let mut rebuilt = measured("wm-tts", 0);
    rebuilt.binary_hash = "digest of an earlier build".to_owned();
    let ran = run(Script {
        live: true,
        proved: Ok(()),
        stale: Ok(vec![drifted, lost, entry("wm-tts", 5)]),
        proofs: vec![measured("recalld", 0), measured("wm-stt", 0), rebuilt],
        voice: vec![VoiceActivityState::Idle, VoiceActivityState::Idle],
        swaps: vec![WarmSwapResult::Success { prev_pid: 3, new_pid: None }],
        counts: vec![Some(1)],
    });
    assert_eq!(
        ran.swaps,
        vec![("recalld".to_owned(), "agorabus://daemon/recalld".to_owned(), 3)]
    );
    assert_eq!(
        ran.receipt.daemons[1].skip_reason.as_deref(),
        Some("gate Refuse: cannot hash the installed binary /bin/lost")
    );
    assert!(ran.receipt.daemons[2].skip_reason.as_deref().unwrap().starts_with(
        "gate Refuse: stale proof: proof binary_hash=digest of an earlier build but current \
         binary_hash=digest of /bin/wm-tts;"
    ));
}

#[test]
fn failed_verification_fails_the_cycle() {
    let ran = run(Script {
        live: true,
        proved: Ok(()),
        stale: Ok(vec![entry("recalld", 3), entry("wm-stt", 4), entry("wm-tts", 5)]),
        proofs: vec![measured("recalld", 0), measured("wm-stt", 0), measured("wm-tts", 0)],
        voice: vec![VoiceActivityState::Idle, VoiceActivityState::Idle],
        swaps: vec![
            WarmSwapResult::Success { prev_pid: 3, new_pid: None },
            WarmSwapResult::SplitState { holders: 2 },
            WarmSwapResult::Failed(RolloutError::Signal("x".to_owned())),
        ],
        counts: vec![None],
    });
    match ran.result {
        Err(RolloutError::CycleVerifyFailed { count }) => assert_eq!(count, 3),
        _ => panic!("expected a verification failure"),
    }
    assert_eq!(ran.receipt.outcome, "partial");
    assert_eq!((ran.receipt.rolled_count, ran.receipt.verify_fail_count), (0, 3));
    assert_eq!(ran.receipt.daemons[0].claim_holders, Some(0));
    assert_eq!(ran.receipt.daemons[1].claim_holders, Some(2));
    assert_eq!(
        ran.receipt.daemons[2].skip_reason.as_deref(),
        Some("swap failed: signal error: x")
    );
    assert!(ran.lines.contains(&Line::Warn(
        "rollout cycle: recalld verify FAIL — expected 1 claim holder, got 0".to_owned()
    )));
    assert!(ran.lines.contains(&Line::Warn(
        "rollout cycle: wm-stt SplitState after swap (holders=2) — skipping".to_owned()
    )));
}

#[test]
fn refused_proof_fails_a_live_cycle() {
    let ran = run(Script {
        live: true,
        proved: Err(RolloutError::ProveRefused { reason: "one".to_owned() }),
        stale: Err(RolloutError::BinstaleScanFailed("gone".to_owned())),
        proofs: vec![],
        voice: vec![],
        swaps: vec![],
        counts: vec![],
    });
    assert_eq!(ran.result.unwrap_err().to_string(), "prove Refuse: one");
    assert!(ran.receipt.daemons.is_empty());
    assert!(ran.lines.contains(&Line::Warn(
        "rollout cycle: binstale scan failed: binstale scan failed: gone; treating as empty"
            .to_owned()
    )));
    assert!(ran.lines.contains(&Line::Warn(
        "rollout cycle: proceeding with existing ledger entries".to_owned()
    )));
}

#[test]
fn other_prove_failures_are_advisory() {
    let ran = run(Script {
        live: true,
        proved: Err(RolloutError::BuildFailed { name: "a".to_owned(), reason: "b".to_owned() }),
        stale: Ok(vec![]),
        proofs: vec![],
        voice: vec![],
        swaps: vec![],
        counts: vec![],
    });
    assert!(ran.result.is_ok());
}
