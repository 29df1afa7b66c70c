//! The plan, and the run that applies it.

use rollout::apply::{ApplyAction, ApplyEvent, ApplyOptions, ApplyRun};
use rollout::autogate::{ProofEntry, ProofLedger};
use rollout::cli::{
    duration_in_range, parse_duration, run_fleet_gen_cmd, run_plan, FleetGenCliArgs,
};
use rollout::command::CommandOutcome;
use rollout::error::RolloutError;
use rollout::fleet::{DaemonRecipe, FleetConfig, FleetRead};
use rollout::health::{ProbeEvent, VoiceActivityState, VoiceProbe, WindowSample};
use rollout::output::Line;
use rollout::restart::{RestartResult, RestartStrategy};
use rollout::scan::BinstaleEntry;
use rollout::warmswap::WarmSwapResult;

fn recipe(name: &str, build: &str, install: &str, launch: &str) -> DaemonRecipe {
    DaemonRecipe {
        name: name.to_owned(),
        repo: None,
        build_cmd: build.to_owned(),
        install_cmd: install.to_owned(),
        launch_cmd: launch.to_owned(),
        unit: None,
        healthcheck: None,
        grace_period_secs: 5,
        warm_swap: false,
        claim_key: None,
    }
}

fn fleet(recipes: Vec<DaemonRecipe>) -> FleetConfig {
    FleetConfig::load("/fleet.toml", FleetRead::Parsed(recipes)).unwrap()
}

fn stale(name: &str, pid: u32) -> BinstaleEntry {
    BinstaleEntry {
        pid,
        comm: name.to_owned(),
        exe_path: format!("/usr/local/bin/{name} (deleted)"),
        verdict: "deleted-exe".to_owned(),
    }
}

fn stdout(lines: &[Line]) -> String {
    let mut text = String::new();
    for line in lines {
        match line {
            Line::Out(s) => {
                text.push_str(s);
                text.push('\n');
            }
            Line::Part(s) => text.push_str(s),
            Line::Warn(_) => {}
        }
    }
    text
}

// ── plan ─────────────────────────────────────────────────────────────────────

#[test]
fn plan_prints_daemon_and_commands_no_mutation() {
    let fleet =
        fleet(vec![recipe("fixture-daemon", "echo build", "echo install", "echo launch")]);
    let (lines, result) = run_plan(&fleet, vec![stale("fixture-daemon", 99999)], None);
    assert!(result.is_ok());
    assert_eq!(
        stdout(&lines),
        "rollout plan: 1 stale daemon(s) found\n\
         \n\
         [1/1] fixture-daemon (pid=99999, verdict=deleted-exe)\n  \
         exe:     /usr/local/bin/fixture-daemon (deleted)\n  \
         strategy: hard\n  \
         build:   echo build\n  \
         install: echo install\n  \
         launch:  echo launch\n  \
         health:  agorabus peers | jq -e '.[] | .name' | grep -q fixture-daemon\n  \
         grace:   5s\n\
         \n"
    );
}

/// A recipe that asks for a warm swap and has a unit.
fn warm(name: &str) -> DaemonRecipe {
    let mut r = recipe(name, "true", "true", &format!("{name} &"));
    r.unit = Some(format!("{name}.service"));
    r.warm_swap = true;
    r
}

#[test]
fn plan_shows_strategy_hard_for_plain_daemon() {
    let fleet =
        fleet(vec![recipe("fixture-daemon", "echo build", "echo install", "echo launch")]);
    let (lines, result) = run_plan(&fleet, vec![stale("fixture-daemon", 99999)], None);
    assert!(result.is_ok(), "plan should exit 0");
    let stdout = stdout(&lines);
    assert!(
        stdout.contains("strategy: hard"),
        "AC1: plan must show 'strategy: hard' for plain daemon; got: {stdout}"
    );
    assert!(
        !stdout.contains("strategy: warm-swap"),
        "AC1: plan must NOT show 'strategy: warm-swap' for plain daemon; got: {stdout}"
    );
}

#[test]
fn plan_shows_strategy_warm_swap_for_warm_swap_daemon() {
    let (lines, result) =
        run_plan(&fleet(vec![warm("wm-stt")]), vec![stale("wm-stt", 99999)], None);
    assert!(result.is_ok(), "plan should exit 0");
    let stdout = stdout(&lines);
    assert!(
        stdout.contains("strategy: warm-swap"),
        "AC1: plan must show 'strategy: warm-swap' for warm_swap=true daemon; got: {stdout}"
    );
    assert!(
        !stdout.contains("strategy: hard"),
        "AC1: plan must NOT show 'strategy: hard' for warm-swap daemon; got: {stdout}"
    );
}

#[test]
fn plan_shows_strategy_warm_swap_for_claim_key_daemon() {
    let mut tts = warm("wm-tts");
    tts.warm_swap = false;
    tts.claim_key = Some("agorabus://daemon/wm-tts".to_owned());
    let (lines, result) = run_plan(&fleet(vec![tts]), vec![stale("wm-tts", 99999)], None);
    assert!(result.is_ok(), "plan should exit 0");
    let stdout = stdout(&lines);
    assert!(
        stdout.contains("strategy: warm-swap"),
        "AC1: plan must show 'strategy: warm-swap' for daemon with claim_key; got: {stdout}"
    );
}

#[test]
fn plan_only_warm_swap_prints_full_sequence_no_mutation() {
    let (lines, result) =
        run_plan(&fleet(vec![warm("wm-stt")]), vec![stale("wm-stt", 99999)], Some("wm-stt"));
    assert!(result.is_ok(), "plan --only should exit 0");
    let stdout = stdout(&lines);
    for step in [
        "install binary",
        "launch successor",
        "ClaimAcquire",
        "stop predecessor",
        "verify exactly 1 holder",
        "agorabus://daemon/wm-stt",
    ] {
        assert!(stdout.contains(step), "AC5: plan must print '{step}'; got: {stdout}");
    }
}

#[test]
fn plan_refuses_unknown_daemon_exits_nonzero() {
    let (_, result) = run_plan(&fleet(vec![]), vec![stale("ghost-daemon2", 99997)], None);
    assert!(result.is_err(), "rollout plan should exit non-zero for unknown daemon");
}

#[test]
fn ac4_wm_audio_accepted_in_plan() {
    let mut audio = recipe("wm-audio", "echo build", "echo install", "echo launch");
    audio.grace_period_secs = 3;
    let (lines, result) = run_plan(&fleet(vec![audio]), vec![stale("wm-audio", 99999)], None);
    let stdout = stdout(&lines);
    assert!(result.is_ok(), "AC4: rollout plan with wm-audio must succeed; stdout={stdout}");
    assert!(
        stdout.contains("wm-audio"),
        "AC4: wm-audio should appear in plan output; got: {stdout}"
    );
}

#[test]
fn plan_shows_warm_swap_sequence() {
    let mut stt = recipe("wm-stt", "true", "true", "wm-stt &");
    stt.unit = Some("wm-stt.service".to_owned());
    stt.warm_swap = true;
    stt.repo = Some("/src/wm-stt".to_owned());
    let other = recipe("other", "true", "true", "true");
    let (lines, result) = run_plan(
        &fleet(vec![other, stt]),
        vec![stale("other", 1), stale("wm-stt", 99999)],
        Some("wm-stt"),
    );
    assert!(result.is_ok());
    let text = stdout(&lines);
    assert!(!text.contains("other"));
    assert!(text.contains("  repo:    /src/wm-stt\n  strategy: warm-swap\n"));
    assert!(text.contains(
        "  warm-swap sequence:\n    \
         1. install binary → dest\n    \
         2. launch successor (systemd-run --user --scope)\n    \
         3. wait for ClaimAcquire on 'agorabus://daemon/wm-stt'\n    \
         4. stop predecessor (systemctl --user stop)\n    \
         5. verify exactly 1 holder on 'agorabus://daemon/wm-stt'\n\n"
    ));
}

#[test]
fn plan_shows_warm_swap_for_claim_keys() {
    let mut tts = recipe("wm-tts", "true", "true", "wm-tts &");
    tts.unit = Some("wm-tts.service".to_owned());
    tts.claim_key = Some("agorabus://daemon/other".to_owned());
    let (lines, _) = run_plan(&fleet(vec![tts]), vec![stale("wm-tts", 1)], None);
    let text = stdout(&lines);
    assert!(text.contains("strategy: warm-swap"));
    assert!(text.contains("5. verify exactly 1 holder on 'agorabus://daemon/other'"));
}

#[test]
fn plan_refuses_unknown_daemons() {
    let fleet = fleet(vec![recipe("a", "b", "i", "l")]);
    let (lines, result) =
        run_plan(&fleet, vec![stale("ghost-daemon2", 99997), stale("a", 1), stale("g", 2)], None);
    assert!(lines.is_empty());
    assert_eq!(
        result.unwrap_err().to_string(),
        "unknown daemons (not in fleet.toml): ghost-daemon2, g"
    );
}

#[test]
fn plan_without_stale_daemons_has_nothing_to_do() {
    let fleet = fleet(vec![]);
    let (lines, result) = run_plan(&fleet, vec![], None);
    assert!(result.is_ok());
    assert_eq!(stdout(&lines), "rollout plan: no stale daemons found. Nothing to do.\n");
    let (_, result) = run_plan(&fleet, vec![stale("x", 1)], Some("y"));
    assert!(result.is_ok());
}

// ── apply ────────────────────────────────────────────────────────────────────

const PLAIN: ApplyOptions = ApplyOptions { auto: false, dry_run: false, window_secs: None };

fn measured(daemon: &str, hash: &str) -> ProofEntry {
    ProofEntry {
        daemon: daemon.to_owned(),
        binary_hash: hash.to_owned(),
        deafness_ms: 0,
        events_missed_window: 0,
        recorded_at: String::new(),
        strategy: None,
    }
}

fn restarted(name: &str, pid: u32) -> RestartResult {
    RestartResult {
        name: name.to_owned(),
        old_pid: pid,
        new_pid: Some(pid + 1),
        start_ms: 1000,
        end_ms: 1250,
        success: true,
        sigkill_used: false,
        restart_path: RestartStrategy::SigtermLaunch,
    }
}

struct Ran {
    lines: Vec<Line>,
    done: Vec<String>,
    result: Result<(), RolloutError>,
}

fn apply(
    mut run: ApplyRun,
    ledger: Vec<ProofEntry>,
    voice: &dyn Fn() -> VoiceActivityState,
    sample: WindowSample,
    failing: Option<&str>,
) -> Ran {
    let mut lines = Vec::new();
    let mut done = Vec::new();
    let mut ledger = Some(ledger);
    let mut event = ApplyEvent::Go;
    loop {
        let step = run.run_apply(event);
        lines.extend(step.lines);
        event = match step.action {
            ApplyAction::Continue => ApplyEvent::Go,
            ApplyAction::LoadLedger => {
                let mut loaded = ProofLedger::default();
                for e in ledger.take().unwrap() {
                    loaded.upsert(e);
                }
                ApplyEvent::Loaded(Ok(loaded))
            }
            ApplyAction::ProbeVoice => {
                done.push("probe".to_owned());
                ApplyEvent::Voice(voice())
            }
            ApplyAction::ReadHash { path } => {
                done.push(format!("hash {path}"));
                ApplyEvent::Hash(if path == "/usr/local/bin/lost" {
                    None
                } else {
                    Some(format!("digest of {path}"))
                })
            }
            ApplyAction::SampleWindow { secs } => {
                done.push(format!("sample {secs}"));
                ApplyEvent::Window(sample)
            }
            ApplyAction::Restart { recipe, pid } => {
                done.push(format!("restart {} {pid}", recipe.name));
                if failing == Some(recipe.name.as_str()) {
                    ApplyEvent::Restarted(Err(RolloutError::HealthcheckTimeout {
                        name: recipe.name,
                        old_pid: pid,
                        new_pid: None,
                        reason: "late".to_owned(),
                    }))
                } else {
                    ApplyEvent::Restarted(Ok(restarted(&recipe.name, pid)))
                }
            }
            ApplyAction::Build { cmd, dir } => {
                done.push(format!("build {cmd} {dir:?}"));
                let failed = failing == Some(cmd.as_str());
                let code = Some(i32::from(failed));
                let ran = CommandOutcome::Exited { success: !failed, code };
                ApplyEvent::Built { ran, start_ms: 2000 }
            }
            ApplyAction::Swap { recipe, claim_path, pid } => {
                done.push(format!("swap {} {claim_path} {pid}", recipe.name));
                let result = if failing == Some(recipe.name.as_str()) {
                    WarmSwapResult::SplitState { holders: 2 }
                } else {
                    WarmSwapResult::Success { prev_pid: pid, new_pid: Some(pid + 1) }
                };
                ApplyEvent::Swapped { result, end_ms: 2300 }
            }
            ApplyAction::Finish(result) => return Ran { lines, done, result },
            ApplyAction::Ignored => panic!("unexpected event"),
        };
    }
}

fn idle() -> VoiceActivityState {
    VoiceActivityState::Idle
}

fn names(list: &[&str]) -> FleetConfig {
    fleet(list.iter().map(|n| recipe(n, "echo build", "echo install", "l")).collect())
}

fn simple(list: &[&str], options: ApplyOptions, auto: &str) -> ApplyRun {
    let stale_entries =
        list.iter().enumerate().map(|(i, n)| stale(n, 10 + i as u32)).collect();
    ApplyRun::new(names(list), stale_entries, None, options, auto.to_owned())
}

/// What a probe of a bus says that gives these topics and then stays open.
fn hear(topics: &[&str]) -> VoiceActivityState {
    let mut probe = VoiceProbe::new();
    for topic in topics {
        let text = format!("{{\"topic\":\"{topic}\",\"data\":{{}},\"from\":\"test\"}}");
        assert!(probe.voice_activity_in_flight(ProbeEvent::Line { text, now_ns: 0 }).is_none());
    }
    probe.voice_activity_in_flight(ProbeEvent::Over { now_ns: 3_000_000_000 }).unwrap()
}

#[test]
fn ac2_session_in_flight_defers_voice_daemon() {
    let voice = || hear(&["wm.brain.session.start"]);
    let run = simple(&["wm-dialog"], PLAIN, "");
    let ran = apply(run, vec![], &voice, WindowSample::Quiet, None);
    let stdout = stdout(&ran.lines);
    assert!(ran.result.is_err(), "AC2: apply must exit non-zero when voice daemon is deferred");
    assert_eq!(ran.done, vec!["probe"], "AC2: voice daemon must not be restarted");
    assert!(stdout.contains("deferred"), "AC2: stdout must contain 'deferred'; got: {stdout}");
}

#[test]
fn ac3_idle_session_allows_restart() {
    let voice = || hear(&["wm.brain.session.start", "wm.brain.session.end"]);
    let run = simple(&["wm-tts"], PLAIN, "");
    let ran = apply(run, vec![], &voice, WindowSample::Quiet, None);
    let stdout = stdout(&ran.lines);
    assert!(ran.result.is_ok(), "AC3: apply must succeed when bus is idle; stdout={stdout}");
    assert!(
        stdout.contains("ok") || stdout.contains("restarted"),
        "AC3: stdout must indicate restart ok; got: {stdout}"
    );
    assert!(
        !stdout.contains("deferred"),
        "AC3: no deferral should be reported when idle; got: {stdout}"
    );
    assert_eq!(ran.done, vec!["probe", "restart wm-tts 10"]);
}

#[test]
fn ac5_bus_unreachable_defers_voice_daemon() {
    let voice = || {
        let mut probe = VoiceProbe::new();
        assert!(probe.voice_activity_in_flight(ProbeEvent::Eof { now_ns: 1 }).is_none());
        probe.voice_activity_in_flight(ProbeEvent::Eof { now_ns: 2 }).unwrap()
    };
    let run = simple(&["wm-stt"], PLAIN, "");
    let ran = apply(run, vec![], &voice, WindowSample::Quiet, None);
    let stdout = stdout(&ran.lines);
    assert!(
        ran.result.is_err(),
        "AC5: apply must exit non-zero when bus unreachable defers voice daemon"
    );
    assert_eq!(ran.done, vec!["probe"], "AC5: voice daemon must not be restarted blind");
    assert!(stdout.contains("deferred"), "AC5: stdout must contain 'deferred'; got: {stdout}");
}

#[test]
fn window_guard_blocks_voice_daemon_when_bus_active() {
    let voice = || {
        let mut probe = VoiceProbe::new();
        let text = "wm.dialog.turn.start {}".to_owned();
        probe.voice_activity_in_flight(ProbeEvent::Line { text, now_ns: 0 });
        probe.voice_activity_in_flight(ProbeEvent::Over { now_ns: 3_000_000_000 }).unwrap()
    };
    let options = ApplyOptions { window_secs: Some(parse_duration("1s").unwrap()), ..PLAIN };
    let run = simple(&["wm-dialog"], options, "");
    let ran = apply(run, vec![], &voice, WindowSample::Active, None);
    assert_eq!(
        ran.done,
        vec!["probe", "sample 1"],
        "voice daemon must NOT be launched while the bus is active"
    );
    let combined = ran.result.unwrap_err().to_string().to_lowercase();
    assert!(
        combined.contains("window guard") || combined.contains("activity"),
        "blocked run should explain the window guard; got: {combined}"
    );
}

#[test]
fn window_guard_allows_voice_daemon_when_bus_quiet() {
    let voice = || hear(&[]);
    let options = ApplyOptions { window_secs: Some(parse_duration("1s").unwrap()), ..PLAIN };
    let ran =
        apply(simple(&["wm-dialog"], options, ""), vec![], &voice, WindowSample::Quiet, None);
    assert!(ran.result.is_ok(), "window guard must allow restart when bus is quiet");
    assert_eq!(
        ran.done,
        vec!["probe", "sample 1", "restart wm-dialog 10"],
        "voice daemon should have been launched when the bus is quiet"
    );
}

#[test]
fn ac6_deferred_exit_nonzero_and_reported() {
    let voice = || hear(&["wm.brain.session.start"]);
    let ran =
        apply(simple(&["wm-dialog", "wm-tts"], PLAIN, ""), vec![], &voice, WindowSample::Quiet, None);
    let stdout = stdout(&ran.lines);
    assert!(ran.result.is_err(), "AC6: apply must exit non-zero when daemons are deferred");
    assert!(stdout.contains("deferred"), "AC6: stdout must report deferral; got: {stdout}");
    assert!(
        stdout.contains("wm-dialog") && stdout.contains("wm-tts"),
        "AC6: deferred daemon names must appear in stdout; got: {stdout}"
    );
    assert_eq!(ran.done, vec!["probe", "probe"]);
}

#[test]
fn apply_only_restarts_fixture_new_pid_differs() {
    let run = simple(&["fix-ac2"], PLAIN, "");
    let ran = apply(run, vec![], &idle, WindowSample::Quiet, None);
    let stdout = stdout(&ran.lines);
    assert!(ran.result.is_ok(), "apply should succeed; stdout={stdout}");
    assert_eq!(ran.done, vec!["restart fix-ac2 10"]);
    assert!(
        stdout.contains("fix-ac2 ok (old_pid=10, new_pid=Some(11)"),
        "apply should report the daemon ok; stdout={stdout}"
    );
}

#[test]
fn apply_is_strictly_serialized_no_interleave() {
    let mut run = simple(&["ser-a", "ser-b"], PLAIN, "");
    for _ in 0..2 {
        assert!(matches!(run.run_apply(ApplyEvent::Go).action, ApplyAction::Continue));
    }
    match run.run_apply(ApplyEvent::Go).action {
        ApplyAction::Restart { recipe, .. } => assert_eq!(recipe.name, "ser-a"),
        _ => panic!("the first daemon is restarted first"),
    }
    for event in [ApplyEvent::Go, ApplyEvent::Voice(idle()), ApplyEvent::Hash(None)] {
        assert!(matches!(run.run_apply(event).action, ApplyAction::Ignored));
    }
    run.run_apply(ApplyEvent::Restarted(Ok(restarted("ser-a", 10))));
    run.run_apply(ApplyEvent::Go);
    match run.run_apply(ApplyEvent::Go).action {
        ApplyAction::Restart { recipe, .. } => assert_eq!(recipe.name, "ser-b"),
        _ => panic!("the second daemon follows"),
    }
}

#[test]
fn apply_stops_on_healthcheck_failure_does_not_cascade() {
    let run = simple(&["bad", "next"], PLAIN, "");
    let ran = apply(run, vec![], &idle, WindowSample::Quiet, Some("bad"));
    assert_eq!(
        ran.done,
        vec!["restart bad 10"],
        "the second daemon must never be launched after the first fails"
    );
    let mut combined = String::new();
    for line in &ran.lines {
        match line {
            Line::Out(s) | Line::Part(s) | Line::Warn(s) => combined.push_str(s),
        }
    }
    let failure = ran.result.expect_err("apply must exit non-zero when a daemon fails healthcheck");
    combined.push_str(&failure.to_string());
    assert!(
        combined.contains("bad") && combined.to_lowercase().contains("health"),
        "failure must be reported with the daemon name and a healthcheck reason; got: {combined}"
    );
    assert!(
        combined.contains("stopping"),
        "rollout should announce it is stopping the run; got: {combined}"
    );
}

#[test]
fn apply_refuses_unknown_daemon_exits_nonzero() {
    let run = ApplyRun::new(
        fleet(vec![]),
        vec![stale("ghost-daemon", 99998)],
        None,
        PLAIN,
        String::new(),
    );
    let ran = apply(run, vec![], &idle, WindowSample::Quiet, None);
    let text = ran.result.expect_err("apply should fail for unknown daemon").to_string();
    assert!(text.contains("ghost-daemon"), "output should name the unknown daemon; {text}");
    assert!(ran.done.is_empty());
}

/// A run over a plain daemon, one with a warm swap, and one whose warm swap lacks a claim.
fn mixed(options: ApplyOptions, auto: &str) -> ApplyRun {
    let mut claimless = recipe("claimless", "true", "true", "l");
    claimless.warm_swap = true;
    let mut d = warm("d");
    d.build_cmd = "make d".to_owned();
    d.repo = Some("/src/d".to_owned());
    ApplyRun::new(
        fleet(vec![recipe("plain", "true", "true", "l"), d, claimless]),
        vec![stale("plain", 1), stale("d", 2), stale("claimless", 3)],
        None,
        options,
        auto.to_owned(),
    )
}

#[test]
fn what_the_plan_shows_as_warm_swap_is_swapped_warm() {
    let ran = apply(mixed(PLAIN, ""), vec![], &idle, WindowSample::Quiet, None);
    assert!(ran.result.is_ok());
    assert_eq!(
        ran.done,
        vec![
            "restart plain 1",
            "build make d Some(\"/src/d\")",
            "swap d agorabus://daemon/d 2",
            "restart claimless 3",
        ]
    );
    let text = stdout(&ran.lines);
    assert!(text.contains(
        "rollout apply [2/3]: d ok (old_pid=2, new_pid=Some(3), elapsed=300ms, \
         restart_path=warm-swap)\n"
    ));
    assert!(text.ends_with("rollout apply: done. 3/3 daemons restarted.\n"));
}

#[test]
fn daemon_that_cannot_be_built_is_not_swapped() {
    let ran = apply(mixed(PLAIN, ""), vec![], &idle, WindowSample::Quiet, Some("make d"));
    assert_eq!(ran.done.len(), 2);
    assert_eq!(
        ran.result.unwrap_err().to_string(),
        "build/install step for `d` failed: build cmd exited 1"
    );
    assert_eq!(
        ran.lines.last(),
        Some(&Line::Warn("rollout apply: stopping run after first failure".to_owned()))
    );
}

#[test]
fn split_claim_stops_the_run() {
    let ran = apply(mixed(PLAIN, ""), vec![], &idle, WindowSample::Quiet, Some("d"));
    assert_eq!(ran.done.len(), 3);
    assert_eq!(
        ran.result.unwrap_err().to_string(),
        "daemon `d` failed healthcheck (old_pid=2, new_pid=None): \
         warm-swap: expected 1 claim holder, got 2"
    );
}

#[test]
fn failed_swap_stops_the_run() {
    let mut run = ApplyRun::new(
        fleet(vec![warm("d")]),
        vec![stale("d", 7)],
        None,
        PLAIN,
        String::new(),
    );
    for event in [ApplyEvent::Go, ApplyEvent::Go, ApplyEvent::Go] {
        run.run_apply(event);
    }
    let ran = CommandOutcome::Exited { success: true, code: Some(0) };
    let step = run.run_apply(ApplyEvent::Built { ran, start_ms: 1 });
    assert!(matches!(step.action, ApplyAction::Swap { pid: 7, .. }));
    let result = WarmSwapResult::Failed(RolloutError::Signal("no".to_owned()));
    match run.run_apply(ApplyEvent::Swapped { result, end_ms: 2 }).action {
        ApplyAction::Finish(Err(e)) => assert_eq!(e.to_string(), "signal error: no"),
        _ => panic!("expected a failure"),
    }
    assert!(matches!(run.run_apply(ApplyEvent::Go).action, ApplyAction::Ignored));
}

#[test]
fn warm_swap_waits_for_the_proof() {
    let options = ApplyOptions { auto: true, ..PLAIN };
    let ran = apply(
        mixed(options, "1"),
        vec![measured("d", "digest of /usr/local/bin/d"), measured("plain", "old")],
        &idle,
        WindowSample::Quiet,
        None,
    );
    assert_eq!(
        ran.done,
        vec![
            "hash /usr/local/bin/plain",
            "hash /usr/local/bin/d",
            "build make d Some(\"/src/d\")",
            "swap d agorabus://daemon/d 2",
            "hash /usr/local/bin/claimless",
        ]
    );
    let dry = ApplyOptions { dry_run: true, ..PLAIN };
    assert!(apply(mixed(dry, ""), vec![], &idle, WindowSample::Quiet, None).done.is_empty());
}

#[test]
fn quiet_window_lets_voice_daemon_restart() {
    let options = ApplyOptions { window_secs: Some(1), ..PLAIN };
    let run = simple(&["wm-dialog", "recalld"], options, "");
    let ran = apply(run, vec![], &idle, WindowSample::Quiet, None);
    assert!(ran.result.is_ok());
    assert_eq!(
        ran.done,
        vec!["probe", "sample 1", "restart wm-dialog 10", "restart recalld 11"]
    );
}

#[test]
fn deferrals_are_reported_together() {
    let voice = || VoiceActivityState::InFlight { reason: "r".to_owned() };
    let run = simple(&["wm-dialog", "recalld", "wm-tts"], PLAIN, "");
    let ran = apply(run, vec![], &voice, WindowSample::Quiet, None);
    assert_eq!(
        stdout(&ran.lines),
        "rollout apply [1/3]: starting wm-dialog (pid=10)\n\
         rollout apply [1/3]: wm-dialog deferred — voice active: r\n\
         rollout apply [2/3]: starting recalld (pid=11)\n\
         rollout apply [2/3]: recalld ok (old_pid=11, new_pid=Some(12), elapsed=250ms, restart_path=sigterm-launch)\n\
         rollout apply [3/3]: starting wm-tts (pid=12)\n\
         rollout apply [3/3]: wm-tts deferred — voice active: r\n\
         rollout apply: 1/3 restarted; 2 deferred (voice active): wm-dialog, wm-tts\n"
    );
    assert_eq!(
        ran.result.unwrap_err().to_string(),
        "voice-active deferral: 2 daemon(s) were not restarted (wm-dialog, wm-tts); \
         retry once the voice turn is complete"
    );
}

#[test]
fn first_failure_stops_the_run() {
    let run = simple(&["first", "bad", "next"], PLAIN, "");
    let ran = apply(run, vec![], &idle, WindowSample::Quiet, Some("bad"));
    assert_eq!(ran.done, vec!["restart first 10", "restart bad 11"]);
    assert!(matches!(
        ran.result,
        Err(RolloutError::HealthcheckTimeout { name, .. }) if name == "bad"
    ));
    let warnings: Vec<Line> =
        ran.lines.into_iter().filter(|l| matches!(l, Line::Warn(_))).collect();
    assert_eq!(
        warnings,
        vec![
            Line::Warn(
                "rollout apply [2/3]: bad FAILED — daemon `bad` failed healthcheck \
                 (old_pid=11, new_pid=None): late"
                    .to_owned()
            ),
            Line::Warn("rollout apply: stopping run after first failure".to_owned()),
        ]
    );
}

#[test]
fn unknown_daemons_are_refused_before_anything() {
    let run = ApplyRun::new(
        names(&["a"]),
        vec![stale("a", 1), stale("ghost-daemon", 99998)],
        None,
        PLAIN,
        String::new(),
    );
    let ran = apply(run, vec![], &idle, WindowSample::Quiet, None);
    assert!(ran.done.is_empty() && ran.lines.is_empty());
    assert_eq!(
        ran.result.unwrap_err().to_string(),
        "unknown daemons (not in fleet.toml): ghost-daemon"
    );
}

#[test]
fn only_the_named_daemon_is_restarted() {
    let run = ApplyRun::new(
        names(&["a"]),
        vec![stale("ghost", 1), stale("a", 2)],
        Some("a"),
        PLAIN,
        String::new(),
    );
    let ran = apply(run, vec![], &idle, WindowSample::Quiet, None);
    assert!(ran.result.is_ok());
    assert_eq!(ran.done, vec!["restart a 2"]);
    assert!(stdout(&ran.lines).ends_with("rollout apply: done. 1/1 daemons restarted.\n"));
}

#[test]
fn nothing_stale_is_nothing_to_do() {
    let ran = apply(simple(&[], PLAIN, ""), vec![], &idle, WindowSample::Quiet, None);
    assert!(ran.result.is_ok());
    assert_eq!(stdout(&ran.lines), "rollout apply: no stale daemons. Nothing to do.\n");
}

#[test]
fn auto_run_needs_its_switch_and_a_proof() {
    let options = ApplyOptions { auto: true, ..PLAIN };
    let ran = apply(simple(&["a"], options, "0"), vec![], &idle, WindowSample::Quiet, None);
    assert!(ran.result.is_ok() && ran.done.is_empty());
    assert_eq!(
        stdout(&ran.lines),
        "rollout apply: auto is disabled (set ROLLOUT_AUTO_ENABLED=1 to enable)\n"
    );
    let ran = apply(
        simple(&["a", "b", "lost"], options, "1"),
        vec![
            measured("a", "digest of /usr/local/bin/a"),
            measured("b", "/usr/local/bin/b"),
            measured("lost", "digest of /usr/local/bin/lost"),
        ],
        &idle,
        WindowSample::Quiet,
        None,
    );
    assert!(ran.result.is_ok());
    assert_eq!(
        ran.done,
        vec![
            "hash /usr/local/bin/a",
            "restart a 10",
            "hash /usr/local/bin/b",
            "hash /usr/local/bin/lost"
        ]
    );
    let text = stdout(&ran.lines);
    assert!(text.contains("rollout apply [1/3]: a auto-gate Allow\n"));
    assert!(text.contains(
        "rollout apply [2/3]: b auto-gate Refuse — stale proof: proof binary_hash=/usr/local/bin/b \
         but current binary_hash=digest of /usr/local/bin/b;"
    ));
    assert!(text.contains(
        "rollout apply [3/3]: lost auto-gate Refuse — cannot hash the installed binary \
         /usr/local/bin/lost\n"
    ));
    assert!(text.ends_with(
        "rollout apply: 2 auto-gate refused: b, lost\nrollout apply: done. 1/3 daemons restarted.\n"
    ));
}

#[test]
fn ledger_that_cannot_be_read_ends_an_auto_run() {
    let options = ApplyOptions { auto: true, ..PLAIN };
    let mut run = simple(&["a"], options, "1");
    assert!(matches!(run.run_apply(ApplyEvent::Go).action, ApplyAction::LoadLedger));
    let step =
        run.run_apply(ApplyEvent::Loaded(Err(RolloutError::FleetConfig("bad".to_owned()))));
    match step.action {
        ApplyAction::Finish(Err(e)) => assert_eq!(e.to_string(), "fleet.toml error: bad"),
        _ => panic!("expected a failure"),
    }
}

#[test]
fn dry_run_names_the_daemons() {
    let options = ApplyOptions { dry_run: true, ..PLAIN };
    let ran =
        apply(simple(&["a", "wm-tts"], options, ""), vec![], &idle, WindowSample::Quiet, None);
    assert!(ran.result.is_ok() && ran.done.is_empty());
    assert_eq!(
        stdout(&ran.lines),
        "rollout apply [dry-run]: would restart 2 daemon(s):\n  a\n  wm-tts\n"
    );
}

#[test]
fn sigkill_is_told() {
    let mut run = simple(&["a"], PLAIN, "");
    for event in [ApplyEvent::Go, ApplyEvent::Go, ApplyEvent::Go] {
        run.run_apply(event);
    }
    let mut result = restarted("a", 10);
    result.sigkill_used = true;
    result.new_pid = None;
    result.start_ms = 9;
    result.end_ms = 3;
    let step = run.run_apply(ApplyEvent::Restarted(Ok(result)));
    assert_eq!(
        step.lines,
        vec![Line::Out(
            "rollout apply [1/1]: a ok (old_pid=10, new_pid=None, elapsed=0ms, \
             restart_path=sigterm-launch, SIGKILL used)"
                .to_owned()
        )]
    );
    assert!(matches!(run.run_apply(ApplyEvent::Voice(idle())).action, ApplyAction::Ignored));
}

// ── command-line values ──────────────────────────────────────────────────────

#[test]
fn durations_have_a_unit() {
    assert_eq!(parse_duration("30s"), Ok(30));
    assert_eq!(parse_duration("2m"), Ok(120));
    assert_eq!(parse_duration("1h"), Ok(3600));
    assert_eq!(parse_duration("+5s"), Ok(5));
    assert_eq!(parse_duration("18446744073709551615s"), Ok(u64::MAX));
    assert_eq!(
        parse_duration("30"),
        Err("unsupported duration format: \"30\"; use e.g. 30s, 2m, 1h".to_owned())
    );
    assert_eq!(
        parse_duration("s"),
        Err("invalid seconds: cannot parse integer from empty string".to_owned())
    );
    assert_eq!(
        parse_duration("xm"),
        Err("invalid minutes: invalid digit found in string".to_owned())
    );
    assert_eq!(
        parse_duration("18446744073709551616h"),
        Err("invalid hours: number too large to fit in target type".to_owned())
    );
    assert!(duration_in_range("307445734561825860m"));
    assert!(!duration_in_range("307445734561825861m"));
    assert!(!duration_in_range("18446744073709551615h"));
    assert!(duration_in_range("nonsense"));
}

#[test]
fn fleet_gen_arguments_are_handed_on() {
    let args = run_fleet_gen_cmd(&FleetGenCliArgs {
        out: Some("/o".to_owned()),
        match_regex: Some("wm-.*".to_owned()),
    });
    assert_eq!(args.out.as_deref(), Some("/o"));
    assert_eq!(args.match_regex.as_deref(), Some("wm-.*"));
}
