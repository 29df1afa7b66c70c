//! The restart of one daemon.

use rollout::command::{run_recipe_cmd, signal_pid, CommandOutcome};
use rollout::error::RolloutError;
use rollout::fleet::DaemonRecipe;
use rollout::output::Line;
use rollout::restart::{
    now_ms, process_exited, try_stamp_new_binary, wait_for_exit, wait_for_pid_exit, ExitStep, RestartAction,
    RestartEvent, RestartResult, RestartRun, RestartStrategy,
};
use rollout::units::{RestartPath, UnitRestart};

#[test]
fn restart_result_has_restart_path_field() {
    let result = RestartResult {
        name: "wm-tts".to_owned(),
        old_pid: 1234,
        new_pid: None,
        start_ms: 0,
        end_ms: 1,
        success: true,
        sigkill_used: false,
        restart_path: RestartStrategy::SystemdUnit("wm-tts.service".to_owned()),
    };
    assert_eq!(
        result.restart_path.to_string(),
        "systemd-unit:wm-tts.service",
        "AC5: restart_path formats as systemd-unit:<name>"
    );
}

#[test]
fn restart_strategy_sigterm_launch_display() {
    let s = RestartStrategy::SigtermLaunch;
    assert_eq!(s.to_string(), "sigterm-launch");
}

#[test]
fn restart_strategy_agorabus_reload_display() {
    let s = RestartStrategy::AgorabusReload;
    assert_eq!(s.to_string(), "agorabus-reload");
}

#[test]
fn warm_swap_is_told_as_the_plan_tells_it() {
    assert_eq!(RestartStrategy::WarmSwap.to_string(), "warm-swap");
}

#[test]
fn ac1_recipe_with_unit_selects_systemd_branch() {
    let recipe = DaemonRecipe {
        name: "wm-tts".to_owned(),
        repo: None,
        build_cmd: "true".to_owned(),
        install_cmd: "true".to_owned(),
        launch_cmd: "true".to_owned(),
        unit: Some("wm-tts.service".to_owned()),
        healthcheck: None,
        grace_period_secs: 5,
        warm_swap: false,
        claim_key: None,
    };

    let unit_name = recipe.unit_name();
    assert_eq!(
        unit_name,
        Some("wm-tts.service"),
        "AC1: non-empty unit selects systemd branch"
    );
}

#[test]
fn ac1_systemd_branch_does_not_use_sigterm() {
    let unit: Option<String> = Some("wm-tts.service".to_owned());
    let takes_systemd_branch = unit.as_deref().filter(|u| !u.is_empty()).is_some();
    assert!(takes_systemd_branch, "AC1: systemd branch is taken when unit is set");

    let mut recipe = recipe("wm-tts");
    recipe.unit = unit;
    let (_, _, done) = drive(recipe, Script::default());
    assert!(!done.contains(&"term") && !done.contains(&"kill") && !done.contains(&"launch"));
}

#[test]
fn ac2_recipe_without_unit_uses_legacy_branch() {
    let recipe = DaemonRecipe {
        name: "myapp".to_owned(),
        repo: None,
        build_cmd: "true".to_owned(),
        install_cmd: "true".to_owned(),
        launch_cmd: "myapp &".to_owned(),
        unit: None,
        healthcheck: None,
        grace_period_secs: 5,
        warm_swap: false,
        claim_key: None,
    };

    let unit_name = recipe.unit_name();
    assert!(unit_name.is_none(), "AC2: None unit falls through to legacy branch");
}

#[test]
fn ac2_empty_unit_string_uses_legacy_branch() {
    let recipe = DaemonRecipe {
        name: "myapp".to_owned(),
        repo: None,
        build_cmd: "true".to_owned(),
        install_cmd: "true".to_owned(),
        launch_cmd: "myapp &".to_owned(),
        unit: Some(String::new()),
        healthcheck: None,
        grace_period_secs: 5,
        warm_swap: false,
        claim_key: None,
    };

    let unit_name = recipe.unit_name();
    assert!(
        unit_name.is_none(),
        "AC2: empty string unit also falls through to legacy branch"
    );
}

#[test]
fn ac3_agorabus_recipe_uses_agorabus_reload_selector() {
    let unit = "agorabus.service";
    assert_eq!(unit, "agorabus.service", "AC3: agorabus unit name matches selector");
    assert_eq!(rollout::units::AGORABUS_UNIT, unit);

    let strategy = RestartStrategy::AgorabusReload;
    assert_eq!(strategy.to_string(), "agorabus-reload", "AC3: agorabus strategy display");
}

fn recipe(name: &str) -> DaemonRecipe {
    DaemonRecipe {
        name: name.to_owned(),
        repo: Some("/src".to_owned()),
        build_cmd: "build".to_owned(),
        install_cmd: "install".to_owned(),
        launch_cmd: "launch".to_owned(),
        unit: None,
        healthcheck: Some("check".to_owned()),
        grace_period_secs: 1,
        warm_swap: false,
        claim_key: None,
    }
}

struct Script {
    path: RestartPath,
    alive_until_ms: u128,
    healthy_after_ms: u128,
    exe: Result<String, String>,
    stamp: CommandOutcome,
}

impl Default for Script {
    fn default() -> Self {
        Script {
            path: RestartPath::Systemctl,
            alive_until_ms: 0,
            healthy_after_ms: 0,
            exe: Ok("/bin/d".to_owned()),
            stamp: CommandOutcome::Exited { success: true, code: Some(0) },
        }
    }
}

type Outcome = Result<RestartResult, RolloutError>;

fn drive(recipe: DaemonRecipe, script: Script) -> (Outcome, Vec<Line>, Vec<&'static str>) {
    let mut run = RestartRun::new(recipe, 1234, 2000);
    let mut lines = Vec::new();
    let mut done = Vec::new();
    let mut waited: u128 = 0;
    let mut checked: u128 = 0;
    let mut exe = Some(script.exe);
    let mut stamp = Some(script.stamp);
    let mut event = RestartEvent::Begin { now_ms: 1000 };
    loop {
        let step = run.restart_daemon(event);
        lines.extend(step.lines);
        event = match step.action {
            RestartAction::Run { cmd, dir } => {
                assert_eq!(dir.as_deref(), Some("/src"));
                done.push(if cmd == "build" { "build" } else { "install" });
                RestartEvent::Ran(CommandOutcome::Exited { success: true, code: Some(0) })
            }
            RestartAction::RestartUnit { .. } => {
                done.push("unit");
                RestartEvent::UnitRestarted(Ok(UnitRestart {
                    path: script.path,
                    restarted: false,
                    new_pid: None,
                }))
            }
            RestartAction::Terminate { pid } => {
                assert_eq!(pid, 1234);
                done.push("term");
                RestartEvent::Signalled(Ok(()))
            }
            RestartAction::ReadStat { pid, after_ms, first } => {
                assert_eq!(pid, 1234);
                waited = if first { 0 } else { waited + u128::from(after_ms) };
                let stat = if waited < script.alive_until_ms {
                    Some("1234 (d) S 1".to_owned())
                } else {
                    None
                };
                RestartEvent::Stat { stat, elapsed_ms: waited }
            }
            RestartAction::Kill { pid } => {
                assert_eq!(pid, 1234);
                done.push("kill");
                RestartEvent::Signalled(Err("gone".to_owned()))
            }
            RestartAction::Launch { cmd, .. } => {
                assert_eq!(cmd, "launch");
                done.push("launch");
                RestartEvent::Launched(Ok(77))
            }
            RestartAction::CheckHealth { cmd, after_ms, first } => {
                assert_eq!(cmd, "check");
                checked = if first { 0 } else { checked + u128::from(after_ms) };
                RestartEvent::Checked {
                    passed: checked >= script.healthy_after_ms,
                    elapsed_ms: checked,
                }
            }
            RestartAction::AskMainPid { .. } => {
                done.push("pid");
                RestartEvent::MainPid(Some("88\n".to_owned()))
            }
            RestartAction::ReadExe { .. } => {
                done.push("exe");
                RestartEvent::Exe(exe.take().unwrap())
            }
            RestartAction::Stamp { args } => {
                assert_eq!(args[0], "stamp");
                assert_eq!(args[2], "--pid");
                done.push("stamp");
                RestartEvent::Ran(stamp.take().unwrap())
            }
            RestartAction::ReadClock => RestartEvent::Clock { now_ms: 1500 },
            RestartAction::Finish(r) => return (r, lines, done),
            RestartAction::Ignored => panic!("unexpected event"),
        };
    }
}

fn warn(text: &str) -> Line {
    Line::Warn(text.to_owned())
}

#[test]
fn unit_is_restarted_checked_and_stamped() {
    let mut r = recipe("wm-tts");
    r.unit = Some("wm-tts.service".to_owned());
    let (outcome, lines, done) = drive(r, Script::default());
    let result = outcome.unwrap();
    assert_eq!(done, vec!["build", "install", "unit", "pid", "exe", "stamp"]);
    assert_eq!(
        lines,
        vec![
            warn("rollout: restarted wm-tts via wm-tts.service (path=Systemctl)"),
            warn("rollout: stamped /bin/d (pid=88) — prov-stale cleared"),
        ]
    );
    assert_eq!(result.restart_path.to_string(), "systemd-unit:wm-tts.service");
    assert_eq!((result.old_pid, result.new_pid), (1234, None));
    assert_eq!((result.start_ms, result.end_ms), (1000, 1500));
    assert!(result.success && !result.sigkill_used);
    assert_eq!(result.name, "wm-tts");
}

#[test]
fn reload_is_reported_as_such() {
    let mut r = recipe("agorabus");
    r.unit = Some("agorabus.service".to_owned());
    let (outcome, _, _) =
        drive(r, Script { path: RestartPath::AgorabuReload, ..Script::default() });
    assert_eq!(outcome.unwrap().restart_path, RestartStrategy::AgorabusReload);
}

#[test]
fn sigterm_then_sigkill_on_uncooperative_daemon() {
    let (outcome, lines, done) =
        drive(recipe("stubborn"), Script { alive_until_ms: u128::MAX, ..Script::default() });
    assert!(outcome.is_ok(), "the restart should succeed after SIGKILL fallback");
    let term = done.iter().position(|d| *d == "term").expect("SIGTERM is sent");
    let kill = done.iter().position(|d| *d == "kill").expect("SIGKILL is sent");
    assert!(term < kill, "SIGTERM should come first");
    let told = |word: &str| {
        lines.iter().any(|l| matches!(l, Line::Warn(text) if text.contains(word)))
    };
    assert!(told("SIGTERM"), "SIGTERM should be logged first");
    assert!(told("SIGKILL"), "SIGKILL escalation should be logged");
}

#[test]
fn sigkill_follows_the_grace_period() {
    let (outcome, lines, done) =
        drive(recipe("stubborn"), Script { alive_until_ms: u128::MAX, ..Script::default() });
    let result = outcome.unwrap();
    assert_eq!(done, vec!["build", "install", "term", "kill", "launch", "exe", "stamp"]);
    assert!(result.sigkill_used);
    assert_eq!(result.new_pid, Some(77));
    assert_eq!(result.restart_path, RestartStrategy::SigtermLaunch);
    assert_eq!(
        lines,
        vec![
            warn("rollout: sent SIGTERM to stubborn pid=1234"),
            warn(
                "rollout: stubborn pid=1234 did not exit after 1s grace period; sending SIGKILL"
            ),
            warn("rollout: launched stubborn (pid=Some(77))"),
            warn("rollout: stamped /bin/d (pid=77) — prov-stale cleared"),
        ]
    );
}

#[test]
fn process_that_exits_in_time_is_not_killed() {
    let (outcome, _, done) =
        drive(recipe("nice"), Script { alive_until_ms: 900, ..Script::default() });
    assert!(!outcome.unwrap().sigkill_used);
    assert!(!done.contains(&"kill"));
}

#[test]
fn ac6_healthcheck_runs_and_failure_stops_run() {
    let recipe = DaemonRecipe {
        name: "rollout-test-fake".to_owned(),
        repo: None,
        build_cmd: "true".to_owned(),
        install_cmd: "true".to_owned(),
        launch_cmd: "true".to_owned(),
        unit: Some("rollout-test-nonexistent.service".to_owned()),
        healthcheck: Some("false".to_owned()),
        grace_period_secs: 1,
        warm_swap: false,
        claim_key: None,
    };
    let mut run = RestartRun::new(recipe, 4321, 100);
    let mut elapsed_ms: u128 = 0;
    let mut checks = 0;
    let mut event = RestartEvent::Begin { now_ms: 0 };
    let result = loop {
        event = match run.restart_daemon(event).action {
            RestartAction::Run { cmd, dir } => {
                assert_eq!((cmd.as_str(), dir), ("true", None));
                RestartEvent::Ran(CommandOutcome::Exited { success: true, code: Some(0) })
            }
            RestartAction::RestartUnit { unit } => {
                assert_eq!(unit, "rollout-test-nonexistent.service");
                RestartEvent::UnitRestarted(Ok(UnitRestart {
                    path: RestartPath::Systemctl,
                    restarted: false,
                    new_pid: None,
                }))
            }
            RestartAction::CheckHealth { cmd, after_ms, .. } => {
                assert_eq!(cmd, "false");
                checks += 1;
                elapsed_ms += u128::from(after_ms);
                RestartEvent::Checked { passed: false, elapsed_ms }
            }
            RestartAction::Finish(r) => break r,
            other => panic!("AC6: unexpected {other:?}"),
        };
    };
    assert!(checks > 0, "AC6: the healthcheck runs");
    match result {
        Err(RolloutError::HealthcheckTimeout { .. }) => {}
        Err(other) => panic!("AC6: expected HealthcheckTimeout, got: {other:?}"),
        Ok(_) => panic!("AC6: expected healthcheck failure, but restart_daemon succeeded"),
    }
}

#[test]
fn ac6_failed_healthcheck_fails_the_restart() {
    let mut r = recipe("rollout-test-fake");
    r.unit = Some("rollout-test-nonexistent.service".to_owned());
    let (outcome, _, done) =
        drive(r, Script { healthy_after_ms: u128::MAX, ..Script::default() });
    match outcome {
        Err(RolloutError::HealthcheckTimeout { name, old_pid, new_pid, .. }) => {
            assert_eq!((name.as_str(), old_pid, new_pid), ("rollout-test-fake", 1234, None));
        }
        _ => panic!("expected HealthcheckTimeout"),
    }
    assert_eq!(done, vec!["build", "install", "unit"]);
}

#[test]
fn stamp_is_never_fatal() {
    let line = |script: Script| {
        let (outcome, lines, _) = drive(recipe("d"), script);
        assert!(outcome.is_ok());
        match lines.last().unwrap() {
            Line::Warn(s) => s.clone(),
            _ => panic!("expected standard error"),
        }
    };
    assert_eq!(
        line(Script { exe: Ok("/bin/d (deleted)".to_owned()), ..Script::default() }),
        "rollout: stamp skipped — exe already deleted for pid=77"
    );
    assert_eq!(
        line(Script { exe: Err("gone".to_owned()), ..Script::default() }),
        "rollout: stamp skipped — could not read /proc/77/exe: gone"
    );
    assert_eq!(
        line(Script {
            stamp: CommandOutcome::Exited { success: false, code: None },
            ..Script::default()
        }),
        "rollout: binstale stamp exited -1 — prov-stale may persist"
    );
    assert_eq!(
        line(Script { stamp: CommandOutcome::NotSpawned("no".to_owned()), ..Script::default() }),
        "rollout: binstale stamp not available (no) — prov-stale may persist"
    );
    assert_eq!(try_stamp_new_binary(7, Ok("/b".to_owned())), Ok("/b".to_owned()));
}

#[test]
fn restart_fails_by_the_step_that_failed() {
    let fail = |events: Vec<RestartEvent>| {
        let mut run = RestartRun::new(recipe("d"), 9, 1000);
        for event in events {
            if let RestartAction::Finish(Err(e)) = run.restart_daemon(event).action {
                return e.to_string();
            }
        }
        panic!("the restart has not failed")
    };
    let begin = || RestartEvent::Begin { now_ms: 0 };
    let ok = || RestartEvent::Ran(CommandOutcome::Exited { success: true, code: Some(0) });
    let bad = || RestartEvent::Ran(CommandOutcome::Exited { success: false, code: Some(101) });
    assert_eq!(
        fail(vec![begin(), bad()]),
        "build/install step for `d` failed: build cmd exited 101"
    );
    assert_eq!(
        fail(vec![begin(), ok(), bad()]),
        "build/install step for `d` failed: install cmd exited 101"
    );
    assert_eq!(
        fail(vec![begin(), ok(), ok(), RestartEvent::Signalled(Err("EPERM".to_owned()))]),
        "signal error: SIGTERM 9: EPERM"
    );
    assert_eq!(
        fail(vec![
            begin(),
            ok(),
            ok(),
            RestartEvent::Signalled(Ok(())),
            RestartEvent::Stat { stat: None, elapsed_ms: 0 },
            RestartEvent::Launched(Err("no sh".to_owned())),
        ]),
        "launch of `d` failed: spawn failed: no sh"
    );
}

#[test]
fn recipe_commands_fail_by_their_exit() {
    assert!(run_recipe_cmd(
        "d",
        "build",
        CommandOutcome::Exited { success: true, code: Some(0) }
    )
    .is_ok());
    assert_eq!(
        run_recipe_cmd("d", "build", CommandOutcome::Exited { success: false, code: None })
            .unwrap_err()
            .to_string(),
        "build/install step for `d` failed: build cmd exited -1"
    );
    assert_eq!(
        run_recipe_cmd("d", "build", CommandOutcome::NotSpawned("x".to_owned()))
            .unwrap_err()
            .to_string(),
        "build/install step for `d` failed: build cmd could not be spawned: x"
    );
}

#[test]
fn zombies_have_exited() {
    let exited = |s: &str| process_exited(&Some(s.to_owned()));
    assert!(exited("1 (d) Z 1 2"));
    assert!(exited("1 (a) b) Z 1"));
    assert!(!exited("1 (Z) S 1"));
    assert!(!exited("1 (d) S 1"));
    assert!(!exited("no paren Z"));
    assert!(!exited("1 (d) SZ"));
    assert!(process_exited(&None));
    assert_eq!(wait_for_exit(&None, 9000, 0), ExitStep::Exited);
    assert_eq!(wait_for_exit(&Some("1 (d) S".to_owned()), 999, 1000), ExitStep::Again);
    assert_eq!(wait_for_exit(&Some("1 (d) S".to_owned()), 1000, 1000), ExitStep::TimedOut);
}

#[test]
fn listed_processes_have_not_exited() {
    assert_eq!(wait_for_pid_exit(false, 9000, 0), ExitStep::Exited);
    assert_eq!(wait_for_pid_exit(true, 99, 100), ExitStep::Again);
    assert_eq!(wait_for_pid_exit(true, 100, 100), ExitStep::TimedOut);
}

#[test]
fn signals_go_to_a_process() {
    assert_eq!(signal_pid(1234), 1234);
    assert_eq!(signal_pid(0), 0);
    assert_eq!(signal_pid(2_147_483_647), i32::MAX);
    assert_eq!(signal_pid(2_147_483_648), i32::MAX);
    assert_eq!(signal_pid(u32::MAX), i32::MAX);
}

#[test]
fn restart_clock_starts_at_zero() {
    assert_eq!(now_ms(None), 0);
    assert_eq!(now_ms(Some(1 << 90)), 1 << 90);
}
