//! The warm swap.

use rollout::command::CommandOutcome;
use rollout::fleet::DaemonRecipe;
use rollout::output::Line;
use rollout::warmswap::{
    claim_list_count, claim_path_for_recipe, restart_strategy_label, SwapAction, SwapEvent,
    WarmSwap, WarmSwapResult,
};

fn test_recipe(name: &str) -> DaemonRecipe {
    DaemonRecipe {
        name: name.to_owned(),
        repo: None,
        build_cmd: "true".to_owned(),
        install_cmd: "true".to_owned(),
        launch_cmd: "true".to_owned(),
        unit: Some(format!("{name}.service")),
        healthcheck: Some("true".to_owned()),
        grace_period_secs: 1,
        warm_swap: false,
        claim_key: None,
    }
}

fn exited(success: bool, code: Option<i32>) -> CommandOutcome {
    CommandOutcome::Exited { success, code }
}

/// Runs a swap against a bus that answers with `counts`, one after the other, and with one
/// holder when they are used up; everything else succeeds, but the unit cannot be stopped
/// cleanly.
fn swap(recipe: DaemonRecipe, counts: Vec<Option<usize>>) -> (WarmSwapResult, Vec<Line>) {
    let mut swap =
        WarmSwap::new(recipe, "agorabus://daemon/wm-stt".to_owned(), 99999, 200);
    let mut counts = counts.into_iter();
    let mut lines = Vec::new();
    let mut elapsed: u64 = 0;
    let mut event = SwapEvent::Begin;
    loop {
        let step = swap.warm_swap(event);
        lines.extend(step.lines);
        event = match step.action {
            SwapAction::Install { cmd, .. } => {
                assert_eq!(cmd, "true");
                SwapEvent::Ran(exited(true, Some(0)))
            }
            SwapAction::Launch { args, .. } => {
                assert_eq!(args, vec!["--user", "--scope", "--", "sh", "-c", "true"]);
                SwapEvent::Launched(Ok(77))
            }
            SwapAction::CountHolders { claim_path, after_ms, first } => {
                assert_eq!(claim_path, "agorabus://daemon/wm-stt");
                elapsed = if first { 0 } else { elapsed + after_ms };
                let holders = counts.next().unwrap_or(Some(1));
                SwapEvent::Counted { holders, elapsed_ms: elapsed }
            }
            SwapAction::StopUnit { unit } => {
                assert_eq!(unit, "wm-stt.service");
                SwapEvent::Ran(exited(false, Some(5)))
            }
            SwapAction::Terminate { pid } => {
                assert_eq!(pid, 99999);
                SwapEvent::Signalled(Ok(()))
            }
            SwapAction::CheckHealth { cmd, .. } => {
                assert_eq!(cmd, "true");
                SwapEvent::Checked { passed: true, elapsed_ms: 0 }
            }
            SwapAction::Finish(result) => return (result, lines),
            SwapAction::Ignored => panic!("unexpected event"),
        };
    }
}

#[test]
fn ac2_warm_swap_state_machine_success() {
    let (result, _) = swap(test_recipe("wm-stt"), vec![Some(1), Some(1)]);
    match result {
        WarmSwapResult::Success { .. } => {}
        WarmSwapResult::SplitState { holders } => {
            panic!("AC2: expected Success, got SplitState(holders={holders})");
        }
        WarmSwapResult::Failed(e) => {
            panic!("AC2: expected Success, got Failed({})", e.to_string());
        }
    }
}

#[test]
fn ac3_split_state_guard_two_holders() {
    let (result, _) = swap(test_recipe("wm-stt"), vec![Some(2), Some(2)]);
    match result {
        WarmSwapResult::SplitState { holders } => {
            assert_eq!(holders, 2, "AC3: must report 2 holders");
        }
        WarmSwapResult::Success { .. } => panic!("AC3: expected SplitState, got Success"),
        WarmSwapResult::Failed(e) => {
            panic!("AC3: expected SplitState, got Failed({})", e.to_string())
        }
    }
}

#[test]
fn ac3_split_state_guard_zero_holders() {
    let (result, _) = swap(test_recipe("wm-stt"), vec![Some(1), Some(0)]);
    match result {
        WarmSwapResult::SplitState { holders } => {
            assert_eq!(holders, 0, "AC3: must report 0 holders");
        }
        WarmSwapResult::Success { .. } => panic!("AC3: expected SplitState, got Success"),
        WarmSwapResult::Failed(e) => {
            panic!("AC3: expected SplitState, got Failed({})", e.to_string())
        }
    }
}

#[test]
fn swap_tells_what_it_does() {
    let (result, lines) = swap(test_recipe("wm-stt"), vec![None, Some(0), Some(1), None, Some(1)]);
    assert!(matches!(
        result,
        WarmSwapResult::Success { prev_pid: 99999, new_pid: Some(77) }
    ));
    assert_eq!(
        lines,
        vec![
            Line::Warn("rollout warmswap: launched successor for wm-stt (pid=Some(77))".to_owned()),
            Line::Warn(
                "rollout warmswap: systemctl stop wm-stt.service returned 5; \
                 will proceed (predecessor may already be down)"
                    .to_owned()
            ),
        ]
    );
}

#[test]
fn swap_without_a_unit_sends_sigterm() {
    let mut recipe = test_recipe("wm-stt");
    recipe.unit = Some(String::new());
    let (result, lines) = swap(recipe, vec![]);
    assert!(matches!(result, WarmSwapResult::Success { .. }));
    assert_eq!(
        lines[1],
        Line::Warn("rollout warmswap: sent SIGTERM to wm-stt pid=99999".to_owned())
    );
}

#[test]
fn swap_gives_up_on_a_successor_that_takes_no_claim() {
    let (result, _) = swap(test_recipe("wm-stt"), vec![Some(0); 61]);
    match result {
        WarmSwapResult::Failed(e) => assert_eq!(
            e.to_string(),
            "daemon `wm-stt` failed healthcheck (old_pid=99999, new_pid=Some(77)): warm-swap: \
             successor did not acquire claim on 'agorabus://daemon/wm-stt' within 30s"
        ),
        _ => panic!("expected a failure"),
    }
}

#[test]
fn swap_without_an_answer_is_a_split_state() {
    let mut counts = vec![Some(1)];
    counts.extend(vec![None; 61]);
    let (result, _) = swap(test_recipe("wm-stt"), counts);
    assert!(matches!(result, WarmSwapResult::SplitState { holders: 0 }));
}

#[test]
fn swap_fails_by_the_step_that_failed() {
    let fail = |events: Vec<SwapEvent>| {
        let mut swap = WarmSwap::new(test_recipe("d"), "c".to_owned(), 7, 200);
        for event in events {
            let step = swap.warm_swap(event);
            if let SwapAction::Finish(WarmSwapResult::Failed(e)) = step.action {
                return e.to_string();
            }
        }
        panic!("the swap has not failed")
    };
    assert_eq!(
        fail(vec![SwapEvent::Begin, SwapEvent::Ran(exited(false, Some(2)))]),
        "build/install step for `d` failed: install cmd exited 2"
    );
    assert_eq!(
        fail(vec![
            SwapEvent::Begin,
            SwapEvent::Ran(CommandOutcome::NotSpawned("no sh".to_owned()))
        ]),
        "build/install step for `d` failed: install cmd could not be spawned: no sh"
    );
    assert_eq!(
        fail(vec![
            SwapEvent::Begin,
            SwapEvent::Ran(exited(true, Some(0))),
            SwapEvent::Launched(Err("no systemd-run".to_owned())),
        ]),
        "launch of `d` failed: systemd-run --user --scope spawn failed: no systemd-run"
    );
    assert_eq!(
        fail(vec![
            SwapEvent::Begin,
            SwapEvent::Ran(exited(true, Some(0))),
            SwapEvent::Launched(Ok(8)),
            SwapEvent::Counted { holders: Some(1), elapsed_ms: 0 },
            SwapEvent::Ran(CommandOutcome::NotSpawned("no systemctl".to_owned())),
        ]),
        "signal error: systemctl stop d.service: no systemctl"
    );
    assert_eq!(
        fail(vec![
            SwapEvent::Begin,
            SwapEvent::Ran(exited(true, Some(0))),
            SwapEvent::Launched(Ok(8)),
            SwapEvent::Counted { holders: Some(1), elapsed_ms: 0 },
            SwapEvent::Ran(exited(true, Some(0))),
            SwapEvent::Counted { holders: Some(1), elapsed_ms: 0 },
            SwapEvent::Checked { passed: false, elapsed_ms: 100 },
            SwapEvent::Checked { passed: false, elapsed_ms: 200 },
        ]),
        "daemon `d` failed healthcheck (old_pid=7, new_pid=Some(8)): \
         healthcheck did not pass within 0s"
    );
}

#[test]
fn events_out_of_turn_change_nothing() {
    let mut swap = WarmSwap::new(test_recipe("d"), "c".to_owned(), 7, 200);
    assert!(matches!(
        swap.warm_swap(SwapEvent::Launched(Ok(1))).action,
        SwapAction::Ignored
    ));
    assert!(matches!(
        swap.warm_swap(SwapEvent::Begin).action,
        SwapAction::Install { .. }
    ));
    assert!(matches!(
        swap.warm_swap(SwapEvent::Counted { holders: Some(1), elapsed_ms: 0 }).action,
        SwapAction::Ignored
    ));
}

#[test]
fn claim_listing_is_counted() {
    assert_eq!(claim_list_count(true, b"[]"), Some(0));
    assert_eq!(claim_list_count(true, b" [{\"holder\":1},{\"holder\":2}]\n"), Some(2));
    assert_eq!(claim_list_count(false, b"[]"), None);
    assert_eq!(claim_list_count(true, b"{}"), None);
    assert_eq!(claim_list_count(true, b"[1"), None);
    assert_eq!(claim_list_count(true, &[0x5b, 0xff, 0x5d]), None);
    assert_eq!(claim_list_count(true, "\u{a0}[1]\u{2003}".as_bytes()), Some(1));
}

#[test]
fn ac4_no_claim_key_uses_hard_restart() {
    let recipe = DaemonRecipe {
        name: "recalld".to_owned(),
        repo: None,
        build_cmd: "true".to_owned(),
        install_cmd: "true".to_owned(),
        launch_cmd: "recalld &".to_owned(),
        unit: Some("recalld.service".to_owned()),
        healthcheck: None,
        grace_period_secs: 5,
        warm_swap: false,
        claim_key: None,
    };

    assert_eq!(
        restart_strategy_label(&recipe),
        "hard",
        "AC4: recipe with no claim_key and warm_swap=false must use hard restart"
    );
}

#[test]
fn ac4_warm_swap_flag_selects_warm_swap() {
    let recipe = DaemonRecipe {
        name: "wm-stt".to_owned(),
        repo: None,
        build_cmd: "true".to_owned(),
        install_cmd: "true".to_owned(),
        launch_cmd: "wm-stt &".to_owned(),
        unit: Some("wm-stt.service".to_owned()),
        healthcheck: None,
        grace_period_secs: 5,
        warm_swap: true,
        claim_key: None,
    };

    assert_eq!(
        restart_strategy_label(&recipe),
        "warm-swap",
        "AC4: recipe with warm_swap=true must select warm-swap"
    );
}

#[test]
fn ac4_claim_key_selects_warm_swap() {
    let recipe = DaemonRecipe {
        name: "wm-tts".to_owned(),
        repo: None,
        build_cmd: "true".to_owned(),
        install_cmd: "true".to_owned(),
        launch_cmd: "wm-tts &".to_owned(),
        unit: Some("wm-tts.service".to_owned()),
        healthcheck: None,
        grace_period_secs: 5,
        warm_swap: false,
        claim_key: Some("agorabus://daemon/wm-tts".to_owned()),
    };

    assert_eq!(
        restart_strategy_label(&recipe),
        "warm-swap",
        "AC4: claim_key present → warm-swap regardless of warm_swap flag"
    );
}

#[test]
fn ac5_claim_path_uses_claim_key_when_set() {
    let recipe = DaemonRecipe {
        name: "wm-stt".to_owned(),
        repo: None,
        build_cmd: "true".to_owned(),
        install_cmd: "true".to_owned(),
        launch_cmd: "wm-stt &".to_owned(),
        unit: Some("wm-stt.service".to_owned()),
        healthcheck: None,
        grace_period_secs: 5,
        warm_swap: false,
        claim_key: Some("agorabus://daemon/wm-stt".to_owned()),
    };

    assert_eq!(
        claim_path_for_recipe(&recipe),
        Some("agorabus://daemon/wm-stt".to_owned()),
        "AC5: explicit claim_key is returned verbatim"
    );
}

#[test]
fn ac5_claim_path_derived_from_unit_stem() {
    let recipe = DaemonRecipe {
        name: "wm-tts".to_owned(),
        repo: None,
        build_cmd: "true".to_owned(),
        install_cmd: "true".to_owned(),
        launch_cmd: "wm-tts &".to_owned(),
        unit: Some("wm-tts.service".to_owned()),
        healthcheck: None,
        grace_period_secs: 5,
        warm_swap: true,
        claim_key: None,
    };

    assert_eq!(
        claim_path_for_recipe(&recipe),
        Some("agorabus://daemon/wm-tts".to_owned()),
        "AC5: derived path must be agorabus://daemon/<unit-stem>"
    );
}

#[test]
fn ac5_claim_path_none_when_no_unit_no_key() {
    let recipe = DaemonRecipe {
        name: "myapp".to_owned(),
        repo: None,
        build_cmd: "true".to_owned(),
        install_cmd: "true".to_owned(),
        launch_cmd: "myapp &".to_owned(),
        unit: None,
        healthcheck: None,
        grace_period_secs: 5,
        warm_swap: false,
        claim_key: None,
    };

    assert_eq!(
        claim_path_for_recipe(&recipe),
        None,
        "AC5: no unit + no claim_key → None"
    );
}

#[test]
fn empty_claim_keys_and_units_do_not_count() {
    let mut recipe = test_recipe("x");
    recipe.claim_key = Some(String::new());
    assert_eq!(claim_path_for_recipe(&recipe).as_deref(), Some("agorabus://daemon/x"));
    assert_eq!(restart_strategy_label(&recipe), "hard");
    recipe.unit = Some("plain".to_owned());
    assert_eq!(claim_path_for_recipe(&recipe).as_deref(), Some("agorabus://daemon/plain"));
    recipe.unit = Some(String::new());
    assert_eq!(claim_path_for_recipe(&recipe), None);
}
