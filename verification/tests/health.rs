//! The voice set, its guards and the healthcheck poll.

use rollout::health::{
    check_window_guard, is_voice_daemon, poll_healthcheck, sample_left, voice_defer_reason,
    window_sample, PollStep, ProbeEvent, VoiceActivityState, VoiceProbe, WindowSample,
    DEFAULT_VOICE_SAMPLE_SECS,
};

#[test]
fn ac4_wm_audio_is_voice_daemon() {
    assert!(is_voice_daemon("wm-audio"), "AC4: wm-audio must be in the voice set");
}

#[test]
fn ac4_original_voice_daemons_still_in_set() {
    for name in ["wm-dialog", "wm-stt", "wm-tts"] {
        assert!(is_voice_daemon(name), "AC4: {name} must be in the voice set");
    }
}

#[test]
fn ac4_non_voice_daemons_excluded() {
    for name in ["recalld", "agorabus", "wm-brain", "wm-", "wm-audiox"] {
        assert!(!is_voice_daemon(name), "AC4: {name} must NOT be in the voice set");
    }
}

#[test]
fn voice_set_matches_whole_names_only() {
    for name in ["", "xwm-tts", "wm-tts ", "wm-tts\n", "WM-TTS", "wm-tts|", "wm-(tts)", "tts"] {
        assert!(!is_voice_daemon(name), "{name:?}");
    }
}

#[test]
fn ac1_voice_activity_state_variants() {
    let in_flight = VoiceActivityState::InFlight {
        reason: "test".to_owned(),
    };
    let idle = VoiceActivityState::Idle;
    let unreachable = VoiceActivityState::BusUnreachable;

    let mut in_flight_seen = false;
    let mut idle_seen = false;
    let mut unreachable_seen = false;

    for state in [in_flight, idle, unreachable] {
        match state {
            VoiceActivityState::InFlight { reason } => {
                assert_eq!(reason, "test");
                in_flight_seen = true;
            }
            VoiceActivityState::Idle => idle_seen = true,
            VoiceActivityState::BusUnreachable => unreachable_seen = true,
        }
    }
    assert!(in_flight_seen && idle_seen && unreachable_seen, "AC1: all variants covered");
}

#[test]
fn ac1_voice_activity_in_flight_completes() {
    let mut probe = VoiceProbe::new();
    let state = probe.voice_activity_in_flight(ProbeEvent::Over { now_ns: 50_000_000 });
    match state.expect("the sample time is over") {
        VoiceActivityState::InFlight { .. }
        | VoiceActivityState::Idle
        | VoiceActivityState::BusUnreachable => {}
    }
}

#[test]
fn spawn_failure_is_an_unreachable_bus() {
    let mut probe = VoiceProbe::new();
    let state = probe.voice_activity_in_flight(ProbeEvent::SpawnFailed);
    assert!(matches!(state, Some(VoiceActivityState::BusUnreachable)));
}

fn line(topic: &str, now_ns: u128) -> ProbeEvent {
    ProbeEvent::Line {
        text: format!("{{\"topic\":\"{topic}\",\"data\":{{}},\"from\":\"test\"}}"),
        now_ns,
    }
}

fn probe(events: Vec<ProbeEvent>) -> VoiceActivityState {
    let mut probe = VoiceProbe::new();
    for event in events {
        if let Some(state) = probe.voice_activity_in_flight(event) {
            return state;
        }
    }
    panic!("the probe has not answered")
}

fn reason(state: VoiceActivityState) -> String {
    match state {
        VoiceActivityState::InFlight { reason } => reason,
        VoiceActivityState::Idle => panic!("idle"),
        VoiceActivityState::BusUnreachable => panic!("unreachable"),
    }
}

#[test]
fn session_start_without_end_is_in_flight() {
    let state = probe(vec![
        line("wm.brain.session.end", 1),
        line("wm.brain.session.start", 2),
        line("wm.brain.other", 3),
        ProbeEvent::Over { now_ns: 60_000_000_000 },
    ]);
    assert_eq!(reason(state), "wm.brain.session.start seen without wm.brain.session.end");
}

#[test]
fn session_that_ended_is_idle() {
    let state = probe(vec![
        line("wm.brain.session.start", 1),
        line("wm.brain.session.end", 2),
        ProbeEvent::Over { now_ns: 3 },
    ]);
    assert!(matches!(state, VoiceActivityState::Idle));
}

#[test]
fn turn_is_in_flight_for_the_idle_window() {
    let at = |now_ns| {
        probe(vec![
            line("wm.dialog.turn.user", 1_000_000_000),
            line("wm.dialog.turn.system", 2_000_000_000),
            ProbeEvent::Over { now_ns },
        ])
    };
    assert_eq!(
        reason(at(3_500_999_999)),
        "wm.dialog.turn.* seen 1500ms ago (within 2000ms idle window)"
    );
    assert_eq!(
        reason(at(3_999_999_999)),
        "wm.dialog.turn.* seen 1999ms ago (within 2000ms idle window)"
    );
    assert!(matches!(at(4_000_000_000), VoiceActivityState::Idle));
    assert_eq!(
        reason(at(1_500_000_000)),
        "wm.dialog.turn.* seen 0ms ago (within 2000ms idle window)"
    );
}

#[test]
fn two_silent_subscriptions_are_an_unreachable_bus() {
    let state = probe(vec![ProbeEvent::Eof { now_ns: 1 }, ProbeEvent::Eof { now_ns: 2 }]);
    assert!(matches!(state, VoiceActivityState::BusUnreachable));
    let state = probe(vec![ProbeEvent::Eof { now_ns: 1 }, ProbeEvent::Over { now_ns: 2 }]);
    assert!(matches!(state, VoiceActivityState::Idle));
}

#[test]
fn a_line_without_a_topic_still_counts_as_heard() {
    for text in ["wm.dialog.turn.start {}", "[1,2]", "{\"topic\":7}", "{}"] {
        let state = probe(vec![
            ProbeEvent::Line { text: text.to_owned(), now_ns: 1 },
            ProbeEvent::Eof { now_ns: 2 },
            ProbeEvent::Eof { now_ns: 3 },
        ]);
        assert!(matches!(state, VoiceActivityState::Idle), "{text}");
    }
}

#[test]
fn only_idle_is_not_deferred() {
    assert_eq!(voice_defer_reason(&VoiceActivityState::Idle), None);
    assert_eq!(
        voice_defer_reason(&VoiceActivityState::BusUnreachable).as_deref(),
        Some("bus unreachable — cannot confirm voice loop is idle")
    );
    assert_eq!(
        voice_defer_reason(&VoiceActivityState::InFlight { reason: "r".to_owned() }).as_deref(),
        Some("voice active: r")
    );
    assert_eq!(DEFAULT_VOICE_SAMPLE_SECS, 3);
}

#[test]
fn healthcheck_is_tried_until_its_time_is_over() {
    assert!(matches!(
        poll_healthcheck("d", 1, Some(2), 1000, true, 5000),
        PollStep::Passed
    ));
    assert!(matches!(poll_healthcheck("d", 1, Some(2), 1000, false, 999), PollStep::Again));
    match poll_healthcheck("d", 1, Some(2), 30_000, false, 30_000) {
        PollStep::Failed(e) => assert_eq!(
            e.to_string(),
            "daemon `d` failed healthcheck (old_pid=1, new_pid=Some(2)): \
             healthcheck did not pass within 30s"
        ),
        PollStep::Passed | PollStep::Again => panic!("expected a timeout"),
    }
    match poll_healthcheck("d", 1, None, 100, false, 100) {
        PollStep::Failed(e) => assert_eq!(
            e.to_string(),
            "daemon `d` failed healthcheck (old_pid=1, new_pid=None): \
             healthcheck did not pass within 0s"
        ),
        PollStep::Passed | PollStep::Again => panic!("expected a timeout"),
    }
}

#[test]
fn window_guard_blocks_heard_voice_activity_only() {
    for sample in [WindowSample::Unavailable, WindowSample::Quiet] {
        assert!(check_window_guard("wm-dialog", sample).is_ok());
    }
    assert!(check_window_guard("recalld", WindowSample::Active).is_ok());
    assert_eq!(
        check_window_guard("wm-dialog", WindowSample::Active).unwrap_err().to_string(),
        "window guard: daemon `wm-dialog` has recent wm.dialog.turn.* activity; \
         use --window to change the quiet period or wait"
    );
}

#[test]
fn anything_printed_is_activity() {
    assert!(matches!(window_sample(None), WindowSample::Unavailable));
    assert!(matches!(window_sample(Some(b"")), WindowSample::Quiet));
    assert!(matches!(window_sample(Some(b"\n")), WindowSample::Active));
}

#[test]
fn sample_time_runs_out() {
    assert_eq!(sample_left(3_000_000_000, 0), Some(3_000_000_000));
    assert_eq!(sample_left(3_000_000_000, 2_999_999_999), Some(1));
    assert_eq!(sample_left(3_000_000_000, 3_000_000_000), None);
    assert_eq!(sample_left(u64::MAX, u128::MAX), None);
}
