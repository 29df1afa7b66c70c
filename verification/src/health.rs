//! The voice set and its guards, and the healthcheck poll.

use crate::error::{RolloutError, RolloutErrorView};
use crate::fleet::outcome;
use crate::json::{json_text_member, text_member};
use crate::text::{
    dec, decimal, joined, lemma_mentions, mentions, opt_string, opt_text, same,
};
use vstd::prelude::*;
use vstd::utf8::encode_utf8;

verus! {

// ---------------------------------------------------------------------------
// The voice set
// ---------------------------------------------------------------------------

/// The pattern of the voice set's names.
const VOICE_SET_PATTERN: &'static str = "^wm-(audio|dialog|stt|tts)$";

/// Text of lower-case letters and `-` only, which stands for itself in a pattern.
pub open spec fn is_plain(s: Seq<char>) -> bool {
    forall|i: int| 0 <= i < s.len() ==> ('a' <= #[trigger] s[i] <= 'z' || s[i] == '-')
}

/// The pattern of the texts that are `prefix` followed by one of `words`.
pub open spec fn choice_pattern(prefix: Seq<char>, words: Seq<Seq<char>>) -> Seq<char> {
    "^"@ + prefix + "("@ + joined(words, "|"@) + ")$"@
}

/// Whether the regular expression `pattern` matches somewhere in `text`; `None` where
/// `pattern` is no regular expression.
pub uninterp spec fn regex_matches(pattern: Seq<char>, text: Seq<char>) -> Option<bool>;

/// `regex::Regex::new` and `regex::Regex::is_match`: the result is a function of the pattern
/// and the text, and that function is called [`regex_matches`].
///
/// A short anchored choice of plain words is a regular expression, and it matches exactly the
/// texts that are its prefix followed by one of its words.
#[verifier::external_body]
fn regex_is_match(pattern: &str, text: &str) -> (r: Option<bool>)
    ensures
        r == regex_matches(pattern@, text@),
        forall|prefix: Seq<char>, words: Seq<Seq<char>>|
            pattern@.len() <= 100 && words.len() > 0 && is_plain(prefix) && (forall|i: int|
                0 <= i < words.len() ==> is_plain(#[trigger] words[i])) && pattern@
                == #[trigger] choice_pattern(prefix, words) ==> r == Some(
                exists|i: int| 0 <= i < words.len() && text@ == prefix + #[trigger] words[i],
            ),
{
    let re = regex::Regex::new(pattern).ok()?;
    Some(re.is_match(text))
}

/// The words behind `wm-` in the names of the voice set.
pub open spec fn voice_words() -> Seq<Seq<char>> {
    seq!["audio"@, "dialog"@, "stt"@, "tts"@]
}

/// The voice set: `wm-audio`, `wm-dialog`, `wm-stt` and `wm-tts`.
pub open spec fn is_voice(name: Seq<char>) -> bool {
    name == "wm-audio"@ || name == "wm-dialog"@ || name == "wm-stt"@ || name == "wm-tts"@
}

proof fn lemma_voice_pattern()
    ensures
        VOICE_SET_PATTERN@ == choice_pattern("wm-"@, voice_words()),
        VOICE_SET_PATTERN@.len() <= 100,
        is_plain("wm-"@),
        forall|i: int| 0 <= i < voice_words().len() ==> is_plain(#[trigger] voice_words()[i]),
{
    reveal_strlit("^wm-(audio|dialog|stt|tts)$");
    reveal_strlit("^");
    reveal_strlit("wm-");
    reveal_strlit("(");
    reveal_strlit("|");
    reveal_strlit(")$");
    reveal_strlit("audio");
    reveal_strlit("dialog");
    reveal_strlit("stt");
    reveal_strlit("tts");
    let w = voice_words();
    let sep = "|"@;
    reveal_with_fuel(joined, 5);
    assert(joined(w, sep) =~= "audio"@ + sep + "dialog"@ + sep + "stt"@ + sep + "tts"@) by {
        assert(w.drop_last() =~= seq!["audio"@, "dialog"@, "stt"@]);
        assert(w.drop_last().drop_last() =~= seq!["audio"@, "dialog"@]);
        assert(w.drop_last().drop_last().drop_last() =~= seq!["audio"@]);
    }
    assert(VOICE_SET_PATTERN@ =~= choice_pattern("wm-"@, w));
}

proof fn lemma_voice_names(name: Seq<char>)
    ensures
        is_voice(name) <==> exists|i: int|
            0 <= i < voice_words().len() && name == "wm-"@ + #[trigger] voice_words()[i],
{
    reveal_strlit("wm-");
    reveal_strlit("audio");
    reveal_strlit("dialog");
    reveal_strlit("stt");
    reveal_strlit("tts");
    reveal_strlit("wm-audio");
    reveal_strlit("wm-dialog");
    reveal_strlit("wm-stt");
    reveal_strlit("wm-tts");
    let w = voice_words();
    assert("wm-audio"@ =~= "wm-"@ + w[0]);
    assert("wm-dialog"@ =~= "wm-"@ + w[1]);
    assert("wm-stt"@ =~= "wm-"@ + w[2]);
    assert("wm-tts"@ =~= "wm-"@ + w[3]);
}

/// Whether a daemon belongs to the voice set.
pub fn is_voice_daemon(name: &str) -> (r: bool)
    ensures
        r == is_voice(name@),
{
    proof {
        lemma_voice_pattern();
        lemma_voice_names(name@);
    }
    match regex_is_match(VOICE_SET_PATTERN, name) {
        Some(b) => b,
        None => false,
    }
}

// ---------------------------------------------------------------------------
// Voice activity
// ---------------------------------------------------------------------------

/// For how many seconds the bus is sampled for voice activity.
pub const DEFAULT_VOICE_SAMPLE_SECS: u64 = 3;

/// How many subscriptions a probe listens to.
pub const PROBE_SUBSCRIPTIONS: u32 = 2;

/// For how long a dialog turn counts as live after its last event, in nanoseconds.
pub const TURN_IDLE_WINDOW_NS: u128 = 2_000_000_000;

/// What a probe of the bus says of the voice loop.
#[derive(Debug)]
pub enum VoiceActivityState {
    /// A turn or session is live, and how that was seen.
    InFlight { reason: String },
    /// Nothing is live.
    Idle,
    /// The bus could not be asked.
    BusUnreachable,
}

/// The model of a [`VoiceActivityState`].
#[verifier::ext_equal]
pub enum ActivityView {
    InFlight { reason: Seq<char> },
    Idle,
    BusUnreachable,
}

impl View for VoiceActivityState {
    type V = ActivityView;

    open spec fn view(&self) -> ActivityView {
        match *self {
            VoiceActivityState::InFlight { reason } => ActivityView::InFlight { reason: reason@ },
            VoiceActivityState::Idle => ActivityView::Idle,
            VoiceActivityState::BusUnreachable => ActivityView::BusUnreachable,
        }
    }
}

/// Why a voice daemon is left alone in a given state, if it is.
pub open spec fn defer_reason(state: ActivityView) -> Option<Seq<char>> {
    match state {
        ActivityView::InFlight { reason } => Some("voice active: "@ + reason),
        ActivityView::BusUnreachable => Some(
            "bus unreachable — cannot confirm voice loop is idle"@,
        ),
        ActivityView::Idle => None,
    }
}

/// Why a voice daemon is left alone in a given state, if it is.
pub fn voice_defer_reason(state: &VoiceActivityState) -> (r: Option<String>)
    ensures
        opt_string(r) == defer_reason(state@),
{
    match state {
        VoiceActivityState::InFlight { reason } => Some(
            "voice active: ".to_owned().concat(reason.as_str()),
        ),
        VoiceActivityState::BusUnreachable => Some(
            "bus unreachable — cannot confirm voice loop is idle".to_owned(),
        ),
        VoiceActivityState::Idle => None,
    }
}

/// What a probe has heard so far.
#[derive(Debug, Clone, Copy)]
pub struct VoiceProbe {
    session_in_flight: bool,
    last_turn_ns: Option<u128>,
    events_received: u32,
    eof_count: u32,
}

/// The model of a [`VoiceProbe`].
#[verifier::ext_equal]
pub struct ProbeView {
    /// Whether a session has started and not ended.
    pub session_in_flight: bool,
    /// When the last dialog turn was heard, in nanoseconds of a steady clock.
    pub last_turn_ns: Option<nat>,
    /// How many events were heard; counting stops at the largest number of 32 bits.
    pub events_received: nat,
    /// How many subscriptions have ended; counting stops at the largest number of 32 bits.
    pub eof_count: nat,
}

impl View for VoiceProbe {
    type V = ProbeView;

    closed spec fn view(&self) -> ProbeView {
        ProbeView {
            session_in_flight: self.session_in_flight,
            last_turn_ns: match self.last_turn_ns {
                Some(t) => Some(t as nat),
                None => None,
            },
            events_received: self.events_received as nat,
            eof_count: self.eof_count as nat,
        }
    }
}

/// Something that happens while a probe listens.
#[derive(Debug)]
pub enum ProbeEvent {
    /// A subscription could not be opened.
    SpawnFailed,
    /// A subscription gave a line.
    Line { text: String, now_ns: u128 },
    /// A subscription ended.
    Eof { now_ns: u128 },
    /// The sample time is over, or no subscription is left.
    Over { now_ns: u128 },
}

/// The model of a [`ProbeEvent`]; of a line, only its topic counts.
#[verifier::ext_equal]
pub enum ProbeEventView {
    SpawnFailed,
    Line { topic: Option<Seq<char>>, now_ns: nat },
    Eof { now_ns: nat },
    Over { now_ns: nat },
}

impl View for ProbeEvent {
    type V = ProbeEventView;

    open spec fn view(&self) -> ProbeEventView {
        match *self {
            ProbeEvent::SpawnFailed => ProbeEventView::SpawnFailed,
            ProbeEvent::Line { text, now_ns } => ProbeEventView::Line {
                topic: json_text_member(encode_utf8(text@), "topic"@),
                now_ns: now_ns as nat,
            },
            ProbeEvent::Eof { now_ns } => ProbeEventView::Eof { now_ns: now_ns as nat },
            ProbeEvent::Over { now_ns } => ProbeEventView::Over { now_ns: now_ns as nat },
        }
    }
}

/// `n` and one more, up to the largest number of 32 bits.
pub open spec fn counted(n: nat) -> nat {
    if n < u32::MAX {
        n + 1
    } else {
        n
    }
}

/// A probe that has heard nothing.
pub open spec fn silent_probe() -> ProbeView {
    ProbeView { session_in_flight: false, last_turn_ns: None, events_received: 0, eof_count: 0 }
}

/// The probe after a line with the given topic.
///
/// A session is live from its start to its end; a dialog turn of the user or of the system is
/// remembered by its time.
pub open spec fn heard(p: ProbeView, topic: Option<Seq<char>>, now_ns: nat) -> ProbeView {
    ProbeView {
        session_in_flight: if topic == Some("wm.brain.session.start"@) {
            true
        } else if topic == Some("wm.brain.session.end"@) {
            false
        } else {
            p.session_in_flight
        },
        last_turn_ns: if topic == Some("wm.dialog.turn.user"@) || topic == Some(
            "wm.dialog.turn.system"@,
        ) {
            Some(now_ns)
        } else {
            p.last_turn_ns
        },
        events_received: counted(p.events_received),
        eof_count: p.eof_count,
    }
}

/// How long ago `since` was at the time `now`; nothing lies in the future.
pub open spec fn elapsed(now: nat, since: nat) -> nat {
    if now >= since {
        (now - since) as nat
    } else {
        0
    }
}

/// What a probe that stops listening at `now_ns` says.
///
/// A bus of which every subscription ended without an event counts as unreachable.
pub open spec fn probe_result(p: ProbeView, now_ns: nat) -> ActivityView {
    if p.events_received == 0 && p.eof_count >= PROBE_SUBSCRIPTIONS {
        ActivityView::BusUnreachable
    } else if p.session_in_flight {
        ActivityView::InFlight {
            reason: "wm.brain.session.start seen without wm.brain.session.end"@,
        }
    } else {
        match p.last_turn_ns {
            Some(t) if elapsed(now_ns, t) < TURN_IDLE_WINDOW_NS => ActivityView::InFlight {
                reason: "wm.dialog.turn.* seen "@ + dec(elapsed(now_ns, t) / 1_000_000)
                    + "ms ago (within "@ + dec((TURN_IDLE_WINDOW_NS / 1_000_000) as nat)
                    + "ms idle window)"@,
            },
            _ => ActivityView::Idle,
        }
    }
}

/// The probe after an event.
pub open spec fn probe_next(p: ProbeView, event: ProbeEventView) -> ProbeView {
    match event {
        ProbeEventView::SpawnFailed => p,
        ProbeEventView::Line { topic, now_ns } => heard(p, topic, now_ns),
        ProbeEventView::Eof { now_ns } => ProbeView { eof_count: counted(p.eof_count), ..p },
        ProbeEventView::Over { now_ns } => p,
    }
}

/// What the probe says on an event, if it stops listening then.
///
/// It stops when a subscription cannot be opened, when both have ended, and when the sample
/// time is over.
pub open spec fn probe_answer(p: ProbeView, event: ProbeEventView) -> Option<ActivityView> {
    match event {
        ProbeEventView::SpawnFailed => Some(ActivityView::BusUnreachable),
        ProbeEventView::Line { topic, now_ns } => None,
        ProbeEventView::Eof { now_ns } => if probe_next(p, event).eof_count
            >= PROBE_SUBSCRIPTIONS {
            Some(probe_result(probe_next(p, event), now_ns))
        } else {
            None
        },
        ProbeEventView::Over { now_ns } => Some(probe_result(p, now_ns)),
    }
}

/// An optional answer, as a model.
pub open spec fn opt_activity(o: Option<VoiceActivityState>) -> Option<ActivityView> {
    match o {
        Some(s) => Some(s@),
        None => None,
    }
}

impl VoiceProbe {
    /// A probe that has heard nothing.
    pub fn new() -> (r: VoiceProbe)
        ensures
            r@ == silent_probe(),
    {
        VoiceProbe {
            session_in_flight: false,
            last_turn_ns: None,
            events_received: 0,
            eof_count: 0,
        }
    }

    /// Take in a line with the given topic.
    pub fn hear(&mut self, topic: Option<&str>, now_ns: u128)
        ensures
            final(self)@ == heard(old(self)@, opt_text(topic), now_ns as nat),
    {
        self.events_received = self.events_received.saturating_add(1);
        match topic {
            Some(t) => {
                if same(t, "wm.brain.session.start") {
                    self.session_in_flight = true;
                    proof {
                        reveal_strlit("wm.brain.session.start");
                        reveal_strlit("wm.dialog.turn.user");
                        reveal_strlit("wm.dialog.turn.system");
                        assert("wm.brain.session.start"@.len() != "wm.dialog.turn.user"@.len());
                        assert("wm.brain.session.start"@.len() != "wm.dialog.turn.system"@.len());
                    }
                } else if same(t, "wm.brain.session.end") {
                    self.session_in_flight = false;
                    proof {
                        reveal_strlit("wm.brain.session.end");
                        reveal_strlit("wm.dialog.turn.user");
                        reveal_strlit("wm.dialog.turn.system");
                        assert("wm.brain.session.end"@.len() != "wm.dialog.turn.user"@.len());
                        assert("wm.brain.session.end"@.len() != "wm.dialog.turn.system"@.len());
                    }
                } else if same(t, "wm.dialog.turn.user") || same(t, "wm.dialog.turn.system") {
                    self.last_turn_ns = Some(now_ns);
                }
            },
            None => {},
        }
    }

    /// What the probe says when it stops listening now.
    pub fn conclude(&self, now_ns: u128) -> (r: VoiceActivityState)
        ensures
            r@ == probe_result(self@, now_ns as nat),
    {
        if self.events_received == 0 && self.eof_count >= PROBE_SUBSCRIPTIONS {
            return VoiceActivityState::BusUnreachable;
        }
        if self.session_in_flight {
            return VoiceActivityState::InFlight {
                reason: "wm.brain.session.start seen without wm.brain.session.end".to_owned(),
            };
        }
        match self.last_turn_ns {
            Some(t) => {
                let ago: u128 = now_ns.saturating_sub(t);
                if ago < TURN_IDLE_WINDOW_NS {
                    return VoiceActivityState::InFlight {
                        reason: "wm.dialog.turn.* seen ".to_owned().concat(
                            decimal(ago / 1_000_000).as_str(),
                        ).concat("ms ago (within ").concat(
                            decimal(TURN_IDLE_WINDOW_NS / 1_000_000).as_str(),
                        ).concat("ms idle window)"),
                    };
                }
            },
            None => {},
        }
        VoiceActivityState::Idle
    }

    /// Take in an event; an answer ends the probe.
    pub fn voice_activity_in_flight(&mut self, event: ProbeEvent) -> (r: Option<
        VoiceActivityState,
    >)
        ensures
            final(self)@ == probe_next(old(self)@, event@),
            opt_activity(r) == probe_answer(old(self)@, event@),
    {
        match event {
            ProbeEvent::SpawnFailed => Some(VoiceActivityState::BusUnreachable),
            ProbeEvent::Line { text, now_ns } => {
                let topic = text_member(text.as_str().as_bytes(), "topic");
                match &topic {
                    Some(t) => self.hear(Some(t.as_str()), now_ns),
                    None => self.hear(None, now_ns),
                }
                None
            },
            ProbeEvent::Eof { now_ns } => {
                self.eof_count = self.eof_count.saturating_add(1);
                if self.eof_count >= PROBE_SUBSCRIPTIONS {
                    Some(self.conclude(now_ns))
                } else {
                    None
                }
            },
            ProbeEvent::Over { now_ns } => Some(self.conclude(now_ns)),
        }
    }
}

/// For how many nanoseconds a probe that began `elapsed_ns` ago listens on, of `sample_ns` in all;
/// `None` where its time is over.
pub fn sample_left(sample_ns: u64, elapsed_ns: u128) -> (r: Option<u64>)
    ensures
        r == (if elapsed_ns < sample_ns {
            Some((sample_ns - elapsed_ns) as u64)
        } else {
            None
        }),
{
    if elapsed_ns < sample_ns as u128 {
        Some(sample_ns - elapsed_ns as u64)
    } else {
        None
    }
}

// ---------------------------------------------------------------------------
// The healthcheck
// ---------------------------------------------------------------------------

/// How often a healthcheck is tried, in milliseconds.
pub const DEFAULT_POLL_INTERVAL_MS: u64 = 500;

/// What follows a try of the healthcheck.
#[derive(Debug)]
pub enum PollStep {
    /// The daemon has re-registered.
    Passed,
    /// It is tried again after the poll interval.
    Again,
    /// The time is over.
    Failed(RolloutError),
}

/// The model of a [`PollStep`].
#[verifier::ext_equal]
pub enum PollView {
    Passed,
    Again,
    Failed(RolloutErrorView),
}

impl View for PollStep {
    type V = PollView;

    open spec fn view(&self) -> PollView {
        match *self {
            PollStep::Passed => PollView::Passed,
            PollStep::Again => PollView::Again,
            PollStep::Failed(e) => PollView::Failed(e@),
        }
    }
}

/// What follows a try of the healthcheck that ended `elapsed_ms` after the poll began: the
/// time limit counts only where the try failed.
pub open spec fn poll_step(
    name: Seq<char>,
    old_pid: u32,
    new_pid: Option<u32>,
    timeout_ms: nat,
    passed: bool,
    elapsed_ms: nat,
) -> PollView {
    if passed {
        PollView::Passed
    } else if elapsed_ms >= timeout_ms {
        PollView::Failed(
            RolloutErrorView::HealthcheckTimeout {
                name,
                old_pid,
                new_pid,
                reason: "healthcheck did not pass within "@ + dec(timeout_ms / 1000) + "s"@,
            },
        )
    } else {
        PollView::Again
    }
}

/// What follows a try of the healthcheck that ended `elapsed_ms` after the poll began.
pub fn poll_healthcheck(
    name: &str,
    old_pid: u32,
    new_pid: Option<u32>,
    timeout_ms: u128,
    passed: bool,
    elapsed_ms: u128,
) -> (r: PollStep)
    ensures
        r@ == poll_step(
            name@,
            old_pid,
            new_pid,
            timeout_ms as nat,
            passed,
            elapsed_ms as nat,
        ),
{
    if passed {
        return PollStep::Passed;
    }
    if elapsed_ms >= timeout_ms {
        return PollStep::Failed(
            RolloutError::HealthcheckTimeout {
                name: name.to_owned(),
                old_pid,
                new_pid,
                reason: "healthcheck did not pass within ".to_owned().concat(
                    decimal(timeout_ms / 1000).as_str(),
                ).concat("s"),
            },
        );
    }
    PollStep::Again
}

// ---------------------------------------------------------------------------
// The window guard
// ---------------------------------------------------------------------------

/// What a sample of the dialog turns on the bus gave.
#[derive(Debug, Clone, Copy)]
pub enum WindowSample {
    /// The bus could not be sampled.
    Unavailable,
    /// Nothing was heard.
    Quiet,
    /// Something was heard.
    Active,
}

/// What a sample gave, from what the subscription printed, where there is such a thing.
pub fn window_sample(printed: Option<&[u8]>) -> (r: WindowSample)
    ensures
        r == (match printed {
            None => WindowSample::Unavailable,
            Some(bytes) => if bytes@.len() == 0 {
                WindowSample::Quiet
            } else {
                WindowSample::Active
            },
        }),
{
    match printed {
        None => WindowSample::Unavailable,
        Some(bytes) => if bytes.len() == 0 {
            WindowSample::Quiet
        } else {
            WindowSample::Active
        },
    }
}

/// What the window guard says: only activity heard for a voice daemon blocks it.
pub open spec fn window_guard(daemon: Seq<char>, sample: WindowSample) -> Result<
    (),
    RolloutErrorView,
> {
    if is_voice(daemon) && sample is Active {
        Err(RolloutErrorView::WindowGuardBlocked { name: daemon })
    } else {
        Ok(())
    }
}

/// What the window guard says of a sample.
pub fn check_window_guard(daemon_name: &str, sample: WindowSample) -> (r: Result<
    (),
    RolloutError,
>)
    ensures
        outcome(r) == window_guard(daemon_name@, sample),
{
    if !is_voice_daemon(daemon_name) {
        return Ok(());
    }
    match sample {
        WindowSample::Unavailable => Ok(()),
        WindowSample::Quiet => Ok(()),
        WindowSample::Active => Err(
            RolloutError::WindowGuardBlocked { name: daemon_name.to_owned() },
        ),
    }
}

// ---------------------------------------------------------------------------
// Laws
// ---------------------------------------------------------------------------

/// A probe lets a voice daemon be touched exactly when it says that nothing is live.
pub proof fn law_only_idle_proceeds(state: ActivityView)
    ensures
        defer_reason(state) is None <==> state is Idle,
        state matches ActivityView::InFlight { reason } ==> reason.is_suffix_of(
            defer_reason(state)->Some_0,
        ),
{
    if let ActivityView::InFlight { reason } = state {
        let t = defer_reason(state)->Some_0;
        assert(t.subrange(t.len() - reason.len(), t.len() as int) =~= reason);
    }
}

/// What a probe has heard after the given events.
pub open spec fn probe_after(events: Seq<ProbeEventView>) -> ProbeView
    decreases events.len(),
{
    if events.len() == 0 {
        silent_probe()
    } else {
        probe_next(probe_after(events.drop_last()), events.last())
    }
}

/// Whether an event is a line with the given topic.
pub open spec fn is_topic(event: ProbeEventView, topic: Seq<char>) -> bool {
    event matches ProbeEventView::Line { topic: t, now_ns } && t == Some(topic)
}

/// Whether an event is a dialog turn.
pub open spec fn is_turn(event: ProbeEventView) -> bool {
    is_topic(event, "wm.dialog.turn.user"@) || is_topic(event, "wm.dialog.turn.system"@)
}

/// How many subscriptions end in the given events.
pub open spec fn ended(events: Seq<ProbeEventView>) -> nat
    decreases events.len(),
{
    if events.len() == 0 {
        0
    } else if events.last() is Eof {
        ended(events.drop_last()) + 1
    } else {
        ended(events.drop_last())
    }
}

proof fn lemma_counts(events: Seq<ProbeEventView>)
    ensures
        probe_after(events).events_received == 0 <==> forall|i: int|
            0 <= i < events.len() ==> !((#[trigger] events[i]) is Line),
        probe_after(events).eof_count >= PROBE_SUBSCRIPTIONS <==> ended(events)
            >= PROBE_SUBSCRIPTIONS,
        ended(events) < PROBE_SUBSCRIPTIONS ==> probe_after(events).eof_count == ended(events),
    decreases events.len(),
{
    if events.len() > 0 {
        let before = events.drop_last();
        lemma_counts(before);
        assert(forall|i: int| 0 <= i < before.len() ==> before[i] == events[i]);
        assert(events.last() == events[events.len() - 1]);
        if events.last() is Line {
            assert(!(forall|i: int| 0 <= i < events.len() ==> !((#[trigger] events[i]) is Line)));
        } else {
            if forall|i: int| 0 <= i < before.len() ==> !((#[trigger] before[i]) is Line) {
                assert forall|i: int| 0 <= i < events.len() implies !((
                #[trigger] events[i]) is Line) by {
                    if i < before.len() {
                        assert(!(before[i] is Line));
                    }
                }
            } else {
                let i = choose|i: int| 0 <= i < before.len() && (#[trigger] before[i]) is Line;
                assert(events[i] is Line);
            }
        }
    }
}

/// The bus counts as unreachable exactly when no line came and both subscriptions ended.
pub proof fn law_unreachable(events: Seq<ProbeEventView>, now_ns: nat)
    ensures
        probe_result(probe_after(events), now_ns) is BusUnreachable <==> ended(events) >= 2 && (
        forall|i: int| 0 <= i < events.len() ==> !((#[trigger] events[i]) is Line)),
{
    lemma_counts(events);
}

/// A session that was seen to start and not to end is in flight, whatever else was heard and
/// however long ago.
pub proof fn law_session_in_flight(events: Seq<ProbeEventView>, start: int, now_ns: nat)
    requires
        0 <= start < events.len(),
        is_topic(events[start], "wm.brain.session.start"@),
        forall|i: int|
            start < i < events.len() ==> !is_topic(
                #[trigger] events[i],
                "wm.brain.session.end"@,
            ),
    ensures
        probe_after(events).session_in_flight,
        probe_result(probe_after(events), now_ns) is InFlight,
    decreases events.len(),
{
    let before = events.drop_last();
    lemma_counts(events);
    assert(events[start] is Line);
    if start < events.len() - 1 {
        assert(before[start] == events[start]);
        assert forall|i: int| start < i < before.len() implies !is_topic(
            #[trigger] before[i],
            "wm.brain.session.end"@,
        ) by {
            assert(before[i] == events[i]);
        }
        law_session_in_flight(before, start, now_ns);
        assert(!is_topic(events[events.len() - 1], "wm.brain.session.end"@));
    }
}

proof fn lemma_last_turn(events: Seq<ProbeEventView>, turn: int)
    requires
        0 <= turn < events.len(),
        is_turn(events[turn]),
        forall|i: int| turn < i < events.len() ==> !is_turn(#[trigger] events[i]),
    ensures
        probe_after(events).last_turn_ns == Some(events[turn]->Line_now_ns),
    decreases events.len(),
{
    let before = events.drop_last();
    if turn < events.len() - 1 {
        assert(before[turn] == events[turn]);
        assert forall|i: int| turn < i < before.len() implies !is_turn(#[trigger] before[i]) by {
            assert(before[i] == events[i]);
        }
        lemma_last_turn(before, turn);
        assert(!is_turn(events[events.len() - 1]));
    }
}

/// A dialog turn that was the last one heard keeps the voice loop in flight for the whole
/// idle window.
pub proof fn law_turn_in_flight(events: Seq<ProbeEventView>, turn: int, now_ns: nat)
    requires
        0 <= turn < events.len(),
        is_turn(events[turn]),
        forall|i: int| turn < i < events.len() ==> !is_turn(#[trigger] events[i]),
        now_ns - events[turn]->Line_now_ns < 2_000_000_000,
    ensures
        probe_result(probe_after(events), now_ns) is InFlight,
{
    lemma_last_turn(events, turn);
    lemma_counts(events);
    assert(events[turn] is Line);
}

/// Whether a session was heard to start and not to end after that.
pub open spec fn session_live(events: Seq<ProbeEventView>) -> bool {
    exists|start: int|
        0 <= start < events.len() && #[trigger] is_topic(
            events[start],
            "wm.brain.session.start"@,
        ) && forall|i: int|
            start < i < events.len() ==> !is_topic(#[trigger] events[i], "wm.brain.session.end"@)
}

/// Whether a dialog turn was heard less than two seconds before `now_ns`, and none after it.
pub open spec fn turn_live(events: Seq<ProbeEventView>, now_ns: nat) -> bool {
    exists|turn: int|
        0 <= turn < events.len() && #[trigger] is_turn(events[turn]) && (forall|i: int|
            turn < i < events.len() ==> !is_turn(#[trigger] events[i])) && now_ns
            - events[turn]->Line_now_ns < 2_000_000_000
}

proof fn lemma_session_known(events: Seq<ProbeEventView>)
    ensures
        probe_after(events).session_in_flight ==> session_live(events),
    decreases events.len(),
{
    if events.len() > 0 {
        let before = events.drop_last();
        let n = before.len() as int;
        lemma_session_known(before);
        if is_topic(events[n], "wm.brain.session.start"@) {
            assert(session_live(events));
        } else if probe_after(events).session_in_flight {
            let start = choose|start: int|
                0 <= start < before.len() && #[trigger] is_topic(
                    before[start],
                    "wm.brain.session.start"@,
                ) && forall|i: int|
                    start < i < before.len() ==> !is_topic(
                        #[trigger] before[i],
                        "wm.brain.session.end"@,
                    );
            assert(is_topic(events[start], "wm.brain.session.start"@));
            assert forall|i: int| start < i < events.len() implies !is_topic(
                #[trigger] events[i],
                "wm.brain.session.end"@,
            ) by {
                if i < n {
                    assert(before[i] == events[i]);
                }
            }
        }
    }
}

proof fn lemma_turn_known(events: Seq<ProbeEventView>)
    ensures
        probe_after(events).last_turn_ns matches Some(t) ==> exists|turn: int|
            0 <= turn < events.len() && #[trigger] is_turn(events[turn]) && (forall|i: int|
                turn < i < events.len() ==> !is_turn(#[trigger] events[i]))
                && events[turn]->Line_now_ns == t,
    decreases events.len(),
{
    if events.len() > 0 {
        let before = events.drop_last();
        let n = before.len() as int;
        lemma_turn_known(before);
        if is_turn(events[n]) {
            assert(probe_after(events).last_turn_ns == Some(events[n]->Line_now_ns));
        } else if let Some(t) = probe_after(events).last_turn_ns {
            let turn = choose|turn: int|
                0 <= turn < before.len() && #[trigger] is_turn(before[turn]) && (forall|i: int|
                    turn < i < before.len() ==> !is_turn(#[trigger] before[i]))
                    && before[turn]->Line_now_ns == t;
            assert(is_turn(events[turn]));
            assert forall|i: int| turn < i < events.len() implies !is_turn(
                #[trigger] events[i],
            ) by {
                if i < n {
                    assert(before[i] == events[i]);
                }
            }
        }
    }
}

/// A probe says that the voice loop is idle exactly when no session is live, no dialog turn is
/// live, and the bus was not found unreachable.
pub proof fn law_idle(events: Seq<ProbeEventView>, now_ns: nat)
    ensures
        probe_result(probe_after(events), now_ns) is Idle <==> !session_live(events) && !turn_live(
            events,
            now_ns,
        ) && !(probe_result(probe_after(events), now_ns) is BusUnreachable),
{
    lemma_session_known(events);
    lemma_turn_known(events);
    if session_live(events) {
        let start = choose|start: int|
            0 <= start < events.len() && #[trigger] is_topic(
                events[start],
                "wm.brain.session.start"@,
            ) && forall|i: int|
                start < i < events.len() ==> !is_topic(
                    #[trigger] events[i],
                    "wm.brain.session.end"@,
                );
        law_session_in_flight(events, start, now_ns);
    }
    if turn_live(events, now_ns) {
        let turn = choose|turn: int|
            0 <= turn < events.len() && #[trigger] is_turn(events[turn]) && (forall|i: int|
                turn < i < events.len() ==> !is_turn(#[trigger] events[i])) && now_ns
                - events[turn]->Line_now_ns < 2_000_000_000;
        law_turn_in_flight(events, turn, now_ns);
    }
}

/// Only voice activity that was heard blocks a restart through the window guard: daemons
/// outside the voice set pass it, and so does everything where the bus cannot be sampled.
pub proof fn law_window_guard(daemon: Seq<char>, sample: WindowSample)
    ensures
        !is_voice(daemon) ==> window_guard(daemon, sample) is Ok,
        !(sample is Active) ==> window_guard(daemon, sample) is Ok,
        is_voice(daemon) && sample is Active ==> window_guard(daemon, sample) == Err::<
            (),
            RolloutErrorView,
        >(RolloutErrorView::WindowGuardBlocked { name: daemon }),
{
}

/// A try of the healthcheck that passed ends the poll well, however late it is. One that did not
/// pass ends it exactly when the time is over, with an error that names the daemon, both pids and
/// the time in seconds; before that it is followed by another try.
pub proof fn law_poll_lasts_until_timeout(
    name: Seq<char>,
    old_pid: u32,
    new_pid: Option<u32>,
    timeout_ms: nat,
    passed: bool,
    elapsed_ms: nat,
)
    ensures
        ({
            let step = poll_step(name, old_pid, new_pid, timeout_ms, passed, elapsed_ms);
            &&& step is Passed <==> passed
            &&& step is Again <==> !passed && elapsed_ms < timeout_ms
            &&& step is Failed <==> !passed && elapsed_ms >= timeout_ms
            &&& step matches PollView::Failed(e) ==> {
                &&& e is HealthcheckTimeout
                &&& e->HealthcheckTimeout_name == name
                &&& e->old_pid == old_pid
                &&& e->new_pid == new_pid
                &&& mentions(e->HealthcheckTimeout_reason, dec(timeout_ms / 1000))
            }
        }),
{
    let secs = dec(timeout_ms / 1000);
    lemma_mentions(
        "healthcheck did not pass within "@ + secs + "s"@,
        "healthcheck did not pass within "@,
        secs,
        "s"@,
    );
}

/// The voice set is `wm-` followed by one of four words, and nothing else.
pub proof fn law_voice_set(word: Seq<char>, name: Seq<char>)
    ensures
        is_voice("wm-"@ + word) <==> word == "audio"@ || word == "dialog"@ || word == "stt"@ || word
            == "tts"@,
        is_voice(name) ==> "wm-"@.is_prefix_of(name),
{
    reveal_strlit("wm-");
    reveal_strlit("audio");
    reveal_strlit("dialog");
    reveal_strlit("stt");
    reveal_strlit("tts");
    reveal_strlit("wm-audio");
    reveal_strlit("wm-dialog");
    reveal_strlit("wm-stt");
    reveal_strlit("wm-tts");
    assert("wm-audio"@ =~= "wm-"@ + "audio"@);
    assert("wm-dialog"@ =~= "wm-"@ + "dialog"@);
    assert("wm-stt"@ =~= "wm-"@ + "stt"@);
    assert("wm-tts"@ =~= "wm-"@ + "tts"@);
    assert(("wm-"@ + word).skip(3) =~= word);
    assert(("wm-"@ + "audio"@).skip(3) =~= "audio"@);
    assert(("wm-"@ + "dialog"@).skip(3) =~= "dialog"@);
    assert(("wm-"@ + "stt"@).skip(3) =~= "stt"@);
    assert(("wm-"@ + "tts"@).skip(3) =~= "tts"@);
    if is_voice(name) {
        assert(name.take(3) =~= "wm-"@);
    }
}

/// A probe answers at once where a subscription cannot be opened, and otherwise listens until its
/// time is over or the second subscription ends; it then says what it has heard up to there.
pub proof fn law_probe_listens(events: Seq<ProbeEventView>, next: ProbeEventView)
    ensures
        ({
            let answer = probe_answer(probe_after(events), next);
            let heard_all = probe_after(events.push(next));
            match next {
                ProbeEventView::SpawnFailed => answer == Some(ActivityView::BusUnreachable),
                ProbeEventView::Line { topic, now_ns } => answer is None,
                ProbeEventView::Eof { now_ns } => if ended(events) >= 1 {
                    answer == Some(probe_result(heard_all, now_ns))
                } else {
                    answer is None
                },
                ProbeEventView::Over { now_ns } => answer == Some(probe_result(heard_all, now_ns)),
            }
        }),
{
    let all = events.push(next);
    assert(all.drop_last() =~= events);
    assert(all.last() == next);
    lemma_counts(events);
    lemma_counts(all);
}

/// A live session is told as such; otherwise a live turn is told with the milliseconds since it was
/// heard.
pub proof fn law_turn_is_told(events: Seq<ProbeEventView>, turn: int, now_ns: nat)
    requires
        0 <= turn < events.len(),
        is_turn(events[turn]),
        forall|i: int| turn < i < events.len() ==> !is_turn(#[trigger] events[i]),
        0 <= now_ns - events[turn]->Line_now_ns < 2_000_000_000,
    ensures
        ({
            let reason = probe_result(probe_after(events), now_ns)->reason;
            let ago = ((now_ns - events[turn]->Line_now_ns) / 1_000_000) as nat;
            &&& session_live(events) ==> "wm.brain.session.start"@.is_prefix_of(reason)
            &&& !session_live(events) ==> ("wm.dialog.turn.* seen "@ + dec(ago)
                + "ms ago"@).is_prefix_of(reason)
        }),
{
    lemma_last_turn(events, turn);
    lemma_counts(events);
    lemma_session_known(events);
    assert(events[turn] is Line);
    let reason = probe_result(probe_after(events), now_ns)->reason;
    let ago = ((now_ns - events[turn]->Line_now_ns) / 1_000_000) as nat;
    if session_live(events) {
        let start = choose|start: int|
            0 <= start < events.len() && #[trigger] is_topic(
                events[start],
                "wm.brain.session.start"@,
            ) && forall|i: int|
                start < i < events.len() ==> !is_topic(
                    #[trigger] events[i],
                    "wm.brain.session.end"@,
                );
        law_session_in_flight(events, start, now_ns);
        reveal_strlit("wm.brain.session.start");
        reveal_strlit("wm.brain.session.start seen without wm.brain.session.end");
        assert(reason.take("wm.brain.session.start"@.len() as int) =~= "wm.brain.session.start"@);
    } else {
        reveal_strlit("ms ago");
        reveal_strlit("ms ago (within ");
        let head = "wm.dialog.turn.* seen "@ + dec(ago) + "ms ago"@;
        assert(reason.take(head.len() as int) =~= head);
    }
}

/// The model of what a probe hears keeps when it was heard, and of a line its topic as JSON gives it.
pub proof fn law_probe_event_model(event: ProbeEvent)
    ensures
        match event {
            ProbeEvent::SpawnFailed => event@ is SpawnFailed,
            ProbeEvent::Line { text, now_ns } => event@ == (ProbeEventView::Line {
                topic: json_text_member(encode_utf8(text@), "topic"@),
                now_ns: now_ns as nat,
            }),
            ProbeEvent::Eof { now_ns } => event@ == (ProbeEventView::Eof { now_ns: now_ns as nat }),
            ProbeEvent::Over { now_ns } => event@ == (ProbeEventView::Over {
                now_ns: now_ns as nat,
            }),
        },
{
}

/// The models of what a probe says and of what follows a try of the healthcheck keep what they hold.
pub proof fn law_answer_models(
    state: VoiceActivityState,
    answer: Option<VoiceActivityState>,
    step: PollStep,
)
    ensures
        match state {
            VoiceActivityState::InFlight { reason } => state@ == (ActivityView::InFlight {
                reason: reason@,
            }),
            VoiceActivityState::Idle => state@ is Idle,
            VoiceActivityState::BusUnreachable => state@ is BusUnreachable,
        },
        answer matches Some(s) ==> opt_activity(answer) == Some(s@),
        answer is None ==> opt_activity(answer) is None,
        match step {
            PollStep::Passed => step@ is Passed,
            PollStep::Again => step@ is Again,
            PollStep::Failed(e) => step@ == PollView::Failed(e@),
        },
{
}

} // verus!
