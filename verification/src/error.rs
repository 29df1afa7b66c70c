//! What can go wrong in a rollout, and how it is told to the operator.

use crate::text::{dec, decimal, join, joined, lemma_mentions, mentions, texts};
use vstd::prelude::*;

verus! {

/// A failed rollout step.
#[derive(Debug)]
#[allow(inconsistent_fields)]
pub enum RolloutError {
    /// Daemons of the scan that no recipe of the fleet covers.
    UnknownDaemons { names: Vec<String> },
    /// The scan of running binaries could not be obtained.
    BinstaleScanFailed(String),
    /// A configuration file could not be read or understood.
    FleetConfig(String),
    /// A daemon did not re-register in time.
    HealthcheckTimeout { name: String, old_pid: u32, new_pid: Option<u32>, reason: String },
    /// A build or install command of a daemon failed.
    BuildFailed { name: String, reason: String },
    /// A daemon could not be launched.
    LaunchFailed { name: String, reason: String },
    /// The window guard saw voice activity.
    WindowGuardBlocked { name: String },
    /// Voice daemons that were left alone because a turn or session was live, or because
    /// the bus could not be asked.
    VoiceActivityDeferred { names: String, count: usize },
    /// An I/O or subprocess error.
    Io(String),
    /// A signal could not be delivered.
    Signal(String),
    /// A JSON document could not be read.
    Json(String),
    /// A probe gave a proof that does not allow an unattended swap.
    ProveRefused { reason: String },
    /// Daemons that did not hold their claim alone after a swap.
    CycleVerifyFailed { count: usize },
}

/// The model of a [`RolloutError`].
#[verifier::ext_equal]
#[allow(inconsistent_fields)]
pub enum RolloutErrorView {
    UnknownDaemons { names: Seq<Seq<char>> },
    BinstaleScanFailed(Seq<char>),
    FleetConfig(Seq<char>),
    HealthcheckTimeout {
        name: Seq<char>,
        old_pid: u32,
        new_pid: Option<u32>,
        reason: Seq<char>,
    },
    BuildFailed { name: Seq<char>, reason: Seq<char> },
    LaunchFailed { name: Seq<char>, reason: Seq<char> },
    WindowGuardBlocked { name: Seq<char> },
    VoiceActivityDeferred { names: Seq<char>, count: nat },
    Io(Seq<char>),
    Signal(Seq<char>),
    Json(Seq<char>),
    ProveRefused { reason: Seq<char> },
    CycleVerifyFailed { count: nat },
}

impl View for RolloutError {
    type V = RolloutErrorView;

    open spec fn view(&self) -> RolloutErrorView {
        match *self {
            RolloutError::UnknownDaemons { names } => RolloutErrorView::UnknownDaemons {
                names: texts(names@),
            },
            RolloutError::BinstaleScanFailed(s) => RolloutErrorView::BinstaleScanFailed(s@),
            RolloutError::FleetConfig(s) => RolloutErrorView::FleetConfig(s@),
            RolloutError::HealthcheckTimeout { name, old_pid, new_pid, reason } =>
                RolloutErrorView::HealthcheckTimeout {
                name: name@,
                old_pid,
                new_pid,
                reason: reason@,
            },
            RolloutError::BuildFailed { name, reason } => RolloutErrorView::BuildFailed {
                name: name@,
                reason: reason@,
            },
            RolloutError::LaunchFailed { name, reason } => RolloutErrorView::LaunchFailed {
                name: name@,
                reason: reason@,
            },
            RolloutError::WindowGuardBlocked { name } => RolloutErrorView::WindowGuardBlocked {
                name: name@,
            },
            RolloutError::VoiceActivityDeferred { names, count } =>
                RolloutErrorView::VoiceActivityDeferred { names: names@, count: count as nat },
            RolloutError::Io(s) => RolloutErrorView::Io(s@),
            RolloutError::Signal(s) => RolloutErrorView::Signal(s@),
            RolloutError::Json(s) => RolloutErrorView::Json(s@),
            RolloutError::ProveRefused { reason } => RolloutErrorView::ProveRefused {
                reason: reason@,
            },
            RolloutError::CycleVerifyFailed { count } => RolloutErrorView::CycleVerifyFailed {
                count: count as nat,
            },
        }
    }
}

/// How a process id that may be unknown is written: `Some(12)` or `None`.
pub open spec fn pid_option(pid: Option<u32>) -> Seq<char> {
    match pid {
        Some(p) => "Some("@ + dec(p as nat) + ")"@,
        None => "None"@,
    }
}

/// How a process id that may be unknown is written: `Some(12)` or `None`.
pub fn pid_option_text(pid: Option<u32>) -> (r: String)
    ensures
        r@ == pid_option(pid),
{
    match pid {
        Some(p) => "Some(".to_owned().concat(decimal(p as u128).as_str()).concat(")"),
        None => "None".to_owned(),
    }
}

/// What the operator is told of an error.
pub open spec fn error_text(e: RolloutErrorView) -> Seq<char> {
    match e {
        RolloutErrorView::UnknownDaemons { names } => "unknown daemons (not in fleet.toml): "@
            + joined(names, ", "@),
        RolloutErrorView::BinstaleScanFailed(s) => "binstale scan failed: "@ + s,
        RolloutErrorView::FleetConfig(s) => "fleet.toml error: "@ + s,
        RolloutErrorView::HealthcheckTimeout { name, old_pid, new_pid, reason } => "daemon `"@
            + name + "` failed healthcheck (old_pid="@ + dec(old_pid as nat) + ", new_pid="@
            + pid_option(new_pid) + "): "@ + reason,
        RolloutErrorView::BuildFailed { name, reason } => "build/install step for `"@ + name
            + "` failed: "@ + reason,
        RolloutErrorView::LaunchFailed { name, reason } => "launch of `"@ + name + "` failed: "@
            + reason,
        RolloutErrorView::WindowGuardBlocked { name } => "window guard: daemon `"@ + name
            + "` has recent wm.dialog.turn.* activity; use --window to change the quiet period or wait"@,
        RolloutErrorView::VoiceActivityDeferred { names, count } => "voice-active deferral: "@
            + dec(count) + " daemon(s) were not restarted ("@ + names
            + "); retry once the voice turn is complete"@,
        RolloutErrorView::Io(s) => "I/O error: "@ + s,
        RolloutErrorView::Signal(s) => "signal error: "@ + s,
        RolloutErrorView::Json(s) => "JSON parse error: "@ + s,
        RolloutErrorView::ProveRefused { reason } => "prove Refuse: "@ + reason,
        RolloutErrorView::CycleVerifyFailed { count } => "cycle verify failed: "@ + dec(count)
            + " daemon(s) do not hold their claim alone"@,
    }
}

impl RolloutError {
    /// What the operator is told of the error.
    pub fn to_string(&self) -> (r: String)
        ensures
            r@ == error_text(self@),
    {
        match self {
            RolloutError::UnknownDaemons { names } => {
                let list = join(names, ", ");
                "unknown daemons (not in fleet.toml): ".to_owned().concat(list.as_str())
            },
            RolloutError::BinstaleScanFailed(s) => "binstale scan failed: ".to_owned().concat(
                s.as_str(),
            ),
            RolloutError::FleetConfig(s) => "fleet.toml error: ".to_owned().concat(s.as_str()),
            RolloutError::HealthcheckTimeout { name, old_pid, new_pid, reason } => {
                let old = decimal(*old_pid as u128);
                let new = pid_option_text(*new_pid);
                "daemon `".to_owned().concat(name.as_str()).concat(
                    "` failed healthcheck (old_pid=",
                ).concat(old.as_str()).concat(", new_pid=").concat(new.as_str()).concat(
                    "): ",
                ).concat(reason.as_str())
            },
            RolloutError::BuildFailed { name, reason } => "build/install step for `".to_owned(

            ).concat(name.as_str()).concat("` failed: ").concat(reason.as_str()),
            RolloutError::LaunchFailed { name, reason } => "launch of `".to_owned().concat(
                name.as_str(),
            ).concat("` failed: ").concat(reason.as_str()),
            RolloutError::WindowGuardBlocked { name } => "window guard: daemon `".to_owned().concat(
                name.as_str(),
            ).concat(
                "` has recent wm.dialog.turn.* activity; use --window to change the quiet period or wait",
            ),
            RolloutError::VoiceActivityDeferred { names, count } => {
                let n = decimal(*count as u128);
                "voice-active deferral: ".to_owned().concat(n.as_str()).concat(
                    " daemon(s) were not restarted (",
                ).concat(names.as_str()).concat("); retry once the voice turn is complete")
            },
            RolloutError::Io(s) => "I/O error: ".to_owned().concat(s.as_str()),
            RolloutError::Signal(s) => "signal error: ".to_owned().concat(s.as_str()),
            RolloutError::Json(s) => "JSON parse error: ".to_owned().concat(s.as_str()),
            RolloutError::ProveRefused { reason } => "prove Refuse: ".to_owned().concat(
                reason.as_str(),
            ),
            RolloutError::CycleVerifyFailed { count } => {
                let n = decimal(*count as u128);
                "cycle verify failed: ".to_owned().concat(n.as_str()).concat(
                    " daemon(s) do not hold their claim alone",
                )
            },
        }
    }
}

/// What the operator is told of an error holds everything that the error does: the names of the
/// daemons, their pids, counts and reasons.
pub proof fn law_error_text(e: RolloutErrorView)
    ensures
        ({
            let t = error_text(e);
            match e {
                RolloutErrorView::UnknownDaemons { names } => joined(names, ", "@).is_suffix_of(t),
                RolloutErrorView::BinstaleScanFailed(why) => why.is_suffix_of(t),
                RolloutErrorView::FleetConfig(why) => why.is_suffix_of(t),
                RolloutErrorView::HealthcheckTimeout { name, old_pid, new_pid, reason } => {
                    &&& mentions(t, "daemon `"@ + name + "`"@)
                    &&& mentions(t, "old_pid="@ + dec(old_pid as nat) + ","@)
                    &&& mentions(t, "new_pid="@ + pid_option(new_pid) + ")"@)
                    &&& reason.is_suffix_of(t)
                },
                RolloutErrorView::BuildFailed { name, reason } => mentions(t, "`"@ + name + "`"@)
                    && reason.is_suffix_of(t),
                RolloutErrorView::LaunchFailed { name, reason } => mentions(t, "`"@ + name + "`"@)
                    && reason.is_suffix_of(t),
                RolloutErrorView::WindowGuardBlocked { name } => mentions(t, "`"@ + name + "`"@),
                RolloutErrorView::VoiceActivityDeferred { names, count } => mentions(
                    t,
                    ": "@ + dec(count) + " "@,
                ) && mentions(t, "("@ + names + ")"@),
                RolloutErrorView::Io(why) => why.is_suffix_of(t),
                RolloutErrorView::Signal(why) => why.is_suffix_of(t),
                RolloutErrorView::Json(why) => why.is_suffix_of(t),
                RolloutErrorView::ProveRefused { reason } => reason.is_suffix_of(t),
                RolloutErrorView::CycleVerifyFailed { count } => mentions(
                    t,
                    ": "@ + dec(count) + " "@,
                ),
            }
        }),
{
    let t = error_text(e);
    match e {
        RolloutErrorView::UnknownDaemons { names } => {
            lemma_ends(t, joined(names, ", "@));
        },
        RolloutErrorView::BinstaleScanFailed(why) => {
            lemma_ends(t, why);
        },
        RolloutErrorView::FleetConfig(why) => {
            lemma_ends(t, why);
        },
        RolloutErrorView::HealthcheckTimeout { name, old_pid, new_pid, reason } => {
            lemma_ends(t, reason);
            lemma_healthcheck_text(name, old_pid, new_pid, reason);
        },
        RolloutErrorView::BuildFailed { name, reason } => {
            lemma_ends(t, reason);
            reveal_strlit("build/install step for `");
            reveal_strlit("` failed: ");
            reveal_strlit("`");
            let before = "build/install step for `"@.drop_last();
            let after = "` failed: "@.skip(1) + reason;
            assert(t =~= before + ("`"@ + name + "`"@) + after);
            lemma_mentions(t, before, "`"@ + name + "`"@, after);
        },
        RolloutErrorView::LaunchFailed { name, reason } => {
            lemma_ends(t, reason);
            reveal_strlit("launch of `");
            reveal_strlit("` failed: ");
            reveal_strlit("`");
            let before = "launch of `"@.drop_last();
            let after = "` failed: "@.skip(1) + reason;
            assert(t =~= before + ("`"@ + name + "`"@) + after);
            lemma_mentions(t, before, "`"@ + name + "`"@, after);
        },
        RolloutErrorView::WindowGuardBlocked { name } => {
            let tail =
                "` has recent wm.dialog.turn.* activity; use --window to change the quiet period or wait"@;
            reveal_strlit("window guard: daemon `");
            reveal_strlit(
                "` has recent wm.dialog.turn.* activity; use --window to change the quiet period or wait",
            );
            reveal_strlit("`");
            let before = "window guard: daemon `"@.drop_last();
            assert(t =~= before + ("`"@ + name + "`"@) + tail.skip(1));
            lemma_mentions(t, before, "`"@ + name + "`"@, tail.skip(1));
        },
        RolloutErrorView::VoiceActivityDeferred { names, count } => {
            let mid = " daemon(s) were not restarted ("@;
            let tail = "); retry once the voice turn is complete"@;
            reveal_strlit("voice-active deferral: ");
            reveal_strlit(" daemon(s) were not restarted (");
            reveal_strlit("); retry once the voice turn is complete");
            reveal_strlit(": ");
            reveal_strlit(" ");
            reveal_strlit("(");
            reveal_strlit(")");
            let head = "voice-active deferral: "@;
            let start = head.take(head.len() - 2);
            let number = ": "@ + dec(count) + " "@;
            assert(t =~= start + number + (mid.skip(1) + names + tail));
            lemma_mentions(t, start, number, mid.skip(1) + names + tail);
            let listed = "("@ + names + ")"@;
            assert(t =~= (head + dec(count) + mid.drop_last()) + listed + tail.skip(1));
            lemma_mentions(t, head + dec(count) + mid.drop_last(), listed, tail.skip(1));
        },
        RolloutErrorView::Io(why) => {
            lemma_ends(t, why);
        },
        RolloutErrorView::Signal(why) => {
            lemma_ends(t, why);
        },
        RolloutErrorView::Json(why) => {
            lemma_ends(t, why);
        },
        RolloutErrorView::ProveRefused { reason } => {
            lemma_ends(t, reason);
        },
        RolloutErrorView::CycleVerifyFailed { count } => {
            let head = "cycle verify failed: "@;
            let tail = " daemon(s) do not hold their claim alone"@;
            reveal_strlit("cycle verify failed: ");
            reveal_strlit(" daemon(s) do not hold their claim alone");
            reveal_strlit(": ");
            reveal_strlit(" ");
            let number = ": "@ + dec(count) + " "@;
            let start = head.take(head.len() - 2);
            assert(t =~= start + number + tail.skip(1));
            lemma_mentions(t, start, number, tail.skip(1));
        },
    }
}

proof fn lemma_ends(t: Seq<char>, part: Seq<char>)
    requires
        part.len() <= t.len(),
        t.subrange(t.len() - part.len(), t.len() as int) =~= part,
    ensures
        part.is_suffix_of(t),
{
}

proof fn lemma_healthcheck_text(
    name: Seq<char>,
    old_pid: u32,
    new_pid: Option<u32>,
    reason: Seq<char>,
)
    ensures
        ({
            let t = error_text(
                RolloutErrorView::HealthcheckTimeout { name, old_pid, new_pid, reason },
            );
            &&& mentions(t, "daemon `"@ + name + "`"@)
            &&& mentions(t, "old_pid="@ + dec(old_pid as nat) + ","@)
            &&& mentions(t, "new_pid="@ + pid_option(new_pid) + ")"@)
        }),
{
    let t = error_text(RolloutErrorView::HealthcheckTimeout { name, old_pid, new_pid, reason });
    let old = dec(old_pid as nat);
    let new = pid_option(new_pid);
    let a = "` failed healthcheck (old_pid="@;
    let b = ", new_pid="@;
    let c = "): "@;
    reveal_strlit("` failed healthcheck (old_pid=");
    reveal_strlit(", new_pid=");
    reveal_strlit("): ");
    reveal_strlit("`");
    reveal_strlit("old_pid=");
    reveal_strlit("new_pid=");
    reveal_strlit(",");
    reveal_strlit(")");
    let first = "daemon `"@ + name + "`"@;
    let rest = a.skip(1) + old + b + new + c + reason;
    assert(t =~= seq![] + first + rest);
    lemma_mentions(t, seq![], first, rest);
    let second = "old_pid="@ + old + ","@;
    let start = "daemon `"@ + name + a.take(a.len() - 8);
    assert(t =~= start + second + (b.skip(1) + new + c + reason));
    lemma_mentions(t, start, second, b.skip(1) + new + c + reason);
    let third = "new_pid="@ + new + ")"@;
    let begin = "daemon `"@ + name + a + old + b.take(2);
    assert(t =~= begin + third + (c.skip(1) + reason));
    lemma_mentions(t, begin, third, c.skip(1) + reason);
}

/// A process id that is known is written with its number, one that is not known as `None`.
pub proof fn law_pid_option(pid: u32)
    ensures
        pid_option(Some(pid)) == "Some("@ + dec(pid as nat) + ")"@,
        pid_option(None) == "None"@,
{
}

/// The model of an error keeps everything that the error holds.
pub proof fn law_error_model(e: RolloutError)
    ensures
        match e {
            RolloutError::UnknownDaemons { names } => e@ == (RolloutErrorView::UnknownDaemons {
                names: texts(names@),
            }),
            RolloutError::BinstaleScanFailed(s) => e@ == RolloutErrorView::BinstaleScanFailed(s@),
            RolloutError::FleetConfig(s) => e@ == RolloutErrorView::FleetConfig(s@),
            RolloutError::HealthcheckTimeout { name, old_pid, new_pid, reason } => e@ == (
            RolloutErrorView::HealthcheckTimeout {
                name: name@,
                old_pid,
                new_pid,
                reason: reason@,
            }),
            RolloutError::BuildFailed { name, reason } => e@ == (RolloutErrorView::BuildFailed {
                name: name@,
                reason: reason@,
            }),
            RolloutError::LaunchFailed { name, reason } => e@ == (RolloutErrorView::LaunchFailed {
                name: name@,
                reason: reason@,
            }),
            RolloutError::WindowGuardBlocked { name } => e@ == (
            RolloutErrorView::WindowGuardBlocked { name: name@ }),
            RolloutError::VoiceActivityDeferred { names, count } => e@ == (
            RolloutErrorView::VoiceActivityDeferred { names: names@, count: count as nat }),
            RolloutError::Io(s) => e@ == RolloutErrorView::Io(s@),
            RolloutError::Signal(s) => e@ == RolloutErrorView::Signal(s@),
            RolloutError::Json(s) => e@ == RolloutErrorView::Json(s@),
            RolloutError::ProveRefused { reason } => e@ == (RolloutErrorView::ProveRefused {
                reason: reason@,
            }),
            RolloutError::CycleVerifyFailed { count } => e@ == (
            RolloutErrorView::CycleVerifyFailed { count: count as nat }),
        },
{
}

} // verus!
