//! The restart of one daemon: build, install, restart, healthcheck.

use crate::command::{
    code_text, exit_code_text, law_signal_target, law_step_command, recipe_cmd_result,
    run_recipe_cmd, signal_pid, signal_target, CommandOutcome, CommandView,
};
use crate::error::{pid_option, pid_option_text, RolloutError, RolloutErrorView};
use crate::fleet::{DaemonRecipe, RecipeView};
use crate::health::{
    law_poll_lasts_until_timeout, poll_healthcheck, poll_step, DEFAULT_POLL_INTERVAL_MS, PollStep,
    PollView,
};
use crate::output::{line_views, no_lines, one_line, Line, LineView};
use crate::text::{
    after_last, behind_last, copy_option, dec, decimal, is_white, law_behind_last,
    law_trimmed_start, law_white_space, lemma_mentions, lemma_texts_push, mentions, opt_string,
    starts_with, texts, trim_start, trimmed_start,
};
use crate::units::{
    exe_deleted, is_deleted, main_pid, unit_main_pid, unit_restart_result, RestartPath, UnitRestart,
};
use vstd::prelude::*;

verus! {

/// For how many seconds a daemon may take to re-register.
pub const DEFAULT_HEALTHCHECK_TIMEOUT_SECS: u64 = 30;

/// How often a process is looked at while it is to exit, in milliseconds.
pub const EXIT_POLL_INTERVAL_MS: u64 = 100;

/// How long SIGKILL is left to take effect, in milliseconds.
pub const KILL_PAUSE_MS: u64 = 200;

// ---------------------------------------------------------------------------
// Strategies and results
// ---------------------------------------------------------------------------

/// How a daemon was restarted.
#[derive(Debug, Clone, PartialEq, Eq)]
pub enum RestartStrategy {
    /// Through its systemd-user unit.
    SystemdUnit(String),
    /// The bus daemon reloaded itself.
    AgorabusReload,
    /// SIGTERM, then the launch command.
    SigtermLaunch,
    /// A successor took over the claim before its predecessor was stopped.
    WarmSwap,
}

/// The model of a [`RestartStrategy`].
#[verifier::ext_equal]
pub enum StrategyView {
    SystemdUnit(Seq<char>),
    AgorabusReload,
    SigtermLaunch,
    WarmSwap,
}

impl View for RestartStrategy {
    type V = StrategyView;

    open spec fn view(&self) -> StrategyView {
        match *self {
            RestartStrategy::SystemdUnit(unit) => StrategyView::SystemdUnit(unit@),
            RestartStrategy::AgorabusReload => StrategyView::AgorabusReload,
            RestartStrategy::SigtermLaunch => StrategyView::SigtermLaunch,
            RestartStrategy::WarmSwap => StrategyView::WarmSwap,
        }
    }
}

impl StrategyView {
    /// How the strategy is told.
    pub open spec fn text(self) -> Seq<char> {
        match self {
            StrategyView::SystemdUnit(unit) => "systemd-unit:"@ + unit,
            StrategyView::AgorabusReload => "agorabus-reload"@,
            StrategyView::SigtermLaunch => "sigterm-launch"@,
            StrategyView::WarmSwap => "warm-swap"@,
        }
    }
}

impl RestartStrategy {
    /// How the strategy is told.
    pub fn to_string(&self) -> (r: String)
        ensures
            r@ == self@.text(),
    {
        match self {
            RestartStrategy::SystemdUnit(unit) => "systemd-unit:".to_owned().concat(unit.as_str()),
            RestartStrategy::AgorabusReload => "agorabus-reload".to_owned(),
            RestartStrategy::SigtermLaunch => "sigterm-launch".to_owned(),
            RestartStrategy::WarmSwap => "warm-swap".to_owned(),
        }
    }

    fn copy(&self) -> (r: RestartStrategy)
        ensures
            r@ == self@,
    {
        match self {
            RestartStrategy::SystemdUnit(unit) => RestartStrategy::SystemdUnit(unit.clone()),
            RestartStrategy::AgorabusReload => RestartStrategy::AgorabusReload,
            RestartStrategy::SigtermLaunch => RestartStrategy::SigtermLaunch,
            RestartStrategy::WarmSwap => RestartStrategy::WarmSwap,
        }
    }
}

/// A restart that succeeded.
#[derive(Debug)]
pub struct RestartResult {
    /// The daemon's name.
    pub name: String,
    /// Its pid before the restart.
    pub old_pid: u32,
    /// Its pid after the restart, where it is known.
    pub new_pid: Option<u32>,
    /// When the restart began, in milliseconds of Unix time.
    pub start_ms: u128,
    /// When the restart ended, in milliseconds of Unix time.
    pub end_ms: u128,
    /// Whether the daemon has re-registered.
    pub success: bool,
    /// Whether SIGKILL was sent.
    pub sigkill_used: bool,
    /// How the daemon was restarted.
    pub restart_path: RestartStrategy,
}

/// The model of a [`RestartResult`].
#[verifier::ext_equal]
pub struct RestartResultView {
    pub name: Seq<char>,
    pub old_pid: u32,
    pub new_pid: Option<u32>,
    pub start_ms: nat,
    pub end_ms: nat,
    pub success: bool,
    pub sigkill_used: bool,
    pub restart_path: StrategyView,
}

impl View for RestartResult {
    type V = RestartResultView;

    open spec fn view(&self) -> RestartResultView {
        RestartResultView {
            name: self.name@,
            old_pid: self.old_pid,
            new_pid: self.new_pid,
            start_ms: self.start_ms as nat,
            end_ms: self.end_ms as nat,
            success: self.success,
            sigkill_used: self.sigkill_used,
            restart_path: self.restart_path@,
        }
    }
}

/// A restart or an error, as models.
pub open spec fn restart_outcome(r: Result<RestartResult, RolloutError>) -> Result<
    RestartResultView,
    RolloutErrorView,
> {
    match r {
        Ok(v) => Ok(v@),
        Err(e) => Err(e@),
    }
}

/// Unix time in milliseconds; a clock before its start counts as its start.
pub fn now_ms(since_epoch_ms: Option<u128>) -> (r: u128)
    ensures
        r == (match since_epoch_ms {
            Some(ms) => ms,
            None => 0,
        }),
{
    match since_epoch_ms {
        Some(ms) => ms,
        None => 0,
    }
}

// ---------------------------------------------------------------------------
// Looking at a process
// ---------------------------------------------------------------------------

/// Whether a process has exited, from its `stat` line where there is one: it has if there is
/// none, or if its state, which stands behind the last `)`, is `Z`.
pub open spec fn has_exited(stat: Option<Seq<char>>) -> bool {
    match stat {
        Some(s) => match behind_last(s, ')') {
            Some(rest) => "Z"@.is_prefix_of(trimmed_start(rest)),
            None => false,
        },
        None => true,
    }
}

/// Whether a process has exited, from its `stat` line where there is one.
pub fn process_exited(stat: &Option<String>) -> (r: bool)
    ensures
        r == has_exited(opt_string(*stat)),
{
    match stat {
        Some(s) => match after_last(s.as_str(), ')') {
            Some(rest) => starts_with(trim_start(rest), "Z"),
            None => false,
        },
        None => true,
    }
}

/// What follows a look at a process that is to exit.
#[derive(Debug, Clone, Copy, PartialEq, Eq, Structural)]
pub enum ExitStep {
    /// It has exited.
    Exited,
    /// It is looked at again.
    Again,
    /// It has not exited in time.
    TimedOut,
}

/// What follows a look at a process that is to exit, `elapsed_ms` after the first one began.
pub open spec fn exit_step(stat: Option<Seq<char>>, elapsed_ms: nat, timeout_ms: nat) -> ExitStep {
    if has_exited(stat) {
        ExitStep::Exited
    } else if elapsed_ms >= timeout_ms {
        ExitStep::TimedOut
    } else {
        ExitStep::Again
    }
}

/// What follows a look at a process that is to exit, `elapsed_ms` after the first one began.
pub fn wait_for_exit(stat: &Option<String>, elapsed_ms: u128, timeout_ms: u128) -> (r: ExitStep)
    ensures
        r == exit_step(opt_string(*stat), elapsed_ms as nat, timeout_ms as nat),
{
    if process_exited(stat) {
        ExitStep::Exited
    } else if elapsed_ms >= timeout_ms {
        ExitStep::TimedOut
    } else {
        ExitStep::Again
    }
}

/// What follows a look whether a process that is to exit is still listed, `elapsed_ms` after the
/// first one began; here a zombie has not exited.
pub fn wait_for_pid_exit(listed: bool, elapsed_ms: u128, timeout_ms: u128) -> (r: ExitStep)
    ensures
        r == (if !listed {
            ExitStep::Exited
        } else if elapsed_ms >= timeout_ms {
            ExitStep::TimedOut
        } else {
            ExitStep::Again
        }),
{
    if !listed {
        ExitStep::Exited
    } else if elapsed_ms >= timeout_ms {
        ExitStep::TimedOut
    } else {
        ExitStep::Again
    }
}

// ---------------------------------------------------------------------------
// Stamping a binary
// ---------------------------------------------------------------------------

/// What follows a look at the executable of a new process.
#[verifier::ext_equal]
pub enum StampView {
    /// It is not stamped, and why.
    Skip(LineView),
    /// `binstale stamp` is run on it.
    Stamp { exe: Seq<char> },
}

/// What follows a look at the executable of the process `pid`.
pub open spec fn stamp_decision(pid: u32, link: Result<Seq<char>, Seq<char>>) -> StampView {
    match link {
        Ok(target) => if is_deleted(target) {
            StampView::Skip(
                LineView::Warn(
                    "rollout: stamp skipped — exe already deleted for pid="@ + dec(pid as nat),
                ),
            )
        } else {
            StampView::Stamp { exe: target }
        },
        Err(why) => StampView::Skip(
            LineView::Warn(
                "rollout: stamp skipped — could not read /proc/"@ + dec(pid as nat) + "/exe: "@
                    + why,
            ),
        ),
    }
}

/// A link or an error, as models.
pub open spec fn link_view(link: Result<String, String>) -> Result<Seq<char>, Seq<char>> {
    match link {
        Ok(t) => Ok(t@),
        Err(e) => Err(e@),
    }
}

/// Whether the executable of the process `pid` is stamped; otherwise what is told.
pub fn try_stamp_new_binary(pid: u32, link: Result<String, String>) -> (r: Result<String, Line>)
    ensures
        match r {
            Ok(exe) => stamp_decision(pid, link_view(link)) == (StampView::Stamp { exe: exe@ }),
            Err(line) => stamp_decision(pid, link_view(link)) == StampView::Skip(line@),
        },
{
    match link {
        Ok(target) => {
            if exe_deleted(target.as_str()) {
                Err(
                    Line::Warn(
                        "rollout: stamp skipped — exe already deleted for pid=".to_owned().concat(
                            decimal(pid as u128).as_str(),
                        ),
                    ),
                )
            } else {
                Ok(target)
            }
        },
        Err(why) => Err(
            Line::Warn(
                "rollout: stamp skipped — could not read /proc/".to_owned().concat(
                    decimal(pid as u128).as_str(),
                ).concat("/exe: ").concat(why.as_str()),
            ),
        ),
    }
}

/// What is told of a run of `binstale stamp`.
pub open spec fn stamp_report(exe: Seq<char>, pid: u32, ran: CommandView) -> LineView {
    match ran {
        CommandView::Exited { success, code } => if success {
            LineView::Warn(
                "rollout: stamped "@ + exe + " (pid="@ + dec(pid as nat)
                    + ") — prov-stale cleared"@,
            )
        } else {
            LineView::Warn(
                "rollout: binstale stamp exited "@ + code_text(code)
                    + " — prov-stale may persist"@,
            )
        },
        CommandView::NotSpawned(why) => LineView::Warn(
            "rollout: binstale stamp not available ("@ + why + ") — prov-stale may persist"@,
        ),
    }
}

/// What is told of a run of `binstale stamp`.
pub fn stamp_line(exe: &str, pid: u32, ran: CommandOutcome) -> (r: Line)
    ensures
        r@ == stamp_report(exe@, pid, ran@),
{
    match ran {
        CommandOutcome::Exited { success, code } => {
            if success {
                Line::Warn(
                    "rollout: stamped ".to_owned().concat(exe).concat(" (pid=").concat(
                        decimal(pid as u128).as_str(),
                    ).concat(") — prov-stale cleared"),
                )
            } else {
                Line::Warn(
                    "rollout: binstale stamp exited ".to_owned().concat(
                        exit_code_text(code).as_str(),
                    ).concat(" — prov-stale may persist"),
                )
            }
        },
        CommandOutcome::NotSpawned(why) => Line::Warn(
            "rollout: binstale stamp not available (".to_owned().concat(why.as_str()).concat(
                ") — prov-stale may persist",
            ),
        ),
    }
}

/// The arguments with which `binstale` stamps a binary.
pub open spec fn stamp_arguments(exe: Seq<char>, pid: u32) -> Seq<Seq<char>> {
    seq!["stamp"@, exe, "--pid"@, dec(pid as nat)]
}

fn stamp_args(exe: &str, pid: u32) -> (r: Vec<String>)
    ensures
        texts(r@) == stamp_arguments(exe@, pid),
{
    broadcast use lemma_texts_push;

    let mut r: Vec<String> = Vec::new();
    r.push("stamp".to_owned());
    r.push(exe.to_owned());
    r.push("--pid".to_owned());
    r.push(decimal(pid as u128));
    assert(texts(r@) =~= stamp_arguments(exe@, pid));
    r
}

// ---------------------------------------------------------------------------
// The restart
// ---------------------------------------------------------------------------

/// Where a restart stands.
#[derive(Debug, Clone, Copy, PartialEq, Eq, Structural)]
pub enum RestartPhase {
    /// Nothing was done yet.
    Start,
    /// The build command runs.
    Build,
    /// The install command runs.
    Install,
    /// The unit is restarted.
    Unit,
    /// SIGTERM is sent.
    Term,
    /// The old process is to exit.
    Wait,
    /// SIGKILL is sent.
    Kill,
    /// The launch command is started.
    Launch,
    /// The daemon's health is checked.
    Health,
    /// The unit's main process is asked for.
    MainPid,
    /// The executable of the new process is looked at.
    Exe,
    /// The new binary is stamped.
    Stamp,
    /// The clock is read.
    Clock,
    /// The restart is over.
    Done,
}

/// What happened outside since the last step.
#[derive(Debug)]
pub enum RestartEvent {
    /// The restart begins at this Unix time.
    Begin { now_ms: u128 },
    /// A command ended.
    Ran(CommandOutcome),
    /// The unit was restarted, or why it was not.
    UnitRestarted(Result<UnitRestart, RolloutError>),
    /// A signal was sent, or why it was not.
    Signalled(Result<(), String>),
    /// The `stat` line of the old process, where there is one, `elapsed_ms` after the first
    /// look at it began.
    Stat { stat: Option<String>, elapsed_ms: u128 },
    /// The launch command was started, or why it was not.
    Launched(Result<u32, String>),
    /// The healthcheck was tried, `elapsed_ms` after the first try began.
    Checked { passed: bool, elapsed_ms: u128 },
    /// What `systemctl show` printed of the unit's main process, where it ran.
    MainPid(Option<String>),
    /// Where the executable of the new process lies, or why that could not be read.
    Exe(Result<String, String>),
    /// The clock shows this Unix time.
    Clock { now_ms: u128 },
}

/// The model of a [`RestartEvent`].
#[verifier::ext_equal]
pub enum RestartEventView {
    Begin { now_ms: nat },
    Ran(CommandView),
    UnitRestarted(Result<UnitRestart, RolloutErrorView>),
    Signalled(Result<(), Seq<char>>),
    Stat { stat: Option<Seq<char>>, elapsed_ms: nat },
    Launched(Result<u32, Seq<char>>),
    Checked { passed: bool, elapsed_ms: nat },
    MainPid(Option<u32>),
    Exe(Result<Seq<char>, Seq<char>>),
    Clock { now_ms: nat },
}

impl View for RestartEvent {
    type V = RestartEventView;

    open spec fn view(&self) -> RestartEventView {
        match *self {
            RestartEvent::Begin { now_ms } => RestartEventView::Begin { now_ms: now_ms as nat },
            RestartEvent::Ran(ran) => RestartEventView::Ran(ran@),
            RestartEvent::UnitRestarted(r) => RestartEventView::UnitRestarted(
                unit_restart_result(r),
            ),
            RestartEvent::Signalled(Ok(_)) => RestartEventView::Signalled(Ok(())),
            RestartEvent::Signalled(Err(why)) => RestartEventView::Signalled(Err(why@)),
            RestartEvent::Stat { stat, elapsed_ms } => RestartEventView::Stat {
                stat: opt_string(stat),
                elapsed_ms: elapsed_ms as nat,
            },
            RestartEvent::Launched(Ok(pid)) => RestartEventView::Launched(Ok(pid)),
            RestartEvent::Launched(Err(why)) => RestartEventView::Launched(Err(why@)),
            RestartEvent::Checked { passed, elapsed_ms } => RestartEventView::Checked {
                passed,
                elapsed_ms: elapsed_ms as nat,
            },
            RestartEvent::MainPid(stdout) => RestartEventView::MainPid(
                match opt_string(stdout) {
                    Some(s) => main_pid(s),
                    None => None,
                },
            ),
            RestartEvent::Exe(link) => RestartEventView::Exe(link_view(link)),
            RestartEvent::Clock { now_ms } => RestartEventView::Clock { now_ms: now_ms as nat },
        }
    }
}

/// What is to be done next, and told back as an event.
#[derive(Debug)]
#[allow(inconsistent_fields)]
pub enum RestartAction {
    /// Run a shell command to its end.
    Run { cmd: String, dir: Option<String> },
    /// Restart a unit.
    RestartUnit { unit: String },
    /// Send SIGTERM.
    Terminate { pid: i32 },
    /// Read the `stat` line of a process after a pause.
    ReadStat { pid: u32, after_ms: u64, first: bool },
    /// Send SIGKILL.
    Kill { pid: i32 },
    /// Start a shell command after a pause and leave it running.
    Launch { cmd: String, dir: Option<String>, after_ms: u64 },
    /// Try the healthcheck after a pause.
    CheckHealth { cmd: String, after_ms: u64, first: bool },
    /// Ask for a unit's main process.
    AskMainPid { unit: String },
    /// Look where the executable of a process lies.
    ReadExe { pid: u32 },
    /// Run `binstale` with these arguments.
    Stamp { args: Vec<String> },
    /// Read the clock.
    ReadClock,
    /// The restart is over.
    Finish(Result<RestartResult, RolloutError>),
    /// The event does not belong here; nothing changed.
    Ignored,
}

/// The model of a [`RestartAction`].
#[verifier::ext_equal]
#[allow(inconsistent_fields)]
pub enum RestartActionView {
    Run { cmd: Seq<char>, dir: Option<Seq<char>> },
    RestartUnit { unit: Seq<char> },
    Terminate { pid: i32 },
    ReadStat { pid: u32, after_ms: nat, first: bool },
    Kill { pid: i32 },
    Launch { cmd: Seq<char>, dir: Option<Seq<char>>, after_ms: nat },
    CheckHealth { cmd: Seq<char>, after_ms: nat, first: bool },
    AskMainPid { unit: Seq<char> },
    ReadExe { pid: u32 },
    Stamp { args: Seq<Seq<char>> },
    ReadClock,
    Finish(Result<RestartResultView, RolloutErrorView>),
    Ignored,
}

impl View for RestartAction {
    type V = RestartActionView;

    open spec fn view(&self) -> RestartActionView {
        match *self {
            RestartAction::Run { cmd, dir } => RestartActionView::Run {
                cmd: cmd@,
                dir: opt_string(dir),
            },
            RestartAction::RestartUnit { unit } => RestartActionView::RestartUnit { unit: unit@ },
            RestartAction::Terminate { pid } => RestartActionView::Terminate { pid },
            RestartAction::ReadStat { pid, after_ms, first } => RestartActionView::ReadStat {
                pid,
                after_ms: after_ms as nat,
                first,
            },
            RestartAction::Kill { pid } => RestartActionView::Kill { pid },
            RestartAction::Launch { cmd, dir, after_ms } => RestartActionView::Launch {
                cmd: cmd@,
                dir: opt_string(dir),
                after_ms: after_ms as nat,
            },
            RestartAction::CheckHealth { cmd, after_ms, first } => RestartActionView::CheckHealth {
                cmd: cmd@,
                after_ms: after_ms as nat,
                first,
            },
            RestartAction::AskMainPid { unit } => RestartActionView::AskMainPid { unit: unit@ },
            RestartAction::ReadExe { pid } => RestartActionView::ReadExe { pid },
            RestartAction::Stamp { args } => RestartActionView::Stamp { args: texts(args@) },
            RestartAction::ReadClock => RestartActionView::ReadClock,
            RestartAction::Finish(r) => RestartActionView::Finish(restart_outcome(r)),
            RestartAction::Ignored => RestartActionView::Ignored,
        }
    }
}

/// The restart of one daemon.
#[derive(Debug)]
pub struct RestartRun {
    recipe: DaemonRecipe,
    old_pid: u32,
    healthcheck_timeout_ms: u128,
    phase: RestartPhase,
    start_ms: u128,
    new_pid: Option<u32>,
    sigkill_used: bool,
    strategy: RestartStrategy,
    stamp_pid: u32,
    stamp_exe: String,
}

/// The model of a [`RestartRun`].
#[verifier::ext_equal]
pub struct RestartView {
    pub recipe: RecipeView,
    pub old_pid: u32,
    pub healthcheck_timeout_ms: nat,
    pub phase: RestartPhase,
    pub start_ms: nat,
    pub new_pid: Option<u32>,
    pub sigkill_used: bool,
    pub strategy: StrategyView,
    /// The process whose binary is stamped.
    pub stamp_pid: u32,
    /// The binary that is stamped.
    pub stamp_exe: Seq<char>,
}

impl View for RestartRun {
    type V = RestartView;

    closed spec fn view(&self) -> RestartView {
        RestartView {
            recipe: self.recipe@,
            old_pid: self.old_pid,
            healthcheck_timeout_ms: self.healthcheck_timeout_ms as nat,
            phase: self.phase,
            start_ms: self.start_ms as nat,
            new_pid: self.new_pid,
            sigkill_used: self.sigkill_used,
            strategy: self.strategy@,
            stamp_pid: self.stamp_pid,
            stamp_exe: self.stamp_exe@,
        }
    }
}

/// What a step does: the restart after it, what is told, and what is to be done.
#[verifier::ext_equal]
pub struct RestartMove {
    pub state: RestartView,
    pub lines: Seq<LineView>,
    pub action: RestartActionView,
}

/// The word for how a unit was restarted, as a restart tells it.
pub open spec fn path_word(path: RestartPath) -> Seq<char> {
    match path {
        RestartPath::AgorabuReload => "AgorabuReload"@,
        RestartPath::Systemctl => "Systemctl"@,
        RestartPath::NoRestart => "None"@,
    }
}

/// The restart of a daemon, before its first step.
pub open spec fn restart_begun(recipe: RecipeView, old_pid: u32, timeout_ms: nat) -> RestartView {
    RestartView {
        recipe,
        old_pid,
        healthcheck_timeout_ms: timeout_ms,
        phase: RestartPhase::Start,
        start_ms: 0,
        new_pid: None,
        sigkill_used: false,
        strategy: StrategyView::SigtermLaunch,
        stamp_pid: 0,
        stamp_exe: seq![],
    }
}

impl RestartView {
    /// The step that goes on to `phase` with `action`.
    pub open spec fn go(
        self,
        phase: RestartPhase,
        lines: Seq<LineView>,
        action: RestartActionView,
    ) -> RestartMove {
        RestartMove { state: RestartView { phase, ..self }, lines, action }
    }

    /// The step that ends the restart with an error.
    pub open spec fn fail(self, e: RolloutErrorView) -> RestartMove {
        self.go(RestartPhase::Done, seq![], RestartActionView::Finish(Err(e)))
    }

    /// The step that tries the healthcheck.
    pub open spec fn check(self, lines: Seq<LineView>, after_ms: nat, first: bool) -> RestartMove {
        self.go(
            RestartPhase::Health,
            lines,
            RestartActionView::CheckHealth { cmd: self.recipe.healthcheck_cmd(), after_ms, first },
        )
    }

    /// The step that starts the launch command.
    pub open spec fn launch(self, after_ms: nat) -> RestartMove {
        self.go(
            RestartPhase::Launch,
            seq![],
            RestartActionView::Launch {
                cmd: self.recipe.launch_cmd,
                dir: self.recipe.repo,
                after_ms,
            },
        )
    }

    /// The step that looks at the executable of the process `pid`.
    pub open spec fn look_at(self, pid: u32) -> RestartMove {
        RestartView { stamp_pid: pid, ..self }.go(
            RestartPhase::Exe,
            seq![],
            RestartActionView::ReadExe { pid },
        )
    }

    /// The step that reads the clock for the result.
    pub open spec fn clock(self, lines: Seq<LineView>) -> RestartMove {
        self.go(RestartPhase::Clock, lines, RestartActionView::ReadClock)
    }

    /// What a step does on an event.
    #[verifier::opaque]
    pub open spec fn step(self, event: RestartEventView) -> RestartMove {
        match (self.phase, event) {
            (RestartPhase::Start, RestartEventView::Begin { now_ms }) => RestartView {
                start_ms: now_ms,
                ..self
            }.go(
                RestartPhase::Build,
                seq![],
                RestartActionView::Run { cmd: self.recipe.build_cmd, dir: self.recipe.repo },
            ),
            (RestartPhase::Build, RestartEventView::Ran(ran)) => match recipe_cmd_result(
                self.recipe.name,
                "build"@,
                ran,
            ) {
                Ok(_) => self.go(
                    RestartPhase::Install,
                    seq![],
                    RestartActionView::Run { cmd: self.recipe.install_cmd, dir: self.recipe.repo },
                ),
                Err(e) => self.fail(e),
            },
            (RestartPhase::Install, RestartEventView::Ran(ran)) => match recipe_cmd_result(
                self.recipe.name,
                "install"@,
                ran,
            ) {
                Ok(_) => match self.recipe.unit_name() {
                    Some(unit) => self.go(
                        RestartPhase::Unit,
                        seq![],
                        RestartActionView::RestartUnit { unit },
                    ),
                    None => self.go(
                        RestartPhase::Term,
                        seq![],
                        RestartActionView::Terminate { pid: signal_target(self.old_pid) },
                    ),
                },
                Err(e) => self.fail(e),
            },
            (RestartPhase::Unit, RestartEventView::UnitRestarted(restarted)) => match (
                restarted,
                self.recipe.unit_name(),
            ) {
                (Ok(u), Some(unit)) => RestartView {
                    strategy: if u.path == RestartPath::AgorabuReload {
                        StrategyView::AgorabusReload
                    } else {
                        StrategyView::SystemdUnit(unit)
                    },
                    ..self
                }.check(
                    seq![
                        LineView::Warn(
                            "rollout: restarted "@ + self.recipe.name + " via "@ + unit
                                + " (path="@ + path_word(u.path) + ")"@,
                        ),
                    ],
                    0,
                    true,
                ),
                (Err(e), _) => self.fail(e),
                _ => self.go(self.phase, seq![], RestartActionView::Ignored),
            },
            (RestartPhase::Term, RestartEventView::Signalled(sent)) => match sent {
                Ok(_) => self.go(
                    RestartPhase::Wait,
                    seq![
                        LineView::Warn(
                            "rollout: sent SIGTERM to "@ + self.recipe.name + " pid="@ + dec(
                                self.old_pid as nat,
                            ),
                        ),
                    ],
                    RestartActionView::ReadStat { pid: self.old_pid, after_ms: 0, first: true },
                ),
                Err(why) => self.fail(
                    RolloutErrorView::Signal(
                        "SIGTERM "@ + dec(self.old_pid as nat) + ": "@ + why,
                    ),
                ),
            },
            (RestartPhase::Wait, RestartEventView::Stat { stat, elapsed_ms }) => match exit_step(
                stat,
                elapsed_ms,
                self.recipe.grace_period_secs * 1000,
            ) {
                ExitStep::Exited => self.launch(0),
                ExitStep::Again => self.go(
                    RestartPhase::Wait,
                    seq![],
                    RestartActionView::ReadStat {
                        pid: self.old_pid,
                        after_ms: EXIT_POLL_INTERVAL_MS as nat,
                        first: false,
                    },
                ),
                ExitStep::TimedOut => RestartView { sigkill_used: true, ..self }.go(
                    RestartPhase::Kill,
                    seq![
                        LineView::Warn(
                            "rollout: "@ + self.recipe.name + " pid="@ + dec(self.old_pid as nat)
                                + " did not exit after "@ + dec(self.recipe.grace_period_secs)
                                + "s grace period; sending SIGKILL"@,
                        ),
                    ],
                    RestartActionView::Kill { pid: signal_target(self.old_pid) },
                ),
            },
            (RestartPhase::Kill, RestartEventView::Signalled(sent)) => self.launch(
                KILL_PAUSE_MS as nat,
            ),
            (RestartPhase::Launch, RestartEventView::Launched(launched)) => match launched {
                Ok(pid) => RestartView { new_pid: Some(pid), ..self }.check(
                    seq![
                        LineView::Warn(
                            "rollout: launched "@ + self.recipe.name + " (pid="@ + pid_option(
                                Some(pid),
                            ) + ")"@,
                        ),
                    ],
                    0,
                    true,
                ),
                Err(why) => self.fail(
                    RolloutErrorView::LaunchFailed {
                        name: self.recipe.name,
                        reason: "spawn failed: "@ + why,
                    },
                ),
            },
            (RestartPhase::Health, RestartEventView::Checked { passed, elapsed_ms }) =>
            match poll_step(
                self.recipe.name,
                self.old_pid,
                self.new_pid,
                self.healthcheck_timeout_ms,
                passed,
                elapsed_ms,
            ) {
                PollView::Passed => match self.recipe.unit_name() {
                    Some(unit) => self.go(
                        RestartPhase::MainPid,
                        seq![],
                        RestartActionView::AskMainPid { unit },
                    ),
                    None => match self.new_pid {
                        Some(pid) => self.look_at(pid),
                        None => self.clock(seq![]),
                    },
                },
                PollView::Again => self.check(seq![], DEFAULT_POLL_INTERVAL_MS as nat, false),
                PollView::Failed(e) => self.fail(e),
            },
            (RestartPhase::MainPid, RestartEventView::MainPid(pid)) => match pid {
                Some(p) => self.look_at(p),
                None => self.clock(seq![]),
            },
            (RestartPhase::Exe, RestartEventView::Exe(link)) => match stamp_decision(
                self.stamp_pid,
                link,
            ) {
                StampView::Skip(line) => self.clock(seq![line]),
                StampView::Stamp { exe } => RestartView { stamp_exe: exe, ..self }.go(
                    RestartPhase::Stamp,
                    seq![],
                    RestartActionView::Stamp { args: stamp_arguments(exe, self.stamp_pid) },
                ),
            },
            (RestartPhase::Stamp, RestartEventView::Ran(ran)) => self.clock(
                seq![stamp_report(self.stamp_exe, self.stamp_pid, ran)],
            ),
            (RestartPhase::Clock, RestartEventView::Clock { now_ms }) => self.go(
                RestartPhase::Done,
                seq![],
                RestartActionView::Finish(
                    Ok(
                        RestartResultView {
                            name: self.recipe.name,
                            old_pid: self.old_pid,
                            new_pid: self.new_pid,
                            start_ms: self.start_ms,
                            end_ms: now_ms,
                            success: true,
                            sigkill_used: self.sigkill_used,
                            restart_path: self.strategy,
                        },
                    ),
                ),
            ),
            _ => self.go(self.phase, seq![], RestartActionView::Ignored),
        }
    }
}

/// What a step gives: what is told, and what is to be done.
#[derive(Debug)]
pub struct RestartStep {
    pub lines: Vec<Line>,
    pub action: RestartAction,
}

impl RestartStep {
    /// The step of the model, from the restart after it.
    pub open spec fn made(self, state: RestartView) -> RestartMove {
        RestartMove { state, lines: line_views(self.lines@), action: self.action@ }
    }
}

impl RestartRun {
    /// The restart of a daemon whose process is `old_pid`, before its first step.
    pub fn new(recipe: DaemonRecipe, old_pid: u32, healthcheck_timeout_ms: u128) -> (r: RestartRun)
        ensures
            r@ == restart_begun(recipe@, old_pid, healthcheck_timeout_ms as nat),
    {
        let r = RestartRun {
            recipe,
            old_pid,
            healthcheck_timeout_ms,
            phase: RestartPhase::Start,
            start_ms: 0,
            new_pid: None,
            sigkill_used: false,
            strategy: RestartStrategy::SigtermLaunch,
            stamp_pid: 0,
            stamp_exe: String::new(),
        };
        assert(r@.stamp_exe =~= seq![]);
        r
    }

    fn ignored(&self) -> (r: RestartStep)
        ensures
            r.made(self@) == self@.go(self@.phase, seq![], RestartActionView::Ignored),
    {
        RestartStep { lines: no_lines(), action: RestartAction::Ignored }
    }

    fn fail(&mut self, e: RolloutError) -> (r: RestartStep)
        ensures
            r.made(final(self)@) == old(self)@.fail(e@),
    {
        self.phase = RestartPhase::Done;
        RestartStep { lines: no_lines(), action: RestartAction::Finish(Err(e)) }
    }

    fn check(&mut self, lines: Vec<Line>, after_ms: u64, first: bool) -> (r: RestartStep)
        ensures
            r.made(final(self)@) == old(self)@.check(line_views(lines@), after_ms as nat, first),
    {
        self.phase = RestartPhase::Health;
        RestartStep {
            lines,
            action: RestartAction::CheckHealth {
                cmd: self.recipe.healthcheck_cmd(),
                after_ms,
                first,
            },
        }
    }

    fn launch_daemon(&mut self, after_ms: u64) -> (r: RestartStep)
        ensures
            r.made(final(self)@) == old(self)@.launch(after_ms as nat),
    {
        self.phase = RestartPhase::Launch;
        RestartStep {
            lines: no_lines(),
            action: RestartAction::Launch {
                cmd: self.recipe.launch_cmd.clone(),
                dir: copy_option(&self.recipe.repo),
                after_ms,
            },
        }
    }

    fn look_at(&mut self, pid: u32) -> (r: RestartStep)
        ensures
            r.made(final(self)@) == old(self)@.look_at(pid),
    {
        self.stamp_pid = pid;
        self.phase = RestartPhase::Exe;
        RestartStep { lines: no_lines(), action: RestartAction::ReadExe { pid } }
    }

    fn clock(&mut self, lines: Vec<Line>) -> (r: RestartStep)
        ensures
            r.made(final(self)@) == old(self)@.clock(line_views(lines@)),
    {
        self.phase = RestartPhase::Clock;
        RestartStep { lines, action: RestartAction::ReadClock }
    }

    fn built(&mut self, ran: CommandOutcome) -> (r: RestartStep)
        requires
            old(self)@.phase == RestartPhase::Build,
        ensures
            r.made(final(self)@) == old(self)@.step(RestartEventView::Ran(ran@)),
    {
        proof {
            reveal(RestartView::step);
        }
        match run_recipe_cmd(self.recipe.name.as_str(), "build", ran) {
            Ok(_) => {
                self.phase = RestartPhase::Install;
                RestartStep {
                    lines: no_lines(),
                    action: RestartAction::Run {
                        cmd: self.recipe.install_cmd.clone(),
                        dir: copy_option(&self.recipe.repo),
                    },
                }
            },
            Err(e) => self.fail(e),
        }
    }

    fn installed(&mut self, ran: CommandOutcome) -> (r: RestartStep)
        requires
            old(self)@.phase == RestartPhase::Install,
        ensures
            r.made(final(self)@) == old(self)@.step(RestartEventView::Ran(ran@)),
    {
        proof {
            reveal(RestartView::step);
        }
        match run_recipe_cmd(self.recipe.name.as_str(), "install", ran) {
            Ok(_) => {
                let action = match self.recipe.unit_name() {
                    Some(unit) => {
                        let unit = unit.to_owned();
                        self.phase = RestartPhase::Unit;
                        RestartAction::RestartUnit { unit }
                    },
                    None => {
                        self.phase = RestartPhase::Term;
                        RestartAction::Terminate { pid: signal_pid(self.old_pid) }
                    },
                };
                RestartStep { lines: no_lines(), action }
            },
            Err(e) => self.fail(e),
        }
    }

    fn unit_restarted(&mut self, restarted: Result<UnitRestart, RolloutError>) -> (r: RestartStep)
        requires
            old(self)@.phase == RestartPhase::Unit,
        ensures
            r.made(final(self)@) == old(self)@.step(
                RestartEventView::UnitRestarted(unit_restart_result(restarted)),
            ),
    {
        proof {
            reveal(RestartView::step);
        }
        match restarted {
            Ok(u) => {
                let unit = match self.recipe.unit_name() {
                    Some(unit) => unit.to_owned(),
                    None => {
                        return self.ignored();
                    },
                };
                let word = match u.path {
                    RestartPath::AgorabuReload => "AgorabuReload",
                    RestartPath::Systemctl => "Systemctl",
                    RestartPath::NoRestart => "None",
                };
                let lines = one_line(
                    Line::Warn(
                        "rollout: restarted ".to_owned().concat(self.recipe.name.as_str()).concat(
                            " via ",
                        ).concat(unit.as_str()).concat(" (path=").concat(word).concat(")"),
                    ),
                );
                self.strategy = if u.path == RestartPath::AgorabuReload {
                    RestartStrategy::AgorabusReload
                } else {
                    RestartStrategy::SystemdUnit(unit)
                };
                self.check(lines, 0, true)
            },
            Err(e) => self.fail(e),
        }
    }

    fn terminated(&mut self, sent: Result<(), String>) -> (r: RestartStep)
        requires
            old(self)@.phase == RestartPhase::Term,
        ensures
            r.made(final(self)@) == old(self)@.step(RestartEvent::Signalled(sent)@),
    {
        proof {
            reveal(RestartView::step);
        }
        match sent {
            Ok(_) => {
                self.phase = RestartPhase::Wait;
                RestartStep {
                    lines: one_line(
                        Line::Warn(
                            "rollout: sent SIGTERM to ".to_owned().concat(
                                self.recipe.name.as_str(),
                            ).concat(" pid=").concat(decimal(self.old_pid as u128).as_str()),
                        ),
                    ),
                    action: RestartAction::ReadStat {
                        pid: self.old_pid,
                        after_ms: 0,
                        first: true,
                    },
                }
            },
            Err(why) => {
                let e = RolloutError::Signal(
                    "SIGTERM ".to_owned().concat(decimal(self.old_pid as u128).as_str()).concat(
                        ": ",
                    ).concat(why.as_str()),
                );
                self.fail(e)
            },
        }
    }

    fn waited(&mut self, stat: Option<String>, elapsed_ms: u128) -> (r: RestartStep)
        requires
            old(self)@.phase == RestartPhase::Wait,
        ensures
            r.made(final(self)@) == old(self)@.step(RestartEvent::Stat { stat, elapsed_ms }@),
    {
        proof {
            reveal(RestartView::step);
        }
        let grace: u64 = self.recipe.grace_period_secs;
        match wait_for_exit(&stat, elapsed_ms, grace as u128 * 1000) {
            ExitStep::Exited => self.launch_daemon(0),
            ExitStep::Again => RestartStep {
                lines: no_lines(),
                action: RestartAction::ReadStat {
                    pid: self.old_pid,
                    after_ms: EXIT_POLL_INTERVAL_MS,
                    first: false,
                },
            },
            ExitStep::TimedOut => {
                self.sigkill_used = true;
                self.phase = RestartPhase::Kill;
                RestartStep {
                    lines: one_line(
                        Line::Warn(
                            "rollout: ".to_owned().concat(self.recipe.name.as_str()).concat(
                                " pid=",
                            ).concat(decimal(self.old_pid as u128).as_str()).concat(
                                " did not exit after ",
                            ).concat(decimal(grace as u128).as_str()).concat(
                                "s grace period; sending SIGKILL",
                            ),
                        ),
                    ),
                    action: RestartAction::Kill { pid: signal_pid(self.old_pid) },
                }
            },
        }
    }

    fn launched(&mut self, launched: Result<u32, String>) -> (r: RestartStep)
        requires
            old(self)@.phase == RestartPhase::Launch,
        ensures
            r.made(final(self)@) == old(self)@.step(RestartEvent::Launched(launched)@),
    {
        proof {
            reveal(RestartView::step);
        }
        match launched {
            Ok(pid) => {
                self.new_pid = Some(pid);
                let lines = one_line(
                    Line::Warn(
                        "rollout: launched ".to_owned().concat(self.recipe.name.as_str()).concat(
                            " (pid=",
                        ).concat(pid_option_text(Some(pid)).as_str()).concat(")"),
                    ),
                );
                self.check(lines, 0, true)
            },
            Err(why) => {
                let e = RolloutError::LaunchFailed {
                    name: self.recipe.name.clone(),
                    reason: "spawn failed: ".to_owned().concat(why.as_str()),
                };
                self.fail(e)
            },
        }
    }

    fn checked(&mut self, passed: bool, elapsed_ms: u128) -> (r: RestartStep)
        requires
            old(self)@.phase == RestartPhase::Health,
        ensures
            r.made(final(self)@) == old(self)@.step(RestartEvent::Checked { passed, elapsed_ms }@),
    {
        proof {
            reveal(RestartView::step);
        }
        match poll_healthcheck(
            self.recipe.name.as_str(),
            self.old_pid,
            self.new_pid,
            self.healthcheck_timeout_ms,
            passed,
            elapsed_ms,
        ) {
            PollStep::Passed => {
                match self.recipe.unit_name() {
                    Some(unit) => {
                        let unit = unit.to_owned();
                        self.phase = RestartPhase::MainPid;
                        RestartStep {
                            lines: no_lines(),
                            action: RestartAction::AskMainPid { unit },
                        }
                    },
                    None => match self.new_pid {
                        Some(pid) => self.look_at(pid),
                        None => self.clock(no_lines()),
                    },
                }
            },
            PollStep::Again => self.check(no_lines(), DEFAULT_POLL_INTERVAL_MS, false),
            PollStep::Failed(e) => self.fail(e),
        }
    }

    fn looked(&mut self, link: Result<String, String>) -> (r: RestartStep)
        requires
            old(self)@.phase == RestartPhase::Exe,
        ensures
            r.made(final(self)@) == old(self)@.step(RestartEventView::Exe(link_view(link))),
    {
        proof {
            reveal(RestartView::step);
        }
        match try_stamp_new_binary(self.stamp_pid, link) {
            Ok(exe) => {
                let args = stamp_args(exe.as_str(), self.stamp_pid);
                self.stamp_exe = exe;
                self.phase = RestartPhase::Stamp;
                RestartStep { lines: no_lines(), action: RestartAction::Stamp { args } }
            },
            Err(line) => self.clock(one_line(line)),
        }
    }

    fn begun(&mut self, now_ms: u128) -> (r: RestartStep)
        requires
            old(self)@.phase == RestartPhase::Start,
        ensures
            r.made(final(self)@) == old(self)@.step(RestartEvent::Begin { now_ms }@),
    {
        proof {
            reveal(RestartView::step);
        }
        self.start_ms = now_ms;
        self.phase = RestartPhase::Build;
        RestartStep {
            lines: no_lines(),
            action: RestartAction::Run {
                cmd: self.recipe.build_cmd.clone(),
                dir: copy_option(&self.recipe.repo),
            },
        }
    }

    fn killed(&mut self, sent: Result<(), String>) -> (r: RestartStep)
        requires
            old(self)@.phase == RestartPhase::Kill,
        ensures
            r.made(final(self)@) == old(self)@.step(RestartEvent::Signalled(sent)@),
    {
        proof {
            reveal(RestartView::step);
        }
        self.launch_daemon(KILL_PAUSE_MS)
    }

    fn answered(&mut self, stdout: Option<String>) -> (r: RestartStep)
        requires
            old(self)@.phase == RestartPhase::MainPid,
        ensures
            r.made(final(self)@) == old(self)@.step(RestartEvent::MainPid(stdout)@),
    {
        proof {
            reveal(RestartView::step);
        }
        let text = match &stdout {
            Some(s) => Some(s.as_str()),
            None => None,
        };
        match unit_main_pid(text) {
            Some(pid) => self.look_at(pid),
            None => self.clock(no_lines()),
        }
    }

    fn stamped(&mut self, ran: CommandOutcome) -> (r: RestartStep)
        requires
            old(self)@.phase == RestartPhase::Stamp,
        ensures
            r.made(final(self)@) == old(self)@.step(RestartEventView::Ran(ran@)),
    {
        proof {
            reveal(RestartView::step);
        }
        let line = stamp_line(self.stamp_exe.as_str(), self.stamp_pid, ran);
        self.clock(one_line(line))
    }

    fn ended(&mut self, now_ms: u128) -> (r: RestartStep)
        requires
            old(self)@.phase == RestartPhase::Clock,
        ensures
            r.made(final(self)@) == old(self)@.step(RestartEvent::Clock { now_ms }@),
    {
        proof {
            reveal(RestartView::step);
        }
        self.phase = RestartPhase::Done;
        RestartStep {
            lines: no_lines(),
            action: RestartAction::Finish(
                Ok(
                    RestartResult {
                        name: self.recipe.name.clone(),
                        old_pid: self.old_pid,
                        new_pid: self.new_pid,
                        start_ms: self.start_ms,
                        end_ms: now_ms,
                        success: true,
                        sigkill_used: self.sigkill_used,
                        restart_path: self.strategy.copy(),
                    },
                ),
            ),
        }
    }

    /// Take the next step of the restart.
    #[verifier::spinoff_prover]
    pub fn restart_daemon(&mut self, event: RestartEvent) -> (r: RestartStep)
        ensures
            r.made(final(self)@) == old(self)@.step(event@),
    {
        match (self.phase, event) {
            (RestartPhase::Start, RestartEvent::Begin { now_ms }) => self.begun(now_ms),
            (RestartPhase::Build, RestartEvent::Ran(ran)) => self.built(ran),
            (RestartPhase::Install, RestartEvent::Ran(ran)) => self.installed(ran),
            (RestartPhase::Unit, RestartEvent::UnitRestarted(r)) => self.unit_restarted(r),
            (RestartPhase::Term, RestartEvent::Signalled(sent)) => self.terminated(sent),
            (RestartPhase::Wait, RestartEvent::Stat { stat, elapsed_ms }) => self.waited(
                stat,
                elapsed_ms,
            ),
            (RestartPhase::Kill, RestartEvent::Signalled(sent)) => self.killed(sent),
            (RestartPhase::Launch, RestartEvent::Launched(launched)) => self.launched(launched),
            (RestartPhase::Health, RestartEvent::Checked { passed, elapsed_ms }) => self.checked(
                passed,
                elapsed_ms,
            ),
            (RestartPhase::MainPid, RestartEvent::MainPid(stdout)) => self.answered(stdout),
            (RestartPhase::Exe, RestartEvent::Exe(link)) => self.looked(link),
            (RestartPhase::Stamp, RestartEvent::Ran(ran)) => self.stamped(ran),
            (RestartPhase::Clock, RestartEvent::Clock { now_ms }) => self.ended(now_ms),
            _ => {
                proof {
                    reveal(RestartView::step);
                }
                self.ignored()
            },
        }
    }
}

// ---------------------------------------------------------------------------
// Laws
// ---------------------------------------------------------------------------

/// The restart after the given events.
pub open spec fn restart_after(s: RestartView, events: Seq<RestartEventView>) -> RestartView
    decreases events.len(),
{
    if events.len() == 0 {
        s
    } else {
        restart_after(s, events.drop_last()).step(events.last()).state
    }
}

/// What is to be done after the event with the number `k`.
pub open spec fn restart_action(
    s: RestartView,
    events: Seq<RestartEventView>,
    k: int,
) -> RestartActionView {
    restart_after(s, events.take(k)).step(events[k]).action
}

/// Whether an event says that a command ran and succeeded.
pub open spec fn is_success(event: RestartEventView) -> bool {
    event matches RestartEventView::Ran(CommandView::Exited { success, code }) && success
}

/// Whether the event with the number `i` came while the restart stood at `phase`.
pub open spec fn came_at(
    s: RestartView,
    events: Seq<RestartEventView>,
    i: int,
    phase: RestartPhase,
) -> bool {
    restart_after(s, events.take(i)).phase == phase
}

/// Whether the build command and then the install command have succeeded within the first `n`
/// events.
pub open spec fn installed_within(s: RestartView, events: Seq<RestartEventView>, n: int) -> bool {
    exists|i: int, j: int|
        0 <= i < j < n && #[trigger] came_at(s, events, i, RestartPhase::Build) && is_success(
            events[i],
        ) && #[trigger] came_at(s, events, j, RestartPhase::Install) && is_success(events[j])
}

/// Whether the build command has succeeded within the first `n` events.
pub open spec fn built_within(s: RestartView, events: Seq<RestartEventView>, n: int) -> bool {
    exists|i: int|
        0 <= i < n && #[trigger] came_at(s, events, i, RestartPhase::Build) && is_success(events[i])
}

/// Whether SIGTERM was sent to the old process within the first `n` events.
pub open spec fn terminated_within(s: RestartView, events: Seq<RestartEventView>, n: int) -> bool {
    exists|i: int|
        0 <= i < n && #[trigger] came_at(s, events, i, RestartPhase::Term) && (events[i] matches
            RestartEventView::Signalled(sent) && sent is Ok)
}

/// Whether the healthcheck has passed within the first `n` events.
pub open spec fn healthy_within(s: RestartView, events: Seq<RestartEventView>, n: int) -> bool {
    exists|i: int|
        0 <= i < n && #[trigger] came_at(s, events, i, RestartPhase::Health) && (events[i] matches
            RestartEventView::Checked { passed, elapsed_ms } && passed)
}

/// Whether the phase lies behind the install command.
pub open spec fn past_install(phase: RestartPhase) -> bool {
    phase != RestartPhase::Start && phase != RestartPhase::Build && phase != RestartPhase::Install
        && phase != RestartPhase::Done
}

/// Whether the phase lies behind the healthcheck.
pub open spec fn past_health(phase: RestartPhase) -> bool {
    phase == RestartPhase::MainPid || phase == RestartPhase::Exe || phase == RestartPhase::Stamp
        || phase == RestartPhase::Clock
}

/// Whether the phase belongs to the restart without a unit.
pub open spec fn by_signal(phase: RestartPhase) -> bool {
    phase == RestartPhase::Term || phase == RestartPhase::Wait || phase == RestartPhase::Kill
        || phase == RestartPhase::Launch
}

/// Whether a daemon with a unit was restarted through it, or by the reload of the bus daemon.
pub open spec fn through_unit(recipe: RecipeView, strategy: StrategyView) -> bool {
    recipe.unit_name() matches Some(unit) && (strategy == StrategyView::AgorabusReload || strategy
        == StrategyView::SystemdUnit(unit))
}

proof fn lemma_restart_step(s: RestartView, event: RestartEventView)
    ensures
        ({
            let next = s.step(event).state;
            let action = s.step(event).action;
            let unit = s.recipe.unit_name();
            &&& next.recipe == s.recipe && next.old_pid == s.old_pid
            &&& next.phase != s.phase ==> match next.phase {
                RestartPhase::Start => false,
                RestartPhase::Build => s.phase == RestartPhase::Start,
                RestartPhase::Install => s.phase == RestartPhase::Build && is_success(event),
                RestartPhase::Unit => s.phase == RestartPhase::Install && is_success(event)
                    && unit is Some,
                RestartPhase::Term => s.phase == RestartPhase::Install && is_success(event)
                    && unit is None,
                RestartPhase::Wait => s.phase == RestartPhase::Term && (event matches
                    RestartEventView::Signalled(sent) && sent is Ok),
                RestartPhase::Kill => s.phase == RestartPhase::Wait,
                RestartPhase::Launch => s.phase == RestartPhase::Wait || s.phase
                    == RestartPhase::Kill,
                RestartPhase::Health => s.phase == RestartPhase::Unit || s.phase
                    == RestartPhase::Launch,
                RestartPhase::Done => true,
                _ => past_health(s.phase) || s.phase == RestartPhase::Health && (event matches
                    RestartEventView::Checked { passed, elapsed_ms } && passed),
            }
            &&& action is RestartUnit ==> next.phase == RestartPhase::Unit
            &&& action is Terminate ==> next.phase == RestartPhase::Term
            &&& action is Launch ==> next.phase == RestartPhase::Launch
            &&& action is Kill ==> s.phase == RestartPhase::Wait && next.phase
                == RestartPhase::Kill && (event matches RestartEventView::Stat { stat, elapsed_ms }
                && !has_exited(stat) && elapsed_ms >= s.recipe.grace_period_secs * 1000)
            &&& (action matches RestartActionView::Finish(r) ==> (r matches Ok(v) ==> s.phase
                == RestartPhase::Clock && v.success && v.name == s.recipe.name && v.old_pid
                == s.old_pid && v.new_pid == s.new_pid && v.sigkill_used == s.sigkill_used
                && v.restart_path == s.strategy))
            &&& next.sigkill_used != s.sigkill_used ==> next.phase == RestartPhase::Kill
            &&& next.new_pid != s.new_pid ==> s.phase == RestartPhase::Launch
            &&& next.strategy != s.strategy ==> s.phase == RestartPhase::Unit && !(
            next.strategy is SigtermLaunch)
            &&& s.phase == RestartPhase::Unit && next.phase == RestartPhase::Health
                ==> through_unit(s.recipe, next.strategy)
            &&& action is Finish ==> next.phase == RestartPhase::Done
            &&& s.phase == RestartPhase::Done ==> action is Ignored && next == s
        }),
{
    reveal(RestartView::step);
}

proof fn lemma_restart_prefix(s: RestartView, events: Seq<RestartEventView>, n: int)
    requires
        0 <= n <= events.len(),
    ensures
        installed_within(s, events.take(n), n) ==> installed_within(s, events, n),
        built_within(s, events.take(n), n) ==> built_within(s, events, n),
        terminated_within(s, events.take(n), n) ==> terminated_within(s, events, n),
        healthy_within(s, events.take(n), n) ==> healthy_within(s, events, n),
{
    let before = events.take(n);
    assert forall|i: int, phase: RestartPhase| 0 <= i < n implies #[trigger] came_at(
        s,
        before,
        i,
        phase,
    ) == came_at(s, events, i, phase) && before[i] == events[i] by {
        assert(before.take(i) =~= events.take(i));
    }
    if installed_within(s, before, n) {
        let (i, j) = choose|i: int, j: int|
            0 <= i < j < n && #[trigger] came_at(s, before, i, RestartPhase::Build) && is_success(
                before[i],
            ) && #[trigger] came_at(s, before, j, RestartPhase::Install) && is_success(before[j]);
        assert(came_at(s, events, i, RestartPhase::Build));
        assert(came_at(s, events, j, RestartPhase::Install));
    }
    if built_within(s, before, n) {
        let i = choose|i: int|
            0 <= i < n && #[trigger] came_at(s, before, i, RestartPhase::Build) && is_success(
                before[i],
            );
        assert(came_at(s, events, i, RestartPhase::Build));
    }
    if terminated_within(s, before, n) {
        let i = choose|i: int|
            0 <= i < n && #[trigger] came_at(s, before, i, RestartPhase::Term) && (
            before[i] matches RestartEventView::Signalled(sent) && sent is Ok);
        assert(came_at(s, events, i, RestartPhase::Term));
    }
    if healthy_within(s, before, n) {
        let i = choose|i: int|
            0 <= i < n && #[trigger] came_at(s, before, i, RestartPhase::Health) && (
            before[i] matches RestartEventView::Checked { passed, elapsed_ms } && passed);
        assert(came_at(s, events, i, RestartPhase::Health));
    }
}

proof fn lemma_restart_trace(s: RestartView, events: Seq<RestartEventView>)
    requires
        s.phase == RestartPhase::Start,
        !s.sigkill_used,
        s.new_pid is None,
        s.strategy is SigtermLaunch,
    ensures
        ({
            let now = restart_after(s, events);
            let n = events.len() as int;
            let unit = s.recipe.unit_name();
            &&& now.recipe == s.recipe && now.old_pid == s.old_pid
            &&& now.phase == RestartPhase::Install ==> built_within(s, events, n)
            &&& past_install(now.phase) ==> installed_within(s, events, n)
            &&& now.phase == RestartPhase::Wait || now.phase == RestartPhase::Kill || now.phase
                == RestartPhase::Launch ==> terminated_within(s, events, n)
            &&& past_health(now.phase) ==> healthy_within(s, events, n)
            &&& by_signal(now.phase) ==> unit is None
            &&& now.phase == RestartPhase::Unit ==> unit is Some
            &&& unit is Some ==> !now.sigkill_used && now.new_pid is None
            &&& unit is None ==> now.strategy is SigtermLaunch
            &&& unit is Some && (now.phase == RestartPhase::Health || past_health(now.phase))
                ==> through_unit(s.recipe, now.strategy)
            &&& now.sigkill_used ==> terminated_within(s, events, n)
        }),
    decreases events.len(),
{
    if events.len() > 0 {
        let before = events.drop_last();
        let m = before.len() as int;
        let n = events.len() as int;
        let was = restart_after(s, before);
        lemma_restart_trace(s, before);
        lemma_restart_step(was, events.last());
        assert(events.take(m) =~= before);
        assert(before.take(m) =~= before);
        lemma_restart_prefix(s, events, m);
        assert(forall|phase: RestartPhase| #[trigger]
            came_at(s, events, m, phase) <==> was.phase == phase);
        let now = restart_after(s, events);
        if was.phase == RestartPhase::Build && now.phase == RestartPhase::Install {
            assert(came_at(s, events, m, RestartPhase::Build));
        }
        if was.phase == RestartPhase::Install && now.phase != was.phase && now.phase
            != RestartPhase::Done {
            let i = choose|i: int|
                0 <= i < m && #[trigger] came_at(s, events, i, RestartPhase::Build) && is_success(
                    events[i],
                );
            assert(came_at(s, events, i, RestartPhase::Build));
            assert(came_at(s, events, m, RestartPhase::Install));
        }
        if was.phase == RestartPhase::Term && now.phase == RestartPhase::Wait {
            assert(came_at(s, events, m, RestartPhase::Term));
        }
        if was.phase == RestartPhase::Health && past_health(now.phase) {
            assert(came_at(s, events, m, RestartPhase::Health));
        }
    }
}

/// Nothing that runs is touched before the daemon was built and then installed: no unit is
/// restarted, no signal is sent and nothing is launched earlier.
pub proof fn law_install_before_restart(
    recipe: RecipeView,
    old_pid: u32,
    timeout_ms: nat,
    events: Seq<RestartEventView>,
    k: int,
)
    requires
        0 <= k < events.len(),
        ({
            let action = restart_action(restart_begun(recipe, old_pid, timeout_ms), events, k);
            action is RestartUnit || action is Terminate || action is Kill || action is Launch
        }),
    ensures
        installed_within(restart_begun(recipe, old_pid, timeout_ms), events, k + 1),
{
    let s = restart_begun(recipe, old_pid, timeout_ms);
    let first = events.take(k + 1);
    assert(first.drop_last() =~= events.take(k));
    assert(first.last() == events[k]);
    lemma_restart_trace(s, first);
    lemma_restart_step(restart_after(s, events.take(k)), events[k]);
    lemma_restart_prefix(s, events, k + 1);
}

/// SIGKILL is sent only after SIGTERM was sent and the process was seen alive at the end of
/// its grace period.
pub proof fn law_kill_after_grace(
    recipe: RecipeView,
    old_pid: u32,
    timeout_ms: nat,
    events: Seq<RestartEventView>,
    k: int,
)
    requires
        0 <= k < events.len(),
        restart_action(restart_begun(recipe, old_pid, timeout_ms), events, k) is Kill,
    ensures
        terminated_within(restart_begun(recipe, old_pid, timeout_ms), events, k),
        events[k] matches RestartEventView::Stat { stat, elapsed_ms } && !has_exited(stat)
            && elapsed_ms >= recipe.grace_period_secs * 1000,
{
    let s = restart_begun(recipe, old_pid, timeout_ms);
    lemma_restart_trace(s, events.take(k));
    lemma_restart_step(restart_after(s, events.take(k)), events[k]);
    assert(events.take(k).take(k) =~= events.take(k));
    lemma_restart_prefix(s, events, k);
}

/// A daemon with a unit is never sent a signal nor launched by its launch command; a daemon
/// without one is never restarted through a unit.
pub proof fn law_unit_or_signals(
    recipe: RecipeView,
    old_pid: u32,
    timeout_ms: nat,
    events: Seq<RestartEventView>,
    k: int,
)
    requires
        0 <= k < events.len(),
    ensures
        ({
            let action = restart_action(restart_begun(recipe, old_pid, timeout_ms), events, k);
            &&& recipe.unit_name() is Some ==> !(action is Terminate) && !(action is Kill) && !(
            action is Launch)
            &&& recipe.unit_name() is None ==> !(action is RestartUnit)
        }),
{
    let s = restart_begun(recipe, old_pid, timeout_ms);
    let first = events.take(k + 1);
    assert(first.drop_last() =~= events.take(k));
    assert(first.last() == events[k]);
    lemma_restart_trace(s, first);
    lemma_restart_step(restart_after(s, events.take(k)), events[k]);
}

/// A restart succeeds only once the healthcheck has passed. Its result names the daemon and
/// its old pid; a daemon with a unit was not killed and was restarted through that unit or by
/// the reload of the bus daemon, and one without was restarted by signal.
pub proof fn law_success_means_healthy(
    recipe: RecipeView,
    old_pid: u32,
    timeout_ms: nat,
    events: Seq<RestartEventView>,
    k: int,
)
    requires
        0 <= k < events.len(),
        restart_action(restart_begun(recipe, old_pid, timeout_ms), events, k) matches
            RestartActionView::Finish(r) && r is Ok,
    ensures
        healthy_within(restart_begun(recipe, old_pid, timeout_ms), events, k),
        ({
            let v = restart_action(restart_begun(recipe, old_pid, timeout_ms), events, k)->Finish_0
                ->Ok_0;
            &&& v.success && v.name == recipe.name && v.old_pid == old_pid
            &&& recipe.unit_name() is Some ==> !v.sigkill_used && v.new_pid is None && through_unit(
                recipe,
                v.restart_path,
            )
            &&& recipe.unit_name() is None ==> v.restart_path is SigtermLaunch
            &&& v.sigkill_used ==> terminated_within(
                restart_begun(recipe, old_pid, timeout_ms),
                events,
                k,
            )
        }),
{
    let s = restart_begun(recipe, old_pid, timeout_ms);
    lemma_restart_trace(s, events.take(k));
    lemma_restart_step(restart_after(s, events.take(k)), events[k]);
    assert(events.take(k).take(k) =~= events.take(k));
    lemma_restart_prefix(s, events, k);
}

/// A restart that is over does nothing any more.
pub proof fn law_restart_ends_once(s: RestartView, event: RestartEventView)
    ensures
        s.step(event).action is Finish ==> s.step(event).state.phase == RestartPhase::Done,
        s.phase == RestartPhase::Done ==> s.step(event).action is Ignored && s.step(event).state
            == s,
{
    lemma_restart_step(s, event);
}

/// Whether an event tells what came of an action.
pub open spec fn answers(action: RestartActionView, event: RestartEventView) -> bool {
    match action {
        RestartActionView::Run { .. } => event is Ran,
        RestartActionView::RestartUnit { .. } => event is UnitRestarted,
        RestartActionView::Terminate { .. } => event is Signalled,
        RestartActionView::ReadStat { .. } => event is Stat,
        RestartActionView::Kill { .. } => event is Signalled,
        RestartActionView::Launch { .. } => event is Launched,
        RestartActionView::CheckHealth { .. } => event is Checked,
        RestartActionView::AskMainPid { .. } => event is MainPid,
        RestartActionView::ReadExe { .. } => event is Exe,
        RestartActionView::Stamp { .. } => event is Ran,
        RestartActionView::ReadClock => event is Clock,
        RestartActionView::Finish(_) => false,
        RestartActionView::Ignored => false,
    }
}

/// Whether an event is one that a restart waits for.
spec fn takes(s: RestartView, event: RestartEventView) -> bool {
    match s.phase {
        RestartPhase::Start => event is Begin,
        RestartPhase::Build => event is Ran,
        RestartPhase::Install => event is Ran,
        RestartPhase::Unit => event is UnitRestarted && s.recipe.unit_name() is Some,
        RestartPhase::Term => event is Signalled,
        RestartPhase::Wait => event is Stat,
        RestartPhase::Kill => event is Signalled,
        RestartPhase::Launch => event is Launched,
        RestartPhase::Health => event is Checked,
        RestartPhase::MainPid => event is MainPid,
        RestartPhase::Exe => event is Exe,
        RestartPhase::Stamp => event is Ran,
        RestartPhase::Clock => event is Clock,
        RestartPhase::Done => false,
    }
}

proof fn lemma_answer_taken(s: RestartView, event: RestartEventView, answer: RestartEventView)
    requires
        answers(s.step(event).action, answer),
    ensures
        takes(s.step(event).state, answer),
{
    reveal(RestartView::step);
}

proof fn lemma_taken(s: RestartView, event: RestartEventView)
    requires
        takes(s, event),
    ensures
        !(s.step(event).action is Ignored),
{
    reveal(RestartView::step);
}

/// A restart is never stuck: it begins when it is told to, and whatever came of an action
/// moves it on.
pub proof fn law_restart_never_stuck(
    s: RestartView,
    event: RestartEventView,
    answer: RestartEventView,
)
    ensures
        s.phase == RestartPhase::Start && event is Begin ==> !(s.step(event).action is Ignored),
        answers(s.step(event).action, answer) ==> !(s.step(event).state.step(
            answer,
        ).action is Ignored),
{
    if s.phase == RestartPhase::Start && event is Begin {
        lemma_taken(s, event);
    }
    if answers(s.step(event).action, answer) {
        lemma_answer_taken(s, event, answer);
        lemma_taken(s.step(event).state, answer);
    }
}

/// A zombie counts as exited whatever its name holds, and so does a process without a `stat`
/// line.
pub proof fn law_zombie_has_exited(before: Seq<char>, state: Seq<char>)
    requires
        !state.contains(')'),
        "Z"@.is_prefix_of(trimmed_start(state)),
    ensures
        has_exited(Some(before + seq![')'] + state)),
        has_exited(None),
{
    lemma_behind_last(before, state);
}

proof fn lemma_behind_last(before: Seq<char>, rest: Seq<char>)
    requires
        !rest.contains(')'),
    ensures
        behind_last(before + seq![')'] + rest, ')') == Some(rest),
    decreases rest.len(),
{
    let all = before + seq![')'] + rest;
    if rest.len() == 0 {
        assert(all.last() == ')');
    } else {
        assert(rest.contains(rest.last()));
        assert(all.last() == rest.last());
        assert(all.drop_last() =~= before + seq![')'] + rest.drop_last());
        assert forall|c: char| rest.drop_last().contains(c) implies rest.contains(c) by {
            let i = rest.drop_last().index_of(c);
            assert(rest[i] == c);
        }
        lemma_behind_last(before, rest.drop_last());
        assert(rest =~= rest.drop_last().push(rest.last()));
    }
}

/// A process is waited for until it has exited or its time is over.
pub proof fn law_exit_is_awaited(stat: Option<Seq<char>>, elapsed_ms: nat, timeout_ms: nat)
    ensures
        exit_step(stat, elapsed_ms, timeout_ms) == ExitStep::Exited <==> has_exited(stat),
        exit_step(stat, elapsed_ms, timeout_ms) == ExitStep::Again <==> !has_exited(stat)
            && elapsed_ms < timeout_ms,
        exit_step(stat, elapsed_ms, timeout_ms) == ExitStep::TimedOut <==> !has_exited(stat)
            && elapsed_ms >= timeout_ms,
{
}

/// A process whose state, the first character behind the last `)` that is no white space, is
/// anything but `Z` has not exited.
pub proof fn law_living_has_not_exited(before: Seq<char>, state: char, rest: Seq<char>)
    requires
        !is_white(state),
        state != 'Z',
        state != ')',
        !rest.contains(')'),
    ensures
        !has_exited(Some(before + seq![')'] + (seq![' ', state] + rest))),
{
    let tail = seq![' ', state] + rest;
    if tail.contains(')') {
        let i = tail.index_of(')');
        assert(tail[i] == ')');
        assert(i >= 2);
        assert(rest[i - 2] == ')');
    }
    law_behind_last(before, ')', tail);
    law_white_space(' ');
    let i = law_trimmed_start(tail);
    assert(tail[0] == ' ' && tail[1] == state);
    assert(i == 1) by {
        if i == 0 {
            assert(!is_white(tail[0]));
        }
        if i > 1 {
            assert(is_white(tail[1]));
        }
    }
    reveal_strlit("Z");
    assert("Z"@[0] == 'Z');
    assert(trimmed_start(tail)[0] == state);
}

/// What a restart is made with never changes, and its beginning is kept once it has begun.
pub proof fn law_restart_keeps_its_terms(
    recipe: RecipeView,
    old_pid: u32,
    timeout_ms: nat,
    now_ms: nat,
    events: Seq<RestartEventView>,
)
    requires
        events.len() > 0,
        events[0] == (RestartEventView::Begin { now_ms }),
    ensures
        ({
            let now = restart_after(restart_begun(recipe, old_pid, timeout_ms), events);
            &&& now.recipe == recipe
            &&& now.old_pid == old_pid
            &&& now.healthcheck_timeout_ms == timeout_ms
            &&& now.start_ms == now_ms
            &&& now.phase != RestartPhase::Start
        }),
    decreases events.len(),
{
    reveal(RestartView::step);
    let before = events.drop_last();
    if before.len() > 0 {
        assert(before[0] == events[0]);
        law_restart_keeps_its_terms(recipe, old_pid, timeout_ms, now_ms, before);
    } else {
        assert(events.last() == events[0]);
        assert(restart_after(restart_begun(recipe, old_pid, timeout_ms), before) == restart_begun(
            recipe,
            old_pid,
            timeout_ms,
        ));
    }
}

proof fn lemma_restart_terms(s: RestartView, events: Seq<RestartEventView>)
    ensures
        restart_after(s, events).recipe == s.recipe,
        restart_after(s, events).old_pid == s.old_pid,
        restart_after(s, events).healthcheck_timeout_ms == s.healthcheck_timeout_ms,
    decreases events.len(),
{
    if events.len() > 0 {
        lemma_restart_terms(s, events.drop_last());
        reveal(RestartView::step);
    }
}

/// Every action of a restart is on the terms that it was made with: the commands are the recipe's
/// own and run in its repository, the build first; the unit that is restarted and asked about is the
/// recipe's; signals go to the old pid, which is the one that is watched; and the healthcheck is
/// that of the recipe.
pub proof fn law_restart_by_its_terms(
    recipe: RecipeView,
    old_pid: u32,
    timeout_ms: nat,
    events: Seq<RestartEventView>,
    k: int,
)
    requires
        0 <= k < events.len(),
    ensures
        match restart_action(restart_begun(recipe, old_pid, timeout_ms), events, k) {
            RestartActionView::Run { cmd, dir } => dir == recipe.repo && cmd
                == if events[k] is Begin {
                recipe.build_cmd
            } else {
                recipe.install_cmd
            },
            RestartActionView::RestartUnit { unit } => recipe.unit == Some(unit) && unit.len() > 0,
            RestartActionView::Terminate { pid } => old_pid <= i32::MAX ==> pid == old_pid,
            RestartActionView::ReadStat { pid, after_ms, first } => pid == old_pid && after_ms
                == if first {
                0nat
            } else {
                100nat
            },
            RestartActionView::Kill { pid } => old_pid <= i32::MAX ==> pid == old_pid,
            RestartActionView::Launch { cmd, dir, after_ms } => cmd == recipe.launch_cmd && dir
                == recipe.repo && after_ms == if events[k] is Stat {
                0nat
            } else {
                200nat
            },
            RestartActionView::CheckHealth { cmd, after_ms, first } => cmd
                == recipe.healthcheck_cmd() && after_ms == if first {
                0nat
            } else {
                500nat
            },
            RestartActionView::AskMainPid { unit } => recipe.unit == Some(unit) && unit.len() > 0,
            RestartActionView::ReadExe { pid } => true,
            RestartActionView::Stamp { args } => args.len() == 4 && args[0] == "stamp"@ && args[2]
                == "--pid"@ && events[k] == RestartEventView::Exe(Ok(args[1])),
            RestartActionView::ReadClock => true,
            RestartActionView::Finish(_) => true,
            RestartActionView::Ignored => true,
        },
{
    let s = restart_begun(recipe, old_pid, timeout_ms);
    lemma_restart_terms(s, events.take(k));
    law_signal_target(old_pid);
    reveal(RestartView::step);
}

/// What follows what came of an action of a restart, up to the healthcheck. A build that succeeded
/// is followed by the install, and that by the restart of the unit or by SIGTERM; each failure ends
/// the restart with its error, but for a SIGKILL that could not be sent. The old process is looked
/// at until it has exited or its grace period is over; then the daemon is launched, in the latter
/// case after SIGKILL.
pub proof fn law_restart_goes_on(s: RestartView, event: RestartEventView, answer: RestartEventView)
    ensures
        ({
            let first = s.step(event);
            let then = first.state.step(answer);
            let failed = then.action matches RestartActionView::Finish(r) && r is Err;
            let unit = s.recipe.unit_name();
            &&& s.phase == RestartPhase::Start && event is Begin ==> first.action is Run
            &&& first.action is Run && event is Begin && answer is Ran ==> if is_success(answer) {
                then.action is Run
            } else {
                failed && then.action->Finish_0->Err_0 is BuildFailed
                    && then.action->Finish_0->Err_0->BuildFailed_name == s.recipe.name
                    && "build"@.is_prefix_of(then.action->Finish_0->Err_0->BuildFailed_reason)
            }
            &&& first.action is Run && !(event is Begin) && answer is Ran ==> if is_success(answer) {
                (unit is Some ==> then.action is RestartUnit) && (unit is None
                    ==> then.action is Terminate)
            } else {
                failed && then.action->Finish_0->Err_0 is BuildFailed
                    && then.action->Finish_0->Err_0->BuildFailed_name == s.recipe.name
                    && "install"@.is_prefix_of(then.action->Finish_0->Err_0->BuildFailed_reason)
            }
            &&& first.action is RestartUnit ==> match answer {
                RestartEventView::UnitRestarted(Ok(u)) => (then.action matches
                    RestartActionView::CheckHealth { cmd, after_ms, first } && first)
                    && then.state.strategy == if u.path == RestartPath::AgorabuReload {
                    StrategyView::AgorabusReload
                } else {
                    StrategyView::SystemdUnit(unit->Some_0)
                },
                RestartEventView::UnitRestarted(Err(e)) => then.action
                    == RestartActionView::Finish(Err(e)),
                _ => then.action is Ignored,
            }
            &&& first.action is Terminate ==> match answer {
                RestartEventView::Signalled(Ok(_)) => then.action matches
                    RestartActionView::ReadStat { pid, after_ms, first } && first,
                RestartEventView::Signalled(Err(why)) => failed
                    && then.action->Finish_0->Err_0 is Signal && why.is_suffix_of(
                    then.action->Finish_0->Err_0->Signal_0,
                ),
                _ => then.action is Ignored,
            }
            &&& first.action is ReadStat ==> match answer {
                RestartEventView::Stat { stat, elapsed_ms } => if has_exited(stat) {
                    then.action is Launch
                } else if elapsed_ms < s.recipe.grace_period_secs * 1000 {
                    then.action matches RestartActionView::ReadStat { pid, after_ms, first }
                        && !first
                } else {
                    then.action is Kill && then.state.sigkill_used
                },
                _ => then.action is Ignored,
            }
            &&& first.action is Kill && answer is Signalled ==> then.action is Launch
            &&& first.action is Launch ==> match answer {
                RestartEventView::Launched(Ok(pid)) => (then.action matches
                    RestartActionView::CheckHealth { cmd, after_ms, first } && first)
                    && then.state.new_pid == Some(pid),
                RestartEventView::Launched(Err(why)) => failed
                    && then.action->Finish_0->Err_0 is LaunchFailed
                    && then.action->Finish_0->Err_0->LaunchFailed_name == s.recipe.name
                    && why.is_suffix_of(then.action->Finish_0->Err_0->LaunchFailed_reason),
                _ => then.action is Ignored,
            }
        }),
{
    lemma_restart_acts(s, event);
    lemma_commands_answered(s.step(event).state, answer);
    lemma_signals_answered(s.step(event).state, answer);
}

proof fn lemma_restart_acts(s: RestartView, event: RestartEventView)
    ensures
        ({
            let next = s.step(event).state;
            let action = s.step(event).action;
            &&& next.recipe == s.recipe
            &&& s.phase == RestartPhase::Start && event is Begin ==> action is Run
            &&& action is Run ==> next.phase == if event is Begin {
                RestartPhase::Build
            } else {
                RestartPhase::Install
            }
            &&& action is RestartUnit ==> next.phase == RestartPhase::Unit
                && s.recipe.unit_name() is Some
            &&& action is Terminate ==> next.phase == RestartPhase::Term
            &&& action is ReadStat ==> next.phase == RestartPhase::Wait
            &&& action is Kill ==> next.phase == RestartPhase::Kill
            &&& action is Launch ==> next.phase == RestartPhase::Launch
            &&& next.old_pid == s.old_pid
            &&& next.healthcheck_timeout_ms == s.healthcheck_timeout_ms
            &&& action is CheckHealth ==> next.phase == RestartPhase::Health
            &&& action is AskMainPid ==> next.phase == RestartPhase::MainPid
            &&& action matches RestartActionView::ReadExe { pid } ==> next.phase
                == RestartPhase::Exe && next.stamp_pid == pid
            &&& action is Stamp ==> next.phase == RestartPhase::Stamp
            &&& action is ReadClock ==> next.phase == RestartPhase::Clock
        }),
{
    reveal(RestartView::step);
}

proof fn lemma_commands_answered(s: RestartView, answer: RestartEventView)
    ensures
        ({
            let then = s.step(answer);
            let failed = then.action matches RestartActionView::Finish(r) && r is Err;
            let unit = s.recipe.unit_name();
            &&& s.phase == RestartPhase::Build && answer is Ran ==> if is_success(answer) {
                then.action is Run
            } else {
                failed && then.action->Finish_0->Err_0 is BuildFailed
                    && then.action->Finish_0->Err_0->BuildFailed_name == s.recipe.name
                    && "build"@.is_prefix_of(then.action->Finish_0->Err_0->BuildFailed_reason)
            }
            &&& s.phase == RestartPhase::Install && answer is Ran ==> if is_success(answer) {
                (unit is Some ==> then.action is RestartUnit) && (unit is None
                    ==> then.action is Terminate)
            } else {
                failed && then.action->Finish_0->Err_0 is BuildFailed
                    && then.action->Finish_0->Err_0->BuildFailed_name == s.recipe.name
                    && "install"@.is_prefix_of(then.action->Finish_0->Err_0->BuildFailed_reason)
            }
            &&& s.phase == RestartPhase::Unit && unit is Some ==> match answer {
                RestartEventView::UnitRestarted(Ok(u)) => (then.action matches
                    RestartActionView::CheckHealth { cmd, after_ms, first } && first)
                    && then.state.strategy == if u.path == RestartPath::AgorabuReload {
                    StrategyView::AgorabusReload
                } else {
                    StrategyView::SystemdUnit(unit->Some_0)
                },
                RestartEventView::UnitRestarted(Err(e)) => then.action
                    == RestartActionView::Finish(Err(e)),
                _ => then.action is Ignored,
            }
        }),
{
    reveal(RestartView::step);
    if let RestartEventView::Ran(ran) = answer {
        law_step_command(s.recipe.name, "build"@, ran);
        law_step_command(s.recipe.name, "install"@, ran);
    }
}

proof fn lemma_signals_answered(s: RestartView, answer: RestartEventView)
    ensures
        ({
            let then = s.step(answer);
            let failed = then.action matches RestartActionView::Finish(r) && r is Err;
            &&& s.phase == RestartPhase::Term ==> match answer {
                RestartEventView::Signalled(Ok(_)) => then.action matches
                    RestartActionView::ReadStat { pid, after_ms, first } && first,
                RestartEventView::Signalled(Err(why)) => failed
                    && then.action->Finish_0->Err_0 is Signal && why.is_suffix_of(
                    then.action->Finish_0->Err_0->Signal_0,
                ),
                _ => then.action is Ignored,
            }
            &&& s.phase == RestartPhase::Wait ==> match answer {
                RestartEventView::Stat { stat, elapsed_ms } => if has_exited(stat) {
                    then.action is Launch
                } else if elapsed_ms < s.recipe.grace_period_secs * 1000 {
                    then.action matches RestartActionView::ReadStat { pid, after_ms, first }
                        && !first
                } else {
                    then.action is Kill && then.state.sigkill_used
                },
                _ => then.action is Ignored,
            }
            &&& s.phase == RestartPhase::Kill && answer is Signalled ==> then.action is Launch
            &&& s.phase == RestartPhase::Launch ==> match answer {
                RestartEventView::Launched(Ok(pid)) => (then.action matches
                    RestartActionView::CheckHealth { cmd, after_ms, first } && first)
                    && then.state.new_pid == Some(pid),
                RestartEventView::Launched(Err(why)) => failed
                    && then.action->Finish_0->Err_0 is LaunchFailed
                    && then.action->Finish_0->Err_0->LaunchFailed_name == s.recipe.name
                    && why.is_suffix_of(then.action->Finish_0->Err_0->LaunchFailed_reason),
                _ => then.action is Ignored,
            }
        }),
{
    reveal(RestartView::step);
    if let RestartEventView::Signalled(Err(why)) = answer {
        let t = "SIGTERM "@ + dec(s.old_pid as nat) + ": "@ + why;
        assert(t.subrange(t.len() - why.len(), t.len() as int) =~= why);
    }
    if let RestartEventView::Launched(Err(why)) = answer {
        let t = "spawn failed: "@ + why;
        assert(t.subrange(t.len() - why.len(), t.len() as int) =~= why);
    }
    if let RestartEventView::Stat { stat, elapsed_ms } = answer {
        law_exit_is_awaited(stat, elapsed_ms, s.recipe.grace_period_secs * 1000);
    }
}

/// The healthcheck is tried until it passes or its time is over; one that does not pass ends the
/// restart with an error exactly when the time is over. Once it has passed nothing keeps the restart
/// from succeeding: the new binary is looked at and stamped where that can be done, the clock is
/// read, and the restart ends well.
pub proof fn law_restart_polls_health(
    s: RestartView,
    event: RestartEventView,
    answer: RestartEventView,
)
    ensures
        ({
            let first = s.step(event);
            let then = first.state.step(answer);
            let failed = then.action matches RestartActionView::Finish(r) && r is Err;
            &&& first.action is CheckHealth ==> match answer {
                RestartEventView::Checked { passed, elapsed_ms } => if passed {
                    match s.recipe.unit_name() {
                        Some(unit) => then.action is AskMainPid,
                        None => match first.state.new_pid {
                            Some(pid) => then.action == (RestartActionView::ReadExe { pid }),
                            None => then.action is ReadClock,
                        },
                    }
                } else if elapsed_ms < s.healthcheck_timeout_ms {
                    then.action is CheckHealth
                } else {
                    failed && then.action->Finish_0->Err_0 is HealthcheckTimeout
                        && then.action->Finish_0->Err_0->HealthcheckTimeout_name == s.recipe.name
                        && then.action->Finish_0->Err_0->old_pid == s.old_pid
                        && then.action->Finish_0->Err_0->new_pid == first.state.new_pid
                },
                _ => then.action is Ignored,
            }
            &&& first.action is AskMainPid ==> match answer {
                RestartEventView::MainPid(Some(pid)) => then.action == (
                RestartActionView::ReadExe { pid }),
                RestartEventView::MainPid(None) => then.action is ReadClock,
                _ => then.action is Ignored,
            }
            &&& first.action is ReadExe ==> match answer {
                RestartEventView::Exe(Ok(target)) => if " (deleted)"@.is_suffix_of(target) {
                    then.action is ReadClock
                } else {
                    then.action is Stamp && then.action->Stamp_args[1] == target
                        && then.action->Stamp_args[3] == dec(first.action->ReadExe_pid as nat)
                },
                RestartEventView::Exe(Err(_)) => then.action is ReadClock,
                _ => then.action is Ignored,
            }
            &&& first.action is Stamp && answer is Ran ==> then.action is ReadClock
            &&& first.action is ReadClock ==> match answer {
                RestartEventView::Clock { now_ms } => then.action matches
                    RestartActionView::Finish(r) && (r matches Ok(v) && v.end_ms == now_ms
                    && v.start_ms == first.state.start_ms && v.new_pid == first.state.new_pid
                    && v.sigkill_used == first.state.sigkill_used && v.restart_path
                    == first.state.strategy && v.name == s.recipe.name && v.old_pid == s.old_pid
                    && v.success),
                _ => then.action is Ignored,
            }
        }),
{
    lemma_restart_acts(s, event);
    lemma_health_answered(s.step(event).state, answer);
}

proof fn lemma_health_answered(s: RestartView, answer: RestartEventView)
    ensures
        ({
            let then = s.step(answer);
            let failed = then.action matches RestartActionView::Finish(r) && r is Err;
            &&& s.phase == RestartPhase::Health ==> match answer {
                RestartEventView::Checked { passed, elapsed_ms } => if passed {
                    match s.recipe.unit_name() {
                        Some(unit) => then.action is AskMainPid,
                        None => match s.new_pid {
                            Some(pid) => then.action == (RestartActionView::ReadExe { pid }),
                            None => then.action is ReadClock,
                        },
                    }
                } else if elapsed_ms < s.healthcheck_timeout_ms {
                    then.action is CheckHealth
                } else {
                    failed && then.action->Finish_0->Err_0 is HealthcheckTimeout
                        && then.action->Finish_0->Err_0->HealthcheckTimeout_name == s.recipe.name
                        && then.action->Finish_0->Err_0->old_pid == s.old_pid
                        && then.action->Finish_0->Err_0->new_pid == s.new_pid
                },
                _ => then.action is Ignored,
            }
            &&& s.phase == RestartPhase::MainPid ==> match answer {
                RestartEventView::MainPid(Some(pid)) => then.action == (
                RestartActionView::ReadExe { pid }),
                RestartEventView::MainPid(None) => then.action is ReadClock,
                _ => then.action is Ignored,
            }
            &&& s.phase == RestartPhase::Exe ==> match answer {
                RestartEventView::Exe(Ok(target)) => if " (deleted)"@.is_suffix_of(target) {
                    then.action is ReadClock
                } else {
                    then.action is Stamp && then.action->Stamp_args[1] == target
                        && then.action->Stamp_args[3] == dec(s.stamp_pid as nat)
                },
                RestartEventView::Exe(Err(_)) => then.action is ReadClock,
                _ => then.action is Ignored,
            }
            &&& s.phase == RestartPhase::Stamp && answer is Ran ==> then.action is ReadClock
            &&& s.phase == RestartPhase::Clock ==> match answer {
                RestartEventView::Clock { now_ms } => then.action matches
                    RestartActionView::Finish(r) && (r matches Ok(v) && v.end_ms == now_ms
                    && v.start_ms == s.start_ms && v.new_pid == s.new_pid && v.sigkill_used
                    == s.sigkill_used && v.restart_path == s.strategy && v.name == s.recipe.name
                    && v.old_pid == s.old_pid && v.success),
                _ => then.action is Ignored,
            }
        }),
{
    reveal(RestartView::step);
    if let RestartEventView::Checked { passed, elapsed_ms } = answer {
        law_poll_lasts_until_timeout(
            s.recipe.name,
            s.old_pid,
            s.new_pid,
            s.healthcheck_timeout_ms,
            passed,
            elapsed_ms,
        );
    }
}

/// What a restart reports of itself is what happened: its pid is that of the process that was
/// launched, SIGKILL was used exactly where it was asked for, and without a unit the daemon was
/// restarted by signal. Nothing else changes them.
pub proof fn law_restart_reports_what_happened(s: RestartView, event: RestartEventView)
    ensures
        ({
            let then = s.step(event);
            &&& then.state.new_pid != s.new_pid ==> (event matches RestartEventView::Launched(l) && (
            l matches Ok(pid) && then.state.new_pid == Some(pid)))
            &&& then.state.sigkill_used <==> s.sigkill_used || then.action is Kill
            &&& then.state.strategy != s.strategy ==> (event matches
                RestartEventView::UnitRestarted(r) && r is Ok)
            &&& then.state.start_ms != s.start_ms ==> (event matches RestartEventView::Begin {
                now_ms,
            } && then.state.start_ms == now_ms)
        }),
{
    reveal(RestartView::step);
}

/// What is told of a stamp: that it was made, of which binary and for which process, or why not.
pub proof fn law_stamp_is_told(exe: Seq<char>, pid: u32, ran: CommandView)
    ensures
        stamp_report(exe, pid, ran) is Warn,
        ("rollout: stamped "@ + exe + " (pid="@ + dec(pid as nat) + ")"@).is_prefix_of(
            stamp_report(exe, pid, ran)->Warn_0,
        ) || !(ran matches CommandView::Exited { success, code } && success),
        !(ran matches CommandView::Exited { success, code } && success)
            ==> "rollout: binstale stamp "@.is_prefix_of(stamp_report(exe, pid, ran)->Warn_0),
        ran matches CommandView::NotSpawned(why) ==> mentions(
            stamp_report(exe, pid, ran)->Warn_0,
            why,
        ),
        ran matches CommandView::Exited { success, code } ==> (!success ==> mentions(
            stamp_report(exe, pid, ran)->Warn_0,
            code_text(code),
        )),
{
    let t = stamp_report(exe, pid, ran)->Warn_0;
    reveal_strlit("rollout: binstale stamp ");
    match ran {
        CommandView::Exited { success, code } => {
            if success {
                reveal_strlit(") — prov-stale cleared");
                reveal_strlit(")");
                let head = "rollout: stamped "@ + exe + " (pid="@ + dec(pid as nat) + ")"@;
                assert(t.take(head.len() as int) =~= head);
            } else {
                let head = "rollout: binstale stamp exited "@;
                reveal_strlit("rollout: binstale stamp exited ");
                assert(t.take("rollout: binstale stamp "@.len() as int)
                    =~= "rollout: binstale stamp "@);
                lemma_mentions(t, head, code_text(code), " — prov-stale may persist"@);
            }
        },
        CommandView::NotSpawned(why) => {
            let head = "rollout: binstale stamp not available ("@;
            reveal_strlit("rollout: binstale stamp not available (");
            assert(t.take("rollout: binstale stamp "@.len() as int)
                =~= "rollout: binstale stamp "@);
            lemma_mentions(t, head, why, ") — prov-stale may persist"@);
        },
    }
}

/// The ways to restart a daemon are told apart: a unit by its name, the others by a word each.
pub proof fn law_strategy_is_told(unit: Seq<char>)
    ensures
        StrategyView::SystemdUnit(unit).text() == "systemd-unit:"@ + unit,
        StrategyView::AgorabusReload.text() == "agorabus-reload"@,
        StrategyView::SigtermLaunch.text() == "sigterm-launch"@,
        StrategyView::WarmSwap.text() == "warm-swap"@,
{
}

/// What a restart tells as it goes: it names the daemon, and the unit, the pid or the grace period
/// that it is about.
pub proof fn law_restart_tells(s: RestartView, event: RestartEventView)
    ensures
        ({
            let then = s.step(event);
            &&& s.phase == RestartPhase::Unit && then.action is CheckHealth ==> then.lines.len() == 1
                && then.lines[0] is Warn && mentions(
                then.lines[0]->Warn_0,
                s.recipe.name + " via "@ + s.recipe.unit_name()->Some_0,
            )
            &&& s.phase == RestartPhase::Term && then.action is ReadStat ==> then.lines.len() == 1
                && then.lines[0] is Warn && ("SIGTERM to "@ + s.recipe.name + " pid="@ + dec(
                s.old_pid as nat,
            )).is_suffix_of(then.lines[0]->Warn_0)
            &&& then.action is Kill ==> then.lines.len() == 1 && then.lines[0] is Warn && mentions(
                then.lines[0]->Warn_0,
                s.recipe.name + " pid="@ + dec(s.old_pid as nat),
            ) && mentions(then.lines[0]->Warn_0, dec(s.recipe.grace_period_secs) + "s grace"@)
            &&& s.phase == RestartPhase::Launch && then.action is CheckHealth ==> then.lines.len()
                == 1 && then.lines[0] is Warn && mentions(
                then.lines[0]->Warn_0,
                s.recipe.name + " (pid="@ + pid_option(then.state.new_pid) + ")"@,
            )
        }),
{
    reveal(RestartView::step);
    let then = s.step(event);
    let name = s.recipe.name;
    let old = dec(s.old_pid as nat);
    if s.phase == RestartPhase::Unit && then.action is CheckHealth {
        let u = event->UnitRestarted_0->Ok_0;
        let unit = s.recipe.unit_name()->Some_0;
        let part = name + " via "@ + unit;
        let tail = " (path="@ + path_word(u.path) + ")"@;
        let t = then.lines[0]->Warn_0;
        assert(t =~= "rollout: restarted "@ + part + tail);
        lemma_mentions(t, "rollout: restarted "@, part, tail);
    }
    if s.phase == RestartPhase::Term && then.action is ReadStat {
        let t = then.lines[0]->Warn_0;
        let part = "SIGTERM to "@ + name + " pid="@ + old;
        reveal_strlit("rollout: sent SIGTERM to ");
        reveal_strlit("SIGTERM to ");
        assert(t.subrange(t.len() - part.len(), t.len() as int) =~= part);
    }
    if then.action is Kill {
        let t = then.lines[0]->Warn_0;
        let part = name + " pid="@ + old;
        let grace = dec(s.recipe.grace_period_secs);
        let mid = " did not exit after "@;
        let tail = "s grace period; sending SIGKILL"@;
        reveal_strlit("s grace period; sending SIGKILL");
        reveal_strlit("s grace");
        assert(t =~= "rollout: "@ + part + (mid + grace + tail));
        lemma_mentions(t, "rollout: "@, part, mid + grace + tail);
        let before = "rollout: "@ + part + mid;
        assert(t =~= before + (grace + "s grace"@) + tail.skip(7));
        lemma_mentions(t, before, grace + "s grace"@, tail.skip(7));
    }
    if s.phase == RestartPhase::Launch && then.action is CheckHealth {
        let t = then.lines[0]->Warn_0;
        let part = name + " (pid="@ + pid_option(then.state.new_pid) + ")"@;
        assert(t =~= "rollout: launched "@ + part + seq![]);
        lemma_mentions(t, "rollout: launched "@, part, seq![]);
    }
}

/// The model of what happens in a restart: of what was printed for the main process its pid counts;
/// everything else is kept as it is.
pub proof fn law_restart_event_model(event: RestartEvent)
    ensures
        match event {
            RestartEvent::Begin { now_ms } => event@ == (RestartEventView::Begin {
                now_ms: now_ms as nat,
            }),
            RestartEvent::Ran(ran) => event@ == RestartEventView::Ran(ran@),
            RestartEvent::UnitRestarted(Ok(u)) => event@ == RestartEventView::UnitRestarted(Ok(u)),
            RestartEvent::UnitRestarted(Err(e)) => event@ == RestartEventView::UnitRestarted(
                Err(e@),
            ),
            RestartEvent::Signalled(Ok(_)) => event@ == RestartEventView::Signalled(Ok(())),
            RestartEvent::Signalled(Err(why)) => event@ == RestartEventView::Signalled(Err(why@)),
            RestartEvent::Stat { stat: Some(line), elapsed_ms } => event@ == (
            RestartEventView::Stat { stat: Some(line@), elapsed_ms: elapsed_ms as nat }),
            RestartEvent::Stat { stat: None, elapsed_ms } => event@ == (RestartEventView::Stat {
                stat: None,
                elapsed_ms: elapsed_ms as nat,
            }),
            RestartEvent::Launched(Ok(pid)) => event@ == RestartEventView::Launched(Ok(pid)),
            RestartEvent::Launched(Err(why)) => event@ == RestartEventView::Launched(Err(why@)),
            RestartEvent::Checked { passed, elapsed_ms } => event@ == (RestartEventView::Checked {
                passed,
                elapsed_ms: elapsed_ms as nat,
            }),
            RestartEvent::MainPid(Some(printed)) => event@ == RestartEventView::MainPid(
                main_pid(printed@),
            ),
            RestartEvent::MainPid(None) => event@ == RestartEventView::MainPid(None),
            RestartEvent::Exe(Ok(target)) => event@ == RestartEventView::Exe(Ok(target@)),
            RestartEvent::Exe(Err(why)) => event@ == RestartEventView::Exe(Err(why@)),
            RestartEvent::Clock { now_ms } => event@ == (RestartEventView::Clock {
                now_ms: now_ms as nat,
            }),
        },
{
}

/// The model of a result keeps each of its fields.
pub proof fn law_restart_result_model(r: RestartResult)
    ensures
        r@.name == r.name@ && r@.old_pid == r.old_pid && r@.new_pid == r.new_pid && r@.start_ms
            == r.start_ms && r@.end_ms == r.end_ms && r@.success == r.success && r@.sigkill_used
            == r.sigkill_used && r@.restart_path == r.restart_path@,
{
}

/// The executable of a new process is stamped unless it was deleted or cannot be read, which is told
/// with the pid.
pub proof fn law_stamp_decision(pid: u32, link: Result<Seq<char>, Seq<char>>)
    ensures
        match (link, stamp_decision(pid, link)) {
            (Ok(target), StampView::Stamp { exe }) => exe == target && !" (deleted)"@.is_suffix_of(
                target,
            ),
            (Ok(target), StampView::Skip(line)) => " (deleted)"@.is_suffix_of(target) && line is Warn
                && dec(pid as nat).is_suffix_of(line->Warn_0),
            (Err(why), StampView::Skip(line)) => line is Warn && why.is_suffix_of(line->Warn_0)
                && mentions(line->Warn_0, "/proc/"@ + dec(pid as nat) + "/exe"@),
            _ => false,
        },
{
    let number = dec(pid as nat);
    match link {
        Ok(target) => {
            let t = "rollout: stamp skipped — exe already deleted for pid="@ + number;
            assert(t.subrange(t.len() - number.len(), t.len() as int) =~= number);
        },
        Err(why) => {
            let head = "rollout: stamp skipped — could not read /proc/"@;
            let tail = "/exe: "@;
            let t = head + number + tail + why;
            reveal_strlit("rollout: stamp skipped — could not read /proc/");
            reveal_strlit("/proc/");
            reveal_strlit("/exe: ");
            reveal_strlit("/exe");
            let part = "/proc/"@ + number + "/exe"@;
            let start = head.take(head.len() - 6);
            assert(t =~= start + part + (tail.skip(4) + why));
            lemma_mentions(t, start, part, tail.skip(4) + why);
            assert(t.subrange(t.len() - why.len(), t.len() as int) =~= why);
        },
    }
}

/// The models of a restart's outcome and of its strategy keep what they hold.
pub proof fn law_restart_models(r: Result<RestartResult, RolloutError>, strategy: RestartStrategy)
    ensures
        r matches Ok(v) ==> restart_outcome(r) == Ok::<RestartResultView, RolloutErrorView>(v@),
        r matches Err(e) ==> restart_outcome(r) == Err::<RestartResultView, RolloutErrorView>(e@),
        match strategy {
            RestartStrategy::SystemdUnit(unit) => strategy@ == StrategyView::SystemdUnit(unit@),
            RestartStrategy::AgorabusReload => strategy@ is AgorabusReload,
            RestartStrategy::SigtermLaunch => strategy@ is SigtermLaunch,
            RestartStrategy::WarmSwap => strategy@ is WarmSwap,
        },
{
}

/// What could not be signalled or launched ends the restart with an error that names it and says
/// why.
pub proof fn law_restart_says_why(s: RestartView, why: Seq<char>)
    ensures
        s.phase == RestartPhase::Term ==> s.step(RestartEventView::Signalled(Err(why))).action
            == RestartActionView::Finish(
            Err(RolloutErrorView::Signal("SIGTERM "@ + dec(s.old_pid as nat) + ": "@ + why)),
        ),
        s.phase == RestartPhase::Launch ==> s.step(RestartEventView::Launched(Err(why))).action
            == RestartActionView::Finish(
            Err(
                RolloutErrorView::LaunchFailed {
                    name: s.recipe.name,
                    reason: "spawn failed: "@ + why,
                },
            ),
        ),
{
    reveal(RestartView::step);
}

} // verus!
