//! Installing a binary in one step, and restarting the daemon that runs it.

use crate::error::{RolloutError, RolloutErrorView};
use crate::fleet::outcome;
use crate::health::{
    check_window_guard, is_voice, is_voice_daemon, law_window_guard, window_guard, WindowSample,
};
use crate::output::{lemma_lines_push, line_views, Line, LineView};
use crate::paths::{expand_tilde, join_path, law_path_under, path_under, tilde_expanded};
use crate::text::{
    copy_option, debug_form, debug_text, dec, decimal, lemma_mentions, mentions, opt_string, same,
};
use crate::units::{
    daemon_name_from_unit, daemon_of_unit, main_pid, proc_exe_is_current, runs_dest, unit_main_pid,
    unit_result, unit_restart_result, unit_verified, verify_unit, ExeLink, RestartPath,
    UnitRestart, VerifyResult,
};
use vstd::prelude::*;

verus! {

// ---------------------------------------------------------------------------
// Arguments and verdicts
// ---------------------------------------------------------------------------

/// How the verdict is printed.
#[derive(Debug, Clone, Copy, PartialEq, Eq, Structural)]
pub enum OutputFormat {
    Json,
    Table,
}

/// The format that a word names, or why it names none.
pub open spec fn format_named(s: Seq<char>) -> Result<OutputFormat, Seq<char>> {
    if s == "json"@ {
        Ok(OutputFormat::Json)
    } else if s == "table"@ {
        Ok(OutputFormat::Table)
    } else {
        Err("unknown format "@ + debug_form(s) + "; use json or table"@)
    }
}

impl OutputFormat {
    /// The format that a word names, or why it names none.
    pub fn from_str(s: &str) -> (r: Result<OutputFormat, String>)
        ensures
            match r {
                Ok(f) => format_named(s@) == Ok::<OutputFormat, Seq<char>>(f),
                Err(e) => format_named(s@) == Err::<OutputFormat, Seq<char>>(e@),
            },
    {
        if same(s, "json") {
            Ok(OutputFormat::Json)
        } else if same(s, "table") {
            Ok(OutputFormat::Table)
        } else {
            Err(
                "unknown format ".to_owned().concat(debug_text(s).as_str()).concat(
                    "; use json or table",
                ),
            )
        }
    }
}

/// The arguments of an install, as they were given.
#[derive(Debug)]
pub struct InstallCliArgs {
    pub binary: String,
    pub dest: String,
    pub restart_window_secs: u64,
    pub dry_run: bool,
    pub format: String,
}

/// The arguments of an install.
#[derive(Debug)]
pub struct InstallArgs {
    /// The binary to install.
    pub binary: String,
    /// Where it is installed; may begin with `~`.
    pub dest: String,
    /// For how many seconds the bus must be quiet before a voice daemon is restarted.
    pub restart_window_secs: u64,
    /// Whether nothing is written or restarted.
    pub dry_run: bool,
    /// How the verdict is printed.
    pub format: OutputFormat,
}

/// The arguments of an install, checked: only the format can be wrong.
pub fn run_install_cmd(args: &InstallCliArgs) -> (r: Result<InstallArgs, RolloutError>)
    ensures
        match r {
            Ok(a) => {
                &&& format_named(args.format@) == Ok::<OutputFormat, Seq<char>>(a.format)
                &&& a.binary@ == args.binary@
                &&& a.dest@ == args.dest@
                &&& a.restart_window_secs == args.restart_window_secs
                &&& a.dry_run == args.dry_run
            },
            Err(e) => format_named(args.format@) matches Err(why) && e@
                == RolloutErrorView::FleetConfig(why),
        },
{
    match OutputFormat::from_str(args.format.as_str()) {
        Ok(format) => Ok(
            InstallArgs {
                binary: args.binary.clone(),
                dest: args.dest.clone(),
                restart_window_secs: args.restart_window_secs,
                dry_run: args.dry_run,
                format,
            },
        ),
        Err(why) => Err(RolloutError::FleetConfig(why)),
    }
}

/// What an install did.
#[derive(Debug)]
pub struct InstallVerdict {
    pub binary: String,
    pub dest: String,
    pub installed: bool,
    pub unit: Option<String>,
    pub restart_path: RestartPath,
    pub restarted: bool,
    pub verify: VerifyResult,
    pub dry_run: bool,
}

/// The model of an [`InstallVerdict`].
#[verifier::ext_equal]
pub struct InstallVerdictView {
    pub binary: Seq<char>,
    pub dest: Seq<char>,
    pub installed: bool,
    pub unit: Option<Seq<char>>,
    pub restart_path: RestartPath,
    pub restarted: bool,
    pub verify: VerifyResult,
    pub dry_run: bool,
}

impl View for InstallVerdict {
    type V = InstallVerdictView;

    open spec fn view(&self) -> InstallVerdictView {
        InstallVerdictView {
            binary: self.binary@,
            dest: self.dest@,
            installed: self.installed,
            unit: opt_string(self.unit),
            restart_path: self.restart_path,
            restarted: self.restarted,
            verify: self.verify,
            dry_run: self.dry_run,
        }
    }
}

/// `true` or `false`.
pub open spec fn yes_no(b: bool) -> Seq<char> {
    if b {
        "true"@
    } else {
        "false"@
    }
}

fn bool_text(b: bool) -> (r: &'static str)
    ensures
        r@ == yes_no(b),
{
    if b {
        "true"
    } else {
        "false"
    }
}

/// The lines of a verdict's table.
pub open spec fn table_lines(v: InstallVerdictView) -> Seq<LineView> {
    seq![
        LineView::Out("binary        : "@ + v.binary),
        LineView::Out("dest          : "@ + v.dest),
        LineView::Out("installed     : "@ + yes_no(v.installed)),
        LineView::Out(
            "unit          : "@ + (match v.unit {
                Some(u) => u,
                None => "null"@,
            }),
        ),
        LineView::Out("restart_path  : "@ + v.restart_path.word()),
        LineView::Out("restarted     : "@ + yes_no(v.restarted)),
        LineView::Out("verify        : "@ + v.verify.word()),
        LineView::Out("dry_run       : "@ + yes_no(v.dry_run)),
    ]
}

/// The lines of a verdict's table.
pub fn print_table(v: &InstallVerdict) -> (r: Vec<Line>)
    ensures
        line_views(r@) == table_lines(v@),
{
    broadcast use lemma_lines_push;

    let unit = match &v.unit {
        Some(u) => u.as_str(),
        None => "null",
    };
    let mut r: Vec<Line> = Vec::new();
    r.push(Line::Out("binary        : ".to_owned().concat(v.binary.as_str())));
    r.push(Line::Out("dest          : ".to_owned().concat(v.dest.as_str())));
    r.push(Line::Out("installed     : ".to_owned().concat(bool_text(v.installed))));
    r.push(Line::Out("unit          : ".to_owned().concat(unit)));
    r.push(Line::Out("restart_path  : ".to_owned().concat(v.restart_path.to_string().as_str())));
    r.push(Line::Out("restarted     : ".to_owned().concat(bool_text(v.restarted))));
    r.push(Line::Out("verify        : ".to_owned().concat(v.verify.to_string().as_str())));
    r.push(Line::Out("dry_run       : ".to_owned().concat(bool_text(v.dry_run))));
    assert(line_views(r@) =~= table_lines(v@));
    r
}

// ---------------------------------------------------------------------------
// Putting a file in place
// ---------------------------------------------------------------------------

/// The mode of an installed binary.
pub const BINARY_MODE: u32 = 0o755;

/// Where putting a file in place stands.
#[derive(Debug, Clone, Copy, PartialEq, Eq, Structural)]
pub enum PutPhase {
    /// Nothing was done yet.
    Start,
    /// The file is copied beside its place.
    Copy,
    /// The copy gets its mode.
    Mode,
    /// The copy is renamed to its place.
    Rename,
    /// The copy is removed, because it could not be renamed.
    Cleanup,
    /// It is over.
    Done,
}

/// What happened outside since the last step.
#[derive(Debug)]
pub enum PutEvent {
    /// It begins.
    Begin,
    /// What was to be done was done.
    Did,
    /// What was to be done failed, and why.
    Failed(String),
}

/// The model of a [`PutEvent`].
#[verifier::ext_equal]
pub enum PutEventView {
    Begin,
    Did,
    Failed(Seq<char>),
}

impl View for PutEvent {
    type V = PutEventView;

    open spec fn view(&self) -> PutEventView {
        match *self {
            PutEvent::Begin => PutEventView::Begin,
            PutEvent::Did => PutEventView::Did,
            PutEvent::Failed(why) => PutEventView::Failed(why@),
        }
    }
}

/// What is to be done next, and told back as an event.
#[derive(Debug)]
pub enum PutAction {
    /// Copy a file.
    Copy { from: String, to: String },
    /// Set the mode of a file.
    SetMode { path: String, mode: u32 },
    /// Rename a file.
    Rename { from: String, to: String },
    /// Remove a file, if that can be done.
    Remove { path: String },
    /// It is over.
    Finish(Result<(), RolloutError>),
    /// The event does not belong here; nothing changed.
    Ignored,
}

/// The model of a [`PutAction`].
#[verifier::ext_equal]
pub enum PutActionView {
    Copy { from: Seq<char>, to: Seq<char> },
    SetMode { path: Seq<char>, mode: u32 },
    Rename { from: Seq<char>, to: Seq<char> },
    Remove { path: Seq<char> },
    Finish(Result<(), RolloutErrorView>),
    Ignored,
}

impl View for PutAction {
    type V = PutActionView;

    open spec fn view(&self) -> PutActionView {
        match *self {
            PutAction::Copy { from, to } => PutActionView::Copy { from: from@, to: to@ },
            PutAction::SetMode { path, mode } => PutActionView::SetMode { path: path@, mode },
            PutAction::Rename { from, to } => PutActionView::Rename { from: from@, to: to@ },
            PutAction::Remove { path } => PutActionView::Remove { path: path@ },
            PutAction::Finish(r) => PutActionView::Finish(outcome(r)),
            PutAction::Ignored => PutActionView::Ignored,
        }
    }
}

/// The name of the copy that the process `pid` makes in the directory `parent`.
pub open spec fn temp_path(parent: Seq<char>, pid: u32) -> Seq<char> {
    path_under(parent, ".rollout-install-"@ + dec(pid as nat) + ".tmp"@)
}

/// Putting a binary in place.
#[derive(Debug)]
pub struct AtomicInstall {
    src: String,
    dest: String,
    parent: Option<String>,
    pid: u32,
    phase: PutPhase,
    why: String,
}

/// The model of an [`AtomicInstall`].
#[verifier::ext_equal]
pub struct PutView {
    pub src: Seq<char>,
    pub dest: Seq<char>,
    /// The directory of the place, if it has one.
    pub parent: Option<Seq<char>>,
    /// The process that installs.
    pub pid: u32,
    pub phase: PutPhase,
    /// Why the copy could not be renamed.
    pub why: Seq<char>,
}

impl View for AtomicInstall {
    type V = PutView;

    closed spec fn view(&self) -> PutView {
        PutView {
            src: self.src@,
            dest: self.dest@,
            parent: opt_string(self.parent),
            pid: self.pid,
            phase: self.phase,
            why: self.why@,
        }
    }
}

impl PutView {
    /// The copy.
    pub open spec fn temp(self) -> Seq<char> {
        match self.parent {
            Some(parent) => temp_path(parent, self.pid),
            None => seq![],
        }
    }

    /// Another phase, with what is to be done.
    pub open spec fn go(self, phase: PutPhase, action: PutActionView) -> (PutView, PutActionView) {
        (PutView { phase, ..self }, action)
    }

    /// The end, with a failure of the file system.
    pub open spec fn fail(self, text: Seq<char>) -> (PutView, PutActionView) {
        self.go(PutPhase::Done, PutActionView::Finish(Err(RolloutErrorView::Io(text))))
    }

    /// The installation after an event, and what is to be done.
    pub open spec fn step(self, event: PutEventView) -> (PutView, PutActionView) {
        match (self.phase, event) {
            (PutPhase::Start, PutEventView::Begin) => match self.parent {
                Some(parent) => self.go(
                    PutPhase::Copy,
                    PutActionView::Copy { from: self.src, to: self.temp() },
                ),
                None => self.fail("dest has no parent directory: "@ + self.dest),
            },
            (PutPhase::Copy, PutEventView::Did) => self.go(
                PutPhase::Mode,
                PutActionView::SetMode { path: self.temp(), mode: BINARY_MODE },
            ),
            (PutPhase::Copy, PutEventView::Failed(why)) => self.fail(
                "copy "@ + self.src + " → "@ + self.temp() + ": "@ + why,
            ),
            (PutPhase::Mode, PutEventView::Did) => self.go(
                PutPhase::Rename,
                PutActionView::Rename { from: self.temp(), to: self.dest },
            ),
            (PutPhase::Mode, PutEventView::Failed(why)) => self.fail(
                "chmod 0755 "@ + self.temp() + ": "@ + why,
            ),
            (PutPhase::Rename, PutEventView::Did) => self.go(
                PutPhase::Done,
                PutActionView::Finish(Ok(())),
            ),
            (PutPhase::Rename, PutEventView::Failed(why)) => PutView { why, ..self }.go(
                PutPhase::Cleanup,
                PutActionView::Remove { path: self.temp() },
            ),
            (PutPhase::Cleanup, PutEventView::Did) | (PutPhase::Cleanup, PutEventView::Failed(_)) =>
            self.fail("rename "@ + self.temp() + " → "@ + self.dest + ": "@ + self.why),
            _ => self.go(self.phase, PutActionView::Ignored),
        }
    }
}

impl AtomicInstall {
    /// Putting the binary `src` in its place `dest`, whose directory is `parent`, by the
    /// process `pid`, before the first step.
    pub fn new(src: String, dest: String, parent: Option<String>, pid: u32) -> (r: AtomicInstall)
        ensures
            r@ == (PutView {
                src: src@,
                dest: dest@,
                parent: opt_string(parent),
                pid,
                phase: PutPhase::Start,
                why: seq![],
            }),
    {
        let r = AtomicInstall {
            src,
            dest,
            parent,
            pid,
            phase: PutPhase::Start,
            why: String::new(),
        };
        assert(r@.why =~= seq![]);
        r
    }

    fn temp(&self) -> (r: String)
        ensures
            r@ == self@.temp(),
    {
        match &self.parent {
            Some(parent) => join_path(
                parent.as_str(),
                ".rollout-install-".to_owned().concat(decimal(self.pid as u128).as_str()).concat(
                    ".tmp",
                ).as_str(),
            ),
            None => {
                let r = String::new();
                assert(r@ =~= seq![]);
                r
            },
        }
    }

    fn fail(&mut self, text: String) -> (r: PutAction)
        ensures
            (final(self)@, r@) == old(self)@.fail(text@),
    {
        self.phase = PutPhase::Done;
        PutAction::Finish(Err(RolloutError::Io(text)))
    }

    /// Take the next step of the installation.
    pub fn atomic_install(&mut self, event: PutEvent) -> (r: PutAction)
        ensures
            (final(self)@, r@) == old(self)@.step(event@),
    {
        let temp = self.temp();
        match (self.phase, event) {
            (PutPhase::Start, PutEvent::Begin) => {
                if self.parent.is_some() {
                    self.phase = PutPhase::Copy;
                    PutAction::Copy { from: self.src.clone(), to: temp }
                } else {
                    let text = "dest has no parent directory: ".to_owned().concat(
                        self.dest.as_str(),
                    );
                    self.fail(text)
                }
            },
            (PutPhase::Copy, PutEvent::Did) => {
                self.phase = PutPhase::Mode;
                PutAction::SetMode { path: temp, mode: BINARY_MODE }
            },
            (PutPhase::Copy, PutEvent::Failed(why)) => {
                let text = "copy ".to_owned().concat(self.src.as_str()).concat(" → ").concat(
                    temp.as_str(),
                ).concat(": ").concat(why.as_str());
                self.fail(text)
            },
            (PutPhase::Mode, PutEvent::Did) => {
                self.phase = PutPhase::Rename;
                PutAction::Rename { from: temp, to: self.dest.clone() }
            },
            (PutPhase::Mode, PutEvent::Failed(why)) => {
                let text = "chmod 0755 ".to_owned().concat(temp.as_str()).concat(": ").concat(
                    why.as_str(),
                );
                self.fail(text)
            },
            (PutPhase::Rename, PutEvent::Did) => {
                self.phase = PutPhase::Done;
                PutAction::Finish(Ok(()))
            },
            (PutPhase::Rename, PutEvent::Failed(why)) => {
                self.why = why;
                self.phase = PutPhase::Cleanup;
                PutAction::Remove { path: temp }
            },
            (PutPhase::Cleanup, PutEvent::Did) | (PutPhase::Cleanup, PutEvent::Failed(_)) => {
                let text = "rename ".to_owned().concat(temp.as_str()).concat(" → ").concat(
                    self.dest.as_str(),
                ).concat(": ").concat(self.why.as_str());
                self.fail(text)
            },
            _ => PutAction::Ignored,
        }
    }
}

// ---------------------------------------------------------------------------
// The install
// ---------------------------------------------------------------------------

/// Where an install stands.
#[derive(Debug, Clone, Copy, PartialEq, Eq, Structural)]
pub enum InstallPhase {
    /// Nothing was done yet.
    Start,
    /// The binary is put in place.
    Put,
    /// The unit that starts it is looked for.
    Find,
    /// The bus is sampled for voice activity.
    Window,
    /// The unit is restarted.
    Restart,
    /// Whether the unit is active is asked.
    Active,
    /// The unit's main process is asked for.
    MainPid,
    /// That process's executable is looked at.
    Exe,
    /// The install is over.
    Done,
}

/// What happened outside since the last step.
#[derive(Debug)]
pub enum InstallEvent {
    /// The install begins.
    Begin,
    /// The binary was put in place, or why it was not.
    Put(Result<(), RolloutError>),
    /// The unit that starts the binary, if one does, or why it is not known.
    Found(Result<Option<String>, RolloutError>),
    /// The bus was sampled.
    Window(WindowSample),
    /// The unit was restarted, or why it was not.
    Restarted(Result<UnitRestart, RolloutError>),
    /// Whether the unit is active.
    Active(bool),
    /// What `systemctl show` printed of the unit's main process, where it ran.
    MainPid(Option<String>),
    /// The executable of the main process, where it could be read.
    Exe(Option<ExeLink>),
}

/// The model of an [`InstallEvent`].
#[verifier::ext_equal]
pub enum InstallEventView {
    Begin,
    Put(Result<(), RolloutErrorView>),
    Found(Result<Option<Seq<char>>, RolloutErrorView>),
    Window(WindowSample),
    Restarted(Result<UnitRestart, RolloutErrorView>),
    Active(bool),
    MainPid(Option<u32>),
    Exe(bool),
}

impl View for InstallEvent {
    type V = InstallEventView;

    /// Of the main process only its pid counts, and of its executable whether it is the
    /// installed binary.
    open spec fn view(&self) -> InstallEventView {
        match *self {
            InstallEvent::Begin => InstallEventView::Begin,
            InstallEvent::Put(r) => InstallEventView::Put(outcome(r)),
            InstallEvent::Found(r) => InstallEventView::Found(unit_result(r)),
            InstallEvent::Window(sample) => InstallEventView::Window(sample),
            InstallEvent::Restarted(r) => InstallEventView::Restarted(unit_restart_result(r)),
            InstallEvent::Active(active) => InstallEventView::Active(active),
            InstallEvent::MainPid(stdout) => InstallEventView::MainPid(
                match opt_string(stdout) {
                    Some(s) => main_pid(s),
                    None => None,
                },
            ),
            InstallEvent::Exe(link) => InstallEventView::Exe(runs_dest(link)),
        }
    }
}

/// What is to be done next, and told back as an event.
#[derive(Debug)]
pub enum InstallAction {
    /// Put the binary in place.
    Put { src: String, dest: String },
    /// Find the unit that starts the binary.
    FindUnit { dest: String },
    /// Sample the bus for voice activity.
    SampleWindow { secs: u64 },
    /// Restart the unit.
    RestartUnit { unit: String },
    /// Ask whether the unit is active.
    AskActive { unit: String },
    /// Ask for the unit's main process.
    AskMainPid { unit: String },
    /// Look at the executable of a process.
    ReadExe { pid: u32 },
    /// The install is over.
    Finish(Result<InstallVerdict, RolloutError>),
    /// The event does not belong here; nothing changed.
    Ignored,
}

/// The model of an [`InstallAction`].
#[verifier::ext_equal]
pub enum InstallActionView {
    Put { src: Seq<char>, dest: Seq<char> },
    FindUnit { dest: Seq<char> },
    SampleWindow { secs: u64 },
    RestartUnit { unit: Seq<char> },
    AskActive { unit: Seq<char> },
    AskMainPid { unit: Seq<char> },
    ReadExe { pid: u32 },
    Finish(Result<InstallVerdictView, RolloutErrorView>),
    Ignored,
}

/// A verdict or an error, as models.
pub open spec fn verdict_result(r: Result<InstallVerdict, RolloutError>) -> Result<
    InstallVerdictView,
    RolloutErrorView,
> {
    match r {
        Ok(v) => Ok(v@),
        Err(e) => Err(e@),
    }
}

impl View for InstallAction {
    type V = InstallActionView;

    open spec fn view(&self) -> InstallActionView {
        match *self {
            InstallAction::Put { src, dest } => InstallActionView::Put { src: src@, dest: dest@ },
            InstallAction::FindUnit { dest } => InstallActionView::FindUnit { dest: dest@ },
            InstallAction::SampleWindow { secs } => InstallActionView::SampleWindow { secs },
            InstallAction::RestartUnit { unit } => InstallActionView::RestartUnit { unit: unit@ },
            InstallAction::AskActive { unit } => InstallActionView::AskActive { unit: unit@ },
            InstallAction::AskMainPid { unit } => InstallActionView::AskMainPid { unit: unit@ },
            InstallAction::ReadExe { pid } => InstallActionView::ReadExe { pid },
            InstallAction::Finish(r) => InstallActionView::Finish(verdict_result(r)),
            InstallAction::Ignored => InstallActionView::Ignored,
        }
    }
}

/// An install.
#[derive(Debug)]
pub struct InstallRun {
    binary: String,
    dest: String,
    restart_window_secs: u64,
    dry_run: bool,
    home: Option<String>,
    phase: InstallPhase,
    unit: Option<String>,
    restart_path: RestartPath,
}

/// The model of an [`InstallRun`].
#[verifier::ext_equal]
pub struct InstallView {
    pub binary: Seq<char>,
    /// Where the binary goes; with `~` resolved once the install has begun.
    pub dest: Seq<char>,
    pub restart_window_secs: u64,
    pub dry_run: bool,
    pub home: Option<Seq<char>>,
    pub phase: InstallPhase,
    /// The unit that starts the binary, once it is found.
    pub unit: Option<Seq<char>>,
    /// How the unit was restarted, once it is.
    pub restart_path: RestartPath,
}

impl View for InstallRun {
    type V = InstallView;

    closed spec fn view(&self) -> InstallView {
        InstallView {
            binary: self.binary@,
            dest: self.dest@,
            restart_window_secs: self.restart_window_secs,
            dry_run: self.dry_run,
            home: opt_string(self.home),
            phase: self.phase,
            unit: opt_string(self.unit),
            restart_path: self.restart_path,
        }
    }
}

/// An install of the given terms, before its first step.
pub open spec fn install_begun(
    binary: Seq<char>,
    dest: Seq<char>,
    window_secs: u64,
    dry_run: bool,
    home: Option<Seq<char>>,
) -> InstallView {
    InstallView {
        binary,
        dest,
        restart_window_secs: window_secs,
        dry_run,
        home,
        phase: InstallPhase::Start,
        unit: None,
        restart_path: RestartPath::NoRestart,
    }
}

impl InstallView {
    /// Another phase, with what is to be done.
    pub open spec fn go(self, phase: InstallPhase, action: InstallActionView) -> (
        InstallView,
        InstallActionView,
    ) {
        (InstallView { phase, ..self }, action)
    }

    /// The end, with an error.
    pub open spec fn fail(self, e: RolloutErrorView) -> (InstallView, InstallActionView) {
        self.go(InstallPhase::Done, InstallActionView::Finish(Err(e)))
    }

    /// The last step; unless it is a dry run, the binary is in place.
    pub open spec fn end(self, restarted: bool, verify: VerifyResult) -> (
        InstallView,
        InstallActionView,
    ) {
        self.go(
            InstallPhase::Done,
            InstallActionView::Finish(
                Ok(
                    InstallVerdictView {
                        binary: self.binary,
                        dest: self.dest,
                        installed: !self.dry_run,
                        unit: self.unit,
                        restart_path: self.restart_path,
                        restarted,
                        verify,
                        dry_run: self.dry_run,
                    },
                ),
            ),
        )
    }

    /// The unit's name; empty where none was found.
    pub open spec fn unit_name(self) -> Seq<char> {
        match self.unit {
            Some(u) => u,
            None => seq![],
        }
    }

    /// The install after an event, and what is to be done.
    #[verifier::opaque]
    pub open spec fn step(self, event: InstallEventView) -> (InstallView, InstallActionView) {
        match (self.phase, event) {
            (InstallPhase::Start, InstallEventView::Begin) => match tilde_expanded(
                self.dest,
                self.home,
            ) {
                Ok(dest) => {
                    let begun = InstallView { dest, ..self };
                    if self.dry_run {
                        begun.go(InstallPhase::Find, InstallActionView::FindUnit { dest })
                    } else {
                        begun.go(
                            InstallPhase::Put,
                            InstallActionView::Put { src: self.binary, dest },
                        )
                    }
                },
                Err(e) => self.fail(e),
            },
            (InstallPhase::Put, InstallEventView::Put(put)) => match put {
                Ok(_) => self.go(
                    InstallPhase::Find,
                    InstallActionView::FindUnit { dest: self.dest },
                ),
                Err(e) => self.fail(e),
            },
            (InstallPhase::Find, InstallEventView::Found(found)) => match found {
                Ok(unit) => {
                    let known = InstallView { unit, ..self };
                    match unit {
                        Some(u) => if self.dry_run {
                            known.end(false, VerifyResult::Skipped)
                        } else if is_voice(daemon_of_unit(u)) {
                            known.go(
                                InstallPhase::Window,
                                InstallActionView::SampleWindow { secs: self.restart_window_secs },
                            )
                        } else {
                            known.go(
                                InstallPhase::Restart,
                                InstallActionView::RestartUnit { unit: u },
                            )
                        },
                        None => known.end(false, VerifyResult::Skipped),
                    }
                },
                Err(e) => self.fail(e),
            },
            (InstallPhase::Window, InstallEventView::Window(sample)) => match window_guard(
                daemon_of_unit(self.unit_name()),
                sample,
            ) {
                Ok(_) => self.go(
                    InstallPhase::Restart,
                    InstallActionView::RestartUnit { unit: self.unit_name() },
                ),
                Err(e) => self.fail(e),
            },
            (InstallPhase::Restart, InstallEventView::Restarted(restarted)) => match restarted {
                Ok(u) => {
                    let done = InstallView { restart_path: u.path, ..self };
                    if u.restarted {
                        done.go(
                            InstallPhase::Active,
                            InstallActionView::AskActive { unit: self.unit_name() },
                        )
                    } else {
                        done.end(false, VerifyResult::Skipped)
                    }
                },
                Err(e) => self.fail(e),
            },
            (InstallPhase::Active, InstallEventView::Active(active)) => if active
                && self.restart_path != RestartPath::AgorabuReload {
                self.go(
                    InstallPhase::MainPid,
                    InstallActionView::AskMainPid { unit: self.unit_name() },
                )
            } else {
                self.end(true, unit_verified(active, self.restart_path, None))
            },
            (InstallPhase::MainPid, InstallEventView::MainPid(pid)) => match pid {
                Some(p) => self.go(InstallPhase::Exe, InstallActionView::ReadExe { pid: p }),
                None => self.end(true, unit_verified(true, self.restart_path, None)),
            },
            (InstallPhase::Exe, InstallEventView::Exe(current)) => self.end(
                true,
                unit_verified(true, self.restart_path, Some(current)),
            ),
            _ => self.go(self.phase, InstallActionView::Ignored),
        }
    }
}

impl InstallRun {
    /// An install, before its first step.
    pub fn new(args: &InstallArgs, home: Option<String>) -> (r: InstallRun)
        ensures
            r@ == install_begun(
                args.binary@,
                args.dest@,
                args.restart_window_secs,
                args.dry_run,
                opt_string(home),
            ),
    {
        InstallRun {
            binary: args.binary.clone(),
            dest: args.dest.clone(),
            restart_window_secs: args.restart_window_secs,
            dry_run: args.dry_run,
            home,
            phase: InstallPhase::Start,
            unit: None,
            restart_path: RestartPath::NoRestart,
        }
    }

    fn fail(&mut self, e: RolloutError) -> (r: InstallAction)
        ensures
            (final(self)@, r@) == old(self)@.fail(e@),
    {
        self.phase = InstallPhase::Done;
        InstallAction::Finish(Err(e))
    }

    fn end(&mut self, restarted: bool, verify: VerifyResult) -> (r: InstallAction)
        ensures
            (final(self)@, r@) == old(self)@.end(restarted, verify),
    {
        self.phase = InstallPhase::Done;
        InstallAction::Finish(
            Ok(
                InstallVerdict {
                    binary: self.binary.clone(),
                    dest: self.dest.clone(),
                    installed: !self.dry_run,
                    unit: copy_option(&self.unit),
                    restart_path: self.restart_path,
                    restarted,
                    verify,
                    dry_run: self.dry_run,
                },
            ),
        )
    }

    fn unit_name(&self) -> (r: String)
        ensures
            r@ == self@.unit_name(),
    {
        match &self.unit {
            Some(u) => u.clone(),
            None => {
                let r = String::new();
                assert(r@ =~= seq![]);
                r
            },
        }
    }

    fn begin(&mut self) -> (r: InstallAction)
        requires
            old(self)@.phase == InstallPhase::Start,
        ensures
            (final(self)@, r@) == old(self)@.step(InstallEventView::Begin),
    {
        proof {
            reveal(InstallView::step);
        }
        let home = match &self.home {
            Some(h) => Some(h.as_str()),
            None => None,
        };
        match expand_tilde(self.dest.as_str(), home) {
            Ok(dest) => {
                self.dest = dest;
                if self.dry_run {
                    self.phase = InstallPhase::Find;
                    InstallAction::FindUnit { dest: self.dest.clone() }
                } else {
                    self.phase = InstallPhase::Put;
                    InstallAction::Put { src: self.binary.clone(), dest: self.dest.clone() }
                }
            },
            Err(e) => self.fail(e),
        }
    }

    fn found(&mut self, found: Result<Option<String>, RolloutError>) -> (r: InstallAction)
        requires
            old(self)@.phase == InstallPhase::Find,
        ensures
            (final(self)@, r@) == old(self)@.step(InstallEventView::Found(unit_result(found))),
    {
        proof {
            reveal(InstallView::step);
        }
        match found {
            Ok(unit) => {
                self.unit = unit;
                if self.dry_run || self.unit.is_none() {
                    return self.end(false, VerifyResult::Skipped);
                }
                let name = self.unit_name();
                if is_voice_daemon(daemon_name_from_unit(name.as_str()).as_str()) {
                    self.phase = InstallPhase::Window;
                    InstallAction::SampleWindow { secs: self.restart_window_secs }
                } else {
                    self.phase = InstallPhase::Restart;
                    InstallAction::RestartUnit { unit: name }
                }
            },
            Err(e) => self.fail(e),
        }
    }

    /// Take the next step of the install.
    pub fn do_install(&mut self, event: InstallEvent) -> (r: InstallAction)
        ensures
            (final(self)@, r@) == old(self)@.step(event@),
    {
        proof {
            reveal(InstallView::step);
        }
        match (self.phase, event) {
            (InstallPhase::Start, InstallEvent::Begin) => self.begin(),
            (InstallPhase::Put, InstallEvent::Put(put)) => {
                match put {
                    Ok(_) => {
                        self.phase = InstallPhase::Find;
                        InstallAction::FindUnit { dest: self.dest.clone() }
                    },
                    Err(e) => self.fail(e),
                }
            },
            (InstallPhase::Find, InstallEvent::Found(found)) => self.found(found),
            (InstallPhase::Window, InstallEvent::Window(sample)) => {
                let name = self.unit_name();
                match check_window_guard(daemon_name_from_unit(name.as_str()).as_str(), sample) {
                    Ok(_) => {
                        self.phase = InstallPhase::Restart;
                        InstallAction::RestartUnit { unit: name }
                    },
                    Err(e) => self.fail(e),
                }
            },
            (InstallPhase::Restart, InstallEvent::Restarted(restarted)) => {
                match restarted {
                    Ok(u) => {
                        self.restart_path = u.path;
                        if u.restarted {
                            self.phase = InstallPhase::Active;
                            InstallAction::AskActive { unit: self.unit_name() }
                        } else {
                            self.end(false, VerifyResult::Skipped)
                        }
                    },
                    Err(e) => self.fail(e),
                }
            },
            (InstallPhase::Active, InstallEvent::Active(active)) => {
                if active && self.restart_path != RestartPath::AgorabuReload {
                    self.phase = InstallPhase::MainPid;
                    InstallAction::AskMainPid { unit: self.unit_name() }
                } else {
                    let verify = verify_unit(active, self.restart_path, None);
                    self.end(true, verify)
                }
            },
            (InstallPhase::MainPid, InstallEvent::MainPid(stdout)) => {
                let text = match &stdout {
                    Some(s) => Some(s.as_str()),
                    None => None,
                };
                match unit_main_pid(text) {
                    Some(pid) => {
                        self.phase = InstallPhase::Exe;
                        InstallAction::ReadExe { pid }
                    },
                    None => {
                        let verify = verify_unit(true, self.restart_path, None);
                        self.end(true, verify)
                    },
                }
            },
            (InstallPhase::Exe, InstallEvent::Exe(link)) => {
                let verify = verify_unit(
                    true,
                    self.restart_path,
                    Some(proc_exe_is_current(&link)),
                );
                self.end(true, verify)
            },
            _ => InstallAction::Ignored,
        }
    }
}

// ---------------------------------------------------------------------------
// Laws
// ---------------------------------------------------------------------------

/// Putting a file in place after the given events.
pub open spec fn put_after(s: PutView, events: Seq<PutEventView>) -> PutView
    decreases events.len(),
{
    if events.len() == 0 {
        s
    } else {
        put_after(s, events.drop_last()).step(events.last()).0
    }
}

/// What is to be done after the event with the number `k`.
pub open spec fn put_action(s: PutView, events: Seq<PutEventView>, k: int) -> PutActionView {
    put_after(s, events.take(k)).step(events[k]).1
}

proof fn lemma_put(s: PutView, events: Seq<PutEventView>)
    requires
        s.phase == PutPhase::Start,
    ensures
        ({
            let now = put_after(s, events);
            &&& now.src == s.src && now.dest == s.dest && now.parent == s.parent && now.pid
                == s.pid
            &&& now.phase != PutPhase::Start && now.phase != PutPhase::Done ==> s.parent is Some
        }),
    decreases events.len(),
{
    if events.len() > 0 {
        lemma_put(s, events.drop_last());
    }
}

/// The place itself is touched in one way only: a finished copy is renamed to it. Every other
/// write goes to the copy, and the copy is renamed only once it was written whole and has its
/// mode.
pub proof fn law_place_changes_by_rename(s: PutView, events: Seq<PutEventView>, k: int)
    requires
        s.phase == PutPhase::Start,
        0 <= k < events.len(),
    ensures
        match put_action(s, events, k) {
            PutActionView::Copy { from, to } => from == s.src && to == s.temp(),
            PutActionView::SetMode { path, mode } => path == s.temp() && mode == 0o755
                && events[k] is Did && put_after(s, events.take(k)).phase == PutPhase::Copy,
            PutActionView::Rename { from, to } => from == s.temp() && to == s.dest
                && events[k] is Did && put_after(s, events.take(k)).phase == PutPhase::Mode,
            PutActionView::Remove { path } => path == s.temp(),
            PutActionView::Finish(r) => r is Ok ==> events[k] is Did && put_after(
                s,
                events.take(k),
            ).phase == PutPhase::Rename,
            PutActionView::Ignored => true,
        },
{
    lemma_put(s, events.take(k));
}

/// The copy lies in the directory of its place.
pub proof fn law_copy_beside_place(parent: Seq<char>, pid: u32)
    ensures
        parent.is_prefix_of(temp_path(parent, pid)),
{
    reveal_strlit(".rollout-install-");
    reveal_strlit("/");
    let name = ".rollout-install-"@ + dec(pid as nat) + ".tmp"@;
    assert(name[0] == '.');
    assert("/"@[0] == '/');
}

/// The install after the given events.
pub open spec fn install_after(s: InstallView, events: Seq<InstallEventView>) -> InstallView
    decreases events.len(),
{
    if events.len() == 0 {
        s
    } else {
        install_after(s, events.drop_last()).step(events.last()).0
    }
}

proof fn lemma_install_step(s: InstallView, event: InstallEventView)
    ensures
        ({
            let next = s.step(event).0;
            let action = s.step(event).1;
            &&& next.dry_run == s.dry_run && next.binary == s.binary
            &&& !s.dry_run && next.phase != s.phase ==> next.phase == InstallPhase::Put
                || next.phase == InstallPhase::Done || s.phase == InstallPhase::Put && is_put(event)
                || s.phase != InstallPhase::Start && s.phase != InstallPhase::Put && s.phase
                != InstallPhase::Done
            &&& s.dry_run && (s.phase == InstallPhase::Start || s.phase == InstallPhase::Find
                || s.phase == InstallPhase::Done) && s.restart_path == RestartPath::NoRestart ==> (
            next.phase == InstallPhase::Start || next.phase == InstallPhase::Find || next.phase
                == InstallPhase::Done) && next.restart_path == RestartPath::NoRestart
            &&& s.dry_run && (s.phase == InstallPhase::Start || s.phase == InstallPhase::Find
                || s.phase == InstallPhase::Done) ==> action is FindUnit || action is Finish
                || action is Ignored
            &&& action is RestartUnit ==> next.unit is Some || s.phase == InstallPhase::Window
            &&& action is RestartUnit && is_voice(daemon_of_unit(action->RestartUnit_unit)) ==> (
            event matches InstallEventView::Window(sample) && !(sample is Active))
        }),
{
    reveal(InstallView::step);
}

proof fn lemma_dry_run(s: InstallView, events: Seq<InstallEventView>)
    requires
        s.phase == InstallPhase::Start,
        s.dry_run,
        s.restart_path == RestartPath::NoRestart,
    ensures
        ({
            let now = install_after(s, events);
            &&& now.dry_run
            &&& now.restart_path == RestartPath::NoRestart
            &&& now.phase == InstallPhase::Start || now.phase == InstallPhase::Find || now.phase
                == InstallPhase::Done
        }),
    decreases events.len(),
{
    if events.len() > 0 {
        lemma_dry_run(s, events.drop_last());
        lemma_install_step(install_after(s, events.drop_last()), events.last());
    }
}

/// A dry run writes nothing and restarts nothing: all it does is look for the unit, and its
/// verdict says so.
pub proof fn law_dry_run_touches_nothing(
    s: InstallView,
    events: Seq<InstallEventView>,
    next: InstallEventView,
)
    requires
        s.phase == InstallPhase::Start,
        s.dry_run,
        s.restart_path == RestartPath::NoRestart,
    ensures
        match install_after(s, events).step(next).1 {
            InstallActionView::FindUnit { dest } => true,
            InstallActionView::Ignored => true,
            InstallActionView::Finish(r) => r matches Ok(v) ==> !v.installed && !v.restarted
                && v.dry_run && v.restart_path == RestartPath::NoRestart && v.verify
                == VerifyResult::Skipped,
            _ => false,
        },
{
    lemma_dry_run(s, events);
    lemma_install_step(install_after(s, events), next);
    reveal(InstallView::step);
}

/// A binary that no unit starts is installed, and nothing is restarted.
pub proof fn law_no_unit_no_restart(s: InstallView)
    requires
        s.phase == InstallPhase::Find,
        s.restart_path == RestartPath::NoRestart,
    ensures
        s.step(InstallEventView::Found(Ok(None))).1 == InstallActionView::Finish(
            Ok(
                InstallVerdictView {
                    binary: s.binary,
                    dest: s.dest,
                    installed: !s.dry_run,
                    unit: None,
                    restart_path: RestartPath::NoRestart,
                    restarted: false,
                    verify: VerifyResult::Skipped,
                    dry_run: s.dry_run,
                },
            ),
        ),
{
    reveal(InstallView::step);
}

/// The unit of a voice daemon is restarted only after the bus was sampled and no voice
/// activity was heard.
pub proof fn law_voice_unit_waits_for_quiet(s: InstallView, event: InstallEventView)
    ensures
        s.step(event).1 matches InstallActionView::RestartUnit { unit } ==> (is_voice(
            daemon_of_unit(unit),
        ) ==> (event matches InstallEventView::Window(sample) && !(sample is Active))),
{
    lemma_install_step(s, event);
}

/// Whether the binary was put in place within the first `n` events.
pub open spec fn put_within(s: InstallView, events: Seq<InstallEventView>, n: int) -> bool {
    exists|i: int|
        0 <= i < n && #[trigger] came_at_put(s, events, i) && is_put(events[i])
}

/// Whether an event says that the binary was put in place.
pub open spec fn is_put(event: InstallEventView) -> bool {
    event matches InstallEventView::Put(put) && put is Ok
}

/// Whether the event with the number `i` came while the binary was put in place.
pub open spec fn came_at_put(s: InstallView, events: Seq<InstallEventView>, i: int) -> bool {
    install_after(s, events.take(i)).phase == InstallPhase::Put
}

proof fn lemma_put_first(s: InstallView, events: Seq<InstallEventView>)
    requires
        s.phase == InstallPhase::Start,
        !s.dry_run,
    ensures
        ({
            let now = install_after(s, events);
            &&& !now.dry_run
            &&& now.phase == InstallPhase::Start || now.phase == InstallPhase::Put || now.phase
                == InstallPhase::Done || put_within(s, events, events.len() as int)
        }),
    decreases events.len(),
{
    if events.len() > 0 {
        let before = events.drop_last();
        let n = before.len() as int;
        let was = install_after(s, before);
        lemma_put_first(s, before);
        assert(events.take(n) =~= before);
        if put_within(s, before, n) {
            let i = choose|i: int|
                0 <= i < n && #[trigger] came_at_put(s, before, i) && is_put(before[i]);
            assert(events.take(i) =~= before.take(i));
            assert(came_at_put(s, events, i));
        }
        if was.phase == InstallPhase::Put && is_put(events.last()) {
            assert(came_at_put(s, events, n));
        }
        lemma_install_step(was, events.last());
    }
}

/// Nothing is restarted before the binary was put in place, and a verdict that says so is given
/// only then.
pub proof fn law_put_before_restart(
    s: InstallView,
    events: Seq<InstallEventView>,
    next: InstallEventView,
)
    requires
        s.phase == InstallPhase::Start,
        !s.dry_run,
    ensures
        ({
            let action = install_after(s, events).step(next).1;
            let n = events.len() as int;
            &&& action is RestartUnit ==> put_within(s, events, n)
            &&& (action matches InstallActionView::Finish(r) ==> (r matches Ok(v) ==> v.installed
                && put_within(s, events, n)))
        }),
{
    lemma_put_first(s, events);
    reveal(InstallView::step);
}

/// Whether an event tells what came of an action.
pub open spec fn answers(action: InstallActionView, event: InstallEventView) -> bool {
    match action {
        InstallActionView::Put { .. } => event is Put,
        InstallActionView::FindUnit { .. } => event is Found,
        InstallActionView::SampleWindow { .. } => event is Window,
        InstallActionView::RestartUnit { .. } => event is Restarted,
        InstallActionView::AskActive { .. } => event is Active,
        InstallActionView::AskMainPid { .. } => event is MainPid,
        InstallActionView::ReadExe { .. } => event is Exe,
        InstallActionView::Finish(_) => false,
        InstallActionView::Ignored => false,
    }
}

/// Whether an event is of the kind that a phase waits for.
spec fn takes(phase: InstallPhase, event: InstallEventView) -> bool {
    match phase {
        InstallPhase::Start => event is Begin,
        InstallPhase::Put => event is Put,
        InstallPhase::Find => event is Found,
        InstallPhase::Window => event is Window,
        InstallPhase::Restart => event is Restarted,
        InstallPhase::Active => event is Active,
        InstallPhase::MainPid => event is MainPid,
        InstallPhase::Exe => event is Exe,
        InstallPhase::Done => false,
    }
}

proof fn lemma_answer_taken(s: InstallView, event: InstallEventView, answer: InstallEventView)
    requires
        answers(s.step(event).1, answer),
    ensures
        takes(s.step(event).0.phase, answer),
{
    reveal(InstallView::step);
}

proof fn lemma_taken(s: InstallView, event: InstallEventView)
    requires
        takes(s.phase, event),
    ensures
        !(s.step(event).1 is Ignored),
{
    reveal(InstallView::step);
}

/// An install is never stuck: it begins when it is told to, and whatever came of an action
/// moves it on.
pub proof fn law_install_never_stuck(
    s: InstallView,
    event: InstallEventView,
    answer: InstallEventView,
)
    ensures
        s.phase == InstallPhase::Start && event is Begin ==> !(s.step(event).1 is Ignored),
        answers(s.step(event).1, answer) ==> !(s.step(event).0.step(answer).1 is Ignored),
{
    if s.phase == InstallPhase::Start && event is Begin {
        lemma_taken(s, event);
    }
    if answers(s.step(event).1, answer) {
        lemma_answer_taken(s, event, answer);
        lemma_taken(s.step(event).0, answer);
    }
}

/// Putting a file in place is never stuck: it begins when it is told to, and whatever came of
/// an action, well or badly, moves it on.
pub proof fn law_put_never_stuck(s: PutView, event: PutEventView, answer: PutEventView)
    requires
        !(answer is Begin),
    ensures
        s.phase == PutPhase::Start && event is Begin ==> !(s.step(event).1 is Ignored),
        !(s.step(event).1 is Finish) && !(s.step(event).1 is Ignored) ==> !(s.step(event).0.step(
            answer,
        ).1 is Ignored),
{
}

/// The copy is named after the process that makes it, so that two installs do not share one.
pub proof fn law_copy_named_after_process(parent: Seq<char>, pid: u32)
    ensures
        (".rollout-install-"@ + dec(pid as nat) + ".tmp"@).is_suffix_of(temp_path(parent, pid)),
{
    reveal_strlit(".rollout-install-");
    reveal_strlit("/");
    let name = ".rollout-install-"@ + dec(pid as nat) + ".tmp"@;
    assert(name[0] == '.');
    assert("/"@[0] == '/');
    law_path_under(parent, name);
}

/// What follows what came of an action while a file is put in place. It is copied, then gets its
/// mode, then is renamed, and that is the end of it. A copy, a mode or a rename that fails ends it
/// with an error that says why; where it was the rename, the copy is removed before, whatever comes
/// of that. A place without a directory fails at once.
pub proof fn law_put_goes_on(s: PutView, event: PutEventView, answer: PutEventView)
    ensures
        ({
            let first = s.step(event);
            let then = first.0.step(answer);
            let failed = |why: Seq<char>|
                then.1 matches PutActionView::Finish(r) && (r matches Err(e) && e is Io
                    && why.is_suffix_of(e->Io_0));
            &&& s.phase == PutPhase::Start && event is Begin ==> if s.parent is Some {
                first.1 is Copy
            } else {
                first.1 matches PutActionView::Finish(r) && (r matches Err(e) && e is Io
                    && s.dest.is_suffix_of(e->Io_0))
            }
            &&& first.1 is Copy ==> match answer {
                PutEventView::Did => then.1 is SetMode,
                PutEventView::Failed(why) => failed(why),
                PutEventView::Begin => then.1 is Ignored,
            }
            &&& first.1 is SetMode ==> match answer {
                PutEventView::Did => then.1 is Rename,
                PutEventView::Failed(why) => failed(why),
                PutEventView::Begin => then.1 is Ignored,
            }
            &&& first.1 is Rename ==> match answer {
                PutEventView::Did => then.1 == PutActionView::Finish(Ok(())),
                PutEventView::Failed(why) => then.1 is Remove && then.0.why == why,
                PutEventView::Begin => then.1 is Ignored,
            }
            &&& first.1 is Remove && !(answer is Begin) ==> failed(first.0.why)
        }),
{
    let first = s.step(event);
    if let PutEventView::Failed(why) = answer {
        lemma_ends(
            "copy "@ + first.0.src + " → "@ + first.0.temp() + ": "@,
            why,
        );
        lemma_ends("chmod 0755 "@ + first.0.temp() + ": "@, why);
    }
    lemma_ends("rename "@ + first.0.temp() + " → "@ + first.0.dest + ": "@, first.0.why);
    lemma_ends("dest has no parent directory: "@, s.dest);
}

proof fn lemma_ends(head: Seq<char>, tail: Seq<char>)
    ensures
        tail.is_suffix_of(head + tail),
{
    let t = head + tail;
    assert(t.subrange(t.len() - tail.len(), t.len() as int) =~= tail);
}

/// Whether the event with the number `i` says that `unit` starts the binary, in answer to the search
/// for it.
pub open spec fn heard_unit(
    s: InstallView,
    events: Seq<InstallEventView>,
    i: int,
    unit: Seq<char>,
) -> bool {
    install_after(s, events.take(i)).phase == InstallPhase::Find && events[i]
        == InstallEventView::Found(Ok(Some(unit)))
}

/// Whether a phase comes only once a unit was found.
pub open spec fn has_unit(phase: InstallPhase) -> bool {
    phase == InstallPhase::Window || phase == InstallPhase::Restart || phase == InstallPhase::Active
        || phase == InstallPhase::MainPid || phase == InstallPhase::Exe
}

proof fn lemma_install_terms(s: InstallView, events: Seq<InstallEventView>)
    requires
        s.phase == InstallPhase::Start,
        s.unit is None,
        s.restart_path == RestartPath::NoRestart,
    ensures
        ({
            let now = install_after(s, events);
            let n = events.len() as int;
            &&& now.binary == s.binary && now.home == s.home && now.dry_run == s.dry_run
                && now.restart_window_secs == s.restart_window_secs
            &&& now.phase == InstallPhase::Start ==> now.dest == s.dest
            &&& now.phase != InstallPhase::Start && now.phase != InstallPhase::Done
                ==> tilde_expanded(s.dest, s.home) == Ok::<Seq<char>, RolloutErrorView>(now.dest)
            &&& has_unit(now.phase) ==> now.unit is Some && !now.dry_run
            &&& now.phase == InstallPhase::Start || now.phase == InstallPhase::Put || now.phase
                == InstallPhase::Find ==> now.unit is None && now.restart_path
                == RestartPath::NoRestart
            &&& now.phase == InstallPhase::Window || now.phase == InstallPhase::Restart
                ==> now.restart_path == RestartPath::NoRestart
            &&& now.unit matches Some(u) ==> exists|i: int|
                0 <= i < n && #[trigger] heard_unit(s, events, i, u)
        }),
    decreases events.len(),
{
    if events.len() > 0 {
        let before = events.drop_last();
        let m = before.len() as int;
        let was = install_after(s, before);
        let now = install_after(s, events);
        lemma_install_terms(s, before);
        assert(events.take(m) =~= before);
        assert forall|i: int, u: Seq<char>| 0 <= i < m implies #[trigger] heard_unit(s, events, i, u)
            == heard_unit(s, before, i, u) by {
            assert(events.take(i) =~= before.take(i));
        }
        reveal(InstallView::step);
        if let Some(u) = now.unit {
            if was.unit == now.unit {
                let i = choose|i: int| 0 <= i < m && #[trigger] heard_unit(s, before, i, u);
                assert(heard_unit(s, events, i, u));
            } else {
                assert(heard_unit(s, events, m, u));
            }
        }
    }
}

/// Every action of an install is on the terms that it was made with. The given binary is put at the
/// given place, with `~` resolved, and that place is what the search for a unit is about. The unit
/// that is restarted, and every unit that is asked about afterwards, is the one that the search
/// found. The bus is sampled for the given time, and the executable that is looked at is that of the
/// main process that was named.
pub proof fn law_install_by_its_terms(
    binary: Seq<char>,
    dest: Seq<char>,
    window_secs: u64,
    dry_run: bool,
    home: Option<Seq<char>>,
    events: Seq<InstallEventView>,
    k: int,
)
    requires
        0 <= k < events.len(),
    ensures
        ({
            let s = install_begun(binary, dest, window_secs, dry_run, home);
            let found = |unit: Seq<char>|
                exists|i: int| 0 <= i <= k && #[trigger] heard_unit(s, events, i, unit);
            match install_after(s, events.take(k)).step(events[k]).1 {
                InstallActionView::Put { src, dest: place } => src == binary && tilde_expanded(
                    dest,
                    home,
                ) == Ok::<Seq<char>, RolloutErrorView>(place),
                InstallActionView::FindUnit { dest: place } => tilde_expanded(dest, home) == Ok::<
                    Seq<char>,
                    RolloutErrorView,
                >(place),
                InstallActionView::SampleWindow { secs } => secs == window_secs,
                InstallActionView::RestartUnit { unit } => found(unit),
                InstallActionView::AskActive { unit } => found(unit),
                InstallActionView::AskMainPid { unit } => found(unit),
                InstallActionView::ReadExe { pid } => events[k] == InstallEventView::MainPid(
                    Some(pid),
                ),
                InstallActionView::Finish(r) => r matches Ok(v) ==> {
                    &&& v.binary == binary
                    &&& tilde_expanded(dest, home) == Ok::<Seq<char>, RolloutErrorView>(v.dest)
                    &&& v.installed == !dry_run
                    &&& v.dry_run == dry_run
                    &&& v.unit matches Some(unit) ==> found(unit)
                    &&& v.unit is None ==> events[k] == InstallEventView::Found(Ok(None))
                },
                InstallActionView::Ignored => true,
            }
        }),
{
    let s = install_begun(binary, dest, window_secs, dry_run, home);
    let was = install_after(s, events.take(k));
    let action = was.step(events[k]).1;
    let first = events.take(k + 1);
    assert(first.drop_last() =~= events.take(k));
    assert(first.last() == events[k]);
    lemma_install_terms(s, events.take(k));
    lemma_install_terms(s, first);
    assert forall|i: int, u: Seq<char>| 0 <= i <= k implies #[trigger] heard_unit(s, events, i, u)
        == heard_unit(s, first, i, u) by {
        assert(events.take(i) =~= first.take(i));
    }
    let now = install_after(s, first);
    if let Some(u) = now.unit {
        let i = choose|i: int| 0 <= i < first.len() && #[trigger] heard_unit(s, first, i, u);
        assert(heard_unit(s, events, i, u));
    }
    reveal(InstallView::step);
}

/// What follows what came of an action of an install. The binary is put in place, then the unit that
/// starts it is looked for. Without a unit the install is over. The unit of a voice daemon waits for
/// a quiet bus, and voice activity ends the install with the daemon named; any other is restarted at
/// once. A unit that was restarted is asked whether it is active, an active one for its main process
/// unless it reloaded itself, and that process for its executable. Each failure ends the install
/// with its error.
pub proof fn law_install_goes_on(
    s: InstallView,
    event: InstallEventView,
    answer: InstallEventView,
)
    ensures
        ({
            let first = s.step(event);
            let then = first.0.step(answer);
            &&& s.phase == InstallPhase::Start && event is Begin && tilde_expanded(
                s.dest,
                s.home,
            ) is Ok ==> if s.dry_run {
                first.1 is FindUnit
            } else {
                first.1 is Put
            }
            &&& first.1 is Put ==> match answer {
                InstallEventView::Put(Ok(_)) => then.1 is FindUnit,
                InstallEventView::Put(Err(e)) => then.1 == InstallActionView::Finish(Err(e)),
                _ => then.1 is Ignored,
            }
            &&& first.1 is FindUnit ==> match answer {
                InstallEventView::Found(Ok(None)) => then.1 matches InstallActionView::Finish(r)
                    && (r matches Ok(v) && !v.restarted && v.verify == VerifyResult::Skipped),
                InstallEventView::Found(Ok(Some(unit))) => if s.dry_run {
                    then.1 matches InstallActionView::Finish(r) && (r matches Ok(v) && !v.restarted
                        && v.unit == Some(unit))
                } else if is_voice(daemon_of_unit(unit)) {
                    then.1 is SampleWindow
                } else {
                    then.1 == (InstallActionView::RestartUnit { unit })
                },
                InstallEventView::Found(Err(e)) => then.1 == InstallActionView::Finish(Err(e)),
                _ => then.1 is Ignored,
            }
        }),
{
    lemma_install_acts(s, event);
    lemma_install_answered(s.step(event).0, answer);
}

proof fn lemma_install_acts(s: InstallView, event: InstallEventView)
    ensures
        ({
            let next = s.step(event).0;
            let action = s.step(event).1;
            &&& next.dry_run == s.dry_run
            &&& s.phase == InstallPhase::Start && event is Begin && tilde_expanded(
                s.dest,
                s.home,
            ) is Ok ==> if s.dry_run {
                action is FindUnit
            } else {
                action is Put
            }
            &&& action is Put ==> next.phase == InstallPhase::Put
            &&& action is FindUnit ==> next.phase == InstallPhase::Find
            &&& action is SampleWindow ==> next.phase == InstallPhase::Window
            &&& action is RestartUnit ==> next.phase == InstallPhase::Restart
            &&& action is AskActive ==> next.phase == InstallPhase::Active
            &&& action is AskMainPid ==> next.phase == InstallPhase::MainPid
            &&& action is ReadExe ==> next.phase == InstallPhase::Exe
        }),
{
    reveal(InstallView::step);
}

proof fn lemma_install_answered(s: InstallView, answer: InstallEventView)
    ensures
        ({
            let then = s.step(answer);
            &&& s.phase == InstallPhase::Put ==> match answer {
                InstallEventView::Put(Ok(_)) => then.1 is FindUnit,
                InstallEventView::Put(Err(e)) => then.1 == InstallActionView::Finish(Err(e)),
                _ => then.1 is Ignored,
            }
            &&& s.phase == InstallPhase::Find ==> match answer {
                InstallEventView::Found(Ok(None)) => then.1 matches InstallActionView::Finish(r)
                    && (r matches Ok(v) && !v.restarted && v.verify == VerifyResult::Skipped),
                InstallEventView::Found(Ok(Some(unit))) => if s.dry_run {
                    then.1 matches InstallActionView::Finish(r) && (r matches Ok(v) && !v.restarted
                        && v.unit == Some(unit))
                } else if is_voice(daemon_of_unit(unit)) {
                    then.1 is SampleWindow
                } else {
                    then.1 == (InstallActionView::RestartUnit { unit })
                },
                InstallEventView::Found(Err(e)) => then.1 == InstallActionView::Finish(Err(e)),
                _ => then.1 is Ignored,
            }
        }),
{
    reveal(InstallView::step);
}

/// How the verdict of an install comes about once its unit was found. Activity that the window guard
/// blocks ends it with an error; a unit that was not restarted is not verified; one that was is
/// reported as restarted, and as inactive, current, stale or not judged by what was then seen of it.
pub proof fn law_install_verdict(s: InstallView, event: InstallEventView, answer: InstallEventView)
    requires
        s.unit is Some || event is Found,
    ensures
        ({
            let first = s.step(event);
            let then = first.0.step(answer);
            let ends = |path: RestartPath, restarted: bool, verify: VerifyResult|
                then.1 matches InstallActionView::Finish(r) && (r matches Ok(v) && v.restart_path
                    == path && v.restarted == restarted && v.verify == verify && v.unit
                    == first.0.unit);
            let daemon = daemon_of_unit(first.0.unit->Some_0);
            &&& first.1 is SampleWindow && (answer matches InstallEventView::Window(sample)
                && is_voice(daemon) && sample is Active) ==> then.1 == InstallActionView::Finish(
                Err(RolloutErrorView::WindowGuardBlocked { name: daemon }),
            )
            &&& first.1 is SampleWindow && (answer matches InstallEventView::Window(sample) && !(
            sample is Active)) ==> then.1 == (InstallActionView::RestartUnit {
                unit: first.0.unit->Some_0,
            })
            &&& first.1 is RestartUnit ==> match answer {
                InstallEventView::Restarted(Err(e)) => then.1 == InstallActionView::Finish(Err(e)),
                InstallEventView::Restarted(Ok(u)) => if u.restarted {
                    then.1 is AskActive && then.0.restart_path == u.path
                } else {
                    ends(u.path, false, VerifyResult::Skipped)
                },
                _ => then.1 is Ignored,
            }
            &&& first.1 is AskActive ==> match answer {
                InstallEventView::Active(active) => if !active {
                    ends(first.0.restart_path, true, VerifyResult::UnitInactive)
                } else if first.0.restart_path == RestartPath::AgorabuReload {
                    ends(first.0.restart_path, true, VerifyResult::Current)
                } else {
                    then.1 is AskMainPid && then.0.restart_path == first.0.restart_path
                },
                _ => then.1 is Ignored,
            }
            &&& first.1 is AskMainPid ==> match answer {
                InstallEventView::MainPid(Some(pid)) => then.1 == (InstallActionView::ReadExe {
                    pid,
                }),
                InstallEventView::MainPid(None) => ends(
                    first.0.restart_path,
                    true,
                    VerifyResult::Skipped,
                ),
                _ => then.1 is Ignored,
            }
        }),
{
    lemma_install_acts(s, event);
    lemma_unit_kept(s, event);
    lemma_install_judged(s.step(event).0, answer);
}

proof fn lemma_unit_kept(s: InstallView, event: InstallEventView)
    requires
        s.unit is Some || event is Found,
    ensures
        ({
            let next = s.step(event).0;
            let action = s.step(event).1;
            &&& action is SampleWindow || action is RestartUnit || action is AskActive
                || action is AskMainPid ==> next.unit is Some
            &&& action is AskMainPid ==> next.restart_path != RestartPath::AgorabuReload
        }),
{
    reveal(InstallView::step);
}

proof fn lemma_install_judged(s: InstallView, answer: InstallEventView)
    ensures
        ({
            let then = s.step(answer);
            let ends = |path: RestartPath, restarted: bool, verify: VerifyResult|
                then.1 matches InstallActionView::Finish(r) && (r matches Ok(v) && v.restart_path
                    == path && v.restarted == restarted && v.verify == verify && v.unit == s.unit);
            let daemon = daemon_of_unit(s.unit->Some_0);
            s.unit is Some ==> {
                &&& s.phase == InstallPhase::Window && (answer matches InstallEventView::Window(
                    sample,
                ) && is_voice(daemon) && sample is Active) ==> then.1 == InstallActionView::Finish(
                    Err(RolloutErrorView::WindowGuardBlocked { name: daemon }),
                )
                &&& s.phase == InstallPhase::Window && (answer matches InstallEventView::Window(
                    sample,
                ) && !(sample is Active)) ==> then.1 == (InstallActionView::RestartUnit {
                    unit: s.unit->Some_0,
                })
                &&& s.phase == InstallPhase::Restart ==> match answer {
                    InstallEventView::Restarted(Err(e)) => then.1 == InstallActionView::Finish(
                        Err(e),
                    ),
                    InstallEventView::Restarted(Ok(u)) => if u.restarted {
                        then.1 is AskActive && then.0.restart_path == u.path
                    } else {
                        ends(u.path, false, VerifyResult::Skipped)
                    },
                    _ => then.1 is Ignored,
                }
                &&& s.phase == InstallPhase::Active ==> match answer {
                    InstallEventView::Active(active) => if !active {
                        ends(s.restart_path, true, VerifyResult::UnitInactive)
                    } else if s.restart_path == RestartPath::AgorabuReload {
                        ends(s.restart_path, true, VerifyResult::Current)
                    } else {
                        then.1 is AskMainPid && then.0.restart_path == s.restart_path
                    },
                    _ => then.1 is Ignored,
                }
                &&& s.phase == InstallPhase::MainPid && s.restart_path
                    != RestartPath::AgorabuReload ==> match answer {
                    InstallEventView::MainPid(Some(pid)) => then.1 == (
                    InstallActionView::ReadExe { pid }),
                    InstallEventView::MainPid(None) => ends(
                        s.restart_path,
                        true,
                        VerifyResult::Skipped,
                    ),
                    _ => then.1 is Ignored,
                }
            }
        }),
{
    reveal(InstallView::step);
    if s.unit is Some {
        if let InstallEventView::Window(sample) = answer {
            law_window_guard(daemon_of_unit(s.unit->Some_0), sample);
        }
    }
}

/// The executable of the main process decides the verdict of a unit that `systemctl` restarted:
/// current where it is the installed binary, else stale.
pub proof fn law_executable_decides(s: InstallView, current: bool)
    requires
        s.phase == InstallPhase::Exe,
        s.restart_path == RestartPath::Systemctl,
    ensures
        s.step(InstallEventView::Exe(current)).1 matches InstallActionView::Finish(r) && (
        r matches Ok(v) && v.restarted && v.restart_path == RestartPath::Systemctl && v.verify
            == if current {
            VerifyResult::Current
        } else {
            VerifyResult::Stale
        }),
{
    reveal(InstallView::step);
}

/// Two words name a format, and no other does.
pub proof fn law_formats(word: Seq<char>)
    ensures
        format_named(word) == Ok::<OutputFormat, Seq<char>>(OutputFormat::Json) <==> word
            == "json"@,
        format_named(word) == Ok::<OutputFormat, Seq<char>>(OutputFormat::Table) <==> word
            == "table"@,
        format_named(word) matches Err(why) ==> mentions(why, debug_form(word)),
{
    reveal_strlit("json");
    reveal_strlit("table");
    assert("json"@.len() != "table"@.len());
    lemma_mentions(
        "unknown format "@ + debug_form(word) + "; use json or table"@,
        "unknown format "@,
        debug_form(word),
        "; use json or table"@,
    );
}

/// The table of a verdict has a line for each of its fields, which ends with the field's value; a
/// missing unit is `null`.
pub proof fn law_table(v: InstallVerdictView)
    ensures
        ({
            let t = table_lines(v);
            let ends = |i: int, value: Seq<char>| t[i] is Out && value.is_suffix_of(t[i]->Out_0);
            let word = |b: bool|
                if b {
                    "true"@
                } else {
                    "false"@
                };
            &&& t.len() == 8
            &&& ends(0, v.binary)
            &&& ends(1, v.dest)
            &&& ends(2, word(v.installed))
            &&& ends(
                3,
                match v.unit {
                    Some(u) => u,
                    None => "null"@,
                },
            )
            &&& ends(4, v.restart_path.word())
            &&& ends(5, word(v.restarted))
            &&& ends(6, v.verify.word())
            &&& ends(7, word(v.dry_run))
        }),
{
    let unit = match v.unit {
        Some(u) => u,
        None => "null"@,
    };
    lemma_ends("binary        : "@, v.binary);
    lemma_ends("dest          : "@, v.dest);
    lemma_ends("installed     : "@, yes_no(v.installed));
    lemma_ends("unit          : "@, unit);
    lemma_ends("restart_path  : "@, v.restart_path.word());
    lemma_ends("restarted     : "@, yes_no(v.restarted));
    lemma_ends("verify        : "@, v.verify.word());
    lemma_ends("dry_run       : "@, yes_no(v.dry_run));
}

/// The model of what happens in an install: of what was printed for the main process its pid counts,
/// and of its executable whether it is the installed binary; everything else is kept as it is.
pub proof fn law_install_event_model(event: InstallEvent)
    ensures
        match event {
            InstallEvent::Begin => event@ is Begin,
            InstallEvent::Put(Ok(_)) => event@ == InstallEventView::Put(Ok(())),
            InstallEvent::Put(Err(e)) => event@ == InstallEventView::Put(Err(e@)),
            InstallEvent::Found(Ok(Some(unit))) => event@ == InstallEventView::Found(
                Ok(Some(unit@)),
            ),
            InstallEvent::Found(Ok(None)) => event@ == InstallEventView::Found(Ok(None)),
            InstallEvent::Found(Err(e)) => event@ == InstallEventView::Found(Err(e@)),
            InstallEvent::Window(sample) => event@ == InstallEventView::Window(sample),
            InstallEvent::Restarted(Ok(u)) => event@ == InstallEventView::Restarted(Ok(u)),
            InstallEvent::Restarted(Err(e)) => event@ == InstallEventView::Restarted(Err(e@)),
            InstallEvent::Active(active) => event@ == InstallEventView::Active(active),
            InstallEvent::MainPid(Some(printed)) => event@ == InstallEventView::MainPid(
                main_pid(printed@),
            ),
            InstallEvent::MainPid(None) => event@ == InstallEventView::MainPid(None),
            InstallEvent::Exe(link) => event@ == InstallEventView::Exe(runs_dest(link)),
        },
{
}

/// The model of a verdict keeps each of its fields.
pub proof fn law_verdict_model(v: InstallVerdict)
    ensures
        v@.binary == v.binary@ && v@.dest == v.dest@ && v@.installed == v.installed
            && v@.restart_path == v.restart_path && v@.restarted == v.restarted && v@.verify
            == v.verify && v@.dry_run == v.dry_run,
        v@.unit is Some <==> v.unit is Some,
        v.unit matches Some(unit) ==> v@.unit == Some(unit@),
{
}

/// The models of what happens while a file is put in place, and of an install's result, keep what was
/// given.
pub proof fn law_put_event_model(event: PutEvent, r: Result<InstallVerdict, RolloutError>)
    ensures
        match event {
            PutEvent::Begin => event@ is Begin,
            PutEvent::Did => event@ is Did,
            PutEvent::Failed(why) => event@ == PutEventView::Failed(why@),
        },
        r matches Ok(v) ==> verdict_result(r) == Ok::<InstallVerdictView, RolloutErrorView>(v@),
        r matches Err(e) ==> verdict_result(r) == Err::<InstallVerdictView, RolloutErrorView>(e@),
{
}

} // verus!
