//! Applying the plan: the stale daemons are restarted one after the other, each as the plan tells.

use crate::autogate::{
    default_gate, gate_installed, gate_verdict, installed_verdict, law_unattended_gate,
    ledger_result, GateVerdict, ProofLedger, ProofView, VerdictView,
};
use crate::cli::{
    law_plan_covers_every_entry, law_plan_tells_strategy, plan, plan_entry, swap_sequence,
    told_within,
};
use crate::command::{recipe_cmd_result, run_recipe_cmd, CommandOutcome, CommandView};
use crate::cycle::auto_enabled_from_str;
use crate::error::{error_text, pid_option, pid_option_text, RolloutError, RolloutErrorView};
use crate::fleet::{
    law_validation, law_validation_names_missing, names_validated, outcome, DaemonRecipe,
    FleetConfig, RecipeView,
};
use crate::health::{
    check_window_guard, is_voice, is_voice_daemon, law_window_guard, window_guard, ActivityView,
    VoiceActivityState, WindowSample,
};
use crate::output::{lemma_lines_push, line_views, no_lines, one_line, two_lines, Line, LineView};
use crate::restart::{
    restart_outcome, RestartResult, RestartResultView, RestartStrategy, StrategyView,
};
use crate::scan::{
    entry_names, entry_views, filter_only, names_of, only_entries, BinstaleEntry, EntryView,
};
use crate::text::{
    copy_option, dec, decimal, join, joined, lemma_mentions, lemma_texts_push, mentions,
    opt_string, opt_text, texts,
};
use crate::warmswap::{
    claim_path, law_swaps_warm, swap_claim, swap_claim_for_recipe, swaps_warm, SwapResultView,
    WarmSwapResult,
};
use vstd::prelude::*;

verus! {

// ---------------------------------------------------------------------------
// Events and actions
// ---------------------------------------------------------------------------

/// Where a run stands.
#[derive(Debug, Clone, Copy, PartialEq, Eq, Structural)]
pub enum ApplyPhase {
    /// Nothing was done yet.
    Start,
    /// The ledger is read.
    Ledger,
    /// The next daemon is taken up.
    Select,
    /// The bus is probed for voice activity.
    Voice,
    /// Whether the ledger is asked about the daemon is decided.
    Gate,
    /// The daemon's binary is hashed, for the ledger to be asked about it.
    Hash,
    /// The bus is sampled for dialog turns.
    Window,
    /// The daemon is restarted.
    Restart,
    /// The daemon is built, to be swapped warm.
    Build,
    /// The daemon is swapped warm.
    Swap,
    /// The run is over.
    Done,
}

/// What happened outside since the last step.
pub enum ApplyEvent {
    /// Nothing: the run begins or goes on.
    Go,
    /// The ledger was read, or why it was not.
    Loaded(Result<ProofLedger, RolloutError>),
    /// The bus was probed.
    Voice(VoiceActivityState),
    /// The hash of a binary, where it could be made.
    Hash(Option<String>),
    /// The bus was sampled.
    Window(WindowSample),
    /// The daemon was restarted, or why it was not.
    Restarted(Result<RestartResult, RolloutError>),
    /// The build command, which was begun at this Unix time in milliseconds, ended.
    Built { ran: CommandOutcome, start_ms: u128 },
    /// The daemon was swapped, by this Unix time in milliseconds.
    Swapped { result: WarmSwapResult, end_ms: u128 },
}

/// The model of an [`ApplyEvent`].
#[verifier::ext_equal]
pub enum ApplyEventView {
    Go,
    Loaded(Result<Map<Seq<char>, ProofView>, RolloutErrorView>),
    Voice(ActivityView),
    Hash(Option<Seq<char>>),
    Window(WindowSample),
    Restarted(Result<RestartResultView, RolloutErrorView>),
    Built { ran: CommandView, start_ms: nat },
    Swapped { result: SwapResultView, end_ms: nat },
}

impl View for ApplyEvent {
    type V = ApplyEventView;

    open spec fn view(&self) -> ApplyEventView {
        match *self {
            ApplyEvent::Go => ApplyEventView::Go,
            ApplyEvent::Loaded(r) => ApplyEventView::Loaded(ledger_result(r)),
            ApplyEvent::Voice(state) => ApplyEventView::Voice(state@),
            ApplyEvent::Hash(hash) => ApplyEventView::Hash(opt_string(hash)),
            ApplyEvent::Window(sample) => ApplyEventView::Window(sample),
            ApplyEvent::Restarted(r) => ApplyEventView::Restarted(restart_outcome(r)),
            ApplyEvent::Built { ran, start_ms } => ApplyEventView::Built {
                ran: ran@,
                start_ms: start_ms as nat,
            },
            ApplyEvent::Swapped { result, end_ms } => ApplyEventView::Swapped {
                result: result@,
                end_ms: end_ms as nat,
            },
        }
    }
}

/// What is to be done next, and told back as an event.
#[derive(Debug)]
pub enum ApplyAction {
    /// Nothing: the run goes on.
    Continue,
    /// Read the ledger.
    LoadLedger,
    /// Probe the bus for voice activity.
    ProbeVoice,
    /// Make the SHA-256 digest of an installed binary, in lower-case hexadecimal.
    ReadHash { path: String },
    /// Sample the bus for dialog turns.
    SampleWindow { secs: u64 },
    /// Restart a daemon.
    Restart { recipe: DaemonRecipe, pid: u32 },
    /// Run a build command to its end.
    Build { cmd: String, dir: Option<String> },
    /// Swap a daemon warm.
    Swap { recipe: DaemonRecipe, claim_path: String, pid: u32 },
    /// The run is over.
    Finish(Result<(), RolloutError>),
    /// The event does not belong here; nothing changed.
    Ignored,
}

/// The model of an [`ApplyAction`].
#[verifier::ext_equal]
pub enum ApplyActionView {
    Continue,
    LoadLedger,
    ProbeVoice,
    ReadHash { path: Seq<char> },
    SampleWindow { secs: u64 },
    Restart { recipe: RecipeView, pid: u32 },
    Build { cmd: Seq<char>, dir: Option<Seq<char>> },
    Swap { recipe: RecipeView, claim_path: Seq<char>, pid: u32 },
    Finish(Result<(), RolloutErrorView>),
    Ignored,
}

impl View for ApplyAction {
    type V = ApplyActionView;

    open spec fn view(&self) -> ApplyActionView {
        match *self {
            ApplyAction::Continue => ApplyActionView::Continue,
            ApplyAction::LoadLedger => ApplyActionView::LoadLedger,
            ApplyAction::ProbeVoice => ApplyActionView::ProbeVoice,
            ApplyAction::ReadHash { path } => ApplyActionView::ReadHash { path: path@ },
            ApplyAction::SampleWindow { secs } => ApplyActionView::SampleWindow { secs },
            ApplyAction::Restart { recipe, pid } => ApplyActionView::Restart {
                recipe: recipe@,
                pid,
            },
            ApplyAction::Build { cmd, dir } => ApplyActionView::Build {
                cmd: cmd@,
                dir: opt_string(dir),
            },
            ApplyAction::Swap { recipe, claim_path, pid } => ApplyActionView::Swap {
                recipe: recipe@,
                claim_path: claim_path@,
                pid,
            },
            ApplyAction::Finish(r) => ApplyActionView::Finish(outcome(r)),
            ApplyAction::Ignored => ApplyActionView::Ignored,
        }
    }
}

// ---------------------------------------------------------------------------
// The run
// ---------------------------------------------------------------------------

/// How a run is made.
#[derive(Debug, Clone, Copy)]
pub struct ApplyOptions {
    /// Whether only daemons with a proof that allows it are restarted.
    pub auto: bool,
    /// Whether it is only told what would be restarted.
    pub dry_run: bool,
    /// For how many seconds the bus must be quiet before a voice daemon is restarted.
    pub window_secs: Option<u64>,
}

/// A run over the stale daemons of a scan.
pub struct ApplyRun {
    fleet: FleetConfig,
    stale: Vec<BinstaleEntry>,
    options: ApplyOptions,
    auto_value: String,
    ledger: Option<ProofLedger>,
    at: usize,
    start_ms: u128,
    results: Vec<RestartResult>,
    deferred: Vec<String>,
    refused: Vec<String>,
    phase: ApplyPhase,
}

/// The model of an [`ApplyRun`].
#[verifier::ext_equal]
pub struct ApplyView {
    pub fleet: Map<Seq<char>, RecipeView>,
    pub stale: Seq<EntryView>,
    pub options: ApplyOptions,
    /// The value of `ROLLOUT_AUTO_ENABLED`.
    pub auto_value: Seq<char>,
    /// The ledger, where the run is to ask it.
    pub ledger: Option<Map<Seq<char>, ProofView>>,
    /// The entry at hand.
    pub at: nat,
    /// When the build of the latest swap began, in milliseconds of Unix time.
    pub start_ms: nat,
    /// The restarts that succeeded, warm swaps among them.
    pub results: Seq<RestartResultView>,
    /// The voice daemons that were left alone.
    pub deferred: Seq<Seq<char>>,
    /// The daemons that the ledger did not allow.
    pub refused: Seq<Seq<char>>,
    pub phase: ApplyPhase,
}

/// The models of a list of restarts.
pub open spec fn result_views(v: Seq<RestartResult>) -> Seq<RestartResultView> {
    v.map_values(|r: RestartResult| r@)
}

/// The model of an optional ledger.
pub open spec fn opt_ledger(o: Option<ProofLedger>) -> Option<Map<Seq<char>, ProofView>> {
    match o {
        Some(l) => Some(l@),
        None => None,
    }
}

impl View for ApplyRun {
    type V = ApplyView;

    closed spec fn view(&self) -> ApplyView {
        ApplyView {
            fleet: self.fleet@,
            stale: entry_views(self.stale@),
            options: self.options,
            auto_value: self.auto_value@,
            ledger: opt_ledger(self.ledger),
            at: self.at as nat,
            start_ms: self.start_ms as nat,
            results: result_views(self.results@),
            deferred: texts(self.deferred@),
            refused: texts(self.refused@),
            phase: self.phase,
        }
    }
}

/// What a step does: the run after it, what is told, and what is to be done.
#[verifier::ext_equal]
pub struct ApplyMove {
    pub state: ApplyView,
    pub lines: Seq<LineView>,
    pub action: ApplyActionView,
}

/// A run before its first step.
pub open spec fn apply_begun(
    fleet: Map<Seq<char>, RecipeView>,
    stale: Seq<EntryView>,
    options: ApplyOptions,
    auto_value: Seq<char>,
) -> ApplyView {
    ApplyView {
        fleet,
        stale,
        options,
        auto_value,
        ledger: None,
        at: 0,
        start_ms: 0,
        results: seq![],
        deferred: seq![],
        refused: seq![],
        phase: ApplyPhase::Start,
    }
}

/// The lines that name the daemons of a dry run.
pub open spec fn dry_run_names(stale: Seq<EntryView>) -> Seq<LineView> {
    stale.map_values(|e: EntryView| LineView::Out("  "@ + e.comm))
}

/// What is told of a restart that succeeded, behind the daemon's name.
pub open spec fn restart_text(r: RestartResultView) -> Seq<char> {
    " ok (old_pid="@ + dec(r.old_pid as nat) + ", new_pid="@ + pid_option(r.new_pid) + ", elapsed="@
        + dec(
        if r.end_ms >= r.start_ms {
            (r.end_ms - r.start_ms) as nat
        } else {
            0
        },
    ) + "ms, restart_path="@ + r.restart_path.text() + (if r.sigkill_used {
        ", SIGKILL used"@
    } else {
        ""@
    }) + ")"@
}

impl ApplyView {
    /// The entry at hand.
    pub open spec fn entry(self) -> EntryView {
        self.stale[self.at as int]
    }

    /// The claim on which the entry at hand is swapped warm, if it is.
    pub open spec fn claim(self) -> Option<Seq<char>> {
        if self.fleet.contains_key(self.entry().comm) {
            swap_claim(self.fleet[self.entry().comm])
        } else {
            None
        }
    }

    /// A line about the entry at hand begins with this.
    pub open spec fn prefix(self) -> Seq<char> {
        "rollout apply ["@ + dec(self.at + 1) + "/"@ + dec(self.stale.len()) + "]: "@
    }

    /// A line about the entry at hand.
    pub open spec fn tell(self, text: Seq<char>) -> LineView {
        LineView::Out(self.prefix() + self.entry().comm + text)
    }

    /// The step that goes on to `phase` with `action`.
    pub open spec fn go(
        self,
        phase: ApplyPhase,
        lines: Seq<LineView>,
        action: ApplyActionView,
    ) -> ApplyMove {
        ApplyMove { state: ApplyView { phase, ..self }, lines, action }
    }

    /// The step that ends the run.
    pub open spec fn end(self, lines: Seq<LineView>, r: Result<(), RolloutErrorView>) -> ApplyMove {
        self.go(ApplyPhase::Done, lines, ApplyActionView::Finish(r))
    }

    /// The step for an event that does not belong here.
    pub open spec fn ignored(self) -> ApplyMove {
        self.go(self.phase, seq![], ApplyActionView::Ignored)
    }

    /// The error for an entry without a recipe.
    pub open spec fn unknown(self) -> RolloutErrorView {
        RolloutErrorView::UnknownDaemons { names: seq![self.entry().comm] }
    }

    /// The step that begins with the first daemon, or tells what would be restarted.
    pub open spec fn ready(self) -> ApplyMove {
        if self.options.dry_run {
            self.end(
                seq![
                    LineView::Out(
                        "rollout apply [dry-run]: would restart "@ + dec(self.stale.len())
                            + " daemon(s):"@,
                    ),
                ] + dry_run_names(self.stale),
                Ok(()),
            )
        } else {
            self.go(ApplyPhase::Select, seq![], ApplyActionView::Continue)
        }
    }

    /// The first step: nothing is touched where nothing is stale, where a stale daemon has no
    /// recipe, or where an unattended run is not enabled.
    pub open spec fn begin(self) -> ApplyMove {
        if self.stale.len() == 0 {
            self.end(
                seq![LineView::Out("rollout apply: no stale daemons. Nothing to do."@)],
                Ok(()),
            )
        } else {
            match names_validated(self.fleet, entry_names(self.stale)) {
                Err(e) => self.end(seq![], Err(e)),
                Ok(_) => if self.options.auto {
                    if self.auto_value == "1"@ {
                        self.go(ApplyPhase::Ledger, seq![], ApplyActionView::LoadLedger)
                    } else {
                        self.end(
                            seq![
                                LineView::Out(
                                    "rollout apply: auto is disabled (set ROLLOUT_AUTO_ENABLED=1 to enable)"@,
                                ),
                            ],
                            Ok(()),
                        )
                    }
                } else {
                    self.ready()
                },
            }
        }
    }

    /// The step that ends the run when every daemon was taken up.
    pub open spec fn finish(self) -> ApplyMove {
        let counts = dec(self.results.len()) + "/"@ + dec(self.stale.len());
        let refused = if self.refused.len() == 0 {
            seq![]
        } else {
            seq![
                LineView::Out(
                    "rollout apply: "@ + dec(self.refused.len()) + " auto-gate refused: "@ + joined(
                        self.refused,
                        ", "@,
                    ),
                ),
            ]
        };
        if self.deferred.len() == 0 {
            self.end(
                refused.push(
                    LineView::Out("rollout apply: done. "@ + counts + " daemons restarted."@),
                ),
                Ok(()),
            )
        } else {
            let names = joined(self.deferred, ", "@);
            self.end(
                refused.push(
                    LineView::Out(
                        "rollout apply: "@ + counts + " restarted; "@ + dec(self.deferred.len())
                            + " deferred (voice active): "@ + names,
                    ),
                ),
                Err(
                    RolloutErrorView::VoiceActivityDeferred { names, count: self.deferred.len() },
                ),
            )
        }
    }

    /// The step that takes up the next daemon: a voice daemon is never touched unprobed.
    pub open spec fn select(self) -> ApplyMove {
        if self.at >= self.stale.len() {
            self.finish()
        } else if !self.fleet.contains_key(self.entry().comm) {
            self.end(seq![], Err(self.unknown()))
        } else {
            let lines = seq![
                LineView::Out(
                    self.prefix() + "starting "@ + self.entry().comm + " (pid="@ + dec(
                        self.entry().pid as nat,
                    ) + ")"@,
                ),
            ];
            if is_voice(self.entry().comm) {
                self.go(ApplyPhase::Voice, lines, ApplyActionView::ProbeVoice)
            } else {
                self.go(ApplyPhase::Gate, lines, ApplyActionView::Continue)
            }
        }
    }

    /// The step that leaves the voice daemon at hand alone.
    pub open spec fn defer(self, why: Seq<char>) -> ApplyMove {
        ApplyView {
            at: self.at + 1,
            deferred: self.deferred.push(self.entry().comm),
            ..self
        }.go(
            ApplyPhase::Select,
            seq![self.tell(" deferred — "@ + why)],
            ApplyActionView::Continue,
        )
    }

    /// The step that restarts the daemon at hand; one that is swapped warm is built first.
    pub open spec fn restart(self, lines: Seq<LineView>) -> ApplyMove {
        if !self.fleet.contains_key(self.entry().comm) {
            self.end(lines, Err(self.unknown()))
        } else if self.claim() is Some {
            self.go(
                ApplyPhase::Build,
                lines,
                ApplyActionView::Build {
                    cmd: self.fleet[self.entry().comm].build_cmd,
                    dir: self.fleet[self.entry().comm].repo,
                },
            )
        } else {
            self.go(
                ApplyPhase::Restart,
                lines,
                ApplyActionView::Restart {
                    recipe: self.fleet[self.entry().comm],
                    pid: self.entry().pid,
                },
            )
        }
    }

    /// The step that samples the bus where that is asked for, or restarts the daemon at hand.
    pub open spec fn guard(self, lines: Seq<LineView>) -> ApplyMove {
        match self.options.window_secs {
            Some(secs) => if is_voice(self.entry().comm) {
                self.go(ApplyPhase::Window, lines, ApplyActionView::SampleWindow { secs })
            } else {
                self.restart(lines)
            },
            None => self.restart(lines),
        }
    }

    /// The step that has the installed binary of the daemon at hand hashed, where there is a
    /// ledger to ask about it.
    pub open spec fn ask(self) -> ApplyMove {
        match self.ledger {
            None => self.guard(seq![]),
            Some(ledger) => self.go(
                ApplyPhase::Hash,
                seq![],
                ApplyActionView::ReadHash { path: self.entry().installed_path() },
            ),
        }
    }

    /// The step that asks the ledger about the daemon at hand and its installed binary.
    pub open spec fn gated(self, hash: Option<Seq<char>>) -> ApplyMove {
        match self.ledger {
            None => self.guard(seq![]),
            Some(ledger) => match installed_verdict(
                self.entry().comm,
                self.entry().installed_path(),
                hash,
                ledger,
            ) {
                VerdictView::Allow => self.guard(seq![self.tell(" auto-gate Allow"@)]),
                VerdictView::Refuse { reason } => ApplyView {
                    at: self.at + 1,
                    refused: self.refused.push(self.entry().comm),
                    ..self
                }.go(
                    ApplyPhase::Select,
                    seq![self.tell(" auto-gate Refuse — "@ + reason)],
                    ApplyActionView::Continue,
                ),
            },
        }
    }

    /// The step that ends the run because the daemon at hand could not be restarted.
    pub open spec fn failed(self, e: RolloutErrorView) -> ApplyMove {
        self.end(
            seq![
                LineView::Warn(self.prefix() + self.entry().comm + " FAILED — "@ + error_text(e)),
                LineView::Warn("rollout apply: stopping run after first failure"@),
            ],
            Err(e),
        )
    }

    /// The step after a restart that succeeded.
    pub open spec fn succeeded(self, result: RestartResultView) -> ApplyMove {
        ApplyView { at: self.at + 1, results: self.results.push(result), ..self }.go(
            ApplyPhase::Select,
            seq![self.tell(restart_text(result))],
            ApplyActionView::Continue,
        )
    }

    /// The step after a restart: the run goes on only if it succeeded.
    pub open spec fn restarted(self, r: Result<RestartResultView, RolloutErrorView>) -> ApplyMove {
        match r {
            Ok(result) => self.succeeded(result),
            Err(e) => self.failed(e),
        }
    }

    /// The step after a build: the daemon is swapped only if it was built.
    pub open spec fn built(self, ran: CommandView, start_ms: nat) -> ApplyMove {
        match recipe_cmd_result(self.entry().comm, "build"@, ran) {
            Err(e) => self.failed(e),
            Ok(_) => match self.claim() {
                Some(claim) => ApplyView { start_ms, ..self }.go(
                    ApplyPhase::Swap,
                    seq![],
                    ApplyActionView::Swap {
                        recipe: self.fleet[self.entry().comm],
                        claim_path: claim,
                        pid: self.entry().pid,
                    },
                ),
                None => self.ignored(),
            },
        }
    }

    /// The error for a swap after which the claim was not held by exactly one process.
    pub open spec fn split(self, holders: nat) -> RolloutErrorView {
        RolloutErrorView::HealthcheckTimeout {
            name: self.entry().comm,
            old_pid: self.entry().pid,
            new_pid: None,
            reason: "warm-swap: expected 1 claim holder, got "@ + dec(holders),
        }
    }

    /// The step after a warm swap: the run goes on only if it succeeded.
    pub open spec fn swapped(self, result: SwapResultView, end_ms: nat) -> ApplyMove {
        match result {
            SwapResultView::Success { prev_pid, new_pid } => self.succeeded(
                RestartResultView {
                    name: self.entry().comm,
                    old_pid: prev_pid,
                    new_pid,
                    start_ms: self.start_ms,
                    end_ms,
                    success: true,
                    sigkill_used: false,
                    restart_path: StrategyView::WarmSwap,
                },
            ),
            SwapResultView::SplitState { holders } => self.failed(self.split(holders)),
            SwapResultView::Failed(e) => self.failed(e),
        }
    }

    /// What a step does on an event.
    #[verifier::opaque]
    pub open spec fn step(self, event: ApplyEventView) -> ApplyMove {
        match (self.phase, event) {
            (ApplyPhase::Start, ApplyEventView::Go) => self.begin(),
            (ApplyPhase::Ledger, ApplyEventView::Loaded(loaded)) => match loaded {
                Ok(ledger) => ApplyView { ledger: Some(ledger), ..self }.ready(),
                Err(e) => self.end(seq![], Err(e)),
            },
            (ApplyPhase::Select, ApplyEventView::Go) => self.select(),
            (ApplyPhase::Voice, ApplyEventView::Voice(state)) => if self.at < self.stale.len() {
                match state {
                    ActivityView::InFlight { reason } => self.defer("voice active: "@ + reason),
                    ActivityView::BusUnreachable => self.defer(
                        "agorabus unreachable (cannot confirm turn is idle; will not restart blind)"@,
                    ),
                    ActivityView::Idle => self.go(
                        ApplyPhase::Gate,
                        seq![],
                        ApplyActionView::Continue,
                    ),
                }
            } else {
                self.ignored()
            },
            (ApplyPhase::Gate, ApplyEventView::Go) => if self.at < self.stale.len() {
                self.ask()
            } else {
                self.ignored()
            },
            (ApplyPhase::Hash, ApplyEventView::Hash(hash)) => if self.at < self.stale.len() {
                self.gated(hash)
            } else {
                self.ignored()
            },
            (ApplyPhase::Window, ApplyEventView::Window(sample)) => if self.at < self.stale.len() {
                match window_guard(self.entry().comm, sample) {
                    Ok(_) => self.restart(seq![]),
                    Err(e) => self.end(seq![], Err(e)),
                }
            } else {
                self.ignored()
            },
            (ApplyPhase::Restart, ApplyEventView::Restarted(r)) => if self.at < self.stale.len() {
                self.restarted(r)
            } else {
                self.ignored()
            },
            (ApplyPhase::Build, ApplyEventView::Built { ran, start_ms }) => if self.at
                < self.stale.len() {
                self.built(ran, start_ms)
            } else {
                self.ignored()
            },
            (ApplyPhase::Swap, ApplyEventView::Swapped { result, end_ms }) => if self.at
                < self.stale.len() {
                self.swapped(result, end_ms)
            } else {
                self.ignored()
            },
            _ => self.ignored(),
        }
    }
}

/// What a step gives: what is told, and what is to be done.
#[derive(Debug)]
pub struct ApplyStep {
    pub lines: Vec<Line>,
    pub action: ApplyAction,
}

impl ApplyStep {
    /// The step of the model, from the run after it.
    pub open spec fn made(self, state: ApplyView) -> ApplyMove {
        ApplyMove { state, lines: line_views(self.lines@), action: self.action@ }
    }
}

impl ApplyRun {
    /// A run over the stale daemons of a scan, or over the one named `only`, before its first
    /// step.
    pub fn new(
        fleet: FleetConfig,
        all: Vec<BinstaleEntry>,
        only: Option<&str>,
        options: ApplyOptions,
        auto_value: String,
    ) -> (r: ApplyRun)
        ensures
            r@ == apply_begun(
                fleet@,
                only_entries(entry_views(all@), opt_text(only)),
                options,
                auto_value@,
            ),
    {
        let r = ApplyRun {
            fleet,
            stale: filter_only(all, only),
            options,
            auto_value,
            ledger: None,
            at: 0,
            start_ms: 0,
            results: Vec::new(),
            deferred: Vec::new(),
            refused: Vec::new(),
            phase: ApplyPhase::Start,
        };
        assert(r@.results =~= seq![]);
        assert(r@.deferred =~= seq![]);
        assert(r@.refused =~= seq![]);
        r
    }

    fn go(&mut self, phase: ApplyPhase, lines: Vec<Line>) -> (r: ApplyStep)
        ensures
            r.made(final(self)@) == old(self)@.go(
                phase,
                line_views(lines@),
                ApplyActionView::Continue,
            ),
    {
        self.phase = phase;
        ApplyStep { lines, action: ApplyAction::Continue }
    }

    fn end(&mut self, lines: Vec<Line>, result: Result<(), RolloutError>) -> (r: ApplyStep)
        ensures
            r.made(final(self)@) == old(self)@.end(line_views(lines@), outcome(result)),
    {
        self.phase = ApplyPhase::Done;
        ApplyStep { lines, action: ApplyAction::Finish(result) }
    }

    fn ignored(&self) -> (r: ApplyStep)
        ensures
            r.made(self@) == self@.ignored(),
    {
        ApplyStep { lines: no_lines(), action: ApplyAction::Ignored }
    }

    fn prefix(&self) -> (r: String)
        ensures
            r@ == self@.prefix(),
    {
        assert(self@.stale.len() == self.stale@.len());
        "rollout apply [".to_owned().concat(decimal(self.at as u128 + 1).as_str()).concat(
            "/",
        ).concat(decimal(self.stale.len() as u128).as_str()).concat("]: ")
    }

    fn tell(&self, text: &str) -> (r: Line)
        requires
            self@.at < self@.stale.len(),
        ensures
            r@ == self@.tell(text@),
    {
        assert(self@.stale.len() == self.stale@.len());
        assert(self@.stale[self.at as int] == self.stale@[self.at as int]@);
        Line::Out(self.prefix().concat(self.stale[self.at].comm.as_str()).concat(text))
    }

    fn unknown(&self) -> (r: RolloutError)
        requires
            self@.at < self@.stale.len(),
        ensures
            r@ == self@.unknown(),
    {
        broadcast use lemma_texts_push;

        assert(self@.stale.len() == self.stale@.len());
        assert(self@.stale[self.at as int] == self.stale@[self.at as int]@);
        let mut names: Vec<String> = Vec::new();
        names.push(self.stale[self.at].comm.clone());
        assert(texts(names@) =~= seq![self@.entry().comm]);
        RolloutError::UnknownDaemons { names }
    }

    fn ready(&mut self) -> (r: ApplyStep)
        ensures
            r.made(final(self)@) == old(self)@.ready(),
    {
        broadcast use lemma_lines_push;

        if !self.options.dry_run {
            return self.go(ApplyPhase::Select, no_lines());
        }
        let n: usize = self.stale.len();
        let ghost models = self@.stale;
        assert(models.len() == n);
        let mut lines = one_line(
            Line::Out(
                "rollout apply [dry-run]: would restart ".to_owned().concat(
                    decimal(n as u128).as_str(),
                ).concat(" daemon(s):"),
            ),
        );
        let ghost head = line_views(lines@);
        let mut i: usize = 0;
        assert(line_views(lines@) =~= head + dry_run_names(models).take(0));
        while i < n
            invariant
                n == self.stale@.len(),
                models == entry_views(self.stale@),
                i <= n,
                line_views(lines@) == head + dry_run_names(models).take(i as int),
            decreases n - i,
        {
            let ghost before = line_views(lines@);
            assert(models[i as int] == self.stale@[i as int]@);
            let line = Line::Out("  ".to_owned().concat(self.stale[i].comm.as_str()));
            assert(dry_run_names(models)[i as int] == line@);
            assert(dry_run_names(models).take(i + 1) =~= dry_run_names(models).take(
                i as int,
            ).push(line@));
            lines.push(line);
            assert(line_views(lines@) == before.push(line@));
            assert(line_views(lines@) =~= head + dry_run_names(models).take(i + 1));
            i = i + 1;
        }
        assert(dry_run_names(models).take(n as int) =~= dry_run_names(models));
        self.end(lines, Ok(()))
    }

    fn begin(&mut self) -> (r: ApplyStep)
        ensures
            r.made(final(self)@) == old(self)@.begin(),
    {
        assert(self@.stale.len() == self.stale@.len());
        if self.stale.len() == 0 {
            return self.end(
                one_line(
                    Line::Out("rollout apply: no stale daemons. Nothing to do.".to_owned()),
                ),
                Ok(()),
            );
        }
        match self.fleet.validate_names(&names_of(&self.stale)) {
            Ok(_) => {},
            Err(e) => {
                return self.end(no_lines(), Err(e));
            },
        }
        if !self.options.auto {
            return self.ready();
        }
        if !auto_enabled_from_str(self.auto_value.as_str()) {
            return self.end(
                one_line(
                    Line::Out(
                        "rollout apply: auto is disabled (set ROLLOUT_AUTO_ENABLED=1 to enable)".to_owned(),
                    ),
                ),
                Ok(()),
            );
        }
        self.phase = ApplyPhase::Ledger;
        ApplyStep { lines: no_lines(), action: ApplyAction::LoadLedger }
    }

    fn finish(&mut self) -> (r: ApplyStep)
        ensures
            r.made(final(self)@) == old(self)@.finish(),
    {
        broadcast use lemma_lines_push;

        assert(self@.stale.len() == self.stale@.len());
        assert(self@.results.len() == self.results@.len());
        assert(self@.deferred.len() == self.deferred@.len());
        assert(self@.refused.len() == self.refused@.len());
        let counts = decimal(self.results.len() as u128).concat("/").concat(
            decimal(self.stale.len() as u128).as_str(),
        );
        let mut lines = no_lines();
        if self.refused.len() > 0 {
            lines.push(
                Line::Out(
                    "rollout apply: ".to_owned().concat(
                        decimal(self.refused.len() as u128).as_str(),
                    ).concat(" auto-gate refused: ").concat(join(&self.refused, ", ").as_str()),
                ),
            );
            assert(line_views(lines@) =~= seq![
                LineView::Out(
                    "rollout apply: "@ + dec(self@.refused.len()) + " auto-gate refused: "@
                        + joined(self@.refused, ", "@),
                ),
            ]);
        }
        if self.deferred.len() == 0 {
            lines.push(
                Line::Out(
                    "rollout apply: done. ".to_owned().concat(counts.as_str()).concat(
                        " daemons restarted.",
                    ),
                ),
            );
            self.end(lines, Ok(()))
        } else {
            let names = join(&self.deferred, ", ");
            let count: usize = self.deferred.len();
            lines.push(
                Line::Out(
                    "rollout apply: ".to_owned().concat(counts.as_str()).concat(
                        " restarted; ",
                    ).concat(decimal(count as u128).as_str()).concat(
                        " deferred (voice active): ",
                    ).concat(names.as_str()),
                ),
            );
            self.end(lines, Err(RolloutError::VoiceActivityDeferred { names, count }))
        }
    }

    fn select(&mut self) -> (r: ApplyStep)
        ensures
            r.made(final(self)@) == old(self)@.select(),
    {
        assert(self@.stale.len() == self.stale@.len());
        if self.at >= self.stale.len() {
            return self.finish();
        }
        assert(self@.stale[self.at as int] == self.stale@[self.at as int]@);
        if self.fleet.get(self.stale[self.at].comm.as_str()).is_none() {
            let e = self.unknown();
            return self.end(no_lines(), Err(e));
        }
        let lines = one_line(
            Line::Out(
                self.prefix().concat("starting ").concat(
                    self.stale[self.at].comm.as_str(),
                ).concat(" (pid=").concat(
                    decimal(self.stale[self.at].pid as u128).as_str(),
                ).concat(")"),
            ),
        );
        if is_voice_daemon(self.stale[self.at].comm.as_str()) {
            self.phase = ApplyPhase::Voice;
            ApplyStep { lines, action: ApplyAction::ProbeVoice }
        } else {
            self.go(ApplyPhase::Gate, lines)
        }
    }

    fn defer(&mut self, why: &str) -> (r: ApplyStep)
        requires
            old(self)@.at < old(self)@.stale.len(),
        ensures
            r.made(final(self)@) == old(self)@.defer(why@),
    {
        broadcast use lemma_texts_push;

        assert(self@.stale.len() == self.stale@.len());
        assert(self@.stale[self.at as int] == self.stale@[self.at as int]@);
        let lines = one_line(self.tell(" deferred — ".to_owned().concat(why).as_str()));
        let name = self.stale[self.at].comm.clone();
        self.deferred.push(name);
        let n: usize = self.stale.len();
        assert(self.at < n);
        self.at = self.at + 1;
        self.go(ApplyPhase::Select, lines)
    }

    fn restart(&mut self, lines: Vec<Line>) -> (r: ApplyStep)
        requires
            old(self)@.at < old(self)@.stale.len(),
        ensures
            r.made(final(self)@) == old(self)@.restart(line_views(lines@)),
    {
        assert(self@.stale.len() == self.stale@.len());
        assert(self@.stale[self.at as int] == self.stale@[self.at as int]@);
        let recipe = match self.fleet.get(self.stale[self.at].comm.as_str()) {
            Some(recipe) => recipe.clone(),
            None => {
                let e = self.unknown();
                return self.end(lines, Err(e));
            },
        };
        if swap_claim_for_recipe(&recipe).is_some() {
            self.phase = ApplyPhase::Build;
            let dir = copy_option(&recipe.repo);
            return ApplyStep { lines, action: ApplyAction::Build { cmd: recipe.build_cmd, dir } };
        }
        let pid: u32 = self.stale[self.at].pid;
        self.phase = ApplyPhase::Restart;
        ApplyStep { lines, action: ApplyAction::Restart { recipe, pid } }
    }

    fn guard(&mut self, lines: Vec<Line>) -> (r: ApplyStep)
        requires
            old(self)@.at < old(self)@.stale.len(),
        ensures
            r.made(final(self)@) == old(self)@.guard(line_views(lines@)),
    {
        assert(self@.stale.len() == self.stale@.len());
        assert(self@.stale[self.at as int] == self.stale@[self.at as int]@);
        match self.options.window_secs {
            Some(secs) => {
                if is_voice_daemon(self.stale[self.at].comm.as_str()) {
                    self.phase = ApplyPhase::Window;
                    ApplyStep { lines, action: ApplyAction::SampleWindow { secs } }
                } else {
                    self.restart(lines)
                }
            },
            None => self.restart(lines),
        }
    }

    fn ask(&mut self) -> (r: ApplyStep)
        requires
            old(self)@.at < old(self)@.stale.len(),
        ensures
            r.made(final(self)@) == old(self)@.ask(),
    {
        assert(self@.stale.len() == self.stale@.len());
        assert(self@.stale[self.at as int] == self.stale@[self.at as int]@);
        if self.ledger.is_none() {
            return self.guard(no_lines());
        }
        let path = self.stale[self.at].installed_path();
        self.phase = ApplyPhase::Hash;
        ApplyStep { lines: no_lines(), action: ApplyAction::ReadHash { path } }
    }

    fn gated(&mut self, hash: Option<String>) -> (r: ApplyStep)
        requires
            old(self)@.at < old(self)@.stale.len(),
        ensures
            r.made(final(self)@) == old(self)@.gated(opt_string(hash)),
    {
        broadcast use lemma_texts_push;

        assert(self@.stale.len() == self.stale@.len());
        assert(self@.stale[self.at as int] == self.stale@[self.at as int]@);
        let verdict = match &self.ledger {
            None => {
                return self.guard(no_lines());
            },
            Some(ledger) => gate_installed(
                self.stale[self.at].comm.as_str(),
                self.stale[self.at].installed_path().as_str(),
                &hash,
                ledger,
            ),
        };
        match verdict {
            GateVerdict::Allow => {
                let lines = one_line(self.tell(" auto-gate Allow"));
                self.guard(lines)
            },
            GateVerdict::Refuse { reason } => {
                let lines = one_line(
                    self.tell(
                        " auto-gate Refuse — ".to_owned().concat(reason.as_str()).as_str(),
                    ),
                );
                let name = self.stale[self.at].comm.clone();
                self.refused.push(name);
                let n: usize = self.stale.len();
                assert(self.at < n);
                self.at = self.at + 1;
                self.go(ApplyPhase::Select, lines)
            },
        }
    }

    fn failed(&mut self, e: RolloutError) -> (r: ApplyStep)
        requires
            old(self)@.at < old(self)@.stale.len(),
        ensures
            r.made(final(self)@) == old(self)@.failed(e@),
    {
        assert(self@.stale.len() == self.stale@.len());
        assert(self@.stale[self.at as int] == self.stale@[self.at as int]@);
        let lines = two_lines(
            Line::Warn(
                self.prefix().concat(self.stale[self.at].comm.as_str()).concat(
                    " FAILED — ",
                ).concat(e.to_string().as_str()),
            ),
            Line::Warn("rollout apply: stopping run after first failure".to_owned()),
        );
        self.end(lines, Err(e))
    }

    fn succeeded(&mut self, result: RestartResult) -> (r: ApplyStep)
        requires
            old(self)@.at < old(self)@.stale.len(),
        ensures
            r.made(final(self)@) == old(self)@.succeeded(result@),
    {
        assert(self@.stale.len() == self.stale@.len());
        let killed = if result.sigkill_used {
            ", SIGKILL used"
        } else {
            ""
        };
        let text = " ok (old_pid=".to_owned().concat(
            decimal(result.old_pid as u128).as_str(),
        ).concat(", new_pid=").concat(pid_option_text(result.new_pid).as_str()).concat(
            ", elapsed=",
        ).concat(decimal(result.end_ms.saturating_sub(result.start_ms)).as_str()).concat(
            "ms, restart_path=",
        ).concat(result.restart_path.to_string().as_str()).concat(killed).concat(")");
        assert(text@ =~= restart_text(result@));
        let lines = one_line(self.tell(text.as_str()));
        let ghost before = self.results@;
        self.results.push(result);
        assert(result_views(self.results@) =~= result_views(before).push(result@));
        let n: usize = self.stale.len();
        assert(self.at < n);
        self.at = self.at + 1;
        self.go(ApplyPhase::Select, lines)
    }

    fn restarted(&mut self, outcome: Result<RestartResult, RolloutError>) -> (r: ApplyStep)
        requires
            old(self)@.at < old(self)@.stale.len(),
        ensures
            r.made(final(self)@) == old(self)@.restarted(restart_outcome(outcome)),
    {
        match outcome {
            Ok(result) => self.succeeded(result),
            Err(e) => self.failed(e),
        }
    }

    fn built(&mut self, ran: CommandOutcome, start_ms: u128) -> (r: ApplyStep)
        requires
            old(self)@.at < old(self)@.stale.len(),
        ensures
            r.made(final(self)@) == old(self)@.built(ran@, start_ms as nat),
    {
        assert(self@.stale.len() == self.stale@.len());
        assert(self@.stale[self.at as int] == self.stale@[self.at as int]@);
        match run_recipe_cmd(self.stale[self.at].comm.as_str(), "build", ran) {
            Ok(_) => {},
            Err(e) => {
                return self.failed(e);
            },
        }
        let recipe = match self.fleet.get(self.stale[self.at].comm.as_str()) {
            Some(recipe) => recipe.clone(),
            None => {
                return self.ignored();
            },
        };
        match swap_claim_for_recipe(&recipe) {
            Some(claim_path) => {
                let pid: u32 = self.stale[self.at].pid;
                self.start_ms = start_ms;
                self.phase = ApplyPhase::Swap;
                ApplyStep {
                    lines: no_lines(),
                    action: ApplyAction::Swap { recipe, claim_path, pid },
                }
            },
            None => self.ignored(),
        }
    }

    fn swapped(&mut self, result: WarmSwapResult, end_ms: u128) -> (r: ApplyStep)
        requires
            old(self)@.at < old(self)@.stale.len(),
        ensures
            r.made(final(self)@) == old(self)@.swapped(result@, end_ms as nat),
    {
        assert(self@.stale.len() == self.stale@.len());
        assert(self@.stale[self.at as int] == self.stale@[self.at as int]@);
        let name = self.stale[self.at].comm.clone();
        match result {
            WarmSwapResult::Success { prev_pid, new_pid } => {
                let start_ms: u128 = self.start_ms;
                self.succeeded(
                    RestartResult {
                        name,
                        old_pid: prev_pid,
                        new_pid,
                        start_ms,
                        end_ms,
                        success: true,
                        sigkill_used: false,
                        restart_path: RestartStrategy::WarmSwap,
                    },
                )
            },
            WarmSwapResult::SplitState { holders } => {
                let old_pid: u32 = self.stale[self.at].pid;
                let reason = "warm-swap: expected 1 claim holder, got ".to_owned().concat(
                    decimal(holders as u128).as_str(),
                );
                self.failed(
                    RolloutError::HealthcheckTimeout { name, old_pid, new_pid: None, reason },
                )
            },
            WarmSwapResult::Failed(e) => self.failed(e),
        }
    }

    /// Take the next step of the run.
    #[verifier::spinoff_prover]
    pub fn run_apply(&mut self, event: ApplyEvent) -> (r: ApplyStep)
        ensures
            r.made(final(self)@) == old(self)@.step(event@),
    {
        proof {
            reveal(ApplyView::step);
        }
        assert(self@.stale.len() == self.stale@.len());
        let in_range = self.at < self.stale.len();
        match (self.phase, event) {
            (ApplyPhase::Start, ApplyEvent::Go) => self.begin(),
            (ApplyPhase::Ledger, ApplyEvent::Loaded(loaded)) => {
                match loaded {
                    Ok(ledger) => {
                        self.ledger = Some(ledger);
                        self.ready()
                    },
                    Err(e) => self.end(no_lines(), Err(e)),
                }
            },
            (ApplyPhase::Select, ApplyEvent::Go) => self.select(),
            (ApplyPhase::Voice, ApplyEvent::Voice(state)) => {
                if !in_range {
                    return self.ignored();
                }
                match state {
                    VoiceActivityState::InFlight { reason } => self.defer(
                        "voice active: ".to_owned().concat(reason.as_str()).as_str(),
                    ),
                    VoiceActivityState::BusUnreachable => self.defer(
                        "agorabus unreachable (cannot confirm turn is idle; will not restart blind)",
                    ),
                    VoiceActivityState::Idle => self.go(ApplyPhase::Gate, no_lines()),
                }
            },
            (ApplyPhase::Gate, ApplyEvent::Go) => {
                if !in_range {
                    return self.ignored();
                }
                self.ask()
            },
            (ApplyPhase::Hash, ApplyEvent::Hash(hash)) => {
                if !in_range {
                    return self.ignored();
                }
                self.gated(hash)
            },
            (ApplyPhase::Window, ApplyEvent::Window(sample)) => {
                if !in_range {
                    return self.ignored();
                }
                assert(self@.stale[self.at as int] == self.stale@[self.at as int]@);
                match check_window_guard(self.stale[self.at].comm.as_str(), sample) {
                    Ok(_) => self.restart(no_lines()),
                    Err(e) => self.end(no_lines(), Err(e)),
                }
            },
            (ApplyPhase::Restart, ApplyEvent::Restarted(outcome)) => {
                if !in_range {
                    return self.ignored();
                }
                self.restarted(outcome)
            },
            (ApplyPhase::Build, ApplyEvent::Built { ran, start_ms }) => {
                if !in_range {
                    return self.ignored();
                }
                self.built(ran, start_ms)
            },
            (ApplyPhase::Swap, ApplyEvent::Swapped { result, end_ms }) => {
                if !in_range {
                    return self.ignored();
                }
                self.swapped(result, end_ms)
            },
            _ => self.ignored(),
        }
    }
}

// ---------------------------------------------------------------------------
// Laws
// ---------------------------------------------------------------------------

/// The run after the given events.
pub open spec fn apply_after(s: ApplyView, events: Seq<ApplyEventView>) -> ApplyView
    decreases events.len(),
{
    if events.len() == 0 {
        s
    } else {
        apply_after(s, events.drop_last()).step(events.last()).state
    }
}

/// What is to be done after the event with the number `k`.
pub open spec fn apply_action(
    s: ApplyView,
    events: Seq<ApplyEventView>,
    k: int,
) -> ApplyActionView {
    apply_after(s, events.take(k)).step(events[k]).action
}

/// Whether the event with the number `i` says that the voice loop is idle, in answer to a
/// probe for the entry with the number `at`.
pub open spec fn heard_idle(s: ApplyView, events: Seq<ApplyEventView>, i: int, at: nat) -> bool {
    apply_after(s, events.take(i)).phase == ApplyPhase::Voice && apply_after(s, events.take(i)).at
        == at && events[i] == ApplyEventView::Voice(ActivityView::Idle)
}

/// Whether an action does something to a daemon.
pub open spec fn touches(action: ApplyActionView) -> bool {
    action is Restart || action is Build || action is Swap
}

/// Whether an event says that the restart or the warm swap at hand succeeded.
pub open spec fn comes_back(s: ApplyView, event: ApplyEventView) -> bool {
    ||| s.phase == ApplyPhase::Restart && (event matches ApplyEventView::Restarted(r) && r is Ok)
    ||| s.phase == ApplyPhase::Swap && (event matches ApplyEventView::Swapped { result, end_ms }
        && result is Success)
}

/// Whether the event with the number `i` says that the restart or the warm swap at hand
/// succeeded.
pub open spec fn heard_back(s: ApplyView, events: Seq<ApplyEventView>, i: int) -> bool {
    comes_back(apply_after(s, events.take(i)), events[i])
}

/// Whether an event says that the build command ran and succeeded.
pub open spec fn is_built(event: ApplyEventView) -> bool {
    event matches ApplyEventView::Built { ran, start_ms } && (ran matches CommandView::Exited {
        success,
        code,
    } && success)
}

/// Whether the event with the number `i` gives the hash of the installed binary of the entry
/// with the number `at`, in answer to the question for it.
pub open spec fn heard_hash(
    s: ApplyView,
    events: Seq<ApplyEventView>,
    i: int,
    at: nat,
    hash: Seq<char>,
) -> bool {
    apply_after(s, events.take(i)).phase == ApplyPhase::Hash && apply_after(s, events.take(i)).at
        == at && events[i] == ApplyEventView::Hash(Some(hash))
}

/// Whether the ledger, where the run asks it, allows the entry at hand with a binary of the
/// given hash.
pub open spec fn allowed(s: ApplyView, hash: Seq<char>) -> bool {
    s.ledger matches Some(ledger) ==> gate_verdict(
        s.entry().comm,
        hash,
        ledger,
        default_gate(),
    ) is Allow
}

/// Whether the run does not ask a ledger, or the event gives a hash that the ledger allows.
pub open spec fn passes(s: ApplyView, event: ApplyEventView) -> bool {
    s.ledger is Some ==> (event matches ApplyEventView::Hash(hash) && (hash matches Some(h)
        && allowed(s, h)))
}

/// Whether the phase lies behind the first decision of a run.
pub open spec fn under_way(phase: ApplyPhase) -> bool {
    phase == ApplyPhase::Select || daemon_at_hand(phase)
}

/// Whether the phase is one in which a daemon is at hand.
pub open spec fn daemon_at_hand(phase: ApplyPhase) -> bool {
    phase == ApplyPhase::Voice || phase == ApplyPhase::Gate || phase == ApplyPhase::Hash
        || past_gate(phase)
}

/// Whether the phase lies behind the ledger's permission for the daemon at hand.
pub open spec fn past_gate(phase: ApplyPhase) -> bool {
    phase == ApplyPhase::Window || in_flight(phase)
}

/// Whether the phase is one in which something is done to the daemon at hand.
pub open spec fn in_flight(phase: ApplyPhase) -> bool {
    phase == ApplyPhase::Restart || phase == ApplyPhase::Build || phase == ApplyPhase::Swap
}

/// Whether an action is what the recipe of the entry at hand asks for: a restart, or a build and a
/// swap on the claim that is swapped on.
pub open spec fn by_recipe(s: ApplyView, action: ApplyActionView) -> bool {
    let recipe = s.fleet[s.entry().comm];
    let pid = s.entry().pid;
    match swap_claim(recipe) {
        None => action == ApplyActionView::Restart { recipe, pid },
        Some(claim_path) => {
            ||| action == ApplyActionView::Build { cmd: recipe.build_cmd, dir: recipe.repo }
            ||| action == ApplyActionView::Swap { recipe, claim_path, pid }
        },
    }
}

proof fn lemma_apply_step(s: ApplyView, event: ApplyEventView)
    ensures
        ({
            let next = s.step(event).state;
            let action = s.step(event).action;
            let done = |v: ApplyView| v.results.len() + v.deferred.len() + v.refused.len();
            &&& next.fleet == s.fleet && next.stale == s.stale && next.options == s.options
                && next.auto_value == s.auto_value
            &&& next.ledger == s.ledger || s.phase == ApplyPhase::Ledger && next.ledger is Some
            &&& next.phase != s.phase ==> match next.phase {
                ApplyPhase::Start => false,
                ApplyPhase::Ledger => s.phase == ApplyPhase::Start && s.options.auto
                    && s.auto_value == "1"@ && s.stale.len() > 0 && names_validated(
                    s.fleet,
                    entry_names(s.stale),
                ) is Ok,
                ApplyPhase::Select => !s.options.dry_run && (s.phase == ApplyPhase::Start
                    && !s.options.auto && s.stale.len() > 0 && names_validated(
                    s.fleet,
                    entry_names(s.stale),
                ) is Ok || s.phase == ApplyPhase::Ledger && next.ledger is Some) || s.phase
                    == ApplyPhase::Voice || s.phase == ApplyPhase::Hash || comes_back(s, event),
                ApplyPhase::Voice => s.phase == ApplyPhase::Select,
                ApplyPhase::Gate => s.phase == ApplyPhase::Select && !is_voice(s.entry().comm)
                    || s.phase == ApplyPhase::Voice && event == ApplyEventView::Voice(
                    ActivityView::Idle,
                ),
                ApplyPhase::Hash => s.phase == ApplyPhase::Gate && s.ledger is Some,
                ApplyPhase::Window => (s.phase == ApplyPhase::Gate && s.ledger is None || s.phase
                    == ApplyPhase::Hash) && passes(s, event),
                ApplyPhase::Restart => (s.phase == ApplyPhase::Gate && s.ledger is None || s.phase
                    == ApplyPhase::Hash) && passes(s, event) || s.phase == ApplyPhase::Window,
                ApplyPhase::Build => (s.phase == ApplyPhase::Gate && s.ledger is None || s.phase
                    == ApplyPhase::Hash) && passes(s, event) || s.phase == ApplyPhase::Window,
                ApplyPhase::Swap => s.phase == ApplyPhase::Build && is_built(event),
                ApplyPhase::Done => action is Finish,
            }
            &&& daemon_at_hand(next.phase) && next.phase != s.phase ==> next.at < next.stale.len()
                && next.at == s.at
            &&& next.at == s.at || next.at == s.at + 1 && s.at < s.stale.len() && next.phase
                == ApplyPhase::Select
            &&& done(next) - done(s) == next.at - s.at
            &&& next.deferred != s.deferred ==> s.phase == ApplyPhase::Voice && next.deferred
                == s.deferred.push(s.entry().comm)
            &&& touches(action) ==> in_flight(next.phase) && next.phase != s.phase && next.at
                == s.at && s.fleet.contains_key(s.entry().comm) && by_recipe(s, action)
            &&& in_flight(next.phase) && next.phase != s.phase ==> touches(action)
            &&& action is Restart ==> next.phase == ApplyPhase::Restart
            &&& action is Build ==> next.phase == ApplyPhase::Build
            &&& action is Swap ==> next.phase == ApplyPhase::Swap && s.phase == ApplyPhase::Build
                && is_built(event)
            &&& in_flight(s.phase) && next.phase != s.phase ==> {
                ||| next.phase == ApplyPhase::Done
                ||| next.phase == ApplyPhase::Swap && s.phase == ApplyPhase::Build
                ||| next.phase == ApplyPhase::Select && comes_back(s, event) && next.at == s.at + 1
            }
            &&& in_flight(s.phase) && next.phase == s.phase ==> next == s
            &&& s.phase == ApplyPhase::Done ==> action is Ignored && next == s
            &&& s.phase == ApplyPhase::Voice && next.phase == ApplyPhase::Select ==> next.at
                == s.at + 1
            &&& s.phase == ApplyPhase::Hash && next.phase == ApplyPhase::Select ==> next.at
                == s.at + 1
        }),
{
    reveal(ApplyView::step);
}

/// What holds of a run that began with nothing done.
pub open spec fn apply_holds(
    s: ApplyView,
    events: Seq<ApplyEventView>,
) -> bool {
    let now = apply_after(s, events);
    let n = events.len() as int;
    &&& now.fleet == s.fleet && now.stale == s.stale && now.options == s.options && now.auto_value
        == s.auto_value
    &&& now.at <= now.stale.len()
    &&& now.at == now.results.len() + now.deferred.len() + now.refused.len()
    &&& now.phase == ApplyPhase::Ledger || under_way(now.phase) ==> s.stale.len() > 0
        && names_validated(s.fleet, entry_names(s.stale)) is Ok && (s.options.auto
        ==> s.auto_value == "1"@)
    &&& under_way(now.phase) ==> !s.options.dry_run && (s.options.auto ==> now.ledger is Some)
    &&& daemon_at_hand(now.phase) ==> now.at < now.stale.len()
    &&& daemon_at_hand(now.phase) && now.phase != ApplyPhase::Voice && is_voice(now.entry().comm)
        ==> exists|i: int| 0 <= i < n && #[trigger] heard_idle(s, events, i, now.at)
    &&& past_gate(now.phase) && now.ledger is Some ==> exists|i: int, hash: Seq<char>|
        0 <= i < n && #[trigger] heard_hash(s, events, i, now.at, hash) && allowed(now, hash)
    &&& now.phase == ApplyPhase::Voice ==> is_voice(now.entry().comm)
    &&& forall|i: int| 0 <= i < now.deferred.len() ==> is_voice(#[trigger] now.deferred[i])
    &&& now.phase == ApplyPhase::Ledger ==> s.options.auto
}

proof fn lemma_apply_trace(s: ApplyView, events: Seq<ApplyEventView>)
    requires
        s == apply_begun(s.fleet, s.stale, s.options, s.auto_value),
    ensures
        apply_holds(s, events),
    decreases events.len(),
{
    if events.len() > 0 {
        let before = events.drop_last();
        let m = before.len() as int;
        let was = apply_after(s, before);
        let now = apply_after(s, events);
        lemma_apply_trace(s, before);
        lemma_apply_step(was, events.last());
        assert(events.take(m) =~= before);
        assert forall|i: int, at: nat| 0 <= i < m implies #[trigger] heard_idle(s, events, i, at)
            == heard_idle(s, before, i, at) by {
            assert(events.take(i) =~= before.take(i));
        }
        assert forall|i: int, at: nat, hash: Seq<char>| 0 <= i < m implies #[trigger] heard_hash(
            s,
            events,
            i,
            at,
            hash,
        ) == heard_hash(s, before, i, at, hash) by {
            assert(events.take(i) =~= before.take(i));
        }
        if past_gate(now.phase) && now.ledger is Some {
            if was.phase == ApplyPhase::Hash {
                let hash = events.last()->Hash_0->Some_0;
                assert(heard_hash(s, events, m, now.at, hash) && allowed(now, hash));
            } else {
                let (i, hash) = choose|i: int, hash: Seq<char>|
                    0 <= i < m && #[trigger] heard_hash(s, before, i, was.at, hash) && allowed(
                        was,
                        hash,
                    );
                assert(heard_hash(s, events, i, now.at, hash) && allowed(now, hash));
            }
        }
        if daemon_at_hand(now.phase) && now.phase != ApplyPhase::Voice {
            if is_voice(now.entry().comm) {
                if was.phase == ApplyPhase::Voice {
                    assert(heard_idle(s, events, m, now.at));
                } else {
                    let i = choose|i: int|
                        0 <= i < m && #[trigger] heard_idle(s, before, i, was.at);
                    assert(heard_idle(s, events, i, now.at));
                }
            }
        }
        if now.phase == ApplyPhase::Voice && was.phase == ApplyPhase::Select {
            reveal(ApplyView::step);
        }
    }
}

/// A daemon is restarted, built or swapped by its own recipe, and only if every stale daemon has
/// one.
pub proof fn law_no_recipe_no_restart(
    fleet: Map<Seq<char>, RecipeView>,
    stale: Seq<EntryView>,
    options: ApplyOptions,
    auto_value: Seq<char>,
    events: Seq<ApplyEventView>,
    k: int,
)
    requires
        0 <= k < events.len(),
        touches(apply_action(apply_begun(fleet, stale, options, auto_value), events, k)),
    ensures
        forall|i: int| 0 <= i < stale.len() ==> fleet.contains_key((#[trigger] stale[i]).comm),
        ({
            let s = apply_begun(fleet, stale, options, auto_value);
            let at = apply_after(s, events.take(k)).at;
            &&& at < stale.len()
            &&& by_recipe(apply_after(s, events.take(k)), apply_action(s, events, k))
        }),
{
    let s = apply_begun(fleet, stale, options, auto_value);
    let first = events.take(k + 1);
    assert(first.drop_last() =~= events.take(k));
    assert(first.last() == events[k]);
    lemma_apply_trace(s, events.take(k));
    lemma_apply_step(apply_after(s, events.take(k)), events[k]);
    lemma_apply_trace(s, first);
    law_validation(fleet, entry_names(stale));
    assert forall|i: int| 0 <= i < stale.len() implies fleet.contains_key(
        (#[trigger] stale[i]).comm,
    ) by {
        assert(entry_names(stale)[i] == stale[i].comm);
    }
}

/// Where a stale daemon has no recipe, the run ends at once and names exactly such daemons.
pub proof fn law_unknown_refused_at_once(s: ApplyView)
    requires
        s.phase == ApplyPhase::Start,
        names_validated(s.fleet, entry_names(s.stale)) is Err,
    ensures
        s.step(ApplyEventView::Go).action == ApplyActionView::Finish(
            names_validated(s.fleet, entry_names(s.stale)),
        ),
        s.step(ApplyEventView::Go).lines.len() == 0,
{
    reveal(ApplyView::step);
    law_validation(s.fleet, entry_names(s.stale));
    assert(entry_names(s.stale).len() == s.stale.len());
}

/// A voice daemon is restarted, built or swapped only after a probe that was made for it said that
/// the voice loop is idle.
pub proof fn law_voice_daemon_probed_idle(
    fleet: Map<Seq<char>, RecipeView>,
    stale: Seq<EntryView>,
    options: ApplyOptions,
    auto_value: Seq<char>,
    events: Seq<ApplyEventView>,
    k: int,
)
    requires
        0 <= k < events.len(),
        touches(apply_action(apply_begun(fleet, stale, options, auto_value), events, k)),
        is_voice(
            stale[apply_after(
                apply_begun(fleet, stale, options, auto_value),
                events.take(k),
            ).at as int].comm,
        ),
    ensures
        ({
            let s = apply_begun(fleet, stale, options, auto_value);
            exists|i: int|
                0 <= i <= k && #[trigger] heard_idle(
                    s,
                    events,
                    i,
                    apply_after(s, events.take(k)).at,
                )
        }),
{
    let s = apply_begun(fleet, stale, options, auto_value);
    let first = events.take(k + 1);
    let at = apply_after(s, events.take(k)).at;
    assert(first.drop_last() =~= events.take(k));
    assert(first.last() == events[k]);
    lemma_apply_trace(s, first);
    lemma_apply_trace(s, events.take(k));
    lemma_apply_step(apply_after(s, events.take(k)), events[k]);
    let i = choose|i: int| 0 <= i < first.len() && #[trigger] heard_idle(s, first, i, at);
    assert(first.take(i) =~= events.take(i));
    assert(heard_idle(s, events, i, at));
}

/// In an unattended run a daemon is restarted, built or swapped only where such runs are enabled
/// and the ledger allows it for the hash of its installed binary, which was asked for and given
/// before.
pub proof fn law_auto_needs_proof(
    fleet: Map<Seq<char>, RecipeView>,
    stale: Seq<EntryView>,
    options: ApplyOptions,
    auto_value: Seq<char>,
    events: Seq<ApplyEventView>,
    k: int,
)
    requires
        0 <= k < events.len(),
        options.auto,
        touches(apply_action(apply_begun(fleet, stale, options, auto_value), events, k)),
    ensures
        auto_value == "1"@,
        ({
            let s = apply_begun(fleet, stale, options, auto_value);
            let now = apply_after(s, events.take(k));
            &&& now.ledger is Some
            &&& exists|i: int, hash: Seq<char>|
                0 <= i <= k && #[trigger] heard_hash(s, events, i, now.at, hash) && gate_verdict(
                    now.entry().comm,
                    hash,
                    now.ledger->Some_0,
                    default_gate(),
                ) is Allow
        }),
{
    let s = apply_begun(fleet, stale, options, auto_value);
    let first = events.take(k + 1);
    assert(first.drop_last() =~= events.take(k));
    assert(first.last() == events[k]);
    lemma_apply_trace(s, events.take(k));
    lemma_apply_step(apply_after(s, events.take(k)), events[k]);
    lemma_apply_trace(s, first);
    let then = apply_after(s, first);
    let (i, hash) = choose|i: int, hash: Seq<char>|
        0 <= i < first.len() && #[trigger] heard_hash(s, first, i, then.at, hash) && allowed(
            then,
            hash,
        );
    assert(first.take(i) =~= events.take(i));
    assert(heard_hash(s, events, i, apply_after(s, events.take(k)).at, hash));
}

/// The hash that is asked for is that of the binary that is installed for the entry at hand.
pub proof fn law_hash_of_installed_binary(s: ApplyView, event: ApplyEventView)
    ensures
        s.step(event).action matches ApplyActionView::ReadHash { path } ==> s.step(event).state.phase
            == ApplyPhase::Hash && s.step(event).state.at == s.at && path
            == s.entry().installed_path(),
{
    reveal(ApplyView::step);
}

/// A dry run restarts, builds and swaps nothing.
pub proof fn law_dry_run_restarts_nothing(
    fleet: Map<Seq<char>, RecipeView>,
    stale: Seq<EntryView>,
    options: ApplyOptions,
    auto_value: Seq<char>,
    events: Seq<ApplyEventView>,
    k: int,
)
    requires
        0 <= k < events.len(),
        options.dry_run,
    ensures
        !touches(apply_action(apply_begun(fleet, stale, options, auto_value), events, k)),
{
    let s = apply_begun(fleet, stale, options, auto_value);
    let first = events.take(k + 1);
    assert(first.drop_last() =~= events.take(k));
    assert(first.last() == events[k]);
    lemma_apply_step(apply_after(s, events.take(k)), events[k]);
    lemma_apply_trace(s, first);
}

proof fn lemma_restart_answered(s: ApplyView, events: Seq<ApplyEventView>, i: int, n: int)
    requires
        s == apply_begun(s.fleet, s.stale, s.options, s.auto_value),
        0 <= i < n <= events.len(),
        touches(apply_action(s, events, i)),
    ensures
        ({
            let now = apply_after(s, events.take(n));
            let then = apply_after(s, events.take(i));
            ||| in_flight(now.phase) && now.at == then.at && (now.phase == ApplyPhase::Build
                ==> apply_action(s, events, i) is Build)
            ||| now.phase == ApplyPhase::Done
            ||| now.at > then.at && exists|m: int| i < m < n && #[trigger] heard_back(s, events, m)
        }),
    decreases n - i,
{
    let now = apply_after(s, events.take(n));
    let before = events.take(n - 1);
    let was = apply_after(s, before);
    assert(events.take(n).drop_last() =~= before);
    assert(events.take(n).last() == events[n - 1]);
    lemma_apply_step(was, events[n - 1]);
    lemma_apply_trace(s, before);
    if n > i + 1 {
        lemma_restart_answered(s, events, i, n - 1);
        if in_flight(was.phase) && was.at == apply_after(s, events.take(i)).at {
            if now.phase == ApplyPhase::Select {
                assert(heard_back(s, events, n - 1));
            }
        }
    }
}

/// Restarts do not overlap: of two actions on daemons the later is the swap of the daemon that the
/// earlier one built, or it is on a later entry and in between the earlier daemon was reported
/// back.
pub proof fn law_serialized(
    fleet: Map<Seq<char>, RecipeView>,
    stale: Seq<EntryView>,
    options: ApplyOptions,
    auto_value: Seq<char>,
    events: Seq<ApplyEventView>,
    i: int,
    j: int,
)
    requires
        0 <= i < j < events.len(),
        touches(apply_action(apply_begun(fleet, stale, options, auto_value), events, i)),
        touches(apply_action(apply_begun(fleet, stale, options, auto_value), events, j)),
    ensures
        ({
            let s = apply_begun(fleet, stale, options, auto_value);
            let first = apply_after(s, events.take(i)).at;
            let second = apply_after(s, events.take(j)).at;
            ||| first == second && apply_action(s, events, i) is Build && apply_action(
                s,
                events,
                j,
            ) is Swap
            ||| first < second && exists|m: int| i < m < j && #[trigger] heard_back(s, events, m)
        }),
{
    let s = apply_begun(fleet, stale, options, auto_value);
    lemma_restart_answered(s, events, i, j);
    lemma_apply_step(apply_after(s, events.take(j)), events[j]);
}

/// Why the daemon at hand could not be restarted, where the event says that it could not.
pub open spec fn failure(s: ApplyView, event: ApplyEventView) -> Option<RolloutErrorView> {
    match (s.phase, event) {
        (ApplyPhase::Restart, ApplyEventView::Restarted(Err(e))) => Some(e),
        (ApplyPhase::Build, ApplyEventView::Built { ran, start_ms }) => match recipe_cmd_result(
            s.entry().comm,
            "build"@,
            ran,
        ) {
            Err(e) => Some(e),
            Ok(_) => None,
        },
        (ApplyPhase::Swap, ApplyEventView::Swapped { result, end_ms }) => match result {
            SwapResultView::Success { prev_pid, new_pid } => None,
            SwapResultView::SplitState { holders } => Some(s.split(holders)),
            SwapResultView::Failed(e) => Some(e),
        },
        _ => None,
    }
}

/// The first restart, build or swap that fails ends the run with its error, and a run that has
/// ended does nothing any more. A claim that is not held by exactly one process is such a failure.
pub proof fn law_stops_on_first_failure(s: ApplyView, event: ApplyEventView, later: ApplyEventView)
    requires
        s.at < s.stale.len(),
        failure(s, event) is Some,
    ensures
        ({
            let failed = s.step(event);
            &&& failed.action == ApplyActionView::Finish(Err(failure(s, event)->Some_0))
            &&& failed.state.phase == ApplyPhase::Done
            &&& failed.state.step(later).action is Ignored
            &&& failed.state.step(later).state == failed.state
        }),
{
    reveal(ApplyView::step);
}

/// A swap after which the claim is not held by exactly one process ends the run with an error that
/// names the daemon and its old process, knows of no new one, and says how many hold the claim.
pub proof fn law_split_ends_run(s: ApplyView, holders: nat, end_ms: nat)
    requires
        s.phase == ApplyPhase::Swap,
        s.at < s.stale.len(),
    ensures
        ({
            let entry = s.stale[s.at as int];
            s.step(
                ApplyEventView::Swapped { result: SwapResultView::SplitState { holders }, end_ms },
            ).action == ApplyActionView::Finish(
                Err(
                    RolloutErrorView::HealthcheckTimeout {
                        name: entry.comm,
                        old_pid: entry.pid,
                        new_pid: None,
                        reason: "warm-swap: expected 1 claim holder, got "@ + dec(holders),
                    },
                ),
            )
        }),
{
    reveal(ApplyView::step);
}

/// While something is done to a daemon nothing but what came of it moves the run.
pub proof fn law_waits_for_restart(s: ApplyView, event: ApplyEventView)
    requires
        in_flight(s.phase),
        s.phase == ApplyPhase::Restart ==> !(event is Restarted),
        s.phase == ApplyPhase::Build ==> !(event is Built),
        s.phase == ApplyPhase::Swap ==> !(event is Swapped),
    ensures
        s.step(event).action is Ignored,
        s.step(event).state == s,
{
    reveal(ApplyView::step);
}

/// A daemon is swapped only when its build was just reported to have succeeded.
pub proof fn law_build_before_swap(s: ApplyView, event: ApplyEventView)
    ensures
        s.step(event).action is Swap ==> s.phase == ApplyPhase::Build && is_built(event),
{
    reveal(ApplyView::step);
}

/// What the plan shows is what is run. For a daemon that is built and swapped warm the plan could
/// be made and tells the strategy `warm-swap`, the command that builds it and the steps of a swap
/// on the claim that is swapped on. For a daemon that is restarted in place the plan tells the
/// strategy `hard`, unless the daemon has no claim to swap on.
pub proof fn law_plan_shows_what_runs(
    fleet: Map<Seq<char>, RecipeView>,
    all: Seq<EntryView>,
    only: Option<Seq<char>>,
    options: ApplyOptions,
    auto_value: Seq<char>,
    events: Seq<ApplyEventView>,
    k: int,
)
    requires
        0 <= k < events.len(),
        touches(
            apply_action(
                apply_begun(fleet, only_entries(all, only), options, auto_value),
                events,
                k,
            ),
        ),
    ensures
        ({
            let stale = only_entries(all, only);
            let s = apply_begun(fleet, stale, options, auto_value);
            let at = apply_after(s, events.take(k)).at;
            let recipe = fleet[stale[at as int].comm];
            let told = plan_entry(at, stale.len(), stale[at as int], recipe);
            let warm = told.contains(LineView::Out("  strategy: warm-swap"@));
            let hard = told.contains(LineView::Out("  strategy: hard"@));
            let action = apply_action(s, events, k);
            &&& plan(fleet, all, only).1 is Ok
            &&& told_within(plan(fleet, all, only).0, told)
            &&& warm != hard
            &&& !(action is Restart) <==> warm && claim_path(recipe) is Some
            &&& action matches ApplyActionView::Build { cmd, dir } ==> told.contains(
                LineView::Out("  build:   "@ + cmd),
            )
            &&& action matches ApplyActionView::Swap { recipe: _, claim_path, pid } ==> pid
                == stale[at as int].pid && told_within(told, swap_sequence(claim_path))
        }),
{
    let stale = only_entries(all, only);
    let s = apply_begun(fleet, stale, options, auto_value);
    let now = apply_after(s, events.take(k));
    law_no_recipe_no_restart(fleet, stale, options, auto_value, events, k);
    lemma_apply_trace(s, events.take(k));
    law_validation(fleet, entry_names(stale));
    law_plan_covers_every_entry(fleet, all, only, now.at as int);
    let entry = stale[now.at as int];
    law_plan_tells_strategy(now.at, stale.len(), entry, fleet[entry.comm]);
}

/// Whether an event tells what came of an action.
pub open spec fn answers(action: ApplyActionView, event: ApplyEventView) -> bool {
    match action {
        ApplyActionView::Continue => event is Go,
        ApplyActionView::LoadLedger => event is Loaded,
        ApplyActionView::ProbeVoice => event is Voice,
        ApplyActionView::ReadHash { .. } => event is Hash,
        ApplyActionView::SampleWindow { .. } => event is Window,
        ApplyActionView::Restart { .. } => event is Restarted,
        ApplyActionView::Build { .. } => event is Built,
        ApplyActionView::Swap { .. } => event is Swapped,
        ApplyActionView::Finish(_) => false,
        ApplyActionView::Ignored => false,
    }
}

/// Whether an event is one that a run waits for.
spec fn takes(s: ApplyView, event: ApplyEventView) -> bool {
    match s.phase {
        ApplyPhase::Start => event is Go,
        ApplyPhase::Ledger => event is Loaded,
        ApplyPhase::Select => event is Go,
        ApplyPhase::Voice => event is Voice && s.at < s.stale.len(),
        ApplyPhase::Gate => event is Go && s.at < s.stale.len(),
        ApplyPhase::Hash => event is Hash && s.at < s.stale.len(),
        ApplyPhase::Window => event is Window && s.at < s.stale.len(),
        ApplyPhase::Restart => event is Restarted && s.at < s.stale.len(),
        ApplyPhase::Build => event is Built && s.at < s.stale.len() && s.claim() is Some,
        ApplyPhase::Swap => event is Swapped && s.at < s.stale.len(),
        ApplyPhase::Done => false,
    }
}

proof fn lemma_answer_taken(s: ApplyView, event: ApplyEventView, answer: ApplyEventView)
    requires
        answers(s.step(event).action, answer),
    ensures
        takes(s.step(event).state, answer),
{
    reveal(ApplyView::step);
}

proof fn lemma_taken(s: ApplyView, event: ApplyEventView)
    requires
        takes(s, event),
    ensures
        !(s.step(event).action is Ignored),
{
    reveal(ApplyView::step);
}

/// A run is never stuck: it begins when it is told to, and whatever came of an action moves it
/// on.
pub proof fn law_apply_never_stuck(s: ApplyView, event: ApplyEventView, answer: ApplyEventView)
    ensures
        s.phase == ApplyPhase::Start && event is Go ==> !(s.step(event).action is Ignored),
        answers(s.step(event).action, answer) ==> !(s.step(event).state.step(
            answer,
        ).action is Ignored),
{
    if s.phase == ApplyPhase::Start && event is Go {
        lemma_taken(s, event);
    }
    if answers(s.step(event).action, answer) {
        lemma_answer_taken(s, event, answer);
        lemma_taken(s.step(event).state, answer);
    }
}

/// A run that took up every daemon has as many restarts, deferrals and refusals as there are
/// stale daemons, has deferred voice daemons only, and fails exactly when it deferred one.
pub proof fn law_every_daemon_accounted_for(
    fleet: Map<Seq<char>, RecipeView>,
    stale: Seq<EntryView>,
    options: ApplyOptions,
    auto_value: Seq<char>,
    events: Seq<ApplyEventView>,
)
    requires
        ({
            let now = apply_after(apply_begun(fleet, stale, options, auto_value), events);
            now.phase == ApplyPhase::Select && now.at >= stale.len()
        }),
    ensures
        ({
            let now = apply_after(apply_begun(fleet, stale, options, auto_value), events);
            let action = now.step(ApplyEventView::Go).action;
            &&& now.results.len() + now.deferred.len() + now.refused.len() == stale.len()
            &&& forall|i: int| 0 <= i < now.deferred.len() ==> is_voice(#[trigger] now.deferred[i])
            &&& action is Finish
            &&& action == ApplyActionView::Finish(Ok(())) <==> now.deferred.len() == 0
            &&& now.deferred.len() > 0 ==> action == ApplyActionView::Finish(
                Err(
                    RolloutErrorView::VoiceActivityDeferred {
                        names: joined(now.deferred, ", "@),
                        count: now.deferred.len(),
                    },
                ),
            )
        }),
{
    reveal(ApplyView::step);
    lemma_apply_trace(apply_begun(fleet, stale, options, auto_value), events);
}

/// How a run begins. Nothing stale ends it well, a stale daemon without a recipe ends it with an
/// error, and an unattended run that is not enabled ends well without doing anything. An unattended
/// run that is enabled reads the ledger; a dry run ends well; and any other goes on to the daemons.
pub proof fn law_apply_begins(s: ApplyView)
    requires
        s.phase == ApplyPhase::Start,
    ensures
        ({
            let then = s.step(ApplyEventView::Go);
            let well = then.action == ApplyActionView::Finish(Ok(()));
            let covered = forall|i: int|
                0 <= i < s.stale.len() ==> s.fleet.contains_key((#[trigger] s.stale[i]).comm);
            if s.stale.len() == 0 {
                well
            } else if !covered {
                then.action matches ApplyActionView::Finish(r) && (r matches Err(e)
                    && e is UnknownDaemons)
            } else if s.options.auto {
                if s.auto_value == "1"@ {
                    then.action is LoadLedger
                } else {
                    well
                }
            } else if s.options.dry_run {
                well
            } else {
                then.action is Continue && then.state.phase == ApplyPhase::Select
            }
        }),
{
    reveal(ApplyView::step);
    let names = entry_names(s.stale);
    law_validation(s.fleet, names);
    law_validation_names_missing(s.fleet, names);
    assert(forall|i: int| 0 <= i < s.stale.len() ==> names[i] == (#[trigger] s.stale[i]).comm);
    if names_validated(s.fleet, names) is Err {
        let i = choose|i: int| 0 <= i < names.len() && !s.fleet.contains_key(#[trigger] names[i]);
        assert(!s.fleet.contains_key(s.stale[i].comm));
    } else {
        assert forall|i: int| 0 <= i < s.stale.len() implies s.fleet.contains_key(
            (#[trigger] s.stale[i]).comm,
        ) by {
            assert(s.fleet.contains_key(names[i]));
        }
    }
}

/// A ledger that was read is the one that the run asks; one that could not be read ends the run with
/// that error.
pub proof fn law_apply_reads_ledger(
    s: ApplyView,
    loaded: Result<Map<Seq<char>, ProofView>, RolloutErrorView>,
)
    requires
        s.phase == ApplyPhase::Ledger,
    ensures
        ({
            let then = s.step(ApplyEventView::Loaded(loaded));
            match loaded {
                Err(e) => then.action == ApplyActionView::Finish(Err(e)),
                Ok(ledger) => then.state.ledger == Some(ledger) && if s.options.dry_run {
                    then.action == ApplyActionView::Finish(Ok(()))
                } else {
                    then.action is Continue && then.state.phase == ApplyPhase::Select
                },
            }
        }),
{
    reveal(ApplyView::step);
}

/// A dry run tells how many daemons it would restart, and then the name of each, in their order.
pub proof fn law_dry_run_is_told(s: ApplyView, event: ApplyEventView, i: int)
    requires
        s.options.dry_run,
        s.stale.len() > 0,
        0 <= i < s.stale.len(),
        s.phase == ApplyPhase::Start && event is Go && !s.options.auto && names_validated(
            s.fleet,
            entry_names(s.stale),
        ) is Ok || s.phase == ApplyPhase::Ledger && (event matches ApplyEventView::Loaded(l)
            && l is Ok),
    ensures
        ({
            let lines = s.step(event).lines;
            &&& lines.len() == s.stale.len() + 1
            &&& lines[0] is Out && mentions(
                lines[0]->Out_0,
                "would restart "@ + dec(s.stale.len()) + " "@,
            )
            &&& lines[i + 1] is Out && s.stale[i].comm.is_suffix_of(lines[i + 1]->Out_0)
        }),
{
    reveal(ApplyView::step);
    let lines = s.step(event).lines;
    let t = lines[0]->Out_0;
    reveal_strlit("rollout apply [dry-run]: would restart ");
    reveal_strlit("would restart ");
    reveal_strlit(" daemon(s):");
    reveal_strlit(" ");
    let head = "rollout apply [dry-run]: would restart "@;
    let tail = " daemon(s):"@;
    let part = "would restart "@ + dec(s.stale.len()) + " "@;
    assert(t =~= head.take(25) + part + tail.skip(1));
    lemma_mentions(t, head.take(25), part, tail.skip(1));
    let name = s.stale[i].comm;
    let u = "  "@ + name;
    assert(lines[i + 1] == LineView::Out(u));
    assert(u.subrange(u.len() - name.len(), u.len() as int) =~= name);
}

/// How a daemon is taken up: a voice daemon is probed for, any other goes straight on; and where none
/// is left the run ends.
pub proof fn law_apply_takes_up(s: ApplyView)
    requires
        s.phase == ApplyPhase::Select,
    ensures
        ({
            let then = s.step(ApplyEventView::Go);
            let entry = s.stale[s.at as int];
            if s.at >= s.stale.len() {
                then.action is Finish
            } else if !s.fleet.contains_key(entry.comm) {
                then.action == ApplyActionView::Finish(
                    Err(RolloutErrorView::UnknownDaemons { names: seq![entry.comm] }),
                )
            } else if is_voice(entry.comm) {
                then.action is ProbeVoice && then.state.at == s.at
            } else {
                then.action is Continue && then.state.phase == ApplyPhase::Gate && then.state.at
                    == s.at
            }
        }),
{
    reveal(ApplyView::step);
}

/// Only an idle voice loop lets a voice daemon go on. Otherwise it is deferred by its name, and the
/// run goes on with the next one.
pub proof fn law_apply_defers(s: ApplyView, state: ActivityView)
    requires
        s.phase == ApplyPhase::Voice,
        s.at < s.stale.len(),
    ensures
        ({
            let then = s.step(ApplyEventView::Voice(state));
            let name = s.stale[s.at as int].comm;
            if state is Idle {
                then.action is Continue && then.state.phase == ApplyPhase::Gate && then.state.at
                    == s.at && then.state.deferred == s.deferred
            } else {
                &&& then.action is Continue && then.state.phase == ApplyPhase::Select
                &&& then.state.at == s.at + 1 && then.state.deferred == s.deferred.push(name)
                &&& then.state.results == s.results && then.state.refused == s.refused
                &&& then.lines.len() == 1 && then.lines[0] is Out && mentions(
                    then.lines[0]->Out_0,
                    name + " deferred"@,
                )
                &&& state matches ActivityView::InFlight { reason } ==> reason.is_suffix_of(
                    then.lines[0]->Out_0,
                )
            }
        }),
{
    reveal(ApplyView::step);
    let then = s.step(ApplyEventView::Voice(state));
    let name = s.stale[s.at as int].comm;
    if !(state is Idle) {
        let why = match state {
            ActivityView::InFlight { reason } => "voice active: "@ + reason,
            _ =>
            "agorabus unreachable (cannot confirm turn is idle; will not restart blind)"@,
        };
        let t = then.lines[0]->Out_0;
        reveal_strlit(" deferred — ");
        reveal_strlit(" deferred");
        let text = " deferred — "@;
        let part = name + " deferred"@;
        assert(t =~= s.prefix() + part + (text.skip(9) + why));
        lemma_mentions(t, s.prefix(), part, text.skip(9) + why);
        if let ActivityView::InFlight { reason } = state {
            assert(t.subrange(t.len() - reason.len(), t.len() as int) =~= reason);
        }
    }
}

/// What is done to a daemon that may be touched: with a window a voice daemon waits for a sample of
/// that many seconds; else it is built to be swapped warm where it has a claim to swap on, and
/// restarted where it has none.
pub open spec fn proceeds(s: ApplyView, then: ApplyMove, sampled: bool) -> bool {
    let entry = s.stale[s.at as int];
    let recipe = s.fleet[entry.comm];
    &&& then.state.at == s.at
    &&& if !sampled && s.options.window_secs is Some && is_voice(entry.comm) {
        then.action == (ApplyActionView::SampleWindow { secs: s.options.window_secs->Some_0 })
    } else if swaps_warm(recipe) && claim_path(recipe) is Some {
        then.action == (ApplyActionView::Build { cmd: recipe.build_cmd, dir: recipe.repo })
    } else {
        then.action == (ApplyActionView::Restart { recipe, pid: entry.pid })
    }
}

/// Without a ledger a daemon is proceeded with at once. With one its installed binary is hashed
/// first, and it is proceeded with exactly when the ledger has a proof of it for just that binary
/// without a missed event; otherwise it is refused by its name and the run goes on with the next one.
pub proof fn law_apply_gates(s: ApplyView, hash: Option<Seq<char>>)
    requires
        s.at < s.stale.len(),
        s.fleet.contains_key(s.stale[s.at as int].comm),
    ensures
        ({
            let entry = s.stale[s.at as int];
            let asked = s.step(ApplyEventView::Go);
            let then = s.step(ApplyEventView::Hash(hash));
            &&& s.phase == ApplyPhase::Gate && s.ledger is None ==> proceeds(s, asked, false)
            &&& s.phase == ApplyPhase::Gate && s.ledger is Some ==> asked.action == (
            ApplyActionView::ReadHash { path: entry.installed_path() })
            &&& s.phase == ApplyPhase::Hash ==> (s.ledger matches Some(ledger) ==> if hash is Some
                && ledger.contains_key(entry.comm) && ledger[entry.comm].binary_hash
                == hash->Some_0 && ledger[entry.comm].events_missed_window == 0 {
                proceeds(s, then, false)
            } else {
                &&& then.action is Continue && then.state.phase == ApplyPhase::Select
                &&& then.state.at == s.at + 1 && then.state.refused == s.refused.push(entry.comm)
                &&& then.state.results == s.results && then.state.deferred == s.deferred
            })
        }),
{
    reveal(ApplyView::step);
    let entry = s.stale[s.at as int];
    law_swaps_warm(s.fleet[entry.comm]);
    if let Some(ledger) = s.ledger {
        law_unattended_gate(entry.comm, entry.installed_path(), hash, ledger);
    }
}

/// A sample that heard voice activity ends the run of a voice daemon with an error that names it; any
/// other sample lets it be proceeded with.
pub proof fn law_apply_window(s: ApplyView, sample: WindowSample)
    requires
        s.phase == ApplyPhase::Window,
        s.at < s.stale.len(),
        s.fleet.contains_key(s.stale[s.at as int].comm),
    ensures
        ({
            let entry = s.stale[s.at as int];
            let then = s.step(ApplyEventView::Window(sample));
            if is_voice(entry.comm) && sample is Active {
                then.action == ApplyActionView::Finish(
                    Err(RolloutErrorView::WindowGuardBlocked { name: entry.comm }),
                )
            } else {
                proceeds(s, then, true)
            }
        }),
{
    reveal(ApplyView::step);
    let entry = s.stale[s.at as int];
    law_swaps_warm(s.fleet[entry.comm]);
    law_window_guard(entry.comm, sample);
}

/// A daemon that came back is kept as a result and the run goes on with the next one. The result of a
/// restart is kept as it was given; that of a swap names the daemon, both pids, when its build began
/// and when it was swapped, and that it was a warm swap. What is told gives the pids, the time that
/// it took and how the daemon was restarted.
pub proof fn law_apply_keeps_results(s: ApplyView, event: ApplyEventView)
    requires
        s.at < s.stale.len(),
        comes_back(s, event),
    ensures
        ({
            let then = s.step(event);
            let r = then.state.results.last();
            let took = if r.end_ms >= r.start_ms {
                (r.end_ms - r.start_ms) as nat
            } else {
                0
            };
            &&& then.action is Continue && then.state.phase == ApplyPhase::Select
            &&& then.state.at == s.at + 1
            &&& then.state.results == s.results.push(r)
            &&& then.state.deferred == s.deferred && then.state.refused == s.refused
            &&& event matches ApplyEventView::Restarted(given) ==> given == Ok::<
                RestartResultView,
                RolloutErrorView,
            >(r)
            &&& event matches ApplyEventView::Swapped { result, end_ms } ==> {
                &&& r.name == s.stale[s.at as int].comm
                &&& result == (SwapResultView::Success { prev_pid: r.old_pid, new_pid: r.new_pid })
                &&& r.start_ms == s.start_ms && r.end_ms == end_ms
                &&& r.success && !r.sigkill_used && r.restart_path is WarmSwap
            }
            &&& then.lines.len() == 1 && then.lines[0] is Out
            &&& mentions(then.lines[0]->Out_0, s.stale[s.at as int].comm + " ok"@)
            &&& mentions(then.lines[0]->Out_0, "old_pid="@ + dec(r.old_pid as nat) + ","@)
            &&& mentions(then.lines[0]->Out_0, "new_pid="@ + pid_option(r.new_pid) + ","@)
            &&& mentions(then.lines[0]->Out_0, "elapsed="@ + dec(took) + "ms"@)
            &&& mentions(then.lines[0]->Out_0, "restart_path="@ + r.restart_path.text())
            &&& r.sigkill_used ==> "SIGKILL used)"@.is_suffix_of(then.lines[0]->Out_0)
        }),
{
    reveal(ApplyView::step);
    let then = s.step(event);
    let r = then.state.results.last();
    lemma_restart_text(s.prefix(), s.stale[s.at as int].comm, r);
}

proof fn lemma_restart_text(prefix: Seq<char>, name: Seq<char>, r: RestartResultView)
    ensures
        ({
            let t = prefix + name + restart_text(r);
            let took = if r.end_ms >= r.start_ms {
                (r.end_ms - r.start_ms) as nat
            } else {
                0
            };
            &&& mentions(t, name + " ok"@)
            &&& mentions(t, "old_pid="@ + dec(r.old_pid as nat) + ","@)
            &&& mentions(t, "new_pid="@ + pid_option(r.new_pid) + ","@)
            &&& mentions(t, "elapsed="@ + dec(took) + "ms"@)
            &&& mentions(t, "restart_path="@ + r.restart_path.text())
            &&& r.sigkill_used ==> "SIGKILL used)"@.is_suffix_of(t)
        }),
{
    let t = prefix + name + restart_text(r);
    let took = if r.end_ms >= r.start_ms {
        (r.end_ms - r.start_ms) as nat
    } else {
        0
    };
    let old = dec(r.old_pid as nat);
    let new = pid_option(r.new_pid);
    let ms = dec(took);
    let path = r.restart_path.text();
    let killed = if r.sigkill_used {
        ", SIGKILL used"@
    } else {
        ""@
    };
    let a = " ok (old_pid="@;
    let b = ", new_pid="@;
    let c = ", elapsed="@;
    let d = "ms, restart_path="@;
    lemma_words();
    let g1 = a + old + b;
    let g2 = g1 + new + c;
    let g3 = g2 + ms + d;
    let g4 = g3 + path;
    let g5 = g4 + killed + ")"@;
    assert(restart_text(r) == g5);
    let p1 = "old_pid="@ + old + ","@;
    let p2 = "new_pid="@ + new + ","@;
    let p3 = "elapsed="@ + ms + "ms"@;
    let p4 = "restart_path="@ + path;
    lemma_field(g1, seq![], a, old, b, "old_pid="@, ","@);
    lemma_more(g1, new, p1);
    lemma_more(g1 + new, c, p1);
    lemma_field(g2, a + old, b, new, c, "new_pid="@, ","@);
    lemma_more(g2, ms, p1);
    lemma_more(g2 + ms, d, p1);
    lemma_more(g2, ms, p2);
    lemma_more(g2 + ms, d, p2);
    lemma_field(g3, g1 + new, c, ms, d, "elapsed="@, "ms"@);
    lemma_last_field(g4, g2 + ms, d, path, "restart_path="@);
    lemma_lifted(prefix + name, g3, path, killed, ")"@, p1);
    lemma_lifted(prefix + name, g3, path, killed, ")"@, p2);
    lemma_lifted(prefix + name, g3, path, killed, ")"@, p3);
    lemma_more(g4, killed, p4);
    lemma_more(g4 + killed, ")"@, p4);
    lemma_more(g5, prefix + name, p4);
    lemma_prefix_stays(" ok"@, a, old);
    lemma_prefix_stays(" ok"@, a + old, b);
    lemma_prefix_stays(" ok"@, g1, new);
    lemma_prefix_stays(" ok"@, g1 + new, c);
    lemma_prefix_stays(" ok"@, g2, ms);
    lemma_prefix_stays(" ok"@, g2 + ms, d);
    lemma_prefix_stays(" ok"@, g3, path);
    lemma_prefix_stays(" ok"@, g4, killed);
    lemma_prefix_stays(" ok"@, g4 + killed, ")"@);
    lemma_named(prefix, name, g5);
    if r.sigkill_used {
        lemma_killed(prefix + name, g4);
    }
}

proof fn lemma_prefix_stays(p: Seq<char>, t: Seq<char>, u: Seq<char>)
    requires
        p.is_prefix_of(t),
    ensures
        p.is_prefix_of(t + u),
{
    assert((t + u).take(p.len() as int) =~= t.take(p.len() as int));
}

proof fn lemma_more(t: Seq<char>, u: Seq<char>, part: Seq<char>)
    requires
        mentions(t, part),
    ensures
        mentions(t + u, part),
        mentions(u + t, part),
{
    let i = choose|i: int|
        0 <= i <= t.len() - part.len() && #[trigger] t.subrange(i, i + part.len()) == part;
    assert((t + u).subrange(i, i + part.len()) =~= part);
    let j = u.len() + i;
    assert((u + t).subrange(j, j + part.len()) =~= t.subrange(i, i + part.len()));
}

proof fn lemma_lifted(
    head: Seq<char>,
    t: Seq<char>,
    a: Seq<char>,
    b: Seq<char>,
    c: Seq<char>,
    part: Seq<char>,
)
    requires
        mentions(t, part),
    ensures
        mentions(head + (t + a + b + c), part),
{
    lemma_more(t, a, part);
    lemma_more(t + a, b, part);
    lemma_more(t + a + b, c, part);
    lemma_more(t + a + b + c, head, part);
}

proof fn lemma_named(prefix: Seq<char>, name: Seq<char>, text: Seq<char>)
    requires
        " ok"@.is_prefix_of(text),
    ensures
        mentions(prefix + name + text, name + " ok"@),
{
    let t = prefix + name + text;
    let after = text.skip(" ok"@.len() as int);
    assert(text =~= " ok"@ + after);
    assert(t =~= prefix + (name + " ok"@) + after);
    lemma_mentions(t, prefix, name + " ok"@, after);
}

proof fn lemma_killed(head: Seq<char>, text: Seq<char>)
    ensures
        "SIGKILL used)"@.is_suffix_of(head + (text + ", SIGKILL used"@ + ")"@)),
{
    lemma_words();
    let last = "SIGKILL used)"@;
    let end = ", SIGKILL used"@ + ")"@;
    let t = head + (text + ", SIGKILL used"@ + ")"@);
    assert(t =~= head + text + end);
    assert(end.subrange(end.len() - last.len(), end.len() as int) =~= last);
    assert forall|i: int| 0 <= i < last.len() implies t[t.len() - last.len() + i] == last[i] by {
        assert(end.subrange(end.len() - last.len(), end.len() as int)[i] == last[i]);
    }
    assert(t.subrange(t.len() - last.len(), t.len() as int) =~= last);
}

proof fn lemma_words()
    ensures
        " ok"@.is_prefix_of(" ok (old_pid="@),
        "old_pid="@.is_suffix_of(" ok (old_pid="@),
        ","@.is_prefix_of(", new_pid="@),
        "new_pid="@.is_suffix_of(", new_pid="@),
        ","@.is_prefix_of(", elapsed="@),
        "elapsed="@.is_suffix_of(", elapsed="@),
        "ms"@.is_prefix_of("ms, restart_path="@),
        "restart_path="@.is_suffix_of("ms, restart_path="@),
        "SIGKILL used)"@.is_suffix_of(", SIGKILL used"@ + ")"@),
{
    let a = " ok (old_pid="@;
    let b = ", new_pid="@;
    let c = ", elapsed="@;
    let d = "ms, restart_path="@;
    let e = ", SIGKILL used"@ + ")"@;
    reveal_strlit(" ok (old_pid=");
    reveal_strlit(" ok");
    reveal_strlit(", new_pid=");
    reveal_strlit(", elapsed=");
    reveal_strlit("ms, restart_path=");
    reveal_strlit("old_pid=");
    reveal_strlit("new_pid=");
    reveal_strlit("elapsed=");
    reveal_strlit("restart_path=");
    reveal_strlit("ms");
    reveal_strlit(",");
    reveal_strlit(")");
    reveal_strlit(", SIGKILL used");
    reveal_strlit("SIGKILL used)");
    assert(a.take(3) =~= " ok"@);
    assert(a.subrange(a.len() - 8, a.len() as int) =~= "old_pid="@);
    assert(b.take(1) =~= ","@);
    assert(b.subrange(b.len() - 8, b.len() as int) =~= "new_pid="@);
    assert(c.take(1) =~= ","@);
    assert(c.subrange(c.len() - 8, c.len() as int) =~= "elapsed="@);
    assert(d.take(2) =~= "ms"@);
    assert(d.subrange(d.len() - 13, d.len() as int) =~= "restart_path="@);
    assert(e.subrange(e.len() - 13, e.len() as int) =~= "SIGKILL used)"@);
}

proof fn lemma_field(
    t: Seq<char>,
    head: Seq<char>,
    before: Seq<char>,
    value: Seq<char>,
    after: Seq<char>,
    key: Seq<char>,
    close: Seq<char>,
)
    requires
        t =~= head + before + value + after,
        key.is_suffix_of(before),
        close.is_prefix_of(after),
    ensures
        mentions(t, key + value + close),
{
    let start = head + before.take(before.len() - key.len());
    let end = after.skip(close.len() as int);
    assert(before =~= before.take(before.len() - key.len()) + key);
    assert(after =~= close + end);
    assert(t =~= start + (key + value + close) + end);
    lemma_mentions(t, start, key + value + close, end);
}

proof fn lemma_last_field(
    t: Seq<char>,
    head: Seq<char>,
    before: Seq<char>,
    value: Seq<char>,
    key: Seq<char>,
)
    requires
        t =~= head + before + value,
        key.is_suffix_of(before),
    ensures
        mentions(t, key + value),
{
    let none = Seq::<char>::empty();
    assert(t =~= head + before + value + none);
    assert(none.is_prefix_of(none));
    lemma_field(t, head, before, value, none, key, none);
    assert(key + value + none =~= key + value);
}

/// When a build began is kept from the report of the build to that of the swap.
pub proof fn law_apply_keeps_build_time(s: ApplyView, event: ApplyEventView)
    ensures
        s.step(event).action is Swap ==> (event matches ApplyEventView::Built { ran, start_ms }
            && s.step(event).state.start_ms == start_ms),
        !(s.step(event).action is Swap) ==> s.step(event).state.start_ms == s.start_ms,
{
    reveal(ApplyView::step);
}

/// The last lines of a run give the number of restarts out of that of the stale daemons, and name the
/// daemons that were refused and those that were deferred.
pub proof fn law_apply_sums_up(s: ApplyView)
    requires
        s.phase == ApplyPhase::Select,
        s.at >= s.stale.len(),
    ensures
        ({
            let then = s.step(ApplyEventView::Go);
            let last = then.lines.last();
            let n = if s.refused.len() > 0 {
                2nat
            } else {
                1nat
            };
            &&& then.lines.len() == n
            &&& last is Out && mentions(
                last->Out_0,
                dec(s.results.len()) + "/"@ + dec(s.stale.len()),
            )
            &&& s.deferred.len() > 0 ==> mentions(last->Out_0, dec(s.deferred.len()) + " deferred"@)
                && joined(s.deferred, ", "@).is_suffix_of(last->Out_0)
            &&& s.refused.len() > 0 ==> then.lines[0] is Out && mentions(
                then.lines[0]->Out_0,
                dec(s.refused.len()) + " auto-gate refused"@,
            ) && joined(s.refused, ", "@).is_suffix_of(then.lines[0]->Out_0)
        }),
{
    reveal(ApplyView::step);
    let then = s.step(ApplyEventView::Go);
    let t = then.lines.last()->Out_0;
    let counts = dec(s.results.len()) + "/"@ + dec(s.stale.len());
    if s.deferred.len() == 0 {
        lemma_mentions(t, "rollout apply: done. "@, counts, " daemons restarted."@);
    } else {
        let names = joined(s.deferred, ", "@);
        let number = dec(s.deferred.len());
        let mid = " restarted; "@;
        let tail = " deferred (voice active): "@;
        reveal_strlit(" deferred (voice active): ");
        reveal_strlit(" deferred");
        assert(t =~= "rollout apply: "@ + counts + (mid + number + tail + names));
        lemma_mentions(t, "rollout apply: "@, counts, mid + number + tail + names);
        let part = number + " deferred"@;
        let before = "rollout apply: "@ + counts + mid;
        assert(t =~= before + part + (tail.skip(9) + names));
        lemma_mentions(t, before, part, tail.skip(9) + names);
        assert(t.subrange(t.len() - names.len(), t.len() as int) =~= names);
    }
    if s.refused.len() > 0 {
        let u = then.lines[0]->Out_0;
        let names = joined(s.refused, ", "@);
        let number = dec(s.refused.len());
        let tail = " auto-gate refused: "@;
        reveal_strlit(" auto-gate refused: ");
        reveal_strlit(" auto-gate refused");
        let part = number + " auto-gate refused"@;
        assert(u =~= "rollout apply: "@ + part + (tail.skip(18) + names));
        lemma_mentions(u, "rollout apply: "@, part, tail.skip(18) + names);
        assert(u.subrange(u.len() - names.len(), u.len() as int) =~= names);
    }
}

/// A failed run tells which daemon failed and why, and that it stops.
pub proof fn law_failure_is_told(s: ApplyView, event: ApplyEventView)
    requires
        s.at < s.stale.len(),
        failure(s, event) is Some,
    ensures
        ({
            let then = s.step(event);
            &&& then.lines.len() == 2 && then.lines[0] is Warn && then.lines[1] is Warn
            &&& mentions(then.lines[0]->Warn_0, s.stale[s.at as int].comm + " FAILED"@)
            &&& error_text(failure(s, event)->Some_0).is_suffix_of(then.lines[0]->Warn_0)
        }),
{
    reveal(ApplyView::step);
    let then = s.step(event);
    let name = s.stale[s.at as int].comm;
    let why = error_text(failure(s, event)->Some_0);
    let t = then.lines[0]->Warn_0;
    reveal_strlit(" FAILED — ");
    reveal_strlit(" FAILED");
    let text = " FAILED — "@;
    let part = name + " FAILED"@;
    assert(t =~= s.prefix() + part + (text.skip(7) + why));
    lemma_mentions(t, s.prefix(), part, text.skip(7) + why);
    assert(t.subrange(t.len() - why.len(), t.len() as int) =~= why);
}

/// A line about a daemon begins with its number, counted from one, and that of the stale daemons.
pub proof fn law_lines_are_numbered(s: ApplyView)
    ensures
        mentions(s.prefix(), "["@ + dec(s.at + 1) + "/"@ + dec(s.stale.len()) + "]"@),
{
    reveal_strlit("rollout apply [");
    reveal_strlit("[");
    reveal_strlit("]: ");
    reveal_strlit("]");
    let part = "["@ + dec(s.at + 1) + "/"@ + dec(s.stale.len()) + "]"@;
    let head = "rollout apply ["@;
    let tail = "]: "@;
    assert(s.prefix() =~= head.drop_last() + part + tail.skip(1));
    lemma_mentions(s.prefix(), head.drop_last(), part, tail.skip(1));
}

/// The model of what happens in a run keeps what was given.
pub proof fn law_apply_event_model(event: ApplyEvent)
    ensures
        match event {
            ApplyEvent::Go => event@ is Go,
            ApplyEvent::Loaded(Ok(ledger)) => event@ == ApplyEventView::Loaded(Ok(ledger@)),
            ApplyEvent::Loaded(Err(e)) => event@ == ApplyEventView::Loaded(Err(e@)),
            ApplyEvent::Voice(state) => event@ == ApplyEventView::Voice(state@),
            ApplyEvent::Hash(Some(hash)) => event@ == ApplyEventView::Hash(Some(hash@)),
            ApplyEvent::Hash(None) => event@ == ApplyEventView::Hash(None),
            ApplyEvent::Window(sample) => event@ == ApplyEventView::Window(sample),
            ApplyEvent::Restarted(Ok(r)) => event@ == ApplyEventView::Restarted(Ok(r@)),
            ApplyEvent::Restarted(Err(e)) => event@ == ApplyEventView::Restarted(Err(e@)),
            ApplyEvent::Built { ran, start_ms } => event@ == (ApplyEventView::Built {
                ran: ran@,
                start_ms: start_ms as nat,
            }),
            ApplyEvent::Swapped { result, end_ms } => event@ == (ApplyEventView::Swapped {
                result: result@,
                end_ms: end_ms as nat,
            }),
        },
{
}

/// A daemon that is taken up is told by its name and pid, and what the ledger says of it by its name,
/// a refusal with its reason.
pub proof fn law_apply_tells(s: ApplyView, event: ApplyEventView)
    requires
        s.at < s.stale.len(),
    ensures
        ({
            let then = s.step(event);
            let entry = s.stale[s.at as int];
            &&& s.phase == ApplyPhase::Select && event is Go && s.fleet.contains_key(entry.comm)
                ==> then.lines.len() == 1 && then.lines[0] is Out && mentions(
                then.lines[0]->Out_0,
                "starting "@ + entry.comm + " (pid="@ + dec(entry.pid as nat) + ")"@,
            )
            &&& event matches ApplyEventView::Hash(hash) ==> (s.phase == ApplyPhase::Hash ==> (
            s.ledger matches Some(ledger) ==> (installed_verdict(
                entry.comm,
                entry.installed_path(),
                hash,
                ledger,
            ) matches VerdictView::Refuse { reason } ==> then.lines.len() == 1 && then.lines[0]
                is Out && reason.is_suffix_of(then.lines[0]->Out_0) && mentions(
                then.lines[0]->Out_0,
                entry.comm + " auto-gate Refuse"@,
            ))))
        }),
{
    reveal(ApplyView::step);
    let then = s.step(event);
    let entry = s.stale[s.at as int];
    let part = "starting "@ + entry.comm + " (pid="@ + dec(entry.pid as nat) + ")"@;
    let t = s.prefix() + "starting "@ + entry.comm + " (pid="@ + dec(entry.pid as nat) + ")"@;
    assert(t =~= s.prefix() + part + seq![]);
    lemma_mentions(t, s.prefix(), part, seq![]);
    if let ApplyEventView::Hash(hash) = event {
        if let Some(ledger) = s.ledger {
            if let VerdictView::Refuse { reason } = installed_verdict(
                entry.comm,
                entry.installed_path(),
                hash,
                ledger,
            ) {
                reveal_strlit(" auto-gate Refuse — ");
                reveal_strlit(" auto-gate Refuse");
                let text = " auto-gate Refuse — "@;
                let u = s.prefix() + entry.comm + (text + reason);
                let word = entry.comm + " auto-gate Refuse"@;
                assert(u =~= s.prefix() + word + (text.skip(17) + reason));
                lemma_mentions(u, s.prefix(), word, text.skip(17) + reason);
                assert(u.subrange(u.len() - reason.len(), u.len() as int) =~= reason);
            }
        }
    }
}

/// The models of a run's results and of its ledger keep what they hold.
pub proof fn law_apply_models(v: Seq<RestartResult>, i: int, o: Option<ProofLedger>)
    ensures
        result_views(v).len() == v.len(),
        0 <= i < v.len() ==> result_views(v)[i] == v[i]@,
        o matches Some(l) ==> opt_ledger(o) == Some(l@),
        o is None ==> opt_ledger(o) is None,
{
}

} // verus!
