//! The warm swap: a successor is started before its predecessor is stopped.

use crate::command::{
    code_text, exit_code_text, law_signal_target, law_step_command, recipe_cmd_result,
    run_recipe_cmd, signal_pid, signal_target, CommandOutcome, CommandView,
};
use crate::error::{pid_option, pid_option_text, RolloutError, RolloutErrorView};
use crate::fleet::{non_empty, non_empty_text, DaemonRecipe, RecipeView};
use crate::health::{
    law_poll_lasts_until_timeout, poll_healthcheck, poll_step, DEFAULT_POLL_INTERVAL_MS, PollStep,
    PollView,
};
use crate::json::{array_length, json_array_length};
use crate::output::{line_views, no_lines, one_line, Line, LineView};
use crate::text::{
    copy_option, dec, decimal, law_affixes, lemma_mentions, lemma_texts_push, mentions, opt_string,
    strip_suffix, texts, trim, trimmed, without_suffix,
};
use vstd::prelude::*;
use vstd::utf8::{encode_utf8, valid_utf8, decode_utf8};

verus! {

// ---------------------------------------------------------------------------
// Claims
// ---------------------------------------------------------------------------

/// The claim that a daemon holds on the bus: the recipe's own, or one named after its unit.
pub open spec fn claim_path(recipe: RecipeView) -> Option<Seq<char>> {
    match non_empty(recipe.claim_key) {
        Some(key) => Some(key),
        None => match non_empty(recipe.unit) {
            Some(unit) => Some(
                "agorabus://daemon/"@ + (match without_suffix(unit, ".service"@) {
                    Some(stem) => stem,
                    None => unit,
                }),
            ),
            None => None,
        },
    }
}

/// The claim that a daemon holds on the bus, if it holds one.
pub fn claim_path_for_recipe(recipe: &DaemonRecipe) -> (r: Option<String>)
    ensures
        opt_string(r) == claim_path(recipe@),
{
    match non_empty_text(&recipe.claim_key) {
        Some(key) => Some(key.to_owned()),
        None => match non_empty_text(&recipe.unit) {
            Some(unit) => {
                let stem = match strip_suffix(unit, ".service") {
                    Some(stem) => stem,
                    None => unit,
                };
                Some("agorabus://daemon/".to_owned().concat(stem))
            },
            None => None,
        },
    }
}

/// Whether a daemon is swapped warm: it has a claim of its own, or its recipe asks for it.
pub open spec fn swaps_warm(recipe: RecipeView) -> bool {
    non_empty(recipe.claim_key) is Some || recipe.warm_swap
}

/// How a daemon is restarted, in a word.
pub open spec fn strategy_label(recipe: RecipeView) -> Seq<char> {
    if swaps_warm(recipe) {
        "warm-swap"@
    } else {
        "hard"@
    }
}

/// How a daemon is restarted, in a word.
pub fn restart_strategy_label(recipe: &DaemonRecipe) -> (r: &'static str)
    ensures
        r@ == strategy_label(recipe@),
{
    if non_empty_text(&recipe.claim_key).is_some() || recipe.warm_swap {
        "warm-swap"
    } else {
        "hard"
    }
}

/// The claim on which a daemon is swapped warm: the one that it holds, where it is swapped warm
/// at all. Without a claim there is nothing to swap on.
pub open spec fn swap_claim(recipe: RecipeView) -> Option<Seq<char>> {
    if swaps_warm(recipe) {
        claim_path(recipe)
    } else {
        None
    }
}

/// The claim on which a daemon is swapped warm, if it is.
pub fn swap_claim_for_recipe(recipe: &DaemonRecipe) -> (r: Option<String>)
    ensures
        opt_string(r) == swap_claim(recipe@),
{
    if non_empty_text(&recipe.claim_key).is_some() || recipe.warm_swap {
        claim_path_for_recipe(recipe)
    } else {
        None
    }
}

/// `std::str::from_utf8`: bytes that are UTF-8 are the text they encode, other bytes are
/// refused.
#[verifier::external_body]
fn utf8_text(bytes: &[u8]) -> (r: Option<&str>)
    ensures
        r is Some <==> valid_utf8(bytes@),
        r matches Some(s) ==> s@ == decode_utf8(bytes@),
{
    std::str::from_utf8(bytes).ok()
}

/// How many holders the listing of a claim shows.
///
/// `None` where the listing failed, is no text, or is no JSON array.
pub open spec fn listed_holders(success: bool, stdout: Seq<u8>) -> Option<usize> {
    if success && valid_utf8(stdout) {
        json_array_length(encode_utf8(trimmed(decode_utf8(stdout))))
    } else {
        None
    }
}

/// How many holders the listing of a claim shows.
pub fn claim_list_count(success: bool, stdout: &[u8]) -> (r: Option<usize>)
    ensures
        r == listed_holders(success, stdout@),
{
    if !success {
        return None;
    }
    match utf8_text(stdout) {
        Some(s) => array_length(trim(s).as_bytes()),
        None => None,
    }
}

// ---------------------------------------------------------------------------
// The swap
// ---------------------------------------------------------------------------

/// For how long the holders of a claim are counted, in milliseconds.
pub const CLAIM_POLL_TIMEOUT_MS: u64 = 30_000;

/// How often the holders of a claim are counted, in milliseconds.
pub const CLAIM_POLL_INTERVAL_MS: u64 = 500;

/// How long a predecessor that got SIGTERM is left to release its claim, in milliseconds.
pub const RELEASE_PAUSE_MS: u64 = 500;

/// How a warm swap ended.
#[derive(Debug)]
pub enum WarmSwapResult {
    /// The successor holds the claim alone and is healthy.
    Success { prev_pid: u32, new_pid: Option<u32> },
    /// The claim was not held by exactly one process.
    SplitState { holders: usize },
    /// A step failed.
    Failed(RolloutError),
}

/// The model of a [`WarmSwapResult`].
#[verifier::ext_equal]
pub enum SwapResultView {
    Success { prev_pid: u32, new_pid: Option<u32> },
    SplitState { holders: nat },
    Failed(RolloutErrorView),
}

impl View for WarmSwapResult {
    type V = SwapResultView;

    open spec fn view(&self) -> SwapResultView {
        match *self {
            WarmSwapResult::Success { prev_pid, new_pid } => SwapResultView::Success {
                prev_pid,
                new_pid,
            },
            WarmSwapResult::SplitState { holders } => SwapResultView::SplitState {
                holders: holders as nat,
            },
            WarmSwapResult::Failed(e) => SwapResultView::Failed(e@),
        }
    }
}

/// Where a warm swap stands.
#[derive(Debug, Clone, Copy, PartialEq, Eq, Structural)]
pub enum SwapPhase {
    /// Nothing was done yet.
    Start,
    /// The install command runs.
    Install,
    /// The successor is launched.
    Launch,
    /// The successor has yet to show up as a holder of the claim.
    AwaitHolder,
    /// The predecessor is stopped.
    Stop,
    /// The holders that are left are counted.
    AwaitSole,
    /// The successor's health is checked.
    Health,
    /// The swap is over.
    Done,
}

/// What happened outside since the last step.
#[derive(Debug)]
#[allow(inconsistent_fields)]
pub enum SwapEvent {
    /// The swap begins.
    Begin,
    /// A command ended.
    Ran(CommandOutcome),
    /// The successor was launched, or why it was not.
    Launched(Result<u32, String>),
    /// The holders were counted, where the bus gave an answer, `elapsed_ms` after counting
    /// for this phase began.
    Counted { holders: Option<usize>, elapsed_ms: u64 },
    /// A signal was sent, or why it was not.
    Signalled(Result<(), String>),
    /// The healthcheck was tried, `elapsed_ms` after the first try began.
    Checked { passed: bool, elapsed_ms: u128 },
}

/// The model of a [`SwapEvent`].
#[verifier::ext_equal]
pub enum SwapEventView {
    Begin,
    Ran(CommandView),
    Launched(Result<u32, Seq<char>>),
    Counted { holders: Option<nat>, elapsed_ms: nat },
    Signalled(Result<(), Seq<char>>),
    Checked { passed: bool, elapsed_ms: nat },
}

/// An optional number, as a model.
pub open spec fn opt_nat(o: Option<usize>) -> Option<nat> {
    match o {
        Some(n) => Some(n as nat),
        None => None,
    }
}

impl View for SwapEvent {
    type V = SwapEventView;

    open spec fn view(&self) -> SwapEventView {
        match *self {
            SwapEvent::Begin => SwapEventView::Begin,
            SwapEvent::Ran(ran) => SwapEventView::Ran(ran@),
            SwapEvent::Launched(Ok(pid)) => SwapEventView::Launched(Ok(pid)),
            SwapEvent::Launched(Err(why)) => SwapEventView::Launched(Err(why@)),
            SwapEvent::Counted { holders, elapsed_ms } => SwapEventView::Counted {
                holders: opt_nat(holders),
                elapsed_ms: elapsed_ms as nat,
            },
            SwapEvent::Signalled(Ok(_)) => SwapEventView::Signalled(Ok(())),
            SwapEvent::Signalled(Err(why)) => SwapEventView::Signalled(Err(why@)),
            SwapEvent::Checked { passed, elapsed_ms } => SwapEventView::Checked {
                passed,
                elapsed_ms: elapsed_ms as nat,
            },
        }
    }
}

/// What is to be done next, and told back as an event.
#[derive(Debug)]
pub enum SwapAction {
    /// Run the install command.
    Install { cmd: String, dir: Option<String> },
    /// Run `systemd-run` with these arguments and leave it running.
    Launch { args: Vec<String>, dir: Option<String> },
    /// Count the holders of the claim after a pause.
    CountHolders { claim_path: String, after_ms: u64, first: bool },
    /// Run `systemctl --user stop` on the unit.
    StopUnit { unit: String },
    /// Send SIGTERM.
    Terminate { pid: i32 },
    /// Try the healthcheck after a pause.
    CheckHealth { cmd: String, after_ms: u64, first: bool },
    /// The swap is over.
    Finish(WarmSwapResult),
    /// The event does not belong here; nothing changed.
    Ignored,
}

/// The model of a [`SwapAction`].
#[verifier::ext_equal]
pub enum SwapActionView {
    Install { cmd: Seq<char>, dir: Option<Seq<char>> },
    Launch { args: Seq<Seq<char>>, dir: Option<Seq<char>> },
    CountHolders { claim_path: Seq<char>, after_ms: nat, first: bool },
    StopUnit { unit: Seq<char> },
    Terminate { pid: i32 },
    CheckHealth { cmd: Seq<char>, after_ms: nat, first: bool },
    Finish(SwapResultView),
    Ignored,
}

impl View for SwapAction {
    type V = SwapActionView;

    open spec fn view(&self) -> SwapActionView {
        match *self {
            SwapAction::Install { cmd, dir } => SwapActionView::Install {
                cmd: cmd@,
                dir: opt_string(dir),
            },
            SwapAction::Launch { args, dir } => SwapActionView::Launch {
                args: texts(args@),
                dir: opt_string(dir),
            },
            SwapAction::CountHolders { claim_path, after_ms, first } =>
                SwapActionView::CountHolders {
                claim_path: claim_path@,
                after_ms: after_ms as nat,
                first,
            },
            SwapAction::StopUnit { unit } => SwapActionView::StopUnit { unit: unit@ },
            SwapAction::Terminate { pid } => SwapActionView::Terminate { pid },
            SwapAction::CheckHealth { cmd, after_ms, first } => SwapActionView::CheckHealth {
                cmd: cmd@,
                after_ms: after_ms as nat,
                first,
            },
            SwapAction::Finish(r) => SwapActionView::Finish(r@),
            SwapAction::Ignored => SwapActionView::Ignored,
        }
    }
}

/// A warm swap of one daemon.
#[derive(Debug)]
pub struct WarmSwap {
    recipe: DaemonRecipe,
    claim_path: String,
    old_pid: u32,
    healthcheck_timeout_ms: u128,
    phase: SwapPhase,
    new_pid: Option<u32>,
}

/// The model of a [`WarmSwap`].
#[verifier::ext_equal]
pub struct SwapView {
    pub recipe: RecipeView,
    pub claim_path: Seq<char>,
    pub old_pid: u32,
    pub healthcheck_timeout_ms: nat,
    pub phase: SwapPhase,
    pub new_pid: Option<u32>,
}

impl View for WarmSwap {
    type V = SwapView;

    closed spec fn view(&self) -> SwapView {
        SwapView {
            recipe: self.recipe@,
            claim_path: self.claim_path@,
            old_pid: self.old_pid,
            healthcheck_timeout_ms: self.healthcheck_timeout_ms as nat,
            phase: self.phase,
            new_pid: self.new_pid,
        }
    }
}

/// What a step does: the swap after it, what is told, and what is to be done.
#[verifier::ext_equal]
pub struct SwapMove {
    pub state: SwapView,
    pub lines: Seq<LineView>,
    pub action: SwapActionView,
}

/// The arguments of `systemd-run` that launch a successor beside its predecessor.
pub open spec fn successor_arguments(launch_cmd: Seq<char>) -> Seq<Seq<char>> {
    seq!["--user"@, "--scope"@, "--"@, "sh"@, "-c"@, launch_cmd]
}

impl SwapView {
    /// The step that goes on to `phase` with `action`.
    pub open spec fn go(
        self,
        phase: SwapPhase,
        lines: Seq<LineView>,
        action: SwapActionView,
    ) -> SwapMove {
        SwapMove { state: SwapView { phase, ..self }, lines, action }
    }

    /// The step that ends the swap.
    pub open spec fn end(self, lines: Seq<LineView>, result: SwapResultView) -> SwapMove {
        self.go(SwapPhase::Done, lines, SwapActionView::Finish(result))
    }

    /// The step that counts the holders of the claim in `phase`.
    pub open spec fn count(
        self,
        phase: SwapPhase,
        lines: Seq<LineView>,
        after_ms: nat,
        first: bool,
    ) -> SwapMove {
        self.go(
            phase,
            lines,
            SwapActionView::CountHolders { claim_path: self.claim_path, after_ms, first },
        )
    }

    /// The failure to show up as a holder of the claim in time.
    pub open spec fn no_claim(self) -> RolloutErrorView {
        RolloutErrorView::HealthcheckTimeout {
            name: self.recipe.name,
            old_pid: self.old_pid,
            new_pid: self.new_pid,
            reason: "warm-swap: successor did not acquire claim on '"@ + self.claim_path
                + "' within "@ + dec((CLAIM_POLL_TIMEOUT_MS / 1000) as nat) + "s"@,
        }
    }

    /// What a step does on an event.
    #[verifier::opaque]
    pub open spec fn step(self, event: SwapEventView) -> SwapMove {
        match (self.phase, event) {
            (SwapPhase::Start, SwapEventView::Begin) => self.go(
                SwapPhase::Install,
                seq![],
                SwapActionView::Install { cmd: self.recipe.install_cmd, dir: self.recipe.repo },
            ),
            (SwapPhase::Install, SwapEventView::Ran(ran)) => match recipe_cmd_result(
                self.recipe.name,
                "install"@,
                ran,
            ) {
                Ok(_) => self.go(
                    SwapPhase::Launch,
                    seq![],
                    SwapActionView::Launch {
                        args: successor_arguments(self.recipe.launch_cmd),
                        dir: self.recipe.repo,
                    },
                ),
                Err(e) => self.end(seq![], SwapResultView::Failed(e)),
            },
            (SwapPhase::Launch, SwapEventView::Launched(launched)) => match launched {
                Ok(pid) => SwapView { new_pid: Some(pid), ..self }.count(
                    SwapPhase::AwaitHolder,
                    seq![
                        LineView::Warn(
                            "rollout warmswap: launched successor for "@ + self.recipe.name
                                + " (pid="@ + pid_option(Some(pid)) + ")"@,
                        ),
                    ],
                    0,
                    true,
                ),
                Err(why) => self.end(
                    seq![],
                    SwapResultView::Failed(
                        RolloutErrorView::LaunchFailed {
                            name: self.recipe.name,
                            reason: "systemd-run --user --scope spawn failed: "@ + why,
                        },
                    ),
                ),
            },
            (SwapPhase::AwaitHolder, SwapEventView::Counted { holders, elapsed_ms }) => {
                if holders matches Some(n) && n >= 1 {
                    match self.recipe.unit_name() {
                        Some(unit) => self.go(
                            SwapPhase::Stop,
                            seq![],
                            SwapActionView::StopUnit { unit },
                        ),
                        None => self.go(
                            SwapPhase::Stop,
                            seq![],
                            SwapActionView::Terminate { pid: signal_target(self.old_pid) },
                        ),
                    }
                } else if elapsed_ms >= CLAIM_POLL_TIMEOUT_MS {
                    self.end(seq![], SwapResultView::Failed(self.no_claim()))
                } else {
                    self.count(
                        SwapPhase::AwaitHolder,
                        seq![],
                        CLAIM_POLL_INTERVAL_MS as nat,
                        false,
                    )
                }
            },
            (SwapPhase::Stop, SwapEventView::Ran(ran)) => match self.recipe.unit_name() {
                Some(unit) => match ran {
                    CommandView::NotSpawned(why) => self.end(
                        seq![],
                        SwapResultView::Failed(
                            RolloutErrorView::Signal("systemctl stop "@ + unit + ": "@ + why),
                        ),
                    ),
                    CommandView::Exited { success, code } => self.count(
                        SwapPhase::AwaitSole,
                        if success {
                            seq![]
                        } else {
                            seq![
                                LineView::Warn(
                                    "rollout warmswap: systemctl stop "@ + unit + " returned "@
                                        + code_text(code)
                                        + "; will proceed (predecessor may already be down)"@,
                                ),
                            ]
                        },
                        0,
                        true,
                    ),
                },
                None => self.go(self.phase, seq![], SwapActionView::Ignored),
            },
            (SwapPhase::Stop, SwapEventView::Signalled(sent)) => match self.recipe.unit_name() {
                None => match sent {
                    Ok(_) => self.count(
                        SwapPhase::AwaitSole,
                        seq![
                            LineView::Warn(
                                "rollout warmswap: sent SIGTERM to "@ + self.recipe.name + " pid="@
                                    + dec(self.old_pid as nat),
                            ),
                        ],
                        RELEASE_PAUSE_MS as nat,
                        true,
                    ),
                    Err(why) => self.end(
                        seq![],
                        SwapResultView::Failed(
                            RolloutErrorView::Signal(
                                "SIGTERM "@ + dec(self.old_pid as nat) + ": "@ + why,
                            ),
                        ),
                    ),
                },
                Some(unit) => self.go(self.phase, seq![], SwapActionView::Ignored),
            },
            (SwapPhase::AwaitSole, SwapEventView::Counted { holders, elapsed_ms }) => {
                match holders {
                    Some(n) => if n == 1 {
                        self.go(
                            SwapPhase::Health,
                            seq![],
                            SwapActionView::CheckHealth {
                                cmd: self.recipe.healthcheck_cmd(),
                                after_ms: 0,
                                first: true,
                            },
                        )
                    } else {
                        self.end(seq![], SwapResultView::SplitState { holders: n })
                    },
                    None => if elapsed_ms >= CLAIM_POLL_TIMEOUT_MS {
                        self.end(seq![], SwapResultView::SplitState { holders: 0 })
                    } else {
                        self.count(
                            SwapPhase::AwaitSole,
                            seq![],
                            CLAIM_POLL_INTERVAL_MS as nat,
                            false,
                        )
                    },
                }
            },
            (SwapPhase::Health, SwapEventView::Checked { passed, elapsed_ms }) => match poll_step(
                self.recipe.name,
                self.old_pid,
                self.new_pid,
                self.healthcheck_timeout_ms,
                passed,
                elapsed_ms,
            ) {
                PollView::Passed => self.end(
                    seq![],
                    SwapResultView::Success { prev_pid: self.old_pid, new_pid: self.new_pid },
                ),
                PollView::Again => self.go(
                    SwapPhase::Health,
                    seq![],
                    SwapActionView::CheckHealth {
                        cmd: self.recipe.healthcheck_cmd(),
                        after_ms: DEFAULT_POLL_INTERVAL_MS as nat,
                        first: false,
                    },
                ),
                PollView::Failed(e) => self.end(seq![], SwapResultView::Failed(e)),
            },
            _ => self.go(self.phase, seq![], SwapActionView::Ignored),
        }
    }
}

/// What a step gives: what is told, and what is to be done.
#[derive(Debug)]
pub struct SwapStep {
    pub lines: Vec<Line>,
    pub action: SwapAction,
}

impl WarmSwap {
    /// The swap of a daemon whose predecessor is `old_pid`, before its first step.
    ///
    /// The binary that the install command installs has been built already.
    pub fn new(
        recipe: DaemonRecipe,
        claim_path: String,
        old_pid: u32,
        healthcheck_timeout_ms: u128,
    ) -> (r: WarmSwap)
        ensures
            r@ == (SwapView {
                recipe: recipe@,
                claim_path: claim_path@,
                old_pid,
                healthcheck_timeout_ms: healthcheck_timeout_ms as nat,
                phase: SwapPhase::Start,
                new_pid: None,
            }),
    {
        WarmSwap {
            recipe,
            claim_path,
            old_pid,
            healthcheck_timeout_ms,
            phase: SwapPhase::Start,
            new_pid: None,
        }
    }

    fn ignored(&self) -> (r: SwapStep)
        ensures
            r.action@ == SwapActionView::Ignored,
            line_views(r.lines@) == Seq::<LineView>::empty(),
    {
        SwapStep { lines: no_lines(), action: SwapAction::Ignored }
    }

    fn end(&mut self, result: WarmSwapResult) -> (r: SwapStep)
        ensures
            (SwapMove { state: final(self)@, lines: line_views(r.lines@), action: r.action@ })
                == old(self)@.end(seq![], result@),
    {
        self.phase = SwapPhase::Done;
        SwapStep { lines: no_lines(), action: SwapAction::Finish(result) }
    }

    fn count(&mut self, phase: SwapPhase, lines: Vec<Line>, after_ms: u64, first: bool) -> (r:
        SwapStep)
        ensures
            (SwapMove { state: final(self)@, lines: line_views(r.lines@), action: r.action@ })
                == old(self)@.count(phase, line_views(lines@), after_ms as nat, first),
    {
        self.phase = phase;
        SwapStep {
            lines,
            action: SwapAction::CountHolders {
                claim_path: self.claim_path.clone(),
                after_ms,
                first,
            },
        }
    }

    fn check_health(&mut self, after_ms: u64, first: bool) -> (r: SwapStep)
        ensures
            (SwapMove { state: final(self)@, lines: line_views(r.lines@), action: r.action@ })
                == old(self)@.go(
                SwapPhase::Health,
                seq![],
                SwapActionView::CheckHealth {
                    cmd: old(self)@.recipe.healthcheck_cmd(),
                    after_ms: after_ms as nat,
                    first,
                },
            ),
    {
        self.phase = SwapPhase::Health;
        SwapStep {
            lines: no_lines(),
            action: SwapAction::CheckHealth { cmd: self.recipe.healthcheck_cmd(), after_ms, first },
        }
    }

    /// Stop the predecessor: through its unit where it has one, else with a signal.
    fn stop_predecessor(&mut self) -> (r: SwapStep)
        ensures
            (SwapMove { state: final(self)@, lines: line_views(r.lines@), action: r.action@ })
                == old(self)@.go(
                SwapPhase::Stop,
                seq![],
                match old(self)@.recipe.unit_name() {
                    Some(unit) => SwapActionView::StopUnit { unit },
                    None => SwapActionView::Terminate { pid: signal_target(old(self)@.old_pid) },
                },
            ),
    {
        self.phase = SwapPhase::Stop;
        let action = match self.recipe.unit_name() {
            Some(unit) => SwapAction::StopUnit { unit: unit.to_owned() },
            None => SwapAction::Terminate { pid: signal_pid(self.old_pid) },
        };
        SwapStep { lines: no_lines(), action }
    }

    /// Go on with what came of stopping the predecessor through its unit.
    fn stopped_unit(&mut self, ran: CommandOutcome) -> (r: SwapStep)
        requires
            old(self)@.phase == SwapPhase::Stop,
        ensures
            (SwapMove { state: final(self)@, lines: line_views(r.lines@), action: r.action@ })
                == old(self)@.step(SwapEventView::Ran(ran@)),
    {
        proof {
            reveal(SwapView::step);
        }
        let unit = match self.recipe.unit_name() {
            Some(unit) => unit.to_owned(),
            None => {
                return self.ignored();
            },
        };
        match ran {
            CommandOutcome::NotSpawned(why) => self.end(
                WarmSwapResult::Failed(
                    RolloutError::Signal(
                        "systemctl stop ".to_owned().concat(unit.as_str()).concat(": ").concat(
                            why.as_str(),
                        ),
                    ),
                ),
            ),
            CommandOutcome::Exited { success, code } => {
                let lines = if success {
                    no_lines()
                } else {
                    one_line(
                        Line::Warn(
                            "rollout warmswap: systemctl stop ".to_owned().concat(
                                unit.as_str(),
                            ).concat(" returned ").concat(exit_code_text(code).as_str()).concat(
                                "; will proceed (predecessor may already be down)",
                            ),
                        ),
                    )
                };
                self.count(SwapPhase::AwaitSole, lines, 0, true)
            },
        }
    }

    /// Go on with what came of sending SIGTERM to the predecessor.
    fn stopped_by_signal(&mut self, sent: Result<(), String>) -> (r: SwapStep)
        requires
            old(self)@.phase == SwapPhase::Stop,
        ensures
            (SwapMove { state: final(self)@, lines: line_views(r.lines@), action: r.action@ })
                == old(self)@.step(SwapEvent::Signalled(sent)@),
    {
        proof {
            reveal(SwapView::step);
        }
        if self.recipe.unit_name().is_some() {
            return self.ignored();
        }
        match sent {
            Ok(_) => {
                let lines = one_line(
                    Line::Warn(
                        "rollout warmswap: sent SIGTERM to ".to_owned().concat(
                            self.recipe.name.as_str(),
                        ).concat(" pid=").concat(decimal(self.old_pid as u128).as_str()),
                    ),
                );
                self.count(SwapPhase::AwaitSole, lines, RELEASE_PAUSE_MS, true)
            },
            Err(why) => {
                let e = RolloutError::Signal(
                    "SIGTERM ".to_owned().concat(decimal(self.old_pid as u128).as_str()).concat(
                        ": ",
                    ).concat(why.as_str()),
                );
                self.end(WarmSwapResult::Failed(e))
            },
        }
    }

    /// Go on with a count of the holders while the successor has yet to show up.
    fn wait_for_claim_holders(&mut self, holders: Option<usize>, elapsed_ms: u64) -> (r: SwapStep)
        requires
            old(self)@.phase == SwapPhase::AwaitHolder,
        ensures
            (SwapMove { state: final(self)@, lines: line_views(r.lines@), action: r.action@ })
                == old(self)@.step(SwapEvent::Counted { holders, elapsed_ms }@),
    {
        proof {
            reveal(SwapView::step);
        }
        let held = match holders {
            Some(n) => n >= 1,
            None => false,
        };
        if held {
            return self.stop_predecessor();
        }
        if elapsed_ms >= CLAIM_POLL_TIMEOUT_MS {
            let e = RolloutError::HealthcheckTimeout {
                name: self.recipe.name.clone(),
                old_pid: self.old_pid,
                new_pid: self.new_pid,
                reason: "warm-swap: successor did not acquire claim on '".to_owned().concat(
                    self.claim_path.as_str(),
                ).concat("' within ").concat(
                    decimal((CLAIM_POLL_TIMEOUT_MS / 1000) as u128).as_str(),
                ).concat("s"),
            };
            return self.end(WarmSwapResult::Failed(e));
        }
        self.count(SwapPhase::AwaitHolder, no_lines(), CLAIM_POLL_INTERVAL_MS, false)
    }

    /// Go on with a count of the holders after the predecessor was stopped: the first answer
    /// of the bus decides, and no answer in time counts as no holder.
    fn poll_claim_count(&mut self, holders: Option<usize>, elapsed_ms: u64) -> (r: SwapStep)
        requires
            old(self)@.phase == SwapPhase::AwaitSole,
        ensures
            (SwapMove { state: final(self)@, lines: line_views(r.lines@), action: r.action@ })
                == old(self)@.step(SwapEvent::Counted { holders, elapsed_ms }@),
    {
        proof {
            reveal(SwapView::step);
        }
        match holders {
            Some(n) => {
                if n == 1 {
                    self.check_health(0, true)
                } else {
                    self.end(WarmSwapResult::SplitState { holders: n })
                }
            },
            None => {
                if elapsed_ms >= CLAIM_POLL_TIMEOUT_MS {
                    self.end(WarmSwapResult::SplitState { holders: 0 })
                } else {
                    self.count(SwapPhase::AwaitSole, no_lines(), CLAIM_POLL_INTERVAL_MS, false)
                }
            },
        }
    }

    /// Launch the successor, or end the swap where the install command failed.
    fn installed(&mut self, ran: CommandOutcome) -> (r: SwapStep)
        requires
            old(self)@.phase == SwapPhase::Install,
        ensures
            (SwapMove { state: final(self)@, lines: line_views(r.lines@), action: r.action@ })
                == old(self)@.step(SwapEventView::Ran(ran@)),
    {
        proof {
            reveal(SwapView::step);
        }
        match run_recipe_cmd(self.recipe.name.as_str(), "install", ran) {
            Ok(_) => {
                self.phase = SwapPhase::Launch;
                SwapStep {
                    lines: no_lines(),
                    action: SwapAction::Launch {
                        args: successor_args(self.recipe.launch_cmd.as_str()),
                        dir: copy_option(&self.recipe.repo),
                    },
                }
            },
            Err(e) => self.end(WarmSwapResult::Failed(e)),
        }
    }

    /// Wait for the successor, or end the swap where it could not be launched.
    fn launch_successor(&mut self, launched: Result<u32, String>) -> (r: SwapStep)
        requires
            old(self)@.phase == SwapPhase::Launch,
        ensures
            (SwapMove { state: final(self)@, lines: line_views(r.lines@), action: r.action@ })
                == old(self)@.step(SwapEvent::Launched(launched)@),
    {
        proof {
            reveal(SwapView::step);
        }
        match launched {
            Ok(pid) => {
                self.new_pid = Some(pid);
                let lines = one_line(
                    Line::Warn(
                        "rollout warmswap: launched successor for ".to_owned().concat(
                            self.recipe.name.as_str(),
                        ).concat(" (pid=").concat(pid_option_text(Some(pid)).as_str()).concat(")"),
                    ),
                );
                self.count(SwapPhase::AwaitHolder, lines, 0, true)
            },
            Err(why) => {
                let e = RolloutError::LaunchFailed {
                    name: self.recipe.name.clone(),
                    reason: "systemd-run --user --scope spawn failed: ".to_owned().concat(
                        why.as_str(),
                    ),
                };
                self.end(WarmSwapResult::Failed(e))
            },
        }
    }

    /// Take the next step of the swap.
    pub fn warm_swap(&mut self, event: SwapEvent) -> (r: SwapStep)
        ensures
            (SwapMove { state: final(self)@, lines: line_views(r.lines@), action: r.action@ })
                == old(self)@.step(event@),
    {
        proof {
            reveal(SwapView::step);
        }
        match (self.phase, event) {
            (SwapPhase::Start, SwapEvent::Begin) => {
                self.phase = SwapPhase::Install;
                SwapStep {
                    lines: no_lines(),
                    action: SwapAction::Install {
                        cmd: self.recipe.install_cmd.clone(),
                        dir: copy_option(&self.recipe.repo),
                    },
                }
            },
            (SwapPhase::Install, SwapEvent::Ran(ran)) => self.installed(ran),
            (SwapPhase::Launch, SwapEvent::Launched(launched)) => self.launch_successor(launched),
            (SwapPhase::AwaitHolder, SwapEvent::Counted { holders, elapsed_ms }) =>
                self.wait_for_claim_holders(holders, elapsed_ms),
            (SwapPhase::Stop, SwapEvent::Ran(ran)) => self.stopped_unit(ran),
            (SwapPhase::Stop, SwapEvent::Signalled(sent)) => self.stopped_by_signal(sent),
            (SwapPhase::AwaitSole, SwapEvent::Counted { holders, elapsed_ms }) =>
                self.poll_claim_count(holders, elapsed_ms),
            (SwapPhase::Health, SwapEvent::Checked { passed, elapsed_ms }) => {
                match poll_healthcheck(
                    self.recipe.name.as_str(),
                    self.old_pid,
                    self.new_pid,
                    self.healthcheck_timeout_ms,
                    passed,
                    elapsed_ms,
                ) {
                    PollStep::Passed => {
                        let (prev_pid, new_pid) = (self.old_pid, self.new_pid);
                        self.end(WarmSwapResult::Success { prev_pid, new_pid })
                    },
                    PollStep::Again => self.check_health(DEFAULT_POLL_INTERVAL_MS, false),
                    PollStep::Failed(e) => self.end(WarmSwapResult::Failed(e)),
                }
            },
            _ => self.ignored(),
        }
    }
}

/// The arguments of `systemd-run` that launch a successor beside its predecessor.
pub fn successor_args(launch_cmd: &str) -> (r: Vec<String>)
    ensures
        texts(r@) == successor_arguments(launch_cmd@),
{
    broadcast use lemma_texts_push;

    let mut r: Vec<String> = Vec::new();
    r.push("--user".to_owned());
    r.push("--scope".to_owned());
    r.push("--".to_owned());
    r.push("sh".to_owned());
    r.push("-c".to_owned());
    r.push(launch_cmd.to_owned());
    assert(texts(r@) =~= successor_arguments(launch_cmd@));
    r
}

// ---------------------------------------------------------------------------
// Laws
// ---------------------------------------------------------------------------

/// A claim of the recipe's own goes before one named after the unit, and a daemon without
/// either has none.
pub proof fn law_claim_path(recipe: RecipeView)
    ensures
        recipe.claim_key matches Some(key) && key.len() > 0 ==> claim_path(recipe)
            == recipe.claim_key,
        claim_path(recipe) is None <==> non_empty(recipe.claim_key) is None && non_empty(
            recipe.unit,
        ) is None,
{
}

/// A daemon without a claim of its own, whose unit is `stem.service`, holds the claim
/// `agorabus://daemon/stem`. A unit without that suffix gives its whole name.
pub proof fn law_claim_of_unit(recipe: RecipeView, stem: Seq<char>)
    requires
        recipe.claim_key is None || recipe.claim_key->Some_0.len() == 0,
    ensures
        recipe.unit == Some(stem + ".service"@) ==> claim_path(recipe) == Some(
            "agorabus://daemon/"@ + stem,
        ),
        recipe.unit == Some(stem) && stem.len() > 0 && !".service"@.is_suffix_of(stem)
            ==> claim_path(recipe) == Some("agorabus://daemon/"@ + stem),
{
    reveal_strlit(".service");
    law_affixes(stem, ".service"@, stem);
}

/// A daemon is swapped warm where its recipe asks for it or names a claim, and on the claim that it
/// holds; its strategy is told as `warm-swap`, and any other as `hard`.
pub proof fn law_swaps_warm(recipe: RecipeView)
    ensures
        swaps_warm(recipe) <==> recipe.warm_swap || (recipe.claim_key matches Some(key) && key.len()
            > 0),
        swap_claim(recipe) is Some <==> swaps_warm(recipe) && claim_path(recipe) is Some,
        swap_claim(recipe) is Some ==> swap_claim(recipe) == claim_path(recipe),
        strategy_label(recipe) == "warm-swap"@ <==> swaps_warm(recipe),
        strategy_label(recipe) == "hard"@ <==> !swaps_warm(recipe),
{
    reveal_strlit("warm-swap");
    reveal_strlit("hard");
    assert("warm-swap"@.len() != "hard"@.len());
}

/// The swap after the given events.
pub open spec fn swap_after(s: SwapView, events: Seq<SwapEventView>) -> SwapView
    decreases events.len(),
{
    if events.len() == 0 {
        s
    } else {
        swap_after(s, events.drop_last()).step(events.last()).state
    }
}

/// What is to be done after the event with the number `k`.
pub open spec fn swap_action(s: SwapView, events: Seq<SwapEventView>, k: int) -> SwapActionView {
    swap_after(s, events.take(k)).step(events[k]).action
}

/// Whether an action stops the predecessor.
pub open spec fn stops_predecessor(action: SwapActionView) -> bool {
    action is StopUnit || action is Terminate
}

/// Whether the event with the number `i` came while the swap stood at `phase`.
pub open spec fn came_at(
    s: SwapView,
    events: Seq<SwapEventView>,
    i: int,
    phase: SwapPhase,
) -> bool {
    swap_after(s, events.take(i)).phase == phase
}

/// Whether the install command has succeeded within the first `n` events.
pub open spec fn installed_within(s: SwapView, events: Seq<SwapEventView>, n: int) -> bool {
    exists|j: int|
        0 <= j < n && #[trigger] came_at(s, events, j, SwapPhase::Install) && is_success(events[j])
}

/// Whether an event says that a command ran and succeeded.
pub open spec fn is_success(event: SwapEventView) -> bool {
    event matches SwapEventView::Ran(CommandView::Exited { success, code }) && success
}

/// Whether a successor was launched within the first `n` events.
pub open spec fn launched_within(s: SwapView, events: Seq<SwapEventView>, n: int) -> bool {
    exists|j: int|
        0 <= j < n && #[trigger] came_at(s, events, j, SwapPhase::Launch) && (events[j] matches
            SwapEventView::Launched(l) && l is Ok)
}

/// Whether the predecessor was stopped on an event and, in the count that followed, exactly one
/// holder was found on a later one, both within the first `n` events.
pub open spec fn sole_holder_within(s: SwapView, events: Seq<SwapEventView>, n: int) -> bool {
    exists|i: int, j: int|
        0 <= i < j < n && stops_predecessor(#[trigger] swap_action(s, events, i))
            && #[trigger] came_at(s, events, j, SwapPhase::AwaitSole) && is_sole(events[j])
}

/// Whether an event says that exactly one holder was counted.
pub open spec fn is_sole(event: SwapEventView) -> bool {
    event matches SwapEventView::Counted { holders, elapsed_ms } && holders == Some(1nat)
}

proof fn lemma_swap_step(s: SwapView, event: SwapEventView)
    ensures
        ({
            let next = s.step(event).state;
            let action = s.step(event).action;
            &&& next.recipe == s.recipe && next.claim_path == s.claim_path && next.old_pid
                == s.old_pid
            &&& next.phase == s.phase || match next.phase {
                SwapPhase::Start => false,
                SwapPhase::Install => s.phase == SwapPhase::Start,
                SwapPhase::Launch => s.phase == SwapPhase::Install && is_success(event),
                SwapPhase::AwaitHolder => s.phase == SwapPhase::Launch && (event matches
                    SwapEventView::Launched(l) && l is Ok),
                SwapPhase::Stop => s.phase == SwapPhase::AwaitHolder && stops_predecessor(action),
                SwapPhase::AwaitSole => s.phase == SwapPhase::Stop,
                SwapPhase::Health => s.phase == SwapPhase::AwaitSole && is_sole(event),
                SwapPhase::Done => true,
            }
            &&& stops_predecessor(action) ==> s.phase == SwapPhase::AwaitHolder && (event matches
                SwapEventView::Counted { holders, elapsed_ms } && (holders matches Some(n) && n
                >= 1))
            &&& (action matches SwapActionView::Finish(r) ==> (r matches SwapResultView::Success {
                prev_pid,
                new_pid,
            } ==> s.phase == SwapPhase::Health && prev_pid == s.old_pid && (event matches
                SwapEventView::Checked { passed, elapsed_ms } && passed)))
        }),
{
    reveal(SwapView::step);
}

proof fn lemma_swap_trace(s: SwapView, events: Seq<SwapEventView>)
    requires
        s.phase == SwapPhase::Start,
    ensures
        ({
            let now = swap_after(s, events);
            &&& now.recipe == s.recipe && now.claim_path == s.claim_path && now.old_pid
                == s.old_pid
            &&& now.phase == SwapPhase::Launch || now.phase == SwapPhase::AwaitHolder || now.phase
                == SwapPhase::Stop || now.phase == SwapPhase::AwaitSole || now.phase
                == SwapPhase::Health ==> installed_within(s, events, events.len() as int)
            &&& now.phase == SwapPhase::AwaitHolder || now.phase == SwapPhase::Stop || now.phase
                == SwapPhase::AwaitSole || now.phase == SwapPhase::Health ==> launched_within(
                s,
                events,
                events.len() as int,
            )
            &&& now.phase == SwapPhase::Stop || now.phase == SwapPhase::AwaitSole || now.phase
                == SwapPhase::Health ==> exists|i: int|
                0 <= i < events.len() && stops_predecessor(#[trigger] swap_action(s, events, i))
            &&& now.phase == SwapPhase::Health ==> sole_holder_within(
                s,
                events,
                events.len() as int,
            )
        }),
    decreases events.len(),
{
    if events.len() > 0 {
        let before = events.drop_last();
        let n = before.len() as int;
        lemma_swap_trace(s, before);
        lemma_swap_step(swap_after(s, before), events.last());
        let was = swap_after(s, before);
        let now = swap_after(s, events);
        assert(events.take(n) =~= before);
        assert(forall|i: int| 0 <= i < n ==> before[i] == events[i]);
        assert forall|i: int| 0 <= i < n implies #[trigger] swap_action(s, events, i)
            == swap_action(s, before, i) by {
            assert(events.take(i) =~= before.take(i));
        }
        assert forall|i: int, phase: SwapPhase| 0 <= i < n implies #[trigger] came_at(
            s,
            events,
            i,
            phase,
        ) == came_at(s, before, i, phase) by {
            assert(events.take(i) =~= before.take(i));
        }
        assert(forall|phase: SwapPhase| #[trigger]
            came_at(s, events, n, phase) <==> was.phase == phase);
        if installed_within(s, before, n) {
            let j = choose|j: int|
                0 <= j < n && #[trigger] came_at(s, before, j, SwapPhase::Install) && is_success(
                    before[j],
                );
            assert(came_at(s, events, j, SwapPhase::Install));
        }
        if was.phase == SwapPhase::Install && now.phase == SwapPhase::Launch {
            assert(came_at(s, events, n, SwapPhase::Install));
        }
        if launched_within(s, before, n) {
            let j = choose|j: int|
                0 <= j < n && #[trigger] came_at(s, before, j, SwapPhase::Launch) && (
                before[j] matches SwapEventView::Launched(l) && l is Ok);
            assert(came_at(s, events, j, SwapPhase::Launch));
        }
        if exists|i: int| 0 <= i < n && stops_predecessor(#[trigger] swap_action(s, before, i)) {
            let i = choose|i: int|
                0 <= i < n && stops_predecessor(#[trigger] swap_action(s, before, i));
            assert(swap_action(s, events, i) == swap_action(s, before, i));
            if was.phase == SwapPhase::AwaitSole && now.phase == SwapPhase::Health {
                assert(came_at(s, events, n, SwapPhase::AwaitSole));
            }
        }
        if sole_holder_within(s, before, n) {
            let (i, j) = choose|i: int, j: int|
                0 <= i < j < n && stops_predecessor(#[trigger] swap_action(s, before, i))
                    && #[trigger] came_at(s, before, j, SwapPhase::AwaitSole) && is_sole(before[j]);
            assert(swap_action(s, events, i) == swap_action(s, before, i));
            assert(came_at(s, events, j, SwapPhase::AwaitSole));
        }
        assert(swap_action(s, events, n) == was.step(events[n]).action);
        if was.phase == SwapPhase::AwaitHolder && now.phase == SwapPhase::Stop {
            assert(stops_predecessor(swap_action(s, events, n)));
        }
        if was.phase == SwapPhase::Launch && now.phase == SwapPhase::AwaitHolder {
            assert(came_at(s, events, n, SwapPhase::Launch));
        }
    }
}

/// The predecessor is stopped only once the binary was installed, a successor was launched and
/// the claim was seen to have a holder.
pub proof fn law_successor_first(s: SwapView, events: Seq<SwapEventView>, k: int)
    requires
        s.phase == SwapPhase::Start,
        0 <= k < events.len(),
        stops_predecessor(swap_action(s, events, k)),
    ensures
        installed_within(s, events, k),
        launched_within(s, events, k),
        events[k] matches SwapEventView::Counted { holders, elapsed_ms } && (holders matches Some(
            n,
        ) && n >= 1),
{
    let before = events.take(k);
    lemma_swap_trace(s, before);
    lemma_swap_step(swap_after(s, before), events[k]);
    let i = choose|i: int|
        0 <= i < k && #[trigger] came_at(s, before, i, SwapPhase::Install) && is_success(before[i]);
    assert(before.take(i) =~= events.take(i));
    assert(came_at(s, events, i, SwapPhase::Install));
    let j = choose|j: int|
        0 <= j < k && #[trigger] came_at(s, before, j, SwapPhase::Launch) && (before[j] matches
            SwapEventView::Launched(l) && l is Ok);
    assert(before.take(j) =~= events.take(j));
    assert(came_at(s, events, j, SwapPhase::Launch));
}

/// A swap succeeds only once the predecessor was stopped, the claim was then seen to have
/// exactly one holder, and the healthcheck has passed; it reports the pid of the predecessor.
pub proof fn law_success_means_sole_holder(s: SwapView, events: Seq<SwapEventView>, k: int)
    requires
        s.phase == SwapPhase::Start,
        0 <= k < events.len(),
        swap_action(s, events, k) matches SwapActionView::Finish(r) && r is Success,
    ensures
        sole_holder_within(s, events, k),
        events[k] matches SwapEventView::Checked { passed, elapsed_ms } && passed,
        swap_action(s, events, k)->Finish_0->prev_pid == s.old_pid,
{
    let before = events.take(k);
    lemma_swap_trace(s, before);
    lemma_swap_step(swap_after(s, before), events[k]);
    assert(forall|i: int| 0 <= i < k ==> before[i] == events[i]);
    assert forall|i: int| 0 <= i < k implies #[trigger] swap_action(s, events, i) == swap_action(
        s,
        before,
        i,
    ) by {
        assert(events.take(i) =~= before.take(i));
    }
    let (i, j) = choose|i: int, j: int|
        0 <= i < j < k && stops_predecessor(#[trigger] swap_action(s, before, i))
            && #[trigger] came_at(s, before, j, SwapPhase::AwaitSole) && is_sole(before[j]);
    assert(swap_action(s, events, i) == swap_action(s, before, i));
    assert(before.take(j) =~= events.take(j));
    assert(came_at(s, events, j, SwapPhase::AwaitSole));
}

/// A split state is reported only where the claim was not held by exactly one process.
pub proof fn law_split_state(s: SwapView, event: SwapEventView)
    ensures
        s.step(event).action matches SwapActionView::Finish(r) ==> (r matches
            SwapResultView::SplitState { holders } ==> holders != 1),
{
    reveal(SwapView::step);
}

/// A swap that is over does nothing any more.
pub proof fn law_swap_ends_once(s: SwapView, event: SwapEventView)
    ensures
        s.step(event).action is Finish ==> s.step(event).state.phase == SwapPhase::Done,
        s.phase == SwapPhase::Done ==> s.step(event).action is Ignored && s.step(event).state == s,
{
    reveal(SwapView::step);
}

/// Whether an event tells what came of an action.
pub open spec fn answers(action: SwapActionView, event: SwapEventView) -> bool {
    match action {
        SwapActionView::Install { .. } => event is Ran,
        SwapActionView::Launch { .. } => event is Launched,
        SwapActionView::CountHolders { .. } => event is Counted,
        SwapActionView::StopUnit { .. } => event is Ran,
        SwapActionView::Terminate { .. } => event is Signalled,
        SwapActionView::CheckHealth { .. } => event is Checked,
        SwapActionView::Finish(_) => false,
        SwapActionView::Ignored => false,
    }
}

/// Whether an event is one that a swap waits for.
spec fn takes(s: SwapView, event: SwapEventView) -> bool {
    match s.phase {
        SwapPhase::Start => event is Begin,
        SwapPhase::Install => event is Ran,
        SwapPhase::Launch => event is Launched,
        SwapPhase::AwaitHolder => event is Counted,
        SwapPhase::Stop => if s.recipe.unit_name() is Some {
            event is Ran
        } else {
            event is Signalled
        },
        SwapPhase::AwaitSole => event is Counted,
        SwapPhase::Health => event is Checked,
        SwapPhase::Done => false,
    }
}

proof fn lemma_answer_taken(s: SwapView, event: SwapEventView, answer: SwapEventView)
    requires
        answers(s.step(event).action, answer),
    ensures
        takes(s.step(event).state, answer),
{
    reveal(SwapView::step);
}

proof fn lemma_taken(s: SwapView, event: SwapEventView)
    requires
        takes(s, event),
    ensures
        !(s.step(event).action is Ignored),
{
    reveal(SwapView::step);
}

/// A swap is never stuck: it begins when it is told to, and whatever came of an action moves
/// it on.
pub proof fn law_swap_never_stuck(s: SwapView, event: SwapEventView, answer: SwapEventView)
    ensures
        s.phase == SwapPhase::Start && event is Begin ==> !(s.step(event).action is Ignored),
        answers(s.step(event).action, answer) ==> !(s.step(event).state.step(
            answer,
        ).action is Ignored),
{
    if s.phase == SwapPhase::Start && event is Begin {
        lemma_taken(s, event);
    }
    if answers(s.step(event).action, answer) {
        lemma_answer_taken(s, event, answer);
        lemma_taken(s.step(event).state, answer);
    }
}

/// What a swap is made with never changes: neither the recipe nor the claim, the predecessor's pid
/// or the time for the healthcheck; and the successor's pid only when it is launched.
pub proof fn law_swap_keeps_its_terms(s: SwapView, events: Seq<SwapEventView>)
    ensures
        swap_after(s, events).recipe == s.recipe,
        swap_after(s, events).claim_path == s.claim_path,
        swap_after(s, events).old_pid == s.old_pid,
        swap_after(s, events).healthcheck_timeout_ms == s.healthcheck_timeout_ms,
    decreases events.len(),
{
    if events.len() > 0 {
        law_swap_keeps_its_terms(s, events.drop_last());
        reveal(SwapView::step);
    }
}

/// Every action of a swap is on the terms that the swap was made with. The install command and the
/// launch command are the recipe's own and run in its repository, the successor is launched through
/// `systemd-run --user --scope` and a shell; the holders that are counted are those of the given
/// claim; the predecessor is stopped through the recipe's unit, or where it names none by a signal
/// to the given pid; and the healthcheck is that of the recipe.
pub proof fn law_swap_by_its_terms(
    recipe: RecipeView,
    claim: Seq<char>,
    old_pid: u32,
    timeout_ms: nat,
    events: Seq<SwapEventView>,
    k: int,
)
    requires
        0 <= k < events.len(),
    ensures
        ({
            let s = SwapView {
                recipe,
                claim_path: claim,
                old_pid,
                healthcheck_timeout_ms: timeout_ms,
                phase: SwapPhase::Start,
                new_pid: None,
            };
            match swap_action(s, events, k) {
                SwapActionView::Install { cmd, dir } => cmd == recipe.install_cmd && dir
                    == recipe.repo,
                SwapActionView::Launch { args, dir } => dir == recipe.repo && args.len() == 6
                    && args[0] == "--user"@ && args[1] == "--scope"@ && args[2] == "--"@ && args[3]
                    == "sh"@ && args[4] == "-c"@ && args[5] == recipe.launch_cmd,
                SwapActionView::CountHolders { claim_path, after_ms, first } => claim_path == claim
                    && after_ms <= 500,
                SwapActionView::StopUnit { unit } => recipe.unit == Some(unit) && unit.len() > 0,
                SwapActionView::Terminate { pid } => (recipe.unit is None
                    || recipe.unit->Some_0.len() == 0) && (old_pid <= i32::MAX ==> pid == old_pid),
                SwapActionView::CheckHealth { cmd, after_ms, first } => cmd
                    == recipe.healthcheck_cmd() && after_ms == if first {
                    0nat
                } else {
                    500nat
                },
                SwapActionView::Finish(_) => true,
                SwapActionView::Ignored => true,
            }
        }),
{
    let s = SwapView {
        recipe,
        claim_path: claim,
        old_pid,
        healthcheck_timeout_ms: timeout_ms,
        phase: SwapPhase::Start,
        new_pid: None,
    };
    law_swap_keeps_its_terms(s, events.take(k));
    law_signal_target(old_pid);
    reveal(SwapView::step);
}

/// What follows what came of an action of a swap. It installs, then launches the successor, then
/// counts holders until there is one, then stops the predecessor, then counts again and checks the
/// health of a sole holder. The install, the launch, a unit that cannot be stopped and a signal
/// that cannot be sent end it as failed; a stop that only reports failure does not.
pub proof fn law_swap_goes_on(s: SwapView, event: SwapEventView, answer: SwapEventView)
    ensures
        ({
            let first = s.step(event);
            let then = first.state.step(answer);
            let failed = then.action matches SwapActionView::Finish(r) && r is Failed;
            &&& s.phase == SwapPhase::Start && event is Begin ==> first.action is Install
            &&& first.action is Install && answer is Ran ==> if is_success(answer) {
                then.action is Launch
            } else {
                failed && (then.action->Finish_0->Failed_0 is BuildFailed)
                    && then.action->Finish_0->Failed_0->BuildFailed_name == s.recipe.name
            }
            &&& first.action is Launch && (answer matches SwapEventView::Launched(l) && l is Ok)
                ==> (then.action matches SwapActionView::CountHolders { claim_path, after_ms, first }
                && first && after_ms == 0) && then.state.new_pid == Some(answer->Launched_0->Ok_0)
            &&& first.action is Launch && (answer matches SwapEventView::Launched(l) && l is Err)
                ==> failed && then.action->Finish_0->Failed_0 is LaunchFailed
                && then.action->Finish_0->Failed_0->LaunchFailed_name == s.recipe.name
                && answer->Launched_0->Err_0.is_suffix_of(
                then.action->Finish_0->Failed_0->LaunchFailed_reason,
            )
            &&& first.action is StopUnit ==> match answer {
                SwapEventView::Ran(CommandView::NotSpawned(why)) => failed
                    && then.action->Finish_0->Failed_0 is Signal && why.is_suffix_of(
                    then.action->Finish_0->Failed_0->Signal_0,
                ),
                SwapEventView::Ran(_) => then.action matches SwapActionView::CountHolders {
                    claim_path,
                    after_ms,
                    first,
                } && first && after_ms == 0,
                _ => then.action is Ignored,
            }
            &&& first.action is Terminate ==> match answer {
                SwapEventView::Signalled(Err(why)) => failed
                    && then.action->Finish_0->Failed_0 is Signal && why.is_suffix_of(
                    then.action->Finish_0->Failed_0->Signal_0,
                ),
                SwapEventView::Signalled(Ok(_)) => then.action matches
                    SwapActionView::CountHolders { claim_path, after_ms, first } && first && after_ms
                    == 500,
                _ => then.action is Ignored,
            }
        }),
{
    reveal(SwapView::step);
    if s.step(event).action is Install && answer is Ran {
        law_step_command(s.recipe.name, "install"@, answer->Ran_0);
    }
    if let SwapEventView::Launched(Err(why)) = answer {
        let t = "systemd-run --user --scope spawn failed: "@ + why;
        assert(t.subrange(t.len() - why.len(), t.len() as int) =~= why);
    }
    if let SwapEventView::Ran(CommandView::NotSpawned(why)) = answer {
        if let Some(unit) = s.recipe.unit_name() {
            let t = "systemctl stop "@ + unit + ": "@ + why;
            assert(t.subrange(t.len() - why.len(), t.len() as int) =~= why);
        }
    }
    if let SwapEventView::Signalled(Err(why)) = answer {
        let t = "SIGTERM "@ + dec(s.old_pid as nat) + ": "@ + why;
        assert(t.subrange(t.len() - why.len(), t.len() as int) =~= why);
    }
}

/// Before the predecessor is stopped the holders are counted every half second until there is one,
/// for at most thirty seconds: the first count that finds one stops the predecessor, and a count
/// without one ends the swap exactly when that time is over, with an error that names the daemon,
/// both pids and the claim.
pub proof fn law_successor_has_thirty_seconds(s: SwapView, holders: Option<nat>, elapsed_ms: nat)
    requires
        s.phase == SwapPhase::AwaitHolder,
    ensures
        ({
            let then = s.step(SwapEventView::Counted { holders, elapsed_ms });
            let found = holders is Some && holders->Some_0 > 0;
            &&& stops_predecessor(then.action) <==> found
            &&& then.action is StopUnit <==> found && s.recipe.unit_name() is Some
            &&& then.action is CountHolders <==> !found && elapsed_ms < 30_000
            &&& then.action is CountHolders ==> then.action->CountHolders_after_ms == 500
                && !then.action->CountHolders_first && then.state == s
            &&& then.action is Finish <==> !found && elapsed_ms >= 30_000
            &&& then.action matches SwapActionView::Finish(r) ==> (r matches SwapResultView::Failed(
                e,
            ) && e is HealthcheckTimeout && e->HealthcheckTimeout_name == s.recipe.name && e->old_pid
                == s.old_pid && e->new_pid == s.new_pid && mentions(
                e->HealthcheckTimeout_reason,
                s.claim_path,
            ))
        }),
{
    reveal(SwapView::step);
    let head = "warm-swap: successor did not acquire claim on '"@;
    let secs = dec((CLAIM_POLL_TIMEOUT_MS / 1000) as nat);
    let tail = "' within "@ + secs + "s"@;
    let t = head + s.claim_path + "' within "@ + secs + "s"@;
    assert(t =~= head + s.claim_path + tail);
    lemma_mentions(t, head, s.claim_path, tail);
}

/// After the predecessor was stopped the first count that the bus answers decides: exactly one
/// holder leads on to the healthcheck, any other number is a split state with that number. Without
/// an answer it is asked again every half second, and after thirty seconds that is a split state
/// without holders.
pub proof fn law_sole_holder_decides(s: SwapView, holders: Option<nat>, elapsed_ms: nat)
    requires
        s.phase == SwapPhase::AwaitSole,
    ensures
        ({
            let then = s.step(SwapEventView::Counted { holders, elapsed_ms });
            match holders {
                Some(n) => if n == 1 {
                    then.action matches SwapActionView::CheckHealth { cmd, after_ms, first }
                        && first && after_ms == 0
                } else {
                    then.action == SwapActionView::Finish(SwapResultView::SplitState { holders: n })
                },
                None => if elapsed_ms < 30_000 {
                    then.state == s && (then.action matches SwapActionView::CountHolders {
                        claim_path,
                        after_ms,
                        first,
                    } && !first && after_ms == 500)
                } else {
                    then.action == SwapActionView::Finish(SwapResultView::SplitState { holders: 0 })
                },
            }
        }),
{
    reveal(SwapView::step);
}

/// The healthcheck of the successor is tried until it passes or its time is over: the first try
/// that passes ends the swap well, with the pid of the predecessor and that of the successor, and
/// one that does not pass ends it as failed exactly when the time is over.
pub proof fn law_swap_polls_health(s: SwapView, passed: bool, elapsed_ms: nat)
    requires
        s.phase == SwapPhase::Health,
    ensures
        ({
            let then = s.step(SwapEventView::Checked { passed, elapsed_ms });
            &&& passed ==> then.action == SwapActionView::Finish(
                SwapResultView::Success { prev_pid: s.old_pid, new_pid: s.new_pid },
            )
            &&& !passed && elapsed_ms < s.healthcheck_timeout_ms ==> then.action is CheckHealth
                && then.state == s
            &&& !passed && elapsed_ms >= s.healthcheck_timeout_ms ==> (then.action matches
                SwapActionView::Finish(r) && (r matches SwapResultView::Failed(e)
                && e is HealthcheckTimeout && e->HealthcheckTimeout_name == s.recipe.name
                && e->old_pid == s.old_pid && e->new_pid == s.new_pid))
        }),
{
    reveal(SwapView::step);
    law_poll_lasts_until_timeout(
        s.recipe.name,
        s.old_pid,
        s.new_pid,
        s.healthcheck_timeout_ms,
        passed,
        elapsed_ms,
    );
}

/// A swap to which everything goes well ends well. Whatever the recipe, the claim and the pids: the
/// install succeeds, the successor is launched, a holder is seen, the predecessor stops, exactly one
/// holder is left and the healthcheck passes, and the swap has succeeded with both pids.
pub proof fn law_good_swap_succeeds(
    recipe: RecipeView,
    claim: Seq<char>,
    old_pid: u32,
    timeout_ms: nat,
    pid: u32,
    code: Option<i32>,
    holders: nat,
    ms: (nat, nat, nat),
)
    requires
        holders >= 1,
    ensures
        ({
            let s = SwapView {
                recipe,
                claim_path: claim,
                old_pid,
                healthcheck_timeout_ms: timeout_ms,
                phase: SwapPhase::Start,
                new_pid: None,
            };
            let ran = SwapEventView::Ran(CommandView::Exited { success: true, code });
            let stopped = if recipe.unit_name() is Some {
                ran
            } else {
                SwapEventView::Signalled(Ok(()))
            };
            let s1 = s.step(SwapEventView::Begin).state.step(ran).state.step(
                SwapEventView::Launched(Ok(pid)),
            ).state;
            let s2 = s1.step(
                SwapEventView::Counted { holders: Some(holders), elapsed_ms: ms.0 },
            ).state.step(stopped).state;
            let s3 = s2.step(
                SwapEventView::Counted { holders: Some(1nat), elapsed_ms: ms.1 },
            ).state;
            s3.step(SwapEventView::Checked { passed: true, elapsed_ms: ms.2 }).action
                == SwapActionView::Finish(
                SwapResultView::Success { prev_pid: old_pid, new_pid: Some(pid) },
            )
        }),
{
    reveal(SwapView::step);
}

/// What a swap tells as it goes names the daemon or its unit, with the pid or the code that it is
/// about.
pub proof fn law_swap_tells(s: SwapView, event: SwapEventView)
    ensures
        ({
            let then = s.step(event);
            &&& s.phase == SwapPhase::Launch && then.action is CountHolders ==> then.lines.len() == 1
                && then.lines[0] is Warn && mentions(
                then.lines[0]->Warn_0,
                s.recipe.name + " (pid="@ + pid_option(then.state.new_pid) + ")"@,
            )
            &&& s.phase == SwapPhase::Stop && then.action is CountHolders && (event matches
                SwapEventView::Ran(CommandView::Exited { success, code }) && !success)
                ==> then.lines.len() == 1 && then.lines[0] is Warn && mentions(
                then.lines[0]->Warn_0,
                "systemctl stop "@ + s.recipe.unit_name()->Some_0 + " returned "@ + code_text(
                    event->Ran_0->code,
                ),
            )
            &&& s.phase == SwapPhase::Stop && then.action is CountHolders && event is Signalled
                ==> then.lines.len() == 1 && then.lines[0] is Warn && ("SIGTERM to "@ + s.recipe.name
                + " pid="@ + dec(s.old_pid as nat)).is_suffix_of(then.lines[0]->Warn_0)
        }),
{
    reveal(SwapView::step);
    let then = s.step(event);
    if s.phase == SwapPhase::Launch && then.action is CountHolders {
        let t = then.lines[0]->Warn_0;
        let head = "rollout warmswap: launched successor for "@;
        let part = s.recipe.name + " (pid="@ + pid_option(then.state.new_pid) + ")"@;
        assert(t =~= head + part + seq![]);
        lemma_mentions(t, head, part, seq![]);
    }
    if s.phase == SwapPhase::Stop && then.action is CountHolders {
        match event {
            SwapEventView::Ran(CommandView::Exited { success, code }) => {
                if !success {
                    let t = then.lines[0]->Warn_0;
                    let unit = s.recipe.unit_name()->Some_0;
                    reveal_strlit("rollout warmswap: systemctl stop ");
                    reveal_strlit("systemctl stop ");
                    let head = "rollout warmswap: systemctl stop "@;
                    let part = "systemctl stop "@ + unit + " returned "@ + code_text(code);
                    let tail = "; will proceed (predecessor may already be down)"@;
                    assert(t =~= head.take(18) + part + tail);
                    lemma_mentions(t, head.take(18), part, tail);
                }
            },
            _ => {
                let t = then.lines[0]->Warn_0;
                reveal_strlit("rollout warmswap: sent SIGTERM to ");
                reveal_strlit("SIGTERM to ");
                let part = "SIGTERM to "@ + s.recipe.name + " pid="@ + dec(s.old_pid as nat);
                assert(t.subrange(t.len() - part.len(), t.len() as int) =~= part);
            },
        }
    }
}

/// A listing gives a number of holders only where it succeeded and printed text.
pub proof fn law_listing_counts(success: bool, stdout: Seq<u8>)
    ensures
        !success || !valid_utf8(stdout) ==> listed_holders(success, stdout) is None,
        success && valid_utf8(stdout) ==> listed_holders(success, stdout) == json_array_length(
            encode_utf8(trimmed(decode_utf8(stdout))),
        ),
{
}

/// The model of what happens in a swap keeps every number as it was given: how many holders were
/// counted, where the bus answered, the pid that was launched, and the times.
pub proof fn law_swap_event_model(event: SwapEvent)
    ensures
        match event {
            SwapEvent::Begin => event@ is Begin,
            SwapEvent::Ran(ran) => event@ == SwapEventView::Ran(ran@),
            SwapEvent::Launched(Ok(pid)) => event@ == SwapEventView::Launched(Ok(pid)),
            SwapEvent::Launched(Err(why)) => event@ == SwapEventView::Launched(Err(why@)),
            SwapEvent::Counted { holders: Some(n), elapsed_ms } => event@ == (
            SwapEventView::Counted { holders: Some(n as nat), elapsed_ms: elapsed_ms as nat }),
            SwapEvent::Counted { holders: None, elapsed_ms } => event@ == (SwapEventView::Counted {
                holders: None,
                elapsed_ms: elapsed_ms as nat,
            }),
            SwapEvent::Signalled(Ok(_)) => event@ == SwapEventView::Signalled(Ok(())),
            SwapEvent::Signalled(Err(why)) => event@ == SwapEventView::Signalled(Err(why@)),
            SwapEvent::Checked { passed, elapsed_ms } => event@ == (SwapEventView::Checked {
                passed,
                elapsed_ms: elapsed_ms as nat,
            }),
        },
{
}

/// The model of a swap's result keeps its pids, its holders and its error.
pub proof fn law_swap_result_model(r: WarmSwapResult)
    ensures
        match r {
            WarmSwapResult::Success { prev_pid, new_pid } => r@ == (SwapResultView::Success {
                prev_pid,
                new_pid,
            }),
            WarmSwapResult::SplitState { holders } => r@ == (SwapResultView::SplitState {
                holders: holders as nat,
            }),
            WarmSwapResult::Failed(e) => r@ == SwapResultView::Failed(e@),
        },
{
}

/// What could not be launched, stopped or signalled ends the swap with an error that names it and
/// says why.
pub proof fn law_swap_says_why(s: SwapView, why: Seq<char>)
    ensures
        s.phase == SwapPhase::Launch ==> s.step(SwapEventView::Launched(Err(why))).action
            == SwapActionView::Finish(
            SwapResultView::Failed(
                RolloutErrorView::LaunchFailed {
                    name: s.recipe.name,
                    reason: "systemd-run --user --scope spawn failed: "@ + why,
                },
            ),
        ),
        s.phase == SwapPhase::Stop && s.recipe.unit_name() is Some ==> s.step(
            SwapEventView::Ran(CommandView::NotSpawned(why)),
        ).action == SwapActionView::Finish(
            SwapResultView::Failed(
                RolloutErrorView::Signal(
                    "systemctl stop "@ + s.recipe.unit_name()->Some_0 + ": "@ + why,
                ),
            ),
        ),
        s.phase == SwapPhase::Stop && s.recipe.unit_name() is None ==> s.step(
            SwapEventView::Signalled(Err(why)),
        ).action == SwapActionView::Finish(
            SwapResultView::Failed(
                RolloutErrorView::Signal("SIGTERM "@ + dec(s.old_pid as nat) + ": "@ + why),
            ),
        ),
{
    reveal(SwapView::step);
}

} // verus!
