//! The unattended cycle: prove the fleet, build its stale daemons and swap them warm, verify each
//! swap, and write a receipt.

use crate::autogate::{
    default_gate, gate_installed, gate_verdict, installed_verdict, law_unattended_gate,
    ledger_result, GateVerdict, ProofLedger, ProofView, VerdictView,
};
use crate::calendar::{format_unix_secs, timestamp};
use crate::command::{
    law_step_command, recipe_cmd_result, run_recipe_cmd, CommandOutcome, CommandView,
};
use crate::error::{error_text, law_error_text, RolloutError, RolloutErrorView};
use crate::fleet::{outcome, DaemonRecipe, FleetConfig, RecipeView};
use crate::health::{is_voice, is_voice_daemon, ActivityView, VoiceActivityState};
use crate::output::{lemma_lines_push, line_views, no_lines, one_line, two_lines, Line, LineView};
use crate::paths::{join_path, law_one_slash_between, law_path_under, path_under, text_result};
use crate::prove::{law_refusal_keeps_ledger, prove_action, prove_begun, took_in, ProveEvent};
use crate::scan::{entries_result, entry_views, BinstaleEntry, EntryView};
use crate::text::{
    copy_option, dec, decimal, lemma_mentions, mentions, opt_string, opt_text, replace, replaced,
    same,
};
use crate::warmswap::{
    claim_path, claim_path_for_recipe, opt_nat, SwapResultView, WarmSwapResult,
};
use vstd::prelude::*;

verus! {

// ---------------------------------------------------------------------------
// Switches and clocks
// ---------------------------------------------------------------------------

/// Whether unattended runs are enabled: only by exactly `1`.
pub fn auto_enabled_from_str(val: &str) -> (r: bool)
    ensures
        r == (val@ == "1"@),
{
    same(val, "1")
}

/// What is told first: whether the cycle swaps daemons or only tells what it would do.
pub open spec fn mode_text(live: bool, auto_value: Seq<char>) -> LineView {
    if live {
        LineView::Out("rollout cycle: LIVE mode (ROLLOUT_AUTO_ENABLED=1)"@)
    } else {
        LineView::Out(
            "rollout cycle: DRY-RUN mode (ROLLOUT_AUTO_ENABLED="@ + auto_value
                + " — set to 1 to enable live swaps)"@,
        )
    }
}

/// Whether the cycle is live, from the value of `ROLLOUT_AUTO_ENABLED` and whether a dry run
/// was asked for; and what is told first.
pub fn cycle_mode(dry_run: bool, auto_value: &str) -> (r: (bool, Line))
    ensures
        r.0 == (!dry_run && auto_value@ == "1"@),
        r.1@ == mode_text(r.0, auto_value@),
{
    let live = !dry_run && auto_enabled_from_str(auto_value);
    if live {
        (live, Line::Out("rollout cycle: LIVE mode (ROLLOUT_AUTO_ENABLED=1)".to_owned()))
    } else {
        (
            live,
            Line::Out(
                "rollout cycle: DRY-RUN mode (ROLLOUT_AUTO_ENABLED=".to_owned().concat(
                    auto_value,
                ).concat(" — set to 1 to enable live swaps)"),
            ),
        )
    }
}

/// Unix time in milliseconds, as far as it fits 64 bits; a clock before its start counts as
/// its start.
pub fn now_ms(since_epoch_ms: Option<u128>) -> (r: u64)
    ensures
        match since_epoch_ms {
            Some(ms) => r == if ms <= u64::MAX {
                ms
            } else {
                u64::MAX as u128
            },
            None => r == 0,
        },
{
    match since_epoch_ms {
        Some(ms) => if ms <= 0xffff_ffff_ffff_ffff {
            ms as u64
        } else {
            0xffff_ffff_ffff_ffff
        },
        None => 0,
    }
}

/// The time of the clock as a UTC timestamp; a clock before its start counts as its start.
pub fn iso_now(since_epoch_secs: Option<u64>) -> (r: String)
    ensures
        r@ == timestamp(
            match since_epoch_secs {
                Some(secs) => secs,
                None => 0,
            },
        ),
{
    match since_epoch_secs {
        Some(secs) => format_unix_secs(secs),
        None => format_unix_secs(0),
    }
}

/// The directory of the receipts: the one that was given, or one under the home directory.
pub open spec fn receipt_directory(given: Option<Seq<char>>, home: Option<Seq<char>>) -> Result<
    Seq<char>,
    RolloutErrorView,
> {
    match given {
        Some(dir) => Ok(dir),
        None => match home {
            Some(h) => Ok(path_under(h, ".local/state/rollout/receipts"@)),
            None => Err(RolloutErrorView::FleetConfig("HOME env var not set"@)),
        },
    }
}

/// The directory of the receipts: the one that was given, or one under the home directory.
pub fn resolve_receipt_dir(given: Option<&str>, home: Option<&str>) -> (r: Result<
    String,
    RolloutError,
>)
    ensures
        text_result(r) == receipt_directory(opt_text(given), opt_text(home)),
{
    match given {
        Some(dir) => Ok(dir.to_owned()),
        None => match home {
            Some(h) => Ok(join_path(h, ".local/state/rollout/receipts")),
            None => Err(RolloutError::FleetConfig("HOME env var not set".to_owned())),
        },
    }
}

/// The name of the receipt of the cycle that began at `time`.
pub open spec fn receipt_name(time: Seq<char>) -> Seq<char> {
    "cycle-"@ + replaced(time, ":"@, "-"@) + ".json"@
}

/// The path of the receipt of the cycle that began at `time`.
pub fn receipt_path(dir: &str, time: &str) -> (r: String)
    ensures
        r@ == path_under(dir@, receipt_name(time@)),
{
    proof {
        reveal_strlit(":");
    }
    let name = "cycle-".to_owned().concat(replace(time, ":", "-").as_str()).concat(".json");
    join_path(dir, name.as_str())
}

// ---------------------------------------------------------------------------
// Records and receipts
// ---------------------------------------------------------------------------

/// What the cycle did with one stale daemon.
#[derive(Debug)]
pub struct DaemonCycleRecord {
    /// The daemon's name.
    pub name: String,
    /// Whether it was swapped.
    pub restarted: bool,
    /// Why it was skipped, if it was.
    pub skip_reason: Option<String>,
    /// How many processes held its claim after the swap.
    pub claim_holders: Option<usize>,
    /// Whether the swap was verified.
    pub verify_ok: Option<bool>,
    /// How long the swap took, in milliseconds.
    pub swap_ms: Option<u64>,
}

/// The model of a [`DaemonCycleRecord`].
#[verifier::ext_equal]
pub struct RecordView {
    pub name: Seq<char>,
    pub restarted: bool,
    pub skip_reason: Option<Seq<char>>,
    pub claim_holders: Option<nat>,
    pub verify_ok: Option<bool>,
    pub swap_ms: Option<nat>,
}

impl View for DaemonCycleRecord {
    type V = RecordView;

    open spec fn view(&self) -> RecordView {
        RecordView {
            name: self.name@,
            restarted: self.restarted,
            skip_reason: opt_string(self.skip_reason),
            claim_holders: opt_nat(self.claim_holders),
            verify_ok: self.verify_ok,
            swap_ms: match self.swap_ms {
                Some(ms) => Some(ms as nat),
                None => None,
            },
        }
    }
}

impl Clone for DaemonCycleRecord {
    fn clone(&self) -> (r: Self)
        ensures
            r@ == self@,
    {
        DaemonCycleRecord {
            name: self.name.clone(),
            restarted: self.restarted,
            skip_reason: copy_option(&self.skip_reason),
            claim_holders: self.claim_holders,
            verify_ok: self.verify_ok,
            swap_ms: self.swap_ms,
        }
    }
}

/// The models of a list of records.
pub open spec fn record_views(v: Seq<DaemonCycleRecord>) -> Seq<RecordView> {
    v.map_values(|r: DaemonCycleRecord| r@)
}

/// The models of a list that got one record more.
pub broadcast proof fn lemma_records_push(v: Seq<DaemonCycleRecord>, r: DaemonCycleRecord)
    ensures
        #[trigger] record_views(v.push(r)) == record_views(v).push(r@),
{
    assert(record_views(v.push(r)) =~= record_views(v).push(r@));
}

/// The record of a daemon that was skipped.
pub open spec fn skipped(name: Seq<char>, reason: Seq<char>) -> RecordView {
    RecordView {
        name,
        restarted: false,
        skip_reason: Some(reason),
        claim_holders: None,
        verify_ok: None,
        swap_ms: None,
    }
}

/// What a cycle did.
#[derive(Debug)]
pub struct CycleReceipt {
    /// When it began.
    pub timestamp: String,
    /// Whether it only told what it would do.
    pub dry_run: bool,
    /// What it did with each stale daemon.
    pub daemons: Vec<DaemonCycleRecord>,
    /// How many daemons were swapped and verified.
    pub rolled_count: usize,
    /// How many swaps were not verified.
    pub verify_fail_count: usize,
    /// `ok`, `partial` or `dry-run`.
    pub outcome: String,
}

/// The model of a [`CycleReceipt`].
#[verifier::ext_equal]
pub struct ReceiptView {
    pub timestamp: Seq<char>,
    pub dry_run: bool,
    pub daemons: Seq<RecordView>,
    pub rolled_count: nat,
    pub verify_fail_count: nat,
    pub outcome: Seq<char>,
}

impl View for CycleReceipt {
    type V = ReceiptView;

    open spec fn view(&self) -> ReceiptView {
        ReceiptView {
            timestamp: self.timestamp@,
            dry_run: self.dry_run,
            daemons: record_views(self.daemons@),
            rolled_count: self.rolled_count as nat,
            verify_fail_count: self.verify_fail_count as nat,
            outcome: self.outcome@,
        }
    }
}

/// How many daemons were swapped and verified.
pub open spec fn rolled(records: Seq<RecordView>) -> nat {
    records.filter(|r: RecordView| r.restarted && r.verify_ok == Some(true)).len()
}

/// How many swaps were not verified.
pub open spec fn unverified(records: Seq<RecordView>) -> nat {
    records.filter(|r: RecordView| r.verify_ok == Some(false)).len()
}

/// The word for how a cycle ended.
pub open spec fn outcome_word(live: bool, records: Seq<RecordView>) -> Seq<char> {
    if !live {
        "dry-run"@
    } else if unverified(records) > 0 {
        "partial"@
    } else {
        "ok"@
    }
}

/// How many daemons were swapped and verified, and how many swaps were not verified.
fn counts(records: &Vec<DaemonCycleRecord>) -> (r: (usize, usize))
    ensures
        r.0 == rolled(record_views(records@)),
        r.1 == unverified(record_views(records@)),
{
    let n: usize = records.len();
    let mut i: usize = 0;
    let mut swapped: usize = 0;
    let mut failed: usize = 0;
    let ghost models = record_views(records@);
    proof {
        reveal(Seq::filter);
        assert(rolled(models.take(0)) == 0);
        assert(unverified(models.take(0)) == 0);
    }
    while i < n
        invariant
            n == records@.len(),
            models == record_views(records@),
            i <= n,
            swapped <= i,
            failed <= i,
            swapped == rolled(models.take(i as int)),
            failed == unverified(models.take(i as int)),
        decreases n - i,
    {
        proof {
            reveal(Seq::filter);
            assert(models.take(i + 1).drop_last() =~= models.take(i as int));
            assert(models.take(i + 1).last() == records@[i as int]@);
        }
        match records[i].verify_ok {
            Some(ok) => {
                if !ok {
                    failed = failed + 1;
                } else if records[i].restarted {
                    swapped = swapped + 1;
                }
            },
            None => {},
        }
        i = i + 1;
    }
    assert(models.take(n as int) =~= models);
    (swapped, failed)
}

fn copy_records(records: &Vec<DaemonCycleRecord>) -> (r: Vec<DaemonCycleRecord>)
    ensures
        record_views(r@) == record_views(records@),
{
    broadcast use lemma_records_push;

    let n: usize = records.len();
    let mut i: usize = 0;
    let mut r: Vec<DaemonCycleRecord> = Vec::new();
    let ghost models = record_views(records@);
    assert(record_views(r@) =~= models.take(0));
    while i < n
        invariant
            n == records@.len(),
            models == record_views(records@),
            i <= n,
            record_views(r@) == models.take(i as int),
        decreases n - i,
    {
        let one = records[i].clone();
        assert(models.take(i + 1) =~= models.take(i as int).push(one@));
        r.push(one);
        i = i + 1;
    }
    assert(models.take(n as int) =~= models);
    r
}

// ---------------------------------------------------------------------------
// Events and actions
// ---------------------------------------------------------------------------

/// Where a cycle stands.
#[derive(Debug, Clone, Copy, PartialEq, Eq, Structural)]
pub enum CyclePhase {
    /// Nothing was done yet.
    Start,
    /// The fleet is proved.
    Prove,
    /// The running binaries are scanned.
    Scan,
    /// The ledger is read.
    Ledger,
    /// The next daemon is taken up.
    Select,
    /// The bus is probed for voice activity.
    Voice,
    /// The daemon's binary is hashed, for the ledger to be asked about it.
    Gate,
    /// The daemon is built.
    Build,
    /// The daemon is swapped.
    Swap,
    /// The holders of its claim are counted.
    Verify,
    /// The receipt is written.
    Receipt,
    /// The cycle is over.
    Done,
}

/// What happened outside since the last step.
pub enum CycleEvent {
    /// Nothing: the cycle begins or goes on.
    Go,
    /// The fleet was proved, or why it was not.
    Proved(Result<(), RolloutError>),
    /// The stale daemons of the scan, or why there is none.
    Scanned(Result<Vec<BinstaleEntry>, RolloutError>),
    /// The ledger was read, or why it was not.
    Loaded(Result<ProofLedger, RolloutError>),
    /// The bus was probed.
    Voice(VoiceActivityState),
    /// The hash of a binary, where it could be made.
    Hash(Option<String>),
    /// The build command ended.
    Built(CommandOutcome),
    /// The daemon was swapped, between these Unix times.
    Swapped { result: WarmSwapResult, start_ms: u64, end_ms: u64 },
    /// The holders of the claim were counted, where the bus gave an answer.
    Counted(Option<usize>),
    /// The receipt was written to this path, or why it was not.
    Written(Result<String, RolloutError>),
}

/// The model of a [`CycleEvent`].
#[verifier::ext_equal]
pub enum CycleEventView {
    Go,
    Proved(Result<(), RolloutErrorView>),
    Scanned(Result<Seq<EntryView>, RolloutErrorView>),
    Loaded(Result<Map<Seq<char>, ProofView>, RolloutErrorView>),
    Voice(ActivityView),
    Hash(Option<Seq<char>>),
    Built(CommandView),
    Swapped { result: SwapResultView, start_ms: nat, end_ms: nat },
    Counted(Option<nat>),
    Written(Result<Seq<char>, RolloutErrorView>),
}

impl View for CycleEvent {
    type V = CycleEventView;

    open spec fn view(&self) -> CycleEventView {
        match *self {
            CycleEvent::Go => CycleEventView::Go,
            CycleEvent::Proved(r) => CycleEventView::Proved(outcome(r)),
            CycleEvent::Scanned(r) => CycleEventView::Scanned(entries_result(r)),
            CycleEvent::Loaded(r) => CycleEventView::Loaded(ledger_result(r)),
            CycleEvent::Voice(state) => CycleEventView::Voice(state@),
            CycleEvent::Hash(hash) => CycleEventView::Hash(opt_string(hash)),
            CycleEvent::Built(ran) => CycleEventView::Built(ran@),
            CycleEvent::Swapped { result, start_ms, end_ms } => CycleEventView::Swapped {
                result: result@,
                start_ms: start_ms as nat,
                end_ms: end_ms as nat,
            },
            CycleEvent::Counted(holders) => CycleEventView::Counted(opt_nat(holders)),
            CycleEvent::Written(r) => CycleEventView::Written(text_result(r)),
        }
    }
}

/// What is to be done next, and told back as an event.
#[derive(Debug)]
pub enum CycleAction {
    /// Nothing: the cycle goes on.
    Continue,
    /// Prove every daemon of the fleet; with `all_or_nothing` a refused proof keeps the ledger
    /// from being written.
    Prove { dry_run: bool, all_or_nothing: bool },
    /// Scan the running binaries.
    Scan,
    /// Read the ledger.
    LoadLedger,
    /// Probe the bus for voice activity.
    ProbeVoice,
    /// Make the SHA-256 digest of an installed binary, in lower-case hexadecimal.
    ReadHash { path: String },
    /// Run a build command to its end.
    Build { cmd: String, dir: Option<String> },
    /// Swap a daemon warm.
    Swap { recipe: DaemonRecipe, claim_path: String, pid: u32 },
    /// Count the holders of a claim.
    CountHolders { claim_path: String },
    /// Write the receipt.
    WriteReceipt(CycleReceipt),
    /// The cycle is over.
    Finish(Result<(), RolloutError>),
    /// The event does not belong here; nothing changed.
    Ignored,
}

/// The model of a [`CycleAction`].
#[verifier::ext_equal]
pub enum CycleActionView {
    Continue,
    Prove { dry_run: bool, all_or_nothing: bool },
    Scan,
    LoadLedger,
    ProbeVoice,
    ReadHash { path: Seq<char> },
    Build { cmd: Seq<char>, dir: Option<Seq<char>> },
    Swap { recipe: RecipeView, claim_path: Seq<char>, pid: u32 },
    CountHolders { claim_path: Seq<char> },
    WriteReceipt(ReceiptView),
    Finish(Result<(), RolloutErrorView>),
    Ignored,
}

impl View for CycleAction {
    type V = CycleActionView;

    open spec fn view(&self) -> CycleActionView {
        match *self {
            CycleAction::Continue => CycleActionView::Continue,
            CycleAction::Prove { dry_run, all_or_nothing } => CycleActionView::Prove {
                dry_run,
                all_or_nothing,
            },
            CycleAction::Scan => CycleActionView::Scan,
            CycleAction::LoadLedger => CycleActionView::LoadLedger,
            CycleAction::ProbeVoice => CycleActionView::ProbeVoice,
            CycleAction::ReadHash { path } => CycleActionView::ReadHash { path: path@ },
            CycleAction::Build { cmd, dir } => CycleActionView::Build {
                cmd: cmd@,
                dir: opt_string(dir),
            },
            CycleAction::Swap { recipe, claim_path, pid } => CycleActionView::Swap {
                recipe: recipe@,
                claim_path: claim_path@,
                pid,
            },
            CycleAction::CountHolders { claim_path } => CycleActionView::CountHolders {
                claim_path: claim_path@,
            },
            CycleAction::WriteReceipt(receipt) => CycleActionView::WriteReceipt(receipt@),
            CycleAction::Finish(r) => CycleActionView::Finish(outcome(r)),
            CycleAction::Ignored => CycleActionView::Ignored,
        }
    }
}

// ---------------------------------------------------------------------------
// The cycle
// ---------------------------------------------------------------------------

/// An unattended cycle.
pub struct CycleRun {
    fleet: FleetConfig,
    live: bool,
    timestamp: String,
    refusal: Option<String>,
    stale: Vec<BinstaleEntry>,
    ledger: ProofLedger,
    at: usize,
    records: Vec<DaemonCycleRecord>,
    swap_ms: u64,
    phase: CyclePhase,
}

/// The model of a [`CycleRun`].
#[verifier::ext_equal]
pub struct CycleView {
    pub fleet: Map<Seq<char>, RecipeView>,
    /// Whether daemons are swapped.
    pub live: bool,
    pub timestamp: Seq<char>,
    /// Why the proving step was refused, where the cycle is live.
    pub refusal: Option<Seq<char>>,
    pub stale: Seq<EntryView>,
    pub ledger: Map<Seq<char>, ProofView>,
    /// The entry at hand.
    pub at: nat,
    pub records: Seq<RecordView>,
    /// How long the swap at hand took, in milliseconds.
    pub swap_ms: nat,
    pub phase: CyclePhase,
}

impl View for CycleRun {
    type V = CycleView;

    closed spec fn view(&self) -> CycleView {
        CycleView {
            fleet: self.fleet@,
            live: self.live,
            timestamp: self.timestamp@,
            refusal: opt_string(self.refusal),
            stale: entry_views(self.stale@),
            ledger: self.ledger@,
            at: self.at as nat,
            records: record_views(self.records@),
            swap_ms: self.swap_ms as nat,
            phase: self.phase,
        }
    }
}

/// What a step does: the cycle after it, what is told, and what is to be done.
#[verifier::ext_equal]
pub struct CycleMove {
    pub state: CycleView,
    pub lines: Seq<LineView>,
    pub action: CycleActionView,
}

/// A cycle before its first step.
pub open spec fn cycle_begun(
    fleet: Map<Seq<char>, RecipeView>,
    live: bool,
    time: Seq<char>,
) -> CycleView {
    CycleView {
        fleet,
        live,
        timestamp: time,
        refusal: None,
        stale: seq![],
        ledger: Map::empty(),
        at: 0,
        records: seq![],
        swap_ms: 0,
        phase: CyclePhase::Start,
    }
}

/// `b` less `a`, but not below zero.
pub open spec fn minus(b: nat, a: nat) -> nat {
    if b >= a {
        (b - a) as nat
    } else {
        0
    }
}

impl CycleView {
    /// The entry at hand.
    pub open spec fn entry(self) -> EntryView {
        self.stale[self.at as int]
    }

    /// The text of a line about the entry at hand.
    pub open spec fn tell(self, text: Seq<char>) -> Seq<char> {
        "rollout cycle: "@ + self.entry().comm + text
    }

    /// The claim of the entry at hand; empty where it has none.
    pub open spec fn claim(self) -> Seq<char> {
        if self.fleet.contains_key(self.entry().comm) {
            match claim_path(self.fleet[self.entry().comm]) {
                Some(claim) => claim,
                None => seq![],
            }
        } else {
            seq![]
        }
    }

    /// What the ledger says of the entry at hand, whose installed binary has the given hash.
    pub open spec fn verdict(self, hash: Option<Seq<char>>) -> VerdictView {
        installed_verdict(self.entry().comm, self.entry().installed_path(), hash, self.ledger)
    }

    /// The step that goes on to `phase` with `action`.
    pub open spec fn go(
        self,
        phase: CyclePhase,
        lines: Seq<LineView>,
        action: CycleActionView,
    ) -> CycleMove {
        CycleMove { state: CycleView { phase, ..self }, lines, action }
    }

    /// The step for an event that does not belong here.
    pub open spec fn ignored(self) -> CycleMove {
        self.go(self.phase, seq![], CycleActionView::Ignored)
    }

    /// The step that records what became of the entry at hand.
    pub open spec fn record(self, lines: Seq<LineView>, record: RecordView) -> CycleMove {
        CycleView { at: self.at + 1, records: self.records.push(record), ..self }.go(
            CyclePhase::Select,
            lines,
            CycleActionView::Continue,
        )
    }

    /// The step that skips the entry at hand.
    pub open spec fn skip(self, lines: Seq<LineView>, reason: Seq<char>) -> CycleMove {
        self.record(lines, skipped(self.entry().comm, reason))
    }

    /// The step that begins with the proofs.
    pub open spec fn begin(self) -> CycleMove {
        self.go(
            CyclePhase::Prove,
            seq![
                LineView::Out(
                    "rollout cycle [1/3]: refreshing proof ledger (prove --all"@ + (if self.live {
                        ""@
                    } else {
                        " --dry-run"@
                    }) + ")…"@,
                ),
            ],
            CycleActionView::Prove { dry_run: !self.live, all_or_nothing: true },
        )
    }

    /// The step after the proofs: a failure is told and the cycle goes on with the ledger that
    /// is there; a refusal in a live cycle is remembered.
    pub open spec fn proved(self, r: Result<(), RolloutErrorView>) -> CycleMove {
        let warning = match r {
            Ok(_) => seq![],
            Err(e) => {
                let first = seq![
                    LineView::Warn("rollout cycle: prove step warning: "@ + error_text(e)),
                ];
                if self.live {
                    first.push(
                        LineView::Warn(
                            "rollout cycle: proceeding with existing ledger entries"@,
                        ),
                    )
                } else {
                    first
                }
            },
        };
        let heading = LineView::Out(
            if self.live {
                "rollout cycle [2/3]: live stale daemon check + apply --auto (warm-swap only)…"@
            } else {
                "rollout cycle [2/3]: dry-run stale daemon check + apply plan (no restarts)…"@
            },
        );
        CycleView {
            refusal: match r {
                Err(RolloutErrorView::ProveRefused { reason }) => if self.live {
                    Some(reason)
                } else {
                    None
                },
                _ => None,
            },
            ..self
        }.go(CyclePhase::Scan, warning.push(heading), CycleActionView::Scan)
    }

    /// The step after the scan: a failed scan counts as one without stale daemons.
    pub open spec fn scanned(self, r: Result<Seq<EntryView>, RolloutErrorView>) -> CycleMove {
        match r {
            Ok(stale) => CycleView { stale, ..self }.go(
                CyclePhase::Ledger,
                seq![],
                CycleActionView::LoadLedger,
            ),
            Err(e) => CycleView { stale: seq![], ..self }.go(
                CyclePhase::Ledger,
                seq![
                    LineView::Warn(
                        "rollout cycle: binstale scan failed: "@ + error_text(e)
                            + "; treating as empty"@,
                    ),
                ],
                CycleActionView::LoadLedger,
            ),
        }
    }

    /// What the cycle did.
    pub open spec fn receipt(self) -> ReceiptView {
        ReceiptView {
            timestamp: self.timestamp,
            dry_run: !self.live,
            daemons: self.records,
            rolled_count: rolled(self.records),
            verify_fail_count: unverified(self.records),
            outcome: outcome_word(self.live, self.records),
        }
    }

    /// The step that writes the receipt when every daemon was taken up.
    pub open spec fn finish(self) -> CycleMove {
        self.go(
            CyclePhase::Receipt,
            seq![
                LineView::Out(
                    "rollout cycle [3/3]: outcome="@ + self.receipt().outcome + " rolled="@ + dec(
                        self.receipt().rolled_count,
                    ) + " verify_fail="@ + dec(self.receipt().verify_fail_count),
                ),
            ],
            CycleActionView::WriteReceipt(self.receipt()),
        )
    }

    /// The step that takes up the next daemon: one without a recipe or without a claim is
    /// skipped, and a voice daemon is never touched unprobed.
    pub open spec fn select(self) -> CycleMove {
        if self.at >= self.stale.len() {
            self.finish()
        } else if !self.fleet.contains_key(self.entry().comm) {
            self.skip(seq![], "no fleet.toml recipe"@)
        } else if claim_path(self.fleet[self.entry().comm]) is None {
            self.skip(
                seq![
                    LineView::Out(
                        self.tell(
                            " skipped — no claim path (warm-swap-only mode; hard-restart skipped)"@,
                        ),
                    ),
                ],
                "no claim path (warm-swap only)"@,
            )
        } else if is_voice(self.entry().comm) {
            self.go(CyclePhase::Voice, seq![], CycleActionView::ProbeVoice)
        } else {
            self.ask()
        }
    }

    /// The step that has the installed binary of the daemon at hand hashed.
    pub open spec fn ask(self) -> CycleMove {
        self.go(
            CyclePhase::Gate,
            seq![],
            CycleActionView::ReadHash { path: self.entry().installed_path() },
        )
    }

    /// The step after a probe of the bus: only an idle voice loop lets the daemon be touched.
    pub open spec fn probed(self, state: ActivityView) -> CycleMove {
        match state {
            ActivityView::InFlight { reason } => self.skip(
                seq![LineView::Out(self.tell(" deferred — voice active: "@ + reason))],
                "voice active: "@ + reason,
            ),
            ActivityView::BusUnreachable => self.skip(
                seq![
                    LineView::Out(
                        self.tell(
                            " deferred — agorabus unreachable (cannot confirm turn idle)"@,
                        ),
                    ),
                ],
                "agorabus unreachable"@,
            ),
            ActivityView::Idle => self.ask(),
        }
    }

    /// What a cycle that is not live would verify of the entry at hand.
    pub open spec fn would_verify(self, allowed: bool) -> Seq<char> {
        if allowed {
            "would verify 1 claim holder on '"@ + self.claim() + "'"@
        } else {
            "would verify nothing"@
        }
    }

    /// The step that asks the ledger: a cycle that is not live only tells what it would do and
    /// what it would then verify; a live one builds a daemon that is allowed.
    pub open spec fn gated(self, hash: Option<Seq<char>>) -> CycleMove {
        if !self.live {
            let allowed = self.verdict(hash) is Allow;
            let would = if allowed {
                "would warm-swap"@
            } else {
                "would skip (gate Refuse)"@
            };
            let prefix = "rollout cycle [dry-run]: "@ + self.entry().comm + " — "@;
            self.skip(
                seq![
                    LineView::Out(prefix + would),
                    LineView::Out(prefix + self.would_verify(allowed)),
                ],
                "dry-run ("@ + would + ")"@,
            )
        } else {
            match self.verdict(hash) {
                VerdictView::Refuse { reason } => self.skip(
                    seq![LineView::Out(self.tell(" skipped — gate Refuse: "@ + reason))],
                    "gate Refuse: "@ + reason,
                ),
                VerdictView::Allow => if self.fleet.contains_key(self.entry().comm) {
                    self.go(
                        CyclePhase::Build,
                        seq![LineView::Out(self.tell(" gate Allow — warm-swapping…"@))],
                        CycleActionView::Build {
                            cmd: self.fleet[self.entry().comm].build_cmd,
                            dir: self.fleet[self.entry().comm].repo,
                        },
                    )
                } else {
                    self.ignored()
                },
            }
        }
    }

    /// The step after the build: a daemon that could not be built is skipped, any other is
    /// swapped.
    pub open spec fn built(self, ran: CommandView) -> CycleMove {
        if self.fleet.contains_key(self.entry().comm) {
            match recipe_cmd_result(self.entry().comm, "build"@, ran) {
                Ok(_) => self.go(
                    CyclePhase::Swap,
                    seq![],
                    CycleActionView::Swap {
                        recipe: self.fleet[self.entry().comm],
                        claim_path: self.claim(),
                        pid: self.entry().pid,
                    },
                ),
                Err(e) => self.skip(
                    seq![LineView::Warn(self.tell(" skipped — "@ + error_text(e)))],
                    error_text(e),
                ),
            }
        } else {
            self.ignored()
        }
    }

    /// The step after a swap.
    pub open spec fn swapped(self, result: SwapResultView, ms: nat) -> CycleMove {
        match result {
            SwapResultView::Success { prev_pid, new_pid } => CycleView { swap_ms: ms, ..self }.go(
                CyclePhase::Verify,
                seq![LineView::Out(self.tell(" warm-swap ok ("@ + dec(ms) + "ms)"@))],
                CycleActionView::CountHolders { claim_path: self.claim() },
            ),
            SwapResultView::SplitState { holders } => self.record(
                seq![
                    LineView::Warn(
                        self.tell(
                            " SplitState after swap (holders="@ + dec(holders) + ") — skipping"@,
                        ),
                    ),
                ],
                RecordView {
                    name: self.entry().comm,
                    restarted: true,
                    skip_reason: None,
                    claim_holders: Some(holders),
                    verify_ok: Some(false),
                    swap_ms: Some(ms),
                },
            ),
            SwapResultView::Failed(e) => self.record(
                seq![LineView::Warn(self.tell(" swap FAILED: "@ + error_text(e)))],
                RecordView {
                    name: self.entry().comm,
                    restarted: false,
                    skip_reason: Some("swap failed: "@ + error_text(e)),
                    claim_holders: None,
                    verify_ok: Some(false),
                    swap_ms: Some(ms),
                },
            ),
        }
    }

    /// The step after the holders of the claim were counted: a swap is verified by exactly one
    /// holder, and no answer counts as none.
    pub open spec fn verified(self, answer: Option<nat>) -> CycleMove {
        let holders = match answer {
            Some(n) => n,
            None => 0,
        };
        self.record(
            seq![
                if holders == 1 {
                    LineView::Out(self.tell(" verify ok (1 claim holder)"@))
                } else {
                    LineView::Warn(
                        self.tell(
                            " verify FAIL — expected 1 claim holder, got "@ + dec(holders),
                        ),
                    )
                },
            ],
            RecordView {
                name: self.entry().comm,
                restarted: true,
                skip_reason: None,
                claim_holders: Some(holders),
                verify_ok: Some(holders == 1),
                swap_ms: Some(self.swap_ms),
            },
        )
    }

    /// How a cycle ends whose receipt was written: it fails where a swap was not verified, and
    /// else where the proving step of a live cycle was refused.
    pub open spec fn result(self) -> Result<(), RolloutErrorView> {
        if unverified(self.records) > 0 {
            Err(RolloutErrorView::CycleVerifyFailed { count: unverified(self.records) })
        } else {
            match self.refusal {
                Some(reason) => Err(RolloutErrorView::ProveRefused { reason }),
                None => Ok(()),
            }
        }
    }

    /// The step that ends the cycle.
    pub open spec fn written(self, r: Result<Seq<char>, RolloutErrorView>) -> CycleMove {
        match r {
            Ok(path) => self.go(
                CyclePhase::Done,
                seq![LineView::Out("rollout cycle: receipt → "@ + path)],
                CycleActionView::Finish(self.result()),
            ),
            Err(e) => self.go(CyclePhase::Done, seq![], CycleActionView::Finish(Err(e))),
        }
    }

    /// What a step does on an event.
    #[verifier::opaque]
    pub open spec fn step(self, event: CycleEventView) -> CycleMove {
        match (self.phase, event) {
            (CyclePhase::Start, CycleEventView::Go) => self.begin(),
            (CyclePhase::Prove, CycleEventView::Proved(r)) => self.proved(r),
            (CyclePhase::Scan, CycleEventView::Scanned(r)) => self.scanned(r),
            (CyclePhase::Ledger, CycleEventView::Loaded(r)) => CycleView {
                ledger: match r {
                    Ok(ledger) => ledger,
                    Err(_) => Map::empty(),
                },
                ..self
            }.go(CyclePhase::Select, seq![], CycleActionView::Continue),
            (CyclePhase::Select, CycleEventView::Go) => self.select(),
            (CyclePhase::Voice, CycleEventView::Voice(state)) => if self.at < self.stale.len() {
                self.probed(state)
            } else {
                self.ignored()
            },
            (CyclePhase::Gate, CycleEventView::Hash(hash)) => if self.at < self.stale.len() {
                self.gated(hash)
            } else {
                self.ignored()
            },
            (CyclePhase::Build, CycleEventView::Built(ran)) => if self.at < self.stale.len() {
                self.built(ran)
            } else {
                self.ignored()
            },
            (CyclePhase::Swap, CycleEventView::Swapped { result, start_ms, end_ms }) => if self.at
                < self.stale.len() {
                self.swapped(result, minus(end_ms, start_ms))
            } else {
                self.ignored()
            },
            (CyclePhase::Verify, CycleEventView::Counted(holders)) => if self.at
                < self.stale.len() {
                self.verified(holders)
            } else {
                self.ignored()
            },
            (CyclePhase::Receipt, CycleEventView::Written(r)) => self.written(r),
            _ => self.ignored(),
        }
    }
}

/// What a step gives: what is told, and what is to be done.
#[derive(Debug)]
pub struct CycleStep {
    pub lines: Vec<Line>,
    pub action: CycleAction,
}

impl CycleStep {
    /// The step of the model, from the cycle after it.
    pub open spec fn made(self, state: CycleView) -> CycleMove {
        CycleMove { state, lines: line_views(self.lines@), action: self.action@ }
    }
}

impl CycleRun {
    /// A cycle over a fleet that began at `timestamp`, before its first step.
    pub fn new(fleet: FleetConfig, live: bool, timestamp: String) -> (r: CycleRun)
        ensures
            r@ == cycle_begun(fleet@, live, timestamp@),
    {
        let r = CycleRun {
            fleet,
            live,
            timestamp,
            refusal: None,
            stale: Vec::new(),
            ledger: ProofLedger::default(),
            at: 0,
            records: Vec::new(),
            swap_ms: 0,
            phase: CyclePhase::Start,
        };
        assert(r@.stale =~= seq![]);
        assert(r@.records =~= seq![]);
        r
    }

    fn go(&mut self, phase: CyclePhase, lines: Vec<Line>, action: CycleAction) -> (r: CycleStep)
        ensures
            r.made(final(self)@) == old(self)@.go(phase, line_views(lines@), action@),
    {
        self.phase = phase;
        CycleStep { lines, action }
    }

    fn ignored(&self) -> (r: CycleStep)
        ensures
            r.made(self@) == self@.ignored(),
    {
        CycleStep { lines: no_lines(), action: CycleAction::Ignored }
    }

    fn name(&self) -> (r: String)
        requires
            self@.at < self@.stale.len(),
        ensures
            r@ == self@.entry().comm,
    {
        assert(self@.stale.len() == self.stale@.len());
        assert(self@.stale[self.at as int] == self.stale@[self.at as int]@);
        self.stale[self.at].comm.clone()
    }

    fn tell(&self, text: &str) -> (r: String)
        requires
            self@.at < self@.stale.len(),
        ensures
            r@ == self@.tell(text@),
    {
        "rollout cycle: ".to_owned().concat(self.name().as_str()).concat(text)
    }

    fn claim(&self) -> (r: String)
        requires
            self@.at < self@.stale.len(),
        ensures
            r@ == self@.claim(),
    {
        let claim = match self.fleet.get(self.name().as_str()) {
            Some(recipe) => claim_path_for_recipe(recipe),
            None => None,
        };
        match claim {
            Some(c) => c,
            None => {
                let r = String::new();
                assert(r@ =~= seq![]);
                r
            },
        }
    }

    fn verdict(&self, hash: &Option<String>) -> (r: GateVerdict)
        requires
            self@.at < self@.stale.len(),
        ensures
            r@ == self@.verdict(opt_string(*hash)),
    {
        assert(self@.stale.len() == self.stale@.len());
        assert(self@.stale[self.at as int] == self.stale@[self.at as int]@);
        gate_installed(
            self.stale[self.at].comm.as_str(),
            self.stale[self.at].installed_path().as_str(),
            hash,
            &self.ledger,
        )
    }

    fn ask(&mut self) -> (r: CycleStep)
        requires
            old(self)@.at < old(self)@.stale.len(),
        ensures
            r.made(final(self)@) == old(self)@.ask(),
    {
        assert(self@.stale.len() == self.stale@.len());
        assert(self@.stale[self.at as int] == self.stale@[self.at as int]@);
        let path = self.stale[self.at].installed_path();
        self.go(CyclePhase::Gate, no_lines(), CycleAction::ReadHash { path })
    }

    fn record(&mut self, lines: Vec<Line>, record: DaemonCycleRecord) -> (r: CycleStep)
        requires
            old(self)@.at < old(self)@.stale.len(),
        ensures
            r.made(final(self)@) == old(self)@.record(line_views(lines@), record@),
    {
        broadcast use lemma_records_push;

        let n: usize = self.stale.len();
        assert(self@.stale.len() == n);
        self.records.push(record);
        self.at = self.at + 1;
        self.go(CyclePhase::Select, lines, CycleAction::Continue)
    }

    fn skip(&mut self, lines: Vec<Line>, reason: String) -> (r: CycleStep)
        requires
            old(self)@.at < old(self)@.stale.len(),
        ensures
            r.made(final(self)@) == old(self)@.skip(line_views(lines@), reason@),
    {
        let record = DaemonCycleRecord {
            name: self.name(),
            restarted: false,
            skip_reason: Some(reason),
            claim_holders: None,
            verify_ok: None,
            swap_ms: None,
        };
        self.record(lines, record)
    }

    fn begin(&mut self) -> (r: CycleStep)
        ensures
            r.made(final(self)@) == old(self)@.begin(),
    {
        let flag = if self.live {
            ""
        } else {
            " --dry-run"
        };
        let dry_run = !self.live;
        self.go(
            CyclePhase::Prove,
            one_line(
                Line::Out(
                    "rollout cycle [1/3]: refreshing proof ledger (prove --all".to_owned().concat(
                        flag,
                    ).concat(")…"),
                ),
            ),
            CycleAction::Prove { dry_run, all_or_nothing: true },
        )
    }

    fn proved(&mut self, result: Result<(), RolloutError>) -> (r: CycleStep)
        ensures
            r.made(final(self)@) == old(self)@.proved(outcome(result)),
    {
        broadcast use lemma_lines_push;

        let mut lines = no_lines();
        match result {
            Ok(_) => {
                self.refusal = None;
            },
            Err(e) => {
                lines.push(
                    Line::Warn(
                        "rollout cycle: prove step warning: ".to_owned().concat(
                            e.to_string().as_str(),
                        ),
                    ),
                );
                assert(line_views(lines@) =~= seq![
                    LineView::Warn("rollout cycle: prove step warning: "@ + error_text(e@)),
                ]);
                if self.live {
                    lines.push(
                        Line::Warn(
                            "rollout cycle: proceeding with existing ledger entries".to_owned(),
                        ),
                    );
                }
                self.refusal = match e {
                    RolloutError::ProveRefused { reason } => if self.live {
                        Some(reason)
                    } else {
                        None
                    },
                    _ => None,
                };
            },
        }
        let heading = if self.live {
            "rollout cycle [2/3]: live stale daemon check + apply --auto (warm-swap only)…"
        } else {
            "rollout cycle [2/3]: dry-run stale daemon check + apply plan (no restarts)…"
        };
        lines.push(Line::Out(heading.to_owned()));
        self.go(CyclePhase::Scan, lines, CycleAction::Scan)
    }

    fn scanned(&mut self, result: Result<Vec<BinstaleEntry>, RolloutError>) -> (r: CycleStep)
        ensures
            r.made(final(self)@) == old(self)@.scanned(entries_result(result)),
    {
        match result {
            Ok(stale) => {
                self.stale = stale;
                self.go(CyclePhase::Ledger, no_lines(), CycleAction::LoadLedger)
            },
            Err(e) => {
                self.stale = Vec::new();
                assert(self@.stale =~= seq![]);
                let lines = one_line(
                    Line::Warn(
                        "rollout cycle: binstale scan failed: ".to_owned().concat(
                            e.to_string().as_str(),
                        ).concat("; treating as empty"),
                    ),
                );
                self.go(CyclePhase::Ledger, lines, CycleAction::LoadLedger)
            },
        }
    }

    fn finish(&mut self) -> (r: CycleStep)
        ensures
            r.made(final(self)@) == old(self)@.finish(),
    {
        let (rolled_count, verify_fail_count) = counts(&self.records);
        let word = if !self.live {
            "dry-run"
        } else if verify_fail_count > 0 {
            "partial"
        } else {
            "ok"
        };
        let lines = one_line(
            Line::Out(
                "rollout cycle [3/3]: outcome=".to_owned().concat(word).concat(" rolled=").concat(
                    decimal(rolled_count as u128).as_str(),
                ).concat(" verify_fail=").concat(decimal(verify_fail_count as u128).as_str()),
            ),
        );
        let receipt = CycleReceipt {
            timestamp: self.timestamp.clone(),
            dry_run: !self.live,
            daemons: copy_records(&self.records),
            rolled_count,
            verify_fail_count,
            outcome: word.to_owned(),
        };
        self.go(CyclePhase::Receipt, lines, CycleAction::WriteReceipt(receipt))
    }

    fn select(&mut self) -> (r: CycleStep)
        ensures
            r.made(final(self)@) == old(self)@.select(),
    {
        assert(self@.stale.len() == self.stale@.len());
        if self.at >= self.stale.len() {
            return self.finish();
        }
        let name = self.name();
        let known = match self.fleet.get(name.as_str()) {
            Some(recipe) => Some(claim_path_for_recipe(recipe).is_some()),
            None => None,
        };
        match known {
            None => self.skip(no_lines(), "no fleet.toml recipe".to_owned()),
            Some(has_claim) => {
                if !has_claim {
                    let lines = one_line(
                        Line::Out(
                            self.tell(
                                " skipped — no claim path (warm-swap-only mode; hard-restart skipped)",
                            ),
                        ),
                    );
                    self.skip(lines, "no claim path (warm-swap only)".to_owned())
                } else if is_voice_daemon(name.as_str()) {
                    self.go(CyclePhase::Voice, no_lines(), CycleAction::ProbeVoice)
                } else {
                    self.ask()
                }
            },
        }
    }

    fn probed(&mut self, state: VoiceActivityState) -> (r: CycleStep)
        requires
            old(self)@.at < old(self)@.stale.len(),
        ensures
            r.made(final(self)@) == old(self)@.probed(state@),
    {
        match state {
            VoiceActivityState::InFlight { reason } => {
                let lines = one_line(
                    Line::Out(
                        self.tell(
                            " deferred — voice active: ".to_owned().concat(
                                reason.as_str(),
                            ).as_str(),
                        ),
                    ),
                );
                self.skip(lines, "voice active: ".to_owned().concat(reason.as_str()))
            },
            VoiceActivityState::BusUnreachable => {
                let lines = one_line(
                    Line::Out(
                        self.tell(
                            " deferred — agorabus unreachable (cannot confirm turn idle)",
                        ),
                    ),
                );
                self.skip(lines, "agorabus unreachable".to_owned())
            },
            VoiceActivityState::Idle => self.ask(),
        }
    }

    fn would_verify(&self, allowed: bool) -> (r: String)
        requires
            self@.at < self@.stale.len(),
        ensures
            r@ == self@.would_verify(allowed),
    {
        if allowed {
            "would verify 1 claim holder on '".to_owned().concat(self.claim().as_str()).concat("'")
        } else {
            "would verify nothing".to_owned()
        }
    }

    fn gated(&mut self, hash: Option<String>) -> (r: CycleStep)
        requires
            old(self)@.at < old(self)@.stale.len(),
        ensures
            r.made(final(self)@) == old(self)@.gated(opt_string(hash)),
    {
        let verdict = self.verdict(&hash);
        let name = self.name();
        if !self.live {
            let allowed = match verdict {
                GateVerdict::Allow => true,
                GateVerdict::Refuse { reason: _ } => false,
            };
            let would = if allowed {
                "would warm-swap"
            } else {
                "would skip (gate Refuse)"
            };
            let prefix = "rollout cycle [dry-run]: ".to_owned().concat(name.as_str()).concat(
                " — ",
            );
            let check = self.would_verify(allowed);
            let lines = two_lines(
                Line::Out(prefix.clone().concat(would)),
                Line::Out(prefix.concat(check.as_str())),
            );
            return self.skip(lines, "dry-run (".to_owned().concat(would).concat(")"));
        }
        match verdict {
            GateVerdict::Refuse { reason } => {
                let lines = one_line(
                    Line::Out(
                        self.tell(
                            " skipped — gate Refuse: ".to_owned().concat(reason.as_str()).as_str(),
                        ),
                    ),
                );
                self.skip(lines, "gate Refuse: ".to_owned().concat(reason.as_str()))
            },
            GateVerdict::Allow => {
                let (cmd, dir) = match self.fleet.get(name.as_str()) {
                    Some(recipe) => (recipe.build_cmd.clone(), copy_option(&recipe.repo)),
                    None => {
                        return self.ignored();
                    },
                };
                let lines = one_line(Line::Out(self.tell(" gate Allow — warm-swapping…")));
                self.go(CyclePhase::Build, lines, CycleAction::Build { cmd, dir })
            },
        }
    }

    fn built(&mut self, ran: CommandOutcome) -> (r: CycleStep)
        requires
            old(self)@.at < old(self)@.stale.len(),
        ensures
            r.made(final(self)@) == old(self)@.built(ran@),
    {
        let name = self.name();
        let recipe = match self.fleet.get(name.as_str()) {
            Some(recipe) => recipe.clone(),
            None => {
                return self.ignored();
            },
        };
        match run_recipe_cmd(name.as_str(), "build", ran) {
            Ok(_) => {
                assert(self@.stale.len() == self.stale@.len());
                assert(self@.stale[self.at as int] == self.stale@[self.at as int]@);
                let claim_path = self.claim();
                let pid: u32 = self.stale[self.at].pid;
                self.go(
                    CyclePhase::Swap,
                    no_lines(),
                    CycleAction::Swap { recipe, claim_path, pid },
                )
            },
            Err(e) => {
                let text = e.to_string();
                let lines = one_line(
                    Line::Warn(
                        self.tell(" skipped — ".to_owned().concat(text.as_str()).as_str()),
                    ),
                );
                self.skip(lines, text)
            },
        }
    }

    fn swapped(&mut self, result: WarmSwapResult, ms: u64) -> (r: CycleStep)
        requires
            old(self)@.at < old(self)@.stale.len(),
        ensures
            r.made(final(self)@) == old(self)@.swapped(result@, ms as nat),
    {
        match result {
            WarmSwapResult::Success { prev_pid: _, new_pid: _ } => {
                let lines = one_line(
                    Line::Out(
                        self.tell(
                            " warm-swap ok (".to_owned().concat(
                                decimal(ms as u128).as_str(),
                            ).concat("ms)").as_str(),
                        ),
                    ),
                );
                let claim_path = self.claim();
                self.swap_ms = ms;
                self.go(CyclePhase::Verify, lines, CycleAction::CountHolders { claim_path })
            },
            WarmSwapResult::SplitState { holders } => {
                let lines = one_line(
                    Line::Warn(
                        self.tell(
                            " SplitState after swap (holders=".to_owned().concat(
                                decimal(holders as u128).as_str(),
                            ).concat(") — skipping").as_str(),
                        ),
                    ),
                );
                let record = DaemonCycleRecord {
                    name: self.name(),
                    restarted: true,
                    skip_reason: None,
                    claim_holders: Some(holders),
                    verify_ok: Some(false),
                    swap_ms: Some(ms),
                };
                self.record(lines, record)
            },
            WarmSwapResult::Failed(e) => {
                let text = e.to_string();
                let lines = one_line(
                    Line::Warn(
                        self.tell(" swap FAILED: ".to_owned().concat(text.as_str()).as_str()),
                    ),
                );
                let record = DaemonCycleRecord {
                    name: self.name(),
                    restarted: false,
                    skip_reason: Some("swap failed: ".to_owned().concat(text.as_str())),
                    claim_holders: None,
                    verify_ok: Some(false),
                    swap_ms: Some(ms),
                };
                self.record(lines, record)
            },
        }
    }

    fn verified(&mut self, answer: Option<usize>) -> (r: CycleStep)
        requires
            old(self)@.at < old(self)@.stale.len(),
        ensures
            r.made(final(self)@) == old(self)@.verified(opt_nat(answer)),
    {
        let holders: usize = match answer {
            Some(n) => n,
            None => 0,
        };
        let line = if holders == 1 {
            Line::Out(self.tell(" verify ok (1 claim holder)"))
        } else {
            Line::Warn(
                self.tell(
                    " verify FAIL — expected 1 claim holder, got ".to_owned().concat(
                        decimal(holders as u128).as_str(),
                    ).as_str(),
                ),
            )
        };
        let record = DaemonCycleRecord {
            name: self.name(),
            restarted: true,
            skip_reason: None,
            claim_holders: Some(holders),
            verify_ok: Some(holders == 1),
            swap_ms: Some(self.swap_ms),
        };
        self.record(one_line(line), record)
    }

    fn written(&mut self, result: Result<String, RolloutError>) -> (r: CycleStep)
        ensures
            r.made(final(self)@) == old(self)@.written(text_result(result)),
    {
        match result {
            Ok(path) => {
                let lines = one_line(
                    Line::Out("rollout cycle: receipt → ".to_owned().concat(path.as_str())),
                );
                let (_, count) = counts(&self.records);
                let outcome = if count > 0 {
                    Err(RolloutError::CycleVerifyFailed { count })
                } else {
                    match &self.refusal {
                        Some(reason) => Err(RolloutError::ProveRefused { reason: reason.clone() }),
                        None => Ok(()),
                    }
                };
                self.go(CyclePhase::Done, lines, CycleAction::Finish(outcome))
            },
            Err(e) => self.go(CyclePhase::Done, no_lines(), CycleAction::Finish(Err(e))),
        }
    }

    /// Take the next step of the cycle.
    #[verifier::spinoff_prover]
    pub fn run_cycle(&mut self, event: CycleEvent) -> (r: CycleStep)
        ensures
            r.made(final(self)@) == old(self)@.step(event@),
    {
        proof {
            reveal(CycleView::step);
        }
        assert(self@.stale.len() == self.stale@.len());
        let in_range = self.at < self.stale.len();
        match (self.phase, event) {
            (CyclePhase::Start, CycleEvent::Go) => self.begin(),
            (CyclePhase::Prove, CycleEvent::Proved(result)) => self.proved(result),
            (CyclePhase::Scan, CycleEvent::Scanned(result)) => self.scanned(result),
            (CyclePhase::Ledger, CycleEvent::Loaded(result)) => {
                self.ledger = match result {
                    Ok(ledger) => ledger,
                    Err(_) => ProofLedger::default(),
                };
                self.go(CyclePhase::Select, no_lines(), CycleAction::Continue)
            },
            (CyclePhase::Select, CycleEvent::Go) => self.select(),
            (CyclePhase::Voice, CycleEvent::Voice(state)) => {
                if !in_range {
                    return self.ignored();
                }
                self.probed(state)
            },
            (CyclePhase::Gate, CycleEvent::Hash(hash)) => {
                if !in_range {
                    return self.ignored();
                }
                self.gated(hash)
            },
            (CyclePhase::Build, CycleEvent::Built(ran)) => {
                if !in_range {
                    return self.ignored();
                }
                self.built(ran)
            },
            (CyclePhase::Swap, CycleEvent::Swapped { result, start_ms, end_ms }) => {
                if !in_range {
                    return self.ignored();
                }
                self.swapped(result, end_ms.saturating_sub(start_ms))
            },
            (CyclePhase::Verify, CycleEvent::Counted(holders)) => {
                if !in_range {
                    return self.ignored();
                }
                self.verified(holders)
            },
            (CyclePhase::Receipt, CycleEvent::Written(result)) => self.written(result),
            _ => self.ignored(),
        }
    }
}

// ---------------------------------------------------------------------------
// Laws
// ---------------------------------------------------------------------------

/// The cycle after the given events.
pub open spec fn cycle_after(s: CycleView, events: Seq<CycleEventView>) -> CycleView
    decreases events.len(),
{
    if events.len() == 0 {
        s
    } else {
        cycle_after(s, events.drop_last()).step(events.last()).state
    }
}

/// What is to be done after the event with the number `k`.
pub open spec fn cycle_action(
    s: CycleView,
    events: Seq<CycleEventView>,
    k: int,
) -> CycleActionView {
    cycle_after(s, events.take(k)).step(events[k]).action
}

/// Whether the event with the number `i` says that the voice loop is idle, in answer to a
/// probe for the entry with the number `at`.
pub open spec fn heard_idle(s: CycleView, events: Seq<CycleEventView>, i: int, at: nat) -> bool {
    cycle_after(s, events.take(i)).phase == CyclePhase::Voice && cycle_after(s, events.take(i)).at
        == at && events[i] == CycleEventView::Voice(ActivityView::Idle)
}

/// Whether the event with the number `i` gives the hash of the installed binary of the entry
/// with the number `at`, in answer to the question for it.
pub open spec fn heard_hash(
    s: CycleView,
    events: Seq<CycleEventView>,
    i: int,
    at: nat,
    hash: Seq<char>,
) -> bool {
    cycle_after(s, events.take(i)).phase == CyclePhase::Gate && cycle_after(s, events.take(i)).at
        == at && events[i] == CycleEventView::Hash(Some(hash))
}

/// Whether the ledger allows the entry at hand with a binary of the given hash.
pub open spec fn allowed(s: CycleView, hash: Seq<char>) -> bool {
    gate_verdict(s.entry().comm, hash, s.ledger, default_gate()) is Allow
}

/// Whether an event says that the build command ran and succeeded.
pub open spec fn is_built(event: CycleEventView) -> bool {
    event matches CycleEventView::Built(CommandView::Exited { success, code }) && success
}

/// Whether the phase lies behind the ledger's permission for the daemon at hand.
pub open spec fn past_gate(phase: CyclePhase) -> bool {
    phase == CyclePhase::Build || phase == CyclePhase::Swap || phase == CyclePhase::Verify
}

/// Whether the phase is one in which a daemon is at hand.
pub open spec fn at_hand(phase: CyclePhase) -> bool {
    phase == CyclePhase::Voice || phase == CyclePhase::Gate || past_gate(phase)
}

/// Whether the phase lies before the daemons are taken up.
pub open spec fn preparing(phase: CyclePhase) -> bool {
    phase == CyclePhase::Start || phase == CyclePhase::Prove || phase == CyclePhase::Scan || phase
        == CyclePhase::Ledger
}

/// Whether a record is one that the cycle may make: in a dry run nothing is swapped or
/// verified; a swap that was verified left exactly one holder; and what was not swapped says
/// why.
pub open spec fn is_fair(live: bool, r: RecordView) -> bool {
    &&& !live ==> !r.restarted && r.verify_ok is None && r.swap_ms is None
    &&& r.verify_ok == Some(true) ==> r.restarted && r.claim_holders == Some(1nat)
    &&& !r.restarted <==> r.skip_reason is Some
    &&& r.restarted ==> r.verify_ok is Some && r.swap_ms is Some
}

proof fn lemma_cycle_step(s: CycleView, event: CycleEventView)
    ensures
        ({
            let next = s.step(event).state;
            let action = s.step(event).action;
            &&& next.fleet == s.fleet && next.live == s.live && next.timestamp == s.timestamp
            &&& next.stale == s.stale || s.phase == CyclePhase::Scan
            &&& next.ledger == s.ledger || s.phase == CyclePhase::Ledger
            &&& next.phase != s.phase ==> match next.phase {
                CyclePhase::Start => false,
                CyclePhase::Prove => s.phase == CyclePhase::Start,
                CyclePhase::Scan => s.phase == CyclePhase::Prove,
                CyclePhase::Ledger => s.phase == CyclePhase::Scan,
                CyclePhase::Select => s.phase == CyclePhase::Ledger || at_hand(s.phase),
                CyclePhase::Voice => s.phase == CyclePhase::Select && is_voice(s.entry().comm),
                CyclePhase::Gate => s.phase == CyclePhase::Select && !is_voice(s.entry().comm)
                    || s.phase == CyclePhase::Voice && event == CycleEventView::Voice(
                    ActivityView::Idle,
                ),
                CyclePhase::Build => s.phase == CyclePhase::Gate && s.live && (event matches
                    CycleEventView::Hash(hash) && (hash matches Some(h) && allowed(s, h))),
                CyclePhase::Swap => s.phase == CyclePhase::Build && is_built(event)
                    && action is Swap,
                CyclePhase::Verify => s.phase == CyclePhase::Swap,
                CyclePhase::Receipt => s.phase == CyclePhase::Select && s.at >= s.stale.len(),
                CyclePhase::Done => s.phase == CyclePhase::Receipt,
            }
            &&& (next.phase == CyclePhase::Voice || next.phase == CyclePhase::Gate) && s.phase
                == CyclePhase::Select ==> s.at < s.stale.len() && s.fleet.contains_key(
                s.entry().comm,
            ) && claim_path(s.fleet[s.entry().comm]) is Some
            &&& at_hand(next.phase) ==> next.at == s.at
            &&& next.at == s.at && next.records == s.records || next.at == s.at + 1 && s.at
                < s.stale.len() && next.phase == CyclePhase::Select && (s.phase
                == CyclePhase::Select || at_hand(s.phase)) && next.records == s.records.push(
                next.records.last(),
            ) && next.records.len() == s.records.len() + 1 && next.records.last().name
                == s.entry().comm && ((past_gate(s.phase) ==> s.live) ==> is_fair(
                s.live,
                next.records.last(),
            ))
            &&& action is Swap ==> s.phase == CyclePhase::Build && is_built(event)
                && s.fleet.contains_key(s.entry().comm) && action == (CycleActionView::Swap {
                recipe: s.fleet[s.entry().comm],
                claim_path: s.claim(),
                pid: s.entry().pid,
            })
            &&& action is Build ==> s.live
            &&& action is Prove ==> s.phase == CyclePhase::Start && action == (
            CycleActionView::Prove { dry_run: !s.live, all_or_nothing: true })
            &&& action is WriteReceipt ==> s.phase == CyclePhase::Select && s.at >= s.stale.len()
                && action == CycleActionView::WriteReceipt(s.receipt())
            &&& next.refusal == s.refusal || s.phase == CyclePhase::Prove && (next.refusal is Some
                ==> s.live && (event matches CycleEventView::Proved(r) && (r matches Err(e)
                && e is ProveRefused)))
            &&& (event matches CycleEventView::Written(w) && w is Ok) && s.phase
                == CyclePhase::Receipt ==> action == CycleActionView::Finish(s.result())
            &&& s.phase == CyclePhase::Done ==> action is Ignored && next == s
        }),
{
    reveal(CycleView::step);
}

/// What holds of a cycle that began with nothing done.
pub open spec fn cycle_holds(s: CycleView, events: Seq<CycleEventView>) -> bool {
    let now = cycle_after(s, events);
    let n = events.len() as int;
    &&& now.fleet == s.fleet && now.live == s.live && now.timestamp == s.timestamp
    &&& now.at == now.records.len()
    &&& preparing(now.phase) ==> now.at == 0
    &&& now.at <= now.stale.len() || preparing(now.phase)
    &&& forall|i: int|
        0 <= i < now.records.len() ==> (#[trigger] now.records[i]).name == now.stale[i].comm
            && is_fair(s.live, now.records[i])
    &&& at_hand(now.phase) ==> now.at < now.stale.len() && now.fleet.contains_key(now.entry().comm)
        && claim_path(now.fleet[now.entry().comm]) is Some
    &&& past_gate(now.phase) ==> now.live
    &&& past_gate(now.phase) ==> exists|i: int, hash: Seq<char>|
        0 <= i < n && #[trigger] heard_hash(s, events, i, now.at, hash) && allowed(now, hash)
    &&& (now.phase == CyclePhase::Gate || past_gate(now.phase)) && is_voice(now.entry().comm)
        ==> exists|i: int| 0 <= i < n && #[trigger] heard_idle(s, events, i, now.at)
    &&& now.refusal is Some ==> now.live
    &&& now.phase == CyclePhase::Receipt ==> now.at == now.stale.len()
}

proof fn lemma_cycle_trace(s: CycleView, events: Seq<CycleEventView>)
    requires
        s == cycle_begun(s.fleet, s.live, s.timestamp),
    ensures
        cycle_holds(s, events),
    decreases events.len(),
{
    if events.len() > 0 {
        let before = events.drop_last();
        let m = before.len() as int;
        let was = cycle_after(s, before);
        let now = cycle_after(s, events);
        lemma_cycle_trace(s, before);
        lemma_cycle_step(was, events.last());
        assert(events.take(m) =~= before);
        assert forall|i: int, at: nat| 0 <= i < m implies #[trigger] heard_idle(s, events, i, at)
            == heard_idle(s, before, i, at) by {
            assert(events.take(i) =~= before.take(i));
        }
        assert forall|i: int, at: nat, hash: Seq<char>| 0 <= i < m implies #[trigger] heard_hash(
            s,
            events,
            i,
            at,
            hash,
        ) == heard_hash(s, before, i, at, hash) by {
            assert(events.take(i) =~= before.take(i));
        }
        if past_gate(now.phase) {
            if was.phase == CyclePhase::Gate {
                let hash = events.last()->Hash_0->Some_0;
                assert(heard_hash(s, events, m, now.at, hash) && allowed(now, hash));
            } else {
                let (i, hash) = choose|i: int, hash: Seq<char>|
                    0 <= i < m && #[trigger] heard_hash(s, before, i, was.at, hash) && allowed(
                        was,
                        hash,
                    );
                assert(heard_hash(s, events, i, now.at, hash) && allowed(now, hash));
            }
        }
        if now.phase == CyclePhase::Gate || past_gate(now.phase) {
            if is_voice(now.entry().comm) {
                if was.phase == CyclePhase::Voice {
                    assert(heard_idle(s, events, m, now.at));
                } else {
                    let i = choose|i: int|
                        0 <= i < m && #[trigger] heard_idle(s, before, i, was.at);
                    assert(heard_idle(s, events, i, now.at));
                }
            }
        }
        assert forall|i: int| 0 <= i < now.records.len() implies (#[trigger] now.records[i]).name
            == now.stale[i].comm && is_fair(s.live, now.records[i]) by {
            if i < was.records.len() {
                assert(now.records[i] == was.records[i]);
            }
        }
    }
}

/// A daemon is swapped only in a live cycle, by its own recipe and on its own claim, and only
/// where the ledger allows it for the hash of its installed binary, which was asked for and
/// given before.
pub proof fn law_swap_needs_proof(
    fleet: Map<Seq<char>, RecipeView>,
    live: bool,
    time: Seq<char>,
    events: Seq<CycleEventView>,
    k: int,
)
    requires
        0 <= k < events.len(),
        cycle_action(cycle_begun(fleet, live, time), events, k) is Swap,
    ensures
        live,
        ({
            let s = cycle_begun(fleet, live, time);
            let now = cycle_after(s, events.take(k));
            &&& now.at < now.stale.len()
            &&& fleet.contains_key(now.entry().comm)
            &&& claim_path(fleet[now.entry().comm]) is Some
            &&& exists|i: int, hash: Seq<char>|
                0 <= i < k && #[trigger] heard_hash(s, events, i, now.at, hash) && gate_verdict(
                    now.entry().comm,
                    hash,
                    now.ledger,
                    default_gate(),
                ) is Allow
            &&& cycle_action(s, events, k) == (CycleActionView::Swap {
                recipe: fleet[now.entry().comm],
                claim_path: claim_path(fleet[now.entry().comm]).unwrap(),
                pid: now.entry().pid,
            })
        }),
{
    let s = cycle_begun(fleet, live, time);
    let before = events.take(k);
    let now = cycle_after(s, before);
    lemma_cycle_trace(s, before);
    lemma_cycle_step(now, events[k]);
    let (i, hash) = choose|i: int, hash: Seq<char>|
        0 <= i < before.len() && #[trigger] heard_hash(s, before, i, now.at, hash) && allowed(
            now,
            hash,
        );
    assert(before.take(i) =~= events.take(i));
    assert(heard_hash(s, events, i, now.at, hash));
}

/// The hash that is asked for is that of the binary that is installed for the entry at hand.
pub proof fn law_hash_of_installed_binary(s: CycleView, event: CycleEventView)
    ensures
        s.step(event).action matches CycleActionView::ReadHash { path } ==> s.step(event).state.phase
            == CyclePhase::Gate && s.step(event).state.at == s.at && path
            == s.entry().installed_path(),
{
    reveal(CycleView::step);
}

/// A daemon is swapped only when its build command has just succeeded. One whose build failed is
/// skipped.
pub proof fn law_build_before_swap(s: CycleView, event: CycleEventView)
    ensures
        s.step(event).action is Swap ==> s.phase == CyclePhase::Build && is_built(event),
        s.phase == CyclePhase::Build && s.at < s.stale.len() && s.fleet.contains_key(s.entry().comm)
            && event is Built && !is_built(event) ==> s.step(event).action is Continue && s.step(
            event,
        ).state.at == s.at + 1 && !s.step(event).state.records.last().restarted && s.step(
            event,
        ).state.records.last().skip_reason is Some,
{
    reveal(CycleView::step);
}

/// A voice daemon is swapped only after a probe that was made for it said that the voice loop
/// is idle.
pub proof fn law_voice_daemon_swapped_idle(
    fleet: Map<Seq<char>, RecipeView>,
    live: bool,
    time: Seq<char>,
    events: Seq<CycleEventView>,
    k: int,
)
    requires
        0 <= k < events.len(),
        cycle_action(cycle_begun(fleet, live, time), events, k) is Swap,
        is_voice(cycle_after(cycle_begun(fleet, live, time), events.take(k)).entry().comm),
    ensures
        ({
            let s = cycle_begun(fleet, live, time);
            exists|i: int|
                0 <= i < k && #[trigger] heard_idle(
                    s,
                    events,
                    i,
                    cycle_after(s, events.take(k)).at,
                )
        }),
{
    let s = cycle_begun(fleet, live, time);
    let before = events.take(k);
    let at = cycle_after(s, before).at;
    lemma_cycle_trace(s, before);
    lemma_cycle_step(cycle_after(s, before), events[k]);
    let i = choose|i: int| 0 <= i < before.len() && #[trigger] heard_idle(s, before, i, at);
    assert(before.take(i) =~= events.take(i));
    assert(heard_idle(s, events, i, at));
}

/// A cycle that is not live builds and swaps nothing and has its proofs made without a write.
pub proof fn law_dormant_cycle_touches_nothing(
    fleet: Map<Seq<char>, RecipeView>,
    time: Seq<char>,
    events: Seq<CycleEventView>,
    k: int,
)
    requires
        0 <= k < events.len(),
    ensures
        ({
            let action = cycle_action(cycle_begun(fleet, false, time), events, k);
            &&& !(action is Swap)
            &&& !(action is Build)
            &&& action matches CycleActionView::Prove { dry_run, all_or_nothing } ==> dry_run
        }),
{
    let s = cycle_begun(fleet, false, time);
    lemma_cycle_trace(s, events.take(k));
    lemma_cycle_step(cycle_after(s, events.take(k)), events[k]);
}

/// The receipt has exactly one record per stale daemon, in the order of the scan. Each record
/// is one that the cycle may make, and the counts and the outcome are those of the records.
pub proof fn law_receipt_is_complete(
    fleet: Map<Seq<char>, RecipeView>,
    live: bool,
    time: Seq<char>,
    events: Seq<CycleEventView>,
    k: int,
)
    requires
        0 <= k < events.len(),
        cycle_action(cycle_begun(fleet, live, time), events, k) is WriteReceipt,
    ensures
        ({
            let s = cycle_begun(fleet, live, time);
            let stale = cycle_after(s, events.take(k)).stale;
            let receipt = cycle_action(s, events, k)->WriteReceipt_0;
            &&& receipt.timestamp == time
            &&& receipt.dry_run == !live
            &&& receipt.daemons.len() == stale.len()
            &&& forall|i: int|
                0 <= i < stale.len() ==> (#[trigger] receipt.daemons[i]).name == stale[i].comm
                    && is_fair(live, receipt.daemons[i])
            &&& receipt.rolled_count == rolled(receipt.daemons)
            &&& receipt.verify_fail_count == unverified(receipt.daemons)
            &&& receipt.outcome == outcome_word(live, receipt.daemons)
        }),
{
    let s = cycle_begun(fleet, live, time);
    lemma_cycle_trace(s, events.take(k));
    lemma_cycle_step(cycle_after(s, events.take(k)), events[k]);
}

proof fn lemma_none_unverified(records: Seq<RecordView>)
    requires
        forall|i: int| 0 <= i < records.len() ==> (#[trigger] records[i]).verify_ok is None,
    ensures
        unverified(records) == 0,
    decreases records.len(),
{
    reveal(Seq::filter);
    if records.len() > 0 {
        let before = records.drop_last();
        assert forall|i: int| 0 <= i < before.len() implies (
        #[trigger] before[i]).verify_ok is None by {
            assert(before[i] == records[i]);
        }
        lemma_none_unverified(before);
        assert(records.last() == records[records.len() - 1]);
    }
}

/// A cycle that is not live ends well once its receipt is written. A live one then fails
/// exactly where a swap was not verified or its proving step was refused.
pub proof fn law_cycle_result(
    fleet: Map<Seq<char>, RecipeView>,
    live: bool,
    time: Seq<char>,
    events: Seq<CycleEventView>,
    path: Seq<char>,
)
    requires
        cycle_after(cycle_begun(fleet, live, time), events).phase == CyclePhase::Receipt,
    ensures
        ({
            let now = cycle_after(cycle_begun(fleet, live, time), events);
            let action = now.step(CycleEventView::Written(Ok(path))).action;
            &&& action is Finish
            &&& !live ==> action == CycleActionView::Finish(Ok(()))
            &&& live ==> (action->Finish_0 is Err <==> unverified(now.records) > 0
                || now.refusal is Some)
        }),
{
    let s = cycle_begun(fleet, live, time);
    let now = cycle_after(s, events);
    lemma_cycle_trace(s, events);
    lemma_cycle_step(now, CycleEventView::Written(Ok(path)));
    if !live {
        assert forall|i: int| 0 <= i < now.records.len() implies (
        #[trigger] now.records[i]).verify_ok is None by {
            assert(is_fair(live, now.records[i]));
        }
        lemma_none_unverified(now.records);
    }
}

proof fn lemma_proved_once(s: CycleView, events: Seq<CycleEventView>, i: int)
    requires
        0 <= i < events.len(),
        cycle_after(s, events.take(i)).phase == CyclePhase::Prove,
        events[i] is Proved,
    ensures
        ({
            let now = cycle_after(s, events);
            let then = cycle_after(s, events.take(i)).step(events[i]).state;
            now.phase != CyclePhase::Start && now.phase != CyclePhase::Prove && now.refusal
                == then.refusal
        }),
    decreases events.len(),
{
    let before = events.drop_last();
    lemma_cycle_step(cycle_after(s, before), events.last());
    if i == events.len() - 1 {
        assert(events.take(i) =~= before);
        reveal(CycleView::step);
    } else {
        assert(before.take(i) =~= events.take(i));
        lemma_proved_once(s, before, i);
    }
}

/// A cycle with a refused proof writes no ledger: the proving run that it asks for never writes
/// one if a proof that the run takes in shows a missed event.
pub proof fn law_refusal_writes_no_ledger(
    s: CycleView,
    event: CycleEventView,
    names: Seq<Seq<char>>,
    path: Seq<char>,
    bin: Seq<char>,
    proving: Seq<ProveEvent>,
    i: int,
    entry: ProofView,
    k: int,
)
    requires
        s.step(event).action is Prove,
        0 <= i < proving.len(),
        took_in(
            prove_begun(
                names,
                path,
                s.step(event).action->dry_run,
                s.step(event).action->all_or_nothing,
                bin,
            ),
            proving,
            i,
            entry,
        ),
        entry.events_missed_window > 0,
        0 <= k < proving.len(),
    ensures
        !(prove_action(
            prove_begun(
                names,
                path,
                s.step(event).action->dry_run,
                s.step(event).action->all_or_nothing,
                bin,
            ),
            proving,
            k,
        ) is SaveLedger),
{
    lemma_cycle_step(s, event);
    law_refusal_keeps_ledger(
        names,
        path,
        s.step(event).action->dry_run,
        bin,
        proving,
        i,
        entry,
        k,
    );
}

/// A refusal of the proving step in a live cycle is kept to the end; no other failure of that
/// step is.
pub proof fn law_refusal_is_kept(
    fleet: Map<Seq<char>, RecipeView>,
    live: bool,
    time: Seq<char>,
    events: Seq<CycleEventView>,
    i: int,
    e: RolloutErrorView,
)
    requires
        0 <= i < events.len(),
        cycle_after(cycle_begun(fleet, live, time), events.take(i)).phase == CyclePhase::Prove,
        events[i] == CycleEventView::Proved(Err(e)),
    ensures
        cycle_after(cycle_begun(fleet, live, time), events).refusal is Some <==> live
            && e is ProveRefused,
{
    let s = cycle_begun(fleet, live, time);
    lemma_proved_once(s, events, i);
    lemma_cycle_trace(s, events.take(i));
    reveal(CycleView::step);
}

/// Whether an event tells what came of an action.
pub open spec fn answers(action: CycleActionView, event: CycleEventView) -> bool {
    match action {
        CycleActionView::Continue => event is Go,
        CycleActionView::Prove { .. } => event is Proved,
        CycleActionView::Scan => event is Scanned,
        CycleActionView::LoadLedger => event is Loaded,
        CycleActionView::ProbeVoice => event is Voice,
        CycleActionView::ReadHash { .. } => event is Hash,
        CycleActionView::Build { .. } => event is Built,
        CycleActionView::Swap { .. } => event is Swapped,
        CycleActionView::CountHolders { .. } => event is Counted,
        CycleActionView::WriteReceipt(_) => event is Written,
        CycleActionView::Finish(_) => false,
        CycleActionView::Ignored => false,
    }
}

/// Whether an event is of the kind that a phase waits for.
spec fn takes(phase: CyclePhase, event: CycleEventView) -> bool {
    match phase {
        CyclePhase::Start => event is Go,
        CyclePhase::Prove => event is Proved,
        CyclePhase::Scan => event is Scanned,
        CyclePhase::Ledger => event is Loaded,
        CyclePhase::Select => event is Go,
        CyclePhase::Voice => event is Voice,
        CyclePhase::Gate => event is Hash,
        CyclePhase::Build => event is Built,
        CyclePhase::Swap => event is Swapped,
        CyclePhase::Verify => event is Counted,
        CyclePhase::Receipt => event is Written,
        CyclePhase::Done => false,
    }
}

proof fn lemma_answer_taken(s: CycleView, event: CycleEventView, answer: CycleEventView)
    requires
        answers(s.step(event).action, answer),
    ensures
        takes(s.step(event).state.phase, answer),
{
    reveal(CycleView::step);
}

proof fn lemma_taken(s: CycleView, event: CycleEventView)
    requires
        takes(s.phase, event),
        at_hand(s.phase) ==> s.at < s.stale.len() && s.fleet.contains_key(s.entry().comm),
    ensures
        !(s.step(event).action is Ignored),
{
    reveal(CycleView::step);
}

/// A cycle is never stuck: it begins when it is told to, and whatever came of an action moves
/// it on.
pub proof fn law_cycle_never_stuck(
    fleet: Map<Seq<char>, RecipeView>,
    live: bool,
    time: Seq<char>,
    events: Seq<CycleEventView>,
    answer: CycleEventView,
)
    ensures
        ({
            let s = cycle_begun(fleet, live, time);
            let now = cycle_after(s, events);
            &&& events.len() == 0 && answer is Go ==> !(now.step(answer).action is Ignored)
            &&& events.len() > 0 && answers(cycle_action(s, events, events.len() - 1), answer)
                ==> !(now.step(answer).action is Ignored)
        }),
{
    let s = cycle_begun(fleet, live, time);
    let now = cycle_after(s, events);
    lemma_cycle_trace(s, events);
    if events.len() == 0 && answer is Go {
        lemma_taken(now, answer);
    }
    if events.len() > 0 && answers(cycle_action(s, events, events.len() - 1), answer) {
        assert(events.drop_last() =~= events.take(events.len() - 1));
        lemma_answer_taken(cycle_after(s, events.drop_last()), events.last(), answer);
        lemma_taken(now, answer);
    }
}

/// A directory that is given goes before the default one, which lies under the home directory.
pub proof fn law_receipt_directory(given: Seq<char>, home: Option<Seq<char>>)
    ensures
        receipt_directory(Some(given), home) == Ok::<Seq<char>, RolloutErrorView>(given),
        home is None ==> receipt_directory(None, home) is Err,
        home matches Some(h) ==> (receipt_directory(None, home) matches Ok(p) && h.is_prefix_of(p)
            && ".local/state/rollout/receipts"@.is_suffix_of(p) && p.len() <= h.len() + 1
            + ".local/state/rollout/receipts"@.len()),
{
    let rel = ".local/state/rollout/receipts"@;
    reveal_strlit("/");
    reveal_strlit(".local/state/rollout/receipts");
    assert(rel[0] == '.');
    assert("/"@[0] == '/');
    if let Some(h) = home {
        law_path_under(h, rel);
        law_one_slash_between(h, rel);
    }
}

proof fn lemma_one_for_one(s: Seq<char>, a: char, b: char)
    ensures
        replaced(s, seq![a], seq![b]) == Seq::new(
            s.len(),
            |i: int|
                if s[i] == a {
                    b
                } else {
                    s[i]
                },
        ),
    decreases s.len(),
{
    let all = Seq::new(
        s.len(),
        |i: int|
            if s[i] == a {
                b
            } else {
                s[i]
            },
    );
    if s.len() == 0 {
        assert(replaced(s, seq![a], seq![b]) =~= all);
    } else {
        let t = s.skip(1);
        lemma_one_for_one(t, a, b);
        assert(s.take(1) =~= seq![s[0]]);
        if s[0] == a {
            assert(seq![a].is_prefix_of(s));
        } else {
            assert(seq![s[0]][0] != seq![a][0]);
            assert(!seq![a].is_prefix_of(s));
        }
        assert(replaced(s, seq![a], seq![b]) =~= all);
    }
}

/// The name of a receipt is that of its time between `cycle-` and `.json`, character by character,
/// with `-` in place of each `:`.
pub proof fn law_receipt_name(time: Seq<char>, i: int)
    requires
        0 <= i < time.len(),
    ensures
        ({
            let name = receipt_name(time);
            &&& "cycle-"@.is_prefix_of(name)
            &&& ".json"@.is_suffix_of(name)
            &&& name.len() == time.len() + 11
            &&& name[6 + i] == if time[i] == ':' {
                '-'
            } else {
                time[i]
            }
        }),
{
    reveal_strlit(":");
    reveal_strlit("-");
    reveal_strlit("cycle-");
    reveal_strlit(".json");
    assert(":"@ =~= seq![':']);
    assert("-"@ =~= seq!['-']);
    lemma_one_for_one(time, ':', '-');
    let name = receipt_name(time);
    assert(name.take(6) =~= "cycle-"@);
    assert(name.subrange(name.len() - 5, name.len() as int) =~= ".json"@);
}

/// The first line says whether the cycle is live, and otherwise what the switch was set to.
pub proof fn law_mode_is_told(auto_value: Seq<char>)
    ensures
        mode_text(true, auto_value) is Out && mentions(mode_text(true, auto_value)->Out_0, "LIVE"@),
        mode_text(false, auto_value) is Out && mentions(
            mode_text(false, auto_value)->Out_0,
            "DRY-RUN mode (ROLLOUT_AUTO_ENABLED="@ + auto_value + " "@,
        ),
{
    let live = mode_text(true, auto_value)->Out_0;
    reveal_strlit("rollout cycle: LIVE mode (ROLLOUT_AUTO_ENABLED=1)");
    reveal_strlit("LIVE");
    assert(live =~= live.take(15) + "LIVE"@ + live.skip(19));
    lemma_mentions(live, live.take(15), "LIVE"@, live.skip(19));
    let dry = mode_text(false, auto_value)->Out_0;
    let tail = " — set to 1 to enable live swaps)"@;
    reveal_strlit("rollout cycle: DRY-RUN mode (ROLLOUT_AUTO_ENABLED=");
    reveal_strlit("DRY-RUN mode (ROLLOUT_AUTO_ENABLED=");
    reveal_strlit(" — set to 1 to enable live swaps)");
    reveal_strlit(" ");
    let part = "DRY-RUN mode (ROLLOUT_AUTO_ENABLED="@ + auto_value + " "@;
    assert(dry =~= dry.take(15) + part + tail.skip(1));
    lemma_mentions(dry, dry.take(15), part, tail.skip(1));
}

/// A receipt counts record by record: a daemon that was swapped and verified is rolled, a swap that
/// was not verified is a failure, and anything else is neither.
pub proof fn law_counts(a: Seq<RecordView>, b: Seq<RecordView>, r: RecordView)
    ensures
        rolled(a + b) == rolled(a) + rolled(b),
        unverified(a + b) == unverified(a) + unverified(b),
        rolled(seq![r]) == if r.restarted && r.verify_ok == Some(true) {
            1nat
        } else {
            0nat
        },
        unverified(seq![r]) == if r.verify_ok == Some(false) {
            1nat
        } else {
            0nat
        },
{
    reveal_with_fuel(Seq::filter, 2);
    Seq::filter_distributes_over_add(
        a,
        b,
        |x: RecordView| x.restarted && x.verify_ok == Some(true),
    );
    Seq::filter_distributes_over_add(a, b, |x: RecordView| x.verify_ok == Some(false));
    assert(seq![r].drop_last() =~= Seq::<RecordView>::empty());
    assert(seq![r].last() == r);
}

/// The outcome is `dry-run` where the cycle was not live, else `partial` where a swap was not
/// verified, else `ok`.
pub proof fn law_outcome_word(live: bool, records: Seq<RecordView>)
    ensures
        outcome_word(live, records) == "dry-run"@ <==> !live,
        outcome_word(live, records) == "partial"@ <==> live && unverified(records) > 0,
        outcome_word(live, records) == "ok"@ <==> live && unverified(records) == 0,
{
    reveal_strlit("dry-run");
    reveal_strlit("partial");
    reveal_strlit("ok");
    assert("dry-run"@[0] != "partial"@[0]);
    assert("ok"@.len() != "partial"@.len());
    assert("ok"@.len() != "dry-run"@.len());
}

/// Every action of a cycle on a daemon is on the terms of that daemon, which is the stale entry that
/// the cycle has come to: the binary that is hashed is its installed one, it is built by the build
/// command of its recipe in the recipe's repository, and the holders that are counted after its swap
/// are those of the claim that its recipe gives it.
pub proof fn law_cycle_by_its_terms(
    fleet: Map<Seq<char>, RecipeView>,
    live: bool,
    time: Seq<char>,
    events: Seq<CycleEventView>,
    k: int,
)
    requires
        0 <= k < events.len(),
    ensures
        ({
            let s = cycle_begun(fleet, live, time);
            let now = cycle_after(s, events.take(k));
            let entry = now.stale[now.at as int];
            let recipe = fleet[entry.comm];
            let known = now.at < now.stale.len() && fleet.contains_key(entry.comm);
            match cycle_action(s, events, k) {
                CycleActionView::Prove { dry_run, all_or_nothing } => dry_run == !live
                    && all_or_nothing,
                CycleActionView::ProbeVoice => known && is_voice(entry.comm),
                CycleActionView::ReadHash { path } => known && path == entry.installed_path(),
                CycleActionView::Build { cmd, dir } => live && known && cmd == recipe.build_cmd
                    && dir == recipe.repo,
                CycleActionView::Swap { recipe: by, claim_path: claim, pid } => live && known && by
                    == recipe && claim_path(recipe) == Some(claim) && pid == entry.pid,
                CycleActionView::CountHolders { claim_path: claim } => live && known && claim_path(
                    recipe,
                ) == Some(claim),
                CycleActionView::WriteReceipt(receipt) => now.at == now.stale.len()
                    && receipt.daemons == now.records,
                _ => true,
            }
        }),
{
    let s = cycle_begun(fleet, live, time);
    lemma_cycle_trace(s, events.take(k));
    reveal(CycleView::step);
}

/// The claim whose holders are counted is the one that was swapped on: whatever daemon a cycle has
/// swapped well, the count that verifies it is of the claim in the swap itself.
pub proof fn law_verifies_what_was_swapped(
    s: CycleView,
    event: CycleEventView,
    prev_pid: u32,
    new_pid: Option<u32>,
    start_ms: nat,
    end_ms: nat,
)
    requires
        s.step(event).action is Swap,
    ensures
        ({
            let then = s.step(event).state.step(
                CycleEventView::Swapped {
                    result: SwapResultView::Success { prev_pid, new_pid },
                    start_ms,
                    end_ms,
                },
            );
            &&& then.action == (CycleActionView::CountHolders {
                claim_path: s.step(event).action->Swap_claim_path,
            })
            &&& start_ms <= end_ms ==> then.state.swap_ms == end_ms - start_ms
            &&& start_ms > end_ms ==> then.state.swap_ms == 0
        }),
{
    reveal(CycleView::step);
}

/// What is scanned and loaded is what the cycle works on: the stale daemons are those of the scan,
/// none where it failed, and the ledger is the one that was read, an empty one where it could not
/// be. Neither ends the cycle, nor does a failure to prove.
pub proof fn law_cycle_prepares(s: CycleView, event: CycleEventView, answer: CycleEventView)
    ensures
        ({
            let first = s.step(event);
            let then = first.state.step(answer);
            &&& s.phase == CyclePhase::Start && event is Go ==> first.action is Prove
            &&& first.action is Prove && answer is Proved ==> then.action is Scan
            &&& first.action is Scan ==> match answer {
                CycleEventView::Scanned(Ok(stale)) => then.action is LoadLedger && then.state.stale
                    == stale,
                CycleEventView::Scanned(Err(e)) => then.action is LoadLedger
                    && then.state.stale.len() == 0,
                _ => then.action is Ignored,
            }
            &&& first.action is LoadLedger ==> match answer {
                CycleEventView::Loaded(Ok(ledger)) => then.action is Continue && then.state.ledger
                    == ledger,
                CycleEventView::Loaded(Err(e)) => then.action is Continue && forall|k: Seq<char>|
                    !then.state.ledger.contains_key(k),
                _ => then.action is Ignored,
            }
        }),
{
    lemma_cycle_acts(s, event);
    lemma_preparing_answered(s.step(event).state, answer);
}

proof fn lemma_cycle_acts(s: CycleView, event: CycleEventView)
    ensures
        ({
            let next = s.step(event).state;
            let action = s.step(event).action;
            &&& s.phase == CyclePhase::Start && event is Go ==> action is Prove
            &&& action is Prove ==> next.phase == CyclePhase::Prove
            &&& action is Scan ==> next.phase == CyclePhase::Scan
            &&& action is LoadLedger ==> next.phase == CyclePhase::Ledger
            &&& action is ProbeVoice ==> next.phase == CyclePhase::Voice && next.at
                < next.stale.len()
            &&& action is ReadHash ==> next.phase == CyclePhase::Gate && next.at < next.stale.len()
            &&& action is Build ==> next.phase == CyclePhase::Build && next.at < next.stale.len()
                && next.fleet.contains_key(next.stale[next.at as int].comm)
            &&& action is Swap ==> next.phase == CyclePhase::Swap && next.at < next.stale.len()
            &&& action is CountHolders ==> next.phase == CyclePhase::Verify && next.at
                < next.stale.len()
            &&& action is WriteReceipt ==> next.phase == CyclePhase::Receipt
            &&& next.live == s.live && next.fleet == s.fleet
        }),
{
    reveal(CycleView::step);
}

proof fn lemma_preparing_answered(s: CycleView, answer: CycleEventView)
    ensures
        ({
            let then = s.step(answer);
            &&& s.phase == CyclePhase::Prove && answer is Proved ==> then.action is Scan
            &&& s.phase == CyclePhase::Scan ==> match answer {
                CycleEventView::Scanned(Ok(stale)) => then.action is LoadLedger && then.state.stale
                    == stale,
                CycleEventView::Scanned(Err(e)) => then.action is LoadLedger
                    && then.state.stale.len() == 0,
                _ => then.action is Ignored,
            }
            &&& s.phase == CyclePhase::Ledger ==> match answer {
                CycleEventView::Loaded(Ok(ledger)) => then.action is Continue && then.state.ledger
                    == ledger,
                CycleEventView::Loaded(Err(e)) => then.action is Continue && forall|k: Seq<char>|
                    !then.state.ledger.contains_key(k),
                _ => then.action is Ignored,
            }
        }),
{
    reveal(CycleView::step);
}

/// Whether a step has left the daemon at hand behind with one more record, which is of that daemon.
pub open spec fn recorded(s: CycleView, then: CycleMove) -> bool {
    &&& then.action is Continue
    &&& then.state.at == s.at + 1
    &&& then.state.records.len() == s.records.len() + 1
    &&& then.state.records == s.records.push(then.state.records.last())
    &&& then.state.records.last().name == s.stale[s.at as int].comm
}

/// Whether a step has left the daemon at hand behind untouched, for the given reason or one that ends
/// with it.
pub open spec fn passed_over(s: CycleView, then: CycleMove, why: Seq<char>) -> bool {
    let r = then.state.records.last();
    &&& recorded(s, then)
    &&& !r.restarted && r.claim_holders is None && r.verify_ok is None && r.swap_ms is None
    &&& r.skip_reason is Some && why.is_suffix_of(r.skip_reason->Some_0)
}

/// The model of what happens in a cycle keeps what was given, every number and every answer.
pub proof fn law_cycle_event_model(event: CycleEvent)
    ensures
        match event {
            CycleEvent::Go => event@ is Go,
            CycleEvent::Proved(Ok(_)) => event@ == CycleEventView::Proved(Ok(())),
            CycleEvent::Proved(Err(e)) => event@ == CycleEventView::Proved(Err(e@)),
            CycleEvent::Scanned(Ok(stale)) => event@ == CycleEventView::Scanned(
                Ok(entry_views(stale@)),
            ),
            CycleEvent::Scanned(Err(e)) => event@ == CycleEventView::Scanned(Err(e@)),
            CycleEvent::Loaded(Ok(ledger)) => event@ == CycleEventView::Loaded(Ok(ledger@)),
            CycleEvent::Loaded(Err(e)) => event@ == CycleEventView::Loaded(Err(e@)),
            CycleEvent::Voice(state) => event@ == CycleEventView::Voice(state@),
            CycleEvent::Hash(Some(hash)) => event@ == CycleEventView::Hash(Some(hash@)),
            CycleEvent::Hash(None) => event@ == CycleEventView::Hash(None),
            CycleEvent::Built(ran) => event@ == CycleEventView::Built(ran@),
            CycleEvent::Swapped { result, start_ms, end_ms } => event@ == (
            CycleEventView::Swapped {
                result: result@,
                start_ms: start_ms as nat,
                end_ms: end_ms as nat,
            }),
            CycleEvent::Counted(Some(n)) => event@ == CycleEventView::Counted(Some(n as nat)),
            CycleEvent::Counted(None) => event@ == CycleEventView::Counted(None),
            CycleEvent::Written(Ok(path)) => event@ == CycleEventView::Written(Ok(path@)),
            CycleEvent::Written(Err(e)) => event@ == CycleEventView::Written(Err(e@)),
        },
{
}

/// The models of a record and of a receipt keep each of their fields.
pub proof fn law_receipt_model(r: DaemonCycleRecord, receipt: CycleReceipt)
    ensures
        r@.name == r.name@ && r@.restarted == r.restarted && r@.verify_ok == r.verify_ok,
        r@.skip_reason is Some <==> r.skip_reason is Some,
        r.skip_reason matches Some(why) ==> r@.skip_reason == Some(why@),
        r@.claim_holders is Some <==> r.claim_holders is Some,
        r.claim_holders matches Some(n) ==> r@.claim_holders == Some(n as nat),
        r@.swap_ms is Some <==> r.swap_ms is Some,
        r.swap_ms matches Some(ms) ==> r@.swap_ms == Some(ms as nat),
        receipt@.timestamp == receipt.timestamp@ && receipt@.dry_run == receipt.dry_run
            && receipt@.rolled_count == receipt.rolled_count && receipt@.verify_fail_count
            == receipt.verify_fail_count && receipt@.outcome == receipt.outcome@,
        receipt@.daemons.len() == receipt.daemons@.len(),
        forall|i: int|
            0 <= i < receipt.daemons@.len() ==> #[trigger] receipt@.daemons[i]
                == receipt.daemons@[i]@,
{
}

/// A live cycle that passes a daemon over because of the ledger says why the ledger refuses it. A
/// failure to prove or to scan is told with its error.
pub proof fn law_cycle_says_why(s: CycleView, event: CycleEventView)
    ensures
        ({
            let then = s.step(event);
            let entry = s.stale[s.at as int];
            &&& event matches CycleEventView::Hash(hash) ==> (s.phase == CyclePhase::Gate && s.at
                < s.stale.len() && s.live ==> (installed_verdict(
                entry.comm,
                entry.installed_path(),
                hash,
                s.ledger,
            ) matches VerdictView::Refuse { reason } ==> passed_over(s, then, reason)
                && then.lines.len() == 1 && then.lines[0] is Out && reason.is_suffix_of(
                then.lines[0]->Out_0,
            )))
            &&& event matches CycleEventView::Proved(Err(e)) ==> (s.phase == CyclePhase::Prove
                ==> then.lines.len() >= 1 && then.lines[0] is Warn && error_text(e).is_suffix_of(
                then.lines[0]->Warn_0,
            ))
            &&& event matches CycleEventView::Scanned(Err(e)) ==> (s.phase == CyclePhase::Scan
                ==> then.lines.len() == 1 && then.lines[0] is Warn && mentions(
                then.lines[0]->Warn_0,
                error_text(e),
            ))
        }),
{
    reveal(CycleView::step);
    let then = s.step(event);
    let entry = s.stale[s.at as int];
    match event {
        CycleEventView::Hash(hash) => {
            if let VerdictView::Refuse { reason } = installed_verdict(
                entry.comm,
                entry.installed_path(),
                hash,
                s.ledger,
            ) {
                let t = "gate Refuse: "@ + reason;
                assert(t.subrange(t.len() - reason.len(), t.len() as int) =~= reason);
                let u = "rollout cycle: "@ + entry.comm + (" skipped — gate Refuse: "@ + reason);
                assert(u.subrange(u.len() - reason.len(), u.len() as int) =~= reason);
            }
        },
        CycleEventView::Proved(Err(e)) => {
            let why = error_text(e);
            let t = "rollout cycle: prove step warning: "@ + why;
            assert(t.subrange(t.len() - why.len(), t.len() as int) =~= why);
            if s.phase == CyclePhase::Prove {
                assert(then.lines[0] == LineView::Warn(t));
            }
        },
        CycleEventView::Scanned(Err(e)) => {
            let head = "rollout cycle: binstale scan failed: "@;
            let tail = "; treating as empty"@;
            lemma_mentions(head + error_text(e) + tail, head, error_text(e), tail);
        },
        _ => {},
    }
}

/// How a stale daemon is taken up. One without a recipe or without a claim is passed over; a voice
/// daemon is probed for, any other has its binary hashed at once. When all were taken up the receipt
/// is written.
pub proof fn law_cycle_takes_up(s: CycleView)
    requires
        s.phase == CyclePhase::Select,
    ensures
        ({
            let then = s.step(CycleEventView::Go);
            let entry = s.stale[s.at as int];
            if s.at >= s.stale.len() {
                then.action is WriteReceipt
            } else if !s.fleet.contains_key(entry.comm) {
                passed_over(s, then, "recipe"@)
            } else if claim_path(s.fleet[entry.comm]) is None {
                passed_over(s, then, ""@) && mentions(
                    then.state.records.last().skip_reason->Some_0,
                    "claim"@,
                )
            } else if is_voice(entry.comm) {
                then.action is ProbeVoice
            } else {
                then.action is ReadHash
            }
        }),
{
    reveal(CycleView::step);
    reveal_strlit("no fleet.toml recipe");
    reveal_strlit("recipe");
    reveal_strlit("");
    reveal_strlit("no claim path (warm-swap only)");
    reveal_strlit("claim");
    let a = "no fleet.toml recipe"@;
    assert(a.subrange(a.len() - 6, a.len() as int) =~= "recipe"@);
    let b = "no claim path (warm-swap only)"@;
    assert(b.subrange(b.len() as int, b.len() as int) =~= ""@);
    assert(b =~= b.take(3) + "claim"@ + b.skip(8));
    lemma_mentions(b, b.take(3), "claim"@, b.skip(8));
}

/// What a probe, the ledger and the build decide of the daemon at hand. Only an idle voice loop lets
/// it go on to the hash; only a live cycle whose ledger allows the hash builds it; and only a build
/// that succeeded swaps it. In every other case it is passed over, with the reason.
pub proof fn law_cycle_decides(s: CycleView, event: CycleEventView, answer: CycleEventView)
    ensures
        ({
            let first = s.step(event);
            let at = first.state;
            let then = at.step(answer);
            let entry = at.stale[at.at as int];
            &&& first.action is ProbeVoice ==> match answer {
                CycleEventView::Voice(ActivityView::Idle) => then.action is ReadHash,
                CycleEventView::Voice(ActivityView::InFlight { reason }) => passed_over(
                    at,
                    then,
                    reason,
                ),
                CycleEventView::Voice(ActivityView::BusUnreachable) => passed_over(
                    at,
                    then,
                    "unreachable"@,
                ),
                _ => then.action is Ignored,
            }
            &&& first.action is ReadHash ==> match answer {
                CycleEventView::Hash(hash) => {
                    let allows = hash is Some && at.ledger.contains_key(entry.comm)
                        && at.ledger[entry.comm].binary_hash == hash->Some_0
                        && at.ledger[entry.comm].events_missed_window == 0;
                    if at.live && allows {
                        at.fleet.contains_key(entry.comm) ==> then.action is Build
                    } else {
                        passed_over(at, then, ""@) && (!at.live ==> mentions(
                            then.state.records.last().skip_reason->Some_0,
                            if allows {
                                "would warm-swap"@
                            } else {
                                "would skip"@
                            },
                        ))
                    }
                },
                _ => then.action is Ignored,
            }
            &&& first.action is Build && answer is Built ==> if is_built(answer) {
                then.action is Swap
            } else {
                passed_over(at, then, ""@) && mentions(
                    then.state.records.last().skip_reason->Some_0,
                    "`"@ + entry.comm + "`"@,
                )
            }
        }),
{
    lemma_cycle_acts(s, event);
    let first = s.step(event);
    if first.action is ProbeVoice {
        lemma_probe_decides(first.state, answer);
    }
    if first.action is ReadHash {
        lemma_ledger_decides(first.state, answer);
    }
    if first.action is Build {
        lemma_build_decides(first.state, answer);
    }
}

proof fn lemma_no_end(t: Seq<char>)
    ensures
        ""@.is_suffix_of(t),
{
    reveal_strlit("");
    assert(t.subrange(t.len() as int, t.len() as int) =~= ""@);
}

proof fn lemma_probe_decides(s: CycleView, answer: CycleEventView)
    requires
        s.phase == CyclePhase::Voice ==> s.at < s.stale.len(),
    ensures
        ({
            let then = s.step(answer);
            s.phase == CyclePhase::Voice ==> match answer {
                CycleEventView::Voice(ActivityView::Idle) => then.action is ReadHash,
                CycleEventView::Voice(ActivityView::InFlight { reason }) => passed_over(
                    s,
                    then,
                    reason,
                ),
                CycleEventView::Voice(ActivityView::BusUnreachable) => passed_over(
                    s,
                    then,
                    "unreachable"@,
                ),
                _ => then.action is Ignored,
            }
        }),
{
    reveal(CycleView::step);
    if let CycleEventView::Voice(ActivityView::InFlight { reason }) = answer {
        let t = "voice active: "@ + reason;
        assert(t.subrange(t.len() - reason.len(), t.len() as int) =~= reason);
    }
    reveal_strlit("agorabus unreachable");
    reveal_strlit("unreachable");
    let u = "agorabus unreachable"@;
    assert(u.subrange(u.len() - 11, u.len() as int) =~= "unreachable"@);
}

proof fn lemma_ledger_decides(s: CycleView, answer: CycleEventView)
    requires
        s.phase == CyclePhase::Gate ==> s.at < s.stale.len(),
    ensures
        ({
            let then = s.step(answer);
            let entry = s.stale[s.at as int];
            s.phase == CyclePhase::Gate ==> match answer {
                CycleEventView::Hash(hash) => {
                    let allows = hash is Some && s.ledger.contains_key(entry.comm)
                        && s.ledger[entry.comm].binary_hash == hash->Some_0
                        && s.ledger[entry.comm].events_missed_window == 0;
                    if s.live && allows {
                        s.fleet.contains_key(entry.comm) ==> then.action is Build
                    } else {
                        passed_over(s, then, ""@) && (!s.live ==> mentions(
                            then.state.records.last().skip_reason->Some_0,
                            if allows {
                                "would warm-swap"@
                            } else {
                                "would skip"@
                            },
                        ))
                    }
                },
                _ => then.action is Ignored,
            }
        }),
{
    reveal(CycleView::step);
    if let CycleEventView::Hash(hash) = answer {
        let entry = s.stale[s.at as int];
        law_unattended_gate(entry.comm, entry.installed_path(), hash, s.ledger);
        let then = s.step(answer);
        if s.phase == CyclePhase::Gate && then.action is Continue {
            lemma_no_end(then.state.records.last().skip_reason->Some_0);
        }
        let a = "would warm-swap"@;
        let b = "would skip (gate Refuse)"@;
        reveal_strlit("would skip (gate Refuse)");
        reveal_strlit("would skip");
        let ta = "dry-run ("@ + a + ")"@;
        lemma_mentions(ta, "dry-run ("@, a, ")"@);
        let tb = "dry-run ("@ + b + ")"@;
        assert(tb =~= "dry-run ("@ + "would skip"@ + (b.skip(10) + ")"@));
        lemma_mentions(tb, "dry-run ("@, "would skip"@, b.skip(10) + ")"@);
    }
}

proof fn lemma_build_decides(s: CycleView, answer: CycleEventView)
    requires
        s.phase == CyclePhase::Build ==> s.at < s.stale.len() && s.fleet.contains_key(
            s.stale[s.at as int].comm,
        ),
    ensures
        ({
            let then = s.step(answer);
            let entry = s.stale[s.at as int];
            s.phase == CyclePhase::Build && answer is Built ==> if is_built(answer) {
                then.action is Swap
            } else {
                passed_over(s, then, ""@) && mentions(
                    then.state.records.last().skip_reason->Some_0,
                    "`"@ + entry.comm + "`"@,
                )
            }
        }),
{
    reveal(CycleView::step);
    if let CycleEventView::Built(ran) = answer {
        let entry = s.stale[s.at as int];
        law_step_command(entry.comm, "build"@, ran);
        if let Err(e) = recipe_cmd_result(entry.comm, "build"@, ran) {
            law_error_text(e);
            lemma_no_end(error_text(e));
        }
    }
}

/// What is recorded of a swap. One after which the claim is held by exactly one process is verified,
/// one with any other count is not, and no answer counts as no holder; a split state is recorded with
/// its holders, and a failed swap with its error. Each is recorded with the time that it took.
pub proof fn law_swap_is_recorded(s: CycleView, event: CycleEventView, answer: CycleEventView)
    ensures
        ({
            let first = s.step(event);
            let at = first.state;
            let then = at.step(answer);
            let r = then.state.records.last();
            &&& first.action is Swap ==> match answer {
                CycleEventView::Swapped { result, start_ms, end_ms } => {
                    let ms = if end_ms >= start_ms {
                        (end_ms - start_ms) as nat
                    } else {
                        0
                    };
                    match result {
                        SwapResultView::Success { prev_pid, new_pid } => then.action is CountHolders
                            && then.state.swap_ms == ms,
                        SwapResultView::SplitState { holders } => recorded(at, then) && r.restarted
                            && r.skip_reason is None && r.claim_holders == Some(holders)
                            && r.verify_ok == Some(false) && r.swap_ms == Some(ms),
                        SwapResultView::Failed(e) => recorded(at, then) && !r.restarted
                            && r.claim_holders is None && r.verify_ok == Some(false) && r.swap_ms
                            == Some(ms) && r.skip_reason is Some && error_text(e).is_suffix_of(
                            r.skip_reason->Some_0,
                        ),
                    }
                },
                _ => then.action is Ignored,
            }
            &&& first.action is CountHolders ==> match answer {
                CycleEventView::Counted(holders) => {
                    let n = if holders is Some {
                        holders->Some_0
                    } else {
                        0
                    };
                    recorded(at, then) && r.restarted && r.skip_reason is None && r.claim_holders
                        == Some(n) && r.verify_ok == Some(n == 1) && r.swap_ms == Some(at.swap_ms)
                },
                _ => then.action is Ignored,
            }
        }),
{
    lemma_cycle_acts(s, event);
    if s.step(event).action is Swap || s.step(event).action is CountHolders {
        lemma_swap_recorded(s.step(event).state, answer);
    }
}

proof fn lemma_swap_recorded(s: CycleView, answer: CycleEventView)
    requires
        s.phase == CyclePhase::Swap || s.phase == CyclePhase::Verify ==> s.at < s.stale.len(),
    ensures
        ({
            let then = s.step(answer);
            let r = then.state.records.last();
            &&& s.phase == CyclePhase::Swap ==> match answer {
                CycleEventView::Swapped { result, start_ms, end_ms } => {
                    let ms = if end_ms >= start_ms {
                        (end_ms - start_ms) as nat
                    } else {
                        0
                    };
                    match result {
                        SwapResultView::Success { prev_pid, new_pid } => then.action is CountHolders
                            && then.state.swap_ms == ms,
                        SwapResultView::SplitState { holders } => recorded(s, then) && r.restarted
                            && r.skip_reason is None && r.claim_holders == Some(holders)
                            && r.verify_ok == Some(false) && r.swap_ms == Some(ms),
                        SwapResultView::Failed(e) => recorded(s, then) && !r.restarted
                            && r.claim_holders is None && r.verify_ok == Some(false) && r.swap_ms
                            == Some(ms) && r.skip_reason is Some && error_text(e).is_suffix_of(
                            r.skip_reason->Some_0,
                        ),
                    }
                },
                _ => then.action is Ignored,
            }
            &&& s.phase == CyclePhase::Verify ==> match answer {
                CycleEventView::Counted(holders) => {
                    let n = if holders is Some {
                        holders->Some_0
                    } else {
                        0
                    };
                    recorded(s, then) && r.restarted && r.skip_reason is None && r.claim_holders
                        == Some(n) && r.verify_ok == Some(n == 1) && r.swap_ms == Some(s.swap_ms)
                },
                _ => then.action is Ignored,
            }
        }),
{
    reveal(CycleView::step);
    if let CycleEventView::Swapped { result, start_ms, end_ms } = answer {
        if let SwapResultView::Failed(e) = result {
            let t = "swap failed: "@ + error_text(e);
            let tail = error_text(e);
            assert(t.subrange(t.len() - tail.len(), t.len() as int) =~= tail);
        }
    }
}

/// How a cycle ends. A receipt that cannot be written ends it with that error. Otherwise it fails
/// with the number of swaps that were not verified, where there is one; else with the reason of the
/// refused proof, where there is one; and else it ends well.
pub proof fn law_cycle_ends(s: CycleView, written: Result<Seq<char>, RolloutErrorView>)
    requires
        s.phase == CyclePhase::Receipt,
    ensures
        ({
            let then = s.step(CycleEventView::Written(written));
            &&& then.state.phase == CyclePhase::Done
            &&& then.action == CycleActionView::Finish(
                match written {
                    Err(e) => Err(e),
                    Ok(path) => if unverified(s.records) > 0 {
                        Err(RolloutErrorView::CycleVerifyFailed { count: unverified(s.records) })
                    } else {
                        match s.refusal {
                            Some(reason) => Err(RolloutErrorView::ProveRefused { reason }),
                            None => Ok(()),
                        }
                    },
                },
            )
            &&& written matches Ok(path) ==> then.lines.len() == 1 && then.lines[0] is Out
                && path.is_suffix_of(then.lines[0]->Out_0)
        }),
{
    reveal(CycleView::step);
    if let Ok(path) = written {
        let t = "rollout cycle: receipt → "@ + path;
        assert(t.subrange(t.len() - path.len(), t.len() as int) =~= path);
    }
}

/// The reason of a refusal in a live cycle is kept as it was given.
pub proof fn law_refusal_reason_is_kept(
    fleet: Map<Seq<char>, RecipeView>,
    time: Seq<char>,
    events: Seq<CycleEventView>,
    i: int,
    reason: Seq<char>,
)
    requires
        0 <= i < events.len(),
        cycle_after(cycle_begun(fleet, true, time), events.take(i)).phase == CyclePhase::Prove,
        events[i] == CycleEventView::Proved(Err(RolloutErrorView::ProveRefused { reason })),
    ensures
        cycle_after(cycle_begun(fleet, true, time), events).refusal == Some(reason),
{
    let s = cycle_begun(fleet, true, time);
    lemma_proved_once(s, events, i);
    lemma_cycle_trace(s, events.take(i));
    reveal(CycleView::step);
}

/// When all daemons were taken up the cycle tells its outcome and its counts.
pub proof fn law_outcome_is_told(s: CycleView)
    requires
        s.phase == CyclePhase::Select,
        s.at >= s.stale.len(),
    ensures
        ({
            let then = s.step(CycleEventView::Go);
            let word = outcome_word(s.live, s.records);
            &&& then.lines.len() == 1 && then.lines[0] is Out
            &&& mentions(then.lines[0]->Out_0, "outcome="@ + word + " "@)
            &&& mentions(then.lines[0]->Out_0, "rolled="@ + dec(rolled(s.records)) + " "@)
            &&& ("verify_fail="@ + dec(unverified(s.records))).is_suffix_of(then.lines[0]->Out_0)
        }),
{
    reveal(CycleView::step);
    let then = s.step(CycleEventView::Go);
    lemma_outcome_text(
        outcome_word(s.live, s.records),
        dec(rolled(s.records)),
        dec(unverified(s.records)),
    );
}

proof fn lemma_outcome_text(word: Seq<char>, a: Seq<char>, b: Seq<char>)
    ensures
        ({
            let t = "rollout cycle [3/3]: outcome="@ + word + " rolled="@ + a + " verify_fail="@ + b;
            &&& mentions(t, "outcome="@ + word + " "@)
            &&& mentions(t, "rolled="@ + a + " "@)
            &&& ("verify_fail="@ + b).is_suffix_of(t)
        }),
{
    let t = "rollout cycle [3/3]: outcome="@ + word + " rolled="@ + a + " verify_fail="@ + b;
    reveal_strlit("rollout cycle [3/3]: outcome=");
    reveal_strlit("outcome=");
    reveal_strlit(" rolled=");
    reveal_strlit("rolled=");
    reveal_strlit(" verify_fail=");
    reveal_strlit("verify_fail=");
    reveal_strlit(" ");
    let head = "rollout cycle [3/3]: outcome="@;
    let first = "outcome="@ + word + " "@;
    let after = "rolled="@ + a + " verify_fail="@ + b;
    assert(t =~= head.take(21) + first + after);
    lemma_mentions(t, head.take(21), first, after);
    let second = "rolled="@ + a + " "@;
    assert(t =~= (head + word + " "@) + second + ("verify_fail="@ + b));
    lemma_mentions(t, head + word + " "@, second, "verify_fail="@ + b);
    let last = "verify_fail="@ + b;
    assert(t.subrange(t.len() - last.len(), t.len() as int) =~= last);
}

/// A swap that went well is told with the daemon's name and the time that it took.
pub proof fn law_swap_is_told(s: CycleView, event: CycleEventView)
    requires
        s.step(event).action is CountHolders,
    ensures
        ({
            let then = s.step(event);
            &&& then.lines.len() == 1 && then.lines[0] is Out
            &&& mentions(then.lines[0]->Out_0, s.stale[s.at as int].comm + " warm-swap ok"@)
            &&& mentions(then.lines[0]->Out_0, "("@ + dec(then.state.swap_ms) + "ms)"@)
        }),
{
    reveal(CycleView::step);
    let then = s.step(event);
    let name = s.stale[s.at as int].comm;
    let t = then.lines[0]->Out_0;
    let ms = dec(then.state.swap_ms);
    reveal_strlit(" warm-swap ok (");
    reveal_strlit(" warm-swap ok");
    reveal_strlit("(");
    let mid = " warm-swap ok ("@;
    let ok = name + " warm-swap ok"@;
    assert(t =~= "rollout cycle: "@ + ok + (mid.skip(13) + ms + "ms)"@));
    lemma_mentions(t, "rollout cycle: "@, ok, mid.skip(13) + ms + "ms)"@);
    let part = "("@ + ms + "ms)"@;
    let before = "rollout cycle: "@ + name + mid.drop_last();
    assert(t =~= before + part + seq![]);
    lemma_mentions(t, before, part, seq![]);
}

/// A verification is told with the daemon's name: as done where there was exactly one holder, and
/// otherwise as a warning with the number of holders.
pub proof fn law_verification_is_told(s: CycleView, answer: Option<nat>)
    requires
        s.phase == CyclePhase::Verify,
        s.at < s.stale.len(),
    ensures
        ({
            let then = s.step(CycleEventView::Counted(answer));
            let name = s.stale[s.at as int].comm;
            let holders = if answer is Some {
                answer->Some_0
            } else {
                0
            };
            &&& then.lines.len() == 1
            &&& holders == 1 ==> then.lines[0] is Out && mentions(
                then.lines[0]->Out_0,
                name + " verify ok"@,
            )
            &&& holders != 1 ==> then.lines[0] is Warn && mentions(
                then.lines[0]->Warn_0,
                name + " verify FAIL"@,
            ) && dec(holders).is_suffix_of(then.lines[0]->Warn_0)
        }),
{
    reveal(CycleView::step);
    let then = s.step(CycleEventView::Counted(answer));
    let name = s.stale[s.at as int].comm;
    let holders = if answer is Some {
        answer->Some_0
    } else {
        0
    };
    if holders == 1 {
        let t = then.lines[0]->Out_0;
        reveal_strlit(" verify ok (1 claim holder)");
        reveal_strlit(" verify ok");
        let text = " verify ok (1 claim holder)"@;
        let part = name + " verify ok"@;
        assert(t =~= "rollout cycle: "@ + part + text.skip(10));
        lemma_mentions(t, "rollout cycle: "@, part, text.skip(10));
    } else {
        let t = then.lines[0]->Warn_0;
        reveal_strlit(" verify FAIL — expected 1 claim holder, got ");
        reveal_strlit(" verify FAIL");
        let text = " verify FAIL — expected 1 claim holder, got "@;
        let part = name + " verify FAIL"@;
        let after = text.skip(12) + dec(holders);
        assert(t =~= "rollout cycle: "@ + part + after);
        lemma_mentions(t, "rollout cycle: "@, part, after);
        assert(t.subrange(t.len() - dec(holders).len(), t.len() as int) =~= dec(holders));
    }
}

/// What a cycle that is not live tells of a daemon that it has come to: that it would swap it and
/// would then verify one holder of its claim, or that it would skip it and verify nothing.
pub proof fn law_dormant_cycle_tells(s: CycleView, hash: Option<Seq<char>>)
    requires
        s.phase == CyclePhase::Gate,
        s.at < s.stale.len(),
        !s.live,
        s.fleet.contains_key(s.stale[s.at as int].comm),
        claim_path(s.fleet[s.stale[s.at as int].comm]) is Some,
    ensures
        ({
            let then = s.step(CycleEventView::Hash(hash));
            let name = s.stale[s.at as int].comm;
            let claim = claim_path(s.fleet[name])->Some_0;
            let allows = hash is Some && s.ledger.contains_key(name) && s.ledger[name].binary_hash
                == hash->Some_0 && s.ledger[name].events_missed_window == 0;
            &&& then.lines.len() == 2 && then.lines[0] is Out && then.lines[1] is Out
            &&& mentions(then.lines[0]->Out_0, name) && mentions(then.lines[1]->Out_0, name)
            &&& allows ==> "would warm-swap"@.is_suffix_of(then.lines[0]->Out_0) && (
            "would verify 1 claim holder on '"@ + claim + "'"@).is_suffix_of(then.lines[1]->Out_0)
            &&& !allows ==> "would skip (gate Refuse)"@.is_suffix_of(then.lines[0]->Out_0)
                && "would verify nothing"@.is_suffix_of(then.lines[1]->Out_0)
        }),
{
    reveal(CycleView::step);
    let then = s.step(CycleEventView::Hash(hash));
    let entry = s.stale[s.at as int];
    let name = entry.comm;
    law_unattended_gate(name, entry.installed_path(), hash, s.ledger);
    let allows = installed_verdict(name, entry.installed_path(), hash, s.ledger) is Allow;
    let a = if allows {
        "would warm-swap"@
    } else {
        "would skip (gate Refuse)"@
    };
    let b = s.would_verify(allows);
    let head = "rollout cycle [dry-run]: "@;
    let prefix = head + name + " — "@;
    let t = prefix + a;
    let u = prefix + b;
    assert(then.lines[0] == LineView::Out(t));
    assert(then.lines[1] == LineView::Out(u));
    assert(t =~= head + name + (" — "@ + a));
    assert(u =~= head + name + (" — "@ + b));
    lemma_mentions(t, head, name, " — "@ + a);
    lemma_mentions(u, head, name, " — "@ + b);
    assert(t.subrange(t.len() - a.len(), t.len() as int) =~= a);
    assert(u.subrange(u.len() - b.len(), u.len() as int) =~= b);
}

} // verus!
