//! Proving daemons: probing each one and recording what the probe measured.

use crate::autogate::{
    default_gate, gate, gate_verdict, ledger_loaded, ledger_saved, GateConfig, GateVerdict,
    LedgerRead, LedgerWrite, ProofEntry, ProofLedger, ProofView, VerdictView,
};
use crate::error::{RolloutError, RolloutErrorView};
use crate::fleet::{outcome, FleetConfig};
use crate::output::{lemma_lines_push, line_views, no_lines, one_line, Line, LineView};
use crate::text::{
    dec, dec_int, decimal, decimal_i32, law_minus_sign, lemma_mentions, lemma_texts_push, mentions,
    opt_text, same, texts,
};
use vstd::prelude::*;

verus! {

// ---------------------------------------------------------------------------
// Verdicts
// ---------------------------------------------------------------------------

/// What the swap gate of an unattended run would say of the daemon on this proof alone.
pub open spec fn proof_verdict(entry: ProofView) -> VerdictView {
    gate_verdict(
        entry.daemon,
        entry.binary_hash,
        Map::empty().insert(entry.daemon, entry),
        default_gate(),
    )
}

/// What the swap gate of an unattended run would say of the daemon on this proof alone.
pub fn compute_verdict(entry: &ProofEntry) -> (r: GateVerdict)
    ensures
        r@ == proof_verdict(entry@),
{
    let mut ledger = ProofLedger::default();
    ledger.upsert(entry.clone());
    gate(
        entry.daemon.as_str(),
        entry.binary_hash.as_str(),
        &ledger,
        &GateConfig::default(),
    )
}

/// The word for a verdict.
pub open spec fn verdict_word(v: VerdictView) -> Seq<char> {
    match v {
        VerdictView::Allow => "Allow"@,
        VerdictView::Refuse { reason } => "Refuse"@,
    }
}

/// The word for a verdict.
pub fn format_verdict(v: &GateVerdict) -> (r: &'static str)
    ensures
        r@ == verdict_word(v@),
{
    match v {
        GateVerdict::Allow => "Allow",
        GateVerdict::Refuse { reason: _ } => "Refuse",
    }
}

/// A proof allows an unattended swap exactly when no event was missed.
pub proof fn law_proof_allows(entry: ProofView)
    ensures
        proof_verdict(entry) is Allow <==> entry.events_missed_window == 0,
{
}

// ---------------------------------------------------------------------------
// Which daemons are proved
// ---------------------------------------------------------------------------

/// The daemons that are to be proved: all of the fleet, or the one that is named.
#[derive(Debug)]
pub enum ProveTargets {
    /// There is none, and what is told.
    Nothing(Line),
    /// These.
    Daemons(Vec<String>),
}

/// Which daemons are to be proved; without `--all` or a name that is not known.
pub fn run_prove(all: bool, daemon: Option<&str>, fleet: &FleetConfig) -> (r: Result<
    ProveTargets,
    RolloutError,
>)
    ensures
        if all {
            match r {
                Ok(ProveTargets::Nothing(line)) => line@ == LineView::Out(
                    "rollout prove: no daemons in fleet recipe. Nothing to prove."@,
                ) && forall|k: Seq<char>| !fleet@.contains_key(k),
                Ok(ProveTargets::Daemons(names)) => names@.len() > 0 && texts(
                    names@,
                ).no_duplicates() && forall|k: Seq<char>|
                    texts(names@).contains(k) <==> fleet@.contains_key(k),
                Err(_) => false,
            }
        } else {
            match (opt_text(daemon), r) {
                (Some(name), Ok(ProveTargets::Daemons(names))) => texts(names@) == seq![name],
                (None, Err(e)) => e@ == RolloutErrorView::FleetConfig(
                    "rollout prove: specify --daemon <unit> or --all"@,
                ),
                _ => false,
            }
        },
{
    broadcast use lemma_texts_push;

    if all {
        let names = fleet.all_names();
        assert(texts(names@).len() == names@.len());
        if names.len() == 0 {
            assert forall|k: Seq<char>| !fleet@.contains_key(k) by {
                assert(!texts(names@).contains(k));
            }
            Ok(
                ProveTargets::Nothing(
                    Line::Out(
                        "rollout prove: no daemons in fleet recipe. Nothing to prove.".to_owned(),
                    ),
                ),
            )
        } else {
            Ok(ProveTargets::Daemons(names))
        }
    } else {
        match daemon {
            Some(name) => {
                let mut names: Vec<String> = Vec::new();
                names.push(name.to_owned());
                assert(texts(names@) =~= seq![name@]);
                Ok(ProveTargets::Daemons(names))
            },
            None => Err(
                RolloutError::FleetConfig(
                    "rollout prove: specify --daemon <unit> or --all".to_owned(),
                ),
            ),
        }
    }
}

// ---------------------------------------------------------------------------
// A probe
// ---------------------------------------------------------------------------

/// What came of running a probe.
#[derive(Debug)]
pub enum ProbeRun {
    /// It could not be started, and why.
    NotSpawned(String),
    /// It failed.
    Failed { code: Option<i32>, stderr: String },
    /// It printed no text, and why.
    NotText(String),
    /// It printed what is no proof, and why.
    NoProof { output: String, why: String },
    /// It printed a proof.
    Proof(ProofEntry),
}

/// The model of a [`ProbeRun`].
#[verifier::ext_equal]
pub enum ProbeRunView {
    NotSpawned(Seq<char>),
    Failed { code: Option<i32>, stderr: Seq<char> },
    NotText(Seq<char>),
    NoProof { output: Seq<char>, why: Seq<char> },
    Proof(ProofView),
}

impl View for ProbeRun {
    type V = ProbeRunView;

    open spec fn view(&self) -> ProbeRunView {
        match *self {
            ProbeRun::NotSpawned(why) => ProbeRunView::NotSpawned(why@),
            ProbeRun::Failed { code, stderr } => ProbeRunView::Failed { code, stderr: stderr@ },
            ProbeRun::NotText(why) => ProbeRunView::NotText(why@),
            ProbeRun::NoProof { output, why } => ProbeRunView::NoProof {
                output: output@,
                why: why@,
            },
            ProbeRun::Proof(e) => ProbeRunView::Proof(e@),
        }
    }
}

/// How an exit code that may be missing is told by a failed probe.
pub open spec fn code_option(code: Option<i32>) -> Seq<char> {
    match code {
        Some(c) => "Some("@ + dec_int(c as int) + ")"@,
        None => "None"@,
    }
}

fn code_option_text(code: Option<i32>) -> (r: String)
    ensures
        r@ == code_option(code),
{
    match code {
        Some(c) => "Some(".to_owned().concat(decimal_i32(c).as_str()).concat(")"),
        None => "None".to_owned(),
    }
}

/// What a probe gives: a proof, or why there is none.
pub open spec fn probed(bin: Seq<char>, daemon: Seq<char>, run: ProbeRunView) -> Result<
    ProofView,
    RolloutErrorView,
> {
    match run {
        ProbeRunView::NotSpawned(why) => Err(
            RolloutErrorView::BuildFailed {
                name: daemon,
                reason: "failed to spawn `"@ + bin + " probe`: "@ + why,
            },
        ),
        ProbeRunView::Failed { code, stderr } => Err(
            RolloutErrorView::BuildFailed {
                name: daemon,
                reason: "`"@ + bin + " probe "@ + daemon + "` exited "@ + code_option(code) + ": "@
                    + stderr,
            },
        ),
        ProbeRunView::NotText(why) => Err(
            RolloutErrorView::BinstaleScanFailed(
                "`"@ + bin + " probe "@ + daemon + "` produced non-UTF-8 output: "@ + why,
            ),
        ),
        ProbeRunView::NoProof { output, why } => Err(
            RolloutErrorView::FleetConfig(
                "changeover probe for `"@ + daemon + "` returned unparseable JSON: "@ + why
                    + "\nraw output:\n"@ + output,
            ),
        ),
        ProbeRunView::Proof(e) => Ok(e),
    }
}

/// A proof or an error, as models.
pub open spec fn proof_result(r: Result<ProofEntry, RolloutError>) -> Result<
    ProofView,
    RolloutErrorView,
> {
    match r {
        Ok(e) => Ok(e@),
        Err(e) => Err(e@),
    }
}

/// What a probe gives: a proof, or why there is none.
pub fn run_probe(bin: &str, daemon: &str, run: ProbeRun) -> (r: Result<ProofEntry, RolloutError>)
    ensures
        proof_result(r) == probed(bin@, daemon@, run@),
{
    match run {
        ProbeRun::NotSpawned(why) => Err(
            RolloutError::BuildFailed {
                name: daemon.to_owned(),
                reason: "failed to spawn `".to_owned().concat(bin).concat(" probe`: ").concat(
                    why.as_str(),
                ),
            },
        ),
        ProbeRun::Failed { code, stderr } => Err(
            RolloutError::BuildFailed {
                name: daemon.to_owned(),
                reason: "`".to_owned().concat(bin).concat(" probe ").concat(daemon).concat(
                    "` exited ",
                ).concat(code_option_text(code).as_str()).concat(": ").concat(stderr.as_str()),
            },
        ),
        ProbeRun::NotText(why) => Err(
            RolloutError::BinstaleScanFailed(
                "`".to_owned().concat(bin).concat(" probe ").concat(daemon).concat(
                    "` produced non-UTF-8 output: ",
                ).concat(why.as_str()),
            ),
        ),
        ProbeRun::NoProof { output, why } => Err(
            RolloutError::FleetConfig(
                "changeover probe for `".to_owned().concat(daemon).concat(
                    "` returned unparseable JSON: ",
                ).concat(why.as_str()).concat("\nraw output:\n").concat(output.as_str()),
            ),
        ),
        ProbeRun::Proof(e) => Ok(e),
    }
}

// ---------------------------------------------------------------------------
// Recording a proof
// ---------------------------------------------------------------------------

/// What came of reading a proof that was given.
#[derive(Debug)]
pub enum ProofRead {
    /// It could not be read, and why.
    Unreadable(String),
    /// It was read but is no proof, and why.
    Unparseable(String),
    /// The proof.
    Parsed(ProofEntry),
}

/// The proof that was read from `from`, where `-` is standard input, or why there is none.
pub fn read_proof(from: &str, read: ProofRead) -> (r: Result<ProofEntry, RolloutError>)
    ensures
        proof_result(r) == (match read {
            ProofRead::Unreadable(why) => Err(
                RolloutErrorView::BinstaleScanFailed(
                    if from@ == "-"@ {
                        "read stdin: "@ + why@
                    } else {
                        "read "@ + from@ + ": "@ + why@
                    },
                ),
            ),
            ProofRead::Unparseable(why) => Err(
                RolloutErrorView::FleetConfig("probe JSON parse error: "@ + why@),
            ),
            ProofRead::Parsed(e) => Ok(e@),
        }),
{
    match read {
        ProofRead::Unreadable(why) => {
            if same(from, "-") {
                Err(
                    RolloutError::BinstaleScanFailed(
                        "read stdin: ".to_owned().concat(why.as_str()),
                    ),
                )
            } else {
                Err(
                    RolloutError::BinstaleScanFailed(
                        "read ".to_owned().concat(from).concat(": ").concat(why.as_str()),
                    ),
                )
            }
        },
        ProofRead::Unparseable(why) => Err(
            RolloutError::FleetConfig("probe JSON parse error: ".to_owned().concat(why.as_str())),
        ),
        ProofRead::Parsed(e) => Ok(e),
    }
}

/// Record a proof in the ledger at `path`; what is told once the ledger is saved.
pub fn run_record_proof(ledger: &mut ProofLedger, entry: ProofEntry, path: &str) -> (r: Line)
    ensures
        final(ledger)@ == old(ledger)@.insert(entry@.daemon, entry@),
        r@ == LineView::Out(
            "record-proof: saved proof for `"@ + entry@.daemon + "` → "@ + path@,
        ),
{
    let line = Line::Out(
        "record-proof: saved proof for `".to_owned().concat(entry.daemon.as_str()).concat(
            "` → ",
        ).concat(path),
    );
    ledger.upsert(entry);
    line
}

// ---------------------------------------------------------------------------
// The run
// ---------------------------------------------------------------------------

/// Where a proving run stands.
#[derive(Debug, Clone, Copy, PartialEq, Eq, Structural)]
pub enum ProvePhase {
    /// Nothing was done yet.
    Start,
    /// The ledger is read.
    Load,
    /// A daemon is probed.
    Probe,
    /// The ledger is written.
    Save,
    /// The run is over.
    Done,
}

/// What happened outside since the last step.
#[derive(Debug)]
pub enum ProveEvent {
    /// The run begins.
    Begin,
    /// The ledger was read.
    Loaded(LedgerRead),
    /// A daemon was probed.
    Probed(ProbeRun),
    /// The ledger was written.
    Saved(LedgerWrite),
}

/// What is to be done next, and told back as an event.
#[derive(Debug)]
pub enum ProveAction {
    /// Read the ledger.
    LoadLedger { path: String },
    /// Run the probe of a daemon.
    Probe { bin: String, daemon: String },
    /// Write the run's ledger.
    SaveLedger { path: String },
    /// The run is over.
    Finish(Result<(), RolloutError>),
    /// The event does not belong here; nothing changed.
    Ignored,
}

/// The model of a [`ProveAction`].
#[verifier::ext_equal]
pub enum ProveActionView {
    LoadLedger { path: Seq<char> },
    Probe { bin: Seq<char>, daemon: Seq<char> },
    SaveLedger { path: Seq<char> },
    Finish(Result<(), RolloutErrorView>),
    Ignored,
}

impl View for ProveAction {
    type V = ProveActionView;

    open spec fn view(&self) -> ProveActionView {
        match *self {
            ProveAction::LoadLedger { path } => ProveActionView::LoadLedger { path: path@ },
            ProveAction::Probe { bin, daemon } => ProveActionView::Probe {
                bin: bin@,
                daemon: daemon@,
            },
            ProveAction::SaveLedger { path } => ProveActionView::SaveLedger { path: path@ },
            ProveAction::Finish(r) => ProveActionView::Finish(outcome(r)),
            ProveAction::Ignored => ProveActionView::Ignored,
        }
    }
}

/// A run that proves daemons one after the other.
pub struct ProveRun {
    names: Vec<String>,
    ledger_path: String,
    dry_run: bool,
    all_or_nothing: bool,
    bin: String,
    ledger: ProofLedger,
    at: usize,
    any_refuse: bool,
    phase: ProvePhase,
}

/// The model of a [`ProveRun`].
#[verifier::ext_equal]
pub struct ProveView {
    pub names: Seq<Seq<char>>,
    pub ledger_path: Seq<char>,
    pub dry_run: bool,
    /// Whether a refused proof keeps the ledger from being written.
    pub all_or_nothing: bool,
    pub bin: Seq<char>,
    pub ledger: Map<Seq<char>, ProofView>,
    /// How many daemons were probed.
    pub at: nat,
    /// Whether a proof did not allow an unattended swap.
    pub any_refuse: bool,
    pub phase: ProvePhase,
}

impl View for ProveRun {
    type V = ProveView;

    closed spec fn view(&self) -> ProveView {
        ProveView {
            names: texts(self.names@),
            ledger_path: self.ledger_path@,
            dry_run: self.dry_run,
            all_or_nothing: self.all_or_nothing,
            bin: self.bin@,
            ledger: self.ledger@,
            at: self.at as nat,
            any_refuse: self.any_refuse,
            phase: self.phase,
        }
    }
}

/// What a step does: the run after it, what is told, and what is to be done.
#[verifier::ext_equal]
pub struct ProveMove {
    pub state: ProveView,
    pub lines: Seq<LineView>,
    pub action: ProveActionView,
}

/// The first characters of a hash, as far as it is shown.
pub open spec fn short_hash(hash: Seq<char>) -> Seq<char> {
    if hash.len() <= 12 {
        hash
    } else {
        hash.take(12)
    }
}

fn short_hash_text(hash: &str) -> (r: String)
    ensures
        r@ == short_hash(hash@),
{
    if hash.unicode_len() <= 12 {
        hash.to_owned()
    } else {
        let head = hash.substring_char(0, 12);
        assert(head@ =~= hash@.take(12));
        head.to_owned()
    }
}

/// What is told of a proof.
pub open spec fn proof_line(entry: ProofView) -> LineView {
    LineView::Out(
        verdict_word(proof_verdict(entry)) + "  hash="@ + short_hash(entry.binary_hash)
            + "  window="@ + dec(entry.deafness_ms) + "ms  events_lost="@ + dec(
            entry.events_missed_window,
        ),
    )
}

fn proof_text(entry: &ProofEntry, verdict: &GateVerdict) -> (r: Line)
    requires
        verdict@ == proof_verdict(entry@),
    ensures
        r@ == proof_line(entry@),
{
    Line::Out(
        format_verdict(verdict).to_owned().concat("  hash=").concat(
            short_hash_text(entry.binary_hash.as_str()).as_str(),
        ).concat("  window=").concat(decimal(entry.deafness_ms as u128).as_str()).concat(
            "ms  events_lost=",
        ).concat(decimal(entry.events_missed_window as u128).as_str()),
    )
}

/// A proving run before its first step.
pub open spec fn prove_begun(
    names: Seq<Seq<char>>,
    ledger_path: Seq<char>,
    dry_run: bool,
    all_or_nothing: bool,
    bin: Seq<char>,
) -> ProveView {
    ProveView {
        names,
        ledger_path,
        dry_run,
        all_or_nothing,
        bin,
        ledger: Map::empty(),
        at: 0,
        any_refuse: false,
        phase: ProvePhase::Start,
    }
}

impl ProveView {
    /// The step that goes on to `phase` with `action`.
    pub open spec fn go(
        self,
        phase: ProvePhase,
        lines: Seq<LineView>,
        action: ProveActionView,
    ) -> ProveMove {
        ProveMove { state: ProveView { phase, ..self }, lines, action }
    }

    /// The step that ends the run.
    pub open spec fn end(self, lines: Seq<LineView>, r: Result<(), RolloutErrorView>) -> ProveMove {
        self.go(ProvePhase::Done, lines, ProveActionView::Finish(r))
    }

    /// How the run ends once nothing failed.
    pub open spec fn verdict(self) -> Result<(), RolloutErrorView> {
        if self.any_refuse {
            Err(
                RolloutErrorView::ProveRefused {
                    reason: "one or more daemons returned a Refuse proof"@,
                },
            )
        } else {
            Ok(())
        }
    }

    /// Whether the ledger is left as it is.
    pub open spec fn keeps_ledger(self) -> bool {
        self.dry_run || self.all_or_nothing && self.any_refuse
    }

    /// The step that probes the next daemon, or saves the ledger when there is none, or ends
    /// the run where nothing is to be saved.
    pub open spec fn next(self, lines: Seq<LineView>) -> ProveMove {
        if self.at < self.names.len() {
            let name = self.names[self.at as int];
            self.go(
                ProvePhase::Probe,
                lines.push(
                    LineView::Part(
                        "rollout prove ["@ + dec(self.at + 1) + "/"@ + dec(self.names.len())
                            + "]: probing "@ + name + "… "@,
                    ),
                ),
                ProveActionView::Probe { bin: self.bin, daemon: name },
            )
        } else if self.keeps_ledger() {
            self.end(lines, self.verdict())
        } else {
            self.go(
                ProvePhase::Save,
                lines,
                ProveActionView::SaveLedger { path: self.ledger_path },
            )
        }
    }

    /// The run that took in a proof: recorded it, unless it is a dry run.
    pub open spec fn proved(self, entry: ProofView) -> ProveView {
        ProveView {
            ledger: if self.dry_run {
                self.ledger
            } else {
                self.ledger.insert(entry.daemon, entry)
            },
            at: self.at + 1,
            any_refuse: self.any_refuse || proof_verdict(entry) is Refuse,
            ..self
        }
    }

    /// What is told of a proof that was taken in.
    pub open spec fn proved_lines(self, entry: ProofView) -> Seq<LineView> {
        let first = seq![proof_line(entry)];
        if self.dry_run {
            first.push(
                LineView::Out(
                    "  [dry-run] would record proof for `"@ + self.names[self.at as int] + "` → "@
                        + self.ledger_path,
                ),
            )
        } else {
            first
        }
    }

    /// What a step does on an event.
    #[verifier::opaque]
    pub open spec fn step(self, event: ProveEvent) -> ProveMove {
        match (self.phase, event) {
            (ProvePhase::Start, ProveEvent::Begin) => self.go(
                ProvePhase::Load,
                seq![],
                ProveActionView::LoadLedger { path: self.ledger_path },
            ),
            (ProvePhase::Load, ProveEvent::Loaded(read)) => match ledger_loaded(
                self.ledger_path,
                read,
            ) {
                Ok(ledger) => ProveView { ledger, ..self }.next(seq![]),
                Err(e) => self.end(seq![], Err(e)),
            },
            (ProvePhase::Probe, ProveEvent::Probed(run)) => if self.at < self.names.len() {
                match probed(self.bin, self.names[self.at as int], run@) {
                    Ok(entry) => self.proved(entry).next(self.proved_lines(entry)),
                    Err(e) => self.end(seq![], Err(e)),
                }
            } else {
                self.go(self.phase, seq![], ProveActionView::Ignored)
            },
            (ProvePhase::Save, ProveEvent::Saved(write)) => match ledger_saved(
                self.ledger_path,
                write,
            ) {
                Ok(_) => self.end(
                    seq![
                        LineView::Out("rollout prove: ledger written → "@ + self.ledger_path),
                    ],
                    self.verdict(),
                ),
                Err(e) => self.end(seq![], Err(e)),
            },
            _ => self.go(self.phase, seq![], ProveActionView::Ignored),
        }
    }
}

/// What a step gives: what is told, and what is to be done.
#[derive(Debug)]
pub struct ProveStep {
    pub lines: Vec<Line>,
    pub action: ProveAction,
}

impl ProveStep {
    /// The step of the model, from the run after it.
    pub open spec fn made(self, state: ProveView) -> ProveMove {
        ProveMove { state, lines: line_views(self.lines@), action: self.action@ }
    }
}

impl ProveRun {
    /// A run that proves the named daemons, before its first step.
    ///
    /// With `all_or_nothing` a refused proof keeps the ledger from being written.
    pub fn new(
        names: Vec<String>,
        ledger_path: String,
        dry_run: bool,
        all_or_nothing: bool,
        bin: String,
    ) -> (r: ProveRun)
        ensures
            r@ == prove_begun(texts(names@), ledger_path@, dry_run, all_or_nothing, bin@),
    {
        ProveRun {
            names,
            ledger_path,
            dry_run,
            all_or_nothing,
            bin,
            ledger: ProofLedger::default(),
            at: 0,
            any_refuse: false,
            phase: ProvePhase::Start,
        }
    }

    /// The ledger as the run has it.
    pub fn ledger(&self) -> (r: &ProofLedger)
        ensures
            r@ == self@.ledger,
    {
        &self.ledger
    }

    fn end(&mut self, lines: Vec<Line>, result: Result<(), RolloutError>) -> (r: ProveStep)
        ensures
            r.made(final(self)@) == old(self)@.end(line_views(lines@), outcome(result)),
    {
        self.phase = ProvePhase::Done;
        ProveStep { lines, action: ProveAction::Finish(result) }
    }

    fn verdict(&self) -> (r: Result<(), RolloutError>)
        ensures
            outcome(r) == self@.verdict(),
    {
        if self.any_refuse {
            Err(
                RolloutError::ProveRefused {
                    reason: "one or more daemons returned a Refuse proof".to_owned(),
                },
            )
        } else {
            Ok(())
        }
    }

    fn next(&mut self, lines: Vec<Line>) -> (r: ProveStep)
        ensures
            r.made(final(self)@) == old(self)@.next(line_views(lines@)),
    {
        broadcast use lemma_lines_push;

        let total: usize = self.names.len();
        assert(self@.names.len() == total);
        if self.at < total {
            let name = self.names[self.at].clone();
            assert(self@.names[self.at as int] == name@);
            let mut lines = lines;
            lines.push(
                Line::Part(
                    "rollout prove [".to_owned().concat(
                        decimal(self.at as u128 + 1).as_str(),
                    ).concat("/").concat(decimal(total as u128).as_str()).concat(
                        "]: probing ",
                    ).concat(name.as_str()).concat("… "),
                ),
            );
            self.phase = ProvePhase::Probe;
            ProveStep {
                lines,
                action: ProveAction::Probe { bin: self.bin.clone(), daemon: name },
            }
        } else if self.dry_run || (self.all_or_nothing && self.any_refuse) {
            let result = self.verdict();
            self.end(lines, result)
        } else {
            self.phase = ProvePhase::Save;
            ProveStep {
                lines,
                action: ProveAction::SaveLedger { path: self.ledger_path.clone() },
            }
        }
    }

    fn probed(&mut self, run: ProbeRun) -> (r: ProveStep)
        requires
            old(self)@.phase == ProvePhase::Probe,
        ensures
            r.made(final(self)@) == old(self)@.step(ProveEvent::Probed(run)),
    {
        broadcast use lemma_lines_push;

        proof {
            reveal(ProveView::step);
        }
        assert(self@.names.len() == self.names@.len());
        if self.at >= self.names.len() {
            return ProveStep { lines: no_lines(), action: ProveAction::Ignored };
        }
        let name = self.names[self.at].clone();
        assert(self@.names[self.at as int] == name@);
        match run_probe(self.bin.as_str(), name.as_str(), run) {
            Ok(entry) => {
                let ghost before = self@;
                let verdict = compute_verdict(&entry);
                let mut lines = one_line(proof_text(&entry, &verdict));
                let refused = match &verdict {
                    GateVerdict::Allow => false,
                    GateVerdict::Refuse { reason: _ } => true,
                };
                if refused {
                    self.any_refuse = true;
                }
                let ghost entry_view = entry@;
                if self.dry_run {
                    lines.push(
                        Line::Out(
                            "  [dry-run] would record proof for `".to_owned().concat(
                                name.as_str(),
                            ).concat("` → ").concat(self.ledger_path.as_str()),
                        ),
                    );
                } else {
                    self.ledger.upsert(entry);
                }
                self.at = self.at + 1;
                assert(line_views(lines@) =~= before.proved_lines(entry_view));
                assert(self@ =~= before.proved(entry_view));
                self.next(lines)
            },
            Err(e) => self.end(no_lines(), Err(e)),
        }
    }

    /// Take the next step of the run.
    pub fn prove_daemons(&mut self, event: ProveEvent) -> (r: ProveStep)
        ensures
            r.made(final(self)@) == old(self)@.step(event),
    {
        proof {
            reveal(ProveView::step);
        }
        match (self.phase, event) {
            (ProvePhase::Start, ProveEvent::Begin) => {
                self.phase = ProvePhase::Load;
                ProveStep {
                    lines: no_lines(),
                    action: ProveAction::LoadLedger { path: self.ledger_path.clone() },
                }
            },
            (ProvePhase::Load, ProveEvent::Loaded(read)) => {
                match ProofLedger::load(self.ledger_path.as_str(), read) {
                    Ok(ledger) => {
                        self.ledger = ledger;
                        self.next(no_lines())
                    },
                    Err(e) => self.end(no_lines(), Err(e)),
                }
            },
            (ProvePhase::Probe, ProveEvent::Probed(run)) => self.probed(run),
            (ProvePhase::Save, ProveEvent::Saved(write)) => {
                match ProofLedger::save(self.ledger_path.as_str(), write) {
                    Ok(_) => {
                        let lines = one_line(
                            Line::Out(
                                "rollout prove: ledger written → ".to_owned().concat(
                                    self.ledger_path.as_str(),
                                ),
                            ),
                        );
                        let result = self.verdict();
                        self.end(lines, result)
                    },
                    Err(e) => self.end(no_lines(), Err(e)),
                }
            },
            _ => ProveStep { lines: no_lines(), action: ProveAction::Ignored },
        }
    }
}

// ---------------------------------------------------------------------------
// Laws
// ---------------------------------------------------------------------------

/// The run after the given events.
pub open spec fn prove_after(s: ProveView, events: Seq<ProveEvent>) -> ProveView
    decreases events.len(),
{
    if events.len() == 0 {
        s
    } else {
        prove_after(s, events.drop_last()).step(events.last()).state
    }
}

/// What is to be done after the event with the number `k`.
pub open spec fn prove_action(s: ProveView, events: Seq<ProveEvent>, k: int) -> ProveActionView {
    prove_after(s, events.take(k)).step(events[k]).action
}

/// Whether the event with the number `i` is a probe's proof that the run took in.
pub open spec fn took_in(s: ProveView, events: Seq<ProveEvent>, i: int, entry: ProofView) -> bool {
    prove_after(s, events.take(i)).phase == ProvePhase::Probe && (events[i] matches
        ProveEvent::Probed(run) && run@ == ProbeRunView::Proof(entry))
}

/// Whether the run took in a proof of `daemon` after the event with the number `i`.
pub open spec fn proved_again(
    s: ProveView,
    events: Seq<ProveEvent>,
    i: int,
    daemon: Seq<char>,
) -> bool {
    exists|j: int, entry: ProofView|
        i < j < events.len() && #[trigger] took_in(s, events, j, entry) && entry.daemon == daemon
}

proof fn lemma_prove_step(s: ProveView, event: ProveEvent)
    requires
        s.phase == ProvePhase::Probe ==> s.at < s.names.len(),
        s.phase == ProvePhase::Save ==> s.at >= s.names.len() && !s.keeps_ledger(),
    ensures
        ({
            let next = s.step(event).state;
            let action = s.step(event).action;
            &&& next.names == s.names && next.dry_run == s.dry_run && next.ledger_path
                == s.ledger_path && next.all_or_nothing == s.all_or_nothing
            &&& next.phase == ProvePhase::Probe ==> next.at < next.names.len()
            &&& action is SaveLedger ==> !next.keeps_ledger() && next.phase == ProvePhase::Save
            &&& next.phase == ProvePhase::Save ==> next.at >= next.names.len()
                && !next.keeps_ledger()
            &&& next.phase == ProvePhase::Start ==> s.phase == ProvePhase::Start
            &&& next.phase == ProvePhase::Load ==> s.phase == ProvePhase::Load || s.phase
                == ProvePhase::Start
            &&& (s.phase == ProvePhase::Probe && (event matches ProveEvent::Probed(run)
                && run@ is Proof)) ==> {
                let entry = event->Probed_0@->Proof_0;
                &&& next.at == s.at + 1
                &&& next.any_refuse == (s.any_refuse || entry.events_missed_window > 0)
                &&& next.ledger == if s.dry_run {
                    s.ledger
                } else {
                    s.ledger.insert(entry.daemon, entry)
                }
            }
            &&& !(s.phase == ProvePhase::Probe && (event matches ProveEvent::Probed(run)
                && run@ is Proof)) ==> next.at == s.at && next.any_refuse == s.any_refuse && (
            next.ledger == s.ledger || s.phase == ProvePhase::Load)
            &&& (action matches ProveActionView::Finish(r) ==> (r is Ok ==> next.at
                >= next.names.len() && !next.any_refuse && (s.phase == ProvePhase::Save
                || s.dry_run)))
            &&& (action matches ProveActionView::Finish(r) ==> (r matches Err(e) ==> (
            e is ProveRefused ==> next.any_refuse && next.at >= next.names.len() && (
            next.keeps_ledger() || (event matches ProveEvent::Saved(write) && ledger_saved(
                s.ledger_path,
                write,
            ) is Ok)))))
            &&& s.phase == ProvePhase::Save && (event matches ProveEvent::Saved(write) && ledger_saved(
                s.ledger_path,
                write,
            ) is Ok) ==> (action matches ProveActionView::Finish(r) && (r is Err
                <==> s.any_refuse))
        }),
{
    reveal(ProveView::step);
    if s.phase == ProvePhase::Probe {
        if let ProveEvent::Probed(run) = event {
            if run@ is Proof {
                law_proof_allows(run@->Proof_0);
            }
        }
    }
}

proof fn lemma_prove_trace(s: ProveView, events: Seq<ProveEvent>)
    requires
        s.phase == ProvePhase::Start,
        s.at == 0,
        !s.any_refuse,
    ensures
        ({
            let now = prove_after(s, events);
            let n = events.len() as int;
            &&& now.names == s.names && now.dry_run == s.dry_run && now.ledger_path
                == s.ledger_path && now.all_or_nothing == s.all_or_nothing
            &&& now.phase == ProvePhase::Probe ==> now.at < now.names.len()
            &&& now.phase == ProvePhase::Save ==> now.at >= now.names.len() && !now.keeps_ledger()
            &&& now.phase == ProvePhase::Start || now.phase == ProvePhase::Load ==> now.at == 0
                && !now.any_refuse && forall|i: int, entry: ProofView|
                0 <= i < n ==> !#[trigger] took_in(s, events, i, entry)
            &&& now.any_refuse <==> exists|i: int, entry: ProofView|
                0 <= i < n && #[trigger] took_in(s, events, i, entry) && entry.events_missed_window
                    > 0
            &&& !s.dry_run ==> forall|i: int, entry: ProofView|
                0 <= i < n && #[trigger] took_in(s, events, i, entry) ==> now.ledger.contains_key(
                    entry.daemon,
                ) && (!proved_again(s, events, i, entry.daemon) ==> now.ledger[entry.daemon]
                    == entry)
        }),
    decreases events.len(),
{
    if events.len() > 0 {
        let before = events.drop_last();
        let m = before.len() as int;
        let was = prove_after(s, before);
        let now = prove_after(s, events);
        lemma_prove_trace(s, before);
        lemma_prove_step(was, events.last());
        assert(events.take(m) =~= before);
        assert forall|i: int, entry: ProofView| 0 <= i < m implies #[trigger] took_in(
            s,
            events,
            i,
            entry,
        ) == took_in(s, before, i, entry) by {
            assert(events.take(i) =~= before.take(i));
        }
        if was.any_refuse {
            let (i, entry) = choose|i: int, entry: ProofView|
                0 <= i < m && #[trigger] took_in(s, before, i, entry) && entry.events_missed_window
                    > 0;
            assert(took_in(s, events, i, entry));
        }
        if was.phase == ProvePhase::Probe && (events.last() matches ProveEvent::Probed(run)
            && run@ is Proof) {
            let entry = events.last()->Probed_0@->Proof_0;
            assert(took_in(s, events, m, entry));
        }
        if exists|i: int, entry: ProofView|
            0 <= i < events.len() && #[trigger] took_in(s, events, i, entry)
                && entry.events_missed_window > 0 {
            let (i, entry) = choose|i: int, entry: ProofView|
                0 <= i < events.len() && #[trigger] took_in(s, events, i, entry)
                    && entry.events_missed_window > 0;
            if i < m {
                assert(took_in(s, before, i, entry));
            }
        }
        if !s.dry_run {
            assert forall|i: int, entry: ProofView|
                0 <= i < events.len() && #[trigger] took_in(
                    s,
                    events,
                    i,
                    entry,
                ) implies now.ledger.contains_key(entry.daemon) && (!proved_again(
                s,
                events,
                i,
                entry.daemon,
            ) ==> now.ledger[entry.daemon] == entry) by {
                if i < m {
                    assert(took_in(s, before, i, entry));
                    if proved_again(s, before, i, entry.daemon) {
                        let (j, later) = choose|j: int, later: ProofView|
                            i < j < before.len() && #[trigger] took_in(s, before, j, later)
                                && later.daemon == entry.daemon;
                        assert(took_in(s, events, j, later));
                    }
                }
            }
        }
    }
}

/// A dry run never writes the ledger.
pub proof fn law_dry_run_writes_nothing(
    names: Seq<Seq<char>>,
    path: Seq<char>,
    all_or_nothing: bool,
    bin: Seq<char>,
    events: Seq<ProveEvent>,
    k: int,
)
    requires
        0 <= k < events.len(),
    ensures
        !(prove_action(prove_begun(names, path, true, all_or_nothing, bin), events, k) is SaveLedger),
{
    let s = prove_begun(names, path, true, all_or_nothing, bin);
    lemma_prove_trace(s, events.take(k));
    lemma_prove_step(prove_after(s, events.take(k)), events[k]);
}

/// A run that ends well has probed every daemon, and no proof showed a missed event.
pub proof fn law_prove_ok(
    names: Seq<Seq<char>>,
    path: Seq<char>,
    dry_run: bool,
    all_or_nothing: bool,
    bin: Seq<char>,
    events: Seq<ProveEvent>,
    k: int,
)
    requires
        0 <= k < events.len(),
        prove_action(prove_begun(names, path, dry_run, all_or_nothing, bin), events, k) == ProveActionView::Finish(
            Ok(()),
        ),
    ensures
        ({
            let s = prove_begun(names, path, dry_run, all_or_nothing, bin);
            &&& prove_after(s, events.take(k + 1)).at >= names.len()
            &&& forall|i: int, entry: ProofView|
                0 <= i <= k && #[trigger] took_in(s, events, i, entry)
                    ==> entry.events_missed_window == 0
        }),
{
    let s = prove_begun(names, path, dry_run, all_or_nothing, bin);
    let first = events.take(k + 1);
    assert(first.drop_last() =~= events.take(k));
    assert(first.last() == events[k]);
    lemma_prove_trace(s, events.take(k));
    lemma_prove_step(prove_after(s, events.take(k)), events[k]);
    lemma_prove_trace(s, first);
    assert forall|i: int, entry: ProofView|
        0 <= i <= k && #[trigger] took_in(s, events, i, entry) implies entry.events_missed_window
        == 0 by {
        assert(first.take(i) =~= events.take(i));
        assert(took_in(s, first, i, entry));
    }
}

/// A run is refused only for a proof that showed a missed event, and, unless the ledger is left
/// as it is, only once it was written.
pub proof fn law_prove_refused(
    names: Seq<Seq<char>>,
    path: Seq<char>,
    dry_run: bool,
    all_or_nothing: bool,
    bin: Seq<char>,
    events: Seq<ProveEvent>,
    k: int,
)
    requires
        0 <= k < events.len(),
        prove_action(prove_begun(names, path, dry_run, all_or_nothing, bin), events, k) matches
            ProveActionView::Finish(r) && (r matches Err(e) && e is ProveRefused),
    ensures
        exists|i: int, entry: ProofView|
            0 <= i <= k && #[trigger] took_in(
                prove_begun(names, path, dry_run, all_or_nothing, bin),
                events,
                i,
                entry,
            ) && entry.events_missed_window > 0,
        dry_run || all_or_nothing || (events[k] matches ProveEvent::Saved(write) && ledger_saved(path, write) is Ok),
{
    let s = prove_begun(names, path, dry_run, all_or_nothing, bin);
    let first = events.take(k + 1);
    assert(first.drop_last() =~= events.take(k));
    assert(first.last() == events[k]);
    lemma_prove_trace(s, events.take(k));
    lemma_prove_step(prove_after(s, events.take(k)), events[k]);
    lemma_prove_trace(s, first);
    let (i, entry) = choose|i: int, entry: ProofView|
        0 <= i < first.len() && #[trigger] took_in(s, first, i, entry)
            && entry.events_missed_window > 0;
    assert(first.take(i) =~= events.take(i));
    assert(took_in(s, events, i, entry));
}

proof fn lemma_saved_last(s: ProveView, events: Seq<ProveEvent>, k: int, n: int)
    requires
        0 <= k < n <= events.len(),
        prove_action(s, events, k) is SaveLedger,
    ensures
        ({
            let now = prove_after(s, events.take(n));
            now.phase == ProvePhase::Save || now.phase == ProvePhase::Done
        }),
    decreases n,
{
    let before = events.take(n - 1);
    assert(events.take(n).drop_last() =~= before);
    assert(events.take(n).last() == events[n - 1]);
    reveal(ProveView::step);
    if k < n - 1 {
        lemma_saved_last(s, events, k, n - 1);
    }
}

/// In a run that records all proofs or none, the ledger is not written if any proof that is
/// taken in shows a missed event.
pub proof fn law_refusal_keeps_ledger(
    names: Seq<Seq<char>>,
    path: Seq<char>,
    dry_run: bool,
    bin: Seq<char>,
    events: Seq<ProveEvent>,
    i: int,
    entry: ProofView,
    k: int,
)
    requires
        0 <= i < events.len(),
        took_in(prove_begun(names, path, dry_run, true, bin), events, i, entry),
        entry.events_missed_window > 0,
        0 <= k < events.len(),
    ensures
        !(prove_action(prove_begun(names, path, dry_run, true, bin), events, k) is SaveLedger),
{
    let s = prove_begun(names, path, dry_run, true, bin);
    let first = events.take(k + 1);
    assert(first.drop_last() =~= events.take(k));
    assert(first.last() == events[k]);
    lemma_prove_trace(s, events.take(k));
    lemma_prove_step(prove_after(s, events.take(k)), events[k]);
    lemma_prove_trace(s, first);
    if prove_action(s, events, k) is SaveLedger {
        if i <= k {
            assert(first.take(i) =~= events.take(i));
            assert(took_in(s, first, i, entry));
        } else {
            lemma_saved_last(s, events, k, i);
        }
    }
}

/// The ledger that is written has an entry for every daemon whose proof was taken in, and it
/// is the last such proof.
pub proof fn law_saved_ledger_has_every_proof(
    names: Seq<Seq<char>>,
    path: Seq<char>,
    all_or_nothing: bool,
    bin: Seq<char>,
    events: Seq<ProveEvent>,
    i: int,
    entry: ProofView,
)
    requires
        0 <= i < events.len(),
        took_in(prove_begun(names, path, false, all_or_nothing, bin), events, i, entry),
    ensures
        ({
            let s = prove_begun(names, path, false, all_or_nothing, bin);
            let ledger = prove_after(s, events).ledger;
            &&& ledger.contains_key(entry.daemon)
            &&& !proved_again(s, events, i, entry.daemon) ==> ledger[entry.daemon] == entry
        }),
{
    lemma_prove_trace(prove_begun(names, path, false, all_or_nothing, bin), events);
}

/// A proof that is taken in replaces the daemon's earlier one and leaves every other daemon's
/// proof as it was; in a dry run nothing changes.
pub proof fn law_proof_recorded(s: ProveView, run: ProbeRun)
    requires
        s.phase == ProvePhase::Probe,
        s.at < s.names.len(),
        run@ is Proof,
    ensures
        s.step(ProveEvent::Probed(run)).state.ledger == if s.dry_run {
            s.ledger
        } else {
            s.ledger.insert(run@->Proof_0.daemon, run@->Proof_0)
        },
{
    lemma_prove_step(s, ProveEvent::Probed(run));
}

/// Whether an event tells what came of an action.
pub open spec fn answers(action: ProveActionView, event: ProveEvent) -> bool {
    match action {
        ProveActionView::LoadLedger { .. } => event is Loaded,
        ProveActionView::Probe { .. } => event is Probed,
        ProveActionView::SaveLedger { .. } => event is Saved,
        ProveActionView::Finish(_) => false,
        ProveActionView::Ignored => false,
    }
}

/// A run is never stuck: it begins when it is told to, and whatever came of an action moves it
/// on.
pub proof fn law_prove_never_stuck(s: ProveView, event: ProveEvent, answer: ProveEvent)
    ensures
        s.phase == ProvePhase::Start && event is Begin ==> !(s.step(event).action is Ignored),
        answers(s.step(event).action, answer) ==> !(s.step(event).state.step(
            answer,
        ).action is Ignored),
{
    reveal(ProveView::step);
}

/// How many proofs a run took in over the given events.
pub open spec fn proofs_taken(s: ProveView, events: Seq<ProveEvent>) -> nat
    decreases events.len(),
{
    if events.len() == 0 {
        0
    } else {
        let before = events.drop_last();
        proofs_taken(s, before) + if prove_after(s, before).phase == ProvePhase::Probe && (
        events.last() matches ProveEvent::Probed(run) && run@ is Proof) {
            1nat
        } else {
            0nat
        }
    }
}

/// Whether the run has asked for a probe of the daemon with the number `j` within the first `n`
/// events.
pub open spec fn asked_within(s: ProveView, events: Seq<ProveEvent>, j: int, n: int) -> bool {
    exists|i: int|
        0 <= i < n && #[trigger] prove_action(s, events, i) == (ProveActionView::Probe {
            bin: s.bin,
            daemon: s.names[j],
        })
}

proof fn lemma_asked(s: ProveView, events: Seq<ProveEvent>)
    requires
        s.phase == ProvePhase::Start,
        s.at == 0,
        !s.any_refuse,
    ensures
        ({
            let now = prove_after(s, events);
            let n = events.len() as int;
            &&& now.bin == s.bin && now.names == s.names
            &&& now.at == proofs_taken(s, events)
            &&& now.at <= now.names.len()
            &&& forall|j: int|
                0 <= j < now.at || j == now.at && now.phase == ProvePhase::Probe ==> #[trigger]
                    asked_within(s, events, j, n)
        }),
    decreases events.len(),
{
    if events.len() > 0 {
        let before = events.drop_last();
        let m = before.len() as int;
        let was = prove_after(s, before);
        let now = prove_after(s, events);
        lemma_asked(s, before);
        lemma_prove_trace(s, before);
        lemma_prove_step(was, events.last());
        assert(events.take(m) =~= before);
        assert forall|i: int| 0 <= i < m implies #[trigger] prove_action(s, events, i)
            == prove_action(s, before, i) by {
            assert(events.take(i) =~= before.take(i));
        }
        assert forall|j: int|
            0 <= j < now.at || j == now.at && now.phase == ProvePhase::Probe implies #[trigger]
            asked_within(s, events, j, m + 1) by {
            if j < was.at || j == was.at && was.phase == ProvePhase::Probe {
                assert(asked_within(s, before, j, m));
                let i = choose|i: int|
                    0 <= i < m && #[trigger] prove_action(s, before, i)
                        == (ProveActionView::Probe { bin: s.bin, daemon: s.names[j] });
                assert(prove_action(s, events, i) == prove_action(s, before, i));
            } else {
                reveal(ProveView::step);
                assert(prove_action(s, events, m) == was.step(events[m]).action);
            }
        }
        reveal(ProveView::step);
    }
}

/// Daemons are probed in the order in which they were named, each by the given program: a probe is
/// asked for the daemon whose number is that of the proofs taken in so far.
pub proof fn law_probes_in_order(
    names: Seq<Seq<char>>,
    path: Seq<char>,
    dry_run: bool,
    all_or_nothing: bool,
    bin: Seq<char>,
    events: Seq<ProveEvent>,
    k: int,
)
    requires
        0 <= k < events.len(),
    ensures
        ({
            let s = prove_begun(names, path, dry_run, all_or_nothing, bin);
            let taken = proofs_taken(s, events.take(k + 1));
            prove_action(s, events, k) matches ProveActionView::Probe { bin: program, daemon }
                ==> program == bin && taken < names.len() && daemon == names[taken as int]
        }),
{
    let s = prove_begun(names, path, dry_run, all_or_nothing, bin);
    let first = events.take(k + 1);
    assert(first.drop_last() =~= events.take(k));
    assert(first.last() == events[k]);
    lemma_asked(s, events.take(k));
    lemma_asked(s, first);
    reveal(ProveView::step);
}

/// A run that ends well has asked for a probe of every daemon that was named, and has taken in as
/// many proofs.
pub proof fn law_every_daemon_probed(
    names: Seq<Seq<char>>,
    path: Seq<char>,
    dry_run: bool,
    all_or_nothing: bool,
    bin: Seq<char>,
    events: Seq<ProveEvent>,
    k: int,
    j: int,
)
    requires
        0 <= k < events.len(),
        prove_action(prove_begun(names, path, dry_run, all_or_nothing, bin), events, k)
            == ProveActionView::Finish(Ok(())),
        0 <= j < names.len(),
    ensures
        ({
            let s = prove_begun(names, path, dry_run, all_or_nothing, bin);
            &&& proofs_taken(s, events.take(k + 1)) == names.len()
            &&& exists|i: int|
                0 <= i < k && #[trigger] prove_action(s, events, i) == (ProveActionView::Probe {
                    bin,
                    daemon: names[j],
                })
        }),
{
    let s = prove_begun(names, path, dry_run, all_or_nothing, bin);
    let first = events.take(k + 1);
    assert(first.drop_last() =~= events.take(k));
    assert(first.last() == events[k]);
    law_prove_ok(names, path, dry_run, all_or_nothing, bin, events, k);
    lemma_asked(s, first);
    assert(asked_within(s, first, j, k + 1));
    let i = choose|i: int|
        0 <= i < k + 1 && #[trigger] prove_action(s, first, i) == (ProveActionView::Probe {
            bin,
            daemon: names[j],
        });
    assert(first.take(i) =~= events.take(i));
    assert(first[i] == events[i]);
    assert(prove_action(s, events, i) == prove_action(s, first, i));
}

/// The ledger is read from the given file, and written to no other.
pub proof fn law_one_ledger_file(
    names: Seq<Seq<char>>,
    path: Seq<char>,
    dry_run: bool,
    all_or_nothing: bool,
    bin: Seq<char>,
    events: Seq<ProveEvent>,
    k: int,
)
    requires
        0 <= k < events.len(),
    ensures
        match prove_action(
            prove_begun(names, path, dry_run, all_or_nothing, bin),
            events,
            k,
        ) {
            ProveActionView::LoadLedger { path: p } => p == path,
            ProveActionView::SaveLedger { path: p } => p == path,
            _ => true,
        },
{
    let s = prove_begun(names, path, dry_run, all_or_nothing, bin);
    lemma_prove_trace(s, events.take(k));
    reveal(ProveView::step);
}

/// What follows what came of an action. The ledger is read first; a ledger that cannot be read, a
/// probe without a proof and a ledger that cannot be written end the run with that failure. While
/// there are daemons left each proof is followed by another probe. When there are none left the
/// ledger is written, unless it is a dry run or a refused proof keeps it from being written.
pub proof fn law_prove_goes_on(s: ProveView, event: ProveEvent, answer: ProveEvent)
    ensures
        ({
            let first = s.step(event);
            let then = first.state.step(answer);
            let left = then.state.at < then.state.names.len();
            &&& s.phase == ProvePhase::Start && event is Begin ==> first.action is LoadLedger
            &&& first.action is LoadLedger ==> match answer {
                ProveEvent::Loaded(LedgerRead::Unreadable(_)) => then.action matches
                    ProveActionView::Finish(r) && r is Err,
                ProveEvent::Loaded(LedgerRead::Unparseable(_)) => then.action matches
                    ProveActionView::Finish(r) && r is Err,
                ProveEvent::Loaded(_) => left ==> then.action is Probe,
                _ => then.action is Ignored,
            }
            &&& first.action is Probe ==> match answer {
                ProveEvent::Probed(ProbeRun::Proof(_)) => left ==> then.action is Probe,
                ProveEvent::Probed(_) => then.action matches ProveActionView::Finish(r) && r is Err,
                _ => then.action is Ignored,
            }
            &&& (first.action is LoadLedger || first.action is Probe) && !(then.action is Ignored)
                && !(then.action matches ProveActionView::Finish(r) && (r matches Err(e) && !(
            e is ProveRefused))) && !left ==> {
                let refused = then.state.any_refuse;
                if s.dry_run || s.all_or_nothing && refused {
                    then.action matches ProveActionView::Finish(r) && (r is Ok <==> !refused) && (
                    r is Err ==> r->Err_0 is ProveRefused)
                } else {
                    then.action is SaveLedger
                }
            }
            &&& first.action is SaveLedger ==> match answer {
                ProveEvent::Saved(LedgerWrite::Written) => then.action matches
                    ProveActionView::Finish(r) && (r is Ok <==> !first.state.any_refuse),
                ProveEvent::Saved(_) => then.action matches ProveActionView::Finish(r) && r is Err,
                _ => then.action is Ignored,
            }
        }),
{
    reveal(ProveView::step);
}

/// A probe that printed a proof gives that proof, and no other does. Otherwise the daemon is named,
/// and why there is no proof.
pub proof fn law_probe_outcome(bin: Seq<char>, daemon: Seq<char>, run: ProbeRunView)
    ensures
        match run {
            ProbeRunView::Proof(entry) => probed(bin, daemon, run) == Ok::<
                ProofView,
                RolloutErrorView,
            >(entry),
            ProbeRunView::NotSpawned(why) => probed(bin, daemon, run) matches Err(e)
                && e is BuildFailed && e->BuildFailed_name == daemon && mentions(
                e->BuildFailed_reason,
                bin,
            ) && why.is_suffix_of(e->BuildFailed_reason),
            ProbeRunView::Failed { code, stderr } => probed(bin, daemon, run) matches Err(e)
                && e is BuildFailed && e->BuildFailed_name == daemon && mentions(
                e->BuildFailed_reason,
                code_option(code),
            ) && stderr.is_suffix_of(e->BuildFailed_reason),
            ProbeRunView::NotText(why) => probed(bin, daemon, run) matches Err(e)
                && e is BinstaleScanFailed && mentions(e->BinstaleScanFailed_0, daemon)
                && why.is_suffix_of(e->BinstaleScanFailed_0),
            ProbeRunView::NoProof { output, why } => probed(bin, daemon, run) matches Err(e)
                && e is FleetConfig && mentions(e->FleetConfig_0, daemon) && mentions(
                e->FleetConfig_0,
                why,
            ) && output.is_suffix_of(e->FleetConfig_0),
        },
{
    match run {
        ProbeRunView::NotSpawned(why) => {
            let t = "failed to spawn `"@ + bin + " probe`: "@ + why;
            assert(t =~= "failed to spawn `"@ + bin + (" probe`: "@ + why));
            lemma_mentions(t, "failed to spawn `"@, bin, " probe`: "@ + why);
            assert(t.subrange(t.len() - why.len(), t.len() as int) =~= why);
        },
        ProbeRunView::Failed { code, stderr } => {
            let head = "`"@ + bin + " probe "@ + daemon + "` exited "@;
            let t = head + code_option(code) + ": "@ + stderr;
            assert(t =~= head + code_option(code) + (": "@ + stderr));
            lemma_mentions(t, head, code_option(code), ": "@ + stderr);
            assert(t.subrange(t.len() - stderr.len(), t.len() as int) =~= stderr);
        },
        ProbeRunView::NotText(why) => {
            let head = "`"@ + bin + " probe "@;
            let t = head + daemon + "` produced non-UTF-8 output: "@ + why;
            assert(t =~= head + daemon + ("` produced non-UTF-8 output: "@ + why));
            lemma_mentions(t, head, daemon, "` produced non-UTF-8 output: "@ + why);
            assert(t.subrange(t.len() - why.len(), t.len() as int) =~= why);
        },
        ProbeRunView::NoProof { output, why } => {
            let head = "changeover probe for `"@;
            let mid = "` returned unparseable JSON: "@;
            let tail = "\nraw output:\n"@ + output;
            let t = head + daemon + mid + why + "\nraw output:\n"@ + output;
            assert(t =~= head + daemon + (mid + why + tail));
            lemma_mentions(t, head, daemon, mid + why + tail);
            assert(t =~= (head + daemon + mid) + why + tail);
            lemma_mentions(t, head + daemon + mid, why, tail);
            assert(t.subrange(t.len() - output.len(), t.len() as int) =~= output);
        },
        ProbeRunView::Proof(entry) => {},
    }
}

/// What is told of a proof: whether it allows an unattended swap, the beginning of the hash, for
/// how long nobody listened, and how many events were missed.
pub proof fn law_proof_is_told(entry: ProofView)
    ensures
        ({
            let hash = short_hash(entry.binary_hash);
            &&& hash.is_prefix_of(entry.binary_hash)
            &&& hash.len() == if entry.binary_hash.len() < 12 {
                entry.binary_hash.len()
            } else {
                12
            }
            &&& proof_line(entry) is Out
            &&& entry.events_missed_window == 0 <==> ("Allow  hash="@ + hash).is_prefix_of(
                proof_line(entry)->Out_0,
            )
            &&& entry.events_missed_window > 0 <==> ("Refuse  hash="@ + hash).is_prefix_of(
                proof_line(entry)->Out_0,
            )
            &&& mentions(proof_line(entry)->Out_0, "window="@ + dec(entry.deafness_ms) + "ms"@)
            &&& ("events_lost="@ + dec(entry.events_missed_window)).is_suffix_of(
                proof_line(entry)->Out_0,
            )
        }),
{
    law_proof_allows(entry);
    let hash = short_hash(entry.binary_hash);
    let t = proof_line(entry)->Out_0;
    reveal_strlit("Allow");
    reveal_strlit("Refuse");
    reveal_strlit("  hash=");
    reveal_strlit("Allow  hash=");
    reveal_strlit("Refuse  hash=");
    reveal_strlit("  window=");
    reveal_strlit("window=");
    reveal_strlit("ms  events_lost=");
    reveal_strlit("ms");
    reveal_strlit("events_lost=");
    let allow = "Allow  hash="@ + hash;
    let refuse = "Refuse  hash="@ + hash;
    assert(allow =~= "Allow"@ + "  hash="@ + hash);
    assert(refuse =~= "Refuse"@ + "  hash="@ + hash);
    let word = verdict_word(proof_verdict(entry));
    if entry.events_missed_window == 0 {
        assert(t.take(allow.len() as int) =~= allow);
        assert(t[0] == 'A' && refuse[0] == 'R');
    } else {
        assert(t.take(refuse.len() as int) =~= refuse);
        assert(t[0] == 'R' && allow[0] == 'A');
    }
    let window = "window="@ + dec(entry.deafness_ms) + "ms"@;
    let lost = "events_lost="@ + dec(entry.events_missed_window);
    let before = word + "  hash="@ + hash + "  window="@.take(2);
    let after = "ms  events_lost="@.skip(2) + dec(entry.events_missed_window);
    assert(t =~= before + window + after);
    lemma_mentions(t, before, window, after);
    assert(t.subrange(t.len() - lost.len(), t.len() as int) =~= lost);
}

/// A probe is told before it is made, with its number, that of all probes, and the daemon's name.
pub proof fn law_probe_is_told(s: ProveView, event: ProveEvent)
    ensures
        ({
            let then = s.step(event);
            let at = then.state.at;
            then.action matches ProveActionView::Probe { bin, daemon } ==> {
                &&& then.lines.len() > 0 && then.lines.last() is Part
                &&& mentions(
                    then.lines.last()->Part_0,
                    "["@ + dec(at + 1) + "/"@ + dec(s.names.len()) + "]: probing "@ + daemon,
                )
            }
        }),
{
    reveal(ProveView::step);
    let then = s.step(event);
    if let ProveActionView::Probe { bin, daemon } = then.action {
        let at = then.state.at;
        let t = then.lines.last()->Part_0;
        reveal_strlit("rollout prove [");
        reveal_strlit("[");
        let head = "rollout prove ["@;
        let part = "["@ + dec(at + 1) + "/"@ + dec(s.names.len()) + "]: probing "@ + daemon;
        assert(t =~= head.drop_last() + part + "… "@);
        lemma_mentions(t, head.drop_last(), part, "… "@);
    }
}

/// A dry run tells of each proof where it would be recorded; a run that wrote the ledger tells where
/// it did.
pub proof fn law_recording_is_told(s: ProveView, event: ProveEvent)
    ensures
        ({
            let then = s.step(event);
            &&& s.phase == ProvePhase::Probe && s.dry_run && s.at < s.names.len() && (event matches
                ProveEvent::Probed(run) && run@ is Proof) ==> then.lines.len() >= 2
                && then.lines[1] is Out && mentions(then.lines[1]->Out_0, s.names[s.at as int])
                && s.ledger_path.is_suffix_of(then.lines[1]->Out_0)
            &&& s.phase == ProvePhase::Probe && s.at < s.names.len() && (event matches
                ProveEvent::Probed(run) && run@ is Proof) ==> then.lines.len() >= 1 && then.lines[0]
                == proof_line(event->Probed_0@->Proof_0)
            &&& s.phase == ProvePhase::Save && event == ProveEvent::Saved(LedgerWrite::Written)
                ==> then.lines.len() == 1 && then.lines[0] is Out && s.ledger_path.is_suffix_of(
                then.lines[0]->Out_0,
            )
        }),
{
    reveal(ProveView::step);
    let then = s.step(event);
    let name = s.names[s.at as int];
    let head = "  [dry-run] would record proof for `"@;
    let t = head + name + "` → "@ + s.ledger_path;
    assert(t =~= head + name + ("` → "@ + s.ledger_path));
    lemma_mentions(t, head, name, "` → "@ + s.ledger_path);
    assert(t.subrange(t.len() - s.ledger_path.len(), t.len() as int) =~= s.ledger_path);
    let u = "rollout prove: ledger written → "@ + s.ledger_path;
    assert(u.subrange(u.len() - s.ledger_path.len(), u.len() as int) =~= s.ledger_path);
    if s.phase == ProvePhase::Probe {
        if let ProveEvent::Probed(run) = event {
            if let ProbeRunView::Proof(entry) = run@ {
                let lines = s.proved_lines(entry);
                assert(lines[0] == proof_line(entry));
                if s.dry_run {
                    assert(lines[1] == LineView::Out(t));
                }
            }
        }
    }
}

/// The models of a probe and of a proof that was read keep what they hold.
pub proof fn law_probe_models(run: ProbeRun, r: Result<ProofEntry, RolloutError>)
    ensures
        match run {
            ProbeRun::NotSpawned(why) => run@ == ProbeRunView::NotSpawned(why@),
            ProbeRun::Failed { code, stderr } => run@ == (ProbeRunView::Failed {
                code,
                stderr: stderr@,
            }),
            ProbeRun::NotText(why) => run@ == ProbeRunView::NotText(why@),
            ProbeRun::NoProof { output, why } => run@ == (ProbeRunView::NoProof {
                output: output@,
                why: why@,
            }),
            ProbeRun::Proof(e) => run@ == ProbeRunView::Proof(e@),
        },
        r matches Ok(e) ==> proof_result(r) == Ok::<ProofView, RolloutErrorView>(e@),
        r matches Err(e) ==> proof_result(r) == Err::<ProofView, RolloutErrorView>(e@),
{
}

/// How an exit code is told by a failed probe: with its number, or as none.
pub proof fn law_code_option(code: i32)
    ensures
        code >= 0 ==> code_option(Some(code)) == "Some("@ + dec(code as nat) + ")"@,
        code < 0 ==> code_option(Some(code)) == "Some("@ + (seq!['-'] + dec(-code as nat)) + ")"@,
        code_option(None) == "None"@,
{
    if code >= 0 {
        law_minus_sign(code as nat);
    } else {
        law_minus_sign(-code as nat);
    }
}

} // verus!
