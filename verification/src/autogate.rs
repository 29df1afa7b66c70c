//! The proof ledger, and the swap gate that decides on it whether a daemon may be swapped
//! unattended.

use crate::error::{RolloutError, RolloutErrorView};
use crate::fleet::outcome;
use crate::paths::{home_file, law_under_home, text_result, under_home};
use crate::table::NameTable;
use crate::text::{
    copy_option, dec, decimal, lemma_mentions, mentions, opt_string, opt_text, same, texts,
};
use vstd::prelude::*;

verus! {

// ---------------------------------------------------------------------------
// Proofs
// ---------------------------------------------------------------------------

/// What a changeover probe measured for one daemon.
#[derive(Debug)]
pub struct ProofEntry {
    /// The daemon's name.
    pub daemon: String,
    /// The hash of the binary that was measured.
    pub binary_hash: String,
    /// For how long nobody listened during the swap, in milliseconds.
    pub deafness_ms: u64,
    /// How many bus events were missed during the swap.
    pub events_missed_window: u64,
    /// When the proof was recorded.
    pub recorded_at: String,
    /// How the daemon was swapped.
    pub strategy: Option<String>,
}

/// The model of a [`ProofEntry`].
#[verifier::ext_equal]
pub struct ProofView {
    pub daemon: Seq<char>,
    pub binary_hash: Seq<char>,
    pub deafness_ms: nat,
    pub events_missed_window: nat,
    pub recorded_at: Seq<char>,
    pub strategy: Option<Seq<char>>,
}

impl View for ProofEntry {
    type V = ProofView;

    open spec fn view(&self) -> ProofView {
        ProofView {
            daemon: self.daemon@,
            binary_hash: self.binary_hash@,
            deafness_ms: self.deafness_ms as nat,
            events_missed_window: self.events_missed_window as nat,
            recorded_at: self.recorded_at@,
            strategy: opt_string(self.strategy),
        }
    }
}

impl Clone for ProofEntry {
    fn clone(&self) -> (r: Self)
        ensures
            r@ == self@,
    {
        ProofEntry {
            daemon: self.daemon.clone(),
            binary_hash: self.binary_hash.clone(),
            deafness_ms: self.deafness_ms,
            events_missed_window: self.events_missed_window,
            recorded_at: self.recorded_at.clone(),
            strategy: copy_option(&self.strategy),
        }
    }
}

// ---------------------------------------------------------------------------
// The ledger
// ---------------------------------------------------------------------------

/// What came of reading a ledger file.
#[derive(Debug)]
pub enum LedgerRead {
    /// There is no such file.
    Missing,
    /// The file could not be read, and why.
    Unreadable(String),
    /// The file was read but is not a ledger, and why.
    Unparseable(String),
    /// The entries of the file under their keys, in its order.
    Parsed(Vec<(String, ProofEntry)>),
}

/// What came of writing a ledger file.
#[derive(Debug)]
pub enum LedgerWrite {
    /// Its directory could not be created, and why.
    NoDirectory { dir: String, why: String },
    /// The ledger could not be turned into a document, and why.
    NotSerialised(String),
    /// The file could not be written, and why.
    NotWritten(String),
    /// The file was written.
    Written,
}

/// The most recent proof of each daemon.
pub struct ProofLedger {
    entries: NameTable<ProofEntry>,
}

impl View for ProofLedger {
    type V = Map<Seq<char>, ProofView>;

    closed spec fn view(&self) -> Map<Seq<char>, ProofView> {
        self.entries@.map_values(|e: ProofEntry| e@)
    }
}

/// Entries by key; of two entries with one key the later counts.
pub open spec fn keyed(entries: Seq<(String, ProofEntry)>) -> Map<Seq<char>, ProofView>
    decreases entries.len(),
{
    if entries.len() == 0 {
        Map::empty()
    } else {
        keyed(entries.drop_last()).insert(entries.last().0@, entries.last().1@)
    }
}

/// Whether the list holds each entry of the ledger under its key, each key once, and nothing else.
pub open spec fn lists(
    entries: Seq<(String, ProofEntry)>,
    ledger: Map<Seq<char>, ProofView>,
) -> bool {
    &&& keyed(entries) == ledger
    &&& forall|i: int, j: int|
        0 <= i < entries.len() && 0 <= j < entries.len() && (#[trigger] entries[i]).0@ == (
        #[trigger] entries[j]).0@ ==> i == j
}

/// What loading a ledger from `path` gives; a file that does not exist is an empty ledger.
pub open spec fn ledger_loaded(path: Seq<char>, read: LedgerRead) -> Result<
    Map<Seq<char>, ProofView>,
    RolloutErrorView,
> {
    match read {
        LedgerRead::Missing => Ok(Map::empty()),
        LedgerRead::Unreadable(why) => Err(
            RolloutErrorView::FleetConfig("cannot read "@ + path + ": "@ + why@),
        ),
        LedgerRead::Unparseable(why) => Err(
            RolloutErrorView::FleetConfig("proofs.json parse error at "@ + path + ": "@ + why@),
        ),
        LedgerRead::Parsed(entries) => Ok(keyed(entries@)),
    }
}

/// What saving a ledger to `path` gives.
pub open spec fn ledger_saved(path: Seq<char>, write: LedgerWrite) -> Result<(), RolloutErrorView> {
    match write {
        LedgerWrite::NoDirectory { dir, why } => Err(
            RolloutErrorView::FleetConfig("cannot create dir "@ + dir@ + ": "@ + why@),
        ),
        LedgerWrite::NotSerialised(why) => Err(RolloutErrorView::Json(why@)),
        LedgerWrite::NotWritten(why) => Err(
            RolloutErrorView::FleetConfig("cannot write "@ + path + ": "@ + why@),
        ),
        LedgerWrite::Written => Ok(()),
    }
}

/// A ledger or an error, as models.
pub open spec fn ledger_result(r: Result<ProofLedger, RolloutError>) -> Result<
    Map<Seq<char>, ProofView>,
    RolloutErrorView,
> {
    match r {
        Ok(l) => Ok(l@),
        Err(e) => Err(e@),
    }
}

impl Default for ProofLedger {
    fn default() -> (r: Self)
        ensures
            r@ == Map::<Seq<char>, ProofView>::empty(),
    {
        let r = ProofLedger { entries: NameTable::new() };
        assert(r@ =~= Map::<Seq<char>, ProofView>::empty());
        r
    }
}

impl ProofLedger {
    /// The ledger that was read from `path`, or why there is none.
    pub fn load(path: &str, read: LedgerRead) -> (r: Result<ProofLedger, RolloutError>)
        ensures
            ledger_result(r) == ledger_loaded(path@, read),
    {
        match read {
            LedgerRead::Missing => Ok(ProofLedger::default()),
            LedgerRead::Unreadable(why) => Err(
                RolloutError::FleetConfig(
                    "cannot read ".to_owned().concat(path).concat(": ").concat(why.as_str()),
                ),
            ),
            LedgerRead::Unparseable(why) => Err(
                RolloutError::FleetConfig(
                    "proofs.json parse error at ".to_owned().concat(path).concat(": ").concat(
                        why.as_str(),
                    ),
                ),
            ),
            LedgerRead::Parsed(list) => {
                let mut entries: NameTable<ProofEntry> = NameTable::new();
                let n: usize = list.len();
                let mut i: usize = 0;
                assert(entries@.map_values(|e: ProofEntry| e@) =~= keyed(list@.take(0)));
                while i < n
                    invariant
                        n == list@.len(),
                        i <= n,
                        entries@.map_values(|e: ProofEntry| e@) == keyed(list@.take(i as int)),
                    decreases n - i,
                {
                    let name = list[i].0.clone();
                    let entry = list[i].1.clone();
                    let ghost before = entries@;
                    proof {
                        assert(list@.take(i + 1).drop_last() =~= list@.take(i as int));
                        assert(list@.take(i + 1).last() == list@[i as int]);
                        assert(before.insert(name@, entry).map_values(|e: ProofEntry| e@)
                            =~= before.map_values(|e: ProofEntry| e@).insert(name@, entry@));
                    }
                    entries = entries.insert(name, entry);
                    i = i + 1;
                }
                assert(list@.take(n as int) =~= list@);
                Ok(ProofLedger { entries })
            },
        }
    }

    /// Whether the ledger was saved to `path`, or why it was not.
    pub fn save(path: &str, write: LedgerWrite) -> (r: Result<(), RolloutError>)
        ensures
            outcome(r) == ledger_saved(path@, write),
    {
        match write {
            LedgerWrite::NoDirectory { dir, why } => Err(
                RolloutError::FleetConfig(
                    "cannot create dir ".to_owned().concat(dir.as_str()).concat(": ").concat(
                        why.as_str(),
                    ),
                ),
            ),
            LedgerWrite::NotSerialised(why) => Err(RolloutError::Json(why)),
            LedgerWrite::NotWritten(why) => Err(
                RolloutError::FleetConfig(
                    "cannot write ".to_owned().concat(path).concat(": ").concat(why.as_str()),
                ),
            ),
            LedgerWrite::Written => Ok(()),
        }
    }

    /// Record a proof, in place of the daemon's earlier one.
    pub fn upsert(&mut self, entry: ProofEntry)
        ensures
            final(self)@ == old(self)@.insert(entry@.daemon, entry@),
    {
        let name = entry.daemon.clone();
        let ghost before = self.entries@;
        let mut entries: NameTable<ProofEntry> = NameTable::new();
        std::mem::swap(&mut entries, &mut self.entries);
        proof {
            assert(before.insert(name@, entry).map_values(|e: ProofEntry| e@) =~= before.map_values(
                |e: ProofEntry| e@,
            ).insert(name@, entry@));
        }
        self.entries = entries.insert(name, entry);
    }

    /// The proof of a daemon, if there is one.
    pub fn get(&self, daemon: &str) -> (r: Option<&ProofEntry>)
        ensures
            match r {
                Some(e) => self@.contains_key(daemon@) && e@ == self@[daemon@],
                None => !self@.contains_key(daemon@),
            },
    {
        self.entries.get(daemon)
    }

    /// The names that have a proof, each once, in no particular order.
    pub fn names(&self) -> (r: Vec<String>)
        ensures
            texts(r@).no_duplicates(),
            forall|k: Seq<char>| texts(r@).contains(k) <==> self@.contains_key(k),
    {
        self.entries.names()
    }

    /// The entries that are written to a ledger file, in no particular order.
    pub fn entries(&self) -> (r: Vec<(String, ProofEntry)>)
        ensures
            lists(r@, self@),
    {
        let names = self.names();
        let n: usize = names.len();
        let mut r: Vec<(String, ProofEntry)> = Vec::new();
        let mut i: usize = 0;
        while i < n
            invariant
                n == names@.len(),
                i <= n,
                r@.len() == i,
                forall|k: Seq<char>| texts(names@).contains(k) <==> self@.contains_key(k),
                forall|j: int|
                    0 <= j < i ==> (#[trigger] r@[j]).0@ == names@[j]@ && self@.contains_key(
                        r@[j].0@,
                    ) && r@[j].1@ == self@[r@[j].0@],
            decreases n - i,
        {
            proof {
                assert(texts(names@)[i as int] == names@[i as int]@);
                assert(texts(names@).contains(names@[i as int]@));
            }
            match self.get(names[i].as_str()) {
                Some(entry) => {
                    r.push((names[i].clone(), entry.clone()));
                },
                None => {},
            }
            i = i + 1;
        }
        proof {
            lemma_keyed(self@, r@);
            assert forall|k: Seq<char>| #[trigger] self@.contains_key(k) implies keyed(
                r@,
            ).contains_key(k) by {
                let i = choose|i: int| 0 <= i < texts(names@).len() && texts(names@)[i] == k;
                assert(r@[i].0@ == k);
            }
            assert(keyed(r@) =~= self@);
            assert forall|i: int, j: int|
                0 <= i < r@.len() && 0 <= j < r@.len() && (#[trigger] r@[i]).0@ == (
                #[trigger] r@[j]).0@ implies i == j by {
                assert(texts(names@)[i] == texts(names@)[j]);
            }
        }
        r
    }
}

/// `~/.config/rollout/proofs.json`.
pub fn default_proofs_path(home: Option<&str>) -> (r: Result<String, RolloutError>)
    ensures
        text_result(r) == under_home(opt_text(home), ".config/rollout/proofs.json"@),
{
    home_file(home, ".config/rollout/proofs.json")
}

/// The path of the ledger: the one that was given, or the default.
pub open spec fn ledger_place(path: Option<Seq<char>>, home: Option<Seq<char>>) -> Result<
    Seq<char>,
    RolloutErrorView,
> {
    match path {
        Some(p) => Ok(p),
        None => under_home(home, ".config/rollout/proofs.json"@),
    }
}

/// The path of the ledger: the one that was given, or the default.
pub fn ledger_path(path: Option<&str>, home: Option<&str>) -> (r: Result<String, RolloutError>)
    ensures
        text_result(r) == ledger_place(opt_text(path), opt_text(home)),
{
    match path {
        Some(p) => Ok(p.to_owned()),
        None => default_proofs_path(home),
    }
}

// ---------------------------------------------------------------------------
// The swap gate
// ---------------------------------------------------------------------------

/// What the swap gate tolerates.
#[derive(Debug, Clone, Copy)]
pub struct GateConfig {
    /// How many missed events are allowed.
    pub max_events_lost: u64,
    /// How long nobody may listen, in milliseconds; without it there is no limit.
    pub max_deafness_ms: Option<u64>,
}

impl Default for GateConfig {
    fn default() -> (r: Self)
        ensures
            r == default_gate(),
    {
        GateConfig { max_events_lost: 0, max_deafness_ms: None }
    }
}

/// The swap gate of an unattended run: no missed events, any deafness.
pub open spec fn default_gate() -> GateConfig {
    GateConfig { max_events_lost: 0, max_deafness_ms: None }
}

/// What the swap gate says of one daemon.
#[derive(Debug, Clone, PartialEq, Eq)]
pub enum GateVerdict {
    /// Its proof fits the binary and is good enough.
    Allow,
    /// It may not be swapped unattended, and why.
    Refuse { reason: String },
}

/// The model of a [`GateVerdict`].
#[verifier::ext_equal]
pub enum VerdictView {
    Allow,
    Refuse { reason: Seq<char> },
}

impl View for GateVerdict {
    type V = VerdictView;

    open spec fn view(&self) -> VerdictView {
        match *self {
            GateVerdict::Allow => VerdictView::Allow,
            GateVerdict::Refuse { reason } => VerdictView::Refuse { reason: reason@ },
        }
    }
}

/// What the swap gate says of `daemon`, whose binary now has the hash `hash`.
pub open spec fn gate_verdict(
    daemon: Seq<char>,
    hash: Seq<char>,
    ledger: Map<Seq<char>, ProofView>,
    config: GateConfig,
) -> VerdictView {
    if !ledger.contains_key(daemon) {
        VerdictView::Refuse {
            reason: "no proof found for daemon `"@ + daemon
                + "`; run `changeover probe` first"@,
        }
    } else {
        let proof_entry = ledger[daemon];
        if proof_entry.binary_hash != hash {
            VerdictView::Refuse {
                reason: "stale proof: proof binary_hash="@ + proof_entry.binary_hash
                    + " but current binary_hash="@ + hash
                    + "; re-run `changeover probe` after the latest build"@,
            }
        } else if proof_entry.events_missed_window > config.max_events_lost {
            VerdictView::Refuse {
                reason: "events_missed_window="@ + dec(proof_entry.events_missed_window)
                    + " exceeds max_events_lost="@ + dec(config.max_events_lost as nat)
                    + "; swap was not loss-free"@,
            }
        } else {
            match config.max_deafness_ms {
                Some(max) if proof_entry.deafness_ms > max => VerdictView::Refuse {
                    reason: "deafness_ms="@ + dec(proof_entry.deafness_ms)
                        + " exceeds max_deafness_ms="@ + dec(max as nat),
                },
                _ => VerdictView::Allow,
            }
        }
    }
}

/// Whether a daemon may be swapped unattended.
pub fn gate(
    daemon: &str,
    current_binary_hash: &str,
    ledger: &ProofLedger,
    config: &GateConfig,
) -> (r: GateVerdict)
    ensures
        r@ == gate_verdict(daemon@, current_binary_hash@, ledger@, *config),
{
    match ledger.get(daemon) {
        None => GateVerdict::Refuse {
            reason: "no proof found for daemon `".to_owned().concat(daemon).concat(
                "`; run `changeover probe` first",
            ),
        },
        Some(proof_entry) => {
            if !same(proof_entry.binary_hash.as_str(), current_binary_hash) {
                return GateVerdict::Refuse {
                    reason: "stale proof: proof binary_hash=".to_owned().concat(
                        proof_entry.binary_hash.as_str(),
                    ).concat(" but current binary_hash=").concat(current_binary_hash).concat(
                        "; re-run `changeover probe` after the latest build",
                    ),
                };
            }
            if proof_entry.events_missed_window > config.max_events_lost {
                return GateVerdict::Refuse {
                    reason: "events_missed_window=".to_owned().concat(
                        decimal(proof_entry.events_missed_window as u128).as_str(),
                    ).concat(" exceeds max_events_lost=").concat(
                        decimal(config.max_events_lost as u128).as_str(),
                    ).concat("; swap was not loss-free"),
                };
            }
            match config.max_deafness_ms {
                Some(max) => {
                    if proof_entry.deafness_ms > max {
                        return GateVerdict::Refuse {
                            reason: "deafness_ms=".to_owned().concat(
                                decimal(proof_entry.deafness_ms as u128).as_str(),
                            ).concat(" exceeds max_deafness_ms=").concat(
                                decimal(max as u128).as_str(),
                            ),
                        };
                    }
                },
                None => {},
            }
            GateVerdict::Allow
        },
    }
}

/// What the swap gate of an unattended run says of `daemon`, whose binary is installed at
/// `path` and has the hash `hash`; a binary whose hash is not known is refused.
pub open spec fn installed_verdict(
    daemon: Seq<char>,
    path: Seq<char>,
    hash: Option<Seq<char>>,
    ledger: Map<Seq<char>, ProofView>,
) -> VerdictView {
    match hash {
        Some(h) => gate_verdict(daemon, h, ledger, default_gate()),
        None => VerdictView::Refuse { reason: "cannot hash the installed binary "@ + path },
    }
}

/// Whether a daemon may be swapped by an unattended run.
pub fn gate_installed(
    daemon: &str,
    path: &str,
    hash: &Option<String>,
    ledger: &ProofLedger,
) -> (r: GateVerdict)
    ensures
        r@ == installed_verdict(daemon@, path@, opt_string(*hash), ledger@),
{
    match hash {
        Some(h) => gate(daemon, h.as_str(), ledger, &GateConfig::default()),
        None => GateVerdict::Refuse {
            reason: "cannot hash the installed binary ".to_owned().concat(path),
        },
    }
}

// ---------------------------------------------------------------------------
// Laws
// ---------------------------------------------------------------------------

/// The swap gate allows a daemon exactly when it has a proof, for a binary with the given hash,
/// within both limits.
pub proof fn law_gate_allows(
    daemon: Seq<char>,
    hash: Seq<char>,
    ledger: Map<Seq<char>, ProofView>,
    config: GateConfig,
)
    ensures
        gate_verdict(daemon, hash, ledger, config) is Allow <==> {
            &&& ledger.contains_key(daemon)
            &&& ledger[daemon].binary_hash == hash
            &&& ledger[daemon].events_missed_window <= config.max_events_lost
            &&& config.max_deafness_ms matches Some(max) ==> ledger[daemon].deafness_ms <= max
        },
{
}

/// Recording a proof replaces the daemon's earlier one: whatever the ledger held, the swap gate
/// then refuses every other binary of that daemon.
pub proof fn law_new_proof_replaces(
    ledger: Map<Seq<char>, ProofView>,
    entry: ProofView,
    hash: Seq<char>,
    config: GateConfig,
)
    requires
        hash != entry.binary_hash,
    ensures
        ledger.insert(entry.daemon, entry)[entry.daemon] == entry,
        gate_verdict(entry.daemon, hash, ledger.insert(entry.daemon, entry), config) is Refuse,
{
}

/// Recording a proof of one daemon changes nothing for the others.
pub proof fn law_other_proofs_stay(
    ledger: Map<Seq<char>, ProofView>,
    entry: ProofView,
    other: Seq<char>,
    hash: Seq<char>,
    config: GateConfig,
)
    requires
        other != entry.daemon,
    ensures
        gate_verdict(other, hash, ledger.insert(entry.daemon, entry), config) == gate_verdict(
            other,
            hash,
            ledger,
            config,
        ),
{
}

/// A looser gate allows whatever a stricter one allows.
pub proof fn law_gate_monotone(
    daemon: Seq<char>,
    hash: Seq<char>,
    ledger: Map<Seq<char>, ProofView>,
    strict: GateConfig,
    loose: GateConfig,
)
    requires
        strict.max_events_lost <= loose.max_events_lost,
        loose.max_deafness_ms matches Some(l) ==> (strict.max_deafness_ms matches Some(s) && s
            <= l),
        gate_verdict(daemon, hash, ledger, strict) is Allow,
    ensures
        gate_verdict(daemon, hash, ledger, loose) is Allow,
{
}

proof fn lemma_keyed(ledger: Map<Seq<char>, ProofView>, entries: Seq<(String, ProofEntry)>)
    requires
        forall|i: int|
            0 <= i < entries.len() ==> ledger.contains_key((#[trigger] entries[i]).0@)
                && ledger[entries[i].0@] == entries[i].1@,
    ensures
        forall|k: Seq<char>| #[trigger]
            keyed(entries).contains_key(k) ==> ledger.contains_key(k) && keyed(entries)[k]
                == ledger[k],
        forall|i: int|
            0 <= i < entries.len() ==> keyed(entries).contains_key((#[trigger] entries[i]).0@),
    decreases entries.len(),
{
    if entries.len() > 0 {
        let before = entries.drop_last();
        assert forall|i: int| 0 <= i < before.len() implies ledger.contains_key(
            (#[trigger] before[i]).0@,
        ) && ledger[before[i].0@] == before[i].1@ by {
            assert(before[i] == entries[i]);
        }
        lemma_keyed(ledger, before);
        let last = entries[entries.len() - 1];
        assert(ledger.contains_key(last.0@) && ledger[last.0@] == last.1@);
        assert(keyed(entries) == keyed(before).insert(last.0@, last.1@));
        assert forall|k: Seq<char>| #[trigger] keyed(entries).contains_key(
            k,
        ) implies ledger.contains_key(k) && keyed(entries)[k] == ledger[k] by {
            if k != last.0@ {
                assert(keyed(before).contains_key(k));
            }
        }
        assert forall|i: int| 0 <= i < entries.len() implies keyed(entries).contains_key(
            (#[trigger] entries[i]).0@,
        ) by {
            if i < before.len() {
                assert(before[i] == entries[i]);
            }
        }
    }
}

/// The entries of a list with their keys, as models and without their order.
pub open spec fn entry_set(entries: Seq<(String, ProofEntry)>) -> Set<(Seq<char>, ProofView)> {
    entries.map_values(|e: (String, ProofEntry)| (e.0@, e.1@)).to_set()
}

proof fn lemma_in_entry_set(entries: Seq<(String, ProofEntry)>, i: int)
    requires
        0 <= i < entries.len(),
    ensures
        entry_set(entries).contains((entries[i].0@, entries[i].1@)),
{
    let pairs = entries.map_values(|e: (String, ProofEntry)| (e.0@, e.1@));
    assert(pairs[i] == (entries[i].0@, entries[i].1@));
}

proof fn lemma_of_entry_set(
    entries: Seq<(String, ProofEntry)>,
    pair: (Seq<char>, ProofView),
) -> (i: int)
    requires
        entry_set(entries).contains(pair),
    ensures
        0 <= i < entries.len(),
        pair == (entries[i].0@, entries[i].1@),
{
    let pairs = entries.map_values(|e: (String, ProofEntry)| (e.0@, e.1@));
    choose|i: int| 0 <= i < pairs.len() && pairs[i] == pair
}

proof fn lemma_listed(
    entries: Seq<(String, ProofEntry)>,
    ledger: Map<Seq<char>, ProofView>,
    i: int,
)
    requires
        lists(entries, ledger),
        0 <= i < entries.len(),
    ensures
        ledger.contains_key(entries[i].0@),
        ledger[entries[i].0@] == entries[i].1@,
    decreases entries.len(),
{
    let before = entries.drop_last();
    if i < before.len() {
        assert forall|a: int, b: int|
            0 <= a < before.len() && 0 <= b < before.len() && (#[trigger] before[a]).0@ == (
            #[trigger] before[b]).0@ implies a == b by {
            assert(entries[a].0@ == entries[b].0@);
        }
        lemma_listed(before, keyed(before), i);
        assert(before[i] == entries[i]);
        assert(entries[i].0@ != entries[entries.len() - 1].0@);
    }
}

proof fn lemma_keys_come_from_entries(entries: Seq<(String, ProofEntry)>, k: Seq<char>) -> (i: int)
    requires
        keyed(entries).contains_key(k),
    ensures
        0 <= i < entries.len(),
        entries[i].0@ == k,
    decreases entries.len(),
{
    if entries.last().0@ == k {
        entries.len() - 1
    } else {
        lemma_keys_come_from_entries(entries.drop_last(), k)
    }
}

/// A ledger that was written reads back as it was: a file that holds the entries which
/// [`ProofLedger::entries`] gives, in whatever order they are read, loads as that ledger.
pub proof fn law_written_ledger_reads_back(
    ledger: Map<Seq<char>, ProofView>,
    written: Seq<(String, ProofEntry)>,
    read: Vec<(String, ProofEntry)>,
    path: Seq<char>,
)
    requires
        lists(written, ledger),
        entry_set(read@) == entry_set(written),
    ensures
        ledger_loaded(path, LedgerRead::Parsed(read)) == Ok::<
            Map<Seq<char>, ProofView>,
            RolloutErrorView,
        >(ledger),
{
    assert forall|i: int| 0 <= i < read@.len() implies ledger.contains_key(
        (#[trigger] read@[i]).0@,
    ) && ledger[read@[i].0@] == read@[i].1@ by {
        lemma_in_entry_set(read@, i);
        let j = lemma_of_entry_set(written, (read@[i].0@, read@[i].1@));
        lemma_listed(written, ledger, j);
    }
    lemma_keyed(ledger, read@);
    assert forall|k: Seq<char>| #[trigger] ledger.contains_key(k) implies keyed(
        read@,
    ).contains_key(k) by {
        let j = lemma_keys_come_from_entries(written, k);
        lemma_in_entry_set(written, j);
        let i = lemma_of_entry_set(read@, (written[j].0@, written[j].1@));
        assert(keyed(read@).contains_key(read@[i].0@));
    }
    assert(keyed(read@) =~= ledger);
}

/// A path that is given goes before the default one, which lies under the home directory.
pub proof fn law_ledger_place(given: Seq<char>, home: Option<Seq<char>>)
    ensures
        ledger_place(Some(given), home) == Ok::<Seq<char>, RolloutErrorView>(given),
        home is None ==> ledger_place(None, home) is Err,
        home matches Some(h) ==> (ledger_place(None, home) matches Ok(p) && h.is_prefix_of(p)
            && ".config/rollout/proofs.json"@.is_suffix_of(p) && p.len() <= h.len() + 1
            + ".config/rollout/proofs.json"@.len()),
{
    reveal_strlit("/");
    reveal_strlit(".config/rollout/proofs.json");
    assert(".config/rollout/proofs.json"@[0] == '.');
    assert("/"@[0] == '/');
    law_under_home(home, ".config/rollout/proofs.json"@);
}

/// An unattended run may swap a daemon exactly when the hash of its installed binary is known, the
/// ledger has a proof of the daemon for just that binary, and the proof shows no missed event,
/// however long nobody listened. Where the hash is not known the refusal names the binary.
pub proof fn law_unattended_gate(
    daemon: Seq<char>,
    path: Seq<char>,
    hash: Option<Seq<char>>,
    ledger: Map<Seq<char>, ProofView>,
)
    ensures
        installed_verdict(daemon, path, hash, ledger) is Allow <==> {
            &&& hash is Some
            &&& ledger.contains_key(daemon)
            &&& ledger[daemon].binary_hash == hash->Some_0
            &&& ledger[daemon].events_missed_window == 0
        },
        hash is None ==> (installed_verdict(daemon, path, hash, ledger) matches
            VerdictView::Refuse { reason } && path.is_suffix_of(reason)),
{
    if hash is None {
        let reason = "cannot hash the installed binary "@ + path;
        assert(reason.subrange(reason.len() - path.len(), reason.len() as int) =~= path);
    }
}

/// Why the swap gate refuses a daemon: the lack of a proof goes before another binary, that before
/// missed events, and those before deafness; and each is told with its values.
pub proof fn law_refusal_is_told(
    daemon: Seq<char>,
    hash: Seq<char>,
    ledger: Map<Seq<char>, ProofView>,
    config: GateConfig,
)
    ensures
        gate_verdict(daemon, hash, ledger, config) matches VerdictView::Refuse { reason } ==> {
            if !ledger.contains_key(daemon) {
                ("no proof found for daemon `"@ + daemon + "`"@).is_prefix_of(reason)
            } else if ledger[daemon].binary_hash != hash {
                "stale proof: "@.is_prefix_of(reason) && mentions(
                    reason,
                    "proof binary_hash="@ + ledger[daemon].binary_hash,
                ) && mentions(reason, "current binary_hash="@ + hash)
            } else if ledger[daemon].events_missed_window > config.max_events_lost {
                ("events_missed_window="@ + dec(
                    ledger[daemon].events_missed_window,
                )).is_prefix_of(reason) && mentions(
                    reason,
                    "max_events_lost="@ + dec(config.max_events_lost as nat),
                )
            } else {
                ("deafness_ms="@ + dec(ledger[daemon].deafness_ms)).is_prefix_of(reason) && (
                config.max_deafness_ms matches Some(max) && ("max_deafness_ms="@ + dec(
                    max as nat,
                )).is_suffix_of(reason))
            }
        },
{
    if let VerdictView::Refuse { reason } = gate_verdict(daemon, hash, ledger, config) {
        if !ledger.contains_key(daemon) {
            reveal_strlit("`; run `changeover probe` first");
            reveal_strlit("`");
            let head = "no proof found for daemon `"@ + daemon + "`"@;
            assert(reason.take(head.len() as int) =~= head);
        } else {
            let entry = ledger[daemon];
            if entry.binary_hash != hash {
                let start = "stale proof: proof binary_hash="@;
                let mid = " but current binary_hash="@;
                let tail = "; re-run `changeover probe` after the latest build"@;
                reveal_strlit("stale proof: proof binary_hash=");
                reveal_strlit("stale proof: ");
                reveal_strlit("proof binary_hash=");
                reveal_strlit(" but current binary_hash=");
                reveal_strlit("current binary_hash=");
                assert(reason.take("stale proof: "@.len() as int) =~= "stale proof: "@);
                let first = "proof binary_hash="@ + entry.binary_hash;
                assert(reason =~= "stale proof: "@ + first + (mid + hash + tail));
                lemma_mentions(reason, "stale proof: "@, first, mid + hash + tail);
                let second = "current binary_hash="@ + hash;
                let before = start + entry.binary_hash + mid.take(5);
                assert(reason =~= before + second + tail);
                lemma_mentions(reason, before, second, tail);
            } else if entry.events_missed_window > config.max_events_lost {
                let head = "events_missed_window="@ + dec(entry.events_missed_window);
                let mid = " exceeds max_events_lost="@;
                let tail = "; swap was not loss-free"@;
                assert(reason.take(head.len() as int) =~= head);
                reveal_strlit(" exceeds max_events_lost=");
                reveal_strlit("max_events_lost=");
                let part = "max_events_lost="@ + dec(config.max_events_lost as nat);
                assert(reason =~= (head + mid.take(9)) + part + tail);
                lemma_mentions(reason, head + mid.take(9), part, tail);
            } else {
                let max = config.max_deafness_ms->Some_0;
                let head = "deafness_ms="@ + dec(entry.deafness_ms);
                assert(reason.take(head.len() as int) =~= head);
                reveal_strlit(" exceeds max_deafness_ms=");
                reveal_strlit("max_deafness_ms=");
                let part = "max_deafness_ms="@ + dec(max as nat);
                assert(reason.subrange(reason.len() - part.len(), reason.len() as int) =~= part);
            }
        }
    }
}

/// Of the entries of a ledger file with one key the last counts, as it was written.
pub proof fn law_last_entry_counts(entries: Seq<(String, ProofEntry)>, i: int)
    requires
        0 <= i < entries.len(),
        forall|j: int| i < j < entries.len() ==> (#[trigger] entries[j]).0@ != entries[i].0@,
    ensures
        keyed(entries).contains_key(entries[i].0@),
        keyed(entries)[entries[i].0@] == entries[i].1@,
    decreases entries.len(),
{
    let before = entries.drop_last();
    if i < before.len() {
        assert(before[i] == entries[i]);
        assert forall|j: int| i < j < before.len() implies (#[trigger] before[j]).0@
            != before[i].0@ by {
            assert(entries[j].0@ != entries[i].0@);
        }
        law_last_entry_counts(before, i);
        assert(entries[entries.len() - 1].0@ != entries[i].0@);
    }
}

/// A ledger holds just the keys of its file.
pub proof fn law_ledger_keys(entries: Seq<(String, ProofEntry)>, k: Seq<char>)
    ensures
        keyed(entries).contains_key(k) ==> exists|i: int|
            0 <= i < entries.len() && (#[trigger] entries[i]).0@ == k,
{
    if keyed(entries).contains_key(k) {
        let i = lemma_keys_come_from_entries(entries, k);
        assert(entries[i].0@ == k);
    }
}

/// A file that does not exist loads as an empty ledger. One that cannot be read or understood is an
/// error that names the file and why.
pub proof fn law_ledger_loads(path: Seq<char>, read: LedgerRead)
    ensures
        match read {
            LedgerRead::Missing => ledger_loaded(path, read) matches Ok(ledger) && forall|
                k: Seq<char>,
            |
                !ledger.contains_key(k),
            LedgerRead::Unreadable(why) => ledger_loaded(path, read) matches Err(e)
                && e is FleetConfig && mentions(e->FleetConfig_0, path) && why@.is_suffix_of(
                e->FleetConfig_0,
            ),
            LedgerRead::Unparseable(why) => ledger_loaded(path, read) matches Err(e)
                && e is FleetConfig && mentions(e->FleetConfig_0, path) && why@.is_suffix_of(
                e->FleetConfig_0,
            ),
            LedgerRead::Parsed(entries) => ledger_loaded(path, read) is Ok,
        },
{
    match read {
        LedgerRead::Unreadable(why) => {
            lemma_path_and_why("cannot read "@, path, why@);
        },
        LedgerRead::Unparseable(why) => {
            lemma_path_and_why("proofs.json parse error at "@, path, why@);
        },
        _ => {},
    }
}

proof fn lemma_path_and_why(head: Seq<char>, path: Seq<char>, why: Seq<char>)
    ensures
        mentions(head + path + ": "@ + why, path),
        why.is_suffix_of(head + path + ": "@ + why),
{
    let t = head + path + ": "@ + why;
    assert(t =~= head + path + (": "@ + why));
    lemma_mentions(t, head, path, ": "@ + why);
    assert(t.subrange(t.len() - why.len(), t.len() as int) =~= why);
}

/// A ledger is saved exactly where its file was written. Otherwise the error says why, and which
/// directory or file it was.
pub proof fn law_ledger_saves(path: Seq<char>, write: LedgerWrite)
    ensures
        ledger_saved(path, write) is Ok <==> write is Written,
        ledger_saved(path, write) matches Err(e) ==> match write {
            LedgerWrite::NoDirectory { dir, why } => e is FleetConfig && mentions(
                e->FleetConfig_0,
                dir@,
            ) && why@.is_suffix_of(e->FleetConfig_0),
            LedgerWrite::NotSerialised(why) => e == RolloutErrorView::Json(why@),
            LedgerWrite::NotWritten(why) => e is FleetConfig && mentions(e->FleetConfig_0, path)
                && why@.is_suffix_of(e->FleetConfig_0),
            LedgerWrite::Written => false,
        },
{
    match write {
        LedgerWrite::NoDirectory { dir, why } => {
            lemma_path_and_why("cannot create dir "@, dir@, why@);
        },
        LedgerWrite::NotWritten(why) => {
            lemma_path_and_why("cannot write "@, path, why@);
        },
        _ => {},
    }
}

/// The model of a proof keeps each of its fields.
pub proof fn law_proof_model(e: ProofEntry)
    ensures
        e@.daemon == e.daemon@ && e@.binary_hash == e.binary_hash@ && e@.recorded_at
            == e.recorded_at@,
        e@.deafness_ms == e.deafness_ms && e@.events_missed_window == e.events_missed_window,
        e@.strategy is Some <==> e.strategy is Some,
        e.strategy matches Some(s) ==> e@.strategy == Some(s@),
{
}

/// The models of a ledger's result and of a verdict keep what they hold.
pub proof fn law_ledger_models(r: Result<ProofLedger, RolloutError>, v: GateVerdict)
    ensures
        r matches Ok(l) ==> ledger_result(r) == Ok::<Map<Seq<char>, ProofView>, RolloutErrorView>(
            l@,
        ),
        r matches Err(e) ==> ledger_result(r) == Err::<
            Map<Seq<char>, ProofView>,
            RolloutErrorView,
        >(e@),
        match v {
            GateVerdict::Allow => v@ is Allow,
            GateVerdict::Refuse { reason } => v@ == (VerdictView::Refuse { reason: reason@ }),
        },
{
}

} // verus!
