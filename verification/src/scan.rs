//! The scan of running binaries, and the stale daemons in it.

use crate::error::{RolloutError, RolloutErrorView};
use crate::text::{
    law_affixes, lemma_mentions, lemma_texts_push, mentions, opt_string, opt_text, same,
    strip_suffix, texts, without_suffix,
};
use vstd::prelude::*;

verus! {

// ---------------------------------------------------------------------------
// Entries
// ---------------------------------------------------------------------------

/// One running process of the scan.
#[derive(Debug)]
pub struct BinstaleEntry {
    /// Its process id.
    pub pid: u32,
    /// Its name, which is the daemon's name.
    pub comm: String,
    /// The path of its executable; may end in ` (deleted)`.
    pub exe_path: String,
    /// `fresh`, or how the process is stale.
    pub verdict: String,
}

/// The model of a [`BinstaleEntry`].
#[verifier::ext_equal]
pub struct EntryView {
    pub pid: u32,
    pub comm: Seq<char>,
    pub exe_path: Seq<char>,
    pub verdict: Seq<char>,
}

impl View for BinstaleEntry {
    type V = EntryView;

    open spec fn view(&self) -> EntryView {
        EntryView {
            pid: self.pid,
            comm: self.comm@,
            exe_path: self.exe_path@,
            verdict: self.verdict@,
        }
    }
}

impl Clone for BinstaleEntry {
    fn clone(&self) -> (r: Self)
        ensures
            r@ == self@,
    {
        BinstaleEntry {
            pid: self.pid,
            comm: self.comm.clone(),
            exe_path: self.exe_path.clone(),
            verdict: self.verdict.clone(),
        }
    }
}

impl EntryView {
    /// Whether the process runs anything but the current binary.
    pub open spec fn is_stale(self) -> bool {
        self.verdict != "fresh"@
    }

    /// Where the daemon's binary is installed: the path of the executable, also where the file
    /// that the process runs was deleted.
    pub open spec fn installed_path(self) -> Seq<char> {
        match without_suffix(self.exe_path, " (deleted)"@) {
            Some(path) => path,
            None => self.exe_path,
        }
    }
}

impl BinstaleEntry {
    /// Whether the process runs anything but the current binary.
    pub fn is_stale(&self) -> (r: bool)
        ensures
            r == self@.is_stale(),
    {
        !same(self.verdict.as_str(), "fresh")
    }

    /// Where the daemon's binary is installed.
    pub fn installed_path(&self) -> (r: String)
        ensures
            r@ == self@.installed_path(),
    {
        match strip_suffix(self.exe_path.as_str(), " (deleted)") {
            Some(path) => path.to_owned(),
            None => self.exe_path.clone(),
        }
    }
}

/// The models of a list of entries.
pub open spec fn entry_views(v: Seq<BinstaleEntry>) -> Seq<EntryView> {
    v.map_values(|e: BinstaleEntry| e@)
}

/// The models of a list that got one entry more.
pub broadcast proof fn lemma_entries_push(v: Seq<BinstaleEntry>, e: BinstaleEntry)
    ensures
        #[trigger] entry_views(v.push(e)) == entry_views(v).push(e@),
{
    assert(entry_views(v.push(e)) =~= entry_views(v).push(e@));
}

/// The names of a list of entries.
pub open spec fn entry_names(v: Seq<EntryView>) -> Seq<Seq<char>> {
    v.map_values(|e: EntryView| e.comm)
}

/// The names of a list of entries.
pub fn names_of(entries: &Vec<BinstaleEntry>) -> (r: Vec<String>)
    ensures
        texts(r@) == entry_names(entry_views(entries@)),
{
    broadcast use lemma_texts_push;

    let n: usize = entries.len();
    let mut r: Vec<String> = Vec::new();
    let mut i: usize = 0;
    let ghost all = entry_names(entry_views(entries@));
    while i < n
        invariant
            n == entries@.len(),
            i <= n,
            all == entry_names(entry_views(entries@)),
            texts(r@) == all.take(i as int),
        decreases n - i,
    {
        let name = entries[i].comm.clone();
        assert(all.take(i + 1) =~= all.take(i as int).push(name@));
        r.push(name);
        i = i + 1;
    }
    assert(all.take(n as int) =~= all);
    r
}

// ---------------------------------------------------------------------------
// Where a scan comes from
// ---------------------------------------------------------------------------

/// Where the scan document comes from.
#[derive(Debug)]
pub enum ScanSource {
    /// Standard input.
    Stdin,
    /// A file.
    File(String),
    /// The output of `binstale scan`, restricted to names that match a pattern.
    Binstale { match_regex: Option<String> },
}

/// The model of a [`ScanSource`].
#[verifier::ext_equal]
pub enum ScanSourceView {
    Stdin,
    File(Seq<char>),
    Binstale { match_regex: Option<Seq<char>> },
}

impl View for ScanSource {
    type V = ScanSourceView;

    open spec fn view(&self) -> ScanSourceView {
        match *self {
            ScanSource::Stdin => ScanSourceView::Stdin,
            ScanSource::File(p) => ScanSourceView::File(p@),
            ScanSource::Binstale { match_regex } => ScanSourceView::Binstale {
                match_regex: opt_string(match_regex),
            },
        }
    }
}

/// The source that `--from` names: `-` is standard input, anything else a file; without it
/// the scan is run.
pub fn scan_source(from: Option<&str>) -> (r: ScanSource)
    ensures
        r@ == (match opt_text(from) {
            Some(p) => if p == "-"@ {
                ScanSourceView::Stdin
            } else {
                ScanSourceView::File(p)
            },
            None => ScanSourceView::Binstale { match_regex: None },
        }),
{
    match from {
        Some(p) => if same(p, "-") {
            ScanSource::Stdin
        } else {
            ScanSource::File(p.to_owned())
        },
        None => ScanSource::Binstale { match_regex: None },
    }
}

/// The arguments with which `binstale` is run.
pub open spec fn binstale_arguments(match_regex: Option<Seq<char>>) -> Seq<Seq<char>> {
    let base = seq!["scan"@, "--format"@, "json"@];
    match match_regex {
        Some(re) => base + seq!["--match"@, re],
        None => base,
    }
}

/// The arguments with which `binstale` is run.
pub fn binstale_args(match_regex: Option<&str>) -> (r: Vec<String>)
    ensures
        texts(r@) == binstale_arguments(opt_text(match_regex)),
{
    broadcast use lemma_texts_push;

    let mut r: Vec<String> = Vec::new();
    r.push("scan".to_owned());
    r.push("--format".to_owned());
    r.push("json".to_owned());
    assert(texts(r@) =~= seq!["scan"@, "--format"@, "json"@]);
    match match_regex {
        Some(re) => {
            r.push("--match".to_owned());
            r.push(re.to_owned());
            assert(texts(r@) =~= seq!["scan"@, "--format"@, "json"@] + seq!["--match"@, re@]);
        },
        None => {},
    }
    r
}

// ---------------------------------------------------------------------------
// What a scan gives
// ---------------------------------------------------------------------------

/// A scan document that was read.
#[derive(Debug)]
pub enum ScanDocument {
    /// It is not a list of processes, and why.
    Malformed(String),
    /// The processes it lists.
    Entries(Vec<BinstaleEntry>),
}

/// What came of reading a scan.
#[derive(Debug)]
pub enum ScanRead {
    /// Standard input could not be read, and why.
    StdinUnreadable(String),
    /// The file could not be read, and why.
    FileUnreadable { path: String, why: String },
    /// `binstale` could not be run, and why.
    BinstaleMissing(String),
    /// `binstale` ran.
    BinstaleExited { success: bool, stdout_empty: bool, stderr: String, document: ScanDocument },
    /// The document was read from standard input or a file.
    Read(ScanDocument),
}

/// The stale entries of a document, in its order.
pub open spec fn stale_entries(v: Seq<EntryView>) -> Seq<EntryView> {
    v.filter(|e: EntryView| e.is_stale())
}

/// What a document gives: its stale entries, or why there are none.
pub open spec fn document_stale(doc: ScanDocument) -> Result<Seq<EntryView>, RolloutErrorView> {
    match doc {
        ScanDocument::Malformed(why) => Err(RolloutErrorView::Json(why@)),
        ScanDocument::Entries(all) => Ok(stale_entries(entry_views(all@))),
    }
}

/// What a scan gives: its stale entries, or why there are none.
///
/// A failing `binstale` counts only when it printed nothing.
pub open spec fn scan_stale(read: ScanRead) -> Result<Seq<EntryView>, RolloutErrorView> {
    match read {
        ScanRead::StdinUnreadable(why) => Err(RolloutErrorView::BinstaleScanFailed(why@)),
        ScanRead::FileUnreadable { path, why } => Err(
            RolloutErrorView::BinstaleScanFailed("read "@ + path@ + ": "@ + why@),
        ),
        ScanRead::BinstaleMissing(why) => Err(
            RolloutErrorView::BinstaleScanFailed("binstale not found: "@ + why@),
        ),
        ScanRead::BinstaleExited { success, stdout_empty, stderr, document } => if !success
            && stdout_empty {
            Err(RolloutErrorView::BinstaleScanFailed(stderr@))
        } else {
            document_stale(document)
        },
        ScanRead::Read(document) => document_stale(document),
    }
}

/// Entries or an error, as models.
pub open spec fn entries_result(r: Result<Vec<BinstaleEntry>, RolloutError>) -> Result<
    Seq<EntryView>,
    RolloutErrorView,
> {
    match r {
        Ok(v) => Ok(entry_views(v@)),
        Err(e) => Err(e@),
    }
}

/// The stale entries of a scan document.
pub fn parse_stale_json(doc: ScanDocument) -> (r: Result<Vec<BinstaleEntry>, RolloutError>)
    ensures
        entries_result(r) == document_stale(doc),
{
    match doc {
        ScanDocument::Malformed(why) => Err(RolloutError::Json(why)),
        ScanDocument::Entries(all) => {
            broadcast use lemma_entries_push;

            let n: usize = all.len();
            let mut stale: Vec<BinstaleEntry> = Vec::new();
            let mut i: usize = 0;
            let ghost models = entry_views(all@);
            proof {
                reveal(Seq::filter);
                assert(entry_views(stale@) =~= stale_entries(models.take(0)));
            }
            while i < n
                invariant
                    n == all@.len(),
                    i <= n,
                    models == entry_views(all@),
                    entry_views(stale@) == stale_entries(models.take(i as int)),
                decreases n - i,
            {
                proof {
                    reveal(Seq::filter);
                    assert(models.take(i + 1).drop_last() =~= models.take(i as int));
                    assert(models.take(i + 1).last() == all@[i as int]@);
                }
                if all[i].is_stale() {
                    stale.push(all[i].clone());
                }
                i = i + 1;
            }
            assert(models.take(n as int) =~= models);
            Ok(stale)
        },
    }
}

/// The stale entries of a scan.
pub fn collect_stale(read: ScanRead) -> (r: Result<Vec<BinstaleEntry>, RolloutError>)
    ensures
        entries_result(r) == scan_stale(read),
{
    match read {
        ScanRead::StdinUnreadable(why) => Err(RolloutError::BinstaleScanFailed(why)),
        ScanRead::FileUnreadable { path, why } => Err(
            RolloutError::BinstaleScanFailed(
                "read ".to_owned().concat(path.as_str()).concat(": ").concat(why.as_str()),
            ),
        ),
        ScanRead::BinstaleMissing(why) => Err(
            RolloutError::BinstaleScanFailed(
                "binstale not found: ".to_owned().concat(why.as_str()),
            ),
        ),
        ScanRead::BinstaleExited { success, stdout_empty, stderr, document } => {
            if !success && stdout_empty {
                Err(RolloutError::BinstaleScanFailed(stderr))
            } else {
                parse_stale_json(document)
            }
        },
        ScanRead::Read(document) => parse_stale_json(document),
    }
}

/// The entries named `only`, or all entries where no name is given.
pub open spec fn only_entries(v: Seq<EntryView>, only: Option<Seq<char>>) -> Seq<EntryView> {
    match only {
        Some(name) => v.filter(|e: EntryView| e.comm == name),
        None => v,
    }
}

/// The entries named `only`, or all entries where no name is given.
pub fn filter_only(entries: Vec<BinstaleEntry>, only: Option<&str>) -> (r: Vec<BinstaleEntry>)
    ensures
        entry_views(r@) == only_entries(entry_views(entries@), opt_text(only)),
{
    match only {
        Some(name) => {
            broadcast use lemma_entries_push;

            let n: usize = entries.len();
            let mut kept: Vec<BinstaleEntry> = Vec::new();
            let mut i: usize = 0;
            let ghost models = entry_views(entries@);
            let ghost named = |e: EntryView| e.comm == name@;
            proof {
                reveal(Seq::filter);
                assert(entry_views(kept@) =~= models.take(0).filter(named));
            }
            while i < n
                invariant
                    n == entries@.len(),
                    i <= n,
                    models == entry_views(entries@),
                    named == (|e: EntryView| e.comm == name@),
                    entry_views(kept@) == models.take(i as int).filter(named),
                decreases n - i,
            {
                proof {
                    reveal(Seq::filter);
                    assert(models.take(i + 1).drop_last() =~= models.take(i as int));
                    assert(models.take(i + 1).last() == entries@[i as int]@);
                }
                if same(entries[i].comm.as_str(), name) {
                    kept.push(entries[i].clone());
                }
                i = i + 1;
            }
            assert(models.take(n as int) =~= models);
            kept
        },
        None => entries,
    }
}

// ---------------------------------------------------------------------------
// Laws
// ---------------------------------------------------------------------------

/// A scan gives stale entries only, and every stale entry of the document.
pub proof fn law_stale_entries(v: Seq<EntryView>, e: EntryView)
    ensures
        stale_entries(v).contains(e) <==> v.contains(e) && e.is_stale(),
{
    let pred = |x: EntryView| x.is_stale();
    if v.filter(pred).contains(e) {
        v.lemma_filter_contains_rev(pred, e);
        let i = choose|i: int| 0 <= i < v.filter(pred).len() && v.filter(pred)[i] == e;
        v.lemma_filter_pred(pred, i);
    }
    if v.contains(e) && e.is_stale() {
        let i = choose|i: int| 0 <= i < v.len() && v[i] == e;
        v.lemma_filter_contains(pred, i);
    }
}

/// A process is stale unless its verdict is `fresh`.
pub proof fn law_fresh_is_not_stale(e: EntryView)
    ensures
        e.is_stale() <==> e.verdict != "fresh"@,
{
}

/// The stale entries of two lists are those of the first and then those of the second: they stand
/// in their order, as often as they were listed. So do the entries of one name.
pub proof fn law_entries_in_order(
    a: Seq<EntryView>,
    b: Seq<EntryView>,
    e: EntryView,
    only: Option<Seq<char>>,
)
    ensures
        stale_entries(a + b) == stale_entries(a) + stale_entries(b),
        stale_entries(seq![e]) == if e.verdict == "fresh"@ {
            seq![]
        } else {
            seq![e]
        },
        only_entries(a + b, only) == only_entries(a, only) + only_entries(b, only),
        only_entries(seq![e], only) == if only is None || only == Some(e.comm) {
            seq![e]
        } else {
            seq![]
        },
{
    reveal_with_fuel(Seq::filter, 2);
    let one = seq![e];
    assert(one.drop_last() =~= Seq::<EntryView>::empty());
    assert(one.last() == e);
    Seq::filter_distributes_over_add(a, b, |x: EntryView| x.is_stale());
    if let Some(name) = only {
        Seq::filter_distributes_over_add(a, b, |x: EntryView| x.comm == name);
    }
    assert(stale_entries(one) =~= if e.verdict == "fresh"@ {
        seq![]
    } else {
        seq![e]
    });
    assert(only_entries(one, only) =~= if only is None || only == Some(e.comm) {
        seq![e]
    } else {
        seq![]
    });
}

/// Where a binary is installed: the mark of a deleted executable is no part of the path, and a path
/// without the mark is what it is.
pub proof fn law_installed_path(e: EntryView, path: Seq<char>)
    ensures
        e.exe_path == path + " (deleted)"@ ==> e.installed_path() == path,
        !" (deleted)"@.is_suffix_of(e.exe_path) ==> e.installed_path() == e.exe_path,
{
    law_affixes(e.exe_path, " (deleted)"@, path);
}

/// A document that was read decides alone what a scan gives, also where `binstale` failed but
/// printed something: the stale entries of its list, or that it is none. A scan without a document
/// fails and says why.
pub proof fn law_document_decides(read: ScanRead)
    ensures
        match read {
            ScanRead::Read(ScanDocument::Entries(all)) => scan_stale(read) == Ok::<
                Seq<EntryView>,
                RolloutErrorView,
            >(stale_entries(entry_views(all@))),
            ScanRead::Read(ScanDocument::Malformed(why)) => scan_stale(read) == Err::<
                Seq<EntryView>,
                RolloutErrorView,
            >(RolloutErrorView::Json(why@)),
            ScanRead::BinstaleExited { success, stdout_empty, stderr, document } => if success
                || !stdout_empty {
                scan_stale(read) == scan_stale(ScanRead::Read(document))
            } else {
                scan_stale(read) == Err::<Seq<EntryView>, RolloutErrorView>(
                    RolloutErrorView::BinstaleScanFailed(stderr@),
                )
            },
            ScanRead::StdinUnreadable(why) => scan_stale(read) matches Err(e)
                && e is BinstaleScanFailed && why@.is_suffix_of(e->BinstaleScanFailed_0),
            ScanRead::FileUnreadable { path, why } => scan_stale(read) matches Err(e)
                && e is BinstaleScanFailed && why@.is_suffix_of(e->BinstaleScanFailed_0)
                && mentions(e->BinstaleScanFailed_0, path@),
            ScanRead::BinstaleMissing(why) => scan_stale(read) matches Err(e)
                && e is BinstaleScanFailed && why@.is_suffix_of(e->BinstaleScanFailed_0),
        },
{
    match read {
        ScanRead::StdinUnreadable(why) => {
            assert(why@.subrange(0, why@.len() as int) =~= why@);
        },
        ScanRead::FileUnreadable { path, why } => {
            let t = "read "@ + path@ + ": "@ + why@;
            assert(t =~= "read "@ + path@ + (": "@ + why@));
            lemma_mentions(t, "read "@, path@, ": "@ + why@);
            assert(t.subrange(t.len() - why@.len(), t.len() as int) =~= why@);
        },
        ScanRead::BinstaleMissing(why) => {
            let t = "binstale not found: "@ + why@;
            assert(t.subrange(t.len() - why@.len(), t.len() as int) =~= why@);
        },
        _ => {},
    }
}

/// `binstale` is always asked for a scan in JSON, and for the given names only where a pattern is
/// given.
pub proof fn law_binstale_arguments(pattern: Seq<char>)
    ensures
        binstale_arguments(None) == seq!["scan"@, "--format"@, "json"@],
        binstale_arguments(Some(pattern)) == binstale_arguments(None) + seq!["--match"@, pattern],
{
}

/// The model of an entry keeps each of its fields, and a list of entries is modelled one by one.
pub proof fn law_entry_model(e: BinstaleEntry, v: Seq<BinstaleEntry>, i: int)
    ensures
        e@.pid == e.pid && e@.comm == e.comm@ && e@.exe_path == e.exe_path@ && e@.verdict
            == e.verdict@,
        entry_views(v).len() == v.len(),
        0 <= i < v.len() ==> entry_views(v)[i] == v[i]@ && entry_names(entry_views(v))[i]
            == v[i].comm@,
{
}

/// The models of a scan's result and of where it comes from keep what they hold.
pub proof fn law_scan_models(r: Result<Vec<BinstaleEntry>, RolloutError>, source: ScanSource)
    ensures
        r matches Ok(v) ==> entries_result(r) == Ok::<Seq<EntryView>, RolloutErrorView>(
            entry_views(v@),
        ),
        r matches Err(e) ==> entries_result(r) == Err::<Seq<EntryView>, RolloutErrorView>(e@),
        match source {
            ScanSource::Stdin => source@ is Stdin,
            ScanSource::File(path) => source@ == ScanSourceView::File(path@),
            ScanSource::Binstale { match_regex: Some(re) } => source@ == (
            ScanSourceView::Binstale { match_regex: Some(re@) }),
            ScanSource::Binstale { match_regex: None } => source@ == (ScanSourceView::Binstale {
                match_regex: None,
            }),
        },
{
}

} // verus!
