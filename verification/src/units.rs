//! Systemd-user units: finding the unit of a binary, restarting it, and looking at what it
//! then runs.

use crate::command::{CommandOutcome, CommandView};
use crate::error::{RolloutError, RolloutErrorView};
use crate::json::{json_number_member, json_text_member, number_member, text_member};
use crate::output::{line_views, no_lines, one_line, Line, LineView};
use crate::text::{
    dec, ends_with, first_word, is_white, law_affixes, law_decimal_reads_back, law_first_word,
    law_nothing_to_replace, law_replaced, law_trimmed, law_trimmed_run, law_white_space,
    law_word_is_first_run, lemma_mentions, lemma_texts_push, lines, lines_of, mentions, natural,
    natural_up_to, opt_string, opt_text, parse_u64, replace, replaced, same, starts_with,
    strip_prefix, strip_suffix, texts, trim, trimmed, without_suffix, word_at_start,
};
use vstd::prelude::*;

verus! {

// ---------------------------------------------------------------------------
// Names and paths
// ---------------------------------------------------------------------------

/// The daemon that a unit runs: the unit's name without `.service`.
pub open spec fn daemon_of_unit(unit: Seq<char>) -> Seq<char> {
    match without_suffix(unit, ".service"@) {
        Some(stem) => stem,
        None => unit,
    }
}

/// The daemon that a unit runs: the unit's name without `.service`.
pub fn daemon_name_from_unit(unit: &str) -> (r: String)
    ensures
        r@ == daemon_of_unit(unit@),
{
    match strip_suffix(unit, ".service") {
        Some(stem) => stem.to_owned(),
        None => unit.to_owned(),
    }
}

/// The pieces of a path between its slashes, without empty ones and without `.`.
pub open spec fn path_parts(s: Seq<char>) -> Seq<Seq<char>>
    decreases s.len(),
{
    if s.len() == 0 {
        seq![]
    } else {
        let n = piece_len(s);
        let rest = if n >= s.len() {
            seq![]
        } else {
            path_parts(s.skip(n as int + 1))
        };
        let piece = s.take(n as int);
        if piece.len() == 0 || piece == "."@ {
            rest
        } else {
            seq![piece] + rest
        }
    }
}

/// How many characters stand before the first slash.
pub open spec fn piece_len(s: Seq<char>) -> nat
    decreases s.len(),
{
    if s.len() == 0 || s[0] == '/' {
        0
    } else {
        1 + piece_len(s.skip(1))
    }
}

/// Whether a relative path begins with the current directory.
pub open spec fn starts_here(s: Seq<char>) -> bool {
    s.take(piece_len(s) as int) == "."@
}

/// Whether two paths name the same place in the same way: both absolute or both relative, the
/// same pieces in the same order, and `.` counts only where a relative path begins with it.
pub open spec fn same_place(a: Seq<char>, b: Seq<char>) -> bool {
    "/"@.is_prefix_of(a) == "/"@.is_prefix_of(b) && starts_here(a) == starts_here(b) && path_parts(
        a,
    ) == path_parts(b)
}

fn find_slash(s: &str, from: usize) -> (r: usize)
    requires
        from <= s@.len(),
    ensures
        from <= r <= s@.len(),
        r - from == piece_len(s@.skip(from as int)),
{
    let n: usize = s.unicode_len();
    let mut i: usize = from;
    while i < n && s.get_char(i) != '/'
        invariant
            n == s@.len(),
            from <= i <= n,
            piece_len(s@.skip(from as int)) == (i - from) + piece_len(s@.skip(i as int)),
        decreases n - i,
    {
        proof {
            let rest = s@.skip(i as int);
            assert(rest[0] == s@[i as int]);
            assert(rest.skip(1) =~= s@.skip(i + 1));
        }
        i = i + 1;
    }
    proof {
        let rest = s@.skip(i as int);
        if i < n {
            assert(rest[0] == s@[i as int]);
        }
    }
    i
}

/// The pieces of a path between its slashes, without empty ones and without `.`.
pub fn pieces(s: &str) -> (r: Vec<String>)
    ensures
        texts(r@) == path_parts(s@),
{
    broadcast use lemma_texts_push;

    let n: usize = s.unicode_len();
    let mut r: Vec<String> = Vec::new();
    let mut i: usize = 0;
    assert(s@.skip(0) =~= s@);
    assert(texts(r@) + path_parts(s@) =~= path_parts(s@));
    while i < n
        invariant
            n == s@.len(),
            i <= n,
            texts(r@) + path_parts(s@.skip(i as int)) == path_parts(s@),
        decreases n - i,
    {
        let ghost rest = s@.skip(i as int);
        let ghost before = texts(r@);
        let end: usize = find_slash(s, i);
        let piece = s.substring_char(i, end);
        let next: usize = if end == n {
            n
        } else {
            end + 1
        };
        proof {
            assert(piece@ =~= rest.take(end - i));
            assert(s@.skip(n as int) =~= Seq::<char>::empty());
            if end == n {
                assert(path_parts(s@.skip(next as int)) =~= Seq::<Seq<char>>::empty());
            } else {
                assert(rest.skip(end - i + 1) =~= s@.skip(next as int));
            }
            assert(before + (seq![piece@] + path_parts(s@.skip(next as int))) =~= before.push(
                piece@,
            ) + path_parts(s@.skip(next as int)));
        }
        if piece.unicode_len() != 0 && !same(piece, ".") {
            r.push(piece.to_owned());
        }
        i = next;
    }
    assert(s@.skip(n as int) =~= Seq::<char>::empty());
    assert(texts(r@) + path_parts(s@.skip(n as int)) =~= texts(r@));
    r
}

fn begins_here(s: &str) -> (r: bool)
    ensures
        r == starts_here(s@),
{
    let end: usize = find_slash(s, 0);
    let first = s.substring_char(0, end);
    proof {
        assert(s@.skip(0) =~= s@);
        assert(first@ =~= s@.take(piece_len(s@) as int));
    }
    same(first, ".")
}

/// Whether two lists of texts are equal.
pub fn same_texts(a: &Vec<String>, b: &Vec<String>) -> (r: bool)
    ensures
        r == (texts(a@) == texts(b@)),
{
    let n: usize = a.len();
    assert(texts(a@).len() == a@.len() && texts(b@).len() == b@.len());
    if n != b.len() {
        return false;
    }
    let mut i: usize = 0;
    while i < n
        invariant
            n == a@.len(),
            n == b@.len(),
            i <= n,
            forall|j: int| 0 <= j < i ==> texts(a@)[j] == texts(b@)[j],
        decreases n - i,
    {
        assert(texts(a@)[i as int] == a@[i as int]@);
        assert(texts(b@)[i as int] == b@[i as int]@);
        if !same(a[i].as_str(), b[i].as_str()) {
            return false;
        }
        i = i + 1;
    }
    assert(texts(a@) =~= texts(b@));
    true
}

/// Whether two paths name the same place in the same way.
pub fn same_path(a: &str, b: &str) -> (r: bool)
    ensures
        r == same_place(a@, b@),
{
    starts_with(a, "/") == starts_with(b, "/") && begins_here(a) == begins_here(b) && same_texts(
        &pieces(a),
        &pieces(b),
    )
}

// ---------------------------------------------------------------------------
// What a unit file starts
// ---------------------------------------------------------------------------

/// The directory behind `%t`: the value of `XDG_RUNTIME_DIR`, or one named after the user id
/// that `id -u` printed, or that of the user 1000.
pub open spec fn runtime_directory(var: Option<Seq<char>>, id: Option<Seq<char>>) -> Seq<char> {
    match var {
        Some(dir) => dir,
        None => match id {
            Some(uid) => "/run/user/"@ + trimmed(uid),
            None => "/run/user/1000"@,
        },
    }
}

/// The directory behind `%t`.
pub fn runtime_dir(var: Option<&str>, id: Option<&str>) -> (r: String)
    ensures
        r@ == runtime_directory(opt_text(var), opt_text(id)),
{
    match var {
        Some(dir) => dir.to_owned(),
        None => match id {
            Some(uid) => "/run/user/".to_owned().concat(trim(uid)),
            None => "/run/user/1000".to_owned(),
        },
    }
}

/// `s` with `%h` replaced by the home directory, and then `%t` by the runtime directory.
pub open spec fn specifiers_expanded(s: Seq<char>, home: Seq<char>, runtime: Seq<char>) -> Seq<
    char,
> {
    replaced(replaced(s, "%h"@, home), "%t"@, runtime)
}

/// `s` with `%h` replaced by the home directory, and then `%t` by the runtime directory.
pub fn expand_specifiers(s: &str, home: &str, runtime: &str) -> (r: String)
    ensures
        r@ == specifiers_expanded(s@, home@, runtime@),
{
    proof {
        reveal_strlit("%h");
        reveal_strlit("%t");
    }
    replace(replace(s, "%h", home).as_str(), "%t", runtime)
}

/// What is left of `s` when the prefix `p` is taken off as often as it stands there.
pub open spec fn without_prefixes(s: Seq<char>, p: Seq<char>) -> Seq<char>
    decreases s.len(),
{
    if p.len() > 0 && p.is_prefix_of(s) {
        without_prefixes(s.skip(p.len() as int), p)
    } else {
        s
    }
}

fn strip_prefixes<'a>(s: &'a str, p: &str) -> (r: &'a str)
    requires
        p@.len() > 0,
    ensures
        r@ == without_prefixes(s@, p@),
    decreases s@.len(),
{
    match strip_prefix(s, p) {
        Some(rest) => strip_prefixes(rest, p),
        None => s,
    }
}

/// The program that a line of a unit file starts, if it starts one.
pub open spec fn line_program(line: Seq<char>, home: Seq<char>, runtime: Seq<char>) -> Option<
    Seq<char>,
> {
    let t = trimmed(line);
    if "ExecStart="@.is_prefix_of(t) {
        let argv0 = word_at_start(trimmed(without_prefixes(t, "ExecStart="@)));
        if argv0.len() == 0 {
            None
        } else {
            Some(specifiers_expanded(argv0, home, runtime))
        }
    } else {
        None
    }
}

/// The programs that the lines of a unit file start, in their order.
pub open spec fn programs_of(
    unit_lines: Seq<Seq<char>>,
    home: Seq<char>,
    runtime: Seq<char>,
) -> Seq<Seq<char>>
    decreases unit_lines.len(),
{
    if unit_lines.len() == 0 {
        seq![]
    } else {
        let before = programs_of(unit_lines.drop_last(), home, runtime);
        match line_program(unit_lines.last(), home, runtime) {
            Some(p) => before.push(p),
            None => before,
        }
    }
}

/// The program that a line of a unit file starts, if it starts one.
pub fn exec_start(line: &str, home: &str, runtime: &str) -> (r: Option<String>)
    ensures
        opt_string(r) == line_program(line@, home@, runtime@),
{
    let t = trim(line);
    if !starts_with(t, "ExecStart=") {
        return None;
    }
    proof {
        reveal_strlit("ExecStart=");
    }
    let argv0 = first_word(trim(strip_prefixes(t, "ExecStart=")));
    if argv0.unicode_len() == 0 {
        return None;
    }
    Some(expand_specifiers(argv0, home, runtime))
}

/// The programs that a unit file starts, in their order.
pub fn exec_start_programs(contents: &str, home: &str, runtime: &str) -> (r: Vec<String>)
    ensures
        texts(r@) == programs_of(lines_of(contents@), home@, runtime@),
{
    broadcast use lemma_texts_push;

    let all = lines(contents);
    let n: usize = all.len();
    let mut r: Vec<String> = Vec::new();
    let mut i: usize = 0;
    let ghost models = texts(all@);
    assert(texts(r@) =~= programs_of(models.take(0), home@, runtime@));
    while i < n
        invariant
            n == all@.len(),
            i <= n,
            models == texts(all@),
            texts(r@) == programs_of(models.take(i as int), home@, runtime@),
        decreases n - i,
    {
        proof {
            assert(models.take(i + 1).drop_last() =~= models.take(i as int));
            assert(models.take(i + 1).last() == all@[i as int]@);
        }
        match exec_start(all[i].as_str(), home, runtime) {
            Some(p) => {
                r.push(p);
            },
            None => {},
        }
        i = i + 1;
    }
    assert(models.take(n as int) =~= models);
    r
}

/// Whether one of some resolved programs is the binary at `dest`.
pub open spec fn starts_dest(programs: Seq<Seq<char>>, dest: Seq<char>) -> bool {
    exists|i: int| 0 <= i < programs.len() && same_place(#[trigger] programs[i], dest)
}

/// The unit's name, if one of the programs that it starts, resolved, is the binary at `dest`.
pub fn check_unit_exec_start(unit_name: Option<&str>, programs: &Vec<String>, dest: &str) -> (r:
    Option<String>)
    ensures
        opt_string(r) == (if starts_dest(texts(programs@), dest@) {
            Some(unit_or_unknown(opt_text(unit_name)))
        } else {
            None
        }),
{
    let n: usize = programs.len();
    let mut i: usize = 0;
    while i < n
        invariant
            n == programs@.len(),
            i <= n,
            forall|j: int| 0 <= j < i ==> !same_place(#[trigger] texts(programs@)[j], dest@),
        decreases n - i,
    {
        assert(texts(programs@)[i as int] == programs@[i as int]@);
        if same_path(programs[i].as_str(), dest) {
            return Some(
                match unit_name {
                    Some(name) => name.to_owned(),
                    None => "unknown.service".to_owned(),
                },
            );
        }
        i = i + 1;
    }
    None
}

/// The name of a unit file; a name that is no text counts as `unknown.service`.
pub open spec fn unit_or_unknown(name: Option<Seq<char>>) -> Seq<char> {
    match name {
        Some(n) => n,
        None => "unknown.service"@,
    }
}

// ---------------------------------------------------------------------------
// Finding the unit of a binary
// ---------------------------------------------------------------------------

/// Where the search for a unit stands.
#[derive(Debug, Clone, Copy, PartialEq, Eq, Structural)]
pub enum FindPhase {
    /// Nothing was done yet.
    Start,
    /// The directory of the units is opened.
    Dir,
    /// An entry of the directory is looked for.
    Entry,
    /// A unit file is read.
    Contents,
    /// The programs that a unit starts are resolved.
    Resolve,
    /// The search is over.
    Done,
}

/// What happened outside since the last step.
#[derive(Debug)]
pub enum FindEvent {
    /// The search begins.
    Begin,
    /// The directory does not exist.
    DirMissing,
    /// The directory could not be read, and why.
    DirUnreadable(String),
    /// The directory was opened.
    DirOpened,
    /// An entry could not be read, and why.
    EntryUnreadable(String),
    /// The directory has no more entries.
    EntriesOver,
    /// An entry, with the name and the extension of its file where they are text.
    Entry { name: Option<String>, extension: Option<String> },
    /// The contents of the unit file, where they could be read.
    Contents(Option<String>),
    /// The programs, each resolved as far as it exists.
    Resolved(Vec<String>),
}

/// The model of a [`FindEvent`].
#[verifier::ext_equal]
pub enum FindEventView {
    Begin,
    DirMissing,
    DirUnreadable(Seq<char>),
    DirOpened,
    EntryUnreadable(Seq<char>),
    EntriesOver,
    Entry { name: Option<Seq<char>>, extension: Option<Seq<char>> },
    Contents(Option<Seq<char>>),
    Resolved(Seq<Seq<char>>),
}

impl View for FindEvent {
    type V = FindEventView;

    open spec fn view(&self) -> FindEventView {
        match *self {
            FindEvent::Begin => FindEventView::Begin,
            FindEvent::DirMissing => FindEventView::DirMissing,
            FindEvent::DirUnreadable(why) => FindEventView::DirUnreadable(why@),
            FindEvent::DirOpened => FindEventView::DirOpened,
            FindEvent::EntryUnreadable(why) => FindEventView::EntryUnreadable(why@),
            FindEvent::EntriesOver => FindEventView::EntriesOver,
            FindEvent::Entry { name, extension } => FindEventView::Entry {
                name: opt_string(name),
                extension: opt_string(extension),
            },
            FindEvent::Contents(text) => FindEventView::Contents(opt_string(text)),
            FindEvent::Resolved(programs) => FindEventView::Resolved(texts(programs@)),
        }
    }
}

/// What is to be done next, and told back as an event.
#[derive(Debug)]
pub enum FindAction {
    /// Open the directory.
    OpenDir { dir: String },
    /// Get the next entry of the directory.
    NextEntry,
    /// Read the file of the entry.
    ReadUnit,
    /// Resolve the programs.
    Resolve { programs: Vec<String> },
    /// The search is over.
    Finish(Result<Option<String>, RolloutError>),
    /// The event does not belong here; nothing changed.
    Ignored,
}

/// The model of a [`FindAction`].
#[verifier::ext_equal]
pub enum FindActionView {
    OpenDir { dir: Seq<char> },
    NextEntry,
    ReadUnit,
    Resolve { programs: Seq<Seq<char>> },
    Finish(Result<Option<Seq<char>>, RolloutErrorView>),
    Ignored,
}

/// A unit or an error, as models.
pub open spec fn unit_result(r: Result<Option<String>, RolloutError>) -> Result<
    Option<Seq<char>>,
    RolloutErrorView,
> {
    match r {
        Ok(u) => Ok(opt_string(u)),
        Err(e) => Err(e@),
    }
}

impl View for FindAction {
    type V = FindActionView;

    open spec fn view(&self) -> FindActionView {
        match *self {
            FindAction::OpenDir { dir } => FindActionView::OpenDir { dir: dir@ },
            FindAction::NextEntry => FindActionView::NextEntry,
            FindAction::ReadUnit => FindActionView::ReadUnit,
            FindAction::Resolve { programs } => FindActionView::Resolve {
                programs: texts(programs@),
            },
            FindAction::Finish(r) => FindActionView::Finish(unit_result(r)),
            FindAction::Ignored => FindActionView::Ignored,
        }
    }
}

/// The search for the unit that starts the binary at a place.
#[derive(Debug)]
pub struct UnitSearch {
    units_dir: String,
    home: String,
    runtime: String,
    dest: String,
    phase: FindPhase,
    unit: Option<String>,
}

/// The model of a [`UnitSearch`].
#[verifier::ext_equal]
pub struct SearchView {
    pub units_dir: Seq<char>,
    pub home: Seq<char>,
    pub runtime: Seq<char>,
    /// The binary, resolved as far as it exists.
    pub dest: Seq<char>,
    pub phase: FindPhase,
    /// The name of the unit file at hand.
    pub unit: Option<Seq<char>>,
}

impl View for UnitSearch {
    type V = SearchView;

    closed spec fn view(&self) -> SearchView {
        SearchView {
            units_dir: self.units_dir@,
            home: self.home@,
            runtime: self.runtime@,
            dest: self.dest@,
            phase: self.phase,
            unit: opt_string(self.unit),
        }
    }
}

impl SearchView {
    /// The search in another phase, with what is to be done.
    pub open spec fn go(self, phase: FindPhase, action: FindActionView) -> (
        SearchView,
        FindActionView,
    ) {
        (SearchView { phase, ..self }, action)
    }

    /// The search after an event, and what is to be done.
    pub open spec fn step(self, event: FindEventView) -> (SearchView, FindActionView) {
        match (self.phase, event) {
            (FindPhase::Start, FindEventView::Begin) => self.go(
                FindPhase::Dir,
                FindActionView::OpenDir { dir: self.units_dir },
            ),
            (FindPhase::Dir, FindEventView::DirMissing) => self.go(
                FindPhase::Done,
                FindActionView::Finish(Ok(None)),
            ),
            (FindPhase::Dir, FindEventView::DirUnreadable(why)) => self.go(
                FindPhase::Done,
                FindActionView::Finish(
                    Err(RolloutErrorView::Io("read_dir "@ + self.units_dir + ": "@ + why)),
                ),
            ),
            (FindPhase::Dir, FindEventView::DirOpened) => self.go(
                FindPhase::Entry,
                FindActionView::NextEntry,
            ),
            (FindPhase::Entry, FindEventView::EntryUnreadable(why)) => self.go(
                FindPhase::Done,
                FindActionView::Finish(
                    Err(RolloutErrorView::Io("dir entry in "@ + self.units_dir + ": "@ + why)),
                ),
            ),
            (FindPhase::Entry, FindEventView::EntriesOver) => self.go(
                FindPhase::Done,
                FindActionView::Finish(Ok(None)),
            ),
            (FindPhase::Entry, FindEventView::Entry { name, extension }) => if extension == Some(
                "service"@,
            ) {
                SearchView { unit: name, ..self }.go(
                    FindPhase::Contents,
                    FindActionView::ReadUnit,
                )
            } else {
                self.go(FindPhase::Entry, FindActionView::NextEntry)
            },
            (FindPhase::Contents, FindEventView::Contents(text)) => match text {
                Some(t) => self.go(
                    FindPhase::Resolve,
                    FindActionView::Resolve {
                        programs: programs_of(lines_of(t), self.home, self.runtime),
                    },
                ),
                None => self.go(FindPhase::Entry, FindActionView::NextEntry),
            },
            (FindPhase::Resolve, FindEventView::Resolved(programs)) => if starts_dest(
                programs,
                self.dest,
            ) {
                self.go(
                    FindPhase::Done,
                    FindActionView::Finish(Ok(Some(unit_or_unknown(self.unit)))),
                )
            } else {
                self.go(FindPhase::Entry, FindActionView::NextEntry)
            },
            _ => self.go(self.phase, FindActionView::Ignored),
        }
    }
}

impl UnitSearch {
    /// The search in `units_dir` for the unit that starts `dest`, before its first step.
    pub fn new(units_dir: String, home: String, runtime: String, dest: String) -> (r: UnitSearch)
        ensures
            r@ == (SearchView {
                units_dir: units_dir@,
                home: home@,
                runtime: runtime@,
                dest: dest@,
                phase: FindPhase::Start,
                unit: None,
            }),
    {
        UnitSearch { units_dir, home, runtime, dest, phase: FindPhase::Start, unit: None }
    }

    /// Take the next step of the search.
    pub fn find_unit_for_dest(&mut self, event: FindEvent) -> (r: FindAction)
        ensures
            (final(self)@, r@) == old(self)@.step(event@),
    {
        match (self.phase, event) {
            (FindPhase::Start, FindEvent::Begin) => {
                self.phase = FindPhase::Dir;
                FindAction::OpenDir { dir: self.units_dir.clone() }
            },
            (FindPhase::Dir, FindEvent::DirMissing) => {
                self.phase = FindPhase::Done;
                FindAction::Finish(Ok(None))
            },
            (FindPhase::Dir, FindEvent::DirUnreadable(why)) => {
                self.phase = FindPhase::Done;
                FindAction::Finish(
                    Err(
                        RolloutError::Io(
                            "read_dir ".to_owned().concat(self.units_dir.as_str()).concat(
                                ": ",
                            ).concat(why.as_str()),
                        ),
                    ),
                )
            },
            (FindPhase::Dir, FindEvent::DirOpened) => {
                self.phase = FindPhase::Entry;
                FindAction::NextEntry
            },
            (FindPhase::Entry, FindEvent::EntryUnreadable(why)) => {
                self.phase = FindPhase::Done;
                FindAction::Finish(
                    Err(
                        RolloutError::Io(
                            "dir entry in ".to_owned().concat(self.units_dir.as_str()).concat(
                                ": ",
                            ).concat(why.as_str()),
                        ),
                    ),
                )
            },
            (FindPhase::Entry, FindEvent::EntriesOver) => {
                self.phase = FindPhase::Done;
                FindAction::Finish(Ok(None))
            },
            (FindPhase::Entry, FindEvent::Entry { name, extension }) => {
                let is_service = match &extension {
                    Some(e) => same(e.as_str(), "service"),
                    None => false,
                };
                if is_service {
                    self.unit = name;
                    self.phase = FindPhase::Contents;
                    FindAction::ReadUnit
                } else {
                    FindAction::NextEntry
                }
            },
            (FindPhase::Contents, FindEvent::Contents(text)) => {
                match &text {
                    Some(t) => {
                        self.phase = FindPhase::Resolve;
                        FindAction::Resolve {
                            programs: exec_start_programs(
                                t.as_str(),
                                self.home.as_str(),
                                self.runtime.as_str(),
                            ),
                        }
                    },
                    None => {
                        self.phase = FindPhase::Entry;
                        FindAction::NextEntry
                    },
                }
            },
            (FindPhase::Resolve, FindEvent::Resolved(programs)) => {
                let name = match &self.unit {
                    Some(n) => Some(n.as_str()),
                    None => None,
                };
                match check_unit_exec_start(name, &programs, self.dest.as_str()) {
                    Some(unit) => {
                        self.phase = FindPhase::Done;
                        FindAction::Finish(Ok(Some(unit)))
                    },
                    None => {
                        self.phase = FindPhase::Entry;
                        FindAction::NextEntry
                    },
                }
            },
            _ => FindAction::Ignored,
        }
    }
}

// ---------------------------------------------------------------------------
// Restarting a unit
// ---------------------------------------------------------------------------

/// How a unit is restarted.
#[derive(Debug, Clone, Copy, PartialEq, Eq, Structural)]
pub enum RestartPath {
    /// The bus daemon reloads itself.
    AgorabuReload,
    /// `systemctl --user restart`.
    Systemctl,
    /// It is not restarted.
    NoRestart,
}

impl RestartPath {
    /// The word for the path.
    pub open spec fn word(self) -> Seq<char> {
        match self {
            RestartPath::AgorabuReload => "agorabus-reload"@,
            RestartPath::Systemctl => "systemctl"@,
            RestartPath::NoRestart => "none"@,
        }
    }

    /// The word for the path.
    pub fn to_string(&self) -> (r: String)
        ensures
            r@ == self.word(),
    {
        match self {
            RestartPath::AgorabuReload => "agorabus-reload".to_owned(),
            RestartPath::Systemctl => "systemctl".to_owned(),
            RestartPath::NoRestart => "none".to_owned(),
        }
    }
}

/// The unit of the bus daemon, the only one that may reload itself.
pub const AGORABUS_UNIT: &'static str = "agorabus.service";

/// The lowest 32 bits of a number.
pub open spec fn low_bits(n: u64) -> u32 {
    (n % 0x1_0000_0000) as u32
}

/// What a reload says of itself: whether it bounced the daemon, and then under which pid.
///
/// Its verdict's `status` decides where there is one, else its exit status; and without a new
/// pid nothing was bounced.
pub open spec fn reload_result(
    status: Option<Seq<char>>,
    new_pid: Option<u64>,
    success: bool,
) -> (bool, Option<u32>) {
    let status_ok = match status {
        Some(s) => s == "ok"@,
        None => success,
    };
    match new_pid {
        Some(p) if status_ok => (true, Some(low_bits(p))),
        _ => (false, None),
    }
}

/// What a reload says of itself, from the members of its verdict.
pub fn reload_verdict(status: Option<&str>, new_pid: Option<u64>, success: bool) -> (r: (
    bool,
    Option<u32>,
))
    ensures
        r == reload_result(opt_text(status), new_pid, success),
{
    let status_ok = match status {
        Some(s) => same(s, "ok"),
        None => success,
    };
    match new_pid {
        Some(p) => {
            if status_ok {
                let low: u32 = (p % 0x1_0000_0000) as u32;
                (true, Some(low))
            } else {
                (false, None)
            }
        },
        None => (false, None),
    }
}

/// What a reload that ran says of itself.
pub fn run_agorabus_reload(success: bool, stdout: &[u8]) -> (r: (bool, Option<u32>))
    ensures
        r == reload_result(
            json_text_member(stdout@, "status"@),
            json_number_member(stdout@, "new_pid"@),
            success,
        ),
{
    let status = text_member(stdout, "status");
    let new_pid = number_member(stdout, "new_pid");
    match &status {
        Some(s) => reload_verdict(Some(s.as_str()), new_pid, success),
        None => reload_verdict(None, new_pid, success),
    }
}

/// What came of running the reload.
#[derive(Debug)]
pub enum ReloadOutcome {
    /// It could not be started, and why.
    NotSpawned(String),
    /// It ended.
    Exited { success: bool, stdout: Vec<u8> },
}

/// The model of a [`ReloadOutcome`]: what the reload says of itself.
#[verifier::ext_equal]
pub enum ReloadView {
    NotSpawned(Seq<char>),
    Exited { bounced: bool, new_pid: Option<u32> },
}

impl View for ReloadOutcome {
    type V = ReloadView;

    open spec fn view(&self) -> ReloadView {
        match *self {
            ReloadOutcome::NotSpawned(why) => ReloadView::NotSpawned(why@),
            ReloadOutcome::Exited { success, stdout } => {
                let (bounced, new_pid) = reload_result(
                    json_text_member(stdout@, "status"@),
                    json_number_member(stdout@, "new_pid"@),
                    success,
                );
                ReloadView::Exited { bounced, new_pid }
            },
        }
    }
}

/// Where the restart of a unit stands.
#[derive(Debug, Clone, Copy, PartialEq, Eq, Structural)]
pub enum UnitPhase {
    /// Nothing was done yet.
    Start,
    /// Whether the bus daemon can reload itself is asked.
    Ask,
    /// The bus daemon reloads itself.
    Reload,
    /// `systemctl` restarts the unit.
    Systemctl,
    /// The restart is over.
    Done,
}

/// What happened outside since the last step.
#[derive(Debug)]
pub enum UnitEvent {
    /// The restart begins.
    Begin,
    /// Whether the bus daemon can reload itself.
    ReloadAvailable(bool),
    /// The reload ran.
    Reloaded(ReloadOutcome),
    /// `systemctl` ran.
    Ran(CommandOutcome),
}

/// The model of a [`UnitEvent`].
#[verifier::ext_equal]
pub enum UnitEventView {
    Begin,
    ReloadAvailable(bool),
    Reloaded(ReloadView),
    Ran(CommandView),
}

impl View for UnitEvent {
    type V = UnitEventView;

    open spec fn view(&self) -> UnitEventView {
        match *self {
            UnitEvent::Begin => UnitEventView::Begin,
            UnitEvent::ReloadAvailable(b) => UnitEventView::ReloadAvailable(b),
            UnitEvent::Reloaded(r) => UnitEventView::Reloaded(r@),
            UnitEvent::Ran(r) => UnitEventView::Ran(r@),
        }
    }
}

/// A unit that was restarted: how, whether it was, and its new pid where the reload named it.
#[derive(Debug, Clone, Copy)]
pub struct UnitRestart {
    pub path: RestartPath,
    pub restarted: bool,
    pub new_pid: Option<u32>,
}

/// What is to be done next, and told back as an event.
#[derive(Debug)]
pub enum UnitAction {
    /// Run `agorabus reload --help`.
    AskReload,
    /// Run `agorabus reload --build --format json`.
    Reload,
    /// Run `systemctl --user restart` on the unit.
    Systemctl { unit: String },
    /// The restart is over.
    Finish(Result<UnitRestart, RolloutError>),
    /// The event does not belong here; nothing changed.
    Ignored,
}

/// The model of a [`UnitAction`].
#[verifier::ext_equal]
pub enum UnitActionView {
    AskReload,
    Reload,
    Systemctl { unit: Seq<char> },
    Finish(Result<UnitRestart, RolloutErrorView>),
    Ignored,
}

/// A restart or an error, as models.
pub open spec fn unit_restart_result(r: Result<UnitRestart, RolloutError>) -> Result<
    UnitRestart,
    RolloutErrorView,
> {
    match r {
        Ok(u) => Ok(u),
        Err(e) => Err(e@),
    }
}

impl View for UnitAction {
    type V = UnitActionView;

    open spec fn view(&self) -> UnitActionView {
        match *self {
            UnitAction::AskReload => UnitActionView::AskReload,
            UnitAction::Reload => UnitActionView::Reload,
            UnitAction::Systemctl { unit } => UnitActionView::Systemctl { unit: unit@ },
            UnitAction::Finish(r) => UnitActionView::Finish(unit_restart_result(r)),
            UnitAction::Ignored => UnitActionView::Ignored,
        }
    }
}

/// The restart of a unit.
#[derive(Debug)]
pub struct UnitRun {
    unit: String,
    phase: UnitPhase,
}

/// The model of a [`UnitRun`].
#[verifier::ext_equal]
pub struct UnitView {
    pub unit: Seq<char>,
    pub phase: UnitPhase,
}

impl View for UnitRun {
    type V = UnitView;

    closed spec fn view(&self) -> UnitView {
        UnitView { unit: self.unit@, phase: self.phase }
    }
}

/// What a step does: the restart after it, what is told, and what is to be done.
#[verifier::ext_equal]
pub struct UnitMove {
    pub state: UnitView,
    pub lines: Seq<LineView>,
    pub action: UnitActionView,
}

impl UnitView {
    /// The step that goes on to `phase` with `action`.
    pub open spec fn go(
        self,
        phase: UnitPhase,
        lines: Seq<LineView>,
        action: UnitActionView,
    ) -> UnitMove {
        UnitMove { state: UnitView { phase, ..self }, lines, action }
    }

    /// The step that leaves the restart to `systemctl`.
    pub open spec fn systemctl(self, lines: Seq<LineView>) -> UnitMove {
        self.go(UnitPhase::Systemctl, lines, UnitActionView::Systemctl { unit: self.unit })
    }

    /// The step that ends the restart.
    pub open spec fn end(self, result: Result<UnitRestart, RolloutErrorView>) -> UnitMove {
        self.go(UnitPhase::Done, seq![], UnitActionView::Finish(result))
    }

    /// What a step does on an event.
    pub open spec fn step(self, event: UnitEventView) -> UnitMove {
        match (self.phase, event) {
            (UnitPhase::Start, UnitEventView::Begin) => if self.unit == AGORABUS_UNIT@ {
                self.go(UnitPhase::Ask, seq![], UnitActionView::AskReload)
            } else {
                self.systemctl(seq![])
            },
            (UnitPhase::Ask, UnitEventView::ReloadAvailable(available)) => if available {
                self.go(UnitPhase::Reload, seq![], UnitActionView::Reload)
            } else {
                self.systemctl(seq![])
            },
            (UnitPhase::Reload, UnitEventView::Reloaded(reloaded)) => match reloaded {
                ReloadView::NotSpawned(why) => self.end(
                    Err(
                        RolloutErrorView::BuildFailed {
                            name: "agorabus"@,
                            reason: "agorabus reload spawn: "@ + why,
                        },
                    ),
                ),
                ReloadView::Exited { bounced, new_pid } => if bounced {
                    self.end(
                        Ok(
                            UnitRestart {
                                path: RestartPath::AgorabuReload,
                                restarted: true,
                                new_pid,
                            },
                        ),
                    )
                } else {
                    self.systemctl(
                        seq![
                            LineView::Warn(
                                "rollout: agorabus reload failed or unavailable — falling back to systemctl restart"@,
                            ),
                        ],
                    )
                },
            },
            (UnitPhase::Systemctl, UnitEventView::Ran(ran)) => match ran {
                CommandView::NotSpawned(why) => self.end(
                    Err(
                        RolloutErrorView::BuildFailed {
                            name: self.unit,
                            reason: "systemctl restart spawn: "@ + why,
                        },
                    ),
                ),
                CommandView::Exited { success, code } => self.end(
                    Ok(
                        UnitRestart {
                            path: RestartPath::Systemctl,
                            restarted: success,
                            new_pid: None,
                        },
                    ),
                ),
            },
            _ => self.go(self.phase, seq![], UnitActionView::Ignored),
        }
    }
}

/// What a step gives: what is told, and what is to be done.
#[derive(Debug)]
pub struct UnitStep {
    pub lines: Vec<Line>,
    pub action: UnitAction,
}

impl UnitRun {
    /// The restart of a unit, before its first step.
    pub fn new(unit: String) -> (r: UnitRun)
        ensures
            r@ == (UnitView { unit: unit@, phase: UnitPhase::Start }),
    {
        UnitRun { unit, phase: UnitPhase::Start }
    }

    fn systemctl(&mut self, lines: Vec<Line>) -> (r: UnitStep)
        ensures
            (UnitMove { state: final(self)@, lines: line_views(r.lines@), action: r.action@ })
                == old(self)@.systemctl(line_views(lines@)),
    {
        self.phase = UnitPhase::Systemctl;
        UnitStep { lines, action: UnitAction::Systemctl { unit: self.unit.clone() } }
    }

    fn end(&mut self, result: Result<UnitRestart, RolloutError>) -> (r: UnitStep)
        ensures
            (UnitMove { state: final(self)@, lines: line_views(r.lines@), action: r.action@ })
                == old(self)@.end(unit_restart_result(result)),
    {
        self.phase = UnitPhase::Done;
        UnitStep { lines: no_lines(), action: UnitAction::Finish(result) }
    }

    /// Take the next step of the restart.
    pub fn restart_unit(&mut self, event: UnitEvent) -> (r: UnitStep)
        ensures
            (UnitMove { state: final(self)@, lines: line_views(r.lines@), action: r.action@ })
                == old(self)@.step(event@),
    {
        match (self.phase, event) {
            (UnitPhase::Start, UnitEvent::Begin) => {
                if same(self.unit.as_str(), AGORABUS_UNIT) {
                    self.phase = UnitPhase::Ask;
                    UnitStep { lines: no_lines(), action: UnitAction::AskReload }
                } else {
                    self.systemctl(no_lines())
                }
            },
            (UnitPhase::Ask, UnitEvent::ReloadAvailable(available)) => {
                if available {
                    self.phase = UnitPhase::Reload;
                    UnitStep { lines: no_lines(), action: UnitAction::Reload }
                } else {
                    self.systemctl(no_lines())
                }
            },
            (UnitPhase::Reload, UnitEvent::Reloaded(reloaded)) => {
                match reloaded {
                    ReloadOutcome::NotSpawned(why) => self.end(
                        Err(
                            RolloutError::BuildFailed {
                                name: "agorabus".to_owned(),
                                reason: "agorabus reload spawn: ".to_owned().concat(why.as_str()),
                            },
                        ),
                    ),
                    ReloadOutcome::Exited { success, stdout } => {
                        let (bounced, new_pid) = run_agorabus_reload(success, stdout.as_slice());
                        if bounced {
                            self.end(
                                Ok(
                                    UnitRestart {
                                        path: RestartPath::AgorabuReload,
                                        restarted: true,
                                        new_pid,
                                    },
                                ),
                            )
                        } else {
                            self.systemctl(
                                one_line(
                                    Line::Warn(
                                        "rollout: agorabus reload failed or unavailable — falling back to systemctl restart".to_owned(),
                                    ),
                                ),
                            )
                        }
                    },
                }
            },
            (UnitPhase::Systemctl, UnitEvent::Ran(ran)) => {
                match ran {
                    CommandOutcome::NotSpawned(why) => {
                        let e = RolloutError::BuildFailed {
                            name: self.unit.clone(),
                            reason: "systemctl restart spawn: ".to_owned().concat(why.as_str()),
                        };
                        self.end(Err(e))
                    },
                    CommandOutcome::Exited { success, code } => self.end(
                        Ok(
                            UnitRestart {
                                path: RestartPath::Systemctl,
                                restarted: success,
                                new_pid: None,
                            },
                        ),
                    ),
                }
            },
            _ => UnitStep { lines: no_lines(), action: UnitAction::Ignored },
        }
    }
}

// ---------------------------------------------------------------------------
// What a unit runs
// ---------------------------------------------------------------------------

/// What the process of a restarted unit was found to be.
#[derive(Debug, Clone, Copy, PartialEq, Eq, Structural)]
pub enum VerifyResult {
    /// It runs the installed binary.
    Current,
    /// It runs another binary.
    Stale,
    /// The unit is not active.
    UnitInactive,
    /// It could not be looked at, or was not.
    Skipped,
}

impl VerifyResult {
    /// The word for the result.
    pub open spec fn word(self) -> Seq<char> {
        match self {
            VerifyResult::Current => "current"@,
            VerifyResult::Stale => "stale"@,
            VerifyResult::UnitInactive => "unit-inactive"@,
            VerifyResult::Skipped => "skipped"@,
        }
    }

    /// The word for the result.
    pub fn to_string(&self) -> (r: String)
        ensures
            r@ == self.word(),
    {
        match self {
            VerifyResult::Current => "current".to_owned(),
            VerifyResult::Stale => "stale".to_owned(),
            VerifyResult::UnitInactive => "unit-inactive".to_owned(),
            VerifyResult::Skipped => "skipped".to_owned(),
        }
    }
}

/// The pid that `systemctl show` printed for a unit's main process; 0 counts as none.
pub open spec fn main_pid(stdout: Seq<char>) -> Option<u32> {
    match natural_up_to(trimmed(stdout), u32::MAX as nat) {
        Some(n) => if n == 0 {
            None
        } else {
            Some(n as u32)
        },
        None => None,
    }
}

/// The pid of a unit's main process, from what `systemctl show` printed where it ran.
pub fn unit_main_pid(stdout: Option<&str>) -> (r: Option<u32>)
    ensures
        r == (match opt_text(stdout) {
            Some(s) => main_pid(s),
            None => None,
        }),
{
    match stdout {
        Some(s) => match parse_u64(trim(s)) {
            Ok(n) => if n == 0 || n > 0xffff_ffff {
                None
            } else {
                Some(n as u32)
            },
            Err(_) => None,
        },
        None => None,
    }
}

/// The executable of a process.
#[derive(Debug)]
pub struct ExeLink {
    /// Where its link points.
    pub target: String,
    /// That place, resolved as far as it exists.
    pub resolved: String,
    /// The installed binary, resolved as far as it exists.
    pub dest: String,
}

/// Whether an executable whose link points to `target` was deleted since.
pub open spec fn is_deleted(target: Seq<char>) -> bool {
    " (deleted)"@.is_suffix_of(target)
}

/// Whether an executable whose link points to `target` was deleted since.
pub fn exe_deleted(target: &str) -> (r: bool)
    ensures
        r == is_deleted(target@),
{
    ends_with(target, " (deleted)")
}

/// Whether a process runs the installed binary; not where its link could not be read.
pub open spec fn runs_dest(link: Option<ExeLink>) -> bool {
    link matches Some(l) && !is_deleted(l.target@) && same_place(l.resolved@, l.dest@)
}

/// Whether a process runs the installed binary.
pub fn proc_exe_is_current(link: &Option<ExeLink>) -> (r: bool)
    ensures
        r == runs_dest(*link),
{
    match link {
        Some(l) => !exe_deleted(l.target.as_str()) && same_path(
            l.resolved.as_str(),
            l.dest.as_str(),
        ),
        None => false,
    }
}

/// What a restarted unit is found to run: whether it is active, how it was restarted, and,
/// where its main process is known, whether that runs the installed binary.
///
/// A bus daemon that reloaded itself is not looked at.
pub open spec fn unit_verified(
    active: bool,
    path: RestartPath,
    exe_is_current: Option<bool>,
) -> VerifyResult {
    if !active {
        VerifyResult::UnitInactive
    } else if path == RestartPath::AgorabuReload {
        VerifyResult::Current
    } else {
        match exe_is_current {
            Some(current) => if current {
                VerifyResult::Current
            } else {
                VerifyResult::Stale
            },
            None => VerifyResult::Skipped,
        }
    }
}

/// What a restarted unit is found to run.
pub fn verify_unit(active: bool, path: RestartPath, exe_is_current: Option<bool>) -> (r:
    VerifyResult)
    ensures
        r == unit_verified(active, path, exe_is_current),
{
    if !active {
        return VerifyResult::UnitInactive;
    }
    if path == RestartPath::AgorabuReload {
        return VerifyResult::Current;
    }
    match exe_is_current {
        Some(current) => if current {
            VerifyResult::Current
        } else {
            VerifyResult::Stale
        },
        None => VerifyResult::Skipped,
    }
}

// ---------------------------------------------------------------------------
// Laws
// ---------------------------------------------------------------------------

/// The restart after the given events.
pub open spec fn unit_after(s: UnitView, events: Seq<UnitEventView>) -> UnitView
    decreases events.len(),
{
    if events.len() == 0 {
        s
    } else {
        unit_after(s, events.drop_last()).step(events.last()).state
    }
}

/// Only the bus daemon's own unit can be restarted by a reload: for every other unit the
/// reload is neither asked for nor run, and the restart goes through `systemctl`.
pub proof fn law_only_agorabus_reloads(s: UnitView, events: Seq<UnitEventView>, next: UnitEventView)
    requires
        s.phase == UnitPhase::Start,
        s.unit != AGORABUS_UNIT@,
    ensures
        ({
            let action = unit_after(s, events).step(next).action;
            &&& !(action is AskReload) && !(action is Reload)
            &&& action matches UnitActionView::Finish(r) ==> (r matches Ok(u) ==> u.path
                == RestartPath::Systemctl && u.new_pid is None)
        }),
{
    lemma_no_reload(s, events);
}

proof fn lemma_no_reload(s: UnitView, events: Seq<UnitEventView>)
    requires
        s.phase == UnitPhase::Start,
        s.unit != AGORABUS_UNIT@,
    ensures
        unit_after(s, events).unit == s.unit,
        unit_after(s, events).phase != UnitPhase::Ask,
        unit_after(s, events).phase != UnitPhase::Reload,
    decreases events.len(),
{
    if events.len() > 0 {
        lemma_no_reload(s, events.drop_last());
    }
}

/// A restart through a reload is reported only with a new pid, and always as done.
pub proof fn law_reload_reports_pid(s: UnitView, event: UnitEventView)
    requires
        event matches UnitEventView::Reloaded(ReloadView::Exited { bounced, new_pid }) ==> (bounced
            ==> new_pid is Some),
    ensures
        s.step(event).action matches UnitActionView::Finish(r) ==> (r matches Ok(u) ==> (u.path
            == RestartPath::AgorabuReload ==> u.restarted && u.new_pid is Some)),
{
}

/// Whatever a reload prints, it counts as done only where it names a new pid; and one that does
/// not count as done hands on no pid.
pub proof fn law_reload_needs_pid(status: Option<Seq<char>>, new_pid: Option<u64>, success: bool)
    ensures
        reload_result(status, new_pid, success).0 ==> new_pid is Some,
        reload_result(status, new_pid, success).0 <==> reload_result(
            status,
            new_pid,
            success,
        ).1 is Some,
{
}

/// A unit is reported as current only while it is active, and a deleted executable is never
/// current.
pub proof fn law_current_is_active(active: bool, path: RestartPath, link: Option<ExeLink>)
    ensures
        unit_verified(active, path, Some(runs_dest(link))) == VerifyResult::Current ==> active,
        path != RestartPath::AgorabuReload && (link matches Some(l) && is_deleted(l.target@))
            ==> unit_verified(active, path, Some(runs_dest(link))) != VerifyResult::Current,
{
}

/// Naming the same place is an equivalence of paths.
pub proof fn law_same_place(a: Seq<char>, b: Seq<char>, c: Seq<char>)
    ensures
        same_place(a, a),
        same_place(a, b) == same_place(b, a),
        same_place(a, b) && same_place(b, c) ==> same_place(a, c),
{
}

/// A unit is found only where a program that it starts is the binary, and under the name of
/// its file. That no unit starts it is said only where there is no directory of units or all
/// of its entries were looked at.
pub proof fn law_found_unit_starts_dest(s: SearchView, event: FindEventView)
    ensures
        s.step(event).1 matches FindActionView::Finish(r) ==> (r matches Ok(found) ==> (
        match found {
            Some(unit) => s.phase == FindPhase::Resolve && unit == unit_or_unknown(s.unit) && (
            event matches FindEventView::Resolved(programs) && starts_dest(programs, s.dest)),
            None => event is DirMissing || event is EntriesOver,
        })),
{
}

/// Only unit files are read: what is at hand while one is read is the name of an entry with
/// the extension `service`.
pub proof fn law_only_services_read(s: SearchView, event: FindEventView)
    ensures
        s.step(event).1 is ReadUnit ==> (event matches FindEventView::Entry { name, extension }
            && extension == Some("service"@) && s.step(event).0.unit == name),
{
}

/// Whether an event tells what came of an action of a search.
pub open spec fn find_answers(action: FindActionView, event: FindEventView) -> bool {
    match action {
        FindActionView::OpenDir { .. } => event is DirMissing || event is DirUnreadable
            || event is DirOpened,
        FindActionView::NextEntry => event is EntryUnreadable || event is EntriesOver
            || event is Entry,
        FindActionView::ReadUnit => event is Contents,
        FindActionView::Resolve { .. } => event is Resolved,
        FindActionView::Finish(_) => false,
        FindActionView::Ignored => false,
    }
}

/// A search is never stuck: it begins when it is told to, and whatever came of an action moves
/// it on.
pub proof fn law_search_never_stuck(s: SearchView, event: FindEventView, answer: FindEventView)
    ensures
        s.phase == FindPhase::Start && event is Begin ==> !(s.step(event).1 is Ignored),
        find_answers(s.step(event).1, answer) ==> !(s.step(event).0.step(answer).1 is Ignored),
{
}

/// Whether an event tells what came of an action of a restart.
pub open spec fn unit_answers(action: UnitActionView, event: UnitEventView) -> bool {
    match action {
        UnitActionView::AskReload => event is ReloadAvailable,
        UnitActionView::Reload => event is Reloaded,
        UnitActionView::Systemctl { .. } => event is Ran,
        UnitActionView::Finish(_) => false,
        UnitActionView::Ignored => false,
    }
}

/// A restart of a unit is never stuck: it begins when it is told to, and whatever came of an
/// action moves it on.
pub proof fn law_unit_restart_never_stuck(s: UnitView, event: UnitEventView, answer: UnitEventView)
    ensures
        s.phase == UnitPhase::Start && event is Begin ==> !(s.step(event).action is Ignored),
        unit_answers(s.step(event).action, answer) ==> !(s.step(event).state.step(
            answer,
        ).action is Ignored),
{
}

/// A unit that is named after its daemon with `.service` runs that daemon; any other runs a daemon
/// of its own name.
pub proof fn law_daemon_of_unit(daemon: Seq<char>)
    ensures
        daemon_of_unit(daemon + ".service"@) == daemon,
        !".service"@.is_suffix_of(daemon) ==> daemon_of_unit(daemon) == daemon,
{
    law_affixes(daemon, ".service"@, daemon);
}

proof fn lemma_piece_len(s: Seq<char>)
    ensures
        piece_len(s) <= s.len(),
        forall|i: int| 0 <= i < piece_len(s) ==> #[trigger] s[i] != '/',
        piece_len(s) < s.len() ==> s[piece_len(s) as int] == '/',
    decreases s.len(),
{
    if s.len() > 0 && s[0] != '/' {
        let t = s.skip(1);
        lemma_piece_len(t);
        assert forall|i: int| 0 <= i < piece_len(s) implies #[trigger] s[i] != '/' by {
            if i > 0 {
                assert(t[i - 1] == s[i]);
            }
        }
        if piece_len(s) < s.len() {
            assert(t[piece_len(t) as int] == s[piece_len(s) as int]);
        }
    }
}

proof fn lemma_piece_len_is(s: Seq<char>, n: int)
    requires
        0 <= n <= s.len(),
        n < s.len() ==> s[n] == '/',
        forall|i: int| 0 <= i < n ==> #[trigger] s[i] != '/',
    ensures
        piece_len(s) == n,
{
    lemma_piece_len(s);
    if piece_len(s) < n {
        assert(s[piece_len(s) as int] != '/');
    }
    if piece_len(s) > n {
        assert(s[n] != '/');
    }
}

/// The pieces of two paths with a slash between them are those of the first and then those of the
/// second. A path without a slash is one piece, or none where it is empty or `.`.
pub proof fn law_path_parts(a: Seq<char>, b: Seq<char>)
    ensures
        path_parts(a + seq!['/'] + b) == path_parts(a) + path_parts(b),
        !a.contains('/') ==> path_parts(a) == if a.len() == 0 || a == "."@ {
            seq![]
        } else {
            seq![a]
        },
    decreases a.len(),
{
    let s = a + seq!['/'] + b;
    let n = piece_len(a) as int;
    lemma_piece_len(a);
    assert forall|i: int| 0 <= i < n implies #[trigger] s[i] != '/' by {
        assert(s[i] == a[i]);
    }
    if n == a.len() {
        assert(s[n] == '/');
    } else {
        assert(s[n] == a[n]);
        assert(a.contains(a[n]));
    }
    lemma_piece_len_is(s, n);
    assert(s.take(n) =~= a.take(n));
    if n == a.len() {
        assert(s.skip(n + 1) =~= b);
        assert(a.take(n) =~= a);
        if a.len() == 0 {
            assert(path_parts(a) + path_parts(b) =~= path_parts(b));
        } else if a == "."@ {
            assert(path_parts(a) =~= seq![]);
            assert(path_parts(a) + path_parts(b) =~= path_parts(b));
        } else {
            assert(path_parts(a) =~= seq![a]);
        }
    } else {
        let rest = a.skip(n + 1);
        assert(s.skip(n + 1) =~= rest + seq!['/'] + b);
        law_path_parts(rest, b);
        let piece = a.take(n);
        if piece.len() == 0 || piece == "."@ {
            assert(path_parts(s) == path_parts(a) + path_parts(b));
        } else {
            assert(seq![piece] + (path_parts(rest) + path_parts(b)) =~= (seq![piece] + path_parts(
                rest,
            )) + path_parts(b));
        }
    }
}

/// Paths that name the same place are both absolute or both relative and have the same pieces. A
/// doubled slash, a slash at the end and a `.` between two pieces make no difference.
pub proof fn law_same_place_by_pieces(a: Seq<char>, b: Seq<char>)
    ensures
        same_place(a, b) ==> path_parts(a) == path_parts(b) && "/"@.is_prefix_of(a)
            == "/"@.is_prefix_of(b),
        a.len() > 0 && a[0] == '/' && b.len() > 0 && b[0] == '/' && path_parts(a) == path_parts(b)
            ==> same_place(a, b),
        a.len() > 0 && a[0] == '/' ==> same_place(a + seq!['/'], a) && same_place(
            a + seq!['/', '/'] + b,
            a + seq!['/'] + b,
        ) && same_place(a + seq!['/', '.', '/'] + b, a + seq!['/'] + b),
{
    reveal_strlit("/");
    reveal_strlit(".");
    assert("/"@ =~= seq!['/']);
    if a.len() > 0 && a[0] == '/' {
        let none = Seq::<char>::empty();
        law_path_parts(a, none);
        assert(a + seq!['/'] + none =~= a + seq!['/']);
        assert(path_parts(a) + path_parts(none) =~= path_parts(a));
        lemma_absolute(a, a + seq!['/']);
        let one = a + seq!['/'] + b;
        let two = a + seq!['/', '/'] + b;
        let dot = a + seq!['/', '.', '/'] + b;
        law_path_parts(a, b);
        law_path_parts(a + seq!['/'], b);
        assert(two =~= (a + seq!['/']) + seq!['/'] + b);
        law_path_parts(a, seq!['.']);
        law_path_parts(seq!['.'], none);
        assert("."@ =~= seq!['.']);
        assert(!seq!['.'].contains('/'));
        assert(path_parts(a) + path_parts(seq!['.']) =~= path_parts(a));
        let here = a + seq!['/'] + seq!['.'];
        law_path_parts(here, b);
        assert(dot =~= here + seq!['/'] + b);
        lemma_absolute(two, one);
        lemma_absolute(dot, one);
        if b.len() > 0 && b[0] == '/' {
            lemma_absolute(a, b);
        }
    }
}

proof fn lemma_absolute(a: Seq<char>, b: Seq<char>)
    requires
        a.len() > 0 && a[0] == '/',
        b.len() > 0 && b[0] == '/',
    ensures
        "/"@.is_prefix_of(a) && "/"@.is_prefix_of(b),
        starts_here(a) == starts_here(b),
{
    reveal_strlit("/");
    reveal_strlit(".");
    assert("/"@ =~= seq!['/']);
    assert(a.take(1) =~= "/"@);
    assert(b.take(1) =~= "/"@);
    assert("."@.len() == 1);
    assert(piece_len(a) == 0 && piece_len(b) == 0);
}

/// The runtime directory is the one that is set. Where none is, it is named after the user id that
/// was printed, and where none was printed either, after the user 1000.
pub proof fn law_runtime_directory(dir: Seq<char>, id: Option<Seq<char>>, uid: nat)
    ensures
        runtime_directory(Some(dir), id) == dir,
        runtime_directory(None, Some(dec(uid) + seq!['\n'])) == "/run/user/"@ + dec(uid),
        runtime_directory(None, None) == "/run/user/"@ + dec(1000),
{
    lemma_printed_number(uid);
    reveal_strlit("/run/user/");
    reveal_strlit("/run/user/1000");
    reveal_with_fuel(dec, 5);
    assert(dec(1000) =~= seq!['1', '0', '0', '0']);
    assert("/run/user/1000"@ =~= "/run/user/"@ + dec(1000));
}

proof fn lemma_printed_number(n: nat)
    ensures
        trimmed(dec(n) + seq!['\n']) == dec(n),
        trimmed(dec(n)) == dec(n),
{
    law_decimal_reads_back(n, n);
    let digits = dec(n);
    assert forall|i: int| 0 <= i < digits.len() implies !is_white(#[trigger] digits[i]) by {
        assert('0' <= digits[i] <= '9');
        law_white_space(digits[i]);
    }
    let none = Seq::<char>::empty();
    law_trimmed_run(none, digits, seq!['\n']);
    assert(none + digits + seq!['\n'] =~= digits + seq!['\n']);
    law_trimmed_run(none, digits, none);
    assert(none + digits + none =~= digits);
}

proof fn lemma_no_specifier(s: Seq<char>, letter: char)
    requires
        !s.contains('%'),
    ensures
        forall|i: int|
            0 <= i < s.len() ==> !(seq!['%', letter]).is_prefix_of(#[trigger] s.skip(i)),
{
    assert forall|i: int| 0 <= i < s.len() implies !(seq!['%', letter]).is_prefix_of(
        #[trigger] s.skip(i),
    ) by {
        if (seq!['%', letter]).is_prefix_of(s.skip(i)) {
            assert(s.skip(i)[0] == '%');
            assert(s.contains(s[i]));
        }
    }
}

/// `%h` stands for the home directory and `%t` for the runtime directory; what has no `%` is left as
/// it is.
pub proof fn law_specifiers(rest: Seq<char>, home: Seq<char>, runtime: Seq<char>)
    requires
        !rest.contains('%'),
        !home.contains('%'),
    ensures
        specifiers_expanded(rest, home, runtime) == rest,
        specifiers_expanded(seq!['%', 'h'] + rest, home, runtime) == home + rest,
        specifiers_expanded(seq!['%', 't'] + rest, home, runtime) == runtime + rest,
{
    let none = Seq::<char>::empty();
    reveal_strlit("%h");
    reveal_strlit("%t");
    assert("%h"@ =~= seq!['%', 'h']);
    assert("%t"@ =~= seq!['%', 't']);
    lemma_no_specifier(rest, 'h');
    lemma_no_specifier(rest, 't');
    law_nothing_to_replace(rest, "%h"@, home);
    law_nothing_to_replace(rest, "%t"@, runtime);
    law_replaced(none, "%h"@, home, rest);
    assert(none + "%h"@ + rest =~= seq!['%', 'h'] + rest);
    assert(none + home + rest =~= home + rest);
    let there = home + rest;
    assert(!there.contains('%')) by {
        if there.contains('%') {
            let i = there.index_of('%');
            if i < home.len() {
                assert(home.contains(home[i]));
            } else {
                assert(rest.contains(rest[i - home.len()]));
            }
        }
    }
    lemma_no_specifier(there, 't');
    law_nothing_to_replace(there, "%t"@, runtime);
    let s = seq!['%', 't'] + rest;
    assert forall|i: int| 0 <= i < s.len() implies !"%h"@.is_prefix_of(#[trigger] s.skip(i)) by {
        if "%h"@.is_prefix_of(s.skip(i)) {
            assert(s.skip(i)[0] == "%h"@[0] && s.skip(i)[1] == "%h"@[1]);
            if i == 0 {
                assert(s[1] == 't');
            } else if i == 1 {
                assert(s[1] == 't');
            } else {
                assert(rest.contains(rest[i - 2]));
            }
        }
    }
    law_nothing_to_replace(s, "%h"@, home);
    law_replaced(none, "%t"@, runtime, rest);
    assert(none + "%t"@ + rest =~= s);
    assert(none + runtime + rest =~= runtime + rest);
}

/// A line starts a program where it is, behind white space, `ExecStart=` with a path: the program is
/// that path, up to the next white space. Its arguments do not matter.
pub proof fn law_exec_start(
    indent: Seq<char>,
    program: Seq<char>,
    args: Seq<char>,
    home: Seq<char>,
    runtime: Seq<char>,
)
    requires
        forall|i: int| 0 <= i < indent.len() ==> is_white(#[trigger] indent[i]),
        program.len() > 0,
        program[0] == '/',
        forall|i: int| 0 <= i < program.len() ==> !is_white(#[trigger] program[i]),
        !program.contains('%'),
        args.len() > 0 ==> is_white(args[0]) && !is_white(args.last()),
        !home.contains('%'),
    ensures
        line_program(indent + "ExecStart="@ + program + args, home, runtime) == Some(program),
{
    let key = "ExecStart="@;
    let line = indent + key + program + args;
    let rest = program + args;
    let t = key + rest;
    reveal_strlit("ExecStart=");
    law_white_space('E');
    assert(key[0] == 'E');
    lemma_trimmed_between(indent, t);
    assert(line =~= indent + t);
    assert(t.take(key.len() as int) =~= key);
    assert(key.is_prefix_of(t));
    assert(t.skip(key.len() as int) =~= rest);
    assert(!key.is_prefix_of(rest)) by {
        assert(rest[0] == '/');
    }
    assert(without_prefixes(rest, key) == rest);
    let none = Seq::<char>::empty();
    assert(rest[0] == program[0]);
    lemma_trimmed_between(none, rest);
    assert(none + rest =~= rest);
    law_word_is_first_run(none, program, args);
    assert(none + program + args =~= rest);
    law_specifiers(program, home, runtime);
}

proof fn lemma_trimmed_between(before: Seq<char>, t: Seq<char>)
    requires
        forall|i: int| 0 <= i < before.len() ==> is_white(#[trigger] before[i]),
        t.len() > 0,
        !is_white(t[0]),
        !is_white(t.last()),
    ensures
        trimmed(before + t) == t,
{
    let s = before + t;
    let b = before.len() as int;
    let cut = law_trimmed(s);
    assert(s[b] == t[0]);
    assert(s[s.len() - 1] == t.last());
    if cut.0 > b {
        assert(is_white(s[b]));
    }
    if cut.1 < s.len() {
        assert(is_white(s[s.len() - 1]));
    }
    if cut.0 < b {
        assert(s[cut.0] == before[cut.0]);
    }
    assert(s.subrange(b, s.len() as int) =~= t);
}

/// A line that is not `ExecStart=` behind its white space starts nothing, and neither does one with
/// nothing behind it.
pub proof fn law_other_lines_start_nothing(line: Seq<char>, home: Seq<char>, runtime: Seq<char>)
    ensures
        !"ExecStart="@.is_prefix_of(trimmed(line)) ==> line_program(line, home, runtime) is None,
        trimmed(line) == "ExecStart="@ ==> line_program(line, home, runtime) is None,
{
    let key = "ExecStart="@;
    if trimmed(line) == key {
        reveal_strlit("ExecStart=");
        let none = key.skip(key.len() as int);
        assert(key.take(key.len() as int) =~= key);
        assert(none.len() == 0);
        assert(without_prefixes(none, key) == none);
        assert(without_prefixes(key, key) == none);
        let cut = law_trimmed(none);
        let word = law_first_word(trimmed(none));
        assert(word_at_start(trimmed(none)).len() == 0);
    }
}

/// The programs of two runs of lines are those of the first and then those of the second, and a line
/// alone starts its own.
pub proof fn law_programs_in_order(
    a: Seq<Seq<char>>,
    b: Seq<Seq<char>>,
    line: Seq<char>,
    home: Seq<char>,
    runtime: Seq<char>,
)
    ensures
        programs_of(a + b, home, runtime) == programs_of(a, home, runtime) + programs_of(
            b,
            home,
            runtime,
        ),
        programs_of(seq![line], home, runtime) == match line_program(line, home, runtime) {
            Some(p) => seq![p],
            None => seq![],
        },
    decreases b.len(),
{
    assert(seq![line].drop_last() =~= Seq::<Seq<char>>::empty());
    assert(programs_of(seq![line].drop_last(), home, runtime) =~= Seq::<Seq<char>>::empty());
    assert(seq![line].last() == line);
    if let Some(p) = line_program(line, home, runtime) {
        assert(Seq::<Seq<char>>::empty().push(p) =~= seq![p]);
    }
    if b.len() == 0 {
        assert(a + b =~= a);
        assert(programs_of(a, home, runtime) + programs_of(b, home, runtime) =~= programs_of(
            a,
            home,
            runtime,
        ));
    } else {
        let shorter = b.drop_last();
        law_programs_in_order(a, shorter, line, home, runtime);
        assert((a + b).drop_last() =~= a + shorter);
        assert((a + b).last() == b.last());
        assert(programs_of(a + b, home, runtime) =~= programs_of(a, home, runtime) + programs_of(
            b,
            home,
            runtime,
        ));
    }
}

/// A unit starts the binary at a place where any of its programs is at that place, whichever it is.
pub proof fn law_any_program_counts(programs: Seq<Seq<char>>, dest: Seq<char>, i: int)
    requires
        0 <= i < programs.len(),
    ensures
        same_place(programs[i], dest) ==> starts_dest(programs, dest),
        starts_dest(seq![programs[i]], dest) <==> same_place(programs[i], dest),
{
    if starts_dest(seq![programs[i]], dest) {
        let j = choose|j: int|
            0 <= j < 1 && same_place(#[trigger] seq![programs[i]][j], dest);
        assert(seq![programs[i]][j] == programs[i]);
    }
    if same_place(programs[i], dest) {
        assert(same_place(seq![programs[i]][0], dest));
    }
}

/// The search after the given events.
pub open spec fn search_after(s: SearchView, events: Seq<FindEventView>) -> SearchView
    decreases events.len(),
{
    if events.len() == 0 {
        s
    } else {
        search_after(s, events.drop_last()).step(events.last()).0
    }
}

/// What a search is made with never changes.
pub proof fn law_search_keeps_its_terms(s: SearchView, events: Seq<FindEventView>)
    ensures
        ({
            let now = search_after(s, events);
            now.units_dir == s.units_dir && now.home == s.home && now.runtime == s.runtime
                && now.dest == s.dest
        }),
    decreases events.len(),
{
    if events.len() > 0 {
        law_search_keeps_its_terms(s, events.drop_last());
    }
}

/// What follows what came of an action of a search. It opens the directory of the units and goes
/// through all of its entries: of each unit file that can be read the programs are resolved, any
/// other entry is passed over. The first unit with a program at the place ends it; a directory that
/// does not exist or has no more entries ends it without a unit, and one that cannot be read with an
/// error that names it.
pub proof fn law_search_goes_on(s: SearchView, event: FindEventView, answer: FindEventView)
    ensures
        ({
            let first = s.step(event);
            let then = first.0.step(answer);
            let failed = then.1 matches FindActionView::Finish(r) && (r matches Err(e) && e is Io
                && mentions(e->Io_0, s.units_dir));
            &&& s.phase == FindPhase::Start && event is Begin ==> first.1 == (
            FindActionView::OpenDir { dir: s.units_dir })
            &&& first.1 is OpenDir ==> match answer {
                FindEventView::DirMissing => then.1 == FindActionView::Finish(Ok(None)),
                FindEventView::DirUnreadable(why) => failed,
                FindEventView::DirOpened => then.1 is NextEntry,
                _ => then.1 is Ignored,
            }
            &&& first.1 is NextEntry ==> match answer {
                FindEventView::EntriesOver => then.1 == FindActionView::Finish(Ok(None)),
                FindEventView::EntryUnreadable(why) => failed,
                FindEventView::Entry { name, extension } => if extension == Some("service"@) {
                    then.1 is ReadUnit && then.0.unit == name
                } else {
                    then.1 is NextEntry
                },
                _ => then.1 is Ignored,
            }
            &&& first.1 is ReadUnit ==> match answer {
                FindEventView::Contents(Some(text)) => then.1 == (FindActionView::Resolve {
                    programs: programs_of(lines_of(text), s.home, s.runtime),
                }) && then.0.unit == first.0.unit,
                FindEventView::Contents(None) => then.1 is NextEntry,
                _ => then.1 is Ignored,
            }
            &&& first.1 is Resolve ==> match answer {
                FindEventView::Resolved(programs) => if exists|i: int|
                    0 <= i < programs.len() && same_place(#[trigger] programs[i], s.dest) {
                    then.1 == FindActionView::Finish(
                        Ok(
                            Some(
                                match s.unit {
                                    Some(name) => name,
                                    None => "unknown.service"@,
                                },
                            ),
                        ),
                    )
                } else {
                    then.1 is NextEntry
                },
                _ => then.1 is Ignored,
            }
        }),
{
    let first = s.step(event);
    if let FindEventView::DirUnreadable(why) = answer {
        let t = "read_dir "@ + s.units_dir + ": "@ + why;
        assert(t =~= "read_dir "@ + s.units_dir + (": "@ + why));
        lemma_mentions(t, "read_dir "@, s.units_dir, ": "@ + why);
    }
    if let FindEventView::EntryUnreadable(why) = answer {
        let t = "dir entry in "@ + s.units_dir + ": "@ + why;
        assert(t =~= "dir entry in "@ + s.units_dir + (": "@ + why));
        lemma_mentions(t, "dir entry in "@, s.units_dir, ": "@ + why);
    }
}

/// A reload counts as done exactly when it names a new pid and says `ok`, or says nothing of itself
/// and exited well; it then hands on that pid.
pub proof fn law_reload_result(status: Option<Seq<char>>, new_pid: Option<u64>, success: bool)
    ensures
        reload_result(status, new_pid, success).0 <==> new_pid is Some && (status == Some("ok"@)
            || status is None && success),
        reload_result(status, new_pid, success).0 && new_pid->Some_0 <= u32::MAX ==> reload_result(
            status,
            new_pid,
            success,
        ).1 == Some(new_pid->Some_0 as u32),
{
}

/// What follows what came of an action of a unit's restart. The bus daemon's unit is asked whether
/// it can reload itself, and reloads where it can; any other unit, one that cannot reload, and one
/// whose reload did not count as done go through `systemctl`. What `systemctl` and the reload say is
/// what is reported.
pub proof fn law_unit_restart_goes_on(s: UnitView, event: UnitEventView, answer: UnitEventView)
    ensures
        ({
            let first = s.step(event);
            let then = first.state.step(answer);
            let through_systemctl = then.action == (UnitActionView::Systemctl { unit: s.unit });
            &&& first.state.unit == s.unit
            &&& s.phase == UnitPhase::Start && event is Begin ==> if s.unit == "agorabus.service"@ {
                first.action is AskReload
            } else {
                first.action == (UnitActionView::Systemctl { unit: s.unit })
            }
            &&& first.action is AskReload ==> match answer {
                UnitEventView::ReloadAvailable(available) => if available {
                    then.action is Reload
                } else {
                    through_systemctl
                },
                _ => then.action is Ignored,
            }
            &&& first.action is Reload ==> match answer {
                UnitEventView::Reloaded(ReloadView::Exited { bounced, new_pid }) => if bounced {
                    then.action == UnitActionView::Finish(
                        Ok(
                            UnitRestart {
                                path: RestartPath::AgorabuReload,
                                restarted: true,
                                new_pid,
                            },
                        ),
                    )
                } else {
                    through_systemctl && then.lines.len() == 1
                },
                UnitEventView::Reloaded(ReloadView::NotSpawned(why)) => then.action matches
                    UnitActionView::Finish(r) && (r matches Err(e) && e is BuildFailed
                    && e->BuildFailed_name == "agorabus"@ && why.is_suffix_of(
                    e->BuildFailed_reason,
                )),
                _ => then.action is Ignored,
            }
            &&& first.action is Systemctl ==> match answer {
                UnitEventView::Ran(CommandView::Exited { success, code }) => then.action
                    == UnitActionView::Finish(
                    Ok(
                        UnitRestart {
                            path: RestartPath::Systemctl,
                            restarted: success,
                            new_pid: None,
                        },
                    ),
                ),
                UnitEventView::Ran(CommandView::NotSpawned(why)) => then.action matches
                    UnitActionView::Finish(r) && (r matches Err(e) && e is BuildFailed
                    && e->BuildFailed_name == s.unit && why.is_suffix_of(e->BuildFailed_reason)),
                _ => then.action is Ignored,
            }
        }),
{
    if let UnitEventView::Reloaded(ReloadView::NotSpawned(why)) = answer {
        let t = "agorabus reload spawn: "@ + why;
        assert(t.subrange(t.len() - why.len(), t.len() as int) =~= why);
    }
    if let UnitEventView::Ran(CommandView::NotSpawned(why)) = answer {
        let t = "systemctl restart spawn: "@ + why;
        assert(t.subrange(t.len() - why.len(), t.len() as int) =~= why);
    }
}

/// A printed pid is read as it is, with or without a line end; 0 and what is no number of 32 bits
/// count as none.
pub proof fn law_main_pid(n: nat, text: Seq<char>)
    ensures
        0 < n <= u32::MAX ==> main_pid(dec(n) + seq!['\n']) == Some(n as u32) && main_pid(dec(n))
            == Some(n as u32),
        n == 0 || n > u32::MAX ==> main_pid(dec(n) + seq!['\n']) is None,
        natural(trimmed(text)) is None ==> main_pid(text) is None,
{
    lemma_printed_number(n);
    law_decimal_reads_back(n, u32::MAX as nat);
}

/// An inactive unit is reported as that, however it was restarted. An active bus daemon that
/// reloaded itself is current. Any other active unit is current or stale as its main process runs
/// the installed binary or another, and is not judged where that process is not known.
pub proof fn law_unit_verdict(active: bool, path: RestartPath, current: Option<bool>)
    ensures
        unit_verified(active, path, current) == VerifyResult::UnitInactive <==> !active,
        unit_verified(active, path, current) == VerifyResult::Current <==> active && (path
            == RestartPath::AgorabuReload || current == Some(true)),
        unit_verified(active, path, current) == VerifyResult::Stale <==> active && path
            != RestartPath::AgorabuReload && current == Some(false),
        unit_verified(active, path, current) == VerifyResult::Skipped <==> active && path
            != RestartPath::AgorabuReload && current is None,
{
}

/// A process runs the installed binary exactly when its link could be read, was not marked as
/// deleted, and resolves to the place of the binary.
pub proof fn law_runs_dest(link: Option<ExeLink>)
    ensures
        runs_dest(link) <==> {
            &&& link is Some
            &&& !" (deleted)"@.is_suffix_of(link->Some_0.target@)
            &&& same_place(link->Some_0.resolved@, link->Some_0.dest@)
        },
{
}

/// The model of a reload is what its printed verdict and its exit say: the text `status` and the
/// number `new_pid` of the document, and whether it exited well.
pub proof fn law_reload_model(r: ReloadOutcome)
    ensures
        match r {
            ReloadOutcome::NotSpawned(why) => r@ == ReloadView::NotSpawned(why@),
            ReloadOutcome::Exited { success, stdout } => {
                let status = json_text_member(stdout@, "status"@);
                let pid = json_number_member(stdout@, "new_pid"@);
                &&& r@ is Exited
                &&& r@->bounced <==> pid is Some && (status == Some("ok"@) || status is None
                    && success)
                &&& r@->bounced && pid->Some_0 <= u32::MAX ==> r@->new_pid == Some(
                    pid->Some_0 as u32,
                )
                &&& !r@->bounced ==> r@->new_pid is None
            },
        },
{
}

/// The words for how a unit was restarted and for what it was found to run.
pub proof fn law_words()
    ensures
        RestartPath::AgorabuReload.word() == "agorabus-reload"@,
        RestartPath::Systemctl.word() == "systemctl"@,
        RestartPath::NoRestart.word() == "none"@,
        VerifyResult::Current.word() == "current"@,
        VerifyResult::Stale.word() == "stale"@,
        VerifyResult::UnitInactive.word() == "unit-inactive"@,
        VerifyResult::Skipped.word() == "skipped"@,
{
}

/// The models of what happens in a search and in the restart of a unit, and of their results, keep
/// what was given.
pub proof fn law_unit_event_models(
    found: FindEvent,
    event: UnitEvent,
    unit: Result<Option<String>, RolloutError>,
    restart: Result<UnitRestart, RolloutError>,
)
    ensures
        match found {
            FindEvent::Begin => found@ is Begin,
            FindEvent::DirMissing => found@ is DirMissing,
            FindEvent::DirUnreadable(why) => found@ == FindEventView::DirUnreadable(why@),
            FindEvent::DirOpened => found@ is DirOpened,
            FindEvent::EntryUnreadable(why) => found@ == FindEventView::EntryUnreadable(why@),
            FindEvent::EntriesOver => found@ is EntriesOver,
            FindEvent::Entry { name, extension } => found@ == (FindEventView::Entry {
                name: opt_string(name),
                extension: opt_string(extension),
            }),
            FindEvent::Contents(Some(text)) => found@ == FindEventView::Contents(Some(text@)),
            FindEvent::Contents(None) => found@ == FindEventView::Contents(None),
            FindEvent::Resolved(programs) => found@ == FindEventView::Resolved(texts(programs@)),
        },
        match event {
            UnitEvent::Begin => event@ is Begin,
            UnitEvent::ReloadAvailable(b) => event@ == UnitEventView::ReloadAvailable(b),
            UnitEvent::Reloaded(r) => event@ == UnitEventView::Reloaded(r@),
            UnitEvent::Ran(ran) => event@ == UnitEventView::Ran(ran@),
        },
        unit matches Ok(u) ==> unit_result(unit) == Ok::<Option<Seq<char>>, RolloutErrorView>(
            opt_string(u),
        ),
        unit matches Err(e) ==> unit_result(unit) == Err::<Option<Seq<char>>, RolloutErrorView>(e@),
        restart matches Ok(u) ==> unit_restart_result(restart) == Ok::<
            UnitRestart,
            RolloutErrorView,
        >(u),
        restart matches Err(e) ==> unit_restart_result(restart) == Err::<
            UnitRestart,
            RolloutErrorView,
        >(e@),
{
}

} // verus!
