//! Command-line values, and the plan that is printed before anything is touched.

use crate::error::{RolloutError, RolloutErrorView};
use crate::fleet::{
    law_validation, names_validated, outcome, DaemonRecipe, FleetConfig, RecipeView,
};
use crate::output::{lemma_lines_push, line_views, no_lines, one_line, Line, LineView};
use crate::scan::{
    entry_names, entry_views, filter_only, names_of, only_entries, BinstaleEntry, EntryView,
};
use crate::text::{
    copy_option, debug_form, debug_text, dec, decimal, law_affixes, lemma_mentions, mentions,
    natural_up_to, opt_string, opt_text, parse_u64, strip_suffix, u64_error, without_suffix,
};
use crate::warmswap::{
    restart_strategy_label, strategy_label, swap_claim, swap_claim_for_recipe, swaps_warm,
};
use vstd::prelude::*;

verus! {

// ---------------------------------------------------------------------------
// Durations
// ---------------------------------------------------------------------------

/// A number of units of `scale` seconds each, or why `s` is none.
pub open spec fn scaled(s: Seq<char>, unit: Seq<char>, scale: nat) -> Result<nat, Seq<char>> {
    match natural_up_to(s, u64::MAX as nat) {
        Some(n) => Ok(n * scale),
        None => Err("invalid "@ + unit + ": "@ + u64_error(s)),
    }
}

/// What a duration like `30s`, `2m` or `1h` consists of: its number as text, the name of its
/// unit, and how many seconds the unit has.
pub open spec fn duration_parts(s: Seq<char>) -> Option<(Seq<char>, Seq<char>, nat)> {
    match without_suffix(s, "s"@) {
        Some(n) => Some((n, "seconds"@, 1nat)),
        None => match without_suffix(s, "m"@) {
            Some(n) => Some((n, "minutes"@, 60nat)),
            None => match without_suffix(s, "h"@) {
                Some(n) => Some((n, "hours"@, 3600nat)),
                None => None,
            },
        },
    }
}

/// How many seconds a duration like `30s`, `2m` or `1h` lasts, or why `s` is none.
pub open spec fn duration_secs(s: Seq<char>) -> Result<nat, Seq<char>> {
    match duration_parts(s) {
        Some((n, unit, scale)) => scaled(n, unit, scale),
        None => Err(
            "unsupported duration format: "@ + debug_form(s) + "; use e.g. 30s, 2m, 1h"@,
        ),
    }
}

/// Whether a duration, if it is one, is at most the largest number of seconds of 64 bits.
pub open spec fn duration_fits(s: Seq<char>) -> bool {
    match duration_parts(s) {
        Some((n, unit, scale)) => natural_up_to(n, u64::MAX as nat) matches Some(k) ==> k * scale
            <= u64::MAX,
        None => true,
    }
}

/// A number or a complaint, as models.
pub open spec fn secs_result(r: Result<u64, String>) -> Result<nat, Seq<char>> {
    match r {
        Ok(n) => Ok(n as nat),
        Err(e) => Err(e@),
    }
}

fn parse_scaled(s: &str, unit: &str, scale: u64) -> (r: Result<u128, String>)
    ensures
        match r {
            Ok(n) => scaled(s@, unit@, scale as nat) == Ok::<nat, Seq<char>>(n as nat),
            Err(e) => scaled(s@, unit@, scale as nat) == Err::<nat, Seq<char>>(e@),
        },
{
    match parse_u64(s) {
        Ok(n) => {
            assert(n * scale <= u64::MAX * u64::MAX) by (nonlinear_arith)
                requires
                    n <= u64::MAX,
                    scale <= u64::MAX,
            ;
            assert(0 <= n * scale) by (nonlinear_arith)
                requires
                    n >= 0,
                    scale >= 0,
            ;
            Ok(n as u128 * scale as u128)
        },
        Err(e) => Err("invalid ".to_owned().concat(unit).concat(": ").concat(e.as_str())),
    }
}

/// How many seconds a duration lasts, with room for any number of hours.
fn duration(s: &str) -> (r: Result<u128, String>)
    ensures
        match r {
            Ok(n) => duration_secs(s@) == Ok::<nat, Seq<char>>(n as nat),
            Err(e) => duration_secs(s@) == Err::<nat, Seq<char>>(e@),
        },
{
    match strip_suffix(s, "s") {
        Some(n) => parse_scaled(n, "seconds", 1),
        None => match strip_suffix(s, "m") {
            Some(n) => parse_scaled(n, "minutes", 60),
            None => match strip_suffix(s, "h") {
                Some(n) => parse_scaled(n, "hours", 3600),
                None => Err(
                    "unsupported duration format: ".to_owned().concat(
                        debug_text(s).as_str(),
                    ).concat("; use e.g. 30s, 2m, 1h"),
                ),
            },
        },
    }
}

/// Whether a duration, if it is one, fits the number of seconds that [`parse_duration`] gives.
pub fn duration_in_range(s: &str) -> (r: bool)
    ensures
        r == duration_fits(s@),
{
    match duration(s) {
        Ok(n) => n <= 0xffff_ffff_ffff_ffff,
        Err(_) => true,
    }
}

/// How many seconds a duration like `30s`, `2m` or `1h` lasts, or why `s` is none.
pub fn parse_duration(s: &str) -> (r: Result<u64, String>)
    requires
        duration_fits(s@),
    ensures
        secs_result(r) == duration_secs(s@),
{
    match duration(s) {
        Ok(n) => Ok(n as u64),
        Err(e) => Err(e),
    }
}

// ---------------------------------------------------------------------------
// Fleet generation
// ---------------------------------------------------------------------------

/// The arguments of `fleet-gen`, as they were given.
#[derive(Debug)]
pub struct FleetGenCliArgs {
    pub out: Option<String>,
    pub match_regex: Option<String>,
}

/// The arguments with which a fleet configuration is derived.
#[derive(Debug)]
pub struct FleetGenArgs {
    pub out: Option<String>,
    pub match_regex: Option<String>,
}

/// The arguments with which a fleet configuration is derived.
pub fn run_fleet_gen_cmd(args: &FleetGenCliArgs) -> (r: FleetGenArgs)
    ensures
        opt_string(r.out) == opt_string(args.out),
        opt_string(r.match_regex) == opt_string(args.match_regex),
{
    FleetGenArgs { out: copy_option(&args.out), match_regex: copy_option(&args.match_regex) }
}

// ---------------------------------------------------------------------------
// The plan
// ---------------------------------------------------------------------------

/// The lines that tell the steps of a warm swap.
pub open spec fn swap_sequence(claim: Seq<char>) -> Seq<LineView> {
    seq![
        LineView::Out("  warm-swap sequence:"@),
        LineView::Out("    1. install binary → dest"@),
        LineView::Out("    2. launch successor (systemd-run --user --scope)"@),
        LineView::Out("    3. wait for ClaimAcquire on '"@ + claim + "'"@),
        LineView::Out("    4. stop predecessor (systemctl --user stop)"@),
        LineView::Out("    5. verify exactly 1 holder on '"@ + claim + "'"@),
    ]
}

/// The lines that tell what would be done for the entry with the number `i` of `n`.
pub open spec fn plan_entry(i: nat, n: nat, entry: EntryView, recipe: RecipeView) -> Seq<LineView> {
    let head = seq![
        LineView::Out(
            "["@ + dec(i + 1) + "/"@ + dec(n) + "] "@ + entry.comm + " (pid="@ + dec(
                entry.pid as nat,
            ) + ", verdict="@ + entry.verdict + ")"@,
        ),
        LineView::Out("  exe:     "@ + entry.exe_path),
    ];
    let repo = match recipe.repo {
        Some(dir) => seq![LineView::Out("  repo:    "@ + dir)],
        None => seq![],
    };
    let steps = seq![
        LineView::Out("  strategy: "@ + strategy_label(recipe)),
        LineView::Out("  build:   "@ + recipe.build_cmd),
        LineView::Out("  install: "@ + recipe.install_cmd),
        LineView::Out("  launch:  "@ + recipe.launch_cmd),
        LineView::Out("  health:  "@ + recipe.healthcheck_cmd()),
        LineView::Out("  grace:   "@ + dec(recipe.grace_period_secs) + "s"@),
    ];
    let swap = match swap_claim(recipe) {
        Some(claim) => swap_sequence(claim),
        None => seq![],
    };
    head + repo + steps + swap + seq![LineView::Out(""@)]
}

/// The lines that tell what would be done for the first `k` entries.
pub open spec fn plan_entries(
    fleet: Map<Seq<char>, RecipeView>,
    stale: Seq<EntryView>,
    k: nat,
) -> Seq<LineView>
    decreases k,
{
    if k == 0 {
        seq![]
    } else {
        let i = (k - 1) as nat;
        plan_entries(fleet, stale, i) + plan_entry(
            i,
            stale.len(),
            stale[i as int],
            fleet[stale[i as int].comm],
        )
    }
}

/// What a plan gives: what is told, and whether it could be made.
///
/// Nothing is told of a fleet that lacks a recipe.
pub open spec fn plan(
    fleet: Map<Seq<char>, RecipeView>,
    all: Seq<EntryView>,
    only: Option<Seq<char>>,
) -> (Seq<LineView>, Result<(), RolloutErrorView>) {
    let stale = only_entries(all, only);
    if stale.len() == 0 {
        (
            seq![LineView::Out("rollout plan: no stale daemons found. Nothing to do."@)],
            Ok(()),
        )
    } else {
        match names_validated(fleet, entry_names(stale)) {
            Err(e) => (seq![], Err(e)),
            Ok(_) => (
                seq![
                    LineView::Out(
                        "rollout plan: "@ + dec(stale.len()) + " stale daemon(s) found"@,
                    ),
                    LineView::Out(""@),
                ] + plan_entries(fleet, stale, stale.len()),
                Ok(()),
            ),
        }
    }
}

fn push_swap_sequence(lines: &mut Vec<Line>, claim: &str)
    ensures
        line_views(final(lines)@) == line_views(old(lines)@) + swap_sequence(claim@),
{
    broadcast use lemma_lines_push;

    let ghost before = line_views(lines@);
    lines.push(Line::Out("  warm-swap sequence:".to_owned()));
    lines.push(Line::Out("    1. install binary → dest".to_owned()));
    lines.push(Line::Out("    2. launch successor (systemd-run --user --scope)".to_owned()));
    lines.push(
        Line::Out("    3. wait for ClaimAcquire on '".to_owned().concat(claim).concat("'")),
    );
    lines.push(Line::Out("    4. stop predecessor (systemctl --user stop)".to_owned()));
    lines.push(
        Line::Out("    5. verify exactly 1 holder on '".to_owned().concat(claim).concat("'")),
    );
    assert(line_views(lines@) =~= before + swap_sequence(claim@));
}

fn push_plan_entry(
    lines: &mut Vec<Line>,
    i: usize,
    n: usize,
    entry: &BinstaleEntry,
    recipe: &DaemonRecipe,
)
    ensures
        line_views(final(lines)@) == line_views(old(lines)@) + plan_entry(
            i as nat,
            n as nat,
            entry@,
            recipe@,
        ),
{
    broadcast use lemma_lines_push;

    let ghost before = line_views(lines@);
    lines.push(
        Line::Out(
            "[".to_owned().concat(decimal(i as u128 + 1).as_str()).concat("/").concat(
                decimal(n as u128).as_str(),
            ).concat("] ").concat(entry.comm.as_str()).concat(" (pid=").concat(
                decimal(entry.pid as u128).as_str(),
            ).concat(", verdict=").concat(entry.verdict.as_str()).concat(")"),
        ),
    );
    lines.push(Line::Out("  exe:     ".to_owned().concat(entry.exe_path.as_str())));
    let ghost head = seq![
        LineView::Out(
            "["@ + dec(i as nat + 1) + "/"@ + dec(n as nat) + "] "@ + entry@.comm + " (pid="@
                + dec(entry@.pid as nat) + ", verdict="@ + entry@.verdict + ")"@,
        ),
        LineView::Out("  exe:     "@ + entry@.exe_path),
    ];
    assert(line_views(lines@) =~= before + head);
    match &recipe.repo {
        Some(dir) => {
            lines.push(Line::Out("  repo:    ".to_owned().concat(dir.as_str())));
        },
        None => {},
    }
    let ghost repo = match recipe@.repo {
        Some(dir) => seq![LineView::Out("  repo:    "@ + dir)],
        None => seq![],
    };
    assert(line_views(lines@) =~= before + head + repo);
    let label = restart_strategy_label(recipe);
    lines.push(Line::Out("  strategy: ".to_owned().concat(label)));
    lines.push(Line::Out("  build:   ".to_owned().concat(recipe.build_cmd.as_str())));
    lines.push(Line::Out("  install: ".to_owned().concat(recipe.install_cmd.as_str())));
    lines.push(Line::Out("  launch:  ".to_owned().concat(recipe.launch_cmd.as_str())));
    lines.push(Line::Out("  health:  ".to_owned().concat(recipe.healthcheck_cmd().as_str())));
    lines.push(
        Line::Out(
            "  grace:   ".to_owned().concat(
                decimal(recipe.grace_period_secs as u128).as_str(),
            ).concat("s"),
        ),
    );
    let ghost steps = seq![
        LineView::Out("  strategy: "@ + label@),
        LineView::Out("  build:   "@ + recipe@.build_cmd),
        LineView::Out("  install: "@ + recipe@.install_cmd),
        LineView::Out("  launch:  "@ + recipe@.launch_cmd),
        LineView::Out("  health:  "@ + recipe@.healthcheck_cmd()),
        LineView::Out("  grace:   "@ + dec(recipe@.grace_period_secs) + "s"@),
    ];
    assert(line_views(lines@) =~= before + head + repo + steps);
    let ghost swap = match swap_claim(recipe@) {
        Some(claim) => swap_sequence(claim),
        None => seq![],
    };
    match swap_claim_for_recipe(recipe) {
        Some(claim) => push_swap_sequence(lines, claim.as_str()),
        None => {},
    }
    assert(line_views(lines@) =~= before + head + repo + steps + swap);
    lines.push(Line::Out("".to_owned()));
    assert(line_views(lines@) =~= before + plan_entry(i as nat, n as nat, entry@, recipe@));
}

/// The plan for the stale daemons of a scan: what is told, and whether it could be made.
pub fn run_plan(fleet: &FleetConfig, all: Vec<BinstaleEntry>, only: Option<&str>) -> (r: (
    Vec<Line>,
    Result<(), RolloutError>,
))
    ensures
        (line_views(r.0@), outcome(r.1)) == plan(fleet@, entry_views(all@), opt_text(only)),
{
    broadcast use lemma_lines_push;

    let stale = filter_only(all, only);
    let n: usize = stale.len();
    let ghost models = entry_views(stale@);
    assert(models.len() == n);
    if n == 0 {
        return (
            one_line(
                Line::Out("rollout plan: no stale daemons found. Nothing to do.".to_owned()),
            ),
            Ok(()),
        );
    }
    match fleet.validate_names(&names_of(&stale)) {
        Ok(_) => {},
        Err(e) => {
            return (no_lines(), Err(e));
        },
    }
    let mut lines: Vec<Line> = Vec::new();
    lines.push(
        Line::Out(
            "rollout plan: ".to_owned().concat(decimal(n as u128).as_str()).concat(
                " stale daemon(s) found",
            ),
        ),
    );
    lines.push(Line::Out("".to_owned()));
    let ghost head = seq![
        LineView::Out("rollout plan: "@ + dec(n as nat) + " stale daemon(s) found"@),
        LineView::Out(""@),
    ];
    assert(line_views(lines@) =~= head + plan_entries(fleet@, models, 0));
    proof {
        law_validation(fleet@, entry_names(models));
    }
    let mut i: usize = 0;
    while i < n
        invariant
            n == stale@.len(),
            i <= n,
            models == entry_views(stale@),
            names_validated(fleet@, entry_names(models)) is Ok,
            forall|j: int|
                0 <= j < entry_names(models).len() ==> fleet@.contains_key(
                    #[trigger] entry_names(models)[j],
                ),
            line_views(lines@) == head + plan_entries(fleet@, models, i as nat),
        decreases n - i,
    {
        let entry = &stale[i];
        assert(models[i as int] == entry@);
        assert(entry_names(models)[i as int] == entry@.comm);
        match fleet.get(entry.comm.as_str()) {
            Some(recipe) => {
                let ghost before = line_views(lines@);
                push_plan_entry(&mut lines, i, n, entry, recipe);
                assert(line_views(lines@) =~= head + plan_entries(fleet@, models, (i + 1) as nat));
            },
            None => {},
        }
        i = i + 1;
    }
    (lines, Ok(()))
}

/// A plan is refused exactly when something is stale and some stale daemon has no recipe, and
/// then nothing is told.
pub proof fn law_plan_refuses_unknown(
    fleet: Map<Seq<char>, RecipeView>,
    all: Seq<EntryView>,
    only: Option<Seq<char>>,
)
    ensures
        plan(fleet, all, only).1 is Err <==> exists|i: int|
            0 <= i < only_entries(all, only).len() && !fleet.contains_key(
                (#[trigger] only_entries(all, only)[i]).comm,
            ),
        plan(fleet, all, only).1 is Err ==> plan(fleet, all, only).0.len() == 0,
{
    let stale = only_entries(all, only);
    let names = entry_names(stale);
    law_validation(fleet, names);
    assert(forall|i: int| 0 <= i < stale.len() ==> names[i] == (#[trigger] stale[i]).comm);
    if names_validated(fleet, names) is Err {
        let i = choose|i: int| 0 <= i < names.len() && !fleet.contains_key(#[trigger] names[i]);
        assert(!fleet.contains_key(stale[i].comm));
    } else {
        assert forall|i: int| 0 <= i < stale.len() implies fleet.contains_key(
            (#[trigger] stale[i]).comm,
        ) by {
            assert(fleet.contains_key(names[i]));
        }
    }
}

/// Whether `part` stands in `lines` as it is, without a gap.
pub open spec fn told_within(lines: Seq<LineView>, part: Seq<LineView>) -> bool {
    exists|i: int|
        0 <= i <= lines.len() - part.len() && #[trigger] lines.subrange(i, i + part.len()) == part
}

proof fn lemma_told_within(before: Seq<LineView>, part: Seq<LineView>, after: Seq<LineView>)
    ensures
        told_within(before + part + after, part),
{
    let i = before.len() as int;
    assert((before + part + after).subrange(i, i + part.len()) =~= part);
}

proof fn lemma_still_within(
    before: Seq<LineView>,
    lines: Seq<LineView>,
    after: Seq<LineView>,
    part: Seq<LineView>,
)
    requires
        told_within(lines, part),
    ensures
        told_within(before + lines + after, part),
{
    let i = choose|i: int|
        0 <= i <= lines.len() - part.len() && #[trigger] lines.subrange(i, i + part.len()) == part;
    let j = before.len() + i;
    assert((before + lines + after).subrange(j, j + part.len()) =~= lines.subrange(
        i,
        i + part.len(),
    ));
}

proof fn lemma_entry_planned(
    fleet: Map<Seq<char>, RecipeView>,
    stale: Seq<EntryView>,
    i: nat,
    k: nat,
)
    requires
        i < k,
    ensures
        told_within(
            plan_entries(fleet, stale, k),
            plan_entry(i, stale.len(), stale[i as int], fleet[stale[i as int].comm]),
        ),
    decreases k,
{
    let j = (k - 1) as nat;
    let part = plan_entry(i, stale.len(), stale[i as int], fleet[stale[i as int].comm]);
    let last = plan_entry(j, stale.len(), stale[j as int], fleet[stale[j as int].comm]);
    let lines = plan_entries(fleet, stale, j);
    if i < j {
        lemma_entry_planned(fleet, stale, i, j);
        lemma_still_within(seq![], lines, last, part);
        assert(seq![] + lines + last =~= plan_entries(fleet, stale, k));
    } else {
        lemma_told_within(lines, last, seq![]);
        assert(lines + last + seq![] =~= plan_entries(fleet, stale, k));
    }
}

/// A plan that could be made tells of every stale daemon what would be done for it.
pub proof fn law_plan_covers_every_entry(
    fleet: Map<Seq<char>, RecipeView>,
    all: Seq<EntryView>,
    only: Option<Seq<char>>,
    i: int,
)
    requires
        plan(fleet, all, only).1 is Ok,
        0 <= i < only_entries(all, only).len(),
    ensures
        ({
            let stale = only_entries(all, only);
            told_within(
                plan(fleet, all, only).0,
                plan_entry(i as nat, stale.len(), stale[i], fleet[stale[i].comm]),
            )
        }),
{
    let stale = only_entries(all, only);
    let part = plan_entry(i as nat, stale.len(), stale[i], fleet[stale[i].comm]);
    let head = seq![
        LineView::Out("rollout plan: "@ + dec(stale.len()) + " stale daemon(s) found"@),
        LineView::Out(""@),
    ];
    let lines = plan_entries(fleet, stale, stale.len());
    lemma_entry_planned(fleet, stale, i as nat, stale.len());
    lemma_still_within(head, lines, seq![], part);
    assert(head + lines + seq![] =~= plan(fleet, all, only).0);
}

/// Whether a line has the looks of the one that names a strategy.
spec fn names_strategy(line: LineView) -> bool {
    line matches LineView::Out(text) && text.len() > 2 && text[0] == ' ' && text[2] == 's'
}

proof fn lemma_head_names_no_strategy(i: nat, n: nat, entry: EntryView, rest: Seq<char>)
    ensures
        !names_strategy(
            LineView::Out(
                "["@ + dec(i + 1) + "/"@ + dec(n) + "] "@ + entry.comm + " (pid="@ + dec(
                    entry.pid as nat,
                ) + ", verdict="@ + entry.verdict + ")"@,
            ),
        ),
        !names_strategy(LineView::Out("  exe:     "@ + rest)),
        !names_strategy(LineView::Out("  repo:    "@ + rest)),
        !names_strategy(LineView::Out("  build:   "@ + rest)),
        !names_strategy(LineView::Out("  install: "@ + rest)),
        !names_strategy(LineView::Out("  launch:  "@ + rest)),
        !names_strategy(LineView::Out("  health:  "@ + rest)),
        !names_strategy(LineView::Out("  grace:   "@ + rest + "s"@)),
        !names_strategy(LineView::Out(""@)),
{
    reveal_strlit("[");
    reveal_strlit("  exe:     ");
    reveal_strlit("  repo:    ");
    reveal_strlit("  build:   ");
    reveal_strlit("  install: ");
    reveal_strlit("  launch:  ");
    reveal_strlit("  health:  ");
    reveal_strlit("  grace:   ");
    reveal_strlit("");
}

proof fn lemma_sequence_names_no_strategy(claim: Seq<char>)
    ensures
        forall|j: int|
            0 <= j < swap_sequence(claim).len() ==> !names_strategy(
                #[trigger] swap_sequence(claim)[j],
            ),
{
    reveal_strlit("  warm-swap sequence:");
    reveal_strlit("    1. install binary → dest");
    reveal_strlit("    2. launch successor (systemd-run --user --scope)");
    reveal_strlit("    3. wait for ClaimAcquire on '");
    reveal_strlit("    4. stop predecessor (systemctl --user stop)");
    reveal_strlit("    5. verify exactly 1 holder on '");
}

/// What a plan tells of an entry names the strategy of its recipe and no other, its build
/// command, and the steps of the swap where there is a claim to swap on.
pub proof fn law_plan_tells_strategy(i: nat, n: nat, entry: EntryView, recipe: RecipeView)
    ensures
        ({
            let told = plan_entry(i, n, entry, recipe);
            &&& told.contains(LineView::Out("  strategy: warm-swap"@)) <==> swaps_warm(recipe)
            &&& told.contains(LineView::Out("  strategy: hard"@)) <==> !swaps_warm(recipe)
            &&& told.contains(LineView::Out("  build:   "@ + recipe.build_cmd))
            &&& swap_claim(recipe) matches Some(claim) ==> told_within(told, swap_sequence(claim))
        }),
{
    let told = plan_entry(i, n, entry, recipe);
    let head = seq![
        LineView::Out(
            "["@ + dec(i + 1) + "/"@ + dec(n) + "] "@ + entry.comm + " (pid="@ + dec(
                entry.pid as nat,
            ) + ", verdict="@ + entry.verdict + ")"@,
        ),
        LineView::Out("  exe:     "@ + entry.exe_path),
    ];
    let repo = match recipe.repo {
        Some(dir) => seq![LineView::Out("  repo:    "@ + dir)],
        None => seq![],
    };
    let strategy = LineView::Out("  strategy: "@ + strategy_label(recipe));
    let steps = seq![
        strategy,
        LineView::Out("  build:   "@ + recipe.build_cmd),
        LineView::Out("  install: "@ + recipe.install_cmd),
        LineView::Out("  launch:  "@ + recipe.launch_cmd),
        LineView::Out("  health:  "@ + recipe.healthcheck_cmd()),
        LineView::Out("  grace:   "@ + dec(recipe.grace_period_secs) + "s"@),
    ];
    let swap = match swap_claim(recipe) {
        Some(claim) => swap_sequence(claim),
        None => seq![],
    };
    let end = seq![LineView::Out(""@)];
    assert(told == head + repo + steps + swap + end);
    let at = (head + repo).len() as int;
    assert(told[at] == strategy);
    assert(told[at + 1] == steps[1]);
    assert forall|j: int| 0 <= j < told.len() && names_strategy(#[trigger] told[j]) implies told[j]
        == strategy by {
        lemma_head_names_no_strategy(i, n, entry, entry.exe_path);
        if let Some(dir) = recipe.repo {
            lemma_head_names_no_strategy(i, n, entry, dir);
        }
        lemma_head_names_no_strategy(i, n, entry, recipe.build_cmd);
        lemma_head_names_no_strategy(i, n, entry, recipe.install_cmd);
        lemma_head_names_no_strategy(i, n, entry, recipe.launch_cmd);
        lemma_head_names_no_strategy(i, n, entry, recipe.healthcheck_cmd());
        lemma_head_names_no_strategy(i, n, entry, dec(recipe.grace_period_secs));
        if let Some(claim) = swap_claim(recipe) {
            lemma_sequence_names_no_strategy(claim);
        }
        if j < head.len() {
            assert(told[j] == head[j]);
        } else if j < at {
            assert(told[j] == repo[j - head.len()]);
        } else if j < at + steps.len() {
            assert(told[j] == steps[j - at]);
        } else if j < at + steps.len() + swap.len() {
            assert(told[j] == swap[j - at - steps.len()]);
        } else {
            assert(told[j] == end[0]);
        }
    }
    reveal_strlit("  strategy: ");
    reveal_strlit("warm-swap");
    reveal_strlit("hard");
    reveal_strlit("  strategy: warm-swap");
    reveal_strlit("  strategy: hard");
    assert("  strategy: "@ + "warm-swap"@ =~= "  strategy: warm-swap"@);
    assert("  strategy: "@ + "hard"@ =~= "  strategy: hard"@);
    assert(names_strategy(LineView::Out("  strategy: warm-swap"@)));
    assert(names_strategy(LineView::Out("  strategy: hard"@)));
    assert("  strategy: warm-swap"@.len() != "  strategy: hard"@.len());
    if let Some(claim) = swap_claim(recipe) {
        lemma_told_within(head + repo + steps, swap, end);
    }
}

/// The unit of a duration scales the number that stands before it.
pub proof fn law_duration_units(n: Seq<char>, value: nat)
    requires
        natural_up_to(n, u64::MAX as nat) == Some(value),
    ensures
        duration_secs(n + "s"@) == Ok::<nat, Seq<char>>(value),
        duration_secs(n + "m"@) == Ok::<nat, Seq<char>>(value * 60),
        duration_secs(n + "h"@) == Ok::<nat, Seq<char>>(value * 3600),
{
    reveal_strlit("s");
    reveal_strlit("m");
    reveal_strlit("h");
    assert("s"@[0] == 's');
    assert("m"@[0] == 'm');
    assert("h"@[0] == 'h');
    let s = n + "s"@;
    let m = n + "m"@;
    let h = n + "h"@;
    assert(s.take(s.len() - 1) =~= n);
    assert(m.take(m.len() - 1) =~= n);
    assert(h.take(h.len() - 1) =~= n);
    assert(m.last() == 'm' && h.last() == 'h');
    assert(!"s"@.is_suffix_of(m)) by {
        assert(m.subrange(m.len() - 1, m.len() as int)[0] == 'm');
    }
    assert(!"s"@.is_suffix_of(h)) by {
        assert(h.subrange(h.len() - 1, h.len() as int)[0] == 'h');
    }
    assert(!"m"@.is_suffix_of(h)) by {
        assert(h.subrange(h.len() - 1, h.len() as int)[0] == 'h');
    }
    assert("s"@.is_suffix_of(s)) by {
        assert(s.subrange(s.len() - 1, s.len() as int) =~= "s"@);
    }
    assert("m"@.is_suffix_of(m)) by {
        assert(m.subrange(m.len() - 1, m.len() as int) =~= "m"@);
    }
    assert("h"@.is_suffix_of(h)) by {
        assert(h.subrange(h.len() - 1, h.len() as int) =~= "h"@);
    }
}

/// A duration that ends in none of the units is refused, and so is one whose number is none; what is
/// told names the unit.
pub proof fn law_duration_refused(s: Seq<char>, n: Seq<char>)
    ensures
        s.len() == 0 || s.last() != 's' && s.last() != 'm' && s.last() != 'h' ==> (duration_secs(
            s,
        ) matches Err(why) && mentions(why, debug_form(s))),
        natural_up_to(n, u64::MAX as nat) is None ==> {
            &&& duration_secs(n + seq!['s']) matches Err(why) && "invalid seconds"@.is_prefix_of(why)
            &&& duration_secs(n + seq!['m']) matches Err(why) && "invalid minutes"@.is_prefix_of(why)
            &&& duration_secs(n + seq!['h']) matches Err(why) && "invalid hours"@.is_prefix_of(why)
        },
{
    reveal_strlit("s");
    reveal_strlit("m");
    reveal_strlit("h");
    assert("s"@ =~= seq!['s']);
    assert("m"@ =~= seq!['m']);
    assert("h"@ =~= seq!['h']);
    lemma_unit(s, 's');
    lemma_unit(s, 'm');
    lemma_unit(s, 'h');
    lemma_mentions(
        "unsupported duration format: "@ + debug_form(s) + "; use e.g. 30s, 2m, 1h"@,
        "unsupported duration format: "@,
        debug_form(s),
        "; use e.g. 30s, 2m, 1h"@,
    );
    if natural_up_to(n, u64::MAX as nat) is None {
        let ns = n + seq!['s'];
        let nm = n + seq!['m'];
        let nh = n + seq!['h'];
        law_affixes(ns, "s"@, n);
        law_affixes(nm, "m"@, n);
        law_affixes(nh, "h"@, n);
        lemma_unit(nm, 's');
        lemma_unit(nh, 's');
        lemma_unit(nh, 'm');
        lemma_refusal("seconds"@, "invalid seconds"@, u64_error(n));
        lemma_refusal("minutes"@, "invalid minutes"@, u64_error(n));
        lemma_refusal("hours"@, "invalid hours"@, u64_error(n));
    }
}

proof fn lemma_unit(s: Seq<char>, c: char)
    ensures
        seq![c].is_suffix_of(s) <==> s.len() > 0 && s.last() == c,
{
    if s.len() > 0 {
        assert(s.subrange(s.len() - 1, s.len() as int) =~= seq![s.last()]);
        if s.last() != c {
            assert(seq![s.last()][0] != seq![c][0]);
        }
    }
}

proof fn lemma_refusal(unit: Seq<char>, head: Seq<char>, why: Seq<char>)
    requires
        unit == "seconds"@ && head == "invalid seconds"@ || unit == "minutes"@ && head
            == "invalid minutes"@ || unit == "hours"@ && head == "invalid hours"@,
    ensures
        head.is_prefix_of("invalid "@ + unit + ": "@ + why),
{
    reveal_strlit("invalid ");
    reveal_strlit("seconds");
    reveal_strlit("minutes");
    reveal_strlit("hours");
    reveal_strlit("invalid seconds");
    reveal_strlit("invalid minutes");
    reveal_strlit("invalid hours");
    let t = "invalid "@ + unit + ": "@ + why;
    assert(t.take(head.len() as int) =~= head);
}

/// A duration fits exactly when its seconds are a number of 64 bits.
pub proof fn law_duration_fits(s: Seq<char>)
    ensures
        duration_fits(s) <==> (duration_secs(s) matches Ok(secs) ==> secs <= u64::MAX),
{
}

/// What a plan tells of an entry: its number, name, pid and verdict first, and further down its
/// executable, its repository where it has one, and each command of its recipe.
pub proof fn law_plan_tells_entry(i: nat, n: nat, entry: EntryView, recipe: RecipeView)
    ensures
        ({
            let told = plan_entry(i, n, entry, recipe);
            &&& told.len() > 0 && told[0] is Out
            &&& ("["@ + dec(i + 1) + "/"@ + dec(n) + "] "@ + entry.comm + " "@).is_prefix_of(
                told[0]->Out_0,
            )
            &&& mentions(told[0]->Out_0, "pid="@ + dec(entry.pid as nat) + ","@)
            &&& mentions(told[0]->Out_0, "verdict="@ + entry.verdict + ")"@)
            &&& told.contains(LineView::Out("  exe:     "@ + entry.exe_path))
            &&& recipe.repo matches Some(dir) ==> told.contains(LineView::Out("  repo:    "@ + dir))
            &&& told.contains(LineView::Out("  build:   "@ + recipe.build_cmd))
            &&& told.contains(LineView::Out("  install: "@ + recipe.install_cmd))
            &&& told.contains(LineView::Out("  launch:  "@ + recipe.launch_cmd))
            &&& told.contains(LineView::Out("  health:  "@ + recipe.healthcheck_cmd()))
            &&& told.contains(LineView::Out("  grace:   "@ + dec(recipe.grace_period_secs) + "s"@))
        }),
{
    let told = plan_entry(i, n, entry, recipe);
    let k = if recipe.repo is Some {
        3int
    } else {
        2int
    };
    assert(told[1] == LineView::Out("  exe:     "@ + entry.exe_path));
    if let Some(dir) = recipe.repo {
        assert(told[2] == LineView::Out("  repo:    "@ + dir));
    }
    assert(told[k + 1] == LineView::Out("  build:   "@ + recipe.build_cmd));
    assert(told[k + 2] == LineView::Out("  install: "@ + recipe.install_cmd));
    assert(told[k + 3] == LineView::Out("  launch:  "@ + recipe.launch_cmd));
    assert(told[k + 4] == LineView::Out("  health:  "@ + recipe.healthcheck_cmd()));
    assert(told[k + 5] == LineView::Out("  grace:   "@ + dec(recipe.grace_period_secs) + "s"@));
    let t = told[0]->Out_0;
    let pid = dec(entry.pid as nat);
    reveal_strlit(" (pid=");
    reveal_strlit(" ");
    reveal_strlit("pid=");
    reveal_strlit(", verdict=");
    reveal_strlit("verdict=");
    reveal_strlit(",");
    reveal_strlit(")");
    let lead = "["@ + dec(i + 1) + "/"@ + dec(n) + "] "@ + entry.comm;
    assert(t == lead + " (pid="@ + pid + ", verdict="@ + entry.verdict + ")"@);
    let head = lead + " "@;
    assert(t.take(head.len() as int) =~= head);
    let a = "pid="@ + pid + ","@;
    let after = ", verdict="@.skip(1) + entry.verdict + ")"@;
    assert(t =~= (lead + " (pid="@.take(2)) + a + after);
    lemma_mentions(t, lead + " (pid="@.take(2), a, after);
    let b = "verdict="@ + entry.verdict + ")"@;
    let before = lead + " (pid="@ + pid + ", verdict="@.take(2);
    assert(t =~= before + b + seq![]);
    lemma_mentions(t, before, b, seq![]);
}

/// A plan begins with how many stale daemons there are; where there are none that is all it tells.
pub proof fn law_plan_counts(
    fleet: Map<Seq<char>, RecipeView>,
    all: Seq<EntryView>,
    only: Option<Seq<char>>,
)
    ensures
        ({
            let stale = only_entries(all, only);
            let told = plan(fleet, all, only).0;
            &&& stale.len() == 0 ==> plan(fleet, all, only).1 is Ok && told.len() == 1
            &&& stale.len() > 0 && plan(fleet, all, only).1 is Ok ==> told.len() >= 2 && told[0]
                is Out && mentions(told[0]->Out_0, ": "@ + dec(stale.len()) + " "@)
        }),
{
    let stale = only_entries(all, only);
    reveal_strlit("rollout plan: ");
    reveal_strlit(" stale daemon(s) found");
    reveal_strlit(": ");
    reveal_strlit(" ");
    let head = "rollout plan: "@;
    let tail = " stale daemon(s) found"@;
    let t = head + dec(stale.len()) + tail;
    let part = ": "@ + dec(stale.len()) + " "@;
    assert(t =~= head.take(12) + part + tail.skip(1));
    lemma_mentions(t, head.take(12), part, tail.skip(1));
}

/// The steps of a swap are told in their order: install, launch, wait for the claim, stop, verify one
/// holder of the claim.
pub proof fn law_swap_sequence(claim: Seq<char>)
    ensures
        ({
            let t = swap_sequence(claim);
            let says = |i: int, word: Seq<char>| t[i] is Out && mentions(t[i]->Out_0, word);
            &&& t.len() == 6
            &&& says(1, "install"@)
            &&& says(2, "launch successor"@)
            &&& says(3, "'"@ + claim + "'"@)
            &&& says(4, "stop predecessor"@)
            &&& says(5, "1 holder on '"@ + claim + "'"@)
        }),
{
    let t = swap_sequence(claim);
    reveal_strlit("    1. install binary → dest");
    reveal_strlit("install");
    reveal_strlit("    2. launch successor (systemd-run --user --scope)");
    reveal_strlit("launch successor");
    reveal_strlit("    3. wait for ClaimAcquire on '");
    reveal_strlit("    4. stop predecessor (systemctl --user stop)");
    reveal_strlit("stop predecessor");
    reveal_strlit("    5. verify exactly 1 holder on '");
    reveal_strlit("1 holder on '");
    reveal_strlit("'");
    let a = t[1]->Out_0;
    assert(a =~= a.take(7) + "install"@ + a.skip(14));
    lemma_mentions(a, a.take(7), "install"@, a.skip(14));
    let b = t[2]->Out_0;
    assert(b =~= b.take(7) + "launch successor"@ + b.skip(23));
    lemma_mentions(b, b.take(7), "launch successor"@, b.skip(23));
    let c = t[3]->Out_0;
    let quoted = "'"@ + claim + "'"@;
    let h3 = "    3. wait for ClaimAcquire on '"@.drop_last();
    assert(c =~= h3 + quoted + seq![]);
    lemma_mentions(c, h3, quoted, seq![]);
    let d = t[4]->Out_0;
    assert(d =~= d.take(7) + "stop predecessor"@ + d.skip(23));
    lemma_mentions(d, d.take(7), "stop predecessor"@, d.skip(23));
    let e = t[5]->Out_0;
    let part = "1 holder on '"@ + claim + "'"@;
    assert(e =~= e.take(22) + part + seq![]);
    lemma_mentions(e, e.take(22), part, seq![]);
}

proof fn lemma_plan_begins(
    fleet: Map<Seq<char>, RecipeView>,
    stale: Seq<EntryView>,
    j: nat,
    k: nat,
) -> (rest: Seq<LineView>)
    requires
        j <= k,
    ensures
        plan_entries(fleet, stale, k) == plan_entries(fleet, stale, j) + rest,
    decreases k,
{
    if j == k {
        assert(plan_entries(fleet, stale, j) + seq![] =~= plan_entries(fleet, stale, k));
        seq![]
    } else {
        let i = (k - 1) as nat;
        let before = lemma_plan_begins(fleet, stale, j, i);
        let last = plan_entry(i, stale.len(), stale[i as int], fleet[stale[i as int].comm]);
        assert(plan_entries(fleet, stale, j) + before + last =~= plan_entries(fleet, stale, j) + (
        before + last));
        before + last
    }
}

/// A plan tells of the stale daemons in their order: what it tells of one stands wholly before what it
/// tells of a later one.
pub proof fn law_plan_in_order(
    fleet: Map<Seq<char>, RecipeView>,
    all: Seq<EntryView>,
    only: Option<Seq<char>>,
    i: int,
    j: int,
)
    requires
        plan(fleet, all, only).1 is Ok,
        0 <= i < j < only_entries(all, only).len(),
    ensures
        ({
            let stale = only_entries(all, only);
            let told = plan(fleet, all, only).0;
            let a = plan_entry(i as nat, stale.len(), stale[i], fleet[stale[i].comm]);
            let b = plan_entry(j as nat, stale.len(), stale[j], fleet[stale[j].comm]);
            exists|p: int, q: int|
                0 <= p && p + a.len() <= q && q + b.len() <= told.len() && #[trigger] told.subrange(
                    p,
                    p + a.len(),
                ) == a && #[trigger] told.subrange(q, q + b.len()) == b
        }),
{
    let stale = only_entries(all, only);
    let told = plan(fleet, all, only).0;
    let n = stale.len();
    let a = plan_entry(i as nat, n, stale[i], fleet[stale[i].comm]);
    let b = plan_entry(j as nat, n, stale[j], fleet[stale[j].comm]);
    let head = seq![
        LineView::Out("rollout plan: "@ + dec(n) + " stale daemon(s) found"@),
        LineView::Out(""@),
    ];
    let first = plan_entries(fleet, stale, j as nat);
    lemma_entry_planned(fleet, stale, i as nat, j as nat);
    let at = choose|at: int|
        0 <= at <= first.len() - a.len() && #[trigger] first.subrange(at, at + a.len()) == a;
    let rest = lemma_plan_begins(fleet, stale, (j + 1) as nat, n);
    assert(plan_entries(fleet, stale, (j + 1) as nat) == first + b);
    assert(told == head + (first + b + rest));
    let p = 2 + at;
    let q = (2 + first.len()) as int;
    assert(told.subrange(p, p + a.len()) =~= first.subrange(at, at + a.len()));
    assert(told.subrange(q, q + b.len()) =~= b);
}

} // verus!
