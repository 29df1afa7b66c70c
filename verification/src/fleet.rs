//! The fleet configuration: one launch recipe per daemon.

use crate::error::{RolloutError, RolloutErrorView};
use crate::paths::{home_file, law_under_home, text_result, under_home};
use crate::table::NameTable;
use crate::text::{
    copy_option, lemma_mentions, lemma_texts_push, mentions, opt_string, opt_text, texts,
};
use vstd::prelude::*;

verus! {

// ---------------------------------------------------------------------------
// Recipes
// ---------------------------------------------------------------------------

/// How one daemon is built, installed, launched and checked.
#[derive(Debug)]
pub struct DaemonRecipe {
    /// The daemon's name, as the scan of running binaries reports it.
    pub name: String,
    /// The source repository, in which the commands run.
    pub repo: Option<String>,
    /// The command that builds the daemon.
    pub build_cmd: String,
    /// The command that installs its binary.
    pub install_cmd: String,
    /// The command that launches it.
    pub launch_cmd: String,
    /// The systemd-user unit that runs it.
    pub unit: Option<String>,
    /// The command that tells whether it has re-registered.
    pub healthcheck: Option<String>,
    /// How long a daemon may ignore SIGTERM before SIGKILL is sent, in seconds.
    pub grace_period_secs: u64,
    /// Whether the daemon is swapped warm.
    pub warm_swap: bool,
    /// The claim that the daemon holds on the bus.
    pub claim_key: Option<String>,
}

/// The model of a [`DaemonRecipe`].
#[verifier::ext_equal]
pub struct RecipeView {
    pub name: Seq<char>,
    pub repo: Option<Seq<char>>,
    pub build_cmd: Seq<char>,
    pub install_cmd: Seq<char>,
    pub launch_cmd: Seq<char>,
    pub unit: Option<Seq<char>>,
    pub healthcheck: Option<Seq<char>>,
    pub grace_period_secs: nat,
    pub warm_swap: bool,
    pub claim_key: Option<Seq<char>>,
}

impl View for DaemonRecipe {
    type V = RecipeView;

    open spec fn view(&self) -> RecipeView {
        RecipeView {
            name: self.name@,
            repo: opt_string(self.repo),
            build_cmd: self.build_cmd@,
            install_cmd: self.install_cmd@,
            launch_cmd: self.launch_cmd@,
            unit: opt_string(self.unit),
            healthcheck: opt_string(self.healthcheck),
            grace_period_secs: self.grace_period_secs as nat,
            warm_swap: self.warm_swap,
            claim_key: opt_string(self.claim_key),
        }
    }
}

/// An optional text that counts only when it is not empty.
pub open spec fn non_empty(o: Option<Seq<char>>) -> Option<Seq<char>> {
    match o {
        Some(s) => if s.len() == 0 {
            None
        } else {
            Some(s)
        },
        None => None,
    }
}

/// An optional text that counts only when it is not empty.
pub fn non_empty_text(o: &Option<String>) -> (r: Option<&str>)
    ensures
        opt_text(r) == non_empty(opt_string(*o)),
{
    match o {
        Some(s) => if s.as_str().unicode_len() == 0 {
            None
        } else {
            Some(s.as_str())
        },
        None => None,
    }
}

/// The build command of a recipe that names none.
pub fn default_build_cmd() -> (r: String)
    ensures
        r@ == "cargo build --release"@,
{
    "cargo build --release".to_owned()
}

/// The grace period of a recipe that names none, in seconds.
pub fn default_grace_period() -> (r: u64)
    ensures
        r == 5,
{
    5
}

impl RecipeView {
    /// The command that tells whether the daemon has re-registered: the recipe's own, or a
    /// search for the daemon's name among the names of the bus peers.
    pub open spec fn healthcheck_cmd(self) -> Seq<char> {
        match self.healthcheck {
            Some(cmd) => cmd,
            None => "agorabus peers | jq -e '.[] | .name' | grep -q "@ + self.name,
        }
    }

    /// The unit that runs the daemon, if one is named.
    pub open spec fn unit_name(self) -> Option<Seq<char>> {
        non_empty(self.unit)
    }
}

impl DaemonRecipe {
    /// The command that tells whether the daemon has re-registered.
    pub fn healthcheck_cmd(&self) -> (r: String)
        ensures
            r@ == self@.healthcheck_cmd(),
    {
        match &self.healthcheck {
            Some(cmd) => cmd.clone(),
            None => "agorabus peers | jq -e '.[] | .name' | grep -q ".to_owned().concat(
                self.name.as_str(),
            ),
        }
    }

    /// The unit that runs the daemon; an empty unit name counts as none.
    pub fn unit_name(&self) -> (r: Option<&str>)
        ensures
            opt_text(r) == self@.unit_name(),
    {
        non_empty_text(&self.unit)
    }
}

impl Clone for DaemonRecipe {
    fn clone(&self) -> (r: Self)
        ensures
            r@ == self@,
    {
        DaemonRecipe {
            name: self.name.clone(),
            repo: copy_option(&self.repo),
            build_cmd: self.build_cmd.clone(),
            install_cmd: self.install_cmd.clone(),
            launch_cmd: self.launch_cmd.clone(),
            unit: copy_option(&self.unit),
            healthcheck: copy_option(&self.healthcheck),
            grace_period_secs: self.grace_period_secs,
            warm_swap: self.warm_swap,
            claim_key: copy_option(&self.claim_key),
        }
    }
}

// ---------------------------------------------------------------------------
// The fleet
// ---------------------------------------------------------------------------

/// What came of reading a fleet configuration file.
#[derive(Debug)]
pub enum FleetRead {
    /// The file could not be read, and why.
    Unreadable(String),
    /// The file was read but is not a fleet configuration, and why.
    Unparseable(String),
    /// The recipes, in the order of the file.
    Parsed(Vec<DaemonRecipe>),
}

/// The recipes of a fleet by daemon name.
pub struct FleetConfig {
    recipes: NameTable<DaemonRecipe>,
    source_path: String,
}

impl View for FleetConfig {
    type V = Map<Seq<char>, RecipeView>;

    closed spec fn view(&self) -> Map<Seq<char>, RecipeView> {
        self.recipes@.map_values(|r: DaemonRecipe| r@)
    }
}

/// The models of a list of recipes.
pub open spec fn recipe_views(v: Seq<DaemonRecipe>) -> Seq<RecipeView> {
    v.map_values(|r: DaemonRecipe| r@)
}

/// Recipes indexed by name; of two recipes with one name the later counts.
pub open spec fn indexed(recipes: Seq<RecipeView>) -> Map<Seq<char>, RecipeView>
    decreases recipes.len(),
{
    if recipes.len() == 0 {
        Map::empty()
    } else {
        indexed(recipes.drop_last()).insert(recipes.last().name, recipes.last())
    }
}

/// What loading a fleet configuration from `path` gives.
pub open spec fn fleet_loaded(path: Seq<char>, read: FleetRead) -> Result<
    Map<Seq<char>, RecipeView>,
    RolloutErrorView,
> {
    match read {
        FleetRead::Unreadable(why) => Err(
            RolloutErrorView::FleetConfig("cannot read "@ + path + ": "@ + why@),
        ),
        FleetRead::Unparseable(why) => Err(
            RolloutErrorView::FleetConfig("parse error in "@ + path + ": "@ + why@),
        ),
        FleetRead::Parsed(recipes) => Ok(indexed(recipe_views(recipes@))),
    }
}

/// A fleet or an error, as models.
pub open spec fn fleet_result(r: Result<FleetConfig, RolloutError>) -> Result<
    Map<Seq<char>, RecipeView>,
    RolloutErrorView,
> {
    match r {
        Ok(f) => Ok(f@),
        Err(e) => Err(e@),
    }
}

/// The names among `names` that the fleet has no recipe for, in their order.
pub open spec fn missing_names(
    fleet: Map<Seq<char>, RecipeView>,
    names: Seq<Seq<char>>,
) -> Seq<Seq<char>>
    decreases names.len(),
{
    if names.len() == 0 {
        Seq::empty()
    } else {
        let before = missing_names(fleet, names.drop_last());
        if fleet.contains_key(names.last()) {
            before
        } else {
            before.push(names.last())
        }
    }
}

/// Nothing, or an error, as models.
pub open spec fn outcome(r: Result<(), RolloutError>) -> Result<(), RolloutErrorView> {
    match r {
        Ok(_) => Ok(()),
        Err(e) => Err(e@),
    }
}

/// What validating `names` against a fleet gives.
pub open spec fn names_validated(
    fleet: Map<Seq<char>, RecipeView>,
    names: Seq<Seq<char>>,
) -> Result<(), RolloutErrorView> {
    let missing = missing_names(fleet, names);
    if missing.len() == 0 {
        Ok(())
    } else {
        Err(RolloutErrorView::UnknownDaemons { names: missing })
    }
}

impl FleetConfig {
    /// Index the recipes that were read from `path`, or say why there are none.
    pub fn load(path: &str, read: FleetRead) -> (r: Result<FleetConfig, RolloutError>)
        ensures
            fleet_result(r) == fleet_loaded(path@, read),
            r matches Ok(f) ==> f.source() == path@,
    {
        match read {
            FleetRead::Unreadable(why) => Err(
                RolloutError::FleetConfig(
                    "cannot read ".to_owned().concat(path).concat(": ").concat(why.as_str()),
                ),
            ),
            FleetRead::Unparseable(why) => Err(
                RolloutError::FleetConfig(
                    "parse error in ".to_owned().concat(path).concat(": ").concat(why.as_str()),
                ),
            ),
            FleetRead::Parsed(list) => {
                let mut recipes: NameTable<DaemonRecipe> = NameTable::new();
                let n: usize = list.len();
                let mut i: usize = 0;
                let ghost all = recipe_views(list@);
                assert(recipes@.map_values(|r: DaemonRecipe| r@) =~= indexed(all.take(0)));
                while i < n
                    invariant
                        n == list@.len(),
                        i <= n,
                        all == recipe_views(list@),
                        recipes@.map_values(|r: DaemonRecipe| r@) == indexed(all.take(i as int)),
                    decreases n - i,
                {
                    let recipe = list[i].clone();
                    let name = recipe.name.clone();
                    let ghost before = recipes@;
                    let ghost value = recipe;
                    proof {
                        assert(all.take(i + 1).drop_last() =~= all.take(i as int));
                        assert(all.take(i + 1).last() == value@);
                        assert(before.insert(name@, value).map_values(|r: DaemonRecipe| r@)
                            =~= before.map_values(|r: DaemonRecipe| r@).insert(name@, value@));
                    }
                    recipes = recipes.insert(name, recipe);
                    i = i + 1;
                }
                assert(all.take(n as int) =~= all);
                Ok(FleetConfig { recipes, source_path: path.to_owned() })
            },
        }
    }

    /// Where the fleet was read from.
    pub closed spec fn source(&self) -> Seq<char> {
        self.source_path@
    }

    /// Where the fleet was read from.
    pub fn source_path(&self) -> (r: &str)
        ensures
            r@ == self.source(),
    {
        self.source_path.as_str()
    }

    /// The recipe for a daemon, if there is one.
    pub fn get(&self, name: &str) -> (r: Option<&DaemonRecipe>)
        ensures
            match r {
                Some(recipe) => self@.contains_key(name@) && recipe@ == self@[name@],
                None => !self@.contains_key(name@),
            },
    {
        self.recipes.get(name)
    }

    /// The names of all daemons with a recipe, each once, in no particular order.
    pub fn all_names(&self) -> (r: Vec<String>)
        ensures
            texts(r@).no_duplicates(),
            forall|k: Seq<char>| texts(r@).contains(k) <==> self@.contains_key(k),
    {
        self.recipes.names()
    }

    /// Check that every name has a recipe; otherwise list those that have none.
    pub fn validate_names(&self, names: &Vec<String>) -> (r: Result<(), RolloutError>)
        ensures
            outcome(r) == names_validated(self@, texts(names@)),
    {
        broadcast use lemma_texts_push;

        let mut missing: Vec<String> = Vec::new();
        let n: usize = names.len();
        let mut i: usize = 0;
        let ghost all = texts(names@);
        while i < n
            invariant
                n == names@.len(),
                i <= n,
                all == texts(names@),
                texts(missing@) == missing_names(self@, all.take(i as int)),
            decreases n - i,
        {
            proof {
                assert(all.take(i + 1).drop_last() =~= all.take(i as int));
                assert(all.take(i + 1).last() == names@[i as int]@);
            }
            if self.get(names[i].as_str()).is_none() {
                missing.push(names[i].clone());
            }
            i = i + 1;
        }
        assert(all.take(n as int) =~= all);
        assert(texts(missing@).len() == missing@.len());
        if missing.len() == 0 {
            Ok(())
        } else {
            Err(RolloutError::UnknownDaemons { names: missing })
        }
    }
}

// ---------------------------------------------------------------------------
// Where the configuration lies
// ---------------------------------------------------------------------------

/// The path of the fleet configuration: the one that was given, or
/// `~/.config/rollout/fleet.toml`.
pub open spec fn fleet_path_spec(path: Option<Seq<char>>, home: Option<Seq<char>>) -> Result<
    Seq<char>,
    RolloutErrorView,
> {
    match path {
        Some(p) => Ok(p),
        None => under_home(home, ".config/rollout/fleet.toml"@),
    }
}

/// `~/.config/rollout/fleet.toml`.
pub fn default_fleet_path(home: Option<&str>) -> (r: Result<String, RolloutError>)
    ensures
        text_result(r) == under_home(opt_text(home), ".config/rollout/fleet.toml"@),
{
    home_file(home, ".config/rollout/fleet.toml")
}

/// The path of the fleet configuration: the one that was given, or the default.
pub fn fleet_path(path: Option<&str>, home: Option<&str>) -> (r: Result<String, RolloutError>)
    ensures
        text_result(r) == fleet_path_spec(opt_text(path), opt_text(home)),
{
    match path {
        Some(p) => Ok(p.to_owned()),
        None => default_fleet_path(home),
    }
}

/// The fleet at the given path or at the default one, from what reading that file gave.
pub fn load_fleet(path: Option<&str>, home: Option<&str>, read: FleetRead) -> (r: Result<
    FleetConfig,
    RolloutError,
>)
    ensures
        fleet_result(r) == (match fleet_path_spec(opt_text(path), opt_text(home)) {
            Ok(p) => fleet_loaded(p, read),
            Err(e) => Err(e),
        }),
{
    match fleet_path(path, home) {
        Ok(p) => FleetConfig::load(p.as_str(), read),
        Err(e) => Err(e),
    }
}

// ---------------------------------------------------------------------------
// Laws
// ---------------------------------------------------------------------------

/// The missing names are exactly the names without a recipe.
pub proof fn law_missing_names(fleet: Map<Seq<char>, RecipeView>, names: Seq<Seq<char>>)
    ensures
        forall|n: Seq<char>| #[trigger]
            missing_names(fleet, names).contains(n) <==> names.contains(n) && !fleet.contains_key(
                n,
            ),
    decreases names.len(),
{
    if names.len() > 0 {
        let before = names.drop_last();
        law_missing_names(fleet, before);
        assert forall|n: Seq<char>| #[trigger]
            missing_names(fleet, names).contains(n) <==> names.contains(n) && !fleet.contains_key(
                n,
            ) by {
            let m = missing_names(fleet, before);
            assert(names =~= before.push(names.last()));
            if before.contains(n) {
                let i = before.index_of(n);
                assert(names[i] == n);
            }
            if names.contains(n) && n != names.last() {
                let i = names.index_of(n);
                assert(before[i] == n);
            }
            if n == names.last() {
                assert(names[names.len() - 1] == n);
            }
            if m.contains(n) {
                let i = m.index_of(n);
                assert(m.push(names.last())[i] == n);
            }
            if m.push(names.last()).contains(n) && n != names.last() {
                let i = m.push(names.last()).index_of(n);
                assert(m[i] == n);
            }
            if n == names.last() {
                assert(m.push(names.last())[m.len() as int] == n);
            }
        }
    }
}

/// Validation succeeds exactly when every name has a recipe.
pub proof fn law_validation(fleet: Map<Seq<char>, RecipeView>, names: Seq<Seq<char>>)
    ensures
        names_validated(fleet, names) is Ok <==> forall|i: int|
            0 <= i < names.len() ==> fleet.contains_key(#[trigger] names[i]),
{
    law_missing_names(fleet, names);
    let m = missing_names(fleet, names);
    if m.len() > 0 {
        assert(m.contains(m[0]));
        let i = names.index_of(m[0]);
        assert(!fleet.contains_key(names[i]));
    } else {
        assert forall|i: int| 0 <= i < names.len() implies fleet.contains_key(
            #[trigger] names[i],
        ) by {
            assert(names.contains(names[i]));
            assert(!m.contains(names[i]));
        }
    }
}

/// A recipe is found under its own name, and a name is found exactly when some recipe of the
/// file has it.
pub proof fn law_indexed(recipes: Seq<RecipeView>, name: Seq<char>)
    ensures
        indexed(recipes).contains_key(name) <==> exists|i: int|
            0 <= i < recipes.len() && (#[trigger] recipes[i]).name == name,
        indexed(recipes).contains_key(name) ==> indexed(recipes)[name].name == name,
    decreases recipes.len(),
{
    if recipes.len() > 0 {
        let before = recipes.drop_last();
        law_indexed(before, name);
        if indexed(before).contains_key(name) {
            let i = choose|i: int| 0 <= i < before.len() && (#[trigger] before[i]).name == name;
            assert(recipes[i].name == name);
        }
        if recipes.last().name == name {
            assert(recipes[recipes.len() - 1].name == name);
        }
        if exists|i: int| 0 <= i < recipes.len() && (#[trigger] recipes[i]).name == name {
            let i = choose|i: int| 0 <= i < recipes.len() && (#[trigger] recipes[i]).name == name;
            if i < recipes.len() - 1 {
                assert(before[i].name == name);
            }
        }
    }
}

/// The missing names of two lists are those of the first and then those of the second: they stand
/// in their order, as often as they were given.
pub proof fn law_missing_in_order(
    fleet: Map<Seq<char>, RecipeView>,
    a: Seq<Seq<char>>,
    b: Seq<Seq<char>>,
    name: Seq<char>,
)
    ensures
        missing_names(fleet, a + b) == missing_names(fleet, a) + missing_names(fleet, b),
        missing_names(fleet, seq![name]) == if fleet.contains_key(name) {
            seq![]
        } else {
            seq![name]
        },
    decreases b.len(),
{
    assert(seq![name].drop_last() =~= Seq::<Seq<char>>::empty());
    assert(missing_names(fleet, seq![name].drop_last()) =~= Seq::<Seq<char>>::empty());
    assert(Seq::<Seq<char>>::empty().push(name) =~= seq![name]);
    if b.len() == 0 {
        assert(a + b =~= a);
        assert(missing_names(fleet, a) + missing_names(fleet, b) =~= missing_names(fleet, a));
    } else {
        let shorter = b.drop_last();
        law_missing_in_order(fleet, a, shorter, name);
        assert((a + b).drop_last() =~= a + shorter);
        assert((a + b).last() == b.last());
        assert(missing_names(fleet, a + b) =~= missing_names(fleet, a) + missing_names(fleet, b));
    }
}

/// Validation that fails names the daemons without a recipe.
pub proof fn law_validation_names_missing(fleet: Map<Seq<char>, RecipeView>, names: Seq<Seq<char>>)
    ensures
        names_validated(fleet, names) matches Err(e) ==> e is UnknownDaemons && forall|n: Seq<char>|
            #[trigger] e->UnknownDaemons_names.contains(n) <==> names.contains(n)
                && !fleet.contains_key(n),
{
    law_missing_names(fleet, names);
}

/// Of the recipes with one name the last counts, as it was given.
pub proof fn law_last_recipe_counts(recipes: Seq<RecipeView>, i: int)
    requires
        0 <= i < recipes.len(),
        forall|j: int|
            i < j < recipes.len() ==> (#[trigger] recipes[j]).name != recipes[i].name,
    ensures
        indexed(recipes).contains_key(recipes[i].name),
        indexed(recipes)[recipes[i].name] == recipes[i],
    decreases recipes.len(),
{
    let before = recipes.drop_last();
    if i < before.len() {
        assert(before[i] == recipes[i]);
        assert forall|j: int| i < j < before.len() implies (#[trigger] before[j]).name
            != before[i].name by {
            assert(recipes[j].name != recipes[i].name);
        }
        law_last_recipe_counts(before, i);
        assert(recipes[recipes.len() - 1].name != recipes[i].name);
    }
}

/// A fleet is loaded exactly where its file was read and understood, and it is that of the recipes
/// in the file; otherwise the error names the file and why.
pub proof fn law_fleet_loads(path: Seq<char>, read: FleetRead)
    ensures
        match fleet_loaded(path, read) {
            Ok(fleet) => read matches FleetRead::Parsed(list) && fleet == indexed(
                recipe_views(list@),
            ),
            Err(e) => {
                let why = match read {
                    FleetRead::Unreadable(w) => w@,
                    FleetRead::Unparseable(w) => w@,
                    FleetRead::Parsed(_) => seq![],
                };
                &&& !(read is Parsed)
                &&& e is FleetConfig
                &&& mentions(e->FleetConfig_0, path)
                &&& why.is_suffix_of(e->FleetConfig_0)
            },
        },
{
    match read {
        FleetRead::Unreadable(w) => {
            let t = "cannot read "@ + path + ": "@ + w@;
            assert(t =~= "cannot read "@ + path + (": "@ + w@));
            lemma_mentions(t, "cannot read "@, path, ": "@ + w@);
            assert(t.subrange(t.len() - w@.len(), t.len() as int) =~= w@);
        },
        FleetRead::Unparseable(w) => {
            let t = "parse error in "@ + path + ": "@ + w@;
            assert(t =~= "parse error in "@ + path + (": "@ + w@));
            lemma_mentions(t, "parse error in "@, path, ": "@ + w@);
            assert(t.subrange(t.len() - w@.len(), t.len() as int) =~= w@);
        },
        FleetRead::Parsed(_) => {},
    }
}

/// A recipe's own healthcheck is what is run. One that has none is looked for by its name among
/// the peers of the bus.
pub proof fn law_healthcheck(recipe: RecipeView)
    ensures
        recipe.healthcheck matches Some(cmd) ==> recipe.healthcheck_cmd() == cmd,
        recipe.healthcheck is None ==> "agorabus peers "@.is_prefix_of(recipe.healthcheck_cmd())
            && (" grep -q "@ + recipe.name).is_suffix_of(recipe.healthcheck_cmd()),
{
    if recipe.healthcheck is None {
        let t = recipe.healthcheck_cmd();
        reveal_strlit("agorabus peers | jq -e '.[] | .name' | grep -q ");
        reveal_strlit("agorabus peers ");
        reveal_strlit(" grep -q ");
        assert(t.take("agorabus peers "@.len() as int) =~= "agorabus peers "@);
        let tail = " grep -q "@ + recipe.name;
        assert(t.subrange(t.len() - tail.len(), t.len() as int) =~= tail);
    }
}

/// A daemon is run by the unit that its recipe names; an empty name is none.
pub proof fn law_unit_name(recipe: RecipeView, unit: Seq<char>)
    ensures
        recipe.unit_name() == Some(unit) <==> recipe.unit == Some(unit) && unit.len() > 0,
        recipe.unit_name() is None <==> recipe.unit is None || recipe.unit->Some_0.len() == 0,
{
}

/// A path that is given goes before the default one, which lies under the home directory.
pub proof fn law_fleet_path(given: Seq<char>, home: Option<Seq<char>>)
    ensures
        fleet_path_spec(Some(given), home) == Ok::<Seq<char>, RolloutErrorView>(given),
        home is None ==> fleet_path_spec(None, home) is Err,
        home matches Some(h) ==> (fleet_path_spec(None, home) matches Ok(p) && h.is_prefix_of(p)
            && ".config/rollout/fleet.toml"@.is_suffix_of(p) && p.len() <= h.len() + 1
            + ".config/rollout/fleet.toml"@.len()),
{
    reveal_strlit("/");
    reveal_strlit(".config/rollout/fleet.toml");
    assert(".config/rollout/fleet.toml"@[0] == '.');
    assert("/"@[0] == '/');
    law_under_home(home, ".config/rollout/fleet.toml"@);
}

/// The model of a recipe keeps each of its fields.
pub proof fn law_recipe_model(r: DaemonRecipe)
    ensures
        r@.name == r.name@ && r@.build_cmd == r.build_cmd@ && r@.install_cmd == r.install_cmd@
            && r@.launch_cmd == r.launch_cmd@,
        r@.repo is Some <==> r.repo is Some,
        r.repo matches Some(dir) ==> r@.repo == Some(dir@),
        r@.unit is Some <==> r.unit is Some,
        r.unit matches Some(unit) ==> r@.unit == Some(unit@),
        r@.healthcheck is Some <==> r.healthcheck is Some,
        r.healthcheck matches Some(cmd) ==> r@.healthcheck == Some(cmd@),
        r@.claim_key is Some <==> r.claim_key is Some,
        r.claim_key matches Some(key) ==> r@.claim_key == Some(key@),
        r@.grace_period_secs == r.grace_period_secs && r@.warm_swap == r.warm_swap,
{
}

/// The models of results keep whether they are good and what they hold; a list of recipes is modelled
/// one by one.
pub proof fn law_fleet_result_models(
    r: Result<(), RolloutError>,
    f: Result<FleetConfig, RolloutError>,
    v: Seq<DaemonRecipe>,
    i: int,
)
    ensures
        outcome(r) is Ok <==> r is Ok,
        r matches Err(e) ==> outcome(r) == Err::<(), RolloutErrorView>(e@),
        f matches Ok(fleet) ==> fleet_result(f) == Ok::<
            Map<Seq<char>, RecipeView>,
            RolloutErrorView,
        >(fleet@),
        f matches Err(e) ==> fleet_result(f) == Err::<Map<Seq<char>, RecipeView>, RolloutErrorView>(
            e@,
        ),
        recipe_views(v).len() == v.len(),
        0 <= i < v.len() ==> recipe_views(v)[i] == v[i]@,
{
}

} // verus!
