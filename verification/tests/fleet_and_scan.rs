//! The fleet configuration and the scan of running binaries.

use rollout::error::RolloutError;
use rollout::fleet::{
    default_build_cmd, default_fleet_path, default_grace_period, fleet_path, load_fleet,
    DaemonRecipe, FleetConfig, FleetRead,
};
use rollout::scan::{
    binstale_args, collect_stale, filter_only, parse_stale_json, scan_source, BinstaleEntry,
    ScanDocument, ScanRead, ScanSource,
};

fn recipe(name: &str, launch: &str) -> DaemonRecipe {
    DaemonRecipe {
        name: name.to_owned(),
        repo: None,
        build_cmd: default_build_cmd(),
        install_cmd: "i".to_owned(),
        launch_cmd: launch.to_owned(),
        unit: None,
        healthcheck: None,
        grace_period_secs: default_grace_period(),
        warm_swap: false,
        claim_key: None,
    }
}

#[test]
fn later_recipes_replace_earlier_ones() {
    let fleet = FleetConfig::load(
        "/f",
        FleetRead::Parsed(vec![recipe("a", "1"), recipe("b", "2"), recipe("a", "3")]),
    )
    .unwrap();
    assert_eq!(fleet.get("a").unwrap().launch_cmd, "3");
    assert_eq!(fleet.get("b").unwrap().launch_cmd, "2");
    assert!(fleet.get("c").is_none());
    assert_eq!(fleet.source_path(), "/f");
    let mut names = fleet.all_names();
    names.sort();
    assert_eq!(names, vec!["a", "b"]);
}

#[test]
fn fleet_files_fail_by_their_cause() {
    let text = |read| match FleetConfig::load("/f", read) {
        Err(e) => e.to_string(),
        Ok(_) => panic!("expected an error"),
    };
    assert_eq!(
        text(FleetRead::Unreadable("No such file".to_owned())),
        "fleet.toml error: cannot read /f: No such file"
    );
    assert_eq!(
        text(FleetRead::Unparseable("bad".to_owned())),
        "fleet.toml error: parse error in /f: bad"
    );
}

#[test]
fn fleet_lies_under_home_unless_given() {
    assert_eq!(default_fleet_path(Some("/h")).unwrap(), "/h/.config/rollout/fleet.toml");
    assert_eq!(fleet_path(Some("/x"), None).unwrap(), "/x");
    assert_eq!(fleet_path(None, Some("/h")).unwrap(), "/h/.config/rollout/fleet.toml");
    match load_fleet(None, None, FleetRead::Parsed(vec![])) {
        Err(e) => assert_eq!(e.to_string(), "fleet.toml error: $HOME not set"),
        Ok(_) => panic!("expected an error"),
    }
    match load_fleet(None, Some("/h"), FleetRead::Unreadable("x".to_owned())) {
        Err(e) => assert_eq!(
            e.to_string(),
            "fleet.toml error: cannot read /h/.config/rollout/fleet.toml: x"
        ),
        Ok(_) => panic!("expected an error"),
    }
}

#[test]
fn missing_recipes_are_listed_in_order() {
    let fleet = FleetConfig::load("/f", FleetRead::Parsed(vec![recipe("b", "")])).unwrap();
    let names = |list: &[&str]| list.iter().map(|n| (*n).to_owned()).collect::<Vec<String>>();
    assert!(fleet.validate_names(&names(&["b", "b"])).is_ok());
    assert!(fleet.validate_names(&names(&[])).is_ok());
    match fleet.validate_names(&names(&["x", "b", "a", "x"])) {
        Err(RolloutError::UnknownDaemons { names }) => assert_eq!(names, vec!["x", "a", "x"]),
        _ => panic!("expected unknown daemons"),
    }
}

#[test]
fn recipes_have_defaults() {
    assert_eq!(default_build_cmd(), "cargo build --release");
    assert_eq!(default_grace_period(), 5);
    let mut r = recipe("wm-stt", "");
    assert_eq!(
        r.healthcheck_cmd(),
        "agorabus peers | jq -e '.[] | .name' | grep -q wm-stt"
    );
    r.healthcheck = Some("true".to_owned());
    assert_eq!(r.healthcheck_cmd(), "true");
    let copy = r.clone();
    assert_eq!(copy.healthcheck.as_deref(), Some("true"));
    assert_eq!(copy.name, "wm-stt");
}

fn entry(comm: &str, verdict: &str) -> BinstaleEntry {
    BinstaleEntry {
        pid: 1,
        comm: comm.to_owned(),
        exe_path: "/b".to_owned(),
        verdict: verdict.to_owned(),
    }
}

fn names_of(entries: &[BinstaleEntry]) -> Vec<&str> {
    entries.iter().map(|e| e.comm.as_str()).collect()
}

#[test]
fn only_fresh_entries_are_not_stale() {
    assert!(!entry("a", "fresh").is_stale());
    for verdict in ["deleted-exe", "inode-drift", "prov-stale", "", "Fresh"] {
        assert!(entry("a", verdict).is_stale(), "{verdict}");
    }
    let all = || {
        vec![entry("a", "fresh"), entry("b", "inode-drift"), entry("c", "fresh"), entry("d", "x")]
    };
    let stale = parse_stale_json(ScanDocument::Entries(all())).unwrap();
    assert_eq!(names_of(&stale), vec!["b", "d"]);
    let stale = collect_stale(ScanRead::Read(ScanDocument::Entries(all()))).unwrap();
    assert_eq!(names_of(&stale), vec!["b", "d"]);
}

#[test]
fn deleted_executables_name_their_installed_path() {
    let mut e = entry("a", "deleted-exe");
    assert_eq!(e.installed_path(), "/b");
    e.exe_path = "/b (deleted)".to_owned();
    assert_eq!(e.installed_path(), "/b");
    e.exe_path = "/b (deleted) (deleted)".to_owned();
    assert_eq!(e.installed_path(), "/b (deleted)");
}

#[test]
fn scans_fail_by_their_cause() {
    let text = |read| collect_stale(read).unwrap_err().to_string();
    assert_eq!(
        text(ScanRead::StdinUnreadable("x".to_owned())),
        "binstale scan failed: x"
    );
    assert_eq!(
        text(ScanRead::FileUnreadable { path: "/f".to_owned(), why: "x".to_owned() }),
        "binstale scan failed: read /f: x"
    );
    assert_eq!(
        text(ScanRead::BinstaleMissing("x".to_owned())),
        "binstale scan failed: binstale not found: x"
    );
    assert_eq!(
        text(ScanRead::Read(ScanDocument::Malformed("x".to_owned()))),
        "JSON parse error: x"
    );
    let exited = |success, stdout_empty| {
        collect_stale(ScanRead::BinstaleExited {
            success,
            stdout_empty,
            stderr: "boom".to_owned(),
            document: ScanDocument::Entries(vec![entry("a", "x")]),
        })
    };
    assert_eq!(
        exited(false, true).unwrap_err().to_string(),
        "binstale scan failed: boom"
    );
    assert_eq!(exited(false, false).unwrap().len(), 1);
    assert_eq!(exited(true, true).unwrap().len(), 1);
}

#[test]
fn scan_sources_are_named() {
    assert!(matches!(scan_source(Some("-")), ScanSource::Stdin));
    assert!(matches!(scan_source(Some("/f")), ScanSource::File(p) if p == "/f"));
    assert!(matches!(scan_source(None), ScanSource::Binstale { match_regex: None }));
    assert_eq!(binstale_args(None), vec!["scan", "--format", "json"]);
    assert_eq!(
        binstale_args(Some("wm-.*")),
        vec!["scan", "--format", "json", "--match", "wm-.*"]
    );
}

#[test]
fn entries_are_filtered_by_name() {
    let all = || vec![entry("a", "x"), entry("b", "x"), entry("a", "y")];
    assert_eq!(names_of(&filter_only(all(), None)), vec!["a", "b", "a"]);
    let kept = filter_only(all(), Some("a"));
    assert_eq!(names_of(&kept), vec!["a", "a"]);
    assert_eq!(kept[1].verdict, "y");
    assert!(filter_only(all(), Some("c")).is_empty());
}
