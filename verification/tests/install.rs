//! Installing a binary, and the units around it.

use std::path::Path;

use rollout::command::CommandOutcome;
use rollout::error::RolloutError;
use rollout::health::WindowSample;
use rollout::install::{
    print_table, run_install_cmd, AtomicInstall, InstallAction, InstallArgs, InstallCliArgs,
    InstallEvent, InstallRun, InstallVerdict, OutputFormat, PutAction, PutEvent,
};
use rollout::output::Line;
use rollout::paths::{expand_tilde, home_dir, join_path, systemd_user_dir};
use rollout::units::{
    check_unit_exec_start, daemon_name_from_unit, exe_deleted, exec_start_programs,
    expand_specifiers, proc_exe_is_current, reload_verdict, run_agorabus_reload, runtime_dir,
    same_path, unit_main_pid, verify_unit, ExeLink, FindAction, FindEvent, ReloadOutcome,
    RestartPath, UnitAction, UnitEvent, UnitRestart, UnitRun, UnitSearch, UnitStep, VerifyResult,
};

// ── names, paths and unit files ──────────────────────────────────────────────

#[test]
fn daemon_name_strips_service_suffix() {
    assert_eq!(daemon_name_from_unit("recalld.service"), "recalld");
    assert_eq!(daemon_name_from_unit("agorabus.service"), "agorabus");
    assert_eq!(daemon_name_from_unit("wm-audio.service"), "wm-audio");
    assert_eq!(daemon_name_from_unit("nodot"), "nodot");
}

#[test]
fn proc_exe_deleted_returns_false() {
    let target_str = "/some/real/path (deleted)";
    assert!(target_str.ends_with(" (deleted)"), "deleted path detected");
    assert!(exe_deleted(target_str), "deleted path detected");
    let link = ExeLink {
        target: target_str.to_owned(),
        resolved: "/some/real/path".to_owned(),
        dest: "/some/real/path".to_owned(),
    };
    assert!(!proc_exe_is_current(&Some(link)));
}

#[test]
fn restart_path_agorabus_vs_systemctl_constants() {
    let agorabus_unit = "agorabus.service";
    let recalld_unit = "recalld.service";
    assert_eq!(agorabus_unit, "agorabus.service", "AC3 selector constant");
    assert_ne!(recalld_unit, "agorabus.service", "AC4: recalld uses systemctl path");
    assert_eq!(rollout::units::AGORABUS_UNIT, agorabus_unit);

    let rp_agorabus = RestartPath::AgorabuReload;
    let rp_systemctl = RestartPath::Systemctl;
    assert_eq!(rp_agorabus.to_string(), "agorabus-reload");
    assert_eq!(rp_systemctl.to_string(), "systemctl");
    assert_eq!(RestartPath::NoRestart.to_string(), "none");
}

#[test]
fn expand_specifiers_replaces_home() {
    let home = "/home/testuser";
    let result = expand_specifiers("%h/.local/bin/mydaemon", home, "/run/user/1000");
    assert_eq!(result, "/home/testuser/.local/bin/mydaemon");
}

#[test]
fn specifiers_are_expanded_home_first() {
    assert_eq!(expand_specifiers("%t/%h%%h", "/h", "/r"), "/r//h%/h");
    assert_eq!(expand_specifiers("%h", "%t", "/r"), "/r");
    assert_eq!(expand_specifiers("plain", "/h", "/r"), "plain");
    assert_eq!(runtime_dir(Some("/run/x"), Some("7")), "/run/x");
    assert_eq!(runtime_dir(None, Some("1001\n")), "/run/user/1001");
    assert_eq!(runtime_dir(None, None), "/run/user/1000");
}

#[test]
fn unit_files_name_the_programs_they_start() {
    let text = "[Unit]\r\nDescription=x\n[Service]\n  ExecStart=%h/bin/a --run\nExecStart=\n\
                ExecStart=ExecStart= /bin/b\t-x\nExecStartPre=/bin/c\nexecstart=/bin/d\n\
                ExecStart=/bin/e";
    assert_eq!(
        exec_start_programs(text, "/home/u", "/run"),
        vec!["/home/u/bin/a", "/bin/b", "/bin/e"]
    );
    assert!(exec_start_programs("", "/home/u", "/run").is_empty());
}

#[test]
fn unit_lookup_matches_exec_start() {
    let dest = "/tmp/install/testdaemon";
    let svc = format!(
        "[Unit]\nDescription=test\n[Service]\nExecStart={dest} --run\n[Install]\n"
    );
    let programs = exec_start_programs(&svc, "/tmp", "/run/user/1000");
    let result = check_unit_exec_start(Some("testdaemon.service"), &programs, dest);
    assert_eq!(result, Some("testdaemon.service".to_owned()));
}

#[test]
fn unit_lookup_no_match_returns_none() {
    let svc = "[Unit]\nDescription=test\n[Service]\nExecStart=/usr/bin/something\n[Install]\n";
    let programs = exec_start_programs(svc, "/tmp", "/run/user/1000");
    let result = check_unit_exec_start(Some("something.service"), &programs, "/nowhere/nobody");
    assert_eq!(result, None);
}

#[test]
fn proc_exe_is_current_logic() {
    let dest = "/tmp/x/daemon";
    let link = |target: &str| {
        Some(ExeLink {
            target: target.to_owned(),
            resolved: target.to_owned(),
            dest: dest.to_owned(),
        })
    };
    assert!(proc_exe_is_current(&link(dest)), "a running binary at dest is current");
    assert!(!proc_exe_is_current(&None), "nonexistent pid → false");
    let deleted = format!("{dest} (deleted)");
    assert!(deleted.ends_with(" (deleted)"), "AC5: deleted suffix detected");
    assert!(!proc_exe_is_current(&link(&deleted)));
}

#[test]
fn unit_is_matched_by_its_programs() {
    let programs = vec!["/tmp/x/other".to_owned(), "/tmp/x/testdaemon".to_owned()];
    assert_eq!(
        check_unit_exec_start(Some("testdaemon.service"), &programs, "/tmp/x/testdaemon"),
        Some("testdaemon.service".to_owned())
    );
    assert_eq!(
        check_unit_exec_start(None, &programs, "/tmp/x/testdaemon"),
        Some("unknown.service".to_owned())
    );
    assert_eq!(
        check_unit_exec_start(Some("something.service"), &programs, "/nowhere/nobody"),
        None
    );
}

#[test]
fn paths_are_compared_piece_by_piece() {
    let paths = [
        "", "/", "//", ".", "./", "./a", "a", "a/", "a//b", "a/b", "a/./b", "/a/b", "/./a/b",
        "//a/b/", "a/../b", "..", "/..", "./.", "a/.",
    ];
    for a in paths {
        for b in paths {
            assert_eq!(same_path(a, b), Path::new(a) == Path::new(b), "{a:?} and {b:?}");
        }
    }
}

#[test]
fn paths_are_joined_as_std_joins_them() {
    for base in ["", "/", "/home/u", "/home/u/", "rel"] {
        for rel in ["", "x", "x/y", "/abs", "./x"] {
            assert_eq!(
                join_path(base, rel),
                Path::new(base).join(rel).to_str().unwrap(),
                "{base:?} and {rel:?}"
            );
        }
    }
}

#[test]
fn tilde_stands_for_home_at_the_start_only() {
    assert_eq!(expand_tilde("~/bin/x", Some("/home/u")).unwrap(), "/home/u/bin/x");
    assert_eq!(expand_tilde("~", Some("/home/u")).unwrap(), "/home/u");
    assert_eq!(expand_tilde("~u/x", Some("/home/u")).unwrap(), "~u/x");
    assert_eq!(expand_tilde("/x/~", None).unwrap(), "/x/~");
    assert_eq!(
        expand_tilde("~/x", None).unwrap_err().to_string(),
        "fleet.toml error: $HOME not set"
    );
    assert_eq!(home_dir(Some("/h")).unwrap(), "/h");
    assert_eq!(systemd_user_dir(Some("/h")).unwrap(), "/h/.config/systemd/user");
    assert!(systemd_user_dir(None).is_err());
}

#[test]
fn main_pid_is_read_from_what_systemctl_shows() {
    assert_eq!(unit_main_pid(Some("1234\n")), Some(1234));
    assert_eq!(unit_main_pid(Some("0\n")), None);
    assert_eq!(unit_main_pid(Some("4294967295")), Some(u32::MAX));
    assert_eq!(unit_main_pid(Some("4294967296")), None);
    assert_eq!(unit_main_pid(Some("+7")), Some(7));
    assert_eq!(unit_main_pid(Some("-7")), None);
    assert_eq!(unit_main_pid(Some("")), None);
    assert_eq!(unit_main_pid(None), None);
}

// ── searching the unit of a binary ───────────────────────────────────────────

fn search(files: Vec<(Option<&str>, Option<&str>, Option<&str>)>, dest: &str) -> Option<String> {
    let mut search = UnitSearch::new(
        "/u".to_owned(),
        "/home/u".to_owned(),
        "/run".to_owned(),
        dest.to_owned(),
    );
    let mut files = files.into_iter();
    let mut contents: Option<String> = None;
    let mut event = FindEvent::Begin;
    loop {
        event = match search.find_unit_for_dest(event) {
            FindAction::OpenDir { dir } => {
                assert_eq!(dir, "/u");
                FindEvent::DirOpened
            }
            FindAction::NextEntry => match files.next() {
                Some((name, extension, text)) => {
                    contents = text.map(|t| t.to_owned());
                    FindEvent::Entry {
                        name: name.map(|n| n.to_owned()),
                        extension: extension.map(|e| e.to_owned()),
                    }
                }
                None => FindEvent::EntriesOver,
            },
            FindAction::ReadUnit => FindEvent::Contents(contents.take()),
            FindAction::Resolve { programs } => FindEvent::Resolved(programs),
            FindAction::Finish(r) => return r.unwrap(),
            FindAction::Ignored => panic!("unexpected event"),
        };
    }
}

#[test]
fn unit_search_reads_service_files_only() {
    let text = "ExecStart=%h/bin/d";
    let files = || {
        vec![
            (Some("d.timer"), Some("timer"), Some(text)),
            (Some("x.service"), Some("service"), Some("ExecStart=/bin/x")),
            (Some("gone.service"), Some("service"), None),
            (Some("d.service"), Some("service"), Some(text)),
            (Some("late.service"), Some("service"), Some(text)),
        ]
    };
    assert_eq!(search(files(), "/home/u/bin/d"), Some("d.service".to_owned()));
    assert_eq!(search(files(), "/home/u/bin/e"), None);
    assert_eq!(
        search(vec![(None, Some("service"), Some(text))], "/home/u/bin/d"),
        Some("unknown.service".to_owned())
    );
}

#[test]
fn unit_search_fails_by_its_cause() {
    let end = |events: Vec<FindEvent>| {
        let mut search =
            UnitSearch::new("/u".to_owned(), "/h".to_owned(), "/r".to_owned(), "/d".to_owned());
        for event in events {
            if let FindAction::Finish(r) = search.find_unit_for_dest(event) {
                return r;
            }
        }
        panic!("the search has not ended")
    };
    assert_eq!(end(vec![FindEvent::Begin, FindEvent::DirMissing]).unwrap(), None);
    assert_eq!(
        end(vec![FindEvent::Begin, FindEvent::DirUnreadable("x".to_owned())])
            .unwrap_err()
            .to_string(),
        "I/O error: read_dir /u: x"
    );
    assert_eq!(
        end(vec![
            FindEvent::Begin,
            FindEvent::DirOpened,
            FindEvent::EntryUnreadable("y".to_owned())
        ])
        .unwrap_err()
        .to_string(),
        "I/O error: dir entry in /u: y"
    );
}

// ── restarting a unit ────────────────────────────────────────────────────────

fn restart(unit: &str, events: Vec<UnitEvent>) -> UnitStep {
    let mut run = UnitRun::new(unit.to_owned());
    let mut step = run.restart_unit(UnitEvent::Begin);
    for event in events {
        step = run.restart_unit(event);
    }
    step
}

fn finished(step: UnitStep) -> Result<UnitRestart, RolloutError> {
    match step.action {
        UnitAction::Finish(r) => r,
        _ => panic!("the restart has not ended"),
    }
}

#[test]
fn only_agorabus_reloads_itself() {
    assert!(matches!(
        restart("recalld.service", vec![]).action,
        UnitAction::Systemctl { unit } if unit == "recalld.service"
    ));
    assert!(matches!(restart("agorabus.service", vec![]).action, UnitAction::AskReload));
    assert!(matches!(
        restart("agorabus.service", vec![UnitEvent::ReloadAvailable(true)]).action,
        UnitAction::Reload
    ));
    assert!(matches!(
        restart("agorabus.service", vec![UnitEvent::ReloadAvailable(false)]).action,
        UnitAction::Systemctl { .. }
    ));
}

#[test]
fn reload_counts_only_with_a_new_pid() {
    let reloaded = |success, stdout: &[u8]| {
        restart(
            "agorabus.service",
            vec![
                UnitEvent::ReloadAvailable(true),
                UnitEvent::Reloaded(ReloadOutcome::Exited { success, stdout: stdout.to_vec() }),
            ],
        )
    };
    let done = finished(reloaded(true, b"{\"status\":\"ok\",\"new_pid\":4242}")).unwrap();
    assert_eq!(
        (done.path, done.restarted, done.new_pid),
        (RestartPath::AgorabuReload, true, Some(4242))
    );
    let step = reloaded(true, b"{\"status\":\"failed\",\"new_pid\":null}");
    assert_eq!(
        step.lines,
        vec![Line::Warn(
            "rollout: agorabus reload failed or unavailable — falling back to systemctl restart"
                .to_owned()
        )]
    );
    assert!(matches!(step.action, UnitAction::Systemctl { .. }));
}

#[test]
fn reload_verdicts_are_read_from_json() {
    assert_eq!(run_agorabus_reload(false, b"{\"status\":\"ok\",\"new_pid\":7}"), (true, Some(7)));
    assert_eq!(run_agorabus_reload(true, b"{\"new_pid\":7}"), (true, Some(7)));
    assert_eq!(run_agorabus_reload(false, b"{\"new_pid\":7}"), (false, None));
    assert_eq!(
        run_agorabus_reload(true, b"{\"status\":\"failed\",\"new_pid\":5}"),
        (false, None)
    );
    assert_eq!(run_agorabus_reload(true, b"{\"status\":\"ok\"}"), (false, None));
    assert_eq!(run_agorabus_reload(true, b"{\"status\":\"ok\",\"new_pid\":-7}"), (false, None));
    assert_eq!(run_agorabus_reload(true, b"not json"), (false, None));
    assert_eq!(
        run_agorabus_reload(true, b"{\"status\":\"ok\",\"new_pid\":4294967303}"),
        (true, Some(7))
    );
    assert_eq!(reload_verdict(Some("OK"), Some(1), true), (false, None));
    assert_eq!(reload_verdict(None, Some(1), true), (true, Some(1)));
}

#[test]
fn systemctl_reports_its_exit() {
    let ran = |outcome| restart("d.service", vec![UnitEvent::Ran(outcome)]);
    let ok = finished(ran(CommandOutcome::Exited { success: true, code: Some(0) })).unwrap();
    assert_eq!((ok.path, ok.restarted, ok.new_pid), (RestartPath::Systemctl, true, None));
    let bad = finished(ran(CommandOutcome::Exited { success: false, code: Some(1) })).unwrap();
    assert!(!bad.restarted);
    assert_eq!(
        finished(ran(CommandOutcome::NotSpawned("x".to_owned()))).unwrap_err().to_string(),
        "build/install step for `d.service` failed: systemctl restart spawn: x"
    );
    assert_eq!(
        finished(restart(
            "agorabus.service",
            vec![
                UnitEvent::ReloadAvailable(true),
                UnitEvent::Reloaded(ReloadOutcome::NotSpawned("x".to_owned())),
            ],
        ))
        .unwrap_err()
        .to_string(),
        "build/install step for `agorabus` failed: agorabus reload spawn: x"
    );
}

#[test]
fn restarted_unit_is_verified() {
    let systemctl = RestartPath::Systemctl;
    assert_eq!(verify_unit(false, systemctl, Some(true)), VerifyResult::UnitInactive);
    assert_eq!(verify_unit(true, systemctl, Some(true)), VerifyResult::Current);
    assert_eq!(verify_unit(true, systemctl, Some(false)), VerifyResult::Stale);
    assert_eq!(verify_unit(true, systemctl, None), VerifyResult::Skipped);
    assert_eq!(verify_unit(true, RestartPath::AgorabuReload, None), VerifyResult::Current);
    let link = |target: &str, resolved: &str| {
        Some(ExeLink {
            target: target.to_owned(),
            resolved: resolved.to_owned(),
            dest: "/b/d".to_owned(),
        })
    };
    assert!(proc_exe_is_current(&link("/b/d", "/b/d")));
    assert!(!proc_exe_is_current(&link("/b/e", "/b/e")));
    assert!(!proc_exe_is_current(&None));
}

// ── putting the binary in place ──────────────────────────────────────────────

#[test]
fn binary_is_copied_then_renamed() {
    let mut put = AtomicInstall::new(
        "/build/d".to_owned(),
        "/b/d".to_owned(),
        Some("/b".to_owned()),
        42,
    );
    let temp = "/b/.rollout-install-42.tmp";
    match put.atomic_install(PutEvent::Begin) {
        PutAction::Copy { from, to } => assert_eq!((from.as_str(), to.as_str()), ("/build/d", temp)),
        _ => panic!("expected a copy"),
    }
    match put.atomic_install(PutEvent::Did) {
        PutAction::SetMode { path, mode } => assert_eq!((path.as_str(), mode), (temp, 0o755)),
        _ => panic!("expected a mode"),
    }
    match put.atomic_install(PutEvent::Did) {
        PutAction::Rename { from, to } => assert_eq!((from.as_str(), to.as_str()), (temp, "/b/d")),
        _ => panic!("expected a rename"),
    }
    assert!(matches!(put.atomic_install(PutEvent::Did), PutAction::Finish(Ok(()))));
    assert!(matches!(put.atomic_install(PutEvent::Did), PutAction::Ignored));
}

#[test]
fn installation_fails_by_the_step_that_failed() {
    let fail = |parent: Option<&str>, did: usize| {
        let mut put = AtomicInstall::new(
            "/s".to_owned(),
            "/b/d".to_owned(),
            parent.map(|p| p.to_owned()),
            1,
        );
        let mut action = put.atomic_install(PutEvent::Begin);
        for _ in 0..did {
            action = put.atomic_install(PutEvent::Did);
        }
        if !matches!(action, PutAction::Finish(_)) {
            action = put.atomic_install(PutEvent::Failed("why".to_owned()));
        }
        if let PutAction::Remove { path } = action {
            assert_eq!(path, "/b/.rollout-install-1.tmp");
            action = put.atomic_install(PutEvent::Failed("also".to_owned()));
        }
        match action {
            PutAction::Finish(r) => r.unwrap_err().to_string(),
            _ => panic!("the installation has not ended"),
        }
    };
    assert_eq!(fail(None, 0), "I/O error: dest has no parent directory: /b/d");
    assert_eq!(
        fail(Some("/b"), 0),
        "I/O error: copy /s → /b/.rollout-install-1.tmp: why"
    );
    assert_eq!(
        fail(Some("/b"), 1),
        "I/O error: chmod 0755 /b/.rollout-install-1.tmp: why"
    );
    assert_eq!(
        fail(Some("/b"), 2),
        "I/O error: rename /b/.rollout-install-1.tmp → /b/d: why"
    );
}

// ── the install ──────────────────────────────────────────────────────────────

fn args(dest: &str, dry_run: bool) -> InstallArgs {
    InstallArgs {
        binary: "/build/d".to_owned(),
        dest: dest.to_owned(),
        restart_window_secs: 5,
        dry_run,
        format: OutputFormat::Json,
    }
}

fn drive(
    args: &InstallArgs,
    unit: Option<&str>,
    sample: WindowSample,
    restart: (RestartPath, bool),
    active: bool,
    main_pid: &str,
    exe: &str,
) -> (Result<InstallVerdict, RolloutError>, Vec<&'static str>) {
    let mut run = InstallRun::new(args, Some("/home/u".to_owned()));
    let mut done = Vec::new();
    let mut event = InstallEvent::Begin;
    loop {
        event = match run.do_install(event) {
            InstallAction::Put { src, dest } => {
                assert_eq!((src.as_str(), dest.as_str()), ("/build/d", "/home/u/bin/d"));
                done.push("put");
                InstallEvent::Put(Ok(()))
            }
            InstallAction::FindUnit { dest } => {
                assert_eq!(dest, "/home/u/bin/d");
                done.push("find");
                InstallEvent::Found(Ok(unit.map(|u| u.to_owned())))
            }
            InstallAction::SampleWindow { secs } => {
                assert_eq!(secs, 5);
                done.push("sample");
                InstallEvent::Window(sample)
            }
            InstallAction::RestartUnit { .. } => {
                done.push("restart");
                InstallEvent::Restarted(Ok(UnitRestart {
                    path: restart.0,
                    restarted: restart.1,
                    new_pid: None,
                }))
            }
            InstallAction::AskActive { .. } => {
                done.push("active");
                InstallEvent::Active(active)
            }
            InstallAction::AskMainPid { .. } => {
                done.push("pid");
                InstallEvent::MainPid(Some(main_pid.to_owned()))
            }
            InstallAction::ReadExe { pid } => {
                assert_eq!(pid, 77);
                done.push("exe");
                InstallEvent::Exe(Some(ExeLink {
                    target: exe.to_owned(),
                    resolved: exe.to_owned(),
                    dest: "/home/u/bin/d".to_owned(),
                }))
            }
            InstallAction::Finish(r) => return (r, done),
            InstallAction::Ignored => panic!("unexpected event"),
        };
    }
}

/// Installs `src_bin` as `dest_bin`, where no unit starts it.
fn install_without_unit(dry_run: bool) -> (InstallVerdict, bool) {
    let args = InstallArgs {
        binary: "/tmp/x/src_bin".to_owned(),
        dest: "/tmp/x/dest_bin".to_owned(),
        restart_window_secs: 5,
        dry_run,
        format: OutputFormat::Json,
    };
    let mut run = InstallRun::new(&args, Some("/home/u".to_owned()));
    let mut written = false;
    let mut event = InstallEvent::Begin;
    loop {
        event = match run.do_install(event) {
            InstallAction::Put { src, dest } => {
                assert_eq!((src, dest), (args.binary.clone(), args.dest.clone()));
                written = true;
                InstallEvent::Put(Ok(()))
            }
            InstallAction::FindUnit { .. } => InstallEvent::Found(Ok(None)),
            InstallAction::Finish(r) => return (r.expect("do_install"), written),
            _ => panic!("nothing else is done"),
        };
    }
}

#[test]
fn dry_run_does_not_write_dest() {
    let (verdict, written) = install_without_unit(true);
    assert!(!verdict.installed, "installed must be false under dry_run");
    assert!(verdict.dry_run, "dry_run field must be true");
    assert!(!written, "dest must not be created under dry_run");
    assert_eq!(verdict.restart_path, RestartPath::NoRestart);
    assert!(!verdict.restarted);
}

#[test]
fn no_unit_install_returns_unit_null() {
    let (verdict, written) = install_without_unit(false);
    assert!(written && verdict.installed, "should be installed");
    assert_eq!(verdict.unit, None, "unit should be null");
    assert_eq!(verdict.restart_path, RestartPath::NoRestart);
    assert!(!verdict.restarted);
    assert_eq!(verdict.verify, VerifyResult::Skipped);
}

#[test]
fn dry_run_installs_and_restarts_nothing() {
    let (verdict, done) = drive(
        &args("~/bin/d", true),
        Some("d.service"),
        WindowSample::Quiet,
        (RestartPath::Systemctl, true),
        true,
        "77",
        "/home/u/bin/d",
    );
    let verdict = verdict.unwrap();
    assert_eq!(done, vec!["find"]);
    assert!(!verdict.installed && !verdict.restarted && verdict.dry_run);
    assert_eq!(verdict.restart_path, RestartPath::NoRestart);
    assert_eq!(verdict.verify, VerifyResult::Skipped);
    assert_eq!(verdict.unit.as_deref(), Some("d.service"));
}

#[test]
fn binary_without_a_unit_is_installed_only() {
    let (verdict, done) = drive(
        &args("/home/u/bin/d", false),
        None,
        WindowSample::Quiet,
        (RestartPath::Systemctl, true),
        true,
        "77",
        "/home/u/bin/d",
    );
    let verdict = verdict.unwrap();
    assert_eq!(done, vec!["put", "find"]);
    assert!(verdict.installed, "should be installed");
    assert_eq!(verdict.unit, None, "unit should be null");
    assert_eq!(verdict.restart_path, RestartPath::NoRestart);
    assert!(!verdict.restarted);
    assert_eq!(verdict.verify, VerifyResult::Skipped);
}

#[test]
fn restarted_unit_is_looked_at() {
    let run = |unit: &'static str, restart, active, pid: &'static str, exe: &'static str| {
        drive(&args("~/bin/d", false), Some(unit), WindowSample::Quiet, restart, active, pid, exe)
    };
    let systemctl = (RestartPath::Systemctl, true);
    let (verdict, done) = run("d.service", systemctl, true, "77\n", "/home/u/bin/d");
    assert_eq!(done, vec!["put", "find", "restart", "active", "pid", "exe"]);
    let verdict = verdict.unwrap();
    assert_eq!(verdict.verify, VerifyResult::Current);
    assert!(verdict.restarted && verdict.installed && !verdict.dry_run);
    assert_eq!((verdict.binary.as_str(), verdict.dest.as_str()), ("/build/d", "/home/u/bin/d"));

    let (verdict, _) = run("d.service", systemctl, true, "77", "/home/u/bin/d (deleted)");
    assert_eq!(verdict.unwrap().verify, VerifyResult::Stale);
    let (verdict, done) = run("d.service", systemctl, true, "0", "");
    assert_eq!(verdict.unwrap().verify, VerifyResult::Skipped);
    assert_eq!(done.last(), Some(&"pid"));
    let (verdict, done) = run("d.service", systemctl, false, "77", "");
    assert_eq!(verdict.unwrap().verify, VerifyResult::UnitInactive);
    assert_eq!(done.last(), Some(&"active"));
    let (verdict, done) = run("d.service", (RestartPath::Systemctl, false), true, "77", "");
    let verdict = verdict.unwrap();
    assert_eq!(done.last(), Some(&"restart"));
    assert_eq!((verdict.restarted, verdict.verify), (false, VerifyResult::Skipped));
    let (verdict, done) =
        run("agorabus.service", (RestartPath::AgorabuReload, true), true, "77", "");
    assert_eq!(verdict.unwrap().verify, VerifyResult::Current);
    assert_eq!(done.last(), Some(&"active"));
}

#[test]
fn voice_unit_waits_for_a_quiet_bus() {
    let run = |sample| {
        drive(
            &args("~/bin/d", false),
            Some("wm-tts.service"),
            sample,
            (RestartPath::Systemctl, true),
            true,
            "77",
            "/home/u/bin/d",
        )
    };
    let (verdict, done) = run(WindowSample::Quiet);
    assert!(verdict.is_ok());
    assert_eq!(done[2..4], ["sample", "restart"]);
    let (verdict, done) = run(WindowSample::Active);
    assert!(matches!(
        verdict,
        Err(RolloutError::WindowGuardBlocked { name }) if name == "wm-tts"
    ));
    assert_eq!(done.last(), Some(&"sample"));
}

#[test]
fn install_fails_with_its_steps() {
    let mut run = InstallRun::new(&args("~/d", false), None);
    match run.do_install(InstallEvent::Begin) {
        InstallAction::Finish(Err(e)) => {
            assert_eq!(e.to_string(), "fleet.toml error: $HOME not set")
        }
        _ => panic!("expected a failure"),
    }
    let mut run = InstallRun::new(&args("/d", false), None);
    run.do_install(InstallEvent::Begin);
    match run.do_install(InstallEvent::Put(Err(RolloutError::Io("full".to_owned())))) {
        InstallAction::Finish(Err(e)) => assert_eq!(e.to_string(), "I/O error: full"),
        _ => panic!("expected a failure"),
    }
}

#[test]
fn output_formats_are_named() {
    assert_eq!(OutputFormat::from_str("json"), Ok(OutputFormat::Json));
    assert_eq!(OutputFormat::from_str("table"), Ok(OutputFormat::Table));
    assert_eq!(
        OutputFormat::from_str("xml\n"),
        Err("unknown format \"xml\\n\"; use json or table".to_owned())
    );
    let cli = |format: &str| InstallCliArgs {
        binary: "/b".to_owned(),
        dest: "/d".to_owned(),
        restart_window_secs: 9,
        dry_run: true,
        format: format.to_owned(),
    };
    let parsed = run_install_cmd(&cli("table")).unwrap();
    assert_eq!(parsed.format, OutputFormat::Table);
    assert_eq!((parsed.binary.as_str(), parsed.dest.as_str()), ("/b", "/d"));
    assert_eq!((parsed.restart_window_secs, parsed.dry_run), (9, true));
    assert_eq!(
        run_install_cmd(&cli("x")).unwrap_err().to_string(),
        "fleet.toml error: unknown format \"x\"; use json or table"
    );
}

#[test]
fn verdict_table_lists_every_field() {
    let verdict = InstallVerdict {
        binary: "/tmp/src".to_owned(),
        dest: "/tmp/dest".to_owned(),
        installed: false,
        unit: None,
        restart_path: RestartPath::NoRestart,
        restarted: false,
        verify: VerifyResult::Skipped,
        dry_run: true,
    };
    let lines: Vec<String> = print_table(&verdict)
        .into_iter()
        .map(|l| match l {
            Line::Out(s) => s,
            _ => panic!("expected standard output"),
        })
        .collect();
    assert_eq!(
        lines,
        vec![
            "binary        : /tmp/src",
            "dest          : /tmp/dest",
            "installed     : false",
            "unit          : null",
            "restart_path  : none",
            "restarted     : false",
            "verify        : skipped",
            "dry_run       : true",
        ]
    );
    assert_eq!(VerifyResult::Current.to_string(), "current");
    assert_eq!(VerifyResult::Stale.to_string(), "stale");
    assert_eq!(VerifyResult::UnitInactive.to_string(), "unit-inactive");
}
