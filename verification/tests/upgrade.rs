use gezellij::time::Duration;
use gezellij::upgrade::{
    binary_replaced, exe_link, live_server_pid, pid_record_file, process_dir, record_server_pid, server_pid,
    session_upgrade_warning,
};
use gezellij::upgrade_commands::{
    exe_of, plan_upgrade, plan_upgrade_all, signal_failed, upgrade_timeout, Observation,
    SessionServer, UpgradePlan, UpgradeWait, WaitStep,
};

#[test]
fn own_binary_is_not_reported_as_replaced() {
    assert!(!binary_replaced("/usr/bin/zellij"));
    assert!(binary_replaced("/usr/bin/zellij (deleted)"));
    assert!(!binary_replaced("/usr/bin/zellij (deleted) "));
}

#[test]
fn unknown_pid_has_no_record() {
    assert_eq!(server_pid(""), None);
    assert_eq!(server_pid("not a pid"), None);
    assert_eq!(server_pid("4294967296"), None);
    assert_eq!(server_pid("-1"), None);
    assert_eq!(live_server_pid(None, false), None);
    // a process that is gone serves nothing
    assert_eq!(live_server_pid(Some(7), false), None);
    assert_eq!(live_server_pid(Some(7), true), Some(7));
}

#[test]
fn a_recorded_pid_is_read_back() {
    let write = record_server_pid("/run/zellij", "main", 4242);
    assert_eq!(write.path, "/run/zellij/main.server-pid");
    assert_eq!(write.path, pid_record_file("/run/zellij", "main"));
    assert_eq!(write.contents, "4242");
    assert_eq!(server_pid(&write.contents), Some(4242));
    assert_eq!(server_pid(" 17\n"), Some(17));
    assert_eq!(process_dir(17), "/proc/17");
    assert_eq!(exe_link(17), "/proc/17/exe");
}

#[test]
fn a_replaced_binary_is_warned_of() {
    let gone = Some("/usr/bin/zellij (deleted)".to_string());
    assert_eq!(
        session_upgrade_warning("main", Some(7), &gone).unwrap(),
        "the server of session 'main' (pid 7) runs a binary that has since been replaced on disk; new clients may not be able to attach until the session is restarted (or handed over)"
    );
    assert_eq!(session_upgrade_warning("main", None, &gone), None);
    assert_eq!(session_upgrade_warning("main", Some(7), &None), None);
    assert_eq!(
        session_upgrade_warning("main", Some(7), &Some("/usr/bin/zellij".to_string())),
        None
    );
}

#[test]
fn an_upgrade_goes_ahead_only_with_a_reason() {
    let exe = "/usr/bin/zellij";
    assert_eq!(
        plan_upgrade("main", None, Some(true), true, true, exe).unwrap_err(),
        "Cannot find the server pid of session 'main'. Its server predates upgrade support; restart the session once with this binary and it will be upgradable from then on."
    );
    assert_eq!(
        plan_upgrade("main", Some(7), None, false, false, exe),
        Ok(UpgradePlan::Nothing(
            "The server of session 'main' (pid 7) still runs the binary that is on disk (/usr/bin/zellij); nothing to upgrade.\nUse --force to re-exec it anyway.\n".to_string()
        ))
    );
    for (replaced, force, overridden) in [
        (Some(true), false, false),
        (Some(false), true, false),
        (None, false, true),
    ] {
        assert_eq!(
            plan_upgrade("main", Some(7), replaced, force, overridden, exe),
            Ok(UpgradePlan::Signal {
                pid: 7,
                announcement: "Upgrading the server of session 'main' (pid 7, running /usr/bin/zellij) in place…\nAttached clients will be disconnected; re-attach with `zellij attach main`.\n".to_string()
            })
        );
    }
    assert_eq!(
        signal_failed(7, "ESRCH"),
        "Could not signal the server (pid 7): ESRCH"
    );
    assert_eq!(exe_of(None), "?");
    assert_eq!(exe_of(Some("/x".to_string())), "/x");
    assert_eq!(upgrade_timeout(None), Duration::from_secs(30));
    assert_eq!(upgrade_timeout(Some(5)), Duration::from_secs(5));
}

#[test]
fn all_sessions_are_sorted_into_groups() {
    let server = |session: &str, pid: Option<u32>, replaced: Option<bool>| SessionServer {
        session: session.to_string(),
        pid,
        replaced,
    };
    let groups = plan_upgrade_all(&vec![
        server("a", Some(1), Some(true)),
        server("b", Some(2), Some(false)),
        server("c", None, None),
        server("d", Some(4), None),
        server("e", Some(5), Some(true)),
    ]);
    assert_eq!(groups.upgrading, vec!["a".to_string(), "e".to_string()]);
    assert_eq!(groups.up_to_date, vec!["b".to_string(), "d".to_string()]);
    assert_eq!(groups.not_upgradable, vec!["c".to_string()]);
    assert_eq!(
        groups.to_string(),
        "already up to date: b, d\ncannot be upgraded: c\nupgrading now: a, e\n"
    );
    let nothing = plan_upgrade_all(&vec![server("b", Some(2), Some(false))]);
    assert_eq!(
        nothing.to_string(),
        "already up to date: b\nNothing to upgrade.\n"
    );
}

fn seen(exe: &str, elapsed: u64) -> Observation {
    Observation {
        manifest_before: false,
        alive: true,
        exe: exe.to_string(),
        manifest_after: false,
        session_exists: true,
        elapsed: Duration::from_secs(elapsed),
    }
}

#[test]
fn an_upgrade_is_done_when_the_new_binary_serves_the_session() {
    let mut wait = UpgradeWait::new(
        "main".to_string(),
        7,
        "/old (deleted)".to_string(),
        Duration::from_secs(30),
    );
    // nothing has happened yet
    assert_eq!(wait.step(seen("/old (deleted)", 1)), WaitStep::Again);
    // the manifest was never there, so the new binary cannot have taken it
    assert_eq!(wait.step(seen("/new", 2)), WaitStep::Again);
    let mut written = seen("/old (deleted)", 3);
    written.manifest_before = true;
    written.manifest_after = true;
    assert_eq!(wait.step(written), WaitStep::Again);
    let mut reading = seen("/new", 4);
    reading.manifest_after = true;
    assert_eq!(wait.step(reading), WaitStep::Again);
    let mut starting = seen("/new", 5);
    starting.session_exists = false;
    assert_eq!(wait.step(starting), WaitStep::Again);
    assert_eq!(
        wait.step(seen("/new", 31)),
        WaitStep::Done(
            "Done: session 'main' is now served by /new (pid 7 unchanged).\n".to_string()
        )
    );
}

#[test]
fn a_failed_upgrade_is_reported() {
    let mut wait = UpgradeWait::new(
        "main".to_string(),
        7,
        "/old".to_string(),
        Duration::from_secs(30),
    );
    assert_eq!(wait.step(seen("/new (deleted)", 30)), WaitStep::Again);
    assert_eq!(
        wait.step(seen("/old", 31)),
        WaitStep::TimedOut(
            "Timed out after 30s waiting for the upgraded server (pid 7 now runs /old; manifest seen: false).\nThe old server keeps running if the exec never happened; see the server log for details.\n".to_string()
        )
    );
    let mut gone = seen("?", 1);
    gone.alive = false;
    assert_eq!(
        wait.step(gone),
        WaitStep::Gone(
            "The server (pid 7) exited during the upgrade. Check the log at /tmp/zellij-<uid>/zellij-log/zellij.log; the session's resurrection layout is on disk, so `zellij attach main` can rebuild it.".to_string()
        )
    );
}
