use gezellij::path::FileAnswer;
use gezellij::cgroups::{
    controllers_file, freeze_state, is_pane_entry, is_session_root, own_cgroup_dir, record_file,
    session_freeze_summary, session_is_frozen, set_frozen, set_session_frozen, sweep_stale_roots,
    CgroupError, FreezeState, FreezeSummary, Leftover, PaneCgroups, CGROUP_FS_ROOT,
};

fn names(list: &[&str]) -> Vec<String> {
    list.iter().map(|w| w.to_string()).collect()
}

fn state(frozen: bool) -> Option<FreezeState> {
    Some(freeze_state(&format!(
        "populated 1\nfrozen {}\n",
        if frozen { 1 } else { 0 }
    )))
}

#[test]
fn parses_cgroup_events() {
    assert_eq!(
        freeze_state("populated 1\nfrozen 0\n"),
        FreezeState {
            frozen: false,
            populated: true
        }
    );
    assert_eq!(
        freeze_state("populated 0\nfrozen 1\n"),
        FreezeState {
            frozen: true,
            populated: false
        }
    );
    // the last line on a key decides, other lines do not matter
    assert_eq!(
        freeze_state("frozen 1\r\nnonsense\nmax 1\nfrozen  0 \npopulated 1"),
        FreezeState {
            frozen: false,
            populated: true
        }
    );
    assert_eq!(freeze_state(""), FreezeState::default());
}

#[test]
fn pane_dirs_are_listed_and_sorted() {
    let tree = PaneCgroups::at("/sys/fs/cgroup/s".to_string());
    let mut entries = Vec::new();
    for id in [10u32, 2, 7] {
        let dir = tree.pane_dir(id);
        entries.push(dir.strip_prefix("/sys/fs/cgroup/s/").unwrap().to_string());
    }
    entries.push("unrelated".to_string());
    let panes = tree.list_panes(&entries);
    let ids: Vec<u32> = panes.iter().map(|p| p.id).collect();
    assert_eq!(ids, vec![2, 7, 10]);
    assert_eq!(panes[0].dir, tree.pane_dir(2));
    assert!(tree.pane_dir(2).ends_with("pane-2"));
}

#[test]
fn only_numbered_panes_are_listed() {
    let tree = PaneCgroups::at("/r".to_string());
    let panes = tree.list_panes(&names(&[
        "pane-", "pane-x", "pane-4294967296", "pane--1", "pane-007", "pane-+7", "Pane-1", "pane-7",
    ]));
    assert_eq!(
        panes.iter().map(|p| (p.id, p.dir.as_str())).collect::<Vec<_>>(),
        vec![(7, "/r/pane-007"), (7, "/r/pane-+7"), (7, "/r/pane-7")]
    );
}

#[test]
fn freeze_summary_counts_frozen_panes() {
    let summary = PaneCgroups::freeze_summary(&vec![state(true), state(true)]);
    assert_eq!(
        summary,
        FreezeSummary {
            total: 2,
            frozen: 2
        }
    );
    assert!(summary.all_frozen());
    assert!(!summary.partly_frozen());

    let summary = PaneCgroups::freeze_summary(&vec![state(true), state(false), state(false)]);
    assert_eq!(
        summary,
        FreezeSummary {
            total: 3,
            frozen: 1
        }
    );
    assert!(!summary.all_frozen());
    assert!(summary.partly_frozen());

    let summary = PaneCgroups::freeze_summary(&vec![state(false)]);
    assert_eq!(
        summary,
        FreezeSummary {
            total: 1,
            frozen: 0
        }
    );
    assert!(!summary.all_frozen());
    assert!(!summary.partly_frozen());

    // no panes at all: neither frozen nor partly frozen
    let summary = PaneCgroups::freeze_summary(&vec![]);
    assert_eq!(summary, FreezeSummary::default());
    assert!(!summary.all_frozen());
    assert!(!summary.partly_frozen());
}

#[test]
fn freeze_summary_skips_panes_without_readable_events() {
    assert_eq!(
        PaneCgroups::freeze_summary(&vec![state(true), None]),
        FreezeSummary {
            total: 1,
            frozen: 1
        }
    );
}

#[test]
fn is_frozen_reports_all_none_or_some() {
    assert_eq!(
        PaneCgroups::is_frozen(&vec![state(true), state(true)]),
        Some(true)
    );
    assert_eq!(
        PaneCgroups::is_frozen(&vec![state(true), state(false)]),
        Some(false)
    );
    assert_eq!(PaneCgroups::is_frozen(&vec![state(false)]), Some(false));
    // a session with no panes at all has nothing to say
    assert_eq!(PaneCgroups::is_frozen(&vec![]), None);
    assert_eq!(PaneCgroups::is_frozen(&vec![None]), None);
}

#[test]
fn set_all_frozen_writes_every_pane() {
    let tree = PaneCgroups::at("/cg/setall".to_string());
    let entries = names(&["pane-2", "pane-1"]);
    let writes = tree.set_all_frozen(&entries, true);
    assert_eq!(writes.len(), 2);
    for (i, id) in [1u32, 2].iter().enumerate() {
        assert_eq!(writes[i].0, *id);
        assert_eq!(
            writes[i].1.path,
            format!("{}/cgroup.freeze", tree.pane_dir(*id))
        );
        assert_eq!(writes[i].1.contents, "1\n");
    }
    for (_, write) in tree.set_all_frozen(&entries, false) {
        assert_eq!(write.contents, "0\n");
    }
    assert_eq!(set_frozen("/cg", true).path, "/cg/cgroup.freeze");
}

#[test]
fn own_cgroup_dir_points_under_sysfs_when_v2_is_present() {
    let dir = own_cgroup_dir("0::/user.slice/user-1000.slice/app.scope\n").unwrap();
    assert!(dir.starts_with(CGROUP_FS_ROOT));
    assert_eq!(dir, "/sys/fs/cgroup/user.slice/user-1000.slice/app.scope");
    assert_eq!(
        own_cgroup_dir("12:cpu:/x\n0::// a \n0::/b\n").unwrap(),
        "/sys/fs/cgroup/ a"
    );
    assert_eq!(own_cgroup_dir("0::/\n").unwrap(), "/sys/fs/cgroup/");
    let err = own_cgroup_dir("12:cpu:/x\n").unwrap_err();
    assert_eq!(
        err.to_string(),
        "no cgroup v2 membership found in /proc/self/cgroup"
    );
    assert_eq!(controllers_file(), "/sys/fs/cgroup/cgroup.controllers");
}

#[test]
fn a_session_gets_its_own_groups() {
    let plan =
        PaneCgroups::create_for_session(true, "0::/u.slice\n", "/run/zellij", "work").unwrap();
    assert_eq!(plan.tree.root(), "/sys/fs/cgroup/u.slice/gezellij-work");
    assert_eq!(
        plan.events,
        "/sys/fs/cgroup/u.slice/gezellij-work/cgroup.events"
    );
    assert_eq!(plan.sock_dir, "/run/zellij");
    assert_eq!(plan.record.path, "/run/zellij/work.cgroup-root");
    assert_eq!(plan.record.contents, plan.tree.root());
    // the record leads back to the groups
    let found = PaneCgroups::from_session_record(&format!("{}\n", plan.record.contents));
    assert_eq!(found.root(), plan.tree.root());
    assert_eq!(
        found.create_pane(3),
        (
            "/sys/fs/cgroup/u.slice/gezellij-work/pane-3".to_string(),
            "/sys/fs/cgroup/u.slice/gezellij-work/pane-3/cgroup.procs".to_string()
        )
    );

    let err = PaneCgroups::create_for_session(false, "0::/u\n", "/run", "work").unwrap_err();
    assert_eq!(err, CgroupError::NotMounted);
    assert_eq!(err.to_string(), "cgroup v2 is not mounted at /sys/fs/cgroup");
    let err = PaneCgroups::create_for_session(true, "", "/run", "work").unwrap_err();
    assert_eq!(err, CgroupError::NoMembership);
}

#[test]
fn groups_are_thawed_before_they_are_removed() {
    let tree = PaneCgroups::at("/cg/s".to_string());
    assert!(tree.remove_pane(4, false).is_none());
    let (thaw, dir) = tree.remove_pane(4, true).unwrap();
    assert_eq!(dir, "/cg/s/pane-4");
    assert_eq!(thaw.path, "/cg/s/pane-4/cgroup.freeze");
    assert_eq!(thaw.contents, "0\n");

    let teardown = tree.remove_all(&Some(names(&["pane-9", "x", "pane-1"])), "/run", "s");
    assert_eq!(
        teardown
            .panes
            .iter()
            .map(|(w, d)| (w.contents.as_str(), d.as_str()))
            .collect::<Vec<_>>(),
        vec![("0\n", "/cg/s/pane-1"), ("0\n", "/cg/s/pane-9")]
    );
    assert_eq!(teardown.root, "/cg/s");
    assert_eq!(teardown.record, "/run/s.cgroup-root");
    assert!(tree.remove_all(&None, "/run", "s").panes.is_empty());
    assert_eq!(record_file("/run/", "s"), "/run/s.cgroup-root");
}

#[test]
fn leftovers_of_dead_sessions_are_swept() {
    let siblings = vec![
        Leftover {
            name: "app.scope".to_string(),
            entries: Some(names(&["pane-1"])),
        },
        Leftover {
            name: "gezellij-old".to_string(),
            entries: Some(names(&["pane-1", "cgroup.procs", "pane-x"])),
        },
        Leftover {
            name: "gezellij-gone".to_string(),
            entries: None,
        },
    ];
    assert_eq!(
        sweep_stale_roots("/cg", &siblings),
        names(&[
            "/cg/gezellij-old/pane-1",
            "/cg/gezellij-old/pane-x",
            "/cg/gezellij-old",
            "/cg/gezellij-gone",
        ])
    );
    assert!(is_session_root("gezellij-"));
    assert!(!is_session_root("gezellij"));
    assert!(is_pane_entry("pane-x"));
    assert!(!is_pane_entry("cgroup.freeze"));
}

#[test]
fn a_session_without_groups_has_nothing_to_say() {
    assert_eq!(set_session_frozen(&None), None);
    assert_eq!(set_session_frozen(&Some(vec![])), Some((0, 0)));
    assert_eq!(
        set_session_frozen(&Some(vec![true, false, true])),
        Some((2, 1))
    );
    assert_eq!(session_freeze_summary(&None), None);
    assert_eq!(
        session_freeze_summary(&Some(vec![state(true), state(false)])),
        Some(FreezeSummary {
            total: 2,
            frozen: 1
        })
    );
    assert_eq!(session_is_frozen(&None), None);
    assert_eq!(session_is_frozen(&Some(vec![])), None);
    assert_eq!(session_is_frozen(&Some(vec![state(true)])), Some(true));
}

#[test]
fn a_session_has_groups_only_where_its_record_leads_to_some() {
    let tree = || PaneCgroups::at("/cg/s".to_string());
    let found = PaneCgroups::recorded::<String>(FileAnswer::Done((tree(), true)));
    assert_eq!(found.unwrap().unwrap().root(), "/cg/s");
    let stale = PaneCgroups::recorded::<String>(FileAnswer::Done((tree(), false)));
    assert!(stale.unwrap().is_none());
    let unrecorded = PaneCgroups::recorded::<String>(FileAnswer::Missing);
    assert!(unrecorded.unwrap().is_none());
    let failed = PaneCgroups::recorded(FileAnswer::Failed("denied".to_string()));
    assert_eq!(failed.unwrap_err(), "denied");
}
