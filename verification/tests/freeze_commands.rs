use gezellij::cgroups::{FreezeState, PaneCgroups, PaneDir};
use gezellij::freeze_commands::{
    parse_terminal_id, plan_run, report_run, requested_session, require_panes, require_tree,
    resolve_session, status_table, ActiveSession, FreezePlan, PaneResult, PaneStatus,
    SessionChoice,
};

fn text(s: &str) -> String {
    s.to_string()
}

fn pane(id: u32) -> PaneDir {
    PaneDir {
        id,
        dir: format!("/cg/pane-{}", id),
    }
}

#[test]
fn the_session_is_the_named_one_or_the_only_one() {
    assert_eq!(
        requested_session(Some(text("a")), Some(text("b")), Some(text("c"))),
        Some(text("a"))
    );
    assert_eq!(
        requested_session(None, Some(text("b")), Some(text("c"))),
        Some(text("b"))
    );
    assert_eq!(requested_session(None, None, Some(text("c"))), Some(text("c")));
    assert_eq!(requested_session(None, None, None), None);
    let named = |exists: bool| {
        resolve_session(SessionChoice::Named {
            name: text("a"),
            exists,
        })
    };
    assert_eq!(named(true), Ok(text("a")));
    assert_eq!(named(false), Err(text("No active session named 'a'")));
    assert_eq!(
        resolve_session(SessionChoice::Unnamed(ActiveSession::NoSession)),
        Err(text("There is no active session!"))
    );
    assert_eq!(
        resolve_session(SessionChoice::Unnamed(ActiveSession::One(text("x")))),
        Ok(text("x"))
    );
    assert_eq!(
        resolve_session(SessionChoice::Unnamed(ActiveSession::Many(vec![
            text("x"),
            text("y"),
            text("z")
        ]))),
        Err(text(
            "Several sessions are active, please name one: x, y, z"
        ))
    );
}

#[test]
fn panes_are_named_by_number() {
    assert_eq!(parse_terminal_id("terminal_3"), Ok(3));
    assert_eq!(parse_terminal_id("3"), Ok(3));
    assert_eq!(
        parse_terminal_id("plugin_3"),
        Err(text("Invalid pane id 'plugin_3': expected terminal_<n> or a bare number (plugin panes cannot be frozen)"))
    );
    assert!(parse_terminal_id("terminal_").is_err());
    assert!(parse_terminal_id("").is_err());
}

#[test]
fn a_run_acts_on_the_chosen_panes() {
    let panes = vec![pane(1), pane(3)];
    assert_eq!(
        plan_run("main", panes.clone(), &None, false),
        Ok(FreezePlan::Act(panes.clone()))
    );
    assert_eq!(
        plan_run("main", panes.clone(), &Some(text("terminal_3")), true),
        Ok(FreezePlan::Status(vec![pane(3)]))
    );
    assert_eq!(
        plan_run("main", panes.clone(), &Some(text("2")), false),
        Err(text("Pane terminal_2 of 'main' has no cgroup (not a command/shell pane, or already gone)"))
    );
    assert!(plan_run("main", panes, &Some(text("x")), false)
        .unwrap_err()
        .starts_with("Invalid pane id 'x'"));
    assert_eq!(
        plan_run("main", vec![], &None, true),
        Ok(FreezePlan::Nothing(text(
            "Session 'main' has no terminal panes to act on.\n"
        )))
    );
}

#[test]
fn a_session_without_groups_cannot_be_frozen() {
    assert_eq!(
        require_tree("main", Ok(None)).unwrap_err(),
        "Session 'main' has no pane cgroups. Its server was started without cgroup v2 delegation (or by an older version), so it cannot be frozen."
    );
    assert_eq!(
        require_tree("main", Err(text("denied"))).unwrap_err(),
        "Could not look up the cgroups of 'main': denied"
    );
    let tree = require_tree("main", Ok(Some(PaneCgroups::at(text("/cg"))))).unwrap();
    assert_eq!(tree.root(), "/cg");
    assert_eq!(
        require_panes("main", Err(text("denied"))),
        Err(text("Could not list the panes of 'main': denied"))
    );
    assert_eq!(require_panes("main", Ok(vec![pane(1)])), Ok(vec![pane(1)]));
}

#[test]
fn the_status_table_is_aligned() {
    let state = |frozen: bool, populated: bool| Ok(FreezeState { frozen, populated });
    let table = status_table(&vec![
        PaneStatus {
            id: 3,
            state: state(true, true),
        },
        PaneStatus {
            id: 1234,
            state: state(false, false),
        },
        PaneStatus {
            id: 12,
            state: Err(text("gone")),
        },
    ]);
    assert_eq!(
        table,
        format!(
            "{:<12} {:<8} {}\nterminal_{:<3} {:<8} {}\nterminal_{:<3} {:<8} {}\nterminal_{:<3} {:<8} ({})\n",
            "PANE", "STATE", "POPULATED", 3, "frozen", "yes", 1234, "running", "no", 12, "?", "gone"
        )
    );
}

#[test]
fn a_run_is_summed_up() {
    let ok = |id: u32| PaneResult { id, error: None };
    let failed = |id: u32, e: &str| PaneResult {
        id,
        error: Some(text(e)),
    };
    let output = report_run("main", false, true, &vec![ok(1), ok(2)]);
    assert_eq!(
        output.stdout,
        "Froze all 2 panes of session 'main'.\nThaw with: zellij thaw main\n"
    );
    assert_eq!((output.stderr.as_str(), output.status), ("", 0));
    let output = report_run("main", true, false, &vec![ok(1)]);
    assert_eq!(output.stdout, "Thawed pane of session 'main'.\n");
    let output = report_run("main", false, true, &vec![failed(1, "EIO"), ok(2), failed(3, "x")]);
    assert_eq!(output.stdout, "");
    assert_eq!(
        output.stderr,
        "terminal_1: EIO\nterminal_3: x\nFroze 1 of 3 panes of session 'main' (2 failed).\n"
    );
    assert_eq!(output.status, 1);
}
