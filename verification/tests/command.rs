use gezellij::command::{
    Direction, OpenFilePayload, OriginatingPlugin, RestartPolicy, RunCommand, RunCommandAction,
    TerminalAction,
};
use std::str::FromStr;

fn parse_policy(s: &str) -> Result<RestartPolicy, String> {
    <RestartPolicy as FromStr>::from_str(s)
}

#[test]
fn restart_policy_from_str_accepts_known_spellings() {
    for s in ["no", "No", "NO", "never", "false", " no "] {
        assert_eq!(parse_policy(s).unwrap(), RestartPolicy::No, "{}", s);
    }
    for s in [
        "on-failure",
        "on_failure",
        "onfailure",
        "On-Failure",
        "ONFAILURE",
    ] {
        assert_eq!(parse_policy(s).unwrap(), RestartPolicy::OnFailure, "{}", s);
    }
    for s in ["always", "Always", "ALWAYS", "true"] {
        assert_eq!(parse_policy(s).unwrap(), RestartPolicy::Always, "{}", s);
    }
}

#[test]
fn restart_policy_from_str_rejects_unknown_spellings() {
    for s in ["sometimes", "", "on failure", "maybe", "0", "1"] {
        assert!(parse_policy(s).is_err(), "expected '{}' to be rejected", s);
    }
}

#[test]
fn a_rejected_policy_is_named_in_the_message() {
    assert_eq!(
        parse_policy(" Sometimes ").unwrap_err(),
        "invalid restart policy 'sometimes', expected one of: no, on-failure, always"
    );
}

#[test]
fn restart_policy_display_round_trips_through_from_str() {
    for policy in [
        RestartPolicy::No,
        RestartPolicy::OnFailure,
        RestartPolicy::Always,
    ] {
        assert_eq!(parse_policy(&policy.to_string()).unwrap(), policy);
        assert_eq!(policy.to_string(), policy.as_str());
    }
}

#[test]
fn restart_policy_should_restart_truth_table() {
    // No: never restarts
    assert!(!RestartPolicy::No.should_restart(Some(0)));
    assert!(!RestartPolicy::No.should_restart(Some(1)));
    assert!(!RestartPolicy::No.should_restart(None));

    // Always: restarts regardless of exit status
    assert!(RestartPolicy::Always.should_restart(Some(0)));
    assert!(RestartPolicy::Always.should_restart(Some(1)));
    assert!(RestartPolicy::Always.should_restart(None));

    // OnFailure: restarts on non-zero exit or unknown status (signal), not on success
    assert!(!RestartPolicy::OnFailure.should_restart(Some(0)));
    assert!(RestartPolicy::OnFailure.should_restart(Some(1)));
    assert!(RestartPolicy::OnFailure.should_restart(None));
}

#[test]
fn restart_policy_is_no() {
    assert!(RestartPolicy::No.is_no());
    assert!(RestartPolicy::default().is_no());
    assert!(!RestartPolicy::OnFailure.is_no());
    assert!(!RestartPolicy::Always.is_no());
}

#[test]
fn run_command_debug_shows_the_restart_policy() {
    let run_command = RunCommand {
        command: "tail".to_string(),
        ..Default::default()
    };
    let debug = format!("{:?}", run_command);
    assert!(
        debug.contains("restart: No"),
        "expected the restart policy in debug output, got: {}",
        debug
    );
}

#[test]
fn run_command_debug_includes_non_default_restart() {
    let run_command = RunCommand {
        command: "tail".to_string(),
        restart: RestartPolicy::Always,
        ..Default::default()
    };
    let debug = format!("{:?}", run_command);
    assert!(
        debug.contains("restart"),
        "expected a restart field in debug output, got: {}",
        debug
    );
    assert!(
        debug.contains("Always"),
        "expected the restart policy in debug output, got: {}",
        debug
    );
}

#[test]
fn run_command_with_restart_builder() {
    let run_command = RunCommand {
        command: "tail".to_string(),
        ..Default::default()
    }
    .with_restart(RestartPolicy::OnFailure);
    assert_eq!(run_command.restart, RestartPolicy::OnFailure);
}

#[test]
fn a_command_is_shown_with_its_arguments() {
    let mut run_command = RunCommand::new("tail".to_string());
    assert_eq!(run_command.to_string(), "tail");
    run_command.args = vec!["-n".to_string(), "3".to_string()];
    assert_eq!(run_command.to_string(), "tail -n 3");
}

#[test]
fn an_action_takes_its_first_word_as_the_command() {
    let action = RunCommandAction::new(vec!["ls".to_string(), "-l".to_string()]);
    assert_eq!(action.command, "ls");
    assert_eq!(action.args, vec!["-l".to_string()]);
    assert_eq!(RunCommandAction::new(vec![]), RunCommandAction::default());
}

#[test]
fn a_command_survives_as_an_action() {
    let run = RunCommand::new("make".to_string())
        .with_cwd("/srv".to_string())
        .with_restart(RestartPolicy::Always);
    let action = RunCommandAction::from(run.clone());
    assert_eq!(action.direction, None);
    assert_eq!(RunCommand::from(action.clone()), run);
    let mut right = action.clone();
    right.direction = Some(Direction::Right);
    assert_eq!(RunCommandAction::from(RunCommand::from(right)), action);
}

#[test]
fn only_the_directory_of_an_action_changes() {
    let payload = OpenFilePayload::new("/etc/hosts".to_string(), Some(3), None);
    let mut open = TerminalAction::OpenFile(payload.clone());
    open.change_cwd("/etc".to_string());
    match open {
        TerminalAction::OpenFile(changed) => {
            assert_eq!(changed.cwd, Some("/etc".to_string()));
            assert_eq!(changed.path, payload.path);
            assert_eq!(changed.line_number, Some(3));
        },
        TerminalAction::RunCommand(_) => panic!("the kind of the action changed"),
    }
    let mut run = TerminalAction::RunCommand(RunCommand::new("vi".to_string()));
    run.change_cwd("/tmp".to_string());
    match run {
        TerminalAction::RunCommand(changed) => {
            assert_eq!(changed.cwd, Some("/tmp".to_string()));
            assert_eq!(changed.command, "vi");
        },
        TerminalAction::OpenFile(_) => panic!("the kind of the action changed"),
    }
}

#[test]
fn the_originating_plugin_is_kept() {
    let plugin = OriginatingPlugin {
        plugin_id: 4,
        client_id: 2,
        context: vec![("k".to_string(), "v".to_string())],
    };
    let payload = OpenFilePayload::default().with_originating_plugin(plugin.clone());
    assert_eq!(payload.originating_plugin, Some(plugin.clone()));
    assert_eq!(payload.path, "");
    let mut action = RunCommandAction::default();
    action.populate_originating_plugin(plugin.clone());
    assert_eq!(action.originating_plugin, Some(plugin));
}
