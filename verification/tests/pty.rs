use gezellij::cgroups::PaneCgroups;
use gezellij::command::RunCommand;
use gezellij::pty::{
    handle_command_exit, handle_openpty, handle_terminal, no_pane_cgroup, pane_cgroups, poll_step,
    reap_adopted, reap_step, set_cloexec, try_write_to_fd, AdoptSteps, ChildLook, ChildSignal,
    ExitEnd, ExitStep, ExitWatch, PartialWrite,
    ReapStep, SizeStep, SpawnError, TerminalStep, UnixPtyBackend, WaitEvent, Winsize, WriteOutcome,
    WriteStep, FD_CLOEXEC, PANE_ID_VAR,
};

/// A terminal that takes up to `step` bytes at a time and holds `room` in all.
fn terminal(room: usize, step: usize, len: usize) -> Vec<WriteOutcome> {
    let mut outcomes = Vec::new();
    let mut left = len.min(room);
    while left > 0 {
        let n = left.min(step);
        outcomes.push(WriteOutcome::Wrote(n));
        left -= n;
    }
    outcomes.push(WriteOutcome::WouldBlock);
    outcomes
}

#[test]
fn try_write_to_fd_returns_partial_on_full_buffer() {
    let size = 128 * 1024;
    let written = try_write_to_fd(size, &terminal(512, 100, size))
        .expect("try_write_to_fd should not error on EAGAIN");
    assert!(
        written > 0 && written < size,
        "expected partial write, got {written}/{size}",
    );
    assert_eq!(written, 512);
}

#[test]
fn try_write_to_fd_returns_zero_on_stuck_pty() {
    let written = try_write_to_fd(3, &vec![WriteOutcome::WouldBlock])
        .expect("try_write_to_fd should not error on EAGAIN");
    assert_eq!(written, 0, "expected zero bytes written on full buffer");
    assert_eq!(try_write_to_fd(3, &vec![WriteOutcome::Wrote(0)]), Ok(0));
}

#[test]
fn interrupted_writes_are_repeated_and_errors_are_reported() {
    assert_eq!(
        try_write_to_fd(
            10,
            &vec![
                WriteOutcome::Wrote(4),
                WriteOutcome::Interrupted,
                WriteOutcome::Wrote(6),
                WriteOutcome::Refused(5),
            ]
        ),
        Ok(10)
    );
    assert_eq!(
        try_write_to_fd(10, &vec![WriteOutcome::Wrote(4), WriteOutcome::Refused(5)]),
        Err(5)
    );
    let mut write = PartialWrite::new(2);
    assert_eq!(write.step(WriteOutcome::Wrote(1)), WriteStep::Again);
    assert_eq!(write.written(), 1);
    assert_eq!(write.step(WriteOutcome::Wrote(1)), WriteStep::Done(2));
    assert!(write.is_complete());
}

#[test]
fn adopt_terminal_advances_next_terminal_id() {
    let mut backend = UnixPtyBackend::new();
    assert_eq!(backend.next_terminal_id(), Some(0));
    let steps = backend.adopt_terminal(41, 9, None, 24, 80);
    assert_eq!(
        backend.next_terminal_id(),
        Some(42),
        "next_terminal_id must not collide with an adopted id"
    );
    assert_eq!(
        steps,
        AdoptSteps {
            resize: Some(Winsize {
                ws_row: 24,
                ws_col: 80,
                ws_xpixel: 0,
                ws_ypixel: 0
            }),
            reap: None
        }
    );
    // an id below the counter does not bring it down
    backend.adopt_terminal(3, 10, Some(77), 0, 80);
    assert_eq!(backend.next_terminal_id(), Some(43));
}

#[test]
fn an_adopted_child_is_waited_for() {
    let mut backend = UnixPtyBackend::new();
    let steps = backend.adopt_terminal(3, 10, Some(77), 0, 80);
    assert_eq!(
        steps,
        AdoptSteps {
            resize: None,
            reap: Some(77)
        }
    );
}

#[test]
fn terminal_fd_table_lists_adopted_fd() {
    let mut backend = UnixPtyBackend::new();
    assert!(backend.terminal_fd_table().is_empty());
    backend.reserve_terminal_id(9); // reserved, no fd yet
    let master_fd = 12;
    backend.adopt_terminal(5, master_fd, None, 24, 80);
    assert_eq!(backend.terminal_fd_table(), vec![(5, master_fd)]);
    backend.spawn_terminal(9, 13);
    backend.spawn_terminal(2, 14);
    assert_eq!(
        backend.terminal_fd_table(),
        vec![(2, 14), (5, 12), (9, 13)]
    );
    backend.clear_terminal_id(5);
    assert_eq!(backend.terminal_fd_table(), vec![(2, 14), (9, 13)]);
}

#[test]
fn an_id_is_never_given_out_again() {
    let mut backend = UnixPtyBackend::new();
    backend.adopt_terminal(u32::MAX - 1, 1, None, 1, 1);
    assert_eq!(backend.next_terminal_id(), Some(u32::MAX));
    // every id has been used up
    assert_eq!(backend.next_terminal_id(), None);
    assert_eq!(backend.next_terminal_id(), None);
    let mut backend = UnixPtyBackend::new();
    assert_eq!(backend.next_terminal_id(), Some(0));
    backend.adopt_terminal(2, 1, None, 1, 1);
    backend.adopt_terminal(1, 1, None, 1, 1);
    assert_eq!(backend.next_terminal_id(), Some(3));
    backend.adopt_terminal(u32::MAX, 1, None, 1, 1);
    assert_eq!(backend.next_terminal_id(), None);
}

#[test]
fn prepare_fds_for_exec_clears_cloexec_only_for_listed_fds() {
    assert_eq!(set_cloexec(0, true), FD_CLOEXEC);
    assert_eq!(set_cloexec(FD_CLOEXEC, false), 0);
    // the other flags stay as they are
    assert_eq!(set_cloexec(6, true), 7);
    assert_eq!(set_cloexec(7, false), 6);
    assert_eq!(set_cloexec(-1, false), -2);
}

#[test]
fn sizes_are_set_only_on_open_terminals() {
    let mut backend = UnixPtyBackend::new();
    backend.spawn_terminal(1, 20);
    backend.reserve_terminal_id(2);
    assert_eq!(
        backend.set_terminal_size(1, 80, 24, Some(800), None),
        SizeStep::Apply {
            fd: 20,
            size: Winsize {
                ws_row: 24,
                ws_col: 80,
                ws_xpixel: 800,
                ws_ypixel: 0
            }
        }
    );
    assert_eq!(
        backend.set_terminal_size(1, 0, 24, None, None),
        SizeStep::Skip
    );
    assert_eq!(
        backend.set_terminal_size(2, 80, 24, None, None),
        SizeStep::Missing(
            "failed to set terminal id 2 to size (24, 80): failed to find terminal fd for id 2"
                .to_string()
        )
    );
}

#[test]
fn a_terminal_without_a_descriptor_cannot_be_written_to() {
    let mut backend = UnixPtyBackend::new();
    backend.spawn_terminal(1, 20);
    assert_eq!(backend.write_to_tty_stdin(1), Ok(20));
    assert_eq!(backend.tcdrain(1), Ok(20));
    assert_eq!(backend.tcgetpgrp(1), Some(20));
    assert_eq!(
        backend.write_to_tty_stdin(2),
        Err(
            "failed to write to stdin of TTY ID 2: could not find raw file descriptor".to_string()
        )
    );
    assert_eq!(
        backend.tcdrain(2),
        Err("failed to tcdrain to TTY ID 2: could not find raw file descriptor".to_string())
    );
    assert_eq!(backend.tcgetpgrp(2), None);
}

#[test]
fn children_are_signalled_by_process_id() {
    let backend = UnixPtyBackend::new();
    assert_eq!(backend.kill(42), (42, ChildSignal::Hangup));
    assert_eq!(backend.force_kill(42), (42, ChildSignal::Kill));
    assert_eq!(backend.send_sigint(42), (42, ChildSignal::Interrupt));
}

#[test]
fn a_child_is_asked_three_times_before_it_is_killed() {
    let mut watch = ExitWatch::new();
    assert_eq!(watch.step(None, false), ExitStep::Again);
    assert_eq!(watch.step(None, true), ExitStep::Again);
    for _ in 0..3 {
        assert_eq!(watch.step(None, false), ExitStep::Terminate);
    }
    assert_eq!(watch.step(None, false), ExitStep::Kill);
    let mut watch = ExitWatch::new();
    assert_eq!(watch.step(Some(Some(2)), true), ExitStep::Exited(Some(2)));
    assert_eq!(watch.step(Some(None), true), ExitStep::Exited(None));
}

#[test]
fn an_adopted_child_is_reaped_or_polled() {
    match reap_step(3, 77, WaitEvent::Exited(-1)) {
        ReapStep::Gone {
            status,
            error,
            info,
        } => {
            assert_eq!(status, Some(-1));
            assert_eq!(error, None);
            assert_eq!(
                info,
                "adopted pane 3 (pid 77) exited with Some(-1) (reaped with waitpid)"
            );
        },
        other => panic!("unexpected step {:?}", other),
    }
    match reap_step(3, 77, WaitEvent::Signaled) {
        ReapStep::Gone { status, info, .. } => {
            assert_eq!(status, None);
            assert_eq!(
                info,
                "adopted pane 3 (pid 77) exited with None (reaped with waitpid)"
            );
        },
        other => panic!("unexpected step {:?}", other),
    }
    assert_eq!(reap_step(3, 77, WaitEvent::StillThere), ReapStep::Again);
    assert_eq!(reap_step(3, 77, WaitEvent::Interrupted), ReapStep::Again);
    assert_eq!(
        reap_step(3, 77, WaitEvent::NotOurChild),
        ReapStep::Poll {
            info: "adopted pane 3 (pid 77) is not our child (ECHILD); falling back to kill(pid, 0) liveness polling, exit status will be unknown".to_string()
        }
    );
    match reap_step(3, 77, WaitEvent::Refused("EINVAL".to_string())) {
        ReapStep::Gone { status, error, .. } => {
            assert_eq!(status, None);
            assert_eq!(
                error.unwrap(),
                "waitpid on adopted pane 3 (pid 77) failed: EINVAL"
            );
        },
        other => panic!("unexpected step {:?}", other),
    }
    assert_eq!(poll_step(3, 77, false), None);
    assert_eq!(
        poll_step(3, 77, true).unwrap(),
        "adopted pane 3 (pid 77) is gone (liveness poll)"
    );
}

#[test]
fn a_child_starts_where_it_should() {
    let mut cmd = RunCommand::new("make".to_string());
    cmd.args = vec!["all".to_string()];
    let plan = handle_openpty(&cmd, 8, true, false).unwrap();
    assert_eq!(plan.program, "make");
    assert_eq!(plan.args, vec!["all".to_string()]);
    assert_eq!(plan.pane_id, "8");
    assert_eq!((plan.current_dir, plan.complaint), (None, None));
    assert_eq!(PANE_ID_VAR, "ZELLIJ_PANE_ID");

    let cmd = cmd.with_cwd("/srv".to_string());
    let plan = handle_openpty(&cmd, 8, true, true).unwrap();
    assert_eq!(plan.current_dir, Some("/srv".to_string()));
    let plan = handle_openpty(&cmd, 8, true, false).unwrap();
    assert_eq!(plan.current_dir, None);
    assert_eq!(
        plan.complaint.unwrap(),
        "Failed to set CWD for new pane. '/srv' does not exist or is not a folder"
    );
    assert_eq!(
        handle_openpty(&cmd, 8, false, true),
        Err(SpawnError::CommandNotFound {
            terminal_id: 8,
            command: "make".to_string()
        })
    );
    assert_eq!(
        no_pane_cgroup(8, "denied"),
        "could not create cgroup for pane 8: denied"
    );
}

#[test]
fn another_command_is_tried_once() {
    let fish = RunCommand::new("fish".to_string());
    let sh = RunCommand::new("sh".to_string());
    match handle_terminal(true, fish.clone(), Some(sh.clone())) {
        TerminalStep::Start(cmd) => assert_eq!(cmd, fish),
        other => panic!("unexpected step {:?}", other),
    }
    match handle_terminal(false, fish.clone(), Some(sh.clone())) {
        TerminalStep::Retry(cmd) => assert_eq!(cmd, sh),
        other => panic!("unexpected step {:?}", other),
    }
    assert!(matches!(
        handle_terminal(false, sh, None),
        TerminalStep::Fail
    ));
}

#[test]
fn panes_run_without_groups_where_there_are_none() {
    let (tree, line) = pane_cgroups(true, Ok(PaneCgroups::at("/cg/s".to_string())));
    assert_eq!(tree.unwrap().root(), "/cg/s");
    assert_eq!(
        line.unwrap(),
        "pane cgroups for this session live under /cg/s"
    );
    let (tree, line) = pane_cgroups(true, Err("denied".to_string()));
    assert!(tree.is_none());
    assert_eq!(
        line.unwrap(),
        "cgroup v2 delegation unavailable (denied); panes will not be freezable"
    );
    let (tree, line) = pane_cgroups(false, Err("unused".to_string()));
    assert!(tree.is_none());
    assert_eq!(line, None);
}

fn look(exited: Option<Option<i32>>, signalled: bool) -> ChildLook {
    ChildLook { exited, signalled }
}

#[test]
fn a_stubborn_child_is_killed_in_the_end() {
    let there = look(None, false);
    let asked_to_go = look(None, true);
    assert_eq!(handle_command_exit(&vec![]), (0, ExitEnd::Waiting));
    assert_eq!(
        handle_command_exit(&vec![there, there, look(Some(Some(3)), false)]),
        (0, ExitEnd::Exited(Some(3)))
    );
    assert_eq!(
        handle_command_exit(&vec![asked_to_go, there, there, there, there, there]),
        (3, ExitEnd::Killed)
    );
    assert_eq!(
        handle_command_exit(&vec![asked_to_go, there, there, look(Some(None), false)]),
        (2, ExitEnd::Exited(None))
    );
    assert_eq!(
        handle_command_exit(&vec![asked_to_go, there, there, there]),
        (3, ExitEnd::Waiting)
    );
}

#[test]
fn an_adopted_child_is_waited_for_until_something_happens() {
    let quiet = vec![WaitEvent::StillThere, WaitEvent::Interrupted];
    assert_eq!(reap_adopted(3, 77, quiet.clone()), None);
    let mut events = quiet;
    events.push(WaitEvent::Exited(5));
    events.push(WaitEvent::NotOurChild);
    assert_eq!(
        reap_adopted(3, 77, events),
        Some(ReapStep::Gone {
            status: Some(5),
            error: None,
            info: "adopted pane 3 (pid 77) exited with Some(5) (reaped with waitpid)".to_string()
        })
    );
}

#[test]
fn adopt_terminal_reads_output_and_reaps_child() {
    let (master_fd, child_pid) = (12, 4242);
    let mut backend = UnixPtyBackend::new();
    let steps = backend.adopt_terminal(3, master_fd, Some(child_pid), 24, 80);
    // the adopted descriptor is put back into close-on-exec state
    assert_eq!(set_cloexec(0, true), FD_CLOEXEC);
    // its output is read from, and its input written to, the descriptor that was handed over
    assert_eq!(backend.terminal_fd_table(), vec![(3, master_fd)]);
    assert_eq!(backend.write_to_tty_stdin(3), Ok(master_fd));
    // the child is waited for, and its real exit status is reported
    assert_eq!(steps.reap, Some(child_pid));
    let step = reap_adopted(3, child_pid, vec![WaitEvent::StillThere, WaitEvent::Exited(0)]);
    assert_eq!(step, Some(reap_step(3, child_pid, WaitEvent::Exited(0))));
    match step {
        Some(ReapStep::Gone { status, error, .. }) => assert_eq!((status, error), (Some(0), None)),
        other => panic!("unexpected step {:?}", other),
    }
}
