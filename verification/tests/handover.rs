use gezellij::command::RestartPolicy;
use gezellij::handover::{
    accept_manifest, after_send, check_socket_path_length, handover_socket_dir,
    handover_socket_path, manifest_length, recv_fd_chunk, recv_handover, recv_manifest,
    send_fd_chunk, send_handover, send_manifest, Control, FdChunk, HandoverError,
    HandoverManifest, PaneHandover, Receiver, RecvOutcome, RecvStep, SendOutcome, SendStep,
    FDS_PER_CHUNK, HANDOVER_PROTOCOL_VERSION, HANDOVER_SOCKET_SUBDIR, MAX_MANIFEST_LEN,
    ZELLIJ_SOCK_MAX_LENGTH,
};

const SOCK_DIR: &str = "/run/user/1000/zellij/contract_version_1";

fn manifest_of(name: &str, panes: u32) -> HandoverManifest {
    let mut manifest = HandoverManifest::new(name.to_string(), "gezellij test".to_string());
    for i in 0..panes {
        manifest.panes.push(PaneHandover::new(i));
    }
    manifest
}

/// What the receiver reads of the sender's messages when every descriptor `i` arrives as the
/// content `pane-i`.
fn arrivals(chunks: &[FdChunk]) -> Vec<RecvOutcome<String>> {
    chunks
        .iter()
        .map(|chunk| RecvOutcome::Message {
            bytes: 1,
            payload: chunk.payload,
            control: vec![Control::Rights(
                chunk.fds.iter().map(|fd| format!("pane-{}", fd)).collect(),
            )],
        })
        .collect()
}

#[test]
fn a_bare_pane_entry_holds_only_its_id() {
    let pane = PaneHandover::new(7);
    assert_eq!(pane.terminal_id, 7);
    assert_eq!(pane.restart, RestartPolicy::No);
    assert_eq!(pane.rows(), 0);
    let sized = PaneHandover {
        size: (24, 80),
        command: Some(vec!["bash".to_string()]),
        ..PaneHandover::default()
    };
    assert_eq!(sized.rows(), 24);
    assert_eq!(sized.cols(), 80);
    assert_eq!(sized.clone(), sized);
}

#[test]
fn a_new_manifest_speaks_this_protocol() {
    let manifest = HandoverManifest::default();
    assert_eq!(manifest.protocol_version, HANDOVER_PROTOCOL_VERSION);
    assert_eq!(manifest.expected_fd_count(), 0);
    assert!(manifest.is_compatible());
}

#[test]
fn rejects_newer_protocol_version() {
    let mut manifest = HandoverManifest::new("too-new".to_string(), "gezellij 99".to_string());
    manifest.protocol_version = HANDOVER_PROTOCOL_VERSION + 1;
    let err = accept_manifest(&manifest).unwrap_err();
    assert!(
        err.to_string().contains("protocol version"),
        "unexpected error: {}",
        err.to_string()
    );
    assert_eq!(
        err.to_string(),
        "handover manifest speaks protocol version 2, this build understands at most 1"
    );
}

#[test]
fn transfers_three_fds_with_distinct_content() {
    let contents = ["first pane", "second pane", "third pane"];
    let mut manifest = HandoverManifest::new("three".to_string(), "gezellij test".to_string());
    for (i, _) in contents.iter().enumerate() {
        manifest.panes.push(PaneHandover::new(i as u32 * 2));
    }
    let sent = send_handover(&manifest, &b"{}".to_vec(), &vec![10, 11, 12]).unwrap();
    assert_eq!(recv_manifest(&sent.header).unwrap(), b"{}".to_vec());
    assert_eq!(sent.chunks.len(), 1);
    assert_eq!(sent.chunks[0].payload, 3);
    let outcomes = vec![RecvOutcome::Message {
        bytes: 1,
        payload: sent.chunks[0].payload,
        control: vec![Control::Rights(
            sent.chunks[0]
                .fds
                .iter()
                .map(|fd| contents[(*fd - 10) as usize])
                .collect(),
        )],
    }];
    let received = recv_handover(&manifest, outcomes).unwrap();
    assert_eq!(received.len(), 3);
    for (i, fd) in received.iter().enumerate() {
        assert_eq!(*fd, contents[i], "fd {} carried wrong content", i);
    }
    assert_eq!(
        manifest
            .panes
            .iter()
            .map(|p| p.terminal_id)
            .collect::<Vec<_>>(),
        vec![0, 2, 4]
    );
}

#[test]
fn transfers_zero_fds() {
    let manifest = HandoverManifest::new("empty".to_string(), "gezellij test".to_string());
    let sent = send_handover(&manifest, &b"{}".to_vec(), &vec![]).unwrap();
    assert!(sent.chunks.is_empty());
    let received = recv_handover(&manifest, arrivals(&sent.chunks)).unwrap();
    assert!(received.is_empty());
}

#[test]
fn transfers_many_fds_across_chunks() {
    let count = 300;
    let manifest = manifest_of("many", count);
    let fds: Vec<i32> = (0..count as i32).collect();
    let sent = send_handover(&manifest, &b"{}".to_vec(), &fds).unwrap();
    assert_eq!(
        sent.chunks.iter().map(|c| c.fds.len()).collect::<Vec<_>>(),
        vec![64, 64, 64, 64, 44]
    );
    let received = recv_handover(&manifest, arrivals(&sent.chunks)).unwrap();
    assert_eq!(received.len(), 300);
    for (i, fd) in received.iter().enumerate() {
        assert_eq!(*fd, format!("pane-{}", i));
    }
}

#[test]
fn errors_when_manifest_promises_more_fds_than_sent() {
    let manifest = manifest_of("short", 2);
    let only = send_fd_chunk(&[5]).unwrap();
    let err = recv_handover(&manifest, arrivals(&[only])).unwrap_err();
    let msg = err.to_string();
    assert!(
        msg.contains("promised 2") && msg.contains("only 1"),
        "unexpected error: {}",
        msg
    );
    assert_eq!(
        msg,
        "handover ended early: manifest promised 2 file descriptor(s), only 1 arrived"
    );
}

#[test]
fn a_sender_that_stops_after_a_chunk_is_reported() {
    let manifest = manifest_of("cut", 100);
    let fds: Vec<i32> = (0..100).collect();
    let sent = send_handover(&manifest, &b"{}".to_vec(), &fds).unwrap();
    let err = recv_handover(&manifest, arrivals(&sent.chunks[..1])).unwrap_err();
    assert_eq!(
        err,
        HandoverError::EndedEarly {
            expected: 100,
            received: 64
        }
    );
}

#[test]
fn send_handover_rejects_fd_count_mismatch() {
    let manifest = manifest_of("mismatch", 2);
    let err = send_handover(&manifest, &b"{}".to_vec(), &vec![1]).unwrap_err();
    assert!(
        err.to_string().contains("lists 2 pane(s)"),
        "unexpected error: {}",
        err.to_string()
    );
    assert_eq!(
        err.to_string(),
        "handover manifest lists 2 pane(s) but 1 file descriptor(s) were given"
    );
}

#[test]
fn send_fd_chunk_rejects_bad_chunk_sizes() {
    assert!(send_fd_chunk(&[]).is_err());
    let too_many: Vec<i32> = vec![3; FDS_PER_CHUNK + 1];
    let err = send_fd_chunk(&too_many).unwrap_err();
    assert_eq!(
        err.to_string(),
        "invalid handover fd chunk size 65 (must be 1..=64)"
    );
    assert!(send_fd_chunk(&vec![3; FDS_PER_CHUNK]).is_ok());
}

#[test]
fn socket_paths_live_in_a_subdirectory_of_the_socket_dir() {
    let path = handover_socket_path(SOCK_DIR, "my-session");
    let path = std::path::Path::new(&path);
    let dir = handover_socket_dir(SOCK_DIR);
    let dir = std::path::Path::new(&dir);
    assert_eq!(path.file_name().unwrap(), "my-session");
    assert_eq!(path.parent().unwrap(), dir);
    assert_eq!(dir.file_name().unwrap(), HANDOVER_SOCKET_SUBDIR);
    // Crucially, NOT directly inside the socket directory: session listing would connect to it.
    assert_ne!(path.parent().unwrap(), std::path::Path::new(SOCK_DIR));
    assert!(path.starts_with(SOCK_DIR));
}

#[test]
fn rejects_overlong_socket_paths() {
    let long = format!("/tmp/{}", "x".repeat(ZELLIJ_SOCK_MAX_LENGTH));
    let err = check_socket_path_length(&long).unwrap_err();
    assert_eq!(
        err,
        HandoverError::PathTooLong {
            len: 113,
            path: long.clone()
        }
    );
    assert_eq!(
        err.to_string(),
        format!(
            "handover socket path is too long (113 bytes, max 108): {}",
            long
        )
    );
    assert!(check_socket_path_length(&"x".repeat(107)).is_ok());
    assert!(check_socket_path_length(&"x".repeat(108)).is_err());
    // bytes count, not characters
    assert!(check_socket_path_length(&"é".repeat(54)).is_err());
}

#[test]
fn a_manifest_is_framed_and_read_back() {
    let json = b"{\"session_name\":\"s\"}".to_vec();
    let mut stream = send_manifest(&json).unwrap();
    assert_eq!(&stream[..4], &[0, 0, 0, 20]);
    stream.extend_from_slice(b"rest");
    assert_eq!(recv_manifest(&stream).unwrap(), json);
    assert_eq!(recv_manifest(&stream[..23].to_vec()), Err(HandoverError::UnexpectedEof));
    assert_eq!(recv_manifest(&vec![0, 0]), Err(HandoverError::UnexpectedEof));
}

#[test]
fn implausible_manifest_lengths_are_refused() {
    assert_eq!(manifest_length(&[0, 1, 2, 3]), Ok(66051));
    assert_eq!(manifest_length(&[1, 0, 0, 0]), Ok(MAX_MANIFEST_LEN));
    let err = manifest_length(&[1, 0, 0, 1]).unwrap_err();
    assert_eq!(
        err.to_string(),
        "handover manifest length prefix is implausible (16777217 bytes, max 16777216)"
    );
    let err = send_manifest(&vec![0; 16777217]).unwrap_err();
    assert_eq!(
        err.to_string(),
        "handover manifest is too large (16777217 bytes, max 16777216)"
    );
}

#[test]
fn a_send_is_retried_only_after_a_signal() {
    assert_eq!(after_send(SendOutcome::Wrote(1)), SendStep::Sent);
    assert_eq!(after_send(SendOutcome::Interrupted), SendStep::Again);
    match after_send(SendOutcome::Wrote(0)) {
        SendStep::Failed(e) => assert_eq!(
            e.to_string(),
            "short sendmsg while transferring handover fds: wrote 0 of 1 byte"
        ),
        other => panic!("unexpected step {:?}", other),
    }
    match after_send(SendOutcome::Refused {
        errno: 32,
        detail: "Broken pipe".to_string(),
    }) {
        SendStep::Failed(e) => assert_eq!(e.to_string(), "Broken pipe (os error 32)"),
        other => panic!("unexpected step {:?}", other),
    }
}

fn failure(outcome: RecvOutcome<i32>) -> String {
    match recv_fd_chunk(outcome) {
        RecvStep::Failed(e) => e.to_string(),
        _ => panic!("expected a failure"),
    }
}

#[test]
fn a_malformed_chunk_is_refused() {
    let message = |bytes: usize, payload: u8, fds: Vec<i32>| RecvOutcome::Message {
        bytes,
        payload,
        control: vec![Control::Other, Control::Rights(fds)],
    };
    assert_eq!(
        failure(message(0, 0, vec![1, 2])),
        "handover peer sent 2 file descriptor(s) without a chunk header"
    );
    assert_eq!(
        failure(message(1, 0, vec![])),
        "handover peer announced an invalid chunk size of 0"
    );
    assert_eq!(
        failure(message(1, 65, vec![])),
        "handover peer announced an invalid chunk size of 65"
    );
    assert_eq!(
        failure(message(1, 3, vec![1])),
        "handover chunk announced 3 file descriptor(s) but 1 arrived"
    );
    assert_eq!(
        failure(RecvOutcome::Truncated),
        "handover control message was truncated (MSG_CTRUNC); the transferred file descriptors were dropped by the kernel"
    );
    assert!(matches!(
        recv_fd_chunk(message(0, 0, vec![])),
        RecvStep::Eof
    ));
    assert!(matches!(
        recv_fd_chunk::<i32>(RecvOutcome::Interrupted),
        RecvStep::Again
    ));
    match recv_fd_chunk(RecvOutcome::Message {
        bytes: 1,
        payload: 3,
        control: vec![Control::Rights(vec![1, 2]), Control::Rights(vec![3])],
    }) {
        RecvStep::Chunk(fds) => assert_eq!(fds, vec![1, 2, 3]),
        _ => panic!("expected a chunk"),
    }
}

#[test]
fn too_many_descriptors_are_refused() {
    let manifest = manifest_of("greedy", 1);
    let chunk = send_fd_chunk(&[1, 2]).unwrap();
    let err = recv_handover(&manifest, arrivals(&[chunk])).unwrap_err();
    assert_eq!(
        err.to_string(),
        "handover peer sent more file descriptors than its manifest promised (2 > 1)"
    );
}

#[test]
fn a_receiver_collects_chunk_by_chunk() {
    let receiver = Receiver::new(3);
    assert!(!receiver.is_complete());
    let receiver = receiver.accept(vec!["a", "b"]).unwrap();
    assert!(!receiver.is_complete());
    assert_eq!(
        receiver.ended_early(),
        HandoverError::EndedEarly {
            expected: 3,
            received: 2
        }
    );
    let receiver = receiver.accept(vec!["c"]).unwrap();
    assert!(receiver.is_complete());
    assert_eq!(receiver.into_fds(), vec!["a", "b", "c"]);
}

#[test]
fn interrupted_reads_are_repeated() {
    let manifest = manifest_of("patient", 1);
    let outcomes = vec![
        RecvOutcome::Interrupted,
        RecvOutcome::Message {
            bytes: 1,
            payload: 1,
            control: vec![Control::Rights(vec![9])],
        },
    ];
    assert_eq!(recv_handover(&manifest, outcomes).unwrap(), vec![9]);
}

#[test]
fn errors_from_json_are_worded() {
    assert_eq!(
        HandoverError::Serialize {
            reason: "x".to_string()
        }
        .to_string(),
        "failed to serialize handover manifest: x"
    );
    assert_eq!(
        HandoverError::Parse {
            reason: "y".to_string()
        }
        .to_string(),
        "failed to parse handover manifest: y"
    );
}
