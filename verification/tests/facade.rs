use svoy_share::manager::ShareManager;
use svoy_share::manager::WorkerAction;
use svoy_share::manager::WorkerState;
use svoy_share::messages::ShareEvent;
use svoy_share::peer::DeviceDescriptor;
use svoy_share::peer::PeerAddress;
use svoy_share::peer::PeerRecord;

fn peer(fp: &str) -> PeerRecord {
    PeerRecord {
        fingerprint: fp.to_string(),
        address: PeerAddress { ip: "192.168.0.20".to_string(), port: 53317 },
        device: DeviceDescriptor {
            alias: "gamma".to_string(),
            version: "2.1".to_string(),
            device_model: Some("pixel".to_string()),
            device_type: Some("mobile".to_string()),
            port: 53317,
            protocol: "https".to_string(),
            download: true,
        },
    }
}

#[test]
fn new_manager_is_empty_and_initializing() {
    let mut m = ShareManager::new().unwrap();
    assert_eq!(m.state, WorkerState::Initializing);
    assert!(m.get_peers().is_empty());
    assert!(m.poll_events().is_empty());
}

#[test]
fn poll_events_with_none_pending_returns_empty() {
    let mut m = ShareManager::new().unwrap();
    m.init_succeeded();
    assert!(m.poll_events().is_empty());
    assert!(m.poll_events().is_empty());
}

#[test]
fn poll_events_drains_in_order_once() {
    let mut m = ShareManager::new().unwrap();
    m.init_succeeded();
    m.sync_cycle(&vec![peer("A")]);
    m.sync_cycle(&vec![]);

    let events = m.poll_events();
    assert_eq!(events.len(), 2);
    assert!(matches!(events[0], ShareEvent::PeerDiscovered { .. }));
    assert!(matches!(events[1], ShareEvent::PeerLost { .. }));
    assert!(m.poll_events().is_empty());
}

#[test]
fn shutdown_twice_never_errors() {
    let mut m = ShareManager::new().unwrap();
    m.init_succeeded();
    m.shutdown();
    m.shutdown();
    // The worker consumes the first shutdown intent and exits; the second
    // one is simply never read.
    assert_eq!(m.next_action(), WorkerAction::Exit);
    m.worker_exited();
    assert_eq!(m.state, WorkerState::Stopped);
    // Calling shutdown after the worker has stopped is a no-op.
    m.shutdown();
    m.shutdown();
    assert_eq!(m.state, WorkerState::Stopped);
    assert!(m.poll_events().is_empty());
}

#[test]
fn send_file_after_worker_stopped_errors() {
    let mut m = ShareManager::new().unwrap();
    m.init_failed("could not bind discovery socket".to_string());
    assert_eq!(m.state, WorkerState::Stopped);
    let r = m.send_file("X".to_string(), "/img.png".to_string());
    assert_eq!(r, Err("command channel closed".to_string()));
}

#[test]
fn init_failure_reports_error_event_and_stops() {
    let mut m = ShareManager::new().unwrap();
    m.init_failed("could not bind discovery socket".to_string());
    assert_eq!(
        m.poll_events(),
        vec![ShareEvent::Error("could not bind discovery socket".to_string())]
    );
    assert_eq!(m.state, WorkerState::Stopped);
}

#[test]
fn send_to_unknown_peer_reports_started_then_failed() {
    let mut m = ShareManager::new().unwrap();
    m.init_succeeded();
    m.sync_cycle(&vec![peer("Y")]);
    let _ = m.poll_events();

    assert_eq!(m.send_file("X".to_string(), "/img.png".to_string()), Ok(()));
    let action = m.next_action();
    assert_eq!(
        action,
        WorkerAction::Transfer {
            peer_fingerprint: "X".to_string(),
            file_path: "/img.png".to_string(),
        }
    );
    // The network capability knows no peer "X": the transfer fails.
    m.finish_transfer(Err("peer not found".to_string()));

    let events = m.poll_events();
    assert_eq!(
        events,
        vec![
            ShareEvent::TransferStarted {
                peer_fingerprint: "X".to_string(),
                file_path: "/img.png".to_string(),
            },
            ShareEvent::TransferFailed {
                peer_fingerprint: "X".to_string(),
                error: "peer not found".to_string(),
            },
        ]
    );
    match &events[1] {
        ShareEvent::TransferFailed { error, .. } => assert!(!error.is_empty()),
        _ => unreachable!(),
    }
    // The directory is unaffected by the failed transfer.
    assert_eq!(m.get_peers(), vec![peer("Y")]);
}

#[test]
fn transfers_never_interleave() {
    let mut m = ShareManager::new().unwrap();
    m.init_succeeded();
    assert_eq!(m.send_file("otter".to_string(), "/a.png".to_string()), Ok(()));
    assert_eq!(m.send_file("heron".to_string(), "/b.png".to_string()), Ok(()));

    // The command loop is single-threaded: the first transfer reaches a
    // terminal outcome strictly before the second one starts.
    let first = m.next_action();
    assert_eq!(
        first,
        WorkerAction::Transfer {
            peer_fingerprint: "otter".to_string(),
            file_path: "/a.png".to_string(),
        }
    );
    m.finish_transfer(Ok(()));
    let second = m.next_action();
    assert_eq!(
        second,
        WorkerAction::Transfer {
            peer_fingerprint: "heron".to_string(),
            file_path: "/b.png".to_string(),
        }
    );
    m.finish_transfer(Err("connection reset".to_string()));

    let events = m.poll_events();
    assert_eq!(
        events,
        vec![
            ShareEvent::TransferStarted {
                peer_fingerprint: "otter".to_string(),
                file_path: "/a.png".to_string(),
            },
            ShareEvent::TransferComplete { peer_fingerprint: "otter".to_string() },
            ShareEvent::TransferStarted {
                peer_fingerprint: "heron".to_string(),
                file_path: "/b.png".to_string(),
            },
            ShareEvent::TransferFailed {
                peer_fingerprint: "heron".to_string(),
                error: "connection reset".to_string(),
            },
        ]
    );
}

#[test]
fn worker_idles_with_no_commands() {
    let mut m = ShareManager::new().unwrap();
    m.init_succeeded();
    assert_eq!(m.next_action(), WorkerAction::Idle);
    assert_eq!(m.state, WorkerState::Running);
}

#[test]
fn commands_are_consumed_in_submission_order() {
    let mut m = ShareManager::new().unwrap();
    m.init_succeeded();
    assert_eq!(m.send_file("otter".to_string(), "/a.png".to_string()), Ok(()));
    m.shutdown();

    // The pending send is processed before the shutdown intent.
    let first = m.next_action();
    assert!(matches!(first, WorkerAction::Transfer { .. }));
    m.finish_transfer(Ok(()));
    assert_eq!(m.next_action(), WorkerAction::Exit);
    assert_eq!(m.state, WorkerState::Draining);
    m.worker_exited();
    assert_eq!(m.state, WorkerState::Stopped);
}

#[test]
fn closed_command_channel_drains_the_worker() {
    let mut m = ShareManager::new().unwrap();
    m.init_succeeded();
    m.sync_cycle(&vec![peer("Y")]);
    m.command_channel_closed();
    assert_eq!(m.state, WorkerState::Draining);
    m.worker_exited();
    assert_eq!(m.state, WorkerState::Stopped);
    // The directory remains readable with its last reconciled contents.
    assert_eq!(m.get_peers(), vec![peer("Y")]);
}
