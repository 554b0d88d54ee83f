use svoy_share::directory::PeerDirectory;
use svoy_share::manager::ShareManager;
use svoy_share::messages::ShareEvent;
use svoy_share::peer::DeviceDescriptor;
use svoy_share::peer::PeerAddress;
use svoy_share::peer::PeerRecord;

fn descriptor(alias: &str) -> DeviceDescriptor {
    DeviceDescriptor {
        alias: alias.to_string(),
        version: "2.1".to_string(),
        device_model: None,
        device_type: Some("desktop".to_string()),
        port: 53317,
        protocol: "https".to_string(),
        download: false,
    }
}

fn record(fp: &str, ip: &str, alias: &str) -> PeerRecord {
    PeerRecord {
        fingerprint: fp.to_string(),
        address: PeerAddress { ip: ip.to_string(), port: 53317 },
        device: descriptor(alias),
    }
}

fn running_manager() -> ShareManager {
    let mut m = ShareManager::new().unwrap();
    m.init_succeeded();
    m
}

#[test]
fn three_cycle_event_stream() {
    let mut m = running_manager();
    let a = record("A", "192.168.0.10", "alpha");
    let b = record("B", "192.168.0.11", "beta");

    m.sync_cycle(&vec![a.clone()]);
    m.sync_cycle(&vec![a.clone(), b.clone()]);
    m.sync_cycle(&vec![b.clone()]);

    let events = m.poll_events();
    assert_eq!(
        events,
        vec![
            ShareEvent::PeerDiscovered {
                fingerprint: "A".to_string(),
                device: a.device.clone(),
                addr: a.address.clone(),
            },
            ShareEvent::PeerDiscovered {
                fingerprint: "B".to_string(),
                device: b.device.clone(),
                addr: b.address.clone(),
            },
            ShareEvent::PeerLost { fingerprint: "A".to_string() },
        ]
    );
    assert_eq!(m.get_peers(), vec![b]);
}

#[test]
fn refresh_emits_no_event() {
    let mut m = running_manager();
    let a_old = record("A", "192.168.0.10", "alpha");
    let a_new = record("A", "192.168.0.99", "alpha-renamed");

    m.sync_cycle(&vec![a_old.clone()]);
    m.sync_cycle(&vec![a_new.clone()]);

    let events = m.poll_events();
    assert_eq!(
        events,
        vec![ShareEvent::PeerDiscovered {
            fingerprint: "A".to_string(),
            device: a_old.device.clone(),
            addr: a_old.address.clone(),
        }]
    );
    // The record was refreshed in place: the directory holds the new
    // address and descriptor.
    assert_eq!(m.get_peers(), vec![a_new]);
}

#[test]
fn empty_snapshot_clears_directory() {
    let mut m = running_manager();
    let a = record("A", "192.168.0.10", "alpha");

    m.sync_cycle(&vec![a.clone()]);
    m.sync_cycle(&vec![]);

    let events = m.poll_events();
    assert_eq!(
        events,
        vec![
            ShareEvent::PeerDiscovered {
                fingerprint: "A".to_string(),
                device: a.device.clone(),
                addr: a.address.clone(),
            },
            ShareEvent::PeerLost { fingerprint: "A".to_string() },
        ]
    );
    assert!(m.get_peers().is_empty());
}

#[test]
fn discovery_precedes_loss_within_one_cycle() {
    let mut dir = PeerDirectory::new();
    let a = record("A", "192.168.0.10", "alpha");
    let b = record("B", "192.168.0.11", "beta");

    let first = dir.reconcile(&vec![a.clone()]);
    assert_eq!(first.len(), 1);

    let events = dir.reconcile(&vec![b.clone()]);
    assert_eq!(
        events,
        vec![
            ShareEvent::PeerDiscovered {
                fingerprint: "B".to_string(),
                device: b.device.clone(),
                addr: b.address.clone(),
            },
            ShareEvent::PeerLost { fingerprint: "A".to_string() },
        ]
    );
    assert_eq!(dir.records, vec![b]);
}

#[test]
fn unchanged_snapshot_is_quiet() {
    let mut m = running_manager();
    let a = record("A", "192.168.0.10", "alpha");

    m.sync_cycle(&vec![a.clone()]);
    let _ = m.poll_events();
    m.sync_cycle(&vec![a.clone()]);
    m.sync_cycle(&vec![a.clone()]);

    assert!(m.poll_events().is_empty());
    assert_eq!(m.get_peers(), vec![a]);
}

#[test]
fn losses_follow_discoveries_in_directory_order() {
    let mut dir = PeerDirectory::new();
    let a = record("A", "192.168.0.10", "alpha");
    let b = record("B", "192.168.0.11", "beta");
    let c = record("C", "192.168.0.12", "gamma");
    let d = record("D", "192.168.0.13", "delta");

    let first = dir.reconcile(&vec![a.clone(), b.clone(), c.clone()]);
    assert_eq!(first.len(), 3);

    // B stays, D is new, A and C vanish: the one discovery comes first,
    // then the losses in directory order.
    let events = dir.reconcile(&vec![b.clone(), d.clone()]);
    assert_eq!(
        events,
        vec![
            ShareEvent::PeerDiscovered {
                fingerprint: "D".to_string(),
                device: d.device.clone(),
                addr: d.address.clone(),
            },
            ShareEvent::PeerLost { fingerprint: "A".to_string() },
            ShareEvent::PeerLost { fingerprint: "C".to_string() },
        ]
    );
    assert_eq!(dir.records, vec![b, d]);
}

#[test]
fn get_peers_returns_an_independent_copy() {
    let mut m = running_manager();
    let a = record("A", "192.168.0.10", "alpha");
    m.sync_cycle(&vec![a.clone()]);

    let mut copy = m.get_peers();
    copy.clear();

    assert_eq!(m.get_peers(), vec![a]);
}
