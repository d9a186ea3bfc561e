use radio_backend::discovery::{DiscoveryPacket, DiscoveryRegistry, PacketAction, SelfAnnouncement};

fn ann() -> SelfAnnouncement {
    SelfAnnouncement { station_name: "Home".into(), short_name: "H".into(), version: "3.1.0".into() }
}

fn beacon(id: &str, name: &str, base: &str) -> DiscoveryPacket {
    DiscoveryPacket::Beacon {
        world_id: id.into(),
        station_name: name.into(),
        short_name: "x".into(),
        port: 2241,
        base_path: base.into(),
        version: "3.1.0".into(),
        is_headless: false,
    }
}

#[test]
fn own_beacon_is_ignored() {
    let mut reg = DiscoveryRegistry::new("self".into(), 2241, "/".into(), true);
    let a = reg.handle_packet_at(beacon("self", "Me", "/"), "10.0.0.2".into(), 1000, &ann());
    assert!(matches!(a, PacketAction::Ignored));
    assert!(reg.discovered_worlds_at(1000).is_empty());
}

#[test]
fn beacons_are_recorded_with_url() {
    let mut reg = DiscoveryRegistry::new("self".into(), 2241, "/".into(), true);
    let a = reg.handle_packet_at(beacon("w1", "Zeta", "/"), "10.0.0.2".into(), 1000, &ann());
    assert!(matches!(a, PacketAction::Recorded));
    reg.handle_packet_at(beacon("w2", "Alpha", "/radio"), "10.0.0.3".into(), 1000, &ann());
    let worlds = reg.discovered_worlds_at(2000);
    assert_eq!(worlds.len(), 2);
    assert_eq!(worlds[0].station_name, "Alpha");
    assert_eq!(worlds[0].url, "http://10.0.0.3:2241/radio");
    assert_eq!(worlds[1].station_name, "Zeta");
    assert_eq!(worlds[1].url, "http://10.0.0.2:2241");
    assert_eq!(worlds[1].last_seen_ms, 1000);
}

#[test]
fn later_beacon_replaces_entry() {
    let mut reg = DiscoveryRegistry::new("self".into(), 2241, "/".into(), false);
    reg.handle_packet_at(beacon("w1", "Old", "/"), "10.0.0.2".into(), 1000, &ann());
    reg.handle_packet_at(beacon("w1", "New", "/"), "10.0.0.4".into(), 1500, &ann());
    let worlds = reg.discovered_worlds_at(1500);
    assert_eq!(worlds.len(), 1);
    assert_eq!(worlds[0].station_name, "New");
    assert_eq!(worlds[0].host, "10.0.0.4");
}

#[test]
fn stale_worlds_are_pruned() {
    let mut reg = DiscoveryRegistry::new("self".into(), 2241, "/".into(), false);
    reg.handle_packet_at(beacon("old", "Old", "/"), "10.0.0.2".into(), 0, &ann());
    reg.handle_packet_at(beacon("new", "New", "/"), "10.0.0.3".into(), 20_000, &ann());
    assert_eq!(reg.discovered_worlds_at(30_000).len(), 2);
    let worlds = reg.discovered_worlds_at(30_001);
    assert_eq!(worlds.len(), 1);
    assert_eq!(worlds[0].world_id, "new");
    assert_eq!(reg.discovered_worlds_at(20_000).len(), 1);
}

#[test]
fn probe_is_answered_with_own_beacon() {
    let mut reg = DiscoveryRegistry::new("self".into(), 8080, "/base".into(), true);
    match reg.handle_packet_at(DiscoveryPacket::Probe, "10.0.0.9".into(), 0, &ann()) {
        PacketAction::Reply(DiscoveryPacket::Beacon { world_id, station_name, short_name, port, base_path, version, is_headless }) => {
            assert_eq!(world_id, "self");
            assert_eq!(station_name, "Home");
            assert_eq!(short_name, "H");
            assert_eq!(port, 8080);
            assert_eq!(base_path, "/base");
            assert_eq!(version, "3.1.0");
            assert!(is_headless);
        }
        _ => panic!("expected a beacon reply"),
    }
}

#[test]
fn beacon_received_now_is_listed_now() {
    let mut reg = DiscoveryRegistry::new("self".into(), 2241, "/".into(), false);
    let before = chrono::Utc::now().timestamp_millis();
    let a = reg.handle_packet(beacon("w9", "Now", "/live"), "10.0.0.7".into(), &ann()).expect("clock readable");
    let after = chrono::Utc::now().timestamp_millis();
    assert!(matches!(a, PacketAction::Recorded));
    let worlds = reg.get_discovered_worlds().expect("clock readable");
    assert_eq!(worlds.len(), 1);
    assert_eq!(worlds[0].world_id, "w9");
    assert_eq!(worlds[0].url, "http://10.0.0.7:2241/live");
    assert!(before <= worlds[0].last_seen_ms && worlds[0].last_seen_ms <= after);
    assert!(before > 1_600_000_000_000);
}
