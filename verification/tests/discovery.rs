use screenextend::config::AppConfig;
use screenextend::discovery::{
    instance_name, lan_address, mdns_host_name, service_properties, DiscoveryEvent,
    NetInterface, PeerTable,
};
use screenextend::types::{IpAddress, SocketAddress};

#[test]
fn test_mdns_registration() {
    assert_eq!(instance_name("test-host"), "se-bd275f4a");
    assert_eq!(mdns_host_name("test-host"), "test-host.local.");
    let props = service_properties(true, "test-host");
    assert_eq!(
        props,
        vec![
            ("role".to_string(), "host".to_string()),
            ("hostname".to_string(), "test-host".to_string()),
            ("version".to_string(), "1".to_string()),
        ]
    );
}

#[test]
fn test_mdns_browse_then_register() {
    let config = AppConfig::default();
    let name = mdns_host_name(&config.hostname);
    assert!(name.ends_with(".local."));
    assert_eq!(mdns_host_name(&name), name);
    assert_eq!(instance_name(&config.hostname), format!("se-{:08x}", fnv1a32(&config.hostname)));
}

fn fnv1a32(s: &str) -> u32 {
    let mut h: u32 = 0x811c_9dc5;
    for b in s.bytes() {
        h = (h ^ u32::from(b)).wrapping_mul(0x0100_0193);
    }
    h
}

#[test]
fn instance_names_are_short_and_stable() {
    assert_eq!(instance_name("desk"), "se-8b030cb8");
    assert_eq!(instance_name(""), "se-811c9dc5");
    assert_eq!(instance_name("ñandú"), "se-b48f3ccb");
    let long = "a-rather-long-workstation-name.example.org";
    assert_eq!(instance_name(long).len(), 11);
    assert_eq!(instance_name(long), format!("se-{:08x}", fnv1a32(long)));
    assert_eq!(instance_name(long), instance_name(long));
    assert_ne!(instance_name("desk"), instance_name("desk2"));
}

#[test]
fn host_name_forms() {
    assert_eq!(mdns_host_name("box.local."), "box.local.");
    assert_eq!(mdns_host_name("box.local"), "box.local.");
    assert_eq!(mdns_host_name("box."), "box.local.");
    assert_eq!(mdns_host_name("box"), "box.local.");
    assert_eq!(mdns_host_name(""), ".local.");
    assert_eq!(mdns_host_name("pc.."), "pc.local.");
    assert_eq!(mdns_host_name("pc.local.."), "pc.local.");
    assert_eq!(mdns_host_name("pc.local.local"), "pc.local.");
    assert_eq!(mdns_host_name("..."), ".local.");
    assert_eq!(service_properties(false, "b")[0].1, "client");
}

fn v4(a: u8, b: u8, c: u8, d: u8) -> IpAddress {
    IpAddress::V4([a, b, c, d])
}

#[test]
fn peer_table_tracks_services() {
    let mut table = PeerTable::new();
    let own = "se-00000001";
    // Our own instance is never recorded.
    let ev = table.on_service_resolved(
        "se-00000001._screenextend._tcp.local.".to_string(),
        own,
        Some("me".to_string()),
        Some("host".to_string()),
        Some(v4(10, 0, 0, 1)),
        9876,
    );
    assert!(ev.is_none());
    assert!(table.peers().is_empty());

    // A service without address is not recorded.
    let ev = table.on_service_resolved(
        "se-0000000a._screenextend._tcp.local.".to_string(),
        own,
        Some("a".to_string()),
        Some("host".to_string()),
        None,
        9876,
    );
    assert!(ev.is_none());

    let ev = table.on_service_resolved(
        "se-0000000a._screenextend._tcp.local.".to_string(),
        own,
        Some("a".to_string()),
        Some("host".to_string()),
        Some(v4(192, 168, 1, 20)),
        9876,
    );
    match ev {
        Some(DiscoveryEvent::PeerDiscovered(p)) => {
            assert_eq!(p.hostname, "a");
            assert!(p.is_host);
            assert_eq!(p.addr, SocketAddress { ip: v4(192, 168, 1, 20), port: 9876 });
        }
        _ => panic!("Expected a discovered peer"),
    }

    let ev = table.on_service_resolved(
        "se-0000000b._screenextend._tcp.local.".to_string(),
        own,
        None,
        Some("client".to_string()),
        Some(v4(192, 168, 1, 21)),
        9000,
    );
    match ev {
        Some(DiscoveryEvent::PeerDiscovered(p)) => {
            assert_eq!(p.hostname, "unknown");
            assert!(!p.is_host);
        }
        _ => panic!("Expected a discovered peer"),
    }
    assert_eq!(table.peers().len(), 2);

    // Resolving the same name again replaces the peer.
    table.on_service_resolved(
        "se-0000000a._screenextend._tcp.local.".to_string(),
        own,
        Some("a2".to_string()),
        None,
        Some(v4(192, 168, 1, 22)),
        9876,
    );
    let peers = table.peers();
    assert_eq!(peers.len(), 2);
    assert!(peers.iter().any(|p| p.hostname == "a2" && !p.is_host));

    match table.on_service_removed("se-0000000a._screenextend._tcp.local.") {
        Some(DiscoveryEvent::PeerLost(h)) => assert_eq!(h, "a2"),
        _ => panic!("Expected a lost peer"),
    }
    assert!(table.on_service_removed("se-0000000a._screenextend._tcp.local.").is_none());
    let peers = table.peers();
    assert_eq!(peers.len(), 1);
    assert_eq!(peers[0].hostname, "unknown");
}

#[test]
fn announced_properties_resolve_to_same_peer() {
    for is_host in [true, false] {
        let props = service_properties(is_host, "desk");
        let mut table = PeerTable::new();
        let ev = table.on_service_resolved(
            format!("{}._screenextend._tcp.local.", instance_name("desk")),
            "se-0000000c",
            Some(props[1].1.clone()),
            Some(props[0].1.clone()),
            Some(v4(10, 0, 0, 2)),
            9876,
        );
        match ev {
            Some(DiscoveryEvent::PeerDiscovered(p)) => {
                assert_eq!(p.hostname, "desk");
                assert_eq!(p.is_host, is_host);
            }
            _ => panic!("Expected a discovered peer"),
        }
    }
}

fn iface(name: &str, ipv4: [u8; 4]) -> NetInterface {
    NetInterface { name: name.to_string(), ipv4 }
}

#[test]
fn physical_lan_address_is_registered() {
    let list = vec![
        iface("lo", [127, 0, 0, 1]),
        iface("docker0", [172, 17, 0, 1]),
        iface("br-4f2a", [192, 168, 49, 1]),
        iface("veth12ab", [10, 0, 3, 1]),
        iface("wlp2s0", [192, 168, 1, 34]),
        iface("eth0", [10, 0, 0, 5]),
    ];
    assert_eq!(lan_address(&list), Some([192, 168, 1, 34]));
    assert_eq!(lan_address(&list[5..].to_vec()), Some([10, 0, 0, 5]));
    assert_eq!(lan_address(&list[..4].to_vec()), None);
    assert_eq!(lan_address(&vec![iface("eth0", [172, 16, 0, 2]), iface("eth1", [192, 169, 0, 1])]), None);
    assert_eq!(lan_address(&Vec::new()), None);
}
