use vpnr::admission::{AdmissionController, Ceiling, Direction};
use vpnr::config::{Autonat, CliArgs, Commands, Config, ConnectionLimits, Discovery, Interval, IpAddress};
use vpnr::engine::{bootstrap_dials, listen_addresses, Command, Engine, Event, ListenTransport};
use vpnr::registry::{Registry, SubProtocol, SubProtocolUnavailable};
use vpnr::vpn::behaviour::Behaviour;
use vpnr::vpn::handler::{Action, Handler};
use vpnr::vpn::upgrade::{vpn_protocol_id, Upgrade};

fn limits(total: u32) -> ConnectionLimits {
    ConnectionLimits {
        max_established_incoming: 100,
        max_established_outgoing: 100,
        max_established_per_peer: 100,
        max_established_total: total,
        max_pending_incoming: 100,
        max_pending_outgoing: 100,
    }
}

fn peer(n: u8) -> Vec<u8> {
    vec![0, 32, n]
}

#[test]
fn admission_ceiling_then_release() {
    let mut c = AdmissionController::new(limits(3), 1000);
    for id in 0..3u64 {
        assert_eq!(c.admit_pending(id, Direction::Outbound, 10), Ok(()));
        assert_eq!(c.admit_established(id, Direction::Outbound, &peer(id as u8), 10), Ok(()));
    }
    assert_eq!(c.admit_pending(3, Direction::Outbound, 10), Ok(()));
    let denied = c.admit_established(3, Direction::Outbound, &peer(3), 10).unwrap_err();
    assert_eq!(denied.ceiling, Ceiling::EstablishedTotal);
    assert!(c.close(1));
    assert!(!c.close(1));
    assert_eq!(c.admit_pending(4, Direction::Inbound, 10), Ok(()));
    assert_eq!(c.admit_established(4, Direction::Inbound, &peer(4), 10), Ok(()));
}

#[test]
fn admission_denial_reasons() {
    let l = ConnectionLimits {
        max_established_incoming: 1,
        max_established_outgoing: 1,
        max_established_per_peer: 1,
        max_established_total: 10,
        max_pending_incoming: 1,
        max_pending_outgoing: 1,
    };
    let mut c = AdmissionController::new(l, 100);
    assert_eq!(c.admit_pending(1, Direction::Inbound, 0), Ok(()));
    assert_eq!(c.admit_pending(2, Direction::Inbound, 0).unwrap_err().ceiling, Ceiling::PendingIncoming);
    assert_eq!(c.admit_pending(3, Direction::Outbound, 0), Ok(()));
    assert_eq!(c.admit_pending(4, Direction::Outbound, 0).unwrap_err().ceiling, Ceiling::PendingOutgoing);
    assert_eq!(c.admit_pending(5, Direction::Outbound, 101).unwrap_err().ceiling, Ceiling::PendingOutgoing);
    assert!(c.close(3));
    assert_eq!(c.admit_pending(5, Direction::Outbound, 101).unwrap_err().ceiling, Ceiling::MemoryBudget);
    assert_eq!(c.admit_established(1, Direction::Inbound, &peer(1), 0), Ok(()));
    assert_eq!(
        c.admit_established(6, Direction::Inbound, &peer(2), 0).unwrap_err().ceiling,
        Ceiling::EstablishedIncoming
    );
    assert_eq!(
        c.admit_established(7, Direction::Outbound, &peer(1), 0).unwrap_err().ceiling,
        Ceiling::EstablishedPerPeer
    );
    assert_eq!(c.admit_established(8, Direction::Outbound, &peer(2), 0), Ok(()));
    assert_eq!(
        c.admit_established(9, Direction::Outbound, &peer(3), 0).unwrap_err().ceiling,
        Ceiling::EstablishedOutgoing
    );
    assert!(c.close(8));
    assert_eq!(
        c.admit_established(9, Direction::Outbound, &peer(3), 101).unwrap_err().ceiling,
        Ceiling::MemoryBudget
    );
}

#[test]
fn pending_moves_to_established_once() {
    let l = ConnectionLimits {
        max_established_incoming: 5,
        max_established_outgoing: 5,
        max_established_per_peer: 5,
        max_established_total: 5,
        max_pending_incoming: 1,
        max_pending_outgoing: 1,
    };
    let mut c = AdmissionController::new(l, 100);
    assert_eq!(c.admit_pending(1, Direction::Inbound, 0), Ok(()));
    assert_eq!(c.admit_established(1, Direction::Inbound, &peer(1), 0), Ok(()));
    // the pending slot was released by the transition
    assert_eq!(c.admit_pending(2, Direction::Inbound, 0), Ok(()));
}

#[test]
fn default_limits() {
    let l = ConnectionLimits::default();
    assert_eq!(l.max_established_total, 1024);
    assert_eq!(l.max_established_per_peer, 4);
    assert_eq!(l.max_pending_outgoing, 1024);
}

#[test]
fn default_config() {
    let c = Config::default();
    assert_eq!(c.ip_addr, IpAddress::V4(0x0a00_0001));
    assert_eq!(c.listen_addr, IpAddress::V4(0));
    assert_eq!(c.listen_port, 0);
    assert_eq!(c.interface_name, "vpnr0");
    assert_eq!(c.keyfile, "vpnr_ed25519");
    assert_eq!(c.memory_limit, 128);
    assert!(!c.enable_relay);
    assert!(c.bootstrap.is_empty());
    assert_eq!(c.discovery, Discovery::default());
}

#[test]
fn autonat_defaults_come_from_libp2p() {
    let a = Autonat::default();
    assert_eq!(a.timeout, Interval { secs: 30, nanos: 0 });
    assert_eq!(a.refresh_interval, Interval::from_secs(900));
    assert_eq!(a.confidence_max, 3);
    assert_eq!(a.max_peer_addresses, 16);
    assert!(a.only_global_ips);
}

#[test]
fn start_args_override_defaults() {
    let args = CliArgs {
        command: Commands::Start {
            ip_addr: Some(IpAddress::V4(0x0a00_0002)),
            interface_name: None,
            listen_addr: None,
            listen_port: Some(4001),
            keyfile: Some("k".to_string()),
            enable_identify: Some(true),
            enable_dht: Some(true),
            enable_mdns: None,
            enable_upnp: Some(false),
            enable_relay: Some(true),
            enable_dcutr: None,
            enable_autonat: None,
        },
    };
    let c = Config::from_args(args);
    assert_eq!(c.ip_addr, IpAddress::V4(0x0a00_0002));
    assert_eq!(c.interface_name, "vpnr0");
    assert_eq!(c.listen_port, 4001);
    assert_eq!(c.keyfile, "k");
    assert!(c.discovery.identify && c.discovery.dht && !c.discovery.mdns);
    assert!(c.enable_relay);
}

#[test]
fn generate_key_args_set_keyfile_only() {
    let c = Config::from_args(CliArgs { command: Commands::GenerateKey { keyfile: Some("out".to_string()) } });
    assert_eq!(c.keyfile, "out");
    assert_eq!(c.listen_port, 0);
    let d = Config::from_args(CliArgs { command: Commands::GenerateKey { keyfile: None } });
    assert_eq!(d.keyfile, "vpnr_ed25519");
}

#[test]
fn listen_on_tcp_and_quic() {
    let mut c = Config::default();
    c.listen_port = 7000;
    let l = listen_addresses(&c);
    assert_eq!(l.len(), 2);
    assert_eq!(l[0].transport, ListenTransport::Tcp(7000));
    assert_eq!(l[1].transport, ListenTransport::QuicV1(7000));
    assert_eq!(l[1].ip, IpAddress::V4(0));
}

#[test]
fn bootstrap_dials_each_address() {
    let cmds = bootstrap_dials(&vec![vec![1, 2], vec![3]]);
    assert_eq!(cmds.len(), 2);
    assert!(matches!(&cmds[1], Command::DialAddress { addr } if addr == &vec![3]));
}

fn discovery_all() -> Discovery {
    Discovery { dht: true, mdns: true, upnp: true, dcutr: true, autonat: true, identify: true }
}

#[test]
fn registry_follows_configuration() {
    let r = Registry::new(&Discovery::default(), false);
    assert!(r.is_enabled(SubProtocol::Vpn));
    assert!(!r.is_enabled(SubProtocol::Kademlia));
    assert!(!r.is_enabled(SubProtocol::Ping));
    assert_eq!(r.advertised(), vec![SubProtocol::Vpn]);
}

#[test]
fn toggle_inertness_and_enabling() {
    let mut r = Registry::new(&Discovery::default(), false);
    assert!(!r.advertised().contains(&SubProtocol::Identify));
    assert_eq!(r.command(SubProtocol::Kademlia, false), Ok(false));
    assert_eq!(
        r.command(SubProtocol::Kademlia, true),
        Err(SubProtocolUnavailable { sub_protocol: SubProtocol::Kademlia })
    );
    r.set_enabled(SubProtocol::Identify, true);
    assert!(r.advertised().contains(&SubProtocol::Identify));
    r.set_enabled(SubProtocol::Kademlia, true);
    assert_eq!(r.command(SubProtocol::Kademlia, true), Ok(true));
    r.set_enabled(SubProtocol::Vpn, false);
    assert!(r.is_enabled(SubProtocol::Vpn));
}

#[test]
fn advertisement_excludes_local_network_protocols() {
    let r = Registry::new(&discovery_all(), true);
    let a = r.advertised();
    assert!(!a.contains(&SubProtocol::Mdns));
    assert!(!a.contains(&SubProtocol::Upnp));
    assert!(a.contains(&SubProtocol::Relay));
    assert_eq!(a.len(), 6);
}

#[test]
fn failed_construction_degrades_to_disabled() {
    let mut r = Registry::new(&discovery_all(), false);
    r.set_enabled(SubProtocol::Mdns, false);
    assert!(!r.is_enabled(SubProtocol::Mdns));
    assert!(r.is_enabled(SubProtocol::Kademlia));
}

#[test]
fn disabled_sub_protocol_gets_no_event() {
    let mut e = Engine::new(peer(0), Registry::new(&Discovery::default(), false));
    let cmds = e.handle(Event::MdnsDiscovered { peer: peer(1), addr: vec![9] });
    assert!(cmds.is_empty());
    assert!(e.addresses_of(&peer(1)).is_empty());
    let cmds = e.handle(Event::UpnpNewExternalAddr { addr: vec![9] });
    assert!(cmds.is_empty());
}

#[test]
fn discovery_announcement_dials_once() {
    let mut e = Engine::new(peer(0), Registry::new(&discovery_all(), false));
    let first = e.handle(Event::MdnsDiscovered { peer: peer(1), addr: vec![4, 5] });
    assert_eq!(first.len(), 1);
    assert!(matches!(&first[0], Command::Dial { peer: p, addr } if p == &peer(1) && addr == &vec![4, 5]));
    assert_eq!(e.addresses_of(&peer(1)), vec![vec![4, 5]]);
    let again = e.handle(Event::MdnsDiscovered { peer: peer(1), addr: vec![4, 5] });
    assert!(again.is_empty());
    assert_eq!(e.addresses_of(&peer(1)), vec![vec![4, 5]]);
}

#[test]
fn connected_peer_is_not_dialed() {
    let mut e = Engine::new(peer(0), Registry::new(&discovery_all(), false));
    e.handle(Event::ConnectionEstablished { peer: peer(2), addr: None });
    assert!(e.handle(Event::MdnsDiscovered { peer: peer(2), addr: vec![1] }).is_empty());
    e.handle(Event::ConnectionClosed { peer: peer(2), remaining: 0 });
    assert_eq!(e.handle(Event::MdnsDiscovered { peer: peer(2), addr: vec![1] }).len(), 1);
    // the directory keeps addresses across disconnects
    assert_eq!(e.addresses_of(&peer(2)), vec![vec![1]]);
}

#[test]
fn failed_dial_allows_retry() {
    let mut e = Engine::new(peer(0), Registry::new(&discovery_all(), false));
    assert_eq!(e.handle(Event::MdnsDiscovered { peer: peer(3), addr: vec![1] }).len(), 1);
    e.handle(Event::DialFailed { peer: peer(3) });
    assert_eq!(e.handle(Event::MdnsDiscovered { peer: peer(3), addr: vec![1] }).len(), 1);
}

#[test]
fn identify_merges_addresses() {
    let mut e = Engine::new(peer(0), Registry::new(&discovery_all(), false));
    let cmds = e.handle(Event::IdentifyReceived { peer: peer(5), listen_addrs: vec![vec![1], vec![2]] });
    assert_eq!(cmds.len(), 2);
    assert!(matches!(&cmds[1], Command::AddPeerAddress { peer: p, addr } if p == &peer(5) && addr == &vec![2]));
    let mut addrs = e.addresses_of(&peer(5));
    addrs.sort();
    assert_eq!(addrs, vec![vec![1], vec![2]]);
}

#[test]
fn routing_events() {
    let mut e = Engine::new(peer(0), Registry::new(&discovery_all(), false));
    let c = e.handle(Event::KadBootstrapped { peer: peer(6) });
    assert!(matches!(&c[0], Command::GetClosestPeers { peer: p } if p == &peer(6)));
    let c = e.handle(Event::KadRoutable { peer: peer(7), addr: vec![8] });
    assert_eq!(c.len(), 1);
    assert_eq!(e.addresses_of(&peer(7)), vec![vec![8]]);
    let c = e.handle(Event::UpnpNewExternalAddr { addr: vec![3] });
    assert!(matches!(&c[0], Command::AddExternalAddress { addr } if addr == &vec![3]));
}

#[test]
fn self_record_publication_schedule() {
    let mut e = Engine::new(vec![0xaa, 0xbb], Registry::new(&discovery_all(), false));
    let first = e.publish_due(100, &vec![1, 2, 3]).expect("due");
    match first {
        Command::PutRecord { key, value, publisher, ttl_secs } => {
            assert_eq!(key, b"/pk/\xaa\xbb".to_vec());
            assert_eq!(value, vec![1, 2, 3]);
            assert_eq!(publisher, vec![0xaa, 0xbb]);
            assert_eq!(ttl_secs, 60);
        }
        _ => panic!("expected a record"),
    }
    assert!(e.publish_due(129, &vec![1]).is_none());
    assert!(e.publish_due(130, &vec![1]).is_some());
    let mut off = Engine::new(vec![1], Registry::new(&Discovery::default(), false));
    assert!(off.publish_due(0, &vec![1]).is_none());
}

#[test]
fn negotiation_selects_supported_only() {
    let u = Upgrade::new();
    assert_eq!(u.protocol_info(), vec!["/libp2p/vpn/0.0.1".to_string()]);
    assert_eq!(u.select(&vpn_protocol_id()), Ok("/libp2p/vpn/0.0.1".to_string()));
    assert!(u.select(&"/ipfs/kad/1.0.0".to_string()).is_err());
    assert_eq!(Upgrade::new().upgrade_inbound(vpn_protocol_id()), Ok(vpn_protocol_id()));
    assert_eq!(Upgrade::new().upgrade_outbound(vpn_protocol_id()), Ok(vpn_protocol_id()));
    assert!(Upgrade::new().upgrade_inbound("/other/1.0.0".to_string()).is_err());
    assert!(Upgrade::new().upgrade_outbound("/other/1.0.0".to_string()).is_err());
}

#[test]
fn handler_reports_protocol_once() {
    let mut h = Handler::default();
    match h.poll() {
        Action::ReportRemoteProtocols(p) => assert_eq!(p, vec!["/libp2p/vpn/0.0.1".to_string()]),
        Action::Pending => panic!("expected a report"),
    }
    assert!(matches!(h.poll(), Action::Pending));
    assert_eq!(h.listen_protocol().protocol_info().len(), 1);
}

#[test]
fn behaviour_remembers_peers() {
    let mut b = Behaviour::new(vpnr::vpn::config::new(), ConnectionLimits::default(), 1000);
    assert_eq!(b.interface_name(), "vpnr0");
    assert!(b.add_peer(&peer(1)));
    assert!(!b.add_peer(&peer(1)));
    assert_eq!(b.handle_pending_inbound_connection(1, 0), Ok(()));
    assert!(b.handle_established_inbound_connection(1, &peer(2), 0).is_ok());
    assert!(!b.add_peer(&peer(2)));
    assert_eq!(b.handle_pending_outbound_connection(2, 0).map(|v| v.len()), Ok(0));
    assert!(b.handle_established_outbound_connection(2, &peer(3), 0).is_ok());
    assert!(!b.add_peer(&peer(3)));
    assert_eq!(b.connection_count(), 2);
}

#[test]
fn behaviour_denies_at_ceiling_and_admits_after_close() {
    let mut b = Behaviour::new(vpnr::vpn::config::new(), limits(2), 1000);
    for id in 0..2u64 {
        assert_eq!(b.handle_pending_inbound_connection(id, 0), Ok(()));
        assert!(b.handle_established_inbound_connection(id, &peer(id as u8), 0).is_ok());
    }
    assert_eq!(b.handle_pending_outbound_connection(2, 0).map(|v| v.len()), Ok(0));
    let denied = b.handle_established_outbound_connection(2, &peer(9), 0).err().unwrap();
    assert_eq!(denied.ceiling, Ceiling::EstablishedTotal);
    // the denied connection left nothing behind, and a peer it named is not remembered
    assert_eq!(b.connection_count(), 2);
    assert!(b.add_peer(&peer(9)));
    assert!(b.on_connection_closed(0));
    assert!(!b.on_connection_closed(0));
    assert!(b.handle_established_inbound_connection(3, &peer(3), 0).is_ok());
    assert_eq!(b.connection_count(), 2);
}

#[test]
fn behaviour_names_direction_and_pending_ceilings() {
    let l = ConnectionLimits {
        max_established_incoming: 10,
        max_established_outgoing: 1,
        max_established_per_peer: 10,
        max_established_total: 10,
        max_pending_incoming: 10,
        max_pending_outgoing: 1,
    };
    let mut b = Behaviour::new(vpnr::vpn::config::new(), l, 1000);
    assert!(b.handle_pending_outbound_connection(1, 0).is_ok());
    assert_eq!(b.handle_pending_outbound_connection(2, 0).err().unwrap().ceiling, Ceiling::PendingOutgoing);
    assert!(b.handle_established_outbound_connection(1, &peer(1), 0).is_ok());
    assert_eq!(
        b.handle_established_outbound_connection(3, &peer(2), 0).err().unwrap().ceiling,
        Ceiling::EstablishedOutgoing
    );
    assert_eq!(b.handle_pending_inbound_connection(4, 2000).err().unwrap().ceiling, Ceiling::MemoryBudget);
}

#[test]
fn outbound_connection_and_explicit_address_fill_directory() {
    let mut e = Engine::new(peer(0), Registry::new(&Discovery::default(), false));
    e.handle(Event::ConnectionEstablished { peer: peer(4), addr: Some(vec![7]) });
    assert_eq!(e.addresses_of(&peer(4)), vec![vec![7]]);
    let c = e.add_address(peer(5), vec![8]);
    assert!(matches!(&c, Command::AddPeerAddress { peer: p, addr } if p == &peer(5) && addr == &vec![8]));
    assert_eq!(e.addresses_of(&peer(5)), vec![vec![8]]);
}
