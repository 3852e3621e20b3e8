use patchbay::addr::{Ipv4Addr, Ipv4Net};
use patchbay::portmap::config::{PortmapConfig, PortmapMode};
use patchbay::portmap::nat_pmp;
use patchbay::portmap::nft::{clear_script, generate_portmap_rules, portmap_script};
use patchbay::portmap::pcp;
use patchbay::portmap::registry::{
    AllocOutcome, MapProto, Mapping, MappingKey, PortmapRegistry, EXTERNAL_PORT_HIGH,
    EXTERNAL_PORT_LOW,
};
use patchbay::portmap::server::{dispatch, epoch_time, Dispatch, ServerContext};

const LIFETIME: u64 = 60_000;

fn context() -> ServerContext {
    let lan = Ipv4Net::new(Ipv4Addr::new(10, 0, 0, 0), 24).unwrap();
    ServerContext::new(Ipv4Addr::new(198, 51, 100, 1), lan)
}

fn mapping(proto: MapProto, ext: u16, internal_ip: [u8; 4], internal_port: u16) -> Mapping {
    let [a, b, c, d] = internal_ip;
    Mapping {
        proto,
        external_port: ext,
        internal_ip: Ipv4Addr::new(a, b, c, d),
        internal_port,
        deadline: 60_000,
        pcp_nonce: None,
    }
}

#[test]
fn mode_none_disables_everything() {
    assert!(!PortmapConfig::from_mode(PortmapMode::Off).any_enabled());
}

#[test]
fn mode_all_enables_everything() {
    let cfg = PortmapConfig::from_mode(PortmapMode::All);
    assert!(cfg.enable_nat_pmp && cfg.enable_pcp && cfg.enable_upnp);
}

#[test]
fn mode_nat_pmp_and_pcp_leaves_upnp_off() {
    let cfg = PortmapConfig::from_mode(PortmapMode::NatPmpAndPcp);
    assert!(cfg.enable_nat_pmp && cfg.enable_pcp);
    assert!(!cfg.enable_upnp);
}

// ── NAT-PMP ──

#[test]
fn decode_external_address_request() {
    let req = nat_pmp::Request::decode(&[0, 0]).unwrap();
    assert_eq!(req, nat_pmp::Request::ExternalAddress);
}

#[test]
fn decode_map_udp_request() {
    // version=0, opcode=1, reserved=0,0, local=1234 (0x04D2),
    // external=5678 (0x162E), lifetime=60 (0x3C).
    let packet = [0, 1, 0, 0, 0x04, 0xD2, 0x16, 0x2E, 0, 0, 0, 60];
    let req = nat_pmp::Request::decode(&packet).unwrap();
    assert_eq!(
        req,
        nat_pmp::Request::MapPort {
            proto: MapProto::Udp,
            local_port: 1234,
            external_port: 5678,
            lifetime_seconds: 60,
        }
    );
}

#[test]
fn nat_pmp_decode_wrong_version_fails() {
    assert!(nat_pmp::Request::decode(&[1, 0]).is_none());
}

#[test]
fn decode_short_packet_fails() {
    assert!(nat_pmp::Request::decode(&[0]).is_none());
    assert!(nat_pmp::Request::decode(&[0, 1, 0, 0]).is_none());
}

#[test]
fn encode_external_response_matches_portmapper_decoder() {
    let buf = nat_pmp::encode_external_response(
        nat_pmp::ResultCode::Success,
        42,
        Ipv4Addr::new(1, 2, 3, 4),
    );
    assert_eq!(buf.len(), 12);
    assert_eq!(buf[0], 0);
    assert_eq!(buf[1], 0x80);
    assert_eq!(u16::from_be_bytes([buf[2], buf[3]]), 0);
    assert_eq!(u32::from_be_bytes([buf[4], buf[5], buf[6], buf[7]]), 42);
    assert_eq!(&buf[8..12], &[1, 2, 3, 4]);
}

#[test]
fn encode_map_response_carries_ports_and_lifetime() {
    let buf = nat_pmp::encode_map_response(
        MapProto::Tcp,
        nat_pmp::ResultCode::Success,
        0,
        80,
        8080,
        60,
    );
    assert_eq!(buf.len(), 16);
    assert_eq!(buf[0], 0);
    assert_eq!(buf[1], 0x80 | 2);
    assert_eq!(u16::from_be_bytes([buf[8], buf[9]]), 80);
    assert_eq!(u16::from_be_bytes([buf[10], buf[11]]), 8080);
    assert_eq!(u32::from_be_bytes([buf[12], buf[13], buf[14], buf[15]]), 60);
}

fn map_request(port: u16, external: u16, lifetime: u32) -> Vec<u8> {
    let mut p = vec![0u8, 1, 0, 0];
    p.extend_from_slice(&port.to_be_bytes());
    p.extend_from_slice(&external.to_be_bytes());
    p.extend_from_slice(&lifetime.to_be_bytes());
    p
}

#[test]
fn nat_pmp_grants_and_answers() {
    let ctx = context();
    let mut reg = PortmapRegistry::new();
    let client = Ipv4Addr::new(10, 0, 0, 5);
    let packet = map_request(1234, 5678, 60);
    let pending = match nat_pmp::handle_request(&ctx, &mut reg, client, &packet, 5_000) {
        Some(nat_pmp::Step::Apply(p)) => p,
        other => panic!("unexpected step: {other:?}"),
    };
    assert_eq!(reg.len(), 1);
    let reply = nat_pmp::finish(pending, &mut reg, true, 5_000);
    assert_eq!(u16::from_be_bytes([reply[2], reply[3]]), 0);
    assert_eq!(u16::from_be_bytes([reply[10], reply[11]]), 5678);
    assert_eq!(reg.len(), 1);
}

#[test]
fn nat_pmp_rolls_back_what_was_not_applied() {
    let ctx = context();
    let mut reg = PortmapRegistry::new();
    let client = Ipv4Addr::new(10, 0, 0, 5);
    let packet = map_request(1234, 5678, 60);
    let pending = match nat_pmp::handle_request(&ctx, &mut reg, client, &packet, 0) {
        Some(nat_pmp::Step::Apply(p)) => p,
        other => panic!("unexpected step: {other:?}"),
    };
    let reply = nat_pmp::finish(pending, &mut reg, false, 0);
    assert!(u16::from_be_bytes([reply[2], reply[3]]) != 0);
    assert_eq!(reg.len(), 0);
}

#[test]
fn nat_pmp_refuses_outsiders() {
    let ctx = context();
    let mut reg = PortmapRegistry::new();
    let outsider = Ipv4Addr::new(192, 168, 0, 5);
    let packet = map_request(1234, 5678, 60);
    let reply = match nat_pmp::handle_request(&ctx, &mut reg, outsider, &packet, 0) {
        Some(nat_pmp::Step::Reply(r)) => r,
        other => panic!("unexpected step: {other:?}"),
    };
    assert_eq!(
        u16::from_be_bytes([reply[2], reply[3]]),
        nat_pmp::ResultCode::NotAuthorizedOrRefused.code()
    );
    assert_eq!(reg.len(), 0);
}

// ── nftables ──

#[test]
fn empty_rules_render_declares_table_and_chain() {
    let rendered = generate_portmap_rules(Ipv4Addr::new(198, 51, 100, 1), &[]);
    assert!(rendered.contains("table ip portmap"));
    assert!(rendered.contains("chain prerouting"));
    assert!(rendered.contains("priority -110"));
    assert!(rendered.contains("chain forward"));
    assert!(rendered.contains("priority -10"));
    // No DNAT rules when mappings is empty.
    assert!(!rendered.contains("dnat"));
}

#[test]
fn udp_mapping_renders_as_udp_dnat() {
    let rendered = generate_portmap_rules(
        Ipv4Addr::new(198, 51, 100, 1),
        &[mapping(MapProto::Udp, 5000, [10, 0, 0, 5], 1234)],
    );
    assert!(rendered.contains("ip daddr 198.51.100.1 udp dport 5000 dnat to 10.0.0.5:1234"));
}

#[test]
fn tcp_mapping_renders_as_tcp_dnat() {
    let rendered = generate_portmap_rules(
        Ipv4Addr::new(198, 51, 100, 1),
        &[mapping(MapProto::Tcp, 8080, [10, 0, 0, 5], 80)],
    );
    assert!(rendered.contains("tcp dport 8080 dnat to 10.0.0.5:80"));
}

#[test]
fn multiple_mappings_render_independent_rules() {
    let rendered = generate_portmap_rules(
        Ipv4Addr::new(198, 51, 100, 1),
        &[
            mapping(MapProto::Udp, 5000, [10, 0, 0, 5], 1234),
            mapping(MapProto::Tcp, 8080, [10, 0, 0, 6], 80),
        ],
    );
    assert_eq!(rendered.matches("dnat to").count(), 2, "two mappings produce two DNAT rules");
    assert_eq!(
        rendered.matches("ct status dnat accept").count(),
        2,
        "two mappings produce two forward-accept rules",
    );
}

#[test]
fn scripts_replace_the_table() {
    let script = portmap_script(Ipv4Addr::new(198, 51, 100, 1), &[]);
    assert!(script.contains("delete table ip portmap") || script.contains("flush table"));
    assert!(clear_script().contains("portmap"));
}

// ── PCP ──

#[test]
fn decode_announce() {
    let mut buf = [0u8; pcp::HEADER_SIZE];
    buf[0] = pcp::VERSION;
    buf[1] = pcp::OP_ANNOUNCE;
    match pcp::decode(&buf).unwrap().request {
        pcp::Request::Announce => (),
        other => panic!("{other:?}"),
    }
}

#[test]
fn decode_map_udp() {
    let mut buf = vec![0u8; pcp::HEADER_SIZE + pcp::MAP_DATA_SIZE];
    buf[0] = pcp::VERSION;
    buf[1] = pcp::OP_MAP;
    buf[4..8].copy_from_slice(&300u32.to_be_bytes());
    // client_addr = 10.0.0.5 IPv4-mapped
    let client = Ipv4Addr::new(10, 0, 0, 5);
    buf[8..24].copy_from_slice(&client.to_ipv6_mapped().bits.to_be_bytes());
    let data = &mut buf[pcp::HEADER_SIZE..];
    data[0..12].copy_from_slice(&[1u8; 12]);
    data[12] = pcp::PROTO_UDP;
    data[16..18].copy_from_slice(&1234u16.to_be_bytes());
    data[18..20].copy_from_slice(&5678u16.to_be_bytes());
    let decoded = pcp::decode(&buf).unwrap();
    assert_eq!(decoded.client_addr, client.to_ipv6_mapped());
    match decoded.request {
        pcp::Request::MapPort { lifetime_seconds, data } => {
            assert_eq!(lifetime_seconds, 300);
            assert_eq!(data.protocol, MapProto::Udp);
            assert_eq!(data.local_port, 1234);
            assert_eq!(data.external_port, 5678);
            assert_eq!(data.nonce, [1u8; 12]);
        }
        other => panic!("{other:?}"),
    }
}

#[test]
fn pcp_decode_wrong_version_fails() {
    let mut buf = [0u8; pcp::HEADER_SIZE];
    buf[0] = 1;
    buf[1] = pcp::OP_ANNOUNCE;
    assert!(pcp::decode(&buf).is_none());
}

#[test]
fn decode_truncated_map_fails() {
    let mut buf = vec![0u8; pcp::HEADER_SIZE + 10];
    buf[0] = pcp::VERSION;
    buf[1] = pcp::OP_MAP;
    assert!(pcp::decode(&buf).is_none());
}

#[test]
fn decode_unsupported_protocol() {
    let mut buf = vec![0u8; pcp::HEADER_SIZE + pcp::MAP_DATA_SIZE];
    buf[0] = pcp::VERSION;
    buf[1] = pcp::OP_MAP;
    buf[pcp::HEADER_SIZE + 12] = 99; // unknown protocol
    match pcp::decode(&buf).unwrap().request {
        pcp::Request::UnsupportedProtocol { .. } => (),
        other => panic!("{other:?}"),
    }
}

#[test]
fn encoded_map_response_round_trips_through_portmapper_decoder() {
    let buf = pcp::encode_map_response(pcp::MapResponse {
        result: pcp::ResultCode::Success,
        lifetime_seconds: 300,
        epoch_time: 7,
        nonce: [2u8; 12],
        protocol: MapProto::Tcp,
        local_port: 80,
        external_port: 8080,
        external_address: Ipv4Addr::new(198, 51, 100, 1),
    });
    assert_eq!(buf.len(), pcp::HEADER_SIZE + pcp::MAP_DATA_SIZE);
    assert_eq!(buf[0], pcp::VERSION);
    assert_eq!(buf[1], pcp::RESPONSE_INDICATOR | pcp::OP_MAP);
    assert_eq!(buf[3], pcp::ResultCode::Success.code());
    assert_eq!(u32::from_be_bytes([buf[4], buf[5], buf[6], buf[7]]), 300);
    assert_eq!(&buf[pcp::HEADER_SIZE..pcp::HEADER_SIZE + 12], &[2u8; 12]);
    assert_eq!(buf[pcp::HEADER_SIZE + 12], pcp::PROTO_TCP);
}

fn pcp_map(client: Ipv4Addr, nonce: u8, lifetime: u32) -> Vec<u8> {
    let mut buf = vec![0u8; pcp::HEADER_SIZE + pcp::MAP_DATA_SIZE];
    buf[0] = pcp::VERSION;
    buf[1] = pcp::OP_MAP;
    buf[4..8].copy_from_slice(&lifetime.to_be_bytes());
    buf[8..24].copy_from_slice(&client.to_ipv6_mapped().bits.to_be_bytes());
    let data = &mut buf[pcp::HEADER_SIZE..];
    data[0..12].copy_from_slice(&[nonce; 12]);
    data[12] = pcp::PROTO_UDP;
    data[16..18].copy_from_slice(&1234u16.to_be_bytes());
    data[18..20].copy_from_slice(&5678u16.to_be_bytes());
    buf
}

#[test]
fn pcp_wrong_nonce_changes_nothing() {
    let ctx = context();
    let mut reg = PortmapRegistry::new();
    let client = Ipv4Addr::new(10, 0, 0, 5);
    let first = pcp::handle_request(&ctx, &mut reg, client, &pcp_map(client, 1, 300), 0).unwrap();
    assert!(first.apply);
    assert_eq!(first.reply[3], pcp::ResultCode::Success.code());
    let other = pcp::handle_request(&ctx, &mut reg, client, &pcp_map(client, 2, 0), 0).unwrap();
    assert_eq!(other.reply[3], pcp::ResultCode::NotAuthorized.code());
    assert_eq!(reg.len(), 1);
    let gone = pcp::handle_request(&ctx, &mut reg, client, &pcp_map(client, 1, 0), 0).unwrap();
    assert!(gone.apply);
    assert_eq!(reg.len(), 0);
}

#[test]
fn pcp_checks_the_client_address() {
    let ctx = context();
    let mut reg = PortmapRegistry::new();
    let client = Ipv4Addr::new(10, 0, 0, 5);
    let packet = pcp_map(Ipv4Addr::new(10, 0, 0, 6), 1, 300);
    let step = pcp::handle_request(&ctx, &mut reg, client, &packet, 0).unwrap();
    assert_eq!(step.reply[3], pcp::ResultCode::AddressMismatch.code());
    assert_eq!(reg.len(), 0);
}

// ── dispatch ──

#[test]
fn packets_go_to_the_protocol_of_their_version() {
    let all = PortmapConfig::from_mode(PortmapMode::All);
    assert!(matches!(dispatch(&[0, 0], all), Dispatch::NatPmp));
    assert!(matches!(dispatch(&[2, 1], all), Dispatch::Pcp));
    assert!(matches!(dispatch(&[], all), Dispatch::Ignore));
    let off = PortmapConfig::from_mode(PortmapMode::Off);
    assert!(matches!(dispatch(&[0, 0], off), Dispatch::Ignore));
    assert_eq!(epoch_time(5_999), 5);
}

// ── registry ──

#[test]
fn allocate_picks_a_free_port() {
    let mut reg = PortmapRegistry::new();
    let client = Ipv4Addr::new(10, 0, 0, 5);
    let outcome = reg.allocate(MapProto::Udp, client, 1234, None, 0, LIFETIME, None);
    match outcome {
        AllocOutcome::Created(m) => {
            assert_eq!(m.internal_ip, client);
            assert_eq!(m.internal_port, 1234);
            assert!(m.external_port >= EXTERNAL_PORT_LOW);
            assert!(m.external_port <= EXTERNAL_PORT_HIGH);
        }
        other => panic!("unexpected outcome: {other:?}"),
    }
    assert_eq!(reg.len(), 1);
}

#[test]
fn allocate_honors_preferred_port() {
    let mut reg = PortmapRegistry::new();
    let client = Ipv4Addr::new(10, 0, 0, 5);
    let outcome = reg.allocate(MapProto::Tcp, client, 80, Some(8080), 0, LIFETIME, None);
    match outcome {
        AllocOutcome::Created(m) => assert_eq!(m.external_port, 8080),
        other => panic!("unexpected outcome: {other:?}"),
    }
}

#[test]
fn allocate_dedups_same_internal_socket() {
    let mut reg = PortmapRegistry::new();
    let client = Ipv4Addr::new(10, 0, 0, 5);
    let first = reg.allocate(MapProto::Udp, client, 1234, None, 0, LIFETIME, None);
    let first_port = match first {
        AllocOutcome::Created(m) => m.external_port,
        _ => panic!("expected Created"),
    };
    let second = reg.allocate(MapProto::Udp, client, 1234, None, 0, LIFETIME, None);
    match second {
        AllocOutcome::Renewed(m) => assert_eq!(m.external_port, first_port),
        other => panic!("expected Renewed, got {other:?}"),
    }
    assert_eq!(reg.len(), 1, "dedup should not add a second entry");
}

#[test]
fn allocate_rejects_port_held_by_other_client() {
    let mut reg = PortmapRegistry::new();
    let a = Ipv4Addr::new(10, 0, 0, 5);
    let b = Ipv4Addr::new(10, 0, 0, 6);
    let _ = reg.allocate(MapProto::Tcp, a, 1111, Some(9000), 0, LIFETIME, None);
    let outcome = reg.allocate(MapProto::Tcp, b, 2222, Some(9000), 0, LIFETIME, None);
    assert!(matches!(outcome, AllocOutcome::Conflict));
    assert_eq!(reg.len(), 1);
}

#[test]
fn allocate_different_protocols_can_share_port() {
    let mut reg = PortmapRegistry::new();
    let client = Ipv4Addr::new(10, 0, 0, 5);
    let udp = reg.allocate(MapProto::Udp, client, 50, Some(7000), 0, LIFETIME, None);
    let tcp = reg.allocate(MapProto::Tcp, client, 50, Some(7000), 0, LIFETIME, None);
    assert!(
        matches!(udp, AllocOutcome::Created(_)) && matches!(tcp, AllocOutcome::Created(_)),
        "UDP and TCP slots are independent",
    );
    assert_eq!(reg.len(), 2);
}

#[test]
fn remove_by_external_drops_both_indices() {
    let mut reg = PortmapRegistry::new();
    let client = Ipv4Addr::new(10, 0, 0, 5);
    let created = match reg.allocate(MapProto::Udp, client, 500, None, 0, LIFETIME, None) {
        AllocOutcome::Created(m) => m,
        _ => panic!("expected Created"),
    };
    let removed = reg
        .remove(MappingKey {
            proto: MapProto::Udp,
            external_port: created.external_port,
        })
        .expect("mapping was present");
    assert_eq!(removed.internal_port, 500);
    assert!(reg.get_by_internal(MapProto::Udp, client, 500).is_none());
    assert!(reg.iter().is_empty());
}

#[test]
fn remove_by_internal_drops_same_mapping() {
    let mut reg = PortmapRegistry::new();
    let client = Ipv4Addr::new(10, 0, 0, 5);
    let _ = reg.allocate(MapProto::Udp, client, 500, None, 0, LIFETIME, None);
    let removed = reg
        .remove_by_internal(MapProto::Udp, client, 500)
        .expect("mapping was present");
    assert_eq!(removed.internal_ip, client);
    assert_eq!(reg.len(), 0);
}

#[test]
fn reap_expired_removes_elapsed_entries() {
    let mut reg = PortmapRegistry::new();
    let client = Ipv4Addr::new(10, 0, 0, 5);
    let _ = reg.allocate(MapProto::Udp, client, 500, None, 0, 1, None);
    let reaped = reg.reap_expired(20);
    assert_eq!(reaped.len(), 1);
    assert_eq!(reg.len(), 0);
}

#[test]
fn removing_undoes_allocating() {
    let mut reg = PortmapRegistry::new();
    let client = Ipv4Addr::new(10, 0, 0, 5);
    let _ = reg.allocate(MapProto::Udp, client, 500, Some(9000), 0, LIFETIME, None);
    let key = MappingKey { proto: MapProto::Udp, external_port: 9000 };
    assert_eq!(reg.get(key).unwrap().internal_port, 500);
    let _ = reg.remove(key);
    assert!(reg.get(key).is_none());
    let _ = reg.allocate(MapProto::Udp, client, 501, Some(9000), 0, LIFETIME, None);
    assert_eq!(reg.drain().len(), 1);
    assert_eq!(reg.len(), 0);
}

#[test]
fn clients_leave_the_mappings_of_others_alone() {
    let ctx = context();
    let mut reg = PortmapRegistry::new();
    let (a, b) = (Ipv4Addr::new(10, 0, 0, 5), Ipv4Addr::new(10, 0, 0, 6));
    nat_pmp::handle_request(&ctx, &mut reg, a, &map_request(1234, 5678, 60), 0).unwrap();
    let held = reg.get(MappingKey { proto: MapProto::Udp, external_port: 5678 }).unwrap();
    // Another client asks for the same port, and to drop the same internal port.
    nat_pmp::handle_request(&ctx, &mut reg, b, &map_request(1234, 5678, 60), 0).unwrap();
    nat_pmp::handle_request(&ctx, &mut reg, b, &map_request(1234, 0, 0), 0).unwrap();
    let still = reg.get(MappingKey { proto: MapProto::Udp, external_port: 5678 }).unwrap();
    assert_eq!((still.internal_ip, still.internal_port, still.deadline), (a, 1234, held.deadline));
    assert_eq!(reg.len(), 1);
}

#[test]
fn response_headers_set_the_response_bit() {
    for opcode in [0u8, 1, 127, 128, 200, 255] {
        let h = pcp::encode_header(opcode, pcp::ResultCode::Success, 7, 9);
        assert_eq!(h.len(), 24);
        assert_eq!(h[0], 2);
        assert_eq!(h[1], 0x80 | opcode);
        assert_eq!(&h[4..12], &[0, 0, 0, 7, 0, 0, 0, 9]);
    }
}
