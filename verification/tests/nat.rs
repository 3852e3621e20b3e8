use patchbay::addr::{Ipv4Addr, Ipv6Addr, Ipv6Net};
use patchbay::firewall::{Firewall, FirewallConfig, PortPolicy};
use patchbay::nat_config::{
    ConntrackTimeouts, IpSupport, Nat, NatConfig, NatConfigError, NatFiltering, NatMapping,
    NatV6Mode,
};
use patchbay::nft::{
    checked_nat_rules, conntrack_sysctls, firewall_removal_scripts, firewall_script,
    generate_firewall_rules, generate_nat_rules, generate_nat_v6_rules, nptv6_wan_prefix,
    uses_fullcone_map,
};

#[test]
fn builder_rejects_edm_with_adf() {
    let err = NatConfig::builder()
        .mapping(NatMapping::EndpointDependent)
        .filtering(NatFiltering::AddressDependent)
        .build()
        .unwrap_err();
    assert_eq!(err, NatConfigError::AdfRequiresEim);
}

#[test]
fn builder_rejects_edm_with_hairpin() {
    let err = NatConfig::builder()
        .mapping(NatMapping::EndpointDependent)
        .hairpin(true)
        .build()
        .unwrap_err();
    assert_eq!(err, NatConfigError::HairpinRequiresEim);
}

#[test]
fn builder_accepts_eim_with_adf() {
    let cfg = NatConfig::builder()
        .mapping(NatMapping::EndpointIndependent)
        .filtering(NatFiltering::AddressDependent)
        .build()
        .unwrap();
    assert_eq!(cfg.filtering, NatFiltering::AddressDependent);
}

#[test]
fn builder_accepts_eim_with_hairpin() {
    let cfg = NatConfig::builder()
        .mapping(NatMapping::EndpointIndependent)
        .hairpin(true)
        .build()
        .unwrap();
    assert!(cfg.hairpin);
}

#[test]
fn builder_accepts_edm_apdf() {
    let cfg = NatConfig::builder()
        .mapping(NatMapping::EndpointDependent)
        .filtering(NatFiltering::AddressAndPortDependent)
        .build()
        .unwrap();
    assert_eq!(cfg.mapping, NatMapping::EndpointDependent);
}

#[test]
fn validate_catches_mutated_edm_hairpin() {
    // Fields are public, so a caller can mutate a valid config into an
    // invalid one. `validate` (run again on apply) must catch it.
    let mut cfg = NatConfig::builder()
        .mapping(NatMapping::EndpointIndependent)
        .hairpin(true)
        .build()
        .unwrap();
    cfg.mapping = NatMapping::EndpointDependent;
    assert_eq!(cfg.validate(), Err(NatConfigError::HairpinRequiresEim));
}

#[test]
fn nat_to_config_covers_every_preset() {
    for nat in [Nat::Off, Nat::Easiest, Nat::Easy, Nat::Hard] {
        let cfg = nat.to_config();
        assert_eq!(cfg.is_none(), nat == Nat::Off);
    }
}

#[test]
fn nat_easiest_is_eim_eif() {
    let cfg = Nat::Easiest.to_config().unwrap();
    assert_eq!(cfg.mapping, NatMapping::EndpointIndependent);
    assert_eq!(cfg.filtering, NatFiltering::EndpointIndependent);
}

#[test]
fn nat_easy_is_eim_apdf() {
    let cfg = Nat::Easy.to_config().unwrap();
    assert_eq!(cfg.mapping, NatMapping::EndpointIndependent);
    assert_eq!(cfg.filtering, NatFiltering::AddressAndPortDependent);
}

#[test]
fn nat_hard_is_edm_apdf() {
    let cfg = Nat::Hard.to_config().unwrap();
    assert_eq!(cfg.mapping, NatMapping::EndpointDependent);
    assert_eq!(cfg.filtering, NatFiltering::AddressAndPortDependent);
}

#[test]
fn every_preset_is_valid() {
    for nat in [Nat::Easiest, Nat::Easy, Nat::Hard] {
        assert_eq!(nat.to_config().unwrap().validate(), Ok(()));
    }
}

#[test]
fn invalid_nat_is_not_rendered() {
    let mut cfg = Nat::Hard.to_config().unwrap();
    cfg.filtering = NatFiltering::AddressDependent;
    let wan = Ipv4Addr::new(198, 18, 0, 2);
    assert_eq!(
        checked_nat_rules(&cfg, "ix", wan).unwrap_err(),
        NatConfigError::AdfRequiresEim
    );
    assert!(NatConfigError::AdfRequiresEim.message().len() > 0);
}

#[test]
fn easy_nat_keeps_one_mapping_per_port() {
    let cfg = Nat::Easy.to_config().unwrap();
    assert!(uses_fullcone_map(&cfg));
    let rules = generate_nat_rules(&cfg, "ix", Ipv4Addr::new(198, 18, 0, 2));
    assert!(rules.contains("map fullcone"));
    assert!(rules.contains("198.18.0.2"));
    let hard = Nat::Hard.to_config().unwrap();
    assert!(!uses_fullcone_map(&hard));
    let rules = generate_nat_rules(&hard, "ix", Ipv4Addr::new(198, 18, 0, 2));
    let expected = "\ntable ip nat {\n\n    chain prerouting {\n        type nat hook prerouting priority dstnat; policy accept;\n\n    }\n    chain postrouting {\n        type nat hook postrouting priority 100; policy accept;\n        oif \"ix\" masquerade random\n    }\n}\n\ntable ip filter {\n    chain forward {\n        type filter hook forward priority 0; policy accept;\n        iif \"ix\" ct state established,related accept\n        iif \"ix\" drop\n    }\n}\n";
    assert_eq!(rules, expected);
}

#[test]
fn conntrack_timeouts_become_sysctls() {
    let t = ConntrackTimeouts { udp: 30, udp_stream: 120, tcp_established: 7440 };
    let v = conntrack_sysctls(&t);
    assert_eq!(v.len(), 3);
    assert_eq!(v[0].1, "30");
    assert_eq!(v[1].1, "120");
    assert_eq!(v[2].1, "7440");
}

#[test]
fn wan_prefix_follows_the_uplink() {
    let up = Ipv6Addr::new(0x2001, 0xdb8, 0, 0, 0, 0, 0, 0x11);
    let net = nptv6_wan_prefix(up, 64);
    assert_eq!(net.addr, Ipv6Addr::new(0x2001, 0xdb8, 0, 0x11, 0, 0, 0, 0));
    assert_eq!(net.prefix_len, 64);
    assert_eq!(nptv6_wan_prefix(up, 200).prefix_len, 64);
}

#[test]
fn nat_v6_modes_render() {
    let lan = Ipv6Net::new(Ipv6Addr::new(0xfd10, 0, 0, 1, 0, 0, 0, 0), 64).unwrap();
    let wan = nptv6_wan_prefix(Ipv6Addr::new(0x2001, 0xdb8, 0, 0, 0, 0, 0, 0x11), 64);
    assert!(generate_nat_v6_rules(NatV6Mode::Off, "ix", lan, wan).is_none());
    let prefix = generate_nat_v6_rules(NatV6Mode::Nptv6, "ix", lan, wan).unwrap();
    assert!(prefix.contains("fd10:0:0:1::/64"));
    assert!(prefix.contains("2001:db8:0:11::/64"));
    let masq = generate_nat_v6_rules(NatV6Mode::Masquerade, "ix", lan, wan).unwrap();
    assert!(masq.contains("masquerade"));
}

#[test]
fn ip_support_names_its_families() {
    assert!(IpSupport::V4Only.has_v4() && !IpSupport::V4Only.has_v6());
    assert!(!IpSupport::V6Only.has_v4() && IpSupport::V6Only.has_v6());
    assert!(IpSupport::DualStack.has_v4() && IpSupport::DualStack.has_v6());
}

#[test]
fn corporate_firewall_lets_web_out() {
    let cfg = Firewall::Corporate.to_config().unwrap();
    assert!(cfg.block_inbound);
    let rules = generate_firewall_rules(&cfg, "ix");
    assert!(rules.contains("443"));
    assert!(Firewall::Off.to_config().is_none());
    assert!(firewall_script(&Firewall::Off, "ix").is_none());
    assert!(firewall_script(&Firewall::Corporate, "ix").is_some());
}

#[test]
fn firewall_builder_sets_policies() {
    let mut b = FirewallConfig::builder();
    b.block_inbound().allow_tcp(&[80, 443]).block_udp();
    let cfg = b.build();
    assert!(cfg.block_inbound);
    match cfg.outbound_tcp {
        PortPolicy::Allow(ports) => assert_eq!(ports, vec![80, 443]),
        other => panic!("unexpected policy: {other:?}"),
    }
    assert!(matches!(cfg.outbound_udp, PortPolicy::BlockAll));
}

#[test]
fn wan_prefixes_of_two_routers_differ() {
    let a = nptv6_wan_prefix(Ipv6Addr::new(0x2001, 0xdb8, 0, 0, 0, 0, 0, 0x10), 64);
    let b = nptv6_wan_prefix(Ipv6Addr::new(0x2001, 0xdb8, 0, 0, 0, 0, 0, 0x11), 64);
    assert!(a.addr != b.addr);
}

#[test]
fn builder_keeps_its_timeouts() {
    let cfg = NatConfig::builder()
        .udp_timeout(5)
        .udp_stream_timeout(6)
        .tcp_established_timeout(7)
        .build()
        .unwrap();
    assert_eq!(cfg.timeouts, ConntrackTimeouts { udp: 5, udp_stream: 6, tcp_established: 7 });
}

#[test]
fn firewall_builder_lists_udp_ports() {
    let mut b = FirewallConfig::builder();
    b.allow_udp(&[53]).block_tcp();
    let cfg = b.build();
    assert!(!cfg.block_inbound);
    assert!(matches!(cfg.outbound_tcp, PortPolicy::BlockAll));
    match cfg.outbound_udp {
        PortPolicy::Allow(ports) => assert_eq!(ports, vec![53]),
        other => panic!("unexpected policy: {other:?}"),
    }
    assert_eq!(firewall_removal_scripts(), ("delete table inet fw\n", "delete table ip fw\n"));
}

#[test]
fn presets_let_out_what_they_say() {
    let corporate = Firewall::Corporate.to_config().unwrap();
    match (corporate.outbound_tcp, corporate.outbound_udp) {
        (PortPolicy::Allow(tcp), PortPolicy::Allow(udp)) => {
            assert_eq!(tcp, vec![80, 443]);
            assert_eq!(udp, vec![53]);
        }
        other => panic!("unexpected policies: {other:?}"),
    }
    let portal = Firewall::CaptivePortal.to_config().unwrap();
    assert!(portal.block_inbound);
    assert!(matches!(portal.outbound_tcp, PortPolicy::AllowAll));
    assert!(Firewall::Off.to_config().is_none());
}
