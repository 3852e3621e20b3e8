use patchbay::addr::{Ipv4Addr, Ipv6Addr};
use patchbay::container::{ContainerBuilder, ReadyGate};
use patchbay::iface::IfaceConfig;
use patchbay::lab::default_config;
use patchbay::nat_config::{IpSupport, NatV6Mode};
use patchbay::profile::Ipv6ProvisioningMode;
use patchbay::topology::builder::DeviceBuilder;
use patchbay::topology::plans::GatewayPlan;
use patchbay::topology::types::{CoreError, DownstreamPool, NetworkCore, NodeId};
use patchbay::topology::wiring::{
    add_region_steps, break_region_steps, default_route_steps, link_region_steps, link_up_steps,
    renew_steps, restore_region_steps, NetStep,
};

fn lab() -> (NetworkCore, NodeId) {
    let mut c = NetworkCore::new(default_config(1, 0));
    let r = c.add_router(
        "r",
        None,
        DownstreamPool::Private,
        None,
        IpSupport::V4Only,
        NatV6Mode::Off,
    );
    let sw = c.add_switch("r-sub", None, None, None, None);
    c.connect_router_downlink(r, sw, None).unwrap();
    (c, r)
}

#[test]
fn regions_are_wired_on_both_sides() {
    let mut c = NetworkCore::new(default_config(1, 0));
    let eu = c.add_region("eu").unwrap();
    let us = c.add_region("us").unwrap();
    let asia = c.add_region("asia").unwrap();
    let steps = add_region_steps(&eu);
    match &steps[0] {
        NetStep::AddRoute4 { dst, prefix_len, via } => {
            assert_eq!((*dst, *prefix_len, *via), (Ipv4Addr::new(198, 18, 16, 0), 20, eu.via));
        }
        other => panic!("unexpected step: {other:?}"),
    }
    assert!(matches!(steps[1], NetStep::AddRoute6 { .. }));

    let link = c.prepare_link_regions("eu", "us").unwrap();
    let (root, a, b) = link_region_steps(&link, "eu", "us");
    assert_eq!(root.len(), 4);
    match &root[1] {
        NetStep::AddVeth { link, peer } => {
            assert_eq!((link.as_str(), peer.as_str()), ("vr-eu-us", "vr-us-eu"));
        }
        other => panic!("unexpected step: {other:?}"),
    }
    match &a[3] {
        NetStep::AddRoute4 { dst, via, .. } => {
            assert_eq!((*dst, *via), (Ipv4Addr::new(198, 18, 32, 0), link.b.ip));
        }
        other => panic!("unexpected step: {other:?}"),
    }
    assert!(matches!(&b[0], NetStep::AddAddr4 { ip, prefix_len: 30, .. } if *ip == link.b.ip));

    c.prepare_link_regions("eu", "asia").unwrap();
    c.prepare_link_regions("us", "asia").unwrap();
    let broken = c.prepare_break_region_link("eu", "us").unwrap();
    let (x, y) = break_region_steps(&broken, eu.idx, us.idx);
    assert!(matches!(x, NetStep::ReplaceRoute4 { via, .. } if via == broken.m_ip_on_ma));
    assert!(matches!(y, NetStep::ReplaceRoute4 { via, .. } if via == broken.m_ip_on_mb));
    c.set_region_link_broken(&broken.link_key, true);
    let restored = c.prepare_restore_region_link("eu", "us").unwrap();
    assert_eq!(restored.b_direct_ip, link.b.ip);
    assert_eq!(restored.a_direct_ip, link.a.ip);
    let (x, _) = restore_region_steps(&restored, eu.idx, us.idx);
    assert!(matches!(x, NetStep::ReplaceRoute4 { via, .. } if via == link.b.ip));
    assert!(asia.idx != us.idx);
}

#[test]
fn default_routes_and_addresses_become_steps() {
    let g = GatewayPlan {
        gw_ip: Ipv4Addr::new(10, 0, 1, 1),
        primary_v6: None,
        solicit: false,
        rs_router_ll: None,
    };
    let steps = default_route_steps("eth0", &g);
    assert!(matches!(&steps[0], NetStep::ReplaceDefault4 { via, .. } if *via == g.gw_ip));
    assert!(matches!(&steps[1], NetStep::SetDefault6 { via: None, .. }));
    let ll = Ipv6Addr::new(0xfe80, 0, 0, 0, 0, 0, 0, 1);
    assert_eq!(link_up_steps("eth0", None).len(), 1);
    let up = link_up_steps("eth0", Some(ll));
    assert!(matches!(&up[1], NetStep::AddAddr6 { ip, prefix_len: 64, .. } if *ip == ll));
    let a = Ipv4Addr::new(10, 0, 1, 2);
    let b = Ipv4Addr::new(10, 0, 1, 3);
    let renew = renew_steps("eth0", a, b, 24);
    assert!(matches!(&renew[0], NetStep::DelAddr4 { ip, .. } if *ip == a));
    assert!(matches!(&renew[1], NetStep::AddAddr4 { ip, .. } if *ip == b));
}

#[test]
fn the_first_failing_step_counts() {
    let (mut c, r) = lab();
    let d = c.add_device("d");
    let b = DeviceBuilder::new(d)
        .mtu(1400)
        .uplink(&mut c, IfaceConfig::routed(r))
        .uplink(&mut c, IfaceConfig::routed(r))
        .default_via(&mut c, "eth1");
    assert_eq!(b.result, Ok(()));
    let (builds, mode) = b.build(&mut c, Ipv6ProvisioningMode::Static).unwrap();
    assert_eq!(builds.len(), 2);
    assert_eq!(mode, Ipv6ProvisioningMode::Static);
    assert!(!builds[0].is_default && builds[1].is_default);
    assert_eq!(c.device(d).unwrap().mtu, Some(1400));

    let e = c.add_device("e");
    let b = DeviceBuilder::new(e)
        .iface(&mut c, "eth0", IfaceConfig::routed(NodeId(99)))
        .default_via(&mut c, "eth0")
        .mtu(9000)
        .ipv6_provisioning_mode(Ipv6ProvisioningMode::RaDriven);
    assert_eq!(b.result, Err(CoreError::NoDownlink));
    assert!(b.mtu.is_none() && b.provisioning_mode.is_none());
    assert_eq!(
        b.build(&mut c, Ipv6ProvisioningMode::Static).unwrap_err(),
        CoreError::NoDownlink
    );
}

#[test]
fn container_options_become_arguments() {
    let b = ContainerBuilder::new("img".to_string())
        .env("A".to_string(), "1".to_string())
        .arg("sleep".to_string())
        .args(vec!["1".to_string()])
        .volume("/a".to_string(), "/b".to_string())
        .volume_ro("/c".to_string(), "/d".to_string())
        .tmpfs("/t".to_string())
        .run_arg("--x".to_string())
        .ready_tcp(80);
    assert_eq!(b.ready, ReadyGate::Tcp { port: 80, timeout_ms: 30_000 });
    assert_eq!(b.runtime, "podman");
    let expected = vec![
        "run",
        "-d",
        "--replace",
        "--network=host",
        "--pull=never",
        "--name",
        "c",
        "--env",
        "A=1",
        "--volume",
        "/a:/b",
        "--volume",
        "/c:/d:ro",
        "--tmpfs",
        "/t",
        "--x",
        "img",
        "sleep",
        "1",
    ];
    assert_eq!(b.command("c"), expected);
    assert_eq!(b.runtime("docker".to_string()).runtime, "docker");
}

#[test]
fn a_taken_name_is_refused_to_the_end() {
    let (mut core, r) = lab();
    let first = DeviceBuilder::start(&mut core, "twin");
    assert_eq!(core.device_id_by_name("twin"), Some(first.id));
    let count = core.all_device_ids().len();
    let second = DeviceBuilder::start(&mut core, "twin")
        .uplink(&mut core, IfaceConfig::routed(r))
        .mtu(1280);
    assert_eq!(second.result, Err(CoreError::NameTaken));
    let built = second.build(&mut core, Ipv6ProvisioningMode::Static);
    assert_eq!(built.unwrap_err(), CoreError::NameTaken);
    assert_eq!(core.all_device_ids().len(), count);
    assert!(core.device(first.id).unwrap().interfaces.is_empty());
}
