use patchbay::addr::{IpAddr, Ipv4Addr, Ipv4Net, Ipv6Addr};
use patchbay::balancer::{
    add_backend, add_balancer, balancer_removal_scripts, balancer_rules,
    generate_all_balancer_rules, generate_dnat_map_v4, generate_dnat_map_v6, remove_backend,
    resolve_backends_v4, BalancerConfig, BalancerError, LbAlgorithm, LbProtocol,
};
use patchbay::event::{DeviceState, RouterState};
use patchbay::firewall::Firewall;
use patchbay::iface::IfaceConfig;
use patchbay::lab::default_config;
use patchbay::nat_config::{IpSupport, Nat, NatV6Mode};
use patchbay::profile::{Ipv6ProvisioningMode, LinkDirection};
use patchbay::qdisc::LinkCondition;
use patchbay::topology::plans::select_default_v6_gateway;
use patchbay::topology::pools::{add_host, link_local_from_seed};
use patchbay::topology::regions::{default_links, link_veth_name, region_base, region_link_key};
use patchbay::topology::routers::RouterOptions;
use patchbay::topology::types::{CoreError, DownstreamPool, NetworkCore, NodeId};

fn empty_lab() -> NetworkCore {
    NetworkCore::new(default_config(1, 0))
}

fn add_router(core: &mut NetworkCore, name: &str) -> NodeId {
    let r = core.add_router(
        name,
        Nat::Easy.to_config(),
        DownstreamPool::Private,
        None,
        IpSupport::DualStack,
        NatV6Mode::Off,
    );
    let ip = core.alloc_ix_ip_low().unwrap();
    let ip6 = core.alloc_ix_ip_v6_low().unwrap();
    let ix = core.ix_sw();
    core.connect_router_uplink(r, ix, Some(ip), Some(ip6)).unwrap();
    let sw = core.add_switch(name, None, None, None, None);
    core.connect_router_downlink(r, sw, None).unwrap();
    r
}

fn lab() -> (NetworkCore, NodeId, NodeId, NodeId) {
    let mut c = empty_lab();
    let r = add_router(&mut c, "r");
    let s = add_router(&mut c, "s");
    let d = c.add_device("d");
    c.add_device_iface(d, "eth0", r, None).unwrap();
    (c, r, s, d)
}

#[test]
fn addresses_come_from_the_router() {
    let (c, r, _, d) = lab();
    let gw = c.router(r).unwrap().downstream_gw.unwrap();
    let eth0 = c.device(d).unwrap().iface("eth0").unwrap();
    assert_eq!(gw, Ipv4Addr::new(10, 0, 1, 1));
    assert_eq!(eth0.ip, Some(Ipv4Addr::new(10, 0, 1, 2)));
    assert_eq!(c.router(r).unwrap().upstream_ip, Some(Ipv4Addr::new(198, 18, 0, 10)));
    assert_eq!(c.router_downlink_gw_for_switch(eth0.uplink().unwrap()), Ok(gw));
}

#[test]
fn addresses_on_a_switch_differ() {
    let (mut c, r, _, d) = lab();
    let a = c.device(d).unwrap().iface("eth0").unwrap().ip.unwrap();
    let b = c.add_device_iface(d, "eth1", r, None).unwrap().unwrap();
    assert!(a != b);
    assert_eq!(c.add_device_iface(d, "eth1", r, None), Err(CoreError::DuplicateIface));
}

#[test]
fn removing_the_default_interface_moves_the_default() {
    let (mut c, _, s, d) = lab();
    assert_eq!(c.remove_device_iface(d, "eth0"), Err(CoreError::LastIface));
    c.add_device_iface(d, "eth1", s, None).unwrap();
    assert_eq!(c.device(d).unwrap().default_via, "eth0");
    assert_eq!(c.remove_device_iface(d, "eth9"), Err(CoreError::NoSuchIface));
    c.remove_device_iface(d, "eth0").unwrap();
    assert_eq!(c.device(d).unwrap().default_via, "eth1");
}

#[test]
fn renewing_gives_another_address() {
    let (mut c, _, _, d) = lab();
    let (_, old_ip, new_ip, prefix) = c.renew_device_ip(d, "eth0").unwrap();
    assert!(old_ip != new_ip);
    assert_eq!(prefix, 24);
    assert_eq!(c.device(d).unwrap().iface("eth0").unwrap().ip, Some(new_ip));
}

#[test]
fn routers_with_devices_stay() {
    let (mut c, r, _, d) = lab();
    assert_eq!(c.remove_router(r).unwrap_err(), CoreError::StillConnected);
    c.remove_device(d).unwrap();
    assert!(c.device(d).is_none());
    c.remove_router(r).unwrap();
    assert_eq!(c.router_id_by_name("r"), None);
    assert_eq!(c.remove_device(d).unwrap_err(), CoreError::UnknownDevice);
}

#[test]
fn replugging_takes_an_address_of_the_other_router() {
    let (mut c, _, s, d) = lab();
    let (setup, from) = c.plan_replug(d, "eth0", s, Ipv6ProvisioningMode::RaDriven).unwrap();
    assert_eq!(from, "r");
    assert_eq!(setup.iface_build.dev_ip, Some(Ipv4Addr::new(10, 0, 2, 2)));
    assert_eq!(setup.iface_build.gw_ip_v6, None);
    let (ip, ip6) = (setup.iface_build.dev_ip, setup.iface_build.dev_ip_v6);
    c.finish_replug_iface(d, "eth0", s, ip, ip6).unwrap();
    assert_eq!(c.device(d).unwrap().iface("eth0").unwrap().ip, ip);
}

#[test]
fn dummies_have_no_gateway() {
    let (mut c, _, s, d) = lab();
    let cond = LinkCondition::wifi();
    let config = IfaceConfig::dummy().condition(cond, LinkDirection::Egress).down();
    let setup = c.plan_add_iface(d, "dum0", config, Ipv6ProvisioningMode::Static).unwrap();
    assert!(setup.iface_build.dummy && setup.iface_build.start_down);
    assert_eq!(setup.iface_build.gw_ip, None);
    assert!(setup.mtu.is_none());
    let mode = Ipv6ProvisioningMode::Static;
    assert_eq!(c.default_route_plan(d, "dum0", mode).unwrap_err(), CoreError::DummyIface);
    assert_eq!(c.plan_replug(d, "dum0", s, mode).unwrap_err(), CoreError::DummyIface);
    assert_eq!(
        c.condition_plan(d, "dum0", LinkDirection::Ingress).unwrap_err(),
        CoreError::DummyIface
    );
    assert!(c.condition_plan(d, "dum0", LinkDirection::Both).unwrap().gateway.is_none());
    c.store_condition(d, "dum0", Some(cond), LinkDirection::Both, false);
    let dum = c.device(d).unwrap().iface("dum0").unwrap();
    assert!(dum.egress.is_some() && dum.ingress.is_none());
}

#[test]
fn explicit_addresses_replace_those_of_the_pool() {
    let (mut c, r, _, d) = lab();
    let addr = patchbay::addr::Ipv4Net::new(Ipv4Addr::new(10, 0, 1, 77), 25).unwrap();
    let config = IfaceConfig::routed(r).addr(addr);
    let setup = c.plan_add_iface(d, "eth1", config, Ipv6ProvisioningMode::Static).unwrap();
    assert_eq!(setup.iface_build.dev_ip, Some(addr.addr));
    assert_eq!(setup.iface_build.prefix_len, 25);
    c.store_added_iface(d, "eth1", config);
    assert_eq!(c.device(d).unwrap().iface("eth1").unwrap().ip, Some(addr.addr));
}

#[test]
fn default_routes_follow_the_mode() {
    let (c, r, _, d) = lab();
    let plan = c.default_route_plan(d, "eth0", Ipv6ProvisioningMode::Static).unwrap();
    assert_eq!(Some(plan.gateways.gw_ip), c.router(r).unwrap().downstream_gw);
    assert_eq!(plan.gateways.primary_v6, c.router(r).unwrap().downstream_gw_v6);
    assert!(!plan.gateways.solicit);
    let plan = c.default_route_plan(d, "eth0", Ipv6ProvisioningMode::RaDriven).unwrap();
    assert!(plan.gateways.solicit);
    assert_eq!(plan.gateways.rs_router_ll, c.router(r).unwrap().downstream_ll_v6);
    let up = c.link_up_plan(d, "eth0").unwrap();
    assert!(up.uplink.is_some());
    assert_eq!(c.link_up_plan(d, "eth9").unwrap_err(), CoreError::NoSuchIface);
    assert_eq!(c.link_up_plan(NodeId(99), "eth0").unwrap_err(), CoreError::UnknownDevice);
}

#[test]
fn v6_gateways_are_selected() {
    let global = Some(Ipv6Addr::new(0x2001, 0xdb8, 0, 0, 0, 0, 0, 1));
    let ll = Some(Ipv6Addr::new(0xfe80, 0, 0, 0, 0, 0, 0, 1));
    let ra = Ipv6ProvisioningMode::RaDriven;
    let st = Ipv6ProvisioningMode::Static;
    assert_eq!(select_default_v6_gateway(ra, true, global, ll), ll);
    assert_eq!(select_default_v6_gateway(ra, true, global, None), global);
    assert_eq!(select_default_v6_gateway(ra, false, global, ll), None);
    assert_eq!(select_default_v6_gateway(st, false, global, ll), global);
    assert_eq!(select_default_v6_gateway(st, false, None, ll), ll);
}

#[test]
fn conditions_reach_both_ends() {
    let (mut c, r, _, d) = lab();
    let plan = c.condition_plan(d, "eth0", LinkDirection::Both).unwrap();
    let (ns, ifname) = plan.gateway.unwrap();
    assert_eq!(ns, c.router(r).unwrap().ns);
    assert!(ifname.starts_with('v'));
    c.store_condition(d, "eth0", Some(LinkCondition::wifi()), LinkDirection::Both, true);
    let eth0 = c.device(d).unwrap().iface("eth0").unwrap();
    assert!(eth0.egress.is_some() && eth0.ingress.is_some());
    c.store_condition(d, "eth0", None, LinkDirection::Ingress, true);
    let eth0 = c.device(d).unwrap().iface("eth0").unwrap();
    assert!(eth0.egress.is_some() && eth0.ingress.is_none());
}

#[test]
fn devices_are_built_with_their_gateways() {
    let (mut c, r, _, d) = lab();
    let (builds, mode) =
        c.build_device(d, Some(1400), None, Ipv6ProvisioningMode::Static).unwrap();
    assert_eq!(mode, Ipv6ProvisioningMode::Static);
    assert_eq!(builds.len(), 1);
    assert_eq!(builds[0].gw_ip, c.router(r).unwrap().downstream_gw);
    assert!(builds[0].is_default);
    assert_eq!(c.device(d).unwrap().mtu, Some(1400));
    let empty = c.add_device("e");
    assert!(c.build_device(empty, None, None, mode).unwrap().0.is_empty());
    assert_eq!(
        c.build_device(NodeId(99), None, None, mode).unwrap_err(),
        CoreError::UnknownDevice
    );
}

#[test]
fn nat_follows_the_router() {
    let (mut c, r, _, _) = lab();
    assert!(c.router_nat_params(r).is_ok());
    c.set_router_nat_mode(r, None).unwrap();
    assert!(c.router(r).unwrap().cfg.nat.is_none());
    assert_eq!(c.set_router_nat_mode(NodeId(99), None), Err(CoreError::UnknownRouter));
    c.set_router_nat_v6_mode(r, NatV6Mode::Masquerade).unwrap();
    assert!(c.router(r).unwrap().cfg.nat_v6 == NatV6Mode::Masquerade);
}

#[test]
fn regions_are_linked_broken_and_restored() {
    let mut c = empty_lab();
    c.add_region("eu").unwrap();
    c.add_region("us").unwrap();
    c.add_region("asia").unwrap();
    assert!(c.add_region("eu").is_err());
    c.prepare_link_regions("eu", "us").unwrap();
    assert_eq!(c.prepare_link_regions("us", "eu").unwrap_err(), CoreError::AlreadyLinked);
    assert_eq!(c.prepare_break_region_link("eu", "us").unwrap_err(), CoreError::NoDetour);
    c.prepare_link_regions("eu", "asia").unwrap();
    c.prepare_link_regions("us", "asia").unwrap();
    c.prepare_break_region_link("eu", "us").unwrap();
    let key = region_link_key("us", "eu");
    c.set_region_link_broken(&key, true);
    assert_eq!(c.prepare_break_region_link("eu", "us").unwrap_err(), CoreError::AlreadyBroken);
    c.prepare_restore_region_link("eu", "us").unwrap();
    c.set_region_link_broken(&key, false);
    assert_eq!(c.prepare_restore_region_link("eu", "us").unwrap_err(), CoreError::NotBroken);
    assert_eq!(c.prepare_link_regions("eu", "mars").unwrap_err(), CoreError::UnknownRegion);
}

#[test]
fn region_names_and_blocks() {
    assert_eq!(region_base(3), Ipv4Addr::new(198, 18, 48, 0));
    assert_eq!(region_base(16), Ipv4Addr::new(198, 19, 0, 0));
    assert_eq!(default_links().len(), 3);
    assert!(link_veth_name("eu", "us").len() <= 15);
}

#[test]
fn hosts_are_numbered_within_a_block() {
    let cfg = default_config(1, 0);
    assert_eq!(add_host(cfg.ix_cidr, 7), Ok(Ipv4Addr::new(198, 18, 0, 7)));
    assert!(add_host(cfg.ix_cidr, 0).is_err());
    assert!(add_host(cfg.ix_cidr, 255).is_err());
    let ll = link_local_from_seed(5);
    assert_eq!(ll.bits >> 64, 0xfe80_0000_0000_0000u128);
}

#[test]
fn snapshots_show_the_topology() {
    let (c, r, _, d) = lab();
    let state = DeviceState::from_device_data(c.device(d).unwrap(), &c);
    assert_eq!(state.default_via, "eth0");
    assert_eq!(state.interfaces[0].router, "r");
    let state = RouterState::from_router_data(c.router(r).unwrap(), None, "br".to_string());
    assert_eq!(state.downstream_bridge, "br");
    assert_eq!(state.downstream_gw, c.router(r).unwrap().downstream_gw);
}

#[test]
fn targets_between_nodes_are_resolved() {
    let (c, r, s, d) = lab();
    let (ns, _) = c.resolve_link_target(d, r).unwrap();
    assert_eq!(ns, c.device(d).unwrap().ns);
    assert_eq!(c.resolve_link_target(d, s).unwrap_err(), CoreError::NotConnected);
    assert_eq!(c.all_device_ids(), vec![d]);
    assert_eq!(c.all_router_ids(), vec![r, s]);
}

#[test]
fn balancers_spread_over_backends() {
    let (c, r, _, d) = lab();
    let mut all = Vec::new();
    let cfg = BalancerConfig::new("web", 80).backend(d, 8080).protocol(LbProtocol::Tcp);
    add_balancer(&mut all, cfg).unwrap();
    assert_eq!(
        add_balancer(&mut all, BalancerConfig::new("web", 81).backend(d, 1)),
        Err(BalancerError::NameTaken)
    );
    assert_eq!(
        add_balancer(&mut all, BalancerConfig::new("bare", 81)),
        Err(BalancerError::NoBackends)
    );
    let targets = resolve_backends_v4(&all[0], &c).unwrap();
    assert_eq!(targets.len(), 1);
    assert_eq!(targets[0].1, 8080);
    assert!(generate_dnat_map_v4(&targets, LbProtocol::Tcp).contains("10.0.1.2"));
    let rules = generate_all_balancer_rules(c.router(r).unwrap(), &all, &c).unwrap();
    assert!(rules.contains("10.0.1.2"));
    assert!(rules.contains("80"));
    assert_eq!(balancer_rules(c.router(r).unwrap(), &all, &c), Ok(Some(rules)));
    assert_eq!(balancer_rules(c.router(r).unwrap(), &Vec::new(), &c), Ok(None));
    assert_eq!(add_backend(&mut all, "web", d, 8080), Ok(false));
    assert_eq!(add_backend(&mut all, "nope", d, 1), Err(BalancerError::NotFound));
    remove_backend(&mut all, "web", d).unwrap();
    assert!(all[0].backends.is_empty());
    assert!(balancer_removal_scripts().0.contains("delete"));
}

#[test]
fn nodes_and_interfaces_are_told_apart() {
    let (mut c, r, s, d) = lab();
    let e = c.add_device("e");
    c.add_device_iface(e, "eth0", r, None).unwrap();
    c.add_device_iface(d, "eth1", s, None).unwrap();
    let setup =
        c.plan_add_iface(d, "dum0", IfaceConfig::dummy(), Ipv6ProvisioningMode::Static).unwrap();
    let mut idxs = vec![setup.iface_build.idx];
    for dev in [d, e] {
        for name in ["eth0", "eth1"] {
            if let Some(i) = c.device(dev).unwrap().iface(name) {
                idxs.push(i.idx);
            }
        }
    }
    assert_eq!(idxs.len(), 4);
    idxs.sort();
    idxs.dedup();
    assert_eq!(idxs.len(), 4);
    let mut spaces = vec![
        c.router(r).unwrap().ns.clone(),
        c.router(s).unwrap().ns.clone(),
        c.device(d).unwrap().ns.clone(),
        c.device(e).unwrap().ns.clone(),
    ];
    spaces.sort();
    spaces.dedup();
    assert_eq!(spaces.len(), 4);
}

#[test]
fn devices_lie_in_the_subnet_of_their_router() {
    let (c, r, _, d) = lab();
    let net = c.router(r).unwrap().downstream_cidr.unwrap();
    assert!(net.contains(c.device(d).unwrap().iface("eth0").unwrap().ip.unwrap()));
    assert!(net.contains(c.router(r).unwrap().downstream_gw.unwrap()));
}

#[test]
fn dnat_maps_name_every_target() {
    let a = IpAddr::V6(Ipv6Addr::new(0xfd10, 0, 0, 0, 0, 0, 0, 2));
    let b = IpAddr::V6(Ipv6Addr::new(0xfd10, 0, 0, 0, 0, 0, 0, 3));
    assert_eq!(
        generate_dnat_map_v6(&vec![(a, 80)], LbProtocol::Tcp),
        "        meta l4proto tcp dnat to fd10::2 . 80\n"
    );
    assert_eq!(
        generate_dnat_map_v6(&vec![(a, 80), (b, 81)], LbProtocol::Udp),
        "        meta l4proto udp dnat to numgen inc mod 2 map {\n            0 : fd10::2 . 80,\n            1 : fd10::3 . 81,\n        }\n"
    );
}

#[test]
fn balancer_settings_are_kept() {
    let cfg = BalancerConfig::new("web", 80).round_robin().session_affinity(30_000);
    assert_eq!(cfg.algorithm, LbAlgorithm::RoundRobin);
    assert_eq!(cfg.affinity_ms, Some(30_000));
    assert_eq!(cfg.protocol, LbProtocol::Tcp);
}

#[test]
fn routers_keep_what_is_set_at_runtime() {
    let (mut c, r, _, d) = lab();
    c.set_router_nat_v6_mode(r, NatV6Mode::Masquerade).unwrap();
    c.set_router_firewall(r, Firewall::Corporate).unwrap();
    let cfg = c.router_effective_cfg(r).unwrap();
    assert_eq!(cfg.nat_v6, NatV6Mode::Masquerade);
    assert!(matches!(cfg.firewall, Firewall::Corporate));
    assert_eq!(cfg.effective_nat_config(), Nat::Easy.to_config());
    assert_eq!(c.set_router_firewall(d, Firewall::Off), Err(CoreError::UnknownRouter));
    let params = c.router_nat_v6_params(r).unwrap();
    assert_eq!(params.wan_if, "ix");
    assert_eq!(params.lan_prefix, c.router(r).unwrap().downstream_cidr_v6.unwrap());
    let sw = c.switch(c.router(r).unwrap().downlink.unwrap()).unwrap();
    assert_eq!(sw.owner_router, Some(r));
    assert!(c.switch(NodeId(9_999)).is_none());
}

#[test]
fn advertisements_are_tuned() {
    let (mut c, r, _, _) = lab();
    let router = c.routers.get_mut(&r).unwrap();
    router.ra_runtime.set_enabled(false);
    router.ra_runtime.set_interval_secs(0);
    router.ra_runtime.set_lifetime_secs(90);
    let ra = c.router(r).unwrap().ra_runtime;
    assert_eq!((ra.enabled, ra.interval_secs, ra.lifetime_secs), (false, 1, 90));
}

#[test]
fn only_devices_that_listen_get_default_v6_routes() {
    let (c, r, s, d) = lab();
    let targets = c.router_default_v6_targets(r, Ipv6ProvisioningMode::RaDriven).unwrap();
    assert_eq!(targets.len(), 1);
    assert_eq!(targets[0].ns, c.device(d).unwrap().ns);
    assert_eq!(targets[0].ifname, "eth0");
    assert!(c.router_default_v6_targets(r, Ipv6ProvisioningMode::Static).unwrap().is_empty());
    assert!(c.router_default_v6_targets(s, Ipv6ProvisioningMode::RaDriven).unwrap().is_empty());
}

#[test]
fn regions_hand_out_their_own_blocks() {
    let mut c = empty_lab();
    let plan = c.add_region("eu").unwrap();
    let first = c.alloc_region_public_cidr("eu").unwrap();
    let second = c.alloc_region_public_cidr("eu").unwrap();
    let base = region_base(plan.idx).octets()[2];
    assert_eq!(first, Ipv4Net::new(Ipv4Addr::new(198, 18, base + 1, 0), 24).unwrap());
    assert_eq!(second, Ipv4Net::new(Ipv4Addr::new(198, 18, base + 2, 0), 24).unwrap());
    assert_eq!(c.alloc_region_public_cidr("us"), Err(CoreError::UnknownRegion));
}

#[test]
fn there_are_sixteen_regions() {
    let mut c = empty_lab();
    for i in 1..=15 {
        c.add_region(&format!("r{i}")).unwrap();
    }
    assert_eq!(c.add_region("").unwrap_err(), CoreError::EmptyName);
    assert_eq!(c.add_region("r1").unwrap_err(), CoreError::NameTaken);
    let last = c.add_region("r16").unwrap();
    assert_eq!(last.idx, 16);
    assert_eq!(last.region_net, Ipv4Addr::new(198, 19, 0, 0));
    assert_eq!(last.return_route.unwrap().0, Ipv4Addr::new(198, 19, 0, 0));
    let net = c.alloc_region_public_cidr("r16").unwrap();
    assert_eq!(net, Ipv4Net::new(Ipv4Addr::new(198, 19, 1, 0), 24).unwrap());
    let link = c.prepare_link_regions("r1", "r16").unwrap();
    assert_eq!(link.b.idx, 16);
    assert_eq!(c.add_region("r17").unwrap_err(), CoreError::RegionPoolExhausted);
    assert_eq!(c.add_region("r1").unwrap_err(), CoreError::NameTaken);
}

#[test]
fn subnets_of_a_pool_differ() {
    let mut c = empty_lab();
    let a = c.alloc_private_cidr().unwrap();
    let b = c.alloc_private_cidr().unwrap();
    assert_eq!(a.text(), "10.0.1.0/24");
    assert_eq!(b.text(), "10.0.2.0/24");
    let a = c.alloc_private_cidr_v6().unwrap();
    let b = c.alloc_private_cidr_v6().unwrap();
    assert!(a.addr != b.addr);
    assert!(c.alloc_ix_ip_low().unwrap() != c.alloc_ix_ip_low().unwrap());
    for i in 1..16 {
        assert!(region_base(i) != region_base(i + 1));
    }
}

#[test]
fn routers_enter_on_the_exchange() {
    let mut c = empty_lab();
    let mut options = RouterOptions::new("home");
    options.nat = Nat::Easy;
    options.ip_support = IpSupport::DualStack;
    options.firewall = Firewall::BlockInbound;
    options.mtu = Some(1400);
    options.ra_interval_secs = 0;
    let id = c.enter_router(options).unwrap();
    assert_eq!(c.router_id_by_name("home"), Some(id));
    let r = c.router(id).unwrap();
    assert_eq!(r.uplink, Some(c.ix_sw()));
    assert_eq!(r.upstream_ip, Some(Ipv4Addr::new(198, 18, 0, 10)));
    assert!(r.upstream_ip_v6.is_some() && r.downstream_cidr_v6.is_some());
    assert_eq!(r.downstream_cidr.unwrap().text(), "10.0.1.0/24");
    assert!(matches!(r.cfg.downstream_pool, DownstreamPool::Private));
    assert!(matches!(r.cfg.firewall, Firewall::BlockInbound));
    assert_eq!(r.cfg.mtu, Some(1400));
    assert_eq!((r.cfg.ra_interval_secs, r.ra_runtime.interval_secs), (0, 1));
    let wiring = c.router_wiring(id).unwrap();
    assert_eq!((wiring.ns.as_str(), wiring.wan_if), (r.ns.as_str(), "ix"));
    assert_eq!((&wiring.above_ns, &wiring.above_bridge), (&c.cfg.root_ns, &c.cfg.ix_br));
    assert_eq!(wiring.v4.unwrap(), (Ipv4Addr::new(198, 18, 0, 10), 24, c.cfg.ix_gw));
    assert_eq!(wiring.bridge, r.downlink_bridge);
    assert_eq!(wiring.bridge_v4, Some((Ipv4Addr::new(10, 0, 1, 1), 24)));
    // NAT hides the network below from above, and IPv6 has none.
    assert!(wiring.back_v4.is_none());
    assert_eq!(
        wiring.back_v6.unwrap(),
        (r.downstream_cidr_v6.unwrap(), r.upstream_ip_v6.unwrap())
    );
}

#[test]
fn routers_enter_below_others() {
    let mut c = empty_lab();
    let isp = c.enter_router(RouterOptions::new("isp")).unwrap();
    let mut options = RouterOptions::new("home");
    options.upstream = Some(isp);
    let id = c.enter_router(options).unwrap();
    let above = c.router(isp).unwrap();
    let r = c.router(id).unwrap();
    assert_eq!(r.uplink, above.downlink);
    assert!(r.upstream_ip_v6.is_none() && r.downstream_cidr_v6.is_none());
    assert!(matches!(r.cfg.downstream_pool, DownstreamPool::Public));
    let wiring = c.router_wiring(id).unwrap();
    assert_eq!(wiring.wan_if, "wan");
    assert_eq!((&wiring.above_ns, &wiring.above_bridge), (&above.ns, &above.downlink_bridge));
    assert_eq!(wiring.v4.unwrap().2, above.downstream_gw.unwrap());
    assert_eq!(
        wiring.back_v4.unwrap(),
        (r.downstream_cidr.unwrap(), r.upstream_ip.unwrap())
    );
    let mut options = RouterOptions::new("lost");
    options.upstream = Some(NodeId(9999));
    assert_eq!(c.enter_router(options), Err(CoreError::UnknownRouter));
    assert!(c.router_id_by_name("lost").is_none());
    assert_eq!(c.router_wiring(NodeId(9999)).unwrap_err(), CoreError::UnknownRouter);
}

#[test]
fn routers_of_a_region_take_its_subnets() {
    let mut c = empty_lab();
    let plan = c.add_region("eu").unwrap();
    let mut options = RouterOptions::new("dc");
    options.region = Some("eu".into());
    let id = c.enter_router(options).unwrap();
    let r = c.router(id).unwrap();
    assert_eq!(r.region.as_deref(), Some("eu"));
    assert_eq!(r.uplink, c.router(plan.id).unwrap().downlink);
    assert_eq!(r.upstream_ip, Some(Ipv4Addr::new(198, 18, 16, 10)));
    assert_eq!(r.downstream_cidr.unwrap().text(), "198.18.17.0/24");
    // A private pool, or a subnet of one's own, leaves the region's alone.
    let mut options = RouterOptions::new("home");
    options.region = Some("eu".into());
    options.nat = Nat::Easy;
    let id = c.enter_router(options).unwrap();
    assert_eq!(c.router(id).unwrap().downstream_cidr.unwrap().text(), "10.0.1.0/24");
    let mut options = RouterOptions::new("own");
    options.region = Some("eu".into());
    options.downstream_cidr = Ipv4Net::new(Ipv4Addr::new(192, 0, 2, 0), 24);
    let id = c.enter_router(options).unwrap();
    assert_eq!(c.router(id).unwrap().downstream_cidr.unwrap().text(), "192.0.2.0/24");
    let mut options = RouterOptions::new("second");
    options.region = Some("eu".into());
    options.nat = Nat::Easy;
    options.downstream_pool = Some(DownstreamPool::Public);
    let id = c.enter_router(options).unwrap();
    assert_eq!(c.router(id).unwrap().downstream_cidr.unwrap().text(), "198.18.18.0/24");
    let mut options = RouterOptions::new("lost");
    options.region = Some("mars".into());
    assert_eq!(c.enter_router(options), Err(CoreError::UnknownRegion));
}

#[test]
fn the_first_interface_carries_the_default_route() {
    let (mut c, r, s, _) = lab();
    let d = c.add_device("nameless");
    c.add_device_iface(d, "", r, None).unwrap();
    c.add_device_iface(d, "eth1", s, None).unwrap();
    assert_eq!(c.device(d).unwrap().default_via, "");
    assert_eq!(c.device(d).unwrap().default_iface().ifname, "");
}
