use patchbay::config::{
    expand_device, expand_devices, iface_config, region_plan, router_order, sort_by_name,
    stuck_message, CountEntry, DeviceEntry, DeviceProblem, IfaceEntry, ImpairEntry, LabConfig,
    RegionConfig, RouterConfig,
};
use patchbay::lab::default_config;
use patchbay::nat_config::{IpSupport, Nat, NatV6Mode};
use patchbay::qdisc::{ConditionEntry, LinkCondition};
use patchbay::topology::types::{DownstreamPool, NetworkCore, NodeId};

fn router(name: &str, upstream: Option<&str>) -> RouterConfig {
    RouterConfig {
        name: name.into(),
        region: None,
        upstream: upstream.map(|u| u.to_string()),
        nat: Nat::Off,
        ip_support: IpSupport::V4Only,
        nat_v6: NatV6Mode::Off,
        ra_enabled: None,
        ra_interval_secs: None,
        ra_lifetime_secs: None,
    }
}

fn iface(name: &str, gateway: Option<&str>) -> IfaceEntry {
    IfaceEntry {
        name: name.into(),
        gateway: gateway.map(|g| g.to_string()),
        impair: ImpairEntry::Absent,
    }
}

fn device(name: &str, count: CountEntry, ifaces: Vec<IfaceEntry>) -> DeviceEntry {
    DeviceEntry { name: name.into(), is_table: true, default_via: None, count, ifaces }
}

fn core_with(routers: &[&str]) -> NetworkCore {
    let mut core = NetworkCore::new(default_config(1, 0));
    for r in routers {
        core.add_router(
            r,
            None,
            DownstreamPool::Private,
            None,
            IpSupport::V4Only,
            NatV6Mode::Off,
        );
    }
    core
}

#[test]
fn parents_come_before_children() {
    let routers = vec![
        router("home", Some("isp")),
        router("isp", None),
        router("attic", Some("home")),
        router("dc", None),
    ];
    let order = router_order(&routers);
    let names: Vec<&str> = order.order.iter().map(|i| routers[*i].name.as_str()).collect();
    assert_eq!(names, vec!["dc", "isp", "home", "attic"]);
    assert!(order.stuck.is_empty());
}

#[test]
fn cycles_are_reported_by_name() {
    let routers = vec![router("b", Some("a")), router("a", Some("b")), router("c", None)];
    let order = router_order(&routers);
    assert_eq!(order.order, vec![2]);
    assert_eq!(order.stuck, vec!["a", "b"]);
    assert_eq!(
        stuck_message(&order.stuck),
        "unresolvable router upstreams (cycle?): a, b"
    );
}

#[test]
fn unknown_upstreams_do_not_wait() {
    let routers = vec![router("a", Some("nowhere"))];
    assert_eq!(router_order(&routers).order, vec![0]);
    assert_eq!(routers[0].upstream_id(&core_with(&[])), None);
    let core = core_with(&["nowhere"]);
    assert!(routers[0].upstream_id(&core).is_some());
}

#[test]
fn the_last_entry_of_a_name_counts() {
    let names = vec!["b".to_string(), "a".to_string(), "b".to_string()];
    assert_eq!(sort_by_name(&names), vec![1, 2]);
}

#[test]
fn devices_are_numbered_by_their_count() {
    let core = core_with(&["r"]);
    let many = device("d", CountEntry::Given(2), vec![iface("eth0", Some("r"))]);
    let devs = expand_device(&core, &many).unwrap();
    let names: Vec<&str> = devs.iter().map(|d| d.name.as_str()).collect();
    assert_eq!(names, vec!["d-0", "d-1"]);
    let one = device("d", CountEntry::Absent, vec![iface("eth0", Some("r"))]);
    assert_eq!(expand_device(&core, &one).unwrap()[0].name, "d");
}

#[test]
fn interfaces_come_in_the_order_of_their_names() {
    let core = core_with(&["r", "s"]);
    let entry = device(
        "d",
        CountEntry::Absent,
        vec![iface("eth1", Some("s")), iface("eth0", Some("r"))],
    );
    let dev = &expand_device(&core, &entry).unwrap()[0];
    assert_eq!(dev.ifaces[0].0, "eth0");
    assert_eq!(dev.ifaces[1].0, "eth1");
    assert_eq!(Some(dev.ifaces[0].1), core.router_id_by_name("r"));
}

#[test]
fn device_problems_are_told_apart() {
    let core = core_with(&["r"]);
    let problem = |e: DeviceEntry| expand_device(&core, &e).unwrap_err();
    let mut bare = device("d", CountEntry::Absent, vec![]);
    assert_eq!(problem(device("d", CountEntry::Absent, vec![])), DeviceProblem::NoInterfaces);
    bare.is_table = false;
    assert_eq!(problem(bare), DeviceProblem::NotATable);
    assert_eq!(
        problem(device("d", CountEntry::NotInteger, vec![])),
        DeviceProblem::CountNotInteger
    );
    assert_eq!(
        problem(device("d", CountEntry::Given(0), vec![])),
        DeviceProblem::CountTooSmall
    );
    assert_eq!(
        problem(device("d", CountEntry::Absent, vec![iface("eth0", None)])),
        DeviceProblem::MissingGateway(0)
    );
    assert_eq!(
        problem(device("d", CountEntry::Absent, vec![iface("eth0", Some("x"))])),
        DeviceProblem::UnknownRouter(0)
    );
    let mut odd = iface("eth0", Some("r"));
    odd.impair = ImpairEntry::Malformed;
    assert_eq!(
        problem(device("d", CountEntry::Absent, vec![odd])),
        DeviceProblem::InvalidImpair(0)
    );
    let mut unknown = iface("eth0", Some("r"));
    unknown.impair = ImpairEntry::Given(ConditionEntry::Preset("dial-up".into()));
    assert_eq!(
        problem(device("d", CountEntry::Absent, vec![unknown])),
        DeviceProblem::InvalidImpair(0)
    );
}

#[test]
fn devices_come_in_the_order_of_their_names() {
    let core = core_with(&["r"]);
    let mut impaired = iface("eth0", Some("r"));
    impaired.impair = ImpairEntry::Given(ConditionEntry::Preset("wifi".into()));
    let entries = vec![
        device("z", CountEntry::Absent, vec![iface("eth0", Some("r"))]),
        device("a", CountEntry::Absent, vec![impaired]),
    ];
    let devs = expand_devices(&core, &entries).unwrap();
    assert_eq!(devs[0].name, "a");
    assert_eq!(devs[0].ifaces[0].2, Some(LinkCondition::wifi()));
    assert_eq!(devs[1].name, "z");
    let bad = vec![
        device("b", CountEntry::Absent, vec![]),
        device("a", CountEntry::Given(-1), vec![]),
    ];
    assert_eq!(expand_devices(&core, &bad).unwrap_err(), (1, DeviceProblem::CountTooSmall));
}

#[test]
fn impairments_apply_in_both_directions() {
    let c = iface_config(NodeId(4), Some(LinkCondition::wifi()));
    assert_eq!(c.gateway, Some(NodeId(4)));
    assert_eq!(c.egress, Some(LinkCondition::wifi()));
    assert_eq!(c.ingress, Some(LinkCondition::wifi()));
    assert!(iface_config(NodeId(4), None).egress.is_none());
}

fn region(name: &str, latencies: &[(&str, u32)]) -> (String, RegionConfig) {
    let latencies = latencies.iter().map(|(to, ms)| (to.to_string(), *ms)).collect();
    (name.into(), RegionConfig { latencies })
}

#[test]
fn regions_and_latencies_make_a_plan() {
    let mut dc = router("dc", None);
    dc.region = Some("eu".into());
    let cfg = LabConfig {
        region: Some(vec![region("eu", &[("us", 80)])]),
        router: vec![router("home", None), dc],
        device: Vec::new(),
    };
    let plan = region_plan(&cfg);
    assert_eq!(plan.regions, vec!["eu", "us"]);
    assert_eq!(plan.routers, vec![(1, Some("eu".to_string())), (0, None)]);
    assert_eq!(plan.links.len(), 1);
    let (a, b, link) = &plan.links[0];
    assert_eq!((a.as_str(), b.as_str()), ("eu", "us"));
    assert_eq!((link.latency_ms, link.jitter_ms, link.rate_mbit), (80, 0, 0));
    assert_eq!(link.loss_pct.bits, 0);
}

#[test]
fn each_pair_of_regions_is_linked_once() {
    let mut far = router("far", None);
    far.region = Some("mars".into());
    let cfg = LabConfig {
        region: Some(vec![
            region("us", &[("eu", 90), ("asia", 95), ("us", 1)]),
            region("eu", &[("us", 80), ("asia", 120)]),
        ]),
        router: vec![far],
        device: Vec::new(),
    };
    let plan = region_plan(&cfg);
    assert_eq!(plan.regions, vec!["asia", "eu", "mars", "us"]);
    let links: Vec<(&str, &str, u32)> =
        plan.links.iter().map(|(a, b, l)| (a.as_str(), b.as_str(), l.latency_ms)).collect();
    assert_eq!(links, vec![("asia", "eu", 120), ("asia", "us", 95), ("eu", "us", 80)]);
}

#[test]
fn no_regions_make_an_empty_plan() {
    let cfg = LabConfig { region: None, router: vec![router("a", None)], device: Vec::new() };
    let plan = region_plan(&cfg);
    assert!(plan.regions.is_empty() && plan.links.is_empty());
    assert_eq!(plan.routers, vec![(0, None)]);
}
