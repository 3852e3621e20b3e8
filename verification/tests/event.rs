use patchbay::addr::{Ipv4Addr, Ipv4Net, Ipv6Addr, Ipv6Net};
use patchbay::event::{
    parse_proc_net_dev, DeviceState, IfaceCounters, IfaceSnapshot, LabEvent, LabEventKind,
    LabState, RouterState, Timestamp,
};
use patchbay::firewall::Firewall;
use patchbay::nat_config::{IpSupport, Nat, NatV6Mode};

const MOMENT: Timestamp = Timestamp { secs: 1_700_000_000, nanos: 123_456_789 };

fn router(ns: &str, bridge: &str) -> Box<RouterState> {
    Box::new(RouterState {
        ns: ns.into(),
        region: None,
        nat: Nat::Easy,
        nat_v6: NatV6Mode::Off,
        firewall: Firewall::Off,
        ip_support: IpSupport::V4Only,
        mtu: None,
        upstream: None,
        uplink_ip: Some(Ipv4Addr::new(198, 18, 0, 2)),
        uplink_ip_v6: None,
        downstream_cidr: Ipv4Net::new(Ipv4Addr::new(10, 0, 1, 0), 24),
        downstream_gw: Some(Ipv4Addr::new(10, 0, 1, 1)),
        downstream_cidr_v6: None,
        downstream_gw_v6: None,
        downstream_bridge: bridge.into(),
        downlink_condition: None,
        devices: Vec::new(),
        counters: Vec::new(),
    })
}

fn device(router: &str) -> DeviceState {
    DeviceState {
        ns: "ns-d1".into(),
        default_via: "eth0".into(),
        mtu: None,
        interfaces: vec![IfaceSnapshot {
            name: "eth0".into(),
            router: router.into(),
            ip: Some(Ipv4Addr::new(10, 0, 1, 2)),
            ip_v6: None,
            link_condition: None,
        }],
        counters: Vec::new(),
    }
}

fn event(opid: u64, kind: LabEventKind) -> LabEvent {
    LabEvent { opid, timestamp: MOMENT, kind }
}

fn two_routers_one_device() -> LabState {
    let mut state = LabState::default();
    let events = vec![
        LabEventKind::RouterAdded { name: "r1".into(), state: router("ns-r1", "br-2") },
        LabEventKind::RouterAdded { name: "r2".into(), state: router("ns-r2", "br-3") },
        LabEventKind::DeviceAdded { name: "d1".into(), state: device("r1") },
    ];
    for (i, kind) in events.into_iter().enumerate() {
        state.apply(&event(i as u64, kind));
    }
    state
}

#[test]
fn state_reducer() {
    let mut state = LabState::default();

    let events = vec![
        event(
            0,
            LabEventKind::LabCreated {
                lab_prefix: "lab-test".into(),
                label: None,
            },
        ),
        event(
            1,
            LabEventKind::IxCreated {
                bridge: "br-1".into(),
                cidr: Ipv4Net::new(Ipv4Addr::new(198, 18, 0, 0), 24).unwrap(),
                gw: Ipv4Addr::new(198, 18, 0, 1),
                cidr_v6: Ipv6Net::new(Ipv6Addr::new(0x2001, 0xdb8, 0, 0, 0, 0, 0, 0), 64).unwrap(),
                gw_v6: Ipv6Addr::new(0x2001, 0xdb8, 0, 0, 0, 0, 0, 1),
            },
        ),
        event(2, LabEventKind::RouterAdded { name: "r1".into(), state: router("ns-r1", "br-2") }),
        event(3, LabEventKind::DeviceAdded { name: "d1".into(), state: device("r1") }),
    ];

    for event in &events {
        state.apply(event);
    }

    assert_eq!(state.opid, 3);
    assert_eq!(state.lab_prefix, "lab-test");
    assert!(state.ix.is_some());
    assert_eq!(state.routers.len(), 1);
    assert_eq!(state.devices.len(), 1);
    assert_eq!(state.routers.get(&"r1".to_string()).unwrap().devices, vec!["d1"]);
}

#[test]
fn parse_proc_net_dev_works() {
    let content = "\
Inter-|   Receive                                                |  Transmit
 face |bytes    packets errs drop fifo frame compressed multicast|bytes    packets errs drop fifo colls carrier compressed
    lo:    1000      10    0    0    0     0          0         0     1000      10    0    0    0     0       0          0
  eth0:   50000     100    0    0    0     0          0         0    25000      80    0    0    0     0       0          0
";
    let counters = parse_proc_net_dev(content);
    assert_eq!(counters.len(), 1);
    assert_eq!(counters[0].iface, "eth0");
    assert_eq!(counters[0].rx_bytes, 50000);
    assert_eq!(counters[0].tx_bytes, 25000);
    assert_eq!(counters[0].rx_packets, 100);
    assert_eq!(counters[0].tx_packets, 80);
}

#[test]
fn removing_a_device_delists_it() {
    let mut state = two_routers_one_device();
    assert_eq!(state.routers.get(&"r1".to_string()).unwrap().devices, vec!["d1"]);
    state.apply(&event(9, LabEventKind::DeviceRemoved { name: "d1".into() }));
    assert!(state.routers.get(&"r1".to_string()).unwrap().devices.is_empty());
    assert_eq!(state.devices.len(), 0);
    assert_eq!(state.opid, 9);
}

#[test]
fn replugging_moves_the_device() {
    let mut state = two_routers_one_device();
    state.apply(&event(
        4,
        LabEventKind::InterfaceReplugged {
            device: "d1".into(),
            iface_name: "eth0".into(),
            from_router: "r1".into(),
            to_router: "r2".into(),
            new_ip: Some(Ipv4Addr::new(10, 0, 2, 2)),
            new_ip_v6: None,
        },
    ));
    assert!(state.routers.get(&"r1".to_string()).unwrap().devices.is_empty());
    assert_eq!(state.routers.get(&"r2".to_string()).unwrap().devices, vec!["d1"]);
    let d = state.devices.get(&"d1".to_string()).unwrap();
    assert_eq!(d.interfaces[0].router, "r2");
    assert_eq!(d.interfaces[0].ip, Some(Ipv4Addr::new(10, 0, 2, 2)));
}

#[test]
fn replugging_one_of_two_interfaces_keeps_the_device_listed() {
    let mut state = LabState::default();
    let mut d1 = device("r1");
    d1.interfaces.push(IfaceSnapshot {
        name: "eth1".into(),
        router: "r1".into(),
        ip: Some(Ipv4Addr::new(10, 0, 1, 3)),
        ip_v6: None,
        link_condition: None,
    });
    let events = vec![
        LabEventKind::RouterAdded { name: "r1".into(), state: router("ns-r1", "br-2") },
        LabEventKind::RouterAdded { name: "r2".into(), state: router("ns-r2", "br-3") },
        LabEventKind::DeviceAdded { name: "d1".into(), state: d1 },
        LabEventKind::InterfaceReplugged {
            device: "d1".into(),
            iface_name: "eth0".into(),
            from_router: "r1".into(),
            to_router: "r2".into(),
            new_ip: Some(Ipv4Addr::new(10, 0, 2, 2)),
            new_ip_v6: None,
        },
    ];
    for (i, kind) in events.into_iter().enumerate() {
        state.apply(&event(i as u64, kind));
    }
    assert_eq!(state.routers.get(&"r1".to_string()).unwrap().devices, vec!["d1"]);
    assert_eq!(state.routers.get(&"r2".to_string()).unwrap().devices, vec!["d1"]);
    let d = state.devices.get(&"d1".to_string()).unwrap();
    assert_eq!(d.interfaces[0].router, "r2");
    assert_eq!(d.interfaces[0].ip, Some(Ipv4Addr::new(10, 0, 2, 2)));
    assert_eq!(d.interfaces[1].router, "r1");
    assert_eq!(d.interfaces[1].ip, Some(Ipv4Addr::new(10, 0, 1, 3)));
}

fn counters(iface: &str, rx_bytes: u64) -> IfaceCounters {
    IfaceCounters {
        iface: iface.into(),
        rx_bytes,
        tx_bytes: 0,
        rx_packets: 0,
        tx_packets: 0,
    }
}

#[test]
fn counters_are_kept_once_for_each_interface() {
    let mut state = two_routers_one_device();
    for (node, list) in [
        ("r1", vec![counters("ix", 1), counters("br", 2), counters("ix", 3)]),
        ("r1", vec![counters("br", 4)]),
        ("d1", vec![counters("eth0", 5), counters("eth0", 6)]),
        ("nobody", vec![counters("eth0", 7)]),
    ] {
        let kind = LabEventKind::PacketCounters { node: node.into(), counters: list };
        state.apply(&event(7, kind));
    }
    let kept = |list: &[IfaceCounters]| -> Vec<(String, u64)> {
        list.iter().map(|c| (c.iface.clone(), c.rx_bytes)).collect()
    };
    let r1 = state.routers.get(&"r1".to_string()).unwrap();
    assert_eq!(kept(&r1.counters), vec![("ix".to_string(), 3), ("br".to_string(), 4)]);
    let d1 = state.devices.get(&"d1".to_string()).unwrap();
    assert_eq!(kept(&d1.counters), vec![("eth0".to_string(), 6)]);
}

#[test]
fn nat_changes_reach_the_router() {
    let mut state = two_routers_one_device();
    state.apply(&event(4, LabEventKind::NatChanged { router: "r1".into(), nat: Nat::Hard }));
    assert!(state.routers.get(&"r1".to_string()).unwrap().nat == Nat::Hard);
    // An unknown router changes nothing.
    state.apply(&event(5, LabEventKind::NatChanged { router: "r9".into(), nat: Nat::Off }));
    assert_eq!(state.routers.len(), 2);
    assert_eq!(state.opid, 5);
}

#[test]
fn stopping_sets_the_status() {
    let mut state = LabState::default();
    state.apply(&event(
        0,
        LabEventKind::LabCreated { lab_prefix: "lab".into(), label: Some("x".into()) },
    ));
    assert_eq!(state.status, "running");
    assert_eq!(state.created_at, Some(MOMENT));
    state.apply(&event(1, LabEventKind::LabStopping));
    assert_eq!(state.status, "stopping");
}

#[test]
fn initial_state_replaces_everything() {
    let mut state = LabState::default();
    let full = two_routers_one_device();
    state.apply(&event(7, LabEventKind::InitialState { state: Some(Box::new(full.copy())) }));
    assert_eq!(state.routers.len(), 2);
    assert_eq!(state.opid, 7);
    state.apply(&event(8, LabEventKind::InitialState { state: None }));
    assert_eq!(state.routers.len(), 2);
    assert_eq!(state.opid, 8);
}
