//! Lab events and the state that follows from them.
use vstd::prelude::*;

use crate::addr::{Ipv4Addr, Ipv4Net, Ipv6Addr, Ipv6Net};
use crate::firewall::{Firewall, PresetView};
use crate::nat_config::{IpSupport, Nat, NatV6Mode};
use crate::qdisc::LinkCondition;
use crate::table::{key_is_new, same_pairs_same_map, Table};
use crate::text::{
    clone_strings, parse_number, parse_radix, split, split_once, split_once_str, split_str, str_eq,
    trim, trim_str, views, words, words_of,
};
use crate::topology::types::{opt_view, CoreView, DeviceData, IfaceView, NetworkCore, RouterData};

verus! {

// ── events ───────────────────────────────────────────────────────────

/// Snapshot of a device interface at the time of an event.
#[derive(Debug)]
pub struct IfaceSnapshot {
    /// Interface name.
    pub name: String,
    /// Name of the router it is connected to.
    pub router: String,
    /// IPv4 address.
    pub ip: Option<Ipv4Addr>,
    /// IPv6 address.
    pub ip_v6: Option<Ipv6Addr>,
    /// Link condition.
    pub link_condition: Option<LinkCondition>,
}

/// Snapshot of a device interface.
pub struct SnapshotView {
    /// Interface name.
    pub name: Seq<char>,
    /// Name of the router it is connected to.
    pub router: Seq<char>,
    /// IPv4 address.
    pub ip: Option<Ipv4Addr>,
    /// IPv6 address.
    pub ip_v6: Option<Ipv6Addr>,
    /// Link condition.
    pub link_condition: Option<LinkCondition>,
}

impl View for IfaceSnapshot {
    type V = SnapshotView;

    open spec fn view(&self) -> SnapshotView {
        SnapshotView {
            name: self.name@,
            router: self.router@,
            ip: self.ip,
            ip_v6: self.ip_v6,
            link_condition: self.link_condition,
        }
    }
}

impl IfaceSnapshot {
    /// The same snapshot.
    pub fn copy(&self) -> (r: IfaceSnapshot)
        ensures
            r@ == self@,
    {
        IfaceSnapshot {
            name: self.name.clone(),
            router: self.router.clone(),
            ip: self.ip,
            ip_v6: self.ip_v6,
            link_condition: self.link_condition,
        }
    }
}

/// Traffic counters of one interface.
#[derive(Debug)]
pub struct IfaceCounters {
    /// Interface name.
    pub iface: String,
    /// Received bytes.
    pub rx_bytes: u64,
    /// Transmitted bytes.
    pub tx_bytes: u64,
    /// Received packets.
    pub rx_packets: u64,
    /// Transmitted packets.
    pub tx_packets: u64,
}

/// Traffic counters of one interface.
pub struct CountersView {
    /// Interface name.
    pub iface: Seq<char>,
    /// Received bytes.
    pub rx_bytes: u64,
    /// Transmitted bytes.
    pub tx_bytes: u64,
    /// Received packets.
    pub rx_packets: u64,
    /// Transmitted packets.
    pub tx_packets: u64,
}

impl View for IfaceCounters {
    type V = CountersView;

    open spec fn view(&self) -> CountersView {
        CountersView {
            iface: self.iface@,
            rx_bytes: self.rx_bytes,
            tx_bytes: self.tx_bytes,
            rx_packets: self.rx_packets,
            tx_packets: self.tx_packets,
        }
    }
}

impl IfaceCounters {
    /// The same counters.
    pub fn copy(&self) -> (r: IfaceCounters)
        ensures
            r@ == self@,
    {
        IfaceCounters {
            iface: self.iface.clone(),
            rx_bytes: self.rx_bytes,
            tx_bytes: self.tx_bytes,
            rx_packets: self.rx_packets,
            tx_packets: self.tx_packets,
        }
    }
}

/// A wall-clock time.
#[derive(Clone, Copy, Debug, PartialEq, Eq, Structural)]
pub struct Timestamp {
    /// Seconds since 1970.
    pub secs: i64,
    /// Nanoseconds beyond them.
    pub nanos: u32,
}

/// A single lab event with its place in the order of all events.
#[derive(Debug)]
pub struct LabEvent {
    /// Increasing operation id.
    pub opid: u64,
    /// Wall-clock time.
    pub timestamp: Timestamp,
    /// What happened.
    pub kind: LabEventKind,
}

/// What happened.
#[allow(inconsistent_fields)]
#[derive(Debug)]
pub enum LabEventKind {
    /// The lab was created.
    LabCreated {
        /// The lab's prefix.
        lab_prefix: String,
        /// Human-readable label.
        label: Option<String>,
    },
    /// The whole state at once; `None` where it could not be read.
    InitialState {
        /// The state.
        state: Option<Box<LabState>>,
    },
    /// The lab is shutting down.
    LabStopping,
    /// The exchange was created.
    IxCreated {
        /// Bridge name.
        bridge: String,
        /// IPv4 subnet.
        cidr: Ipv4Net,
        /// IPv4 gateway.
        gw: Ipv4Addr,
        /// IPv6 subnet.
        cidr_v6: Ipv6Net,
        /// IPv6 gateway.
        gw_v6: Ipv6Addr,
    },
    /// A router was added.
    RouterAdded {
        /// Router name.
        name: String,
        /// Full router state.
        state: Box<RouterState>,
    },
    /// A router was removed.
    RouterRemoved {
        /// Router name.
        name: String,
    },
    /// A device was added.
    DeviceAdded {
        /// Device name.
        name: String,
        /// Full device state.
        state: DeviceState,
    },
    /// A device was removed.
    DeviceRemoved {
        /// Device name.
        name: String,
    },
    /// A region was added.
    RegionAdded {
        /// Region name.
        name: String,
        /// Router of the region.
        router: String,
    },
    /// Two regions were linked.
    RegionLinkAdded {
        /// First router.
        router_a: String,
        /// Second router.
        router_b: String,
    },
    /// A link between regions was broken or impaired.
    RegionLinkBroken {
        /// First router.
        router_a: String,
        /// Second router.
        router_b: String,
        /// Link condition applied, if any.
        condition: Option<LinkCondition>,
    },
    /// A link between regions was restored.
    RegionLinkRestored {
        /// First router.
        router_a: String,
        /// Second router.
        router_b: String,
    },
    /// A router's NAT changed.
    NatChanged {
        /// Router name.
        router: String,
        /// New NAT configuration.
        nat: Nat,
    },
    /// A router's IPv6 NAT changed.
    NatV6Changed {
        /// Router name.
        router: String,
        /// New IPv6 NAT mode.
        nat_v6: NatV6Mode,
    },
    /// A router's connection tracking was flushed.
    NatStateFlushed {
        /// Router name.
        router: String,
    },
    /// A router's firewall changed.
    FirewallChanged {
        /// Router name.
        router: String,
        /// New firewall.
        firewall: Firewall,
    },
    /// An interface's link condition changed.
    LinkConditionChanged {
        /// Device name.
        device: String,
        /// Interface name.
        iface: String,
        /// New link condition, `None` where it was removed.
        condition: Option<LinkCondition>,
    },
    /// A router's downlink condition changed.
    DownlinkConditionChanged {
        /// Router name.
        router: String,
        /// New condition, `None` where it was removed.
        condition: Option<LinkCondition>,
    },
    /// An interface was brought up.
    LinkUp {
        /// Device name.
        device: String,
        /// Interface name.
        iface: String,
    },
    /// An interface was brought down.
    LinkDown {
        /// Device name.
        device: String,
        /// Interface name.
        iface: String,
    },
    /// An interface was added to a device.
    InterfaceAdded {
        /// Device name.
        device: String,
        /// Interface snapshot.
        iface: IfaceSnapshot,
    },
    /// An interface was removed from a device.
    InterfaceRemoved {
        /// Device name.
        device: String,
        /// Interface name.
        iface_name: String,
    },
    /// An interface was moved to a different router.
    InterfaceReplugged {
        /// Device name.
        device: String,
        /// Interface name.
        iface_name: String,
        /// Previous router.
        from_router: String,
        /// New router.
        to_router: String,
        /// New IPv4 address.
        new_ip: Option<Ipv4Addr>,
        /// New IPv6 address.
        new_ip_v6: Option<Ipv6Addr>,
    },
    /// An interface's address changed.
    DeviceIpChanged {
        /// Device name.
        device: String,
        /// Interface name.
        iface_name: String,
        /// New IPv4 address.
        new_ip: Option<Ipv4Addr>,
        /// New IPv6 address.
        new_ip_v6: Option<Ipv6Addr>,
    },
    /// A command was started.
    CommandSpawned {
        /// Node name.
        node: String,
        /// Process ID.
        pid: u32,
        /// Command line.
        cmd: String,
    },
    /// A command exited.
    CommandExited {
        /// Node name.
        node: String,
        /// Process ID.
        pid: u32,
        /// Exit code, `None` where a signal ended it.
        exit_code: Option<i32>,
    },
    /// Packet counters of a node.
    PacketCounters {
        /// Node name.
        node: String,
        /// Counters by interface.
        counters: Vec<IfaceCounters>,
    },
}

// ── state ────────────────────────────────────────────────────────────

/// State of the exchange.
#[derive(Debug)]
pub struct IxState {
    /// Bridge name.
    pub bridge: String,
    /// IPv4 subnet.
    pub cidr: Ipv4Net,
    /// IPv4 gateway.
    pub gw: Ipv4Addr,
    /// IPv6 subnet.
    pub cidr_v6: Ipv6Net,
    /// IPv6 gateway.
    pub gw_v6: Ipv6Addr,
}

/// State of the exchange.
pub struct IxView {
    /// Bridge name.
    pub bridge: Seq<char>,
    /// IPv4 subnet.
    pub cidr: Ipv4Net,
    /// IPv4 gateway.
    pub gw: Ipv4Addr,
    /// IPv6 subnet.
    pub cidr_v6: Ipv6Net,
    /// IPv6 gateway.
    pub gw_v6: Ipv6Addr,
}

impl View for IxState {
    type V = IxView;

    open spec fn view(&self) -> IxView {
        IxView {
            bridge: self.bridge@,
            cidr: self.cidr,
            gw: self.gw,
            cidr_v6: self.cidr_v6,
            gw_v6: self.gw_v6,
        }
    }
}

/// State of a router.
#[derive(Debug)]
pub struct RouterState {
    /// Namespace name.
    pub ns: String,
    /// Region tag.
    pub region: Option<String>,
    /// NAT configuration.
    pub nat: Nat,
    /// IPv6 NAT mode.
    pub nat_v6: NatV6Mode,
    /// Firewall configuration.
    pub firewall: Firewall,
    /// IP family support.
    pub ip_support: IpSupport,
    /// MTU override.
    pub mtu: Option<u32>,
    /// Parent router, `None` on the exchange.
    pub upstream: Option<String>,
    /// WAN IPv4 address.
    pub uplink_ip: Option<Ipv4Addr>,
    /// WAN IPv6 address.
    pub uplink_ip_v6: Option<Ipv6Addr>,
    /// LAN IPv4 subnet.
    pub downstream_cidr: Option<Ipv4Net>,
    /// LAN IPv4 gateway.
    pub downstream_gw: Option<Ipv4Addr>,
    /// LAN IPv6 subnet.
    pub downstream_cidr_v6: Option<Ipv6Net>,
    /// LAN IPv6 gateway.
    pub downstream_gw_v6: Option<Ipv6Addr>,
    /// Downstream bridge name.
    pub downstream_bridge: String,
    /// Downlink condition.
    pub downlink_condition: Option<LinkCondition>,
    /// Names of downstream devices.
    pub devices: Vec<String>,
    /// Counters by interface.
    pub counters: Vec<IfaceCounters>,
}

/// State of a router.
pub struct RouterStateView {
    /// Namespace name.
    pub ns: Seq<char>,
    /// Region tag.
    pub region: Option<Seq<char>>,
    /// NAT configuration.
    pub nat: Nat,
    /// IPv6 NAT mode.
    pub nat_v6: NatV6Mode,
    /// Firewall configuration.
    pub firewall: PresetView,
    /// IP family support.
    pub ip_support: IpSupport,
    /// MTU override.
    pub mtu: Option<u32>,
    /// Parent router, `None` on the exchange.
    pub upstream: Option<Seq<char>>,
    /// WAN IPv4 address.
    pub uplink_ip: Option<Ipv4Addr>,
    /// WAN IPv6 address.
    pub uplink_ip_v6: Option<Ipv6Addr>,
    /// LAN IPv4 subnet.
    pub downstream_cidr: Option<Ipv4Net>,
    /// LAN IPv4 gateway.
    pub downstream_gw: Option<Ipv4Addr>,
    /// LAN IPv6 subnet.
    pub downstream_cidr_v6: Option<Ipv6Net>,
    /// LAN IPv6 gateway.
    pub downstream_gw_v6: Option<Ipv6Addr>,
    /// Downstream bridge name.
    pub downstream_bridge: Seq<char>,
    /// Downlink condition.
    pub downlink_condition: Option<LinkCondition>,
    /// Names of downstream devices.
    pub devices: Seq<Seq<char>>,
    /// Counters by interface.
    pub counters: Seq<CountersView>,
}

/// The views of a list of counters.
pub open spec fn counter_views(v: Seq<IfaceCounters>) -> Seq<CountersView> {
    Seq::new(v.len(), |i: int| v[i]@)
}

/// The views of a list of snapshots.
pub open spec fn snapshot_views(v: Seq<IfaceSnapshot>) -> Seq<SnapshotView> {
    Seq::new(v.len(), |i: int| v[i]@)
}

impl View for RouterState {
    type V = RouterStateView;

    open spec fn view(&self) -> RouterStateView {
        RouterStateView {
            ns: self.ns@,
            region: opt_view(self.region),
            nat: self.nat,
            nat_v6: self.nat_v6,
            firewall: self.firewall@,
            ip_support: self.ip_support,
            mtu: self.mtu,
            upstream: opt_view(self.upstream),
            uplink_ip: self.uplink_ip,
            uplink_ip_v6: self.uplink_ip_v6,
            downstream_cidr: self.downstream_cidr,
            downstream_gw: self.downstream_gw,
            downstream_cidr_v6: self.downstream_cidr_v6,
            downstream_gw_v6: self.downstream_gw_v6,
            downstream_bridge: self.downstream_bridge@,
            downlink_condition: self.downlink_condition,
            devices: views(self.devices@),
            counters: counter_views(self.counters@),
        }
    }
}

/// State of a device.
#[derive(Debug)]
pub struct DeviceState {
    /// Namespace name.
    pub ns: String,
    /// Default route interface.
    pub default_via: String,
    /// MTU override.
    pub mtu: Option<u32>,
    /// Interfaces.
    pub interfaces: Vec<IfaceSnapshot>,
    /// Counters by interface.
    pub counters: Vec<IfaceCounters>,
}

/// State of a device.
pub struct DeviceStateView {
    /// Namespace name.
    pub ns: Seq<char>,
    /// Default route interface.
    pub default_via: Seq<char>,
    /// MTU override.
    pub mtu: Option<u32>,
    /// Interfaces.
    pub interfaces: Seq<SnapshotView>,
    /// Counters by interface.
    pub counters: Seq<CountersView>,
}

impl View for DeviceState {
    type V = DeviceStateView;

    open spec fn view(&self) -> DeviceStateView {
        DeviceStateView {
            ns: self.ns@,
            default_via: self.default_via@,
            mtu: self.mtu,
            interfaces: snapshot_views(self.interfaces@),
            counters: counter_views(self.counters@),
        }
    }
}

/// State of a region.
#[derive(Debug)]
pub struct RegionState {
    /// Router of the region.
    pub router: String,
}

impl View for RegionState {
    type V = Seq<char>;

    open spec fn view(&self) -> Seq<char> {
        self.router@
    }
}

/// State of a link between regions.
#[derive(Debug)]
pub struct RegionLinkState {
    /// First router.
    pub a: String,
    /// Second router.
    pub b: String,
    /// Link condition, if impaired.
    pub condition: Option<LinkCondition>,
    /// Whether the link is broken.
    pub broken: bool,
}

/// State of a link between regions.
pub struct LinkView {
    /// First router.
    pub a: Seq<char>,
    /// Second router.
    pub b: Seq<char>,
    /// Link condition, if impaired.
    pub condition: Option<LinkCondition>,
    /// Whether the link is broken.
    pub broken: bool,
}

impl View for RegionLinkState {
    type V = LinkView;

    open spec fn view(&self) -> LinkView {
        LinkView { a: self.a@, b: self.b@, condition: self.condition, broken: self.broken }
    }
}

/// The views of a list of links.
pub open spec fn link_views(v: Seq<RegionLinkState>) -> Seq<LinkView> {
    Seq::new(v.len(), |i: int| v[i]@)
}

/// Lab state derived from the event stream.
#[derive(Debug)]
pub struct LabState {
    /// Latest applied operation id.
    pub opid: u64,
    /// Lab prefix.
    pub lab_prefix: String,
    /// Human-readable label.
    pub label: Option<String>,
    /// Lab status (`running`, `stopping`).
    pub status: String,
    /// Lab creation time.
    pub created_at: Option<Timestamp>,
    /// State of the exchange.
    pub ix: Option<IxState>,
    /// Routers by name.
    pub routers: Table<String, RouterState>,
    /// Devices by name.
    pub devices: Table<String, DeviceState>,
    /// Regions by name.
    pub regions: Table<String, RegionState>,
    /// Links between regions.
    pub region_links: Vec<RegionLinkState>,
}

/// Lab state derived from the event stream.
pub struct LabStateView {
    /// Latest applied operation id.
    pub opid: u64,
    /// Lab prefix.
    pub lab_prefix: Seq<char>,
    /// Human-readable label.
    pub label: Option<Seq<char>>,
    /// Lab status.
    pub status: Seq<char>,
    /// Lab creation time.
    pub created_at: Option<Timestamp>,
    /// State of the exchange.
    pub ix: Option<IxView>,
    /// Routers by name.
    pub routers: Map<Seq<char>, RouterStateView>,
    /// Devices by name.
    pub devices: Map<Seq<char>, DeviceStateView>,
    /// Routers of the regions by name.
    pub regions: Map<Seq<char>, Seq<char>>,
    /// Links between regions.
    pub region_links: Seq<LinkView>,
}

impl View for LabState {
    type V = LabStateView;

    open spec fn view(&self) -> LabStateView {
        LabStateView {
            opid: self.opid,
            lab_prefix: self.lab_prefix@,
            label: opt_view(self.label),
            status: self.status@,
            created_at: self.created_at,
            ix: match self.ix {
                Some(ix) => Some(ix@),
                None => None,
            },
            routers: self.routers@,
            devices: self.devices@,
            regions: self.regions@,
            region_links: link_views(self.region_links@),
        }
    }
}

// ── what an event does ───────────────────────────────────────────────

/// A list of names with one more, unless it is there.
pub open spec fn enlist(names: Seq<Seq<char>>, name: Seq<char>) -> Seq<Seq<char>> {
    if names.contains(name) {
        names
    } else {
        names.push(name)
    }
}

/// A list of names without one.
pub open spec fn delist(names: Seq<Seq<char>>, name: Seq<char>) -> Seq<Seq<char>> {
    names.filter(|x: Seq<char>| x != name)
}

/// The routers with one of them changed, if it is there.
pub open spec fn on_router(
    routers: Map<Seq<char>, RouterStateView>,
    name: Seq<char>,
    f: spec_fn(RouterStateView) -> RouterStateView,
) -> Map<Seq<char>, RouterStateView> {
    if routers.contains_key(name) {
        routers.insert(name, f(routers[name]))
    } else {
        routers
    }
}

/// The routers with a device enlisted at one of them.
pub open spec fn enlisted(
    routers: Map<Seq<char>, RouterStateView>,
    router: Seq<char>,
    device: Seq<char>,
) -> Map<Seq<char>, RouterStateView> {
    on_router(
        routers,
        router,
        |r: RouterStateView| RouterStateView { devices: enlist(r.devices, device), ..r },
    )
}

/// The routers with a device taken off the list of one of them.
pub open spec fn delisted(
    routers: Map<Seq<char>, RouterStateView>,
    router: Seq<char>,
    device: Seq<char>,
) -> Map<Seq<char>, RouterStateView> {
    on_router(
        routers,
        router,
        |r: RouterStateView| RouterStateView { devices: delist(r.devices, device), ..r },
    )
}

/// The routers with a device enlisted at those of its first `n` interfaces.
pub open spec fn enlisted_all(
    routers: Map<Seq<char>, RouterStateView>,
    ifs: Seq<SnapshotView>,
    device: Seq<char>,
    n: int,
) -> Map<Seq<char>, RouterStateView>
    decreases n,
{
    if n <= 0 {
        routers
    } else {
        enlisted(enlisted_all(routers, ifs, device, n - 1), ifs[n - 1].router, device)
    }
}

/// The routers with a device taken off the lists of those of its first `n`
/// interfaces.
pub open spec fn delisted_all(
    routers: Map<Seq<char>, RouterStateView>,
    ifs: Seq<SnapshotView>,
    device: Seq<char>,
    n: int,
) -> Map<Seq<char>, RouterStateView>
    decreases n,
{
    if n <= 0 {
        routers
    } else {
        delisted(delisted_all(routers, ifs, device, n - 1), ifs[n - 1].router, device)
    }
}

/// The interfaces with those of one name changed.
pub open spec fn on_ifaces(
    ifs: Seq<SnapshotView>,
    name: Seq<char>,
    f: spec_fn(SnapshotView) -> SnapshotView,
) -> Seq<SnapshotView> {
    ifs.map_values(
        |i: SnapshotView|
            if i.name == name {
                f(i)
            } else {
                i
            },
    )
}

/// The devices with the interfaces of one name on one of them changed.
pub open spec fn on_device_ifaces(
    devices: Map<Seq<char>, DeviceStateView>,
    device: Seq<char>,
    name: Seq<char>,
    f: spec_fn(SnapshotView) -> SnapshotView,
) -> Map<Seq<char>, DeviceStateView> {
    if devices.contains_key(device) {
        let d = devices[device];
        devices.insert(
            device,
            DeviceStateView { interfaces: on_ifaces(d.interfaces, name, f), ..d },
        )
    } else {
        devices
    }
}

/// Whether a link joins the two routers, in either order.
pub open spec fn joins(l: LinkView, a: Seq<char>, b: Seq<char>) -> bool {
    (l.a == a && l.b == b) || (l.a == b && l.b == a)
}

/// The links with those between two routers set to a condition.
pub open spec fn links_set(
    links: Seq<LinkView>,
    a: Seq<char>,
    b: Seq<char>,
    broken: bool,
    condition: Option<LinkCondition>,
) -> Seq<LinkView> {
    links.map_values(
        |l: LinkView|
            if joins(l, a, b) {
                LinkView { broken, condition, ..l }
            } else {
                l
            },
    )
}

/// The router of the first interface of that name, from place `i` on.
pub open spec fn router_of(ifs: Seq<SnapshotView>, name: Seq<char>, i: int) -> Option<Seq<char>>
    decreases ifs.len() - i,
{
    if i < 0 || i >= ifs.len() {
        None
    } else if ifs[i].name == name {
        Some(ifs[i].router)
    } else {
        router_of(ifs, name, i + 1)
    }
}

/// Whether an interface is connected to the router.
pub open spec fn reaches(ifs: Seq<SnapshotView>, router: Seq<char>) -> bool {
    exists|i: int| 0 <= i < ifs.len() && (#[trigger] ifs[i]).router == router
}

/// The interfaces without those of one name.
pub open spec fn without_ifaces(ifs: Seq<SnapshotView>, name: Seq<char>) -> Seq<SnapshotView> {
    ifs.filter(|i: SnapshotView| i.name != name)
}

/// No interface has its counters in the list twice.
pub open spec fn counters_differ(cs: Seq<CountersView>) -> bool {
    forall|i: int, j: int|
        0 <= i < j < cs.len() ==> (#[trigger] cs[i]).iface != (#[trigger] cs[j]).iface
}

/// No node has the counters of an interface twice.
pub open spec fn counters_apart(s: LabStateView) -> bool {
    &&& forall|r: Seq<char>| #[trigger]
        s.routers.contains_key(r) ==> counters_differ(s.routers[r].counters)
    &&& forall|d: Seq<char>| #[trigger]
        s.devices.contains_key(d) ==> counters_differ(s.devices[d].counters)
}

/// The place of the counters of an interface, from place `i` on.
pub open spec fn counter_place(cs: Seq<CountersView>, iface: Seq<char>, i: int) -> Option<int>
    decreases cs.len() - i,
{
    if i < 0 || i >= cs.len() {
        None
    } else if cs[i].iface == iface {
        Some(i)
    } else {
        counter_place(cs, iface, i + 1)
    }
}

/// The counters with those of one interface replaced or added.
pub open spec fn counted(cs: Seq<CountersView>, c: CountersView) -> Seq<CountersView> {
    match counter_place(cs, c.iface, 0) {
        Some(i) => cs.update(i, c),
        None => cs.push(c),
    }
}

/// The counters with the first `n` new ones replaced or added.
pub open spec fn counted_all(cs: Seq<CountersView>, new: Seq<CountersView>, n: int) -> Seq<
    CountersView,
>
    decreases n,
{
    if n <= 0 {
        cs
    } else {
        counted(counted_all(cs, new, n - 1), new[n - 1])
    }
}

/// What an interface's removal does to the routers: the one that the interface
/// was connected to loses the device, unless another interface of the device
/// is connected to it.
pub open spec fn after_removal(
    s: LabStateView,
    device: Seq<char>,
    name: Seq<char>,
) -> Map<Seq<char>, RouterStateView> {
    if !s.devices.contains_key(device) {
        s.routers
    } else {
        let ifs = s.devices[device].interfaces;
        match router_of(ifs, name, 0) {
            None => s.routers,
            Some(router) => if reaches(without_ifaces(ifs, name), router) {
                s.routers
            } else {
                delisted(s.routers, router, device)
            },
        }
    }
}

/// The devices after an interface moved to another router.
pub open spec fn replugged_devices(
    devices: Map<Seq<char>, DeviceStateView>,
    device: Seq<char>,
    name: Seq<char>,
    to: Seq<char>,
    new_ip: Option<Ipv4Addr>,
    new_ip_v6: Option<Ipv6Addr>,
) -> Map<Seq<char>, DeviceStateView> {
    on_device_ifaces(
        devices,
        device,
        name,
        |i: SnapshotView| SnapshotView { router: to, ip: new_ip, ip_v6: new_ip_v6, ..i },
    )
}

/// What an interface's move does to the routers: the one that it leaves loses
/// the device, unless an interface of the device is still connected to it, and
/// the other one gets it.
pub open spec fn after_replug(
    routers: Map<Seq<char>, RouterStateView>,
    moved: Map<Seq<char>, DeviceStateView>,
    device: Seq<char>,
    from: Seq<char>,
    to: Seq<char>,
) -> Map<Seq<char>, RouterStateView> {
    let left = if moved.contains_key(device) && reaches(moved[device].interfaces, from) {
        routers
    } else {
        delisted(routers, from, device)
    };
    enlisted(left, to, device)
}

/// The state after an event.
pub open spec fn reduce(s: LabStateView, e: LabEvent) -> LabStateView {
    let s = LabStateView { opid: e.opid, ..s };
    match e.kind {
        LabEventKind::LabCreated { lab_prefix, label } => LabStateView {
            lab_prefix: lab_prefix@,
            label: opt_view(label),
            status: "running"@,
            created_at: Some(e.timestamp),
            ..s
        },
        LabEventKind::InitialState { state } => match state {
            Some(x) => LabStateView { opid: e.opid, ..(*x)@ },
            None => s,
        },
        LabEventKind::LabStopping => LabStateView { status: "stopping"@, ..s },
        LabEventKind::IxCreated { bridge, cidr, gw, cidr_v6, gw_v6 } => LabStateView {
            ix: Some(IxView { bridge: bridge@, cidr, gw, cidr_v6, gw_v6 }),
            ..s
        },
        LabEventKind::RouterAdded { name, state } => LabStateView {
            routers: s.routers.insert(name@, (*state)@),
            ..s
        },
        LabEventKind::RouterRemoved { name } => LabStateView {
            routers: s.routers.remove(name@),
            ..s
        },
        LabEventKind::DeviceAdded { name, state } => LabStateView {
            routers: enlisted_all(
                s.routers,
                state@.interfaces,
                name@,
                state@.interfaces.len() as int,
            ),
            devices: s.devices.insert(name@, state@),
            ..s
        },
        LabEventKind::DeviceRemoved { name } => LabStateView {
            routers: if s.devices.contains_key(name@) {
                delisted_all(
                    s.routers,
                    s.devices[name@].interfaces,
                    name@,
                    s.devices[name@].interfaces.len() as int,
                )
            } else {
                s.routers
            },
            devices: s.devices.remove(name@),
            ..s
        },
        LabEventKind::RegionAdded { name, router } => LabStateView {
            regions: s.regions.insert(name@, router@),
            ..s
        },
        LabEventKind::RegionLinkAdded { router_a, router_b } => LabStateView {
            region_links: s.region_links.push(
                LinkView { a: router_a@, b: router_b@, condition: None, broken: false },
            ),
            ..s
        },
        LabEventKind::RegionLinkBroken { router_a, router_b, condition } => LabStateView {
            region_links: links_set(s.region_links, router_a@, router_b@, true, condition),
            ..s
        },
        LabEventKind::RegionLinkRestored { router_a, router_b } => LabStateView {
            region_links: links_set(s.region_links, router_a@, router_b@, false, None),
            ..s
        },
        LabEventKind::NatChanged { router, nat: mode } => LabStateView {
            routers: on_router(
                s.routers,
                router@,
                |r: RouterStateView| RouterStateView { nat: mode, ..r },
            ),
            ..s
        },
        LabEventKind::NatV6Changed { router, nat_v6 } => LabStateView {
            routers: on_router(
                s.routers,
                router@,
                |r: RouterStateView| RouterStateView { nat_v6, ..r },
            ),
            ..s
        },
        LabEventKind::NatStateFlushed { .. } => s,
        LabEventKind::FirewallChanged { router, firewall } => LabStateView {
            routers: on_router(
                s.routers,
                router@,
                |r: RouterStateView| RouterStateView { firewall: firewall@, ..r },
            ),
            ..s
        },
        LabEventKind::LinkConditionChanged { device, iface, condition } => LabStateView {
            devices: on_device_ifaces(
                s.devices,
                device@,
                iface@,
                |i: SnapshotView| SnapshotView { link_condition: condition, ..i },
            ),
            ..s
        },
        LabEventKind::DownlinkConditionChanged { router, condition } => LabStateView {
            routers: on_router(
                s.routers,
                router@,
                |r: RouterStateView| RouterStateView { downlink_condition: condition, ..r },
            ),
            ..s
        },
        LabEventKind::LinkUp { .. } => s,
        LabEventKind::LinkDown { .. } => s,
        LabEventKind::InterfaceAdded { device, iface } => LabStateView {
            devices: if s.devices.contains_key(device@) {
                let d = s.devices[device@];
                s.devices.insert(
                    device@,
                    DeviceStateView { interfaces: d.interfaces.push(iface@), ..d },
                )
            } else {
                s.devices
            },
            routers: enlisted(s.routers, iface@.router, device@),
            ..s
        },
        LabEventKind::InterfaceRemoved { device, iface_name } => LabStateView {
            devices: if s.devices.contains_key(device@) {
                let d = s.devices[device@];
                s.devices.insert(
                    device@,
                    DeviceStateView {
                        interfaces: without_ifaces(d.interfaces, iface_name@),
                        ..d
                    },
                )
            } else {
                s.devices
            },
            routers: after_removal(s, device@, iface_name@),
            ..s
        },
        LabEventKind::InterfaceReplugged {
            device,
            iface_name,
            from_router,
            to_router,
            new_ip,
            new_ip_v6,
        } => {
            let moved = replugged_devices(
                s.devices,
                device@,
                iface_name@,
                to_router@,
                new_ip,
                new_ip_v6,
            );
            LabStateView {
                devices: moved,
                routers: after_replug(s.routers, moved, device@, from_router@, to_router@),
                ..s
            }
        },
        LabEventKind::DeviceIpChanged { device, iface_name, new_ip, new_ip_v6 } => LabStateView {
            devices: on_device_ifaces(
                s.devices,
                device@,
                iface_name@,
                |i: SnapshotView| SnapshotView { ip: new_ip, ip_v6: new_ip_v6, ..i },
            ),
            ..s
        },
        LabEventKind::CommandSpawned { .. } => s,
        LabEventKind::CommandExited { .. } => s,
        LabEventKind::PacketCounters { node, counters } => {
            let new = counter_views(counters@);
            if s.routers.contains_key(node@) {
                LabStateView {
                    routers: on_router(
                        s.routers,
                        node@,
                        |r: RouterStateView|
                            RouterStateView {
                                counters: counted_all(r.counters, new, new.len() as int),
                                ..r
                            },
                    ),
                    ..s
                }
            } else if s.devices.contains_key(node@) {
                let d = s.devices[node@];
                LabStateView {
                    devices: s.devices.insert(
                        node@,
                        DeviceStateView {
                            counters: counted_all(d.counters, new, new.len() as int),
                            ..d
                        },
                    ),
                    ..s
                }
            } else {
                s
            }
        },
    }
}

// ── copies and list operations ───────────────────────────────────────

fn copy_opt(s: &Option<String>) -> (r: Option<String>)
    ensures
        opt_view(r) == opt_view(*s),
{
    match s {
        Some(t) => Some(t.clone()),
        None => None,
    }
}

fn copy_counters(v: &Vec<IfaceCounters>) -> (r: Vec<IfaceCounters>)
    ensures
        counter_views(r@) == counter_views(v@),
{
    let mut out: Vec<IfaceCounters> = Vec::new();
    let mut i: usize = 0;
    while i < v.len()
        invariant
            i <= v.len(),
            out.len() == i,
            forall|j: int| 0 <= j < i ==> (#[trigger] out@[j])@ == v@[j]@,
        decreases v.len() - i,
    {
        out.push(v[i].copy());
        i += 1;
    }
    assert(counter_views(out@) =~= counter_views(v@));
    out
}

fn copy_snapshots(v: &Vec<IfaceSnapshot>) -> (r: Vec<IfaceSnapshot>)
    ensures
        snapshot_views(r@) == snapshot_views(v@),
{
    let mut out: Vec<IfaceSnapshot> = Vec::new();
    let mut i: usize = 0;
    while i < v.len()
        invariant
            i <= v.len(),
            out.len() == i,
            forall|j: int| 0 <= j < i ==> (#[trigger] out@[j])@ == v@[j]@,
        decreases v.len() - i,
    {
        out.push(v[i].copy());
        i += 1;
    }
    assert(snapshot_views(out@) =~= snapshot_views(v@));
    out
}

impl RouterState {
    /// The same state.
    pub fn copy(&self) -> (r: RouterState)
        ensures
            r@ == self@,
    {
        RouterState {
            ns: self.ns.clone(),
            region: copy_opt(&self.region),
            nat: self.nat,
            nat_v6: self.nat_v6,
            firewall: self.firewall.copy(),
            ip_support: self.ip_support,
            mtu: self.mtu,
            upstream: copy_opt(&self.upstream),
            uplink_ip: self.uplink_ip,
            uplink_ip_v6: self.uplink_ip_v6,
            downstream_cidr: self.downstream_cidr,
            downstream_gw: self.downstream_gw,
            downstream_cidr_v6: self.downstream_cidr_v6,
            downstream_gw_v6: self.downstream_gw_v6,
            downstream_bridge: self.downstream_bridge.clone(),
            downlink_condition: self.downlink_condition,
            devices: clone_strings(&self.devices),
            counters: copy_counters(&self.counters),
        }
    }

    /// The state of a router of the topology.
    pub fn from_router_data(
        r: &RouterData,
        upstream_name: Option<String>,
        downstream_bridge: String,
    ) -> (out: RouterState)
        ensures
            out@ == (RouterStateView {
                ns: r@.ns,
                region: r@.region,
                nat: match r@.cfg.nat {
                    Some(c) => Nat::Custom(c),
                    None => Nat::Off,
                },
                nat_v6: r@.cfg.nat_v6,
                firewall: r@.cfg.firewall@,
                ip_support: r@.cfg.ip_support,
                mtu: r@.cfg.mtu,
                upstream: opt_view(upstream_name),
                uplink_ip: r@.upstream_ip,
                uplink_ip_v6: r@.upstream_ip_v6,
                downstream_cidr: r@.downstream_cidr,
                downstream_gw: r@.downstream_gw,
                downstream_cidr_v6: r@.downstream_cidr_v6,
                downstream_gw_v6: r@.downstream_gw_v6,
                downstream_bridge: downstream_bridge@,
                downlink_condition: None,
                devices: Seq::empty(),
                counters: Seq::empty(),
            }),
    {
        let out = RouterState {
            ns: r.ns.clone(),
            region: copy_opt(&r.region),
            nat: match r.cfg.nat {
                Some(c) => Nat::Custom(c),
                None => Nat::Off,
            },
            nat_v6: r.cfg.nat_v6,
            firewall: r.cfg.firewall.copy(),
            ip_support: r.cfg.ip_support,
            mtu: r.cfg.mtu,
            upstream: upstream_name,
            uplink_ip: r.upstream_ip,
            uplink_ip_v6: r.upstream_ip_v6,
            downstream_cidr: r.downstream_cidr,
            downstream_gw: r.downstream_gw,
            downstream_cidr_v6: r.downstream_cidr_v6,
            downstream_gw_v6: r.downstream_gw_v6,
            downstream_bridge,
            downlink_condition: None,
            devices: Vec::new(),
            counters: Vec::new(),
        };
        assert(out@.devices =~= Seq::<Seq<char>>::empty());
        assert(out@.counters =~= Seq::<CountersView>::empty());
        out
    }
}

/// The name of the router that an interface is connected to, empty where there
/// is none.
pub open spec fn router_name(c: CoreView, i: IfaceView) -> Seq<char> {
    match i.uplink() {
        Some(sw) => if c.switches.contains_key(sw) && c.switches[sw].owner_router is Some
            && c.routers.contains_key(c.switches[sw].owner_router->0) {
            c.routers[c.switches[sw].owner_router->0].name
        } else {
            Seq::empty()
        },
        None => Seq::empty(),
    }
}

/// The snapshot of an interface of the topology.
pub open spec fn snapshot_of(c: CoreView, i: IfaceView) -> SnapshotView {
    SnapshotView {
        name: i.ifname,
        router: router_name(c, i),
        ip: i.ip,
        ip_v6: i.ip_v6,
        link_condition: i.egress,
    }
}

impl DeviceState {
    /// The same state.
    pub fn copy(&self) -> (r: DeviceState)
        ensures
            r@ == self@,
    {
        DeviceState {
            ns: self.ns.clone(),
            default_via: self.default_via.clone(),
            mtu: self.mtu,
            interfaces: copy_snapshots(&self.interfaces),
            counters: copy_counters(&self.counters),
        }
    }

    /// The snapshot of an interface of a device.
    pub fn snapshot(d: &DeviceData, i: usize, core: &NetworkCore) -> (r: IfaceSnapshot)
        requires
            core.wf(),
            i < d.interfaces.len(),
        ensures
            r@ == snapshot_of(core@, d@.interfaces[i as int]),
    {
        let iface = &d.interfaces[i];
        let mut router = String::new();
        if let Some(sw_id) = iface.uplink() {
            if let Some(sw) = core.switches.get(&sw_id) {
                if let Some(rid) = sw.owner_router {
                    if let Some(x) = core.routers.get(&rid) {
                        router = x.name.clone();
                    }
                }
            }
        }
        IfaceSnapshot {
            name: iface.ifname.clone(),
            router,
            ip: iface.ip,
            ip_v6: iface.ip_v6,
            link_condition: iface.egress,
        }
    }

    /// The state of a device of the topology, with the names of the routers it
    /// is connected to.
    pub fn from_device_data(d: &DeviceData, core: &NetworkCore) -> (r: DeviceState)
        requires
            core.wf(),
        ensures
            r@ == (DeviceStateView {
                ns: d@.ns,
                default_via: d@.default_via,
                mtu: d@.mtu,
                interfaces: d@.interfaces.map_values(|i: IfaceView| snapshot_of(core@, i)),
                counters: Seq::empty(),
            }),
    {
        let mut interfaces: Vec<IfaceSnapshot> = Vec::new();
        let mut i: usize = 0;
        while i < d.interfaces.len()
            invariant
                core.wf(),
                i <= d.interfaces.len(),
                interfaces.len() == i,
                forall|j: int|
                    0 <= j < i ==> (#[trigger] interfaces@[j])@ == snapshot_of(
                        core@,
                        d@.interfaces[j],
                    ),
            decreases d.interfaces.len() - i,
        {
            interfaces.push(DeviceState::snapshot(d, i, core));
            i += 1;
        }
        let r = DeviceState {
            ns: d.ns.clone(),
            default_via: d.default_via.clone(),
            mtu: d.mtu,
            interfaces,
            counters: Vec::new(),
        };
        assert(r@.interfaces =~= d@.interfaces.map_values(
            |i: IfaceView| snapshot_of(core@, i),
        ));
        assert(r@.counters =~= Seq::<CountersView>::empty());
        r
    }
}

fn enlist_name(v: &mut Vec<String>, name: &str)
    ensures
        views(final(v)@) == enlist(views(old(v)@), name@),
{
    let mut i: usize = 0;
    while i < v.len()
        invariant
            i <= v.len(),
            *v == *old(v),
            forall|j: int| 0 <= j < i ==> (#[trigger] views(v@)[j]) != name@,
        decreases v.len() - i,
    {
        if str_eq(v[i].as_str(), name) {
            assert(views(v@)[i as int] == name@);
            return;
        }
        assert(views(v@)[i as int] != name@);
        i += 1;
    }
    assert(!views(v@).contains(name@));
    v.push(name.to_owned());
    assert(views(v@) =~= views(old(v)@).push(name@));
}

fn delist_name(v: &mut Vec<String>, name: &str)
    ensures
        views(final(v)@) == delist(views(old(v)@), name@),
{
    let ghost all = views(v@);
    let mut out: Vec<String> = Vec::new();
    let mut i: usize = 0;
    proof {
        reveal(Seq::filter);
        assert(views(out@) =~= delist(all.take(0), name@));
    }
    while i < v.len()
        invariant
            i <= v.len(),
            *v == *old(v),
            all == views(v@),
            views(out@) == delist(all.take(i as int), name@),
        decreases v.len() - i,
    {
        let ghost done = views(out@);
        proof {
            reveal(Seq::filter);
            assert(all.take(i as int + 1).drop_last() =~= all.take(i as int));
            assert(all.take(i as int + 1).last() == v@[i as int]@);
        }
        if !str_eq(v[i].as_str(), name) {
            out.push(v[i].clone());
            assert(views(out@) =~= done.push(v@[i as int]@));
        }
        i += 1;
    }
    assert(all.take(v.len() as int) =~= all);
    *v = out;
}

fn put_counter(v: &mut Vec<IfaceCounters>, c: &IfaceCounters)
    ensures
        counter_views(final(v)@) == counted(counter_views(old(v)@), c@),
{
    let mut i: usize = 0;
    while i < v.len()
        invariant
            i <= v.len(),
            *v == *old(v),
            counter_place(counter_views(v@), c@.iface, 0) == counter_place(
                counter_views(v@),
                c@.iface,
                i as int,
            ),
        decreases v.len() - i,
    {
        if v[i].iface == c.iface {
            v.set(i, c.copy());
            assert(counter_views(v@) =~= counter_views(old(v)@).update(i as int, c@));
            return;
        }
        i += 1;
    }
    v.push(c.copy());
    assert(counter_views(v@) =~= counter_views(old(v)@).push(c@));
}

fn put_counters(v: &mut Vec<IfaceCounters>, new: &Vec<IfaceCounters>)
    ensures
        counter_views(final(v)@) == counted_all(
            counter_views(old(v)@),
            counter_views(new@),
            new@.len() as int,
        ),
{
    let mut i: usize = 0;
    while i < new.len()
        invariant
            i <= new.len(),
            counter_views(v@) == counted_all(
                counter_views(old(v)@),
                counter_views(new@),
                i as int,
            ),
        decreases new.len() - i,
    {
        put_counter(v, &new[i]);
        i += 1;
    }
}

fn set_condition(v: &mut Vec<IfaceSnapshot>, name: &str, condition: Option<LinkCondition>)
    ensures
        snapshot_views(final(v)@) == on_ifaces(
            snapshot_views(old(v)@),
            name@,
            |i: SnapshotView| SnapshotView { link_condition: condition, ..i },
        ),
{
    let ghost f = |i: SnapshotView| SnapshotView { link_condition: condition, ..i };
    let ghost all = snapshot_views(v@);
    let mut i: usize = 0;
    while i < v.len()
        invariant
            i <= v.len(),
            v.len() == all.len(),
            f == (|i: SnapshotView| SnapshotView { link_condition: condition, ..i }),
            forall|j: int|
                0 <= j < i ==> (#[trigger] v@[j])@ == on_ifaces(all, name@, f)[j],
            forall|j: int| i <= j < v.len() ==> (#[trigger] v@[j])@ == all[j],
        decreases v.len() - i,
    {
        let mut s = v[i].copy();
        if str_eq(s.name.as_str(), name) {
            s.link_condition = condition;
        }
        v.set(i, s);
        i += 1;
    }
    assert(snapshot_views(v@) =~= on_ifaces(all, name@, f));
}

fn set_address(
    v: &mut Vec<IfaceSnapshot>,
    name: &str,
    ip: Option<Ipv4Addr>,
    ip_v6: Option<Ipv6Addr>,
)
    ensures
        snapshot_views(final(v)@) == on_ifaces(
            snapshot_views(old(v)@),
            name@,
            |i: SnapshotView| SnapshotView { ip, ip_v6, ..i },
        ),
{
    let ghost f = |i: SnapshotView| SnapshotView { ip, ip_v6, ..i };
    let ghost all = snapshot_views(v@);
    let mut i: usize = 0;
    while i < v.len()
        invariant
            i <= v.len(),
            v.len() == all.len(),
            f == (|i: SnapshotView| SnapshotView { ip, ip_v6, ..i }),
            forall|j: int|
                0 <= j < i ==> (#[trigger] v@[j])@ == on_ifaces(all, name@, f)[j],
            forall|j: int| i <= j < v.len() ==> (#[trigger] v@[j])@ == all[j],
        decreases v.len() - i,
    {
        let mut s = v[i].copy();
        if str_eq(s.name.as_str(), name) {
            s.ip = ip;
            s.ip_v6 = ip_v6;
        }
        v.set(i, s);
        i += 1;
    }
    assert(snapshot_views(v@) =~= on_ifaces(all, name@, f));
}

fn set_router(
    v: &mut Vec<IfaceSnapshot>,
    name: &str,
    router: &str,
    ip: Option<Ipv4Addr>,
    ip_v6: Option<Ipv6Addr>,
)
    ensures
        snapshot_views(final(v)@) == on_ifaces(
            snapshot_views(old(v)@),
            name@,
            |i: SnapshotView| SnapshotView { router: router@, ip, ip_v6, ..i },
        ),
{
    let ghost f = |i: SnapshotView| SnapshotView { router: router@, ip, ip_v6, ..i };
    let ghost all = snapshot_views(v@);
    let mut i: usize = 0;
    while i < v.len()
        invariant
            i <= v.len(),
            v.len() == all.len(),
            f == (|i: SnapshotView| SnapshotView { router: router@, ip, ip_v6, ..i }),
            forall|j: int|
                0 <= j < i ==> (#[trigger] v@[j])@ == on_ifaces(all, name@, f)[j],
            forall|j: int| i <= j < v.len() ==> (#[trigger] v@[j])@ == all[j],
        decreases v.len() - i,
    {
        let mut s = v[i].copy();
        if str_eq(s.name.as_str(), name) {
            s.router = router.to_owned();
            s.ip = ip;
            s.ip_v6 = ip_v6;
        }
        v.set(i, s);
        i += 1;
    }
    assert(snapshot_views(v@) =~= on_ifaces(all, name@, f));
}

fn drop_ifaces(v: &mut Vec<IfaceSnapshot>, name: &str)
    ensures
        snapshot_views(final(v)@) == without_ifaces(snapshot_views(old(v)@), name@),
{
    let ghost all = snapshot_views(v@);
    let mut out: Vec<IfaceSnapshot> = Vec::new();
    let mut i: usize = 0;
    proof {
        reveal(Seq::filter);
        assert(snapshot_views(out@) =~= without_ifaces(all.take(0), name@));
    }
    while i < v.len()
        invariant
            i <= v.len(),
            *v == *old(v),
            all == snapshot_views(v@),
            snapshot_views(out@) == without_ifaces(all.take(i as int), name@),
        decreases v.len() - i,
    {
        let ghost done = snapshot_views(out@);
        proof {
            reveal(Seq::filter);
            assert(all.take(i as int + 1).drop_last() =~= all.take(i as int));
            assert(all.take(i as int + 1).last() == v@[i as int]@);
        }
        if !str_eq(v[i].name.as_str(), name) {
            out.push(v[i].copy());
            assert(snapshot_views(out@) =~= done.push(v@[i as int]@));
        }
        i += 1;
    }
    assert(all.take(v.len() as int) =~= all);
    *v = out;
}

fn find_router(v: &Vec<IfaceSnapshot>, name: &str) -> (r: Option<String>)
    ensures
        opt_view(r) == router_of(snapshot_views(v@), name@, 0),
{
    let mut i: usize = 0;
    while i < v.len()
        invariant
            i <= v.len(),
            router_of(snapshot_views(v@), name@, 0) == router_of(
                snapshot_views(v@),
                name@,
                i as int,
            ),
        decreases v.len() - i,
    {
        if str_eq(v[i].name.as_str(), name) {
            return Some(v[i].router.clone());
        }
        i += 1;
    }
    None
}

fn reaches_router(v: &Vec<IfaceSnapshot>, router: &str) -> (r: bool)
    ensures
        r == reaches(snapshot_views(v@), router@),
{
    let mut i: usize = 0;
    while i < v.len()
        invariant
            i <= v.len(),
            forall|j: int| 0 <= j < i ==> (#[trigger] snapshot_views(v@)[j]).router != router@,
        decreases v.len() - i,
    {
        if str_eq(v[i].router.as_str(), router) {
            assert(snapshot_views(v@)[i as int].router == router@);
            return true;
        }
        assert(snapshot_views(v@)[i as int].router != router@);
        i += 1;
    }
    false
}

fn set_links(
    v: &mut Vec<RegionLinkState>,
    a: &str,
    b: &str,
    broken: bool,
    condition: Option<LinkCondition>,
)
    ensures
        link_views(final(v)@) == links_set(link_views(old(v)@), a@, b@, broken, condition),
{
    let ghost all = link_views(v@);
    let mut i: usize = 0;
    while i < v.len()
        invariant
            i <= v.len(),
            v.len() == all.len(),
            forall|j: int|
                0 <= j < i ==> (#[trigger] v@[j])@ == links_set(all, a@, b@, broken, condition)[j],
            forall|j: int| i <= j < v.len() ==> (#[trigger] v@[j])@ == all[j],
        decreases v.len() - i,
    {
        let hit = (str_eq(v[i].a.as_str(), a) && str_eq(v[i].b.as_str(), b)) || (str_eq(
            v[i].a.as_str(),
            b,
        ) && str_eq(v[i].b.as_str(), a));
        if hit {
            let l = RegionLinkState {
                a: v[i].a.clone(),
                b: v[i].b.clone(),
                condition,
                broken,
            };
            v.set(i, l);
        }
        i += 1;
    }
    assert(link_views(v@) =~= links_set(all, a@, b@, broken, condition));
}

fn enlist_at(routers: &mut Table<String, RouterState>, router: &String, device: &str)
    requires
        old(routers).wf(),
    ensures
        final(routers).wf(),
        final(routers)@ == enlisted(old(routers)@, router@, device@),
{
    if let Some(r) = routers.get_mut(router) {
        enlist_name(&mut r.devices, device);
    }
}

fn delist_at(routers: &mut Table<String, RouterState>, router: &String, device: &str)
    requires
        old(routers).wf(),
    ensures
        final(routers).wf(),
        final(routers)@ == delisted(old(routers)@, router@, device@),
{
    if let Some(r) = routers.get_mut(router) {
        delist_name(&mut r.devices, device);
    }
}

fn copy_routers(t: &Table<String, RouterState>) -> (r: Table<String, RouterState>)
    requires
        t.wf(),
    ensures
        r.wf(),
        r@ == t@,
{
    let mut out: Table<String, RouterState> = Table::new();
    let n = t.len();
    let mut i: usize = 0;
    assert(out.pairs() =~= t.pairs().take(0));
    while i < n
        invariant
            t.wf(),
            out.wf(),
            i <= n == t.pairs().len(),
            out.pairs() == t.pairs().take(i as int),
        decreases n - i,
    {
        let (k, v) = t.at(i);
        proof {
            key_is_new(*t, out, i as int);
        }
        out.insert(k.clone(), v.copy());
        assert(out.pairs() =~= t.pairs().take(i as int + 1));
        i += 1;
    }
    assert(t.pairs().take(n as int) =~= t.pairs());
    proof {
        same_pairs_same_map(out, *t);
    }
    out
}

fn copy_devices(t: &Table<String, DeviceState>) -> (r: Table<String, DeviceState>)
    requires
        t.wf(),
    ensures
        r.wf(),
        r@ == t@,
{
    let mut out: Table<String, DeviceState> = Table::new();
    let n = t.len();
    let mut i: usize = 0;
    assert(out.pairs() =~= t.pairs().take(0));
    while i < n
        invariant
            t.wf(),
            out.wf(),
            i <= n == t.pairs().len(),
            out.pairs() == t.pairs().take(i as int),
        decreases n - i,
    {
        let (k, v) = t.at(i);
        proof {
            key_is_new(*t, out, i as int);
        }
        out.insert(k.clone(), v.copy());
        assert(out.pairs() =~= t.pairs().take(i as int + 1));
        i += 1;
    }
    assert(t.pairs().take(n as int) =~= t.pairs());
    proof {
        same_pairs_same_map(out, *t);
    }
    out
}

fn copy_regions(t: &Table<String, RegionState>) -> (r: Table<String, RegionState>)
    requires
        t.wf(),
    ensures
        r.wf(),
        r@ == t@,
{
    let mut out: Table<String, RegionState> = Table::new();
    let n = t.len();
    let mut i: usize = 0;
    assert(out.pairs() =~= t.pairs().take(0));
    while i < n
        invariant
            t.wf(),
            out.wf(),
            i <= n == t.pairs().len(),
            out.pairs() == t.pairs().take(i as int),
        decreases n - i,
    {
        let (k, v) = t.at(i);
        proof {
            key_is_new(*t, out, i as int);
        }
        out.insert(k.clone(), RegionState { router: v.router.clone() });
        assert(out.pairs() =~= t.pairs().take(i as int + 1));
        i += 1;
    }
    assert(t.pairs().take(n as int) =~= t.pairs());
    proof {
        same_pairs_same_map(out, *t);
    }
    out
}

fn copy_links(v: &Vec<RegionLinkState>) -> (r: Vec<RegionLinkState>)
    ensures
        link_views(r@) == link_views(v@),
{
    let mut out: Vec<RegionLinkState> = Vec::new();
    let mut i: usize = 0;
    while i < v.len()
        invariant
            i <= v.len(),
            out.len() == i,
            forall|j: int| 0 <= j < i ==> (#[trigger] out@[j])@ == v@[j]@,
        decreases v.len() - i,
    {
        out.push(
            RegionLinkState {
                a: v[i].a.clone(),
                b: v[i].b.clone(),
                condition: v[i].condition,
                broken: v[i].broken,
            },
        );
        i += 1;
    }
    assert(link_views(out@) =~= link_views(v@));
    out
}

impl LabEvent {
    /// A whole state in an event is well formed, and a node that is added has
    /// the counters of no interface twice.
    pub open spec fn wf(self) -> bool {
        match self.kind {
            LabEventKind::InitialState { state } => state is Some ==> (*state->0).wf(),
            LabEventKind::RouterAdded { state, .. } => counters_differ((*state)@.counters),
            LabEventKind::DeviceAdded { state, .. } => counters_differ(state@.counters),
            _ => true,
        }
    }
}

impl Default for LabState {
    fn default() -> (r: LabState)
        ensures
            r.wf(),
            r@ == (LabStateView {
                opid: 0,
                lab_prefix: Seq::empty(),
                label: None,
                status: Seq::empty(),
                created_at: None,
                ix: None,
                routers: Map::empty(),
                devices: Map::empty(),
                regions: Map::empty(),
                region_links: Seq::empty(),
            }),
    {
        let r = LabState {
            opid: 0,
            lab_prefix: String::new(),
            label: None,
            status: String::new(),
            created_at: None,
            ix: None,
            routers: Table::new(),
            devices: Table::new(),
            regions: Table::new(),
            region_links: Vec::new(),
        };
        assert(r@.region_links =~= Seq::<LinkView>::empty());
        r
    }
}

impl LabState {
    /// No name occurs twice among routers, devices or regions.
    pub open spec fn tables_wf(self) -> bool {
        self.routers.wf() && self.devices.wf() && self.regions.wf()
    }

    /// No name occurs twice among routers, devices or regions, nor among the
    /// interfaces that a node has counters of.
    pub open spec fn wf(self) -> bool {
        self.tables_wf() && counters_apart(self@)
    }

    /// The same state.
    pub fn copy(&self) -> (r: LabState)
        requires
            self.wf(),
        ensures
            r.wf(),
            r@ == self@,
    {
        LabState {
            opid: self.opid,
            lab_prefix: self.lab_prefix.clone(),
            label: copy_opt(&self.label),
            status: self.status.clone(),
            created_at: self.created_at,
            ix: match &self.ix {
                Some(ix) => Some(
                    IxState {
                        bridge: ix.bridge.clone(),
                        cidr: ix.cidr,
                        gw: ix.gw,
                        cidr_v6: ix.cidr_v6,
                        gw_v6: ix.gw_v6,
                    },
                ),
                None => None,
            },
            routers: copy_routers(&self.routers),
            devices: copy_devices(&self.devices),
            regions: copy_regions(&self.regions),
            region_links: copy_links(&self.region_links),
        }
    }

    fn add_device(&mut self, name: &String, state: &DeviceState)
        requires
            old(self).tables_wf(),
        ensures
            final(self).tables_wf(),
            final(self)@ == (LabStateView {
                routers: enlisted_all(
                    old(self)@.routers,
                    state@.interfaces,
                    name@,
                    state@.interfaces.len() as int,
                ),
                devices: old(self)@.devices.insert(name@, state@),
                ..old(self)@
            }),
    {
        let mut i: usize = 0;
        while i < state.interfaces.len()
            invariant
                self.tables_wf(),
                i <= state.interfaces.len(),
                self@ == (LabStateView {
                    routers: enlisted_all(
                        old(self)@.routers,
                        state@.interfaces,
                        name@,
                        i as int,
                    ),
                    ..old(self)@
                }),
            decreases state.interfaces.len() - i,
        {
            enlist_at(&mut self.routers, &state.interfaces[i].router, name.as_str());
            i += 1;
        }
        self.devices.insert(name.clone(), state.copy());
    }

    fn remove_device(&mut self, name: &String)
        requires
            old(self).tables_wf(),
        ensures
            final(self).tables_wf(),
            final(self)@ == (LabStateView {
                routers: if old(self)@.devices.contains_key(name@) {
                    delisted_all(
                        old(self)@.routers,
                        old(self)@.devices[name@].interfaces,
                        name@,
                        old(self)@.devices[name@].interfaces.len() as int,
                    )
                } else {
                    old(self)@.routers
                },
                devices: old(self)@.devices.remove(name@),
                ..old(self)@
            }),
    {
        if let Some(dev) = self.devices.remove(name) {
            let mut i: usize = 0;
            while i < dev.interfaces.len()
                invariant
                    self.tables_wf(),
                    i <= dev.interfaces.len(),
                    self@ == (LabStateView {
                        routers: delisted_all(
                            old(self)@.routers,
                            dev@.interfaces,
                            name@,
                            i as int,
                        ),
                        devices: old(self)@.devices.remove(name@),
                        ..old(self)@
                    }),
                decreases dev.interfaces.len() - i,
            {
                delist_at(&mut self.routers, &dev.interfaces[i].router, name.as_str());
                i += 1;
            }
        }
    }

    fn remove_iface(&mut self, device: &String, name: &String)
        requires
            old(self).tables_wf(),
        ensures
            final(self).tables_wf(),
            final(self)@ == (LabStateView {
                devices: if old(self)@.devices.contains_key(device@) {
                    let d = old(self)@.devices[device@];
                    old(self)@.devices.insert(
                        device@,
                        DeviceStateView {
                            interfaces: without_ifaces(d.interfaces, name@),
                            ..d
                        },
                    )
                } else {
                    old(self)@.devices
                },
                routers: after_removal(old(self)@, device@, name@),
                ..old(self)@
            }),
    {
        let router = match self.devices.get(device) {
            None => {
                return;
            },
            Some(d) => find_router(&d.interfaces, name.as_str()),
        };
        let mut still = false;
        if let Some(d) = self.devices.get_mut(device) {
            drop_ifaces(&mut d.interfaces, name.as_str());
            if let Some(rn) = &router {
                still = reaches_router(&d.interfaces, rn.as_str());
            }
        }
        if let Some(rn) = &router {
            if !still {
                delist_at(&mut self.routers, rn, device.as_str());
            }
        }
    }

    /// Apply an event to update the state.
    pub fn apply(&mut self, event: &LabEvent)
        requires
            old(self).wf(),
            event.wf(),
        ensures
            final(self).wf(),
            final(self)@ == reduce(old(self)@, *event),
    {
        self.opid = event.opid;
        match &event.kind {
            LabEventKind::LabCreated { lab_prefix, label } => {
                self.lab_prefix = lab_prefix.clone();
                self.label = copy_opt(label);
                self.status = "running".to_owned();
                self.created_at = Some(event.timestamp);
            },
            LabEventKind::InitialState { state } => {
                if let Some(x) = state {
                    *self = x.copy();
                    self.opid = event.opid;
                }
            },
            LabEventKind::LabStopping => {
                self.status = "stopping".to_owned();
            },
            LabEventKind::IxCreated { bridge, cidr, gw, cidr_v6, gw_v6 } => {
                self.ix = Some(
                    IxState {
                        bridge: bridge.clone(),
                        cidr: *cidr,
                        gw: *gw,
                        cidr_v6: *cidr_v6,
                        gw_v6: *gw_v6,
                    },
                );
            },
            LabEventKind::RouterAdded { name, state } => {
                self.routers.insert(name.clone(), state.copy());
            },
            LabEventKind::RouterRemoved { name } => {
                self.routers.remove(name);
            },
            LabEventKind::DeviceAdded { name, state } => {
                self.add_device(name, state);
            },
            LabEventKind::DeviceRemoved { name } => {
                self.remove_device(name);
            },
            LabEventKind::RegionAdded { name, router } => {
                self.regions.insert(name.clone(), RegionState { router: router.clone() });
            },
            LabEventKind::RegionLinkAdded { router_a, router_b } => {
                let link = RegionLinkState {
                    a: router_a.clone(),
                    b: router_b.clone(),
                    condition: None,
                    broken: false,
                };
                let ghost before = link_views(self.region_links@);
                self.region_links.push(link);
                assert(link_views(self.region_links@) =~= before.push(link@));
            },
            LabEventKind::RegionLinkBroken { router_a, router_b, condition } => {
                set_links(
                    &mut self.region_links,
                    router_a.as_str(),
                    router_b.as_str(),
                    true,
                    *condition,
                );
            },
            LabEventKind::RegionLinkRestored { router_a, router_b } => {
                set_links(
                    &mut self.region_links,
                    router_a.as_str(),
                    router_b.as_str(),
                    false,
                    None,
                );
            },
            LabEventKind::NatChanged { router, nat: mode } => {
                if let Some(r) = self.routers.get_mut(router) {
                    r.nat = *mode;
                }
            },
            LabEventKind::NatV6Changed { router, nat_v6 } => {
                if let Some(r) = self.routers.get_mut(router) {
                    r.nat_v6 = *nat_v6;
                }
            },
            LabEventKind::NatStateFlushed { .. } => {},
            LabEventKind::FirewallChanged { router, firewall } => {
                if let Some(r) = self.routers.get_mut(router) {
                    r.firewall = firewall.copy();
                }
            },
            LabEventKind::LinkConditionChanged { device, iface, condition } => {
                if let Some(d) = self.devices.get_mut(device) {
                    set_condition(&mut d.interfaces, iface.as_str(), *condition);
                }
            },
            LabEventKind::DownlinkConditionChanged { router, condition } => {
                if let Some(r) = self.routers.get_mut(router) {
                    r.downlink_condition = *condition;
                }
            },
            LabEventKind::LinkUp { .. } => {},
            LabEventKind::LinkDown { .. } => {},
            LabEventKind::InterfaceAdded { device, iface } => {
                if let Some(d) = self.devices.get_mut(device) {
                    let ghost before = snapshot_views(d.interfaces@);
                    let s = iface.copy();
                    d.interfaces.push(s);
                    assert(snapshot_views(d.interfaces@) =~= before.push(s@));
                }
                enlist_at(&mut self.routers, &iface.router, device.as_str());
            },
            LabEventKind::InterfaceRemoved { device, iface_name } => {
                self.remove_iface(device, iface_name);
            },
            LabEventKind::InterfaceReplugged {
                device,
                iface_name,
                from_router,
                to_router,
                new_ip,
                new_ip_v6,
            } => {
                let mut still = false;
                if let Some(d) = self.devices.get_mut(device) {
                    set_router(
                        &mut d.interfaces,
                        iface_name.as_str(),
                        to_router.as_str(),
                        *new_ip,
                        *new_ip_v6,
                    );
                    still = reaches_router(&d.interfaces, from_router.as_str());
                }
                if !still {
                    delist_at(&mut self.routers, from_router, device.as_str());
                }
                enlist_at(&mut self.routers, to_router, device.as_str());
            },
            LabEventKind::DeviceIpChanged { device, iface_name, new_ip, new_ip_v6 } => {
                if let Some(d) = self.devices.get_mut(device) {
                    set_address(&mut d.interfaces, iface_name.as_str(), *new_ip, *new_ip_v6);
                }
            },
            LabEventKind::CommandSpawned { .. } => {},
            LabEventKind::CommandExited { .. } => {},
            LabEventKind::PacketCounters { node, counters } => {
                if self.routers.contains_key(node) {
                    if let Some(r) = self.routers.get_mut(node) {
                        put_counters(&mut r.counters, counters);
                    }
                } else if let Some(d) = self.devices.get_mut(node) {
                    put_counters(&mut d.counters, counters);
                }
            },
        }
        proof {
            counters_stay_apart(old(self)@, *event);
        }
    }
}

/// The counters of an interface, where a node has them.
pub open spec fn counters_of(cs: Seq<CountersView>, iface: Seq<char>) -> Option<CountersView> {
    match counter_place(cs, iface, 0) {
        Some(i) => Some(cs[i]),
        None => None,
    }
}

proof fn counter_place_is_first(cs: Seq<CountersView>, iface: Seq<char>, i: int)
    requires
        0 <= i,
    ensures
        match counter_place(cs, iface, i) {
            Some(k) => i <= k < cs.len() && cs[k].iface == iface && forall|j: int|
                i <= j < k ==> (#[trigger] cs[j]).iface != iface,
            None => forall|j: int| i <= j < cs.len() ==> (#[trigger] cs[j]).iface != iface,
        },
    decreases cs.len() - i,
{
    if i < cs.len() && cs[i].iface != iface {
        counter_place_is_first(cs, iface, i + 1);
    }
}

/// New counters of an interface take the place of those that were there, those
/// of every other interface stay, and none are there twice.
pub proof fn counting_replaces(cs: Seq<CountersView>, c: CountersView, other: Seq<char>)
    requires
        counters_differ(cs),
        other != c.iface,
    ensures
        counters_differ(counted(cs, c)),
        counters_of(counted(cs, c), c.iface) == Some(c),
        counters_of(counted(cs, c), other) == counters_of(cs, other),
{
    let out = counted(cs, c);
    counter_place_is_first(cs, c.iface, 0);
    counter_place_is_first(cs, other, 0);
    counter_place_is_first(out, c.iface, 0);
    counter_place_is_first(out, other, 0);
    let k = match counter_place(cs, c.iface, 0) {
        Some(k) => k,
        None => cs.len() as int,
    };
    assert(out[k] == c);
    assert(forall|i: int| 0 <= i < cs.len() && i != k ==> out[i] == #[trigger] cs[i]);
    match counter_place(cs, other, 0) {
        Some(i) => {
            assert(out[i] == cs[i]);
        },
        None => {},
    }
}

proof fn counting_keeps_apart(cs: Seq<CountersView>, new: Seq<CountersView>, n: int)
    requires
        counters_differ(cs),
    ensures
        counters_differ(counted_all(cs, new, n)),
    decreases n,
{
    if n > 0 {
        counting_keeps_apart(cs, new, n - 1);
        let c = new[n - 1];
        assert(c.iface.push('x').len() != c.iface.len());
        counting_replaces(counted_all(cs, new, n - 1), c, c.iface.push('x'));
    }
}

/// Lists of devices change, and nothing else of the routers does.
proof fn enlisting_keeps_counters(
    routers: Map<Seq<char>, RouterStateView>,
    ifs: Seq<SnapshotView>,
    device: Seq<char>,
    n: int,
    r: Seq<char>,
)
    ensures
        enlisted_all(routers, ifs, device, n).contains_key(r) == routers.contains_key(r),
        delisted_all(routers, ifs, device, n).contains_key(r) == routers.contains_key(r),
        routers.contains_key(r) ==> enlisted_all(routers, ifs, device, n)[r].counters
            == routers[r].counters,
        routers.contains_key(r) ==> delisted_all(routers, ifs, device, n)[r].counters
            == routers[r].counters,
    decreases n,
{
    if n > 0 {
        enlisting_keeps_counters(routers, ifs, device, n - 1, r);
    }
}

/// No node has the counters of an interface twice, whatever happens.
pub proof fn counters_stay_apart(s: LabStateView, e: LabEvent)
    requires
        counters_apart(s),
        e.wf(),
    ensures
        counters_apart(reduce(s, e)),
{
    let t = reduce(s, e);
    assert forall|r: Seq<char>| #[trigger] t.routers.contains_key(r) implies counters_differ(
        t.routers[r].counters,
    ) by {
        match e.kind {
            LabEventKind::InitialState { state } => {
                if state is Some {
                    assert((*state->0)@.routers.contains_key(r));
                }
            },
            LabEventKind::DeviceAdded { name, state } => {
                let n = state@.interfaces.len() as int;
                enlisting_keeps_counters(s.routers, state@.interfaces, name@, n, r);
            },
            LabEventKind::DeviceRemoved { name } => {
                let ifs = s.devices[name@].interfaces;
                enlisting_keeps_counters(s.routers, ifs, name@, ifs.len() as int, r);
            },
            LabEventKind::PacketCounters { node, counters } => {
                let new = counter_views(counters@);
                if s.routers.contains_key(node@) {
                    counting_keeps_apart(s.routers[node@].counters, new, new.len() as int);
                }
            },
            _ => {},
        }
        assert(s.routers.contains_key(r) ==> counters_differ(s.routers[r].counters));
    }
    assert forall|d: Seq<char>| #[trigger] t.devices.contains_key(d) implies counters_differ(
        t.devices[d].counters,
    ) by {
        match e.kind {
            LabEventKind::InitialState { state } => {
                if state is Some {
                    assert((*state->0)@.devices.contains_key(d));
                }
            },
            LabEventKind::PacketCounters { node, counters } => {
                let new = counter_views(counters@);
                if s.devices.contains_key(node@) {
                    counting_keeps_apart(s.devices[node@].counters, new, new.len() as int);
                }
            },
            _ => {},
        }
        assert(s.devices.contains_key(d) ==> counters_differ(s.devices[d].counters));
    }
}

/// A name is on the list once it was enlisted.
pub proof fn enlisting_lists(names: Seq<Seq<char>>, name: Seq<char>)
    ensures
        enlist(names, name).contains(name),
{
    if !names.contains(name) {
        assert(names.push(name)[names.len() as int] == name);
    }
}

/// A name is off the list once it was delisted, and every other name stays.
pub proof fn delisting_removes(names: Seq<Seq<char>>, name: Seq<char>, other: Seq<char>)
    requires
        other != name,
    ensures
        !delist(names, name).contains(name),
        delist(names, name).contains(other) == names.contains(other),
    decreases names.len(),
{
    reveal(Seq::filter);
    if names.len() > 0 {
        let front = names.drop_last();
        delisting_removes(front, name, other);
        let d = delist(front, name);
        assert(delist(names, name) == (if names.last() != name {
            d.push(names.last())
        } else {
            d
        }));
        assert(names =~= front.push(names.last()));
        if delist(names, name).contains(name) {
            let i = choose|i: int| 0 <= i < delist(names, name).len() && delist(names, name)[i]
                == name;
            if i < d.len() {
                assert(d[i] == name);
                assert(d.contains(name));
            }
        }
        if names.contains(other) {
            let i = choose|i: int| 0 <= i < names.len() && names[i] == other;
            if i < front.len() {
                assert(front[i] == other);
                assert(front.contains(other));
                let j = choose|j: int| 0 <= j < d.len() && d[j] == other;
                assert(delist(names, name)[j] == other);
            } else {
                assert(delist(names, name)[d.len() as int] == other);
            }
        }
        if delist(names, name).contains(other) {
            let i = choose|i: int| 0 <= i < delist(names, name).len() && delist(names, name)[i]
                == other;
            if i < d.len() {
                assert(d[i] == other);
                assert(d.contains(other));
                let j = choose|j: int| 0 <= j < front.len() && front[j] == other;
                assert(names[j] == other);
            } else {
                assert(names[names.len() - 1] == other);
            }
        }
    }
}

/// After an interface moved, the new router lists the device.
pub proof fn replugging_moves_the_device(s: LabStateView, e: LabEvent)
    requires
        e.kind is InterfaceReplugged,
        s.routers.contains_key(e.kind->to_router@),
    ensures
        reduce(s, e).routers.contains_key(e.kind->to_router@),
        reduce(s, e).routers[e.kind->to_router@].devices.contains(
            e.kind->InterfaceReplugged_device@,
        ),
{
    let device = e.kind->InterfaceReplugged_device@;
    let from = e.kind->from_router@;
    let to = e.kind->to_router@;
    enlisting_lists(s.routers[to].devices, device);
    enlisting_lists(delisted(s.routers, from, device)[to].devices, device);
}

// ── lists of devices ─────────────────────────────────────────────────

/// Whether a device has an interface on a router.
pub open spec fn is_behind(
    devices: Map<Seq<char>, DeviceStateView>,
    device: Seq<char>,
    router: Seq<char>,
) -> bool {
    devices.contains_key(device) && reaches(devices[device].interfaces, router)
}

/// No two interfaces have the same name.
pub open spec fn names_differ(ifs: Seq<SnapshotView>) -> bool {
    forall|i: int, j: int|
        0 <= i < j < ifs.len() ==> (#[trigger] ifs[i]).name != (#[trigger] ifs[j]).name
}

/// The list names exactly the devices that have an interface on the router,
/// each once.
pub open spec fn list_exact(
    list: Seq<Seq<char>>,
    devices: Map<Seq<char>, DeviceStateView>,
    router: Seq<char>,
) -> bool {
    &&& list.no_duplicates()
    &&& forall|d: Seq<char>| #[trigger] list.contains(d) == is_behind(devices, d, router)
}

/// The list of every router names exactly the devices that have an interface on
/// it, each once, and the interfaces of a device have names of their own.
pub open spec fn lists_exact(s: LabStateView) -> bool {
    &&& forall|r: Seq<char>| #[trigger]
        s.routers.contains_key(r) ==> list_exact(s.routers[r].devices, s.devices, r)
    &&& forall|d: Seq<char>| #[trigger]
        s.devices.contains_key(d) ==> names_differ(s.devices[d].interfaces)
}

/// Whether an event speaks of what is there: a device that is added is new and
/// its interfaces have names of their own, an interface is added to a device
/// that is there under a new name, an interface moves away from the router that
/// it is on, and a router or a whole state that is added has exact lists.
pub open spec fn event_fits(s: LabStateView, e: LabEvent) -> bool {
    match e.kind {
        LabEventKind::InitialState { state } => state is Some ==> lists_exact((*state->0)@),
        LabEventKind::RouterAdded { name, state } => list_exact(
            (*state)@.devices,
            s.devices,
            name@,
        ),
        LabEventKind::DeviceAdded { name, state } => !s.devices.contains_key(name@)
            && names_differ(state@.interfaces),
        LabEventKind::InterfaceAdded { device, iface } => s.devices.contains_key(device@)
            && router_of(s.devices[device@].interfaces, iface@.name, 0) is None,
        LabEventKind::InterfaceReplugged { device, iface_name, from_router, .. } => {
            s.devices.contains_key(device@) && router_of(
                s.devices[device@].interfaces,
                iface_name@,
                0,
            ) == Some(from_router@)
        },
        _ => true,
    }
}

proof fn enlisting_is_exact(names: Seq<Seq<char>>, name: Seq<char>)
    ensures
        forall|x: Seq<char>| #[trigger]
            enlist(names, name).contains(x) == (names.contains(x) || x == name),
        names.no_duplicates() ==> enlist(names, name).no_duplicates(),
{
    let out = enlist(names, name);
    enlisting_lists(names, name);
    assert forall|x: Seq<char>| #[trigger] out.contains(x) == (names.contains(x) || x == name) by {
        if names.contains(x) {
            let i = names.index_of(x);
            assert(out[i] == x);
        }
        if out.contains(x) && x != name {
            let i = out.index_of(x);
            assert(names[i] == x);
        }
    }
}

proof fn delisting_is_exact(names: Seq<Seq<char>>, name: Seq<char>)
    ensures
        forall|x: Seq<char>| #[trigger]
            delist(names, name).contains(x) == (names.contains(x) && x != name),
        names.no_duplicates() ==> delist(names, name).no_duplicates(),
    decreases names.len(),
{
    assert forall|x: Seq<char>| #[trigger]
        delist(names, name).contains(x) == (names.contains(x) && x != name) by {
        if x != name {
            delisting_removes(names, name, x);
        } else {
            assert(x.push('x').len() != name.len());
            delisting_removes(names, name, x.push('x'));
        }
    }
    reveal(Seq::filter);
    if names.len() > 0 {
        let front = names.drop_last();
        delisting_is_exact(front, name);
        if names.no_duplicates() {
            assert(front.no_duplicates());
            assert(!front.contains(names.last())) by {
                if front.contains(names.last()) {
                    let i = front.index_of(names.last());
                    assert(names[i] == names[names.len() - 1]);
                }
            }
            let d = delist(front, name);
            assert(!d.contains(names.last()));
            assert forall|i: int, j: int|
                0 <= i < delist(names, name).len() && 0 <= j < delist(names, name).len() && i
                    != j implies delist(names, name)[i] != delist(names, name)[j] by {
                if i < d.len() && j == d.len() {
                    assert(d.contains(d[i]));
                }
                if j < d.len() && i == d.len() {
                    assert(d.contains(d[j]));
                }
            }
        }
    }
}

/// What enlisting a device at one router does to the lists of all of them.
proof fn enlisted_lists(
    routers: Map<Seq<char>, RouterStateView>,
    router: Seq<char>,
    device: Seq<char>,
)
    ensures
        ({
            let after = enlisted(routers, router, device);
            &&& forall|r: Seq<char>| #[trigger] after.contains_key(r) == routers.contains_key(r)
            &&& forall|r: Seq<char>, x: Seq<char>|
                routers.contains_key(r) ==> #[trigger] after[r].devices.contains(x) == (
                routers[r].devices.contains(x) || (r == router && x == device))
            &&& forall|r: Seq<char>| #[trigger]
                routers.contains_key(r) && routers[r].devices.no_duplicates()
                    ==> after[r].devices.no_duplicates()
        }),
{
    if routers.contains_key(router) {
        enlisting_is_exact(routers[router].devices, device);
    }
}

/// What delisting a device at one router does to the lists of all of them.
proof fn delisted_lists(
    routers: Map<Seq<char>, RouterStateView>,
    router: Seq<char>,
    device: Seq<char>,
)
    ensures
        ({
            let after = delisted(routers, router, device);
            &&& forall|r: Seq<char>| #[trigger] after.contains_key(r) == routers.contains_key(r)
            &&& forall|r: Seq<char>, x: Seq<char>|
                routers.contains_key(r) ==> #[trigger] after[r].devices.contains(x) == (
                routers[r].devices.contains(x) && !(r == router && x == device))
            &&& forall|r: Seq<char>| #[trigger]
                routers.contains_key(r) && routers[r].devices.no_duplicates()
                    ==> after[r].devices.no_duplicates()
        }),
{
    if routers.contains_key(router) {
        delisting_is_exact(routers[router].devices, device);
    }
}

/// What enlisting a device at the routers of its first `n` interfaces does to
/// the lists of all of them.
proof fn enlisted_all_lists(
    routers: Map<Seq<char>, RouterStateView>,
    ifs: Seq<SnapshotView>,
    device: Seq<char>,
    n: int,
)
    requires
        0 <= n <= ifs.len(),
    ensures
        ({
            let after = enlisted_all(routers, ifs, device, n);
            &&& forall|r: Seq<char>| #[trigger] after.contains_key(r) == routers.contains_key(r)
            &&& forall|r: Seq<char>, x: Seq<char>|
                routers.contains_key(r) ==> #[trigger] after[r].devices.contains(x) == (
                routers[r].devices.contains(x) || (x == device && reaches(ifs.take(n), r)))
            &&& forall|r: Seq<char>| #[trigger]
                routers.contains_key(r) && routers[r].devices.no_duplicates()
                    ==> after[r].devices.no_duplicates()
        }),
    decreases n,
{
    if n > 0 {
        let mid = enlisted_all(routers, ifs, device, n - 1);
        enlisted_all_lists(routers, ifs, device, n - 1);
        enlisted_lists(mid, ifs[n - 1].router, device);
        assert forall|r: Seq<char>| routers.contains_key(r) implies #[trigger] reaches(
            ifs.take(n),
            r,
        ) == (reaches(ifs.take(n - 1), r) || r == ifs[n - 1].router) by {
            reaches_one_more(ifs, n, r);
        }
        let after = enlisted_all(routers, ifs, device, n);
        assert forall|r: Seq<char>, x: Seq<char>|
            routers.contains_key(r) implies #[trigger] after[r].devices.contains(x) == (
        routers[r].devices.contains(x) || (x == device && reaches(ifs.take(n), r))) by {
            assert(mid.contains_key(r));
            assert(mid[r].devices.contains(x) == (routers[r].devices.contains(x) || (x == device
                && reaches(ifs.take(n - 1), r))));
        }
        assert forall|r: Seq<char>| #[trigger]
            routers.contains_key(r)
                && routers[r].devices.no_duplicates() implies after[r].devices.no_duplicates() by {
            assert(mid.contains_key(r));
        }
    }
}

/// What delisting a device at the routers of its first `n` interfaces does to
/// the lists of all of them.
proof fn delisted_all_lists(
    routers: Map<Seq<char>, RouterStateView>,
    ifs: Seq<SnapshotView>,
    device: Seq<char>,
    n: int,
)
    requires
        0 <= n <= ifs.len(),
    ensures
        ({
            let after = delisted_all(routers, ifs, device, n);
            &&& forall|r: Seq<char>| #[trigger] after.contains_key(r) == routers.contains_key(r)
            &&& forall|r: Seq<char>, x: Seq<char>|
                routers.contains_key(r) ==> #[trigger] after[r].devices.contains(x) == (
                routers[r].devices.contains(x) && !(x == device && reaches(ifs.take(n), r)))
            &&& forall|r: Seq<char>| #[trigger]
                routers.contains_key(r) && routers[r].devices.no_duplicates()
                    ==> after[r].devices.no_duplicates()
        }),
    decreases n,
{
    if n > 0 {
        let mid = delisted_all(routers, ifs, device, n - 1);
        delisted_all_lists(routers, ifs, device, n - 1);
        delisted_lists(mid, ifs[n - 1].router, device);
        assert forall|r: Seq<char>| routers.contains_key(r) implies #[trigger] reaches(
            ifs.take(n),
            r,
        ) == (reaches(ifs.take(n - 1), r) || r == ifs[n - 1].router) by {
            reaches_one_more(ifs, n, r);
        }
        let after = delisted_all(routers, ifs, device, n);
        assert forall|r: Seq<char>, x: Seq<char>|
            routers.contains_key(r) implies #[trigger] after[r].devices.contains(x) == (
        routers[r].devices.contains(x) && !(x == device && reaches(ifs.take(n), r))) by {
            assert(mid.contains_key(r));
            assert(mid[r].devices.contains(x) == (routers[r].devices.contains(x) && !(x == device
                && reaches(ifs.take(n - 1), r))));
        }
        assert forall|r: Seq<char>| #[trigger]
            routers.contains_key(r)
                && routers[r].devices.no_duplicates() implies after[r].devices.no_duplicates() by {
            assert(mid.contains_key(r));
        }
    }
}

proof fn reaches_one_more(ifs: Seq<SnapshotView>, n: int, router: Seq<char>)
    requires
        0 < n <= ifs.len(),
    ensures
        reaches(ifs.take(n), router) == (reaches(ifs.take(n - 1), router) || router == ifs[n
            - 1].router),
{
    let (a, b) = (ifs.take(n - 1), ifs.take(n));
    if reaches(a, router) {
        let i = choose|i: int| 0 <= i < a.len() && (#[trigger] a[i]).router == router;
        assert(b[i].router == router);
    }
    if router == ifs[n - 1].router {
        assert(b[n - 1].router == router);
    }
    if reaches(b, router) {
        let i = choose|i: int| 0 <= i < b.len() && (#[trigger] b[i]).router == router;
        if i < n - 1 {
            assert(a[i].router == router);
        }
    }
}

proof fn router_of_is_first(ifs: Seq<SnapshotView>, name: Seq<char>, i: int)
    requires
        0 <= i,
    ensures
        match router_of(ifs, name, i) {
            Some(r) => exists|k: int|
                i <= k < ifs.len() && (#[trigger] ifs[k]).name == name && ifs[k].router == r,
            None => forall|k: int| i <= k < ifs.len() ==> (#[trigger] ifs[k]).name != name,
        },
    decreases ifs.len() - i,
{
    if i < ifs.len() && ifs[i].name != name {
        router_of_is_first(ifs, name, i + 1);
    }
}

/// The interfaces without those of one name still have names of their own.
proof fn without_keeps_names(ifs: Seq<SnapshotView>, name: Seq<char>)
    requires
        names_differ(ifs),
    ensures
        names_differ(without_ifaces(ifs, name)),
        forall|x: SnapshotView| #[trigger]
            without_ifaces(ifs, name).contains(x) == (ifs.contains(x) && x.name != name),
    decreases ifs.len(),
{
    reveal(Seq::filter);
    if ifs.len() > 0 {
        let front = ifs.drop_last();
        assert(names_differ(front));
        without_keeps_names(front, name);
        let d = without_ifaces(front, name);
        let out = without_ifaces(ifs, name);
        let last = ifs.last();
        assert forall|x: SnapshotView| #[trigger]
            out.contains(x) == (ifs.contains(x) && x.name != name) by {
            if out.contains(x) {
                let i = out.index_of(x);
                if i < d.len() {
                    assert(d[i] == x);
                    assert(d.contains(x));
                    let k = front.index_of(x);
                    assert(ifs[k] == x);
                } else {
                    assert(ifs[ifs.len() - 1] == x);
                }
            }
            if ifs.contains(x) && x.name != name {
                let i = ifs.index_of(x);
                if i < front.len() {
                    assert(front[i] == x);
                    assert(front.contains(x));
                    assert(d.contains(x));
                    let k = d.index_of(x);
                    assert(out[k] == x);
                } else {
                    assert(out[d.len() as int] == x);
                }
            }
        }
        assert forall|i: int, j: int| 0 <= i < j < out.len() implies (#[trigger] out[i]).name != (
        #[trigger] out[j]).name by {
            if j == d.len() {
                assert(d.contains(d[i]));
                let k = front.index_of(d[i]);
                assert(ifs[k].name != ifs[ifs.len() - 1].name);
            }
        }
    }
}

proof fn device_added_keeps_lists(s: LabStateView, name: Seq<char>, state: DeviceStateView)
    requires
        lists_exact(s),
        !s.devices.contains_key(name),
        names_differ(state.interfaces),
    ensures
        lists_exact(
            LabStateView {
                routers: enlisted_all(
                    s.routers,
                    state.interfaces,
                    name,
                    state.interfaces.len() as int,
                ),
                devices: s.devices.insert(name, state),
                ..s
            },
        ),
{
    let ifs = state.interfaces;
    let n = ifs.len() as int;
    let after = enlisted_all(s.routers, ifs, name, n);
    enlisted_all_lists(s.routers, ifs, name, n);
    assert(ifs.take(n) =~= ifs);
    let devices = s.devices.insert(name, state);
    assert forall|r: Seq<char>| #[trigger] after.contains_key(r) implies list_exact(
        after[r].devices,
        devices,
        r,
    ) by {
        assert(s.routers.contains_key(r));
        assert(list_exact(s.routers[r].devices, s.devices, r));
        assert forall|d: Seq<char>| #[trigger] after[r].devices.contains(d) == is_behind(
            devices,
            d,
            r,
        ) by {
            assert(s.routers[r].devices.contains(d) == is_behind(s.devices, d, r));
        }
    }
}

proof fn device_removed_keeps_lists(s: LabStateView, name: Seq<char>)
    requires
        lists_exact(s),
        s.devices.contains_key(name),
    ensures
        lists_exact(
            LabStateView {
                routers: delisted_all(
                    s.routers,
                    s.devices[name].interfaces,
                    name,
                    s.devices[name].interfaces.len() as int,
                ),
                devices: s.devices.remove(name),
                ..s
            },
        ),
{
    let ifs = s.devices[name].interfaces;
    let n = ifs.len() as int;
    let after = delisted_all(s.routers, ifs, name, n);
    delisted_all_lists(s.routers, ifs, name, n);
    assert(ifs.take(n) =~= ifs);
    let devices = s.devices.remove(name);
    assert forall|r: Seq<char>| #[trigger] after.contains_key(r) implies list_exact(
        after[r].devices,
        devices,
        r,
    ) by {
        assert(s.routers.contains_key(r));
        assert(list_exact(s.routers[r].devices, s.devices, r));
        assert forall|d: Seq<char>| #[trigger] after[r].devices.contains(d) == is_behind(
            devices,
            d,
            r,
        ) by {
            assert(s.routers[r].devices.contains(d) == is_behind(s.devices, d, r));
        }
    }
}

/// The lists stay exact where a device gets other interfaces and one router
/// after the other is told: first the one that may have lost the device, then
/// the one that has it.
proof fn changed_device_keeps_lists(
    s: LabStateView,
    device: Seq<char>,
    state: DeviceStateView,
    from: Option<Seq<char>>,
    to: Option<Seq<char>>,
)
    requires
        lists_exact(s),
        s.devices.contains_key(device),
        names_differ(state.interfaces),
        forall|r: Seq<char>|
            from != Some(r) && to != Some(r) ==> #[trigger] reaches(state.interfaces, r) == reaches(
                s.devices[device].interfaces,
                r,
            ),
        from is Some && from != to ==> !reaches(state.interfaces, from->0),
        to is Some ==> reaches(state.interfaces, to->0),
    ensures
        ({
            let left = match from {
                Some(r) => delisted(s.routers, r, device),
                None => s.routers,
            };
            let after = match to {
                Some(r) => enlisted(left, r, device),
                None => left,
            };
            lists_exact(
                LabStateView {
                    routers: after,
                    devices: s.devices.insert(device, state),
                    ..s
                },
            )
        }),
{
    let left = match from {
        Some(r) => delisted(s.routers, r, device),
        None => s.routers,
    };
    let after = match to {
        Some(r) => enlisted(left, r, device),
        None => left,
    };
    if from is Some {
        delisted_lists(s.routers, from->0, device);
    }
    if to is Some {
        enlisted_lists(left, to->0, device);
    }
    let devices = s.devices.insert(device, state);
    assert forall|r: Seq<char>| #[trigger] after.contains_key(r) implies list_exact(
        after[r].devices,
        devices,
        r,
    ) by {
        assert(left.contains_key(r));
        assert(s.routers.contains_key(r));
        assert(list_exact(s.routers[r].devices, s.devices, r));
        assert(left[r].devices.no_duplicates());
        assert forall|d: Seq<char>| #[trigger] after[r].devices.contains(d) == is_behind(
            devices,
            d,
            r,
        ) by {
            assert(s.routers[r].devices.contains(d) == is_behind(s.devices, d, r));
            assert(left[r].devices.contains(d) == (is_behind(s.devices, d, r) && !(from == Some(r)
                && d == device)));
            if d == device {
                assert(is_behind(devices, d, r) == reaches(state.interfaces, r));
            }
        }
    }
}

proof fn iface_added_keeps_lists(s: LabStateView, device: Seq<char>, iface: SnapshotView)
    requires
        lists_exact(s),
        s.devices.contains_key(device),
        router_of(s.devices[device].interfaces, iface.name, 0) is None,
    ensures
        lists_exact(
            LabStateView {
                routers: enlisted(s.routers, iface.router, device),
                devices: s.devices.insert(
                    device,
                    DeviceStateView {
                        interfaces: s.devices[device].interfaces.push(iface),
                        ..s.devices[device]
                    },
                ),
                ..s
            },
        ),
{
    let ifs = s.devices[device].interfaces;
    let more = ifs.push(iface);
    router_of_is_first(ifs, iface.name, 0);
    assert(names_differ(more));
    assert forall|r: Seq<char>| #[trigger] reaches(more, r) == (reaches(ifs, r) || r
        == iface.router) by {
        reaches_one_more(more, more.len() as int, r);
        assert(more.take(more.len() as int) =~= more);
        assert(more.take(more.len() - 1) =~= ifs);
    }
    changed_device_keeps_lists(
        s,
        device,
        DeviceStateView { interfaces: more, ..s.devices[device] },
        None,
        Some(iface.router),
    );
}

proof fn iface_removed_keeps_lists(s: LabStateView, device: Seq<char>, name: Seq<char>)
    requires
        lists_exact(s),
        s.devices.contains_key(device),
    ensures
        lists_exact(
            LabStateView {
                routers: after_removal(s, device, name),
                devices: s.devices.insert(
                    device,
                    DeviceStateView {
                        interfaces: without_ifaces(s.devices[device].interfaces, name),
                        ..s.devices[device]
                    },
                ),
                ..s
            },
        ),
{
    let ifs = s.devices[device].interfaces;
    let rest = without_ifaces(ifs, name);
    without_keeps_names(ifs, name);
    router_of_is_first(ifs, name, 0);
    let gone = router_of(ifs, name, 0);
    assert forall|r: Seq<char>| gone != Some(r) implies #[trigger] reaches(rest, r) == reaches(
        ifs,
        r,
    ) by {
        if reaches(rest, r) {
            let i = choose|i: int| 0 <= i < rest.len() && (#[trigger] rest[i]).router == r;
            assert(rest.contains(rest[i]));
            let k = ifs.index_of(rest[i]);
            assert(ifs[k].router == r);
        }
        if reaches(ifs, r) {
            let i = choose|i: int| 0 <= i < ifs.len() && (#[trigger] ifs[i]).router == r;
            assert(ifs.contains(ifs[i]));
            if ifs[i].name == name {
                let k = choose|k: int|
                    0 <= k < ifs.len() && (#[trigger] ifs[k]).name == name && ifs[k].router
                        == gone->0;
                assert(k == i);
            }
            assert(rest.contains(ifs[i]));
            let k = rest.index_of(ifs[i]);
            assert(rest[k].router == r);
        }
    }
    let state = DeviceStateView { interfaces: rest, ..s.devices[device] };
    if gone is Some && reaches(rest, gone->0) {
        assert(reaches(ifs, gone->0)) by {
            let k = choose|k: int|
                0 <= k < ifs.len() && (#[trigger] ifs[k]).name == name && ifs[k].router
                    == gone->0;
            assert(ifs[k].router == gone->0);
        }
        changed_device_keeps_lists(s, device, state, None, None);
    } else {
        changed_device_keeps_lists(s, device, state, gone, None);
    }
}

proof fn iface_replugged_keeps_lists(
    s: LabStateView,
    device: Seq<char>,
    name: Seq<char>,
    from: Seq<char>,
    to: Seq<char>,
    new_ip: Option<Ipv4Addr>,
    new_ip_v6: Option<Ipv6Addr>,
)
    requires
        lists_exact(s),
        s.devices.contains_key(device),
        router_of(s.devices[device].interfaces, name, 0) == Some(from),
    ensures
        ({
            let moved = replugged_devices(s.devices, device, name, to, new_ip, new_ip_v6);
            lists_exact(
                LabStateView {
                    routers: after_replug(s.routers, moved, device, from, to),
                    devices: moved,
                    ..s
                },
            )
        }),
{
    let ifs = s.devices[device].interfaces;
    let moved = replugged_devices(s.devices, device, name, to, new_ip, new_ip_v6);
    let state = moved[device];
    let rest = state.interfaces;
    router_of_is_first(ifs, name, 0);
    let k = choose|k: int|
        0 <= k < ifs.len() && (#[trigger] ifs[k]).name == name && ifs[k].router == from;
    assert(forall|i: int|
        0 <= i < ifs.len() ==> (#[trigger] rest[i]).name == ifs[i].name && (i != k ==> rest[i]
            == ifs[i]));
    assert(rest[k].router == to);
    assert(names_differ(rest));
    assert forall|r: Seq<char>| r != from && r != to implies #[trigger] reaches(rest, r)
        == reaches(ifs, r) by {
        if reaches(rest, r) {
            let i = choose|i: int| 0 <= i < rest.len() && (#[trigger] rest[i]).router == r;
            assert(ifs[i].router == r);
        }
        if reaches(ifs, r) {
            let i = choose|i: int| 0 <= i < ifs.len() && (#[trigger] ifs[i]).router == r;
            assert(rest[i].router == r);
        }
    }
    if reaches(rest, from) {
        assert(ifs[k].router == from);
        assert(reaches(ifs, from));
        changed_device_keeps_lists(s, device, state, None, Some(to));
    } else {
        changed_device_keeps_lists(s, device, state, Some(from), Some(to));
    }
}

/// A change of what the lists do not depend on keeps them exact.
proof fn same_lists_stay_exact(s: LabStateView, t: LabStateView)
    requires
        lists_exact(s),
        forall|r: Seq<char>| #[trigger]
            t.routers.contains_key(r) ==> s.routers.contains_key(r) && t.routers[r].devices
                == s.routers[r].devices,
        forall|d: Seq<char>| #[trigger] t.devices.contains_key(d) == s.devices.contains_key(d),
        forall|d: Seq<char>| #[trigger]
            t.devices.contains_key(d) ==> same_places(
                t.devices[d].interfaces,
                s.devices[d].interfaces,
            ),
    ensures
        lists_exact(t),
{
    assert forall|d: Seq<char>, r: Seq<char>| #[trigger] is_behind(t.devices, d, r) == is_behind(
        s.devices,
        d,
        r,
    ) by {
        if t.devices.contains_key(d) {
            let (a, b) = (t.devices[d].interfaces, s.devices[d].interfaces);
            assert(same_places(a, b));
            if reaches(a, r) {
                let i = choose|i: int| 0 <= i < a.len() && (#[trigger] a[i]).router == r;
                assert(b[i].router == r);
            }
            if reaches(b, r) {
                let i = choose|i: int| 0 <= i < b.len() && (#[trigger] b[i]).router == r;
                assert(a[i].router == r);
            }
        }
    }
    assert forall|r: Seq<char>| #[trigger] t.routers.contains_key(r) implies list_exact(
        t.routers[r].devices,
        t.devices,
        r,
    ) by {
        assert(list_exact(s.routers[r].devices, s.devices, r));
    }
    assert forall|d: Seq<char>| #[trigger] t.devices.contains_key(d) implies names_differ(
        t.devices[d].interfaces,
    ) by {
        assert(names_differ(s.devices[d].interfaces));
    }
}

/// The interfaces have the same names and routers.
pub open spec fn same_places(a: Seq<SnapshotView>, b: Seq<SnapshotView>) -> bool {
    a.len() == b.len() && forall|i: int|
        0 <= i < a.len() ==> (#[trigger] a[i]).name == b[i].name && a[i].router == b[i].router
}

/// The list of every router names exactly the devices that have an interface on
/// it, each once, whatever happens: every event that speaks of what is there
/// keeps this.
pub proof fn lists_stay_exact(s: LabStateView, e: LabEvent)
    requires
        lists_exact(s),
        event_fits(s, e),
    ensures
        lists_exact(reduce(s, e)),
{
    let t = reduce(s, e);
    let u = LabStateView { opid: e.opid, ..s };
    same_lists_stay_exact(s, u);
    match e.kind {
        LabEventKind::InitialState { state } => {
            if state is Some {
                same_lists_stay_exact((*state->0)@, t);
            }
        },
        LabEventKind::RouterAdded { name, state } => {
            assert forall|r: Seq<char>| #[trigger] t.routers.contains_key(r) implies list_exact(
                t.routers[r].devices,
                t.devices,
                r,
            ) by {
                if r != name@ {
                    assert(s.routers.contains_key(r));
                }
            }
        },
        LabEventKind::DeviceAdded { name, state } => {
            device_added_keeps_lists(u, name@, state@);
        },
        LabEventKind::DeviceRemoved { name } => {
            if s.devices.contains_key(name@) {
                device_removed_keeps_lists(u, name@);
            } else {
                same_lists_stay_exact(s, t);
            }
        },
        LabEventKind::InterfaceAdded { device, iface } => {
            iface_added_keeps_lists(u, device@, iface@);
        },
        LabEventKind::InterfaceRemoved { device, iface_name } => {
            if s.devices.contains_key(device@) {
                iface_removed_keeps_lists(u, device@, iface_name@);
            } else {
                same_lists_stay_exact(s, t);
            }
        },
        LabEventKind::InterfaceReplugged {
            device,
            iface_name,
            from_router,
            to_router,
            new_ip,
            new_ip_v6,
        } => {
            iface_replugged_keeps_lists(
                u,
                device@,
                iface_name@,
                from_router@,
                to_router@,
                new_ip,
                new_ip_v6,
            );
        },
        _ => {
            same_lists_stay_exact(s, t);
        },
    }
}

/// An empty lab has exact lists.
pub proof fn empty_lists_are_exact(s: LabStateView)
    requires
        s.routers == Map::<Seq<char>, RouterStateView>::empty(),
        s.devices == Map::<Seq<char>, DeviceStateView>::empty(),
    ensures
        lists_exact(s),
{
}

// ── counters ─────────────────────────────────────────────────────────

/// The numbers among the words, in order; other words are passed over.
pub open spec fn numbers(ws: Seq<Seq<char>>) -> Seq<u64>
    decreases ws.len(),
{
    if ws.len() == 0 {
        Seq::empty()
    } else {
        let before = numbers(ws.drop_last());
        match parse_number(ws.last(), 10, u64::MAX as int) {
            Some(n) => before.push(n as u64),
            None => before,
        }
    }
}

/// The counters that a line of `/proc/net/dev` holds: ten numbers at least
/// behind the name of an interface other than the loopback.
pub open spec fn line_counters(line: Seq<char>) -> Option<CountersView> {
    match split_once(trim(line), ":"@) {
        None => None,
        Some((name, rest)) => {
            let f = numbers(words(rest));
            if trim(name) == "lo"@ || f.len() < 10 {
                None
            } else {
                Some(
                    CountersView {
                        iface: trim(name),
                        rx_bytes: f[0],
                        rx_packets: f[1],
                        tx_bytes: f[8],
                        tx_packets: f[9],
                    },
                )
            }
        },
    }
}

/// The counters that the lines hold, in order.
pub open spec fn lines_counters(lines: Seq<Seq<char>>) -> Seq<CountersView>
    decreases lines.len(),
{
    if lines.len() == 0 {
        Seq::empty()
    } else {
        let before = lines_counters(lines.drop_last());
        match line_counters(lines.last()) {
            Some(c) => before.push(c),
            None => before,
        }
    }
}

/// The lines behind the two of the heading.
pub open spec fn data_lines(content: Seq<char>) -> Seq<Seq<char>> {
    let lines = split(content, "\n"@);
    if lines.len() < 2 {
        Seq::empty()
    } else {
        lines.skip(2)
    }
}

fn read_numbers(ws: &Vec<String>) -> (r: Vec<u64>)
    ensures
        r@ == numbers(views(ws@)),
{
    let ghost all = views(ws@);
    let mut out: Vec<u64> = Vec::new();
    let mut i: usize = 0;
    assert(out@ =~= numbers(all.take(0)));
    while i < ws.len()
        invariant
            i <= ws.len(),
            all == views(ws@),
            out@ == numbers(all.take(i as int)),
        decreases ws.len() - i,
    {
        assert(all.take(i as int + 1).drop_last() =~= all.take(i as int));
        assert(all.take(i as int + 1).last() == ws@[i as int]@);
        if let Some(n) = parse_radix(ws[i].as_str(), 10, u64::MAX) {
            out.push(n);
        }
        i += 1;
    }
    assert(all.take(ws.len() as int) =~= all);
    out
}

fn read_line(line: &str) -> (r: Option<IfaceCounters>)
    ensures
        match r {
            Some(c) => line_counters(line@) == Some(c@),
            None => line_counters(line@) is None,
        },
{
    match split_once_str(trim_str(line), ":") {
        None => None,
        Some((name, rest)) => {
            let iface = trim_str(name);
            let fields = read_numbers(&words_of(rest));
            if str_eq(iface, "lo") || fields.len() < 10 {
                None
            } else {
                Some(
                    IfaceCounters {
                        iface: iface.to_owned(),
                        rx_bytes: fields[0],
                        rx_packets: fields[1],
                        tx_bytes: fields[8],
                        tx_packets: fields[9],
                    },
                )
            }
        },
    }
}

/// Parse `/proc/net/dev` content into per-interface counters.
pub fn parse_proc_net_dev(content: &str) -> (r: Vec<IfaceCounters>)
    ensures
        counter_views(r@) == lines_counters(data_lines(content@)),
{
    proof {
        reveal_strlit("\n");
    }
    let lines = split_str(content, "\n");
    let ghost all = views(lines@);
    let mut out: Vec<IfaceCounters> = Vec::new();
    assert(counter_views(out@) =~= Seq::<CountersView>::empty());
    if lines.len() < 2 {
        return out;
    }
    let ghost data = all.skip(2);
    let mut i: usize = 2;
    assert(data.take(0) =~= Seq::<Seq<char>>::empty());
    while i < lines.len()
        invariant
            2 <= i <= lines.len(),
            all == views(lines@),
            data == all.skip(2),
            counter_views(out@) == lines_counters(data.take(i - 2)),
        decreases lines.len() - i,
    {
        let ghost done = counter_views(out@);
        assert(data.take(i - 1).drop_last() =~= data.take(i - 2));
        assert(data.take(i - 1).last() == lines@[i as int]@);
        if let Some(c) = read_line(lines[i].as_str()) {
            out.push(c);
            assert(counter_views(out@) =~= done.push(c@));
        }
        i += 1;
    }
    assert(data.take(lines.len() - 2) =~= data);
    out
}

/// A state carries the number of the event that was applied last.
pub proof fn state_carries_the_last_opid(s: LabStateView, e: LabEvent)
    ensures
        reduce(s, e).opid == e.opid,
{
}

} // verus!
