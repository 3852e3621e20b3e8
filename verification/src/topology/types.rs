//! Nodes of the topology and what is known of them.
use vstd::prelude::*;

use crate::addr::{Ipv4Addr, Ipv4Net, Ipv6Addr, Ipv6Net};
use crate::firewall::Firewall;
use crate::nat_config::{IpSupport, NatConfig, NatV6Mode};
use crate::profile::Ipv6ProvisioningMode;
use crate::qdisc::LinkCondition;
use crate::table::{Table, TableKey};
use crate::text::{dec, dec_string, str_eq};

verus! {

/// Routers advertise themselves unless told otherwise.
pub const RA_DEFAULT_ENABLED: bool = true;

/// Seconds between router advertisements.
pub const RA_DEFAULT_INTERVAL_SECS: u64 = 30;

/// Seconds that an advertisement is good for.
pub const RA_DEFAULT_LIFETIME_SECS: u64 = 1800;

/// Opaque identifier for a node in the topology.
#[derive(Clone, Copy, Debug, PartialEq, Eq, Hash, Structural)]
pub struct NodeId(pub u64);

impl View for NodeId {
    type V = NodeId;

    open spec fn view(&self) -> NodeId {
        *self
    }
}

impl TableKey for NodeId {
    fn same(&self, other: &NodeId) -> (r: bool) {
        *self == *other
    }
}

impl NodeId {
    /// The identifier as text.
    pub fn text(&self) -> (r: String)
        ensures
            r@ == dec(self.0 as nat),
    {
        dec_string(self.0)
    }
}

/// Why an operation on the topology was refused.
#[derive(Clone, Copy, Debug, PartialEq, Eq, Structural)]
pub enum CoreError {
    /// There is no such router.
    UnknownRouter,
    /// There is no such device.
    UnknownDevice,
    /// There is no such switch.
    UnknownSwitch,
    /// There is no such region.
    UnknownRegion,
    /// The router has no downstream switch.
    NoDownlink,
    /// The router has no upstream address yet.
    NoUpstreamIp,
    /// The switch has no IPv4 subnet.
    NoCidr,
    /// The switch has no IPv6 subnet.
    NoCidrV6,
    /// The switch has no gateway address.
    NoGateway,
    /// The switch belongs to no router.
    NoOwner,
    /// A switch has no host address left.
    HostPoolExhausted,
    /// A subnet pool is used up.
    SubnetPoolExhausted,
    /// The exchange has no address left.
    IxPoolExhausted,
    /// All sixteen regions are taken.
    RegionPoolExhausted,
    /// All links between regions are taken.
    LinkPoolExhausted,
    /// The device already has an interface of that name.
    DuplicateIface,
    /// The device has no interface of that name.
    NoSuchIface,
    /// A device keeps at least one interface.
    LastIface,
    /// A device is still connected to the router.
    StillConnected,
    /// The interface has no IPv4 address.
    NoIpv4,
    /// The interface is a dummy.
    DummyIface,
    /// The two nodes are not directly connected.
    NotConnected,
    /// The two regions are already linked.
    AlreadyLinked,
    /// The two regions are not linked.
    NoLink,
    /// The link is already broken.
    AlreadyBroken,
    /// The link is not broken.
    NotBroken,
    /// No third region is linked to both.
    NoDetour,
    /// The name is taken.
    NameTaken,
    /// The name is reserved for regions.
    ReservedName,
    /// The name is empty.
    EmptyName,
}

/// Static addressing and naming of one lab.
#[derive(Debug)]
pub struct CoreConfig {
    /// Sequential lab identifier.
    pub lab_id: u64,
    /// Prefix of the lab's resources.
    pub prefix: String,
    /// Name of the lab's root namespace.
    pub root_ns: String,
    /// Short tag in bridge names.
    pub bridge_tag: String,
    /// Name of the exchange's bridge.
    pub ix_br: String,
    /// The exchange's gateway.
    pub ix_gw: Ipv4Addr,
    /// The exchange's subnet.
    pub ix_cidr: Ipv4Net,
    /// Base of the private pool.
    pub private_cidr: Ipv4Net,
    /// Base of the public pool.
    pub public_cidr: Ipv4Net,
    /// The exchange's IPv6 gateway.
    pub ix_gw_v6: Ipv6Addr,
    /// The exchange's IPv6 subnet.
    pub ix_cidr_v6: Ipv6Net,
    /// Base of the private IPv6 pool.
    pub private_cidr_v6: Ipv6Net,
    /// Base of the public IPv6 pool.
    pub public_cidr_v6: Ipv6Net,
}

/// Selects the address pool used for router downstream links.
#[derive(Clone, Copy, Debug, PartialEq, Eq, Structural)]
pub enum DownstreamPool {
    /// Private addresses.
    Private,
    /// Public addresses.
    Public,
}

/// NAT and downstream behavior of a router.
#[derive(Debug)]
pub struct RouterConfig {
    /// NAT configuration. `None` disables NAT.
    pub nat: Option<NatConfig>,
    /// Which pool downstream subnets come from.
    pub downstream_pool: DownstreamPool,
    /// IPv6 NAT behavior.
    pub nat_v6: NatV6Mode,
    /// Which address families the router supports.
    pub ip_support: IpSupport,
    /// MTU of the interfaces.
    pub mtu: Option<u32>,
    /// Whether "fragmentation needed" messages are kept back.
    pub block_icmp_frag_needed: bool,
    /// The firewall.
    pub firewall: Firewall,
    /// Whether the router advertises itself.
    pub ra_enabled: bool,
    /// Seconds between advertisements.
    pub ra_interval_secs: u64,
    /// Seconds that an advertisement is good for.
    pub ra_lifetime_secs: u64,
}

impl RouterConfig {
    /// Returns the effective NAT config, or `None` if NAT is disabled.
    pub fn effective_nat_config(&self) -> (r: Option<NatConfig>)
        ensures
            r == self.nat,
    {
        self.nat
    }

    /// A configuration with the same content.
    pub fn copy(&self) -> (r: RouterConfig)
        ensures
            r.firewall@ == self.firewall@,
            r.firewall.spec_config() == self.firewall.spec_config(),
            r == (RouterConfig { firewall: r.firewall, ..*self }),
    {
        RouterConfig {
            nat: self.nat,
            downstream_pool: self.downstream_pool,
            nat_v6: self.nat_v6,
            ip_support: self.ip_support,
            mtu: self.mtu,
            block_icmp_frag_needed: self.block_icmp_frag_needed,
            firewall: self.firewall.copy(),
            ra_enabled: self.ra_enabled,
            ra_interval_secs: self.ra_interval_secs,
            ra_lifetime_secs: self.ra_lifetime_secs,
        }
    }
}

/// Settings of a router's advertisements that can change while the lab runs.
#[derive(Clone, Copy, Debug, PartialEq, Eq, Structural)]
pub struct RaRuntimeCfg {
    /// Whether the router advertises itself.
    pub enabled: bool,
    /// Seconds between advertisements.
    pub interval_secs: u64,
    /// Seconds that an advertisement is good for.
    pub lifetime_secs: u64,
}

impl RaRuntimeCfg {
    /// The given settings.
    pub fn new(enabled: bool, interval_secs: u64, lifetime_secs: u64) -> (r: RaRuntimeCfg)
        ensures
            r == (RaRuntimeCfg { enabled, interval_secs, lifetime_secs }),
    {
        RaRuntimeCfg { enabled, interval_secs, lifetime_secs }
    }

    /// Switches the advertisements on or off.
    pub fn set_enabled(&mut self, enabled: bool)
        ensures
            *final(self) == (RaRuntimeCfg { enabled, ..*old(self) }),
    {
        self.enabled = enabled;
    }

    /// Sets the seconds between advertisements, at least one.
    pub fn set_interval_secs(&mut self, secs: u64)
        ensures
            *final(self) == (RaRuntimeCfg {
                interval_secs: if secs >= 1 {
                    secs
                } else {
                    1
                },
                ..*old(self)
            }),
    {
        self.interval_secs = if secs >= 1 {
            secs
        } else {
            1
        };
    }

    /// Sets the seconds that an advertisement is good for.
    pub fn set_lifetime_secs(&mut self, secs: u64)
        ensures
            *final(self) == (RaRuntimeCfg { lifetime_secs: secs, ..*old(self) }),
    {
        self.lifetime_secs = secs;
    }
}

/// How a device interface is attached to the network.
#[derive(Clone, Copy, Debug, PartialEq, Eq, Structural)]
pub enum IfaceAttachment {
    /// Connected to a router's downstream switch.
    Routed(NodeId),
    /// A dummy device without a bridge.
    Dummy,
}

/// One network interface of a device.
#[derive(Debug)]
pub struct DeviceIfaceData {
    /// Name inside the device namespace.
    pub ifname: String,
    /// How it is attached.
    pub attachment: IfaceAttachment,
    /// IPv4 address.
    pub ip: Option<Ipv4Addr>,
    /// IPv6 address.
    pub ip_v6: Option<Ipv6Addr>,
    /// IPv6 link-local address.
    pub ll_v6: Option<Ipv6Addr>,
    /// Egress impairment.
    pub egress: Option<LinkCondition>,
    /// Ingress impairment. Always `None` for dummy interfaces.
    pub ingress: Option<LinkCondition>,
    /// Whether the interface starts in link-down state.
    pub start_down: bool,
    /// IPv4 prefix length, where it was given.
    pub prefix_len: Option<u8>,
    /// IPv6 prefix length, where it was given.
    pub prefix_len_v6: Option<u8>,
    /// Unique index in the names of the veth ends.
    pub idx: u64,
}

/// What is known of an interface.
pub struct IfaceView {
    /// Name inside the device namespace.
    pub ifname: Seq<char>,
    /// How it is attached.
    pub attachment: IfaceAttachment,
    /// IPv4 address.
    pub ip: Option<Ipv4Addr>,
    /// IPv6 address.
    pub ip_v6: Option<Ipv6Addr>,
    /// IPv6 link-local address.
    pub ll_v6: Option<Ipv6Addr>,
    /// Egress impairment.
    pub egress: Option<LinkCondition>,
    /// Ingress impairment.
    pub ingress: Option<LinkCondition>,
    /// Whether the interface starts in link-down state.
    pub start_down: bool,
    /// IPv4 prefix length, where it was given.
    pub prefix_len: Option<u8>,
    /// IPv6 prefix length, where it was given.
    pub prefix_len_v6: Option<u8>,
    /// Unique index in the names of the veth ends.
    pub idx: u64,
}

impl View for DeviceIfaceData {
    type V = IfaceView;

    open spec fn view(&self) -> IfaceView {
        IfaceView {
            ifname: self.ifname@,
            attachment: self.attachment,
            ip: self.ip,
            ip_v6: self.ip_v6,
            ll_v6: self.ll_v6,
            egress: self.egress,
            ingress: self.ingress,
            start_down: self.start_down,
            prefix_len: self.prefix_len,
            prefix_len_v6: self.prefix_len_v6,
            idx: self.idx,
        }
    }
}

impl IfaceView {
    /// The switch that a routed interface is connected to.
    pub open spec fn uplink(self) -> Option<NodeId> {
        match self.attachment {
            IfaceAttachment::Routed(id) => Some(id),
            IfaceAttachment::Dummy => None,
        }
    }
}

impl DeviceIfaceData {
    /// Returns the switch if this is a routed interface.
    pub fn uplink(&self) -> (r: Option<NodeId>)
        ensures
            r == self@.uplink(),
    {
        match self.attachment {
            IfaceAttachment::Routed(id) => Some(id),
            IfaceAttachment::Dummy => None,
        }
    }

    /// Returns true if this is a dummy interface.
    pub fn is_dummy(&self) -> (r: bool)
        ensures
            r == (self@.attachment is Dummy),
    {
        matches!(self.attachment, IfaceAttachment::Dummy)
    }
}

/// A network endpoint with its interfaces.
#[derive(Debug)]
pub struct DeviceData {
    /// Identifies the device.
    pub id: NodeId,
    /// Device name.
    pub name: String,
    /// Device namespace name.
    pub ns: String,
    /// Interfaces in the order they were added.
    pub interfaces: Vec<DeviceIfaceData>,
    /// Name of the interface that carries the default route.
    pub default_via: String,
    /// MTU of all interfaces.
    pub mtu: Option<u32>,
    /// IPv6 provisioning, where the device has its own.
    pub provisioning_mode: Option<Ipv6ProvisioningMode>,
}

/// What is known of a device.
pub struct DeviceView {
    /// Identifies the device.
    pub id: NodeId,
    /// Device name.
    pub name: Seq<char>,
    /// Device namespace name.
    pub ns: Seq<char>,
    /// Interfaces in the order they were added.
    pub interfaces: Seq<IfaceView>,
    /// Name of the interface that carries the default route.
    pub default_via: Seq<char>,
    /// MTU of all interfaces.
    pub mtu: Option<u32>,
    /// IPv6 provisioning, where the device has its own.
    pub provisioning_mode: Option<Ipv6ProvisioningMode>,
}

/// The views of a list of interfaces.
pub open spec fn iface_views(v: Seq<DeviceIfaceData>) -> Seq<IfaceView> {
    Seq::new(v.len(), |i: int| v[i]@)
}

impl View for DeviceData {
    type V = DeviceView;

    open spec fn view(&self) -> DeviceView {
        DeviceView {
            id: self.id,
            name: self.name@,
            ns: self.ns@,
            interfaces: iface_views(self.interfaces@),
            default_via: self.default_via@,
            mtu: self.mtu,
            provisioning_mode: self.provisioning_mode,
        }
    }
}

/// The place of the first interface of that name, from place `i` on.
pub open spec fn iface_from(ifs: Seq<IfaceView>, name: Seq<char>, i: int) -> Option<int>
    decreases ifs.len() - i,
{
    if i < 0 || i >= ifs.len() {
        None
    } else if ifs[i].ifname == name {
        Some(i)
    } else {
        iface_from(ifs, name, i + 1)
    }
}

/// `iface_from` gives the first interface of that name, or there is none.
pub proof fn iface_from_is_first(ifs: Seq<IfaceView>, name: Seq<char>, i: int)
    requires
        0 <= i,
    ensures
        match iface_from(ifs, name, i) {
            Some(k) => i <= k < ifs.len() && ifs[k].ifname == name && forall|j: int|
                i <= j < k ==> (#[trigger] ifs[j]).ifname != name,
            None => forall|j: int| i <= j < ifs.len() ==> (#[trigger] ifs[j]).ifname != name,
        },
    decreases ifs.len() - i,
{
    if i < ifs.len() && ifs[i].ifname != name {
        iface_from_is_first(ifs, name, i + 1);
    }
}

impl DeviceView {
    /// The place of the interface of that name.
    pub open spec fn place(self, name: Seq<char>) -> Option<int> {
        iface_from(self.interfaces, name, 0)
    }

    /// The interface of that name.
    pub open spec fn iface(self, name: Seq<char>) -> Option<IfaceView> {
        match self.place(name) {
            Some(i) => Some(self.interfaces[i]),
            None => None,
        }
    }

    /// No two interfaces share a name, and the default route goes through one
    /// of them where there are any.
    pub open spec fn wf(self) -> bool {
        &&& forall|i: int, j: int|
            0 <= i < j < self.interfaces.len() ==> (#[trigger] self.interfaces[i]).ifname
                != (#[trigger] self.interfaces[j]).ifname
        &&& self.interfaces.len() > 0 ==> self.place(self.default_via) is Some
        &&& self.interfaces.len() == 0 ==> self.default_via.len() == 0
    }

    /// The device with an interface added. The first one carries the default
    /// route.
    pub open spec fn plus(self, iface: IfaceView) -> DeviceView {
        DeviceView {
            interfaces: self.interfaces.push(iface),
            default_via: if self.interfaces.len() == 0 {
                iface.ifname
            } else {
                self.default_via
            },
            ..self
        }
    }

    /// The device without the interface at a place. Where that carried the
    /// default route, the first one that is left does.
    pub open spec fn minus(self, i: int) -> DeviceView {
        let rest = self.interfaces.remove(i);
        DeviceView {
            interfaces: rest,
            default_via: if self.default_via == self.interfaces[i].ifname {
                rest[0].ifname
            } else {
                self.default_via
            },
            ..self
        }
    }

    /// The device with one interface replaced.
    pub open spec fn with_iface(self, i: int, iface: IfaceView) -> DeviceView {
        DeviceView { interfaces: self.interfaces.update(i, iface), ..self }
    }
}

/// An interface with a new name keeps the device well formed.
pub proof fn plus_keeps_wf(d: DeviceView, iface: IfaceView)
    requires
        d.wf(),
        d.place(iface.ifname) is None,
    ensures
        d.plus(iface).wf(),
        d.plus(iface).place(iface.ifname) == Some(d.interfaces.len() as int),
{
    let e = d.plus(iface);
    let n = d.interfaces.len() as int;
    iface_from_is_first(d.interfaces, iface.ifname, 0);
    iface_from_is_first(d.interfaces, d.default_via, 0);
    iface_from_is_first(e.interfaces, iface.ifname, 0);
    iface_from_is_first(e.interfaces, e.default_via, 0);
    assert(e.interfaces[n] == iface);
    assert forall|i: int, j: int| 0 <= i < j < e.interfaces.len() implies (
    #[trigger] e.interfaces[i]).ifname != (#[trigger] e.interfaces[j]).ifname by {
        assert(e.interfaces[i] == d.interfaces[i]);
        if j < n {
            assert(e.interfaces[j] == d.interfaces[j]);
        }
    }
    if n > 0 {
        let k = d.place(d.default_via)->0;
        assert(e.interfaces[k] == d.interfaces[k]);
    }
}

/// Taking out one of several interfaces keeps the device well formed.
pub proof fn minus_keeps_wf(d: DeviceView, i: int)
    requires
        d.wf(),
        d.interfaces.len() > 1,
        0 <= i < d.interfaces.len(),
    ensures
        d.minus(i).wf(),
        d.minus(i).place(d.interfaces[i].ifname) is None,
{
    let e = d.minus(i);
    iface_from_is_first(d.interfaces, d.default_via, 0);
    iface_from_is_first(e.interfaces, e.default_via, 0);
    iface_from_is_first(e.interfaces, d.interfaces[i].ifname, 0);
    assert forall|a: int| 0 <= a < e.interfaces.len() implies #[trigger] e.interfaces[a]
        == d.interfaces[if a < i {
        a
    } else {
        a + 1
    }] by {}
    assert forall|a: int, b: int| 0 <= a < b < e.interfaces.len() implies (
    #[trigger] e.interfaces[a]).ifname != (#[trigger] e.interfaces[b]).ifname by {
        let a2 = if a < i {
            a
        } else {
            a + 1
        };
        let b2 = if b < i {
            b
        } else {
            b + 1
        };
        assert(d.interfaces[a2].ifname != d.interfaces[b2].ifname);
    }
    if d.default_via != d.interfaces[i].ifname {
        let k = d.place(d.default_via)->0;
        let k2 = if k < i {
            k
        } else {
            k - 1
        };
        assert(e.interfaces[k2] == d.interfaces[k]);
    }
    if e.place(d.interfaces[i].ifname) is Some {
        let k = e.place(d.interfaces[i].ifname)->0;
        let k2 = if k < i {
            k
        } else {
            k + 1
        };
        assert(e.interfaces[k] == d.interfaces[k2]);
        if k2 < i {
            assert(d.interfaces[k2].ifname != d.interfaces[i].ifname);
        } else {
            assert(d.interfaces[i].ifname != d.interfaces[k2].ifname);
        }
    }
}

/// Changing an interface but for its name keeps the device well formed and
/// every interface in its place.
pub proof fn change_keeps_wf(d: DeviceView, i: int, iface: IfaceView)
    requires
        d.wf(),
        0 <= i < d.interfaces.len(),
        iface.ifname == d.interfaces[i].ifname,
    ensures
        d.with_iface(i, iface).wf(),
        d.with_iface(i, iface).place(iface.ifname) == Some(i),
{
    let e = d.with_iface(i, iface);
    iface_from_is_first(d.interfaces, d.default_via, 0);
    iface_from_is_first(e.interfaces, e.default_via, 0);
    iface_from_is_first(e.interfaces, iface.ifname, 0);
    assert forall|a: int| 0 <= a < e.interfaces.len() implies (#[trigger] e.interfaces[a]).ifname
        == d.interfaces[a].ifname by {}
    assert forall|a: int, b: int| 0 <= a < b < e.interfaces.len() implies (
    #[trigger] e.interfaces[a]).ifname != (#[trigger] e.interfaces[b]).ifname by {
        assert(d.interfaces[a].ifname != d.interfaces[b].ifname);
    }
    if d.place(d.default_via) is Some {
        let k = d.place(d.default_via)->0;
        assert(e.interfaces[k].ifname == d.default_via);
    }
    assert(e.interfaces[i].ifname == iface.ifname);
    let k = e.place(iface.ifname)->0;
    if k < i {
        assert(e.interfaces[k].ifname != e.interfaces[i].ifname);
    }
}

impl DeviceData {
    /// The place of the interface of that name.
    pub fn find_iface(&self, name: &str) -> (r: Option<usize>)
        ensures
            match r {
                Some(i) => self@.place(name@) == Some(i as int) && i < self.interfaces.len(),
                None => self@.place(name@) is None,
            },
    {
        let mut i: usize = 0;
        while i < self.interfaces.len()
            invariant
                i <= self.interfaces.len(),
                self@.place(name@) == iface_from(self@.interfaces, name@, i as int),
            decreases self.interfaces.len() - i,
        {
            if str_eq(self.interfaces[i].ifname.as_str(), name) {
                return Some(i);
            }
            i += 1;
        }
        None
    }

    /// Looks up an interface by name.
    pub fn iface(&self, name: &str) -> (r: Option<&DeviceIfaceData>)
        ensures
            match r {
                Some(i) => self@.iface(name@) == Some(i@),
                None => self@.iface(name@) is None,
            },
    {
        match self.find_iface(name) {
            Some(i) => Some(&self.interfaces[i]),
            None => None,
        }
    }

    /// Returns the interface that carries the default route.
    pub fn default_iface(&self) -> (r: &DeviceIfaceData)
        requires
            self@.place(self@.default_via) is Some,
        ensures
            self@.iface(self@.default_via) == Some(r@),
    {
        let i = self.find_iface(self.default_via.as_str()).unwrap();
        &self.interfaces[i]
    }
}

/// A router and its connections.
#[derive(Debug)]
pub struct RouterData {
    /// Identifies the router.
    pub id: NodeId,
    /// Router name.
    pub name: String,
    /// Router namespace name.
    pub ns: String,
    /// Region label.
    pub region: Option<String>,
    /// Configuration.
    pub cfg: RouterConfig,
    /// Bridge on the downstream side.
    pub downlink_bridge: String,
    /// Uplink switch.
    pub uplink: Option<NodeId>,
    /// Uplink IPv4 address.
    pub upstream_ip: Option<Ipv4Addr>,
    /// Uplink IPv6 address.
    pub upstream_ip_v6: Option<Ipv6Addr>,
    /// Uplink IPv6 link-local address.
    pub upstream_ll_v6: Option<Ipv6Addr>,
    /// Downstream switch.
    pub downlink: Option<NodeId>,
    /// Downstream subnet.
    pub downstream_cidr: Option<Ipv4Net>,
    /// Downstream gateway.
    pub downstream_gw: Option<Ipv4Addr>,
    /// Downstream IPv6 subnet.
    pub downstream_cidr_v6: Option<Ipv6Net>,
    /// Downstream IPv6 gateway.
    pub downstream_gw_v6: Option<Ipv6Addr>,
    /// Link-local address of the downstream bridge.
    pub downstream_ll_v6: Option<Ipv6Addr>,
    /// Advertisement settings in use.
    pub ra_runtime: RaRuntimeCfg,
}

/// What is known of a router.
pub struct RouterView {
    /// Identifies the router.
    pub id: NodeId,
    /// Router name.
    pub name: Seq<char>,
    /// Router namespace name.
    pub ns: Seq<char>,
    /// Region label.
    pub region: Option<Seq<char>>,
    /// Configuration.
    pub cfg: RouterConfig,
    /// Bridge on the downstream side.
    pub downlink_bridge: Seq<char>,
    /// Uplink switch.
    pub uplink: Option<NodeId>,
    /// Uplink IPv4 address.
    pub upstream_ip: Option<Ipv4Addr>,
    /// Uplink IPv6 address.
    pub upstream_ip_v6: Option<Ipv6Addr>,
    /// Uplink IPv6 link-local address.
    pub upstream_ll_v6: Option<Ipv6Addr>,
    /// Downstream switch.
    pub downlink: Option<NodeId>,
    /// Downstream subnet.
    pub downstream_cidr: Option<Ipv4Net>,
    /// Downstream gateway.
    pub downstream_gw: Option<Ipv4Addr>,
    /// Downstream IPv6 subnet.
    pub downstream_cidr_v6: Option<Ipv6Net>,
    /// Downstream IPv6 gateway.
    pub downstream_gw_v6: Option<Ipv6Addr>,
    /// Link-local address of the downstream bridge.
    pub downstream_ll_v6: Option<Ipv6Addr>,
    /// Advertisement settings in use.
    pub ra_runtime: RaRuntimeCfg,
}

/// The view of an optional text.
pub open spec fn opt_view(s: Option<String>) -> Option<Seq<char>> {
    match s {
        Some(t) => Some(t@),
        None => None,
    }
}

impl View for RouterData {
    type V = RouterView;

    open spec fn view(&self) -> RouterView {
        RouterView {
            id: self.id,
            name: self.name@,
            ns: self.ns@,
            region: opt_view(self.region),
            cfg: self.cfg,
            downlink_bridge: self.downlink_bridge@,
            uplink: self.uplink,
            upstream_ip: self.upstream_ip,
            upstream_ip_v6: self.upstream_ip_v6,
            upstream_ll_v6: self.upstream_ll_v6,
            downlink: self.downlink,
            downstream_cidr: self.downstream_cidr,
            downstream_gw: self.downstream_gw,
            downstream_cidr_v6: self.downstream_cidr_v6,
            downstream_gw_v6: self.downstream_gw_v6,
            downstream_ll_v6: self.downstream_ll_v6,
            ra_runtime: self.ra_runtime,
        }
    }
}

impl RouterView {
    /// Whether hosts learn a default route from the router.
    pub open spec fn ra_default_enabled(self) -> bool {
        self.cfg.ra_enabled && self.cfg.ra_lifetime_secs > 0
    }

    /// The link-local gateway that hosts learn from the router.
    pub open spec fn active_ll_v6(self) -> Option<Ipv6Addr> {
        if self.ra_default_enabled() {
            self.downstream_ll_v6
        } else {
            None
        }
    }

    /// The name of the WAN interface: `ix` on the exchange, `wan` below another
    /// router.
    pub open spec fn wan_ifname(self, ix_sw: NodeId) -> Seq<char> {
        if self.uplink == Some(ix_sw) {
            "ix"@
        } else {
            "wan"@
        }
    }
}

impl RouterData {
    /// Whether hosts learn a default route from the router.
    pub fn ra_default_enabled(&self) -> (r: bool)
        ensures
            r == self@.ra_default_enabled(),
    {
        self.cfg.ra_enabled && self.cfg.ra_lifetime_secs > 0
    }

    /// The link-local gateway that hosts learn from the router.
    pub fn active_downstream_ll_v6(&self) -> (r: Option<Ipv6Addr>)
        ensures
            r == self@.active_ll_v6(),
    {
        if self.ra_default_enabled() {
            self.downstream_ll_v6
        } else {
            None
        }
    }

    /// The name of the WAN interface.
    pub fn wan_ifname(&self, ix_sw: NodeId) -> (r: &'static str)
        ensures
            r@ == self@.wan_ifname(ix_sw),
    {
        match self.uplink {
            Some(id) => if id == ix_sw {
                "ix"
            } else {
                "wan"
            },
            None => "wan",
        }
    }
}

/// A switch that nodes attach to.
#[derive(Debug)]
pub struct Switch {
    /// Switch name.
    pub name: String,
    /// IPv4 subnet, if assigned.
    pub cidr: Option<Ipv4Net>,
    /// IPv4 gateway, if assigned.
    pub gw: Option<Ipv4Addr>,
    /// IPv6 subnet, if assigned.
    pub cidr_v6: Option<Ipv6Net>,
    /// IPv6 gateway, if assigned.
    pub gw_v6: Option<Ipv6Addr>,
    /// The router whose downstream side it is.
    pub owner_router: Option<NodeId>,
    /// Name of the bridge behind it.
    pub bridge: Option<String>,
    /// Next host number to hand out.
    pub next_host: u8,
    /// Next IPv6 host number to hand out.
    pub next_host_v6: u8,
}

/// What is known of a switch.
pub struct SwitchView {
    /// Switch name.
    pub name: Seq<char>,
    /// IPv4 subnet, if assigned.
    pub cidr: Option<Ipv4Net>,
    /// IPv4 gateway, if assigned.
    pub gw: Option<Ipv4Addr>,
    /// IPv6 subnet, if assigned.
    pub cidr_v6: Option<Ipv6Net>,
    /// IPv6 gateway, if assigned.
    pub gw_v6: Option<Ipv6Addr>,
    /// The router whose downstream side it is.
    pub owner_router: Option<NodeId>,
    /// Name of the bridge behind it.
    pub bridge: Option<Seq<char>>,
    /// Next host number to hand out.
    pub next_host: u8,
    /// Next IPv6 host number to hand out.
    pub next_host_v6: u8,
}

impl View for Switch {
    type V = SwitchView;

    open spec fn view(&self) -> SwitchView {
        SwitchView {
            name: self.name@,
            cidr: self.cidr,
            gw: self.gw,
            cidr_v6: self.cidr_v6,
            gw_v6: self.gw_v6,
            owner_router: self.owner_router,
            bridge: opt_view(self.bridge),
            next_host: self.next_host,
            next_host_v6: self.next_host_v6,
        }
    }
}

impl SwitchView {
    /// The bridge's name, with the default where none is set.
    pub open spec fn bridge_name(self) -> Seq<char> {
        match self.bridge {
            Some(b) => b,
            None => "br-lan"@,
        }
    }

    /// The IPv4 prefix length, 24 without a subnet.
    pub open spec fn prefix(self) -> u8 {
        match self.cidr {
            Some(c) => c.prefix_len,
            None => 24,
        }
    }

    /// The IPv6 prefix length, 64 without a subnet.
    pub open spec fn prefix_v6(self) -> u8 {
        match self.cidr_v6 {
            Some(c) => c.prefix_len,
            None => 64,
        }
    }
}

impl Switch {
    /// The bridge's name, with the default where none is set.
    pub fn bridge_name(&self) -> (r: String)
        ensures
            r@ == self@.bridge_name(),
    {
        match &self.bridge {
            Some(b) => b.clone(),
            None => "br-lan".to_owned(),
        }
    }

    /// The IPv4 prefix length, 24 without a subnet.
    pub fn prefix(&self) -> (r: u8)
        ensures
            r == self@.prefix(),
    {
        match self.cidr {
            Some(c) => c.prefix_len,
            None => 24,
        }
    }

    /// The IPv6 prefix length, 64 without a subnet.
    pub fn prefix_v6(&self) -> (r: u8)
        ensures
            r == self@.prefix_v6(),
    {
        match self.cidr_v6 {
            Some(c) => c.prefix_len,
            None => 64,
        }
    }
}

/// A region's place in the address plan.
#[derive(Clone, Copy, Debug, PartialEq, Eq, Structural)]
pub struct RegionInfo {
    /// Region index, 1 to 16. Determines the address block.
    pub idx: u8,
    /// The region's router.
    pub router_id: NodeId,
    /// Next downstream /24 in the region's block, 1 to 15.
    pub next_downstream: u8,
}

impl View for RegionInfo {
    type V = RegionInfo;

    open spec fn view(&self) -> RegionInfo {
        *self
    }
}

/// One link between regions.
#[derive(Clone, Copy, Debug, PartialEq, Eq, Structural)]
pub struct RegionLinkData {
    /// Address of the first region's end.
    pub ip_a: Ipv4Addr,
    /// Address of the second region's end.
    pub ip_b: Ipv4Addr,
    /// Whether the link is broken.
    pub broken: bool,
}

impl View for RegionLinkData {
    type V = RegionLinkData;

    open spec fn view(&self) -> RegionLinkData {
        *self
    }
}

/// The names of two linked regions, the smaller one first.
#[derive(Debug)]
pub struct LinkKey {
    /// The smaller name.
    pub a: String,
    /// The larger name.
    pub b: String,
}

impl View for LinkKey {
    type V = (Seq<char>, Seq<char>);

    open spec fn view(&self) -> (Seq<char>, Seq<char>) {
        (self.a@, self.b@)
    }
}

impl TableKey for LinkKey {
    fn same(&self, other: &LinkKey) -> (r: bool) {
        self.a == other.a && self.b == other.b
    }
}

/// Everything needed to wire one interface.
#[derive(Debug)]
pub struct IfaceBuild {
    /// Device namespace.
    pub dev_ns: String,
    /// Gateway namespace.
    pub gw_ns: String,
    /// Gateway address.
    pub gw_ip: Option<Ipv4Addr>,
    /// Gateway bridge.
    pub gw_br: String,
    /// Device address.
    pub dev_ip: Option<Ipv4Addr>,
    /// IPv4 prefix length.
    pub prefix_len: u8,
    /// IPv6 gateway address.
    pub gw_ip_v6: Option<Ipv6Addr>,
    /// IPv6 device address.
    pub dev_ip_v6: Option<Ipv6Addr>,
    /// Link-local gateway address.
    pub gw_ll_v6: Option<Ipv6Addr>,
    /// Link-local device address.
    pub dev_ll_v6: Option<Ipv6Addr>,
    /// IPv6 prefix length.
    pub prefix_len_v6: u8,
    /// Egress impairment.
    pub egress: Option<LinkCondition>,
    /// Ingress impairment.
    pub ingress: Option<LinkCondition>,
    /// Whether it is a dummy.
    pub dummy: bool,
    /// Whether it starts in link-down state.
    pub start_down: bool,
    /// Interface name.
    pub ifname: String,
    /// Whether it carries the default route.
    pub is_default: bool,
    /// Unique index.
    pub idx: u64,
}

/// Everything needed to wire one interface.
pub struct BuildView {
    /// Device namespace.
    pub dev_ns: Seq<char>,
    /// Gateway namespace.
    pub gw_ns: Seq<char>,
    /// Gateway address.
    pub gw_ip: Option<Ipv4Addr>,
    /// Gateway bridge.
    pub gw_br: Seq<char>,
    /// Device address.
    pub dev_ip: Option<Ipv4Addr>,
    /// IPv4 prefix length.
    pub prefix_len: u8,
    /// IPv6 gateway address.
    pub gw_ip_v6: Option<Ipv6Addr>,
    /// IPv6 device address.
    pub dev_ip_v6: Option<Ipv6Addr>,
    /// Link-local gateway address.
    pub gw_ll_v6: Option<Ipv6Addr>,
    /// Link-local device address.
    pub dev_ll_v6: Option<Ipv6Addr>,
    /// IPv6 prefix length.
    pub prefix_len_v6: u8,
    /// Egress impairment.
    pub egress: Option<LinkCondition>,
    /// Ingress impairment.
    pub ingress: Option<LinkCondition>,
    /// Whether it is a dummy.
    pub dummy: bool,
    /// Whether it starts in link-down state.
    pub start_down: bool,
    /// Interface name.
    pub ifname: Seq<char>,
    /// Whether it carries the default route.
    pub is_default: bool,
    /// Unique index.
    pub idx: u64,
}

impl View for IfaceBuild {
    type V = BuildView;

    open spec fn view(&self) -> BuildView {
        BuildView {
            dev_ns: self.dev_ns@,
            gw_ns: self.gw_ns@,
            gw_ip: self.gw_ip,
            gw_br: self.gw_br@,
            dev_ip: self.dev_ip,
            prefix_len: self.prefix_len,
            gw_ip_v6: self.gw_ip_v6,
            dev_ip_v6: self.dev_ip_v6,
            gw_ll_v6: self.gw_ll_v6,
            dev_ll_v6: self.dev_ll_v6,
            prefix_len_v6: self.prefix_len_v6,
            egress: self.egress,
            ingress: self.ingress,
            dummy: self.dummy,
            start_down: self.start_down,
            ifname: self.ifname@,
            is_default: self.is_default,
            idx: self.idx,
        }
    }
}

/// The topology and the pools that addresses come from.
#[derive(Debug)]
pub struct NetworkCore {
    /// Addressing and naming.
    pub cfg: CoreConfig,
    /// Next node identifier.
    pub next_id: u64,
    /// Next private /24.
    pub next_private_subnet: u16,
    /// Next public /24.
    pub next_public_subnet: u16,
    /// Next host on the exchange.
    pub next_ix_low: u8,
    /// Next IPv6 host on the exchange.
    pub next_ix_low_v6: u16,
    /// Next private /64.
    pub next_private_subnet_v6: u16,
    /// Next public /64.
    pub next_public_subnet_v6: u16,
    /// Next number in a bridge name.
    pub bridge_counter: u32,
    /// The exchange's switch.
    pub ix_sw: NodeId,
    /// Devices.
    pub devices: Table<NodeId, DeviceData>,
    /// Routers.
    pub routers: Table<NodeId, RouterData>,
    /// Switches.
    pub switches: Table<NodeId, Switch>,
    /// Nodes by name.
    pub nodes_by_name: Table<String, NodeId>,
    /// Regions by name.
    pub regions: Table<String, RegionInfo>,
    /// Links between regions.
    pub region_links: Table<LinkKey, RegionLinkData>,
    /// Next region index.
    pub next_region_idx: u8,
    /// Next /30 between regions.
    pub next_interregion_subnet: u8,
    /// Next IPv6 subnet between regions.
    pub next_interregion_subnet_v6: u8,
}

/// What is known of the topology.
pub struct CoreView {
    /// Addressing and naming.
    pub cfg: CoreConfig,
    /// Next node identifier.
    pub next_id: u64,
    /// Next private /24.
    pub next_private_subnet: u16,
    /// Next public /24.
    pub next_public_subnet: u16,
    /// Next host on the exchange.
    pub next_ix_low: u8,
    /// Next IPv6 host on the exchange.
    pub next_ix_low_v6: u16,
    /// Next private /64.
    pub next_private_subnet_v6: u16,
    /// Next public /64.
    pub next_public_subnet_v6: u16,
    /// Next number in a bridge name.
    pub bridge_counter: u32,
    /// The exchange's switch.
    pub ix_sw: NodeId,
    /// Devices.
    pub devices: Map<NodeId, DeviceView>,
    /// Routers.
    pub routers: Map<NodeId, RouterView>,
    /// Switches.
    pub switches: Map<NodeId, SwitchView>,
    /// Nodes by name.
    pub names: Map<Seq<char>, NodeId>,
    /// Regions by name.
    pub regions: Map<Seq<char>, RegionInfo>,
    /// Links between regions.
    pub links: Map<(Seq<char>, Seq<char>), RegionLinkData>,
    /// Next region index.
    pub next_region_idx: u8,
    /// Next /30 between regions.
    pub next_interregion_subnet: u8,
    /// Next IPv6 subnet between regions.
    pub next_interregion_subnet_v6: u8,
}

impl View for NetworkCore {
    type V = CoreView;

    open spec fn view(&self) -> CoreView {
        CoreView {
            cfg: self.cfg,
            next_id: self.next_id,
            next_private_subnet: self.next_private_subnet,
            next_public_subnet: self.next_public_subnet,
            next_ix_low: self.next_ix_low,
            next_ix_low_v6: self.next_ix_low_v6,
            next_private_subnet_v6: self.next_private_subnet_v6,
            next_public_subnet_v6: self.next_public_subnet_v6,
            bridge_counter: self.bridge_counter,
            ix_sw: self.ix_sw,
            devices: self.devices@,
            routers: self.routers@,
            switches: self.switches@,
            names: self.nodes_by_name@,
            regions: self.regions@,
            links: self.region_links@,
            next_region_idx: self.next_region_idx,
            next_interregion_subnet: self.next_interregion_subnet,
            next_interregion_subnet_v6: self.next_interregion_subnet_v6,
        }
    }
}

/// Every device is well formed and identified by a number below `next`.
pub open spec fn devices_ok(devices: Map<NodeId, DeviceView>, next: u64) -> bool {
    forall|id: NodeId| #[trigger]
        devices.contains_key(id) ==> devices[id].wf() && id.0 < next
}

/// Every router is identified by a number below `next`.
pub open spec fn routers_ok(routers: Map<NodeId, RouterView>, next: u64) -> bool {
    forall|id: NodeId| #[trigger] routers.contains_key(id) ==> id.0 < next
}

/// Every switch is identified by a number below `next`.
pub open spec fn switches_ok(switches: Map<NodeId, SwitchView>, next: u64) -> bool {
    forall|id: NodeId| #[trigger] switches.contains_key(id) ==> id.0 < next
}

impl CoreView {
    /// Every device is well formed, and every identifier in use is below the
    /// next one.
    pub open spec fn wf(self) -> bool {
        &&& devices_ok(self.devices, self.next_id)
        &&& routers_ok(self.routers, self.next_id)
        &&& switches_ok(self.switches, self.next_id)
    }
}

impl NetworkCore {
    /// No identifier or name occurs twice, every device is well formed, and
    /// every identifier in use is below the next one.
    pub open spec fn wf(self) -> bool {
        &&& self.devices.wf()
        &&& self.routers.wf()
        &&& self.switches.wf()
        &&& self.nodes_by_name.wf()
        &&& self.regions.wf()
        &&& self.region_links.wf()
        &&& self@.wf()
    }
}

} // verus!
