//! Adding, connecting, finding and removing nodes.
use vstd::prelude::*;

use crate::addr::{Ipv4Addr, Ipv4Net, Ipv6Addr, Ipv6Net};
use crate::firewall::Firewall;
use crate::nat_config::{IpSupport, NatConfig, NatV6Mode};
use crate::nft::{nptv6_wan_prefix, wan_prefix};
use crate::profile::Ipv6ProvisioningMode;
use crate::table::{key_has_place, Table};
use crate::text::{dec, push_dec};
use crate::topology::pools::{
    add_host, link_local, link_local_from_seed, seed2, seed3, seed_of_three, seed_of_two,
    DOWNSTREAM_TAG,
};
use crate::topology::types::{
    opt_view, CoreConfig, CoreError, CoreView, DeviceData, DeviceView, DownstreamPool, IfaceView,
    NetworkCore, NodeId, RaRuntimeCfg, RouterConfig, RouterData, RouterView, Switch, SwitchView,
    RA_DEFAULT_ENABLED, RA_DEFAULT_INTERVAL_SECS, RA_DEFAULT_LIFETIME_SECS,
};

verus! {

/// A switch that nothing is attached to yet.
pub open spec fn fresh_switch(
    name: Seq<char>,
    cidr: Option<Ipv4Net>,
    gw: Option<Ipv4Addr>,
    cidr_v6: Option<Ipv6Net>,
    gw_v6: Option<Ipv6Addr>,
) -> SwitchView {
    SwitchView {
        name,
        cidr,
        gw,
        cidr_v6,
        gw_v6,
        owner_router: None,
        bridge: None,
        next_host: 2,
        next_host_v6: 2,
    }
}

/// A lab with nothing but the exchange.
pub open spec fn fresh_core(cfg: CoreConfig) -> CoreView {
    CoreView {
        cfg,
        next_id: 2,
        next_private_subnet: 1,
        next_public_subnet: 1,
        next_ix_low: 10,
        next_ix_low_v6: 0x10,
        next_private_subnet_v6: 1,
        next_public_subnet_v6: 1,
        bridge_counter: 2,
        ix_sw: NodeId(1),
        devices: Map::empty(),
        routers: Map::empty(),
        switches: Map::empty().insert(
            NodeId(1),
            fresh_switch(
                "ix"@,
                Some(cfg.ix_cidr),
                Some(cfg.ix_gw),
                Some(cfg.ix_cidr_v6),
                Some(cfg.ix_gw_v6),
            ),
        ),
        names: Map::empty().insert("ix"@, NodeId(1)),
        regions: Map::empty(),
        links: Map::empty(),
        next_region_idx: 1,
        next_interregion_subnet: 0,
        next_interregion_subnet_v6: 0,
    }
}

/// The namespace of a node: `lab{lab}-{kind}{id}`.
pub open spec fn node_ns(lab: u64, tag: Seq<char>, id: u64) -> Seq<char> {
    "lab"@ + dec(lab as nat) + tag + dec(id as nat)
}

fn node_ns_string(lab: u64, tag: &str, id: u64) -> (r: String)
    ensures
        r@ == node_ns(lab, tag@, id),
{
    let mut ns = "lab".to_owned();
    push_dec(&mut ns, lab);
    ns.append(tag);
    push_dec(&mut ns, id);
    ns
}

/// A router that is not connected yet.
pub open spec fn fresh_router(
    id: NodeId,
    lab: u64,
    name: Seq<char>,
    nat_cfg: Option<NatConfig>,
    downstream_pool: DownstreamPool,
    region: Option<Seq<char>>,
    ip_support: IpSupport,
    nat_v6: NatV6Mode,
    bridge: Seq<char>,
) -> RouterView {
    RouterView {
        id,
        name,
        ns: node_ns(lab, "-r"@, id.0),
        region,
        cfg: RouterConfig {
            nat: nat_cfg,
            downstream_pool,
            nat_v6,
            ip_support,
            mtu: None,
            block_icmp_frag_needed: false,
            firewall: Firewall::Off,
            ra_enabled: RA_DEFAULT_ENABLED,
            ra_interval_secs: RA_DEFAULT_INTERVAL_SECS,
            ra_lifetime_secs: RA_DEFAULT_LIFETIME_SECS,
        },
        downlink_bridge: bridge,
        uplink: None,
        upstream_ip: None,
        upstream_ip_v6: None,
        upstream_ll_v6: None,
        downlink: None,
        downstream_cidr: None,
        downstream_gw: None,
        downstream_cidr_v6: None,
        downstream_gw_v6: None,
        downstream_ll_v6: None,
        ra_runtime: RaRuntimeCfg {
            enabled: RA_DEFAULT_ENABLED,
            interval_secs: RA_DEFAULT_INTERVAL_SECS,
            lifetime_secs: RA_DEFAULT_LIFETIME_SECS,
        },
    }
}

/// A device without interfaces.
pub open spec fn fresh_device(id: NodeId, lab: u64, name: Seq<char>) -> DeviceView {
    DeviceView {
        id,
        name,
        ns: node_ns(lab, "-d"@, id.0),
        interfaces: Seq::empty(),
        default_via: ""@,
        mtu: None,
        provisioning_mode: None,
    }
}

impl CoreView {
    /// The topology with one router replaced.
    pub open spec fn with_router(self, id: NodeId, router: RouterView) -> CoreView {
        CoreView { routers: self.routers.insert(id, router), ..self }
    }

    /// The topology with one device replaced.
    pub open spec fn with_device(self, id: NodeId, device: DeviceView) -> CoreView {
        CoreView { devices: self.devices.insert(id, device), ..self }
    }

    /// The topology with a switch added.
    pub open spec fn added_switch(self, name: Seq<char>, sw: SwitchView) -> CoreView {
        let id = NodeId(self.next_id);
        CoreView {
            names: self.names.insert(name, id),
            switches: self.switches.insert(id, sw),
            ..self.took_id()
        }
    }

    /// The topology with a device added.
    pub open spec fn added_device(self, name: Seq<char>) -> CoreView {
        let id = NodeId(self.next_id);
        CoreView {
            names: self.names.insert(name, id),
            devices: self.devices.insert(id, fresh_device(id, self.cfg.lab_id, name)),
            ..self.took_id()
        }
    }

    /// The topology with a router added.
    pub open spec fn added_router(
        self,
        name: Seq<char>,
        nat_cfg: Option<NatConfig>,
        downstream_pool: DownstreamPool,
        region: Option<Seq<char>>,
        ip_support: IpSupport,
        nat_v6: NatV6Mode,
    ) -> CoreView {
        let id = NodeId(self.next_id);
        CoreView {
            names: self.names.insert(name, id),
            routers: self.routers.insert(
                id,
                fresh_router(
                    id,
                    self.cfg.lab_id,
                    name,
                    nat_cfg,
                    downstream_pool,
                    region,
                    ip_support,
                    nat_v6,
                    self.bridge_name(),
                ),
            ),
            ..self.took_id().took_bridge()
        }
    }

    /// The router of that name.
    pub open spec fn router_named(self, name: Seq<char>) -> Option<NodeId> {
        if self.names.contains_key(name) && self.routers.contains_key(self.names[name]) {
            Some(self.names[name])
        } else {
            None
        }
    }

    /// The device of that name.
    pub open spec fn device_named(self, name: Seq<char>) -> Option<NodeId> {
        if self.names.contains_key(name) && self.devices.contains_key(self.names[name]) {
            Some(self.names[name])
        } else {
            None
        }
    }

    /// Connecting a router to an uplink switch.
    pub open spec fn uplinked(
        self,
        router: NodeId,
        sw: NodeId,
        ip: Option<Ipv4Addr>,
        ip_v6: Option<Ipv6Addr>,
    ) -> CoreView {
        self.with_router(
            router,
            RouterView {
                uplink: Some(sw),
                upstream_ip: ip,
                upstream_ip_v6: ip_v6,
                upstream_ll_v6: if ip_v6 is Some {
                    Some(link_local(seed_of_two(router.0, sw.0)))
                } else {
                    None
                },
                ..self.routers[router]
            },
        )
    }

    /// The IPv4 subnet and gateway of a downstream switch: those it has, else
    /// the subnet asked for, else one from the router's pool. The gateway of a
    /// new subnet is its first host.
    pub open spec fn downstream_v4(
        self,
        router: NodeId,
        sw: NodeId,
        wish: Option<Ipv4Net>,
    ) -> (CoreView, Result<(Option<Ipv4Net>, Option<Ipv4Addr>), CoreError>) {
        let cfg = self.routers[router].cfg;
        if !cfg.ip_support.v4() {
            (self, Ok((None, None)))
        } else if !self.switches.contains_key(sw) {
            (self, Err(CoreError::UnknownSwitch))
        } else {
            match self.switches[sw].cidr {
                Some(cidr) => match self.switches[sw].gw {
                    Some(gw) => (self, Ok((Some(cidr), Some(gw)))),
                    None => (self, Err(CoreError::NoGateway)),
                },
                None => match wish {
                    Some(cidr) => (self, Ok((Some(cidr), Some(cidr.addr.host(1))))),
                    None => {
                        let (after, r) = match cfg.downstream_pool {
                            DownstreamPool::Private => self.alloc_private(),
                            DownstreamPool::Public => self.alloc_public(),
                        };
                        match r {
                            Ok(cidr) => (after, Ok((Some(cidr), Some(cidr.addr.host(1))))),
                            Err(e) => (after, Err(e)),
                        }
                    },
                },
            }
        }
    }

    /// The IPv6 subnet and gateway of a downstream switch: those it has, else a
    /// subnet from the router's pool with its first host.
    pub open spec fn downstream_v6(self, router: NodeId, sw: NodeId) -> (
        CoreView,
        Result<(Option<Ipv6Net>, Option<Ipv6Addr>), CoreError>,
    ) {
        let cfg = self.routers[router].cfg;
        if !cfg.ip_support.v6() {
            (self, Ok((None, None)))
        } else if !self.switches.contains_key(sw) {
            (self, Err(CoreError::UnknownSwitch))
        } else if self.switches[sw].cidr_v6 is Some {
            (self, Ok((self.switches[sw].cidr_v6, self.switches[sw].gw_v6)))
        } else {
            let (after, r) = match cfg.downstream_pool {
                DownstreamPool::Private => self.alloc_private_v6(),
                DownstreamPool::Public => self.alloc_public_v6(),
            };
            match r {
                Ok(cidr) => (after, Ok((Some(cidr), Some(cidr.addr.host(1))))),
                Err(e) => (after, Err(e)),
            }
        }
    }

    /// The topology once a router and its downstream switch know each other.
    pub open spec fn joined(
        self,
        router: NodeId,
        sw: NodeId,
        cidr: Option<Ipv4Net>,
        gw: Option<Ipv4Addr>,
        cidr_v6: Option<Ipv6Net>,
        gw_v6: Option<Ipv6Addr>,
    ) -> CoreView {
        let s = self.switches[sw];
        let r = self.routers[router];
        self.with_switch(
            sw,
            SwitchView {
                cidr: if cidr is Some {
                    cidr
                } else {
                    s.cidr
                },
                gw: if cidr is Some {
                    gw
                } else {
                    s.gw
                },
                cidr_v6: if cidr_v6 is Some {
                    cidr_v6
                } else {
                    s.cidr_v6
                },
                gw_v6: if cidr_v6 is Some {
                    gw_v6
                } else {
                    s.gw_v6
                },
                owner_router: Some(router),
                bridge: Some(r.downlink_bridge),
                ..s
            },
        ).with_router(
            router,
            RouterView {
                downlink: Some(sw),
                downstream_cidr: cidr,
                downstream_gw: gw,
                downstream_cidr_v6: cidr_v6,
                downstream_gw_v6: gw_v6,
                downstream_ll_v6: if cidr_v6 is Some {
                    Some(link_local(seed_of_three(router.0, sw.0, DOWNSTREAM_TAG)))
                } else {
                    None
                },
                ..r
            },
        )
    }

    /// Connecting a router to a downstream switch.
    pub open spec fn downlinked(self, router: NodeId, sw: NodeId, wish: Option<Ipv4Net>) -> (
        CoreView,
        Result<(Option<Ipv4Net>, Option<Ipv4Addr>), CoreError>,
    ) {
        if !self.routers.contains_key(router) {
            (self, Err(CoreError::UnknownRouter))
        } else {
            let (c1, v4) = self.downstream_v4(router, sw, wish);
            match v4 {
                Err(e) => (c1, Err(e)),
                Ok((cidr, gw)) => {
                    let (c2, v6) = c1.downstream_v6(router, sw);
                    match v6 {
                        Err(e) => (c2, Err(e)),
                        Ok((cidr_v6, gw_v6)) => (
                            c2.joined(router, sw, cidr, gw, cidr_v6, gw_v6),
                            Ok((cidr, gw)),
                        ),
                    }
                },
            }
        }
    }

    /// Whether an interface of some device is connected to the switch.
    pub open spec fn in_use(self, sw: NodeId) -> bool {
        exists|id: NodeId| #[trigger] self.devices.contains_key(id) && uses(self.devices[id], sw)
    }
}

/// Whether an interface of the device is connected to the switch.
pub open spec fn uses(d: DeviceView, sw: NodeId) -> bool {
    exists|i: int| 0 <= i < d.interfaces.len() && (#[trigger] d.interfaces[i]).uplink() == Some(sw)
}

/// The place of the first interface connected to the switch, from place `i` on.
pub open spec fn uplink_from(ifs: Seq<IfaceView>, sw: NodeId, i: int) -> Option<int>
    decreases ifs.len() - i,
{
    if i < 0 || i >= ifs.len() {
        None
    } else if ifs[i].uplink() == Some(sw) {
        Some(i)
    } else {
        uplink_from(ifs, sw, i + 1)
    }
}

/// `uplink_from` finds an interface exactly where the device uses the switch.
pub proof fn uplink_from_is_exact(ifs: Seq<IfaceView>, sw: NodeId, i: int)
    requires
        0 <= i,
    ensures
        match uplink_from(ifs, sw, i) {
            Some(k) => i <= k < ifs.len() && ifs[k].uplink() == Some(sw),
            None => forall|j: int|
                i <= j < ifs.len() ==> (#[trigger] ifs[j]).uplink() != Some(sw),
        },
    decreases ifs.len() - i,
{
    if i < ifs.len() && ifs[i].uplink() != Some(sw) {
        uplink_from_is_exact(ifs, sw, i + 1);
    }
}

/// The namespace and interface on which a device's link to a router is found.
pub open spec fn device_link(dev: DeviceView, router: RouterView) -> Result<
    (Seq<char>, Seq<char>),
    CoreError,
> {
    match router.downlink {
        None => Err(CoreError::NoDownlink),
        Some(sw) => match uplink_from(dev.interfaces, sw, 0) {
            Some(i) => Ok((dev.ns, dev.interfaces[i].ifname)),
            None => Err(CoreError::NotConnected),
        },
    }
}

impl CoreView {
    /// The namespace and interface of the link between two nodes: the device's
    /// interface, or the WAN interface of the lower of two routers.
    pub open spec fn link_target(self, a: NodeId, b: NodeId) -> Result<
        (Seq<char>, Seq<char>),
        CoreError,
    > {
        if self.devices.contains_key(a) && self.routers.contains_key(b) {
            device_link(self.devices[a], self.routers[b])
        } else if self.devices.contains_key(b) && self.routers.contains_key(a) {
            device_link(self.devices[b], self.routers[a])
        } else if self.routers.contains_key(a) && self.routers.contains_key(b) {
            let ra = self.routers[a];
            let rb = self.routers[b];
            if ra.downlink is Some && rb.uplink == ra.downlink {
                Ok((rb.ns, rb.wan_ifname(self.ix_sw)))
            } else if rb.downlink is Some && ra.uplink == rb.downlink {
                Ok((ra.ns, ra.wan_ifname(self.ix_sw)))
            } else {
                Err(CoreError::NotConnected)
            }
        } else {
            Err(CoreError::NotConnected)
        }
    }
}

/// What is needed to configure NAT on a router.
#[derive(Debug)]
pub struct RouterNatParams {
    /// Namespace.
    pub ns: String,
    /// Interface on the downstream side.
    pub lan_if: String,
    /// Interface on the upstream side.
    pub wan_if: &'static str,
    /// Upstream address.
    pub upstream_ip: Ipv4Addr,
}

/// What is needed to configure IPv6 NAT on a router.
#[derive(Debug)]
pub struct RouterNatV6Params {
    /// Namespace.
    pub ns: String,
    /// Interface on the upstream side.
    pub wan_if: &'static str,
    /// Downstream prefix.
    pub lan_prefix: Ipv6Net,
    /// Upstream prefix.
    pub wan_prefix: Ipv6Net,
}

/// Gateways that hosts on a switch can use for IPv6.
#[derive(Clone, Copy, Debug, PartialEq, Eq, Structural)]
pub struct DownlinkV6Gateways {
    /// Global address.
    pub global_v6: Option<Ipv6Addr>,
    /// Link-local address.
    pub link_local_v6: Option<Ipv6Addr>,
}

/// A device that follows a router's advertisements.
#[derive(Debug)]
pub struct DeviceDefaultV6RouteTarget {
    /// Namespace.
    pub ns: String,
    /// Interface of the default route.
    pub ifname: String,
}

impl View for DeviceDefaultV6RouteTarget {
    type V = (Seq<char>, Seq<char>);

    open spec fn view(&self) -> (Seq<char>, Seq<char>) {
        (self.ns@, self.ifname@)
    }
}

/// Where a device's default route is to be changed when its router's
/// advertisements change: its default interface, if it follows them, is on the
/// switch and has an IPv6 address.
pub open spec fn v6_target(dev: DeviceView, sw: NodeId, mode: Ipv6ProvisioningMode) -> Option<
    (Seq<char>, Seq<char>),
> {
    let own = match dev.provisioning_mode {
        Some(m) => m,
        None => mode,
    };
    match dev.iface(dev.default_via) {
        Some(i) => if own is RaDriven && i.uplink() == Some(sw) && i.ip_v6 is Some {
            Some((dev.ns, i.ifname))
        } else {
            None
        },
        None => None,
    }
}

/// The targets among the devices, in order.
pub open spec fn v6_targets(
    devices: Seq<(NodeId, DeviceView)>,
    sw: NodeId,
    mode: Ipv6ProvisioningMode,
) -> Seq<(Seq<char>, Seq<char>)>
    decreases devices.len(),
{
    if devices.len() == 0 {
        Seq::empty()
    } else {
        let before = v6_targets(devices.drop_last(), sw, mode);
        match v6_target(devices.last().1, sw, mode) {
            Some(t) => before.push(t),
            None => before,
        }
    }
}

/// The views of a list of targets.
pub open spec fn target_views(v: Seq<DeviceDefaultV6RouteTarget>) -> Seq<(Seq<char>, Seq<char>)> {
    Seq::new(v.len(), |i: int| v[i]@)
}

fn uses_switch(d: &DeviceData, sw: NodeId) -> (r: bool)
    ensures
        r == uses(d@, sw),
{
    let mut i: usize = 0;
    while i < d.interfaces.len()
        invariant
            i <= d.interfaces.len(),
            forall|j: int| 0 <= j < i ==> (#[trigger] d@.interfaces[j]).uplink() != Some(sw),
        decreases d.interfaces.len() - i,
    {
        if let Some(id) = d.interfaces[i].uplink() {
            if id == sw {
                assert(d@.interfaces[i as int].uplink() == Some(sw));
                return true;
            }
        }
        assert(d@.interfaces[i as int].uplink() != Some(sw));
        i += 1;
    }
    false
}

fn device_link_names(dev: &DeviceData, router: &RouterData) -> (r: Result<
    (String, String),
    CoreError,
>)
    ensures
        match r {
            Ok((ns, ifname)) => device_link(dev@, router@) == Ok::<
                (Seq<char>, Seq<char>),
                CoreError,
            >((ns@, ifname@)),
            Err(e) => device_link(dev@, router@) == Err::<(Seq<char>, Seq<char>), CoreError>(e),
        },
{
    let sw = match router.downlink {
        None => {
            return Err(CoreError::NoDownlink);
        },
        Some(sw) => sw,
    };
    let mut i: usize = 0;
    while i < dev.interfaces.len()
        invariant
            i <= dev.interfaces.len(),
            router@.downlink == Some(sw),
            uplink_from(dev@.interfaces, sw, 0) == uplink_from(dev@.interfaces, sw, i as int),
        decreases dev.interfaces.len() - i,
    {
        let here = match dev.interfaces[i].uplink() {
            Some(id) => id == sw,
            None => false,
        };
        if here {
            return Ok((dev.ns.clone(), dev.interfaces[i].ifname.clone()));
        }
        i += 1;
    }
    Err(CoreError::NotConnected)
}

impl NetworkCore {
    /// Constructs a topology with nothing but the exchange.
    pub fn new(cfg: CoreConfig) -> (r: NetworkCore)
        ensures
            r.wf(),
            r@ == fresh_core(cfg),
    {
        let cidr = Some(cfg.ix_cidr);
        let gw = Some(cfg.ix_gw);
        let cidr_v6 = Some(cfg.ix_cidr_v6);
        let gw_v6 = Some(cfg.ix_gw_v6);
        let mut core = NetworkCore {
            cfg,
            next_id: 1,
            next_private_subnet: 1,
            next_public_subnet: 1,
            next_ix_low: 10,
            next_ix_low_v6: 0x10,
            next_private_subnet_v6: 1,
            next_public_subnet_v6: 1,
            bridge_counter: 2,
            ix_sw: NodeId(0),
            devices: Table::new(),
            routers: Table::new(),
            switches: Table::new(),
            nodes_by_name: Table::new(),
            regions: Table::new(),
            region_links: Table::new(),
            next_region_idx: 1,
            next_interregion_subnet: 0,
            next_interregion_subnet_v6: 0,
        };
        let ix_sw = core.add_switch("ix", cidr, gw, cidr_v6, gw_v6);
        core.ix_sw = ix_sw;
        core
    }

    /// Returns the exchange's gateway.
    pub fn ix_gw(&self) -> (r: Ipv4Addr)
        ensures
            r == self@.cfg.ix_gw,
    {
        self.cfg.ix_gw
    }

    /// Returns the exchange's switch.
    pub fn ix_sw(&self) -> (r: NodeId)
        ensures
            r == self@.ix_sw,
    {
        self.ix_sw
    }

    /// Returns the name of the root namespace.
    pub fn root_ns(&self) -> (r: &str)
        ensures
            r@ == self@.cfg.root_ns@,
    {
        self.cfg.root_ns.as_str()
    }

    /// Returns a router.
    pub fn router(&self, id: NodeId) -> (r: Option<&RouterData>)
        requires
            self.wf(),
        ensures
            match r {
                Some(x) => self@.routers.contains_key(id) && self@.routers[id] == x@,
                None => !self@.routers.contains_key(id),
            },
    {
        self.routers.get(&id)
    }

    /// Returns a device.
    pub fn device(&self, id: NodeId) -> (r: Option<&DeviceData>)
        requires
            self.wf(),
        ensures
            match r {
                Some(x) => self@.devices.contains_key(id) && self@.devices[id] == x@,
                None => !self@.devices.contains_key(id),
            },
    {
        self.devices.get(&id)
    }

    /// Returns a switch.
    pub fn switch(&self, id: NodeId) -> (r: Option<&Switch>)
        requires
            self.wf(),
        ensures
            match r {
                Some(x) => self@.switches.contains_key(id) && self@.switches[id] == x@,
                None => !self@.switches.contains_key(id),
            },
    {
        self.switches.get(&id)
    }

    /// Returns the router of that name, or `None` if it names no router.
    pub fn router_id_by_name(&self, name: &str) -> (r: Option<NodeId>)
        requires
            self.wf(),
        ensures
            r == self@.router_named(name@),
    {
        match self.nodes_by_name.get(&name.to_owned()) {
            Some(id) => if self.routers.contains_key(id) {
                Some(*id)
            } else {
                None
            },
            None => None,
        }
    }

    /// Returns the device of that name, or `None` if it names no device.
    pub fn device_id_by_name(&self, name: &str) -> (r: Option<NodeId>)
        requires
            self.wf(),
        ensures
            r == self@.device_named(name@),
    {
        match self.nodes_by_name.get(&name.to_owned()) {
            Some(id) => if self.devices.contains_key(id) {
                Some(*id)
            } else {
                None
            },
            None => None,
        }
    }

    /// Returns what is needed to configure NAT on a router.
    pub fn router_nat_params(&self, id: NodeId) -> (r: Result<RouterNatParams, CoreError>)
        requires
            self.wf(),
        ensures
            !self@.routers.contains_key(id) ==> r is Err && r->Err_0 == CoreError::UnknownRouter,
            self@.routers.contains_key(id) && self@.routers[id].upstream_ip is None ==> r is Err
                && r->Err_0 == CoreError::NoUpstreamIp,
            self@.routers.contains_key(id) && self@.routers[id].upstream_ip is Some ==> {
                let x = self@.routers[id];
                &&& r is Ok
                &&& r->Ok_0.ns@ == x.ns
                &&& r->Ok_0.lan_if@ == x.downlink_bridge
                &&& r->Ok_0.wan_if@ == x.wan_ifname(self@.ix_sw)
                &&& r->Ok_0.upstream_ip == x.upstream_ip->0
            },
    {
        let router = match self.routers.get(&id) {
            Some(x) => x,
            None => {
                return Err(CoreError::UnknownRouter);
            },
        };
        match router.upstream_ip {
            None => Err(CoreError::NoUpstreamIp),
            Some(upstream_ip) => Ok(
                RouterNatParams {
                    ns: router.ns.clone(),
                    lan_if: router.downlink_bridge.clone(),
                    wan_if: router.wan_ifname(self.ix_sw),
                    upstream_ip,
                },
            ),
        }
    }

    /// Stores an updated NAT mode on a router.
    pub fn set_router_nat_mode(&mut self, id: NodeId, mode: Option<NatConfig>) -> (r: Result<
        (),
        CoreError,
    >)
        requires
            old(self).wf(),
        ensures
            final(self).wf(),
            r is Ok == old(self)@.routers.contains_key(id),
            r is Err ==> r->Err_0 == CoreError::UnknownRouter && final(self)@ == old(self)@,
            r is Ok ==> {
                let x = old(self)@.routers[id];
                final(self)@ == old(self)@.with_router(
                    id,
                    RouterView { cfg: RouterConfig { nat: mode, ..x.cfg }, ..x },
                )
            },
    {
        match self.routers.get_mut(&id) {
            Some(router) => {
                router.cfg.nat = mode;
                Ok(())
            },
            None => Err(CoreError::UnknownRouter),
        }
    }

    /// Returns what is needed to configure IPv6 NAT on a router.
    pub fn router_nat_v6_params(&self, id: NodeId) -> (r: Result<RouterNatV6Params, CoreError>)
        requires
            self.wf(),
        ensures
            r is Ok == self@.routers.contains_key(id),
            r is Err ==> r->Err_0 == CoreError::UnknownRouter,
            r is Ok ==> {
                let x = self@.routers[id];
                let lan = match x.downstream_cidr_v6 {
                    Some(c) => c,
                    None => Ipv6Net {
                        addr: Ipv6Addr::of(0xfd10, 0, 0, 0, 0, 0, 0, 0),
                        prefix_len: 64,
                    },
                };
                let up = match x.upstream_ip_v6 {
                    Some(a) => a,
                    None => Ipv6Addr { bits: 0 },
                };
                &&& r->Ok_0.ns@ == x.ns
                &&& r->Ok_0.wan_if@ == x.wan_ifname(self@.ix_sw)
                &&& r->Ok_0.lan_prefix == lan
                &&& r->Ok_0.wan_prefix == wan_prefix(up, lan.prefix_len)
            },
    {
        let router = match self.routers.get(&id) {
            Some(x) => x,
            None => {
                return Err(CoreError::UnknownRouter);
            },
        };
        let lan_prefix = match router.downstream_cidr_v6 {
            Some(c) => c,
            None => Ipv6Net { addr: Ipv6Addr::new(0xfd10, 0, 0, 0, 0, 0, 0, 0), prefix_len: 64 },
        };
        let up_ip = match router.upstream_ip_v6 {
            Some(a) => a,
            None => Ipv6Addr::unspecified(),
        };
        Ok(
            RouterNatV6Params {
                ns: router.ns.clone(),
                wan_if: router.wan_ifname(self.ix_sw),
                lan_prefix,
                wan_prefix: nptv6_wan_prefix(up_ip, lan_prefix.prefix_len),
            },
        )
    }

    /// Stores an updated IPv6 NAT mode on a router.
    pub fn set_router_nat_v6_mode(&mut self, id: NodeId, mode: NatV6Mode) -> (r: Result<
        (),
        CoreError,
    >)
        requires
            old(self).wf(),
        ensures
            final(self).wf(),
            r is Ok == old(self)@.routers.contains_key(id),
            r is Err ==> r->Err_0 == CoreError::UnknownRouter && final(self)@ == old(self)@,
            r is Ok ==> {
                let x = old(self)@.routers[id];
                final(self)@ == old(self)@.with_router(
                    id,
                    RouterView { cfg: RouterConfig { nat_v6: mode, ..x.cfg }, ..x },
                )
            },
    {
        match self.routers.get_mut(&id) {
            Some(router) => {
                router.cfg.nat_v6 = mode;
                Ok(())
            },
            None => Err(CoreError::UnknownRouter),
        }
    }

    /// Stores an updated firewall on a router.
    pub fn set_router_firewall(&mut self, id: NodeId, fw: Firewall) -> (r: Result<(), CoreError>)
        requires
            old(self).wf(),
        ensures
            final(self).wf(),
            r is Ok == old(self)@.routers.contains_key(id),
            r is Err ==> r->Err_0 == CoreError::UnknownRouter && final(self)@ == old(self)@,
            r is Ok ==> {
                let x = old(self)@.routers[id];
                final(self)@ == old(self)@.with_router(
                    id,
                    RouterView { cfg: RouterConfig { firewall: fw, ..x.cfg }, ..x },
                )
            },
    {
        match self.routers.get_mut(&id) {
            Some(router) => {
                router.cfg.firewall = fw;
                Ok(())
            },
            None => Err(CoreError::UnknownRouter),
        }
    }

    /// Returns a copy of a router's configuration.
    pub fn router_effective_cfg(&self, id: NodeId) -> (r: Result<RouterConfig, CoreError>)
        requires
            self.wf(),
        ensures
            r is Ok == self@.routers.contains_key(id),
            r is Err ==> r->Err_0 == CoreError::UnknownRouter,
            r is Ok ==> {
                let c = self@.routers[id].cfg;
                &&& r->Ok_0 == RouterConfig { firewall: r->Ok_0.firewall, ..c }
                &&& r->Ok_0.firewall@ == c.firewall@
            },
    {
        match self.routers.get(&id) {
            Some(router) => Ok(router.cfg.copy()),
            None => Err(CoreError::UnknownRouter),
        }
    }

    /// Adds a router and returns its identifier.
    pub fn add_router(
        &mut self,
        name: &str,
        nat_cfg: Option<NatConfig>,
        downstream_pool: DownstreamPool,
        region: Option<String>,
        ip_support: IpSupport,
        nat_v6: NatV6Mode,
    ) -> (r: NodeId)
        requires
            old(self).wf(),
            old(self).next_id < u64::MAX,
        ensures
            final(self).wf(),
            r == NodeId(old(self)@.next_id),
            final(self)@ == old(self)@.added_router(
                name@,
                nat_cfg,
                downstream_pool,
                opt_view(region),
                ip_support,
                nat_v6,
            ),
    {
        let id = NodeId(self.alloc_id());
        let ns = node_ns_string(self.cfg.lab_id, "-r", id.0);
        let downlink_bridge = self.next_bridge_name();
        self.nodes_by_name.insert(name.to_owned(), id);
        self.routers.insert(
            id,
            RouterData {
                id,
                name: name.to_owned(),
                ns,
                region,
                cfg: RouterConfig {
                    nat: nat_cfg,
                    downstream_pool,
                    nat_v6,
                    ip_support,
                    mtu: None,
                    block_icmp_frag_needed: false,
                    firewall: Firewall::Off,
                    ra_enabled: RA_DEFAULT_ENABLED,
                    ra_interval_secs: RA_DEFAULT_INTERVAL_SECS,
                    ra_lifetime_secs: RA_DEFAULT_LIFETIME_SECS,
                },
                downlink_bridge,
                uplink: None,
                upstream_ip: None,
                upstream_ip_v6: None,
                upstream_ll_v6: None,
                downlink: None,
                downstream_cidr: None,
                downstream_gw: None,
                downstream_cidr_v6: None,
                downstream_gw_v6: None,
                downstream_ll_v6: None,
                ra_runtime: RaRuntimeCfg::new(
                    RA_DEFAULT_ENABLED,
                    RA_DEFAULT_INTERVAL_SECS,
                    RA_DEFAULT_LIFETIME_SECS,
                ),
            },
        );
        id
    }

    /// Adds a device without interfaces and returns its identifier.
    pub fn add_device(&mut self, name: &str) -> (r: NodeId)
        requires
            old(self).wf(),
            old(self).next_id < u64::MAX,
        ensures
            final(self).wf(),
            r == NodeId(old(self)@.next_id),
            final(self)@ == old(self)@.added_device(name@),
    {
        let id = NodeId(self.alloc_id());
        let ns = node_ns_string(self.cfg.lab_id, "-d", id.0);
        self.nodes_by_name.insert(name.to_owned(), id);
        let dev = DeviceData {
            id,
            name: name.to_owned(),
            ns,
            interfaces: Vec::new(),
            default_via: "".to_owned(),
            mtu: None,
            provisioning_mode: None,
        };
        assert(dev@.interfaces =~= Seq::<IfaceView>::empty());
        proof {
            reveal_strlit("");
        }
        self.devices.insert(id, dev);
        id
    }

    /// Adds a switch and returns its identifier.
    pub fn add_switch(
        &mut self,
        name: &str,
        cidr: Option<Ipv4Net>,
        gw: Option<Ipv4Addr>,
        cidr_v6: Option<Ipv6Net>,
        gw_v6: Option<Ipv6Addr>,
    ) -> (r: NodeId)
        requires
            old(self).wf(),
            old(self).next_id < u64::MAX,
        ensures
            final(self).wf(),
            r == NodeId(old(self)@.next_id),
            final(self)@ == old(self)@.added_switch(
                name@,
                fresh_switch(name@, cidr, gw, cidr_v6, gw_v6),
            ),
    {
        let id = NodeId(self.alloc_id());
        self.nodes_by_name.insert(name.to_owned(), id);
        self.switches.insert(
            id,
            Switch {
                name: name.to_owned(),
                cidr,
                gw,
                cidr_v6,
                gw_v6,
                owner_router: None,
                bridge: None,
                next_host: 2,
                next_host_v6: 2,
            },
        );
        id
    }

    /// Connects a router to an uplink switch.
    pub fn connect_router_uplink(
        &mut self,
        router: NodeId,
        sw: NodeId,
        ip: Option<Ipv4Addr>,
        ip_v6: Option<Ipv6Addr>,
    ) -> (r: Result<(), CoreError>)
        requires
            old(self).wf(),
        ensures
            final(self).wf(),
            r is Ok == old(self)@.routers.contains_key(router),
            r is Err ==> r->Err_0 == CoreError::UnknownRouter && final(self)@ == old(self)@,
            r is Ok ==> final(self)@ == old(self)@.uplinked(router, sw, ip, ip_v6),
    {
        match self.routers.get_mut(&router) {
            Some(entry) => {
                entry.uplink = Some(sw);
                entry.upstream_ip = ip;
                entry.upstream_ip_v6 = ip_v6;
                entry.upstream_ll_v6 = if ip_v6.is_some() {
                    Some(link_local_from_seed(seed2(router.0, sw.0)))
                } else {
                    None
                };
                Ok(())
            },
            None => Err(CoreError::UnknownRouter),
        }
    }

    fn pick_downstream_v4(
        &mut self,
        router: NodeId,
        sw: NodeId,
        pool: DownstreamPool,
        has_v4: bool,
        wish: Option<Ipv4Net>,
    ) -> (r: Result<(Option<Ipv4Net>, Option<Ipv4Addr>), CoreError>)
        requires
            old(self).wf(),
            old(self)@.routers[router].cfg.downstream_pool == pool,
            old(self)@.routers[router].cfg.ip_support.v4() == has_v4,
        ensures
            final(self).wf(),
            (final(self)@, r) == old(self)@.downstream_v4(router, sw, wish),
    {
        if !has_v4 {
            return Ok((None, None));
        }
        match self.switches.get(&sw) {
            None => {
                return Err(CoreError::UnknownSwitch);
            },
            Some(entry) => {
                if let Some(cidr) = entry.cidr {
                    return match entry.gw {
                        Some(gw) => Ok((Some(cidr), Some(gw))),
                        None => Err(CoreError::NoGateway),
                    };
                }
            },
        }
        let cidr = match wish {
            Some(cidr) => cidr,
            None => {
                let taken = match pool {
                    DownstreamPool::Private => self.alloc_private_cidr(),
                    DownstreamPool::Public => self.alloc_public_cidr(),
                };
                match taken {
                    Ok(cidr) => cidr,
                    Err(e) => {
                        return Err(e);
                    },
                }
            },
        };
        match add_host(cidr, 1) {
            Ok(gw) => Ok((Some(cidr), Some(gw))),
            Err(e) => Err(e),
        }
    }

    fn pick_downstream_v6(
        &mut self,
        router: NodeId,
        sw: NodeId,
        pool: DownstreamPool,
        has_v6: bool,
    ) -> (r: Result<(Option<Ipv6Net>, Option<Ipv6Addr>), CoreError>)
        requires
            old(self).wf(),
            old(self)@.routers[router].cfg.downstream_pool == pool,
            old(self)@.routers[router].cfg.ip_support.v6() == has_v6,
        ensures
            final(self).wf(),
            (final(self)@, r) == old(self)@.downstream_v6(router, sw),
    {
        if !has_v6 {
            return Ok((None, None));
        }
        match self.switches.get(&sw) {
            None => {
                return Err(CoreError::UnknownSwitch);
            },
            Some(entry) => {
                if entry.cidr_v6.is_some() {
                    return Ok((entry.cidr_v6, entry.gw_v6));
                }
            },
        }
        let taken = match pool {
            DownstreamPool::Private => self.alloc_private_cidr_v6(),
            DownstreamPool::Public => self.alloc_public_cidr_v6(),
        };
        match taken {
            Ok(cidr) => Ok((Some(cidr), Some(cidr.addr.with_host(1)))),
            Err(e) => Err(e),
        }
    }

    /// Connects a router to a downstream switch and returns the subnet and
    /// gateway. A subnet that is asked for is used in place of one from the
    /// router's pool.
    pub fn connect_router_downlink(
        &mut self,
        router: NodeId,
        sw: NodeId,
        override_cidr: Option<Ipv4Net>,
    ) -> (r: Result<(Option<Ipv4Net>, Option<Ipv4Addr>), CoreError>)
        requires
            old(self).wf(),
        ensures
            final(self).wf(),
            (final(self)@, r) == old(self)@.downlinked(router, sw, override_cidr),
    {
        let (pool, has_v4, has_v6, bridge) = match self.routers.get(&router) {
            None => {
                return Err(CoreError::UnknownRouter);
            },
            Some(data) => (
                data.cfg.downstream_pool,
                data.cfg.ip_support.has_v4(),
                data.cfg.ip_support.has_v6(),
                data.downlink_bridge.clone(),
            ),
        };
        let (cidr, gw) = match self.pick_downstream_v4(router, sw, pool, has_v4, override_cidr) {
            Ok(x) => x,
            Err(e) => {
                return Err(e);
            },
        };
        let (cidr_v6, gw_v6) = match self.pick_downstream_v6(router, sw, pool, has_v6) {
            Ok(x) => x,
            Err(e) => {
                return Err(e);
            },
        };
        if let Some(entry) = self.switches.get_mut(&sw) {
            if cidr.is_some() {
                entry.cidr = cidr;
                entry.gw = gw;
            }
            if cidr_v6.is_some() {
                entry.cidr_v6 = cidr_v6;
                entry.gw_v6 = gw_v6;
            }
            entry.owner_router = Some(router);
            entry.bridge = Some(bridge);
        }
        if let Some(entry) = self.routers.get_mut(&router) {
            entry.downlink = Some(sw);
            entry.downstream_cidr = cidr;
            entry.downstream_gw = gw;
            entry.downstream_cidr_v6 = cidr_v6;
            entry.downstream_gw_v6 = gw_v6;
            entry.downstream_ll_v6 = if cidr_v6.is_some() {
                Some(link_local_from_seed(seed3(router.0, sw.0, DOWNSTREAM_TAG)))
            } else {
                None
            };
        }
        Ok((cidr, gw))
    }

    /// Returns the gateway of a switch.
    pub fn router_downlink_gw_for_switch(&self, sw: NodeId) -> (r: Result<Ipv4Addr, CoreError>)
        requires
            self.wf(),
        ensures
            r == (if self@.switches.contains_key(sw) && self@.switches[sw].gw is Some {
                Ok::<Ipv4Addr, CoreError>(self@.switches[sw].gw->0)
            } else {
                Err::<Ipv4Addr, CoreError>(CoreError::NoGateway)
            }),
    {
        match self.switches.get(&sw) {
            Some(s) => match s.gw {
                Some(gw) => Ok(gw),
                None => Err(CoreError::NoGateway),
            },
            None => Err(CoreError::NoGateway),
        }
    }

    /// Returns the IPv6 gateways of a switch.
    pub fn router_downlink_gw6_for_switch(&self, sw: NodeId) -> (r: Result<
        DownlinkV6Gateways,
        CoreError,
    >)
        requires
            self.wf(),
        ensures
            r is Ok == self@.switches.contains_key(sw),
            r is Err ==> r->Err_0 == CoreError::UnknownSwitch,
            r is Ok ==> {
                let s = self@.switches[sw];
                let owned = s.owner_router is Some && self@.routers.contains_key(
                    s.owner_router->0,
                );
                &&& r->Ok_0.global_v6 == s.gw_v6
                &&& r->Ok_0.link_local_v6 == (if owned {
                    self@.routers[s.owner_router->0].downstream_ll_v6
                } else {
                    None
                })
            },
    {
        let s = match self.switches.get(&sw) {
            Some(s) => s,
            None => {
                return Err(CoreError::UnknownSwitch);
            },
        };
        let link_local_v6 = match s.owner_router {
            Some(rid) => match self.routers.get(&rid) {
                Some(x) => x.downstream_ll_v6,
                None => None,
            },
            None => None,
        };
        Ok(DownlinkV6Gateways { global_v6: s.gw_v6, link_local_v6 })
    }

    /// Returns whether hosts on a switch learn a default route from its router.
    pub fn ra_default_enabled_for_switch(&self, sw: NodeId) -> (r: Result<bool, CoreError>)
        requires
            self.wf(),
        ensures
            !self@.switches.contains_key(sw) ==> r == Err::<bool, CoreError>(
                CoreError::UnknownSwitch,
            ),
            self@.switches.contains_key(sw) ==> {
                let owner = self@.switches[sw].owner_router;
                r == (if owner is Some && self@.routers.contains_key(owner->0) {
                    Ok::<bool, CoreError>(self@.routers[owner->0].ra_default_enabled())
                } else {
                    Err::<bool, CoreError>(CoreError::NoOwner)
                })
            },
    {
        let s = match self.switches.get(&sw) {
            Some(s) => s,
            None => {
                return Err(CoreError::UnknownSwitch);
            },
        };
        match s.owner_router {
            Some(rid) => match self.routers.get(&rid) {
                Some(x) => Ok(x.ra_default_enabled()),
                None => Err(CoreError::NoOwner),
            },
            None => Err(CoreError::NoOwner),
        }
    }

    /// Returns the devices whose default route follows a router's
    /// advertisements.
    pub fn router_default_v6_targets(
        &self,
        router: NodeId,
        default_mode: Ipv6ProvisioningMode,
    ) -> (r: Result<Vec<DeviceDefaultV6RouteTarget>, CoreError>)
        requires
            self.wf(),
        ensures
            !self@.routers.contains_key(router) ==> r is Err && r->Err_0
                == CoreError::UnknownRouter,
            self@.routers.contains_key(router) && self@.routers[router].downlink is None ==> r
                is Err && r->Err_0 == CoreError::NoDownlink,
            self@.routers.contains_key(router) && self@.routers[router].downlink is Some ==> r
                is Ok && target_views(r->Ok_0@) == v6_targets(
                self.devices.pairs(),
                self@.routers[router].downlink->0,
                default_mode,
            ),
    {
        let downlink = match self.routers.get(&router) {
            None => {
                return Err(CoreError::UnknownRouter);
            },
            Some(x) => match x.downlink {
                None => {
                    return Err(CoreError::NoDownlink);
                },
                Some(sw) => sw,
            },
        };
        let mut out: Vec<DeviceDefaultV6RouteTarget> = Vec::new();
        let ghost all = self.devices.pairs();
        let mut i: usize = 0;
        let n = self.devices.len();
        assert(target_views(out@) =~= v6_targets(all.take(0), downlink, default_mode));
        while i < n
            invariant
                i <= n,
                n == all.len(),
                all == self.devices.pairs(),
                target_views(out@) == v6_targets(all.take(i as int), downlink, default_mode),
            decreases n - i,
        {
            let (_, dev) = self.devices.at(i);
            let ghost done = target_views(out@);
            assert(all.take(i as int + 1).drop_last() =~= all.take(i as int));
            let mode = match dev.provisioning_mode {
                Some(m) => m,
                None => default_mode,
            };
            if let Some(iface) = dev.iface(dev.default_via.as_str()) {
                let on_switch = match iface.uplink() {
                    Some(sw) => sw == downlink,
                    None => false,
                };
                if mode == Ipv6ProvisioningMode::RaDriven && on_switch && iface.ip_v6.is_some() {
                    let t = DeviceDefaultV6RouteTarget {
                        ns: dev.ns.clone(),
                        ifname: iface.ifname.clone(),
                    };
                    out.push(t);
                    assert(target_views(out@) =~= done.push(t@));
                }
            }
            i += 1;
        }
        assert(all.take(n as int) =~= all);
        Ok(out)
    }

    /// Returns all device identifiers, in the order the devices were added.
    pub fn all_device_ids(&self) -> (r: Vec<NodeId>)
        requires
            self.wf(),
        ensures
            r@ == Seq::new(self.devices.pairs().len(), |i: int| self.devices.pairs()[i].0),
    {
        let mut out: Vec<NodeId> = Vec::new();
        let n = self.devices.len();
        let mut i: usize = 0;
        while i < n
            invariant
                i <= n,
                n == self.devices.pairs().len(),
                out@ =~= Seq::new(i as nat, |j: int| self.devices.pairs()[j].0),
            decreases n - i,
        {
            let (id, _) = self.devices.at(i);
            out.push(*id);
            i += 1;
        }
        out
    }

    /// Returns all router identifiers, in the order the routers were added.
    pub fn all_router_ids(&self) -> (r: Vec<NodeId>)
        requires
            self.wf(),
        ensures
            r@ == Seq::new(self.routers.pairs().len(), |i: int| self.routers.pairs()[i].0),
    {
        let mut out: Vec<NodeId> = Vec::new();
        let n = self.routers.len();
        let mut i: usize = 0;
        while i < n
            invariant
                i <= n,
                n == self.routers.pairs().len(),
                out@ =~= Seq::new(i as nat, |j: int| self.routers.pairs()[j].0),
            decreases n - i,
        {
            let (id, _) = self.routers.at(i);
            out.push(*id);
            i += 1;
        }
        out
    }

    /// Removes a device and returns it.
    pub fn remove_device(&mut self, id: NodeId) -> (r: Result<DeviceData, CoreError>)
        requires
            old(self).wf(),
        ensures
            final(self).wf(),
            r is Ok == old(self)@.devices.contains_key(id),
            r is Err ==> r->Err_0 == CoreError::UnknownDevice && final(self)@ == old(self)@,
            r is Ok ==> r->Ok_0@ == old(self)@.devices[id] && final(self)@ == (CoreView {
                devices: old(self)@.devices.remove(id),
                names: old(self)@.names.remove(old(self)@.devices[id].name),
                ..old(self)@
            }),
    {
        match self.devices.remove(&id) {
            Some(dev) => {
                self.nodes_by_name.remove(&dev.name);
                Ok(dev)
            },
            None => {
                assert(self@.devices =~= old(self)@.devices);
                Err(CoreError::UnknownDevice)
            },
        }
    }

    fn switch_in_use(&self, sw: NodeId) -> (r: bool)
        requires
            self.wf(),
        ensures
            r == self@.in_use(sw),
    {
        let n = self.devices.len();
        let mut i: usize = 0;
        while i < n
            invariant
                self.wf(),
                i <= n,
                n == self.devices.pairs().len(),
                forall|j: int| 0 <= j < i ==> !uses((#[trigger] self.devices.pairs()[j]).1, sw),
            decreases n - i,
        {
            let (id, dev) = self.devices.at(i);
            if uses_switch(dev, sw) {
                assert(self@.devices.contains_key(*id));
                return true;
            }
            i += 1;
        }
        proof {
            if self@.in_use(sw) {
                let id = choose|id: NodeId| #[trigger]
                    self@.devices.contains_key(id) && uses(self@.devices[id], sw);
                let k = key_has_place(self.devices, id);
                assert(!uses(self.devices.pairs()[k].1, sw));
            }
        }
        false
    }

    /// Removes a router and its downstream switch and returns the router.
    ///
    /// Fails if a device is still connected to the switch.
    pub fn remove_router(&mut self, id: NodeId) -> (r: Result<RouterData, CoreError>)
        requires
            old(self).wf(),
        ensures
            final(self).wf(),
            !old(self)@.routers.contains_key(id) ==> r is Err && r->Err_0
                == CoreError::UnknownRouter,
            old(self)@.routers.contains_key(id) ==> {
                let x = old(self)@.routers[id];
                if x.downlink is Some && old(self)@.in_use(x.downlink->0) {
                    r is Err && r->Err_0 == CoreError::StillConnected
                } else {
                    &&& r is Ok
                    &&& r->Ok_0@ == x
                    &&& final(self)@ == (CoreView {
                        routers: old(self)@.routers.remove(id),
                        names: old(self)@.names.remove(x.name),
                        switches: if x.downlink is Some {
                            old(self)@.switches.remove(x.downlink->0)
                        } else {
                            old(self)@.switches
                        },
                        ..old(self)@
                    })
                }
            },
            r is Err ==> final(self)@ == old(self)@,
    {
        let downlink = match self.routers.get(&id) {
            None => {
                return Err(CoreError::UnknownRouter);
            },
            Some(x) => x.downlink,
        };
        if let Some(sw) = downlink {
            if self.switch_in_use(sw) {
                return Err(CoreError::StillConnected);
            }
        }
        match self.routers.remove(&id) {
            Some(router) => {
                self.nodes_by_name.remove(&router.name);
                if let Some(sw) = downlink {
                    self.switches.remove(&sw);
                }
                Ok(router)
            },
            None => Err(CoreError::UnknownRouter),
        }
    }

    /// Resolves the namespace and interface of the link between two connected
    /// nodes: a device and a router in either order, or two routers of which
    /// one is below the other.
    pub fn resolve_link_target(&self, a: NodeId, b: NodeId) -> (r: Result<
        (String, String),
        CoreError,
    >)
        requires
            self.wf(),
        ensures
            match r {
                Ok((ns, ifname)) => self@.link_target(a, b) == Ok::<
                    (Seq<char>, Seq<char>),
                    CoreError,
                >((ns@, ifname@)),
                Err(e) => self@.link_target(a, b) == Err::<(Seq<char>, Seq<char>), CoreError>(e),
            },
    {
        if let (Some(dev), Some(router)) = (self.devices.get(&a), self.routers.get(&b)) {
            return device_link_names(dev, router);
        }
        if let (Some(dev), Some(router)) = (self.devices.get(&b), self.routers.get(&a)) {
            return device_link_names(dev, router);
        }
        if let (Some(ra), Some(rb)) = (self.routers.get(&a), self.routers.get(&b)) {
            if ra.downlink.is_some() && rb.uplink == ra.downlink {
                return Ok((rb.ns.clone(), rb.wan_ifname(self.ix_sw).to_owned()));
            }
            if rb.downlink.is_some() && ra.uplink == rb.downlink {
                return Ok((ra.ns.clone(), ra.wan_ifname(self.ix_sw).to_owned()));
            }
        }
        Err(CoreError::NotConnected)
    }
}

} // verus!
