//! Routers: entering one into the topology with its options, and what wires it.
use vstd::prelude::*;

use crate::addr::{Ipv4Addr, Ipv4Net, Ipv6Addr, Ipv6Net};
use crate::firewall::Firewall;
use crate::nat_config::{IpSupport, Nat, NatV6Mode};
use crate::topology::laws::region_subnets_lie_in_their_block;
use crate::topology::nodes::fresh_switch;
use crate::topology::pools::net4;
use crate::topology::regions::region_net;
use crate::topology::types::{
    opt_view, CoreError, CoreView, DownstreamPool, NetworkCore, NodeId, RaRuntimeCfg, RouterConfig,
    RouterView, RA_DEFAULT_ENABLED, RA_DEFAULT_INTERVAL_SECS, RA_DEFAULT_LIFETIME_SECS,
};

verus! {

/// Options of a router that is to be added.
#[derive(Debug)]
pub struct RouterOptions {
    /// Router name.
    pub name: String,
    /// The region that the router is in.
    pub region: Option<String>,
    /// The router that it is connected to. Without one it is connected to the
    /// router of its region, or to the exchange.
    pub upstream: Option<NodeId>,
    /// NAT mode.
    pub nat: Nat,
    /// Which address families the router supports.
    pub ip_support: IpSupport,
    /// IPv6 NAT mode.
    pub nat_v6: NatV6Mode,
    /// Which pool the downstream subnets come from. Without a choice it is the
    /// private one behind NAT, and the public one otherwise.
    pub downstream_pool: Option<DownstreamPool>,
    /// The downstream subnet, where one is asked for.
    pub downstream_cidr: Option<Ipv4Net>,
    /// MTU of the interfaces.
    pub mtu: Option<u32>,
    /// Whether "fragmentation needed" messages are kept back.
    pub block_icmp_frag_needed: bool,
    /// The firewall.
    pub firewall: Firewall,
    /// Whether the router advertises itself.
    pub ra_enabled: bool,
    /// Seconds between advertisements.
    pub ra_interval_secs: u64,
    /// Seconds that an advertisement is good for.
    pub ra_lifetime_secs: u64,
}

impl RouterOptions {
    /// A router on the exchange, with public addresses behind it.
    pub fn new(name: &str) -> (r: RouterOptions)
        ensures
            r.name@ == name@,
            r == (RouterOptions {
                name: r.name,
                region: None,
                upstream: None,
                nat: Nat::Off,
                ip_support: IpSupport::V4Only,
                nat_v6: NatV6Mode::Off,
                downstream_pool: None,
                downstream_cidr: None,
                mtu: None,
                block_icmp_frag_needed: false,
                firewall: Firewall::Off,
                ra_enabled: RA_DEFAULT_ENABLED,
                ra_interval_secs: RA_DEFAULT_INTERVAL_SECS,
                ra_lifetime_secs: RA_DEFAULT_LIFETIME_SECS,
            }),
    {
        RouterOptions {
            name: name.to_owned(),
            region: None,
            upstream: None,
            nat: Nat::Off,
            ip_support: IpSupport::V4Only,
            nat_v6: NatV6Mode::Off,
            downstream_pool: None,
            downstream_cidr: None,
            mtu: None,
            block_icmp_frag_needed: false,
            firewall: Firewall::Off,
            ra_enabled: RA_DEFAULT_ENABLED,
            ra_interval_secs: RA_DEFAULT_INTERVAL_SECS,
            ra_lifetime_secs: RA_DEFAULT_LIFETIME_SECS,
        }
    }

    /// The pool that the downstream subnets come from.
    pub open spec fn spec_pool(self) -> DownstreamPool {
        match self.downstream_pool {
            Some(pool) => pool,
            None => if self.nat.spec_config() is Some {
                DownstreamPool::Private
            } else {
                DownstreamPool::Public
            },
        }
    }

    /// The pool that the downstream subnets come from.
    pub fn pool(&self) -> (r: DownstreamPool)
        ensures
            r == self.spec_pool(),
    {
        match self.downstream_pool {
            Some(pool) => pool,
            None => if self.nat.to_config().is_some() {
                DownstreamPool::Private
            } else {
                DownstreamPool::Public
            },
        }
    }

    /// Whether the downstream subnet comes out of the block of the router's
    /// region: that of a public router for which none is asked.
    pub open spec fn takes_region_subnet(self) -> bool {
        self.region is Some && self.ip_support.v4() && self.downstream_cidr is None
            && self.spec_pool() == DownstreamPool::Public
    }

    /// A router with these options. The seconds between advertisements are at
    /// least one.
    pub open spec fn configured(self, r: RouterView) -> RouterView {
        RouterView {
            cfg: RouterConfig {
                mtu: self.mtu,
                block_icmp_frag_needed: self.block_icmp_frag_needed,
                firewall: self.firewall,
                ra_enabled: self.ra_enabled,
                ra_interval_secs: self.ra_interval_secs,
                ra_lifetime_secs: self.ra_lifetime_secs,
                ..r.cfg
            },
            ra_runtime: RaRuntimeCfg {
                enabled: self.ra_enabled,
                interval_secs: if self.ra_interval_secs >= 1 {
                    self.ra_interval_secs
                } else {
                    1
                },
                lifetime_secs: self.ra_lifetime_secs,
            },
            ..r
        }
    }
}

// ── entering a router ────────────────────────────────────────────────

impl CoreView {
    /// The downstream switch of a router.
    pub open spec fn switch_below(self, router: NodeId) -> Result<NodeId, CoreError> {
        if !self.routers.contains_key(router) {
            Err(CoreError::UnknownRouter)
        } else {
            match self.routers[router].downlink {
                Some(sw) => Ok(sw),
                None => Err(CoreError::NoDownlink),
            }
        }
    }

    /// The switch that a router is connected to on its way up: that of the
    /// router above it, else that of its region, else the exchange. The region
    /// must be there either way.
    pub open spec fn switch_above(self, o: RouterOptions) -> Result<NodeId, CoreError> {
        if o.region is Some && !self.regions.contains_key((o.region->0)@) {
            Err(CoreError::UnknownRegion)
        } else {
            match (o.upstream, o.region) {
                (Some(router), _) => self.switch_below(router),
                (None, Some(name)) => self.switch_below(self.regions[name@].router_id),
                (None, None) => Ok(self.ix_sw),
            }
        }
    }

    /// The downstream subnet that a router asks for: the one in its options, or
    /// the next of its region's block.
    pub open spec fn subnet_for(self, o: RouterOptions) -> (
        CoreView,
        Result<Option<Ipv4Net>, CoreError>,
    ) {
        if o.takes_region_subnet() {
            let (after, r) = self.alloc_region_public((o.region->0)@);
            match r {
                Ok(net) => (after, Ok(Some(net))),
                Err(e) => (after, Err(e)),
            }
        } else {
            (self, Ok(o.downstream_cidr))
        }
    }

    /// The address of a router on the switch above it.
    pub open spec fn address_above(self, o: RouterOptions, sw: NodeId) -> (
        CoreView,
        Result<Option<Ipv4Addr>, CoreError>,
    ) {
        if !o.ip_support.v4() {
            (self, Ok(None))
        } else {
            let (after, r) = if o.upstream is None && o.region is None {
                self.alloc_ix()
            } else {
                self.alloc_host(sw)
            };
            match r {
                Ok(ip) => (after, Ok(Some(ip))),
                Err(e) => (after, Err(e)),
            }
        }
    }

    /// The IPv6 address of a router on the switch above it.
    pub open spec fn address_above_v6(self, o: RouterOptions, sw: NodeId) -> (
        CoreView,
        Result<Option<Ipv6Addr>, CoreError>,
    ) {
        if !o.ip_support.v6() {
            (self, Ok(None))
        } else {
            let (after, r) = if o.upstream is None && o.region is None {
                self.alloc_ix_v6()
            } else {
                self.alloc_host_v6(sw)
            };
            match r {
                Ok(ip) => (after, Ok(Some(ip))),
                Err(e) => (after, Err(e)),
            }
        }
    }

    /// The topology with a router added, its options set, and an empty switch
    /// for what will be behind it.
    pub open spec fn placed(self, o: RouterOptions) -> CoreView {
        let id = NodeId(self.next_id);
        let added = self.added_router(
            o.name@,
            o.nat.spec_config(),
            o.spec_pool(),
            opt_view(o.region),
            o.ip_support,
            o.nat_v6,
        );
        added.with_router(id, o.configured(added.routers[id])).added_switch(
            o.name@ + "-sub"@,
            fresh_switch(o.name@ + "-sub"@, None, None, None, None),
        )
    }

    /// Connecting a router that was placed: to its downstream switch, and to the
    /// switch above it.
    pub open spec fn connected(self, o: RouterOptions, id: NodeId, below: NodeId, up: NodeId) -> (
        CoreView,
        Result<NodeId, CoreError>,
    ) {
        let (c1, wish) = self.subnet_for(o);
        match wish {
            Err(e) => (c1, Err(e)),
            Ok(wish) => {
                let (c2, down) = c1.downlinked(id, below, wish);
                match down {
                    Err(e) => (c2, Err(e)),
                    Ok(_) => {
                        let (c3, ip) = c2.address_above(o, up);
                        match ip {
                            Err(e) => (c3, Err(e)),
                            Ok(ip) => {
                                let (c4, ip_v6) = c3.address_above_v6(o, up);
                                match ip_v6 {
                                    Err(e) => (c4, Err(e)),
                                    Ok(ip_v6) => (c4.uplinked(id, up, ip, ip_v6), Ok(id)),
                                }
                            },
                        }
                    },
                }
            },
        }
    }

    /// Entering a router: it is placed and connected. Nothing changes where
    /// there is no switch above it.
    pub open spec fn entered(self, o: RouterOptions) -> (CoreView, Result<NodeId, CoreError>) {
        match self.switch_above(o) {
            Err(e) => (self, Err(e)),
            Ok(up) => {
                let id = NodeId(self.next_id);
                let below = NodeId((self.next_id + 1) as u64);
                self.placed(o).connected(o, id, below, up)
            },
        }
    }
}

impl NetworkCore {
    fn find_switch_below(&self, router: NodeId) -> (r: Result<NodeId, CoreError>)
        requires
            self.wf(),
        ensures
            r == self@.switch_below(router),
    {
        match self.routers.get(&router) {
            None => Err(CoreError::UnknownRouter),
            Some(x) => match x.downlink {
                Some(sw) => Ok(sw),
                None => Err(CoreError::NoDownlink),
            },
        }
    }

    fn find_switch_above(&self, o: &RouterOptions) -> (r: Result<NodeId, CoreError>)
        requires
            self.wf(),
        ensures
            r == self@.switch_above(*o),
    {
        let region = match &o.region {
            Some(name) => match self.regions.get(name) {
                None => {
                    return Err(CoreError::UnknownRegion);
                },
                Some(info) => Some(info.router_id),
            },
            None => None,
        };
        match (o.upstream, region) {
            (Some(router), _) => self.find_switch_below(router),
            (None, Some(router)) => self.find_switch_below(router),
            (None, None) => Ok(self.ix_sw),
        }
    }

    fn take_subnet(&mut self, o: &RouterOptions) -> (r: Result<Option<Ipv4Net>, CoreError>)
        requires
            old(self).wf(),
        ensures
            final(self).wf(),
            (final(self)@, r) == old(self)@.subnet_for(*o),
    {
        match &o.region {
            Some(name) => if o.ip_support.has_v4() && o.downstream_cidr.is_none() && matches!(
                o.pool(),
                DownstreamPool::Public,
            ) {
                match self.alloc_region_public_cidr(name.as_str()) {
                    Ok(net) => Ok(Some(net)),
                    Err(e) => Err(e),
                }
            } else {
                Ok(o.downstream_cidr)
            },
            None => Ok(o.downstream_cidr),
        }
    }

    fn take_address(&mut self, o: &RouterOptions, sw: NodeId) -> (r: Result<
        Option<Ipv4Addr>,
        CoreError,
    >)
        requires
            old(self).wf(),
        ensures
            final(self).wf(),
            (final(self)@, r) == old(self)@.address_above(*o, sw),
    {
        if !o.ip_support.has_v4() {
            return Ok(None);
        }
        let ip = if o.upstream.is_none() && o.region.is_none() {
            self.alloc_ix_ip_low()
        } else {
            self.alloc_from_switch(sw)
        };
        match ip {
            Ok(ip) => Ok(Some(ip)),
            Err(e) => Err(e),
        }
    }

    fn take_address_v6(&mut self, o: &RouterOptions, sw: NodeId) -> (r: Result<
        Option<Ipv6Addr>,
        CoreError,
    >)
        requires
            old(self).wf(),
        ensures
            final(self).wf(),
            (final(self)@, r) == old(self)@.address_above_v6(*o, sw),
    {
        if !o.ip_support.has_v6() {
            return Ok(None);
        }
        let ip = if o.upstream.is_none() && o.region.is_none() {
            self.alloc_ix_ip_v6_low()
        } else {
            self.alloc_from_switch_v6(sw)
        };
        match ip {
            Ok(ip) => Ok(Some(ip)),
            Err(e) => Err(e),
        }
    }

    fn place_router(&mut self, o: &RouterOptions, firewall: Firewall) -> (r: (NodeId, NodeId))
        requires
            old(self).wf(),
            old(self).next_id < u64::MAX - 1,
        ensures
            final(self).wf(),
            r.0 == NodeId(old(self)@.next_id),
            r.1.0 == old(self)@.next_id + 1,
            final(self)@ == old(self)@.placed(RouterOptions { firewall, ..*o }),
    {
        let region = match &o.region {
            Some(name) => Some(name.clone()),
            None => None,
        };
        let id = self.add_router(
            o.name.as_str(),
            o.nat.to_config(),
            o.pool(),
            region,
            o.ip_support,
            o.nat_v6,
        );
        if let Some(router) = self.routers.get_mut(&id) {
            router.cfg.mtu = o.mtu;
            router.cfg.block_icmp_frag_needed = o.block_icmp_frag_needed;
            router.cfg.firewall = firewall;
            router.cfg.ra_enabled = o.ra_enabled;
            router.cfg.ra_interval_secs = o.ra_interval_secs;
            router.cfg.ra_lifetime_secs = o.ra_lifetime_secs;
            router.ra_runtime.set_enabled(o.ra_enabled);
            router.ra_runtime.set_interval_secs(o.ra_interval_secs);
            router.ra_runtime.set_lifetime_secs(o.ra_lifetime_secs);
        }
        let mut name = o.name.clone();
        name.append("-sub");
        let below = self.add_switch(name.as_str(), None, None, None, None);
        (id, below)
    }

    fn connect_router(&mut self, o: &RouterOptions, id: NodeId, below: NodeId, up: NodeId) -> (r:
        Result<NodeId, CoreError>)
        requires
            old(self).wf(),
            old(self)@.routers.contains_key(id),
        ensures
            final(self).wf(),
            (final(self)@, r) == old(self)@.connected(*o, id, below, up),
    {
        let wish = match self.take_subnet(o) {
            Ok(wish) => wish,
            Err(e) => {
                return Err(e);
            },
        };
        if let Err(e) = self.connect_router_downlink(id, below, wish) {
            return Err(e);
        }
        let ip = match self.take_address(o, up) {
            Ok(ip) => ip,
            Err(e) => {
                return Err(e);
            },
        };
        let ip_v6 = match self.take_address_v6(o, up) {
            Ok(ip) => ip,
            Err(e) => {
                return Err(e);
            },
        };
        if let Err(e) = self.connect_router_uplink(id, up, ip, ip_v6) {
            return Err(e);
        }
        Ok(id)
    }

    /// Adds a router with its options and connects it: to a switch of its own
    /// below, and to the router above it, the router of its region or the
    /// exchange.
    pub fn enter_router(&mut self, o: RouterOptions) -> (r: Result<NodeId, CoreError>)
        requires
            old(self).wf(),
            old(self)@.switch_above(o) is Ok ==> old(self).next_id < u64::MAX - 1,
        ensures
            final(self).wf(),
            (final(self)@, r) == old(self)@.entered(o),
    {
        let up = match self.find_switch_above(&o) {
            Ok(sw) => sw,
            Err(e) => {
                return Err(e);
            },
        };
        let firewall = o.firewall;
        let rest = RouterOptions { firewall: Firewall::Off, ..o };
        let (id, below) = self.place_router(&rest, firewall);
        proof {
            firewall_connects_nothing(self@, o, rest, id, below, up);
        }
        self.connect_router(&rest, id, below, up)
    }
}

/// Options that differ in the firewall alone connect a router in the same way.
proof fn firewall_connects_nothing(
    c: CoreView,
    a: RouterOptions,
    b: RouterOptions,
    id: NodeId,
    below: NodeId,
    up: NodeId,
)
    requires
        b == (RouterOptions { firewall: b.firewall, ..a }),
    ensures
        c.connected(a, id, below, up) == c.connected(b, id, below, up),
{
    assert(c.subnet_for(a) == c.subnet_for(b));
    assert(forall|x: CoreView| x.address_above(a, up) == #[trigger] x.address_above(b, up));
    assert(forall|x: CoreView| x.address_above_v6(a, up) == #[trigger] x.address_above_v6(b, up));
}

// ── wiring a router ──────────────────────────────────────────────────

/// What wires a router.
#[derive(Debug)]
pub struct RouterWiring {
    /// Namespace of the router.
    pub ns: String,
    /// Name of its interface on the way up.
    pub wan_if: &'static str,
    /// Namespace of the router above it, or the root namespace.
    pub above_ns: String,
    /// The bridge that it is connected to there.
    pub above_bridge: String,
    /// Address, prefix length and gateway on the way up.
    pub v4: Option<(Ipv4Addr, u8, Ipv4Addr)>,
    /// IPv6 address, prefix length and gateway on the way up.
    pub v6: Option<(Ipv6Addr, u8, Ipv6Addr)>,
    /// The bridge below the router.
    pub bridge: String,
    /// Address and prefix length of that bridge.
    pub bridge_v4: Option<(Ipv4Addr, u8)>,
    /// IPv6 address and prefix length of that bridge.
    pub bridge_v6: Option<(Ipv6Addr, u8)>,
    /// The network below and the router's address, for the route back to it in
    /// the namespace above. None where NAT hides the network.
    pub back_v4: Option<(Ipv4Net, Ipv4Addr)>,
    /// The IPv6 network below and the router's address, for the route back.
    pub back_v6: Option<(Ipv6Net, Ipv6Addr)>,
}

/// What wires a router.
pub struct RouterWiringView {
    /// Namespace of the router.
    pub ns: Seq<char>,
    /// Name of its interface on the way up.
    pub wan_if: Seq<char>,
    /// Namespace of the router above it, or the root namespace.
    pub above_ns: Seq<char>,
    /// The bridge that it is connected to there.
    pub above_bridge: Seq<char>,
    /// Address, prefix length and gateway on the way up.
    pub v4: Option<(Ipv4Addr, u8, Ipv4Addr)>,
    /// IPv6 address, prefix length and gateway on the way up.
    pub v6: Option<(Ipv6Addr, u8, Ipv6Addr)>,
    /// The bridge below the router.
    pub bridge: Seq<char>,
    /// Address and prefix length of that bridge.
    pub bridge_v4: Option<(Ipv4Addr, u8)>,
    /// IPv6 address and prefix length of that bridge.
    pub bridge_v6: Option<(Ipv6Addr, u8)>,
    /// The network below and the router's address, for the route back.
    pub back_v4: Option<(Ipv4Net, Ipv4Addr)>,
    /// The IPv6 network below and the router's address, for the route back.
    pub back_v6: Option<(Ipv6Net, Ipv6Addr)>,
}

impl View for RouterWiring {
    type V = RouterWiringView;

    open spec fn view(&self) -> RouterWiringView {
        RouterWiringView {
            ns: self.ns@,
            wan_if: self.wan_if@,
            above_ns: self.above_ns@,
            above_bridge: self.above_bridge@,
            v4: self.v4,
            v6: self.v6,
            bridge: self.bridge@,
            bridge_v4: self.bridge_v4,
            bridge_v6: self.bridge_v6,
            back_v4: self.back_v4,
            back_v6: self.back_v6,
        }
    }
}

/// A pair, where both of its parts are there.
pub open spec fn both<A, B>(a: Option<A>, b: Option<B>) -> Option<(A, B)> {
    match (a, b) {
        (Some(a), Some(b)) => Some((a, b)),
        _ => None,
    }
}

fn pair_up<A: Copy, B: Copy>(a: Option<A>, b: Option<B>) -> (r: Option<(A, B)>)
    ensures
        r == both(a, b),
{
    match (a, b) {
        (Some(a), Some(b)) => Some((a, b)),
        _ => None,
    }
}

impl CoreView {
    /// The namespace that the switch above a router is in.
    pub open spec fn ns_of_switch(self, sw: NodeId) -> Seq<char> {
        match self.switches[sw].owner_router {
            Some(router) => if self.routers.contains_key(router) {
                self.routers[router].ns
            } else {
                self.cfg.root_ns@
            },
            None => self.cfg.root_ns@,
        }
    }

    /// What wires a router that is connected to a switch.
    pub open spec fn wiring_of(self, r: RouterView, up: NodeId) -> RouterWiringView {
        let sw = self.switches[up];
        RouterWiringView {
            ns: r.ns,
            wan_if: r.wan_ifname(self.ix_sw),
            above_ns: self.ns_of_switch(up),
            above_bridge: if up == self.ix_sw {
                self.cfg.ix_br@
            } else {
                sw.bridge_name()
            },
            v4: match (r.upstream_ip, sw.gw) {
                (Some(ip), Some(gw)) => Some((ip, sw.prefix(), gw)),
                _ => None,
            },
            v6: match (r.upstream_ip_v6, sw.gw_v6) {
                (Some(ip), Some(gw)) => Some((ip, sw.prefix_v6(), gw)),
                _ => None,
            },
            bridge: r.downlink_bridge,
            bridge_v4: match (r.downstream_gw, r.downstream_cidr) {
                (Some(gw), Some(net)) => Some((gw, net.prefix_len)),
                _ => None,
            },
            bridge_v6: match (r.downstream_gw_v6, r.downstream_cidr_v6) {
                (Some(gw), Some(net)) => Some((gw, net.prefix_len)),
                _ => None,
            },
            back_v4: if r.cfg.nat is None {
                both(r.downstream_cidr, r.upstream_ip)
            } else {
                None
            },
            back_v6: if r.cfg.nat_v6 is Off {
                both(r.downstream_cidr_v6, r.upstream_ip_v6)
            } else {
                None
            },
        }
    }
}

impl NetworkCore {
    /// Returns what wires a router. One that is connected to no switch cannot be
    /// wired.
    pub fn router_wiring(&self, id: NodeId) -> (r: Result<RouterWiring, CoreError>)
        requires
            self.wf(),
        ensures
            match r {
                Ok(w) => {
                    let x = self@.routers[id];
                    &&& self@.routers.contains_key(id)
                    &&& x.uplink is Some && self@.switches.contains_key(x.uplink->0)
                    &&& w@ == self@.wiring_of(x, x.uplink->0)
                },
                Err(e) => if !self@.routers.contains_key(id) {
                    e == CoreError::UnknownRouter
                } else {
                    let up = self@.routers[id].uplink;
                    e == CoreError::UnknownSwitch && (up is Some ==> !self@.switches.contains_key(
                        up->0,
                    ))
                },
            },
    {
        let router = match self.routers.get(&id) {
            None => {
                return Err(CoreError::UnknownRouter);
            },
            Some(x) => x,
        };
        let up = match router.uplink {
            None => {
                return Err(CoreError::UnknownSwitch);
            },
            Some(sw) => sw,
        };
        let sw = match self.switches.get(&up) {
            None => {
                return Err(CoreError::UnknownSwitch);
            },
            Some(sw) => sw,
        };
        let above_ns = match sw.owner_router {
            Some(owner) => match self.routers.get(&owner) {
                Some(x) => x.ns.clone(),
                None => self.cfg.root_ns.clone(),
            },
            None => self.cfg.root_ns.clone(),
        };
        let above_bridge = if up == self.ix_sw {
            self.cfg.ix_br.clone()
        } else {
            sw.bridge_name()
        };
        let v4 = match (router.upstream_ip, sw.gw) {
            (Some(ip), Some(gw)) => Some((ip, sw.prefix(), gw)),
            _ => None,
        };
        let v6 = match (router.upstream_ip_v6, sw.gw_v6) {
            (Some(ip), Some(gw)) => Some((ip, sw.prefix_v6(), gw)),
            _ => None,
        };
        let bridge_v4 = match (router.downstream_gw, router.downstream_cidr) {
            (Some(gw), Some(net)) => Some((gw, net.prefix_len)),
            _ => None,
        };
        let bridge_v6 = match (router.downstream_gw_v6, router.downstream_cidr_v6) {
            (Some(gw), Some(net)) => Some((gw, net.prefix_len)),
            _ => None,
        };
        let back_v4 = if router.cfg.nat.is_none() {
            pair_up(router.downstream_cidr, router.upstream_ip)
        } else {
            None
        };
        let back_v6 = if matches!(router.cfg.nat_v6, NatV6Mode::Off) {
            pair_up(router.downstream_cidr_v6, router.upstream_ip_v6)
        } else {
            None
        };
        Ok(
            RouterWiring {
                ns: router.ns.clone(),
                wan_if: router.wan_ifname(self.ix_sw),
                above_ns,
                above_bridge,
                v4,
                v6,
                bridge: router.downlink_bridge.clone(),
                bridge_v4,
                bridge_v6,
                back_v4,
                back_v6,
            },
        )
    }
}

// ── laws ─────────────────────────────────────────────────────────────

/// A router that was entered is found under its name and in its region, is
/// connected on both sides, and has an address above for each family that it
/// supports.
pub proof fn entered_router_is_connected(c: CoreView, o: RouterOptions)
    requires
        c.next_id < u64::MAX - 1,
        c.entered(o).1 is Ok,
    ensures
        ({
            let after = c.entered(o).0;
            let id = NodeId(c.next_id);
            let r = after.routers[id];
            &&& c.entered(o).1 == Ok::<NodeId, CoreError>(id)
            &&& after.routers.contains_key(id)
            &&& after.router_named(o.name@) == Some(id)
            &&& r.region == opt_view(o.region)
            &&& r.uplink == Some(c.switch_above(o)->Ok_0)
            &&& r.downlink == Some(NodeId((c.next_id + 1) as u64))
            &&& after.switches[r.downlink->0].owner_router == Some(id)
            &&& r.upstream_ip is Some == o.ip_support.v4()
            &&& r.upstream_ip_v6 is Some == o.ip_support.v6()
            &&& r.downstream_cidr is Some == o.ip_support.v4()
            &&& r.downstream_cidr_v6 is Some == o.ip_support.v6()
        }),
{
    reveal_strlit("-sub");
    assert((o.name@ + "-sub"@).len() != o.name@.len());
}

/// Entering a router, or failing to, changes no other router and no device.
pub proof fn entering_spares_others(c: CoreView, o: RouterOptions, other: NodeId)
    requires
        c.next_id < u64::MAX - 1,
        other != NodeId(c.next_id),
    ensures
        c.entered(o).0.routers.contains_key(other) == c.routers.contains_key(other),
        c.routers.contains_key(other) ==> c.entered(o).0.routers[other] == c.routers[other],
        c.entered(o).0.devices == c.devices,
{
}

/// A public router in a region gets a subnet out of the region's own /20 block,
/// where none is asked for.
pub proof fn region_routers_lie_in_their_block(c: CoreView, o: RouterOptions)
    requires
        c.next_id < u64::MAX - 1,
        o.takes_region_subnet(),
        c.entered(o).1 is Ok,
    ensures
        net4(region_net(c.regions[(o.region->0)@].idx), 20).holds(
            (c.entered(o).0.routers[NodeId(c.next_id)].downstream_cidr->0).addr,
        ),
{
    region_subnets_lie_in_their_block(c.placed(o), (o.region->0)@);
}

/// Entering a router, or failing to, takes no region's router away.
pub proof fn entering_keeps_regions_backed(c: CoreView, o: RouterOptions)
    requires
        c.next_id < u64::MAX - 1,
        c.regions_backed(),
    ensures
        c.entered(o).0.regions_backed(),
{
    let after = c.entered(o).0;
    assert forall|n: Seq<char>| #[trigger] after.region_backed(n) by {
        assert(c.region_backed(n));
        if c.regions.contains_key(n) {
            let id = c.regions[n].router_id;
            if id != NodeId(c.next_id) {
                entering_spares_others(c, o, id);
            }
        }
    }
}

} // verus!
