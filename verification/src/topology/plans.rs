//! What run-time operations on interfaces need to know, and what they leave
//! behind.
use vstd::prelude::*;

use crate::addr::{Ipv4Addr, Ipv6Addr};
use crate::event::{router_name, DeviceState};
use crate::iface::IfaceConfig;
use crate::profile::{Ipv6ProvisioningMode, LinkDirection};
use crate::qdisc::LinkCondition;
use crate::text::{dec, push_dec, str_eq};
use crate::topology::ifaces::{with_addresses, AddIfaceSetup, ReplugIfaceSetup};
use crate::topology::types::{
    change_keeps_wf, iface_from_is_first, BuildView, CoreError, CoreView, DeviceView, IfaceBuild,
    IfaceView, NetworkCore, NodeId,
};

verus! {

/// The gateway of an IPv6 default route: with advertisements the link-local
/// one first, and none where the router does not advertise; without them the
/// global one first.
pub open spec fn v6_gateway(
    mode: Ipv6ProvisioningMode,
    ra_default_enabled: bool,
    gw_v6: Option<Ipv6Addr>,
    gw_ll_v6: Option<Ipv6Addr>,
) -> Option<Ipv6Addr> {
    if mode is RaDriven {
        if !ra_default_enabled {
            None
        } else if gw_ll_v6 is Some {
            gw_ll_v6
        } else {
            gw_v6
        }
    } else if gw_v6 is Some {
        gw_v6
    } else {
        gw_ll_v6
    }
}

/// Picks the gateway of an IPv6 default route.
pub fn select_default_v6_gateway(
    provisioning: Ipv6ProvisioningMode,
    ra_default_enabled: bool,
    gw_v6: Option<Ipv6Addr>,
    gw_ll_v6: Option<Ipv6Addr>,
) -> (r: Option<Ipv6Addr>)
    ensures
        r == v6_gateway(provisioning, ra_default_enabled, gw_v6, gw_ll_v6),
{
    if provisioning == Ipv6ProvisioningMode::RaDriven {
        if ra_default_enabled {
            if gw_ll_v6.is_some() {
                gw_ll_v6
            } else {
                gw_v6
            }
        } else {
            None
        }
    } else if gw_v6.is_some() {
        gw_v6
    } else {
        gw_ll_v6
    }
}

/// The IPv6 provisioning of a device: its own, else the lab's.
pub open spec fn mode_of(d: DeviceView, lab_mode: Ipv6ProvisioningMode) -> Ipv6ProvisioningMode {
    match d.provisioning_mode {
        Some(m) => m,
        None => lab_mode,
    }
}

/// The routes behind a switch.
#[derive(Clone, Copy, Debug, PartialEq, Eq, Structural)]
pub struct GatewayPlan {
    /// IPv4 gateway.
    pub gw_ip: Ipv4Addr,
    /// IPv6 gateway, or none to have no IPv6 default route.
    pub primary_v6: Option<Ipv6Addr>,
    /// Whether a router is solicited.
    pub solicit: bool,
    /// The router that answers the solicitation.
    pub rs_router_ll: Option<Ipv6Addr>,
}

impl CoreView {
    /// The routes behind a switch.
    pub open spec fn gateways(self, sw: NodeId, mode: Ipv6ProvisioningMode) -> Result<
        GatewayPlan,
        CoreError,
    > {
        if !self.switches.contains_key(sw) || self.switches[sw].gw is None {
            Err(CoreError::NoGateway)
        } else {
            let s = self.switches[sw];
            if s.owner_router is None || !self.routers.contains_key(s.owner_router->0) {
                Err(CoreError::NoOwner)
            } else {
                let r = self.routers[s.owner_router->0];
                let ra = r.ra_default_enabled();
                Ok(
                    GatewayPlan {
                        gw_ip: s.gw->0,
                        primary_v6: v6_gateway(mode, ra, s.gw_v6, r.downstream_ll_v6),
                        solicit: mode is RaDriven,
                        rs_router_ll: if mode is RaDriven && ra {
                            r.downstream_ll_v6
                        } else {
                            None
                        },
                    },
                )
            }
        }
    }
}

/// What it takes to set the default route of a device.
#[derive(Debug)]
pub struct DefaultRoutePlan {
    /// Device namespace.
    pub ns: String,
    /// Impairment of the interface, to be applied again.
    pub egress: Option<LinkCondition>,
    /// The routes.
    pub gateways: GatewayPlan,
}

/// What it takes to bring an interface up.
#[derive(Debug)]
pub struct LinkUpPlan {
    /// Device namespace.
    pub ns: String,
    /// Link-local address to add again.
    pub ll_v6: Option<Ipv6Addr>,
    /// The switch whose routes have to be set again, where the interface
    /// carries the default route.
    pub uplink: Option<NodeId>,
}

/// Where a link condition is applied.
#[derive(Debug)]
pub struct ConditionPlan {
    /// Device namespace.
    pub dev_ns: String,
    /// Namespace and interface of the other end, for a routed interface.
    pub gateway: Option<(String, String)>,
}

/// A condition with those of a direction set; a dummy has no other end.
pub open spec fn with_condition(
    i: IfaceView,
    condition: Option<LinkCondition>,
    direction: LinkDirection,
    routed: bool,
) -> IfaceView {
    IfaceView {
        egress: if direction.spec_egress() {
            condition
        } else {
            i.egress
        },
        ingress: if direction is Ingress || (direction is Both && routed) {
            condition
        } else {
            i.ingress
        },
        ..i
    }
}

impl CoreView {
    /// The topology with one interface changed, where it is there.
    pub open spec fn changed_iface(
        self,
        device: NodeId,
        ifname: Seq<char>,
        f: spec_fn(IfaceView) -> IfaceView,
    ) -> CoreView {
        if self.devices.contains_key(device) {
            let d = self.devices[device];
            match d.place(ifname) {
                Some(k) => self.with_device(device, d.with_iface(k, f(d.interfaces[k]))),
                None => self,
            }
        } else {
            self
        }
    }

    /// Looking up an interface of a device.
    pub open spec fn find_iface(self, device: NodeId, ifname: Seq<char>) -> Result<
        (DeviceView, IfaceView),
        CoreError,
    > {
        if !self.devices.contains_key(device) {
            Err(CoreError::UnknownDevice)
        } else {
            match self.devices[device].iface(ifname) {
                Some(i) => Ok((self.devices[device], i)),
                None => Err(CoreError::NoSuchIface),
            }
        }
    }
}

/// The wiring of an interface that was added, as its configuration asks.
pub open spec fn configured_build(b: BuildView, config: IfaceConfig, mode: Ipv6ProvisioningMode) -> BuildView {
    BuildView {
        gw_ip_v6: if mode is RaDriven {
            None
        } else {
            b.gw_ip_v6
        },
        ingress: config.ingress,
        start_down: config.start_down,
        dev_ip: match config.addr {
            Some(n) => Some(n.addr),
            None => b.dev_ip,
        },
        prefix_len: match config.addr {
            Some(n) => n.prefix_len,
            None => b.prefix_len,
        },
        dev_ip_v6: match config.addr_v6 {
            Some(n) => Some(n.addr),
            None => b.dev_ip_v6,
        },
        prefix_len_v6: match config.addr_v6 {
            Some(n) => n.prefix_len,
            None => b.prefix_len_v6,
        },
        ..b
    }
}

/// The wiring of a dummy interface that was added.
pub open spec fn dummy_build(ns: Seq<char>, i: IfaceView) -> BuildView {
    BuildView {
        dev_ns: ns,
        gw_ns: ""@,
        gw_ip: None,
        gw_br: ""@,
        dev_ip: i.ip,
        prefix_len: match i.prefix_len {
            Some(n) => n,
            None => 24,
        },
        gw_ip_v6: None,
        dev_ip_v6: i.ip_v6,
        gw_ll_v6: None,
        dev_ll_v6: None,
        prefix_len_v6: match i.prefix_len_v6 {
            Some(n) => n,
            None => 64,
        },
        egress: i.egress,
        ingress: None,
        dummy: true,
        start_down: i.start_down,
        ifname: i.ifname,
        is_default: false,
        idx: i.idx,
    }
}

impl CoreView {
    /// Adding an interface to a device that is running.
    pub open spec fn planned_add(
        self,
        device: NodeId,
        ifname: Seq<char>,
        config: IfaceConfig,
        lab_mode: Ipv6ProvisioningMode,
    ) -> (CoreView, Result<BuildView, CoreError>) {
        match config.gateway {
            Some(router) => {
                let (c, r) = self.prepared_add(device, ifname, router, config.egress);
                match r {
                    Err(e) => (c, Err(e)),
                    Ok(b) => (
                        c,
                        Ok(configured_build(b, config, mode_of(self.devices[device], lab_mode))),
                    ),
                }
            },
            None => {
                let (c, r) = self.add_configured(device, ifname, config);
                match r {
                    Err(e) => (c, Err(e)),
                    Ok(()) => (
                        c,
                        Ok(
                            dummy_build(
                                c.devices[device].ns,
                                c.devices[device].interfaces.last(),
                            ),
                        ),
                    ),
                }
            },
        }
    }
}

impl NetworkCore {
    /// The routes behind a switch.
    pub fn gateway_plan(&self, sw: NodeId, mode: Ipv6ProvisioningMode) -> (r: Result<
        GatewayPlan,
        CoreError,
    >)
        requires
            self.wf(),
        ensures
            r == self@.gateways(sw, mode),
    {
        let gw_ip = match self.router_downlink_gw_for_switch(sw) {
            Ok(ip) => ip,
            Err(e) => {
                return Err(e);
            },
        };
        let gw6 = match self.router_downlink_gw6_for_switch(sw) {
            Ok(g) => g,
            Err(e) => {
                return Err(e);
            },
        };
        let ra = match self.ra_default_enabled_for_switch(sw) {
            Ok(b) => b,
            Err(e) => {
                return Err(e);
            },
        };
        let driven = mode == Ipv6ProvisioningMode::RaDriven;
        Ok(
            GatewayPlan {
                gw_ip,
                primary_v6: select_default_v6_gateway(
                    mode,
                    ra,
                    gw6.global_v6,
                    gw6.link_local_v6,
                ),
                solicit: driven,
                rs_router_ll: if driven && ra {
                    gw6.link_local_v6
                } else {
                    None
                },
            },
        )
    }

    /// Plans a change of the default route to another interface.
    pub fn default_route_plan(
        &self,
        device: NodeId,
        to: &str,
        lab_mode: Ipv6ProvisioningMode,
    ) -> (r: Result<DefaultRoutePlan, CoreError>)
        requires
            self.wf(),
        ensures
            match self@.find_iface(device, to@) {
                Err(e) => r is Err && r->Err_0 == e,
                Ok((d, i)) => match i.uplink() {
                    None => r is Err && r->Err_0 == CoreError::DummyIface,
                    Some(sw) => match self@.gateways(sw, mode_of(d, lab_mode)) {
                        Err(e) => r is Err && r->Err_0 == e,
                        Ok(g) => {
                            &&& r is Ok
                            &&& r->Ok_0.ns@ == d.ns
                            &&& r->Ok_0.egress == i.egress
                            &&& r->Ok_0.gateways == g
                        },
                    },
                },
            },
    {
        let dev = match self.devices.get(&device) {
            None => {
                return Err(CoreError::UnknownDevice);
            },
            Some(d) => d,
        };
        let iface = match dev.iface(to) {
            None => {
                return Err(CoreError::NoSuchIface);
            },
            Some(i) => i,
        };
        let uplink = match iface.uplink() {
            None => {
                return Err(CoreError::DummyIface);
            },
            Some(sw) => sw,
        };
        let mode = match dev.provisioning_mode {
            Some(m) => m,
            None => lab_mode,
        };
        match self.gateway_plan(uplink, mode) {
            Err(e) => Err(e),
            Ok(gateways) => Ok(
                DefaultRoutePlan { ns: dev.ns.clone(), egress: iface.egress, gateways },
            ),
        }
    }

    /// Plans bringing an interface up: the kernel has dropped its link-local
    /// address and, for the default interface, the default routes.
    pub fn link_up_plan(&self, device: NodeId, ifname: &str) -> (r: Result<LinkUpPlan, CoreError>)
        requires
            self.wf(),
        ensures
            match self@.find_iface(device, ifname@) {
                Err(e) => r is Err && r->Err_0 == e,
                Ok((d, i)) => {
                    &&& r is Ok
                    &&& r->Ok_0.ns@ == d.ns
                    &&& r->Ok_0.ll_v6 == i.ll_v6
                    &&& r->Ok_0.uplink == (if d.default_via == ifname@ {
                        i.uplink()
                    } else {
                        None
                    })
                },
            },
    {
        let dev = match self.devices.get(&device) {
            None => {
                return Err(CoreError::UnknownDevice);
            },
            Some(d) => d,
        };
        let iface = match dev.iface(ifname) {
            None => {
                return Err(CoreError::NoSuchIface);
            },
            Some(i) => i,
        };
        let uplink = if str_eq(dev.default_via.as_str(), ifname) {
            iface.uplink()
        } else {
            None
        };
        Ok(LinkUpPlan { ns: dev.ns.clone(), ll_v6: iface.ll_v6, uplink })
    }

    /// Plans a change of an interface's link condition. A dummy interface has
    /// no incoming side.
    pub fn condition_plan(&self, device: NodeId, ifname: &str, direction: LinkDirection) -> (r:
        Result<ConditionPlan, CoreError>)
        requires
            self.wf(),
        ensures
            match self@.find_iface(device, ifname@) {
                Err(e) => r is Err && r->Err_0 == e,
                Ok((d, i)) => match i.uplink() {
                    None => if direction is Ingress {
                        r is Err && r->Err_0 == CoreError::DummyIface
                    } else {
                        r is Ok && r->Ok_0.dev_ns@ == d.ns && r->Ok_0.gateway is None
                    },
                    Some(sw) => {
                        let known = self@.switches.contains_key(sw)
                            && self@.switches[sw].owner_router is Some
                            && self@.routers.contains_key(self@.switches[sw].owner_router->0);
                        if known {
                            let x = self@.routers[self@.switches[sw].owner_router->0];
                            &&& r is Ok
                            &&& r->Ok_0.dev_ns@ == d.ns
                            &&& r->Ok_0.gateway is Some
                            &&& (r->Ok_0.gateway->0).0@ == x.ns
                            &&& (r->Ok_0.gateway->0).1@ == "v"@ + dec(i.idx as nat)
                        } else {
                            r is Err && r->Err_0 == CoreError::UnknownRouter
                        }
                    },
                },
            },
    {
        let dev = match self.devices.get(&device) {
            None => {
                return Err(CoreError::UnknownDevice);
            },
            Some(d) => d,
        };
        let iface = match dev.iface(ifname) {
            None => {
                return Err(CoreError::NoSuchIface);
            },
            Some(i) => i,
        };
        let gateway = match iface.uplink() {
            None => {
                if direction == LinkDirection::Ingress {
                    return Err(CoreError::DummyIface);
                }
                None
            },
            Some(sw) => {
                let owner = match self.switches.get(&sw) {
                    Some(s) => s.owner_router,
                    None => None,
                };
                let router = match owner {
                    Some(rid) => self.routers.get(&rid),
                    None => None,
                };
                match router {
                    None => {
                        return Err(CoreError::UnknownRouter);
                    },
                    Some(x) => {
                        let mut name = "v".to_owned();
                        push_dec(&mut name, iface.idx);
                        Some((x.ns.clone(), name))
                    },
                }
            },
        };
        Ok(ConditionPlan { dev_ns: dev.ns.clone(), gateway })
    }

    /// Stores a link condition that was applied. Does nothing where the
    /// interface is gone.
    pub fn store_condition(
        &mut self,
        device: NodeId,
        ifname: &str,
        condition: Option<LinkCondition>,
        direction: LinkDirection,
        routed: bool,
    )
        requires
            old(self).wf(),
        ensures
            final(self).wf(),
            final(self)@ == old(self)@.changed_iface(
                device,
                ifname@,
                |i: IfaceView| with_condition(i, condition, direction, routed),
            ),
    {
        let k = match self.devices.get(&device) {
            None => {
                return;
            },
            Some(d) => match d.find_iface(ifname) {
                None => {
                    return;
                },
                Some(k) => k,
            },
        };
        let ghost before = self@.devices[device];
        let ghost i = before.interfaces[k as int];
        let ghost new = with_condition(i, condition, direction, routed);
        proof {
            iface_from_is_first(before.interfaces, ifname@, 0);
            change_keeps_wf(before, k as int, new);
        }
        if let Some(dev) = self.devices.get_mut(&device) {
            let iface = &mut dev.interfaces[k];
            match direction {
                LinkDirection::Egress => {
                    iface.egress = condition;
                },
                LinkDirection::Ingress => {
                    iface.ingress = condition;
                },
                LinkDirection::Both => {
                    iface.egress = condition;
                    if routed {
                        iface.ingress = condition;
                    }
                },
            }
            assert(dev@.interfaces =~= before.interfaces.update(k as int, new));
        }
    }

    /// Registers an interface on a device that is running and returns what
    /// wires it. Addresses that are given take the place of those from the
    /// pool.
    pub fn plan_add_iface(
        &mut self,
        device: NodeId,
        ifname: &str,
        config: IfaceConfig,
        lab_mode: Ipv6ProvisioningMode,
    ) -> (r: Result<AddIfaceSetup, CoreError>)
        requires
            old(self).wf(),
            old(self).next_id < u64::MAX,
        ensures
            final(self).wf(),
            final(self)@ == old(self)@.planned_add(device, ifname@, config, lab_mode).0,
            match r {
                Ok(s) => {
                    &&& old(self)@.planned_add(device, ifname@, config, lab_mode).1 == Ok::<
                        BuildView,
                        CoreError,
                    >(s.iface_build@)
                    &&& s.prefix@ == old(self)@.cfg.prefix@
                    &&& s.root_ns@ == old(self)@.cfg.root_ns@
                    &&& s.mtu == (if config.gateway is Some {
                        old(self)@.devices[device].mtu
                    } else {
                        None
                    })
                },
                Err(e) => old(self)@.planned_add(device, ifname@, config, lab_mode).1 == Err::<
                    BuildView,
                    CoreError,
                >(e),
            },
    {
        if let Some(router) = config.gateway {
            let own = match self.devices.get(&device) {
                Some(d) => d.provisioning_mode,
                None => None,
            };
            let mut setup = match self.prepare_add_iface(device, ifname, router, config.egress) {
                Ok(s) => s,
                Err(e) => {
                    return Err(e);
                },
            };
            let mode = match own {
                Some(m) => m,
                None => lab_mode,
            };
            if mode == Ipv6ProvisioningMode::RaDriven {
                setup.iface_build.gw_ip_v6 = None;
            }
            setup.iface_build.ingress = config.ingress;
            setup.iface_build.start_down = config.start_down;
            if let Some(addr) = config.addr {
                setup.iface_build.dev_ip = Some(addr.addr);
                setup.iface_build.prefix_len = addr.prefix_len;
            }
            if let Some(addr) = config.addr_v6 {
                setup.iface_build.dev_ip_v6 = Some(addr.addr);
                setup.iface_build.prefix_len_v6 = addr.prefix_len;
            }
            return Ok(setup);
        }
        if let Err(e) = self.add_device_iface_from_config(device, ifname, config) {
            return Err(e);
        }
        let dev = self.devices.get(&device).unwrap();
        let iface = &dev.interfaces[dev.interfaces.len() - 1];
        assert(iface@ == dev@.interfaces.last());
        let iface_build = IfaceBuild {
            dev_ns: dev.ns.clone(),
            gw_ns: "".to_owned(),
            gw_ip: None,
            gw_br: "".to_owned(),
            dev_ip: iface.ip,
            prefix_len: match iface.prefix_len {
                Some(n) => n,
                None => 24,
            },
            gw_ip_v6: None,
            dev_ip_v6: iface.ip_v6,
            gw_ll_v6: None,
            dev_ll_v6: None,
            prefix_len_v6: match iface.prefix_len_v6 {
                Some(n) => n,
                None => 64,
            },
            egress: iface.egress,
            ingress: None,
            dummy: true,
            start_down: iface.start_down,
            ifname: iface.ifname.clone(),
            is_default: false,
            idx: iface.idx,
        };
        Ok(
            AddIfaceSetup {
                iface_build,
                prefix: self.cfg.prefix.clone(),
                root_ns: self.cfg.root_ns.clone(),
                mtu: None,
            },
        )
    }

    /// Stores what a configuration sets once its routed interface is wired.
    /// Does nothing where the interface is gone.
    pub fn store_added_iface(&mut self, device: NodeId, ifname: &str, config: IfaceConfig)
        requires
            old(self).wf(),
        ensures
            final(self).wf(),
            final(self)@ == old(self)@.changed_iface(
                device,
                ifname@,
                |i: IfaceView| with_addresses(i, config),
            ),
    {
        let k = match self.devices.get(&device) {
            None => {
                return;
            },
            Some(d) => match d.find_iface(ifname) {
                None => {
                    return;
                },
                Some(k) => k,
            },
        };
        let ghost before = self@.devices[device];
        let ghost new = with_addresses(before.interfaces[k as int], config);
        proof {
            iface_from_is_first(before.interfaces, ifname@, 0);
            change_keeps_wf(before, k as int, new);
        }
        if let Some(dev) = self.devices.get_mut(&device) {
            let iface = &mut dev.interfaces[k];
            iface.ingress = config.ingress;
            if let Some(addr) = config.addr {
                iface.ip = Some(addr.addr);
                iface.prefix_len = Some(addr.prefix_len);
            }
            if let Some(addr) = config.addr_v6 {
                iface.ip_v6 = Some(addr.addr);
                iface.prefix_len_v6 = Some(addr.prefix_len);
            }
            assert(dev@.interfaces =~= before.interfaces.update(k as int, new));
        }
    }

    /// Plans moving an interface to another router: takes addresses there and
    /// returns what wires it, with the name of the router it leaves.
    pub fn plan_replug(
        &mut self,
        device: NodeId,
        ifname: &str,
        to_router: NodeId,
        lab_mode: Ipv6ProvisioningMode,
    ) -> (r: Result<(ReplugIfaceSetup, String), CoreError>)
        requires
            old(self).wf(),
        ensures
            final(self).wf(),
            old(self)@.find_iface(device, ifname@) is Ok && (old(self)@.find_iface(
                device,
                ifname@,
            )->Ok_0).1.attachment is Dummy ==> r is Err && r->Err_0 == CoreError::DummyIface
                && final(self)@ == old(self)@,
            !(old(self)@.find_iface(device, ifname@) is Ok && (old(self)@.find_iface(
                device,
                ifname@,
            )->Ok_0).1.attachment is Dummy) ==> {
                let (c, b) = old(self)@.prepared_replug(device, ifname@, to_router);
                &&& final(self)@ == c
                &&& match b {
                    Err(e) => r is Err && r->Err_0 == e,
                    Ok(b) => {
                        let d = c.devices[device];
                        &&& r is Ok
                        &&& (r->Ok_0).0.iface_build@ == (BuildView {
                            gw_ip_v6: if mode_of(d, lab_mode) is RaDriven {
                                None
                            } else {
                                b.gw_ip_v6
                            },
                            ..b
                        })
                        &&& (r->Ok_0).0.prefix@ == c.cfg.prefix@
                        &&& (r->Ok_0).0.root_ns@ == c.cfg.root_ns@
                        &&& (r->Ok_0).1@ == router_name(c, d.iface(ifname@)->0)
                    },
                }
            },
    {
        if let Some(d) = self.devices.get(&device) {
            if let Some(i) = d.iface(ifname) {
                if i.is_dummy() {
                    return Err(CoreError::DummyIface);
                }
            }
        }
        let mut setup = match self.prepare_replug_iface(device, ifname, to_router) {
            Ok(s) => s,
            Err(e) => {
                return Err(e);
            },
        };
        let dev = self.devices.get(&device).unwrap();
        let k = dev.find_iface(ifname).unwrap();
        let snapshot = DeviceState::snapshot(dev, k, self);
        let mode = match dev.provisioning_mode {
            Some(m) => m,
            None => lab_mode,
        };
        if mode == Ipv6ProvisioningMode::RaDriven {
            setup.iface_build.gw_ip_v6 = None;
        }
        Ok((setup, snapshot.router))
    }
}

} // verus!
